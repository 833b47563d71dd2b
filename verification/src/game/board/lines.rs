use vstd::prelude::*;

use crate::game::{
    CLEAR_DELAY_CLASSIC, SCORE_DOUBLE_BASE, SCORE_QUADRUPLE_BASE, SCORE_SINGLE_BASE,
    SCORE_TRIPLE_BASE,
};

verus! {

broadcast use vstd::seq_lib::group_to_multiset_ensures;


/// A full row waiting `clear_delay` more frames before it is cleared, with the
/// player whose piece filled it and how many rows that piece filled at once.
#[derive(PartialEq, Eq, Structural, Copy, Clone, Debug, PartialOrd, Ord)]
pub struct FullLine {
    pub row: u8,
    pub lines_cleared_together: u8,
    pub player: u8,
    pub clear_delay: i8,
    pub remove_flag: bool,
}

impl FullLine {
    pub fn new(row: u8, lines_cleared_together: u8, player: u8) -> (r: Self)
        ensures
            r == (FullLine {
                row,
                lines_cleared_together,
                player,
                clear_delay: CLEAR_DELAY_CLASSIC,
                remove_flag: false,
            }),
    {
        Self { row, lines_cleared_together, player, clear_delay: CLEAR_DELAY_CLASSIC, remove_flag: false }
    }
}

/// The order of full lines: by row, then by the other fields in declaration order.
pub open spec fn line_le(a: FullLine, b: FullLine) -> bool {
    if a.row != b.row {
        a.row < b.row
    } else if a.lines_cleared_together != b.lines_cleared_together {
        a.lines_cleared_together < b.lines_cleared_together
    } else if a.player != b.player {
        a.player < b.player
    } else if a.clear_delay != b.clear_delay {
        a.clear_delay < b.clear_delay
    } else {
        !a.remove_flag || b.remove_flag
    }
}

pub open spec fn lines_sorted(s: Seq<FullLine>) -> bool {
    forall|i: int, j: int| 0 <= i < j < s.len() ==> line_le(#[trigger] s[i], #[trigger] s[j])
}

pub(crate) fn line_le_exec(a: &FullLine, b: &FullLine) -> (r: bool)
    ensures
        r == line_le(*a, *b),
{
    if a.row != b.row {
        a.row < b.row
    } else if a.lines_cleared_together != b.lines_cleared_together {
        a.lines_cleared_together < b.lines_cleared_together
    } else if a.player != b.player {
        a.player < b.player
    } else if a.clear_delay != b.clear_delay {
        a.clear_delay < b.clear_delay
    } else {
        !a.remove_flag || b.remove_flag
    }
}

/// The lines in sorted order.
pub(crate) fn sorted_lines(v: &Vec<FullLine>) -> (r: Vec<FullLine>)
    ensures
        lines_sorted(r@),
        r@.to_multiset() == v@.to_multiset(),
{
    let mut out: Vec<FullLine> = Vec::new();
    let mut i: usize = 0;
    while i < v.len()
        invariant
            0 <= i <= v.len(),
            lines_sorted(out@),
            out@.to_multiset() == v@.take(i as int).to_multiset(),
        decreases v.len() - i,
    {
        let e = v[i];
        let mut j: usize = 0;
        while j < out.len() && line_le_exec(&out[j], &e)
            invariant
                0 <= j <= out.len(),
                forall|k: int| 0 <= k < j ==> line_le(#[trigger] out@[k], e),
            decreases out.len() - j,
        {
            j = j + 1;
        }
        let ghost before = out@;
        out.insert(j, e);
        assert(out@ == before.insert(j as int, e));
        assert forall|a: int, b: int| 0 <= a < b < out@.len() implies line_le(
            #[trigger] out@[a],
            #[trigger] out@[b],
        ) by {
            if b < j {
                assert(line_le(before[a], before[b]));
            } else if b == j {
                assert(line_le(before[a], e));
            } else if a == j {
                assert(!line_le(before[j as int], e));
                assert(line_le(before[j as int], before[b - 1]) || b - 1 == j);
            } else if a < j {
                assert(line_le(before[a], before[b - 1]));
            } else {
                assert(line_le(before[a - 1], before[b - 1]));
            }
        }
        assert(v@.take(i + 1) =~= v@.take(i as int).push(e));
        i = i + 1;
    }
    assert(v@.take(v.len() as int) =~= v@);
    out
}


/// The full lines a lock of `player`'s piece adds for the full rows `rows`.
pub open spec fn lines_for(rows: Seq<u8>, player: u8) -> Seq<FullLine> {
    rows.map_values(
        |r: u8|
            FullLine {
                row: r,
                lines_cleared_together: rows.len() as u8,
                player,
                clear_delay: CLEAR_DELAY_CLASSIC,
                remove_flag: false,
            },
    )
}


// ---------------------------------------------------------------------------
// Clearing
// ---------------------------------------------------------------------------

/// A line whose delay has run out is cleared on this frame.
pub open spec fn due(l: FullLine) -> bool {
    l.clear_delay <= 0
}

/// The lines of `s` that are cleared on this frame, in order.
pub open spec fn due_lines(s: Seq<FullLine>) -> Seq<FullLine> {
    s.filter(|l: FullLine| due(l))
}

/// A line that keeps waiting: one frame less to wait, and moved down by the
/// `below` rows that are cleared under it.
pub open spec fn stepped(l: FullLine, below: int) -> FullLine {
    FullLine { row: (l.row + below) as u8, clear_delay: (l.clear_delay - 1) as i8, ..l }
}

/// The queue after one frame of clearing: due lines leave, and every other
/// line waits one frame less and moves down by the number of due lines after it.
pub open spec fn lines_after_clear(s: Seq<FullLine>) -> Seq<FullLine>
    decreases s.len(),
{
    if s.len() == 0 {
        s
    } else {
        let rest = lines_after_clear(s.drop_first());
        if due(s[0]) {
            rest
        } else {
            seq![stepped(s[0], due_lines(s.drop_first()).len() as int)] + rest
        }
    }
}

/// Rows strictly increase along the queue (no row is queued twice).
pub open spec fn rows_increasing(s: Seq<FullLine>) -> bool {
    forall|i: int, j: int| 0 <= i < j < s.len() ==> (#[trigger] s[i]).row < (#[trigger] s[j]).row
}

/// Every queued row is above row `h`.
pub open spec fn rows_below(s: Seq<FullLine>, h: int) -> bool {
    forall|i: int| 0 <= i < s.len() ==> (#[trigger] s[i]).row < h
}

/// Length of the leading run of lines filled by the same player.
pub open spec fn run_len(s: Seq<FullLine>) -> nat
    decreases s.len(),
{
    if s.len() <= 1 {
        s.len()
    } else if s[1].player == s[0].player {
        1 + run_len(s.drop_first())
    } else {
        1
    }
}

/// Points for `k` lines cleared at once by one player at `level`.
pub open spec fn line_score(k: nat, level: u8) -> nat {
    let factor = (level + 1) as nat;
    if k == 1 {
        (SCORE_SINGLE_BASE * factor) as nat
    } else if k == 2 {
        (SCORE_DOUBLE_BASE * factor) as nat
    } else if k == 3 {
        (SCORE_TRIPLE_BASE * factor) as nat
    } else if k == 4 {
        (SCORE_QUADRUPLE_BASE * factor) as nat
    } else {
        0
    }
}

/// Points for the lines `s` cleared on one frame: each run of lines of one
/// player scores as one clear of that many lines.
pub open spec fn clear_score(s: Seq<FullLine>, level: u8) -> nat
    decreases s.len(),
{
    if s.len() == 0 {
        0
    } else {
        let k = run_len(s);
        if 1 <= k <= s.len() {
            line_score(k, level) + clear_score(s.skip(k as int), level)
        } else {
            0
        }
    }
}

proof fn lemma_run_len_bounds(s: Seq<FullLine>)
    requires
        s.len() > 0,
    ensures
        1 <= run_len(s) <= s.len(),
    decreases s.len(),
{
    if s.len() > 1 && s[1].player == s[0].player {
        lemma_run_len_bounds(s.drop_first());
    }
}

/// A run of `k` equal players that ends at the end of `s` or at another player.
proof fn lemma_run_len_is(s: Seq<FullLine>, k: int)
    requires
        1 <= k <= s.len(),
        forall|j: int| 0 <= j < k ==> (#[trigger] s[j]).player == s[0].player,
        k == s.len() || s[k].player != s[0].player,
    ensures
        run_len(s) == k,
    decreases k,
{
    if k > 1 {
        assert(s[1].player == s[0].player);
        let t = s.drop_first();
        assert forall|j: int| 0 <= j < k - 1 implies (#[trigger] t[j]).player == t[0].player by {
            assert(s[j + 1].player == s[0].player);
        }
        lemma_run_len_is(t, k - 1);
    }
}

proof fn lemma_clear_score_bound(s: Seq<FullLine>, level: u8)
    ensures
        clear_score(s, level) <= 307200 * s.len(),
    decreases s.len(),
{
    if s.len() > 0 {
        lemma_run_len_bounds(s);
        let k = run_len(s);
        lemma_clear_score_bound(s.skip(k as int), level);
        assert(line_score(k, level) <= 307200);
    }
}

/// A strictly increasing queue of rows between `a` and `h` holds at most `h - 1 - a` lines.
pub proof fn lemma_increasing_len(s: Seq<FullLine>, a: int, h: int)
    requires
        rows_increasing(s),
        forall|i: int| 0 <= i < s.len() ==> a < (#[trigger] s[i]).row < h,
    ensures
        s.len() == 0 || s.len() <= h - 1 - a,
    decreases s.len(),
{
    if s.len() > 0 {
        let t = s.drop_first();
        assert forall|i: int| 0 <= i < t.len() implies s[0].row < (#[trigger] t[i]).row < h by {
            assert(s[i + 1] == t[i]);
        }
        lemma_increasing_len(t, s[0].row as int, h);
    }
}

/// The lines that are cleared on this frame.
pub(crate) fn due_lines_exec(v: &Vec<FullLine>) -> (r: Vec<FullLine>)
    ensures
        r@ == due_lines(v@),
        forall|k: int| 0 <= k < r.len() ==> v@.contains(#[trigger] r@[k]),
{
    let mut r: Vec<FullLine> = Vec::new();
    let mut i: usize = 0;
    while i < v.len()
        invariant
            0 <= i <= v.len(),
            r@ == due_lines(v@.take(i as int)),
            forall|k: int| 0 <= k < r.len() ==> v@.contains(#[trigger] r@[k]),
        decreases v.len() - i,
    {
        proof {
            v@.take(i as int).lemma_filter_push(v@[i as int], |l: FullLine| due(l));
            assert(v@.take(i + 1) =~= v@.take(i as int).push(v@[i as int]));
        }
        if v[i].clear_delay <= 0 {
            r.push(v[i]);
        }
        i = i + 1;
    }
    assert(v@.take(v.len() as int) =~= v@);
    r
}

/// The queue after one frame of clearing (see `lines_after_clear`).
pub(crate) fn lines_after_clear_exec(v: &Vec<FullLine>, h: u8) -> (r: Vec<FullLine>)
    requires
        rows_increasing(v@),
        rows_below(v@, h as int),
    ensures
        r@ == lines_after_clear(v@),
        rows_below(r@, h as int),
{
    let n = v.len();
    let mut r: Vec<FullLine> = Vec::new();
    let mut cnt: u8 = 0;
    let mut i: usize = n;
    while i > 0
        invariant
            0 <= i <= n,
            n == v.len(),
            rows_increasing(v@),
            rows_below(v@, h as int),
            r@ == lines_after_clear(v@.subrange(i as int, n as int)),
            cnt == due_lines(v@.subrange(i as int, n as int)).len(),
            rows_below(r@, h as int),
        decreases i,
    {
        let ghost tail = v@.subrange(i as int, n as int);
        let ghost cur = v@.subrange(i - 1, n as int);
        proof {
            assert(cur.drop_first() =~= tail);
            assert(cur =~= seq![v@[i - 1]] + tail);
            tail.lemma_filter_prepend(v@[i - 1], |l: FullLine| due(l));
            tail.lemma_filter_len(|l: FullLine| due(l));
            assert forall|j: int| 0 <= j < tail.len() implies v@[i - 1].row < (#[trigger] tail[j]).row < h by {
                assert(tail[j] == v@[i + j]);
            }
            lemma_increasing_len(tail, v@[i - 1].row as int, h as int);
        }
        let l = v[i - 1];
        if l.clear_delay <= 0 {
            cnt = cnt + 1;
        } else {
            let kept = FullLine { row: l.row + cnt, clear_delay: l.clear_delay - 1, ..l };
            r.insert(0, kept);
            assert(r@ =~= seq![kept] + lines_after_clear(tail));
        }
        i = i - 1;
    }
    assert(v@.subrange(0, n as int) =~= v@);
    r
}

/// Points for the lines `due` cleared on one frame at `level`.
pub(crate) fn clear_score_exec(due: &Vec<FullLine>, level: u8) -> (r: u32)
    requires
        due.len() <= 255,
    ensures
        r == clear_score(due@, level),
{
    let n = due.len();
    let mut score: u32 = 0;
    let mut checked: usize = 0;
    proof {
        lemma_clear_score_bound(due@, level);
        assert(due@.skip(0) =~= due@);
    }
    while checked < n
        invariant
            0 <= checked <= n,
            n == due.len(),
            n <= 255,
            clear_score(due@, level) <= 307200 * n,
            score + clear_score(due@.skip(checked as int), level) == clear_score(due@, level),
        decreases n - checked,
    {
        let player_num = due[checked].player;
        let mut run: usize = 1;
        while checked + run < n && due[checked + run].player == player_num
            invariant
                0 <= checked < n,
                n == due.len(),
                1 <= run <= n - checked,
                player_num == due@[checked as int].player,
                forall|j: int| checked <= j < checked + run ==> (#[trigger] due@[j]).player == player_num,
            decreases n - checked - run,
        {
            run = run + 1;
        }
        let ghost rest = due@.skip(checked as int);
        proof {
            assert forall|j: int| 0 <= j < run implies (#[trigger] rest[j]).player == rest[0].player by {
                assert(rest[j] == due@[checked + j]);
            }
            if checked + run < n {
                assert(rest[run as int] == due@[checked + run]);
            }
            lemma_run_len_is(rest, run as int);
            assert(rest.skip(run as int) =~= due@.skip(checked + run));
        }
        let points: u32 = if run == 1 {
            SCORE_SINGLE_BASE as u32 * (level as u32 + 1)
        } else if run == 2 {
            SCORE_DOUBLE_BASE as u32 * (level as u32 + 1)
        } else if run == 3 {
            SCORE_TRIPLE_BASE as u32 * (level as u32 + 1)
        } else if run == 4 {
            SCORE_QUADRUPLE_BASE as u32 * (level as u32 + 1)
        } else {
            0
        };
        assert(points == line_score(run as nat, level));
        score = score + points;
        checked = checked + run;
    }
    score
}


/// Clearing keeps the queue strictly increasing by row: a line that keeps
/// waiting moves down by no more than the number of queued rows between it and
/// the next waiting line. With every row of `s` strictly between `a` and `h`,
/// every line left is at least `a + 1 + (number of lines cleared)` and below `h`.
pub proof fn lemma_clear_keeps_rows_increasing(s: Seq<FullLine>, a: int, h: int)
    requires
        rows_increasing(s),
        h <= 256,
        forall|i: int| 0 <= i < s.len() ==> a < (#[trigger] s[i]).row < h,
    ensures
        rows_increasing(lines_after_clear(s)),
        forall|i: int|
            0 <= i < lines_after_clear(s).len() ==> a + 1 + due_lines(s).len() <= (
            #[trigger] lines_after_clear(s)[i]).row < h,
    decreases s.len(),
{
    if s.len() > 0 {
        let x = s[0];
        let t = s.drop_first();
        assert forall|i: int| 0 <= i < t.len() implies x.row < (#[trigger] t[i]).row < h by {
            assert(s[i + 1] == t[i]);
        }
        assert(rows_increasing(t)) by {
            assert forall|i: int, j: int| 0 <= i < j < t.len() implies (#[trigger] t[i]).row < (
            #[trigger] t[j]).row by {
                assert(s[i + 1] == t[i] && s[j + 1] == t[j]);
            }
        }
        lemma_clear_keeps_rows_increasing(t, x.row as int, h);
        assert(s =~= seq![x] + t);
        t.lemma_filter_prepend(x, |l: FullLine| due(l));
        t.lemma_filter_len(|l: FullLine| due(l));
        lemma_increasing_len(t, x.row as int, h);
        let rt = lines_after_clear(t);
        if !due(x) {
            let first = stepped(x, due_lines(t).len() as int);
            assert(lines_after_clear(s) == seq![first] + rt);
            assert(first.row == x.row + due_lines(t).len());
            assert forall|i: int, j: int|
                0 <= i < j < lines_after_clear(s).len() implies (#[trigger] lines_after_clear(s)[i]).row < (
            #[trigger] lines_after_clear(s)[j]).row by {
                if i > 0 {
                    assert(lines_after_clear(s)[i] == rt[i - 1]);
                }
                assert(lines_after_clear(s)[j] == rt[j - 1]);
            }
            assert forall|i: int| 0 <= i < lines_after_clear(s).len() implies a + 1 + due_lines(s).len() <= (
            #[trigger] lines_after_clear(s)[i]).row < h by {
                if i > 0 {
                    assert(lines_after_clear(s)[i] == rt[i - 1]);
                }
            }
        }
    }
}


/// Lines cleared together by one player score as one clear of that many
/// lines: 40, 100, 300 or 1200 points times the level plus one (and none for
/// more than four).
pub proof fn law_one_player_score(s: Seq<FullLine>, level: u8)
    requires
        s.len() > 0,
        forall|i: int| 0 <= i < s.len() ==> (#[trigger] s[i]).player == s[0].player,
    ensures
        clear_score(s, level) == line_score(s.len(), level),
        s.len() == 1 ==> clear_score(s, level) == 40 * (level + 1),
        s.len() == 2 ==> clear_score(s, level) == 100 * (level + 1),
        s.len() == 3 ==> clear_score(s, level) == 300 * (level + 1),
        s.len() == 4 ==> clear_score(s, level) == 1200 * (level + 1),
        s.len() > 4 ==> clear_score(s, level) == 0,
{
    lemma_run_len_is(s, s.len() as int);
    assert(s.skip(s.len() as int) =~= Seq::<FullLine>::empty());
    assert(clear_score(Seq::<FullLine>::empty(), level) == 0);
    assert(clear_score(s, level) == line_score(s.len(), level) + clear_score(s.skip(s.len() as int), level));
}

/// Lines of two players that take turns score separately: the lines of the
/// first run, then the rest.
pub proof fn law_runs_score_apart(s: Seq<FullLine>, k: int, level: u8)
    requires
        0 < k < s.len(),
        forall|i: int| 0 <= i < k ==> (#[trigger] s[i]).player == s[0].player,
        s[k].player != s[0].player,
    ensures
        clear_score(s, level) == line_score(k as nat, level) + clear_score(s.skip(k), level),
{
    lemma_run_len_is(s, k);
}

/// The points for `k` lines (or rings) cleared at once: 40, 100, 300 or 1200
/// times the level plus one, and none for any other count.
pub proof fn law_score_table(k: nat, level: u8)
    ensures
        k == 1 ==> line_score(k, level) == 40 * (level + 1),
        k == 2 ==> line_score(k, level) == 100 * (level + 1),
        k == 3 ==> line_score(k, level) == 300 * (level + 1),
        k == 4 ==> line_score(k, level) == 1200 * (level + 1),
        k == 0 || k > 4 ==> line_score(k, level) == 0,
{
}

} // verus!
