# tetrisnt

Multiplayer falling-block game in two modes: classic (one wide board shared
by all players) and rotatris (a square board that turns, clearing rings).

- `src/` is the verified library: pieces and their moves and turns, the
  classic and rotatris boards (spawning, moving, locking, clearing, scoring),
  the players' controls, the game loop's decisions, the menus (mode choice,
  start menu, key binding) and the tile pictures' pixel patterns.
- `tests/` runs the library on concrete games and menus.
- `app/` is the ggez front end: window, events, drawing, and the few
  computations done in floating point (spawn columns, tile shading, gamepad
  sticks).
