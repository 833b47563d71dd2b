//! Game logic of a multiplayer falling-block puzzle game with two modes: a
//! classic mode on a shared rectangular board and a "rotatris" mode on a square
//! board whose gravity can be rotated.

pub mod abstracted;
pub mod control;
pub mod game;
pub mod inputs;
pub mod menu;
pub mod movement;
pub mod sounds;
