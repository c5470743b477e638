//! A falling-block puzzle engine: pieces, board, timers and the turn state machine.

pub mod field;
pub mod game;
pub mod manager;
pub mod shape;
pub mod tetris;
pub mod theorems;
pub mod timer;
