//! One turn of a bomb puzzle played on a square board.
//!
//! The board holds enemies, bombs, rocks, walls and deflectors. A turn sets
//! off the bomb at a chosen cell: its blast runs in the four directions,
//! is stopped by walls and rocks and turned by deflectors, takes a point of
//! health from every enemy that it reaches and sets off every bomb that it
//! reaches.
//!
//! * [`modelo`] holds the pieces, the board and the path of a blast;
//! * [`turno`] plays the turn;
//! * [`bomberman_game`] reads a board from text, plays a turn on it and
//!   writes the board as text;
//! * [`texto`] holds the handling of text that the reading and writing need.
//!
//! Every function states what it computes over a mathematical model of the
//! board, `modelo::tablero::Tablero`, and is proved to compute it.

pub mod modelo;
pub mod texto;
pub mod turno;
pub mod bomberman_game;
