//! A falling-block puzzle game for the terminal, as a library: the board, the pieces, the
//! rules by which a piece moves, turns and comes to rest, and the game as a state machine.
//!
//! The library neither reads the keyboard nor writes to the screen. A program around it
//! carries out what [`game::Session::step`] asks for and hands back what happened.

pub mod board;
pub mod cell;
pub mod game;
pub mod input;
pub mod tetromino;
