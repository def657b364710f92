//! Tic-tac-toe: the rules of one game, and a shell that keeps a stack of
//! screens and the transitions asked of it.
pub mod app;
pub mod game;
pub mod state;
