//! Core engine of a terminal falling-block puzzle game.
//!
//! The library owns the game rules: the catalog of the seven tetromino
//! kinds and their rotation states, the active piece, the settled board
//! with collision testing and line clearing, and the engine that ties
//! them together with scoring, levels and gravity timing.  Rendering and
//! input live outside the library and only read the state exposed here.

pub mod board;
pub mod game;
pub mod kind;
pub mod piece;
