//! Minesweeper for the terminal: the board with its mines, flags and
//! reveals, the menus, and the game that ties them together, each function
//! with a contract that Verus proves.
//!
//! - [`types`]: cells, configurations, menu entries, colours
//! - [`grid`]: the board as a rectangle of cells, in mathematical terms
//! - [`mines`]: where the mines are laid, and how the numbers follow
//! - [`clicks`]: what a click reveals, and when the game is won or lost
//! - [`laws`]: what follows from these rules for every board
//! - [`shuffle`]: random orders of the cells
//! - [`timer`]: the stopwatch
//! - [`game_logic`]: the board itself
//! - [`menu`]: the menus and what choosing an entry does
//! - [`input`]: keys and clicks as the game sees them
//! - [`game`]: the states of the game and the steps between them
//! - [`layout`]: what is drawn where

pub mod clicks;
pub mod game;
pub mod game_logic;
pub mod grid;
pub mod input;
pub mod laws;
pub mod layout;
pub mod menu;
pub mod mines;
pub mod shuffle;
pub mod timer;
pub mod types;
