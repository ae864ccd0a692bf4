//! Turn-resolution engine for an Uno-style card game.
//!
//! The crate models the cards (`card`), builds the standard deck (`deck`),
//! moves cards between deck, discard pile and hands (`draw`), sets a game
//! up (`setup`), and resolves turns for human and computer-controlled seats
//! (`game`, `policy`, `command`, `engine`). What an observer is shown is in
//! `ui`, what a player types in `user_input`. `laws` states what holds of
//! every game that can be reached.
//!
//! Each function says in its contract what it returns or changes, over the
//! views of the types: a game is seen as a `GameView`, a pile of cards as a
//! sequence whose last card is on top.

pub mod card;
pub mod command;
pub mod deck;
pub mod draw;
pub mod engine;
pub mod game;
pub mod laws;
pub mod policy;
pub mod setup;
pub mod text;
pub mod ui;
pub mod user_input;
