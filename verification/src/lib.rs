//! Game rules, turn order and protocol decisions of the Kobuleti card game.
pub mod client;
pub mod commands;
pub mod game;
pub mod protocol;
pub mod server;
