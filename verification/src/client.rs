//! The client's side: what it shows, how it answers the server and the keys.
pub mod input;
pub mod states;
pub mod ui;
