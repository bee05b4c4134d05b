//! Messages that the client sends to the server, per stage.
use vstd::prelude::*;

use crate::game::{Card, Rank, Role, Suit};
use crate::protocol::Username;

verus! {

/// Sent in the login stage.
#[derive(Debug, Clone)]
pub enum IntroMsg {
    Login(Username),
    GetChatLog,
    StartHome,
}

/// Sent in the lobby.
#[derive(Debug, Clone)]
pub enum HomeMsg {
    Chat(String),
    StartRoles,
}

/// Sent while choosing roles.
#[derive(Debug, Clone)]
pub enum RolesMsg {
    Chat(String),
    Select(Role),
    StartGame,
}

/// Sent during the game.
#[derive(Debug, Clone)]
pub enum GameMsg {
    Chat(String),
    DropAbility(Rank),
    SelectAbility(Rank),
    Attack(Card),
    Continue,
}

/// Sent in any stage.
#[derive(Debug, Clone, Copy, PartialEq, Eq, Structural)]
pub enum SharedMsg {
    Ping,
    Logout,
}

/// What a player needs to start or rejoin the game.
#[derive(Debug, Clone, Copy, PartialEq, Eq)]
pub struct StartGame {
    pub abilities: [Option<Rank>; 3],
    pub monsters: [Option<Card>; 2],
    pub role: Suit,
}

} // verus!
