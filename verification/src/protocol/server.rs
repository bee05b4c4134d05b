//! Messages that the server sends to the client, per stage.
use vstd::prelude::*;

use crate::game::{Card, Rank, Role};
use crate::protocol::{client, RoleStatus, TurnStatus, Username};

verus! {

/// Most players in a game.
pub const MAX_PLAYER_COUNT: usize = 2;

/// Abilities that a player holds at a time.
pub const ABILITY_COUNT: usize = 3;

/// Monsters on the table at a time.
pub const MONSTERS_PER_LINE_COUNT: usize = 2;

/// The address of a connected player: an IP address (IPv4 ones held in the low 32 bits,
/// with `v6` false) and a port.
#[derive(Debug, Clone, Copy, PartialEq, Eq, Structural, Hash)]
pub struct PlayerId {
    pub v6: bool,
    pub ip: u128,
    pub port: u16,
}

impl crate::server::details::StatebleItem for PlayerId {
    fn same_item(&self, other: &Self) -> (r: bool) {
        *self == *other
    }
}

/// Sent in the login stage.
#[derive(Debug, Clone)]
pub enum IntroMsg {
    LoginStatus(LoginStatus),
    StartHome,
    ReconnectRoles(Option<Role>),
    ReconnectGame(client::StartGame),
}

/// Sent in the lobby.
#[derive(Debug, Clone, Copy)]
pub enum HomeMsg {
    StartRoles(Option<Role>),
}

/// Sent while choosing roles.
#[derive(Debug)]
pub enum RolesMsg {
    SelectedStatus(Result<Role, SelectRoleError>),
    AvailableRoles([RoleStatus; 4]),
    StartGame(client::StartGame),
}

/// The outcome of a move: its value if it was the player's turn, else the name of the
/// player whose turn it is.
pub type TurnResult<T> = Result<T, Username>;

/// Sent during the game.
#[derive(Debug)]
pub enum GameMsg {
    DropAbility(TurnResult<Rank>),
    SelectAbility(TurnResult<Rank>),
    Attack(TurnResult<Card>),
    Defend(Option<Card>),
    Turn(TurnStatus),
    Continue(TurnResult<()>),
    UpdateGameData([Option<Card>; 2], [Option<Rank>; 3]),
}

/// Sent in any stage.
#[derive(Debug, Clone)]
pub enum SharedMsg {
    Pong,
    Logout,
    ChatLog(Vec<ChatLine>),
    Chat(ChatLine),
}

/// Why a role could not be selected.
#[derive(Debug, Clone, Copy, PartialEq, Eq, Structural)]
pub enum SelectRoleError {
    Busy,
    AlreadySelected,
}

/// A line of the chat.
#[derive(Debug, Clone)]
pub enum ChatLine {
    Text(String),
    GameEvent(String),
    Connection(Username),
    Reconnection(Username),
    Disconnection(Username),
}

/// The answer to a login.
#[derive(Debug, Clone, Copy, PartialEq, Eq, Structural)]
pub enum LoginStatus {
    Logged,
    Reconnected,
    InvalidPlayerName,
    AlreadyLogged,
    PlayerLimit,
}

} // verus!
