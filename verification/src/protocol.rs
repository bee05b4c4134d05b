//! What the client and the server say to each other, and the names they share.
pub mod client;
pub mod server;

use vstd::prelude::*;

verus! {

/// Most bytes a username holds.
pub const USERNAME_MAX_LEN: usize = 20;

/// Number of UTF-8 bytes that encode a text, as `str::len` gives it.
pub open spec fn utf8_len(s: Seq<char>) -> usize {
    vstd::utf8::encode_utf8(s).len() as usize
}

/// A player's name: at most 20 bytes of UTF-8.
#[derive(Debug)]
pub struct Username(pub String);

impl View for Username {
    type V = Seq<char>;

    open spec fn view(&self) -> Seq<char> {
        self.0@
    }
}

impl Clone for Username {
    fn clone(&self) -> (r: Self)
        ensures
            r@ == self@,
    {
        Username(self.0.clone())
    }
}

impl Default for Username {
    /// The empty name.
    fn default() -> (r: Self)
        ensures
            r@ == Seq::<char>::empty(),
    {
        Username(String::new())
    }
}

/// A name whose length in bytes is not in 2..=20.
#[derive(Debug, Clone, Copy, PartialEq, Eq, Structural)]
pub struct UsernameError(pub usize);

impl Username {
    /// A username from a text of at most 20 bytes; refused, with its length, if it holds
    /// fewer than two bytes.
    pub fn new(value: String) -> (r: Result<Username, UsernameError>)
        requires
            utf8_len(value@) <= USERNAME_MAX_LEN,
        ensures
            r is Ok <==> utf8_len(value@) > 1,
            r matches Ok(u) ==> u@ == value@,
            r matches Err(e) ==> e.0 == utf8_len(value@),
    {
        let len = value.as_str().len();
        if len > 1 {
            Ok(Username(value))
        } else {
            Err(UsernameError(len))
        }
    }

    /// Whether two usernames are the same text.
    pub fn same_as(&self, other: &Username) -> (r: bool)
        ensures
            r == (self@ == other@),
    {
        self.0 == other.0
    }

    /// The text of the name.
    pub fn as_str(&self) -> (s: &str)
        ensures
            s@ == self@,
    {
        self.0.as_str()
    }
}

/// Reads a username from a command-line argument: it holds 2 to 20 bytes, or the error
/// gives its length.
pub fn username_parser(name: &str) -> (r: Result<Username, UsernameError>)
    ensures
        r is Ok <==> 2 <= utf8_len(name@) <= USERNAME_MAX_LEN,
        r matches Ok(u) ==> u@ == name@,
        r matches Err(e) ==> e.0 == utf8_len(name@),
{
    let len = name.len();
    if len > USERNAME_MAX_LEN {
        Err(UsernameError(len))
    } else {
        Username::new(name.to_owned())
    }
}

/// A message of one side: either one that every stage understands or one of the stage.
#[derive(Debug, Clone)]
pub enum Msg<SharedMsg, StateMsg> {
    Shared(SharedMsg),
    State(StateMsg),
}

/// The stage in which a player is, with the data of each stage.
#[derive(Debug, Clone, Copy, PartialEq)]
pub enum GameContext<I, H, S, G> {
    Intro(I),
    Home(H),
    Roles(S),
    Game(G),
}

/// The stage of a `GameContext` without its data.
#[derive(Debug, Clone, Copy, PartialEq, Eq, Structural)]
pub enum GameContextKind {
    Intro,
    Home,
    Roles,
    Game,
}

/// The stage of a context.
pub open spec fn context_kind<I, H, S, G>(c: GameContext<I, H, S, G>) -> GameContextKind {
    match c {
        GameContext::Intro(_) => GameContextKind::Intro,
        GameContext::Home(_) => GameContextKind::Home,
        GameContext::Roles(_) => GameContextKind::Roles,
        GameContext::Game(_) => GameContextKind::Game,
    }
}

impl<I, H, S, G> GameContext<I, H, S, G> {
    /// The stage of the context.
    pub fn kind(&self) -> (k: GameContextKind)
        ensures
            k == context_kind(*self),
    {
        match self {
            GameContext::Intro(_) => GameContextKind::Intro,
            GameContext::Home(_) => GameContextKind::Home,
            GameContext::Roles(_) => GameContextKind::Roles,
            GameContext::Game(_) => GameContextKind::Game,
        }
    }
}

/// A message arrived in a stage that does not expect it.
#[derive(Debug, Clone, Copy, PartialEq, Eq, Structural)]
pub struct UnexpectedContext {
    pub expected: GameContextKind,
    pub found: GameContextKind,
}

/// The phase of a player's turn.
#[derive(Debug, PartialEq, Eq, Copy, Clone, Structural)]
pub enum GamePhaseKind {
    DropAbility,
    SelectAbility,
    AttachMonster,
    Defend,
}

impl Default for GamePhaseKind {
    /// A turn starts by dropping an ability.
    fn default() -> (p: Self)
        ensures
            p == GamePhaseKind::DropAbility,
    {
        GamePhaseKind::DropAbility
    }
}

/// Whether a player may act now, and in which phase.
#[derive(Clone, Copy, Debug, PartialEq, Eq, Structural)]
pub enum TurnStatus {
    Ready(GamePhaseKind),
    Wait,
}

impl TurnStatus {
    /// False for a waiting player; for a ready one, what `f` says of the phase.
    pub fn is_ready_and<F: FnOnce(GamePhaseKind) -> bool>(self, f: F) -> (r: bool)
        requires
            self matches TurnStatus::Ready(p) ==> f.requires((p,)),
        ensures
            self is Wait ==> !r,
            self matches TurnStatus::Ready(p) ==> f.ensures((p,), r),
    {
        match self {
            TurnStatus::Wait => false,
            TurnStatus::Ready(phase) => f(phase),
        }
    }
}

/// The availability of a role while players choose theirs.
#[derive(Debug, Clone, Copy, PartialEq, Eq, Structural)]
pub enum RoleStatus {
    Available(crate::game::Role),
    NotAvailable(crate::game::Role),
}

/// The role that a role status speaks of.
pub open spec fn status_role(s: RoleStatus) -> crate::game::Role {
    match s {
        RoleStatus::Available(r) => r,
        RoleStatus::NotAvailable(r) => r,
    }
}

impl RoleStatus {
    /// The role that the status speaks of.
    pub fn role(&self) -> (r: crate::game::Role)
        ensures
            r == status_role(*self),
    {
        match self {
            RoleStatus::Available(r) => *r,
            RoleStatus::NotAvailable(r) => *r,
        }
    }
}

/// A stage that leads to a next one.
pub trait NextState {
    type Next;
}

/// Reads whole messages from a stream of lines.
pub struct MessageDecoder<S> {
    pub stream: S,
}

impl<S> MessageDecoder<S> {
    /// A decoder over a stream.
    pub fn new(stream: S) -> (d: Self)
        ensures
            d.stream == stream,
    {
        MessageDecoder { stream }
    }
}

} // verus!
