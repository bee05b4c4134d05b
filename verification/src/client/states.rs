//! The client's stages and how each answers the server's messages.
use vstd::prelude::*;

use crate::client::input::InputMode;
use crate::client::ui::details::StatefulList;
use crate::game::{all_roles, rank_name, suit_name, Card, Rank, Role, Suit};
use crate::protocol::client::{self as client_msg, StartGame};
use crate::protocol::server::{self as server_msg, ChatLine, LoginStatus};
use crate::protocol::{status_role, GameContext, GamePhaseKind, RoleStatus, TurnStatus, Username};
use crate::server::details::first_index_of;
use vstd::string::StringExecFns;

verus! {

/// The characters of `a` followed by those of `b`.
pub(crate) fn concat(a: &str, b: &str) -> (r: String)
    ensures
        r@ == a@ + b@,
{
    let mut joined = String::from_str(a);
    joined.append(b);
    joined
}

/// The debug text of a card.
pub open spec fn card_debug(c: Card) -> Seq<char> {
    "Card { rank: "@ + rank_name(c.rank) + ", suit: "@ + suit_name(c.suit) + " }"@
}

/// The debug text of a card.
pub fn card_debug_text(c: Card) -> (r: String)
    ensures
        r@ == card_debug(c),
{
    let a = concat("Card { rank: ", c.rank.name());
    let b = concat(a.as_str(), ", suit: ");
    let d = concat(b.as_str(), c.suit.name());
    concat(d.as_str(), " }")
}

/// Whether a chat line is a game event with this text.
pub open spec fn is_event(line: ChatLine, text: Seq<char>) -> bool {
    line matches ChatLine::GameEvent(t) && t@ == text
}

/// `new` is `old` followed by game events with the given texts.
pub open spec fn events_added(old: Seq<ChatLine>, new: Seq<ChatLine>, texts: Seq<Seq<char>>) -> bool {
    &&& new.len() == old.len() + texts.len()
    &&& new.take(old.len() as int) == old
    &&& forall|i: int| 0 <= i < texts.len() ==> is_event(#[trigger] new[old.len() + i], texts[i])
}

/// The chat: the input mode, the lines received and the scroll position.
#[derive(Debug)]
pub struct Chat {
    pub input_mode: InputMode,
    pub messages: Vec<ChatLine>,
    pub scroll: usize,
    pub input: String,
}

impl Default for Chat {
    /// An empty chat, keys as commands, not scrolled.
    fn default() -> (c: Chat)
        ensures
            c.input_mode == InputMode::Normal,
            c.messages@ == Seq::<ChatLine>::empty(),
            c.scroll == 0,
            c.input@ == Seq::<char>::empty(),
    {
        Chat { input_mode: InputMode::Normal, messages: Vec::new(), scroll: 0, input: String::new() }
    }
}

impl Chat {
    /// Adds a game event.
    pub fn push_event(&mut self, text: String)
        ensures
            events_added(old(self).messages@, final(self).messages@, seq![text@]),
            final(self).input_mode == old(self).input_mode,
            final(self).scroll == old(self).scroll,
            final(self).input == old(self).input,
    {
        self.messages.push(ChatLine::GameEvent(text));
        proof {
            assert(self.messages@.take(old(self).messages@.len() as int) =~= old(self).messages@);
        }
    }

    /// Adds the player's own message, sent from the input line, as "(me): text".
    pub fn push_own_message(&mut self, text: &str)
        ensures
            final(self).messages@.len() == old(self).messages@.len() + 1,
            final(self).messages@.take(old(self).messages@.len() as int) == old(self).messages@,
            final(self).messages@.last() matches ChatLine::Text(t) && t@ == "(me): "@ + text@,
            final(self).input_mode == old(self).input_mode,
            final(self).scroll == old(self).scroll,
            final(self).input == old(self).input,
    {
        let line = concat("(me): ", text);
        self.messages.push(ChatLine::Text(line));
        proof {
            assert(self.messages@.take(old(self).messages@.len() as int) =~= old(self).messages@);
        }
    }

    /// Takes a message that every stage understands: a chat line is added, a chat log
    /// replaces the lines. Returns false when the server logs the player out.
    pub fn on_shared(&mut self, msg: server_msg::SharedMsg) -> (keep_going: bool)
        ensures
            keep_going == !(msg is Logout),
            msg matches server_msg::SharedMsg::Chat(line) ==> final(self).messages@ == old(
                self).messages@.push(line),
            msg matches server_msg::SharedMsg::ChatLog(log) ==> final(self).messages@ == log@,
            (msg is Pong || msg is Logout) ==> final(self).messages@ == old(self).messages@,
            final(self).input_mode == old(self).input_mode,
            final(self).scroll == old(self).scroll,
            final(self).input == old(self).input,
    {
        match msg {
            server_msg::SharedMsg::Pong => true,
            server_msg::SharedMsg::Logout => false,
            server_msg::SharedMsg::Chat(line) => {
                self.messages.push(line);
                true
            },
            server_msg::SharedMsg::ChatLog(log) => {
                self.messages = log;
                true
            },
        }
    }
}

/// What a stage does after a message or a key: nothing, send a message to the server, or
/// end with the data that the next stage starts from.
#[derive(Debug)]
pub enum Reply<M, D> {
    Nothing,
    Send(M),
    Done(D),
}

/// The stage the client is in, with the player's name and the chat.
pub struct Context<C> {
    pub username: Username,
    pub chat: Chat,
    pub state: C,
}

/// The login stage: the answer to the login, once it came.
#[derive(Debug, Clone, Copy, PartialEq, Eq)]
pub struct Intro {
    pub status: Option<LoginStatus>,
}

impl Default for Intro {
    /// No answer yet.
    fn default() -> (i: Intro)
        ensures
            i.status is None,
    {
        Intro { status: None }
    }
}

/// The lobby.
#[derive(Debug, Default)]
pub struct Home {}

/// The role selection: the status of every role, the cursor and the chosen role.
#[derive(Debug)]
pub struct Roles {
    pub roles: StatefulList<RoleStatus>,
}

/// Every role is available, in role order.
pub open spec fn all_available() -> Seq<RoleStatus> {
    all_roles().map_values(|r: Role| RoleStatus::Available(r))
}

impl Default for Roles {
    /// Every role available, the cursor on the first, none chosen.
    fn default() -> (r: Roles)
        ensures
            r.roles.items@ == all_available(),
            r.roles.active == Some(0usize),
            r.roles.selected is None,
    {
        let all = Role::all();
        let mut items: Vec<RoleStatus> = Vec::new();
        let mut i: usize = 0;
        while i < 4
            invariant
                i <= 4,
                all@ == all_roles(),
                items@ =~= all_available().take(i as int),
            decreases 4 - i,
        {
            items.push(RoleStatus::Available(all[i]));
            i = i + 1;
        }
        Roles { roles: StatefulList::with_items(items) }
    }
}

/// The position of the first status that speaks of `role`.
fn role_position(items: &Vec<RoleStatus>, role: Role) -> (r: Option<usize>)
    ensures
        r matches Some(p) ==> p < items@.len() && status_role(items@[p as int]) == role && forall|
            q: int,
        | 0 <= q < p ==> status_role(items@[q]) != role,
        r is None ==> forall|q: int| 0 <= q < items@.len() ==> status_role(items@[q]) != role,
{
    let mut p: usize = 0;
    while p < items.len()
        invariant
            p <= items@.len(),
            forall|q: int| 0 <= q < p ==> status_role(items@[q]) != role,
        decreases items@.len() - p,
    {
        if items[p].role() == role {
            return Some(p);
        }
        p = p + 1;
    }
    None
}

/// The position of the first status that speaks of `role`, if any.
pub open spec fn role_place(items: Seq<RoleStatus>, role: Role) -> Option<int> {
    if exists|q: int| 0 <= q < items.len() && status_role(items[q]) == role {
        Some(
            choose|p: int|
                0 <= p < items.len() && status_role(items[p]) == role && forall|q: int|
                    0 <= q < p ==> status_role(items[q]) != role,
        )
    } else {
        None
    }
}

proof fn lemma_role_place(items: Seq<RoleStatus>, role: Role, p: int)
    requires
        0 <= p < items.len(),
        status_role(items[p]) == role,
        forall|q: int| 0 <= q < p ==> status_role(items[q]) != role,
    ensures
        role_place(items, role) == Some(p),
{
    let c = choose|c: int|
        0 <= c < items.len() && status_role(items[c]) == role && forall|q: int|
            0 <= q < c ==> status_role(items[q]) != role;
    assert(0 <= c < items.len() && status_role(items[c]) == role && forall|q: int|
        0 <= q < c ==> status_role(items[q]) != role);
    if c < p {
        assert(status_role(items[c]) != role);
    } else if c > p {
        assert(status_role(items[p]) != role);
    }
}

/// The role selection with the cursor on the first role and the given role chosen.
fn roles_with_selected(role: Option<Role>) -> (r: Roles)
    ensures
        r.roles.items@ == all_available(),
        r.roles.active == Some(0usize),
        role matches Some(x) ==> r.roles.selected == Some(
            role_place(all_available(), x)->0 as usize,
        ) && role_place(all_available(), x) is Some,
        role is None ==> r.roles.selected is None,
{
    let mut roles = Roles::default();
    match role {
        Some(x) => {
            let p = role_position(&roles.roles.items, x);
            proof {
                match x {
                    Role::Warrior => assert(status_role(roles.roles.items@[0]) == x),
                    Role::Rogue => assert(status_role(roles.roles.items@[1]) == x),
                    Role::Paladin => assert(status_role(roles.roles.items@[2]) == x),
                    Role::Mage => assert(status_role(roles.roles.items@[3]) == x),
                }
                lemma_role_place(roles.roles.items@, x, p->0 as int);
            }
            roles.roles.selected = p;
        },
        None => {},
    }
    roles
}

/// The game: the suit of the player's role, the turn, the monster attacking the player,
/// the player's health, and the abilities in hand and the monsters on the table, each with
/// a cursor and a selection.
#[derive(Debug)]
pub struct Game {
    pub role: Suit,
    pub phase: TurnStatus,
    pub attack_monster: Option<usize>,
    pub health: u16,
    pub abilities: StatefulList<Option<Rank>>,
    pub monsters: StatefulList<Option<Card>>,
}

/// Starting health of a player.
pub const START_HEALTH: u16 = 36;

/// A vector of the elements of an array.
fn array_to_vec<T: Copy, const N: usize>(a: &[T; N]) -> (v: Vec<T>)
    ensures
        v@ == a@,
{
    let mut v: Vec<T> = Vec::new();
    let mut i: usize = 0;
    while i < N
        invariant
            i <= N,
            a@.len() == N,
            v@ =~= a@.take(i as int),
        decreases N - i,
    {
        v.push(a[i]);
        i = i + 1;
    }
    proof {
        assert(a@.take(N as int) =~= a@);
    }
    v
}

impl Game {
    /// Three places for abilities, two for monsters, cursors and selections in them.
    pub open spec fn wf(&self) -> bool {
        &&& self.abilities.items@.len() == 3
        &&& self.monsters.items@.len() == 2
        &&& self.abilities.wf()
        &&& self.monsters.wf()
        &&& self.attack_monster matches Some(i) ==> i < 2
    }

    /// A game of a suit with the given abilities and monsters: waiting for the turn, the
    /// cursors on the first places, nothing selected, full health.
    pub fn new(role: Suit, abilities: [Option<Rank>; 3], monsters: [Option<Card>; 2]) -> (g: Game)
        ensures
            g.wf(),
            g.role == role,
            g.phase == TurnStatus::Wait,
            g.attack_monster is None,
            g.health == START_HEALTH,
            g.abilities.items@ == abilities@,
            g.abilities.active == Some(0usize),
            g.abilities.selected is None,
            g.monsters.items@ == monsters@,
            g.monsters.active == Some(0usize),
            g.monsters.selected is None,
    {
        Game {
            role,
            attack_monster: None,
            health: START_HEALTH,
            phase: TurnStatus::Wait,
            abilities: StatefulList::with_items(array_to_vec(&abilities)),
            monsters: StatefulList::with_items(array_to_vec(&monsters)),
        }
    }

    /// The game described by the data of a start.
    pub fn from_start(start: StartGame) -> (g: Game)
        ensures
            g.wf(),
            g.role == start.role,
            g.phase == TurnStatus::Wait,
            g.attack_monster is None,
            g.health == START_HEALTH,
            g.abilities.items@ == start.abilities@,
            g.abilities.active == Some(0usize),
            g.abilities.selected is None,
            g.monsters.items@ == start.monsters@,
            g.monsters.active == Some(0usize),
            g.monsters.selected is None,
    {
        Game::new(start.role, start.abilities, start.monsters)
    }
}

/// Why the login was refused.
#[derive(Debug)]
pub enum LoginError {
    InvalidPlayerName(Username),
    PlayerLimit(Username),
    AlreadyLogged(Username),
}

/// What the login stage ends with: the lobby, or a reconnection to the role selection
/// (with the role the player held) or to the game.
pub type IntroDone = GameContext<(), (), Option<Role>, StartGame>;

impl Context<Intro> {
    /// The login stage of a player.
    pub fn new(username: Username) -> (c: Context<Intro>)
        ensures
            c.username == username,
            c.state.status is None,
            c.chat.messages@ == Seq::<ChatLine>::empty(),
            c.chat.input_mode == InputMode::Normal,
    {
        Context { username, chat: Chat::default(), state: Intro::default() }
    }

    /// Answers a message of the login stage: a successful login asks for the chat log; a
    /// refused one ends with its reason; the server's go-ahead ends the stage.
    pub fn reduce(&mut self, msg: server_msg::IntroMsg) -> (r: Result<
        Reply<client_msg::IntroMsg, IntroDone>,
        LoginError,
    >)
        ensures
            final(self).username == old(self).username,
            final(self).chat == old(self).chat,
            msg matches server_msg::IntroMsg::LoginStatus(s) ==> {
                &&& final(self).state.status == Some(s)
                &&& s == LoginStatus::Logged ==> (r matches Ok(
                    Reply::Send(client_msg::IntroMsg::GetChatLog),
                ))
                &&& s == LoginStatus::Reconnected ==> (r matches Ok(Reply::Nothing))
                &&& s == LoginStatus::InvalidPlayerName ==> (r matches Err(
                    LoginError::InvalidPlayerName(u),
                ) && u@ == old(self).username@)
                &&& s == LoginStatus::PlayerLimit ==> (r matches Err(LoginError::PlayerLimit(u))
                    && u@ == old(self).username@)
                &&& s == LoginStatus::AlreadyLogged ==> (r matches Err(
                    LoginError::AlreadyLogged(u),
                ) && u@ == old(self).username@)
            },
            !(msg is LoginStatus) ==> final(self).state == old(self).state,
            msg is StartHome ==> r matches Ok(Reply::Done(GameContext::Home(()))),
            msg matches server_msg::IntroMsg::ReconnectRoles(role) ==> r matches Ok(
                Reply::Done(GameContext::Roles(x)),
            ) && x == role,
            msg matches server_msg::IntroMsg::ReconnectGame(g) ==> r matches Ok(
                Reply::Done(GameContext::Game(x)),
            ) && x == g,
    {
        match msg {
            server_msg::IntroMsg::LoginStatus(status) => {
                self.state.status = Some(status);
                match status {
                    LoginStatus::Logged => Ok(Reply::Send(client_msg::IntroMsg::GetChatLog)),
                    LoginStatus::Reconnected => Ok(Reply::Nothing),
                    LoginStatus::InvalidPlayerName => Err(
                        LoginError::InvalidPlayerName(self.username.clone()),
                    ),
                    LoginStatus::PlayerLimit => Err(LoginError::PlayerLimit(self.username.clone())),
                    LoginStatus::AlreadyLogged => Err(
                        LoginError::AlreadyLogged(self.username.clone()),
                    ),
                }
            },
            server_msg::IntroMsg::StartHome => Ok(Reply::Done(GameContext::Home(()))),
            server_msg::IntroMsg::ReconnectRoles(role) => Ok(Reply::Done(GameContext::Roles(role))),
            server_msg::IntroMsg::ReconnectGame(game) => Ok(Reply::Done(GameContext::Game(game))),
        }
    }
}

impl Context<Home> {
    /// A logged-in player enters the lobby with the chat of the login stage.
    pub fn from_intro(intro: Context<Intro>) -> (c: Context<Home>)
        requires
            intro.state.status == Some(LoginStatus::Logged),
        ensures
            c.username == intro.username,
            c.chat == intro.chat,
    {
        Context { username: intro.username, chat: intro.chat, state: Home {} }
    }

    /// Answers a message of the lobby: the server starts the role selection.
    pub fn reduce(&mut self, msg: server_msg::HomeMsg) -> (r: Reply<client_msg::HomeMsg, Option<Role>>)
        ensures
            msg matches server_msg::HomeMsg::StartRoles(role) ==> r matches Reply::Done(x) && x
                == role,
            final(self).username == old(self).username,
            final(self).chat == old(self).chat,
    {
        match msg {
            server_msg::HomeMsg::StartRoles(role) => Reply::Done(role),
        }
    }
}

impl Context<Roles> {
    /// A player rejoins the role selection from the login stage, with the role it held.
    pub fn from_intro(intro: Context<Intro>, role: Option<Role>) -> (c: Context<Roles>)
        requires
            intro.state.status is Some,
        ensures
            c.username == intro.username,
            c.chat == intro.chat,
            c.state.roles.items@ == all_available(),
            c.state.roles.active == Some(0usize),
            role matches Some(x) ==> c.state.roles.selected == Some(
                role_place(all_available(), x)->0 as usize,
            ),
            role is None ==> c.state.roles.selected is None,
    {
        Context { username: intro.username, chat: intro.chat, state: roles_with_selected(role) }
    }

    /// A player of the lobby starts choosing a role.
    pub fn from_home(home: Context<Home>, role: Option<Role>) -> (c: Context<Roles>)
        ensures
            c.username == home.username,
            c.chat == home.chat,
            c.state.roles.items@ == all_available(),
            c.state.roles.active == Some(0usize),
            role matches Some(x) ==> c.state.roles.selected == Some(
                role_place(all_available(), x)->0 as usize,
            ),
            role is None ==> c.state.roles.selected is None,
    {
        Context { username: home.username, chat: home.chat, state: roles_with_selected(role) }
    }

    /// Whether the role selection can take a message: a granted role must be one of the
    /// roles listed.
    pub open spec fn accepts(&self, msg: server_msg::RolesMsg) -> bool {
        msg matches server_msg::RolesMsg::SelectedStatus(Ok(role)) ==> role_place(
            self.state.roles.items@,
            role,
        ) is Some
    }

    /// Whether the role selection can take a message, as `accepts` says.
    pub fn can_take(&self, msg: &server_msg::RolesMsg) -> (r: bool)
        ensures
            r == self.accepts(*msg),
    {
        match msg {
            server_msg::RolesMsg::SelectedStatus(Ok(role)) => {
                let p = role_position(&self.state.roles.items, *role);
                proof {
                    if p is Some {
                        lemma_role_place(self.state.roles.items@, *role, p->0 as int);
                    }
                }
                p.is_some()
            },
            _ => true,
        }
    }

    /// Answers a message of the role selection: a granted role becomes the chosen one (with
    /// a game event), a new list of statuses replaces the old one, and the start of the
    /// game ends the stage (with a game event).
    pub fn reduce(&mut self, msg: server_msg::RolesMsg) -> (r: Reply<client_msg::RolesMsg, StartGame>)
        requires
            old(self).accepts(msg),
        ensures
            final(self).username == old(self).username,
            final(self).chat.input_mode == old(self).chat.input_mode,
            final(self).chat.scroll == old(self).chat.scroll,
            final(self).chat.input == old(self).chat.input,
            final(self).state.roles.active == old(self).state.roles.active,
            msg matches server_msg::RolesMsg::SelectedStatus(Ok(role)) ==> {
                &&& r is Nothing
                &&& final(self).state.roles.items@ == old(self).state.roles.items@
                &&& final(self).state.roles.selected == Some(
                    role_place(old(self).state.roles.items@, role)->0 as usize,
                )
                &&& events_added(
                    old(self).chat.messages@,
                    final(self).chat.messages@,
                    seq!["You select "@ + crate::game::role_name(role)],
                )
            },
            msg matches server_msg::RolesMsg::SelectedStatus(Err(_)) ==> r is Nothing
                && final(self).state.roles.items@ == old(self).state.roles.items@
                && final(self).state.roles.selected == old(self).state.roles.selected
                && final(self).chat.messages@ == old(self).chat.messages@,
            msg matches server_msg::RolesMsg::AvailableRoles(roles) ==> r is Nothing
                && final(self).state.roles.items@ == roles@ && final(self).state.roles.selected
                == old(self).state.roles.selected && final(self).chat.messages@ == old(
                self).chat.messages@,
            msg matches server_msg::RolesMsg::StartGame(start) ==> {
                &&& (r matches Reply::Done(x) && x == start)
                &&& final(self).state.roles.items@ == old(self).state.roles.items@
                &&& final(self).state.roles.selected == old(self).state.roles.selected
                &&& events_added(
                    old(self).chat.messages@,
                    final(self).chat.messages@,
                    seq!["Start Game!"@],
                )
            },
    {
        match msg {
            server_msg::RolesMsg::SelectedStatus(status) => {
                match status {
                    Ok(role) => {
                        let text = concat("You select ", role.name());
                        self.chat.push_event(text);
                        let p = role_position(&self.state.roles.items, role);
                        proof {
                            lemma_role_place(self.state.roles.items@, role, p->0 as int);
                        }
                        self.state.roles.selected = Some(p.unwrap());
                    },
                    Err(_) => {},
                }
                Reply::Nothing
            },
            server_msg::RolesMsg::AvailableRoles(roles) => {
                self.state.roles.items = array_to_vec(&roles);
                Reply::Nothing
            },
            server_msg::RolesMsg::StartGame(start) => {
                self.chat.push_event("Start Game!".to_owned());
                Reply::Done(start)
            },
        }
    }
}

impl Context<Game> {
    /// A player rejoins the game from the login stage.
    pub fn from_intro(intro: Context<Intro>, start_game: StartGame) -> (c: Context<Game>)
        requires
            intro.state.status is Some,
        ensures
            c.username == intro.username,
            c.chat == intro.chat,
            c.state.wf(),
            c.state.role == start_game.role,
            c.state.phase == TurnStatus::Wait,
            c.state.abilities.items@ == start_game.abilities@,
            c.state.monsters.items@ == start_game.monsters@,
    {
        Context { username: intro.username, chat: intro.chat, state: Game::from_start(start_game) }
    }

    /// A player of the role selection enters the game.
    pub fn from_roles(roles: Context<Roles>, start_game: StartGame) -> (c: Context<Game>)
        ensures
            c.username == roles.username,
            c.chat == roles.chat,
            c.state.wf(),
            c.state.role == start_game.role,
            c.state.phase == TurnStatus::Wait,
            c.state.abilities.items@ == start_game.abilities@,
            c.state.monsters.items@ == start_game.monsters@,
    {
        Context { username: roles.username, chat: roles.chat, state: Game::from_start(start_game) }
    }
}


/// The game events that a turn status brings.
pub open spec fn turn_events(s: TurnStatus) -> Seq<Seq<char>> {
    match s {
        TurnStatus::Ready(GamePhaseKind::DropAbility) => seq!["Your Turn! You can drop any ability"@],
        TurnStatus::Ready(GamePhaseKind::SelectAbility) => seq!["You can select ability for attack"@],
        TurnStatus::Ready(GamePhaseKind::AttachMonster) => seq!["Now You can attach a monster"@],
        _ => Seq::empty(),
    }
}

/// The game event when another player's turn refused a move.
pub open spec fn not_your_turn(u: Seq<char>) -> Seq<char> {
    "It's not you turn now. "@ + u + " should make a turn"@
}

/// Adds the game event that a move was refused because it is another player's turn.
fn push_not_your_turn(chat: &mut Chat, username: &Username)
    ensures
        events_added(old(chat).messages@, final(chat).messages@, seq![not_your_turn(username@)]),
        final(chat).input_mode == old(chat).input_mode,
        final(chat).scroll == old(chat).scroll,
        final(chat).input == old(chat).input,
{
    let a = concat("It's not you turn now. ", username.as_str());
    chat.push_event(concat(a.as_str(), " should make a turn"));
}

/// The position of the first place that holds `x`.
fn entry_position<E: Copy + crate::server::details::StatebleItem>(items: &Vec<Option<E>>, x: E) -> (r: Option<usize>)
    ensures
        r is None <==> !items@.contains(Some(x)),
        r matches Some(p) ==> p == first_index_of(items@, Some(x)) && p < items@.len() && items@[p as int] == Some(x),
{
    let mut p: usize = 0;
    while p < items.len()
        invariant
            p <= items@.len(),
            forall|q: int| 0 <= q < p ==> items@[q] != Some(x),
        decreases items@.len() - p,
    {
        let found = match items[p] {
            Some(y) => y.same_item(&x),
            None => false,
        };
        if found {
            proof {
                crate::server::details::lemma_first_index_of(items@, Some(x), p as int);
            }
            return Some(p);
        }
        p = p + 1;
    }
    None
}

impl Context<Game> {
    /// Whether the game can take a message: a selected ability and an attacked or attacking
    /// monster must be in their places, and an attack needs a monster under the cursor.
    pub open spec fn accepts(&self, msg: server_msg::GameMsg) -> bool {
        match msg {
            server_msg::GameMsg::SelectAbility(Ok(a)) => self.state.abilities.items@.contains(Some(a)),
            server_msg::GameMsg::Attack(Ok(m)) => {
                &&& self.state.monsters.items@.contains(Some(m))
                &&& self.state.monsters.active matches Some(i)
                &&& i < self.state.monsters.items@.len()
                &&& self.state.monsters.items@[i as int] is Some
            },
            server_msg::GameMsg::Defend(Some(m)) => self.state.monsters.items@.contains(Some(m)),
            _ => true,
        }
    }

    /// Whether the game can take a message, as `accepts` says.
    pub fn can_take(&self, msg: &server_msg::GameMsg) -> (r: bool)
        ensures
            r == self.accepts(*msg),
    {
        match msg {
            server_msg::GameMsg::SelectAbility(Ok(a)) => entry_position(&self.state.abilities.items, *a).is_some(),
            server_msg::GameMsg::Attack(Ok(m)) => {
                let here = entry_position(&self.state.monsters.items, *m).is_some();
                let under = match self.state.monsters.active {
                    Some(i) => i < self.state.monsters.items.len() && self.state.monsters.items[i].is_some(),
                    None => false,
                };
                here && under
            },
            server_msg::GameMsg::Defend(Some(m)) => entry_position(&self.state.monsters.items, *m).is_some(),
            _ => true,
        }
    }

    /// Answers a message of the game: a turn status becomes the phase (with a game event
    /// when the player may act), the outcomes of moves become game events and selections,
    /// an attacking monster is marked, and new game data replaces the places.
    pub fn reduce(&mut self, msg: server_msg::GameMsg)
        requires
            old(self).state.wf(),
            old(self).accepts(msg),
        ensures
            final(self).state.wf(),
            final(self).username == old(self).username,
            final(self).chat.input_mode == old(self).chat.input_mode,
            final(self).chat.scroll == old(self).chat.scroll,
            final(self).chat.input == old(self).chat.input,
            final(self).state.role == old(self).state.role,
            final(self).state.health == old(self).state.health,
            final(self).state.abilities.active == old(self).state.abilities.active,
            final(self).state.monsters.active == old(self).state.monsters.active,
            msg matches server_msg::GameMsg::Turn(s) ==> {
                &&& final(self).state.phase == s
                &&& events_added(old(self).chat.messages@, final(self).chat.messages@, turn_events(s))
                &&& final(self).state.abilities == old(self).state.abilities
                &&& final(self).state.monsters == old(self).state.monsters
                &&& final(self).state.attack_monster == old(self).state.attack_monster
            },
            !(msg is Turn) ==> final(self).state.phase == old(self).state.phase,
            msg is Continue ==> final(self).chat.messages@ == old(self).chat.messages@
                && final(self).state.abilities == old(self).state.abilities
                && final(self).state.monsters == old(self).state.monsters
                && final(self).state.attack_monster == old(self).state.attack_monster,
            msg matches server_msg::GameMsg::DropAbility(t) ==> {
                &&& final(self).state.abilities == old(self).state.abilities
                &&& final(self).state.monsters == old(self).state.monsters
                &&& final(self).state.attack_monster == old(self).state.attack_monster
                &&& t matches Ok(a) ==> events_added(
                    old(self).chat.messages@,
                    final(self).chat.messages@,
                    seq!["You discard "@ + rank_name(a)],
                )
                &&& t matches Err(u) ==> events_added(
                    old(self).chat.messages@,
                    final(self).chat.messages@,
                    seq![not_your_turn(u@)],
                )
            },
            msg matches server_msg::GameMsg::SelectAbility(t) ==> {
                &&& final(self).state.abilities.items == old(self).state.abilities.items
                &&& final(self).state.monsters == old(self).state.monsters
                &&& final(self).state.attack_monster == old(self).state.attack_monster
                &&& t matches Ok(a) ==> final(self).state.abilities.selected == Some(
                    first_index_of(old(self).state.abilities.items@, Some(a)) as usize,
                ) && events_added(
                    old(self).chat.messages@,
                    final(self).chat.messages@,
                    seq!["You select "@ + rank_name(a)],
                )
                &&& t matches Err(u) ==> final(self).state.abilities.selected == old(
                    self).state.abilities.selected && events_added(
                    old(self).chat.messages@,
                    final(self).chat.messages@,
                    seq![not_your_turn(u@)],
                )
            },
            msg matches server_msg::GameMsg::Attack(t) ==> {
                &&& final(self).state.abilities.items == old(self).state.abilities.items
                &&& final(self).state.monsters.items == old(self).state.monsters.items
                &&& final(self).state.attack_monster == old(self).state.attack_monster
                &&& t matches Ok(m) ==> final(self).state.abilities.selected is None
                    && final(self).state.monsters.selected is None && events_added(
                    old(self).chat.messages@,
                    final(self).chat.messages@,
                    seq![
                        "You attack "@ + card_debug(
                            old(self).state.monsters.items@[old(self).state.monsters.active->0 as int]->0,
                        ),
                    ],
                )
                &&& t matches Err(u) ==> final(self).state.abilities.selected == old(
                    self).state.abilities.selected && final(self).state.monsters.selected == old(
                    self).state.monsters.selected && events_added(
                    old(self).chat.messages@,
                    final(self).chat.messages@,
                    seq![not_your_turn(u@)],
                )
            },
            msg matches server_msg::GameMsg::Defend(d) ==> {
                &&& final(self).state.abilities == old(self).state.abilities
                &&& final(self).state.monsters.items == old(self).state.monsters.items
                &&& final(self).state.monsters.selected is None
                &&& d matches Some(m) ==> final(self).state.attack_monster == Some(
                    first_index_of(old(self).state.monsters.items@, Some(m)) as usize,
                ) && events_added(
                    old(self).chat.messages@,
                    final(self).chat.messages@,
                    seq![
                        "A "@ + card_debug(m) + " Attack You!"@,
                        "You get damage from Some("@ + card_debug(m) + ")"@,
                    ],
                )
                &&& d is None ==> final(self).state.attack_monster == old(self).state.attack_monster
                    && events_added(
                    old(self).chat.messages@,
                    final(self).chat.messages@,
                    seq!["You defend"@],
                )
            },
            msg matches server_msg::GameMsg::UpdateGameData(monsters, abilities) ==> {
                &&& final(self).state.monsters.items@ == monsters@
                &&& final(self).state.abilities.items@ == abilities@
                &&& final(self).state.monsters.selected == old(self).state.monsters.selected
                &&& final(self).state.abilities.selected == old(self).state.abilities.selected
                &&& final(self).state.attack_monster == old(self).state.attack_monster
                &&& final(self).chat.messages@ == old(self).chat.messages@
            },
    {
        match msg {
            server_msg::GameMsg::Turn(s) => {
                self.state.phase = s;
                match s {
                    TurnStatus::Ready(GamePhaseKind::DropAbility) => {
                        self.chat.push_event("Your Turn! You can drop any ability".to_owned());
                    },
                    TurnStatus::Ready(GamePhaseKind::SelectAbility) => {
                        self.chat.push_event("You can select ability for attack".to_owned());
                    },
                    TurnStatus::Ready(GamePhaseKind::AttachMonster) => {
                        self.chat.push_event("Now You can attach a monster".to_owned());
                    },
                    _ => {
                        proof {
                            assert(self.chat.messages@.take(old(self).chat.messages@.len() as int)
                                =~= old(self).chat.messages@);
                        }
                    },
                }
            },
            server_msg::GameMsg::Continue(_) => {},
            server_msg::GameMsg::DropAbility(turn) => match turn {
                Ok(ability) => {
                    self.chat.push_event(concat("You discard ", ability.name()));
                },
                Err(username) => push_not_your_turn(&mut self.chat, &username),
            },
            server_msg::GameMsg::SelectAbility(turn) => match turn {
                Ok(ability) => {
                    self.chat.push_event(concat("You select ", ability.name()));
                    let p = entry_position(&self.state.abilities.items, ability);
                    self.state.abilities.selected = Some(p.unwrap());
                },
                Err(username) => push_not_your_turn(&mut self.chat, &username),
            },
            server_msg::GameMsg::Attack(turn) => match turn {
                Ok(monster) => {
                    let p = entry_position(&self.state.monsters.items, monster);
                    self.state.monsters.selected = Some(p.unwrap());
                    let attacked = self.state.monsters.active().unwrap();
                    let text = concat("You attack ", card_debug_text(attacked).as_str());
                    self.chat.push_event(text);
                    self.state.abilities.selected = None;
                    self.state.monsters.selected = None;
                },
                Err(username) => push_not_your_turn(&mut self.chat, &username),
            },
            server_msg::GameMsg::Defend(monster) => {
                match monster {
                    Some(m) => {
                        let p = entry_position(&self.state.monsters.items, m);
                        self.state.attack_monster = Some(p.unwrap());
                        let attacker = self.state.monsters.items[p.unwrap()].unwrap();
                        assert(attacker == m);
                        let debug = card_debug_text(attacker);
                        let a = concat("A ", debug.as_str());
                        let ghost o = self.chat.messages@;
                        self.chat.push_event(concat(a.as_str(), " Attack You!"));
                        let ghost mid = self.chat.messages@;
                        let b = concat("You get damage from Some(", debug.as_str());
                        self.chat.push_event(concat(b.as_str(), ")"));
                        proof {
                            let f = self.chat.messages@;
                            let texts = seq![
                                "A "@ + card_debug(m) + " Attack You!"@,
                                "You get damage from Some("@ + card_debug(m) + ")"@,
                            ];
                            assert(f.take(o.len() as int) =~= o);
                            assert(f[o.len() as int] == mid[o.len() as int]);
                            assert(is_event(f[o.len() as int], texts[0]));
                            assert(mid.len() == o.len() + 1);
                            assert(is_event(f[mid.len() + 0int], texts[1]));
                            assert(is_event(f[o.len() + 1int], texts[1]));
                            assert(events_added(o, f, texts));
                        }
                    },
                    None => {
                        self.chat.push_event("You defend".to_owned());
                    },
                }
                self.state.monsters.selected = None;
            },
            server_msg::GameMsg::UpdateGameData(monsters, abilities) => {
                self.state.monsters.items = array_to_vec(&monsters);
                self.state.abilities.items = array_to_vec(&abilities);
            },
        }
    }
}

} // verus!
