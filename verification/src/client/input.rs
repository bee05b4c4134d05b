//! The keys of the client and what they do in each stage.
use vstd::prelude::*;

use crate::client::states::{events_added, Chat, Context, Game, Home, Intro, Roles};
use crate::client::ui::details::{any_some, cycle_next, cycle_prev, next_entry, prev_entry};
use crate::protocol::client::{GameMsg, HomeMsg, IntroMsg, RolesMsg};
use crate::protocol::server::ChatLine;
use crate::protocol::{status_role, GamePhaseKind, RoleStatus, TurnStatus};

verus! {

/// Whether keys go to the chat's input line or are commands.
#[derive(Debug, Clone, Copy, PartialEq, Eq, Structural)]
pub enum InputMode {
    Normal,
    Editing,
}

impl Default for InputMode {
    /// Keys are commands.
    fn default() -> (m: Self)
        ensures
            m == InputMode::Normal,
    {
        InputMode::Normal
    }
}

/// A key of the keyboard, as far as the client tells keys apart.
#[derive(Debug, Clone, Copy, PartialEq, Eq, Structural)]
pub enum KeyCode {
    Char(char),
    F(u8),
    Enter,
    Esc,
    Up,
    Down,
    Left,
    Right,
    Other,
}

/// The modifier keys held with a key: none, control alone, or any other combination.
#[derive(Debug, Clone, Copy, PartialEq, Eq, Structural)]
pub enum KeyModifiers {
    Plain,
    Control,
    Other,
}

/// Whether a key went down, repeats, or went up.
#[derive(Debug, Clone, Copy, PartialEq, Eq, Structural)]
pub enum KeyEventKind {
    Press,
    Repeat,
    Release,
}

/// A key event: the key, its modifiers, its kind, and whether the terminal reported no
/// extra key state (such as caps lock) with it.
#[derive(Debug, Clone, Copy, PartialEq, Eq, Structural)]
pub struct KeyEvent {
    pub code: KeyCode,
    pub modifiers: KeyModifiers,
    pub kind: KeyEventKind,
    pub plain_state: bool,
}

impl KeyEvent {
    /// A key pressed with the given modifiers.
    pub fn new(code: KeyCode, modifiers: KeyModifiers) -> (k: KeyEvent)
        ensures
            k == (KeyEvent { code, modifiers, kind: KeyEventKind::Press, plain_state: true }),
    {
        KeyEvent { code, modifiers, kind: KeyEventKind::Press, plain_state: true }
    }
}

/// An input event of the terminal: a key, or anything else.
#[derive(Debug, Clone, Copy, PartialEq, Eq, Structural)]
pub enum Event {
    Key(KeyEvent),
    Other,
}

/// A key pressed without modifiers.
pub open spec fn plain(code: KeyCode) -> KeyEvent {
    KeyEvent { code, modifiers: KeyModifiers::Plain, kind: KeyEventKind::Press, plain_state: true }
}

/// The action bound to the first entry of `table` whose key equals `key`.
pub open spec fn action_of<A>(table: Seq<(KeyEvent, A)>, key: KeyEvent) -> Option<A>
    decreases table.len(),
{
    if table.len() == 0 {
        None
    } else if table[0].0 == key {
        Some(table[0].1)
    } else {
        action_of(table.drop_first(), key)
    }
}

/// The action bound to `key` in `table`: that of the first entry with this key.
pub fn get_action<A: Copy>(table: &Vec<(KeyEvent, A)>, key: &KeyEvent) -> (r: Option<A>)
    ensures
        r == action_of(table@, *key),
{
    let mut i: usize = 0;
    assert(table@.skip(0) =~= table@);
    while i < table.len()
        invariant
            i <= table@.len(),
            action_of(table@, *key) == action_of(table@.skip(i as int), *key),
        decreases table@.len() - i,
    {
        proof {
            assert(table@.skip(i as int).drop_first() =~= table@.skip(i + 1));
        }
        if table[i].0 == *key {
            return Some(table[i].1);
        }
        i = i + 1;
    }
    proof {
        assert(table@.skip(i as int).len() == 0);
    }
    None
}

/// Commands of every stage.
#[derive(Debug, Clone, Copy, PartialEq, Eq, Structural)]
pub enum MainCmd {
    NoOp,
    Quit,
}

/// The keys of every stage: control-q quits.
pub open spec fn main_keys_spec() -> Seq<(KeyEvent, MainCmd)> {
    seq![
        (
            KeyEvent {
                code: KeyCode::Char('q'),
                modifiers: KeyModifiers::Control,
                kind: KeyEventKind::Press,
                plain_state: true,
            },
            MainCmd::Quit,
        ),
    ]
}

/// The keys of every stage.
pub fn main_keys() -> (t: Vec<(KeyEvent, MainCmd)>)
    ensures
        t@ == main_keys_spec(),
{
    let mut t = Vec::new();
    t.push((KeyEvent::new(KeyCode::Char('q'), KeyModifiers::Control), MainCmd::Quit));
    proof {
        assert(t@ =~= main_keys_spec());
    }
    t
}

/// Commands of the login stage.
#[derive(Debug, Clone, Copy, PartialEq, Eq, Structural)]
pub enum IntroCmd {
    NoOp,
    Enter,
}

/// The keys of the login stage: enter goes on to the lobby.
pub open spec fn intro_keys_spec() -> Seq<(KeyEvent, IntroCmd)> {
    seq![(plain(KeyCode::Enter), IntroCmd::Enter)]
}

/// The keys of the login stage.
pub fn intro_keys() -> (t: Vec<(KeyEvent, IntroCmd)>)
    ensures
        t@ == intro_keys_spec(),
{
    let mut t = Vec::new();
    t.push((KeyEvent::new(KeyCode::Enter, KeyModifiers::Plain), IntroCmd::Enter));
    proof {
        assert(t@ =~= intro_keys_spec());
    }
    t
}

/// Commands of the lobby.
#[derive(Debug, Clone, Copy, PartialEq, Eq, Structural)]
pub enum HomeCmd {
    NoOp,
    EnterChat,
    StartRoles,
}

/// The keys of the lobby: enter starts the role selection, `e` opens the chat.
pub open spec fn home_keys_spec() -> Seq<(KeyEvent, HomeCmd)> {
    seq![
        (plain(KeyCode::Enter), HomeCmd::StartRoles),
        (plain(KeyCode::Char('e')), HomeCmd::EnterChat),
    ]
}

/// The keys of the lobby.
pub fn home_keys() -> (t: Vec<(KeyEvent, HomeCmd)>)
    ensures
        t@ == home_keys_spec(),
{
    let mut t = Vec::new();
    t.push((KeyEvent::new(KeyCode::Enter, KeyModifiers::Plain), HomeCmd::StartRoles));
    t.push((KeyEvent::new(KeyCode::Char('e'), KeyModifiers::Plain), HomeCmd::EnterChat));
    proof {
        assert(t@ =~= home_keys_spec());
    }
    t
}

/// Commands of the role selection.
#[derive(Debug, Clone, Copy, PartialEq, Eq, Structural)]
pub enum RolesCmd {
    NoOp,
    EnterChat,
    SelectPrev,
    SelectNext,
    ConfirmRole,
    StartGame,
}

/// The keys of the role selection: enter starts the game, `e` opens the chat, the arrows
/// move the cursor, space takes the role under it.
pub open spec fn select_role_keys_spec() -> Seq<(KeyEvent, RolesCmd)> {
    seq![
        (plain(KeyCode::Enter), RolesCmd::StartGame),
        (plain(KeyCode::Char('e')), RolesCmd::EnterChat),
        (plain(KeyCode::Left), RolesCmd::SelectPrev),
        (plain(KeyCode::Right), RolesCmd::SelectNext),
        (plain(KeyCode::Char(' ')), RolesCmd::ConfirmRole),
    ]
}

/// The keys of the role selection.
pub fn select_role_keys() -> (t: Vec<(KeyEvent, RolesCmd)>)
    ensures
        t@ == select_role_keys_spec(),
{
    let mut t = Vec::new();
    t.push((KeyEvent::new(KeyCode::Enter, KeyModifiers::Plain), RolesCmd::StartGame));
    t.push((KeyEvent::new(KeyCode::Char('e'), KeyModifiers::Plain), RolesCmd::EnterChat));
    t.push((KeyEvent::new(KeyCode::Left, KeyModifiers::Plain), RolesCmd::SelectPrev));
    t.push((KeyEvent::new(KeyCode::Right, KeyModifiers::Plain), RolesCmd::SelectNext));
    t.push((KeyEvent::new(KeyCode::Char(' '), KeyModifiers::Plain), RolesCmd::ConfirmRole));
    proof {
        assert(t@ =~= select_role_keys_spec());
    }
    t
}

/// Commands of the game.
#[derive(Debug, Clone, Copy, PartialEq, Eq, Structural)]
pub enum GameCmd {
    NoOp,
    EnterChat,
    SelectPrev,
    SelectNext,
    ConfirmSelected,
}

/// The keys of the game: `e` opens the chat, the arrows move the cursor, space plays what
/// is under it.
pub open spec fn game_keys_spec() -> Seq<(KeyEvent, GameCmd)> {
    seq![
        (plain(KeyCode::Char('e')), GameCmd::EnterChat),
        (plain(KeyCode::Left), GameCmd::SelectPrev),
        (plain(KeyCode::Right), GameCmd::SelectNext),
        (plain(KeyCode::Char(' ')), GameCmd::ConfirmSelected),
    ]
}

/// The keys of the game.
pub fn game_keys() -> (t: Vec<(KeyEvent, GameCmd)>)
    ensures
        t@ == game_keys_spec(),
{
    let mut t = Vec::new();
    t.push((KeyEvent::new(KeyCode::Char('e'), KeyModifiers::Plain), GameCmd::EnterChat));
    t.push((KeyEvent::new(KeyCode::Left, KeyModifiers::Plain), GameCmd::SelectPrev));
    t.push((KeyEvent::new(KeyCode::Right, KeyModifiers::Plain), GameCmd::SelectNext));
    t.push((KeyEvent::new(KeyCode::Char(' '), KeyModifiers::Plain), GameCmd::ConfirmSelected));
    proof {
        assert(t@ =~= game_keys_spec());
    }
    t
}

/// Commands of the chat's input line.
#[derive(Debug, Clone, Copy, PartialEq, Eq, Structural)]
pub enum ChatCmd {
    NoOp,
    SendInput,
    LeaveChatInput,
    ScrollUp,
    ScrollDown,
}

/// The keys of the chat's input line: enter sends, escape leaves, the arrows scroll.
pub open spec fn chat_keys_spec() -> Seq<(KeyEvent, ChatCmd)> {
    seq![
        (plain(KeyCode::Enter), ChatCmd::SendInput),
        (plain(KeyCode::Esc), ChatCmd::LeaveChatInput),
        (plain(KeyCode::Up), ChatCmd::ScrollUp),
        (plain(KeyCode::Down), ChatCmd::ScrollDown),
    ]
}

/// The keys of the chat's input line.
pub fn chat_keys() -> (t: Vec<(KeyEvent, ChatCmd)>)
    ensures
        t@ == chat_keys_spec(),
{
    let mut t = Vec::new();
    t.push((KeyEvent::new(KeyCode::Enter, KeyModifiers::Plain), ChatCmd::SendInput));
    t.push((KeyEvent::new(KeyCode::Esc, KeyModifiers::Plain), ChatCmd::LeaveChatInput));
    t.push((KeyEvent::new(KeyCode::Up, KeyModifiers::Plain), ChatCmd::ScrollUp));
    t.push((KeyEvent::new(KeyCode::Down, KeyModifiers::Plain), ChatCmd::ScrollDown));
    proof {
        assert(t@ =~= chat_keys_spec());
    }
    t
}


/// Control-q, the key that quits.
pub open spec fn quit_key() -> KeyEvent {
    main_keys_spec()[0].0
}

/// No stage binds control-q, so it quits from every stage while the keys are commands (each
/// stage hands the keys it does not bind to `handle_main_input`).
pub proof fn lemma_quit_from_every_stage()
    ensures
        action_of(main_keys_spec(), quit_key()) == Some(MainCmd::Quit),
        action_of(intro_keys_spec(), quit_key()) is None,
        action_of(home_keys_spec(), quit_key()) is None,
        action_of(select_role_keys_spec(), quit_key()) is None,
        action_of(game_keys_spec(), quit_key()) is None,
{
    reveal_with_fuel(action_of, 6);
}

/// What a key leads to: nothing, a message to the server, quitting, the key going to the
/// chat's input line, or the input line being sent.
#[derive(Debug)]
pub enum InputOutcome<M> {
    Nothing,
    Send(M),
    Quit,
    EditChat,
    SendChat(String),
}

/// The key of an event, if it is a key press.
pub open spec fn pressed(event: Event) -> Option<KeyEvent> {
    match event {
        Event::Key(k) => if k.kind == KeyEventKind::Press {
            Some(k)
        } else {
            None
        },
        Event::Other => None,
    }
}

/// The key of an event, if it is a key press.
fn pressed_key(event: &Event) -> (r: Option<KeyEvent>)
    ensures
        r == pressed(*event),
{
    match event {
        Event::Key(k) => if k.kind == KeyEventKind::Press {
            Some(*k)
        } else {
            None
        },
        Event::Other => None,
    }
}

/// A key of every stage: control-q quits, others do nothing.
pub open spec fn main_outcome_is<M>(key: KeyEvent, r: InputOutcome<M>) -> bool {
    if action_of(main_keys_spec(), key) == Some(MainCmd::Quit) {
        r is Quit
    } else {
        r is Nothing
    }
}

/// What a key that no stage binds does: control-q quits.
pub fn handle_main_input<M>(key: &KeyEvent) -> (r: InputOutcome<M>)
    ensures
        main_outcome_is(*key, r),
{
    match get_action(&main_keys(), key) {
        Some(MainCmd::Quit) => InputOutcome::Quit,
        _ => InputOutcome::Nothing,
    }
}

/// The chat with another input mode.
pub open spec fn with_mode(c: Chat, mode: InputMode) -> Chat {
    Chat { input_mode: mode, messages: c.messages, scroll: c.scroll, input: c.input }
}

/// The chat scrolled to another line.
pub open spec fn with_scroll(c: Chat, scroll: usize) -> Chat {
    Chat { input_mode: c.input_mode, messages: c.messages, scroll, input: c.input }
}

/// What a key typed on the chat's input line does, from chat `c` to chat `d` with outcome
/// `r`: enter sends the line (it is echoed as "(me): text" and the line is cleared), escape
/// gives the keys back to the commands, up and down scroll, and any other key edits the
/// line.
pub open spec fn chat_key_step<M>(c: Chat, d: Chat, key: KeyEvent, r: InputOutcome<M>) -> bool {
    let a = action_of(chat_keys_spec(), key);
    &&& (a is None || a == Some(ChatCmd::NoOp)) ==> r is EditChat && d == c
    &&& a == Some(ChatCmd::SendInput) ==> {
        &&& (r matches InputOutcome::SendChat(t) && t@ == c.input@)
        &&& d.input@ == Seq::<char>::empty()
        &&& d.input_mode == c.input_mode
        &&& d.scroll == c.scroll
        &&& d.messages@.len() == c.messages@.len() + 1
        &&& d.messages@.take(c.messages@.len() as int) == c.messages@
        &&& (d.messages@.last() matches ChatLine::Text(t) && t@ == "(me): "@ + c.input@)
    }
    &&& a == Some(ChatCmd::LeaveChatInput) ==> r is Nothing && d == with_mode(c, InputMode::Normal)
    &&& a == Some(ChatCmd::ScrollDown) ==> r is Nothing && d == with_scroll(
        c,
        if c.scroll == usize::MAX {
            usize::MAX
        } else {
            (c.scroll + 1) as usize
        },
    )
    &&& a == Some(ChatCmd::ScrollUp) ==> r is Nothing && d == with_scroll(
        c,
        if c.scroll == 0 {
            0
        } else {
            (c.scroll - 1) as usize
        },
    )
}

impl Chat {
    /// A key typed while the input line has the keys, as `chat_key_step` says.
    pub fn handle_input<M>(&mut self, key: &KeyEvent) -> (r: InputOutcome<M>)
        requires
            old(self).input_mode == InputMode::Editing,
        ensures
            chat_key_step(*old(self), *final(self), *key, r),
    {
        match get_action(&chat_keys(), key).unwrap_or(ChatCmd::NoOp) {
            ChatCmd::NoOp => InputOutcome::EditChat,
            ChatCmd::SendInput => {
                let text = self.input.clone();
                self.input = String::new();
                self.push_own_message(text.as_str());
                InputOutcome::SendChat(text)
            },
            ChatCmd::LeaveChatInput => {
                self.input_mode = InputMode::Normal;
                InputOutcome::Nothing
            },
            ChatCmd::ScrollDown => {
                self.scroll = self.scroll.saturating_add(1);
                InputOutcome::Nothing
            },
            ChatCmd::ScrollUp => {
                self.scroll = self.scroll.saturating_sub(1);
                InputOutcome::Nothing
            },
        }
    }
}


impl Context<Intro> {
    /// A key of the login stage: enter goes on to the lobby, control-q quits.
    pub fn handle_input(&mut self, event: &Event) -> (r: InputOutcome<IntroMsg>)
        ensures
            *final(self) == *old(self),
            pressed(*event) is None ==> r is Nothing,
            pressed(*event) matches Some(k) ==> {
                let a = action_of(intro_keys_spec(), k);
                &&& a == Some(IntroCmd::Enter) ==> (r matches InputOutcome::Send(IntroMsg::StartHome))
                &&& a != Some(IntroCmd::Enter) ==> main_outcome_is(k, r)
            },
    {
        match pressed_key(event) {
            None => InputOutcome::Nothing,
            Some(key) => match get_action(&intro_keys(), &key).unwrap_or(IntroCmd::NoOp) {
                IntroCmd::NoOp => handle_main_input(&key),
                IntroCmd::Enter => InputOutcome::Send(IntroMsg::StartHome),
            },
        }
    }
}

impl Context<Home> {
    /// A key of the lobby: with the keys as commands, enter starts the role selection, `e`
    /// opens the chat, control-q quits; with the keys on the chat, the chat takes them.
    pub fn handle_input(&mut self, event: &Event) -> (r: InputOutcome<HomeMsg>)
        ensures
            final(self).username == old(self).username,
            pressed(*event) is None ==> r is Nothing && *final(self) == *old(self),
            pressed(*event) matches Some(k) ==> {
                let a = action_of(home_keys_spec(), k);
                &&& old(self).chat.input_mode == InputMode::Normal ==> {
                    &&& a == Some(HomeCmd::StartRoles) ==> (r matches InputOutcome::Send(
                        HomeMsg::StartRoles,
                    )) && final(self).chat == old(self).chat
                    &&& a == Some(HomeCmd::EnterChat) ==> r is Nothing && final(self).chat == with_mode(
                        old(self).chat,
                        InputMode::Editing,
                    )
                    &&& (a is None || a == Some(HomeCmd::NoOp)) ==> main_outcome_is(k, r)
                        && final(self).chat == old(self).chat
                }
                &&& old(self).chat.input_mode == InputMode::Editing ==> chat_key_step(
                    old(self).chat,
                    final(self).chat,
                    k,
                    r,
                )
            },
    {
        match pressed_key(event) {
            None => InputOutcome::Nothing,
            Some(key) => match self.chat.input_mode {
                InputMode::Normal => match get_action(&home_keys(), &key).unwrap_or(HomeCmd::NoOp) {
                    HomeCmd::NoOp => handle_main_input(&key),
                    HomeCmd::EnterChat => {
                        self.chat.input_mode = InputMode::Editing;
                        InputOutcome::Nothing
                    },
                    HomeCmd::StartRoles => InputOutcome::Send(HomeMsg::StartRoles),
                },
                InputMode::Editing => self.chat.handle_input(&key),
            },
        }
    }
}

impl Context<Roles> {
    /// A key of the role selection: with the keys as commands, the arrows move the cursor
    /// around the roles, space asks for the role under the cursor if it is available (or
    /// notes that it is not, unless it is the chosen one), enter asks to start the game, `e`
    /// opens the chat, control-q quits; with the keys on the chat, the chat takes them.
    pub fn handle_input(&mut self, event: &Event) -> (r: InputOutcome<RolesMsg>)
        requires
            old(self).state.roles.wf(),
            old(self).state.roles.items@.len() > 0,
        ensures
            final(self).username == old(self).username,
            final(self).state.roles.wf(),
            final(self).state.roles.items@ == old(self).state.roles.items@,
            final(self).state.roles.selected == old(self).state.roles.selected,
            pressed(*event) is None ==> r is Nothing && *final(self) == *old(self),
            pressed(*event) matches Some(k) ==> {
                let a = action_of(select_role_keys_spec(), k);
                let len = old(self).state.roles.items@.len() as int;
                let act = old(self).state.roles.active;
                &&& old(self).chat.input_mode == InputMode::Normal ==> {
                    &&& a == Some(RolesCmd::StartGame) ==> (r matches InputOutcome::Send(
                        RolesMsg::StartGame,
                    )) && final(self).chat == old(self).chat && final(self).state.roles.active
                        == act
                    &&& a == Some(RolesCmd::EnterChat) ==> r is Nothing && final(self).chat == with_mode(
                        old(self).chat,
                        InputMode::Editing,
                    ) && final(self).state.roles.active == act
                    &&& a == Some(RolesCmd::SelectNext) ==> r is Nothing && final(self).chat == old(
                        self).chat && final(self).state.roles.active == Some(cycle_next(act, len))
                    &&& a == Some(RolesCmd::SelectPrev) ==> r is Nothing && final(self).chat == old(
                        self).chat && final(self).state.roles.active == Some(cycle_prev(act, len))
                    &&& a == Some(RolesCmd::ConfirmRole) ==> {
                        &&& final(self).state.roles.active == act
                        &&& final(self).chat.input_mode == old(self).chat.input_mode
                        &&& final(self).chat.scroll == old(self).chat.scroll
                        &&& final(self).chat.input == old(self).chat.input
                        &&& (act matches Some(i) && old(self).state.roles.items@[i as int] is Available)
                            ==> (r matches InputOutcome::Send(RolesMsg::Select(role)) && role
                            == status_role(old(self).state.roles.items@[act->0 as int]))
                            && final(self).chat.messages == old(self).chat.messages
                        &&& !(act matches Some(i) && old(self).state.roles.items@[i as int] is Available)
                            ==> r is Nothing && (act != old(self).state.roles.selected ==> events_added(
                            old(self).chat.messages@,
                            final(self).chat.messages@,
                            seq!["This role is not available"@],
                        )) && (act == old(self).state.roles.selected ==> final(self).chat.messages
                            == old(self).chat.messages)
                    }
                    &&& (a is None || a == Some(RolesCmd::NoOp)) ==> main_outcome_is(k, r)
                        && final(self).chat == old(self).chat && final(self).state.roles.active
                        == act
                }
                &&& old(self).chat.input_mode == InputMode::Editing ==> {
                    &&& final(self).state.roles.active == act
                    &&& chat_key_step(old(self).chat, final(self).chat, k, r)
                }
            },
    {
        match pressed_key(event) {
            None => InputOutcome::Nothing,
            Some(key) => match self.chat.input_mode {
                InputMode::Normal => match get_action(&select_role_keys(), &key).unwrap_or(
                    RolesCmd::NoOp,
                ) {
                    RolesCmd::NoOp => handle_main_input(&key),
                    RolesCmd::EnterChat => {
                        self.chat.input_mode = InputMode::Editing;
                        InputOutcome::Nothing
                    },
                    RolesCmd::SelectNext => {
                        self.state.roles.next();
                        InputOutcome::Nothing
                    },
                    RolesCmd::SelectPrev => {
                        self.state.roles.prev();
                        InputOutcome::Nothing
                    },
                    RolesCmd::ConfirmRole => {
                        match self.state.roles.active() {
                            Some(RoleStatus::Available(role)) => InputOutcome::Send(
                                RolesMsg::Select(role),
                            ),
                            _ => {
                                if self.state.roles.active != self.state.roles.selected {
                                    self.chat.push_event("This role is not available".to_owned());
                                }
                                InputOutcome::Nothing
                            },
                        }
                    },
                    RolesCmd::StartGame => InputOutcome::Send(RolesMsg::StartGame),
                },
                InputMode::Editing => self.chat.handle_input(&key),
            },
        }
    }
}

/// Whether a list of places holds an entry.
fn has_entry<E>(items: &Vec<Option<E>>) -> (r: bool)
    ensures
        r == any_some(items@),
{
    let mut i: usize = 0;
    while i < items.len()
        invariant
            i <= items@.len(),
            forall|j: int| 0 <= j < i ==> (#[trigger] items@[j]) is None,
        decreases items@.len() - i,
    {
        if items[i].is_some() {
            return true;
        }
        i = i + 1;
    }
    false
}

/// Whether a list of places can move its cursor, as `cursor_movable` says.
fn movable<E>(l: &crate::client::ui::details::StatefulList<Option<E>>) -> (r: bool)
    ensures
        r == cursor_movable(*l),
{
    !has_entry(&l.items) || l.active.is_some()
}

/// Whether an entry is under the cursor of a list of places, as `active_entry` says.
fn entry_under_cursor<E>(l: &crate::client::ui::details::StatefulList<Option<E>>) -> (r: bool)
    ensures
        r == active_entry(*l),
{
    match l.active {
        Some(i) => i < l.items.len() && l.items[i].is_some(),
        None => false,
    }
}

impl Context<Game> {
    /// Whether the game can take an input event: a key press must meet `game_input_ok`.
    pub fn can_handle(&self, event: &Event) -> (r: bool)
        ensures
            r == (pressed(*event) matches Some(k) ==> game_input_ok(self.state, self.chat.input_mode, k)),
    {
        let key = match pressed_key(event) {
            None => return true,
            Some(k) => k,
        };
        if self.chat.input_mode != InputMode::Normal {
            return true;
        }
        let a = get_action(&game_keys(), &key);
        let g = &self.state;
        let moving = a == Some(GameCmd::SelectPrev) || a == Some(GameCmd::SelectNext);
        let confirming = a == Some(GameCmd::ConfirmSelected);
        match g.phase {
            TurnStatus::Ready(GamePhaseKind::DropAbility)
            | TurnStatus::Ready(GamePhaseKind::SelectAbility) => {
                (!moving || movable(&g.abilities)) && (!confirming || entry_under_cursor(&g.abilities))
            },
            TurnStatus::Ready(GamePhaseKind::AttachMonster) => {
                (!moving || movable(&g.monsters)) && (!confirming || entry_under_cursor(&g.monsters))
            },
            _ => true,
        }
    }
}

/// The entry under the cursor of a list of places is there.
pub open spec fn active_entry<E>(l: crate::client::ui::details::StatefulList<Option<E>>) -> bool {
    l.active matches Some(i) && i < l.items@.len() && l.items@[i as int] is Some
}

/// A list of places whose cursor can move: if it holds an entry, the cursor is somewhere.
pub open spec fn cursor_movable<E>(l: crate::client::ui::details::StatefulList<Option<E>>) -> bool {
    any_some(l.items@) ==> l.active is Some
}

/// Whether the game can take a key: moving a cursor needs a cursor over a list with an
/// entry, and playing needs an entry under the cursor of the list that the phase plays
/// from.
pub open spec fn game_input_ok(g: Game, mode: InputMode, key: KeyEvent) -> bool {
    let a = action_of(game_keys_spec(), key);
    mode == InputMode::Normal ==> {
        &&& (a == Some(GameCmd::SelectPrev) || a == Some(GameCmd::SelectNext)) ==> match g.phase {
            TurnStatus::Ready(GamePhaseKind::DropAbility)
            | TurnStatus::Ready(GamePhaseKind::SelectAbility) => cursor_movable(g.abilities),
            TurnStatus::Ready(GamePhaseKind::AttachMonster) => cursor_movable(g.monsters),
            _ => true,
        }
        &&& a == Some(GameCmd::ConfirmSelected) ==> match g.phase {
            TurnStatus::Ready(GamePhaseKind::DropAbility)
            | TurnStatus::Ready(GamePhaseKind::SelectAbility) => active_entry(g.abilities),
            TurnStatus::Ready(GamePhaseKind::AttachMonster) => active_entry(g.monsters),
            _ => true,
        }
    }
}

impl Context<Game> {
    /// A key of the game: with the keys as commands, in the player's turn the arrows move
    /// the cursor over the abilities (when dropping or selecting one) or the monsters (when
    /// attacking), space plays what is under the cursor (or goes on after defending); `e`
    /// opens the chat, control-q quits; with the keys on the chat, the chat takes them.
    pub fn handle_input(&mut self, event: &Event) -> (r: InputOutcome<GameMsg>)
        requires
            old(self).state.wf(),
            pressed(*event) matches Some(k) ==> game_input_ok(
                old(self).state,
                old(self).chat.input_mode,
                k,
            ),
        ensures
            final(self).state.wf(),
            final(self).username == old(self).username,
            final(self).state.phase == old(self).state.phase,
            final(self).state.abilities.items@ == old(self).state.abilities.items@,
            final(self).state.monsters.items@ == old(self).state.monsters.items@,
            final(self).state.abilities.selected == old(self).state.abilities.selected,
            pressed(*event) is None ==> r is Nothing && *final(self) == *old(self),
            pressed(*event) matches Some(k) ==> {
                let a = action_of(game_keys_spec(), k);
                let g = old(self).state;
                &&& old(self).chat.input_mode == InputMode::Normal ==> {
                    &&& a != Some(GameCmd::EnterChat) ==> final(self).chat == old(self).chat
                    &&& a == Some(GameCmd::ConfirmSelected) ==> match g.phase {
                        TurnStatus::Ready(GamePhaseKind::DropAbility) => (r matches InputOutcome::Send(
                            GameMsg::DropAbility(x),
                        ) && Some(x) == g.abilities.items@[g.abilities.active->0 as int])
                            && final(self).state == g,
                        TurnStatus::Ready(GamePhaseKind::SelectAbility) => (r matches InputOutcome::Send(
                            GameMsg::SelectAbility(x),
                        ) && Some(x) == g.abilities.items@[g.abilities.active->0 as int])
                            && final(self).state == g,
                        TurnStatus::Ready(GamePhaseKind::AttachMonster) => (r matches InputOutcome::Send(
                            GameMsg::Attack(x),
                        ) && Some(x) == g.monsters.items@[g.monsters.active->0 as int])
                            && final(self).state == g,
                        TurnStatus::Ready(GamePhaseKind::Defend) => (r matches InputOutcome::Send(
                            GameMsg::Continue,
                        )) && final(self).state.monsters.selected is None
                            && final(self).state.monsters.active == g.monsters.active
                            && final(self).state.abilities == g.abilities,
                        TurnStatus::Wait => r is Nothing && final(self).state == g,
                    }
                    &&& a == Some(GameCmd::SelectNext) ==> r is Nothing && match g.phase {
                        TurnStatus::Ready(GamePhaseKind::DropAbility)
                        | TurnStatus::Ready(GamePhaseKind::SelectAbility) => {
                            &&& final(self).state.monsters == g.monsters
                            &&& !any_some(g.abilities.items@) ==> final(self).state.abilities.active is None
                            &&& any_some(g.abilities.items@) ==> final(self).state.abilities.active
                                == Some(next_entry(g.abilities.items@, g.abilities.active->0 as int) as usize)
                        },
                        TurnStatus::Ready(GamePhaseKind::AttachMonster) => {
                            &&& final(self).state.abilities == g.abilities
                            &&& !any_some(g.monsters.items@) ==> final(self).state.monsters.active is None
                            &&& any_some(g.monsters.items@) ==> final(self).state.monsters.active
                                == Some(next_entry(g.monsters.items@, g.monsters.active->0 as int) as usize)
                        },
                        _ => final(self).state == g,
                    }
                    &&& a == Some(GameCmd::SelectPrev) ==> r is Nothing && match g.phase {
                        TurnStatus::Ready(GamePhaseKind::DropAbility)
                        | TurnStatus::Ready(GamePhaseKind::SelectAbility) => {
                            &&& final(self).state.monsters == g.monsters
                            &&& !any_some(g.abilities.items@) ==> final(self).state.abilities.active is None
                            &&& any_some(g.abilities.items@) ==> final(self).state.abilities.active
                                == Some(prev_entry(g.abilities.items@, g.abilities.active->0 as int) as usize)
                        },
                        TurnStatus::Ready(GamePhaseKind::AttachMonster) => {
                            &&& final(self).state.abilities == g.abilities
                            &&& !any_some(g.monsters.items@) ==> final(self).state.monsters.active is None
                            &&& any_some(g.monsters.items@) ==> final(self).state.monsters.active
                                == Some(prev_entry(g.monsters.items@, g.monsters.active->0 as int) as usize)
                        },
                        _ => final(self).state == g,
                    }
                    &&& a == Some(GameCmd::EnterChat) ==> r is Nothing && final(self).chat == with_mode(
                        old(self).chat,
                        InputMode::Editing,
                    ) && final(self).state == g
                    &&& (a is None || a == Some(GameCmd::NoOp)) ==> main_outcome_is(k, r)
                        && final(self).chat == old(self).chat && final(self).state == g
                }
                &&& old(self).chat.input_mode == InputMode::Editing ==> {
                    &&& final(self).state == g
                    &&& chat_key_step(old(self).chat, final(self).chat, k, r)
                }
            },
    {
        let key = match pressed_key(event) {
            None => {
                return InputOutcome::Nothing;
            },
            Some(k) => k,
        };
        match self.chat.input_mode {
            InputMode::Editing => self.chat.handle_input(&key),
            InputMode::Normal => match get_action(&game_keys(), &key).unwrap_or(GameCmd::NoOp) {
                GameCmd::NoOp => handle_main_input(&key),
                GameCmd::EnterChat => {
                    self.chat.input_mode = InputMode::Editing;
                    InputOutcome::Nothing
                },
                GameCmd::ConfirmSelected => match self.state.phase {
                    TurnStatus::Ready(GamePhaseKind::DropAbility) => {
                        let a = self.state.abilities.active().unwrap();
                        InputOutcome::Send(GameMsg::DropAbility(a))
                    },
                    TurnStatus::Ready(GamePhaseKind::SelectAbility) => {
                        let a = self.state.abilities.active().unwrap();
                        InputOutcome::Send(GameMsg::SelectAbility(a))
                    },
                    TurnStatus::Ready(GamePhaseKind::AttachMonster) => {
                        let m = self.state.monsters.active().unwrap();
                        InputOutcome::Send(GameMsg::Attack(m))
                    },
                    TurnStatus::Ready(GamePhaseKind::Defend) => {
                        self.state.monsters.selected = None;
                        InputOutcome::Send(GameMsg::Continue)
                    },
                    TurnStatus::Wait => InputOutcome::Nothing,
                },
                GameCmd::SelectPrev => {
                    match self.state.phase {
                        TurnStatus::Ready(GamePhaseKind::SelectAbility)
                        | TurnStatus::Ready(GamePhaseKind::DropAbility) => self.state.abilities.prev(),
                        TurnStatus::Ready(GamePhaseKind::AttachMonster) => self.state.monsters.prev(),
                        _ => {},
                    }
                    InputOutcome::Nothing
                },
                GameCmd::SelectNext => {
                    match self.state.phase {
                        TurnStatus::Ready(GamePhaseKind::SelectAbility)
                        | TurnStatus::Ready(GamePhaseKind::DropAbility) => self.state.abilities.next(),
                        TurnStatus::Ready(GamePhaseKind::AttachMonster) => self.state.monsters.next(),
                        _ => {},
                    }
                    InputOutcome::Nothing
                },
            },
        }
    }
}

} // verus!
