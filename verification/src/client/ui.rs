//! What the client shows: the names of keys and commands, and the parts of the game screen.
pub mod details;

use vstd::prelude::*;

use crate::client::input::{ChatCmd, GameCmd, HomeCmd, KeyCode, KeyEvent, KeyModifiers, MainCmd, RolesCmd};
use crate::client::states::concat;
use vstd::string::StringExecFns;
use crate::client::ui::details::StatefulList;
use crate::game::{role_description, role_name, Card};
use crate::protocol::server::ChatLine;
use crate::protocol::{status_role, GamePhaseKind, RoleStatus, TurnStatus};

verus! {

/// The decimal digit `d`.
pub open spec fn digit(d: nat) -> char {
    ((48 + d) as u8) as char
}

/// The decimal text of a number.
pub open spec fn decimal(n: nat) -> Seq<char>
    decreases n,
{
    if n < 10 {
        seq![digit(n)]
    } else {
        decimal(n / 10).push(digit(n % 10))
    }
}

/// The text of a character, made by `format!`; the contract claims that it is that one
/// character.
#[verifier::external_body]
fn char_text(c: char) -> (r: String)
    ensures
        r@ == seq![c],
{
    format!("{}", c)
}

/// The text of a decimal digit.
fn digit_text(d: u16) -> (r: String)
    requires
        d < 10,
    ensures
        r@ == seq![digit(d as nat)],
{
    let text = match d {
        0 => "0",
        1 => "1",
        2 => "2",
        3 => "3",
        4 => "4",
        5 => "5",
        6 => "6",
        7 => "7",
        8 => "8",
        _ => "9",
    };
    proof {
        reveal_strlit("0");
        reveal_strlit("1");
        reveal_strlit("2");
        reveal_strlit("3");
        reveal_strlit("4");
        reveal_strlit("5");
        reveal_strlit("6");
        reveal_strlit("7");
        reveal_strlit("8");
        reveal_strlit("9");
    }
    String::from_str(text)
}

/// The decimal text of a number: its digits, most significant first, with no leading zero.
fn u16_text(n: u16) -> (r: String)
    ensures
        r@ == decimal(n as nat),
    decreases n,
{
    if n < 10 {
        digit_text(n)
    } else {
        let mut text = u16_text(n / 10);
        let last = digit_text(n % 10);
        text.append(last.as_str());
        text
    }
}

/// The decimal text of a number: its digits, most significant first, with no leading zero.
fn u8_text(n: u8) -> (r: String)
    ensures
        r@ == decimal(n as nat),
{
    u16_text(n as u16)
}

/// Whether a key can be named: its modifiers are none or control alone, and it is one of
/// the keys that have a name.
pub open spec fn key_displayable(key: KeyEvent) -> bool {
    key.modifiers != KeyModifiers::Other && key.code != KeyCode::Other
}

/// The name of the modifiers of a key.
pub open spec fn modifiers_text(m: KeyModifiers) -> Seq<char> {
    match m {
        KeyModifiers::Control => "ctrl"@,
        _ => ""@,
    }
}

/// The name of a key code.
pub open spec fn code_text(c: KeyCode) -> Seq<char> {
    match c {
        KeyCode::Char(' ') => "space"@,
        KeyCode::Char(ch) => seq![ch],
        KeyCode::F(n) => decimal(n as nat),
        KeyCode::Enter => "enter"@,
        KeyCode::Up => "\u{2191}"@,
        KeyCode::Down => "\u{2193}"@,
        KeyCode::Right => "\u{2192}"@,
        KeyCode::Left => "\u{2190}"@,
        KeyCode::Esc => "esc"@,
        KeyCode::Other => ""@,
    }
}

/// The name of a key: its modifiers, a dash if there are any, and its code.
pub open spec fn key_text(key: KeyEvent) -> Seq<char> {
    modifiers_text(key.modifiers) + (if key.modifiers == KeyModifiers::Plain {
        ""@
    } else {
        "-"@
    }) + code_text(key.code)
}

/// The name of a key, such as "ctrl-q", "enter" or "space".
pub fn display_key(key: &KeyEvent) -> (r: String)
    requires
        key_displayable(*key),
    ensures
        r@ == key_text(*key),
{
    let mods: &str = match key.modifiers {
        KeyModifiers::Plain => "",
        _ => "ctrl",
    };
    let dash: &str = match key.modifiers {
        KeyModifiers::Plain => "",
        _ => "-",
    };
    let code: String = match key.code {
        KeyCode::Char(c) => if c == ' ' {
            "space".to_owned()
        } else {
            char_text(c)
        },
        KeyCode::F(n) => u8_text(n),
        KeyCode::Enter => "enter".to_owned(),
        KeyCode::Up => "\u{2191}".to_owned(),
        KeyCode::Down => "\u{2193}".to_owned(),
        KeyCode::Right => "\u{2192}".to_owned(),
        KeyCode::Left => "\u{2190}".to_owned(),
        KeyCode::Esc => "esc".to_owned(),
        KeyCode::Other => "".to_owned(),
    };
    let a = concat(mods, dash);
    concat(a.as_str(), code.as_str())
}

/// The help text of a key bound to a command with a name: "[key]name "; nothing for a
/// command without a name.
pub fn action_label(key: &KeyEvent, name: Result<&str, ()>) -> (r: String)
    requires
        key_displayable(*key),
    ensures
        name matches Ok(n) ==> r@ == "["@ + key_text(*key) + "]"@ + n@ + " "@,
        name is Err ==> r@ == Seq::<char>::empty(),
{
    match name {
        Ok(n) => {
            let k = display_key(key);
            let a = concat("[", k.as_str());
            let b = concat(a.as_str(), "]");
            let c = concat(b.as_str(), n);
            concat(c.as_str(), " ")
        },
        Err(()) => String::new(),
    }
}

/// The name of a command of every stage.
pub fn main_cmd_name(cmd: MainCmd) -> (r: Result<&'static str, ()>)
    ensures
        cmd == MainCmd::Quit ==> (r matches Ok(s) && s@ == "Quit"@),
        cmd == MainCmd::NoOp ==> r is Err,
{
    match cmd {
        MainCmd::Quit => Ok("Quit"),
        MainCmd::NoOp => Err(()),
    }
}

/// The name of a command of the lobby.
pub fn home_cmd_name(cmd: HomeCmd) -> (r: Result<&'static str, ()>)
    ensures
        cmd == HomeCmd::EnterChat ==> (r matches Ok(s) && s@ == "EnterChat"@),
        cmd == HomeCmd::StartRoles ==> (r matches Ok(s) && s@ == "StartRoles"@),
        cmd == HomeCmd::NoOp ==> r is Err,
{
    match cmd {
        HomeCmd::EnterChat => Ok("EnterChat"),
        HomeCmd::StartRoles => Ok("StartRoles"),
        HomeCmd::NoOp => Err(()),
    }
}

/// The name of a command of the role selection.
pub fn roles_cmd_name(cmd: RolesCmd) -> (r: Result<&'static str, ()>)
    ensures
        cmd == RolesCmd::EnterChat ==> (r matches Ok(s) && s@ == "EnterChat"@),
        cmd == RolesCmd::SelectPrev ==> (r matches Ok(s) && s@ == "SelectPrev"@),
        cmd == RolesCmd::SelectNext ==> (r matches Ok(s) && s@ == "SelectNext"@),
        cmd == RolesCmd::ConfirmRole ==> (r matches Ok(s) && s@ == "ConfirmRole"@),
        cmd == RolesCmd::StartGame ==> (r matches Ok(s) && s@ == "StartGame"@),
        cmd == RolesCmd::NoOp ==> r is Err,
{
    match cmd {
        RolesCmd::EnterChat => Ok("EnterChat"),
        RolesCmd::SelectPrev => Ok("SelectPrev"),
        RolesCmd::SelectNext => Ok("SelectNext"),
        RolesCmd::ConfirmRole => Ok("ConfirmRole"),
        RolesCmd::StartGame => Ok("StartGame"),
        RolesCmd::NoOp => Err(()),
    }
}

/// The name of a command of the chat's input line.
pub fn chat_cmd_name(cmd: ChatCmd) -> (r: Result<&'static str, ()>)
    ensures
        cmd == ChatCmd::SendInput ==> (r matches Ok(s) && s@ == "SendInput"@),
        cmd == ChatCmd::LeaveChatInput ==> (r matches Ok(s) && s@ == "LeaveChatInput"@),
        cmd == ChatCmd::ScrollUp ==> (r matches Ok(s) && s@ == "ScrollUp"@),
        cmd == ChatCmd::ScrollDown ==> (r matches Ok(s) && s@ == "ScrollDown"@),
        cmd == ChatCmd::NoOp ==> r is Err,
{
    match cmd {
        ChatCmd::SendInput => Ok("SendInput"),
        ChatCmd::LeaveChatInput => Ok("LeaveChatInput"),
        ChatCmd::ScrollUp => Ok("ScrollUp"),
        ChatCmd::ScrollDown => Ok("ScrollDown"),
        ChatCmd::NoOp => Err(()),
    }
}

/// A command of the game as it reads in the current turn.
#[derive(Debug, Clone, Copy, PartialEq, Eq, Structural)]
pub struct DisplayGameAction(pub GameCmd, pub TurnStatus);

/// What a command of the game does in a turn, if anything: moving the cursor while
/// dropping, selecting or attacking, the move that space makes in each phase, and the chat
/// in any phase; nothing while waiting.
pub open spec fn game_action_name(cmd: GameCmd, status: TurnStatus) -> Option<Seq<char>> {
    match status {
        TurnStatus::Wait => None,
        TurnStatus::Ready(phase) => match (cmd, phase) {
            (GameCmd::SelectPrev, GamePhaseKind::Defend) => None,
            (GameCmd::SelectPrev, _) => Some("SelectPrev"@),
            (GameCmd::SelectNext, GamePhaseKind::Defend) => None,
            (GameCmd::SelectNext, _) => Some("SelectNext"@),
            (GameCmd::ConfirmSelected, GamePhaseKind::DropAbility) => Some("DropAbility"@),
            (GameCmd::ConfirmSelected, GamePhaseKind::SelectAbility) => Some("SelectAbility"@),
            (GameCmd::ConfirmSelected, GamePhaseKind::AttachMonster) => Some("Attack"@),
            (GameCmd::ConfirmSelected, GamePhaseKind::Defend) => Some("Continue"@),
            (GameCmd::EnterChat, _) => Some("Chat"@),
            (GameCmd::NoOp, _) => None,
        },
    }
}

impl DisplayGameAction {
    /// The name of the command in the turn, as `game_action_name` gives it.
    pub fn name(&self) -> (r: Result<&'static str, ()>)
        ensures
            game_action_name(self.0, self.1) matches Some(n) ==> (r matches Ok(s) && s@ == n),
            game_action_name(self.0, self.1) is None ==> r is Err,
    {
        match self.1 {
            TurnStatus::Wait => Err(()),
            TurnStatus::Ready(phase) => match (self.0, phase) {
                (GameCmd::SelectPrev, GamePhaseKind::Defend) => Err(()),
                (GameCmd::SelectPrev, _) => Ok("SelectPrev"),
                (GameCmd::SelectNext, GamePhaseKind::Defend) => Err(()),
                (GameCmd::SelectNext, _) => Ok("SelectNext"),
                (GameCmd::ConfirmSelected, GamePhaseKind::DropAbility) => Ok("DropAbility"),
                (GameCmd::ConfirmSelected, GamePhaseKind::SelectAbility) => Ok("SelectAbility"),
                (GameCmd::ConfirmSelected, GamePhaseKind::AttachMonster) => Ok("Attack"),
                (GameCmd::ConfirmSelected, GamePhaseKind::Defend) => Ok("Continue"),
                (GameCmd::EnterChat, _) => Ok("Chat"),
                (GameCmd::NoOp, _) => Err(()),
            },
        }
    }
}

/// The panel with the player's name and health.
#[derive(Debug)]
pub struct Hud {
    pub username: String,
    pub health: (u16, u16),
}

impl Hud {
    /// A panel for a name and a health out of a maximum.
    pub fn new(username: String, health: (u16, u16)) -> (h: Hud)
        ensures
            h.username@ == username@,
            h.health == health,
    {
        Hud { username, health }
    }
}

/// The row of a corner sign of a card.
#[derive(Debug, Clone, Copy, PartialEq, Eq, Structural)]
pub enum VerticalPosition {
    Top,
    Bottom,
}

/// The column of a corner sign of a card.
#[derive(Debug, Clone, Copy, PartialEq, Eq, Structural)]
pub enum HorizontalPosition {
    Right,
    Left,
}

impl VerticalPosition {
    /// The row of the card's layout where the sign stands: the second or the fourth.
    pub fn index(&self) -> (i: usize)
        ensures
            *self == VerticalPosition::Top ==> i == 1,
            *self == VerticalPosition::Bottom ==> i == 3,
    {
        match self {
            VerticalPosition::Top => 1,
            VerticalPosition::Bottom => 3,
        }
    }
}

impl HorizontalPosition {
    /// The column of the card's layout where the sign stands: the second or the fourth.
    pub fn index(&self) -> (i: usize)
        ensures
            *self == HorizontalPosition::Left ==> i == 1,
            *self == HorizontalPosition::Right ==> i == 3,
    {
        match self {
            HorizontalPosition::Right => 3,
            HorizontalPosition::Left => 1,
        }
    }
}

/// The corner of a card where a sign stands.
#[derive(Debug, Clone, Copy, PartialEq, Eq, Structural)]
pub struct SignPosition {
    pub v: VerticalPosition,
    pub h: HorizontalPosition,
}

impl SignPosition {
    /// A corner.
    pub fn new(v: VerticalPosition, h: HorizontalPosition) -> (p: SignPosition)
        ensures
            p == (SignPosition { v, h }),
    {
        SignPosition { v, h }
    }
}

/// The color in which a part of the screen is drawn.
#[derive(Debug, Clone, Copy, PartialEq, Eq, Structural)]
pub enum Tint {
    White,
    DarkGray,
    Cyan,
    Red,
    Green,
    LightYellow,
}

/// How a line of the chat reads, and its color: departures in red, arrivals in green,
/// messages in white, game events in yellow.
pub open spec fn chat_line_look(line: ChatLine) -> (Seq<char>, Tint) {
    match line {
        ChatLine::Disconnection(u) => (u@ + " has left the game"@, Tint::Red),
        ChatLine::Connection(u) => (u@ + " join to the game"@, Tint::Green),
        ChatLine::Reconnection(u) => (u@ + " reconnected"@, Tint::Green),
        ChatLine::Text(m) => (m@, Tint::White),
        ChatLine::GameEvent(m) => (m@, Tint::LightYellow),
    }
}

/// The text and color of a line of the chat, as `chat_line_look` gives them.
pub fn chat_line_view(line: &ChatLine) -> (r: (String, Tint))
    ensures
        r.0@ == chat_line_look(*line).0,
        r.1 == chat_line_look(*line).1,
{
    proof {
        reveal_strlit("");
    }
    match line {
        ChatLine::Disconnection(u) => (concat(u.0.as_str(), " has left the game"), Tint::Red),
        ChatLine::Connection(u) => (concat(u.0.as_str(), " join to the game"), Tint::Green),
        ChatLine::Reconnection(u) => (concat(u.0.as_str(), " reconnected"), Tint::Green),
        ChatLine::Text(m) => (concat(m.as_str(), ""), Tint::White),
        ChatLine::GameEvent(m) => (concat(m.as_str(), ""), Tint::LightYellow),
    }
}

/// The debug text of a role status, such as "Available(Mage)".
pub open spec fn role_status_debug(s: RoleStatus) -> Seq<char> {
    match s {
        RoleStatus::Available(r) => "Available("@ + role_name(r) + ")"@,
        RoleStatus::NotAvailable(r) => "NotAvailable("@ + role_name(r) + ")"@,
    }
}

/// The color of the description of the role under the cursor: cyan if it is the chosen
/// one, gray if another player holds it, white otherwise.
pub open spec fn role_tint(active: RoleStatus, selected: Option<RoleStatus>) -> Tint {
    if selected == Some(active) {
        Tint::Cyan
    } else if active is NotAvailable {
        Tint::DarkGray
    } else {
        Tint::White
    }
}

/// The panel of the role under the cursor: its title, the role's description, and the
/// description's color.
pub fn role_panel(roles: &StatefulList<RoleStatus>) -> (r: (String, &'static str, Tint))
    requires
        roles.wf(),
        roles.active is Some,
    ensures
        ({
            let active = roles.items@[roles.active->0 as int];
            let selected = match roles.selected {
                Some(s) => Some(roles.items@[s as int]),
                None => None,
            };
            &&& r.0@ == "Select Role - "@ + role_status_debug(active)
            &&& r.1@ == role_description(status_role(active))
            &&& r.2 == role_tint(active, selected)
        }),
{
    let active = roles.active().unwrap();
    let selected = roles.selected();
    let (head, role) = match active {
        RoleStatus::Available(r) => ("Available(", r),
        RoleStatus::NotAvailable(r) => ("NotAvailable(", r),
    };
    let a = concat(head, role.name());
    let debug = concat(a.as_str(), ")");
    let title = concat("Select Role - ", debug.as_str());
    let same = match selected {
        Some(s) => s == active,
        None => false,
    };
    let tint = if same {
        Tint::Cyan
    } else {
        match active {
            RoleStatus::NotAvailable(_) => Tint::DarkGray,
            RoleStatus::Available(_) => Tint::White,
        }
    };
    (title, role.description(), tint)
}

/// Whether a monster card is drawn on the table: during every phase but the defence, and
/// during the defence unless it is the monster that attacks the player.
pub fn monster_shown(phase: TurnStatus, attack_monster: Option<usize>, items: &Vec<Option<Card>>, card: Card) -> (r: bool)
    requires
        !(phase matches TurnStatus::Ready(p) && p != GamePhaseKind::Defend) ==> (attack_monster matches Some(i) ==> i < items@.len() && items@[i as int] is Some),
    ensures
        r == ((phase matches TurnStatus::Ready(p) && p != GamePhaseKind::Defend) || (
        attack_monster matches Some(i) && items@[i as int] != Some(card))),
{
    let ready_not_defend = match phase {
        TurnStatus::Ready(p) => p != GamePhaseKind::Defend,
        TurnStatus::Wait => false,
    };
    if ready_not_defend {
        return true;
    }
    match attack_monster {
        Some(i) => card != items[i].unwrap(),
        None => false,
    }
}

/// The color of the monster card at place `i`: red when it is the selected one during the
/// attack, white outside the attack or under the cursor, cyan when selected, gray otherwise.
pub open spec fn monster_tint(selected: Option<usize>, active: Option<usize>, phase: TurnStatus, i: usize) -> Tint {
    if selected == Some(i) && phase == TurnStatus::Ready(GamePhaseKind::AttachMonster) {
        Tint::Red
    } else if (phase matches TurnStatus::Ready(p) && p != GamePhaseKind::AttachMonster) || active
        == Some(i) {
        Tint::White
    } else if selected == Some(i) {
        Tint::Cyan
    } else {
        Tint::DarkGray
    }
}

/// The color of the monster card at place `i`, as `monster_tint` gives it; outside the
/// other phases the cursor must be somewhere.
pub fn monster_color(selected: Option<usize>, active: Option<usize>, phase: TurnStatus, i: usize) -> (r: Tint)
    requires
        (selected == Some(i) && phase == TurnStatus::Ready(GamePhaseKind::AttachMonster)) || (
        phase matches TurnStatus::Ready(p) && p != GamePhaseKind::AttachMonster) || active is Some,
    ensures
        r == monster_tint(selected, active, phase, i),
{
    let attacking = phase == TurnStatus::Ready(GamePhaseKind::AttachMonster);
    if selected == Some(i) && attacking {
        return Tint::Red;
    }
    let other_phase = match phase {
        TurnStatus::Ready(p) => p != GamePhaseKind::AttachMonster,
        TurnStatus::Wait => false,
    };
    if other_phase || active.unwrap() == i {
        Tint::White
    } else if selected == Some(i) {
        Tint::Cyan
    } else {
        Tint::DarkGray
    }
}

/// The color of the ability card at place `i`: cyan when selected, white under the cursor
/// while the player drops or selects an ability, gray otherwise.
pub open spec fn ability_tint(selected: Option<usize>, active: Option<usize>, phase: TurnStatus, i: usize) -> Tint {
    if selected == Some(i) {
        Tint::Cyan
    } else if !(phase == TurnStatus::Ready(GamePhaseKind::SelectAbility) || phase
        == TurnStatus::Ready(GamePhaseKind::DropAbility)) || active != Some(i) {
        Tint::DarkGray
    } else {
        Tint::White
    }
}

/// The color of the ability card at place `i`, as `ability_tint` gives it; while the player
/// drops or selects an ability the cursor must be somewhere.
pub fn ability_color(selected: Option<usize>, active: Option<usize>, phase: TurnStatus, i: usize) -> (r: Tint)
    requires
        selected == Some(i) || !(phase == TurnStatus::Ready(GamePhaseKind::SelectAbility) || phase
            == TurnStatus::Ready(GamePhaseKind::DropAbility)) || active is Some,
    ensures
        r == ability_tint(selected, active, phase, i),
{
    if selected == Some(i) {
        return Tint::Cyan;
    }
    let choosing = phase == TurnStatus::Ready(GamePhaseKind::SelectAbility) || phase
        == TurnStatus::Ready(GamePhaseKind::DropAbility);
    if !choosing || active.unwrap() != i {
        Tint::DarkGray
    } else {
        Tint::White
    }
}

/// The place of the monster drawn large over the table: the one attacking the player
/// while the player defends.
pub fn attacking_monster(phase: TurnStatus, attack_monster: Option<usize>) -> (r: Option<usize>)
    ensures
        r == (if phase == TurnStatus::Ready(GamePhaseKind::Defend) {
            attack_monster
        } else {
            None
        }),
{
    if phase == TurnStatus::Ready(GamePhaseKind::Defend) {
        attack_monster
    } else {
        None
    }
}

/// The padding on each side that centers a length `inner` in a length `outer`, none if it
/// does not fit.
pub fn centered_padding(outer: u16, inner: u16) -> (r: u16)
    ensures
        outer >= inner ==> r == (outer - inner) / 2,
        outer < inner ==> r == 0,
{
    outer.saturating_sub(inner) / 2
}

impl Hud {
    /// The fill of the health gauge: the health divided by a hundred, times the maximum.
    pub fn percent(&self) -> (r: u16)
        requires
            (self.health.0 / 100) * self.health.1 <= u16::MAX,
        ensures
            r == (self.health.0 / 100) * self.health.1,
    {
        (self.health.0 / 100) * self.health.1
    }

    /// The label of the health gauge: a heart, the health, a slash and the maximum.
    pub fn label(&self) -> (r: String)
        ensures
            r@ == "\u{1f90d} "@ + decimal(self.health.0 as nat) + "/"@ + decimal(
                self.health.1 as nat,
            ),
    {
        let a = concat("\u{1f90d} ", u16_text(self.health.0).as_str());
        let b = concat(a.as_str(), "/");
        concat(b.as_str(), u16_text(self.health.1).as_str())
    }
}

} // verus!
