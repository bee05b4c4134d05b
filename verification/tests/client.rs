use kobuleti::client::input::{
    chat_keys, game_keys, get_action, handle_main_input, home_keys, main_keys, select_role_keys,
    ChatCmd, Event, GameCmd, HomeCmd, InputMode, InputOutcome, KeyCode, KeyEvent, KeyEventKind,
    KeyModifiers, MainCmd, RolesCmd,
};
use kobuleti::client::states::{
    Chat, Context, Game, Home, Intro, LoginError, Reply, Roles, START_HEALTH,
};
use kobuleti::client::ui::details::StatefulList;
use kobuleti::client::ui::{
    ability_color, action_label, attacking_monster, centered_padding, chat_cmd_name,
    chat_line_view, display_key, home_cmd_name, main_cmd_name, monster_color, monster_shown,
    role_panel, roles_cmd_name, DisplayGameAction, HorizontalPosition, Hud, SignPosition, Tint,
    VerticalPosition,
};
use kobuleti::game::{Card, Rank, Role, Suit};
use kobuleti::protocol::client::{self as client_msg, StartGame};
use kobuleti::protocol::server::{self as server_msg, ChatLine, LoginStatus, SelectRoleError};
use kobuleti::protocol::{GameContext, GamePhaseKind, RoleStatus, TurnStatus, Username};

fn key(code: KeyCode) -> Event {
    Event::Key(KeyEvent::new(code, KeyModifiers::Plain))
}

fn name(s: &str) -> Username {
    Username(s.to_string())
}

fn events(chat: &Chat) -> Vec<String> {
    chat.messages
        .iter()
        .filter_map(|l| match l {
            ChatLine::GameEvent(t) => Some(t.clone()),
            _ => None,
        })
        .collect()
}

fn start() -> StartGame {
    StartGame {
        abilities: [Some(Rank::Ace), None, Some(Rank::Ten)],
        monsters: [Some(Card::new(Rank::King, Suit::Hearts)), Some(Card::new(Rank::Six, Suit::Clubs))],
        role: Suit::Clubs,
    }
}

#[test]
fn key_tables_bind_the_documented_keys() {
    let q = KeyEvent::new(KeyCode::Char('q'), KeyModifiers::Control);
    assert_eq!(get_action(&main_keys(), &q), Some(MainCmd::Quit));
    let enter = KeyEvent::new(KeyCode::Enter, KeyModifiers::Plain);
    assert_eq!(get_action(&home_keys(), &enter), Some(HomeCmd::StartRoles));
    assert_eq!(get_action(&select_role_keys(), &enter), Some(RolesCmd::StartGame));
    let space = KeyEvent::new(KeyCode::Char(' '), KeyModifiers::Plain);
    assert_eq!(get_action(&select_role_keys(), &space), Some(RolesCmd::ConfirmRole));
    assert_eq!(get_action(&game_keys(), &space), Some(GameCmd::ConfirmSelected));
    assert_eq!(get_action(&chat_keys(), &enter), Some(ChatCmd::SendInput));
    let x = KeyEvent::new(KeyCode::Char('x'), KeyModifiers::Plain);
    assert_eq!(get_action(&game_keys(), &x), None);
    assert!(matches!(handle_main_input::<()>(&q), InputOutcome::Quit));
    assert!(matches!(handle_main_input::<()>(&x), InputOutcome::Nothing));
}

#[test]
fn chat_input_line_keys() {
    let mut chat = Chat::default();
    chat.input_mode = InputMode::Editing;
    let down = KeyEvent::new(KeyCode::Down, KeyModifiers::Plain);
    let up = KeyEvent::new(KeyCode::Up, KeyModifiers::Plain);
    assert!(matches!(chat.handle_input::<()>(&up), InputOutcome::Nothing));
    assert_eq!(chat.scroll, 0);
    assert!(matches!(chat.handle_input::<()>(&down), InputOutcome::Nothing));
    assert_eq!(chat.scroll, 1);
    let a = KeyEvent::new(KeyCode::Char('a'), KeyModifiers::Plain);
    assert!(matches!(chat.handle_input::<()>(&a), InputOutcome::EditChat));
    let enter = KeyEvent::new(KeyCode::Enter, KeyModifiers::Plain);
    chat.input = "hi".to_string();
    match chat.handle_input::<()>(&enter) {
        InputOutcome::SendChat(text) => assert_eq!(text, "hi"),
        _ => panic!("the line is sent"),
    }
    assert_eq!(chat.input, "");
    assert_eq!(chat.input_mode, InputMode::Editing);
    match chat.messages.last() {
        Some(ChatLine::Text(t)) => assert_eq!(t, "(me): hi"),
        other => panic!("{:?}", other),
    }
    let esc = KeyEvent::new(KeyCode::Esc, KeyModifiers::Plain);
    assert!(matches!(chat.handle_input::<()>(&esc), InputOutcome::Nothing));
    assert_eq!(chat.input_mode, InputMode::Normal);
    chat.push_own_message("hi");
    match chat.messages.last() {
        Some(ChatLine::Text(t)) => assert_eq!(t, "(me): hi"),
        other => panic!("{:?}", other),
    }
}

#[test]
fn login_stage_answers() {
    let mut ctx = Context::<Intro>::new(name("Ann"));
    assert!(matches!(
        ctx.reduce(server_msg::IntroMsg::LoginStatus(LoginStatus::Logged)),
        Ok(Reply::Send(client_msg::IntroMsg::GetChatLog))
    ));
    assert_eq!(ctx.state.status, Some(LoginStatus::Logged));
    assert!(matches!(
        ctx.reduce(server_msg::IntroMsg::LoginStatus(LoginStatus::PlayerLimit)),
        Err(LoginError::PlayerLimit(u)) if u.0 == "Ann"
    ));
    assert!(matches!(
        ctx.reduce(server_msg::IntroMsg::LoginStatus(LoginStatus::AlreadyLogged)),
        Err(LoginError::AlreadyLogged(_))
    ));
    assert!(matches!(
        ctx.reduce(server_msg::IntroMsg::LoginStatus(LoginStatus::InvalidPlayerName)),
        Err(LoginError::InvalidPlayerName(_))
    ));
    assert!(matches!(
        ctx.reduce(server_msg::IntroMsg::LoginStatus(LoginStatus::Reconnected)),
        Ok(Reply::Nothing)
    ));
    assert!(matches!(
        ctx.reduce(server_msg::IntroMsg::ReconnectRoles(Some(Role::Mage))),
        Ok(Reply::Done(GameContext::Roles(Some(Role::Mage))))
    ));
    assert!(matches!(
        ctx.reduce(server_msg::IntroMsg::StartHome),
        Ok(Reply::Done(GameContext::Home(())))
    ));
    let mut enter = ctx;
    assert!(matches!(
        enter.handle_input(&key(KeyCode::Enter)),
        InputOutcome::Send(client_msg::IntroMsg::StartHome)
    ));
}

#[test]
fn lobby_keys_and_start_of_roles() {
    let mut intro = Context::<Intro>::new(name("Ann"));
    let _ = intro.reduce(server_msg::IntroMsg::LoginStatus(LoginStatus::Logged));
    let mut home = Context::<Home>::from_intro(intro);
    assert!(matches!(
        home.handle_input(&key(KeyCode::Enter)),
        InputOutcome::Send(client_msg::HomeMsg::StartRoles)
    ));
    assert!(matches!(home.handle_input(&key(KeyCode::Char('e'))), InputOutcome::Nothing));
    assert_eq!(home.chat.input_mode, InputMode::Editing);
    assert!(matches!(home.handle_input(&Event::Other), InputOutcome::Nothing));
    let released = Event::Key(KeyEvent {
        code: KeyCode::Enter,
        modifiers: KeyModifiers::Plain,
        kind: KeyEventKind::Release,
        plain_state: true,
    });
    assert!(matches!(home.handle_input(&released), InputOutcome::Nothing));
    assert!(matches!(
        home.reduce(server_msg::HomeMsg::StartRoles(None)),
        Reply::Done(None)
    ));
}

#[test]
fn role_selection_flow() {
    let home = Context::<Home> { username: name("Ann"), chat: Chat::default(), state: Home {} };
    let mut roles = Context::<Roles>::from_home(home, None);
    assert_eq!(roles.state.roles.active, Some(0));
    assert!(matches!(roles.handle_input(&key(KeyCode::Right)), InputOutcome::Nothing));
    assert_eq!(roles.state.roles.active, Some(1));
    assert!(matches!(
        roles.handle_input(&key(KeyCode::Char(' '))),
        InputOutcome::Send(client_msg::RolesMsg::Select(Role::Rogue))
    ));
    let _ = roles.reduce(server_msg::RolesMsg::SelectedStatus(Ok(Role::Rogue)));
    assert_eq!(roles.state.roles.selected, Some(1));
    assert_eq!(events(&roles.chat), vec!["You select Rogue".to_string()]);
    let _ = roles.reduce(server_msg::RolesMsg::SelectedStatus(Err(SelectRoleError::Busy)));
    assert_eq!(roles.state.roles.selected, Some(1));
    let _ = roles.reduce(server_msg::RolesMsg::AvailableRoles([
        RoleStatus::Available(Role::Warrior),
        RoleStatus::NotAvailable(Role::Rogue),
        RoleStatus::NotAvailable(Role::Paladin),
        RoleStatus::Available(Role::Mage),
    ]));
    // the role under the cursor is the chosen one: no note
    assert!(matches!(roles.handle_input(&key(KeyCode::Char(' '))), InputOutcome::Nothing));
    assert_eq!(events(&roles.chat).len(), 1);
    assert!(matches!(roles.handle_input(&key(KeyCode::Right)), InputOutcome::Nothing));
    assert!(matches!(roles.handle_input(&key(KeyCode::Char(' '))), InputOutcome::Nothing));
    assert_eq!(events(&roles.chat)[1], "This role is not available");
    assert!(matches!(roles.handle_input(&key(KeyCode::Left)), InputOutcome::Nothing));
    assert!(matches!(roles.handle_input(&key(KeyCode::Left)), InputOutcome::Nothing));
    assert!(matches!(roles.handle_input(&key(KeyCode::Left)), InputOutcome::Nothing));
    assert_eq!(roles.state.roles.active, Some(3));
    assert!(matches!(
        roles.handle_input(&key(KeyCode::Enter)),
        InputOutcome::Send(client_msg::RolesMsg::StartGame)
    ));
    match roles.reduce(server_msg::RolesMsg::StartGame(start())) {
        Reply::Done(s) => assert_eq!(s, start()),
        other => panic!("{:?}", other),
    }
    assert_eq!(events(&roles.chat)[2], "Start Game!");
    let game = Context::<Game>::from_roles(roles, start());
    assert_eq!(game.state.health, START_HEALTH);
    assert_eq!(game.state.phase, TurnStatus::Wait);
}

#[test]
fn game_turns_and_moves() {
    let roles = Context::<Roles> { username: name("Ann"), chat: Chat::default(), state: Roles::default() };
    let mut ctx = Context::<Game>::from_roles(roles, start());
    ctx.reduce(server_msg::GameMsg::Turn(TurnStatus::Ready(GamePhaseKind::DropAbility)));
    assert_eq!(events(&ctx.chat), vec!["Your Turn! You can drop any ability".to_string()]);
    assert!(matches!(
        ctx.handle_input(&key(KeyCode::Char(' '))),
        InputOutcome::Send(client_msg::GameMsg::DropAbility(Rank::Ace))
    ));
    assert!(matches!(ctx.handle_input(&key(KeyCode::Right)), InputOutcome::Nothing));
    assert_eq!(ctx.state.abilities.active, Some(2));
    assert!(matches!(ctx.handle_input(&key(KeyCode::Right)), InputOutcome::Nothing));
    assert_eq!(ctx.state.abilities.active, Some(0));
    assert!(matches!(ctx.handle_input(&key(KeyCode::Left)), InputOutcome::Nothing));
    assert_eq!(ctx.state.abilities.active, Some(2));
    ctx.reduce(server_msg::GameMsg::DropAbility(Ok(Rank::Ten)));
    assert_eq!(events(&ctx.chat)[1], "You discard Ten");
    ctx.reduce(server_msg::GameMsg::SelectAbility(Err(name("Bob"))));
    assert_eq!(events(&ctx.chat)[2], "It's not you turn now. Bob should make a turn");
    ctx.reduce(server_msg::GameMsg::SelectAbility(Ok(Rank::Ten)));
    assert_eq!(ctx.state.abilities.selected, Some(2));
    ctx.reduce(server_msg::GameMsg::Turn(TurnStatus::Ready(GamePhaseKind::AttachMonster)));
    assert!(matches!(
        ctx.handle_input(&key(KeyCode::Char(' '))),
        InputOutcome::Send(client_msg::GameMsg::Attack(c)) if c == Card::new(Rank::King, Suit::Hearts)
    ));
    ctx.reduce(server_msg::GameMsg::Attack(Ok(Card::new(Rank::King, Suit::Hearts))));
    assert_eq!(
        events(&ctx.chat).last().unwrap(),
        "You attack Card { rank: King, suit: Hearts }"
    );
    assert_eq!(ctx.state.abilities.selected, None);
    ctx.reduce(server_msg::GameMsg::Defend(Some(Card::new(Rank::Six, Suit::Clubs))));
    assert_eq!(ctx.state.attack_monster, Some(1));
    let n = events(&ctx.chat).len();
    assert_eq!(events(&ctx.chat)[n - 2], "A Card { rank: Six, suit: Clubs } Attack You!");
    assert_eq!(
        events(&ctx.chat)[n - 1],
        "You get damage from Some(Card { rank: Six, suit: Clubs })"
    );
    ctx.reduce(server_msg::GameMsg::Defend(None));
    assert_eq!(events(&ctx.chat).last().unwrap(), "You defend");
    ctx.reduce(server_msg::GameMsg::Turn(TurnStatus::Ready(GamePhaseKind::Defend)));
    assert!(matches!(
        ctx.handle_input(&key(KeyCode::Char(' '))),
        InputOutcome::Send(client_msg::GameMsg::Continue)
    ));
    ctx.reduce(server_msg::GameMsg::UpdateGameData(
        [None, Some(Card::new(Rank::Six, Suit::Clubs))],
        [Some(Rank::Seven), Some(Rank::Eight), None],
    ));
    assert_eq!(ctx.state.abilities.items, vec![Some(Rank::Seven), Some(Rank::Eight), None]);
    ctx.reduce(server_msg::GameMsg::Turn(TurnStatus::Wait));
    let lines = ctx.chat.messages.len();
    assert!(matches!(ctx.handle_input(&key(KeyCode::Char(' '))), InputOutcome::Nothing));
    assert!(matches!(ctx.handle_input(&key(KeyCode::Right)), InputOutcome::Nothing));
    assert_eq!(ctx.chat.input_mode, InputMode::Normal);
    assert_eq!(ctx.chat.scroll, 0);
    assert_eq!(ctx.chat.messages.len(), lines);
    assert!(matches!(ctx.handle_input(&key(KeyCode::Char('e'))), InputOutcome::Nothing));
    assert_eq!(ctx.chat.input_mode, InputMode::Editing);
}

#[test]
fn chat_takes_shared_messages() {
    let mut chat = Chat::default();
    assert!(chat.on_shared(server_msg::SharedMsg::Pong));
    assert!(chat.on_shared(server_msg::SharedMsg::Chat(ChatLine::Text("a".to_string()))));
    assert_eq!(chat.messages.len(), 1);
    assert!(chat.on_shared(server_msg::SharedMsg::ChatLog(vec![
        ChatLine::Text("x".to_string()),
        ChatLine::Disconnection(name("Bob")),
    ])));
    assert_eq!(chat.messages.len(), 2);
    assert!(!chat.on_shared(server_msg::SharedMsg::Logout));
}

#[test]
fn stateful_lists_move_around() {
    let mut roles = StatefulList::with_items(vec![
        RoleStatus::Available(Role::Warrior),
        RoleStatus::Available(Role::Rogue),
    ]);
    roles.prev();
    assert_eq!(roles.active, Some(1));
    roles.next();
    assert_eq!(roles.active, Some(0));
    assert_eq!(roles.active(), Some(RoleStatus::Available(Role::Warrior)));
    assert_eq!(roles.selected(), None);

    let mut places = StatefulList::with_items(vec![Some(1u8), None, None, Some(4u8)]);
    places.next();
    assert_eq!(places.active, Some(3));
    places.next();
    assert_eq!(places.active, Some(0));
    places.prev();
    assert_eq!(places.active, Some(3));
    assert_eq!(places.active(), Some(4));
    let mut empty: StatefulList<Option<u8>> = StatefulList::with_items(vec![None, None]);
    empty.next();
    assert_eq!(empty.active, None);
}

#[test]
fn names_of_keys_and_commands() {
    let q = KeyEvent::new(KeyCode::Char('q'), KeyModifiers::Control);
    assert_eq!(display_key(&q), "ctrl-q");
    assert_eq!(display_key(&KeyEvent::new(KeyCode::Char(' '), KeyModifiers::Plain)), "space");
    assert_eq!(display_key(&KeyEvent::new(KeyCode::Enter, KeyModifiers::Plain)), "enter");
    assert_eq!(display_key(&KeyEvent::new(KeyCode::F(12), KeyModifiers::Plain)), "12");
    assert_eq!(display_key(&KeyEvent::new(KeyCode::Left, KeyModifiers::Plain)), "\u{2190}");
    assert_eq!(action_label(&q, main_cmd_name(MainCmd::Quit)), "[ctrl-q]Quit ");
    assert_eq!(action_label(&q, main_cmd_name(MainCmd::NoOp)), "");
    assert_eq!(home_cmd_name(HomeCmd::EnterChat), Ok("EnterChat"));
    assert_eq!(roles_cmd_name(RolesCmd::ConfirmRole), Ok("ConfirmRole"));
    assert_eq!(chat_cmd_name(ChatCmd::NoOp), Err(()));
    assert_eq!(
        DisplayGameAction(GameCmd::ConfirmSelected, TurnStatus::Ready(GamePhaseKind::AttachMonster))
            .name(),
        Ok("Attack")
    );
    assert_eq!(DisplayGameAction(GameCmd::SelectNext, TurnStatus::Wait).name(), Err(()));
    assert_eq!(
        DisplayGameAction(GameCmd::SelectPrev, TurnStatus::Ready(GamePhaseKind::Defend)).name(),
        Err(())
    );
    assert_eq!(
        DisplayGameAction(GameCmd::ConfirmSelected, TurnStatus::Ready(GamePhaseKind::Defend))
            .name(),
        Ok("Continue")
    );
}

#[test]
fn hud_and_card_signs() {
    let hud = Hud::new("Ann".to_string(), (30, 36));
    assert_eq!(hud.username, "Ann");
    assert_eq!(hud.health, (30, 36));
    let p = SignPosition::new(VerticalPosition::Bottom, HorizontalPosition::Right);
    assert_eq!(p.v.index(), 3);
    assert_eq!(p.h.index(), 3);
    assert_eq!(VerticalPosition::Top.index(), 1);
    assert_eq!(HorizontalPosition::Left.index(), 1);
}

#[test]
fn chat_lines_read_by_kind() {
    assert_eq!(
        chat_line_view(&ChatLine::Disconnection(name("Bob"))),
        ("Bob has left the game".to_string(), Tint::Red)
    );
    assert_eq!(
        chat_line_view(&ChatLine::Connection(name("Bob"))),
        ("Bob join to the game".to_string(), Tint::Green)
    );
    assert_eq!(
        chat_line_view(&ChatLine::Reconnection(name("Bob"))),
        ("Bob reconnected".to_string(), Tint::Green)
    );
    assert_eq!(chat_line_view(&ChatLine::Text("hi".to_string())), ("hi".to_string(), Tint::White));
    assert_eq!(
        chat_line_view(&ChatLine::GameEvent("go".to_string())),
        ("go".to_string(), Tint::LightYellow)
    );
}

#[test]
fn role_panel_shows_the_role_under_the_cursor() {
    let mut roles = StatefulList::with_items(vec![
        RoleStatus::Available(Role::Warrior),
        RoleStatus::NotAvailable(Role::Rogue),
    ]);
    let (title, text, tint) = role_panel(&roles);
    assert_eq!(title, "Select Role - Available(Warrior)");
    assert_eq!(text, Role::Warrior.description());
    assert_eq!(tint, Tint::White);
    roles.next();
    let (title, _, tint) = role_panel(&roles);
    assert_eq!(title, "Select Role - NotAvailable(Rogue)");
    assert_eq!(tint, Tint::DarkGray);
    roles.selected = Some(1);
    assert_eq!(role_panel(&roles).2, Tint::Cyan);
}

#[test]
fn card_colors_and_places() {
    let attack = TurnStatus::Ready(GamePhaseKind::AttachMonster);
    let defend = TurnStatus::Ready(GamePhaseKind::Defend);
    let drop = TurnStatus::Ready(GamePhaseKind::DropAbility);
    assert_eq!(monster_color(Some(1), Some(0), attack, 1), Tint::Red);
    assert_eq!(monster_color(None, Some(0), attack, 0), Tint::White);
    assert_eq!(monster_color(None, Some(0), attack, 1), Tint::DarkGray);
    assert_eq!(monster_color(Some(1), None, drop, 1), Tint::White);
    assert_eq!(monster_color(Some(1), Some(0), TurnStatus::Wait, 1), Tint::Cyan);
    assert_eq!(ability_color(Some(2), None, TurnStatus::Wait, 2), Tint::Cyan);
    assert_eq!(ability_color(None, Some(2), drop, 2), Tint::White);
    assert_eq!(ability_color(None, Some(1), drop, 2), Tint::DarkGray);
    assert_eq!(ability_color(None, Some(2), attack, 2), Tint::DarkGray);
    let k = Card::new(Rank::King, Suit::Hearts);
    let s6 = Card::new(Rank::Six, Suit::Clubs);
    let items = vec![Some(k), Some(s6)];
    assert!(monster_shown(drop, None, &items, k));
    assert!(!monster_shown(defend, Some(0), &items, k));
    assert!(monster_shown(defend, Some(0), &items, s6));
    assert!(!monster_shown(TurnStatus::Wait, None, &items, s6));
    assert_eq!(attacking_monster(defend, Some(1)), Some(1));
    assert_eq!(attacking_monster(attack, Some(1)), None);
    assert_eq!(centered_padding(40, 31), 4);
    assert_eq!(centered_padding(20, 31), 0);
    let hud = Hud::new("Ann".to_string(), (250, 36));
    assert_eq!(hud.percent(), 72);
    assert_eq!(hud.label(), "\u{1f90d} 250/36");
}

#[test]
fn game_checks_what_it_can_take() {
    let roles = Context::<Roles> { username: name("Ann"), chat: Chat::default(), state: Roles::default() };
    let mut ctx = Context::<Game>::from_roles(roles, start());
    assert!(ctx.can_take(&server_msg::GameMsg::SelectAbility(Ok(Rank::Ten))));
    assert!(!ctx.can_take(&server_msg::GameMsg::SelectAbility(Ok(Rank::King))));
    assert!(ctx.can_take(&server_msg::GameMsg::Attack(Ok(Card::new(Rank::Six, Suit::Clubs)))));
    assert!(!ctx.can_take(&server_msg::GameMsg::Defend(Some(Card::new(Rank::Ace, Suit::Clubs)))));
    assert!(ctx.can_take(&server_msg::GameMsg::Turn(TurnStatus::Wait)));
    ctx.reduce(server_msg::GameMsg::Turn(TurnStatus::Ready(GamePhaseKind::DropAbility)));
    assert!(ctx.can_handle(&key(KeyCode::Char(' '))));
    ctx.state.abilities.active = Some(1);
    assert!(!ctx.can_handle(&key(KeyCode::Char(' '))));
    assert!(ctx.can_handle(&key(KeyCode::Right)));
    ctx.state.abilities.active = None;
    assert!(!ctx.can_handle(&key(KeyCode::Right)));
    assert!(ctx.can_handle(&Event::Other));

    let home = Context::<Home> { username: name("Bob"), chat: Chat::default(), state: Home {} };
    let roles = Context::<Roles>::from_home(home, Some(Role::Paladin));
    assert_eq!(roles.state.roles.selected, Some(2));
    assert!(roles.can_take(&server_msg::RolesMsg::SelectedStatus(Ok(Role::Mage))));
}

#[test]
fn control_q_quits_from_every_stage() {
    let q = Event::Key(KeyEvent::new(KeyCode::Char('q'), KeyModifiers::Control));
    let mut intro = Context::<Intro>::new(name("Ann"));
    assert!(matches!(intro.handle_input(&q), InputOutcome::Quit));
    let mut home = Context::<Home> { username: name("Ann"), chat: Chat::default(), state: Home {} };
    assert!(matches!(home.handle_input(&q), InputOutcome::Quit));
    let mut roles = Context::<Roles> { username: name("Ann"), chat: Chat::default(), state: Roles::default() };
    assert!(matches!(roles.handle_input(&q), InputOutcome::Quit));
    let roles = Context::<Roles> { username: name("Ann"), chat: Chat::default(), state: Roles::default() };
    let mut game = Context::<Game>::from_roles(roles, start());
    assert!(game.can_handle(&q));
    assert!(matches!(game.handle_input(&q), InputOutcome::Quit));
}
