use kobuleti::game::{Card, Deck, Rank, Role, Suit};
use kobuleti::protocol::server::{ChatLine, LoginStatus, PlayerId, SelectRoleError};
use kobuleti::protocol::{GameContextKind, GamePhaseKind, RoleStatus, TurnStatus, Username};
use kobuleti::server::details::{ActiveState, DeactivateItemError, Stateble};
use kobuleti::server::peer::{
    self, attack_and_pass, chat_line, continue_and_pass, drop_and_pass, select_and_pass, GameAction,
    GameCmdError, Peer,
};
use kobuleti::server::states::{
    are_all_have_roles, collect_roles, find_by_name, is_logged_in, role_selected_event,
    route_entry, set_role_for_peer, find_last_by_name, play_move, start_roles, EntryRoute, GameServer, IntroServer, PeerNotFound, PeerSlot, PeerStatus,
    PeersCapacityError, RolePeer, Room,
};

fn player(port: u16) -> PlayerId {
    PlayerId { v6: false, ip: 0x7f00_0001, port }
}

fn name(s: &str) -> Username {
    Username(s.to_string())
}

#[test]
fn should_repeat_after_eof() {
    let mut st = Stateble::<Card, 3>::with_items(Deck::default().card_vec());
    for _ in 0..36 {
        for i in 0..3 {
            let index = st.actives[i].unwrap_index();
            let _ = st.deactivate_item_by_index(index);
        }
        if let Err(e) = st.next_actives() {
            st.repeat_after_eof(e);
        }
        assert!(st.active_items().iter().all(|i| i.is_some()));
    }
}

#[test]
fn stateble_starts_on_the_first_items() {
    let st = Stateble::<Rank, 3>::with_items(Rank::all().to_vec());
    assert_eq!(
        st.actives,
        vec![ActiveState::Enable(0), ActiveState::Enable(1), ActiveState::Enable(2)]
    );
    assert_eq!(st.active_items(), vec![Some(Rank::Ace), Some(Rank::Six), Some(Rank::Seven)]);
    assert_eq!(ActiveState::Disable(7).unwrap_index(), 7);
    assert_eq!(ActiveState::Enable(4).unwrap_index(), 4);
}

#[test]
fn stateble_deactivates_and_advances() {
    let mut st = Stateble::<Rank, 3>::with_items(Rank::all().to_vec());
    assert_eq!(st.deactivate_item(&Rank::Six), Ok(()));
    assert_eq!(st.actives[1], ActiveState::Disable(1));
    assert_eq!(st.active_items(), vec![Some(Rank::Ace), None, Some(Rank::Seven)]);
    // an item that was dropped is no longer active
    assert_eq!(st.deactivate_item(&Rank::Six), Err(DeactivateItemError::AlreadyNotActive));
    assert_eq!(st.actives[1], ActiveState::Disable(1));
    assert_eq!(st.deactivate_item(&Rank::King), Err(DeactivateItemError::AlreadyNotActive));
    assert_eq!(st.deactivate_item_by_index(8), Err(DeactivateItemError::AlreadyNotActive));
    assert!(st.next_actives().is_ok());
    assert_eq!(st.actives[1], ActiveState::Enable(4));
    assert_eq!(st.active_items(), vec![Some(Rank::Ace), Some(Rank::Nine), Some(Rank::Seven)]);
    st.reset();
    assert_eq!(st.active_items(), vec![Some(Rank::Ace), Some(Rank::Six), Some(Rank::Seven)]);

    let mut cards = Stateble::<Card, 2>::with_items(vec![
        Card::new(Rank::Ace, Suit::Hearts),
        Card::new(Rank::Six, Suit::Hearts),
    ]);
    assert_eq!(
        cards.deactivate_item(&Card::new(Rank::King, Suit::Spades)),
        Err(DeactivateItemError::NotFound)
    );
}

#[test]
fn stateble_stops_at_the_end_of_items() {
    let mut st = Stateble::<Rank, 3>::with_items(Rank::all().to_vec());
    for _ in 0..2 {
        for i in 0..3 {
            let index = st.actives[i].unwrap_index();
            assert!(st.deactivate_item_by_index(index).is_ok());
        }
        assert!(st.next_actives().is_ok());
    }
    assert_eq!(st.active_items(), vec![Some(Rank::Jack), Some(Rank::Queen), Some(Rank::King)]);
    let index = st.actives[0].unwrap_index();
    assert!(st.deactivate_item_by_index(index).is_ok());
    let eof = st.next_actives().unwrap_err();
    assert_eq!(st.actives[0], ActiveState::Disable(6));
    st.repeat_after_eof(eof);
    assert_eq!(st.active_items(), vec![Some(Rank::Ace), Some(Rank::Six), Some(Rank::Seven)]);
}

#[test]
fn room_holds_two_peers() {
    let mut room: Room<u8> = Room::new();
    assert_eq!(room.len(), 0);
    assert!(!room.is_full());
    assert_eq!(room.try_push(PeerSlot::new(player(1), 10)), Ok(()));
    assert_eq!(room.try_push(PeerSlot::new(player(2), 20)), Ok(()));
    assert!(room.is_full());
    assert_eq!(room.try_push(PeerSlot::new(player(3), 30)), Err(PeersCapacityError));
    assert_eq!(room.len(), 2);
    assert_eq!(room.position(player(2)), Some(1));
    assert_eq!(room.position(player(3)), None);
    assert_eq!(room.get_peer(player(1)).map(|p| p.peer), Ok(10));
    assert_eq!(room.get_peer(player(3)).map(|p| p.peer), Err(PeerNotFound(player(3))));
    assert_eq!(room.recipients(Some(player(1))), vec![1]);
    assert_eq!(room.recipients(None), vec![0, 1]);
    assert_eq!(room.drop_peer(player(1)), Ok(()));
    assert_eq!(room.len(), 1);
    assert_eq!(room.0[0].addr, player(2));
    assert_eq!(room.drop_peer(player(1)), Err(PeerNotFound(player(1))));
    assert!(room.swap_pop(5).is_none());
    room.shutdown();
    assert_eq!(room.len(), 0);
}

#[test]
fn room_of_a_started_stage_keeps_offline_peers() {
    let mut room: Room<(PeerStatus, u8)> = Room::new();
    let _ = room.try_push(PeerSlot::new(player(1), (PeerStatus::Online, 1)));
    let _ = room.try_push(PeerSlot::new(player(2), (PeerStatus::Online, 2)));
    assert!(room.is_peer_connected(player(1)));
    assert_eq!(room.set_offline(player(1)), Ok(()));
    assert!(!room.is_peer_connected(player(1)));
    assert_eq!(room.len(), 2);
    assert_eq!(room.online_recipients(None), vec![1]);
    assert_eq!(room.online_recipients(Some(player(2))), Vec::<usize>::new());
    assert_eq!(room.set_offline(player(9)), Err(PeerNotFound(player(9))));
    assert_eq!(room.reconnect_peer(player(1), player(5), 7), Ok(()));
    assert_eq!(room.0[0].addr, player(5));
    assert_eq!(room.0[0].peer, (PeerStatus::Online, 7));
    assert!(room.is_peer_connected(player(5)));
    assert_eq!(room.online_recipients(Some(player(2))), vec![0]);
    assert_eq!(room.reconnect_peer(player(1), player(6), 8), Err(PeerNotFound(player(1))));
}

fn two_cards_deck() -> Deck {
    Deck {
        cards: vec![
            Card::new(Rank::King, Suit::Hearts),
            Card::new(Rank::Ace, Suit::Hearts),
            Card::new(Rank::Queen, Suit::Clubs),
            Card::new(Rank::Six, Suit::Clubs),
        ]
        .into_iter()
        .collect(),
    }
}

#[test]
fn turn_round_of_two_players() {
    let mut g = GameServer::with_monsters(vec![player(1), player(2)], two_cards_deck());
    assert_eq!(g.phase, GamePhaseKind::DropAbility);
    assert_eq!(g.active_player(), player(1));
    let expected = [
        (GamePhaseKind::DropAbility, 2),
        (GamePhaseKind::SelectAbility, 1),
        (GamePhaseKind::AttachMonster, 1),
        (GamePhaseKind::SelectAbility, 2),
        (GamePhaseKind::AttachMonster, 2),
        (GamePhaseKind::Defend, 1),
        (GamePhaseKind::Defend, 2),
        (GamePhaseKind::DropAbility, 1),
    ];
    for (phase, port) in expected {
        let next = g.switch_to_next_player();
        assert_eq!(next, player(port));
        assert_eq!(g.phase, phase);
    }
}

#[test]
fn monsters_are_dealt_after_the_last_defence() {
    let mut g = GameServer::with_monsters(vec![player(1)], two_cards_deck());
    assert!(g.monsters.deactivate_item(&Card::new(Rank::King, Suit::Hearts)).is_ok());
    // drop, select, attack
    for _ in 0..3 {
        g.switch_to_next_player();
    }
    assert_eq!(g.phase, GamePhaseKind::Defend);
    assert_eq!(g.monsters.active_items(), vec![None, Some(Card::new(Rank::Ace, Suit::Hearts))]);
    g.switch_to_next_player();
    assert_eq!(g.phase, GamePhaseKind::DropAbility);
    assert_eq!(
        g.monsters.active_items(),
        vec![Some(Card::new(Rank::Queen, Suit::Clubs)), Some(Card::new(Rank::Ace, Suit::Hearts))]
    );
}

#[test]
fn new_game_deals_a_full_shuffled_deck() {
    let g = GameServer::new(vec![player(1), player(2)]);
    assert_eq!(g.monsters.items.len(), 36);
    assert_eq!(g.active_player(), player(1));
    assert_eq!(g.phase, GamePhaseKind::DropAbility);
    assert!(g.monsters.active_items().iter().all(|m| m.is_some()));
}

#[test]
fn roles_are_granted_once() {
    let mut peers = vec![
        RolePeer { addr: player(1), role: None },
        RolePeer { addr: player(2), role: None },
    ];
    assert!(!are_all_have_roles(&peers));
    assert_eq!(set_role_for_peer(&mut peers, player(1), Role::Mage), Ok(Role::Mage));
    assert_eq!(peers[0].role, Some(Role::Mage));
    assert_eq!(peers[1].role, None);
    assert_eq!(set_role_for_peer(&mut peers, player(2), Role::Mage), Err(SelectRoleError::Busy));
    assert_eq!(peers[1].role, None);
    assert_eq!(
        set_role_for_peer(&mut peers, player(1), Role::Mage),
        Err(SelectRoleError::AlreadySelected)
    );
    assert_eq!(
        collect_roles(&peers),
        [
            RoleStatus::Available(Role::Warrior),
            RoleStatus::Available(Role::Rogue),
            RoleStatus::Available(Role::Paladin),
            RoleStatus::NotAvailable(Role::Mage),
        ]
    );
    assert_eq!(set_role_for_peer(&mut peers, player(2), Role::Rogue), Ok(Role::Rogue));
    assert_eq!(peers[1].role, Some(Role::Rogue));
    assert!(are_all_have_roles(&peers));
    assert_eq!(RoleStatus::NotAvailable(Role::Rogue).role(), Role::Rogue);
}

#[test]
fn role_event_and_chat_lines() {
    match role_selected_event(&name("Ann"), Role::Paladin) {
        ChatLine::GameEvent(t) => assert_eq!(t, "Ann select Paladin"),
        other => panic!("{:?}", other),
    }
    match chat_line(&name("Bob"), "hello") {
        ChatLine::Text(t) => assert_eq!(t, "Bob: hello"),
        other => panic!("{:?}", other),
    }
    let peers = vec![(player(1), name("Ann")), (player(2), name("Bob")), (player(3), name("Bob"))];
    assert_eq!(find_by_name(&peers, &name("Bob")), Some(1));
    assert_eq!(find_by_name(&peers, &name("Eve")), None);
}

#[test]
fn login_rules() {
    let mut intro: IntroServer<Username, u8> = IntroServer::new();
    assert_eq!(intro.login_player(player(1), name("Ann"), None), LoginStatus::Logged);
    assert!(intro.is_peer_connected(player(1)));
    assert_eq!(intro.login_player(player(2), name("Ann"), None), LoginStatus::AlreadyLogged);
    assert!(!intro.is_peer_connected(player(2)));
    assert_eq!(
        intro.login_player(player(2), name("Bob"), Some((GameContextKind::Game, Some(player(7)), true))),
        LoginStatus::AlreadyLogged
    );
    assert_eq!(intro.login_player(player(3), name("Cid"), None), LoginStatus::Logged);
    assert_eq!(intro.login_player(player(4), name("Dan"), None), LoginStatus::PlayerLimit);
    assert_eq!(intro.peers.len(), 2);
    intro.game_server = Some(9);
    assert_eq!(intro.drop_peer(player(1)), None);
    assert_eq!(intro.drop_peer(player(3)), Some(9));
    assert!(intro.game_server.is_none());
    assert!(is_logged_in(GameContextKind::Home, Some(player(1)), false));
    assert!(!is_logged_in(GameContextKind::Roles, Some(player(1)), false));
    assert!(is_logged_in(GameContextKind::Game, Some(player(1)), true));
    assert!(!is_logged_in(GameContextKind::Game, None, true));
    intro.shutdown();
    assert_eq!(intro.peers.len(), 0);
}

#[test]
fn login_reconnects_a_player_who_left() {
    let mut intro: IntroServer<Username, u8> = IntroServer::new();
    let left_roles = Some((GameContextKind::Roles, Some(player(7)), false));
    assert_eq!(intro.login_player(player(1), name("Ann"), left_roles), LoginStatus::Reconnected);
    assert_eq!(intro.peers.0[0].peer.as_ref().map(|u| u.0.as_str()), Some("Ann"));
    assert_eq!(intro.peers.0[0].addr, player(1));
    let left_game = Some((GameContextKind::Game, Some(player(8)), false));
    assert_eq!(intro.login_player(player(2), name("Bob"), left_game), LoginStatus::Reconnected);
    let mut lobby: IntroServer<Username, u8> = IntroServer::new();
    let in_home = Some((GameContextKind::Home, Some(player(7)), false));
    assert_eq!(lobby.login_player(player(1), name("Ann"), in_home), LoginStatus::AlreadyLogged);
    let connected = Some((GameContextKind::Roles, Some(player(7)), true));
    assert_eq!(lobby.login_player(player(1), name("Ann"), connected), LoginStatus::AlreadyLogged);
    let other_name = Some((GameContextKind::Game, None, false));
    assert_eq!(lobby.login_player(player(1), name("Ann"), other_name), LoginStatus::Logged);
    assert_eq!(lobby.peers.len(), 1);
}

#[test]
fn last_player_of_a_name() {
    let peers = vec![(player(1), name("Ann")), (player(2), name("Bob")), (player(3), name("Bob"))];
    assert_eq!(find_last_by_name(&peers, &name("Bob")), Some(2));
    assert_eq!(find_last_by_name(&peers, &name("Ann")), Some(0));
    assert_eq!(find_last_by_name(&peers, &name("Eve")), None);
}

#[test]
fn the_room_grants_a_role_to_its_sender_only() {
    let slots = vec![
        PeerSlot::new(player(1), Peer::<peer::Roles>::vacant()),
        PeerSlot::new(player(2), Peer::<peer::Roles>::vacant()),
    ];
    let mut room = Room::all_online(slots);
    assert_eq!(room.select_role(player(2), Role::Mage), Ok(Role::Mage));
    assert_eq!(room.0[1].peer.1.get_role(), Some(Role::Mage));
    assert_eq!(room.0[0].peer.1.get_role(), None);
    assert_eq!(room.select_role(player(1), Role::Mage), Err(SelectRoleError::Busy));
    assert_eq!(room.0[0].peer.1.get_role(), None);
    assert_eq!(room.select_role(player(2), Role::Mage), Err(SelectRoleError::AlreadySelected));
    assert_eq!(room.select_role(player(2), Role::Rogue), Ok(Role::Rogue));
    assert_eq!(room.0[1].peer.1.get_role(), Some(Role::Rogue));
    assert_eq!(
        room.role_peers(),
        vec![
            RolePeer { addr: player(1), role: None },
            RolePeer { addr: player(2), role: Some(Role::Rogue) },
        ]
    );
    assert_eq!(room.select_role(player(1), Role::Mage), Ok(Role::Mage));
    assert!(are_all_have_roles(&room.role_peers()));
}

#[test]
fn peer_moves_through_the_stages() {
    let mut intro = peer::Intro::default();
    assert!(intro.username.is_none());
    intro.username = Some(name("Ann"));
    let home = Peer::<peer::Home>::from_intro(intro);
    assert_eq!(home.get_username().0, "Ann");
    let mut roles = Peer::<peer::Roles>::from_home(home);
    assert_eq!(roles.get_role(), None);
    roles.select_role(Role::Rogue);
    assert_eq!(roles.get_role(), Some(Role::Rogue));
    let game = Peer::<peer::Game>::from_roles(roles);
    assert_eq!(game.state.get_role(), Suit::Diamonds);
    assert_eq!(game.state.health, peer::START_HEALTH);
    assert!(game.state.get_abilities().iter().all(|a| a.is_some()));
}

#[test]
fn peer_game_moves() {
    let mut g = peer::Game {
        abilities: Stateble::with_items(Rank::all().to_vec()),
        suit: Suit::Clubs,
        selected_ability: None,
        health: 36,
    };
    assert_eq!(g.attack_ability(), Err(GameCmdError::AbilityNotSelected));
    assert_eq!(g.drop_ability(Rank::Six), Ok(()));
    assert_eq!(g.get_abilities(), [Some(Rank::Ace), None, Some(Rank::Seven)]);
    assert_eq!(
        g.drop_ability(Rank::Six),
        Err(GameCmdError::Deactivate(DeactivateItemError::AlreadyNotActive))
    );
    assert_eq!(
        g.drop_ability(Rank::King),
        Err(GameCmdError::Deactivate(DeactivateItemError::AlreadyNotActive))
    );
    assert_eq!(g.select_ability(Rank::Seven), Ok(()));
    assert_eq!(g.attack_ability(), Ok(2));
    g.continue_game();
    assert_eq!(g.get_abilities(), [Some(Rank::Ace), Some(Rank::Nine), Some(Rank::Seven)]);
    let monsters = [Some(Card::new(Rank::King, Suit::Spades)), None];
    let start = g.start_game_data(monsters);
    assert_eq!(start.role, Suit::Clubs);
    assert_eq!(start.monsters, monsters);
    assert_eq!(start.abilities, [Some(Rank::Ace), Some(Rank::Nine), Some(Rank::Seven)]);

    let mut short = peer::Game {
        abilities: Stateble::with_items(vec![Rank::Ace, Rank::Six, Rank::Seven]),
        suit: Suit::Hearts,
        selected_ability: None,
        health: 36,
    };
    assert_eq!(short.drop_ability(Rank::King), Err(GameCmdError::BadAbility(Rank::King)));
    assert_eq!(short.select_ability(Rank::King), Err(GameCmdError::AbilityNotExists(Rank::King)));
    let fresh = peer::Game::new(Suit::Spades);
    assert_eq!(fresh.abilities.items.len(), 9);
    assert_eq!(fresh.selected_ability, None);
}

#[test]
fn entry_routes_and_next_rooms() {
    assert_eq!(route_entry(None), EntryRoute::StartHome);
    assert_eq!(route_entry(Some(GameContextKind::Home)), EntryRoute::JoinHome);
    assert_eq!(route_entry(Some(GameContextKind::Roles)), EntryRoute::Reconnect);
    assert_eq!(route_entry(Some(GameContextKind::Game)), EntryRoute::Reconnect);
    let room: Room<(PeerStatus, u8)> =
        Room::all_online(vec![PeerSlot::new(player(1), 5), PeerSlot::new(player(2), 6)]);
    assert_eq!(room.len(), 2);
    assert_eq!(room.0[0].addr, player(1));
    assert_eq!(room.0[0].peer, (PeerStatus::Online, 5));
    assert_eq!(room.0[1].addr, player(2));
    assert_eq!(room.0[1].peer, (PeerStatus::Online, 6));
}

#[test]
fn reconnected_player_keeps_the_seat() {
    let mut g = GameServer::with_monsters(vec![player(1), player(2)], two_cards_deck());
    g.switch_to_next_player();
    assert_eq!(g.replace_player(player(2), player(7)), Ok(()));
    assert_eq!(g.active_player(), player(7));
    assert_eq!(g.players.items, vec![player(1), player(7)]);
    assert_eq!(g.replace_player(player(2), player(8)), Err(PeerNotFound(player(2))));
    assert_eq!(g.phase, GamePhaseKind::DropAbility);
}

#[test]
fn next_turn_tells_each_connected_peer() {
    let mut room = Room::all_online(vec![PeerSlot::new(player(1), 'a'), PeerSlot::new(player(2), 'b')]);
    let mut turns = GameServer::with_monsters(vec![player(1), player(2)], Deck::default());
    assert_eq!(
        turns.turn_notices(&room),
        vec![(0, TurnStatus::Ready(GamePhaseKind::DropAbility)), (1, TurnStatus::Wait)]
    );
    let (next, notices) = turns.next_turn(&room);
    assert_eq!(next, player(2));
    assert_eq!(notices, vec![(0, TurnStatus::Wait), (1, TurnStatus::Ready(GamePhaseKind::DropAbility))]);
    room.set_offline(player(1)).unwrap();
    let (next, notices) = turns.next_turn(&room);
    assert_eq!(next, player(1));
    assert_eq!(turns.phase, GamePhaseKind::SelectAbility);
    assert_eq!(notices, vec![(0, TurnStatus::Ready(GamePhaseKind::SelectAbility)), (1, TurnStatus::Wait)]);
    room.set_offline(player(2)).unwrap();
    let (next, notices) = turns.next_turn(&room);
    assert_eq!(next, player(1));
    assert_eq!(notices, vec![(0, TurnStatus::Ready(GamePhaseKind::AttachMonster))]);
}

#[test]
fn moves_pass_the_turn_once() {
    let mut turns = GameServer::with_monsters(vec![player(1), player(2)], Deck::default());
    let mut ann = peer::Game::new(Suit::Hearts);
    let mut bob = peer::Game::new(Suit::Spades);
    let ann_first = ann.get_abilities()[0].unwrap();
    assert_eq!(drop_and_pass(&mut ann, &mut turns, ann_first), Ok(player(2)));
    assert_eq!(ann.get_abilities()[0], None);
    assert_eq!(
        drop_and_pass(&mut ann, &mut turns, ann_first),
        Err(GameCmdError::Deactivate(DeactivateItemError::AlreadyNotActive))
    );
    assert_eq!(turns.active_player(), player(2));
    assert_eq!(turns.phase, GamePhaseKind::DropAbility);
    let bob_first = bob.get_abilities()[0].unwrap();
    assert_eq!(drop_and_pass(&mut bob, &mut turns, bob_first), Ok(player(1)));
    assert_eq!(turns.phase, GamePhaseKind::SelectAbility);

    let ann_second = ann.get_abilities()[1].unwrap();
    assert_eq!(select_and_pass(&mut ann, &mut turns, ann_second), Ok(player(1)));
    assert_eq!(turns.phase, GamePhaseKind::AttachMonster);
    let monster = turns.monsters.active_items()[0].unwrap();
    assert_eq!(attack_and_pass(&ann, &mut turns, monster), Ok(player(2)));
    assert_eq!(turns.monsters.active_items()[0], None);
    assert_eq!(turns.phase, GamePhaseKind::SelectAbility);
    assert_eq!(attack_and_pass(&bob, &mut turns, monster), Err(GameCmdError::AbilityNotSelected));
    let bob_second = bob.get_abilities()[1].unwrap();
    assert_eq!(select_and_pass(&mut bob, &mut turns, bob_second), Ok(player(2)));
    assert_eq!(
        attack_and_pass(&bob, &mut turns, monster),
        Err(GameCmdError::Deactivate(DeactivateItemError::AlreadyNotActive))
    );
    assert_eq!(turns.phase, GamePhaseKind::AttachMonster);
    let other = turns.monsters.active_items()[1].unwrap();
    assert_eq!(attack_and_pass(&bob, &mut turns, other), Ok(player(1)));
    assert_eq!(turns.phase, GamePhaseKind::Defend);
    assert!(turns.monsters.active_items().iter().all(|m| m.is_none()));

    assert_eq!(continue_and_pass(&mut ann, &mut turns), player(2));
    assert!(ann.get_abilities().iter().all(|a| a.is_some()));
    assert_eq!(continue_and_pass(&mut bob, &mut turns), player(1));
    assert_eq!(turns.phase, GamePhaseKind::DropAbility);
    assert!(turns.monsters.active_items().iter().all(|m| m.is_some()));
}

#[test]
fn refill_rounds_repeat_the_rows() {
    let mut st = Stateble::<Rank, 3>::with_items(Rank::all().to_vec());
    let rows = Rank::all().len() / 3;
    for round in 1..=7 {
        for i in 0..3 {
            let index = st.actives[i].unwrap_index();
            assert_eq!(st.deactivate_item_by_index(index), Ok(()));
        }
        if let Err(e) = st.next_actives() {
            st.repeat_after_eof(e);
        }
        let row = round % rows;
        assert_eq!(
            st.actives,
            vec![
                ActiveState::Enable(row * 3),
                ActiveState::Enable(row * 3 + 1),
                ActiveState::Enable(row * 3 + 2),
            ]
        );
    }
}

#[test]
fn the_game_starts_once_every_peer_has_a_role() {
    let slots = vec![
        PeerSlot::new(player(1), Peer::<peer::Roles>::vacant()),
        PeerSlot::new(player(2), Peer::<peer::Roles>::vacant()),
    ];
    let mut room = Room::all_online(slots);
    assert_eq!(room.select_role(player(1), Role::Mage), Ok(Role::Mage));
    let mut room = match room.start_game() {
        Err(room) => room,
        Ok(_) => panic!("a peer has no role"),
    };
    assert_eq!(room.len(), 2);
    room.set_offline(player(2)).unwrap();
    assert_eq!(room.select_role(player(2), Role::Rogue), Ok(Role::Rogue));
    let (turns, players) = match room.start_game() {
        Ok(started) => started,
        Err(_) => panic!("every peer has a role"),
    };
    assert_eq!(turns.players.items, vec![player(1), player(2)]);
    assert_eq!(turns.active_player(), player(1));
    assert_eq!(turns.phase, GamePhaseKind::DropAbility);
    assert_eq!(turns.monsters.items.len(), 36);
    assert_eq!(players.len(), 2);
    assert_eq!(players.0[0].addr, player(1));
    assert_eq!(players.0[1].addr, player(2));
    assert!(players.0.iter().all(|s| s.peer.0 == PeerStatus::Online));
    assert_eq!(players.0[0].peer.1.state.get_role(), Suit::from_role(Role::Mage));
    assert_eq!(players.0[1].peer.1.state.get_role(), Suit::from_role(Role::Rogue));
    assert_eq!(players.0[1].peer.1.state.health, peer::START_HEALTH);
}

#[test]
fn only_the_active_player_moves() {
    let mut turns = GameServer::with_monsters(vec![player(1), player(2)], Deck::default());
    let mut ann = Peer::<peer::Game>::vacant();
    ann.username = name("Ann");
    let mut bob = Peer::<peer::Game>::vacant();
    bob.username = name("Bob");
    let mut peers = Room::all_online(vec![PeerSlot::new(player(1), ann), PeerSlot::new(player(2), bob)]);
    let bob_first = peers.0[1].peer.1.state.get_abilities()[0].unwrap();
    match play_move(&mut turns, &mut peers, player(2), GameAction::Drop(bob_first)) {
        Err(active) => assert_eq!(active.as_str(), "Ann"),
        other => panic!("{:?}", other.is_ok()),
    }
    assert_eq!(turns.active_player(), player(1));
    assert!(peers.0[1].peer.1.state.get_abilities()[0].is_some());
    let ann_first = peers.0[0].peer.1.state.get_abilities()[0].unwrap();
    match play_move(&mut turns, &mut peers, player(1), GameAction::Drop(ann_first)) {
        Ok(Ok(next)) => assert_eq!(next, player(2)),
        _ => panic!("the active player moves"),
    }
    assert_eq!(peers.0[0].peer.1.state.get_abilities()[0], None);
    match play_move(&mut turns, &mut peers, player(2), GameAction::Attack(Card::new(Rank::Six, Suit::Clubs))) {
        Ok(Err(e)) => assert_eq!(e, GameCmdError::AbilityNotSelected),
        _ => panic!("no ability is selected"),
    }
    assert_eq!(turns.active_player(), player(2));
}

#[test]
fn roles_start_only_from_a_full_lobby() {
    let ann = Peer::<peer::Home>::from_intro(peer::Intro { username: Some(name("Ann")) });
    let mut lobby: Room<Peer<peer::Home>> = Room::new();
    lobby.try_push(PeerSlot::new(player(1), ann)).unwrap();
    let mut lobby = match start_roles(lobby) {
        Err(lobby) => lobby,
        Ok(_) => panic!("the lobby is not full"),
    };
    assert_eq!(lobby.len(), 1);
    let bob = Peer::<peer::Home>::from_intro(peer::Intro { username: Some(name("Bob")) });
    lobby.try_push(PeerSlot::new(player(2), bob)).unwrap();
    let roles = match start_roles(lobby) {
        Ok(roles) => roles,
        Err(_) => panic!("the lobby is full"),
    };
    assert_eq!(roles.len(), 2);
    assert_eq!(roles.0[0].addr, player(1));
    assert_eq!(roles.0[1].addr, player(2));
    assert_eq!(roles.0[1].peer.1.username.as_str(), "Bob");
    assert!(roles.0.iter().all(|s| s.peer.0 == PeerStatus::Online && s.peer.1.get_role().is_none()));
}

#[test]
fn a_left_player_logs_in_again_and_reconnects() {
    let mut ann = Peer::<peer::Roles>::vacant();
    ann.username = name("Ann");
    let mut bob = Peer::<peer::Roles>::vacant();
    bob.username = name("Bob");
    let mut room = Room::all_online(vec![PeerSlot::new(player(1), ann), PeerSlot::new(player(2), bob)]);
    assert_eq!(
        room.login_stage(GameContextKind::Roles, &name("Bob")),
        (GameContextKind::Roles, Some(player(2)), true)
    );
    room.set_offline(player(2)).unwrap();
    let stage = room.login_stage(GameContextKind::Roles, &name("Bob"));
    assert_eq!(stage, (GameContextKind::Roles, Some(player(2)), false));
    assert_eq!(room.login_stage(GameContextKind::Roles, &name("Eve")), (GameContextKind::Roles, None, false));
    let mut intro: IntroServer<Username, u8> = IntroServer::new();
    assert_eq!(intro.login_player(player(9), name("Bob"), Some(stage)), LoginStatus::Reconnected);
    assert_eq!(room.select_role(player(2), Role::Rogue), Ok(Role::Rogue));
    assert_eq!(room.rejoin(&name("Bob"), player(9)), Some(player(2)));
    assert_eq!(room.len(), 2);
    assert_eq!(room.0[1].addr, player(9));
    assert_eq!(room.0[1].peer.0, PeerStatus::Online);
    assert_eq!(room.0[1].peer.1.get_role(), Some(Role::Rogue));
    assert_eq!(room.0[1].peer.1.username.as_str(), "Bob");
    assert_eq!(room.rejoin(&name("Eve"), player(8)), None);
    assert_eq!(room.0[0].addr, player(1));
}
