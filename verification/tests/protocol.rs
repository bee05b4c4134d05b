use kobuleti::protocol::{
    username_parser, GameContext, GameContextKind, GamePhaseKind, MessageDecoder, TurnStatus,
    Username, UsernameError, USERNAME_MAX_LEN,
};

#[test]
fn usernames_hold_two_to_twenty_bytes() {
    assert_eq!(username_parser("a").unwrap_err(), UsernameError(1));
    assert_eq!(username_parser("").unwrap_err(), UsernameError(0));
    assert_eq!(username_parser("ab").unwrap().0, "ab");
    let twenty = "x".repeat(USERNAME_MAX_LEN);
    assert_eq!(username_parser(&twenty).unwrap().0, twenty);
    let long = "x".repeat(21);
    assert_eq!(username_parser(&long).unwrap_err(), UsernameError(21));
    // bytes, not characters, are counted
    assert_eq!(username_parser("\u{e9}").unwrap().0, "\u{e9}");
    let wide = "\u{e9}".repeat(11);
    assert_eq!(username_parser(&wide).unwrap_err(), UsernameError(22));
}

#[test]
fn username_new_and_compare() {
    assert_eq!(Username::new("z".to_string()).unwrap_err(), UsernameError(1));
    let a = Username::new("Ann".to_string()).unwrap();
    let b = a.clone();
    assert!(a.same_as(&b));
    assert_eq!(a.as_str(), "Ann");
    assert!(!a.same_as(&Username::default()));
    assert_eq!(Username::default().as_str(), "");
}

#[test]
fn turn_status_and_contexts() {
    let ready = TurnStatus::Ready(GamePhaseKind::Defend);
    assert!(ready.is_ready_and(|p| p == GamePhaseKind::Defend));
    assert!(!ready.is_ready_and(|p| p == GamePhaseKind::DropAbility));
    assert!(!TurnStatus::Wait.is_ready_and(|_| true));
    assert_eq!(GamePhaseKind::default(), GamePhaseKind::DropAbility);
    let c: GameContext<(), u8, (), ()> = GameContext::Home(3);
    assert_eq!(c.kind(), GameContextKind::Home);
    let g: GameContext<(), (), (), u8> = GameContext::Game(1);
    assert_eq!(g.kind(), GameContextKind::Game);
    let d = MessageDecoder::new(vec![1u8, 2]);
    assert_eq!(d.stream, vec![1u8, 2]);
}
