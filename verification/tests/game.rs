use kobuleti::game::{
    assemble_monster_deck, AbilityDeck, Card, Deck, Deckable, HealthDeck, MonsterDeck, Rank,
    Role, Suit, DECK_SIZE,
};

#[test]
fn create_deck() {
    let deck = Deck::new_monster_deck();
    deck.cards.iter().enumerate().for_each(|(i, m)| println!("{i}: {:?}", m));
}

fn is_face(r: Rank) -> bool {
    matches!(r, Rank::Jack | Rank::Queen | Rank::King)
}

#[test]
fn monster_deck_has_bosses_every_third_card() {
    let deck = Deck::new_monster_deck();
    assert_eq!(deck.cards.len(), DECK_SIZE);
    for (i, card) in deck.cards.iter().enumerate() {
        if i % 3 == 0 {
            let expected = match (i / 3) % 3 {
                0 => Rank::King,
                1 => Rank::Queen,
                _ => Rank::Jack,
            };
            assert_eq!(card.rank, expected, "card {i}");
        } else {
            assert!(!is_face(card.rank), "card {i} is {:?}", card);
        }
    }
    for i in 0..deck.cards.len() {
        for j in (i + 1)..deck.cards.len() {
            assert_ne!(deck.cards[i], deck.cards[j]);
        }
    }
    for card in Deck::new_ordered().cards.iter() {
        assert!(deck.cards.contains(card));
    }
}

#[test]
fn ordered_deck_is_rank_major() {
    let deck = Deck::new_ordered();
    assert_eq!(deck.cards.len(), 36);
    assert_eq!(deck.cards[0], Card::new(Rank::Ace, Suit::Hearts));
    assert_eq!(deck.cards[1], Card::new(Rank::Ace, Suit::Diamonds));
    assert_eq!(deck.cards[4], Card::new(Rank::Six, Suit::Hearts));
    assert_eq!(deck.cards[35], Card::new(Rank::King, Suit::Spades));
}

#[test]
fn shuffled_deck_keeps_its_cards() {
    let mut deck = Deck::default();
    let before = Deck::new_ordered().cards;
    deck.shuffle();
    assert_eq!(deck.cards.len(), before.len());
    for c in before.iter() {
        assert_eq!(deck.cards.iter().filter(|d| *d == c).count(), 1);
    }
    let mut ab = AbilityDeck::new(Suit::Clubs);
    ab.shuffle();
    assert_eq!(ab.ranks.len(), 9);
    assert_eq!(ab.suit, Suit::Clubs);
    for r in Rank::all().iter() {
        assert!(ab.ranks.contains(r));
    }
    let mut hd = HealthDeck::default();
    hd.shuffle();
    assert_eq!(hd.ranks.len(), 9);
}

#[test]
fn empty_decks() {
    assert!(Deck::empty().cards.is_empty());
    assert!(AbilityDeck::empty(Suit::Spades).ranks.is_empty());
    assert!(HealthDeck::empty().ranks.is_empty());
}

#[test]
fn assembled_deck_follows_the_layout() {
    let row = |r: Rank| -> Vec<Card> { Suit::all().iter().map(|s| Card::new(r, *s)).collect() };
    let kings = row(Rank::King);
    let queens = row(Rank::Queen);
    let jacks = row(Rank::Jack);
    let others: Vec<Card> = Deck::new_ordered().cards[..24].to_vec();
    let d = assemble_monster_deck(&kings, &queens, &jacks, &others);
    assert_eq!(d.cards.len(), 36);
    assert_eq!(d.cards[0], kings[0]);
    assert_eq!(d.cards[1], others[0]);
    assert_eq!(d.cards[2], others[1]);
    assert_eq!(d.cards[3], queens[1]);
    assert_eq!(d.cards[6], jacks[2]);
    assert_eq!(d.cards[9], kings[3]);
    assert_eq!(d.cards[12], queens[0]);
    assert_eq!(d.cards[35], others[23]);
}

#[test]
fn rank_values_and_labels() {
    assert_eq!(Rank::Ace.value(), 0);
    assert_eq!(Rank::Six.value(), 5);
    assert_eq!(Rank::Ten.value(), 9);
    assert_eq!(Rank::Jack.value(), 10);
    assert_eq!(Rank::Queen.value(), 11);
    assert_eq!(Rank::King.value(), 12);
    assert_eq!(Rank::Ace.label(), "A");
    assert_eq!(Rank::Ten.label(), "10");
    assert_eq!(Rank::King.label(), "K");
    assert_eq!(Rank::count(), 9);
    assert_eq!(Rank::all()[0], Rank::Ace);
    assert_eq!(Rank::all()[8], Rank::King);
}

#[test]
fn suits_and_roles() {
    assert_eq!(Suit::from_role(Role::Warrior), Suit::Hearts);
    assert_eq!(Suit::from_role(Role::Rogue), Suit::Diamonds);
    assert_eq!(Suit::from_role(Role::Paladin), Suit::Clubs);
    assert_eq!(Suit::from_role(Role::Mage), Suit::Spades);
    assert_eq!(Suit::Hearts.symbol(), '\u{2661}');
    assert_eq!(Suit::Spades.symbol(), '\u{2664}');
    assert_eq!(Role::count(), 4);
    assert_eq!(Role::all(), [Role::Warrior, Role::Rogue, Role::Paladin, Role::Mage]);
    assert_eq!(Role::Mage.name(), "Mage");
    assert!(!Role::Warrior.description().is_empty());
    assert_ne!(Role::Warrior.description(), Role::Mage.description());
}
