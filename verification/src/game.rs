//! Cards, decks and roles of the game.
use rand::seq::SliceRandom;
use vstd::prelude::*;

verus! {

/// Number of cards in a full deck: nine ranks of four suits.
pub const DECK_SIZE: usize = 36;

/// A role that a player can take; each role plays with the cards of one suit.
#[derive(Debug, Clone, Copy, PartialEq, Eq, Structural)]
pub enum Role {
    Warrior,
    Rogue,
    Paladin,
    Mage,
}

/// All roles in their declaration order.
pub open spec fn all_roles() -> Seq<Role> {
    seq![Role::Warrior, Role::Rogue, Role::Paladin, Role::Mage]
}

/// The text that describes each role.
pub open spec fn role_description(r: Role) -> Seq<char> {
    match r {
        Role::Warrior => "A warrior fights in the front line and takes the hardest blows."@,
        Role::Rogue => "A rogue strikes from the shadows and avoids open battle."@,
        Role::Paladin => "A paladin protects the village and heals the wounded."@,
        Role::Mage => "A mage commands the old magic of the mountains."@,
    }
}

impl Role {
    /// Number of roles.
    pub fn count() -> (n: usize)
        ensures
            n == 4,
            n == all_roles().len(),
    {
        4
    }

    /// All roles in their declaration order.
    pub fn all() -> (roles: [Role; 4])
        ensures
            roles@ == all_roles(),
    {
        [Role::Warrior, Role::Rogue, Role::Paladin, Role::Mage]
    }

    /// A text that describes the role.
    pub fn description(&self) -> (text: &'static str)
        ensures
            text@ == role_description(*self),
    {
        match self {
            Role::Warrior => "A warrior fights in the front line and takes the hardest blows.",
            Role::Rogue => "A rogue strikes from the shadows and avoids open battle.",
            Role::Paladin => "A paladin protects the village and heals the wounded.",
            Role::Mage => "A mage commands the old magic of the mountains.",
        }
    }

    /// The variant's name.
    pub fn name(&self) -> (text: &'static str)
        ensures
            text@ == role_name(*self),
    {
        match self {
            Role::Warrior => "Warrior",
            Role::Rogue => "Rogue",
            Role::Paladin => "Paladin",
            Role::Mage => "Mage",
        }
    }
}

/// The variant's name of a role.
pub open spec fn role_name(r: Role) -> Seq<char> {
    match r {
        Role::Warrior => "Warrior"@,
        Role::Rogue => "Rogue"@,
        Role::Paladin => "Paladin"@,
        Role::Mage => "Mage"@,
    }
}

/// The rank of a card.
#[derive(Debug, Clone, Copy, PartialEq, Eq, Structural)]
pub enum Rank {
    Ace,
    Six,
    Seven,
    Eight,
    Nine,
    Ten,
    Jack,
    Queen,
    King,
}

/// All ranks in their declaration order.
pub open spec fn all_ranks() -> Seq<Rank> {
    seq![
        Rank::Ace,
        Rank::Six,
        Rank::Seven,
        Rank::Eight,
        Rank::Nine,
        Rank::Ten,
        Rank::Jack,
        Rank::Queen,
        Rank::King,
    ]
}

/// The number that a rank stands for: the ace is 0, a numeric card is its number less
/// one, and the jack, queen and king follow the ten.
pub open spec fn rank_value(r: Rank) -> u32 {
    match r {
        Rank::Ace => 0,
        Rank::Six => 5,
        Rank::Seven => 6,
        Rank::Eight => 7,
        Rank::Nine => 8,
        Rank::Ten => 9,
        Rank::Jack => 10,
        Rank::Queen => 11,
        Rank::King => 12,
    }
}

/// The face cards (jack, queen, king) are the bosses of the monster deck.
pub open spec fn is_face(r: Rank) -> bool {
    r == Rank::Jack || r == Rank::Queen || r == Rank::King
}

/// The short label of a rank as shown on a card.
pub open spec fn rank_label(r: Rank) -> Seq<char> {
    match r {
        Rank::Ace => "A"@,
        Rank::Six => "6"@,
        Rank::Seven => "7"@,
        Rank::Eight => "8"@,
        Rank::Nine => "9"@,
        Rank::Ten => "10"@,
        Rank::Jack => "J"@,
        Rank::Queen => "Q"@,
        Rank::King => "K"@,
    }
}

/// The variant's name of a rank.
pub open spec fn rank_name(r: Rank) -> Seq<char> {
    match r {
        Rank::Ace => "Ace"@,
        Rank::Six => "Six"@,
        Rank::Seven => "Seven"@,
        Rank::Eight => "Eight"@,
        Rank::Nine => "Nine"@,
        Rank::Ten => "Ten"@,
        Rank::Jack => "Jack"@,
        Rank::Queen => "Queen"@,
        Rank::King => "King"@,
    }
}

impl Rank {
    /// Number of ranks.
    pub fn count() -> (n: usize)
        ensures
            n == 9,
            n == all_ranks().len(),
    {
        9
    }

    /// All ranks in their declaration order.
    pub fn all() -> (ranks: [Rank; 9])
        ensures
            ranks@ == all_ranks(),
    {
        [
            Rank::Ace,
            Rank::Six,
            Rank::Seven,
            Rank::Eight,
            Rank::Nine,
            Rank::Ten,
            Rank::Jack,
            Rank::Queen,
            Rank::King,
        ]
    }

    /// The number that the rank stands for.
    pub fn value(&self) -> (v: u32)
        ensures
            v == rank_value(*self),
    {
        match self {
            Rank::Ace => 0,
            Rank::Six => 5,
            Rank::Seven => 6,
            Rank::Eight => 7,
            Rank::Nine => 8,
            Rank::Ten => 9,
            Rank::Jack => 10,
            Rank::Queen => 11,
            Rank::King => 12,
        }
    }

    /// The short label of the rank: "J", "Q", "K", "A", or the number of a numeric card.
    pub fn label(&self) -> (text: &'static str)
        ensures
            text@ == rank_label(*self),
    {
        match self {
            Rank::Ace => "A",
            Rank::Six => "6",
            Rank::Seven => "7",
            Rank::Eight => "8",
            Rank::Nine => "9",
            Rank::Ten => "10",
            Rank::Jack => "J",
            Rank::Queen => "Q",
            Rank::King => "K",
        }
    }

    /// The variant's name.
    pub fn name(&self) -> (text: &'static str)
        ensures
            text@ == rank_name(*self),
    {
        match self {
            Rank::Ace => "Ace",
            Rank::Six => "Six",
            Rank::Seven => "Seven",
            Rank::Eight => "Eight",
            Rank::Nine => "Nine",
            Rank::Ten => "Ten",
            Rank::Jack => "Jack",
            Rank::Queen => "Queen",
            Rank::King => "King",
        }
    }
}

/// The suit of a card.
#[derive(Debug, Clone, Copy, PartialEq, Eq, Structural)]
pub enum Suit {
    Hearts,
    Diamonds,
    Clubs,
    Spades,
}

/// All suits in their declaration order.
pub open spec fn all_suits() -> Seq<Suit> {
    seq![Suit::Hearts, Suit::Diamonds, Suit::Clubs, Suit::Spades]
}

/// The symbol of a suit as shown on a card.
pub open spec fn suit_symbol(s: Suit) -> char {
    match s {
        Suit::Hearts => '\u{2661}',
        Suit::Diamonds => '\u{2662}',
        Suit::Clubs => '\u{2667}',
        Suit::Spades => '\u{2664}',
    }
}

/// The variant's name of a suit.
pub open spec fn suit_name(s: Suit) -> Seq<char> {
    match s {
        Suit::Hearts => "Hearts"@,
        Suit::Diamonds => "Diamonds"@,
        Suit::Clubs => "Clubs"@,
        Suit::Spades => "Spades"@,
    }
}

/// The suit with which a role plays.
pub open spec fn role_suit(r: Role) -> Suit {
    match r {
        Role::Warrior => Suit::Hearts,
        Role::Rogue => Suit::Diamonds,
        Role::Paladin => Suit::Clubs,
        Role::Mage => Suit::Spades,
    }
}

impl Suit {
    /// Number of suits.
    pub fn count() -> (n: usize)
        ensures
            n == 4,
            n == all_suits().len(),
    {
        4
    }

    /// All suits in their declaration order.
    pub fn all() -> (suits: [Suit; 4])
        ensures
            suits@ == all_suits(),
    {
        [Suit::Hearts, Suit::Diamonds, Suit::Clubs, Suit::Spades]
    }

    /// The symbol of the suit.
    pub fn symbol(&self) -> (c: char)
        ensures
            c == suit_symbol(*self),
    {
        match self {
            Suit::Hearts => '\u{2661}',
            Suit::Diamonds => '\u{2662}',
            Suit::Clubs => '\u{2667}',
            Suit::Spades => '\u{2664}',
        }
    }

    /// The variant's name.
    pub fn name(&self) -> (text: &'static str)
        ensures
            text@ == suit_name(*self),
    {
        match self {
            Suit::Hearts => "Hearts",
            Suit::Diamonds => "Diamonds",
            Suit::Clubs => "Clubs",
            Suit::Spades => "Spades",
        }
    }

    /// The suit with which a role plays.
    pub fn from_role(role: Role) -> (s: Suit)
        ensures
            s == role_suit(role),
    {
        match role {
            Role::Warrior => Suit::Hearts,
            Role::Rogue => Suit::Diamonds,
            Role::Paladin => Suit::Clubs,
            Role::Mage => Suit::Spades,
        }
    }
}

/// A playing card.
#[derive(Debug, Clone, Copy, PartialEq, Eq, Structural)]
pub struct Card {
    pub rank: Rank,
    pub suit: Suit,
}

impl Card {
    /// A card of the given rank and suit.
    pub fn new(rank: Rank, suit: Suit) -> (c: Card)
        ensures
            c == (Card { rank, suit }),
    {
        Card { rank, suit }
    }
}

/// The card at position `i` of a deck in rank-major order: ranks in declaration order, and
/// within a rank the suits in declaration order.
pub open spec fn deck_card(i: int) -> Card {
    Card { rank: all_ranks()[i / 4], suit: all_suits()[i % 4] }
}

/// A full deck in rank-major order.
pub open spec fn full_deck() -> Seq<Card> {
    Seq::new(DECK_SIZE as nat, |i: int| deck_card(i))
}


/// Shuffles a vector in place with the thread-local generator of `rand`
/// (`SliceRandom::shuffle`, a Fisher-Yates shuffle made of swaps): the result holds the
/// same elements, in an order that depends on chance. Which order comes out is left
/// unsaid; `thread_rng` panics only if the system's source of randomness cannot seed it,
/// which no argument decides.
#[verifier::external_body]
fn shuffle_vec<T>(items: &mut Vec<T>)
    ensures
        final(items)@.len() == old(items)@.len(),
        final(items)@.to_multiset() == old(items)@.to_multiset(),
{
    items.shuffle(&mut rand::thread_rng());
}

/// Something whose cards can be put in a random order.
pub trait Deckable {
    fn shuffle(&mut self);
}

#[verifier::external_type_specification]
#[verifier::external_body]
#[verifier::reject_recursive_types(T)]
pub struct ExArrayVec<T, const CAP: usize>(arrayvec::ArrayVec<T, CAP>);

/// The cards that an `ArrayVec` of a full deck's capacity holds, in order.
pub uninterp spec fn deck_items(v: arrayvec::ArrayVec<Card, 36>) -> Seq<Card>;

/// The ranks that an `ArrayVec` of nine places holds, in order.
pub uninterp spec fn rank_items(v: arrayvec::ArrayVec<Rank, 9>) -> Seq<Rank>;

/// `ArrayVec::new` for cards: it holds nothing.
#[verifier::external_body]
fn empty_cards() -> (r: arrayvec::ArrayVec<Card, 36>)
    ensures
        deck_items(r) == Seq::<Card>::empty(),
{
    arrayvec::ArrayVec::new()
}

/// `ArrayVec::push` for cards: the card goes at the end. It panics on a full vector, so
/// the vector must have room.
#[verifier::external_body]
fn push_card(v: &mut arrayvec::ArrayVec<Card, 36>, c: Card)
    requires
        deck_items(*old(v)).len() < 36,
    ensures
        deck_items(*final(v)) == deck_items(*old(v)).push(c),
{
    v.push(c);
}

/// `ArrayVec::as_slice` for cards: the cards it holds, in order.
#[verifier::external_body]
fn cards_slice(v: &arrayvec::ArrayVec<Card, 36>) -> (r: &[Card])
    ensures
        r@ == deck_items(*v),
{
    v.as_slice()
}

/// `SliceRandom::shuffle` of `rand`, with the thread-local generator, on the cards of an
/// `ArrayVec` (a Fisher-Yates shuffle made of swaps): the same cards, in an order left to
/// chance. `thread_rng` panics only if the system's source of randomness cannot seed it,
/// which no argument decides.
#[verifier::external_body]
fn shuffle_cards(v: &mut arrayvec::ArrayVec<Card, 36>)
    ensures
        deck_items(*final(v)).len() == deck_items(*old(v)).len(),
        deck_items(*final(v)).to_multiset() == deck_items(*old(v)).to_multiset(),
{
    v.shuffle(&mut rand::thread_rng());
}

/// `ArrayVec::new` for ranks: it holds nothing.
#[verifier::external_body]
fn empty_ranks() -> (r: arrayvec::ArrayVec<Rank, 9>)
    ensures
        rank_items(r) == Seq::<Rank>::empty(),
{
    arrayvec::ArrayVec::new()
}

/// `ArrayVec`'s `From<[T; CAP]>` for ranks: the ranks of the array, in order.
#[verifier::external_body]
fn ranks_from_array(a: [Rank; 9]) -> (r: arrayvec::ArrayVec<Rank, 9>)
    ensures
        rank_items(r) == a@,
{
    arrayvec::ArrayVec::from(a)
}

/// `ArrayVec::as_slice` for ranks: the ranks it holds, in order.
#[verifier::external_body]
fn ranks_slice(v: &arrayvec::ArrayVec<Rank, 9>) -> (r: &[Rank])
    ensures
        r@ == rank_items(*v),
{
    v.as_slice()
}

/// `SliceRandom::shuffle` of `rand`, with the thread-local generator, on the ranks of an
/// `ArrayVec`: the same ranks, in an order left to chance; as for the cards, only a failed
/// seeding from the system panics.
#[verifier::external_body]
fn shuffle_ranks(v: &mut arrayvec::ArrayVec<Rank, 9>)
    ensures
        rank_items(*final(v)).len() == rank_items(*old(v)).len(),
        rank_items(*final(v)).to_multiset() == rank_items(*old(v)).to_multiset(),
{
    v.shuffle(&mut rand::thread_rng());
}

/// A deck of cards; it never holds more than a full deck.
#[derive(Debug)]
pub struct Deck {
    pub cards: arrayvec::ArrayVec<Card, 36>,
}

impl Deck {
    /// The cards of the deck, in order.
    pub open spec fn card_seq(&self) -> Seq<Card> {
        deck_items(self.cards)
    }

    /// A deck holds at most a full deck of cards.
    pub open spec fn wf(&self) -> bool {
        self.card_seq().len() <= DECK_SIZE
    }

    /// A deck with no cards.
    pub fn empty() -> (d: Deck)
        ensures
            d.card_seq() == Seq::<Card>::empty(),
            d.wf(),
    {
        Deck { cards: empty_cards() }
    }

    /// A full deck in rank-major order.
    pub fn new_ordered() -> (d: Deck)
        ensures
            d.card_seq() == full_deck(),
            d.wf(),
    {
        let ranks = Rank::all();
        let suits = Suit::all();
        let mut cards = empty_cards();
        let mut r: usize = 0;
        while r < 9
            invariant
                r <= 9,
                ranks@ == all_ranks(),
                suits@ == all_suits(),
                deck_items(cards) =~= full_deck().take(4 * r as int),
            decreases 9 - r,
        {
            let mut s: usize = 0;
            while s < 4
                invariant
                    r < 9,
                    s <= 4,
                    ranks@ == all_ranks(),
                    suits@ == all_suits(),
                    deck_items(cards) =~= full_deck().take(4 * r + s),
                decreases 4 - s,
            {
                push_card(&mut cards, Card { rank: ranks[r], suit: suits[s] });
                proof {
                    let i = 4 * r + s;
                    assert(i / 4 == r as int && i % 4 == s as int);
                    assert(full_deck().take(i + 1) =~= full_deck().take(i).push(deck_card(i)));
                }
                s = s + 1;
            }
            r = r + 1;
        }
        Deck { cards }
    }

    /// The cards of the deck as a vector, in order.
    pub fn card_vec(&self) -> (v: Vec<Card>)
        ensures
            v@ == self.card_seq(),
    {
        vstd::slice::slice_to_vec(cards_slice(&self.cards))
    }
}

impl Default for Deck {
    /// A full deck in rank-major order.
    fn default() -> (d: Deck)
        ensures
            d.card_seq() == full_deck(),
            d.wf(),
    {
        Deck::new_ordered()
    }
}

impl Deckable for Deck {
    /// Puts the cards in a random order.
    fn shuffle(&mut self)
        ensures
            final(self).card_seq().to_multiset() == old(self).card_seq().to_multiset(),
            final(self).card_seq().len() == old(self).card_seq().len(),
    {
        shuffle_cards(&mut self.cards);
    }
}

/// The ability cards of a player: ranks of the player's suit.
pub struct AbilityDeck {
    pub ranks: arrayvec::ArrayVec<Rank, 9>,
    pub suit: Suit,
}

impl AbilityDeck {
    /// The ranks of the deck, in order.
    pub open spec fn rank_seq(&self) -> Seq<Rank> {
        rank_items(self.ranks)
    }

    /// All ranks of a suit, in declaration order.
    pub fn new(suit: Suit) -> (d: AbilityDeck)
        ensures
            d.rank_seq() == all_ranks(),
            d.suit == suit,
    {
        AbilityDeck { ranks: ranks_from_array(Rank::all()), suit }
    }

    /// An ability deck of a suit with no ranks.
    pub fn empty(suit: Suit) -> (d: AbilityDeck)
        ensures
            d.rank_seq() == Seq::<Rank>::empty(),
            d.suit == suit,
    {
        AbilityDeck { ranks: empty_ranks(), suit }
    }

    /// The ranks of the deck as a vector, in order.
    pub fn rank_vec(&self) -> (v: Vec<Rank>)
        ensures
            v@ == self.rank_seq(),
    {
        vstd::slice::slice_to_vec(ranks_slice(&self.ranks))
    }
}

impl Deckable for AbilityDeck {
    /// Puts the ranks in a random order.
    fn shuffle(&mut self)
        ensures
            final(self).rank_seq().to_multiset() == old(self).rank_seq().to_multiset(),
            final(self).rank_seq().len() == old(self).rank_seq().len(),
            final(self).suit == old(self).suit,
    {
        shuffle_ranks(&mut self.ranks);
    }
}

/// The health cards of a player.
pub struct HealthDeck {
    pub ranks: arrayvec::ArrayVec<Rank, 9>,
}

impl HealthDeck {
    /// The ranks of the deck, in order.
    pub open spec fn rank_seq(&self) -> Seq<Rank> {
        rank_items(self.ranks)
    }

    /// A health deck with no ranks.
    pub fn empty() -> (d: HealthDeck)
        ensures
            d.rank_seq() == Seq::<Rank>::empty(),
    {
        HealthDeck { ranks: empty_ranks() }
    }
}

impl Default for HealthDeck {
    /// All ranks, in declaration order.
    fn default() -> (d: HealthDeck)
        ensures
            d.rank_seq() == all_ranks(),
    {
        HealthDeck { ranks: ranks_from_array(Rank::all()) }
    }
}

impl Deckable for HealthDeck {
    /// Puts the ranks in a random order.
    fn shuffle(&mut self)
        ensures
            final(self).rank_seq().to_multiset() == old(self).rank_seq().to_multiset(),
            final(self).rank_seq().len() == old(self).rank_seq().len(),
    {
        shuffle_ranks(&mut self.ranks);
    }
}


/// The rank of the bosses in a row of the monster deck: kings, then queens, then jacks.
pub open spec fn boss_rank(row: int) -> Rank {
    if row == 0 {
        Rank::King
    } else if row == 1 {
        Rank::Queen
    } else {
        Rank::Jack
    }
}

/// The four cards of one rank, in suit order.
pub open spec fn rank_row(rank: Rank) -> Seq<Card> {
    Seq::new(4, |j: int| Card { rank, suit: all_suits()[j] })
}

/// The numeric cards (ace to ten) in rank-major order: the first 24 cards of a full deck.
pub open spec fn numeric_cards() -> Seq<Card> {
    full_deck().take(24)
}

/// The order of a monster deck made of three shuffled rows of bosses and the shuffled
/// numeric cards: every third card, starting with the first, is a boss; the `k`-th boss
/// is taken from row `k % 3` (kings, queens, jacks) at column `k % 4`; the numeric cards
/// fill the other places in their order.
pub open spec fn monster_layout(
    kings: Seq<Card>,
    queens: Seq<Card>,
    jacks: Seq<Card>,
    others: Seq<Card>,
) -> Seq<Card> {
    Seq::new(
        DECK_SIZE as nat,
        |i: int|
            if i % 3 == 0 {
                let k = i / 3;
                if k % 3 == 0 {
                    kings[k % 4]
                } else if k % 3 == 1 {
                    queens[k % 4]
                } else {
                    jacks[k % 4]
                }
            } else {
                others[i - i / 3 - 1]
            },
    )
}

/// Lays out a monster deck from three rows of bosses (kings, queens, jacks) and the
/// numeric cards, as `monster_layout` describes.
pub fn assemble_monster_deck(
    kings: &Vec<Card>,
    queens: &Vec<Card>,
    jacks: &Vec<Card>,
    others: &Vec<Card>,
) -> (d: Deck)
    requires
        kings@.len() == 4,
        queens@.len() == 4,
        jacks@.len() == 4,
        others@.len() == 24,
    ensures
        d.card_seq() == monster_layout(kings@, queens@, jacks@, others@),
        d.wf(),
{
    let mut cards = empty_cards();
    let mut i: usize = 0;
    while i < DECK_SIZE
        invariant
            i <= DECK_SIZE,
            kings@.len() == 4,
            queens@.len() == 4,
            jacks@.len() == 4,
            others@.len() == 24,
            deck_items(cards) =~= monster_layout(kings@, queens@, jacks@, others@).take(i as int),
        decreases DECK_SIZE - i,
    {
        let ghost layout = monster_layout(kings@, queens@, jacks@, others@);
        if i % 3 == 0 {
            let k = i / 3;
            let card = if k % 3 == 0 {
                kings[k % 4]
            } else if k % 3 == 1 {
                queens[k % 4]
            } else {
                jacks[k % 4]
            };
            push_card(&mut cards, card);
        } else {
            push_card(&mut cards, others[i - i / 3 - 1]);
        }
        proof {
            assert(layout.take(i + 1) =~= layout.take(i as int).push(layout[i as int]));
        }
        i = i + 1;
    }
    Deck { cards }
}

/// A sequence with the same elements as one with no duplicates has no duplicates, and
/// holds only elements of that one.
proof fn lemma_same_multiset_no_duplicates<A>(a: Seq<A>, b: Seq<A>)
    requires
        a.to_multiset() == b.to_multiset(),
        b.no_duplicates(),
    ensures
        a.no_duplicates(),
        forall|x: A| a.contains(x) ==> b.contains(x),
{
    broadcast use vstd::seq_lib::group_to_multiset_ensures;

    b.lemma_multiset_has_no_duplicates();
    a.lemma_multiset_has_no_duplicates_conv();
    assert forall|x: A| a.contains(x) implies b.contains(x) by {
        vstd::seq_lib::to_multiset_contains(a, x);
        vstd::seq_lib::to_multiset_contains(b, x);
    }
}

/// The four cards of a rank, in suit order.
fn rank_row_cards(rank: Rank) -> (v: Vec<Card>)
    ensures
        v@ == rank_row(rank),
{
    let suits = Suit::all();
    let mut v: Vec<Card> = Vec::new();
    let mut j: usize = 0;
    while j < 4
        invariant
            j <= 4,
            suits@ == all_suits(),
            v@ =~= rank_row(rank).take(j as int),
        decreases 4 - j,
    {
        v.push(Card { rank, suit: suits[j] });
        j = j + 1;
    }
    v
}

/// The numeric cards (ace to ten) in rank-major order.
fn numeric_card_vec() -> (v: Vec<Card>)
    ensures
        v@ == numeric_cards(),
{
    let deck = Deck::new_ordered();
    let cards = cards_slice(&deck.cards);
    let mut v: Vec<Card> = Vec::new();
    let mut i: usize = 0;
    while i < 24
        invariant
            i <= 24,
            cards@ == full_deck(),
            v@ =~= numeric_cards().take(i as int),
        decreases 24 - i,
    {
        v.push(cards[i]);
        i = i + 1;
    }
    v
}

/// The place of a rank in declaration order.
pub open spec fn rank_index(r: Rank) -> int {
    match r {
        Rank::Ace => 0,
        Rank::Six => 1,
        Rank::Seven => 2,
        Rank::Eight => 3,
        Rank::Nine => 4,
        Rank::Ten => 5,
        Rank::Jack => 6,
        Rank::Queen => 7,
        Rank::King => 8,
    }
}

/// The place of a suit in declaration order.
pub open spec fn suit_index(s: Suit) -> int {
    match s {
        Suit::Hearts => 0,
        Suit::Diamonds => 1,
        Suit::Clubs => 2,
        Suit::Spades => 3,
    }
}

/// A full deck holds every card once.
proof fn lemma_full_deck(c: Card)
    ensures
        full_deck().no_duplicates(),
        full_deck()[4 * rank_index(c.rank) + suit_index(c.suit)] == c,
        full_deck().contains(c),
{
    let i = 4 * rank_index(c.rank) + suit_index(c.suit);
    assert(i / 4 == rank_index(c.rank) && i % 4 == suit_index(c.suit));
    assert(full_deck()[i] == deck_card(i));
    assert forall|a: int, b: int| 0 <= a < b < 36 implies full_deck()[a] != full_deck()[b] by {
        assert(full_deck()[a] == deck_card(a));
        assert(full_deck()[b] == deck_card(b));
        if deck_card(a) == deck_card(b) {
            assert(rank_index(all_ranks()[a / 4]) == a / 4);
            assert(rank_index(all_ranks()[b / 4]) == b / 4);
            assert(suit_index(all_suits()[a % 4]) == a % 4);
            assert(suit_index(all_suits()[b % 4]) == b % 4);
            assert(a == 4 * (a / 4) + a % 4);
            assert(b == 4 * (b / 4) + b % 4);
        }
    }
}

/// Thirty-six distinct cards are a whole deck: every card is among them.
proof fn lemma_distinct_cards_complete(d: Seq<Card>, c: Card)
    requires
        d.len() == DECK_SIZE,
        d.no_duplicates(),
    ensures
        d.contains(c),
{
    lemma_full_deck(c);
    let full = full_deck();
    d.unique_seq_to_set();
    full.unique_seq_to_set();
    assert(d.to_set().subset_of(full.to_set())) by {
        assert forall|x: Card| d.to_set().contains(x) implies full.to_set().contains(x) by {
            lemma_full_deck(x);
            assert(full[4 * rank_index(x.rank) + suit_index(x.suit)] == x);
        }
    }
    vstd::seq_lib::seq_to_set_is_finite(d);
    vstd::seq_lib::seq_to_set_is_finite(full);
    vstd::set_lib::lemma_subset_equality(d.to_set(), full.to_set());
    assert(full.to_set().contains(c)) by {
        assert(full[4 * rank_index(c.rank) + suit_index(c.suit)] == c);
    }
    assert(d.to_set().contains(c));
}

/// Something that can deal a deck of monsters.
pub trait MonsterDeck {
    fn new_monster_deck() -> Deck;
}

impl MonsterDeck for Deck {
    /// A deck of monsters: each boss row and the numeric cards are shuffled, then laid out
    /// by `assemble_monster_deck`. Whatever the shuffles give, the deck holds every card
    /// exactly once, every third card (starting with the first) is a boss whose rank cycles
    /// king, queen, jack, and every other card is a numeric card.
    fn new_monster_deck() -> (d: Deck)
        ensures
            d.wf(),
            d.card_seq().len() == DECK_SIZE,
            d.card_seq().no_duplicates(),
            forall|k: int| 0 <= k < 12 ==> (#[trigger] d.card_seq()[3 * k]).rank == boss_rank(k % 3),
            forall|i: int|
                0 <= i < DECK_SIZE && i % 3 != 0 ==> !is_face((#[trigger] d.card_seq()[i]).rank),
            forall|c: Card| #[trigger] d.card_seq().contains(c),
    {
        let mut kings = rank_row_cards(Rank::King);
        let mut queens = rank_row_cards(Rank::Queen);
        let mut jacks = rank_row_cards(Rank::Jack);
        shuffle_vec(&mut kings);
        shuffle_vec(&mut queens);
        shuffle_vec(&mut jacks);
        let mut others = numeric_card_vec();
        shuffle_vec(&mut others);
        let d = assemble_monster_deck(&kings, &queens, &jacks, &others);
        proof {
            lemma_monster_layout(kings@, queens@, jacks@, others@);
            assert forall|c: Card| #[trigger] d.card_seq().contains(c) by {
                lemma_distinct_cards_complete(d.card_seq(), c);
            }
        }
        d
    }
}

/// Whatever order the shuffles give the rows and the numeric cards, the monster layout
/// holds no card twice, places the bosses every third card and the numeric cards elsewhere.
proof fn lemma_monster_layout(kings: Seq<Card>, queens: Seq<Card>, jacks: Seq<Card>, others: Seq<Card>)
    requires
        kings.to_multiset() == rank_row(Rank::King).to_multiset(),
        queens.to_multiset() == rank_row(Rank::Queen).to_multiset(),
        jacks.to_multiset() == rank_row(Rank::Jack).to_multiset(),
        others.to_multiset() == numeric_cards().to_multiset(),
        kings.len() == 4,
        queens.len() == 4,
        jacks.len() == 4,
        others.len() == 24,
    ensures
        ({
            let d = monster_layout(kings, queens, jacks, others);
            &&& d.no_duplicates()
            &&& forall|k: int| 0 <= k < 12 ==> (#[trigger] d[3 * k]).rank == boss_rank(k % 3)
            &&& forall|i: int|
                0 <= i < DECK_SIZE && i % 3 != 0 ==> !is_face((#[trigger] d[i]).rank)
        }),
{
    let d = monster_layout(kings, queens, jacks, others);
    assert(rank_row(Rank::King).no_duplicates());
    assert(rank_row(Rank::Queen).no_duplicates());
    assert(rank_row(Rank::Jack).no_duplicates());
    assert forall|i: int, j: int| 0 <= i < j < 24 implies numeric_cards()[i] != numeric_cards()[j] by {
        assert(numeric_cards()[i] == deck_card(i));
        assert(numeric_cards()[j] == deck_card(j));
    }
    lemma_same_multiset_no_duplicates(kings, rank_row(Rank::King));
    lemma_same_multiset_no_duplicates(queens, rank_row(Rank::Queen));
    lemma_same_multiset_no_duplicates(jacks, rank_row(Rank::Jack));
    lemma_same_multiset_no_duplicates(others, numeric_cards());
    assert forall|c: int| 0 <= c < 4 implies kings[c].rank == Rank::King by {
        assert(kings.contains(kings[c]));
    }
    assert forall|c: int| 0 <= c < 4 implies queens[c].rank == Rank::Queen by {
        assert(queens.contains(queens[c]));
    }
    assert forall|c: int| 0 <= c < 4 implies jacks[c].rank == Rank::Jack by {
        assert(jacks.contains(jacks[c]));
    }
    assert forall|o: int| 0 <= o < 24 implies !is_face(#[trigger] others[o].rank) by {
        assert(others.contains(others[o]));
        let w = choose|w: int| 0 <= w < 24 && numeric_cards()[w] == others[o];
        assert(numeric_cards()[w] == deck_card(w));
    }
    assert forall|k: int| 0 <= k < 12 implies (#[trigger] d[3 * k]).rank == boss_rank(k % 3) by {
        assert((3 * k) % 3 == 0 && (3 * k) / 3 == k);
    }
    assert forall|i: int| 0 <= i < DECK_SIZE && i % 3 != 0 implies !is_face((#[trigger] d[i]).rank) by {
        assert(0 <= i - i / 3 - 1 < 24);
    }
    assert forall|i: int, j: int| 0 <= i < d.len() && 0 <= j < d.len() && i != j implies d[i] != d[j] by {
        if i % 3 == 0 && j % 3 == 0 {
            let k1 = i / 3;
            let k2 = j / 3;
            assert(k1 != k2);
            assert(0 <= k1 < 12 && 0 <= k2 < 12);
            if k1 % 3 == k2 % 3 {
                assert(k1 % 4 != k2 % 4);
            }
        } else if i % 3 != 0 && j % 3 != 0 {
            assert(i - i / 3 - 1 != j - j / 3 - 1);
        } else if i % 3 == 0 {
            assert(!is_face(d[j].rank));
        } else {
            assert(!is_face(d[i].rank));
        }
    }
}

} // verus!
