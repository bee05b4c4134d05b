//! What a connected peer holds in each stage, and how a peer plays its abilities.
use vstd::prelude::*;

use crate::game::{all_ranks, role_suit, AbilityDeck, Card, Deckable, Rank, Role, Suit};
use crate::protocol::client::StartGame;
use crate::protocol::server::{ChatLine, PlayerId};
use crate::protocol::Username;
use crate::client::states::concat;
use crate::server::details::{
    advance, first_index_of, has_slot_for, initial_actives, ActiveState, DeactivateItemError,
    Stateble,
};
use crate::server::states::{turn_passed, GameServer};

verus! {

/// A peer in the login stage: its name once it logged in.
#[derive(Debug)]
pub struct Intro {
    pub username: Option<Username>,
}

impl Default for Intro {
    /// Not logged in.
    fn default() -> (i: Intro)
        ensures
            i.username is None,
    {
        Intro { username: None }
    }
}

impl Intro {
    /// The name with which the peer logged in.
    pub fn get_username(&self) -> (u: &Username)
        requires
            self.username is Some,
        ensures
            *u == self.username->0,
    {
        self.username.as_ref().unwrap()
    }
}

/// A peer in the lobby.
#[derive(Debug)]
pub struct Home;

/// A peer choosing its role.
#[derive(Debug, Clone, Copy, PartialEq, Eq, Structural)]
pub struct Roles {
    pub selected_role: Option<Role>,
}

impl Default for Roles {
    /// No role chosen.
    fn default() -> (r: Roles)
        ensures
            r.selected_role is None,
    {
        Roles { selected_role: None }
    }
}

/// A peer in the game: its shuffled abilities, three of which are in hand, the suit of its
/// role, the ability it selected for an attack, and its health.
pub struct Game {
    pub abilities: Stateble<Rank, 3>,
    pub suit: Suit,
    pub selected_ability: Option<usize>,
    pub health: u16,
}

/// Why a move of a player could not be made.
#[derive(Debug, Clone, Copy, PartialEq, Eq, Structural)]
pub enum GameCmdError {
    BadAbility(Rank),
    AbilityNotExists(Rank),
    AbilityNotSelected,
    Deactivate(DeactivateItemError),
}

/// Starting health of a player.
pub const START_HEALTH: u16 = 36;

/// The position of a rank among the abilities.
fn rank_position(ranks: &Vec<Rank>, ability: Rank) -> (r: Option<usize>)
    ensures
        r is None <==> !ranks@.contains(ability),
        r matches Some(p) ==> p == first_index_of(ranks@, ability) && p < ranks@.len(),
{
    let mut p: usize = 0;
    while p < ranks.len()
        invariant
            p <= ranks@.len(),
            forall|q: int| 0 <= q < p ==> ranks@[q] != ability,
        decreases ranks@.len() - p,
    {
        if ranks[p] == ability {
            proof {
                crate::server::details::lemma_first_index_of(ranks@, ability, p as int);
            }
            return Some(p);
        }
        p = p + 1;
    }
    None
}

impl Game {
    /// Three abilities in hand over the player's ranks.
    pub open spec fn wf(&self) -> bool {
        self.abilities.wf()
    }

    /// A player of a suit: all nine ranks of it, shuffled, the first three in hand; no
    /// ability selected; full health.
    pub fn new(role: Suit) -> (g: Game)
        ensures
            g.wf(),
            g.suit == role,
            g.abilities.items@.to_multiset() == all_ranks().to_multiset(),
            g.abilities.items@.len() == 9,
            g.abilities.actives@ == initial_actives(3),
            g.selected_ability is None,
            g.health == START_HEALTH,
    {
        let mut abilities = AbilityDeck::new(role);
        abilities.shuffle();
        Game {
            abilities: Stateble::with_items(abilities.rank_vec()),
            suit: role,
            health: START_HEALTH,
            selected_ability: None,
        }
    }

    /// The suit of the player's role.
    pub fn get_role(&self) -> (s: Suit)
        ensures
            s == self.suit,
    {
        self.suit
    }

    /// The abilities in hand, by slot.
    pub fn get_abilities(&self) -> (r: [Option<Rank>; 3])
        requires
            self.wf(),
        ensures
            forall|j: int| 0 <= j < 3 ==> r@[j] == self.abilities.active_item(j),
    {
        let items = self.abilities.active_items();
        [items[0], items[1], items[2]]
    }

    /// Drops an ability from the hand: fails if the player has no such rank, or if that
    /// rank is not in hand.
    pub fn drop_ability(&mut self, ability: Rank) -> (r: Result<(), GameCmdError>)
        requires
            old(self).wf(),
        ensures
            final(self).wf(),
            final(self).suit == old(self).suit,
            final(self).selected_ability == old(self).selected_ability,
            final(self).health == old(self).health,
            final(self).abilities.items@ == old(self).abilities.items@,
            !old(self).abilities.items@.contains(ability) ==> r == Err::<(), GameCmdError>(
                GameCmdError::BadAbility(ability),
            ) && final(self).abilities.actives@ == old(self).abilities.actives@,
            old(self).abilities.items@.contains(ability) ==> {
                let p = first_index_of(old(self).abilities.items@, ability);
                &&& r is Ok <==> has_slot_for(old(self).abilities.actives@, p)
                &&& r is Ok ==> final(self).abilities.actives@ == old(
                    self,
                ).abilities.actives@.update(
                    p % 3,
                    crate::server::details::ActiveState::Disable(p as usize),
                )
                &&& r is Err ==> r == Err::<(), GameCmdError>(
                    GameCmdError::Deactivate(DeactivateItemError::AlreadyNotActive),
                ) && final(self).abilities.actives@ == old(self).abilities.actives@
            },
    {
        match rank_position(&self.abilities.items, ability) {
            None => Err(GameCmdError::BadAbility(ability)),
            Some(i) => match self.abilities.deactivate_item_by_index(i) {
                Ok(()) => Ok(()),
                Err(e) => Err(GameCmdError::Deactivate(e)),
            },
        }
    }

    /// Selects an ability for an attack: fails if the player has no such rank.
    pub fn select_ability(&mut self, ability: Rank) -> (r: Result<(), GameCmdError>)
        ensures
            final(self).abilities == old(self).abilities,
            final(self).suit == old(self).suit,
            final(self).health == old(self).health,
            !old(self).abilities.items@.contains(ability) ==> r == Err::<(), GameCmdError>(
                GameCmdError::AbilityNotExists(ability),
            ) && final(self).selected_ability == old(self).selected_ability,
            old(self).abilities.items@.contains(ability) ==> r is Ok && final(
                self).selected_ability == Some(
                first_index_of(old(self).abilities.items@, ability) as usize,
            ),
    {
        match rank_position(&self.abilities.items, ability) {
            None => Err(GameCmdError::AbilityNotExists(ability)),
            Some(i) => {
                self.selected_ability = Some(i);
                Ok(())
            },
        }
    }

    /// The ability selected for an attack; an attack needs one.
    pub fn attack_ability(&self) -> (r: Result<usize, GameCmdError>)
        ensures
            self.selected_ability matches Some(i) ==> r == Ok::<usize, GameCmdError>(i),
            self.selected_ability is None ==> r == Err::<usize, GameCmdError>(
                GameCmdError::AbilityNotSelected,
            ),
    {
        match self.selected_ability {
            Some(i) => Ok(i),
            None => Err(GameCmdError::AbilityNotSelected),
        }
    }

    /// After defending, the dropped abilities are replaced by the next ones of the deck.
    pub fn continue_game(&mut self)
        requires
            old(self).wf(),
        ensures
            final(self).wf(),
            final(self).abilities.items@ == old(self).abilities.items@,
            final(self).abilities.actives@ == advance(
                old(self).abilities.actives@,
                3,
                old(self).abilities.items@.len() as int,
            ),
            final(self).suit == old(self).suit,
            final(self).selected_ability == old(self).selected_ability,
            final(self).health == old(self).health,
    {
        let _ = self.abilities.next_actives();
    }

    /// What the client needs to show the game: the abilities in hand, the monsters on the
    /// table, and the suit of the role.
    pub fn start_game_data(&self, monsters: [Option<Card>; 2]) -> (s: StartGame)
        requires
            self.wf(),
        ensures
            forall|j: int| 0 <= j < 3 ==> s.abilities@[j] == self.abilities.active_item(j),
            s.monsters == monsters,
            s.role == self.suit,
    {
        StartGame { abilities: self.get_abilities(), monsters, role: self.suit }
    }
}

/// A move of the active player in the game.
#[derive(Debug, Clone, Copy, PartialEq, Eq, Structural)]
pub enum GameAction {
    Drop(Rank),
    Select(Rank),
    Attack(Card),
    Continue,
}

/// What dropping `ability` and passing the turn makes of a player `g0` and a turn order
/// `t0`: the drop of `Game::drop_ability`, then one step of the turn order; a refused drop
/// changes nothing.
pub open spec fn drop_passed(
    g0: Game,
    t0: GameServer,
    ability: Rank,
    g1: Game,
    t1: GameServer,
    r: Result<PlayerId, GameCmdError>,
) -> bool {
    let i = first_index_of(g0.abilities.items@, ability);
    &&& g1.wf()
    &&& t1.wf()
    &&& g1.suit == g0.suit
    &&& g1.selected_ability == g0.selected_ability
    &&& g1.health == g0.health
    &&& g1.abilities.items@ == g0.abilities.items@
    &&& !g0.abilities.items@.contains(ability) ==> r == Err::<PlayerId, GameCmdError>(
        GameCmdError::BadAbility(ability),
    )
    &&& g0.abilities.items@.contains(ability) ==> (r is Ok <==> has_slot_for(g0.abilities.actives@, i))
    &&& g0.abilities.items@.contains(ability) && r is Err ==> r == Err::<PlayerId, GameCmdError>(
        GameCmdError::Deactivate(DeactivateItemError::AlreadyNotActive),
    )
    &&& r is Err ==> g1.abilities.actives@ == g0.abilities.actives@ && t1 == t0
    &&& r matches Ok(p) ==> {
        &&& g1.abilities.actives@ == g0.abilities.actives@.update(i % 3, ActiveState::Disable(i as usize))
        &&& turn_passed(t0, t0.monsters.actives@, t1)
        &&& p == t1.players.items@[t1.active_index()]
    }
}

/// What selecting `ability` for an attack and passing the turn makes of a player and a turn
/// order; a rank that the player lacks changes nothing.
pub open spec fn select_passed(
    g0: Game,
    t0: GameServer,
    ability: Rank,
    g1: Game,
    t1: GameServer,
    r: Result<PlayerId, GameCmdError>,
) -> bool {
    &&& t1.wf()
    &&& g1.abilities == g0.abilities
    &&& g1.suit == g0.suit
    &&& g1.health == g0.health
    &&& r is Ok <==> g0.abilities.items@.contains(ability)
    &&& r is Err ==> r == Err::<PlayerId, GameCmdError>(GameCmdError::AbilityNotExists(ability))
        && g1.selected_ability == g0.selected_ability && t1 == t0
    &&& r matches Ok(p) ==> {
        &&& g1.selected_ability == Some(first_index_of(g0.abilities.items@, ability) as usize)
        &&& turn_passed(t0, t0.monsters.actives@, t1)
        &&& p == t1.players.items@[t1.active_index()]
    }
}

/// What attacking `monster` with the selected ability and passing the turn makes of a turn
/// order: the monster leaves the table; without a selected ability, or when the monster is
/// not on the table, nothing changes.
pub open spec fn attack_passed(
    g: Game,
    t0: GameServer,
    monster: Card,
    t1: GameServer,
    r: Result<PlayerId, GameCmdError>,
) -> bool {
    let i = first_index_of(t0.monsters.items@, monster);
    &&& t1.wf()
    &&& g.selected_ability is None ==> r == Err::<PlayerId, GameCmdError>(
        GameCmdError::AbilityNotSelected,
    )
    &&& g.selected_ability is Some ==> (r is Ok <==> t0.monsters.items@.contains(monster)
        && has_slot_for(t0.monsters.actives@, i))
    &&& g.selected_ability is Some && !t0.monsters.items@.contains(monster) ==> r == Err::<
        PlayerId,
        GameCmdError,
    >(GameCmdError::Deactivate(DeactivateItemError::NotFound))
    &&& g.selected_ability is Some && t0.monsters.items@.contains(monster) && r is Err ==> r
        == Err::<PlayerId, GameCmdError>(
        GameCmdError::Deactivate(DeactivateItemError::AlreadyNotActive),
    )
    &&& r is Err ==> {
        &&& t1.players == t0.players
        &&& t1.phase == t0.phase
        &&& t1.monsters.items@ == t0.monsters.items@
        &&& t1.monsters.actives@ == t0.monsters.actives@
    }
    &&& r matches Ok(p) ==> {
        &&& turn_passed(
            t0,
            t0.monsters.actives@.update(i % 2, ActiveState::Disable(i as usize)),
            t1,
        )
        &&& p == t1.players.items@[t1.active_index()]
    }
}

/// What refilling the hand after defending and passing the turn makes of a player and a
/// turn order.
pub open spec fn continue_passed(g0: Game, t0: GameServer, g1: Game, t1: GameServer, p: PlayerId) -> bool {
    &&& g1.wf()
    &&& g1.abilities.items@ == g0.abilities.items@
    &&& g1.abilities.actives@ == advance(g0.abilities.actives@, 3, g0.abilities.items@.len() as int)
    &&& g1.suit == g0.suit
    &&& g1.selected_ability == g0.selected_ability
    &&& g1.health == g0.health
    &&& turn_passed(t0, t0.monsters.actives@, t1)
    &&& p == t1.players.items@[t1.active_index()]
}

/// What a move makes of the player who makes it and of the turn order.
pub open spec fn move_made(
    action: GameAction,
    g0: Game,
    t0: GameServer,
    g1: Game,
    t1: GameServer,
    r: Result<PlayerId, GameCmdError>,
) -> bool {
    match action {
        GameAction::Drop(a) => drop_passed(g0, t0, a, g1, t1, r),
        GameAction::Select(a) => select_passed(g0, t0, a, g1, t1, r),
        GameAction::Attack(c) => g1 == g0 && attack_passed(g0, t0, c, t1, r),
        GameAction::Continue => r matches Ok(p) && continue_passed(g0, t0, g1, t1, p),
    }
}

/// The active player drops an ability from its hand, as `Game::drop_ability` does, and the
/// turn passes: the new active player comes back. A refused drop changes nothing, and the
/// turn stays.
pub fn drop_and_pass(game: &mut Game, turns: &mut GameServer, ability: Rank) -> (r: Result<
    PlayerId,
    GameCmdError,
>)
    requires
        old(game).wf(),
        old(turns).wf(),
    ensures
        drop_passed(*old(game), *old(turns), ability, *final(game), *final(turns), r),
{
    match game.drop_ability(ability) {
        Ok(()) => Ok(turns.switch_to_next_player()),
        Err(e) => Err(e),
    }
}

/// The active player selects an ability for its attack, as `Game::select_ability` does, and
/// the turn passes. A rank that the player lacks changes nothing, and the turn stays.
pub fn select_and_pass(game: &mut Game, turns: &mut GameServer, ability: Rank) -> (r: Result<
    PlayerId,
    GameCmdError,
>)
    requires
        old(turns).wf(),
    ensures
        select_passed(*old(game), *old(turns), ability, *final(game), *final(turns), r),
{
    match game.select_ability(ability) {
        Ok(()) => Ok(turns.switch_to_next_player()),
        Err(e) => Err(e),
    }
}

/// The active player attacks `monster` with its selected ability: the monster leaves the
/// table and the turn passes. Without a selected ability, or when the monster is not on
/// the table, nothing changes and the turn stays.
pub fn attack_and_pass(game: &Game, turns: &mut GameServer, monster: Card) -> (r: Result<
    PlayerId,
    GameCmdError,
>)
    requires
        old(turns).wf(),
    ensures
        attack_passed(*game, *old(turns), monster, *final(turns), r),
{
    match game.attack_ability() {
        Err(e) => Err(e),
        Ok(_) => match turns.monsters.deactivate_item(&monster) {
            Err(e) => Err(GameCmdError::Deactivate(e)),
            Ok(()) => Ok(turns.switch_to_next_player()),
        },
    }
}

/// After defending, the player's hand is refilled as `Game::continue_game` does, and the
/// turn passes.
pub fn continue_and_pass(game: &mut Game, turns: &mut GameServer) -> (p: PlayerId)
    requires
        old(game).wf(),
        old(turns).wf(),
    ensures
        continue_passed(*old(game), *old(turns), *final(game), *final(turns), p),
{
    game.continue_game();
    turns.switch_to_next_player()
}

/// The line of the chat that a peer's message becomes: its name, a colon and the text.
pub fn chat_line(username: &Username, text: &str) -> (line: ChatLine)
    ensures
        line matches ChatLine::Text(t) && t@ == username.0@ + ": "@ + text@,
{
    let head = concat(username.0.as_str(), ": ");
    ChatLine::Text(concat(head.as_str(), text))
}

/// A peer: its name and what it holds in its stage.
pub struct Peer<State> {
    pub username: Username,
    pub state: State,
}

impl<State> Peer<State> {
    /// The peer's name.
    pub fn get_username(&self) -> (u: &Username)
        ensures
            *u == self.username,
    {
        &self.username
    }
}

impl Peer<Home> {
    /// A logged-in peer enters the lobby.
    pub fn from_intro(intro: Intro) -> (p: Peer<Home>)
        requires
            intro.username is Some,
        ensures
            p.username == intro.username->0,
    {
        Peer { username: intro.username.unwrap(), state: Home }
    }
}

impl Peer<Roles> {
    /// A peer of the lobby starts choosing a role, with none chosen.
    pub fn from_home(home: Peer<Home>) -> (p: Peer<Roles>)
        ensures
            p.username == home.username,
            p.state.selected_role is None,
    {
        Peer { username: home.username, state: Roles::default() }
    }

    /// What is left in place of a peer whose state was taken by its reconnected connection.
    pub fn vacant() -> (p: Peer<Roles>)
        ensures
            p.username@ == Seq::<char>::empty(),
            p.state.selected_role is None,
    {
        Peer { username: Username::default(), state: Roles::default() }
    }

    /// The role the peer chose.
    pub fn get_role(&self) -> (r: Option<Role>)
        ensures
            r == self.state.selected_role,
    {
        self.state.selected_role
    }

    /// The peer takes a role.
    pub fn select_role(&mut self, role: Role)
        ensures
            final(self).state.selected_role == Some(role),
            final(self).username == old(self).username,
    {
        self.state.selected_role = Some(role);
    }
}

/// The player that a peer of the role selection becomes when the game starts: the same
/// name, the nine ranks of its role's suit shuffled with the first three in hand, no ability
/// selected, full health.
pub open spec fn game_peer_of(p: Peer<Game>, roles: Peer<Roles>) -> bool {
    &&& p.username == roles.username
    &&& p.state.wf()
    &&& p.state.suit == role_suit(roles.state.selected_role->0)
    &&& p.state.abilities.items@.to_multiset() == all_ranks().to_multiset()
    &&& p.state.abilities.actives@ == initial_actives(3)
    &&& p.state.selected_ability is None
    &&& p.state.health == START_HEALTH
}

impl Peer<Game> {
    /// A peer with a role enters the game with the abilities of its role's suit.
    pub fn from_roles(roles: Peer<Roles>) -> (p: Peer<Game>)
        requires
            roles.state.selected_role is Some,
        ensures
            game_peer_of(p, roles),
    {
        let role = roles.state.selected_role.unwrap();
        Peer { username: roles.username, state: Game::new(Suit::from_role(role)) }
    }

    /// What is left in place of a peer whose state was taken by its reconnected connection.
    pub fn vacant() -> (p: Peer<Game>)
        ensures
            p.username@ == Seq::<char>::empty(),
            p.state.wf(),
            p.state.suit == Suit::Clubs,
            p.state.abilities.items@ == all_ranks(),
            p.state.selected_ability is None,
            p.state.health == 0,
    {
        Peer {
            username: Username::default(),
            state: Game {
                selected_ability: None,
                abilities: Stateble::with_items(AbilityDeck::new(Suit::Clubs).rank_vec()),
                suit: Suit::Clubs,
                health: 0,
            },
        }
    }
}

} // verus!
