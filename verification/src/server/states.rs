//! The servers of each stage: who is in the room, who may log in, which roles are free,
//! and whose turn it is.
use vstd::prelude::*;

use crate::game::{all_roles, Card, Deck, Deckable, Role, DECK_SIZE};
use crate::protocol::server::{LoginStatus, PlayerId, SelectRoleError, MAX_PLAYER_COUNT};
use crate::protocol::server::ChatLine;
use crate::protocol::{GameContextKind, GamePhaseKind, RoleStatus, TurnStatus, Username};
use crate::client::states::concat;
use crate::game::role_name;
use crate::server::peer::{self, Peer};
use crate::server::details::{
    advance, first_blocked, first_index_of, initial_actives, repeated, ActiveState, Stateble,
};

verus! {

/// Whether a peer of a started stage is connected.
#[derive(Debug, Clone, Copy, PartialEq, Eq, Structural)]
pub enum PeerStatus {
    Online,
    Offline,
}

/// A peer of a room: its address and what the server keeps of it.
#[derive(Debug)]
pub struct PeerSlot<T> {
    pub addr: PlayerId,
    pub peer: T,
}

impl<T> PeerSlot<T> {
    /// A slot for a peer at an address.
    pub fn new(addr: PlayerId, peer_handle: T) -> (s: Self)
        ensures
            s.addr == addr,
            s.peer == peer_handle,
    {
        PeerSlot { addr, peer: peer_handle }
    }
}

/// The room is full.
#[derive(Debug, Clone, Copy, PartialEq, Eq, Structural)]
pub struct PeersCapacityError;

/// No peer of the room has this address.
#[derive(Debug, Clone, Copy, PartialEq, Eq, Structural)]
pub struct PeerNotFound(pub PlayerId);

/// A message could not reach a peer.
#[derive(Debug, Clone, Copy, PartialEq, Eq, Structural)]
pub struct SendError;

/// The first index of a slot at `addr`, if there is one.
pub open spec fn first_slot_of<T>(slots: Seq<PeerSlot<T>>, addr: PlayerId) -> Option<int> {
    if exists|i: int| 0 <= i < slots.len() && slots[i].addr == addr {
        Some(
            choose|i: int|
                0 <= i < slots.len() && slots[i].addr == addr && forall|j: int|
                    0 <= j < i ==> slots[j].addr != addr,
        )
    } else {
        None
    }
}

/// The index found by a scan from the front is `first_slot_of`.
proof fn lemma_first_slot_of<T>(slots: Seq<PeerSlot<T>>, addr: PlayerId, i: int)
    requires
        0 <= i < slots.len(),
        slots[i].addr == addr,
        forall|j: int| 0 <= j < i ==> slots[j].addr != addr,
    ensures
        first_slot_of(slots, addr) == Some(i),
{
    let c = choose|c: int|
        0 <= c < slots.len() && slots[c].addr == addr && forall|j: int|
            0 <= j < c ==> slots[j].addr != addr;
    assert(0 <= c < slots.len() && slots[c].addr == addr && forall|j: int|
        0 <= j < c ==> slots[j].addr != addr);
    if c < i {
        assert(slots[c].addr != addr);
    } else if c > i {
        assert(slots[i].addr != addr);
    }
}


/// The indices below `n` at which `pick` holds, in increasing order.
pub open spec fn picked(n: int, pick: spec_fn(int) -> bool) -> Seq<usize>
    decreases n,
{
    if n <= 0 {
        Seq::empty()
    } else if pick(n - 1) {
        picked(n - 1, pick).push((n - 1) as usize)
    } else {
        picked(n - 1, pick)
    }
}

/// `picked` gives exactly the indices below `n` at which `pick` holds, each once, in
/// increasing order.
pub proof fn lemma_picked(n: int, pick: spec_fn(int) -> bool)
    requires
        n <= usize::MAX,
    ensures
        forall|m: int|
            0 <= m < picked(n, pick).len() ==> 0 <= #[trigger] picked(n, pick)[m] < n && pick(
                picked(n, pick)[m] as int,
            ),
        forall|m1: int, m2: int|
            0 <= m1 < m2 < picked(n, pick).len() ==> #[trigger] picked(n, pick)[m1] < #[trigger] picked(
                n,
                pick,
            )[m2],
        forall|i: int|
            0 <= i < n && #[trigger] pick(i) ==> exists|m: int|
                0 <= m < picked(n, pick).len() && picked(n, pick)[m] == i,
    decreases n,
{
    if n > 0 {
        lemma_picked(n - 1, pick);
        let before = picked(n - 1, pick);
        if pick(n - 1) {
            let after = before.push((n - 1) as usize);
            assert(picked(n, pick) == after);
            assert forall|i: int| 0 <= i < n && #[trigger] pick(i) implies exists|m: int|
                0 <= m < after.len() && after[m] == i by {
                if i == n - 1 {
                    assert(after[before.len() as int] == i);
                } else {
                    let m = choose|m: int| 0 <= m < before.len() && before[m] == i;
                    assert(after[m] == i);
                }
            }
        } else {
            assert(picked(n, pick) == before);
            assert forall|i: int| 0 <= i < n && #[trigger] pick(i) implies exists|m: int|
                0 <= m < before.len() && before[m] == i by {
                assert(i < n - 1);
            }
        }
    }
}

/// Whether a message of `sender` goes to the peer at `addr` (a message of the server, with
/// no sender, goes to everyone).
pub open spec fn addressed(addr: PlayerId, sender: Option<PlayerId>) -> bool {
    sender matches Some(s) ==> addr != s
}

/// The peers of a stage: at most `MAX_PLAYER_COUNT` of them.
#[derive(Debug)]
pub struct Room<T>(pub Vec<PeerSlot<T>>);

impl<T> Room<T> {
    /// A room holds at most `MAX_PLAYER_COUNT` peers.
    pub open spec fn wf(&self) -> bool {
        self.0@.len() <= MAX_PLAYER_COUNT
    }

    /// The peers' slots.
    pub open spec fn slots(&self) -> Seq<PeerSlot<T>> {
        self.0@
    }

    /// An empty room.
    pub fn new() -> (r: Self)
        ensures
            r.slots() == Seq::<PeerSlot<T>>::empty(),
            r.wf(),
    {
        Room(Vec::new())
    }

    /// Number of peers in the room.
    pub fn len(&self) -> (n: usize)
        ensures
            n == self.slots().len(),
    {
        self.0.len()
    }

    /// Whether the room holds `MAX_PLAYER_COUNT` peers.
    pub fn is_full(&self) -> (r: bool)
        requires
            self.wf(),
        ensures
            r == (self.slots().len() == MAX_PLAYER_COUNT),
    {
        self.0.len() == MAX_PLAYER_COUNT
    }

    /// The index of the first peer at `addr`.
    pub fn position(&self, addr: PlayerId) -> (r: Option<usize>)
        ensures
            r matches Some(i) ==> first_slot_of(self.slots(), addr) == Some(i as int) && i
                < self.slots().len() && self.slots()[i as int].addr == addr,
            r is None ==> first_slot_of(self.slots(), addr) is None,
    {
        let mut i: usize = 0;
        while i < self.0.len()
            invariant
                i <= self.slots().len(),
                forall|j: int| 0 <= j < i ==> self.slots()[j].addr != addr,
            decreases self.slots().len() - i,
        {
            if self.0[i].addr == addr {
                proof {
                    lemma_first_slot_of(self.slots(), addr, i as int);
                }
                return Some(i);
            }
            i = i + 1;
        }
        None
    }

    /// The first peer at `addr`.
    pub fn get_peer(&self, addr: PlayerId) -> (r: Result<&PeerSlot<T>, PeerNotFound>)
        ensures
            r matches Ok(p) ==> exists|i: int|
                first_slot_of(self.slots(), addr) == Some(i) && *p == self.slots()[i],
            r matches Err(e) ==> e == PeerNotFound(addr) && first_slot_of(self.slots(), addr)
                is None,
    {
        match self.position(addr) {
            Some(i) => Ok(&self.0[i]),
            None => Err(PeerNotFound(addr)),
        }
    }

    /// Adds a peer at the end, unless the room is full.
    pub fn try_push(&mut self, slot: PeerSlot<T>) -> (r: Result<(), PeersCapacityError>)
        requires
            old(self).wf(),
        ensures
            final(self).wf(),
            r is Ok <==> old(self).slots().len() < MAX_PLAYER_COUNT,
            r is Ok ==> final(self).slots() == old(self).slots().push(slot),
            r is Err ==> final(self).slots() == old(self).slots(),
    {
        if self.0.len() < MAX_PLAYER_COUNT {
            self.0.push(slot);
            Ok(())
        } else {
            Err(PeersCapacityError)
        }
    }

    /// Removes the peer at `index`, putting the last peer in its place.
    pub fn swap_pop(&mut self, index: usize) -> (r: Option<PeerSlot<T>>)
        requires
            old(self).wf(),
        ensures
            final(self).wf(),
            r is Some <==> index < old(self).slots().len(),
            r matches Some(p) ==> p == old(self).slots()[index as int] && final(self).slots()
                == old(self).slots().update(index as int, old(self).slots().last()).drop_last(),
            r is None ==> final(self).slots() == old(self).slots(),
    {
        if index < self.0.len() {
            Some(self.0.swap_remove(index))
        } else {
            None
        }
    }

    /// Removes every peer.
    pub fn shutdown(&mut self)
        ensures
            final(self).slots() == Seq::<PeerSlot<T>>::empty(),
            final(self).wf(),
    {
        self.0.clear();
    }

    /// Removes the first peer at `whom`, putting the last peer in its place (the lobby
    /// forgets a peer that leaves).
    pub fn drop_peer(&mut self, whom: PlayerId) -> (r: Result<(), PeerNotFound>)
        requires
            old(self).wf(),
        ensures
            final(self).wf(),
            r is Ok <==> first_slot_of(old(self).slots(), whom) is Some,
            r matches Err(e) ==> e == PeerNotFound(whom) && final(self).slots() == old(self).slots(),
            first_slot_of(old(self).slots(), whom) matches Some(i) ==> final(self).slots() == old(self).slots().update(i, old(self).slots().last()).drop_last(),
    {
        match self.position(whom) {
            Some(p) => {
                let _ = self.swap_pop(p);
                Ok(())
            },
            None => Err(PeerNotFound(whom)),
        }
    }

    /// The indices of the peers that a broadcast of `sender` reaches: all but the sender.
    pub fn recipients(&self, sender: Option<PlayerId>) -> (r: Vec<usize>)
        ensures
            r@ == picked(
                self.slots().len() as int,
                |i: int| addressed(self.slots()[i].addr, sender),
            ),
    {
        let ghost pick = |i: int| addressed(self.slots()[i].addr, sender);
        let mut r: Vec<usize> = Vec::new();
        let mut i: usize = 0;
        while i < self.0.len()
            invariant
                i <= self.slots().len(),
                pick == (|i: int| addressed(self.slots()[i].addr, sender)),
                r@ == picked(i as int, pick),
            decreases self.slots().len() - i,
        {
            let to = match sender {
                Some(s) => self.0[i].addr != s,
                None => true,
            };
            if to {
                r.push(i);
            }
            i = i + 1;
        }
        r
    }
}

impl<H> Room<(PeerStatus, H)> {
    /// The indices of the peers that a broadcast of `sender` reaches in a started stage: the
    /// connected peers but the sender.
    pub fn online_recipients(&self, sender: Option<PlayerId>) -> (r: Vec<usize>)
        ensures
            r@ == picked(
                self.slots().len() as int,
                |i: int|
                    self.slots()[i].peer.0 == PeerStatus::Online && addressed(
                        self.slots()[i].addr,
                        sender,
                    ),
            ),
    {
        let ghost pick = |i: int|
            self.slots()[i].peer.0 == PeerStatus::Online && addressed(self.slots()[i].addr, sender);
        let mut r: Vec<usize> = Vec::new();
        let mut i: usize = 0;
        while i < self.0.len()
            invariant
                i <= self.slots().len(),
                pick == (|i: int|
                    self.slots()[i].peer.0 == PeerStatus::Online && addressed(
                        self.slots()[i].addr,
                        sender,
                    )),
                r@ == picked(i as int, pick),
            decreases self.slots().len() - i,
        {
            let to = match sender {
                Some(s) => self.0[i].addr != s,
                None => true,
            };
            if to && self.0[i].peer.0 == PeerStatus::Online {
                r.push(i);
            }
            i = i + 1;
        }
        r
    }

    /// Whether a peer at `sender` is connected.
    pub fn is_peer_connected(&self, sender: PlayerId) -> (r: bool)
        ensures
            r == exists|i: int|
                0 <= i < self.slots().len() && (#[trigger] self.slots()[i]).addr == sender
                    && self.slots()[i].peer.0 == PeerStatus::Online,
    {
        let mut i: usize = 0;
        while i < self.0.len()
            invariant
                i <= self.slots().len(),
                forall|j: int|
                    0 <= j < i ==> !((#[trigger] self.slots()[j]).addr == sender
                        && self.slots()[j].peer.0 == PeerStatus::Online),
            decreases self.slots().len() - i,
        {
            if self.0[i].addr == sender && self.0[i].peer.0 == PeerStatus::Online {
                return true;
            }
            i = i + 1;
        }
        false
    }

    /// Marks the first peer at `whom` offline (a started stage keeps the peer's place).
    pub fn set_offline(&mut self, whom: PlayerId) -> (r: Result<(), PeerNotFound>)
        requires
            old(self).wf(),
        ensures
            final(self).wf(),
            final(self).slots().len() == old(self).slots().len(),
            r is Ok <==> first_slot_of(old(self).slots(), whom) is Some,
            r is Err ==> final(self).slots() == old(self).slots(),
            first_slot_of(old(self).slots(), whom) matches Some(i) ==> {
                &&& final(self).slots()[i].addr == whom
                &&& final(self).slots()[i].peer.0 == PeerStatus::Offline
                &&& final(self).slots()[i].peer.1 == old(self).slots()[i].peer.1
                &&& forall|j: int|
                    0 <= j < old(self).slots().len() && j != i ==> final(self).slots()[j] == old(self).slots()[j]
            },
    {
        match self.position(whom) {
            Some(p) => {
                self.0[p].peer.0 = PeerStatus::Offline;
                Ok(())
            },
            None => Err(PeerNotFound(whom)),
        }
    }

    /// Puts a reconnected peer, online, in the place of the first peer at `whom`.
    pub fn reconnect_peer(&mut self, whom: PlayerId, addr: PlayerId, handle: H) -> (r: Result<
        (),
        PeerNotFound,
    >)
        requires
            old(self).wf(),
        ensures
            final(self).wf(),
            r is Ok <==> first_slot_of(old(self).slots(), whom) is Some,
            r is Err ==> final(self).slots() == old(self).slots(),
            first_slot_of(old(self).slots(), whom) matches Some(i) ==> final(self).slots()
                == old(self).slots().update(
                i,
                PeerSlot { addr, peer: (PeerStatus::Online, handle) },
            ),
    {
        match self.position(whom) {
            Some(p) => {
                self.0.set(p, PeerSlot { addr, peer: (PeerStatus::Online, handle) });
                Ok(())
            },
            None => Err(PeerNotFound(whom)),
        }
    }
}


impl<H> Room<(PeerStatus, H)> {
    /// The room of the next stage: the same peers, in the same order, all connected.
    pub fn all_online(peers: Vec<PeerSlot<H>>) -> (r: Self)
        requires
            peers@.len() <= MAX_PLAYER_COUNT,
        ensures
            r.wf(),
            r.slots().len() == peers@.len(),
            forall|i: int|
                0 <= i < peers@.len() ==> (#[trigger] r.slots()[i]).addr == peers@[i].addr
                    && r.slots()[i].peer == (PeerStatus::Online, peers@[i].peer),
    {
        let mut rest = peers;
        let ghost given = rest@;
        let mut out: Vec<PeerSlot<(PeerStatus, H)>> = Vec::new();
        while rest.len() > 0
            invariant
                given.len() <= MAX_PLAYER_COUNT,
                out@.len() + rest@.len() == given.len(),
                rest@ == given.take(rest@.len() as int),
                forall|k: int|
                    0 <= k < out@.len() ==> (#[trigger] out@[k]).addr == given[given.len() - 1 - k].addr
                        && out@[k].peer == (PeerStatus::Online, given[given.len() - 1 - k].peer),
            decreases rest@.len(),
        {
            let slot = rest.pop().unwrap();
            out.push(PeerSlot { addr: slot.addr, peer: (PeerStatus::Online, slot.peer) });
            proof {
                assert(rest@ =~= given.take(rest@.len() as int));
            }
        }
        let mut slots: Vec<PeerSlot<(PeerStatus, H)>> = Vec::new();
        let n = out.len();
        while out.len() > 0
            invariant
                n == given.len(),
                out@.len() + slots@.len() == n,
                n <= MAX_PLAYER_COUNT,
                forall|k: int|
                    0 <= k < out@.len() ==> (#[trigger] out@[k]).addr == given[n - 1 - k].addr
                        && out@[k].peer == (PeerStatus::Online, given[n - 1 - k].peer),
                forall|k: int|
                    0 <= k < slots@.len() ==> (#[trigger] slots@[k]).addr == given[k].addr
                        && slots@[k].peer == (PeerStatus::Online, given[k].peer),
            decreases out@.len(),
        {
            let slot = out.pop().unwrap();
            slots.push(slot);
        }
        Room(slots)
    }
}

/// The player after the one at index `k` among `len`: the next one, or the first after the last.
pub open spec fn next_index(k: int, len: int) -> int {
    if k + 1 < len {
        k + 1
    } else {
        0
    }
}

/// Whether the turn passes from the last player back to the first.
pub open spec fn wraps(k: int, len: int) -> bool {
    k + 1 >= len
}

/// The phase after a player at index `k` among `len` ends the phase `phase`.
pub open spec fn next_phase(phase: GamePhaseKind, k: int, len: int) -> GamePhaseKind {
    match phase {
        GamePhaseKind::DropAbility => if wraps(k, len) {
            GamePhaseKind::SelectAbility
        } else {
            GamePhaseKind::DropAbility
        },
        GamePhaseKind::SelectAbility => GamePhaseKind::AttachMonster,
        GamePhaseKind::AttachMonster => if wraps(k, len) {
            GamePhaseKind::Defend
        } else {
            GamePhaseKind::SelectAbility
        },
        GamePhaseKind::Defend => if wraps(k, len) {
            GamePhaseKind::DropAbility
        } else {
            GamePhaseKind::Defend
        },
    }
}

/// The index of the player whose turn follows: the same player goes on from selecting an
/// ability to attacking, otherwise the turn passes.
pub open spec fn next_player(phase: GamePhaseKind, k: int, len: int) -> int {
    match phase {
        GamePhaseKind::SelectAbility => k,
        _ => next_index(k, len),
    }
}

/// Whether the step deals the next monsters: when the last player has defended.
pub open spec fn deals_monsters(phase: GamePhaseKind, k: int, len: int) -> bool {
    phase == GamePhaseKind::Defend && wraps(k, len)
}

/// One step of the turn order, on the phase and the index of the active player.
pub open spec fn turn_step(s: (GamePhaseKind, int), len: int) -> (GamePhaseKind, int) {
    (next_phase(s.0, s.1, len), next_player(s.0, s.1, len))
}

/// `n` steps of the turn order.
pub open spec fn turn_steps(s: (GamePhaseKind, int), len: int, n: nat) -> (GamePhaseKind, int)
    decreases n,
{
    if n == 0 {
        s
    } else {
        turn_steps(turn_step(s, len), len, (n - 1) as nat)
    }
}

/// What one step of the turn order makes of a game whose monsters on the table were
/// `actives` when the step began: the players stay, the phase and the active player move on
/// as `turn_step` says, and the next monsters are dealt after the last player defended.
pub open spec fn turn_passed(before: GameServer, actives: Seq<ActiveState>, after: GameServer) -> bool {
    let k = before.active_index();
    let len = before.player_count();
    &&& after.wf()
    &&& after.players.items@ == before.players.items@
    &&& (after.phase, after.active_index()) == turn_step((before.phase, k), len)
    &&& after.monsters.items@ == before.monsters.items@
    &&& after.monsters.actives@ == if deals_monsters(before.phase, k, len) {
        advance(actives, 2, before.monsters.items@.len() as int)
    } else {
        actives
    }
}

/// The turn order, over every game and every step: with `k` the active player's index
/// among `len` players, a player who drops an ability hands the turn to the next one, and
/// after the last one everybody selects from the first player on; a player who selects an
/// ability goes on to attack; after an attack the next player selects, and after the last
/// one everybody defends from the first player on; after a defence the next player defends,
/// and only after the last player's defence are the next monsters dealt and the dropping
/// starts again from the first player. The table of monsters changes at no other step.
pub proof fn lemma_turn_order(before: GameServer, actives: Seq<ActiveState>, after: GameServer)
    requires
        before.wf(),
        turn_passed(before, actives, after),
    ensures
        ({
            let k = before.active_index();
            let len = before.player_count();
            let last = k + 1 >= len;
            &&& before.phase == GamePhaseKind::DropAbility && !last ==> after.phase
                == GamePhaseKind::DropAbility && after.active_index() == k + 1
            &&& before.phase == GamePhaseKind::DropAbility && last ==> after.phase
                == GamePhaseKind::SelectAbility && after.active_index() == 0
            &&& before.phase == GamePhaseKind::SelectAbility ==> after.phase
                == GamePhaseKind::AttachMonster && after.active_index() == k
            &&& before.phase == GamePhaseKind::AttachMonster && !last ==> after.phase
                == GamePhaseKind::SelectAbility && after.active_index() == k + 1
            &&& before.phase == GamePhaseKind::AttachMonster && last ==> after.phase
                == GamePhaseKind::Defend && after.active_index() == 0
            &&& before.phase == GamePhaseKind::Defend && !last ==> after.phase == GamePhaseKind::Defend
                && after.active_index() == k + 1
            &&& before.phase == GamePhaseKind::Defend && last ==> after.phase
                == GamePhaseKind::DropAbility && after.active_index() == 0
            &&& !(before.phase == GamePhaseKind::Defend && last) ==> after.monsters.actives@ == actives
            &&& before.phase == GamePhaseKind::Defend && last ==> after.monsters.actives@ == advance(
                actives,
                2,
                before.monsters.items@.len() as int,
            )
            &&& after.players.items@ == before.players.items@
            &&& after.monsters.items@ == before.monsters.items@
        }),
{
}

/// What the peers of a game learn when a turn starts, in room order: the active player's
/// peer (the first slot at its address) gets `Ready` with the phase whether or not it is
/// connected, and every connected peer at another address gets `Wait`.
pub open spec fn turn_notices<H>(
    slots: Seq<PeerSlot<(PeerStatus, H)>>,
    active: PlayerId,
    phase: GamePhaseKind,
) -> Seq<(usize, TurnStatus)> {
    picked(
        slots.len() as int,
        |i: int|
            first_slot_of(slots, active) == Some(i) || (slots[i].peer.0 == PeerStatus::Online
                && slots[i].addr != active),
    ).map_values(
        |i: usize|
            (
                i,
                if slots[i as int].addr == active {
                    TurnStatus::Ready(phase)
                } else {
                    TurnStatus::Wait
                },
            ),
    )
}

/// What `first_slot_of` finds: the first slot at the address, if there is one.
proof fn lemma_first_slot_facts<T>(slots: Seq<PeerSlot<T>>, addr: PlayerId)
    ensures
        first_slot_of(slots, addr) matches Some(i) ==> 0 <= i < slots.len() && slots[i].addr == addr
            && forall|j: int| 0 <= j < i ==> slots[j].addr != addr,
        first_slot_of(slots, addr) is None ==> forall|j: int| 0 <= j < slots.len() ==> slots[j].addr != addr,
{
    if exists|i: int| 0 <= i < slots.len() && slots[i].addr == addr {
        let i = choose|i: int| 0 <= i < slots.len() && slots[i].addr == addr;
        lemma_first_slot_minimal(slots, addr, i);
    }
}

/// Below any slot at an address there is a first one.
proof fn lemma_first_slot_minimal<T>(slots: Seq<PeerSlot<T>>, addr: PlayerId, i: int)
    requires
        0 <= i < slots.len(),
        slots[i].addr == addr,
    ensures
        exists|c: int|
            0 <= c < slots.len() && slots[c].addr == addr && forall|j: int| 0 <= j < c ==> slots[j].addr != addr,
    decreases i,
{
    if exists|j: int| 0 <= j < i && slots[j].addr == addr {
        let j = choose|j: int| 0 <= j < i && slots[j].addr == addr;
        lemma_first_slot_minimal(slots, addr, j);
    } else {
        assert(forall|j: int| 0 <= j < i ==> slots[j].addr != addr);
    }
}

/// Who is told what when a turn starts, in every phase: the active player's peer (the
/// first slot at its address) is told `Ready` with the phase, whether or not it is
/// connected; every other notice is a `Wait`, to a connected peer at another address, and
/// every such peer gets one; each slot is told at most once, in room order.
pub proof fn lemma_turn_notice_rules<H>(
    slots: Seq<PeerSlot<(PeerStatus, H)>>,
    active: PlayerId,
    phase: GamePhaseKind,
)
    requires
        slots.len() <= usize::MAX,
    ensures
        ({
            let r = turn_notices(slots, active, phase);
            &&& first_slot_of(slots, active) matches Some(i) ==> exists|m: int|
                0 <= m < r.len() && r[m] == (i as usize, TurnStatus::Ready(phase))
            &&& forall|m: int|
                0 <= m < r.len() && (#[trigger] r[m]).1 != TurnStatus::Wait ==> first_slot_of(slots, active)
                    == Some(r[m].0 as int) && r[m].1 == TurnStatus::Ready(phase)
            &&& forall|m: int|
                0 <= m < r.len() && (#[trigger] r[m]).1 == TurnStatus::Wait ==> r[m].0 < slots.len()
                    && slots[r[m].0 as int].peer.0 == PeerStatus::Online && slots[r[m].0 as int].addr
                    != active
            &&& forall|j: int|
                0 <= j < slots.len() && (#[trigger] slots[j]).peer.0 == PeerStatus::Online
                    && slots[j].addr != active ==> exists|m: int|
                    0 <= m < r.len() && r[m] == (j as usize, TurnStatus::Wait)
            &&& forall|m1: int, m2: int|
                0 <= m1 < m2 < r.len() ==> (#[trigger] r[m1]).0 < (#[trigger] r[m2]).0
        }),
{
    let fs = first_slot_of(slots, active);
    lemma_first_slot_facts(slots, active);
    let pick = |i: int|
        first_slot_of(slots, active) == Some(i) || (slots[i].peer.0 == PeerStatus::Online
            && slots[i].addr != active);
    let f = |i: usize|
        (
            i,
            if slots[i as int].addr == active {
                TurnStatus::Ready(phase)
            } else {
                TurnStatus::Wait
            },
        );
    let ps = picked(slots.len() as int, pick);
    let r = turn_notices(slots, active, phase);
    assert(r == ps.map_values(f));
    assert(r.len() == ps.len());
    assert(forall|m: int| 0 <= m < ps.len() ==> #[trigger] r[m] == f(ps[m]));
    lemma_picked(slots.len() as int, pick);
    assert forall|i: int|
        0 <= i < slots.len() && (fs == Some(i) || (slots[i].peer.0 == PeerStatus::Online
            && slots[i].addr != active)) implies exists|m: int| 0 <= m < ps.len() && ps[m] == i by {
        assert(pick(i));
    }
    assert forall|m: int| 0 <= m < ps.len() implies 0 <= #[trigger] ps[m] < slots.len() && (fs == Some(
        ps[m] as int,
    ) || (slots[ps[m] as int].peer.0 == PeerStatus::Online && slots[ps[m] as int].addr != active)) by {
        assert(pick(ps[m] as int));
    }
    lemma_notices_ready(slots, active, phase, fs, ps, r);
    lemma_notices_wait(slots, active, phase, fs, ps, r);
    assert forall|m1: int, m2: int| 0 <= m1 < m2 < r.len() implies (#[trigger] r[m1]).0 < (#[trigger] r[
        m2]).0 by {
        assert(r[m1] == f(ps[m1]));
        assert(r[m2] == f(ps[m2]));
        assert(ps[m1] < ps[m2]);
    }
}

/// The `Ready` notice of `lemma_turn_notice_rules`.
proof fn lemma_notices_ready<H>(
    slots: Seq<PeerSlot<(PeerStatus, H)>>,
    active: PlayerId,
    phase: GamePhaseKind,
    fs: Option<int>,
    ps: Seq<usize>,
    r: Seq<(usize, TurnStatus)>,
)
    requires
        fs matches Some(i) ==> 0 <= i < slots.len() && slots[i].addr == active && forall|j: int|
            0 <= j < i ==> slots[j].addr != active,
        fs is None ==> forall|j: int| 0 <= j < slots.len() ==> slots[j].addr != active,
        r.len() == ps.len(),
        forall|m: int|
            0 <= m < ps.len() ==> 0 <= #[trigger] ps[m] < slots.len() && (fs == Some(ps[m] as int) || (
            slots[ps[m] as int].peer.0 == PeerStatus::Online && slots[ps[m] as int].addr != active)),
        forall|i: int|
            0 <= i < slots.len() && (fs == Some(i) || (slots[i].peer.0 == PeerStatus::Online
                && slots[i].addr != active)) ==> exists|m: int| 0 <= m < ps.len() && ps[m] == i,
        forall|m: int|
            0 <= m < ps.len() ==> #[trigger] r[m] == (
                ps[m],
                if slots[ps[m] as int].addr == active {
                    TurnStatus::Ready(phase)
                } else {
                    TurnStatus::Wait
                },
            ),
    ensures
        fs matches Some(i) ==> exists|m: int|
            0 <= m < r.len() && r[m] == (i as usize, TurnStatus::Ready(phase)),
        forall|m: int|
            0 <= m < r.len() && (#[trigger] r[m]).1 != TurnStatus::Wait ==> fs == Some(r[m].0 as int)
                && r[m].1 == TurnStatus::Ready(phase),
{
    if let Some(i) = fs {
        let m = choose|m: int| 0 <= m < ps.len() && ps[m] == i;
        assert(r[m] == (i as usize, TurnStatus::Ready(phase)));
    }
    assert forall|m: int| 0 <= m < r.len() && (#[trigger] r[m]).1 != TurnStatus::Wait implies fs == Some(
        r[m].0 as int,
    ) && r[m].1 == TurnStatus::Ready(phase) by {
        assert(0 <= ps[m] < slots.len());
    }
}

/// The `Wait` notices of `lemma_turn_notice_rules`.
proof fn lemma_notices_wait<H>(
    slots: Seq<PeerSlot<(PeerStatus, H)>>,
    active: PlayerId,
    phase: GamePhaseKind,
    fs: Option<int>,
    ps: Seq<usize>,
    r: Seq<(usize, TurnStatus)>,
)
    requires
        fs matches Some(i) ==> 0 <= i < slots.len() && slots[i].addr == active,
        r.len() == ps.len(),
        forall|m: int|
            0 <= m < ps.len() ==> 0 <= #[trigger] ps[m] < slots.len() && (fs == Some(ps[m] as int) || (
            slots[ps[m] as int].peer.0 == PeerStatus::Online && slots[ps[m] as int].addr != active)),
        forall|i: int|
            0 <= i < slots.len() && (fs == Some(i) || (slots[i].peer.0 == PeerStatus::Online
                && slots[i].addr != active)) ==> exists|m: int| 0 <= m < ps.len() && ps[m] == i,
        forall|m: int|
            0 <= m < ps.len() ==> #[trigger] r[m] == (
                ps[m],
                if slots[ps[m] as int].addr == active {
                    TurnStatus::Ready(phase)
                } else {
                    TurnStatus::Wait
                },
            ),
    ensures
        forall|m: int|
            0 <= m < r.len() && (#[trigger] r[m]).1 == TurnStatus::Wait ==> r[m].0 < slots.len()
                && slots[r[m].0 as int].peer.0 == PeerStatus::Online && slots[r[m].0 as int].addr != active,
        forall|j: int|
            0 <= j < slots.len() && (#[trigger] slots[j]).peer.0 == PeerStatus::Online && slots[j].addr
                != active ==> exists|m: int| 0 <= m < r.len() && r[m] == (j as usize, TurnStatus::Wait),
{
    assert forall|m: int| 0 <= m < r.len() && (#[trigger] r[m]).1 == TurnStatus::Wait implies r[m].0
        < slots.len() && slots[r[m].0 as int].peer.0 == PeerStatus::Online && slots[r[m].0 as int].addr
        != active by {
        assert(0 <= ps[m] < slots.len());
    }
    assert forall|j: int|
        0 <= j < slots.len() && (#[trigger] slots[j]).peer.0 == PeerStatus::Online && slots[j].addr
            != active implies exists|m: int| 0 <= m < r.len() && r[m] == (j as usize, TurnStatus::Wait) by {
        let m = choose|m: int| 0 <= m < ps.len() && ps[m] == j;
        assert(r[m] == (j as usize, TurnStatus::Wait));
    }
}

impl GameServer {
    /// The notices of the current turn for the peers of `room`, as `turn_notices` gives them.
    #[verifier::spinoff_prover]
    #[verifier::rlimit(40)]
    pub fn turn_notices<H>(&self, room: &Room<(PeerStatus, H)>) -> (r: Vec<(usize, TurnStatus)>)
        requires
            self.wf(),
        ensures
            r@ == turn_notices(room.slots(), self.players.items@[self.active_index()], self.phase),
    {
        let active = self.active_player();
        let first = room.position(active);
        let ghost fs = first_slot_of(room.slots(), active);
        let ghost pick = |i: int|
            fs == Some(i) || (room.slots()[i].peer.0 == PeerStatus::Online && room.slots()[i].addr
                != active);
        let ghost f = |i: usize|
            (
                i,
                if room.slots()[i as int].addr == active {
                    TurnStatus::Ready(self.phase)
                } else {
                    TurnStatus::Wait
                },
            );
        let mut r: Vec<(usize, TurnStatus)> = Vec::new();
        let mut i: usize = 0;
        while i < room.0.len()
            invariant
                i <= room.slots().len(),
                first matches Some(k) ==> fs == Some(k as int) && room.slots()[k as int].addr == active,
                first is None ==> fs is None,
                pick == (|i: int|
                    fs == Some(i) || (room.slots()[i].peer.0 == PeerStatus::Online
                        && room.slots()[i].addr != active)),
                f == (|i: usize|
                    (
                        i,
                        if room.slots()[i as int].addr == active {
                            TurnStatus::Ready(self.phase)
                        } else {
                            TurnStatus::Wait
                        },
                    )),
                r@ == picked(i as int, pick).map_values(f),
            decreases room.slots().len() - i,
        {
            let is_first = match first {
                Some(k) => k == i,
                None => false,
            };
            let other = room.0[i].peer.0 == PeerStatus::Online && room.0[i].addr != active;
            if is_first || other {
                let status = if is_first {
                    TurnStatus::Ready(self.phase)
                } else {
                    TurnStatus::Wait
                };
                r.push((i, status));
                proof {
                    assert(pick(i as int));
                    assert(picked(i + 1, pick) == picked(i as int, pick).push(i));
                    assert(picked(i + 1, pick).map_values(f) =~= picked(i as int, pick).map_values(f).push(f(i)));
                }
            } else {
                proof {
                    assert(!pick(i as int));
                    assert(picked(i + 1, pick) == picked(i as int, pick));
                }
            }
            i = i + 1;
        }
        proof {
            let spec_pick = |i: int|
                first_slot_of(room.slots(), active) == Some(i) || (room.slots()[i].peer.0
                    == PeerStatus::Online && room.slots()[i].addr != active);
            assert(pick =~= spec_pick);
        }
        r
    }

    /// Ends the active player's phase as `switch_to_next_player` does, and gives the new
    /// active player and the notices of the new turn for the peers of `room`.
    pub fn next_turn<H>(&mut self, room: &Room<(PeerStatus, H)>) -> (r: (PlayerId, Vec<(usize, TurnStatus)>))
        requires
            old(self).wf(),
        ensures
            final(self).wf(),
            final(self).players.items@ == old(self).players.items@,
            (final(self).phase, final(self).active_index()) == turn_step(
                (old(self).phase, old(self).active_index()),
                old(self).player_count(),
            ),
            final(self).monsters.items@ == old(self).monsters.items@,
            deals_monsters(old(self).phase, old(self).active_index(), old(self).player_count())
                ==> final(self).monsters.actives@ == advance(
                old(self).monsters.actives@,
                2,
                old(self).monsters.items@.len() as int,
            ),
            !deals_monsters(old(self).phase, old(self).active_index(), old(self).player_count())
                ==> final(self).monsters.actives@ == old(self).monsters.actives@,
            turn_passed(*old(self), old(self).monsters.actives@, *final(self)),
            r.0 == final(self).players.items@[final(self).active_index()],
            r.1@ == turn_notices(room.slots(), r.0, final(self).phase),
    {
        let next = self.switch_to_next_player();
        let notices = self.turn_notices(room);
        (next, notices)
    }
}

/// The turn order of a game: the players in their seating order with one of them active,
/// the monsters on the table, and the phase of the turn.
pub struct GameServer {
    pub players: Stateble<PlayerId, 1>,
    pub monsters: Stateble<Card, 2>,
    pub phase: GamePhaseKind,
}

impl GameServer {
    /// There is at least one player, exactly one is active, and two monsters are dealt.
    pub open spec fn wf(&self) -> bool {
        &&& self.players.wf()
        &&& self.players.actives@[0] is Enable
        &&& self.monsters.wf()
    }

    /// The index of the active player.
    pub open spec fn active_index(&self) -> int {
        self.players.actives@[0].index()
    }

    /// The number of players.
    pub open spec fn player_count(&self) -> int {
        self.players.items@.len() as int
    }

    /// A game of the players in the room's order: the first player is active, the phase is
    /// dropping an ability, and the first two cards of `monsters` are on the table.
    pub fn with_monsters(players: Vec<PlayerId>, monsters: Deck) -> (g: GameServer)
        requires
            players@.len() >= 1,
            monsters.card_seq().len() >= 2,
        ensures
            g.wf(),
            g.players.items@ == players@,
            g.active_index() == 0,
            g.monsters.items@ == monsters.card_seq(),
            g.monsters.actives@ == initial_actives(2),
            g.phase == GamePhaseKind::DropAbility,
    {
        let players = Stateble::<PlayerId, 1>::with_items(players);
        let monsters = Stateble::<Card, 2>::with_items(monsters.card_vec());
        GameServer { players, monsters, phase: GamePhaseKind::DropAbility }
    }

    /// A game of the players in the room's order, with a shuffled full deck of monsters.
    pub fn new(players: Vec<PlayerId>) -> (g: GameServer)
        requires
            players@.len() >= 1,
        ensures
            g.wf(),
            g.players.items@ == players@,
            g.active_index() == 0,
            g.monsters.items@.len() == DECK_SIZE,
            g.monsters.items@.to_multiset() == crate::game::full_deck().to_multiset(),
            g.monsters.actives@ == initial_actives(2),
            g.phase == GamePhaseKind::DropAbility,
    {
        let mut monsters = Deck::default();
        monsters.shuffle();
        GameServer::with_monsters(players, monsters)
    }

    /// A player that reconnected from address `to` takes the seat of its former address
    /// `from`, the first seat at that address; the turn is unchanged.
    pub fn replace_player(&mut self, from: PlayerId, to: PlayerId) -> (r: Result<(), PeerNotFound>)
        requires
            old(self).wf(),
        ensures
            final(self).wf(),
            final(self).phase == old(self).phase,
            final(self).monsters == old(self).monsters,
            final(self).players.actives == old(self).players.actives,
            r is Ok <==> old(self).players.items@.contains(from),
            r matches Err(e) ==> e == PeerNotFound(from) && final(self).players.items@ == old(
                self).players.items@,
            r is Ok ==> final(self).players.items@ == old(self).players.items@.update(
                crate::server::details::first_index_of(old(self).players.items@, from),
                to,
            ),
    {
        let mut i: usize = 0;
        while i < self.players.items.len()
            invariant
                *self == *old(self),
                old(self).wf(),
                i <= self.players.items@.len(),
                forall|q: int| 0 <= q < i ==> self.players.items@[q] != from,
            decreases self.players.items@.len() - i,
        {
            if self.players.items[i] == from {
                proof {
                    crate::server::details::lemma_first_index_of(self.players.items@, from, i as int);
                }
                self.players.items.set(i, to);
                return Ok(());
            }
            i = i + 1;
        }
        Err(PeerNotFound(from))
    }

    /// The active player.
    pub fn active_player(&self) -> (p: PlayerId)
        requires
            self.wf(),
        ensures
            p == self.players.items@[self.active_index()],
    {
        let k = self.players.actives[0].unwrap_index();
        self.players.items[k]
    }

    /// Ends the active player's phase: the turn passes as `turn_step` says, the next
    /// monsters are dealt after the last player defended, and the new active player is
    /// returned.
    pub fn switch_to_next_player(&mut self) -> (p: PlayerId)
        requires
            old(self).wf(),
        ensures
            final(self).wf(),
            final(self).players.items@ == old(self).players.items@,
            (final(self).phase, final(self).active_index()) == turn_step(
                (old(self).phase, old(self).active_index()),
                old(self).player_count(),
            ),
            final(self).monsters.items@ == old(self).monsters.items@,
            deals_monsters(old(self).phase, old(self).active_index(), old(self).player_count())
                ==> final(self).monsters.actives@ == advance(
                old(self).monsters.actives@,
                2,
                old(self).monsters.items@.len() as int,
            ),
            !deals_monsters(old(self).phase, old(self).active_index(), old(self).player_count())
                ==> final(self).monsters.actives@ == old(self).monsters.actives@,
            turn_passed(*old(self), old(self).monsters.actives@, *final(self)),
            p == final(self).players.items@[final(self).active_index()],
    {
        let ghost k = self.active_index();
        let ghost len = self.player_count();
        match self.phase {
            GamePhaseKind::SelectAbility => {
                self.phase = GamePhaseKind::AttachMonster;
            },
            _ => {
                let wrapped = self.pass_turn();
                match self.phase {
                    GamePhaseKind::DropAbility => {
                        if wrapped {
                            self.phase = GamePhaseKind::SelectAbility;
                        }
                    },
                    GamePhaseKind::AttachMonster => {
                        self.phase = if wrapped {
                            GamePhaseKind::Defend
                        } else {
                            GamePhaseKind::SelectAbility
                        };
                    },
                    _ => {
                        if wrapped {
                            let _ = self.monsters.next_actives();
                            self.phase = GamePhaseKind::DropAbility;
                        }
                    },
                }
            },
        }
        self.active_player()
    }

    /// Disables the active player and enables the next one; after the last player the
    /// first one is active again. Returns whether the turn went back to the first player.
    fn pass_turn(&mut self) -> (wrapped: bool)
        requires
            old(self).wf(),
        ensures
            final(self).wf(),
            final(self).players.items@ == old(self).players.items@,
            final(self).monsters == old(self).monsters,
            final(self).phase == old(self).phase,
            wrapped == wraps(old(self).active_index(), old(self).player_count()),
            final(self).active_index() == next_index(
                old(self).active_index(),
                old(self).player_count(),
            ),
    {
        let ghost k = self.active_index();
        let ghost len = self.player_count();
        let i = self.players.actives[0].unwrap_index();
        let _count = self.players.items.len();
        proof {
            assert(self.players.actives@[0].index() == i);
            assert(crate::server::details::has_slot_for(self.players.actives@, i as int));
        }
        let r = self.players.deactivate_item_by_index(i);
        assert(r is Ok);
        assert(self.players.actives@ =~= seq![ActiveState::Disable(i)]);
        let ghost before = self.players.actives@;
        match self.players.next_actives() {
            Ok(()) => {
                proof {
                    reveal_with_fuel(crate::server::details::first_blocked_from, 2);
                    assert(crate::server::details::advanced_index(before[0], 1) == k + 1);
                    assert(crate::server::details::first_blocked_from(before, 1, len, 0) == 1);
                    assert(k + 1 < len);
                    assert(self.active_index() == k + 1);
                }
                false
            },
            Err(eof) => {
                proof {
                    reveal_with_fuel(crate::server::details::first_blocked_from, 2);
                    assert(crate::server::details::advanced_index(before[0], 1) == k + 1);
                    assert(crate::server::details::first_blocked_from(before, 1, len, 0) == 0);
                }
                self.players.repeat_after_eof(eof);
                assert(self.players.actives@[0] == ActiveState::Enable(0usize));
                true
            },
        }
    }
}

/// Passing the turn among `len` players from `(phase, k)` to `(phase', k')`: steps compose.
pub proof fn lemma_turn_steps_add(s: (GamePhaseKind, int), len: int, a: nat, b: nat)
    ensures
        turn_steps(s, len, a + b) == turn_steps(turn_steps(s, len, a), len, b),
    decreases a,
{
    if a > 0 {
        lemma_turn_steps_add(turn_step(s, len), len, (a - 1) as nat, b);
        assert((a + b - 1) as nat == (a - 1) as nat + b);
    }
}

/// From player `k` dropping abilities, the remaining players drop theirs, then the first
/// player selects an ability.
proof fn lemma_drop_run(k: int, len: int)
    requires
        0 <= k < len,
    ensures
        turn_steps((GamePhaseKind::DropAbility, k), len, (len - k) as nat) == (
            GamePhaseKind::SelectAbility,
            0int,
        ),
    decreases len - k,
{
    if k + 1 < len {
        lemma_drop_run(k + 1, len);
    } else {
        assert(turn_steps((GamePhaseKind::SelectAbility, 0int), len, 0) == (
            GamePhaseKind::SelectAbility,
            0int,
        ));
    }
}

/// From player `k` selecting an ability, each remaining player selects and attacks, then
/// the first player defends.
proof fn lemma_attack_run(k: int, len: int)
    requires
        0 <= k < len,
    ensures
        turn_steps((GamePhaseKind::SelectAbility, k), len, (2 * (len - k)) as nat) == (
            GamePhaseKind::Defend,
            0int,
        ),
    decreases len - k,
{
    let s1 = turn_step((GamePhaseKind::SelectAbility, k), len);
    assert(s1 == (GamePhaseKind::AttachMonster, k));
    let s2 = turn_step(s1, len);
    lemma_turn_steps_add((GamePhaseKind::SelectAbility, k), len, 2, (2 * (len - k) - 2) as nat);
    assert(turn_steps((GamePhaseKind::SelectAbility, k), len, 2) == s2) by {
        assert(turn_steps(s2, len, 0) == s2);
        assert(turn_steps(s1, len, 1) == turn_steps(s2, len, 0));
    }
    if k + 1 < len {
        assert(s2 == (GamePhaseKind::SelectAbility, k + 1));
        lemma_attack_run(k + 1, len);
        assert((2 * (len - k) - 2) as nat == (2 * (len - (k + 1))) as nat);
    } else {
        assert(s2 == (GamePhaseKind::Defend, 0int));
        assert((2 * (len - k) - 2) as nat == 0);
    }
}

/// From player `k` defending, the remaining players defend, then the first player drops
/// an ability.
proof fn lemma_defend_run(k: int, len: int)
    requires
        0 <= k < len,
    ensures
        turn_steps((GamePhaseKind::Defend, k), len, (len - k) as nat) == (
            GamePhaseKind::DropAbility,
            0int,
        ),
    decreases len - k,
{
    if k + 1 < len {
        lemma_defend_run(k + 1, len);
    } else {
        assert(turn_steps((GamePhaseKind::DropAbility, 0int), len, 0) == (
            GamePhaseKind::DropAbility,
            0int,
        ));
    }
}

/// A round of a game of `len` players has `4 * len` turns: every player drops an ability,
/// then every player selects an ability and attacks, then every player defends; after it
/// the first player drops an ability again.
pub proof fn lemma_turn_round(len: int)
    requires
        len >= 1,
    ensures
        turn_steps((GamePhaseKind::DropAbility, 0int), len, (4 * len) as nat) == (
            GamePhaseKind::DropAbility,
            0int,
        ),
        turn_steps((GamePhaseKind::DropAbility, 0int), len, len as nat) == (
            GamePhaseKind::SelectAbility,
            0int,
        ),
        turn_steps((GamePhaseKind::DropAbility, 0int), len, (3 * len) as nat) == (
            GamePhaseKind::Defend,
            0int,
        ),
{
    let start = (GamePhaseKind::DropAbility, 0int);
    lemma_drop_run(0, len);
    lemma_attack_run(0, len);
    lemma_defend_run(0, len);
    lemma_turn_steps_add(start, len, len as nat, (2 * len) as nat);
    assert(len as nat + (2 * len) as nat == (3 * len) as nat);
    lemma_turn_steps_add(start, len, (3 * len) as nat, len as nat);
    assert((3 * len) as nat + len as nat == (4 * len) as nat);
}

/// The active player after any number of steps is one of the players.
pub proof fn lemma_turn_steps_in_room(s: (GamePhaseKind, int), len: int, n: nat)
    requires
        0 <= s.1 < len,
    ensures
        0 <= turn_steps(s, len, n).1 < len,
    decreases n,
{
    if n > 0 {
        lemma_turn_steps_in_room(turn_step(s, len), len, (n - 1) as nat);
    }
}


/// A peer of the role selection with the role it holds, as its peer actor reports it.
#[derive(Debug, Clone, Copy, PartialEq, Eq, Structural)]
pub struct RolePeer {
    pub addr: PlayerId,
    pub role: Option<Role>,
}

/// Whether some peer holds `role`.
pub open spec fn role_taken(peers: Seq<RolePeer>, role: Role) -> bool {
    exists|i: int| 0 <= i < peers.len() && (#[trigger] peers[i]).role == Some(role)
}

/// The status of a role: taken if a peer holds it.
pub open spec fn role_status(peers: Seq<RolePeer>, role: Role) -> RoleStatus {
    if role_taken(peers, role) {
        RoleStatus::NotAvailable(role)
    } else {
        RoleStatus::Available(role)
    }
}

/// No two peers hold the same role.
pub open spec fn roles_unique(peers: Seq<RolePeer>) -> bool {
    forall|i: int, j: int|
        0 <= i < peers.len() && 0 <= j < peers.len() && i != j && (#[trigger] peers[i]).role
            is Some ==> peers[i].role != (#[trigger] peers[j]).role
}

/// Whether some peer holds `role`.
fn is_role_taken(peers: &Vec<RolePeer>, role: Role) -> (r: bool)
    ensures
        r == role_taken(peers@, role),
{
    let mut i: usize = 0;
    while i < peers.len()
        invariant
            i <= peers@.len(),
            forall|j: int| 0 <= j < i ==> (#[trigger] peers@[j]).role != Some(role),
        decreases peers@.len() - i,
    {
        if peers[i].role == Some(role) {
            return true;
        }
        i = i + 1;
    }
    false
}

/// The status of every role, in role order: taken if some peer holds it, else available.
pub fn collect_roles(peers: &Vec<RolePeer>) -> (r: [RoleStatus; 4])
    ensures
        forall|i: int| 0 <= i < 4 ==> r@[i] == role_status(peers@, all_roles()[i]),
{
    let roles = Role::all();
    let mut out = [RoleStatus::Available(Role::Warrior); 4];
    let mut i: usize = 0;
    while i < 4
        invariant
            i <= 4,
            roles@ == all_roles(),
            out@.len() == 4,
            forall|j: int| 0 <= j < i ==> out@[j] == role_status(peers@, all_roles()[j]),
        decreases 4 - i,
    {
        let role = roles[i];
        let status = if is_role_taken(peers, role) {
            RoleStatus::NotAvailable(role)
        } else {
            RoleStatus::Available(role)
        };
        out[i] = status;
        i = i + 1;
    }
    out
}

/// The answer to `sender` asking for `role`: refused if a peer holds it already (busy if it
/// is another peer, already selected if it is the sender); granted otherwise.
pub open spec fn select_role_answer(peers: Seq<RolePeer>, sender: PlayerId, role: Role) -> Result<
    Role,
    SelectRoleError,
> {
    if role_taken(peers, role) {
        let i = choose|i: int|
            0 <= i < peers.len() && peers[i].role == Some(role) && forall|j: int|
                0 <= j < i ==> peers[j].role != Some(role);
        if peers[i].addr != sender {
            Err(SelectRoleError::Busy)
        } else {
            Err(SelectRoleError::AlreadySelected)
        }
    } else {
        Ok(role)
    }
}

/// The addresses of the peers of the role selection, in order.
pub open spec fn role_addrs(peers: Seq<RolePeer>) -> Seq<PlayerId> {
    peers.map_values(|p: RolePeer| p.addr)
}

/// Answers `sender` asking for `role`, as `select_role_answer` says. When the role is
/// granted the sender's peer (the first at its address) takes it and no other peer
/// changes; when it is refused no peer changes.
pub fn set_role_for_peer(peers: &mut Vec<RolePeer>, sender: PlayerId, role: Role) -> (r: Result<
    Role,
    SelectRoleError,
>)
    requires
        role_taken(old(peers)@, role) || role_addrs(old(peers)@).contains(sender),
    ensures
        r == select_role_answer(old(peers)@, sender, role),
        r is Err ==> final(peers)@ == old(peers)@,
        r is Ok ==> final(peers)@ == with_role(
            old(peers)@,
            first_index_of(role_addrs(old(peers)@), sender),
            role,
        ),
{
    let mut i: usize = 0;
    while i < peers.len()
        invariant
            *peers == *old(peers),
            i <= peers@.len(),
            forall|j: int| 0 <= j < i ==> (#[trigger] peers@[j]).role != Some(role),
        decreases peers@.len() - i,
    {
        if peers[i].role == Some(role) {
            proof {
                let c = choose|c: int|
                    0 <= c < peers@.len() && peers@[c].role == Some(role) && forall|j: int|
                        0 <= j < c ==> peers@[j].role != Some(role);
                assert(role_taken(peers@, role));
                assert(0 <= c < peers@.len() && peers@[c].role == Some(role) && forall|j: int|
                    0 <= j < c ==> peers@[j].role != Some(role));
                if c < i {
                    assert(peers@[c].role != Some(role));
                } else if c > i {
                    assert(peers@[i as int].role != Some(role));
                }
            }
            return if peers[i].addr != sender {
                Err(SelectRoleError::Busy)
            } else {
                Err(SelectRoleError::AlreadySelected)
            };
        }
        i = i + 1;
    }
    proof {
        assert(!role_taken(peers@, role));
    }
    let ghost addrs = role_addrs(peers@);
    let mut k: usize = 0;
    while k < peers.len()
        invariant
            *peers == *old(peers),
            addrs == role_addrs(peers@),
            addrs.contains(sender),
            !role_taken(old(peers)@, role),
            k <= peers@.len(),
            forall|j: int| 0 <= j < k ==> addrs[j] != sender,
        decreases peers@.len() - k,
    {
        if peers[k].addr == sender {
            proof {
                assert(addrs[k as int] == sender);
                crate::server::details::lemma_first_index_of(addrs, sender, k as int);
            }
            peers.set(k, RolePeer { addr: sender, role: Some(role) });
            proof {
                assert(peers@ =~= with_role(old(peers)@, k as int, role));
            }
            return Ok(role);
        }
        proof {
            assert(addrs[k as int] != sender);
        }
        k = k + 1;
    }
    proof {
        let w = choose|w: int| 0 <= w < addrs.len() && addrs[w] == sender;
        assert(addrs[w] == sender);
    }
    Ok(role)
}

/// The event that the other peers read when a peer takes a role: its name, " select " and
/// the role's name.
pub fn role_selected_event(username: &Username, role: Role) -> (line: ChatLine)
    ensures
        line matches ChatLine::GameEvent(t) && t@ == username@ + " select "@ + role_name(role),
{
    let head = concat(username.0.as_str(), " select ");
    ChatLine::GameEvent(concat(head.as_str(), role.name()))
}

/// The index of the last peer, among peers known with their names, that goes by `name`.
pub fn find_last_by_name(peers: &Vec<(PlayerId, Username)>, name: &Username) -> (r: Option<usize>)
    ensures
        r matches Some(i) ==> i < peers@.len() && peers@[i as int].1@ == name@ && forall|j: int|
            i < j < peers@.len() ==> (#[trigger] peers@[j]).1@ != name@,
        r is None ==> forall|j: int| 0 <= j < peers@.len() ==> (#[trigger] peers@[j]).1@ != name@,
{
    let mut i: usize = peers.len();
    while i > 0
        invariant
            i <= peers@.len(),
            forall|j: int| i <= j < peers@.len() ==> (#[trigger] peers@[j]).1@ != name@,
        decreases i,
    {
        if peers[i - 1].1.same_as(name) {
            return Some(i - 1);
        }
        i = i - 1;
    }
    None
}

/// The index of the first peer, among peers known with their names, that goes by `name`.
pub fn find_by_name(peers: &Vec<(PlayerId, Username)>, name: &Username) -> (r: Option<usize>)
    ensures
        r matches Some(i) ==> i < peers@.len() && peers@[i as int].1@ == name@ && forall|j: int|
            0 <= j < i ==> (#[trigger] peers@[j]).1@ != name@,
        r is None ==> forall|j: int| 0 <= j < peers@.len() ==> (#[trigger] peers@[j]).1@ != name@,
{
    let mut i: usize = 0;
    while i < peers.len()
        invariant
            i <= peers@.len(),
            forall|j: int| 0 <= j < i ==> (#[trigger] peers@[j]).1@ != name@,
        decreases peers@.len() - i,
    {
        if peers[i].1.same_as(name) {
            return Some(i);
        }
        i = i + 1;
    }
    None
}

/// The roles that the peers of a role selection hold, with their addresses.
pub open spec fn room_roles(slots: Seq<PeerSlot<(PeerStatus, Peer<peer::Roles>)>>) -> Seq<RolePeer> {
    slots.map_values(
        |s: PeerSlot<(PeerStatus, Peer<peer::Roles>)>|
            RolePeer { addr: s.addr, role: s.peer.1.state.selected_role },
    )
}

/// The peer of the role selection that a peer of the lobby becomes: the same name, no role.
pub open spec fn roles_peer_of(home: Peer<peer::Home>) -> Peer<peer::Roles> {
    Peer { username: home.username, state: peer::Roles { selected_role: None } }
}

/// Every peer of the lobby as a peer of the role selection, in the room's order.
fn into_roles_slots(slots: Vec<PeerSlot<Peer<peer::Home>>>) -> (r: Vec<PeerSlot<Peer<peer::Roles>>>)
    ensures
        r@.len() == slots@.len(),
        forall|i: int|
            0 <= i < slots@.len() ==> (#[trigger] r@[i]).addr == slots@[i].addr && r@[i].peer
                == roles_peer_of(slots@[i].peer),
{
    let ghost given = slots@;
    let mut rest = slots;
    let mut reversed: Vec<PeerSlot<Peer<peer::Home>>> = Vec::new();
    while rest.len() > 0
        invariant
            reversed@.len() + rest@.len() == given.len(),
            rest@ == given.take(rest@.len() as int),
            forall|k: int| 0 <= k < reversed@.len() ==> #[trigger] reversed@[k] == given[given.len() - 1 - k],
        decreases rest@.len(),
    {
        let slot = rest.pop().unwrap();
        reversed.push(slot);
        proof {
            assert(rest@ =~= given.take(rest@.len() as int));
        }
    }
    let mut out: Vec<PeerSlot<Peer<peer::Roles>>> = Vec::new();
    while reversed.len() > 0
        invariant
            out@.len() + reversed@.len() == given.len(),
            forall|k: int| 0 <= k < reversed@.len() ==> #[trigger] reversed@[k] == given[given.len() - 1 - k],
            forall|i: int|
                0 <= i < out@.len() ==> (#[trigger] out@[i]).addr == given[i].addr && out@[i].peer
                    == roles_peer_of(given[i].peer),
        decreases reversed@.len(),
    {
        let slot = reversed.pop().unwrap();
        proof {
            assert(slot == given[out@.len() as int]);
        }
        let chooser = Peer::<peer::Roles>::from_home(slot.peer);
        out.push(PeerSlot { addr: slot.addr, peer: chooser });
    }
    out
}

/// The role selection starts only from a full lobby: the same peers in the same order, all
/// connected and none with a role. A lobby that is not full is handed back unchanged.
pub fn start_roles(room: Room<Peer<peer::Home>>) -> (r: Result<
    Room<(PeerStatus, Peer<peer::Roles>)>,
    Room<Peer<peer::Home>>,
>)
    requires
        room.wf(),
    ensures
        r is Ok <==> room.slots().len() == MAX_PLAYER_COUNT,
        r matches Err(x) ==> x == room,
        r matches Ok(x) ==> {
            &&& x.wf()
            &&& x.slots().len() == room.slots().len()
            &&& forall|i: int|
                0 <= i < room.slots().len() ==> (#[trigger] x.slots()[i]).addr == room.slots()[i].addr
                    && x.slots()[i].peer == (PeerStatus::Online, roles_peer_of(room.slots()[i].peer))
        },
{
    if !room.is_full() {
        return Err(room);
    }
    Ok(Room::all_online(into_roles_slots(room.0)))
}

/// Every player of a game room holds a well-formed hand.
pub open spec fn players_wf(slots: Seq<PeerSlot<(PeerStatus, Peer<peer::Game>)>>) -> bool {
    forall|i: int| 0 <= i < slots.len() ==> (#[trigger] slots[i]).peer.1.state.wf()
}

/// A move of the peer at `sender`: only the active player may move, and anyone else is
/// answered with the active player's name while nothing changes. The active player's move
/// is made on its own peer (the first slot at its address) as `peer::move_made` says, and
/// no other slot changes.
pub fn play_move(
    turns: &mut GameServer,
    peers: &mut Room<(PeerStatus, Peer<peer::Game>)>,
    sender: PlayerId,
    action: peer::GameAction,
) -> (r: Result<Result<PlayerId, peer::GameCmdError>, Username>)
    requires
        old(turns).wf(),
        old(peers).wf(),
        players_wf(old(peers).slots()),
        first_slot_of(old(peers).slots(), sender) is Some,
        first_slot_of(old(peers).slots(), old(turns).players.items@[old(turns).active_index()]) is Some,
    ensures
        final(turns).wf(),
        final(peers).wf(),
        players_wf(final(peers).slots()),
        ({
            let active = old(turns).players.items@[old(turns).active_index()];
            let a = first_slot_of(old(peers).slots(), active)->0;
            sender != active ==> (r matches Err(name) && name@ == old(peers).slots()[a].peer.1.username@)
                && *final(turns) == *old(turns) && final(peers).slots() == old(peers).slots()
        }),
        ({
            let active = old(turns).players.items@[old(turns).active_index()];
            let k = first_slot_of(old(peers).slots(), sender)->0;
            let before = old(peers).slots()[k];
            let after = final(peers).slots()[k];
            sender == active ==> (r matches Ok(m) && {
                &&& final(peers).slots() == old(peers).slots().update(
                    k,
                    PeerSlot {
                        addr: before.addr,
                        peer: (
                            before.peer.0,
                            Peer { username: before.peer.1.username, state: after.peer.1.state },
                        ),
                    },
                )
                &&& peer::move_made(
                    action,
                    before.peer.1.state,
                    *old(turns),
                    after.peer.1.state,
                    *final(turns),
                    m,
                )
            })
        }),
{
    let active = turns.active_player();
    if sender != active {
        let a = peers.position(active).unwrap();
        let name = Username(peers.0[a].peer.1.username.0.clone());
        return Err(name);
    }
    let k = peers.position(sender).unwrap();
    let ghost before = peers.slots();
    let r = match action {
        peer::GameAction::Drop(a) => peer::drop_and_pass(&mut peers.0[k].peer.1.state, turns, a),
        peer::GameAction::Select(a) => peer::select_and_pass(&mut peers.0[k].peer.1.state, turns, a),
        peer::GameAction::Attack(c) => peer::attack_and_pass(&peers.0[k].peer.1.state, turns, c),
        peer::GameAction::Continue => Ok(peer::continue_and_pass(&mut peers.0[k].peer.1.state, turns)),
    };
    proof {
        assert(before[k as int].peer.1.state.wf());
        assert(peers.slots() =~= before.update(
            k as int,
            PeerSlot {
                addr: before[k as int].addr,
                peer: (
                    before[k as int].peer.0,
                    Peer { username: before[k as int].peer.1.username, state: peers.slots()[k as int].peer.1.state },
                ),
            },
        ));
    }
    Ok(r)
}

/// The addresses of the slots, in order.
pub open spec fn slot_addrs<T>(slots: Seq<PeerSlot<T>>) -> Seq<PlayerId> {
    slots.map_values(|s: PeerSlot<T>| s.addr)
}

/// Every peer of the role selection as the player it becomes, in the room's order.
fn into_game_slots(slots: Vec<PeerSlot<(PeerStatus, Peer<peer::Roles>)>>) -> (r: Vec<
    PeerSlot<Peer<peer::Game>>,
>)
    requires
        forall|i: int| 0 <= i < slots@.len() ==> (#[trigger] slots@[i]).peer.1.state.selected_role is Some,
    ensures
        r@.len() == slots@.len(),
        forall|i: int|
            0 <= i < slots@.len() ==> (#[trigger] r@[i]).addr == slots@[i].addr
                && peer::game_peer_of(r@[i].peer, slots@[i].peer.1),
{
    let ghost given = slots@;
    let mut rest = slots;
    let mut reversed: Vec<PeerSlot<(PeerStatus, Peer<peer::Roles>)>> = Vec::new();
    while rest.len() > 0
        invariant
            reversed@.len() + rest@.len() == given.len(),
            rest@ == given.take(rest@.len() as int),
            forall|k: int| 0 <= k < reversed@.len() ==> #[trigger] reversed@[k] == given[given.len() - 1 - k],
        decreases rest@.len(),
    {
        let slot = rest.pop().unwrap();
        reversed.push(slot);
        proof {
            assert(rest@ =~= given.take(rest@.len() as int));
        }
    }
    let mut out: Vec<PeerSlot<Peer<peer::Game>>> = Vec::new();
    while reversed.len() > 0
        invariant
            forall|i: int| 0 <= i < given.len() ==> (#[trigger] given[i]).peer.1.state.selected_role is Some,
            out@.len() + reversed@.len() == given.len(),
            forall|k: int| 0 <= k < reversed@.len() ==> #[trigger] reversed@[k] == given[given.len() - 1 - k],
            forall|i: int|
                0 <= i < out@.len() ==> (#[trigger] out@[i]).addr == given[i].addr
                    && peer::game_peer_of(out@[i].peer, given[i].peer.1),
        decreases reversed@.len(),
    {
        let slot = reversed.pop().unwrap();
        proof {
            assert(slot == given[out@.len() as int]);
        }
        let player = Peer::<peer::Game>::from_roles(slot.peer.1);
        out.push(PeerSlot { addr: slot.addr, peer: player });
    }
    out
}

impl Room<(PeerStatus, Peer<peer::Roles>)> {
    /// Starts the game once every peer holds a role: the players sit in the room's order,
    /// the first one active, and every peer comes back online as the player of its role.
    /// While a peer has no role the room is handed back unchanged.
    pub fn start_game(self) -> (r: Result<(GameServer, Room<(PeerStatus, Peer<peer::Game>)>), Self>)
        requires
            self.wf(),
            self.slots().len() >= 1,
        ensures
            r is Ok <==> forall|i: int|
                0 <= i < self.slots().len() ==> (#[trigger] self.slots()[i]).peer.1.state.selected_role is Some,
            r matches Err(room) ==> room == self,
            r matches Ok((g, players)) ==> {
                &&& g.wf()
                &&& g.players.items@ == slot_addrs(self.slots())
                &&& g.active_index() == 0
                &&& g.monsters.items@.len() == DECK_SIZE
                &&& g.monsters.items@.to_multiset() == crate::game::full_deck().to_multiset()
                &&& g.monsters.actives@ == initial_actives(2)
                &&& g.phase == GamePhaseKind::DropAbility
                &&& players.wf()
                &&& players.slots().len() == self.slots().len()
                &&& forall|i: int|
                    0 <= i < self.slots().len() ==> (#[trigger] players.slots()[i]).addr == self.slots()[i].addr
                        && players.slots()[i].peer.0 == PeerStatus::Online
                        && peer::game_peer_of(players.slots()[i].peer.1, self.slots()[i].peer.1)
            },
    {
        let roles = self.role_peers();
        if !are_all_have_roles(&roles) {
            proof {
                assert(!forall|i: int|
                    0 <= i < self.slots().len() ==> (#[trigger] self.slots()[i]).peer.1.state.selected_role is Some) by {
                    let i = choose|i: int| 0 <= i < roles@.len() && (#[trigger] roles@[i]).role is None;
                    assert(roles@[i] == room_roles(self.slots())[i]);
                }
            }
            return Err(self);
        }
        proof {
            assert forall|i: int| 0 <= i < self.slots().len() implies (#[trigger] self.slots()[i]).peer.1.state.selected_role is Some by {
                assert(roles@[i].role is Some);
                assert(roles@[i] == room_roles(self.slots())[i]);
            }
        }
        let mut addrs: Vec<PlayerId> = Vec::new();
        let mut i: usize = 0;
        while i < self.0.len()
            invariant
                i <= self.slots().len(),
                addrs@ == slot_addrs(self.slots()).take(i as int),
            decreases self.slots().len() - i,
        {
            addrs.push(self.0[i].addr);
            i = i + 1;
            proof {
                assert(addrs@ =~= slot_addrs(self.slots()).take(i as int));
            }
        }
        proof {
            assert(addrs@ =~= slot_addrs(self.slots()));
        }
        let game = GameServer::new(addrs);
        let players = Room::all_online(into_game_slots(self.0));
        Ok((game, players))
    }

    /// The peers with the roles they hold.
    pub fn role_peers(&self) -> (r: Vec<RolePeer>)
        ensures
            r@ == room_roles(self.slots()),
    {
        let mut r: Vec<RolePeer> = Vec::new();
        let mut i: usize = 0;
        while i < self.0.len()
            invariant
                i <= self.slots().len(),
                r@ =~= room_roles(self.slots()).take(i as int),
            decreases self.slots().len() - i,
        {
            r.push(RolePeer { addr: self.0[i].addr, role: self.0[i].peer.1.state.selected_role });
            i = i + 1;
        }
        r
    }

    /// The peer at `sender` asks for `role`: the answer is `select_role_answer`; when the role
    /// is granted the sender's peer (the first at that address) takes it and no other peer
    /// changes; when it is refused nothing changes.
    pub fn select_role(&mut self, sender: PlayerId, role: Role) -> (r: Result<Role, SelectRoleError>)
        requires
            old(self).wf(),
            role_taken(room_roles(old(self).slots()), role) || first_slot_of(old(self).slots(), sender) is Some,
        ensures
            final(self).wf(),
            r == select_role_answer(room_roles(old(self).slots()), sender, role),
            r is Err ==> final(self).slots() == old(self).slots(),
            r is Ok ==> (first_slot_of(old(self).slots(), sender) matches Some(k) && {
                let old_slot = old(self).slots()[k];
                &&& final(self).slots() == old(self).slots().update(
                    k,
                    PeerSlot {
                        addr: old_slot.addr,
                        peer: (
                            old_slot.peer.0,
                            Peer {
                                username: old_slot.peer.1.username,
                                state: peer::Roles { selected_role: Some(role) },
                            },
                        ),
                    },
                )
                &&& room_roles(final(self).slots()) == with_role(room_roles(old(self).slots()), k, role)
            }),
    {
        let mut peers = self.role_peers();
        proof {
            if !role_taken(peers@, role) {
                let k = first_slot_of(old(self).slots(), sender)->0;
                assert(role_addrs(peers@)[k] == sender);
            }
        }
        let r = set_role_for_peer(&mut peers, sender, role);
        if r.is_ok() {
            let k = self.position(sender).unwrap();
            self.0[k].peer.1.select_role(role);
            proof {
                assert(room_roles(self.slots()) =~= with_role(room_roles(old(self).slots()), k as int, role));
            }
        }
        r
    }
}

/// Whether every peer holds a role.
pub fn are_all_have_roles(peers: &Vec<RolePeer>) -> (r: bool)
    ensures
        r == forall|i: int| 0 <= i < peers@.len() ==> (#[trigger] peers@[i]).role is Some,
{
    let mut i: usize = 0;
    while i < peers.len()
        invariant
            i <= peers@.len(),
            forall|j: int| 0 <= j < i ==> (#[trigger] peers@[j]).role is Some,
        decreases peers@.len() - i,
    {
        if peers[i].role.is_none() {
            return false;
        }
        i = i + 1;
    }
    true
}

/// The peers after the sender at index `k` takes `role`.
pub open spec fn with_role(peers: Seq<RolePeer>, k: int, role: Role) -> Seq<RolePeer> {
    peers.update(k, RolePeer { addr: peers[k].addr, role: Some(role) })
}

/// A granted role keeps roles unique: if no two peers held the same role before, none do
/// after the sender takes the granted role, and the role is then reported as taken.
pub proof fn lemma_granted_role_unique(peers: Seq<RolePeer>, k: int, role: Role)
    requires
        roles_unique(peers),
        0 <= k < peers.len(),
        select_role_answer(peers, peers[k].addr, role) is Ok,
    ensures
        roles_unique(with_role(peers, k, role)),
        role_status(with_role(peers, k, role), role) == RoleStatus::NotAvailable(role),
{
    let after = with_role(peers, k, role);
    assert(!role_taken(peers, role));
    assert forall|i: int, j: int|
        0 <= i < after.len() && 0 <= j < after.len() && i != j && (#[trigger] after[i]).role
            is Some implies after[i].role != (#[trigger] after[j]).role by {
        if i == k {
            assert(peers[j].role != Some(role));
        } else if j == k {
            assert(peers[i].role != Some(role));
        }
    }
    assert(after[k].role == Some(role));
}

/// Whether a player of this name is in a game that has started: in the lobby any peer of
/// the name counts; once roles are chosen only a connected one does, so that a player who
/// left can come back.
pub fn is_logged_in(stage: GameContextKind, peer_of_name: Option<PlayerId>, connected: bool) -> (r: bool)
    requires
        stage != GameContextKind::Intro,
    ensures
        stage == GameContextKind::Home ==> r == peer_of_name is Some,
        stage != GameContextKind::Home ==> r == (peer_of_name is Some && connected),
{
    match stage {
        GameContextKind::Home => peer_of_name.is_some(),
        _ => peer_of_name.is_some() && connected,
    }
}

/// Whether a peer of the login stage that has not entered the game goes by `name`.
pub open spec fn named_in_login(slots: Seq<PeerSlot<Option<Username>>>, name: Seq<char>) -> bool {
    exists|i: int|
        0 <= i < slots.len() && ((#[trigger] slots[i]).peer matches Some(n) && n@ == name)
}

/// Once a name has logged in, a second login under that name is refused, whatever the
/// running game holds: the room is full, or the name is taken.
pub proof fn lemma_second_login_refused(
    slots: Seq<PeerSlot<Option<Username>>>,
    addr: PlayerId,
    name: Username,
    stage: Option<(GameContextKind, Option<PlayerId>, bool)>,
)
    ensures
        named_in_login(slots.push(PeerSlot { addr, peer: Some(name) }), name@),
        ({
            let after = slots.push(PeerSlot { addr, peer: Some(name) });
            let r = login_answer(after.len() == MAX_PLAYER_COUNT, named_in_login(after, name@), stage);
            r == LoginStatus::AlreadyLogged || r == LoginStatus::PlayerLimit
        }),
{
    let after = slots.push(PeerSlot { addr, peer: Some(name) });
    assert(after[slots.len() as int].peer == Some(name));
}

/// Whether slot `i` of a started stage holds a peer named `name`.
pub open spec fn named_slot<S>(slots: Seq<PeerSlot<(PeerStatus, Peer<S>)>>, name: Seq<char>, i: int) -> bool {
    0 <= i < slots.len() && slots[i].peer.1.username@ == name
}

/// The last slot of a started stage whose peer is named `name`.
pub open spec fn last_named<S>(slots: Seq<PeerSlot<(PeerStatus, Peer<S>)>>, name: Seq<char>) -> Option<int> {
    if exists|i: int| named_slot(slots, name, i) {
        Some(
            choose|i: int|
                named_slot(slots, name, i) && forall|j: int| i < j < slots.len() ==> !named_slot(slots, name, j),
        )
    } else {
        None
    }
}

/// Whether a connected peer sits at `addr`.
pub open spec fn online_at<T>(slots: Seq<PeerSlot<(PeerStatus, T)>>, addr: PlayerId) -> bool {
    exists|i: int| 0 <= i < slots.len() && (#[trigger] slots[i]).addr == addr && slots[i].peer.0 == PeerStatus::Online
}

/// What a login needs to know of a started stage of kind `kind`: the address of its last
/// peer named `name`, if any, and whether a connected peer sits there.
pub open spec fn login_stage_of<S>(
    kind: GameContextKind,
    slots: Seq<PeerSlot<(PeerStatus, Peer<S>)>>,
    name: Seq<char>,
) -> (GameContextKind, Option<PlayerId>, bool) {
    match last_named(slots, name) {
        Some(i) => (kind, Some(slots[i].addr), online_at(slots, slots[i].addr)),
        None => (kind, None, false),
    }
}

impl<S> Room<(PeerStatus, Peer<S>)> {
    /// What a login under `name` needs to know of this stage, as `login_stage_of` says.
    pub fn login_stage(&self, kind: GameContextKind, name: &Username) -> (r: (
        GameContextKind,
        Option<PlayerId>,
        bool,
    ))
        ensures
            r == login_stage_of(kind, self.slots(), name@),
    {
        let mut i: usize = self.0.len();
        while i > 0
            invariant
                i <= self.slots().len(),
                forall|j: int| i <= j < self.slots().len() ==> !named_slot(self.slots(), name@, j),
            decreases i,
        {
            i = i - 1;
            if self.0[i].peer.1.username.same_as(name) {
                let addr = self.0[i].addr;
                proof {
                    assert(named_slot(self.slots(), name@, i as int));
                    let c = choose|c: int|
                        named_slot(self.slots(), name@, c) && forall|j: int|
                            c < j < self.slots().len() ==> !named_slot(self.slots(), name@, j);
                    if c < i {
                        assert(named_slot(self.slots(), name@, i as int));
                    } else if c > i {
                        assert(!named_slot(self.slots(), name@, c));
                    }
                }
                let connected = self.is_peer_connected(addr);
                return (kind, Some(addr), connected);
            }
        }
        proof {
            assert(!exists|j: int| named_slot(self.slots(), name@, j));
        }
        (kind, None, false)
    }

    /// A peer that logged in again under `name` from `addr` takes back the last slot of
    /// that name: the slot moves to `addr`, connected, with its peer as it was; the former
    /// address comes back. Without a slot of that name nothing changes.
    pub fn rejoin(&mut self, name: &Username, addr: PlayerId) -> (r: Option<PlayerId>)
        requires
            old(self).wf(),
        ensures
            final(self).wf(),
            last_named(old(self).slots(), name@) is None ==> r is None && final(self).slots()
                == old(self).slots(),
            last_named(old(self).slots(), name@) matches Some(k) ==> r == Some(
                old(self).slots()[k].addr,
            ) && final(self).slots() == rejoined(old(self).slots(), k, addr),
    {
        let mut i: usize = self.0.len();
        while i > 0
            invariant
                *self == *old(self),
                old(self).wf(),
                i <= self.slots().len(),
                forall|j: int| i <= j < self.slots().len() ==> !named_slot(self.slots(), name@, j),
            decreases i,
        {
            i = i - 1;
            if self.0[i].peer.1.username.same_as(name) {
                proof {
                    assert(named_slot(self.slots(), name@, i as int));
                    let c = choose|c: int|
                        named_slot(self.slots(), name@, c) && forall|j: int|
                            c < j < self.slots().len() ==> !named_slot(self.slots(), name@, j);
                    if c < i {
                        assert(named_slot(self.slots(), name@, i as int));
                    } else if c > i {
                        assert(!named_slot(self.slots(), name@, c));
                    }
                }
                let former = self.0[i].addr;
                self.0[i].addr = addr;
                self.0[i].peer.0 = PeerStatus::Online;
                proof {
                    assert(self.slots() =~= rejoined(old(self).slots(), i as int, addr));
                }
                return Some(former);
            }
        }
        proof {
            assert(!exists|j: int| named_slot(self.slots(), name@, j));
        }
        None
    }
}

/// The slots after the peer of slot `k` came back from `addr`: that slot at `addr`,
/// connected, with its peer as it was.
pub open spec fn rejoined<S>(slots: Seq<PeerSlot<(PeerStatus, Peer<S>)>>, k: int, addr: PlayerId) -> Seq<
    PeerSlot<(PeerStatus, Peer<S>)>,
> {
    slots.update(k, PeerSlot { addr, peer: (PeerStatus::Online, slots[k].peer.1) })
}

/// A player who left a started game (roles or game stage) and logs in again under the same
/// name is reconnected: after `set_offline` of its address, the login answers `Reconnected`,
/// and `rejoin` under that name from the new address takes back the same slot, connected,
/// with the player as it was, and gives the former address. The player's name and address
/// are its own in the room, the room has space and no login in progress holds the name.
pub proof fn lemma_left_player_reconnects<S>(
    slots: Seq<PeerSlot<(PeerStatus, Peer<S>)>>,
    k: int,
    kind: GameContextKind,
    named_here: bool,
    b: PlayerId,
)
    requires
        0 <= k < slots.len(),
        kind == GameContextKind::Roles || kind == GameContextKind::Game,
        !named_here,
        forall|j: int| 0 <= j < slots.len() && j != k ==> slots[j].addr != slots[k].addr,
        forall|j: int|
            0 <= j < slots.len() && j != k ==> slots[j].peer.1.username@ != slots[k].peer.1.username@,
    ensures
        ({
            let addr = slots[k].addr;
            let left = slots.update(k, PeerSlot { addr, peer: (PeerStatus::Offline, slots[k].peer.1) });
            &&& first_slot_of(slots, addr) == Some(k)
            &&& first_slot_of(left, addr) == Some(k)
            &&& login_stage_of(kind, left, slots[k].peer.1.username@) == (kind, Some(addr), false)
            &&& login_answer(
                false,
                named_here,
                Some(login_stage_of(kind, left, slots[k].peer.1.username@)),
            ) == LoginStatus::Reconnected
            &&& last_named(left, slots[k].peer.1.username@) == Some(k)
            &&& rejoined(left, k, b) == slots.update(
                k,
                PeerSlot { addr: b, peer: (PeerStatus::Online, slots[k].peer.1) },
            )
        }),
{
    let addr = slots[k].addr;
    let name = slots[k].peer.1.username@;
    let left = slots.update(k, PeerSlot { addr, peer: (PeerStatus::Offline, slots[k].peer.1) });
    assert(slots[k].addr == addr);
    let f = choose|i: int|
        0 <= i < slots.len() && slots[i].addr == addr && forall|j: int| 0 <= j < i ==> slots[j].addr != addr;
    assert(f == k);
    assert(left[k].addr == addr);
    let g = choose|i: int|
        0 <= i < left.len() && left[i].addr == addr && forall|j: int| 0 <= j < i ==> left[j].addr != addr;
    assert(g == k);
    assert(named_slot(left, name, k));
    let c = choose|c: int|
        named_slot(left, name, c) && forall|j: int| c < j < left.len() ==> !named_slot(left, name, j);
    assert(c == k);
    assert(!online_at(left, addr));
}

/// The answer to a login: refused when the room is full; refused when a peer of the login
/// stage or a connected player of the running game has the name (in the lobby any player
/// of the name counts); a reconnection when the running game holds a player of the name
/// who left; a new login otherwise. `stage` gives the running game's stage, its player of
/// that name if any, and whether that player is connected.
pub open spec fn login_answer(
    full: bool,
    named_here: bool,
    stage: Option<(GameContextKind, Option<PlayerId>, bool)>,
) -> LoginStatus {
    if full {
        LoginStatus::PlayerLimit
    } else if named_here {
        LoginStatus::AlreadyLogged
    } else {
        match stage {
            Some((k, Some(_), connected)) => if k == GameContextKind::Home || connected {
                LoginStatus::AlreadyLogged
            } else {
                LoginStatus::Reconnected
            },
            _ => LoginStatus::Logged,
        }
    }
}

/// What a login is answered, over every input: refused for a full room; otherwise refused
/// when a peer of the login stage holds the name; otherwise, with no running game or no
/// player of that name in it, a new login; a player of that name in the lobby, or a
/// connected one in a later stage, refuses it; a player of that name who left a later
/// stage (roles or game) is reconnected.
pub proof fn lemma_login_answers(
    full: bool,
    named_here: bool,
    stage: Option<(GameContextKind, Option<PlayerId>, bool)>,
)
    ensures
        full ==> login_answer(full, named_here, stage) == LoginStatus::PlayerLimit,
        !full && named_here ==> login_answer(full, named_here, stage) == LoginStatus::AlreadyLogged,
        !full && !named_here && stage is None ==> login_answer(full, named_here, stage)
            == LoginStatus::Logged,
        forall|k: GameContextKind, c: bool|
            !full && !named_here && stage == Some((k, None::<PlayerId>, c)) ==> login_answer(
                full,
                named_here,
                stage,
            ) == LoginStatus::Logged,
        forall|p: PlayerId, c: bool|
            !full && !named_here && stage == Some((GameContextKind::Home, Some(p), c)) ==> login_answer(
                full,
                named_here,
                stage,
            ) == LoginStatus::AlreadyLogged,
        forall|k: GameContextKind, p: PlayerId|
            !full && !named_here && stage == Some((k, Some(p), true)) ==> login_answer(
                full,
                named_here,
                stage,
            ) == LoginStatus::AlreadyLogged,
        forall|k: GameContextKind, p: PlayerId|
            !full && !named_here && k != GameContextKind::Home && stage == Some((k, Some(p), false))
                ==> login_answer(full, named_here, stage) == LoginStatus::Reconnected,
        login_answer(full, named_here, stage) == LoginStatus::Logged <==> !full && !named_here
            && match stage {
            Some((_, of_name, _)) => of_name is None,
            None => true,
        },
{
}

impl<G> IntroServer<Username, G> {
    /// Logs in the peer at `sender` under `name`, as `login_answer` says; on a new login or
    /// a reconnection the peer takes a place in the room with its name.
    pub fn login_player(
        &mut self,
        sender: PlayerId,
        name: Username,
        stage: Option<(GameContextKind, Option<PlayerId>, bool)>,
    ) -> (r: LoginStatus)
        requires
            old(self).peers.wf(),
            stage matches Some((k, _, _)) ==> k != GameContextKind::Intro,
        ensures
            final(self).peers.wf(),
            final(self).game_server == old(self).game_server,
            r == login_answer(
                old(self).peers.slots().len() == MAX_PLAYER_COUNT,
                named_in_login(old(self).peers.slots(), name@),
                stage,
            ),
            (r == LoginStatus::Logged || r == LoginStatus::Reconnected) ==> final(self).peers.slots()
                == old(self).peers.slots().push(PeerSlot { addr: sender, peer: Some(name) }),
            !(r == LoginStatus::Logged || r == LoginStatus::Reconnected) ==> final(self).peers.slots()
                == old(self).peers.slots(),
    {
        if self.peers.is_full() {
            return LoginStatus::PlayerLimit;
        }
        let mut i: usize = 0;
        while i < self.peers.0.len()
            invariant
                *self == *old(self),
                old(self).peers.wf(),
                old(self).peers.slots().len() < MAX_PLAYER_COUNT,
                i <= self.peers.slots().len(),
                forall|j: int|
                    0 <= j < i ==> !((#[trigger] self.peers.slots()[j]).peer matches Some(n) && n@
                        == name@),
            decreases self.peers.slots().len() - i,
        {
            let same = match &self.peers.0[i].peer {
                Some(n) => n.same_as(&name),
                None => false,
            };
            if same {
                proof {
                    assert(self.peers.slots()[i as int].peer matches Some(n) && n@ == name@);
                }
                return LoginStatus::AlreadyLogged;
            }
            i = i + 1;
        }
        let status = match stage {
            Some((k, Some(p), connected)) => if is_logged_in(k, Some(p), connected) {
                LoginStatus::AlreadyLogged
            } else {
                LoginStatus::Reconnected
            },
            _ => LoginStatus::Logged,
        };
        if status == LoginStatus::AlreadyLogged {
            return status;
        }
        let _ = self.peers.try_push(PeerSlot::new(sender, Some(name)));
        status
    }
}

/// Where a peer that asks to enter the game goes.
#[derive(Debug, Clone, Copy, PartialEq, Eq, Structural)]
pub enum EntryRoute {
    /// No game is open: the peer opens the lobby.
    StartHome,
    /// The lobby is open: the peer joins it.
    JoinHome,
    /// The roles are being chosen or the game is on: the peer takes back its place.
    Reconnect,
}

/// Where a peer that asks to enter goes, given the stage of the open game, if any; a game
/// is never open in the login stage.
pub fn route_entry(stage: Option<GameContextKind>) -> (r: EntryRoute)
    requires
        stage != Some(GameContextKind::Intro),
    ensures
        stage is None ==> r == EntryRoute::StartHome,
        stage == Some(GameContextKind::Home) ==> r == EntryRoute::JoinHome,
        (stage == Some(GameContextKind::Roles) || stage == Some(GameContextKind::Game)) ==> r
            == EntryRoute::Reconnect,
{
    match stage {
        None => EntryRoute::StartHome,
        Some(GameContextKind::Home) => EntryRoute::JoinHome,
        Some(_) => EntryRoute::Reconnect,
    }
}

/// The login stage: the peers that logged in (a peer's handle is given away when it
/// enters the game, its place kept until it disconnects) and the server of the stage that
/// the game is in, if one has started.
pub struct IntroServer<H, G> {
    pub peers: Room<Option<H>>,
    pub game_server: Option<G>,
}

impl<H, G> IntroServer<H, G> {
    /// No peers and no game.
    pub fn new() -> (s: Self)
        ensures
            s.peers.slots() == Seq::<PeerSlot<Option<H>>>::empty(),
            s.peers.wf(),
            s.game_server is None,
    {
        IntroServer { peers: Room::new(), game_server: None }
    }

    /// Whether a peer at `sender` logged in.
    pub fn is_peer_connected(&self, sender: PlayerId) -> (r: bool)
        ensures
            r == first_slot_of(self.peers.slots(), sender) is Some,
    {
        self.peers.get_peer(sender).is_ok()
    }

    /// Forgets the peer at `whom`, if it logged in; when no peer is left the started game
    /// is given back to be shut down.
    pub fn drop_peer(&mut self, whom: PlayerId) -> (r: Option<G>)
        requires
            old(self).peers.wf(),
        ensures
            final(self).peers.wf(),
            first_slot_of(old(self).peers.slots(), whom) matches Some(i) ==> final(self).peers.slots() == old(self).peers.slots().update(
                i,
                old(self).peers.slots().last(),
            ).drop_last(),
            first_slot_of(old(self).peers.slots(), whom) is None ==> final(self).peers.slots()
                == old(self).peers.slots(),
            final(self).peers.slots().len() == 0 ==> r == old(self).game_server
                && final(self).game_server is None,
            final(self).peers.slots().len() != 0 ==> r is None && final(self).game_server == old(self).game_server,
    {
        let _ = self.peers.drop_peer(whom);
        if self.peers.len() == 0 {
            self.game_server.take()
        } else {
            None
        }
    }

    /// Forgets every peer and the game.
    pub fn shutdown(&mut self)
        ensures
            final(self).peers.slots() == Seq::<PeerSlot<Option<H>>>::empty(),
            final(self).peers.wf(),
            final(self).game_server is None,
    {
        self.peers.shutdown();
        self.game_server = None;
    }
}

} // verus!
