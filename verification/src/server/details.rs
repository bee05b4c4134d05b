//! A set of items of which a fixed number are active at a time, and the rules by which
//! the active ones move through the items.
use vstd::prelude::*;

use crate::game::{Card, Rank};

verus! {

/// The state of one active slot: the index of the item it points to, and whether that
/// item is still in play.
#[derive(Debug, Clone, Copy, PartialEq, Eq, Structural)]
pub enum ActiveState {
    Enable(usize),
    Disable(usize),
}

impl ActiveState {
    /// The index of the item that the slot points to.
    pub open spec fn index(self) -> int {
        match self {
            ActiveState::Enable(i) => i as int,
            ActiveState::Disable(i) => i as int,
        }
    }

    /// The index of the item that the slot points to, enabled or not.
    pub fn unwrap_index(&self) -> (i: usize)
        ensures
            i == self.index(),
    {
        match *self {
            ActiveState::Enable(i) => i,
            ActiveState::Disable(i) => i,
        }
    }
}

/// An item kind that a `Stateble` can hold: compared by value.
pub trait StatebleItem: Sized + Copy {
    fn same_item(&self, other: &Self) -> (r: bool)
        ensures
            r == (*self == *other),
    ;
}

impl StatebleItem for Card {
    fn same_item(&self, other: &Self) -> (r: bool) {
        *self == *other
    }
}

impl StatebleItem for Rank {
    fn same_item(&self, other: &Self) -> (r: bool) {
        *self == *other
    }
}

/// The active slots reach past the last item; the slot at which that happened.
#[derive(Debug)]
pub struct EndOfItems(usize);

impl EndOfItems {
    /// The slot at which the active slots reached past the last item.
    pub closed spec fn slot(self) -> int {
        self.0 as int
    }
}

/// Why an item could not be deactivated.
#[derive(Debug, Clone, Copy, PartialEq, Eq, Structural)]
pub enum DeactivateItemError {
    NotFound,
    AlreadyNotActive,
}

/// The slots of a freshly made `Stateble`: slot `j` is enabled on item `j`.
pub open spec fn initial_actives(n: nat) -> Seq<ActiveState> {
    Seq::new(n, |j: int| ActiveState::Enable(j as usize))
}

/// The index that a slot moves to: a disabled slot moves `n` items on, an enabled one stays.
pub open spec fn advanced_index(a: ActiveState, n: int) -> int {
    match a {
        ActiveState::Disable(d) => d + n,
        ActiveState::Enable(i) => i as int,
    }
}

/// The first slot, from `j` on, whose advanced index is past the last item, or `n` if none is.
pub open spec fn first_blocked_from(actives: Seq<ActiveState>, n: int, len: int, j: int) -> int
    decreases n - j,
{
    if j >= n {
        n
    } else if advanced_index(actives[j], n) >= len {
        j
    } else {
        first_blocked_from(actives, n, len, j + 1)
    }
}

/// The first slot whose advanced index is past the last item, or `n` if none is.
pub open spec fn first_blocked(actives: Seq<ActiveState>, n: int, len: int) -> int {
    first_blocked_from(actives, n, len, 0)
}

/// The slots after `next_actives`: every slot before the first blocked one is enabled on
/// its advanced index; that one and the later ones are unchanged.
pub open spec fn advance(actives: Seq<ActiveState>, n: int, len: int) -> Seq<ActiveState> {
    let fb = first_blocked(actives, n, len);
    Seq::new(
        actives.len(),
        |j: int|
            if j < fb {
                ActiveState::Enable(advanced_index(actives[j], n) as usize)
            } else {
                actives[j]
            },
    )
}

/// The slots after `repeat_after_eof` for a stop at slot `e`: the first `n - e` slots are
/// enabled on the first items, the others unchanged.
pub open spec fn repeated(actives: Seq<ActiveState>, n: int, e: int) -> Seq<ActiveState> {
    Seq::new(
        actives.len(),
        |j: int|
            if j < n - e {
                ActiveState::Enable(j as usize)
            } else {
                actives[j]
            },
    )
}

/// Whether some slot shows item `i` as active.
pub open spec fn has_slot_for(actives: Seq<ActiveState>, i: int) -> bool {
    exists|j: int|
        0 <= j < actives.len() && (#[trigger] actives[j]) is Enable && actives[j].index() == i
}

/// A well-formed set of slots over `len` items: `n` slots, each pointing into the items, and
/// slot `j` always at an index congruent to `j` modulo `n`.
pub open spec fn slots_wf(actives: Seq<ActiveState>, n: int, len: int) -> bool {
    &&& 0 < n <= len
    &&& actives.len() == n
    &&& forall|j: int|
        0 <= j < n ==> {
            &&& 0 <= (#[trigger] actives[j]).index() < len
            &&& actives[j].index() % n == j
        }
}

/// Items of which `N` are active at a time.
#[derive(Debug)]
pub struct Stateble<T, const N: usize> {
    pub items: Vec<T>,
    pub actives: Vec<ActiveState>,
}

impl<T: StatebleItem, const N: usize> Stateble<T, N> {
    /// The slots are well formed over the items.
    pub open spec fn wf(&self) -> bool {
        slots_wf(self.actives@, N as int, self.items@.len() as int)
    }

    /// The item that slot `j` shows: its item if the slot is enabled, none otherwise.
    pub open spec fn active_item(&self, j: int) -> Option<T> {
        match self.actives@[j] {
            ActiveState::Enable(s) => Some(self.items@[s as int]),
            ActiveState::Disable(_) => None,
        }
    }

    /// The first `N` items are active. The slots are well formed if there are at least
    /// `N` items and `N` is not zero.
    pub fn with_items(items: Vec<T>) -> (s: Self)
        ensures
            s.items@ == items@,
            s.actives@ == initial_actives(N as nat),
            s.wf() <==> 0 < N <= items@.len(),
    {
        let mut actives: Vec<ActiveState> = Vec::new();
        let mut i: usize = 0;
        while i < N
            invariant
                i <= N,
                actives@ =~= initial_actives(N as nat).take(i as int),
            decreases N - i,
        {
            actives.push(ActiveState::Enable(i));
            i = i + 1;
        }
        let s = Stateble { items, actives };
        proof {
            assert(s.actives@ =~= initial_actives(N as nat));
            if 0 < N <= s.items@.len() {
                assert forall|j: int| 0 <= j < N implies {
                    &&& 0 <= (#[trigger] s.actives@[j]).index() < s.items@.len()
                    &&& s.actives@[j].index() % (N as int) == j
                } by {
                    assert(s.actives@[j] == ActiveState::Enable(j as usize));
                    vstd::arithmetic::div_mod::lemma_small_mod(j as nat, N as nat);
                }
            }
        }
        s
    }

    /// The item of each slot: the slot's item if it is enabled, none otherwise.
    pub fn active_items(&self) -> (r: Vec<Option<T>>)
        requires
            self.wf(),
        ensures
            r@.len() == N,
            forall|j: int| 0 <= j < N ==> r@[j] == self.active_item(j),
    {
        let mut r: Vec<Option<T>> = Vec::new();
        let mut j: usize = 0;
        while j < N
            invariant
                self.wf(),
                j <= N,
                r@.len() == j,
                forall|k: int| 0 <= k < j ==> r@[k] == self.active_item(k),
            decreases N - j,
        {
            let item = match self.actives[j] {
                ActiveState::Enable(s) => Some(self.items[s]),
                ActiveState::Disable(_) => None,
            };
            r.push(item);
            j = j + 1;
        }
        r
    }

    /// Disables the slot that shows item `i` as active; fails, with the slots unchanged, if
    /// no slot shows it as active (it is not among the active items, or it was dropped).
    pub fn deactivate_item_by_index(&mut self, i: usize) -> (r: Result<(), DeactivateItemError>)
        requires
            old(self).wf(),
        ensures
            final(self).wf(),
            final(self).items@ == old(self).items@,
            r is Ok <==> has_slot_for(old(self).actives@, i as int),
            r is Ok ==> final(self).actives@ == old(self).actives@.update(
                i as int % N as int,
                ActiveState::Disable(i),
            ),
            r matches Err(e) ==> e == DeactivateItemError::AlreadyNotActive && final(self).actives@ == old(self).actives@,
    {
        let mut j: usize = 0;
        while j < N
            invariant
                self.wf(),
                *self == *old(self),
                j <= N,
                forall|k: int|
                    0 <= k < j ==> !((#[trigger] self.actives@[k]) is Enable && self.actives@[k].index() == i),
            decreases N - j,
        {
            let here = match self.actives[j] {
                ActiveState::Enable(x) => x == i,
                ActiveState::Disable(_) => false,
            };
            if here {
                proof {
                    assert(j as int == i as int % N as int);
                }
                self.actives.set(j, ActiveState::Disable(i));
                return Ok(());
            }
            j = j + 1;
        }
        Err(DeactivateItemError::AlreadyNotActive)
    }

    /// Disables the slot that shows the first item equal to `item`; fails if no item is
    /// equal to it, or if no slot shows that item as active.
    pub fn deactivate_item(&mut self, item: &T) -> (r: Result<(), DeactivateItemError>)
        requires
            old(self).wf(),
        ensures
            final(self).wf(),
            final(self).items@ == old(self).items@,
            !old(self).items@.contains(*item) ==> r == Err::<(), DeactivateItemError>(
                DeactivateItemError::NotFound,
            ) && final(self).actives@ == old(self).actives@,
            old(self).items@.contains(*item) ==> {
                let p = first_index_of(old(self).items@, *item);
                &&& r is Ok <==> has_slot_for(old(self).actives@, p)
                &&& r is Ok ==> final(self).actives@ == old(self).actives@.update(
                    p % N as int,
                    ActiveState::Disable(p as usize),
                )
                &&& r matches Err(e) ==> e == DeactivateItemError::AlreadyNotActive && final(self).actives@ == old(self).actives@
            },
    {
        let mut p: usize = 0;
        while p < self.items.len()
            invariant
                self.wf(),
                *self == *old(self),
                p <= self.items@.len(),
                forall|q: int| 0 <= q < p ==> self.items@[q] != *item,
            decreases self.items@.len() - p,
        {
            if self.items[p].same_item(item) {
                proof {
                    lemma_first_index_of(self.items@, *item, p as int);
                }
                return self.deactivate_item_by_index(p);
            }
            p = p + 1;
        }
        Err(DeactivateItemError::NotFound)
    }

    /// Moves every disabled slot `N` items on and enables it, slot by slot; stops with an
    /// error at the first slot that would move past the last item, leaving it and the later
    /// slots unchanged.
    pub fn next_actives(&mut self) -> (r: Result<(), EndOfItems>)
        requires
            old(self).wf(),
        ensures
            final(self).wf(),
            final(self).items@ == old(self).items@,
            final(self).actives@ == advance(
                old(self).actives@,
                N as int,
                old(self).items@.len() as int,
            ),
            r is Ok <==> first_blocked(old(self).actives@, N as int, old(self).items@.len() as int)
                == N,
            r matches Err(e) ==> e.slot() == first_blocked(
                old(self).actives@,
                N as int,
                old(self).items@.len() as int,
            ),
    {
        let ghost old_actives = self.actives@;
        let ghost len = self.items@.len() as int;
        let ghost n = N as int;
        let mut j: usize = 0;
        while j < N
            invariant
                j <= N,
                self.items@.len() == len,
                self.items@ == old(self).items@,
                old_actives == old(self).actives@,
                n == N,
                slots_wf(old_actives, n, len),
                slots_wf(self.actives@, n, len),
                self.actives@.len() == n,
                forall|k: int| 0 <= k < j ==> advanced_index(#[trigger] old_actives[k], n) < len,
                first_blocked(old_actives, n, len) == first_blocked_from(old_actives, n, len, j as int),
                forall|k: int|
                    0 <= k < n ==> #[trigger] self.actives@[k] == if k < j {
                        ActiveState::Enable(advanced_index(old_actives[k], n) as usize)
                    } else {
                        old_actives[k]
                    },
            decreases N - j,
        {
            let a = self.actives[j];
            let new_index: Option<usize> = match a {
                ActiveState::Disable(d) => d.checked_add(N),
                ActiveState::Enable(i) => Some(i),
            };
            let item_count = self.items.len();
            let in_range = match new_index {
                Some(x) => x < item_count,
                None => false,
            };
            if in_range {
                let x = new_index.unwrap();
                proof {
                    let d = old_actives[j as int].index();
                    assert(x as int == advanced_index(old_actives[j as int], n));
                    assert((d + n) % n == d % n) by (nonlinear_arith)
                        requires
                            n > 0,
                            d >= 0,
                    ;
                    assert(first_blocked_from(old_actives, n, len, j as int) == first_blocked_from(
                        old_actives,
                        n,
                        len,
                        j + 1,
                    ));
                }
                self.actives.set(j, ActiveState::Enable(x));
            } else {
                proof {
                    assert(advanced_index(old_actives[j as int], n) >= len);
                    assert(first_blocked_from(old_actives, n, len, j as int) == j);
                }
                proof {
                    assert(self.actives@ =~= advance(old_actives, n, len));
                }
                return Err(EndOfItems(j));
            }
            j = j + 1;
        }
        proof {
            assert(first_blocked_from(old_actives, n, len, n) == n);
            assert(self.actives@ =~= advance(old_actives, n, len));
        }
        Ok(())
    }

    /// After the slots stopped at `eof`, enables the first `N - eof` slots on the first items.
    pub fn repeat_after_eof(&mut self, eof: EndOfItems)
        requires
            old(self).wf(),
            eof.slot() <= N,
        ensures
            final(self).wf(),
            final(self).items@ == old(self).items@,
            final(self).actives@ == repeated(old(self).actives@, N as int, eof.slot()),
    {
        let ghost old_actives = self.actives@;
        let stop = N - eof.0;
        let mut i: usize = 0;
        while i < stop
            invariant
                stop == N - eof.slot(),
                i <= stop,
                self.items@ == old(self).items@,
                self.actives@.len() == N,
                old_actives == old(self).actives@,
                slots_wf(old_actives, N as int, self.items@.len() as int),
                slots_wf(self.actives@, N as int, self.items@.len() as int),
                forall|k: int|
                    0 <= k < N ==> #[trigger] self.actives@[k] == if k < i {
                        ActiveState::Enable(k as usize)
                    } else {
                        old_actives[k]
                    },
            decreases stop - i,
        {
            proof {
                vstd::arithmetic::div_mod::lemma_small_mod(i as nat, N as nat);
            }
            self.actives.set(i, ActiveState::Enable(i));
            i = i + 1;
        }
        proof {
            assert(self.actives@ =~= repeated(old_actives, N as int, eof.slot()));
        }
    }

    /// Enables slot `j` on item `j` for every slot.
    pub fn reset(&mut self)
        requires
            old(self).wf(),
        ensures
            final(self).wf(),
            final(self).items@ == old(self).items@,
            final(self).actives@ == initial_actives(N as nat),
    {
        let mut i: usize = 0;
        while i < N
            invariant
                i <= N,
                self.items@ == old(self).items@,
                self.actives@.len() == N,
                slots_wf(old(self).actives@, N as int, self.items@.len() as int),
                slots_wf(self.actives@, N as int, self.items@.len() as int),
                forall|k: int|
                    0 <= k < N ==> #[trigger] self.actives@[k] == if k < i {
                        ActiveState::Enable(k as usize)
                    } else {
                        old(self).actives@[k]
                    },
            decreases N - i,
        {
            proof {
                vstd::arithmetic::div_mod::lemma_small_mod(i as nat, N as nat);
            }
            self.actives.set(i, ActiveState::Enable(i));
            i = i + 1;
        }
        proof {
            assert(self.actives@ =~= initial_actives(N as nat));
        }
    }
}

/// The slots of a round in which every active item was dropped: slot `j` is disabled on
/// item `row * n + j`.
pub open spec fn dropped_row(row: int, n: int) -> Seq<ActiveState> {
    Seq::new(n as nat, |j: int| ActiveState::Disable((row * n + j) as usize))
}

/// The slots enabled on row `row`: slot `j` on item `row * n + j`.
pub open spec fn enabled_row(row: int, n: int) -> Seq<ActiveState> {
    Seq::new(n as nat, |j: int| ActiveState::Enable((row * n + j) as usize))
}

/// Slot `j` of a dropped row points to item `row * n + j` and moves `n` items on.
proof fn lemma_dropped_slot(n: int, len: int, row: int, j: int)
    requires
        n > 0,
        row >= 0,
        0 <= j < n,
        (row + 1) * n <= len,
        len <= usize::MAX,
    ensures
        row * n + j < len,
        dropped_row(row, n)[j].index() == row * n + j,
        advanced_index(dropped_row(row, n)[j], n) == (row + 1) * n + j,
{
    assert(row * n + j < (row + 1) * n) by (nonlinear_arith)
        requires
            0 <= j < n,
    ;
    assert(0 <= row * n) by (nonlinear_arith)
        requires
            row >= 0,
            n > 0,
    ;
    assert((row * n + j) + n == (row + 1) * n + j) by (nonlinear_arith);
}

/// No slot from `j` on is blocked when every slot moves to a row that exists.
proof fn lemma_none_blocked_from(n: int, len: int, row: int, j: int)
    requires
        0 <= j <= n,
        n > 0,
        row >= 0,
        (row + 2) * n <= len,
        len <= usize::MAX,
    ensures
        first_blocked_from(dropped_row(row, n), n, len, j) == n,
    decreases n - j,
{
    if j < n {
        assert((row + 1) * n <= (row + 2) * n) by (nonlinear_arith)
            requires
                n > 0,
        ;
        lemma_dropped_slot(n, len, row, j);
        assert((row + 1) * n + j < len) by (nonlinear_arith)
            requires
                0 <= j < n,
                (row + 2) * n <= len,
        ;
        lemma_none_blocked_from(n, len, row, j + 1);
    }
}

/// A round in which every active item is dropped keeps `n` items active when the number of
/// items is a multiple of `n`: the slots move to the next row, or, after the last row,
/// `next_actives` stops at the first slot and `repeat_after_eof` enables the first row.
pub proof fn lemma_dropped_round(n: int, len: int, row: int)
    requires
        n > 0,
        len % n == 0,
        row >= 0,
        (row + 1) * n <= len,
        len <= usize::MAX,
    ensures
        slots_wf(dropped_row(row, n), n, len),
        (row + 2) * n <= len ==> first_blocked(dropped_row(row, n), n, len) == n && advance(
            dropped_row(row, n),
            n,
            len,
        ) == enabled_row(row + 1, n),
        (row + 2) * n > len ==> first_blocked(dropped_row(row, n), n, len) == 0 && repeated(
            advance(dropped_row(row, n), n, len),
            n,
            0,
        ) == enabled_row(0, n),
{
    let a = dropped_row(row, n);
    assert forall|j: int| 0 <= j < n implies {
        &&& 0 <= (#[trigger] a[j]).index() < len
        &&& a[j].index() % n == j
    } by {
        lemma_dropped_slot(n, len, row, j);
        assert(row * n == n * row) by (nonlinear_arith);
        vstd::arithmetic::div_mod::lemma_mod_multiples_vanish(row, j, n);
        vstd::arithmetic::div_mod::lemma_small_mod(j as nat, n as nat);
        assert((n * row + j) % n == j);
        assert(a[j].index() == n * row + j);
    }
    assert(n <= len) by (nonlinear_arith)
        requires
            n > 0,
            row >= 0,
            (row + 1) * n <= len,
    ;
    if (row + 2) * n <= len {
        lemma_none_blocked_from(n, len, row, 0);
        assert forall|j: int| 0 <= j < n implies #[trigger] advance(a, n, len)[j] == enabled_row(
            row + 1,
            n,
        )[j] by {
            lemma_dropped_slot(n, len, row, j);
        }
        assert(advance(a, n, len) =~= enabled_row(row + 1, n));
    } else {
        lemma_dropped_slot(n, len, row, 0);
        let q = len / n;
        vstd::arithmetic::div_mod::lemma_fundamental_div_mod(len, n);
        assert(len == n * q);
        assert((row + 1) * n >= len) by (nonlinear_arith)
            requires
                n > 0,
                len == n * q,
                (row + 2) * n > len,
                (row + 1) * n <= len,
                row >= 0,
        ;
        assert(first_blocked(a, n, len) == 0);
        assert(repeated(advance(a, n, len), n, 0) =~= enabled_row(0, n));
    }
}

/// Every slot dropped: each slot disabled on the item it shows, as a
/// `deactivate_item_by_index` of that item makes it.
pub open spec fn drop_all(actives: Seq<ActiveState>) -> Seq<ActiveState> {
    Seq::new(actives.len(), |j: int| ActiveState::Disable(actives[j].index() as usize))
}

/// The slots after dropping, slot after slot, the item that each of the first `j` slots of
/// `actives` showed, each drop as `deactivate_item_by_index` makes it.
pub open spec fn drops_made(actives: Seq<ActiveState>, n: int, j: nat) -> Seq<ActiveState>
    decreases j,
{
    if j == 0 {
        actives
    } else {
        let i = actives[j - 1].index();
        drops_made(actives, n, (j - 1) as nat).update(i % n, ActiveState::Disable(i as usize))
    }
}

/// The first `j` drops disable exactly the first `j` slots.
proof fn lemma_drops_made(actives: Seq<ActiveState>, n: int, len: int, j: nat)
    requires
        slots_wf(actives, n, len),
        j <= n,
    ensures
        drops_made(actives, n, j).len() == n,
        forall|m: int|
            0 <= m < n ==> #[trigger] drops_made(actives, n, j)[m] == if m < j {
                ActiveState::Disable(actives[m].index() as usize)
            } else {
                actives[m]
            },
    decreases j,
{
    if j > 0 {
        lemma_drops_made(actives, n, len, (j - 1) as nat);
        assert(actives[j - 1].index() % n == j - 1);
    }
}

/// A round made of calls: dropping, slot after slot, the item that each slot shows with
/// `deactivate_item_by_index` succeeds every time, since that slot still shows it, and the
/// drops leave the slots as `drop_all` says. `next_actives` and, where it stopped,
/// `repeat_after_eof` then give `refill_round` by their contracts.
pub proof fn lemma_round_of_calls(actives: Seq<ActiveState>, n: int, len: int)
    requires
        slots_wf(actives, n, len),
        forall|j: int| 0 <= j < n ==> (#[trigger] actives[j]) is Enable,
    ensures
        forall|j: int|
            0 <= j < n ==> has_slot_for(drops_made(actives, n, j as nat), #[trigger] actives[j].index()),
        drops_made(actives, n, n as nat) == drop_all(actives),
{
    assert forall|j: int| 0 <= j < n implies has_slot_for(
        drops_made(actives, n, j as nat),
        #[trigger] actives[j].index(),
    ) by {
        lemma_drops_made(actives, n, len, j as nat);
        assert(drops_made(actives, n, j as nat)[j] == actives[j]);
    }
    lemma_drops_made(actives, n, len, n as nat);
    assert(drops_made(actives, n, n as nat) =~= drop_all(actives));
}

/// One round of play over `n` slots and `len` items: every active item is dropped, then
/// `next_actives` moves the slots on and, where it stopped at a slot, `repeat_after_eof`
/// refills from the first items.
pub open spec fn refill_round(actives: Seq<ActiveState>, n: int, len: int) -> Seq<ActiveState> {
    let dropped = drop_all(actives);
    let stop = first_blocked(dropped, n, len);
    if stop == n {
        advance(dropped, n, len)
    } else {
        repeated(advance(dropped, n, len), n, stop)
    }
}

/// `k` rounds of play.
pub open spec fn refill_rounds(actives: Seq<ActiveState>, n: int, len: int, k: nat) -> Seq<
    ActiveState,
>
    decreases k,
{
    if k == 0 {
        actives
    } else {
        refill_round(refill_rounds(actives, n, len, (k - 1) as nat), n, len)
    }
}

/// Dropping every active item and refilling keeps all `n` slots enabled, round after round,
/// when the number of items is a multiple of `n`: after `k` rounds from a fresh `Stateble`
/// the slots show row `k` modulo the number of rows, so the items repeat once they run out.
pub proof fn lemma_refill_rounds(n: int, len: int, k: nat)
    requires
        n > 0,
        len % n == 0,
        n <= len <= usize::MAX,
    ensures
        refill_rounds(initial_actives(n as nat), n, len, k) == enabled_row((k as int) % (len / n), n),
        forall|j: int|
            0 <= j < n ==> (#[trigger] refill_rounds(initial_actives(n as nat), n, len, k)[j]) is Enable,
        slots_wf(refill_rounds(initial_actives(n as nat), n, len, k), n, len),
    decreases k,
{
    let q = len / n;
    vstd::arithmetic::div_mod::lemma_fundamental_div_mod(len, n);
    assert(len == n * q);
    assert(q >= 1) by (nonlinear_arith)
        requires
            len == n * q,
            n > 0,
            n <= len,
    ;
    if k == 0 {
        vstd::arithmetic::div_mod::lemma_small_mod(0, q as nat);
        assert(initial_actives(n as nat) =~= enabled_row(0, n));
    } else {
        let k1 = (k - 1) as nat;
        lemma_refill_rounds(n, len, k1);
        let r = (k1 as int) % q;
        let a = enabled_row(r, n);
        assert(0 <= r < q);
        assert((r + 1) * n <= len) by (nonlinear_arith)
            requires
                r + 1 <= q,
                len == n * q,
                n > 0,
        ;
        assert(drop_all(a) =~= dropped_row(r, n));
        lemma_dropped_round(n, len, r);
        vstd::arithmetic::div_mod::lemma_add_mod_noop(k1 as int, 1, q);
        if q == 1 {
            assert((r + 2) * n > len) by (nonlinear_arith)
                requires
                    r == 0,
                    len == n * q,
                    q == 1,
                    n > 0,
            ;
            assert((k as int) % q == 0);
        } else {
            vstd::arithmetic::div_mod::lemma_small_mod(1, q as nat);
            assert((r + 1) % q == (k as int) % q);
            if r + 1 < q {
                vstd::arithmetic::div_mod::lemma_small_mod((r + 1) as nat, q as nat);
                assert((r + 2) * n <= len) by (nonlinear_arith)
                    requires
                        r + 2 <= q,
                        len == n * q,
                        n > 0,
                ;
            } else {
                vstd::arithmetic::div_mod::lemma_mod_self_0(q);
                assert((r + 2) * n > len) by (nonlinear_arith)
                    requires
                        r + 1 == q,
                        len == n * q,
                        n > 0,
                ;
            }
        }
    }
    let row = (k as int) % q;
    assert((row + 1) * n <= len) by (nonlinear_arith)
        requires
            0 <= row < q,
            len == n * q,
            n > 0,
    ;
    lemma_enabled_row_wf(n, len, row);
}

/// The slots enabled on a row that exists are well formed.
proof fn lemma_enabled_row_wf(n: int, len: int, row: int)
    requires
        n > 0,
        len % n == 0,
        row >= 0,
        (row + 1) * n <= len,
        len <= usize::MAX,
    ensures
        slots_wf(enabled_row(row, n), n, len),
{
    lemma_dropped_round(n, len, row);
    assert forall|j: int| 0 <= j < n implies #[trigger] enabled_row(row, n)[j].index() == dropped_row(
        row,
        n,
    )[j].index() by {}
}

/// The index of the first element of `s` equal to `x`, for an `x` that `s` holds.
pub open spec fn first_index_of<A>(s: Seq<A>, x: A) -> int
    recommends
        s.contains(x),
{
    choose|p: int| 0 <= p < s.len() && s[p] == x && forall|q: int| 0 <= q < p ==> s[q] != x
}

/// The first index at which an element equal to `x` stands is `first_index_of`.
pub proof fn lemma_first_index_of<A>(s: Seq<A>, x: A, p: int)
    requires
        0 <= p < s.len(),
        s[p] == x,
        forall|q: int| 0 <= q < p ==> s[q] != x,
    ensures
        s.contains(x),
        first_index_of(s, x) == p,
{
    let c = first_index_of(s, x);
    assert(s.contains(x));
    if c < p {
        assert(s[c] != x);
    } else if c > p {
        assert(s[p] != x);
    }
}

} // verus!
