//! A list with an active entry (where the cursor is) and a selected one, and how the cursor
//! moves around it.
use vstd::prelude::*;

use crate::protocol::RoleStatus;

verus! {

/// A list with an active entry and a selected entry.
#[derive(Debug)]
pub struct StatefulList<E> {
    pub selected: Option<usize>,
    pub active: Option<usize>,
    pub items: Vec<E>,
}

impl<E> StatefulList<E> {
    /// The first entry is active, none is selected.
    pub fn with_items(items: Vec<E>) -> (l: Self)
        ensures
            l.active == Some(0usize),
            l.selected is None,
            l.items@ == items@,
    {
        StatefulList { active: Some(0), selected: None, items }
    }

    /// The active and the selected entries are entries of the list.
    pub open spec fn wf(&self) -> bool {
        &&& self.active matches Some(a) ==> a < self.items@.len()
        &&& self.selected matches Some(s) ==> s < self.items@.len()
    }
}

/// The places next to `x` in a cycle of `len` places.
proof fn lemma_mod_succ(x: int, len: int)
    requires
        len > 0,
    ensures
        x % len == len - 1 ==> (x + 1) % len == 0,
        x % len != len - 1 ==> (x + 1) % len == x % len + 1,
        x % len == 0 ==> (x - 1) % len == len - 1,
        x % len != 0 ==> (x - 1) % len == x % len - 1,
{
    vstd::arithmetic::div_mod::lemma_mod_bound(x, len);
    vstd::arithmetic::div_mod::lemma_mod_bound(x + 1, len);
    vstd::arithmetic::div_mod::lemma_mod_bound(x - 1, len);
    if len == 1 {
        return;
    }
    vstd::arithmetic::div_mod::lemma_small_mod(1, len as nat);
    vstd::arithmetic::div_mod::lemma_add_mod_noop(x, 1, len);
    vstd::arithmetic::div_mod::lemma_sub_mod_noop(x, 1, len);
    let m = x % len;
    if m == len - 1 {
        vstd::arithmetic::div_mod::lemma_mod_self_0(len);
    } else {
        vstd::arithmetic::div_mod::lemma_small_mod((m + 1) as nat, len as nat);
    }
    if m == 0 {
        vstd::arithmetic::div_mod::lemma_mod_add_multiples_vanish(-1, len);
        vstd::arithmetic::div_mod::lemma_small_mod((len - 1) as nat, len as nat);
    } else {
        vstd::arithmetic::div_mod::lemma_small_mod((m - 1) as nat, len as nat);
    }
}

// ---------------------------------------------------------------------------------------
// A list of role statuses: every entry can be active.

/// The entry after `a`, the first after the last.
pub open spec fn cycle_next(a: Option<usize>, len: int) -> usize {
    match a {
        Some(i) => if i >= len - 1 {
            0
        } else {
            (i + 1) as usize
        },
        None => 0,
    }
}

/// The entry before `a`, the last before the first.
pub open spec fn cycle_prev(a: Option<usize>, len: int) -> usize {
    match a {
        Some(i) => if i == 0 {
            (len - 1) as usize
        } else {
            (i - 1) as usize
        },
        None => (len - 1) as usize,
    }
}

impl StatefulList<RoleStatus> {
    /// Moves the cursor to the next role, from the last to the first.
    pub fn next(&mut self)
        requires
            old(self).items@.len() > 0,
        ensures
            final(self).active == Some(cycle_next(old(self).active, old(self).items@.len() as int)),
            final(self).selected == old(self).selected,
            final(self).items@ == old(self).items@,
    {
        let len = self.items.len();
        self.active = match self.active {
            Some(a) => if a >= len - 1 {
                Some(0)
            } else {
                Some(a + 1)
            },
            None => Some(0),
        };
    }

    /// Moves the cursor to the previous role, from the first to the last.
    pub fn prev(&mut self)
        requires
            old(self).items@.len() > 0,
        ensures
            final(self).active == Some(cycle_prev(old(self).active, old(self).items@.len() as int)),
            final(self).selected == old(self).selected,
            final(self).items@ == old(self).items@,
    {
        let len = self.items.len();
        self.active = match self.active {
            Some(a) => if a == 0 {
                Some(len - 1)
            } else {
                Some(a - 1)
            },
            None => Some(len - 1),
        };
    }

    /// The role under the cursor.
    pub fn active(&self) -> (r: Option<RoleStatus>)
        requires
            self.wf(),
        ensures
            self.active matches Some(i) ==> r == Some(self.items@[i as int]),
            self.active is None ==> r is None,
    {
        match self.active {
            Some(i) => Some(self.items[i]),
            None => None,
        }
    }

    /// The selected role.
    pub fn selected(&self) -> (r: Option<RoleStatus>)
        requires
            self.wf(),
        ensures
            self.selected matches Some(i) ==> r == Some(self.items@[i as int]),
            self.selected is None ==> r is None,
    {
        match self.selected {
            Some(i) => Some(self.items[i]),
            None => None,
        }
    }
}

/// Moving the cursor over the roles forth and back leaves it where it was.
pub proof fn lemma_role_cursor_round_trip(a: usize, len: int)
    requires
        0 <= a < len <= usize::MAX,
    ensures
        cycle_prev(Some(cycle_next(Some(a), len)), len) == a,
        cycle_next(Some(cycle_prev(Some(a), len)), len) == a,
{
}

// ---------------------------------------------------------------------------------------
// A list of places that may be empty: the cursor skips the empty places.

/// Whether some place of the list holds an entry.
pub open spec fn any_some<E>(items: Seq<Option<E>>) -> bool {
    exists|i: int| 0 <= i < items.len() && (#[trigger] items[i]) is Some
}

/// The place `e` places after `a + 1`, going forth around the list.
pub open spec fn fwd_at<E>(items: Seq<Option<E>>, a: int, e: int) -> Option<E> {
    items[(a + 1 + e) % (items.len() as int)]
}

/// The place `e` places before `a - 1`, going back around the list.
pub open spec fn bwd_at<E>(items: Seq<Option<E>>, a: int, e: int) -> Option<E> {
    items[(a - 1 - e) % (items.len() as int)]
}

/// How many places after `a + 1 + d` (going forth around the list) the first entry lies,
/// counted from `a + 1`; the length if there is none.
pub open spec fn fwd_dist_from<E>(items: Seq<Option<E>>, a: int, d: int) -> int
    decreases items.len() - d,
{
    if d >= items.len() || d < 0 {
        items.len() as int
    } else if fwd_at(items, a, d) is Some {
        d
    } else {
        fwd_dist_from(items, a, d + 1)
    }
}

/// How many places before `a - 1 - d` (going back around the list) the first entry lies,
/// counted from `a - 1`; the length if there is none.
pub open spec fn bwd_dist_from<E>(items: Seq<Option<E>>, a: int, d: int) -> int
    decreases items.len() - d,
{
    if d >= items.len() || d < 0 {
        items.len() as int
    } else if bwd_at(items, a, d) is Some {
        d
    } else {
        bwd_dist_from(items, a, d + 1)
    }
}

/// The place of the first entry after place `a`, going forth around the list.
pub open spec fn next_entry<E>(items: Seq<Option<E>>, a: int) -> int {
    (a + 1 + fwd_dist_from(items, a, 0)) % (items.len() as int)
}

/// The place of the first entry before place `a`, going back around the list.
pub open spec fn prev_entry<E>(items: Seq<Option<E>>, a: int) -> int {
    (a - 1 - bwd_dist_from(items, a, 0)) % (items.len() as int)
}

/// The search forth finds the nearest entry: every place passed is empty, and it stops at an
/// entry unless there is none.
proof fn lemma_fwd_dist<E>(items: Seq<Option<E>>, a: int, d: int)
    requires
        0 <= d <= items.len(),
        items.len() > 0,
    ensures
        d <= fwd_dist_from(items, a, d) <= items.len(),
        forall|e: int|
            d <= e < fwd_dist_from(items, a, d) ==> (#[trigger] fwd_at(items, a, e)) is None,
        fwd_dist_from(items, a, d) < items.len() ==> items[(a + 1 + fwd_dist_from(items, a, d))
            % (items.len() as int)] is Some,
    decreases items.len() - d,
{
    if d < items.len() && fwd_at(items, a, d) is None {
        lemma_fwd_dist(items, a, d + 1);
    }
}

/// The search back finds the nearest entry: every place passed is empty, and it stops at an
/// entry unless there is none.
proof fn lemma_bwd_dist<E>(items: Seq<Option<E>>, a: int, d: int)
    requires
        0 <= d <= items.len(),
        items.len() > 0,
    ensures
        d <= bwd_dist_from(items, a, d) <= items.len(),
        forall|e: int|
            d <= e < bwd_dist_from(items, a, d) ==> (#[trigger] bwd_at(items, a, e)) is None,
        bwd_dist_from(items, a, d) < items.len() ==> items[(a - 1 - bwd_dist_from(items, a, d))
            % (items.len() as int)] is Some,
    decreases items.len() - d,
{
    if d < items.len() && bwd_at(items, a, d) is None {
        lemma_bwd_dist(items, a, d + 1);
    }
}

/// If the list holds an entry, the searches find one within a round.
proof fn lemma_dist_found<E>(items: Seq<Option<E>>, a: int)
    requires
        any_some(items),
    ensures
        fwd_dist_from(items, a, 0) < items.len(),
        bwd_dist_from(items, a, 0) < items.len(),
{
    let len = items.len() as int;
    let j = choose|j: int| 0 <= j < len && (#[trigger] items[j]) is Some;
    lemma_fwd_dist(items, a, 0);
    lemma_bwd_dist(items, a, 0);
    let dj = (j - a - 1) % len;
    let ej = (a - 1 - j) % len;
    vstd::arithmetic::div_mod::lemma_mod_bound(j - a - 1, len);
    vstd::arithmetic::div_mod::lemma_mod_bound(a - 1 - j, len);
    vstd::arithmetic::div_mod::lemma_add_mod_noop_right(a + 1, j - a - 1, len);
    vstd::arithmetic::div_mod::lemma_sub_mod_noop_right(a - 1, j - a - 1 - (a - 1 - j) - (j - a - 1), len);
    vstd::arithmetic::div_mod::lemma_small_mod(j as nat, len as nat);
    assert((a + 1 + dj) % len == j);
    assert(fwd_at(items, a, dj) is Some);
    vstd::arithmetic::div_mod::lemma_sub_mod_noop_right(a - 1, a - 1 - j, len);
    assert((a - 1 - ej) % len == j);
    assert(bwd_at(items, a, ej) is Some);
}

/// `(x % m - y) % m == (x - y) % m`.
proof fn lemma_mod_sub(x: int, y: int, m: int)
    requires
        m > 0,
    ensures
        (x % m - y) % m == (x - y) % m,
{
    vstd::arithmetic::div_mod::lemma_sub_mod_noop(x, y, m);
    vstd::arithmetic::div_mod::lemma_sub_mod_noop_right(x % m, y, m);
}

/// Moving the cursor forth to the next entry and back again, or back and forth again,
/// leaves it on the entry where it was.
pub proof fn lemma_entry_cursor_round_trip<E>(items: Seq<Option<E>>, a: int)
    requires
        0 <= a < items.len(),
        items[a] is Some,
    ensures
        prev_entry(items, next_entry(items, a)) == a,
        next_entry(items, prev_entry(items, a)) == a,
{
    lemma_forth_back(items, a);
    lemma_back_forth(items, a);
}

/// Back to the previous entry, then forth to the next: the cursor is where it was.
proof fn lemma_back_forth<E>(items: Seq<Option<E>>, a: int)
    requires
        0 <= a < items.len(),
        items[a] is Some,
    ensures
        next_entry(items, prev_entry(items, a)) == a,
{
    let len = items.len() as int;
    assert(any_some(items));
    lemma_dist_found(items, a);
    lemma_bwd_dist(items, a, 0);
    let d = bwd_dist_from(items, a, 0);
    let p = prev_entry(items, a);
    assert forall|f: int| 0 <= f < d implies (#[trigger] fwd_at(items, p, f)) is None by {
        lemma_mod_sub(a - 1 - d, -(1 + f), len);
        assert(a - 1 - d - (-(1 + f)) == a - 1 - (d - 1 - f));
        assert(bwd_at(items, a, d - 1 - f) is None);
    }
    lemma_mod_sub(a - 1 - d, -(1 + d), len);
    vstd::arithmetic::div_mod::lemma_small_mod(a as nat, len as nat);
    assert(fwd_at(items, p, d) is Some);
    lemma_fwd_dist(items, p, 0);
    let r = fwd_dist_from(items, p, 0);
    if r < d {
        assert(fwd_at(items, p, r) is Some);
    } else if r > d {
        assert(fwd_at(items, p, d) is None);
    }
}

/// Forth to the next entry, then back to the previous: the cursor is where it was.
proof fn lemma_forth_back<E>(items: Seq<Option<E>>, a: int)
    requires
        0 <= a < items.len(),
        items[a] is Some,
    ensures
        prev_entry(items, next_entry(items, a)) == a,
{
    let len = items.len() as int;
    assert(any_some(items));
    lemma_dist_found(items, a);
    lemma_fwd_dist(items, a, 0);
    let d = fwd_dist_from(items, a, 0);
    let n = next_entry(items, a);
    assert forall|f: int| 0 <= f < d implies (#[trigger] bwd_at(items, n, f)) is None by {
        lemma_mod_sub(a + 1 + d, 1 + f, len);
        assert(a + 1 + d - (1 + f) == a + 1 + (d - 1 - f));
        assert(fwd_at(items, a, d - 1 - f) is None);
    }
    lemma_mod_sub(a + 1 + d, 1 + d, len);
    vstd::arithmetic::div_mod::lemma_small_mod(a as nat, len as nat);
    assert(bwd_at(items, n, d) is Some);
    lemma_bwd_dist(items, n, 0);
    let r = bwd_dist_from(items, n, 0);
    if r < d {
        assert(bwd_at(items, n, r) is Some);
    } else if r > d {
        assert(bwd_at(items, n, d) is None);
    }
}

/// Moving forth, from any place of the list (empty or not) of a list that holds an entry,
/// the cursor lands on the first entry after it, going forward around the list: it moves
/// `d + 1` places on, every place it passes is empty, and it stops on an entry.
pub proof fn lemma_next_is_nearest_forth<E>(items: Seq<Option<E>>, a: int) -> (d: int)
    requires
        any_some(items),
        0 <= a < items.len(),
    ensures
        0 <= d < items.len(),
        next_entry(items, a) == (a + 1 + d) % (items.len() as int),
        items[next_entry(items, a)] is Some,
        forall|e: int| 0 <= e < d ==> items[#[trigger] ((a + 1 + e) % (items.len() as int))] is None,
{
    lemma_dist_found(items, a);
    lemma_fwd_dist(items, a, 0);
    let d = fwd_dist_from(items, a, 0);
    assert forall|e: int| 0 <= e < d implies items[#[trigger] ((a + 1 + e) % (items.len() as int))] is None by {
        assert(fwd_at(items, a, e) is None);
    }
    d
}

/// Moving back, from any place of the list (empty or not) of a list that holds an entry,
/// the cursor lands on the first entry before it, going backward around the list: it moves
/// `d + 1` places back, every place it passes is empty, and it stops on an entry.
pub proof fn lemma_prev_is_nearest_back<E>(items: Seq<Option<E>>, a: int) -> (d: int)
    requires
        any_some(items),
        0 <= a < items.len(),
    ensures
        0 <= d < items.len(),
        prev_entry(items, a) == (a - 1 - d) % (items.len() as int),
        items[prev_entry(items, a)] is Some,
        forall|e: int| 0 <= e < d ==> items[#[trigger] ((a - 1 - e) % (items.len() as int))] is None,
{
    lemma_dist_found(items, a);
    lemma_bwd_dist(items, a, 0);
    let d = bwd_dist_from(items, a, 0);
    assert forall|e: int| 0 <= e < d implies items[#[trigger] ((a - 1 - e) % (items.len() as int))] is None by {
        assert(bwd_at(items, a, e) is None);
    }
    d
}

/// When the list holds an entry, the cursor moves, forth or back, onto an entry.
pub proof fn lemma_cursor_lands_on_entry<E>(items: Seq<Option<E>>, a: int)
    requires
        any_some(items),
    ensures
        0 <= next_entry(items, a) < items.len(),
        items[next_entry(items, a)] is Some,
        0 <= prev_entry(items, a) < items.len(),
        items[prev_entry(items, a)] is Some,
{
    lemma_dist_found(items, a);
    lemma_fwd_dist(items, a, 0);
    lemma_bwd_dist(items, a, 0);
    vstd::arithmetic::div_mod::lemma_mod_bound(a + 1 + fwd_dist_from(items, a, 0), items.len() as int);
    vstd::arithmetic::div_mod::lemma_mod_bound(a - 1 - bwd_dist_from(items, a, 0), items.len() as int);
}

impl<E: Copy> StatefulList<Option<E>> {
    /// Moves the cursor to the next place that holds an entry, going around the list; no
    /// place is active if the list holds no entry.
    pub fn next(&mut self)
        requires
            old(self).wf(),
            any_some(old(self).items@) ==> old(self).active is Some,
        ensures
            final(self).wf(),
            final(self).selected == old(self).selected,
            final(self).items@ == old(self).items@,
            !any_some(old(self).items@) ==> final(self).active is None,
            any_some(old(self).items@) ==> final(self).active == Some(
                next_entry(old(self).items@, old(self).active->0 as int) as usize,
            ),
    {
        let len = self.items.len();
        let mut all_none = true;
        let mut i: usize = 0;
        while i < len
            invariant
                len == self.items@.len(),
                i <= len,
                all_none == forall|k: int| 0 <= k < i ==> (#[trigger] self.items@[k]) is None,
            decreases len - i,
        {
            if self.items[i].is_some() {
                all_none = false;
            }
            i = i + 1;
        }
        if all_none {
            self.active = None;
            return;
        }
        let a = self.active.unwrap();
        let ghost items = self.items@;
        let ghost li = len as int;
        proof {
            lemma_dist_found(items, a as int);
            lemma_fwd_dist(items, a as int, 0);
            lemma_mod_succ(a as int, li);
            vstd::arithmetic::div_mod::lemma_small_mod(a as nat, len as nat);
        }
        let mut next: usize = if a >= len - 1 {
            0
        } else {
            a + 1
        };
        let ghost mut d: int = 0;
        while self.items[next].is_none()
            invariant
                items == self.items@,
                len == items.len(),
                li == len,
                len > 0,
                0 <= d <= fwd_dist_from(items, a as int, 0) < len,
                next as int == (a + 1 + d) % li,
                next < len,
            decreases li - d,
        {
            proof {
                lemma_fwd_dist(items, a as int, 0);
                lemma_mod_succ(a + 1 + d, li);
                vstd::arithmetic::div_mod::lemma_mod_bound(a + 1 + d + 1, li);
            }
            next = if next >= len - 1 {
                0
            } else {
                next + 1
            };
            proof {
                d = d + 1;
            }
        }
        proof {
            lemma_fwd_dist(items, a as int, 0);
            if d < fwd_dist_from(items, a as int, 0) {
                assert(fwd_at(items, a as int, d) is None);
            }
        }
        self.active = Some(next);
    }

    /// Moves the cursor to the previous place that holds an entry, going around the list;
    /// no place is active if the list holds no entry.
    pub fn prev(&mut self)
        requires
            old(self).wf(),
            any_some(old(self).items@) ==> old(self).active is Some,
        ensures
            final(self).wf(),
            final(self).selected == old(self).selected,
            final(self).items@ == old(self).items@,
            !any_some(old(self).items@) ==> final(self).active is None,
            any_some(old(self).items@) ==> final(self).active == Some(
                prev_entry(old(self).items@, old(self).active->0 as int) as usize,
            ),
    {
        let len = self.items.len();
        let mut all_none = true;
        let mut i: usize = 0;
        while i < len
            invariant
                len == self.items@.len(),
                i <= len,
                all_none == forall|k: int| 0 <= k < i ==> (#[trigger] self.items@[k]) is None,
            decreases len - i,
        {
            if self.items[i].is_some() {
                all_none = false;
            }
            i = i + 1;
        }
        if all_none {
            self.active = None;
            return;
        }
        let a = self.active.unwrap();
        let ghost items = self.items@;
        let ghost li = len as int;
        proof {
            lemma_dist_found(items, a as int);
            lemma_bwd_dist(items, a as int, 0);
            lemma_mod_succ(a as int, li);
            vstd::arithmetic::div_mod::lemma_small_mod(a as nat, len as nat);
        }
        let mut next: usize = if a == 0 {
            len - 1
        } else {
            a - 1
        };
        let ghost mut d: int = 0;
        while self.items[next].is_none()
            invariant
                items == self.items@,
                len == items.len(),
                li == len,
                len > 0,
                0 <= d <= bwd_dist_from(items, a as int, 0) < len,
                next as int == (a - 1 - d) % li,
                next < len,
            decreases li - d,
        {
            proof {
                lemma_bwd_dist(items, a as int, 0);
                lemma_mod_succ(a - 1 - d, li);
                vstd::arithmetic::div_mod::lemma_mod_bound(a - 1 - d - 1, li);
            }
            next = if next == 0 {
                len - 1
            } else {
                next - 1
            };
            proof {
                d = d + 1;
            }
        }
        proof {
            lemma_bwd_dist(items, a as int, 0);
            if d < bwd_dist_from(items, a as int, 0) {
                assert(bwd_at(items, a as int, d) is None);
            }
        }
        self.active = Some(next);
    }

    /// The entry under the cursor.
    pub fn active(&self) -> (r: Option<E>)
        requires
            self.wf(),
            self.active matches Some(i) ==> self.items@[i as int] is Some,
        ensures
            self.active matches Some(i) ==> r == self.items@[i as int],
            self.active is None ==> r is None,
    {
        match self.active {
            Some(i) => Some(self.items[i].unwrap()),
            None => None,
        }
    }

    /// The selected entry.
    pub fn selected(&self) -> (r: Option<E>)
        requires
            self.wf(),
            self.selected matches Some(i) ==> self.items@[i as int] is Some,
        ensures
            self.selected matches Some(i) ==> r == self.items@[i as int],
            self.selected is None ==> r is None,
    {
        match self.selected {
            Some(i) => Some(self.items[i].unwrap()),
            None => None,
        }
    }
}

} // verus!
