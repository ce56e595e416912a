//! The live allocation tracker: which byte ranges are backed by a tracked
//! heap object right now, and which call site allocated each of them.
//!
//! The tracker is modelled as a finite map from base address to
//! [`LiveObject`]. It is stored as a vector ordered by base address, so that
//! the predecessor query behind every heap check is a binary search.

use vstd::prelude::*;

verus! {

/// A heap object between the report of its allocation and the report of its
/// release.
#[derive(Clone, Copy, Debug, PartialEq, Eq, Structural)]
pub struct LiveObject {
    /// The first address of the object.
    pub base_address: usize,
    /// The number of bytes it occupies.
    pub size: usize,
    /// The call site that allocated it.
    pub site_id: u64,
}

/// Every object is filed under its own base address.
pub open spec fn keyed_by_base(live: Map<usize, LiveObject>) -> bool {
    forall|a: usize| live.contains_key(a) ==> (#[trigger] live[a]).base_address == a
}

/// `base` is the greatest tracked base address that does not exceed `address`.
pub open spec fn is_floor(live: Map<usize, LiveObject>, address: usize, base: usize) -> bool {
    &&& live.contains_key(base)
    &&& base <= address
    &&& forall|k: usize| live.contains_key(k) && k <= address ==> k <= base
}

/// The object with the greatest base address that does not exceed `address`,
/// if any object starts at or below `address`.
pub open spec fn floor_entry(live: Map<usize, LiveObject>, address: usize) -> Option<LiveObject> {
    if exists|b: usize| is_floor(live, address, b) {
        Some(live[choose|b: usize| is_floor(live, address, b)])
    } else {
        None
    }
}

/// `address` lies in the half-open range `[base, base + size)` of `object`.
pub open spec fn in_range(object: LiveObject, address: usize) -> bool {
    object.base_address <= address < object.base_address + object.size
}

/// The outcome of the heap-membership test: the object found by the
/// predecessor query exists and extends past `address`.
pub open spec fn covered(live: Map<usize, LiveObject>, address: usize) -> bool {
    match floor_entry(live, address) {
        Some(object) => in_range(object, address),
        None => false,
    }
}

/// No object starts inside the range of an object with a lower base address.
pub open spec fn separated(live: Map<usize, LiveObject>) -> bool {
    forall|a: usize, b: usize|
        live.contains_key(a) && live.contains_key(b) && a < b ==> a + (#[trigger] live[a]).size
            <= (#[trigger] live[b]).base_address
}

/// The floor of an address is unique: whichever base address qualifies is the
/// one that [`floor_entry`] reports.
pub proof fn lemma_floor_is_unique(live: Map<usize, LiveObject>, address: usize, base: usize)
    requires
        is_floor(live, address, base),
    ensures
        floor_entry(live, address) == Some(live[base]),
{
    let chosen = choose|b: usize| is_floor(live, address, b);
    assert(is_floor(live, address, chosen));
    assert(chosen <= base && base <= chosen);
}

/// When nothing starts at or below an address, it has no floor.
pub proof fn lemma_no_floor_below_first(live: Map<usize, LiveObject>, address: usize)
    requires
        forall|k: usize| live.contains_key(k) ==> k > address,
    ensures
        floor_entry(live, address) == None::<LiveObject>,
{
}

/// Where live objects keep clear of each other, the predecessor query answers
/// the question it stands for: an address is covered exactly when some live
/// object contains it.
pub proof fn lemma_covered_iff_some_object_contains(live: Map<usize, LiveObject>, address: usize)
    requires
        keyed_by_base(live),
        separated(live),
    ensures
        covered(live, address) <==> exists|a: usize|
            live.contains_key(a) && in_range(#[trigger] live[a], address),
{
    if covered(live, address) {
        let b = choose|b: usize| is_floor(live, address, b);
        assert(live.contains_key(b) && in_range(live[b], address));
    }
    if exists|a: usize| live.contains_key(a) && in_range(#[trigger] live[a], address) {
        let a = choose|a: usize| live.contains_key(a) && in_range(#[trigger] live[a], address);
        assert(a <= address);
        if exists|b: usize| is_floor(live, address, b) {
            let b = choose|b: usize| is_floor(live, address, b);
            assert(a <= b);
            if a < b {
                assert(a + live[a].size <= live[b].base_address);
            }
        } else {
            lemma_some_floor_exists(live, address, a);
        }
    }
}

/// An address at or above some tracked base address has a floor: there are
/// only so many addresses between `witness` and `address` to climb through.
proof fn lemma_some_floor_exists(live: Map<usize, LiveObject>, address: usize, witness: usize)
    requires
        live.contains_key(witness),
        witness <= address,
    ensures
        exists|b: usize| is_floor(live, address, b),
    decreases address - witness,
{
    if forall|k: usize| live.contains_key(k) && k <= address ==> k <= witness {
        assert(is_floor(live, address, witness));
    } else {
        let k = choose|k: usize| live.contains_key(k) && k <= address && k > witness;
        lemma_some_floor_exists(live, address, k);
    }
}

spec fn bases_increase(s: Seq<LiveObject>) -> bool {
    forall|i: int, j: int| 0 <= i < j < s.len() ==> s[i].base_address < s[j].base_address
}

spec fn holds(s: Seq<LiveObject>, a: usize) -> bool {
    exists|i: int| 0 <= i < s.len() && (#[trigger] s[i]).base_address == a
}

spec fn slot(s: Seq<LiveObject>, a: usize) -> int {
    choose|i: int| 0 <= i < s.len() && (#[trigger] s[i]).base_address == a
}

spec fn as_map(s: Seq<LiveObject>) -> Map<usize, LiveObject> {
    Map::new(|a: usize| holds(s, a), |a: usize| s[slot(s, a)])
}

proof fn lemma_slot(s: Seq<LiveObject>, i: int)
    requires
        bases_increase(s),
        0 <= i < s.len(),
    ensures
        holds(s, s[i].base_address),
        slot(s, s[i].base_address) == i,
        as_map(s).contains_key(s[i].base_address),
        as_map(s)[s[i].base_address] == s[i],
{
    let a = s[i].base_address;
    assert(holds(s, a));
    let j = slot(s, a);
    assert(0 <= j < s.len() && s[j].base_address == a);
    if j < i {
        assert(s[j].base_address < s[i].base_address);
    }
    if i < j {
        assert(s[i].base_address < s[j].base_address);
    }
}

proof fn lemma_as_map_keyed(s: Seq<LiveObject>)
    requires
        bases_increase(s),
    ensures
        keyed_by_base(as_map(s)),
{
    assert forall|a: usize| as_map(s).contains_key(a) implies (#[trigger] as_map(s)[a]).base_address
        == a by {
        let j = slot(s, a);
        assert(0 <= j < s.len() && s[j].base_address == a);
    }
}

proof fn lemma_insert_at(s: Seq<LiveObject>, i: int, object: LiveObject)
    requires
        bases_increase(s),
        0 <= i <= s.len(),
        forall|j: int| 0 <= j < i ==> s[j].base_address < object.base_address,
        forall|j: int| i <= j < s.len() ==> s[j].base_address > object.base_address,
    ensures
        bases_increase(s.insert(i, object)),
        as_map(s.insert(i, object)) == as_map(s).insert(object.base_address, object),
{
    let t = s.insert(i, object);
    assert(t.len() == s.len() + 1);
    assert(forall|j: int| 0 <= j < i ==> t[j] == s[j]);
    assert(t[i] == object);
    assert(forall|j: int| i < j < t.len() ==> t[j] == s[j - 1]);
    assert(bases_increase(t));
    let m = as_map(s).insert(object.base_address, object);
    assert forall|a: usize| #[trigger] as_map(t).contains_key(a) implies m.contains_key(a) by {
        let j = slot(t, a);
        assert(0 <= j < t.len() && t[j].base_address == a);
        if j < i {
            lemma_slot(s, j);
        } else if j > i {
            lemma_slot(s, j - 1);
        }
    }
    assert forall|a: usize| #[trigger] m.contains_key(a) implies as_map(t).contains_key(a)
        && as_map(t)[a] == m[a] by {
        if a == object.base_address {
            lemma_slot(t, i);
        } else {
            let j = slot(s, a);
            assert(0 <= j < s.len() && s[j].base_address == a);
            lemma_slot(s, j);
            if j < i {
                lemma_slot(t, j);
            } else {
                lemma_slot(t, j + 1);
            }
        }
    }
    assert(as_map(t) =~= m);
}

proof fn lemma_update_at(s: Seq<LiveObject>, i: int, object: LiveObject)
    requires
        bases_increase(s),
        0 <= i < s.len(),
        s[i].base_address == object.base_address,
    ensures
        bases_increase(s.update(i, object)),
        as_map(s.update(i, object)) == as_map(s).insert(object.base_address, object),
{
    let t = s.update(i, object);
    assert(bases_increase(t));
    let m = as_map(s).insert(object.base_address, object);
    assert forall|a: usize| #[trigger] as_map(t).contains_key(a) implies m.contains_key(a) by {
        let j = slot(t, a);
        assert(0 <= j < t.len() && t[j].base_address == a);
        lemma_slot(s, j);
    }
    assert forall|a: usize| #[trigger] m.contains_key(a) implies as_map(t).contains_key(a)
        && as_map(t)[a] == m[a] by {
        if a == object.base_address {
            lemma_slot(t, i);
        } else {
            let j = slot(s, a);
            assert(0 <= j < s.len() && s[j].base_address == a);
            lemma_slot(s, j);
            lemma_slot(t, j);
        }
    }
    assert(as_map(t) =~= m);
}

proof fn lemma_remove_at(s: Seq<LiveObject>, i: int)
    requires
        bases_increase(s),
        0 <= i < s.len(),
    ensures
        bases_increase(s.remove(i)),
        as_map(s.remove(i)) == as_map(s).remove(s[i].base_address),
{
    let t = s.remove(i);
    assert(t.len() == s.len() - 1);
    assert(forall|j: int| 0 <= j < i ==> t[j] == s[j]);
    assert(forall|j: int| i <= j < t.len() ==> t[j] == s[j + 1]);
    assert(bases_increase(t));
    let m = as_map(s).remove(s[i].base_address);
    assert forall|a: usize| #[trigger] as_map(t).contains_key(a) implies m.contains_key(a) by {
        let j = slot(t, a);
        assert(0 <= j < t.len() && t[j].base_address == a);
        if j < i {
            lemma_slot(s, j);
            assert(s[j].base_address < s[i].base_address);
        } else {
            lemma_slot(s, j + 1);
            assert(s[i].base_address < s[j + 1].base_address);
        }
    }
    assert forall|a: usize| #[trigger] m.contains_key(a) implies as_map(t).contains_key(a)
        && as_map(t)[a] == m[a] by {
        let j = slot(s, a);
        assert(0 <= j < s.len() && s[j].base_address == a);
        lemma_slot(s, j);
        if j < i {
            lemma_slot(t, j);
        } else {
            lemma_slot(t, j - 1);
        }
    }
    assert(as_map(t) =~= m);
}

proof fn lemma_as_map_finite(s: Seq<LiveObject>)
    requires
        bases_increase(s),
    ensures
        as_map(s).dom().finite(),
    decreases s.len(),
{
    if s.len() == 0 {
        assert(as_map(s).dom() =~= Set::<usize>::empty());
    } else {
        let front = s.drop_last();
        lemma_as_map_finite(front);
        lemma_insert_at(front, front.len() as int, s.last());
        assert(front.insert(front.len() as int, s.last()) =~= s);
    }
}

/// The set of live objects, ordered by base address.
pub struct LiveHeap {
    entries: Vec<LiveObject>,
}

impl View for LiveHeap {
    type V = Map<usize, LiveObject>;

    /// The live objects, each under its base address.
    closed spec fn view(&self) -> Map<usize, LiveObject> {
        as_map(self.entries@)
    }
}

impl LiveHeap {
    /// The representation invariant: base addresses strictly increase, so no
    /// base address is tracked twice.
    pub closed spec fn wf(&self) -> bool {
        bases_increase(self.entries@)
    }

    /// A well-formed tracker holds finitely many objects, each under its own
    /// base address.
    pub proof fn lemma_view_is_keyed_and_finite(&self)
        requires
            self.wf(),
        ensures
            keyed_by_base(self@),
            self@.dom().finite(),
    {
        lemma_as_map_keyed(self.entries@);
        lemma_as_map_finite(self.entries@);
    }

    /// A tracker with no live object.
    pub fn new() -> (heap: Self)
        ensures
            heap.wf(),
            heap@ == Map::<usize, LiveObject>::empty(),
    {
        let heap = LiveHeap { entries: Vec::new() };
        assert(heap@ =~= Map::<usize, LiveObject>::empty());
        heap
    }

    /// The number of entries whose base address does not exceed `address`,
    /// found by binary search.
    fn upper_bound(&self, address: usize) -> (idx: usize)
        requires
            self.wf(),
        ensures
            idx <= self.entries@.len(),
            forall|i: int| 0 <= i < idx ==> self.entries@[i].base_address <= address,
            forall|i: int| idx <= i < self.entries@.len() ==> self.entries@[i].base_address > address,
    {
        let mut lo: usize = 0;
        let mut hi: usize = self.entries.len();
        while lo < hi
            invariant
                bases_increase(self.entries@),
                lo <= hi <= self.entries@.len(),
                forall|i: int| 0 <= i < lo ==> self.entries@[i].base_address <= address,
                forall|i: int|
                    hi <= i < self.entries@.len() ==> self.entries@[i].base_address > address,
            decreases hi - lo,
        {
            let mid: usize = lo + (hi - lo) / 2;
            if self.entries[mid].base_address <= address {
                assert forall|i: int| 0 <= i < mid + 1 implies self.entries@[i].base_address
                    <= address by {
                    if i < mid {
                        assert(self.entries@[i].base_address < self.entries@[mid as int].base_address);
                    }
                }
                lo = mid + 1;
            } else {
                assert forall|i: int| mid <= i < self.entries@.len() implies self.entries@[i].base_address
                    > address by {
                    if mid < i {
                        assert(self.entries@[mid as int].base_address < self.entries@[i].base_address);
                    }
                }
                hi = mid;
            }
        }
        lo
    }

    /// Tracks `object` under its base address. An object already tracked
    /// under that address is replaced: the last report wins.
    pub fn insert(&mut self, object: LiveObject)
        requires
            old(self).wf(),
        ensures
            final(self).wf(),
            final(self)@ == old(self)@.insert(object.base_address, object),
    {
        let idx = self.upper_bound(object.base_address);
        if idx > 0 && self.entries[idx - 1].base_address == object.base_address {
            proof {
                lemma_update_at(self.entries@, idx - 1, object);
            }
            self.entries.set(idx - 1, object);
        } else {
            proof {
                assert forall|j: int| 0 <= j < idx implies self.entries@[j].base_address
                    < object.base_address by {
                    if j < idx - 1 {
                        assert(self.entries@[j].base_address < self.entries@[idx - 1].base_address);
                    }
                }
                lemma_insert_at(self.entries@, idx as int, object);
            }
            self.entries.insert(idx, object);
        }
    }

    /// Stops tracking the object whose base address is `address` and returns
    /// it. An address that is no base address of a live object leaves the
    /// tracker as it is.
    pub fn remove(&mut self, address: usize) -> (removed: Option<LiveObject>)
        requires
            old(self).wf(),
        ensures
            final(self).wf(),
            final(self)@ == old(self)@.remove(address),
            removed == (if old(self)@.contains_key(address) {
                Some(old(self)@[address])
            } else {
                None::<LiveObject>
            }),
    {
        let idx = self.upper_bound(address);
        if idx > 0 && self.entries[idx - 1].base_address == address {
            proof {
                lemma_slot(self.entries@, idx - 1);
                lemma_remove_at(self.entries@, idx - 1);
            }
            let object = self.entries.remove(idx - 1);
            Some(object)
        } else {
            proof {
                if holds(self.entries@, address) {
                    let j = slot(self.entries@, address);
                    assert(0 <= j < self.entries@.len() && self.entries@[j].base_address
                        == address);
                    assert(j < idx);
                    if j < idx - 1 {
                        assert(self.entries@[j].base_address < self.entries@[idx - 1].base_address);
                    }
                }
                assert(self@.remove(address) =~= self@);
            }
            None
        }
    }

    /// The predecessor query: the live object with the greatest base address
    /// that does not exceed `address`. It takes time logarithmic in the number
    /// of live objects.
    pub fn floor(&self, address: usize) -> (found: Option<LiveObject>)
        requires
            self.wf(),
        ensures
            found == floor_entry(self@, address),
    {
        let idx = self.upper_bound(address);
        if idx == 0 {
            proof {
                assert forall|k: usize| self@.contains_key(k) implies k > address by {
                    let j = slot(self.entries@, k);
                    assert(0 <= j < self.entries@.len() && self.entries@[j].base_address == k);
                }
                lemma_no_floor_below_first(self@, address);
            }
            None
        } else {
            let object = self.entries[idx - 1];
            proof {
                lemma_slot(self.entries@, idx - 1);
                assert forall|k: usize| self@.contains_key(k) && k <= address implies k
                    <= object.base_address by {
                    let j = slot(self.entries@, k);
                    assert(0 <= j < self.entries@.len() && self.entries@[j].base_address == k);
                    if j < idx - 1 {
                        assert(self.entries@[j].base_address < self.entries@[idx - 1].base_address);
                    }
                }
                lemma_floor_is_unique(self@, address, object.base_address);
            }
            Some(object)
        }
    }

    /// Whether the object found by the predecessor query extends past
    /// `address`.
    pub fn covers(&self, address: usize) -> (hit: bool)
        requires
            self.wf(),
        ensures
            hit == covered(self@, address),
    {
        match self.floor(address) {
            Some(object) => {
                proof {
                    self.lemma_view_is_keyed_and_finite();
                    lemma_floor_holds(self@, address);
                }
                address - object.base_address < object.size
            },
            None => false,
        }
    }
}

/// What [`floor_entry`] reports is a tracked object that starts at or below
/// the address.
pub proof fn lemma_floor_holds(live: Map<usize, LiveObject>, address: usize)
    requires
        keyed_by_base(live),
    ensures
        floor_entry(live, address) matches Some(object) ==> object.base_address <= address
            && live.contains_key(object.base_address) && live[object.base_address] == object,
{
    if exists|b: usize| is_floor(live, address, b) {
        let b = choose|b: usize| is_floor(live, address, b);
        assert(is_floor(live, address, b));
    }
}

} // verus!
