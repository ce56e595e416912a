//! The heap oracle: the live allocation tracker and the site statistics
//! table, kept in step by the three heap callbacks.
//!
//! Each callback exists twice: as a method of [`HeapOracle`], which says what
//! the callback does to tracker and table, and as a guarded function, which
//! is the callback as a thread makes it: behind the thread's reentrancy guard,
//! so that a call made while another callback of the thread is in flight
//! returns at once and changes nothing.

use crate::guard::ReentrancyGuard;
use crate::sites::{
    false_positives_of, heap_checks_of, site_or_new, true_positives_of, SiteStats, SiteTable,
};
use crate::sums::{lemma_total_insert, lemma_total_of_weightless, lemma_total_without, total};
use crate::tracker::{
    covered, floor_entry, in_range, keyed_by_base, lemma_floor_holds, lemma_floor_is_unique,
    LiveHeap, LiveObject,
};
use vstd::prelude::*;

verus! {

/// How a heap-membership prediction fared.
#[derive(Clone, Copy, Debug, PartialEq, Eq, Structural)]
pub enum HeapOutcome {
    /// A live object covers the address: the prediction is confirmed.
    TruePositive,
    /// No live object covers the address.
    FalsePositive,
}

/// The object that a report of an allocation puts under `address`.
pub open spec fn reported_object(address: usize, size: usize, site_id: u64) -> LiveObject {
    LiveObject { base_address: address, size, site_id }
}

/// The live objects after an allocation was reported. The null address is
/// ignored; an object already tracked under `address` is replaced.
pub open spec fn live_after_alloc(
    live: Map<usize, LiveObject>,
    address: usize,
    size: usize,
    site_id: u64,
) -> Map<usize, LiveObject> {
    if address == 0 {
        live
    } else {
        live.insert(address, reported_object(address, size, site_id))
    }
}

/// The site counters after an allocation was reported.
pub open spec fn sites_after_alloc(
    sites: Map<u64, SiteStats>,
    address: usize,
    size: usize,
    site_id: u64,
) -> Map<u64, SiteStats> {
    if address == 0 {
        sites
    } else {
        sites.insert(site_id, site_or_new(sites, site_id).with_alloc(size))
    }
}

/// The live objects after a release was reported. The null address and an
/// address that is no base address of a live object change nothing.
pub open spec fn live_after_dealloc(live: Map<usize, LiveObject>, address: usize) -> Map<
    usize,
    LiveObject,
> {
    if address == 0 {
        live
    } else {
        live.remove(address)
    }
}

/// The site counters after a release was reported: the release is counted for
/// the site that allocated the object, if an object was tracked under
/// `address`.
pub open spec fn sites_after_dealloc(
    live: Map<usize, LiveObject>,
    sites: Map<u64, SiteStats>,
    address: usize,
) -> Map<u64, SiteStats> {
    if address != 0 && live.contains_key(address) && sites.contains_key(live[address].site_id) {
        sites.insert(
            live[address].site_id,
            sites[live[address].site_id].with_free(live[address].size),
        )
    } else {
        sites
    }
}

/// How a heap check of `address` is classified.
pub open spec fn heap_outcome(live: Map<usize, LiveObject>, address: usize) -> HeapOutcome {
    if covered(live, address) {
        HeapOutcome::TruePositive
    } else {
        HeapOutcome::FalsePositive
    }
}

/// The site counters after `site_id` checked `address`. The null address is
/// ignored.
pub open spec fn sites_after_check(
    live: Map<usize, LiveObject>,
    sites: Map<u64, SiteStats>,
    address: usize,
    site_id: u64,
) -> Map<u64, SiteStats> {
    if address == 0 {
        sites
    } else {
        sites.insert(site_id, site_or_new(sites, site_id).with_check(covered(live, address)))
    }
}

/// Whether the counters of `site_id` can take one more allocation of `size`
/// bytes.
pub open spec fn alloc_fits(sites: Map<u64, SiteStats>, size: usize, site_id: u64) -> bool {
    &&& site_or_new(sites, site_id).alloc_count < u64::MAX
    &&& site_or_new(sites, site_id).alloc_bytes + size <= u64::MAX
}

/// What a live object adds to the number of live objects of `site_id`.
pub open spec fn live_count_weight(site_id: u64) -> spec_fn(LiveObject) -> nat {
    |object: LiveObject|
        if object.site_id == site_id {
            1nat
        } else {
            0nat
        }
}

/// What a live object adds to the live bytes of `site_id`.
pub open spec fn live_bytes_weight(site_id: u64) -> spec_fn(LiveObject) -> nat {
    |object: LiveObject|
        if object.site_id == site_id {
            object.size as nat
        } else {
            0nat
        }
}

/// The books balance: every live object belongs to a site that has an entry,
/// and for every site the objects released and the objects still live are
/// together no more than the objects allocated, in number and in bytes.
pub open spec fn accounted(live: Map<usize, LiveObject>, sites: Map<u64, SiteStats>) -> bool {
    &&& forall|a: usize|
        live.contains_key(a) ==> sites.contains_key((#[trigger] live[a]).site_id)
    &&& forall|site: u64| #[trigger]
        sites.contains_key(site) ==> {
            &&& sites[site].free_count + total(live, live_count_weight(site))
                <= sites[site].alloc_count
            &&& sites[site].free_bytes + total(live, live_bytes_weight(site))
                <= sites[site].alloc_bytes
        }
}

proof fn lemma_unknown_site_has_nothing_live(
    live: Map<usize, LiveObject>,
    sites: Map<u64, SiteStats>,
    site: u64,
)
    requires
        accounted(live, sites),
        live.dom().finite(),
        !sites.contains_key(site),
    ensures
        total(live, live_count_weight(site)) == 0,
        total(live, live_bytes_weight(site)) == 0,
{
    assert forall|a: usize| live.contains_key(a) implies live_count_weight(site)(#[trigger] live[a])
        == 0 by {
        assert(sites.contains_key(live[a].site_id));
    }
    assert forall|a: usize| live.contains_key(a) implies live_bytes_weight(site)(#[trigger] live[a])
        == 0 by {
        assert(sites.contains_key(live[a].site_id));
    }
    lemma_total_of_weightless(live, live_count_weight(site));
    lemma_total_of_weightless(live, live_bytes_weight(site));
}

proof fn lemma_alloc_keeps_account(
    live: Map<usize, LiveObject>,
    sites: Map<u64, SiteStats>,
    address: usize,
    size: usize,
    site_id: u64,
)
    requires
        accounted(live, sites),
        live.dom().finite(),
        address != 0,
        alloc_fits(sites, size, site_id),
    ensures
        accounted(
            live_after_alloc(live, address, size, site_id),
            sites_after_alloc(sites, address, size, site_id),
        ),
{
    let object = reported_object(address, size, site_id);
    let live2 = live.insert(address, object);
    let sites2 = sites.insert(site_id, site_or_new(sites, site_id).with_alloc(size));
    assert forall|a: usize| live2.contains_key(a) implies sites2.contains_key(
        (#[trigger] live2[a]).site_id,
    ) by {
        if a != address {
            assert(sites.contains_key(live[a].site_id));
        }
    }
    assert forall|site: u64| #[trigger] sites2.contains_key(site) implies {
        &&& sites2[site].free_count + total(live2, live_count_weight(site))
            <= sites2[site].alloc_count
        &&& sites2[site].free_bytes + total(live2, live_bytes_weight(site))
            <= sites2[site].alloc_bytes
    } by {
        lemma_total_insert(live, live_count_weight(site), address, object);
        lemma_total_insert(live, live_bytes_weight(site), address, object);
        if sites.contains_key(site) {
            assert(sites[site].free_count + total(live, live_count_weight(site))
                <= sites[site].alloc_count);
        } else {
            lemma_unknown_site_has_nothing_live(live, sites, site);
        }
    }
}

proof fn lemma_dealloc_keeps_account(
    live: Map<usize, LiveObject>,
    sites: Map<u64, SiteStats>,
    address: usize,
)
    requires
        accounted(live, sites),
        live.dom().finite(),
        address != 0,
        live.contains_key(address),
    ensures
        sites.contains_key(live[address].site_id),
        sites[live[address].site_id].free_count < u64::MAX,
        sites[live[address].site_id].free_bytes + live[address].size <= u64::MAX,
        accounted(live_after_dealloc(live, address), sites_after_dealloc(live, sites, address)),
{
    let object = live[address];
    let owner = object.site_id;
    assert(sites.contains_key(owner));
    lemma_total_without(live, live_count_weight(owner), address);
    lemma_total_without(live, live_bytes_weight(owner), address);
    let live2 = live.remove(address);
    let sites2 = sites.insert(owner, sites[owner].with_free(object.size));
    assert forall|a: usize| live2.contains_key(a) implies sites2.contains_key(
        (#[trigger] live2[a]).site_id,
    ) by {
        assert(sites.contains_key(live[a].site_id));
    }
    assert forall|site: u64| #[trigger] sites2.contains_key(site) implies {
        &&& sites2[site].free_count + total(live2, live_count_weight(site))
            <= sites2[site].alloc_count
        &&& sites2[site].free_bytes + total(live2, live_bytes_weight(site))
            <= sites2[site].alloc_bytes
    } by {
        lemma_total_without(live, live_count_weight(site), address);
        lemma_total_without(live, live_bytes_weight(site), address);
        assert(sites.contains_key(site));
    }
}

proof fn lemma_check_keeps_account(
    live: Map<usize, LiveObject>,
    sites: Map<u64, SiteStats>,
    site_id: u64,
    hit: bool,
)
    requires
        accounted(live, sites),
        live.dom().finite(),
    ensures
        accounted(live, sites.insert(site_id, site_or_new(sites, site_id).with_check(hit))),
{
    let sites2 = sites.insert(site_id, site_or_new(sites, site_id).with_check(hit));
    assert forall|a: usize| live.contains_key(a) implies sites2.contains_key(
        (#[trigger] live[a]).site_id,
    ) by {
        assert(sites.contains_key(live[a].site_id));
    }
    assert forall|site: u64| #[trigger] sites2.contains_key(site) implies {
        &&& sites2[site].free_count + total(live, live_count_weight(site))
            <= sites2[site].alloc_count
        &&& sites2[site].free_bytes + total(live, live_bytes_weight(site))
            <= sites2[site].alloc_bytes
    } by {
        if sites.contains_key(site) {
            assert(sites[site].free_count + total(live, live_count_weight(site))
                <= sites[site].alloc_count);
        } else {
            lemma_unknown_site_has_nothing_live(live, sites, site);
        }
    }
}

/// The tracker and the table behind the heap callbacks.
pub struct HeapOracle {
    live: LiveHeap,
    sites: SiteTable,
}

impl HeapOracle {
    /// The live objects, each under its base address.
    pub closed spec fn live(&self) -> Map<usize, LiveObject> {
        self.live@
    }

    /// The counters of every site that has an entry.
    pub closed spec fn sites(&self) -> Map<u64, SiteStats> {
        self.sites@
    }

    /// The representation invariant: tracker and table are well formed, and
    /// the books balance.
    pub closed spec fn wf(&self) -> bool {
        &&& self.live.wf()
        &&& self.sites.wf()
        &&& accounted(self.live@, self.sites@)
    }

    /// What holds of every well-formed oracle: finitely many live objects,
    /// each under its own base address; finitely many sites, whose heap checks
    /// together fit a counter; and books that balance, so that no site has
    /// released more than it allocated.
    pub proof fn lemma_wf_properties(&self)
        requires
            self.wf(),
        ensures
            self.live().dom().finite(),
            keyed_by_base(self.live()),
            self.sites().dom().finite(),
            heap_checks_of(self.sites()) <= u64::MAX,
            accounted(self.live(), self.sites()),
            forall|site: u64| #[trigger]
                self.sites().contains_key(site) ==> self.sites()[site].free_count
                    <= self.sites()[site].alloc_count && self.sites()[site].free_bytes
                    <= self.sites()[site].alloc_bytes,
    {
        self.live.lemma_view_is_keyed_and_finite();
        self.sites.lemma_view_is_finite();
    }

    /// An oracle that has heard of no object and no site.
    pub fn new() -> (oracle: Self)
        ensures
            oracle.wf(),
            oracle.live() == Map::<usize, LiveObject>::empty(),
            oracle.sites() == Map::<u64, SiteStats>::empty(),
            heap_checks_of(oracle.sites()) == 0,
    {
        HeapOracle { live: LiveHeap::new(), sites: SiteTable::new() }
    }

    /// Whether the counters of `site_id` can take one more allocation of
    /// `size` bytes.
    pub fn has_room_for_alloc(&self, size: usize, site_id: u64) -> (fits: bool)
        ensures
            fits == alloc_fits(self.sites(), size, site_id),
    {
        let stats = self.sites.get_or_new(site_id);
        stats.alloc_count < u64::MAX && size as u64 <= u64::MAX - stats.alloc_bytes
    }

    /// Whether the table can take one more heap check.
    pub fn has_room_for_check(&self) -> (fits: bool)
        requires
            self.wf(),
        ensures
            fits == (heap_checks_of(self.sites()) < u64::MAX),
    {
        self.sites.heap_checks() < u64::MAX
    }

    /// Records that `site_id` allocated `size` bytes at `address`. This is
    /// what the allocation callback does once the thread's guard is taken;
    /// threads call it through [`guarded_report_alloc`].
    ///
    /// The null address is ignored. Otherwise the object becomes live,
    /// replacing any object tracked under the same address, and the
    /// allocation is counted for the site.
    pub fn report_alloc(&mut self, address: usize, size: usize, site_id: u64)
        requires
            old(self).wf(),
            address != 0 ==> alloc_fits(old(self).sites(), size, site_id),
        ensures
            final(self).wf(),
            final(self).live() == live_after_alloc(old(self).live(), address, size, site_id),
            final(self).sites() == sites_after_alloc(old(self).sites(), address, size, site_id),
            true_positives_of(final(self).sites()) == true_positives_of(old(self).sites()),
            false_positives_of(final(self).sites()) == false_positives_of(old(self).sites()),
    {
        if address == 0 {
            return ;
        }
        proof {
            self.live.lemma_view_is_keyed_and_finite();
            lemma_alloc_keeps_account(self.live@, self.sites@, address, size, site_id);
        }
        self.sites.record_alloc(site_id, size);
        self.live.insert(LiveObject { base_address: address, size, site_id });
    }

    /// Records that the object at `address` was released. This is what the
    /// release callback does once the thread's guard is taken; threads call
    /// it through [`guarded_report_dealloc`].
    ///
    /// The null address is ignored, and so is an address under which no
    /// object is tracked. Otherwise the object stops being live and the
    /// release is counted for the site that allocated it.
    pub fn report_dealloc(&mut self, address: usize)
        requires
            old(self).wf(),
        ensures
            final(self).wf(),
            final(self).live() == live_after_dealloc(old(self).live(), address),
            final(self).sites() == sites_after_dealloc(
                old(self).live(),
                old(self).sites(),
                address,
            ),
            true_positives_of(final(self).sites()) == true_positives_of(old(self).sites()),
            false_positives_of(final(self).sites()) == false_positives_of(old(self).sites()),
    {
        if address == 0 {
            return ;
        }
        proof {
            self.live.lemma_view_is_keyed_and_finite();
            if self.live@.contains_key(address) {
                lemma_dealloc_keeps_account(self.live@, self.sites@, address);
            }
        }
        match self.live.remove(address) {
            Some(object) => {
                self.sites.record_free(object.site_id, object.size);
            },
            None => {
                assert(self.live@ =~= old(self).live@);
            },
        }
    }

    /// Checks the prediction of `site_id` that `address` lies in a live heap
    /// object. This is what the heap-check callback does once the thread's
    /// guard is taken; threads call it through [`guarded_check_heap`].
    ///
    /// The null address is ignored. Otherwise the tracker is asked for the
    /// live object with the greatest base address at or below `address`; the
    /// check is a true positive if there is one and it extends past
    /// `address`, a false positive if not, and is counted for `site_id`.
    pub fn check_heap(&mut self, address: usize, site_id: u64) -> (outcome: Option<HeapOutcome>)
        requires
            old(self).wf(),
            address != 0 ==> heap_checks_of(old(self).sites()) < u64::MAX,
        ensures
            final(self).wf(),
            final(self).live() == old(self).live(),
            final(self).sites() == sites_after_check(
                old(self).live(),
                old(self).sites(),
                address,
                site_id,
            ),
            outcome == (if address == 0 {
                None::<HeapOutcome>
            } else {
                Some(heap_outcome(old(self).live(), address))
            }),
            true_positives_of(final(self).sites()) == true_positives_of(old(self).sites()) + (
            if outcome == Some(HeapOutcome::TruePositive) {
                1nat
            } else {
                0nat
            }),
            false_positives_of(final(self).sites()) == false_positives_of(old(self).sites()) + (
            if outcome == Some(HeapOutcome::FalsePositive) {
                1nat
            } else {
                0nat
            }),
    {
        if address == 0 {
            return None;
        }
        let hit = self.live.covers(address);
        proof {
            self.live.lemma_view_is_keyed_and_finite();
            lemma_check_keeps_account(self.live@, self.sites@, site_id, hit);
        }
        self.sites.record_check(site_id, hit);
        if hit {
            Some(HeapOutcome::TruePositive)
        } else {
            Some(HeapOutcome::FalsePositive)
        }
    }

    /// The live object with the greatest base address at or below `address`.
    pub fn floor(&self, address: usize) -> (found: Option<LiveObject>)
        requires
            self.wf(),
        ensures
            found == floor_entry(self.live(), address),
    {
        self.live.floor(address)
    }

    /// The counters of `site_id`, if the site has an entry.
    pub fn site(&self, site_id: u64) -> (stats: Option<SiteStats>)
        ensures
            stats == (if self.sites().contains_key(site_id) {
                Some(self.sites()[site_id])
            } else {
                None::<SiteStats>
            }),
    {
        self.sites.get(site_id)
    }

    /// The table of per-site counters.
    pub fn site_table(&self) -> (table: &SiteTable)
        ensures
            table@ == self.sites(),
            self.wf() ==> table.wf(),
    {
        &self.sites
    }
}

/// The allocation callback behind the thread's guard.
///
/// While a callback of the thread is in flight the call is skipped: nothing
/// changes, and the guard stays held. Otherwise the allocation is reported
/// to the oracle, and the guard is free again when the call returns.
pub fn guarded_report_alloc(
    guard: &mut ReentrancyGuard,
    oracle: &mut HeapOracle,
    address: usize,
    size: usize,
    site_id: u64,
)
    requires
        old(oracle).wf(),
        !old(guard).held() && address != 0 ==> alloc_fits(old(oracle).sites(), size, site_id),
    ensures
        final(oracle).wf(),
        final(guard).held() == old(guard).held(),
        old(guard).held() ==> *final(oracle) == *old(oracle) && *final(guard) == *old(guard),
        final(oracle).live() == (if old(guard).held() {
            old(oracle).live()
        } else {
            live_after_alloc(old(oracle).live(), address, size, site_id)
        }),
        final(oracle).sites() == (if old(guard).held() {
            old(oracle).sites()
        } else {
            sites_after_alloc(old(oracle).sites(), address, size, site_id)
        }),
        true_positives_of(final(oracle).sites()) == true_positives_of(old(oracle).sites()),
        false_positives_of(final(oracle).sites()) == false_positives_of(old(oracle).sites()),
{
    if !guard.enter() {
        return ;
    }
    oracle.report_alloc(address, size, site_id);
    guard.exit();
}

/// The release callback behind the thread's guard.
///
/// While a callback of the thread is in flight the call is skipped: nothing
/// changes, and the guard stays held. Otherwise the release is reported to
/// the oracle, and the guard is free again when the call returns.
pub fn guarded_report_dealloc(guard: &mut ReentrancyGuard, oracle: &mut HeapOracle, address: usize)
    requires
        old(oracle).wf(),
    ensures
        final(oracle).wf(),
        final(guard).held() == old(guard).held(),
        old(guard).held() ==> *final(oracle) == *old(oracle) && *final(guard) == *old(guard),
        final(oracle).live() == (if old(guard).held() {
            old(oracle).live()
        } else {
            live_after_dealloc(old(oracle).live(), address)
        }),
        final(oracle).sites() == (if old(guard).held() {
            old(oracle).sites()
        } else {
            sites_after_dealloc(old(oracle).live(), old(oracle).sites(), address)
        }),
        true_positives_of(final(oracle).sites()) == true_positives_of(old(oracle).sites()),
        false_positives_of(final(oracle).sites()) == false_positives_of(old(oracle).sites()),
{
    if !guard.enter() {
        return ;
    }
    oracle.report_dealloc(address);
    guard.exit();
}

/// The heap-check callback behind the thread's guard.
///
/// While a callback of the thread is in flight the call is a skipped sample:
/// it returns `None`, nothing is counted, no entry is made, and the guard
/// stays held. Otherwise the check is made and counted, and the guard is free
/// again when the call returns.
pub fn guarded_check_heap(
    guard: &mut ReentrancyGuard,
    oracle: &mut HeapOracle,
    address: usize,
    site_id: u64,
) -> (outcome: Option<HeapOutcome>)
    requires
        old(oracle).wf(),
        !old(guard).held() && address != 0 ==> heap_checks_of(old(oracle).sites()) < u64::MAX,
    ensures
        final(oracle).wf(),
        final(guard).held() == old(guard).held(),
        old(guard).held() ==> *final(oracle) == *old(oracle) && *final(guard) == *old(guard),
        final(oracle).live() == old(oracle).live(),
        final(oracle).sites() == (if old(guard).held() {
            old(oracle).sites()
        } else {
            sites_after_check(old(oracle).live(), old(oracle).sites(), address, site_id)
        }),
        outcome == (if old(guard).held() || address == 0 {
            None::<HeapOutcome>
        } else {
            Some(heap_outcome(old(oracle).live(), address))
        }),
        true_positives_of(final(oracle).sites()) == true_positives_of(old(oracle).sites()) + (
        if outcome == Some(HeapOutcome::TruePositive) {
            1nat
        } else {
            0nat
        }),
        false_positives_of(final(oracle).sites()) == false_positives_of(old(oracle).sites()) + (
        if outcome == Some(HeapOutcome::FalsePositive) {
            1nat
        } else {
            0nat
        }),
{
    if !guard.enter() {
        return None;
    }
    let outcome = oracle.check_heap(address, site_id);
    guard.exit();
    outcome
}

/// A report of an allocation or of a release.
pub enum HeapEvent {
    /// `site_id` allocated `size` bytes at `address`.
    Alloc { address: usize, size: usize, site_id: u64 },
    /// The object at `address` was released.
    Dealloc { address: usize },
}

/// The live objects after a run of reports to a fresh oracle.
pub open spec fn live_after(events: Seq<HeapEvent>) -> Map<usize, LiveObject>
    decreases events.len(),
{
    if events.len() == 0 {
        Map::empty()
    } else {
        let before = live_after(events.drop_last());
        match events.last() {
            HeapEvent::Alloc { address, size, site_id } => live_after_alloc(
                before,
                address,
                size,
                site_id,
            ),
            HeapEvent::Dealloc { address } => live_after_dealloc(before, address),
        }
    }
}

/// A check of an address right after the report that allocated a nonempty
/// object there is a true positive, whatever was live before, and it is
/// counted as one: the checking site has one more true positive and no more
/// false positives than before the two calls.
pub proof fn lemma_check_after_alloc_is_true_positive(
    live: Map<usize, LiveObject>,
    sites: Map<u64, SiteStats>,
    address: usize,
    size: usize,
    site_id: u64,
)
    requires
        address != 0,
        size > 0,
        site_or_new(sites, site_id).true_positive < u64::MAX,
    ensures
        heap_outcome(live_after_alloc(live, address, size, site_id), address)
            == HeapOutcome::TruePositive,
        ({
            let live_then = live_after_alloc(live, address, size, site_id);
            let sites_then = sites_after_alloc(sites, address, size, site_id);
            let sites_last = sites_after_check(live_then, sites_then, address, site_id);
            &&& sites_last.contains_key(site_id)
            &&& sites_last[site_id].true_positive == site_or_new(sites, site_id).true_positive + 1
            &&& sites_last[site_id].false_positive == site_or_new(sites, site_id).false_positive
        }),
{
    let after = live_after_alloc(live, address, size, site_id);
    assert(after.contains_key(address));
    lemma_floor_is_unique(after, address, address);
    assert(in_range(after[address], address));
}

/// A check of a non-null address that no live object contains is a false
/// positive, and it is counted as one: the checking site has one more false
/// positive and no more true positives than before.
pub proof fn lemma_check_outside_live_ranges_is_false_positive(
    live: Map<usize, LiveObject>,
    sites: Map<u64, SiteStats>,
    address: usize,
    site_id: u64,
)
    requires
        keyed_by_base(live),
        address != 0,
        forall|b: usize| live.contains_key(b) ==> !in_range(#[trigger] live[b], address),
        site_or_new(sites, site_id).false_positive < u64::MAX,
    ensures
        heap_outcome(live, address) == HeapOutcome::FalsePositive,
        ({
            let sites_last = sites_after_check(live, sites, address, site_id);
            &&& sites_last.contains_key(site_id)
            &&& sites_last[site_id].false_positive == site_or_new(sites, site_id).false_positive
                + 1
            &&& sites_last[site_id].true_positive == site_or_new(sites, site_id).true_positive
        }),
{
    lemma_floor_holds(live, address);
}

/// After any run of reports the live objects are filed under their own base
/// addresses, and none of them is filed under the null address.
pub proof fn lemma_live_after_is_keyed(events: Seq<HeapEvent>)
    ensures
        keyed_by_base(live_after(events)),
        !live_after(events).contains_key(0),
    decreases events.len(),
{
    if events.len() > 0 {
        lemma_live_after_is_keyed(events.drop_last());
    }
}

/// An address that was never reported as allocated is the base address of no
/// live object. A check of it can only be a true positive as an address
/// inside an object that starts below it.
pub proof fn lemma_unreported_address_is_no_base(events: Seq<HeapEvent>, address: usize)
    requires
        forall|i: int|
            0 <= i < events.len() ==> (#[trigger] events[i] matches HeapEvent::Alloc {
                address: a,
                ..
            } ==> a != address),
    ensures
        !live_after(events).contains_key(address),
        heap_outcome(live_after(events), address) == HeapOutcome::TruePositive ==> exists|
            b: usize,
        |
            b < address && live_after(events).contains_key(b) && in_range(
                #[trigger] live_after(events)[b],
                address,
            ),
    decreases events.len(),
{
    if events.len() > 0 {
        let front = events.drop_last();
        assert forall|i: int| 0 <= i < front.len() implies (#[trigger] front[i] matches HeapEvent::Alloc {
            address: a,
            ..
        } ==> a != address) by {
            assert(front[i] == events[i]);
        }
        lemma_unreported_address_is_no_base(front, address);
        assert(events.last() == events[events.len() - 1]);
    }
    lemma_live_after_is_keyed(events);
    lemma_floor_holds(live_after(events), address);
    if covered(live_after(events), address) {
        let object = floor_entry(live_after(events), address)->0;
        assert(live_after(events).contains_key(object.base_address));
        assert(in_range(live_after(events)[object.base_address], address));
    }
}

/// An address that lies in no range ever reported as allocated is a false
/// positive when checked, whatever else was reported.
pub proof fn lemma_address_outside_reports_is_false_positive(
    events: Seq<HeapEvent>,
    address: usize,
)
    requires
        forall|i: int|
            0 <= i < events.len() ==> (#[trigger] events[i] matches HeapEvent::Alloc {
                address: a,
                size,
                ..
            } ==> !(a <= address < a + size)),
    ensures
        heap_outcome(live_after(events), address) == HeapOutcome::FalsePositive,
{
    lemma_no_live_object_outside_reports(events, address);
    lemma_live_after_is_keyed(events);
    lemma_floor_holds(live_after(events), address);
}

proof fn lemma_no_live_object_outside_reports(events: Seq<HeapEvent>, address: usize)
    requires
        forall|i: int|
            0 <= i < events.len() ==> (#[trigger] events[i] matches HeapEvent::Alloc {
                address: a,
                size,
                ..
            } ==> !(a <= address < a + size)),
    ensures
        forall|b: usize|
            live_after(events).contains_key(b) ==> !in_range(
                #[trigger] live_after(events)[b],
                address,
            ),
    decreases events.len(),
{
    if events.len() > 0 {
        let front = events.drop_last();
        assert forall|i: int| 0 <= i < front.len() implies (#[trigger] front[i] matches HeapEvent::Alloc {
            address: a,
            size,
            ..
        } ==> !(a <= address < a + size)) by {
            assert(front[i] == events[i]);
        }
        lemma_no_live_object_outside_reports(front, address);
        assert(events.last() == events[events.len() - 1]);
        let before = live_after(front);
        assert forall|b: usize| live_after(events).contains_key(b) implies !in_range(
            #[trigger] live_after(events)[b],
            address,
        ) by {
            match events.last() {
                HeapEvent::Alloc { address: a, size, site_id } => {
                    if a == 0 || b != a {
                        assert(before.contains_key(b));
                        assert(!in_range(before[b], address));
                    }
                },
                HeapEvent::Dealloc { address: a } => {
                    assert(before.contains_key(b));
                    assert(!in_range(before[b], address));
                },
            }
        }
    }
}

} // verus!
