//! The site statistics table: what each call site has allocated and released,
//! and how its heap-membership predictions have fared.

use crate::sums::{lemma_total_empty, lemma_total_insert, total};
use std::collections::HashMap;
use vstd::prelude::*;

verus! {

/// The counters of one call site.
#[derive(Clone, Copy, Debug, PartialEq, Eq, Structural)]
pub struct SiteStats {
    /// Allocations reported by the site.
    pub alloc_count: u64,
    /// Bytes in those allocations.
    pub alloc_bytes: u64,
    /// Releases of objects that the site allocated.
    pub free_count: u64,
    /// Bytes in those released objects.
    pub free_bytes: u64,
    /// Heap predictions of the site that a live object confirmed.
    pub true_positive: u64,
    /// Heap predictions of the site that no live object confirmed.
    pub false_positive: u64,
}

impl SiteStats {
    /// The counters of a site that has not been heard of.
    pub open spec fn zero() -> SiteStats {
        SiteStats {
            alloc_count: 0,
            alloc_bytes: 0,
            free_count: 0,
            free_bytes: 0,
            true_positive: 0,
            false_positive: 0,
        }
    }

    /// The counters after one more allocation of `size` bytes.
    pub open spec fn with_alloc(self, size: usize) -> SiteStats {
        SiteStats {
            alloc_count: (self.alloc_count + 1) as u64,
            alloc_bytes: (self.alloc_bytes + size) as u64,
            ..self
        }
    }

    /// The counters after one more release of an object of `size` bytes.
    pub open spec fn with_free(self, size: usize) -> SiteStats {
        SiteStats {
            free_count: (self.free_count + 1) as u64,
            free_bytes: (self.free_bytes + size) as u64,
            ..self
        }
    }

    /// The counters after one more heap check: a true positive where a live
    /// object covered the address, a false positive where none did.
    pub open spec fn with_check(self, hit: bool) -> SiteStats {
        if hit {
            SiteStats { true_positive: (self.true_positive + 1) as u64, ..self }
        } else {
            SiteStats { false_positive: (self.false_positive + 1) as u64, ..self }
        }
    }

    /// All counters at zero.
    pub fn new() -> (stats: Self)
        ensures
            stats == SiteStats::zero(),
    {
        Self {
            alloc_count: 0,
            alloc_bytes: 0,
            free_count: 0,
            free_bytes: 0,
            true_positive: 0,
            false_positive: 0,
        }
    }
}

/// The counters of `site_id`, or zeros for a site that has no entry yet.
pub open spec fn site_or_new(sites: Map<u64, SiteStats>, site_id: u64) -> SiteStats {
    if sites.contains_key(site_id) {
        sites[site_id]
    } else {
        SiteStats::zero()
    }
}

/// What a site adds to the sum of true positives.
pub open spec fn true_positive_weight() -> spec_fn(SiteStats) -> nat {
    |stats: SiteStats| stats.true_positive as nat
}

/// What a site adds to the sum of false positives.
pub open spec fn false_positive_weight() -> spec_fn(SiteStats) -> nat {
    |stats: SiteStats| stats.false_positive as nat
}

/// The true positives of all sites together.
pub open spec fn true_positives_of(sites: Map<u64, SiteStats>) -> nat {
    total(sites, true_positive_weight())
}

/// The false positives of all sites together.
pub open spec fn false_positives_of(sites: Map<u64, SiteStats>) -> nat {
    total(sites, false_positive_weight())
}

/// The heap checks of all sites together.
pub open spec fn heap_checks_of(sites: Map<u64, SiteStats>) -> nat {
    true_positives_of(sites) + false_positives_of(sites)
}

/// The table of per-site counters, with entries made on first reference.
///
/// Beside the entries the table keeps the sums of true and false positives
/// over all sites, so that the final report need not walk the table.
pub struct SiteTable {
    sites: HashMap<u64, SiteStats>,
    true_positives: u64,
    false_positives: u64,
}

impl View for SiteTable {
    type V = Map<u64, SiteStats>;

    /// The counters of every site that has an entry.
    closed spec fn view(&self) -> Map<u64, SiteStats> {
        self.sites@
    }
}

impl SiteTable {
    /// The representation invariant: the two running sums are the sums over
    /// the entries, and together they fit a counter.
    pub closed spec fn wf(&self) -> bool {
        &&& self.true_positives == true_positives_of(self@)
        &&& self.false_positives == false_positives_of(self@)
        &&& self.true_positives + self.false_positives <= u64::MAX
    }

    /// A table has finitely many entries, and in a well-formed one the heap
    /// checks of all sites together fit a counter.
    pub proof fn lemma_view_is_finite(&self)
        ensures
            self@.dom().finite(),
            self.wf() ==> heap_checks_of(self@) <= u64::MAX,
    {
        vstd::std_specs::hash::axiom_hashmap_view_finite_dom(self.sites);
    }

    /// A table without entries.
    pub fn new() -> (table: Self)
        ensures
            table.wf(),
            table@ == Map::<u64, SiteStats>::empty(),
            true_positives_of(table@) == 0,
            false_positives_of(table@) == 0,
    {
        proof {
            lemma_total_empty::<u64, SiteStats>(true_positive_weight());
            lemma_total_empty::<u64, SiteStats>(false_positive_weight());
        }
        SiteTable { sites: HashMap::new(), true_positives: 0, false_positives: 0 }
    }

    /// The counters of `site_id`, if the site has an entry.
    pub fn get(&self, site_id: u64) -> (stats: Option<SiteStats>)
        ensures
            stats == (if self@.contains_key(site_id) {
                Some(self@[site_id])
            } else {
                None::<SiteStats>
            }),
    {
        match self.sites.get(&site_id) {
            Some(stats) => Some(*stats),
            None => None,
        }
    }

    /// The counters of `site_id`, zeros if the site has no entry.
    pub fn get_or_new(&self, site_id: u64) -> (stats: SiteStats)
        ensures
            stats == site_or_new(self@, site_id),
    {
        match self.sites.get(&site_id) {
            Some(stats) => *stats,
            None => SiteStats::new(),
        }
    }

    /// Writes the entry of `site_id`, with a value that leaves the sums of
    /// true and false positives as they are.
    fn put(&mut self, site_id: u64, stats: SiteStats)
        requires
            old(self).wf(),
            stats.true_positive == site_or_new(old(self)@, site_id).true_positive,
            stats.false_positive == site_or_new(old(self)@, site_id).false_positive,
        ensures
            final(self).wf(),
            final(self)@ == old(self)@.insert(site_id, stats),
            true_positives_of(final(self)@) == true_positives_of(old(self)@),
            false_positives_of(final(self)@) == false_positives_of(old(self)@),
    {
        proof {
            self.lemma_view_is_finite();
            lemma_total_insert(self@, true_positive_weight(), site_id, stats);
            lemma_total_insert(self@, false_positive_weight(), site_id, stats);
        }
        self.sites.insert(site_id, stats);
    }

    /// Counts an allocation of `size` bytes for `site_id`, making the site's
    /// entry if there is none.
    pub fn record_alloc(&mut self, site_id: u64, size: usize)
        requires
            old(self).wf(),
            site_or_new(old(self)@, site_id).alloc_count < u64::MAX,
            site_or_new(old(self)@, site_id).alloc_bytes + size <= u64::MAX,
        ensures
            final(self).wf(),
            final(self)@ == old(self)@.insert(
                site_id,
                site_or_new(old(self)@, site_id).with_alloc(size),
            ),
            true_positives_of(final(self)@) == true_positives_of(old(self)@),
            false_positives_of(final(self)@) == false_positives_of(old(self)@),
    {
        let mut entry = self.get_or_new(site_id);
        entry.alloc_count = entry.alloc_count + 1;
        entry.alloc_bytes = entry.alloc_bytes + size as u64;
        self.put(site_id, entry);
    }

    /// Counts the release of an object of `size` bytes for the site that
    /// allocated it. A site without an entry gets none.
    pub fn record_free(&mut self, site_id: u64, size: usize)
        requires
            old(self).wf(),
            old(self)@.contains_key(site_id) ==> old(self)@[site_id].free_count < u64::MAX
                && old(self)@[site_id].free_bytes + size <= u64::MAX,
        ensures
            final(self).wf(),
            final(self)@ == (if old(self)@.contains_key(site_id) {
                old(self)@.insert(site_id, old(self)@[site_id].with_free(size))
            } else {
                old(self)@
            }),
            true_positives_of(final(self)@) == true_positives_of(old(self)@),
            false_positives_of(final(self)@) == false_positives_of(old(self)@),
    {
        match self.get(site_id) {
            Some(found) => {
                let mut entry = found;
                entry.free_count = entry.free_count + 1;
                entry.free_bytes = entry.free_bytes + size as u64;
                self.put(site_id, entry);
            },
            None => {},
        }
    }

    /// Counts one heap check for `site_id`, making the site's entry if there
    /// is none: a true positive where `hit` holds, a false positive otherwise.
    pub fn record_check(&mut self, site_id: u64, hit: bool)
        requires
            old(self).wf(),
            heap_checks_of(old(self)@) < u64::MAX,
        ensures
            final(self).wf(),
            final(self)@ == old(self)@.insert(
                site_id,
                site_or_new(old(self)@, site_id).with_check(hit),
            ),
            true_positives_of(final(self)@) == true_positives_of(old(self)@) + (if hit {
                1nat
            } else {
                0nat
            }),
            false_positives_of(final(self)@) == false_positives_of(old(self)@) + (if hit {
                0nat
            } else {
                1nat
            }),
    {
        proof {
            self.lemma_view_is_finite();
            lemma_site_within_total(self@, true_positive_weight(), site_id);
            lemma_site_within_total(self@, false_positive_weight(), site_id);
        }
        let mut entry = self.get_or_new(site_id);
        if hit {
            entry.true_positive = entry.true_positive + 1;
            self.true_positives = self.true_positives + 1;
        } else {
            entry.false_positive = entry.false_positive + 1;
            self.false_positives = self.false_positives + 1;
        }
        proof {
            lemma_total_insert(self.sites@, true_positive_weight(), site_id, entry);
            lemma_total_insert(self.sites@, false_positive_weight(), site_id, entry);
        }
        self.sites.insert(site_id, entry);
    }

    /// The true positives of all sites together.
    pub fn true_positives(&self) -> (n: u64)
        requires
            self.wf(),
        ensures
            n == true_positives_of(self@),
    {
        self.true_positives
    }

    /// The false positives of all sites together.
    pub fn false_positives(&self) -> (n: u64)
        requires
            self.wf(),
        ensures
            n == false_positives_of(self@),
    {
        self.false_positives
    }

    /// The heap checks of all sites together.
    pub fn heap_checks(&self) -> (n: u64)
        requires
            self.wf(),
        ensures
            n == heap_checks_of(self@),
    {
        self.true_positives + self.false_positives
    }
}

/// What one site weighs is no more than what all sites weigh together.
pub proof fn lemma_site_within_total(
    sites: Map<u64, SiteStats>,
    weight: spec_fn(SiteStats) -> nat,
    site_id: u64,
)
    requires
        sites.dom().finite(),
    ensures
        sites.contains_key(site_id) ==> weight(sites[site_id]) <= total(sites, weight),
{
    crate::sums::lemma_total_without(sites, weight, site_id);
}

} // verus!
