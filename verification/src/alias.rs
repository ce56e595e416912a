//! The alias check: a pairwise alias prediction is compared with what the two
//! addresses turn out to be, and the outcome is counted.
//!
//! Counters are kept per thread and merged into the process-wide counters
//! once, when the thread retires. A [`ThreadContext`] is what one thread
//! owns: its counters and the reentrancy guard behind which it makes every
//! callback, the heap callbacks included.

use crate::guard::ReentrancyGuard;
use crate::oracle::{
    alloc_fits, guarded_check_heap, guarded_report_alloc, guarded_report_dealloc, heap_outcome,
    live_after_alloc, live_after_dealloc, sites_after_alloc, sites_after_check,
    sites_after_dealloc, HeapOracle, HeapOutcome,
};
use crate::sites::heap_checks_of;
use vstd::prelude::*;

verus! {

/// The four cells of the confusion matrix.
#[derive(Clone, Copy, Debug, PartialEq, Eq, Structural)]
pub enum AliasOutcome {
    /// Alias was predicted and the addresses are equal.
    TrueAlias,
    /// No alias was predicted and the addresses differ.
    TrueDisjoint,
    /// Alias was predicted but the addresses differ: a false positive.
    FalseAlias,
    /// No alias was predicted but the addresses are equal: a false negative,
    /// the analysis claimed a safety that did not hold.
    FalseDisjoint,
}

/// The prediction carried by a packed identifier: its most significant bit,
/// 1 for "alias", 0 for "no alias" or "no information".
pub open spec fn predicts_alias(packed_id: u32) -> bool {
    (packed_id >> 31) & 1 == 1
}

/// The call-site identifier carried by a packed identifier: its low 31 bits.
pub open spec fn call_site_of(packed_id: u32) -> u32 {
    packed_id & 0x7FFF_FFFF
}

/// The classification table. Two addresses alias exactly when they are equal.
pub open spec fn classification(p: usize, q: usize, packed_id: u32) -> AliasOutcome {
    if predicts_alias(packed_id) {
        if p == q {
            AliasOutcome::TrueAlias
        } else {
            AliasOutcome::FalseAlias
        }
    } else {
        if p == q {
            AliasOutcome::FalseDisjoint
        } else {
            AliasOutcome::TrueDisjoint
        }
    }
}

/// A packed identifier is made of its two fields and nothing else: the
/// prediction is set exactly for identifiers from `0x8000_0000` up, and the
/// call site is what remains below that bit.
pub proof fn lemma_packed_id_fields(packed_id: u32)
    ensures
        predicts_alias(packed_id) <==> packed_id >= 0x8000_0000,
        call_site_of(packed_id) < 0x8000_0000,
        packed_id == call_site_of(packed_id) + (if predicts_alias(packed_id) {
            0x8000_0000int
        } else {
            0int
        }),
{
    assert(((packed_id >> 31) & 1 == 1) <==> packed_id >= 0x8000_0000) by (bit_vector);
    assert(packed_id & 0x7FFF_FFFF < 0x8000_0000) by (bit_vector);
    assert(packed_id >= 0x8000_0000 ==> packed_id == (packed_id & 0x7FFF_FFFF) + 0x8000_0000)
        by (bit_vector);
    assert(packed_id < 0x8000_0000 ==> packed_id == packed_id & 0x7FFF_FFFF) by (bit_vector);
}

/// Reads the prediction bit of a packed identifier.
pub fn predicted_alias(packed_id: u32) -> (predicted: bool)
    ensures
        predicted == predicts_alias(packed_id),
{
    (packed_id >> 31) & 1 == 1
}

/// Reads the call-site field of a packed identifier.
pub fn call_site(packed_id: u32) -> (site: u32)
    ensures
        site == call_site_of(packed_id),
{
    packed_id & 0x7FFF_FFFF
}

/// Classifies one alias check.
pub fn classify(p: usize, q: usize, packed_id: u32) -> (outcome: AliasOutcome)
    ensures
        outcome == classification(p, q, packed_id),
        predicts_alias(packed_id) && p == q ==> outcome == AliasOutcome::TrueAlias,
        !predicts_alias(packed_id) && p == q ==> outcome == AliasOutcome::FalseDisjoint,
        predicts_alias(packed_id) && p != q ==> outcome == AliasOutcome::FalseAlias,
        !predicts_alias(packed_id) && p != q ==> outcome == AliasOutcome::TrueDisjoint,
{
    let actual = p == q;
    if predicted_alias(packed_id) {
        if actual {
            AliasOutcome::TrueAlias
        } else {
            AliasOutcome::FalseAlias
        }
    } else {
        if actual {
            AliasOutcome::FalseDisjoint
        } else {
            AliasOutcome::TrueDisjoint
        }
    }
}

/// The mathematical value of a set of alias counters.
pub struct AliasCounts {
    pub true_alias: nat,
    pub true_disjoint: nat,
    pub false_alias: nat,
    pub false_disjoint: nat,
    pub no_info: nat,
    pub total: nat,
}

impl AliasCounts {
    /// No check counted.
    pub open spec fn zero() -> AliasCounts {
        AliasCounts {
            true_alias: 0,
            true_disjoint: 0,
            false_alias: 0,
            false_disjoint: 0,
            no_info: 0,
            total: 0,
        }
    }

    /// One more check counted: `total` and the bucket of `outcome` each grow
    /// by one.
    pub open spec fn record(self, outcome: AliasOutcome) -> AliasCounts {
        match outcome {
            AliasOutcome::TrueAlias => AliasCounts {
                true_alias: self.true_alias + 1,
                total: self.total + 1,
                ..self
            },
            AliasOutcome::TrueDisjoint => AliasCounts {
                true_disjoint: self.true_disjoint + 1,
                total: self.total + 1,
                ..self
            },
            AliasOutcome::FalseAlias => AliasCounts {
                false_alias: self.false_alias + 1,
                total: self.total + 1,
                ..self
            },
            AliasOutcome::FalseDisjoint => AliasCounts {
                false_disjoint: self.false_disjoint + 1,
                total: self.total + 1,
                ..self
            },
        }
    }

    /// The counter-wise sum.
    pub open spec fn plus(self, other: AliasCounts) -> AliasCounts {
        AliasCounts {
            true_alias: self.true_alias + other.true_alias,
            true_disjoint: self.true_disjoint + other.true_disjoint,
            false_alias: self.false_alias + other.false_alias,
            false_disjoint: self.false_disjoint + other.false_disjoint,
            no_info: self.no_info + other.no_info,
            total: self.total + other.total,
        }
    }

    /// Every check counted in `total` is counted in exactly one bucket.
    pub open spec fn balanced(self) -> bool {
        self.total == self.true_alias + self.true_disjoint + self.false_alias
            + self.false_disjoint + self.no_info
    }

    /// The checks whose prediction was right.
    pub open spec fn correct(self) -> nat {
        self.true_alias + self.true_disjoint
    }
}

/// The counts after a run of checks on one thread, starting from zero.
pub open spec fn tally(outcomes: Seq<AliasOutcome>) -> AliasCounts
    decreases outcomes.len(),
{
    if outcomes.len() == 0 {
        AliasCounts::zero()
    } else {
        tally(outcomes.drop_last()).record(outcomes.last())
    }
}

/// The process-wide counts after each thread has been merged once.
pub open spec fn merged(threads: Seq<Seq<AliasOutcome>>) -> AliasCounts
    decreases threads.len(),
{
    if threads.len() == 0 {
        AliasCounts::zero()
    } else {
        merged(threads.drop_last()).plus(tally(threads.last()))
    }
}

/// The number of checks that a set of threads has performed.
pub open spec fn checks_performed(threads: Seq<Seq<AliasOutcome>>) -> nat
    decreases threads.len(),
{
    if threads.len() == 0 {
        0
    } else {
        checks_performed(threads.drop_last()) + threads.last().len()
    }
}

/// One more check on a thread is one more outcome recorded: the counts after
/// a run and one further check are the counts after the run with that
/// outcome recorded.
pub proof fn lemma_tally_step(outcomes: Seq<AliasOutcome>, outcome: AliasOutcome)
    ensures
        tally(outcomes.push(outcome)) == tally(outcomes).record(outcome),
{
    assert(outcomes.push(outcome).drop_last() =~= outcomes);
}

/// One more thread merged is its counts added: the process-wide counts after
/// a further thread has retired are the counts before plus that thread's.
pub proof fn lemma_merged_step(threads: Seq<Seq<AliasOutcome>>, thread: Seq<AliasOutcome>)
    ensures
        merged(threads.push(thread)) == merged(threads).plus(tally(thread)),
{
    assert(threads.push(thread).drop_last() =~= threads);
}

/// After N checks on one thread its `total` is N, and each check sits in
/// exactly one bucket.
pub proof fn lemma_tally_counts_every_check(outcomes: Seq<AliasOutcome>)
    ensures
        tally(outcomes).total == outcomes.len(),
        tally(outcomes).balanced(),
        tally(outcomes).no_info == 0,
    decreases outcomes.len(),
{
    if outcomes.len() > 0 {
        lemma_tally_counts_every_check(outcomes.drop_last());
    }
}

/// Once every thread has been merged, the process-wide `total` is the number
/// of checks performed over all threads: none is lost and none counted twice.
pub proof fn lemma_merged_total_is_checks_performed(threads: Seq<Seq<AliasOutcome>>)
    ensures
        merged(threads).total == checks_performed(threads),
        merged(threads).balanced(),
    decreases threads.len(),
{
    if threads.len() > 0 {
        lemma_merged_total_is_checks_performed(threads.drop_last());
        lemma_tally_counts_every_check(threads.last());
    }
}

/// With M threads of K checks each, the process-wide `total` is M times K.
pub proof fn lemma_merged_total_of_equal_threads(threads: Seq<Seq<AliasOutcome>>, k: nat)
    requires
        forall|i: int| 0 <= i < threads.len() ==> (#[trigger] threads[i]).len() == k,
    ensures
        merged(threads).total == threads.len() * k,
    decreases threads.len(),
{
    lemma_merged_total_is_checks_performed(threads);
    if threads.len() > 0 {
        let front = threads.drop_last();
        lemma_merged_total_of_equal_threads(front, k);
        lemma_merged_total_is_checks_performed(front);
        assert(threads.len() * k == front.len() * k + k) by (nonlinear_arith)
            requires
                threads.len() == front.len() + 1,
        ;
    } else {
        assert(threads.len() * k == 0) by (nonlinear_arith)
            requires
                threads.len() == 0,
        ;
    }
}

/// The alias counters of one thread.
pub struct ThreadStats {
    true_alias: usize,
    true_disjoint: usize,
    false_alias: usize,
    false_disjoint: usize,
    total: usize,
    no_info: usize,
}

impl View for ThreadStats {
    type V = AliasCounts;

    closed spec fn view(&self) -> AliasCounts {
        AliasCounts {
            true_alias: self.true_alias as nat,
            true_disjoint: self.true_disjoint as nat,
            false_alias: self.false_alias as nat,
            false_disjoint: self.false_disjoint as nat,
            no_info: self.no_info as nat,
            total: self.total as nat,
        }
    }
}

impl ThreadStats {
    /// The representation invariant: the counters are balanced.
    pub open spec fn wf(&self) -> bool {
        self@.balanced()
    }

    /// Counters of a thread that has checked nothing yet.
    pub fn new() -> (stats: Self)
        ensures
            stats@ == AliasCounts::zero(),
            stats.wf(),
    {
        Self {
            true_alias: 0,
            true_disjoint: 0,
            false_alias: 0,
            false_disjoint: 0,
            total: 0,
            no_info: 0,
        }
    }

    /// Counts one check with the given outcome.
    pub fn record(&mut self, outcome: AliasOutcome)
        requires
            old(self).wf(),
            old(self)@.total < usize::MAX,
        ensures
            final(self).wf(),
            final(self)@ == old(self)@.record(outcome),
    {
        self.total = self.total + 1;
        match outcome {
            AliasOutcome::TrueAlias => {
                self.true_alias = self.true_alias + 1;
            },
            AliasOutcome::TrueDisjoint => {
                self.true_disjoint = self.true_disjoint + 1;
            },
            AliasOutcome::FalseAlias => {
                self.false_alias = self.false_alias + 1;
            },
            AliasOutcome::FalseDisjoint => {
                self.false_disjoint = self.false_disjoint + 1;
            },
        }
    }

    /// The checks performed.
    pub fn total(&self) -> (n: usize)
        ensures
            n == self@.total,
    {
        self.total
    }

    /// The checks where alias was predicted and found.
    pub fn true_alias(&self) -> (n: usize)
        ensures
            n == self@.true_alias,
    {
        self.true_alias
    }

    /// The checks where no alias was predicted and none found.
    pub fn true_disjoint(&self) -> (n: usize)
        ensures
            n == self@.true_disjoint,
    {
        self.true_disjoint
    }

    /// The checks where alias was predicted and not found.
    pub fn false_alias(&self) -> (n: usize)
        ensures
            n == self@.false_alias,
    {
        self.false_alias
    }

    /// The checks where no alias was predicted and one was found.
    pub fn false_disjoint(&self) -> (n: usize)
        ensures
            n == self@.false_disjoint,
    {
        self.false_disjoint
    }

    /// The checks for which the analysis had nothing to say.
    pub fn no_info(&self) -> (n: usize)
        ensures
            n == self@.no_info,
    {
        self.no_info
    }
}

/// The process-wide alias counters, into which every thread is merged once.
pub struct GlobalAliasStats {
    true_alias: usize,
    true_disjoint: usize,
    false_alias: usize,
    false_disjoint: usize,
    total: usize,
    no_info: usize,
}

impl View for GlobalAliasStats {
    type V = AliasCounts;

    closed spec fn view(&self) -> AliasCounts {
        AliasCounts {
            true_alias: self.true_alias as nat,
            true_disjoint: self.true_disjoint as nat,
            false_alias: self.false_alias as nat,
            false_disjoint: self.false_disjoint as nat,
            no_info: self.no_info as nat,
            total: self.total as nat,
        }
    }
}

impl GlobalAliasStats {
    /// The representation invariant: the counters are balanced.
    pub open spec fn wf(&self) -> bool {
        self@.balanced()
    }

    /// Counters of a process in which no thread has been merged yet.
    pub fn new() -> (stats: Self)
        ensures
            stats@ == AliasCounts::zero(),
            stats.wf(),
    {
        Self {
            true_alias: 0,
            true_disjoint: 0,
            false_alias: 0,
            false_disjoint: 0,
            total: 0,
            no_info: 0,
        }
    }

    /// Adds the counters of a thread that is done. The thread's counters are
    /// consumed, so they cannot be added a second time.
    pub fn merge(&mut self, thread: ThreadStats)
        requires
            old(self).wf(),
            thread.wf(),
            old(self)@.total + thread@.total <= usize::MAX,
        ensures
            final(self).wf(),
            final(self)@ == old(self)@.plus(thread@),
    {
        self.true_alias = self.true_alias + thread.true_alias;
        self.true_disjoint = self.true_disjoint + thread.true_disjoint;
        self.false_alias = self.false_alias + thread.false_alias;
        self.false_disjoint = self.false_disjoint + thread.false_disjoint;
        self.total = self.total + thread.total;
        self.no_info = self.no_info + thread.no_info;
    }

    /// Whether the counters of `thread` can be added without exceeding what a
    /// counter can hold.
    pub fn has_room_for(&self, thread: &ThreadStats) -> (fits: bool)
        ensures
            fits == (self@.total + thread@.total <= usize::MAX),
    {
        thread.total <= usize::MAX - self.total
    }

    /// The checks performed.
    pub fn total(&self) -> (n: usize)
        ensures
            n == self@.total,
    {
        self.total
    }

    /// The checks where alias was predicted and found.
    pub fn true_alias(&self) -> (n: usize)
        ensures
            n == self@.true_alias,
    {
        self.true_alias
    }

    /// The checks where no alias was predicted and none found.
    pub fn true_disjoint(&self) -> (n: usize)
        ensures
            n == self@.true_disjoint,
    {
        self.true_disjoint
    }

    /// The checks where alias was predicted and not found.
    pub fn false_alias(&self) -> (n: usize)
        ensures
            n == self@.false_alias,
    {
        self.false_alias
    }

    /// The checks where no alias was predicted and one was found.
    pub fn false_disjoint(&self) -> (n: usize)
        ensures
            n == self@.false_disjoint,
    {
        self.false_disjoint
    }

    /// The checks for which the analysis had nothing to say.
    pub fn no_info(&self) -> (n: usize)
        ensures
            n == self@.no_info,
    {
        self.no_info
    }
}

/// What one thread owns: its reentrancy guard and its alias counters.
pub struct ThreadContext {
    guard: ReentrancyGuard,
    stats: ThreadStats,
}

impl ThreadContext {
    /// Whether an alias check of this thread is in flight.
    pub closed spec fn in_flight(&self) -> bool {
        self.guard.held()
    }

    /// The thread's counters.
    pub closed spec fn counts(&self) -> AliasCounts {
        self.stats@
    }

    /// The representation invariant: the counters are balanced.
    pub open spec fn wf(&self) -> bool {
        self.counts().balanced()
    }

    /// The context of a thread that has checked nothing yet.
    pub fn new() -> (context: Self)
        ensures
            context.wf(),
            !context.in_flight(),
            context.counts() == AliasCounts::zero(),
    {
        ThreadContext { guard: ReentrancyGuard::new(), stats: ThreadStats::new() }
    }

    /// Marks a check as in flight. Returns `false` when one already is; the
    /// caller must then give up at once.
    pub fn enter(&mut self) -> (acquired: bool)
        ensures
            acquired == !old(self).in_flight(),
            final(self).in_flight(),
            final(self).counts() == old(self).counts(),
            old(self).in_flight() ==> *final(self) == *old(self),
    {
        self.guard.enter()
    }

    /// Marks the check in flight as done.
    pub fn exit(&mut self)
        ensures
            !final(self).in_flight(),
            final(self).counts() == old(self).counts(),
    {
        self.guard.exit()
    }

    /// Checks one alias prediction: is the prediction packed into `packed_id`
    /// borne out by the addresses `p` and `q`?
    ///
    /// While another check of this thread is in flight the call is a skipped
    /// sample: it returns `None` and changes nothing. Otherwise the outcome is
    /// counted, and the guard is free again when the call returns.
    pub fn check_alias(&mut self, p: usize, q: usize, packed_id: u32) -> (outcome: Option<
        AliasOutcome,
    >)
        requires
            old(self).wf(),
            !old(self).in_flight() ==> old(self).counts().total < usize::MAX,
        ensures
            final(self).wf(),
            old(self).in_flight() ==> outcome is None && *final(self) == *old(self),
            !old(self).in_flight() ==> {
                &&& outcome == Some(classification(p, q, packed_id))
                &&& final(self).counts() == old(self).counts().record(
                    classification(p, q, packed_id),
                )
                &&& !final(self).in_flight()
            },
    {
        if !self.guard.enter() {
            return None;
        }
        let outcome = classify(p, q, packed_id);
        self.stats.record(outcome);
        self.guard.exit();
        Some(outcome)
    }

    /// Reports an allocation to `oracle` on behalf of this thread.
    ///
    /// While a callback of this thread is in flight the call is skipped and
    /// changes nothing.
    pub fn report_alloc(
        &mut self,
        oracle: &mut HeapOracle,
        address: usize,
        size: usize,
        site_id: u64,
    )
        requires
            old(oracle).wf(),
            !old(self).in_flight() && address != 0 ==> alloc_fits(
                old(oracle).sites(),
                size,
                site_id,
            ),
        ensures
            final(oracle).wf(),
            final(self).in_flight() == old(self).in_flight(),
            final(self).counts() == old(self).counts(),
            old(self).in_flight() ==> *final(oracle) == *old(oracle) && *final(self) == *old(self),
            final(oracle).live() == (if old(self).in_flight() {
                old(oracle).live()
            } else {
                live_after_alloc(old(oracle).live(), address, size, site_id)
            }),
            final(oracle).sites() == (if old(self).in_flight() {
                old(oracle).sites()
            } else {
                sites_after_alloc(old(oracle).sites(), address, size, site_id)
            }),
    {
        guarded_report_alloc(&mut self.guard, oracle, address, size, site_id);
    }

    /// Reports a release to `oracle` on behalf of this thread.
    ///
    /// While a callback of this thread is in flight the call is skipped and
    /// changes nothing.
    pub fn report_dealloc(&mut self, oracle: &mut HeapOracle, address: usize)
        requires
            old(oracle).wf(),
        ensures
            final(oracle).wf(),
            final(self).in_flight() == old(self).in_flight(),
            final(self).counts() == old(self).counts(),
            old(self).in_flight() ==> *final(oracle) == *old(oracle) && *final(self) == *old(self),
            final(oracle).live() == (if old(self).in_flight() {
                old(oracle).live()
            } else {
                live_after_dealloc(old(oracle).live(), address)
            }),
            final(oracle).sites() == (if old(self).in_flight() {
                old(oracle).sites()
            } else {
                sites_after_dealloc(old(oracle).live(), old(oracle).sites(), address)
            }),
    {
        guarded_report_dealloc(&mut self.guard, oracle, address);
    }

    /// Checks a heap prediction against `oracle` on behalf of this thread.
    ///
    /// While a callback of this thread is in flight the call is a skipped
    /// sample: it returns `None`, counts nothing and changes nothing.
    pub fn check_heap(&mut self, oracle: &mut HeapOracle, address: usize, site_id: u64) -> (outcome:
        Option<HeapOutcome>)
        requires
            old(oracle).wf(),
            !old(self).in_flight() && address != 0 ==> heap_checks_of(old(oracle).sites())
                < u64::MAX,
        ensures
            final(oracle).wf(),
            final(self).in_flight() == old(self).in_flight(),
            final(self).counts() == old(self).counts(),
            old(self).in_flight() ==> *final(oracle) == *old(oracle) && *final(self) == *old(self),
            final(oracle).live() == old(oracle).live(),
            final(oracle).sites() == (if old(self).in_flight() {
                old(oracle).sites()
            } else {
                sites_after_check(old(oracle).live(), old(oracle).sites(), address, site_id)
            }),
            outcome == (if old(self).in_flight() || address == 0 {
                None::<HeapOutcome>
            } else {
                Some(heap_outcome(old(oracle).live(), address))
            }),
    {
        guarded_check_heap(&mut self.guard, oracle, address, site_id)
    }

    /// The thread's counters.
    pub fn stats(&self) -> (stats: &ThreadStats)
        ensures
            stats@ == self.counts(),
    {
        &self.stats
    }

    /// Whether a check is in flight.
    pub fn is_in_flight(&self) -> (held: bool)
        ensures
            held == self.in_flight(),
    {
        self.guard.is_held()
    }

    /// Ends the thread's part: its counters are handed over for the merge into
    /// the process-wide counters. The context is consumed, so a thread is
    /// merged at most once.
    pub fn retire(self) -> (stats: ThreadStats)
        ensures
            stats@ == self.counts(),
    {
        self.stats
    }
}

} // verus!
