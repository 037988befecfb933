//! The aggregate that per-request outcomes are merged into.

use vstd::multiset::*;
use vstd::prelude::*;

use crate::outcome::{Outcome, StatusLabel};

verus! {

/// One entry of the status distribution: a label and how often it occurred.
#[derive(Clone, Copy, Debug, PartialEq, Eq, Structural)]
pub struct StatusCount {
    pub label: StatusLabel,
    pub count: usize,
}

/// The multiset that holds `k` copies of `label` and nothing else.
pub open spec fn copies(label: StatusLabel, k: nat) -> Multiset<StatusLabel>
    decreases k,
{
    if k == 0 {
        Multiset::empty()
    } else {
        copies(label, (k - 1) as nat).insert(label)
    }
}

/// The labels that a list of entries stands for, each as often as its
/// entries count it.
pub open spec fn bag_of(entries: Seq<StatusCount>) -> Multiset<StatusLabel>
    decreases entries.len(),
{
    if entries.len() == 0 {
        Multiset::empty()
    } else {
        bag_of(entries.drop_last()).add(copies(entries.last().label, entries.last().count as nat))
    }
}

/// No label occurs in two entries, and no entry counts zero.
pub open spec fn distinct_labels(entries: Seq<StatusCount>) -> bool {
    &&& forall|i: int, j: int|
        0 <= i < j < entries.len() ==> (#[trigger] entries[i]).label != (#[trigger] entries[j]).label
    &&& forall|i: int| 0 <= i < entries.len() ==> (#[trigger] entries[i]).count >= 1
}

/// `copies(label, k)` holds `label` exactly `k` times, and has `k` elements.
pub proof fn lemma_copies(label: StatusLabel, k: nat)
    ensures
        copies(label, k).len() == k,
        copies(label, k).count(label) == k,
        forall|other: StatusLabel| other != label ==> copies(label, k).count(other) == 0,
    decreases k,
{
    broadcast use group_multiset_axioms;

    if k > 0 {
        lemma_copies(label, (k - 1) as nat);
    }
}

/// How often `bag_of` holds a label that no entry names, or that exactly
/// the entry at `at` names.
pub proof fn lemma_bag_count(entries: Seq<StatusCount>, label: StatusLabel)
    ensures
        (forall|i: int| 0 <= i < entries.len() ==> (#[trigger] entries[i]).label != label)
            ==> bag_of(entries).count(label) == 0,
        forall|at: int|
            #![trigger entries[at]]
            0 <= at < entries.len() && entries[at].label == label && (forall|i: int|
                0 <= i < entries.len() && i != at ==> (#[trigger] entries[i]).label != label)
                ==> bag_of(entries).count(label) == entries[at].count,
    decreases entries.len(),
{
    broadcast use group_multiset_axioms;

    if entries.len() > 0 {
        let rest = entries.drop_last();
        let last = entries.last();
        lemma_bag_count(rest, label);
        lemma_copies(last.label, last.count as nat);
        assert forall|at: int|
            #![trigger entries[at]]
            0 <= at < entries.len() && entries[at].label == label && (forall|i: int|
                0 <= i < entries.len() && i != at ==> (#[trigger] entries[i]).label
                    != label) implies bag_of(entries).count(label) == entries[at].count by {
            if at == entries.len() - 1 {
                assert forall|i: int| 0 <= i < rest.len() implies (#[trigger] rest[i]).label
                    != label by {
                    assert(rest[i] == entries[i]);
                }
            } else {
                assert(rest[at] == entries[at]);
                assert forall|i: int| 0 <= i < rest.len() && i != at implies (#[trigger] rest[i]).label
                    != label by {
                    assert(rest[i] == entries[i]);
                }
                assert(entries[entries.len() - 1].label != label);
            }
        }
        if forall|i: int| 0 <= i < entries.len() ==> (#[trigger] entries[i]).label != label {
            assert forall|i: int| 0 <= i < rest.len() implies (#[trigger] rest[i]).label
                != label by {
                assert(rest[i] == entries[i]);
            }
            assert(entries[entries.len() - 1].label != label);
        }
    }
}

/// Appending an entry adds its copies to the bag.
pub proof fn lemma_bag_push(entries: Seq<StatusCount>, entry: StatusCount)
    ensures
        bag_of(entries.push(entry)) == bag_of(entries).add(
            copies(entry.label, entry.count as nat),
        ),
{
    assert(entries.push(entry).drop_last() =~= entries);
}

/// Raising the count of one entry by one inserts its label into the bag.
pub proof fn lemma_bag_increment(entries: Seq<StatusCount>, at: int)
    requires
        0 <= at < entries.len(),
        entries[at].count < usize::MAX,
    ensures
        bag_of(
            entries.update(
                at,
                StatusCount { label: entries[at].label, count: (entries[at].count + 1) as usize },
            ),
        ) == bag_of(entries).insert(entries[at].label),
    decreases entries.len(),
{
    broadcast use group_multiset_axioms;

    let raised = StatusCount { label: entries[at].label, count: (entries[at].count + 1) as usize };
    let updated = entries.update(at, raised);
    if at == entries.len() - 1 {
        assert(updated.drop_last() =~= entries.drop_last());
        assert(copies(raised.label, raised.count as nat) == copies(
            raised.label,
            entries[at].count as nat,
        ).insert(raised.label));
        assert(bag_of(updated) =~= bag_of(entries).insert(entries[at].label));
    } else {
        lemma_bag_increment(entries.drop_last(), at);
        assert(updated.drop_last() =~= entries.drop_last().update(at, raised));
        assert(updated.last() == entries.last());
        assert(bag_of(updated) =~= bag_of(entries).insert(entries[at].label));
    }
}

/// The index of the entry that names `label`, or the number of entries
/// where none does.
pub open spec fn label_index(entries: Seq<StatusCount>, label: StatusLabel) -> int
    decreases entries.len(),
{
    if entries.len() == 0 {
        0
    } else if entries[0].label == label {
        0
    } else {
        1 + label_index(entries.drop_first(), label)
    }
}

/// The entries after one more occurrence of `label`: the count of its
/// entry rises by one, or a new entry with count one is appended.
pub open spec fn counted_under(entries: Seq<StatusCount>, label: StatusLabel) -> Seq<StatusCount> {
    let at = label_index(entries, label);
    if at < entries.len() {
        entries.update(at, StatusCount { label, count: (entries[at].count + 1) as usize })
    } else {
        entries.push(StatusCount { label, count: 1 })
    }
}

/// An index whose entry names `label`, with no entry before it that does,
/// is the `label_index`; so is the number of entries where none names it.
pub proof fn lemma_label_index_is(entries: Seq<StatusCount>, label: StatusLabel, at: int)
    requires
        0 <= at <= entries.len(),
        at < entries.len() ==> entries[at].label == label,
        forall|j: int| 0 <= j < at ==> (#[trigger] entries[j]).label != label,
    ensures
        label_index(entries, label) == at,
    decreases entries.len(),
{
    if entries.len() > 0 && at > 0 {
        let rest = entries.drop_first();
        assert(entries[0].label != label);
        assert forall|j: int| 0 <= j < at - 1 implies (#[trigger] rest[j]).label != label by {
            assert(rest[j] == entries[j + 1]);
        }
        lemma_label_index_is(rest, label, at - 1);
    }
}

/// What an accumulator holds, as mathematical values.
#[verifier::ext_equal]
pub struct AccumulatorView {
    /// The latency samples in the order in which they were merged.
    pub latencies: Seq<u64>,
    /// The label of every merged outcome.
    pub labels: Multiset<StatusLabel>,
    /// The status distribution: an entry for each label, in the order in
    /// which the labels were first seen.
    pub status_counts: Seq<StatusCount>,
    pub success: nat,
    pub failure: nat,
    pub total_bytes: nat,
    pub duration_micros: nat,
}

impl AccumulatorView {
    /// The accumulator into which nothing was merged.
    pub open spec fn empty() -> AccumulatorView {
        AccumulatorView {
            latencies: Seq::empty(),
            labels: Multiset::empty(),
            status_counts: Seq::empty(),
            success: 0,
            failure: 0,
            total_bytes: 0,
            duration_micros: 0,
        }
    }

    /// The number of outcomes merged.
    pub open spec fn total(self) -> nat {
        self.success + self.failure
    }

    /// The accumulator after one more outcome: one counter rises by one,
    /// the label is counted, and latency and bytes are added where the
    /// outcome carries them.
    pub open spec fn merge(self, outcome: Outcome) -> AccumulatorView {
        AccumulatorView {
            latencies: match outcome.spec_latency() {
                Some(latency) => self.latencies.push(latency),
                None => self.latencies,
            },
            labels: self.labels.insert(outcome.spec_label()),
            status_counts: counted_under(self.status_counts, outcome.spec_label()),
            success: if outcome.spec_is_success() {
                self.success + 1
            } else {
                self.success
            },
            failure: if outcome.spec_is_success() {
                self.failure
            } else {
                self.failure + 1
            },
            total_bytes: self.total_bytes + outcome.spec_byte_size() as nat,
            duration_micros: self.duration_micros,
        }
    }

    /// The accumulator after a sequence of outcomes, merged in order.
    pub open spec fn merge_all(self, outcomes: Seq<Outcome>) -> AccumulatorView
        decreases outcomes.len(),
    {
        if outcomes.len() == 0 {
            self
        } else {
            self.merge_all(outcomes.drop_last()).merge(outcomes.last())
        }
    }

    /// The counters agree with each other: every outcome was counted once
    /// as a success or a failure and once under its label, no outcome
    /// brought more than one latency sample, and none more bytes than a
    /// payload length can state.
    pub open spec fn balanced(self) -> bool {
        &&& self.labels.len() == self.success + self.failure
        &&& self.latencies.len() <= self.success + self.failure
        &&& self.total_bytes <= (self.success + self.failure) * u64::MAX
    }
}

/// Merging keeps the counters balanced and counts exactly one outcome more.
pub proof fn lemma_merge_balanced(acc: AccumulatorView, outcome: Outcome)
    requires
        acc.balanced(),
    ensures
        acc.merge(outcome).balanced(),
        acc.merge(outcome).total() == acc.total() + 1,
        acc.merge(outcome).labels.count(outcome.spec_label()) == acc.labels.count(
            outcome.spec_label(),
        ) + 1,
{
    broadcast use group_multiset_axioms;

    assert((acc.total() + 1) * u64::MAX == acc.total() * u64::MAX + u64::MAX) by (nonlinear_arith);
}

/// Whatever the outcomes and their order, merging `n` of them into an
/// empty accumulator gives `success + failure == n`, with the status
/// counts summing to the same `n`.
pub proof fn lemma_merge_all_counts(outcomes: Seq<Outcome>)
    ensures
        AccumulatorView::empty().merge_all(outcomes).balanced(),
        AccumulatorView::empty().merge_all(outcomes).total() == outcomes.len(),
        AccumulatorView::empty().merge_all(outcomes).labels.len() == outcomes.len(),
    decreases outcomes.len(),
{
    broadcast use group_multiset_axioms;

    if outcomes.len() > 0 {
        lemma_merge_all_counts(outcomes.drop_last());
        lemma_merge_balanced(
            AccumulatorView::empty().merge_all(outcomes.drop_last()),
            outcomes.last(),
        );
    }
}

/// Aggregate state of one batch: latency samples, the status
/// distribution, the success and failure counters, the bytes received and
/// the wall-clock duration.
#[derive(Clone, Debug)]
pub struct ResultAccumulator {
    latencies: Vec<u64>,
    status_counts: Vec<StatusCount>,
    success: usize,
    failure: usize,
    total_bytes: u128,
    duration_micros: u64,
}

impl View for ResultAccumulator {
    type V = AccumulatorView;

    closed spec fn view(&self) -> AccumulatorView {
        AccumulatorView {
            latencies: self.latencies@,
            labels: bag_of(self.status_counts@),
            status_counts: self.status_counts@,
            success: self.success as nat,
            failure: self.failure as nat,
            total_bytes: self.total_bytes as nat,
            duration_micros: self.duration_micros as nat,
        }
    }
}

impl ResultAccumulator {
    /// The accumulator is consistent: its entries name each label once,
    /// they stand for the labels that were merged, and the counters
    /// balance.
    pub open spec fn wf(&self) -> bool {
        &&& distinct_labels(self@.status_counts)
        &&& bag_of(self@.status_counts) == self@.labels
        &&& self@.balanced()
        &&& self@.total() <= usize::MAX
    }

    /// An accumulator into which nothing was merged yet.
    pub fn new() -> (acc: ResultAccumulator)
        ensures
            acc.wf(),
            acc@ == AccumulatorView::empty(),
    {
        ResultAccumulator {
            latencies: Vec::new(),
            status_counts: Vec::new(),
            success: 0,
            failure: 0,
            total_bytes: 0,
            duration_micros: 0,
        }
    }

    /// Merges one outcome: raises the success or the failure counter,
    /// counts the outcome under its label, and adds the latency sample and
    /// the byte size where the outcome carries them. The outcome has to
    /// agree with its status code: a success is a 2xx response, an HTTP
    /// failure any other.
    pub fn merge(&mut self, outcome: Outcome)
        requires
            old(self).wf(),
            old(self)@.total() < usize::MAX,
            outcome.well_classified(),
        ensures
            final(self).wf(),
            final(self)@ == old(self)@.merge(outcome),
    {
        proof {
            lemma_merge_balanced(self@, outcome);
        }
        if outcome.is_success() {
            self.success = self.success + 1;
        } else {
            self.failure = self.failure + 1;
        }
        match outcome.latency() {
            Some(latency) => {
                self.latencies.push(latency);
            },
            None => {},
        }
        assert(self.total_bytes + outcome.spec_byte_size() <= u128::MAX) by {
            let merged = old(self)@.total();
            assert(merged * u64::MAX <= usize::MAX * u64::MAX) by (nonlinear_arith)
                requires
                    merged <= usize::MAX,
            ;
            assert(usize::MAX * u64::MAX + u64::MAX <= u128::MAX) by (nonlinear_arith);
        }
        self.total_bytes = self.total_bytes + outcome.byte_size() as u128;
        self.count_label(outcome.label());
    }

    /// Counts one more occurrence of `label` in the status distribution.
    fn count_label(&mut self, label: StatusLabel)
        requires
            distinct_labels(old(self).status_counts@),
            bag_of(old(self).status_counts@).len() < usize::MAX,
        ensures
            distinct_labels(final(self).status_counts@),
            bag_of(final(self).status_counts@) == bag_of(old(self).status_counts@).insert(label),
            final(self).status_counts@ == counted_under(old(self).status_counts@, label),
            final(self).latencies == old(self).latencies,
            final(self).success == old(self).success,
            final(self).failure == old(self).failure,
            final(self).total_bytes == old(self).total_bytes,
            final(self).duration_micros == old(self).duration_micros,
    {
        broadcast use group_multiset_axioms;

        let ghost before = self.status_counts@;
        let mut i: usize = 0;
        while i < self.status_counts.len()
            invariant
                i <= self.status_counts.len(),
                self.status_counts@ == before,
                before == old(self).status_counts@,
                distinct_labels(before),
                bag_of(before).len() < usize::MAX,
                forall|k: int| 0 <= k < i ==> (#[trigger] before[k]).label != label,
                self.latencies == old(self).latencies,
                self.success == old(self).success,
                self.failure == old(self).failure,
                self.total_bytes == old(self).total_bytes,
                self.duration_micros == old(self).duration_micros,
            decreases self.status_counts.len() - i,
        {
            let entry = self.status_counts[i];
            if entry.label == label {
                proof {
                    assert forall|k: int| 0 <= k < before.len() && k != i implies (
                    #[trigger] before[k]).label != label by {
                        if k > i {
                            assert(before[i as int].label != before[k].label);
                        }
                    }
                    lemma_bag_count(before, label);
                    assert(bag_of(before).count(label) == entry.count);
                    lemma_bag_increment(before, i as int);
                    lemma_label_index_is(before, label, i as int);
                }
                self.status_counts.set(i, StatusCount { label: entry.label, count: entry.count + 1 });
                return ;
            }
            i = i + 1;
        }
        proof {
            lemma_label_index_is(before, label, before.len() as int);
            lemma_bag_push(before, StatusCount { label, count: 1 });
            lemma_copies(label, 1);
            assert(copies(label, 1) =~= Multiset::singleton(label));
        }
        self.status_counts.push(StatusCount { label, count: 1 });
    }

    /// Records the wall-clock duration of the batch, in microseconds.
    pub fn set_duration(&mut self, micros: u64)
        requires
            old(self).wf(),
        ensures
            final(self).wf(),
            final(self)@ == (AccumulatorView { duration_micros: micros as nat, ..old(self)@ }),
    {
        self.duration_micros = micros;
    }

    /// The number of outcomes merged as successes.
    pub fn success_count(&self) -> (n: usize)
        ensures
            n == self@.success,
    {
        self.success
    }

    /// The number of outcomes merged as failures.
    pub fn failure_count(&self) -> (n: usize)
        ensures
            n == self@.failure,
    {
        self.failure
    }

    /// The number of outcomes merged.
    pub fn total_count(&self) -> (n: usize)
        requires
            self.wf(),
        ensures
            n == self@.total(),
    {
        self.success + self.failure
    }

    /// The latency samples in the order in which they were merged.
    pub fn latencies(&self) -> (samples: &Vec<u64>)
        ensures
            samples@ == self@.latencies,
    {
        &self.latencies
    }

    /// The bytes received over all merged outcomes.
    pub fn total_bytes(&self) -> (n: u128)
        ensures
            n == self@.total_bytes,
    {
        self.total_bytes
    }

    /// The wall-clock duration of the batch, in microseconds.
    pub fn duration_micros(&self) -> (n: u64)
        ensures
            n == self@.duration_micros,
    {
        self.duration_micros
    }

    /// The status distribution: one entry for each label that occurred,
    /// in the order in which the labels were first seen.
    pub fn status_counts(&self) -> (entries: &Vec<StatusCount>)
        ensures
            entries@ == self@.status_counts,
    {
        &self.status_counts
    }

    /// How many merged outcomes were counted under `label`.
    pub fn count_of(&self, label: StatusLabel) -> (n: usize)
        requires
            self.wf(),
        ensures
            n == self@.labels.count(label),
    {
        let mut i: usize = 0;
        while i < self.status_counts.len()
            invariant
                i <= self.status_counts.len(),
                self.wf(),
                forall|k: int| 0 <= k < i ==> (#[trigger] self.status_counts@[k]).label != label,
            decreases self.status_counts.len() - i,
        {
            if self.status_counts[i].label == label {
                proof {
                    let entries = self.status_counts@;
                    lemma_bag_count(entries, label);
                    assert forall|k: int| 0 <= k < entries.len() && k != i implies (
                    #[trigger] entries[k]).label != label by {
                        if k > i {
                            assert(entries[i as int].label != entries[k].label);
                        }
                    }
                }
                return self.status_counts[i].count;
            }
            i = i + 1;
        }
        proof {
            lemma_bag_count(self.status_counts@, label);
        }
        0
    }
}

} // verus!
