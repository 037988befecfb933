//! The latency histogram: ten buckets of equal width between the lowest
//! and the highest sample.

use vstd::prelude::*;

verus! {

/// The number of buckets of a histogram.
pub const BUCKETS: usize = 10;

/// The width of the bar of a bucket that holds every sample.
pub const FULL_BAR: usize = 30;

/// One bucket: the samples from `start` up to, but not including, `end`.
/// The last bucket of a histogram includes its `end`.
#[derive(Clone, Copy, Debug, PartialEq, Eq, Structural)]
pub struct HistogramBucket {
    pub start: u64,
    pub end: u64,
    /// The number of samples in the bucket.
    pub count: usize,
    /// The share of the samples in the bucket, out of `FULL_BAR`.
    pub bar_width: usize,
}

/// The lowest sample.
pub open spec fn lowest(samples: Seq<u64>) -> u64
    decreases samples.len(),
{
    if samples.len() == 0 {
        0
    } else if samples.len() == 1 {
        samples[0]
    } else {
        let rest = lowest(samples.drop_last());
        if samples.last() < rest {
            samples.last()
        } else {
            rest
        }
    }
}

/// The highest sample.
pub open spec fn highest(samples: Seq<u64>) -> u64
    decreases samples.len(),
{
    if samples.len() == 0 {
        0
    } else if samples.len() == 1 {
        samples[0]
    } else {
        let rest = highest(samples.drop_last());
        if samples.last() > rest {
            samples.last()
        } else {
            rest
        }
    }
}

/// The number of samples `x` with `lo <= x < hi`.
pub open spec fn count_between(samples: Seq<u64>, lo: int, hi: int) -> nat
    decreases samples.len(),
{
    if samples.len() == 0 {
        0
    } else {
        let rest = count_between(samples.drop_last(), lo, hi);
        if lo <= samples.last() < hi {
            rest + 1
        } else {
            rest
        }
    }
}

/// The width of a bucket: a tenth of the range of the samples, rounded
/// down.
pub open spec fn bucket_step(samples: Seq<u64>) -> int {
    (highest(samples) - lowest(samples)) / (BUCKETS as int)
}

/// Where bucket `i` starts.
pub open spec fn bucket_start(samples: Seq<u64>, i: int) -> int {
    lowest(samples) + i * bucket_step(samples)
}

/// Where bucket `i` ends: the last bucket at the highest sample, every
/// other one where the next bucket starts.
pub open spec fn bucket_end(samples: Seq<u64>, i: int) -> int {
    if i == BUCKETS - 1 {
        highest(samples) as int
    } else {
        bucket_start(samples, i + 1)
    }
}

/// Whether the value `x` falls into bucket `i`: the last bucket includes
/// its end, the others do not.
pub open spec fn in_bucket(samples: Seq<u64>, i: int, x: u64) -> bool {
    if i == BUCKETS - 1 {
        bucket_start(samples, i) <= x <= bucket_end(samples, i)
    } else {
        bucket_start(samples, i) <= x < bucket_end(samples, i)
    }
}

/// The number of samples that fall into bucket `i`.
pub open spec fn bucket_count(samples: Seq<u64>, i: int) -> nat {
    if i == BUCKETS - 1 {
        count_between(samples, bucket_start(samples, i), bucket_end(samples, i) + 1)
    } else {
        count_between(samples, bucket_start(samples, i), bucket_end(samples, i))
    }
}

/// Bucket `i` of the histogram of the samples.
pub open spec fn bucket_of(samples: Seq<u64>, i: int) -> HistogramBucket {
    HistogramBucket {
        start: bucket_start(samples, i) as u64,
        end: bucket_end(samples, i) as u64,
        count: bucket_count(samples, i) as usize,
        bar_width: (bucket_count(samples, i) * FULL_BAR / (samples.len() as int)) as usize,
    }
}

/// The histogram of the samples: no bucket where there is no sample, else
/// `BUCKETS` of them.
pub open spec fn histogram_of(samples: Seq<u64>) -> Seq<HistogramBucket> {
    if samples.len() == 0 {
        Seq::empty()
    } else {
        Seq::new(BUCKETS as nat, |i: int| bucket_of(samples, i))
    }
}

/// The number of samples that the buckets hold together.
pub open spec fn counted(buckets: Seq<HistogramBucket>) -> nat
    decreases buckets.len(),
{
    if buckets.len() == 0 {
        0
    } else {
        counted(buckets.drop_last()) + buckets.last().count as nat
    }
}

/// `lowest` and `highest` are samples, and every sample lies between them.
pub proof fn lemma_extremes(samples: Seq<u64>)
    requires
        samples.len() > 0,
    ensures
        samples.contains(lowest(samples)),
        samples.contains(highest(samples)),
        forall|i: int| 0 <= i < samples.len() ==> lowest(samples) <= #[trigger] samples[i] <= highest(samples),
    decreases samples.len(),
{
    if samples.len() == 1 {
        assert(samples[0] == lowest(samples));
    } else {
        let rest = samples.drop_last();
        lemma_extremes(rest);
        let k = choose|k: int| 0 <= k < rest.len() && rest[k] == lowest(rest);
        assert(samples[k] == rest[k]);
        let m = choose|m: int| 0 <= m < rest.len() && rest[m] == highest(rest);
        assert(samples[m] == rest[m]);
        assert(samples[samples.len() - 1] == samples.last());
        assert forall|i: int| 0 <= i < samples.len() implies lowest(samples) <= #[trigger] samples[i]
            <= highest(samples) by {
            if i < rest.len() {
                assert(samples[i] == rest[i]);
            }
        }
    }
}

/// Counting over two adjoining ranges is counting over their union, and
/// no range holds more samples than there are.
pub proof fn lemma_count_split(samples: Seq<u64>, lo: int, mid: int, hi: int)
    requires
        lo <= mid <= hi,
    ensures
        count_between(samples, lo, mid) + count_between(samples, mid, hi) == count_between(
            samples,
            lo,
            hi,
        ),
        count_between(samples, lo, hi) <= samples.len(),
    decreases samples.len(),
{
    if samples.len() > 0 {
        lemma_count_split(samples.drop_last(), lo, mid, hi);
    }
}

/// A range that covers every sample counts them all.
pub proof fn lemma_count_all(samples: Seq<u64>, lo: int, hi: int)
    requires
        forall|i: int| 0 <= i < samples.len() ==> lo <= #[trigger] samples[i] < hi,
    ensures
        count_between(samples, lo, hi) == samples.len(),
    decreases samples.len(),
{
    if samples.len() > 0 {
        let rest = samples.drop_last();
        assert forall|i: int| 0 <= i < rest.len() implies lo <= #[trigger] rest[i] < hi by {
            assert(rest[i] == samples[i]);
        }
        lemma_count_all(rest, lo, hi);
        assert(samples.last() == samples[samples.len() - 1]);
    }
}

/// The bounds of the buckets rise from the lowest sample to the highest:
/// each bucket starts where the one before ends, the first at the lowest
/// sample, and the last ends at the highest.
pub proof fn lemma_bucket_bounds(samples: Seq<u64>, i: int)
    requires
        samples.len() > 0,
        0 <= i < BUCKETS,
    ensures
        lowest(samples) <= bucket_start(samples, i) <= bucket_end(samples, i) <= highest(samples),
        bucket_start(samples, 0) == lowest(samples),
        bucket_end(samples, BUCKETS - 1) == highest(samples),
        i + 1 < BUCKETS ==> bucket_end(samples, i) == bucket_start(samples, i + 1),
        0 <= bucket_step(samples),
{
    lemma_extremes(samples);
    let range = highest(samples) - lowest(samples);
    let step = bucket_step(samples);
    assert(0 <= range);
    assert(0 <= step && 10 * step <= range);
    assert(i * step <= (i + 1) * step <= 10 * step) by (nonlinear_arith)
        requires
            0 <= i < 10,
            0 <= step,
    ;
}

/// Every sample falls into exactly one bucket.
pub proof fn lemma_one_bucket(samples: Seq<u64>, x: u64)
    requires
        samples.contains(x),
    ensures
        exists|i: int| 0 <= i < BUCKETS && #[trigger] in_bucket(samples, i, x),
        forall|i: int, j: int|
            0 <= i < BUCKETS && 0 <= j < BUCKETS && #[trigger] in_bucket(samples, i, x)
                && #[trigger] in_bucket(samples, j, x) ==> i == j,
{
    lemma_extremes(samples);
    let step = bucket_step(samples);
    let low = lowest(samples) as int;
    lemma_bucket_bounds(samples, 0);
    assert forall|i: int, j: int|
        0 <= i < BUCKETS && 0 <= j < BUCKETS && #[trigger] in_bucket(samples, i, x)
            && #[trigger] in_bucket(samples, j, x) implies i == j by {
        if i < j {
            assert((i + 1) * step <= j * step) by (nonlinear_arith)
                requires
                    i + 1 <= j,
                    0 <= step,
            ;
        }
        if j < i {
            assert((j + 1) * step <= i * step) by (nonlinear_arith)
                requires
                    j + 1 <= i,
                    0 <= step,
            ;
        }
    }
    if x >= low + 9 * step {
        assert(in_bucket(samples, 9, x));
    } else if x >= low + 8 * step {
        assert(in_bucket(samples, 8, x));
    } else if x >= low + 7 * step {
        assert(in_bucket(samples, 7, x));
    } else if x >= low + 6 * step {
        assert(in_bucket(samples, 6, x));
    } else if x >= low + 5 * step {
        assert(in_bucket(samples, 5, x));
    } else if x >= low + 4 * step {
        assert(in_bucket(samples, 4, x));
    } else if x >= low + 3 * step {
        assert(in_bucket(samples, 3, x));
    } else if x >= low + 2 * step {
        assert(in_bucket(samples, 2, x));
    } else if x >= low + step {
        assert(in_bucket(samples, 1, x));
    } else {
        assert(in_bucket(samples, 0, x));
    }
}

/// The number of samples in the first `k` buckets together.
pub open spec fn counts_up_to(samples: Seq<u64>, k: int) -> nat
    decreases k,
{
    if k <= 0 {
        0
    } else {
        counts_up_to(samples, k - 1) + bucket_count(samples, k - 1)
    }
}

/// The first `k` buckets hold the samples below the start of bucket `k`.
proof fn lemma_counts_below(samples: Seq<u64>, k: int)
    requires
        samples.len() > 0,
        0 <= k < BUCKETS,
    ensures
        counts_up_to(samples, k) == count_between(
            samples,
            lowest(samples) as int,
            bucket_start(samples, k),
        ),
    decreases k,
{
    let low = lowest(samples) as int;
    if k == 0 {
        lemma_count_split(samples, low, low, low);
        lemma_bucket_bounds(samples, 0);
    } else {
        lemma_counts_below(samples, k - 1);
        lemma_bucket_bounds(samples, k - 1);
        lemma_bucket_bounds(samples, k);
        lemma_count_split(samples, low, bucket_start(samples, k - 1), bucket_start(samples, k));
    }
}

/// For any samples, at least one of them, the counts of the buckets add
/// up to the number of samples.
pub proof fn lemma_bucket_counts_complete(samples: Seq<u64>)
    requires
        samples.len() > 0,
    ensures
        counts_up_to(samples, BUCKETS as int) == samples.len(),
{
    let last = BUCKETS - 1;
    let low = lowest(samples) as int;
    lemma_counts_below(samples, last);
    lemma_bucket_bounds(samples, last);
    lemma_extremes(samples);
    lemma_count_split(samples, low, bucket_start(samples, last), highest(samples) + 1);
    lemma_count_all(samples, low, highest(samples) + 1);
}

/// The first `k` buckets of the histogram count what `counts_up_to` says.
proof fn lemma_counted_prefix(samples: Seq<u64>, k: int)
    requires
        samples.len() > 0,
        samples.len() <= usize::MAX,
        0 <= k <= BUCKETS,
    ensures
        counted(histogram_of(samples).take(k)) == counts_up_to(samples, k),
    decreases k,
{
    let buckets = histogram_of(samples);
    if k > 0 {
        lemma_counted_prefix(samples, k - 1);
        lemma_bucket_bounds(samples, k - 1);
        lemma_count_split(
            samples,
            bucket_start(samples, k - 1),
            bucket_start(samples, k - 1),
            bucket_end(samples, k - 1) + 1,
        );
        lemma_count_split(
            samples,
            bucket_start(samples, k - 1),
            bucket_end(samples, k - 1),
            bucket_end(samples, k - 1),
        );
        assert(buckets.take(k).drop_last() =~= buckets.take(k - 1));
        assert(buckets.take(k).last() == bucket_of(samples, k - 1));
    }
}

/// The counts in the histogram of as many samples as a vector can hold
/// add up to the number of samples.
pub proof fn lemma_histogram_complete(samples: Seq<u64>)
    requires
        samples.len() <= usize::MAX,
    ensures
        counted(histogram_of(samples)) == samples.len(),
{
    if samples.len() > 0 {
        let buckets = histogram_of(samples);
        lemma_counted_prefix(samples, BUCKETS as int);
        lemma_bucket_counts_complete(samples);
        assert(buckets.take(BUCKETS as int) =~= buckets);
    }
}

/// The lowest and the highest of the samples.
fn extremes(samples: &Vec<u64>) -> (ends: (u64, u64))
    requires
        samples@.len() > 0,
    ensures
        ends.0 == lowest(samples@),
        ends.1 == highest(samples@),
{
    let mut low = samples[0];
    let mut high = samples[0];
    let mut i: usize = 1;
    assert(samples@.take(1) =~= seq![samples@[0]]);
    while i < samples.len()
        invariant
            1 <= i <= samples@.len(),
            low == lowest(samples@.take(i as int)),
            high == highest(samples@.take(i as int)),
        decreases samples.len() - i,
    {
        assert(samples@.take(i + 1).drop_last() =~= samples@.take(i as int));
        let x = samples[i];
        if x < low {
            low = x;
        }
        if x > high {
            high = x;
        }
        i = i + 1;
    }
    assert(samples@.take(samples@.len() as int) =~= samples@);
    (low, high)
}

/// Counts the samples `x` with `lo <= x < hi`, or, where `closed` is set,
/// with `lo <= x <= hi`.
fn count_samples(samples: &Vec<u64>, lo: u64, hi: u64, closed: bool) -> (count: usize)
    ensures
        count == count_between(
            samples@,
            lo as int,
            if closed {
                hi + 1
            } else {
                hi as int
            },
        ),
        count <= samples@.len(),
{
    let ghost bound = if closed {
        hi + 1
    } else {
        hi as int
    };
    let mut count: usize = 0;
    let mut i: usize = 0;
    while i < samples.len()
        invariant
            i <= samples@.len(),
            count <= i,
            count == count_between(samples@.take(i as int), lo as int, bound),
            bound == if closed {
                hi + 1
            } else {
                hi as int
            },
        decreases samples.len() - i,
    {
        assert(samples@.take(i + 1).drop_last() =~= samples@.take(i as int));
        let x = samples[i];
        if lo <= x && (x < hi || (closed && x == hi)) {
            count = count + 1;
        }
        i = i + 1;
    }
    assert(samples@.take(samples@.len() as int) =~= samples@);
    count
}

/// Builds the histogram of the latencies: `BUCKETS` buckets of equal
/// width from the lowest to the highest sample, each with the number of
/// samples in it and the width of its bar. Without samples there are no
/// buckets.
pub fn histogram(latencies: &Vec<u64>) -> (buckets: Vec<HistogramBucket>)
    ensures
        buckets@ == histogram_of(latencies@),
        counted(buckets@) == latencies@.len(),
{
    let mut buckets: Vec<HistogramBucket> = Vec::new();
    let len = latencies.len();
    proof {
        lemma_histogram_complete(latencies@);
    }
    if len == 0 {
        return buckets;
    }
    let (low, high) = extremes(latencies);
    proof {
        lemma_extremes(latencies@);
    }
    let step = (high - low) / (BUCKETS as u64);
    let mut i: usize = 0;
    while i < BUCKETS
        invariant
            i <= BUCKETS,
            len == latencies@.len(),
            len > 0,
            low == lowest(latencies@),
            high == highest(latencies@),
            step == bucket_step(latencies@),
            buckets@.len() == i,
            forall|k: int| 0 <= k < i ==> buckets@[k] == bucket_of(latencies@, k),
        decreases BUCKETS - i,
    {
        proof {
            lemma_bucket_bounds(latencies@, i as int);
            assert(i * step <= (i + 1) * step <= 10 * step) by (nonlinear_arith)
                requires
                    0 <= i < 10,
                    0 <= step,
            ;
        }
        let last = i == BUCKETS - 1;
        let start = low + (i as u64) * step;
        let end = if last {
            high
        } else {
            low + (i as u64 + 1) * step
        };
        let count = count_samples(latencies, start, end, last);
        assert(count * FULL_BAR <= usize::MAX * FULL_BAR) by (nonlinear_arith)
            requires
                count <= usize::MAX,
        ;
        let share = (count as u128) * (FULL_BAR as u128) / (len as u128);
        proof {
            assert(count * FULL_BAR <= len * FULL_BAR) by (nonlinear_arith)
                requires
                    count <= len,
            ;
            vstd::arithmetic::div_mod::lemma_div_is_ordered(
                count * FULL_BAR,
                len * FULL_BAR,
                len as int,
            );
            vstd::arithmetic::div_mod::lemma_div_multiples_vanish(FULL_BAR as int, len as int);
            assert(len * FULL_BAR == FULL_BAR * len) by (nonlinear_arith);
        }
        buckets.push(HistogramBucket { start, end, count, bar_width: share as usize });
        i = i + 1;
    }
    assert(buckets@ =~= histogram_of(latencies@));
    buckets
}

} // verus!
