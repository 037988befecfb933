//! Order statistics of the latency samples: nearest-rank percentiles and
//! the mean.

use vstd::arithmetic::div_mod::*;
use vstd::prelude::*;
use vstd::relations::*;
use vstd::seq_lib::*;

use crate::rates::{lemma_rounded_div_monotone, lemma_rounded_div_split, rounded_div, scaled_ratio};

verus! {

/// The order by which samples are sorted.
pub open spec fn at_most() -> spec_fn(u64, u64) -> bool {
    |a: u64, b: u64| a <= b
}

/// No sample is followed by a smaller one.
pub open spec fn ascending(samples: Seq<u64>) -> bool {
    forall|i: int, j: int| 0 <= i <= j < samples.len() ==> samples[i] <= samples[j]
}

/// The samples in ascending order.
pub open spec fn sorted(samples: Seq<u64>) -> Seq<u64> {
    samples.sort_by(at_most())
}

/// `sorted` is ascending and keeps every sample, as often as it occurs.
pub proof fn lemma_sorted(samples: Seq<u64>)
    ensures
        ascending(sorted(samples)),
        sorted(samples).to_multiset() == samples.to_multiset(),
        sorted(samples).len() == samples.len(),
{
    assert(total_ordering(at_most()));
    samples.lemma_sort_by_ensures(at_most());
    samples.to_multiset_ensures();
    sorted(samples).to_multiset_ensures();
    let s = sorted(samples);
    assert forall|i: int, j: int| 0 <= i <= j < s.len() implies s[i] <= s[j] by {
        if i < j {
            assert(at_most()(s[i], s[j]));
        }
    }
}

/// An ascending arrangement of the samples is the sorted one.
pub proof fn lemma_ascending_is_sorted(samples: Seq<u64>, arranged: Seq<u64>)
    requires
        ascending(arranged),
        arranged.to_multiset() == samples.to_multiset(),
    ensures
        arranged == sorted(samples),
{
    assert(total_ordering(at_most()));
    samples.lemma_sort_by_ensures(at_most());
    assert(sorted_by(arranged, at_most())) by {
        assert forall|i: int, j: int| 0 <= i < j < arranged.len() implies at_most()(
            arranged[i],
            arranged[j],
        ) by {}
    }
    lemma_sorted_unique(arranged, sorted(samples), at_most());
}

/// Sorts the samples in place with `sort` of std's slices: afterwards
/// they stand in ascending order, and each value occurs as often as
/// before.
#[verifier::external_body]
fn sort_in_place(samples: &mut Vec<u64>)
    ensures
        ascending(final(samples)@),
        final(samples)@.to_multiset() == old(samples)@.to_multiset(),
{
    samples.sort();
}

/// A sorted copy of the samples.
pub fn sorted_samples(samples: &Vec<u64>) -> (out: Vec<u64>)
    ensures
        out@ == sorted(samples@),
{
    let mut out = samples.clone();
    sort_in_place(&mut out);
    proof {
        lemma_ascending_is_sorted(samples@, out@);
    }
    out
}

/// The index of the nearest-rank percentile `p` among `len` sorted
/// samples: `len * p / 100` rounded down, and at most `len - 1`.
pub open spec fn rank_index(len: nat, p: nat) -> nat {
    let index = len * p / 100;
    if index >= len {
        (len - 1) as nat
    } else {
        index
    }
}

/// The nearest-rank percentile `p` of the samples: the sample at
/// `rank_index` once they are sorted. No value is interpolated.
pub open spec fn percentile_of(samples: Seq<u64>, p: nat) -> u64 {
    sorted(samples)[rank_index(samples.len(), p) as int]
}

/// The percentiles that a report states.
#[derive(Clone, Copy, Debug, PartialEq, Eq, Structural)]
pub struct Percentiles {
    pub p50: u64,
    pub p90: u64,
    pub p95: u64,
    pub p99: u64,
}

/// The reported percentiles of the samples; none where there is no sample.
pub open spec fn percentiles_of(samples: Seq<u64>) -> Option<Percentiles> {
    if samples.len() == 0 {
        None
    } else {
        Some(
            Percentiles {
                p50: percentile_of(samples, 50),
                p90: percentile_of(samples, 90),
                p95: percentile_of(samples, 95),
                p99: percentile_of(samples, 99),
            },
        )
    }
}

/// The index of a percentile lies within the samples, and does not fall
/// when the rank grows.
pub proof fn lemma_rank_index(len: nat, p: nat, q: nat)
    requires
        len > 0,
        p <= q,
    ensures
        rank_index(len, p) < len,
        rank_index(len, p) <= rank_index(len, q),
        p < 100 ==> rank_index(len, p) == len * p / 100,
{
    assert(len * p <= len * q) by (nonlinear_arith)
        requires
            p <= q,
    ;
    lemma_div_is_ordered((len * p) as int, (len * q) as int, 100);
    if p < 100 {
        assert(len * p < len * 100) by (nonlinear_arith)
            requires
                p < 100,
                len > 0,
        ;
        lemma_div_by_multiple_is_strongly_ordered((len * p) as int, (len * 100) as int, len as int, 100);
        lemma_div_multiples_vanish(len as int, 100);
        assert(len * 100 == 100 * len);
    }
}

/// A higher rank never has a lower percentile.
pub proof fn lemma_percentile_monotone(samples: Seq<u64>, p: nat, q: nat)
    requires
        samples.len() > 0,
        p <= q,
    ensures
        percentile_of(samples, p) <= percentile_of(samples, q),
{
    lemma_sorted(samples);
    lemma_rank_index(samples.len(), p, q);
    lemma_rank_index(samples.len(), q, q);
}

/// For any samples, at least one of them, `p50 <= p90 <= p95 <= p99`.
pub proof fn lemma_percentiles_ordered(samples: Seq<u64>)
    requires
        samples.len() > 0,
    ensures
        percentiles_of(samples) matches Some(p) && p.p50 <= p.p90 <= p.p95 <= p.p99,
{
    lemma_percentile_monotone(samples, 50, 90);
    lemma_percentile_monotone(samples, 90, 95);
    lemma_percentile_monotone(samples, 95, 99);
}

/// Every percentile is one of the samples.
pub proof fn lemma_percentile_is_sample(samples: Seq<u64>, p: nat)
    requires
        samples.len() > 0,
    ensures
        samples.contains(percentile_of(samples, p)),
{
    lemma_sorted(samples);
    lemma_rank_index(samples.len(), p, p);
    let s = sorted(samples);
    let k = rank_index(samples.len(), p) as int;
    assert(total_ordering(at_most()));
    samples.lemma_sort_by_ensures(at_most());
    assert(s.contains(s[k]));
}

/// The sample at the nearest rank `p` of samples that are already sorted.
pub fn percentile(ascending_samples: &Vec<u64>, p: u8) -> (value: u64)
    requires
        ascending(ascending_samples@),
        ascending_samples@.len() > 0,
    ensures
        value == percentile_of(ascending_samples@, p as nat),
{
    let len = ascending_samples.len();
    proof {
        lemma_ascending_is_sorted(ascending_samples@, ascending_samples@);
        lemma_rank_index(len as nat, p as nat, p as nat);
        assert(len * p <= usize::MAX * 255) by (nonlinear_arith)
            requires
                len <= usize::MAX,
                p <= 255,
        ;
    }
    let scaled = (len as u128) * (p as u128) / 100;
    let index = if scaled >= len as u128 {
        len - 1
    } else {
        scaled as usize
    };
    ascending_samples[index]
}

/// The percentiles 50, 90, 95 and 99 of the latencies, by nearest rank
/// over the sorted samples; none where no latency was recorded.
pub fn calculate_percentiles(latencies: &Vec<u64>) -> (found: Option<Percentiles>)
    ensures
        found == percentiles_of(latencies@),
        found is None <==> latencies@.len() == 0,
        found matches Some(p) ==> p.p50 <= p.p90 <= p.p95 <= p.p99,
{
    if latencies.len() == 0 {
        return None;
    }
    let ordered = sorted_samples(latencies);
    proof {
        lemma_sorted(latencies@);
        lemma_ascending_is_sorted(ordered@, ordered@);
        lemma_percentiles_ordered(latencies@);
    }
    Some(
        Percentiles {
            p50: percentile(&ordered, 50),
            p90: percentile(&ordered, 90),
            p95: percentile(&ordered, 95),
            p99: percentile(&ordered, 99),
        },
    )
}

/// The sum of the samples.
pub open spec fn sum_of(samples: Seq<u64>) -> nat
    decreases samples.len(),
{
    if samples.len() == 0 {
        0
    } else {
        sum_of(samples.drop_last()) + samples.last() as nat
    }
}

/// The mean of the samples, in hundredths; none where there is no sample.
pub open spec fn mean_of(samples: Seq<u64>) -> Option<nat> {
    if samples.len() == 0 {
        None
    } else {
        Some(rounded_div(sum_of(samples) * 100, samples.len()))
    }
}

/// No sample exceeds `u64::MAX`, so neither does their mean.
pub proof fn lemma_sum_bound(samples: Seq<u64>)
    ensures
        sum_of(samples) <= samples.len() * u64::MAX,
    decreases samples.len(),
{
    if samples.len() > 0 {
        lemma_sum_bound(samples.drop_last());
        assert((samples.len() - 1) * u64::MAX + u64::MAX == samples.len() * u64::MAX)
            by (nonlinear_arith);
    }
}

/// The mean latency, in hundredths of a millisecond: the sum of all
/// samples over their number; none where no latency was recorded.
pub fn average_latency(latencies: &Vec<u64>) -> (mean: Option<u128>)
    ensures
        mean matches Some(m) ==> mean_of(latencies@) == Some(m as nat),
        mean is None <==> latencies@.len() == 0,
{
    let len = latencies.len();
    if len == 0 {
        return None;
    }
    let mut sum: u128 = 0;
    let mut i: usize = 0;
    while i < len
        invariant
            i <= len,
            len == latencies@.len(),
            sum == sum_of(latencies@.take(i as int)),
        decreases len - i,
    {
        proof {
            lemma_sum_bound(latencies@.take(i as int));
            assert(i * u64::MAX + u64::MAX <= usize::MAX * u64::MAX) by (nonlinear_arith)
                requires
                    i < usize::MAX,
            ;
            assert(latencies@.take(i + 1).drop_last() =~= latencies@.take(i as int));
        }
        sum = sum + latencies[i] as u128;
        i = i + 1;
    }
    proof {
        assert(latencies@.take(len as int) =~= latencies@);
        lemma_sum_bound(latencies@);
        let total = sum_of(latencies@);
        let n = len as nat;
        // The mean of values below 2^64 is below 2^64, so its hundredths fit.
        let most = (u64::MAX * 100) as nat;
        assert(total * 100 <= most * n) by (nonlinear_arith)
            requires
                total <= n * u64::MAX,
                most == u64::MAX * 100,
        ;
        lemma_rounded_div_monotone(total * 100, most * n, n);
        lemma_rounded_div_split(most, 0, n);
        lemma_basic_div(n as int, 2 * n as int);
    }
    Some(scaled_ratio(sum, 100, len as u64))
}

} // verus!
