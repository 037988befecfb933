//! The statistics of a finished batch.

use vstd::prelude::*;

use crate::accumulator::{AccumulatorView, ResultAccumulator, StatusCount};
use crate::histogram::{histogram, histogram_of, HistogramBucket};
use crate::percentile::{
    average_latency,
    calculate_percentiles,
    mean_of,
    percentiles_of,
    Percentiles,
};
use crate::rates::{
    megabits_per_second,
    megabytes,
    requests_per_second,
    spec_megabits_per_second,
    spec_megabytes,
    spec_requests_per_second,
    spec_success_rate,
    success_rate,
};

verus! {

/// What a report states of a batch. Latencies are in milliseconds; rates,
/// the mean and the megabytes are fixed-point numbers in hundredths.
#[derive(Clone, Debug)]
pub struct SummaryStatistics {
    pub total_requests: usize,
    pub total_successful: usize,
    pub total_failed: usize,
    /// Successes among all outcomes, in hundredths of a percent.
    pub success_rate: u128,
    pub duration_micros: u64,
    /// Requests per second, in hundredths.
    pub rps: u128,
    /// The mean latency, in hundredths of a millisecond.
    pub avg_latency: Option<u128>,
    pub percentiles: Option<Percentiles>,
    pub total_bytes: u128,
    /// Megabytes received, in hundredths.
    pub total_mb: u128,
    /// Megabits received per second, in hundredths.
    pub throughput_mbps: u128,
    pub status_codes: Vec<StatusCount>,
    pub histogram: Vec<HistogramBucket>,
}

/// The statistics of a batch, as mathematical values.
#[verifier::ext_equal]
pub struct SummaryView {
    pub total_requests: nat,
    pub total_successful: nat,
    pub total_failed: nat,
    pub success_rate: nat,
    pub duration_micros: nat,
    pub rps: nat,
    pub avg_latency: Option<nat>,
    pub percentiles: Option<Percentiles>,
    pub total_bytes: nat,
    pub total_mb: nat,
    pub throughput_mbps: nat,
    pub status_codes: Seq<StatusCount>,
    pub histogram: Seq<HistogramBucket>,
}

impl View for SummaryStatistics {
    type V = SummaryView;

    open spec fn view(&self) -> SummaryView {
        SummaryView {
            total_requests: self.total_requests as nat,
            total_successful: self.total_successful as nat,
            total_failed: self.total_failed as nat,
            success_rate: self.success_rate as nat,
            duration_micros: self.duration_micros as nat,
            rps: self.rps as nat,
            avg_latency: match self.avg_latency {
                Some(mean) => Some(mean as nat),
                None => None,
            },
            percentiles: self.percentiles,
            total_bytes: self.total_bytes as nat,
            total_mb: self.total_mb as nat,
            throughput_mbps: self.throughput_mbps as nat,
            status_codes: self.status_codes@,
            histogram: self.histogram@,
        }
    }
}

/// The statistics that follow from what an accumulator holds.
pub open spec fn summary_of(acc: AccumulatorView) -> SummaryView {
    SummaryView {
        total_requests: acc.total(),
        total_successful: acc.success,
        total_failed: acc.failure,
        success_rate: spec_success_rate(acc.success, acc.total()),
        duration_micros: acc.duration_micros,
        rps: spec_requests_per_second(acc.total(), acc.duration_micros),
        avg_latency: mean_of(acc.latencies),
        percentiles: percentiles_of(acc.latencies),
        total_bytes: acc.total_bytes,
        total_mb: spec_megabytes(acc.total_bytes),
        throughput_mbps: spec_megabits_per_second(acc.total_bytes, acc.duration_micros),
        status_codes: acc.status_counts,
        histogram: histogram_of(acc.latencies),
    }
}

/// A batch without outcomes has statistics, and they are empty: every
/// count and rate is zero, and there are no percentiles, no mean and no
/// histogram.
pub proof fn lemma_empty_summary(duration_micros: nat)
    ensures
        ({
            let acc = AccumulatorView { duration_micros, ..AccumulatorView::empty() };
            let stats = summary_of(acc);
            &&& stats.total_requests == 0
            &&& stats.total_successful == 0
            &&& stats.total_failed == 0
            &&& stats.success_rate == 0
            &&& stats.rps == 0
            &&& stats.avg_latency is None
            &&& stats.percentiles is None
            &&& stats.total_bytes == 0
            &&& stats.total_mb == 0
            &&& stats.throughput_mbps == 0
            &&& stats.status_codes.len() == 0
            &&& stats.histogram.len() == 0
        }),
{
    if duration_micros > 0 {
        vstd::arithmetic::div_mod::lemma_basic_div(
            duration_micros as int,
            2 * duration_micros as int,
        );
    }
    vstd::arithmetic::div_mod::lemma_basic_div(1_000_000, 2_000_000);
}

/// Statistics computed twice from one accumulator are the same.
pub proof fn lemma_summary_repeatable(
    acc: ResultAccumulator,
    first: SummaryStatistics,
    second: SummaryStatistics,
)
    requires
        first@ == summary_of(acc@),
        second@ == summary_of(acc@),
    ensures
        first@ == second@,
{
}

/// Computes the statistics of a batch from its accumulator.
pub fn summarize(acc: &ResultAccumulator) -> (stats: SummaryStatistics)
    requires
        acc.wf(),
    ensures
        stats@ == summary_of(acc@),
        stats@.total_requests == stats@.total_successful + stats@.total_failed,
        stats@.percentiles is None <==> acc@.latencies.len() == 0,
{
    let total = acc.total_count();
    let success = acc.success_count();
    let bytes = acc.total_bytes();
    let duration = acc.duration_micros();
    SummaryStatistics {
        total_requests: total,
        total_successful: success,
        total_failed: acc.failure_count(),
        success_rate: success_rate(success, total),
        duration_micros: duration,
        rps: requests_per_second(total, duration),
        avg_latency: average_latency(acc.latencies()),
        percentiles: calculate_percentiles(acc.latencies()),
        total_bytes: bytes,
        total_mb: megabytes(bytes),
        throughput_mbps: megabits_per_second(bytes, duration),
        status_codes: acc.status_counts().clone(),
        histogram: histogram(acc.latencies()),
    }
}

} // verus!
