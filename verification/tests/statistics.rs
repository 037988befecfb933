use connsaturator::histogram::{BUCKETS, FULL_BAR};
use connsaturator::percentile::{percentile, sorted_samples};
use connsaturator::rates::{
    megabits_per_second, megabytes, requests_per_second, scaled_ratio, success_rate,
};
use connsaturator::{average_latency, calculate_percentiles, histogram, HistogramBucket};

#[test]
fn percentiles_use_the_sorted_samples() {
    let samples = vec![100, 30, 70, 10, 90, 50, 20, 80, 40, 60];
    assert_eq!(sorted_samples(&samples), vec![10, 20, 30, 40, 50, 60, 70, 80, 90, 100]);
    let p = calculate_percentiles(&samples).unwrap();
    assert_eq!((p.p50, p.p90, p.p95, p.p99), (60, 100, 100, 100));
    assert_eq!(samples[0], 100);
}

#[test]
fn percentiles_of_nothing_are_undefined() {
    assert_eq!(calculate_percentiles(&Vec::new()), None);
    assert_eq!(average_latency(&Vec::new()), None);
    assert!(histogram(&Vec::new()).is_empty());
}

#[test]
fn percentiles_of_one_sample_collapse() {
    let p = calculate_percentiles(&vec![42]).unwrap();
    assert_eq!((p.p50, p.p90, p.p95, p.p99), (42, 42, 42, 42));
}

#[test]
fn percentiles_of_two_hundred_samples() {
    let samples: Vec<u64> = (0..200).rev().collect();
    let p = calculate_percentiles(&samples).unwrap();
    assert_eq!((p.p50, p.p90, p.p95, p.p99), (100, 180, 190, 198));
}

#[test]
fn percentiles_are_monotone() {
    let mut seed: u64 = 12345;
    for len in 1..60 {
        let mut samples = Vec::new();
        for _ in 0..len {
            seed = seed.wrapping_mul(6364136223846793005).wrapping_add(1442695040888963407);
            samples.push(seed >> 40);
        }
        let p = calculate_percentiles(&samples).unwrap();
        assert!(p.p50 <= p.p90 && p.p90 <= p.p95 && p.p95 <= p.p99);
        assert!(samples.contains(&p.p50) && samples.contains(&p.p99));
    }
}

#[test]
fn rank_is_clamped_to_the_last_sample() {
    let sorted = vec![1, 2, 3, 4];
    assert_eq!(percentile(&sorted, 0), 1);
    assert_eq!(percentile(&sorted, 50), 3);
    assert_eq!(percentile(&sorted, 99), 4);
    assert_eq!(percentile(&sorted, 100), 4);
    assert_eq!(percentile(&sorted, 255), 4);
}

#[test]
fn mean_is_rounded_to_hundredths() {
    let samples: Vec<u64> = (1..=10).map(|i| i * 10).collect();
    assert_eq!(average_latency(&samples), Some(5500));
    assert_eq!(average_latency(&vec![1, 2]), Some(150));
    assert_eq!(average_latency(&vec![1, 1, 2]), Some(133));
    assert_eq!(average_latency(&vec![1, 2, 2]), Some(167));
    assert_eq!(average_latency(&vec![u64::MAX, u64::MAX]), Some(u64::MAX as u128 * 100));
}

#[test]
fn rates_are_rounded_to_hundredths() {
    assert_eq!(requests_per_second(10, 2_000_000), 500);
    assert_eq!(requests_per_second(1, 3_000_000), 33);
    assert_eq!(requests_per_second(2, 3_000_000), 67);
    assert_eq!(requests_per_second(1, 200_000_000), 1);
    assert_eq!(requests_per_second(1, 200_000_001), 0);
    assert_eq!(requests_per_second(5, 0), 0);
    assert_eq!(requests_per_second(0, 5), 0);
    assert_eq!(success_rate(3, 5), 6000);
    assert_eq!(success_rate(1, 3), 3333);
    assert_eq!(success_rate(2, 3), 6667);
    assert_eq!(success_rate(7, 7), 10000);
    assert_eq!(success_rate(0, 0), 0);
    assert_eq!(megabytes(1_500_000), 150);
    assert_eq!(megabytes(4_999), 0);
    assert_eq!(megabytes(5_000), 1);
    assert_eq!(megabytes(u128::MAX), u128::MAX / 10_000);
    assert_eq!(megabytes(u128::MAX - 1455 - 5000), u128::MAX / 10_000);
    assert_eq!(megabytes(u128::MAX - 1455 - 5001), u128::MAX / 10_000 - 1);
    assert_eq!(megabits_per_second(1_000_000, 1_000_000), 800);
    assert_eq!(megabits_per_second(1, 800), 1);
    assert_eq!(megabits_per_second(1, 1601), 0);
    assert_eq!(megabits_per_second(123, 0), 0);
    assert_eq!(megabits_per_second(u128::MAX, 1), u128::MAX);
}

#[test]
fn scaled_ratio_rounds_halves_up() {
    assert_eq!(scaled_ratio(1, 1, 2), 1);
    assert_eq!(scaled_ratio(1, 1, 3), 0);
    assert_eq!(scaled_ratio(2, 1, 3), 1);
    assert_eq!(scaled_ratio(7, 100, 2), 350);
    assert_eq!(scaled_ratio(u128::MAX, 1, 1), u128::MAX);
    assert_eq!(scaled_ratio(u128::MAX, 2, 1), u128::MAX);
    assert_eq!(scaled_ratio(u128::MAX, 2, 4), u128::MAX / 2 + 1);
}

#[test]
fn histogram_of_evenly_spread_samples() {
    let samples: Vec<u64> = (1..=10).map(|i| i * 10).collect();
    let buckets = histogram(&samples);
    assert_eq!(buckets.len(), BUCKETS);
    for (i, bucket) in buckets.iter().enumerate() {
        let i = i as u64;
        let end = if i == 9 { 100 } else { 10 + (i + 1) * 9 };
        assert_eq!(
            *bucket,
            HistogramBucket { start: 10 + i * 9, end, count: 1, bar_width: 3 }
        );
    }
}

#[test]
fn histogram_of_equal_samples_fills_the_last_bucket() {
    let buckets = histogram(&vec![5, 5, 5]);
    assert_eq!(buckets.len(), BUCKETS);
    for bucket in &buckets[..9] {
        assert_eq!(*bucket, HistogramBucket { start: 5, end: 5, count: 0, bar_width: 0 });
    }
    assert_eq!(buckets[9], HistogramBucket { start: 5, end: 5, count: 3, bar_width: FULL_BAR });
}

#[test]
fn histogram_counts_every_sample_once() {
    let mut seed: u64 = 99;
    for len in 1..80 {
        let mut samples = Vec::new();
        for _ in 0..len {
            seed = seed.wrapping_mul(6364136223846793005).wrapping_add(1442695040888963407);
            samples.push((seed >> 33) % 1000);
        }
        let buckets = histogram(&samples);
        let total: usize = buckets.iter().map(|b| b.count).sum();
        assert_eq!(total, len);
        let low = *samples.iter().min().unwrap();
        let high = *samples.iter().max().unwrap();
        assert_eq!(buckets[0].start, low);
        assert_eq!(buckets[9].end, high);
        for pair in buckets.windows(2) {
            assert!(pair[0].start <= pair[0].end);
            assert_eq!(pair[0].end, pair[1].start);
        }
        for bucket in &buckets {
            assert_eq!(bucket.bar_width, bucket.count * FULL_BAR / len);
        }
    }
}

#[test]
fn histogram_spans_the_whole_range_of_u64() {
    let buckets = histogram(&vec![0, u64::MAX, u64::MAX / 2]);
    assert_eq!(buckets[0].start, 0);
    assert_eq!(buckets[9].end, u64::MAX);
    assert_eq!(buckets[0].count, 1);
    assert_eq!(buckets[5].count, 1);
    assert_eq!(buckets[9].count, 1);
}
