use connsaturator::{
    calculate_percentiles, summarize, AdmissionController, Outcome, Phase, PhaseController,
    ResponseMeta, ResultAccumulator, SetupError, StatusLabel, Step, TransportError,
};

fn ok(latency: u64) -> Outcome {
    Outcome::Success { status_code: 200, latency, byte_size: 0 }
}

/// Drives a controller to the end: every launched request completes in
/// the order in which it was launched, with the outcomes of `script`.
/// Returns the steps taken and the highest number of requests in flight.
fn drive(controller: &mut PhaseController, script: &[Outcome]) -> (Vec<Step>, usize) {
    let mut steps = Vec::new();
    let mut next = 0;
    let mut peak = 0;
    loop {
        let step = controller.next_step();
        steps.push(step);
        peak = peak.max(controller.in_flight());
        match step {
            Step::Launch(_) => {}
            Step::Await => {
                assert!(controller.in_flight() > 0);
                controller.record(script[next]);
                next += 1;
            }
            Step::Finished => break,
        }
    }
    (steps, peak)
}

fn launches(steps: &[Step], phase: Phase) -> usize {
    steps.iter().filter(|s| **s == Step::Launch(phase)).count()
}

#[test]
fn ten_successes_under_concurrency_two() {
    let script: Vec<Outcome> = (1..=10).map(|i| ok(i * 10)).collect();
    let mut controller = PhaseController::new(0, 10, 2).unwrap();
    let (steps, peak) = drive(&mut controller, &script);
    assert_eq!(launches(&steps, Phase::Measured), 10);
    assert_eq!(peak, 2);
    let acc = controller.finish(1_000_000);
    assert_eq!(acc.success_count(), 10);
    assert_eq!(acc.failure_count(), 0);
    let p = calculate_percentiles(acc.latencies()).unwrap();
    assert_eq!(p.p50, 60);
    assert_eq!(p.p90, 100);
    assert_eq!(p.p95, 100);
    assert_eq!(p.p99, 100);
}

#[test]
fn two_server_errors_among_five() {
    let bad = Outcome::from_response(ResponseMeta { status_code: 500, content_length: None }, 7);
    let good = Outcome::from_response(ResponseMeta { status_code: 200, content_length: None }, 5);
    let script = vec![good, bad, good, bad, good];
    let mut controller = PhaseController::new(0, 5, 5).unwrap();
    let (_, peak) = drive(&mut controller, &script);
    assert_eq!(peak, 5);
    let acc = controller.finish(10);
    let stats = summarize(&acc);
    assert_eq!(stats.total_successful, 3);
    assert_eq!(stats.total_failed, 2);
    assert_eq!(stats.total_requests, 5);
    assert_eq!(stats.success_rate, 6000);
    let map: Vec<(String, usize)> =
        stats.status_codes.iter().map(|e| (e.label.text(), e.count)).collect();
    assert_eq!(map, vec![("200".to_string(), 3), ("500".to_string(), 2)]);
    assert_eq!(acc.count_of(StatusLabel::Code(200)), 3);
    assert_eq!(acc.count_of(StatusLabel::Code(500)), 2);
    assert_eq!(acc.count_of(StatusLabel::Code(404)), 0);
}

#[test]
fn warm_up_of_three_precedes_twenty_measured() {
    let mut script = vec![Outcome::HttpFailure { status_code: 503, latency: 999, byte_size: 9 }; 3];
    script.extend((0..20).map(|_| ok(1)));
    let mut controller = PhaseController::new(3, 20, 4).unwrap();
    let (steps, peak) = drive(&mut controller, &script);
    assert!(peak <= 4);
    assert_eq!(launches(&steps, Phase::WarmUp), 3);
    assert_eq!(launches(&steps, Phase::Measured), 20);
    let first_measured = steps.iter().position(|s| *s == Step::Launch(Phase::Measured)).unwrap();
    let last_warm = steps.iter().rposition(|s| *s == Step::Launch(Phase::WarmUp)).unwrap();
    assert!(last_warm < first_measured);
    assert_eq!(controller.discarded(), 3);
    let acc = controller.finish(1);
    let stats = summarize(&acc);
    assert_eq!(stats.total_requests, 20);
    assert_eq!(stats.total_failed, 0);
    assert_eq!(stats.total_bytes, 0);
    assert_eq!(acc.count_of(StatusLabel::Code(503)), 0);
    assert_eq!(stats.percentiles.unwrap().p99, 1);
}

#[test]
fn warm_up_outcomes_are_not_merged_while_warming() {
    let mut controller = PhaseController::new(2, 1, 1).unwrap();
    assert_eq!(controller.next_step(), Step::Launch(Phase::WarmUp));
    assert_eq!(controller.next_step(), Step::Await);
    controller.record(ok(5));
    assert_eq!(controller.discarded(), 1);
    assert_eq!(controller.measured().total_count(), 0);
    assert_eq!(controller.phase(), Phase::WarmUp);
    assert_eq!(controller.next_step(), Step::Launch(Phase::WarmUp));
    controller.record(ok(5));
    assert_eq!(controller.next_step(), Step::Launch(Phase::Measured));
    assert_eq!(controller.phase(), Phase::Measured);
    controller.record(Outcome::TaskFailure);
    assert_eq!(controller.next_step(), Step::Finished);
    assert_eq!(controller.phase(), Phase::Finished);
    assert_eq!(controller.next_step(), Step::Finished);
    assert_eq!(controller.measured().count_of(StatusLabel::TaskError), 1);
}

#[test]
fn all_requests_fail_in_transport() {
    let n = 6;
    let script = vec![Outcome::from_result(Err(TransportError), 3); n];
    let mut controller = PhaseController::new(0, n, 2).unwrap();
    drive(&mut controller, &script);
    let acc = controller.finish(3_000_000);
    let stats = summarize(&acc);
    let map: Vec<(String, usize)> =
        stats.status_codes.iter().map(|e| (e.label.text(), e.count)).collect();
    assert_eq!(map, vec![("Network Error".to_string(), n)]);
    assert!(stats.percentiles.is_none());
    assert!(stats.avg_latency.is_none());
    assert!(stats.histogram.is_empty());
    assert_eq!(stats.total_failed, n);
    assert_eq!(stats.success_rate, 0);
    assert_eq!(stats.rps, 200);
}

#[test]
fn empty_batch_finishes_at_once() {
    let mut controller = PhaseController::new(0, 0, 3).unwrap();
    assert_eq!(controller.next_step(), Step::Finished);
    let acc = controller.finish(0);
    let stats = summarize(&acc);
    assert_eq!(stats.total_requests, 0);
    assert_eq!(stats.success_rate, 0);
    assert_eq!(stats.rps, 0);
    assert_eq!(stats.throughput_mbps, 0);
    assert_eq!(stats.total_mb, 0);
    assert!(stats.percentiles.is_none());
    assert!(stats.avg_latency.is_none());
    assert!(stats.status_codes.is_empty());
    assert!(stats.histogram.is_empty());
}

#[test]
fn in_flight_never_exceeds_the_limit() {
    for limit in 1..6 {
        for n in 0..12 {
            let script = vec![Outcome::NetworkFailure; n];
            let mut controller = PhaseController::new(0, n, limit).unwrap();
            assert_eq!(controller.limit(), limit);
            let (steps, peak) = drive(&mut controller, &script);
            assert_eq!(peak, limit.min(n));
            assert_eq!(launches(&steps, Phase::Measured), n);
            let acc = controller.finish(1);
            assert_eq!(acc.success_count() + acc.failure_count(), n);
            assert_eq!(acc.total_count(), n);
        }
    }
}

#[test]
fn zero_concurrency_is_a_setup_error() {
    match PhaseController::new(1, 1, 0) {
        Err(SetupError::ZeroConcurrency) => {}
        _ => panic!("a concurrency of zero was accepted"),
    }
    match AdmissionController::new(0) {
        Err(e) => assert_eq!(e.message(), "concurrency must be at least 1"),
        Ok(_) => panic!("a limit of zero was accepted"),
    }
    assert_eq!(SetupError::Client("no tls".to_string()).message(), "no tls");
}

#[test]
fn permits_are_bounded() {
    let mut permits = AdmissionController::new(2).unwrap();
    assert_eq!(permits.limit(), 2);
    assert!(permits.try_acquire());
    assert!(permits.try_acquire());
    assert!(!permits.try_acquire());
    assert_eq!(permits.outstanding(), 2);
    permits.release();
    assert_eq!(permits.outstanding(), 1);
    assert!(permits.try_acquire());
    assert!(!permits.try_acquire());
}

#[test]
fn responses_are_classified_by_status_class() {
    let meta = |status_code, content_length| ResponseMeta { status_code, content_length };
    assert_eq!(
        Outcome::from_response(meta(200, Some(12)), 4),
        Outcome::Success { status_code: 200, latency: 4, byte_size: 12 }
    );
    assert_eq!(
        Outcome::from_response(meta(299, None), 4),
        Outcome::Success { status_code: 299, latency: 4, byte_size: 0 }
    );
    assert_eq!(
        Outcome::from_response(meta(300, None), 4),
        Outcome::HttpFailure { status_code: 300, latency: 4, byte_size: 0 }
    );
    assert_eq!(
        Outcome::from_response(meta(199, Some(1)), 4),
        Outcome::HttpFailure { status_code: 199, latency: 4, byte_size: 1 }
    );
    assert_eq!(Outcome::from_result(Ok(meta(404, None)), 9).latency(), Some(9));
    assert_eq!(Outcome::from_result(Err(TransportError), 9), Outcome::NetworkFailure);
    assert_eq!(Outcome::NetworkFailure.latency(), None);
    assert_eq!(Outcome::TaskFailure.byte_size(), 0);
    assert!(!Outcome::TaskFailure.is_success());
    assert_eq!(Outcome::TaskFailure.label(), StatusLabel::TaskError);
}

#[test]
fn labels_are_rendered() {
    assert_eq!(StatusLabel::Code(200).text(), "200");
    assert_eq!(StatusLabel::Code(7).text(), "7");
    assert_eq!(StatusLabel::Code(0).text(), "0");
    assert_eq!(StatusLabel::Code(1000).text(), "1000");
    assert_eq!(StatusLabel::Code(65535).text(), "65535");
    assert_eq!(StatusLabel::NetworkError.text(), "Network Error");
    assert_eq!(StatusLabel::TaskError.text(), "Task Error");
}

#[test]
fn merge_counts_every_outcome_once() {
    let mut acc = ResultAccumulator::new();
    acc.merge(Outcome::Success { status_code: 204, latency: 8, byte_size: 100 });
    acc.merge(Outcome::HttpFailure { status_code: 404, latency: 2, byte_size: 50 });
    acc.merge(Outcome::NetworkFailure);
    acc.merge(Outcome::TaskFailure);
    acc.merge(Outcome::Success { status_code: 204, latency: 1, byte_size: u64::MAX });
    acc.set_duration(77);
    assert_eq!(acc.success_count(), 2);
    assert_eq!(acc.failure_count(), 3);
    assert_eq!(acc.total_count(), 5);
    assert_eq!(acc.latencies(), &vec![8, 2, 1]);
    assert_eq!(acc.total_bytes(), 150 + u64::MAX as u128);
    assert_eq!(acc.duration_micros(), 77);
    let total: usize = acc.status_counts().iter().map(|e| e.count).sum();
    assert_eq!(total, 5);
    assert_eq!(acc.status_counts().len(), 4);
    assert_eq!(acc.count_of(StatusLabel::Code(204)), 2);
    assert_eq!(acc.count_of(StatusLabel::NetworkError), 1);
}

#[test]
fn statistics_are_repeatable() {
    let mut acc = ResultAccumulator::new();
    for (i, latency) in [30u64, 10, 20, 10, 50].iter().enumerate() {
        acc.merge(Outcome::from_response(
            ResponseMeta { status_code: 200 + (i as u16 % 2) * 300, content_length: Some(1000) },
            *latency,
        ));
    }
    acc.set_duration(2_500_000);
    let first = summarize(&acc);
    let second = summarize(&acc);
    assert_eq!(first.total_requests, second.total_requests);
    assert_eq!(first.success_rate, second.success_rate);
    assert_eq!(first.rps, second.rps);
    assert_eq!(first.avg_latency, second.avg_latency);
    assert_eq!(first.percentiles, second.percentiles);
    assert_eq!(first.total_mb, second.total_mb);
    assert_eq!(first.throughput_mbps, second.throughput_mbps);
    assert_eq!(first.status_codes, second.status_codes);
    assert_eq!(first.histogram, second.histogram);
    assert_eq!(first.rps, 200);
    assert_eq!(first.avg_latency, Some(2400));
    assert_eq!(first.total_bytes, 5000);
    assert_eq!(first.total_mb, 1);
    assert_eq!(first.throughput_mbps, 2);
    assert_eq!(first.duration_micros, 2_500_000);
}

#[test]
fn outcomes_agree_with_their_status_class() {
    assert!(Outcome::Success { status_code: 200, latency: 1, byte_size: 0 }.is_well_classified());
    assert!(!Outcome::Success { status_code: 500, latency: 1, byte_size: 0 }.is_well_classified());
    assert!(Outcome::HttpFailure { status_code: 300, latency: 1, byte_size: 0 }
        .is_well_classified());
    assert!(!Outcome::HttpFailure { status_code: 299, latency: 1, byte_size: 0 }
        .is_well_classified());
    assert!(Outcome::NetworkFailure.is_well_classified());
    assert!(Outcome::TaskFailure.is_well_classified());
    for status_code in [100u16, 199, 200, 204, 299, 300, 404, 500, 599] {
        let meta = ResponseMeta { status_code, content_length: None };
        assert!(Outcome::from_response(meta, 1).is_well_classified());
    }
}
