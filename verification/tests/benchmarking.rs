use dns_bench::bench::{
    aggregate_of, attempt_outcome, attempt_step, run_aggregates, Aggregate, AttemptEvent,
    AttemptFailure, AttemptOutcome, AttemptState, BenchConfig,
};
use dns_bench::flags::{get_bit_at, pack_flags, query_flags, HeaderFlags};

#[test]
fn attempt_walks_to_success() {
    let s = attempt_step(AttemptState::Idle, AttemptEvent::SendOk);
    assert_eq!(s, AttemptState::Sent);
    let s = attempt_step(s, AttemptEvent::Received(42));
    assert_eq!(s, AttemptState::Done(AttemptOutcome::Success(42)));
    assert_eq!(attempt_outcome(&s), Some(AttemptOutcome::Success(42)));
}

#[test]
fn attempt_failure_classification() {
    assert_eq!(
        attempt_step(AttemptState::Idle, AttemptEvent::SendErr),
        AttemptState::Done(AttemptOutcome::Failure(AttemptFailure::SendFailed))
    );
    assert_eq!(
        attempt_step(AttemptState::Sent, AttemptEvent::RecvTimedOut),
        AttemptState::Done(AttemptOutcome::Failure(AttemptFailure::TimedOut))
    );
    assert_eq!(
        attempt_step(AttemptState::Sent, AttemptEvent::RecvErr),
        AttemptState::Done(AttemptOutcome::Failure(AttemptFailure::RecvFailed))
    );
}

#[test]
fn terminal_state_absorbs_events() {
    let done = AttemptState::Done(AttemptOutcome::Failure(AttemptFailure::TimedOut));
    assert_eq!(attempt_step(done, AttemptEvent::SendOk), done);
    assert_eq!(attempt_step(done, AttemptEvent::Received(1)), done);
    // an event for the wrong phase changes nothing
    assert_eq!(
        attempt_step(AttemptState::Idle, AttemptEvent::Received(1)),
        AttemptState::Idle
    );
    assert_eq!(attempt_outcome(&AttemptState::Sent), None);
}

#[test]
fn aggregates_two_successes_one_timeout() {
    // 50 ms and 150 ms succeed, the middle attempt times out: mean is 100 ms
    let attempts = vec![
        AttemptOutcome::Success(50_000_000),
        AttemptOutcome::Failure(AttemptFailure::TimedOut),
        AttemptOutcome::Success(150_000_000),
    ];
    let agg = aggregate_of(&attempts);
    assert_eq!(agg.success_count, 2);
    assert_eq!(agg.failure_count, 1);
    assert_eq!(agg.sum_nanos, 200_000_000);
    assert_eq!(agg.mean_nanos(), Some(100_000_000));
}

#[test]
fn all_timeouts_report_no_data() {
    let n = 5;
    let attempts = vec![AttemptOutcome::Failure(AttemptFailure::TimedOut); n];
    let agg = aggregate_of(&attempts);
    assert_eq!(agg.success_count, 0);
    assert_eq!(agg.failure_count, n);
    assert_eq!(agg.sum_nanos, 0);
    assert_eq!(agg.mean_nanos(), None);
}

#[test]
fn counts_partition_attempts() {
    let attempts = vec![
        AttemptOutcome::Success(10),
        AttemptOutcome::Failure(AttemptFailure::SendFailed),
        AttemptOutcome::Failure(AttemptFailure::RecvFailed),
        AttemptOutcome::Success(20),
    ];
    let agg = aggregate_of(&attempts);
    assert_eq!(agg.success_count + agg.failure_count, attempts.len());
}

#[test]
fn mean_divides_sum_by_successes() {
    let agg = Aggregate { success_count: 2, failure_count: 0, sum_nanos: 5 };
    assert_eq!(agg.mean_nanos(), Some(2));
    let empty = aggregate_of(&Vec::new());
    assert_eq!(empty.success_count, 0);
    assert_eq!(empty.failure_count, 0);
    assert_eq!(empty.mean_nanos(), None);
}

#[test]
fn one_aggregate_per_target_in_order() {
    let per_target = vec![
        vec![AttemptOutcome::Success(100)],
        vec![AttemptOutcome::Failure(AttemptFailure::TimedOut)],
        vec![AttemptOutcome::Success(30), AttemptOutcome::Success(10)],
    ];
    let aggs = run_aggregates(&per_target);
    assert_eq!(aggs.len(), 3);
    assert_eq!(aggs[0].success_count, 1);
    assert_eq!(aggs[0].mean_nanos(), Some(100));
    assert_eq!(aggs[1].failure_count, 1);
    assert_eq!(aggs[1].mean_nanos(), None);
    assert_eq!(aggs[2].success_count, 2);
    assert_eq!(aggs[2].mean_nanos(), Some(20));
}

#[test]
fn query_flags_pack_to_wire_constants() {
    let f = query_flags();
    assert_eq!(pack_flags(&f), (0b0000_0101, 0b0000_0000));
}

#[test]
fn pack_flags_places_each_field() {
    let f = HeaderFlags {
        qr: true,
        opcode: 0b1010,
        aa: false,
        tc: true,
        rd: false,
        ra: true,
        z: 0b011,
        rcode: 0b0110,
    };
    assert_eq!(pack_flags(&f), (0b1101_0010, 0b1011_0110));
}

#[test]
fn bit_probing_matches_flag_bytes() {
    let (b1, _) = pack_flags(&query_flags());
    let word = b1 as u32;
    assert!(get_bit_at(word, 0)); // RD
    assert!(!get_bit_at(word, 1)); // TC
    assert!(get_bit_at(word, 2)); // AA
    assert!(!get_bit_at(word, 7)); // QR
    assert!(get_bit_at(0x8000_0000, 31));
    assert!(!get_bit_at(u32::MAX, 32)); // out of range reads as false
    assert!(!get_bit_at(u32::MAX, 255));
}

#[test]
fn config_carries_run_parameters() {
    let config = BenchConfig {
        targets: vec!["127.0.0.1:53".to_string(), "9.9.9.9:53".to_string()],
        hostname: "shark.pm".to_string(),
        repetitions: 3,
        timeout_millis: 1000,
        local_bind: "0.0.0.0:12345".to_string(),
    };
    assert_eq!(config.targets.len(), 2);
    assert_eq!(config.repetitions, 3);
}
