use speedtest::driver::{Driver, Plan, Run, Step, TestKind, UserReq, speedtest_steps};
use speedtest::message::Inbound;
use speedtest::responder::reply_needed;
use speedtest::throughput::{throughput_divisor, throughput_hundredths, total_bytes, trial_throughput};
use speedtest::trial::{finish_trial, zeros, SendKind, Trial, TrialAction, TrialError, TrialPhase};

/// Drives a trial through its burst and returns the sends it asked for.
fn burst(trial: &mut Trial) -> Vec<SendKind> {
    let mut sends = Vec::new();
    while let TrialAction::Send(kind) = trial.next_action() {
        sends.push(kind);
        trial.sent();
    }
    sends
}

fn driver() -> Driver {
    Driver::new("our.os".to_string())
}

#[test]
fn divisor_switches_at_1024_bytes() {
    assert_eq!(throughput_divisor(0), 1_000_000);
    assert_eq!(throughput_divisor(24), 1_000_000);
    assert_eq!(throughput_divisor(1023), 1_000_000);
    assert_eq!(throughput_divisor(1024), 1_048_576);
    assert_eq!(throughput_divisor(1_048_576), 1_048_576);
}

#[test]
fn total_bytes_multiplies() {
    assert_eq!(total_bytes(100, 5), 500);
    assert_eq!(total_bytes(0, 7), 0);
    assert_eq!(total_bytes(usize::MAX, 2), (usize::MAX as u128) * 2);
}

#[test]
fn throughput_decimal_units_below_threshold() {
    // 500 bytes in one microsecond: 500 MB/s.
    assert_eq!(trial_throughput(100, 5, 1_000), Some(50_000));
}

#[test]
fn throughput_binary_units_from_threshold() {
    // 1 MiB in one second: 1 MiB/s.
    assert_eq!(trial_throughput(1024, 1024, 1_000_000_000), Some(100));
    // 1,000,000 bytes in one second: 1.00 MB/s in 1000-byte messages,
    // 0.95 MiB/s in 2000-byte messages.
    assert_eq!(trial_throughput(1000, 1000, 1_000_000_000), Some(100));
    assert_eq!(trial_throughput(2000, 500, 1_000_000_000), Some(95));
}

#[test]
fn throughput_same_length_same_divisor() {
    let a = trial_throughput(512, 10, 2_000_000).unwrap();
    let b = trial_throughput(512, 10, 2_000_000).unwrap();
    assert_eq!(a, b);
    assert_eq!(a, 256);
}

#[test]
fn throughput_without_elapsed_time_is_none() {
    assert_eq!(throughput_hundredths(500, 0, 1_000_000), None);
}

#[test]
fn throughput_too_many_bytes_is_none() {
    assert_eq!(throughput_hundredths(u128::MAX, 1, 1_000_000), None);
    assert_eq!(throughput_hundredths(u128::MAX / 100_000_000_000, 1, 1), Some(u128::MAX / 100_000_000_000 * 100_000_000_000));
}

#[test]
fn trial_sends_many() {
    let mut t = Trial::new(10, 5);
    let s = burst(&mut t);
    assert_eq!(s.len(), 5);
    assert_eq!(s.iter().filter(|k| **k == SendKind::FireAndForget).count(), 4);
    assert_eq!(s[4], SendKind::Acked);
    assert!(s[..4].iter().all(|k| *k == SendKind::FireAndForget));
    assert_eq!(t.next_action(), TrialAction::AwaitReply);
}

#[test]
fn trial_sends_single() {
    let mut t = Trial::new(10, 1);
    assert_eq!(burst(&mut t), vec![SendKind::Acked]);
    assert_eq!(t.phase, TrialPhase::AwaitingFinalAck);
}

#[test]
fn trial_completes_on_response() {
    let mut t = Trial::new(2048, 2);
    burst(&mut t);
    t.received(Inbound::Response, 1_000_000_000);
    let TrialPhase::Completed(rep) = t.phase else { panic!("expected completion") };
    assert_eq!(rep.bytes, 4096);
    assert_eq!(rep.divisor, 1_048_576);
    assert_eq!(rep.hundredths, Some(0));
    assert_eq!(t.next_action(), TrialAction::Finished);
}

#[test]
fn trial_fails_on_request() {
    let mut t = Trial::new(8, 3);
    burst(&mut t);
    t.received(Inbound::Request { expects_response: false }, 5);
    assert_eq!(t.phase, TrialPhase::Failed(TrialError::NoResponse));
    assert_eq!(t.next_action(), TrialAction::Finished);
}

#[test]
fn zeros_payload() {
    assert_eq!(zeros(3), vec![0u8, 0, 0]);
    assert!(zeros(0).is_empty());
}

#[test]
fn finish_trial_on_response() {
    let r = finish_trial(Inbound::Response, 100, 5, 1_000).unwrap();
    assert_eq!(r.bytes, 500);
    assert_eq!(r.divisor, 1_000_000);
    assert_eq!(r.hundredths, Some(50_000));
    assert_eq!(r.elapsed_nanos, 1_000);
}

#[test]
fn finish_trial_fails_without_response() {
    assert_eq!(finish_trial(Inbound::Failed, 100, 5, 1_000), Err(TrialError::NoResponse));
    assert_eq!(
        finish_trial(Inbound::Request { expects_response: true }, 100, 5, 1_000),
        Err(TrialError::NoResponse)
    );
}

#[test]
fn bandwidth_test_100_bytes_5_messages() {
    let plan = driver().handle_user_req(&UserReq::BandwidthTest {
        node_id: "peer.os".to_string(),
        message_bytes: 100,
        message_count: 5,
    });
    let Plan::Run { peer, steps } = plan else { panic!("expected a run") };
    assert_eq!(peer, "peer.os");
    assert_eq!(steps.len(), 1);
    let Step::Bandwidth { payload, count } = &steps[0] else { panic!("expected a trial") };
    assert_eq!(payload, &vec![0u8; 100]);
    assert_eq!(*count, 5);
    let mut trial = Trial::new(payload.len(), *count);
    let sends = burst(&mut trial);
    assert_eq!(sends.iter().filter(|k| **k == SendKind::FireAndForget).count(), 4);
    assert_eq!(sends.iter().filter(|k| **k == SendKind::Acked).count(), 1);
    assert_eq!(sends[4], SendKind::Acked);
    trial.received(Inbound::Response, 2_000_000);
    let TrialPhase::Completed(report) = trial.phase else { panic!("expected completion") };
    assert_eq!(report.bytes, 500);
    assert_eq!(report.divisor, 1_000_000);
    assert_eq!(report.hundredths, Some(25));
}

#[test]
fn speedtest_with_self_is_refused() {
    let plan = driver().handle_user_req(&UserReq::Speedtest("our.os".to_string()));
    assert!(matches!(plan, Plan::SelfTest(TestKind::Speedtest)));
}

#[test]
fn bandwidth_test_with_self_is_refused() {
    let plan = driver().handle_user_req(&UserReq::BandwidthTest {
        node_id: "our.os".to_string(),
        message_bytes: 10,
        message_count: 3,
    });
    assert!(matches!(plan, Plan::SelfTest(TestKind::Bandwidth)));
}

#[test]
fn bandwidth_test_of_zero_messages_is_refused() {
    let plan = driver().handle_user_req(&UserReq::BandwidthTest {
        node_id: "peer.os".to_string(),
        message_bytes: 10,
        message_count: 0,
    });
    assert!(matches!(plan, Plan::ZeroCount));
}

#[test]
fn speedtest_schedule() {
    let steps = speedtest_steps();
    assert_eq!(steps.len(), 7);
    assert!(matches!(steps[0], Step::Ping { number: 1 }));
    assert!(matches!(steps[1], Step::Ping { number: 2 }));
    let expected = [(24usize, 10_000usize), (1024, 1000), (60_000, 1000), (102_400, 100), (1_048_576, 10)];
    for (i, (size, n)) in expected.iter().enumerate() {
        let Step::Bandwidth { payload, count } = &steps[i + 2] else { panic!("expected a trial") };
        assert_eq!(payload.len(), *size);
        assert_eq!(count, n);
    }
    let Step::Bandwidth { payload, .. } = &steps[2] else { panic!("expected a trial") };
    assert_eq!(payload.as_slice(), "this is exactly 24 bytes".as_bytes());
}

#[test]
fn speedtest_plan_for_peer() {
    let plan = driver().handle_user_req(&UserReq::Speedtest("peer.os".to_string()));
    let Plan::Run { peer, steps } = plan else { panic!("expected a run") };
    assert_eq!(peer, "peer.os");
    assert_eq!(steps.len(), 7);
}

#[test]
fn run_goes_on_after_failures() {
    let mut run = Run::new(speedtest_steps());
    let outcomes = [false, true, false, false, true, false, false];
    let mut attempted = 0;
    for ok in outcomes {
        assert!(run.current().is_some());
        run.record(ok);
        attempted += 1;
    }
    assert_eq!(attempted, 7);
    assert!(run.current().is_none());
    assert_eq!(run.failures, 5);
}

#[test]
fn source_must_be_our_node() {
    let d = driver();
    assert!(d.accepts_source(&"our.os".to_string()));
    assert!(!d.accepts_source(&"other.os".to_string()));
}

#[test]
fn responder_replies_only_when_asked() {
    let inbox = [
        Inbound::Request { expects_response: true },
        Inbound::Request { expects_response: false },
        Inbound::Response,
        Inbound::Failed,
        Inbound::Request { expects_response: true },
    ];
    let replied: Vec<usize> = (0..inbox.len()).filter(|i| reply_needed(&inbox[*i])).collect();
    assert_eq!(replied, vec![0, 4]);
}
