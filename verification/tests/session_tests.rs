use nping::codec::{decode_echo_reply, echo_reply_for, encode_echo_request};
use nping::event::{Outcome, PingResult, ProbeSent, UpdateEvent};
use nping::coordinator::{plan_targets, Strategy};
use nping::session::{sessions_for, PingOptions, PingTask, RoundAction};

fn task(count: usize, interval: u64) -> PingTask {
    PingTask::new("192.0.2.7".to_string(), count, interval, 3, 0x0BAD, 100)
}

fn sent_frame(action: RoundAction) -> (u16, Vec<u8>) {
    match action {
        RoundAction::Send { sequence, frame, .. } => (sequence, frame),
        other => panic!("expected a send, got {:?}", other),
    }
}

#[test]
fn options_carry_the_defaults() {
    let options = PingOptions::new("example.org".to_string(), 500, None);
    assert_eq!(options.target, "example.org");
    assert_eq!(options.interval, 500);
    assert_eq!(options.interface, None);
    assert_eq!(options.stop_after_lost_n, 10);
    let other = PingOptions::new("h".to_string(), 0, Some("eth0".to_string()));
    assert_eq!(other.interface, Some("eth0".to_string()));
    assert_eq!(other.interval, 0);
}

#[test]
fn task_options_name_the_target() {
    let options = task(4, 750).options();
    assert_eq!(options.target, "192.0.2.7");
    assert_eq!(options.interval, 750);
    assert_eq!(options.interface, None);
    assert_eq!(options.stop_after_lost_n, 10);
}

#[test]
fn new_task_has_sent_nothing() {
    let t = task(4, 500);
    assert_eq!(t.sent(), 0);
    assert_eq!(t.in_flight(), None);
    assert!(!t.is_stopped());
}

#[test]
fn first_round_sends_at_once() {
    let mut t = task(4, 500);
    let (sequence, frame) = sent_frame(t.next_round(0, true));
    assert_eq!(sequence, 100);
    assert_eq!(frame, encode_echo_request(0x0BAD, 100, 8));
    assert_eq!(frame.len(), 16);
    assert_eq!(t.sent(), 1);
    assert_eq!(t.in_flight(), Some(100));
}

#[test]
fn a_round_in_flight_must_be_settled_first() {
    let mut t = task(4, 500);
    sent_frame(t.next_round(0, true));
    assert_eq!(t.next_round(1_000_000, true), RoundAction::Pending);
    assert_eq!(t.next_round(1_000_000, false), RoundAction::Pending);
    assert_eq!(t.sent(), 1);
    assert!(!t.is_stopped());
}

#[test]
fn matching_reply_in_time_ends_the_round() {
    let mut t = task(4, 500);
    let (_, frame) = sent_frame(t.next_round(0, true));
    let reply = echo_reply_for(&frame).unwrap();
    let event = t.on_frame(&reply, 10_000).unwrap();
    assert_eq!(
        event,
        UpdateEvent {
            index: 3,
            address: "192.0.2.7".to_string(),
            outcome: Outcome::Replied(10_000)
        }
    );
    assert_eq!(t.in_flight(), None);
    // the same reply again answers nothing
    assert_eq!(t.on_frame(&reply, 12_000), None);
}

#[test]
fn reply_at_the_edge_of_the_window() {
    let mut t = task(4, 500);
    let (_, frame) = sent_frame(t.next_round(0, true));
    let reply = echo_reply_for(&frame).unwrap();
    let event = t.on_frame(&reply, 499_999).unwrap();
    assert_eq!(event.outcome, Outcome::Replied(499_999));

    let (_, frame) = sent_frame(t.next_round(500_000, true));
    let reply = echo_reply_for(&frame).unwrap();
    let event = t.on_frame(&reply, 500_000).unwrap();
    assert_eq!(event.outcome, Outcome::TimedOut);
}

#[test]
fn frames_that_do_not_match_are_ignored() {
    let mut t = task(4, 500);
    let (sequence, frame) = sent_frame(t.next_round(0, true));
    // the request itself, as seen on a shared socket
    assert_eq!(t.on_frame(&frame, 1), None);
    // a reply for another identifier
    let other = echo_reply_for(&encode_echo_request(0x0BAE, sequence, 8)).unwrap();
    assert!(decode_echo_reply(&other).is_some());
    assert_eq!(t.on_frame(&other, 1), None);
    // a reply for another sequence number
    let stale = echo_reply_for(&encode_echo_request(0x0BAD, sequence - 1, 8)).unwrap();
    assert_eq!(t.on_frame(&stale, 1), None);
    // a damaged reply
    let mut damaged = echo_reply_for(&frame).unwrap();
    damaged[10] ^= 1;
    assert_eq!(t.on_frame(&damaged, 1), None);
    // noise
    assert_eq!(t.on_frame(&[], 1), None);
    assert_eq!(t.on_frame(&[3, 1, 0xFC, 0xFE, 0, 0, 0, 0], 1), None);
    assert_eq!(t.in_flight(), Some(sequence));
    // and the right reply still ends the round
    let reply = echo_reply_for(&frame).unwrap();
    assert_eq!(t.on_frame(&reply, 20).unwrap().outcome, Outcome::Replied(20));
}

#[test]
fn deadline_ends_the_round_as_a_timeout() {
    let mut t = task(4, 500);
    sent_frame(t.next_round(0, true));
    assert_eq!(t.on_deadline(0), None);
    assert_eq!(t.on_deadline(499_999), None);
    assert_eq!(t.in_flight(), Some(100));
    let event = t.on_deadline(500_000).unwrap();
    assert_eq!(event.index, 3);
    assert_eq!(event.address, "192.0.2.7");
    assert_eq!(event.outcome, Outcome::TimedOut);
    assert_eq!(t.in_flight(), None);
    assert_eq!(t.on_deadline(900_000), None);
}

#[test]
fn rounds_are_paced_by_the_interval() {
    let mut t = task(4, 500);
    sent_frame(t.next_round(0, true));
    t.on_deadline(500_000).unwrap();
    assert_eq!(t.next_round(0, true), RoundAction::Wait { millis: 500 });
    assert_eq!(t.next_round(200_999, true), RoundAction::Wait { millis: 300 });
    assert_eq!(t.next_round(499_999, true), RoundAction::Wait { millis: 1 });
    assert_eq!(t.sent(), 1);
    let (sequence, _) = sent_frame(t.next_round(500_000, true));
    assert_eq!(sequence, 101);
    assert_eq!(t.sent(), 2);
}

#[test]
fn sequence_numbers_count_up_and_wrap() {
    let mut t = PingTask::new("h".to_string(), 5, 0, 0, 1, 65534);
    let mut seen = Vec::new();
    for _ in 0..5 {
        let (sequence, frame) = sent_frame(t.next_round(0, true));
        assert_eq!(frame, encode_echo_request(1, sequence, 8));
        seen.push(sequence);
        t.on_deadline(0).unwrap();
    }
    assert_eq!(seen, vec![65534, 65535, 0, 1, 2]);
}

#[test]
fn session_stops_when_the_count_is_reached() {
    let mut t = task(2, 0);
    for _ in 0..2 {
        sent_frame(t.next_round(0, true));
        t.on_deadline(0).unwrap();
    }
    assert_eq!(t.sent(), 2);
    assert!(!t.is_stopped());
    assert_eq!(t.next_round(0, true), RoundAction::Stop);
    assert!(t.is_stopped());
    assert_eq!(t.next_round(0, true), RoundAction::Stop);
    assert_eq!(t.sent(), 2);
}

#[test]
fn session_with_no_probes_stops_at_once() {
    let mut t = task(0, 500);
    assert_eq!(t.next_round(0, true), RoundAction::Stop);
    assert!(t.is_stopped());
    assert_eq!(t.sent(), 0);
}

#[test]
fn cancelled_before_the_first_round() {
    let mut t = task(4, 500);
    assert_eq!(t.next_round(0, false), RoundAction::Stop);
    assert!(t.is_stopped());
    assert_eq!(t.sent(), 0);
    assert_eq!(t.next_round(0, true), RoundAction::Stop);
}

#[test]
fn cancellation_mid_round_lets_the_round_finish_and_then_stops() {
    let mut t = task(10, 500);
    let (_, frame) = sent_frame(t.next_round(0, true));
    let reply = echo_reply_for(&frame).unwrap();
    assert!(t.on_frame(&reply, 7_000).is_some());
    let (_, frame) = sent_frame(t.next_round(500_000, true));
    // the flag flips while the second probe is in flight
    assert_eq!(t.next_round(100_000, false), RoundAction::Pending);
    // the round is over within one interval: here by its deadline
    let event = t.on_deadline(500_000).unwrap();
    assert_eq!(event.outcome, Outcome::TimedOut);
    // the pace is kept, then the flag is seen
    assert_eq!(t.next_round(100_000, false), RoundAction::Wait { millis: 400 });
    assert_eq!(t.next_round(500_000, false), RoundAction::Stop);
    assert!(t.is_stopped());
    assert_eq!(t.sent(), 2);
    // no further events, whatever arrives
    let late = echo_reply_for(&frame).unwrap();
    assert_eq!(t.on_frame(&late, 1), None);
    assert_eq!(t.on_deadline(10_000_000), None);
    assert_eq!(t.on_result(PingResult::Pong(5, "192.0.2.7".to_string())), None);
    assert_eq!(t.on_result(PingResult::Timeout("192.0.2.7".to_string())), None);
    assert_eq!(t.on_failure("late".to_string(), false), None);
    assert_eq!(t.on_failure("late".to_string(), true), None);
    assert_eq!(t.next_round(10_000_000, true), RoundAction::Stop);
    assert_eq!(t.sent(), 2);
}

#[test]
fn cancellation_mid_round_with_a_reply() {
    let mut t = task(10, 500);
    let (_, frame) = sent_frame(t.next_round(0, true));
    assert_eq!(t.next_round(0, false), RoundAction::Pending);
    let reply = echo_reply_for(&frame).unwrap();
    assert_eq!(t.on_frame(&reply, 499_000).unwrap().outcome, Outcome::Replied(499_000));
    assert_eq!(t.next_round(500_000, false), RoundAction::Stop);
    assert_eq!(t.on_frame(&reply, 499_000), None);
}

#[test]
fn prober_results_become_outcomes() {
    let mut t = task(10, 0);
    sent_frame(t.next_round(0, true));
    let event = t.on_result(PingResult::Pong(1234, "192.0.2.7".to_string())).unwrap();
    assert_eq!(event.outcome, Outcome::Replied(1234));
    assert_eq!(event.index, 3);
    assert_eq!(event.address, "192.0.2.7");

    sent_frame(t.next_round(0, true));
    let event = t.on_result(PingResult::Timeout("192.0.2.7".to_string())).unwrap();
    assert_eq!(event.outcome, Outcome::TimedOut);

    sent_frame(t.next_round(0, true));
    let event = t.on_result(PingResult::Unknown("Network error.".to_string())).unwrap();
    assert_eq!(
        event.outcome,
        Outcome::ProbeError(
            "host(192.0.2.7) ping err, reason: unknown, err: Network error.".to_string()
        )
    );

    sent_frame(t.next_round(0, true));
    let event = t.on_result(PingResult::PingExited(Some(2), "no route".to_string())).unwrap();
    assert_eq!(
        event.outcome,
        Outcome::ProbeError(
            "host(192.0.2.7) ping err, reason: ping exited, err: no route".to_string()
        )
    );

    sent_frame(t.next_round(0, true));
    let event = t.on_result(PingResult::PingExited(None, "killed".to_string())).unwrap();
    assert_eq!(
        event.outcome,
        Outcome::ProbeError("host(192.0.2.7) ping err, reason: ping exited, err: killed".to_string())
    );

    sent_frame(t.next_round(0, true));
    assert_eq!(t.on_result(PingResult::PingExited(Some(0), String::new())), None);
    assert_eq!(t.in_flight(), None);
    assert_eq!(t.sent(), 6);
}

#[test]
fn a_result_without_a_probe_in_flight_is_dropped() {
    let mut t = task(10, 0);
    assert_eq!(t.on_result(PingResult::Pong(1, "x".to_string())), None);
    assert_eq!(t.on_result(PingResult::Unknown("x".to_string())), None);
    assert_eq!(t.sent(), 0);
    assert!(!t.is_stopped());
}

#[test]
fn transport_failure_is_reported_and_the_session_retries() {
    let mut t = task(3, 0);
    sent_frame(t.next_round(0, true));
    let event = t.on_failure("send failed".to_string(), false).unwrap();
    assert_eq!(event.outcome, Outcome::ProbeError("send failed".to_string()));
    assert_eq!(event.index, 3);
    assert_eq!(t.in_flight(), None);
    assert!(!t.is_stopped());
    let (sequence, _) = sent_frame(t.next_round(0, true));
    assert_eq!(sequence, 101);
}

#[test]
fn resource_failure_ends_the_session_and_is_reported_once() {
    let mut t = task(3, 0);
    let event = t.on_failure("no socket".to_string(), true).unwrap();
    assert_eq!(event.outcome, Outcome::ProbeError("no socket".to_string()));
    assert!(t.is_stopped());
    assert_eq!(t.on_failure("no socket".to_string(), true), None);
    assert_eq!(t.next_round(0, true), RoundAction::Stop);
    assert_eq!(t.sent(), 0);
}

#[test]
fn zero_interval_leaves_no_time_for_a_reply() {
    let mut t = task(2, 0);
    let (_, frame) = sent_frame(t.next_round(0, true));
    let reply = echo_reply_for(&frame).unwrap();
    assert_eq!(t.on_frame(&reply, 0).unwrap().outcome, Outcome::TimedOut);
    assert!(matches!(t.next_round(0, true), RoundAction::Send { .. }));
}

#[test]
fn one_session_per_planned_target() {
    let names: Vec<String> = ["a", "b", "c"].iter().map(|s| s.to_string()).collect();
    let addresses: Vec<String> =
        ["10.0.0.1", "10.0.0.2", "10.0.0.3"].iter().map(|s| s.to_string()).collect();
    let plan = plan_targets(&names, &addresses, 500).unwrap();
    let mut tasks = sessions_for(&plan, 30000, 250, Strategy::Shared);
    assert_eq!(tasks.len(), 3);
    for (i, task) in tasks.iter_mut().enumerate() {
        assert_eq!(task.identifier(), 500 + i as u16);
        assert_eq!(task.options().target, addresses[i]);
        assert_eq!(task.options().interval, 250);
        let (sequence, _) = sent_frame(task.next_round(0, true));
        assert_eq!(sequence, plan[i].sequence_base);
        let event = task.on_deadline(250_000).unwrap();
        assert_eq!(event.index, i);
        assert_eq!(event.address, addresses[i]);
    }
    assert!(sessions_for(&Vec::new(), 5, 250, Strategy::Shared).is_empty());
}

#[test]
fn shared_sessions_send_no_more_than_their_share() {
    let names: Vec<String> = (0..20000).map(|i| format!("t{}", i)).collect();
    let plan = plan_targets(&names, &names, 0).unwrap();
    // 65535 / 20000 = 3 probes each
    let mut shared = sessions_for(&plan, 10, 0, Strategy::Shared);
    let mut isolated = sessions_for(&plan, 10, 0, Strategy::Isolated);
    for (tasks, expected) in [(&mut shared, 3usize), (&mut isolated, 10usize)] {
        let task = &mut tasks[19999];
        let mut sequences = Vec::new();
        while let RoundAction::Send { sequence, .. } = task.next_round(0, true) {
            sequences.push(sequence);
            task.on_deadline(0).unwrap();
        }
        assert_eq!(sequences.len(), expected);
        assert_eq!(sequences[0], 59998);
        assert_eq!(task.sent(), expected);
    }
}

#[test]
fn every_send_carries_the_notice_for_the_pipeline() {
    let mut t = task(3, 0);
    for _ in 0..3 {
        match t.next_round(0, true) {
            RoundAction::Send { notice, .. } => assert_eq!(notice, ProbeSent { index: 3 }),
            other => panic!("expected a send, got {:?}", other),
        }
        t.on_deadline(0).unwrap();
    }
    assert_eq!(t.next_round(0, true), RoundAction::Stop);
}
