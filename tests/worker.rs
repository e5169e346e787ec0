use tracing_layer_discord::{
    event_for, Action, MessagePayload, Outcome, PayloadMessageType, Phase, WorkerEvent,
    WorkerMessage, WorkerState, BACKOFF_MILLIS, MAX_RETRIES,
};

fn message(n: u32) -> WorkerMessage {
    WorkerMessage::Data(MessagePayload::new(
        PayloadMessageType::TextNoEmbed(format!("m{}", n)),
        "u".to_string(),
    ))
}

/// Drives the worker over a queue, with `deliver` deciding each attempt;
/// returns the message numbers attempted, in order, and the outcomes.
fn drive(queue: Vec<WorkerMessage>, deliver: impl Fn(usize) -> bool) -> (Vec<usize>, Vec<Outcome>, WorkerState) {
    let mut w = WorkerState::new();
    let mut attempts = Vec::new();
    let mut outcomes = Vec::new();
    let mut next = 0usize;
    let mut current = 0usize;
    loop {
        match w.next_action() {
            Action::Receive => {
                let ev = match queue.get(next) {
                    Some(item) => event_for(item),
                    None => WorkerEvent::Closed,
                };
                current = next;
                next += 1;
                outcomes.push(w.handle(ev));
            }
            Action::Post => {
                attempts.push(current);
                let ev = if deliver(current) { WorkerEvent::Sent } else { WorkerEvent::Failed };
                outcomes.push(w.handle(ev));
            }
            Action::Sleep(ms) => {
                assert_eq!(ms, BACKOFF_MILLIS);
                outcomes.push(w.handle(WorkerEvent::Woke));
            }
            Action::Stop => break,
        }
    }
    (attempts, outcomes, w)
}

#[test]
fn three_messages_then_shutdown() {
    let queue = vec![message(0), message(1), message(2), WorkerMessage::Shutdown];
    let (attempts, outcomes, w) = drive(queue, |_| true);
    assert_eq!(attempts, vec![0, 1, 2]);
    assert_eq!(outcomes.iter().filter(|o| **o == Outcome::Delivered).count(), 3);
    assert_eq!(w.phase, Phase::Stopped);
}

#[test]
fn failing_endpoint_gets_ten_attempts_per_message() {
    let queue = vec![message(0), message(1), WorkerMessage::Shutdown];
    let (attempts, outcomes, _) = drive(queue, |_| false);
    assert_eq!(MAX_RETRIES, 10);
    assert_eq!(attempts.iter().filter(|a| **a == 0).count(), 10);
    assert_eq!(attempts.iter().filter(|a| **a == 1).count(), 10);
    assert_eq!(outcomes.iter().filter(|o| **o == Outcome::Dropped).count(), 2);
    assert_eq!(outcomes.iter().filter(|o| **o == Outcome::Retrying).count(), 18);
}

#[test]
fn attempts_follow_queue_order() {
    let queue = vec![message(0), message(1), message(2), message(3), WorkerMessage::Shutdown];
    let (attempts, _, _) = drive(queue, |i| i % 2 == 0);
    let mut sorted = attempts.clone();
    sorted.sort();
    assert_eq!(attempts, sorted);
    assert_eq!(attempts.len(), 1 + 10 + 1 + 10);
}

#[test]
fn items_after_shutdown_marker_are_not_taken() {
    let queue = vec![message(0), WorkerMessage::Shutdown, message(1)];
    let (attempts, _, w) = drive(queue, |_| true);
    assert_eq!(attempts, vec![0]);
    assert_eq!(w.phase, Phase::Stopped);
}

#[test]
fn closed_queue_stops_the_worker() {
    let (attempts, _, w) = drive(vec![message(0)], |_| true);
    assert_eq!(attempts, vec![0]);
    assert_eq!(w.phase, Phase::Stopped);
}

#[test]
fn success_after_retry_is_delivered() {
    let mut w = WorkerState::new();
    assert_eq!(w.handle(WorkerEvent::Received), Outcome::Nothing);
    assert_eq!(w.next_action(), Action::Post);
    assert_eq!(w.handle(WorkerEvent::Failed), Outcome::Retrying);
    assert_eq!(w.next_action(), Action::Sleep(100));
    assert_eq!(w.handle(WorkerEvent::Woke), Outcome::Nothing);
    assert_eq!(w.attempts, 2);
    assert_eq!(w.handle(WorkerEvent::Sent), Outcome::Delivered);
    assert_eq!(w.next_action(), Action::Receive);
}

#[test]
fn stopped_worker_ignores_events() {
    let mut w = WorkerState::new();
    w.handle(WorkerEvent::ShutdownSignal);
    assert_eq!(w.handle(WorkerEvent::Received), Outcome::Nothing);
    assert_eq!(w.next_action(), Action::Stop);
}
