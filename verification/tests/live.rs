use ai_task::approvals::{decision_result, expires_in_s, DecisionOutcome};
use ai_task::bus::{parse_wakeup, wakeup_payload, Wakeup};
use ai_task::error::AppError;
use ai_task::sse::{last_event_id, EventCursor, StreamNext, CATCHUP_BATCH, KEEPALIVE_S};

const SECOND: i64 = 1_000_000;

#[test]
fn a_card_reports_the_remaining_time_so_the_client_never_computes_it() {
    let now = 1_788_857_536_123_456;
    let left = expires_in_s(now + 120 * SECOND, now + 3 * SECOND);
    assert!((115..=120).contains(&left), "{left}");
    assert_eq!(left, 117);
}

#[test]
fn an_expired_card_reports_zero_not_a_negative_number() {
    let now = 1_788_857_536_123_456;
    assert_eq!(expires_in_s(now - 3600 * SECOND, now), 0);
    assert_eq!(expires_in_s(now + SECOND - 1, now), 0);
}

#[test]
fn the_first_decision_wins_and_later_ones_learn_it() {
    let first = decision_result(&DecisionOutcome::Recorded { approved: true }, "a1").expect("ok");
    assert!(first.approved && first.was_first);
    let later =
        decision_result(&DecisionOutcome::AlreadyDecided { approved: false }, "a1").expect("ok");
    assert!(!later.approved && !later.was_first);
    match decision_result(&DecisionOutcome::NotFound, "a1") {
        Err(AppError::NotFound(m)) => assert_eq!(m, "审批 a1 不存在"),
        _ => panic!("a missing approval is a 404"),
    }
}

#[test]
fn wakeup_payload_round_trips() {
    let run_id = uuid::Uuid::new_v4();
    let parsed = parse_wakeup(&format!("{run_id}:42")).expect("parses");
    assert_eq!(parsed.run_id, run_id.as_u128());
    assert_eq!(parsed.max_seq, 42);
    let w = Wakeup { run_id: run_id.as_u128(), max_seq: 7 };
    let text = wakeup_payload(w);
    assert_eq!(text, format!("{run_id}:7"));
    assert_eq!(parse_wakeup(&text), Some(w));
}

#[test]
fn malformed_payloads_are_rejected_not_guessed() {
    assert!(parse_wakeup("").is_none());
    assert!(parse_wakeup("no-colon").is_none());
    assert!(parse_wakeup("not-a-uuid:1").is_none());
    assert!(parse_wakeup(&format!("{}:abc", uuid::Uuid::new_v4())).is_none());
}

#[test]
fn resumes_from_the_last_event_id() {
    assert_eq!(last_event_id(Some("42")), Some(42));
    assert_eq!(last_event_id(Some(" 42 ")), Some(42));
}

#[test]
fn a_garbage_last_event_id_falls_back_to_a_full_replay() {
    assert_eq!(last_event_id(None), None);
    assert_eq!(last_event_id(Some("abc")), None);
    assert_eq!(last_event_id(Some("-1")), None);
    assert_eq!(last_event_id(Some("")), None);
}

#[test]
fn keepalive_is_shorter_than_common_proxy_idle_timeouts() {
    assert!(KEEPALIVE_S < 60);
}

#[test]
fn the_cursor_stops_once_a_finished_run_is_caught_up() {
    let c = EventCursor::start(Some(10), true, 10);
    assert!(c.finished);
    let mut c = EventCursor::start(None, true, 10);
    assert_eq!(c.seq, 0);
    assert!(!c.finished);
    c.absorb(10, true);
    assert_eq!(c.seq, 10);
    assert!(c.finished);
    assert!(EventCursor::batch_was_full(CATCHUP_BATCH as usize));
    assert!(!EventCursor::batch_was_full(3));
}

#[test]
fn a_stream_reads_on_after_a_full_batch_and_ends_after_the_final_event() {
    let mut c = EventCursor::start(Some(3), false, 9);
    let full: Vec<(i64, bool)> = (4..4 + CATCHUP_BATCH as i64).map(|s| (s, false)).collect();
    assert!(matches!(c.take_batch(&full), StreamNext::ReadMore));
    assert_eq!(c.seq, 3 + CATCHUP_BATCH as i64);
    assert!(matches!(c.take_batch(&vec![]), StreamNext::Wait));
    let next = c.seq + 1;
    assert!(matches!(c.take_batch(&vec![(next, false), (next + 1, true)]), StreamNext::End));
    assert_eq!(c.seq, next + 1);
    assert!(c.finished);
}
