use buzz_acp::reporter::{
    check_payload, next_backoff, reporter_config, valid_token, Pacing, ReportingDisabled,
    INITIAL_BACKOFF, MAX_BACKOFF, PAYLOAD_CAP_BYTES, REPORT_INTERVAL, REPORT_TIMEOUT,
};
use buzz_acp::self_report::{
    classify_event, note_dispatched, note_published, note_result, wake_reporter, EmittedCounts, FreezeState,
    LogCounters, SeatStatus, SelfReportState, WrittenCounts, LATENCY_WINDOW,
};
use std::time::Duration;

const MS: u128 = 1_000_000;

fn state(agent: &str) -> SelfReportState {
    SelfReportState::new(agent.to_string(), 4711, 1_700_000_000)
}

#[test]
fn token_charset() {
    assert!(valid_token("abcXYZ012"));
    assert!(!valid_token(""));
    assert!(!valid_token("abc-123"));
    assert!(!valid_token("abc 123"));
    assert!(!valid_token("abc.123"));
    assert!(!valid_token("abcé"));
}

#[test]
fn backoff_doubles_to_cap() {
    let mut d = Duration::from_secs(1).as_nanos();
    let mut seq = vec![d];
    for _ in 0..12 {
        d = next_backoff(d);
        seq.push(d);
    }
    assert_eq!(seq[1], Duration::from_secs(2).as_nanos());
    assert_eq!(seq[9], Duration::from_secs(512).as_nanos());
    assert_eq!(seq[10], MAX_BACKOFF);
    assert!(seq[11] == MAX_BACKOFF);
    assert_eq!(MAX_BACKOFF, Duration::from_secs(15 * 60).as_nanos());
    assert_eq!(next_backoff(Duration::MAX.as_nanos()), MAX_BACKOFF);
    assert_eq!(next_backoff(u128::MAX), MAX_BACKOFF);
    assert_eq!(next_backoff(0), 0);
}

#[test]
fn freeze_derivation_report_to_report() {
    let mut counters = LogCounters::default();
    let mut state = state(&"aa".repeat(32));
    // Baseline report: nothing emitted -> ok.
    assert_eq!(state.snapshot(&counters, 10).freeze.state, "ok");
    // Emit without writing -> next snapshot must show stalled_write.
    counters.emitted_total = 5;
    counters.written_bytes = 0;
    let s = state.snapshot(&counters, 20);
    assert_eq!(s.freeze.state, "stalled_write");
    assert!(s.freeze.detected_at_unix.is_some());
    assert_eq!(s.freeze.detected_at_unix, Some(20));
    assert_eq!(s.freeze.emitted_minus_written, 5);
    // The stall lasts: its onset stays.
    counters.emitted_total = 9;
    assert_eq!(state.snapshot(&counters, 30).freeze, s.freeze);
    // Writes resume -> recovers to ok.
    counters.written_bytes = 4096;
    assert_eq!(state.snapshot(&counters, 40).freeze.state, "ok");
    assert_eq!(state.snapshot(&counters, 50).freeze, FreezeState::default());
}

#[test]
fn emission_classifies_targets() {
    let mut counters = LogCounters::default();
    classify_event("buzz_acp::pool::agent", &mut counters);
    classify_event("buzz_acp::pool", &mut counters);
    classify_event("buzz_acp::gate", &mut counters);
    classify_event("other_crate::x", &mut counters);
    assert_eq!(counters.emitted_total, 4);
    assert_eq!(counters.emitted_pool, 2);
    assert_eq!(counters.emitted_lib, 1);
    assert_eq!(counters.snapshot(), EmittedCounts { total: 4, pool: 2, lib: 1 });
}

#[test]
fn counters_wrap_around() {
    let mut counters = LogCounters { emitted_total: u64::MAX, ..LogCounters::default() };
    classify_event("x", &mut counters);
    assert_eq!(counters.emitted_total, 0);
}

#[test]
fn writes_are_counted_by_line_and_byte() {
    let mut c = LogCounters::default();
    c.note_write(b"one\ntwo\nthr", 11);
    c.note_write(b"ee\n", 2);
    assert_eq!(c.written(), WrittenCounts { lines: 2, bytes: 13 });
    c.note_write(b"\n", 0);
    assert_eq!(c.written(), WrittenCounts { lines: 2, bytes: 13 });
    let mut whole = LogCounters::default();
    whole.note_write(b"one\ntwo\nthree", 13);
    assert_eq!(whole, c);
}

fn object(members: Vec<(&str, serde_json::Value)>) -> serde_json::Value {
    let members = members.into_iter().map(|(k, v)| (k.to_string(), v));
    serde_json::Value::Object(members.collect())
}

/// The report as the dashboard gets it.
fn json_of(s: &SeatStatus) -> serde_json::Value {
    let latency = object(vec![
        ("last_ms", s.dispatch_response_latency_ms.last_ms.into()),
        ("p50_window_ms", s.dispatch_response_latency_ms.p50_window_ms.into()),
    ]);
    let emitted = object(vec![
        ("total", s.log_emitted.total.into()),
        ("pool", s.log_emitted.pool.into()),
        ("lib", s.log_emitted.lib.into()),
    ]);
    let written = object(vec![
        ("lines", s.log_written.lines.into()),
        ("bytes", s.log_written.bytes.into()),
    ]);
    let freeze = object(vec![
        ("state", s.freeze.state.into()),
        ("emitted_minus_written", s.freeze.emitted_minus_written.into()),
        ("detected_at_unix", s.freeze.detected_at_unix.into()),
    ]);
    object(vec![
        ("agent_pubkey", s.agent_pubkey.clone().into()),
        ("pid", s.pid.into()),
        ("boot_unix", s.boot_unix.into()),
        ("seq", s.seq.into()),
        ("last_authored_event_id", s.last_authored_event_id.clone().into()),
        ("last_authored_at_unix", s.last_authored_at_unix.into()),
        ("turns_total", s.turns_total.into()),
        ("dispatch_response_latency_ms", latency),
        ("log_emitted", emitted),
        ("log_written", written),
        ("freeze", freeze),
        ("report_drops_total", s.report_drops_total.into()),
    ])
}

#[test]
fn payload_under_cap() {
    let counters = LogCounters::default();
    let mut state = state(&"a".repeat(64));
    let status = state.snapshot(&counters, 1);
    let body = serde_json::to_vec(&json_of(&status)).expect("serialize");
    assert!(body.len() < PAYLOAD_CAP_BYTES, "payload {} >= cap", body.len());
    assert_eq!(check_payload(body.len()), Ok(()));
}

#[test]
fn payload_over_cap_is_refused() {
    assert_eq!(check_payload(4096), Ok(()));
    assert_eq!(check_payload(4097), Err("payload 4097 bytes exceeds cap 4096".to_string()));
}

#[test]
fn reports_carry_what_was_noted() {
    let mut st = state("seat");
    st.note_published("ev1".to_string(), 99);
    st.note_turn_complete(30);
    st.note_turn_complete(10);
    st.note_turn_complete(20);
    st.note_turn_complete(40);
    st.note_report_drop();
    let mut c = LogCounters::default();
    c.emitted_total = 3;
    c.written_lines = 2;
    c.written_bytes = 50;
    let s = st.snapshot(&c, 1);
    assert_eq!(s.agent_pubkey, "seat");
    assert_eq!((s.pid, s.boot_unix, s.seq), (4711, 1_700_000_000, 6));
    assert_eq!(s.last_authored_event_id.as_deref(), Some("ev1"));
    assert_eq!(s.last_authored_at_unix, Some(99));
    assert_eq!(s.turns_total, 4);
    assert_eq!(s.dispatch_response_latency_ms.last_ms, Some(40));
    assert_eq!(s.dispatch_response_latency_ms.p50_window_ms, Some(30));
    assert_eq!(s.log_emitted.total, 3);
    assert_eq!(s.log_written, WrittenCounts { lines: 2, bytes: 50 });
    assert_eq!(s.report_drops_total, 1);
    assert_eq!(st.snapshot(&c, 1).seq, 7);
}

#[test]
fn empty_window_has_no_median() {
    let s = state("seat").snapshot(&LogCounters::default(), 1);
    assert_eq!(s.dispatch_response_latency_ms.last_ms, None);
    assert_eq!(s.dispatch_response_latency_ms.p50_window_ms, None);
    assert_eq!(s.last_authored_event_id, None);
}

#[test]
fn median_is_over_the_latest_latencies() {
    let mut st = state("seat");
    for i in 0..100u64 {
        st.note_turn_complete((i * 37) % 101);
    }
    let mut last: Vec<u64> = (68..100u64).map(|i| (i * 37) % 101).collect();
    assert_eq!(last.len(), LATENCY_WINDOW);
    last.sort_unstable();
    let s = st.snapshot(&LogCounters::default(), 1);
    assert_eq!(s.dispatch_response_latency_ms.p50_window_ms, Some(last[16]));
    assert_eq!(s.turns_total, 100);
}

#[test]
fn latency_is_dispatch_to_response() {
    let mut st = state("seat");
    st.note_dispatched(1, 900_000);
    st.note_dispatched(2, 0);
    st.note_result(1, 1_100_000);
    let s = st.snapshot(&LogCounters::default(), 1);
    assert_eq!((s.turns_total, s.dispatch_response_latency_ms.last_ms), (1, Some(0)));
    // A channel that was not dispatched to, or has been answered, changes nothing.
    st.note_result(1, 5 * MS);
    st.note_result(3, 5 * MS);
    assert_eq!(st.snapshot(&LogCounters::default(), 1).turns_total, 1);
    st.note_dispatched(2, 5 * MS);
    st.note_result(2, 12 * MS);
    let s = st.snapshot(&LogCounters::default(), 1);
    assert_eq!((s.turns_total, s.dispatch_response_latency_ms.last_ms), (2, Some(7)));
    // The clock never runs backwards.
    st.note_dispatched(4, 9 * MS);
    st.note_result(4, 8 * MS);
    let s = st.snapshot(&LogCounters::default(), 1);
    assert_eq!(s.dispatch_response_latency_ms.last_ms, Some(0));
    assert!(st.has_room());
}

#[test]
fn notes_without_a_state_are_dropped() {
    assert!(!note_published(None, "ev".to_string(), 1));
    note_dispatched(None, 1, 1);
    note_result(None, 1, 2);
    let mut st = state("seat");
    assert!(note_published(Some(&mut st), "ev".to_string(), 1));
    note_dispatched(Some(&mut st), 1, 0);
    note_result(Some(&mut st), 1, 3 * MS);
    let s = st.snapshot(&LogCounters::default(), 1);
    assert_eq!((s.seq, s.turns_total), (3, 1));
}

#[test]
fn reporter_needs_a_url_and_a_token() {
    let c = reporter_config(Some(" https://d/api \n"), Some("tok123")).ok().unwrap();
    assert_eq!((c.url.as_str(), c.token.as_str()), ("https://d/api", "tok123"));
    assert_eq!((c.interval, c.timeout), (REPORT_INTERVAL, REPORT_TIMEOUT));
    assert_eq!(REPORT_INTERVAL, Duration::from_secs(60).as_nanos());
    assert_eq!(REPORT_TIMEOUT, Duration::from_secs(2).as_nanos());
    let why = |u, t| reporter_config(u, t).err();
    assert_eq!(why(None, Some("tok")), Some(ReportingDisabled::NoUrl));
    assert_eq!(why(Some("  "), Some("tok")), Some(ReportingDisabled::NoUrl));
    assert_eq!(why(Some("u"), None), Some(ReportingDisabled::BadToken));
    assert_eq!(why(Some("u"), Some(" tok")), Some(ReportingDisabled::BadToken));
}

#[test]
fn failures_pace_the_reporter() {
    let mut p = Pacing::new();
    assert!(p.wake(0));
    p.failed(0);
    assert!(!p.wake(INITIAL_BACKOFF - 1));
    assert!(p.wake(INITIAL_BACKOFF));
    p.failed(INITIAL_BACKOFF);
    assert!(!p.wake(3 * INITIAL_BACKOFF - 1));
    assert!(p.wake(3 * INITIAL_BACKOFF));
    p.delivered();
    assert_eq!(p.backoff, INITIAL_BACKOFF);
    assert!(p.wake(3 * INITIAL_BACKOFF));
    let mut q = Pacing::new();
    for i in 0..12 {
        q.failed(i);
    }
    assert_eq!(q.backoff, MAX_BACKOFF);
}

#[test]
fn dropped_wakes_are_counted() {
    let mut st = state("seat");
    wake_reporter(None, false);
    wake_reporter(Some(&mut st), true);
    wake_reporter(Some(&mut st), false);
    let s = st.snapshot(&LogCounters::default(), 1);
    assert_eq!((s.report_drops_total, s.seq), (1, 1));
}

#[test]
fn freeze_does_not_depend_on_what_was_noted() {
    let mut quiet = state("seat");
    let mut busy = state("seat");
    let mut c = LogCounters::default();
    quiet.snapshot(&c, 1);
    busy.snapshot(&c, 1);
    busy.note_published("ev".to_string(), 5);
    busy.note_turn_complete(3);
    busy.note_report_drop();
    c.emitted_total = 2;
    let (a, b) = (quiet.snapshot(&c, 9), busy.snapshot(&c, 9));
    assert_eq!(a.freeze, b.freeze);
    assert_eq!(a.freeze.detected_at_unix, Some(9));
    assert!(b.seq > a.seq);
}

#[test]
fn reports_count_publications_and_turns() {
    let mut st = state("seat");
    let c = LogCounters::default();
    let first = st.snapshot(&c, 1);
    assert!(st.note_published("a".to_string(), 1));
    assert!(st.note_published("b".to_string(), 2));
    st.note_turn_complete(5);
    st.note_dispatched(1, 0);
    st.note_result(1, MS);
    st.note_result(2, MS);
    st.note_report_drop();
    let second = st.snapshot(&c, 2);
    assert_eq!(second.seq, first.seq + 2 + 2 + 1);
    assert_eq!(second.turns_total, first.turns_total + 2);
    assert_eq!(second.report_drops_total, first.report_drops_total + 1);
}

#[test]
fn wakes_go_out_at_once_after_a_delivery() {
    let mut p = Pacing::new();
    assert!(p.wake(5));
    p.delivered();
    assert!(p.wake(5));
    p.failed(5);
    assert!(!p.wake(6));
    assert!(p.wake(5 + INITIAL_BACKOFF));
    p.delivered();
    assert!(p.wake(6));
}
