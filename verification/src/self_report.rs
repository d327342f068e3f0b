//! Seat self-report: what a seat attests of itself, and how it knows that its log has frozen.
//!
//! The caller owns the clocks. Instants and spans are nanoseconds; the times that reports carry
//! are seconds since the epoch.
use std::collections::{HashMap, VecDeque};
use vstd::prelude::*;
use vstd::relations::*;
use vstd::string::*;

use crate::text;

verus! {

broadcast use vstd::std_specs::hash::group_hash_axioms;

/// Latencies that the median is taken over.
pub const LATENCY_WINDOW: usize = 32;

/// Nanoseconds in a millisecond.
pub const NANOS_PER_MS: u128 = 1_000_000;

// ---- Log counters ----

/// What went into the log and what came out of it. The counts wrap around.
#[derive(Debug, Clone, Copy, PartialEq)]
pub struct LogCounters {
    /// Events emitted.
    pub emitted_total: u64,
    /// Events whose target starts with `buzz_acp::pool`.
    pub emitted_pool: u64,
    /// Other events whose target starts with `buzz_acp`.
    pub emitted_lib: u64,
    /// Lines handed to the writer.
    pub written_lines: u64,
    /// Bytes handed to the writer.
    pub written_bytes: u64,
}

/// Events emitted, by target.
#[derive(Debug, Clone, Copy, Default, PartialEq)]
pub struct EmittedCounts {
    pub total: u64,
    pub pool: u64,
    pub lib: u64,
}

/// What the writer took.
#[derive(Debug, Clone, Copy, Default, PartialEq)]
pub struct WrittenCounts {
    pub lines: u64,
    pub bytes: u64,
}

/// `n` counted on by `by`, around the end of the range.
pub open spec fn counted_on(n: u64, by: int) -> u64 {
    ((n + by) % 0x1_0000_0000_0000_0000) as u64
}

/// The counters after one event with this target.
pub open spec fn after_emission(c: LogCounters, target: Seq<char>) -> LogCounters {
    let pool = "buzz_acp::pool"@.is_prefix_of(target);
    let ours = "buzz_acp"@.is_prefix_of(target);
    LogCounters {
        emitted_total: counted_on(c.emitted_total, 1),
        emitted_pool: if pool {
            counted_on(c.emitted_pool, 1)
        } else {
            c.emitted_pool
        },
        emitted_lib: if ours && !pool {
            counted_on(c.emitted_lib, 1)
        } else {
            c.emitted_lib
        },
        ..c
    }
}

/// How many line feeds `bytes` holds.
pub open spec fn line_feeds(bytes: Seq<u8>) -> nat
    decreases bytes.len(),
{
    if bytes.len() == 0 {
        0
    } else {
        line_feeds(bytes.drop_last()) + if bytes.last() == 10 {
            1nat
        } else {
            0nat
        }
    }
}

/// The counters after the writer took these bytes.
pub open spec fn after_write(c: LogCounters, taken: Seq<u8>) -> LogCounters {
    LogCounters {
        written_lines: counted_on(c.written_lines, line_feeds(taken) as int),
        written_bytes: counted_on(c.written_bytes, taken.len() as int),
        ..c
    }
}

fn count_on(n: u64, by: u64) -> (r: u64)
    ensures
        r == counted_on(n, by as int),
{
    n.wrapping_add(by)
}

impl Default for LogCounters {
    fn default() -> (r: Self)
        ensures
            r == (LogCounters {
                emitted_total: 0,
                emitted_pool: 0,
                emitted_lib: 0,
                written_lines: 0,
                written_bytes: 0,
            }),
    {
        LogCounters {
            emitted_total: 0,
            emitted_pool: 0,
            emitted_lib: 0,
            written_lines: 0,
            written_bytes: 0,
        }
    }
}

impl LogCounters {
    /// The emission counts.
    pub fn snapshot(&self) -> (r: EmittedCounts)
        ensures
            r == (EmittedCounts {
                total: self.emitted_total,
                pool: self.emitted_pool,
                lib: self.emitted_lib,
            }),
    {
        EmittedCounts {
            total: self.emitted_total,
            pool: self.emitted_pool,
            lib: self.emitted_lib,
        }
    }

    /// The write counts.
    pub fn written(&self) -> (r: WrittenCounts)
        ensures
            r == (WrittenCounts { lines: self.written_lines, bytes: self.written_bytes }),
    {
        WrittenCounts { lines: self.written_lines, bytes: self.written_bytes }
    }

    /// Counts a write of which the writer took the first `n` bytes.
    pub fn note_write(&mut self, buf: &[u8], n: usize)
        requires
            n <= buf@.len(),
        ensures
            *final(self) == after_write(*old(self), buf@.take(n as int)),
    {
        let mut lines: u64 = 0;
        let mut i: usize = 0;
        while i < n
            invariant
                i <= n <= buf@.len(),
                lines <= i,
                lines == line_feeds(buf@.take(i as int)),
            decreases n - i,
        {
            proof {
                assert(buf@.take(i + 1).drop_last() =~= buf@.take(i as int));
            }
            if buf[i] == 10 {
                lines = lines + 1;
            }
            i = i + 1;
        }
        self.written_bytes = count_on(self.written_bytes, n as u64);
        self.written_lines = count_on(self.written_lines, lines);
    }
}

/// Counts an event by its target: `buzz_acp::pool*` to the pool, other `buzz_acp*` to the library,
/// and every event to the total.
pub fn classify_event(target: &str, counters: &mut LogCounters)
    ensures
        *final(counters) == after_emission(*old(counters), target@),
{
    counters.emitted_total = count_on(counters.emitted_total, 1);
    if text::has_prefix(target, "buzz_acp::pool") {
        counters.emitted_pool = count_on(counters.emitted_pool, 1);
    } else if text::has_prefix(target, "buzz_acp") {
        counters.emitted_lib = count_on(counters.emitted_lib, 1);
    }
}

// ---- Status ----

/// Dispatch-to-response latency.
#[derive(Debug, Clone, Copy, Default, PartialEq)]
pub struct Latency {
    pub last_ms: Option<u64>,
    pub p50_window_ms: Option<u64>,
}

/// Whether the log is frozen.
#[derive(Debug, Clone, Copy, PartialEq)]
pub struct FreezeState {
    /// `ok`, or `stalled_write` where events were emitted while nothing was written.
    pub state: &'static str,
    /// Events emitted beyond lines written, when the stall was seen.
    pub emitted_minus_written: u64,
    /// When the stall was first seen.
    pub detected_at_unix: Option<u64>,
}

/// What a [`FreezeState`] says.
pub struct FreezeView {
    pub state: Seq<char>,
    pub emitted_minus_written: u64,
    pub detected_at_unix: Option<u64>,
}

impl View for FreezeState {
    type V = FreezeView;

    open spec fn view(&self) -> FreezeView {
        FreezeView {
            state: self.state@,
            emitted_minus_written: self.emitted_minus_written,
            detected_at_unix: self.detected_at_unix,
        }
    }
}

/// No freeze.
pub open spec fn freeze_ok() -> FreezeView {
    FreezeView { state: "ok"@, emitted_minus_written: 0, detected_at_unix: None }
}

impl Default for FreezeState {
    fn default() -> (r: Self)
        ensures
            r@ == freeze_ok(),
    {
        FreezeState { state: "ok", emitted_minus_written: 0, detected_at_unix: None }
    }
}

/// What a seat attests of itself.
#[derive(Debug, Clone)]
pub struct SeatStatus {
    /// The agent's public key: the identity of the seat.
    pub agent_pubkey: String,
    pub pid: u32,
    pub boot_unix: u64,
    pub seq: u64,
    pub last_authored_event_id: Option<String>,
    pub last_authored_at_unix: Option<u64>,
    pub turns_total: u64,
    pub dispatch_response_latency_ms: Latency,
    pub log_emitted: EmittedCounts,
    pub log_written: WrittenCounts,
    pub freeze: FreezeState,
    pub report_drops_total: u64,
}

/// What a [`SeatStatus`] says.
pub struct StatusView {
    pub agent_pubkey: Seq<char>,
    pub pid: u32,
    pub boot_unix: u64,
    pub seq: u64,
    pub last_authored_event_id: Option<Seq<char>>,
    pub last_authored_at_unix: Option<u64>,
    pub turns_total: u64,
    pub dispatch_response_latency_ms: Latency,
    pub log_emitted: EmittedCounts,
    pub log_written: WrittenCounts,
    pub freeze: FreezeView,
    pub report_drops_total: u64,
}

impl View for SeatStatus {
    type V = StatusView;

    open spec fn view(&self) -> StatusView {
        StatusView {
            agent_pubkey: self.agent_pubkey@,
            pid: self.pid,
            boot_unix: self.boot_unix,
            seq: self.seq,
            last_authored_event_id: text::option_text(self.last_authored_event_id),
            last_authored_at_unix: self.last_authored_at_unix,
            turns_total: self.turns_total,
            dispatch_response_latency_ms: self.dispatch_response_latency_ms,
            log_emitted: self.log_emitted,
            log_written: self.log_written,
            freeze: self.freeze@,
            report_drops_total: self.report_drops_total,
        }
    }
}

/// The state behind a seat's reports.
pub struct SelfReportState {
    agent_pubkey: String,
    pid: u32,
    boot_unix: u64,
    seq: u64,
    last_authored: Option<(String, u64)>,
    turns_total: u64,
    last_latency_ms: Option<u64>,
    latency_window: VecDeque<u64>,
    report_drops: u64,
    dispatch_times: HashMap<u128, u128>,
    prev_emitted_total: u64,
    prev_written_bytes: u64,
    freeze: FreezeState,
}

/// A [`SelfReportState`] as contracts see it.
pub struct StateView {
    pub agent_pubkey: Seq<char>,
    pub pid: u32,
    pub boot_unix: u64,
    /// Number of the last change or report.
    pub seq: u64,
    /// Id and time of the last event that the seat authored.
    pub last_authored: Option<(Seq<char>, u64)>,
    pub turns_total: u64,
    pub last_latency_ms: Option<u64>,
    /// The latest latencies, oldest first.
    pub window: Seq<u64>,
    pub report_drops: u64,
    /// When each channel that still waits for its response was dispatched to.
    pub dispatched: Map<u128, u128>,
    /// Events emitted, as of the last report.
    pub prev_emitted_total: u64,
    /// Bytes written, as of the last report.
    pub prev_written_bytes: u64,
    pub freeze: FreezeView,
}

impl View for SelfReportState {
    type V = StateView;

    closed spec fn view(&self) -> StateView {
        StateView {
            agent_pubkey: self.agent_pubkey@,
            pid: self.pid,
            boot_unix: self.boot_unix,
            seq: self.seq,
            last_authored: match self.last_authored {
                Some(a) => Some((a.0@, a.1)),
                None => None,
            },
            turns_total: self.turns_total,
            last_latency_ms: self.last_latency_ms,
            window: self.latency_window@,
            report_drops: self.report_drops,
            dispatched: self.dispatch_times@,
            prev_emitted_total: self.prev_emitted_total,
            prev_written_bytes: self.prev_written_bytes,
            freeze: self.freeze@,
        }
    }
}

/// What holds of every state: the window is no longer than it may be, and the freeze state is one
/// of the two that there are, dated exactly where it is a stall.
pub open spec fn well_formed(s: StateView) -> bool {
    &&& s.window.len() <= LATENCY_WINDOW
    &&& s.freeze == freeze_ok() || (s.freeze.state == "stalled_write"@
        && s.freeze.detected_at_unix is Some)
}

/// Each count can still be counted on.
pub open spec fn has_room(s: StateView) -> bool {
    s.seq < u64::MAX && s.turns_total < u64::MAX && s.report_drops < u64::MAX
}

/// A state that has seen nothing.
pub open spec fn fresh(agent_pubkey: Seq<char>, pid: u32, boot_unix: u64) -> StateView {
    StateView {
        agent_pubkey,
        pid,
        boot_unix,
        seq: 0,
        last_authored: None,
        turns_total: 0,
        last_latency_ms: None,
        window: Seq::empty(),
        report_drops: 0,
        dispatched: Map::empty(),
        prev_emitted_total: 0,
        prev_written_bytes: 0,
        freeze: freeze_ok(),
    }
}

/// After the seat authored an event.
pub open spec fn after_published(s: StateView, event_id: Seq<char>, at_unix: u64) -> StateView {
    StateView { last_authored: Some((event_id, at_unix)), seq: (s.seq + 1) as u64, ..s }
}

/// The window with one more latency, of which the oldest makes room.
pub open spec fn window_with(window: Seq<u64>, latency_ms: u64) -> Seq<u64> {
    let w = window.push(latency_ms);
    if w.len() > LATENCY_WINDOW {
        w.drop_first()
    } else {
        w
    }
}

/// After a turn that took this long.
pub open spec fn after_turn(s: StateView, latency_ms: u64) -> StateView {
    StateView {
        turns_total: (s.turns_total + 1) as u64,
        last_latency_ms: Some(latency_ms),
        window: window_with(s.window, latency_ms),
        seq: (s.seq + 1) as u64,
        ..s
    }
}

/// After a dispatch to a channel.
pub open spec fn after_dispatch(s: StateView, channel: u128, now: u128) -> StateView {
    StateView { dispatched: s.dispatched.insert(channel, now), ..s }
}

/// Whole milliseconds from `start` to `now`, by a clock that never runs backwards; the low 64 bits
/// of them.
pub open spec fn elapsed_ms(start: u128, now: u128) -> u64 {
    if now >= start {
        ((now - start) as u128 / NANOS_PER_MS) as u64
    } else {
        0
    }
}

/// After a result from a channel: a turn, where the channel was dispatched to.
pub open spec fn after_result(s: StateView, channel: u128, now: u128) -> StateView {
    if s.dispatched.contains_key(channel) {
        after_turn(
            StateView { dispatched: s.dispatched.remove(channel), ..s },
            elapsed_ms(s.dispatched[channel], now),
        )
    } else {
        s
    }
}

/// After a report that could not be passed on.
pub open spec fn after_drop(s: StateView) -> StateView {
    StateView { report_drops: (s.report_drops + 1) as u64, ..s }
}

/// Since the last report events were emitted and nothing was written.
pub open spec fn write_stalled(s: StateView, c: LogCounters) -> bool {
    c.emitted_total > s.prev_emitted_total && c.written_bytes <= s.prev_written_bytes
}

/// The freeze state as of a report: a stall keeps the onset that it was first seen at.
pub open spec fn freeze_after(s: StateView, c: LogCounters, now_unix: u64) -> FreezeView {
    if !write_stalled(s, c) {
        freeze_ok()
    } else if s.freeze.state == "stalled_write"@ {
        s.freeze
    } else {
        FreezeView {
            state: "stalled_write"@,
            emitted_minus_written: if c.emitted_total > c.written_lines {
                (c.emitted_total - c.written_lines) as u64
            } else {
                0
            },
            detected_at_unix: Some(now_unix),
        }
    }
}

/// After a report.
pub open spec fn after_report(s: StateView, c: LogCounters, now_unix: u64) -> StateView {
    StateView {
        seq: (s.seq + 1) as u64,
        freeze: freeze_after(s, c, now_unix),
        prev_emitted_total: c.emitted_total,
        prev_written_bytes: c.written_bytes,
        ..s
    }
}

/// By size.
pub open spec fn ascending() -> spec_fn(u64, u64) -> bool {
    |a: u64, b: u64| a <= b
}

/// The upper median of the window.
pub open spec fn p50(window: Seq<u64>) -> Option<u64> {
    if window.len() == 0 {
        None
    } else {
        Some(window.sort_by(ascending())[(window.len() / 2) as int])
    }
}

/// What a report says.
pub open spec fn report(s: StateView, c: LogCounters, now_unix: u64) -> StatusView {
    let t = after_report(s, c, now_unix);
    StatusView {
        agent_pubkey: t.agent_pubkey,
        pid: t.pid,
        boot_unix: t.boot_unix,
        seq: t.seq,
        last_authored_event_id: match t.last_authored {
            Some(a) => Some(a.0),
            None => None,
        },
        last_authored_at_unix: match t.last_authored {
            Some(a) => Some(a.1),
            None => None,
        },
        turns_total: t.turns_total,
        dispatch_response_latency_ms: Latency {
            last_ms: t.last_latency_ms,
            p50_window_ms: p50(t.window),
        },
        log_emitted: EmittedCounts {
            total: c.emitted_total,
            pool: c.emitted_pool,
            lib: c.emitted_lib,
        },
        log_written: WrittenCounts { lines: c.written_lines, bytes: c.written_bytes },
        freeze: t.freeze,
        report_drops_total: t.report_drops,
    }
}

/// Sorts the window by size.
fn sorted_window(window: &VecDeque<u64>) -> (r: Vec<u64>)
    ensures
        r@ == window@.sort_by(ascending()),
        r@.len() == window@.len(),
{
    let mut out: Vec<u64> = Vec::new();
    let n: usize = window.len();
    let mut i: usize = 0;
    assert(out@ =~= window@.take(0));
    while i < n
        invariant
            i <= n == window@.len(),
            out@.len() == i,
            sorted_by(out@, ascending()),
            out@.to_multiset() =~= window@.take(i as int).to_multiset(),
        decreases n - i,
    {
        let x: u64 = window[i];
        let ghost before = out@;
        let mut at: usize = out.len();
        while at > 0 && out[at - 1] > x
            invariant
                at <= out@.len(),
                out@ == before,
                out@.len() == i,
                forall|j: int| at <= j < out@.len() ==> out@[j] > x,
            decreases at,
        {
            at = at - 1;
        }
        out.insert(at, x);
        proof {
            let leq = ascending();
            assert forall|j: int, k: int| 0 <= j < k < out@.len() implies #[trigger] leq(
                out@[j],
                out@[k],
            ) by {
                let j0 = if j < at {
                    j
                } else {
                    j - 1
                };
                let k0 = if k < at {
                    k
                } else {
                    k - 1
                };
                if j < at {
                    assert(out@[j] == before[j]);
                    if j < at - 1 {
                        assert(leq(before[j], before[at - 1]));
                    }
                }
                if k > at {
                    assert(out@[k] == before[k - 1]);
                }
                if j != at && k != at {
                    assert(leq(before[j0], before[k0]));
                }
            }
            vstd::seq_lib::to_multiset_insert(before, at as int, x);
            window@.take(i as int).to_multiset_ensures();
            assert(window@.take(i + 1) =~= window@.take(i as int).push(x));
        }
        i = i + 1;
    }
    proof {
        assert(window@.take(n as int) =~= window@);
        window@.lemma_sort_by_ensures(ascending());
        vstd::seq_lib::lemma_sorted_unique(out@, window@.sort_by(ascending()), ascending());
    }
    out
}

impl SelfReportState {
    /// The state of a seat that booted in process `pid` at `boot_unix`.
    pub fn new(agent_pubkey: String, pid: u32, boot_unix: u64) -> (r: Self)
        ensures
            r@ == fresh(agent_pubkey@, pid, boot_unix),
            well_formed(r@),
    {
        SelfReportState {
            agent_pubkey,
            pid,
            boot_unix,
            seq: 0,
            last_authored: None,
            turns_total: 0,
            last_latency_ms: None,
            latency_window: VecDeque::new(),
            report_drops: 0,
            dispatch_times: HashMap::new(),
            prev_emitted_total: 0,
            prev_written_bytes: 0,
            freeze: FreezeState::default(),
        }
    }

    /// Whether each count can still be counted on.
    pub fn has_room(&self) -> (r: bool)
        ensures
            r == has_room(self@),
    {
        self.seq < u64::MAX && self.turns_total < u64::MAX && self.report_drops < u64::MAX
    }

    /// Records an event that this seat authored. The result says whether the reporter is to be
    /// woken: it always is, so that the change is reported at once.
    pub fn note_published(&mut self, event_id: String, created_at_unix: u64) -> (wake: bool)
        requires
            old(self)@.seq < u64::MAX,
        ensures
            final(self)@ == after_published(old(self)@, event_id@, created_at_unix),
            well_formed(old(self)@) ==> well_formed(final(self)@),
            wake,
    {
        self.last_authored = Some((event_id, created_at_unix));
        self.seq = self.seq + 1;
        true
    }

    /// Records a completed dispatch-to-response cycle.
    pub fn note_turn_complete(&mut self, latency_ms: u64)
        requires
            old(self)@.seq < u64::MAX,
            old(self)@.turns_total < u64::MAX,
        ensures
            final(self)@ == after_turn(old(self)@, latency_ms),
            well_formed(old(self)@) ==> well_formed(final(self)@),
    {
        let ghost before = self.latency_window@;
        self.turns_total = self.turns_total + 1;
        self.last_latency_ms = Some(latency_ms);
        self.latency_window.push_back(latency_ms);
        if self.latency_window.len() > LATENCY_WINDOW {
            let _oldest = self.latency_window.pop_front();
        }
        self.seq = self.seq + 1;
        assert(self.latency_window@ =~= window_with(before, latency_ms));
    }

    /// Records when a channel was dispatched to. A channel that still waits starts anew.
    pub fn note_dispatched(&mut self, channel: u128, now: u128)
        ensures
            final(self)@ == after_dispatch(old(self)@, channel, now),
            well_formed(old(self)@) ==> well_formed(final(self)@),
    {
        self.dispatch_times.insert(channel, now);
    }

    /// Records a result from a channel: a completed turn, where the channel was dispatched to.
    pub fn note_result(&mut self, channel: u128, now: u128)
        requires
            old(self)@.seq < u64::MAX,
            old(self)@.turns_total < u64::MAX,
        ensures
            final(self)@ == after_result(old(self)@, channel, now),
            well_formed(old(self)@) ==> well_formed(final(self)@),
    {
        let ghost before = self@;
        let start = self.dispatch_times.remove(&channel);
        if let Some(at) = start {
            proof {
                assert(self@.dispatched =~= before.dispatched.remove(channel));
            }
            let span: u128 = if now >= at {
                now - at
            } else {
                0
            };
            let latency_ms: u64 = (span / NANOS_PER_MS) as u64;
            self.note_turn_complete(latency_ms);
        } else {
            proof {
                assert(self@.dispatched =~= before.dispatched);
            }
        }
    }

    /// Records a report wake that could not be passed on.
    pub fn note_report_drop(&mut self)
        requires
            old(self)@.report_drops < u64::MAX,
        ensures
            final(self)@ == after_drop(old(self)@),
            well_formed(old(self)@) ==> well_formed(final(self)@),
    {
        self.report_drops = self.report_drops + 1;
    }

    /// Makes the next report. The freeze state goes by what the log counters did since the last
    /// one.
    pub fn snapshot(&mut self, counters: &LogCounters, now_unix: u64) -> (r: SeatStatus)
        requires
            old(self)@.seq < u64::MAX,
        ensures
            final(self)@ == after_report(old(self)@, *counters, now_unix),
            r@ == report(old(self)@, *counters, now_unix),
            well_formed(old(self)@) ==> well_formed(final(self)@),
    {
        let ghost before = self@;
        let emitted = counters.snapshot();
        let written = counters.written();
        self.seq = self.seq + 1;
        let emitted_delta: u64 = emitted.total.saturating_sub(self.prev_emitted_total);
        let written_delta: u64 = written.bytes.saturating_sub(self.prev_written_bytes);
        if emitted_delta > 0 && written_delta == 0 {
            if !text::same_text(self.freeze.state, "stalled_write") {
                self.freeze = FreezeState {
                    state: "stalled_write",
                    emitted_minus_written: emitted.total.saturating_sub(written.lines),
                    detected_at_unix: Some(now_unix),
                };
            }
        } else {
            self.freeze = FreezeState::default();
        }
        assert(self.freeze@ == freeze_after(before, *counters, now_unix));
        self.prev_emitted_total = emitted.total;
        self.prev_written_bytes = written.bytes;
        let window = sorted_window(&self.latency_window);
        let p50_window_ms: Option<u64> = if window.len() == 0 {
            None
        } else {
            Some(window[window.len() / 2])
        };
        let (event_id, event_at): (Option<String>, Option<u64>) = match &self.last_authored {
            Some(a) => (Some(a.0.clone()), Some(a.1)),
            None => (None, None),
        };
        SeatStatus {
            agent_pubkey: self.agent_pubkey.clone(),
            pid: self.pid,
            boot_unix: self.boot_unix,
            seq: self.seq,
            last_authored_event_id: event_id,
            last_authored_at_unix: event_at,
            turns_total: self.turns_total,
            dispatch_response_latency_ms: Latency {
                last_ms: self.last_latency_ms,
                p50_window_ms,
            },
            log_emitted: emitted,
            log_written: written,
            freeze: self.freeze,
            report_drops_total: self.report_drops,
        }
    }
}

// ---- For callers that may have no state at hand ----

/// Records an event that this seat authored, where there is a state to record it in. The result
/// says whether the reporter is to be woken: wherever there is a state.
pub fn note_published(
    state: Option<&mut SelfReportState>,
    event_id: String,
    created_at_unix: u64,
) -> (wake: bool)
    requires
        state matches Some(s) ==> s@.seq < u64::MAX,
    ensures
        state matches Some(s) ==> final(s)@ == after_published(s@, event_id@, created_at_unix),
        wake == state is Some,
{
    match state {
        Some(s) => s.note_published(event_id, created_at_unix),
        None => false,
    }
}

/// Records when a channel was dispatched to, where there is a state to record it in.
pub fn note_dispatched(state: Option<&mut SelfReportState>, channel: u128, now: u128)
    ensures
        state matches Some(s) ==> final(s)@ == after_dispatch(s@, channel, now),
{
    if let Some(s) = state {
        s.note_dispatched(channel, now);
    }
}

/// Takes in whether a wake of the reporter was passed on. One that was not counts as a dropped
/// report, where there is a state to count it in.
pub fn wake_reporter(state: Option<&mut SelfReportState>, passed_on: bool)
    requires
        state matches Some(s) ==> passed_on || s@.report_drops < u64::MAX,
    ensures
        state matches Some(s) ==> final(s)@ == if passed_on {
            s@
        } else {
            after_drop(s@)
        },
{
    if let Some(s) = state {
        if !passed_on {
            s.note_report_drop();
        }
    }
}

/// Records a result from a channel, where there is a state to record it in.
pub fn note_result(state: Option<&mut SelfReportState>, channel: u128, now: u128)
    requires
        state matches Some(s) ==> s@.seq < u64::MAX && s@.turns_total < u64::MAX,
    ensures
        state matches Some(s) ==> final(s)@ == after_result(s@, channel, now),
{
    if let Some(s) = state {
        s.note_result(channel, now);
    }
}

// ---- What the reports promise ----

/// The window after a run of turns.
pub open spec fn window_after(window: Seq<u64>, latencies: Seq<u64>) -> Seq<u64>
    decreases latencies.len(),
{
    if latencies.len() == 0 {
        window
    } else {
        window_with(window_after(window, latencies.drop_last()), latencies.last())
    }
}

/// The window holds the latest latencies, in order, as many as it may hold.
pub proof fn window_holds_the_latest(latencies: Seq<u64>)
    ensures
        window_after(Seq::empty(), latencies) == if latencies.len() <= LATENCY_WINDOW {
            latencies
        } else {
            latencies.skip(latencies.len() - LATENCY_WINDOW)
        },
    decreases latencies.len(),
{
    if latencies.len() > 0 {
        let init = latencies.drop_last();
        window_holds_the_latest(init);
        let w = window_after(Seq::empty(), init);
        if init.len() < LATENCY_WINDOW {
            assert(w.push(latencies.last()) =~= latencies);
        } else {
            assert(w.push(latencies.last()).drop_first() =~= latencies.skip(
                latencies.len() - LATENCY_WINDOW,
            ));
        }
    } else {
        assert(latencies =~= Seq::<u64>::empty());
    }
}

/// The reported median is the middle of the window in any ascending arrangement of it.
pub proof fn p50_is_the_middle(window: Seq<u64>, arranged: Seq<u64>)
    requires
        window.len() > 0,
        sorted_by(arranged, ascending()),
        arranged.to_multiset() == window.to_multiset(),
    ensures
        arranged.len() == window.len(),
        p50(window) == Some(arranged[(window.len() / 2) as int]),
{
    window.to_multiset_ensures();
    arranged.to_multiset_ensures();
    window.lemma_sort_by_ensures(ascending());
    vstd::seq_lib::lemma_sorted_unique(arranged, window.sort_by(ascending()), ascending());
}

/// A response closes the dispatch that it answers: one turn of that length is counted, and the
/// channel waits no more.
pub proof fn response_closes_its_dispatch(
    s: StateView,
    channel: u128,
    start: u128,
    now: u128,
)
    ensures
        ({
            let t = after_result(after_dispatch(s, channel, start), channel, now);
            &&& t.turns_total == (s.turns_total + 1) as u64
            &&& t.last_latency_ms == Some(elapsed_ms(start, now))
            &&& !t.dispatched.contains_key(channel)
            &&& after_result(t, channel, now) == t
        }),
{
}

/// Something that happens to a seat.
pub enum Change {
    Published { event_id: Seq<char>, at_unix: u64 },
    Turn { latency_ms: u64 },
    Dispatched { channel: u128, now: u128 },
    Answered { channel: u128, now: u128 },
    Dropped,
    Reported { counters: LogCounters, now_unix: u64 },
}

/// The state after one change.
pub open spec fn after_change(s: StateView, change: Change) -> StateView {
    match change {
        Change::Published { event_id, at_unix } => after_published(s, event_id, at_unix),
        Change::Turn { latency_ms } => after_turn(s, latency_ms),
        Change::Dispatched { channel, now } => after_dispatch(s, channel, now),
        Change::Answered { channel, now } => after_result(s, channel, now),
        Change::Dropped => after_drop(s),
        Change::Reported { counters, now_unix } => after_report(s, counters, now_unix),
    }
}

/// The state after a run of changes.
pub open spec fn after_changes(s: StateView, changes: Seq<Change>) -> StateView
    decreases changes.len(),
{
    if changes.len() == 0 {
        s
    } else {
        after_change(after_changes(s, changes.drop_last()), changes.last())
    }
}

/// Every state that a seat can come to is well-formed.
pub proof fn every_state_is_well_formed(s: StateView, changes: Seq<Change>)
    requires
        well_formed(s),
    ensures
        well_formed(after_changes(s, changes)),
    decreases changes.len(),
{
    if changes.len() > 0 {
        every_state_is_well_formed(s, changes.drop_last());
    }
}

/// The number of a state never falls, and grows by one at most with each change.
pub proof fn number_never_falls(s: StateView, changes: Seq<Change>)
    requires
        s.seq + changes.len() <= u64::MAX,
    ensures
        s.seq <= after_changes(s, changes).seq <= s.seq + changes.len(),
    decreases changes.len(),
{
    if changes.len() > 0 {
        number_never_falls(s, changes.drop_last());
    }
}

/// No two reports of a seat carry the same number, whatever happens between them: the later one
/// carries the greater.
pub proof fn reports_are_numbered(
    s: StateView,
    c1: LogCounters,
    now1: u64,
    between: Seq<Change>,
    c2: LogCounters,
    now2: u64,
)
    requires
        s.seq + between.len() + 2 <= u64::MAX,
    ensures
        s.seq < report(s, c1, now1).seq < report(
            after_changes(after_report(s, c1, now1), between),
            c2,
            now2,
        ).seq,
{
    number_never_falls(after_report(s, c1, now1), between);
}

/// How many of the changes are publications.
pub open spec fn publications(changes: Seq<Change>) -> nat
    decreases changes.len(),
{
    if changes.len() == 0 {
        0
    } else {
        publications(changes.drop_last()) + if changes.last() is Published {
            1nat
        } else {
            0nat
        }
    }
}

/// How many of the changes are reports.
pub open spec fn reports(changes: Seq<Change>) -> nat
    decreases changes.len(),
{
    if changes.len() == 0 {
        0
    } else {
        reports(changes.drop_last()) + if changes.last() is Reported {
            1nat
        } else {
            0nat
        }
    }
}

/// How many of the changes are dropped wakes.
pub open spec fn drops(changes: Seq<Change>) -> nat
    decreases changes.len(),
{
    if changes.len() == 0 {
        0
    } else {
        drops(changes.drop_last()) + if changes.last() is Dropped {
            1nat
        } else {
            0nat
        }
    }
}

/// `change` completes a turn: it says so, or it answers a channel that waits.
pub open spec fn completes_turn(s: StateView, change: Change) -> bool {
    match change {
        Change::Turn { .. } => true,
        Change::Answered { channel, .. } => s.dispatched.contains_key(channel),
        _ => false,
    }
}

/// How many turns a run of changes completes.
pub open spec fn turns(s: StateView, changes: Seq<Change>) -> nat
    decreases changes.len(),
{
    if changes.len() == 0 {
        0
    } else {
        turns(s, changes.drop_last()) + if completes_turn(
            after_changes(s, changes.drop_last()),
            changes.last(),
        ) {
            1nat
        } else {
            0nat
        }
    }
}

/// Each count is exact over any run of changes: the number grows by the publications, the turns
/// and the reports, and the totals by the turns and by the dropped wakes.
pub proof fn changes_are_counted(s: StateView, changes: Seq<Change>)
    requires
        s.seq + changes.len() <= u64::MAX,
        s.turns_total + changes.len() <= u64::MAX,
        s.report_drops + changes.len() <= u64::MAX,
    ensures
        after_changes(s, changes).seq == s.seq + publications(changes) + turns(s, changes)
            + reports(changes),
        after_changes(s, changes).turns_total == s.turns_total + turns(s, changes),
        after_changes(s, changes).report_drops == s.report_drops + drops(changes),
        publications(changes) + turns(s, changes) + reports(changes) + drops(changes)
            <= changes.len(),
    decreases changes.len(),
{
    if changes.len() > 0 {
        changes_are_counted(s, changes.drop_last());
    }
}

/// From one report to the next the number grows by exactly the publications between them, the
/// turns between them, and one; the totals of turns and dropped wakes grow by exactly theirs.
pub proof fn reports_count_what_lies_between(
    s: StateView,
    c1: LogCounters,
    now1: u64,
    notes: Seq<Change>,
    c2: LogCounters,
    now2: u64,
)
    requires
        s.seq + notes.len() + 2 <= u64::MAX,
        s.turns_total + notes.len() <= u64::MAX,
        s.report_drops + notes.len() <= u64::MAX,
        forall|i: int| 0 <= i < notes.len() ==> !(#[trigger] notes[i] is Reported),
    ensures
        ({
            let reported = after_report(s, c1, now1);
            let first = report(s, c1, now1);
            let second = report(after_changes(reported, notes), c2, now2);
            &&& second.seq == first.seq + publications(notes) + turns(reported, notes) + 1
            &&& second.turns_total == first.turns_total + turns(reported, notes)
            &&& second.report_drops_total == first.report_drops_total + drops(notes)
        }),
{
    changes_are_counted(after_report(s, c1, now1), notes);
    no_reports(notes);
}

proof fn no_reports(notes: Seq<Change>)
    requires
        forall|i: int| 0 <= i < notes.len() ==> !(#[trigger] notes[i] is Reported),
    ensures
        reports(notes) == 0,
    decreases notes.len(),
{
    if notes.len() > 0 {
        let init = notes.drop_last();
        assert forall|i: int| 0 <= i < init.len() implies !(#[trigger] init[i] is Reported) by {
            assert(init[i] == notes[i]);
        }
        no_reports(init);
        assert(!(notes[notes.len() - 1] is Reported));
    }
}

/// Nothing but a report touches what the freeze state goes by.
proof fn notes_keep_the_freeze(s: StateView, notes: Seq<Change>)
    requires
        forall|i: int| 0 <= i < notes.len() ==> !(#[trigger] notes[i] is Reported),
    ensures
        after_changes(s, notes).freeze == s.freeze,
        after_changes(s, notes).prev_emitted_total == s.prev_emitted_total,
        after_changes(s, notes).prev_written_bytes == s.prev_written_bytes,
    decreases notes.len(),
{
    if notes.len() > 0 {
        let init = notes.drop_last();
        assert forall|i: int| 0 <= i < init.len() implies !(#[trigger] init[i] is Reported) by {
            assert(init[i] == notes[i]);
        }
        notes_keep_the_freeze(s, init);
        assert(!(notes[notes.len() - 1] is Reported));
    }
}

/// The freeze state is measured from report to report: what the seat did in between makes no
/// difference to it, only what the log counters did.
pub proof fn freeze_goes_report_to_report(
    s: StateView,
    c1: LogCounters,
    now1: u64,
    notes: Seq<Change>,
    c2: LogCounters,
    now2: u64,
)
    requires
        forall|i: int| 0 <= i < notes.len() ==> !(#[trigger] notes[i] is Reported),
    ensures
        ({
            let first = report(s, c1, now1);
            let second = report(after_changes(after_report(s, c1, now1), notes), c2, now2);
            let stalled = c2.emitted_total > c1.emitted_total && c2.written_bytes
                <= c1.written_bytes;
            &&& !stalled ==> second.freeze == freeze_ok()
            &&& stalled ==> second.freeze.state == "stalled_write"@
            &&& stalled && first.freeze.state == "stalled_write"@ ==> second.freeze == first.freeze
            &&& stalled && first.freeze.state != "stalled_write"@ ==> second.freeze.detected_at_unix
                == Some(now2)
        }),
{
    notes_keep_the_freeze(after_report(s, c1, now1), notes);
}

/// A stall shows in the first report after its onset: events emitted since the last report and no
/// byte written is `stalled_write`, dated then.
pub proof fn stall_shows_at_once(s: StateView, c: LogCounters, now_unix: u64)
    requires
        s.freeze == freeze_ok(),
        c.emitted_total > s.prev_emitted_total,
        c.written_bytes == s.prev_written_bytes,
    ensures
        report(s, c, now_unix).freeze.state == "stalled_write"@,
        report(s, c, now_unix).freeze.detected_at_unix == Some(now_unix),
{
    reveal_strlit("ok");
    reveal_strlit("stalled_write");
    assert("ok"@.len() != "stalled_write"@.len());
}

/// While a stall lasts, its onset is kept: a second report over a log that emits and does not write
/// repeats the freeze state of the first.
pub proof fn lasting_stall_keeps_its_onset(
    s: StateView,
    c1: LogCounters,
    now1: u64,
    c2: LogCounters,
    now2: u64,
)
    requires
        write_stalled(s, c1),
        c2.emitted_total > c1.emitted_total,
        c2.written_bytes == c1.written_bytes,
    ensures
        report(after_report(s, c1, now1), c2, now2).freeze == report(s, c1, now1).freeze,
{
}

/// Once bytes are written again, the report is back to `ok`, whichever events were lost.
pub proof fn writing_recovers(s: StateView, c: LogCounters, now_unix: u64)
    requires
        c.written_bytes > s.prev_written_bytes,
    ensures
        report(s, c, now_unix).freeze == freeze_ok(),
{
}

/// A log in which nothing happens is not frozen.
pub proof fn quiet_is_ok(s: StateView, c: LogCounters, now_unix: u64)
    requires
        c.emitted_total == s.prev_emitted_total,
    ensures
        report(s, c, now_unix).freeze == freeze_ok(),
{
}

/// Every event counts toward the total, and toward at most one of the two targets.
pub proof fn targets_are_disjoint(c: LogCounters, target: Seq<char>)
    ensures
        ({
            let d = after_emission(c, target);
            &&& d.emitted_total == counted_on(c.emitted_total, 1)
            &&& d.emitted_pool == c.emitted_pool || d.emitted_lib == c.emitted_lib
            &&& d.written_lines == c.written_lines
            &&& d.written_bytes == c.written_bytes
        }),
{
}

proof fn line_feeds_add(a: Seq<u8>, b: Seq<u8>)
    ensures
        line_feeds(a + b) == line_feeds(a) + line_feeds(b),
    decreases b.len(),
{
    if b.len() == 0 {
        assert(a + b =~= a);
    } else {
        line_feeds_add(a, b.drop_last());
        assert((a + b).drop_last() =~= a + b.drop_last());
    }
}

/// It makes no difference to the counts in how many pieces bytes are written.
pub proof fn writes_add_up(c: LogCounters, a: Seq<u8>, b: Seq<u8>)
    ensures
        after_write(after_write(c, a), b) == after_write(c, a + b),
{
    line_feeds_add(a, b);
    count_twice(c.written_lines, line_feeds(a) as int, line_feeds(b) as int);
    count_twice(c.written_bytes, a.len() as int, b.len() as int);
}

proof fn count_twice(n: u64, a: int, b: int)
    requires
        a >= 0,
        b >= 0,
    ensures
        counted_on(counted_on(n, a), b) == counted_on(n, a + b),
{
    let m = 0x1_0000_0000_0000_0000int;
    vstd::arithmetic::div_mod::lemma_add_mod_noop(n + a, b, m);
    vstd::arithmetic::div_mod::lemma_add_mod_noop((n + a) % m, b, m);
    assert((n + a) % m % m == (n + a) % m);
}

/// A latency is the whole milliseconds from the dispatch to the response: no more of them fit, and
/// no fewer do. Where they do not fit 64 bits, their low 64 bits stand.
pub proof fn latency_is_whole_milliseconds(start: u128, now: u128)
    requires
        start <= now,
    ensures
        ({
            let m = elapsed_ms(start, now);
            let span = now - start;
            &&& span < 0x1_0000_0000_0000_0000 * 1_000_000 ==> m * 1_000_000 <= span < (m + 1)
                * 1_000_000
            &&& m == (span / 1_000_000) % 0x1_0000_0000_0000_0000
        }),
{
    let q = (now - start) as u128 / NANOS_PER_MS;
    assert(q as u64 == q % 0x1_0000_0000_0000_0000u128) by (bit_vector);
}

/// A response counts the latency of the dispatch that it answers, in plain milliseconds: as the last
/// one, and as the newest of the window. A clock that ran backwards counts as none.
pub proof fn response_counts_its_latency(s: StateView, channel: u128, now: u128)
    requires
        s.dispatched.contains_key(channel),
    ensures
        ({
            let t = after_result(s, channel, now);
            let start = s.dispatched[channel];
            let m = t.last_latency_ms->0;
            &&& t.last_latency_ms is Some
            &&& t.window.len() > 0 && t.window.last() == m
            &&& start <= now && now - start < 0x1_0000_0000_0000_0000 * 1_000_000 ==> m * 1_000_000
                <= now - start < (m + 1) * 1_000_000
            &&& now < start ==> m == 0
        }),
{
    if s.dispatched[channel] <= now {
        latency_is_whole_milliseconds(s.dispatched[channel], now);
    }
}

/// Counts add up as they are, as long as they fit, and start again from zero beyond that.
pub proof fn counts_wrap_around(n: u64, by: u64)
    ensures
        n + by < 0x1_0000_0000_0000_0000 ==> counted_on(n, by as int) == n + by,
        n + by >= 0x1_0000_0000_0000_0000 ==> counted_on(n, by as int) == n + by
            - 0x1_0000_0000_0000_0000,
{
}

/// An event counts toward the total; toward the pool where its target begins with `buzz_acp::pool`;
/// and toward the library where it begins with `buzz_acp` otherwise.
pub proof fn emissions_count_by_target(c: LogCounters, target: Seq<char>, rest: Seq<char>)
    ensures
        after_emission(c, target) == (LogCounters {
            emitted_total: counted_on(c.emitted_total, 1),
            emitted_pool: after_emission(c, target).emitted_pool,
            emitted_lib: after_emission(c, target).emitted_lib,
            ..c
        }),
        target == "buzz_acp::pool"@ + rest ==> {
            &&& after_emission(c, target).emitted_pool == counted_on(c.emitted_pool, 1)
            &&& after_emission(c, target).emitted_lib == c.emitted_lib
        },
        target == "buzz_acp"@ + rest && !"::pool"@.is_prefix_of(rest) ==> {
            &&& after_emission(c, target).emitted_lib == counted_on(c.emitted_lib, 1)
            &&& after_emission(c, target).emitted_pool == c.emitted_pool
        },
        !"buzz_acp"@.is_prefix_of(target) ==> {
            &&& after_emission(c, target).emitted_lib == c.emitted_lib
            &&& after_emission(c, target).emitted_pool == c.emitted_pool
        },
{
    reveal_strlit("buzz_acp");
    reveal_strlit("buzz_acp::pool");
    reveal_strlit("::pool");
    assert("buzz_acp::pool"@ =~= "buzz_acp"@ + "::pool"@);
    if target == "buzz_acp::pool"@ + rest {
        assert("buzz_acp::pool"@.is_prefix_of(target));
    }
    if target == "buzz_acp"@ + rest {
        assert("buzz_acp"@.is_prefix_of(target));
        if "buzz_acp::pool"@.is_prefix_of(target) {
            assert(rest.take(6) =~= target.subrange(8, 14));
            assert(target.subrange(8, 14) =~= "buzz_acp::pool"@.subrange(8, 14));
            assert("buzz_acp::pool"@.subrange(8, 14) =~= "::pool"@);
            assert("::pool"@.is_prefix_of(rest));
        }
    }
    if "buzz_acp::pool"@.is_prefix_of(target) {
        assert(target.take(8) =~= "buzz_acp"@);
        assert("buzz_acp"@.is_prefix_of(target));
    }
}

/// A write counts its bytes and its line feeds, and nothing else.
pub proof fn writes_count_bytes_and_lines(c: LogCounters, taken: Seq<u8>)
    ensures
        after_write(c, taken) == (LogCounters {
            written_bytes: counted_on(c.written_bytes, taken.len() as int),
            written_lines: counted_on(
                c.written_lines,
                taken.filter(|b: u8| b == 0x0a).len() as int,
            ),
            ..c
        }),
{
    line_feeds_are_filtered(taken);
}

proof fn line_feeds_are_filtered(bytes: Seq<u8>)
    ensures
        line_feeds(bytes) == bytes.filter(|b: u8| b == 0x0a).len(),
    decreases bytes.len(),
{
    reveal(Seq::filter);
    if bytes.len() > 0 {
        line_feeds_are_filtered(bytes.drop_last());
    }
}

/// The reported median is the element in the middle of the window, the upper one of two, in any
/// arrangement of the window by size. An empty window has none.
pub proof fn median_is_the_upper_middle(window: Seq<u64>, arranged: Seq<u64>)
    requires
        forall|j: int, k: int| 0 <= j < k < arranged.len() ==> arranged[j] <= arranged[k],
        arranged.to_multiset() == window.to_multiset(),
    ensures
        window.len() == 0 <==> p50(window) is None,
        window.len() > 0 ==> p50(window) == Some(arranged[(window.len() / 2) as int]),
{
    if window.len() > 0 {
        let leq = ascending();
        assert forall|j: int, k: int| 0 <= j < k < arranged.len() implies #[trigger] leq(
            arranged[j],
            arranged[k],
        ) by {
        }
        p50_is_the_middle(window, arranged);
    }
}

/// A report repeats what the state and the log counters say, field by field.
pub proof fn reports_repeat_the_state(s: StateView, c: LogCounters, now_unix: u64)
    requires
        s.seq < u64::MAX,
    ensures
        ({
            let r = report(s, c, now_unix);
            &&& r.agent_pubkey == s.agent_pubkey
            &&& r.pid == s.pid
            &&& r.boot_unix == s.boot_unix
            &&& r.seq == s.seq + 1
            &&& s.last_authored is None ==> r.last_authored_event_id is None
                && r.last_authored_at_unix is None
            &&& s.last_authored matches Some(a) ==> r.last_authored_event_id == Some(a.0)
                && r.last_authored_at_unix == Some(a.1)
            &&& r.turns_total == s.turns_total
            &&& r.dispatch_response_latency_ms.last_ms == s.last_latency_ms
            &&& r.dispatch_response_latency_ms.p50_window_ms == p50(s.window)
            &&& r.log_emitted.total == c.emitted_total
            &&& r.log_emitted.pool == c.emitted_pool
            &&& r.log_emitted.lib == c.emitted_lib
            &&& r.log_written.lines == c.written_lines
            &&& r.log_written.bytes == c.written_bytes
            &&& r.report_drops_total == s.report_drops
        }),
{
}

/// A report shows a stall exactly where events were emitted since the last one and no byte was
/// written. A stall that is new is dated then, and counts the events beyond the lines written; one
/// that was shown before is repeated.
pub proof fn stalls_are_seen(s: StateView, c: LogCounters, now_unix: u64)
    ensures
        ({
            let f = report(s, c, now_unix).freeze;
            let stalled = c.emitted_total > s.prev_emitted_total && c.written_bytes
                <= s.prev_written_bytes;
            let before = s.freeze.state == "stalled_write"@;
            &&& !stalled ==> f.state == "ok"@ && f.emitted_minus_written == 0
                && f.detected_at_unix is None
            &&& stalled ==> f.state == "stalled_write"@
            &&& stalled && before ==> f == s.freeze
            &&& stalled && !before ==> f.detected_at_unix == Some(now_unix)
            &&& stalled && !before && c.emitted_total >= c.written_lines ==> f.emitted_minus_written
                == c.emitted_total - c.written_lines
            &&& stalled && !before && c.emitted_total < c.written_lines ==> f.emitted_minus_written
                == 0
        }),
{
}

/// A report leaves behind its number, its freeze state and the counters that the next one is
/// measured against, and changes nothing else.
pub proof fn reports_leave_their_mark(s: StateView, c: LogCounters, now_unix: u64)
    ensures
        after_report(s, c, now_unix) == (StateView {
            seq: report(s, c, now_unix).seq,
            freeze: report(s, c, now_unix).freeze,
            prev_emitted_total: c.emitted_total,
            prev_written_bytes: c.written_bytes,
            ..s
        }),
{
}

/// Each note changes what it is about, and nothing else.
pub proof fn notes_change_what_they_are_about(
    s: StateView,
    event_id: Seq<char>,
    at_unix: u64,
    latency_ms: u64,
    channel: u128,
    now: u128,
)
    requires
        has_room(s),
    ensures
        ({
            let p = after_published(s, event_id, at_unix);
            let t = after_turn(s, latency_ms);
            let d = after_dispatch(s, channel, now);
            let a = after_result(s, channel, now);
            let w = after_drop(s);
            &&& p == (StateView { last_authored: Some((event_id, at_unix)), seq: p.seq, ..s })
            &&& p.seq == s.seq + 1
            &&& t == (StateView {
                last_latency_ms: Some(latency_ms),
                turns_total: t.turns_total,
                window: t.window,
                seq: t.seq,
                ..s
            })
            &&& t.turns_total == s.turns_total + 1 && t.seq == s.seq + 1
            &&& s.window.len() < 32 ==> t.window == s.window.push(latency_ms)
            &&& s.window.len() == 32 ==> t.window == s.window.skip(1).push(latency_ms)
            &&& d == (StateView { dispatched: s.dispatched.insert(channel, now), ..s })
            &&& !s.dispatched.contains_key(channel) ==> a == s
            &&& s.dispatched.contains_key(channel) ==> a == (StateView {
                dispatched: s.dispatched.remove(channel),
                last_latency_ms: a.last_latency_ms,
                turns_total: t.turns_total,
                window: window_with(s.window, a.last_latency_ms->0),
                seq: t.seq,
                ..s
            })
            &&& w == (StateView { report_drops: w.report_drops, ..s })
            &&& w.report_drops == s.report_drops + 1
        }),
{
    if s.window.len() == 32 {
        assert(s.window.push(latency_ms).drop_first() =~= s.window.skip(1).push(latency_ms));
    }
}

/// A seat that has just booted has nothing to tell but who it is.
pub proof fn boot_state_is_empty(agent_pubkey: Seq<char>, pid: u32, boot_unix: u64, s: StateView)
    ensures
        fresh(agent_pubkey, pid, boot_unix) == (StateView {
            agent_pubkey,
            pid,
            boot_unix,
            seq: 0,
            last_authored: None,
            turns_total: 0,
            last_latency_ms: None,
            window: seq![],
            report_drops: 0,
            dispatched: map![],
            prev_emitted_total: 0,
            prev_written_bytes: 0,
            freeze: FreezeView { state: "ok"@, emitted_minus_written: 0, detected_at_unix: None },
        }),
        has_room(s) <==> s.seq < u64::MAX && s.turns_total < u64::MAX && s.report_drops < u64::MAX,
        LATENCY_WINDOW == 32,
{
    assert(fresh(agent_pubkey, pid, boot_unix).window =~= seq![]);
    assert(fresh(agent_pubkey, pid, boot_unix).dispatched =~= map![]);
}

/// Reports are seen field by field.
pub proof fn reports_are_seen_whole(r: SeatStatus, f: FreezeState)
    ensures
        f@ == (FreezeView {
            state: f.state@,
            emitted_minus_written: f.emitted_minus_written,
            detected_at_unix: f.detected_at_unix,
        }),
        r@ == (StatusView {
            agent_pubkey: r.agent_pubkey@,
            pid: r.pid,
            boot_unix: r.boot_unix,
            seq: r.seq,
            last_authored_event_id: text::option_text(r.last_authored_event_id),
            last_authored_at_unix: r.last_authored_at_unix,
            turns_total: r.turns_total,
            dispatch_response_latency_ms: r.dispatch_response_latency_ms,
            log_emitted: r.log_emitted,
            log_written: r.log_written,
            freeze: r.freeze@,
            report_drops_total: r.report_drops_total,
        }),
{
}

} // verus!
