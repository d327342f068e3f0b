//! When a seat publishes its reports, and to whom.
//!
//! Instants and spans are nanoseconds.
use vstd::arithmetic::power2::*;
use vstd::prelude::*;
use vstd::string::*;

use crate::numeral;
use crate::text;

verus! {

/// Time between two reports.
pub const REPORT_INTERVAL: u128 = 60_000_000_000;

/// Time that one report may take to be delivered.
pub const REPORT_TIMEOUT: u128 = 2_000_000_000;

/// Wait after the first failure.
pub const INITIAL_BACKOFF: u128 = 1_000_000_000;

/// Longest wait after a failure.
pub const MAX_BACKOFF: u128 = 900_000_000_000;

/// Largest payload, in bytes, that a report may carry.
pub const PAYLOAD_CAP_BYTES: usize = 4096;

/// Wakes that may wait for the reporter.
pub const WAKE_CAPACITY: usize = 8;

// ---- Configuration ----

/// Where reports go.
pub struct ReporterConfig {
    pub url: String,
    pub token: String,
    pub interval: u128,
    pub timeout: u128,
}

/// Why no reports are made.
#[derive(Debug, Clone, Copy, PartialEq, Eq)]
pub enum ReportingDisabled {
    /// No dashboard is configured.
    NoUrl,
    /// The token is not there, or holds characters other than letters and digits.
    BadToken,
}

/// An ASCII letter or digit.
pub open spec fn is_alphanumeric(c: char) -> bool {
    'a' <= c <= 'z' || 'A' <= c <= 'Z' || '0' <= c <= '9'
}

/// One or more ASCII letters and digits.
pub open spec fn is_token(s: Seq<char>) -> bool {
    s.len() > 0 && forall|i: int| 0 <= i < s.len() ==> is_alphanumeric(#[trigger] s[i])
}

/// Whether a dashboard token is made of letters and digits alone.
pub fn valid_token(token: &str) -> (r: bool)
    ensures
        r == is_token(token@),
{
    let chars = text::chars_of(token);
    if chars.len() == 0 {
        return false;
    }
    let mut i: usize = 0;
    while i < chars.len()
        invariant
            i <= chars@.len(),
            chars@ == token@,
            forall|j: int| 0 <= j < i ==> is_alphanumeric(#[trigger] token@[j]),
        decreases chars@.len() - i,
    {
        let c = chars[i];
        if !(('a' <= c && c <= 'z') || ('A' <= c && c <= 'Z') || ('0' <= c && c <= '9')) {
            assert(!is_alphanumeric(token@[i as int]));
            return false;
        }
        i = i + 1;
    }
    true
}

/// What the settings ask for: a URL and a token, or why there is none.
pub open spec fn reporting_settings(url: Option<Seq<char>>, token: Option<Seq<char>>) -> Result<
    (Seq<char>, Seq<char>),
    ReportingDisabled,
> {
    if url is None || text::trimmed(url->0).len() == 0 {
        Err(ReportingDisabled::NoUrl)
    } else if token is None || !is_token(token->0) {
        Err(ReportingDisabled::BadToken)
    } else {
        Ok((text::trimmed(url->0), token->0))
    }
}

/// The reporter that the settings ask for. The URL is trimmed, the token is taken as it is.
pub fn reporter_config(url: Option<&str>, token: Option<&str>) -> (r: Result<
    ReporterConfig,
    ReportingDisabled,
>)
    ensures
        match r {
            Ok(c) => {
                &&& url is Some && text::trimmed(url->0@).len() > 0
                &&& token is Some && is_token(token->0@)
                &&& c.url@ == text::trimmed(url->0@)
                &&& c.token@ == token->0@
                &&& c.interval == REPORT_INTERVAL
                &&& c.timeout == REPORT_TIMEOUT
            },
            Err(ReportingDisabled::NoUrl) => url is None || text::trimmed(url->0@).len() == 0,
            Err(ReportingDisabled::BadToken) => {
                &&& url is Some && text::trimmed(url->0@).len() > 0
                &&& token is None || !is_token(token->0@)
            },
        },
        (match r {
            Ok(c) => Ok((c.url@, c.token@)),
            Err(why) => Err(why),
        }) == reporting_settings(text::opt(url), text::opt(token)),
{
    let url = match url {
        Some(u) => text::trim(u),
        None => return Err(ReportingDisabled::NoUrl),
    };
    if url.is_empty() {
        return Err(ReportingDisabled::NoUrl);
    }
    match token {
        Some(t) => {
            if valid_token(t) {
                Ok(
                    ReporterConfig {
                        url: url.to_owned(),
                        token: t.to_owned(),
                        interval: REPORT_INTERVAL,
                        timeout: REPORT_TIMEOUT,
                    },
                )
            } else {
                Err(ReportingDisabled::BadToken)
            }
        },
        None => Err(ReportingDisabled::BadToken),
    }
}

/// Why a payload of `len` bytes is refused, if it is.
pub open spec fn payload_refusal(len: nat) -> Option<Seq<char>> {
    if len > PAYLOAD_CAP_BYTES {
        Some(
            "payload "@ + numeral::decimal(len) + " bytes exceeds cap "@ + numeral::decimal(
                PAYLOAD_CAP_BYTES as nat,
            ),
        )
    } else {
        None
    }
}

/// Refuses a payload over the cap, and says why.
pub fn check_payload(len: usize) -> (r: Result<(), String>)
    ensures
        r is Ok <==> len <= PAYLOAD_CAP_BYTES,
        r matches Err(e) ==> e@ == "payload "@ + numeral::decimal(len as nat)
            + " bytes exceeds cap "@ + numeral::decimal(PAYLOAD_CAP_BYTES as nat),
        (match r {
            Ok(()) => None,
            Err(e) => Some(e@),
        }) == payload_refusal(len as nat),
{
    if len > PAYLOAD_CAP_BYTES {
        let mut out = text::join("payload ", numeral::write_decimal(len as u128).as_str());
        out.append(" bytes exceeds cap ");
        out.append(numeral::write_decimal(PAYLOAD_CAP_BYTES as u128).as_str());
        Err(out)
    } else {
        Ok(())
    }
}

// ---- Backoff ----

/// Twice the wait, up to the longest.
pub open spec fn backoff_after(current: u128) -> u128 {
    if 2 * current <= MAX_BACKOFF {
        (2 * current) as u128
    } else {
        MAX_BACKOFF
    }
}

/// The wait after the next failure.
pub fn next_backoff(current: u128) -> (r: u128)
    ensures
        r == backoff_after(current),
{
    if current <= MAX_BACKOFF / 2 {
        2 * current
    } else {
        MAX_BACKOFF
    }
}

/// When the reporter may publish again.
pub struct Pacing {
    /// Not before this instant, after a failure.
    pub backoff_until: Option<u128>,
    /// How long the next failure makes it wait.
    pub backoff: u128,
}

/// A wake at `now` leads to a report.
pub open spec fn may_publish(p: Pacing, now: u128) -> bool {
    p.backoff_until is None || now >= p.backoff_until->0
}

/// After a wake at `now`.
pub open spec fn after_wake(p: Pacing, now: u128) -> Pacing {
    if may_publish(p, now) {
        Pacing { backoff_until: None, ..p }
    } else {
        p
    }
}

/// After a report that was delivered.
pub open spec fn after_success(p: Pacing) -> Pacing {
    Pacing { backoff: INITIAL_BACKOFF, ..p }
}

/// After a report that failed at `now`.
pub open spec fn after_failure(p: Pacing, now: u128) -> Pacing {
    Pacing {
        backoff_until: Some((now + p.backoff) as u128),
        backoff: backoff_after(p.backoff),
    }
}

/// The pacing of a reporter that has not reported yet.
pub open spec fn initial_pacing() -> Pacing {
    Pacing { backoff_until: None, backoff: INITIAL_BACKOFF }
}

impl Pacing {
    /// A reporter that has not reported yet.
    pub fn new() -> (r: Self)
        ensures
            r == initial_pacing(),
    {
        Pacing { backoff_until: None, backoff: INITIAL_BACKOFF }
    }

    /// Decides whether a wake at `now` leads to a report.
    pub fn wake(&mut self, now: u128) -> (r: bool)
        ensures
            r == may_publish(*old(self), now),
            *final(self) == after_wake(*old(self), now),
    {
        if let Some(until) = self.backoff_until {
            if now < until {
                return false;
            }
            self.backoff_until = None;
        }
        true
    }

    /// Takes in that a report was delivered.
    pub fn delivered(&mut self)
        ensures
            *final(self) == after_success(*old(self)),
    {
        self.backoff = INITIAL_BACKOFF;
    }

    /// Takes in that a report failed at `now`. The end of the wait must still be an instant.
    pub fn failed(&mut self, now: u128)
        requires
            now + old(self).backoff <= u128::MAX,
        ensures
            *final(self) == after_failure(*old(self), now),
    {
        self.backoff_until = Some(now + self.backoff);
        self.backoff = next_backoff(self.backoff);
    }
}

// ---- What the reporter promises ----

/// The pacing after a run of failures, each at its own instant.
pub open spec fn after_failures(p: Pacing, at: Seq<u128>) -> Pacing
    decreases at.len(),
{
    if at.len() == 0 {
        p
    } else {
        after_failure(after_failures(p, at.drop_last()), at.last())
    }
}

/// Successive failures double the wait, from one second up to a quarter of an hour.
pub proof fn backoff_doubles_up_to_the_cap(at: Seq<u128>)
    ensures
        after_failures(initial_pacing(), at).backoff == if INITIAL_BACKOFF * pow2(at.len())
            <= MAX_BACKOFF {
            INITIAL_BACKOFF * pow2(at.len())
        } else {
            MAX_BACKOFF as int
        },
    decreases at.len(),
{
    lemma_pow2_pos(at.len());
    if at.len() == 0 {
        lemma2_to64();
    } else {
        let n = at.len();
        backoff_doubles_up_to_the_cap(at.drop_last());
        lemma_pow2_pos((n - 1) as nat);
        lemma_pow2_unfold(n);
        assert(INITIAL_BACKOFF * pow2(n) == 2 * (INITIAL_BACKOFF * pow2((n - 1) as nat)));
    }
}

/// No wait is ever longer than the cap.
pub proof fn backoff_is_bounded(current: u128)
    ensures
        backoff_after(current) <= MAX_BACKOFF,
        current <= MAX_BACKOFF ==> current <= backoff_after(current),
{
}

/// After a failure nothing is published until the wait is over, however often the reporter is
/// woken; the first wake after that publishes.
pub proof fn failure_keeps_quiet(p: Pacing, failed_at: u128, now: u128)
    requires
        failed_at + p.backoff <= u128::MAX,
    ensures
        ({
            let q = after_failure(p, failed_at);
            &&& may_publish(q, now) <==> now >= failed_at + p.backoff
            &&& now < failed_at + p.backoff ==> after_wake(q, now) == q
        }),
{
}

/// A delivered report starts the backoff over.
pub proof fn success_resets(p: Pacing)
    ensures
        after_success(p).backoff == INITIAL_BACKOFF,
        after_success(p).backoff_until == p.backoff_until,
{
}

/// A reporter that has not failed since it last delivered, or has not reported yet, answers every
/// wake with a report: a change that wakes it goes out at once.
pub proof fn wakes_are_answered_at_once(p: Pacing, woken: u128, now: u128)
    requires
        may_publish(p, woken),
    ensures
        may_publish(initial_pacing(), now),
        may_publish(after_success(after_wake(p, woken)), now),
{
}

/// A token is made of ASCII letters and digits, of at least one, and of nothing else.
pub proof fn tokens_are_letters_and_digits(s: Seq<char>)
    ensures
        is_token(s) <==> s.len() > 0 && forall|i: int|
            0 <= i < s.len() ==> {
                let n = (#[trigger] s[i]) as int;
                0x30 <= n <= 0x39 || 0x41 <= n <= 0x5a || 0x61 <= n <= 0x7a
            },
{
    if s.len() > 0 && forall|i: int|
        0 <= i < s.len() ==> {
            let n = (#[trigger] s[i]) as int;
            0x30 <= n <= 0x39 || 0x41 <= n <= 0x5a || 0x61 <= n <= 0x7a
        } {
        assert forall|i: int| 0 <= i < s.len() implies is_alphanumeric(#[trigger] s[i]) by {
        }
    }
    if is_token(s) {
        assert forall|i: int| 0 <= i < s.len() implies {
            let n = (#[trigger] s[i]) as int;
            0x30 <= n <= 0x39 || 0x41 <= n <= 0x5a || 0x61 <= n <= 0x7a
        } by {
            assert(is_alphanumeric(s[i]));
        }
    }
}

/// The next wait is twice this one, and never more than a quarter of an hour.
pub proof fn next_wait_is_twice_this_one(current: u128)
    ensures
        current <= 450 * 1_000_000_000 ==> backoff_after(current) == 2 * current,
        current >= 450 * 1_000_000_000 ==> backoff_after(current) == 900 * 1_000_000_000,
{
}

/// A wake goes out exactly where no wait is on, or the wait is over. That ends the wait and leaves
/// the next one as it was; a wake that comes too soon changes nothing.
pub proof fn wakes_wait_their_turn(p: Pacing, until: u128, now: u128)
    ensures
        p.backoff_until is None ==> may_publish(p, now) && after_wake(p, now) == p,
        p.backoff_until == Some(until) && now < until ==> !may_publish(p, now) && after_wake(p, now)
            == p,
        p.backoff_until == Some(until) && now >= until ==> may_publish(p, now) && after_wake(p, now)
            == (Pacing { backoff_until: None, backoff: p.backoff }),
{
}

/// A failure sets a wait as long as the last one that was decided on, from the moment of the
/// failure, and decides on the next. A delivery sets none, and makes the next one second.
pub proof fn failures_set_the_wait(p: Pacing, now: u128)
    requires
        now + p.backoff <= u128::MAX,
    ensures
        after_failure(p, now).backoff_until is Some,
        after_failure(p, now).backoff_until->0 == now + p.backoff,
        after_failure(p, now).backoff == next_wait(p.backoff as int),
        after_success(p) == (Pacing { backoff_until: p.backoff_until, backoff: 1_000_000_000 }),
        initial_pacing() == (Pacing { backoff_until: None, backoff: 1_000_000_000 }),
{
}

/// The smaller of twice a wait and a quarter of an hour.
pub open spec fn next_wait(wait: int) -> int {
    if wait + wait < 900_000_000_000 {
        wait + wait
    } else {
        900_000_000_000
    }
}

/// The reporter's times and sizes: a report each minute, two seconds to deliver it, four kilobytes
/// at most, and eight wakes that may wait.
pub proof fn reporter_limits()
    ensures
        REPORT_INTERVAL == 60 * 1_000_000_000,
        REPORT_TIMEOUT == 2 * 1_000_000_000,
        INITIAL_BACKOFF == 1_000_000_000,
        MAX_BACKOFF == 15 * 60 * 1_000_000_000,
        PAYLOAD_CAP_BYTES == 4 * 1024,
        WAKE_CAPACITY == 8,
{
}

/// There are reports where a URL says something and a token is made of letters and digits: to that
/// URL without the white space around it, with that token as it is.
pub proof fn reports_need_url_and_token(
    a: Seq<char>,
    address: Seq<char>,
    b: Seq<char>,
    token: Seq<char>,
)
    requires
        text::all_white(a),
        text::all_white(b),
        text::bare(address),
        address.len() > 0,
    ensures
        is_token(token) ==> reporting_settings(Some(a + address + b), Some(token)) == Ok::<
            (Seq<char>, Seq<char>),
            ReportingDisabled,
        >((address, token)),
        !is_token(token) ==> reporting_settings(Some(a + address + b), Some(token)) == Err::<
            (Seq<char>, Seq<char>),
            ReportingDisabled,
        >(ReportingDisabled::BadToken),
        reporting_settings(Some(a + address + b), None) == Err::<
            (Seq<char>, Seq<char>),
            ReportingDisabled,
        >(ReportingDisabled::BadToken),
{
    text::trimming_undoes_padding(a, address, b);
}

/// Without a URL, or with one of nothing but white space, there are none, whatever the token is.
pub proof fn no_reports_without_url(blank: Seq<char>, token: Option<Seq<char>>)
    requires
        text::all_white(blank),
    ensures
        reporting_settings(None, token) == Err::<(Seq<char>, Seq<char>), ReportingDisabled>(
            ReportingDisabled::NoUrl,
        ),
        reporting_settings(Some(blank), token) == Err::<(Seq<char>, Seq<char>), ReportingDisabled>(
            ReportingDisabled::NoUrl,
        ),
{
    text::trimmed_to_nothing(blank);
}

/// A payload is refused exactly where it is over four kilobytes, and the refusal tells its size.
pub proof fn large_payloads_are_refused(len: nat)
    ensures
        payload_refusal(len) is Some <==> len > 4096,
        payload_refusal(len) matches Some(e) ==> e == "payload "@ + numeral::decimal(len)
            + " bytes exceeds cap "@ + numeral::decimal(4096),
{
}

} // verus!
