//! The agent's `core` memory: from the relay's reply to a section of the prompt.
//!
//! A core that exists but cannot be read must never pass for an absent one: that would invite the
//! agent to overwrite it. So a reply is `Absent` only when the relay confirmed it, and every other
//! miss is `Failed`, which renders as no section at all.
//!
//! Decryption and the choice of the head among several events belong to the caller. It learns from
//! [`scan_candidates`] which entries are worth decrypting, and from [`readable_entries`] which the
//! head is to be chosen among, and hands the results to [`decode_core_body`].
use vstd::prelude::*;
use vstd::string::*;

use crate::digest;
use crate::event;
use crate::json;
use crate::numeral;
use crate::text;

verus! {

/// Section header rendered into the prompt.
pub const SECTION_LABEL: &'static str = "Agent Memory \u{2014} core";

/// Onboarding nudge for an agent with no core yet.
pub const ONBOARDING_NUDGE: &'static str = "No core memory found. Use `buzz mem set core \"\u{2026}\"` to create one (it will hold your identity, rules, and goals across sessions). Ask your user about yourself.";

/// Event kind of engrams.
pub const KIND_AGENT_ENGRAM: u16 = 30174;

/// How many events the relay is asked for.
pub const CORE_QUERY_LIMIT: usize = 16;

// ---- The query ----

/// What the relay is asked for: engrams of this kind by this author, with these tags.
#[derive(Debug, Clone, PartialEq, Eq)]
pub struct CoreQuery {
    pub kind: u16,
    /// The agent's public key.
    pub author: String,
    /// Value of the `d` tag: the slot that the core is kept in.
    pub d: String,
    /// Value of the `p` tag: the owner's public key.
    pub p: String,
    pub limit: usize,
}

/// The query for the core that `agent` shares with `owner` (hexadecimal public keys), kept under
/// `d_tag`.
pub fn core_query(agent: &str, owner: &str, d_tag: &str) -> (r: CoreQuery)
    ensures
        r.kind == KIND_AGENT_ENGRAM,
        r.author@ == agent@,
        r.d@ == d_tag@,
        r.p@ == owner@,
        r.limit == CORE_QUERY_LIMIT,
{
    CoreQuery {
        kind: KIND_AGENT_ENGRAM,
        author: agent.to_owned(),
        d: d_tag.to_owned(),
        p: owner.to_owned(),
        limit: CORE_QUERY_LIMIT,
    }
}

// ---- Sections ----

/// Outcome of a core-head fetch.
pub enum CoreFetch {
    /// A verified, decryptable core exists; the rendered section.
    Section(String),
    /// The relay confirmed that no core exists.
    Absent,
    /// The fetch failed, for this reason.
    Failed(String),
}

/// What a [`CoreFetch`] says.
pub enum FetchView {
    Section(Seq<char>),
    Absent,
    Failed(Seq<char>),
}

impl View for CoreFetch {
    type V = FetchView;

    open spec fn view(&self) -> FetchView {
        match *self {
            CoreFetch::Section(s) => FetchView::Section(s@),
            CoreFetch::Absent => FetchView::Absent,
            CoreFetch::Failed(s) => FetchView::Failed(s@),
        }
    }
}

/// The first line of every section.
pub open spec fn header_text() -> Seq<char> {
    "["@ + SECTION_LABEL@ + "]\n"@
}

/// The section that shows `body`.
pub open spec fn section_text(body: Seq<char>) -> Seq<char> {
    header_text() + body
}

/// A section without its first line; other text as it is.
pub open spec fn profile_text(section: Seq<char>) -> Seq<char> {
    match text::after_prefix(section, header_text()) {
        Some(rest) => rest,
        None => section,
    }
}

/// What a decoded body is worth.
pub open spec fn fetched(body: Result<Option<Seq<char>>, Seq<char>>) -> FetchView {
    match body {
        Ok(Some(profile)) => FetchView::Section(section_text(profile)),
        Ok(None) => FetchView::Absent,
        Err(reason) => FetchView::Failed(reason),
    }
}

/// The section that a new session shows.
pub open spec fn spawn_section(fetch: FetchView) -> Option<Seq<char>> {
    match fetch {
        FetchView::Section(section) => Some(section),
        FetchView::Absent => Some(section_text(ONBOARDING_NUDGE@)),
        FetchView::Failed(_) => None,
    }
}

/// The text of a decoded body.
pub open spec fn body_text(body: Result<Option<String>, String>) -> Result<
    Option<Seq<char>>,
    Seq<char>,
> {
    match body {
        Ok(Some(profile)) => Ok(Some(profile@)),
        Ok(None) => Ok(None),
        Err(reason) => Err(reason@),
    }
}

fn header() -> (r: String)
    ensures
        r@ == header_text(),
{
    let mut out = text::join("[", SECTION_LABEL);
    out.append("]\n");
    out
}

/// Renders the onboarding nudge.
pub fn nudge_section() -> (r: String)
    ensures
        r@ == section_text(ONBOARDING_NUDGE@),
{
    let mut out = header();
    out.append(ONBOARDING_NUDGE);
    out
}

/// Strips the rendered header and returns the bare profile.
pub fn section_profile(section: &str) -> (r: &str)
    ensures
        r@ == profile_text(section@),
{
    let head = header();
    match text::strip_prefix(section, head.as_str()) {
        Some(rest) => rest,
        None => section,
    }
}

/// The first twelve hexadecimal digits of the profile's SHA-256, for refresh receipts.
pub fn core_hash12(profile: &str) -> (r: String)
    ensures
        r@ == digest::hex_of(digest::sha256_of(vstd::utf8::encode_utf8(profile@))).take(12),
        r@.len() == 12,
{
    digest::sha256_prefix(profile, 12)
}

/// Classifies a decoded body: a core, a confirmed absence or a failure.
pub fn fetch_core_section(body: Result<Option<String>, String>) -> (r: CoreFetch)
    ensures
        r@ == fetched(body_text(body)),
{
    match body {
        Ok(Some(profile)) => {
            let mut out = header();
            out.append(profile.as_str());
            CoreFetch::Section(out)
        },
        Ok(None) => CoreFetch::Absent,
        Err(reason) => CoreFetch::Failed(reason),
    }
}

/// The section for a new session. Nothing where the fetch failed, so that the agent does not
/// conclude that its memory is empty.
pub fn build_core_section(fetch: CoreFetch) -> (r: Option<String>)
    ensures
        text::option_text(r) == spawn_section(fetch@),
{
    match fetch {
        CoreFetch::Section(section) => Some(section),
        CoreFetch::Absent => Some(nudge_section()),
        CoreFetch::Failed(_) => None,
    }
}

// ---- Refresh counters ----

/// Refreshes of the core that did not replace the cached section, by reason.
pub struct RefreshCounters {
    /// Transport, decryption or parsing errors.
    pub failed: u64,
    /// Refreshes that exceeded their time budget.
    pub timeout: u64,
    /// Confirmed absences that kept the last known good section.
    pub absent_lkg: u64,
}

impl RefreshCounters {
    pub fn new() -> (r: Self)
        ensures
            r == (RefreshCounters { failed: 0, timeout: 0, absent_lkg: 0 }),
    {
        RefreshCounters { failed: 0, timeout: 0, absent_lkg: 0 }
    }

    /// Counts a refresh that errored; returns the new count.
    pub fn note_refresh_failed(&mut self) -> (r: u64)
        requires
            old(self).failed < u64::MAX,
        ensures
            r == old(self).failed + 1,
            *final(self) == (RefreshCounters { failed: r, ..*old(self) }),
    {
        self.failed = self.failed + 1;
        self.failed
    }

    /// Counts a refresh that exceeded its budget; returns the new count.
    pub fn note_refresh_timeout(&mut self) -> (r: u64)
        requires
            old(self).timeout < u64::MAX,
        ensures
            r == old(self).timeout + 1,
            *final(self) == (RefreshCounters { timeout: r, ..*old(self) }),
    {
        self.timeout = self.timeout + 1;
        self.timeout
    }

    /// Counts an absence that fell back to the last known good section; returns the new count.
    pub fn note_refresh_absent_lkg(&mut self) -> (r: u64)
        requires
            old(self).absent_lkg < u64::MAX,
        ensures
            r == old(self).absent_lkg + 1,
            *final(self) == (RefreshCounters { absent_lkg: r, ..*old(self) }),
    {
        self.absent_lkg = self.absent_lkg + 1;
        self.absent_lkg
    }
}

// ---- Decoding ----

/// A decrypted engram body.
pub enum Body {
    Core { profile: String },
    /// A memory slot; without a value it is a tombstone.
    Memory { slug: String, value: Option<String> },
}

/// What decrypting one entry of the reply gave: its body, or why there is none.
pub type Decryption = Result<Body, String>;

/// The profile that a body carries, where it is a core.
pub open spec fn core_profile(body: Body) -> Option<Seq<char>> {
    match body {
        Body::Core { profile } => Some(profile@),
        Body::Memory { .. } => None,
    }
}

/// The id of the entry `json`, where it is an event that verifies.
pub open spec fn candidate_id(json: Seq<char>) -> Option<Seq<char>> {
    if event::event_verifies(json) {
        Some(event::event_of(json)->0.id)
    } else {
        None
    }
}

/// The ids of the verified entries, entry by entry.
pub open spec fn candidate_ids(entries: Seq<Seq<char>>) -> Seq<Option<Seq<char>>> {
    entries.map_values(|json: Seq<char>| candidate_id(json))
}

/// The texts of a list of optional ids.
pub open spec fn id_texts(ids: Seq<Option<String>>) -> Seq<Option<Seq<char>>> {
    ids.map_values(
        |id: Option<String>|
            match id {
                Some(s) => Some(s@),
                None => None,
            },
    )
}

/// How many entries are verified events.
pub open spec fn verified_count(ids: Seq<Option<Seq<char>>>) -> nat
    decreases ids.len(),
{
    if ids.len() == 0 {
        0
    } else {
        verified_count(ids.drop_last()) + if ids.last() is Some {
            1nat
        } else {
            0nat
        }
    }
}

/// Entry `i` is a verified event that could be decrypted.
pub open spec fn readable(
    ids: Seq<Option<Seq<char>>>,
    outcomes: Seq<Decryption>,
    i: int,
) -> bool {
    0 <= i < ids.len() && ids[i] is Some && outcomes[i] is Ok
}

/// Some entry can be read.
pub open spec fn some_readable(ids: Seq<Option<Seq<char>>>, outcomes: Seq<Decryption>) -> bool {
    exists|i: int| readable(ids, outcomes, i)
}

/// `picked` holds the places of the readable entries, in order.
pub open spec fn picks_readable(
    ids: Seq<Option<Seq<char>>>,
    outcomes: Seq<Decryption>,
    picked: Seq<usize>,
) -> bool {
    &&& forall|j: int, k: int| 0 <= j < k < picked.len() ==> picked[j] < picked[k]
    &&& forall|i: usize| picked.contains(i) <==> readable(ids, outcomes, i as int)
}

/// The decryption error of the last verified entry that could not be decrypted, among the first
/// `n`.
pub open spec fn last_error(
    ids: Seq<Option<Seq<char>>>,
    outcomes: Seq<Decryption>,
    n: int,
) -> Option<Seq<char>>
    decreases n,
{
    if n <= 0 {
        None
    } else if ids[n - 1] is Some && outcomes[n - 1] is Err {
        Some(outcomes[n - 1]->Err_0@)
    } else {
        last_error(ids, outcomes, n - 1)
    }
}

/// The profile of the first readable entry with id `head`, at or after `from`.
pub open spec fn head_profile(
    ids: Seq<Option<Seq<char>>>,
    outcomes: Seq<Decryption>,
    head: Seq<char>,
    from: int,
) -> Option<Seq<char>>
    decreases ids.len() - from,
{
    if from >= ids.len() {
        None
    } else if readable(ids, outcomes, from) && ids[from]->0 == head {
        core_profile(outcomes[from]->Ok_0)
    } else {
        head_profile(ids, outcomes, head, from + 1)
    }
}

/// What a reply says of the core: its profile, that there is none, or why it cannot be told.
pub open spec fn decoded(
    ids: Seq<Option<Seq<char>>>,
    outcomes: Seq<Decryption>,
    head: Option<Seq<char>>,
) -> Result<Option<Seq<char>>, Seq<char>> {
    if ids.len() == 0 {
        Ok(None)
    } else if some_readable(ids, outcomes) {
        match head {
            Some(id) => Ok(head_profile(ids, outcomes, id, 0)),
            None => Ok(None),
        }
    } else if verified_count(ids) > 0 {
        Err(
            numeral::decimal(verified_count(ids))
                + " core candidate(s) returned but none decryptable                  (last error: "@
                + last_error(ids, outcomes, ids.len() as int)->0 + ")"@,
        )
    } else {
        Err("relay returned core candidate(s) that could not be parsed or verified"@)
    }
}

/// The entries of the relay's reply, or why there are none to look at.
pub open spec fn reply_entries(reply: Result<Seq<char>, Seq<char>>) -> Result<
    Seq<Seq<char>>,
    Seq<char>,
> {
    match reply {
        Err(error) => Err("relay query failed: "@ + error),
        Ok(text) => match json::array_elements(text) {
            Some(entries) => Ok(entries),
            None => Err("relay query returned non-array"@),
        },
    }
}

/// Splits the relay's reply (JSON text, or a transport error) into its entries.
pub fn relay_entries(reply: Result<String, String>) -> (r: Result<Vec<String>, String>)
    ensures
        (match r {
            Ok(v) => Ok(text::texts(v@)),
            Err(e) => Err(e@),
        }) == reply_entries(
            match reply {
                Ok(t) => Ok(t@),
                Err(e) => Err(e@),
            },
        ),
{
    match reply {
        Err(error) => Err(text::join("relay query failed: ", error.as_str())),
        Ok(body) => match json::read_array(body.as_str()) {
            Some(entries) => Ok(entries),
            None => Err("relay query returned non-array".to_owned()),
        },
    }
}

/// For each entry of the reply its event id, where it is an event that verifies. Only those are
/// worth decrypting.
pub fn scan_candidates(entries: &Vec<String>) -> (r: Vec<Option<String>>)
    ensures
        id_texts(r@) == candidate_ids(text::texts(entries@)),
{
    let mut out: Vec<Option<String>> = Vec::new();
    let ghost want = candidate_ids(text::texts(entries@));
    let mut i: usize = 0;
    while i < entries.len()
        invariant
            i <= entries@.len(),
            want == candidate_ids(text::texts(entries@)),
            out@.len() == i,
            forall|j: int| 0 <= j < i ==> #[trigger] id_texts(out@)[j] == want[j],
        decreases entries@.len() - i,
    {
        let entry = entries[i].as_str();
        assert(want[i as int] == candidate_id(entry@));
        let ghost before = out@;
        if event::verify_event(entry) {
            match event::parse_event(entry) {
                Some(record) => out.push(Some(record.id)),
                None => out.push(None),
            }
        } else {
            out.push(None);
        }
        proof {
            assert forall|j: int| 0 <= j < i + 1 implies #[trigger] id_texts(out@)[j]
                == want[j] by {
                if j < i {
                    assert(id_texts(before)[j] == want[j]);
                }
            }
        }
        i = i + 1;
    }
    assert(id_texts(out@) =~= want);
    out
}

proof fn no_error_without_candidates(
    ids: Seq<Option<Seq<char>>>,
    outcomes: Seq<Decryption>,
    n: int,
)
    requires
        0 <= n <= ids.len(),
        ids.len() == outcomes.len(),
        verified_count(ids.take(n)) > 0,
        forall|i: int| 0 <= i < n ==> !readable(ids, outcomes, i),
    ensures
        last_error(ids, outcomes, n) is Some,
    decreases n,
{
    if n > 0 {
        assert(ids.take(n).drop_last() =~= ids.take(n - 1));
        assert(!readable(ids, outcomes, n - 1));
        if !(ids[n - 1] is Some) {
            no_error_without_candidates(ids, outcomes, n - 1);
        }
    }
}

/// Decides what the scanned entries say of the core. `outcomes` holds what decrypting each entry
/// gave (entries that are no candidates are not looked at), and `head` the id of the event chosen
/// among the readable ones.
pub fn decode_scanned(
    ids: &Vec<Option<String>>,
    outcomes: &Vec<Decryption>,
    head: Option<&str>,
) -> (r: Result<Option<String>, String>)
    requires
        ids@.len() == outcomes@.len(),
    ensures
        body_text(r) == decoded(id_texts(ids@), outcomes@, text::opt(head)),
{
    let ghost model = id_texts(ids@);
    if ids.len() == 0 {
        return Ok(None);
    }
    let mut seen: usize = 0;
    let mut any_readable = false;
    let mut last: Option<&String> = None;
    let mut i: usize = 0;
    while i < ids.len()
        invariant
            i <= ids@.len(),
            ids@.len() == outcomes@.len(),
            model == id_texts(ids@),
            seen <= i,
            seen == verified_count(model.take(i as int)),
            any_readable == (exists|j: int| 0 <= j < i && readable(model, outcomes@, j)),
            (match last {
                Some(e) => Some(e@),
                None => None,
            }) == last_error(model, outcomes@, i as int),
        decreases ids@.len() - i,
    {
        proof {
            assert(model.take(i + 1).drop_last() =~= model.take(i as int));
            assert(model.take(i + 1).last() == model[i as int]);
        }
        if let Some(_id) = &ids[i] {
            seen = seen + 1;
            match &outcomes[i] {
                Ok(_body) => {
                    proof {
                        assert(readable(model, outcomes@, i as int));
                    }
                    any_readable = true;
                },
                Err(e) => {
                    last = Some(e);
                },
            }
        }
        i = i + 1;
    }
    assert(model.take(ids@.len() as int) =~= model);
    if any_readable {
        return match head {
            None => Ok(None),
            Some(h) => Ok(find_head(ids, outcomes, h)),
        };
    }
    if seen > 0 {
        proof {
            no_error_without_candidates(model, outcomes@, ids@.len() as int);
        }
        let mut reason = numeral::write_decimal(seen as u128);
        reason.append(
            " core candidate(s) returned but none decryptable                  (last error: ",
        );
        if let Some(e) = last {
            reason.append(e.as_str());
        }
        reason.append(")");
        return Err(reason);
    }
    Err("relay returned core candidate(s) that could not be parsed or verified".to_owned())
}

/// The entries that the head is to be chosen among, in order: the verified events that could be
/// decrypted, and no others.
pub fn readable_entries(ids: &Vec<Option<String>>, outcomes: &Vec<Decryption>) -> (r: Vec<usize>)
    requires
        ids@.len() == outcomes@.len(),
    ensures
        picks_readable(id_texts(ids@), outcomes@, r@),
{
    let ghost model = id_texts(ids@);
    let mut out: Vec<usize> = Vec::new();
    let mut i: usize = 0;
    while i < ids.len()
        invariant
            i <= ids@.len(),
            ids@.len() == outcomes@.len(),
            model == id_texts(ids@),
            forall|j: int| 0 <= j < out@.len() ==> #[trigger] out@[j] < i,
            forall|j: int, k: int| 0 <= j < k < out@.len() ==> out@[j] < out@[k],
            forall|n: usize|
                out@.contains(n) <==> n < i && readable(model, outcomes@, n as int),
        decreases ids@.len() - i,
    {
        let ghost before = out@;
        let take = ids[i].is_some() && outcomes[i].is_ok();
        assert(take == readable(model, outcomes@, i as int));
        if take {
            out.push(i);
        }
        proof {
            assert forall|n: usize|
                out@.contains(n) <==> n < i + 1 && readable(model, outcomes@, n as int) by {
                if before.contains(n) {
                    let at = choose|at: int| 0 <= at < before.len() && before[at] == n;
                    assert(out@[at] == n);
                }
                if take && n == i {
                    assert(out@[before.len() as int] == n);
                }
                if out@.contains(n) {
                    let at = choose|at: int| 0 <= at < out@.len() && out@[at] == n;
                    if at < before.len() {
                        assert(before[at] == n);
                    }
                }
            }
        }
        i = i + 1;
    }
    out
}

fn find_head(ids: &Vec<Option<String>>, outcomes: &Vec<Decryption>, head: &str) -> (r: Option<
    String,
>)
    requires
        ids@.len() == outcomes@.len(),
    ensures
        text::option_text(r) == head_profile(id_texts(ids@), outcomes@, head@, 0),
{
    let ghost model = id_texts(ids@);
    let mut i: usize = 0;
    while i < ids.len()
        invariant
            i <= ids@.len(),
            ids@.len() == outcomes@.len(),
            model == id_texts(ids@),
            head_profile(model, outcomes@, head@, 0) == head_profile(
                model,
                outcomes@,
                head@,
                i as int,
            ),
        decreases ids@.len() - i,
    {
        if let Some(id) = &ids[i] {
            if let Ok(body) = &outcomes[i] {
                if text::same_text(id.as_str(), head) {
                    return match body {
                        Body::Core { profile } => Some(profile.clone()),
                        Body::Memory { .. } => None,
                    };
                }
            }
        }
        i = i + 1;
    }
    None
}

/// Decides what the relay's entries say of the core: a profile, a confirmed absence, or an error
/// where entries came back that cannot be read.
pub fn decode_core_body(
    entries: &Vec<String>,
    outcomes: &Vec<Decryption>,
    head: Option<&str>,
) -> (r: Result<Option<String>, String>)
    requires
        entries@.len() == outcomes@.len(),
    ensures
        body_text(r) == decoded(
            candidate_ids(text::texts(entries@)),
            outcomes@,
            text::opt(head),
        ),
{
    let ids = scan_candidates(entries);
    proof {
        assert(id_texts(ids@).len() == candidate_ids(text::texts(entries@)).len());
    }
    decode_scanned(&ids, outcomes, head)
}

// ---- What the fetch promises ----

/// Stripping the header from a rendered section gives the profile back.
pub proof fn profile_round_trip(profile: Seq<char>)
    ensures
        profile_text(section_text(profile)) == profile,
{
    let s = section_text(profile);
    assert(s.take(header_text().len() as int) =~= header_text());
    assert(header_text().is_prefix_of(s));
    assert(s.skip(header_text().len() as int) =~= profile);
}

/// Entries of which none can be read never pass for an absent core: they are an error, and no
/// section is shown.
pub proof fn unreadable_is_not_absent(
    ids: Seq<Option<Seq<char>>>,
    outcomes: Seq<Decryption>,
    head: Option<Seq<char>>,
)
    requires
        ids.len() == outcomes.len(),
        ids.len() > 0,
        !some_readable(ids, outcomes),
    ensures
        decoded(ids, outcomes, head) is Err,
        fetched(decoded(ids, outcomes, head)) is Failed,
        spawn_section(fetched(decoded(ids, outcomes, head))) is None,
{
}

/// The nudge is shown exactly where the relay's answer was read and holds no core: an empty reply,
/// or one in which some entry can be read and the chosen head is no core.
pub proof fn absence_is_confirmed(
    ids: Seq<Option<Seq<char>>>,
    outcomes: Seq<Decryption>,
    head: Option<Seq<char>>,
)
    requires
        ids.len() == outcomes.len(),
    ensures
        fetched(decoded(ids, outcomes, head)) is Absent <==> {
            ||| ids.len() == 0
            ||| some_readable(ids, outcomes) && (head is None || head_profile(
                ids,
                outcomes,
                head->0,
                0,
            ) is None)
        },
{
}

/// A query that failed, or brought back no list, is never an absence: no section is shown.
pub proof fn relay_failure_shows_nothing(reply: Result<Seq<char>, Seq<char>>)
    ensures
        reply_entries(reply) is Err <==> (reply is Err || json::array_elements(reply->Ok_0) is None),
        reply_entries(reply) matches Err(reason) ==> {
            &&& fetched(Err(reason)) == FetchView::Failed(reason)
            &&& spawn_section(fetched(Err(reason))) is None
        },
{
}

proof fn head_was_read(
    ids: Seq<Option<Seq<char>>>,
    outcomes: Seq<Decryption>,
    head: Seq<char>,
    from: int,
)
    requires
        0 <= from,
        head_profile(ids, outcomes, head, from) is Some,
    ensures
        exists|i: int|
            from <= i && readable(ids, outcomes, i) && ids[i]->0 == head && core_profile(
                outcomes[i]->Ok_0,
            ) == head_profile(ids, outcomes, head, from),
    decreases ids.len() - from,
{
    if from < ids.len() && !(readable(ids, outcomes, from) && ids[from]->0 == head) {
        head_was_read(ids, outcomes, head, from + 1);
    }
}

/// A core is shown only where an event that verifies was decrypted to it, and that event is the
/// chosen head.
pub proof fn shown_core_was_read(
    ids: Seq<Option<Seq<char>>>,
    outcomes: Seq<Decryption>,
    head: Option<Seq<char>>,
    profile: Seq<char>,
)
    requires
        ids.len() == outcomes.len(),
        decoded(ids, outcomes, head) == Ok::<Option<Seq<char>>, Seq<char>>(Some(profile)),
    ensures
        exists|i: int|
            readable(ids, outcomes, i) && ids[i] == head && core_profile(outcomes[i]->Ok_0) == Some(
                profile,
            ),
{
    head_was_read(ids, outcomes, head->0, 0);
}

proof fn head_is_found(
    ids: Seq<Option<Seq<char>>>,
    outcomes: Seq<Decryption>,
    head: Seq<char>,
    from: int,
    at: int,
)
    requires
        0 <= from <= at,
        readable(ids, outcomes, at),
        ids[at]->0 == head,
    ensures
        exists|i: int|
            readable(ids, outcomes, i) && ids[i]->0 == head && core_profile(outcomes[i]->Ok_0)
                == head_profile(ids, outcomes, head, from),
    decreases at - from,
{
    if !(readable(ids, outcomes, from) && ids[from]->0 == head) {
        head_is_found(ids, outcomes, head, from + 1, at);
    }
}

/// A head that was chosen among the readable entries is answered by a decrypted event of that id:
/// its profile is shown, and an absence is reported only where that event is no core. An entry
/// that cannot be read is never taken for an absence.
pub proof fn readable_head_decides(
    ids: Seq<Option<Seq<char>>>,
    outcomes: Seq<Decryption>,
    at: int,
)
    requires
        ids.len() == outcomes.len(),
        readable(ids, outcomes, at),
    ensures
        exists|i: int|
            readable(ids, outcomes, i) && ids[i] == ids[at] && decoded(ids, outcomes, ids[at]) == Ok::<
                Option<Seq<char>>,
                Seq<char>,
            >(core_profile(outcomes[i]->Ok_0)),
{
    head_is_found(ids, outcomes, ids[at]->0, 0, at);
}

/// The entries at the places `picked`.
pub open spec fn picked_ids(ids: Seq<Option<Seq<char>>>, picked: Seq<usize>) -> Seq<
    Option<Seq<char>>,
> {
    picked.map_values(|i: usize| ids[i as int])
}

/// What decrypting the entries at the places `picked` gave.
pub open spec fn picked_outcomes(outcomes: Seq<Decryption>, picked: Seq<usize>) -> Seq<
    Decryption,
> {
    picked.map_values(|i: usize| outcomes[i as int])
}

proof fn head_among_picked(
    ids: Seq<Option<Seq<char>>>,
    outcomes: Seq<Decryption>,
    picked: Seq<usize>,
    head: Seq<char>,
    from: int,
    at: int,
)
    requires
        ids.len() == outcomes.len(),
        ids.len() <= usize::MAX,
        picks_readable(ids, outcomes, picked),
        0 <= from <= ids.len(),
        0 <= at <= picked.len(),
        forall|j: int| 0 <= j < at ==> #[trigger] picked[j] < from,
        forall|j: int| at <= j < picked.len() ==> #[trigger] picked[j] >= from,
    ensures
        head_profile(ids, outcomes, head, from) == head_profile(
            picked_ids(ids, picked),
            picked_outcomes(outcomes, picked),
            head,
            at,
        ),
    decreases ids.len() - from,
{
    let kept = picked_ids(ids, picked);
    let read = picked_outcomes(outcomes, picked);
    if at < picked.len() {
        assert(picked.contains(picked[at]));
        assert(readable(ids, outcomes, picked[at] as int));
        assert(readable(kept, read, at));
    }
    if from < ids.len() {
        let here = from as usize;
        if readable(ids, outcomes, here as int) {
            assert(picked.contains(here));
            let j = choose|j: int| 0 <= j < picked.len() && picked[j] == here;
            assert(at <= j);
            assert(picked[at] == here);
            if ids[from]->0 != head {
                head_among_picked(ids, outcomes, picked, head, from + 1, at + 1);
            }
        } else {
            if at < picked.len() {
                assert(picked[at] != here);
            }
            assert forall|j: int| at <= j < picked.len() implies #[trigger] picked[j] >= from
                + 1 by {
                assert(picked.contains(picked[j]));
            }
            head_among_picked(ids, outcomes, picked, head, from + 1, at);
        }
    }
}

/// Entries that cannot be read make no difference once one can: without them the reply says the
/// same of the core.
pub proof fn unreadable_entries_do_not_matter(
    ids: Seq<Option<Seq<char>>>,
    outcomes: Seq<Decryption>,
    picked: Seq<usize>,
    head: Option<Seq<char>>,
)
    requires
        ids.len() == outcomes.len(),
        ids.len() <= usize::MAX,
        picks_readable(ids, outcomes, picked),
        some_readable(ids, outcomes),
    ensures
        decoded(picked_ids(ids, picked), picked_outcomes(outcomes, picked), head) == decoded(
            ids,
            outcomes,
            head,
        ),
{
    let i = choose|i: int| readable(ids, outcomes, i);
    assert(picked.contains(i as usize));
    assert(picked.contains(picked[0]));
    assert(readable(picked_ids(ids, picked), picked_outcomes(outcomes, picked), 0));
    if let Some(h) = head {
        head_among_picked(ids, outcomes, picked, h, 0, 0);
    }
}

/// Every section begins with the same line, and the body follows it.
pub proof fn section_is_header_then_body(body: Seq<char>)
    ensures
        section_text(body) == "[Agent Memory \u{2014} core]\n"@ + body,
{
    reveal_strlit("[");
    reveal_strlit("Agent Memory \u{2014} core");
    reveal_strlit("]\n");
    reveal_strlit("[Agent Memory \u{2014} core]\n");
    assert(header_text() =~= "[Agent Memory \u{2014} core]\n"@);
}

/// An agent that has a core is shown it: the section of a new session is the header line and
/// exactly the profile, whatever the profile says.
pub proof fn session_shows_the_core(profile: Seq<char>)
    ensures
        spawn_section(fetched(Ok(Some(profile)))) == Some(
            "[Agent Memory \u{2014} core]\n"@ + profile,
        ),
{
    section_is_header_then_body(profile);
}

/// The nudge is for a confirmed absence: then it is shown, after a failure nothing is shown, and in
/// the place of a core it never stands, unless the core itself reads so.
pub proof fn nudge_is_for_absence(fetch: FetchView, profile: Seq<char>, reason: Seq<char>)
    ensures
        spawn_section(FetchView::Absent) == Some(
            "[Agent Memory \u{2014} core]\n"@ + ONBOARDING_NUDGE@,
        ),
        spawn_section(fetch) is None <==> fetch is Failed,
        spawn_section(FetchView::Section(profile)) == Some(profile),
        spawn_section(fetched(Ok(Some(profile)))) == spawn_section(FetchView::Absent) ==> profile
            == ONBOARDING_NUDGE@,
        fetched(Ok(None)) is Absent,
        fetched(Err(reason)) == FetchView::Failed(reason),
        fetched(Ok(Some(profile))) is Section,
{
    section_is_header_then_body(ONBOARDING_NUDGE@);
    section_is_header_then_body(profile);
    profile_round_trip(profile);
    profile_round_trip(ONBOARDING_NUDGE@);
}

/// Only the header line is ever stripped: what stands behind it comes back whole, and text without
/// it comes back as it is.
pub proof fn header_comes_off_whole(section: Seq<char>, body: Seq<char>)
    ensures
        section == "[Agent Memory \u{2014} core]\n"@ + body ==> profile_text(section) == body,
        !("[Agent Memory \u{2014} core]\n"@.is_prefix_of(section)) ==> profile_text(section)
            == section,
{
    section_is_header_then_body(body);
    section_is_header_then_body(Seq::<char>::empty());
    assert("[Agent Memory \u{2014} core]\n"@ =~= header_text()) by {
        assert(header_text() + Seq::<char>::empty() =~= header_text());
        assert("[Agent Memory \u{2014} core]\n"@ + Seq::<char>::empty()
            =~= "[Agent Memory \u{2014} core]\n"@);
    }
    text::prefix_comes_off(section, header_text(), body);
}

/// A reply without entries is the relay's word that there is no core.
pub proof fn empty_reply_is_absence(outcomes: Seq<Decryption>, head: Option<Seq<char>>)
    ensures
        decoded(Seq::empty(), outcomes, head) == Ok::<Option<Seq<char>>, Seq<char>>(None),
{
}

/// The chosen head speaks for the agent: of the entries with its id, the first that is verified and
/// decrypted says what the core is, or that there is none.
pub proof fn head_speaks(ids: Seq<Option<Seq<char>>>, outcomes: Seq<Decryption>, at: int)
    requires
        ids.len() == outcomes.len(),
        0 <= at < ids.len(),
        ids[at] is Some,
        outcomes[at] is Ok,
        forall|i: int| 0 <= i < at && #[trigger] ids[i] == ids[at] ==> outcomes[i] is Err,
    ensures
        outcomes[at] matches Ok(Body::Core { profile }) ==> decoded(ids, outcomes, ids[at]) == Ok::<
            Option<Seq<char>>,
            Seq<char>,
        >(Some(profile@)),
        outcomes[at] matches Ok(Body::Memory { .. }) ==> decoded(ids, outcomes, ids[at]) == Ok::<
            Option<Seq<char>>,
            Seq<char>,
        >(None),
{
    assert(readable(ids, outcomes, at));
    first_match_is_taken(ids, outcomes, at, 0);
}

proof fn first_match_is_taken(
    ids: Seq<Option<Seq<char>>>,
    outcomes: Seq<Decryption>,
    at: int,
    from: int,
)
    requires
        ids.len() == outcomes.len(),
        0 <= from <= at,
        readable(ids, outcomes, at),
        forall|i: int| 0 <= i < at && #[trigger] ids[i] == ids[at] ==> outcomes[i] is Err,
    ensures
        head_profile(ids, outcomes, ids[at]->0, from) == core_profile(outcomes[at]->Ok_0),
    decreases at - from,
{
    if from < at {
        if readable(ids, outcomes, from) && ids[from]->0 == ids[at]->0 {
            assert(ids[from] == ids[at]);
        }
        first_match_is_taken(ids, outcomes, at, from + 1);
    }
}

/// Where something could be read, a head that is no readable entry, or no head, is no core.
pub proof fn unknown_head_is_no_core(
    ids: Seq<Option<Seq<char>>>,
    outcomes: Seq<Decryption>,
    head: Option<Seq<char>>,
    some: int,
)
    requires
        ids.len() == outcomes.len(),
        0 <= some < ids.len(),
        ids[some] is Some,
        outcomes[some] is Ok,
        head is None || forall|i: int|
            0 <= i < ids.len() && #[trigger] ids[i] == head ==> outcomes[i] is Err,
    ensures
        decoded(ids, outcomes, head) == Ok::<Option<Seq<char>>, Seq<char>>(None),
{
    assert(readable(ids, outcomes, some));
    if head is Some && head_profile(ids, outcomes, head->0, 0) is Some {
        head_was_read(ids, outcomes, head->0, 0);
        let i = choose|i: int|
            0 <= i && readable(ids, outcomes, i) && ids[i]->0 == head->0 && core_profile(
                outcomes[i]->Ok_0,
            ) == head_profile(ids, outcomes, head->0, 0);
        assert(ids[i] == head);
    }
}

proof fn verified_are_counted(ids: Seq<Option<Seq<char>>>)
    ensures
        verified_count(ids) == ids.filter(|id: Option<Seq<char>>| id is Some).len(),
    decreases ids.len(),
{
    let verified = |id: Option<Seq<char>>| id is Some;
    reveal(Seq::filter);
    if ids.len() > 0 {
        verified_are_counted(ids.drop_last());
    }
}

proof fn last_error_is_told(
    ids: Seq<Option<Seq<char>>>,
    outcomes: Seq<Decryption>,
    last: int,
    n: int,
)
    requires
        ids.len() == outcomes.len(),
        0 <= last < n <= ids.len(),
        ids[last] is Some,
        outcomes[last] is Err,
        forall|i: int| last < i < ids.len() ==> #[trigger] ids[i] is None,
    ensures
        last_error(ids, outcomes, n) == Some(outcomes[last]->Err_0@),
    decreases n,
{
    if n - 1 > last {
        assert(ids[n - 1] is None);
        last_error_is_told(ids, outcomes, last, n - 1);
    }
}

/// Verified events of which none could be decrypted are an error, which tells how many there were
/// and why the last of them could not be.
pub proof fn undecryptable_reply_is_told(
    ids: Seq<Option<Seq<char>>>,
    outcomes: Seq<Decryption>,
    head: Option<Seq<char>>,
    last: int,
)
    requires
        ids.len() == outcomes.len(),
        0 <= last < ids.len(),
        ids[last] is Some,
        forall|i: int| 0 <= i < ids.len() && #[trigger] ids[i] is Some ==> outcomes[i] is Err,
        forall|i: int| last < i < ids.len() ==> #[trigger] ids[i] is None,
    ensures
        decoded(ids, outcomes, head) == Err::<Option<Seq<char>>, Seq<char>>(
            numeral::decimal(ids.filter(|id: Option<Seq<char>>| id is Some).len())
                + " core candidate(s) returned but none decryptable                  (last error: "@
                + outcomes[last]->Err_0@ + ")"@,
        ),
{
    verified_are_counted(ids);
    last_error_is_told(ids, outcomes, last, ids.len() as int);
    assert(ids.filter(|id: Option<Seq<char>>| id is Some).len() > 0) by {
        some_is_counted(ids, last);
    }
    if some_readable(ids, outcomes) {
        let i = choose|i: int| readable(ids, outcomes, i);
        assert(ids[i] is Some);
    }
}

proof fn some_is_counted(ids: Seq<Option<Seq<char>>>, at: int)
    requires
        0 <= at < ids.len(),
        ids[at] is Some,
    ensures
        verified_count(ids) > 0,
        ids.filter(|id: Option<Seq<char>>| id is Some).len() > 0,
    decreases ids.len(),
{
    verified_are_counted(ids);
    if at < ids.len() - 1 {
        some_is_counted(ids.drop_last(), at);
    }
}

/// Entries of which none is a verified event are an error of their own.
pub proof fn unverified_reply_is_told(
    ids: Seq<Option<Seq<char>>>,
    outcomes: Seq<Decryption>,
    head: Option<Seq<char>>,
)
    requires
        ids.len() > 0,
        forall|i: int| 0 <= i < ids.len() ==> #[trigger] ids[i] is None,
    ensures
        decoded(ids, outcomes, head) == Err::<Option<Seq<char>>, Seq<char>>(
            "relay returned core candidate(s) that could not be parsed or verified"@,
        ),
{
    none_is_counted(ids);
}

proof fn none_is_counted(ids: Seq<Option<Seq<char>>>)
    requires
        forall|i: int| 0 <= i < ids.len() ==> #[trigger] ids[i] is None,
    ensures
        verified_count(ids) == 0,
    decreases ids.len(),
{
    if ids.len() > 0 {
        let init = ids.drop_last();
        assert forall|i: int| 0 <= i < init.len() implies #[trigger] init[i] is None by {
            assert(init[i] == ids[i]);
        }
        none_is_counted(init);
        assert(ids[ids.len() - 1] is None);
    }
}

/// An entry counts by its own id where it is an event that verifies, and not at all otherwise.
pub proof fn candidates_are_verified_events(entries: Seq<Seq<char>>, i: int)
    requires
        0 <= i < entries.len(),
    ensures
        candidate_ids(entries).len() == entries.len(),
        candidate_ids(entries)[i] is Some <==> event::event_verifies(entries[i]),
        candidate_ids(entries)[i] matches Some(id) ==> id == event::event_of(entries[i])->0.id,
{
}

/// The entries of a reply are the elements of its list; the error of a reply without one says what
/// went wrong.
pub proof fn reply_is_its_list(reply: Seq<char>, error: Seq<char>, entries: Seq<Seq<char>>)
    ensures
        reply_entries(Ok(reply)) == Ok::<Seq<Seq<char>>, Seq<char>>(entries)
            <==> json::array_elements(reply) == Some(entries),
        json::array_elements(reply) is None ==> reply_entries(Ok(reply)) == Err::<
            Seq<Seq<char>>,
            Seq<char>,
        >("relay query returned non-array"@),
        reply_entries(Err(error)) == Err::<Seq<Seq<char>>, Seq<char>>(
            "relay query failed: "@ + error,
        ),
{
}

/// Results are taken by what they hold.
pub proof fn results_are_seen_whole(
    body: Result<Option<String>, String>,
    fetch: CoreFetch,
    ids: Seq<Option<String>>,
    i: int,
)
    ensures
        body matches Ok(Some(p)) ==> body_text(body) == Ok::<Option<Seq<char>>, Seq<char>>(
            Some(p@),
        ),
        body matches Ok(None) ==> body_text(body) == Ok::<Option<Seq<char>>, Seq<char>>(None),
        body matches Err(e) ==> body_text(body) == Err::<Option<Seq<char>>, Seq<char>>(e@),
        fetch matches CoreFetch::Section(s) ==> fetch@ == FetchView::Section(s@),
        fetch matches CoreFetch::Absent ==> fetch@ == FetchView::Absent,
        fetch matches CoreFetch::Failed(s) ==> fetch@ == FetchView::Failed(s@),
        id_texts(ids).len() == ids.len(),
        0 <= i < ids.len() ==> id_texts(ids)[i] == text::option_text(ids[i]),
{
}

/// The twelve digits of a profile are the first ones of its digest, two for each of its first six
/// bytes.
pub proof fn hash_is_the_digest_begun(profile: Seq<char>)
    ensures
        ({
            let d = digest::sha256_of(vstd::utf8::encode_utf8(profile));
            d.len() >= 6 ==> digest::hex_of(d).take(12) == digest::hex_of(d.take(6))
        }),
{
    let d = digest::sha256_of(vstd::utf8::encode_utf8(profile));
    if d.len() >= 6 {
        digest::bytes_are_written_in_turn(d.take(6), d.skip(6), 0);
        assert(d =~= d.take(6) + d.skip(6));
        assert(digest::hex_of(d).take(12) =~= digest::hex_of(d.take(6)));
    }
}

} // verus!
