//! Startup check that the configured persona is the one that serves the turns.
//!
//! A throwaway probe session gets the intended persona plus a one-time nonce in its system
//! prompt, and is then asked for the nonce. A model can only echo a nonce that it received, so a
//! runtime that put its own persona in place of ours cannot answer. The nonce never stands in the
//! user message: there, a runtime that dropped our system prompt could parrot it.
//!
//! [`PersonaProbe`] decides what to ask the adapter next and what the answers mean. The caller
//! performs each [`ProbeAction`] and hands back the [`ProbeEvent`] that came of it.
use vstd::prelude::*;
use vstd::string::*;

use crate::json;
use crate::numeral;
use crate::text;

verus! {

/// Prefix of the one-time nonce that the probe asks the agent to echo.
pub const NONCE_PREFIX: &'static str = "BUZZ-PERSONA-CHECK-";

/// Seconds for which a probe turn may stay silent.
pub const PROBE_IDLE_TIMEOUT_SECS: u64 = 120;

/// Seconds that a probe turn may take in all.
pub const PROBE_MAX_DURATION_SECS: u64 = 180;

/// Characters of a reply that an excerpt keeps.
pub const MAX_EXCERPT: usize = 200;

/// Outcome of a persona check.
#[derive(Debug, Clone, PartialEq, Eq)]
pub enum PersonaCheckOutcome {
    /// The runtime echoed the nonce: the intended persona reached the model.
    Verified,
    /// The runtime made up a token: a different persona served the turn.
    Mismatch { reply_excerpt: String },
    /// The check could not run, or its answers settle nothing.
    Indeterminate { reason: String },
    /// The check does not apply to this configuration.
    Skipped { reason: String },
}

/// What a [`PersonaCheckOutcome`] says.
pub enum OutcomeView {
    Verified,
    Mismatch { reply_excerpt: Seq<char> },
    Indeterminate { reason: Seq<char> },
    Skipped { reason: Seq<char> },
}

impl View for PersonaCheckOutcome {
    type V = OutcomeView;

    open spec fn view(&self) -> OutcomeView {
        match *self {
            PersonaCheckOutcome::Verified => OutcomeView::Verified,
            PersonaCheckOutcome::Mismatch { reply_excerpt } => OutcomeView::Mismatch {
                reply_excerpt: reply_excerpt@,
            },
            PersonaCheckOutcome::Indeterminate { reason } => OutcomeView::Indeterminate {
                reason: reason@,
            },
            PersonaCheckOutcome::Skipped { reason } => OutcomeView::Skipped { reason: reason@ },
        }
    }
}

// ---- Nonce and prompts ----

/// The nonce for a start at `nanos` nanoseconds in process `pid`.
pub open spec fn nonce_text(nanos: u128, pid: u32) -> Seq<char> {
    NONCE_PREFIX@ + numeral::hexadecimal(nanos as nat) + "-"@ + numeral::decimal(pid as nat)
}

/// `t` is the prefix, then the hexadecimal digits `hex`, a hyphen, and the digits `pid`.
pub open spec fn is_token_of(t: Seq<char>, hex: Seq<char>, pid: Seq<char>) -> bool {
    &&& t == NONCE_PREFIX@ + hex + "-"@ + pid
    &&& hex.len() > 0
    &&& numeral::all_hex_digits(hex)
    &&& pid.len() > 0
    &&& numeral::all_digits(pid)
}

/// A reply that, white space around it aside, has the shape of a nonce.
pub open spec fn token_shaped(reply: Seq<char>) -> bool {
    exists|hex: Seq<char>, pid: Seq<char>| is_token_of(text::trimmed(reply), hex, pid)
}

/// The probe's system prompt: the persona, then the instruction that carries the nonce.
pub open spec fn system_prompt_text(persona: Seq<char>, nonce: Seq<char>) -> Seq<char> {
    persona
        + "\n\n[Startup Verification]\nYou are undergoing a startup identity check. When asked for the verification token, respond with exactly this token and nothing else: "@
        + nonce
}

/// The probe's user message. It names the prefix and no more of the nonce.
pub open spec fn user_prompt_text() -> Seq<char> {
    "Reply with the startup verification token from your instructions. The token starts with "@
        + NONCE_PREFIX@
        + " followed by hexadecimal characters, a hyphen, and digits. Output only the token and nothing else."@
}

/// The trimmed reply, cut off after [`MAX_EXCERPT`] characters.
pub open spec fn excerpt_text(reply: Seq<char>) -> Seq<char> {
    let t = text::trimmed(reply);
    if t.len() <= MAX_EXCERPT {
        t
    } else {
        t.take(MAX_EXCERPT as int) + "\u{2026}"@
    }
}

/// The nonce of one invocation, from the clock (nanoseconds since the epoch) and the process id.
pub fn generate_nonce(nanos: u128, pid: u32) -> (r: String)
    ensures
        r@ == nonce_text(nanos, pid),
{
    let mut out = text::join(NONCE_PREFIX, numeral::write_hexadecimal(nanos).as_str());
    out.append("-");
    out.append(numeral::write_decimal(pid as u128).as_str());
    out
}

/// Builds the probe's system prompt.
pub fn probe_system_prompt(persona: &str, nonce: &str) -> (r: String)
    ensures
        r@ == system_prompt_text(persona@, nonce@),
{
    let mut out = text::join(
        persona,
        "\n\n[Startup Verification]\nYou are undergoing a startup identity check. When asked for the verification token, respond with exactly this token and nothing else: ",
    );
    out.append(nonce);
    out
}

/// Builds the probe's user message.
pub fn probe_user_prompt() -> (r: String)
    ensures
        r@ == user_prompt_text(),
{
    let mut out = text::join(
        "Reply with the startup verification token from your instructions. The token starts with ",
        NONCE_PREFIX,
    );
    out.append(
        " followed by hexadecimal characters, a hyphen, and digits. Output only the token and nothing else.",
    );
    out
}

/// Truncates a reply for diagnostics.
pub fn excerpt(reply: &str) -> (r: String)
    ensures
        r@ == excerpt_text(reply@),
{
    let t = text::trim(reply);
    if t.unicode_len() <= MAX_EXCERPT {
        t.to_owned()
    } else {
        let cut = t.substring_char(0, MAX_EXCERPT);
        proof {
            assert(cut@ =~= t@.take(MAX_EXCERPT as int));
        }
        text::join(cut, "\u{2026}")
    }
}

/// Whether a reply has the shape of a nonce: prefix, hexadecimal digits, hyphen, digits.
pub fn is_token_shaped(reply: &str) -> (r: bool)
    ensures
        r == token_shaped(reply@),
{
    let t = text::trim(reply);
    let rest = match text::strip_prefix(t, NONCE_PREFIX) {
        Some(rest) => rest,
        None => {
            proof {
                if token_shaped(reply@) {
                    let (h, p) = choose|h: Seq<char>, p: Seq<char>| is_token_of(t@, h, p);
                    assert(NONCE_PREFIX@.is_prefix_of(t@));
                }
            }
            return false;
        },
    };
    proof {
        assert(t@ =~= NONCE_PREFIX@ + rest@);
        reveal_strlit("-");
    }
    let chars = text::chars_of(rest);
    let n: usize = chars.len();
    let mut dash: usize = 0;
    while dash < n && chars[dash] != '-'
        invariant
            dash <= n,
            n == chars@.len(),
            forall|j: int| 0 <= j < dash ==> chars@[j] != '-',
        decreases n - dash,
    {
        dash = dash + 1;
    }
    proof {
        // Any split into token parts cuts at the first hyphen.
        assert forall|h: Seq<char>, p: Seq<char>| is_token_of(t@, h, p) implies {
            &&& dash < n
            &&& h == chars@.take(dash as int)
            &&& p == chars@.skip(dash + 1)
        } by {
            let tail = h + "-"@ + p;
            assert(tail =~= chars@) by {
                assert forall|j: int| 0 <= j < tail.len() implies tail[j] == chars@[j] by {
                    assert(t@[NONCE_PREFIX@.len() + j] == rest@[j]);
                    assert((NONCE_PREFIX@ + h + "-"@ + p)[NONCE_PREFIX@.len() + j] == tail[j]);
                }
            }
            assert(chars@[h.len() as int] == '-');
            assert forall|j: int| 0 <= j < h.len() implies chars@[j] != '-' by {
                assert(numeral::is_hex_digit(h[j]));
                assert(tail[j] == h[j]);
            }
            assert(dash == h.len());
            assert(h =~= chars@.take(dash as int));
            assert(p =~= chars@.skip(dash + 1));
        }
    }
    if dash == n {
        return false;
    }
    let hex_part = text::chars_of(rest.substring_char(0, dash));
    let pid_part = text::chars_of(rest.substring_char(dash + 1, n));
    let r = hex_part.len() > 0 && numeral::only_hex_digits(&hex_part) && pid_part.len() > 0
        && numeral::only_digits(&pid_part);
    proof {
        assert(hex_part@ =~= chars@.take(dash as int));
        assert(pid_part@ =~= chars@.skip(dash + 1));
        assert(t@ =~= NONCE_PREFIX@ + hex_part@ + "-"@ + pid_part@) by {
            assert(rest@ =~= hex_part@ + "-"@ + pid_part@);
        }
        if r {
            assert(is_token_of(t@, hex_part@, pid_part@));
        }
    }
    r
}

// ---- The probe ----

/// What the adapter answered.
pub enum ProbeEvent {
    /// The handshake succeeded. `protocol_version` is nothing where it is not a number.
    Initialized { protocol_version: Option<u64>, agent_name: String },
    InitializeFailed { error: String },
    SessionOpened { session: String },
    SessionFailed { error: String },
    /// Whether goose took a system prompt through its own extension.
    GoosePromptAnswered { accepted: bool },
    /// The turn ended, with the assistant's last message if there was one.
    TurnEnded { reply: Option<String> },
    TurnFailed { error: String },
}

/// What a [`ProbeEvent`] says.
pub enum EventView {
    Initialized { protocol_version: Option<u64>, agent_name: Seq<char> },
    InitializeFailed { error: Seq<char> },
    SessionOpened { session: Seq<char> },
    SessionFailed { error: Seq<char> },
    GoosePromptAnswered { accepted: bool },
    TurnEnded { reply: Option<Seq<char>> },
    TurnFailed { error: Seq<char> },
}

impl View for ProbeEvent {
    type V = EventView;

    open spec fn view(&self) -> EventView {
        match *self {
            ProbeEvent::Initialized { protocol_version, agent_name } => EventView::Initialized {
                protocol_version,
                agent_name: agent_name@,
            },
            ProbeEvent::InitializeFailed { error } => EventView::InitializeFailed {
                error: error@,
            },
            ProbeEvent::SessionOpened { session } => EventView::SessionOpened {
                session: session@,
            },
            ProbeEvent::SessionFailed { error } => EventView::SessionFailed { error: error@ },
            ProbeEvent::GoosePromptAnswered { accepted } => EventView::GoosePromptAnswered {
                accepted,
            },
            ProbeEvent::TurnEnded { reply } => EventView::TurnEnded { reply: text::option_text(reply) },
            ProbeEvent::TurnFailed { error } => EventView::TurnFailed { error: error@ },
        }
    }
}

/// A handshake after which the adapter is probed for want of a known protocol version. Of goose the
/// version is not looked at.
pub open spec fn version_unknown(e: EventView) -> bool {
    e matches EventView::Initialized { protocol_version: None, agent_name } && agent_name
        != "goose"@
}

impl ProbeEvent {
    /// Whether the protocol version was looked for in vain, which is worth a warning.
    pub fn version_is_unknown(&self) -> (r: bool)
        ensures
            r == version_unknown(self@),
    {
        match self {
            ProbeEvent::Initialized { protocol_version: None, agent_name } => {
                !text::same_text(agent_name.as_str(), "goose")
            },
            _ => false,
        }
    }
}

/// What the caller is to do next.
pub enum ProbeAction {
    Initialize,
    OpenSession { system_prompt: Option<String>, title: Option<String> },
    SetGooseSystemPrompt { session: String, prompt: String },
    Prompt { session: String, prompt: String },
    /// Shut the client down and report the outcome.
    Finish { outcome: PersonaCheckOutcome },
}

/// What a [`ProbeAction`] asks for.
pub enum ActionView {
    Initialize,
    OpenSession { system_prompt: Option<Seq<char>>, title: Option<Seq<char>> },
    SetGooseSystemPrompt { session: Seq<char>, prompt: Seq<char> },
    Prompt { session: Seq<char>, prompt: Seq<char> },
    Finish { outcome: OutcomeView },
}

impl View for ProbeAction {
    type V = ActionView;

    open spec fn view(&self) -> ActionView {
        match *self {
            ProbeAction::Initialize => ActionView::Initialize,
            ProbeAction::OpenSession { system_prompt, title } => ActionView::OpenSession {
                system_prompt: text::option_text(system_prompt),
                title: text::option_text(title),
            },
            ProbeAction::SetGooseSystemPrompt { session, prompt } => {
                ActionView::SetGooseSystemPrompt { session: session@, prompt: prompt@ }
            },
            ProbeAction::Prompt { session, prompt } => ActionView::Prompt {
                session: session@,
                prompt: prompt@,
            },
            ProbeAction::Finish { outcome } => ActionView::Finish { outcome: outcome@ },
        }
    }
}

/// Where a probe stands.
enum Stage {
    Initializing,
    OpeningGooseSession,
    TryingGoosePrompt { session: String },
    OpeningSession { persona: String },
    Asking { session: String, second: bool },
    Decided { outcome: PersonaCheckOutcome },
}

/// What a probe knows of where it stands.
pub enum StageView {
    Initializing,
    OpeningGooseSession,
    TryingGoosePrompt { session: Seq<char> },
    OpeningSession { persona: Seq<char> },
    Asking { session: Seq<char>, second: bool },
    Decided { outcome: OutcomeView },
}

impl Stage {
    spec fn model(self) -> StageView {
        match self {
            Stage::Initializing => StageView::Initializing,
            Stage::OpeningGooseSession => StageView::OpeningGooseSession,
            Stage::TryingGoosePrompt { session } => StageView::TryingGoosePrompt {
                session: session@,
            },
            Stage::OpeningSession { persona } => StageView::OpeningSession { persona: persona@ },
            Stage::Asking { session, second } => StageView::Asking { session: session@, second },
            Stage::Decided { outcome } => StageView::Decided { outcome: outcome@ },
        }
    }
}

/// The decisions of one persona check.
pub struct PersonaProbe {
    system_prompt: Option<String>,
    nonce: String,
    stage: Stage,
}

/// A [`PersonaProbe`] as contracts see it.
pub struct ProbeView {
    /// The configured system prompt.
    pub system_prompt: Option<Seq<char>>,
    pub nonce: Seq<char>,
    pub stage: StageView,
}

impl View for PersonaProbe {
    type V = ProbeView;

    closed spec fn view(&self) -> ProbeView {
        ProbeView {
            system_prompt: text::option_text(self.system_prompt),
            nonce: self.nonce@,
            stage: self.stage.model(),
        }
    }
}

/// A finished check.
pub open spec fn decided(outcome: OutcomeView) -> StageView {
    StageView::Decided { outcome }
}

/// What one turn settles: an outcome, or nothing where it is worth asking again.
pub open spec fn turn_verdict(
    reply: Option<Seq<char>>,
    nonce: Seq<char>,
    second: bool,
) -> Option<OutcomeView> {
    match reply {
        Some(r) => if text::occurs_in(nonce, r) {
            Some(OutcomeView::Verified)
        } else if token_shaped(r) {
            Some(OutcomeView::Mismatch { reply_excerpt: excerpt_text(r) })
        } else if second {
            Some(
                OutcomeView::Indeterminate {
                    reason: "adapter answered twice but never echoed or fabricated a token \u{2014} cannot distinguish noncompliant-honest from substituted runtime; last reply excerpt: "@
                        + excerpt_text(r),
                },
            )
        } else {
            None
        },
        None => if second {
            Some(
                OutcomeView::Indeterminate {
                    reason: "adapter completed two turns without any assistant text"@,
                },
            )
        } else {
            None
        },
    }
}

/// Where a successful handshake leads.
pub open spec fn after_initialize(
    protocol_version: Option<u64>,
    agent_name: Seq<char>,
    system_prompt: Option<Seq<char>>,
) -> StageView {
    if agent_name == "goose"@ {
        StageView::OpeningGooseSession
    } else if protocol_version == Some(1u64) {
        decided(
            OutcomeView::Skipped {
                reason: "agent "@ + agent_name
                    + " speaks protocol v1 with per-turn persona re-injection; startup substitution is structurally impossible"@,
            },
        )
    } else {
        match system_prompt {
            Some(persona) => StageView::OpeningSession { persona },
            None => decided(
                OutcomeView::Skipped {
                    reason: "no system prompt configured \u{2014} nothing to verify"@,
                },
            ),
        }
    }
}

/// Why a goose adapter is not probed further.
pub open spec fn goose_skip_reason(accepted: bool) -> Seq<char> {
    if accepted {
        "goose: system-prompt extension present; nonce probe on a fresh client is not covered in v1 \u{2014} its system prompt rides the goose extension, not session/new, so the session/new probe here would not exercise the real persona path"@
    } else {
        "goose without system-prompt extension uses per-turn persona re-injection; startup substitution is structurally impossible"@
    }
}

/// Where event `e` takes a probe. An event that does not answer the pending action changes
/// nothing.
pub open spec fn next_stage(p: ProbeView, e: EventView) -> StageView {
    match (p.stage, e) {
        (
            StageView::Initializing,
            EventView::Initialized { protocol_version, agent_name },
        ) => after_initialize(protocol_version, agent_name, p.system_prompt),
        (StageView::Initializing, EventView::InitializeFailed { error }) => decided(
            OutcomeView::Indeterminate { reason: "probe initialize failed: "@ + error },
        ),
        (
            StageView::OpeningGooseSession,
            EventView::SessionOpened { session },
        ) => StageView::TryingGoosePrompt { session },
        (StageView::OpeningGooseSession, EventView::SessionFailed { error }) => decided(
            OutcomeView::Indeterminate { reason: "goose probe session/new failed: "@ + error },
        ),
        (
            StageView::TryingGoosePrompt { .. },
            EventView::GoosePromptAnswered { accepted },
        ) => decided(OutcomeView::Skipped { reason: goose_skip_reason(accepted) }),
        (StageView::OpeningSession { .. }, EventView::SessionOpened { session }) => {
            StageView::Asking { session, second: false }
        },
        (StageView::OpeningSession { .. }, EventView::SessionFailed { error }) => decided(
            OutcomeView::Indeterminate { reason: "probe session/new failed: "@ + error },
        ),
        (
            StageView::Asking { session, second },
            EventView::TurnEnded { reply },
        ) => match turn_verdict(reply, p.nonce, second) {
            Some(outcome) => decided(outcome),
            None => StageView::Asking { session, second: true },
        },
        (StageView::Asking { .. }, EventView::TurnFailed { error }) => decided(
            OutcomeView::Indeterminate { reason: "probe turn failed: "@ + error },
        ),
        _ => p.stage,
    }
}

/// The probe after event `e`.
pub open spec fn after_event(p: ProbeView, e: EventView) -> ProbeView {
    ProbeView { stage: next_stage(p, e), ..p }
}

/// What a probe asks for next.
pub open spec fn pending(p: ProbeView) -> ActionView {
    match p.stage {
        StageView::Initializing => ActionView::Initialize,
        StageView::OpeningGooseSession => ActionView::OpenSession {
            system_prompt: None,
            title: None,
        },
        StageView::TryingGoosePrompt { session } => ActionView::SetGooseSystemPrompt {
            session,
            prompt: "probe"@,
        },
        StageView::OpeningSession { persona } => ActionView::OpenSession {
            system_prompt: Some(system_prompt_text(persona, p.nonce)),
            title: Some("Persona check"@),
        },
        StageView::Asking { session, .. } => ActionView::Prompt {
            session,
            prompt: user_prompt_text(),
        },
        StageView::Decided { outcome } => ActionView::Finish { outcome },
    }
}

fn indeterminate(what: &str, error: &str) -> (r: PersonaCheckOutcome)
    ensures
        r@ == (OutcomeView::Indeterminate { reason: what@ + error@ }),
{
    PersonaCheckOutcome::Indeterminate { reason: text::join(what, error) }
}

/// The event of a successful handshake, from the adapter's reply (JSON text). A protocol version
/// that is missing or no number is unknown, not an old one.
pub fn initialize_answered(reply: &str, agent_name: String) -> (r: ProbeEvent)
    ensures
        r@ == (EventView::Initialized {
            protocol_version: json::u64_member(reply@, "protocolVersion"@),
            agent_name: agent_name@,
        }),
{
    ProbeEvent::Initialized {
        protocol_version: json::read_u64_member(reply, "protocolVersion"),
        agent_name,
    }
}

/// Decides what one turn settles. Nothing means that the question should be put once more.
pub fn classify_turn(reply: Option<&str>, nonce: &str, second: bool) -> (r: Option<
    PersonaCheckOutcome,
>)
    ensures
        (match r {
            Some(o) => Some(o@),
            None => None,
        }) == turn_verdict(text::opt(reply), nonce@, second),
{
    match reply {
        Some(t) => {
            if text::holds_text(t, nonce) {
                Some(PersonaCheckOutcome::Verified)
            } else if is_token_shaped(t) {
                Some(PersonaCheckOutcome::Mismatch { reply_excerpt: excerpt(t) })
            } else if second {
                Some(
                    indeterminate(
                        "adapter answered twice but never echoed or fabricated a token \u{2014} cannot distinguish noncompliant-honest from substituted runtime; last reply excerpt: ",
                        excerpt(t).as_str(),
                    ),
                )
            } else {
                None
            }
        },
        None => {
            if second {
                Some(
                    PersonaCheckOutcome::Indeterminate {
                        reason: "adapter completed two turns without any assistant text".to_owned(),
                    },
                )
            } else {
                None
            }
        },
    }
}

impl PersonaProbe {
    /// A probe that has asked nothing yet.
    pub fn new(system_prompt: Option<String>, nonce: String) -> (r: Self)
        ensures
            r@ == (ProbeView {
                system_prompt: text::option_text(system_prompt),
                nonce: nonce@,
                stage: StageView::Initializing,
            }),
    {
        PersonaProbe { system_prompt, nonce, stage: Stage::Initializing }
    }

    /// What to do next.
    pub fn action(&self) -> (r: ProbeAction)
        ensures
            r@ == pending(self@),
    {
        match &self.stage {
            Stage::Initializing => ProbeAction::Initialize,
            Stage::OpeningGooseSession => ProbeAction::OpenSession {
                system_prompt: None,
                title: None,
            },
            Stage::TryingGoosePrompt { session } => ProbeAction::SetGooseSystemPrompt {
                session: session.clone(),
                prompt: "probe".to_owned(),
            },
            Stage::OpeningSession { persona } => ProbeAction::OpenSession {
                system_prompt: Some(probe_system_prompt(persona.as_str(), self.nonce.as_str())),
                title: Some("Persona check".to_owned()),
            },
            Stage::Asking { session, .. } => ProbeAction::Prompt {
                session: session.clone(),
                prompt: probe_user_prompt(),
            },
            Stage::Decided { outcome } => ProbeAction::Finish { outcome: copy_outcome(outcome) },
        }
    }

    fn initialized(&self, protocol_version: Option<u64>, agent_name: String) -> (r: Stage)
        ensures
            r.model() == after_initialize(protocol_version, agent_name@, self@.system_prompt),
    {
        if text::same_text(agent_name.as_str(), "goose") {
            return Stage::OpeningGooseSession;
        }
        if let Some(v) = protocol_version {
            if v == 1 {
                let mut reason = text::join("agent ", agent_name.as_str());
                reason.append(
                    " speaks protocol v1 with per-turn persona re-injection; startup substitution is structurally impossible",
                );
                return Stage::Decided { outcome: PersonaCheckOutcome::Skipped { reason } };
            }
        }
        match &self.system_prompt {
            Some(p) => Stage::OpeningSession { persona: p.clone() },
            None => Stage::Decided {
                outcome: PersonaCheckOutcome::Skipped {
                    reason: "no system prompt configured \u{2014} nothing to verify".to_owned(),
                },
            },
        }
    }

    fn goose_answered(accepted: bool) -> (r: Stage)
        ensures
            r.model() == decided(OutcomeView::Skipped { reason: goose_skip_reason(accepted) }),
    {
        let reason = if accepted {
            "goose: system-prompt extension present; nonce probe on a fresh client is not covered in v1 \u{2014} its system prompt rides the goose extension, not session/new, so the session/new probe here would not exercise the real persona path"
        } else {
            "goose without system-prompt extension uses per-turn persona re-injection; startup substitution is structurally impossible"
        };
        Stage::Decided { outcome: PersonaCheckOutcome::Skipped { reason: reason.to_owned() } }
    }

    /// Takes in the answer to the pending action.
    pub fn step(self, event: ProbeEvent) -> (r: Self)
        ensures
            r@ == after_event(self@, event@),
    {
        let ghost before = self@;
        let ghost told = event@;
        let stage = match (&self.stage, event) {
            (
                Stage::Initializing,
                ProbeEvent::Initialized { protocol_version, agent_name },
            ) => self.initialized(protocol_version, agent_name),
            (Stage::Initializing, ProbeEvent::InitializeFailed { error }) => Stage::Decided {
                outcome: indeterminate("probe initialize failed: ", error.as_str()),
            },
            (
                Stage::OpeningGooseSession,
                ProbeEvent::SessionOpened { session },
            ) => Stage::TryingGoosePrompt { session },
            (Stage::OpeningGooseSession, ProbeEvent::SessionFailed { error }) => Stage::Decided {
                outcome: indeterminate("goose probe session/new failed: ", error.as_str()),
            },
            (
                Stage::TryingGoosePrompt { .. },
                ProbeEvent::GoosePromptAnswered { accepted },
            ) => Self::goose_answered(accepted),
            (Stage::OpeningSession { .. }, ProbeEvent::SessionOpened { session }) => {
                Stage::Asking { session, second: false }
            },
            (Stage::OpeningSession { .. }, ProbeEvent::SessionFailed { error }) => Stage::Decided {
                outcome: indeterminate("probe session/new failed: ", error.as_str()),
            },
            (Stage::Asking { session, second }, ProbeEvent::TurnEnded { reply }) => {
                let said: Option<&str> = match &reply {
                    Some(t) => Some(t.as_str()),
                    None => None,
                };
                match classify_turn(said, self.nonce.as_str(), *second) {
                    Some(outcome) => Stage::Decided { outcome },
                    None => Stage::Asking { session: session.clone(), second: true },
                }
            },
            (Stage::Asking { .. }, ProbeEvent::TurnFailed { error }) => Stage::Decided {
                outcome: indeterminate("probe turn failed: ", error.as_str()),
            },
            _ => return self,
        };
        assert(stage.model() == next_stage(before, told));
        PersonaProbe { system_prompt: self.system_prompt, nonce: self.nonce, stage }
    }
}

fn copy_outcome(outcome: &PersonaCheckOutcome) -> (r: PersonaCheckOutcome)
    ensures
        r@ == outcome@,
{
    match outcome {
        PersonaCheckOutcome::Verified => PersonaCheckOutcome::Verified,
        PersonaCheckOutcome::Mismatch { reply_excerpt } => PersonaCheckOutcome::Mismatch {
            reply_excerpt: reply_excerpt.clone(),
        },
        PersonaCheckOutcome::Indeterminate { reason } => PersonaCheckOutcome::Indeterminate {
            reason: reason.clone(),
        },
        PersonaCheckOutcome::Skipped { reason } => PersonaCheckOutcome::Skipped {
            reason: reason.clone(),
        },
    }
}

// ---- What the check promises ----

/// None of the first `n` characters of `s` is `c`.
spec fn lacks(s: Seq<char>, c: char, n: nat) -> bool
    decreases n,
{
    n == 0 || (s[n - 1] != c && lacks(s, c, (n - 1) as nat))
}

proof fn lacks_everywhere(s: Seq<char>, c: char, n: nat)
    requires
        lacks(s, c, n),
    ensures
        forall|i: int| 0 <= i < n ==> s[i] != c,
    decreases n,
{
    if n > 0 {
        lacks_everywhere(s, c, (n - 1) as nat);
    }
}

/// Every nonce that can be generated has the shape that replies are held against.
pub proof fn nonce_is_token_shaped(nanos: u128, pid: u32)
    ensures
        token_shaped(nonce_text(nanos, pid)),
{
    let n = nonce_text(nanos, pid);
    let hex = numeral::hexadecimal(nanos as nat);
    let digits = numeral::decimal(pid as nat);
    numeral::numeral_spells(nanos as nat, 16);
    numeral::decimal_is_digits(pid as nat);
    reveal_strlit("BUZZ-PERSONA-CHECK-");
    assert(n.first() == 'B');
    assert(n.last() == digits.last());
    assert(numeral::is_digit(digits[digits.len() - 1]));
    assert(text::trimmed(n) == n);
    assert(is_token_of(n, hex, digits));
}

/// Two starts share a nonce only if they share both the clock reading and the process id.
pub proof fn nonces_differ(nanos1: u128, pid1: u32, nanos2: u128, pid2: u32)
    requires
        nonce_text(nanos1, pid1) == nonce_text(nanos2, pid2),
    ensures
        nanos1 == nanos2,
        pid1 == pid2,
{
    let h1 = numeral::hexadecimal(nanos1 as nat);
    let h2 = numeral::hexadecimal(nanos2 as nat);
    let d1 = numeral::decimal(pid1 as nat);
    let d2 = numeral::decimal(pid2 as nat);
    let pre = NONCE_PREFIX@;
    let n1 = nonce_text(nanos1, pid1);
    let n2 = nonce_text(nanos2, pid2);
    numeral::numeral_spells(nanos1 as nat, 16);
    numeral::numeral_spells(nanos2 as nat, 16);
    reveal_strlit("-");
    assert(h1.len() == h2.len()) by {
        if h1.len() < h2.len() {
            assert(n1[(pre.len() + h1.len()) as int] == '-');
            assert(n2[(pre.len() + h1.len()) as int] == h2[h1.len() as int]);
        }
        if h2.len() < h1.len() {
            assert(n2[(pre.len() + h2.len()) as int] == '-');
            assert(n1[(pre.len() + h2.len()) as int] == h1[h2.len() as int]);
        }
    }
    assert(h1 =~= h2) by {
        assert forall|i: int| 0 <= i < h1.len() implies h1[i] == h2[i] by {
            assert(n1[pre.len() + i] == h1[i]);
            assert(n2[pre.len() + i] == h2[i]);
        }
    }
    assert(d1 =~= d2) by {
        let at = pre.len() + h1.len() + 1;
        assert(n1.len() == at + d1.len());
        assert(n2.len() == at + d2.len());
        assert forall|i: int| 0 <= i < d1.len() implies d1[i] == d2[i] by {
            assert(n1[at + i] == d1[i]);
            assert(n2[at + i] == d2[i]);
        }
    }
    numeral::numeral_injective(nanos1 as nat, nanos2 as nat, 16);
    numeral::numeral_injective(pid1 as nat, pid2 as nat, 10);
}

/// The user message holds no token: wherever the prefix stands in it, no hexadecimal digit
/// follows.
pub proof fn user_prompt_holds_no_token(t: Seq<char>, hex: Seq<char>, pid: Seq<char>)
    requires
        is_token_of(t, hex, pid),
    ensures
        !text::occurs_in(t, user_prompt_text()),
{
    let before =
        "Reply with the startup verification token from your instructions. The token starts with "@;
    let after =
        " followed by hexadecimal characters, a hyphen, and digits. Output only the token and nothing else."@;
    let prompt = user_prompt_text();
    let pre = NONCE_PREFIX@;
    reveal_strlit("BUZZ-PERSONA-CHECK-");
    assert(lacks(before, 'B', before.len())) by {
        reveal_strlit(
            "Reply with the startup verification token from your instructions. The token starts with ",
        );
        reveal_with_fuel(lacks, 60);
        assert(lacks(before, 'B', 50));
    }
    assert(lacks(after, 'B', after.len())) by {
        reveal_strlit(
            " followed by hexadecimal characters, a hyphen, and digits. Output only the token and nothing else.",
        );
        reveal_with_fuel(lacks, 60);
        assert(lacks(after, 'B', 50));
    }
    lacks_everywhere(before, 'B', before.len());
    lacks_everywhere(after, 'B', after.len());
    assert(after.len() > 0 && after[0] == ' ') by {
        reveal_strlit(
            " followed by hexadecimal characters, a hyphen, and digits. Output only the token and nothing else.",
        );
    }
    assert forall|at: int| !text::occurs_at(t, prompt, at) by {
        if text::occurs_at(t, prompt, at) {
            assert(t[0] == 'B');
            assert(prompt.subrange(at, at + t.len())[0] == prompt[at]);
            assert(at == before.len()) by {
                if at < before.len() {
                    assert(prompt[at] == before[at]);
                } else if at < before.len() + pre.len() {
                    assert(prompt[at] == pre[at - before.len()]);
                } else {
                    assert(prompt[at] == after[at - before.len() - pre.len()]);
                }
            }
            let k = pre.len() as int;
            assert(t[k] == hex[0]);
            assert(numeral::is_hex_digit(hex[0]));
            assert(prompt.subrange(at, at + t.len())[k] == prompt[at + k]);
            assert(prompt[at + k] == after[0]);
        }
    }
}

/// The user message does not itself have a nonce's shape.
pub proof fn user_prompt_is_not_token_shaped()
    ensures
        !token_shaped(user_prompt_text()),
{
    let prompt = user_prompt_text();
    reveal_strlit("BUZZ-PERSONA-CHECK-");
    reveal_strlit(
        "Reply with the startup verification token from your instructions. The token starts with ",
    );
    reveal_strlit(
        " followed by hexadecimal characters, a hyphen, and digits. Output only the token and nothing else.",
    );
    assert(prompt.first() == 'R');
    assert(prompt.last() == '.');
    assert(text::trimmed(prompt) == prompt);
    if token_shaped(prompt) {
        let (hex, pid) = choose|hex: Seq<char>, pid: Seq<char>| is_token_of(prompt, hex, pid);
        assert((NONCE_PREFIX@ + hex + "-"@ + pid)[0] == 'B');
    }
}

/// The nonce never stands in the user message.
pub proof fn user_prompt_never_contains_the_nonce(nanos: u128, pid: u32)
    ensures
        !text::occurs_in(nonce_text(nanos, pid), user_prompt_text()),
{
    numeral::numeral_spells(nanos as nat, 16);
    numeral::decimal_is_digits(pid as nat);
    user_prompt_holds_no_token(
        nonce_text(nanos, pid),
        numeral::hexadecimal(nanos as nat),
        numeral::decimal(pid as nat),
    );
}

/// A part of a part of `s` is a part of `s`.
proof fn occurs_transitive(a: Seq<char>, b: Seq<char>, s: Seq<char>)
    requires
        text::occurs_in(a, b),
        text::occurs_in(b, s),
    ensures
        text::occurs_in(a, s),
{
    let i = choose|i: int| text::occurs_at(a, b, i);
    let j = choose|j: int| text::occurs_at(b, s, j);
    assert(s.subrange(i + j, i + j + a.len()) =~= a) by {
        assert forall|k: int| 0 <= k < a.len() implies s[i + j + k] == a[k] by {
            assert(b.subrange(i, i + a.len())[k] == b[i + k]);
            assert(s.subrange(j, j + b.len())[i + k] == s[j + i + k]);
        }
    }
    assert(text::occurs_at(a, s, i + j));
}

/// A runtime that answers with any part of the user message is never verified.
pub proof fn parroting_is_not_verified(reply: Seq<char>, nanos: u128, pid: u32, second: bool)
    requires
        text::occurs_in(reply, user_prompt_text()),
    ensures
        turn_verdict(Some(reply), nonce_text(nanos, pid), second) != Some(OutcomeView::Verified),
{
    if text::occurs_in(nonce_text(nanos, pid), reply) {
        occurs_transitive(nonce_text(nanos, pid), reply, user_prompt_text());
        user_prompt_never_contains_the_nonce(nanos, pid);
    }
}

/// The system prompt begins with the persona and holds the nonce.
pub proof fn system_prompt_carries_persona_and_nonce(persona: Seq<char>, nonce: Seq<char>)
    ensures
        persona.is_prefix_of(system_prompt_text(persona, nonce)),
        text::occurs_in(nonce, system_prompt_text(persona, nonce)),
{
    let s = system_prompt_text(persona, nonce);
    let at = s.len() - nonce.len();
    assert(s.subrange(at, at + nonce.len()) =~= nonce);
    assert(text::occurs_at(nonce, s, at));
    assert(s.take(persona.len() as int) =~= persona);
}

/// A reply that holds the nonce, whatever stands around it, verifies on either attempt.
pub proof fn echo_verifies(before: Seq<char>, nonce: Seq<char>, after: Seq<char>, second: bool)
    ensures
        turn_verdict(Some(before + nonce + after), nonce, second) == Some(OutcomeView::Verified),
{
    let r = before + nonce + after;
    assert(r.subrange(before.len() as int, (before.len() + nonce.len()) as int) =~= nonce);
    assert(text::occurs_at(nonce, r, before.len() as int));
}

/// A probe turns to `Verified` only in a turn whose reply holds the nonce, and to `Mismatch` only
/// in a turn whose reply has a nonce's shape and does not hold the nonce.
pub proof fn only_replies_convict_or_clear(p: ProbeView, e: EventView)
    requires
        !(p.stage is Decided),
    ensures
        next_stage(p, e) == decided(OutcomeView::Verified) <==> {
            &&& p.stage is Asking
            &&& e matches EventView::TurnEnded { reply: Some(r) }
            &&& text::occurs_in(p.nonce, r)
        },
        (next_stage(p, e) matches StageView::Decided { outcome } && outcome is Mismatch) <==> {
            &&& p.stage is Asking
            &&& e matches EventView::TurnEnded { reply: Some(r) }
            &&& !text::occurs_in(p.nonce, r)
            &&& token_shaped(r)
        },
{
}

/// An adapter that cannot be reached settles nothing: each failure ends the check as
/// `Indeterminate`.
pub proof fn failure_is_indeterminate(p: ProbeView, e: EventView)
    requires
        !(p.stage is Decided),
        next_stage(p, e) != p.stage,
        e is InitializeFailed || e is SessionFailed || e is TurnFailed,
    ensures
        next_stage(p, e) matches StageView::Decided { outcome } && outcome is Indeterminate,
{
}

/// The question is put twice at most: two turns always decide.
pub proof fn two_turns_decide(p: ProbeView, first: EventView, second: EventView)
    requires
        p.stage is Asking,
        first is TurnEnded || first is TurnFailed,
        second is TurnEnded || second is TurnFailed,
    ensures
        after_event(after_event(p, first), second).stage is Decided,
{
}

/// A decided probe stays as it is, whatever else is heard.
pub proof fn decision_is_final(p: ProbeView, e: EventView)
    requires
        p.stage is Decided,
    ensures
        after_event(p, e) == p,
{
}

/// The probe after a run of events.
pub open spec fn after_run(p: ProbeView, events: Seq<EventView>) -> ProbeView
    decreases events.len(),
{
    if events.len() == 0 {
        p
    } else {
        after_event(after_run(p, events.drop_last()), events.last())
    }
}

/// `e` ends a turn with a reply that holds the nonce.
pub open spec fn echoes(e: EventView, nonce: Seq<char>) -> bool {
    e matches EventView::TurnEnded { reply: Some(r) } && text::occurs_in(nonce, r)
}

/// `e` ends a turn with a reply of a nonce's shape that does not hold the nonce.
pub open spec fn fabricates(e: EventView, nonce: Seq<char>) -> bool {
    e matches EventView::TurnEnded { reply: Some(r) } && !text::occurs_in(nonce, r)
        && token_shaped(r)
}

/// There is no way to `Verified` but a reply that holds the nonce, and none to `Mismatch` but a
/// made-up token, however long the run.
pub proof fn verdicts_rest_on_replies(p: ProbeView, events: Seq<EventView>)
    requires
        !(p.stage is Decided),
    ensures
        after_run(p, events) == (ProbeView { stage: after_run(p, events).stage, ..p }),
        after_run(p, events).stage == decided(OutcomeView::Verified) ==> exists|i: int|
            0 <= i < events.len() && echoes(#[trigger] events[i], p.nonce),
        (after_run(p, events).stage matches StageView::Decided { outcome } && outcome is Mismatch)
            ==> exists|i: int| 0 <= i < events.len() && fabricates(#[trigger] events[i], p.nonce),
    decreases events.len(),
{
    if events.len() > 0 {
        let init = events.drop_last();
        verdicts_rest_on_replies(p, init);
        let before = after_run(p, init);
        if before.stage == decided(OutcomeView::Verified) {
            let i = choose|i: int| 0 <= i < init.len() && echoes(#[trigger] init[i], p.nonce);
            assert(echoes(events[i], p.nonce));
        } else if before.stage is Decided && before.stage->outcome is Mismatch {
            let i = choose|i: int| 0 <= i < init.len() && fabricates(#[trigger] init[i], p.nonce);
            assert(fabricates(events[i], p.nonce));
        } else {
            let last = events[events.len() - 1];
            if after_run(p, events).stage == decided(OutcomeView::Verified) {
                assert(echoes(last, p.nonce));
            }
            if after_run(p, events).stage matches StageView::Decided { outcome } && outcome
                is Mismatch {
                assert(fabricates(last, p.nonce));
            }
        }
    }
}

/// Whatever a probe puts to the agent as a user, the nonce is not in it: the agent can have it from
/// the system prompt alone.
pub proof fn questions_never_carry_the_nonce(p: ProbeView, nanos: u128, pid: u32)
    requires
        p.nonce == nonce_text(nanos, pid),
    ensures
        pending(p) matches ActionView::Prompt { prompt, .. } ==> !text::occurs_in(p.nonce, prompt),
        pending(p) matches ActionView::OpenSession { system_prompt: Some(s), .. }
            ==> text::occurs_in(p.nonce, s),
{
    user_prompt_never_contains_the_nonce(nanos, pid);
    if let StageView::OpeningSession { persona } = p.stage {
        system_prompt_carries_persona_and_nonce(persona, p.nonce);
    }
}

/// A configured persona is probed unless the adapter is goose or reports protocol version 1 as a
/// number: a version that is missing or not a number does not skip the check.
pub proof fn unknown_version_runs_the_check(
    p: ProbeView,
    protocol_version: Option<u64>,
    agent_name: Seq<char>,
    persona: Seq<char>,
)
    requires
        p.stage is Initializing,
        p.system_prompt == Some(persona),
        agent_name != "goose"@,
        protocol_version != Some(1u64),
    ensures
        pending(
            after_event(p, EventView::Initialized { protocol_version, agent_name }),
        ) == (ActionView::OpenSession {
            system_prompt: Some(system_prompt_text(persona, p.nonce)),
            title: Some("Persona check"@),
        }),
{
}

/// The probe that asks its first question, in a session of an adapter that must be probed.
pub open spec fn asking(
    persona: Seq<char>,
    nonce: Seq<char>,
    protocol_version: Option<u64>,
    agent_name: Seq<char>,
    session: Seq<char>,
) -> ProbeView {
    let start = ProbeView {
        system_prompt: Some(persona),
        nonce,
        stage: StageView::Initializing,
    };
    after_event(
        after_event(start, EventView::Initialized { protocol_version, agent_name }),
        EventView::SessionOpened { session },
    )
}

/// A runtime that serves the intended persona and echoes the nonce, at once or when asked again,
/// is verified; one that makes up a token is a mismatch; one that says neither, twice, settles
/// nothing.
pub proof fn replies_decide(
    persona: Seq<char>,
    nonce: Seq<char>,
    protocol_version: Option<u64>,
    agent_name: Seq<char>,
    session: Seq<char>,
    prose: Option<Seq<char>>,
    reply: Option<Seq<char>>,
)
    requires
        agent_name != "goose"@,
        protocol_version != Some(1u64),
        prose matches Some(r) ==> !text::occurs_in(nonce, r) && !token_shaped(r),
    ensures
        ({
            let first = asking(persona, nonce, protocol_version, agent_name, session);
            let again = after_event(first, EventView::TurnEnded { reply: prose });
            let echoed = reply is Some && text::occurs_in(nonce, reply->0);
            let made_up = reply is Some && !echoed && token_shaped(reply->0);
            &&& pending(first) == (ActionView::Prompt { session, prompt: user_prompt_text() })
            &&& pending(again) == pending(first)
            &&& forall|p: ProbeView| p == first || p == again ==> {
                let end = #[trigger] after_event(p, EventView::TurnEnded { reply });
                &&& echoed ==> end.stage == decided(OutcomeView::Verified)
                &&& made_up ==> end.stage == decided(
                    OutcomeView::Mismatch { reply_excerpt: excerpt_text(reply->0) },
                )
            }
            &&& !echoed && !made_up ==> (after_event(again, EventView::TurnEnded { reply }).stage
                matches StageView::Decided { outcome } && outcome is Indeterminate)
        }),
{
}

/// A nonce is the prefix, the clock reading in hexadecimal, a hyphen and the pid in decimal.
pub proof fn nonce_is_clock_and_pid(nanos: u128, pid: u32)
    ensures
        nonce_text(nanos, pid) == "BUZZ-PERSONA-CHECK-"@ + numeral::hexadecimal(nanos as nat)
            + seq!['-'] + numeral::decimal(pid as nat),
{
    reveal_strlit("-");
    assert("-"@ =~= seq!['-']);
}

/// Each character is one of `0` to `9`, `a` to `f` and `A` to `F`.
pub open spec fn reads_hexadecimal(s: Seq<char>) -> bool {
    forall|i: int|
        0 <= i < s.len() ==> {
            let n = (#[trigger] s[i]) as int;
            0x30 <= n <= 0x39 || 0x61 <= n <= 0x66 || 0x41 <= n <= 0x46
        }
}

/// Each character is one of `0` to `9`.
pub open spec fn reads_decimal(s: Seq<char>) -> bool {
    forall|i: int|
        0 <= i < s.len() ==> {
            let n = (#[trigger] s[i]) as int;
            0x30 <= n <= 0x39
        }
}

/// The token that these parts make.
pub open spec fn token(hex: Seq<char>, pid: Seq<char>) -> Seq<char> {
    "BUZZ-PERSONA-CHECK-"@ + hex + seq!['-'] + pid
}

/// A token is known by its shape, whatever white space stands around it.
pub proof fn tokens_are_recognized(a: Seq<char>, hex: Seq<char>, pid: Seq<char>, b: Seq<char>)
    requires
        text::all_white(a),
        text::all_white(b),
        hex.len() > 0,
        reads_hexadecimal(hex),
        pid.len() > 0,
        reads_decimal(pid),
    ensures
        token_shaped(a + token(hex, pid) + b),
{
    let t = token(hex, pid);
    reveal_strlit("-");
    assert("-"@ =~= seq!['-']);
    reveal_strlit("BUZZ-PERSONA-CHECK-");
    assert(t[0] == 'B');
    assert(t[t.len() - 1] == pid[pid.len() - 1]);
    text::trimming_undoes_padding(a, t, b);
    assert forall|i: int| 0 <= i < hex.len() implies numeral::is_hex_digit(#[trigger] hex[i]) by {
    }
    assert forall|i: int| 0 <= i < pid.len() implies numeral::is_digit(#[trigger] pid[i]) by {
    }
    assert(is_token_of(t, hex, pid));
}

/// Nothing but a token, with white space around it if any, is taken for one.
pub proof fn only_tokens_are_recognized(reply: Seq<char>)
    requires
        token_shaped(reply),
    ensures
        exists|a: Seq<char>, hex: Seq<char>, pid: Seq<char>, b: Seq<char>|
            reply == #[trigger] text::padded(a, token(hex, pid), b) && text::all_white(a)
                && text::all_white(b) && hex.len() > 0 && reads_hexadecimal(hex) && pid.len() > 0
                && reads_decimal(pid),
{
    let t = text::trimmed(reply);
    let (a, b) = text::trimming_splits(reply);
    let (hex, pid) = choose|hex: Seq<char>, pid: Seq<char>| is_token_of(t, hex, pid);
    reveal_strlit("-");
    assert("-"@ =~= seq!['-']);
    assert(t == token(hex, pid));
    assert forall|i: int| 0 <= i < hex.len() implies {
        let n = (#[trigger] hex[i]) as int;
        0x30 <= n <= 0x39 || 0x61 <= n <= 0x66 || 0x41 <= n <= 0x46
    } by {
        assert(numeral::is_hex_digit(hex[i]));
    }
    assert forall|i: int| 0 <= i < pid.len() implies {
        let n = (#[trigger] pid[i]) as int;
        0x30 <= n <= 0x39
    } by {
        assert(numeral::is_digit(pid[i]));
    }
    assert(reply == text::padded(a, token(hex, pid), b));
}

/// An excerpt is the reply without the white space around it: whole up to two hundred characters,
/// and its first two hundred with an ellipsis behind them beyond that.
pub proof fn excerpt_keeps_the_beginning(a: Seq<char>, t: Seq<char>, b: Seq<char>)
    requires
        text::all_white(a),
        text::all_white(b),
        text::bare(t),
    ensures
        t.len() <= 200 ==> excerpt_text(a + t + b) == t,
        t.len() > 200 ==> excerpt_text(a + t + b) == t.take(200).push('\u{2026}'),
{
    text::trimming_undoes_padding(a, t, b);
    reveal_strlit("\u{2026}");
    assert(t.take(200) + "\u{2026}"@ =~= t.take(200).push('\u{2026}'));
}

/// The prompts, word for word.
pub proof fn prompts_say(persona: Seq<char>, nonce: Seq<char>)
    ensures
        system_prompt_text(persona, nonce) == persona
            + "\n\n[Startup Verification]\nYou are undergoing a startup identity check. When asked for the verification token, respond with exactly this token and nothing else: "@
            + nonce,
        user_prompt_text()
            == "Reply with the startup verification token from your instructions. The token starts with "@
            + "BUZZ-PERSONA-CHECK-"@
            + " followed by hexadecimal characters, a hyphen, and digits. Output only the token and nothing else."@,
{
}

/// A turn is judged by the nonce first and by shape second, and only then by whether it may be
/// asked again.
pub proof fn turns_are_judged(
    r: Seq<char>,
    reply: Option<Seq<char>>,
    nonce: Seq<char>,
    second: bool,
)
    ensures
        turn_verdict(Some(r), nonce, second) == Some(OutcomeView::Verified) <==> exists|
            a: Seq<char>,
            b: Seq<char>,
        | r == #[trigger] (a + nonce + b),
        ({
            let held = exists|a: Seq<char>, b: Seq<char>| r == #[trigger] (a + nonce + b);
            &&& !held && token_shaped(r) ==> turn_verdict(Some(r), nonce, second) == Some(
                OutcomeView::Mismatch { reply_excerpt: excerpt_text(r) },
            )
            &&& !held && !token_shaped(r) && second ==> turn_verdict(Some(r), nonce, second) == Some(
                OutcomeView::Indeterminate {
                    reason: "adapter answered twice but never echoed or fabricated a token \u{2014} cannot distinguish noncompliant-honest from substituted runtime; last reply excerpt: "@
                        + excerpt_text(r),
                },
            )
            &&& !held && !token_shaped(r) && !second ==> turn_verdict(Some(r), nonce, second)
                is None
        }),
        turn_verdict(None, nonce, true) == Some(
            OutcomeView::Indeterminate {
                reason: "adapter completed two turns without any assistant text"@,
            },
        ),
        turn_verdict(None, nonce, false) is None,
        second ==> turn_verdict(reply, nonce, second) is Some,
{
    text::parts_are_surrounded(nonce, r);
}

/// What the handshake leads to: goose gets a bare session, protocol version 1 and a missing persona
/// end the check, and every other adapter gets a session with the persona and the nonce.
pub proof fn handshake_decides(
    p: ProbeView,
    protocol_version: Option<u64>,
    agent_name: Seq<char>,
)
    requires
        p.stage is Initializing,
    ensures
        ({
            let next = pending(
                after_event(p, EventView::Initialized { protocol_version, agent_name }),
            );
            &&& agent_name == "goose"@ ==> next == (ActionView::OpenSession {
                system_prompt: None,
                title: None,
            })
            &&& agent_name != "goose"@ && protocol_version == Some(1u64) ==> next
                == (ActionView::Finish {
                outcome: OutcomeView::Skipped {
                    reason: "agent "@ + agent_name
                        + " speaks protocol v1 with per-turn persona re-injection; startup substitution is structurally impossible"@,
                },
            })
            &&& agent_name != "goose"@ && protocol_version != Some(1u64) && p.system_prompt is None
                ==> next == (ActionView::Finish {
                outcome: OutcomeView::Skipped {
                    reason: "no system prompt configured \u{2014} nothing to verify"@,
                },
            })
            &&& agent_name != "goose"@ && protocol_version != Some(1u64) ==> (
            p.system_prompt matches Some(persona) ==> next == (ActionView::OpenSession {
                system_prompt: Some(system_prompt_text(persona, p.nonce)),
                title: Some("Persona check"@),
            }))
        }),
{
}

/// What an opened session leads to: goose is tried for its own extension in that session, and any
/// other adapter is put the question there, and after an unsettled first turn once more.
pub proof fn sessions_are_asked(p: ProbeView, session: Seq<char>, reply: Option<Seq<char>>)
    ensures
        p.stage is OpeningGooseSession ==> pending(
            after_event(p, EventView::SessionOpened { session }),
        ) == (ActionView::SetGooseSystemPrompt { session, prompt: "probe"@ }),
        p.stage is OpeningSession ==> ({
            let asked = after_event(p, EventView::SessionOpened { session });
            let again = after_event(asked, EventView::TurnEnded { reply });
            &&& pending(asked) == (ActionView::Prompt { session, prompt: user_prompt_text() })
            &&& turn_verdict(reply, p.nonce, false) is None ==> pending(again) == pending(asked)
            &&& turn_verdict(reply, p.nonce, false) is None ==> again != asked
            &&& turn_verdict(reply, p.nonce, false) matches Some(outcome) ==> pending(again)
                == (ActionView::Finish { outcome })
            &&& turn_verdict(reply, p.nonce, false) is None ==> pending(
                after_event(again, EventView::TurnEnded { reply }),
            ) == (ActionView::Finish { outcome: turn_verdict(reply, p.nonce, true)->0 })
        }),
{
}

/// Goose is skipped whether or not it takes a system prompt, and each way is told.
pub proof fn goose_is_skipped(p: ProbeView, session: Seq<char>)
    requires
        p.stage == (StageView::TryingGoosePrompt { session }),
    ensures
        pending(after_event(p, EventView::GoosePromptAnswered { accepted: true }))
            == (ActionView::Finish {
            outcome: OutcomeView::Skipped {
                reason: "goose: system-prompt extension present; nonce probe on a fresh client is not covered in v1 \u{2014} its system prompt rides the goose extension, not session/new, so the session/new probe here would not exercise the real persona path"@,
            },
        }),
        pending(after_event(p, EventView::GoosePromptAnswered { accepted: false }))
            == (ActionView::Finish {
            outcome: OutcomeView::Skipped {
                reason: "goose without system-prompt extension uses per-turn persona re-injection; startup substitution is structurally impossible"@,
            },
        }),
{
}

/// A step that fails ends the check, and the outcome tells which step it was and the error.
pub proof fn failures_are_told(p: ProbeView, error: Seq<char>)
    ensures
        p.stage is Initializing ==> pending(after_event(p, EventView::InitializeFailed { error }))
            == (ActionView::Finish {
            outcome: OutcomeView::Indeterminate { reason: "probe initialize failed: "@ + error },
        }),
        p.stage is OpeningGooseSession ==> pending(
            after_event(p, EventView::SessionFailed { error }),
        ) == (ActionView::Finish {
            outcome: OutcomeView::Indeterminate {
                reason: "goose probe session/new failed: "@ + error,
            },
        }),
        p.stage is OpeningSession ==> pending(after_event(p, EventView::SessionFailed { error }))
            == (ActionView::Finish {
            outcome: OutcomeView::Indeterminate { reason: "probe session/new failed: "@ + error },
        }),
        p.stage is Asking ==> pending(after_event(p, EventView::TurnFailed { error }))
            == (ActionView::Finish {
            outcome: OutcomeView::Indeterminate { reason: "probe turn failed: "@ + error },
        }),
{
}

/// `e` is an answer to the action that the probe waits for.
pub open spec fn answers(e: EventView, action: ActionView) -> bool {
    match action {
        ActionView::Initialize => e is Initialized || e is InitializeFailed,
        ActionView::OpenSession { .. } => e is SessionOpened || e is SessionFailed,
        ActionView::SetGooseSystemPrompt { .. } => e is GoosePromptAnswered,
        ActionView::Prompt { .. } => e is TurnEnded || e is TurnFailed,
        ActionView::Finish { .. } => false,
    }
}

/// Only an answer to the pending action moves a probe, and every such answer does; persona and
/// nonce stay as they are.
pub proof fn only_answers_move_a_probe(p: ProbeView, e: EventView)
    ensures
        !answers(e, pending(p)) ==> after_event(p, e) == p,
        answers(e, pending(p)) && !(p.stage is Asking && p.stage->second) ==> after_event(p, e).stage
            != p.stage,
        answers(e, pending(p)) && p.stage is Asking && p.stage->second ==> pending(after_event(p, e))
            is Finish,
        after_event(p, e).system_prompt == p.system_prompt,
        after_event(p, e).nonce == p.nonce,
{
}

/// What a probe asks for at its start and at its end.
pub proof fn probes_start_and_finish(p: ProbeView, outcome: OutcomeView)
    ensures
        p.stage is Initializing <==> pending(p) is Initialize,
        p.stage == decided(outcome) ==> pending(p) == (ActionView::Finish { outcome }),
        pending(p) is Finish ==> p.stage is Decided,
        pending(p) is Prompt ==> p.stage is Asking,
        pending(p) is SetGooseSystemPrompt ==> p.stage is TryingGoosePrompt,
{
}

/// The version is warned of exactly where the check runs for want of one.
pub proof fn warning_goes_with_unknown_versions(
    protocol_version: Option<u64>,
    agent_name: Seq<char>,
    e: EventView,
)
    ensures
        version_unknown(EventView::Initialized { protocol_version, agent_name })
            <==> protocol_version is None && agent_name != "goose"@,
        !(e is Initialized) ==> !version_unknown(e),
{
}

/// The check's limits: two minutes of silence, three minutes in all, two hundred characters of an
/// excerpt.
pub proof fn check_limits()
    ensures
        PROBE_IDLE_TIMEOUT_SECS == 120,
        PROBE_MAX_DURATION_SECS == 180,
        MAX_EXCERPT == 200,
        NONCE_PREFIX@ == "BUZZ-PERSONA-CHECK-"@,
{
}

/// Outcomes, events and actions are seen by what they hold.
pub proof fn exchanges_are_seen_whole(
    outcome: PersonaCheckOutcome,
    event: ProbeEvent,
    action: ProbeAction,
)
    ensures
        outcome is Verified <==> outcome@ is Verified,
        outcome matches PersonaCheckOutcome::Mismatch { reply_excerpt } ==> outcome@
            == (OutcomeView::Mismatch { reply_excerpt: reply_excerpt@ }),
        outcome matches PersonaCheckOutcome::Indeterminate { reason } ==> outcome@
            == (OutcomeView::Indeterminate { reason: reason@ }),
        outcome matches PersonaCheckOutcome::Skipped { reason } ==> outcome@
            == (OutcomeView::Skipped { reason: reason@ }),
        event matches ProbeEvent::Initialized { protocol_version, agent_name } ==> event@
            == (EventView::Initialized { protocol_version, agent_name: agent_name@ }),
        event matches ProbeEvent::InitializeFailed { error } ==> event@
            == (EventView::InitializeFailed { error: error@ }),
        event matches ProbeEvent::SessionOpened { session } ==> event@
            == (EventView::SessionOpened { session: session@ }),
        event matches ProbeEvent::SessionFailed { error } ==> event@ == (EventView::SessionFailed {
            error: error@,
        }),
        event matches ProbeEvent::GoosePromptAnswered { accepted } ==> event@
            == (EventView::GoosePromptAnswered { accepted }),
        event matches ProbeEvent::TurnEnded { reply } ==> event@ == (EventView::TurnEnded {
            reply: text::option_text(reply),
        }),
        event matches ProbeEvent::TurnFailed { error } ==> event@ == (EventView::TurnFailed {
            error: error@,
        }),
        action is Initialize <==> action@ is Initialize,
        action matches ProbeAction::OpenSession { system_prompt, title } ==> action@
            == (ActionView::OpenSession {
            system_prompt: text::option_text(system_prompt),
            title: text::option_text(title),
        }),
        action matches ProbeAction::SetGooseSystemPrompt { session, prompt } ==> action@
            == (ActionView::SetGooseSystemPrompt { session: session@, prompt: prompt@ }),
        action matches ProbeAction::Prompt { session, prompt } ==> action@ == (ActionView::Prompt {
            session: session@,
            prompt: prompt@,
        }),
        action matches ProbeAction::Finish { outcome } ==> action@ == (ActionView::Finish {
            outcome: outcome@,
        }),
{
}

} // verus!
