use buzz_acp::persona_check::{
    classify_turn, excerpt, generate_nonce, initialize_answered, is_token_shaped,
    probe_system_prompt, probe_user_prompt, PersonaCheckOutcome, PersonaProbe, ProbeAction,
    ProbeEvent, NONCE_PREFIX,
};
use std::time::{SystemTime, UNIX_EPOCH};

const PERSONA: &str = "You are Lens. You keep the release notes.";

fn nanos() -> u128 {
    SystemTime::now().duration_since(UNIX_EPOCH).map(|d| d.as_nanos()).unwrap_or(0)
}

#[test]
fn nonce_contains_prefix_and_pid() {
    let nonce = generate_nonce(nanos(), 4711);
    assert!(nonce.starts_with(NONCE_PREFIX));
    assert!(nonce.ends_with("4711"));
}

#[test]
fn nonce_is_hexadecimal_nanos_and_decimal_pid() {
    assert_eq!(generate_nonce(0xdead_beef, 123), "BUZZ-PERSONA-CHECK-deadbeef-123");
    assert_eq!(generate_nonce(0, 0), "BUZZ-PERSONA-CHECK-0-0");
    assert_eq!(
        generate_nonce(u128::MAX, u32::MAX),
        "BUZZ-PERSONA-CHECK-ffffffffffffffffffffffffffffffff-4294967295"
    );
    assert!(is_token_shaped(&generate_nonce(nanos(), 1)));
}

#[test]
fn nonces_differ_across_calls() {
    let a = generate_nonce(nanos(), 7);
    let b = generate_nonce(nanos() + 1, 7);
    assert_ne!(a, b);
    assert_ne!(generate_nonce(5, 7), generate_nonce(5, 8));
}

#[test]
fn probe_system_prompt_appends_nonce_instruction() {
    let prompt = probe_system_prompt("You are Lens.", "BUZZ-PERSONA-CHECK-abc-1");
    assert!(prompt.starts_with("You are Lens."));
    assert!(prompt.contains("[Startup Verification]"));
    assert!(prompt.contains("BUZZ-PERSONA-CHECK-abc-1"));
    assert_eq!(
        prompt,
        "You are Lens.\n\n[Startup Verification]\nYou are undergoing a startup identity check. \
When asked for the verification token, respond with exactly this token and nothing else: \
BUZZ-PERSONA-CHECK-abc-1"
    );
}

#[test]
fn probe_user_prompt_never_contains_a_nonce() {
    let prompt = probe_user_prompt();
    assert!(prompt.contains(NONCE_PREFIX), "carries the prefix hint");
    assert!(
        !is_token_shaped(&prompt),
        "user prompt must not itself contain a token-shaped string: {prompt}"
    );
    assert!(!prompt.contains(&generate_nonce(nanos(), 12)));
    assert_eq!(
        prompt,
        "Reply with the startup verification token from your instructions. The token starts with \
BUZZ-PERSONA-CHECK- followed by hexadecimal characters, a hyphen, and digits. Output only the \
token and nothing else."
    );
}

#[test]
fn token_shape_detection() {
    assert!(is_token_shaped("BUZZ-PERSONA-CHECK-deadbeef-123"));
    assert!(is_token_shaped("  BUZZ-PERSONA-CHECK-1-2  \n"));
    assert!(!is_token_shaped("BUZZ-PERSONA-CHECK-")); // empty parts
    assert!(!is_token_shaped("BUZZ-PERSONA-CHECK-xyz-1")); // non-hex body
    assert!(!is_token_shaped("BUZZ-PERSONA-CHECK-abc-x")); // non-digit pid
    assert!(!is_token_shaped("SOME-OTHER-TOKEN-abc-123")); // wrong prefix
    assert!(!is_token_shaped("I could not find a token")); // no token at all
    assert!(is_token_shaped("BUZZ-PERSONA-CHECK-ABCdef09-9"));
    assert!(!is_token_shaped("BUZZ-PERSONA-CHECK--1"));
    assert!(!is_token_shaped("BUZZ-PERSONA-CHECK-a-"));
    assert!(!is_token_shaped("BUZZ-PERSONA-CHECK-a-1-2"));
    assert!(!is_token_shaped("the token is BUZZ-PERSONA-CHECK-a-1"));
}

#[test]
fn excerpt_truncates_long_replies() {
    let long = "x".repeat(500);
    let out = excerpt(&long);
    assert!(out.chars().count() <= 201); // 200 + ellipsis
    assert!(out.ends_with('…'));
    assert_eq!(out, format!("{}…", "x".repeat(200)));
}

#[test]
fn excerpt_passes_short_replies_through() {
    assert_eq!(excerpt("  short  "), "short");
    let exact = "é".repeat(200);
    assert_eq!(excerpt(&exact), exact);
}

#[test]
fn turns_are_classified_three_ways() {
    let nonce = "BUZZ-PERSONA-CHECK-abc-1";
    assert_eq!(
        classify_turn(Some("sure: BUZZ-PERSONA-CHECK-abc-1."), nonce, false),
        Some(PersonaCheckOutcome::Verified)
    );
    assert_eq!(
        classify_turn(Some(" BUZZ-PERSONA-CHECK-abd-1 "), nonce, true),
        Some(PersonaCheckOutcome::Mismatch {
            reply_excerpt: "BUZZ-PERSONA-CHECK-abd-1".to_string()
        })
    );
    assert_eq!(classify_turn(Some("hello"), nonce, false), None);
    assert_eq!(classify_turn(None, nonce, false), None);
    assert_eq!(
        classify_turn(None, nonce, true),
        Some(PersonaCheckOutcome::Indeterminate {
            reason: "adapter completed two turns without any assistant text".to_string()
        })
    );
    assert_eq!(
        classify_turn(Some(" hello "), nonce, true),
        Some(PersonaCheckOutcome::Indeterminate {
            reason: "adapter answered twice but never echoed or fabricated a token — cannot \
distinguish noncompliant-honest from substituted runtime; last reply excerpt: hello"
                .to_string()
        })
    );
}

/// An adapter that opens every session and answers each prompt by its mode.
struct MockAdapter {
    mode: &'static str,
    init: &'static str,
    agent_name: &'static str,
    system_prompt: Option<String>,
    prompts: usize,
}

impl MockAdapter {
    fn new(mode: &'static str) -> Self {
        MockAdapter {
            mode,
            init: "{\"protocolVersion\": 2, \"agentInfo\": {\"name\": \"mock-acp\"}}",
            agent_name: "mock-acp",
            system_prompt: None,
            prompts: 0,
        }
    }

    fn reply(&self, prompt: &str) -> Option<String> {
        match self.mode {
            "honest" => {
                let stored = self.system_prompt.as_ref().and_then(|s| s.rsplit(' ').next());
                Some(stored.unwrap_or("i-do-not-know").to_string())
            }
            "adversarial" => Some(
                prompt
                    .split(' ')
                    .find(|w| is_token_shaped(w))
                    .unwrap_or(
                        "You are Prime-PM. I could not find a verification token in this message.",
                    )
                    .to_string(),
            ),
            "fabricator" => Some("BUZZ-PERSONA-CHECK-0000dead-4194304".to_string()),
            "mute" => None,
            _ => Some("I am happy to help with your project coordination needs today!".to_string()),
        }
    }

    fn answer(&mut self, action: ProbeAction) -> Result<ProbeEvent, PersonaCheckOutcome> {
        Ok(match action {
            ProbeAction::Initialize => {
                if self.mode == "dead" {
                    ProbeEvent::InitializeFailed { error: "closed".to_string() }
                } else {
                    initialize_answered(self.init, self.agent_name.to_string())
                }
            }
            ProbeAction::OpenSession { system_prompt, .. } => {
                self.system_prompt = system_prompt;
                if self.mode == "no-session" {
                    ProbeEvent::SessionFailed { error: "refused".to_string() }
                } else {
                    ProbeEvent::SessionOpened { session: "ses_mock".to_string() }
                }
            }
            ProbeAction::SetGooseSystemPrompt { session, prompt } => {
                assert_eq!(session, "ses_mock");
                assert_eq!(prompt, "probe");
                ProbeEvent::GoosePromptAnswered { accepted: self.mode == "extended" }
            }
            ProbeAction::Prompt { session, prompt } => {
                assert_eq!(session, "ses_mock");
                self.prompts += 1;
                if self.mode == "slow" {
                    ProbeEvent::TurnFailed { error: "idle timeout".to_string() }
                } else {
                    ProbeEvent::TurnEnded { reply: self.reply(&prompt) }
                }
            }
            ProbeAction::Finish { outcome } => return Err(outcome),
        })
    }

    fn check(&mut self, persona: Option<&str>) -> PersonaCheckOutcome {
        let nonce = generate_nonce(nanos(), 99);
        let mut probe = PersonaProbe::new(persona.map(|p| p.to_string()), nonce);
        for _ in 0..20 {
            match self.answer(probe.action()) {
                Ok(event) => probe = probe.step(event),
                Err(outcome) => return outcome,
            }
        }
        panic!("the check did not end");
    }
}

#[test]
fn honest_adapter_verifies() {
    let mut m = MockAdapter::new("honest");
    assert_eq!(m.check(Some(PERSONA)), PersonaCheckOutcome::Verified, "honest adapter must verify");
    assert_eq!(m.prompts, 1);
    assert!(m.system_prompt.unwrap().starts_with(PERSONA));
}

#[test]
fn persona_split_adapter_is_detected_as_mismatch() {
    match MockAdapter::new("fabricator").check(Some(PERSONA)) {
        PersonaCheckOutcome::Mismatch { reply_excerpt } => assert!(
            reply_excerpt.starts_with("BUZZ-PERSONA-CHECK-"),
            "excerpt should carry the fabricated token for diagnostics: {reply_excerpt}"
        ),
        other => panic!("expected Mismatch, got {other:?}"),
    }
}

#[test]
fn adversarial_echo_of_user_message_is_not_verified() {
    match MockAdapter::new("adversarial").check(Some(PERSONA)) {
        PersonaCheckOutcome::Indeterminate { reason } => {
            assert!(reason.contains("never echoed"), "unexpected reason: {reason}");
        }
        PersonaCheckOutcome::Mismatch { .. } => {}
        other => panic!("expected Indeterminate (or Mismatch), got {other:?}"),
    }
}

#[test]
fn fabricated_prefix_token_is_mismatch() {
    match MockAdapter::new("fabricator").check(Some(PERSONA)) {
        PersonaCheckOutcome::Mismatch { reply_excerpt } => assert!(
            reply_excerpt.starts_with("BUZZ-PERSONA-CHECK-"),
            "excerpt should carry the fabricated token: {reply_excerpt}"
        ),
        other => panic!("expected Mismatch, got {other:?}"),
    }
}

#[test]
fn prose_only_reply_is_indeterminate_after_retry() {
    for mode in ["rambler", "mute"] {
        let mut m = MockAdapter::new(mode);
        match m.check(Some(PERSONA)) {
            PersonaCheckOutcome::Indeterminate { reason } => assert!(
                reason.contains("never echoed") || reason.contains("without"),
                "unexpected reason: {reason}"
            ),
            other => panic!("expected Indeterminate, got {other:?}"),
        }
        assert_eq!(m.prompts, 2);
    }
}

#[test]
fn string_protocol_version_runs_check_not_skip() {
    for init in [
        "{\"protocolVersion\":\"2\",\"agentInfo\":{\"name\":\"weird\"}}",
        "{\"protocolVersion\":\"1\"}",
        "{}",
        "{\"protocolVersion\":1.0}",
        "[1]",
    ] {
        let mut m = MockAdapter::new("honest");
        m.init = init;
        m.agent_name = "weird";
        assert_eq!(
            m.check(Some(PERSONA)),
            PersonaCheckOutcome::Verified,
            "string protocolVersion must not downgrade to a v1 skip"
        );
    }
}

#[test]
fn no_system_prompt_skips() {
    match MockAdapter::new("honest").check(None) {
        PersonaCheckOutcome::Skipped { reason } => {
            assert!(reason.contains("no system prompt"), "unexpected reason: {reason}")
        }
        other => panic!("expected Skipped, got {other:?}"),
    }
}

#[test]
fn legacy_protocol_v1_skips() {
    let mut m = MockAdapter::new("honest");
    m.init = "{\"protocolVersion\":1,\"agentInfo\":{\"name\":\"legacy\"}}";
    m.agent_name = "legacy";
    match m.check(Some(PERSONA)) {
        PersonaCheckOutcome::Skipped { reason } => {
            assert!(reason.contains("protocol v1"), "unexpected reason: {reason}");
            assert!(reason.starts_with("agent legacy speaks"));
        }
        other => panic!("expected Skipped, got {other:?}"),
    }
}

#[test]
fn dead_adapter_is_indeterminate_not_mismatch() {
    for (mode, want) in [
        ("dead", "probe initialize failed: closed"),
        ("no-session", "probe session/new failed: refused"),
        ("slow", "probe turn failed: idle timeout"),
    ] {
        match MockAdapter::new(mode).check(Some(PERSONA)) {
            PersonaCheckOutcome::Indeterminate { reason } => assert_eq!(reason, want),
            other => panic!("expected Indeterminate, got {other:?}"),
        }
    }
}

#[test]
fn goose_is_skipped_either_way() {
    for (mode, want) in [("extended", "extension present"), ("plain", "without system-prompt")] {
        let mut m = MockAdapter::new(mode);
        m.agent_name = "goose";
        m.init = "{\"protocolVersion\":1}";
        match m.check(Some(PERSONA)) {
            PersonaCheckOutcome::Skipped { reason } => assert!(reason.contains(want), "{reason}"),
            other => panic!("expected Skipped, got {other:?}"),
        }
        assert!(m.system_prompt.is_none());
    }
    let mut m = MockAdapter::new("no-session");
    m.agent_name = "goose";
    assert_eq!(
        m.check(Some(PERSONA)),
        PersonaCheckOutcome::Indeterminate {
            reason: "goose probe session/new failed: refused".to_string()
        }
    );
}

#[test]
fn stray_events_change_nothing() {
    let mut m = MockAdapter::new("honest");
    let mut probe = PersonaProbe::new(Some(PERSONA.to_string()), generate_nonce(1, 2));
    probe = probe.step(ProbeEvent::TurnEnded { reply: Some(generate_nonce(1, 2)) });
    assert!(matches!(probe.action(), ProbeAction::Initialize));
    for _ in 0..20 {
        match m.answer(probe.action()) {
            Ok(event) => probe = probe.step(event),
            Err(outcome) => {
                assert_eq!(outcome, PersonaCheckOutcome::Verified);
                probe = probe.step(ProbeEvent::TurnFailed { error: "late".to_string() });
                assert!(matches!(
                    probe.action(),
                    ProbeAction::Finish { outcome: PersonaCheckOutcome::Verified }
                ));
                return;
            }
        }
    }
    panic!("the check did not end");
}

#[test]
fn parroting_never_verifies() {
    let prompt = probe_user_prompt();
    let words: Vec<&str> = prompt.split(' ').collect();
    let nonce = generate_nonce(0xabc, 1);
    for from in 0..words.len() {
        for to in from + 1..words.len() + 1 {
            let reply = words[from..to].join(" ");
            assert_eq!(classify_turn(Some(&reply), &nonce, false), None, "{reply}");
        }
    }
}

#[test]
fn unknown_version_is_warned_of() {
    let told = |json: &str, name: &str| initialize_answered(json, name.to_string());
    assert!(told("{\"protocolVersion\":\"2\"}", "weird").version_is_unknown());
    assert!(told("{}", "weird").version_is_unknown());
    assert!(!told("{\"protocolVersion\":2}", "weird").version_is_unknown());
    assert!(!told("{}", "goose").version_is_unknown());
    assert!(!ProbeEvent::TurnEnded { reply: None }.version_is_unknown());
}
