use buzz_acp::engram_fetch::{
    build_core_section, core_hash12, core_query, decode_core_body, decode_scanned, fetch_core_section,
    nudge_section, readable_entries, relay_entries, scan_candidates, section_profile, Body, CoreFetch, Decryption,
    RefreshCounters, ONBOARDING_NUDGE, SECTION_LABEL,
};
use nostr::{Event, EventBuilder, Keys, Kind};

fn signed(keys: &Keys, content: &str) -> Event {
    EventBuilder::new(Kind::Custom(30174), content)
        .custom_created_at(nostr::Timestamp::from(1_700_000_000u64))
        .sign_with_keys(keys)
        .unwrap()
}

fn json_of(event: &Event) -> String {
    serde_json::to_string(event).unwrap()
}

#[test]
fn section_profile_strips_rendered_header() {
    let section = format!("[{SECTION_LABEL}]\nprofile body");
    assert_eq!(section_profile(&section), "profile body");
    // A string without the header passes through unchanged.
    assert_eq!(section_profile("bare"), "bare");
}

#[test]
fn core_hash12_matches_value_sha_prefix() {
    assert_eq!(core_hash12("abc"), "ba7816bf8f01");
    assert_eq!(core_hash12("").len(), 12);
    assert_eq!(core_hash12(""), "e3b0c44298fc");
}

#[test]
fn core_hash12_goes_by_utf8() {
    // SHA-256 of the bytes c3 a9.
    assert_eq!(core_hash12("\u{e9}"), "4a99557e4033");
}

#[test]
fn decode_empty_array_is_confirmed_absence() {
    let entries: Vec<String> = vec![];
    let out = decode_core_body(&entries, &vec![], None).unwrap();
    assert_eq!(out, None);
}

#[test]
fn decode_valid_core_returns_profile() {
    let agent = Keys::generate();
    let ev = signed(&agent, "ciphertext");
    let id = ev.id.to_hex();
    let entries = vec![json_of(&ev)];
    let outcomes: Vec<Decryption> = vec![Ok(Body::Core { profile: "I am Sami.".to_string() })];
    let out = decode_core_body(&entries, &outcomes, Some(&id)).unwrap();
    assert_eq!(out.as_deref(), Some("I am Sami."));
}

#[test]
fn decode_undecryptable_candidate_is_err_not_absent() {
    let agent = Keys::generate();
    let ev = signed(&agent, "for someone else");
    let entries = vec![json_of(&ev)];
    let outcomes: Vec<Decryption> = vec![Err("bad mac".to_string())];
    let result = decode_core_body(&entries, &outcomes, None);
    assert!(result.is_err(), "expected Err, got: {result:?}");
    let msg = result.unwrap_err();
    assert!(msg.contains("decryptable"), "got: {msg}");
    assert_eq!(
        msg,
        "1 core candidate(s) returned but none decryptable                  (last error: bad mac)"
    );
}

#[test]
fn decode_non_core_body_is_absent() {
    let agent = Keys::generate();
    let ev = signed(&agent, "ciphertext");
    let id = ev.id.to_hex();
    let entries = vec![json_of(&ev)];
    let outcomes: Vec<Decryption> =
        vec![Ok(Body::Memory { slug: "mem/x".to_string(), value: None })];
    let out = decode_core_body(&entries, &outcomes, Some(&id)).unwrap();
    assert_eq!(out, None);
}

#[test]
fn decode_unparseable_candidates_is_err() {
    let entries = vec!["{\"not\":\"an event\"}".to_string(), "\"garbage\"".to_string()];
    let outcomes: Vec<Decryption> = vec![
        Ok(Body::Core { profile: "must not be looked at".to_string() }),
        Err("must not be looked at".to_string()),
    ];
    let result = decode_core_body(&entries, &outcomes, None);
    assert!(result.is_err(), "expected Err, got: {result:?}");
    assert_eq!(
        result.unwrap_err(),
        "relay returned core candidate(s) that could not be parsed or verified"
    );
}

#[test]
fn scan_keeps_verified_events_only() {
    let agent = Keys::generate();
    let ev = signed(&agent, "ciphertext");
    let forged = json_of(&ev).replace("ciphertext", "tampered!!");
    let entries = vec!["{}".to_string(), json_of(&ev), forged, "not json".to_string()];
    let ids = scan_candidates(&entries);
    assert_eq!(ids, vec![None, Some(ev.id.to_hex()), None, None]);
}

#[test]
fn decode_reads_the_chosen_head() {
    let agent = Keys::generate();
    let old = signed(&agent, "one");
    let new = signed(&agent, "two");
    let entries = vec![json_of(&old), json_of(&new)];
    let outcomes: Vec<Decryption> = vec![
        Ok(Body::Core { profile: "old self".to_string() }),
        Ok(Body::Core { profile: "new self".to_string() }),
    ];
    let head = new.id.to_hex();
    let out = decode_core_body(&entries, &outcomes, Some(&head)).unwrap();
    assert_eq!(out.as_deref(), Some("new self"));
    assert_eq!(decode_core_body(&entries, &outcomes, None).unwrap(), None);
}

#[test]
fn decode_reports_the_last_error_and_the_count() {
    let ids = vec![Some("a".to_string()), None, Some("b".to_string()), None];
    let outcomes: Vec<Decryption> = vec![
        Err("first".to_string()),
        Err("skipped".to_string()),
        Err("second".to_string()),
        Err("skipped too".to_string()),
    ];
    assert_eq!(
        decode_scanned(&ids, &outcomes, Some("a")).unwrap_err(),
        "2 core candidate(s) returned but none decryptable                  (last error: second)"
    );
}

#[test]
fn one_readable_entry_is_enough() {
    let ids = vec![Some("a".to_string()), Some("b".to_string())];
    let outcomes: Vec<Decryption> = vec![
        Err("nope".to_string()),
        Ok(Body::Core { profile: "me".to_string() }),
    ];
    assert_eq!(decode_scanned(&ids, &outcomes, Some("b")).unwrap().as_deref(), Some("me"));
    // The head is looked for among the readable entries alone.
    assert_eq!(decode_scanned(&ids, &outcomes, Some("a")).unwrap(), None);
}

#[test]
fn relay_reply_is_split_or_refused() {
    let entries = relay_entries(Ok("[{\"a\": 1}, 2, \"x\"]".to_string())).unwrap();
    assert_eq!(entries, vec!["{\"a\":1}", "2", "\"x\""]);
    assert_eq!(
        relay_entries(Ok("{\"a\":1}".to_string())).unwrap_err(),
        "relay query returned non-array"
    );
    assert_eq!(
        relay_entries(Err("timed out".to_string())).unwrap_err(),
        "relay query failed: timed out"
    );
}

#[test]
fn sections_by_outcome() {
    match fetch_core_section(Ok(Some("me".to_string()))) {
        CoreFetch::Section(s) => {
            assert_eq!(s, "[Agent Memory \u{2014} core]\nme");
            assert_eq!(section_profile(&s), "me");
        }
        _ => panic!("expected a section"),
    }
    let nudge = build_core_section(fetch_core_section(Ok(None))).unwrap();
    assert_eq!(nudge, nudge_section());
    assert_eq!(nudge, format!("[{SECTION_LABEL}]\n{ONBOARDING_NUDGE}"));
    assert!(ONBOARDING_NUDGE.starts_with("No core memory found. Use `buzz mem set core \"\u{2026}\"`"));
    assert!(build_core_section(fetch_core_section(Err("outage".to_string()))).is_none());
    let unread = relay_entries(Ok("null".to_string())).unwrap_err();
    assert!(build_core_section(fetch_core_section(Err(unread))).is_none());
    assert!(matches!(fetch_core_section(Err("outage".to_string())), CoreFetch::Failed(r) if r == "outage"));
}

#[test]
fn refresh_counters_count_by_reason() {
    let mut c = RefreshCounters::new();
    assert_eq!(c.note_refresh_failed(), 1);
    assert_eq!(c.note_refresh_failed(), 2);
    assert_eq!(c.note_refresh_timeout(), 1);
    assert_eq!(c.note_refresh_absent_lkg(), 1);
    assert_eq!((c.failed, c.timeout, c.absent_lkg), (2, 1, 1));
}

#[test]
fn the_relay_is_asked_for_the_core_alone() {
    let q = core_query("aa", "bb", "slot");
    assert_eq!((q.kind, q.limit), (30174, 16));
    assert_eq!((q.author.as_str(), q.p.as_str(), q.d.as_str()), ("aa", "bb", "slot"));
}

#[test]
fn the_head_is_chosen_among_readable_entries() {
    let id = |s: &str| Some(s.to_string());
    let core = |s: &str| -> Decryption { Ok(Body::Core { profile: s.to_string() }) };
    let ids = vec![id("a"), None, id("b"), id("c"), id("d")];
    let outcomes: Vec<Decryption> = vec![
        Err("bad mac".to_string()),
        core("unverified"),
        core("two"),
        Ok(Body::Memory { slug: "mem/x".to_string(), value: None }),
        Err("bad mac".to_string()),
    ];
    let readable = readable_entries(&ids, &outcomes);
    assert_eq!(readable, vec![2, 3]);
    let told: Vec<Option<String>> = readable
        .iter()
        .map(|i| decode_scanned(&ids, &outcomes, ids[*i].as_deref()).unwrap())
        .collect();
    assert_eq!(told, vec![Some("two".to_string()), None]);
    assert!(readable_entries(&vec![], &vec![]).is_empty());
}

#[test]
fn unreadable_entries_make_no_difference() {
    let id = |s: &str| Some(s.to_string());
    let core = |s: &str| -> Decryption { Ok(Body::Core { profile: s.to_string() }) };
    let ids = vec![id("a"), id("b"), None, id("b"), id("c")];
    let outcomes: Vec<Decryption> =
        vec![Err("x".to_string()), core("one"), core("no"), core("two"), Err("y".to_string())];
    let kept_ids = vec![id("b"), id("b")];
    let kept_outcomes: Vec<Decryption> = vec![core("one"), core("two")];
    for head in [None, Some("a"), Some("b"), Some("c"), Some("d")] {
        assert_eq!(
            decode_scanned(&ids, &outcomes, head),
            decode_scanned(&kept_ids, &kept_outcomes, head)
        );
    }
}
