use buzz_acp::event::{event_mentions_agent, EventRecord};
use buzz_acp::numeral::{parse_u32, write_decimal, write_signed_decimal};
use buzz_acp::restart::{
    driver_args, kickstart_outcome, launchctl_print_pid, launchd_service, lock_holder, lock_line,
    log_boot_receipt, needs_uid_lookup, parse_driver_args, parse_pid_file, receipt_line,
    resolve_target, restart_decision, script_outcome, DriverArgError, RespawnTarget, DRIVER_ARG,
    DRIVER_PID_FILE, DRIVER_RECEIPT_FILE, USAGE_EXIT_CODE,
};
use buzz_acp::text::{holds_text, trim};
use nostr::{EventBuilder, JsonUtil, Keys, Kind, Tag};

fn make_event(kind: u32, content: &str, p_hex: Option<&str>) -> EventRecord {
    let keys = Keys::generate();
    let tags = match p_hex {
        Some(hex) => vec![Tag::parse(["p", hex]).expect("p tag")],
        None => vec![],
    };
    let event = EventBuilder::new(Kind::Custom(kind as u16), content)
        .tags(tags)
        .sign_with_keys(&keys)
        .unwrap();
    let record = EventRecord::from_json(&event.as_json()).expect("an event");
    assert_eq!(record.pubkey, keys.public_key().to_hex());
    assert_eq!(record.id, event.id.to_hex());
    assert_eq!(record.content, content);
    record
}

#[test]
fn restart_decision_owner_mention_is_consumed() {
    let agent = "ab".repeat(32);
    let event = make_event(9, "!restart", Some(&agent));
    let owner = event.pubkey.clone();
    assert!(restart_decision(&event, 9, &agent, Some(&owner)));
}

#[test]
fn restart_decision_non_owner_falls_through() {
    let agent = "ab".repeat(32);
    let event = make_event(9, "!restart", Some(&agent));
    let someone_else = "cd".repeat(32);
    assert!(!restart_decision(&event, 9, &agent, Some(&someone_else)));
}

#[test]
fn restart_decision_wrong_shape_not_consumed() {
    let agent = "ab".repeat(32);
    let event = make_event(9, "!restart", Some(&agent));
    let owner = event.pubkey.clone();
    // wrong kind
    assert!(!restart_decision(&event, 1, &agent, Some(&owner)));
    // wrong content
    let wrong_content = make_event(9, "!shutdown", Some(&agent));
    assert!(!restart_decision(&wrong_content, 9, &agent, Some(&owner)));
    assert!(!restart_decision(&wrong_content, 9, &agent, Some(&wrong_content.pubkey)));
    // no mention of this agent
    let no_mention = make_event(9, "!restart", Some(&"ef".repeat(32)));
    assert!(!restart_decision(&no_mention, 9, &agent, Some(&owner)));
    assert!(!restart_decision(&no_mention, 9, &agent, Some(&no_mention.pubkey)));
    let untagged = make_event(9, "!restart", None);
    assert!(!restart_decision(&untagged, 9, &agent, Some(&untagged.pubkey)));
    // trimmed content still matches
    let padded = make_event(9, "  !restart  ", Some(&agent));
    let padded_owner = padded.pubkey.clone();
    assert!(restart_decision(&padded, 9, &agent, Some(&padded_owner)));
}

#[test]
fn restart_decision_missing_owner_fail_closed() {
    let agent = "ab".repeat(32);
    let event = make_event(9, "!restart", Some(&agent));
    assert!(!restart_decision(&event, 9, &agent, None));
}

#[test]
fn mentions_are_p_tags() {
    let tag = |parts: &[&str]| parts.iter().map(|s| s.to_string()).collect::<Vec<String>>();
    let mut event = EventRecord {
        id: String::new(),
        pubkey: String::new(),
        content: String::new(),
        tags: vec![tag(&["e", "me"]), tag(&["p"]), tag(&["p", "you", "me"])],
    };
    assert!(!event_mentions_agent(&event, "me"));
    event.tags.push(tag(&["p", "me", "wss://relay"]));
    assert!(event_mentions_agent(&event, "me"));
    assert!(EventRecord::from_json("{\"id\": 1}").is_none());
}

#[test]
fn target_precedence() {
    let launchd = RespawnTarget::Launchd { uid: "501".to_string(), label: "seat".to_string() };
    assert_eq!(resolve_target(Some("seat"), Some("501"), None, Some("/s.sh")), launchd);
    assert_eq!(resolve_target(Some("seat"), None, Some(" 501\n"), Some("/s.sh")), launchd);
    // The environment's user id is taken as it is, even where it is empty.
    assert_eq!(
        resolve_target(Some("seat"), Some(""), Some("501"), Some("/s.sh")),
        RespawnTarget::Script("/s.sh".to_string())
    );
    assert_eq!(
        resolve_target(Some("  "), Some("501"), None, Some("/s.sh")),
        RespawnTarget::Script("/s.sh".to_string())
    );
    assert_eq!(resolve_target(Some("seat"), None, None, None), RespawnTarget::Unset);
    assert_eq!(resolve_target(None, None, None, Some(" \t")), RespawnTarget::Unset);
    // The environment's user id makes what `id -u` says irrelevant.
    assert_eq!(
        resolve_target(Some("seat"), Some("501"), Some("0"), None),
        resolve_target(Some("seat"), Some("501"), None, None)
    );
    assert!(needs_uid_lookup(Some("seat"), None));
    assert!(!needs_uid_lookup(Some("seat"), Some("")));
    assert!(!needs_uid_lookup(Some(" "), None));
    assert!(!needs_uid_lookup(None, None));
}

fn words(line: &str) -> Vec<String> {
    line.split(' ').map(|w| w.to_string()).collect()
}

#[test]
fn driver_command_line_round_trip() {
    let launchd = RespawnTarget::Launchd { uid: "501".to_string(), label: "--uid".to_string() };
    let args = driver_args(&launchd, 42).unwrap();
    assert_eq!(args, words("--restart-driver 42 --label --uid --script - --uid 501"));
    let told = parse_driver_args(&args).unwrap();
    assert_eq!(told.parent_pid, 42);
    assert_eq!(told.target(), launchd);

    let script = RespawnTarget::Script("/seats/a b/start.sh".to_string());
    let args = driver_args(&script, u32::MAX).unwrap();
    let told = parse_driver_args(&args).unwrap();
    assert_eq!(told.parent_pid, u32::MAX);
    assert_eq!(told.target(), script);
    assert_eq!((told.label.as_str(), told.uid.as_str()), ("-", "-"));

    assert!(driver_args(&RespawnTarget::Unset, 1).is_none());
}

#[test]
fn malformed_driver_args_are_rejected() {
    let err = |line: &str| parse_driver_args(&words(line)).unwrap_err();
    assert_eq!(err("--restart-driver"), DriverArgError::MissingPid);
    assert_eq!(err("--label a --restart-driver"), DriverArgError::MissingPid);
    assert_eq!(err("--restart-driver 1 --label"), DriverArgError::Unexpected("--label".to_string()));
    assert_eq!(err("--restart-driver 1 extra"), DriverArgError::Unexpected("extra".to_string()));
    assert_eq!(err("--restart-driver x"), DriverArgError::NoValidPid);
    assert_eq!(err("--label a"), DriverArgError::NoValidPid);
    assert_eq!(parse_driver_args(&vec![]).unwrap_err(), DriverArgError::NoValidPid);
    // The last value of a flag counts, a bad pid included.
    assert_eq!(err("--restart-driver 1 --restart-driver x"), DriverArgError::NoValidPid);
    let told = parse_driver_args(&words("--label a --restart-driver 1 --label b")).unwrap();
    assert_eq!((told.parent_pid, told.label.as_str(), told.script.as_str()), (1, "b", "-"));
    assert_eq!(USAGE_EXIT_CODE, 2);
    assert_eq!(
        DriverArgError::MissingPid.message(),
        format!("restart-driver: missing pid after {DRIVER_ARG}")
    );
    assert_eq!(
        DriverArgError::Unexpected("x".to_string()).message(),
        "restart-driver: unexpected arg x"
    );
    assert_eq!(DriverArgError::NoValidPid.message(), "restart-driver: no valid pid");
}

#[test]
fn launchctl_output_gives_the_pid() {
    let out = "gui/501/seat = {\n\tactive count = 1\n\tpid = 4242\r\n\tpid = 1\n}\n";
    assert_eq!(launchctl_print_pid(out), Some(4242));
    assert_eq!(launchctl_print_pid("\tpid = soon\n pid =  7 "), Some(7));
    assert_eq!(launchctl_print_pid("state = waiting\n"), None);
    assert_eq!(launchctl_print_pid("pid =5"), None);
    assert_eq!(launchctl_print_pid(""), None);
    assert_eq!(launchd_service("501", "seat"), "gui/501/seat");
}

#[test]
fn launch_failures_are_told() {
    assert_eq!(kickstart_outcome(Ok((true, Some(0)))), Ok(()));
    assert_eq!(
        kickstart_outcome(Ok((false, Some(113)))),
        Err("launchctl kickstart exited 113".to_string())
    );
    assert_eq!(kickstart_outcome(Ok((false, None))), Err("launchctl kickstart exited -1".to_string()));
    assert_eq!(
        kickstart_outcome(Err("not found".to_string())),
        Err("launchctl spawn: not found".to_string())
    );
    assert_eq!(script_outcome("/s.sh", true, Ok(())), Ok(()));
    assert_eq!(
        script_outcome("/s.sh", false, Ok(())),
        Err("start script not found: /s.sh".to_string())
    );
    assert_eq!(
        script_outcome("/s.sh", true, Err("denied".to_string())),
        Err("start script spawn: denied".to_string())
    );
}

#[test]
fn locks_and_pid_files() {
    assert_eq!(lock_line(77), "77\n");
    assert_eq!(lock_holder(Some("77\n"), 77), None);
    assert_eq!(lock_holder(Some("77\n"), 78), Some(77));
    assert_eq!(lock_holder(Some("stale\n"), 78), None);
    assert_eq!(lock_holder(None, 78), None);
    assert_eq!(parse_pid_file(" 12 \n"), Some(12));
    assert_eq!(parse_pid_file(""), None);
    assert_eq!(DRIVER_PID_FILE, "restart-driver.pid");
}

#[test]
fn boot_receipt_consumed_once() {
    assert_eq!(receipt_line(123, 456, 789), "123 456 789\n");
    let boot = |receipt: Option<&str>| log_boot_receipt(receipt, None, 50, false);
    let first = boot(Some("123 456 789\n"));
    assert_eq!(first.log.as_deref(), Some("123 456 789"));
    assert!(first.consume);
    let own = boot(Some(&receipt_line(u64::MAX, 0, u32::MAX)));
    assert_eq!(own.log.as_deref(), Some("18446744073709551615 0 4294967295"));
    // The file is gone: a clean no-op.
    let second = boot(None);
    assert_eq!(second.log, None);
    assert!(!second.consume);
    // An empty receipt is removed without a word.
    let empty = boot(Some(" \n"));
    assert_eq!(empty.log, None);
    assert!(empty.consume);
    assert_eq!(DRIVER_RECEIPT_FILE, "restart-driver.receipt");
}

#[test]
fn numbers_are_read_as_u32() {
    for s in [
        "0", "7", "+7", "007", "4294967295", "4294967296", "99999999999999999999", "", "+", "-1",
        "++1", "1 ", " 1", "1a", "+0", "٣", "1_000",
    ] {
        assert_eq!(parse_u32(s), s.parse::<u32>().ok(), "{s:?}");
    }
    for n in [0u32, 1, 10, 4_294_967_295] {
        assert_eq!(parse_u32(&write_decimal(n as u128)), Some(n));
    }
    for n in [0u128, 9, 10, 4096, u64::MAX as u128, u128::MAX] {
        assert_eq!(write_decimal(n), n.to_string());
    }
    for n in [0i32, -1, i32::MIN, i32::MAX] {
        assert_eq!(write_signed_decimal(n), n.to_string());
    }
}

#[test]
fn trimming_goes_by_unicode_white_space() {
    for c in 0..0x11_0000u32 {
        if let Some(c) = char::from_u32(c) {
            if c.is_whitespace() || c < '\u{100}' || ('\u{1600}'..'\u{3100}').contains(&c) {
                let s = format!("{c}x{c}y{c}");
                assert_eq!(trim(&s), s.trim(), "{c:?}");
            }
        }
    }
    assert_eq!(trim(" \t\n"), "");
    assert_eq!(trim(""), "");
}

#[test]
fn substrings_are_found() {
    for (s, part) in [("abcabd", "abd"), ("", ""), ("a", ""), ("", "a"), ("aab", "ab"), ("ab", "ba")] {
        assert_eq!(holds_text(s, part), s.contains(part), "{part:?} in {s:?}");
    }
}

#[test]
fn live_driver_is_logged_at_boot() {
    let lock = lock_line(77);
    // The receipt is not there yet, the driver still is.
    let early = log_boot_receipt(None, Some(&lock), 50, true);
    assert_eq!(early.log.as_deref(), Some("driver 77"));
    assert!(!early.consume);
    // A dead driver, a lock of one's own or an unreadable lock is no restart.
    assert_eq!(log_boot_receipt(None, Some(&lock), 50, false).log, None);
    assert_eq!(log_boot_receipt(None, Some(&lock), 77, true).log, None);
    assert_eq!(log_boot_receipt(None, Some("stale\n"), 50, true).log, None);
    // One line: the receipt comes first.
    let both = log_boot_receipt(Some("1 2 3\n"), Some(&lock), 50, true);
    assert_eq!(both.log.as_deref(), Some("1 2 3"));
    assert!(both.consume);
    let empty = log_boot_receipt(Some("\n"), Some(&lock), 50, true);
    assert_eq!(empty.log.as_deref(), Some("driver 77"));
    assert!(empty.consume);
}

#[test]
fn skipped_launchd_mode_is_noticed() {
    assert!(!resolve_target(Some("seat"), Some("501"), None, None).skips_launchd());
    assert!(resolve_target(Some("seat"), None, None, Some("/s.sh")).skips_launchd());
    assert!(resolve_target(None, None, None, None).skips_launchd());
}

#[test]
fn flag_order_makes_no_difference() {
    let told = |line: &str| parse_driver_args(&words(line)).unwrap();
    let usual = told("--restart-driver 9 --label a --script - --uid 5");
    assert_eq!(told("--uid 5 --script - --label a --restart-driver 9"), usual);
    assert_eq!(told("--label a --uid 5 --restart-driver 9"), usual);
    assert_eq!(
        told("--label b --uid 5 --label a --restart-driver 9"),
        told("--uid 5 --label b --restart-driver 9 --label a")
    );
    let bare = told("--restart-driver 9");
    assert_eq!((bare.label.as_str(), bare.script.as_str(), bare.uid.as_str()), ("-", "-", "-"));
}
