use post::cli::SendArgs;
use post::context::{
    acting_room, ensure_sender_allowed, explicit_room, find_blocking_rule, infer_from_cwd, Context,
    RoomTree,
};
use post::delivery::{archive_path, inbox_path, Delivery, DeliveryEvent, Draft};
use post::error::{AppError, ErrorCode};
use post::ids::{
    format_local_timestamp, format_local_timestamp_micros, is_canonical_channel_message_id,
    is_mail_id, new_mail_id, CivilTime,
};
use post::mail::{
    accept_mail, ascii_escape_json, files_with_extension, frame_message, is_named_after,
    malformed_envelope, split_mail, split_message, validate_envelope,
};
use post::model::{BlockingRule, Envelope, MailKind, RulesConfig, SenderProvenance};
use post::names::{
    closest_room, levenshtein, refused_profile_char, shell_quote, validate_component,
    validate_room_name,
};
use post::paths::{
    component_count, file_extension, file_stem, is_inside, join_path, path_file_name,
};
use post::send::{
    body_file_missing, body_file_unreadable, body_missing, check_body, check_not_empty,
    check_recipient, check_self_send, choose_identity, declared_env_pin, declared_sender_address,
    ensure_route_allowed, inferred_notice, inline_names_file, is_watch_event_line,
    needs_location_check, pinned_notice, plan_body, send_fix_prefix, sent_receipt,
    validate_subject, BodyPlan, IdentityChoice,
};
use post::store::{
    plan_replacement, temporary_name, Commit, Outcome, Place, Writing, PRIVATE_MODE,
};
use post::textmap::RoomMap;
use std::time::{SystemTime, UNIX_EPOCH};

fn context() -> Context {
    Context { root: "/store".to_owned(), home: "/home/me".to_owned() }
}

fn rooms(names: &[&str]) -> RoomMap {
    let mut map = RoomMap::new();
    for name in names {
        map.insert(name, format!("~/{name}"));
    }
    map
}

fn rule(from: &str, to: &str, reason: &str) -> BlockingRule {
    BlockingRule { from: from.to_owned(), to: to.to_owned(), reason: reason.to_owned() }
}

fn envelope(id: &str) -> Envelope {
    Envelope {
        id: id.to_owned(),
        from: "beta".to_owned(),
        to: "alpha".to_owned(),
        kind: MailKind::Letter,
        subject: "hello".to_owned(),
        sent: "2026-07-22 01:30:00 -0500".to_owned(),
        display_name: None,
        pfp: None,
        sender_address: None,
        sender_provenance: None,
    }
}

fn draft(from: &str) -> Draft {
    Draft {
        from: from.to_owned(),
        to: "cloud-space".to_owned(),
        kind: MailKind::Note,
        subject: String::new(),
        sent: "2026-07-15 12:00:00 -0500".to_owned(),
        display_name: None,
        pfp: None,
        sender_address: None,
        provenance: SenderProvenance::DeclaredFlag,
    }
}

/// The calendar time of a moment in UTC.
fn civil(seconds: u64) -> CivilTime {
    let mut days = seconds / 86_400;
    let mut year = 1970;
    let leap = |y: u64| (y % 4 == 0 && y % 100 != 0) || y % 400 == 0;
    loop {
        let length = if leap(year) { 366 } else { 365 };
        if days < length {
            break;
        }
        days -= length;
        year += 1;
    }
    let mut month = 1;
    let lengths = [31, if leap(year) { 29 } else { 28 }, 31, 30, 31, 30, 31, 31, 30, 31, 30, 31];
    for length in lengths {
        if days < length {
            break;
        }
        days -= length;
        month += 1;
    }
    let rest = seconds % 86_400;
    CivilTime {
        year: year as u32,
        month,
        day: days as u32 + 1,
        hour: (rest / 3600) as u32,
        minute: (rest % 3600 / 60) as u32,
        second: (rest % 60) as u32,
    }
}

#[test]
fn ascii_escape_matches_python_ensure_ascii_including_del() {
    assert_eq!(
        ascii_escape_json("{\"s\": \"\u{7f} café 😀\"}"),
        "{\"s\": \"\\u007f caf\\u00e9 \\ud83d\\ude00\"}"
    );
}

#[test]
fn ascii_text_needs_no_escape() {
    assert_eq!(ascii_escape_json("{\"a\": 1}\n"), "{\"a\": 1}\n");
    assert_eq!(ascii_escape_json("\u{80}\u{ffff}\u{10000}"), "\\u0080\\uffff\\ud800\\udc00");
}

#[test]
fn messages_are_framed_and_read_back() {
    let raw = frame_message("{\"id\": \"é\"}", "line\n---\nmore");
    assert_eq!(
        split_message(&raw),
        Some(("{\"id\": \"\\u00e9\"}".to_owned(), "line\n---\nmore".to_owned()))
    );
    assert_eq!(split_message("no separator"), None);
    let error = split_mail("/m/x.mail", "no separator").expect_err("no separator");
    assert_eq!(error.code, ErrorCode::ConfigInvalid);
}

#[test]
fn local_timestamp_keeps_reference_id_and_sent_byte_formats() {
    let now = SystemTime::now().duration_since(UNIX_EPOCH).unwrap().as_secs();
    let time = civil(now);
    let (id_time, sent) = format_local_timestamp(&time, &time, 0);
    assert_eq!(id_time.len(), 15);
    assert_eq!(id_time.as_bytes()[8], b'-');
    assert!(id_time
        .bytes()
        .enumerate()
        .all(|(index, byte)| index == 8 || byte.is_ascii_digit()));
    assert_eq!(sent.len(), 25);
    assert_eq!(&sent[4..5], "-");
    assert_eq!(&sent[7..8], "-");
    assert_eq!(&sent[10..11], " ");
    assert_eq!(&sent[13..14], ":");
    assert_eq!(&sent[16..17], ":");
    assert!(matches!(&sent[20..21], "+" | "-"));
    assert!(sent
        .bytes()
        .enumerate()
        .filter(|(index, _)| !matches!(index, 4 | 7 | 10 | 13 | 16 | 19 | 20))
        .all(|(_, byte)| byte.is_ascii_digit()));
}

#[test]
fn local_timestamp_matches_exact_positive_and_negative_offset_fixtures() {
    let utc = civil(1_700_000_000);
    // The id timestamp is UTC in every timezone (1_700_000_000 =
    // 2023-11-14 22:13:20Z); only `sent` carries local wall time.
    let kathmandu = civil(1_700_000_000 + 20_700);
    assert_eq!(
        format_local_timestamp(&utc, &kathmandu, 20_700),
        ("20231114-221320".to_owned(), "2023-11-15 03:58:20 +0545".to_owned())
    );
    let new_york = civil(1_700_000_000 - 18_000);
    assert_eq!(
        format_local_timestamp(&utc, &new_york, -18_000),
        ("20231114-221320".to_owned(), "2023-11-14 17:13:20 -0500".to_owned())
    );
    assert_eq!(
        format_local_timestamp_micros(&utc, &utc, 0, 42),
        ("20231114-221320-000042".to_owned(), "2023-11-14 22:13:20 +0000".to_owned())
    );
}

#[test]
fn ids_have_their_shapes() {
    let id = new_mail_id("20231114-221320", 0, 0, 0xabc, 0);
    assert_eq!(id, "20231114-221320-000abc");
    assert!(is_mail_id(&id));
    let long = new_mail_id("20231114-221320-000042", 0x0123_4567, 0, 0, 1);
    assert_eq!(long, "20231114-221320-000042-234566");
    assert!(is_canonical_channel_message_id(&long));
    assert!(!is_mail_id(&long));
    assert!(is_mail_id("20260715-120000-ABCDEF"));
    assert!(!is_mail_id("20260715-120000-ABCDEG"));
    assert!(!is_mail_id("20260715_120000-abcdef"));
    assert!(!is_mail_id(""));
    // The counter is turned by seventeen bits, so two ids of one moment differ.
    assert_eq!(new_mail_id("20231114-221320", 0, 1, 0, 0), "20231114-221320-020000");
}

#[test]
fn envelopes_are_validated() {
    validate_envelope("/m", &envelope("20260722-013000-aaaaaa")).expect("valid");
    let broken: Vec<Envelope> = vec![
        envelope("short"),
        Envelope { from: " ".to_owned(), ..envelope("20260722-013000-aaaaaa") },
        Envelope { to: String::new(), ..envelope("20260722-013000-aaaaaa") },
        Envelope { sent: " ".to_owned(), ..envelope("20260722-013000-aaaaaa") },
        Envelope {
            display_name: Some("a\u{202e}b".to_owned()),
            ..envelope("20260722-013000-aaaaaa")
        },
    ];
    for envelope in &broken {
        let error = validate_envelope("/m", envelope).expect_err("refused");
        assert_eq!(error.code, ErrorCode::ConfigInvalid, "{envelope:?}");
    }
}

#[test]
fn mail_files_are_named_after_their_ids() {
    let id = "20260722-013000-aaaaaa";
    assert!(is_named_after(&format!("/m/{id}.mail"), id));
    assert!(!is_named_after("/m/other.mail", id));
    let mail = accept_mail(&format!("/m/{id}.mail"), envelope(id), "body".to_owned()).expect("ok");
    assert_eq!(mail.body, "body");
    assert!(accept_mail("/m/other.mail", envelope(id), "body".to_owned()).is_err());
    assert_eq!(malformed_envelope("/m", "why").code, ErrorCode::ConfigInvalid);
    let listed: Vec<String> =
        ["b.mail", "a.mail", "c.txt", ".mail", "noext"].iter().map(|s| (*s).to_owned()).collect();
    assert_eq!(
        files_with_extension(&listed, "mail"),
        vec!["a.mail".to_owned(), "b.mail".to_owned()]
    );
}

#[test]
fn body_after_rule_add_is_refused_before_any_mail_write() {
    let context = context();
    let draft = draft("race-test");
    let state = Delivery::start()
        .step(&context, &draft, DeliveryEvent::Id("20260715-120000-aaaaaa".to_owned()));
    assert!(matches!(&state, Delivery::CheckRoute { .. }));
    let state = state.step(
        &context,
        &draft,
        DeliveryEvent::Rules(vec![rule("race-test", "cloud-space", "added while body was read")]),
    );
    match state {
        Delivery::Failed { error } => assert_eq!(error.code.as_str(), "blocked_route"),
        other => panic!("rule added during body read must block delivery: {other:?}"),
    }
}

#[test]
fn inbox_id_collision_retries_before_writing_any_archive_copy() {
    let context = context();
    let draft = draft("collision-test");
    let inbox = "/store/cloud-space/inbox";
    let state = Delivery::start()
        .step(&context, &draft, DeliveryEvent::Id("20260715-120000-aaaaaa".to_owned()))
        .step(&context, &draft, DeliveryEvent::Rules(vec![]))
        .step(&context, &draft, DeliveryEvent::Store(inbox.to_owned()))
        .step(&context, &draft, DeliveryEvent::Rules(vec![]))
        .step(&context, &draft, DeliveryEvent::Exists("File exists (os error 17)".to_owned()));
    match &state {
        Delivery::NeedId { attempt, .. } => assert_eq!(*attempt, 1),
        other => panic!("a taken id needs another: {other:?}"),
    }
    let state = state
        .step(&context, &draft, DeliveryEvent::Id("20260715-120000-bbbbbb".to_owned()))
        .step(&context, &draft, DeliveryEvent::Rules(vec![]));
    match &state {
        Delivery::WriteInbox { inbox: found, envelope, .. } => {
            assert_eq!(
                inbox_path(found, &envelope.id),
                "/store/cloud-space/inbox/20260715-120000-bbbbbb.mail"
            );
        }
        other => panic!("{other:?}"),
    }
    let state = state
        .step(&context, &draft, DeliveryEvent::Written)
        .step(&context, &draft, DeliveryEvent::Written);
    match state {
        Delivery::Delivered { envelope } => {
            assert_eq!(envelope.id, "20260715-120000-bbbbbb");
            assert_eq!(envelope.sender_provenance.as_deref(), Some("declared-flag"));
            assert_eq!(
                archive_path(&context, &envelope.id),
                "/store/archive/20260715-120000-bbbbbb.mail"
            );
            assert!(sent_receipt(&envelope).contains("20260715-120000-bbbbbb"));
        }
        other => panic!("{other:?}"),
    }
}

#[test]
fn id_collision_retry_rechecks_a_new_blocking_rule() {
    let context = context();
    let draft = draft("rule-race");
    let state = Delivery::start()
        .step(&context, &draft, DeliveryEvent::Id("20260715-120000-111111".to_owned()))
        .step(&context, &draft, DeliveryEvent::Rules(vec![]))
        .step(&context, &draft, DeliveryEvent::Store("/store/cloud-space/inbox".to_owned()))
        .step(&context, &draft, DeliveryEvent::Rules(vec![]))
        .step(&context, &draft, DeliveryEvent::Exists("File exists (os error 17)".to_owned()))
        .step(&context, &draft, DeliveryEvent::Id("20260715-120000-222222".to_owned()))
        .step(
            &context,
            &draft,
            DeliveryEvent::Rules(vec![rule("rule-race", "cloud-space", "added after collision")]),
        );
    match state {
        Delivery::Failed { error } => assert_eq!(error.code.as_str(), "blocked_route"),
        other => panic!("new blocking rule must stop the retry: {other:?}"),
    }
}

#[test]
fn archive_id_collision_preserves_old_archive_and_reports_committed_delivery() {
    let context = context();
    let draft = draft("archive-collision");
    let state = Delivery::start()
        .step(&context, &draft, DeliveryEvent::Id("20260715-120000-a1c1d1".to_owned()))
        .step(&context, &draft, DeliveryEvent::Rules(vec![]))
        .step(&context, &draft, DeliveryEvent::Store("/store/cloud-space/inbox".to_owned()))
        .step(&context, &draft, DeliveryEvent::Rules(vec![]))
        .step(&context, &draft, DeliveryEvent::Written)
        .step(&context, &draft, DeliveryEvent::Exists("File exists (os error 17)".to_owned()));
    match state {
        Delivery::Failed { error } => {
            assert_eq!(error.code.as_str(), "delivered_unarchived");
            assert!(!error.retryable);
            assert_eq!(
                error.details.inbox_path.as_deref(),
                Some("/store/cloud-space/inbox/20260715-120000-a1c1d1.mail")
            );
        }
        other => panic!("archive collision must report delivered_unarchived: {other:?}"),
    }
}

#[test]
fn exhausting_all_message_ids_leaves_existing_mail_untouched_and_is_retryable() {
    let context = context();
    let draft = draft("exhaustion-test");
    let id = "20260715-120000-eeeeee";
    let mut state = Delivery::start();
    let mut attempts = 0;
    let error = loop {
        state = match state {
            Delivery::NeedId { .. } => {
                attempts += 1;
                state.step(&context, &draft, DeliveryEvent::Id(id.to_owned()))
            }
            Delivery::CheckRoute { .. } => state.step(&context, &draft, DeliveryEvent::Rules(vec![])),
            Delivery::PrepareStore { .. } => {
                state.step(&context, &draft, DeliveryEvent::Store("/inbox".to_owned()))
            }
            Delivery::WriteInbox { .. } => state.step(&context, &draft, DeliveryEvent::Exists("File exists (os error 17)".to_owned())),
            Delivery::Failed { error } => break error,
            other => panic!("256 collisions must exhaust id allocation: {other:?}"),
        };
    };
    assert_eq!(attempts, 256);
    assert_eq!(error.code.as_str(), "io_error");
    assert!(error.retryable);
}

#[test]
fn undeliverable_drafts_and_failing_disks_fail_before_delivery() {
    let context = context();
    let bad = Draft { from: " ".to_owned(), ..draft("x") };
    match Delivery::start().step(
        &context,
        &bad,
        DeliveryEvent::Id("20260715-120000-aaaaaa".to_owned()),
    ) {
        Delivery::Failed { error } => assert_eq!(error.code, ErrorCode::ConfigInvalid),
        other => panic!("{other:?}"),
    }
    let good = draft("x");
    let state = Delivery::start()
        .step(&context, &good, DeliveryEvent::Id("20260715-120000-aaaaaa".to_owned()))
        .step(&context, &good, DeliveryEvent::Rules(vec![]))
        .step(&context, &good, DeliveryEvent::Store("/inbox".to_owned()))
        .step(&context, &good, DeliveryEvent::Rules(vec![]))
        .step(&context, &good, DeliveryEvent::WriteFailed("disk full".to_owned()));
    match state {
        Delivery::Failed { error } => {
            assert_eq!(error.code, ErrorCode::IoError);
            assert!(error.retryable);
        }
        other => panic!("{other:?}"),
    }
}

#[test]
fn senders_are_declared_pinned_or_inferred() {
    assert!(matches!(choose_identity(None, None), IdentityChoice::Inferred));
    let pinned = choose_identity(None, Some("alpha"));
    assert!(matches!(pinned, IdentityChoice::Pinned(name) if name == "alpha"));
    let named = choose_identity(Some("beta"), None);
    assert!(matches!(named, IdentityChoice::Named(name) if name == "beta"));
    let both = choose_identity(Some("beta"), Some("alpha"));
    assert!(matches!(both, IdentityChoice::Named(name) if name == "beta"));
    assert_eq!(declared_env_pin(Some("alpha")).expect("valid").as_deref(), Some("alpha"));
    assert_eq!(declared_env_pin(None).expect("unset"), None);
    assert!(declared_env_pin(Some("a/b")).is_err());
    assert_eq!(declared_sender_address(Some("pid:7")).expect("valid").as_deref(), Some("pid:7"));
    for bad in ["", "a b", "a\u{1}"] {
        assert!(declared_sender_address(Some(bad)).is_err(), "{bad:?}");
    }
    assert!(declared_sender_address(Some(&"x".repeat(256))).is_ok());
    assert!(declared_sender_address(Some(&"x".repeat(257))).is_err());
    assert!(!needs_location_check(SenderProvenance::DeclaredEnv));
    assert!(needs_location_check(SenderProvenance::DeclaredFlag));
    assert!(pinned_notice("alpha").starts_with("post: sending as 'alpha' (POST_FROM pin"));
    assert!(inferred_notice("alpha").starts_with("post: sending as 'alpha' (identity inferred"));
}

#[test]
fn requests_are_checked_before_anything_is_written() {
    let args = SendArgs {
        to: "beta".to_owned(),
        sender: Some("al'pha".to_owned()),
        kind: MailKind::Note,
        subject: "hi".to_owned(),
        body: None,
        body_file: None,
        oversize: true,
        allow_self: false,
        file: None,
    };
    let prefix = send_fix_prefix(&args);
    assert_eq!(
        prefix,
        "post send --to 'beta' --from 'al'\\''pha' --kind note --subject 'hi' --oversize"
    );
    check_self_send("alpha", "beta", false, &prefix).expect("two rooms");
    check_self_send("beta", "beta", true, &prefix).expect("asked for");
    let error = check_self_send("beta", "beta", false, &prefix).expect_err("to itself");
    assert_eq!(error.message, "refusing to send mail from 'beta' to itself");
    let known = rooms(&["alpha", "beta"]);
    check_recipient("beta", &known).expect("registered");
    let error = check_recipient("bta", &known).expect_err("unknown");
    assert_eq!(error.code, ErrorCode::UnknownRoom);
    assert_eq!(error.details.did_you_mean.as_deref(), Some("beta"));
    assert_eq!(error.message, "recipient room 'bta' is unknown; did you mean 'beta'?");
    assert!(check_recipient("zzzzzz", &known).expect_err("far").details.did_you_mean.is_none());
    validate_subject(&"é".repeat(512)).expect("1024 bytes");
    assert!(validate_subject(&"é".repeat(513))
        .expect_err("1026 bytes")
        .message
        .starts_with("message subject is 1026 bytes"));
}

#[test]
fn bodies_come_from_one_place() {
    assert!(matches!(plan_body(Some("x"), Some("f"), None), BodyPlan::Inline(b) if b == "x"));
    assert!(matches!(plan_body(Some("-"), None, None), BodyPlan::Stdin));
    assert!(matches!(plan_body(Some("-"), Some("f"), Some("g")), BodyPlan::File(p) if p == "f"));
    assert!(matches!(plan_body(None, None, Some("g")), BodyPlan::File(p) if p == "g"));
    assert!(matches!(plan_body(None, None, None), BodyPlan::Stdin));
    assert_eq!(
        inline_names_file("post send", "a b").details.exact_fix.as_deref(),
        Some("post send --body-file 'a b'")
    );
    assert_eq!(
        body_missing("post send").details.exact_fix.as_deref(),
        Some("post send --body '<text>'")
    );
    assert_eq!(
        body_file_missing("post send", "hello").details.exact_fix.as_deref(),
        Some("post send --body 'hello'")
    );
    let error = body_file_unreadable("post send", "f", "denied");
    assert_eq!(error.code, ErrorCode::IoError);
    assert_eq!(error.details.exact_fix.as_deref(), Some("post send --body-file 'f'"));
}

#[test]
fn bodies_are_bounded_and_watch_output_is_noticed() {
    assert!(!check_body("plain prose", false).expect("small"));
    assert!(check_body(&"x".repeat(32768), false).is_ok());
    assert!(check_body(&"x".repeat(32769), false)
        .expect_err("large")
        .message
        .starts_with("message body is 32769 bytes"));
    assert!(!check_body(&"x".repeat(32769), true).expect("asked for"));
    let event = "{\"event\":\"unreadable\",\"room\":\"alpha\",\"id\":\"x\"}";
    assert!(is_watch_event_line(event));
    assert!(check_body(&format!("prose\n{event}\r\nmore"), false).expect("small"));
    assert!(is_watch_event_line(
        " {\"event\": \"channel_message\", \"channel\": \"c\", \"id\": \"i\", \"from\": \"f\", \"subject\": \"\", \"sent\": \"s\"} "
    ));
    assert!(is_watch_event_line(
        "{\"event\":\"mail\",\"room\":\"r\",\"id\":\"i\",\"from\":\"f\",\"kind\":\"note\",\"subject\":\"\",\"sent\":\"s\"}"
    ));
    for other in [
        "{\"event\":\"unreadable\",\"room\":\"alpha\",\"id\":1}",
        "{\"event\":\"unreadable\",\"room\":\"alpha\"}",
        "{\"event\":\"other\",\"room\":\"alpha\",\"id\":\"x\"}",
        "[\"event\"]",
        "{\"event\":\"unreadable\"",
        "",
    ] {
        assert!(!is_watch_event_line(other), "{other}");
    }
    check_not_empty(" x ", "post send").expect("not blank");
    let error = check_not_empty(" \n\u{a0}\t", "post send").expect_err("blank");
    assert_eq!(error.code, ErrorCode::EmptyBody);
}

#[test]
fn routes_are_blocked_by_rules() {
    let rules = vec![rule("alpha", "beta", "no"), rule("*", "gamma", "closed")];
    ensure_route_allowed(&rules, "beta", "alpha").expect("the other way is open");
    let error = ensure_route_allowed(&rules, "alpha", "beta").expect_err("blocked");
    assert_eq!(error.code, ErrorCode::BlockedRoute);
    assert_eq!(error.details.rule.map(|r| r.reason), Some("no".to_owned()));
    assert!(ensure_route_allowed(&rules, "anyone", "gamma").is_err());
    assert_eq!(find_blocking_rule(&rules, "anyone", "gamma"), Some(1));
    assert_eq!(find_blocking_rule(&rules, "beta", "alpha"), None);
}

#[test]
fn stores_are_found_through_the_environment() {
    let found = Context::from_env(Some("/home/me"), None, ".mail-store").expect("default");
    assert_eq!(found.root, "/home/me/.mail-store");
    assert_eq!(Context::from_env(Some("/h"), Some("/mail"), ".m").expect("given").root, "/mail");
    assert!(Context::from_env(None, Some("/mail"), ".m").is_err());
    assert!(Context::from_env(Some("/h"), Some("mail"), ".m").is_err());
    let context = context();
    assert_eq!(context.file("rooms.json"), "/store/rooms.json");
    assert_eq!(context.expand_room_path("~"), Ok("/home/me".to_owned()));
    assert_eq!(context.expand_room_path("~/x"), Ok("/home/me/x".to_owned()));
    assert_eq!(context.expand_room_path("/x"), Ok("/x".to_owned()));
    assert!(context.expand_room_path("x").is_err());
    assert!(context.expand_room_path("~x").is_err());
    assert_eq!(
        context.mailbox_dirs("alpha").expect("valid"),
        ("/store/alpha/inbox".to_owned(), "/store/alpha/read".to_owned())
    );
    assert!(context.mailbox_dirs("../x").is_err());
    context.check_rooms(&rooms(&["alpha"])).expect("valid");
    let mut bad = RoomMap::new();
    bad.insert("alpha", "relative".to_owned());
    assert!(context.check_rooms(&bad).is_err());
    assert_eq!(
        context.room_paths(&rooms(&["b", "a"])).expect("valid"),
        vec![
            ("a".to_owned(), "/home/me/a".to_owned()),
            ("b".to_owned(), "/home/me/b".to_owned()),
        ]
    );
    let known = rooms(&["alpha"]);
    let config = |r: BlockingRule| RulesConfig { blocked: vec![r] };
    context.check_rules(&config(rule("*", "alpha", "why")), &known).expect("valid");
    context.check_rules(&config(rule("free form", "*", "why")), &known).expect("valid");
    assert!(context.check_rules(&config(rule("a", "alpha", " ")), &known).is_err());
    assert!(context.check_rules(&config(rule("a/b", "alpha", "why")), &known).is_err());
    assert!(context.check_rules(&config(rule("a", "ghost", "why")), &known).is_err());
}

#[test]
fn rooms_follow_from_the_directory() {
    let tree = |name: &str, path: &str| RoomTree {
        name: name.to_owned(),
        path: path.to_owned(),
        resolved: path.to_owned(),
    };
    let trees = vec![tree("outer", "/w"), tree("inner", "/w/inner")];
    let infer = |cwd: &str, base: Option<&str>| {
        infer_from_cwd(&trees, cwd, cwd, base).expect("a room").0
    };
    assert_eq!(infer("/w/inner/deep", Some("deep")), "inner");
    assert_eq!(infer("/w/innermost", Some("innermost")), "outer");
    let (name, provenance) = infer_from_cwd(&trees, "/x/y", "/x/y", Some("y")).expect("basename");
    assert_eq!(name, "y");
    assert_eq!(provenance, SenderProvenance::InferredBasename);
    assert!(infer_from_cwd(&trees, "/", "/", None).is_err());
    ensure_sender_allowed("inner", &trees, "/w/inner", "/w/inner").expect("at home");
    ensure_sender_allowed("free", &trees, "/x", "/x").expect("free-form");
    let error = ensure_sender_allowed("inner", &trees, "/w", "/w").expect_err("outside its tree");
    assert_eq!(error.code, ErrorCode::ReservedSender);
    explicit_room("alpha").expect("valid");
    assert!(explicit_room("a\\b").is_err());
    acting_room("alpha", &rooms(&["alpha"])).expect("registered");
    assert_eq!(
        acting_room("ghost", &rooms(&["alpha"])).expect_err("unregistered").code,
        ErrorCode::UnknownRoom
    );
}

#[test]
fn names_are_single_path_components() {
    for good in ["alpha", "wade-discovery", "é", "a b", " "] {
        validate_component(good).expect("valid");
    }
    for bad in ["", ".", "..", "a/b", "a\\b", "a\nb"] {
        assert!(validate_component(bad).is_err(), "{bad:?}");
    }
    assert!(validate_room_name("archive").is_err());
    assert!(validate_room_name("Archive").is_err());
    validate_room_name("alpha").expect("valid");
    assert_eq!(shell_quote("it's"), "'it'\\''s'");
    assert_eq!(levenshtein("kitten", "sitting"), 3);
    assert_eq!(levenshtein("", "abc"), 3);
    assert_eq!(levenshtein("same", "same"), 0);
    assert_eq!(closest_room("alpa", &rooms(&["alpha", "beta"])).as_deref(), Some("alpha"));
    assert_eq!(closest_room("nothing-like", &rooms(&["alpha"])), None);
    assert!(refused_profile_char('\u{202e}'));
    assert!(!refused_profile_char('é'));
}

#[test]
fn paths_are_compared_by_components() {
    assert!(is_inside("/a/b", "/a"));
    assert!(is_inside("/a", "/a"));
    assert!(!is_inside("/ab", "/a"));
    assert!(is_inside("/a//b/./c", "/a/b"));
    assert_eq!(component_count("/a/b"), 3);
    assert_eq!(join_path("/a", "b"), "/a/b");
    assert_eq!(join_path("/a/", "b"), "/a/b");
    assert_eq!(join_path("/a", "/b"), "/b");
    assert_eq!(path_file_name("/a/b.mail").as_deref(), Some("b.mail"));
    assert_eq!(path_file_name("/"), None);
    assert_eq!(path_file_name("/a/.."), None);
    assert_eq!(file_stem("b.mail"), "b");
    assert_eq!(file_stem(".mail"), ".mail");
    assert_eq!(file_extension("b.mail").as_deref(), Some("mail"));
    assert_eq!(file_extension(".mail"), None);
    assert_eq!(file_extension("b"), None);
}

#[test]
fn exclusive_atomic_write_never_replaces_an_existing_mail_file() {
    let taken = || Outcome::Bad { exists_already: true, problem: "File exists".to_owned() };
    let state = Writing::start()
        .step(Commit::Link, "/m", Outcome::Good)
        .step(Commit::Link, "/m", taken());
    assert!(matches!(&state, Writing::Discard { exists_already: true, .. }));
    // The temporary file goes away, and the failure is what is reported.
    match state.step(Commit::Link, "/m", Outcome::Good) {
        Writing::Failed { exists_already, problem } => {
            assert!(exists_already);
            assert_eq!(problem, "File exists");
        }
        other => panic!("{other:?}"),
    }
}

#[test]
fn exclusive_atomic_write_stays_successful_after_the_commit_point() {
    let broken =
        || Outcome::Bad { exists_already: false, problem: "injected fault".to_owned() };
    let state = Writing::start()
        .step(Commit::Link, "/m", Outcome::Good)
        .step(Commit::Link, "/m", Outcome::Good)
        .step(Commit::Link, "/m", broken());
    match state {
        Writing::Done { warning } => assert_eq!(
            warning.as_deref(),
            Some("post: warning: '/m' was committed, but temporary-file cleanup or directory sync failed: injected fault")
        ),
        other => panic!("{other:?}"),
    }
    // Before the commit point the same fault fails the write.
    let state = Writing::start().step(Commit::Rename, "/m", broken());
    assert!(matches!(&state, Writing::Discard { .. }));
    let state = Writing::start()
        .step(Commit::Rename, "/m", Outcome::Good)
        .step(Commit::Rename, "/m", Outcome::Good)
        .step(Commit::Rename, "/m", Outcome::Good);
    assert!(matches!(state, Writing::Done { warning: None }));
}

#[test]
fn replacements_keep_the_mode_and_refuse_links() {
    assert_eq!(plan_replacement(Place::Missing), Ok(PRIVATE_MODE));
    assert_eq!(plan_replacement(Place::File { mode: 0o100644 }), Ok(0o644));
    assert!(plan_replacement(Place::Link).is_err());
    assert_eq!(temporary_name("a.mail", 7, 42), ".a.mail.7.42.tmp");
}

#[test]
fn errors_carry_their_exit_codes() {
    assert_eq!(ErrorCode::all().len(), 14);
    for code in ErrorCode::all() {
        let error = AppError::new(code, "m", "f");
        assert_eq!(error.exit_code, code.exit_code());
        assert_eq!(error.retryable, code.retryable());
        assert_eq!(code.retryable(), code == ErrorCode::IoError, "{}", code.as_str());
    }
    let error = AppError::io("read", "/p", "denied");
    assert_eq!(error.details.operation.as_deref(), Some("read"));
    assert_eq!(error.details.path.as_deref(), Some("/p"));
}
