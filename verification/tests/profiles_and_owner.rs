use post::context::Context;
use post::declaring::{DeclareEvent, Declaring, OnOwnerPath};
use post::error::{AppError, ErrorCode};
use post::output::{
    sanitize_text_body, sanitize_text_header, sender_label, sender_label_quoted, ErrorEnvelope,
    InboxItem, WatchEvent, WatchReason,
};
use post::model::MailKind;
use post::owner::{
    check_marker, compare_existing, diff_owners, missing_material, owner_schema, resolve_owner,
    resolve_owner_file, show_owner, sidecar_note, symlinked_owner_file, validate_ascii_bound,
    validate_label, validate_marker, validate_owner_values, OwnerFile, OwnerResolution,
    OwnerSource, ResolvedOwner, LEGACY_OWNER_ROOM,
};
use post::profile::{
    announcement_line, check_pfp, drop_invalid_fields, nothing_to_set, plan_change, skeleton_text,
    stamp_for, validate_display_name, validate_pfp, Profile, ProfileMap,
};
use post::textmap::RoomMap;

fn rooms(names: &[&str]) -> RoomMap {
    let mut map = RoomMap::new();
    for name in names {
        map.insert(name, "/tmp".to_owned());
    }
    map
}

fn owner_rooms() -> RoomMap {
    let mut map = RoomMap::new();
    map.insert("trey", "~/.trey-room".to_owned());
    map.insert("mara", "~/.mara-room".to_owned());
    map
}

fn context() -> Context {
    Context { root: "/store".to_owned(), home: "/home/me".to_owned() }
}

fn file(room: &str) -> OwnerFile {
    OwnerFile {
        room: room.to_owned(),
        sidecar_dir: None,
        allowed_signers: None,
        principal: None,
        namespace: None,
        marker: None,
        label: None,
    }
}

fn stamped(display_name: Option<&str>, pfp: Option<&str>) -> WatchEvent {
    WatchEvent::ChannelMessage {
        channel: "tax".to_owned(),
        id: "20260722-013000-000001-aaa111".to_owned(),
        from: "alpha".to_owned(),
        subject: String::new(),
        sent: "2026-07-22 01:30:00 -0500".to_owned(),
        display_name: display_name.map(str::to_owned),
        pfp: pfp.map(str::to_owned),
        reason: WatchReason::Channel,
    }
}

#[test]
fn display_name_rules() {
    let rooms = rooms(&["pact", "wade-discovery"]);
    validate_display_name("Lantern 🏮", "pact", &rooms).expect("plain name ok");
    // Own room id is fine as a display name.
    validate_display_name("pact", "pact", &rooms).expect("own id ok");
    assert!(validate_display_name("T r e y", "pact", &rooms).is_err());
    assert!(validate_display_name("Wade Discovery", "pact", &rooms).is_err());
    assert!(validate_display_name("evil\nname", "pact", &rooms).is_err());
    assert!(validate_display_name("   ", "pact", &rooms).is_err());
    assert!(validate_display_name(&"x".repeat(33), "pact", &rooms).is_err());
    assert!(validate_display_name("🏮🏮", "pact", &rooms).is_err(), "no letters");
}

#[test]
fn pfp_rules() {
    let mut profiles = ProfileMap::new();
    profiles.insert("atlasos", Profile { name: None, pfp: Some("🐋".to_owned()) });
    validate_pfp("⚖️", "pact", &profiles).expect("VS16 emoji is one grapheme");
    validate_pfp("👩‍🚀", "pact", &profiles).expect("ZWJ emoji is one grapheme");
    assert!(validate_pfp("🏮🐋", "pact", &profiles).is_err(), "two emoji");
    assert!(validate_pfp("x", "pact", &profiles).is_err(), "ascii");
    assert!(validate_pfp("", "pact", &profiles).is_err(), "empty");
    assert!(validate_pfp("🐋", "pact", &profiles).is_err(), "taken sigil");
    validate_pfp("🐋", "atlasos", &profiles).expect("re-setting own sigil ok");
}

#[test]
fn names_are_compared_by_their_letters_and_digits() {
    assert_eq!(skeleton_text("T r e y"), "trey");
    assert_eq!(skeleton_text("Éa-1 🏮"), "éa1");
    assert_eq!(skeleton_text("🏮"), "");
    let profiles = ProfileMap::new();
    check_pfp("🏮", 1, "pact", &profiles).expect("one cluster");
    assert!(check_pfp("🏮", 2, "pact", &profiles).is_err());
}

#[test]
fn profile_changes_are_laid_over_what_is_stored() {
    let rooms = rooms(&["pact", "other"]);
    let mut profiles = ProfileMap::new();
    profiles.insert(
        "pact",
        Profile { name: Some("Lantern".to_owned()), pfp: Some("🏮".to_owned()) },
    );
    let change = plan_change(Some("  Snow  "), None, "pact", &rooms, &profiles).expect("valid");
    assert_eq!(change.profile.name.as_deref(), Some("Snow"));
    assert_eq!(change.profile.pfp.as_deref(), Some("🏮"));
    assert!(change.changed);
    assert!(!change.dropped);
    let same = plan_change(Some("Lantern"), None, "pact", &rooms, &profiles).expect("valid");
    assert!(!same.changed);
    assert_eq!(
        plan_change(None, None, "pact", &rooms, &profiles).expect_err("nothing").message,
        nothing_to_set().message
    );
    assert!(plan_change(Some("other"), None, "pact", &rooms, &profiles).is_err());
    assert!(plan_change(None, Some("x"), "pact", &rooms, &profiles).is_err());
    assert!(announcement_line("pact", &change.profile).contains("Snow"));
}

#[test]
fn stale_profile_values_are_never_stamped() {
    let known = rooms(&["pact", "lantern"]);
    let mut profiles = ProfileMap::new();
    profiles.insert(
        "pact",
        Profile { name: Some("Lantern".to_owned()), pfp: Some("🏮".to_owned()) },
    );
    let stamp = stamp_for("pact", &known, &profiles);
    assert_eq!(stamp.name, None, "a room took the name since");
    assert_eq!(stamp.pfp.as_deref(), Some("🏮"));
    let stamp = stamp_for("stranger", &known, &profiles);
    assert_eq!(stamp, Profile::default());
    let mut profile =
        Profile { name: Some("Fine".to_owned()), pfp: Some("ab".to_owned()) };
    assert!(drop_invalid_fields(&mut profile, "pact", &known));
    assert_eq!(profile.name.as_deref(), Some("Fine"));
    assert_eq!(profile.pfp, None);
    assert!(!drop_invalid_fields(&mut profile, "pact", &known));
}

#[test]
fn inbox_line_sender_absent_profile_is_byte_identical() {
    // The inbox --text line built from this must keep its plain form exactly: `from "beta"`
    // with debug quotes.
    assert_eq!(sender_label_quoted("beta", None, None), "\"beta\"");
}

#[test]
fn inbox_line_sender_renders_stamped_profile() {
    assert_eq!(
        sender_label_quoted("beta", Some("Lantern"), Some("🏮")),
        "🏮 Lantern (\"beta\")"
    );
}

#[test]
fn sender_label_absent_profile_is_bare_room_id() {
    assert_eq!(sender_label("alpha", None, None), "alpha");
}

#[test]
fn sender_label_renders_pfp_name_and_id() {
    assert_eq!(sender_label("alpha", Some("Snowplow"), Some("🧊")), "🧊 Snowplow (alpha)");
    assert_eq!(sender_label("alpha", Some("Snowplow"), None), "Snowplow (alpha)");
    assert_eq!(sender_label("alpha", None, Some("🧊")), "🧊 (alpha)");
}

#[test]
fn sender_label_sanitizes_control_characters() {
    assert_eq!(sender_label("alpha", Some("Snow\nplow"), None), "Snowplow (alpha)");
}

#[test]
fn watch_channel_line_absent_profile_is_byte_identical() {
    // The machine-parsed doorbell line must not drift by a single byte when no profile is
    // stamped.
    assert_eq!(
        stamped(None, None).text_line(),
        "20260722-013000-000001-aaa111  #tax from \"alpha\"\n"
    );
}

#[test]
fn watch_channel_line_renders_stamped_profile() {
    assert_eq!(
        stamped(Some("Snowplow"), Some("🧊")).text_line(),
        "20260722-013000-000001-aaa111  #tax from 🧊 Snowplow (\"alpha\")\n"
    );
}

#[test]
fn watch_mail_line_profile_and_fallback() {
    let bare = WatchEvent::mail(
        "alpha",
        InboxItem {
            id: "20260722-013000-000002-bbb222".to_owned(),
            from: "beta".to_owned(),
            kind: MailKind::Letter,
            subject: String::new(),
            sent: "2026-07-22 01:31:00 -0500".to_owned(),
            display_name: None,
            pfp: None,
        },
    );
    assert_eq!(
        bare.text_line(),
        "20260722-013000-000002-bbb222  [letter] from \"beta\"\n"
    );
    let dressed = WatchEvent::mail(
        "alpha",
        InboxItem {
            id: "20260722-013000-000002-bbb222".to_owned(),
            from: "beta".to_owned(),
            kind: MailKind::Letter,
            subject: String::new(),
            sent: "2026-07-22 01:31:00 -0500".to_owned(),
            display_name: Some("Lantern".to_owned()),
            pfp: Some("🏮".to_owned()),
        },
    );
    assert_eq!(
        dressed.text_line(),
        "20260722-013000-000002-bbb222  [letter] from 🏮 Lantern (\"beta\")\n"
    );
}

#[test]
fn texts_are_sanitized() {
    assert_eq!(sanitize_text_header("a\u{1b}[31m\nb"), "a[31mb");
    assert_eq!(sanitize_text_body("a\u{1b}\r\n\tb"), "a\n\tb");
    assert_eq!(sanitize_text_header("clean é"), "clean é");
    // The room stands in the label, quoted as a program would quote it.
    assert_eq!(sender_label_quoted("a\"b\n", None, None), "\"a\\\"b\\n\"");
}

#[test]
fn error_envelopes_show_the_error() {
    let error = nothing_to_set();
    let envelope = ErrorEnvelope::of(&error);
    assert!(!envelope.ok);
    assert_eq!(envelope.error.code, "invalid_argument");
    assert_eq!(envelope.error.message, error.message);
    assert!(!envelope.error.retryable);
}

#[test]
fn resolution_states_configured_legacy_none() {
    let rooms = owner_rooms();
    // Configured: the owner file wins over the registered trey room.
    let declared = OwnerFile {
        marker: Some("🐳".to_owned()),
        label: Some("Marvelous".to_owned()),
        ..file("mara")
    };
    match resolve_owner(&context(), Some(&declared), &rooms).expect("load configured") {
        OwnerResolution::Configured(owner) => {
            assert_eq!(owner.room, "mara");
            assert_eq!(owner.source, OwnerSource::Configured);
            assert_eq!(owner.marker, "🐳");
            assert_eq!(owner.label, "Marvelous");
            assert_eq!(
                owner.sidecar_dir, "/home/me/.mara-room",
                "derived from the registered room path, never the raw ~ string"
            );
            assert_eq!(owner.allowed_signers, "/home/me/.mara-room/allowed_signers");
            assert_eq!(owner.principal, "mara@porch");
            assert_eq!(owner.namespace, "mara-porch");
        }
        other => panic!("expected configured, got {other:?}"),
    }
    // Legacy: no owner file + registered trey room.
    match resolve_owner(&context(), None, &rooms).expect("load legacy") {
        OwnerResolution::Legacy(owner) => {
            assert_eq!(owner.room, "trey");
            assert_eq!(owner.source, OwnerSource::Legacy);
            assert_eq!(owner.sidecar_dir, "/home/me/.trey-room");
            assert_eq!(owner.principal, "trey@porch");
            assert_eq!(owner.namespace, "trey-porch");
            assert_eq!(owner.marker, "🧔");
            assert_eq!(owner.label, "Trey");
        }
        other => panic!("expected legacy, got {other:?}"),
    }
    // Feature-absent: no owner file and no trey room.
    let mut without = RoomMap::new();
    without.insert("mara", "~/.mara-room".to_owned());
    assert!(matches!(
        resolve_owner(&context(), None, &without).expect("load none"),
        OwnerResolution::Absent
    ));
}

#[test]
fn resolution_rejects_unregistered_room_and_unknown_fields() {
    let error = resolve_owner(&context(), Some(&file("ghost")), &owner_rooms())
        .expect_err("unregistered room must fail closed");
    assert_eq!(error.code.as_str(), "config_invalid");
    assert!(error.message.contains("unregistered room 'ghost'"));
}

#[test]
fn legacy_uses_the_registered_rooms_resolved_path_not_the_raw_string() {
    match resolve_owner(&context(), None, &owner_rooms()).expect("legacy") {
        OwnerResolution::Legacy(owner) => {
            assert!(owner.sidecar_dir.starts_with('/'));
            assert!(!owner.sidecar_dir.contains('~'), "resolved path leaked '~'");
            assert_eq!(owner.sidecar_dir, "/home/me/.trey-room");
        }
        other => panic!("expected legacy, got {other:?}"),
    }
    let mut relative = RoomMap::new();
    relative.insert("trey", "somewhere".to_owned());
    assert!(resolve_owner(&context(), None, &relative).is_err());
}

#[test]
fn symlinked_owner_json_is_refused_at_load() {
    let error = symlinked_owner_file("/store/owner.json");
    assert_eq!(error.code.as_str(), "config_invalid");
    assert!(error.message.contains("symlink"));
}

#[test]
fn explicit_values_are_derived_when_missing_and_bounded_when_present() {
    let declared = OwnerFile {
        room: "mara".to_owned(),
        sidecar_dir: Some("/srv/mara-sidecar".to_owned()),
        allowed_signers: Some("/srv/signers".to_owned()),
        principal: Some("mara@example.com".to_owned()),
        namespace: Some("mara-mail".to_owned()),
        marker: Some("🎩".to_owned()),
        label: Some("Top Hat".to_owned()),
    };
    let owner = resolve_owner(&context(), Some(&declared), &owner_rooms()).expect("load");
    let OwnerResolution::Configured(owner) = owner else {
        panic!("expected configured");
    };
    assert_eq!(owner.sidecar_dir, "/srv/mara-sidecar");
    assert_eq!(owner.allowed_signers, "/srv/signers");
    assert_eq!(owner.principal, "mara@example.com");
    assert_eq!(owner.namespace, "mara-mail");
    assert_eq!(owner.marker, "🎩");
    assert_eq!(owner.label, "Top Hat");

    // Relative sidecar, hostile principal chars, oversized namespace.
    for (declared, needle) in [
        (OwnerFile { sidecar_dir: Some("relative".to_owned()), ..file("mara") }, "sidecar_dir"),
        (OwnerFile { principal: Some("mara name".to_owned()), ..file("mara") }, "principal"),
        (OwnerFile { namespace: Some("a/b".to_owned()), ..file("mara") }, "namespace"),
        (OwnerFile { namespace: Some(String::new()), ..file("mara") }, "namespace"),
    ] {
        let error = validate_owner_values("/store/owner.json", &declared)
            .expect_err("invalid owner must fail closed");
        assert_eq!(error.code.as_str(), "config_invalid");
        assert!(error.message.contains(needle), "expected {needle} in: {}", error.message);
    }
    // An oversized namespace that derives from an absurd room name fails closed with the
    // derived-value message.
    let absurd = "way-too-long-for-a-namespace-derivation-0123456789abcdef0123456789abcd";
    let mut rooms = owner_rooms();
    rooms.insert(absurd, "~/x".to_owned());
    let error = resolve_owner(&context(), Some(&file(absurd)), &rooms)
        .expect_err("derived namespace must be bounded");
    assert!(error.message.contains("derived"), "{}", error.message);
}

#[test]
fn marker_predicate_rejects_hostile_glyphs_and_zwj_abuse() {
    for (marker, needle) in [
        ("", "one glyph"),
        ("🐳🐋", "one glyph"),
        (".", "non-ASCII"),
        ("x", "non-ASCII"),
        ("a\u{200d}b", "one glyph"),
        ("\u{202E}", "control, bidi"),
        ("\n", "control, bidi"),
        ("👩\u{200d}", "zero-width joiner"),
        ("\u{200d}🐳", "zero-width joiner"),
    ] {
        let error = validate_marker(marker).expect_err("marker must be refused");
        assert!(
            error.contains(needle),
            "marker {marker:?} refused with {error:?}, expected mention of {needle:?}"
        );
    }
    validate_marker("🐳").expect("plain emoji ok");
    validate_marker("👩\u{200d}🚀").expect("ZWJ emoji ok (join inside the cluster is fine)");
    validate_marker("⚖️").expect("VS16 emoji ok");
    assert!(check_marker("🐳", 2).is_err());
}

#[test]
fn label_predicate_rejects_hostile_labels() {
    for (label, needle) in [
        ("", "empty"),
        ("   ", "whitespace-only"),
        ("evil\u{202E}name", "control, bidi"),
        ("evil\u{2028}", "control, bidi"),
        (&"x".repeat(33), "exceeds 32"),
    ] {
        let error = validate_label(label).expect_err("label must be refused");
        assert!(
            error.contains(needle),
            "label {label:?} refused with {error:?}, expected {needle:?}"
        );
    }
    validate_label("M").expect("single char ok");
    validate_label("Marvelous Owner 🎩").expect("plain label ok");
}

#[test]
fn validate_owner_values_checks_every_explicit_field() {
    let path = "/store/owner.json";
    let check = |file: OwnerFile, needle: &str| {
        let error = validate_owner_values(path, &file).expect_err("must refuse");
        assert_eq!(error.code.as_str(), "config_invalid");
        assert!(error.message.contains(needle), "expected {needle} in {}", error.message);
    };
    check(OwnerFile { room: "bad/room".to_owned(), ..file("mara") }, "room");
    check(OwnerFile { sidecar_dir: Some("relative".to_owned()), ..file("mara") }, "sidecar_dir");
    check(
        OwnerFile { allowed_signers: Some("relative".to_owned()), ..file("mara") },
        "allowed_signers",
    );
    check(OwnerFile { principal: Some("a b".to_owned()), ..file("mara") }, "principal");
    check(OwnerFile { namespace: Some("n".repeat(65)), ..file("mara") }, "namespace");
    check(OwnerFile { marker: Some("🐳🐋".to_owned()), ..file("mara") }, "marker");
    check(OwnerFile { label: Some("   ".to_owned()), ..file("mara") }, "label");
    validate_owner_values(path, &file("mara")).expect("what is left out is derived");
    validate_ascii_bound("a.b_c@d-e", "x", 9).expect("nine plain bytes");
    assert!(validate_ascii_bound("a.b_c@d-e", "x", 8).is_err());
}

#[test]
fn read_owner_file_rejects_symlink_and_legacy_matches_registered_path() {
    match resolve_owner(&context(), None, &owner_rooms()).expect("legacy") {
        OwnerResolution::Legacy(owner) => assert_eq!(owner.room, LEGACY_OWNER_ROOM),
        other => panic!("expected legacy, got {other:?}"),
    }
    let mut rooms = RoomMap::new();
    rooms.insert("mara", "~/.mara-room".to_owned());
    let declared = OwnerFile { sidecar_dir: Some("/srv/x".to_owned()), ..file("mara") };
    let resolved = resolve_owner_file(&context(), &declared, &rooms).expect("resolve");
    assert_eq!(resolved.sidecar_dir, "/srv/x");
}

/// What a file with this text reads as.
fn planted_file(text: &str) -> Result<OwnerFile, String> {
    let value: serde_json::Value =
        serde_json::from_str(text).map_err(|error| format!("invalid JSON object: {error}"))?;
    let field = |name: &str| value.get(name).and_then(|v| v.as_str()).map(str::to_owned);
    Ok(OwnerFile { label: field("label"), ..file(&field("room").unwrap_or_default()) })
}

/// A declaration that found nothing at the path and is about to create the file.
fn about_to_create(room: &str) -> Declaring {
    let state = Declaring::start(&context(), &file(room), &owner_rooms());
    let state = state.step(&context(), DeclareEvent::Found(OnOwnerPath::Nothing));
    assert!(matches!(state, Declaring::Scaffold { .. }), "the sidecar comes first");
    state.step(&context(), DeclareEvent::Scaffolded)
}

fn refusal(state: Declaring) -> AppError {
    match state {
        Declaring::Failed { error } => error,
        other => panic!("must refuse, stands at {other:?}"),
    }
}

#[test]
fn owner_init_adversarial_race_plants_destination_before_commit() {
    for (planted, expect_already_configured) in [
        (r#"{"room":"mara"}"#, true),
        (r#"{"room":"mara","label":"Other"}"#, false),
        ("{not json", false),
    ] {
        let state = about_to_create("mara");
        assert!(matches!(state, Declaring::Create { .. }));
        // The file is planted between the look and the creation.
        let state = state.step(&context(), DeclareEvent::Exists);
        assert!(matches!(state, Declaring::Compare { .. }), "compared, never replaced");
        let state = state.step(
            &context(),
            DeclareEvent::Existing { read: planted_file(planted), rooms: owner_rooms() },
        );
        if expect_already_configured {
            let state = state.step(&context(), DeclareEvent::Scaffolded);
            match state {
                Declaring::Done { created, owner } => {
                    assert!(!created, "already configured");
                    assert_eq!(owner.room, "mara");
                }
                other => panic!("identical raced destination must be idempotent: {other:?}"),
            }
        } else {
            assert_eq!(refusal(state).code.as_str(), "config_invalid");
        }
    }
}

#[test]
fn a_new_owner_file_is_created_once() {
    let state = about_to_create("mara").step(&context(), DeclareEvent::Created);
    match state {
        Declaring::Done { created, owner } => {
            assert!(created);
            assert_eq!(owner.sidecar_dir, "/home/me/.mara-room");
        }
        other => panic!("must be done: {other:?}"),
    }
    // The same declaration again finds the file and leaves it alone.
    let state = Declaring::start(&context(), &file("mara"), &owner_rooms());
    let state = state.step(&context(), DeclareEvent::Found(OnOwnerPath::Something));
    // Work that was not asked for changes nothing.
    let state = state.step(&context(), DeclareEvent::Created);
    assert!(matches!(state, Declaring::Compare { .. }));
    let state = state.step(
        &context(),
        DeclareEvent::Existing { read: Ok(file("mara")), rooms: owner_rooms() },
    );
    assert!(matches!(state, Declaring::Complete { .. }));
    let state = state.step(&context(), DeclareEvent::Scaffolded);
    assert!(matches!(state, Declaring::Done { created: false, .. }));
}

#[test]
fn refused_declarations_name_the_file() {
    let unknown = Declaring::start(&context(), &file("nobody"), &owner_rooms());
    assert_eq!(refusal(unknown).code.as_str(), "config_invalid");
    let marker = OwnerFile { marker: Some("ab".to_owned()), ..file("mara") };
    assert!(matches!(
        Declaring::start(&context(), &marker, &owner_rooms()),
        Declaring::Failed { .. }
    ));
    let state = Declaring::start(&context(), &file("mara"), &owner_rooms());
    let linked = refusal(state.step(&context(), DeclareEvent::Found(OnOwnerPath::Link)));
    assert!(linked.message.contains("/store/owner.json"));
    assert!(linked.message.contains("symlink"));
    let full = DeclareEvent::CreateFailed("No space left on device".to_owned());
    let failed = refusal(about_to_create("mara").step(&context(), full));
    assert_eq!(failed.code, ErrorCode::IoError);
    assert!(failed.message.contains("No space left on device"));
    // The rooms of the moment decide: a room that is gone cannot own the store.
    let state = about_to_create("mara").step(&context(), DeclareEvent::Exists);
    let gone = state.step(
        &context(),
        DeclareEvent::Existing { read: Ok(file("mara")), rooms: rooms(&["pact"]) },
    );
    assert_eq!(refusal(gone).code.as_str(), "config_invalid");
}

#[test]
fn owners_are_compared_field_by_field() {
    let resolve = |file: OwnerFile| -> ResolvedOwner {
        resolve_owner_file(&context(), &file, &owner_rooms()).expect("resolve")
    };
    let path = "/store/owner.json";
    let wanted = resolve(file("mara"));
    let same = resolve(file("mara"));
    compare_existing(path, &wanted, &same).expect("the same owner");
    assert!(diff_owners(&wanted, &same).is_empty());
    let other = resolve(OwnerFile { label: Some("Other".to_owned()), ..file("mara") });
    let error = compare_existing(path, &wanted, &other).expect_err("another owner");
    assert_eq!(error.code.as_str(), "config_invalid");
    assert_eq!(diff_owners(&wanted, &other), vec!["label".to_owned()]);
}

#[test]
fn init_missing_names_only_observable_prerequisites() {
    assert!(missing_material(true).is_empty(), "a fully provisioned owner misses nothing");
    let missing = missing_material(false);
    assert!(missing.iter().any(|item| item.contains("allowed_signers")));
    // No payloads yet is an observation, not a blocker.
    let note = sidecar_note(&vec![]).expect("non-blocking observation");
    assert!(note.contains("not a blocker"));
    assert!(sidecar_note(&vec!["garbage.sig".to_owned()]).is_none());
}

#[test]
fn owners_are_shown() {
    let shown = show_owner(&OwnerResolution::Absent);
    assert!(shown.ok);
    assert!(shown.owner.is_none());
    let legacy = resolve_owner(&context(), None, &owner_rooms()).expect("legacy");
    let shown = show_owner(&legacy);
    assert_eq!(shown.state, "legacy");
    assert_eq!(shown.owner.map(|o| o.sidecar_dir).as_deref(), Some("/home/me/.trey-room"));
    let schema = owner_schema(&legacy);
    assert_eq!(schema.state, "legacy");
    assert!(schema.wire_grammar.contains('🧔'));
    assert_eq!(ErrorCode::ConfigInvalid.as_str(), "config_invalid");
}
