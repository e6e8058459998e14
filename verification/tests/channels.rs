use post::channel::{
    accept_message, channels_of, channels_text, check_access, check_join, check_message_body,
    check_signature_ref, crossed_send_bounce, ensure_join_allowed, event_draft, extract_mentions,
    join_body, join_receipt, list_item, new_channel_info, resolve_message_id, sort_channels,
    split_channel_message, stamped, validate_channel_message, validate_channel_name,
    validate_description, with_description, ChannelInfo, ChannelPaths, MessageDraft, Posting,
    PostingEvent, Purpose, JOIN_EVENT, PROFILE_EVENT,
};
use post::context::Context;
use post::error::ErrorCode;
use post::ids::{format_local_timestamp_micros, new_mail_id, CivilTime};
use post::mail::{files_with_extension, frame_message};
use post::model::{BlockingRule, ChannelMessage, ParsedChannelMessage};
use post::output::ChannelListItem;
use post::profile::{stamp_for, Profile, ProfileMap};
use post::textmap::{MemberMap, RoomMap};

const ID1: &str = "20260722-013000-000001-abc123";
const ID2: &str = "20260722-013000-000002-abc456";
const ID3: &str = "20260722-014000-000001-abc789";

fn message(id: &str, from: &str) -> ChannelMessage {
    ChannelMessage {
        id: id.to_owned(),
        from: from.to_owned(),
        channel: "tax".to_owned(),
        subject: String::new(),
        sent: "2026-07-22 01:30:00 -0500".to_owned(),
        event: None,
        display_name: None,
        pfp: None,
        re: None,
        mentions: vec![],
        signature_ref: None,
    }
}

fn post_of(id: &str, from: &str, body: &str) -> ParsedChannelMessage {
    ParsedChannelMessage { message: message(id, from), body: body.to_owned() }
}

fn rooms(names: &[&str]) -> RoomMap {
    let mut map: RoomMap = RoomMap::new();
    for name in names {
        map.insert(name, "/tmp".to_owned());
    }
    map
}

fn members(names: &[&str]) -> MemberMap {
    let mut map: MemberMap = MemberMap::new();
    for name in names {
        map.insert(name, "2026-07-22 01:00:00 -0500".to_owned());
    }
    map
}

fn rule(from: &str, to: &str, reason: &str) -> BlockingRule {
    BlockingRule { from: from.to_owned(), to: to.to_owned(), reason: reason.to_owned() }
}

fn draft(room: &str, subject: &str, event: Option<&str>) -> MessageDraft {
    MessageDraft {
        room: room.to_owned(),
        channel: "tax".to_owned(),
        subject: subject.to_owned(),
        event: event.map(str::to_owned),
        display_name: None,
        pfp: None,
        re: None,
        mentions: vec![],
        signature_ref: None,
    }
}

fn write(draft: &MessageDraft, id: &str) -> ChannelMessage {
    let state = Posting::start().step(
        draft,
        PostingEvent::Id { id: id.to_owned(), sent: "2026-07-22 01:30:00 -0500".to_owned() },
    );
    match state.step(draft, PostingEvent::Written) {
        Posting::Posted { message } => message,
        other => panic!("not posted: {other:?}"),
    }
}

#[test]
fn microsecond_ids_sort_chronologically_and_validate() {
    let early = CivilTime { year: 2026, month: 7, day: 22, hour: 1, minute: 0, second: 0 };
    let (first_ts, _) = format_local_timestamp_micros(&early, &early, 0, 1);
    let first = new_mail_id(&first_ts, 5, 1, 77, 0);
    let (second_ts, _) = format_local_timestamp_micros(&early, &early, 0, 2001);
    let second = new_mail_id(&second_ts, 4, 2, 77, 0);
    assert!(first < second, "{first} must sort before {second}");
    validate_channel_message("<test>", &message(&first, "alpha")).expect("valid id shape");
}

#[test]
fn control_characters_in_channel_field_are_refused_at_parse() {
    let mut forged = message(ID1, "alpha");
    forged.channel = "tax\nFORGED".to_owned();
    let error = validate_channel_message("<test>", &forged)
        .expect_err("control characters in channel must be refused");
    assert_eq!(error.code.as_str(), "config_invalid");
}

#[test]
fn second_resolution_mail_id_is_refused_for_channel_messages() {
    let mut short = message("20260722-012000-abcdef", "alpha");
    short.sent = "2026-07-22 01:20:00 -0500".to_owned();
    let error = validate_channel_message("<test>", &short)
        .expect_err("second-resolution ids must be refused");
    assert_eq!(error.code.as_str(), "config_invalid");
}

#[test]
fn malformed_re_is_refused_at_parse() {
    let mut reply = message(ID1, "alpha");
    reply.re = Some("aaaaaaaéx".to_owned());
    let error =
        validate_channel_message("<test>", &reply).expect_err("non-canonical re must be refused");
    assert_eq!(error.code.as_str(), "config_invalid");
}

#[test]
fn join_records_event_then_membership_and_send_roundtrips() {
    let event_body = join_body("alpha");
    assert_eq!(event_body, "=== alpha joined ===");
    let event = write(&draft("alpha", "", Some(JOIN_EVENT)), ID1);
    let sent = write(&draft("alpha", "hello", None), ID2);
    assert!(event.id < sent.id, "event must sort before the later send");

    let listed = vec![format!("{ID2}.msg"), "notes.txt".to_owned(), format!("{ID1}.msg")];
    let files = files_with_extension(&listed, "msg");
    assert_eq!(files, vec![format!("{ID1}.msg"), format!("{ID2}.msg")]);

    let raw = frame_message("{}", "first message");
    let (head, body) = split_channel_message("<test>", &raw).expect("split");
    assert_eq!(head, "{}");
    let parsed = accept_message(&format!("/m/{ID2}.msg"), sent, body).expect("parse");
    assert_eq!(parsed.message.from, "alpha");
    assert_eq!(parsed.message.channel, "tax");
    assert_eq!(parsed.message.event, None);
    assert_eq!(parsed.body, "first message");
    let parsed_event =
        accept_message(&format!("/m/{ID1}.msg"), event, event_body).expect("parse event");
    assert_eq!(parsed_event.message.event.as_deref(), Some(JOIN_EVENT));
}

#[test]
fn send_stamps_profile_as_of_send_time_and_rename_does_not_retcon() {
    let rooms = rooms(&["alpha", "beta"]);
    let mut profiles: ProfileMap = ProfileMap::new();
    profiles.insert(
        "alpha",
        Profile { name: Some("Lantern".to_owned()), pfp: Some("🏮".to_owned()) },
    );
    let mut first_draft = draft("alpha", "", None);
    let stamp = stamp_for("alpha", &rooms, &profiles);
    first_draft.display_name = stamp.name;
    first_draft.pfp = stamp.pfp;
    let first = write(&first_draft, ID1);

    profiles.insert(
        "alpha",
        Profile { name: Some("Coldwell".to_owned()), pfp: Some("🏮".to_owned()) },
    );
    let mut second_draft = draft("alpha", "", None);
    let stamp = stamp_for("alpha", &rooms, &profiles);
    second_draft.display_name = stamp.name;
    second_draft.pfp = stamp.pfp;
    let second = write(&second_draft, ID2);

    assert_eq!(first.display_name.as_deref(), Some("Lantern"));
    assert_eq!(second.display_name.as_deref(), Some("Coldwell"));
    assert_eq!(second.pfp.as_deref(), Some("🏮"));
}

#[test]
fn blocked_route_bars_shared_membership_in_both_directions() {
    let rules = vec![rule("*", "beta", "armed instrument")];
    let refused = ensure_join_allowed("tax", "alpha", &members(&["beta"]), &rules)
        .expect_err("pairwise check must catch the alpha->beta block");
    assert_eq!(refused.code, ErrorCode::BlockedRoute);
    assert_eq!(refused.exit_code, 77);
    assert_eq!(refused.details.input.as_deref(), Some("alpha <-> beta"));
    assert!(ensure_join_allowed("tax", "beta", &members(&["alpha"]), &rules).is_err());
    assert!(ensure_join_allowed("tax", "alpha", &members(&["gamma"]), &rules).is_ok());
}

#[test]
fn list_channels_skips_strays_and_counts_messages() {
    let info = ChannelInfo {
        name: "tax".to_owned(),
        created: "2026-07-22 01:00:00 -0500".to_owned(),
        created_by: "alpha".to_owned(),
        description: None,
    };
    let listed = vec![format!("{ID1}.msg"), "stray.txt".to_owned()];
    let count = files_with_extension(&listed, "msg").len();
    let summaries = sort_channels(vec![list_item(info, &members(&["alpha"]), count)]);
    assert_eq!(summaries.len(), 1);
    assert_eq!(summaries[0].name, "tax");
    assert_eq!(summaries[0].messages, 1);
    assert_eq!(summaries[0].members, vec!["alpha".to_owned()]);
}

#[test]
fn extract_mentions_takes_longest_registered_name_per_at() {
    let rooms = rooms(&[
        "foo",
        "foo.bar",
        "baz",
        "baz+qux",
        "café",
        "café.x",
        "cloud",
        "cloud-space",
    ]);
    assert_eq!(extract_mentions("ping @foo.bar please", &rooms), vec!["foo.bar".to_owned()]);
    assert_eq!(extract_mentions("see @baz+qux", &rooms), vec!["baz+qux".to_owned()]);
    assert_eq!(extract_mentions("hi @café.x", &rooms), vec!["café.x".to_owned()]);
    // Longer name wins; shorter must not also stamp.
    assert_eq!(extract_mentions("hey @cloud-space", &rooms), vec!["cloud-space".to_owned()]);
    assert_eq!(extract_mentions("hey @cloud please", &rooms), vec!["cloud".to_owned()]);
}

#[test]
fn mentions_need_word_boundaries_and_come_sorted_once() {
    let rooms = rooms(&["alpha", "beta"]);
    assert_eq!(
        extract_mentions("@beta and @alpha, then @beta again", &rooms),
        vec!["alpha".to_owned(), "beta".to_owned()]
    );
    assert!(extract_mentions("mail me at x@alpha or @alphabet", &rooms).is_empty());
    assert!(extract_mentions("@ alpha", &rooms).is_empty());
    assert_eq!(extract_mentions("(@alpha)", &rooms), vec!["alpha".to_owned()]);
}

#[test]
fn channel_names_are_path_safe() {
    validate_channel_name("tax").expect("plain name");
    let error = validate_channel_name("a/b").expect_err("slash");
    assert_eq!(error.code, ErrorCode::InvalidArgument);
    assert!(error.message.starts_with("channel 'a/b' is invalid: "));
    let context = Context { root: "/mail".to_owned(), home: "/home/x".to_owned() };
    let paths = ChannelPaths::new(&context, "tax").expect("paths");
    assert_eq!(paths.dir, "/mail/channels/tax");
    assert_eq!(paths.messages, "/mail/channels/tax/messages");
    assert_eq!(paths.channel_json, "/mail/channels/tax/channel.json");
    assert_eq!(paths.members_json, "/mail/channels/tax/members.json");
    assert!(ChannelPaths::new(&context, "..").is_err());
}

#[test]
fn messages_are_refused_field_by_field() {
    let cases: Vec<(Box<dyn Fn(&mut ChannelMessage)>, &str)> = vec![
        (Box::new(|m: &mut ChannelMessage| m.id = " ".to_owned()), "field 'id' is empty"),
        (Box::new(|m: &mut ChannelMessage| m.from = String::new()), "field 'from' is empty"),
        (Box::new(|m: &mut ChannelMessage| m.channel = String::new()), "field 'channel' is empty"),
        (Box::new(|m: &mut ChannelMessage| m.sent = String::new()), "field 'sent' is empty"),
        (Box::new(|m: &mut ChannelMessage| m.channel = "a/b".to_owned()), "('a/b') is not a path-safe name"),
        (
            Box::new(|m: &mut ChannelMessage| m.event = Some("party".to_owned())),
            "event 'party' is unknown; only 'join' and 'profile' exist",
        ),
        (
            Box::new(|m: &mut ChannelMessage| m.display_name = Some("a\nb".to_owned())),
            "field 'display_name' contains control",
        ),
        (
            Box::new(|m: &mut ChannelMessage| m.pfp = Some("\u{202e}".to_owned())),
            "field 'pfp' contains control",
        ),
        (
            Box::new(|m: &mut ChannelMessage| m.mentions = vec!["ok".to_owned(), "a\tb".to_owned()]),
            "mentions entry 'a\\tb' is not a valid room name",
        ),
    ];
    for (change, needle) in cases {
        let mut m = message(ID1, "alpha");
        change(&mut m);
        let error = validate_channel_message("<test>", &m).expect_err(needle);
        assert_eq!(error.code, ErrorCode::ConfigInvalid);
        assert!(error.message.contains(needle), "{} lacks {needle}", error.message);
    }
}

#[test]
fn stored_messages_are_named_after_their_ids() {
    let error = accept_message("/m/other.msg", message(ID1, "alpha"), "x".to_owned())
        .expect_err("wrong name");
    assert!(error.message.contains(&format!("filename must be '{ID1}.msg' to match its id")));
    let error = split_channel_message("/m/a.msg", "no separator").expect_err("no separator");
    assert_eq!(error.code, ErrorCode::ConfigInvalid);
}

#[test]
fn descriptions_have_a_cap_and_empty_ones_clear() {
    validate_description(&"x".repeat(1024)).expect("at the cap");
    let error = validate_description(&"x".repeat(1025)).expect_err("over the cap");
    assert_eq!(error.message, "channel description is 1025 bytes; the maximum is 1024 bytes");
    let info = new_channel_info("tax", "now", "alpha", Some(""));
    assert_eq!(info.description, None);
    let info = with_description(info, "cite ids");
    assert_eq!(info.description.as_deref(), Some("cite ids"));
    assert_eq!(info.created_by, "alpha");
    assert_eq!(with_description(info, "").description, None);
}

#[test]
fn joining_twice_is_noticed() {
    let known = members(&["alpha"]);
    assert!(check_join("alpha", None, &known).expect("member"));
    assert!(!check_join("beta", Some("norms"), &known).expect("new"));
    assert!(check_join("beta", Some(&"x".repeat(2000)), &known).is_err());
    assert_eq!(
        join_receipt("tax", "alpha", None, true, false),
        "post: created #tax and joined as alpha\n"
    );
    assert_eq!(join_receipt("tax", "alpha", None, false, false), "post: joined #tax as alpha\n");
    assert_eq!(
        join_receipt("tax", "alpha", Some("n"), false, true),
        "post: alpha is already a member of #tax; updated description\n"
    );
    assert_eq!(
        join_receipt("tax", "alpha", Some(""), false, true),
        "post: alpha is already a member of #tax; cleared description\n"
    );
    assert_eq!(
        join_receipt("tax", "alpha", None, false, true),
        "post: alpha is already a member of #tax\n"
    );
}

#[test]
fn non_member_read_is_refused_with_join_fix() {
    let error = check_access("tax", "alpha", Purpose::Read, true, &members(&["beta"]))
        .expect_err("non-member must be refused");
    assert_eq!(error.code.as_str(), "not_a_member");
    assert_eq!(error.exit_code, 65);
    assert_eq!(
        error.suggested_fix,
        "Join first with `post chat 'tax' --join`, then retry the read."
    );
    let error = check_access("tax", "alpha", Purpose::Send, true, &members(&["beta"]))
        .expect_err("non-member send");
    assert_eq!(error.details.reason.as_deref(), Some("sender is absent from members.json"));
    let error = check_access("tax", "alpha", Purpose::SeenBy, true, &members(&["beta"]))
        .expect_err("non-member receipt");
    assert_eq!(error.suggested_fix, "Join first with `post chat 'tax' --join`.");
    check_access("tax", "beta", Purpose::Read, true, &members(&["beta"])).expect("member");
}

#[test]
fn missing_channel_is_not_found() {
    let error = check_access("tax", "alpha", Purpose::Read, false, &members(&[]))
        .expect_err("missing channel must error");
    assert_eq!(error.code.as_str(), "not_found");
    assert_eq!(error.exit_code, 66);
    assert_eq!(error.suggested_fix, "Create it with `post chat 'tax' --join`.");
    let error = check_access("my tax", "alpha", Purpose::Send, false, &members(&[]))
        .expect_err("missing channel must error");
    assert_eq!(
        error.suggested_fix,
        "Create it with `post chat 'my tax' --join`, then retry the send."
    );
}

#[test]
fn blank_messages_are_refused() {
    let error = check_message_body("tax", " \n\t").expect_err("blank");
    assert_eq!(error.code, ErrorCode::EmptyBody);
    check_message_body("tax", "x").expect("not blank");
}

#[test]
fn sends_that_cross_unread_messages_bounce_with_the_last_ten() {
    let mut posts = vec![post_of(ID1, "beta", "old")];
    for n in 0..12 {
        posts.push(post_of(&format!("20260722-015000-{n:06}-aaaaaa"), "beta", &format!("b{n}")));
    }
    let mut own = post_of("20260722-016000-000001-aaaaaa", "alpha", "mine");
    own.message.subject = "s".to_owned();
    posts.push(own);
    let mut joined = post_of("20260722-016000-000002-aaaaaa", "gamma", "=== gamma joined ===");
    joined.message.event = Some("join".to_owned());
    posts.push(joined);

    let error =
        crossed_send_bounce("tax", "alpha", Some(ID1), &posts).expect_err("must bounce");
    assert_eq!(error.code, ErrorCode::CrossedSend);
    assert_eq!(error.exit_code, 65);
    assert_eq!(
        error.message,
        "channel 'tax' has 12 unread message(s) past your cursor; send was not delivered (showing the last 10)"
    );
    let missed = error.details.missed.as_ref().expect("missed");
    assert_eq!(missed.len(), 10);
    assert_eq!(missed[0].body, "b2");
    assert_eq!(missed[9].body, "b11");
    assert_eq!(
        error.details.exact_fix.as_deref(),
        Some("post chat 'tax' --send --anyway --body '<revised text>'")
    );
    crossed_send_bounce("tax", "alpha", Some("20260722-015500"), &posts).expect("caught up");
}

#[test]
fn message_ids_resolve_by_unique_prefix() {
    let all = vec![ID1.to_owned(), ID2.to_owned(), ID3.to_owned()];
    assert_eq!(resolve_message_id(&all, ID2).expect("full"), ID2);
    assert_eq!(resolve_message_id(&all, "20260722-0140").expect("prefix"), ID3);
    let error = resolve_message_id(&all, "20260722-0130").expect_err("ambiguous");
    assert_eq!(error.code, ErrorCode::AmbiguousId);
    assert_eq!(error.details.matches, Some(vec![ID1.to_owned(), ID2.to_owned()]));
    let error = resolve_message_id(&all, "2025").expect_err("none");
    assert_eq!(error.code, ErrorCode::NotFound);
}

#[test]
fn taken_message_ids_are_tried_again_and_give_up() {
    let d = draft("alpha", "", None);
    let mut state = Posting::start();
    for attempt in 0..256 {
        state = state.step(
            &d,
            PostingEvent::Id { id: format!("20260722-013000-{attempt:06}-abc123"), sent: "now".to_owned() },
        );
        assert!(matches!(state, Posting::Write { .. }));
        state = state.step(&d, PostingEvent::Exists);
    }
    match state {
        Posting::Failed { error } => {
            assert_eq!(
                error.message,
                "could not allocate a unique channel message id after 256 attempts"
            );
            assert!(error.retryable);
        }
        other => panic!("{other:?}"),
    }
}

#[test]
fn failed_message_writes_and_bad_drafts_are_reported() {
    let d = draft("alpha", "", None);
    let state = Posting::start()
        .step(&d, PostingEvent::Id { id: ID1.to_owned(), sent: "now".to_owned() })
        .step(
            &d,
            PostingEvent::WriteFailed { path: "/m/x.msg".to_owned(), problem: "disk full".to_owned() },
        );
    match state {
        Posting::Failed { error } => {
            assert_eq!(error.code, ErrorCode::IoError);
            assert_eq!(error.details.path.as_deref(), Some("/m/x.msg"));
        }
        other => panic!("{other:?}"),
    }
    let state = Posting::start()
        .step(&d, PostingEvent::Id { id: "bad".to_owned(), sent: "now".to_owned() });
    match state {
        Posting::Failed { error } => assert_eq!(error.code, ErrorCode::ConfigInvalid),
        other => panic!("{other:?}"),
    }
}

#[test]
fn channel_listing_text_shows_descriptions() {
    assert_eq!(channels_text(&vec![]), "post: no channels\n");
    let info = new_channel_info("tax", "t", "alpha", Some("cite ids"));
    let item = list_item(info, &members(&["alpha", "beta"]), 3);
    let plain = list_item(new_channel_info("ops", "t", "beta", None), &members(&["beta"]), 0);
    let items = sort_channels(vec![item, plain]);
    assert_eq!(
        channels_text(&items),
        "#ops  (1 members, 0 messages, by beta)\n#tax  (2 members, 3 messages, by alpha)\n  cite ids\n"
    );
    assert_eq!(channels_of(&items, "alpha"), vec!["tax".to_owned()]);
    assert_eq!(channels_of(&items, "beta"), vec!["ops".to_owned(), "tax".to_owned()]);
}

#[test]
fn events_carry_a_room_and_nothing_else() {
    let record = event_draft("alpha", "tax", PROFILE_EVENT);
    assert_eq!(record.room, "alpha");
    assert_eq!(record.channel, "tax");
    assert_eq!(record.subject, "");
    assert_eq!(record.event.as_deref(), Some(PROFILE_EVENT));
    assert!(record.display_name.is_none() && record.pfp.is_none() && record.re.is_none());
    assert!(record.mentions.is_empty() && record.signature_ref.is_none());
}

#[test]
fn stamps_change_the_profile_only() {
    let mut plain = draft("alpha", "sums", None);
    plain.re = Some(ID1.to_owned());
    plain.signature_ref = Some("{}".to_owned());
    let named = Profile { name: Some("Lantern".to_owned()), pfp: Some("🏮".to_owned()) };
    let posted = write(&stamped(plain, named), ID2);
    assert_eq!(posted.display_name.as_deref(), Some("Lantern"));
    assert_eq!(posted.pfp.as_deref(), Some("🏮"));
    assert_eq!(posted.from, "alpha");
    assert_eq!(posted.subject, "sums");
    assert_eq!(posted.re.as_deref(), Some(ID1));
    assert_eq!(posted.signature_ref.as_deref(), Some("{}"));
    let bare = write(
        &stamped(draft("alpha", "sums", None), Profile { name: None, pfp: None }),
        ID3,
    );
    assert!(bare.display_name.is_none() && bare.pfp.is_none());
}

#[test]
fn a_rename_does_not_rewrite_history() {
    let named = |name: &str| Profile { name: Some(name.to_owned()), pfp: None };
    let mut history = vec![write(&stamped(draft("alpha", "", None), named("First")), ID1)];
    let before: Vec<Option<String>> =
        history.iter().map(|message| message.display_name.clone()).collect();
    history.push(write(&stamped(draft("alpha", "", None), named("Second")), ID2));
    assert_eq!(history[0].display_name, before[0], "the older message keeps its name");
    assert_eq!(history[1].display_name.as_deref(), Some("Second"));
}

#[test]
fn signature_tags_and_signed_bodies_are_bounded() {
    check_signature_ref(None, "anything").expect("unsigned");
    check_signature_ref(Some("20260722-a1"), "text").expect("a tag");
    for tag in ["", "a b", "../x", "tag\"", "ü"] {
        let error = check_signature_ref(Some(tag), "text").expect_err("malformed tag");
        assert_eq!(error.code, ErrorCode::InvalidArgument);
        assert_eq!(error.details.reason.as_deref(), Some("malformed signature tag"));
    }
    let most = "x".repeat(1_048_576);
    check_signature_ref(Some("t1"), &most).expect("exactly 1 MiB");
    let error = check_signature_ref(Some("t1"), &(most.clone() + "x")).expect_err("one too many");
    assert_eq!(
        error.message,
        "signed message body is 1048577 bytes; signed messages are limited to 1048576 bytes"
    );
    assert_eq!(error.details.reason.as_deref(), Some("signed message body exceeds 1 MiB"));
    // Bytes count, not characters.
    assert!(check_signature_ref(Some("t1"), &"ü".repeat(524_289)).is_err());
    // An unsigned body has no such bound.
    check_signature_ref(None, &(most + "x")).expect("unsigned");
}

#[test]
fn channel_listings_take_a_line_each() {
    let shown = channels_text(&vec![
        ChannelListItem {
            name: "tax".to_owned(),
            description: Some("two\nlines".to_owned()),
            created: "2026-07-22 01:00:00 -0500".to_owned(),
            created_by: "al\npha".to_owned(),
            members: vec!["alpha".to_owned()],
            messages: 12,
        },
    ]);
    assert_eq!(shown.lines().count(), 2, "one line, and one for the description");
    assert!(shown.starts_with("#tax  (1 members, 12 messages, by al"));
}
