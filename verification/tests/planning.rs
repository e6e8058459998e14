use post::channel::{plan_message, MessageRequest};
use post::chat::{plan_read, MessageRead};
use post::cli::{ChatArgs, FramingMode, RoomsAddArgs, SendArgs};
use post::context::{ensure_sender_allowed, infer_from_cwd, Context, RoomTree};
use post::error::{AppError, ErrorCode};
use post::fence::{check_state_file, fence_state, state_fields, FenceState, LockFacts};
use post::joining::{join_record, with_member, JoinEvent, JoinRequest, Joining};
use post::model::{
    BlockingRule, ChannelMessage, Envelope, MailKind, ParsedChannelMessage, SenderProvenance,
};
use post::owner::{
    resolved_owner, resolved_owner_room, OwnerResolution, OwnerSource, ResolvedOwner,
};
use post::profile::{plan_change, plan_clear, stamp_for, store_profile, Profile, ProfileMap};
use post::reading::{render_mail, MAIL_ONE_LINE_LAWS, MAIL_WALL_LAWS, MAIL_WALL_TOP};
use post::registering::{with_room, Inspection, RegisterEvent, Registering};
use post::rooms::{Candidate, Resolution, Workspace};
use post::send::check_request;
use post::signed::{signed_claim, signed_status, Claim, KeyCheck, SignedStatus};
use post::textmap::{MemberMap, RoomMap};
use post::transcript::{plan_banner, render_text, Banner, ONE_LINE_LAWS, WALL_LAWS, WALL_TOP};
use post::watch::{gather_messages, select_rooms, ChannelSighting};

const ID1: &str = "20260722-013000-000001-abc123";
const ID2: &str = "20260722-013000-000002-abc456";
const ID3: &str = "20260722-014000-000001-abc789";
const NOW: &str = "2026-07-22 01:30:00 -0500";

fn post_of(id: &str, from: &str, body: &str, mentions: &[&str]) -> ParsedChannelMessage {
    ParsedChannelMessage {
        message: ChannelMessage {
            id: id.to_owned(),
            from: from.to_owned(),
            channel: "tax".to_owned(),
            subject: String::new(),
            sent: NOW.to_owned(),
            event: None,
            display_name: None,
            pfp: None,
            re: None,
            mentions: mentions.iter().map(|name| name.to_string()).collect(),
            signature_ref: None,
        },
        body: body.to_owned(),
    }
}

fn file(id: &str, from: &str, body: &str, mentions: &[&str]) -> MessageRead {
    MessageRead {
        path: format!("/m/{id}.msg"),
        stem: Some(id.to_owned()),
        read: Ok(post_of(id, from, body, mentions)),
    }
}

fn broken(id: &str) -> MessageRead {
    let path = format!("/m/{id}.msg");
    MessageRead {
        read: Err(AppError::config(&path, "no separator")),
        stem: Some(id.to_owned()),
        path,
    }
}

fn three() -> Vec<MessageRead> {
    vec![
        file(ID3, "beta", "third", &[]),
        file(ID1, "beta", "first", &["alpha"]),
        file(ID2, "beta", "second", &[]),
    ]
}

fn chat() -> ChatArgs {
    ChatArgs {
        name: "tax".to_owned(),
        join: false,
        description: None,
        send: false,
        anyway: false,
        re: None,
        signature_ref: None,
        subject: String::new(),
        body: None,
        body_file: None,
        oversize: false,
        file: None,
        peek: false,
        history: None,
        grep: None,
        since: None,
        discard: false,
        discard_through: None,
        limit: None,
        seen_by: None,
        framing: FramingMode::Auto,
    }
}

fn ids(posts: &[ParsedChannelMessage]) -> Vec<&str> {
    posts.iter().map(|post| post.message.id.as_str()).collect()
}

fn rooms(names: &[&str]) -> RoomMap {
    let mut map: RoomMap = RoomMap::new();
    for name in names {
        map.insert(name, format!("/{name}"));
    }
    map
}

fn members(names: &[&str]) -> MemberMap {
    let mut map: MemberMap = MemberMap::new();
    for name in names {
        map.insert(name, NOW.to_owned());
    }
    map
}

fn request(body: &str) -> MessageRequest {
    MessageRequest {
        channel: "tax".to_owned(),
        room: "alpha".to_owned(),
        subject: "sums".to_owned(),
        body: body.to_owned(),
        anyway: false,
        re: None,
        signature_ref: None,
    }
}

#[test]
fn plain_reads_show_everything_and_move_to_the_last_message() {
    let plan = plan_read(three(), &chat(), None, "alpha", false).expect("plan");
    assert_eq!(ids(&plan.posts), [ID1, ID2, ID3]);
    assert_eq!(plan.skipped, 0);
    assert_eq!(plan.advance_to.as_deref(), Some(ID3));
    assert!(plan.warnings.is_empty());
    let plan = plan_read(three(), &chat(), Some(ID2), "alpha", false).expect("plan");
    assert_eq!(ids(&plan.posts), [ID3]);
    let plan = plan_read(three(), &chat(), Some(ID3), "alpha", true).expect("nothing is consumed");
    assert!(plan.posts.is_empty());
    assert_eq!(plan.advance_to, None);
}

#[test]
fn bounded_reads_keep_mentions_and_move_past_what_they_skip() {
    let mut args = chat();
    args.limit = Some(1);
    let plan = plan_read(three(), &args, None, "alpha", false).expect("plan");
    assert_eq!(ids(&plan.posts), [ID1, ID3]);
    assert_eq!(plan.skipped, 1);
    assert_eq!(plan.advance_to.as_deref(), Some(ID3));
}

#[test]
fn peeks_and_histories_leave_the_cursor() {
    let mut args = chat();
    args.peek = true;
    let plan = plan_read(three(), &args, Some(ID1), "alpha", true).expect("a peek may go nowhere");
    assert_eq!(ids(&plan.posts), [ID2, ID3]);
    assert_eq!(plan.advance_to, None);
    let mut args = chat();
    args.history = Some(2);
    let plan = plan_read(three(), &args, Some(ID3), "alpha", true).expect("a history");
    assert_eq!(ids(&plan.posts), [ID2, ID3]);
    assert_eq!(plan.advance_to, None);
    args.grep = Some("THIRD".to_owned());
    let plan = plan_read(three(), &args, None, "alpha", true).expect("a search");
    assert_eq!(ids(&plan.posts), [ID3]);
    args.grep = Some("(".to_owned());
    let error = plan_read(three(), &args, None, "alpha", true).expect_err("no pattern");
    assert_eq!(error.code, ErrorCode::InvalidArgument);
    assert_eq!(error.details.input.as_deref(), Some("--grep"));
    let mut args = chat();
    args.since = Some(ID1.to_owned());
    let plan = plan_read(three(), &args, Some(ID3), "alpha", false).expect("since a message");
    assert_eq!(ids(&plan.posts), [ID2, ID3]);
    assert_eq!(plan.advance_to, None);
}

#[test]
fn discards_take_the_whole_batch_also_into_the_null_device() {
    let mut args = chat();
    args.discard = true;
    args.limit = Some(1);
    let plan = plan_read(three(), &args, None, "alpha", true).expect("discard");
    assert_eq!(plan.posts.len(), 3);
    assert_eq!(plan.skipped, 0);
    assert_eq!(plan.advance_to.as_deref(), Some(ID3));
}

#[test]
fn reads_that_nobody_sees_are_refused() {
    let mut args = chat();
    args.limit = Some(1);
    let error = plan_read(three(), &args, None, "alpha", true).expect_err("null device");
    assert_eq!(error.code, ErrorCode::InvalidArgument);
    assert_eq!(
        error.message,
        "refusing to advance the #tax cursor into /dev/null: 2 unread message(s) would be consumed without ever being shown"
    );
}

#[test]
fn unreadable_files_stop_reads_that_move_the_cursor_only() {
    let mut files = three();
    files.push(broken("20260722-015000-000001-abcdef"));
    let error = plan_read(files, &chat(), None, "alpha", false).expect_err("closed");
    assert_eq!(error.code, ErrorCode::ConfigInvalid);
    let mut files = three();
    files.push(broken("20260722-015000-000001-abcdef"));
    let mut args = chat();
    args.history = Some(1);
    let plan = plan_read(files, &args, None, "alpha", false).expect("open");
    assert_eq!(ids(&plan.posts), [ID3]);
    assert_eq!(plan.warnings.len(), 1);
}

#[test]
fn messages_are_drafted_with_their_mentions_and_their_parent() {
    let posts = vec![post_of(ID1, "beta", "hi", &[]), post_of(ID3, "alpha", "own", &[])];
    let mut asked = request("over to @beta and @gamma, not @nobody");
    asked.re = Some("20260722-0130".to_owned());
    let draft = plan_message(
        &asked,
        true,
        &members(&["alpha", "beta"]),
        Some(ID1),
        &posts,
        &rooms(&["alpha", "beta", "gamma"]),
    )
    .expect("draft");
    assert_eq!(draft.room, "alpha");
    assert_eq!(draft.channel, "tax");
    assert_eq!(draft.subject, "sums");
    assert_eq!(draft.event, None);
    assert_eq!(draft.re.as_deref(), Some(ID1));
    assert_eq!(draft.mentions, ["beta", "gamma"]);
}

#[test]
fn messages_are_refused_in_the_order_of_their_faults() {
    let known = rooms(&["alpha", "beta"]);
    let unread = vec![post_of(ID1, "beta", "hi", &[])];
    let both = members(&["alpha", "beta"]);
    let refused = |asked: &MessageRequest, exists: bool, members: &MemberMap| {
        plan_message(asked, exists, members, None, &unread, &known).expect_err("refused").code
    };
    let mut blank = request(" \n");
    blank.re = Some("2027".to_owned());
    assert_eq!(refused(&blank, false, &members(&[])), ErrorCode::NotFound);
    assert_eq!(refused(&blank, true, &members(&["beta"])), ErrorCode::NotAMember);
    assert_eq!(refused(&blank, true, &both), ErrorCode::EmptyBody);
    let mut asked = request("hello");
    asked.re = Some("2027".to_owned());
    assert_eq!(refused(&asked, true, &both), ErrorCode::CrossedSend);
    asked.anyway = true;
    assert_eq!(refused(&asked, true, &both), ErrorCode::NotFound);
    asked.re = None;
    plan_message(&asked, true, &both, None, &unread, &known).expect("sent anyway");
}

#[test]
fn joins_check_the_rules_and_record_the_event_first() {
    let known = members(&["beta"]);
    let asked = JoinRequest {
        channel: "tax".to_owned(),
        room: "alpha".to_owned(),
        description: None,
    };
    let state = Joining::start(&asked, &known);
    assert!(matches!(state, Joining::LoadRules));
    let rule = BlockingRule {
        from: "beta".to_owned(),
        to: "alpha".to_owned(),
        reason: "walls".to_owned(),
    };
    match state.step(&asked, &known, JoinEvent::Rules(vec![rule])) {
        Joining::Failed { error } => assert_eq!(error.code, ErrorCode::BlockedRoute),
        other => panic!("not refused: {other:?}"),
    }
    let state = Joining::start(&asked, &known).step(&asked, &known, JoinEvent::Rules(vec![]));
    assert!(matches!(state, Joining::PrepareMessages));
    let state = state.step(&asked, &known, JoinEvent::MemberAdded);
    assert!(matches!(state, Joining::PrepareMessages));
    let prepared = JoinEvent::Prepared { exists_already: true, now: NOW.to_owned() };
    let state = state.step(&asked, &known, prepared);
    assert!(matches!(state, Joining::PostEvent { created: false, .. }));
    let state = state.step(&asked, &known, JoinEvent::EventPosted(ID1.to_owned()));
    match &state {
        Joining::AddMember { since, event_id, .. } => {
            assert_eq!(since, NOW);
            assert_eq!(event_id, ID1);
        }
        other => panic!("no membership: {other:?}"),
    }
    match state.step(&asked, &known, JoinEvent::MemberAdded) {
        Joining::Done { created, already_member, event_id } => {
            assert!(!created && !already_member);
            assert_eq!(event_id.as_deref(), Some(ID1));
        }
        other => panic!("not done: {other:?}"),
    }
}

#[test]
fn first_joins_create_the_channel() {
    let nobody = members(&[]);
    let asked = JoinRequest {
        channel: "tax".to_owned(),
        room: "alpha".to_owned(),
        description: Some("norms".to_owned()),
    };
    let state = Joining::start(&asked, &nobody)
        .step(&asked, &nobody, JoinEvent::Rules(vec![]))
        .step(
            &asked,
            &nobody,
            JoinEvent::Prepared { exists_already: false, now: NOW.to_owned() },
        );
    assert!(matches!(state, Joining::CreateInfo { .. }));
    let state = state.step(&asked, &nobody, JoinEvent::InfoWritten);
    assert!(matches!(state, Joining::PostEvent { created: true, .. }));
}

#[test]
fn members_that_join_again_only_change_the_description() {
    let known = members(&["alpha"]);
    let mut asked = JoinRequest {
        channel: "tax".to_owned(),
        room: "alpha".to_owned(),
        description: None,
    };
    assert!(matches!(
        Joining::start(&asked, &known),
        Joining::Done { created: false, already_member: true, event_id: None }
    ));
    asked.description = Some("norms".to_owned());
    let state = Joining::start(&asked, &known);
    assert!(matches!(state, Joining::AmendInfo { since: None }));
    assert!(matches!(
        state.step(&asked, &known, JoinEvent::InfoWritten),
        Joining::Done { created: false, already_member: true, event_id: None }
    ));
    asked.description = Some("x".repeat(1025));
    match Joining::start(&asked, &known) {
        Joining::Failed { error } => assert_eq!(error.code, ErrorCode::InvalidArgument),
        other => panic!("not refused: {other:?}"),
    }
}

#[test]
fn mail_requests_are_refused_in_the_order_of_their_faults() {
    let known = rooms(&["alpha", "beta"]);
    let mut args = SendArgs {
        to: "alpha".to_owned(),
        sender: None,
        kind: MailKind::Note,
        subject: "s".repeat(1025),
        body: None,
        body_file: None,
        oversize: false,
        allow_self: false,
        file: None,
    };
    let error = check_request("alpha", &args, &known).expect_err("to itself");
    assert_eq!(error.message, "refusing to send mail from 'alpha' to itself");
    args.to = "alpah".to_owned();
    let error = check_request("alpha", &args, &known).expect_err("nobody");
    assert_eq!(error.code, ErrorCode::UnknownRoom);
    args.to = "beta".to_owned();
    let error = check_request("alpha", &args, &known).expect_err("long subject");
    assert_eq!(error.code, ErrorCode::InvalidArgument);
    args.subject = "s".repeat(1024);
    check_request("alpha", &args, &known).expect("fine");
    args.to = "alpha".to_owned();
    args.allow_self = true;
    check_request("alpha", &args, &known).expect("a probe");
}

#[test]
fn fence_files_are_small_plain_files() {
    let plain = LockFacts { is_file: true, links: 1, device: 1, inode: 1 };
    check_state_file("/m/.fence", &plain, 4096).expect("small");
    let error = check_state_file("/m/.fence", &plain, 4097).expect_err("large");
    assert_eq!(error.code, ErrorCode::ConfigInvalid);
    let twice = LockFacts { links: 2, ..plain };
    assert!(check_state_file("/m/.fence", &twice, 10).is_err());
    let other = LockFacts { is_file: false, ..plain };
    assert!(check_state_file("/m/.fence", &other, 10).is_err());
    for state in [FenceState::Fenced { generation: 7 }, FenceState::Active { generation: 8 }] {
        let (name, generation) = state_fields(state);
        let read = fence_state("/m/.fence", name, Some(generation)).expect("read back");
        assert_eq!(state_fields(read), (name, generation));
    }
    assert_eq!(state_fields(FenceState::Fenced { generation: 7 }), ("fenced", 7));
    assert_eq!(state_fields(FenceState::Active { generation: 8 }), ("active", 8));
}

fn owner() -> ResolvedOwner {
    ResolvedOwner {
        room: "boss".to_owned(),
        sidecar_dir: "/side".to_owned(),
        allowed_signers: "/side/allowed_signers".to_owned(),
        principal: "boss".to_owned(),
        namespace: "post".to_owned(),
        marker: String::new(),
        label: "BOSS".to_owned(),
        source: OwnerSource::Configured,
    }
}

#[test]
fn configured_and_legacy_owners_are_found() {
    let configured = OwnerResolution::Configured(owner());
    assert_eq!(resolved_owner_room(&configured), Some("boss"));
    assert_eq!(resolved_owner(configured).map(|o| o.sidecar_dir).as_deref(), Some("/side"));
    assert_eq!(resolved_owner_room(&OwnerResolution::Legacy(owner())), Some("boss"));
    assert!(resolved_owner(OwnerResolution::Legacy(owner())).is_some());
    assert_eq!(resolved_owner_room(&OwnerResolution::Absent), None);
    assert!(resolved_owner(OwnerResolution::Absent).is_none());
}

#[test]
fn cleared_profiles_are_announced_where_there_was_one() {
    let mut profiles: ProfileMap = ProfileMap::new();
    let plan = plan_clear("alpha", &profiles);
    assert!(!plan.changed && !plan.dropped);
    profiles.insert("alpha", Profile { name: Some("Lantern".to_owned()), pfp: None });
    let plan = plan_clear("alpha", &profiles);
    assert!(plan.changed && !plan.dropped);
    assert_eq!(plan.profile.name, None);
    assert_eq!(plan.profile.pfp, None);
}

#[test]
fn stored_profiles_are_stamped_as_set() {
    let known = rooms(&["alpha", "beta"]);
    let mut profiles: ProfileMap = ProfileMap::new();
    profiles.insert("beta", Profile { name: Some("Bee".to_owned()), pfp: None });
    let change = plan_change(Some(" Lantern "), None, "alpha", &known, &profiles).expect("plan");
    store_profile(&mut profiles, "alpha", &change.profile);
    assert_eq!(stamp_for("alpha", &known, &profiles).name.as_deref(), Some("Lantern"));
    assert_eq!(stamp_for("beta", &known, &profiles).name.as_deref(), Some("Bee"));
    let change = plan_clear("alpha", &profiles);
    store_profile(&mut profiles, "alpha", &change.profile);
    assert!(!profiles.contains_key("alpha"));
    assert_eq!(profiles.len(), 1);
}

fn candidate() -> Candidate {
    Candidate {
        path: "~/gamma".to_owned(),
        canonical: "/home/u/gamma".to_owned(),
        normalized_canonical: "/home/u/gamma".to_owned(),
        normalized_expanded: "/home/u/gamma".to_owned(),
    }
}

fn adding(name: &str, path: &str) -> RoomsAddArgs {
    RoomsAddArgs { name: name.to_owned(), path: path.to_owned() }
}

fn home() -> Context {
    Context { root: "/home/u/.mail".to_owned(), home: "/home/u".to_owned() }
}

fn refusal(state: Registering) -> AppError {
    match state {
        Registering::Failed { error } => error,
        other => panic!("not refused: {other:?}"),
    }
}

#[test]
fn registrations_go_through_every_check_before_the_registry_is_written() {
    let known = rooms(&["alpha", "beta"]);
    let asked = adding("gamma", "~/gamma");
    let state = Registering::start(&home(), &asked, &known);
    match &state {
        Registering::Inspect { expanded } => assert_eq!(expanded, "/home/u/gamma"),
        other => panic!("nothing to inspect: {other:?}"),
    }
    let state = state.step(&asked, RegisterEvent::Written);
    assert!(matches!(state, Registering::Inspect { .. }));
    let found = RegisterEvent::Inspected(Inspection::Directory(candidate()));
    let state = state.step(&asked, found);
    assert!(matches!(state, Registering::Compare { .. }));
    let workspaces = vec![
        Workspace {
            room: "alpha".to_owned(),
            path: "/alpha".to_owned(),
            resolution: Resolution::Canonical("/alpha".to_owned()),
        },
        Workspace {
            room: "beta".to_owned(),
            path: "/beta".to_owned(),
            resolution: Resolution::Unresolved {
                normalized: "/beta".to_owned(),
                kind: "NotFound".to_owned(),
            },
        },
    ];
    let state = state.step(&asked, RegisterEvent::Workspaces(workspaces));
    assert!(matches!(state, Registering::LoadRules { .. }));
    let state = state.step(&asked, RegisterEvent::Rules(vec![]));
    assert!(matches!(state, Registering::Write { .. }));
    match state.step(&asked, RegisterEvent::Written) {
        Registering::Done { warnings } => assert_eq!(
            warnings,
            ["post: warning: registered room \"beta\" at \"/beta\" could not be canonicalized (NotFound); duplicate-workspace checks for it are limited to normalized path strings"]
        ),
        other => panic!("not done: {other:?}"),
    }
}

#[test]
fn registrations_are_refused_with_the_reason() {
    let known = rooms(&["alpha", "beta"]);
    let start = |name: &str, path: &str| Registering::start(&home(), &adding(name, path), &known);
    assert_eq!(refusal(start("a/b", "/x")).code, ErrorCode::InvalidArgument);
    let taken = refusal(start("ALPHA", "/x"));
    assert_eq!(
        taken.message,
        "room 'ALPHA' is already registered as 'alpha' under ASCII case folding"
    );
    let relative = refusal(start("gamma", "here"));
    assert_eq!(relative.details.input.as_deref(), Some("here"));
    let asked = adding("gamma", "~/gamma");
    let missing = start("gamma", "~/gamma")
        .step(&asked, RegisterEvent::Inspected(Inspection::Missing));
    assert_eq!(refusal(missing).message, "room path '/home/u/gamma' does not exist");
    let file = start("gamma", "~/gamma")
        .step(&asked, RegisterEvent::Inspected(Inspection::NoDirectory));
    assert_eq!(refusal(file).message, "room path '/home/u/gamma' is not a directory");
    let compare = || {
        start("gamma", "~/gamma")
            .step(&asked, RegisterEvent::Inspected(Inspection::Directory(candidate())))
    };
    let holder = Workspace {
        room: "alpha".to_owned(),
        path: "/alpha".to_owned(),
        resolution: Resolution::Canonical("/home/u/gamma".to_owned()),
    };
    let duplicate = compare().step(&asked, RegisterEvent::Workspaces(vec![holder]));
    assert_eq!(refusal(duplicate).code, ErrorCode::DuplicateWorkspace);
    let rule = BlockingRule {
        from: "alpha".to_owned(),
        to: "gamma".to_owned(),
        reason: "walls".to_owned(),
    };
    let blocked = compare()
        .step(&asked, RegisterEvent::Workspaces(vec![]))
        .step(&asked, RegisterEvent::Rules(vec![rule]));
    assert_eq!(refusal(blocked).code, ErrorCode::BlockedRoute);
}

#[test]
fn watches_gather_the_messages_of_sound_channels_of_their_room() {
    let sound = |name: &str, members_of: &[&str]| ChannelSighting::Channel {
        name: name.to_owned(),
        info_problem: None,
        members: Ok(members(members_of)),
        files: Ok(vec![format!("/c/{name}/1.msg"), format!("/c/{name}/2.msg")]),
    };
    let seen = vec![
        ChannelSighting::Unread("gone".to_owned()),
        sound("tax", &["alpha"]),
        ChannelSighting::Other,
        ChannelSighting::Nameless,
        ChannelSighting::Invalid { name: ".x".to_owned(), problem: "bad".to_owned() },
        sound("other", &["beta"]),
        ChannelSighting::Channel {
            name: "torn".to_owned(),
            info_problem: Some("no json".to_owned()),
            members: Ok(members(&["alpha"])),
            files: Ok(vec!["/c/torn/1.msg".to_owned()]),
        },
        ChannelSighting::Channel {
            name: "lost".to_owned(),
            info_problem: None,
            members: Err("no members".to_owned()),
            files: Ok(vec![]),
        },
        ChannelSighting::Channel {
            name: "shut".to_owned(),
            info_problem: None,
            members: Ok(members(&["alpha"])),
            files: Err("denied".to_owned()),
        },
        sound("zen", &["alpha", "beta"]),
    ];
    let (heard, warnings) = gather_messages(&seen, "/c", "alpha");
    let paths: Vec<&str> = heard.iter().map(|file| file.1.as_str()).collect();
    assert_eq!(paths, ["/c/tax/1.msg", "/c/tax/2.msg", "/c/zen/1.msg", "/c/zen/2.msg"]);
    assert_eq!(heard[0].0, "tax");
    assert_eq!(
        warnings,
        [
            "post: warning: cannot read channels entry \"/c\": \"gone\"",
            "post: warning: skipped channel with non-UTF-8 name under \"/c\"",
            "post: warning: skipped invalid channel \".x\": \"bad\"",
            "post: warning: skipped channel \"torn\": \"no json\"",
            "post: warning: skipped channel \"lost\": \"no members\"",
            "post: warning: skipped channel \"shut\": \"denied\"",
        ]
    );
}

#[test]
fn only_the_first_line_claims_a_signature() {
    let post = post_of(ID1, "boss", "", &[]);
    let claims = |body: &str| matches!(
        signed_claim(&owner(), &post.message, body),
        Claim::Tagged { text, tag } if text == "go" && tag == "20260805T005950Z"
    );
    assert!(claims("🔏 go [signed:20260805T005950Z]"));
    assert!(claims("🔏 go [signed:20260805T005950Z]\n"));
    let later = signed_claim(&owner(), &post.message, "🔏 go\n[signed:20260805T005950Z]");
    assert!(matches!(later, Claim::Unsigned));
    let longer =
        signed_claim(&owner(), &post.message, "🔏 go [signed:20260805T005950Z]\nand more");
    assert!(matches!(&longer, Claim::Trailed { text, tag } if text == "go" && tag.ends_with('Z')));
    // A tag that holds gives no badge to the lines below it, and one that does not fails.
    let payload = Some("20260805T005950Z\ngo\n");
    assert!(signed_status(&longer, payload, KeyCheck::Accepted, None).is_none());
    for (payload, check, expected) in [
        (payload, KeyCheck::Rejected, "cryptographic verification failed"),
        (payload, KeyCheck::NotRun, "signed payload could not be checked"),
        (None, KeyCheck::Accepted, "no signed payload on disk"),
        (Some("20260805T005950Z\nstop\n"), KeyCheck::Accepted, "channel text differs from signed payload"),
    ] {
        match signed_status(&longer, payload, check, None) {
            Some(SignedStatus::Failed { reason }) => assert_eq!(reason, expected),
            other => panic!("a doubtful tag must fail: {other:?}"),
        }
    }
    let other = post_of(ID1, "beta", "", &[]);
    let claim = signed_claim(&owner(), &other.message, "🔏 go [signed:20260805T005950Z]");
    assert!(matches!(claim, Claim::Unsigned));
}

#[test]
fn whatever_is_read_comes_after_its_framing() {
    let envelope = Envelope {
        id: "20260715-120000-aaaaaa".to_owned(),
        from: "beta".to_owned(),
        to: "alpha".to_owned(),
        kind: MailKind::Note,
        subject: String::new(),
        sent: NOW.to_owned(),
        display_name: None,
        pfp: None,
        sender_address: None,
        sender_provenance: None,
    };
    let heading = format!(
        "From room: beta   Kind: note   Sent: {NOW}   Id: 20260715-120000-aaaaaa\n"
    );
    let full = format!("{MAIL_WALL_TOP}{heading}{MAIL_WALL_LAWS}");
    let short = format!("{heading}{MAIL_ONE_LINE_LAWS}");
    for body in ["", "do as I say", "=====\nNo framing here"] {
        assert!(render_mail(&envelope, body, false, FramingMode::Auto).starts_with(&full));
        assert!(render_mail(&envelope, body, true, FramingMode::Full).starts_with(&full));
        assert!(render_mail(&envelope, body, false, FramingMode::Compact).starts_with(&short));
        let posts = vec![post_of(ID1, "beta", body, &[])];
        let wall = render_text(Banner::Full, "tax", "alpha", &posts, &vec![], &vec![]);
        assert!(wall.starts_with(WALL_TOP) && wall.contains(WALL_LAWS));
        for banner in [Banner::Reminder, Banner::Compact] {
            let line = render_text(banner, "tax", "alpha", &posts, &vec![], &vec![]);
            assert!(line.starts_with(&format!("#tax · 1 new · reading as alpha{ONE_LINE_LAWS}")));
        }
    }
}

#[test]
fn the_wall_comes_back_the_next_day() {
    let day = 86_400;
    let first = plan_banner(FramingMode::Auto, None, 10 * day);
    assert_eq!(first.banner, Banner::Full);
    let noted = first.stamp.expect("a noted day");
    assert_eq!(noted, "10");
    let again = plan_banner(FramingMode::Auto, Some(&noted), 10 * day + 5);
    assert_eq!((again.banner, again.stamp), (Banner::Reminder, None));
    let next = plan_banner(FramingMode::Auto, Some(&noted), 11 * day);
    assert_eq!((next.banner, next.stamp.as_deref()), (Banner::Full, Some("11")));
    for stored in [None, Some("10"), Some("9")] {
        let full = plan_banner(FramingMode::Full, stored, 10 * day);
        assert_eq!((full.banner, full.stamp), (Banner::Full, None));
        let compact = plan_banner(FramingMode::Compact, stored, 10 * day);
        assert_eq!((compact.banner, compact.stamp), (Banner::Compact, None));
    }
}

#[test]
fn registered_names_belong_to_their_tree() {
    let tree = |name: &str, path: &str| RoomTree {
        name: name.to_owned(),
        path: path.to_owned(),
        resolved: path.to_owned(),
    };
    let trees = vec![tree("alpha", "/work/alpha"), tree("nested", "/work/alpha/sub")];
    let (room, provenance) =
        infer_from_cwd(&trees, "/work/alpha/sub/x", "/work/alpha/sub/x", Some("x")).expect("room");
    assert_eq!((room.as_str(), provenance), ("nested", SenderProvenance::InferredCwd));
    ensure_sender_allowed(&room, &trees, "/work/alpha/sub/x", "/work/alpha/sub/x").expect("inside");
    ensure_sender_allowed("free-form", &trees, "/tmp", "/tmp").expect("no room");
    let error = ensure_sender_allowed("alpha", &trees, "/tmp", "/tmp").expect_err("outside");
    assert_eq!(error.code, ErrorCode::ReservedSender);
}

#[test]
fn snapshots_pass_over_unregistered_rooms() {
    let asked = vec!["alpha".to_owned(), "nobody".to_owned(), "alpha".to_owned()];
    let (chosen, warnings) = select_rooms(&asked, &rooms(&["alpha"]), true);
    assert_eq!(chosen, ["alpha"]);
    assert_eq!(
        warnings,
        ["post: warning: room \"nobody\" is not registered; snapshot scans nothing and creates nothing"]
    );
    let (chosen, _) = select_rooms(&asked, &rooms(&["alpha"]), false);
    assert_eq!(chosen, ["alpha", "nobody"]);
}

#[test]
fn signed_sends_carry_their_locator() {
    let signed = MessageRequest {
        signature_ref: Some("20260722-a1".to_owned()),
        ..request("several\nlines")
    };
    let none: Vec<ParsedChannelMessage> = vec![];
    let all = rooms(&["alpha", "beta"]);
    let draft =
        plan_message(&signed, true, &members(&["alpha"]), None, &none, &all).expect("draft");
    assert_eq!(draft.signature_ref.as_deref(), Some("{\"version\":2,\"tag\":\"20260722-a1\"}"));
    let plain = plan_message(&request("text"), true, &members(&["alpha"]), None, &none, &all)
        .expect("draft");
    assert!(plain.signature_ref.is_none());
    // A blank body is refused first, a signed body that is too long after it.
    let blank = MessageRequest { signature_ref: Some("bad tag".to_owned()), ..request("  \n") };
    let error = plan_message(&blank, true, &members(&["alpha"]), None, &none, &all)
        .expect_err("blank");
    assert_eq!(error.code, ErrorCode::EmptyBody);
    let long = MessageRequest {
        signature_ref: Some("t1".to_owned()),
        ..request(&"x".repeat(1_048_577))
    };
    let error = plan_message(&long, true, &members(&["alpha"]), None, &none, &all)
        .expect_err("too long");
    assert_eq!(error.details.reason.as_deref(), Some("signed message body exceeds 1 MiB"));
}

/// The members and the messages that a join leaves behind.
fn joined(mut list: MemberMap, history: &mut Vec<String>, id: &str) -> (MemberMap, bool) {
    let request = JoinRequest {
        channel: "tax".to_owned(),
        room: "alpha".to_owned(),
        description: None,
    };
    let mut state = Joining::start(&request, &list);
    loop {
        let event = match &state {
            Joining::LoadRules => JoinEvent::Rules(vec![]),
            Joining::PrepareMessages => JoinEvent::Prepared {
                exists_already: false,
                now: NOW.to_owned(),
            },
            Joining::CreateInfo { .. } | Joining::AmendInfo { .. } => JoinEvent::InfoWritten,
            Joining::PostEvent { .. } => {
                let (draft, body) = join_record(&request);
                assert_eq!(draft.event.as_deref(), Some("join"));
                history.push(body);
                JoinEvent::EventPosted(id.to_owned())
            }
            Joining::AddMember { since, .. } => {
                list = with_member(list, "alpha", since);
                JoinEvent::MemberAdded
            }
            Joining::Done { already_member, .. } => return (list, *already_member),
            Joining::Failed { error } => panic!("{error:?}"),
        };
        state = state.step(&request, &list, event);
    }
}

#[test]
fn joining_twice_records_one_join() {
    let mut history = Vec::new();
    let (list, already) = joined(members(&["beta"]), &mut history, ID1);
    assert!(!already);
    assert_eq!(list.len(), 2);
    assert_eq!(list.get("alpha").map(String::as_str), Some(NOW));
    assert_eq!(history.len(), 1);
    let (list, already) = joined(list, &mut history, ID2);
    assert!(already);
    assert_eq!(list.len(), 2);
    assert_eq!(history.len(), 1, "a second join adds no event");
}

#[test]
fn registries_gain_one_room_and_keep_the_others() {
    let more = with_room(rooms(&["alpha", "beta"]), "gamma", "~/gamma".to_owned());
    assert_eq!(more.len(), 3);
    assert_eq!(more.get("gamma").map(String::as_str), Some("~/gamma"));
    assert_eq!(more.get("alpha").map(String::as_str), Some("/alpha"));
    let moved = with_room(more, "alpha", "/elsewhere".to_owned());
    assert_eq!(moved.len(), 3);
    assert_eq!(moved.get("alpha").map(String::as_str), Some("/elsewhere"));
}
