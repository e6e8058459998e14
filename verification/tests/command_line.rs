use post::cli::{
    classify_write, is_long_watch, must_not_mutate, nonempty_without_controls, parse_failure_fix,
    prepares_first_run, subcommand_of, without_controls, ChannelsArgs, ChatArgs, Command,
    DoctorArgs, FramingMode, InboxArgs, OwnerArgs, OwnerCommand, OwnerInitArgs, ProfileArgs,
    ProfileCommand, ProfileSetArgs, ProfileShowArgs, ReadArgs, RoomsAddArgs, RoomsArgs,
    RoomsCommand, SendArgs, WatchArgs, WhoArgs,
};
use post::command::{finish_command_result, CommandResult};
use post::context::Context;
use post::error::{AppError, ErrorCode};
use post::fence::{
    admit_before_lock, admit_under_lock, check_activate, check_fence, check_held_lock,
    check_opened_lock, current_generation, fence_state, read_only_must_not_mutate, trusted_lock,
    BeforeLock, Declared, FenceState, LockFacts, OnPath, LOCK_FILE,
};
use post::model::MailKind;

fn send() -> SendArgs {
    SendArgs {
        to: "beta".to_owned(),
        sender: None,
        kind: MailKind::Letter,
        subject: String::new(),
        body: Some("x".to_owned()),
        body_file: None,
        oversize: false,
        allow_self: false,
        file: None,
    }
}

fn chat() -> ChatArgs {
    ChatArgs {
        name: "tax".to_owned(),
        join: false,
        description: None,
        send: false,
        anyway: false,
        re: None,
        signature_ref: None,
        subject: String::new(),
        body: None,
        body_file: None,
        oversize: false,
        file: None,
        peek: false,
        history: None,
        grep: None,
        since: None,
        discard: false,
        discard_through: None,
        limit: None,
        seen_by: None,
        framing: FramingMode::Auto,
    }
}

fn watch(snapshot: bool) -> Command {
    Command::Watch(WatchArgs {
        room: vec![],
        once: false,
        snapshot,
        limit: None,
        interval_ms: 1000,
        text: false,
    })
}

fn read(peek: bool) -> Command {
    Command::Read(ReadArgs {
        id: "id".to_owned(),
        room: None,
        peek,
        framing: FramingMode::Auto,
    })
}

fn context() -> Context {
    Context { root: "/store".to_owned(), home: "/home".to_owned() }
}

/// What a writer is told by a store with the given fence.
fn admit_generation(
    context: &Context,
    root_exists: bool,
    state: Option<FenceState>,
    generation: Option<u64>,
) -> Result<(), AppError> {
    match admit_before_lock(context, root_exists, state, generation)? {
        BeforeLock::Legacy => Ok(()),
        BeforeLock::TakeLock => admit_under_lock(context, state, generation),
    }
}

#[test]
fn classifies_every_writer_and_read_only_variant() {
    let owner_init = OwnerInitArgs {
        room: "alpha".to_owned(),
        marker: None,
        label: None,
        sidecar_dir: None,
        allowed_signers: None,
        principal: None,
        namespace: None,
    };
    let writers = vec![
        Command::Doctor(DoctorArgs { fix: true }),
        Command::Send(send()),
        read(false),
        Command::Chat(ChatArgs { join: true, ..chat() }),
        Command::Chat(ChatArgs { send: true, body: Some("x".to_owned()), ..chat() }),
        Command::Chat(ChatArgs { discard: true, ..chat() }),
        Command::Chat(ChatArgs { discard_through: Some("id".to_owned()), ..chat() }),
        Command::Rooms(RoomsArgs {
            command: Some(RoomsCommand::Add(RoomsAddArgs {
                name: "alpha".to_owned(),
                path: "/tmp".to_owned(),
            })),
        }),
        Command::Profile(ProfileArgs {
            command: Some(ProfileCommand::Change(ProfileSetArgs {
                name: Some("x".to_owned()),
                pfp: None,
            })),
        }),
        Command::Profile(ProfileArgs { command: Some(ProfileCommand::Clear) }),
        Command::Owner(OwnerArgs { command: Some(OwnerCommand::Init(owner_init)) }),
        watch(false),
    ];
    for command in &writers {
        assert!(classify_write(command), "writer: {command:?}");
    }
    let readers = vec![
        Command::Doctor(DoctorArgs { fix: false }),
        Command::Schema,
        Command::Channels(ChannelsArgs { text: false }),
        Command::Inbox(InboxArgs { room: None, text: false }),
        read(true),
        Command::Chat(ChatArgs { peek: true, ..chat() }),
        Command::Chat(ChatArgs { history: Some(1), ..chat() }),
        Command::Chat(ChatArgs { since: Some("id".to_owned()), ..chat() }),
        Command::Chat(ChatArgs { seen_by: Some("id".to_owned()), ..chat() }),
        Command::Rooms(RoomsArgs { command: None }),
        Command::Profile(ProfileArgs {
            command: Some(ProfileCommand::Show(ProfileShowArgs { room: None })),
        }),
        Command::Owner(OwnerArgs { command: Some(OwnerCommand::Show) }),
        watch(true),
        Command::Who(WhoArgs { room: vec![], text: false }),
    ];
    for command in &readers {
        assert!(!classify_write(command), "read-only: {command:?}");
    }
}

#[test]
fn plain_chat_reads_and_implied_sends_are_writers() {
    assert!(classify_write(&Command::Chat(chat())));
    assert!(classify_write(&Command::Chat(ChatArgs { limit: Some(3), ..chat() })));
    assert!(classify_write(&Command::Chat(ChatArgs {
        body_file: Some("f".to_owned()),
        ..chat()
    })));
    assert!(!classify_write(&Command::Profile(ProfileArgs { command: None })));
    assert!(!classify_write(&Command::Owner(OwnerArgs { command: None })));
}

#[test]
fn watches_and_fenced_reads_leave_the_store_alone() {
    assert!(is_long_watch(&watch(false)));
    assert!(!is_long_watch(&watch(true)));
    assert!(!is_long_watch(&Command::Schema));
    assert!(must_not_mutate(true, true, true, false));
    assert!(!must_not_mutate(true, true, false, true));
    assert!(must_not_mutate(false, false, false, true));
    assert!(!must_not_mutate(false, false, true, false));
    assert!(prepares_first_run(&Command::Schema, false));
    assert!(!prepares_first_run(&Command::Schema, true));
    assert!(!prepares_first_run(&Command::Doctor(DoctorArgs { fix: true }), false));
}

#[test]
fn values_with_control_characters_are_refused() {
    assert_eq!(without_controls("a b"), Ok("a b".to_owned()));
    assert_eq!(without_controls(""), Ok(String::new()));
    assert!(without_controls("a\tb").is_err());
    assert!(nonempty_without_controls("").is_err());
    assert!(nonempty_without_controls("a\u{9b}b").is_err());
    assert_eq!(nonempty_without_controls("é"), Ok("é".to_owned()));
}

#[test]
fn misunderstood_command_lines_get_a_fix() {
    let argv = |words: &[&str]| -> Vec<Option<String>> {
        words.iter().map(|w| Some((*w).to_owned())).collect()
    };
    assert_eq!(
        subcommand_of(&argv(&["post", "--pretty", "chat", "tax"])).as_deref(),
        Some("chat")
    );
    assert_eq!(subcommand_of(&argv(&["post"])), None);
    assert_eq!(subcommand_of(&vec![None, None, Some("who".to_owned())]).as_deref(), Some("who"));

    let fix = |message: &str, words: &[&str]| {
        parse_failure_fix(message, &argv(words)).map(|f| f.command)
    };
    assert_eq!(
        fix("error: unexpected argument '--room' found", &["post", "chat", "tax"]).as_deref(),
        Some("post chat <CHANNEL>")
    );
    assert_eq!(
        fix("error: unexpected argument '--room' found", &["post", "channels"]).as_deref(),
        Some("post channels")
    );
    assert_eq!(
        fix("error: unexpected argument '--room' found", &["post", "send"]).as_deref(),
        Some("post send --to <ROOM> --from <NAME> --body <TEXT>")
    );
    assert_eq!(
        fix("error: unexpected argument '--room' found", &["post", "rooms"]).as_deref(),
        Some("post inbox --room <ROOM>")
    );
    assert_eq!(
        fix("error: unexpected argument '--from' found", &["post", "chat"]).as_deref(),
        Some("post chat <CHANNEL> --send --body <TEXT>")
    );
    assert_eq!(
        fix("error: unexpected argument '--body' found", &["post", "inbox"]).as_deref(),
        Some("post inbox --help")
    );
    assert_eq!(
        fix("error: unexpected argument '--body-file' found", &["post"]).as_deref(),
        Some("post <command> --help")
    );
    assert_eq!(
        fix(
            "error: the argument '[FILE]' cannot be used with '--body <BODY>'",
            &["post", "send"]
        )
        .as_deref(),
        Some("post send --to <ROOM> --from <NAME> --subject <SUBJECT> --body <TEXT>")
    );
    assert_eq!(fix("error: something else", &["post", "send"]), None);
}

#[test]
fn stdout_failure_leaves_read_mail_unmoved_and_delivered_send_nonretryable() {
    let error = finish_command_result(
        &CommandResult::success("mail\n".to_owned()),
        Some("broken test pipe"),
    )
    .expect_err("broken stdout must stop the read rename");
    assert!(error.retryable);

    let error = finish_command_result(
        &CommandResult::committed("receipt\n".to_owned()),
        Some("broken test pipe"),
    )
    .expect_err("broken receipt output must fail");
    assert!(!error.retryable);
    assert_eq!(error.code, ErrorCode::DeliveredOutputFailure);
    assert_eq!(error.exit_code, 70);
}

#[test]
fn stdout_failure_after_room_registration_is_still_success() {
    let result = CommandResult::success("rooms\n".to_owned()).registration_committed();

    assert_eq!(
        finish_command_result(&result, Some("broken test pipe"))
            .expect("a committed registration must not invite a retry")
            .exit_code,
        0
    );
}

#[test]
fn shown_output_lets_the_last_step_run() {
    let finish = finish_command_result(&CommandResult::success("x\n".to_owned()), None).expect("ok");
    assert!(finish.run_action);
    assert_eq!(finish.exit_code, 0);
    let registered = CommandResult::success("rooms\n".to_owned()).registration_committed();
    assert!(!finish_command_result(&registered, Some("broken")).expect("ok").run_action);
}

#[test]
fn transitions_are_locked_and_illegal_transitions_refuse() {
    let context = context();
    assert!(check_fence(&context, None, 0).is_err());
    assert!(admit_generation(&context, true, None, None).is_ok());
    let fenced = check_fence(&context, None, 7).expect("fence");
    assert!(check_fence(&context, Some(fenced), 8).is_err());
    // A fenced store admits no writer, even if it declares the generation.
    assert!(admit_generation(&context, true, Some(fenced), Some(7)).is_err());
    let active = check_activate(&context, Some(fenced), 7).expect("activate");
    assert!(admit_generation(&context, true, Some(active), None).is_err());
    // Enrollment goes one way.
    assert!(check_fence(&context, Some(active), 7).is_err());
    assert!(check_activate(&context, Some(active), 7).is_err());
    assert!(check_activate(&context, Some(fenced), 8).is_err());
    assert!(check_activate(&context, None, 7).is_err());
}

#[test]
fn active_generation_allows_current_and_refuses_stale_or_missing() {
    let context = context();
    let fenced = check_fence(&context, None, 7).expect("fence");
    let active = check_activate(&context, Some(fenced), 7).expect("activate");
    assert!(admit_generation(&context, true, Some(active), Some(7)).is_ok());
    let stale = admit_generation(&context, true, Some(active), Some(6)).expect_err("stale");
    assert_eq!(
        stale.message,
        "write refused by migration fence '/store/.post-arx.json': writer generation 6 is stale; current generation is 7"
    );
    assert!(admit_generation(&context, true, Some(active), None).is_err());
}

#[test]
fn malformed_and_missing_enrolled_state_fail_closed_without_read_mutation() {
    let context = context();
    let malformed: Result<Option<FenceState>, AppError> =
        Err(AppError::config("/store/.post-arx.json", "duplicate field `state`"));
    assert!(read_only_must_not_mutate(false, &malformed));
    let active = Some(FenceState::Active { generation: 7 });
    assert!(read_only_must_not_mutate(false, &Ok(active)));
    assert!(read_only_must_not_mutate(true, &Ok(None)));
    assert!(!read_only_must_not_mutate(false, &Ok(None)));
    // The state file is gone: a writer that declares a generation is refused, before and
    // under the lock.
    assert!(admit_generation(&context, true, None, Some(7)).is_err());
    assert!(admit_under_lock(&context, None, Some(7)).is_err());
}

#[test]
fn legacy_first_run_still_allows_writer_defaults() {
    assert!(admit_generation(&context(), false, None, None).is_ok());
    assert!(admit_generation(&context(), false, None, Some(7)).is_err());
}

#[test]
fn fence_files_need_a_positive_generation() {
    assert_eq!(
        fence_state("/p", "fenced", Some(3)).expect("fenced"),
        FenceState::Fenced { generation: 3 }
    );
    assert_eq!(
        fence_state("/p", "active", Some(3)).expect("active"),
        FenceState::Active { generation: 3 }
    );
    for (state, generation) in
        [("fenced", None), ("active", Some(0)), ("legacy", Some(3)), ("", None)]
    {
        let error = fence_state("/p", state, generation).expect_err("invalid");
        assert_eq!(error.code, ErrorCode::ConfigInvalid);
        assert_eq!(error.details.path.as_deref(), Some("/p"));
    }
}

#[test]
fn declared_generations_are_positive_numbers() {
    assert_eq!(current_generation(&Declared::Unset).expect("unset"), None);
    assert_eq!(current_generation(&Declared::Value("7".to_owned())).expect("seven"), Some(7));
    assert_eq!(current_generation(&Declared::Value("+7".to_owned())).expect("plus"), Some(7));
    assert_eq!(
        current_generation(&Declared::Value("18446744073709551615".to_owned())).expect("largest"),
        Some(u64::MAX)
    );
    for bad in ["0", "", "-1", "7 ", "x", "18446744073709551616"] {
        assert!(current_generation(&Declared::Value(bad.to_owned())).is_err(), "{bad:?}");
    }
    assert!(current_generation(&Declared::NotUtf8).is_err());
}

#[test]
fn lock_path_unlink_and_replace_are_refused_after_flock() {
    let path = format!("/store/{LOCK_FILE}");
    let held = LockFacts { is_file: true, links: 1, device: 5, inode: 9 };
    check_opened_lock(&path, &held).expect("a plain file");
    check_held_lock(&path, &held, &OnPath::Found(held)).expect("still the same file");
    // Replaced: another inode is on the path now.
    let other = LockFacts { inode: 10, ..held };
    assert!(check_held_lock(&path, &held, &OnPath::Found(other)).is_err());
    // Unlinked: nothing is on the path, or it cannot be looked at.
    assert!(check_held_lock(&path, &held, &OnPath::Missing).is_err());
    assert!(check_held_lock(&path, &held, &OnPath::Unreadable).is_err());
    let unlinked = LockFacts { links: 0, ..held };
    assert!(!trusted_lock(&unlinked));
    assert!(check_held_lock(&path, &unlinked, &OnPath::Found(held)).is_err());
    let linked = LockFacts { links: 2, ..held };
    assert!(check_opened_lock(&path, &linked).is_err());
    let directory = LockFacts { is_file: false, ..held };
    assert!(check_opened_lock(&path, &directory).is_err());
}
