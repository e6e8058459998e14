//! Sending direct mail: who sends, what may be sent, and how a mail is delivered once.
use crate::cli::SendArgs;
use crate::context;
use crate::error;
use crate::error::{AppError, AppResult, ErrorCode};
use crate::model;
use crate::model::{BlockingRule, Envelope, SenderProvenance};
use crate::names;
use crate::outside;
use crate::text;
use crate::textmap::RoomMap;
use vstd::prelude::*;

verus! {

/// The largest body, in bytes, that needs no `--oversize`.
pub const MAX_BODY_BYTES: usize = 32768;

/// The largest subject, in bytes.
pub const MAX_SUBJECT_BYTES: usize = 1024;

/// The largest sender address, in bytes.
pub const MAX_ADDRESS_BYTES: usize = 256;

// ---------------------------------------------------------------------------
// The sender
// ---------------------------------------------------------------------------
pub open spec fn bad_pin_error(value: Seq<char>, reason: Seq<char>) -> error::ErrorView {
    error::ErrorView::of(
        ErrorCode::InvalidArgument,
        "POST_FROM pin '"@ + value + "' is invalid: "@ + reason,
        "Set `POST_FROM` to a single path-safe room name, or unset it, and retry the same command."@,
    ).input(value).reason(reason)
}

/// The room that the environment pins, checked.
pub fn declared_env_pin(value: Option<&str>) -> (r: AppResult<Option<String>>)
    ensures
        match r {
            Ok(pin) => text::opt(pin) == text::opt_str(value) && (value is Some
                ==> names::room_name_fault(value->0@) is None),
            Err(e) => value is Some && names::room_name_fault(value->0@) is Some && e@
                == bad_pin_error(value->0@, names::room_name_fault(value->0@)->0),
        },
{
    match value {
        None => Ok(None),
        Some(pin) => match names::validate_room_name(pin) {
            Ok(_) => Ok(Some(pin.to_owned())),
            Err(reason) => Err(
                AppError::new(
                    ErrorCode::InvalidArgument,
                    text::cat4("POST_FROM pin '", pin, "' is invalid: ", reason.as_str()).as_str(),
                    "Set `POST_FROM` to a single path-safe room name, or unset it, and retry the same command.",
                ).input(pin).reason(reason.as_str()),
            ),
        },
    }
}

/// Whether a text holds white space or a control character.
pub open spec fn has_space_or_control(s: Seq<char>) -> bool {
    exists|i: int|
        0 <= i < s.len() && (text::is_white(#[trigger] s[i]) || text::is_control(s[i]))
}

fn contains_space_or_control(s: &str) -> (r: bool)
    ensures
        r == has_space_or_control(s@),
{
    let chars = text::chars_of(s);
    for i in 0..chars.len()
        invariant
            chars@ == s@,
            forall|j: int|
                0 <= j < i ==> !text::is_white(#[trigger] s@[j]) && !text::is_control(s@[j]),
    {
        let c: char = chars[i];
        if text::char_is_white(c) || text::char_is_control(c) {
            assert(s@[i as int] == c);
            return true;
        }
    }
    false
}

/// Why a declared sender address is refused.
pub open spec fn address_fault(value: Seq<char>) -> Option<Seq<char>> {
    if value.len() == 0 {
        Some("address is empty"@)
    } else if text::byte_len(value) > 256 {
        Some("address exceeds 256 bytes"@)
    } else if has_space_or_control(value) {
        Some("address must not contain whitespace or control characters"@)
    } else {
        None
    }
}

pub open spec fn bad_address_error(reason: Seq<char>) -> error::ErrorView {
    error::ErrorView::of(
        ErrorCode::InvalidArgument,
        "POST_SENDER_ADDRESS is invalid: "@ + reason,
        "Set `POST_SENDER_ADDRESS` to at most 256 bytes without whitespace or control characters, or unset it, and retry the same command."@,
    ).input("POST_SENDER_ADDRESS"@).reason(reason)
}

fn bad_address(reason: &str) -> (r: AppError)
    ensures
        r@ == bad_address_error(reason@),
{
    AppError::new(
        ErrorCode::InvalidArgument,
        text::cat2("POST_SENDER_ADDRESS is invalid: ", reason).as_str(),
        "Set `POST_SENDER_ADDRESS` to at most 256 bytes without whitespace or control characters, or unset it, and retry the same command.",
    ).input("POST_SENDER_ADDRESS").reason(reason)
}

/// The per-launch address that the environment declares, checked.
pub fn declared_sender_address(value: Option<&str>) -> (r: AppResult<Option<String>>)
    ensures
        match r {
            Ok(address) => text::opt(address) == text::opt_str(value) && (value is Some
                ==> address_fault(value->0@) is None),
            Err(e) => value is Some && address_fault(value->0@) is Some && e@ == bad_address_error(
                address_fault(value->0@)->0,
            ),
        },
{
    match value {
        None => Ok(None),
        Some(address) => {
            if address.is_empty() {
                return Err(bad_address("address is empty"));
            }
            if text::byte_count(address) > MAX_ADDRESS_BYTES {
                return Err(bad_address("address exceeds 256 bytes"));
            }
            if contains_space_or_control(address) {
                return Err(
                    bad_address("address must not contain whitespace or control characters"),
                );
            }
            Ok(Some(address.to_owned()))
        },
    }
}

/// How the identity that a command acts under is found.
#[derive(Debug)]
pub enum IdentityChoice {
    /// The command names it.
    Named(String),
    /// The environment pins it.
    Pinned(String),
    /// Nothing declares it: it follows from the current directory.
    Inferred,
}

/// Decides under which identity a command acts: the named one, or else the pinned one, or else
/// the one of the current directory.
pub fn choose_identity(named: Option<&str>, pin: Option<&str>) -> (r: IdentityChoice)
    ensures
        match r {
            IdentityChoice::Named(name) => named is Some && name@ == named->0@,
            IdentityChoice::Pinned(name) => named is None && pin is Some && name@ == pin->0@,
            IdentityChoice::Inferred => named is None && pin is None,
        },
{
    match named {
        Some(name) => IdentityChoice::Named(name.to_owned()),
        None => match pin {
            Some(name) => IdentityChoice::Pinned(name.to_owned()),
            None => IdentityChoice::Inferred,
        },
    }
}

/// What a pinned sender is told before anything is written.
pub fn pinned_notice(sender: &str) -> (r: String)
    ensures
        r@ == "post: sending as '"@ + sender@
            + "' (POST_FROM pin; the pin governs this session — to send as another identity, use a shell without POST_FROM set)"@,
{
    text::cat3(
        "post: sending as '",
        sender,
        "' (POST_FROM pin; the pin governs this session — to send as another identity, use a shell without POST_FROM set)",
    )
}

/// What an inferred sender is told before anything is written.
pub fn inferred_notice(sender: &str) -> (r: String)
    ensures
        r@ == "post: sending as '"@ + sender@
            + "' (identity inferred from cwd); pass --from <NAME> to send as someone else"@,
{
    text::cat3(
        "post: sending as '",
        sender,
        "' (identity inferred from cwd); pass --from <NAME> to send as someone else",
    )
}

/// Whether a sender's name must be checked against the room trees. A pin need not be: it
/// exists so that identity survives a directory outside the room's tree.
pub fn needs_location_check(provenance: SenderProvenance) -> (r: bool)
    ensures
        r == (provenance != SenderProvenance::DeclaredEnv),
{
    provenance != SenderProvenance::DeclaredEnv
}

// ---------------------------------------------------------------------------
// The request
// ---------------------------------------------------------------------------
/// The command that a send was asked for with, up to its body.
pub open spec fn fix_prefix(args: SendArgs) -> Seq<char> {
    "post send --to "@ + names::quoted(args.to@) + (match args.sender {
        Some(sender) => " --from "@ + names::quoted(sender@),
        None => ""@,
    }) + " --kind "@ + args.kind.name() + (if args.subject@.len() > 0 {
        " --subject "@ + names::quoted(args.subject@)
    } else {
        ""@
    }) + (if args.oversize {
        " --oversize"@
    } else {
        ""@
    }) + (if args.allow_self {
        " --allow-self"@
    } else {
        ""@
    })
}

pub fn send_fix_prefix(args: &SendArgs) -> (r: String)
    ensures
        r@ == fix_prefix(*args),
{
    let sender = match &args.sender {
        Some(sender) => text::cat2(" --from ", names::shell_quote(sender.as_str()).as_str()),
        None => "".to_owned(),
    };
    let subject = if args.subject.as_str().is_empty() {
        "".to_owned()
    } else {
        text::cat2(" --subject ", names::shell_quote(args.subject.as_str()).as_str())
    };
    let oversize = if args.oversize {
        " --oversize"
    } else {
        ""
    };
    let allow_self = if args.allow_self {
        " --allow-self"
    } else {
        ""
    };
    text::cat8(
        "post send --to ",
        names::shell_quote(args.to.as_str()).as_str(),
        sender.as_str(),
        " --kind ",
        args.kind.as_str(),
        subject.as_str(),
        oversize,
        allow_self,
    )
}

pub open spec fn self_send_error(name: Seq<char>, prefix: Seq<char>) -> error::ErrorView {
    let fix = prefix + " --allow-self --body '<text>'"@;
    error::ErrorView::of(
        ErrorCode::InvalidArgument,
        "refusing to send mail from '"@ + name + "' to itself"@,
        "Instances of one room coordinate via channels. For a deliberate self-send (doorbell probe, smoke test), run `"@
            + fix + "`."@,
    ).exact_fix(fix).input(name).reason("from == to without --allow-self"@)
}

/// Refuses mail from a room to itself, unless it is asked for.
pub fn check_self_send(sender: &str, to: &str, allow_self: bool, prefix: &str) -> (r: AppResult<()>)
    ensures
        error::failure(r) == if sender@ == to@ && !allow_self {
            Some(self_send_error(to@, prefix@))
        } else {
            None
        },
{
    if text::same(sender, to) && !allow_self {
        let fix = text::cat2(prefix, " --allow-self --body '<text>'");
        return Err(
            AppError::new(
                ErrorCode::InvalidArgument,
                text::cat3("refusing to send mail from '", sender, "' to itself").as_str(),
                text::cat3(
                    "Instances of one room coordinate via channels. For a deliberate self-send (doorbell probe, smoke test), run `",
                    fix.as_str(),
                    "`.",
                ).as_str(),
            ).exact_fix(fix.as_str()).input(to).reason("from == to without --allow-self"),
        );
    }
    Ok(())
}

pub open spec fn unknown_recipient_error(
    to: Seq<char>,
    suggestion: Option<Seq<char>>,
) -> error::ErrorView {
    let fix = "Run `post rooms`, then retry with `post send --to <registered-room> ...`."@;
    match suggestion {
        Some(room) => error::ErrorView::of(
            ErrorCode::UnknownRoom,
            "recipient room '"@ + to + "' is unknown; did you mean '"@ + room + "'?"@,
            fix,
        ).input(to).reason("recipient is absent from rooms.json"@).did_you_mean(room),
        None => error::ErrorView::of(
            ErrorCode::UnknownRoom,
            "recipient room '"@ + to + "' is unknown"@,
            fix,
        ).input(to).reason("recipient is absent from rooms.json"@),
    }
}

/// Refuses a recipient that is not registered, and names the room that was likely meant.
pub fn check_recipient(to: &str, rooms: &RoomMap) -> (r: AppResult<()>)
    ensures
        error::failure(r) == if rooms@.contains_key(to@) {
            None
        } else {
            Some(unknown_recipient_error(to@, names::closest(to@, rooms.keys())))
        },
{
    if rooms.contains_key(to) {
        return Ok(());
    }
    let fix = "Run `post rooms`, then retry with `post send --to <registered-room> ...`.";
    match names::closest_room(to, rooms) {
        Some(room) => Err(
            AppError::new(
                ErrorCode::UnknownRoom,
                text::cat5(
                    "recipient room '",
                    to,
                    "' is unknown; did you mean '",
                    room.as_str(),
                    "'?",
                ).as_str(),
                fix,
            ).input(to).reason("recipient is absent from rooms.json").did_you_mean(room.as_str()),
        ),
        None => Err(
            AppError::new(
                ErrorCode::UnknownRoom,
                text::cat3("recipient room '", to, "' is unknown").as_str(),
                fix,
            ).input(to).reason("recipient is absent from rooms.json"),
        ),
    }
}

pub open spec fn long_subject_error(subject: Seq<char>) -> error::ErrorView {
    error::ErrorView::of(
        ErrorCode::InvalidArgument,
        "message subject is "@ + text::decimal(text::byte_len(subject))
            + " bytes; the maximum is 1024 bytes"@,
        "Move long text into the message body and keep --subject at or below 1024 bytes."@,
    ).input("--subject"@).reason("subject exceeds 1024-byte safety limit"@)
}

pub fn validate_subject(subject: &str) -> (r: AppResult<()>)
    ensures
        error::failure(r) == if text::byte_len(subject@) <= 1024 {
            None
        } else {
            Some(long_subject_error(subject@))
        },
{
    let size: usize = text::byte_count(subject);
    if size <= MAX_SUBJECT_BYTES {
        return Ok(());
    }
    Err(
        AppError::new(
            ErrorCode::InvalidArgument,
            text::cat3(
                "message subject is ",
                text::decimal_text(size as u64).as_str(),
                " bytes; the maximum is 1024 bytes",
            ).as_str(),
            "Move long text into the message body and keep --subject at or below 1024 bytes.",
        ).input("--subject").reason("subject exceeds 1024-byte safety limit"),
    )
}

/// Why a request is refused before its body is read.
pub open spec fn request_fault(
    sender: Seq<char>,
    args: SendArgs,
    rooms: Map<Seq<char>, String>,
    names: Seq<Seq<char>>,
) -> Option<error::ErrorView> {
    if sender == args.to@ && !args.allow_self {
        Some(self_send_error(args.to@, fix_prefix(args)))
    } else if !rooms.contains_key(args.to@) {
        Some(unknown_recipient_error(args.to@, names::closest(args.to@, names)))
    } else if text::byte_len(args.subject@) > 1024 {
        Some(long_subject_error(args.subject@))
    } else {
        None
    }
}

/// Checks a request before its body is read.
pub fn check_request(sender: &str, args: &SendArgs, rooms: &RoomMap) -> (r: AppResult<()>)
    ensures
        error::failure(r) == request_fault(sender@, *args, rooms@, rooms.keys()),
{
    let prefix = send_fix_prefix(args);
    match check_self_send(sender, args.to.as_str(), args.allow_self, prefix.as_str()) {
        Ok(_) => {},
        Err(e) => {
            return Err(e);
        },
    }
    match check_recipient(args.to.as_str(), rooms) {
        Ok(_) => {},
        Err(e) => {
            return Err(e);
        },
    }
    validate_subject(args.subject.as_str())
}

// ---------------------------------------------------------------------------
// The body
// ---------------------------------------------------------------------------
/// Where a body comes from.
#[derive(Debug)]
pub enum BodyPlan {
    /// The text itself, unless it names an existing file.
    Inline(String),
    /// The file at a path.
    File(String),
    /// Standard input, unless it is a terminal.
    Stdin,
}

/// Decides where the body comes from. An inline `-` stands for standard input.
pub fn plan_body(inline: Option<&str>, body_file: Option<&str>, file: Option<&str>) -> (r: BodyPlan)
    ensures
        match r {
            BodyPlan::Inline(body) => inline is Some && inline->0@ != "-"@ && body@ == inline->0@,
            BodyPlan::File(path) => (inline is None || inline->0@ == "-"@) && (if body_file is Some {
                path@ == body_file->0@
            } else {
                file is Some && path@ == file->0@
            }),
            BodyPlan::Stdin => (inline is None || inline->0@ == "-"@) && body_file is None
                && file is None,
        },
{
    if let Some(body) = inline {
        if !text::same(body, "-") {
            return BodyPlan::Inline(body.to_owned());
        }
    }
    if let Some(path) = body_file {
        return BodyPlan::File(path.to_owned());
    }
    if let Some(path) = file {
        return BodyPlan::File(path.to_owned());
    }
    BodyPlan::Stdin
}

/// The error of an inline body that is the path of an existing file.
pub fn inline_names_file(prefix: &str, body: &str) -> (r: AppError)
    ensures
        r@ == ({
            let fix = prefix@ + " --body-file "@ + names::quoted(body@);
            error::ErrorView::of(
                ErrorCode::InvalidArgument,
                "--body is inline text, but its value is an existing file path"@,
                "Run `"@ + fix
                    + "` to send the file's contents, or pipe the literal text on stdin."@,
            ).exact_fix(fix).input("--body"@).reason("inline body names an existing file"@)
        }),
{
    let fix = text::cat3(prefix, " --body-file ", names::shell_quote(body).as_str());
    AppError::new(
        ErrorCode::InvalidArgument,
        "--body is inline text, but its value is an existing file path",
        text::cat3(
            "Run `",
            fix.as_str(),
            "` to send the file's contents, or pipe the literal text on stdin.",
        ).as_str(),
    ).exact_fix(fix.as_str()).input("--body").reason("inline body names an existing file")
}

/// The error of a missing body on a terminal.
pub fn body_missing(prefix: &str) -> (r: AppError)
    ensures
        r@ == ({
            let fix = prefix@ + " --body '<text>'"@;
            error::ErrorView::of(
                ErrorCode::InvalidArgument,
                "message body is missing and stdin is a terminal; post never prompts or waits for interactive input"@,
                "Run `"@ + fix
                    + "`, or pass `--body-file <PATH>`, or pipe the body on stdin."@,
            ).exact_fix(fix).input("stdin"@).reason("interactive terminal input is not allowed"@)
        }),
{
    let fix = text::cat2(prefix, " --body '<text>'");
    AppError::new(
        ErrorCode::InvalidArgument,
        "message body is missing and stdin is a terminal; post never prompts or waits for interactive input",
        text::cat3(
            "Run `",
            fix.as_str(),
            "`, or pass `--body-file <PATH>`, or pipe the body on stdin.",
        ).as_str(),
    ).exact_fix(fix.as_str()).input("stdin").reason("interactive terminal input is not allowed")
}

pub open spec fn missing_body_error(prefix: Seq<char>, path: Seq<char>) -> error::ErrorView {
    let fix = prefix + " --body "@ + names::quoted(path);
    error::ErrorView::of(
        ErrorCode::InvalidArgument,
        "message body file '"@ + path
            + "' does not exist; that argument is a path to a body FILE, not inline message text"@,
        "If you meant to send that as text, run `"@ + fix + "`."@,
    ).exact_fix(fix).input(path).path(path).reason("body file path does not exist"@)
}

/// The error of a body file that does not exist: most likely its name was meant as text.
pub fn body_file_missing(prefix: &str, path: &str) -> (r: AppError)
    ensures
        r@ == missing_body_error(prefix@, path@),
        !r@.retryable,
{
    let fix = text::cat3(prefix, " --body ", names::shell_quote(path).as_str());
    AppError::new(
        ErrorCode::InvalidArgument,
        text::cat3(
            "message body file '",
            path,
            "' does not exist; that argument is a path to a body FILE, not inline message text",
        ).as_str(),
        text::cat3("If you meant to send that as text, run `", fix.as_str(), "`.").as_str(),
    ).exact_fix(fix.as_str()).input(path).path(path).reason("body file path does not exist")
}

/// The error of a body file that cannot be read.
pub fn body_file_unreadable(prefix: &str, path: &str, problem: &str) -> (r: AppError)
    ensures
        r@ == error::ErrorView::io("read UTF-8 message body file"@, path@, problem@).exact_fix(
            prefix@ + " --body-file "@ + names::quoted(path@),
        ),
{
    AppError::io("read UTF-8 message body file", path, problem).exact_fix(
        text::cat3(prefix, " --body-file ", names::shell_quote(path).as_str()).as_str(),
    )
}

pub open spec fn large_body_error(body: Seq<char>) -> error::ErrorView {
    error::ErrorView::of(
        ErrorCode::InvalidArgument,
        "message body is "@ + text::decimal(text::byte_len(body))
            + " bytes; the maximum without --oversize is 32768 bytes"@,
        "Inspect the body source. If the size is intentional, add --oversize to the original command and retry."@,
    ).input("message body"@).reason("body exceeds 32768-byte safety limit"@)
}

/// The text of a member of an object, if it is there and a string.
pub open spec fn string_member(
    members: Seq<(Seq<char>, Option<Seq<char>>)>,
    name: Seq<char>,
) -> Option<Seq<char>>
    decreases members.len(),
{
    if members.len() == 0 {
        None
    } else if members[0].0 == name {
        members[0].1
    } else {
        string_member(members.skip(1), name)
    }
}

/// Whether an object is an event of a watch, by its members.
pub open spec fn watch_event(members: Seq<(Seq<char>, Option<Seq<char>>)>) -> bool {
    let has = |name: Seq<char>| string_member(members, name) is Some;
    let event = string_member(members, "event"@);
    if event == Some("mail"@) {
        has("room"@) && has("id"@) && has("from"@) && has("kind"@) && has("subject"@) && has(
            "sent"@,
        )
    } else if event == Some("unreadable"@) {
        has("room"@) && has("id"@)
    } else if event == Some("channel_message"@) {
        has("channel"@) && has("id"@) && has("from"@) && has("subject"@) && has("sent"@)
    } else {
        false
    }
}

fn member_text(members: &Vec<(String, Option<String>)>, name: &str) -> (r: Option<String>)
    ensures
        text::opt(r) == string_member(outside::members_view(members@), name@),
{
    let ghost all = outside::members_view(members@);
    assert(all.skip(0) =~= all);
    for i in 0..members.len()
        invariant
            all == outside::members_view(members@),
            string_member(all, name@) == string_member(all.skip(i as int), name@),
    {
        assert(all.skip(i as int).skip(1) =~= all.skip(i + 1));
        assert(all.skip(i as int)[0] == all[i as int]);
        if text::same(members[i].0.as_str(), name) {
            return text::opt_clone(&members[i].1);
        }
    }
    None
}

fn has_text(members: &Vec<(String, Option<String>)>, name: &str) -> (r: bool)
    ensures
        r == (string_member(outside::members_view(members@), name@) is Some),
{
    member_text(members, name).is_some()
}

/// Whether the members of a JSON object are those of a watch event.
pub fn is_watch_event(members: &Vec<(String, Option<String>)>) -> (r: bool)
    ensures
        r == watch_event(outside::members_view(members@)),
{
    let event = member_text(members, "event");
    if text::opt_same(&event, "mail") {
        has_text(members, "room") && has_text(members, "id") && has_text(members, "from")
            && has_text(members, "kind") && has_text(members, "subject") && has_text(members, "sent")
    } else if text::opt_same(&event, "unreadable") {
        has_text(members, "room") && has_text(members, "id")
    } else if text::opt_same(&event, "channel_message") {
        has_text(members, "channel") && has_text(members, "id") && has_text(members, "from")
            && has_text(members, "subject") && has_text(members, "sent")
    } else {
        false
    }
}

/// Whether a line is a complete event of a watch.
pub open spec fn watch_event_line(line: Seq<char>) -> bool {
    match outside::json_object_strings(line) {
        Some(members) => watch_event(members),
        None => false,
    }
}

pub fn is_watch_event_line(line: &str) -> (r: bool)
    ensures
        r == watch_event_line(line@),
{
    match outside::json_members(line) {
        Some(members) => is_watch_event(&members),
        None => false,
    }
}

/// Whether some line of a body is a complete event of a watch.
pub open spec fn holds_watch_event(body: Seq<char>) -> bool {
    exists|i: int| 0 <= i < text::lines(body).len() && watch_event_line(#[trigger] text::lines(body)[i])
}

/// The warning about watch output inside a body.
pub const WATCH_EVENT_WARNING: &'static str = "post: warning: message body contains Post watch-event NDJSON; shell command substitution may have inserted watch output. Sending anyway; use --body-file for prose containing shell syntax.";

/// Checks the size of a body, and tells whether it needs the warning about watch output.
pub fn check_body(body: &str, oversize: bool) -> (r: AppResult<bool>)
    ensures
        match r {
            Ok(warn) => (oversize || text::byte_len(body@) <= 32768) && warn == holds_watch_event(
                body@,
            ),
            Err(e) => !oversize && text::byte_len(body@) > 32768 && e@ == large_body_error(body@),
        },
{
    let size: usize = text::byte_count(body);
    if !oversize && size > MAX_BODY_BYTES {
        return Err(
            AppError::new(
                ErrorCode::InvalidArgument,
                text::cat3(
                    "message body is ",
                    text::decimal_text(size as u64).as_str(),
                    " bytes; the maximum without --oversize is 32768 bytes",
                ).as_str(),
                "Inspect the body source. If the size is intentional, add --oversize to the original command and retry.",
            ).input("message body").reason("body exceeds 32768-byte safety limit"),
        );
    }
    let lines = text::line_texts(body);
    for i in 0..lines.len()
        invariant
            text::texts(lines@) == text::lines(body@),
            oversize || text::byte_len(body@) <= 32768,
            forall|j: int| 0 <= j < i ==> !watch_event_line(#[trigger] text::lines(body@)[j]),
    {
        assert(text::lines(body@)[i as int] == lines@[i as int]@);
        if is_watch_event_line(lines[i].as_str()) {
            return Ok(true);
        }
    }
    Ok(false)
}

pub open spec fn empty_body_error(prefix: Seq<char>) -> error::ErrorView {
    error::ErrorView::of(
        ErrorCode::EmptyBody,
        "message body is empty after trimming whitespace"@,
        "Retry with `"@ + prefix
            + " --body '<text>'` or pass a non-empty body file/stdin."@,
    ).exact_fix(prefix + " --body '<text>'"@).input("message body"@).reason(
        "empty or whitespace-only"@,
    )
}

/// Refuses a blank body.
pub fn check_not_empty(body: &str, prefix: &str) -> (r: AppResult<()>)
    ensures
        error::failure(r) == if text::blank(body@) {
            Some(empty_body_error(prefix@))
        } else {
            None
        },
{
    if text::is_blank(body) {
        return Err(
            AppError::new(
                ErrorCode::EmptyBody,
                "message body is empty after trimming whitespace",
                text::cat3(
                    "Retry with `",
                    prefix,
                    " --body '<text>'` or pass a non-empty body file/stdin.",
                ).as_str(),
            ).exact_fix(text::cat2(prefix, " --body '<text>'").as_str()).input(
                "message body",
            ).reason("empty or whitespace-only"),
        );
    }
    Ok(())
}

// ---------------------------------------------------------------------------
// The route
// ---------------------------------------------------------------------------
pub open spec fn blocked_route_error(
    sender: Seq<char>,
    recipient: Seq<char>,
    rule: model::RuleView,
) -> error::ErrorView {
    error::ErrorView::of(
        ErrorCode::BlockedRoute,
        "route "@ + sender + " -> "@ + recipient + " is blocked: "@ + rule.reason,
        "Do not route around this block. Ask the human operator to review rules.json."@,
    ).input(sender + " -> "@ + recipient).reason(rule.reason).rule(rule)
}

/// The error of a route, if a rule closes it.
pub open spec fn route_fault(
    rules: Seq<model::RuleView>,
    sender: Seq<char>,
    recipient: Seq<char>,
) -> Option<error::ErrorView> {
    match context::blocking_rule(rules, sender, recipient) {
        Some(rule) => Some(blocked_route_error(sender, recipient, rule)),
        None => None,
    }
}

pub fn ensure_route_allowed(rules: &Vec<BlockingRule>, sender: &str, recipient: &str) -> (r:
    AppResult<()>)
    ensures
        error::failure(r) == route_fault(model::rules_view(rules@), sender@, recipient@),
{
    match context::find_blocking_rule(rules, sender, recipient) {
        None => Ok(()),
        Some(i) => {
            let rule = &rules[i];
            Err(
                AppError::new(
                    ErrorCode::BlockedRoute,
                    text::cat6(
                        "route ",
                        sender,
                        " -> ",
                        recipient,
                        " is blocked: ",
                        rule.reason.as_str(),
                    ).as_str(),
                    "Do not route around this block. Ask the human operator to review rules.json.",
                ).input(text::cat3(sender, " -> ", recipient).as_str()).reason(
                    rule.reason.as_str(),
                ).rule(rule.clone()),
            )
        },
    }
}

/// What a sent mail prints.
pub fn sent_receipt(envelope: &Envelope) -> (r: String)
    ensures
        r@ == "post: sent "@ + envelope.kind.name() + " "@ + envelope.id@ + " "@ + envelope.from@
            + " -> "@ + envelope.to@ + "\n"@,
{
    text::cat9(
        "post: sent ",
        envelope.kind.as_str(),
        " ",
        envelope.id.as_str(),
        " ",
        envelope.from.as_str(),
        " -> ",
        envelope.to.as_str(),
        "\n",
    )
}

} // verus!
