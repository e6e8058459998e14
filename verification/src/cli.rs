//! The commands and their arguments, and what a misunderstood command line most likely meant.
use crate::model::MailKind;
use crate::text;
use vstd::prelude::*;

verus! {

/// How much framing a read prints around what other agents wrote.
#[derive(Debug, Clone, Copy, PartialEq, Eq, Structural)]
pub enum FramingMode {
    /// The full banner, except in text chat, which shows it once a day.
    Auto,
    /// The full banner every time.
    Full,
    /// A one-line reminder of the same laws.
    Compact,
}

#[derive(Debug)]
pub struct SendArgs {
    pub to: String,
    pub sender: Option<String>,
    pub kind: MailKind,
    pub subject: String,
    pub body: Option<String>,
    pub body_file: Option<String>,
    pub oversize: bool,
    pub allow_self: bool,
    pub file: Option<String>,
}

#[derive(Debug)]
pub struct ChatArgs {
    pub name: String,
    pub join: bool,
    pub description: Option<String>,
    pub send: bool,
    pub anyway: bool,
    pub re: Option<String>,
    /// The tag of a detached signature over the body.
    pub signature_ref: Option<String>,
    pub subject: String,
    pub body: Option<String>,
    pub body_file: Option<String>,
    pub oversize: bool,
    pub file: Option<String>,
    pub peek: bool,
    pub history: Option<usize>,
    pub grep: Option<String>,
    pub since: Option<String>,
    pub discard: bool,
    pub discard_through: Option<String>,
    pub limit: Option<usize>,
    pub seen_by: Option<String>,
    pub framing: FramingMode,
}

#[derive(Debug)]
pub struct ChannelsArgs {
    pub text: bool,
}

#[derive(Debug)]
pub struct WhoArgs {
    pub room: Vec<String>,
    pub text: bool,
}

#[derive(Debug)]
pub struct InboxArgs {
    pub room: Option<String>,
    pub text: bool,
}

#[derive(Debug)]
pub struct RoomsAddArgs {
    pub name: String,
    pub path: String,
}

#[derive(Debug)]
pub enum RoomsCommand {
    Add(RoomsAddArgs),
}

#[derive(Debug)]
pub struct RoomsArgs {
    pub command: Option<RoomsCommand>,
}

#[derive(Debug)]
pub struct ProfileSetArgs {
    pub name: Option<String>,
    pub pfp: Option<String>,
}

#[derive(Debug)]
pub struct ProfileShowArgs {
    pub room: Option<String>,
}

#[derive(Debug)]
pub enum ProfileCommand {
    Change(ProfileSetArgs),
    Show(ProfileShowArgs),
    Clear,
}

#[derive(Debug)]
pub struct ProfileArgs {
    pub command: Option<ProfileCommand>,
}

#[derive(Debug)]
pub struct OwnerInitArgs {
    pub room: String,
    pub marker: Option<String>,
    pub label: Option<String>,
    pub sidecar_dir: Option<String>,
    pub allowed_signers: Option<String>,
    pub principal: Option<String>,
    pub namespace: Option<String>,
}

#[derive(Debug)]
pub enum OwnerCommand {
    Init(OwnerInitArgs),
    Show,
}

#[derive(Debug)]
pub struct OwnerArgs {
    pub command: Option<OwnerCommand>,
}

#[derive(Debug)]
pub struct ReadArgs {
    pub id: String,
    pub room: Option<String>,
    pub peek: bool,
    pub framing: FramingMode,
}

#[derive(Debug)]
pub struct WatchArgs {
    pub room: Vec<String>,
    pub once: bool,
    pub snapshot: bool,
    pub limit: Option<usize>,
    pub interval_ms: u64,
    pub text: bool,
}

#[derive(Debug)]
pub struct DoctorArgs {
    pub fix: bool,
}

#[derive(Debug)]
pub enum Command {
    Send(SendArgs),
    Chat(ChatArgs),
    Channels(ChannelsArgs),
    Inbox(InboxArgs),
    Read(ReadArgs),
    Rooms(RoomsArgs),
    Profile(ProfileArgs),
    Owner(OwnerArgs),
    Schema,
    Doctor(DoctorArgs),
    Watch(WatchArgs),
    Who(WhoArgs),
}

/// Accepts an argument without control characters.
pub fn without_controls(value: &str) -> (r: Result<String, String>)
    ensures
        match r {
            Ok(v) => !text::has_control(value@) && v@ == value@,
            Err(e) => text::has_control(value@) && e@
                == "value must not contain control characters"@,
        },
{
    if text::contains_control(value) {
        return Err("value must not contain control characters".to_owned());
    }
    Ok(value.to_owned())
}

/// Accepts a non-empty argument without control characters.
pub fn nonempty_without_controls(value: &str) -> (r: Result<String, String>)
    ensures
        match r {
            Ok(v) => value@.len() > 0 && !text::has_control(value@) && v@ == value@,
            Err(e) => if value@.len() == 0 {
                e@ == "value must not be empty"@
            } else {
                text::has_control(value@) && e@ == "value must not contain control characters"@
            },
        },
{
    if value.is_empty() {
        return Err("value must not be empty".to_owned());
    }
    without_controls(value)
}

/// Whether a chat command sends: it says so, or it names a body.
pub open spec fn chat_sends(args: ChatArgs) -> bool {
    args.send || args.body is Some || args.body_file is Some || args.file is Some
}

/// Whether a chat command changes the store. Reads do, unless they leave the cursor alone.
pub open spec fn chat_writes(args: ChatArgs) -> bool {
    ||| args.join
    ||| chat_sends(args)
    ||| args.discard
    ||| args.discard_through is Some
    ||| (!args.peek && args.history is None && args.since is None && args.seen_by is None)
}

/// Whether a command changes the store.
pub open spec fn writes(command: Command) -> bool {
    match command {
        Command::Send(_) => true,
        Command::Doctor(args) => args.fix,
        Command::Rooms(args) => args.command is Some,
        Command::Owner(args) => args.command is Some && args.command->0 is Init,
        Command::Profile(args) => args.command is Some && !(args.command->0 is Show),
        Command::Read(args) => !args.peek,
        Command::Chat(args) => chat_writes(args),
        Command::Watch(args) => !args.snapshot,
        _ => false,
    }
}

/// Whether a command changes the store, and so needs to be let through a migration fence.
pub fn classify_write(command: &Command) -> (r: bool)
    ensures
        r == writes(*command),
{
    match command {
        Command::Send(_) => true,
        Command::Doctor(args) => args.fix,
        Command::Rooms(args) => args.command.is_some(),
        Command::Owner(args) => match &args.command {
            Some(OwnerCommand::Init(_)) => true,
            _ => false,
        },
        Command::Profile(args) => match &args.command {
            Some(ProfileCommand::Change(_)) => true,
            Some(ProfileCommand::Clear) => true,
            _ => false,
        },
        Command::Read(args) => !args.peek,
        Command::Chat(args) => args.join || args.send || args.body.is_some()
            || args.body_file.is_some() || args.file.is_some() || args.discard
            || args.discard_through.is_some() || (!args.peek && args.history.is_none()
            && args.since.is_none() && args.seen_by.is_none()),
        Command::Watch(args) => !args.snapshot,
        _ => false,
    }
}

/// A chat read that ignores the cursor, or that only looks, leaves the store as it is.
pub proof fn cursorless_reads_do_not_write(args: ChatArgs)
    requires
        !args.join,
        !chat_sends(args),
        !args.discard,
        args.discard_through is None,
        args.peek || args.history is Some || args.since is Some || args.seen_by is Some,
    ensures
        !writes(Command::Chat(args)),
{
}

/// Whether a command is a watch that keeps running.
pub fn is_long_watch(command: &Command) -> (r: bool)
    ensures
        r == (command is Watch && !command->Watch_0.snapshot),
{
    match command {
        Command::Watch(args) => !args.snapshot,
        _ => false,
    }
}

/// Whether a command must leave the store alone although it runs: a watch under an enrolled
/// admission, or a read-only command on a store that is being migrated.
pub fn must_not_mutate(writes: bool, long_watch: bool, enrolled: bool, fenced: bool) -> (r: bool)
    ensures
        r == ((long_watch && enrolled) || (!writes && fenced)),
{
    (long_watch && enrolled) || (!writes && fenced)
}

/// Whether a command prepares a missing store first. The doctor never does, and neither does
/// a command that must leave the store alone.
pub fn prepares_first_run(command: &Command, fenced_read: bool) -> (r: bool)
    ensures
        r == (!fenced_read && !(command is Doctor)),
{
    if fenced_read {
        return false;
    }
    match command {
        Command::Doctor(_) => false,
        _ => true,
    }
}

// ---------------------------------------------------------------------------
// Misunderstood command lines
// ---------------------------------------------------------------------------
/// The first word of a command line, after the program's name, that is not an option.
pub open spec fn subcommand(argv: Seq<Option<String>>, from: int) -> Option<Seq<char>>
    decreases argv.len() - from,
{
    if from < 0 || from >= argv.len() {
        None
    } else if argv[from] is Some && !text::has_prefix(argv[from]->0@, "-"@) {
        Some(argv[from]->0@)
    } else {
        subcommand(argv, from + 1)
    }
}

/// The subcommand that a command line names. Words that are not UTF-8 are `None`.
pub fn subcommand_of(argv: &Vec<Option<String>>) -> (r: Option<String>)
    ensures
        text::opt(r) == subcommand(argv@, 1),
{
    let mut i: usize = 1;
    while i < argv.len()
        invariant
            1 <= i,
            subcommand(argv@, 1) == subcommand(argv@, i as int),
        decreases argv.len() - i,
    {
        match &argv[i] {
            Some(word) => {
                if !text::starts_with(word.as_str(), "-") {
                    return Some(word.clone());
                }
            },
            None => {},
        }
        i = i + 1;
    }
    None
}

pub ghost struct FixView {
    pub command: Seq<char>,
    pub guidance: Seq<char>,
}

/// A corrected command and the reason for it.
#[derive(Debug)]
pub struct ParseFix {
    pub command: String,
    pub guidance: String,
}

impl View for ParseFix {
    type V = FixView;

    open spec fn view(&self) -> FixView {
        FixView { command: self.command@, guidance: self.guidance@ }
    }
}

pub open spec fn fix_view(r: Option<ParseFix>) -> Option<FixView> {
    match r {
        Some(f) => Some(f@),
        None => None,
    }
}

/// What a parse failure of the command line asks for, by the subcommand that was attempted.
pub open spec fn parse_fix(message: Seq<char>, sub: Option<Seq<char>>) -> Option<FixView> {
    if text::has_part(message, "'[FILE]' cannot be used with '--body"@) {
        Some(
            FixView {
                command:
                    "post send --to <ROOM> --from <NAME> --subject <SUBJECT> --body <TEXT>"@,
                guidance:
                    "The recipient is named by --to, never by position: the positional argument is a body FILE. Pass the recipient as a flag and the message as --body."@,
            },
        )
    } else if text::has_part(message, "unexpected argument '--room'"@) {
        if sub == Some("chat"@) {
            Some(
                FixView {
                    command: "post chat <CHANNEL>"@,
                    guidance:
                        "Channel identity comes from cwd, so chat has no --room: run it from inside the room's registered directory. Run `post rooms` to see the paths."@,
                },
            )
        } else if sub == Some("channels"@) {
            Some(
                FixView {
                    command: "post channels"@,
                    guidance:
                        "channels takes no --room; it lists every channel with its members."@,
                },
            )
        } else if sub == Some("send"@) {
            Some(
                FixView {
                    command: "post send --to <ROOM> --from <NAME> --body <TEXT>"@,
                    guidance:
                        "send names the recipient with --to and the sender with --from; it has no --room."@,
                },
            )
        } else {
            Some(
                FixView {
                    command: "post inbox --room <ROOM>"@,
                    guidance: "--room is a command option for inbox, read, and watch only."@,
                },
            )
        }
    } else if text::has_part(message, "unexpected argument '--from'"@) {
        if sub == Some("chat"@) {
            Some(
                FixView {
                    command: "post chat <CHANNEL> --send --body <TEXT>"@,
                    guidance:
                        "Channel sender identity comes from cwd, so chat has no --from: run it from inside the room's registered directory."@,
                },
            )
        } else {
            Some(
                FixView {
                    command: "post send --to <ROOM> --from <NAME> --body <TEXT>"@,
                    guidance: "--from names the sender on send only."@,
                },
            )
        }
    } else if text::has_part(message, "unexpected argument '--body-file'"@) || text::has_part(
        message,
        "unexpected argument '--body'"@,
    ) {
        Some(
            FixView {
                command: "post "@ + (match sub {
                    Some(name) => name,
                    None => "<command>"@,
                }) + " --help"@,
                guidance:
                    "--body and --body-file supply a message body on `send` and `chat --send` only."@,
            },
        )
    } else {
        None
    }
}

fn fix(command: &str, guidance: &str) -> (r: Option<ParseFix>)
    ensures
        fix_view(r) == Some(FixView { command: command@, guidance: guidance@ }),
{
    Some(ParseFix { command: command.to_owned(), guidance: guidance.to_owned() })
}

/// Turns a failure to parse the command line into the invocation that was most likely meant.
pub fn parse_failure_fix(message: &str, argv: &Vec<Option<String>>) -> (r: Option<ParseFix>)
    ensures
        fix_view(r) == parse_fix(message@, subcommand(argv@, 1)),
{
    let sub = subcommand_of(argv);
    if text::contains_text(message, "'[FILE]' cannot be used with '--body") {
        return fix(
            "post send --to <ROOM> --from <NAME> --subject <SUBJECT> --body <TEXT>",
            "The recipient is named by --to, never by position: the positional argument is a body FILE. Pass the recipient as a flag and the message as --body.",
        );
    }
    if text::contains_text(message, "unexpected argument '--room'") {
        if text::opt_same(&sub, "chat") {
            return fix(
                "post chat <CHANNEL>",
                "Channel identity comes from cwd, so chat has no --room: run it from inside the room's registered directory. Run `post rooms` to see the paths.",
            );
        }
        if text::opt_same(&sub, "channels") {
            return fix(
                "post channels",
                "channels takes no --room; it lists every channel with its members.",
            );
        }
        if text::opt_same(&sub, "send") {
            return fix(
                "post send --to <ROOM> --from <NAME> --body <TEXT>",
                "send names the recipient with --to and the sender with --from; it has no --room.",
            );
        }
        return fix(
            "post inbox --room <ROOM>",
            "--room is a command option for inbox, read, and watch only.",
        );
    }
    if text::contains_text(message, "unexpected argument '--from'") {
        if text::opt_same(&sub, "chat") {
            return fix(
                "post chat <CHANNEL> --send --body <TEXT>",
                "Channel sender identity comes from cwd, so chat has no --from: run it from inside the room's registered directory.",
            );
        }
        return fix(
            "post send --to <ROOM> --from <NAME> --body <TEXT>",
            "--from names the sender on send only.",
        );
    }
    if text::contains_text(message, "unexpected argument '--body-file'") || text::contains_text(
        message,
        "unexpected argument '--body'",
    ) {
        let name = match &sub {
            Some(name) => name.as_str(),
            None => "<command>",
        };
        return fix(
            text::cat3("post ", name, " --help").as_str(),
            "--body and --body-file supply a message body on `send` and `chat --send` only.",
        );
    }
    None
}

} // verus!
