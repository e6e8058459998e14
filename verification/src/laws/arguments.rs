//! Which commands write, and what a mistyped one is answered.
use vstd::prelude::*;

use crate::cli;
use crate::cli::{ChatArgs, Command};
use crate::text;

verus! {

/// A chat command writes when it joins, sends, discards, or reads in the ordinary way, which moves
/// the cursor; to peek, to look back, to look since a time and to ask who has seen are no writes.
pub proof fn chats_write_unless_they_only_look(args: ChatArgs)
    ensures
        args.join ==> cli::chat_writes(args),
        args.send || args.body is Some || args.body_file is Some || args.file is Some
            ==> cli::chat_writes(args) && cli::chat_sends(args),
        !args.send && args.body is None && args.body_file is None && args.file is None
            ==> !cli::chat_sends(args),
        args.discard || args.discard_through is Some ==> cli::chat_writes(args),
        !args.peek && args.history is None && args.since is None && args.seen_by is None
            ==> cli::chat_writes(args),
        !args.join && !args.send && args.body is None && args.body_file is None && args.file is None
            && !args.discard && args.discard_through is None && (args.peek || args.history is Some
            || args.since is Some || args.seen_by is Some) ==> !cli::chat_writes(args),
{
}

/// Whether a command writes: sending always, a repair when asked to fix, the registry, the owner and
/// the profiles when they are changed, reading unless it peeks, watching unless it takes a snapshot.
pub proof fn commands_write_when_they_change_something(command: Command)
    ensures
        command is Send ==> cli::writes(command),
        command matches Command::Doctor(args) ==> (cli::writes(command) <==> args.fix),
        command matches Command::Rooms(args) ==> (cli::writes(command) <==> args.command is Some),
        command matches Command::Owner(args) ==> (cli::writes(command) <==> (args.command
            matches Some(c) && c is Init)),
        command matches Command::Profile(args) ==> (cli::writes(command) <==> (args.command
            matches Some(c) && (c is Change || c is Clear))),
        command matches Command::Read(args) ==> (cli::writes(command) <==> !args.peek),
        command matches Command::Watch(args) ==> (cli::writes(command) <==> !args.snapshot),
        command matches Command::Chat(args) ==> (cli::writes(command) <==> cli::chat_writes(args)),
        command is Channels || command is Inbox || command is Schema || command is Who
            ==> !cli::writes(command),
{
}

/// The subcommand is the first argument that is no option.
pub proof fn the_first_plain_argument_is_the_subcommand(argv: Seq<Option<String>>, from: int)
    requires
        0 <= from,
    ensures
        from >= argv.len() ==> cli::subcommand(argv, from) is None,
        from < argv.len() && argv[from] is Some && !(argv[from]->0@.len() > 0 && argv[from]->0@[0]
            == '-') ==> cli::subcommand(argv, from) == Some(argv[from]->0@),
        from < argv.len() && (argv[from] is None || (argv[from]->0@.len() > 0 && argv[from]->0@[0]
            == '-')) ==> cli::subcommand(argv, from) == cli::subcommand(argv, from + 1),
{
    reveal_strlit("-");
    if from < argv.len() && argv[from] is Some {
        let word = argv[from]->0@;
        if word.len() > 0 {
            assert(word.subrange(0, 1) =~= seq![word[0]]);
            assert("-"@ =~= seq!['-']);
            if word[0] != '-' {
                assert(seq![word[0]][0] != "-"@[0]);
            }
        }
    }
}

/// A body in place of a recipient, an option that the command does not have, a sender where the
/// directory decides, a body where none is sent: each is answered with a command that works, and any
/// other mistake with none.
pub proof fn mistakes_are_answered_with_a_command(message: Seq<char>, sub: Option<Seq<char>>)
    ensures
        ({
            let file = text::has_part(message, "'[FILE]' cannot be used with '--body"@);
            let room = text::has_part(message, "unexpected argument '--room'"@);
            let from = text::has_part(message, "unexpected argument '--from'"@);
            let body = text::has_part(message, "unexpected argument '--body-file'"@)
                || text::has_part(message, "unexpected argument '--body'"@);
            let fix = cli::parse_fix(message, sub);
            &&& fix is Some <==> file || room || from || body
            &&& file ==> fix->0.command
                == "post send --to <ROOM> --from <NAME> --subject <SUBJECT> --body <TEXT>"@
            &&& !file && room && sub == Some("chat"@) ==> fix->0.command == "post chat <CHANNEL>"@
            &&& !file && room && sub == Some("channels"@) ==> fix->0.command == "post channels"@
            &&& !file && room && sub == Some("send"@) ==> fix->0.command
                == "post send --to <ROOM> --from <NAME> --body <TEXT>"@
            &&& !file && room && sub is None ==> fix->0.command == "post inbox --room <ROOM>"@
            &&& !file && !room && from && sub == Some("chat"@) ==> fix->0.command
                == "post chat <CHANNEL> --send --body <TEXT>"@
            &&& !file && !room && from && sub != Some("chat"@) ==> fix->0.command
                == "post send --to <ROOM> --from <NAME> --body <TEXT>"@
            &&& !file && !room && !from && body && sub is Some ==> fix->0.command == "post "@
                + sub->0 + " --help"@
        }),
{
    reveal_strlit("chat");
    reveal_strlit("channels");
    reveal_strlit("send");
    assert("chat"@.len() != "channels"@.len());
    assert("send"@[0] != "chat"@[0]);
    assert("send"@.len() != "channels"@.len());
}

} // verus!
