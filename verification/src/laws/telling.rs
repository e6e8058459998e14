//! What errors tell: the names, the places and the reasons that they are about.
use vstd::prelude::*;

use crate::channel;
use crate::channel::Purpose;
use crate::context;
use crate::error::{ErrorCode, ErrorView};
use crate::laws::display;
use crate::model;
use crate::names;
use crate::owner;
use crate::profile;
use crate::reading;
use crate::rooms;
use crate::rooms::Candidate;
use crate::send;
use crate::text;

verus! {

/// A failed read or write tells what was tried, where, and why it failed; a broken file tells where
/// and why.
pub proof fn failed_work_tells_what_and_where(
    operation: Seq<char>,
    path: Seq<char>,
    reason: Seq<char>,
)
    ensures
        text::has_part(ErrorView::io(operation, path, reason).message, operation),
        text::has_part(ErrorView::io(operation, path, reason).message, path),
        text::has_suffix(ErrorView::io(operation, path, reason).message, reason),
        text::has_part(ErrorView::config(path, reason).message, path),
        text::has_suffix(ErrorView::config(path, reason).message, reason),
{
    display::put_behind("failed to "@, operation);
    display::put_behind("failed to "@ + operation, " '"@);
    let a = "failed to "@ + operation + " '"@;
    display::put_behind(a, path);
    display::put_behind(a + path, "': "@);
    display::put_behind(a + path + "': "@, reason);
    display::put_behind("configuration '"@, path);
    display::put_behind("configuration '"@ + path, "' is invalid: "@);
    display::put_behind("configuration '"@ + path + "' is invalid: "@, reason);
}

/// A blocked route tells its two ends and the rule's reason.
pub proof fn blocked_routes_tell_the_reason(
    sender: Seq<char>,
    recipient: Seq<char>,
    rule: model::RuleView,
)
    ensures
        text::has_prefix(
            send::blocked_route_error(sender, recipient, rule).message,
            "route "@ + sender + " -> "@ + recipient,
        ),
        text::has_suffix(send::blocked_route_error(sender, recipient, rule).message, rule.reason),
        text::has_part(rooms::blocked_room_error(sender, rule).message, sender),
        text::has_suffix(rooms::blocked_room_error(sender, rule).message, rule.reason),
        rooms::blocked_room_error(sender, rule).details.rule == Some(rule),
        rooms::blocked_room_error(sender, rule).details.reason == Some(rule.reason),
{
    let a = "route "@ + sender + " -> "@ + recipient;
    display::put_behind(a, " is blocked: "@);
    display::put_behind(a + " is blocked: "@, rule.reason);
    display::put_behind("room '"@, sender);
    let between = "' cannot be registered because a route to it is blocked: "@;
    display::put_behind("room '"@ + sender, between);
    display::put_behind("room '"@ + sender + between, rule.reason);
}

/// An unknown recipient is told, and the room that was perhaps meant.
pub proof fn unknown_recipients_are_told(to: Seq<char>, room: Seq<char>)
    ensures
        text::has_part(send::unknown_recipient_error(to, None).message, to),
        text::has_part(send::unknown_recipient_error(to, Some(room)).message, to),
        text::has_part(send::unknown_recipient_error(to, Some(room)).message, room),
{
    let a = "recipient room '"@ + to;
    display::put_behind("recipient room '"@, to);
    display::put_behind(a, "' is unknown"@);
    display::put_behind(a, "' is unknown; did you mean '"@);
    let b = a + "' is unknown; did you mean '"@;
    display::put_behind(b, room);
    display::put_behind(b + room, "'?"@);
}

/// A channel that is missing, or that the room is not in, is told with the command that joins it.
pub proof fn closed_channels_tell_how_to_join(
    channel: Seq<char>,
    room: Seq<char>,
    purpose: Purpose,
)
    ensures
        channel::no_channel_error(channel, purpose).code == ErrorCode::NotFound,
        channel::no_channel_error(channel, purpose).details.input == Some(channel),
        text::has_part(channel::no_channel_error(channel, purpose).message, channel),
        text::has_part(
            channel::no_channel_error(channel, purpose).suggested_fix,
            names::quoted(channel),
        ),
        channel::not_a_member_error(channel, room, purpose).code == ErrorCode::NotAMember,
        channel::not_a_member_error(channel, room, purpose).details.input == Some(room),
        text::has_part(channel::not_a_member_error(channel, room, purpose).message, room),
        text::has_part(channel::not_a_member_error(channel, room, purpose).message, channel),
        text::has_part(
            channel::not_a_member_error(channel, room, purpose).suggested_fix,
            names::quoted(channel),
        ),
{
    let quoted = names::quoted(channel);
    display::put_behind("channel '"@, channel);
    display::put_behind("channel '"@ + channel, "' does not exist"@);
    display::put_behind("Create it with `post chat "@, quoted);
    display::put_behind(
        "Create it with `post chat "@ + quoted,
        if purpose == Purpose::Send {
            " --join`, then retry the send."@
        } else {
            " --join`."@
        },
    );
    display::put_behind("room '"@, room);
    display::put_behind("room '"@ + room, "' is not a member of channel '"@);
    let a = "room '"@ + room + "' is not a member of channel '"@;
    display::put_behind(a, channel);
    display::put_behind(a + channel, "'"@);
    display::put_behind("Join first with `post chat "@, quoted);
    display::put_behind(
        "Join first with `post chat "@ + quoted,
        match purpose {
            Purpose::Send => " --join`, then retry the send."@,
            Purpose::Read => " --join`, then retry the read."@,
            Purpose::SeenBy => " --join`."@,
        },
    );
}

/// A name or a workspace that is taken is told with the room that has it.
pub proof fn taken_rooms_tell_who_has_them(
    name: Seq<char>,
    known: Seq<char>,
    new: Candidate,
    reason: Seq<char>,
)
    ensures
        rooms::taken_name_error(name, known).code == ErrorCode::InvalidArgument,
        rooms::taken_name_error(name, known).details.room == Some(known),
        text::has_part(rooms::taken_name_error(name, known).message, name),
        text::has_part(rooms::taken_name_error(name, known).message, known),
        rooms::duplicate_workspace_error(new, known).code == ErrorCode::DuplicateWorkspace,
        rooms::duplicate_workspace_error(new, known).details.room == Some(known),
        rooms::duplicate_workspace_error(new, known).details.registered_path == Some(
            new.canonical@,
        ),
        text::has_part(rooms::duplicate_workspace_error(new, known).message, new.canonical@),
        text::has_part(rooms::duplicate_workspace_error(new, known).message, known),
        text::has_part(rooms::bad_name_error(name, reason).message, name),
        text::has_suffix(rooms::bad_name_error(name, reason).message, reason),
        rooms::bad_name_error(name, reason).details.reason == Some(reason),
        text::has_part(rooms::bad_path_error(name, reason).message, name),
        text::has_suffix(rooms::bad_path_error(name, reason).message, reason),
{
    display::put_behind("room '"@, name);
    let a = "room '"@ + name + "' is already registered as '"@;
    display::put_behind("room '"@ + name, "' is already registered as '"@);
    display::put_behind(a, known);
    display::put_behind(a + known, "' under ASCII case folding"@);
    let place = new.canonical@;
    display::put_behind("workspace '"@, place);
    let b = "workspace '"@ + place + "' is already registered as room '"@;
    display::put_behind("workspace '"@ + place, "' is already registered as room '"@);
    display::put_behind(b, known);
    display::put_behind(b + known, "'"@);
    display::put_behind("room name '"@, name);
    display::put_behind("room name '"@ + name, "' is invalid: "@);
    display::put_behind("room name '"@ + name + "' is invalid: "@, reason);
    display::put_behind("room path '"@, name);
    display::put_behind("room path '"@ + name, "' is invalid: "@);
    display::put_behind("room path '"@ + name + "' is invalid: "@, reason);
}

/// A reserved sender is told with the place to go to, and a stranger with its name.
pub proof fn refused_senders_are_told_where_to_go(
    sender: Seq<char>,
    path: Seq<char>,
    cwd: Seq<char>,
)
    ensures
        context::reserved_sender_error(sender, path, cwd).code == ErrorCode::ReservedSender,
        text::has_part(context::reserved_sender_error(sender, path, cwd).message, sender),
        text::has_part(context::reserved_sender_error(sender, path, cwd).message, path),
        text::has_part(context::reserved_sender_error(sender, path, cwd).message, cwd),
        text::has_part(context::reserved_sender_error(sender, path, cwd).suggested_fix, path),
        context::unregistered_room_error(sender).code == ErrorCode::UnknownRoom,
        context::unregistered_room_error(sender).details.input == Some(sender),
        context::bad_room_error(sender, path).code == ErrorCode::InvalidArgument,
        context::bad_room_error(sender, path).details.input == Some(sender),
        context::bad_room_error(sender, path).details.reason == Some(path),
        context::missing_home_error().code == ErrorCode::ConfigInvalid,
        context::relative_root_error(path).code == ErrorCode::ConfigInvalid,
        context::relative_root_error(path).details.input == Some(path),
{
    display::put_behind("sender '"@, sender);
    let a = "sender '"@ + sender + "' is reserved for registered room '"@;
    display::put_behind("sender '"@ + sender, "' is reserved for registered room '"@);
    display::put_behind(a, path);
    let b = a + path + "' and cwd '"@;
    display::put_behind(a + path, "' and cwd '"@);
    display::put_behind(b, cwd);
    display::put_behind(b + cwd, "' is outside its tree"@);
    display::put_behind("Run from '"@, path);
    display::put_behind(
        "Run from '"@ + path,
        "' or pass a free-form sender such as `--from codex-<project>`."@,
    );
}

/// An unclear prefix is told with the ids that it fits, and one that fits none with the room.
pub proof fn unclear_prefixes_tell_what_they_fit(
    found: Seq<Seq<char>>,
    prefix: Seq<char>,
    room: Seq<char>,
    scope: Seq<char>,
)
    ensures
        text::has_part(reading::ambiguous_error(found, prefix, room, scope).message, prefix),
        text::has_part(reading::ambiguous_error(found, prefix, room, scope).message, room),
        text::has_suffix(
            reading::ambiguous_error(found, prefix, room, scope).message,
            text::joined(found, ", "@),
        ),
        text::has_part(reading::no_mail_error(prefix, room).message, prefix),
        text::has_part(reading::no_mail_error(prefix, room).message, room),
        channel::no_message_error(prefix).code == ErrorCode::NotFound,
        channel::no_message_error(prefix).details.input == Some(prefix),
        channel::ambiguous_message_error(prefix, found).code == ErrorCode::AmbiguousId,
        channel::ambiguous_message_error(prefix, found).details.input == Some(prefix),
        channel::ambiguous_message_error(prefix, found).details.matches == Some(found),
{
    let a = "mail id prefix '"@ + prefix;
    display::put_behind("mail id prefix '"@, prefix);
    display::put_behind(a, "' is ambiguous among "@);
    let b = a + "' is ambiguous among "@ + scope;
    display::put_behind(a + "' is ambiguous among "@, scope);
    display::put_behind(b, " mail in room '"@);
    let c = b + " mail in room '"@ + room;
    display::put_behind(b + " mail in room '"@, room);
    display::put_behind(c, "'; matches: "@);
    display::put_behind(c + "'; matches: "@, text::joined(found, ", "@));
    let d = "no mail id starts with '"@ + prefix;
    display::put_behind("no mail id starts with '"@, prefix);
    display::put_behind(d, "' in room '"@);
    display::put_behind(d + "' in room '"@, room);
    display::put_behind(
        d + "' in room '"@ + room,
        "': not unread, not already read, not in the archive"@,
    );
}

/// A refused profile tells why, and an owner file that differs tells where and in which fields.
pub proof fn refused_settings_tell_why(
    reason: Seq<char>,
    input: Seq<char>,
    path: Seq<char>,
    diffs: Seq<Seq<char>>,
)
    ensures
        profile::profile_error(reason, input).code == ErrorCode::InvalidArgument,
        profile::profile_error(reason, input).details.reason == Some(reason),
        text::has_suffix(profile::profile_error(reason, input).message, reason),
        profile::profile_fault_error(None, input) is None,
        profile::profile_fault_error(Some(reason), input) == Some(
            profile::profile_error(reason, input),
        ),
        owner::different_owner_error(path, diffs).code == ErrorCode::ConfigInvalid,
        owner::different_owner_error(path, diffs).details.path == Some(path),
        owner::different_owner_error(path, diffs).details.reason == Some(
            "differing fields: "@ + text::joined(diffs, ", "@),
        ),
        owner::symlink_error(path).code == ErrorCode::ConfigInvalid,
        owner::symlink_error(path).details.path == Some(path),
{
    display::put_behind("profile value is invalid: "@, reason);
}

} // verus!
