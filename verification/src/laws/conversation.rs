//! What messages are drafted as, where they lie, and how channels are listed.
use vstd::prelude::*;

use crate::channel;
use crate::channel::{MessageDraft, MessageRequest};
use crate::chat;
use crate::cli::ChatArgs;
use crate::delivery;
use crate::error;
use crate::error::ErrorCode;
use crate::history;
use crate::laws::display;
use crate::mail;
use crate::model;
use crate::names;
use crate::output;
use crate::output::ChannelListItem;
use crate::paths;
use crate::schema;
use crate::text;
use crate::watch;
use crate::watch::{MailSighting, MessageSighting};

verus! {

/// A draft carries what was asked for: room, channel and subject as they are; no event and no
/// profile yet; a locator exactly where a signature is named; an answer only to a message whose id
/// begins as asked.
pub proof fn drafts_carry_the_request(
    request: MessageRequest,
    ids: Seq<Seq<char>>,
    rooms: Seq<Seq<char>>,
    draft: MessageDraft,
)
    requires
        channel::drafts(request, ids, rooms, draft),
    ensures
        draft.room@ == request.room@,
        draft.channel@ == request.channel@,
        draft.subject@ == request.subject@,
        draft.event is None,
        draft.display_name is None,
        draft.pfp is None,
        draft.signature_ref is Some <==> request.signature_ref is Some,
        request.signature_ref matches Some(tag) ==> draft.signature_ref->0@
            == "{\"version\":2,\"tag\":\""@ + tag@ + "\"}"@,
        draft.re is Some <==> request.re is Some,
        request.re matches Some(prefix) ==> ids.contains(draft.re->0@) && text::has_prefix(
            draft.re->0@,
            prefix@,
        ),
{
    if request.re is Some {
        let prefix = request.re->0@;
        let id = draft.re->0@;
        assert(channel::stands_for(ids, prefix, Ok(id)));
        let found = channel::ids_with_prefix(ids, prefix);
        if found.len() == 1 && found[0] == id {
            crate::order::filter_element(ids, |id: Seq<char>| text::has_prefix(id, prefix), 0);
        }
    }
}

/// The record of an event names its room, its channel and the event, and nothing else.
pub proof fn records_name_the_event(
    draft: MessageDraft,
    room: Seq<char>,
    channel: Seq<char>,
    event: Seq<char>,
)
    requires
        channel::records(draft, room, channel, event),
    ensures
        draft.room@ == room,
        draft.channel@ == channel,
        draft.event is Some && draft.event->0@ == event,
        draft.subject@.len() == 0,
        draft.display_name is None && draft.pfp is None && draft.re is None
            && draft.signature_ref is None,
        draft.mentions@.len() == 0,
{
}

/// What a bounced sender sees of a missed message is the message: its id, sender, subject, date and
/// body.
pub proof fn missed_messages_are_shown_as_they_are(post: model::PostView)
    ensures
        channel::missed_of(post).id == post.message.id,
        channel::missed_of(post).from == post.message.from,
        channel::missed_of(post).subject == post.message.subject,
        channel::missed_of(post).sent == post.message.sent,
        channel::missed_of(post).body == post.body,
{
}

/// A bounced send shows the last ten of the messages that were missed, and all where there are fewer,
/// with the command that sends all the same.
pub proof fn bounced_sends_show_the_last_ten(
    channel: Seq<char>,
    missed: Seq<error::MissedView>,
    i: int,
)
    ensures
        ({
            let shown = channel::crossed_send_error(channel, missed).details.missed;
            &&& shown is Some
            &&& missed.len() <= 10 ==> shown == Some(missed)
            &&& missed.len() > 10 ==> shown->0.len() == 10
            &&& missed.len() > 10 && 0 <= i < 10 ==> shown->0[i] == missed[missed.len() - 10 + i]
        }),
        channel::crossed_send_error(channel, missed).code == ErrorCode::CrossedSend,
        channel::crossed_send_error(channel, missed).details.input == Some(channel),
        channel::crossed_send_error(channel, missed).details.exact_fix == Some(
            "post chat "@ + names::quoted(channel) + " --send --anyway --body '<revised text>'"@,
        ),
{
}

/// A stored message is taken exactly when it is sound and lies under its own id.
pub proof fn stored_messages_lie_under_their_ids(path: Seq<char>, m: model::MessageView)
    ensures
        channel::stored_message_fault(path, m) is None <==> channel::message_fault(m) is None && (
        paths::file_name(path) matches Some(name) && paths::stem(name) == m.id),
        channel::message_fault(m) is Some ==> channel::stored_message_fault(path, m)
            == channel::message_fault(m),
{
}

/// A channel is listed with its name, how many members and messages it has, who made it, and its
/// description where it has one.
pub proof fn channels_are_listed_with_what_they_hold(item: ChannelListItem)
    ensures
        text::has_prefix(channel::channel_lines(item), "#"@ + output::header_text(item.name@)),
        text::has_part(
            channel::channel_lines(item),
            text::decimal(item.members@.len()) + " members, "@,
        ),
        text::has_part(
            channel::channel_lines(item),
            text::decimal(item.messages as nat) + " messages, by "@,
        ),
        text::has_part(channel::channel_lines(item), output::header_text(item.created_by@)),
        item.description matches Some(d) ==> text::has_suffix(
            channel::channel_lines(item),
            "  "@ + output::header_text(d@) + "\n"@,
        ),
{
    let a = "#"@ + output::header_text(item.name@);
    let m = text::decimal(item.members@.len());
    let n = text::decimal(item.messages as nat);
    let by = output::header_text(item.created_by@);
    let d = match item.description {
        Some(d) => "  "@ + output::header_text(d@) + "\n"@,
        None => ""@,
    };
    display::put_behind(a, "  ("@);
    display::put_together(a + "  ("@, m, " members, "@);
    display::put_behind(a + "  ("@, m + " members, "@);
    let b = a + "  ("@ + m + " members, "@;
    display::put_together(b, n, " messages, by "@);
    display::put_behind(b, n + " messages, by "@);
    let c = b + n + " messages, by "@;
    display::put_behind(c, by);
    display::put_behind(c + by, ")\n"@);
    display::put_behind(c + by + ")\n"@, d);
}

/// Every channel has its lines, in the order of the listing, and a room is in just the channels that
/// list it.
pub proof fn each_channel_has_its_lines(
    items: Seq<ChannelListItem>,
    one: ChannelListItem,
    room: Seq<char>,
)
    ensures
        channel::listing_lines(seq![]).len() == 0,
        channel::listing_lines(items.push(one)) == channel::listing_lines(items)
            + channel::channel_lines(one),
        channel::channels_with(seq![], room).len() == 0,
        text::texts(one.members@).contains(room) ==> channel::channels_with(items.push(one), room)
            == channel::channels_with(items, room).push(one.name@),
        !text::texts(one.members@).contains(room) ==> channel::channels_with(items.push(one), room)
            == channel::channels_with(items, room),
{
    reveal_strlit("");
    assert(items.push(one).drop_last() =~= items);
}

/// A channel lies in its own directory among the channels, delivered mail lies under its id in the
/// recipient's inbox, and its copy under the same name in the archive.
pub proof fn files_lie_where_they_belong(
    root: Seq<char>,
    inbox: Seq<char>,
    name: Seq<char>,
)
    requires
        root.len() > 0,
        root.last() != '/',
        inbox.len() > 0,
        inbox.last() != '/',
        crate::laws::places::plain(name),
    ensures
        channel::channel_dir(root, name) == root + "/"@ + "channels"@ + "/"@ + name,
        delivery::inbox_file(inbox, name) == inbox + "/"@ + (name + ".mail"@),
        delivery::archive_file(root, name) == root + "/"@ + "archive"@ + "/"@ + (name + ".mail"@),
{
    reveal_strlit("channels");
    reveal_strlit("archive");
    reveal_strlit("/");
    assert(name[0] != '/') by {
        if name[0] == '/' {
            assert(name.contains('/'));
        }
    }
    let file = name + ".mail"@;
    assert(file[0] == name[0]);
    assert("channels"@[0] == 'c' && "channels"@.last() == 's');
    assert("archive"@[0] == 'a' && "archive"@.last() == 'e');
    let channels = root + "/"@ + "channels"@;
    let archive = root + "/"@ + "archive"@;
    assert(channels.last() == "channels"@.last());
    assert(archive.last() == "archive"@.last());
}

/// A refused message is answered with the command that was meant, with its flags as they were given.
pub proof fn answers_repeat_the_command(args: ChatArgs)
    ensures
        text::has_prefix(
            chat::fix_prefix(args),
            "post chat "@ + names::quoted(args.name@) + " --send"@,
        ),
        args.anyway ==> text::has_part(chat::fix_prefix(args), " --anyway"@),
        args.re matches Some(re) ==> text::has_part(
            chat::fix_prefix(args),
            " --re "@ + names::quoted(re@),
        ),
        args.subject@.len() > 0 ==> text::has_part(
            chat::fix_prefix(args),
            " --subject "@ + names::quoted(args.subject@),
        ),
        args.oversize ==> text::has_part(chat::fix_prefix(args), " --oversize"@),
        args.signature_ref matches Some(tag) ==> text::has_suffix(
            chat::fix_prefix(args),
            " --signature-ref "@ + names::quoted(tag@),
        ),
{
    let a = "post chat "@ + names::quoted(args.name@) + " --send"@;
    let b = if args.anyway {
        " --anyway"@
    } else {
        ""@
    };
    let c = match args.re {
        Some(re) => " --re "@ + names::quoted(re@),
        None => ""@,
    };
    let d = if args.subject@.len() > 0 {
        " --subject "@ + names::quoted(args.subject@)
    } else {
        ""@
    };
    let e = if args.oversize {
        " --oversize"@
    } else {
        ""@
    };
    let f = match args.signature_ref {
        Some(tag) => " --signature-ref "@ + names::quoted(tag@),
        None => ""@,
    };
    display::put_behind(a, b);
    display::put_behind(a + b, c);
    display::put_behind(a + b + c, d);
    display::put_behind(a + b + c + d, e);
    display::put_behind(a + b + c + d + e, f);
}

/// A scan looks at each file in turn, the mails before the messages.
pub proof fn scans_look_at_each_file(
    room: Seq<char>,
    floors: Map<Seq<char>, Seq<char>>,
    s: watch::ScanView,
    mails: Seq<MailSighting>,
    mail: MailSighting,
    messages: Seq<MessageSighting>,
    message: MessageSighting,
)
    ensures
        watch::scan(room, floors, s, seq![], seq![]) == s,
        watch::scan(room, floors, s, mails.push(mail), seq![]) == watch::mail_step(
            room,
            watch::scan(room, floors, s, mails, seq![]),
            mail,
        ),
        watch::scan(room, floors, s, mails, messages.push(message)) == watch::message_step(
            room,
            floors,
            watch::scan(room, floors, s, mails, messages),
            message,
        ),
{
    assert(mails.push(mail).drop_last() =~= mails);
    assert(messages.push(message).drop_last() =~= messages);
}

/// Every entry that is in trouble is spoken of, in the order of the entries, and no other; a file
/// whose name is no text is shown as such.
pub proof fn troubled_entries_are_spoken_of_in_turn(
    seen: Seq<watch::ChannelSighting>,
    one: watch::ChannelSighting,
    dir: Seq<char>,
    room: Seq<char>,
    stem: Seq<char>,
)
    ensures
        watch::sighting_warnings(seq![], dir, room).len() == 0,
        watch::sighting_warning(one, dir, room) is None ==> watch::sighting_warnings(
            seen.push(one),
            dir,
            room,
        ) == watch::sighting_warnings(seen, dir, room),
        watch::sighting_warning(one, dir, room) matches Some(line) ==> watch::sighting_warnings(
            seen.push(one),
            dir,
            room,
        ) == watch::sighting_warnings(seen, dir, room).push(line),
        watch::shown_stem(Some(stem)) == stem,
        watch::shown_stem(None) == "<non-utf8 filename>"@,
{
    assert(seen.push(one).drop_last() =~= seen);
}

/// The history of a channel grows by a message exactly where one is written, and by that message
/// under its id with the body that was sent.
pub proof fn histories_grow_by_what_is_written(
    before: Map<Seq<char>, model::PostView>,
    body: Seq<char>,
    state: channel::PostingView,
    event: channel::PostingEventView,
    id: Seq<char>,
)
    ensures
        !(state is Write && event is Written) ==> history::kept(before, body, state, event)
            == before,
        state is Write && event is Written ==> {
            let message = state->Write_message;
            let after = history::kept(before, body, state, event);
            &&& after.contains_key(message.id)
            &&& after[message.id].message == message
            &&& after[message.id].body == body
            &&& id != message.id && before.contains_key(id) ==> after.contains_key(id) && after[id]
                == before[id]
            &&& id != message.id && !before.contains_key(id) ==> !after.contains_key(id)
        },
{
}

/// The schema names every error code once, with its name, its exit status and whether a retry may
/// help, and begins its laws with those that bind the reader of mail.
pub proof fn the_schema_tells_every_code(code: ErrorCode)
    ensures
        exists|i: int|
            0 <= i < error::all_codes().len() && #[trigger] error::all_codes()[i] == code,
        schema::code_row(code).code == code.name(),
        schema::code_row(code).exit == code.exit(),
        schema::code_row(code).retryable <==> code.exit() == 75,
        schema::laws_spec().take(4) == output::mail_laws(),
{
    let all = error::all_codes();
    let i: int = match code {
        ErrorCode::UnknownRoom => 0,
        ErrorCode::BlockedRoute => 1,
        ErrorCode::ReservedSender => 2,
        ErrorCode::EmptyBody => 3,
        ErrorCode::AmbiguousId => 4,
        ErrorCode::NotFound => 5,
        ErrorCode::InvalidArgument => 6,
        ErrorCode::ConfigInvalid => 7,
        ErrorCode::DuplicateWorkspace => 8,
        ErrorCode::IoError => 9,
        ErrorCode::DeliveredOutputFailure => 10,
        ErrorCode::DeliveredUnarchived => 11,
        ErrorCode::NotAMember => 12,
        ErrorCode::CrossedSend => 13,
    };
    assert(all[i] == code);
    assert(schema::laws_spec().take(4) =~= output::mail_laws());
}

/// A mail file is sound exactly when its envelope is and it lies under its own id.
pub proof fn mail_lies_under_its_id(path: Seq<char>, e: model::EnvelopeView)
    ensures
        mail::mail_fault(path, e) is None <==> mail::envelope_fault(e) is None && (
        paths::file_name(path) matches Some(name) && paths::stem(name) == e.id),
        mail::envelope_fault(e) is Some ==> mail::mail_fault(path, e) == mail::envelope_fault(e),
{
}

} // verus!
