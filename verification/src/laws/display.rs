//! What is shown of a text, a sender and an event.
use vstd::prelude::*;

use crate::model::Envelope;
use crate::output;
use crate::output::{WatchEvent, WatchReason};
use crate::outside;
use crate::text;

verus! {

/// What a text ends with and begins with stands in it, and stays there when more is put behind.
pub proof fn put_behind(front: Seq<char>, end: Seq<char>)
    ensures
        text::has_prefix(front + end, front),
        text::has_suffix(front + end, end),
        text::has_part(front + end, front),
        text::has_part(front + end, end),
        forall|part: Seq<char>| #[trigger]
            text::has_prefix(front, part) ==> text::has_prefix(front + end, part),
        forall|part: Seq<char>| #[trigger]
            text::has_part(front, part) ==> text::has_part(front + end, part),
{
    let whole = front + end;
    assert(whole.subrange(0, front.len() as int) =~= front);
    assert(whole.subrange(front.len() as int, whole.len() as int) =~= end);
    assert(text::occurs(whole, front, 0));
    assert(text::occurs(whole, end, front.len() as int));
    assert forall|part: Seq<char>| #[trigger] text::has_prefix(
        front,
        part,
    ) implies text::has_prefix(whole, part) by {
        assert(whole.subrange(0, part.len() as int) =~= front.subrange(0, part.len() as int));
    }
    assert forall|part: Seq<char>| #[trigger] text::has_part(front, part) implies text::has_part(
        whole,
        part,
    ) by {
        let at = choose|at: int| text::occurs(front, part, at);
        assert(whole.subrange(at, at + part.len()) =~= front.subrange(at, at + part.len()));
        assert(text::occurs(whole, part, at));
    }
}

/// Texts that are put one behind the other may be taken together in any way.
pub proof fn put_together(a: Seq<char>, b: Seq<char>, c: Seq<char>)
    ensures
        a + b + c == a + (b + c),
{
    assert(a + b + c =~= a + (b + c));
}

/// An empty text adds nothing.
pub proof fn nothing_added(a: Seq<char>)
    ensures
        a + ""@ == a,
        ""@ + a == a,
        ""@.len() == 0,
{
    reveal_strlit("");
    assert(a + ""@ =~= a);
    assert(""@ + a =~= a);
}

/// A header is shown without the characters that would disturb its line: controls but the tab,
/// bidirectional marks and separators. All others are shown, in their order.
pub proof fn headers_lose_only_what_disturbs_lines(s: Seq<char>, c: char)
    ensures
        output::header_text(seq![]) == Seq::<char>::empty(),
        c as int == 9 ==> output::header_text(s.push(c)) == output::header_text(s).push(c),
        ((c as int) < 32 && c as int != 9) || 0x7f <= c as int <= 0x9f || c as int == 0x061c
            || c as int == 0x200e || c as int == 0x200f || 0x2028 <= c as int <= 0x202e || 0x2066
            <= c as int <= 0x2069 ==> output::header_text(s.push(c)) == output::header_text(s),
        !((c as int) < 32 || 0x7f <= c as int <= 0x9f || c as int == 0x061c || c as int == 0x200e
            || c as int == 0x200f || 0x2028 <= c as int <= 0x202e || 0x2066 <= c as int <= 0x2069)
            ==> output::header_text(s.push(c)) == output::header_text(s).push(c),
{
    reveal(Seq::filter);
    assert(s.push(c).drop_last() =~= s);
}

/// A body is shown without its control characters but line feeds and tabs. All others are shown, in
/// their order.
pub proof fn bodies_lose_only_controls(s: Seq<char>, c: char)
    ensures
        output::body_text(seq![]) == Seq::<char>::empty(),
        c as int == 9 || c as int == 10 ==> output::body_text(s.push(c)) == output::body_text(
            s,
        ).push(c),
        ((c as int) < 32 && c as int != 9 && c as int != 10) || 0x7f <= c as int <= 0x9f
            ==> output::body_text(s.push(c)) == output::body_text(s),
        !((c as int) < 32 || 0x7f <= c as int <= 0x9f) ==> output::body_text(s.push(c))
            == output::body_text(s).push(c),
{
    reveal(Seq::filter);
    assert(s.push(c).drop_last() =~= s);
}

/// A sender without a profile is shown by its room alone; with one, the sigil comes first, then the
/// name, and the room last, in brackets.
pub proof fn senders_are_shown_with_their_room(
    room: Seq<char>,
    name: Seq<char>,
    pfp: Seq<char>,
)
    ensures
        output::label(room, None, None) == room,
        output::label(room, Some(name), None) == output::header_text(name) + " "@ + "("@ + room
            + ")"@,
        output::label(room, None, Some(pfp)) == output::header_text(pfp) + " "@ + "("@ + room
            + ")"@,
        output::label(room, Some(name), Some(pfp)) == (output::header_text(pfp) + " "@) + (
        output::header_text(name) + " "@) + "("@ + room + ")"@,
        text::has_part(output::label(room, Some(name), Some(pfp)), output::header_text(pfp)),
        text::has_part(output::label(room, Some(name), Some(pfp)), output::header_text(name)),
        text::has_part(output::label(room, Some(name), Some(pfp)), room),
{
    let sigil = output::header_text(pfp) + " "@;
    let called = output::header_text(name) + " "@;
    nothing_added(sigil);
    nothing_added(called);
    put_together(sigil, output::header_text(name), " "@);
    put_behind(output::header_text(pfp), " "@);
    put_behind(sigil, output::header_text(name));
    put_behind(sigil + output::header_text(name), " "@);
    put_behind(sigil + called, "("@);
    put_behind(sigil + called + "("@, room);
    put_behind(sigil + called + "("@ + room, ")"@);
}

/// What a mail's listing holds is what its envelope holds.
pub proof fn listings_hold_what_envelopes_hold(envelope: Envelope)
    ensures
        output::item_of(envelope).id == envelope.id,
        output::item_of(envelope).from == envelope.from,
        output::item_of(envelope).kind == envelope.kind,
        output::item_of(envelope).subject == envelope.subject,
        output::item_of(envelope).sent == envelope.sent,
        output::item_of(envelope).display_name == envelope.display_name,
        output::item_of(envelope).pfp == envelope.pfp,
{
}

/// The line of a mail begins with its id, shows its kind and its sender, and ends with its subject.
pub proof fn mail_lines_say_what_came(event: WatchEvent)
    requires
        event is Mail,
    ensures
        ({
            let item = event->Mail_item;
            let line = output::event_line(event);
            &&& text::has_prefix(line, item.id@ + "  ["@ + item.kind.name() + "] from "@)
            &&& text::has_part(
                line,
                output::label(
                    outside::debug_form(item.from@),
                    text::opt(item.display_name),
                    text::opt(item.pfp),
                ),
            )
            &&& text::has_suffix(line, output::quoted_subject(item.subject@) + "\n"@)
        }),
{
    let item = event->Mail_item;
    let front = item.id@ + "  ["@ + item.kind.name() + "] from "@;
    let who = output::label(
        outside::debug_form(item.from@),
        text::opt(item.display_name),
        text::opt(item.pfp),
    );
    let subject = output::quoted_subject(item.subject@);
    put_behind(front, who);
    put_together(front + who, subject, "\n"@);
    put_behind(front + who, subject + "\n"@);
}

/// A mail that cannot be read is shown by its id alone.
pub proof fn unreadable_mail_is_shown_by_its_id(event: WatchEvent)
    requires
        event is Unreadable,
    ensures
        text::has_prefix(output::event_line(event), outside::debug_form(event->Unreadable_id@)),
        text::has_suffix(output::event_line(event), "  [?] unreadable envelope\n"@),
{
    put_behind(outside::debug_form(event->Unreadable_id@), "  [?] unreadable envelope\n"@);
}

/// The line of a message begins with its id and its channel, with an at-sign between them exactly
/// where the room is mentioned, shows its sender, and ends with its subject.
pub proof fn message_lines_say_what_came(event: WatchEvent)
    requires
        event is ChannelMessage,
    ensures
        ({
            let line = output::event_line(event);
            let id = event->ChannelMessage_id@;
            let channel = event->ChannelMessage_channel@;
            &&& event->ChannelMessage_reason == WatchReason::Mention ==> text::has_prefix(
                line,
                id + "  "@ + "@ "@ + "#"@ + channel + " from "@,
            )
            &&& event->ChannelMessage_reason != WatchReason::Mention ==> text::has_prefix(
                line,
                id + "  "@ + "#"@ + channel + " from "@,
            )
            &&& text::has_part(
                line,
                output::label(
                    outside::debug_form(event->ChannelMessage_from@),
                    text::opt(event->ChannelMessage_display_name),
                    text::opt(event->ChannelMessage_pfp),
                ),
            )
            &&& text::has_suffix(
                line,
                output::quoted_subject(event->ChannelMessage_subject@) + "\n"@,
            )
        }),
{
    let id = event->ChannelMessage_id@;
    let channel = event->ChannelMessage_channel@;
    nothing_added(id + "  "@);
    let mark = if event->ChannelMessage_reason == WatchReason::Mention {
        "@ "@
    } else {
        ""@
    };
    let front = id + "  "@ + mark + "#"@ + channel + " from "@;
    let who = output::label(
        outside::debug_form(event->ChannelMessage_from@),
        text::opt(event->ChannelMessage_display_name),
        text::opt(event->ChannelMessage_pfp),
    );
    let subject = output::quoted_subject(event->ChannelMessage_subject@);
    put_behind(front, who);
    put_together(front + who, subject, "\n"@);
    put_behind(front + who, subject + "\n"@);
}

/// A subject is shown behind two spaces and quoted, and an empty one is not shown.
pub proof fn subjects_are_quoted(subject: Seq<char>)
    ensures
        subject.len() == 0 ==> output::quoted_subject(subject).len() == 0,
        subject.len() > 0 ==> output::quoted_subject(subject) == "  "@ + outside::debug_form(
            subject,
        ),
{
    reveal_strlit("");
}

/// The reasons for an event have three names.
pub proof fn reasons_have_their_names(reason: WatchReason)
    ensures
        reason == WatchReason::Mail ==> reason.name() == "mail"@,
        reason == WatchReason::Channel ==> reason.name() == "channel"@,
        reason == WatchReason::Mention ==> reason.name() == "mention"@,
{
}

/// Mail comes with four laws and channel messages with a fifth in front of them: all of them say
/// that what an agent wrote is data.
pub proof fn messages_come_with_their_laws()
    ensures
        output::mail_laws().len() == 4,
        output::channel_laws().len() == 5,
        output::channel_laws().skip(1) == output::mail_laws(),
        output::channel_laws()[0] == output::LAW_MULTI@,
        output::mail_laws().contains(output::LAW_DATA@),
        output::mail_laws().contains(output::LAW_AUTHORITY@),
        output::mail_laws().contains(output::LAW_PERMISSION@),
        output::mail_laws().contains(output::LAW_VERIFY@),
{
    let laws = output::mail_laws();
    assert(laws[0] == output::LAW_DATA@);
    assert(laws[1] == output::LAW_AUTHORITY@);
    assert(laws[2] == output::LAW_PERMISSION@);
    assert(laws[3] == output::LAW_VERIFY@);
    assert(output::channel_laws().skip(1) =~= laws);
}

} // verus!
