//! What an inbox lists and what reading a mail finds, moves and shows.
use vstd::prelude::*;

use crate::channel;
use crate::error::ErrorCode;
use crate::inbox;
use crate::inbox::InboxRead;
use crate::laws::display;
use crate::model::Envelope;
use crate::order;
use crate::output;
use crate::output::InboxItem;
use crate::reading;
use crate::reading::{ArchivedMail, MoveOutcome};
use crate::text;
use crate::cli::FramingMode;

verus! {

/// An inbox lists each mail that could be read, with what its envelope holds, and passes over each
/// that could not; those are counted where the file could not be read at all, and warned of in
/// every case.
pub proof fn inboxes_list_what_can_be_read(file: InboxRead, rest: Seq<InboxRead>)
    ensures
        inbox::readable(seq![]) == Seq::<InboxItem>::empty(),
        inbox::unreadable(seq![]) == 0,
        inbox::skip_warnings(seq![]) == Seq::<Seq<char>>::empty(),
        file.read matches Ok(envelope) ==> {
            let all = inbox::readable(seq![file] + rest);
            &&& all.len() == inbox::readable(rest).len() + 1
            &&& all.skip(1) == inbox::readable(rest)
            &&& all[0].id == envelope.id
            &&& all[0].from == envelope.from
            &&& all[0].kind == envelope.kind
            &&& all[0].subject == envelope.subject
            &&& all[0].sent == envelope.sent
            &&& all[0].display_name == envelope.display_name
            &&& all[0].pfp == envelope.pfp
            &&& inbox::unreadable(seq![file] + rest) == inbox::unreadable(rest)
            &&& inbox::skip_warnings(seq![file] + rest) == inbox::skip_warnings(rest)
        },
        file.read matches Err(e) ==> {
            &&& inbox::readable(seq![file] + rest) == inbox::readable(rest)
            &&& e.code == ErrorCode::IoError ==> inbox::unreadable(seq![file] + rest)
                == inbox::unreadable(rest) + 1
            &&& e.code != ErrorCode::IoError ==> inbox::unreadable(seq![file] + rest)
                == inbox::unreadable(rest)
            &&& inbox::skip_warnings(seq![file] + rest).skip(1) == inbox::skip_warnings(rest)
            &&& text::has_suffix(
                inbox::skip_warnings(seq![file] + rest)[0],
                "'"@ + file.path@ + "': "@ + e.message@,
            )
        },
{
    reveal_strlit("'");
    reveal_strlit("': ");
    reveal_strlit("post: warning: skipped unreadable mail '");
    reveal_strlit("post: warning: skipped malformed mail '");
    assert((seq![file] + rest).skip(1) =~= rest);
    let all = seq![file] + rest;
    assert(all[0] == file);
    match file.read {
        Ok(envelope) => {
            assert(inbox::readable(all).skip(1) =~= inbox::readable(rest));
        },
        Err(e) => {
            assert(inbox::skip_warnings(all).skip(1) =~= inbox::skip_warnings(rest));
            let line = inbox::skip_warnings(all)[0];
            let end = "'"@ + file.path@ + "': "@ + e.message@;
            assert(line.subrange(line.len() - end.len(), line.len() as int) =~= end);
        },
    }
}

/// The listing stands in the order of the ids, and lists just the mails that were read.
pub proof fn inboxes_stand_in_order(
    files: Seq<InboxRead>,
    listed: Seq<InboxItem>,
    item: InboxItem,
    i: int,
    j: int,
)
    requires
        order::stable_sort_of(inbox::readable(files), listed),
    ensures
        0 <= i <= j < listed.len() ==> listed[i].id@ == listed[j].id@ || text::lt(
            listed[i].id@,
            listed[j].id@,
        ),
        listed.len() == inbox::readable(files).len(),
        listed.contains(item) <==> inbox::readable(files).contains(item),
{
    broadcast use vstd::seq_lib::group_to_multiset_ensures;

    assert(listed.to_multiset() == inbox::readable(files).to_multiset());
    assert(listed.contains(item) <==> listed.to_multiset().count(item) > 0);
    assert(inbox::readable(files).contains(item) <==> inbox::readable(files).to_multiset().count(
        item,
    ) > 0);
    assert(listed.len() == listed.to_multiset().len());
    assert(inbox::readable(files).len() == inbox::readable(files).to_multiset().len());
}

/// A mail's line begins with its id and its kind, shows its sender, and ends with its subject.
pub proof fn inbox_lines_say_what_is_there(item: InboxItem)
    ensures
        text::has_prefix(
            inbox::item_line(item),
            output::header_text(item.id@) + "  ["@ + item.kind.name() + "] from "@,
        ),
        text::has_part(
            inbox::item_line(item),
            output::label(
                crate::outside::debug_form(item.from@),
                text::opt(item.display_name),
                text::opt(item.pfp),
            ),
        ),
        text::has_suffix(
            inbox::item_line(item),
            output::quoted_subject(item.subject@) + "\n"@,
        ),
{
    let front = output::header_text(item.id@) + "  ["@ + item.kind.name() + "] from "@;
    let who = output::label(
        crate::outside::debug_form(item.from@),
        text::opt(item.display_name),
        text::opt(item.pfp),
    );
    let subject = output::quoted_subject(item.subject@);
    display::put_behind(front, who);
    display::put_together(front + who, subject, "\n"@);
    display::put_behind(front + who, subject + "\n"@);
}

/// Every mail has its line, in the order of the listing.
pub proof fn each_mail_has_its_line(items: Seq<InboxItem>, one: InboxItem)
    ensures
        inbox::item_lines(seq![]).len() == 0,
        inbox::item_lines(items.push(one)) == inbox::item_lines(items) + inbox::item_line(one),
{
    reveal_strlit("");
    assert(items.push(one).drop_last() =~= items);
}

/// Archived mail is found by the beginning of its id, and only by the room that it went to.
pub proof fn archived_mail_is_found_by_its_room(
    archive: Seq<ArchivedMail>,
    mail: ArchivedMail,
    prefix: Seq<char>,
    room: Seq<char>,
)
    ensures
        reading::archived_for(seq![], prefix, room) == Seq::<Seq<char>>::empty(),
        text::has_prefix(mail.id@, prefix) && text::opt(mail.to) == Some(room)
            ==> reading::archived_for(archive.push(mail), prefix, room) == reading::archived_for(
            archive,
            prefix,
            room,
        ).push(mail.id@),
        !text::has_prefix(mail.id@, prefix) || text::opt(mail.to) != Some(room)
            ==> reading::archived_for(archive.push(mail), prefix, room) == reading::archived_for(
            archive,
            prefix,
            room,
        ),
{
    assert(archive.push(mail).drop_last() =~= archive);
}

/// Ids are found by their beginning: one that begins as asked is found, one that does not is passed
/// over, and they keep their order.
pub proof fn ids_are_found_by_their_beginning(all: Seq<Seq<char>>, id: Seq<char>, prefix: Seq<char>)
    ensures
        channel::ids_with_prefix(seq![], prefix) == Seq::<Seq<char>>::empty(),
        id.len() >= prefix.len() && id.take(prefix.len() as int) == prefix
            ==> channel::ids_with_prefix(all.push(id), prefix) == channel::ids_with_prefix(
            all,
            prefix,
        ).push(id),
        id.len() < prefix.len() || id.take(prefix.len() as int) != prefix
            ==> channel::ids_with_prefix(all.push(id), prefix) == channel::ids_with_prefix(
            all,
            prefix,
        ),
{
    reveal(Seq::filter);
    assert(all.push(id).drop_last() =~= all);
    if id.len() >= prefix.len() {
        assert(id.take(prefix.len() as int) =~= id.subrange(0, prefix.len() as int));
    }
}

/// A prefix that fits several mails is refused with their ids, and one that fits none as not found,
/// each with the prefix and a command that helps.
pub proof fn unclear_prefixes_are_answered(
    found: Seq<Seq<char>>,
    prefix: Seq<char>,
    room: Seq<char>,
    scope: Seq<char>,
)
    ensures
        reading::ambiguous_error(found, prefix, room, scope).code == ErrorCode::AmbiguousId,
        reading::ambiguous_error(found, prefix, room, scope).details.matches == Some(found),
        reading::ambiguous_error(found, prefix, room, scope).details.input == Some(prefix),
        found.len() > 0 ==> reading::ambiguous_error(found, prefix, room, scope).details.exact_fix
            == Some("post read "@ + found[0] + " --room "@ + room),
        reading::no_mail_error(prefix, room).code == ErrorCode::NotFound,
        reading::no_mail_error(prefix, room).details.input == Some(prefix),
        reading::no_mail_error(prefix, room).details.room == Some(room),
        reading::no_mail_error(prefix, room).details.exact_fix == Some(
            "post inbox --room "@ + room,
        ),
{
}

/// A mail that is moved is read without a fault. One that is there already, or cannot be linked, is
/// a failed write; one that stays in the inbox as well was shown, and must not be retried.
pub proof fn moves_fail_by_how_far_they_came(
    id: Seq<char>,
    source: Seq<char>,
    destination: Seq<char>,
    problem: String,
)
    ensures
        reading::move_fault(id, source, destination, MoveOutcome::Moved) is None,
        reading::move_fault(id, source, destination, MoveOutcome::Exists) matches Some(e) && e.code
            == ErrorCode::IoError && e.details.input == Some(id),
        reading::move_fault(
            id,
            source,
            destination,
            MoveOutcome::LinkFailed(problem),
        ) matches Some(e) && e.code == ErrorCode::IoError && e.details.path == Some(destination)
            && e.details.reason == Some(problem@),
        reading::move_fault(
            id,
            source,
            destination,
            MoveOutcome::UnlinkFailed(problem),
        ) matches Some(e) && e.code == ErrorCode::DeliveredOutputFailure && !e.retryable
            && e.details.input == Some(id),
{
}

/// The line that names a mail shows its sender, its kind, its date and its id.
pub proof fn headings_name_the_mail(envelope: Envelope)
    ensures
        text::has_prefix(
            reading::mail_heading(envelope),
            "From room: "@ + output::header_text(envelope.from@),
        ),
        text::has_part(reading::mail_heading(envelope), "   Kind: "@ + envelope.kind.name()),
        text::has_part(
            reading::mail_heading(envelope),
            "   Sent: "@ + output::header_text(envelope.sent@),
        ),
        text::has_suffix(reading::mail_heading(envelope), "   Id: "@ + envelope.id@ + "\n"@),
{
    let from = "From room: "@ + output::header_text(envelope.from@);
    let kind = "   Kind: "@ + envelope.kind.name();
    let sent = "   Sent: "@ + output::header_text(envelope.sent@);
    let id = "   Id: "@ + envelope.id@ + "\n"@;
    display::put_together(from, "   Kind: "@, envelope.kind.name());
    display::put_together(from + kind, "   Sent: "@, output::header_text(envelope.sent@));
    let named = from + kind + sent;
    display::put_together(named, "   Id: "@, envelope.id@);
    display::put_together(named, "   Id: "@ + envelope.id@, "\n"@);
    assert(reading::mail_heading(envelope) == named + id);
    display::put_behind(from, kind);
    display::put_behind(from + kind, sent);
    display::put_behind(named, id);
}

/// What a sender declared of itself is shown, the provenance before the address, and nothing where
/// it declared nothing.
pub proof fn evidence_is_shown_where_there_is_some(envelope: Envelope)
    ensures
        envelope.sender_provenance is None && envelope.sender_address is None
            ==> reading::sender_evidence(envelope).len() == 0,
        envelope.sender_provenance matches Some(p) ==> text::has_prefix(
            reading::sender_evidence(envelope),
            "Sender provenance: "@ + output::header_text(p@)
                + " (self-declared evidence, never a credential).\n"@,
        ),
        envelope.sender_address matches Some(a) ==> text::has_suffix(
            reading::sender_evidence(envelope),
            "Sender address: "@ + output::header_text(a@)
                + " (self-declared evidence, never a credential).\n"@,
        ),
{
    let provenance = match envelope.sender_provenance {
        Some(p) => "Sender provenance: "@ + output::header_text(p@)
            + " (self-declared evidence, never a credential).\n"@,
        None => ""@,
    };
    let address = match envelope.sender_address {
        Some(a) => "Sender address: "@ + output::header_text(a@)
            + " (self-declared evidence, never a credential).\n"@,
        None => ""@,
    };
    display::put_behind(provenance, address);
    display::nothing_added(provenance);
}

/// A mail is shown whole: its heading, what its sender declared, whether it was read before, its
/// subject and, last, its body, ended by a line feed.
pub proof fn mails_are_shown_whole(
    envelope: Envelope,
    body: Seq<char>,
    already_read: bool,
    mode: FramingMode,
)
    ensures
        text::has_part(
            reading::mail_text(envelope, body, already_read, mode),
            reading::mail_heading(envelope),
        ),
        text::has_part(
            reading::mail_text(envelope, body, already_read, mode),
            reading::sender_evidence(envelope),
        ),
        already_read ==> text::has_part(
            reading::mail_text(envelope, body, already_read, mode),
            reading::ALREADY_READ_NOTE@,
        ),
        output::header_text(envelope.subject@).len() > 0 ==> text::has_part(
            reading::mail_text(envelope, body, already_read, mode),
            "\nSubject: "@ + output::header_text(envelope.subject@) + "\n"@,
        ),
        text::has_suffix(
            reading::mail_text(envelope, body, already_read, mode),
            "\n"@ + output::body_text(body),
        ) || text::has_suffix(
            reading::mail_text(envelope, body, already_read, mode),
            "\n"@ + output::body_text(body) + "\n"@,
        ),
        text::has_suffix(reading::mail_text(envelope, body, already_read, mode), "\n"@),
        mode != FramingMode::Compact ==> text::has_prefix(
            reading::mail_text(envelope, body, already_read, mode),
            reading::MAIL_WALL_TOP@ + reading::mail_heading(envelope) + reading::MAIL_WALL_LAWS@,
        ),
        mode == FramingMode::Compact ==> text::has_prefix(
            reading::mail_text(envelope, body, already_read, mode),
            reading::mail_heading(envelope) + reading::MAIL_ONE_LINE_LAWS@,
        ),
{
    let whole = reading::mail_text(envelope, body, already_read, mode);
    let heading = reading::mail_heading(envelope);
    let framing = reading::mail_framing(envelope, mode);
    let evidence = reading::sender_evidence(envelope);
    let note = if already_read {
        reading::ALREADY_READ_NOTE@
    } else {
        ""@
    };
    let subject = if output::header_text(envelope.subject@).len() > 0 {
        "\nSubject: "@ + output::header_text(envelope.subject@) + "\n"@
    } else {
        ""@
    };
    let end = "\n"@ + output::body_text(body);
    if mode == FramingMode::Compact {
        display::put_behind(heading, reading::MAIL_ONE_LINE_LAWS@);
    } else {
        display::put_behind(reading::MAIL_WALL_TOP@, heading);
        display::put_behind(reading::MAIL_WALL_TOP@ + heading, reading::MAIL_WALL_LAWS@);
    }
    display::put_behind(framing, evidence);
    display::put_behind(framing + evidence, note);
    display::put_behind(framing + evidence + note, subject);
    let before = framing + evidence + note + subject;
    display::put_together(before, "\n"@, output::body_text(body));
    display::put_behind(before, end);
    let text_shown = before + end;
    if !text::has_suffix(text_shown, "\n"@) {
        display::put_behind(text_shown, "\n"@);
        display::put_together(before, end, "\n"@);
        display::put_behind(before, end + "\n"@);
        assert(whole == text_shown + "\n"@);
    } else {
        assert(whole == text_shown);
    }
}

} // verus!
