//! Direct mail: what is asked for is what is delivered, and what is refused.
use crate::cli::SendArgs;
use crate::delivery;
use crate::delivery::Draft;
use crate::error;
use crate::error::ErrorCode;
use crate::ids;
use crate::laws::routes;
use crate::mail;
use crate::model;
use crate::model::{Envelope, MailKind, SenderProvenance};
use crate::names;
use crate::send;
use crate::text;
use vstd::prelude::*;

verus! {

/// Whether an envelope is that of a draft, field by field, under whatever id.
pub open spec fn carries_the_draft(e: model::EnvelopeView, draft: Draft) -> bool {
    &&& e.from == draft.from@
    &&& e.to == draft.to@
    &&& e.kind == draft.kind
    &&& e.subject == draft.subject@
    &&& e.sent == draft.sent@
    &&& e.display_name is Some <==> draft.display_name is Some
    &&& draft.display_name matches Some(name) ==> e.display_name == Some(name@)
    &&& e.pfp is Some <==> draft.pfp is Some
    &&& draft.pfp matches Some(pfp) ==> e.pfp == Some(pfp@)
    &&& e.sender_address is Some <==> draft.sender_address is Some
    &&& draft.sender_address matches Some(address) ==> e.sender_address == Some(address@)
    &&& e.sender_provenance == match draft.provenance {
        SenderProvenance::DeclaredEnv => Some("declared-env"@),
        SenderProvenance::DeclaredFlag => Some("declared-flag"@),
        SenderProvenance::InferredCwd => Some("inferred-cwd"@),
        SenderProvenance::InferredBasename => Some("inferred-basename"@),
    }
}

/// What is delivered is what was drafted. Whatever the store answers, a mail that is on its way
/// or delivered has the sender, the recipient, the kind, the subject, the time, the profile and
/// the evidence of its draft, each as it is there, and an id that the store gave.
pub proof fn delivered_mail_is_the_draft(
    root: Seq<char>,
    draft: Draft,
    events: Seq<delivery::EventView>,
)
    ensures
        match delivery::run(
            root,
            draft,
            delivery::DeliveryView::NeedId { attempt: 0, inbox: None },
            events,
        ) {
            delivery::DeliveryView::CheckRoute { attempt, inbox, envelope } => carries_the_draft(
                envelope,
                draft,
            ) && events.contains(delivery::EventView::Id(envelope.id)),
            delivery::DeliveryView::PrepareStore { attempt, envelope } => carries_the_draft(
                envelope,
                draft,
            ) && events.contains(delivery::EventView::Id(envelope.id)),
            delivery::DeliveryView::WriteInbox { attempt, inbox, envelope } => carries_the_draft(
                envelope,
                draft,
            ) && events.contains(delivery::EventView::Id(envelope.id)),
            delivery::DeliveryView::WriteArchive { inbox, envelope } => carries_the_draft(
                envelope,
                draft,
            ) && events.contains(delivery::EventView::Id(envelope.id)),
            delivery::DeliveryView::Delivered { envelope } => carries_the_draft(envelope, draft)
                && events.contains(delivery::EventView::Id(envelope.id)),
            _ => true,
        },
    decreases events.len(),
{
    if events.len() > 0 {
        let before = events.drop_last();
        delivered_mail_is_the_draft(root, draft, before);
        assert(events[events.len() - 1] == events.last());
        assert forall|e: delivery::EventView| before.contains(e) implies events.contains(e) by {
            let i = choose|i: int| 0 <= i < before.len() && before[i] == e;
            assert(events[i] == e);
        }
    }
}

/// Drafts that differ in a field are delivered as mails that differ in it: no two drafts share
/// an envelope unless their sender, recipient, kind, subject and time are the same.
pub proof fn different_drafts_give_different_mail(one: Draft, two: Draft, id: Seq<char>)
    requires
        delivery::envelope_of(one, id) == delivery::envelope_of(two, id),
    ensures
        one.from@ == two.from@,
        one.to@ == two.to@,
        one.kind == two.kind,
        one.subject@ == two.subject@,
        one.sent@ == two.sent@,
        one.provenance == two.provenance,
{
    reveal_strlit("declared-env");
    reveal_strlit("declared-flag");
    reveal_strlit("inferred-cwd");
    reveal_strlit("inferred-basename");
    let a = one.provenance.name();
    let b = two.provenance.name();
    assert(Some(a) == Some(b));
    assert(a.len() == b.len());
    assert(a[0] == b[0]);
}

/// Whether a text holds a character that is no white space.
pub open spec fn has_content(s: Seq<char>) -> bool {
    exists|i: int| 0 <= i < s.len() && !text::is_white(#[trigger] s[i])
}

/// An envelope is accepted exactly if its id, its ends and its time are not blank, its id has
/// the form of a mail id, and its profile texts hold nothing that could forge a line.
pub proof fn envelopes_are_accepted_by_their_fields(e: model::EnvelopeView)
    ensures
        mail::envelope_fault(e) is None <==> {
            &&& has_content(e.id)
            &&& has_content(e.from)
            &&& has_content(e.to)
            &&& has_content(e.sent)
            &&& e.id.len() == 22
            &&& e.id[8] == '-'
            &&& e.id[15] == '-'
            &&& forall|i: int|
                0 <= i < 15 && i != 8 ==> '0' <= #[trigger] e.id[i] && e.id[i] <= '9'
            &&& forall|i: int|
                16 <= i < 22 ==> text::is_hex_digit(#[trigger] e.id[i])
            &&& e.display_name matches Some(name) ==> forall|i: int|
                0 <= i < name.len() ==> !names::is_refused(#[trigger] name[i])
            &&& e.pfp matches Some(pfp) ==> forall|i: int|
                0 <= i < pfp.len() ==> !names::is_refused(#[trigger] pfp[i])
        },
{
    let id = e.id;
    if ids::mail_id_shape(id) {
        assert forall|i: int| 0 <= i < 15 && i != 8 implies '0' <= #[trigger] id[i] && id[i]
            <= '9' by {
            assert(text::is_digit(id[i]));
        }
        assert forall|i: int| 16 <= i < 22 implies text::is_hex_digit(#[trigger] id[i]) by {}
    }
    if id.len() == 22 && (forall|i: int|
        0 <= i < 15 && i != 8 ==> '0' <= #[trigger] id[i] && id[i] <= '9') {
        assert forall|i: int| 0 <= i < 8 implies text::is_digit(#[trigger] id[i]) by {}
        assert forall|i: int| 9 <= i < 15 implies text::is_digit(#[trigger] id[i]) by {}
    }
}

/// The way of a mail that nothing hinders: with a sound envelope and rules that name no route
/// from its sender to its recipient, it ends delivered, under the id that it was given.
pub proof fn unhindered_mail_is_delivered(
    root: Seq<char>,
    draft: Draft,
    id: Seq<char>,
    inbox: Seq<char>,
    rules: Seq<model::RuleView>,
)
    requires
        mail::envelope_fault(delivery::envelope_of(draft, id)) is None,
        forall|i: int|
            0 <= i < rules.len() ==> ((#[trigger] rules[i]).from != "*"@ && rules[i].from
                != draft.from@) || (rules[i].to != "*"@ && rules[i].to != draft.to@),
    ensures
        ({
            let end = delivery::run(
                root,
                draft,
                delivery::DeliveryView::NeedId { attempt: 0, inbox: None },
                seq![
                    delivery::EventView::Id(id),
                    delivery::EventView::Rules(rules),
                    delivery::EventView::Store(inbox),
                    delivery::EventView::Rules(rules),
                    delivery::EventView::Written,
                    delivery::EventView::Written,
                ],
            );
            &&& end is Delivered
            &&& end->Delivered_envelope.id == id
            &&& carries_the_draft(end->Delivered_envelope, draft)
        }),
{
    let start = delivery::DeliveryView::NeedId { attempt: 0, inbox: None };
    let six = seq![
        delivery::EventView::Id(id),
        delivery::EventView::Rules(rules),
        delivery::EventView::Store(inbox),
        delivery::EventView::Rules(rules),
        delivery::EventView::Written,
        delivery::EventView::Written,
    ];
    let five = six.drop_last();
    let four = five.drop_last();
    let three = four.drop_last();
    let two = three.drop_last();
    let one = two.drop_last();
    let envelope = delivery::envelope_of(draft, id);
    routes::sends_are_refused_exactly_on_named_routes(rules, draft.from@, draft.to@);
    assert(one.drop_last() =~= Seq::<delivery::EventView>::empty());
    assert(delivery::run(root, draft, start, one.drop_last()) == start);
    assert(delivery::run(root, draft, start, one) == (delivery::DeliveryView::CheckRoute {
        attempt: 0,
        inbox: None,
        envelope,
    }));
    assert(delivery::run(root, draft, start, two) == (delivery::DeliveryView::PrepareStore {
        attempt: 0,
        envelope,
    }));
    assert(delivery::run(root, draft, start, three) == (delivery::DeliveryView::CheckRoute {
        attempt: 0,
        inbox: Some(inbox),
        envelope,
    }));
    assert(delivery::run(root, draft, start, four) == (delivery::DeliveryView::WriteInbox {
        attempt: 0,
        inbox,
        envelope,
    }));
    assert(delivery::run(root, draft, start, five) == (delivery::DeliveryView::WriteArchive {
        inbox,
        envelope,
    }));
    assert(delivery::run(root, draft, start, six) == (delivery::DeliveryView::Delivered {
        envelope,
    }));
    assert(carries_the_draft(envelope, draft));
}

/// What the answers of the store mean to a mail that is being written. Written to the inbox, it
/// goes to the archive; a taken name costs one of 256 attempts; a failure ends the delivery,
/// and may be repeated only as long as nothing lies in the inbox.
pub proof fn the_store_decides_the_rest(
    root: Seq<char>,
    draft: Draft,
    attempt: int,
    inbox: Seq<char>,
    envelope: model::EnvelopeView,
    problem: Seq<char>,
)
    ensures
        ({
            let writing = delivery::DeliveryView::WriteInbox { attempt, inbox, envelope };
            let archiving = delivery::DeliveryView::WriteArchive { inbox, envelope };
            let failed = delivery::next(
                root,
                draft,
                writing,
                delivery::EventView::WriteFailed(problem),
            );
            let lost = delivery::next(
                root,
                draft,
                archiving,
                delivery::EventView::WriteFailed(problem),
            );
            let taken = delivery::next(root, draft, archiving, delivery::EventView::Exists(problem));
            &&& delivery::next(root, draft, writing, delivery::EventView::Written) == archiving
            &&& delivery::next(root, draft, archiving, delivery::EventView::Written) == (
            delivery::DeliveryView::Delivered { envelope })
            &&& attempt < 255 ==> delivery::next(
                root,
                draft,
                writing,
                delivery::EventView::Exists(problem),
            ) == (delivery::DeliveryView::NeedId { attempt: attempt + 1, inbox: Some(inbox) })
            &&& attempt >= 255 ==> delivery::next(
                root,
                draft,
                writing,
                delivery::EventView::Exists(problem),
            ) is Failed
            &&& failed is Failed && failed->error.code == ErrorCode::IoError
                && failed->error.retryable && failed->error.details.reason == Some(problem)
            &&& lost is Failed && lost->error.code == ErrorCode::DeliveredUnarchived
                && !lost->error.retryable && lost->error.details.id == Some(envelope.id)
            &&& taken is Failed && taken->error.code == ErrorCode::DeliveredUnarchived
                && !taken->error.retryable && taken->error.details.id == Some(envelope.id)
        }),
{
}

/// A request is let through exactly if the sender does not write to themselves unasked, the
/// recipient is registered, and the subject fits in 1024 bytes; the error names what is wrong.
pub proof fn requests_are_refused_by_their_fields(
    sender: Seq<char>,
    args: SendArgs,
    rooms: Map<Seq<char>, String>,
    known: Seq<Seq<char>>,
)
    ensures
        ({
            let fault = send::request_fault(sender, args, rooms, known);
            &&& fault is None <==> (sender != args.to@ || args.allow_self) && rooms.contains_key(
                args.to@,
            ) && text::byte_len(args.subject@) <= 1024
            &&& sender == args.to@ && !args.allow_self ==> fault is Some && fault->0.code
                == ErrorCode::InvalidArgument && fault->0.details.input == Some(sender)
            &&& (sender != args.to@ || args.allow_self) && !rooms.contains_key(args.to@)
                ==> fault is Some && fault->0.code == ErrorCode::UnknownRoom
                && fault->0.details.input == Some(args.to@)
        }),
{
}

/// A member of an object is read by its name: the first member of that name counts.
pub proof fn members_are_found_by_name(
    members: Seq<(Seq<char>, Option<Seq<char>>)>,
    name: Seq<char>,
)
    ensures
        send::string_member(members, name) matches Some(value) ==> exists|i: int|
            0 <= i < members.len() && (#[trigger] members[i]).0 == name && members[i].1 == Some(
                value,
            ),
        (forall|i: int| 0 <= i < members.len() ==> (#[trigger] members[i]).0 != name)
            ==> send::string_member(members, name) is None,
        members.len() > 0 && members[0].0 == name ==> send::string_member(members, name)
            == members[0].1,
    decreases members.len(),
{
    if members.len() > 0 && members[0].0 != name {
        let rest = members.skip(1);
        members_are_found_by_name(rest, name);
        if let Some(value) = send::string_member(rest, name) {
            let i = choose|i: int|
                0 <= i < rest.len() && (#[trigger] rest[i]).0 == name && rest[i].1 == Some(value);
            assert(members[i + 1] == rest[i]);
        }
        if forall|i: int| 0 <= i < members.len() ==> (#[trigger] members[i]).0 != name {
            assert forall|i: int| 0 <= i < rest.len() implies (#[trigger] rest[i]).0 != name by {
                assert(members[i + 1] == rest[i]);
            }
        }
    }
}

/// What a watch prints is recognized in a body: an object with a text for each of the fields of
/// an event of its kind, and nothing less.
pub proof fn watch_events_are_recognized(members: Seq<(Seq<char>, Option<Seq<char>>)>)
    ensures
        send::string_member(members, "event"@) == Some("mail"@) ==> (send::watch_event(members)
            <==> send::string_member(members, "room"@) is Some && send::string_member(
            members,
            "id"@,
        ) is Some && send::string_member(members, "from"@) is Some && send::string_member(
            members,
            "kind"@,
        ) is Some && send::string_member(members, "subject"@) is Some && send::string_member(
            members,
            "sent"@,
        ) is Some),
        send::string_member(members, "event"@) == Some("unreadable"@) ==> (send::watch_event(
            members,
        ) <==> send::string_member(members, "room"@) is Some && send::string_member(members, "id"@)
            is Some),
        send::string_member(members, "event"@) == Some("channel_message"@) ==> (send::watch_event(
            members,
        ) <==> send::string_member(members, "channel"@) is Some && send::string_member(
            members,
            "id"@,
        ) is Some && send::string_member(members, "from"@) is Some && send::string_member(
            members,
            "subject"@,
        ) is Some && send::string_member(members, "sent"@) is Some),
        send::watch_event(members) ==> send::string_member(members, "event"@) == Some("mail"@)
            || send::string_member(members, "event"@) == Some("unreadable"@)
            || send::string_member(members, "event"@) == Some("channel_message"@),
{
    reveal_strlit("mail");
    reveal_strlit("unreadable");
    reveal_strlit("channel_message");
    assert("mail"@.len() != "unreadable"@.len());
    assert("mail"@.len() != "channel_message"@.len());
    assert("unreadable"@.len() != "channel_message"@.len());
}

/// An address is taken exactly if it holds something, fits in 256 bytes and holds neither white
/// space nor controls.
pub proof fn addresses_are_checked_by_their_characters(value: Seq<char>)
    ensures
        send::address_fault(value) is None <==> value.len() > 0 && text::byte_len(value) <= 256 && (
        forall|i: int|
            0 <= i < value.len() ==> !text::is_white(#[trigger] value[i]) && !text::is_control(
                value[i],
            )),
{
}

/// An envelope, as a value, holds each field of the envelope.
pub proof fn envelopes_are_seen_as_they_are(e: Envelope)
    ensures
        e@.id == e.id@,
        e@.from == e.from@,
        e@.to == e.to@,
        e@.kind == e.kind,
        e@.subject == e.subject@,
        e@.sent == e.sent@,
        e.display_name matches Some(v) ==> e@.display_name == Some(v@),
        e.display_name is None ==> e@.display_name is None,
        e.pfp matches Some(v) ==> e@.pfp == Some(v@),
        e.pfp is None ==> e@.pfp is None,
        e.sender_address matches Some(v) ==> e@.sender_address == Some(v@),
        e.sender_address is None ==> e@.sender_address is None,
        e.sender_provenance matches Some(v) ==> e@.sender_provenance == Some(v@),
        e.sender_provenance is None ==> e@.sender_provenance is None,
{
}

/// The kinds of mail have the names that the wire knows.
pub proof fn kinds_have_their_names()
    ensures
        MailKind::Letter.name() == "letter"@,
        MailKind::Note.name() == "note"@,
        MailKind::Signal.name() == "signal"@,
{
}

/// A mail is accepted from a file exactly if its envelope is, and the file's name without its
/// extension is the id.
pub proof fn mail_files_carry_their_ids(path: Seq<char>, e: model::EnvelopeView)
    ensures
        mail::mail_fault(path, e) is None <==> mail::envelope_fault(e) is None
            && mail::named_after(path, e.id),
        mail::mail_fault(path, e) is None ==> mail::config_error(path, mail::mail_fault(path, e))
            is None,
        mail::mail_fault(path, e) matches Some(reason) ==> (mail::config_error(
            path,
            mail::mail_fault(path, e),
        ) matches Some(error) && error.code == ErrorCode::ConfigInvalid && error.details.path
            == Some(path) && error.details.reason == Some(reason)),
{
}

} // verus!
