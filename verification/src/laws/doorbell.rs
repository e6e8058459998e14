//! The doorbell: who hears what, and what a ring says.
use crate::model::{ChannelMessage, Envelope};
use crate::output::{WatchEvent, WatchReason};
use crate::text;
use crate::watch;
use crate::watch::{
    ChannelSighting, MailOutcome, MailSighting, MessageLook, MessageOutcome, MessageSighting,
};
use vstd::prelude::*;

verus! {

/// Whether an entry is a channel in order, with this name, that lists a room as a member and
/// holds this file.
pub open spec fn offers(
    entry: ChannelSighting,
    room: Seq<char>,
    name: Seq<char>,
    file: Seq<char>,
) -> bool {
    match entry {
        ChannelSighting::Channel { name: n, info_problem, members, files } => {
            &&& n@ == name
            &&& info_problem is None
            &&& members matches Ok(m) && m@.contains_key(room)
            &&& files matches Ok(f) && exists|j: int|
                0 <= j < f@.len() && (#[trigger] f@[j])@ == file
        },
        _ => false,
    }
}

/// Every member of a channel hears all of its files, whichever place it has among the members,
/// and nobody else hears any: a room hears a file exactly if some channel that is in order
/// lists the room as a member and holds the file.
pub proof fn members_and_only_members_hear_a_channel(
    seen: Seq<ChannelSighting>,
    room: Seq<char>,
    name: Seq<char>,
    file: Seq<char>,
)
    ensures
        watch::all_heard(seen, room).contains((name, file)) <==> exists|k: int|
            0 <= k < seen.len() && offers(#[trigger] seen[k], room, name, file),
    decreases seen.len(),
{
    if seen.len() > 0 {
        let before = seen.drop_last();
        let last = seen.last();
        let n = seen.len() - 1;
        let some = watch::all_heard(before, room);
        let own = watch::heard_files(last, room);
        let all = watch::all_heard(seen, room);
        assert(all == some + own);
        members_and_only_members_hear_a_channel(before, room, name, file);
        own_files_are_offered(last, room, name, file);
        assert(seen[n] == last);
        if all.contains((name, file)) {
            let i = choose|i: int| 0 <= i < all.len() && all[i] == (name, file);
            if i < some.len() {
                assert(some[i] == (name, file));
                let k = choose|k: int|
                    0 <= k < before.len() && offers(#[trigger] before[k], room, name, file);
                assert(seen[k] == before[k]);
            } else {
                assert(own[i - some.len()] == (name, file));
                assert(own.contains((name, file)));
            }
        }
        if exists|k: int| 0 <= k < seen.len() && offers(#[trigger] seen[k], room, name, file) {
            let k = choose|k: int|
                0 <= k < seen.len() && offers(#[trigger] seen[k], room, name, file);
            if k < n {
                assert(before[k] == seen[k]);
                let i = choose|i: int| 0 <= i < some.len() && some[i] == (name, file);
                assert(all[i] == some[i]);
            } else {
                let i = choose|i: int| 0 <= i < own.len() && own[i] == (name, file);
                assert(all[some.len() + i] == own[i]);
            }
        }
    }
}

proof fn own_files_are_offered(
    entry: ChannelSighting,
    room: Seq<char>,
    name: Seq<char>,
    file: Seq<char>,
)
    ensures
        watch::heard_files(entry, room).contains((name, file)) <==> offers(entry, room, name, file),
{
    let own = watch::heard_files(entry, room);
    if own.contains((name, file)) {
        let i = choose|i: int| 0 <= i < own.len() && own[i] == (name, file);
        let f = entry->files->Ok_0;
        assert(f@[i]@ == file);
    }
    if offers(entry, room, name, file) {
        let f = entry->files->Ok_0;
        let j = choose|j: int| 0 <= j < f@.len() && (#[trigger] f@[j])@ == file;
        assert(own[j] == (name, file));
    }
}

/// A channel is heard once, in its place: one more entry adds its own files, one for each, if
/// it is a channel in order that lists the room, and nothing otherwise.
pub proof fn one_more_channel_adds_its_files(
    seen: Seq<ChannelSighting>,
    entry: ChannelSighting,
    room: Seq<char>,
)
    ensures
        watch::all_heard(seq![], room).len() == 0,
        watch::all_heard(seen.push(entry), room).len() == watch::all_heard(seen, room).len() + (
        match entry {
            ChannelSighting::Channel { info_problem: None, members: Ok(m), files: Ok(f), .. } => {
                if m@.contains_key(room) {
                    f@.len()
                } else {
                    0
                }
            },
            _ => 0,
        }),
        watch::all_heard(seen.push(entry), room).take(watch::all_heard(seen, room).len() as int)
            == watch::all_heard(seen, room),
{
    assert(seen.push(entry).drop_last() =~= seen);
    assert(watch::all_heard(seen.push(entry), room).take(
        watch::all_heard(seen, room).len() as int,
    ) =~= watch::all_heard(seen, room));
}

/// Members hear alike: two rooms that the same channels list hear the same files.
pub proof fn members_hear_alike(
    seen: Seq<ChannelSighting>,
    one: Seq<char>,
    two: Seq<char>,
)
    requires
        forall|k: int|
            0 <= k < seen.len() ==> match #[trigger] seen[k] {
                ChannelSighting::Channel { members: Ok(m), .. } => m@.contains_key(one)
                    == m@.contains_key(two),
                _ => true,
            },
    ensures
        watch::all_heard(seen, one) == watch::all_heard(seen, two),
    decreases seen.len(),
{
    if seen.len() > 0 {
        let before = seen.drop_last();
        assert forall|k: int| 0 <= k < before.len() implies match #[trigger] before[k] {
            ChannelSighting::Channel { members: Ok(m), .. } => m@.contains_key(one)
                == m@.contains_key(two),
            _ => true,
        } by {
            assert(seen[k] == before[k]);
        }
        members_hear_alike(before, one, two);
        assert(seen[seen.len() - 1] == seen.last());
        assert(watch::heard_files(seen.last(), one) =~= watch::heard_files(seen.last(), two));
    }
}

/// Something is said of an entry exactly if it could not be read, has a name that cannot be a
/// channel's, or is a channel that is out of order, or whose files cannot be listed for a
/// member. What is no channel, and what the room does not belong to, is passed over in silence.
pub proof fn only_troubled_entries_are_spoken_of(
    entry: ChannelSighting,
    dir: Seq<char>,
    room: Seq<char>,
)
    ensures
        watch::sighting_warning(entry, dir, room) is Some <==> match entry {
            ChannelSighting::Unread(_) => true,
            ChannelSighting::Other => false,
            ChannelSighting::Nameless => true,
            ChannelSighting::Invalid { .. } => true,
            ChannelSighting::Channel { name, info_problem, members, files } => info_problem is Some
                || members is Err || (members->Ok_0@.contains_key(room) && files is Err),
        },
{
}

/// A mail file rings exactly if it was not looked at and is still there.
pub proof fn new_mail_rings(seen: Set<Seq<char>>, m: MailSighting)
    ensures
        watch::mail_rings(seen, m) <==> !seen.contains(m.path@) && (m.outcome is Mail || m.outcome
            is Unreadable),
{
}

/// A message file may ring exactly if it was not looked at, its name is not at the reader's
/// cursor or before it and has not rung, and it either holds a message of another room under
/// its own name, or hides one.
pub proof fn new_messages_of_others_may_ring(
    room: Seq<char>,
    floors: Map<Seq<char>, Seq<char>>,
    seen: Set<Seq<char>>,
    emitted: Set<Seq<char>>,
    m: MessageSighting,
)
    ensures
        watch::message_may_ring(room, floors, seen, emitted, m) <==> {
            &&& !seen.contains(m.path@)
            &&& match m.stem {
                Some(stem) => !emitted.contains(stem@) && (floors.contains_key(m.channel@)
                    ==> stem@ != floors[m.channel@] && !text::lt(stem@, floors[m.channel@])),
                None => !emitted.contains(m.path@),
            }
            &&& match m.outcome {
                MessageOutcome::Message(message) => message.from@ != room || m.stem is None
                    || m.stem->0@ != message.id@,
                MessageOutcome::Gone => false,
                MessageOutcome::Unreadable(_) => true,
            }
        },
{
}

/// The ring of a mail says for which room it is, and the id, the sender, the kind, the subject,
/// the time, the profile and the evidence of the mail.
pub proof fn rings_of_mail_say_what_came(room: Seq<char>, envelope: Envelope)
    ensures
        ({
            let ring = watch::mail_ring(room, envelope);
            &&& ring is Mail
            &&& ring->Mail_room == room
            &&& ring->item.id == envelope.id
            &&& ring->item.from == envelope.from
            &&& ring->item.kind == envelope.kind
            &&& ring->item.subject == envelope.subject
            &&& ring->item.sent == envelope.sent
            &&& ring->item.display_name == envelope.display_name
            &&& ring->item.pfp == envelope.pfp
            &&& ring->sender_address == envelope.sender_address
            &&& ring->sender_provenance == envelope.sender_provenance
            &&& ring->Mail_reason == WatchReason::Mail
        }),
{
}

/// The ring of a channel message says its channel, its id, its sender, its subject, its time and
/// its profile, and whether it mentions the room.
pub proof fn rings_of_messages_say_what_came(room: Seq<char>, message: ChannelMessage)
    ensures
        ({
            let ring = watch::ring_of(message, room);
            &&& ring is ChannelMessage
            &&& ring->ChannelMessage_channel == message.channel
            &&& ring->ChannelMessage_id == message.id
            &&& ring->ChannelMessage_from == message.from
            &&& ring->ChannelMessage_subject == message.subject
            &&& ring->ChannelMessage_sent == message.sent
            &&& ring->ChannelMessage_display_name == message.display_name
            &&& ring->ChannelMessage_pfp == message.pfp
            &&& ring->ChannelMessage_reason == WatchReason::Mention <==> exists|i: int|
                0 <= i < message.mentions@.len() && (#[trigger] message.mentions@[i])@ == room
            &&& ring->ChannelMessage_reason == WatchReason::Mention
                || ring->ChannelMessage_reason == WatchReason::Channel
        }),
{
    let listed = message@.mentions;
    if listed.contains(room) {
        let i = choose|i: int| 0 <= i < listed.len() && listed[i] == room;
        assert(message.mentions@[i]@ == room);
    }
    if exists|i: int|
        0 <= i < message.mentions@.len() && (#[trigger] message.mentions@[i])@ == room {
        let i = choose|i: int|
            0 <= i < message.mentions@.len() && (#[trigger] message.mentions@[i])@ == room;
        assert(listed[i] == room);
    }
}

/// A file that was looked at for the first time and may ring, rings now, as what it holds; and
/// it is remembered, so that it does not ring again. One that may not ring adds nothing.
pub proof fn each_file_rings_as_what_it_holds(
    room: Seq<char>,
    floors: Map<Seq<char>, Seq<char>>,
    s: watch::ScanView,
    mail: MailSighting,
    message: MessageSighting,
)
    ensures
        ({
            let after = watch::mail_step(room, s, mail);
            &&& s.seen.contains(mail.path@) ==> after == s
            &&& after.seen.contains(mail.path@)
            &&& after.emitted == s.emitted
            &&& !s.seen.contains(mail.path@) ==> match mail.outcome {
                MailOutcome::Mail(e) => after.events == s.events.push(watch::mail_ring(room, e))
                    && after.warnings == s.warnings,
                MailOutcome::Gone => after.events == s.events && after.warnings == s.warnings,
                MailOutcome::Unreadable(_) => after.events.len() == s.events.len() + 1
                    && after.warnings.len() == s.warnings.len() + 1
                    && after.events.last() is Unreadable
                    && after.events.last()->Unreadable_room == room
                    && after.events.last()->Unreadable_reason == WatchReason::Mail && (
                mail.stem matches Some(stem) ==> after.events.last()->Unreadable_id == stem@),
            }
        }),
        ({
            let after = watch::message_step(room, floors, s, message);
            let rings = watch::message_may_ring(room, floors, s.seen, s.emitted, message);
            &&& after.seen.contains(message.path@)
            &&& !rings ==> after.events == s.events && after.emitted == s.emitted && after.warnings
                == s.warnings
            &&& rings ==> after.events.len() == s.events.len() + 1 && after.events.drop_last()
                == s.events && match message.stem {
                Some(stem) => after.emitted == s.emitted.insert(stem@),
                None => after.emitted == s.emitted.insert(message.path@),
            }
            &&& rings && message.outcome is Message && message.stem is Some && message.stem->0@
                == message.outcome->Message_0.id@ ==> after.events.last() == (
            watch::EventView::Channel { event: watch::ring_of(message.outcome->Message_0, room) })
                && after.warnings == s.warnings
            &&& rings && message.outcome is Unreadable ==> after.events.last() is Unreadable
                && after.events.last()->Unreadable_room == room
                && after.events.last()->Unreadable_reason == WatchReason::Channel
                && after.warnings.len() == s.warnings.len() + 1
        }),
{
    let after = watch::message_step(room, floors, s, message);
    if watch::message_may_ring(room, floors, s.seen, s.emitted, message) {
        assert(after.events.drop_last() =~= s.events);
    } else {
        assert(after.seen =~= s.seen.insert(message.path@));
    }
}

/// Every member of a channel is rung for its new messages. Where a channel in order lists the
/// room and holds a file that was read, that is listed once and may ring, the scan of that room
/// ends with a ring under the file's name.
pub proof fn members_are_rung_for_new_messages(
    found: Seq<ChannelSighting>,
    room: Seq<char>,
    floors: Map<Seq<char>, Seq<char>>,
    seen: Set<Seq<char>>,
    emitted: Set<Seq<char>>,
    mails: Seq<MailSighting>,
    looks: Seq<MessageLook>,
    messages: Seq<MessageSighting>,
    name: Seq<char>,
    file: Seq<char>,
)
    requires
        watch::looked_at(messages, watch::all_heard(found, room), looks),
        looks.len() >= watch::all_heard(found, room).len(),
        exists|c: int| 0 <= c < found.len() && offers(#[trigger] found[c], room, name, file),
        forall|k: int|
            0 <= k < messages.len() && (#[trigger] messages[k]).channel@ == name
                && messages[k].path@ == file ==> watch::first_message(mails, messages, k)
                && watch::message_may_ring(room, floors, seen, emitted, messages[k]),
    ensures
        exists|k: int, j: int|
            #![trigger messages[k], messages[j]]
            0 <= k < messages.len() && messages[k].channel@ == name && messages[k].path@ == file
                && 0 <= j < messages.len() && watch::ring_key(messages[j]) == watch::ring_key(
                messages[k],
            ) && watch::scan(
                room,
                floors,
                watch::scan_start(seen, emitted),
                mails,
                messages,
            ).events.contains(watch::message_event(room, messages[j])),
{
    let all = watch::all_heard(found, room);
    members_and_only_members_hear_a_channel(found, room, name, file);
    assert(all.contains((name, file)));
    let k = choose|k: int| 0 <= k < all.len() && all[k] == (name, file);
    assert(messages.len() == all.len());
    assert((messages[k].channel@, messages[k].path@) == all[k]);
    watch::scans_ring_for_the_news(room, floors, seen, emitted, found, mails, looks, messages);
    assert(watch::first_message(mails, messages, k));
    let j = choose|j: int|
        0 <= j < messages.len() && watch::ring_key(#[trigger] messages[j]) == watch::ring_key(
            messages[k],
        ) && watch::scan(
            room,
            floors,
            watch::scan_start(seen, emitted),
            mails,
            messages,
        ).events.contains(watch::message_event(room, messages[j]));
    assert(messages[k].channel@ == name && watch::ring_key(messages[j]) == watch::ring_key(
        messages[k],
    ));
}

/// A room that is asked for is watched exactly if it was not asked for before and is registered
/// or the watch is no snapshot; and a warning is given exactly if it was not asked for before
/// and is not registered.
pub proof fn rooms_are_watched_as_asked(
    requested: Seq<Seq<char>>,
    room: Seq<char>,
    rooms: Map<Seq<char>, String>,
    snapshot: bool,
)
    ensures
        watch::watched(seq![], rooms, snapshot).len() == 0,
        !requested.contains(room) && (rooms.contains_key(room) || !snapshot) ==> watch::watched(
            requested.push(room),
            rooms,
            snapshot,
        ) == watch::watched(requested, rooms, snapshot).push(room),
        requested.contains(room) || (snapshot && !rooms.contains_key(room)) ==> watch::watched(
            requested.push(room),
            rooms,
            snapshot,
        ) == watch::watched(requested, rooms, snapshot),
        watch::watch_warnings(requested.push(room), rooms, snapshot).len() == watch::watch_warnings(
            requested,
            rooms,
            snapshot,
        ).len() + if !requested.contains(room) && !rooms.contains_key(room) {
            1int
        } else {
            0
        },
{
    assert(requested.push(room).drop_last() =~= requested);
}

/// The bound of a snapshot keeps the last events, as many as it says, and all of them where it
/// is 0 or missing; what it leaves out is told.
pub proof fn bounds_keep_the_last_events(events: Seq<WatchEvent>, limit: Option<usize>)
    ensures
        limit is None || limit == Some(0usize) ==> watch::limited(events, limit) == events,
        limit matches Some(n) ==> (n > 0 && events.len() > n ==> watch::limited(events, limit)
            == events.skip(events.len() - n)),
        limit matches Some(n) ==> (events.len() <= n ==> watch::limited(events, limit) == events),
        watch::omitted_notice(
            (events.len() - watch::limited(events, limit).len()) as nat,
        ) is Some <==> watch::limited(events, limit).len() < events.len(),
{
}

/// An event, as a value, is the event: no two events that differ in a field look alike, but for
/// the texts that they share.
pub proof fn events_are_seen_as_they_are(event: WatchEvent)
    ensures
        match event {
            WatchEvent::Mail { room, item, sender_address, sender_provenance, reason } => {
                watch::event_view(event) == (watch::EventView::Mail {
                    room: room@,
                    item,
                    sender_address,
                    sender_provenance,
                    reason,
                })
            },
            WatchEvent::Unreadable { room, id, reason } => watch::event_view(event) == (
            watch::EventView::Unreadable { room: room@, id: id@, reason }),
            WatchEvent::ChannelMessage { .. } => watch::event_view(event) == (
            watch::EventView::Channel { event }),
        },
{
}

} // verus!
