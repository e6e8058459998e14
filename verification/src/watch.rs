//! The doorbell: which mails and channel messages ring, once each, for the rooms that watch.
//! A watch shows metadata only and moves no cursor.
use crate::channel;
use crate::cursor::ChannelState;
use crate::error;
use crate::ids;
use crate::mail;
use crate::model::{ChannelMessage, Envelope};
use crate::order;
use crate::output;
use crate::output::{InboxItem, WatchEvent, WatchReason};
use crate::outside;
use crate::text;
use crate::textmap::{MemberMap, RoomMap, TextMap};
use vstd::prelude::*;

verus! {

/// A set of names.
pub type NameSet = TextMap<bool>;

// ---------------------------------------------------------------------------
// Rooms
// ---------------------------------------------------------------------------
/// What is said of a room that is watched without being registered.
pub open spec fn unregistered_warning(room: Seq<char>, snapshot: bool) -> Seq<char> {
    "post: warning: room "@ + outside::debug_form(room) + (if snapshot {
        " is not registered; snapshot scans nothing and creates nothing"@
    } else {
        " is not registered; watching a new empty mailbox"@
    })
}

/// The rooms to watch: each named room once. A snapshot passes over rooms that are not
/// registered.
pub open spec fn watched(
    requested: Seq<Seq<char>>,
    rooms: Map<Seq<char>, String>,
    snapshot: bool,
) -> Seq<Seq<char>>
    decreases requested.len(),
{
    if requested.len() == 0 {
        seq![]
    } else {
        let before = requested.drop_last();
        let room = requested.last();
        let list = watched(before, rooms, snapshot);
        if before.contains(room) || (snapshot && !rooms.contains_key(room)) {
            list
        } else {
            list.push(room)
        }
    }
}

/// What is said of the rooms that are not registered, once each.
pub open spec fn watch_warnings(
    requested: Seq<Seq<char>>,
    rooms: Map<Seq<char>, String>,
    snapshot: bool,
) -> Seq<Seq<char>>
    decreases requested.len(),
{
    if requested.len() == 0 {
        seq![]
    } else {
        let before = requested.drop_last();
        let room = requested.last();
        let list = watch_warnings(before, rooms, snapshot);
        if before.contains(room) || rooms.contains_key(room) {
            list
        } else {
            list.push(unregistered_warning(room, snapshot))
        }
    }
}

/// Chooses the rooms to watch, and says what is to be said of them.
pub fn select_rooms(requested: &Vec<String>, rooms: &RoomMap, snapshot: bool) -> (r: (
    Vec<String>,
    Vec<String>,
))
    ensures
        text::texts(r.0@) == watched(text::texts(requested@), rooms@, snapshot),
        text::texts(r.1@) == watch_warnings(text::texts(requested@), rooms@, snapshot),
{
    let ghost all = text::texts(requested@);
    let mut chosen: Vec<String> = Vec::new();
    let mut warnings: Vec<String> = Vec::new();
    let mut known: Vec<String> = Vec::new();
    assert(text::texts(chosen@) =~= watched(all.take(0), rooms@, snapshot));
    assert(text::texts(warnings@) =~= watch_warnings(all.take(0), rooms@, snapshot));
    assert(text::texts(known@) =~= all.take(0));
    for i in 0..requested.len()
        invariant
            all == text::texts(requested@),
            text::texts(known@) == all.take(i as int),
            text::texts(chosen@) == watched(all.take(i as int), rooms@, snapshot),
            text::texts(warnings@) == watch_warnings(all.take(i as int), rooms@, snapshot),
    {
        let room = requested[i].as_str();
        let ghost picked = text::texts(chosen@);
        let ghost said = text::texts(warnings@);
        let ghost seen = text::texts(known@);
        assert(all.take(i + 1).drop_last() =~= all.take(i as int));
        assert(all.take(i + 1).last() == room@);
        if !text::list_has(&known, room) {
            let registered: bool = rooms.contains_key(room);
            if !registered {
                let tail = if snapshot {
                    " is not registered; snapshot scans nothing and creates nothing"
                } else {
                    " is not registered; watching a new empty mailbox"
                };
                warnings.push(
                    text::cat3(
                        "post: warning: room ",
                        outside::debug_quoted(room).as_str(),
                        tail,
                    ),
                );
                assert(text::texts(warnings@) =~= said.push(unregistered_warning(room@, snapshot)));
            }
            if registered || !snapshot {
                chosen.push(room.to_owned());
                assert(text::texts(chosen@) =~= picked.push(room@));
            }
        }
        known.push(room.to_owned());
        assert(text::texts(known@) =~= seen.push(room@));
        assert(all.take(i + 1) =~= seen.push(room@));
    }
    assert(all.take(all.len() as int) =~= all);
    (chosen, warnings)
}

proof fn watched_is_requested(
    requested: Seq<Seq<char>>,
    rooms: Map<Seq<char>, String>,
    snapshot: bool,
    i: int,
)
    requires
        0 <= i < watched(requested, rooms, snapshot).len(),
    ensures
        requested.contains(watched(requested, rooms, snapshot)[i]),
        snapshot ==> rooms.contains_key(watched(requested, rooms, snapshot)[i]),
    decreases requested.len(),
{
    if requested.len() > 0 {
        let before = requested.drop_last();
        let list = watched(before, rooms, snapshot);
        if i < list.len() {
            watched_is_requested(before, rooms, snapshot, i);
            let k = choose|k: int| 0 <= k < before.len() && before[k] == list[i];
            assert(requested[k] == list[i]);
        } else {
            assert(requested[requested.len() - 1] == requested.last());
        }
    }
}

/// No room is watched twice, and a snapshot watches registered rooms only, so that it never
/// makes a mailbox.
pub proof fn rooms_are_watched_once(
    requested: Seq<Seq<char>>,
    rooms: Map<Seq<char>, String>,
    snapshot: bool,
)
    ensures
        forall|i: int, j: int|
            0 <= i < j < watched(requested, rooms, snapshot).len() ==> #[trigger] watched(
                requested,
                rooms,
                snapshot,
            )[i] != #[trigger] watched(requested, rooms, snapshot)[j],
        snapshot ==> forall|i: int|
            0 <= i < watched(requested, rooms, snapshot).len() ==> rooms.contains_key(
                #[trigger] watched(requested, rooms, snapshot)[i],
            ),
    decreases requested.len(),
{
    let all = watched(requested, rooms, snapshot);
    if requested.len() > 0 {
        let before = requested.drop_last();
        rooms_are_watched_once(before, rooms, snapshot);
        let list = watched(before, rooms, snapshot);
        assert forall|i: int, j: int| 0 <= i < j < all.len() implies #[trigger] all[i]
            != #[trigger] all[j] by {
            if j == list.len() {
                watched_is_requested(before, rooms, snapshot, i);
            }
        }
    }
    if snapshot {
        assert forall|i: int| 0 <= i < all.len() implies rooms.contains_key(#[trigger] all[i]) by {
            watched_is_requested(requested, rooms, snapshot, i);
        }
    }
}

// ---------------------------------------------------------------------------
// Scans
// ---------------------------------------------------------------------------
/// What became of a mail file.
#[derive(Debug)]
pub enum MailOutcome {
    Mail(Envelope),
    /// It was moved away between the listing and the reading.
    Gone,
    /// It could not be read; the text says why.
    Unreadable(String),
}

/// A mail file in the listing of an inbox.
#[derive(Debug)]
pub struct MailSighting {
    pub path: String,
    /// The file name without its extension, unless it is no text.
    pub stem: Option<String>,
    pub outcome: MailOutcome,
}

/// What became of a message file.
#[derive(Debug)]
pub enum MessageOutcome {
    Message(ChannelMessage),
    Gone,
    Unreadable(String),
}

/// A message file in the listing of a channel.
#[derive(Debug)]
pub struct MessageSighting {
    pub channel: String,
    pub path: String,
    pub stem: Option<String>,
    pub outcome: MessageOutcome,
}

/// An event, as a value.
pub ghost enum EventView {
    Mail {
        room: Seq<char>,
        item: InboxItem,
        sender_address: Option<String>,
        sender_provenance: Option<String>,
        reason: WatchReason,
    },
    Unreadable { room: Seq<char>, id: Seq<char>, reason: WatchReason },
    Channel { event: WatchEvent },
}

pub open spec fn event_view(event: WatchEvent) -> EventView {
    match event {
        WatchEvent::Mail { room, item, sender_address, sender_provenance, reason } => {
            EventView::Mail { room: room@, item, sender_address, sender_provenance, reason }
        },
        WatchEvent::Unreadable { room, id, reason } => EventView::Unreadable {
            room: room@,
            id: id@,
            reason,
        },
        WatchEvent::ChannelMessage { .. } => EventView::Channel { event },
    }
}

pub open spec fn events_view(events: Seq<WatchEvent>) -> Seq<EventView> {
    events.map_values(|e: WatchEvent| event_view(e))
}

/// What a scan knows and what it has found so far.
pub ghost struct ScanView {
    /// The files that were looked at.
    pub seen: Set<Seq<char>>,
    /// The channel messages that have rung, in any room.
    pub emitted: Set<Seq<char>>,
    pub events: Seq<EventView>,
    pub warnings: Seq<Seq<char>>,
}

/// The name under which a file that could not be read is shown.
pub open spec fn shown_stem(stem: Option<Seq<char>>) -> Seq<char> {
    match stem {
        Some(s) => s,
        None => "<non-utf8 filename>"@,
    }
}

/// The ring of a mail for a room.
pub open spec fn mail_ring(room: Seq<char>, envelope: Envelope) -> EventView {
    EventView::Mail {
        room,
        item: output::item_of(envelope),
        sender_address: envelope.sender_address,
        sender_provenance: envelope.sender_provenance,
        reason: WatchReason::Mail,
    }
}

/// The ring of a file that could not be read, for a room.
pub open spec fn unreadable_ring(
    room: Seq<char>,
    stem: Option<String>,
    reason: WatchReason,
) -> EventView {
    EventView::Unreadable { room, id: shown_stem(text::opt(stem)), reason }
}

/// The scan after a mail file.
pub open spec fn mail_step(room: Seq<char>, s: ScanView, m: MailSighting) -> ScanView {
    if s.seen.contains(m.path@) {
        s
    } else {
        let t = ScanView { seen: s.seen.insert(m.path@), ..s };
        match m.outcome {
            MailOutcome::Mail(envelope) => ScanView {
                events: t.events.push(mail_ring(room, envelope)),
                ..t
            },
            MailOutcome::Gone => t,
            MailOutcome::Unreadable(problem) => ScanView {
                warnings: t.warnings.push(
                    "post: warning: unreadable mail "@ + outside::debug_form(m.path@) + ": "@
                        + outside::debug_form(problem@),
                ),
                events: t.events.push(unreadable_ring(room, m.stem, WatchReason::Mail)),
                ..t
            },
        }
    }
}

/// The ring of a channel message for a room.
pub open spec fn ring_of(message: ChannelMessage, room: Seq<char>) -> WatchEvent {
    WatchEvent::ChannelMessage {
        channel: message.channel,
        id: message.id,
        from: message.from,
        subject: message.subject,
        sent: message.sent,
        display_name: message.display_name,
        pfp: message.pfp,
        reason: if message@.mentions.contains(room) {
            WatchReason::Mention
        } else {
            WatchReason::Channel
        },
    }
}

/// The name under which a message file is remembered as one that has rung.
pub open spec fn ring_key(m: MessageSighting) -> Seq<char> {
    match m.stem {
        Some(stem) => stem@,
        None => m.path@,
    }
}

/// Whether a message file was read by the room before the watch began.
pub open spec fn below_floor(floors: Map<Seq<char>, Seq<char>>, m: MessageSighting) -> bool {
    floors.contains_key(m.channel@) && m.stem is Some && text::le(
        m.stem->0@,
        floors[m.channel@],
    )
}

/// Why a message file rings without its message: it could not be read, or it is not named
/// after the id of its message.
pub open spec fn fault_of(m: MessageSighting) -> Option<Seq<char>> {
    match m.outcome {
        MessageOutcome::Message(message) => if text::opt(m.stem) == Some(message.id@) {
            None
        } else {
            Some(
                error::ErrorView::config(m.path@, channel::misnamed_reason(message.id@)).message,
            )
        },
        MessageOutcome::Gone => None,
        MessageOutcome::Unreadable(problem) => Some(problem@),
    }
}

/// The scan after a message file.
pub open spec fn message_step(
    room: Seq<char>,
    floors: Map<Seq<char>, Seq<char>>,
    s: ScanView,
    m: MessageSighting,
) -> ScanView {
    if s.seen.contains(m.path@) {
        s
    } else {
        let t = ScanView { seen: s.seen.insert(m.path@), ..s };
        if below_floor(floors, m) || t.emitted.contains(ring_key(m)) {
            t
        } else {
            match (fault_of(m), m.outcome) {
                (Some(problem), _) => ScanView {
                    emitted: t.emitted.insert(ring_key(m)),
                    warnings: t.warnings.push(
                        "post: warning: unreadable channel message "@ + outside::debug_form(
                            m.path@,
                        ) + ": "@ + outside::debug_form(problem),
                    ),
                    events: t.events.push(unreadable_ring(room, m.stem, WatchReason::Channel)),
                    ..t
                },
                (None, MessageOutcome::Message(message)) => if message.from@ == room {
                    t
                } else {
                    ScanView {
                        emitted: t.emitted.insert(message.id@),
                        events: t.events.push(
                            EventView::Channel { event: ring_of(message, room) },
                        ),
                        ..t
                    }
                },
                (None, _) => t,
            }
        }
    }
}

/// The scan after some mail files.
pub open spec fn scan_mails(room: Seq<char>, s: ScanView, mails: Seq<MailSighting>) -> ScanView
    decreases mails.len(),
{
    if mails.len() == 0 {
        s
    } else {
        mail_step(room, scan_mails(room, s, mails.drop_last()), mails.last())
    }
}

/// The scan after some message files.
pub open spec fn scan_messages(
    room: Seq<char>,
    floors: Map<Seq<char>, Seq<char>>,
    s: ScanView,
    messages: Seq<MessageSighting>,
) -> ScanView
    decreases messages.len(),
{
    if messages.len() == 0 {
        s
    } else {
        message_step(
            room,
            floors,
            scan_messages(room, floors, s, messages.drop_last()),
            messages.last(),
        )
    }
}

/// One scan for a room: its inbox, then its channels.
pub open spec fn scan(
    room: Seq<char>,
    floors: Map<Seq<char>, Seq<char>>,
    s: ScanView,
    mails: Seq<MailSighting>,
    messages: Seq<MessageSighting>,
) -> ScanView {
    scan_messages(room, floors, scan_mails(room, s, mails), messages)
}

/// A room that is watched.
#[derive(Debug)]
pub struct WatchTarget {
    pub room: String,
    /// What the room had read of each channel when the watch began.
    pub floors: ChannelState,
    /// The files that were looked at.
    pub seen: NameSet,
    /// Whether the last scan failed.
    pub scan_failing: bool,
}

/// What one scan found.
#[derive(Debug)]
pub struct Scan {
    pub events: Vec<WatchEvent>,
    pub warnings: Vec<String>,
}

/// What a scan starts from.
pub open spec fn scan_start(seen: Set<Seq<char>>, emitted: Set<Seq<char>>) -> ScanView {
    ScanView { seen, emitted, events: seq![], warnings: seq![] }
}

impl WatchTarget {
    pub fn new(room: String, floors: ChannelState) -> (r: WatchTarget)
        ensures
            r.room == room,
            r.floors == floors,
            r.seen@ == Map::<Seq<char>, bool>::empty(),
            !r.scan_failing,
    {
        WatchTarget { room, floors, seen: TextMap::new(), scan_failing: false }
    }

    /// Whether a mail file is new, and so has to be read.
    pub fn wants_mail(&self, path: &str) -> (r: bool)
        ensures
            r == !self.seen@.contains_key(path@),
    {
        !self.seen.contains_key(path)
    }

    /// Whether a message file may ring, and so has to be read.
    pub fn wants_message(
        &self,
        emitted: &NameSet,
        channel: &str,
        path: &str,
        stem: Option<&str>,
    ) -> (r: bool)
        ensures
            r == ({
                &&& !self.seen@.contains_key(path@)
                &&& !(self.floors@.contains_key(channel@) && stem is Some && text::le(
                    stem->0@,
                    self.floors@[channel@],
                ))
                &&& !emitted@.contains_key(
                    match stem {
                        Some(s) => s@,
                        None => path@,
                    },
                )
            }),
    {
        if self.seen.contains_key(path) {
            return false;
        }
        match stem {
            Some(s) => {
                if let Some(floor) = self.floors.cursor(channel) {
                    if text::less_or_same(s, floor) {
                        return false;
                    }
                }
                !emitted.contains_key(s)
            },
            None => !emitted.contains_key(path),
        }
    }
}

fn ring_mail(room: &str, m: MailSighting, out: &mut Scan)
    ensures
        ({
            let before = ScanView {
                seen: Set::empty(),
                emitted: Set::empty(),
                events: events_view(old(out).events@),
                warnings: text::texts(old(out).warnings@),
            };
            let after = mail_step(room@, before, m);
            events_view(final(out).events@) == after.events && text::texts(final(out).warnings@)
                == after.warnings
        }),
{
    let ghost events = events_view(out.events@);
    let ghost warnings = text::texts(out.warnings@);
    match m.outcome {
        MailOutcome::Mail(envelope) => {
            let event = WatchEvent::arrival(room, envelope);
            out.events.push(event);
            assert(events_view(out.events@) =~= events.push(event_view(event)));
        },
        MailOutcome::Gone => {},
        MailOutcome::Unreadable(problem) => {
            let line = text::cat4(
                "post: warning: unreadable mail ",
                outside::debug_quoted(m.path.as_str()).as_str(),
                ": ",
                outside::debug_quoted(problem.as_str()).as_str(),
            );
            let id = match m.stem {
                Some(stem) => stem,
                None => "<non-utf8 filename>".to_owned(),
            };
            let event = WatchEvent::unreadable(room, id, WatchReason::Mail);
            out.warnings.push(line);
            out.events.push(event);
            assert(text::texts(out.warnings@) =~= warnings.push(line@));
            assert(events_view(out.events@) =~= events.push(event_view(event)));
        },
    }
}

/// Rings for a message file without its message.
fn ring_unreadable(
    room: &str,
    path: &str,
    stem: Option<String>,
    problem: &str,
    emitted: &mut NameSet,
    out: &mut Scan,
)
    ensures
        final(emitted)@.dom() == old(emitted)@.dom().insert(
            match stem {
                Some(s) => s@,
                None => path@,
            },
        ),
        events_view(final(out).events@) == events_view(old(out).events@).push(
            unreadable_ring(room@, stem, WatchReason::Channel),
        ),
        text::texts(final(out).warnings@) == text::texts(old(out).warnings@).push(
            "post: warning: unreadable channel message "@ + outside::debug_form(path@) + ": "@
                + outside::debug_form(problem@),
        ),
{
    let ghost events = events_view(out.events@);
    let ghost warnings = text::texts(out.warnings@);
    let ghost rung = emitted@;
    let line = text::cat4(
        "post: warning: unreadable channel message ",
        outside::debug_quoted(path).as_str(),
        ": ",
        outside::debug_quoted(problem).as_str(),
    );
    let id = match stem {
        Some(stem) => {
            emitted.insert(stem.as_str(), true);
            assert(emitted@.dom() =~= rung.dom().insert(stem@));
            stem
        },
        None => {
            emitted.insert(path, true);
            assert(emitted@.dom() =~= rung.dom().insert(path@));
            "<non-utf8 filename>".to_owned()
        },
    };
    let event = WatchEvent::unreadable(room, id, WatchReason::Channel);
    out.warnings.push(line);
    out.events.push(event);
    assert(text::texts(out.warnings@) =~= warnings.push(line@));
    assert(events_view(out.events@) =~= events.push(event_view(event)));
}

fn ring_message(room: &str, m: MessageSighting, emitted: &mut NameSet, out: &mut Scan)
    requires
        !old(emitted)@.contains_key(ring_key(m)),
    ensures
        ({
            let before = ScanView {
                seen: Set::empty(),
                emitted: old(emitted)@.dom(),
                events: events_view(old(out).events@),
                warnings: text::texts(old(out).warnings@),
            };
            let after = message_step(room@, Map::empty(), before, m);
            events_view(final(out).events@) == after.events && text::texts(final(out).warnings@)
                == after.warnings && final(emitted)@.dom() == after.emitted
        }),
{
    let ghost events = events_view(out.events@);
    let ghost rung = emitted@;
    match m.outcome {
        MessageOutcome::Message(message) => {
            let named: bool = match &m.stem {
                Some(stem) => text::same(stem.as_str(), message.id.as_str()),
                None => false,
            };
            if !named {
                let error = channel::misnamed_message(m.path.as_str(), message.id.as_str());
                ring_unreadable(
                    room,
                    m.path.as_str(),
                    m.stem,
                    error.message.as_str(),
                    emitted,
                    out,
                );
            } else if !text::same(message.from.as_str(), room) {
                emitted.insert(message.id.as_str(), true);
                let event = WatchEvent::channel_message(message, room);
                assert(event == ring_of(message, room@));
                out.events.push(event);
                assert(emitted@.dom() =~= rung.dom().insert(message.id@));
                assert(events_view(out.events@) =~= events.push(event_view(event)));
            }
        },
        MessageOutcome::Gone => {},
        MessageOutcome::Unreadable(problem) => {
            ring_unreadable(room, m.path.as_str(), m.stem, problem.as_str(), emitted, out);
        },
    }
}

/// Scans what was found for a room. Each file rings once, each channel message rings once
/// for all rooms together.
pub fn scan_batch(
    target: &mut WatchTarget,
    emitted: &mut NameSet,
    mails: Vec<MailSighting>,
    messages: Vec<MessageSighting>,
) -> (r: Scan)
    ensures
        ({
            let end = scan(
                old(target).room@,
                old(target).floors@,
                scan_start(old(target).seen@.dom(), old(emitted)@.dom()),
                mails@,
                messages@,
            );
            &&& events_view(r.events@) == end.events
            &&& text::texts(r.warnings@) == end.warnings
            &&& final(target).seen@.dom() == end.seen
            &&& final(emitted)@.dom() == end.emitted
        }),
        final(target).room == old(target).room,
        final(target).floors == old(target).floors,
        final(target).scan_failing == old(target).scan_failing,
{
    let ghost room = target.room@;
    let ghost floors = target.floors@;
    let ghost start = scan_start(target.seen@.dom(), emitted@.dom());
    let mut out = Scan { events: Vec::new(), warnings: Vec::new() };
    let mail_count: usize = mails.len();
    let mut rest = order::reversed(mails);
    let mut i: usize = 0;
    assert(events_view(out.events@) =~= start.events);
    assert(text::texts(out.warnings@) =~= start.warnings);
    assert(mails@.skip(0).reverse() =~= mails@.reverse());
    assert(scan_mails(room, start, mails@.take(0)) == start);
    while i < mail_count
        invariant
            mail_count == mails@.len(),
            i <= mail_count,
            rest@ == mails@.skip(i as int).reverse(),
            room == old(target).room@,
            target.room == old(target).room,
            target.floors == old(target).floors,
            target.scan_failing == old(target).scan_failing,
            emitted@.dom() == start.emitted,
            ({
                let now = scan_mails(room, start, mails@.take(i as int));
                &&& events_view(out.events@) == now.events
                &&& text::texts(out.warnings@) == now.warnings
                &&& target.seen@.dom() == now.seen
                &&& start.emitted == now.emitted
            }),
        decreases mail_count - i,
    {
        let ghost now = scan_mails(room, start, mails@.take(i as int));
        assert(mails@.take(i + 1).drop_last() =~= mails@.take(i as int));
        assert(rest@.last() == mails@[i as int]);
        match rest.pop() {
            Some(m) => {
                assert(m == mails@[i as int]);
                assert(rest@ =~= mails@.skip(i + 1).reverse());
                if target.wants_mail(m.path.as_str()) {
                    let ghost seen = target.seen@;
                    target.seen.insert(m.path.as_str(), true);
                    assert(target.seen@.dom() =~= seen.dom().insert(m.path@));
                    ring_mail(target.room.as_str(), m, &mut out);
                }
            },
            None => {
                assert(false);
            },
        }
        i = i + 1;
    }
    assert(mails@.take(mails@.len() as int) =~= mails@);
    let ghost middle = scan_mails(room, start, mails@);
    let count: usize = messages.len();
    let mut left = order::reversed(messages);
    let mut k: usize = 0;
    assert(messages@.skip(0).reverse() =~= messages@.reverse());
    assert(scan_messages(room, floors, middle, messages@.take(0)) == middle);
    while k < count
        invariant
            count == messages@.len(),
            k <= count,
            left@ == messages@.skip(k as int).reverse(),
            room == old(target).room@,
            floors == old(target).floors@,
            target.room == old(target).room,
            target.floors == old(target).floors,
            target.scan_failing == old(target).scan_failing,
            ({
                let now = scan_messages(room, floors, middle, messages@.take(k as int));
                &&& events_view(out.events@) == now.events
                &&& text::texts(out.warnings@) == now.warnings
                &&& target.seen@.dom() == now.seen
                &&& emitted@.dom() == now.emitted
            }),
        decreases count - k,
    {
        let ghost now = scan_messages(room, floors, middle, messages@.take(k as int));
        assert(messages@.take(k + 1).drop_last() =~= messages@.take(k as int));
        assert(left@.last() == messages@[k as int]);
        match left.pop() {
            Some(m) => {
                assert(m == messages@[k as int]);
                assert(left@ =~= messages@.skip(k + 1).reverse());
                let wanted: bool = target.wants_message(
                    &*emitted,
                    m.channel.as_str(),
                    m.path.as_str(),
                    output::borrowed(&m.stem),
                );
                let ghost seen = target.seen@;
                target.seen.insert(m.path.as_str(), true);
                assert(target.seen@.dom() =~= seen.dom().insert(m.path@));
                assert(seen.contains_key(m.path@) ==> target.seen@.dom() =~= seen.dom());
                if wanted {
                    ring_message(target.room.as_str(), m, emitted, &mut out);
                }
            },
            None => {
                assert(false);
            },
        }
        k = k + 1;
    }
    assert(messages@.take(messages@.len() as int) =~= messages@);
    out
}

// ---------------------------------------------------------------------------
// Laws
// ---------------------------------------------------------------------------
/// Whether an event is the ring of a message that a room has not read and did not write.
pub open spec fn rings_for(
    event: EventView,
    room: Seq<char>,
    floors: Map<Seq<char>, Seq<char>>,
    m: MessageSighting,
) -> bool {
    match m.outcome {
        MessageOutcome::Message(message) => {
            &&& event == (EventView::Channel { event: ring_of(message, room) })
            &&& message.from@ != room
            &&& fault_of(m) is None
            &&& !below_floor(floors, m)
        },
        _ => false,
    }
}

proof fn mails_ring_no_channel(room: Seq<char>, s: ScanView, mails: Seq<MailSighting>)
    ensures
        scan_mails(room, s, mails).emitted == s.emitted,
        s.events.len() <= scan_mails(room, s, mails).events.len(),
        forall|i: int|
            0 <= i < s.events.len() ==> #[trigger] scan_mails(room, s, mails).events[i]
                == s.events[i],
        forall|i: int|
            s.events.len() <= i < scan_mails(room, s, mails).events.len() ==> !(
            #[trigger] scan_mails(room, s, mails).events[i] is Channel),
        s.seen.subset_of(scan_mails(room, s, mails).seen),
        forall|k: int|
            0 <= k < mails.len() ==> scan_mails(room, s, mails).seen.contains(
                #[trigger] mails[k].path@,
            ),
    decreases mails.len(),
{
    if mails.len() > 0 {
        mails_ring_no_channel(room, s, mails.drop_last());
        assert forall|k: int| 0 <= k < mails.len() implies scan_mails(room, s, mails).seen.contains(
            #[trigger] mails[k].path@,
        ) by {
            if k < mails.len() - 1 {
                assert(mails.drop_last()[k] == mails[k]);
            }
        }
    }
}

proof fn messages_ring_for_others(
    room: Seq<char>,
    floors: Map<Seq<char>, Seq<char>>,
    s: ScanView,
    messages: Seq<MessageSighting>,
)
    ensures
        s.events.len() <= scan_messages(room, floors, s, messages).events.len(),
        forall|i: int|
            0 <= i < s.events.len() ==> #[trigger] scan_messages(
                room,
                floors,
                s,
                messages,
            ).events[i] == s.events[i],
        forall|i: int|
            s.events.len() <= i < scan_messages(room, floors, s, messages).events.len()
                && #[trigger] scan_messages(room, floors, s, messages).events[i] is Channel
                ==> exists|k: int|
                0 <= k < messages.len() && rings_for(
                    scan_messages(room, floors, s, messages).events[i],
                    room,
                    floors,
                    #[trigger] messages[k],
                ),
        s.seen.subset_of(scan_messages(room, floors, s, messages).seen),
        s.emitted.subset_of(scan_messages(room, floors, s, messages).emitted),
        forall|k: int|
            0 <= k < messages.len() ==> scan_messages(room, floors, s, messages).seen.contains(
                #[trigger] messages[k].path@,
            ),
    decreases messages.len(),
{
    if messages.len() > 0 {
        let before = messages.drop_last();
        messages_ring_for_others(room, floors, s, before);
        let mid = scan_messages(room, floors, s, before);
        let end = scan_messages(room, floors, s, messages);
        assert forall|i: int|
            s.events.len() <= i < end.events.len() && #[trigger] end.events[i] is Channel implies exists|
            k: int,
        |
            0 <= k < messages.len() && rings_for(
                end.events[i],
                room,
                floors,
                #[trigger] messages[k],
            ) by {
            if i < mid.events.len() {
                assert(end.events[i] == mid.events[i]);
                let k = choose|k: int|
                    0 <= k < before.len() && rings_for(
                        mid.events[i],
                        room,
                        floors,
                        #[trigger] before[k],
                    );
                assert(messages[k] == before[k]);
            } else {
                assert(rings_for(end.events[i], room, floors, messages[messages.len() - 1]));
            }
        }
        assert forall|k: int| 0 <= k < messages.len() implies end.seen.contains(
            #[trigger] messages[k].path@,
        ) by {
            if k < messages.len() - 1 {
                assert(before[k] == messages[k]);
            }
        }
    }
}

/// What rings in a channel is unread and another room's: a room's own messages never ring
/// its own bell, and what it had read before the watch began never rings again.
pub proof fn only_unread_messages_of_others_ring(
    room: Seq<char>,
    floors: Map<Seq<char>, Seq<char>>,
    s: ScanView,
    mails: Seq<MailSighting>,
    messages: Seq<MessageSighting>,
    i: int,
)
    requires
        s.events.len() <= i < scan(room, floors, s, mails, messages).events.len(),
        scan(room, floors, s, mails, messages).events[i] is Channel,
    ensures
        exists|k: int|
            0 <= k < messages.len() && rings_for(
                scan(room, floors, s, mails, messages).events[i],
                room,
                floors,
                #[trigger] messages[k],
            ),
{
    let mid = scan_mails(room, s, mails);
    mails_ring_no_channel(room, s, mails);
    messages_ring_for_others(room, floors, mid, messages);
    if i < mid.events.len() {
        assert(mid.events[i] == scan(room, floors, s, mails, messages).events[i]);
    }
}

/// Whether no channel message has rung twice, and every one that rang is remembered.
pub open spec fn rings_once(s: ScanView) -> bool {
    &&& forall|i: int|
        0 <= i < s.events.len() && (#[trigger] s.events[i]) is Channel ==> s.emitted.contains(
            s.events[i]->Channel_event->ChannelMessage_id@,
        )
    &&& forall|i: int, j: int|
        0 <= i < j < s.events.len() && (#[trigger] s.events[i]) is Channel && (
        #[trigger] s.events[j]) is Channel ==> s.events[i]->Channel_event->ChannelMessage_id@
            != s.events[j]->Channel_event->ChannelMessage_id@
}

/// A channel message rings once, however many of the watched rooms share the channel and
/// however often it is scanned: a scan for one more room keeps that.
pub proof fn channel_messages_ring_once(
    room: Seq<char>,
    floors: Map<Seq<char>, Seq<char>>,
    s: ScanView,
    mails: Seq<MailSighting>,
    messages: Seq<MessageSighting>,
)
    requires
        rings_once(s),
    ensures
        rings_once(scan(room, floors, s, mails, messages)),
{
    mails_ring_no_channel(room, s, mails);
    let mid = scan_mails(room, s, mails);
    assert(rings_once(mid)) by {
        assert forall|i: int|
            0 <= i < mid.events.len() && (#[trigger] mid.events[i]) is Channel implies mid.emitted.contains(
            mid.events[i]->Channel_event->ChannelMessage_id@,
        ) by {
            assert(i < s.events.len());
            assert(s.events[i] == mid.events[i]);
        }
        assert forall|i: int, j: int|
            0 <= i < j < mid.events.len() && (#[trigger] mid.events[i]) is Channel && (
            #[trigger] mid.events[j]) is Channel implies mid.events[i]->Channel_event->ChannelMessage_id@
            != mid.events[j]->Channel_event->ChannelMessage_id@ by {
            assert(i < s.events.len() && j < s.events.len());
            assert(s.events[i] == mid.events[i]);
            assert(s.events[j] == mid.events[j]);
        }
    }
    messages_keep_rings_once(room, floors, mid, messages);
}

proof fn messages_keep_rings_once(
    room: Seq<char>,
    floors: Map<Seq<char>, Seq<char>>,
    s: ScanView,
    messages: Seq<MessageSighting>,
)
    requires
        rings_once(s),
    ensures
        rings_once(scan_messages(room, floors, s, messages)),
    decreases messages.len(),
{
    if messages.len() > 0 {
        let before = messages.drop_last();
        messages_keep_rings_once(room, floors, s, before);
        let mid = scan_messages(room, floors, s, before);
        let m = messages.last();
        assert(messages[messages.len() - 1] == m);
        let end = scan_messages(room, floors, s, messages);
        assert forall|i: int|
            0 <= i < end.events.len() && (#[trigger] end.events[i]) is Channel implies end.emitted.contains(
            end.events[i]->Channel_event->ChannelMessage_id@,
        ) by {
            if i < mid.events.len() {
                assert(mid.events[i] == end.events[i]);
            }
        }
        assert forall|i: int, j: int|
            0 <= i < j < end.events.len() && (#[trigger] end.events[i]) is Channel && (
            #[trigger] end.events[j]) is Channel implies end.events[i]->Channel_event->ChannelMessage_id@
            != end.events[j]->Channel_event->ChannelMessage_id@ by {
            assert(mid.events[i] == end.events[i]);
            if j < mid.events.len() {
                assert(mid.events[j] == end.events[j]);
            }
        }
    }
}

/// A scan of the same files rings for nothing more.
pub proof fn a_second_scan_rings_for_nothing(
    room: Seq<char>,
    floors: Map<Seq<char>, Seq<char>>,
    s: ScanView,
    mails: Seq<MailSighting>,
    messages: Seq<MessageSighting>,
)
    ensures
        ({
            let once = scan(room, floors, s, mails, messages);
            scan(room, floors, once, mails, messages) == once
        }),
{
    let mid = scan_mails(room, s, mails);
    let once = scan(room, floors, s, mails, messages);
    mails_ring_no_channel(room, s, mails);
    messages_ring_for_others(room, floors, mid, messages);
    seen_mails_are_quiet(room, once, mails);
    seen_messages_are_quiet(room, floors, once, messages);
}

proof fn seen_mails_are_quiet(room: Seq<char>, s: ScanView, mails: Seq<MailSighting>)
    requires
        forall|k: int| 0 <= k < mails.len() ==> s.seen.contains(#[trigger] mails[k].path@),
    ensures
        scan_mails(room, s, mails) == s,
    decreases mails.len(),
{
    if mails.len() > 0 {
        let before = mails.drop_last();
        assert forall|k: int| 0 <= k < before.len() implies s.seen.contains(
            #[trigger] before[k].path@,
        ) by {
            assert(mails[k] == before[k]);
        }
        seen_mails_are_quiet(room, s, before);
        assert(s.seen.contains(mails[mails.len() - 1].path@));
    }
}

proof fn seen_messages_are_quiet(
    room: Seq<char>,
    floors: Map<Seq<char>, Seq<char>>,
    s: ScanView,
    messages: Seq<MessageSighting>,
)
    requires
        forall|k: int| 0 <= k < messages.len() ==> s.seen.contains(#[trigger] messages[k].path@),
    ensures
        scan_messages(room, floors, s, messages) == s,
    decreases messages.len(),
{
    if messages.len() > 0 {
        let before = messages.drop_last();
        assert forall|k: int| 0 <= k < before.len() implies s.seen.contains(
            #[trigger] before[k].path@,
        ) by {
            assert(messages[k] == before[k]);
        }
        seen_messages_are_quiet(room, floors, s, before);
        assert(s.seen.contains(messages[messages.len() - 1].path@));
    }
}

/// A watch misses nothing: a message of another room that lies past the reader's cursor, in a
/// file that was not looked at before, has rung when the scan ends.
pub proof fn unread_messages_of_others_ring(
    room: Seq<char>,
    floors: Map<Seq<char>, Seq<char>>,
    s: ScanView,
    messages: Seq<MessageSighting>,
    k: int,
)
    requires
        0 <= k < messages.len(),
        !s.seen.contains(messages[k].path@),
        forall|j: int| 0 <= j < k ==> (#[trigger] messages[j]).path@ != messages[k].path@,
        messages[k].outcome is Message,
        fault_of(messages[k]) is None,
        messages[k].outcome->Message_0.from@ != room,
        !below_floor(floors, messages[k]),
    ensures
        scan_messages(room, floors, s, messages).emitted.contains(
            messages[k].outcome->Message_0.id@,
        ),
    decreases messages.len(),
{
    let before = messages.drop_last();
    let mid = scan_messages(room, floors, s, before);
    if k < messages.len() - 1 {
        assert(before[k] == messages[k]);
        assert forall|j: int| 0 <= j < k implies (#[trigger] before[j]).path@ != before[k].path@ by {
            assert(before[j] == messages[j]);
        }
        unread_messages_of_others_ring(room, floors, s, before, k);
    } else {
        unseen_stays_unseen(room, floors, s, before, messages[k].path@);
    }
}

proof fn unseen_stays_unseen(
    room: Seq<char>,
    floors: Map<Seq<char>, Seq<char>>,
    s: ScanView,
    messages: Seq<MessageSighting>,
    path: Seq<char>,
)
    requires
        !s.seen.contains(path),
        forall|j: int| 0 <= j < messages.len() ==> (#[trigger] messages[j]).path@ != path,
    ensures
        !scan_messages(room, floors, s, messages).seen.contains(path),
    decreases messages.len(),
{
    if messages.len() > 0 {
        let before = messages.drop_last();
        assert forall|j: int| 0 <= j < before.len() implies (#[trigger] before[j]).path@ != path by {
            assert(before[j] == messages[j]);
        }
        unseen_stays_unseen(room, floors, s, before, path);
        assert(messages[messages.len() - 1].path@ != path);
    }
}

/// Of accepted mail and accepted messages, what an event shows unquoted breaks no line.
pub proof fn accepted_news_takes_a_line(event: WatchEvent, mail: Envelope, message: ChannelMessage)
    requires
        mail::envelope_fault(mail@) is None,
        channel::message_fault(message@) is None,
    ensures
        event is Mail && event->Mail_item == output::item_of(mail) ==> output::shows_unbroken(event),
        event is ChannelMessage && event->ChannelMessage_id == message.id
            && event->ChannelMessage_channel == message.channel ==> output::shows_unbroken(event),
        event is Unreadable ==> output::shows_unbroken(event),
{
    ids::ids_are_unbroken(mail.id@);
    ids::ids_are_unbroken(message.id@);
    assert forall|i: int| 0 <= i < message.channel@.len() implies message.channel@[i] != '\n' by {
        assert(!text::is_control(message.channel@[i]));
    }
}

// ---------------------------------------------------------------------------
// What a scan rings for
// ---------------------------------------------------------------------------
/// Whether a mail file rings in a scan: it was not looked at before, and it is still there.
pub open spec fn mail_rings(seen: Set<Seq<char>>, m: MailSighting) -> bool {
    !seen.contains(m.path@) && !(m.outcome is Gone)
}

/// The ring of a mail file.
pub open spec fn mail_event(room: Seq<char>, m: MailSighting) -> EventView {
    match m.outcome {
        MailOutcome::Mail(envelope) => mail_ring(room, envelope),
        _ => unreadable_ring(room, m.stem, WatchReason::Mail),
    }
}

/// Whether a message file may ring in a scan: it was not looked at before, the room has not
/// read it, it has not rung, it is still there, and it is not the room's own message. A file
/// without a message may ring as such.
pub open spec fn message_may_ring(
    room: Seq<char>,
    floors: Map<Seq<char>, Seq<char>>,
    seen: Set<Seq<char>>,
    emitted: Set<Seq<char>>,
    m: MessageSighting,
) -> bool {
    &&& !seen.contains(m.path@)
    &&& !below_floor(floors, m)
    &&& !emitted.contains(ring_key(m))
    &&& fault_of(m) is Some || m.outcome is Message && m.outcome->Message_0.from@ != room
}

/// The ring of a message file.
pub open spec fn message_event(room: Seq<char>, m: MessageSighting) -> EventView {
    if fault_of(m) is None && m.outcome is Message {
        EventView::Channel { event: ring_of(m.outcome->Message_0, room) }
    } else {
        unreadable_ring(room, m.stem, WatchReason::Channel)
    }
}

/// Whether a mail file is listed here and not before.
pub open spec fn first_mail(mails: Seq<MailSighting>, k: int) -> bool {
    &&& 0 <= k < mails.len()
    &&& forall|j: int| 0 <= j < k ==> (#[trigger] mails[j]).path@ != mails[k].path@
}

/// Whether a message file is listed here and not before.
pub open spec fn first_message(
    mails: Seq<MailSighting>,
    messages: Seq<MessageSighting>,
    k: int,
) -> bool {
    &&& 0 <= k < messages.len()
    &&& forall|j: int| 0 <= j < k ==> (#[trigger] messages[j]).path@ != messages[k].path@
    &&& forall|j: int| 0 <= j < mails.len() ==> (#[trigger] mails[j]).path@ != messages[k].path@
}

proof fn new_mails_ring(room: Seq<char>, s: ScanView, mails: Seq<MailSighting>)
    ensures
        ({
            let end = scan_mails(room, s, mails);
            &&& s.events.len() <= end.events.len()
            &&& forall|i: int|
                s.events.len() <= i < end.events.len() ==> exists|k: int|
                    0 <= k < mails.len() && mail_rings(s.seen, #[trigger] mails[k])
                        && #[trigger] end.events[i] == mail_event(room, mails[k])
            &&& forall|k: int| #[trigger]
                first_mail(mails, k) && mail_rings(s.seen, mails[k]) ==> exists|i: int|
                    s.events.len() <= i < end.events.len() && #[trigger] end.events[i]
                        == mail_event(room, mails[k])
            &&& forall|path: Seq<char>| #[trigger]
                end.seen.contains(path) ==> s.seen.contains(path) || exists|k: int|
                    0 <= k < mails.len() && (#[trigger] mails[k]).path@ == path
        }),
    decreases mails.len(),
{
    if mails.len() > 0 {
        let before = mails.drop_last();
        let n = mails.len() - 1;
        new_mails_ring(room, s, before);
        mails_ring_no_channel(room, s, before);
        let mid = scan_mails(room, s, before);
        let end = scan_mails(room, s, mails);
        assert(mails[n] == mails.last());
        assert(first_mail(mails, n) && !s.seen.contains(mails[n].path@) ==> !mid.seen.contains(
            mails[n].path@,
        )) by {
            if first_mail(mails, n) && mid.seen.contains(mails[n].path@) && !s.seen.contains(
                mails[n].path@,
            ) {
                let k = choose|k: int|
                    0 <= k < before.len() && (#[trigger] before[k]).path@ == mails[n].path@;
                assert(before[k] == mails[k]);
            }
        }
        assert forall|i: int| s.events.len() <= i < end.events.len() implies exists|k: int|
            0 <= k < mails.len() && mail_rings(s.seen, #[trigger] mails[k])
                && #[trigger] end.events[i] == mail_event(room, mails[k]) by {
            if i < mid.events.len() {
                assert(mid.events[i] == end.events[i]);
                let k = choose|k: int|
                    0 <= k < before.len() && mail_rings(s.seen, #[trigger] before[k])
                        && mid.events[i] == mail_event(room, before[k]);
                assert(mails[k] == before[k]);
            } else {
                assert(mail_rings(s.seen, mails[n]));
            }
        }
        assert forall|k: int| #[trigger]
            first_mail(mails, k) && mail_rings(s.seen, mails[k]) implies exists|i: int|
            s.events.len() <= i < end.events.len() && #[trigger] end.events[i] == mail_event(
                room,
                mails[k],
            ) by {
            if k < n {
                assert(before[k] == mails[k]);
                assert(first_mail(before, k)) by {
                    assert forall|j: int| 0 <= j < k implies (#[trigger] before[j]).path@
                        != before[k].path@ by {
                        assert(before[j] == mails[j]);
                    }
                }
                let i = choose|i: int|
                    s.events.len() <= i < mid.events.len() && #[trigger] mid.events[i]
                        == mail_event(room, before[k]);
                assert(end.events[i] == mid.events[i]);
            } else {
                assert(end.events[mid.events.len() as int] == mail_event(room, mails[k]));
            }
        }
        assert forall|path: Seq<char>| #[trigger] end.seen.contains(path) implies s.seen.contains(
            path,
        ) || exists|k: int| 0 <= k < mails.len() && (#[trigger] mails[k]).path@ == path by {
            if mid.seen.contains(path) && !s.seen.contains(path) {
                let k = choose|k: int| 0 <= k < before.len() && (#[trigger] before[k]).path@ == path;
                assert(mails[k] == before[k]);
            } else if !mid.seen.contains(path) {
                assert(mails[n].path@ == path);
            }
        }
    }
}

proof fn new_messages_ring(
    room: Seq<char>,
    floors: Map<Seq<char>, Seq<char>>,
    s: ScanView,
    messages: Seq<MessageSighting>,
)
    ensures
        ({
            let end = scan_messages(room, floors, s, messages);
            &&& forall|i: int|
                s.events.len() <= i < end.events.len() ==> exists|k: int|
                    0 <= k < messages.len() && message_may_ring(
                        room,
                        floors,
                        s.seen,
                        s.emitted,
                        #[trigger] messages[k],
                    ) && #[trigger] end.events[i] == message_event(room, messages[k])
            &&& forall|k: int| #[trigger]
                first_message(seq![], messages, k) && message_may_ring(
                    room,
                    floors,
                    s.seen,
                    s.emitted,
                    messages[k],
                ) ==> end.emitted.contains(ring_key(messages[k]))
            &&& forall|key: Seq<char>| #[trigger]
                end.emitted.contains(key) && !s.emitted.contains(key) ==> exists|i: int, k: int|
                    #![trigger end.events[i], messages[k]]
                    s.events.len() <= i < end.events.len() && 0 <= k < messages.len()
                        && message_may_ring(room, floors, s.seen, s.emitted, messages[k])
                        && ring_key(messages[k]) == key && end.events[i] == message_event(
                        room,
                        messages[k],
                    )
        }),
    decreases messages.len(),
{
    if messages.len() > 0 {
        let before = messages.drop_last();
        let n = messages.len() - 1;
        let m = messages[n];
        new_messages_ring(room, floors, s, before);
        messages_ring_for_others(room, floors, s, before);
        let mid = scan_messages(room, floors, s, before);
        let end = scan_messages(room, floors, s, messages);
        assert(m == messages.last());
        let first = first_message(seq![], messages, n);
        assert(first && !s.seen.contains(m.path@) ==> !mid.seen.contains(m.path@)) by {
            if first && !s.seen.contains(m.path@) {
                assert forall|j: int| 0 <= j < before.len() implies (#[trigger] before[j]).path@
                    != m.path@ by {
                    assert(before[j] == messages[j]);
                }
                unseen_stays_unseen(room, floors, s, before, m.path@);
            }
        }
        assert forall|i: int| s.events.len() <= i < end.events.len() implies exists|k: int|
            0 <= k < messages.len() && message_may_ring(
                room,
                floors,
                s.seen,
                s.emitted,
                #[trigger] messages[k],
            ) && #[trigger] end.events[i] == message_event(room, messages[k]) by {
            if i < mid.events.len() {
                assert(mid.events[i] == end.events[i]);
                let k = choose|k: int|
                    0 <= k < before.len() && message_may_ring(
                        room,
                        floors,
                        s.seen,
                        s.emitted,
                        #[trigger] before[k],
                    ) && mid.events[i] == message_event(room, before[k]);
                assert(messages[k] == before[k]);
            } else {
                assert(message_may_ring(room, floors, s.seen, s.emitted, messages[n]));
            }
        }
        assert forall|k: int| #[trigger]
            first_message(seq![], messages, k) && message_may_ring(
                room,
                floors,
                s.seen,
                s.emitted,
                messages[k],
            ) implies end.emitted.contains(ring_key(messages[k])) by {
            if k < n {
                assert(before[k] == messages[k]);
                assert(first_message(seq![], before, k)) by {
                    assert forall|j: int| 0 <= j < k implies (#[trigger] before[j]).path@
                        != before[k].path@ by {
                        assert(before[j] == messages[j]);
                    }
                }
                assert(mid.emitted.contains(ring_key(before[k])));
            }
        }
        assert forall|key: Seq<char>| #[trigger]
            end.emitted.contains(key) && !s.emitted.contains(key) implies exists|i: int, k: int|
            #![trigger end.events[i], messages[k]]
            s.events.len() <= i < end.events.len() && 0 <= k < messages.len() && message_may_ring(
                room,
                floors,
                s.seen,
                s.emitted,
                messages[k],
            ) && ring_key(messages[k]) == key && end.events[i] == message_event(
                room,
                messages[k],
            ) by {
            if mid.emitted.contains(key) {
                let (i, k) = choose|i: int, k: int|
                    #![trigger mid.events[i], before[k]]
                    s.events.len() <= i < mid.events.len() && 0 <= k < before.len()
                        && message_may_ring(room, floors, s.seen, s.emitted, before[k])
                        && ring_key(before[k]) == key && mid.events[i] == message_event(
                        room,
                        before[k],
                    );
                assert(messages[k] == before[k]);
                assert(end.events[i] == mid.events[i]);
            } else {
                let i = mid.events.len() as int;
                assert(end.events[i] == message_event(room, messages[n]));
                assert(ring_key(messages[n]) == key);
            }
        }
    }
}

/// Whether an event is the ring of a message that another room wrote, under an id that has not
/// rung and that the room has not read, in a file that was not looked at.
pub open spec fn is_unread_message(
    event: EventView,
    room: Seq<char>,
    floors: Map<Seq<char>, Seq<char>>,
    seen: Set<Seq<char>>,
    emitted: Set<Seq<char>>,
    m: MessageSighting,
) -> bool {
    match m.outcome {
        MessageOutcome::Message(message) => {
            &&& event == (EventView::Channel { event: ring_of(message, room) })
            &&& message.from@ != room
            &&& !(floors.contains_key(m.channel@) && text::le(message.id@, floors[m.channel@]))
            &&& !emitted.contains(message.id@)
            &&& !seen.contains(m.path@)
        },
        _ => false,
    }
}

/// What a scan of a room rings for, as a whole, whatever was found. Of mails: every one that is new, and
/// no other. Of channel messages: those that are new, that the room has not read and did not
/// write, that have not rung, and that lie in a sound channel of the room; no other, each of
/// them, and no id twice. A scan of an unchanged store then rings for nothing.
pub proof fn scans_ring_for_the_news(
    room: Seq<char>,
    floors: Map<Seq<char>, Seq<char>>,
    seen: Set<Seq<char>>,
    emitted: Set<Seq<char>>,
    found: Seq<ChannelSighting>,
    mails: Seq<MailSighting>,
    looks: Seq<MessageLook>,
    messages: Seq<MessageSighting>,
)
    requires
        looked_at(messages, all_heard(found, room), looks),
    ensures
        ({
            let end = scan(room, floors, scan_start(seen, emitted), mails, messages);
            &&& forall|i: int|
                #![trigger end.events[i]]
                0 <= i < end.events.len() ==> {
                    ||| exists|k: int|
                        0 <= k < mails.len() && mail_rings(seen, #[trigger] mails[k])
                            && end.events[i] == mail_event(room, mails[k])
                    ||| exists|k: int|
                        0 <= k < messages.len() && message_may_ring(
                            room,
                            floors,
                            seen,
                            emitted,
                            #[trigger] messages[k],
                        ) && in_own_channel(found, room, messages[k]) && end.events[i]
                            == message_event(room, messages[k])
                }
            &&& forall|i: int|
                0 <= i < end.events.len() && (#[trigger] end.events[i]) is Channel ==> exists|
                    k: int,
                |
                    0 <= k < messages.len() && is_unread_message(
                        end.events[i],
                        room,
                        floors,
                        seen,
                        emitted,
                        #[trigger] messages[k],
                    )
            &&& forall|k: int| #[trigger]
                first_mail(mails, k) && mail_rings(seen, mails[k]) ==> end.events.contains(
                    mail_event(room, mails[k]),
                )
            &&& forall|k: int| #[trigger]
                first_message(mails, messages, k) && message_may_ring(
                    room,
                    floors,
                    seen,
                    emitted,
                    messages[k],
                ) ==> exists|j: int|
                    0 <= j < messages.len() && ring_key(#[trigger] messages[j]) == ring_key(
                        messages[k],
                    ) && end.events.contains(message_event(room, messages[j]))
            &&& rings_once(end)
            &&& scan(
                room,
                floors,
                scan_start(end.seen, end.emitted),
                mails,
                messages,
            ) == scan_start(end.seen, end.emitted)
        }),
{
    let start = scan_start(seen, emitted);
    let mid = scan_mails(room, start, mails);
    let end = scan(room, floors, start, mails, messages);
    new_mails_ring(room, start, mails);
    mails_ring_no_channel(room, start, mails);
    new_messages_ring(room, floors, mid, messages);
    messages_ring_for_others(room, floors, mid, messages);
    rooms_ring_for_their_channels(found, room, looks, messages);
    assert forall|i: int|
        #![trigger end.events[i]]
        0 <= i < end.events.len() implies {
        ||| exists|k: int|
            0 <= k < mails.len() && mail_rings(seen, #[trigger] mails[k]) && end.events[i]
                == mail_event(room, mails[k])
        ||| exists|k: int|
            0 <= k < messages.len() && message_may_ring(
                room,
                floors,
                seen,
                emitted,
                #[trigger] messages[k],
            ) && in_own_channel(found, room, messages[k]) && end.events[i] == message_event(
                room,
                messages[k],
            )
    } by {
        if i < mid.events.len() {
            assert(end.events[i] == mid.events[i]);
        } else {
            let k = choose|k: int|
                0 <= k < messages.len() && message_may_ring(
                    room,
                    floors,
                    mid.seen,
                    mid.emitted,
                    #[trigger] messages[k],
                ) && end.events[i] == message_event(room, messages[k]);
            assert(message_may_ring(room, floors, seen, emitted, messages[k]));
            assert(in_own_channel(found, room, messages[k]));
        }
    }
    assert forall|i: int|
        0 <= i < end.events.len() && (#[trigger] end.events[i]) is Channel implies exists|k: int|
        0 <= k < messages.len() && is_unread_message(
            end.events[i],
            room,
            floors,
            seen,
            emitted,
            #[trigger] messages[k],
        ) by {
        if i < mid.events.len() {
            assert(end.events[i] == mid.events[i]);
        } else {
            let k = choose|k: int|
                0 <= k < messages.len() && message_may_ring(
                    room,
                    floors,
                    mid.seen,
                    mid.emitted,
                    #[trigger] messages[k],
                ) && end.events[i] == message_event(room, messages[k]);
            assert(is_unread_message(end.events[i], room, floors, seen, emitted, messages[k]));
        }
    }
    assert forall|k: int| #[trigger]
        first_mail(mails, k) && mail_rings(seen, mails[k]) implies end.events.contains(
        mail_event(room, mails[k]),
    ) by {
        let i = choose|i: int|
            0 <= i < mid.events.len() && #[trigger] mid.events[i] == mail_event(room, mails[k]);
        assert(end.events[i] == mid.events[i]);
    }
    assert forall|k: int| #[trigger]
        first_message(mails, messages, k) && message_may_ring(
            room,
            floors,
            seen,
            emitted,
            messages[k],
        ) implies exists|j: int|
        0 <= j < messages.len() && ring_key(#[trigger] messages[j]) == ring_key(messages[k])
            && end.events.contains(message_event(room, messages[j])) by {
        assert(!mid.seen.contains(messages[k].path@)) by {
            if mid.seen.contains(messages[k].path@) {
                let j = choose|j: int|
                    0 <= j < mails.len() && (#[trigger] mails[j]).path@ == messages[k].path@;
                assert(mails[j].path@ != messages[k].path@);
            }
        }
        assert(first_message(seq![], messages, k));
        assert(message_may_ring(room, floors, mid.seen, mid.emitted, messages[k]));
        let key = ring_key(messages[k]);
        assert(end.emitted.contains(key) && !mid.emitted.contains(key));
        let (i, j) = choose|i: int, j: int|
            #![trigger end.events[i], messages[j]]
            mid.events.len() <= i < end.events.len() && 0 <= j < messages.len()
                && message_may_ring(room, floors, mid.seen, mid.emitted, messages[j]) && ring_key(
                messages[j],
            ) == key && end.events[i] == message_event(room, messages[j]);
        assert(end.events.contains(message_event(room, messages[j])));
    }
    channel_messages_ring_once(room, floors, start, mails, messages);
    let again = scan_start(end.seen, end.emitted);
    seen_mails_are_quiet(room, again, mails);
    seen_messages_are_quiet(room, floors, again, messages);
}

// ---------------------------------------------------------------------------
// Output and polling
// ---------------------------------------------------------------------------
/// What a snapshot prints of its events: the last of them, if it was given a limit.
pub open spec fn limited(events: Seq<WatchEvent>, limit: Option<usize>) -> Seq<WatchEvent> {
    if limit is Some && limit->0 > 0 && events.len() > limit->0 {
        events.skip(events.len() - limit->0)
    } else {
        events
    }
}

/// What is said of events that a snapshot leaves out.
pub open spec fn omitted_notice(omitted: nat) -> Option<Seq<char>> {
    if omitted == 0 {
        None
    } else {
        Some(
            "post: snapshot limit omitted "@ + text::decimal(omitted) + " earlier "@ + (
            if omitted == 1 {
                "event"@
            } else {
                "events"@
            }) + " (use --limit 0 for all)"@,
        )
    }
}

/// Bounds the events of a snapshot, and says how many it leaves out.
pub fn limit_events(events: Vec<WatchEvent>, limit: Option<usize>) -> (r: (
    Vec<WatchEvent>,
    Option<String>,
))
    ensures
        r.0@ == limited(events@, limit),
        text::opt(r.1) == omitted_notice((events@.len() - limited(events@, limit).len()) as nat),
{
    let total: usize = events.len();
    match limit {
        Some(n) => {
            if n > 0 && total > n {
                let mut all = events;
                let omitted: usize = total - n;
                let kept = all.split_off(omitted);
                assert(kept@ =~= events@.skip(events@.len() - n));
                let noun = if omitted == 1 {
                    "event"
                } else {
                    "events"
                };
                let notice = text::cat5(
                    "post: snapshot limit omitted ",
                    text::decimal_text(omitted as u64).as_str(),
                    " earlier ",
                    noun,
                    " (use --limit 0 for all)",
                );
                return (kept, Some(notice));
            }
        },
        None => {},
    }
    (events, None)
}

/// What a long watch does after a poll.
#[derive(Debug, Clone, Copy, PartialEq, Eq, Structural)]
pub enum AfterPoll {
    /// Nothing rang: wait.
    Wait,
    /// Print the events, then wait.
    EmitAndWait,
    /// Print the events and end.
    EmitAndStop,
}

pub fn after_poll(events: usize, once: bool) -> (r: AfterPoll)
    ensures
        r == if events == 0 {
            AfterPoll::Wait
        } else if once {
            AfterPoll::EmitAndStop
        } else {
            AfterPoll::EmitAndWait
        },
{
    if events == 0 {
        AfterPoll::Wait
    } else if once {
        AfterPoll::EmitAndStop
    } else {
        AfterPoll::EmitAndWait
    }
}

impl WatchTarget {
    /// Notes how a scan ended. A watch that cannot look goes on, and says so once when scans
    /// begin to fail and once when they work again.
    pub fn note_scan(&mut self, problem: Option<&str>) -> (r: Option<String>)
        ensures
            final(self).scan_failing == (problem is Some),
            final(self).room == old(self).room,
            final(self).floors == old(self).floors,
            final(self).seen == old(self).seen,
            text::opt(r) == match problem {
                None => if old(self).scan_failing {
                    Some(
                        "post: warning: watch scan recovered for room "@ + outside::debug_form(
                            old(self).room@,
                        ),
                    )
                } else {
                    None
                },
                Some(p) => if old(self).scan_failing {
                    None
                } else {
                    Some(
                        "post: warning: watch scan failed for room "@ + outside::debug_form(
                            old(self).room@,
                        ) + " (will keep polling): "@ + p@,
                    )
                },
            },
    {
        let was: bool = self.scan_failing;
        self.scan_failing = problem.is_some();
        let room = outside::debug_quoted(self.room.as_str());
        match problem {
            None => if was {
                Some(text::cat2("post: warning: watch scan recovered for room ", room.as_str()))
            } else {
                None
            },
            Some(p) => if was {
                None
            } else {
                Some(
                    text::cat4(
                        "post: warning: watch scan failed for room ",
                        room.as_str(),
                        " (will keep polling): ",
                        p,
                    ),
                )
            },
        }
    }
}

/// What is said of a channel that a watch passes over.
pub fn skipped_channel(name: &str, problem: &str) -> (r: String)
    ensures
        r@ == skipped_text(name@, problem@),
{
    text::cat4(
        "post: warning: skipped channel ",
        outside::debug_quoted(name).as_str(),
        ": ",
        outside::debug_quoted(problem).as_str(),
    )
}

/// What is said of a directory whose name cannot be a channel's.
pub fn skipped_invalid_channel(name: &str, problem: &str) -> (r: String)
    ensures
        r@ == "post: warning: skipped invalid channel "@ + outside::debug_form(name@) + ": "@
            + outside::debug_form(problem@),
{
    text::cat4(
        "post: warning: skipped invalid channel ",
        outside::debug_quoted(name).as_str(),
        ": ",
        outside::debug_quoted(problem).as_str(),
    )
}

/// What is said of a channel directory whose name is no text.
pub fn skipped_nameless_channel(dir: &str) -> (r: String)
    ensures
        r@ == "post: warning: skipped channel with non-UTF-8 name under "@ + outside::debug_form(
            dir@,
        ),
{
    text::cat2(
        "post: warning: skipped channel with non-UTF-8 name under ",
        outside::debug_quoted(dir).as_str(),
    )
}

/// What is said where the channels cannot be listed, or one of their directory entries cannot
/// be read.
pub fn unlisted_channels(whole: bool, dir: &str, problem: &str) -> (r: String)
    ensures
        r@ == (if whole {
            "post: warning: cannot list channels directory "@
        } else {
            "post: warning: cannot read channels entry "@
        }) + outside::debug_form(dir@) + ": "@ + outside::debug_form(problem@),
{
    let head = if whole {
        "post: warning: cannot list channels directory "
    } else {
        "post: warning: cannot read channels entry "
    };
    text::cat4(
        head,
        outside::debug_quoted(dir).as_str(),
        ": ",
        outside::debug_quoted(problem).as_str(),
    )
}

// ---------------------------------------------------------------------------
// Channels to listen to
// ---------------------------------------------------------------------------
/// An entry of the channels directory, as a watch finds it.
#[derive(Debug)]
pub enum ChannelSighting {
    /// It could not be read; the text says why.
    Unread(String),
    /// It is no directory, or holds no channel.
    Other,
    /// Its name is no text.
    Nameless,
    /// Its name cannot be a channel's; the text says why.
    Invalid { name: String, problem: String },
    Channel {
        name: String,
        /// What is wrong with the channel's file.
        info_problem: Option<String>,
        members: Result<MemberMap, String>,
        files: Result<Vec<String>, String>,
    },
}

/// What is said of a channel that a watch passes over.
pub open spec fn skipped_text(name: Seq<char>, problem: Seq<char>) -> Seq<char> {
    "post: warning: skipped channel "@ + outside::debug_form(name) + ": "@ + outside::debug_form(
        problem,
    )
}

/// What is said of an entry that a watch passes over.
pub open spec fn sighting_warning(
    seen: ChannelSighting,
    dir: Seq<char>,
    room: Seq<char>,
) -> Option<Seq<char>> {
    match seen {
        ChannelSighting::Unread(problem) => Some(
            "post: warning: cannot read channels entry "@ + outside::debug_form(dir) + ": "@
                + outside::debug_form(problem@),
        ),
        ChannelSighting::Other => None,
        ChannelSighting::Nameless => Some(
            "post: warning: skipped channel with non-UTF-8 name under "@ + outside::debug_form(dir),
        ),
        ChannelSighting::Invalid { name, problem } => Some(
            "post: warning: skipped invalid channel "@ + outside::debug_form(name@) + ": "@
                + outside::debug_form(problem@),
        ),
        ChannelSighting::Channel { name, info_problem, members, files } => {
            if info_problem is Some {
                Some(skipped_text(name@, info_problem->0@))
            } else if members is Err {
                Some(skipped_text(name@, members->Err_0@))
            } else if members->Ok_0@.contains_key(room) && files is Err {
                Some(skipped_text(name@, files->Err_0@))
            } else {
                None
            }
        },
    }
}

/// Whether an entry is a sound channel that a room belongs to.
pub open spec fn is_heard(seen: ChannelSighting, room: Seq<char>) -> bool {
    match seen {
        ChannelSighting::Channel { name, info_problem, members, files } => info_problem is None
            && members is Ok && members->Ok_0@.contains_key(room) && files is Ok,
        _ => false,
    }
}

/// Messages, each with the name of its channel.
pub open spec fn named_files(files: Seq<(String, String)>) -> Seq<(Seq<char>, Seq<char>)> {
    files.map_values(|file: (String, String)| (file.0@, file.1@))
}

/// The files of an entry that a room listens to.
pub open spec fn heard_files(seen: ChannelSighting, room: Seq<char>) -> Seq<
    (Seq<char>, Seq<char>),
> {
    if is_heard(seen, room) {
        seen->files->Ok_0@.map_values(|file: String| (seen->Channel_name@, file@))
    } else {
        seq![]
    }
}

/// The files that a room listens to.
pub open spec fn all_heard(seen: Seq<ChannelSighting>, room: Seq<char>) -> Seq<
    (Seq<char>, Seq<char>),
>
    decreases seen.len(),
{
    if seen.len() == 0 {
        seq![]
    } else {
        all_heard(seen.drop_last(), room) + heard_files(seen.last(), room)
    }
}

/// What is said of the entries that a watch passes over.
pub open spec fn sighting_warnings(
    seen: Seq<ChannelSighting>,
    dir: Seq<char>,
    room: Seq<char>,
) -> Seq<Seq<char>>
    decreases seen.len(),
{
    if seen.len() == 0 {
        seq![]
    } else {
        let before = sighting_warnings(seen.drop_last(), dir, room);
        match sighting_warning(seen.last(), dir, room) {
            Some(line) => before.push(line),
            None => before,
        }
    }
}

/// What is said of one entry.
fn warning_of(seen: &ChannelSighting, dir: &str, room: &str) -> (r: Option<String>)
    ensures
        text::opt(r) == sighting_warning(*seen, dir@, room@),
{
    match seen {
        ChannelSighting::Unread(problem) => Some(unlisted_channels(false, dir, problem.as_str())),
        ChannelSighting::Other => None,
        ChannelSighting::Nameless => Some(skipped_nameless_channel(dir)),
        ChannelSighting::Invalid { name, problem } => Some(
            skipped_invalid_channel(name.as_str(), problem.as_str()),
        ),
        ChannelSighting::Channel { name, info_problem, members, files } => match info_problem {
            Some(problem) => Some(skipped_channel(name.as_str(), problem.as_str())),
            None => match members {
                Err(problem) => Some(skipped_channel(name.as_str(), problem.as_str())),
                Ok(members) => if members.contains_key(room) {
                    match files {
                        Err(problem) => Some(skipped_channel(name.as_str(), problem.as_str())),
                        Ok(_) => None,
                    }
                } else {
                    None
                },
            },
        },
    }
}

/// The files of one entry, added to those of others.
fn take_files(seen: &ChannelSighting, room: &str, heard: &mut Vec<(String, String)>)
    ensures
        named_files(final(heard)@) == named_files(old(heard)@) + heard_files(*seen, room@),
{
    let ghost before = named_files(heard@);
    match seen {
        ChannelSighting::Channel { name, info_problem, members, files } => match (members, files) {
            (Ok(members), Ok(files)) => {
                if info_problem.is_none() && members.contains_key(room) {
                    for i in 0..files.len()
                        invariant
                            named_files(heard@) == before + files@.take(i as int).map_values(
                                |file: String| (name@, file@),
                            ),
                    {
                        let ghost now = named_files(heard@);
                        heard.push((name.clone(), files[i].clone()));
                        assert(named_files(heard@) =~= now.push((name@, files@[i as int]@)));
                        assert(named_files(heard@) =~= before + files@.take(i + 1).map_values(
                            |file: String| (name@, file@),
                        ));
                    }
                    assert(files@.take(files@.len() as int) =~= files@);
                    assert(named_files(heard@) == before + heard_files(*seen, room@));
                    return;
                }
            },
            _ => {},
        },
        _ => {},
    }
    assert(named_files(heard@) =~= before + heard_files(*seen, room@));
}

/// Gathers the messages of the channels that a room belongs to, and says what is to be said of
/// the entries that are passed over: a channel that cannot be read silences only itself.
pub fn gather_messages(seen: &Vec<ChannelSighting>, dir: &str, room: &str) -> (r: (
    Vec<(String, String)>,
    Vec<String>,
))
    ensures
        named_files(r.0@) == all_heard(seen@, room@),
        text::texts(r.1@) == sighting_warnings(seen@, dir@, room@),
{
    let mut heard: Vec<(String, String)> = Vec::new();
    let mut warnings: Vec<String> = Vec::new();
    assert(named_files(heard@) =~= all_heard(seen@.take(0), room@));
    assert(text::texts(warnings@) =~= sighting_warnings(seen@.take(0), dir@, room@));
    for i in 0..seen.len()
        invariant
            named_files(heard@) == all_heard(seen@.take(i as int), room@),
            text::texts(warnings@) == sighting_warnings(seen@.take(i as int), dir@, room@),
    {
        assert(seen@.take(i + 1).drop_last() =~= seen@.take(i as int));
        let ghost said = text::texts(warnings@);
        take_files(&seen[i], room, &mut heard);
        match warning_of(&seen[i], dir, room) {
            Some(line) => {
                warnings.push(line);
                assert(text::texts(warnings@) =~= said.push(line@));
            },
            None => {},
        }
    }
    assert(seen@.take(seen@.len() as int) =~= seen@);
    (heard, warnings)
}

/// A room hears its own channels only: every message that is gathered lies in a sound channel
/// that the room belongs to.
pub proof fn rooms_hear_only_their_channels(seen: Seq<ChannelSighting>, room: Seq<char>, i: int)
    requires
        0 <= i < all_heard(seen, room).len(),
    ensures
        exists|k: int|
            0 <= k < seen.len() && is_heard(#[trigger] seen[k], room) && heard_files(
                seen[k],
                room,
            ).contains(all_heard(seen, room)[i]),
    decreases seen.len(),
{
    let before = all_heard(seen.drop_last(), room);
    if i < before.len() {
        rooms_hear_only_their_channels(seen.drop_last(), room, i);
        let k = choose|k: int|
            0 <= k < seen.drop_last().len() && is_heard(#[trigger] seen.drop_last()[k], room)
                && heard_files(seen.drop_last()[k], room).contains(before[i]);
        assert(seen[k] == seen.drop_last()[k]);
    } else {
        let own = heard_files(seen.last(), room);
        assert(own[i - before.len()] == all_heard(seen, room)[i]);
        assert(own.contains(all_heard(seen, room)[i]));
        assert(seen[seen.len() - 1] == seen.last());
    }
}

/// A channel that cannot be read silences only itself: the messages of every sound channel of
/// the room are gathered, whatever else was found.
pub proof fn sound_channels_are_heard(seen: Seq<ChannelSighting>, room: Seq<char>, k: int)
    requires
        0 <= k < seen.len(),
        is_heard(seen[k], room),
    ensures
        forall|file: (Seq<char>, Seq<char>)| #[trigger]
            heard_files(seen[k], room).contains(file) ==> all_heard(seen, room).contains(file),
    decreases seen.len(),
{
    let before = all_heard(seen.drop_last(), room);
    let own = heard_files(seen.last(), room);
    if k < seen.len() - 1 {
        sound_channels_are_heard(seen.drop_last(), room, k);
    }
    assert forall|file: (Seq<char>, Seq<char>)| #[trigger]
        heard_files(seen[k], room).contains(file) implies all_heard(seen, room).contains(file) by {
        if k < seen.len() - 1 {
            assert(seen.drop_last()[k] == seen[k]);
            let i = choose|i: int| 0 <= i < before.len() && before[i] == file;
            assert(all_heard(seen, room)[i] == file);
        } else {
            let i = choose|i: int| 0 <= i < own.len() && own[i] == file;
            assert(all_heard(seen, room)[before.len() + i] == file);
        }
    }
}

// ---------------------------------------------------------------------------
// Scans of a room
// ---------------------------------------------------------------------------
/// What came of a look at a message file.
#[derive(Debug)]
pub struct MessageLook {
    /// The file name without its extension, unless it is no text.
    pub stem: Option<String>,
    pub outcome: MessageOutcome,
}

/// Whether some sightings are files, in their order, each with what came of the look at it. A
/// file without a look is left out.
pub open spec fn looked_at(
    messages: Seq<MessageSighting>,
    files: Seq<(Seq<char>, Seq<char>)>,
    looks: Seq<MessageLook>,
) -> bool {
    &&& messages.len() == if files.len() <= looks.len() {
        files.len()
    } else {
        looks.len()
    }
    &&& forall|k: int|
        0 <= k < messages.len() ==> (#[trigger] messages[k]).stem == looks[k].stem
            && messages[k].outcome == looks[k].outcome && (messages[k].channel@, messages[k].path@)
            == files[k]
}

fn sighted(files: Vec<(String, String)>, looks: Vec<MessageLook>) -> (r: Vec<MessageSighting>)
    ensures
        looked_at(r@, named_files(files@), looks@),
{
    let mut messages: Vec<MessageSighting> = Vec::new();
    let count: usize = if files.len() <= looks.len() {
        files.len()
    } else {
        looks.len()
    };
    let mut rest = order::reversed(looks);
    assert(looks@.skip(0).reverse() =~= looks@.reverse());
    for i in 0..count
        invariant
            count <= files@.len(),
            count <= looks@.len(),
            rest@ == looks@.skip(i as int).reverse(),
            messages@.len() == i,
            forall|k: int|
                0 <= k < i ==> (#[trigger] messages@[k]).stem == looks@[k].stem
                    && messages@[k].outcome == looks@[k].outcome && (
                messages@[k].channel@,
                messages@[k].path@,
            ) == named_files(files@)[k],
    {
        assert(rest@.last() == looks@[i as int]);
        match rest.pop() {
            Some(look) => {
                assert(rest@ =~= looks@.skip(i + 1).reverse());
                messages.push(
                    MessageSighting {
                        channel: files[i].0.clone(),
                        path: files[i].1.clone(),
                        stem: look.stem,
                        outcome: look.outcome,
                    },
                );
            },
            None => {
                assert(false);
            },
        }
    }
    messages
}

/// Scans a room: its mails, and the message files of the channels that it belongs to, among
/// the entries that were found. The looks are those at the files of [`gather_messages`].
pub fn scan_room(
    target: &mut WatchTarget,
    emitted: &mut NameSet,
    found: &Vec<ChannelSighting>,
    mails: Vec<MailSighting>,
    looks: Vec<MessageLook>,
) -> (r: Scan)
    ensures
        exists|messages: Seq<MessageSighting>|
            {
                let end = scan(
                    old(target).room@,
                    old(target).floors@,
                    scan_start(old(target).seen@.dom(), old(emitted)@.dom()),
                    mails@,
                    messages,
                );
                &&& #[trigger] looked_at(
                    messages,
                    all_heard(found@, old(target).room@),
                    looks@,
                )
                &&& events_view(r.events@) == end.events
                &&& text::texts(r.warnings@) == end.warnings
                &&& final(target).seen@.dom() == end.seen
                &&& final(emitted)@.dom() == end.emitted
            },
        final(target).room == old(target).room,
        final(target).floors == old(target).floors,
        final(target).scan_failing == old(target).scan_failing,
{
    let (files, _) = gather_messages(found, "", target.room.as_str());
    let messages = sighted(files, looks);
    assert(looked_at(messages@, all_heard(found@, old(target).room@), looks@));
    scan_batch(target, emitted, mails, messages)
}

/// Whether a message file lies in a sound channel that the room belongs to.
pub open spec fn in_own_channel(
    found: Seq<ChannelSighting>,
    room: Seq<char>,
    m: MessageSighting,
) -> bool {
    exists|c: int|
        0 <= c < found.len() && is_heard(#[trigger] found[c], room) && heard_files(
            found[c],
            room,
        ).contains((m.channel@, m.path@))
}

/// A room rings for its own channels only: every message file of its scan lies in a sound
/// channel that it belongs to.
pub proof fn rooms_ring_for_their_channels(
    found: Seq<ChannelSighting>,
    room: Seq<char>,
    looks: Seq<MessageLook>,
    messages: Seq<MessageSighting>,
)
    requires
        looked_at(messages, all_heard(found, room), looks),
    ensures
        forall|k: int|
            0 <= k < messages.len() ==> in_own_channel(found, room, #[trigger] messages[k]),
{
    assert forall|k: int| 0 <= k < messages.len() implies in_own_channel(
        found,
        room,
        #[trigger] messages[k],
    ) by {
        rooms_hear_only_their_channels(found, room, k);
    }
}

} // verus!
