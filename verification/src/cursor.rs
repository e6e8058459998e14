//! Read cursors: for each room, the last message that it has read of each channel.
use crate::context;
use crate::context::Context;
use crate::error;
use crate::error::{AppError, AppResult, ErrorCode};
use crate::names;
use crate::paths;
use crate::text;
use crate::textmap::TextMap;
use vstd::prelude::*;

verus! {

/// The cursors of one room. They belong to the reader: a lost cursor shows old messages again
/// and can lose none.
#[derive(Debug)]
pub struct ChannelState {
    cursors: TextMap<String>,
}

impl View for ChannelState {
    type V = Map<Seq<char>, Seq<char>>;

    closed spec fn view(&self) -> Map<Seq<char>, Seq<char>> {
        Map::new(
            |channel: Seq<char>| self.cursors@.contains_key(channel),
            |channel: Seq<char>| self.cursors@[channel]@,
        )
    }
}

/// The cursor of a channel, if it has one.
pub open spec fn cursor_in(cursors: Map<Seq<char>, Seq<char>>, channel: Seq<char>) -> Option<
    Seq<char>,
> {
    if cursors.contains_key(channel) {
        Some(cursors[channel])
    } else {
        None
    }
}

/// Whether an id lies past a cursor. Without a cursor, everything does.
pub open spec fn past(cursor: Option<Seq<char>>, id: Seq<char>) -> bool {
    cursor is None || text::lt(cursor->0, id)
}

pub fn is_past(cursor: Option<&str>, id: &str) -> (r: bool)
    ensures
        r == past(text::opt_str(cursor), id@),
{
    match cursor {
        None => true,
        Some(last) => text::less(last, id),
    }
}

/// The cursors after one channel was read up to an id.
pub open spec fn advanced(
    cursors: Map<Seq<char>, Seq<char>>,
    channel: Seq<char>,
    id: Seq<char>,
) -> Map<Seq<char>, Seq<char>> {
    if past(cursor_in(cursors, channel), id) {
        cursors.insert(channel, id)
    } else {
        cursors
    }
}

/// What one advance did. A repeated advance moves nothing and is no error.
#[derive(Debug)]
pub struct CursorAdvance {
    pub prior: Option<String>,
    pub cursor: String,
    pub advanced: bool,
}

impl Default for ChannelState {
    /// The state of a room that has read nothing.
    fn default() -> (r: ChannelState)
        ensures
            r@ == Map::<Seq<char>, Seq<char>>::empty(),
    {
        let r = ChannelState { cursors: TextMap::new() };
        assert(r@ =~= Map::<Seq<char>, Seq<char>>::empty());
        r
    }
}

impl ChannelState {
    /// Takes over a stored cursor.
    pub fn restore(&mut self, channel: &str, id: &str)
        ensures
            final(self)@ == old(self)@.insert(channel@, id@),
    {
        let ghost before = self@;
        self.cursors.insert(channel, id.to_owned());
        assert(self@ =~= before.insert(channel@, id@));
    }

    /// How many channels have a cursor.
    pub fn len(&self) -> (n: usize)
        ensures
            n == self.channels().len(),
    {
        self.cursors.len()
    }

    /// The channels that have a cursor, in order.
    pub closed spec fn channels(self) -> Seq<Seq<char>> {
        self.cursors.keys()
    }

    /// The channel and the cursor at a position.
    pub fn entry(&self, i: usize) -> (r: (&str, &str))
        requires
            i < self.channels().len(),
        ensures
            r.0@ == self.channels()[i as int],
            self@.contains_key(r.0@),
            self@[r.0@] == r.1@,
    {
        (self.cursors.key_at(i).as_str(), self.cursors.value_at(i).as_str())
    }

    /// The last message of a channel that was read.
    pub fn cursor(&self, channel: &str) -> (r: Option<&str>)
        ensures
            text::opt_str(r) == cursor_in(self@, channel@),
    {
        match self.cursors.get(channel) {
            Some(id) => Some(id.as_str()),
            None => None,
        }
    }

    /// Moves the cursor of a channel to an id, if that lies past it.
    pub fn advance(&mut self, channel: &str, last_read_id: &str) -> (r: CursorAdvance)
        ensures
            final(self)@ == advanced(old(self)@, channel@, last_read_id@),
            text::opt(r.prior) == cursor_in(old(self)@, channel@),
            r.advanced == past(cursor_in(old(self)@, channel@), last_read_id@),
            Some(r.cursor@) == cursor_in(final(self)@, channel@),
    {
        let ghost before = self@;
        let prior = text::opt_owned(self.cursor(channel));
        match &prior {
            Some(current) => {
                if !text::less(current.as_str(), last_read_id) {
                    let kept = current.clone();
                    return CursorAdvance { prior, cursor: kept, advanced: false };
                }
            },
            None => {},
        }
        self.restore(channel, last_read_id);
        CursorAdvance { prior, cursor: last_read_id.to_owned(), advanced: true }
    }
}

// ---------------------------------------------------------------------------
// Laws
// ---------------------------------------------------------------------------
/// A cursor never moves backward, and a read that was done stays done: after an advance the
/// cursor lies at the id or past it.
pub proof fn cursors_never_move_backward(
    cursors: Map<Seq<char>, Seq<char>>,
    channel: Seq<char>,
    id: Seq<char>,
)
    ensures
        cursor_in(advanced(cursors, channel, id), channel) is Some,
        text::le(id, cursor_in(advanced(cursors, channel, id), channel)->0),
        cursors.contains_key(channel) ==> text::le(
            cursors[channel],
            cursor_in(advanced(cursors, channel, id), channel)->0,
        ),
        !past(cursor_in(advanced(cursors, channel, id), channel), id),
{
    text::lt_irreflexive(id);
    if cursors.contains_key(channel) {
        text::lt_total(cursors[channel], id);
    }
}

/// A repeated advance changes nothing more.
pub proof fn advancing_twice_is_advancing_once(
    cursors: Map<Seq<char>, Seq<char>>,
    channel: Seq<char>,
    id: Seq<char>,
)
    ensures
        advanced(advanced(cursors, channel, id), channel, id) == advanced(cursors, channel, id),
{
    cursors_never_move_backward(cursors, channel, id);
}

/// The order of two advances does not matter: whichever comes first, the farther one stays.
/// Advances of different channels never lose each other.
pub proof fn advances_commute(
    cursors: Map<Seq<char>, Seq<char>>,
    channel: Seq<char>,
    id: Seq<char>,
    other_channel: Seq<char>,
    other_id: Seq<char>,
)
    ensures
        advanced(advanced(cursors, channel, id), other_channel, other_id) == advanced(
            advanced(cursors, other_channel, other_id),
            channel,
            id,
        ),
        channel != other_channel ==> cursor_in(advanced(cursors, channel, id), other_channel)
            == cursor_in(cursors, other_channel),
{
    let left = advanced(advanced(cursors, channel, id), other_channel, other_id);
    let right = advanced(advanced(cursors, other_channel, other_id), channel, id);
    text::lt_total(id, other_id);
    text::lt_irreflexive(id);
    text::lt_irreflexive(other_id);
    if text::lt(id, other_id) {
        text::lt_asymmetric(id, other_id);
    }
    if text::lt(other_id, id) {
        text::lt_asymmetric(other_id, id);
    }
    if channel == other_channel && cursors.contains_key(channel) {
        let c = cursors[channel];
        if text::lt(c, id) && text::lt(id, other_id) {
            text::lt_transitive(c, id, other_id);
        }
        if text::lt(c, other_id) && text::lt(other_id, id) {
            text::lt_transitive(c, other_id, id);
        }
    }
    assert(left =~= right);
}

// ---------------------------------------------------------------------------
// Files
// ---------------------------------------------------------------------------
/// The file with the cursors of a room.
pub fn channel_state_path(context: &Context, room: &str) -> (r: AppResult<String>)
    ensures
        match r {
            Ok(path) => names::room_name_fault(room@) is None && path@ == paths::join(
                paths::join(context.root@, room@),
                "channel-state.json"@,
            ),
            Err(e) => names::room_name_fault(room@) is Some && e@ == context::bad_mailbox_error(
                room@,
                names::room_name_fault(room@)->0,
            ),
        },
{
    match names::validate_room_name(room) {
        Ok(_) => {},
        Err(reason) => {
            return Err(
                AppError::new(
                    ErrorCode::InvalidArgument,
                    text::cat4("room '", room, "' is invalid: ", reason.as_str()).as_str(),
                    "Pass a single room name without path separators.",
                ),
            );
        },
    }
    let directory = context.file(room);
    Ok(paths::join_path(directory.as_str(), "channel-state.json"))
}

/// The error of a cursor file that is not JSON.
pub fn invalid_state_file(path: &str, problem: &str) -> (r: AppError)
    ensures
        r@ == error::ErrorView::of(
            ErrorCode::ConfigInvalid,
            "channel state at "@ + path@ + " is not valid JSON: "@ + problem@,
            "Fix or remove "@ + path@
                + " — removing only re-shows channel backlog, it cannot lose messages."@,
        ),
{
    AppError::new(
        ErrorCode::ConfigInvalid,
        text::cat4("channel state at ", path, " is not valid JSON: ", problem).as_str(),
        text::cat3(
            "Fix or remove ",
            path,
            " — removing only re-shows channel backlog, it cannot lose messages.",
        ).as_str(),
    )
}

} // verus!
