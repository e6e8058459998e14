//! Which rooms have a live watch, as their heartbeats tell. No process is ever named.
use crate::order;
use crate::order::Sortable;
use crate::output;
use crate::output::WhoRoom;
use crate::text;
use crate::textmap::RoomMap;
use vstd::prelude::*;

verus! {

/// The interval of a heartbeat that names none.
pub const DEFAULT_INTERVAL_MS: u64 = 1000;

/// The grace beyond two intervals.
pub const SLACK_MS: u64 = 2000;

/// The words of a text so far, and the word that its end belongs to.
pub open spec fn word_scan(s: Seq<char>) -> (Seq<Seq<char>>, Seq<char>)
    decreases s.len(),
{
    if s.len() == 0 {
        (seq![], seq![])
    } else {
        let (done, current) = word_scan(s.drop_last());
        if !text::is_white(s.last()) {
            (done, current.push(s.last()))
        } else if current.len() == 0 {
            (done, current)
        } else {
            (done.push(current), seq![])
        }
    }
}

/// The words of a text: its longest stretches without white space.
pub open spec fn words(s: Seq<char>) -> Seq<Seq<char>> {
    let (done, current) = word_scan(s);
    if current.len() == 0 {
        done
    } else {
        done.push(current)
    }
}

pub fn split_words(s: &str) -> (out: Vec<String>)
    ensures
        text::texts(out@) == words(s@),
{
    let chars = text::chars_of(s);
    let mut out: Vec<String> = Vec::new();
    let mut current: Vec<char> = Vec::new();
    assert(text::texts(out@) =~= word_scan(s@.take(0)).0);
    assert(current@ =~= word_scan(s@.take(0)).1);
    for i in 0..chars.len()
        invariant
            chars@ == s@,
            text::texts(out@) == word_scan(s@.take(i as int)).0,
            current@ == word_scan(s@.take(i as int)).1,
    {
        let ghost whole = s@.take(i + 1);
        assert(whole.drop_last() =~= s@.take(i as int));
        assert(whole.last() == s@[i as int]);
        let ghost done = text::texts(out@);
        if !text::char_is_white(chars[i]) {
            current.push(chars[i]);
        } else if current.len() > 0 {
            let word = text::string_of(&current);
            let ghost last = word@;
            out.push(word);
            assert(text::texts(out@) =~= done.push(last));
            current = Vec::new();
            assert(current@ =~= seq![]);
        }
    }
    assert(s@.take(s@.len() as int) =~= s@);
    if current.len() > 0 {
        let ghost done = text::texts(out@);
        let word = text::string_of(&current);
        let ghost last = word@;
        out.push(word);
        assert(text::texts(out@) =~= done.push(last));
    }
    out
}

/// The stamp and the interval that a heartbeat tells.
pub open spec fn heartbeat(raw: Seq<char>) -> (Option<u64>, u64) {
    let parts = words(raw);
    let stamp = if parts.len() > 0 {
        text::parsed_u64(parts[0])
    } else {
        None
    };
    let interval = if parts.len() > 1 && text::parsed_u64(parts[1]) is Some {
        text::parsed_u64(parts[1])->0
    } else {
        1000
    };
    (stamp, interval)
}

pub fn parse_heartbeat(raw: &str) -> (r: (Option<u64>, u64))
    ensures
        r == heartbeat(raw@),
{
    let parts = split_words(raw);
    assert(parts@.len() == words(raw@).len());
    let stamp = if parts.len() > 0 {
        assert(words(raw@)[0] == parts@[0]@);
        text::parse_u64(parts[0].as_str())
    } else {
        None
    };
    let mut interval: u64 = DEFAULT_INTERVAL_MS;
    if parts.len() > 1 {
        assert(words(raw@)[1] == parts@[1]@);
        match text::parse_u64(parts[1].as_str()) {
            Some(value) => {
                interval = value;
            },
            None => {},
        }
    }
    (stamp, interval)
}

/// A number, cut off at the largest 64-bit one.
pub open spec fn saturated(n: int) -> int {
    if n > u64::MAX {
        u64::MAX as int
    } else {
        n
    }
}

/// Whether a heartbeat of a moment is still live: it lies not in the future, and is no older
/// than two intervals and the grace.
pub open spec fn live(now: int, stamp: int, interval_ms: int) -> bool {
    stamp <= now && saturated((now - stamp) * 1000) <= saturated(
        saturated(interval_ms * 2) + 2000,
    )
}

pub fn is_live(now_secs: u64, stamp_secs: u64, interval_ms: u64) -> (r: bool)
    ensures
        r == live(now_secs as int, stamp_secs as int, interval_ms as int),
{
    if stamp_secs > now_secs {
        return false;
    }
    let limit: u128 = 0xffff_ffff_ffff_ffff;
    let mut age: u128 = ((now_secs - stamp_secs) as u128) * 1000;
    if age > limit {
        age = limit;
    }
    let mut longest: u128 = (interval_ms as u128) * 2;
    if longest > limit {
        longest = limit;
    }
    longest = longest + (SLACK_MS as u128);
    if longest > limit {
        longest = limit;
    }
    age <= longest
}

/// A heartbeat from the future is never live.
pub proof fn future_heartbeats_are_never_live(now: int, stamp: int, interval_ms: int)
    requires
        stamp > now,
    ensures
        !live(now, stamp, interval_ms),
{
}

/// A watch stays live from one poll to the next: a heartbeat of the last two intervals, and
/// of two seconds more, is live.
pub proof fn recent_heartbeats_are_live(now: int, stamp: int, interval_ms: int)
    requires
        0 <= interval_ms <= u64::MAX,
        stamp <= now,
        (now - stamp) * 1000 <= interval_ms * 2 + 2000,
    ensures
        live(now, stamp, interval_ms),
{
}

/// What a heartbeat file holds after a poll.
pub fn heartbeat_payload(now_secs: u64, interval_ms: u64) -> (r: String)
    ensures
        r@ == text::decimal(now_secs as nat) + " "@ + text::decimal(interval_ms as nat) + "\n"@,
{
    text::cat4(
        text::decimal_text(now_secs).as_str(),
        " ",
        text::decimal_text(interval_ms).as_str(),
        "\n",
    )
}

/// The presence of a room: from its heartbeat, if it has one, and the current time.
pub fn read_presence(room: &str, raw: Option<&str>, now_secs: u64) -> (r: WhoRoom)
    ensures
        r.room@ == room@,
        text::one_line(who_line(r)),
        match raw {
            None => !r.live_watch && r.last_seen is None,
            Some(text) => {
                let (stamp, interval) = heartbeat(text@);
                match stamp {
                    None => !r.live_watch && r.last_seen is None,
                    Some(at) => r.live_watch == live(now_secs as int, at as int, interval as int)
                        && text::opt(r.last_seen) == Some(text::decimal(at as nat)),
                }
            },
        },
{
    let (stamp, interval) = match raw {
        Some(contents) => parse_heartbeat(contents),
        None => (None, 0),
    };
    let entry = match stamp {
        Some(at) => WhoRoom {
            room: room.to_owned(),
            live_watch: is_live(now_secs, at, interval),
            last_seen: Some(text::decimal_text(at)),
        },
        None => WhoRoom { room: room.to_owned(), live_watch: false, last_seen: None },
    };
    proof {
        if let Some(at) = stamp {
            text::decimals_are_unbroken(at as nat);
        }
        rooms_take_a_line_each(entry);
    }
    entry
}

/// A list without its repetitions.
pub open spec fn once_each(items: Seq<Seq<char>>) -> Seq<Seq<char>>
    decreases items.len(),
{
    if items.len() == 0 {
        seq![]
    } else {
        let before = once_each(items.drop_last());
        if before.contains(items.last()) {
            before
        } else {
            before.push(items.last())
        }
    }
}

/// The rooms to report: those that were named, once each, or else every registered room.
pub fn rooms_to_report(requested: &Vec<String>, rooms: &RoomMap) -> (r: Vec<String>)
    ensures
        text::texts(r@) == if requested@.len() == 0 {
            rooms.keys()
        } else {
            once_each(text::texts(requested@))
        },
{
    let mut out: Vec<String> = Vec::new();
    if requested.len() == 0 {
        let count: usize = rooms.len();
        for i in 0..count
            invariant
                count == rooms.keys().len(),
                out@.len() == i,
                forall|k: int| 0 <= k < i ==> #[trigger] out@[k]@ == rooms.keys()[k],
        {
            out.push(rooms.key_at(i).clone());
        }
        assert(text::texts(out@) =~= rooms.keys());
        return out;
    }
    let ghost all = text::texts(requested@);
    assert(text::texts(out@) =~= once_each(all.take(0)));
    for i in 0..requested.len()
        invariant
            all == text::texts(requested@),
            text::texts(out@) == once_each(all.take(i as int)),
    {
        let ghost before = text::texts(out@);
        assert(all.take(i + 1).drop_last() =~= all.take(i as int));
        assert(all.take(i + 1).last() == requested@[i as int]@);
        if !text::list_has(&out, requested[i].as_str()) {
            out.push(requested[i].clone());
            assert(text::texts(out@) =~= before.push(requested@[i as int]@));
        }
    }
    assert(all.take(all.len() as int) =~= all);
    out
}

/// Presence is listed by room.
impl Sortable for WhoRoom {
    open spec fn at_most(self, other: Self) -> bool {
        text::le(self.room@, other.room@)
    }

    proof fn at_most_total(a: Self, b: Self) {
        text::lt_total(a.room@, b.room@);
    }

    proof fn at_most_transitive(a: Self, b: Self, c: Self) {
        if a.room@ != b.room@ && b.room@ != c.room@ {
            text::lt_transitive(a.room@, b.room@, c.room@);
        }
    }

    fn is_at_most(&self, other: &Self) -> (r: bool) {
        text::less_or_same(self.room.as_str(), other.room.as_str())
    }
}

/// The rooms in the order of their names.
pub fn sort_rooms(entries: Vec<WhoRoom>) -> (r: Vec<WhoRoom>)
    ensures
        order::stable_sort_of(entries@, r@),
{
    order::sort(entries)
}

/// A room of the presence listing, as text.
pub open spec fn who_line(entry: WhoRoom) -> Seq<char> {
    output::header_text(entry.room@) + "  live-watch="@ + (if entry.live_watch {
        "yes"@
    } else {
        "no"@
    }) + "  last-seen="@ + (match entry.last_seen {
        Some(seen) => seen@,
        None => "never"@,
    }) + "\n"@
}

/// A room of the listing takes one line: whatever its name holds, it cannot forge another.
pub proof fn rooms_take_a_line_each(entry: WhoRoom)
    requires
        entry.last_seen is Some ==> text::unbroken(entry.last_seen->0@),
    ensures
        text::one_line(who_line(entry)),
{
    assert(text::unbroken("  live-watch="@) && text::unbroken("yes"@) && text::unbroken("no"@)
        && text::unbroken("  last-seen="@) && text::unbroken("never"@)) by {
        reveal_strlit("  live-watch=");
        reveal_strlit("yes");
        reveal_strlit("no");
        reveal_strlit("  last-seen=");
        reveal_strlit("never");
    }
    let room = output::header_text(entry.room@);
    let live = if entry.live_watch {
        "yes"@
    } else {
        "no"@
    };
    let seen = match entry.last_seen {
        Some(at) => at@,
        None => "never"@,
    };
    output::header_text_is_one_line(entry.room@);
    text::unbroken_sum(room, "  live-watch="@);
    text::unbroken_sum(room + "  live-watch="@, live);
    text::unbroken_sum(room + "  live-watch="@ + live, "  last-seen="@);
    text::unbroken_sum(room + "  live-watch="@ + live + "  last-seen="@, seen);
    text::unbroken_line(room + "  live-watch="@ + live + "  last-seen="@ + seen);
}

/// The lines of some rooms.
pub open spec fn who_lines(entries: Seq<WhoRoom>) -> Seq<char>
    decreases entries.len(),
{
    if entries.len() == 0 {
        ""@
    } else {
        who_lines(entries.drop_last()) + who_line(entries.last())
    }
}

/// The presence listing as text.
pub fn who_text(entries: &Vec<WhoRoom>) -> (r: String)
    ensures
        r@ == if entries@.len() == 0 {
            "post: no rooms to report\n"@
        } else {
            who_lines(entries@)
        },
{
    if entries.len() == 0 {
        return "post: no rooms to report\n".to_owned();
    }
    let mut out = "".to_owned();
    assert(who_lines(entries@.take(0)) == ""@);
    for i in 0..entries.len()
        invariant
            out@ == who_lines(entries@.take(i as int)),
    {
        let entry = &entries[i];
        assert(entries@.take(i + 1).drop_last() =~= entries@.take(i as int));
        let live = if entry.live_watch {
            "yes"
        } else {
            "no"
        };
        let seen = match &entry.last_seen {
            Some(seen) => seen.as_str(),
            None => "never",
        };
        let line = text::cat6(
            output::sanitize_text_header(entry.room.as_str()).as_str(),
            "  live-watch=",
            live,
            "  last-seen=",
            seen,
            "\n",
        );
        out.append(line.as_str());
    }
    assert(entries@.take(entries@.len() as int) =~= entries@);
    out
}

} // verus!
