//! Who is there: what heartbeats say and how long they are believed.
use vstd::prelude::*;

use crate::output;
use crate::output::WhoRoom;
use crate::presence;
use crate::text;

verus! {

proof fn scan_of_word(s: Seq<char>, word: Seq<char>)
    requires
        s.len() == 0 || text::is_white(s.last()),
        forall|i: int| 0 <= i < word.len() ==> !text::is_white(#[trigger] word[i]),
    ensures
        presence::word_scan(s).1.len() == 0,
        presence::word_scan(s + word) == (presence::word_scan(s).0, word),
    decreases word.len(),
{
    if word.len() == 0 {
        assert(s + word =~= s);
        assert(word =~= Seq::<char>::empty());
        if s.len() > 0 {
            assert(presence::word_scan(s).1.len() == 0);
        }
        assert(presence::word_scan(s).1 =~= word);
    } else {
        let front = word.drop_last();
        assert forall|i: int| 0 <= i < front.len() implies !text::is_white(#[trigger] front[i]) by {
            assert(front[i] == word[i]);
        }
        scan_of_word(s, front);
        assert((s + word).drop_last() =~= s + front);
        assert((s + word).last() == word.last());
        assert(!text::is_white(word[word.len() - 1]));
        assert(front.push(word.last()) =~= word);
    }
}

/// The words of a text are what stands between its white characters: a word is put behind the words
/// before it, and further white space changes nothing.
pub proof fn words_stand_between_white_space(s: Seq<char>, word: Seq<char>, space: char)
    requires
        s.len() == 0 || text::is_white(s.last()),
        word.len() > 0,
        forall|i: int| 0 <= i < word.len() ==> !text::is_white(#[trigger] word[i]),
        text::is_white(space),
    ensures
        presence::words(seq![]) == Seq::<Seq<char>>::empty(),
        presence::words(s + word) == presence::words(s).push(word),
        presence::words((s + word).push(space)) == presence::words(s + word),
        presence::words(s.push(space)) == presence::words(s),
{
    scan_of_word(s, word);
    assert((s + word).push(space).drop_last() =~= s + word);
    assert(s.push(space).drop_last() =~= s);
}

/// A heartbeat is read back as it is written: the time, and the interval in which it is renewed.
pub proof fn heartbeats_are_read_back(now: u64, interval: u64)
    ensures
        presence::heartbeat(
            text::decimal(now as nat) + " "@ + text::decimal(interval as nat) + "\n"@,
        ) == (Some(now), interval),
{
    reveal_strlit(" ");
    reveal_strlit("\n");
    let a = text::decimal(now as nat);
    let b = text::decimal(interval as nat);
    crate::laws::words::numbers_are_written_in_decimal(now as nat);
    crate::laws::words::numbers_are_written_in_decimal(interval as nat);
    crate::laws::words::numbers_are_read_from_digits(now, a);
    crate::laws::words::numbers_are_read_from_digits(interval, b);
    assert forall|i: int| 0 <= i < a.len() implies !text::is_white(#[trigger] a[i]) by {
        assert(text::is_digit(a[i]));
    }
    assert forall|i: int| 0 <= i < b.len() implies !text::is_white(#[trigger] b[i]) by {
        assert(text::is_digit(b[i]));
    }
    let nothing = Seq::<char>::empty();
    words_stand_between_white_space(nothing, a, ' ');
    assert(nothing + a =~= a);
    let front = a.push(' ');
    words_stand_between_white_space(front, b, '\n');
    assert(a + " "@ + b + "\n"@ =~= (front + b).push('\n'));
    assert(presence::words(nothing) =~= Seq::<Seq<char>>::empty());
    assert(presence::words((front + b).push('\n')) =~= seq![a, b]);
}

/// A heartbeat whose first word is no number tells no time; one without a second number is taken
/// to be renewed every second.
pub proof fn unclear_heartbeats_tell_no_time(raw: Seq<char>)
    ensures
        presence::words(raw).len() == 0 ==> presence::heartbeat(raw).0 is None,
        presence::words(raw).len() > 0 ==> presence::heartbeat(raw).0 == text::parsed_u64(
            presence::words(raw)[0],
        ),
        presence::words(raw).len() < 2 ==> presence::heartbeat(raw).1 == 1000,
        presence::words(raw).len() >= 2 && text::parsed_u64(presence::words(raw)[1]) is None
            ==> presence::heartbeat(raw).1 == 1000,
{
}

/// A watch counts as live up to two intervals and two seconds after its heartbeat, and not longer;
/// a heartbeat from the future is not believed.
pub proof fn heartbeats_last_two_intervals_and_two_seconds(now: int, stamp: int, interval_ms: int)
    requires
        0 <= stamp,
        0 <= now <= u64::MAX / 1000,
        0 <= interval_ms <= u64::MAX / 4,
    ensures
        presence::live(now, stamp, interval_ms) <==> stamp <= now && (now - stamp) * 1000 <= 2
            * interval_ms + 2000,
{
}

/// An older heartbeat is never believed where a newer one is not.
pub proof fn newer_heartbeats_last_longer(now: int, older: int, newer: int, interval_ms: int)
    requires
        0 <= older <= newer <= now,
        0 <= interval_ms,
        presence::live(now, older, interval_ms),
    ensures
        presence::live(now, newer, interval_ms),
{
    assert((now - newer) * 1000 <= (now - older) * 1000);
}

/// Of rooms that are asked for more than once the first asking counts: each is reported once, in
/// the order of asking.
pub proof fn rooms_are_reported_once(items: Seq<Seq<char>>, more: Seq<char>)
    ensures
        presence::once_each(seq![]) == Seq::<Seq<char>>::empty(),
        items.contains(more) ==> presence::once_each(items.push(more)) == presence::once_each(
            items,
        ),
        !items.contains(more) ==> presence::once_each(items.push(more)) == presence::once_each(
            items,
        ).push(more),
        presence::once_each(items).no_duplicates(),
        presence::once_each(items).contains(more) <==> items.contains(more),
{
    assert(items.push(more).drop_last() =~= items);
    same_members(items, more);
    distinct(items);
}

proof fn same_members(items: Seq<Seq<char>>, one: Seq<char>)
    ensures
        presence::once_each(items).contains(one) <==> items.contains(one),
    decreases items.len(),
{
    if items.len() > 0 {
        let front = items.drop_last();
        let last = items.last();
        let before = presence::once_each(front);
        same_members(front, one);
        same_members(front, last);
        assert(items[items.len() - 1] == last);
        if front.contains(one) {
            let i = choose|i: int| 0 <= i < front.len() && front[i] == one;
            assert(items[i] == one);
            let j = choose|j: int| 0 <= j < before.len() && before[j] == one;
            assert(presence::once_each(items)[j] == one);
        }
        if items.contains(one) && !front.contains(one) {
            let i = choose|i: int| 0 <= i < items.len() && items[i] == one;
            if i < front.len() {
                assert(front[i] == one);
            }
            assert(one == last);
            assert(before.push(last)[before.len() as int] == last);
        }
        if presence::once_each(items).contains(one) && !before.contains(one) {
            let j = choose|j: int|
                0 <= j < presence::once_each(items).len() && presence::once_each(items)[j] == one;
            if j < before.len() {
                assert(before[j] == one);
            }
        }
    }
}

proof fn distinct(items: Seq<Seq<char>>)
    ensures
        presence::once_each(items).no_duplicates(),
    decreases items.len(),
{
    if items.len() > 0 {
        distinct(items.drop_last());
        let before = presence::once_each(items.drop_last());
        if !before.contains(items.last()) {
            let all = before.push(items.last());
            assert forall|i: int, j: int|
                0 <= i < all.len() && 0 <= j < all.len() && i != j implies all[i] != all[j] by {
                if i < before.len() && j < before.len() {
                    assert(before[i] != before[j]);
                } else if i < before.len() {
                    assert(before.contains(before[i]));
                } else if j < before.len() {
                    assert(before.contains(before[j]));
                }
            }
        }
    }
}

/// A room's line says its name, whether a watch is live, and when it was last seen, or that it
/// never was.
pub proof fn lines_tell_who_is_there(entry: WhoRoom)
    ensures
        text::has_prefix(presence::who_line(entry), output::header_text(entry.room@)),
        entry.live_watch ==> text::has_prefix(
            presence::who_line(entry),
            output::header_text(entry.room@) + "  live-watch=yes"@,
        ),
        !entry.live_watch ==> text::has_prefix(
            presence::who_line(entry),
            output::header_text(entry.room@) + "  live-watch=no"@,
        ),
        entry.last_seen matches Some(seen) ==> text::has_suffix(
            presence::who_line(entry),
            "  last-seen="@ + seen@ + "\n"@,
        ),
        entry.last_seen is None ==> text::has_suffix(
            presence::who_line(entry),
            "  last-seen=never\n"@,
        ),
{
    reveal_strlit("  live-watch=");
    reveal_strlit("yes");
    reveal_strlit("no");
    reveal_strlit("  live-watch=yes");
    reveal_strlit("  live-watch=no");
    reveal_strlit("  last-seen=");
    reveal_strlit("never");
    reveal_strlit("\n");
    reveal_strlit("  last-seen=never\n");
    let line = presence::who_line(entry);
    let name = output::header_text(entry.room@);
    assert(line.subrange(0, name.len() as int) =~= name);
    if entry.live_watch {
        let front = name + "  live-watch=yes"@;
        assert(line.subrange(0, front.len() as int) =~= front);
    } else {
        let front = name + "  live-watch=no"@;
        assert(line.subrange(0, front.len() as int) =~= front);
    }
    match entry.last_seen {
        Some(seen) => {
            let end = "  last-seen="@ + seen@ + "\n"@;
            assert(line.subrange(line.len() - end.len(), line.len() as int) =~= end);
        },
        None => {
            let end = "  last-seen=never\n"@;
            assert(line.subrange(line.len() - end.len(), line.len() as int) =~= end);
        },
    }
}

/// Every room has its line, in the order of the report.
pub proof fn each_room_has_its_line(entries: Seq<WhoRoom>, one: WhoRoom)
    ensures
        presence::who_lines(seq![]).len() == 0,
        presence::who_lines(entries.push(one)) == presence::who_lines(entries)
            + presence::who_line(one),
{
    reveal_strlit("");
    assert(entries.push(one).drop_last() =~= entries);
}

} // verus!
