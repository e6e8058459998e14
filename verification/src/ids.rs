//! Message ids: their shape, how they are made from the clock, and why they sort by time.
use crate::text;
use vstd::prelude::*;

verus! {

/// Whether every character from `from` up to `to` is a decimal digit.
pub open spec fn digits_between(s: Seq<char>, from: int, to: int) -> bool {
    forall|i: int| from <= i < to ==> text::is_digit(#[trigger] s[i])
}

/// Whether every character from `from` up to `to` is a hexadecimal digit.
pub open spec fn hex_between(s: Seq<char>, from: int, to: int) -> bool {
    forall|i: int| from <= i < to ==> text::is_hex_digit(#[trigger] s[i])
}

/// The shape of a mail id: `YYYYmmdd-HHMMSS-<6 hex>`.
pub open spec fn mail_id_shape(id: Seq<char>) -> bool {
    &&& id.len() == 22
    &&& digits_between(id, 0, 8)
    &&& id[8] == '-'
    &&& digits_between(id, 9, 15)
    &&& id[15] == '-'
    &&& hex_between(id, 16, 22)
}

/// The shape of a channel message id: `YYYYmmdd-HHMMSS-UUUUUU-<6 hex>`.
pub open spec fn message_id_shape(id: Seq<char>) -> bool {
    &&& id.len() == 29
    &&& digits_between(id, 0, 8)
    &&& id[8] == '-'
    &&& digits_between(id, 9, 15)
    &&& id[15] == '-'
    &&& digits_between(id, 16, 22)
    &&& id[22] == '-'
    &&& hex_between(id, 23, 29)
}

/// An id never breaks a line.
pub proof fn ids_are_unbroken(id: Seq<char>)
    requires
        mail_id_shape(id) || message_id_shape(id),
    ensures
        text::unbroken(id),
{
    assert forall|i: int| 0 <= i < id.len() implies id[i] != '\n' by {
        assert(text::is_digit(id[i]) || text::is_hex_digit(id[i]) || id[i] == '-');
    }
}

fn all_digits(chars: &Vec<char>, from: usize, to: usize) -> (r: bool)
    requires
        to <= chars@.len(),
    ensures
        r == digits_between(chars@, from as int, to as int),
{
    let mut i: usize = from;
    while i < to
        invariant
            to <= chars@.len(),
            from <= i,
            digits_between(chars@, from as int, i as int),
        decreases to - i,
    {
        if !text::char_is_digit(chars[i]) {
            assert(!text::is_digit(chars@[i as int]));
            return false;
        }
        i = i + 1;
    }
    true
}

fn all_hex(chars: &Vec<char>, from: usize, to: usize) -> (r: bool)
    requires
        to <= chars@.len(),
    ensures
        r == hex_between(chars@, from as int, to as int),
{
    let mut i: usize = from;
    while i < to
        invariant
            to <= chars@.len(),
            from <= i,
            hex_between(chars@, from as int, i as int),
        decreases to - i,
    {
        if !text::char_is_hex_digit(chars[i]) {
            assert(!text::is_hex_digit(chars@[i as int]));
            return false;
        }
        i = i + 1;
    }
    true
}

pub fn is_mail_id(id: &str) -> (r: bool)
    ensures
        r == mail_id_shape(id@),
{
    let chars = text::chars_of(id);
    chars.len() == 22 && all_digits(&chars, 0, 8) && chars[8] == '-' && all_digits(&chars, 9, 15)
        && chars[15] == '-' && all_hex(&chars, 16, 22)
}

/// Whether a text is a canonical channel message id.
pub fn is_canonical_channel_message_id(id: &str) -> (r: bool)
    ensures
        r == message_id_shape(id@),
{
    let chars = text::chars_of(id);
    chars.len() == 29 && all_digits(&chars, 0, 8) && chars[8] == '-' && all_digits(&chars, 9, 15)
        && chars[15] == '-' && all_digits(&chars, 16, 22) && chars[22] == '-' && all_hex(
        &chars,
        23,
        29,
    )
}

// ---------------------------------------------------------------------------
// Time stamps
// ---------------------------------------------------------------------------
/// A broken-down time: the calendar date and the time of day.
#[derive(Debug, Clone, Copy, PartialEq, Eq, Structural)]
pub struct CivilTime {
    pub year: u32,
    pub month: u32,
    pub day: u32,
    pub hour: u32,
    pub minute: u32,
    pub second: u32,
}

/// The time part of an id: `YYYYmmdd-HHMMSS`.
pub open spec fn id_stamp(t: CivilTime) -> Seq<char> {
    text::padded(t.year as nat, 4) + text::padded(t.month as nat, 2) + text::padded(
        t.day as nat,
        2,
    ) + "-"@ + text::padded(t.hour as nat, 2) + text::padded(t.minute as nat, 2) + text::padded(
        t.second as nat,
        2,
    )
}

/// The distance of local time from UTC: sign, hours and minutes.
pub open spec fn offset_text(offset: int) -> Seq<char> {
    let magnitude: nat = if offset < 0 {
        (-offset) as nat
    } else {
        offset as nat
    };
    (if offset < 0 {
        "-"@
    } else {
        "+"@
    }) + text::padded(magnitude / 3600, 2) + text::padded((magnitude % 3600) / 60, 2)
}

/// A local time for a human reader: `YYYY-mm-dd HH:MM:SS +hhmm`.
pub open spec fn sent_stamp(t: CivilTime, offset: int) -> Seq<char> {
    text::padded(t.year as nat, 4) + "-"@ + text::padded(t.month as nat, 2) + "-"@ + text::padded(
        t.day as nat,
        2,
    ) + " "@ + text::padded(t.hour as nat, 2) + ":"@ + text::padded(t.minute as nat, 2) + ":"@
        + text::padded(t.second as nat, 2) + " "@ + offset_text(offset)
}

fn id_stamp_text(t: &CivilTime) -> (r: String)
    ensures
        r@ == id_stamp(*t),
{
    let year = text::padded_text(t.year as u64, 4);
    let month = text::padded_text(t.month as u64, 2);
    let day = text::padded_text(t.day as u64, 2);
    let hour = text::padded_text(t.hour as u64, 2);
    let minute = text::padded_text(t.minute as u64, 2);
    let second = text::padded_text(t.second as u64, 2);
    text::cat7(
        year.as_str(),
        month.as_str(),
        day.as_str(),
        "-",
        hour.as_str(),
        minute.as_str(),
        second.as_str(),
    )
}

fn offset_stamp_text(offset: i64) -> (r: String)
    ensures
        r@ == offset_text(offset as int),
{
    let magnitude: u64 = if offset < 0 {
        (0 - (offset as i128)) as u64
    } else {
        offset as u64
    };
    let hours = text::padded_text(magnitude / 3600, 2);
    let minutes = text::padded_text((magnitude % 3600) / 60, 2);
    if offset < 0 {
        text::cat3("-", hours.as_str(), minutes.as_str())
    } else {
        text::cat3("+", hours.as_str(), minutes.as_str())
    }
}

/// The stamps of one moment: the UTC stamp for ids, and the local stamp for readers.
///
/// Ids sort as strings, so their stamp must not move with the machine's time zone.
pub fn format_local_timestamp(utc: &CivilTime, local: &CivilTime, offset: i64) -> (r: (
    String,
    String,
))
    ensures
        r.0@ == id_stamp(*utc),
        r.1@ == sent_stamp(*local, offset as int),
{
    let year = text::padded_text(local.year as u64, 4);
    let month = text::padded_text(local.month as u64, 2);
    let day = text::padded_text(local.day as u64, 2);
    let hour = text::padded_text(local.hour as u64, 2);
    let minute = text::padded_text(local.minute as u64, 2);
    let second = text::padded_text(local.second as u64, 2);
    let zone = offset_stamp_text(offset);
    let mut sent = text::cat9(
        year.as_str(),
        "-",
        month.as_str(),
        "-",
        day.as_str(),
        " ",
        hour.as_str(),
        ":",
        minute.as_str(),
    );
    sent.append(":");
    sent.append(second.as_str());
    sent.append(" ");
    sent.append(zone.as_str());
    (id_stamp_text(utc), sent)
}

/// An id stamp with microseconds, for channel messages.
pub open spec fn micro_stamp(t: CivilTime, micros: nat) -> Seq<char> {
    id_stamp(t) + "-"@ + text::padded(micros, 6)
}

/// The stamps of one moment with microseconds in the id stamp.
pub fn format_local_timestamp_micros(
    utc: &CivilTime,
    local: &CivilTime,
    offset: i64,
    micros: u32,
) -> (r: (String, String))
    ensures
        r.0@ == micro_stamp(*utc, micros as nat),
        r.1@ == sent_stamp(*local, offset as int),
{
    let (stamp, sent) = format_local_timestamp(utc, local, offset);
    let fraction = text::padded_text(micros as u64, 6);
    (text::cat3(stamp.as_str(), "-", fraction.as_str()), sent)
}

/// A number that differs between calls: the clock, a counter, the process and the attempt,
/// mixed.
pub open spec fn mixed(nanos: u64, counter: u64, process: u64, attempt: u64) -> u64 {
    nanos ^ ((counter << 17u64) | (counter >> 47u64)) ^ process ^ attempt
}

/// An id: a stamp and six hexadecimal digits.
pub open spec fn id_of(stamp: Seq<char>, number: u64) -> Seq<char> {
    stamp + "-"@ + text::low_hex((number & 0x00ff_ffff) as nat, 6)
}

pub fn new_mail_id(
    timestamp: &str,
    nanos: u64,
    counter: u64,
    process: u32,
    attempt: u64,
) -> (r: String)
    ensures
        r@ == id_of(timestamp@, mixed(nanos, counter, process as u64, attempt)),
{
    let number: u64 = nanos ^ ((counter << 17u64) | (counter >> 47u64)) ^ (process as u64)
        ^ attempt;
    let suffix = text::low_hex_text(number & 0x00ff_ffff, 6);
    text::cat3(timestamp, "-", suffix.as_str())
}

// ---------------------------------------------------------------------------
// Laws
// ---------------------------------------------------------------------------
/// A power of ten.
pub open spec fn tens(width: nat) -> nat
    decreases width,
{
    if width == 0 {
        1
    } else {
        10 * tens((width - 1) as nat)
    }
}

proof fn low_digits_shape(n: nat, width: nat)
    ensures
        text::low_digits(n, width).len() == width,
        forall|i: int| 0 <= i < width ==> text::is_digit(#[trigger] text::low_digits(n, width)[i]),
    decreases width,
{
    if width > 0 {
        low_digits_shape(n / 10, (width - 1) as nat);
    }
}

proof fn low_hex_shape(n: nat, width: nat)
    ensures
        text::low_hex(n, width).len() == width,
        forall|i: int|
            0 <= i < width ==> text::is_hex_digit(#[trigger] text::low_hex(n, width)[i]),
    decreases width,
{
    if width > 0 {
        low_hex_shape(n / 16, (width - 1) as nat);
    }
}

proof fn decimal_is_low_digits(n: nat, width: nat)
    requires
        n < tens(width),
        width >= 1,
    ensures
        text::decimal(n).len() <= width,
        text::decimal(n) == text::low_digits(n, text::decimal(n).len()),
    decreases n,
{
    if n < 10 {
        assert(text::low_digits(n / 10, 0) =~= seq![]);
        assert(text::low_digits(n, 1) =~= seq![text::digit(n as int)]);
    } else {
        assert(width >= 2) by {
            if width == 1 {
                assert(tens(0) == 1);
                assert(tens(1) == 10);
            }
        }
        decimal_is_low_digits(n / 10, (width - 1) as nat);
    }
}

/// A number that fits is written with exactly the given number of digits.
pub proof fn padded_is_low_digits(n: nat, width: nat)
    requires
        n < tens(width),
        width >= 1,
    ensures
        text::padded(n, width) == text::low_digits(n, width),
        text::padded(n, width).len() == width,
        forall|i: int| 0 <= i < width ==> text::is_digit(#[trigger] text::padded(n, width)[i]),
{
    decimal_is_low_digits(n, width);
    low_digits_shape(n, width);
}

proof fn lt_extends(x: Seq<char>, y: Seq<char>, u: Seq<char>, v: Seq<char>)
    requires
        x.len() == y.len(),
        text::lt(x, y),
    ensures
        text::lt(x + u, y + v),
    decreases x.len(),
{
    if x.len() > 0 && x[0] == y[0] {
        lt_extends(x.skip(1), y.skip(1), u, v);
        assert((x + u).skip(1) =~= x.skip(1) + u);
        assert((y + v).skip(1) =~= y.skip(1) + v);
    }
}

proof fn lt_after_prefix(x: Seq<char>, u: Seq<char>, v: Seq<char>)
    requires
        text::lt(u, v),
    ensures
        text::lt(x + u, x + v),
    decreases x.len(),
{
    if x.len() == 0 {
        assert(x + u =~= u);
        assert(x + v =~= v);
    } else {
        lt_after_prefix(x.skip(1), u, v);
        assert((x + u).skip(1) =~= x.skip(1) + u);
        assert((x + v).skip(1) =~= x.skip(1) + v);
    }
}

/// Of two numbers written with the same number of digits, the smaller one sorts first.
proof fn smaller_number_sorts_first(n: nat, m: nat, width: nat)
    requires
        n < m < tens(width),
    ensures
        text::lt(text::low_digits(n, width), text::low_digits(m, width)),
    decreases width,
{
    if width > 0 {
        let w = (width - 1) as nat;
        let a = text::low_digits(n / 10, w);
        let b = text::low_digits(m / 10, w);
        low_digits_shape(n / 10, w);
        low_digits_shape(m / 10, w);
        let x = seq![text::digit((n % 10) as int)];
        let y = seq![text::digit((m % 10) as int)];
        assert(text::low_digits(n, width) =~= a + x);
        assert(text::low_digits(m, width) =~= b + y);
        if n / 10 < m / 10 {
            smaller_number_sorts_first(n / 10, m / 10, w);
            lt_extends(a, b, x, y);
        } else {
            assert(n / 10 == m / 10);
            assert(text::lt(x, y));
            lt_after_prefix(a, x, y);
        }
    }
}

/// Whether a broken-down time has a four-digit year and two-digit fields otherwise.
pub open spec fn in_range(t: CivilTime) -> bool {
    t.year < 10000 && t.month < 100 && t.day < 100 && t.hour < 100 && t.minute < 100 && t.second
        < 100
}

/// A broken-down time as one number that grows with it.
pub open spec fn time_rank(t: CivilTime) -> nat {
    ((((t.year as nat * 100 + t.month as nat) * 100 + t.day as nat) * 100 + t.hour as nat) * 100
        + t.minute as nat) * 100 + t.second as nat
}

proof fn tens_values()
    ensures
        tens(2) == 100,
        tens(4) == 10000,
        tens(6) == 1000000,
{
    reveal_with_fuel(tens, 7);
}

proof fn stamp_parts(t: CivilTime)
    requires
        in_range(t),
    ensures
        id_stamp(t).len() == 15,
        digits_between(id_stamp(t), 0, 8),
        id_stamp(t)[8] == '-',
        digits_between(id_stamp(t), 9, 15),
        id_stamp(t) == text::low_digits(t.year as nat, 4) + text::low_digits(t.month as nat, 2)
            + text::low_digits(t.day as nat, 2) + "-"@ + text::low_digits(t.hour as nat, 2)
            + text::low_digits(t.minute as nat, 2) + text::low_digits(t.second as nat, 2),
{
    reveal_strlit("-");
    tens_values();
    padded_is_low_digits(t.year as nat, 4);
    padded_is_low_digits(t.month as nat, 2);
    padded_is_low_digits(t.day as nat, 2);
    padded_is_low_digits(t.hour as nat, 2);
    padded_is_low_digits(t.minute as nat, 2);
    padded_is_low_digits(t.second as nat, 2);
}

/// The order of two fields, given the order of what follows them.
proof fn field_order(n: nat, m: nat, width: nat, u: Seq<char>, v: Seq<char>)
    requires
        n < tens(width),
        m < tens(width),
        n < m || (n == m && text::lt(u, v)),
    ensures
        text::lt(text::low_digits(n, width) + u, text::low_digits(m, width) + v),
{
    low_digits_shape(n, width);
    low_digits_shape(m, width);
    if n < m {
        smaller_number_sorts_first(n, m, width);
        lt_extends(text::low_digits(n, width), text::low_digits(m, width), u, v);
    } else {
        lt_after_prefix(text::low_digits(n, width), u, v);
    }
}

proof fn right_nested(
    a: Seq<char>,
    b: Seq<char>,
    c: Seq<char>,
    d: Seq<char>,
    e: Seq<char>,
    f: Seq<char>,
    g: Seq<char>,
    h: Seq<char>,
)
    ensures
        a + b + c + d + e + f + g + h == a + (b + (c + (d + (e + (f + (g + h)))))),
{
    assert(a + b + c + d + e + f + g + h =~= a + (b + (c + (d + (e + (f + (g + h)))))));
}

/// Stamps sort by time: the stamp of an earlier moment, however it is continued, comes before
/// the stamp of a later one.
pub proof fn stamps_sort_by_time(a: CivilTime, b: CivilTime, u: Seq<char>, v: Seq<char>)
    requires
        in_range(a),
        in_range(b),
        time_rank(a) < time_rank(b) || (a == b && text::lt(u, v)),
    ensures
        text::lt(id_stamp(a) + u, id_stamp(b) + v),
{
    stamp_parts(a);
    stamp_parts(b);
    tens_values();
    let sa = text::low_digits(a.second as nat, 2) + u;
    let sb = text::low_digits(b.second as nat, 2) + v;
    let ma = text::low_digits(a.minute as nat, 2) + sa;
    let mb = text::low_digits(b.minute as nat, 2) + sb;
    let ha = text::low_digits(a.hour as nat, 2) + ma;
    let hb = text::low_digits(b.hour as nat, 2) + mb;
    let ta = "-"@ + ha;
    let tb = "-"@ + hb;
    let da = text::low_digits(a.day as nat, 2) + ta;
    let db = text::low_digits(b.day as nat, 2) + tb;
    let na = text::low_digits(a.month as nat, 2) + da;
    let nb = text::low_digits(b.month as nat, 2) + db;
    let ya = text::low_digits(a.year as nat, 4) + na;
    let yb = text::low_digits(b.year as nat, 4) + nb;
    right_nested(
        text::low_digits(a.year as nat, 4),
        text::low_digits(a.month as nat, 2),
        text::low_digits(a.day as nat, 2),
        "-"@,
        text::low_digits(a.hour as nat, 2),
        text::low_digits(a.minute as nat, 2),
        text::low_digits(a.second as nat, 2),
        u,
    );
    right_nested(
        text::low_digits(b.year as nat, 4),
        text::low_digits(b.month as nat, 2),
        text::low_digits(b.day as nat, 2),
        "-"@,
        text::low_digits(b.hour as nat, 2),
        text::low_digits(b.minute as nat, 2),
        text::low_digits(b.second as nat, 2),
        v,
    );
    if a.year == b.year {
        if a.month == b.month {
            if a.day == b.day {
                if a.hour == b.hour {
                    if a.minute == b.minute {
                        field_order(a.second as nat, b.second as nat, 2, u, v);
                    }
                    field_order(a.minute as nat, b.minute as nat, 2, sa, sb);
                }
                field_order(a.hour as nat, b.hour as nat, 2, ma, mb);
                lt_after_prefix("-"@, ha, hb);
            }
            field_order(a.day as nat, b.day as nat, 2, ta, tb);
        }
        field_order(a.month as nat, b.month as nat, 2, da, db);
    }
    field_order(a.year as nat, b.year as nat, 4, na, nb);
}

/// Channel message ids sort by time, to the microsecond.
pub proof fn message_ids_sort_by_time(
    a: CivilTime,
    a_micros: nat,
    a_number: u64,
    b: CivilTime,
    b_micros: nat,
    b_number: u64,
)
    requires
        in_range(a),
        in_range(b),
        a_micros < 1000000,
        b_micros < 1000000,
        time_rank(a) < time_rank(b) || (a == b && a_micros < b_micros),
    ensures
        text::lt(id_of(micro_stamp(a, a_micros), a_number), id_of(micro_stamp(b, b_micros), b_number)),
{
    tens_values();
    padded_is_low_digits(a_micros, 6);
    padded_is_low_digits(b_micros, 6);
    let ta = "-"@ + text::low_hex((a_number & 0x00ff_ffff) as nat, 6);
    let tb = "-"@ + text::low_hex((b_number & 0x00ff_ffff) as nat, 6);
    let fa = text::low_digits(a_micros, 6) + ta;
    let fb = text::low_digits(b_micros, 6) + tb;
    let u = "-"@ + fa;
    let v = "-"@ + fb;
    if a == b && a_micros < b_micros {
        field_order(a_micros, b_micros, 6, ta, tb);
        lt_after_prefix("-"@, fa, fb);
    }
    stamps_sort_by_time(a, b, u, v);
    assert(id_of(micro_stamp(a, a_micros), a_number) =~= id_stamp(a) + u);
    assert(id_of(micro_stamp(b, b_micros), b_number) =~= id_stamp(b) + v);
}

/// Ids made from the clock have the canonical shapes.
pub proof fn new_ids_have_canonical_shape(t: CivilTime, micros: nat, number: u64)
    requires
        in_range(t),
        micros < 1000000,
    ensures
        mail_id_shape(id_of(id_stamp(t), number)),
        message_id_shape(id_of(micro_stamp(t, micros), number)),
{
    reveal_strlit("-");
    tens_values();
    stamp_parts(t);
    padded_is_low_digits(micros, 6);
    let n = (number & 0x00ff_ffff) as nat;
    low_hex_shape(n, 6);
    let hex = text::low_hex(n, 6);
    let mail = id_of(id_stamp(t), number);
    let message = id_of(micro_stamp(t, micros), number);
    assert forall|i: int| 16 <= i < 22 implies text::is_hex_digit(#[trigger] mail[i]) by {
        assert(mail[i] == hex[i - 16]);
    }
    assert forall|i: int| 0 <= i < 15 implies mail[i] == id_stamp(t)[i] by {}
    assert forall|i: int| 0 <= i < 15 implies message[i] == id_stamp(t)[i] by {}
    assert forall|i: int| 16 <= i < 22 implies text::is_digit(#[trigger] message[i]) by {
        assert(message[i] == text::padded(micros, 6)[i - 16]);
    }
    assert forall|i: int| 23 <= i < 29 implies text::is_hex_digit(#[trigger] message[i]) by {
        assert(message[i] == hex[i - 23]);
    }
}

} // verus!
