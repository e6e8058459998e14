//! What ids and dates are made of.
use vstd::prelude::*;

use crate::ids;
use crate::ids::CivilTime;
use crate::text;

verus! {

/// A mail's id is a date, a time and six hexadecimal digits, with hyphens between them; a message's
/// has six more digits before the last part.
pub proof fn ids_have_their_shapes(id: Seq<char>)
    ensures
        ids::mail_id_shape(id) <==> id.len() == 22 && id[8] as int == 45 && id[15] as int == 45 && (
        forall|i: int|
            0 <= i < 15 && i != 8 ==> 48 <= (#[trigger] id[i]) as int <= 57) && (forall|i: int|
            16 <= i < 22 ==> text::is_hex_digit(#[trigger] id[i])),
        ids::message_id_shape(id) <==> id.len() == 29 && id[8] as int == 45 && id[15] as int == 45
            && id[22] as int == 45 && (forall|i: int|
            0 <= i < 22 && i != 8 && i != 15 ==> 48 <= (#[trigger] id[i]) as int <= 57) && (forall|
            i: int,
        | 23 <= i < 29 ==> text::is_hex_digit(#[trigger] id[i])),
        ids::mail_id_shape(id) ==> !ids::message_id_shape(id),
{
    assert('-' as int == 45);
    if ids::mail_id_shape(id) {
        assert forall|i: int| 0 <= i < 15 && i != 8 implies 48 <= (#[trigger] id[i]) as int <= 57 by {
            assert(text::is_digit(id[i]));
        }
    }
    if ids::message_id_shape(id) {
        assert forall|i: int| 0 <= i < 22 && i != 8 && i != 15 implies 48 <= (
        #[trigger] id[i]) as int <= 57 by {
            assert(text::is_digit(id[i]));
        }
    }
}

/// The stamp of an id is its year, month and day, a hyphen, and its hour, minute and second, each
/// with its digits filled up.
pub proof fn stamps_hold_date_and_time(t: CivilTime)
    requires
        ids::in_range(t),
    ensures
        ids::id_stamp(t).len() == 15,
        ids::id_stamp(t).subrange(0, 4) == text::padded(t.year as nat, 4),
        ids::id_stamp(t).subrange(4, 6) == text::padded(t.month as nat, 2),
        ids::id_stamp(t).subrange(6, 8) == text::padded(t.day as nat, 2),
        ids::id_stamp(t)[8] == '-',
        ids::id_stamp(t).subrange(9, 11) == text::padded(t.hour as nat, 2),
        ids::id_stamp(t).subrange(11, 13) == text::padded(t.minute as nat, 2),
        ids::id_stamp(t).subrange(13, 15) == text::padded(t.second as nat, 2),
{
    reveal_strlit("-");
    reveal_with_fuel(ids::tens, 5);
    ids::padded_is_low_digits(t.year as nat, 4);
    ids::padded_is_low_digits(t.month as nat, 2);
    ids::padded_is_low_digits(t.day as nat, 2);
    ids::padded_is_low_digits(t.hour as nat, 2);
    ids::padded_is_low_digits(t.minute as nat, 2);
    ids::padded_is_low_digits(t.second as nat, 2);
    let s = ids::id_stamp(t);
    assert(s.subrange(0, 4) =~= text::padded(t.year as nat, 4));
    assert(s.subrange(4, 6) =~= text::padded(t.month as nat, 2));
    assert(s.subrange(6, 8) =~= text::padded(t.day as nat, 2));
    assert(s.subrange(9, 11) =~= text::padded(t.hour as nat, 2));
    assert(s.subrange(11, 13) =~= text::padded(t.minute as nat, 2));
    assert(s.subrange(13, 15) =~= text::padded(t.second as nat, 2));
}

/// A message's stamp has the microseconds behind, in six digits.
pub proof fn message_stamps_end_with_microseconds(t: CivilTime, micros: nat)
    requires
        micros < 1_000_000,
    ensures
        ids::micro_stamp(t, micros).len() == ids::id_stamp(t).len() + 7,
        ids::micro_stamp(t, micros).take(ids::id_stamp(t).len() as int) == ids::id_stamp(t),
        ids::micro_stamp(t, micros)[ids::id_stamp(t).len() as int] == '-',
        ids::micro_stamp(t, micros).skip(ids::id_stamp(t).len() as int + 1) == text::padded(
            micros,
            6,
        ),
{
    reveal_strlit("-");
    reveal_with_fuel(ids::tens, 7);
    ids::padded_is_low_digits(micros, 6);
    let s = ids::micro_stamp(t, micros);
    assert(s.take(ids::id_stamp(t).len() as int) =~= ids::id_stamp(t));
    assert(s.skip(ids::id_stamp(t).len() as int + 1) =~= text::padded(micros, 6));
}

/// An id is its stamp, a hyphen, and the lowest twenty-four bits of its number in six digits.
pub proof fn ids_end_with_their_number(stamp: Seq<char>, number: u64)
    ensures
        ids::id_of(stamp, number).len() == stamp.len() + 7,
        ids::id_of(stamp, number).take(stamp.len() as int) == stamp,
        ids::id_of(stamp, number)[stamp.len() as int] == '-',
        ids::id_of(stamp, number).skip(stamp.len() as int + 1) == text::low_hex(
            (number % 0x100_0000) as nat,
            6,
        ),
{
    reveal_strlit("-");
    assert(number & 0x00ff_ffff == number % 0x100_0000) by (bit_vector);
    crate::laws::words::hexadecimal_digits_tell_sixteenths((number % 0x100_0000) as nat, 6);
    let s = ids::id_of(stamp, number);
    assert(s.take(stamp.len() as int) =~= stamp);
    assert(s.skip(stamp.len() as int + 1) =~= text::low_hex((number % 0x100_0000) as nat, 6));
}

/// The number of an id changes with each of the things that it is mixed from: of two ids that differ
/// in one of them alone the numbers differ.
pub proof fn numbers_differ_with_what_they_are_mixed_from(
    nanos: u64,
    counter: u64,
    process: u64,
    attempt: u64,
    other: u64,
)
    ensures
        nanos != other ==> ids::mixed(nanos, counter, process, attempt) != ids::mixed(
            other,
            counter,
            process,
            attempt,
        ),
        counter != other ==> ids::mixed(nanos, counter, process, attempt) != ids::mixed(
            nanos,
            other,
            process,
            attempt,
        ),
        process != other ==> ids::mixed(nanos, counter, process, attempt) != ids::mixed(
            nanos,
            counter,
            other,
            attempt,
        ),
        attempt != other ==> ids::mixed(nanos, counter, process, attempt) != ids::mixed(
            nanos,
            counter,
            process,
            other,
        ),
{
    assert(nanos != other ==> nanos ^ ((counter << 17u64) | (counter >> 47u64)) ^ process ^ attempt
        != other ^ ((counter << 17u64) | (counter >> 47u64)) ^ process ^ attempt) by (bit_vector);
    assert(counter != other ==> nanos ^ ((counter << 17u64) | (counter >> 47u64)) ^ process
        ^ attempt != nanos ^ ((other << 17u64) | (other >> 47u64)) ^ process ^ attempt)
        by (bit_vector);
    assert(process != other ==> nanos ^ ((counter << 17u64) | (counter >> 47u64)) ^ process
        ^ attempt != nanos ^ ((counter << 17u64) | (counter >> 47u64)) ^ other ^ attempt)
        by (bit_vector);
    assert(attempt != other ==> nanos ^ ((counter << 17u64) | (counter >> 47u64)) ^ process
        ^ attempt != nanos ^ ((counter << 17u64) | (counter >> 47u64)) ^ process ^ other)
        by (bit_vector);
}

/// An offset from universal time is its sign, its hours and its minutes.
pub proof fn offsets_are_hours_and_minutes(hours: nat, minutes: nat)
    requires
        hours < 100,
        minutes < 60,
    ensures
        ids::offset_text((hours * 3600 + minutes * 60) as int) == "+"@ + text::padded(hours, 2)
            + text::padded(minutes, 2),
        hours + minutes > 0 ==> ids::offset_text(-((hours * 3600 + minutes * 60) as int)) == "-"@
            + text::padded(hours, 2) + text::padded(minutes, 2),
{
    let m = hours * 3600 + minutes * 60;
    assert(m / 3600 == hours);
    assert((m % 3600) / 60 == minutes);
}

/// A date is shown as year, month and day, the time of day and the offset.
pub proof fn dates_are_shown_with_their_offset(t: CivilTime, offset: int)
    requires
        ids::in_range(t),
    ensures
        ids::sent_stamp(t, offset).subrange(0, 4) == text::padded(t.year as nat, 4),
        ids::sent_stamp(t, offset)[4] == '-',
        ids::sent_stamp(t, offset).subrange(5, 7) == text::padded(t.month as nat, 2),
        ids::sent_stamp(t, offset)[7] == '-',
        ids::sent_stamp(t, offset).subrange(8, 10) == text::padded(t.day as nat, 2),
        ids::sent_stamp(t, offset)[10] == ' ',
        ids::sent_stamp(t, offset).subrange(11, 13) == text::padded(t.hour as nat, 2),
        ids::sent_stamp(t, offset)[13] == ':',
        ids::sent_stamp(t, offset).subrange(14, 16) == text::padded(t.minute as nat, 2),
        ids::sent_stamp(t, offset)[16] == ':',
        ids::sent_stamp(t, offset).subrange(17, 19) == text::padded(t.second as nat, 2),
        ids::sent_stamp(t, offset)[19] == ' ',
        ids::sent_stamp(t, offset).skip(20) == ids::offset_text(offset),
{
    reveal_strlit("-");
    reveal_strlit(" ");
    reveal_strlit(":");
    reveal_with_fuel(ids::tens, 5);
    ids::padded_is_low_digits(t.year as nat, 4);
    ids::padded_is_low_digits(t.month as nat, 2);
    ids::padded_is_low_digits(t.day as nat, 2);
    ids::padded_is_low_digits(t.hour as nat, 2);
    ids::padded_is_low_digits(t.minute as nat, 2);
    ids::padded_is_low_digits(t.second as nat, 2);
    let s = ids::sent_stamp(t, offset);
    assert(s.subrange(0, 4) =~= text::padded(t.year as nat, 4));
    assert(s.subrange(5, 7) =~= text::padded(t.month as nat, 2));
    assert(s.subrange(8, 10) =~= text::padded(t.day as nat, 2));
    assert(s.subrange(11, 13) =~= text::padded(t.hour as nat, 2));
    assert(s.subrange(14, 16) =~= text::padded(t.minute as nat, 2));
    assert(s.subrange(17, 19) =~= text::padded(t.second as nat, 2));
    assert(s.skip(20) =~= ids::offset_text(offset));
}

} // verus!
