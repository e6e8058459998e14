//! What the small operations on texts, names and paths give, told by characters.
use vstd::prelude::*;

use crate::names;
use crate::paths;
use crate::paths::PartView;
use crate::text;

verus! {

/// Controls are the characters below the space and those from delete to the end of the second
/// control block: a line feed is one, and nothing that prints is.
pub proof fn controls_do_not_print(c: char)
    ensures
        (c as int) < 32 ==> text::is_control(c),
        0x7f <= c as int <= 0x9f ==> text::is_control(c),
        32 <= c as int <= 0x7e ==> !text::is_control(c),
        c as int >= 0xa0 ==> !text::is_control(c),
{
}

/// Space, tab, line feed and carriage return are white, and no other character that ASCII prints
/// is.
pub proof fn white_space_shows_nothing(c: char)
    ensures
        c == ' ' || c == '\t' || c == '\n' || c == '\r' ==> text::is_white(c),
        0x21 <= c as int <= 0x7e ==> !text::is_white(c),
        text::is_white(c) ==> c as int <= 0x3000,
        text::is_digit(c) || text::is_hex_digit(c) || text::is_ascii_alphanumeric(c)
            ==> !text::is_white(c) && !text::is_control(c),
{
}

/// Digits, letters and hexadecimal digits are the ASCII ones.
pub proof fn digits_and_letters_are_ascii(c: char)
    ensures
        text::is_digit(c) <==> 48 <= c as int <= 57,
        text::is_hex_digit(c) <==> 48 <= c as int <= 57 || 97 <= c as int <= 102 || 65 <= c as int
            <= 70,
        text::is_ascii_alphanumeric(c) <==> 48 <= c as int <= 57 || 97 <= c as int <= 122 || 65
            <= c as int <= 90,
{
}

/// Folding case keeps the length, lowers the ASCII capitals and leaves every other character.
pub proof fn folding_lowers_capitals(s: Seq<char>, i: int)
    requires
        0 <= i < s.len(),
    ensures
        text::ascii_folded(s).len() == s.len(),
        65 <= s[i] as int <= 90 ==> text::ascii_folded(s)[i] as int == s[i] as int + 32,
        !(65 <= s[i] as int <= 90) ==> text::ascii_folded(s)[i] == s[i],
        text::ascii_folded(text::ascii_folded(s)) == text::ascii_folded(s),
{
    assert(text::ascii_folded(text::ascii_folded(s)) =~= text::ascii_folded(s));
}

/// A text begins with, ends with or contains another where the rest can be put around it.
pub proof fn parts_stand_in_their_text(head: Seq<char>, part: Seq<char>, tail: Seq<char>)
    ensures
        text::has_prefix(part + tail, part),
        text::has_suffix(head + part, part),
        text::has_part(head + part + tail, part),
        text::occurs(head + part + tail, part, head.len() as int),
{
    assert((part + tail).subrange(0, part.len() as int) =~= part);
    assert((head + part).subrange(head.len() as int, (head + part).len() as int) =~= part);
    assert((head + part + tail).subrange(
        head.len() as int,
        head.len() as int + part.len() as int,
    ) =~= part);
    assert(text::occurs(head + part + tail, part, head.len() as int));
}

/// And only there.
pub proof fn parts_are_surrounded_by_the_rest(s: Seq<char>, part: Seq<char>)
    ensures
        text::has_prefix(s, part) ==> s == part + s.skip(part.len() as int),
        text::has_suffix(s, part) ==> s == s.take(s.len() - part.len()) + part,
        forall|at: int| #[trigger]
            text::occurs(s, part, at) ==> s == s.take(at) + part + s.skip(at + part.len()),
        text::has_part(s, part) ==> part.len() <= s.len(),
{
    if text::has_prefix(s, part) {
        assert(s =~= s.subrange(0, part.len() as int) + s.skip(part.len() as int));
    }
    if text::has_suffix(s, part) {
        let at = s.len() - part.len();
        assert(s =~= s.take(at) + s.subrange(at, at + part.len()));
    }
    assert forall|at: int| #[trigger] text::occurs(s, part, at) implies s == s.take(at) + part
        + s.skip(at + part.len()) by {
        assert(s =~= s.take(at) + s.subrange(at, at + part.len()) + s.skip(at + part.len()));
    }
}

/// A text is blank when all its characters are white, so an empty one is and one with a letter or
/// a digit is not.
pub proof fn blank_texts_show_nothing(s: Seq<char>)
    ensures
        s.len() == 0 ==> text::blank(s),
        text::blank(s) <==> !(exists|i: int| 0 <= i < s.len() && !text::is_white(#[trigger] s[i])),
        text::has_control(s) <==> exists|i: int|
            0 <= i < s.len() && ((s[i] as int) < 32 || 0x7f <= (#[trigger] s[i]) as int <= 0x9f),
        text::unbroken(s) <==> forall|i: int| 0 <= i < s.len() ==> (#[trigger] s[i]) as int != 10,
{
    if text::unbroken(s) {
        assert forall|i: int| 0 <= i < s.len() implies (#[trigger] s[i]) as int != 10 by {
            if s[i] as int == 10 {
                assert(s[i] == '\n');
                assert(s.contains('\n'));
            }
        }
    }
}

proof fn trimmed_start(s: Seq<char>)
    ensures
        text::trim_start(s).len() <= s.len(),
        text::trim_start(s) == s.skip(s.len() - text::trim_start(s).len()),
        forall|i: int|
            0 <= i < s.len() - text::trim_start(s).len() ==> text::is_white(#[trigger] s[i]),
        text::trim_start(s).len() > 0 ==> !text::is_white(text::trim_start(s)[0]),
    decreases s.len(),
{
    if s.len() > 0 && text::is_white(s[0]) {
        let rest = s.skip(1);
        trimmed_start(rest);
        let kept = text::trim_start(s);
        assert(kept =~= s.skip(s.len() - kept.len()));
        assert forall|i: int| 0 <= i < s.len() - kept.len() implies text::is_white(
            #[trigger] s[i],
        ) by {
            if i > 0 {
                assert(rest[i - 1] == s[i]);
            }
        }
    } else {
        assert(s =~= s.skip(0));
    }
}

proof fn trimmed_end(s: Seq<char>)
    ensures
        text::trim_end(s).len() <= s.len(),
        text::trim_end(s) == s.take(text::trim_end(s).len() as int),
        forall|i: int|
            text::trim_end(s).len() <= i < s.len() ==> text::is_white(#[trigger] s[i]),
        text::trim_end(s).len() > 0 ==> !text::is_white(text::trim_end(s).last()),
    decreases s.len(),
{
    if s.len() > 0 && text::is_white(s.last()) {
        let rest = s.drop_last();
        trimmed_end(rest);
        let kept = text::trim_end(s);
        assert(kept =~= s.take(kept.len() as int));
        assert forall|i: int| kept.len() <= i < s.len() implies text::is_white(#[trigger] s[i]) by {
            if i < s.len() - 1 {
                assert(rest[i] == s[i]);
            }
        }
    } else {
        assert(s =~= s.take(s.len() as int));
    }
}

/// Trimming takes the white characters off both ends and nothing else: what is left begins and
/// ends with a character that is not white, or is empty, and stands in the text between two blank
/// ends.
pub proof fn trimming_takes_blank_ends(s: Seq<char>)
    ensures
        text::trim(s).len() > 0 ==> !text::is_white(text::trim(s)[0]) && !text::is_white(
            text::trim(s).last(),
        ),
        exists|from: int, to: int|
            0 <= from <= to <= s.len() && text::trim(s) == #[trigger] s.subrange(from, to)
                && text::blank(s.take(from)) && text::blank(s.skip(to)),
        text::blank(s) <==> text::trim(s).len() == 0,
{
    trimmed_start(s);
    let mid = text::trim_start(s);
    trimmed_end(mid);
    let kept = text::trim(s);
    let from = s.len() - mid.len();
    let to = from + kept.len();
    assert(kept =~= s.subrange(from, to));
    assert(text::blank(s.take(from)));
    assert forall|i: int| 0 <= i < s.skip(to).len() implies text::is_white(
        #[trigger] s.skip(to)[i],
    ) by {
        assert(s.skip(to)[i] == mid[kept.len() + i]);
    }
    if kept.len() > 0 {
        assert(kept[0] == mid[0]);
        assert(kept[0] == s[from]);
    } else {
        assert forall|i: int| 0 <= i < s.len() implies text::is_white(#[trigger] s[i]) by {
            if i >= from {
                assert(s[i] == s.skip(to)[i - to]);
            }
        }
    }
}

/// Texts are ordered like words in a dictionary: what they share in front does not matter, the
/// first characters that differ decide by their code, and a text stands before every longer one
/// that begins with it.
pub proof fn texts_are_ordered_like_words(common: Seq<char>, a: Seq<char>, b: Seq<char>)
    ensures
        text::lt(common + a, common + b) == text::lt(a, b),
        text::le(common + a, common + b) == text::le(a, b),
        a.len() > 0 ==> text::lt(common, common + a) && !text::lt(common + a, common),
        a.len() > 0 && b.len() > 0 && (a[0] as int) < (b[0] as int) ==> text::lt(a, b)
            && !text::lt(b, a) && text::le(a, b) && !text::le(b, a),
        text::le(a, a),
        !text::lt(a, a),
    decreases common.len(),
{
    text::lt_irreflexive(a);
    if common.len() == 0 {
        assert(common + a =~= a);
        assert(common + b =~= b);
    } else {
        let rest = common.skip(1);
        texts_are_ordered_like_words(rest, a, b);
        assert((common + a).skip(1) =~= rest + a);
        assert((common + b).skip(1) =~= rest + b);
        assert(common + a == common + b ==> a == b) by {
            if common + a == common + b {
                assert((common + a).skip(common.len() as int) =~= a);
                assert((common + b).skip(common.len() as int) =~= b);
            }
        }
    }
}

/// Joined texts stand one behind the other, with the separator between them and nowhere else.
pub proof fn joining_puts_separators_between(
    items: Seq<Seq<char>>,
    more: Seq<char>,
    sep: Seq<char>,
)
    ensures
        text::joined(seq![], sep) == Seq::<char>::empty(),
        text::joined(seq![more], sep) == more,
        items.len() > 0 ==> text::joined(items.push(more), sep) == text::joined(items, sep) + sep
            + more,
{
    assert(items.push(more).drop_last() =~= items);
}

proof fn split_of_sum(a: Seq<char>, b: Seq<char>, c: char)
    requires
        !a.contains(c),
    ensures
        paths::split(a, c) == seq![a],
        paths::split(a.push(c) + b, c) == seq![a] + paths::split(b, c),
    decreases a.len() + b.len(),
{
    paths::split_is_not_empty(b, c);
    if a.len() == 0 {
        assert(a =~= Seq::<char>::empty());
    } else {
        let front = a.drop_last();
        assert(!front.contains(c)) by {
            if front.contains(c) {
                let i = choose|i: int| 0 <= i < front.len() && front[i] == c;
                assert(a[i] == c);
            }
        }
        split_of_sum(front, Seq::empty(), c);
        assert(a.last() != c) by {
            assert(a[a.len() - 1] == a.last());
        }
        assert(front.push(a.last()) =~= a);
        assert(seq![front].drop_last().push(front.push(a.last())) =~= seq![a]);
    }
    assert(paths::split(a, c) =~= seq![a]);
    if b.len() == 0 {
        assert(a.push(c) + b =~= a.push(c));
        assert(a.push(c).drop_last() =~= a);
        assert(b =~= Seq::<char>::empty());
        assert(a.push(c).last() == c);
        assert(paths::split(a.push(c), c) =~= seq![a].push(seq![]));
        assert(seq![a].push(seq![]) =~= seq![a] + seq![Seq::<char>::empty()]);
    } else {
        let front = b.drop_last();
        split_of_sum(a, front, c);
        paths::split_is_not_empty(front, c);
        assert((a.push(c) + b).drop_last() =~= a.push(c) + front);
        let head = paths::split(front, c);
        assert((seq![a] + head).last() == head.last());
        if b.last() == c {
            assert((seq![a] + head).push(seq![]) =~= seq![a] + head.push(seq![]));
        } else {
            let grown = head.last().push(b.last());
            assert((seq![a] + head).drop_last().push(grown) =~= seq![a] + head.drop_last().push(
                grown,
            ));
        }
    }
}

/// A text is split at every separator: a piece ends at the first one, and what stands behind it is
/// split in turn.
pub proof fn splitting_ends_pieces_at_separators(first: Seq<char>, rest: Seq<char>, c: char)
    requires
        !first.contains(c),
    ensures
        paths::split(first, c) == seq![first],
        paths::split(first.push(c) + rest, c) == seq![first] + paths::split(rest, c),
{
    split_of_sum(first, rest, c);
}

/// The lines of a text end at its line feeds; a carriage return in front of one belongs to it,
/// and no empty line stands behind the last line feed.
pub proof fn lines_end_at_line_feeds(line: Seq<char>, rest: Seq<char>)
    requires
        !line.contains('\n'),
    ensures
        text::lines(seq![]) == Seq::<Seq<char>>::empty(),
        line.len() > 0 ==> text::lines(line) == seq![line],
        !(line.len() > 0 && line.last() == '\r') ==> text::lines(line.push('\n') + rest)
            == seq![line] + text::lines(rest),
        text::lines(line.push('\r').push('\n') + rest) == seq![line] + text::lines(rest),
{
    lines_of_sum(line, rest);
    let returned = line.push('\r');
    assert(!returned.contains('\n')) by {
        if returned.contains('\n') {
            let i = choose|i: int| 0 <= i < returned.len() && returned[i] == '\n';
            assert(i < line.len());
            assert(line[i] == '\n');
        }
    }
    lines_of_sum(returned, rest);
    assert(returned.drop_last() =~= line);
    assert(text::lines(seq![]) =~= Seq::<Seq<char>>::empty());
    split_of_sum(line, rest, '\n');
    if line.len() > 0 {
        assert(text::lines(line) =~= seq![line]);
    }
}

proof fn lines_of_sum(line: Seq<char>, rest: Seq<char>)
    requires
        !line.contains('\n'),
    ensures
        text::lines(line.push('\n') + rest) == seq![text::without_return(line)] + text::lines(rest),
{
    split_of_sum(line, rest, '\n');
    paths::split_is_not_empty(rest, '\n');
    let pieces = paths::split(rest, '\n');
    let all = seq![line] + pieces;
    assert(all.last() == pieces.last());
    let f = |line: Seq<char>| text::without_return(line);
    assert(all.drop_last() =~= seq![line] + pieces.drop_last());
    assert(all.drop_last().map_values(f) =~= seq![text::without_return(line)]
        + pieces.drop_last().map_values(f));
    assert(text::lines(line.push('\n') + rest) =~= seq![text::without_return(line)] + text::lines(
        rest,
    ));
}

/// A number is written in decimal digits without leading zeros, and what is written is its value.
pub proof fn numbers_are_written_in_decimal(n: nat)
    ensures
        text::decimal(n).len() > 0,
        n > 0 ==> text::decimal(n)[0] != '0',
        n < 10 ==> text::decimal(n).len() == 1 && text::decimal(n)[0] as int == 48 + n,
        n >= 10 ==> text::decimal(n) == text::decimal(n / 10).push((48 + n % 10) as char),
        text::all_digits(text::decimal(n)),
    decreases n,
{
    if n >= 10 {
        numbers_are_written_in_decimal(n / 10);
        let front = text::decimal(n / 10);
        assert forall|i: int| 0 <= i < text::decimal(n).len() implies text::is_digit(
            #[trigger] text::decimal(n)[i],
        ) by {
            if i < front.len() {
                assert(text::decimal(n)[i] == front[i]);
            }
        }
    }
}

/// A padded number takes at least its width: it has zeros in front where its digits are fewer,
/// and is its decimal form where they are not.
pub proof fn padding_puts_zeros_in_front(n: nat, width: nat)
    ensures
        text::padded(n, width).len() >= width,
        text::decimal(n).len() >= width ==> text::padded(n, width) == text::decimal(n),
        text::decimal(n).len() < width ==> text::padded(n, width).len() == width
            && text::padded(n, width).skip(width - text::decimal(n).len()) == text::decimal(n)
            && (forall|i: int|
            0 <= i < width - text::decimal(n).len() ==> text::padded(n, width)[i] == '0'),
{
    low_digits_are_padded(n, width);
}

proof fn low_digits_are_padded(n: nat, width: nat)
    ensures
        text::low_digits(n, width).len() == width,
        text::decimal(n).len() <= width ==> text::low_digits(n, width).skip(
            width - text::decimal(n).len(),
        ) == text::decimal(n) && (forall|i: int|
            0 <= i < width - text::decimal(n).len() ==> text::low_digits(n, width)[i] == '0'),
    decreases width,
{
    let d = text::decimal(n);
    if width > 0 {
        let w = (width - 1) as nat;
        low_digits_are_padded(n / 10, w);
        let front = text::low_digits(n / 10, w);
        let whole = text::low_digits(n, width);
        assert(whole =~= front.push(text::digit((n % 10) as int)));
        if d.len() <= width {
            if n >= 10 {
                assert(d.drop_last() =~= text::decimal(n / 10));
                assert(whole.skip(width - d.len()) =~= d);
            } else {
                assert(n / 10 == 0);
                zeros(w);
                assert(whole.skip(width - d.len()) =~= d);
            }
        }
    } else {
        numbers_are_written_in_decimal(n);
    }
}

proof fn zeros(width: nat)
    ensures
        text::low_digits(0, width).len() == width,
        forall|i: int| 0 <= i < width ==> text::low_digits(0, width)[i] == '0',
    decreases width,
{
    if width > 0 {
        zeros((width - 1) as nat);
    }
}

/// The hexadecimal form of a number has the width asked for, its last digit tells the number
/// below sixteen and the digits before it the rest.
pub proof fn hexadecimal_digits_tell_sixteenths(n: nat, width: nat)
    ensures
        text::low_hex(n, width).len() == width,
        width > 0 ==> text::low_hex(n, width).drop_last() == text::low_hex(
            n / 16,
            (width - 1) as nat,
        ),
        width > 0 && n % 16 < 10 ==> text::low_hex(n, width).last() as int == 48 + n % 16,
        width > 0 && n % 16 >= 10 ==> text::low_hex(n, width).last() as int == 87 + n % 16,
    decreases width,
{
    if width > 0 {
        hexadecimal_digits_tell_sixteenths(n / 16, (width - 1) as nat);
        assert(text::low_hex(n, width).drop_last() =~= text::low_hex(n / 16, (width - 1) as nat));
    }
}

/// A number is read from digits alone, with at most a plus in front, and read back as written.
pub proof fn numbers_are_read_from_digits(n: u64, s: Seq<char>)
    ensures
        text::parsed_u64(text::decimal(n as nat)) == Some(n),
        text::parsed_u64("+"@ + text::decimal(n as nat)) == Some(n),
        text::parsed_u64(s) is Some ==> s.len() > 0 && forall|i: int|
            0 <= i < s.len() ==> text::is_digit(#[trigger] s[i]) || (i == 0 && s[i] == '+'),
        text::parsed_u64(s) matches Some(m) ==> (s[0] != '+' ==> m == text::digits_value(s)),
{
    reveal_strlit("+");
    text::decimals_are_read_back(n as nat);
    numbers_are_written_in_decimal(n as nat);
    let d = text::decimal(n as nat);
    assert(d[0] != '+') by {
        assert(text::is_digit(d[0]));
    }
    assert(("+"@ + d).skip(1) =~= d);
    if text::parsed_u64(s) is Some {
        assert forall|i: int| 0 <= i < s.len() implies text::is_digit(#[trigger] s[i]) || (i == 0
            && s[i] == '+') by {
            if s[0] == '+' && i > 0 {
                assert(s.skip(1)[i - 1] == s[i]);
            }
        }
    }
}

/// Each further digit makes the number ten times as large and adds its value.
pub proof fn digits_weigh_ten_times_the_next(s: Seq<char>, c: char)
    requires
        48 <= c as int <= 57,
    ensures
        text::digits_value(seq![]) == 0,
        text::digits_value(s.push(c)) == 10 * text::digits_value(s) + (c as int - 48),
{
    assert(s.push(c).drop_last() =~= s);
}

/// A name is one path component exactly when it is not empty, is neither `.` nor `..`, and holds
/// no slash, backslash or control character.
pub proof fn components_are_plain_names(value: Seq<char>)
    ensures
        names::component_fault(value) is None <==> value.len() > 0 && value != "."@ && value
            != ".."@ && !value.contains('/') && !value.contains('\\') && (forall|i: int|
            0 <= i < value.len() ==> 32 <= (#[trigger] value[i]) as int && !(0x7f <= value[i] as int
                <= 0x9f)),
        value.len() == 0 ==> names::component_fault(value) == Some("name is empty"@),
        text::has_control(value) ==> names::component_fault(value) == Some(
            "name must not contain control characters"@,
        ),
{
    if !value.contains('/') && value.len() > 0 {
        split_of_sum(value, seq![], '/');
        let pieces = paths::split(value, '/');
        assert(pieces.drop_last() =~= Seq::<Seq<char>>::empty());
        assert(paths::pieces_parts(pieces.drop_last()) =~= Seq::<PartView>::empty());
        assert(paths::pieces_parts(pieces) =~= paths::piece_part(value, true));
        assert(!paths::absolute(value)) by {
            if paths::absolute(value) {
                assert(value[0] == '/');
            }
        }
    }
}

/// A room may have any such name but the wildcard and those of the store's own files, in whatever
/// case they are written.
pub proof fn room_names_leave_the_store_its_files(value: Seq<char>)
    ensures
        names::room_name_fault(value) is None <==> names::component_fault(value) is None && {
            let folded = text::ascii_folded(value);
            &&& folded != "*"@
            &&& folded != "archive"@
            &&& folded != "rooms.json"@
            &&& folded != "rules.json"@
            &&& folded != "profiles.json"@
            &&& folded != "owner.json"@
            &&& folded != ".rooms.lock"@
            &&& !(text::has_prefix(folded, ".rooms.json."@) && text::has_suffix(folded, ".tmp"@))
        },
        names::component_fault(value) is Some ==> names::room_name_fault(value)
            == names::component_fault(value),
        names::component_fault(value) is None && names::room_name_fault(value) is Some
            ==> names::room_name_fault(value) == Some(
            "name '"@ + value + "' is reserved by mailbox storage or wildcard semantics"@,
        ),
{
}

/// Profile texts refuse what would disturb a line: controls, bidirectional marks and separators.
/// They take everything that ASCII prints.
pub proof fn refused_characters_disturb_lines(c: char)
    ensures
        text::is_control(c) ==> names::is_refused(c),
        32 <= c as int <= 0x7e ==> !names::is_refused(c),
        names::is_refused(c) <==> (c as int) < 32 || 0x7f <= c as int <= 0x9f || c as int == 0x061c
            || c as int == 0x200e || c as int == 0x200f || 0x2028 <= c as int <= 0x202e || 0x2066
            <= c as int <= 0x2069,
{
}

/// Adding, taking away or changing one character at the end is one edit, and no edits are needed
/// between equal texts; a distance is at least what the lengths differ by and at most the longer
/// length.
pub proof fn distances_count_edits(a: Seq<char>, b: Seq<char>, c: char, d: char)
    ensures
        names::distance(a, a) == 0,
        names::distance(a, a.push(c)) == 1,
        c != d ==> names::distance(a.push(c), a.push(d)) == 1,
        names::distance(a.push(c), b.push(c)) <= names::distance(a, b),
        names::distance(a.push(c), b) <= names::distance(a, b) + 1,
        names::distance(a, b) >= a.len() - b.len(),
        names::distance(a, b) >= b.len() - a.len(),
        names::distance(a, b) <= a.len() + b.len(),
{
    names::distance_zero_means_same(a, a);
    names::distance_zero_means_same(a, a.push(c));
    names::distance_zero_means_same(a.push(c), a.push(d));
    distance_is_bounded(a, b);
    distance_is_bounded(a, a.push(c));
    assert(a.push(c).drop_last() =~= a);
    assert(a.push(d).drop_last() =~= a);
    assert(b.push(c).drop_last() =~= b);
    assert(a.push(c).last() == c && a.push(d).last() == d && b.push(c).last() == c);
    if c != d {
        assert(a.push(c) != a.push(d)) by {
            assert(a.push(c)[a.len() as int] == c);
            assert(a.push(d)[a.len() as int] == d);
        }
    }
    assert(a != a.push(c)) by {
        assert(a.len() != a.push(c).len());
    }
}

proof fn distance_is_bounded(a: Seq<char>, b: Seq<char>)
    ensures
        names::distance(a, b) >= a.len() - b.len(),
        names::distance(a, b) >= b.len() - a.len(),
        names::distance(a, b) <= a.len() + b.len(),
    decreases a.len() + b.len(),
{
    if a.len() > 0 && b.len() > 0 {
        distance_is_bounded(a.drop_last(), b);
        distance_is_bounded(a, b.drop_last());
        distance_is_bounded(a.drop_last(), b.drop_last());
    }
}

/// The room suggested for a mistyped name is one of the rooms, at most three edits away, and no
/// room is nearer; of those as near it is the first in order. There is none to suggest exactly
/// when all are farther.
pub proof fn the_nearest_room_is_suggested(input: Seq<char>, keys: Seq<Seq<char>>)
    ensures
        names::closest(input, keys) matches Some(name) ==> keys.contains(name) && names::distance(
            input,
            name,
        ) <= 3 && (forall|i: int|
            0 <= i < keys.len() ==> names::distance(input, name) <= names::distance(
                input,
                #[trigger] keys[i],
            )) && (forall|i: int|
            0 <= i < keys.len() && names::distance(input, name) == names::distance(
                input,
                #[trigger] keys[i],
            ) ==> text::le(name, keys[i])),
        (exists|i: int| 0 <= i < keys.len() && names::distance(input, #[trigger] keys[i]) <= 3)
            ==> names::closest(input, keys) is Some,
{
    if exists|i: int| 0 <= i < keys.len() && names::distance(input, #[trigger] keys[i]) <= 3 {
        nearest_exists(input, keys, keys.len() as int);
    }
}

proof fn nearest_exists(input: Seq<char>, keys: Seq<Seq<char>>, n: int)
    requires
        0 <= n <= keys.len(),
    ensures
        n > 0 ==> exists|k: int| #[trigger] nearest_of(input, keys, n, k),
        (n == keys.len() && exists|i: int|
            0 <= i < keys.len() && names::distance(input, #[trigger] keys[i]) <= 3)
            ==> exists|name: Seq<char>| names::is_closest(input, keys, name),
    decreases n,
{
    if n > 0 {
        nearest_exists(input, keys, n - 1);
        if n == 1 {
            assert(nearest_of(input, keys, 1, 0));
        } else {
            let k = choose|k: int| #[trigger] nearest_of(input, keys, n - 1, k);
            let last = keys[n - 1];
            let dk = names::distance(input, keys[k]);
            let dl = names::distance(input, last);
            text::lt_total(last, keys[k]);
            if dl < dk || (dl == dk && text::lt(last, keys[k])) {
                assert forall|i: int| 0 <= i < n implies #[trigger] before(
                    input,
                    last,
                    keys[i],
                ) by {
                    if i < n - 1 {
                        assert(before(input, keys[k], keys[i]));
                        if dl == dk && text::lt(keys[k], keys[i]) {
                            text::lt_transitive(last, keys[k], keys[i]);
                        }
                    }
                }
                assert(nearest_of(input, keys, n, n - 1));
            } else {
                assert(nearest_of(input, keys, n, k));
            }
        }
        let k = choose|k: int| #[trigger] nearest_of(input, keys, n, k);
        if n == keys.len() && exists|i: int|
            0 <= i < keys.len() && names::distance(input, #[trigger] keys[i]) <= 3 {
            let i = choose|i: int|
                0 <= i < keys.len() && names::distance(input, #[trigger] keys[i]) <= 3;
            assert(before(input, keys[k], keys[i]));
            assert forall|j: int| 0 <= j < keys.len() implies names::distance(input, keys[k])
                < names::distance(input, #[trigger] keys[j]) || (names::distance(input, keys[k])
                == names::distance(input, keys[j]) && text::le(keys[k], keys[j])) by {
                assert(before(input, keys[k], keys[j]));
            }
            assert(names::is_closest(input, keys, keys[k]));
        }
    }
}

spec fn before(input: Seq<char>, a: Seq<char>, b: Seq<char>) -> bool {
    names::distance(input, a) < names::distance(input, b) || (names::distance(input, a)
        == names::distance(input, b) && text::le(a, b))
}

spec fn nearest_of(input: Seq<char>, keys: Seq<Seq<char>>, n: int, k: int) -> bool {
    &&& 0 <= k < n
    &&& forall|i: int| 0 <= i < n ==> #[trigger] before(input, keys[k], keys[i])
}

} // verus!
