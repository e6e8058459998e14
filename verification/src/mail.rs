//! The file format of mail and channel messages: a JSON head, a separator line and the body.
use crate::error;
use crate::error::{AppError, AppResult};
use crate::ids;
use crate::model;
use crate::model::{Envelope, ParsedMail};
use crate::names;
use crate::order;
use crate::paths;
use crate::text;
use vstd::prelude::*;

verus! {

// ---------------------------------------------------------------------------
// ASCII JSON
// ---------------------------------------------------------------------------
/// The UTF-16 code units of a character.
pub open spec fn code_units(c: char) -> Seq<nat> {
    let n = c as nat;
    if n <= 0xffff {
        seq![n]
    } else {
        let rest = (n - 0x10000) as nat;
        seq![0xd800 + rest / 1024, 0xdc00 + rest % 1024]
    }
}

/// A code unit as a JSON escape.
pub open spec fn unit_escape(unit: nat) -> Seq<char> {
    "\\u"@ + text::low_hex(unit, 4)
}

/// Whether a character may stand in ASCII-only JSON as it is.
pub open spec fn plain_ascii(c: char) -> bool {
    (c as int) < 0x7f
}

/// A character in ASCII-only JSON.
pub open spec fn char_escape(c: char) -> Seq<char> {
    if plain_ascii(c) {
        seq![c]
    } else if (c as int) <= 0xffff {
        unit_escape(c as nat)
    } else {
        unit_escape(code_units(c)[0]) + unit_escape(code_units(c)[1])
    }
}

/// JSON text in which every character that is not plain ASCII is escaped.
pub open spec fn ascii_escaped(json: Seq<char>) -> Seq<char>
    decreases json.len(),
{
    if json.len() == 0 {
        seq![]
    } else {
        char_escape(json[0]) + ascii_escaped(json.skip(1))
    }
}

fn escape_char(c: char) -> (r: String)
    ensures
        r@ == char_escape(c),
{
    let n: u32 = c as u32;
    if n < 0x7f {
        let mut out = String::new();
        out.push(c);
        assert(out@ =~= seq![c]);
        out
    } else if n <= 0xffff {
        text::cat2("\\u", text::low_hex_text(n as u64, 4).as_str())
    } else {
        let rest: u32 = n - 0x1_0000;
        let high = text::low_hex_text((0xd800 + rest / 1024) as u64, 4);
        let low = text::low_hex_text((0xdc00 + rest % 1024) as u64, 4);
        let first = text::cat2("\\u", high.as_str());
        let second = text::cat2("\\u", low.as_str());
        text::cat2(first.as_str(), second.as_str())
    }
}

pub fn ascii_escape_json(json: &str) -> (r: String)
    ensures
        r@ == ascii_escaped(json@),
{
    let chars = text::chars_of(json);
    let mut out = String::new();
    assert(json@.skip(0) =~= json@);
    assert(out@ + ascii_escaped(json@) =~= ascii_escaped(json@));
    for i in 0..chars.len()
        invariant
            chars@ == json@,
            out@ + ascii_escaped(json@.skip(i as int)) == ascii_escaped(json@),
    {
        let ghost rest = json@.skip(i as int);
        let ghost before = out@;
        assert(rest.skip(1) =~= json@.skip(i + 1));
        let piece = escape_char(chars[i]);
        out.append(piece.as_str());
        assert(before + (char_escape(rest[0]) + ascii_escaped(rest.skip(1))) =~= before
            + char_escape(rest[0]) + ascii_escaped(rest.skip(1)));
    }
    assert(out@ + ascii_escaped(json@.skip(json@.len() as int)) =~= out@);
    out
}

proof fn low_hex_is_ascii(n: nat, width: nat)
    ensures
        forall|i: int|
            0 <= i < text::low_hex(n, width).len() ==> plain_ascii(
                #[trigger] text::low_hex(n, width)[i],
            ),
    decreases width,
{
    if width > 0 {
        let head = text::low_hex(n / 16, (width - 1) as nat);
        low_hex_is_ascii(n / 16, (width - 1) as nat);
        assert(plain_ascii(text::hex_digit((n % 16) as int)));
        assert forall|i: int| 0 <= i < text::low_hex(n, width).len() implies plain_ascii(
            #[trigger] text::low_hex(n, width)[i],
        ) by {
            if i < head.len() {
                assert(text::low_hex(n, width)[i] == head[i]);
            }
        }
    }
}

/// Escaped JSON is plain ASCII throughout.
pub proof fn escaped_json_is_ascii(json: Seq<char>)
    ensures
        forall|i: int|
            0 <= i < ascii_escaped(json).len() ==> plain_ascii(#[trigger] ascii_escaped(json)[i]),
    decreases json.len(),
{
    if json.len() > 0 {
        reveal_strlit("\\u");
        let c = json[0];
        escaped_json_is_ascii(json.skip(1));
        low_hex_is_ascii(c as nat, 4);
        if (c as int) > 0xffff {
            low_hex_is_ascii(code_units(c)[0], 4);
            low_hex_is_ascii(code_units(c)[1], 4);
        }
        let head = char_escape(c);
        assert forall|i: int| 0 <= i < head.len() implies plain_ascii(#[trigger] head[i]) by {
            if !plain_ascii(c) && (c as int) <= 0xffff {
                if i >= 2 {
                    assert(head[i] == text::low_hex(c as nat, 4)[i - 2]);
                }
            } else if !plain_ascii(c) {
                let first = unit_escape(code_units(c)[0]);
                let second = unit_escape(code_units(c)[1]);
                if i < first.len() {
                    assert(head[i] == first[i]);
                } else {
                    assert(head[i] == second[i - first.len()]);
                }
            }
        }
        let tail = ascii_escaped(json.skip(1));
        assert forall|i: int| 0 <= i < (head + tail).len() implies plain_ascii(
            #[trigger] (head + tail)[i],
        ) by {
            if i >= head.len() {
                assert((head + tail)[i] == tail[i - head.len()]);
            }
        }
    }
}

/// Plain ASCII text passes through the escaping unchanged.
pub proof fn ascii_json_is_kept(json: Seq<char>)
    requires
        forall|i: int| 0 <= i < json.len() ==> plain_ascii(#[trigger] json[i]),
    ensures
        ascii_escaped(json) == json,
    decreases json.len(),
{
    if json.len() > 0 {
        assert(plain_ascii(json[0]));
        assert forall|i: int| 0 <= i < json.skip(1).len() implies plain_ascii(
            #[trigger] json.skip(1)[i],
        ) by {
            assert(json.skip(1)[i] == json[i + 1]);
        }
        ascii_json_is_kept(json.skip(1));
        assert(seq![json[0]] + json.skip(1) =~= json);
    } else {
        assert(ascii_escaped(json) =~= json);
    }
}

/// The value of a hexadecimal digit.
pub open spec fn hex_digit_value(c: char) -> nat {
    if text::is_digit(c) {
        (c as int - 48) as nat
    } else {
        (c as int - 87) as nat
    }
}

/// The number that hexadecimal digits stand for.
pub open spec fn hex_value(digits: Seq<char>) -> nat
    decreases digits.len(),
{
    if digits.len() == 0 {
        0
    } else {
        16 * hex_value(digits.drop_last()) + hex_digit_value(digits.last())
    }
}

/// A power of sixteen.
pub open spec fn sixteens(width: nat) -> nat
    decreases width,
{
    if width == 0 {
        1
    } else {
        16 * sixteens((width - 1) as nat)
    }
}

proof fn hex_digits_are_read_back(n: nat, width: nat)
    requires
        n < sixteens(width),
    ensures
        hex_value(text::low_hex(n, width)) == n,
    decreases width,
{
    if width > 0 {
        let w = (width - 1) as nat;
        hex_digits_are_read_back(n / 16, w);
        let digits = text::low_hex(n, width);
        assert(digits.drop_last() =~= text::low_hex(n / 16, w));
    }
}

/// Reading the four digits of each escape as UTF-16 gives the escaped character back.
pub proof fn escapes_are_read_back(c: char)
    ensures
        forall|i: int|
            0 <= i < code_units(c).len() ==> hex_value(
                text::low_hex(#[trigger] code_units(c)[i], 4),
            ) == code_units(c)[i],
        code_units(c).len() == 1 ==> code_units(c)[0] == c as nat,
        code_units(c).len() == 2 ==> 0x10000 + (code_units(c)[0] - 0xd800) * 1024 + (
        code_units(c)[1] - 0xdc00) == c as nat,
{
    reveal_with_fuel(sixteens, 5);
    let units = code_units(c);
    assert forall|i: int| 0 <= i < units.len() implies hex_value(
        text::low_hex(#[trigger] units[i], 4),
    ) == units[i] by {
        assert((c as int) <= 0x10ffff);
        assert(units[i] < 65536);
        hex_digits_are_read_back(units[i], 4);
    }
}

// ---------------------------------------------------------------------------
// Head and body
// ---------------------------------------------------------------------------
/// The file of a mail or a channel message: the head in ASCII JSON, the separator, the body.
pub open spec fn framed(head: Seq<char>, body: Seq<char>) -> Seq<char> {
    ascii_escaped(head) + "\n---\n"@ + body
}

/// The file of a mail or a channel message with the given JSON head.
pub fn frame_message(head_json: &str, body: &str) -> (r: String)
    ensures
        r@ == framed(head_json@, body@),
{
    text::cat3(ascii_escape_json(head_json).as_str(), "\n---\n", body)
}

/// What stands before and after the first separator of a file.
pub open spec fn is_split(raw: Seq<char>, head: Seq<char>, body: Seq<char>) -> bool {
    raw == head + "\n---\n"@ + body && text::first_occurrence(raw, "\n---\n"@, head.len() as int)
}

/// The head and the body of a file, at its first separator.
pub fn split_message(raw: &str) -> (r: Option<(String, String)>)
    ensures
        match r {
            Some(parts) => is_split(raw@, parts.0@, parts.1@),
            None => !text::has_part(raw@, "\n---\n"@),
        },
{
    let chars = text::chars_of(raw);
    let mark = text::chars_of("\n---\n");
    match text::find(&chars, &mark) {
        Some(at) => {
            let end: usize = chars.len();
            let next: usize = at + mark.len();
            let head = text::slice_of(&chars, 0, at);
            let body = text::slice_of(&chars, next, end);
            assert(raw@ =~= head@ + "\n---\n"@ + body@) by {
                assert(raw@.subrange(at as int, next as int) == "\n---\n"@);
                assert forall|i: int| 0 <= i < raw@.len() implies raw@[i] == (head@ + "\n---\n"@
                    + body@)[i] by {
                    if at <= i < next {
                        assert(raw@.subrange(at as int, next as int)[i - at] == raw@[i]);
                    }
                }
            }
            Some((head, body))
        },
        None => None,
    }
}

/// At most one pair of head and body splits a file.
pub proof fn split_is_unique(
    raw: Seq<char>,
    head: Seq<char>,
    body: Seq<char>,
    other_head: Seq<char>,
    other_body: Seq<char>,
)
    requires
        is_split(raw, head, body),
        is_split(raw, other_head, other_body),
    ensures
        head == other_head,
        body == other_body,
{
    let n = "\n---\n"@.len();
    assert(head.len() == other_head.len()) by {
        if head.len() < other_head.len() {
            assert(text::occurs(raw, "\n---\n"@, head.len() as int));
        } else if other_head.len() < head.len() {
            assert(text::occurs(raw, "\n---\n"@, other_head.len() as int));
        }
    }
    assert(head =~= raw.take(head.len() as int));
    assert(other_head =~= raw.take(head.len() as int));
    assert(body =~= raw.skip((head.len() + n) as int));
    assert(other_body =~= raw.skip((head.len() + n) as int));
}

/// A read gives back what a write wrote: a framed message splits into its head and its body,
/// whatever the body holds, if the head is a JSON object without a separator line.
pub proof fn framed_messages_are_read_back(head: Seq<char>, body: Seq<char>)
    requires
        ascii_escaped(head).len() > 0,
        ascii_escaped(head).last() == '}',
        !text::has_part(ascii_escaped(head), "\n---\n"@),
    ensures
        is_split(framed(head, body), ascii_escaped(head), body),
{
    reveal_strlit("\n---\n");
    let h = ascii_escaped(head);
    let mark = "\n---\n"@;
    let raw = framed(head, body);
    let at = h.len() as int;
    assert(raw.subrange(at, at + mark.len()) =~= mark);
    assert forall|j: int| 0 <= j < at implies !text::occurs(raw, mark, j) by {
        if text::occurs(raw, mark, j) {
            let piece = raw.subrange(j, j + mark.len());
            if j + mark.len() <= at {
                assert(h.subrange(j, j + mark.len()) =~= piece);
                assert(text::occurs(h, mark, j));
            } else {
                let k = at - 1 - j;
                assert(piece[k] == raw[at - 1]);
                assert(raw[at - 1] == h.last());
                assert(mark[k] == '}');
            }
        }
    }
}

// ---------------------------------------------------------------------------
// Envelopes
// ---------------------------------------------------------------------------
/// Why an envelope is refused.
pub open spec fn envelope_fault(e: model::EnvelopeView) -> Option<Seq<char>> {
    if text::blank(e.id) {
        Some("mail envelope field 'id' is empty"@)
    } else if text::blank(e.from) {
        Some("mail envelope field 'from' is empty"@)
    } else if text::blank(e.to) {
        Some("mail envelope field 'to' is empty"@)
    } else if text::blank(e.sent) {
        Some("mail envelope field 'sent' is empty"@)
    } else if !ids::mail_id_shape(e.id) {
        Some("mail envelope id '"@ + e.id + "' must match YYYYmmdd-HHMMSS-<6 hex>"@)
    } else if e.display_name is Some && names::has_refused(e.display_name->0) {
        Some(
            "mail envelope field 'display_name' contains control, bidi, or line-separator characters"@,
        )
    } else if e.pfp is Some && names::has_refused(e.pfp->0) {
        Some("mail envelope field 'pfp' contains control, bidi, or line-separator characters"@)
    } else {
        None
    }
}

/// The error of a file that is refused for a reason.
pub open spec fn config_error(path: Seq<char>, reason: Option<Seq<char>>) -> Option<
    error::ErrorView,
> {
    match reason {
        Some(r) => Some(error::ErrorView::config(path, r)),
        None => None,
    }
}

/// Whether an optional text holds a character that profile text may not hold.
pub fn opt_refused(value: &Option<String>) -> (r: bool)
    ensures
        r == (value is Some && names::has_refused(value->0@)),
{
    match value {
        Some(v) => names::contains_refused(v.as_str()),
        None => false,
    }
}

pub fn validate_envelope(path: &str, envelope: &Envelope) -> (r: AppResult<()>)
    ensures
        error::failure(r) == config_error(path@, envelope_fault(envelope@)),
{
    if text::is_blank(envelope.id.as_str()) {
        return Err(AppError::config(path, "mail envelope field 'id' is empty"));
    }
    if text::is_blank(envelope.from.as_str()) {
        return Err(AppError::config(path, "mail envelope field 'from' is empty"));
    }
    if text::is_blank(envelope.to.as_str()) {
        return Err(AppError::config(path, "mail envelope field 'to' is empty"));
    }
    if text::is_blank(envelope.sent.as_str()) {
        return Err(AppError::config(path, "mail envelope field 'sent' is empty"));
    }
    if !ids::is_mail_id(envelope.id.as_str()) {
        return Err(
            AppError::config(
                path,
                text::cat3(
                    "mail envelope id '",
                    envelope.id.as_str(),
                    "' must match YYYYmmdd-HHMMSS-<6 hex>",
                ).as_str(),
            ),
        );
    }
    if opt_refused(&envelope.display_name) {
        return Err(
            AppError::config(
                path,
                "mail envelope field 'display_name' contains control, bidi, or line-separator characters",
            ),
        );
    }
    if opt_refused(&envelope.pfp) {
        return Err(
            AppError::config(
                path,
                "mail envelope field 'pfp' contains control, bidi, or line-separator characters",
            ),
        );
    }
    Ok(())
}

/// The head and the body of a mail file, or the error of a file without a separator.
pub fn split_mail(path: &str, raw: &str) -> (r: AppResult<(String, String)>)
    ensures
        match r {
            Ok(parts) => is_split(raw@, parts.0@, parts.1@),
            Err(e) => !text::has_part(raw@, "\n---\n"@) && e@ == error::ErrorView::config(
                path@,
                "mail has no '\\n---\\n' separator; restore a valid .mail file or move it aside"@,
            ),
        },
{
    match split_message(raw) {
        Some(parts) => Ok(parts),
        None => Err(
            AppError::config(
                path,
                "mail has no '\\n---\\n' separator; restore a valid .mail file or move it aside",
            ),
        ),
    }
}

/// The error of a mail whose head is not a JSON envelope.
pub fn malformed_envelope(path: &str, problem: &str) -> (r: AppError)
    ensures
        r@ == error::ErrorView::config(path@, "malformed envelope JSON: "@ + problem@),
{
    AppError::config(path, text::cat2("malformed envelope JSON: ", problem).as_str())
}

/// Whether a file carries the name that belongs to an id.
pub open spec fn named_after(path: Seq<char>, id: Seq<char>) -> bool {
    match paths::file_name(path) {
        Some(name) => paths::stem(name) == id,
        None => false,
    }
}

pub fn is_named_after(path: &str, id: &str) -> (r: bool)
    ensures
        r == named_after(path@, id@),
{
    match paths::path_file_name(path) {
        Some(name) => text::same(paths::file_stem(name.as_str()).as_str(), id),
        None => false,
    }
}

/// Why a parsed mail at a path is refused.
pub open spec fn mail_fault(path: Seq<char>, e: model::EnvelopeView) -> Option<Seq<char>> {
    if envelope_fault(e) is Some {
        envelope_fault(e)
    } else if !named_after(path, e.id) {
        Some("mail filename must be '"@ + e.id + ".mail' to match envelope id '"@ + e.id + "'"@)
    } else {
        None
    }
}

/// Accepts a mail whose head has been read from the file at `path`.
pub fn accept_mail(path: &str, envelope: Envelope, body: String) -> (r: AppResult<ParsedMail>)
    ensures
        match r {
            Ok(mail) => mail_fault(path@, envelope@) is None && mail.envelope == envelope
                && mail.body == body,
            Err(e) => Some(e@) == config_error(path@, mail_fault(path@, envelope@)),
        },
{
    match validate_envelope(path, &envelope) {
        Ok(_) => {},
        Err(e) => {
            return Err(e);
        },
    }
    if !is_named_after(path, envelope.id.as_str()) {
        return Err(
            AppError::config(
                path,
                text::cat5(
                    "mail filename must be '",
                    envelope.id.as_str(),
                    ".mail' to match envelope id '",
                    envelope.id.as_str(),
                    "'",
                ).as_str(),
            ),
        );
    }
    Ok(ParsedMail { envelope, body })
}

// ---------------------------------------------------------------------------
// Directories of messages
// ---------------------------------------------------------------------------
/// Whether a file name has the given extension.
pub open spec fn has_extension(name: Seq<char>, ext: Seq<char>) -> bool {
    paths::extension(name) == Some(ext)
}

/// Whether `chosen` are the names of a directory that have an extension, in order.
pub open spec fn are_files_with(
    chosen: Seq<Seq<char>>,
    listed: Seq<Seq<char>>,
    ext: Seq<char>,
) -> bool {
    &&& order::texts_sorted(chosen)
    &&& chosen.to_multiset() == listed.filter(
        |name: Seq<char>| has_extension(name, ext),
    ).to_multiset()
}

/// The files of a directory that have an extension, in the order of their names.
pub fn files_with_extension(listed: &Vec<String>, ext: &str) -> (r: Vec<String>)
    ensures
        are_files_with(text::texts(r@), text::texts(listed@), ext@),
{
    let mut kept: Vec<String> = Vec::new();
    let ghost f = |name: Seq<char>| has_extension(name, ext@);
    let ghost all = text::texts(listed@);
    assert(text::texts(kept@) =~= all.take(0).filter(f)) by {
        reveal(Seq::filter);
    }
    for i in 0..listed.len()
        invariant
            all == text::texts(listed@),
            f == (|name: Seq<char>| has_extension(name, ext@)),
            text::texts(kept@) == all.take(i as int).filter(f),
    {
        let ghost before = text::texts(kept@);
        assert(all.take(i + 1).drop_last() =~= all.take(i as int));
        assert(all.take(i + 1).last() == listed@[i as int]@);
        reveal(Seq::filter);
        let found = paths::file_extension(listed[i].as_str());
        if text::opt_same(&found, ext) {
            kept.push(listed[i].clone());
            assert(text::texts(kept@) =~= before.push(listed@[i as int]@));
        }
    }
    assert(all.take(all.len() as int) =~= all);
    order::sort_texts(kept)
}

} // verus!
