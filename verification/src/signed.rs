//! Signed channel messages: what a message claims, what the claim is held against, and what
//! a reader is shown.
use crate::model;
use crate::model::ChannelMessage;
use crate::owner;
use crate::owner::{OwnerSource, ResolvedOwner};
use crate::paths;
use crate::text;
use vstd::prelude::*;

verus! {

pub const NO_PAYLOAD: &'static str = "no signed payload on disk";

pub const MALFORMED_TAG: &'static str = "malformed signature tag";

pub const RENAMED_PAYLOAD: &'static str =
    "tag does not match the timestamp inside the signed payload — possible rename-replay";

pub const OTHER_TEXT: &'static str = "channel text differs from signed payload";

pub const BAD_SIGNATURE: &'static str = "cryptographic verification failed";

pub const UNCHECKED_SIGNATURE: &'static str = "signed payload could not be checked";

pub const NO_KEYGEN: &'static str = "ssh-keygen unavailable";

pub const UNVERIFIED_LOCATOR: &'static str = "detached signature locator cannot be verified";

/// What a message says of its own signature.
#[derive(Debug)]
pub enum Claim {
    /// Nothing: an ordinary message.
    Unsigned,
    /// It names a detached signature. Such signatures are not verified: they are made over a
    /// manifest of the tag, the channel, the length and the digest of the body, whose exact
    /// bytes the signing tool fixes and nothing here shows. The claim therefore fails, always
    /// and loudly: it is neither believed nor shown as an ordinary message.
    Locator,
    /// It has a tag that cannot name a signature.
    Malformed,
    /// The text of its first line is signed under the tag, and other lines follow, for which
    /// the tag does not vouch.
    Trailed { text: String, tag: String },
    /// The text is signed under the tag.
    Tagged { text: String, tag: String },
}

pub ghost enum ClaimView {
    Unsigned,
    Locator,
    Malformed,
    Trailed { text: Seq<char>, tag: Seq<char> },
    Tagged { text: Seq<char>, tag: Seq<char> },
}

impl View for Claim {
    type V = ClaimView;

    open spec fn view(&self) -> ClaimView {
        match self {
            Claim::Unsigned => ClaimView::Unsigned,
            Claim::Locator => ClaimView::Locator,
            Claim::Malformed => ClaimView::Malformed,
            Claim::Trailed { text, tag } => ClaimView::Trailed { text: text@, tag: tag@ },
            Claim::Tagged { text, tag } => ClaimView::Tagged { text: text@, tag: tag@ },
        }
    }
}

/// Whether `at` is the last position at which `part` stands in `s`.
pub open spec fn last_occurrence(s: Seq<char>, part: Seq<char>, at: int) -> bool {
    text::occurs(s, part, at) && forall|j: int| at < j ==> !text::occurs(s, part, j)
}

fn find_last(chars: &Vec<char>, part: &Vec<char>) -> (r: Option<usize>)
    ensures
        match r {
            Some(i) => last_occurrence(chars@, part@, i as int),
            None => !text::has_part(chars@, part@),
        },
{
    if part.len() > chars.len() {
        return None;
    }
    let mut i: usize = chars.len() - part.len();
    assert(forall|j: int| i < j ==> !text::occurs(chars@, part@, j));
    loop
        invariant
            i <= chars@.len() - part@.len(),
            forall|j: int| i < j ==> !text::occurs(chars@, part@, j),
        decreases i,
    {
        if text::occurs_at(chars, part, i) {
            return Some(i);
        }
        if i == 0 {
            return None;
        }
        i = i - 1;
    }
}

/// Whether every character may stand in a tag, and there is one.
pub open spec fn good_tag(tag: Seq<char>) -> bool {
    tag.len() > 0 && forall|i: int|
        0 <= i < tag.len() ==> text::is_ascii_alphanumeric(#[trigger] tag[i]) || tag[i] == '-'
}

fn is_good_tag(chars: &Vec<char>) -> (r: bool)
    ensures
        r == good_tag(chars@),
{
    for i in 0..chars.len()
        invariant
            forall|j: int|
                0 <= j < i ==> text::is_ascii_alphanumeric(#[trigger] chars@[j]) || chars@[j]
                    == '-',
    {
        let c: char = chars[i];
        if !text::char_is_ascii_alphanumeric(c) && c != '-' {
            assert(!(text::is_ascii_alphanumeric(chars@[i as int]) || chars@[i as int] == '-'));
            return false;
        }
    }
    chars.len() > 0
}

/// Whether a text can name a signature.
pub fn valid_tag(tag: &str) -> (r: bool)
    ensures
        r == good_tag(tag@),
{
    is_good_tag(&text::chars_of(tag))
}

/// What a line claims behind the owner's marks: a text, and the tag in the last bracket that
/// opens with `[signed:` and ends the line.
pub open spec fn line_claim(rest: Seq<char>) -> ClaimView {
    if !text::has_part(rest, " [signed:"@) {
        ClaimView::Unsigned
    } else {
        let at = choose|at: int| last_occurrence(rest, " [signed:"@, at);
        let tail = rest.skip(at + " [signed:"@.len());
        if tail.len() == 0 || tail.last() != ']' {
            ClaimView::Unsigned
        } else if !good_tag(tail.drop_last()) {
            ClaimView::Malformed
        } else {
            ClaimView::Tagged { text: rest.take(at), tag: tail.drop_last() }
        }
    }
}

/// What the first line of the owner's body claims.
pub open spec fn first_line_claim(owner: owner::OwnerView, line: Seq<char>) -> ClaimView {
    let marks = owner.marker + "🔏 "@;
    if text::has_prefix(line, marks) {
        line_claim(line.skip(marks.len() as int))
    } else {
        ClaimView::Unsigned
    }
}

/// What a message claims. Only the owner's messages claim anything, and a tag vouches for a
/// message of one line only: lines that follow are not signed.
pub open spec fn claim(
    owner: owner::OwnerView,
    message: model::MessageView,
    body: Seq<char>,
) -> ClaimView {
    if message.from != owner.room {
        ClaimView::Unsigned
    } else if message.signature_ref is Some {
        ClaimView::Locator
    } else if text::lines(body).len() == 0 {
        ClaimView::Unsigned
    } else {
        match first_line_claim(owner, text::lines(body)[0]) {
            ClaimView::Tagged { text: words, tag } if text::lines(body).len() > 1 => {
                ClaimView::Trailed { text: words, tag }
            },
            claimed => claimed,
        }
    }
}

fn read_line_claim(rest: &Vec<char>) -> (r: Claim)
    ensures
        r@ == line_claim(rest@),
{
    let opening = text::chars_of(" [signed:");
    match find_last(rest, &opening) {
        None => Claim::Unsigned,
        Some(at) => {
            let ghost picked = choose|p: int| last_occurrence(rest@, " [signed:"@, p);
            assert(last_occurrence(rest@, " [signed:"@, at as int));
            assert(picked == at);
            let end: usize = rest.len();
            let start: usize = at + opening.len();
            let ghost tail = rest@.skip(start as int);
            if start == end || rest[end - 1] != ']' {
                assert(tail.len() > 0 ==> tail.last() == rest@[end - 1]);
                return Claim::Unsigned;
            }
            let tag = text::slice_of(rest, start, end - 1);
            assert(tag@ =~= tail.drop_last());
            assert(tail.last() == rest@[end - 1]);
            if !is_good_tag(&text::chars_of(tag.as_str())) {
                return Claim::Malformed;
            }
            let words = text::slice_of(rest, 0, at);
            assert(words@ =~= rest@.take(at as int));
            Claim::Tagged { text: words, tag }
        },
    }
}

/// Reads what a message claims of its own signature.
pub fn signed_claim(owner: &ResolvedOwner, message: &ChannelMessage, body: &str) -> (r: Claim)
    ensures
        r@ == claim(owner@, message@, body@),
{
    if !text::same(message.from.as_str(), owner.room.as_str()) {
        return Claim::Unsigned;
    }
    if message.signature_ref.is_some() {
        return Claim::Locator;
    }
    let lines = text::line_texts(body);
    assert(text::texts(lines@).len() == lines@.len());
    if lines.len() == 0 {
        return Claim::Unsigned;
    }
    let marks = text::chars_of(text::cat2(owner.marker.as_str(), "🔏 ").as_str());
    let first = text::chars_of(lines[0].as_str());
    assert(first@ == text::lines(body@)[0]);
    if !text::occurs_at(&first, &marks, 0) {
        return Claim::Unsigned;
    }
    let rest = text::chars_of(text::slice_of(&first, marks.len(), first.len()).as_str());
    assert(rest@ =~= first@.skip(marks@.len() as int));
    match read_line_claim(&rest) {
        Claim::Tagged { text, tag } => if lines.len() > 1 {
            Claim::Trailed { text, tag }
        } else {
            Claim::Tagged { text, tag }
        },
        claimed => claimed,
    }
}

/// Where the signed payload of a tag lies, and its signature.
pub fn payload_files(owner: &ResolvedOwner, tag: &str) -> (r: (String, String))
    ensures
        r.0@ == paths::join(paths::join(owner.sidecar_dir@, "sigs"@), tag@ + ".txt"@),
        r.1@ == paths::join(paths::join(owner.sidecar_dir@, "sigs"@), tag@ + ".txt.sig"@),
{
    let sigs = paths::join_path(owner.sidecar_dir.as_str(), "sigs");
    (
        paths::join_path(sigs.as_str(), text::cat2(tag, ".txt").as_str()),
        paths::join_path(sigs.as_str(), text::cat2(tag, ".txt.sig").as_str()),
    )
}

/// Why a payload does not back a claim, whatever its signature says: it must hold the tag and
/// the text, in its first two lines.
pub open spec fn payload_fault(
    words: Seq<char>,
    tag: Seq<char>,
    payload: Option<Seq<char>>,
) -> Option<Seq<char>> {
    match payload {
        None => Some(NO_PAYLOAD@),
        Some(p) => if text::lines(p).len() < 1 || text::lines(p)[0] != tag {
            Some(RENAMED_PAYLOAD@)
        } else if text::lines(p).len() < 2 || text::lines(p)[1] != words {
            Some(OTHER_TEXT@)
        } else {
            None
        },
    }
}

pub fn check_payload(words: &str, tag: &str, payload: Option<&str>) -> (r: Option<&'static str>)
    ensures
        text::opt_str(r) == payload_fault(words@, tag@, text::opt_str(payload)),
{
    match payload {
        None => Some(NO_PAYLOAD),
        Some(p) => {
            let lines = text::line_texts(p);
            assert(text::texts(lines@).len() == lines@.len());
            assert(lines@.len() > 0 ==> text::texts(lines@)[0] == lines@[0]@);
            assert(lines@.len() > 1 ==> text::texts(lines@)[1] == lines@[1]@);
            if lines.len() < 1 || !text::same(lines[0].as_str(), tag) {
                Some(RENAMED_PAYLOAD)
            } else if lines.len() < 2 || !text::same(lines[1].as_str(), words) {
                Some(OTHER_TEXT)
            } else {
                None
            }
        },
    }
}

/// How the check of a signature over its payload ended.
#[derive(Debug, Clone, Copy, PartialEq, Eq, Structural)]
pub enum KeyCheck {
    Accepted,
    Rejected,
    /// The checking program could not be run.
    Unavailable,
    /// The payload could not be handed to it.
    NotRun,
}

/// What a reader learns of a message that claims a signature.
#[derive(Debug)]
pub enum SignedStatus {
    Verified { tag: String, age_minutes: Option<u64> },
    Failed { reason: &'static str },
}

pub ghost enum StatusView {
    Verified { tag: Seq<char>, age_minutes: Option<u64> },
    Failed { reason: Seq<char> },
}

impl View for SignedStatus {
    type V = StatusView;

    open spec fn view(&self) -> StatusView {
        match self {
            SignedStatus::Verified { tag, age_minutes } => StatusView::Verified {
                tag: tag@,
                age_minutes: *age_minutes,
            },
            SignedStatus::Failed { reason } => StatusView::Failed { reason: reason@ },
        }
    }
}

pub open spec fn status_view(status: Option<SignedStatus>) -> Option<StatusView> {
    match status {
        Some(s) => Some(s@),
        None => None,
    }
}

/// Why a tag does not hold: its payload does not back it, or the signature over that payload
/// was not accepted.
pub open spec fn tag_fault(
    words: Seq<char>,
    tag: Seq<char>,
    payload: Option<Seq<char>>,
    check: KeyCheck,
) -> Option<Seq<char>> {
    match payload_fault(words, tag, payload) {
        Some(reason) => Some(reason),
        None => match check {
            KeyCheck::Accepted => None,
            KeyCheck::Rejected => Some(BAD_SIGNATURE@),
            KeyCheck::Unavailable => Some(NO_KEYGEN@),
            KeyCheck::NotRun => Some(UNCHECKED_SIGNATURE@),
        },
    }
}

fn check_tag(words: &str, tag: &str, payload: Option<&str>, check: KeyCheck) -> (r: Option<
    &'static str,
>)
    ensures
        text::opt_str(r) == tag_fault(words@, tag@, text::opt_str(payload), check),
{
    match check_payload(words, tag, payload) {
        Some(reason) => Some(reason),
        None => match check {
            KeyCheck::Accepted => None,
            KeyCheck::Rejected => Some(BAD_SIGNATURE),
            KeyCheck::Unavailable => Some(NO_KEYGEN),
            KeyCheck::NotRun => Some(UNCHECKED_SIGNATURE),
        },
    }
}

/// What follows from a claim, the payload of its tag, the check of that payload's signature
/// and the time. A tag that does not hold is shown as failed. One that holds gives a badge to
/// a message of one line, and none to a longer one.
pub open spec fn status(
    claimed: ClaimView,
    payload: Option<Seq<char>>,
    check: KeyCheck,
    now: Option<i64>,
) -> Option<StatusView> {
    match claimed {
        ClaimView::Unsigned => None,
        ClaimView::Locator => Some(StatusView::Failed { reason: UNVERIFIED_LOCATOR@ }),
        ClaimView::Malformed => Some(StatusView::Failed { reason: MALFORMED_TAG@ }),
        ClaimView::Trailed { text: words, tag } => match tag_fault(words, tag, payload, check) {
            Some(reason) => Some(StatusView::Failed { reason }),
            None => None,
        },
        ClaimView::Tagged { text: words, tag } => match tag_fault(words, tag, payload, check) {
            Some(reason) => Some(StatusView::Failed { reason }),
            None => Some(
                StatusView::Verified {
                    tag,
                    age_minutes: match now {
                        Some(n) => age_minutes(tag, n as int),
                        None => None,
                    },
                },
            ),
        },
    }
}

/// Judges a claim. The check is asked for only where the payload backs the claim.
pub fn signed_status(
    claimed: &Claim,
    payload: Option<&str>,
    check: KeyCheck,
    now: Option<i64>,
) -> (r: Option<SignedStatus>)
    ensures
        status_view(r) == status(claimed@, text::opt_str(payload), check, now),
{
    match claimed {
        Claim::Unsigned => None,
        Claim::Locator => Some(SignedStatus::Failed { reason: UNVERIFIED_LOCATOR }),
        Claim::Malformed => Some(SignedStatus::Failed { reason: MALFORMED_TAG }),
        Claim::Trailed { text: words, tag } => {
            match check_tag(words.as_str(), tag.as_str(), payload, check) {
                Some(reason) => Some(SignedStatus::Failed { reason }),
                None => None,
            }
        },
        Claim::Tagged { text: words, tag } => {
            match check_tag(words.as_str(), tag.as_str(), payload, check) {
                Some(reason) => Some(SignedStatus::Failed { reason }),
                None => Some(
                    SignedStatus::Verified {
                        tag: tag.clone(),
                        age_minutes: match now {
                            Some(n) => signed_age_minutes(tag.as_str(), n),
                            None => None,
                        },
                    },
                ),
            }
        },
    }
}

/// What a verified badge stands for: the message is of the owner's room, it is one line that
/// carries the tag, the payload of that tag holds the tag and the very text of the message,
/// and the signature over that payload was accepted. With all of these, the badge is shown.
pub proof fn badges_are_verified_iff_everything_holds(
    owner: owner::OwnerView,
    message: model::MessageView,
    body: Seq<char>,
    payload: Option<Seq<char>>,
    check: KeyCheck,
    now: Option<i64>,
)
    ensures
        (status(claim(owner, message, body), payload, check, now) matches Some(
            StatusView::Verified { .. },
        )) <==> {
            &&& message.from == owner.room
            &&& message.signature_ref is None
            &&& text::lines(body).len() == 1
            &&& check == KeyCheck::Accepted
            &&& payload is Some
            &&& text::lines(payload->0).len() >= 2
            &&& first_line_claim(owner, text::lines(body)[0]) == (ClaimView::Tagged {
                text: text::lines(payload->0)[1],
                tag: text::lines(payload->0)[0],
            })
        },
{
}

/// After a text, nothing of a good tag in its bracket opens another bracket.
proof fn bracket_opens_last(words: Seq<char>, tag: Seq<char>)
    requires
        good_tag(tag),
    ensures
        last_occurrence(words + " [signed:"@ + tag + "]"@, " [signed:"@, words.len() as int),
{
    let opening = " [signed:"@;
    let rest = words + opening + tag + "]"@;
    let at = words.len() as int;
    reveal_strlit(" [signed:");
    reveal_strlit("]");
    assert(rest.subrange(at, at + opening.len()) =~= opening);
    assert forall|k: int| at < k < rest.len() implies rest[k] != ' ' by {
        if k < at + opening.len() {
            assert(rest[k] == opening[k - at]);
        } else if k < at + opening.len() + tag.len() {
            assert(rest[k] == tag[k - at - opening.len()]);
        } else {
            assert(rest[k] == "]"@[0]);
        }
    }
    assert forall|j: int| at < j implies !text::occurs(rest, opening, j) by {
        if text::occurs(rest, opening, j) {
            assert(rest.subrange(j, j + opening.len())[0] == rest[j]);
        }
    }
}

/// The line that the owner's marks, a text and a good tag make claims that text under that
/// tag, also where the text speaks of tags itself.
pub proof fn signed_lines_are_read_back(owner: owner::OwnerView, words: Seq<char>, tag: Seq<char>)
    requires
        good_tag(tag),
    ensures
        first_line_claim(
            owner,
            owner.marker + "🔏 "@ + (words + " [signed:"@ + tag + "]"@),
        ) == (ClaimView::Tagged { text: words, tag }),
{
    let marks = owner.marker + "🔏 "@;
    let opening = " [signed:"@;
    let rest = words + opening + tag + "]"@;
    let line = marks + rest;
    let at = words.len() as int;
    assert("]"@.len() == 1 && "]"@[0] == ']') by {
        reveal_strlit("]");
    }
    assert(line.subrange(0, marks.len() as int) =~= marks);
    assert(line.skip(marks.len() as int) =~= rest);
    bracket_opens_last(words, tag);
    assert(text::occurs(rest, opening, at));
    let picked = choose|p: int| last_occurrence(rest, opening, p);
    assert(last_occurrence(rest, opening, picked));
    assert(picked == at);
    let tail = rest.skip(at + opening.len());
    assert(tail =~= tag + "]"@);
    assert(tail.drop_last() =~= tag);
    assert(rest.take(at) =~= words);
}

/// Only the first line is read for a tag: where it claims nothing, the message claims
/// nothing, whatever the later lines hold.
pub proof fn later_lines_claim_nothing(
    owner: owner::OwnerView,
    message: model::MessageView,
    body: Seq<char>,
)
    requires
        message.signature_ref is None,
        text::lines(body).len() > 0,
        first_line_claim(owner, text::lines(body)[0]) is Unsigned,
    ensures
        claim(owner, message, body) is Unsigned,
{
}

/// A message of more than one line never carries a badge: nothing unsigned stands under one.
/// Where everything holds for its first line it has no status, and where it does not, it fails
/// as a message of that one line would.
pub proof fn longer_messages_carry_no_badge(
    owner: owner::OwnerView,
    message: model::MessageView,
    body: Seq<char>,
    payload: Option<Seq<char>>,
    check: KeyCheck,
    now: Option<i64>,
)
    requires
        text::lines(body).len() > 1,
    ensures
        !(status(claim(owner, message, body), payload, check, now) matches Some(
            StatusView::Verified { .. },
        )),
        message.from == owner.room && message.signature_ref is None ==> status(
            claim(owner, message, body),
            payload,
            check,
            now,
        ) == match status(first_line_claim(owner, text::lines(body)[0]), payload, check, now) {
            Some(StatusView::Verified { .. }) => None,
            first_line => first_line,
        },
{
}

/// Only the owner's messages carry badges.
pub proof fn others_carry_no_badge(
    owner: owner::OwnerView,
    message: model::MessageView,
    body: Seq<char>,
    payload: Option<Seq<char>>,
    check: KeyCheck,
    now: Option<i64>,
)
    requires
        message.from != owner.room,
    ensures
        status(claim(owner, message, body), payload, check, now) is None,
{
}

/// A doubtful claim is never shown as unsigned. A message has no status exactly if it claims
/// nothing, or if it is longer than the line for which its tag holds; and whatever was not
/// checked and accepted is shown as failed.
pub proof fn doubtful_claims_fail_loudly(
    claimed: ClaimView,
    payload: Option<Seq<char>>,
    check: KeyCheck,
    now: Option<i64>,
)
    ensures
        status(claimed, payload, check, now) is None <==> claimed is Unsigned || (claimed matches
            ClaimView::Trailed { text: words, tag } && tag_fault(words, tag, payload, check)
            is None),
        claimed is Locator || claimed is Malformed ==> (status(claimed, payload, check, now)
            matches Some(StatusView::Failed { .. })),
        !(claimed is Unsigned) && check != KeyCheck::Accepted ==> (status(
            claimed,
            payload,
            check,
            now,
        ) matches Some(StatusView::Failed { .. })),
        !(claimed is Unsigned) && payload is None ==> (status(claimed, payload, check, now)
            matches Some(StatusView::Failed { .. })),
{
}

/// A first line of the owner that carries the marks and a tag is judged loudly, whatever lines
/// follow: unless the tag is well formed, its payload holds the tag and the text, and the
/// signature was accepted, the message is shown as failed.
pub proof fn tagged_first_lines_hold_or_fail(
    owner: owner::OwnerView,
    message: model::MessageView,
    body: Seq<char>,
    payload: Option<Seq<char>>,
    check: KeyCheck,
    now: Option<i64>,
)
    requires
        message.from == owner.room,
        message.signature_ref is None,
        text::lines(body).len() > 0,
    ensures
        match first_line_claim(owner, text::lines(body)[0]) {
            ClaimView::Tagged { text: words, tag } => tag_fault(words, tag, payload, check) is Some
                ==> (status(claim(owner, message, body), payload, check, now) matches Some(
                StatusView::Failed { .. },
            )),
            ClaimView::Malformed => status(claim(owner, message, body), payload, check, now)
                matches Some(StatusView::Failed { .. }),
            _ => status(claim(owner, message, body), payload, check, now) is None,
        },
{
}

// ---------------------------------------------------------------------------
// Age
// ---------------------------------------------------------------------------
/// The number that a short text stands for: digits, after at most one sign.
pub open spec fn signed_number(s: Seq<char>) -> Option<int> {
    if s.len() > 1 && s[0] == '-' && text::all_digits(s.skip(1)) {
        Some(-(text::digits_value(s.skip(1)) as int))
    } else if s.len() > 1 && s[0] == '+' && text::all_digits(s.skip(1)) {
        Some(text::digits_value(s.skip(1)) as int)
    } else if s.len() > 0 && text::all_digits(s) {
        Some(text::digits_value(s) as int)
    } else {
        None
    }
}

/// The days from the first of January 1970 to a date of the Gregorian calendar. Years are
/// taken to begin in March, so that a leap day ends one.
pub open spec fn days_from_civil(y: int, mo: int, d: int) -> int {
    let y_adj = if mo <= 2 {
        y - 1
    } else {
        y
    };
    let era = y_adj / 400;
    let yoe = y_adj - era * 400;
    let months = if mo > 2 {
        mo - 3
    } else {
        mo + 9
    };
    let doy = (153 * months + 2) / 5 + d - 1;
    let doe = yoe * 365 + yoe / 4 - yoe / 100 + doy;
    era * 146_097 + doe - 719_468
}

/// The part of a stamp between two positions, as a number.
pub open spec fn field(ts: Seq<char>, from: int, to: int) -> Option<int> {
    signed_number(ts.subrange(from, to))
}

/// The seconds from the first of January 1970 to a compact stamp such as `20260805T005320Z`.
pub open spec fn stamp_seconds(ts: Seq<char>) -> Option<int> {
    if ts.len() != 16 || ts[8] != 'T' || ts[15] != 'Z' {
        None
    } else {
        match (
            (field(ts, 0, 4), field(ts, 4, 6), field(ts, 6, 8)),
            (field(ts, 9, 11), field(ts, 11, 13), field(ts, 13, 15)),
        ) {
            ((Some(y), Some(mo), Some(d)), (Some(h), Some(mi), Some(s))) => Some(
                days_from_civil(y, mo, d) * 86_400 + h * 3_600 + mi * 60 + s,
            ),
            _ => None,
        }
    }
}

/// The whole minutes from a stamp to now, if the stamp is well formed and not in the future.
pub open spec fn age_minutes(ts: Seq<char>, now: int) -> Option<u64> {
    match stamp_seconds(ts) {
        Some(at) => if now >= at {
            Some(((now - at) / 60) as u64)
        } else {
            None
        },
        None => None,
    }
}

proof fn small_digits(s: Seq<char>)
    requires
        text::all_digits(s),
        s.len() <= 4,
    ensures
        s.len() == 1 ==> text::digits_value(s) == s[0] as int - 48,
        s.len() == 2 ==> text::digits_value(s) == (s[0] as int - 48) * 10 + (s[1] as int - 48),
        s.len() == 3 ==> text::digits_value(s) == (s[0] as int - 48) * 100 + (s[1] as int - 48)
            * 10 + (s[2] as int - 48),
        s.len() == 4 ==> text::digits_value(s) == (s[0] as int - 48) * 1000 + (s[1] as int - 48)
            * 100 + (s[2] as int - 48) * 10 + (s[3] as int - 48),
        text::digits_value(s) <= 9999,
    decreases s.len(),
{
    assert(forall|i: int| 0 <= i < s.len() ==> text::is_digit(#[trigger] s[i]));
    if s.len() > 0 {
        let front = s.drop_last();
        assert(forall|i: int| 0 <= i < front.len() ==> front[i] == s[i]);
        small_digits(front);
    }
}

fn read_field(chars: &Vec<char>, from: usize, to: usize) -> (r: Option<i64>)
    requires
        from < to <= chars@.len(),
        to - from <= 4,
    ensures
        match r {
            Some(n) => field(chars@, from as int, to as int) == Some(n as int) && -9999 <= n
                <= 9999,
            None => field(chars@, from as int, to as int) is None,
        },
{
    let ghost part = chars@.subrange(from as int, to as int);
    let first: char = chars[from];
    assert(part[0] == first);
    let has_sign: bool = to - from > 1 && (first == '-' || first == '+');
    let start: usize = if has_sign {
        from + 1
    } else {
        from
    };
    let ghost digits = part.skip(start - from);
    assert(part.skip(0) =~= part);
    let mut value: i64 = 0;
    let mut i: usize = start;
    assert(digits.take(0) =~= seq![]);
    while i < to
        invariant
            from <= start <= i <= to <= chars@.len(),
            from < to,
            to - from <= 4,
            has_sign == (to - from > 1 && (part[0] == '-' || part[0] == '+')),
            part == chars@.subrange(from as int, to as int),
            digits == part.skip(start - from),
            part.skip(0) == part,
            start == (if has_sign {
                from + 1
            } else {
                from as int
            }),
            text::all_digits(digits.take(i - start)),
            value == text::digits_value(digits.take(i - start)),
            i - start <= 0 ==> value == 0,
            i - start <= 1 ==> value <= 9,
            i - start <= 2 ==> value <= 99,
            i - start <= 3 ==> value <= 999,
            0 <= value <= 9999,
        decreases to - i,
    {
        let c: char = chars[i];
        assert(digits[i - start] == c);
        if !text::char_is_digit(c) {
            assert(!text::is_digit(digits[i - start]));
            assert(!text::all_digits(digits));
            assert(!text::all_digits(part)) by {
                assert(part[i - from] == c);
            }
            return None;
        }
        let ghost before = digits.take(i - start);
        let ghost after = digits.take(i + 1 - start);
        assert(after.drop_last() =~= before);
        assert(after.last() == c);
        assert forall|k: int| 0 <= k < after.len() implies text::is_digit(#[trigger] after[k]) by {
            if k < before.len() {
                assert(after[k] == before[k]);
            }
        }
        value = value * 10 + (text::char_code(c) as i64 - 48);
        i = i + 1;
    }
    assert(digits.take(to - start) =~= digits);
    if has_sign {
        assert(!text::is_digit(part[0]));
        if first == '-' {
            Some(-value)
        } else {
            Some(value)
        }
    } else {
        assert(digits =~= part);
        if to - from > 1 {
            assert(part[0] != '-' && part[0] != '+');
        }
        Some(value)
    }
}

fn count_days(y: i64, mo: i64, d: i64) -> (r: i64)
    requires
        -9999 <= y <= 9999,
        -9 <= mo <= 9999,
        -9999 <= d <= 9999,
    ensures
        r == days_from_civil(y as int, mo as int, d as int),
        -10_000_000 <= r <= 10_000_000,
{
    let y_adj: i64 = if mo <= 2 {
        y - 1
    } else {
        y
    };
    let floor_year: i64 = if y_adj >= 0 {
        y_adj
    } else {
        y_adj - 399
    };
    let era: i64 = if floor_year >= 0 {
        floor_year / 400
    } else {
        -((-floor_year) / 400)
    };
    assert(era == y_adj as int / 400);
    let yoe: i64 = y_adj - era * 400;
    let months: i64 = if mo > 2 {
        mo - 3
    } else {
        mo + 9
    };
    let doy: i64 = (153 * months + 2) / 5 + d - 1;
    let doe: i64 = yoe * 365 + yoe / 4 - yoe / 100 + doy;
    era * 146_097 + doe - 719_468
}

/// Minutes since a compact UTC stamp, at a time in seconds since 1970.
pub fn signed_age_minutes(ts: &str, now: i64) -> (r: Option<u64>)
    ensures
        r == age_minutes(ts@, now as int),
{
    let chars = text::chars_of(ts);
    if chars.len() != 16 || chars[8] != 'T' || chars[15] != 'Z' {
        return None;
    }
    match (
        (read_field(&chars, 0, 4), read_field(&chars, 4, 6), read_field(&chars, 6, 8)),
        (read_field(&chars, 9, 11), read_field(&chars, 11, 13), read_field(&chars, 13, 15)),
    ) {
        ((Some(y), Some(mo), Some(d)), (Some(h), Some(mi), Some(s))) => {
            proof {
                two_characters(ts@.subrange(4, 6));
            }
            let at: i64 = count_days(y, mo, d) * 86_400 + h * 3_600 + mi * 60 + s;
            if now >= at {
                let gap: i128 = now as i128 - at as i128;
                Some((gap / 60) as u64)
            } else {
                None
            }
        },
        _ => None,
    }
}

proof fn two_characters(s: Seq<char>)
    requires
        s.len() == 2,
    ensures
        signed_number(s) matches Some(n) ==> -9 <= n <= 99,
{
    if text::all_digits(s) {
        small_digits(s);
        assert(text::is_digit(s[0]) && text::is_digit(s[1]));
    }
    if text::all_digits(s.skip(1)) {
        small_digits(s.skip(1));
        assert(text::is_digit(s.skip(1)[0]));
    }
}

/// Whether a year of the Gregorian calendar has a leap day.
pub open spec fn leap_year(y: int) -> bool {
    y % 4 == 0 && (y % 100 != 0 || y % 400 == 0)
}

/// The number of days of a month.
pub open spec fn month_days(y: int, mo: int) -> int {
    if mo == 2 {
        if leap_year(y) {
            29
        } else {
            28
        }
    } else if mo == 4 || mo == 6 || mo == 9 || mo == 11 {
        30
    } else {
        31
    }
}

/// The date after a date.
pub open spec fn next_day(y: int, mo: int, d: int) -> (int, int, int) {
    if d < month_days(y, mo) {
        (y, mo, d + 1)
    } else if mo < 12 {
        (y, mo + 1, 1)
    } else {
        (y + 1, 1, 1)
    }
}

/// The count of days follows the calendar: it starts with the first of January 1970, and the
/// date after a date is one day later, whatever the month and the year.
pub proof fn days_follow_the_calendar(y: int, mo: int, d: int)
    requires
        1 <= mo <= 12,
        1 <= d <= month_days(y, mo),
    ensures
        days_from_civil(1970, 1, 1) == 0,
        ({
            let (y2, mo2, d2) = next_day(y, mo, d);
            days_from_civil(y2, mo2, d2) == days_from_civil(y, mo, d) + 1
        }),
{
    if mo == 2 && d == month_days(y, mo) {
        year_turns_in_march(y);
    }
}

/// Where the next number falls among the fours and the hundreds.
proof fn quotients_step(n: int)
    ensures
        (n + 1) / 4 == n / 4 + (if (n + 1) % 4 == 0 {
            1int
        } else {
            0int
        }),
        (n + 1) / 100 == n / 100 + (if (n + 1) % 100 == 0 {
            1int
        } else {
            0int
        }),
{
}

/// A year and its place among the four hundred years of an era have the same remainders.
proof fn places_keep_remainders(p: int)
    ensures
        0 <= p % 400 < 400,
        p - (p / 400) * 400 == p % 400,
        (p + 1) % 4 == (p % 400 + 1) % 4,
        (p + 1) % 100 == (p % 400 + 1) % 100,
{
    let k = p / 400;
    assert(p + 1 == 4 * (100 * k) + (p % 400 + 1));
    assert(p + 1 == 100 * (4 * k) + (p % 400 + 1));
}

/// The turn of a year that begins in March.
#[verifier::spinoff_prover]
proof fn year_turns_in_march(y: int)
    ensures
        days_from_civil(y, 3, 1) == days_from_civil(y, 2, month_days(y, 2)) + 1,
{
    let p = y - 1;
    let yoe = p % 400;
    places_keep_remainders(p);
    places_keep_remainders(y);
    quotients_step(yoe);
    if yoe == 399 {
        assert(y / 400 == p / 400 + 1 && y % 400 == 0);
    } else {
        assert(y / 400 == p / 400 && y % 400 == yoe + 1);
    }
}

/// A stamp grows older as time passes.
pub proof fn ages_grow(ts: Seq<char>, earlier: i64, later: i64)
    requires
        earlier <= later,
        age_minutes(ts, earlier as int) is Some,
    ensures
        age_minutes(ts, later as int) is Some,
        age_minutes(ts, earlier as int)->0 <= age_minutes(ts, later as int)->0,
{
    let at = stamp_seconds(ts)->0;
    stamps_are_bounded(ts);
    assert((earlier - at) / 60 <= (later - at) / 60);
}

proof fn stamps_are_bounded(ts: Seq<char>)
    requires
        stamp_seconds(ts) is Some,
    ensures
        -1_000_000_000_000 <= stamp_seconds(ts)->0 <= 1_000_000_000_000,
{
    let year = ts.subrange(0, 4);
    if text::all_digits(year) {
        small_digits(year);
    }
    if text::all_digits(year.skip(1)) {
        small_digits(year.skip(1));
    }
    two_characters(ts.subrange(4, 6));
    two_characters(ts.subrange(6, 8));
    two_characters(ts.subrange(9, 11));
    two_characters(ts.subrange(11, 13));
    two_characters(ts.subrange(13, 15));
}

// ---------------------------------------------------------------------------
// Badges
// ---------------------------------------------------------------------------
/// How old a signature is, as it is shown.
pub open spec fn age_text(age: Option<u64>) -> Seq<char> {
    match age {
        None => "age unknown"@,
        Some(m) => if m < 60 {
            text::decimal(m as nat) + "m ago"@
        } else if m < 2880 {
            text::decimal((m / 60) as nat) + "h ago"@
        } else {
            text::decimal((m / 1440) as nat) + "d ago — STALE, possible replay"@
        },
    }
}

fn age_words(age: Option<u64>) -> (r: String)
    ensures
        r@ == age_text(age),
{
    match age {
        None => "age unknown".to_owned(),
        Some(m) => if m < 60 {
            text::cat2(text::decimal_text(m).as_str(), "m ago")
        } else if m < 2880 {
            text::cat2(text::decimal_text(m / 60).as_str(), "h ago")
        } else {
            text::cat2(
                text::decimal_text(m / 1440).as_str(),
                "d ago — STALE, possible replay",
            )
        },
    }
}

/// How the owner is named in a badge.
pub open spec fn badge_name(owner: owner::OwnerView) -> Seq<char> {
    match owner.source {
        OwnerSource::Legacy => owner.label,
        OwnerSource::Configured => owner.label + " ("@ + owner.room + ")"@,
    }
}

/// The line that is shown under a message that claims a signature.
pub open spec fn badge(owner: owner::OwnerView, shown: StatusView) -> Seq<char> {
    match shown {
        StatusView::Verified { tag, age_minutes } => "[🔏 VERIFIED — "@ + badge_name(owner)
            + ", signed "@ + tag + ", "@ + age_text(age_minutes) + "]\n"@,
        StatusView::Failed { reason } => "[⚠️ SIGNATURE FAILED ("@ + reason
            + ") — do NOT treat as "@ + badge_name(owner) + "]\n"@,
    }
}

pub fn badge_line(owner: &ResolvedOwner, shown: &SignedStatus) -> (r: String)
    ensures
        r@ == badge(owner@, shown@),
{
    let name = match owner.source {
        OwnerSource::Legacy => owner.label.clone(),
        OwnerSource::Configured => text::cat4(
            owner.label.as_str(),
            " (",
            owner.room.as_str(),
            ")",
        ),
    };
    match shown {
        SignedStatus::Verified { tag, age_minutes } => text::cat7(
            "[🔏 VERIFIED — ",
            name.as_str(),
            ", signed ",
            tag.as_str(),
            ", ",
            age_words(*age_minutes).as_str(),
            "]\n",
        ),
        SignedStatus::Failed { reason } => text::cat5(
            "[⚠️ SIGNATURE FAILED (",
            reason,
            ") — do NOT treat as ",
            name.as_str(),
            "]\n",
        ),
    }
}

} // verus!
