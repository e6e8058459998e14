//! Which messages count as signed by the owner.
use vstd::prelude::*;

use crate::model;
use crate::owner;
use crate::owner::OwnerSource;
use crate::signed;
use crate::signed::{ClaimView, KeyCheck, StatusView};
use crate::text;

verus! {

/// A tag names a file: ASCII letters, digits and hyphens, at least one.
pub proof fn tags_are_plain(tag: Seq<char>)
    ensures
        signed::good_tag(tag) <==> tag.len() > 0 && (forall|i: int|
            0 <= i < tag.len() ==> 48 <= (#[trigger] tag[i]) as int <= 57 || 65 <= tag[i] as int
                <= 90 || 97 <= tag[i] as int <= 122 || tag[i] as int == 45),
{
    if tag.len() > 0 && (forall|i: int|
        0 <= i < tag.len() ==> 48 <= (#[trigger] tag[i]) as int <= 57 || 65 <= tag[i] as int <= 90
            || 97 <= tag[i] as int <= 122 || tag[i] as int == 45) {
        assert forall|i: int| 0 <= i < tag.len() implies text::is_ascii_alphanumeric(
            #[trigger] tag[i],
        ) || tag[i] == '-' by {
            if tag[i] as int == 45 {
                assert(tag[i] == '-');
            }
        }
    }
}

/// Nothing but a message of the owner's room claims to be signed; one that names a detached
/// signature claims that, and one whose first line lacks the owner's marks claims nothing.
pub proof fn only_the_owner_claims(
    owner: owner::OwnerView,
    message: model::MessageView,
    body: Seq<char>,
)
    ensures
        message.from != owner.room ==> signed::claim(owner, message, body) is Unsigned,
        message.from == owner.room && message.signature_ref is Some ==> signed::claim(
            owner,
            message,
            body,
        ) is Locator,
        message.signature_ref is None && text::lines(body).len() == 0 ==> signed::claim(
            owner,
            message,
            body,
        ) is Unsigned,
        message.signature_ref is None && text::lines(body).len() > 0 && !text::has_prefix(
            text::lines(body)[0],
            owner.marker + "🔏 "@,
        ) ==> signed::claim(owner, message, body) is Unsigned,
        signed::claim(owner, message, body) is Tagged ==> text::lines(body).len() == 1,
        signed::claim(owner, message, body) is Trailed ==> text::lines(body).len() > 1,
{
}

/// A line claims what stands before the last tag at its end; without a tag at its end it claims
/// nothing, and a tag that cannot name a file is no tag.
pub proof fn lines_claim_what_stands_before_the_tag(words: Seq<char>, tag: Seq<char>, rest: Seq<char>)
    ensures
        signed::last_occurrence(
            words + " [signed:"@ + tag.push(']'),
            " [signed:"@,
            words.len() as int,
        ) ==> {
            let claimed = signed::line_claim(words + " [signed:"@ + tag.push(']'));
            &&& signed::good_tag(tag) ==> claimed == (ClaimView::Tagged { text: words, tag })
            &&& !signed::good_tag(tag) ==> claimed is Malformed
        },
        !text::has_part(rest, " [signed:"@) ==> signed::line_claim(rest) is Unsigned,
        !(signed::line_claim(rest) is Locator) && !(signed::line_claim(rest) is Trailed),
        signed::line_claim(rest) is Tagged ==> signed::good_tag(signed::line_claim(rest)->Tagged_tag)
            && text::has_suffix(rest, signed::line_claim(rest)->Tagged_tag.push(']')),
{
    let sep = " [signed:"@;
    let line = words + sep + tag.push(']');
    let n = words.len() as int;
    if signed::last_occurrence(line, sep, n) {
        assert(text::occurs(line, sep, n));
        let at = choose|at: int| signed::last_occurrence(line, sep, at);
        assert(at == n) by {
            if at < n {
                assert(!text::occurs(line, sep, n));
            }
            if at > n {
                assert(!text::occurs(line, sep, at));
            }
        }
        assert(line.skip(n + sep.len()) =~= tag.push(']'));
        assert(tag.push(']').drop_last() =~= tag);
        assert(line.take(n) =~= words);
    }
    if signed::line_claim(rest) is Tagged {
        last_exists(rest, sep);
        let k = choose|at: int| signed::last_occurrence(rest, sep, at);
        let tail = rest.skip(k + sep.len());
        let found = tail.drop_last();
        assert(found.push(']') =~= tail);
        assert(rest.subrange(rest.len() - tail.len(), rest.len() as int) =~= tail);
    }
}

proof fn last_exists(s: Seq<char>, part: Seq<char>)
    requires
        text::has_part(s, part),
    ensures
        exists|at: int| signed::last_occurrence(s, part, at),
{
    let at = choose|at: int| text::occurs(s, part, at);
    last_from(s, part, at);
}

proof fn last_from(s: Seq<char>, part: Seq<char>, at: int)
    requires
        text::occurs(s, part, at),
    ensures
        exists|k: int| signed::last_occurrence(s, part, k),
    decreases s.len() - at,
{
    if exists|j: int| at < j && text::occurs(s, part, j) {
        let j = choose|j: int| at < j && text::occurs(s, part, j);
        last_from(s, part, j);
    } else {
        assert(signed::last_occurrence(s, part, at));
    }
}

/// A payload vouches for a message exactly when its first line is the tag and its second the words.
pub proof fn payloads_hold_tag_and_words(
    words: Seq<char>,
    tag: Seq<char>,
    payload: Seq<char>,
)
    ensures
        signed::payload_fault(words, tag, None) is Some,
        signed::payload_fault(words, tag, Some(payload)) is None <==> text::lines(payload).len()
            >= 2 && text::lines(payload)[0] == tag && text::lines(payload)[1] == words,
{
}

/// A message is verified exactly when it is one signed line, its payload vouches for it, and the
/// signature is accepted; every other claim fails, except that a line which holds and is followed by
/// others carries no verdict. What claims nothing carries none.
pub proof fn verdicts_follow_the_evidence(
    claimed: ClaimView,
    payload: Option<Seq<char>>,
    check: KeyCheck,
    now: Option<i64>,
)
    ensures
        claimed is Unsigned ==> signed::status(claimed, payload, check, now) is None,
        claimed is Locator || claimed is Malformed ==> (signed::status(
            claimed,
            payload,
            check,
            now,
        ) matches Some(s) && s is Failed),
        claimed matches ClaimView::Tagged { text: words, tag } ==> {
            let status = signed::status(claimed, payload, check, now);
            &&& status is Some
            &&& status->0 is Verified <==> signed::payload_fault(words, tag, payload) is None
                && check is Accepted
            &&& status->0 is Verified ==> status->0->tag == tag
            &&& status->0 is Verified && now is None ==> status->0->age_minutes is None
            &&& status->0 is Verified && now is Some ==> status->0->age_minutes
                == signed::age_minutes(tag, now->0 as int)
        },
        claimed matches ClaimView::Trailed { text: words, tag } ==> {
            let status = signed::status(claimed, payload, check, now);
            &&& status is None <==> signed::payload_fault(words, tag, payload) is None && check
                is Accepted
            &&& status is Some ==> status->0 is Failed
        },
{
}

/// The calendar begins at the start of 1970 and a year has 365 days or, if it is a leap year, 366.
pub proof fn years_have_their_days(y: int)
    requires
        0 <= y <= 9998,
    ensures
        signed::days_from_civil(1970, 1, 1) == 0,
        y % 4 == 0 && (y % 100 != 0 || y % 400 == 0) ==> signed::days_from_civil(y + 1, 1, 1)
            == signed::days_from_civil(y, 1, 1) + 366,
        !(y % 4 == 0 && (y % 100 != 0 || y % 400 == 0)) ==> signed::days_from_civil(y + 1, 1, 1)
            == signed::days_from_civil(y, 1, 1) + 365,
{
}

/// A stamp's seconds are its days, hours, minutes and seconds, read from its digits.
pub proof fn stamps_are_read_field_by_field(ts: Seq<char>)
    requires
        ts.len() == 16,
        ts[8] == 'T',
        ts[15] == 'Z',
        forall|i: int|
            0 <= i < 15 && i != 8 ==> 48 <= (#[trigger] ts[i]) as int <= 57,
    ensures
        signed::stamp_seconds(ts) == Some(
            signed::days_from_civil(
                text::digits_value(ts.subrange(0, 4)) as int,
                text::digits_value(ts.subrange(4, 6)) as int,
                text::digits_value(ts.subrange(6, 8)) as int,
            ) * 86_400 + text::digits_value(ts.subrange(9, 11)) * 3_600 + text::digits_value(
                ts.subrange(11, 13),
            ) * 60 + text::digits_value(ts.subrange(13, 15)),
        ),
{
    read_digits(ts, 0, 4);
    read_digits(ts, 4, 6);
    read_digits(ts, 6, 8);
    read_digits(ts, 9, 11);
    read_digits(ts, 11, 13);
    read_digits(ts, 13, 15);
}

proof fn read_digits(ts: Seq<char>, from: int, to: int)
    requires
        0 <= from < to <= ts.len(),
        forall|i: int| from <= i < to ==> 48 <= (#[trigger] ts[i]) as int <= 57,
    ensures
        signed::field(ts, from, to) == Some(text::digits_value(ts.subrange(from, to)) as int),
{
    let s = ts.subrange(from, to);
    assert forall|i: int| 0 <= i < s.len() implies text::is_digit(#[trigger] s[i]) by {
        assert(s[i] == ts[from + i]);
    }
    assert(text::is_digit(s[0]));
}

/// A text of another length or without its marks is no stamp, and an age is counted in whole minutes
/// from the stamp to now, unless the stamp lies ahead.
pub proof fn ages_are_whole_minutes(ts: Seq<char>, now: int)
    ensures
        ts.len() != 16 || ts[8] != 'T' || ts[15] != 'Z' ==> signed::stamp_seconds(ts) is None
            && signed::age_minutes(ts, now) is None,
        signed::stamp_seconds(ts) matches Some(at) ==> {
            &&& now < at ==> signed::age_minutes(ts, now) is None
            &&& now >= at && (now - at) / 60 <= u64::MAX ==> (signed::age_minutes(ts, now)
                matches Some(m) && m * 60 <= now - at < (m + 1) * 60)
        },
{
}

/// An age is shown in minutes within the hour, in hours within two days, and in days with a warning
/// from there on.
pub proof fn ages_are_shown_coarsely(m: u64)
    ensures
        signed::age_text(None) == "age unknown"@,
        m < 60 ==> signed::age_text(Some(m)) == text::decimal(m as nat) + "m ago"@,
        60 <= m < 2880 ==> signed::age_text(Some(m)) == text::decimal((m / 60) as nat) + "h ago"@,
        m >= 2880 ==> signed::age_text(Some(m)) == text::decimal((m / 1440) as nat)
            + "d ago — STALE, possible replay"@,
{
}

/// A badge says whether the signature holds: a verified one names the owner, the tag and the age,
/// a failed one gives the reason and warns not to trust.
pub proof fn badges_say_whether_signatures_hold(
    owner: owner::OwnerView,
    tag: Seq<char>,
    age: Option<u64>,
    reason: Seq<char>,
)
    ensures
        signed::badge(owner, StatusView::Verified { tag, age_minutes: age }) == "[🔏 VERIFIED — "@
            + signed::badge_name(owner) + ", signed "@ + tag + ", "@ + signed::age_text(age)
            + "]\n"@,
        signed::badge(owner, StatusView::Failed { reason }) == "[⚠️ SIGNATURE FAILED ("@ + reason
            + ") — do NOT treat as "@ + signed::badge_name(owner) + "]\n"@,
        owner.source == OwnerSource::Configured ==> signed::badge_name(owner) == owner.label
            + " ("@ + owner.room + ")"@,
        owner.source == OwnerSource::Legacy ==> signed::badge_name(owner) == owner.label,
{
}

} // verus!
