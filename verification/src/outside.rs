//! The calls whose results come from tables and grammars outside this crate: Unicode
//! properties, escaped forms, regular expressions and JSON.
use crate::text;
use unicode_segmentation::UnicodeSegmentation;
use vstd::prelude::*;

verus! {

/// What `{:?}` prints for a string.
pub uninterp spec fn debug_form(s: Seq<char>) -> Seq<char>;

/// The `Debug` form of a string: `format!` with `{:?}`. The result is named by
/// [`debug_form`]. It holds no line feed: one in the string is written as an escape.
#[verifier::external_body]
pub(crate) fn debug_quoted(s: &str) -> (r: String)
    ensures
        r@ == debug_form(s@),
        text::unbroken(r@),
{
    format!("{:?}", s)
}

/// What `str::escape_debug` yields for a string.
pub uninterp spec fn escape_debug_form(s: Seq<char>) -> Seq<char>;

/// `str::escape_debug`, collected. The result is named by [`escape_debug_form`]; nothing more
/// is claimed of it.
#[verifier::external_body]
pub(crate) fn escape_debug(s: &str) -> (r: String)
    ensures
        r@ == escape_debug_form(s@),
{
    s.escape_debug().to_string()
}

/// Whether a character is alphabetic or numeric in Unicode.
pub uninterp spec fn unicode_alphanumeric(c: char) -> bool;

/// `char::is_alphanumeric`. The result is named by [`unicode_alphanumeric`]; nothing more is
/// claimed of it.
#[verifier::external_body]
pub(crate) fn is_alphanumeric(c: char) -> (r: bool)
    ensures
        r == unicode_alphanumeric(c),
{
    c.is_alphanumeric()
}

/// The Unicode lower case of a character.
pub uninterp spec fn unicode_lowercase(c: char) -> Seq<char>;

/// `char::to_lowercase`, collected. The result is named by [`unicode_lowercase`]; nothing
/// more is claimed of it.
#[verifier::external_body]
pub(crate) fn to_lowercase(c: char) -> (r: String)
    ensures
        r@ == unicode_lowercase(c),
{
    c.to_lowercase().collect()
}

/// The Unicode upper case of a character.
pub uninterp spec fn unicode_uppercase(c: char) -> Seq<char>;

/// `char::to_uppercase`, collected. The result is named by [`unicode_uppercase`]; nothing
/// more is claimed of it.
#[verifier::external_body]
pub(crate) fn to_uppercase(c: char) -> (r: String)
    ensures
        r@ == unicode_uppercase(c),
{
    c.to_uppercase().collect()
}

/// The number of extended grapheme clusters of a text.
pub uninterp spec fn grapheme_clusters(s: Seq<char>) -> nat;

/// `UnicodeSegmentation::graphemes` with extended clusters, counted. The result is named by
/// [`grapheme_clusters`]. Every cluster holds at least one character, and the clusters
/// together hold the text: an empty text, and no other, has none.
#[verifier::external_body]
pub(crate) fn count_graphemes(s: &str) -> (r: usize)
    ensures
        r == grapheme_clusters(s@),
        r == 0 <==> s@.len() == 0,
        r <= s@.len(),
{
    s.graphemes(true).count()
}

// ---------------------------------------------------------------------------
// Regular expressions
// ---------------------------------------------------------------------------
#[verifier::external_type_specification]
#[verifier::external_body]
pub struct ExRegex(regex::Regex);

/// A compiled search pattern, with the text that it was compiled from.
pub struct GrepPattern {
    source: String,
    regex: regex::Regex,
}

impl GrepPattern {
    /// The text of the pattern.
    pub closed spec fn source(self) -> Seq<char> {
        self.source@
    }
}

/// Whether compiling a pattern, without regard to case, can fail with a problem of this text.
pub uninterp spec fn regex_refuses(pattern: Seq<char>, problem: Seq<char>) -> bool;

/// Whether a pattern, taken without regard to case, matches somewhere in a text.
pub uninterp spec fn regex_finds(pattern: Seq<char>, haystack: Seq<char>) -> bool;

/// `RegexBuilder::build` with `case_insensitive`: a pattern compiled without regard to case.
/// A failure is given as the text of the `regex::Error`, and is one that this pattern can
/// give ([`regex_refuses`]). Which patterns compile is left unsaid: besides the syntax it
/// rests on a limit on the size of the compiled program, which is not the same on every
/// machine.
#[verifier::external_body]
pub(crate) fn compile_pattern(pattern: &str) -> (r: Result<GrepPattern, String>)
    ensures
        match r {
            Ok(p) => p.source() == pattern@,
            Err(problem) => regex_refuses(pattern@, problem@),
        },
{
    match regex::RegexBuilder::new(pattern).case_insensitive(true).build() {
        Ok(regex) => Ok(GrepPattern { source: pattern.to_owned(), regex }),
        Err(error) => Err(error.to_string()),
    }
}

/// `Regex::is_match`: whether the pattern matches anywhere in the text. The result is named
/// by [`regex_finds`] over the pattern's text. A [`GrepPattern`] is made by
/// [`compile_pattern`] only, so that the compiled form belongs to the text.
#[verifier::external_body]
pub(crate) fn pattern_matches(pattern: &GrepPattern, haystack: &str) -> (r: bool)
    ensures
        r == regex_finds(pattern.source(), haystack@),
{
    pattern.regex.is_match(haystack)
}

// ---------------------------------------------------------------------------
// JSON
// ---------------------------------------------------------------------------
/// The members of a JSON object, each with its text if it is a string; nothing for other JSON
/// and for text that is not JSON.
pub uninterp spec fn json_object_strings(line: Seq<char>) -> Option<
    Seq<(Seq<char>, Option<Seq<char>>)>,
>;

/// The members of a list, as values.
pub open spec fn members_view(members: Seq<(String, Option<String>)>) -> Seq<
    (Seq<char>, Option<Seq<char>>),
> {
    members.map_values(|m: (String, Option<String>)| (m.0@, text::opt(m.1)))
}

/// `serde_json::from_str` into a value, reduced to the members of an object and the texts of
/// those that are strings. The result is named by [`json_object_strings`]; nothing more is
/// claimed of it.
#[verifier::external_body]
pub(crate) fn json_members(line: &str) -> (r: Option<Vec<(String, Option<String>)>>)
    ensures
        match r {
            Some(members) => json_object_strings(line@) == Some(members_view(members@)),
            None => json_object_strings(line@) is None,
        },
{
    match serde_json::from_str(line) {
        Ok(serde_json::Value::Object(fields)) => Some(
            fields.into_iter().map(|(name, value)| (name, value.as_str().map(str::to_owned))).collect(),
        ),
        _ => None,
    }
}

} // verus!
