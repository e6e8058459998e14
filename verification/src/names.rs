//! Names: which ones rooms and channels may have, how they are quoted, and which one a typing
//! mistake most likely meant.
use crate::paths;
use crate::text;
use crate::textmap::RoomMap;
use vstd::prelude::*;

verus! {

/// The reason that a check gives, if it refuses.
pub open spec fn fault(r: Result<(), String>) -> Option<Seq<char>> {
    match r {
        Ok(_) => None,
        Err(reason) => Some(reason@),
    }
}

/// The characters that no profile text may hold: controls, direction controls, and line and
/// paragraph separators.
pub open spec fn is_refused(c: char) -> bool {
    let n = c as int;
    ||| text::is_control(c)
    ||| 0x202a <= n <= 0x202e
    ||| 0x2066 <= n <= 0x2069
    ||| n == 0x200e
    ||| n == 0x200f
    ||| n == 0x061c
    ||| n == 0x2028
    ||| n == 0x2029
}

pub fn refused_profile_char(c: char) -> (r: bool)
    ensures
        r == is_refused(c),
{
    let n: u32 = c as u32;
    text::char_is_control(c) || (0x202a <= n && n <= 0x202e) || (0x2066 <= n && n <= 0x2069) || n
        == 0x200e || n == 0x200f || n == 0x061c || n == 0x2028 || n == 0x2029
}

/// Whether a text holds a character that profile text may not hold.
pub open spec fn has_refused(s: Seq<char>) -> bool {
    exists|i: int| 0 <= i < s.len() && is_refused(#[trigger] s[i])
}

pub fn contains_refused(s: &str) -> (r: bool)
    ensures
        r == has_refused(s@),
{
    let chars = text::chars_of(s);
    for i in 0..chars.len()
        invariant
            chars@ == s@,
            forall|j: int| 0 <= j < i ==> !is_refused(#[trigger] s@[j]),
    {
        if refused_profile_char(chars[i]) {
            assert(is_refused(s@[i as int]));
            return true;
        }
    }
    false
}

/// Whether a path is one name and nothing more.
pub open spec fn one_name(value: Seq<char>) -> bool {
    paths::components(value).len() == 1 && paths::components(value)[0] is Normal
}

/// Why a text is no single, path-safe name.
pub open spec fn component_fault(value: Seq<char>) -> Option<Seq<char>> {
    if value.len() == 0 {
        Some("name is empty"@)
    } else if text::has_control(value) {
        Some("name must not contain control characters"@)
    } else if !one_name(value) {
        Some("name must be one path-safe component"@)
    } else if value == "."@ || value == ".."@ || value.contains('/') || value.contains('\\') {
        Some("name must not be '.', '..', or contain '/' or '\\'"@)
    } else {
        None
    }
}

pub fn validate_component(value: &str) -> (r: Result<(), String>)
    ensures
        fault(r) == component_fault(value@),
{
    if value.is_empty() {
        return Err("name is empty".to_owned());
    }
    if text::contains_control(value) {
        return Err("name must not contain control characters".to_owned());
    }
    let parts = paths::path_parts(value);
    assert(parts@.len() == paths::components(value@).len());
    if parts.len() != 1 {
        return Err("name must be one path-safe component".to_owned());
    }
    assert(paths::components(value@)[0] == parts@[0]@);
    match &parts[0] {
        paths::PathPart::Normal(_) => {},
        _ => {
            return Err("name must be one path-safe component".to_owned());
        },
    }
    if text::same(value, ".") || text::same(value, "..") || text::contains_char(value, '/')
        || text::contains_char(value, '\\') {
        return Err("name must not be '.', '..', or contain '/' or '\\'".to_owned());
    }
    Ok(())
}

/// The names that the store keeps for itself, in lower case.
pub open spec fn is_reserved(folded: Seq<char>) -> bool {
    ||| folded == "*"@
    ||| folded == "archive"@
    ||| folded == "rooms.json"@
    ||| folded == "rules.json"@
    ||| folded == "profiles.json"@
    ||| folded == "owner.json"@
    ||| folded == ".rooms.lock"@
    ||| (text::has_prefix(folded, ".rooms.json."@) && text::has_suffix(folded, ".tmp"@))
}

/// Why a text cannot name a room.
pub open spec fn room_name_fault(value: Seq<char>) -> Option<Seq<char>> {
    if component_fault(value) is Some {
        component_fault(value)
    } else if is_reserved(text::ascii_folded(value)) {
        Some("name '"@ + value + "' is reserved by mailbox storage or wildcard semantics"@)
    } else {
        None
    }
}

pub fn validate_room_name(value: &str) -> (r: Result<(), String>)
    ensures
        fault(r) == room_name_fault(value@),
{
    let checked = validate_component(value);
    if checked.is_err() {
        return checked;
    }
    let folded_text = text::ascii_fold(value);
    let folded = folded_text.as_str();
    if text::same(folded, "*") || text::same(folded, "archive") || text::same(folded, "rooms.json")
        || text::same(folded, "rules.json") || text::same(folded, "profiles.json") || text::same(
        folded,
        "owner.json",
    ) || text::same(folded, ".rooms.lock") || (text::starts_with(folded, ".rooms.json.")
        && text::ends_with(folded, ".tmp")) {
        return Err(
            text::cat3(
                "name '",
                value,
                "' is reserved by mailbox storage or wildcard semantics",
            ),
        );
    }
    Ok(())
}

/// A valid name never leaves the directory that it is joined to: the joined path is the
/// directory, one slash and the name.
pub proof fn valid_names_stay_in_their_directory(base: Seq<char>, name: Seq<char>)
    requires
        component_fault(name) is None,
        base.len() > 0,
        base.last() != '/',
    ensures
        paths::join(base, name) == base + "/"@ + name,
        !name.contains('/'),
        name != ".."@,
        name != "."@,
{
    if paths::absolute(name) {
        assert(name[0] == '/');
    }
}

// ---------------------------------------------------------------------------
// Shell quoting
// ---------------------------------------------------------------------------
/// A text with every single quote written so that a quoted stretch survives it.
pub open spec fn quote_escaped(value: Seq<char>) -> Seq<char>
    decreases value.len(),
{
    if value.len() == 0 {
        seq![]
    } else if value[0] == '\'' {
        "'\\''"@ + quote_escaped(value.skip(1))
    } else {
        seq![value[0]] + quote_escaped(value.skip(1))
    }
}

/// A text as one word of a POSIX shell.
pub open spec fn quoted(value: Seq<char>) -> Seq<char> {
    "'"@ + quote_escaped(value) + "'"@
}

pub fn shell_quote(value: &str) -> (r: String)
    ensures
        r@ == quoted(value@),
{
    let chars = text::chars_of(value);
    let mut out = "'".to_owned();
    assert(value@.skip(0) =~= value@);
    for i in 0..chars.len()
        invariant
            chars@ == value@,
            out@ + quote_escaped(value@.skip(i as int)) == "'"@ + quote_escaped(value@),
    {
        let ghost rest = value@.skip(i as int);
        let ghost before = out@;
        assert(rest.skip(1) =~= value@.skip(i + 1));
        if chars[i] == '\'' {
            out.append("'\\''");
            assert(before + ("'\\''"@ + quote_escaped(rest.skip(1))) =~= before + "'\\''"@
                + quote_escaped(rest.skip(1)));
        } else {
            out.push(chars[i]);
            assert(before + (seq![rest[0]] + quote_escaped(rest.skip(1))) =~= before.push(rest[0])
                + quote_escaped(rest.skip(1)));
        }
    }
    assert(out@ + quote_escaped(value@.skip(value@.len() as int)) =~= out@);
    out.append("'");
    out
}

/// What a POSIX shell reads from a word that is made of single-quoted stretches and
/// backslash-escaped characters.
pub open spec fn shell_reads(word: Seq<char>, inside_quotes: bool) -> Option<Seq<char>>
    decreases word.len(),
{
    if word.len() == 0 {
        if inside_quotes {
            None
        } else {
            Some(seq![])
        }
    } else if word[0] == '\'' {
        shell_reads(word.skip(1), !inside_quotes)
    } else if inside_quotes {
        match shell_reads(word.skip(1), true) {
            Some(rest) => Some(seq![word[0]] + rest),
            None => None,
        }
    } else if word[0] == '\\' && word.len() > 1 {
        match shell_reads(word.skip(2), false) {
            Some(rest) => Some(seq![word[1]] + rest),
            None => None,
        }
    } else {
        None
    }
}

proof fn shell_reads_escaped(value: Seq<char>)
    ensures
        shell_reads(quote_escaped(value) + "'"@, true) == Some(value),
    decreases value.len(),
{
    reveal_strlit("'");
    reveal_strlit("'\\''");
    let word = quote_escaped(value) + "'"@;
    if value.len() == 0 {
        assert(word =~= seq!['\'']);
        assert(word.skip(1) =~= seq![]);
        assert(shell_reads(word.skip(1), false) == Some(Seq::<char>::empty()));
        assert(value =~= seq![]);
    } else {
        let tail = quote_escaped(value.skip(1)) + "'"@;
        shell_reads_escaped(value.skip(1));
        assert(value =~= seq![value[0]] + value.skip(1));
        if value[0] == '\'' {
            assert(word =~= seq!['\'', '\\', '\'', '\''] + tail);
            let one = word.skip(1);
            assert(one =~= seq!['\\', '\'', '\''] + tail);
            let three = one.skip(2);
            assert(three =~= seq!['\''] + tail);
            assert(three.skip(1) =~= tail);
            assert(shell_reads(three, false) == Some(value.skip(1)));
            assert(shell_reads(one, false) == Some(seq!['\''] + value.skip(1)));
            assert(shell_reads(word, true) == shell_reads(one, false));
        } else {
            assert(word =~= seq![value[0]] + tail);
            assert(word.skip(1) =~= tail);
        }
    }
}

/// A shell reads a quoted text back as the text: suggested commands stay executable whatever
/// the names in them hold.
pub proof fn quoting_is_read_back(value: Seq<char>)
    ensures
        shell_reads(quoted(value), false) == Some(value),
{
    reveal_strlit("'");
    shell_reads_escaped(value);
    let word = quoted(value);
    assert(word =~= seq!['\''] + (quote_escaped(value) + "'"@));
    assert(word.skip(1) =~= quote_escaped(value) + "'"@);
}

// ---------------------------------------------------------------------------
// Likely meanings
// ---------------------------------------------------------------------------
pub open spec fn least(a: int, b: int) -> int {
    if a <= b {
        a
    } else {
        b
    }
}

/// The Levenshtein distance: how many insertions, deletions and replacements of single
/// characters lead from one text to the other.
pub open spec fn distance(a: Seq<char>, b: Seq<char>) -> int
    decreases a.len() + b.len(),
{
    if a.len() == 0 {
        b.len() as int
    } else if b.len() == 0 {
        a.len() as int
    } else {
        let replaced: int = if a.last() == b.last() {
            0
        } else {
            1
        };
        least(
            least(distance(a.drop_last(), b) + 1, distance(a, b.drop_last()) + 1),
            distance(a.drop_last(), b.drop_last()) + replaced,
        )
    }
}

proof fn distance_bounds(a: Seq<char>, b: Seq<char>)
    ensures
        0 <= distance(a, b) <= a.len() + b.len(),
        distance(a, b) <= a.len() || distance(a, b) <= b.len(),
    decreases a.len() + b.len(),
{
    if a.len() > 0 && b.len() > 0 {
        distance_bounds(a.drop_last(), b);
        distance_bounds(a, b.drop_last());
        distance_bounds(a.drop_last(), b.drop_last());
    }
}

/// The distance does not depend on the direction.
pub proof fn distance_is_symmetric(a: Seq<char>, b: Seq<char>)
    ensures
        distance(a, b) == distance(b, a),
    decreases a.len() + b.len(),
{
    if a.len() > 0 && b.len() > 0 {
        distance_is_symmetric(a.drop_last(), b);
        distance_is_symmetric(a, b.drop_last());
        distance_is_symmetric(a.drop_last(), b.drop_last());
    }
}

/// The distance is zero between equal texts only.
pub proof fn distance_zero_means_same(a: Seq<char>, b: Seq<char>)
    ensures
        distance(a, b) == 0 <==> a == b,
        distance(a, b) >= 0,
    decreases a.len() + b.len(),
{
    if a.len() == 0 || b.len() == 0 {
        if a.len() == 0 && b.len() == 0 {
            assert(a =~= b);
        }
    } else {
        distance_zero_means_same(a.drop_last(), b);
        distance_zero_means_same(a, b.drop_last());
        distance_zero_means_same(a.drop_last(), b.drop_last());
        assert(a =~= a.drop_last().push(a.last()));
        assert(b =~= b.drop_last().push(b.last()));
    }
}

pub fn levenshtein(left: &str, right: &str) -> (d: usize)
    ensures
        d == distance(left@, right@),
{
    let a = text::chars_of(left);
    let b = text::chars_of(right);
    let mut row: Vec<u128> = Vec::new();
    for j in 0..b.len()
        invariant
            b@ == right@,
            row@.len() == j,
            forall|k: int| 0 <= k < j ==> #[trigger] row@[k] == k + 1,
    {
        row.push((j as u128) + 1);
    }
    assert forall|k: int| 0 <= k < b@.len() implies #[trigger] row@[k] == distance(
        a@.take(0),
        b@.take(k + 1),
    ) by {}
    for i in 0..a.len()
        invariant
            row@.len() == b@.len(),
            forall|k: int|
                0 <= k < b@.len() ==> #[trigger] row@[k] == distance(
                    a@.take(i as int),
                    b@.take(k + 1),
                ),
    {
        let mut diagonal: u128 = i as u128;
        let mut before: u128 = (i as u128) + 1;
        assert(diagonal == distance(a@.take(i as int), b@.take(0)));
        assert(before == distance(a@.take(i + 1), b@.take(0)));
        for j in 0..b.len()
            invariant
                0 <= i < a@.len(),
                row@.len() == b@.len(),
                forall|k: int|
                    0 <= k < j ==> #[trigger] row@[k] == distance(a@.take(i + 1), b@.take(k + 1)),
                forall|k: int|
                    j <= k < b@.len() ==> #[trigger] row@[k] == distance(
                        a@.take(i as int),
                        b@.take(k + 1),
                    ),
                diagonal == distance(a@.take(i as int), b@.take(j as int)),
                before == distance(a@.take(i + 1), b@.take(j as int)),
        {
            let above: u128 = row[j];
            proof {
                distance_bounds(a@.take(i as int), b@.take(j + 1));
                distance_bounds(a@.take(i + 1), b@.take(j as int));
                distance_bounds(a@.take(i as int), b@.take(j as int));
                assert(a@.take(i + 1).drop_last() =~= a@.take(i as int));
                assert(b@.take(j + 1).drop_last() =~= b@.take(j as int));
                assert(a@.take(i + 1).last() == a@[i as int]);
                assert(b@.take(j + 1).last() == b@[j as int]);
            }
            let mut best: u128 = above + 1;
            if before + 1 < best {
                best = before + 1;
            }
            let replaced: u128 = if a[i] != b[j] {
                diagonal + 1
            } else {
                diagonal
            };
            if replaced < best {
                best = replaced;
            }
            assert(best == distance(a@.take(i + 1), b@.take(j + 1)));
            diagonal = above;
            before = best;
            row.set(j, best);
        }
    }
    assert(a@.take(a@.len() as int) =~= a@);
    assert(b@.take(b@.len() as int) =~= b@);
    proof {
        distance_bounds(a@, b@);
    }
    if b.len() == 0 {
        a.len()
    } else {
        let last: u128 = row[b.len() - 1];
        last as usize
    }
}

/// Whether `name` is the room that an unknown name most likely meant: the nearest one, and of
/// several nearest ones the first.
pub open spec fn is_closest(input: Seq<char>, keys: Seq<Seq<char>>, name: Seq<char>) -> bool {
    &&& keys.contains(name)
    &&& distance(input, name) <= 3
    &&& forall|i: int|
        0 <= i < keys.len() ==> distance(input, name) < distance(input, #[trigger] keys[i]) || (
        distance(input, name) == distance(input, keys[i]) && text::le(name, keys[i]))
}

/// The room that an unknown name most likely meant, if one is near enough.
pub open spec fn closest(input: Seq<char>, keys: Seq<Seq<char>>) -> Option<Seq<char>> {
    if exists|name: Seq<char>| is_closest(input, keys, name) {
        Some(choose|name: Seq<char>| is_closest(input, keys, name))
    } else {
        None
    }
}

/// There is at most one nearest room.
pub proof fn closest_is_unique(
    input: Seq<char>,
    keys: Seq<Seq<char>>,
    name: Seq<char>,
    other: Seq<char>,
)
    requires
        is_closest(input, keys, name),
        is_closest(input, keys, other),
    ensures
        name == other,
{
    let i = choose|i: int| 0 <= i < keys.len() && keys[i] == name;
    let j = choose|j: int| 0 <= j < keys.len() && keys[j] == other;
    assert(keys[i] == name);
    assert(keys[j] == other);
    if name != other {
        text::lt_asymmetric(name, other);
    }
}

/// The room that an unknown name most likely meant.
pub fn closest_room(input: &str, rooms: &RoomMap) -> (r: Option<String>)
    ensures
        text::opt(r) == closest(input@, rooms.keys()),
        r is None <==> forall|i: int|
            0 <= i < rooms.keys().len() ==> distance(input@, #[trigger] rooms.keys()[i]) > 3,
{
    let count: usize = rooms.len();
    let ghost keys = rooms.keys();
    let mut best: Option<usize> = None;
    let mut best_distance: usize = 0;
    for i in 0..count
        invariant
            count == rooms.keys().len(),
            keys == rooms.keys(),
            crate::textmap::increasing(keys),
            match best {
                Some(b) => b < i && best_distance == distance(input@, keys[b as int]) && forall|
                    k: int,
                |
                    0 <= k < i ==> best_distance < distance(input@, #[trigger] keys[k]) || (
                    best_distance == distance(input@, keys[k]) && text::le(keys[b as int], keys[k])),
                None => i == 0,
            },
    {
        let d: usize = levenshtein(input, rooms.key_at(i).as_str());
        let better: bool = match best {
            Some(_) => d < best_distance,
            None => true,
        };
        if better {
            best = Some(i);
            best_distance = d;
        }
    }
    match best {
        Some(b) => {
            if best_distance <= 3 {
                let name = rooms.key_at(b).clone();
                proof {
                    assert(keys[b as int] == name@);
                    assert(is_closest(input@, keys, name@));
                    closest_is_unique(input@, keys, name@, closest(input@, keys)->0);
                }
                Some(name)
            } else {
                proof {
                    assert forall|name: Seq<char>| !is_closest(input@, keys, name) by {
                        if is_closest(input@, keys, name) {
                            let i = choose|i: int| 0 <= i < keys.len() && keys[i] == name;
                            assert(keys[i] == name);
                        }
                    }
                }
                None
            }
        },
        None => None,
    }
}

} // verus!
