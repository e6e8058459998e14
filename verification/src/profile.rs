//! Room profiles: a display name and an emoji sigil. Presentation only: nothing that decides
//! identity, routes or cursors looks at them.
use crate::error;
use crate::error::{AppError, AppResult, ErrorCode};
use crate::names;
use crate::outside;
use crate::text;
use crate::textmap::{RoomMap, TextMap};
use vstd::prelude::*;

verus! {

/// The longest display name, in characters.
pub const MAX_NAME_CHARS: usize = 32;

/// How a room presents itself.
#[derive(Debug, PartialEq, Eq)]
pub struct Profile {
    pub name: Option<String>,
    pub pfp: Option<String>,
}

pub ghost struct ProfileView {
    pub name: Option<Seq<char>>,
    pub pfp: Option<Seq<char>>,
}

impl View for Profile {
    type V = ProfileView;

    open spec fn view(&self) -> ProfileView {
        ProfileView { name: text::opt(self.name), pfp: text::opt(self.pfp) }
    }
}

impl Default for Profile {
    fn default() -> (r: Profile)
        ensures
            r@ == (ProfileView { name: None, pfp: None }),
    {
        Profile { name: None, pfp: None }
    }
}

impl Clone for Profile {
    fn clone(&self) -> (r: Profile)
        ensures
            r@ == self@,
    {
        Profile { name: text::opt_clone(&self.name), pfp: text::opt_clone(&self.pfp) }
    }
}

/// The profiles of all rooms.
pub type ProfileMap = TextMap<Profile>;

/// What a name is compared by: its letters and digits in lower case.
pub open spec fn skeleton(value: Seq<char>) -> Seq<char>
    decreases value.len(),
{
    if value.len() == 0 {
        seq![]
    } else if outside::unicode_alphanumeric(value[0]) {
        outside::unicode_lowercase(value[0]) + skeleton(value.skip(1))
    } else {
        skeleton(value.skip(1))
    }
}

pub fn skeleton_text(value: &str) -> (r: String)
    ensures
        r@ == skeleton(value@),
{
    let chars = text::chars_of(value);
    let mut out = String::new();
    assert(value@.skip(0) =~= value@);
    assert(out@ + skeleton(value@) =~= skeleton(value@));
    for i in 0..chars.len()
        invariant
            chars@ == value@,
            out@ + skeleton(value@.skip(i as int)) == skeleton(value@),
    {
        let ghost rest = value@.skip(i as int);
        let ghost before = out@;
        assert(rest.skip(1) =~= value@.skip(i + 1));
        assert(rest[0] == value@[i as int]);
        if outside::is_alphanumeric(chars[i]) {
            let low = outside::to_lowercase(chars[i]);
            out.append(low.as_str());
            assert(before + (low@ + skeleton(rest.skip(1))) =~= before + low@ + skeleton(
                rest.skip(1),
            ));
        }
    }
    assert(out@ + skeleton(value@.skip(value@.len() as int)) =~= out@);
    out
}

/// The first of some rooms, other than one's own, whose name has the given skeleton.
pub open spec fn imitated_room(
    rooms: Seq<Seq<char>>,
    own_room: Seq<char>,
    skel: Seq<char>,
) -> Option<Seq<char>>
    decreases rooms.len(),
{
    if rooms.len() == 0 {
        None
    } else if rooms[0] != own_room && skeleton(rooms[0]) == skel {
        Some(rooms[0])
    } else {
        imitated_room(rooms.skip(1), own_room, skel)
    }
}

/// Why a display name is refused.
pub open spec fn display_name_fault(
    name: Seq<char>,
    own_room: Seq<char>,
    rooms: Seq<Seq<char>>,
) -> Option<Seq<char>> {
    let skel = skeleton(text::trim(name));
    if text::trim(name).len() == 0 {
        Some("display name is empty"@)
    } else if names::has_refused(name) {
        Some("display name contains control characters"@)
    } else if name.len() > 32 {
        Some("display name exceeds 32 characters"@)
    } else if skel.len() == 0 {
        Some("display name has no letters or digits"@)
    } else if skel == "trey"@ {
        Some("display name imitates 'trey'"@)
    } else {
        match imitated_room(rooms, own_room, skel) {
            Some(room) => Some("display name imitates existing room '"@ + room + "'"@),
            None => None,
        }
    }
}

pub open spec fn profile_error(reason: Seq<char>, input: Seq<char>) -> error::ErrorView {
    error::ErrorView::of(
        ErrorCode::InvalidArgument,
        "profile value is invalid: "@ + reason,
        "Pick a short name (<=32 chars, no control characters, no imitation of other identities) or a single unique emoji."@,
    ).input(outside::escape_debug_form(input)).reason(reason)
}

/// The error of a refused profile value, if it is refused.
pub open spec fn profile_fault_error(reason: Option<Seq<char>>, input: Seq<char>) -> Option<
    error::ErrorView,
> {
    match reason {
        Some(r) => Some(profile_error(r, input)),
        None => None,
    }
}

fn invalid(reason: &str, input: &str) -> (r: AppError)
    ensures
        r@ == profile_error(reason@, input@),
{
    AppError::new(
        ErrorCode::InvalidArgument,
        text::cat2("profile value is invalid: ", reason).as_str(),
        "Pick a short name (<=32 chars, no control characters, no imitation of other identities) or a single unique emoji.",
    ).input(outside::escape_debug(input).as_str()).reason(reason)
}

fn find_imitated(rooms: &RoomMap, own_room: &str, skel: &str) -> (r: Option<String>)
    ensures
        text::opt(r) == imitated_room(rooms.keys(), own_room@, skel@),
{
    let count: usize = rooms.len();
    let ghost keys = rooms.keys();
    assert(keys.skip(0) =~= keys);
    for i in 0..count
        invariant
            count == keys.len(),
            keys == rooms.keys(),
            imitated_room(keys, own_room@, skel@) == imitated_room(
                keys.skip(i as int),
                own_room@,
                skel@,
            ),
    {
        assert(keys.skip(i as int).skip(1) =~= keys.skip(i + 1));
        assert(keys.skip(i as int)[0] == keys[i as int]);
        let room = rooms.key_at(i);
        if !text::same(room.as_str(), own_room) && text::same(
            skeleton_text(room.as_str()).as_str(),
            skel,
        ) {
            return Some(room.clone());
        }
    }
    None
}

/// Checks a display name for a room: it may not imitate another identity.
pub fn validate_display_name(name: &str, own_room: &str, rooms: &RoomMap) -> (r: AppResult<()>)
    ensures
        error::failure(r) == profile_fault_error(
            display_name_fault(name@, own_room@, rooms.keys()),
            name@,
        ),
{
    let trimmed = text::trimmed(name);
    if trimmed.as_str().is_empty() {
        return Err(invalid("display name is empty", name));
    }
    if names::contains_refused(name) {
        return Err(invalid("display name contains control characters", name));
    }
    if name.unicode_len() > MAX_NAME_CHARS {
        return Err(invalid("display name exceeds 32 characters", name));
    }
    let skel = skeleton_text(trimmed.as_str());
    if skel.as_str().is_empty() {
        return Err(invalid("display name has no letters or digits", name));
    }
    if text::same(skel.as_str(), "trey") {
        return Err(invalid("display name imitates 'trey'", name));
    }
    match find_imitated(rooms, own_room, skel.as_str()) {
        Some(room) => Err(
            invalid(
                text::cat3("display name imitates existing room '", room.as_str(), "'").as_str(),
                name,
            ),
        ),
        None => Ok(()),
    }
}

/// The first of some rooms, other than one's own, that has the given sigil.
pub open spec fn sigil_holder(
    rooms: Seq<Seq<char>>,
    profiles: Map<Seq<char>, Profile>,
    own_room: Seq<char>,
    pfp: Seq<char>,
) -> Option<Seq<char>>
    decreases rooms.len(),
{
    if rooms.len() == 0 {
        None
    } else if rooms[0] != own_room && profiles[rooms[0]]@.pfp == Some(pfp) {
        Some(rooms[0])
    } else {
        sigil_holder(rooms.skip(1), profiles, own_room, pfp)
    }
}

/// Why a sigil with the given number of grapheme clusters is refused, whoever uses it.
pub open spec fn pfp_shape_fault(pfp: Seq<char>, clusters: nat) -> Option<Seq<char>> {
    if clusters != 1 {
        Some("pfp must be exactly one emoji (one grapheme cluster)"@)
    } else if names::has_refused(pfp) {
        Some("pfp contains control characters"@)
    } else if vstd::utf8::is_ascii_chars(pfp) {
        Some("pfp must be an emoji, not ASCII"@)
    } else {
        None
    }
}

/// Why a sigil with the given number of grapheme clusters is refused for a room.
pub open spec fn pfp_fault(
    pfp: Seq<char>,
    clusters: nat,
    own_room: Seq<char>,
    rooms: Seq<Seq<char>>,
    profiles: Map<Seq<char>, Profile>,
) -> Option<Seq<char>> {
    if pfp_shape_fault(pfp, clusters) is Some {
        pfp_shape_fault(pfp, clusters)
    } else {
        match sigil_holder(rooms, profiles, own_room, pfp) {
            Some(room) => Some("pfp is already the sigil of room '"@ + room + "'"@),
            None => None,
        }
    }
}

/// Checks the shape of a sigil that has the given number of grapheme clusters.
pub fn check_pfp_shape(pfp: &str, clusters: usize) -> (r: AppResult<()>)
    ensures
        error::failure(r) == profile_fault_error(pfp_shape_fault(pfp@, clusters as nat), pfp@),
{
    if clusters != 1 {
        return Err(invalid("pfp must be exactly one emoji (one grapheme cluster)", pfp));
    }
    if names::contains_refused(pfp) {
        return Err(invalid("pfp contains control characters", pfp));
    }
    if pfp.is_ascii() {
        return Err(invalid("pfp must be an emoji, not ASCII", pfp));
    }
    Ok(())
}

/// Checks a sigil that has the given number of grapheme clusters: it must be one emoji, and
/// no other room's.
pub fn check_pfp(pfp: &str, clusters: usize, own_room: &str, profiles: &ProfileMap) -> (r: AppResult<
    (),
>)
    ensures
        error::failure(r) == profile_fault_error(
            pfp_fault(pfp@, clusters as nat, own_room@, profiles.keys(), profiles@),
            pfp@,
        ),
{
    match check_pfp_shape(pfp, clusters) {
        Ok(_) => {},
        Err(e) => {
            return Err(e);
        },
    }
    let count: usize = profiles.len();
    let ghost keys = profiles.keys();
    assert(keys.skip(0) =~= keys);
    for i in 0..count
        invariant
            count == keys.len(),
            keys == profiles.keys(),
            pfp_shape_fault(pfp@, clusters as nat) is None,
            sigil_holder(keys, profiles@, own_room@, pfp@) == sigil_holder(
                keys.skip(i as int),
                profiles@,
                own_room@,
                pfp@,
            ),
    {
        assert(keys.skip(i as int).skip(1) =~= keys.skip(i + 1));
        assert(keys.skip(i as int)[0] == keys[i as int]);
        let room = profiles.key_at(i);
        let profile = profiles.value_at(i);
        if !text::same(room.as_str(), own_room) && text::opt_same(&profile.pfp, pfp) {
            return Err(
                invalid(
                    text::cat3("pfp is already the sigil of room '", room.as_str(), "'").as_str(),
                    pfp,
                ),
            );
        }
    }
    Ok(())
}

/// Checks a sigil for a room.
pub fn validate_pfp(pfp: &str, own_room: &str, profiles: &ProfileMap) -> (r: AppResult<()>)
    ensures
        error::failure(r) == profile_fault_error(
            pfp_fault(
                pfp@,
                outside::grapheme_clusters(pfp@),
                own_room@,
                profiles.keys(),
                profiles@,
            ),
            pfp@,
        ),
{
    check_pfp(pfp, outside::count_graphemes(pfp), own_room, profiles)
}

/// What is left of a stored profile once the values that are no longer valid are dropped.
pub open spec fn valid_part(
    profile: ProfileView,
    room: Seq<char>,
    rooms: Seq<Seq<char>>,
) -> ProfileView {
    ProfileView {
        name: match profile.name {
            Some(name) => if display_name_fault(name, room, rooms) is None {
                Some(name)
            } else {
                None
            },
            None => None,
        },
        pfp: match profile.pfp {
            Some(pfp) => if pfp_shape_fault(pfp, outside::grapheme_clusters(pfp)) is None {
                Some(pfp)
            } else {
                None
            },
            None => None,
        },
    }
}

/// Drops the values of a stored profile that are no longer valid, and tells whether it
/// dropped any.
pub fn drop_invalid_fields(profile: &mut Profile, room: &str, rooms: &RoomMap) -> (r: bool)
    ensures
        final(profile)@ == valid_part(old(profile)@, room@, rooms.keys()),
        r == (final(profile)@ != old(profile)@),
{
    let name_bad = match &profile.name {
        Some(name) => validate_display_name(name.as_str(), room, rooms).is_err(),
        None => false,
    };
    let pfp_bad = match &profile.pfp {
        Some(pfp) => check_pfp_shape(
            pfp.as_str(),
            outside::count_graphemes(pfp.as_str()),
        ).is_err(),
        None => false,
    };
    if name_bad {
        profile.name = None;
    }
    if pfp_bad {
        profile.pfp = None;
    }
    name_bad || pfp_bad
}

/// The profile that a message of a sender carries: what is valid of the sender's profile, and
/// nothing for a sender that is no registered room.
pub open spec fn stamp(
    sender: Seq<char>,
    rooms: Seq<Seq<char>>,
    profiles: Map<Seq<char>, Profile>,
) -> ProfileView {
    if rooms.contains(sender) && profiles.contains_key(sender) {
        valid_part(profiles[sender]@, sender, rooms)
    } else {
        ProfileView { name: None, pfp: None }
    }
}

pub fn stamp_for(sender: &str, rooms: &RoomMap, profiles: &ProfileMap) -> (r: Profile)
    ensures
        r@ == stamp(sender@, rooms.keys(), profiles@),
{
    if !rooms.contains_key(sender) {
        return Profile::default();
    }
    match profiles.get(sender) {
        Some(stored) => {
            let mut profile = stored.clone();
            drop_invalid_fields(&mut profile, sender, rooms);
            profile
        },
        None => Profile::default(),
    }
}

/// What is stamped never holds a character that could forge a line.
pub proof fn stamps_are_clean(
    sender: Seq<char>,
    rooms: Seq<Seq<char>>,
    profiles: Map<Seq<char>, Profile>,
)
    ensures
        stamp(sender, rooms, profiles).name is Some ==> !names::has_refused(
            stamp(sender, rooms, profiles).name->0,
        ),
        stamp(sender, rooms, profiles).pfp is Some ==> !names::has_refused(
            stamp(sender, rooms, profiles).pfp->0,
        ),
{
}

// ---------------------------------------------------------------------------
// Changing a profile
// ---------------------------------------------------------------------------
pub open spec fn nothing_to_set_error() -> error::ErrorView {
    error::ErrorView::of(
        ErrorCode::InvalidArgument,
        "nothing to set: pass --name and/or --pfp"@,
        "Retry with `post profile set --name '<name>' --pfp '<emoji>'` (either flag alone is fine)."@,
    )
}

/// The error of a command that sets nothing.
pub fn nothing_to_set() -> (r: AppError)
    ensures
        r@ == nothing_to_set_error(),
{
    AppError::new(
        ErrorCode::InvalidArgument,
        "nothing to set: pass --name and/or --pfp",
        "Retry with `post profile set --name '<name>' --pfp '<emoji>'` (either flag alone is fine).",
    )
}

/// A changed profile.
#[derive(Debug)]
pub struct ProfileChange {
    pub profile: Profile,
    /// Whether the change is announced in the room's channels.
    pub changed: bool,
    /// Whether a stored value was dropped because it is no longer valid.
    pub dropped: bool,
}

/// The stored profile of a room, or an empty one.
pub open spec fn stored(profiles: Map<Seq<char>, Profile>, room: Seq<char>) -> ProfileView {
    if profiles.contains_key(room) {
        profiles[room]@
    } else {
        ProfileView { name: None, pfp: None }
    }
}

/// The new values laid over the stored ones. Names are stored without white space at the ends.
pub open spec fn laid_over(
    profile: ProfileView,
    name: Option<Seq<char>>,
    pfp: Option<Seq<char>>,
) -> ProfileView {
    ProfileView {
        name: match name {
            Some(n) => Some(text::trim(n)),
            None => profile.name,
        },
        pfp: match pfp {
            Some(p) => Some(p),
            None => profile.pfp,
        },
    }
}

/// Why the requested profile values are refused.
pub open spec fn change_fault(
    name: Option<Seq<char>>,
    pfp: Option<Seq<char>>,
    room: Seq<char>,
    rooms: Seq<Seq<char>>,
    holders: Seq<Seq<char>>,
    profiles: Map<Seq<char>, Profile>,
) -> Option<error::ErrorView> {
    if name is None && pfp is None {
        Some(nothing_to_set_error())
    } else if name is Some && display_name_fault(name->0, room, rooms) is Some {
        profile_fault_error(display_name_fault(name->0, room, rooms), name->0)
    } else if pfp is Some {
        profile_fault_error(
            pfp_fault(
                pfp->0,
                outside::grapheme_clusters(pfp->0),
                room,
                holders,
                profiles,
            ),
            pfp->0,
        )
    } else {
        None
    }
}

/// Decides on a change of a room's profile.
pub fn plan_change(
    name: Option<&str>,
    pfp: Option<&str>,
    room: &str,
    rooms: &RoomMap,
    profiles: &ProfileMap,
) -> (r: AppResult<ProfileChange>)
    ensures
        match r {
            Ok(change) => {
                let before = stored(profiles@, room@);
                let wanted = laid_over(before, text::opt_str(name), text::opt_str(pfp));
                &&& change_fault(
                    text::opt_str(name),
                    text::opt_str(pfp),
                    room@,
                    rooms.keys(),
                    profiles.keys(),
                    profiles@,
                ) is None
                &&& change.changed == (wanted != before)
                &&& change.profile@ == valid_part(wanted, room@, rooms.keys())
                &&& change.dropped == (change.profile@ != wanted)
            },
            Err(e) => change_fault(
                text::opt_str(name),
                text::opt_str(pfp),
                room@,
                rooms.keys(),
                profiles.keys(),
                profiles@,
            ) == Some(e@),
        },
{
    if name.is_none() && pfp.is_none() {
        return Err(nothing_to_set());
    }
    if let Some(value) = name {
        match validate_display_name(value, room, rooms) {
            Ok(_) => {},
            Err(e) => {
                return Err(e);
            },
        }
    }
    if let Some(value) = pfp {
        match validate_pfp(value, room, profiles) {
            Ok(_) => {},
            Err(e) => {
                return Err(e);
            },
        }
    }
    let before = match profiles.get(room) {
        Some(found) => found.clone(),
        None => Profile::default(),
    };
    let mut profile = before.clone();
    let mut changed = false;
    if let Some(value) = name {
        let trimmed = text::trimmed(value);
        if !text::opt_same(&before.name, trimmed.as_str()) {
            changed = true;
        }
        profile.name = Some(trimmed);
    }
    if let Some(value) = pfp {
        if !text::opt_same(&before.pfp, value) {
            changed = true;
        }
        profile.pfp = Some(value.to_owned());
    }
    let dropped = drop_invalid_fields(&mut profile, room, rooms);
    Ok(ProfileChange { profile, changed, dropped })
}

/// Decides on the removal of a room's profile: it is announced where there was one.
pub fn plan_clear(room: &str, profiles: &ProfileMap) -> (r: ProfileChange)
    ensures
        r.profile@ == (ProfileView { name: None, pfp: None }),
        r.changed == (stored(profiles@, room@) != ProfileView { name: None, pfp: None }),
        !r.dropped,
{
    let changed = match profiles.get(room) {
        Some(profile) => profile.name.is_some() || profile.pfp.is_some(),
        None => false,
    };
    ProfileChange { profile: Profile::default(), changed, dropped: false }
}

/// Stores a room's profile. An empty profile is not kept.
pub fn store_profile(profiles: &mut ProfileMap, room: &str, profile: &Profile)
    ensures
        stored(final(profiles)@, room@) == profile@,
        final(profiles)@.contains_key(room@) == (profile@ != ProfileView { name: None, pfp: None }),
        final(profiles)@.remove(room@) == old(profiles)@.remove(room@),
{
    if profile.name.is_none() && profile.pfp.is_none() {
        profiles.remove(room);
    } else {
        profiles.insert(room, profile.clone());
    }
    assert(profiles@.remove(room@) =~= old(profiles)@.remove(room@));
}

/// What was set is what is stamped: once a planned profile is stored, the messages of the room
/// carry it whole, and those of the other rooms carry what they did before.
pub proof fn profiles_are_stamped_as_set(
    wanted: ProfileView,
    room: Seq<char>,
    other: Seq<char>,
    rooms: Seq<Seq<char>>,
    before: Map<Seq<char>, Profile>,
    after: Map<Seq<char>, Profile>,
)
    requires
        rooms.contains(room),
        stored(after, room) == valid_part(wanted, room, rooms),
        after.remove(room) == before.remove(room),
        other != room,
    ensures
        stamp(room, rooms, after) == stored(after, room),
        stamp(other, rooms, after) == stamp(other, rooms, before),
{
    assert(after.remove(room).contains_key(other) == after.contains_key(other));
    assert(before.remove(room).contains_key(other) == before.contains_key(other));
    assert(after.contains_key(other) ==> after.remove(room)[other] == after[other]);
    assert(before.contains_key(other) ==> before.remove(room)[other] == before[other]);
}

/// The line that announces a profile in a channel.
pub open spec fn announcement(room: Seq<char>, profile: ProfileView) -> Seq<char> {
    let name = match profile.name {
        Some(n) => n,
        None => room,
    };
    match profile.pfp {
        Some(pfp) => "=== "@ + room + " is now "@ + name + " "@ + pfp + " ("@ + room + ") ==="@,
        None => "=== "@ + room + " is now "@ + name + " ("@ + room + ") ==="@,
    }
}

pub fn announcement_line(room: &str, profile: &Profile) -> (r: String)
    ensures
        r@ == announcement(room@, profile@),
{
    let name = match &profile.name {
        Some(n) => n.as_str(),
        None => room,
    };
    match &profile.pfp {
        Some(pfp) => text::cat9(
            "=== ",
            room,
            " is now ",
            name,
            " ",
            pfp.as_str(),
            " (",
            room,
            ") ===",
        ),
        None => text::cat7("=== ", room, " is now ", name, " (", room, ") ==="),
    }
}

} // verus!
