//! What a room may call itself, and what its messages carry of that.
use vstd::prelude::*;

use crate::error::ErrorCode;
use crate::names;
use crate::outside;
use crate::profile;
use crate::profile::{Profile, ProfileView};
use crate::text;

verus! {

/// A name's letters and digits are compared in lower case, one by one; everything between them is
/// passed over.
pub proof fn names_are_compared_by_letters_and_digits(c: char, rest: Seq<char>)
    ensures
        profile::skeleton(seq![]) == Seq::<char>::empty(),
        outside::unicode_alphanumeric(c) ==> profile::skeleton(seq![c] + rest)
            == outside::unicode_lowercase(c) + profile::skeleton(rest),
        !outside::unicode_alphanumeric(c) ==> profile::skeleton(seq![c] + rest)
            == profile::skeleton(rest),
{
    assert((seq![c] + rest).skip(1) =~= rest);
}

/// A name imitates a room exactly when another room has its letters and digits.
pub proof fn imitated_rooms_have_the_same_letters(
    rooms: Seq<Seq<char>>,
    own_room: Seq<char>,
    skel: Seq<char>,
)
    ensures
        profile::imitated_room(rooms, own_room, skel) is Some <==> exists|i: int|
            0 <= i < rooms.len() && #[trigger] rooms[i] != own_room && profile::skeleton(rooms[i])
                == skel,
        profile::imitated_room(rooms, own_room, skel) matches Some(room) ==> rooms.contains(room)
            && room != own_room && profile::skeleton(room) == skel,
    decreases rooms.len(),
{
    if rooms.len() > 0 {
        let rest = rooms.skip(1);
        imitated_rooms_have_the_same_letters(rest, own_room, skel);
        if rooms[0] != own_room && profile::skeleton(rooms[0]) == skel {
            assert(rooms.contains(rooms[0]));
        } else {
            if profile::imitated_room(rest, own_room, skel) is Some {
                let i = choose|i: int|
                    0 <= i < rest.len() && #[trigger] rest[i] != own_room && profile::skeleton(
                        rest[i],
                    ) == skel;
                assert(rooms[i + 1] == rest[i]);
                let room = profile::imitated_room(rest, own_room, skel)->0;
                let j = choose|j: int| 0 <= j < rest.len() && rest[j] == room;
                assert(rooms[j + 1] == room);
            }
            if exists|i: int|
                0 <= i < rooms.len() && #[trigger] rooms[i] != own_room && profile::skeleton(
                    rooms[i],
                ) == skel {
                let i = choose|i: int|
                    0 <= i < rooms.len() && #[trigger] rooms[i] != own_room && profile::skeleton(
                        rooms[i],
                    ) == skel;
                assert(rest[i - 1] == rooms[i]);
            }
        }
    }
}

/// A display name is taken exactly when it shows something, holds no character that would disturb a
/// line, has at most 32 characters, has a letter or a digit, and imitates neither the reserved name
/// nor another room.
pub proof fn display_names_are_short_and_their_own(
    name: Seq<char>,
    own_room: Seq<char>,
    rooms: Seq<Seq<char>>,
)
    ensures
        profile::display_name_fault(name, own_room, rooms) is None <==> !text::blank(name)
            && !names::has_refused(name) && name.len() <= 32 && profile::skeleton(
            text::trim(name),
        ).len() > 0 && profile::skeleton(text::trim(name)) != "trey"@ && (forall|i: int|
            0 <= i < rooms.len() ==> #[trigger] rooms[i] == own_room || profile::skeleton(rooms[i])
                != profile::skeleton(text::trim(name))),
{
    crate::laws::words::trimming_takes_blank_ends(name);
    imitated_rooms_have_the_same_letters(rooms, own_room, profile::skeleton(text::trim(name)));
}

/// A sigil is taken exactly when it is one glyph, disturbs no line, is not ASCII, and is no other
/// room's sigil.
pub proof fn sigils_are_single_and_their_own(
    pfp: Seq<char>,
    clusters: nat,
    own_room: Seq<char>,
    rooms: Seq<Seq<char>>,
    profiles: Map<Seq<char>, Profile>,
)
    ensures
        profile::pfp_fault(pfp, clusters, own_room, rooms, profiles) is None <==> clusters == 1
            && !names::has_refused(pfp) && !vstd::utf8::is_ascii_chars(pfp) && (forall|i: int|
            0 <= i < rooms.len() ==> #[trigger] rooms[i] == own_room || profiles[rooms[i]]@.pfp
                != Some(pfp)),
{
    sigils_are_held_by_rooms(rooms, profiles, own_room, pfp);
}

proof fn sigils_are_held_by_rooms(
    rooms: Seq<Seq<char>>,
    profiles: Map<Seq<char>, Profile>,
    own_room: Seq<char>,
    pfp: Seq<char>,
)
    ensures
        profile::sigil_holder(rooms, profiles, own_room, pfp) is None <==> forall|i: int|
            0 <= i < rooms.len() ==> #[trigger] rooms[i] == own_room || profiles[rooms[i]]@.pfp
                != Some(pfp),
    decreases rooms.len(),
{
    if rooms.len() > 0 {
        let rest = rooms.skip(1);
        sigils_are_held_by_rooms(rest, profiles, own_room, pfp);
        if profile::sigil_holder(rest, profiles, own_room, pfp) is None {
            if rooms[0] == own_room || profiles[rooms[0]]@.pfp != Some(pfp) {
                assert forall|i: int| 0 <= i < rooms.len() implies #[trigger] rooms[i] == own_room
                    || profiles[rooms[i]]@.pfp != Some(pfp) by {
                    if i > 0 {
                        assert(rest[i - 1] == rooms[i]);
                    }
                }
            }
        } else {
            let i = choose|i: int|
                0 <= i < rest.len() && !(#[trigger] rest[i] == own_room || profiles[rest[i]]@.pfp
                    != Some(pfp));
            assert(rooms[i + 1] == rest[i]);
        }
    }
}

/// A message carries its sender's name and sigil as they stand in the sender's profile, each only
/// where it is still valid, and neither for a sender that is not registered or has no profile.
pub proof fn stamps_hold_the_valid_profile(
    sender: Seq<char>,
    rooms: Seq<Seq<char>>,
    profiles: Map<Seq<char>, Profile>,
)
    ensures
        !rooms.contains(sender) || !profiles.contains_key(sender) ==> profile::stamp(
            sender,
            rooms,
            profiles,
        ).name is None && profile::stamp(sender, rooms, profiles).pfp is None,
        rooms.contains(sender) && profiles.contains_key(sender) ==> {
            let stamp = profile::stamp(sender, rooms, profiles);
            let stored = profiles[sender];
            &&& stamp.name is Some ==> stamp.name == text::opt(stored.name)
            &&& stamp.pfp is Some ==> stamp.pfp == text::opt(stored.pfp)
            &&& stored.name matches Some(name) ==> (stamp.name is Some
                <==> profile::display_name_fault(name@, sender, rooms) is None)
            &&& stored.pfp matches Some(pfp) ==> (stamp.pfp is Some <==> profile::pfp_shape_fault(
                pfp@,
                outside::grapheme_clusters(pfp@),
            ) is None)
            &&& stored.name is None ==> stamp.name is None
            &&& stored.pfp is None ==> stamp.pfp is None
        },
{
}

/// What is set replaces what was there, the name without the white space around it, and what is not
/// set stays.
pub proof fn settings_replace_what_they_name(
    before: ProfileView,
    name: Option<Seq<char>>,
    pfp: Option<Seq<char>>,
)
    ensures
        name matches Some(n) ==> profile::laid_over(before, name, pfp).name == Some(text::trim(n)),
        name is None ==> profile::laid_over(before, name, pfp).name == before.name,
        pfp is Some ==> profile::laid_over(before, name, pfp).pfp == pfp,
        pfp is None ==> profile::laid_over(before, name, pfp).pfp == before.pfp,
{
}

/// A change is refused exactly when it sets nothing, or its name or its sigil is not taken; each
/// refusal is for an invalid argument.
pub proof fn changes_are_refused_by_what_they_set(
    name: Option<Seq<char>>,
    pfp: Option<Seq<char>>,
    room: Seq<char>,
    rooms: Seq<Seq<char>>,
    holders: Seq<Seq<char>>,
    profiles: Map<Seq<char>, Profile>,
)
    ensures
        ({
            let fault = profile::change_fault(name, pfp, room, rooms, holders, profiles);
            &&& fault is None <==> (name is Some || pfp is Some) && (name matches Some(n)
                ==> profile::display_name_fault(n, room, rooms) is None) && (pfp matches Some(p)
                ==> profile::pfp_fault(
                p,
                outside::grapheme_clusters(p),
                room,
                holders,
                profiles,
            ) is None)
            &&& fault is Some ==> fault->0.code == ErrorCode::InvalidArgument
        }),
{
}

/// The profile that is stored for a room is the one in the map, and an empty one where there is
/// none; a profile is seen as it is.
pub proof fn stored_profiles_are_found_by_room(
    profiles: Map<Seq<char>, Profile>,
    room: Seq<char>,
    one: Profile,
)
    ensures
        profiles.contains_key(room) ==> profile::stored(profiles, room) == profiles[room]@,
        !profiles.contains_key(room) ==> profile::stored(profiles, room).name is None
            && profile::stored(profiles, room).pfp is None,
        one@.name == text::opt(one.name),
        one@.pfp == text::opt(one.pfp),
{
}

/// A change is announced with the room's new name, or its own where it has none, the sigil where
/// there is one, and the room in brackets.
pub proof fn announcements_say_who_is_who(room: Seq<char>, name: Seq<char>, pfp: Seq<char>)
    ensures
        profile::announcement(room, ProfileView { name: Some(name), pfp: Some(pfp) }) == "=== "@
            + room + " is now "@ + name + " "@ + pfp + " ("@ + room + ") ==="@,
        profile::announcement(room, ProfileView { name: Some(name), pfp: None }) == "=== "@ + room
            + " is now "@ + name + " ("@ + room + ") ==="@,
        profile::announcement(room, ProfileView { name: None, pfp: None }) == "=== "@ + room
            + " is now "@ + room + " ("@ + room + ") ==="@,
        profile::announcement(room, ProfileView { name: None, pfp: Some(pfp) }) == "=== "@ + room
            + " is now "@ + room + " "@ + pfp + " ("@ + room + ") ==="@,
{
}

} // verus!
