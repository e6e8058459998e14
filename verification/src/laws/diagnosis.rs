//! What an inspection of the store finds.
use vstd::prelude::*;

use crate::context;
use crate::doctor;
use crate::doctor::{
    ChannelEntry, ChannelFacts, MailFile, MembersFile, MessageFile, ProfilesFile,
    RoomDirs, RoomsFile, RulesFile, StateFile, StoreFacts,
};
use crate::model;
use crate::names;
use crate::order;
use crate::output;
use crate::output::{CheckView, DoctorCheck, DoctorSeverity};
use crate::paths;
use crate::profile;
use crate::text;
use crate::textmap::RoomMap;

verus! {

/// Whether a list holds one finding, with the given id, weight and place, and whether it can be
/// repaired.
pub open spec fn just(
    found: Seq<CheckView>,
    id: Seq<char>,
    severity: DoctorSeverity,
    path: Seq<char>,
    fixable: bool,
) -> bool {
    found.len() == 1 && found[0].id == id && found[0].severity == severity && found[0].path == path
        && found[0].fixable == fixable
}

/// A missing registry can be repaired, one that is broken or empty is an error to be mended by hand,
/// and in one that can be read each entry is looked at.
pub proof fn registries_are_inspected(home: Seq<char>, path: Seq<char>, rooms: RoomMap)
    ensures
        just(
            doctor::rooms_findings(home, path, RoomsFile::Missing),
            "config.rooms_missing"@,
            DoctorSeverity::Error,
            path,
            true,
        ),
        just(
            doctor::rooms_findings(home, path, RoomsFile::Invalid),
            "config.rooms_invalid"@,
            DoctorSeverity::Error,
            path,
            false,
        ),
        rooms.keys().len() == 0 ==> just(
            doctor::rooms_findings(home, path, RoomsFile::Parsed(rooms)),
            "config.rooms_invalid"@,
            DoctorSeverity::Error,
            path,
            false,
        ),
        rooms.keys().len() > 0 ==> doctor::rooms_findings(home, path, RoomsFile::Parsed(rooms))
            == doctor::room_entries_findings(home, path, rooms.keys(), rooms@, rooms.keys().len()),
        doctor::known_rooms(RoomsFile::Missing) is None,
        doctor::known_rooms(RoomsFile::Invalid) is None,
        rooms.keys().len() > 0 ==> doctor::known_rooms(RoomsFile::Parsed(rooms)) == Some(rooms),
        rooms.keys().len() == 0 ==> doctor::known_rooms(RoomsFile::Parsed(rooms)) is None,
{
}

/// An entry is found at fault for its name and for its path, each by itself, and a sound one for
/// nothing.
pub proof fn entries_are_inspected_by_name_and_path(
    home: Seq<char>,
    path: Seq<char>,
    name: Seq<char>,
    value: Seq<char>,
)
    ensures
        ({
            let found = doctor::room_entry_findings(home, path, name, value);
            let bad_name = names::room_name_fault(name) is Some;
            let bad_path = context::expanded(home, value) is Err;
            &&& !bad_name && !bad_path ==> found.len() == 0
            &&& bad_name && !bad_path ==> just(
                found,
                "config.room_name."@ + name,
                DoctorSeverity::Error,
                path,
                false,
            )
            &&& !bad_name && bad_path ==> just(
                found,
                "config.room_path."@ + name,
                DoctorSeverity::Error,
                path,
                false,
            )
            &&& bad_name && bad_path ==> found.len() == 2 && found[0].id == "config.room_name."@
                + name && found[1].id == "config.room_path."@ + name
        }),
{
}

/// The entries are inspected one by one, none left out.
pub proof fn every_entry_is_inspected(
    home: Seq<char>,
    path: Seq<char>,
    keys: Seq<Seq<char>>,
    rooms: Map<Seq<char>, String>,
    n: nat,
)
    ensures
        doctor::room_entries_findings(home, path, keys, rooms, 0).len() == 0,
        n < keys.len() ==> doctor::room_entries_findings(home, path, keys, rooms, n + 1)
            == doctor::room_entries_findings(home, path, keys, rooms, n)
            + doctor::room_entry_findings(home, path, keys[n as int], rooms[keys[n as int]]@),
{
}

/// A rule is found at fault when it leaves a side or its reason blank, names a side that is neither
/// everyone nor a path component, or blocks the way to a room that is known not to be there.
pub proof fn rules_are_inspected_one_by_one(
    path: Seq<char>,
    rules: Seq<model::RuleView>,
    rule: model::RuleView,
    rooms: Option<RoomMap>,
)
    ensures
        doctor::rule_findings(path, seq![], rooms).len() == 0,
        ({
            let before = doctor::rule_findings(path, rules, rooms);
            let after = doctor::rule_findings(path, rules.push(rule), rooms);
            let bad = text::blank(rule.from) || text::blank(rule.to) || text::blank(rule.reason)
                || (rule.from != "*"@ && names::component_fault(rule.from) is Some) || (rule.to
                != "*"@ && names::component_fault(rule.to) is Some) || (rule.to != "*"@ && rooms
                is Some && !rooms->0@.contains_key(rule.to));
            &&& !bad ==> after == before
            &&& bad ==> after.len() == before.len() + 1 && after.drop_last() == before
                && after.last().id == "config.rule."@ + text::decimal(rules.len())
                && after.last().severity == DoctorSeverity::Error && after.last().path == path
                && !after.last().fixable
        }),
{
    let all = rules.push(rule);
    assert(all.drop_last() =~= rules);
    if doctor::bad_rule(rule, rooms) {
        assert(doctor::rule_findings(path, all, rooms).drop_last() =~= doctor::rule_findings(
            path,
            rules,
            rooms,
        ));
    }
}

/// Missing rules can be repaired, broken ones are an error to be mended by hand.
pub proof fn rule_files_are_inspected(path: Seq<char>, rooms: Option<RoomMap>)
    ensures
        just(
            doctor::rules_findings(path, RulesFile::Missing, rooms),
            "config.rules_missing"@,
            DoctorSeverity::Error,
            path,
            true,
        ),
        just(
            doctor::rules_findings(path, RulesFile::Invalid, rooms),
            "config.rules_invalid"@,
            DoctorSeverity::Error,
            path,
            false,
        ),
        forall|config: model::RulesConfig|
            doctor::rules_findings(path, RulesFile::Parsed(config), rooms)
                == #[trigger] doctor::rule_findings(
                path,
                model::rules_view(config.blocked@),
                rooms,
            ),
{
}

/// A directory that is missing is an error that can be repaired, and one that is there is none.
pub proof fn missing_directories_are_found(path: Seq<char>, id: Seq<char>)
    ensures
        doctor::dir_findings(path, id, true).len() == 0,
        just(doctor::dir_findings(path, id, false), id, DoctorSeverity::Error, path, true),
{
}

/// A stored profile is warned of when its room is not registered or a value of it is no longer
/// valid.
pub proof fn profiles_are_inspected_one_by_one(
    path: Seq<char>,
    keys: Seq<Seq<char>>,
    profiles: Map<Seq<char>, profile::Profile>,
    rooms: RoomMap,
    n: nat,
)
    requires
        n < keys.len(),
    ensures
        doctor::profile_findings(path, keys, profiles, rooms, 0).len() == 0,
        ({
            let room = keys[n as int];
            let stored = profiles[room]@;
            let before = doctor::profile_findings(path, keys, profiles, rooms, n);
            let after = doctor::profile_findings(path, keys, profiles, rooms, n + 1);
            let sound = rooms@.contains_key(room) && profile::valid_part(
                stored,
                room,
                rooms.keys(),
            ) == stored;
            &&& sound ==> after == before
            &&& !sound ==> after.len() == before.len() + 1 && after.drop_last() == before
                && after.last().id == "profiles."@ + room + ".inert"@ && after.last().severity
                == DoctorSeverity::Warning && after.last().path == path && !after.last().fixable
        }),
{
    let room = keys[n as int];
    let before = doctor::profile_findings(path, keys, profiles, rooms, n);
    let after = doctor::profile_findings(path, keys, profiles, rooms, n + 1);
    if doctor::inert_profile(room, profiles[room]@, rooms) {
        assert(after.drop_last() =~= before);
    }
}

/// No profiles are no fault, and profiles that cannot be loaded are warned of.
pub proof fn profile_files_are_inspected(path: Seq<char>, problem: String, rooms: Option<RoomMap>)
    ensures
        doctor::profiles_findings(path, ProfilesFile::Absent, rooms).len() == 0,
        just(
            doctor::profiles_findings(path, ProfilesFile::Invalid(problem), rooms),
            "profiles.invalid"@,
            DoctorSeverity::Warning,
            path,
            false,
        ),
{
}

/// A room is found at fault for a path that leads nowhere, warned of for a workspace that is gone,
/// and found at fault for each of its two directories that is missing; a sound one for nothing.
pub proof fn rooms_are_inspected(
    root: Seq<char>,
    home: Seq<char>,
    rooms_path: Seq<char>,
    name: Seq<char>,
    value: Seq<char>,
    dirs: RoomDirs,
)
    ensures
        ({
            let found = doctor::room_findings(root, home, rooms_path, name, value, dirs);
            let place = context::expanded(home, value);
            let first: int = if place is Err || !dirs.workspace {
                1
            } else {
                0
            };
            let second: int = if dirs.inbox {
                0
            } else {
                1
            };
            let third: int = if dirs.read {
                0
            } else {
                1
            };
            &&& found.len() == first + second + third
            &&& place is Err ==> found[0].id == "room."@ + name + ".path_invalid"@
                && found[0].severity == DoctorSeverity::Error
            &&& place is Ok && !dirs.workspace ==> found[0].id == "room."@ + name
                + ".workspace_missing"@ && found[0].severity == DoctorSeverity::Warning
                && found[0].path == place->Ok_0
            &&& !dirs.inbox ==> found[first].id == "room."@ + name + ".inbox_missing"@
                && found[first].fixable && found[first].path == paths::join(
                paths::join(root, name),
                "inbox"@,
            )
            &&& !dirs.read ==> found[first + second].id == "room."@ + name + ".read_missing"@
                && found[first + second].fixable && found[first + second].path == paths::join(
                paths::join(root, name),
                "read"@,
            )
        }),
{
}

/// Every registered room is inspected, with the directories that belong to it.
pub proof fn every_room_is_inspected(
    root: Seq<char>,
    home: Seq<char>,
    rooms_path: Seq<char>,
    rooms: RoomMap,
    dirs: Seq<RoomDirs>,
    n: nat,
)
    ensures
        doctor::all_room_findings(root, home, rooms_path, rooms, dirs, 0).len() == 0,
        n < rooms.keys().len() && n < dirs.len() ==> doctor::all_room_findings(
            root,
            home,
            rooms_path,
            rooms,
            dirs,
            n + 1,
        ) == doctor::all_room_findings(root, home, rooms_path, rooms, dirs, n)
            + doctor::room_findings(
            root,
            home,
            rooms_path,
            rooms.keys()[n as int],
            rooms@[rooms.keys()[n as int]]@,
            dirs[n as int],
        ),
{
}

/// Each file among the mail is inspected: one that is no mail is warned of, one that cannot be read
/// is an error, and so is delivered mail whose copy in the archive is missing or another; delivered
/// mail with the same copy is sound, and so is the archive's own.
pub proof fn mail_is_inspected_file_by_file(files: Seq<MailFile>, file: MailFile)
    ensures
        doctor::all_mail_findings(seq![]).len() == 0,
        doctor::all_mail_findings(files.push(file)) == doctor::all_mail_findings(files)
            + doctor::mail_findings(file),
        file matches MailFile::Stray { path } ==> just(
            doctor::mail_findings(file),
            "state.stray_file"@,
            DoctorSeverity::Warning,
            path@,
            false,
        ),
        file matches MailFile::Malformed { path, message } ==> just(
            doctor::mail_findings(file),
            "state.malformed_mail"@,
            DoctorSeverity::Error,
            path@,
            false,
        ) && doctor::mail_findings(file)[0].message == message@,
        file matches MailFile::Delivered { path, archive, copy } ==> {
            &&& copy is Missing ==> just(
                doctor::mail_findings(file),
                "state.archive_missing"@,
                DoctorSeverity::Error,
                archive@,
                false,
            )
            &&& copy is Different ==> just(
                doctor::mail_findings(file),
                "state.archive_mismatch"@,
                DoctorSeverity::Error,
                archive@,
                false,
            )
            &&& copy is Same || copy is Unknown ==> doctor::mail_findings(file).len() == 0
        },
        file is Archived ==> doctor::mail_findings(file).len() == 0,
{
    assert(files.push(file).drop_last() =~= files);
}

/// Each file among a channel's messages is inspected likewise.
pub proof fn messages_are_inspected_file_by_file(files: Seq<MessageFile>, file: MessageFile)
    ensures
        doctor::all_message_findings(seq![]).len() == 0,
        doctor::all_message_findings(files.push(file)) == doctor::all_message_findings(files)
            + doctor::message_findings(file),
        file matches MessageFile::Stray { path } ==> just(
            doctor::message_findings(file),
            "channels.stray_file"@,
            DoctorSeverity::Warning,
            path@,
            false,
        ),
        file matches MessageFile::Malformed { path, message } ==> just(
            doctor::message_findings(file),
            "channels.malformed_message"@,
            DoctorSeverity::Error,
            path@,
            false,
        ) && doctor::message_findings(file)[0].message == message@,
        file is Good ==> doctor::message_findings(file).len() == 0,
{
    assert(files.push(file).drop_last() =~= files);
}

/// A member that is not registered is warned of, and a registered one is not.
pub proof fn members_are_inspected_one_by_one(
    channel: Seq<char>,
    path: Seq<char>,
    keys: Seq<Seq<char>>,
    room: Seq<char>,
    rooms: Map<Seq<char>, String>,
)
    ensures
        doctor::member_findings(channel, path, seq![], rooms).len() == 0,
        rooms.contains_key(room) ==> doctor::member_findings(channel, path, keys.push(room), rooms)
            == doctor::member_findings(channel, path, keys, rooms),
        !rooms.contains_key(room) ==> {
            let before = doctor::member_findings(channel, path, keys, rooms);
            let after = doctor::member_findings(channel, path, keys.push(room), rooms);
            after.len() == before.len() + 1 && after.drop_last() == before && after.last().id
                == "channel."@ + channel + ".member_unregistered"@ && after.last().severity
                == DoctorSeverity::Warning && after.last().path == path
        },
{
    assert(keys.push(room).drop_last() =~= keys);
    if !rooms.contains_key(room) {
        assert(doctor::member_findings(channel, path, keys.push(room), rooms).drop_last()
            =~= doctor::member_findings(channel, path, keys, rooms));
    }
}

/// A channel is found at fault for its own file, for its members and for its messages, each by
/// itself: what is missing or broken is an error, and what is there is looked through.
pub proof fn channels_are_inspected(c: ChannelFacts, rooms: Map<Seq<char>, String>)
    ensures
        ({
            let found = doctor::channel_findings(c, rooms);
            let first: int = if c.info_problem is Some {
                1
            } else {
                0
            };
            let second: int = match c.members {
                MembersFile::Invalid(_) => 1,
                MembersFile::Loaded(members) => doctor::member_findings(
                    c.name@,
                    c.members_path@,
                    members.keys(),
                    rooms,
                ).len() as int,
            };
            let third: int = match c.messages {
                None => 1,
                Some(files) => doctor::all_message_findings(files@).len() as int,
            };
            &&& found.len() == first + second + third
            &&& c.info_problem is Some ==> found[0].id == "channel."@ + c.name@ + ".info_invalid"@
                && found[0].severity == DoctorSeverity::Error && found[0].path == c.info_path@
            &&& c.members is Invalid ==> found[first].id == "channel."@ + c.name@
                + ".members_invalid"@ && found[first].severity == DoctorSeverity::Error
                && found[first].path == c.members_path@
            &&& c.members matches MembersFile::Loaded(members) ==> found.subrange(
                first,
                first + second,
            ) == doctor::member_findings(c.name@, c.members_path@, members.keys(), rooms)
            &&& c.messages is None ==> found[first + second].id == "channel."@ + c.name@
                + ".messages_missing"@ && found[first + second].severity == DoctorSeverity::Error
                && found[first + second].path == c.messages_path@
            &&& c.messages matches Some(files) ==> found.skip(first + second)
                == doctor::all_message_findings(files@)
        }),
{
    let found = doctor::channel_findings(c, rooms);
    let first: int = if c.info_problem is Some {
        1
    } else {
        0
    };
    match c.members {
        MembersFile::Loaded(members) => {
            let inner = doctor::member_findings(c.name@, c.members_path@, members.keys(), rooms);
            assert(found.subrange(first, first + inner.len()) =~= inner);
            match c.messages {
                Some(files) => {
                    assert(found.skip(first + inner.len()) =~= doctor::all_message_findings(
                        files@,
                    ));
                },
                None => {},
            }
        },
        MembersFile::Invalid(_) => {
            match c.messages {
                Some(files) => {
                    assert(found.skip(first + 1) =~= doctor::all_message_findings(files@));
                },
                None => {},
            }
        },
    }
}

/// Each entry among the channels is inspected: the lock belongs there and other files do not, a
/// directory needs a channel's name, and a channel is looked through.
pub proof fn channel_entries_are_inspected_one_by_one(
    entries: Seq<ChannelEntry>,
    entry: ChannelEntry,
    rooms: Map<Seq<char>, String>,
)
    ensures
        doctor::entries_findings(seq![], rooms).len() == 0,
        doctor::entries_findings(entries.push(entry), rooms) == doctor::entries_findings(
            entries,
            rooms,
        ) + doctor::entry_findings(entry, rooms),
        entry matches ChannelEntry::File { name, path } ==> {
            &&& name@ == ".channels.lock"@ ==> doctor::entry_findings(entry, rooms).len() == 0
            &&& name@ != ".channels.lock"@ ==> just(
                doctor::entry_findings(entry, rooms),
                "channels.stray_file"@,
                DoctorSeverity::Warning,
                path@,
                false,
            )
        },
        entry matches ChannelEntry::BadName { name, path, message } ==> just(
            doctor::entry_findings(entry, rooms),
            "channel."@ + name@ + ".invalid_name"@,
            DoctorSeverity::Error,
            path@,
            false,
        ),
        entry matches ChannelEntry::Channel(c) ==> doctor::entry_findings(entry, rooms)
            == doctor::channel_findings(c, rooms),
{
    assert(entries.push(entry).drop_last() =~= entries);
}

/// A reader's cursors that cannot be read are an error, and others are none.
pub proof fn cursor_files_are_inspected_one_by_one(files: Seq<StateFile>, file: StateFile)
    ensures
        doctor::state_findings(seq![]).len() == 0,
        file.valid ==> doctor::state_findings(files.push(file)) == doctor::state_findings(files),
        !file.valid ==> {
            let after = doctor::state_findings(files.push(file));
            after.len() == doctor::state_findings(files).len() + 1 && after.drop_last()
                == doctor::state_findings(files) && after.last().id == "channel_state."@
                + file.room@ + ".invalid"@ && after.last().severity == DoctorSeverity::Error
                && after.last().path == file.path@
        },
{
    assert(files.push(file).drop_last() =~= files);
    if !file.valid {
        assert(doctor::state_findings(files.push(file)).drop_last() =~= doctor::state_findings(
            files,
        ));
    }
}

proof fn put_behind(head: Seq<CheckView>, part: Seq<CheckView>)
    ensures
        (head + part).len() == head.len() + part.len(),
        forall|one: CheckView|
            #![trigger (head + part).contains(one)]
            (head + part).contains(one) <==> head.contains(one) || part.contains(one),
{
    assert forall|one: CheckView| #![trigger (head + part).contains(one)] (head + part).contains(
        one,
    ) <==> head.contains(one) || part.contains(one) by {
        if head.contains(one) {
            let i = choose|i: int| 0 <= i < head.len() && head[i] == one;
            assert((head + part)[i] == one);
        }
        if part.contains(one) {
            let i = choose|i: int| 0 <= i < part.len() && part[i] == one;
            assert((head + part)[head.len() + i] == one);
        }
        if (head + part).contains(one) {
            let i = choose|i: int| 0 <= i < (head + part).len() && (head + part)[i] == one;
            if i < head.len() {
                assert(head[i] == one);
            } else {
                assert(part[i - head.len()] == one);
            }
        }
    }
}

/// What is found in the store is what is found in its registry, its rules, its archive, its
/// profiles, its rooms, its mail and its channels, and nothing else.
pub proof fn stores_are_inspected_part_by_part(
    root: Seq<char>,
    home: Seq<char>,
    facts: StoreFacts,
    one: CheckView,
)
    ensures
        ({
            let known = doctor::known_rooms(facts.rooms);
            doctor::store_findings(root, home, facts).contains(one) <==> {
                ||| doctor::rooms_findings(
                    home,
                    paths::join(root, "rooms.json"@),
                    facts.rooms,
                ).contains(one)
                ||| doctor::rules_findings(
                    paths::join(root, "rules.json"@),
                    facts.rules,
                    known,
                ).contains(one)
                ||| doctor::dir_findings(
                    paths::join(root, "archive"@),
                    "dir.archive"@,
                    facts.archive,
                ).contains(one)
                ||| doctor::profiles_findings(
                    paths::join(root, "profiles.json"@),
                    facts.profiles,
                    known,
                ).contains(one)
                ||| known is Some && doctor::all_room_findings(
                    root,
                    home,
                    paths::join(root, "rooms.json"@),
                    known->0,
                    facts.room_dirs@,
                    known->0.keys().len(),
                ).contains(one)
                ||| doctor::all_mail_findings(facts.mail@).contains(one)
                ||| facts.channels is Some && (doctor::entries_findings(
                    facts.channels->0.entries@,
                    facts.registered@,
                ).contains(one) || doctor::state_findings(facts.channels->0.states@).contains(one))
            }
        }),
{
    let rooms_path = paths::join(root, "rooms.json"@);
    let known = doctor::known_rooms(facts.rooms);
    let a = doctor::rooms_findings(home, rooms_path, facts.rooms);
    let b = doctor::rules_findings(paths::join(root, "rules.json"@), facts.rules, known);
    let c = doctor::dir_findings(paths::join(root, "archive"@), "dir.archive"@, facts.archive);
    let d = doctor::profiles_findings(
        paths::join(root, "profiles.json"@),
        facts.profiles,
        known,
    );
    let e = match known {
        Some(rooms) => doctor::all_room_findings(
            root,
            home,
            rooms_path,
            rooms,
            facts.room_dirs@,
            rooms.keys().len(),
        ),
        None => seq![],
    };
    let f = doctor::all_mail_findings(facts.mail@);
    let g = match facts.channels {
        Some(channels) => doctor::entries_findings(channels.entries@, facts.registered@)
            + doctor::state_findings(channels.states@),
        None => seq![],
    };
    put_behind(a, b);
    put_behind(a + b, c);
    put_behind(a + b + c, d);
    put_behind(a + b + c + d, e);
    put_behind(a + b + c + d + e, f);
    put_behind(a + b + c + d + e + f, g);
    assert(doctor::store_findings(root, home, facts) == a + b + c + d + e + f + g);
    assert(facts.channels is Some ==> (g.contains(one) <==> doctor::entries_findings(
        facts.channels->0.entries@,
        facts.registered@,
    ).contains(one) || doctor::state_findings(facts.channels->0.states@).contains(one))) by {
        if facts.channels is Some {
            put_behind(
                doctor::entries_findings(facts.channels->0.entries@, facts.registered@),
                doctor::state_findings(facts.channels->0.states@),
            );
        }
    }
    assert((a + b + c + d + e + f + g).contains(one) <==> (a + b + c + d + e + f).contains(one)
        || g.contains(one));
    assert((a + b + c + d + e + f).contains(one) <==> (a + b + c + d + e).contains(one)
        || f.contains(one));
    assert((a + b + c + d + e).contains(one) <==> (a + b + c + d).contains(one) || e.contains(one));
    assert((a + b + c + d).contains(one) <==> (a + b + c).contains(one) || d.contains(one));
    assert((a + b + c).contains(one) <==> (a + b).contains(one) || c.contains(one));
    assert((a + b).contains(one) <==> a.contains(one) || b.contains(one));
}

/// A missing store is one finding, and it can be repaired.
pub proof fn missing_stores_are_found(root: Seq<char>)
    ensures
        just(
            seq![doctor::root_missing(root)],
            "root.missing"@,
            DoctorSeverity::Error,
            root,
            true,
        ),
{
}

/// A store without findings is healthy, one with an error is broken, and one with warnings alone is
/// degraded.
pub proof fn the_status_tells_the_worst(checks: Seq<DoctorCheck>)
    ensures
        checks.len() == 0 ==> doctor::status_of(checks) == "healthy"@,
        (exists|i: int|
            0 <= i < checks.len() && (#[trigger] checks[i]).severity == DoctorSeverity::Error)
            ==> doctor::status_of(checks) == "broken"@,
        checks.len() > 0 && (forall|i: int|
            0 <= i < checks.len() ==> (#[trigger] checks[i]).severity == DoctorSeverity::Warning)
            ==> doctor::status_of(checks) == "degraded"@,
{
}

/// The findings are listed in the order of their ids and their places, and none is lost or added.
pub proof fn findings_are_listed_in_order(
    checks: Seq<DoctorCheck>,
    wanted: Seq<CheckView>,
    one: CheckView,
    i: int,
    j: int,
)
    requires
        doctor::are_findings(checks, wanted),
    ensures
        checks.len() == wanted.len(),
        wanted.contains(one) <==> output::checks_view(checks).contains(one),
        0 <= i < j < checks.len() ==> text::lt(checks[i].id@, checks[j].id@) || (checks[i].id@
            == checks[j].id@ && (checks[i].path@ == checks[j].path@ || text::lt(
            checks[i].path@,
            checks[j].path@,
        ))),
{
    broadcast use vstd::seq_lib::group_to_multiset_ensures;

    let raw = choose|raw: Seq<DoctorCheck>| #[trigger]
        order::stable_sort_of(raw, checks) && output::checks_view(raw) == wanted;
    assert(raw.len() == raw.to_multiset().len());
    assert(checks.len() == checks.to_multiset().len());
    assert forall|c: DoctorCheck| raw.contains(c) <==> #[trigger] checks.contains(c) by {
        assert(raw.contains(c) <==> raw.to_multiset().count(c) > 0);
        assert(checks.contains(c) <==> checks.to_multiset().count(c) > 0);
    }
    if wanted.contains(one) {
        let k = choose|k: int| 0 <= k < wanted.len() && wanted[k] == one;
        assert(raw[k]@ == one);
        assert(raw.contains(raw[k]));
        assert(checks.contains(raw[k]));
        let m = choose|m: int| 0 <= m < checks.len() && checks[m] == raw[k];
        assert(output::checks_view(checks)[m] == one);
    }
    if output::checks_view(checks).contains(one) {
        let m = choose|m: int|
            0 <= m < output::checks_view(checks).len() && output::checks_view(checks)[m] == one;
        assert(checks.contains(checks[m]));
        assert(raw.contains(checks[m]));
        let k = choose|k: int| 0 <= k < raw.len() && raw[k] == checks[m];
        assert(wanted[k] == one);
    }
}

/// A finding is seen as it is.
pub proof fn findings_are_seen_as_they_are(check: DoctorCheck)
    ensures
        check@.id == check.id@,
        check@.severity == check.severity,
        check@.path == check.path@,
        check@.message == check.message@,
        check@.fixable == check.fixable,
        check@.suggested_fix == check.suggested_fix@,
{
}

/// A repair makes two directories for each registered room: its inbox and its read store.
pub proof fn repairs_make_both_directories(
    root: Seq<char>,
    keys: Seq<Seq<char>>,
    room: Seq<char>,
)
    ensures
        doctor::mailbox_dirs_of(root, seq![]).len() == 0,
        doctor::mailbox_dirs_of(root, keys.push(room)) == doctor::mailbox_dirs_of(root, keys).push(
            paths::join(paths::join(root, room), "inbox"@),
        ).push(paths::join(paths::join(root, room), "read"@)),
{
    assert(keys.push(room).drop_last() =~= keys);
}

} // verus!
