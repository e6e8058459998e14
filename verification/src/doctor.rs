//! Diagnosis of a mail store: what is wrong with it, from what was found on disk.
use crate::context;
use crate::context::Context;
use crate::model;
use crate::model::RulesConfig;
use crate::names;
use crate::order;
use crate::output;
use crate::output::{DoctorCheck, DoctorOutput, DoctorSeverity};
use crate::paths;
use crate::profile;
use crate::profile::ProfileMap;
use crate::schema;
use crate::text;
use crate::textmap::{MemberMap, RoomMap};
use vstd::prelude::*;

verus! {

/// The kinds of findings, by how bad they are.
pub open spec fn finding(
    id: Seq<char>,
    severity: DoctorSeverity,
    path: Seq<char>,
    message: Seq<char>,
    fixable: bool,
    suggested_fix: Seq<char>,
) -> output::CheckView {
    output::CheckView { id, severity, path, message, fixable, suggested_fix }
}

fn add_check(
    checks: &mut Vec<DoctorCheck>,
    id: &str,
    severity: DoctorSeverity,
    path: &str,
    message: &str,
    fixable: bool,
    suggested_fix: &str,
)
    ensures
        output::checks_view(final(checks)@) == output::checks_view(old(checks)@).push(
            finding(id@, severity, path@, message@, fixable, suggested_fix@),
        ),
{
    let ghost before = output::checks_view(checks@);
    checks.push(
        DoctorCheck {
            id: id.to_owned(),
            severity,
            path: path.to_owned(),
            message: message.to_owned(),
            fixable,
            suggested_fix: suggested_fix.to_owned(),
        },
    );
    assert(output::checks_view(checks@) =~= before.push(
        finding(id@, severity, path@, message@, fixable, suggested_fix@),
    ));
}

// ---------------------------------------------------------------------------
// Configuration
// ---------------------------------------------------------------------------
/// The registry of rooms, as it was found.
#[derive(Debug)]
pub enum RoomsFile {
    Missing,
    /// It is not JSON of the right shape.
    Invalid,
    Parsed(RoomMap),
}

pub open spec fn rooms_invalid(path: Seq<char>) -> output::CheckView {
    finding(
        "config.rooms_invalid"@,
        DoctorSeverity::Error,
        path,
        "rooms.json is not a non-empty JSON object of string paths"@,
        false,
        "Correct rooms.json by hand; `post doctor --fix` never overwrites config content."@,
    )
}

/// What is wrong with one entry of the registry.
pub open spec fn room_entry_findings(
    home: Seq<char>,
    path: Seq<char>,
    name: Seq<char>,
    value: Seq<char>,
) -> Seq<output::CheckView> {
    (match names::room_name_fault(name) {
        Some(reason) => seq![
            finding(
                "config.room_name."@ + name,
                DoctorSeverity::Error,
                path,
                reason,
                false,
                "Replace the invalid key in rooms.json with one path-safe component."@,
            ),
        ],
        None => seq![],
    }) + (match context::expanded(home, value) {
        Err(reason) => seq![
            finding(
                "config.room_path."@ + name,
                DoctorSeverity::Error,
                path,
                reason,
                false,
                "Replace the invalid room path with an absolute or '~/...' path."@,
            ),
        ],
        Ok(_) => seq![],
    })
}

/// What is wrong with the first entries of the registry.
pub open spec fn room_entries_findings(
    home: Seq<char>,
    path: Seq<char>,
    keys: Seq<Seq<char>>,
    rooms: Map<Seq<char>, String>,
    n: nat,
) -> Seq<output::CheckView>
    decreases n,
{
    if n == 0 {
        seq![]
    } else {
        room_entries_findings(home, path, keys, rooms, (n - 1) as nat) + room_entry_findings(
            home,
            path,
            keys[n - 1],
            rooms[keys[n - 1]]@,
        )
    }
}

/// What is wrong with the registry.
pub open spec fn rooms_findings(home: Seq<char>, path: Seq<char>, file: RoomsFile) -> Seq<
    output::CheckView,
> {
    match file {
        RoomsFile::Missing => seq![
            finding(
                "config.rooms_missing"@,
                DoctorSeverity::Error,
                path,
                "rooms.json is missing"@,
                true,
                "Run `post doctor --fix` to create the default rooms.json."@,
            ),
        ],
        RoomsFile::Invalid => seq![rooms_invalid(path)],
        RoomsFile::Parsed(rooms) => if rooms.keys().len() == 0 {
            seq![rooms_invalid(path)]
        } else {
            room_entries_findings(home, path, rooms.keys(), rooms@, rooms.keys().len())
        },
    }
}

pub fn detect_rooms(context: &Context, path: &str, file: &RoomsFile, checks: &mut Vec<DoctorCheck>)
    ensures
        output::checks_view(final(checks)@) == output::checks_view(old(checks)@) + rooms_findings(
            context.home@,
            path@,
            *file,
        ),
{
    let ghost before = output::checks_view(checks@);
    match file {
        RoomsFile::Missing => {
            add_check(
                checks,
                "config.rooms_missing",
                DoctorSeverity::Error,
                path,
                "rooms.json is missing",
                true,
                "Run `post doctor --fix` to create the default rooms.json.",
            );
        },
        RoomsFile::Invalid => {
            add_check(
                checks,
                "config.rooms_invalid",
                DoctorSeverity::Error,
                path,
                "rooms.json is not a non-empty JSON object of string paths",
                false,
                "Correct rooms.json by hand; `post doctor --fix` never overwrites config content.",
            );
        },
        RoomsFile::Parsed(rooms) => {
            let count: usize = rooms.len();
            if count == 0 {
                add_check(
                    checks,
                    "config.rooms_invalid",
                    DoctorSeverity::Error,
                    path,
                    "rooms.json is not a non-empty JSON object of string paths",
                    false,
                    "Correct rooms.json by hand; `post doctor --fix` never overwrites config content.",
                );
                return;
            }
            assert(before =~= before + room_entries_findings(
                context.home@,
                path@,
                rooms.keys(),
                rooms@,
                0,
            ));
            for i in 0..count
                invariant
                    count == rooms.keys().len(),
                    output::checks_view(checks@) == before + room_entries_findings(
                        context.home@,
                        path@,
                        rooms.keys(),
                        rooms@,
                        i as nat,
                    ),
            {
                let ghost start = output::checks_view(checks@);
                let name = rooms.key_at(i).as_str();
                let value = rooms.value_at(i).as_str();
                let ghost part = room_entry_findings(context.home@, path@, name@, value@);
                match names::validate_room_name(name) {
                    Ok(_) => {},
                    Err(reason) => {
                        add_check(
                            checks,
                            text::cat2("config.room_name.", name).as_str(),
                            DoctorSeverity::Error,
                            path,
                            reason.as_str(),
                            false,
                            "Replace the invalid key in rooms.json with one path-safe component.",
                        );
                    },
                }
                match context.expand_room_path(value) {
                    Ok(_) => {},
                    Err(reason) => {
                        add_check(
                            checks,
                            text::cat2("config.room_path.", name).as_str(),
                            DoctorSeverity::Error,
                            path,
                            reason.as_str(),
                            false,
                            "Replace the invalid room path with an absolute or '~/...' path.",
                        );
                    },
                }
                assert(output::checks_view(checks@) =~= start + part);
                assert(output::checks_view(checks@) =~= before + room_entries_findings(
                    context.home@,
                    path@,
                    rooms.keys(),
                    rooms@,
                    (i + 1) as nat,
                ));
            }
        },
    }
}

/// The rooms that the other checks go by: those of a registry that could be read.
pub open spec fn known_rooms(file: RoomsFile) -> Option<RoomMap> {
    match file {
        RoomsFile::Parsed(rooms) => if rooms.keys().len() > 0 {
            Some(rooms)
        } else {
            None
        },
        _ => None,
    }
}

fn usable_rooms(file: &RoomsFile) -> (r: Option<&RoomMap>)
    ensures
        match r {
            Some(rooms) => known_rooms(*file) == Some(*rooms),
            None => known_rooms(*file) is None,
        },
{
    match file {
        RoomsFile::Parsed(rooms) => if rooms.len() > 0 {
            Some(rooms)
        } else {
            None
        },
        _ => None,
    }
}

/// The routing rules, as they were found.
#[derive(Debug)]
pub enum RulesFile {
    Missing,
    Invalid,
    Parsed(RulesConfig),
}

/// Whether a rule cannot stand.
pub open spec fn bad_rule(rule: model::RuleView, rooms: Option<RoomMap>) -> bool {
    ||| text::blank(rule.from)
    ||| text::blank(rule.to)
    ||| text::blank(rule.reason)
    ||| (rule.from != "*"@ && names::component_fault(rule.from) is Some)
    ||| (rule.to != "*"@ && names::component_fault(rule.to) is Some)
    ||| (rule.to != "*"@ && rooms is Some && !rooms->0@.contains_key(rule.to))
}

/// What is wrong with the first rules.
pub open spec fn rule_findings(
    path: Seq<char>,
    rules: Seq<model::RuleView>,
    rooms: Option<RoomMap>,
) -> Seq<output::CheckView>
    decreases rules.len(),
{
    if rules.len() == 0 {
        seq![]
    } else {
        let before = rule_findings(path, rules.drop_last(), rooms);
        let index = text::decimal((rules.len() - 1) as nat);
        if bad_rule(rules.last(), rooms) {
            before.push(
                finding(
                    "config.rule."@ + index,
                    DoctorSeverity::Error,
                    path,
                    "blocked["@ + index
                        + "] has empty/unsafe fields or names unknown recipient '"@
                        + rules.last().to + "'"@,
                    false,
                    "Correct the named blocked rule in rules.json by hand."@,
                ),
            )
        } else {
            before
        }
    }
}

/// What is wrong with the rules.
pub open spec fn rules_findings(path: Seq<char>, file: RulesFile, rooms: Option<RoomMap>) -> Seq<
    output::CheckView,
> {
    match file {
        RulesFile::Missing => seq![
            finding(
                "config.rules_missing"@,
                DoctorSeverity::Error,
                path,
                "rules.json is missing"@,
                true,
                "Run `post doctor --fix` to create the default rules.json."@,
            ),
        ],
        RulesFile::Invalid => seq![
            finding(
                "config.rules_invalid"@,
                DoctorSeverity::Error,
                path,
                "rules.json does not match {\"blocked\":[{\"from\",\"to\",\"reason\"}]} with strings"@,
                false,
                "Correct rules.json by hand; `post doctor --fix` never overwrites rule content."@,
            ),
        ],
        RulesFile::Parsed(rules) => rule_findings(path, model::rules_view(rules.blocked@), rooms),
    }
}

pub fn detect_rules(
    path: &str,
    file: &RulesFile,
    rooms: Option<&RoomMap>,
    checks: &mut Vec<DoctorCheck>,
)
    ensures
        output::checks_view(final(checks)@) == output::checks_view(old(checks)@) + rules_findings(
            path@,
            *file,
            match rooms {
                Some(map) => Some(*map),
                None => None,
            },
        ),
{
    let ghost before = output::checks_view(checks@);
    let ghost known: Option<RoomMap> = match rooms {
        Some(map) => Some(*map),
        None => None,
    };
    match file {
        RulesFile::Missing => {
            add_check(
                checks,
                "config.rules_missing",
                DoctorSeverity::Error,
                path,
                "rules.json is missing",
                true,
                "Run `post doctor --fix` to create the default rules.json.",
            );
        },
        RulesFile::Invalid => {
            add_check(
                checks,
                "config.rules_invalid",
                DoctorSeverity::Error,
                path,
                "rules.json does not match {\"blocked\":[{\"from\",\"to\",\"reason\"}]} with strings",
                false,
                "Correct rules.json by hand; `post doctor --fix` never overwrites rule content.",
            );
        },
        RulesFile::Parsed(rules) => {
            let ghost all = model::rules_view(rules.blocked@);
            assert(before =~= before + rule_findings(path@, all.take(0), known));
            for i in 0..rules.blocked.len()
                invariant
                    all == model::rules_view(rules.blocked@),
                    known == (match rooms {
                        Some(map) => Some(*map),
                        None => None,
                    }),
                    output::checks_view(checks@) == before + rule_findings(
                        path@,
                        all.take(i as int),
                        known,
                    ),
            {
                let ghost start = output::checks_view(checks@);
                let ghost part = rule_findings(path@, all.take(i as int), known);
                assert(all.take(i + 1).drop_last() =~= all.take(i as int));
                assert(all.take(i + 1).last() == rules.blocked@[i as int]@);
                let rule = &rules.blocked[i];
                let any_from: bool = text::same(rule.from.as_str(), "*");
                let any_to: bool = text::same(rule.to.as_str(), "*");
                let unknown: bool = match rooms {
                    Some(map) => !map.contains_key(rule.to.as_str()),
                    None => false,
                };
                if text::is_blank(rule.from.as_str()) || text::is_blank(rule.to.as_str())
                    || text::is_blank(rule.reason.as_str()) || (!any_from
                    && names::validate_component(rule.from.as_str()).is_err()) || (!any_to
                    && names::validate_component(rule.to.as_str()).is_err()) || (!any_to
                    && unknown) {
                    let index = text::decimal_text(i as u64);
                    add_check(
                        checks,
                        text::cat2("config.rule.", index.as_str()).as_str(),
                        DoctorSeverity::Error,
                        path,
                        text::cat5(
                            "blocked[",
                            index.as_str(),
                            "] has empty/unsafe fields or names unknown recipient '",
                            rule.to.as_str(),
                            "'",
                        ).as_str(),
                        false,
                        "Correct the named blocked rule in rules.json by hand.",
                    );
                }
                assert(output::checks_view(checks@) =~= before + rule_findings(
                    path@,
                    all.take(i + 1),
                    known,
                ));
            }
            assert(all.take(all.len() as int) =~= all);
        },
    }
}

/// What is wrong with a directory that must exist.
pub open spec fn dir_findings(path: Seq<char>, id: Seq<char>, exists_there: bool) -> Seq<
    output::CheckView,
> {
    if exists_there {
        seq![]
    } else {
        seq![
            finding(
                id,
                DoctorSeverity::Error,
                path,
                "required mailbox directory is missing"@,
                true,
                "Run `post doctor --fix` to create missing mailbox directories."@,
            ),
        ]
    }
}

pub fn detect_dir(path: &str, id: &str, exists_there: bool, checks: &mut Vec<DoctorCheck>)
    ensures
        output::checks_view(final(checks)@) == output::checks_view(old(checks)@) + dir_findings(
            path@,
            id@,
            exists_there,
        ),
{
    let ghost before = output::checks_view(checks@);
    if !exists_there {
        add_check(
            checks,
            id,
            DoctorSeverity::Error,
            path,
            "required mailbox directory is missing",
            true,
            "Run `post doctor --fix` to create missing mailbox directories.",
        );
    }
    assert(output::checks_view(checks@) =~= before + dir_findings(path@, id@, exists_there));
}

/// The registry of profiles, as it was found.
#[derive(Debug)]
pub enum ProfilesFile {
    Absent,
    /// It could not be loaded; the text says why.
    Invalid(String),
    Parsed(ProfileMap),
}

/// Whether a stored profile shows nothing, or less than it says.
pub open spec fn inert_profile(
    room: Seq<char>,
    stored: profile::ProfileView,
    rooms: RoomMap,
) -> bool {
    !rooms@.contains_key(room) || profile::valid_part(stored, room, rooms.keys()) != stored
}

/// What is wrong with the first stored profiles.
pub open spec fn profile_findings(
    path: Seq<char>,
    keys: Seq<Seq<char>>,
    profiles: Map<Seq<char>, profile::Profile>,
    rooms: RoomMap,
    n: nat,
) -> Seq<output::CheckView>
    decreases n,
{
    if n == 0 {
        seq![]
    } else {
        let before = profile_findings(path, keys, profiles, rooms, (n - 1) as nat);
        let room = keys[n - 1];
        if inert_profile(room, profiles[room]@, rooms) {
            before.push(
                finding(
                    "profiles."@ + room + ".inert"@,
                    DoctorSeverity::Warning,
                    path,
                    "stored profile entry no longer validates (or its room is unregistered) and will not stamp or render"@,
                    false,
                    "Re-run `post profile set` from that room, or remove the entry."@,
                ),
            )
        } else {
            before
        }
    }
}

/// What is wrong with the profiles. They decide no delivery, so nothing here is an error.
pub open spec fn profiles_findings(
    path: Seq<char>,
    file: ProfilesFile,
    rooms: Option<RoomMap>,
) -> Seq<output::CheckView> {
    match file {
        ProfilesFile::Absent => seq![],
        ProfilesFile::Invalid(problem) => seq![
            finding(
                "profiles.invalid"@,
                DoctorSeverity::Warning,
                path,
                "profile registry cannot be loaded ("@ + problem@
                    + "); sends still deliver but stamp no profiles until it parses"@,
                false,
                "Fix or delete profiles.json by hand; `post profile set` will recreate it."@,
            ),
        ],
        ProfilesFile::Parsed(profiles) => match rooms {
            Some(map) => profile_findings(
                path,
                profiles.keys(),
                profiles@,
                map,
                profiles.keys().len(),
            ),
            None => seq![],
        },
    }
}

pub fn detect_profiles(
    path: &str,
    file: &ProfilesFile,
    rooms: Option<&RoomMap>,
    checks: &mut Vec<DoctorCheck>,
)
    ensures
        output::checks_view(final(checks)@) == output::checks_view(old(checks)@)
            + profiles_findings(
            path@,
            *file,
            match rooms {
                Some(map) => Some(*map),
                None => None,
            },
        ),
{
    let ghost before = output::checks_view(checks@);
    match file {
        ProfilesFile::Absent => {
            assert(before =~= before + seq![]);
        },
        ProfilesFile::Invalid(problem) => {
            add_check(
                checks,
                "profiles.invalid",
                DoctorSeverity::Warning,
                path,
                text::cat3(
                    "profile registry cannot be loaded (",
                    problem.as_str(),
                    "); sends still deliver but stamp no profiles until it parses",
                ).as_str(),
                false,
                "Fix or delete profiles.json by hand; `post profile set` will recreate it.",
            );
        },
        ProfilesFile::Parsed(profiles) => match rooms {
            Some(map) => {
                let count: usize = profiles.len();
                assert(before =~= before + profile_findings(
                    path@,
                    profiles.keys(),
                    profiles@,
                    *map,
                    0,
                ));
                for i in 0..count
                    invariant
                        count == profiles.keys().len(),
                        output::checks_view(checks@) == before + profile_findings(
                            path@,
                            profiles.keys(),
                            profiles@,
                            *map,
                            i as nat,
                        ),
                {
                    let ghost part = profile_findings(
                        path@,
                        profiles.keys(),
                        profiles@,
                        *map,
                        i as nat,
                    );
                    let room = profiles.key_at(i).as_str();
                    let stored = profiles.value_at(i);
                    let mut cleaned = stored.clone();
                    let dropped: bool = profile::drop_invalid_fields(&mut cleaned, room, map);
                    if !map.contains_key(room) || dropped {
                        add_check(
                            checks,
                            text::cat3("profiles.", room, ".inert").as_str(),
                            DoctorSeverity::Warning,
                            path,
                            "stored profile entry no longer validates (or its room is unregistered) and will not stamp or render",
                            false,
                            "Re-run `post profile set` from that room, or remove the entry.",
                        );
                    }
                    assert(output::checks_view(checks@) =~= before + profile_findings(
                        path@,
                        profiles.keys(),
                        profiles@,
                        *map,
                        (i + 1) as nat,
                    ));
                }
            },
            None => {
                assert(before =~= before + seq![]);
            },
        },
    }
}

// ---------------------------------------------------------------------------
// Rooms
// ---------------------------------------------------------------------------
/// Which directories of a room exist.
#[derive(Debug, Clone, Copy)]
pub struct RoomDirs {
    pub workspace: bool,
    pub inbox: bool,
    pub read: bool,
}

/// What is wrong with the directories of a room.
pub open spec fn room_findings(
    root: Seq<char>,
    home: Seq<char>,
    rooms_path: Seq<char>,
    name: Seq<char>,
    value: Seq<char>,
    dirs: RoomDirs,
) -> Seq<output::CheckView> {
    let room_dir = paths::join(root, name);
    (match context::expanded(home, value) {
        Ok(workspace) => if dirs.workspace {
            seq![]
        } else {
            seq![
                finding(
                    "room."@ + name + ".workspace_missing"@,
                    DoctorSeverity::Warning,
                    workspace,
                    "registered workspace for room '"@ + name + "' does not exist"@,
                    false,
                    "Create the workspace or correct its path in rooms.json by hand."@,
                ),
            ]
        },
        Err(reason) => seq![
            finding(
                "room."@ + name + ".path_invalid"@,
                DoctorSeverity::Error,
                rooms_path,
                reason,
                false,
                "Correct the room path in rooms.json by hand."@,
            ),
        ],
    }) + dir_findings(
        paths::join(room_dir, "inbox"@),
        "room."@ + name + ".inbox_missing"@,
        dirs.inbox,
    ) + dir_findings(
        paths::join(room_dir, "read"@),
        "room."@ + name + ".read_missing"@,
        dirs.read,
    )
}

pub fn detect_room(
    context: &Context,
    rooms_path: &str,
    name: &str,
    value: &str,
    dirs: RoomDirs,
    checks: &mut Vec<DoctorCheck>,
)
    ensures
        output::checks_view(final(checks)@) == output::checks_view(old(checks)@) + room_findings(
            context.root@,
            context.home@,
            rooms_path@,
            name@,
            value@,
            dirs,
        ),
{
    let ghost before = output::checks_view(checks@);
    match context.expand_room_path(value) {
        Ok(workspace) => {
            if !dirs.workspace {
                add_check(
                    checks,
                    text::cat3("room.", name, ".workspace_missing").as_str(),
                    DoctorSeverity::Warning,
                    workspace.as_str(),
                    text::cat3(
                        "registered workspace for room '",
                        name,
                        "' does not exist",
                    ).as_str(),
                    false,
                    "Create the workspace or correct its path in rooms.json by hand.",
                );
            }
        },
        Err(reason) => {
            add_check(
                checks,
                text::cat3("room.", name, ".path_invalid").as_str(),
                DoctorSeverity::Error,
                rooms_path,
                reason.as_str(),
                false,
                "Correct the room path in rooms.json by hand.",
            );
        },
    }
    let room_dir = context.file(name);
    detect_dir(
        paths::join_path(room_dir.as_str(), "inbox").as_str(),
        text::cat3("room.", name, ".inbox_missing").as_str(),
        dirs.inbox,
        checks,
    );
    detect_dir(
        paths::join_path(room_dir.as_str(), "read").as_str(),
        text::cat3("room.", name, ".read_missing").as_str(),
        dirs.read,
        checks,
    );
    assert(output::checks_view(checks@) =~= before + room_findings(
        context.root@,
        context.home@,
        rooms_path@,
        name@,
        value@,
        dirs,
    ));
}

/// What is wrong with the directories of the first rooms. A room of which nothing is known
/// has none.
pub open spec fn all_room_findings(
    root: Seq<char>,
    home: Seq<char>,
    rooms_path: Seq<char>,
    rooms: RoomMap,
    dirs: Seq<RoomDirs>,
    n: nat,
) -> Seq<output::CheckView>
    decreases n,
{
    if n == 0 {
        seq![]
    } else {
        let name = rooms.keys()[n - 1];
        all_room_findings(root, home, rooms_path, rooms, dirs, (n - 1) as nat) + room_findings(
            root,
            home,
            rooms_path,
            name,
            rooms@[name]@,
            if n - 1 < dirs.len() {
                dirs[n - 1]
            } else {
                RoomDirs { workspace: false, inbox: false, read: false }
            },
        )
    }
}

fn detect_all_rooms(
    context: &Context,
    rooms_path: &str,
    rooms: &RoomMap,
    dirs: &Vec<RoomDirs>,
    checks: &mut Vec<DoctorCheck>,
)
    ensures
        output::checks_view(final(checks)@) == output::checks_view(old(checks)@)
            + all_room_findings(
            context.root@,
            context.home@,
            rooms_path@,
            *rooms,
            dirs@,
            rooms.keys().len(),
        ),
{
    let ghost before = output::checks_view(checks@);
    let count: usize = rooms.len();
    assert(before =~= before + all_room_findings(
        context.root@,
        context.home@,
        rooms_path@,
        *rooms,
        dirs@,
        0,
    ));
    for i in 0..count
        invariant
            count == rooms.keys().len(),
            output::checks_view(checks@) == before + all_room_findings(
                context.root@,
                context.home@,
                rooms_path@,
                *rooms,
                dirs@,
                i as nat,
            ),
    {
        let there: RoomDirs = if i < dirs.len() {
            dirs[i]
        } else {
            RoomDirs { workspace: false, inbox: false, read: false }
        };
        detect_room(
            context,
            rooms_path,
            rooms.key_at(i).as_str(),
            rooms.value_at(i).as_str(),
            there,
            checks,
        );
        assert(output::checks_view(checks@) =~= before + all_room_findings(
            context.root@,
            context.home@,
            rooms_path@,
            *rooms,
            dirs@,
            (i + 1) as nat,
        ));
    }
}

// ---------------------------------------------------------------------------
// Mail
// ---------------------------------------------------------------------------
/// How the archive copy of a delivered mail compares with it.
#[derive(Debug, Clone, Copy, PartialEq, Eq, Structural)]
pub enum ArchiveCopy {
    Same,
    Missing,
    Different,
    /// One of the two could not be read.
    Unknown,
}

/// A file in an inbox, a read store or the archive.
#[derive(Debug)]
pub enum MailFile {
    /// It is no mail.
    Stray { path: String },
    Malformed { path: String, message: String },
    /// A mail in an inbox or a read store.
    Delivered { path: String, archive: String, copy: ArchiveCopy },
    /// A mail in the archive.
    Archived,
}

/// What is wrong with a mail file.
pub open spec fn mail_findings(file: MailFile) -> Seq<output::CheckView> {
    match file {
        MailFile::Stray { path } => seq![
            finding(
                "state.stray_file"@,
                DoctorSeverity::Warning,
                path@,
                "mailbox directory contains a non-.mail file"@,
                false,
                "Inspect the file and move it outside the mailbox by hand if it does not belong."@,
            ),
        ],
        MailFile::Malformed { path, message } => seq![
            finding(
                "state.malformed_mail"@,
                DoctorSeverity::Error,
                path@,
                message@,
                false,
                "Restore a valid envelope/body separator or move the file aside by hand; nothing is deleted."@,
            ),
        ],
        MailFile::Delivered { path, archive, copy } => match copy {
            ArchiveCopy::Missing => seq![
                finding(
                    "state.archive_missing"@,
                    DoctorSeverity::Error,
                    archive@,
                    "delivered mail '"@ + path@ + "' has no archive copy"@,
                    false,
                    "Copy the delivered .mail file into archive with an exclusive no-replace write; do not resend it."@,
                ),
            ],
            ArchiveCopy::Different => seq![
                finding(
                    "state.archive_mismatch"@,
                    DoctorSeverity::Error,
                    archive@,
                    "archive content differs from delivered mail '"@ + path@ + "'"@,
                    false,
                    "Inspect both immutable copies and reconcile them by hand without deleting either one."@,
                ),
            ],
            _ => seq![],
        },
        MailFile::Archived => seq![],
    }
}

/// What is wrong with some mail files.
pub open spec fn all_mail_findings(files: Seq<MailFile>) -> Seq<output::CheckView>
    decreases files.len(),
{
    if files.len() == 0 {
        seq![]
    } else {
        all_mail_findings(files.drop_last()) + mail_findings(files.last())
    }
}

pub fn detect_mail(files: &Vec<MailFile>, checks: &mut Vec<DoctorCheck>)
    ensures
        output::checks_view(final(checks)@) == output::checks_view(old(checks)@)
            + all_mail_findings(files@),
{
    let ghost before = output::checks_view(checks@);
    assert(before =~= before + all_mail_findings(files@.take(0)));
    for i in 0..files.len()
        invariant
            output::checks_view(checks@) == before + all_mail_findings(files@.take(i as int)),
    {
        assert(files@.take(i + 1).drop_last() =~= files@.take(i as int));
        match &files[i] {
            MailFile::Stray { path } => {
                add_check(
                    checks,
                    "state.stray_file",
                    DoctorSeverity::Warning,
                    path.as_str(),
                    "mailbox directory contains a non-.mail file",
                    false,
                    "Inspect the file and move it outside the mailbox by hand if it does not belong.",
                );
            },
            MailFile::Malformed { path, message } => {
                add_check(
                    checks,
                    "state.malformed_mail",
                    DoctorSeverity::Error,
                    path.as_str(),
                    message.as_str(),
                    false,
                    "Restore a valid envelope/body separator or move the file aside by hand; nothing is deleted.",
                );
            },
            MailFile::Delivered { path, archive, copy } => {
                if *copy == ArchiveCopy::Missing {
                    add_check(
                        checks,
                        "state.archive_missing",
                        DoctorSeverity::Error,
                        archive.as_str(),
                        text::cat3(
                            "delivered mail '",
                            path.as_str(),
                            "' has no archive copy",
                        ).as_str(),
                        false,
                        "Copy the delivered .mail file into archive with an exclusive no-replace write; do not resend it.",
                    );
                } else if *copy == ArchiveCopy::Different {
                    add_check(
                        checks,
                        "state.archive_mismatch",
                        DoctorSeverity::Error,
                        archive.as_str(),
                        text::cat3(
                            "archive content differs from delivered mail '",
                            path.as_str(),
                            "'",
                        ).as_str(),
                        false,
                        "Inspect both immutable copies and reconcile them by hand without deleting either one.",
                    );
                }
            },
            MailFile::Archived => {},
        }
        assert(output::checks_view(checks@) =~= before + all_mail_findings(files@.take(i + 1)));
    }
    assert(files@.take(files@.len() as int) =~= files@);
}

// ---------------------------------------------------------------------------
// Channels
// ---------------------------------------------------------------------------
/// A file among the messages of a channel.
#[derive(Debug)]
pub enum MessageFile {
    Stray { path: String },
    Malformed { path: String, message: String },
    Good,
}

/// What is wrong with a message file.
pub open spec fn message_findings(file: MessageFile) -> Seq<output::CheckView> {
    match file {
        MessageFile::Stray { path } => seq![
            finding(
                "channels.stray_file"@,
                DoctorSeverity::Warning,
                path@,
                "channel messages/ directory contains a non-.msg file"@,
                false,
                "Inspect the file and move it outside the channel by hand if it does not belong."@,
            ),
        ],
        MessageFile::Malformed { path, message } => seq![
            finding(
                "channels.malformed_message"@,
                DoctorSeverity::Error,
                path@,
                message@,
                false,
                "Restore a valid .msg envelope/body separator or move the file aside by hand; nothing is deleted."@,
            ),
        ],
        MessageFile::Good => seq![],
    }
}

/// What is wrong with some message files.
pub open spec fn all_message_findings(files: Seq<MessageFile>) -> Seq<output::CheckView>
    decreases files.len(),
{
    if files.len() == 0 {
        seq![]
    } else {
        all_message_findings(files.drop_last()) + message_findings(files.last())
    }
}

fn detect_messages(files: &Vec<MessageFile>, checks: &mut Vec<DoctorCheck>)
    ensures
        output::checks_view(final(checks)@) == output::checks_view(old(checks)@)
            + all_message_findings(files@),
{
    let ghost before = output::checks_view(checks@);
    assert(before =~= before + all_message_findings(files@.take(0)));
    for i in 0..files.len()
        invariant
            output::checks_view(checks@) == before + all_message_findings(files@.take(i as int)),
    {
        assert(files@.take(i + 1).drop_last() =~= files@.take(i as int));
        match &files[i] {
            MessageFile::Stray { path } => {
                add_check(
                    checks,
                    "channels.stray_file",
                    DoctorSeverity::Warning,
                    path.as_str(),
                    "channel messages/ directory contains a non-.msg file",
                    false,
                    "Inspect the file and move it outside the channel by hand if it does not belong.",
                );
            },
            MessageFile::Malformed { path, message } => {
                add_check(
                    checks,
                    "channels.malformed_message",
                    DoctorSeverity::Error,
                    path.as_str(),
                    message.as_str(),
                    false,
                    "Restore a valid .msg envelope/body separator or move the file aside by hand; nothing is deleted.",
                );
            },
            MessageFile::Good => {},
        }
        assert(output::checks_view(checks@) =~= before + all_message_findings(files@.take(i + 1)));
    }
    assert(files@.take(files@.len() as int) =~= files@);
}

/// The members of a channel, as they were found.
#[derive(Debug)]
pub enum MembersFile {
    /// They could not be loaded; the text says why.
    Invalid(String),
    Loaded(MemberMap),
}

/// A channel, as it was found.
#[derive(Debug)]
pub struct ChannelFacts {
    pub name: String,
    pub info_path: String,
    /// Why the channel's own file could not be loaded, if it could not.
    pub info_problem: Option<String>,
    pub members_path: String,
    pub members: MembersFile,
    pub messages_path: String,
    /// The files among the messages, if there is a directory for them.
    pub messages: Option<Vec<MessageFile>>,
}

/// What is wrong with the first members of a channel.
pub open spec fn member_findings(
    channel: Seq<char>,
    path: Seq<char>,
    keys: Seq<Seq<char>>,
    rooms: Map<Seq<char>, String>,
) -> Seq<output::CheckView>
    decreases keys.len(),
{
    if keys.len() == 0 {
        seq![]
    } else {
        let before = member_findings(channel, path, keys.drop_last(), rooms);
        if rooms.contains_key(keys.last()) {
            before
        } else {
            before.push(
                finding(
                    "channel."@ + channel + ".member_unregistered"@,
                    DoctorSeverity::Warning,
                    path,
                    "channel member '"@ + keys.last() + "' is not a registered room"@,
                    false,
                    "Register the room in rooms.json or remove it from members.json by hand."@,
                ),
            )
        }
    }
}

/// What is wrong with a channel.
pub open spec fn channel_findings(c: ChannelFacts, rooms: Map<Seq<char>, String>) -> Seq<
    output::CheckView,
> {
    (match c.info_problem {
        Some(problem) => seq![
            finding(
                "channel."@ + c.name@ + ".info_invalid"@,
                DoctorSeverity::Error,
                c.info_path@,
                problem@,
                false,
                "Restore a valid channel.json or move the channel aside by hand; nothing is deleted."@,
            ),
        ],
        None => seq![],
    }) + (match c.members {
        MembersFile::Invalid(problem) => seq![
            finding(
                "channel."@ + c.name@ + ".members_invalid"@,
                DoctorSeverity::Error,
                c.members_path@,
                problem@,
                false,
                "Restore a valid members.json by hand; nothing is deleted."@,
            ),
        ],
        MembersFile::Loaded(members) => member_findings(
            c.name@,
            c.members_path@,
            members.keys(),
            rooms,
        ),
    }) + (match c.messages {
        None => seq![
            finding(
                "channel."@ + c.name@ + ".messages_missing"@,
                DoctorSeverity::Error,
                c.messages_path@,
                "channel messages/ directory is missing"@,
                false,
                "Restore the messages/ directory by hand; nothing is deleted."@,
            ),
        ],
        Some(files) => all_message_findings(files@),
    })
}

pub fn detect_channel(c: &ChannelFacts, rooms: &RoomMap, checks: &mut Vec<DoctorCheck>)
    ensures
        output::checks_view(final(checks)@) == output::checks_view(old(checks)@)
            + channel_findings(*c, rooms@),
{
    let ghost before = output::checks_view(checks@);
    let name = c.name.as_str();
    if let Some(problem) = &c.info_problem {
        add_check(
            checks,
            text::cat3("channel.", name, ".info_invalid").as_str(),
            DoctorSeverity::Error,
            c.info_path.as_str(),
            problem.as_str(),
            false,
            "Restore a valid channel.json or move the channel aside by hand; nothing is deleted.",
        );
    }
    let ghost second = output::checks_view(checks@);
    match &c.members {
        MembersFile::Invalid(problem) => {
            add_check(
                checks,
                text::cat3("channel.", name, ".members_invalid").as_str(),
                DoctorSeverity::Error,
                c.members_path.as_str(),
                problem.as_str(),
                false,
                "Restore a valid members.json by hand; nothing is deleted.",
            );
        },
        MembersFile::Loaded(members) => {
            let count: usize = members.len();
            let ghost keys = members.keys();
            assert(second =~= second + member_findings(
                c.name@,
                c.members_path@,
                keys.take(0),
                rooms@,
            ));
            for i in 0..count
                invariant
                    count == keys.len(),
                    keys == members.keys(),
                    name@ == c.name@,
                    output::checks_view(checks@) == second + member_findings(
                        c.name@,
                        c.members_path@,
                        keys.take(i as int),
                        rooms@,
                    ),
            {
                assert(keys.take(i + 1).drop_last() =~= keys.take(i as int));
                assert(keys.take(i + 1).last() == keys[i as int]);
                let member = members.key_at(i).as_str();
                if !rooms.contains_key(member) {
                    add_check(
                        checks,
                        text::cat3("channel.", name, ".member_unregistered").as_str(),
                        DoctorSeverity::Warning,
                        c.members_path.as_str(),
                        text::cat3(
                            "channel member '",
                            member,
                            "' is not a registered room",
                        ).as_str(),
                        false,
                        "Register the room in rooms.json or remove it from members.json by hand.",
                    );
                }
                assert(output::checks_view(checks@) =~= second + member_findings(
                    c.name@,
                    c.members_path@,
                    keys.take(i + 1),
                    rooms@,
                ));
            }
            assert(keys.take(keys.len() as int) =~= keys);
        },
    }
    let ghost third = output::checks_view(checks@);
    match &c.messages {
        None => {
            add_check(
                checks,
                text::cat3("channel.", name, ".messages_missing").as_str(),
                DoctorSeverity::Error,
                c.messages_path.as_str(),
                "channel messages/ directory is missing",
                false,
                "Restore the messages/ directory by hand; nothing is deleted.",
            );
        },
        Some(files) => {
            detect_messages(files, checks);
        },
    }
    assert(output::checks_view(checks@) =~= before + channel_findings(*c, rooms@));
}

/// An entry of the channels directory.
#[derive(Debug)]
pub enum ChannelEntry {
    /// What is no directory. Only the lock belongs there.
    File { name: String, path: String },
    /// A directory whose name cannot be a channel's; the text says why.
    BadName { name: String, path: String, message: String },
    Channel(ChannelFacts),
}

/// What is wrong with an entry of the channels directory.
pub open spec fn entry_findings(entry: ChannelEntry, rooms: Map<Seq<char>, String>) -> Seq<
    output::CheckView,
> {
    match entry {
        ChannelEntry::File { name, path } => if name@ == ".channels.lock"@ {
            seq![]
        } else {
            seq![
                finding(
                    "channels.stray_file"@,
                    DoctorSeverity::Warning,
                    path@,
                    "channels/ contains a non-directory that is not a channel"@,
                    false,
                    "Inspect the file and move it outside channels/ by hand if it does not belong."@,
                ),
            ]
        },
        ChannelEntry::BadName { name, path, message } => seq![
            finding(
                "channel."@ + name@ + ".invalid_name"@,
                DoctorSeverity::Error,
                path@,
                message@,
                false,
                "Rename the channel directory to a single path-safe name by hand."@,
            ),
        ],
        ChannelEntry::Channel(c) => channel_findings(c, rooms),
    }
}

/// What is wrong with some entries of the channels directory.
pub open spec fn entries_findings(entries: Seq<ChannelEntry>, rooms: Map<Seq<char>, String>) -> Seq<
    output::CheckView,
>
    decreases entries.len(),
{
    if entries.len() == 0 {
        seq![]
    } else {
        entries_findings(entries.drop_last(), rooms) + entry_findings(entries.last(), rooms)
    }
}

/// The cursor file of a room that has one.
#[derive(Debug)]
pub struct StateFile {
    pub room: String,
    pub path: String,
    pub valid: bool,
}

/// What is wrong with some cursor files.
pub open spec fn state_findings(files: Seq<StateFile>) -> Seq<output::CheckView>
    decreases files.len(),
{
    if files.len() == 0 {
        seq![]
    } else {
        let before = state_findings(files.drop_last());
        let file = files.last();
        if file.valid {
            before
        } else {
            before.push(
                finding(
                    "channel_state."@ + file.room@ + ".invalid"@,
                    DoctorSeverity::Error,
                    file.path@,
                    "channel-state.json is not a valid {channel: last-read-id} map"@,
                    false,
                    "Correct or remove the reader's channel-state.json by hand; the channel history is untouched."@,
                ),
            )
        }
    }
}

/// The channels, as they were found.
#[derive(Debug)]
pub struct ChannelsFacts {
    pub entries: Vec<ChannelEntry>,
    pub states: Vec<StateFile>,
}

pub fn detect_channels(facts: &ChannelsFacts, rooms: &RoomMap, checks: &mut Vec<DoctorCheck>)
    ensures
        output::checks_view(final(checks)@) == output::checks_view(old(checks)@) + (
        entries_findings(facts.entries@, rooms@) + state_findings(facts.states@)),
{
    let ghost before = output::checks_view(checks@);
    let ghost entries = facts.entries@;
    assert(before =~= before + entries_findings(entries.take(0), rooms@));
    for i in 0..facts.entries.len()
        invariant
            entries == facts.entries@,
            output::checks_view(checks@) == before + entries_findings(
                entries.take(i as int),
                rooms@,
            ),
    {
        assert(entries.take(i + 1).drop_last() =~= entries.take(i as int));
        match &facts.entries[i] {
            ChannelEntry::File { name, path } => {
                if !text::same(name.as_str(), ".channels.lock") {
                    add_check(
                        checks,
                        "channels.stray_file",
                        DoctorSeverity::Warning,
                        path.as_str(),
                        "channels/ contains a non-directory that is not a channel",
                        false,
                        "Inspect the file and move it outside channels/ by hand if it does not belong.",
                    );
                }
            },
            ChannelEntry::BadName { name, path, message } => {
                add_check(
                    checks,
                    text::cat3("channel.", name.as_str(), ".invalid_name").as_str(),
                    DoctorSeverity::Error,
                    path.as_str(),
                    message.as_str(),
                    false,
                    "Rename the channel directory to a single path-safe name by hand.",
                );
            },
            ChannelEntry::Channel(c) => {
                detect_channel(c, rooms, checks);
            },
        }
        assert(output::checks_view(checks@) =~= before + entries_findings(
            entries.take(i + 1),
            rooms@,
        ));
    }
    assert(entries.take(entries.len() as int) =~= entries);
    let ghost middle = output::checks_view(checks@);
    let ghost states = facts.states@;
    assert(middle =~= middle + state_findings(states.take(0)));
    for i in 0..facts.states.len()
        invariant
            states == facts.states@,
            output::checks_view(checks@) == middle + state_findings(states.take(i as int)),
    {
        assert(states.take(i + 1).drop_last() =~= states.take(i as int));
        let file = &facts.states[i];
        if !file.valid {
            add_check(
                checks,
                text::cat3("channel_state.", file.room.as_str(), ".invalid").as_str(),
                DoctorSeverity::Error,
                file.path.as_str(),
                "channel-state.json is not a valid {channel: last-read-id} map",
                false,
                "Correct or remove the reader's channel-state.json by hand; the channel history is untouched.",
            );
        }
        assert(output::checks_view(checks@) =~= middle + state_findings(states.take(i + 1)));
    }
    assert(states.take(states.len() as int) =~= states);
    assert(output::checks_view(checks@) =~= before + (entries_findings(facts.entries@, rooms@)
        + state_findings(facts.states@)));
}

// ---------------------------------------------------------------------------
// The whole store
// ---------------------------------------------------------------------------
/// A store, as it was found.
#[derive(Debug)]
pub struct StoreFacts {
    /// Whether there is a directory for it.
    pub root: bool,
    pub rooms: RoomsFile,
    pub rules: RulesFile,
    pub archive: bool,
    pub profiles: ProfilesFile,
    /// The directories of each registered room, in the order of the rooms.
    pub room_dirs: Vec<RoomDirs>,
    pub mail: Vec<MailFile>,
    /// The rooms of a registry without faults; no rooms of another.
    pub registered: RoomMap,
    /// The channels, if there is a directory for them.
    pub channels: Option<ChannelsFacts>,
}

/// Everything that is wrong with a store that has a directory.
pub open spec fn store_findings(root: Seq<char>, home: Seq<char>, facts: StoreFacts) -> Seq<
    output::CheckView,
> {
    let rooms_path = paths::join(root, "rooms.json"@);
    let known = known_rooms(facts.rooms);
    rooms_findings(home, rooms_path, facts.rooms) + rules_findings(
        paths::join(root, "rules.json"@),
        facts.rules,
        known,
    ) + dir_findings(paths::join(root, "archive"@), "dir.archive"@, facts.archive)
        + profiles_findings(paths::join(root, "profiles.json"@), facts.profiles, known) + (
    match known {
        Some(rooms) => all_room_findings(
            root,
            home,
            rooms_path,
            rooms,
            facts.room_dirs@,
            rooms.keys().len(),
        ),
        None => seq![],
    }) + all_mail_findings(facts.mail@) + (match facts.channels {
        Some(channels) => entries_findings(channels.entries@, facts.registered@) + state_findings(
            channels.states@,
        ),
        None => seq![],
    })
}

/// The finding of a store without a directory.
pub open spec fn root_missing(root: Seq<char>) -> output::CheckView {
    finding(
        "root.missing"@,
        DoctorSeverity::Error,
        root,
        "mailbox root directory does not exist"@,
        true,
        "Run `post doctor --fix` to create the mailbox root and defaults."@,
    )
}

/// Whether findings are those of a list, in the order of their ids and paths.
pub open spec fn are_findings(checks: Seq<DoctorCheck>, wanted: Seq<output::CheckView>) -> bool {
    exists|raw: Seq<DoctorCheck>| #[trigger]
        order::stable_sort_of(raw, checks) && output::checks_view(raw) == wanted
}

/// Finds everything that is wrong with a store.
pub fn detect(context: &Context, facts: &StoreFacts) -> (r: Vec<DoctorCheck>)
    ensures
        if facts.root {
            are_findings(r@, store_findings(context.root@, context.home@, *facts))
        } else {
            output::checks_view(r@) == seq![root_missing(context.root@)]
        },
{
    let mut checks: Vec<DoctorCheck> = Vec::new();
    assert(output::checks_view(checks@) =~= seq![]);
    if !facts.root {
        add_check(
            &mut checks,
            "root.missing",
            DoctorSeverity::Error,
            context.root.as_str(),
            "mailbox root directory does not exist",
            true,
            "Run `post doctor --fix` to create the mailbox root and defaults.",
        );
        assert(output::checks_view(checks@) =~= seq![root_missing(context.root@)]);
        return checks;
    }
    let rooms_path = context.file("rooms.json");
    let rules_path = context.file("rules.json");
    detect_rooms(context, rooms_path.as_str(), &facts.rooms, &mut checks);
    let known = usable_rooms(&facts.rooms);
    detect_rules(rules_path.as_str(), &facts.rules, known, &mut checks);
    detect_dir(context.file("archive").as_str(), "dir.archive", facts.archive, &mut checks);
    detect_profiles(
        context.file("profiles.json").as_str(),
        &facts.profiles,
        known,
        &mut checks,
    );
    match known {
        Some(rooms) => {
            detect_all_rooms(context, rooms_path.as_str(), rooms, &facts.room_dirs, &mut checks);
        },
        None => {},
    }
    detect_mail(&facts.mail, &mut checks);
    match &facts.channels {
        Some(channels) => {
            detect_channels(channels, &facts.registered, &mut checks);
        },
        None => {},
    }
    assert(output::checks_view(checks@) =~= store_findings(context.root@, context.home@, *facts));
    let ghost raw = checks@;
    let sorted = order::sort(checks);
    assert(order::stable_sort_of(raw, sorted@));
    sorted
}

/// The status of a store with some findings.
pub open spec fn status_of(checks: Seq<DoctorCheck>) -> Seq<char> {
    if checks.len() == 0 {
        "healthy"@
    } else if exists|i: int|
        0 <= i < checks.len() && (#[trigger] checks[i]).severity == DoctorSeverity::Error {
        "broken"@
    } else {
        "degraded"@
    }
}

/// The report of a diagnosis.
pub fn report(context: &Context, checks: Vec<DoctorCheck>, fixed: Vec<String>) -> (r: DoctorOutput)
    ensures
        r.ok == (checks@.len() == 0),
        r.status@ == status_of(checks@),
        r.root@ == context.root@,
        r.count == checks@.len(),
        r.checks == checks,
        r.fixed == fixed,
        schema::exits_view(r.exit_codes@) == schema::doctor_exits(),
{
    let mut broken: bool = false;
    for i in 0..checks.len()
        invariant
            broken == exists|k: int|
                0 <= k < i && (#[trigger] checks@[k]).severity == DoctorSeverity::Error,
    {
        if checks[i].severity == DoctorSeverity::Error {
            broken = true;
            assert(checks@[i as int].severity == DoctorSeverity::Error);
        }
    }
    let count: usize = checks.len();
    let status = if count == 0 {
        "healthy"
    } else if broken {
        "broken"
    } else {
        "degraded"
    };
    DoctorOutput {
        ok: count == 0,
        status: status.to_owned(),
        root: context.root.clone(),
        count,
        checks,
        fixed,
        exit_codes: schema::doctor_exit_codes(),
    }
}

/// The exit code of a diagnosis.
pub fn exit_code(findings: usize, fix_failed: bool) -> (r: i32)
    ensures
        r == if fix_failed {
            3
        } else if findings == 0 {
            0int
        } else {
            1
        },
{
    if fix_failed {
        3
    } else if findings == 0 {
        0
    } else {
        1
    }
}

/// The one finding of a repair that failed.
pub fn fix_failed(context: &Context, message: &str, suggested_fix: &str) -> (r: Vec<DoctorCheck>)
    ensures
        output::checks_view(r@) == seq![
            finding(
                "fix.failed"@,
                DoctorSeverity::Error,
                context.root@,
                message@,
                false,
                suggested_fix@,
            ),
        ],
{
    let mut checks: Vec<DoctorCheck> = Vec::new();
    assert(output::checks_view(checks@) =~= seq![]);
    add_check(
        &mut checks,
        "fix.failed",
        DoctorSeverity::Error,
        context.root.as_str(),
        message,
        false,
        suggested_fix,
    );
    checks
}

/// The directories of the first rooms that a repair makes.
pub open spec fn mailbox_dirs_of(root: Seq<char>, keys: Seq<Seq<char>>) -> Seq<Seq<char>>
    decreases keys.len(),
{
    if keys.len() == 0 {
        seq![]
    } else {
        let dir = paths::join(root, keys.last());
        mailbox_dirs_of(root, keys.drop_last()).push(paths::join(dir, "inbox"@)).push(
            paths::join(dir, "read"@),
        )
    }
}

/// The mailbox directories that a repair makes where they are missing.
pub fn repair_dirs(context: &Context, rooms: &RoomMap) -> (r: Vec<String>)
    ensures
        text::texts(r@) == mailbox_dirs_of(context.root@, rooms.keys()),
{
    let count: usize = rooms.len();
    let ghost keys = rooms.keys();
    let mut out: Vec<String> = Vec::new();
    assert(text::texts(out@) =~= mailbox_dirs_of(context.root@, keys.take(0)));
    for i in 0..count
        invariant
            count == keys.len(),
            keys == rooms.keys(),
            text::texts(out@) == mailbox_dirs_of(context.root@, keys.take(i as int)),
    {
        let ghost before = text::texts(out@);
        assert(keys.take(i + 1).drop_last() =~= keys.take(i as int));
        assert(keys.take(i + 1).last() == keys[i as int]);
        let dir = context.file(rooms.key_at(i).as_str());
        let inbox = paths::join_path(dir.as_str(), "inbox");
        let read = paths::join_path(dir.as_str(), "read");
        out.push(inbox);
        out.push(read);
        assert(text::texts(out@) =~= before.push(inbox@).push(read@));
    }
    assert(keys.take(keys.len() as int) =~= keys);
    out
}

// ---------------------------------------------------------------------------
// Laws
// ---------------------------------------------------------------------------
/// Only what a repair can make is offered for repair: missing configuration and missing
/// directories. Nothing that would change or delete content is.
pub proof fn repairs_never_touch_content(file: MailFile, message: MessageFile, c: ChannelFacts, rooms: Map<
    Seq<char>,
    String,
>)
    ensures
        forall|i: int| 0 <= i < mail_findings(file).len() ==> !(#[trigger] mail_findings(file)[i]).fixable,
        forall|i: int|
            0 <= i < message_findings(message).len() ==> !(#[trigger] message_findings(
                message,
            )[i]).fixable,
        forall|i: int|
            0 <= i < channel_findings(c, rooms).len() ==> !(#[trigger] channel_findings(
                c,
                rooms,
            )[i]).fixable,
{
    match c.members {
        MembersFile::Loaded(members) => {
            members_not_fixable(c.name@, c.members_path@, members.keys(), rooms);
        },
        _ => {},
    }
    match c.messages {
        Some(files) => {
            messages_not_fixable(files@);
        },
        None => {},
    }
}

proof fn members_not_fixable(
    channel: Seq<char>,
    path: Seq<char>,
    keys: Seq<Seq<char>>,
    rooms: Map<Seq<char>, String>,
)
    ensures
        forall|i: int|
            0 <= i < member_findings(channel, path, keys, rooms).len() ==> !(
            #[trigger] member_findings(channel, path, keys, rooms)[i]).fixable,
    decreases keys.len(),
{
    if keys.len() > 0 {
        members_not_fixable(channel, path, keys.drop_last(), rooms);
    }
}

proof fn messages_not_fixable(files: Seq<MessageFile>)
    ensures
        forall|i: int|
            0 <= i < all_message_findings(files).len() ==> !(#[trigger] all_message_findings(
                files,
            )[i]).fixable,
    decreases files.len(),
{
    if files.len() > 0 {
        messages_not_fixable(files.drop_last());
    }
}

/// A store is healthy exactly if nothing is wrong with it: the report of a store with a
/// directory has as many findings as there are faults.
pub proof fn findings_are_counted(checks: Seq<DoctorCheck>, wanted: Seq<output::CheckView>)
    requires
        are_findings(checks, wanted),
    ensures
        checks.len() == wanted.len(),
        status_of(checks) == "healthy"@ <==> wanted.len() == 0,
{
    let raw = choose|raw: Seq<DoctorCheck>| #[trigger]
        order::stable_sort_of(raw, checks) && output::checks_view(raw) == wanted;
    vstd::seq_lib::to_multiset_len(raw);
    vstd::seq_lib::to_multiset_len(checks);
    reveal_strlit("healthy");
    reveal_strlit("broken");
    reveal_strlit("degraded");
    assert("healthy"@[0] != "broken"@[0]);
    assert("healthy"@[0] != "degraded"@[0]);
}

} // verus!
