//! Where the store lies, which rooms are registered, and which of them a command acts as.
use crate::error;
use crate::error::{AppError, AppResult, ErrorCode};
use crate::mail;
use crate::model;
use crate::model::{BlockingRule, RulesConfig, SenderProvenance};
use crate::names;
use crate::paths;
use crate::text;
use crate::textmap::RoomMap;
use vstd::prelude::*;

verus! {

/// The rules file of a fresh store.
pub const DEFAULT_RULES_JSON: &'static str = "{\n  \"blocked\": []\n}\n";

/// The room registry of a fresh store.
pub const DEFAULT_ROOMS_JSON: &'static str = "{}\n";

/// The store and the home directory of its user.
#[derive(Debug)]
pub struct Context {
    pub root: String,
    pub home: String,
}

/// The root of the store: the configured one, or the default directory under the home
/// directory.
pub open spec fn root_of(
    home: Seq<char>,
    configured: Option<Seq<char>>,
    default_dir: Seq<char>,
) -> Seq<char> {
    match configured {
        Some(root) => root,
        None => paths::join(home, default_dir),
    }
}

pub open spec fn missing_home_error() -> error::ErrorView {
    error::ErrorView::of(
        ErrorCode::ConfigInvalid,
        "environment variable 'HOME' is missing, so '~' room paths cannot be resolved"@,
        "Set `HOME` to an absolute directory and retry the same command."@,
    ).input("HOME"@).reason("missing environment variable"@)
}

pub open spec fn relative_root_error(root: Seq<char>) -> error::ErrorView {
    error::ErrorView::of(
        ErrorCode::ConfigInvalid,
        "POST_MAIL_ROOT '"@ + root
            + "' is not absolute; mailbox writes need an unambiguous root"@,
        "Set `POST_MAIL_ROOT` to an absolute path and retry the same command."@,
    ).input(root).reason("path is relative"@)
}

/// The path that a registered room path stands for, or why it stands for none.
pub open spec fn expanded(home: Seq<char>, value: Seq<char>) -> Result<Seq<char>, Seq<char>> {
    if value == "~"@ || value == "~/"@ {
        Ok(home)
    } else if text::has_prefix(value, "~/"@) {
        Ok(paths::join(home, value.skip(2)))
    } else if paths::absolute(value) {
        Ok(value)
    } else {
        Err(
            "room path '"@ + value
                + "' must be absolute or start with '~/'; replace it with an absolute path"@,
        )
    }
}

/// Why a registry entry is refused.
pub open spec fn room_entry_fault(home: Seq<char>, name: Seq<char>, path: Seq<char>) -> Option<
    Seq<char>,
> {
    if names::room_name_fault(name) is Some {
        names::room_name_fault(name)
    } else {
        match expanded(home, path) {
            Ok(_) => None,
            Err(reason) => Some(reason),
        }
    }
}

/// Why the first refused entry among the first `n` rooms is refused.
pub open spec fn rooms_fault(
    home: Seq<char>,
    keys: Seq<Seq<char>>,
    map: Map<Seq<char>, String>,
    n: nat,
) -> Option<Seq<char>>
    decreases n,
{
    if n == 0 {
        None
    } else {
        let before = rooms_fault(home, keys, map, (n - 1) as nat);
        if before is Some {
            before
        } else {
            room_entry_fault(home, keys[n - 1], map[keys[n - 1]]@)
        }
    }
}

/// Why a blocking rule is refused.
pub open spec fn rule_fault(
    index: nat,
    rule: model::RuleView,
    rooms: Map<Seq<char>, String>,
) -> Option<Seq<char>> {
    if text::blank(rule.from) || text::blank(rule.to) || text::blank(rule.reason) {
        Some(
            "blocked["@ + text::decimal(index)
                + "] must have non-empty 'from', 'to', and 'reason' strings"@,
        )
    } else if rule.from != "*"@ && names::component_fault(rule.from) is Some {
        names::component_fault(rule.from)
    } else if rule.to != "*"@ && !rooms.contains_key(rule.to) {
        Some(
            "blocked["@ + text::decimal(index) + "].to names unknown room '"@ + rule.to
                + "'; add it to rooms.json or use '*'"@,
        )
    } else {
        None
    }
}

/// Why the first refused rule of a list is refused.
pub open spec fn rules_fault(rules: Seq<model::RuleView>, rooms: Map<Seq<char>, String>) -> Option<
    Seq<char>,
>
    decreases rules.len(),
{
    if rules.len() == 0 {
        None
    } else {
        let before = rules_fault(rules.drop_last(), rooms);
        if before is Some {
            before
        } else {
            rule_fault((rules.len() - 1) as nat, rules.last(), rooms)
        }
    }
}

/// The first rule that closes a route, if any.
pub open spec fn blocking_rule(
    rules: Seq<model::RuleView>,
    sender: Seq<char>,
    recipient: Seq<char>,
) -> Option<model::RuleView>
    decreases rules.len(),
{
    if rules.len() == 0 {
        None
    } else if rules[0].blocks(sender, recipient) {
        Some(rules[0])
    } else {
        blocking_rule(rules.skip(1), sender, recipient)
    }
}

/// A route is closed exactly if some rule closes it.
pub proof fn route_is_blocked_iff_a_rule_blocks_it(
    rules: Seq<model::RuleView>,
    sender: Seq<char>,
    recipient: Seq<char>,
)
    ensures
        blocking_rule(rules, sender, recipient) is Some <==> exists|i: int|
            0 <= i < rules.len() && (#[trigger] rules[i]).blocks(sender, recipient),
        blocking_rule(rules, sender, recipient) is Some ==> rules.contains(
            blocking_rule(rules, sender, recipient)->0,
        ) && (blocking_rule(rules, sender, recipient)->0).blocks(sender, recipient),
    decreases rules.len(),
{
    if rules.len() > 0 {
        let rest = rules.skip(1);
        route_is_blocked_iff_a_rule_blocks_it(rest, sender, recipient);
        if rules[0].blocks(sender, recipient) {
        } else {
            if exists|i: int| 0 <= i < rules.len() && (#[trigger] rules[i]).blocks(sender, recipient) {
                let i = choose|i: int|
                    0 <= i < rules.len() && (#[trigger] rules[i]).blocks(sender, recipient);
                assert(rest[i - 1] == rules[i]);
            }
            if blocking_rule(rest, sender, recipient) is Some {
                let i = choose|i: int|
                    0 <= i < rest.len() && (#[trigger] rest[i]).blocks(sender, recipient);
                assert(rules[i + 1] == rest[i]);
                let k = choose|k: int|
                    0 <= k < rest.len() && rest[k] == blocking_rule(rest, sender, recipient)->0;
                assert(rules[k + 1] == rest[k]);
            }
        }
    }
}

/// A registered room, the path that its registration stands for, and that path with its
/// symbolic links resolved.
#[derive(Debug)]
pub struct RoomTree {
    pub name: String,
    pub path: String,
    pub resolved: String,
}

/// Whether a room's tree holds a directory.
pub open spec fn holds(tree: RoomTree, directory: Seq<char>) -> bool {
    paths::inside(directory, tree.resolved@)
}

/// Whether the first tree is less specific than the second: less deep, or as deep and named
/// before it.
pub open spec fn less_specific(a: RoomTree, b: RoomTree) -> bool {
    let x = paths::components(a.path@).len();
    let y = paths::components(b.path@).len();
    x < y || (x == y && text::le(a.name@, b.name@))
}

/// Whether a room is the most specific one whose tree holds a directory.
pub open spec fn is_home_room(trees: Seq<RoomTree>, directory: Seq<char>, i: int) -> bool {
    &&& 0 <= i < trees.len()
    &&& holds(trees[i], directory)
    &&& forall|j: int|
        0 <= j < trees.len() && holds(#[trigger] trees[j], directory) ==> less_specific(
            trees[j],
            trees[i],
        )
}

pub open spec fn no_basename_error(cwd: Seq<char>) -> error::ErrorView {
    error::ErrorView::of(
        ErrorCode::InvalidArgument,
        "current directory '"@ + cwd
            + "' has no UTF-8 basename for the default sender/room"@,
        "Pass `--from <NAME>` for send or `--room <ROOM>` for inbox/read."@,
    ).input(cwd).reason("missing UTF-8 basename"@)
}

pub open spec fn bad_basename_error(basename: Seq<char>, reason: Seq<char>) -> error::ErrorView {
    error::ErrorView::of(
        ErrorCode::InvalidArgument,
        "inferred name '"@ + basename + "' is invalid: "@ + reason,
        "Pass `--from <NAME>` for send or `--room <ROOM>` for inbox/read."@,
    ).input(basename).reason(reason)
}

/// What a directory outside every registered room makes of its name.
pub open spec fn basename_identity(cwd: Seq<char>, basename: Option<Seq<char>>) -> Result<
    Seq<char>,
    error::ErrorView,
> {
    match basename {
        None => Err(no_basename_error(cwd)),
        Some(name) => match names::component_fault(name) {
            None => Ok(name),
            Some(reason) => Err(bad_basename_error(name, reason)),
        },
    }
}

pub open spec fn reserved_sender_error(
    sender: Seq<char>,
    path: Seq<char>,
    cwd: Seq<char>,
) -> error::ErrorView {
    error::ErrorView::of(
        ErrorCode::ReservedSender,
        "sender '"@ + sender + "' is reserved for registered room '"@ + path + "' and cwd '"@ + cwd
            + "' is outside its tree"@,
        "Run from '"@ + path
            + "' or pass a free-form sender such as `--from codex-<project>`."@,
    ).input(sender).reason("registered room name used outside its room tree"@).registered_path(path)
}

/// The first tree of a room name, if the name is registered.
pub open spec fn tree_of(trees: Seq<RoomTree>, name: Seq<char>) -> Option<RoomTree>
    decreases trees.len(),
{
    if trees.len() == 0 {
        None
    } else if trees[0].name@ == name {
        Some(trees[0])
    } else {
        tree_of(trees.skip(1), name)
    }
}

/// Why a sender name may not be used from a directory.
pub open spec fn sender_fault(
    trees: Seq<RoomTree>,
    sender: Seq<char>,
    cwd: Seq<char>,
    resolved_cwd: Seq<char>,
) -> Option<error::ErrorView> {
    match tree_of(trees, sender) {
        None => None,
        Some(tree) => if holds(tree, resolved_cwd) {
            None
        } else {
            Some(reserved_sender_error(sender, tree.path@, cwd))
        },
    }
}

pub open spec fn bad_room_error(room: Seq<char>, reason: Seq<char>) -> error::ErrorView {
    error::ErrorView::of(
        ErrorCode::InvalidArgument,
        "room '"@ + room + "' is invalid: "@ + reason,
        "Pass a single path-safe room name without '/' or '\\'."@,
    ).input(room).reason(reason)
}

pub open spec fn bad_mailbox_error(room: Seq<char>, reason: Seq<char>) -> error::ErrorView {
    error::ErrorView::of(
        ErrorCode::InvalidArgument,
        "room '"@ + room + "' is invalid: "@ + reason,
        "Pass a single room name without path separators."@,
    )
}

pub open spec fn unregistered_room_error(room: Seq<char>) -> error::ErrorView {
    error::ErrorView::of(
        ErrorCode::UnknownRoom,
        "channel operations require a registered room; cwd resolves to '"@ + room
            + "', which is not in rooms.json"@,
        "Run from inside a registered room tree, or register one with `post rooms add <name> <path>`."@,
    ).input(room).reason("cwd is outside every registered room tree"@)
}

impl Context {
    /// The store that the environment names. Where it names none, the store is the default
    /// directory under the home directory.
    pub fn from_env(home: Option<&str>, mail_root: Option<&str>, default_dir: &str) -> (r:
        AppResult<Context>)
        ensures
            match r {
                Ok(c) => home is Some && c.home@ == home->0@ && c.root@ == root_of(
                    home->0@,
                    text::opt_str(mail_root),
                    default_dir@,
                ) && paths::absolute(c.root@),
                Err(e) => if home is None {
                    e@ == missing_home_error()
                } else {
                    let root = root_of(home->0@, text::opt_str(mail_root), default_dir@);
                    !paths::absolute(root) && e@ == relative_root_error(root)
                },
            },
    {
        let home = match home {
            Some(home) => home,
            None => {
                return Err(
                    AppError::new(
                        ErrorCode::ConfigInvalid,
                        "environment variable 'HOME' is missing, so '~' room paths cannot be resolved",
                        "Set `HOME` to an absolute directory and retry the same command.",
                    ).input("HOME").reason("missing environment variable"),
                );
            },
        };
        let root = match mail_root {
            Some(root) => root.to_owned(),
            None => paths::join_path(home, default_dir),
        };
        if !paths::is_absolute(root.as_str()) {
            return Err(
                AppError::new(
                    ErrorCode::ConfigInvalid,
                    text::cat3(
                        "POST_MAIL_ROOT '",
                        root.as_str(),
                        "' is not absolute; mailbox writes need an unambiguous root",
                    ).as_str(),
                    "Set `POST_MAIL_ROOT` to an absolute path and retry the same command.",
                ).input(root.as_str()).reason("path is relative"),
            );
        }
        Ok(Context { root, home: home.to_owned() })
    }

    /// The path of a file of the store.
    pub fn file(&self, name: &str) -> (r: String)
        ensures
            r@ == paths::join(self.root@, name@),
    {
        paths::join_path(self.root.as_str(), name)
    }

    pub fn expand_room_path(&self, value: &str) -> (r: Result<String, String>)
        ensures
            match r {
                Ok(path) => expanded(self.home@, value@) == Ok::<Seq<char>, Seq<char>>(path@),
                Err(reason) => expanded(self.home@, value@) == Err::<Seq<char>, Seq<char>>(reason@),
            },
    {
        if text::same(value, "~") || text::same(value, "~/") {
            return Ok(self.home.clone());
        }
        if text::starts_with(value, "~/") {
            let chars = text::chars_of(value);
            proof {
                reveal_strlit("~/");
                assert(value@.subrange(2, value@.len() as int) =~= value@.skip(2));
            }
            let rest = text::slice_of(&chars, 2, chars.len());
            return Ok(paths::join_path(self.home.as_str(), rest.as_str()));
        }
        if paths::is_absolute(value) {
            Ok(value.to_owned())
        } else {
            Err(
                text::cat3(
                    "room path '",
                    value,
                    "' must be absolute or start with '~/'; replace it with an absolute path",
                ),
            )
        }
    }

    /// Checks every entry of the room registry.
    pub fn check_rooms(&self, rooms: &RoomMap) -> (r: AppResult<()>)
        ensures
            error::failure(r) == mail::config_error(
                paths::join(self.root@, "rooms.json"@),
                rooms_fault(self.home@, rooms.keys(), rooms@, rooms.keys().len()),
            ),
    {
        let count: usize = rooms.len();
        let path = self.file("rooms.json");
        for i in 0..count
            invariant
                count == rooms.keys().len(),
                path@ == paths::join(self.root@, "rooms.json"@),
                rooms_fault(self.home@, rooms.keys(), rooms@, i as nat) is None,
        {
            let name = rooms.key_at(i);
            let place = rooms.value_at(i);
            let ghost entry = room_entry_fault(self.home@, name@, place@);
            assert(rooms_fault(self.home@, rooms.keys(), rooms@, (i + 1) as nat) == entry);
            proof {
                rooms_fault_persists(
                    self.home@,
                    rooms.keys(),
                    rooms@,
                    (i + 1) as nat,
                    rooms.keys().len(),
                );
            }
            match names::validate_room_name(name.as_str()) {
                Ok(_) => {},
                Err(reason) => {
                    return Err(AppError::config(path.as_str(), reason.as_str()));
                },
            }
            match self.expand_room_path(place.as_str()) {
                Ok(_) => {},
                Err(reason) => {
                    return Err(AppError::config(path.as_str(), reason.as_str()));
                },
            }
        }
        Ok(())
    }

    /// Checks every blocking rule.
    pub fn check_rules(&self, rules: &RulesConfig, rooms: &RoomMap) -> (r: AppResult<()>)
        ensures
            error::failure(r) == mail::config_error(
                paths::join(self.root@, "rules.json"@),
                rules_fault(model::rules_view(rules.blocked@), rooms@),
            ),
    {
        let path = self.file("rules.json");
        let ghost all = model::rules_view(rules.blocked@);
        assert(all.take(0) =~= seq![]);
        for i in 0..rules.blocked.len()
            invariant
                all == model::rules_view(rules.blocked@),
                path@ == paths::join(self.root@, "rules.json"@),
                rules_fault(all.take(i as int), rooms@) is None,
        {
            let rule = &rules.blocked[i];
            assert(all.take(i + 1).drop_last() =~= all.take(i as int));
            assert(all.take(i + 1).last() == rule@);
            let ghost this = rule_fault(i as nat, rule@, rooms@);
            assert(rules_fault(all.take(i + 1), rooms@) == this);
            proof {
                rules_fault_persists(all, rooms@, i + 1);
            }
            if text::is_blank(rule.from.as_str()) || text::is_blank(rule.to.as_str())
                || text::is_blank(rule.reason.as_str()) {
                return Err(
                    AppError::config(
                        path.as_str(),
                        text::cat3(
                            "blocked[",
                            text::decimal_text(i as u64).as_str(),
                            "] must have non-empty 'from', 'to', and 'reason' strings",
                        ).as_str(),
                    ),
                );
            }
            if !text::same(rule.from.as_str(), "*") {
                match names::validate_component(rule.from.as_str()) {
                    Ok(_) => {},
                    Err(reason) => {
                        return Err(AppError::config(path.as_str(), reason.as_str()));
                    },
                }
            }
            if !text::same(rule.to.as_str(), "*") && !rooms.contains_key(rule.to.as_str()) {
                return Err(
                    AppError::config(
                        path.as_str(),
                        text::cat5(
                            "blocked[",
                            text::decimal_text(i as u64).as_str(),
                            "].to names unknown room '",
                            rule.to.as_str(),
                            "'; add it to rooms.json or use '*'",
                        ).as_str(),
                    ),
                );
            }
        }
        assert(all.take(all.len() as int) =~= all);
        Ok(())
    }

    /// The registered rooms with the paths that their registrations stand for.
    pub fn room_paths(&self, rooms: &RoomMap) -> (r: AppResult<Vec<(String, String)>>)
        ensures
            match r {
                Ok(list) => {
                    &&& list@.len() == rooms.keys().len()
                    &&& forall|i: int|
                        0 <= i < list@.len() ==> (#[trigger] list@[i]).0@ == rooms.keys()[i]
                            && expanded(self.home@, rooms@[rooms.keys()[i]]@) == Ok::<
                            Seq<char>,
                            Seq<char>,
                        >(list@[i].1@)
                },
                Err(e) => exists|i: int|
                    0 <= i < rooms.keys().len() && (#[trigger] expanded(
                        self.home@,
                        rooms@[rooms.keys()[i]]@,
                    )) is Err && e@ == error::ErrorView::config(
                        paths::join(self.root@, "rooms.json"@),
                        expanded(self.home@, rooms@[rooms.keys()[i]]@)->Err_0,
                    ) && forall|j: int|
                        0 <= j < i ==> (#[trigger] expanded(
                            self.home@,
                            rooms@[rooms.keys()[j]]@,
                        )) is Ok,
            },
    {
        let count: usize = rooms.len();
        let mut list: Vec<(String, String)> = Vec::new();
        for i in 0..count
            invariant
                count == rooms.keys().len(),
                list@.len() == i,
                forall|j: int|
                    0 <= j < i ==> (#[trigger] list@[j]).0@ == rooms.keys()[j] && expanded(
                        self.home@,
                        rooms@[rooms.keys()[j]]@,
                    ) == Ok::<Seq<char>, Seq<char>>(list@[j].1@),
                forall|j: int|
                    0 <= j < i ==> (#[trigger] expanded(self.home@, rooms@[rooms.keys()[j]]@)) is Ok,
        {
            let name = rooms.key_at(i);
            let place = rooms.value_at(i);
            match self.expand_room_path(place.as_str()) {
                Ok(path) => {
                    list.push((name.clone(), path));
                },
                Err(reason) => {
                    return Err(
                        AppError::config(self.file("rooms.json").as_str(), reason.as_str()),
                    );
                },
            }
        }
        Ok(list)
    }

    /// The inbox and the read directory of a room.
    pub fn mailbox_dirs(&self, room: &str) -> (r: AppResult<(String, String)>)
        ensures
            match r {
                Ok(dirs) => names::room_name_fault(room@) is None && dirs.0@ == paths::join(
                    paths::join(self.root@, room@),
                    "inbox"@,
                ) && dirs.1@ == paths::join(paths::join(self.root@, room@), "read"@),
                Err(e) => names::room_name_fault(room@) is Some && e@ == bad_mailbox_error(
                    room@,
                    names::room_name_fault(room@)->0,
                ),
            },
    {
        match names::validate_room_name(room) {
            Ok(_) => {},
            Err(reason) => {
                return Err(
                    AppError::new(
                        ErrorCode::InvalidArgument,
                        text::cat4("room '", room, "' is invalid: ", reason.as_str()).as_str(),
                        "Pass a single room name without path separators.",
                    ),
                );
            },
        }
        let directory = self.file(room);
        Ok(
            (
                paths::join_path(directory.as_str(), "inbox"),
                paths::join_path(directory.as_str(), "read"),
            ),
        )
    }
}

proof fn rooms_fault_persists(
    home: Seq<char>,
    keys: Seq<Seq<char>>,
    map: Map<Seq<char>, String>,
    n: nat,
    total: nat,
)
    requires
        n <= total,
    ensures
        rooms_fault(home, keys, map, n) is Some ==> rooms_fault(home, keys, map, total)
            == rooms_fault(home, keys, map, n),
    decreases total,
{
    if n < total {
        rooms_fault_persists(home, keys, map, n, (total - 1) as nat);
    }
}

proof fn rules_fault_persists(rules: Seq<model::RuleView>, rooms: Map<Seq<char>, String>, n: int)
    requires
        0 <= n <= rules.len(),
    ensures
        rules_fault(rules.take(n), rooms) is Some ==> rules_fault(rules, rooms) == rules_fault(
            rules.take(n),
            rooms,
        ),
    decreases rules.len(),
{
    if n < rules.len() {
        rules_fault_persists(rules.drop_last(), rooms, n);
        assert(rules.drop_last().take(n) =~= rules.take(n));
    } else {
        assert(rules.take(n) =~= rules);
    }
}

/// The first rule of a list that closes a route, if any.
pub fn find_blocking_rule(rules: &Vec<BlockingRule>, sender: &str, recipient: &str) -> (r: Option<
    usize,
>)
    ensures
        match r {
            Some(i) => i < rules@.len() && blocking_rule(
                model::rules_view(rules@),
                sender@,
                recipient@,
            ) == Some(rules@[i as int]@),
            None => blocking_rule(model::rules_view(rules@), sender@, recipient@) is None,
        },
{
    let ghost all = model::rules_view(rules@);
    assert(all.skip(0) =~= all);
    for i in 0..rules.len()
        invariant
            all == model::rules_view(rules@),
            blocking_rule(all, sender@, recipient@) == blocking_rule(
                all.skip(i as int),
                sender@,
                recipient@,
            ),
    {
        assert(all.skip(i as int).skip(1) =~= all.skip(i + 1));
        assert(all.skip(i as int)[0] == rules@[i as int]@);
        if rules[i].matches_route(sender, recipient) {
            return Some(i);
        }
    }
    None
}

/// The room that a command acts as when nothing declares one: the most specific registered
/// room whose tree holds the current directory, or else the directory's own name.
pub fn infer_from_cwd(
    trees: &Vec<RoomTree>,
    cwd: &str,
    resolved_cwd: &str,
    basename: Option<&str>,
) -> (r: AppResult<(String, SenderProvenance)>)
    ensures
        match r {
            Ok(identity) => {
                ||| identity.1 == SenderProvenance::InferredCwd && exists|i: int|
                    is_home_room(trees@, resolved_cwd@, i) && trees@[i].name@ == identity.0@
                ||| identity.1 == SenderProvenance::InferredBasename && (forall|i: int|
                    0 <= i < trees@.len() ==> !holds(#[trigger] trees@[i], resolved_cwd@))
                    && basename_identity(cwd@, text::opt_str(basename)) == Ok::<
                    Seq<char>,
                    error::ErrorView,
                >(identity.0@)
            },
            Err(e) => (forall|i: int|
                0 <= i < trees@.len() ==> !holds(#[trigger] trees@[i], resolved_cwd@))
                && basename_identity(cwd@, text::opt_str(basename)) == Err::<
                Seq<char>,
                error::ErrorView,
            >(e@),
        },
{
    let mut best: Option<usize> = None;
    for i in 0..trees.len()
        invariant
            match best {
                Some(b) => b < i && holds(trees@[b as int], resolved_cwd@) && forall|j: int|
                    0 <= j < i && holds(#[trigger] trees@[j], resolved_cwd@) ==> less_specific(
                        trees@[j],
                        trees@[b as int],
                    ),
                None => forall|j: int|
                    0 <= j < i ==> !holds(#[trigger] trees@[j], resolved_cwd@),
            },
    {
        if paths::is_inside(resolved_cwd, trees[i].resolved.as_str()) {
            let ghost old_best = best;
            let better: bool = match best {
                None => true,
                Some(b) => {
                    let new_depth: usize = paths::component_count(trees[i].path.as_str());
                    let old_depth: usize = paths::component_count(trees[b].path.as_str());
                    old_depth < new_depth || (old_depth == new_depth && text::less_or_same(
                        trees[b].name.as_str(),
                        trees[i].name.as_str(),
                    ))
                },
            };
            proof {
                if let Some(b) = old_best {
                    text::lt_total(trees@[b as int].name@, trees@[i as int].name@);
                }
                assert forall|j: int|
                    0 <= j < i && holds(#[trigger] trees@[j], resolved_cwd@)
                        && better implies less_specific(trees@[j], trees@[i as int]) by {
                    let b = old_best->0 as int;
                    assert(less_specific(trees@[j], trees@[b]));
                    if trees@[j].name@ != trees@[b].name@ && trees@[b].name@ != trees@[i as int].name@
                        && text::lt(trees@[j].name@, trees@[b].name@) && text::lt(
                        trees@[b].name@,
                        trees@[i as int].name@,
                    ) {
                        text::lt_transitive(
                            trees@[j].name@,
                            trees@[b].name@,
                            trees@[i as int].name@,
                        );
                    }
                }
            }
            if better {
                best = Some(i);
            }
        }
    }
    if let Some(b) = best {
        assert(is_home_room(trees@, resolved_cwd@, b as int));
        return Ok((trees[b].name.clone(), SenderProvenance::InferredCwd));
    }
    match basename {
        None => Err(
            AppError::new(
                ErrorCode::InvalidArgument,
                text::cat3(
                    "current directory '",
                    cwd,
                    "' has no UTF-8 basename for the default sender/room",
                ).as_str(),
                "Pass `--from <NAME>` for send or `--room <ROOM>` for inbox/read.",
            ).input(cwd).reason("missing UTF-8 basename"),
        ),
        Some(name) => match names::validate_component(name) {
            Ok(_) => Ok((name.to_owned(), SenderProvenance::InferredBasename)),
            Err(reason) => Err(
                AppError::new(
                    ErrorCode::InvalidArgument,
                    text::cat4("inferred name '", name, "' is invalid: ", reason.as_str()).as_str(),
                    "Pass `--from <NAME>` for send or `--room <ROOM>` for inbox/read.",
                ).input(name).reason(reason.as_str()),
            ),
        },
    }
}

/// Refuses a registered room's name to a sender outside that room's tree.
pub fn ensure_sender_allowed(
    sender: &str,
    trees: &Vec<RoomTree>,
    cwd: &str,
    resolved_cwd: &str,
) -> (r: AppResult<()>)
    ensures
        error::failure(r) == sender_fault(trees@, sender@, cwd@, resolved_cwd@),
{
    assert(trees@.skip(0) =~= trees@);
    for i in 0..trees.len()
        invariant
            tree_of(trees@, sender@) == tree_of(trees@.skip(i as int), sender@),
    {
        assert(trees@.skip(i as int).skip(1) =~= trees@.skip(i + 1));
        let tree = &trees[i];
        assert(trees@.skip(i as int)[0] == *tree);
        if text::same(tree.name.as_str(), sender) {
            if paths::is_inside(resolved_cwd, tree.resolved.as_str()) {
                return Ok(());
            }
            let path = tree.path.as_str();
            return Err(
                AppError::new(
                    ErrorCode::ReservedSender,
                    text::cat7(
                        "sender '",
                        sender,
                        "' is reserved for registered room '",
                        path,
                        "' and cwd '",
                        cwd,
                        "' is outside its tree",
                    ).as_str(),
                    text::cat3(
                        "Run from '",
                        path,
                        "' or pass a free-form sender such as `--from codex-<project>`.",
                    ).as_str(),
                ).input(sender).reason(
                    "registered room name used outside its room tree",
                ).registered_path(path),
            );
        }
    }
    Ok(())
}

/// A registered name is claimed only inside the room's tree: where a sender name is let
/// through, it is no registered room, or the directory lies in that room's tree.
pub proof fn registered_names_are_claimed_in_their_tree(
    trees: Seq<RoomTree>,
    sender: Seq<char>,
    cwd: Seq<char>,
    resolved_cwd: Seq<char>,
    i: int,
)
    requires
        sender_fault(trees, sender, cwd, resolved_cwd) is None,
        forall|a: int, b: int|
            0 <= a < b < trees.len() ==> (#[trigger] trees[a]).name@ != (#[trigger] trees[b]).name@,
        0 <= i < trees.len(),
        trees[i].name@ == sender,
    ensures
        holds(trees[i], resolved_cwd),
{
    only_tree_of_a_name(trees, i);
}

/// A room that is inferred from the current directory may speak under its name.
pub proof fn inferred_rooms_may_send(
    trees: Seq<RoomTree>,
    cwd: Seq<char>,
    resolved_cwd: Seq<char>,
    i: int,
)
    requires
        is_home_room(trees, resolved_cwd, i),
        forall|a: int, b: int|
            0 <= a < b < trees.len() ==> (#[trigger] trees[a]).name@ != (#[trigger] trees[b]).name@,
    ensures
        sender_fault(trees, trees[i].name@, cwd, resolved_cwd) is None,
{
    only_tree_of_a_name(trees, i);
}

proof fn only_tree_of_a_name(trees: Seq<RoomTree>, i: int)
    requires
        forall|a: int, b: int|
            0 <= a < b < trees.len() ==> (#[trigger] trees[a]).name@ != (#[trigger] trees[b]).name@,
        0 <= i < trees.len(),
    ensures
        tree_of(trees, trees[i].name@) == Some(trees[i]),
    decreases trees.len(),
{
    if i > 0 {
        assert(trees[0].name@ != trees[i].name@);
        let rest = trees.skip(1);
        assert(rest[i - 1] == trees[i]);
        assert forall|a: int, b: int| 0 <= a < b < rest.len() implies (#[trigger] rest[a]).name@ != (
        #[trigger] rest[b]).name@ by {
            assert(rest[a] == trees[a + 1] && rest[b] == trees[b + 1]);
        }
        only_tree_of_a_name(rest, i - 1);
    }
}

/// The room that a `--room` option names, checked.
pub fn explicit_room(room: &str) -> (r: AppResult<()>)
    ensures
        error::failure(r) == match names::room_name_fault(room@) {
            Some(reason) => Some(bad_room_error(room@, reason)),
            None => None,
        },
{
    match names::validate_room_name(room) {
        Ok(_) => Ok(()),
        Err(reason) => Err(
            AppError::new(
                ErrorCode::InvalidArgument,
                text::cat4("room '", room, "' is invalid: ", reason.as_str()).as_str(),
                "Pass a single path-safe room name without '/' or '\\'.",
            ).input(room).reason(reason.as_str()),
        ),
    }
}

/// The room that channel operations act as: it must be registered.
pub fn acting_room(identity: &str, rooms: &RoomMap) -> (r: AppResult<()>)
    ensures
        error::failure(r) == if rooms@.contains_key(identity@) {
            None
        } else {
            Some(unregistered_room_error(identity@))
        },
{
    if rooms.contains_key(identity) {
        return Ok(());
    }
    Err(
        AppError::new(
            ErrorCode::UnknownRoom,
            text::cat3(
                "channel operations require a registered room; cwd resolves to '",
                identity,
                "', which is not in rooms.json",
            ).as_str(),
            "Run from inside a registered room tree, or register one with `post rooms add <name> <path>`.",
        ).input(identity).reason("cwd is outside every registered room tree"),
    )
}

} // verus!
