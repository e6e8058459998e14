//! The registry of rooms: adding a room, and listing the rooms with the rules that bind them.
use crate::error;
use crate::error::{AppError, AppResult, ErrorCode};
use crate::model;
use crate::model::{BlockingRule, RulesConfig};
use crate::names;
use crate::output::{RoomOutput, RoomsOutput};
use crate::outside;
use crate::paths;
use crate::paths::PathPart;
use crate::text;
use crate::textmap::RoomMap;
use vstd::prelude::*;

verus! {

// ---------------------------------------------------------------------------
// Names
// ---------------------------------------------------------------------------
pub open spec fn bad_name_error(name: Seq<char>, reason: Seq<char>) -> error::ErrorView {
    error::ErrorView::of(
        ErrorCode::InvalidArgument,
        "room name '"@ + name + "' is invalid: "@ + reason,
        "Pass a single path-safe room name without '/' or '\\'."@,
    ).input(name).reason(reason)
}

/// Refuses a name that cannot be a room's.
pub fn check_room_name(name: &str) -> (r: AppResult<()>)
    ensures
        error::failure(r) == match names::room_name_fault(name@) {
            Some(reason) => Some(bad_name_error(name@, reason)),
            None => None,
        },
{
    match names::validate_room_name(name) {
        Ok(_) => Ok(()),
        Err(reason) => Err(
            AppError::new(
                ErrorCode::InvalidArgument,
                text::cat4("room name '", name, "' is invalid: ", reason.as_str()).as_str(),
                "Pass a single path-safe room name without '/' or '\\'.",
            ).input(name).reason(reason.as_str()),
        ),
    }
}

/// The first name of a list that differs from another name in the case of ASCII letters at
/// most.
pub open spec fn same_folded(known: Seq<Seq<char>>, name: Seq<char>) -> Option<Seq<char>>
    decreases known.len(),
{
    if known.len() == 0 {
        None
    } else if text::ascii_folded(known[0]) == text::ascii_folded(name) {
        Some(known[0])
    } else {
        same_folded(known.skip(1), name)
    }
}

pub open spec fn taken_name_error(name: Seq<char>, known: Seq<char>) -> error::ErrorView {
    error::ErrorView::of(
        ErrorCode::InvalidArgument,
        "room '"@ + name + "' is already registered as '"@ + known + "' under ASCII case folding"@,
        "Choose a new room name; edit rooms.json by hand if the existing path is wrong."@,
    ).input(name).room(known).reason("duplicate room name under ASCII case folding"@)
}

/// Refuses a name that a registered room has, in any case.
pub fn check_name_free(name: &str, rooms: &RoomMap) -> (r: AppResult<()>)
    ensures
        error::failure(r) == match same_folded(rooms.keys(), name@) {
            Some(known) => Some(taken_name_error(name@, known)),
            None => None,
        },
{
    let count: usize = rooms.len();
    let ghost keys = rooms.keys();
    let folded = text::ascii_fold(name);
    assert(keys.skip(0) =~= keys);
    for i in 0..count
        invariant
            count == keys.len(),
            keys == rooms.keys(),
            folded@ == text::ascii_folded(name@),
            same_folded(keys, name@) == same_folded(keys.skip(i as int), name@),
    {
        assert(keys.skip(i as int).skip(1) =~= keys.skip(i + 1));
        assert(keys.skip(i as int)[0] == keys[i as int]);
        let known = rooms.key_at(i).as_str();
        if text::same(text::ascii_fold(known).as_str(), folded.as_str()) {
            return Err(
                AppError::new(
                    ErrorCode::InvalidArgument,
                    text::cat5(
                        "room '",
                        name,
                        "' is already registered as '",
                        known,
                        "' under ASCII case folding",
                    ).as_str(),
                    "Choose a new room name; edit rooms.json by hand if the existing path is wrong.",
                ).input(name).room(known).reason("duplicate room name under ASCII case folding"),
            );
        }
    }
    Ok(())
}

/// A free name is new: it is none of the registered ones, in any case.
pub proof fn free_names_are_new(known: Seq<Seq<char>>, name: Seq<char>)
    requires
        same_folded(known, name) is None,
    ensures
        forall|i: int|
            0 <= i < known.len() ==> text::ascii_folded(#[trigger] known[i]) != text::ascii_folded(
                name,
            ),
        !known.contains(name),
    decreases known.len(),
{
    if known.len() > 0 {
        free_names_are_new(known.skip(1), name);
        assert forall|i: int| 0 <= i < known.len() implies text::ascii_folded(#[trigger] known[i])
            != text::ascii_folded(name) by {
            if i > 0 {
                assert(known.skip(1)[i - 1] == known[i]);
            }
        }
    }
}

// ---------------------------------------------------------------------------
// Workspaces
// ---------------------------------------------------------------------------
pub open spec fn bad_path_error(path: Seq<char>, reason: Seq<char>) -> error::ErrorView {
    error::ErrorView::of(
        ErrorCode::InvalidArgument,
        "room path '"@ + path + "' is invalid: "@ + reason,
        "Pass an existing directory using an absolute path or a path starting with '~/'."@,
    ).input(path).reason(reason)
}

/// The error of a room path that cannot be expanded.
pub fn bad_room_path(path: &str, reason: &str) -> (r: AppError)
    ensures
        r@ == bad_path_error(path@, reason@),
{
    AppError::new(
        ErrorCode::InvalidArgument,
        text::cat4("room path '", path, "' is invalid: ", reason).as_str(),
        "Pass an existing directory using an absolute path or a path starting with '~/'.",
    ).input(path).reason(reason)
}

pub open spec fn missing_workspace_error(path: Seq<char>, expanded: Seq<char>) -> error::ErrorView {
    error::ErrorView::of(
        ErrorCode::InvalidArgument,
        "room path '"@ + expanded + "' does not exist"@,
        "Create the workspace directory, then retry the same command."@,
    ).input(path).reason("path does not exist"@)
}

/// The error of a room path where nothing is.
pub fn missing_workspace(path: &str, expanded: &str) -> (r: AppError)
    ensures
        r@ == missing_workspace_error(path@, expanded@),
{
    AppError::new(
        ErrorCode::InvalidArgument,
        text::cat3("room path '", expanded, "' does not exist").as_str(),
        "Create the workspace directory, then retry the same command.",
    ).input(path).reason("path does not exist")
}

pub open spec fn no_directory_error(path: Seq<char>, expanded: Seq<char>) -> error::ErrorView {
    error::ErrorView::of(
        ErrorCode::InvalidArgument,
        "room path '"@ + expanded + "' is not a directory"@,
        "Pass an existing workspace directory."@,
    ).input(path).reason("path is not a directory"@)
}

/// The error of a room path that is no directory.
pub fn workspace_no_directory(path: &str, expanded: &str) -> (r: AppError)
    ensures
        r@ == no_directory_error(path@, expanded@),
{
    AppError::new(
        ErrorCode::InvalidArgument,
        text::cat3("room path '", expanded, "' is not a directory").as_str(),
        "Pass an existing workspace directory.",
    ).input(path).reason("path is not a directory")
}

/// What is known of the workspace of a registered room.
#[derive(Debug)]
pub enum Resolution {
    /// Where it really lies.
    Canonical(String),
    /// It could not be resolved, for a reason of the given kind; its path without the parts
    /// that lead back.
    Unresolved { normalized: String, kind: String },
}

/// The workspace of a registered room.
#[derive(Debug)]
pub struct Workspace {
    pub room: String,
    /// Its path, expanded.
    pub path: String,
    pub resolution: Resolution,
}

/// A workspace that is to be registered: where it really lies, and its paths without the
/// parts that lead back.
#[derive(Debug)]
pub struct Candidate {
    /// The path as it was given.
    pub path: String,
    pub canonical: String,
    pub normalized_canonical: String,
    pub normalized_expanded: String,
}

/// Whether a registered workspace is the one that is to be registered.
pub open spec fn same_workspace(known: Workspace, new: Candidate) -> bool {
    match known.resolution {
        Resolution::Canonical(path) => path@ == new.canonical@,
        Resolution::Unresolved { normalized, kind } => normalized@ == new.normalized_canonical@
            || normalized@ == new.normalized_expanded@,
    }
}

pub open spec fn duplicate_workspace_error(new: Candidate, room: Seq<char>) -> error::ErrorView {
    error::ErrorView::of(
        ErrorCode::DuplicateWorkspace,
        "workspace '"@ + new.canonical@ + "' is already registered as room '"@ + room + "'"@,
        "Use the existing room name; workspace aliases are not allowed."@,
    ).input(new.path@).room(room).registered_path(new.canonical@).reason(
        "workspace path is already registered"@,
    )
}

/// The room that has the workspace already.
pub open spec fn workspace_holder(known: Seq<Workspace>, new: Candidate) -> Option<Seq<char>>
    decreases known.len(),
{
    if known.len() == 0 {
        None
    } else if same_workspace(known[0], new) {
        Some(known[0].room@)
    } else {
        workspace_holder(known.skip(1), new)
    }
}

/// What is said of a workspace that could not be resolved.
pub open spec fn unresolved_warning(room: Seq<char>, path: Seq<char>, kind: Seq<char>) -> Seq<char> {
    "post: warning: registered room "@ + outside::debug_form(room) + " at "@ + outside::debug_form(
        path,
    ) + " could not be canonicalized ("@ + kind
        + "); duplicate-workspace checks for it are limited to normalized path strings"@
}

/// What is said of the workspaces that could not be resolved.
pub open spec fn unresolved_warnings(known: Seq<Workspace>) -> Seq<Seq<char>>
    decreases known.len(),
{
    if known.len() == 0 {
        seq![]
    } else {
        let before = unresolved_warnings(known.drop_last());
        let w = known.last();
        match w.resolution {
            Resolution::Canonical(_) => before,
            Resolution::Unresolved { normalized, kind } => before.push(
                unresolved_warning(w.room@, w.path@, kind@),
            ),
        }
    }
}

/// Refuses a workspace that another room has, and says what is to be said of the others.
pub fn check_workspace(known: &Vec<Workspace>, new: &Candidate) -> (r: AppResult<Vec<String>>)
    ensures
        match r {
            Ok(warnings) => workspace_holder(known@, *new) is None && text::texts(warnings@)
                == unresolved_warnings(known@),
            Err(e) => workspace_holder(known@, *new) is Some && e@ == duplicate_workspace_error(
                *new,
                workspace_holder(known@, *new)->0,
            ),
        },
{
    let mut warnings: Vec<String> = Vec::new();
    assert(known@.skip(0) =~= known@);
    assert(text::texts(warnings@) =~= unresolved_warnings(known@.take(0)));
    for i in 0..known.len()
        invariant
            workspace_holder(known@, *new) == workspace_holder(known@.skip(i as int), *new),
            text::texts(warnings@) == unresolved_warnings(known@.take(i as int)),
    {
        let ghost said = text::texts(warnings@);
        assert(known@.skip(i as int).skip(1) =~= known@.skip(i + 1));
        assert(known@.skip(i as int)[0] == known@[i as int]);
        assert(known@.take(i + 1).drop_last() =~= known@.take(i as int));
        let w = &known[i];
        let taken: bool = match &w.resolution {
            Resolution::Canonical(path) => text::same(path.as_str(), new.canonical.as_str()),
            Resolution::Unresolved { normalized, kind } => {
                let duplicate: bool = text::same(
                    normalized.as_str(),
                    new.normalized_canonical.as_str(),
                ) || text::same(normalized.as_str(), new.normalized_expanded.as_str());
                if !duplicate {
                    let line = text::cat7(
                        "post: warning: registered room ",
                        outside::debug_quoted(w.room.as_str()).as_str(),
                        " at ",
                        outside::debug_quoted(w.path.as_str()).as_str(),
                        " could not be canonicalized (",
                        kind.as_str(),
                        "); duplicate-workspace checks for it are limited to normalized path strings",
                    );
                    warnings.push(line);
                    assert(text::texts(warnings@) =~= said.push(line@));
                }
                duplicate
            },
        };
        if taken {
            return Err(
                AppError::new(
                    ErrorCode::DuplicateWorkspace,
                    text::cat5(
                        "workspace '",
                        new.canonical.as_str(),
                        "' is already registered as room '",
                        w.room.as_str(),
                        "'",
                    ).as_str(),
                    "Use the existing room name; workspace aliases are not allowed.",
                ).input(new.path.as_str()).room(w.room.as_str()).registered_path(
                    new.canonical.as_str(),
                ).reason("workspace path is already registered"),
            );
        }
    }
    assert(known@.take(known@.len() as int) =~= known@);
    Ok(warnings)
}

/// A workspace has one room: where no room holds a new workspace, it is none of the
/// registered ones.
pub proof fn workspaces_have_one_room(known: Seq<Workspace>, new: Candidate, i: int)
    requires
        workspace_holder(known, new) is None,
        0 <= i < known.len(),
    ensures
        !same_workspace(known[i], new),
    decreases known.len(),
{
    if i > 0 {
        assert(known.skip(1)[i - 1] == known[i]);
        workspaces_have_one_room(known.skip(1), new, i - 1);
    }
}

// ---------------------------------------------------------------------------
// Paths without the parts that lead back
// ---------------------------------------------------------------------------
/// A path that is built part by part.
#[derive(Debug)]
pub struct NormalPath {
    pub rooted: bool,
    pub parts: Vec<String>,
}

pub ghost struct NormalView {
    pub rooted: bool,
    pub parts: Seq<Seq<char>>,
}

impl View for NormalPath {
    type V = NormalView;

    open spec fn view(&self) -> NormalView {
        NormalView { rooted: self.rooted, parts: text::texts(self.parts@) }
    }
}

/// The path after one more part. A `..` leads back only where the path so far is no link;
/// otherwise where it leads cannot be told from the text, and it stays.
pub open spec fn walked(
    path: NormalView,
    part: paths::PartView,
    leads_back: bool,
) -> NormalView {
    match part {
        paths::PartView::Root => NormalView { rooted: true, parts: seq![] },
        paths::PartView::Current => path,
        paths::PartView::Parent => if leads_back {
            if path.parts.len() == 0 {
                path
            } else {
                NormalView { parts: path.parts.drop_last(), ..path }
            }
        } else {
            NormalView { parts: path.parts.push(".."@), ..path }
        },
        paths::PartView::Normal(name) => NormalView { parts: path.parts.push(name), ..path },
    }
}

/// A path as text.
pub open spec fn path_text(path: NormalView) -> Seq<char> {
    if path.rooted {
        "/"@ + text::joined(path.parts, "/"@)
    } else {
        text::joined(path.parts, "/"@)
    }
}

impl NormalPath {
    /// The path without parts.
    pub fn new() -> (r: NormalPath)
        ensures
            r@ == (NormalView { rooted: false, parts: seq![] }),
    {
        let r = NormalPath { rooted: false, parts: Vec::new() };
        assert(text::texts(r.parts@) =~= seq![]);
        r
    }

    /// The path as text.
    pub fn as_text(&self) -> (r: String)
        ensures
            r@ == path_text(self@),
    {
        let tail = text::join_texts(&self.parts, "/");
        if self.rooted {
            text::cat2("/", tail.as_str())
        } else {
            tail
        }
    }

    /// Takes one more part.
    pub fn walk(&mut self, part: &PathPart, leads_back: bool)
        ensures
            final(self)@ == walked(old(self)@, part@, leads_back),
    {
        let ghost before = text::texts(self.parts@);
        match part {
            PathPart::Root => {
                self.rooted = true;
                self.parts = Vec::new();
                assert(text::texts(self.parts@) =~= seq![]);
            },
            PathPart::Current => {},
            PathPart::Parent => {
                if leads_back {
                    if self.parts.len() > 0 {
                        let _ = self.parts.pop();
                        assert(text::texts(self.parts@) =~= before.drop_last());
                    }
                } else {
                    self.parts.push("..".to_owned());
                    assert(text::texts(self.parts@) =~= before.push(".."@));
                }
            },
            PathPart::Normal(name) => {
                self.parts.push(name.clone());
                assert(text::texts(self.parts@) =~= before.push(name@));
            },
        }
    }
}

/// The path after all parts of a list, where nothing is a link.
pub open spec fn walked_all(parts: Seq<paths::PartView>) -> NormalView
    decreases parts.len(),
{
    if parts.len() == 0 {
        NormalView { rooted: false, parts: seq![] }
    } else {
        walked(walked_all(parts.drop_last()), parts.last(), true)
    }
}

/// Where nothing is a link, the path that comes out has no part that leads back: every part
/// is a name of the path that went in.
pub proof fn plain_paths_lead_nowhere_back(parts: Seq<paths::PartView>)
    ensures
        forall|i: int|
            0 <= i < walked_all(parts).parts.len() ==> parts.contains(
                paths::PartView::Normal(#[trigger] walked_all(parts).parts[i]),
            ),
    decreases parts.len(),
{
    if parts.len() > 0 {
        let before = parts.drop_last();
        plain_paths_lead_nowhere_back(before);
        let old_path = walked_all(before);
        let path = walked_all(parts);
        assert forall|i: int| 0 <= i < path.parts.len() implies parts.contains(
            paths::PartView::Normal(#[trigger] path.parts[i]),
        ) by {
            if i < old_path.parts.len() && path.parts[i] == old_path.parts[i] {
                let k = choose|k: int|
                    0 <= k < before.len() && before[k] == paths::PartView::Normal(
                        old_path.parts[i],
                    );
                assert(parts[k] == before[k]);
            } else {
                assert(parts[parts.len() - 1] == parts.last());
            }
        }
    }
}

// ---------------------------------------------------------------------------
// Rules and listing
// ---------------------------------------------------------------------------
/// The first rule that closes routes to a room.
pub open spec fn targeting_rule(rules: Seq<model::RuleView>, name: Seq<char>) -> Option<
    model::RuleView,
>
    decreases rules.len(),
{
    if rules.len() == 0 {
        None
    } else if rules[0].covers(name) {
        Some(rules[0])
    } else {
        targeting_rule(rules.skip(1), name)
    }
}

pub open spec fn blocked_room_error(name: Seq<char>, rule: model::RuleView) -> error::ErrorView {
    error::ErrorView::of(
        ErrorCode::BlockedRoute,
        "room '"@ + name + "' cannot be registered because a route to it is blocked: "@
            + rule.reason,
        "Do not route around this block. Ask the human operator to review rules.json."@,
    ).input(name).reason(rule.reason).rule(rule)
}

/// Refuses a room that a rule speaks of.
pub fn check_not_blocked(name: &str, rules: &Vec<BlockingRule>) -> (r: AppResult<()>)
    ensures
        error::failure(r) == match targeting_rule(model::rules_view(rules@), name@) {
            Some(rule) => Some(blocked_room_error(name@, rule)),
            None => None,
        },
{
    let ghost all = model::rules_view(rules@);
    assert(all.skip(0) =~= all);
    for i in 0..rules.len()
        invariant
            all == model::rules_view(rules@),
            targeting_rule(all, name@) == targeting_rule(all.skip(i as int), name@),
    {
        assert(all.skip(i as int).skip(1) =~= all.skip(i + 1));
        assert(all.skip(i as int)[0] == rules@[i as int]@);
        if rules[i].targets(name) {
            let rule = &rules[i];
            return Err(
                AppError::new(
                    ErrorCode::BlockedRoute,
                    text::cat4(
                        "room '",
                        name,
                        "' cannot be registered because a route to it is blocked: ",
                        rule.reason.as_str(),
                    ).as_str(),
                    "Do not route around this block. Ask the human operator to review rules.json.",
                ).input(name).reason(rule.reason.as_str()).rule(rule.clone()),
            );
        }
    }
    Ok(())
}

/// The rules that close routes to a room.
pub open spec fn rules_on(rules: Seq<model::RuleView>, name: Seq<char>) -> Seq<model::RuleView> {
    rules.filter(|rule: model::RuleView| rule.covers(name))
}

fn collect_rules(rules: &Vec<BlockingRule>, name: &str) -> (r: Vec<BlockingRule>)
    ensures
        model::rules_view(r@) == rules_on(model::rules_view(rules@), name@),
{
    let ghost all = model::rules_view(rules@);
    let ghost f = |rule: model::RuleView| rule.covers(name@);
    let mut out: Vec<BlockingRule> = Vec::new();
    reveal(Seq::filter);
    assert(model::rules_view(out@) =~= all.take(0).filter(f));
    for i in 0..rules.len()
        invariant
            all == model::rules_view(rules@),
            f == (|rule: model::RuleView| rule.covers(name@)),
            model::rules_view(out@) == all.take(i as int).filter(f),
    {
        reveal(Seq::filter);
        let ghost before = model::rules_view(out@);
        assert(all.take(i + 1).drop_last() =~= all.take(i as int));
        assert(all.take(i + 1).last() == rules@[i as int]@);
        if rules[i].targets(name) {
            out.push(rules[i].clone());
            assert(model::rules_view(out@) =~= before.push(rules@[i as int]@));
        }
    }
    assert(all.take(all.len() as int) =~= all);
    out
}

/// Whether a listing shows the rooms of a registry, in order, each with the rules that close
/// routes to it.
pub open spec fn lists_rooms(
    listed: Seq<RoomOutput>,
    names: Seq<Seq<char>>,
    rooms: Map<Seq<char>, String>,
    rules: Seq<model::RuleView>,
) -> bool {
    &&& listed.len() == names.len()
    &&& forall|i: int|
        #![trigger listed[i]]
        0 <= i < listed.len() ==> {
            &&& listed[i].name@ == names[i]
            &&& listed[i].path@ == rooms[names[i]]@
            &&& model::rules_view(listed[i].blocked@) == rules_on(rules, names[i])
        }
}

/// The listing of the rooms.
pub fn rooms_output(rooms: &RoomMap, rules: &RulesConfig) -> (r: RoomsOutput)
    ensures
        r.ok,
        r.count == r.rooms@.len(),
        lists_rooms(r.rooms@, rooms.keys(), rooms@, model::rules_view(rules.blocked@)),
{
    let count: usize = rooms.len();
    let mut listed: Vec<RoomOutput> = Vec::new();
    for i in 0..count
        invariant
            count == rooms.keys().len(),
            listed@.len() == i,
            forall|k: int|
                #![trigger listed@[k]]
                0 <= k < i ==> {
                    &&& listed@[k].name@ == rooms.keys()[k]
                    &&& listed@[k].path@ == rooms@[rooms.keys()[k]]@
                    &&& model::rules_view(listed@[k].blocked@) == rules_on(
                        model::rules_view(rules.blocked@),
                        rooms.keys()[k],
                    )
                },
    {
        let name = rooms.key_at(i);
        listed.push(
            RoomOutput {
                name: name.clone(),
                path: rooms.value_at(i).clone(),
                blocked: collect_rules(&rules.blocked, name.as_str()),
            },
        );
    }
    RoomsOutput { ok: true, rooms: listed, count }
}

} // verus!
