//! Which rooms the registry takes, and what it says of them.
use vstd::prelude::*;

use crate::context;
use crate::error::ErrorCode;
use crate::model;
use crate::names;
use crate::output::RoomOutput;
use crate::paths;
use crate::registering;
use crate::registering::{Inspection, RegisterEventView, RegisteringView};
use crate::rooms;
use crate::rooms::{Candidate, NormalView, Resolution, Workspace};
use crate::text;

verus! {

/// A name is taken exactly when a registered one differs from it in case at most, and the one told
/// is such a name.
pub proof fn names_are_taken_whatever_their_case(known: Seq<Seq<char>>, name: Seq<char>)
    ensures
        rooms::same_folded(known, name) is Some <==> exists|i: int|
            0 <= i < known.len() && text::ascii_folded(#[trigger] known[i]) == text::ascii_folded(
                name,
            ),
        rooms::same_folded(known, name) matches Some(other) ==> known.contains(other)
            && text::ascii_folded(other) == text::ascii_folded(name),
    decreases known.len(),
{
    if known.len() > 0 {
        let rest = known.skip(1);
        names_are_taken_whatever_their_case(rest, name);
        if text::ascii_folded(known[0]) == text::ascii_folded(name) {
            assert(known.contains(known[0]));
        } else {
            if rooms::same_folded(rest, name) is Some {
                let i = choose|i: int|
                    0 <= i < rest.len() && text::ascii_folded(#[trigger] rest[i])
                        == text::ascii_folded(name);
                assert(known[i + 1] == rest[i]);
                let other = rooms::same_folded(rest, name)->0;
                let j = choose|j: int| 0 <= j < rest.len() && rest[j] == other;
                assert(known[j + 1] == other);
            }
            if exists|i: int|
                0 <= i < known.len() && text::ascii_folded(#[trigger] known[i])
                    == text::ascii_folded(name) {
                let i = choose|i: int|
                    0 <= i < known.len() && text::ascii_folded(#[trigger] known[i])
                        == text::ascii_folded(name);
                assert(rest[i - 1] == known[i]);
            }
        }
    }
}

/// Whether a registered workspace is the one that is to be registered: where it was resolved, its
/// place is the same; where it was not, its path reads the same as either form of the new one.
pub open spec fn is_the_same_place(known: Workspace, new: Candidate) -> bool {
    match known.resolution {
        Resolution::Canonical(place) => place@ == new.canonical@,
        Resolution::Unresolved { normalized, .. } => normalized@ == new.normalized_canonical@
            || normalized@ == new.normalized_expanded@,
    }
}

/// A workspace is taken exactly when a registered room has it.
pub proof fn workspaces_are_taken_by_place(known: Seq<Workspace>, new: Candidate)
    ensures
        rooms::workspace_holder(known, new) is Some <==> exists|i: int|
            0 <= i < known.len() && is_the_same_place(#[trigger] known[i], new),
        rooms::workspace_holder(known, new) matches Some(room) ==> exists|i: int|
            0 <= i < known.len() && is_the_same_place(#[trigger] known[i], new) && known[i].room@
                == room,
    decreases known.len(),
{
    if known.len() > 0 {
        let rest = known.skip(1);
        workspaces_are_taken_by_place(rest, new);
        assert(is_the_same_place(known[0], new) == rooms::same_workspace(known[0], new));
        if !rooms::same_workspace(known[0], new) {
            if rooms::workspace_holder(rest, new) is Some {
                let i = choose|i: int|
                    0 <= i < rest.len() && is_the_same_place(#[trigger] rest[i], new)
                        && rest[i].room@ == rooms::workspace_holder(rest, new)->0;
                assert(known[i + 1] == rest[i]);
            }
            if exists|i: int| 0 <= i < known.len() && is_the_same_place(#[trigger] known[i], new) {
                let i = choose|i: int|
                    0 <= i < known.len() && is_the_same_place(#[trigger] known[i], new);
                assert(rest[i - 1] == known[i]);
            }
        }
    }
}

/// One warning is given for each registered workspace that could not be resolved, in their order,
/// and none for one that could.
pub proof fn unresolved_workspaces_are_warned_of(known: Seq<Workspace>, one: Workspace)
    ensures
        rooms::unresolved_warnings(seq![]) == Seq::<Seq<char>>::empty(),
        one.resolution is Canonical ==> rooms::unresolved_warnings(known.push(one))
            == rooms::unresolved_warnings(known),
        one.resolution is Unresolved ==> rooms::unresolved_warnings(known.push(one)).len()
            == rooms::unresolved_warnings(known).len() + 1 && rooms::unresolved_warnings(
            known.push(one),
        ).drop_last() == rooms::unresolved_warnings(known),
{
    assert(known.push(one).drop_last() =~= known);
    if one.resolution is Unresolved {
        assert(rooms::unresolved_warnings(known.push(one)).drop_last()
            =~= rooms::unresolved_warnings(known));
    }
}

/// A path without its detours: a name is put behind, a dot is nothing, two dots take the last name
/// away, and the root starts anew.
pub proof fn detours_are_taken_out_of_paths(parts: Seq<paths::PartView>, name: Seq<char>)
    ensures
        rooms::walked_all(seq![]) == (NormalView { rooted: false, parts: seq![] }),
        rooms::walked_all(parts.push(paths::PartView::Normal(name))).parts == rooms::walked_all(
            parts,
        ).parts.push(name),
        rooms::walked_all(parts.push(paths::PartView::Normal(name))).rooted == rooms::walked_all(
            parts,
        ).rooted,
        rooms::walked_all(parts.push(paths::PartView::Current)) == rooms::walked_all(parts),
        rooms::walked_all(
            parts.push(paths::PartView::Normal(name)).push(paths::PartView::Parent),
        ) == rooms::walked_all(parts),
        rooms::walked_all(parts.push(paths::PartView::Root)) == (NormalView {
            rooted: true,
            parts: seq![],
        }),
        rooms::walked_all(parts).parts.len() == 0 ==> rooms::walked_all(
            parts.push(paths::PartView::Parent),
        ) == rooms::walked_all(parts),
{
    let named = parts.push(paths::PartView::Normal(name));
    assert(named.drop_last() =~= parts);
    assert(parts.push(paths::PartView::Current).drop_last() =~= parts);
    assert(named.push(paths::PartView::Parent).drop_last() =~= named);
    assert(parts.push(paths::PartView::Root).drop_last() =~= parts);
    assert(parts.push(paths::PartView::Parent).drop_last() =~= parts);
    assert(rooms::walked_all(parts).parts.push(name).drop_last() =~= rooms::walked_all(
        parts,
    ).parts);
}

/// A step back that cannot be followed, because what it leads back from is no plain directory, is
/// kept as it is written.
pub proof fn steps_back_are_kept_where_they_cannot_be_followed(path: NormalView)
    ensures
        rooms::walked(path, paths::PartView::Parent, false).parts == path.parts.push(".."@),
        rooms::walked(path, paths::PartView::Parent, false).rooted == path.rooted,
        rooms::path_text(path) == if path.rooted {
            "/"@ + text::joined(path.parts, "/"@)
        } else {
            text::joined(path.parts, "/"@)
        },
{
}

/// The rules listed with a room are those whose recipient is the room or everyone, all of them and
/// in their order.
pub proof fn rooms_are_listed_with_the_rules_on_them(
    rules: Seq<model::RuleView>,
    rule: model::RuleView,
    name: Seq<char>,
)
    ensures
        rooms::rules_on(seq![], name) == Seq::<model::RuleView>::empty(),
        rule.to == "*"@ || rule.to == name ==> rooms::rules_on(rules.push(rule), name)
            == rooms::rules_on(rules, name).push(rule),
        rule.to != "*"@ && rule.to != name ==> rooms::rules_on(rules.push(rule), name)
            == rooms::rules_on(rules, name),
{
    reveal(Seq::filter);
    assert(rules.push(rule).drop_last() =~= rules);
}

/// The list of rooms has one entry for each registered room, with its name, its path and the rules
/// on it.
pub proof fn every_room_is_listed(
    listed: Seq<RoomOutput>,
    names: Seq<Seq<char>>,
    map: Map<Seq<char>, String>,
    rules: Seq<model::RuleView>,
    i: int,
)
    requires
        rooms::lists_rooms(listed, names, map, rules),
        0 <= i < names.len(),
    ensures
        listed.len() == names.len(),
        listed[i].name@ == names[i],
        listed[i].path@ == map[names[i]]@,
        model::rules_view(listed[i].blocked@) == rooms::rules_on(rules, names[i]),
{
}

/// What a room is refused for before its workspace is looked at: its name, another of that name, or
/// a path that leads nowhere; then, and only then, is the workspace looked at.
pub proof fn requests_are_refused_by_what_they_name(
    home: Seq<char>,
    known: Seq<Seq<char>>,
    name: Seq<char>,
    path: Seq<char>,
)
    ensures
        names::room_name_fault(name) is None && rooms::same_folded(known, name) is None
            && context::expanded(home, path) is Ok ==> registering::first(home, known, name, path)
            == (RegisteringView::Inspect { expanded: context::expanded(home, path)->Ok_0 }),
        names::room_name_fault(name) is Some || rooms::same_folded(known, name) is Some
            || context::expanded(home, path) is Err ==> {
            let state = registering::first(home, known, name, path);
            &&& state is Failed
            &&& state->Failed_error.code == ErrorCode::InvalidArgument
        },
        names::room_name_fault(name) is None && rooms::same_folded(known, name) is Some ==> {
            let state = registering::first(home, known, name, path);
            &&& state->Failed_error.details.input == Some(name)
            &&& state->Failed_error.details.room == rooms::same_folded(known, name)
        },
{
}

/// A workspace is refused when it is missing or no directory, and when another room has it; a room
/// that a rule names is refused as blocked, with the rule. Each refusal says so by its code.
pub proof fn rooms_are_refused_by_what_is_there(
    name: Seq<char>,
    path: Seq<char>,
    expanded: Seq<char>,
    candidate: Candidate,
    known: Seq<Workspace>,
    rules: Seq<model::RuleView>,
    warnings: Seq<Seq<char>>,
)
    ensures
        registering::next(
            name,
            path,
            RegisteringView::Inspect { expanded },
            RegisterEventView::Inspected(Inspection::Missing),
        ) matches RegisteringView::Failed { error } && error.code == ErrorCode::InvalidArgument,
        registering::next(
            name,
            path,
            RegisteringView::Inspect { expanded },
            RegisterEventView::Inspected(Inspection::NoDirectory),
        ) matches RegisteringView::Failed { error } && error.code == ErrorCode::InvalidArgument,
        registering::next(
            name,
            path,
            RegisteringView::Inspect { expanded },
            RegisterEventView::Inspected(Inspection::Directory(candidate)),
        ) == (RegisteringView::Compare { candidate }),
        (exists|i: int| 0 <= i < known.len() && is_the_same_place(#[trigger] known[i], candidate))
            ==> (registering::next(
            name,
            path,
            RegisteringView::Compare { candidate },
            RegisterEventView::Workspaces(known),
        ) matches RegisteringView::Failed { error } && error.code == ErrorCode::DuplicateWorkspace
            && error.details.room == rooms::workspace_holder(known, candidate)),
        (forall|i: int| 0 <= i < known.len() ==> !is_the_same_place(#[trigger] known[i], candidate))
            ==> registering::next(
            name,
            path,
            RegisteringView::Compare { candidate },
            RegisterEventView::Workspaces(known),
        ) == (RegisteringView::LoadRules { warnings: rooms::unresolved_warnings(known) }),
        (exists|i: int|
            0 <= i < rules.len() && ((#[trigger] rules[i]).to == "*"@ || rules[i].to == name)) ==> (
        registering::next(
            name,
            path,
            RegisteringView::LoadRules { warnings },
            RegisterEventView::Rules(rules),
        ) matches RegisteringView::Failed { error } && error.code == ErrorCode::BlockedRoute
            && error.details.input == Some(name)),
        (forall|i: int|
            0 <= i < rules.len() ==> (#[trigger] rules[i]).to != "*"@ && rules[i].to != name)
            ==> registering::next(
            name,
            path,
            RegisteringView::LoadRules { warnings },
            RegisterEventView::Rules(rules),
        ) == (RegisteringView::Write { warnings }),
        registering::next(
            name,
            path,
            RegisteringView::Write { warnings },
            RegisterEventView::Written,
        ) == (RegisteringView::Done { warnings }),
{
    workspaces_are_taken_by_place(known, candidate);
    targeted(rules, name);
}

proof fn targeted(rules: Seq<model::RuleView>, name: Seq<char>)
    ensures
        rooms::targeting_rule(rules, name) is Some <==> exists|i: int|
            0 <= i < rules.len() && ((#[trigger] rules[i]).to == "*"@ || rules[i].to == name),
    decreases rules.len(),
{
    if rules.len() > 0 {
        let rest = rules.skip(1);
        targeted(rest, name);
        if !rules[0].covers(name) {
            if rooms::targeting_rule(rest, name) is Some {
                let i = choose|i: int|
                    0 <= i < rest.len() && ((#[trigger] rest[i]).to == "*"@ || rest[i].to == name);
                assert(rules[i + 1] == rest[i]);
            }
            if exists|i: int|
                0 <= i < rules.len() && ((#[trigger] rules[i]).to == "*"@ || rules[i].to == name) {
                let i = choose|i: int|
                    0 <= i < rules.len() && ((#[trigger] rules[i]).to == "*"@ || rules[i].to
                        == name);
                assert(rest[i - 1] == rules[i]);
            }
        }
    }
}

/// An unhindered room is registered: with a free and proper name, a path that leads to a directory
/// which no room has, and no rule on it, the registry is written.
pub proof fn unhindered_rooms_are_registered(
    home: Seq<char>,
    known: Seq<Seq<char>>,
    name: Seq<char>,
    path: Seq<char>,
    candidate: Candidate,
    workspaces: Seq<Workspace>,
    rules: Seq<model::RuleView>,
)
    requires
        names::room_name_fault(name) is None,
        forall|i: int|
            0 <= i < known.len() ==> text::ascii_folded(#[trigger] known[i]) != text::ascii_folded(
                name,
            ),
        context::expanded(home, path) is Ok,
        forall|i: int|
            0 <= i < workspaces.len() ==> !is_the_same_place(#[trigger] workspaces[i], candidate),
        forall|i: int|
            0 <= i < rules.len() ==> (#[trigger] rules[i]).to != "*"@ && rules[i].to != name,
    ensures
        registering::run(
            home,
            known,
            name,
            path,
            seq![
                RegisterEventView::Inspected(Inspection::Directory(candidate)),
                RegisterEventView::Workspaces(workspaces),
                RegisterEventView::Rules(rules),
                RegisterEventView::Written,
            ],
        ) == (RegisteringView::Done { warnings: rooms::unresolved_warnings(workspaces) }),
{
    names_are_taken_whatever_their_case(known, name);
    workspaces_are_taken_by_place(workspaces, candidate);
    targeted(rules, name);
    let a = RegisterEventView::Inspected(Inspection::Directory(candidate));
    let b = RegisterEventView::Workspaces(workspaces);
    let c = RegisterEventView::Rules(rules);
    let d = RegisterEventView::Written;
    assert(seq![a, b, c, d].drop_last() =~= seq![a, b, c]);
    assert(seq![a, b, c].drop_last() =~= seq![a, b]);
    assert(seq![a, b].drop_last() =~= seq![a]);
    assert(seq![a].drop_last() =~= Seq::<RegisterEventView>::empty());
    reveal_with_fuel(registering::run, 6);
    let expanded = context::expanded(home, path)->Ok_0;
    assert(registering::run(home, known, name, path, seq![]) == (RegisteringView::Inspect {
        expanded,
    }));
    assert(registering::run(home, known, name, path, seq![a]) == (RegisteringView::Compare {
        candidate,
    }));
    assert(registering::run(home, known, name, path, seq![a, b]) == (RegisteringView::LoadRules {
        warnings: rooms::unresolved_warnings(workspaces),
    }));
    assert(registering::run(home, known, name, path, seq![a, b, c]) == (RegisteringView::Write {
        warnings: rooms::unresolved_warnings(workspaces),
    }));
}

} // verus!
