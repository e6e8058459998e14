//! Who acts: the store's place, the rooms' places, and the sender that a directory speaks for.
use vstd::prelude::*;

use crate::context;
use crate::context::RoomTree;
use crate::error;
use crate::error::ErrorCode;
use crate::names;
use crate::paths;
use crate::text;

verus! {

/// The store lies where it is configured, and else under the home directory.
pub proof fn the_store_lies_where_it_is_put(
    home: Seq<char>,
    configured: Seq<char>,
    default_dir: Seq<char>,
)
    ensures
        context::root_of(home, Some(configured), default_dir) == configured,
        home.len() > 0 && home.last() != '/' && default_dir.len() > 0 && default_dir[0] != '/'
            ==> context::root_of(home, None, default_dir) == home.push('/') + default_dir,
{
    reveal_strlit("/");
    assert(home + "/"@ + default_dir =~= home.push('/') + default_dir);
}

/// A room's path is absolute or begins at the home directory: an absolute one is taken as it is, a
/// tilde alone is the home directory, what follows a tilde and a slash is put behind it, and
/// nothing else is taken.
pub proof fn room_paths_begin_at_the_root_or_at_home(home: Seq<char>, value: Seq<char>)
    ensures
        context::expanded(home, "~"@) == Ok::<Seq<char>, Seq<char>>(home),
        context::expanded(home, "~/"@) == Ok::<Seq<char>, Seq<char>>(home),
        value.len() > 0 && value[0] == '/' ==> context::expanded(home, value) == Ok::<
            Seq<char>,
            Seq<char>,
        >(value),
        value.len() > 0 && value[0] != '/' && home.len() > 0 && home.last() != '/'
            ==> context::expanded(home, "~/"@ + value) == Ok::<Seq<char>, Seq<char>>(
            home.push('/') + value,
        ),
        value.len() == 0 || (value[0] != '/' && value[0] != '~') ==> context::expanded(
            home,
            value,
        ) is Err,
        value.len() > 1 && value[0] == '~' && value[1] != '/' ==> context::expanded(
            home,
            value,
        ) is Err,
{
    reveal_strlit("~");
    reveal_strlit("~/");
    reveal_strlit("/");
    if text::has_prefix(value, "~/"@) {
        assert(value.subrange(0, 2)[0] == value[0]);
        assert(value.subrange(0, 2)[1] == value[1]);
    }
    let behind = "~/"@ + value;
    if value.len() > 0 {
        assert(behind.subrange(0, 2) =~= "~/"@);
        assert(behind.skip(2) =~= value);
        assert(behind.len() != 1 && behind.len() != 2);
        assert(home + "/"@ + value =~= home.push('/') + value);
    }
}

/// The registry is refused for the first entry, in order, whose name or path is refused, and for
/// no other reason.
pub proof fn registries_are_refused_for_their_entries(
    home: Seq<char>,
    keys: Seq<Seq<char>>,
    map: Map<Seq<char>, String>,
    n: nat,
)
    requires
        n <= keys.len(),
    ensures
        context::rooms_fault(home, keys, map, n) is None <==> forall|i: int|
            0 <= i < n ==> names::room_name_fault(#[trigger] keys[i]) is None && context::expanded(
                home,
                map[keys[i]]@,
            ) is Ok,
        context::rooms_fault(home, keys, map, n) is None && n < keys.len() && names::room_name_fault(
            keys[n as int],
        ) is Some ==> context::rooms_fault(home, keys, map, n + 1) == names::room_name_fault(
            keys[n as int],
        ),
        context::rooms_fault(home, keys, map, n) is Some && n < keys.len() ==> context::rooms_fault(
            home,
            keys,
            map,
            n + 1,
        ) == context::rooms_fault(home, keys, map, n),
    decreases n,
{
    if n > 0 {
        registries_are_refused_for_their_entries(home, keys, map, (n - 1) as nat);
    }
}

/// The rules are taken exactly when each says who, to whom and why, names its sender as a path
/// component or as everyone, and its recipient as a registered room or as everyone.
pub proof fn rules_are_taken_when_each_is_whole(
    rules: Seq<crate::model::RuleView>,
    rooms: Map<Seq<char>, String>,
)
    ensures
        context::rules_fault(rules, rooms) is None <==> forall|i: int|
            #![trigger rules[i]]
            0 <= i < rules.len() ==> !text::blank(rules[i].from) && !text::blank(rules[i].to)
                && !text::blank(rules[i].reason) && (rules[i].from == "*"@
                || names::component_fault(rules[i].from) is None) && (rules[i].to == "*"@
                || rooms.contains_key(rules[i].to)),
    decreases rules.len(),
{
    if rules.len() > 0 {
        let front = rules.drop_last();
        rules_are_taken_when_each_is_whole(front, rooms);
        let last = rules.last();
        if context::rules_fault(rules, rooms) is None {
            assert forall|i: int| #![trigger rules[i]] 0 <= i < rules.len() implies !text::blank(
                rules[i].from,
            ) && !text::blank(rules[i].to) && !text::blank(rules[i].reason) && (rules[i].from
                == "*"@ || names::component_fault(rules[i].from) is None) && (rules[i].to == "*"@
                || rooms.contains_key(rules[i].to)) by {
                if i < front.len() {
                    assert(front[i] == rules[i]);
                }
            }
        }
        if forall|i: int|
            #![trigger rules[i]]
            0 <= i < rules.len() ==> !text::blank(rules[i].from) && !text::blank(rules[i].to)
                && !text::blank(rules[i].reason) && (rules[i].from == "*"@
                || names::component_fault(rules[i].from) is None) && (rules[i].to == "*"@
                || rooms.contains_key(rules[i].to)) {
            assert(rules[rules.len() - 1] == last);
            assert forall|i: int| #![trigger front[i]] 0 <= i < front.len() implies !text::blank(
                front[i].from,
            ) && !text::blank(front[i].to) && !text::blank(front[i].reason) && (front[i].from
                == "*"@ || names::component_fault(front[i].from) is None) && (front[i].to == "*"@
                || rooms.contains_key(front[i].to)) by {
                assert(front[i] == rules[i]);
            }
        }
    }
}

/// A directory speaks for the room whose tree holds it; where several do, for the one with the
/// longest path, and between equally long ones for the last by name. No two rooms can both be
/// meant, unless they have one name.
pub proof fn directories_speak_for_their_innermost_room(
    trees: Seq<RoomTree>,
    directory: Seq<char>,
    i: int,
    j: int,
)
    requires
        context::is_home_room(trees, directory, i),
        0 <= j < trees.len(),
        paths::components(trees[j].resolved@).is_prefix_of(paths::components(directory)),
    ensures
        paths::components(trees[i].resolved@).is_prefix_of(paths::components(directory)),
        paths::components(trees[j].path@).len() <= paths::components(trees[i].path@).len(),
        paths::components(trees[j].path@).len() == paths::components(trees[i].path@).len()
            ==> trees[j].name@ == trees[i].name@ || text::lt(trees[j].name@, trees[i].name@),
        context::is_home_room(trees, directory, j) ==> trees[i].name@ == trees[j].name@,
{
    assert(context::holds(trees[j], directory));
    if context::is_home_room(trees, directory, j) {
        assert(context::holds(trees[i], directory));
        if text::lt(trees[i].name@, trees[j].name@) {
            text::lt_asymmetric(trees[i].name@, trees[j].name@);
        }
    }
}

/// Wherever a room's tree holds the directory, there is a room that it speaks for.
pub proof fn rooms_speak_from_their_trees(trees: Seq<RoomTree>, directory: Seq<char>, k: int)
    requires
        0 <= k < trees.len(),
        paths::components(trees[k].resolved@).is_prefix_of(paths::components(directory)),
    ensures
        exists|i: int| context::is_home_room(trees, directory, i),
{
    assert(context::holds(trees[k], directory));
    innermost_exists(trees, directory, k);
}

proof fn innermost_exists(trees: Seq<RoomTree>, directory: Seq<char>, k: int)
    requires
        0 <= k < trees.len(),
        context::holds(trees[k], directory),
    ensures
        exists|i: int| context::is_home_room(trees, directory, i),
    decreases trees.len(),
{
    let front = trees.drop_last();
    let last = trees.len() - 1;
    if exists|m: int| 0 <= m < front.len() && context::holds(#[trigger] front[m], directory) {
        let m = choose|m: int|
            0 <= m < front.len() && context::holds(#[trigger] front[m], directory);
        innermost_exists(front, directory, m);
        let i = choose|i: int| context::is_home_room(front, directory, i);
        assert(front[i] == trees[i]);
        let x = paths::components(trees[i].path@).len();
        let y = paths::components(trees[last].path@).len();
        text::lt_total(trees[i].name@, trees[last].name@);
        if context::holds(trees[last], directory) && (x < y || (x == y && text::lt(
            trees[i].name@,
            trees[last].name@,
        ))) {
            assert forall|j: int|
                0 <= j < trees.len() && context::holds(
                    #[trigger] trees[j],
                    directory,
                ) implies context::less_specific(trees[j], trees[last]) by {
                if j < last {
                    assert(front[j] == trees[j]);
                    assert(context::less_specific(trees[j], trees[i]));
                    if trees[j].name@ != trees[i].name@ && text::lt(trees[j].name@, trees[i].name@)
                        && x == y {
                        text::lt_transitive(trees[j].name@, trees[i].name@, trees[last].name@);
                    }
                }
            }
            assert(context::is_home_room(trees, directory, last));
        } else {
            assert forall|j: int|
                0 <= j < trees.len() && context::holds(
                    #[trigger] trees[j],
                    directory,
                ) implies context::less_specific(trees[j], trees[i]) by {
                if j < last {
                    assert(front[j] == trees[j]);
                }
            }
            assert(context::is_home_room(trees, directory, i));
        }
    } else {
        assert(k == last) by {
            if k < last {
                assert(front[k] == trees[k]);
            }
        }
        assert forall|j: int|
            0 <= j < trees.len() && context::holds(
                #[trigger] trees[j],
                directory,
            ) implies context::less_specific(trees[j], trees[last]) by {
            if j < last {
                assert(front[j] == trees[j]);
            }
        }
        assert(context::is_home_room(trees, directory, last));
    }
}

/// Outside every tree a directory speaks under its own name, if that is a path component.
pub proof fn strangers_speak_under_their_directory(cwd: Seq<char>, name: Seq<char>)
    ensures
        names::component_fault(name) is None ==> context::basename_identity(cwd, Some(name)) == Ok::<
            Seq<char>,
            error::ErrorView,
        >(name),
        names::component_fault(name) is Some ==> context::basename_identity(cwd, Some(name)) is Err
            && context::basename_identity(cwd, Some(name))->Err_0.code == ErrorCode::InvalidArgument
            && context::basename_identity(cwd, Some(name))->Err_0.details.input == Some(name)
            && context::basename_identity(cwd, Some(name))->Err_0.details.reason
            == names::component_fault(name),
        context::basename_identity(cwd, None) is Err && context::basename_identity(
            cwd,
            None,
        )->Err_0.code == ErrorCode::InvalidArgument && context::basename_identity(
            cwd,
            None,
        )->Err_0.details.input == Some(cwd),
{
}

/// A registered name is reserved to its tree: from outside it the sender is refused, with the path
/// to go to, and from inside it is free. Any other name is free everywhere.
pub proof fn registered_names_belong_to_their_tree(
    trees: Seq<RoomTree>,
    sender: Seq<char>,
    cwd: Seq<char>,
    resolved_cwd: Seq<char>,
    k: int,
)
    requires
        forall|i: int, j: int|
            0 <= i < j < trees.len() ==> (#[trigger] trees[i]).name@ != (#[trigger] trees[j]).name@,
    ensures
        (forall|i: int| 0 <= i < trees.len() ==> (#[trigger] trees[i]).name@ != sender)
            ==> context::sender_fault(trees, sender, cwd, resolved_cwd) is None,
        0 <= k < trees.len() && trees[k].name@ == sender ==> {
            let fault = context::sender_fault(trees, sender, cwd, resolved_cwd);
            &&& fault is None <==> paths::components(trees[k].resolved@).is_prefix_of(
                paths::components(resolved_cwd),
            )
            &&& fault is Some ==> fault->0.code == ErrorCode::ReservedSender
            &&& fault is Some ==> fault->0.details.input == Some(sender)
            &&& fault is Some ==> fault->0.details.registered_path == Some(trees[k].path@)
        },
    decreases trees.len(),
{
    if trees.len() > 0 && trees[0].name@ != sender {
        let rest = trees.skip(1);
        assert forall|i: int, j: int| 0 <= i < j < rest.len() implies (#[trigger] rest[i]).name@ != (
        #[trigger] rest[j]).name@ by {
            assert(rest[i] == trees[i + 1]);
            assert(rest[j] == trees[j + 1]);
        }
        registered_names_belong_to_their_tree(rest, sender, cwd, resolved_cwd, k - 1);
        if 0 <= k < trees.len() && trees[k].name@ == sender {
            assert(rest[k - 1] == trees[k]);
        }
        if forall|i: int| 0 <= i < trees.len() ==> (#[trigger] trees[i]).name@ != sender {
            assert forall|i: int| 0 <= i < rest.len() implies (#[trigger] rest[i]).name@
                != sender by {
                assert(rest[i] == trees[i + 1]);
            }
        }
    } else if trees.len() > 0 {
        if 0 <= k < trees.len() && trees[k].name@ == sender {
            if k != 0 {
                assert(trees[0].name@ != trees[k].name@);
            }
        }
    }
}

} // verus!
