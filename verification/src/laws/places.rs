//! Where files stand: what paths are made of and what they lead to.
use vstd::prelude::*;

use crate::names;
use crate::paths;
use crate::paths::PartView;

verus! {

/// Whether a text is a file name that a path takes as it is.
pub open spec fn plain(name: Seq<char>) -> bool {
    name.len() > 0 && name != "."@ && name != ".."@ && !name.contains('/')
}

/// What room names and mail ids are is such a name.
pub proof fn components_are_plain(name: Seq<char>)
    requires
        names::component_fault(name) is None,
    ensures
        plain(name),
{
}

proof fn parts_of_one_more(base: Seq<char>, name: Seq<char>)
    requires
        !name.contains('/'),
    ensures
        paths::split(base.push('/') + name, '/') == paths::split(base, '/').push(name),
    decreases base.len() + name.len(),
{
    paths::split_is_not_empty(base, '/');
    let whole = base.push('/') + name;
    if name.len() == 0 {
        assert(whole =~= base.push('/'));
        assert(base.push('/').drop_last() =~= base);
        assert(name =~= Seq::<char>::empty());
    } else {
        let front = name.drop_last();
        assert(!front.contains('/')) by {
            if front.contains('/') {
                let i = choose|i: int| 0 <= i < front.len() && front[i] == '/';
                assert(name[i] == '/');
            }
        }
        parts_of_one_more(base, front);
        assert(whole.drop_last() =~= base.push('/') + front);
        assert(name.last() != '/') by {
            assert(name[name.len() - 1] == name.last());
        }
        let head = paths::split(base, '/').push(front);
        assert(front.push(name.last()) =~= name);
        assert(head.drop_last().push(front.push(name.last())) =~= paths::split(base, '/').push(
            name,
        ));
    }
}

/// A name put behind a directory is the directory's path, a slash and the name: it stands in that
/// directory, and the directory's own parts come first.
pub proof fn names_stand_in_their_directory(base: Seq<char>, name: Seq<char>)
    requires
        plain(name),
        base.len() > 0,
        base.last() != '/',
    ensures
        paths::join(base, name) == base.push('/') + name,
        paths::components(paths::join(base, name)) == paths::components(base).push(
            PartView::Normal(name),
        ),
        paths::file_name(paths::join(base, name)) == Some(name),
        paths::inside(paths::join(base, name), base),
        !paths::inside(base, paths::join(base, name)),
{
    reveal_strlit("/");
    assert(!paths::absolute(name)) by {
        if paths::absolute(name) {
            assert(name[0] == '/');
        }
    }
    let whole = base.push('/') + name;
    assert(paths::join(base, name) =~= whole);
    parts_of_one_more(base, name);
    paths::split_is_not_empty(base, '/');
    let pieces = paths::split(base, '/');
    assert(pieces.push(name).drop_last() =~= pieces);
    assert(paths::pieces_parts(pieces.push(name)) =~= paths::pieces_parts(pieces).push(
        PartView::Normal(name),
    ));
    assert(whole[0] == base[0]);
    assert(paths::components(whole) =~= paths::components(base).push(PartView::Normal(name)));
}

/// An absolute path stands for itself, whatever directory it is put behind, and a path put behind
/// nothing stays as it is.
pub proof fn absolute_paths_stand_for_themselves(base: Seq<char>, rest: Seq<char>)
    ensures
        rest.len() > 0 && rest[0] == '/' ==> paths::join(base, rest) == rest && paths::absolute(
            rest,
        ),
        !(rest.len() > 0 && rest[0] == '/') ==> !paths::absolute(rest),
        !(rest.len() > 0 && rest[0] == '/') && base.len() > 0 && base.last() == '/'
            ==> paths::join(base, rest) == base + rest,
        paths::join(seq![], rest) == rest,
{
    assert(Seq::<char>::empty() + rest =~= rest);
}

/// A path's parts are read one by one: a leading slash is the root, a name is itself, two dots
/// lead back, and empty pieces and further single dots are nothing.
pub proof fn paths_are_read_piece_by_piece(base: Seq<char>, piece: Seq<char>)
    requires
        base.len() > 0,
        !piece.contains('/'),
    ensures
        paths::components(seq![]) == Seq::<PartView>::empty(),
        paths::components("/"@) == seq![PartView::Root],
        piece.len() == 0 ==> paths::components(base.push('/') + piece) == paths::components(base),
        piece == "."@ ==> paths::components(base.push('/') + piece) == paths::components(base),
        piece == ".."@ ==> paths::components(base.push('/') + piece) == paths::components(
            base,
        ).push(PartView::Parent),
        plain(piece) ==> paths::components(base.push('/') + piece) == paths::components(base).push(
            PartView::Normal(piece),
        ),
        plain(piece) ==> paths::components(piece) == seq![PartView::Normal(piece)],
        piece == "."@ ==> paths::components(piece) == seq![PartView::Current],
        piece == ".."@ ==> paths::components(piece) == seq![PartView::Parent],
{
    reveal_strlit("/");
    reveal_strlit(".");
    reveal_strlit("..");
    parts_of_one_more(base, piece);
    paths::split_is_not_empty(base, '/');
    let pieces = paths::split(base, '/');
    let whole = base.push('/') + piece;
    assert(pieces.push(piece).drop_last() =~= pieces);
    assert(whole[0] == base[0]);
    let more = paths::piece_part(piece, false);
    assert(paths::components(whole) =~= paths::components(base) + more);
    assert(paths::components(base) + Seq::<PartView>::empty() =~= paths::components(base));

    let nothing = Seq::<char>::empty();
    assert(paths::split(nothing, '/') =~= seq![nothing]);
    assert(seq![nothing].drop_last() =~= Seq::<Seq<char>>::empty());
    assert(paths::pieces_parts(Seq::<Seq<char>>::empty()) =~= Seq::<PartView>::empty());
    assert(paths::pieces_parts(seq![nothing]) =~= Seq::<PartView>::empty());
    assert(paths::components(nothing) =~= Seq::<PartView>::empty());
    parts_of_one_more(nothing, nothing);
    assert("/"@ =~= nothing.push('/') + nothing);
    assert(seq![nothing].push(nothing).drop_last() =~= seq![nothing]);
    assert(paths::pieces_parts(seq![nothing].push(nothing)) =~= Seq::<PartView>::empty());
    assert(paths::components("/"@) =~= seq![PartView::Root]);

    one_piece(piece);
}

proof fn one_piece(piece: Seq<char>)
    requires
        !piece.contains('/'),
    ensures
        paths::components(piece) == paths::piece_part(piece, true),
{
    unsplit(piece);
    assert(seq![piece].drop_last() =~= Seq::<Seq<char>>::empty());
    assert(paths::pieces_parts(Seq::<Seq<char>>::empty()) =~= Seq::<PartView>::empty());
    assert(!paths::absolute(piece)) by {
        if paths::absolute(piece) {
            assert(piece[0] == '/');
        }
    }
    assert(paths::components(piece) =~= paths::piece_part(piece, true));
}

proof fn unsplit(piece: Seq<char>)
    requires
        !piece.contains('/'),
    ensures
        paths::split(piece, '/') == seq![piece],
    decreases piece.len(),
{
    if piece.len() > 0 {
        let front = piece.drop_last();
        assert(!front.contains('/')) by {
            if front.contains('/') {
                let i = choose|i: int| 0 <= i < front.len() && front[i] == '/';
                assert(piece[i] == '/');
            }
        }
        unsplit(front);
        assert(piece.last() != '/') by {
            assert(piece[piece.len() - 1] == piece.last());
        }
        assert(front.push(piece.last()) =~= piece);
        assert(seq![front].drop_last().push(piece) =~= seq![piece]);
    } else {
        assert(piece =~= Seq::<char>::empty());
    }
}

/// A path is inside a tree exactly when the tree's parts are its first parts.
pub proof fn trees_hold_what_begins_with_them(path: Seq<char>, tree: Seq<char>)
    ensures
        paths::inside(path, tree) <==> paths::components(tree).len() <= paths::components(
            path,
        ).len() && (forall|i: int|
            0 <= i < paths::components(tree).len() ==> paths::components(path)[i]
                == #[trigger] paths::components(tree)[i]),
{
}

/// A file name is split at its last dot, unless nothing stands in front of it: the stem is what
/// comes before, the extension what comes behind.
pub proof fn file_names_end_at_their_last_dot(front: Seq<char>, end: Seq<char>)
    requires
        front.len() > 0,
        !end.contains('.'),
    ensures
        paths::stem(front.push('.') + end) == front,
        paths::extension(front.push('.') + end) == Some(end),
{
    let name = front.push('.') + end;
    let at = front.len() as int;
    assert(name[at] == '.');
    assert forall|j: int| at < j < name.len() implies name[j] != '.' by {
        assert(name[j] == end[j - at - 1]);
    }
    assert(paths::is_last_dot(name, at));
    let found = choose|at: int| paths::is_last_dot(name, at);
    assert(found == at) by {
        assert(paths::is_last_dot(name, found));
        if found < at {
            assert(name[at] != '.');
        }
        if found > at {
            assert(name[found] != '.');
        }
    }
    assert(name.take(at) =~= front);
    assert(name.skip(at + 1) =~= end);
}

/// A name without a dot behind its first character has no extension and is its own stem.
pub proof fn undotted_names_have_no_extension(name: Seq<char>)
    requires
        forall|i: int| 0 < i < name.len() ==> name[i] != '.',
    ensures
        paths::stem(name) == name,
        paths::extension(name) is None,
{
}

} // verus!
