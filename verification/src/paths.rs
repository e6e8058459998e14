//! Unix paths as text: joining them and taking them apart.
use crate::text;
use vstd::prelude::*;

verus! {

/// One component of a path.
#[derive(Debug)]
pub enum PathPart {
    /// The leading `/`.
    Root,
    /// A leading `.`.
    Current,
    /// A `..`.
    Parent,
    /// A name.
    Normal(String),
}

pub ghost enum PartView {
    Root,
    Current,
    Parent,
    Normal(Seq<char>),
}

impl View for PathPart {
    type V = PartView;

    open spec fn view(&self) -> PartView {
        match self {
            PathPart::Root => PartView::Root,
            PathPart::Current => PartView::Current,
            PathPart::Parent => PartView::Parent,
            PathPart::Normal(name) => PartView::Normal(name@),
        }
    }
}

/// The parts of a list, as values.
pub open spec fn parts_view(parts: Seq<PathPart>) -> Seq<PartView> {
    parts.map_values(|p: PathPart| p@)
}

/// The pieces of a text between the occurrences of a character.
pub open spec fn split(s: Seq<char>, c: char) -> Seq<Seq<char>>
    decreases s.len(),
{
    if s.len() == 0 {
        seq![seq![]]
    } else {
        let head = split(s.drop_last(), c);
        if s.last() == c {
            head.push(seq![])
        } else {
            head.drop_last().push(head.last().push(s.last()))
        }
    }
}

/// Splitting yields at least one piece.
pub proof fn split_is_not_empty(s: Seq<char>, c: char)
    ensures
        split(s, c).len() >= 1,
    decreases s.len(),
{
    if s.len() > 0 {
        split_is_not_empty(s.drop_last(), c);
    }
}

pub fn split_text(s: &str, c: char) -> (out: Vec<String>)
    ensures
        text::texts(out@) == split(s@, c),
{
    let chars = text::chars_of(s);
    let mut out: Vec<String> = Vec::new();
    let mut current = String::new();
    assert(text::texts(out@).push(current@) =~= split(s@.take(0), c));
    for i in 0..chars.len()
        invariant
            chars@ == s@,
            text::texts(out@).push(current@) == split(s@.take(i as int), c),
    {
        let ghost head = s@.take(i as int);
        let ghost whole = s@.take(i + 1);
        assert(whole.drop_last() =~= head);
        assert(whole.last() == s@[i as int]);
        let ghost done = text::texts(out@);
        let ghost last = current@;
        if chars[i] == c {
            out.push(current);
            current = String::new();
            assert(text::texts(out@) =~= done.push(last));
        } else {
            current.push(chars[i]);
            assert(split(head, c).drop_last() =~= done);
        }
        assert(text::texts(out@).push(current@) =~= split(whole, c));
    }
    assert(s@.take(s@.len() as int) =~= s@);
    let ghost done = text::texts(out@);
    let ghost last = current@;
    out.push(current);
    assert(text::texts(out@) =~= done.push(last));
    out
}

/// What a piece between slashes stands for. A `.` counts only at the very start.
pub open spec fn piece_part(piece: Seq<char>, first: bool) -> Seq<PartView> {
    if piece.len() == 0 {
        seq![]
    } else if piece == "."@ {
        if first {
            seq![PartView::Current]
        } else {
            seq![]
        }
    } else if piece == ".."@ {
        seq![PartView::Parent]
    } else {
        seq![PartView::Normal(piece)]
    }
}

/// The components that a list of pieces stands for.
pub open spec fn pieces_parts(pieces: Seq<Seq<char>>) -> Seq<PartView>
    decreases pieces.len(),
{
    if pieces.len() == 0 {
        seq![]
    } else {
        pieces_parts(pieces.drop_last()) + piece_part(pieces.last(), pieces.len() == 1)
    }
}

/// The components of a path: the root of an absolute path, then its names.
pub open spec fn components(path: Seq<char>) -> Seq<PartView> {
    let names = pieces_parts(split(path, '/'));
    if absolute(path) {
        seq![PartView::Root] + names
    } else {
        names
    }
}

/// Whether a path starts at the root.
pub open spec fn absolute(path: Seq<char>) -> bool {
    path.len() > 0 && path[0] == '/'
}

pub fn is_absolute(path: &str) -> (r: bool)
    ensures
        r == absolute(path@),
{
    let chars = text::chars_of(path);
    chars.len() > 0 && chars[0] == '/'
}

pub fn path_parts(path: &str) -> (out: Vec<PathPart>)
    ensures
        parts_view(out@) == components(path@),
{
    let pieces = split_text(path, '/');
    let mut out: Vec<PathPart> = Vec::new();
    let ghost mut start: Seq<PartView> = seq![];
    if is_absolute(path) {
        out.push(PathPart::Root);
        proof {
            start = seq![PartView::Root];
        }
    }
    assert(parts_view(out@) =~= start + pieces_parts(text::texts(pieces@).take(0)));
    for i in 0..pieces.len()
        invariant
            parts_view(out@) == start + pieces_parts(text::texts(pieces@).take(i as int)),
    {
        let ghost before = parts_view(out@);
        let ghost whole = text::texts(pieces@).take(i + 1);
        assert(whole.drop_last() =~= text::texts(pieces@).take(i as int));
        assert(whole.last() == pieces@[i as int]@);
        let piece = pieces[i].as_str();
        if piece.is_empty() {
            assert(parts_view(out@) =~= before + piece_part(piece@, i == 0));
        } else if text::same(piece, ".") {
            if i == 0 {
                out.push(PathPart::Current);
            }
            assert(parts_view(out@) =~= before + piece_part(piece@, i == 0));
        } else if text::same(piece, "..") {
            out.push(PathPart::Parent);
            assert(parts_view(out@) =~= before + piece_part(piece@, i == 0));
        } else {
            out.push(PathPart::Normal(piece.to_owned()));
            assert(parts_view(out@) =~= before + piece_part(piece@, i == 0));
        }
        assert(before + piece_part(piece@, i == 0) =~= start + pieces_parts(whole));
    }
    assert(text::texts(pieces@).take(pieces@.len() as int) =~= text::texts(pieces@));
    assert(components(path@) =~= start + pieces_parts(text::texts(pieces@)));
    out
}

pub fn component_count(path: &str) -> (n: usize)
    ensures
        n == components(path@).len(),
{
    path_parts(path).len()
}

fn same_part(a: &PathPart, b: &PathPart) -> (r: bool)
    ensures
        r == (a@ == b@),
{
    match (a, b) {
        (PathPart::Root, PathPart::Root) => true,
        (PathPart::Current, PathPart::Current) => true,
        (PathPart::Parent, PathPart::Parent) => true,
        (PathPart::Normal(x), PathPart::Normal(y)) => text::same(x.as_str(), y.as_str()),
        _ => false,
    }
}

/// Whether a path lies in a directory tree: the tree's components lead the path's.
pub open spec fn inside(path: Seq<char>, tree: Seq<char>) -> bool {
    components(tree).is_prefix_of(components(path))
}

pub fn is_inside(path: &str, tree: &str) -> (r: bool)
    ensures
        r == inside(path@, tree@),
{
    let outer = path_parts(tree);
    let inner = path_parts(path);
    if outer.len() > inner.len() {
        return false;
    }
    for i in 0..outer.len()
        invariant
            outer.len() <= inner.len(),
            parts_view(outer@) == components(tree@),
            parts_view(inner@) == components(path@),
            forall|j: int|
                0 <= j < i ==> #[trigger] components(tree@)[j] == components(path@)[j],
    {
        assert(components(tree@)[i as int] == outer@[i as int]@);
        assert(components(path@)[i as int] == inner@[i as int]@);
        if !same_part(&outer[i], &inner[i]) {
            return false;
        }
    }
    assert(components(path@).subrange(0, components(tree@).len() as int) =~= components(tree@));
    true
}

/// A tree holds itself.
pub proof fn inside_itself(path: Seq<char>)
    ensures
        inside(path, path),
{
}

/// What lies in a tree that lies in a larger tree lies in the larger tree.
pub proof fn inside_is_transitive(path: Seq<char>, tree: Seq<char>, larger: Seq<char>)
    requires
        inside(path, tree),
        inside(tree, larger),
    ensures
        inside(path, larger),
{
}

/// Two paths joined; an absolute second path stands for itself.
pub open spec fn join(base: Seq<char>, rest: Seq<char>) -> Seq<char> {
    if absolute(rest) {
        rest
    } else if base.len() == 0 || base.last() == '/' {
        base + rest
    } else {
        base + "/"@ + rest
    }
}

pub fn join_path(base: &str, rest: &str) -> (r: String)
    ensures
        r@ == join(base@, rest@),
{
    if is_absolute(rest) {
        return rest.to_owned();
    }
    let chars = text::chars_of(base);
    if chars.len() == 0 || chars[chars.len() - 1] == '/' {
        text::cat2(base, rest)
    } else {
        text::cat3(base, "/", rest)
    }
}

/// The last component of a path, if it is a name.
pub open spec fn file_name(path: Seq<char>) -> Option<Seq<char>> {
    let parts = components(path);
    if parts.len() == 0 {
        None
    } else {
        match parts.last() {
            PartView::Normal(name) => Some(name),
            _ => None,
        }
    }
}

pub fn path_file_name(path: &str) -> (r: Option<String>)
    ensures
        text::opt(r) == file_name(path@),
{
    let mut parts = path_parts(path);
    let ghost all = parts@;
    assert(components(path@).len() == all.len());
    match parts.pop() {
        None => None,
        Some(last) => {
            assert(components(path@).last() == last@);
            match last {
                PathPart::Normal(name) => Some(name),
                _ => None,
            }
        },
    }
}

/// The position of the last dot of a file name that splits it into stem and extension.
pub open spec fn is_last_dot(name: Seq<char>, at: int) -> bool {
    &&& 0 < at < name.len()
    &&& name[at] == '.'
    &&& forall|j: int| at < j < name.len() ==> name[j] != '.'
}

/// A file name without its extension.
pub open spec fn stem(name: Seq<char>) -> Seq<char> {
    if exists|at: int| is_last_dot(name, at) {
        name.take(choose|at: int| is_last_dot(name, at))
    } else {
        name
    }
}

/// The extension of a file name.
pub open spec fn extension(name: Seq<char>) -> Option<Seq<char>> {
    if exists|at: int| is_last_dot(name, at) {
        Some(name.skip((choose|at: int| is_last_dot(name, at)) + 1))
    } else {
        None
    }
}

fn last_dot(chars: &Vec<char>) -> (r: Option<usize>)
    ensures
        match r {
            Some(at) => is_last_dot(chars@, at as int),
            None => forall|at: int| !is_last_dot(chars@, at),
        },
{
    let mut i: usize = chars.len();
    while i > 1
        invariant
            i <= chars@.len(),
            forall|j: int| i <= j < chars@.len() ==> chars@[j] != '.',
        decreases i,
    {
        i = i - 1;
        if chars[i] == '.' {
            return Some(i);
        }
    }
    None
}

pub fn file_stem(name: &str) -> (r: String)
    ensures
        r@ == stem(name@),
{
    let chars = text::chars_of(name);
    match last_dot(&chars) {
        Some(at) => {
            assert(is_last_dot(name@, at as int));
            assert(forall|j: int| is_last_dot(name@, j) ==> j == at);
            assert(name@.subrange(0, at as int) =~= name@.take(at as int));
            text::slice_of(&chars, 0, at)
        },
        None => name.to_owned(),
    }
}

pub fn file_extension(name: &str) -> (r: Option<String>)
    ensures
        text::opt(r) == extension(name@),
{
    let chars = text::chars_of(name);
    let end: usize = chars.len();
    match last_dot(&chars) {
        Some(at) => {
            assert(is_last_dot(name@, at as int));
            assert(forall|j: int| is_last_dot(name@, j) ==> j == at);
            assert(name@.subrange(at + 1, name@.len() as int) =~= name@.skip(at + 1));
            Some(text::slice_of(&chars, at + 1, end))
        },
        None => None,
    }
}

} // verus!
