//! Whose signatures count: what an owner file may say and what it comes to.
use vstd::prelude::*;

use crate::context;
use crate::declaring;
use crate::declaring::{DeclareEventView, DeclaringView, OnOwnerPath};
use crate::error::ErrorCode;
use crate::names;
use crate::owner;
use crate::owner::{OwnerFile, OwnerSource, OwnerView, ResolvedOwner};
use crate::outside;
use crate::paths;
use crate::text;

verus! {

/// A principal or a namespace is taken exactly when it is not empty, not too long, and made of
/// ASCII letters, digits, dots, underscores, at-signs and hyphens.
pub proof fn principals_are_plain_and_bounded(
    value: Seq<char>,
    what: Seq<char>,
    max_bytes: nat,
)
    ensures
        owner::ascii_bound_fault(value, what, max_bytes) is None <==> value.len() > 0
            && text::byte_len(value) <= max_bytes && (forall|i: int|
            0 <= i < value.len() ==> {
                let n = (#[trigger] value[i]) as int;
                ||| 48 <= n <= 57
                ||| 65 <= n <= 90
                ||| 97 <= n <= 122
                ||| n == 46
                ||| n == 95
                ||| n == 64
                ||| n == 45
            }),
{
    if owner::plain_id(value) {
        assert forall|i: int| 0 <= i < value.len() implies {
            let n = (#[trigger] value[i]) as int;
            ||| 48 <= n <= 57
            ||| 65 <= n <= 90
            ||| 97 <= n <= 122
            ||| n == 46
            ||| n == 95
            ||| n == 64
            ||| n == 45
        } by {
            assert(owner::plain_id_char(value[i]));
        }
    } else {
        let i = choose|i: int| 0 <= i < value.len() && !owner::plain_id_char(#[trigger] value[i]);
        let c = value[i];
        assert(!(c == '.' || c == '_' || c == '@' || c == '-'));
    }
}

/// A marker is taken exactly when it is one glyph, neither begins nor ends with a joiner, disturbs
/// no line, and is not ASCII.
pub proof fn markers_are_single_glyphs(marker: Seq<char>, clusters: nat)
    ensures
        owner::marker_fault(marker, clusters) is None <==> clusters == 1 && !(marker.len() > 0 && (
        marker[0] == '\u{200d}' || marker.last() == '\u{200d}')) && !names::has_refused(marker)
            && !vstd::utf8::is_ascii_chars(marker),
{
}

/// A label is taken exactly when it shows something, disturbs no line, and has at most 32
/// characters.
pub proof fn labels_are_short(label: Seq<char>)
    ensures
        owner::label_fault(label) is None <==> !text::blank(label) && !names::has_refused(label)
            && label.len() <= 32,
{
}

/// An owner file is taken exactly when its room has a room's name, its paths are absolute, and
/// each value that it gives is taken.
pub proof fn owner_files_are_taken_value_by_value(file: OwnerFile, clusters: nat)
    ensures
        owner::owner_values_fault(file, clusters) is None <==> {
            &&& names::room_name_fault(file.room@) is None
            &&& file.sidecar_dir matches Some(dir) ==> dir@.len() > 0 && dir@[0] == '/'
            &&& file.allowed_signers matches Some(path) ==> path@.len() > 0 && path@[0] == '/'
            &&& file.principal matches Some(p) ==> owner::ascii_bound_fault(
                p@,
                "'principal'"@,
                128,
            ) is None
            &&& file.namespace matches Some(n) ==> owner::ascii_bound_fault(
                n@,
                "'namespace'"@,
                64,
            ) is None
            &&& file.marker matches Some(m) ==> owner::marker_fault(m@, clusters) is None
            &&& file.label matches Some(l) ==> owner::label_fault(l@) is None
        },
{
}

/// What an owner file gives is what counts; what it leaves out comes from the room: the signers'
/// file lies in the sidecar, principal and namespace are named after the room.
pub proof fn given_values_count(file: OwnerFile, sidecar: Seq<char>)
    ensures
        ({
            let owner = owner::derived_owner(file, sidecar);
            &&& owner.room == file.room@
            &&& owner.sidecar_dir == sidecar
            &&& owner.source == OwnerSource::Configured
            &&& file.allowed_signers matches Some(path) ==> owner.allowed_signers == path@
            &&& file.allowed_signers is None ==> owner.allowed_signers == paths::join(
                sidecar,
                "allowed_signers"@,
            )
            &&& file.principal matches Some(p) ==> owner.principal == p@
            &&& file.principal is None ==> owner.principal == file.room@ + "@porch"@
            &&& file.namespace matches Some(n) ==> owner.namespace == n@
            &&& file.namespace is None ==> owner.namespace == file.room@ + "-porch"@
            &&& file.marker matches Some(m) ==> owner.marker == m@
            &&& file.marker is None ==> owner.marker == "🧔"@
            &&& file.label matches Some(l) ==> owner.label == l@
            &&& file.label is None && file.room@.len() > 0 ==> owner.label
                == outside::unicode_uppercase(file.room@[0]) + file.room@.skip(1)
        }),
{
}

/// An owner is found exactly when its room is registered, a sidecar is given or the room's path
/// leads to one, and the values that were derived are taken too; it is then the one that the file
/// and the sidecar give.
pub proof fn owners_are_rooms_with_a_sidecar(
    home: Seq<char>,
    file: OwnerFile,
    rooms: Map<Seq<char>, String>,
)
    ensures
        !rooms.contains_key(file.room@) ==> owner::resolved(home, file, rooms) is Err,
        rooms.contains_key(file.room@) && file.sidecar_dir is None && context::expanded(
            home,
            rooms[file.room@]@,
        ) is Err ==> owner::resolved(home, file, rooms) is Err,
        owner::resolved(home, file, rooms) matches Ok(owner) ==> {
            &&& rooms.contains_key(file.room@)
            &&& file.sidecar_dir matches Some(dir) ==> owner == owner::derived_owner(file, dir@)
            &&& file.sidecar_dir is None ==> context::expanded(home, rooms[file.room@]@) == Ok::<
                Seq<char>,
                Seq<char>,
            >(owner.sidecar_dir) && owner == owner::derived_owner(file, owner.sidecar_dir)
            &&& owner::ascii_bound_fault(owner.principal, "'principal' (derived)"@, 128) is None
            &&& owner::ascii_bound_fault(owner.namespace, "'namespace' (derived)"@, 64) is None
            &&& owner::label_fault(owner.label) is None
        },
        file.sidecar_dir matches Some(dir) ==> {
            let owner = owner::derived_owner(file, dir@);
            rooms.contains_key(file.room@) && owner::ascii_bound_fault(
                owner.principal,
                "'principal' (derived)"@,
                128,
            ) is None && owner::ascii_bound_fault(
                owner.namespace,
                "'namespace' (derived)"@,
                64,
            ) is None && owner::label_fault(owner.label) is None ==> owner::resolved(
                home,
                file,
                rooms,
            ) == Ok::<OwnerView, Seq<char>>(owner)
        },
{
}

/// Where no owner file is there, the room of that old name is the owner, with the values that it
/// always had.
pub proof fn the_old_owner_is_found_by_its_room(home: Seq<char>, rooms: Map<Seq<char>, String>)
    ensures
        context::expanded(home, rooms["trey"@]@) is Err ==> owner::legacy(home, rooms) is Err,
        context::expanded(home, rooms["trey"@]@) matches Ok(sidecar) ==> (owner::legacy(
            home,
            rooms,
        ) matches Ok(owner) && owner.room == "trey"@ && owner.sidecar_dir == sidecar
            && owner.allowed_signers == paths::join(sidecar, "allowed_signers"@)
            && owner.principal == "trey@porch"@ && owner.namespace == "trey-porch"@
            && owner.marker == "🧔"@ && owner.label == "Trey"@ && owner.source
            == OwnerSource::Legacy),
{
}

/// Two owners differ in a field exactly when the field is named among their differences.
pub proof fn differences_name_the_fields(left: OwnerView, right: OwnerView)
    ensures
        ({
            let named = owner::differences(left, right);
            &&& left.room != right.room ==> named.contains("room"@)
            &&& left.sidecar_dir != right.sidecar_dir ==> named.contains("sidecar_dir"@)
            &&& left.allowed_signers != right.allowed_signers ==> named.contains(
                "allowed_signers"@,
            )
            &&& left.principal != right.principal ==> named.contains("principal"@)
            &&& left.namespace != right.namespace ==> named.contains("namespace"@)
            &&& left.marker != right.marker ==> named.contains("marker"@)
            &&& left.label != right.label ==> named.contains("label"@)
            &&& named.len() == 0 <==> left.room == right.room && left.sidecar_dir
                == right.sidecar_dir && left.allowed_signers == right.allowed_signers
                && left.principal == right.principal && left.namespace == right.namespace
                && left.marker == right.marker && left.label == right.label
        }),
{
    let a = one(left.room != right.room, "room"@);
    let b = one(left.sidecar_dir != right.sidecar_dir, "sidecar_dir"@);
    let c = one(left.allowed_signers != right.allowed_signers, "allowed_signers"@);
    let d = one(left.principal != right.principal, "principal"@);
    let e = one(left.namespace != right.namespace, "namespace"@);
    let f = one(left.marker != right.marker, "marker"@);
    let g = one(left.label != right.label, "label"@);
    assert(owner::differences(left, right) == a + b + c + d + e + f + g);
    kept(a, b);
    kept(a + b, c);
    kept(a + b + c, d);
    kept(a + b + c + d, e);
    kept(a + b + c + d + e, f);
    kept(a + b + c + d + e + f, g);
    assert(left.room != right.room ==> a.contains("room"@)) by {
        assert(left.room != right.room ==> a[0] == "room"@);
    }
}

spec fn one(differs: bool, name: Seq<char>) -> Seq<Seq<char>> {
    if differs {
        seq![name]
    } else {
        Seq::<Seq<char>>::empty()
    }
}

proof fn kept(head: Seq<Seq<char>>, part: Seq<Seq<char>>)
    ensures
        (head + part).len() == head.len() + part.len(),
        part.len() > 0 ==> (head + part).contains(part[0]),
        forall|name: Seq<char>| #[trigger]
            head.contains(name) ==> (head + part).contains(name),
{
    if part.len() > 0 {
        assert((head + part)[head.len() as int] == part[0]);
    }
    assert forall|name: Seq<char>| #[trigger] head.contains(name) implies (head + part).contains(
        name,
    ) by {
        let i = choose|i: int| 0 <= i < head.len() && head[i] == name;
        assert((head + part)[i] == name);
    }
}

/// An owner that is there already is left as it is: a declaration of the same one ends well, and of
/// another one is refused with the fields that differ. A file that cannot be read or is not taken
/// is refused.
pub proof fn declarations_never_change_an_owner(
    root: Seq<char>,
    home: Seq<char>,
    wanted: OwnerView,
    existing: OwnerView,
    file: OwnerFile,
    rooms: Map<Seq<char>, String>,
    reason: Seq<char>,
)
    ensures
        declaring::judged(
            root,
            home,
            wanted,
            Err(reason),
            rooms,
        ) matches DeclaringView::Failed { error } && error.code == ErrorCode::ConfigInvalid,
        declaring::owner_of_file(root, home, file, rooms) matches Ok(found) ==> {
            let end = declaring::judged(root, home, wanted, Ok(file), rooms);
            &&& end is Complete || end is Failed
            &&& end is Complete <==> owner::differences(wanted, found).len() == 0
            &&& end matches DeclaringView::Complete { existing } ==> existing == found
            &&& end matches DeclaringView::Failed { error } ==> error.code
                == ErrorCode::ConfigInvalid
        },
        declaring::owner_of_file(root, home, file, rooms) matches Err(error) ==> declaring::judged(
            root,
            home,
            wanted,
            Ok(file),
            rooms,
        ) == (DeclaringView::Failed { error }),
        declaring::next(
            root,
            home,
            DeclaringView::Complete { existing },
            DeclareEventView::Scaffolded,
        ) == (DeclaringView::Done { created: false, owner: existing }),
        declaring::next(
            root,
            home,
            DeclaringView::Inspect { wanted },
            DeclareEventView::Found(OnOwnerPath::Something),
        ) == (DeclaringView::Compare { wanted }),
        declaring::next(
            root,
            home,
            DeclaringView::Inspect { wanted },
            DeclareEventView::Found(OnOwnerPath::Link),
        ) matches DeclaringView::Failed { error } && error.code == ErrorCode::ConfigInvalid,
        declaring::next(
            root,
            home,
            DeclaringView::Create { wanted },
            DeclareEventView::CreateFailed(reason),
        ) matches DeclaringView::Failed { error } && error.code == ErrorCode::IoError
            && error.details.reason == Some(reason),
{
}

/// Where nothing is there yet, the owner that the file gives is created as it was asked for.
pub proof fn unhindered_owners_are_created(
    root: Seq<char>,
    home: Seq<char>,
    file: OwnerFile,
    rooms: Map<Seq<char>, String>,
)
    requires
        declaring::owner_of_file(root, home, file, rooms) is Ok,
    ensures
        declaring::run(
            root,
            home,
            file,
            rooms,
            seq![
                DeclareEventView::Found(OnOwnerPath::Nothing),
                DeclareEventView::Scaffolded,
                DeclareEventView::Created,
            ],
        ) == (DeclaringView::Done {
            created: true,
            owner: declaring::owner_of_file(root, home, file, rooms)->Ok_0,
        }),
{
    let a = DeclareEventView::Found(OnOwnerPath::Nothing);
    let b = DeclareEventView::Scaffolded;
    let c = DeclareEventView::Created;
    assert(seq![a, b, c].drop_last() =~= seq![a, b]);
    assert(seq![a, b].drop_last() =~= seq![a]);
    assert(seq![a].drop_last() =~= Seq::<DeclareEventView>::empty());
    reveal_with_fuel(declaring::run, 5);
    let wanted = declaring::owner_of_file(root, home, file, rooms)->Ok_0;
    assert(declaring::run(root, home, file, rooms, seq![]) == (DeclaringView::Inspect { wanted }));
    assert(declaring::run(root, home, file, rooms, seq![a]) == (DeclaringView::Scaffold {
        wanted,
    }));
    assert(declaring::run(root, home, file, rooms, seq![a, b]) == (DeclaringView::Create {
        wanted,
    }));
}

/// An owner file is judged by its values first and by what it resolves to then; an error names the
/// owner file.
pub proof fn owner_files_are_judged_whole(
    root: Seq<char>,
    home: Seq<char>,
    file: OwnerFile,
    rooms: Map<Seq<char>, String>,
)
    ensures
        declaring::owner_of_file(root, home, file, rooms) matches Ok(owner) ==>
            owner::owner_values_fault(file, owner::marker_clusters(file)) is None
            && owner::resolved(home, file, rooms) == Ok::<OwnerView, Seq<char>>(owner),
        owner::owner_values_fault(file, owner::marker_clusters(file)) is None && owner::resolved(
            home,
            file,
            rooms,
        ) is Ok ==> declaring::owner_of_file(root, home, file, rooms) is Ok,
        declaring::owner_of_file(root, home, file, rooms) matches Err(e) ==> e.code
            == ErrorCode::ConfigInvalid && e.details.path == Some(
            paths::join(root, "owner.json"@),
        ),
        file.marker matches Some(m) ==> owner::marker_clusters(file)
            == outside::grapheme_clusters(m@),
{
    reveal(declaring::owner_of_file);
}

/// Owners are seen as they are.
pub proof fn owners_are_seen_as_they_are(one: ResolvedOwner, listed: Seq<Seq<char>>)
    ensures
        one@.room == one.room@,
        one@.sidecar_dir == one.sidecar_dir@,
        one@.allowed_signers == one.allowed_signers@,
        one@.principal == one.principal@,
        one@.namespace == one.namespace@,
        one@.marker == one.marker@,
        one@.label == one.label@,
        one@.source == one.source,
        owner::holds_signature(listed) <==> exists|i: int|
            0 <= i < listed.len() && paths::extension(#[trigger] listed[i]) == Some("sig"@),
{
    if owner::holds_signature(listed) {
        let i = choose|i: int|
            0 <= i < listed.len() && crate::mail::has_extension(#[trigger] listed[i], "sig"@);
        assert(paths::extension(listed[i]) == Some("sig"@));
    }
    if exists|i: int|
        0 <= i < listed.len() && paths::extension(#[trigger] listed[i]) == Some("sig"@) {
        let i = choose|i: int|
            0 <= i < listed.len() && paths::extension(#[trigger] listed[i]) == Some("sig"@);
        assert(crate::mail::has_extension(listed[i], "sig"@));
    }
}

} // verus!
