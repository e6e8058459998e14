//! Declaring the owner of a store: the owner file is created once and never replaced.
use crate::context::Context;
use crate::error;
use crate::error::{AppError, ErrorCode};
use crate::owner;
use crate::owner::{OwnerFile, ResolvedOwner};
use crate::text;
use crate::textmap::RoomMap;
use vstd::prelude::*;

verus! {

/// Where a declaration stands, and so what it needs next.
#[derive(Debug)]
pub enum Declaring {
    /// What lies at the path of the owner file.
    Inspect { wanted: ResolvedOwner },
    /// The sidecar's directory of signatures, created if missing. It comes before the owner
    /// file, so that an install that fails leaves no owner file behind.
    Scaffold { wanted: ResolvedOwner },
    /// The owner file, under a name that must not exist yet.
    Create { wanted: ResolvedOwner },
    /// The owner file that is there, and the rooms as they stand now.
    Compare { wanted: ResolvedOwner },
    /// The sidecar's directory of signatures of an owner that is configured already.
    Complete { existing: ResolvedOwner },
    /// Nothing: the owner is configured.
    Done { created: bool, owner: ResolvedOwner },
    /// Nothing: the declaration is refused.
    Failed { error: AppError },
}

pub ghost enum DeclaringView {
    Inspect { wanted: owner::OwnerView },
    Scaffold { wanted: owner::OwnerView },
    Create { wanted: owner::OwnerView },
    Compare { wanted: owner::OwnerView },
    Complete { existing: owner::OwnerView },
    Done { created: bool, owner: owner::OwnerView },
    Failed { error: error::ErrorView },
}

impl View for Declaring {
    type V = DeclaringView;

    open spec fn view(&self) -> DeclaringView {
        match self {
            Declaring::Inspect { wanted } => DeclaringView::Inspect { wanted: wanted@ },
            Declaring::Scaffold { wanted } => DeclaringView::Scaffold { wanted: wanted@ },
            Declaring::Create { wanted } => DeclaringView::Create { wanted: wanted@ },
            Declaring::Compare { wanted } => DeclaringView::Compare { wanted: wanted@ },
            Declaring::Complete { existing } => DeclaringView::Complete { existing: existing@ },
            Declaring::Done { created, owner } => DeclaringView::Done {
                created: *created,
                owner: owner@,
            },
            Declaring::Failed { error } => DeclaringView::Failed { error: error@ },
        }
    }
}

/// What lies at the path of the owner file.
#[derive(Debug, Clone, Copy, PartialEq, Eq, Structural)]
pub enum OnOwnerPath {
    Nothing,
    Link,
    Something,
}

/// The outcome of one step of work.
#[derive(Debug)]
pub enum DeclareEvent {
    Found(OnOwnerPath),
    Scaffolded,
    Created,
    /// A file of that name was there already; nothing was written.
    Exists,
    /// The file could not be created; the text says why.
    CreateFailed(String),
    /// What the owner file holds, or why it cannot be read; and the rooms.
    Existing { read: Result<OwnerFile, String>, rooms: RoomMap },
}

pub ghost enum DeclareEventView {
    Found(OnOwnerPath),
    Scaffolded,
    Created,
    Exists,
    CreateFailed(Seq<char>),
    Existing { read: Result<OwnerFile, Seq<char>>, rooms: Map<Seq<char>, String> },
}

/// The content of an owner file, or why it cannot be read, as a value.
pub open spec fn read_view(read: Result<OwnerFile, String>) -> Result<OwnerFile, Seq<char>> {
    match read {
        Ok(file) => Ok(file),
        Err(reason) => Err(reason@),
    }
}

impl View for DeclareEvent {
    type V = DeclareEventView;

    open spec fn view(&self) -> DeclareEventView {
        match self {
            DeclareEvent::Found(found) => DeclareEventView::Found(*found),
            DeclareEvent::Scaffolded => DeclareEventView::Scaffolded,
            DeclareEvent::Created => DeclareEventView::Created,
            DeclareEvent::Exists => DeclareEventView::Exists,
            DeclareEvent::CreateFailed(problem) => DeclareEventView::CreateFailed(problem@),
            DeclareEvent::Existing { read, rooms } => DeclareEventView::Existing {
                read: read_view(*read),
                rooms: rooms@,
            },
        }
    }
}

/// The owner that a file stands for, checked value by value and then resolved.
#[verifier::opaque]
pub open spec fn owner_of_file(
    root: Seq<char>,
    home: Seq<char>,
    file: OwnerFile,
    rooms: Map<Seq<char>, String>,
) -> Result<owner::OwnerView, error::ErrorView> {
    match owner::owner_values_fault(file, owner::marker_clusters(file)) {
        Some(reason) => Err(error::ErrorView::config(owner::owner_file(root), reason)),
        None => owner::owner_outcome(root, owner::resolved(home, file, rooms)),
    }
}

/// What follows from the owner file that is there: the same owner is configured already, and
/// everything else is refused.
pub open spec fn judged(
    root: Seq<char>,
    home: Seq<char>,
    wanted: owner::OwnerView,
    read: Result<OwnerFile, Seq<char>>,
    rooms: Map<Seq<char>, String>,
) -> DeclaringView {
    let path = owner::owner_file(root);
    match read {
        Err(reason) => DeclaringView::Failed { error: error::ErrorView::config(path, reason) },
        Ok(file) => match owner_of_file(root, home, file, rooms) {
            Err(error) => DeclaringView::Failed { error },
            Ok(existing) => {
                let diffs = owner::differences(wanted, existing);
                if diffs.len() == 0 {
                    DeclaringView::Complete { existing }
                } else {
                    DeclaringView::Failed { error: owner::different_owner_error(path, diffs) }
                }
            },
        },
    }
}

/// The state of a declaration that has not begun.
pub open spec fn first(
    root: Seq<char>,
    home: Seq<char>,
    file: OwnerFile,
    rooms: Map<Seq<char>, String>,
) -> DeclaringView {
    match owner_of_file(root, home, file, rooms) {
        Err(error) => DeclaringView::Failed { error },
        Ok(wanted) => DeclaringView::Inspect { wanted },
    }
}

/// The state that follows an outcome. An outcome of work that was not asked for changes
/// nothing.
pub open spec fn next(
    root: Seq<char>,
    home: Seq<char>,
    state: DeclaringView,
    event: DeclareEventView,
) -> DeclaringView {
    let path = owner::owner_file(root);
    match (state, event) {
        (DeclaringView::Inspect { wanted }, DeclareEventView::Found(found)) => match found {
            OnOwnerPath::Nothing => DeclaringView::Scaffold { wanted },
            OnOwnerPath::Link => DeclaringView::Failed { error: owner::symlink_error(path) },
            OnOwnerPath::Something => DeclaringView::Compare { wanted },
        },
        (DeclaringView::Scaffold { wanted }, DeclareEventView::Scaffolded) => {
            DeclaringView::Create { wanted }
        },
        (DeclaringView::Create { wanted }, DeclareEventView::Created) => {
            DeclaringView::Done { created: true, owner: wanted }
        },
        (DeclaringView::Create { wanted }, DeclareEventView::Exists) => {
            DeclaringView::Compare { wanted }
        },
        (DeclaringView::Create { wanted }, DeclareEventView::CreateFailed(problem)) => {
            DeclaringView::Failed {
                error: error::ErrorView::io("create owner config"@, path, problem),
            }
        },
        (DeclaringView::Compare { wanted }, DeclareEventView::Existing { read, rooms }) => {
            judged(root, home, wanted, read, rooms)
        },
        (DeclaringView::Complete { existing }, DeclareEventView::Scaffolded) => {
            DeclaringView::Done { created: false, owner: existing }
        },
        _ => state,
    }
}

fn resolve(context: &Context, file: &OwnerFile, rooms: &RoomMap) -> (r: Result<
    ResolvedOwner,
    AppError,
>)
    ensures
        error::outcome(r) == owner_of_file(context.root@, context.home@, *file, rooms@),
{
    reveal(owner_of_file);
    let path = context.file("owner.json");
    match owner::validate_owner_values(path.as_str(), file) {
        Ok(_) => owner::resolve_owner_file(context, file, rooms),
        Err(error) => Err(error),
    }
}

impl Declaring {
    /// A declaration that has not begun.
    pub fn start(context: &Context, file: &OwnerFile, rooms: &RoomMap) -> (r: Declaring)
        ensures
            r@ == first(context.root@, context.home@, *file, rooms@),
    {
        match resolve(context, file, rooms) {
            Ok(wanted) => Declaring::Inspect { wanted },
            Err(error) => Declaring::Failed { error },
        }
    }

    /// The state after an outcome.
    pub fn step(self, context: &Context, event: DeclareEvent) -> (r: Declaring)
        ensures
            r@ == next(context.root@, context.home@, self@, event@),
    {
        let path = context.file("owner.json");
        match (self, event) {
            (Declaring::Inspect { wanted }, DeclareEvent::Found(found)) => match found {
                OnOwnerPath::Nothing => Declaring::Scaffold { wanted },
                OnOwnerPath::Link => Declaring::Failed {
                    error: owner::symlinked_owner_file(path.as_str()),
                },
                OnOwnerPath::Something => Declaring::Compare { wanted },
            },
            (Declaring::Scaffold { wanted }, DeclareEvent::Scaffolded) => {
                Declaring::Create { wanted }
            },
            (Declaring::Create { wanted }, DeclareEvent::Created) => {
                Declaring::Done { created: true, owner: wanted }
            },
            (Declaring::Create { wanted }, DeclareEvent::Exists) => Declaring::Compare { wanted },
            (Declaring::Create { wanted: _ }, DeclareEvent::CreateFailed(problem)) => {
                Declaring::Failed {
                    error: AppError::io("create owner config", path.as_str(), problem.as_str()),
                }
            },
            (Declaring::Compare { wanted }, DeclareEvent::Existing { read, rooms }) => match read {
                Err(reason) => Declaring::Failed {
                    error: AppError::config(path.as_str(), reason.as_str()),
                },
                Ok(file) => match resolve(context, &file, &rooms) {
                    Err(error) => Declaring::Failed { error },
                    Ok(existing) => {
                        match owner::compare_existing(path.as_str(), &wanted, &existing) {
                            Ok(_) => Declaring::Complete { existing },
                            Err(error) => Declaring::Failed { error },
                        }
                    },
                },
            },
            (Declaring::Complete { existing }, DeclareEvent::Scaffolded) => {
                Declaring::Done { created: false, owner: existing }
            },
            (state, _) => state,
        }
    }
}

// ---------------------------------------------------------------------------
// Laws
// ---------------------------------------------------------------------------
/// The state after a list of outcomes.
pub open spec fn run(
    root: Seq<char>,
    home: Seq<char>,
    file: OwnerFile,
    rooms: Map<Seq<char>, String>,
    events: Seq<DeclareEventView>,
) -> DeclaringView
    decreases events.len(),
{
    if events.len() == 0 {
        first(root, home, file, rooms)
    } else {
        next(root, home, run(root, home, file, rooms, events.drop_last()), events.last())
    }
}

/// Whether a declaration is on its way to writing the owner file, or has written it.
pub open spec fn writes(state: DeclaringView) -> bool {
    match state {
        DeclaringView::Scaffold { wanted } => true,
        DeclaringView::Create { wanted } => true,
        DeclaringView::Done { created, owner } => created,
        _ => false,
    }
}

/// An owner file is created only where none was: a declaration writes only after it found
/// nothing at the path, and has written only if the creation of a new file succeeded.
pub proof fn owner_files_are_created_only_where_none_is(
    root: Seq<char>,
    home: Seq<char>,
    file: OwnerFile,
    rooms: Map<Seq<char>, String>,
    events: Seq<DeclareEventView>,
)
    ensures
        ({
            let state = run(root, home, file, rooms, events);
            &&& writes(state) ==> events.contains(DeclareEventView::Found(OnOwnerPath::Nothing))
            &&& state is Done && state->created ==> events.contains(DeclareEventView::Created)
        }),
    decreases events.len(),
{
    if events.len() > 0 {
        let before = events.drop_last();
        owner_files_are_created_only_where_none_is(root, home, file, rooms, before);
        let found = DeclareEventView::Found(OnOwnerPath::Nothing);
        assert(events[events.len() - 1] == events.last());
        if before.contains(found) {
            let i = choose|i: int| 0 <= i < before.len() && before[i] == found;
            assert(events[i] == found);
        }
        if before.contains(DeclareEventView::Created) {
            let i = choose|i: int| 0 <= i < before.len() && before[i] == DeclareEventView::Created;
            assert(events[i] == DeclareEventView::Created);
        }
    }
}

/// A file that is there is never written: once a declaration compares, whatever follows leaves
/// the file as it was found.
pub proof fn compared_files_are_never_written(
    root: Seq<char>,
    home: Seq<char>,
    state: DeclaringView,
    event: DeclareEventView,
)
    requires
        !writes(state),
        !(state is Inspect),
    ensures
        !writes(next(root, home, state, event)),
        !(next(root, home, state, event) is Inspect),
{
}

/// The outcomes of a declaration that meets a file: it lay there from the start, or it
/// appeared before the new one could be created.
pub open spec fn meets_a_file(before: Seq<DeclareEventView>) -> bool {
    ||| before == seq![DeclareEventView::Found(OnOwnerPath::Something)]
    ||| before == seq![
        DeclareEventView::Found(OnOwnerPath::Nothing),
        DeclareEventView::Scaffolded,
        DeclareEventView::Exists,
    ]
}

/// A file that is there decides: a declaration that meets one, at the start or in a race, ends
/// well exactly if the file stands for the same owner, and then says that it created nothing.
/// A file that differs or cannot be read is refused as invalid configuration.
pub proof fn existing_owner_files_decide(
    root: Seq<char>,
    home: Seq<char>,
    file: OwnerFile,
    rooms: Map<Seq<char>, String>,
    before: Seq<DeclareEventView>,
    read: Result<OwnerFile, Seq<char>>,
    later_rooms: Map<Seq<char>, String>,
)
    requires
        owner_of_file(root, home, file, rooms) is Ok,
        meets_a_file(before),
    ensures
        ({
            let wanted = owner_of_file(root, home, file, rooms)->Ok_0;
            let end = run(
                root,
                home,
                file,
                rooms,
                before.push(DeclareEventView::Existing { read, rooms: later_rooms }).push(
                    DeclareEventView::Scaffolded,
                ),
            );
            if read is Ok && owner_of_file(root, home, read->Ok_0, later_rooms) == Ok::<
                owner::OwnerView,
                error::ErrorView,
            >(wanted) {
                end == (DeclaringView::Done { created: false, owner: wanted })
            } else {
                end is Failed && end->error.code == ErrorCode::ConfigInvalid
            }
        }),
{
    let wanted = owner_of_file(root, home, file, rooms)->Ok_0;
    let existing = DeclareEventView::Existing { read, rooms: later_rooms };
    let asked = before.push(existing);
    let all = asked.push(DeclareEventView::Scaffolded);
    assert(all.drop_last() =~= asked);
    assert(asked.drop_last() =~= before);
    meeting_leads_to_comparing(root, home, file, rooms, before);
    assert(run(root, home, file, rooms, asked) == judged(root, home, wanted, read, later_rooms));
    files_resolve_to_configured_owners(root, home, file, rooms);
    same_files_are_judged_the_same(root, home, wanted, read, later_rooms);
}

proof fn meeting_leads_to_comparing(
    root: Seq<char>,
    home: Seq<char>,
    file: OwnerFile,
    rooms: Map<Seq<char>, String>,
    before: Seq<DeclareEventView>,
)
    requires
        owner_of_file(root, home, file, rooms) is Ok,
        meets_a_file(before),
    ensures
        run(root, home, file, rooms, before) == (DeclaringView::Compare {
            wanted: owner_of_file(root, home, file, rooms)->Ok_0,
        }),
{
    let wanted = owner_of_file(root, home, file, rooms)->Ok_0;
    let none = Seq::<DeclareEventView>::empty();
    assert(run(root, home, file, rooms, none) == (DeclaringView::Inspect { wanted }));
    if before.len() == 1 {
        assert(before.drop_last() =~= none);
    } else {
        let two = before.drop_last();
        let one = two.drop_last();
        assert(one.drop_last() =~= none);
        assert(run(root, home, file, rooms, one) == (DeclaringView::Scaffold { wanted }));
        assert(run(root, home, file, rooms, two) == (DeclaringView::Create { wanted }));
    }
}

proof fn same_files_are_judged_the_same(
    root: Seq<char>,
    home: Seq<char>,
    wanted: owner::OwnerView,
    read: Result<OwnerFile, Seq<char>>,
    rooms: Map<Seq<char>, String>,
)
    requires
        wanted.source == owner::OwnerSource::Configured,
    ensures
        ({
            let state = judged(root, home, wanted, read, rooms);
            if read is Ok && owner_of_file(root, home, read->Ok_0, rooms) == Ok::<
                owner::OwnerView,
                error::ErrorView,
            >(wanted) {
                state == (DeclaringView::Complete { existing: wanted })
            } else {
                state is Failed && state->error.code == ErrorCode::ConfigInvalid
            }
        }),
{
    if read is Ok {
        files_resolve_to_configured_owners(root, home, read->Ok_0, rooms);
        let found = owner_of_file(root, home, read->Ok_0, rooms);
        if found is Ok {
            owner::same_owners_have_no_differences(wanted, found->Ok_0);
        }
    }
}

proof fn files_resolve_to_configured_owners(
    root: Seq<char>,
    home: Seq<char>,
    file: OwnerFile,
    rooms: Map<Seq<char>, String>,
)
    ensures
        match owner_of_file(root, home, file, rooms) {
            Ok(owner) => owner.source == owner::OwnerSource::Configured,
            Err(error) => error.code == ErrorCode::ConfigInvalid,
        },
{
    reveal(owner_of_file);
}

/// A link at the path is refused as invalid configuration, and followed by nothing.
pub proof fn linked_owner_files_are_refused(
    root: Seq<char>,
    home: Seq<char>,
    wanted: owner::OwnerView,
)
    ensures
        ({
            let end = next(
                root,
                home,
                DeclaringView::Inspect { wanted },
                DeclareEventView::Found(OnOwnerPath::Link),
            );
            end is Failed && end->error.code == ErrorCode::ConfigInvalid
        }),
{
}

/// Where nothing was there throughout, the owner is created; and the same declaration again,
/// which reads that file back, creates nothing more.
pub proof fn repeated_declarations_create_once(
    root: Seq<char>,
    home: Seq<char>,
    file: OwnerFile,
    rooms: Map<Seq<char>, String>,
)
    requires
        owner_of_file(root, home, file, rooms) is Ok,
    ensures
        ({
            let wanted = owner_of_file(root, home, file, rooms)->Ok_0;
            &&& run(
                root,
                home,
                file,
                rooms,
                seq![
                    DeclareEventView::Found(OnOwnerPath::Nothing),
                    DeclareEventView::Scaffolded,
                    DeclareEventView::Created,
                ],
            ) == (DeclaringView::Done { created: true, owner: wanted })
            &&& run(
                root,
                home,
                file,
                rooms,
                seq![
                    DeclareEventView::Found(OnOwnerPath::Something),
                    DeclareEventView::Existing { read: Ok(file), rooms },
                    DeclareEventView::Scaffolded,
                ],
            ) == (DeclaringView::Done { created: false, owner: wanted })
        }),
{
    let wanted = owner_of_file(root, home, file, rooms)->Ok_0;
    let none = Seq::<DeclareEventView>::empty();
    let fresh = seq![
        DeclareEventView::Found(OnOwnerPath::Nothing),
        DeclareEventView::Scaffolded,
        DeclareEventView::Created,
    ];
    let two = fresh.drop_last();
    let one = two.drop_last();
    assert(one.drop_last() =~= none);
    assert(run(root, home, file, rooms, none) == (DeclaringView::Inspect { wanted }));
    assert(run(root, home, file, rooms, one) == (DeclaringView::Scaffold { wanted }));
    assert(run(root, home, file, rooms, two) == (DeclaringView::Create { wanted }));
    let before = seq![DeclareEventView::Found(OnOwnerPath::Something)];
    existing_owner_files_decide(root, home, file, rooms, before, Ok(file), rooms);
    assert(before.push(DeclareEventView::Existing { read: Ok(file), rooms }).push(
        DeclareEventView::Scaffolded,
    ) =~= seq![
        DeclareEventView::Found(OnOwnerPath::Something),
        DeclareEventView::Existing { read: Ok(file), rooms },
        DeclareEventView::Scaffolded,
    ]);
}

} // verus!
