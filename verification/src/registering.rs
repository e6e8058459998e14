//! Registering a room: what is checked, and in which order, before the registry is written.
use crate::cli::RoomsAddArgs;
use crate::context;
use crate::context::Context;
use crate::error;
use crate::error::AppError;
use crate::model;
use crate::model::BlockingRule;
use crate::names;
use crate::rooms;
use crate::rooms::{Candidate, Workspace};
use crate::text;
use crate::textmap::RoomMap;
use vstd::prelude::*;

verus! {

/// Where a registration stands, and so what it needs next.
#[derive(Debug)]
pub enum Registering {
    /// What lies at the workspace's path.
    Inspect { expanded: String },
    /// The workspaces of the registered rooms.
    Compare { candidate: Candidate },
    /// The rules, as they stand with the room in the registry.
    LoadRules { warnings: Vec<String> },
    /// The registry with the room in it.
    Write { warnings: Vec<String> },
    /// Nothing: the room is registered. The warnings are still to be said.
    Done { warnings: Vec<String> },
    /// Nothing: the room is refused.
    Failed { error: AppError },
}

pub ghost enum RegisteringView {
    Inspect { expanded: Seq<char> },
    Compare { candidate: Candidate },
    LoadRules { warnings: Seq<Seq<char>> },
    Write { warnings: Seq<Seq<char>> },
    Done { warnings: Seq<Seq<char>> },
    Failed { error: error::ErrorView },
}

impl View for Registering {
    type V = RegisteringView;

    open spec fn view(&self) -> RegisteringView {
        match self {
            Registering::Inspect { expanded } => RegisteringView::Inspect { expanded: expanded@ },
            Registering::Compare { candidate } => RegisteringView::Compare {
                candidate: *candidate,
            },
            Registering::LoadRules { warnings } => RegisteringView::LoadRules {
                warnings: text::texts(warnings@),
            },
            Registering::Write { warnings } => RegisteringView::Write {
                warnings: text::texts(warnings@),
            },
            Registering::Done { warnings } => RegisteringView::Done {
                warnings: text::texts(warnings@),
            },
            Registering::Failed { error } => RegisteringView::Failed { error: error@ },
        }
    }
}

/// What lies at a path.
#[derive(Debug)]
pub enum Inspection {
    Missing,
    NoDirectory,
    Directory(Candidate),
}

/// The outcome of one step of work.
#[derive(Debug)]
pub enum RegisterEvent {
    Inspected(Inspection),
    Workspaces(Vec<Workspace>),
    Rules(Vec<BlockingRule>),
    Written,
}

pub ghost enum RegisterEventView {
    Inspected(Inspection),
    Workspaces(Seq<Workspace>),
    Rules(Seq<model::RuleView>),
    Written,
}

impl View for RegisterEvent {
    type V = RegisterEventView;

    open spec fn view(&self) -> RegisterEventView {
        match self {
            RegisterEvent::Inspected(found) => RegisterEventView::Inspected(*found),
            RegisterEvent::Workspaces(known) => RegisterEventView::Workspaces(known@),
            RegisterEvent::Rules(rules) => RegisterEventView::Rules(model::rules_view(rules@)),
            RegisterEvent::Written => RegisterEventView::Written,
        }
    }
}

/// The state of a registration that has not begun: the name must be valid and free, and the
/// path must lead somewhere.
pub open spec fn first(
    home: Seq<char>,
    known: Seq<Seq<char>>,
    name: Seq<char>,
    path: Seq<char>,
) -> RegisteringView {
    if names::room_name_fault(name) is Some {
        RegisteringView::Failed {
            error: rooms::bad_name_error(name, names::room_name_fault(name)->0),
        }
    } else if rooms::same_folded(known, name) is Some {
        RegisteringView::Failed {
            error: rooms::taken_name_error(name, rooms::same_folded(known, name)->0),
        }
    } else {
        match context::expanded(home, path) {
            Ok(expanded) => RegisteringView::Inspect { expanded },
            Err(reason) => RegisteringView::Failed { error: rooms::bad_path_error(path, reason) },
        }
    }
}

/// The state that follows an outcome. An outcome of work that was not asked for changes
/// nothing.
pub open spec fn next(
    name: Seq<char>,
    path: Seq<char>,
    state: RegisteringView,
    event: RegisterEventView,
) -> RegisteringView {
    match (state, event) {
        (RegisteringView::Inspect { expanded }, RegisterEventView::Inspected(found)) => {
            match found {
                Inspection::Missing => RegisteringView::Failed {
                    error: rooms::missing_workspace_error(path, expanded),
                },
                Inspection::NoDirectory => RegisteringView::Failed {
                    error: rooms::no_directory_error(path, expanded),
                },
                Inspection::Directory(candidate) => RegisteringView::Compare { candidate },
            }
        },
        (RegisteringView::Compare { candidate }, RegisterEventView::Workspaces(known)) => {
            match rooms::workspace_holder(known, candidate) {
                Some(room) => RegisteringView::Failed {
                    error: rooms::duplicate_workspace_error(candidate, room),
                },
                None => RegisteringView::LoadRules { warnings: rooms::unresolved_warnings(known) },
            }
        },
        (RegisteringView::LoadRules { warnings }, RegisterEventView::Rules(rules)) => {
            match rooms::targeting_rule(rules, name) {
                Some(rule) => RegisteringView::Failed {
                    error: rooms::blocked_room_error(name, rule),
                },
                None => RegisteringView::Write { warnings },
            }
        },
        (RegisteringView::Write { warnings }, RegisterEventView::Written) => {
            RegisteringView::Done { warnings }
        },
        _ => state,
    }
}

impl Registering {
    /// A registration that has not begun.
    pub fn start(context: &Context, request: &RoomsAddArgs, known: &RoomMap) -> (r: Registering)
        ensures
            r@ == first(context.home@, known.keys(), request.name@, request.path@),
    {
        match rooms::check_room_name(request.name.as_str()) {
            Ok(_) => {},
            Err(error) => {
                return Registering::Failed { error };
            },
        }
        match rooms::check_name_free(request.name.as_str(), known) {
            Ok(_) => {},
            Err(error) => {
                return Registering::Failed { error };
            },
        }
        match context.expand_room_path(request.path.as_str()) {
            Ok(expanded) => Registering::Inspect { expanded },
            Err(reason) => Registering::Failed {
                error: rooms::bad_room_path(request.path.as_str(), reason.as_str()),
            },
        }
    }

    /// The state after an outcome.
    pub fn step(self, request: &RoomsAddArgs, event: RegisterEvent) -> (r: Registering)
        ensures
            r@ == next(request.name@, request.path@, self@, event@),
    {
        let path = request.path.as_str();
        match (self, event) {
            (Registering::Inspect { expanded }, RegisterEvent::Inspected(found)) => match found {
                Inspection::Missing => Registering::Failed {
                    error: rooms::missing_workspace(path, expanded.as_str()),
                },
                Inspection::NoDirectory => Registering::Failed {
                    error: rooms::workspace_no_directory(path, expanded.as_str()),
                },
                Inspection::Directory(candidate) => Registering::Compare { candidate },
            },
            (Registering::Compare { candidate }, RegisterEvent::Workspaces(known)) => {
                match rooms::check_workspace(&known, &candidate) {
                    Ok(warnings) => Registering::LoadRules { warnings },
                    Err(error) => Registering::Failed { error },
                }
            },
            (Registering::LoadRules { warnings }, RegisterEvent::Rules(rules)) => {
                match rooms::check_not_blocked(request.name.as_str(), &rules) {
                    Ok(_) => Registering::Write { warnings },
                    Err(error) => Registering::Failed { error },
                }
            },
            (Registering::Write { warnings }, RegisterEvent::Written) => {
                Registering::Done { warnings }
            },
            (state, _) => state,
        }
    }
}

/// The registry with a room in it. Every other room keeps its workspace.
pub fn with_room(rooms: RoomMap, name: &str, path: String) -> (r: RoomMap)
    ensures
        r@ == rooms@.insert(name@, path),
        forall|room: Seq<char>| #[trigger]
            r.keys().contains(room) <==> rooms.keys().contains(room) || room == name@,
{
    let mut registry = rooms;
    registry.insert(name, path);
    registry
}

/// The state after a list of outcomes.
pub open spec fn run(
    home: Seq<char>,
    known: Seq<Seq<char>>,
    name: Seq<char>,
    path: Seq<char>,
    events: Seq<RegisterEventView>,
) -> RegisteringView
    decreases events.len(),
{
    if events.len() == 0 {
        first(home, known, name, path)
    } else {
        next(name, path, run(home, known, name, path, events.drop_last()), events.last())
    }
}

/// Whether a directory was inspected that no registered room has.
pub open spec fn new_directory_seen(events: Seq<RegisterEventView>) -> bool {
    exists|i: int, j: int|
        #![trigger events[i], events[j]]
        0 <= i < j < events.len() && events[i] is Inspected && events[i]->Inspected_0 is Directory
            && events[j] is Workspaces && rooms::workspace_holder(
            events[j]->Workspaces_0,
            events[i]->Inspected_0->Directory_0,
        ) is None
}

/// Whether the rules were loaded and none closes a route to a room.
pub open spec fn open_rules_seen(events: Seq<RegisterEventView>, name: Seq<char>) -> bool {
    exists|i: int|
        0 <= i < events.len() && (#[trigger] events[i]) is Rules && rooms::targeting_rule(
            events[i]->Rules_0,
            name,
        ) is None
}

/// How many of the three checks that need the store lie behind a state: of the directory, of
/// the registered workspaces, of the rules.
pub open spec fn checks_passed(state: RegisteringView) -> int {
    match state {
        RegisteringView::Inspect { expanded } => 0,
        RegisteringView::Compare { candidate } => 1,
        RegisteringView::LoadRules { warnings } => 2,
        RegisteringView::Write { warnings } => 3,
        RegisteringView::Done { warnings } => 3,
        RegisteringView::Failed { error } => 0,
    }
}

proof fn checks_leave_traces(
    home: Seq<char>,
    known: Seq<Seq<char>>,
    name: Seq<char>,
    path: Seq<char>,
    events: Seq<RegisterEventView>,
)
    ensures
        ({
            let state = run(home, known, name, path, events);
            &&& state is Failed || !(first(home, known, name, path) is Failed)
            &&& state is Compare ==> exists|i: int|
                0 <= i < events.len() && (#[trigger] events[i])
                    == RegisterEventView::Inspected(Inspection::Directory(state->candidate))
            &&& checks_passed(state) >= 2 ==> new_directory_seen(events)
            &&& checks_passed(state) >= 3 ==> open_rules_seen(events, name)
        }),
    decreases events.len(),
{
    if events.len() > 0 {
        let before = events.drop_last();
        checks_leave_traces(home, known, name, path, before);
        let earlier = run(home, known, name, path, before);
        let state = run(home, known, name, path, events);
        assert(events[events.len() - 1] == events.last());
        if earlier is Compare {
            let i = choose|i: int|
                0 <= i < before.len() && (#[trigger] before[i])
                    == RegisterEventView::Inspected(Inspection::Directory(earlier->candidate));
            assert(events[i] == before[i]);
            if state is LoadRules {
                let j = events.len() - 1;
                assert(0 <= i < j < events.len() && events[i] is Inspected && events[j] is Workspaces);
            }
        }
        if checks_passed(earlier) >= 2 {
            let (i, j) = choose|i: int, j: int|
                #![trigger before[i], before[j]]
                0 <= i < j < before.len() && before[i] is Inspected
                    && before[i]->Inspected_0 is Directory && before[j] is Workspaces
                    && rooms::workspace_holder(
                    before[j]->Workspaces_0,
                    before[i]->Inspected_0->Directory_0,
                ) is None;
            assert(events[i] == before[i] && events[j] == before[j]);
        }
        if checks_passed(earlier) >= 3 {
            let i = choose|i: int|
                0 <= i < before.len() && (#[trigger] before[i]) is Rules && rooms::targeting_rule(
                    before[i]->Rules_0,
                    name,
                ) is None;
            assert(events[i] == before[i]);
        }
    }
}

/// The registry is written only for a room whose name is valid and new, whose path is a
/// directory that no other room has, and to which no rule closes a route.
pub proof fn rooms_are_registered_only_if_free(
    home: Seq<char>,
    known: Seq<Seq<char>>,
    name: Seq<char>,
    path: Seq<char>,
    events: Seq<RegisterEventView>,
)
    requires
        run(home, known, name, path, events) is Write || run(home, known, name, path, events)
            is Done,
    ensures
        names::room_name_fault(name) is None,
        !known.contains(name),
        rooms::same_folded(known, name) is None,
        context::expanded(home, path) is Ok,
        new_directory_seen(events),
        open_rules_seen(events, name),
{
    checks_leave_traces(home, known, name, path, events);
    rooms::free_names_are_new(known, name);
}

} // verus!
