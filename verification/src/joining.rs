//! Joining a channel: what is checked and written, and in which order.
use crate::channel;
use crate::channel::MessageDraft;
use crate::error;
use crate::error::AppError;
use crate::history;
use crate::model;
use crate::model::BlockingRule;
use crate::output;
use crate::text;
use crate::textmap::MemberMap;
use vstd::prelude::*;

verus! {

/// A room that asks to join a channel.
#[derive(Debug)]
pub struct JoinRequest {
    pub channel: String,
    pub room: String,
    pub description: Option<String>,
}

/// Where a join stands, and so what it needs next.
#[derive(Debug)]
pub enum Joining {
    /// The rules.
    LoadRules,
    /// The directory of the messages, created if missing.
    PrepareMessages,
    /// The channel's file, for a channel that is new.
    CreateInfo { since: String },
    /// The channel's file with the new description; `since` is missing where the room is a
    /// member already.
    AmendInfo { since: Option<String> },
    /// The event that records the join in the history.
    PostEvent { since: String, created: bool },
    /// The room among the members.
    AddMember { since: String, created: bool, event_id: String },
    /// Nothing: the room is a member.
    Done { created: bool, already_member: bool, event_id: Option<String> },
    /// Nothing: the join is refused.
    Failed { error: AppError },
}

pub ghost enum JoiningView {
    LoadRules,
    PrepareMessages,
    CreateInfo { since: Seq<char> },
    AmendInfo { since: Option<Seq<char>> },
    PostEvent { since: Seq<char>, created: bool },
    AddMember { since: Seq<char>, created: bool, event_id: Seq<char> },
    Done { created: bool, already_member: bool, event_id: Option<Seq<char>> },
    Failed { error: error::ErrorView },
}

impl View for Joining {
    type V = JoiningView;

    open spec fn view(&self) -> JoiningView {
        match self {
            Joining::LoadRules => JoiningView::LoadRules,
            Joining::PrepareMessages => JoiningView::PrepareMessages,
            Joining::CreateInfo { since } => JoiningView::CreateInfo { since: since@ },
            Joining::AmendInfo { since } => JoiningView::AmendInfo { since: text::opt(*since) },
            Joining::PostEvent { since, created } => JoiningView::PostEvent {
                since: since@,
                created: *created,
            },
            Joining::AddMember { since, created, event_id } => JoiningView::AddMember {
                since: since@,
                created: *created,
                event_id: event_id@,
            },
            Joining::Done { created, already_member, event_id } => JoiningView::Done {
                created: *created,
                already_member: *already_member,
                event_id: text::opt(*event_id),
            },
            Joining::Failed { error } => JoiningView::Failed { error: error@ },
        }
    }
}

/// The outcome of one step of work.
#[derive(Debug)]
pub enum JoinEvent {
    /// The rules as they stand now.
    Rules(Vec<BlockingRule>),
    /// The directory is there; whether the channel existed, and the time.
    Prepared { exists_already: bool, now: String },
    InfoWritten,
    /// The event was posted, under this id.
    EventPosted(String),
    MemberAdded,
}

pub ghost enum JoinEventView {
    Rules(Seq<model::RuleView>),
    Prepared { exists_already: bool, now: Seq<char> },
    InfoWritten,
    EventPosted(Seq<char>),
    MemberAdded,
}

impl View for JoinEvent {
    type V = JoinEventView;

    open spec fn view(&self) -> JoinEventView {
        match self {
            JoinEvent::Rules(rules) => JoinEventView::Rules(model::rules_view(rules@)),
            JoinEvent::Prepared { exists_already, now } => JoinEventView::Prepared {
                exists_already: *exists_already,
                now: now@,
            },
            JoinEvent::InfoWritten => JoinEventView::InfoWritten,
            JoinEvent::EventPosted(id) => JoinEventView::EventPosted(id@),
            JoinEvent::MemberAdded => JoinEventView::MemberAdded,
        }
    }
}

/// The state of a join that has not begun. A member that joins again can only change the
/// description.
pub open spec fn first(request: JoinRequest, members: Seq<Seq<char>>) -> JoiningView {
    let description = text::opt(request.description);
    if description is Some && channel::description_fault(description->0) is Some {
        JoiningView::Failed { error: channel::description_fault(description->0)->0 }
    } else if !members.contains(request.room@) {
        JoiningView::LoadRules
    } else if description is Some {
        JoiningView::AmendInfo { since: None }
    } else {
        JoiningView::Done { created: false, already_member: true, event_id: None }
    }
}

/// The state that follows an outcome. An outcome of work that was not asked for changes
/// nothing.
pub open spec fn next(
    request: JoinRequest,
    members: Seq<Seq<char>>,
    state: JoiningView,
    event: JoinEventView,
) -> JoiningView {
    match (state, event) {
        (JoiningView::LoadRules, JoinEventView::Rules(rules)) => {
            match channel::join_fault(request.channel@, request.room@, members, rules) {
                Some(error) => JoiningView::Failed { error },
                None => JoiningView::PrepareMessages,
            }
        },
        (JoiningView::PrepareMessages, JoinEventView::Prepared { exists_already, now }) => {
            if !exists_already {
                JoiningView::CreateInfo { since: now }
            } else if request.description is Some {
                JoiningView::AmendInfo { since: Some(now) }
            } else {
                JoiningView::PostEvent { since: now, created: false }
            }
        },
        (JoiningView::CreateInfo { since }, JoinEventView::InfoWritten) => {
            JoiningView::PostEvent { since, created: true }
        },
        (JoiningView::AmendInfo { since }, JoinEventView::InfoWritten) => match since {
            Some(since) => JoiningView::PostEvent { since, created: false },
            None => JoiningView::Done { created: false, already_member: true, event_id: None },
        },
        (JoiningView::PostEvent { since, created }, JoinEventView::EventPosted(event_id)) => {
            JoiningView::AddMember { since, created, event_id }
        },
        (JoiningView::AddMember { since, created, event_id }, JoinEventView::MemberAdded) => {
            JoiningView::Done { created, already_member: false, event_id: Some(event_id) }
        },
        _ => state,
    }
}

impl Joining {
    /// A join that has not begun.
    pub fn start(request: &JoinRequest, members: &MemberMap) -> (r: Joining)
        ensures
            r@ == first(*request, members.keys()),
    {
        match channel::check_join(
            request.room.as_str(),
            output::borrowed(&request.description),
            members,
        ) {
            Err(error) => Joining::Failed { error },
            Ok(already_member) => {
                if !already_member {
                    Joining::LoadRules
                } else if request.description.is_some() {
                    Joining::AmendInfo { since: None }
                } else {
                    Joining::Done { created: false, already_member: true, event_id: None }
                }
            },
        }
    }

    /// The state after an outcome.
    pub fn step(self, request: &JoinRequest, members: &MemberMap, event: JoinEvent) -> (r: Joining)
        ensures
            r@ == next(*request, members.keys(), self@, event@),
    {
        match (self, event) {
            (Joining::LoadRules, JoinEvent::Rules(rules)) => {
                match channel::ensure_join_allowed(
                    request.channel.as_str(),
                    request.room.as_str(),
                    members,
                    &rules,
                ) {
                    Ok(_) => Joining::PrepareMessages,
                    Err(error) => Joining::Failed { error },
                }
            },
            (Joining::PrepareMessages, JoinEvent::Prepared { exists_already, now }) => {
                if !exists_already {
                    Joining::CreateInfo { since: now }
                } else if request.description.is_some() {
                    Joining::AmendInfo { since: Some(now) }
                } else {
                    Joining::PostEvent { since: now, created: false }
                }
            },
            (Joining::CreateInfo { since }, JoinEvent::InfoWritten) => {
                Joining::PostEvent { since, created: true }
            },
            (Joining::AmendInfo { since }, JoinEvent::InfoWritten) => match since {
                Some(since) => Joining::PostEvent { since, created: false },
                None => Joining::Done { created: false, already_member: true, event_id: None },
            },
            (Joining::PostEvent { since, created }, JoinEvent::EventPosted(event_id)) => {
                Joining::AddMember { since, created, event_id }
            },
            (Joining::AddMember { since: _, created, event_id }, JoinEvent::MemberAdded) => {
                Joining::Done { created, already_member: false, event_id: Some(event_id) }
            },
            (state, _) => state,
        }
    }
}

/// The state after a list of outcomes.
pub open spec fn run(
    request: JoinRequest,
    members: Seq<Seq<char>>,
    events: Seq<JoinEventView>,
) -> JoiningView
    decreases events.len(),
{
    if events.len() == 0 {
        first(request, members)
    } else {
        next(request, members, run(request, members, events.drop_last()), events.last())
    }
}

/// What a join has done to a channel.
pub ghost struct Work {
    /// Whether the channel was found missing.
    pub absent: bool,
    /// The ids of the events that were posted.
    pub posted: Seq<Seq<char>>,
    /// The members that were added, each with the time since when.
    pub added: Seq<(Seq<char>, Seq<char>)>,
}

/// What a join has done after a list of outcomes.
pub open spec fn work(
    request: JoinRequest,
    members: Seq<Seq<char>>,
    events: Seq<JoinEventView>,
) -> Work
    decreases events.len(),
{
    if events.len() == 0 {
        Work { absent: false, posted: seq![], added: seq![] }
    } else {
        let before = work(request, members, events.drop_last());
        match (run(request, members, events.drop_last()), events.last()) {
            (JoiningView::PrepareMessages, JoinEventView::Prepared { exists_already, now }) => {
                Work { absent: !exists_already, ..before }
            },
            (JoiningView::PostEvent { since, created }, JoinEventView::EventPosted(id)) => {
                Work { posted: before.posted.push(id), ..before }
            },
            (
                JoiningView::AddMember { since, created, event_id },
                JoinEventView::MemberAdded,
            ) => Work { added: before.added.push((request.room@, since)), ..before },
            _ => before,
        }
    }
}

/// The record of a join: the draft of its event, and the body.
pub fn join_record(request: &JoinRequest) -> (r: (MessageDraft, String))
    ensures
        channel::records(r.0, request.room@, request.channel@, channel::JOIN_EVENT@),
        r.1@ == channel::join_text(request.room@),
{
    (
        channel::event_draft(
            request.room.as_str(),
            request.channel.as_str(),
            channel::JOIN_EVENT,
        ),
        channel::join_body(request.room.as_str()),
    )
}

/// The members with a room added.
pub fn with_member(members: MemberMap, room: &str, since: &str) -> (r: MemberMap)
    ensures
        r@.dom() == members@.dom().insert(room@),
        r@[room@]@ == since@,
        forall|name: Seq<char>| name != room@ ==> #[trigger] r@[name] == members@[name],
        forall|name: Seq<char>| #[trigger]
            r.keys().contains(name) <==> members.keys().contains(name) || name == room@,
{
    let mut list = members;
    list.insert(room, since.to_owned());
    assert(list@.dom() =~= members@.dom().insert(room@));
    list
}

/// What a join has done is what its state says.
proof fn work_fits_the_state(
    request: JoinRequest,
    members: Seq<Seq<char>>,
    events: Seq<JoinEventView>,
)
    ensures
        ({
            let done = work(request, members, events);
            match run(request, members, events) {
                JoiningView::CreateInfo { since } => done.absent && done.posted.len() == 0
                    && done.added.len() == 0,
                JoiningView::AmendInfo { since } => !done.absent && done.posted.len() == 0
                    && done.added.len() == 0,
                JoiningView::PostEvent { since, created } => created == done.absent
                    && done.posted.len() == 0 && done.added.len() == 0,
                JoiningView::AddMember { since, created, event_id } => created == done.absent
                    && done.posted == seq![event_id] && done.added.len() == 0,
                JoiningView::Done { created, already_member, event_id } => {
                    &&& created == done.absent
                    &&& already_member == members.contains(request.room@)
                    &&& if already_member {
                        !created && event_id is None && done.posted.len() == 0 && done.added.len() == 0
                    } else {
                        &&& event_id is Some
                        &&& done.posted == seq![event_id->0]
                        &&& done.added.len() == 1
                        &&& done.added[0].0 == request.room@
                    }
                },
                _ => !done.absent && done.posted.len() == 0 && done.added.len() == 0,
            }
        }),
    decreases events.len(),
{
    if events.len() > 0 {
        let before = events.drop_last();
        work_fits_the_state(request, members, before);
        if members.contains(request.room@) {
            members_join_once(request, members, before);
        } else {
            newcomers_amend_after_the_rules(request, members, before);
        }
    }
}

proof fn newcomers_amend_after_the_rules(
    request: JoinRequest,
    members: Seq<Seq<char>>,
    events: Seq<JoinEventView>,
)
    requires
        !members.contains(request.room@),
    ensures
        match run(request, members, events) {
            JoiningView::AmendInfo { since } => since is Some,
            JoiningView::Done { created, already_member, event_id } => !already_member,
            _ => true,
        },
    decreases events.len(),
{
    if events.len() > 0 {
        newcomers_amend_after_the_rules(request, members, events.drop_last());
    }
}

/// Joining twice leaves one join. The first join of a room that is no member posts exactly one
/// event, the one that it reports, and adds exactly that room; it says that it created the
/// channel exactly if the channel was missing. A second join, of whatever description, meets
/// the room among the members: it reports a member and no event, posts nothing, adds nobody
/// and creates nothing.
pub proof fn joining_twice_leaves_one_join(
    first_request: JoinRequest,
    members: Seq<Seq<char>>,
    first_events: Seq<JoinEventView>,
    second_request: JoinRequest,
    later_members: Seq<Seq<char>>,
    second_events: Seq<JoinEventView>,
)
    requires
        !members.contains(first_request.room@),
        second_request.room@ == first_request.room@,
        run(first_request, members, first_events) is Done,
        forall|name: Seq<char>| #[trigger]
            later_members.contains(name) <==> members.contains(name) || name
                == first_request.room@,
    ensures
        ({
            let one = run(first_request, members, first_events);
            let done = work(first_request, members, first_events);
            &&& !one->already_member
            &&& one->Done_created == done.absent
            &&& one->Done_event_id is Some
            &&& done.posted == seq![one->Done_event_id->0]
            &&& done.added.len() == 1
            &&& done.added[0].0 == first_request.room@
        }),
        ({
            let two = run(second_request, later_members, second_events);
            let done = work(second_request, later_members, second_events);
            &&& done.posted.len() == 0
            &&& done.added.len() == 0
            &&& !done.absent
            &&& two is Done ==> two->already_member && !two->Done_created && two->Done_event_id
                is None
            &&& second_request.description is None ==> two is Done
        }),
{
    work_fits_the_state(first_request, members, first_events);
    work_fits_the_state(second_request, later_members, second_events);
    members_join_once(second_request, later_members, second_events);
    if second_request.description is None {
        plain_rejoins_are_done(second_request, later_members, second_events);
    }
}

proof fn plain_rejoins_are_done(
    request: JoinRequest,
    members: Seq<Seq<char>>,
    events: Seq<JoinEventView>,
)
    requires
        members.contains(request.room@),
        request.description is None,
    ensures
        run(request, members, events) is Done,
    decreases events.len(),
{
    if events.len() > 0 {
        plain_rejoins_are_done(request, members, events.drop_last());
    }
}

/// The record of a join in the history: posting it, under whatever profile the room has, adds
/// one message to the channel, from the room, marked as a join, with the body that says so.
pub proof fn joins_are_recorded_in_the_history(
    request: JoinRequest,
    record: MessageDraft,
    draft: MessageDraft,
    history: Map<Seq<char>, model::PostView>,
    events: Seq<channel::PostingEventView>,
)
    requires
        channel::records(record, request.room@, request.channel@, channel::JOIN_EVENT@),
        draft == (MessageDraft { display_name: draft.display_name, pfp: draft.pfp, ..record }),
        history::all_truly_answered(history, draft, channel::join_text(request.room@), events),
        history::posting(draft, events) is Posted,
    ensures
        ({
            let message = history::posting(draft, events)->Posted_message;
            let body = channel::join_text(request.room@);
            &&& !history.contains_key(message.id)
            &&& history::after(history, draft, body, events) == history.insert(
                message.id,
                (model::PostView { message, body }),
            )
            &&& message.from == request.room@
            &&& message.channel == request.channel@
            &&& message.event == Some(channel::JOIN_EVENT@)
        }),
{
    history::postings_only_append(history, draft, channel::join_text(request.room@), events);
}

/// Whether a state lies past the rules.
pub open spec fn past_rules(state: JoiningView) -> bool {
    match state {
        JoiningView::LoadRules => false,
        JoiningView::Failed { error } => false,
        JoiningView::AmendInfo { since } => since is Some,
        JoiningView::Done { created, already_member, event_id } => !already_member,
        _ => true,
    }
}

/// Nothing is written for a new member before the rules were loaded and kept the room from no
/// member.
pub proof fn blocked_rooms_never_join(
    request: JoinRequest,
    members: Seq<Seq<char>>,
    events: Seq<JoinEventView>,
)
    requires
        past_rules(run(request, members, events)),
    ensures
        exists|i: int|
            0 <= i < events.len() && (#[trigger] events[i]) is Rules && channel::join_fault(
                request.channel@,
                request.room@,
                members,
                events[i]->Rules_0,
            ) is None,
    decreases events.len(),
{
    if events.len() > 0 {
        let before = events.drop_last();
        if past_rules(run(request, members, before)) {
            blocked_rooms_never_join(request, members, before);
            let i = choose|i: int|
                0 <= i < before.len() && (#[trigger] before[i]) is Rules && channel::join_fault(
                    request.channel@,
                    request.room@,
                    members,
                    before[i]->Rules_0,
                ) is None;
            assert(events[i] == before[i]);
        } else {
            assert(events[events.len() - 1] == events.last());
        }
    }
}

/// The event comes before the membership: a room is added to the members only after the
/// history shows its join, and has joined only after both.
pub proof fn membership_follows_the_event(
    request: JoinRequest,
    members: Seq<Seq<char>>,
    state: JoiningView,
    event: JoinEventView,
)
    ensures
        next(request, members, state, event) is AddMember && !(state is AddMember) ==> state
            is PostEvent && event is EventPosted,
        next(request, members, state, event) is Done && !(state is Done)
            && !next(request, members, state, event)->Done_already_member ==> state is AddMember
            && event is MemberAdded,
{
}

/// A member joins once: a join of a room that is a member posts no event and adds no member.
pub proof fn members_join_once(
    request: JoinRequest,
    members: Seq<Seq<char>>,
    events: Seq<JoinEventView>,
)
    requires
        members.contains(request.room@),
    ensures
        match run(request, members, events) {
            JoiningView::AmendInfo { since } => since is None,
            JoiningView::Done { created, already_member, event_id } => already_member,
            JoiningView::Failed { error } => true,
            _ => false,
        },
    decreases events.len(),
{
    if events.len() > 0 {
        members_join_once(request, members, events.drop_last());
    }
}

} // verus!
