//! How a room joins a channel.
use vstd::prelude::*;

use crate::channel;
use crate::joining;
use crate::joining::{JoinEventView, JoinRequest, JoiningView};
use crate::model;

verus! {

/// A join begins with its description: one that is not taken is refused. A room that is a member
/// already changes the description, if one is given, and does nothing else; any other room is held
/// against the rules first.
pub proof fn joins_begin_by_membership(request: JoinRequest, members: Seq<Seq<char>>)
    ensures
        request.description matches Some(d) ==> (channel::description_fault(d@) is Some
            ==> joining::first(request, members) == (JoiningView::Failed {
            error: channel::description_fault(d@)->0,
        })),
        (request.description matches Some(d) ==> channel::description_fault(d@) is None) ==> {
            &&& !members.contains(request.room@) ==> joining::first(request, members) is LoadRules
            &&& members.contains(request.room@) && request.description is Some ==> joining::first(
                request,
                members,
            ) == (JoiningView::AmendInfo { since: None })
            &&& members.contains(request.room@) && request.description is None ==> joining::first(
                request,
                members,
            ) == (JoiningView::Done { created: false, already_member: true, event_id: None })
        },
{
}

/// The rules decide next: a fault ends the join, and without one the directory is made.
pub proof fn joins_are_held_against_the_rules(
    request: JoinRequest,
    members: Seq<Seq<char>>,
    rules: Seq<model::RuleView>,
)
    ensures
        ({
            let fault = channel::join_fault(request.channel@, request.room@, members, rules);
            let end = joining::next(
                request,
                members,
                JoiningView::LoadRules,
                JoinEventView::Rules(rules),
            );
            &&& fault is Some ==> end == (JoiningView::Failed { error: fault->0 })
            &&& fault is None ==> end is PrepareMessages
        }),
{
}

/// A new room in a channel that is there joins it: its event is posted and it becomes a member from
/// the time of joining; the channel is not said to be new.
pub proof fn unhindered_rooms_join(
    request: JoinRequest,
    members: Seq<Seq<char>>,
    rules: Seq<model::RuleView>,
    now: Seq<char>,
    id: Seq<char>,
)
    requires
        !members.contains(request.room@),
        request.description is None,
        channel::join_fault(request.channel@, request.room@, members, rules) is None,
    ensures
        joining::run(
            request,
            members,
            seq![
                JoinEventView::Rules(rules),
                JoinEventView::Prepared { exists_already: true, now },
                JoinEventView::EventPosted(id),
            ],
        ) == (JoiningView::AddMember { since: now, created: false, event_id: id }),
        joining::run(
            request,
            members,
            seq![
                JoinEventView::Rules(rules),
                JoinEventView::Prepared { exists_already: true, now },
                JoinEventView::EventPosted(id),
                JoinEventView::MemberAdded,
            ],
        ) == (JoiningView::Done { created: false, already_member: false, event_id: Some(id) }),
{
    let a = JoinEventView::Rules(rules);
    let b = JoinEventView::Prepared { exists_already: true, now };
    let c = JoinEventView::EventPosted(id);
    let d = JoinEventView::MemberAdded;
    assert(seq![a, b, c, d].drop_last() =~= seq![a, b, c]);
    assert(seq![a, b, c].drop_last() =~= seq![a, b]);
    assert(seq![a, b].drop_last() =~= seq![a]);
    assert(seq![a].drop_last() =~= Seq::<JoinEventView>::empty());
    reveal_with_fuel(joining::run, 6);
    assert(joining::run(request, members, seq![]) is LoadRules);
    assert(joining::run(request, members, seq![a]) is PrepareMessages);
    assert(joining::run(request, members, seq![a, b]) == (JoiningView::PostEvent {
        since: now,
        created: false,
    }));
    assert(joining::run(request, members, seq![a, b, c]) == (JoiningView::AddMember {
        since: now,
        created: false,
        event_id: id,
    }));
}

/// The first room of a channel creates it, whether or not it describes it: the channel's file is
/// written from the time of joining, the event is posted, and the room becomes its member.
pub proof fn first_rooms_create_their_channel(
    request: JoinRequest,
    members: Seq<Seq<char>>,
    rules: Seq<model::RuleView>,
    now: Seq<char>,
    id: Seq<char>,
)
    requires
        !members.contains(request.room@),
        request.description matches Some(d) ==> channel::description_fault(d@) is None,
        channel::join_fault(request.channel@, request.room@, members, rules) is None,
    ensures
        joining::run(
            request,
            members,
            seq![
                JoinEventView::Rules(rules),
                JoinEventView::Prepared { exists_already: false, now },
            ],
        ) == (JoiningView::CreateInfo { since: now }),
        joining::run(
            request,
            members,
            seq![
                JoinEventView::Rules(rules),
                JoinEventView::Prepared { exists_already: false, now },
                JoinEventView::InfoWritten,
                JoinEventView::EventPosted(id),
                JoinEventView::MemberAdded,
            ],
        ) == (JoiningView::Done { created: true, already_member: false, event_id: Some(id) }),
{
    let a = JoinEventView::Rules(rules);
    let b = JoinEventView::Prepared { exists_already: false, now };
    let c = JoinEventView::InfoWritten;
    let d = JoinEventView::EventPosted(id);
    let e = JoinEventView::MemberAdded;
    assert(seq![a, b, c, d, e].drop_last() =~= seq![a, b, c, d]);
    assert(seq![a, b, c, d].drop_last() =~= seq![a, b, c]);
    assert(seq![a, b, c].drop_last() =~= seq![a, b]);
    assert(seq![a, b].drop_last() =~= seq![a]);
    assert(seq![a].drop_last() =~= Seq::<JoinEventView>::empty());
    reveal_with_fuel(joining::run, 7);
    assert(joining::run(request, members, seq![]) is LoadRules);
    assert(joining::run(request, members, seq![a]) is PrepareMessages);
    assert(joining::run(request, members, seq![a, b]) == (JoiningView::CreateInfo { since: now }));
    assert(joining::run(request, members, seq![a, b, c]) == (JoiningView::PostEvent {
        since: now,
        created: true,
    }));
    assert(joining::run(request, members, seq![a, b, c, d]) == (JoiningView::AddMember {
        since: now,
        created: true,
        event_id: id,
    }));
}

/// A new room that describes a channel which is there has the description written before it joins.
pub proof fn descriptions_are_written_before_the_join(
    request: JoinRequest,
    members: Seq<Seq<char>>,
    now: Seq<char>,
)
    ensures
        request.description is Some ==> joining::next(
            request,
            members,
            JoiningView::PrepareMessages,
            JoinEventView::Prepared { exists_already: true, now },
        ) == (JoiningView::AmendInfo { since: Some(now) }),
        joining::next(
            request,
            members,
            JoiningView::AmendInfo { since: Some(now) },
            JoinEventView::InfoWritten,
        ) == (JoiningView::PostEvent { since: now, created: false }),
        joining::next(
            request,
            members,
            JoiningView::AmendInfo { since: None },
            JoinEventView::InfoWritten,
        ) == (JoiningView::Done { created: false, already_member: true, event_id: None }),
{
}

} // verus!
