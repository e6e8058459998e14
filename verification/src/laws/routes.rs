//! Closed routes: which sends and which joins the rules refuse, by the names in them.
use crate::channel;
use crate::context;
use crate::delivery;
use crate::delivery::Draft;
use crate::error::ErrorCode;
use crate::joining;
use crate::joining::JoinRequest;
use crate::model;
use crate::model::BlockingRule;
use crate::rooms;
use crate::send;
use vstd::prelude::*;

verus! {

/// A rule closes the routes from the room that it names to the room that it names, and a `*`
/// on either side stands for every room there. It closes no other route.
pub proof fn rules_close_the_routes_they_name(
    rule: BlockingRule,
    sender: Seq<char>,
    recipient: Seq<char>,
)
    ensures
        rule.to@ == "*"@ && rule.from@ == "*"@ ==> rule@.blocks(sender, recipient),
        rule.to@ == "*"@ && rule.from@ == sender ==> rule@.blocks(sender, recipient),
        rule.to@ == recipient && rule.from@ == "*"@ ==> rule@.blocks(sender, recipient),
        rule.to@ == recipient && rule.from@ == sender ==> rule@.blocks(sender, recipient),
        rule.from@ != "*"@ && rule.from@ != sender ==> !rule@.blocks(sender, recipient),
        rule.to@ != "*"@ && rule.to@ != recipient ==> !rule@.blocks(sender, recipient),
        rule@.covers(recipient) <==> rule.to@ == "*"@ || rule.to@ == recipient,
        rule@.from == rule.from@,
        rule@.to == rule.to@,
        rule@.reason == rule.reason@,
{
}

/// The rules of a list are read in their order, and none is left out.
pub proof fn rules_are_read_as_written(rules: Seq<BlockingRule>)
    ensures
        model::rules_view(rules).len() == rules.len(),
        forall|i: int|
            0 <= i < rules.len() ==> (#[trigger] model::rules_view(rules)[i]).from == rules[i].from@
                && model::rules_view(rules)[i].to == rules[i].to@
                && model::rules_view(rules)[i].reason == rules[i].reason@,
{
}

/// A send is refused exactly if some rule names its route, whatever else the rules hold, and
/// the refusal is that of a blocked route, with the reason of the first such rule.
pub proof fn sends_are_refused_exactly_on_named_routes(
    rules: Seq<model::RuleView>,
    sender: Seq<char>,
    recipient: Seq<char>,
)
    ensures
        send::route_fault(rules, sender, recipient) is Some <==> exists|i: int|
            0 <= i < rules.len() && ((#[trigger] rules[i]).from == "*"@ || rules[i].from == sender)
                && (rules[i].to == "*"@ || rules[i].to == recipient),
        send::route_fault(rules, sender, recipient) matches Some(e) ==> {
            &&& e.code == ErrorCode::BlockedRoute
            &&& e.exit_code == 77
            &&& !e.retryable
            &&& exists|i: int|
                0 <= i < rules.len() && ((#[trigger] rules[i]).from == "*"@ || rules[i].from
                    == sender) && (rules[i].to == "*"@ || rules[i].to == recipient)
                    && e.details.reason == Some(rules[i].reason) && e.details.rule == Some(rules[i])
                    && forall|j: int|
                    0 <= j < i ==> ((#[trigger] rules[j]).from != "*"@ && rules[j].from != sender)
                        || (rules[j].to != "*"@ && rules[j].to != recipient)
        },
    decreases rules.len(),
{
    if rules.len() > 0 {
        let rest = rules.skip(1);
        sends_are_refused_exactly_on_named_routes(rest, sender, recipient);
        if !((rules[0].from == "*"@ || rules[0].from == sender) && (rules[0].to == "*"@
            || rules[0].to == recipient)) {
            assert(context::blocking_rule(rules, sender, recipient) == context::blocking_rule(
                rest,
                sender,
                recipient,
            ));
            if exists|i: int|
                0 <= i < rules.len() && ((#[trigger] rules[i]).from == "*"@ || rules[i].from
                    == sender) && (rules[i].to == "*"@ || rules[i].to == recipient) {
                let i = choose|i: int|
                    0 <= i < rules.len() && ((#[trigger] rules[i]).from == "*"@ || rules[i].from
                        == sender) && (rules[i].to == "*"@ || rules[i].to == recipient);
                assert(rest[i - 1] == rules[i]);
            }
            if let Some(e) = send::route_fault(rest, sender, recipient) {
                let i = choose|i: int|
                    0 <= i < rest.len() && ((#[trigger] rest[i]).from == "*"@ || rest[i].from
                        == sender) && (rest[i].to == "*"@ || rest[i].to == recipient)
                        && e.details.reason == Some(rest[i].reason) && e.details.rule == Some(
                        rest[i],
                    ) && forall|j: int|
                        0 <= j < i ==> ((#[trigger] rest[j]).from != "*"@ && rest[j].from
                            != sender) || (rest[j].to != "*"@ && rest[j].to != recipient);
                assert(rules[i + 1] == rest[i]);
                assert forall|j: int| 0 <= j < i + 1 implies ((#[trigger] rules[j]).from != "*"@
                    && rules[j].from != sender) || (rules[j].to != "*"@ && rules[j].to
                    != recipient) by {
                    if j > 0 {
                        assert(rest[j - 1] == rules[j]);
                    }
                }
            }
        } else {
            assert(send::route_fault(rules, sender, recipient) is Some);
        }
    }
}

/// More rules never open a route: what one list refuses, every longer list refuses too.
pub proof fn more_rules_open_nothing(
    rules: Seq<model::RuleView>,
    more: Seq<model::RuleView>,
    sender: Seq<char>,
    recipient: Seq<char>,
)
    requires
        send::route_fault(rules, sender, recipient) is Some,
    ensures
        send::route_fault(rules + more, sender, recipient) is Some,
        send::route_fault(more + rules, sender, recipient) is Some,
{
    sends_are_refused_exactly_on_named_routes(rules, sender, recipient);
    sends_are_refused_exactly_on_named_routes(rules + more, sender, recipient);
    sends_are_refused_exactly_on_named_routes(more + rules, sender, recipient);
    let i = choose|i: int|
        0 <= i < rules.len() && ((#[trigger] rules[i]).from == "*"@ || rules[i].from == sender) && (
        rules[i].to == "*"@ || rules[i].to == recipient);
    assert((rules + more)[i] == rules[i]);
    assert((more + rules)[more.len() + i] == rules[i]);
}

/// A mail that has its envelope is refused by the rules exactly if one of them names its route;
/// otherwise it goes on, to the store or to the inbox.
pub proof fn deliveries_obey_the_rules(
    root: Seq<char>,
    draft: Draft,
    attempt: int,
    inbox: Option<Seq<char>>,
    envelope: model::EnvelopeView,
    rules: Seq<model::RuleView>,
)
    ensures
        ({
            let after = delivery::next(
                root,
                draft,
                delivery::DeliveryView::CheckRoute { attempt, inbox, envelope },
                delivery::EventView::Rules(rules),
            );
            if exists|i: int|
                0 <= i < rules.len() && ((#[trigger] rules[i]).from == "*"@ || rules[i].from
                    == envelope.from) && (rules[i].to == "*"@ || rules[i].to == envelope.to) {
                after is Failed && after->error.code == ErrorCode::BlockedRoute
            } else {
                match inbox {
                    None => after == (delivery::DeliveryView::PrepareStore { attempt, envelope }),
                    Some(directory) => after == (delivery::DeliveryView::WriteInbox {
                        attempt,
                        inbox: directory,
                        envelope,
                    }),
                }
            }
        }),
{
    sends_are_refused_exactly_on_named_routes(rules, envelope.from, envelope.to);
}

/// Whether some rules that were loaded name no route from one room to another.
pub open spec fn open_rules_were_loaded(
    events: Seq<delivery::EventView>,
    from: Seq<char>,
    to: Seq<char>,
) -> bool {
    exists|k: int|
        0 <= k < events.len() && (#[trigger] events[k]) is Rules && forall|i: int|
            0 <= i < events[k]->Rules_0.len() ==> ((#[trigger] events[k]->Rules_0[i]).from != "*"@
                && events[k]->Rules_0[i].from != from) || (events[k]->Rules_0[i].to != "*"@
                && events[k]->Rules_0[i].to != to)
}

/// No mail is delivered on a route that every loaded set of rules names: what reaches the
/// inbox, the archive or the end was allowed by rules that name no route from its sender to
/// its recipient.
pub proof fn delivered_mail_was_allowed(
    root: Seq<char>,
    draft: Draft,
    events: Seq<delivery::EventView>,
)
    ensures
        ({
            let end = delivery::run(
                root,
                draft,
                delivery::DeliveryView::NeedId { attempt: 0, inbox: None },
                events,
            );
            end is PrepareStore || end is WriteInbox || end is WriteArchive || end is Delivered
                ==> open_rules_were_loaded(events, draft.from@, draft.to@)
        }),
    decreases events.len(),
{
    if events.len() > 0 {
        let before = events.drop_last();
        let start = delivery::DeliveryView::NeedId { attempt: 0, inbox: None };
        delivered_mail_was_allowed(root, draft, before);
        delivery::deliveries_are_sound(root, draft, before);
        let state = delivery::run(root, draft, start, before);
        if open_rules_were_loaded(before, draft.from@, draft.to@) {
            let k = choose|k: int|
                0 <= k < before.len() && (#[trigger] before[k]) is Rules && forall|i: int|
                    0 <= i < before[k]->Rules_0.len() ==> ((#[trigger] before[k]->Rules_0[i]).from
                        != "*"@ && before[k]->Rules_0[i].from != draft.from@) || (
                    before[k]->Rules_0[i].to != "*"@ && before[k]->Rules_0[i].to != draft.to@);
            assert(events[k] == before[k]);
        }
        if state is CheckRoute && events.last() is Rules {
            let k = events.len() - 1;
            let rules = events.last()->Rules_0;
            assert(events[k] == events.last());
            sends_are_refused_exactly_on_named_routes(rules, draft.from@, draft.to@);
        }
    }
}

/// A join is refused exactly if some rule names the route between the room and a member, in
/// the one direction or the other, and the refusal is that of a blocked route.
pub proof fn joins_are_refused_exactly_on_named_routes(
    channel: Seq<char>,
    room: Seq<char>,
    members: Seq<Seq<char>>,
    rules: Seq<model::RuleView>,
)
    ensures
        channel::join_fault(channel, room, members, rules) is Some <==> exists|i: int, k: int|
            #![trigger members[i], rules[k]]
            0 <= i < members.len() && 0 <= k < rules.len() && (((rules[k].from == "*"@
                || rules[k].from == room) && (rules[k].to == "*"@ || rules[k].to == members[i])) || (
            (rules[k].from == "*"@ || rules[k].from == members[i]) && (rules[k].to == "*"@
                || rules[k].to == room))),
        channel::join_fault(channel, room, members, rules) matches Some(e) ==> e.code
            == ErrorCode::BlockedRoute && e.exit_code == 77,
    decreases members.len(),
{
    channel::blocked_routes_bar_shared_membership(channel, room, members, rules);
    if channel::join_fault(channel, room, members, rules) is Some {
        let (i, k) = choose|i: int, k: int|
            0 <= i < members.len() && 0 <= k < rules.len() && channel::parts_rooms(
                #[trigger] rules[k],
                room,
                #[trigger] members[i],
            );
        assert(0 <= i < members.len() && 0 <= k < rules.len() && (((rules[k].from == "*"@
            || rules[k].from == room) && (rules[k].to == "*"@ || rules[k].to == members[i])) || ((
        rules[k].from == "*"@ || rules[k].from == members[i]) && (rules[k].to == "*"@
            || rules[k].to == room))));
    }
    if exists|i: int, k: int|
        #![trigger members[i], rules[k]]
        0 <= i < members.len() && 0 <= k < rules.len() && (((rules[k].from == "*"@ || rules[k].from
            == room) && (rules[k].to == "*"@ || rules[k].to == members[i])) || ((rules[k].from
            == "*"@ || rules[k].from == members[i]) && (rules[k].to == "*"@ || rules[k].to
            == room))) {
        let (i, k) = choose|i: int, k: int|
            #![trigger members[i], rules[k]]
            0 <= i < members.len() && 0 <= k < rules.len() && (((rules[k].from == "*"@
                || rules[k].from == room) && (rules[k].to == "*"@ || rules[k].to == members[i])) || (
            (rules[k].from == "*"@ || rules[k].from == members[i]) && (rules[k].to == "*"@
                || rules[k].to == room)));
        assert(channel::parts_rooms(rules[k], room, members[i]));
    }
    if members.len() > 0 {
        joins_are_refused_exactly_on_named_routes(channel, room, members.skip(1), rules);
    }
}

/// A room is added to a channel only after rules were loaded that name no route between it and
/// any member.
pub proof fn joined_rooms_were_allowed(
    request: JoinRequest,
    members: Seq<Seq<char>>,
    events: Seq<joining::JoinEventView>,
)
    requires
        joining::run(request, members, events) is AddMember || (joining::run(
            request,
            members,
            events,
        ) matches joining::JoiningView::Done { already_member, .. } && !already_member),
    ensures
        exists|n: int|
            0 <= n < events.len() && (#[trigger] events[n]) is Rules && forall|i: int, k: int|
                #![trigger members[i], events[n]->Rules_0[k]]
                0 <= i < members.len() && 0 <= k < events[n]->Rules_0.len() ==> {
                    let rule = events[n]->Rules_0[k];
                    &&& (rule.from != "*"@ && rule.from != request.room@) || (rule.to != "*"@
                        && rule.to != members[i])
                    &&& (rule.from != "*"@ && rule.from != members[i]) || (rule.to != "*"@
                        && rule.to != request.room@)
                },
{
    joining::blocked_rooms_never_join(request, members, events);
    let n = choose|n: int|
        0 <= n < events.len() && (#[trigger] events[n]) is Rules && channel::join_fault(
            request.channel@,
            request.room@,
            members,
            events[n]->Rules_0,
        ) is None;
    let rules = events[n]->Rules_0;
    joins_are_refused_exactly_on_named_routes(request.channel@, request.room@, members, rules);
    assert forall|i: int, k: int|
        #![trigger members[i], events[n]->Rules_0[k]]
        0 <= i < members.len() && 0 <= k < events[n]->Rules_0.len() implies {
        let rule = events[n]->Rules_0[k];
        &&& (rule.from != "*"@ && rule.from != request.room@) || (rule.to != "*"@ && rule.to
            != members[i])
        &&& (rule.from != "*"@ && rule.from != members[i]) || (rule.to != "*"@ && rule.to
            != request.room@)
    } by {
        assert(rules[k] == events[n]->Rules_0[k]);
    }
}

/// A room name is held against registration exactly by the rules whose recipient is that name
/// or `*`.
pub proof fn rooms_are_targeted_by_name(rules: Seq<model::RuleView>, name: Seq<char>)
    ensures
        rooms::targeting_rule(rules, name) is Some <==> exists|i: int|
            0 <= i < rules.len() && ((#[trigger] rules[i]).to == "*"@ || rules[i].to == name),
        rooms::targeting_rule(rules, name) matches Some(rule) ==> rules.contains(rule) && (rule.to
            == "*"@ || rule.to == name),
    decreases rules.len(),
{
    if rules.len() > 0 {
        let rest = rules.skip(1);
        rooms_are_targeted_by_name(rest, name);
        if rules[0].to != "*"@ && rules[0].to != name {
            if exists|i: int|
                0 <= i < rules.len() && ((#[trigger] rules[i]).to == "*"@ || rules[i].to == name) {
                let i = choose|i: int|
                    0 <= i < rules.len() && ((#[trigger] rules[i]).to == "*"@ || rules[i].to
                        == name);
                assert(rest[i - 1] == rules[i]);
            }
            if rooms::targeting_rule(rest, name) is Some {
                let i = choose|i: int|
                    0 <= i < rest.len() && ((#[trigger] rest[i]).to == "*"@ || rest[i].to == name);
                assert(rules[i + 1] == rest[i]);
                let k = choose|k: int|
                    0 <= k < rest.len() && rest[k] == rooms::targeting_rule(rest, name)->0;
                assert(rules[k + 1] == rest[k]);
            }
        } else {
            assert(rooms::targeting_rule(rules, name) == Some(rules[0]));
        }
    }
}

} // verus!
