//! The history of a channel: what a posting does to it. Messages are added and never changed.
use crate::channel;
use crate::channel::MessageDraft;
use crate::model;
use crate::profile;
use crate::profile::Profile;
use crate::text;
use vstd::prelude::*;

verus! {

/// What a channel holds once the store has answered a posting: a message that was written is
/// there under its id.
pub open spec fn kept(
    history: Map<Seq<char>, model::PostView>,
    body: Seq<char>,
    state: channel::PostingView,
    event: channel::PostingEventView,
) -> Map<Seq<char>, model::PostView> {
    match (state, event) {
        (
            channel::PostingView::Write { attempt, message },
            channel::PostingEventView::Written,
        ) => history.insert(message.id, (model::PostView { message, body })),
        _ => history,
    }
}

/// Whether the store answers truly: it writes only under a name that is free, and only a name
/// that is taken makes it say so.
pub open spec fn truly_answered(
    history: Map<Seq<char>, model::PostView>,
    state: channel::PostingView,
    event: channel::PostingEventView,
) -> bool {
    match (state, event) {
        (
            channel::PostingView::Write { attempt, message },
            channel::PostingEventView::Written,
        ) => !history.contains_key(message.id),
        (
            channel::PostingView::Write { attempt, message },
            channel::PostingEventView::Exists,
        ) => history.contains_key(message.id),
        _ => true,
    }
}

/// Where a posting stands after a list of answers.
pub open spec fn posting(
    draft: MessageDraft,
    events: Seq<channel::PostingEventView>,
) -> channel::PostingView {
    channel::run(draft, channel::PostingView::NeedId { attempt: 0 }, events)
}

/// What a channel holds after a list of answers.
pub open spec fn after(
    history: Map<Seq<char>, model::PostView>,
    draft: MessageDraft,
    body: Seq<char>,
    events: Seq<channel::PostingEventView>,
) -> Map<Seq<char>, model::PostView>
    decreases events.len(),
{
    if events.len() == 0 {
        history
    } else {
        let before = events.drop_last();
        kept(after(history, draft, body, before), body, posting(draft, before), events.last())
    }
}

/// Whether the store answers truly all along.
pub open spec fn all_truly_answered(
    history: Map<Seq<char>, model::PostView>,
    draft: MessageDraft,
    body: Seq<char>,
    events: Seq<channel::PostingEventView>,
) -> bool
    decreases events.len(),
{
    events.len() == 0 || {
        let before = events.drop_last();
        &&& all_truly_answered(history, draft, body, before)
        &&& truly_answered(
            after(history, draft, body, before),
            posting(draft, before),
            events.last(),
        )
    }
}

/// A history is append-only: a posting adds exactly the message that it reports, under an id
/// that was free, with the body that was sent; and one that has not ended well adds nothing.
pub proof fn postings_only_append(
    history: Map<Seq<char>, model::PostView>,
    draft: MessageDraft,
    body: Seq<char>,
    events: Seq<channel::PostingEventView>,
)
    requires
        all_truly_answered(history, draft, body, events),
    ensures
        match posting(draft, events) {
            channel::PostingView::Posted { message } => {
                &&& !history.contains_key(message.id)
                &&& after(history, draft, body, events) == history.insert(
                    message.id,
                    (model::PostView { message, body }),
                )
                &&& message == channel::message_of(draft, message.id, message.sent)
            },
            _ => after(history, draft, body, events) == history,
        },
    decreases events.len(),
{
    channel::only_valid_messages_are_posted(draft, events);
    if events.len() > 0 {
        postings_only_append(history, draft, body, events.drop_last());
        channel::only_valid_messages_are_posted(draft, events.drop_last());
    }
}

/// Whether a draft carries the profile that its sender has in a registry.
pub open spec fn carries_profile(
    draft: MessageDraft,
    rooms: Seq<Seq<char>>,
    profiles: Map<Seq<char>, Profile>,
) -> bool {
    let stamp = profile::stamp(draft.room@, rooms, profiles);
    text::opt(draft.display_name) == stamp.name && text::opt(draft.pfp) == stamp.pfp
}

/// A message keeps the name that it was sent under: whatever the registry says when a later
/// message of the same room is sent, the stored one stays as it is, with the profile of its own
/// time, and the later one carries the later profile.
pub proof fn renames_never_rewrite_history(
    history: Map<Seq<char>, model::PostView>,
    rooms: Seq<Seq<char>>,
    first: MessageDraft,
    first_body: Seq<char>,
    first_profiles: Map<Seq<char>, Profile>,
    first_events: Seq<channel::PostingEventView>,
    second: MessageDraft,
    second_body: Seq<char>,
    second_profiles: Map<Seq<char>, Profile>,
    second_events: Seq<channel::PostingEventView>,
)
    requires
        first.room@ == second.room@,
        carries_profile(first, rooms, first_profiles),
        carries_profile(second, rooms, second_profiles),
        all_truly_answered(history, first, first_body, first_events),
        all_truly_answered(
            after(history, first, first_body, first_events),
            second,
            second_body,
            second_events,
        ),
        posting(first, first_events) is Posted,
        posting(second, second_events) is Posted,
    ensures
        ({
            let between = after(history, first, first_body, first_events);
            let end = after(between, second, second_body, second_events);
            let one = posting(first, first_events)->Posted_message;
            let two = posting(second, second_events)->Posted_message;
            &&& one.id != two.id
            &&& end.contains_key(one.id) && end[one.id] == between[one.id]
            &&& end[one.id].message == one && end[one.id].body == first_body
            &&& one.display_name == profile::stamp(first.room@, rooms, first_profiles).name
            &&& one.pfp == profile::stamp(first.room@, rooms, first_profiles).pfp
            &&& end.contains_key(two.id) && end[two.id].message == two
            &&& two.display_name == profile::stamp(first.room@, rooms, second_profiles).name
            &&& two.pfp == profile::stamp(first.room@, rooms, second_profiles).pfp
            &&& forall|id: Seq<char>| #[trigger]
                history.contains_key(id) ==> end.contains_key(id) && end[id] == history[id]
        }),
{
    let between = after(history, first, first_body, first_events);
    postings_only_append(history, first, first_body, first_events);
    postings_only_append(between, second, second_body, second_events);
}

} // verus!
