//! Channel messages: what is asked for is what is posted, who may send, and who is mentioned.
use crate::channel;
use crate::channel::{ChannelInfo, MessageDraft, MessageRequest, Purpose};
use crate::cursor;
use crate::error;
use crate::error::ErrorCode;
use crate::ids;
use crate::laws::mailing;
use crate::model;
use crate::model::ParsedChannelMessage;
use crate::names;
use crate::order;
use crate::output::ChannelListItem;
use crate::text;
use vstd::prelude::*;

verus! {

/// Whether a message is that of a draft, field by field, under whatever id and time.
pub open spec fn carries_the_draft(m: model::MessageView, draft: MessageDraft) -> bool {
    &&& m.from == draft.room@
    &&& m.channel == draft.channel@
    &&& m.subject == draft.subject@
    &&& m.event is Some <==> draft.event is Some
    &&& draft.event matches Some(event) ==> m.event == Some(event@)
    &&& m.display_name is Some <==> draft.display_name is Some
    &&& draft.display_name matches Some(name) ==> m.display_name == Some(name@)
    &&& m.pfp is Some <==> draft.pfp is Some
    &&& draft.pfp matches Some(pfp) ==> m.pfp == Some(pfp@)
    &&& m.re is Some <==> draft.re is Some
    &&& draft.re matches Some(re) ==> m.re == Some(re@)
    &&& m.signature_ref is Some <==> draft.signature_ref is Some
    &&& draft.signature_ref matches Some(locator) ==> m.signature_ref == Some(locator@)
    &&& m.mentions.len() == draft.mentions@.len()
    &&& forall|i: int|
        0 <= i < draft.mentions@.len() ==> m.mentions[i] == (#[trigger] draft.mentions@[i])@
}

/// What is posted is what was drafted. Whatever the store answers, the message that is written
/// has the sender, the channel, the subject, the event, the profile, the reply reference, the
/// signature and every mention of its draft, and an id and a time that came together.
pub proof fn posted_messages_are_the_draft(
    draft: MessageDraft,
    events: Seq<channel::PostingEventView>,
)
    ensures
        match channel::run(draft, channel::PostingView::NeedId { attempt: 0 }, events) {
            channel::PostingView::Write { attempt, message } => carries_the_draft(message, draft)
                && events.contains(
                channel::PostingEventView::Id { id: message.id, sent: message.sent },
            ),
            channel::PostingView::Posted { message } => carries_the_draft(message, draft)
                && events.contains(
                channel::PostingEventView::Id { id: message.id, sent: message.sent },
            ),
            _ => true,
        },
    decreases events.len(),
{
    if events.len() > 0 {
        let before = events.drop_last();
        posted_messages_are_the_draft(draft, before);
        assert(events[events.len() - 1] == events.last());
        assert forall|e: channel::PostingEventView| before.contains(e) implies events.contains(
            e,
        ) by {
            let i = choose|i: int| 0 <= i < before.len() && before[i] == e;
            assert(events[i] == e);
        }
        if events.last() is Id {
            let id = events.last()->id;
            let sent = events.last()->sent;
            assert forall|i: int| 0 <= i < draft.mentions@.len() implies channel::message_of(
                draft,
                id,
                sent,
            ).mentions[i] == (#[trigger] draft.mentions@[i])@ by {}
        }
    }
}

/// A character of a word: a letter or a digit of ASCII, an underscore or a hyphen.
pub open spec fn of_a_word(c: char) -> bool {
    ('a' <= c && c <= 'z') || ('A' <= c && c <= 'Z') || ('0' <= c && c <= '9') || c == '_' || c
        == '-'
}

/// Whether an `@` and a name stand at a position of a body as a word of their own.
pub open spec fn called_at(body: Seq<char>, at: int, name: Seq<char>) -> bool {
    &&& 0 <= at
    &&& at + 1 + name.len() <= body.len()
    &&& body[at] == '@'
    &&& at > 0 ==> !of_a_word(body[at - 1])
    &&& forall|i: int| 0 <= i < name.len() ==> body[at + 1 + i] == #[trigger] name[i]
    &&& at + 1 + name.len() < body.len() ==> !of_a_word(body[at + 1 + name.len()])
}

/// A body mentions a room exactly if the room is registered and its name stands behind an `@`
/// as a word of its own, where no longer registered name stands so.
pub proof fn mentions_are_names_behind_an_at(
    body: Seq<char>,
    rooms: Seq<Seq<char>>,
    name: Seq<char>,
)
    ensures
        channel::mentioned(body, rooms, name) <==> rooms.contains(name) && exists|at: int|
            called_at(body, at, name) && forall|k: int|
                0 <= k < rooms.len() && called_at(body, at, #[trigger] rooms[k]) ==> rooms[k].len()
                    <= name.len(),
{
    assert forall|at: int, word: Seq<char>| called_at(body, at, word) == (channel::mention_starts(
        body,
        at,
    ) && channel::named_at(body, at, word)) by {
        called_is_named(body, at, word);
    }
    if channel::mentioned(body, rooms, name) {
        let at = choose|at: int| channel::mention_at(body, at, rooms, name);
        assert(called_at(body, at, name));
        assert forall|k: int|
            0 <= k < rooms.len() && called_at(body, at, #[trigger] rooms[k]) implies rooms[k].len()
            <= name.len() by {
            assert(channel::named_at(body, at, rooms[k]));
        }
    }
    if rooms.contains(name) && exists|at: int|
        called_at(body, at, name) && forall|k: int|
            0 <= k < rooms.len() && called_at(body, at, #[trigger] rooms[k]) ==> rooms[k].len()
                <= name.len() {
        let at = choose|at: int|
            called_at(body, at, name) && forall|k: int|
                0 <= k < rooms.len() && called_at(body, at, #[trigger] rooms[k]) ==> rooms[k].len()
                    <= name.len();
        assert forall|k: int|
            0 <= k < rooms.len() && channel::named_at(body, at, #[trigger] rooms[k]) implies
            rooms[k].len() <= name.len() by {
            assert(called_at(body, at, rooms[k]));
        }
        assert(channel::mention_at(body, at, rooms, name));
    }
}

proof fn called_is_named(body: Seq<char>, at: int, word: Seq<char>)
    ensures
        called_at(body, at, word) == (channel::mention_starts(body, at) && channel::named_at(
            body,
            at,
            word,
        )),
{
    let end = at + 1 + word.len();
    if called_at(body, at, word) {
        assert(body.subrange(at + 1, end) =~= word);
    }
    if channel::mention_starts(body, at) && channel::named_at(body, at, word) {
        assert forall|i: int| 0 <= i < word.len() implies body[at + 1 + i]
            == #[trigger] word[i] by {
            assert(body.subrange(at + 1, end)[i] == body[at + 1 + i]);
        }
    }
}

/// A message that was planned and posted mentions exactly the registered rooms that its body
/// names, each once.
pub proof fn posted_messages_mention_whom_they_name(
    request: MessageRequest,
    ids: Seq<Seq<char>>,
    rooms: Seq<Seq<char>>,
    draft: MessageDraft,
    events: Seq<channel::PostingEventView>,
    name: Seq<char>,
)
    requires
        channel::drafts(request, ids, rooms, draft),
        channel::run(draft, channel::PostingView::NeedId { attempt: 0 }, events) is Posted,
    ensures
        ({
            let message = channel::run(
                draft,
                channel::PostingView::NeedId { attempt: 0 },
                events,
            )->Posted_message;
            &&& message.mentions.contains(name) <==> rooms.contains(name) && exists|at: int|
                called_at(request.body@, at, name) && forall|k: int|
                    0 <= k < rooms.len() && called_at(request.body@, at, #[trigger] rooms[k])
                        ==> rooms[k].len() <= name.len()
            &&& message.from == request.room@
            &&& message.channel == request.channel@
            &&& message.subject == request.subject@
            &&& message.event is None
            &&& request.re is None ==> message.re is None
            &&& request.re matches Some(prefix) ==> message.re is Some && ids.contains(
                message.re->0,
            ) && prefix@.len() <= message.re->0.len() && message.re->0.take(prefix@.len() as int)
                == prefix@
            &&& request.signature_ref is None ==> message.signature_ref is None
            &&& request.signature_ref matches Some(tag) ==> message.signature_ref == Some(
                "{\"version\":2,\"tag\":\""@ + tag@ + "\"}"@,
            )
        }),
{
    posted_messages_are_the_draft(draft, events);
    mentions_are_names_behind_an_at(request.body@, rooms, name);
    let message = channel::run(
        draft,
        channel::PostingView::NeedId { attempt: 0 },
        events,
    )->Posted_message;
    assert(message.mentions =~= text::texts(draft.mentions@));
    if let Some(prefix) = request.re {
        prefixes_stand_for_one_id(ids, prefix@, Ok(draft.re->0@));
    }
}

/// A prefix stands for an id exactly if that id is there and begins with it, and no other
/// place of the list holds one that does. Where none does the answer is "not found", and where
/// more than one does it is "ambiguous".
pub proof fn prefixes_stand_for_one_id(
    all: Seq<Seq<char>>,
    prefix: Seq<char>,
    result: Result<Seq<char>, error::ErrorView>,
)
    requires
        channel::stands_for(all, prefix, result),
    ensures
        match result {
            Ok(id) => {
                &&& all.contains(id)
                &&& prefix.len() <= id.len()
                &&& id.take(prefix.len() as int) == prefix
                &&& forall|i: int, j: int|
                    #![trigger all[i], all[j]]
                    0 <= i < all.len() && 0 <= j < all.len() && i != j ==> !(begins(all[i], prefix)
                        && begins(all[j], prefix))
            },
            Err(e) => {
                ||| e.code == ErrorCode::NotFound && forall|i: int|
                    0 <= i < all.len() ==> !begins(#[trigger] all[i], prefix)
                ||| e.code == ErrorCode::AmbiguousId && exists|i: int, j: int|
                    #![trigger all[i], all[j]]
                    0 <= i < j < all.len() && begins(all[i], prefix) && begins(all[j], prefix)
            },
        },
{
    let f = |id: Seq<char>| text::has_prefix(id, prefix);
    let found = channel::ids_with_prefix(all, prefix);
    assert forall|s: Seq<char>| #[trigger] text::has_prefix(s, prefix) == begins(s, prefix) by {
        if prefix.len() <= s.len() {
            assert(s.subrange(0, prefix.len() as int) =~= s.take(prefix.len() as int));
        }
    }
    if found.len() > 0 {
        order::filter_element(all, f, 0);
        assert(f(found[0]));
        assert(all.contains(found[0]));
    }
    if found.len() <= 1 {
        assert forall|i: int, j: int|
            #![trigger all[i], all[j]]
            0 <= i < all.len() && 0 <= j < all.len() && i != j implies !(begins(all[i], prefix)
            && begins(all[j], prefix)) by {
            if begins(all[i], prefix) && begins(all[j], prefix) {
                if i < j {
                    two_are_kept(all, f, i, j);
                } else {
                    two_are_kept(all, f, j, i);
                }
            }
        }
    }
    if found.len() == 0 {
        assert forall|i: int| 0 <= i < all.len() implies !begins(#[trigger] all[i], prefix) by {
            if begins(all[i], prefix) {
                assert(f(all[i]));
                all.lemma_filter_contains(f, i);
            }
        }
    }
    if found.len() > 1 {
        if forall|i: int, j: int|
            #![trigger all[i], all[j]]
            0 <= i < j < all.len() ==> !(begins(all[i], prefix) && begins(all[j], prefix)) {
            one_is_kept(all, f);
        }
    }
}

/// Whether a text begins with another.
pub open spec fn begins(s: Seq<char>, prefix: Seq<char>) -> bool {
    prefix.len() <= s.len() && s.take(prefix.len() as int) == prefix
}

proof fn two_are_kept(all: Seq<Seq<char>>, f: spec_fn(Seq<char>) -> bool, i: int, j: int)
    requires
        0 <= i < j < all.len(),
        f(all[i]),
        f(all[j]),
    ensures
        all.filter(f).len() >= 2,
    decreases all.len(),
{
    reveal(Seq::filter);
    let before = all.drop_last();
    if j == all.len() - 1 {
        assert(before[i] == all[i]);
        before.lemma_filter_contains(f, i);
        assert(before.filter(f).len() >= 1);
    } else {
        assert(before[i] == all[i] && before[j] == all[j]);
        two_are_kept(before, f, i, j);
    }
}

proof fn one_is_kept(all: Seq<Seq<char>>, f: spec_fn(Seq<char>) -> bool)
    requires
        forall|i: int, j: int|
            #![trigger all[i], all[j]]
            0 <= i < j < all.len() ==> !(f(all[i]) && f(all[j])),
    ensures
        all.filter(f).len() <= 1,
    decreases all.len(),
{
    reveal(Seq::filter);
    if all.len() > 0 {
        let before = all.drop_last();
        assert forall|i: int, j: int|
            #![trigger before[i], before[j]]
            0 <= i < j < before.len() implies !(f(before[i]) && f(before[j])) by {
            assert(before[i] == all[i] && before[j] == all[j]);
        }
        one_is_kept(before, f);
        if f(all.last()) && before.filter(f).len() > 0 {
            order::filter_element(before, f, 0);
            let i = choose|i: int| 0 <= i < before.len() && before[i] == before.filter(f)[0];
            assert(before[i] == all[i]);
            assert(all[all.len() - 1] == all.last());
        }
    }
}

/// Only the members of a channel that is there may use it, for whatever purpose.
pub proof fn channels_are_for_their_members(
    channel: Seq<char>,
    room: Seq<char>,
    purpose: Purpose,
    exists_already: bool,
    members: Map<Seq<char>, String>,
)
    ensures
        ({
            let fault = channel::access_fault(channel, room, purpose, exists_already, members);
            &&& fault is None <==> exists_already && members.contains_key(room)
            &&& !exists_already ==> fault is Some && fault->0.code == ErrorCode::NotFound
                && fault->0.details.input == Some(channel)
            &&& exists_already && !members.contains_key(room) ==> fault is Some && fault->0.code
                == ErrorCode::NotAMember && fault->0.details.input == Some(room)
        }),
{
}

/// Whether a stored message stops a sender: it is no system line, another room wrote it, and
/// the sender's cursor does not reach it.
pub open spec fn stops(post: model::PostView, cursor: Option<Seq<char>>, room: Seq<char>) -> bool {
    post.message.event is None && post.message.from != room && (cursor is None || text::lt(
        cursor->0,
        post.message.id,
    ))
}

/// A message is sent exactly if the sender is a member of the channel, the body says something,
/// its signature can be named, and either the sender insists or nothing of another room is
/// unread. Each refusal has its own code, in that order.
pub proof fn sends_are_refused_by_what_is_there(
    request: MessageRequest,
    exists_already: bool,
    members: Map<Seq<char>, String>,
    cursor: Option<Seq<char>>,
    posts: Seq<model::PostView>,
)
    ensures
        ({
            let refusal = channel::message_refusal(
                request,
                exists_already,
                members,
                cursor,
                posts,
            );
            let entered = exists_already && members.contains_key(request.room@);
            let says = mailing::has_content(request.body@);
            let signable = request.signature_ref matches Some(tag) ==> tag@.len() > 0 && (
            forall|i: int|
                0 <= i < tag@.len() ==> text::is_ascii_alphanumeric(#[trigger] tag@[i]) || tag@[i]
                    == '-') && text::byte_len(request.body@) <= 1_048_576;
            let stopped = exists|i: int|
                0 <= i < posts.len() && stops(#[trigger] posts[i], cursor, request.room@);
            &&& refusal is None <==> entered && says && signable && (request.anyway || !stopped)
            &&& !exists_already ==> refusal is Some && refusal->0.code == ErrorCode::NotFound
            &&& exists_already && !members.contains_key(request.room@) ==> refusal is Some
                && refusal->0.code == ErrorCode::NotAMember
            &&& entered && !says ==> refusal is Some && refusal->0.code == ErrorCode::EmptyBody
            &&& entered && says && !signable ==> refusal is Some && refusal->0.code
                == ErrorCode::InvalidArgument
            &&& entered && says && signable && !request.anyway && stopped ==> refusal is Some
                && refusal->0.code == ErrorCode::CrossedSend
        }),
{
    channel::sends_bounce_on_unread_messages_of_others(posts, cursor, request.room@);
    assert forall|i: int| 0 <= i < posts.len() implies stops(
        #[trigger] posts[i],
        cursor,
        request.room@,
    ) == channel::crosses(posts[i], cursor, request.room@) by {}
    if exists|i: int| 0 <= i < posts.len() && stops(#[trigger] posts[i], cursor, request.room@) {
        let i = choose|i: int|
            0 <= i < posts.len() && stops(#[trigger] posts[i], cursor, request.room@);
        assert(channel::crosses(posts[i], cursor, request.room@));
    }
    if exists|i: int|
        0 <= i < posts.len() && channel::crosses(#[trigger] posts[i], cursor, request.room@) {
        let i = choose|i: int|
            0 <= i < posts.len() && channel::crosses(#[trigger] posts[i], cursor, request.room@);
        assert(stops(posts[i], cursor, request.room@));
    }
}

/// Whether what is shown of a missed message is a message that stops the send, as it is.
pub open spec fn shows_a_stop(
    posts: Seq<model::PostView>,
    cursor: Option<Seq<char>>,
    room: Seq<char>,
    shown: error::MissedView,
) -> bool {
    exists|k: int|
        0 <= k < posts.len() && stops(#[trigger] posts[k], cursor, room) && shown.id
            == posts[k].message.id && shown.from == posts[k].message.from && shown.subject
            == posts[k].message.subject && shown.sent == posts[k].message.sent && shown.body
            == posts[k].body
}

/// A bounced sender is shown what was missed: the newest ten at most of the messages that stop
/// the send, each with its id, its sender, its subject, its time and its body.
pub proof fn bounced_senders_see_what_they_missed(
    channel: Seq<char>,
    posts: Seq<model::PostView>,
    cursor: Option<Seq<char>>,
    room: Seq<char>,
)
    ensures
        ({
            let missed = channel::crossing(posts, cursor, room);
            let e = channel::crossed_send_error(channel, missed);
            &&& e.code == ErrorCode::CrossedSend
            &&& e.details.missed is Some
            &&& e.details.missed->0.len() == if missed.len() < 10 {
                missed.len()
            } else {
                10
            }
            &&& forall|i: int|
                0 <= i < e.details.missed->0.len() ==> (#[trigger] e.details.missed->0[i])
                    == missed[missed.len() - e.details.missed->0.len() + i]
            &&& forall|i: int|
                0 <= i < missed.len() ==> shows_a_stop(posts, cursor, room, #[trigger] missed[i])
        }),
{
    let f = |p: model::PostView| channel::crosses(p, cursor, room);
    let kept = posts.filter(f);
    let missed = channel::crossing(posts, cursor, room);
    assert forall|i: int| 0 <= i < missed.len() implies shows_a_stop(
        posts,
        cursor,
        room,
        #[trigger] missed[i],
    ) by {
        order::filter_element(posts, f, i);
        assert(posts.contains(kept[i]) && f(kept[i]));
        let k = choose|k: int| 0 <= k < posts.len() && posts[k] == kept[i];
        assert(stops(posts[k], cursor, room));
    }
    let shown = channel::last_ten(missed);
    assert(channel::crossed_send_error(channel, missed).details.missed == Some(shown));
    assert forall|i: int| 0 <= i < shown.len() implies (#[trigger] shown[i]) == missed[missed.len()
        - shown.len() + i] by {}
}

/// A message is accepted exactly if its id, its sender, its channel and its time are not blank,
/// its channel is a path-safe name, its ids have the form of message ids, its event is none,
/// a join or a change of profile, its profile texts could forge no line, and every mention
/// could be a room.
pub proof fn messages_are_accepted_by_their_fields(m: model::MessageView)
    ensures
        channel::message_fault(m) is None <==> {
            &&& mailing::has_content(m.id)
            &&& mailing::has_content(m.from)
            &&& mailing::has_content(m.channel)
            &&& mailing::has_content(m.sent)
            &&& names::component_fault(m.channel) is None
            &&& message_id(m.id)
            &&& m.event matches Some(event) ==> event == "join"@ || event == "profile"@
            &&& m.display_name matches Some(name) ==> forall|i: int|
                0 <= i < name.len() ==> !names::is_refused(#[trigger] name[i])
            &&& m.pfp matches Some(pfp) ==> forall|i: int|
                0 <= i < pfp.len() ==> !names::is_refused(#[trigger] pfp[i])
            &&& m.re matches Some(re) ==> message_id(re)
            &&& forall|i: int|
                0 <= i < m.mentions.len() ==> !names::has_refused(#[trigger] m.mentions[i])
                    && names::room_name_fault(m.mentions[i]) is None
        },
{
    bad_mentions_are_found(m.mentions);
    message_ids_by_position(m.id);
    if m.re is Some {
        message_ids_by_position(m.re->0);
    }
}

/// The form of a message id, by position: a date, a time and microseconds in digits, and six
/// hexadecimal digits, with hyphens between them.
pub open spec fn message_id(id: Seq<char>) -> bool {
    &&& id.len() == 29
    &&& id[8] == '-'
    &&& id[15] == '-'
    &&& id[22] == '-'
    &&& forall|i: int|
        0 <= i < 22 && i != 8 && i != 15 ==> '0' <= #[trigger] id[i] && id[i] <= '9'
    &&& forall|i: int|
        23 <= i < 29 ==> ('0' <= #[trigger] id[i] && id[i] <= '9') || ('a' <= id[i] && id[i] <= 'f')
            || ('A' <= id[i] && id[i] <= 'F')
}

proof fn message_ids_by_position(id: Seq<char>)
    ensures
        ids::message_id_shape(id) == message_id(id),
{
    if ids::message_id_shape(id) {
        assert forall|i: int| 0 <= i < 22 && i != 8 && i != 15 implies '0' <= #[trigger] id[i]
            && id[i] <= '9' by {
            assert(text::is_digit(id[i]));
        }
        assert forall|i: int| 23 <= i < 29 implies ('0' <= #[trigger] id[i] && id[i] <= '9') || (
        'a' <= id[i] && id[i] <= 'f') || ('A' <= id[i] && id[i] <= 'F') by {
            assert(text::is_hex_digit(id[i]));
        }
    }
    if message_id(id) {
        assert forall|i: int| 0 <= i < 8 implies text::is_digit(#[trigger] id[i]) by {}
        assert forall|i: int| 9 <= i < 15 implies text::is_digit(#[trigger] id[i]) by {}
        assert forall|i: int| 16 <= i < 22 implies text::is_digit(#[trigger] id[i]) by {}
        assert forall|i: int| 23 <= i < 29 implies text::is_hex_digit(#[trigger] id[i]) by {}
    }
}

proof fn bad_mentions_are_found(mentions: Seq<Seq<char>>)
    ensures
        channel::bad_mention(mentions) is None <==> forall|i: int|
            0 <= i < mentions.len() ==> !names::has_refused(#[trigger] mentions[i])
                && names::room_name_fault(mentions[i]) is None,
    decreases mentions.len(),
{
    if mentions.len() > 0 {
        let rest = mentions.skip(1);
        bad_mentions_are_found(rest);
        if channel::bad_mention(mentions) is None {
            assert forall|i: int| 0 <= i < mentions.len() implies !names::has_refused(
                #[trigger] mentions[i],
            ) && names::room_name_fault(mentions[i]) is None by {
                if i > 0 {
                    assert(rest[i - 1] == mentions[i]);
                }
            }
        }
        if forall|i: int|
            0 <= i < mentions.len() ==> !names::has_refused(#[trigger] mentions[i])
                && names::room_name_fault(mentions[i]) is None {
            assert(!names::has_refused(mentions[0]));
            assert forall|i: int| 0 <= i < rest.len() implies !names::has_refused(
                #[trigger] rest[i],
            ) && names::room_name_fault(rest[i]) is None by {
                assert(mentions[i + 1] == rest[i]);
            }
        }
    }
}

/// A message that nothing hinders is posted, under the id and the time that it was given.
pub proof fn unhindered_messages_are_posted(draft: MessageDraft, id: Seq<char>, sent: Seq<char>)
    requires
        channel::message_fault(channel::message_of(draft, id, sent)) is None,
    ensures
        ({
            let end = channel::run(
                draft,
                channel::PostingView::NeedId { attempt: 0 },
                seq![channel::PostingEventView::Id { id, sent }, channel::PostingEventView::Written],
            );
            end is Posted && end->Posted_message.id == id && end->Posted_message.sent == sent
                && carries_the_draft(end->Posted_message, draft)
        }),
{
    let start = channel::PostingView::NeedId { attempt: 0 };
    let two = seq![channel::PostingEventView::Id { id, sent }, channel::PostingEventView::Written];
    let one = two.drop_last();
    let message = channel::message_of(draft, id, sent);
    assert(one.drop_last() =~= Seq::<channel::PostingEventView>::empty());
    assert(channel::run(draft, start, one.drop_last()) == start);
    assert(channel::run(draft, start, one) == (channel::PostingView::Write { attempt: 0, message }));
    assert(channel::run(draft, start, two) == (channel::PostingView::Posted { message }));
    posted_messages_are_the_draft(draft, two);
}

/// What the answers of the store mean to a message that is being written: a taken name costs
/// one of 256 attempts, and a failure ends the posting, which may be repeated.
pub proof fn the_store_decides_the_rest(
    draft: MessageDraft,
    attempt: int,
    message: model::MessageView,
    path: Seq<char>,
    problem: Seq<char>,
)
    ensures
        ({
            let writing = channel::PostingView::Write { attempt, message };
            let failed = channel::next(
                draft,
                writing,
                channel::PostingEventView::WriteFailed { path, problem },
            );
            let taken = channel::next(draft, writing, channel::PostingEventView::Exists);
            &&& channel::next(draft, writing, channel::PostingEventView::Written) == (
            channel::PostingView::Posted { message })
            &&& attempt < 255 ==> taken == (channel::PostingView::NeedId { attempt: attempt + 1 })
            &&& attempt >= 255 ==> taken is Failed && taken->error.retryable
            &&& failed is Failed && failed->error.code == ErrorCode::IoError
                && failed->error.retryable && failed->error.details.path == Some(path)
                && failed->error.details.reason == Some(problem)
        }),
{
}

/// A channel name is taken exactly if a room could have it.
pub proof fn channels_are_named_like_rooms(name: Seq<char>)
    ensures
        channel::channel_name_fault(name) is None <==> names::room_name_fault(name) is None,
        channel::channel_name_fault(name) matches Some(e) ==> e.code == ErrorCode::InvalidArgument
            && e.details.input == Some(name) && e.details.reason == names::room_name_fault(name),
{
}

/// A description is taken exactly if it fits in 1024 bytes, and an empty one clears it.
pub proof fn descriptions_are_bounded(description: Seq<char>)
    ensures
        channel::description_fault(description) is None <==> text::byte_len(description) <= 1024,
        description.len() == 0 ==> channel::stored_description(description) is None,
        description.len() > 0 ==> channel::stored_description(description) == Some(description),
{
}

/// The record of a join names the room that joined, and no other text does.
pub proof fn join_records_name_the_room(room: Seq<char>, other: Seq<char>)
    ensures
        channel::join_text(room) == "=== "@ + room + " joined ==="@,
        channel::join_text(room) == channel::join_text(other) ==> room == other,
{
    if channel::join_text(room) == channel::join_text(other) {
        let a = "=== "@ + room + " joined ==="@;
        let b = "=== "@ + other + " joined ==="@;
        let n = "=== "@.len() as int;
        assert(a.len() == b.len());
        assert(a.subrange(n, n + room.len()) =~= room);
        assert(b.subrange(n, n + other.len()) =~= other);
    }
}

/// Whether a channel of this name lists a room as a member.
pub open spec fn lists_the_room(
    items: Seq<ChannelListItem>,
    room: Seq<char>,
    name: Seq<char>,
) -> bool {
    exists|j: int, m: int|
        #![trigger items[j].members@[m]]
        0 <= j < items.len() && 0 <= m < items[j].members@.len() && items[j].members@[m]@ == room
            && items[j].name@ == name
}

/// A change of profile is announced in exactly the channels that list the room as a member, in
/// their order.
pub proof fn changes_are_announced_where_the_room_is(
    items: Seq<ChannelListItem>,
    room: Seq<char>,
    i: int,
)
    requires
        0 <= i < items.len(),
    ensures
        (exists|m: int|
            0 <= m < items[i].members@.len() && (#[trigger] items[i].members@[m])@ == room)
            ==> channel::channels_with(items, room).contains(items[i].name@),
        channel::channels_with(items, room).len() <= items.len(),
        forall|k: int|
            0 <= k < channel::channels_with(items, room).len() ==> lists_the_room(
                items,
                room,
                #[trigger] channel::channels_with(items, room)[k],
            ),
    decreases items.len(),
{
    let before = items.drop_last();
    let last = items.last();
    let n = items.len() - 1;
    assert(items[n] == last);
    let all = channel::channels_with(items, room);
    let some = channel::channels_with(before, room);
    if before.len() > 0 {
        changes_are_announced_where_the_room_is(
            before,
            room,
            if i < n {
                i
            } else {
                0
            },
        );
    }
    if text::texts(last.members@).contains(room) {
        let m = choose|m: int|
            0 <= m < text::texts(last.members@).len() && text::texts(last.members@)[m] == room;
        assert(last.members@[m]@ == room);
        assert(items[n].members@[m]@ == room);
        assert(all.last() == last.name@);
        assert(all.contains(last.name@));
    }
    if exists|m: int|
        0 <= m < items[i].members@.len() && (#[trigger] items[i].members@[m])@ == room {
        let m = choose|m: int|
            0 <= m < items[i].members@.len() && (#[trigger] items[i].members@[m])@ == room;
        if i == n {
            assert(text::texts(last.members@)[m] == room);
        } else {
            assert(before[i] == items[i]);
            assert(before[i].members@[m]@ == room);
            assert(some.contains(items[i].name@));
            let k = choose|k: int| 0 <= k < some.len() && some[k] == items[i].name@;
            assert(all[k] == some[k]);
        }
    }
    assert forall|k: int| 0 <= k < all.len() implies lists_the_room(
        items,
        room,
        #[trigger] all[k],
    ) by {
        if k < some.len() {
            assert(all[k] == some[k]);
            assert(lists_the_room(before, room, some[k]));
            let (j, m) = choose|j: int, m: int|
                #![trigger before[j].members@[m]]
                0 <= j < before.len() && 0 <= m < before[j].members@.len() && before[j].members@[m]@
                    == room && before[j].name@ == some[k];
            assert(items[j] == before[j]);
            assert(items[j].members@[m]@ == room);
        }
    }
}

/// A channel's file, as a value, holds each field of the file.
pub proof fn channel_files_are_seen_as_they_are(info: ChannelInfo)
    ensures
        info@.name == info.name@,
        info@.created == info.created@,
        info@.created_by == info.created_by@,
        info.description matches Some(d) ==> info@.description == Some(d@),
        info.description is None ==> info@.description is None,
{
}

/// A message and its body, as values, hold each field of the message.
pub proof fn messages_are_seen_as_they_are(post: ParsedChannelMessage)
    ensures
        post@.body == post.body@,
        post@.message == post.message@,
        post.message@.id == post.message.id@,
        post.message@.from == post.message.from@,
        post.message@.channel == post.message.channel@,
        post.message@.subject == post.message.subject@,
        post.message@.sent == post.message.sent@,
        post.message.event is None ==> post.message@.event is None,
        post.message.event matches Some(v) ==> post.message@.event == Some(v@),
        post.message.display_name is None ==> post.message@.display_name is None,
        post.message.display_name matches Some(v) ==> post.message@.display_name == Some(v@),
        post.message.pfp is None ==> post.message@.pfp is None,
        post.message.pfp matches Some(v) ==> post.message@.pfp == Some(v@),
        post.message.re is None ==> post.message@.re is None,
        post.message.re matches Some(v) ==> post.message@.re == Some(v@),
        post.message.signature_ref is None ==> post.message@.signature_ref is None,
        post.message.signature_ref matches Some(v) ==> post.message@.signature_ref == Some(v@),
        post.message@.mentions.len() == post.message.mentions@.len(),
        forall|i: int|
            0 <= i < post.message.mentions@.len() ==> post.message@.mentions[i]
                == (#[trigger] post.message.mentions@[i])@,
{
}

/// The messages of a list, as values, stand in its order, and none is left out.
pub proof fn posts_are_seen_in_their_order(posts: Seq<ParsedChannelMessage>)
    ensures
        model::posts_view(posts).len() == posts.len(),
        forall|i: int|
            0 <= i < posts.len() ==> #[trigger] model::posts_view(posts)[i] == posts[i]@,
        channel::post_ids(model::posts_view(posts)).len() == posts.len(),
        forall|i: int|
            0 <= i < posts.len() ==> #[trigger] channel::post_ids(model::posts_view(posts))[i]
                == posts[i].message.id@,
{
}

} // verus!
