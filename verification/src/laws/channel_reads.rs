//! Reading a channel: what is shown, what is passed over, and where the cursor goes.
use crate::chat;
use crate::chat::{ChatMode, MessageRead, ReadPlan};
use crate::cli::ChatArgs;
use crate::cursor;
use crate::error;
use crate::error::ErrorCode;
use crate::model::ParsedChannelMessage;
use crate::order;
use crate::order::Sortable;
use crate::outside;
use crate::text;
use vstd::prelude::*;

verus! {

/// A read that was asked neither to look back nor to peek moves the cursor to the last message
/// of the batch, whatever bound it was given, and whatever it shows of it: nothing of the
/// batch is unread after it. The bound chooses what is shown, never whether the cursor moves.
pub proof fn reads_move_the_cursor_to_the_end(
    files: Seq<MessageRead>,
    args: ChatArgs,
    cursor: Option<Seq<char>>,
    room: Seq<char>,
    batch: Seq<ParsedChannelMessage>,
    plan: ReadPlan,
)
    requires
        args.history is None,
        args.since is None,
        !args.peek || args.discard,
        order::stable_sort_of(chat::unread(files, cursor), batch),
        batch.len() > 0,
        chat::plans(args, batch, room, plan),
    ensures
        plan.advance_to is Some,
        plan.advance_to->0@ == batch.last().message.id@,
        chat::unread(files, Some(plan.advance_to->0@)).len() == 0,
        forall|i: int|
            0 <= i < batch.len() ==> !text::lt(
                plan.advance_to->0@,
                (#[trigger] batch[i]).message.id@,
            ),
{
    chat::read_messages_are_not_shown_again(files, cursor, batch);
    let last = batch.last().message.id@;
    assert forall|i: int| 0 <= i < batch.len() implies !text::lt(
        last,
        (#[trigger] batch[i]).message.id@,
    ) by {
        text::lt_irreflexive(last);
        if i < batch.len() - 1 {
            assert(batch[i].at_most(batch[batch.len() - 1]));
            if text::lt(last, batch[i].message.id@) {
                text::lt_asymmetric(last, batch[i].message.id@);
            }
        }
    }
}

/// A read that looks back, a peek, and a read of nothing leave the cursor where it is; no other
/// read does.
pub proof fn only_looking_leaves_the_cursor(
    args: ChatArgs,
    batch: Seq<ParsedChannelMessage>,
    room: Seq<char>,
    plan: ReadPlan,
)
    requires
        chat::plans(args, batch, room, plan),
    ensures
        plan.advance_to is None <==> args.history is Some || args.since is Some || (args.peek
            && !args.discard) || batch.len() == 0,
{
}

/// The bound of a read changes neither where it begins nor where the cursor goes.
pub proof fn bounds_move_no_cursor(
    one: ChatArgs,
    two: ChatArgs,
    batch: Seq<ParsedChannelMessage>,
    cursor: Option<Seq<char>>,
)
    requires
        one.history is Some <==> two.history is Some,
        text::opt(one.since) == text::opt(two.since),
        one.peek == two.peek,
        one.discard == two.discard,
    ensures
        chat::advance_of(one, batch) == chat::advance_of(two, batch),
        chat::read_after(one, cursor) == chat::read_after(two, cursor),
{
}

/// A read begins after the cursor, and one that looks back begins after the message that it
/// names, or at the beginning.
pub proof fn reads_begin_where_they_should(args: ChatArgs, cursor: Option<Seq<char>>)
    ensures
        args.history is None && args.since is None ==> chat::read_after(args, cursor) == cursor,
        args.since matches Some(id) ==> chat::read_after(args, cursor) == Some(id@),
        args.history is Some && args.since is None ==> chat::read_after(args, cursor) is None,
        chat::cursorless(args) <==> args.history is Some || args.since is Some,
{
}

/// A read is refused for the null device exactly if it would move the cursor past messages
/// that it was asked to show.
pub proof fn nothing_is_consumed_unseen(
    args: ChatArgs,
    batch: Seq<ParsedChannelMessage>,
    stdout_is_null: bool,
)
    ensures
        chat::consumes_unseen(args, batch, stdout_is_null) <==> stdout_is_null && !args.discard
            && !args.peek && args.history is None && args.since is None && batch.len() > 0,
{
}

/// An id lies past a cursor exactly if there is no cursor or the id comes after it.
pub proof fn past_means_after(cursor: Option<Seq<char>>, id: Seq<char>)
    ensures
        cursor is None ==> cursor::past(cursor, id),
        cursor matches Some(last) ==> (cursor::past(cursor, id) <==> text::lt(last, id)),
{
}

/// The cursor of the channel that was read is the farther of the old one and the new, and the
/// cursors of the other channels stay.
pub proof fn cursors_keep_the_farther_message(
    cursors: Map<Seq<char>, Seq<char>>,
    channel: Seq<char>,
    id: Seq<char>,
    other: Seq<char>,
)
    ensures
        ({
            let after = cursor::advanced(cursors, channel, id);
            &&& after.contains_key(channel)
            &&& !cursors.contains_key(channel) ==> after[channel] == id
            &&& cursors.contains_key(channel) && text::lt(cursors[channel], id) ==> after[channel]
                == id
            &&& cursors.contains_key(channel) && !text::lt(cursors[channel], id)
                ==> after[channel] == cursors[channel]
            &&& other != channel ==> (after.contains_key(other) <==> cursors.contains_key(other))
            &&& other != channel && cursors.contains_key(other) ==> after[other] == cursors[other]
            &&& cursor::cursor_in(after, channel) == Some(after[channel])
            &&& !cursors.contains_key(other) ==> cursor::cursor_in(cursors, other) is None
        }),
{
}

/// Whether a file holds an unread message: neither its name nor its message is at the cursor
/// or before it, and it was read.
pub open spec fn holds_news(file: MessageRead, after: Option<Seq<char>>) -> bool {
    match file.read {
        Ok(post) => (after matches Some(last) ==> text::lt(last, post.message.id@) && (
        file.stem matches Some(stem) ==> text::lt(last, stem@))),
        Err(_) => false,
    }
}

/// Whether a file that could not be read may hold an unread message.
pub open spec fn may_hide_news(file: MessageRead, after: Option<Seq<char>>) -> bool {
    file.read is Err && (after matches Some(last) ==> (file.stem matches Some(stem) ==> text::lt(
        last,
        stem@,
    )))
}

/// The unread messages are those of the files that hold one, in the order of the files, none
/// left out and none twice.
pub proof fn unread_messages_are_those_of_the_files(
    files: Seq<MessageRead>,
    more: Seq<MessageRead>,
    file: MessageRead,
    after: Option<Seq<char>>,
)
    ensures
        chat::unread(seq![], after).len() == 0,
        holds_news(file, after) ==> chat::unread(seq![file], after) == seq![file.read->Ok_0],
        !holds_news(file, after) ==> chat::unread(seq![file], after).len() == 0,
        chat::unread(files + more, after) == chat::unread(files, after) + chat::unread(more, after),
    decreases files.len(),
{
    let one = seq![file];
    assert(one.skip(1) =~= Seq::<MessageRead>::empty());
    assert(chat::unread(one.skip(1), after).len() == 0);
    if holds_news(file, after) {
        assert(chat::is_unread(file, after));
        assert(chat::unread(one, after) =~= seq![file.read->Ok_0]);
    } else {
        assert(!chat::is_unread(file, after));
    }
    if files.len() == 0 {
        assert(files + more =~= more);
        assert(chat::unread(files, after) + chat::unread(more, after) =~= chat::unread(
            more,
            after,
        ));
    } else {
        assert((files + more).skip(1) =~= files.skip(1) + more);
        unread_messages_are_those_of_the_files(files.skip(1), more, file, after);
        assert(chat::unread(files + more, after) =~= chat::unread(files, after) + chat::unread(
            more,
            after,
        ));
    }
}

/// A read that moves the cursor fails exactly if some file that may hide an unread message
/// cannot be read, with the error of the first such file; and there is one warning for each of
/// them on a read that does not.
pub proof fn unreadable_files_stop_the_cursor(
    files: Seq<MessageRead>,
    after: Option<Seq<char>>,
)
    ensures
        chat::first_broken(files, after) is Some <==> exists|i: int|
            0 <= i < files.len() && may_hide_news(#[trigger] files[i], after),
        chat::first_broken(files, after) matches Some(e) ==> exists|i: int|
            0 <= i < files.len() && may_hide_news(#[trigger] files[i], after) && files[i].read
                == Err::<ParsedChannelMessage, error::AppError>(e) && forall|j: int|
                0 <= j < i ==> !may_hide_news(#[trigger] files[j], after),
        chat::first_broken(files, after) is None <==> chat::broken_warnings(files, after).len()
            == 0,
    decreases files.len(),
{
    if files.len() > 0 {
        let rest = files.skip(1);
        unreadable_files_stop_the_cursor(rest, after);
        assert(chat::is_broken(files[0], after) == may_hide_news(files[0], after));
        if !may_hide_news(files[0], after) {
            if exists|i: int| 0 <= i < files.len() && may_hide_news(#[trigger] files[i], after) {
                let i = choose|i: int|
                    0 <= i < files.len() && may_hide_news(#[trigger] files[i], after);
                assert(rest[i - 1] == files[i]);
            }
            if let Some(e) = chat::first_broken(rest, after) {
                let i = choose|i: int|
                    0 <= i < rest.len() && may_hide_news(#[trigger] rest[i], after) && rest[i].read
                        == Err::<ParsedChannelMessage, error::AppError>(e) && forall|j: int|
                        0 <= j < i ==> !may_hide_news(#[trigger] rest[j], after);
                assert(files[i + 1] == rest[i]);
                assert forall|j: int| 0 <= j < i + 1 implies !may_hide_news(
                    #[trigger] files[j],
                    after,
                ) by {
                    if j > 0 {
                        assert(rest[j - 1] == files[j]);
                    }
                }
            }
        } else {
            assert(files[0].read is Err);
            assert(chat::first_broken(files, after) == Some(files[0].read->Err_0));
        }
    }
}

/// What a bounded read shows. Without a bound it shows the newest 25 messages, with the bound 0
/// all of them, and otherwise as many of the newest as the bound says; before them stand those
/// of the older ones that mention the reader, and nothing else.
pub proof fn bounded_reads_show_the_newest_and_the_mentions(
    posts: Seq<ParsedChannelMessage>,
    limit: Option<usize>,
    room: Seq<char>,
)
    ensures
        limit == Some(0usize) ==> chat::caught_up(posts, limit, room) == posts,
        limit matches Some(n) ==> (n > 0 && posts.len() <= n ==> chat::caught_up(
            posts,
            limit,
            room,
        ) == posts),
        limit is None && posts.len() <= 25 ==> chat::caught_up(posts, limit, room) == posts,
        limit is None ==> chat::caught_up(posts, limit, room) == chat::caught_up(
            posts,
            Some(25usize),
            room,
        ),
        limit matches Some(n) ==> (n > 0 && posts.len() > n ==> chat::caught_up(posts, limit, room)
            == chat::rescued(posts.take(posts.len() - n), room) + posts.skip(posts.len() - n)),
{
}

/// Whether a message mentions a room, by the entries of its list.
pub open spec fn names_reader(post: ParsedChannelMessage, room: Seq<char>) -> bool {
    exists|m: int|
        0 <= m < post.message.mentions@.len() && (#[trigger] post.message.mentions@[m])@ == room
}

/// The older messages that a bounded read shows are those that mention the reader, in their
/// order, none left out and none twice.
pub proof fn rescued_messages_mention_the_reader(
    posts: Seq<ParsedChannelMessage>,
    more: Seq<ParsedChannelMessage>,
    post: ParsedChannelMessage,
    room: Seq<char>,
)
    ensures
        chat::rescued(seq![], room).len() == 0,
        names_reader(post, room) ==> chat::rescued(seq![post], room) == seq![post],
        !names_reader(post, room) ==> chat::rescued(seq![post], room).len() == 0,
        chat::rescued(posts + more, room) == chat::rescued(posts, room) + chat::rescued(more, room),
    decreases posts.len(),
{
    let one = seq![post];
    let listed = text::texts(post.message.mentions@);
    assert(one.skip(1) =~= Seq::<ParsedChannelMessage>::empty());
    assert(chat::rescued(one.skip(1), room).len() == 0);
    if names_reader(post, room) {
        let m = choose|m: int|
            0 <= m < post.message.mentions@.len() && (#[trigger] post.message.mentions@[m])@
                == room;
        assert(listed[m] == room);
        assert(chat::mentions_room(post, room));
        assert(chat::rescued(one, room) =~= seq![post]);
    } else if chat::mentions_room(post, room) {
        let m = choose|m: int| 0 <= m < listed.len() && listed[m] == room;
        assert(post.message.mentions@[m]@ == room);
    }
    if posts.len() == 0 {
        assert(posts + more =~= more);
        assert(chat::rescued(posts, room) + chat::rescued(more, room) =~= chat::rescued(
            more,
            room,
        ));
    } else {
        assert((posts + more).skip(1) =~= posts.skip(1) + more);
        rescued_messages_mention_the_reader(posts.skip(1), more, post, room);
        assert(chat::rescued(posts + more, room) =~= chat::rescued(posts, room) + chat::rescued(
            more,
            room,
        ));
    }
}

/// A search keeps the messages in whose body, subject, sender or id the pattern is found, in
/// their order, none left out and none twice.
pub proof fn searches_keep_what_they_find(
    posts: Seq<ParsedChannelMessage>,
    more: Seq<ParsedChannelMessage>,
    post: ParsedChannelMessage,
    pattern: Seq<char>,
)
    ensures
        chat::grep_hits(pattern, seq![]).len() == 0,
        outside::regex_finds(pattern, post.body@) || outside::regex_finds(
            pattern,
            post.message.subject@,
        ) || outside::regex_finds(pattern, post.message.from@) || outside::regex_finds(
            pattern,
            post.message.id@,
        ) ==> chat::grep_hits(pattern, seq![post]) == seq![post],
        !outside::regex_finds(pattern, post.body@) && !outside::regex_finds(
            pattern,
            post.message.subject@,
        ) && !outside::regex_finds(pattern, post.message.from@) && !outside::regex_finds(
            pattern,
            post.message.id@,
        ) ==> chat::grep_hits(pattern, seq![post]).len() == 0,
        chat::grep_hits(pattern, posts + more) == chat::grep_hits(pattern, posts)
            + chat::grep_hits(pattern, more),
    decreases posts.len(),
{
    let one = seq![post];
    assert(one.skip(1) =~= Seq::<ParsedChannelMessage>::empty());
    assert(chat::grep_hits(pattern, one.skip(1)).len() == 0);
    if chat::grep_hit(pattern, post) {
        assert(chat::grep_hits(pattern, one) =~= seq![post]);
    }
    if posts.len() == 0 {
        assert(posts + more =~= more);
        assert(chat::grep_hits(pattern, posts) + chat::grep_hits(pattern, more)
            =~= chat::grep_hits(pattern, more));
    } else {
        assert((posts + more).skip(1) =~= posts.skip(1) + more);
        searches_keep_what_they_find(posts.skip(1), more, post, pattern);
        assert(chat::grep_hits(pattern, posts + more) =~= chat::grep_hits(pattern, posts)
            + chat::grep_hits(pattern, more));
    }
}

/// What a read takes from a batch: a discard all of it, a read of the history the newest that
/// it asks for, searched if it names a pattern, and any other read what its bound leaves. The
/// messages that are not shown are counted.
pub proof fn reads_take_what_they_ask_for(
    args: ChatArgs,
    batch: Seq<ParsedChannelMessage>,
    room: Seq<char>,
    plan: ReadPlan,
)
    requires
        chat::plans(args, batch, room, plan),
    ensures
        args.history is None && args.since is None && args.discard ==> plan.posts@ == batch
            && plan.skipped == 0,
        args.history is None && args.since is None && !args.discard ==> plan.posts@
            == chat::caught_up(batch, args.limit, room) && plan.skipped + plan.posts@.len()
            == batch.len(),
        args.history matches Some(n) ==> (args.grep is None && n < batch.len() ==> plan.posts@
            == batch.skip(batch.len() - n)),
        args.history matches Some(n) ==> (args.grep is None && n >= batch.len() ==> plan.posts@
            == batch),
        args.history is None && args.since is Some && args.grep is None ==> plan.posts@ == batch,
        args.history matches Some(n) ==> (args.grep matches Some(pattern) ==> plan.posts@
            == chat::grep_hits(
            pattern@,
            if n < batch.len() {
                batch.skip(batch.len() - n)
            } else {
                batch
            },
        )),
        args.history is Some || args.since is Some ==> plan.skipped == 0,
{
}

/// What an invocation does, by its options: a join before all, receipts next, a send if it has
/// a body or asks for one, a skip through a message if it names one, and a read otherwise.
pub proof fn options_choose_the_work(args: ChatArgs)
    ensures
        ({
            let sending = args.send || args.body is Some || args.body_file is Some;
            let idle = args.oversize || args.anyway || args.re is Some || args.signature_ref is Some
                || args.subject@.len() > 0;
            let m = chat::mode(args);
            &&& args.join ==> m == Ok::<ChatMode, error::ErrorView>(ChatMode::Join)
            &&& !args.join && args.seen_by is Some ==> m == Ok::<ChatMode, error::ErrorView>(
                ChatMode::SeenBy,
            )
            &&& !args.join && args.seen_by is None && sending ==> m == Ok::<
                ChatMode,
                error::ErrorView,
            >(ChatMode::Send)
            &&& !args.join && args.seen_by is None && !sending && idle ==> m is Err
                && m->Err_0.code == ErrorCode::InvalidArgument
            &&& !args.join && args.seen_by is None && !sending && !idle && args.discard_through
                is Some ==> m == Ok::<ChatMode, error::ErrorView>(ChatMode::DiscardThrough)
            &&& !args.join && args.seen_by is None && !sending && !idle && args.discard_through
                is None ==> m == Ok::<ChatMode, error::ErrorView>(ChatMode::Read)
        }),
{
}

/// A skip through a message counts the unread messages up to it, one for each file that holds
/// one.
pub proof fn skips_count_what_they_pass(
    files: Seq<MessageRead>,
    more: Seq<MessageRead>,
    file: MessageRead,
    after: Option<Seq<char>>,
    target: Seq<char>,
)
    ensures
        chat::passed(seq![], after, target) == 0,
        chat::passed(seq![file], after, target) == if holds_news(file, after) && (
        file.read->Ok_0.message.id@ == target || text::lt(file.read->Ok_0.message.id@, target)) {
            1nat
        } else {
            0
        },
        chat::passed(files + more, after, target) == chat::passed(files, after, target)
            + chat::passed(more, after, target),
    decreases files.len(),
{
    let one = seq![file];
    assert(one.skip(1) =~= Seq::<MessageRead>::empty());
    assert(chat::passed(one.skip(1), after, target) == 0);
    assert(chat::is_unread(file, after) == holds_news(file, after));
    if files.len() == 0 {
        assert(files + more =~= more);
    } else {
        assert((files + more).skip(1) =~= files.skip(1) + more);
        skips_count_what_they_pass(files.skip(1), more, file, after, target);
    }
}

/// A skip through a message fails exactly if a file that cannot be read may lie between the
/// cursor and that message.
pub proof fn skips_stop_at_unreadable_files(
    files: Seq<MessageRead>,
    after: Option<Seq<char>>,
    target: Seq<char>,
)
    ensures
        chat::first_broken_between(files, after, target) is Some <==> exists|i: int|
            0 <= i < files.len() && may_hide_news(#[trigger] files[i], after) && (
            files[i].stem matches Some(stem) ==> stem@ == target || text::lt(stem@, target)),
    decreases files.len(),
{
    if files.len() > 0 {
        let rest = files.skip(1);
        skips_stop_at_unreadable_files(rest, after, target);
        let here = may_hide_news(files[0], after) && (files[0].stem matches Some(stem) ==> stem@
            == target || text::lt(stem@, target));
        if !here {
            if exists|i: int|
                0 <= i < files.len() && may_hide_news(#[trigger] files[i], after) && (
                files[i].stem matches Some(stem) ==> stem@ == target || text::lt(stem@, target)) {
                let i = choose|i: int|
                    0 <= i < files.len() && may_hide_news(#[trigger] files[i], after) && (
                    files[i].stem matches Some(stem) ==> stem@ == target || text::lt(
                        stem@,
                        target,
                    ));
                assert(rest[i - 1] == files[i]);
            }
            if chat::first_broken_between(rest, after, target) is Some {
                let i = choose|i: int|
                    0 <= i < rest.len() && may_hide_news(#[trigger] rest[i], after) && (
                    rest[i].stem matches Some(stem) ==> stem@ == target || text::lt(stem@, target));
                assert(files[i + 1] == rest[i]);
            }
        } else {
            assert(chat::lies_between(text::opt(files[0].stem), after, target));
        }
    }
}

/// The readers of a message are the members whose cursor is at it or after it, none left out
/// and none twice.
pub proof fn readers_have_reached_the_message(
    members: Seq<(String, Option<String>)>,
    member: (String, Option<String>),
    id: Seq<char>,
)
    ensures
        chat::readers(seq![], id).len() == 0,
        member.1 is None ==> chat::readers(members.push(member), id) == chat::readers(members, id),
        member.1 matches Some(cursor) ==> (cursor@ == id || text::lt(id, cursor@) ==> chat::readers(
            members.push(member),
            id,
        ) == chat::readers(members, id).push(member.0@)),
        member.1 matches Some(cursor) ==> (cursor@ != id && !text::lt(id, cursor@)
            ==> chat::readers(members.push(member), id) == chat::readers(members, id)),
{
    assert(members.push(member).drop_last() =~= members);
}

/// A sender's own message stays unread by its sender exactly if another message lies between
/// the cursor and it.
pub proof fn own_messages_wait_for_the_others(
    id: Seq<char>,
    after: Option<Seq<char>>,
    own: Seq<char>,
)
    ensures
        chat::blocks_own_advance(id, after, own) <==> text::lt(id, own) && (after matches Some(last)
            ==> text::lt(last, id)),
{
}

/// A batch that is sorted holds the same messages, and each comes before those with a later id.
pub proof fn batches_stand_in_order(
    before: Seq<ParsedChannelMessage>,
    after: Seq<ParsedChannelMessage>,
)
    requires
        order::stable_sort_of(before, after),
    ensures
        before.to_multiset() == after.to_multiset(),
        before.len() == after.len(),
        forall|i: int, j: int|
            0 <= i < j < after.len() ==> (#[trigger] after[i]).message.id@ == (
            #[trigger] after[j]).message.id@ || text::lt(
                after[i].message.id@,
                after[j].message.id@,
            ),
{
    vstd::seq_lib::to_multiset_len(before);
    vstd::seq_lib::to_multiset_len(after);
    assert forall|i: int, j: int| 0 <= i < j < after.len() implies (#[trigger] after[i]).message.id@
        == (#[trigger] after[j]).message.id@ || text::lt(
        after[i].message.id@,
        after[j].message.id@,
    ) by {
        assert(after[i].at_most(after[j]));
    }
}

} // verus!
