//! How a channel's messages are shown.
use vstd::prelude::*;

use crate::cli::FramingMode;
use crate::ids;
use crate::laws::display;
use crate::model::ParsedChannelMessage;
use crate::names;
use crate::output;
use crate::output::ChatMessageItem;
use crate::paths;
use crate::text;
use crate::transcript;
use crate::transcript::Banner;

verus! {

/// A preview is one line: line feeds and carriage returns become spaces, white ends are dropped, and
/// what is longer than forty characters is cut and marked.
pub proof fn previews_are_one_short_line(body: Seq<char>, i: int)
    ensures
        transcript::flat(body).len() == body.len(),
        0 <= i < body.len() && (body[i] == '\n' || body[i] == '\r') ==> transcript::flat(body)[i]
            == ' ',
        0 <= i < body.len() && body[i] != '\n' && body[i] != '\r' ==> transcript::flat(body)[i]
            == body[i],
        text::trim(transcript::flat(body)).len() <= 40 ==> transcript::preview(body) == text::trim(
            transcript::flat(body),
        ),
        text::trim(transcript::flat(body)).len() > 40 ==> transcript::preview(body) == text::trim(
            transcript::flat(body),
        ).take(40) + "…"@,
{
}

/// A message's short id is the end behind its last hyphen, where that has six bytes, and else its
/// first eight characters.
pub proof fn short_ids_are_ends_or_beginnings(front: Seq<char>, end: Seq<char>)
    requires
        !end.contains('-'),
    ensures
        text::byte_len(end) == 6 ==> transcript::short(front.push('-') + end) == end,
        text::byte_len(end) != 6 && front.len() + end.len() >= 8 ==> transcript::short(
            front.push('-') + end,
        ) == (front.push('-') + end).take(8),
        text::byte_len(end) != 6 && front.len() + end.len() < 8 ==> transcript::short(
            front.push('-') + end,
        ) == front.push('-') + end,
{
    last_piece(front, end);
    let id = front.push('-') + end;
    assert(id.len() == front.len() + end.len() + 1);
}

proof fn last_piece(front: Seq<char>, end: Seq<char>)
    requires
        !end.contains('-'),
    ensures
        paths::split(front.push('-') + end, '-').last() == end,
    decreases end.len(),
{
    let whole = front.push('-') + end;
    paths::split_is_not_empty(whole.drop_last(), '-');
    if end.len() == 0 {
        assert(whole =~= front.push('-'));
        assert(end =~= Seq::<char>::empty());
    } else {
        let rest = end.drop_last();
        assert(!rest.contains('-')) by {
            if rest.contains('-') {
                let i = choose|i: int| 0 <= i < rest.len() && rest[i] == '-';
                assert(end[i] == '-');
            }
        }
        last_piece(front, rest);
        assert(whole.drop_last() =~= front.push('-') + rest);
        assert(end.last() != '-') by {
            assert(end[end.len() - 1] == end.last());
        }
        assert(rest.push(end.last()) =~= end);
    }
}

/// A message is found by its id: one that is put behind is found under its own id, and changes
/// nothing for the others.
pub proof fn messages_are_found_by_id(
    posts: Seq<ParsedChannelMessage>,
    post: ParsedChannelMessage,
    id: Seq<char>,
)
    ensures
        transcript::last_with_id(seq![], id) is None,
        post.message.id@ == id ==> transcript::last_with_id(posts.push(post), id) == Some(post),
        post.message.id@ != id ==> transcript::last_with_id(posts.push(post), id)
            == transcript::last_with_id(posts, id),
{
    assert(posts.push(post).drop_last() =~= posts);
}

/// The message that is answered is sought among those shown first, and among the others then.
pub proof fn answered_messages_are_sought_nearby_first(
    posts: Seq<ParsedChannelMessage>,
    found: Seq<ParsedChannelMessage>,
    re: Seq<char>,
)
    ensures
        transcript::last_with_id(posts, re) is Some ==> transcript::parent(posts, found, re)
            == transcript::last_with_id(posts, re),
        transcript::last_with_id(posts, re) is None ==> transcript::parent(posts, found, re)
            == transcript::last_with_id(found, re),
{
}

/// What is looked up besides is just the answered messages that are not shown, each once, and only
/// under a message's id.
pub proof fn absent_messages_are_looked_up_once(
    shown: Seq<ParsedChannelMessage>,
    post: ParsedChannelMessage,
    posts: Seq<ParsedChannelMessage>,
)
    ensures
        transcript::absent_parents(seq![], posts) == Seq::<Seq<char>>::empty(),
        post.message.re is None ==> transcript::absent_parents(shown.push(post), posts)
            == transcript::absent_parents(shown, posts),
        post.message.re matches Some(re) ==> {
            let before = transcript::absent_parents(shown, posts);
            let after = transcript::absent_parents(shown.push(post), posts);
            &&& ids::message_id_shape(re@) && transcript::last_with_id(posts, re@) is None
                && !before.contains(re@) ==> after == before.push(re@)
            &&& !ids::message_id_shape(re@) || transcript::last_with_id(posts, re@) is Some
                || before.contains(re@) ==> after == before
        },
{
    assert(shown.push(post).drop_last() =~= shown);
}

/// A reply is marked with the short id of what it answers, and with that message's sender and
/// preview where it is known.
pub proof fn replies_are_marked(re: Seq<char>, answered: ParsedChannelMessage)
    ensures
        transcript::reply_marker(re, None) == "↳ re "@ + transcript::short(re) + "\n"@,
        text::has_prefix(
            transcript::reply_marker(re, Some(answered)),
            "↳ re "@ + transcript::short(re),
        ),
        text::has_part(
            transcript::reply_marker(re, Some(answered)),
            output::header_text(answered.message.from@),
        ),
        text::has_part(
            transcript::reply_marker(re, Some(answered)),
            output::header_text(transcript::preview(answered.body@)),
        ),
{
    let a = "↳ re "@ + transcript::short(re);
    let b = output::header_text(answered.message.from@);
    let c = output::header_text(transcript::preview(answered.body@));
    display::put_behind(a, " ("@);
    display::put_behind(a + " ("@, b);
    display::put_behind(a + " ("@ + b, ": "@);
    display::put_behind(a + " ("@ + b + ": "@, c);
    display::put_behind(a + " ("@ + b + ": "@ + c, ")\n"@);
}

/// A message is shown whole: what it answers, its event, its sender, its date, its id, its subject,
/// its body and, last, the badge that it earned.
pub proof fn messages_are_shown_whole(
    post: ParsedChannelMessage,
    answered: Option<ParsedChannelMessage>,
    badge: Seq<char>,
)
    ensures
        ({
            let message = post.message;
            let shown = transcript::post_text(post, answered, badge);
            &&& message.re matches Some(re) ==> text::has_part(
                shown,
                transcript::reply_marker(re@, answered),
            )
            &&& message.event matches Some(event) ==> text::has_part(
                shown,
                "["@ + output::header_text(event@) + "] "@,
            )
            &&& text::has_part(
                shown,
                output::label(
                    output::header_text(message.from@),
                    text::opt(message.display_name),
                    text::opt(message.pfp),
                ),
            )
            &&& text::has_part(shown, output::header_text(message.sent@))
            &&& text::has_part(shown, output::header_text(message.id@))
            &&& message.subject@.len() > 0 ==> text::has_part(
                shown,
                "   Subject: "@ + output::header_text(message.subject@),
            )
            &&& text::has_part(shown, output::body_text(post.body@))
            &&& text::has_suffix(shown, badge)
        }),
{
    let message = post.message;
    let reply = match message.re {
        Some(re) => transcript::reply_marker(re@, answered),
        None => ""@,
    };
    let event = match message.event {
        Some(event) => "["@ + output::header_text(event@) + "] "@,
        None => ""@,
    };
    let who = output::label(
        output::header_text(message.from@),
        text::opt(message.display_name),
        text::opt(message.pfp),
    );
    let sent = output::header_text(message.sent@);
    let id = output::header_text(message.id@);
    let subject = if message.subject@.len() == 0 {
        ""@
    } else {
        "   Subject: "@ + output::header_text(message.subject@)
    };
    let body = output::body_text(post.body@);
    let feed = if text::has_suffix(post.body@, "\n"@) {
        ""@
    } else {
        "\n"@
    };
    let s1 = "\n"@ + reply;
    display::put_behind("\n"@, reply);
    let s2 = s1 + "--- "@;
    display::put_behind(s1, "--- "@);
    let s3 = s2 + event;
    display::put_behind(s2, event);
    let s4 = s3 + who;
    display::put_behind(s3, who);
    let s5 = s4 + "   "@;
    display::put_behind(s4, "   "@);
    let s6 = s5 + sent;
    display::put_behind(s5, sent);
    let s7 = s6 + "   "@;
    display::put_behind(s6, "   "@);
    let s8 = s7 + id;
    display::put_behind(s7, id);
    let s9 = s8 + subject;
    display::put_behind(s8, subject);
    let s10 = s9 + " ---\n"@;
    display::put_behind(s9, " ---\n"@);
    let s11 = s10 + body;
    display::put_behind(s10, body);
    let s12 = s11 + feed;
    display::put_behind(s11, feed);
    display::put_behind(s12, badge);
}

/// The messages are shown one behind the other, each with its own badge, if there is one.
pub proof fn messages_are_shown_in_turn(
    n: nat,
    posts: Seq<ParsedChannelMessage>,
    found: Seq<ParsedChannelMessage>,
    badges: Seq<String>,
)
    ensures
        transcript::posts_text(0, posts, found, badges).len() == 0,
        n < posts.len() && posts[n as int].message.re is None ==> transcript::posts_text(
            n + 1,
            posts,
            found,
            badges,
        ) == transcript::posts_text(n, posts, found, badges) + transcript::post_text(
            posts[n as int],
            None,
            transcript::badge_at(badges, n as int),
        ),
        n < posts.len() ==> (posts[n as int].message.re matches Some(re) ==> transcript::posts_text(
            n + 1,
            posts,
            found,
            badges,
        ) == transcript::posts_text(n, posts, found, badges) + transcript::post_text(
            posts[n as int],
            transcript::parent(posts, found, re@),
            transcript::badge_at(badges, n as int),
        )),
        n < badges.len() ==> transcript::badge_at(badges, n as int) == badges[n as int]@,
        n >= badges.len() ==> transcript::badge_at(badges, n as int).len() == 0,
{
    reveal_strlit("");
}

/// The laws are shown in full where that is asked for and, unasked, once a day; where a day has
/// shown them, a reminder stands in their place. Only an unasked full showing is remembered.
pub proof fn the_laws_are_shown_in_full_each_day(stored: Option<Seq<char>>, now_secs: u64)
    ensures
        transcript::planned_banner(FramingMode::Full, stored, now_secs) == (
            Banner::Full,
            None::<Seq<char>>,
        ),
        transcript::planned_banner(FramingMode::Compact, stored, now_secs) == (
            Banner::Compact,
            None::<Seq<char>>,
        ),
        stored is Some && text::trim(stored->0) == text::decimal((now_secs / 86_400) as nat)
            ==> transcript::planned_banner(FramingMode::Auto, stored, now_secs) == (
            Banner::Reminder,
            None::<Seq<char>>,
        ),
        stored is None || text::trim(stored->0) != text::decimal((now_secs / 86_400) as nat)
            ==> transcript::planned_banner(FramingMode::Auto, stored, now_secs) == (
            Banner::Full,
            Some(text::decimal((now_secs / 86_400) as nat)),
        ),
{
}

/// Every banner names the channel, the room that reads, and how many messages are new.
pub proof fn banners_say_what_is_read(
    banner: Banner,
    channel: Seq<char>,
    room: Seq<char>,
    count: nat,
)
    ensures
        text::has_part(transcript::banner_text(banner, channel, room, count), channel),
        text::has_part(transcript::banner_text(banner, channel, room, count), room),
        text::has_part(
            transcript::banner_text(banner, channel, room, count),
            text::decimal(count),
        ),
        banner is Full ==> text::has_suffix(
            transcript::banner_text(banner, channel, room, count),
            transcript::WALL_LAWS@,
        ),
        !(banner is Full) ==> text::has_part(
            transcript::banner_text(banner, channel, room, count),
            transcript::ONE_LINE_LAWS@,
        ),
{
    let n = text::decimal(count);
    if banner is Full {
        let a = transcript::WALL_TOP@ + "Channel: #"@;
        display::put_behind(a, channel);
        let b = a + channel + "   Reading as room: "@;
        display::put_behind(a + channel, "   Reading as room: "@);
        display::put_behind(b, room);
        let c = b + room + "   New messages: "@;
        display::put_behind(b + room, "   New messages: "@);
        display::put_behind(c, n);
        display::put_behind(c + n, "\n"@);
        display::put_behind(c + n + "\n"@, transcript::WALL_LAWS@);
    } else {
        display::put_behind("#"@, channel);
        let a = "#"@ + channel + " · "@;
        display::put_behind("#"@ + channel, " · "@);
        display::put_behind(a, n);
        let b = a + n + " new · reading as "@;
        display::put_behind(a + n, " new · reading as "@);
        display::put_behind(b, room);
        let line = b + room + transcript::ONE_LINE_LAWS@;
        display::put_behind(b + room, transcript::ONE_LINE_LAWS@);
        display::put_behind(line, "(full framing daily)\n"@);
        display::put_behind(line, output::LAW_MULTI@);
        display::put_behind(line + output::LAW_MULTI@, "\n"@);
    }
}

/// A transcript is its banner and its messages, or one line where there are none.
pub proof fn transcripts_are_banner_and_messages(
    banner: Banner,
    channel: Seq<char>,
    room: Seq<char>,
    posts: Seq<ParsedChannelMessage>,
    found: Seq<ParsedChannelMessage>,
    badges: Seq<String>,
)
    ensures
        posts.len() > 0 ==> text::has_prefix(
            transcript::transcript(banner, channel, room, posts, found, badges),
            transcript::banner_text(
                banner,
                output::header_text(channel),
                output::header_text(room),
                posts.len(),
            ),
        ) && text::has_suffix(
            transcript::transcript(banner, channel, room, posts, found, badges),
            transcript::posts_text(posts.len(), posts, found, badges),
        ),
        posts.len() == 0 ==> text::has_prefix(
            transcript::transcript(banner, channel, room, posts, found, badges),
            "no new messages in #"@ + output::header_text(channel),
        ),
{
    let c = output::header_text(channel);
    let r = output::header_text(room);
    display::put_behind(
        transcript::banner_text(banner, c, r, posts.len()),
        transcript::posts_text(posts.len(), posts, found, badges),
    );
    let a = "no new messages in #"@ + c;
    display::put_behind(a, " (reading as "@);
    display::put_behind(a + " (reading as "@, r);
    display::put_behind(a + " (reading as "@ + r, ")\n"@);
}

/// What was passed over is said, with how many there were, and nothing where nothing was.
pub proof fn skips_are_said(channel: Seq<char>, skipped: nat, peek: bool)
    ensures
        skipped == 0 ==> transcript::skip_line(channel, skipped, peek).len() == 0,
        skipped > 0 ==> text::has_prefix(
            transcript::skip_line(channel, skipped, peek),
            "post: skipped "@ + text::decimal(skipped),
        ),
        skipped > 0 && peek ==> text::has_suffix(
            transcript::skip_line(channel, skipped, peek),
            "cursor untouched"@ + ")\n"@,
        ),
        skipped > 0 && !peek ==> text::has_part(
            transcript::skip_line(channel, skipped, peek),
            names::quoted(channel),
        ),
{
    reveal_strlit("");
    let a = "post: skipped "@ + text::decimal(skipped);
    let b = a + " older messages (use --limit 0 for all; "@;
    display::put_behind(a, " older messages (use --limit 0 for all; "@);
    let x = "cursor advances past them; use --limit 0 for all, or `post chat "@;
    let q = names::quoted(channel);
    let end = " --history` to revisit"@;
    if peek {
        display::put_behind(b, "cursor untouched"@);
        display::put_behind(b + "cursor untouched"@, ")\n"@);
        display::put_together(b, "cursor untouched"@, ")\n"@);
        display::put_behind(b, "cursor untouched"@ + ")\n"@);
    } else {
        display::put_behind(b, x + q + end);
        display::put_behind(b + (x + q + end), ")\n"@);
        display::put_together(b, x + q, end);
        display::put_together(b, x, q);
        display::put_behind(b + x, q);
        display::put_behind(b + x + q, end);
    }
}

/// The messages are handed out as they are, each with the verdict on its signature.
pub proof fn messages_are_handed_out_as_they_are(
    items: Seq<ChatMessageItem>,
    posts: Seq<ParsedChannelMessage>,
    verified: Seq<Option<bool>>,
    i: int,
)
    requires
        transcript::items_of(items, posts, verified),
        0 <= i < posts.len(),
    ensures
        items.len() == posts.len(),
        items[i].message == posts[i].message,
        items[i].body == posts[i].body,
        i < verified.len() ==> items[i].signed_verified == verified[i],
        i >= verified.len() ==> items[i].signed_verified is None,
{
}

} // verus!
