//! Channels: shared, append-only histories that rooms join, write to and read.
use crate::context::Context;
use crate::cursor;
use crate::error;
use crate::error::{AppError, AppResult, ErrorCode, MissedChannelMessage};
use crate::ids;
use crate::mail;
use crate::model;
use crate::model::{BlockingRule, ChannelMessage, ParsedChannelMessage};
use crate::names;
use crate::order;
use crate::order::Sortable;
use crate::output;
use crate::output::ChannelListItem;
use crate::outside;
use crate::paths;
use crate::profile::Profile;
use crate::signed;
use crate::text;
use crate::textmap;
use crate::textmap::{MemberMap, RoomMap, TextMap};
use vstd::prelude::*;

verus! {

pub const JOIN_EVENT: &'static str = "join";

pub const PROFILE_EVENT: &'static str = "profile";

/// The longest channel description, in bytes.
pub const MAX_DESCRIPTION_BYTES: usize = 1024;

/// What a channel's own file says about it.
#[derive(Debug)]
pub struct ChannelInfo {
    pub name: String,
    pub created: String,
    pub created_by: String,
    /// The channel's norms, if it has any.
    pub description: Option<String>,
}

pub ghost struct InfoView {
    pub name: Seq<char>,
    pub created: Seq<char>,
    pub created_by: Seq<char>,
    pub description: Option<Seq<char>>,
}

impl View for ChannelInfo {
    type V = InfoView;

    open spec fn view(&self) -> InfoView {
        InfoView {
            name: self.name@,
            created: self.created@,
            created_by: self.created_by@,
            description: text::opt(self.description),
        }
    }
}

/// Where the files of a channel lie.
#[derive(Debug)]
pub struct ChannelPaths {
    pub dir: String,
    pub messages: String,
    pub channel_json: String,
    pub members_json: String,
}

pub open spec fn bad_channel_error(name: Seq<char>, reason: Seq<char>) -> error::ErrorView {
    error::ErrorView::of(
        ErrorCode::InvalidArgument,
        "channel '"@ + name + "' is invalid: "@ + reason,
        "Pass a single path-safe channel name without '/' or '\\'."@,
    ).input(name).reason(reason)
}

/// The error of a channel name, if it is refused.
pub open spec fn channel_name_fault(name: Seq<char>) -> Option<error::ErrorView> {
    match names::room_name_fault(name) {
        Some(reason) => Some(bad_channel_error(name, reason)),
        None => None,
    }
}

pub fn validate_channel_name(value: &str) -> (r: AppResult<()>)
    ensures
        error::failure(r) == channel_name_fault(value@),
{
    match names::validate_room_name(value) {
        Ok(_) => Ok(()),
        Err(reason) => Err(
            AppError::new(
                ErrorCode::InvalidArgument,
                text::cat4("channel '", value, "' is invalid: ", reason.as_str()).as_str(),
                "Pass a single path-safe channel name without '/' or '\\'.",
            ).input(value).reason(reason.as_str()),
        ),
    }
}

/// The directory of a channel.
pub open spec fn channel_dir(root: Seq<char>, channel: Seq<char>) -> Seq<char> {
    paths::join(paths::join(root, "channels"@), channel)
}

impl ChannelPaths {
    pub fn new(context: &Context, channel: &str) -> (r: AppResult<ChannelPaths>)
        ensures
            match r {
                Ok(p) => {
                    let dir = channel_dir(context.root@, channel@);
                    &&& channel_name_fault(channel@) is None
                    &&& p.dir@ == dir
                    &&& p.messages@ == paths::join(dir, "messages"@)
                    &&& p.channel_json@ == paths::join(dir, "channel.json"@)
                    &&& p.members_json@ == paths::join(dir, "members.json"@)
                },
                Err(e) => channel_name_fault(channel@) == Some(e@),
            },
    {
        match validate_channel_name(channel) {
            Ok(_) => {},
            Err(e) => {
                return Err(e);
            },
        }
        let channels = context.file("channels");
        let dir = paths::join_path(channels.as_str(), channel);
        Ok(
            ChannelPaths {
                messages: paths::join_path(dir.as_str(), "messages"),
                channel_json: paths::join_path(dir.as_str(), "channel.json"),
                members_json: paths::join_path(dir.as_str(), "members.json"),
                dir,
            },
        )
    }
}

/// The file name of a channel message.
pub fn message_file_name(id: &str) -> (r: String)
    ensures
        r@ == id@ + ".msg"@,
{
    text::cat2(id, ".msg")
}

// ---------------------------------------------------------------------------
// Messages
// ---------------------------------------------------------------------------
/// The first entry of a list that cannot be a mentioned room.
pub open spec fn bad_mention(mentions: Seq<Seq<char>>) -> Option<Seq<char>>
    decreases mentions.len(),
{
    if mentions.len() == 0 {
        None
    } else if names::has_refused(mentions[0]) || names::room_name_fault(mentions[0]) is Some {
        Some(mentions[0])
    } else {
        bad_mention(mentions.skip(1))
    }
}

/// Why a channel message is refused.
pub open spec fn message_fault(m: model::MessageView) -> Option<Seq<char>> {
    if text::blank(m.id) {
        Some("channel message field 'id' is empty"@)
    } else if text::blank(m.from) {
        Some("channel message field 'from' is empty"@)
    } else if text::blank(m.channel) {
        Some("channel message field 'channel' is empty"@)
    } else if text::blank(m.sent) {
        Some("channel message field 'sent' is empty"@)
    } else if names::component_fault(m.channel) is Some {
        Some(
            "channel message field 'channel' ('"@ + outside::escape_debug_form(m.channel)
                + "') is not a path-safe name: "@ + names::component_fault(m.channel)->0,
        )
    } else if !ids::message_id_shape(m.id) {
        Some(
            "channel message id '"@ + m.id + "' must match YYYYmmdd-HHMMSS-UUUUUU-<6 hex>"@,
        )
    } else if m.event is Some && m.event->0 != "join"@ && m.event->0 != "profile"@ {
        Some(
            "channel message event '"@ + m.event->0
                + "' is unknown; only 'join' and 'profile' exist"@,
        )
    } else if m.display_name is Some && names::has_refused(m.display_name->0) {
        Some(
            "channel message field 'display_name' contains control, bidi, or line-separator characters"@,
        )
    } else if m.pfp is Some && names::has_refused(m.pfp->0) {
        Some("channel message field 'pfp' contains control, bidi, or line-separator characters"@)
    } else if m.re is Some && !ids::message_id_shape(m.re->0) {
        Some(
            "channel message field 're' ('"@ + outside::escape_debug_form(m.re->0)
                + "') must be a canonical channel message id"@,
        )
    } else {
        match bad_mention(m.mentions) {
            Some(name) => Some(
                "channel message mentions entry '"@ + outside::escape_debug_form(name)
                    + "' is not a valid room name"@,
            ),
            None => None,
        }
    }
}

fn find_bad_mention(mentions: &Vec<String>) -> (r: Option<usize>)
    ensures
        match r {
            Some(i) => i < mentions@.len() && bad_mention(text::texts(mentions@)) == Some(
                mentions@[i as int]@,
            ),
            None => bad_mention(text::texts(mentions@)) is None,
        },
{
    let ghost all = text::texts(mentions@);
    assert(all.skip(0) =~= all);
    for i in 0..mentions.len()
        invariant
            all == text::texts(mentions@),
            bad_mention(all) == bad_mention(all.skip(i as int)),
    {
        assert(all.skip(i as int).skip(1) =~= all.skip(i + 1));
        assert(all.skip(i as int)[0] == mentions@[i as int]@);
        let name = mentions[i].as_str();
        if names::contains_refused(name) || names::validate_room_name(name).is_err() {
            return Some(i);
        }
    }
    None
}

pub fn validate_channel_message(path: &str, message: &ChannelMessage) -> (r: AppResult<()>)
    ensures
        error::failure(r) == mail::config_error(path@, message_fault(message@)),
{
    if text::is_blank(message.id.as_str()) {
        return Err(AppError::config(path, "channel message field 'id' is empty"));
    }
    if text::is_blank(message.from.as_str()) {
        return Err(AppError::config(path, "channel message field 'from' is empty"));
    }
    if text::is_blank(message.channel.as_str()) {
        return Err(AppError::config(path, "channel message field 'channel' is empty"));
    }
    if text::is_blank(message.sent.as_str()) {
        return Err(AppError::config(path, "channel message field 'sent' is empty"));
    }
    match names::validate_component(message.channel.as_str()) {
        Ok(_) => {},
        Err(reason) => {
            return Err(
                AppError::config(
                    path,
                    text::cat4(
                        "channel message field 'channel' ('",
                        outside::escape_debug(message.channel.as_str()).as_str(),
                        "') is not a path-safe name: ",
                        reason.as_str(),
                    ).as_str(),
                ),
            );
        },
    }
    if !ids::is_canonical_channel_message_id(message.id.as_str()) {
        return Err(
            AppError::config(
                path,
                text::cat3(
                    "channel message id '",
                    message.id.as_str(),
                    "' must match YYYYmmdd-HHMMSS-UUUUUU-<6 hex>",
                ).as_str(),
            ),
        );
    }
    if let Some(event) = &message.event {
        if !text::same(event.as_str(), "join") && !text::same(event.as_str(), "profile") {
            return Err(
                AppError::config(
                    path,
                    text::cat3(
                        "channel message event '",
                        event.as_str(),
                        "' is unknown; only 'join' and 'profile' exist",
                    ).as_str(),
                ),
            );
        }
    }
    if mail::opt_refused(&message.display_name) {
        return Err(
            AppError::config(
                path,
                "channel message field 'display_name' contains control, bidi, or line-separator characters",
            ),
        );
    }
    if mail::opt_refused(&message.pfp) {
        return Err(
            AppError::config(
                path,
                "channel message field 'pfp' contains control, bidi, or line-separator characters",
            ),
        );
    }
    if let Some(re) = &message.re {
        if !ids::is_canonical_channel_message_id(re.as_str()) {
            return Err(
                AppError::config(
                    path,
                    text::cat3(
                        "channel message field 're' ('",
                        outside::escape_debug(re.as_str()).as_str(),
                        "') must be a canonical channel message id",
                    ).as_str(),
                ),
            );
        }
    }
    match find_bad_mention(&message.mentions) {
        Some(i) => Err(
            AppError::config(
                path,
                text::cat3(
                    "channel message mentions entry '",
                    outside::escape_debug(message.mentions[i].as_str()).as_str(),
                    "' is not a valid room name",
                ).as_str(),
            ),
        ),
        None => Ok(()),
    }
}

/// What a valid message is safe for: its channel is one path-safe name without controls, and
/// what is printed unquoted of it holds nothing that could forge a line.
pub proof fn valid_messages_cannot_forge_lines(m: model::MessageView)
    requires
        message_fault(m) is None,
    ensures
        !text::has_control(m.channel),
        !m.channel.contains('/'),
        ids::message_id_shape(m.id),
        m.display_name is Some ==> !names::has_refused(m.display_name->0),
        m.pfp is Some ==> !names::has_refused(m.pfp->0),
        m.re is Some ==> ids::message_id_shape(m.re->0),
{
}

/// The head and the body of a channel message file, or the error of one without a separator.
pub fn split_channel_message(path: &str, raw: &str) -> (r: AppResult<(String, String)>)
    ensures
        match r {
            Ok(parts) => mail::is_split(raw@, parts.0@, parts.1@),
            Err(e) => !text::has_part(raw@, "\n---\n"@) && e@ == error::ErrorView::config(
                path@,
                "channel message has no '\\n---\\n' separator; restore a valid .msg file or move it aside"@,
            ),
        },
{
    match mail::split_message(raw) {
        Some(parts) => Ok(parts),
        None => Err(
            AppError::config(
                path,
                "channel message has no '\\n---\\n' separator; restore a valid .msg file or move it aside",
            ),
        ),
    }
}

/// The error of a channel message whose head is not JSON of the right shape.
pub fn malformed_message(path: &str, problem: &str) -> (r: AppError)
    ensures
        r@ == error::ErrorView::config(path@, "malformed message JSON: "@ + problem@),
{
    AppError::config(path, text::cat2("malformed message JSON: ", problem).as_str())
}

/// Why a message is refused whose file is not named after its id.
pub open spec fn misnamed_reason(id: Seq<char>) -> Seq<char> {
    "channel message filename must be '"@ + id + ".msg' to match its id"@
}

/// The error of a message whose file is not named after its id.
pub fn misnamed_message(path: &str, id: &str) -> (r: AppError)
    ensures
        r@ == error::ErrorView::config(path@, misnamed_reason(id@)),
{
    AppError::config(
        path,
        text::cat3("channel message filename must be '", id, ".msg' to match its id").as_str(),
    )
}

/// Why a parsed message at a path is refused.
pub open spec fn stored_message_fault(path: Seq<char>, m: model::MessageView) -> Option<Seq<char>> {
    if message_fault(m) is Some {
        message_fault(m)
    } else if !mail::named_after(path, m.id) {
        Some(misnamed_reason(m.id))
    } else {
        None
    }
}

/// Accepts a message whose head has been read from the file at `path`.
pub fn accept_message(path: &str, message: ChannelMessage, body: String) -> (r: AppResult<
    ParsedChannelMessage,
>)
    ensures
        match r {
            Ok(post) => stored_message_fault(path@, message@) is None && post.message == message
                && post.body == body,
            Err(e) => Some(e@) == mail::config_error(path@, stored_message_fault(path@, message@)),
        },
{
    match validate_channel_message(path, &message) {
        Ok(_) => {},
        Err(e) => {
            return Err(e);
        },
    }
    if !mail::is_named_after(path, message.id.as_str()) {
        return Err(misnamed_message(path, message.id.as_str()));
    }
    Ok(ParsedChannelMessage { message, body })
}

// ---------------------------------------------------------------------------
// Mentions
// ---------------------------------------------------------------------------
/// Whether a character continues a word, so that a mention neither starts after it nor ends
/// before it.
pub open spec fn word_char(c: char) -> bool {
    text::is_ascii_alphanumeric(c) || c == '_' || c == '-'
}

fn is_word_char(c: char) -> (r: bool)
    ensures
        r == word_char(c),
{
    text::char_is_ascii_alphanumeric(c) || c == '_' || c == '-'
}

/// Whether a mention may start at a position.
pub open spec fn mention_starts(body: Seq<char>, at: int) -> bool {
    0 <= at < body.len() && body[at] == '@' && (at == 0 || !word_char(body[at - 1]))
}

/// Whether a name stands behind the `@` at a position, and no word goes on after it.
pub open spec fn named_at(body: Seq<char>, at: int, name: Seq<char>) -> bool {
    let end = at + 1 + name.len();
    text::occurs(body, name, at + 1) && (end == body.len() || !word_char(body[end]))
}

/// Whether the `@` at a position mentions a room: the longest registered name that stands
/// there.
pub open spec fn mention_at(
    body: Seq<char>,
    at: int,
    rooms: Seq<Seq<char>>,
    name: Seq<char>,
) -> bool {
    &&& mention_starts(body, at)
    &&& rooms.contains(name)
    &&& named_at(body, at, name)
    &&& forall|i: int|
        0 <= i < rooms.len() && named_at(body, at, #[trigger] rooms[i]) ==> rooms[i].len()
            <= name.len()
}

/// Whether a body mentions a room.
pub open spec fn mentioned(body: Seq<char>, rooms: Seq<Seq<char>>, name: Seq<char>) -> bool {
    exists|at: int| mention_at(body, at, rooms, name)
}

/// One `@` mentions one room at most.
pub proof fn one_mention_per_at(
    body: Seq<char>,
    at: int,
    rooms: Seq<Seq<char>>,
    name: Seq<char>,
    other: Seq<char>,
)
    requires
        mention_at(body, at, rooms, name),
        mention_at(body, at, rooms, other),
    ensures
        name == other,
{
    let i = choose|i: int| 0 <= i < rooms.len() && rooms[i] == name;
    let j = choose|j: int| 0 <= j < rooms.len() && rooms[j] == other;
    assert(named_at(body, at, rooms[i]));
    assert(named_at(body, at, rooms[j]));
    assert(name.len() == other.len());
}

fn is_named_at(body: &Vec<char>, at: usize, name: &str) -> (r: bool)
    requires
        at < body@.len(),
    ensures
        r == named_at(body@, at as int, name@),
{
    let part = text::chars_of(name);
    let total: usize = body.len();
    if !text::occurs_at(body, &part, at + 1) {
        return false;
    }
    let end: usize = at + 1 + part.len();
    end == total || !is_word_char(body[end])
}

/// The registered rooms that a body mentions, in order.
pub fn extract_mentions(body: &str, rooms: &RoomMap) -> (r: Vec<String>)
    ensures
        textmap::increasing(text::texts(r@)),
        forall|name: Seq<char>| #[trigger]
            text::texts(r@).contains(name) <==> mentioned(body@, rooms.keys(), name),
{
    let chars = text::chars_of(body);
    let count: usize = rooms.len();
    let ghost keys = rooms.keys();
    let mut found: TextMap<bool> = TextMap::new();
    for at in 0..chars.len()
        invariant
            chars@ == body@,
            count == keys.len(),
            keys == rooms.keys(),
            forall|name: Seq<char>| #[trigger]
                found@.contains_key(name) <==> exists|p: int|
                    p < at && mention_at(body@, p, keys, name),
    {
        let ghost before = found@;
        let starts: bool = chars[at] == '@' && (at == 0 || !is_word_char(chars[at - 1]));
        let mut best: Option<usize> = None;
        let mut best_len: usize = 0;
        if starts {
            for i in 0..count
                invariant
                    chars@ == body@,
                    at < chars@.len(),
                    count == keys.len(),
                    keys == rooms.keys(),
                    match best {
                        Some(b) => b < i && named_at(body@, at as int, keys[b as int]) && best_len
                            == keys[b as int].len() && forall|k: int|
                            0 <= k < i && named_at(body@, at as int, #[trigger] keys[k])
                                ==> keys[k].len() <= best_len,
                        None => forall|k: int|
                            0 <= k < i ==> !named_at(body@, at as int, #[trigger] keys[k]),
                    },
            {
                let name = rooms.key_at(i);
                if is_named_at(&chars, at, name.as_str()) {
                    let size: usize = name.as_str().unicode_len();
                    let better: bool = match best {
                        Some(_) => size > best_len,
                        None => true,
                    };
                    if better {
                        best = Some(i);
                        best_len = size;
                    }
                }
            }
        }
        match best {
            Some(b) => {
                let name = rooms.key_at(b);
                found.insert(name.as_str(), true);
                proof {
                    assert(keys[b as int] == name@);
                    assert(mention_at(body@, at as int, keys, name@));
                }
                assert forall|n: Seq<char>| #[trigger] found@.contains_key(n) <==> exists|p: int|
                    p < at + 1 && mention_at(body@, p, keys, n) by {
                    if found@.contains_key(n) {
                        if n == name@ {
                            assert(mention_at(body@, at as int, keys, n));
                        } else {
                            assert(before.contains_key(n));
                            let p = choose|p: int| p < at && mention_at(body@, p, keys, n);
                            assert(p < at + 1 && mention_at(body@, p, keys, n));
                        }
                    }
                    if exists|p: int| p < at + 1 && mention_at(body@, p, keys, n) {
                        let p = choose|p: int| p < at + 1 && mention_at(body@, p, keys, n);
                        if p == at {
                            one_mention_per_at(body@, at as int, keys, n, name@);
                        } else {
                            assert(before.contains_key(n));
                        }
                    }
                }
            },
            None => {
                assert forall|n: Seq<char>| #[trigger] found@.contains_key(n) <==> exists|p: int|
                    p < at + 1 && mention_at(body@, p, keys, n) by {
                    assert(!mention_at(body@, at as int, keys, n)) by {
                        if mention_at(body@, at as int, keys, n) {
                            let i = choose|i: int| 0 <= i < keys.len() && keys[i] == n;
                            assert(named_at(body@, at as int, keys[i]));
                        }
                    }
                    if found@.contains_key(n) {
                        let p = choose|p: int| p < at && mention_at(body@, p, keys, n);
                        assert(p < at + 1 && mention_at(body@, p, keys, n));
                    }
                }
            },
        }
    }
    let total: usize = found.len();
    let mut out: Vec<String> = Vec::new();
    for i in 0..total
        invariant
            total == found.keys().len(),
            out@.len() == i,
            forall|k: int| 0 <= k < i ==> #[trigger] out@[k]@ == found.keys()[k],
    {
        out.push(found.key_at(i).clone());
    }
    assert(text::texts(out@) =~= found.keys());
    assert forall|name: Seq<char>| #[trigger] text::texts(out@).contains(name) <==> mentioned(
        body@,
        keys,
        name,
    ) by {
        assert(found@.contains_key(name) <==> found.keys().contains(name));
        if mentioned(body@, keys, name) {
            let at = choose|at: int| mention_at(body@, at, keys, name);
            assert(at < chars@.len() && mention_at(body@, at, keys, name));
        }
    }
    out
}

/// Only registered rooms are mentioned.
pub proof fn mentions_are_registered(body: Seq<char>, rooms: Seq<Seq<char>>, name: Seq<char>)
    requires
        mentioned(body, rooms, name),
    ensures
        rooms.contains(name),
{
}

// ---------------------------------------------------------------------------
// Joining
// ---------------------------------------------------------------------------
pub open spec fn long_description_error(description: Seq<char>) -> error::ErrorView {
    error::ErrorView::of(
        ErrorCode::InvalidArgument,
        "channel description is "@ + text::decimal(text::byte_len(description))
            + " bytes; the maximum is 1024 bytes"@,
        "Keep --description at or below 1024 bytes (same cap as subjects)."@,
    ).input("--description"@).reason("description exceeds 1024-byte safety limit"@)
}

/// The error of a description, if it is refused.
pub open spec fn description_fault(description: Seq<char>) -> Option<error::ErrorView> {
    if text::byte_len(description) <= 1024 {
        None
    } else {
        Some(long_description_error(description))
    }
}

pub fn validate_description(description: &str) -> (r: AppResult<()>)
    ensures
        error::failure(r) == description_fault(description@),
{
    let size: usize = text::byte_count(description);
    if size <= MAX_DESCRIPTION_BYTES {
        return Ok(());
    }
    Err(
        AppError::new(
            ErrorCode::InvalidArgument,
            text::cat3(
                "channel description is ",
                text::decimal_text(size as u64).as_str(),
                " bytes; the maximum is 1024 bytes",
            ).as_str(),
            "Keep --description at or below 1024 bytes (same cap as subjects).",
        ).input("--description").reason("description exceeds 1024-byte safety limit"),
    )
}

/// Decides whether a room that joins is a member already.
pub fn check_join(room: &str, description: Option<&str>, members: &MemberMap) -> (r: AppResult<bool>)
    ensures
        match r {
            Ok(already) => (description is Some ==> description_fault(description->0@) is None)
                && already == members@.contains_key(room@) && already == members.keys().contains(
                room@,
            ),
            Err(e) => description is Some && description_fault(description->0@) == Some(e@),
        },
{
    if let Some(value) = description {
        match validate_description(value) {
            Ok(_) => {},
            Err(e) => {
                return Err(e);
            },
        }
    }
    Ok(members.contains_key(room))
}

/// Whether a rule keeps two rooms from sharing a channel: it closes the route between them,
/// in either direction.
pub open spec fn parts_rooms(rule: model::RuleView, a: Seq<char>, b: Seq<char>) -> bool {
    rule.blocks(a, b) || rule.blocks(b, a)
}

/// The first rule that keeps two rooms from sharing a channel.
pub open spec fn parting_rule(rules: Seq<model::RuleView>, a: Seq<char>, b: Seq<char>) -> Option<
    model::RuleView,
>
    decreases rules.len(),
{
    if rules.len() == 0 {
        None
    } else if parts_rooms(rules[0], a, b) {
        Some(rules[0])
    } else {
        parting_rule(rules.skip(1), a, b)
    }
}

pub open spec fn blocked_join_error(
    channel: Seq<char>,
    room: Seq<char>,
    member: Seq<char>,
    rule: model::RuleView,
) -> error::ErrorView {
    error::ErrorView::of(
        ErrorCode::BlockedRoute,
        "joining '"@ + channel + "' would put '"@ + room + "' and existing member '"@ + member
            + "' in one channel, and that route is blocked: "@ + rule.reason,
        "Do not route around this block. Ask the human operator to review rules.json."@,
    ).input(room + " <-> "@ + member).reason(rule.reason).rule(rule)
}

/// The error of a join, if a rule keeps the room from some member.
pub open spec fn join_fault(
    channel: Seq<char>,
    room: Seq<char>,
    members: Seq<Seq<char>>,
    rules: Seq<model::RuleView>,
) -> Option<error::ErrorView>
    decreases members.len(),
{
    if members.len() == 0 {
        None
    } else {
        match parting_rule(rules, room, members[0]) {
            Some(rule) => Some(blocked_join_error(channel, room, members[0], rule)),
            None => join_fault(channel, room, members.skip(1), rules),
        }
    }
}

fn find_parting_rule(rules: &Vec<BlockingRule>, a: &str, b: &str) -> (r: Option<usize>)
    ensures
        match r {
            Some(i) => i < rules@.len() && parting_rule(model::rules_view(rules@), a@, b@) == Some(
                rules@[i as int]@,
            ),
            None => parting_rule(model::rules_view(rules@), a@, b@) is None,
        },
{
    let ghost all = model::rules_view(rules@);
    assert(all.skip(0) =~= all);
    for i in 0..rules.len()
        invariant
            all == model::rules_view(rules@),
            parting_rule(all, a@, b@) == parting_rule(all.skip(i as int), a@, b@),
    {
        assert(all.skip(i as int).skip(1) =~= all.skip(i + 1));
        assert(all.skip(i as int)[0] == rules@[i as int]@);
        if rules[i].matches_route(a, b) || rules[i].matches_route(b, a) {
            return Some(i);
        }
    }
    None
}

/// Refuses a join that would put two rooms with a closed route into one channel.
pub fn ensure_join_allowed(
    channel: &str,
    room: &str,
    members: &MemberMap,
    rules: &Vec<BlockingRule>,
) -> (r: AppResult<()>)
    ensures
        error::failure(r) == join_fault(channel@, room@, members.keys(), model::rules_view(rules@)),
{
    let count: usize = members.len();
    let ghost keys = members.keys();
    let ghost all = model::rules_view(rules@);
    assert(keys.skip(0) =~= keys);
    for i in 0..count
        invariant
            count == keys.len(),
            keys == members.keys(),
            all == model::rules_view(rules@),
            join_fault(channel@, room@, keys, all) == join_fault(
                channel@,
                room@,
                keys.skip(i as int),
                all,
            ),
    {
        assert(keys.skip(i as int).skip(1) =~= keys.skip(i + 1));
        assert(keys.skip(i as int)[0] == keys[i as int]);
        let member = members.key_at(i).as_str();
        match find_parting_rule(rules, room, member) {
            Some(k) => {
                let rule = &rules[k];
                return Err(
                    AppError::new(
                        ErrorCode::BlockedRoute,
                        text::cat8(
                            "joining '",
                            channel,
                            "' would put '",
                            room,
                            "' and existing member '",
                            member,
                            "' in one channel, and that route is blocked: ",
                            rule.reason.as_str(),
                        ).as_str(),
                        "Do not route around this block. Ask the human operator to review rules.json.",
                    ).input(text::cat3(room, " <-> ", member).as_str()).reason(
                        rule.reason.as_str(),
                    ).rule(rule.clone()),
                );
            },
            None => {},
        }
    }
    Ok(())
}

/// A closed route bars shared membership in both directions: a join is refused exactly if
/// some rule closes the route from the room to a member, or from a member to the room.
pub proof fn blocked_routes_bar_shared_membership(
    channel: Seq<char>,
    room: Seq<char>,
    members: Seq<Seq<char>>,
    rules: Seq<model::RuleView>,
)
    ensures
        join_fault(channel, room, members, rules) is Some <==> exists|i: int, k: int|
            0 <= i < members.len() && 0 <= k < rules.len() && parts_rooms(
                #[trigger] rules[k],
                room,
                #[trigger] members[i],
            ),
    decreases members.len(),
{
    if members.len() > 0 {
        let rest = members.skip(1);
        blocked_routes_bar_shared_membership(channel, room, rest, rules);
        parting_rule_exists(rules, room, members[0]);
        if join_fault(channel, room, rest, rules) is Some {
            let (i, k) = choose|i: int, k: int|
                0 <= i < rest.len() && 0 <= k < rules.len() && parts_rooms(
                    #[trigger] rules[k],
                    room,
                    #[trigger] rest[i],
                );
            assert(members[i + 1] == rest[i]);
        }
        if exists|i: int, k: int|
            0 <= i < members.len() && 0 <= k < rules.len() && parts_rooms(
                #[trigger] rules[k],
                room,
                #[trigger] members[i],
            ) {
            let (i, k) = choose|i: int, k: int|
                0 <= i < members.len() && 0 <= k < rules.len() && parts_rooms(
                    #[trigger] rules[k],
                    room,
                    #[trigger] members[i],
                );
            if i > 0 {
                assert(rest[i - 1] == members[i]);
                assert(parts_rooms(rules[k], room, rest[i - 1]));
            }
        }
    }
}

proof fn parting_rule_exists(rules: Seq<model::RuleView>, a: Seq<char>, b: Seq<char>)
    ensures
        parting_rule(rules, a, b) is Some <==> exists|k: int|
            0 <= k < rules.len() && parts_rooms(#[trigger] rules[k], a, b),
    decreases rules.len(),
{
    if rules.len() > 0 {
        let rest = rules.skip(1);
        parting_rule_exists(rest, a, b);
        if parting_rule(rest, a, b) is Some {
            let k = choose|k: int| 0 <= k < rest.len() && parts_rooms(#[trigger] rest[k], a, b);
            assert(rules[k + 1] == rest[k]);
        }
        if exists|k: int| 0 <= k < rules.len() && parts_rooms(#[trigger] rules[k], a, b) {
            let k = choose|k: int| 0 <= k < rules.len() && parts_rooms(#[trigger] rules[k], a, b);
            if k > 0 {
                assert(rest[k - 1] == rules[k]);
            }
        }
    }
}

/// A description as it is stored: an empty one is none.
pub open spec fn stored_description(description: Seq<char>) -> Option<Seq<char>> {
    if description.len() == 0 {
        None
    } else {
        Some(description)
    }
}

fn stored_description_text(description: &str) -> (r: Option<String>)
    ensures
        text::opt(r) == stored_description(description@),
{
    if description.is_empty() {
        None
    } else {
        Some(description.to_owned())
    }
}

/// What the file of a new channel says.
pub fn new_channel_info(channel: &str, sent: &str, room: &str, description: Option<&str>) -> (r:
    ChannelInfo)
    ensures
        r@ == (InfoView {
            name: channel@,
            created: sent@,
            created_by: room@,
            description: match description {
                Some(d) => stored_description(d@),
                None => None,
            },
        }),
{
    ChannelInfo {
        name: channel.to_owned(),
        created: sent.to_owned(),
        created_by: room.to_owned(),
        description: match description {
            Some(d) => stored_description_text(d),
            None => None,
        },
    }
}

/// A channel's file with another description.
pub fn with_description(info: ChannelInfo, description: &str) -> (r: ChannelInfo)
    ensures
        r@ == (InfoView { description: stored_description(description@), ..info@ }),
{
    ChannelInfo {
        name: info.name,
        created: info.created,
        created_by: info.created_by,
        description: stored_description_text(description),
    }
}

/// The body of the event that records a join.
pub open spec fn join_text(room: Seq<char>) -> Seq<char> {
    "=== "@ + room + " joined ==="@
}

pub fn join_body(room: &str) -> (r: String)
    ensures
        r@ == join_text(room@),
{
    text::cat3("=== ", room, " joined ===")
}

/// What a join prints.
pub fn join_receipt(
    channel: &str,
    room: &str,
    description: Option<&str>,
    created: bool,
    already_member: bool,
) -> (r: String)
    ensures
        r@ == if already_member {
            "post: "@ + room@ + " is already a member of #"@ + channel@ + (match description {
                Some(d) => if d@.len() > 0 {
                    "; updated description\n"@
                } else {
                    "; cleared description\n"@
                },
                None => "\n"@,
            })
        } else if created {
            "post: created #"@ + channel@ + " and joined as "@ + room@ + "\n"@
        } else {
            "post: joined #"@ + channel@ + " as "@ + room@ + "\n"@
        },
{
    if already_member {
        let tail = match description {
            Some(d) => if d.is_empty() {
                "; cleared description\n"
            } else {
                "; updated description\n"
            },
            None => "\n",
        };
        text::cat5("post: ", room, " is already a member of #", channel, tail)
    } else if created {
        text::cat5("post: created #", channel, " and joined as ", room, "\n")
    } else {
        text::cat5("post: joined #", channel, " as ", room, "\n")
    }
}

// ---------------------------------------------------------------------------
// Access
// ---------------------------------------------------------------------------
/// What a room wants of a channel.
#[derive(Debug, Clone, Copy, PartialEq, Eq, Structural)]
pub enum Purpose {
    Read,
    Send,
    SeenBy,
}

pub open spec fn no_channel_error(channel: Seq<char>, purpose: Purpose) -> error::ErrorView {
    error::ErrorView::of(
        ErrorCode::NotFound,
        "channel '"@ + channel + "' does not exist"@,
        "Create it with `post chat "@ + names::quoted(channel) + (if purpose == Purpose::Send {
            " --join`, then retry the send."@
        } else {
            " --join`."@
        }),
    ).input(channel).reason("no channel.json under the channels directory"@)
}

pub open spec fn not_a_member_error(
    channel: Seq<char>,
    room: Seq<char>,
    purpose: Purpose,
) -> error::ErrorView {
    error::ErrorView::of(
        ErrorCode::NotAMember,
        "room '"@ + room + "' is not a member of channel '"@ + channel + "'"@,
        "Join first with `post chat "@ + names::quoted(channel) + (match purpose {
            Purpose::Send => " --join`, then retry the send."@,
            Purpose::Read => " --join`, then retry the read."@,
            Purpose::SeenBy => " --join`."@,
        }),
    ).input(room).reason(
        if purpose == Purpose::Send {
            "sender is absent from members.json"@
        } else {
            "reader is absent from members.json"@
        },
    )
}

/// The error of a room that may not use a channel.
pub open spec fn access_fault(
    channel: Seq<char>,
    room: Seq<char>,
    purpose: Purpose,
    exists_already: bool,
    members: Map<Seq<char>, String>,
) -> Option<error::ErrorView> {
    if !exists_already {
        Some(no_channel_error(channel, purpose))
    } else if !members.contains_key(room) {
        Some(not_a_member_error(channel, room, purpose))
    } else {
        None
    }
}

/// Only the members of a channel may use it.
pub fn check_access(
    channel: &str,
    room: &str,
    purpose: Purpose,
    exists_already: bool,
    members: &MemberMap,
) -> (r: AppResult<()>)
    ensures
        error::failure(r) == access_fault(channel@, room@, purpose, exists_already, members@),
{
    let quoted = names::shell_quote(channel);
    if !exists_already {
        let tail = if purpose == Purpose::Send {
            " --join`, then retry the send."
        } else {
            " --join`."
        };
        return Err(
            AppError::new(
                ErrorCode::NotFound,
                text::cat3("channel '", channel, "' does not exist").as_str(),
                text::cat3("Create it with `post chat ", quoted.as_str(), tail).as_str(),
            ).input(channel).reason("no channel.json under the channels directory"),
        );
    }
    if !members.contains_key(room) {
        let tail = match purpose {
            Purpose::Send => " --join`, then retry the send.",
            Purpose::Read => " --join`, then retry the read.",
            Purpose::SeenBy => " --join`.",
        };
        let reason = if purpose == Purpose::Send {
            "sender is absent from members.json"
        } else {
            "reader is absent from members.json"
        };
        return Err(
            AppError::new(
                ErrorCode::NotAMember,
                text::cat5("room '", room, "' is not a member of channel '", channel, "'").as_str(),
                text::cat3("Join first with `post chat ", quoted.as_str(), tail).as_str(),
            ).input(room).reason(reason),
        );
    }
    Ok(())
}

// ---------------------------------------------------------------------------
// Sending
// ---------------------------------------------------------------------------
pub open spec fn empty_message_error(channel: Seq<char>) -> error::ErrorView {
    error::ErrorView::of(
        ErrorCode::EmptyBody,
        "message body is empty after trimming whitespace"@,
        "Retry with `post chat "@ + names::quoted(channel)
            + " --send --body '<text>'` or a non-empty FILE/stdin."@,
    ).input("message body"@).reason("empty or whitespace-only"@)
}

/// Refuses a blank message.
pub fn check_message_body(channel: &str, body: &str) -> (r: AppResult<()>)
    ensures
        error::failure(r) == if text::blank(body@) {
            Some(empty_message_error(channel@))
        } else {
            None
        },
{
    if text::is_blank(body) {
        return Err(
            AppError::new(
                ErrorCode::EmptyBody,
                "message body is empty after trimming whitespace",
                text::cat3(
                    "Retry with `post chat ",
                    names::shell_quote(channel).as_str(),
                    " --send --body '<text>'` or a non-empty FILE/stdin.",
                ).as_str(),
            ).input("message body").reason("empty or whitespace-only"),
        );
    }
    Ok(())
}

/// Whether a message is conversation that a sender has not read yet: past the sender's
/// cursor, of another room, and no system line.
pub open spec fn crosses(post: model::PostView, cursor: Option<Seq<char>>, room: Seq<char>) -> bool {
    cursor::past(cursor, post.message.id) && post.message.from != room && post.message.event is None
}

/// What a bounced sender is shown of a message.
pub open spec fn missed_of(post: model::PostView) -> error::MissedView {
    error::MissedView {
        id: post.message.id,
        from: post.message.from,
        subject: post.message.subject,
        sent: post.message.sent,
        body: post.body,
    }
}

/// The messages that a send crosses with, oldest first.
pub open spec fn crossing(
    posts: Seq<model::PostView>,
    cursor: Option<Seq<char>>,
    room: Seq<char>,
) -> Seq<error::MissedView> {
    posts.filter(|p: model::PostView| crosses(p, cursor, room)).map_values(
        |p: model::PostView| missed_of(p),
    )
}

/// The last ten of a list.
pub open spec fn last_ten<T>(items: Seq<T>) -> Seq<T> {
    if items.len() > 10 {
        items.skip(items.len() - 10)
    } else {
        items
    }
}

pub open spec fn crossed_send_error(
    channel: Seq<char>,
    missed: Seq<error::MissedView>,
) -> error::ErrorView {
    let shown = last_ten(missed);
    let fix = "post chat "@ + names::quoted(channel)
        + " --send --anyway --body '<revised text>'"@;
    error::ErrorView::of(
        ErrorCode::CrossedSend,
        "channel '"@ + channel + "' has "@ + text::decimal(missed.len())
            + " unread message(s) past your cursor; send was not delivered (showing the last "@
            + text::decimal(shown.len()) + ")"@,
        "Read the missed messages, revise, then retry with `--anyway` to deliver regardless: `"@
            + fix + "`."@,
    ).exact_fix(fix).input(channel).reason("channel tip advanced past sender cursor"@).missed(shown)
}

fn collect_crossing(posts: &Vec<ParsedChannelMessage>, cursor: Option<&str>, room: &str) -> (r: Vec<
    MissedChannelMessage,
>)
    ensures
        error::missed_view(r@) == crossing(
            model::posts_view(posts@),
            text::opt_str(cursor),
            room@,
        ),
{
    let ghost all = model::posts_view(posts@);
    let ghost c = text::opt_str(cursor);
    let ghost f = |p: model::PostView| crosses(p, c, room@);
    let ghost g = |p: model::PostView| missed_of(p);
    let mut out: Vec<MissedChannelMessage> = Vec::new();
    reveal(Seq::filter);
    assert(error::missed_view(out@) =~= all.take(0).filter(f).map_values(g));
    for i in 0..posts.len()
        invariant
            all == model::posts_view(posts@),
            c == text::opt_str(cursor),
            f == (|p: model::PostView| crosses(p, c, room@)),
            g == (|p: model::PostView| missed_of(p)),
            error::missed_view(out@) == all.take(i as int).filter(f).map_values(g),
    {
        reveal(Seq::filter);
        let post = &posts[i];
        let ghost before = error::missed_view(out@);
        assert(all.take(i + 1).drop_last() =~= all.take(i as int));
        assert(all.take(i + 1).last() == post@);
        if cursor::is_past(cursor, post.message.id.as_str()) && !text::same(
            post.message.from.as_str(),
            room,
        ) && post.message.event.is_none() {
            let ghost kept = all.take(i as int).filter(f);
            out.push(
                MissedChannelMessage {
                    id: post.message.id.clone(),
                    from: post.message.from.clone(),
                    subject: post.message.subject.clone(),
                    sent: post.message.sent.clone(),
                    body: post.body.clone(),
                },
            );
            assert(error::missed_view(out@) =~= before.push(missed_of(post@)));
            assert(kept.push(post@).map_values(g) =~= kept.map_values(g).push(missed_of(post@)));
        }
    }
    assert(all.take(all.len() as int) =~= all);
    out
}

/// Bounces a send that crosses with unread messages of others. The posts are those of the
/// channel, in order.
pub fn crossed_send_bounce(
    channel: &str,
    room: &str,
    cursor: Option<&str>,
    posts: &Vec<ParsedChannelMessage>,
) -> (r: AppResult<()>)
    ensures
        error::failure(r) == ({
            let missed = crossing(model::posts_view(posts@), text::opt_str(cursor), room@);
            if missed.len() == 0 {
                None
            } else {
                Some(crossed_send_error(channel@, missed))
            }
        }),
{
    let mut missed = collect_crossing(posts, cursor, room);
    let ghost all = error::missed_view(missed@);
    assert(all.len() == missed@.len());
    if missed.len() == 0 {
        return Ok(());
    }
    let total: usize = missed.len();
    let shown = if total > 10 {
        let tail = missed.split_off(total - 10);
        assert(error::missed_view(tail@) =~= all.skip(all.len() - 10));
        tail
    } else {
        missed
    };
    assert(error::missed_view(shown@) == last_ten(all));
    let fix = text::cat3(
        "post chat ",
        names::shell_quote(channel).as_str(),
        " --send --anyway --body '<revised text>'",
    );
    let count: usize = shown.len();
    assert(count == last_ten(all).len());
    Err(
        AppError::new(
            ErrorCode::CrossedSend,
            text::cat7(
                "channel '",
                channel,
                "' has ",
                text::decimal_text(total as u64).as_str(),
                " unread message(s) past your cursor; send was not delivered (showing the last ",
                text::decimal_text(count as u64).as_str(),
                ")",
            ).as_str(),
            text::cat3(
                "Read the missed messages, revise, then retry with `--anyway` to deliver regardless: `",
                fix.as_str(),
                "`.",
            ).as_str(),
        ).exact_fix(fix.as_str()).input(channel).reason(
            "channel tip advanced past sender cursor",
        ).missed(shown),
    )
}

/// A send bounces exactly if some unread, ordinary message of another room is in the channel.
pub proof fn sends_bounce_on_unread_messages_of_others(
    posts: Seq<model::PostView>,
    cursor: Option<Seq<char>>,
    room: Seq<char>,
)
    ensures
        crossing(posts, cursor, room).len() > 0 <==> exists|i: int|
            0 <= i < posts.len() && crosses(#[trigger] posts[i], cursor, room),
{
    let f = |p: model::PostView| crosses(p, cursor, room);
    if crossing(posts, cursor, room).len() > 0 {
        order::filter_element(posts, f, 0);
        let i = choose|i: int| 0 <= i < posts.len() && posts[i] == posts.filter(f)[0];
        assert(crosses(posts[i], cursor, room));
    }
    if exists|i: int| 0 <= i < posts.len() && crosses(#[trigger] posts[i], cursor, room) {
        let i = choose|i: int| 0 <= i < posts.len() && crosses(#[trigger] posts[i], cursor, room);
        assert(f(posts[i]));
        posts.lemma_filter_contains(f, i);
    }
}

// ---------------------------------------------------------------------------
// Message ids
// ---------------------------------------------------------------------------
/// The ids of a list that start with a prefix.
pub open spec fn ids_with_prefix(all: Seq<Seq<char>>, prefix: Seq<char>) -> Seq<Seq<char>> {
    all.filter(|id: Seq<char>| text::has_prefix(id, prefix))
}

pub open spec fn no_message_error(prefix: Seq<char>) -> error::ErrorView {
    error::ErrorView::of(
        ErrorCode::NotFound,
        "no message in channel matching id/prefix '"@ + prefix + "'"@,
        "Pass a full message id or a unique prefix from `post chat <channel> --history`."@,
    ).input(prefix).reason("no matching message id"@)
}

pub open spec fn ambiguous_message_error(
    prefix: Seq<char>,
    matches: Seq<Seq<char>>,
) -> error::ErrorView {
    error::ErrorView::of(
        ErrorCode::AmbiguousId,
        "message id/prefix '"@ + prefix + "' matches "@ + text::decimal(matches.len())
            + " messages"@,
        "Pass a longer unique prefix."@,
    ).input(prefix).matches(matches).reason("ambiguous message id prefix"@)
}

/// The texts of a list that start with a prefix, in their order.
pub fn with_prefix(all: &Vec<String>, prefix: &str) -> (r: Vec<String>)
    ensures
        text::texts(r@) == ids_with_prefix(text::texts(all@), prefix@),
{
    let ghost every = text::texts(all@);
    let ghost f = |id: Seq<char>| text::has_prefix(id, prefix@);
    let mut out: Vec<String> = Vec::new();
    reveal(Seq::filter);
    assert(text::texts(out@) =~= every.take(0).filter(f));
    for i in 0..all.len()
        invariant
            every == text::texts(all@),
            f == (|id: Seq<char>| text::has_prefix(id, prefix@)),
            text::texts(out@) == every.take(i as int).filter(f),
    {
        reveal(Seq::filter);
        let ghost before = text::texts(out@);
        assert(every.take(i + 1).drop_last() =~= every.take(i as int));
        assert(every.take(i + 1).last() == all@[i as int]@);
        if text::starts_with(all[i].as_str(), prefix) {
            out.push(all[i].clone());
            assert(text::texts(out@) =~= before.push(all@[i as int]@));
        }
    }
    assert(every.take(every.len() as int) =~= every);
    out
}

/// What a prefix stands for among the ids of a channel: the one id that starts with it. Where
/// more than one does, the error lists them in order.
pub open spec fn stands_for(
    all: Seq<Seq<char>>,
    prefix: Seq<char>,
    result: Result<Seq<char>, error::ErrorView>,
) -> bool {
    let found = ids_with_prefix(all, prefix);
    match result {
        Ok(id) => found.len() == 1 && found[0] == id,
        Err(e) => if found.len() == 0 {
            e == no_message_error(prefix)
        } else {
            found.len() > 1 && exists|listed: Seq<Seq<char>>| #[trigger]
                order::texts_sorted(listed) && listed.to_multiset() == found.to_multiset() && e
                    == ambiguous_message_error(prefix, listed)
        },
    }
}

/// The one message id that starts with a prefix, of all ids of a channel.
pub fn resolve_message_id(all: &Vec<String>, prefix: &str) -> (r: AppResult<String>)
    ensures
        stands_for(text::texts(all@), prefix@, error::outcome(r)),
{
    let mut matches = with_prefix(all, prefix);
    let ghost found = ids_with_prefix(text::texts(all@), prefix@);
    assert(found.len() == matches@.len());
    if matches.len() == 0 {
        return Err(
            AppError::new(
                ErrorCode::NotFound,
                text::cat3("no message in channel matching id/prefix '", prefix, "'").as_str(),
                "Pass a full message id or a unique prefix from `post chat <channel> --history`.",
            ).input(prefix).reason("no matching message id"),
        );
    }
    if matches.len() == 1 {
        assert(found[0] == matches@[0]@);
        return Ok(matches.swap_remove(0));
    }
    let listed = order::sort_texts(matches);
    proof {
        vstd::seq_lib::to_multiset_len(text::texts(listed@));
        vstd::seq_lib::to_multiset_len(found);
    }
    let count: usize = listed.len();
    let ghost shown = text::texts(listed@);
    assert(count == shown.len());
    let e = AppError::new(
        ErrorCode::AmbiguousId,
        text::cat5(
            "message id/prefix '",
            prefix,
            "' matches ",
            text::decimal_text(count as u64).as_str(),
            " messages",
        ).as_str(),
        "Pass a longer unique prefix.",
    ).input(prefix).matches(listed).reason("ambiguous message id prefix");
    assert(order::texts_sorted(shown) && shown.to_multiset() == found.to_multiset() && e@
        == ambiguous_message_error(prefix@, shown));
    Err(e)
}

// ---------------------------------------------------------------------------
// Writing
// ---------------------------------------------------------------------------
/// A message that has everything but its id and its time.
#[derive(Debug)]
pub struct MessageDraft {
    pub room: String,
    pub channel: String,
    pub subject: String,
    pub event: Option<String>,
    pub display_name: Option<String>,
    pub pfp: Option<String>,
    pub re: Option<String>,
    pub mentions: Vec<String>,
    pub signature_ref: Option<String>,
}

/// A message that a room asks to send.
#[derive(Debug)]
pub struct MessageRequest {
    pub channel: String,
    pub room: String,
    pub subject: String,
    pub body: String,
    /// Whether it goes out although messages of others are unread.
    pub anyway: bool,
    /// The start of the id that it replies to.
    pub re: Option<String>,
    /// The tag of a detached signature over the body.
    pub signature_ref: Option<String>,
}

/// The largest body that a detached signature may vouch for, in bytes. Nothing lifts it.
pub const MAX_SIGNED_BYTES: usize = 1_048_576;

/// What a message carries to name its detached signature, as JSON.
pub open spec fn locator(tag: Seq<char>) -> Seq<char> {
    "{\"version\":2,\"tag\":\""@ + tag + "\"}"@
}

pub open spec fn bad_tag_error(tag: Seq<char>) -> error::ErrorView {
    error::ErrorView::of(
        ErrorCode::InvalidArgument,
        "signature tag '"@ + tag + "' is invalid"@,
        "Pass the tag of the detached signature: ASCII letters, digits and '-' only."@,
    ).input("--signature-ref"@).reason("malformed signature tag"@)
}

pub open spec fn long_signed_error(bytes: nat) -> error::ErrorView {
    error::ErrorView::of(
        ErrorCode::InvalidArgument,
        "signed message body is "@ + text::decimal(bytes)
            + " bytes; signed messages are limited to 1048576 bytes"@,
        "Shorten the body; --oversize does not lift the signed limit."@,
    ).input("--signature-ref"@).reason("signed message body exceeds 1 MiB"@)
}

/// Why a message cannot be sent under a detached signature.
pub open spec fn signature_fault(tag: Option<Seq<char>>, body: Seq<char>) -> Option<
    error::ErrorView,
> {
    match tag {
        None => None,
        Some(tag) => if !signed::good_tag(tag) {
            Some(bad_tag_error(tag))
        } else if text::byte_len(body) > 1_048_576 {
            Some(long_signed_error(text::byte_len(body)))
        } else {
            None
        },
    }
}

/// Checks the tag and the size of a message that names a detached signature.
pub fn check_signature_ref(tag: Option<&str>, body: &str) -> (r: AppResult<()>)
    ensures
        error::failure(r) == signature_fault(text::opt_str(tag), body@),
{
    match tag {
        None => Ok(()),
        Some(tag) => {
            if !signed::valid_tag(tag) {
                return Err(
                    AppError::new(
                        ErrorCode::InvalidArgument,
                        text::cat3("signature tag '", tag, "' is invalid").as_str(),
                        "Pass the tag of the detached signature: ASCII letters, digits and '-' only.",
                    ).input("--signature-ref").reason("malformed signature tag"),
                );
            }
            let bytes: usize = text::byte_count(body);
            if bytes > MAX_SIGNED_BYTES {
                return Err(
                    AppError::new(
                        ErrorCode::InvalidArgument,
                        text::cat3(
                            "signed message body is ",
                            text::decimal_text(bytes as u64).as_str(),
                            " bytes; signed messages are limited to 1048576 bytes",
                        ).as_str(),
                        "Shorten the body; --oversize does not lift the signed limit.",
                    ).input("--signature-ref").reason("signed message body exceeds 1 MiB"),
                );
            }
            Ok(())
        },
    }
}

/// The ids of some messages.
pub open spec fn post_ids(posts: Seq<model::PostView>) -> Seq<Seq<char>> {
    posts.map_values(|post: model::PostView| post.message.id)
}

fn ids_of(posts: &Vec<ParsedChannelMessage>) -> (r: Vec<String>)
    ensures
        text::texts(r@) == post_ids(model::posts_view(posts@)),
{
    let mut ids: Vec<String> = Vec::new();
    for i in 0..posts.len()
        invariant
            ids@.len() == i,
            forall|k: int| 0 <= k < i ==> (#[trigger] ids@[k])@ == posts@[k].message.id@,
    {
        ids.push(posts[i].message.id.clone());
    }
    assert(text::texts(ids@) =~= post_ids(model::posts_view(posts@)));
    ids
}

/// Why a message is not sent: the room may not use the channel, the body is blank, it cannot
/// be sent under its detached signature, or messages of others are unread.
pub open spec fn message_refusal(
    request: MessageRequest,
    exists_already: bool,
    members: Map<Seq<char>, String>,
    cursor: Option<Seq<char>>,
    posts: Seq<model::PostView>,
) -> Option<error::ErrorView> {
    let channel = request.channel@;
    let missed = crossing(posts, cursor, request.room@);
    if access_fault(channel, request.room@, Purpose::Send, exists_already, members) is Some {
        access_fault(channel, request.room@, Purpose::Send, exists_already, members)
    } else if text::blank(request.body@) {
        Some(empty_message_error(channel))
    } else if signature_fault(text::opt(request.signature_ref), request.body@) is Some {
        signature_fault(text::opt(request.signature_ref), request.body@)
    } else if !request.anyway && missed.len() > 0 {
        Some(crossed_send_error(channel, missed))
    } else {
        None
    }
}

/// Whether a draft is the ordinary message that a request asks for.
pub open spec fn drafts(
    request: MessageRequest,
    ids: Seq<Seq<char>>,
    rooms: Seq<Seq<char>>,
    draft: MessageDraft,
) -> bool {
    &&& draft.room@ == request.room@
    &&& draft.channel@ == request.channel@
    &&& draft.subject@ == request.subject@
    &&& draft.event is None
    &&& draft.display_name is None
    &&& draft.pfp is None
    &&& text::opt(draft.signature_ref) == match text::opt(request.signature_ref) {
        None => None,
        Some(tag) => Some(locator(tag)),
    }
    &&& match text::opt(request.re) {
        None => draft.re is None,
        Some(prefix) => draft.re is Some && stands_for(ids, prefix, Ok(draft.re->0@)),
    }
    &&& textmap::increasing(text::texts(draft.mentions@))
    &&& forall|name: Seq<char>| #[trigger]
        text::texts(draft.mentions@).contains(name) <==> mentioned(request.body@, rooms, name)
}

/// Decides on a message that a room asks to send. The posts are the readable messages of the
/// channel, in order.
pub fn plan_message(
    request: &MessageRequest,
    exists_already: bool,
    members: &MemberMap,
    cursor: Option<&str>,
    posts: &Vec<ParsedChannelMessage>,
    rooms: &RoomMap,
) -> (r: AppResult<MessageDraft>)
    ensures
        ({
            let refusal = message_refusal(
                *request,
                exists_already,
                members@,
                text::opt_str(cursor),
                model::posts_view(posts@),
            );
            let ids = post_ids(model::posts_view(posts@));
            match r {
                Ok(draft) => refusal is None && drafts(*request, ids, rooms.keys(), draft),
                Err(e) => if refusal is Some {
                    refusal == Some(e@)
                } else {
                    request.re is Some && stands_for(ids, request.re->0@, Err(e@))
                },
            }
        }),
{
    let channel = request.channel.as_str();
    let room = request.room.as_str();
    match check_access(channel, room, Purpose::Send, exists_already, members) {
        Ok(_) => {},
        Err(e) => {
            return Err(e);
        },
    }
    match check_message_body(channel, request.body.as_str()) {
        Ok(_) => {},
        Err(e) => {
            return Err(e);
        },
    }
    match check_signature_ref(output::borrowed(&request.signature_ref), request.body.as_str()) {
        Ok(_) => {},
        Err(e) => {
            return Err(e);
        },
    }
    if !request.anyway {
        match crossed_send_bounce(channel, room, cursor, posts) {
            Ok(_) => {},
            Err(e) => {
                return Err(e);
            },
        }
    }
    let re: Option<String> = match &request.re {
        None => None,
        Some(prefix) => match resolve_message_id(&ids_of(posts), prefix.as_str()) {
            Ok(id) => Some(id),
            Err(e) => {
                return Err(e);
            },
        },
    };
    let signature_ref: Option<String> = match &request.signature_ref {
        None => None,
        Some(tag) => Some(text::cat3("{\"version\":2,\"tag\":\"", tag.as_str(), "\"}")),
    };
    Ok(
        MessageDraft {
            room: request.room.clone(),
            channel: request.channel.clone(),
            subject: request.subject.clone(),
            event: None,
            display_name: None,
            pfp: None,
            re,
            mentions: extract_mentions(request.body.as_str(), rooms),
            signature_ref,
        },
    )
}

/// Whether a draft is the record of an event: it says what happened to which room, and
/// nothing else.
pub open spec fn records(
    draft: MessageDraft,
    room: Seq<char>,
    channel: Seq<char>,
    event: Seq<char>,
) -> bool {
    &&& draft.room@ == room
    &&& draft.channel@ == channel
    &&& draft.subject@.len() == 0
    &&& text::opt(draft.event) == Some(event)
    &&& draft.display_name is None
    &&& draft.pfp is None
    &&& draft.re is None
    &&& draft.mentions@.len() == 0
    &&& draft.signature_ref is None
}

/// The record of an event: that a room joined, or that it is called something else now.
pub fn event_draft(room: &str, channel: &str, event: &str) -> (r: MessageDraft)
    ensures
        records(r, room@, channel@, event@),
{
    let subject = String::new();
    MessageDraft {
        room: room.to_owned(),
        channel: channel.to_owned(),
        subject,
        event: Some(event.to_owned()),
        display_name: None,
        pfp: None,
        re: None,
        mentions: Vec::new(),
        signature_ref: None,
    }
}

/// A draft with the profile of its sender, as it stands when the message is sent.
pub fn stamped(draft: MessageDraft, profile: Profile) -> (r: MessageDraft)
    ensures
        r == (MessageDraft { display_name: profile.name, pfp: profile.pfp, ..draft }),
{
    MessageDraft {
        room: draft.room,
        channel: draft.channel,
        subject: draft.subject,
        event: draft.event,
        display_name: profile.name,
        pfp: profile.pfp,
        re: draft.re,
        mentions: draft.mentions,
        signature_ref: draft.signature_ref,
    }
}

/// The message of a draft under an id and a time.
pub open spec fn message_of(draft: MessageDraft, id: Seq<char>, sent: Seq<char>) -> model::MessageView {
    model::MessageView {
        id,
        from: draft.room@,
        channel: draft.channel@,
        subject: draft.subject@,
        sent,
        event: text::opt(draft.event),
        display_name: text::opt(draft.display_name),
        pfp: text::opt(draft.pfp),
        re: text::opt(draft.re),
        mentions: text::texts(draft.mentions@),
        signature_ref: text::opt(draft.signature_ref),
    }
}

/// Where the writing of a message stands, and so what it needs next.
#[derive(Debug)]
pub enum Posting {
    /// A fresh id and the time.
    NeedId { attempt: u64 },
    /// The message, written under a name that must not exist yet.
    Write { attempt: u64, message: ChannelMessage },
    /// Nothing: the message is in the channel.
    Posted { message: ChannelMessage },
    /// Nothing: the message could not be written.
    Failed { error: AppError },
}

pub ghost enum PostingView {
    NeedId { attempt: int },
    Write { attempt: int, message: model::MessageView },
    Posted { message: model::MessageView },
    Failed { error: error::ErrorView },
}

impl View for Posting {
    type V = PostingView;

    open spec fn view(&self) -> PostingView {
        match self {
            Posting::NeedId { attempt } => PostingView::NeedId { attempt: *attempt as int },
            Posting::Write { attempt, message } => PostingView::Write {
                attempt: *attempt as int,
                message: message@,
            },
            Posting::Posted { message } => PostingView::Posted { message: message@ },
            Posting::Failed { error } => PostingView::Failed { error: error@ },
        }
    }
}

/// The outcome of one step of work.
#[derive(Debug)]
pub enum PostingEvent {
    /// A fresh id, and the time as it is shown.
    Id { id: String, sent: String },
    /// The file was written.
    Written,
    /// A file of that name was there already; nothing was written.
    Exists,
    /// The file at a path could not be written.
    WriteFailed { path: String, problem: String },
}

pub ghost enum PostingEventView {
    Id { id: Seq<char>, sent: Seq<char> },
    Written,
    Exists,
    WriteFailed { path: Seq<char>, problem: Seq<char> },
}

impl View for PostingEvent {
    type V = PostingEventView;

    open spec fn view(&self) -> PostingEventView {
        match self {
            PostingEvent::Id { id, sent } => PostingEventView::Id { id: id@, sent: sent@ },
            PostingEvent::Written => PostingEventView::Written,
            PostingEvent::Exists => PostingEventView::Exists,
            PostingEvent::WriteFailed { path, problem } => PostingEventView::WriteFailed {
                path: path@,
                problem: problem@,
            },
        }
    }
}

pub open spec fn no_free_message_id_error() -> error::ErrorView {
    error::ErrorView::of(
        ErrorCode::IoError,
        "could not allocate a unique channel message id after 256 attempts"@,
        "Retry the same command; if this repeats, run `post doctor`."@,
    )
}

/// The state that follows an outcome. An outcome of work that was not asked for changes
/// nothing.
pub open spec fn next(draft: MessageDraft, state: PostingView, event: PostingEventView) -> PostingView {
    match (state, event) {
        (PostingView::NeedId { attempt }, PostingEventView::Id { id, sent }) => {
            let message = message_of(draft, id, sent);
            match message_fault(message) {
                Some(reason) => PostingView::Failed {
                    error: error::ErrorView::config("<generated message>"@, reason),
                },
                None => PostingView::Write { attempt, message },
            }
        },
        (PostingView::Write { attempt, message }, PostingEventView::Written) => {
            PostingView::Posted { message }
        },
        (PostingView::Write { attempt, message }, PostingEventView::Exists) => {
            if attempt + 1 < 256 {
                PostingView::NeedId { attempt: attempt + 1 }
            } else {
                PostingView::Failed { error: no_free_message_id_error() }
            }
        },
        (
            PostingView::Write { attempt, message },
            PostingEventView::WriteFailed { path, problem },
        ) => {
            PostingView::Failed {
                error: error::ErrorView::io("exclusively write channel message"@, path, problem),
            }
        },
        _ => state,
    }
}

impl MessageDraft {
    pub fn message(&self, id: &str, sent: &str) -> (r: ChannelMessage)
        ensures
            r@ == message_of(*self, id@, sent@),
            r.id@ == id@,
            r.from@ == self.room@,
            r.channel@ == self.channel@,
            r.subject@ == self.subject@,
            r.sent@ == sent@,
            text::opt(r.event) == text::opt(self.event),
            text::opt(r.display_name) == text::opt(self.display_name),
            text::opt(r.pfp) == text::opt(self.pfp),
            text::opt(r.re) == text::opt(self.re),
            text::texts(r.mentions@) == text::texts(self.mentions@),
            text::opt(r.signature_ref) == text::opt(self.signature_ref),
    {
        ChannelMessage {
            id: id.to_owned(),
            from: self.room.clone(),
            channel: self.channel.clone(),
            subject: self.subject.clone(),
            sent: sent.to_owned(),
            event: text::opt_clone(&self.event),
            display_name: text::opt_clone(&self.display_name),
            pfp: text::opt_clone(&self.pfp),
            re: text::opt_clone(&self.re),
            mentions: text::texts_clone(&self.mentions),
            signature_ref: text::opt_clone(&self.signature_ref),
        }
    }
}

impl Posting {
    /// A message that is not written yet.
    pub fn start() -> (r: Posting)
        ensures
            r@ == (PostingView::NeedId { attempt: 0 }),
    {
        Posting::NeedId { attempt: 0 }
    }

    /// The state after an outcome.
    pub fn step(self, draft: &MessageDraft, event: PostingEvent) -> (r: Posting)
        ensures
            r@ == next(*draft, self@, event@),
    {
        match (self, event) {
            (Posting::NeedId { attempt }, PostingEvent::Id { id, sent }) => {
                let message = draft.message(id.as_str(), sent.as_str());
                match validate_channel_message("<generated message>", &message) {
                    Ok(_) => Posting::Write { attempt, message },
                    Err(error) => Posting::Failed { error },
                }
            },
            (Posting::Write { attempt: _, message }, PostingEvent::Written) => Posting::Posted {
                message,
            },
            (Posting::Write { attempt, message: _ }, PostingEvent::Exists) => {
                if attempt < 255 {
                    Posting::NeedId { attempt: attempt + 1 }
                } else {
                    Posting::Failed {
                        error: AppError::new(
                            ErrorCode::IoError,
                            "could not allocate a unique channel message id after 256 attempts",
                            "Retry the same command; if this repeats, run `post doctor`.",
                        ),
                    }
                }
            },
            (
                Posting::Write { attempt: _, message: _ },
                PostingEvent::WriteFailed { path, problem },
            ) => Posting::Failed {
                error: AppError::io(
                    "exclusively write channel message",
                    path.as_str(),
                    problem.as_str(),
                ),
            },
            (state, _) => state,
        }
    }
}

/// The state after a whole run of outcomes.
pub open spec fn run(draft: MessageDraft, state: PostingView, events: Seq<PostingEventView>) -> PostingView
    decreases events.len(),
{
    if events.len() == 0 {
        state
    } else {
        next(draft, run(draft, state, events.drop_last()), events.last())
    }
}

/// What holds of every state of the writing of a message.
pub open spec fn sound(draft: MessageDraft, state: PostingView) -> bool {
    let ours = |m: model::MessageView|
        m == message_of(draft, m.id, m.sent) && message_fault(m) is None;
    match state {
        PostingView::NeedId { attempt } => 0 <= attempt < 256,
        PostingView::Write { attempt, message } => 0 <= attempt < 256 && ours(message),
        PostingView::Posted { message } => ours(message),
        PostingView::Failed { error } => true,
    }
}

/// Only valid messages enter a channel, whatever the store answers: what is posted is the
/// draft under a canonical id, and its own sender wrote it.
pub proof fn only_valid_messages_are_posted(draft: MessageDraft, events: Seq<PostingEventView>)
    ensures
        sound(draft, run(draft, PostingView::NeedId { attempt: 0 }, events)),
        run(draft, PostingView::NeedId { attempt: 0 }, events) is Posted ==> {
            let message = run(draft, PostingView::NeedId { attempt: 0 }, events)->Posted_message;
            ids::message_id_shape(message.id) && message.from == draft.room@
        },
    decreases events.len(),
{
    if events.len() > 0 {
        only_valid_messages_are_posted(draft, events.drop_last());
    }
}

// ---------------------------------------------------------------------------
// Listing
// ---------------------------------------------------------------------------
/// Channels are listed by name.
impl Sortable for ChannelListItem {
    open spec fn at_most(self, other: Self) -> bool {
        text::le(self.name@, other.name@)
    }

    proof fn at_most_total(a: Self, b: Self) {
        text::lt_total(a.name@, b.name@);
    }

    proof fn at_most_transitive(a: Self, b: Self, c: Self) {
        if a.name@ != b.name@ && b.name@ != c.name@ {
            text::lt_transitive(a.name@, b.name@, c.name@);
        }
    }

    fn is_at_most(&self, other: &Self) -> (r: bool) {
        text::less_or_same(self.name.as_str(), other.name.as_str())
    }
}

/// A channel in a listing.
pub fn list_item(info: ChannelInfo, members: &MemberMap, messages: usize) -> (r: ChannelListItem)
    ensures
        r.name == info.name,
        r.created == info.created,
        r.created_by == info.created_by,
        r.description == info.description,
        text::texts(r.members@) == members.keys(),
        r.messages == messages,
{
    let count: usize = members.len();
    let mut list: Vec<String> = Vec::new();
    for i in 0..count
        invariant
            count == members.keys().len(),
            list@.len() == i,
            forall|k: int| 0 <= k < i ==> #[trigger] list@[k]@ == members.keys()[k],
    {
        list.push(members.key_at(i).clone());
    }
    assert(text::texts(list@) =~= members.keys());
    ChannelListItem {
        name: info.name,
        created: info.created,
        created_by: info.created_by,
        description: info.description,
        members: list,
        messages,
    }
}

/// The channels in the order of their names.
pub fn sort_channels(channels: Vec<ChannelListItem>) -> (r: Vec<ChannelListItem>)
    ensures
        order::stable_sort_of(channels@, r@),
{
    order::sort(channels)
}

/// The names of the channels that a room belongs to.
pub open spec fn channels_with(items: Seq<ChannelListItem>, room: Seq<char>) -> Seq<Seq<char>>
    decreases items.len(),
{
    if items.len() == 0 {
        seq![]
    } else {
        let before = channels_with(items.drop_last(), room);
        if text::texts(items.last().members@).contains(room) {
            before.push(items.last().name@)
        } else {
            before
        }
    }
}

/// The channels that a change of a room's profile is announced in.
pub fn channels_of(items: &Vec<ChannelListItem>, room: &str) -> (r: Vec<String>)
    ensures
        text::texts(r@) == channels_with(items@, room@),
{
    let mut out: Vec<String> = Vec::new();
    assert(text::texts(out@) =~= channels_with(items@.take(0), room@));
    for i in 0..items.len()
        invariant
            text::texts(out@) == channels_with(items@.take(i as int), room@),
    {
        let ghost before = text::texts(out@);
        assert(items@.take(i + 1).drop_last() =~= items@.take(i as int));
        if text::list_has(&items[i].members, room) {
            out.push(items[i].name.clone());
            assert(text::texts(out@) =~= before.push(items@[i as int].name@));
        }
    }
    assert(items@.take(items@.len() as int) =~= items@);
    out
}

/// A channel of the listing, as text.
pub open spec fn channel_lines(item: ChannelListItem) -> Seq<char> {
    "#"@ + output::header_text(item.name@) + "  ("@ + text::decimal(item.members@.len())
        + " members, "@ + text::decimal(item.messages as nat) + " messages, by "@
        + output::header_text(item.created_by@) + ")\n"@ + (match item.description {
        Some(d) => "  "@ + output::header_text(d@) + "\n"@,
        None => ""@,
    })
}

/// A channel of the listing takes one line, and one more for its description.
pub proof fn channels_take_a_line_each(item: ChannelListItem)
    ensures
        item.description is None ==> text::one_line(channel_lines(item)),
        item.description is Some ==> exists|head: Seq<char>, tail: Seq<char>|
            text::one_line(head) && text::one_line(tail) && channel_lines(item)
                == #[trigger] (head + tail),
{
    assert(text::unbroken("#"@) && text::unbroken("  ("@) && text::unbroken(" members, "@)
        && text::unbroken(" messages, by "@) && text::unbroken(")"@) && text::unbroken("  "@)
        && ")\n"@ =~= ")"@ + "\n"@ && ""@.len() == 0) by {
        reveal_strlit("#");
        reveal_strlit("  (");
        reveal_strlit(" members, ");
        reveal_strlit(" messages, by ");
        reveal_strlit(")");
        reveal_strlit("  ");
        reveal_strlit(")\n");
        reveal_strlit("\n");
        reveal_strlit("");
    }
    let name = output::header_text(item.name@);
    let by = output::header_text(item.created_by@);
    let members = text::decimal(item.members@.len());
    let count = text::decimal(item.messages as nat);
    output::header_text_is_one_line(item.name@);
    output::header_text_is_one_line(item.created_by@);
    text::decimals_are_unbroken(item.members@.len());
    text::decimals_are_unbroken(item.messages as nat);
    let one = "#"@ + name;
    let two = one + "  ("@ + members;
    let three = two + " members, "@ + count;
    let four = three + " messages, by "@ + by;
    text::unbroken_sum("#"@, name);
    text::unbroken_sum(one, "  ("@);
    text::unbroken_sum(one + "  ("@, members);
    text::unbroken_sum(two, " members, "@);
    text::unbroken_sum(two + " members, "@, count);
    text::unbroken_sum(three, " messages, by "@);
    text::unbroken_sum(three + " messages, by "@, by);
    text::unbroken_sum(four, ")"@);
    text::unbroken_line(four + ")"@);
    let head = four + ")\n"@;
    assert(head =~= four + ")"@ + "\n"@);
    match item.description {
        None => {
            assert(channel_lines(item) =~= head);
        },
        Some(d) => {
            output::header_text_is_one_line(d@);
            text::unbroken_sum("  "@, output::header_text(d@));
            text::unbroken_line("  "@ + output::header_text(d@));
            let tail = "  "@ + output::header_text(d@) + "\n"@;
            assert(channel_lines(item) =~= head + tail);
        },
    }
}

/// The lines of some channels.
pub open spec fn listing_lines(items: Seq<ChannelListItem>) -> Seq<char>
    decreases items.len(),
{
    if items.len() == 0 {
        ""@
    } else {
        listing_lines(items.drop_last()) + channel_lines(items.last())
    }
}

/// The listing of the channels as text.
pub fn channels_text(items: &Vec<ChannelListItem>) -> (r: String)
    ensures
        r@ == if items@.len() == 0 {
            "post: no channels\n"@
        } else {
            listing_lines(items@)
        },
{
    if items.len() == 0 {
        return "post: no channels\n".to_owned();
    }
    let mut out = "".to_owned();
    assert(listing_lines(items@.take(0)) == ""@);
    for i in 0..items.len()
        invariant
            out@ == listing_lines(items@.take(i as int)),
    {
        let item = &items[i];
        assert(items@.take(i + 1).drop_last() =~= items@.take(i as int));
        let description = match &item.description {
            Some(d) => text::cat3("  ", output::sanitize_text_header(d.as_str()).as_str(), "\n"),
            None => "".to_owned(),
        };
        let mut line = text::cat9(
            "#",
            output::sanitize_text_header(item.name.as_str()).as_str(),
            "  (",
            text::decimal_text(item.members.len() as u64).as_str(),
            " members, ",
            text::decimal_text(item.messages as u64).as_str(),
            " messages, by ",
            output::sanitize_text_header(item.created_by.as_str()).as_str(),
            ")\n",
        );
        line.append(description.as_str());
        out.append(line.as_str());
    }
    assert(items@.take(items@.len() as int) =~= items@);
    out
}

} // verus!
