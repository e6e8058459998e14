//! The machine-readable contract of the command line.
use crate::error::ErrorCode;
use crate::error;
use crate::output;
use crate::output::{
    CommandSchema, ErrorSchema, ExitSchema, OutputShapes, OwnerSchema, SchemaOutput,
};
use crate::text;
use vstd::prelude::*;

verus! {

pub const SEND_USAGE: &'static str =
    "post send --to <room> [--from <name>] [--kind letter|note|signal] [--subject <s>] [--oversize] (--body <text> | --body-file <path> | stdin)";

pub const SEND_EFFECTS: &'static str =
    "atomically writes <room>/inbox/<id>.mail then archive/<id>.mail; subjects over 1 KiB fail, the three body forms are mutually exclusive alternatives, omitting all of them reads stdin, and bodies over 32 KiB require --oversize";

pub const CHAT_USAGE: &'static str =
    "post chat <channel> [--peek | --limit <n> | --history <n> [--grep <pat>] | --since <id>] [--framing auto|full|compact] | post chat <channel> --discard | post chat <channel> --discard-through <id> | post chat <channel> --seen-by <id> | post chat <channel> --join [--description <text>] | post chat <channel> --send [--anyway] [--re <id>] [--subject <s>] [--oversize] (--body <text> | --body-file <path> | stdin)";

pub const CHAT_EFFECTS: &'static str =
    "--join creates the channel on first join and records the join as an event in history; --description (with --join) sets/updates the channel norms carrier (any member, cap 1 KiB); --send atomically writes channels/<name>/messages/<id>.msg, rejects subjects over 1 KiB, implies from --body/--body-file, requires --oversize above 32 KiB, stamps @mentions of registered rooms and optional --re parent id, and by default bounces with crossed_send when unread messages from others sit past the sender cursor (--anyway overrides); a plain read defaults to the newest 25 unread (reports skipped older; --limit 0 = all; @mentions of the reader in the skipped range are never silently dropped) and advances the reader's own cursor only after a successful emit; --peek never advances; --discard advances without emitting bodies; --discard-through <id> advances the cursor exactly through one message (full id or a prefix unique in that channel), refuses when an unreadable message sits between the cursor and the target, is replay-safe (a target at or behind the cursor succeeds with advanced=false and an unchanged cursor), and reports prior_cursor and cursor; --seen-by lists members whose cursors passed an id (read-only); --history/--since are cursorless; --grep filters --history by case-insensitive regex; a cursor-advancing read into /dev/null is refused; the full framing banner renders once per room per day; --framing (body-returning reads only, rejected on --send/--join/--discard/--discard-through/--seen-by) selects auto (default: legacy once-daily wall on text, full laws elsewhere), full (the complete wall every invocation), or compact (condensed laws in one line); explicit full and compact are stateless per-invocation and never consult or stamp the banner-day state, JSON framing source/authority are unchanged in every mode, and there is no none mode; channel messages from the OWNER room whose first line matches the signed-wire grammar <marker>🔏 <text> [signed:TS] are verified against the resolved owner's sidecar — see the schema `owner` block for sigs/ + allowed_signers (legacy fallback: a registered 'trey' room, sidecar at its registered path like ~/.trey-room); signed-v2: --signature-ref <tag> stamps the envelope locator {\"version\":2,\"tag\":<tag>} for detached-manifest verification of the raw body (multiline/arbitrary text; ≤1 MiB final body, a protocol cap --oversize does NOT lift; the locator is metadata, never a verdict — owner v2 messages verify at read against <sidecar>/sigs/<tag>.txt binding tag+channel+bytes+sha256, and any malformed owner locator fails loudly)";

pub const CHANNELS_USAGE: &'static str =
    "post channels [--text]";

pub const CHANNELS_EFFECTS: &'static str =
    "read-only listing of channels, members, message counts, and descriptions";

pub const INBOX_USAGE: &'static str =
    "post inbox [--room <name>] [--text]";

pub const INBOX_EFFECTS: &'static str =
    "creates missing mailbox inbox/read directories; does not alter mail";

pub const READ_USAGE: &'static str =
    "post read <id-or-prefix> [--room <name>] [--peek] [--framing auto|full|compact]";

pub const READ_EFFECTS: &'static str =
    "moves inbox mail to read unless --peek; --framing compact swaps the multi-line banner for the condensed one-sentence laws (stateless, explicit per invocation, no none mode; auto is the default and equals full on direct reads; JSON framing source/authority unchanged); a prefix matching no unread mail falls back to the room's read store and then to archive copies addressed to that room, served with already_read=true and consuming nothing";

pub const ROOMS_USAGE: &'static str =
    "post rooms [add <name> <path>]";

pub const ROOMS_EFFECTS: &'static str =
    "listing is read-only; add locks, validates, and atomically updates rooms.json without editing rules.json";

pub const PROFILE_USAGE: &'static str =
    "post profile [show [<room>]] | post profile set [--name <name>] [--pfp <emoji>] | post profile clear";

pub const PROFILE_EFFECTS: &'static str =
    "presentation only — display name and pfp never affect identity, auth, routing, blocks, cursors, or signed-message verification, and every render path keeps the immutable (room-id) suffix visible; set/clear act on the cwd-resolved registered room and atomically update profiles.json under the rooms lock; names are <=32 chars, refuse control/bidi/line-separator characters, and may not imitate the signed owner's room id (legacy fallback reserves 'trey'; feature-absent reserves nothing) or another room id (NFKC skeleton check); pfp is exactly one emoji grapheme, unique across rooms; profiles are stamped into envelopes at send time (renames never rewrite history) after re-validation, so hand-edited registry values and unregistered --from senders never stamp (set also drops, with a warning, a preserved stored field that no longer validates); a name, pfp, or clear change announces itself as a 'profile' event in every channel the room belongs to, with the channel list resolved before the registry commit so a listing failure fails pre-commit";

pub const OWNER_USAGE: &'static str =
    "post owner init --room <name> [--marker <glyph>] [--label <text>] [--sidecar-dir <abs>] [--allowed-signers <abs>] [--principal <principal>] [--namespace <namespace>] | post owner show";

pub const OWNER_EFFECTS: &'static str =
    "declares or prints the signed owner, the trust anchor whose channel messages carry verification badges; init is create-only and atomic — an identical existing owner.json is an idempotent success, a different or malformed one is config_invalid (differing fields in details.reason), a symlinked owner.json is refused, and nothing is ever replaced or repaired; every explicit value and the room registration are validated under the rooms lock, then <sidecar>/sigs/ is created; show resolves the feature states configured|legacy|none (no owner.json + a registered 'trey' room synthesizes the pre-A0a owner; neither = none; a malformed owner.json is config_invalid, never a partial render); post only verifies with ssh-keygen against allowed_signers — post never generates keys, porch signs";

pub const SCHEMA_USAGE: &'static str =
    "post schema";

pub const SCHEMA_EFFECTS: &'static str =
    "none after first-run initialization";

pub const DOCTOR_USAGE: &'static str =
    "post doctor [--fix]";

pub const DOCTOR_EFFECTS: &'static str =
    "read-only unless --fix; --fix only creates missing directories/defaults";

pub const WATCH_USAGE: &'static str =
    "post watch [--room <name>]... [--once | --snapshot [--limit <n>]] [--interval-ms <ms>] [--text]";

pub const WATCH_EFFECTS: &'static str =
    "creates missing mailbox inbox/read directories for registered rooms; a multi-room watch merges direct mail and deduplicates channel messages in one stream; reads envelopes only — never moves or alters mail, never emits body content, never advances channel cursors; each long-running poll touches <room>/watch.heartbeat for presence (snapshot never does); events carry reason mail|channel|mention on every type (unreadable: mail|channel); --snapshot scans exactly once and exits 0 (empty scan emits nothing; direct-mail scan failure is a nonzero error, never a false empty; an unregistered room warns on stderr, scans nothing, and creates no directories); snapshot-only --limit <n> emits the last n events in scan order and warns when earlier events are omitted, while --limit 0 is unlimited";

pub const WHO_USAGE: &'static str =
    "post who [--room <name>]... [--text]";

pub const WHO_EFFECTS: &'static str =
    "read-only presence: for each registered room, whether a watch heartbeat is live and the last-seen stamp; never reports PIDs or process info";

/// A command of the contract.
pub ghost struct CommandView {
    pub name: Seq<char>,
    pub usage: Seq<char>,
    pub default_output: Seq<char>,
    pub side_effects: Seq<char>,
}

pub open spec fn commands_view(commands: Seq<CommandSchema>) -> Seq<CommandView> {
    commands.map_values(
        |c: CommandSchema|
            CommandView {
                name: c.name@,
                usage: c.usage@,
                default_output: c.default_output@,
                side_effects: c.side_effects@,
            },
    )
}

pub open spec fn command_row(
    name: Seq<char>,
    usage: Seq<char>,
    default_output: Seq<char>,
    side_effects: Seq<char>,
) -> CommandView {
    CommandView { name, usage, default_output, side_effects }
}

/// The commands of the contract.
pub open spec fn command_rows() -> Seq<CommandView> {
    seq![
        command_row("send"@, SEND_USAGE@, "text; JSON with --json"@, SEND_EFFECTS@),
        command_row("chat"@, CHAT_USAGE@, "framed text; JSON with --json"@, CHAT_EFFECTS@),
        command_row("channels"@, CHANNELS_USAGE@, "JSON; text with --text"@, CHANNELS_EFFECTS@),
        command_row("inbox"@, INBOX_USAGE@, "JSON; text with --text"@, INBOX_EFFECTS@),
        command_row("read"@, READ_USAGE@, "framed text; JSON with --json"@, READ_EFFECTS@),
        command_row("rooms"@, ROOMS_USAGE@, "JSON"@, ROOMS_EFFECTS@),
        command_row("profile"@, PROFILE_USAGE@, "JSON"@, PROFILE_EFFECTS@),
        command_row("owner"@, OWNER_USAGE@, "JSON"@, OWNER_EFFECTS@),
        command_row("schema"@, SCHEMA_USAGE@, "JSON"@, SCHEMA_EFFECTS@),
        command_row("doctor"@, DOCTOR_USAGE@, "JSON"@, DOCTOR_EFFECTS@),
        command_row("watch"@, WATCH_USAGE@, "NDJSON event union (mail | unreadable | channel_message), one per line; text with --text"@, WATCH_EFFECTS@),
        command_row("who"@, WHO_USAGE@, "JSON; text with --text"@, WHO_EFFECTS@),
    ]
}

fn command(name: &str, usage: &str, default_output: &str, side_effects: &str) -> (r: CommandSchema)
    ensures
        r.name@ == name@,
        r.usage@ == usage@,
        r.default_output@ == default_output@,
        r.side_effects@ == side_effects@,
{
    CommandSchema {
        name: name.to_owned(),
        usage: usage.to_owned(),
        default_output: default_output.to_owned(),
        side_effects: side_effects.to_owned(),
    }
}

/// The commands of the contract.
pub fn commands() -> (r: Vec<CommandSchema>)
    ensures
        commands_view(r@) == command_rows(),
{
    let list = vec![
        command("send", SEND_USAGE, "text; JSON with --json", SEND_EFFECTS),
        command("chat", CHAT_USAGE, "framed text; JSON with --json", CHAT_EFFECTS),
        command("channels", CHANNELS_USAGE, "JSON; text with --text", CHANNELS_EFFECTS),
        command("inbox", INBOX_USAGE, "JSON; text with --text", INBOX_EFFECTS),
        command("read", READ_USAGE, "framed text; JSON with --json", READ_EFFECTS),
        command("rooms", ROOMS_USAGE, "JSON", ROOMS_EFFECTS),
        command("profile", PROFILE_USAGE, "JSON", PROFILE_EFFECTS),
        command("owner", OWNER_USAGE, "JSON", OWNER_EFFECTS),
        command("schema", SCHEMA_USAGE, "JSON", SCHEMA_EFFECTS),
        command("doctor", DOCTOR_USAGE, "JSON", DOCTOR_EFFECTS),
        command("watch", WATCH_USAGE, "NDJSON event union (mail | unreadable | channel_message), one per line; text with --text", WATCH_EFFECTS),
        command("who", WHO_USAGE, "JSON; text with --text", WHO_EFFECTS),
    ];
    assert(commands_view(list@) =~= command_rows());
    list
}

// ---------------------------------------------------------------------------
// Shapes
// ---------------------------------------------------------------------------
/// The fields of the `doctor` output.
pub open spec fn doctor_shape_spec() -> Seq<Seq<char>> {
    seq![
        "ok"@,
        "status"@,
        "root"@,
        "checks"@,
        "count"@,
        "fixed"@,
        "exit_codes"@,
    ]
}

fn doctor_shape() -> (r: Vec<String>)
    ensures
        text::texts(r@) == doctor_shape_spec(),
{
    let list = vec![
        "ok".to_owned(),
        "status".to_owned(),
        "root".to_owned(),
        "checks".to_owned(),
        "count".to_owned(),
        "fixed".to_owned(),
        "exit_codes".to_owned(),
    ];
    assert(text::texts(list@) =~= doctor_shape_spec());
    list
}

/// The fields of the `inbox` output.
pub open spec fn inbox_shape_spec() -> Seq<Seq<char>> {
    seq![
        "ok"@,
        "room"@,
        "unread"@,
        "count"@,
        "skipped_unreadable"@,
    ]
}

fn inbox_shape() -> (r: Vec<String>)
    ensures
        text::texts(r@) == inbox_shape_spec(),
{
    let list = vec![
        "ok".to_owned(),
        "room".to_owned(),
        "unread".to_owned(),
        "count".to_owned(),
        "skipped_unreadable".to_owned(),
    ];
    assert(text::texts(list@) =~= inbox_shape_spec());
    list
}

/// The fields of the `read_json` output.
pub open spec fn read_json_shape_spec() -> Seq<Seq<char>> {
    seq![
        "ok"@,
        "framing"@,
        "envelope"@,
        "body"@,
        "already_read (present and true only when served from the read/archive store)"@,
    ]
}

fn read_json_shape() -> (r: Vec<String>)
    ensures
        text::texts(r@) == read_json_shape_spec(),
{
    let list = vec![
        "ok".to_owned(),
        "framing".to_owned(),
        "envelope".to_owned(),
        "body".to_owned(),
        "already_read (present and true only when served from the read/archive store)".to_owned(),
    ];
    assert(text::texts(list@) =~= read_json_shape_spec());
    list
}

/// The fields of the `rooms` output.
pub open spec fn rooms_shape_spec() -> Seq<Seq<char>> {
    seq![
        "ok"@,
        "rooms"@,
        "count"@,
    ]
}

fn rooms_shape() -> (r: Vec<String>)
    ensures
        text::texts(r@) == rooms_shape_spec(),
{
    let list = vec![
        "ok".to_owned(),
        "rooms".to_owned(),
        "count".to_owned(),
    ];
    assert(text::texts(list@) =~= rooms_shape_spec());
    list
}

/// The fields of the `schema` output.
pub open spec fn schema_shape_spec() -> Seq<Seq<char>> {
    seq![
        "ok"@,
        "name"@,
        "contract_version"@,
        "global_flags"@,
        "commands"@,
        "output_shapes"@,
        "error_shape"@,
        "error_codes"@,
        "exit_codes"@,
        "doctor_exit_codes"@,
        "laws"@,
        "environment"@,
        "owner (state: configured|legacy|none, wire_grammar, note?, owner?: {room, sidecar_dir, allowed_signers, principal, namespace, marker, label})"@,
    ]
}

fn schema_shape() -> (r: Vec<String>)
    ensures
        text::texts(r@) == schema_shape_spec(),
{
    let list = vec![
        "ok".to_owned(),
        "name".to_owned(),
        "contract_version".to_owned(),
        "global_flags".to_owned(),
        "commands".to_owned(),
        "output_shapes".to_owned(),
        "error_shape".to_owned(),
        "error_codes".to_owned(),
        "exit_codes".to_owned(),
        "doctor_exit_codes".to_owned(),
        "laws".to_owned(),
        "environment".to_owned(),
        "owner (state: configured|legacy|none, wire_grammar, note?, owner?: {room, sidecar_dir, allowed_signers, principal, namespace, marker, label})".to_owned(),
    ];
    assert(text::texts(list@) =~= schema_shape_spec());
    list
}

/// The fields of the `send_json` output.
pub open spec fn send_json_shape_spec() -> Seq<Seq<char>> {
    seq![
        "ok"@,
        "envelope"@,
        "archived"@,
    ]
}

fn send_json_shape() -> (r: Vec<String>)
    ensures
        text::texts(r@) == send_json_shape_spec(),
{
    let list = vec![
        "ok".to_owned(),
        "envelope".to_owned(),
        "archived".to_owned(),
    ];
    assert(text::texts(list@) =~= send_json_shape_spec());
    list
}

/// The fields of the `chat_join` output.
pub open spec fn chat_join_shape_spec() -> Seq<Seq<char>> {
    seq![
        "ok"@,
        "channel"@,
        "room"@,
        "created"@,
        "already_member"@,
        "event_id"@,
    ]
}

fn chat_join_shape() -> (r: Vec<String>)
    ensures
        text::texts(r@) == chat_join_shape_spec(),
{
    let list = vec![
        "ok".to_owned(),
        "channel".to_owned(),
        "room".to_owned(),
        "created".to_owned(),
        "already_member".to_owned(),
        "event_id".to_owned(),
    ];
    assert(text::texts(list@) =~= chat_join_shape_spec());
    list
}

/// The fields of the `chat_send` output.
pub open spec fn chat_send_shape_spec() -> Seq<Seq<char>> {
    seq![
        "ok"@,
        "message"@,
    ]
}

fn chat_send_shape() -> (r: Vec<String>)
    ensures
        text::texts(r@) == chat_send_shape_spec(),
{
    let list = vec![
        "ok".to_owned(),
        "message".to_owned(),
    ];
    assert(text::texts(list@) =~= chat_send_shape_spec());
    list
}

/// The fields of the `chat_read` output.
pub open spec fn chat_read_shape_spec() -> Seq<Seq<char>> {
    seq![
        "ok"@,
        "framing"@,
        "channel"@,
        "room"@,
        "peek"@,
        "messages"@,
        "count"@,
        "skipped (omitted when 0)"@,
    ]
}

fn chat_read_shape() -> (r: Vec<String>)
    ensures
        text::texts(r@) == chat_read_shape_spec(),
{
    let list = vec![
        "ok".to_owned(),
        "framing".to_owned(),
        "channel".to_owned(),
        "room".to_owned(),
        "peek".to_owned(),
        "messages".to_owned(),
        "count".to_owned(),
        "skipped (omitted when 0)".to_owned(),
    ];
    assert(text::texts(list@) =~= chat_read_shape_spec());
    list
}

/// The fields of the `chat_discard` output.
pub open spec fn chat_discard_shape_spec() -> Seq<Seq<char>> {
    seq![
        "ok"@,
        "channel"@,
        "room"@,
        "discarded"@,
        "cursor"@,
    ]
}

fn chat_discard_shape() -> (r: Vec<String>)
    ensures
        text::texts(r@) == chat_discard_shape_spec(),
{
    let list = vec![
        "ok".to_owned(),
        "channel".to_owned(),
        "room".to_owned(),
        "discarded".to_owned(),
        "cursor".to_owned(),
    ];
    assert(text::texts(list@) =~= chat_discard_shape_spec());
    list
}

/// The fields of the `chat_discard_through` output.
pub open spec fn chat_discard_through_shape_spec() -> Seq<Seq<char>> {
    seq![
        "ok"@,
        "channel"@,
        "room"@,
        "target"@,
        "prior_cursor"@,
        "cursor"@,
        "advanced"@,
        "discarded"@,
    ]
}

fn chat_discard_through_shape() -> (r: Vec<String>)
    ensures
        text::texts(r@) == chat_discard_through_shape_spec(),
{
    let list = vec![
        "ok".to_owned(),
        "channel".to_owned(),
        "room".to_owned(),
        "target".to_owned(),
        "prior_cursor".to_owned(),
        "cursor".to_owned(),
        "advanced".to_owned(),
        "discarded".to_owned(),
    ];
    assert(text::texts(list@) =~= chat_discard_through_shape_spec());
    list
}

/// The fields of the `channels` output.
pub open spec fn channels_shape_spec() -> Seq<Seq<char>> {
    seq![
        "ok"@,
        "channels (name, created, created_by, description?, members, messages)"@,
        "count"@,
    ]
}

fn channels_shape() -> (r: Vec<String>)
    ensures
        text::texts(r@) == channels_shape_spec(),
{
    let list = vec![
        "ok".to_owned(),
        "channels (name, created, created_by, description?, members, messages)".to_owned(),
        "count".to_owned(),
    ];
    assert(text::texts(list@) =~= channels_shape_spec());
    list
}

/// The fields of the `profile` output.
pub open spec fn profile_shape_spec() -> Seq<Seq<char>> {
    seq![
        "ok"@,
        "room"@,
        "profile (name?, pfp?)"@,
        "announced (set/clear; channels that received the change event)"@,
    ]
}

fn profile_shape() -> (r: Vec<String>)
    ensures
        text::texts(r@) == profile_shape_spec(),
{
    let list = vec![
        "ok".to_owned(),
        "room".to_owned(),
        "profile (name?, pfp?)".to_owned(),
        "announced (set/clear; channels that received the change event)".to_owned(),
    ];
    assert(text::texts(list@) =~= profile_shape_spec());
    list
}

/// The fields of the `watch` output.
pub open spec fn watch_shape_spec() -> Seq<Seq<char>> {
    seq![
        "mail: event, room, id, from, kind, subject, sent, reason=mail [, display_name, pfp, sender_address, sender_provenance]"@,
        "unreadable: event, room, id, reason=mail|channel"@,
        "channel_message: event, channel, id, from, subject, sent, reason=channel|mention [, display_name, pfp, sender_address, sender_provenance]"@,
    ]
}

fn watch_shape() -> (r: Vec<String>)
    ensures
        text::texts(r@) == watch_shape_spec(),
{
    let list = vec![
        "mail: event, room, id, from, kind, subject, sent, reason=mail [, display_name, pfp, sender_address, sender_provenance]".to_owned(),
        "unreadable: event, room, id, reason=mail|channel".to_owned(),
        "channel_message: event, channel, id, from, subject, sent, reason=channel|mention [, display_name, pfp, sender_address, sender_provenance]".to_owned(),
    ];
    assert(text::texts(list@) =~= watch_shape_spec());
    list
}

/// The fields of the `who` output.
pub open spec fn who_shape_spec() -> Seq<Seq<char>> {
    seq![
        "ok"@,
        "rooms (room, live_watch, last_seen?)"@,
        "count"@,
    ]
}

fn who_shape() -> (r: Vec<String>)
    ensures
        text::texts(r@) == who_shape_spec(),
{
    let list = vec![
        "ok".to_owned(),
        "rooms (room, live_watch, last_seen?)".to_owned(),
        "count".to_owned(),
    ];
    assert(text::texts(list@) =~= who_shape_spec());
    list
}

/// Whether shapes are those of the contract.
pub open spec fn are_shapes(s: OutputShapes) -> bool {
    &&& text::texts(s.doctor@) == doctor_shape_spec()
    &&& text::texts(s.inbox@) == inbox_shape_spec()
    &&& text::texts(s.read_json@) == read_json_shape_spec()
    &&& text::texts(s.rooms@) == rooms_shape_spec()
    &&& text::texts(s.schema@) == schema_shape_spec()
    &&& text::texts(s.send_json@) == send_json_shape_spec()
    &&& text::texts(s.chat_join@) == chat_join_shape_spec()
    &&& text::texts(s.chat_send@) == chat_send_shape_spec()
    &&& text::texts(s.chat_read@) == chat_read_shape_spec()
    &&& text::texts(s.chat_discard@) == chat_discard_shape_spec()
    &&& text::texts(s.chat_discard_through@) == chat_discard_through_shape_spec()
    &&& text::texts(s.channels@) == channels_shape_spec()
    &&& text::texts(s.profile@) == profile_shape_spec()
    &&& text::texts(s.watch@) == watch_shape_spec()
    &&& text::texts(s.who@) == who_shape_spec()
}

/// The shapes of the outputs.
pub fn output_shapes() -> (r: OutputShapes)
    ensures
        are_shapes(r),
{
    OutputShapes {
        doctor: doctor_shape(),
        inbox: inbox_shape(),
        read_json: read_json_shape(),
        rooms: rooms_shape(),
        schema: schema_shape(),
        send_json: send_json_shape(),
        chat_join: chat_join_shape(),
        chat_send: chat_send_shape(),
        chat_read: chat_read_shape(),
        chat_discard: chat_discard_shape(),
        chat_discard_through: chat_discard_through_shape(),
        channels: channels_shape(),
        profile: profile_shape(),
        watch: watch_shape(),
        who: who_shape(),
    }
}

/// The flags that every command takes.
pub open spec fn global_flags_spec() -> Seq<Seq<char>> {
    seq![
        "--json: switch send/read/chat from text to JSON; inbox/rooms/channels/profile/schema/doctor/who are already JSON"@,
        "--pretty: pretty-print JSON"@,
        "--room <name>: command option for inbox/read/watch/who only; chat and channels derive identity from cwd and reject --room"@,
    ]
}

fn global_flags() -> (r: Vec<String>)
    ensures
        text::texts(r@) == global_flags_spec(),
{
    let list = vec![
        "--json: switch send/read/chat from text to JSON; inbox/rooms/channels/profile/schema/doctor/who are already JSON".to_owned(),
        "--pretty: pretty-print JSON".to_owned(),
        "--room <name>: command option for inbox/read/watch/who only; chat and channels derive identity from cwd and reject --room".to_owned(),
    ];
    assert(text::texts(list@) =~= global_flags_spec());
    list
}

/// The fields of an error.
pub open spec fn error_shape_spec() -> Seq<Seq<char>> {
    seq![
        "ok=false"@,
        "error.code"@,
        "error.message"@,
        "error.details"@,
        "error.retryable"@,
        "error.suggested_fix"@,
    ]
}

fn error_shape() -> (r: Vec<String>)
    ensures
        text::texts(r@) == error_shape_spec(),
{
    let list = vec![
        "ok=false".to_owned(),
        "error.code".to_owned(),
        "error.message".to_owned(),
        "error.details".to_owned(),
        "error.retryable".to_owned(),
        "error.suggested_fix".to_owned(),
    ];
    assert(text::texts(list@) =~= error_shape_spec());
    list
}

/// The laws that the tool keeps and that bind its users.
pub open spec fn laws_spec() -> Seq<Seq<char>> {
    seq![
        output::LAW_DATA@,
        output::LAW_AUTHORITY@,
        output::LAW_PERMISSION@,
        output::LAW_VERIFY@,
        "Blocked routes refuse before any mail write."@,
        "Registered room names cannot be claimed from outside their room tree."@,
        "One canonical workspace path can have only one registered room name."@,
        "Every successful send has an immutable archive copy."@,
        "delivered_output_failure is non-retryable after a committed direct send or channel mutation; committed room registration stdout failure is reported as success with best-effort diagnostics."@,
        "Mail kinds are exactly letter, note, and signal."@,
        "Channel messages are not mail: they carry no kind, so a signal structurally cannot occur in a channel; anything gate-grade stays 1:1 room mail."@,
        "Blocked routes bar shared channel membership at join time; channels never carry what a route may not."@,
        "Channel history is append-only and is its own immutable archive; nothing in messages/ is ever moved or deleted."@,
        "Channel identity is inferred from cwd; membership and cursors require a registered room, and joins are recorded in the channel history itself."@,
        "Watch emits channel events as notifications only and never advances any cursor; only a read advances, and only after a successful emit."@,
        "A room's own channel messages are never news to it: they never ring its own watch, and a send advances the sender's cursor past their own message when they were already caught up."@,
        "A message body comes from exactly one of --body, --body-file, or stdin; a body-file path that does not exist is a usage error, never a retryable I/O fault."@,
        "Shell quoting happens before Post: double quotes can expand dollar-positionals such as $1 in $1.63B, and an apostrophe can terminate single quotes; use --body-file or stdin for shell-sensitive prose."@,
        "Subjects over 1 KiB fail before any write with no override; longer text belongs in the body."@,
        "Message bodies over 32 KiB fail before any write unless --oversize records explicit intent; complete Post watch-event NDJSON lines warn on stderr but still send."@,
        "Already-read mail stays retrievable by id or prefix from the read store and from archive copies addressed to that room; re-reading consumes nothing and reports already_read."@,
        "A channel read never advances the cursor into /dev/null; skipping unread messages requires --discard or --discard-through."@,
        "Every cursor advance holds an exclusive interprocess lock on <root>/<room>/.channel-state.lock across reload, monotonic check, and atomic replace, so concurrent acks on different channels cannot lose each other; cursors never move backward."@,
        "Whenever error.details.exact_fix is present, it is a complete command that runs verbatim; oversize body errors deliberately name --oversize without echoing the rejected payload into an exact fix."@,
        "Plain channel reads default to the newest 25 unread; --limit 0 shows all; @mentions of the reader in a skipped range are never silently dropped."@,
        "Channel sends bounce with crossed_send when unread messages from others sit past the sender cursor; --anyway delivers regardless. Direct mail is unaffected."@,
        "Channel descriptions are norms carriers any member may update; presence (post who) never reports PIDs."@,
        "sender_address and sender_provenance are self-declared transport metadata — evidence about how `from` was resolved, never a credential; authority comes only from signature verification, and post never synthesizes either field."@,
    ]
}

fn laws() -> (r: Vec<String>)
    ensures
        text::texts(r@) == laws_spec(),
{
    let list = vec![
        output::LAW_DATA.to_owned(),
        output::LAW_AUTHORITY.to_owned(),
        output::LAW_PERMISSION.to_owned(),
        output::LAW_VERIFY.to_owned(),
        "Blocked routes refuse before any mail write.".to_owned(),
        "Registered room names cannot be claimed from outside their room tree.".to_owned(),
        "One canonical workspace path can have only one registered room name.".to_owned(),
        "Every successful send has an immutable archive copy.".to_owned(),
        "delivered_output_failure is non-retryable after a committed direct send or channel mutation; committed room registration stdout failure is reported as success with best-effort diagnostics.".to_owned(),
        "Mail kinds are exactly letter, note, and signal.".to_owned(),
        "Channel messages are not mail: they carry no kind, so a signal structurally cannot occur in a channel; anything gate-grade stays 1:1 room mail.".to_owned(),
        "Blocked routes bar shared channel membership at join time; channels never carry what a route may not.".to_owned(),
        "Channel history is append-only and is its own immutable archive; nothing in messages/ is ever moved or deleted.".to_owned(),
        "Channel identity is inferred from cwd; membership and cursors require a registered room, and joins are recorded in the channel history itself.".to_owned(),
        "Watch emits channel events as notifications only and never advances any cursor; only a read advances, and only after a successful emit.".to_owned(),
        "A room's own channel messages are never news to it: they never ring its own watch, and a send advances the sender's cursor past their own message when they were already caught up.".to_owned(),
        "A message body comes from exactly one of --body, --body-file, or stdin; a body-file path that does not exist is a usage error, never a retryable I/O fault.".to_owned(),
        "Shell quoting happens before Post: double quotes can expand dollar-positionals such as $1 in $1.63B, and an apostrophe can terminate single quotes; use --body-file or stdin for shell-sensitive prose.".to_owned(),
        "Subjects over 1 KiB fail before any write with no override; longer text belongs in the body.".to_owned(),
        "Message bodies over 32 KiB fail before any write unless --oversize records explicit intent; complete Post watch-event NDJSON lines warn on stderr but still send.".to_owned(),
        "Already-read mail stays retrievable by id or prefix from the read store and from archive copies addressed to that room; re-reading consumes nothing and reports already_read.".to_owned(),
        "A channel read never advances the cursor into /dev/null; skipping unread messages requires --discard or --discard-through.".to_owned(),
        "Every cursor advance holds an exclusive interprocess lock on <root>/<room>/.channel-state.lock across reload, monotonic check, and atomic replace, so concurrent acks on different channels cannot lose each other; cursors never move backward.".to_owned(),
        "Whenever error.details.exact_fix is present, it is a complete command that runs verbatim; oversize body errors deliberately name --oversize without echoing the rejected payload into an exact fix.".to_owned(),
        "Plain channel reads default to the newest 25 unread; --limit 0 shows all; @mentions of the reader in a skipped range are never silently dropped.".to_owned(),
        "Channel sends bounce with crossed_send when unread messages from others sit past the sender cursor; --anyway delivers regardless. Direct mail is unaffected.".to_owned(),
        "Channel descriptions are norms carriers any member may update; presence (post who) never reports PIDs.".to_owned(),
        "sender_address and sender_provenance are self-declared transport metadata — evidence about how `from` was resolved, never a credential; authority comes only from signature verification, and post never synthesizes either field.".to_owned(),
    ];
    assert(text::texts(list@) =~= laws_spec());
    list
}

/// The variables that the tool reads, where a store lies in the given directory by default.
pub open spec fn environment_spec(default_dir: Seq<char>) -> Seq<Seq<char>> {
    seq![
        "POST_MAIL_ROOT: absolute mailbox root override — a supported first-class root (r2.1); must be absolute, defaults to $HOME/"@
            + default_dir,
        "HOME: resolves the default ~/"@ + default_dir + " root and ~/ room paths"@,
        "POST_FROM: stable room pin set by the launch helper; beats cwd inference for sender/acting-room resolution (explicit --from/--room still wins), recorded as sender_provenance=declared-env; set-but-invalid is a loud error, never a silent fallback"@,
        "POST_SENDER_ADDRESS: opaque per-launch instance address (harness.repo.uuid); recorded verbatim on envelopes as sender_address, never synthesized, non-routable; <=256 bytes, no control/whitespace characters"@,
    ]
}

fn environment(default_dir: &str) -> (r: Vec<String>)
    ensures
        text::texts(r@) == environment_spec(default_dir@),
{
    let list = vec![
        text::cat2(
            "POST_MAIL_ROOT: absolute mailbox root override — a supported first-class root (r2.1); must be absolute, defaults to $HOME/",
            default_dir,
        ),
        text::cat3("HOME: resolves the default ~/", default_dir, " root and ~/ room paths"),
        "POST_FROM: stable room pin set by the launch helper; beats cwd inference for sender/acting-room resolution (explicit --from/--room still wins), recorded as sender_provenance=declared-env; set-but-invalid is a loud error, never a silent fallback".to_owned(),
        "POST_SENDER_ADDRESS: opaque per-launch instance address (harness.repo.uuid); recorded verbatim on envelopes as sender_address, never synthesized, non-routable; <=256 bytes, no control/whitespace characters".to_owned(),
    ];
    assert(text::texts(list@) =~= environment_spec(default_dir@));
    list
}

// ---------------------------------------------------------------------------
// Codes
// ---------------------------------------------------------------------------
/// An error code of the contract.
pub ghost struct CodeView {
    pub code: Seq<char>,
    pub exit: int,
    pub retryable: bool,
}

pub open spec fn codes_view(codes: Seq<ErrorSchema>) -> Seq<CodeView> {
    codes.map_values(
        |c: ErrorSchema| CodeView { code: c.code@, exit: c.exit as int, retryable: c.retryable },
    )
}

/// What the contract says of an error code.
pub open spec fn code_row(code: ErrorCode) -> CodeView {
    CodeView { code: code.name(), exit: code.exit(), retryable: code == ErrorCode::IoError }
}

/// The error codes, with their exit codes.
pub fn error_codes() -> (r: Vec<ErrorSchema>)
    ensures
        codes_view(r@) == error::all_codes().map_values(|c: ErrorCode| code_row(c)),
{
    let all = ErrorCode::all();
    let mut out: Vec<ErrorSchema> = Vec::new();
    for i in 0..all.len()
        invariant
            all@ == error::all_codes(),
            out@.len() == i,
            forall|k: int|
                0 <= k < i ==> #[trigger] codes_view(out@)[k] == code_row(error::all_codes()[k]),
    {
        let ghost before = codes_view(out@);
        let code: ErrorCode = all[i];
        out.push(
            ErrorSchema {
                code: code.as_str().to_owned(),
                exit: code.exit_code(),
                retryable: code.retryable(),
            },
        );
        assert forall|k: int| 0 <= k < i + 1 implies #[trigger] codes_view(out@)[k] == code_row(
            error::all_codes()[k],
        ) by {
            if k < i {
                assert(codes_view(out@)[k] == before[k]);
            }
        }
    }
    assert(codes_view(out@) =~= error::all_codes().map_values(|c: ErrorCode| code_row(c)));
    out
}

/// The exit codes of a list, with what they mean.
pub open spec fn exits_view(exits: Seq<ExitSchema>) -> Seq<(int, Seq<char>)> {
    exits.map_values(|e: ExitSchema| (e.code as int, e.meaning@))
}

fn exit(code: i32, meaning: &str) -> (r: ExitSchema)
    ensures
        r.code == code,
        r.meaning@ == meaning@,
{
    ExitSchema { code, meaning: meaning.to_owned() }
}

/// The exit codes, with what they mean.
pub open spec fn exits() -> Seq<(int, Seq<char>)> {
    seq![
        (0int, "success, including empty results"@),
        (2int, "usage or argument error"@),
        (65int, "validation error"@),
        (66int, "message not found"@),
        (70int, "non-retryable post-commit or internal failure"@),
        (75int, "retryable I/O failure"@),
        (77int, "blocked route"@),
        (78int, "invalid configuration or mail state"@),
    ]
}

/// The exit codes, with what they mean.
pub fn exit_codes() -> (r: Vec<ExitSchema>)
    ensures
        exits_view(r@) == exits(),
{
    let list = vec![
        exit(0, "success, including empty results"),
        exit(2, "usage or argument error"),
        exit(65, "validation error"),
        exit(66, "message not found"),
        exit(70, "non-retryable post-commit or internal failure"),
        exit(75, "retryable I/O failure"),
        exit(77, "blocked route"),
        exit(78, "invalid configuration or mail state"),
    ];
    assert(exits_view(list@) =~= exits());
    list
}

/// The exit codes of a diagnosis, with what they mean.
pub open spec fn doctor_exits() -> Seq<(int, Seq<char>)> {
    seq![
        (0int, "healthy"@),
        (1int, "findings present"@),
        (3int, "--fix failed"@),
    ]
}

/// The exit codes of a diagnosis, with what they mean.
pub fn doctor_exit_codes() -> (r: Vec<ExitSchema>)
    ensures
        exits_view(r@) == doctor_exits(),
{
    let list = vec![
        exit(0, "healthy"),
        exit(1, "findings present"),
        exit(3, "--fix failed"),
    ];
    assert(exits_view(list@) =~= doctor_exits());
    list
}

/// Every exit code that an error can have is explained.
pub proof fn error_exits_are_explained(code: ErrorCode)
    ensures
        exists|i: int| 0 <= i < exits().len() && (#[trigger] exits()[i]).0 == code.exit(),
{

    assert(exits()[0].0 == 0);
    assert(exits()[1].0 == 2);
    assert(exits()[2].0 == 65);
    assert(exits()[3].0 == 66);
    assert(exits()[4].0 == 70);
    assert(exits()[5].0 == 75);
    assert(exits()[6].0 == 77);
    assert(exits()[7].0 == 78);
}

/// The whole contract, for a store with the given owner, where stores lie in the given
/// directory by default.
pub fn schema(owner: OwnerSchema, default_dir: &str) -> (r: SchemaOutput)
    ensures
        r.ok,
        r.name@ == "post"@,
        r.contract_version@ == "1"@,
        text::texts(r.global_flags@) == global_flags_spec(),
        commands_view(r.commands@) == command_rows(),
        are_shapes(r.output_shapes),
        text::texts(r.error_shape@) == error_shape_spec(),
        r.owner == owner,
        codes_view(r.error_codes@) == error::all_codes().map_values(|c: ErrorCode| code_row(c)),
        exits_view(r.exit_codes@) == exits(),
        exits_view(r.doctor_exit_codes@) == doctor_exits(),
        text::texts(r.laws@) == laws_spec(),
        text::texts(r.environment@) == environment_spec(default_dir@),
{
    SchemaOutput {
        ok: true,
        name: "post".to_owned(),
        contract_version: "1".to_owned(),
        global_flags: global_flags(),
        commands: commands(),
        output_shapes: output_shapes(),
        error_shape: error_shape(),
        owner,
        error_codes: error_codes(),
        exit_codes: exit_codes(),
        doctor_exit_codes: doctor_exit_codes(),
        laws: laws(),
        environment: environment(default_dir),
    }
}

} // verus!
