//! Reading a channel: which messages a read shows, what it consumes, and what it prints.
use crate::cli;
use crate::cli::ChatArgs;
use crate::cursor;
use crate::cursor::CursorAdvance;
use crate::error;
use crate::error::{AppError, AppResult, ErrorCode};
use crate::model::{ChannelMessage, ParsedChannelMessage};
use crate::names;
use crate::order;
use crate::order::Sortable;
use crate::output;
use crate::output::{ChatDiscardOutput, ChatDiscardThroughOutput};
use crate::outside;
use crate::outside::GrepPattern;
use crate::text;
use vstd::prelude::*;

verus! {

// ---------------------------------------------------------------------------
// What an invocation asks for
// ---------------------------------------------------------------------------
/// What an invocation of `post chat` does.
#[derive(Debug, Clone, Copy, PartialEq, Eq, Structural)]
pub enum ChatMode {
    Join,
    SeenBy,
    DiscardThrough,
    Send,
    Read,
}

/// The error of a subject on a read.
pub open spec fn idle_subject_error(args: ChatArgs) -> error::ErrorView {
    let fix = "post chat "@ + names::quoted(args.name@) + " --send --subject "@ + names::quoted(
        args.subject@,
    ) + " --body '<text>'"@;
    error::ErrorView::of(
        ErrorCode::InvalidArgument,
        "--subject only applies to a send, and this invocation is a read"@,
        "Run `"@ + fix + "`, or drop --subject to read the channel."@,
    ).exact_fix(fix).input("--subject"@).reason("subject passed without a send"@)
}

/// Whether an invocation names a body, or asks to send outright.
pub open spec fn sends(args: ChatArgs) -> bool {
    args.send || args.body is Some || args.body_file is Some
}

/// What an invocation does, or why it is refused.
pub open spec fn mode(args: ChatArgs) -> Result<ChatMode, error::ErrorView> {
    if args.join {
        Ok(ChatMode::Join)
    } else if args.seen_by is Some {
        Ok(ChatMode::SeenBy)
    } else if args.oversize && !sends(args) {
        Err(
            error::ErrorView::invalid_argument(
                "--oversize only applies when sending a message body"@,
            ),
        )
    } else if args.anyway && !sends(args) {
        Err(
            error::ErrorView::invalid_argument(
                "--anyway only applies when sending a message body"@,
            ),
        )
    } else if args.re is Some && !sends(args) {
        Err(error::ErrorView::invalid_argument("--re only applies when sending a message body"@))
    } else if args.signature_ref is Some && !sends(args) {
        Err(
            error::ErrorView::invalid_argument(
                "--signature-ref only applies when sending a message body"@,
            ),
        )
    } else if !sends(args) && args.subject@.len() > 0 {
        Err(idle_subject_error(args))
    } else if sends(args) {
        Ok(ChatMode::Send)
    } else if args.discard_through is Some {
        Ok(ChatMode::DiscardThrough)
    } else {
        Ok(ChatMode::Read)
    }
}

pub fn chat_mode(args: &ChatArgs) -> (r: AppResult<ChatMode>)
    ensures
        match r {
            Ok(m) => mode(*args) == Ok::<ChatMode, error::ErrorView>(m),
            Err(e) => mode(*args) == Err::<ChatMode, error::ErrorView>(e@),
        },
{
    if args.join {
        return Ok(ChatMode::Join);
    }
    if args.seen_by.is_some() {
        return Ok(ChatMode::SeenBy);
    }
    let sending: bool = args.send || args.body.is_some() || args.body_file.is_some();
    if args.oversize && !sending {
        return Err(
            AppError::invalid_argument("--oversize only applies when sending a message body"),
        );
    }
    if args.anyway && !sending {
        return Err(AppError::invalid_argument("--anyway only applies when sending a message body"));
    }
    if args.re.is_some() && !sending {
        return Err(AppError::invalid_argument("--re only applies when sending a message body"));
    }
    if args.signature_ref.is_some() && !sending {
        return Err(
            AppError::invalid_argument("--signature-ref only applies when sending a message body"),
        );
    }
    if !sending && !args.subject.as_str().is_empty() {
        let fix = text::cat5(
            "post chat ",
            names::shell_quote(args.name.as_str()).as_str(),
            " --send --subject ",
            names::shell_quote(args.subject.as_str()).as_str(),
            " --body '<text>'",
        );
        return Err(
            AppError::new(
                ErrorCode::InvalidArgument,
                "--subject only applies to a send, and this invocation is a read",
                text::cat3(
                    "Run `",
                    fix.as_str(),
                    "`, or drop --subject to read the channel.",
                ).as_str(),
            ).exact_fix(fix.as_str()).input("--subject").reason("subject passed without a send"),
        );
    }
    if sending {
        Ok(ChatMode::Send)
    } else if args.discard_through.is_some() {
        Ok(ChatMode::DiscardThrough)
    } else {
        Ok(ChatMode::Read)
    }
}

/// Every invocation that changes the store counts as a writer, and so has to pass the
/// migration fence: joins, sends, skips, and reads that move the cursor.
pub proof fn chats_that_change_the_store_are_writers(args: ChatArgs)
    ensures
        mode(args) matches Ok(m) && (m is Join || m is Send || m is DiscardThrough)
            ==> cli::chat_writes(args),
        mode(args) matches Ok(m) && m is Read && (args.discard || (!args.peek && !cursorless(args)))
            ==> cli::chat_writes(args),
{
}

/// The invocation of a send, up to its body.
pub open spec fn fix_prefix(args: ChatArgs) -> Seq<char> {
    "post chat "@ + names::quoted(args.name@) + " --send"@ + (if args.anyway {
        " --anyway"@
    } else {
        ""@
    }) + (match args.re {
        Some(re) => " --re "@ + names::quoted(re@),
        None => ""@,
    }) + (if args.subject@.len() > 0 {
        " --subject "@ + names::quoted(args.subject@)
    } else {
        ""@
    }) + (if args.oversize {
        " --oversize"@
    } else {
        ""@
    }) + (match args.signature_ref {
        Some(tag) => " --signature-ref "@ + names::quoted(tag@),
        None => ""@,
    })
}

/// Rebuilds the invocation of a send, so that a fix can be run as it stands.
pub fn chat_fix_prefix(args: &ChatArgs) -> (r: String)
    ensures
        r@ == fix_prefix(*args),
{
    let anyway = if args.anyway {
        " --anyway"
    } else {
        ""
    };
    let re = match &args.re {
        Some(re) => text::cat2(" --re ", names::shell_quote(re.as_str()).as_str()),
        None => "".to_owned(),
    };
    let subject = if args.subject.as_str().is_empty() {
        "".to_owned()
    } else {
        text::cat2(" --subject ", names::shell_quote(args.subject.as_str()).as_str())
    };
    let oversize = if args.oversize {
        " --oversize"
    } else {
        ""
    };
    let signature = match &args.signature_ref {
        Some(tag) => text::cat2(" --signature-ref ", names::shell_quote(tag.as_str()).as_str()),
        None => "".to_owned(),
    };
    text::cat8(
        "post chat ",
        names::shell_quote(args.name.as_str()).as_str(),
        " --send",
        anyway,
        re.as_str(),
        subject.as_str(),
        oversize,
        signature.as_str(),
    )
}

/// Whether a read ignores the cursor, and so never moves it.
pub open spec fn cursorless(args: ChatArgs) -> bool {
    args.history is Some || args.since is Some
}

pub fn is_cursorless(args: &ChatArgs) -> (r: bool)
    ensures
        r == cursorless(*args),
{
    args.history.is_some() || args.since.is_some()
}

// ---------------------------------------------------------------------------
// Batches
// ---------------------------------------------------------------------------
/// A message file of a channel, as it was found.
#[derive(Debug)]
pub struct MessageRead {
    /// Where it lies, as it is shown.
    pub path: String,
    /// The file name without its extension, unless it is no text.
    pub stem: Option<String>,
    pub read: AppResult<ParsedChannelMessage>,
}

/// Whether a file lies past a cursor. One whose name is no text counts as past it, so that
/// nothing leaps over it.
pub open spec fn file_past(stem: Option<Seq<char>>, after: Option<Seq<char>>) -> bool {
    stem is None || cursor::past(after, stem->0)
}

pub fn message_file_past_cursor(stem: Option<&str>, after: Option<&str>) -> (r: bool)
    ensures
        r == file_past(text::opt_str(stem), text::opt_str(after)),
{
    match stem {
        None => true,
        Some(id) => cursor::is_past(after, id),
    }
}

/// Whether a file lies past a cursor and could not be read.
pub open spec fn is_broken(file: MessageRead, after: Option<Seq<char>>) -> bool {
    file_past(text::opt(file.stem), after) && file.read is Err
}

/// Whether a file lies past a cursor and holds a message past it.
pub open spec fn is_unread(file: MessageRead, after: Option<Seq<char>>) -> bool {
    file_past(text::opt(file.stem), after) && file.read is Ok && cursor::past(
        after,
        file.read->Ok_0.message.id@,
    )
}

/// The messages past a cursor, in the order of the files.
pub open spec fn unread(files: Seq<MessageRead>, after: Option<Seq<char>>) -> Seq<
    ParsedChannelMessage,
>
    decreases files.len(),
{
    if files.len() == 0 {
        seq![]
    } else if is_unread(files[0], after) {
        seq![files[0].read->Ok_0] + unread(files.skip(1), after)
    } else {
        unread(files.skip(1), after)
    }
}

/// The error of the first file past a cursor that could not be read.
pub open spec fn first_broken(files: Seq<MessageRead>, after: Option<Seq<char>>) -> Option<
    AppError,
>
    decreases files.len(),
{
    if files.len() == 0 {
        None
    } else if is_broken(files[0], after) {
        Some(files[0].read->Err_0)
    } else {
        first_broken(files.skip(1), after)
    }
}

/// What is said of a file that could not be read.
pub open spec fn broken_warning(path: Seq<char>, message: Seq<char>) -> Seq<char> {
    "post: warning: skipped unreadable channel message "@ + outside::debug_form(path) + ": "@
        + outside::debug_form(message)
}

/// What is said of the files past a cursor that could not be read.
pub open spec fn broken_warnings(files: Seq<MessageRead>, after: Option<Seq<char>>) -> Seq<
    Seq<char>,
>
    decreases files.len(),
{
    if files.len() == 0 {
        seq![]
    } else if is_broken(files[0], after) {
        seq![broken_warning(files[0].path@, files[0].read->Err_0@.message)] + broken_warnings(
            files.skip(1),
            after,
        )
    } else {
        broken_warnings(files.skip(1), after)
    }
}

/// Messages stand in the order of their ids.
impl Sortable for ParsedChannelMessage {
    open spec fn at_most(self, other: Self) -> bool {
        text::le(self.message.id@, other.message.id@)
    }

    proof fn at_most_total(a: Self, b: Self) {
        text::lt_total(a.message.id@, b.message.id@);
    }

    proof fn at_most_transitive(a: Self, b: Self, c: Self) {
        if a.message.id@ != b.message.id@ && b.message.id@ != c.message.id@ {
            text::lt_transitive(a.message.id@, b.message.id@, c.message.id@);
        }
    }

    fn is_at_most(&self, other: &Self) -> (r: bool) {
        text::less_or_same(self.message.id.as_str(), other.message.id.as_str())
    }
}

/// What a channel holds past a cursor.
#[derive(Debug)]
pub struct Batch {
    /// The messages, in the order of their ids.
    pub posts: Vec<ParsedChannelMessage>,
    /// What is to be said of files that were passed over.
    pub warnings: Vec<String>,
}

/// Collects the messages past a cursor, in the order of their ids. A read that moves the
/// cursor fails on a file that it cannot read, so that the cursor never passes it; another
/// read passes it over with a warning.
pub fn collect_batch(files: Vec<MessageRead>, after: Option<&str>, fail_closed: bool) -> (r:
    AppResult<Batch>)
    ensures
        match r {
            Ok(batch) => {
                &&& fail_closed ==> first_broken(files@, text::opt_str(after)) is None
                &&& order::stable_sort_of(unread(files@, text::opt_str(after)), batch.posts@)
                &&& text::texts(batch.warnings@) == broken_warnings(files@, text::opt_str(after))
            },
            Err(e) => fail_closed && first_broken(files@, text::opt_str(after)) == Some(e),
        },
{
    let ghost all = files@;
    let ghost last = text::opt_str(after);
    let mut rest = files;
    let mut posts: Vec<ParsedChannelMessage> = Vec::new();
    let mut warnings: Vec<String> = Vec::new();
    let mut broken: Option<AppError> = None;
    assert(all.skip(all.len() as int) =~= seq![]);
    while rest.len() > 0
        invariant
            rest@.len() <= all.len(),
            rest@ == all.take(rest@.len() as int),
            last == text::opt_str(after),
            posts@ == unread(all.skip(rest@.len() as int), last),
            !fail_closed ==> broken is None,
            fail_closed ==> broken == first_broken(all.skip(rest@.len() as int), last),
            fail_closed || text::texts(warnings@) == broken_warnings(
                all.skip(rest@.len() as int),
                last,
            ),
            fail_closed ==> warnings@.len() == 0,
        decreases rest@.len(),
    {
        let ghost n = rest@.len() - 1;
        let ghost later = all.skip(n + 1);
        assert(all.skip(n).skip(1) =~= later);
        assert(all.skip(n)[0] == all[n]);
        let ghost said = text::texts(warnings@);
        let ghost kept = posts@;
        let file: MessageRead = match rest.pop() {
            Some(file) => file,
            None => {
                return Ok(Batch { posts, warnings });
            },
        };
        assert(file == all[n]);
        assert(rest@ =~= all.take(n));
        if message_file_past_cursor(output::borrowed(&file.stem), after) {
            match file.read {
                Ok(post) => {
                    if cursor::is_past(after, post.message.id.as_str()) {
                        posts.insert(0, post);
                        assert(posts@ =~= seq![post] + kept);
                    }
                },
                Err(e) => {
                    if fail_closed {
                        broken = Some(e);
                    } else {
                        let line = text::cat4(
                            "post: warning: skipped unreadable channel message ",
                            outside::debug_quoted(file.path.as_str()).as_str(),
                            ": ",
                            outside::debug_quoted(e.message.as_str()).as_str(),
                        );
                        warnings.insert(0, line);
                        assert(text::texts(warnings@) =~= seq![line@] + said);
                    }
                },
            }
        }
    }
    assert(all.skip(0) =~= all);
    match broken {
        Some(e) => Err(e),
        None => {
            proof {
                if fail_closed {
                    no_warnings(all, last);
                    assert(text::texts(warnings@) =~= seq![]);
                }
            }
            Ok(Batch { posts: order::sort(posts), warnings })
        },
    }
}

proof fn no_warnings(files: Seq<MessageRead>, after: Option<Seq<char>>)
    requires
        first_broken(files, after) is None,
    ensures
        broken_warnings(files, after) == Seq::<Seq<char>>::empty(),
    decreases files.len(),
{
    if files.len() > 0 {
        no_warnings(files.skip(1), after);
    }
}

/// Every message of a batch lies past the cursor, and was read from one of the files.
pub proof fn batches_hold_unread_messages(
    files: Seq<MessageRead>,
    after: Option<Seq<char>>,
    posts: Seq<ParsedChannelMessage>,
    i: int,
)
    requires
        order::stable_sort_of(unread(files, after), posts),
        0 <= i < posts.len(),
    ensures
        cursor::past(after, posts[i].message.id@),
        exists|k: int|
            0 <= k < files.len() && is_unread(#[trigger] files[k], after) && files[k].read->Ok_0
                == posts[i],
{
    broadcast use vstd::seq_lib::group_to_multiset_ensures;

    let raw = unread(files, after);
    assert(posts.to_multiset().count(posts[i]) > 0);
    assert(raw.contains(posts[i]));
    let j = choose|j: int| 0 <= j < raw.len() && raw[j] == posts[i];
    unread_element(files, after, j);
}

proof fn unread_element(files: Seq<MessageRead>, after: Option<Seq<char>>, j: int)
    requires
        0 <= j < unread(files, after).len(),
    ensures
        exists|k: int|
            0 <= k < files.len() && is_unread(#[trigger] files[k], after) && files[k].read->Ok_0
                == unread(files, after)[j],
    decreases files.len(),
{
    if files.len() > 0 {
        let rest = files.skip(1);
        if is_unread(files[0], after) {
            if j > 0 {
                unread_element(rest, after, j - 1);
                let k = choose|k: int|
                    0 <= k < rest.len() && is_unread(#[trigger] rest[k], after)
                        && rest[k].read->Ok_0 == unread(rest, after)[j - 1];
                assert(files[k + 1] == rest[k]);
            }
        } else {
            unread_element(rest, after, j);
            let k = choose|k: int|
                0 <= k < rest.len() && is_unread(#[trigger] rest[k], after) && rest[k].read->Ok_0
                    == unread(rest, after)[j];
            assert(files[k + 1] == rest[k]);
        }
    }
}

proof fn unread_contains(files: Seq<MessageRead>, after: Option<Seq<char>>, k: int)
    requires
        0 <= k < files.len(),
        is_unread(files[k], after),
    ensures
        unread(files, after).contains(files[k].read->Ok_0),
    decreases files.len(),
{
    let rest = files.skip(1);
    let all = unread(files, after);
    if k == 0 {
        assert(all[0] == files[0].read->Ok_0);
    } else {
        assert(rest[k - 1] == files[k]);
        unread_contains(rest, after, k - 1);
        let below = unread(rest, after);
        let j = choose|j: int| 0 <= j < below.len() && below[j] == files[k].read->Ok_0;
        if is_unread(files[0], after) {
            assert(all[j + 1] == below[j]);
        } else {
            assert(all[j] == below[j]);
        }
    }
}

/// A batch leaves no unread message out: every readable file past the cursor with a message
/// past it is in the batch.
pub proof fn batches_are_complete(
    files: Seq<MessageRead>,
    after: Option<Seq<char>>,
    posts: Seq<ParsedChannelMessage>,
    k: int,
)
    requires
        order::stable_sort_of(unread(files, after), posts),
        0 <= k < files.len(),
        is_unread(files[k], after),
    ensures
        posts.contains(files[k].read->Ok_0),
{
    broadcast use vstd::seq_lib::group_to_multiset_ensures;

    let raw = unread(files, after);
    unread_contains(files, after, k);
    assert(raw.to_multiset().count(files[k].read->Ok_0) > 0);
    assert(posts.to_multiset().count(files[k].read->Ok_0) > 0);
}

/// What a read consumes, it consumes once: after the cursor has advanced to the last message
/// of a batch, the same files hold nothing unread.
pub proof fn read_messages_are_not_shown_again(
    files: Seq<MessageRead>,
    after: Option<Seq<char>>,
    posts: Seq<ParsedChannelMessage>,
)
    requires
        order::stable_sort_of(unread(files, after), posts),
        posts.len() > 0,
    ensures
        unread(files, Some(posts.last().message.id@)).len() == 0,
{
    let last = posts.last().message.id@;
    let again = unread(files, Some(last));
    if again.len() > 0 {
        unread_element(files, Some(last), 0);
        let k = choose|k: int|
            0 <= k < files.len() && is_unread(#[trigger] files[k], Some(last))
                && files[k].read->Ok_0 == again[0];
        let id = files[k].read->Ok_0.message.id@;
        let stem = text::opt(files[k].stem);
        batches_hold_unread_messages(files, after, posts, posts.len() - 1);
        if after is Some {
            text::lt_transitive(after->0, last, id);
            if stem is Some {
                text::lt_transitive(after->0, last, stem->0);
            }
        }
        batches_are_complete(files, after, posts, k);
        let i = choose|i: int| 0 <= i < posts.len() && posts[i] == files[k].read->Ok_0;
        if i < posts.len() - 1 {
            assert(posts[i].at_most(posts[posts.len() - 1]));
        }
        text::lt_irreflexive(id);
        if id != last {
            text::lt_asymmetric(id, last);
        }
    }
}

/// A read that does not move the cursor shows the same messages again.
pub proof fn unmoved_cursors_show_batches_again(
    files: Seq<MessageRead>,
    after: Option<Seq<char>>,
    first: Seq<ParsedChannelMessage>,
    second: Seq<ParsedChannelMessage>,
)
    requires
        order::stable_sort_of(unread(files, after), first),
        order::stable_sort_of(unread(files, after), second),
    ensures
        first.to_multiset() == second.to_multiset(),
        first.len() == second.len(),
{
    vstd::seq_lib::to_multiset_len(first);
    vstd::seq_lib::to_multiset_len(second);
}

/// The id of the last message of a batch: where the cursor goes once the batch was shown.
pub fn last_id(posts: &Vec<ParsedChannelMessage>) -> (r: Option<String>)
    ensures
        text::opt(r) == if posts@.len() == 0 {
            None
        } else {
            Some(posts@.last().message.id@)
        },
{
    let n: usize = posts.len();
    if n == 0 {
        None
    } else {
        Some(posts[n - 1].message.id.clone())
    }
}

/// Keeps the newest messages of a history.
pub fn keep_newest(posts: Vec<ParsedChannelMessage>, n: usize) -> (r: Vec<ParsedChannelMessage>)
    ensures
        r@ == if posts@.len() > n {
            posts@.skip(posts@.len() - n)
        } else {
            posts@
        },
{
    let mut all = posts;
    let count: usize = all.len();
    if count > n {
        let kept = all.split_off(count - n);
        assert(kept@ =~= posts@.skip(posts@.len() - n));
        kept
    } else {
        all
    }
}

// ---------------------------------------------------------------------------
// Searching
// ---------------------------------------------------------------------------
/// Whether a pattern matches a message: in its body, its subject, its sender or its id.
pub open spec fn grep_hit(pattern: Seq<char>, post: ParsedChannelMessage) -> bool {
    ||| outside::regex_finds(pattern, post.body@)
    ||| outside::regex_finds(pattern, post.message.subject@)
    ||| outside::regex_finds(pattern, post.message.from@)
    ||| outside::regex_finds(pattern, post.message.id@)
}

/// The messages that a pattern matches.
pub open spec fn grep_hits(pattern: Seq<char>, posts: Seq<ParsedChannelMessage>) -> Seq<
    ParsedChannelMessage,
>
    decreases posts.len(),
{
    if posts.len() == 0 {
        seq![]
    } else if grep_hit(pattern, posts[0]) {
        seq![posts[0]] + grep_hits(pattern, posts.skip(1))
    } else {
        grep_hits(pattern, posts.skip(1))
    }
}

/// Keeps the messages that a compiled pattern matches, in their order.
pub fn keep_matching(posts: Vec<ParsedChannelMessage>, pattern: &GrepPattern) -> (r: Vec<
    ParsedChannelMessage,
>)
    ensures
        r@ == grep_hits(pattern.source(), posts@),
{
    let ghost all = posts@;
    let mut rest = posts;
    let mut out: Vec<ParsedChannelMessage> = Vec::new();
    assert(all.skip(all.len() as int) =~= seq![]);
    while rest.len() > 0
        invariant
            rest@.len() <= all.len(),
            rest@ == all.take(rest@.len() as int),
            out@ == grep_hits(pattern.source(), all.skip(rest@.len() as int)),
        decreases rest@.len(),
    {
        let ghost n = rest@.len() - 1;
        assert(all.skip(n).skip(1) =~= all.skip(n + 1));
        assert(all.skip(n)[0] == all[n]);
        let ghost kept = out@;
        let post: ParsedChannelMessage = match rest.pop() {
            Some(post) => post,
            None => {
                return out;
            },
        };
        assert(rest@ =~= all.take(n));
        if outside::pattern_matches(pattern, post.body.as_str()) || outside::pattern_matches(
            pattern,
            post.message.subject.as_str(),
        ) || outside::pattern_matches(pattern, post.message.from.as_str())
            || outside::pattern_matches(pattern, post.message.id.as_str()) {
            out.insert(0, post);
            assert(out@ =~= seq![post] + kept);
        }
    }
    assert(all.skip(0) =~= all);
    out
}

/// The error of a pattern that does not compile.
pub open spec fn bad_pattern_error(problem: Seq<char>) -> error::ErrorView {
    error::ErrorView::of(
        ErrorCode::InvalidArgument,
        "invalid --grep regex: "@ + problem,
        "Pass a valid Rust regex pattern, or a plain substring (most characters are literal)."@,
    ).input("--grep"@).reason(problem)
}

pub fn bad_pattern(problem: &str) -> (r: AppError)
    ensures
        r@ == bad_pattern_error(problem@),
{
    AppError::new(
        ErrorCode::InvalidArgument,
        text::cat2("invalid --grep regex: ", problem).as_str(),
        "Pass a valid Rust regex pattern, or a plain substring (most characters are literal).",
    ).input("--grep").reason(problem)
}

/// Whether an error says why a pattern does not compile.
pub open spec fn refuses_pattern(pattern: Seq<char>, e: error::ErrorView) -> bool {
    exists|problem: Seq<char>| #[trigger]
        outside::regex_refuses(pattern, problem) && e == bad_pattern_error(problem)
}

/// Keeps the messages that a pattern matches, without regard to case.
pub fn filter_grep(posts: Vec<ParsedChannelMessage>, pattern: &str) -> (r: AppResult<
    Vec<ParsedChannelMessage>,
>)
    ensures
        match r {
            Ok(kept) => kept@ == grep_hits(pattern@, posts@),
            Err(e) => refuses_pattern(pattern@, e@),
        },
{
    match outside::compile_pattern(pattern) {
        Ok(compiled) => Ok(keep_matching(posts, &compiled)),
        Err(problem) => Err(bad_pattern(problem.as_str())),
    }
}

// ---------------------------------------------------------------------------
// Catching up
// ---------------------------------------------------------------------------
pub const DEFAULT_CATCH_UP: usize = 25;

/// How many of the newest messages a read shows; nothing stands for all.
pub open spec fn catch_up_limit(limit: Option<usize>) -> Option<usize> {
    match limit {
        None => Some(DEFAULT_CATCH_UP),
        Some(n) => if n == 0 {
            None
        } else {
            Some(n)
        },
    }
}

/// Whether a message mentions a room.
pub open spec fn mentions_room(post: ParsedChannelMessage, room: Seq<char>) -> bool {
    text::texts(post.message.mentions@).contains(room)
}

/// The messages that mention a room.
pub open spec fn rescued(posts: Seq<ParsedChannelMessage>, room: Seq<char>) -> Seq<
    ParsedChannelMessage,
>
    decreases posts.len(),
{
    if posts.len() == 0 {
        seq![]
    } else if mentions_room(posts[0], room) {
        seq![posts[0]] + rescued(posts.skip(1), room)
    } else {
        rescued(posts.skip(1), room)
    }
}

/// What a bounded read shows of a batch: its newest messages, after those of the older ones
/// that mention the reader.
pub open spec fn caught_up(
    posts: Seq<ParsedChannelMessage>,
    limit: Option<usize>,
    room: Seq<char>,
) -> Seq<ParsedChannelMessage> {
    match catch_up_limit(limit) {
        None => posts,
        Some(n) => if posts.len() <= n {
            posts
        } else {
            rescued(posts.take(posts.len() - n), room) + posts.skip(posts.len() - n)
        },
    }
}

/// Bounds a batch to what is shown, and counts the messages that are not.
pub fn apply_catch_up(
    batch: &mut Vec<ParsedChannelMessage>,
    limit: Option<usize>,
    room: &str,
) -> (r: usize)
    ensures
        final(batch)@ == caught_up(old(batch)@, limit, room@),
        r == old(batch)@.len() - final(batch)@.len(),
{
    let n: usize = match limit {
        None => DEFAULT_CATCH_UP,
        Some(n) => n,
    };
    if limit.is_some() && n == 0 {
        return 0;
    }
    if batch.len() <= n {
        return 0;
    }
    let ghost all = batch@;
    let total: usize = batch.len();
    let split_at: usize = total - n;
    let mut newest = batch.split_off(split_at);
    let ghost older = all.take(split_at as int);
    assert(batch@ =~= older);
    assert(newest@ =~= all.skip(split_at as int));
    let mut shown: Vec<ParsedChannelMessage> = Vec::new();
    let mut skipped: usize = 0;
    assert(older.skip(split_at as int) =~= seq![]);
    while batch.len() > 0
        invariant
            batch@.len() <= split_at,
            older.len() == split_at,
            batch@ == older.take(batch@.len() as int),
            shown@ == rescued(older.skip(batch@.len() as int), room@),
            skipped + shown@.len() + batch@.len() == split_at,
        decreases batch@.len(),
    {
        let ghost k = batch@.len() - 1;
        assert(older.skip(k).skip(1) =~= older.skip(k + 1));
        assert(older.skip(k)[0] == older[k]);
        let ghost kept = shown@;
        let ghost before = batch@;
        match batch.pop() {
            Some(post) => {
                assert(post == before.last());
                assert(post == older[k]);
                assert(batch@ =~= older.take(k));
                if text::list_has(&post.message.mentions, room) {
                    shown.insert(0, post);
                    assert(shown@ =~= seq![post] + kept);
                } else {
                    skipped = skipped + 1;
                }
            },
            None => {},
        }
    }
    assert(older.skip(0) =~= older);
    let ghost pulled = shown@;
    shown.append(&mut newest);
    assert(shown@ =~= pulled + all.skip(split_at as int));
    *batch = shown;
    skipped
}

proof fn rescued_element(posts: Seq<ParsedChannelMessage>, room: Seq<char>, j: int)
    requires
        0 <= j < rescued(posts, room).len(),
    ensures
        posts.contains(rescued(posts, room)[j]),
        mentions_room(rescued(posts, room)[j], room),
    decreases posts.len(),
{
    if posts.len() > 0 {
        let rest = posts.skip(1);
        let below = rescued(rest, room);
        let at = if mentions_room(posts[0], room) {
            j - 1
        } else {
            j
        };
        if at < 0 {
            assert(posts[0] == rescued(posts, room)[j]);
        } else {
            rescued_element(rest, room, at);
            let i = choose|i: int| 0 <= i < rest.len() && rest[i] == below[at];
            assert(posts[i + 1] == rest[i]);
        }
    }
}

proof fn mentioning_are_rescued(posts: Seq<ParsedChannelMessage>, room: Seq<char>, i: int)
    requires
        0 <= i < posts.len(),
        mentions_room(posts[i], room),
    ensures
        rescued(posts, room).contains(posts[i]),
        rescued(posts, room).len() <= posts.len(),
    decreases posts.len(),
{
    let rest = posts.skip(1);
    let all = rescued(posts, room);
    rescued_is_shorter(posts, room);
    if i == 0 {
        assert(all[0] == posts[0]);
    } else {
        assert(rest[i - 1] == posts[i]);
        mentioning_are_rescued(rest, room, i - 1);
        let below = rescued(rest, room);
        let j = choose|j: int| 0 <= j < below.len() && below[j] == posts[i];
        if mentions_room(posts[0], room) {
            assert(all[j + 1] == below[j]);
        } else {
            assert(all[j] == below[j]);
        }
    }
}

proof fn rescued_is_shorter(posts: Seq<ParsedChannelMessage>, room: Seq<char>)
    ensures
        rescued(posts, room).len() <= posts.len(),
    decreases posts.len(),
{
    if posts.len() > 0 {
        rescued_is_shorter(posts.skip(1), room);
    }
}

/// A bounded read never drops a mention of the reader, whatever the bound, and shows nothing
/// that is not in the batch.
pub proof fn mentions_are_never_dropped(
    posts: Seq<ParsedChannelMessage>,
    limit: Option<usize>,
    room: Seq<char>,
    i: int,
)
    requires
        0 <= i < posts.len(),
        mentions_room(posts[i], room),
    ensures
        caught_up(posts, limit, room).contains(posts[i]),
{
    match catch_up_limit(limit) {
        None => {},
        Some(n) => {
            if posts.len() > n {
                let split = posts.len() - n;
                let older = posts.take(split);
                let newest = posts.skip(split);
                let shown = caught_up(posts, limit, room);
                if i < split {
                    assert(older[i] == posts[i]);
                    mentioning_are_rescued(older, room, i);
                    let pulled = rescued(older, room);
                    let j = choose|j: int| 0 <= j < pulled.len() && pulled[j] == posts[i];
                    assert(shown[j] == posts[i]);
                } else {
                    assert(newest[i - split] == posts[i]);
                    assert(shown[rescued(older, room).len() + (i - split)] == posts[i]);
                }
            }
        },
    }
}

/// A bounded read shows only messages of the batch, ends with its newest message, and shows
/// as many of the newest as it was asked for.
pub proof fn bounded_reads_show_the_newest(
    posts: Seq<ParsedChannelMessage>,
    limit: Option<usize>,
    room: Seq<char>,
)
    requires
        posts.len() > 0,
    ensures
        caught_up(posts, limit, room).len() <= posts.len(),
        caught_up(posts, limit, room).len() > 0,
        caught_up(posts, limit, room).last() == posts.last(),
        forall|j: int|
            0 <= j < caught_up(posts, limit, room).len() ==> posts.contains(
                #[trigger] caught_up(posts, limit, room)[j],
            ),
        limit is Some && limit->0 > 0 && limit->0 < posts.len() ==> caught_up(
            posts,
            limit,
            room,
        ).len() >= limit->0,
{
    let shown = caught_up(posts, limit, room);
    match catch_up_limit(limit) {
        None => {
            assert(posts[posts.len() - 1] == posts.last());
        },
        Some(n) => {
            if posts.len() > n {
                let split = posts.len() - n;
                let older = posts.take(split);
                let newest = posts.skip(split);
                rescued_is_shorter(older, room);
                assert(shown.last() == newest.last());
                assert forall|j: int| 0 <= j < shown.len() implies posts.contains(
                    #[trigger] shown[j],
                ) by {
                    let pulled = rescued(older, room);
                    if j < pulled.len() {
                        rescued_element(older, room, j);
                        let i = choose|i: int| 0 <= i < older.len() && older[i] == pulled[j];
                        assert(posts[i] == shown[j]);
                    } else {
                        assert(posts[split + (j - pulled.len())] == shown[j]);
                    }
                }
            }
        },
    }
}

// ---------------------------------------------------------------------------
// Consuming messages without showing them
// ---------------------------------------------------------------------------
pub open spec fn null_device_error(channel: Seq<char>, count: nat) -> error::ErrorView {
    let quoted = names::quoted(channel);
    let fix = "post chat "@ + quoted + " --discard"@;
    error::ErrorView::of(
        ErrorCode::InvalidArgument,
        "refusing to advance the #"@ + channel + " cursor into /dev/null: "@ + text::decimal(count)
            + " unread message(s) would be consumed without ever being shown"@,
        "Run `post chat "@ + quoted + "` to read them, `post chat "@ + quoted
            + " --peek` to look without advancing, or `"@ + fix + "` to skip them deliberately."@,
    ).exact_fix(fix).input("stdout"@).reason(
        "stdout is the null device and this read would advance the cursor"@,
    )
}

/// Refuses a read that would consume messages that nobody sees.
pub fn check_visible(
    channel: &str,
    count: usize,
    peek: bool,
    cursor_target: Option<&str>,
    stdout_is_null: bool,
) -> (r: AppResult<()>)
    ensures
        error::failure(r) == if !peek && cursor_target is Some && stdout_is_null {
            Some(null_device_error(channel@, count as nat))
        } else {
            None
        },
{
    if peek || cursor_target.is_none() || !stdout_is_null {
        return Ok(());
    }
    let quoted = names::shell_quote(channel);
    let fix = text::cat3("post chat ", quoted.as_str(), " --discard");
    Err(
        AppError::new(
            ErrorCode::InvalidArgument,
            text::cat5(
                "refusing to advance the #",
                channel,
                " cursor into /dev/null: ",
                text::decimal_text(count as u64).as_str(),
                " unread message(s) would be consumed without ever being shown",
            ).as_str(),
            text::cat7(
                "Run `post chat ",
                quoted.as_str(),
                "` to read them, `post chat ",
                quoted.as_str(),
                " --peek` to look without advancing, or `",
                fix.as_str(),
                "` to skip them deliberately.",
            ).as_str(),
        ).exact_fix(fix.as_str()).input("stdout").reason(
            "stdout is the null device and this read would advance the cursor",
        ),
    )
}

/// The receipt of a skip of the whole batch.
pub fn discard_output(channel: &str, room: &str, count: usize, cursor_target: Option<&str>) -> (r:
    ChatDiscardOutput)
    ensures
        r.ok,
        r.channel@ == channel@,
        r.room@ == room@,
        r.discarded == count,
        text::opt(r.cursor) == text::opt_str(cursor_target),
{
    ChatDiscardOutput {
        ok: true,
        channel: channel.to_owned(),
        room: room.to_owned(),
        discarded: count,
        cursor: text::opt_owned(cursor_target),
    }
}

/// The receipt of a skip of the whole batch, as text.
pub fn discard_text(channel: &str, count: usize, cursor_target: Option<&str>) -> (r: String)
    ensures
        r@ == match cursor_target {
            Some(id) => "post: discarded "@ + text::decimal(count as nat)
                + " unread message(s) in #"@ + output::header_text(channel@)
                + " (cursor advanced to "@ + id@ + ")\n"@,
            None => "no new messages to discard in #"@ + output::header_text(channel@) + "\n"@,
        },
{
    let shown = output::sanitize_text_header(channel);
    match cursor_target {
        Some(id) => text::cat7(
            "post: discarded ",
            text::decimal_text(count as u64).as_str(),
            " unread message(s) in #",
            shown.as_str(),
            " (cursor advanced to ",
            id,
            ")\n",
        ),
        None => text::cat3("no new messages to discard in #", shown.as_str(), "\n"),
    }
}

/// Whether a file lies past a cursor and not past a target. One whose name is no text may lie
/// between them, and counts as if it did.
pub open spec fn lies_between(
    stem: Option<Seq<char>>,
    after: Option<Seq<char>>,
    target: Seq<char>,
) -> bool {
    file_past(stem, after) && (stem is None || text::le(stem->0, target))
}

/// The error of the first file between a cursor and a target that could not be read.
pub open spec fn first_broken_between(
    files: Seq<MessageRead>,
    after: Option<Seq<char>>,
    target: Seq<char>,
) -> Option<AppError>
    decreases files.len(),
{
    if files.len() == 0 {
        None
    } else if lies_between(text::opt(files[0].stem), after, target) && files[0].read is Err {
        Some(files[0].read->Err_0)
    } else {
        first_broken_between(files.skip(1), after, target)
    }
}

/// How many messages lie between a cursor and a target.
pub open spec fn passed(
    files: Seq<MessageRead>,
    after: Option<Seq<char>>,
    target: Seq<char>,
) -> nat
    decreases files.len(),
{
    if files.len() == 0 {
        0
    } else if is_unread(files[0], after) && text::le(files[0].read->Ok_0.message.id@, target) {
        1 + passed(files.skip(1), after, target)
    } else {
        passed(files.skip(1), after, target)
    }
}

/// Decides a skip through one message: how many messages it passes. A target at the cursor or
/// behind it passes none and is no error; a file that cannot be read is never leapt over.
pub fn plan_discard_through(files: Vec<MessageRead>, after: Option<&str>, target: &str) -> (r:
    AppResult<usize>)
    ensures
        match r {
            Ok(n) => if cursor::past(text::opt_str(after), target@) {
                first_broken_between(files@, text::opt_str(after), target@) is None && n == passed(
                    files@,
                    text::opt_str(after),
                    target@,
                )
            } else {
                n == 0
            },
            Err(e) => cursor::past(text::opt_str(after), target@) && first_broken_between(
                files@,
                text::opt_str(after),
                target@,
            ) == Some(e),
        },
{
    if !cursor::is_past(after, target) {
        return Ok(0);
    }
    let ghost all = files@;
    let ghost last = text::opt_str(after);
    let total: usize = files.len();
    let mut rest = files;
    let mut count: usize = 0;
    let mut broken: Option<AppError> = None;
    assert(all.skip(all.len() as int) =~= seq![]);
    while rest.len() > 0
        invariant
            total == all.len(),
            rest@.len() <= all.len(),
            rest@ == all.take(rest@.len() as int),
            last == text::opt_str(after),
            count == passed(all.skip(rest@.len() as int), last, target@),
            count + rest@.len() <= total,
            broken == first_broken_between(all.skip(rest@.len() as int), last, target@),
        decreases rest@.len(),
    {
        let ghost n = rest@.len() - 1;
        assert(all.skip(n).skip(1) =~= all.skip(n + 1));
        assert(all.skip(n)[0] == all[n]);
        let file: MessageRead = match rest.pop() {
            Some(file) => file,
            None => {
                return Ok(count);
            },
        };
        assert(file == all[n]);
        assert(rest@ =~= all.take(n));
        let near: bool = match &file.stem {
            None => true,
            Some(stem) => text::less_or_same(stem.as_str(), target),
        };
        let ahead: bool = message_file_past_cursor(output::borrowed(&file.stem), after);
        match file.read {
            Ok(post) => {
                if ahead && cursor::is_past(after, post.message.id.as_str()) && text::less_or_same(
                    post.message.id.as_str(),
                    target,
                ) {
                    count = count + 1;
                }
            },
            Err(e) => {
                if ahead && near {
                    broken = Some(e);
                }
            },
        }
    }
    assert(all.skip(0) =~= all);
    match broken {
        Some(e) => Err(e),
        None => Ok(count),
    }
}

/// A skip through one message leaps over nothing that cannot be read.
pub proof fn skips_leap_over_nothing_unreadable(
    files: Seq<MessageRead>,
    after: Option<Seq<char>>,
    target: Seq<char>,
    k: int,
)
    requires
        first_broken_between(files, after, target) is None,
        0 <= k < files.len(),
        lies_between(text::opt(files[k].stem), after, target),
    ensures
        files[k].read is Ok,
    decreases files.len(),
{
    if k > 0 {
        assert(files.skip(1)[k - 1] == files[k]);
        skips_leap_over_nothing_unreadable(files.skip(1), after, target, k - 1);
    }
}

/// The receipt of a skip through one message.
pub fn discard_through_output(
    channel: &str,
    room: &str,
    target: &str,
    advance: CursorAdvance,
    discarded: usize,
) -> (r: ChatDiscardThroughOutput)
    ensures
        r.ok,
        r.channel@ == channel@,
        r.room@ == room@,
        r.target@ == target@,
        r.prior_cursor == advance.prior,
        r.cursor == Some(advance.cursor),
        r.advanced == advance.advanced,
        r.discarded == discarded,
{
    ChatDiscardThroughOutput {
        ok: true,
        channel: channel.to_owned(),
        room: room.to_owned(),
        target: target.to_owned(),
        prior_cursor: advance.prior,
        cursor: Some(advance.cursor),
        advanced: advance.advanced,
        discarded,
    }
}

/// The receipt of a skip through one message, as text.
pub fn discard_through_text(channel: &str, target: &str, advanced: bool, discarded: usize) -> (r:
    String)
    ensures
        r@ == if advanced {
            "post: discarded "@ + text::decimal(discarded as nat) + " unread message(s) in #"@
                + output::header_text(channel@) + " (cursor advanced to "@ + target@ + ")\n"@
        } else {
            "no new messages to discard in #"@ + output::header_text(channel@) + " through "@
                + target@ + "\n"@
        },
{
    let shown = output::sanitize_text_header(channel);
    if advanced {
        text::cat7(
            "post: discarded ",
            text::decimal_text(discarded as u64).as_str(),
            " unread message(s) in #",
            shown.as_str(),
            " (cursor advanced to ",
            target,
            ")\n",
        )
    } else {
        text::cat5(
            "no new messages to discard in #",
            shown.as_str(),
            " through ",
            target,
            "\n",
        )
    }
}

// ---------------------------------------------------------------------------
// Reading
// ---------------------------------------------------------------------------
/// What a read shows, and what it does to the cursor.
#[derive(Debug)]
pub struct ReadPlan {
    /// The messages that are shown, or passed over by a discard.
    pub posts: Vec<ParsedChannelMessage>,
    /// How many older messages are not shown.
    pub skipped: usize,
    /// Where the cursor goes once the messages were shown.
    pub advance_to: Option<String>,
    /// What is to be said of files that were passed over.
    pub warnings: Vec<String>,
}

/// After which message a read begins.
pub open spec fn read_after(args: ChatArgs, cursor: Option<Seq<char>>) -> Option<Seq<char>> {
    if cursorless(args) {
        text::opt(args.since)
    } else {
        cursor
    }
}

/// The newest messages of a batch, for a read that bounds its history.
pub open spec fn newest(
    batch: Seq<ParsedChannelMessage>,
    history: Option<usize>,
) -> Seq<ParsedChannelMessage> {
    if history is Some && batch.len() > history->0 {
        batch.skip(batch.len() - history->0)
    } else {
        batch
    }
}

/// What a read takes from a batch. A discard takes all of it: the bound of a read is for what
/// is shown.
pub open spec fn taken(args: ChatArgs, batch: Seq<ParsedChannelMessage>, room: Seq<char>) -> Seq<
    ParsedChannelMessage,
> {
    if cursorless(args) {
        match text::opt(args.grep) {
            None => newest(batch, args.history),
            Some(pattern) => grep_hits(pattern, newest(batch, args.history)),
        }
    } else if args.discard {
        batch
    } else {
        caught_up(batch, args.limit, room)
    }
}

/// Where a read of a batch moves the cursor.
pub open spec fn advance_of(args: ChatArgs, batch: Seq<ParsedChannelMessage>) -> Option<
    Seq<char>,
> {
    if cursorless(args) || (args.peek && !args.discard) || batch.len() == 0 {
        None
    } else {
        Some(batch.last().message.id@)
    }
}

/// Whether a read of a batch would consume messages that nobody sees.
pub open spec fn consumes_unseen(
    args: ChatArgs,
    batch: Seq<ParsedChannelMessage>,
    stdout_is_null: bool,
) -> bool {
    stdout_is_null && !args.discard && advance_of(args, batch) is Some
}

/// Whether a plan is that of a read of a batch.
pub open spec fn plans(
    args: ChatArgs,
    batch: Seq<ParsedChannelMessage>,
    room: Seq<char>,
    plan: ReadPlan,
) -> bool {
    &&& plan.posts@ == taken(args, batch, room)
    &&& plan.skipped == if cursorless(args) {
        0
    } else {
        batch.len() - plan.posts@.len()
    }
    &&& text::opt(plan.advance_to) == advance_of(args, batch)
}

/// Decides on a read: what it shows of the files of a channel and where it moves the cursor.
/// The cursor goes to the last message of the whole batch, also where older messages of it are
/// not shown.
pub fn plan_read(
    files: Vec<MessageRead>,
    args: &ChatArgs,
    cursor: Option<&str>,
    room: &str,
    stdout_is_null: bool,
) -> (r: AppResult<ReadPlan>)
    ensures
        ({
            let after = read_after(*args, text::opt_str(cursor));
            let broken = first_broken(files@, after);
            let pending = unread(files@, after);
            match r {
                Ok(plan) => {
                    &&& cursorless(*args) || broken is None
                    &&& text::texts(plan.warnings@) == broken_warnings(files@, after)
                    &&& exists|batch: Seq<ParsedChannelMessage>| #[trigger]
                        order::stable_sort_of(pending, batch) && !consumes_unseen(
                            *args,
                            batch,
                            stdout_is_null,
                        ) && plans(*args, batch, room@, plan)
                },
                Err(e) => if cursorless(*args) {
                    args.grep is Some && refuses_pattern(args.grep->0@, e@)
                } else if broken is Some {
                    broken == Some(e)
                } else {
                    exists|batch: Seq<ParsedChannelMessage>| #[trigger]
                        order::stable_sort_of(pending, batch) && consumes_unseen(
                            *args,
                            batch,
                            stdout_is_null,
                        ) && e@ == null_device_error(
                            args.name@,
                            taken(*args, batch, room@).len(),
                        )
                },
            }
        }),
{
    let still = is_cursorless(args);
    let after: Option<&str> = if still {
        output::borrowed(&args.since)
    } else {
        cursor
    };
    let found: Batch = match collect_batch(files, after, !still) {
        Ok(found) => found,
        Err(e) => {
            return Err(e);
        },
    };
    let ghost batch = found.posts@;
    let warnings = found.warnings;
    let mut posts = found.posts;
    if still {
        match args.history {
            Some(n) => {
                posts = keep_newest(posts, n);
            },
            None => {},
        }
        match &args.grep {
            Some(pattern) => match filter_grep(posts, pattern.as_str()) {
                Ok(kept) => {
                    posts = kept;
                },
                Err(e) => {
                    return Err(e);
                },
            },
            None => {},
        }
        assert(plans(
            *args,
            batch,
            room@,
            ReadPlan { posts, skipped: 0, advance_to: None, warnings },
        ));
        return Ok(ReadPlan { posts, skipped: 0, advance_to: None, warnings });
    }
    let last = last_id(&posts);
    if args.discard {
        return Ok(ReadPlan { posts, skipped: 0, advance_to: last, warnings });
    }
    let skipped: usize = apply_catch_up(&mut posts, args.limit, room);
    match check_visible(
        args.name.as_str(),
        posts.len(),
        args.peek,
        output::borrowed(&last),
        stdout_is_null,
    ) {
        Ok(_) => {},
        Err(e) => {
            return Err(e);
        },
    }
    let advance_to: Option<String> = if args.peek {
        None
    } else {
        last
    };
    Ok(ReadPlan { posts, skipped, advance_to, warnings })
}

/// Looking moves nothing: a peek that is no discard, and a read of the history or since a
/// message, leave the cursor where it is.
pub proof fn looking_moves_nothing(args: ChatArgs, batch: Seq<ParsedChannelMessage>)
    requires
        cursorless(args) || (args.peek && !args.discard),
    ensures
        advance_of(args, batch) is None,
{
}

/// A discard counts what it passes: it takes exactly the messages up to where the cursor goes.
pub proof fn discards_count_the_whole_batch(
    args: ChatArgs,
    batch: Seq<ParsedChannelMessage>,
    room: Seq<char>,
    plan: ReadPlan,
)
    requires
        args.discard,
        !cursorless(args),
        plans(args, batch, room, plan),
    ensures
        plan.posts@ == batch,
        plan.skipped == 0,
        batch.len() > 0 ==> text::opt(plan.advance_to) == Some(batch.last().message.id@),
{
}

// ---------------------------------------------------------------------------
// Receipts
// ---------------------------------------------------------------------------
/// The members whose cursors have reached a message.
pub open spec fn readers(members: Seq<(String, Option<String>)>, id: Seq<char>) -> Seq<Seq<char>>
    decreases members.len(),
{
    if members.len() == 0 {
        seq![]
    } else {
        let before = readers(members.drop_last(), id);
        match members.last().1 {
            Some(cursor) => if text::le(id, cursor@) {
                before.push(members.last().0@)
            } else {
                before
            },
            None => before,
        }
    }
}

/// The members whose cursors have reached a message, in order.
pub fn seen_by(members: &Vec<(String, Option<String>)>, id: &str) -> (r: Vec<String>)
    ensures
        order::texts_sorted(text::texts(r@)),
        text::texts(r@).to_multiset() == readers(members@, id@).to_multiset(),
{
    let mut out: Vec<String> = Vec::new();
    assert(text::texts(out@) =~= readers(members@.take(0), id@));
    for i in 0..members.len()
        invariant
            text::texts(out@) == readers(members@.take(i as int), id@),
    {
        let ghost before = text::texts(out@);
        assert(members@.take(i + 1).drop_last() =~= members@.take(i as int));
        match &members[i].1 {
            Some(cursor) => {
                if text::less_or_same(id, cursor.as_str()) {
                    out.push(members[i].0.clone());
                    assert(text::texts(out@) =~= before.push(members@[i as int].0@));
                }
            },
            None => {},
        }
    }
    assert(members@.take(members@.len() as int) =~= members@);
    order::sort_texts(out)
}

/// Who has read a message, as text.
pub fn seen_by_text(channel: &str, id: &str, seen: &Vec<String>) -> (r: String)
    ensures
        r@ == if seen@.len() == 0 {
            "post: no members have read past "@ + id@ + " in #"@ + channel@ + "\n"@
        } else {
            "post: seen-by "@ + id@ + " in #"@ + channel@ + ": "@ + text::joined(
                text::texts(seen@),
                ", "@,
            ) + "\n"@
        },
{
    if seen.len() == 0 {
        text::cat5("post: no members have read past ", id, " in #", channel, "\n")
    } else {
        text::cat7(
            "post: seen-by ",
            id,
            " in #",
            channel,
            ": ",
            text::join_texts(seen, ", ").as_str(),
            "\n",
        )
    }
}

/// Whether a message stands between a cursor and another message.
pub open spec fn blocks_own_advance(
    id: Seq<char>,
    after: Option<Seq<char>>,
    own: Seq<char>,
) -> bool {
    cursor::past(after, id) && text::lt(id, own)
}

/// Whether the sender of a message was caught up, so that the sender's cursor moves past it:
/// no other message stands unread before it.
pub fn may_pass_own_message(all: &Vec<String>, after: Option<&str>, own: &str) -> (r: bool)
    ensures
        r == forall|i: int|
            0 <= i < all@.len() ==> !blocks_own_advance(
                #[trigger] text::texts(all@)[i],
                text::opt_str(after),
                own@,
            ),
{
    let ghost every = text::texts(all@);
    for i in 0..all.len()
        invariant
            every == text::texts(all@),
            forall|k: int|
                0 <= k < i ==> !blocks_own_advance(
                    #[trigger] every[k],
                    text::opt_str(after),
                    own@,
                ),
    {
        let id = all[i].as_str();
        assert(every[i as int] == id@);
        if cursor::is_past(after, id) && text::less(id, own) {
            assert(blocks_own_advance(every[i as int], text::opt_str(after), own@));
            return false;
        }
    }
    true
}

/// A send hides nothing from its sender: where the sender's cursor moves past an own message,
/// every other message that was unread stays unread, and the own message is read.
pub proof fn own_advances_hide_nothing(
    all: Seq<Seq<char>>,
    after: Option<Seq<char>>,
    own: Seq<char>,
    i: int,
)
    requires
        forall|k: int| 0 <= k < all.len() ==> !blocks_own_advance(#[trigger] all[k], after, own),
        0 <= i < all.len(),
    ensures
        !cursor::past(Some(own), own),
        cursor::past(after, all[i]) && all[i] != own ==> cursor::past(Some(own), all[i]),
{
    text::lt_irreflexive(own);
    text::lt_total(own, all[i]);
}

/// What is said before a channel message is written.
pub fn sending_notice(channel: &str, room: &str) -> (r: String)
    ensures
        r@ == "post: sending to #"@ + channel@ + " as room '"@ + room@
            + "' (identity inferred from cwd)"@,
{
    text::cat5(
        "post: sending to #",
        channel,
        " as room '",
        room,
        "' (identity inferred from cwd)",
    )
}

/// What is said before a room joins.
pub fn joining_notice(channel: &str, room: &str) -> (r: String)
    ensures
        r@ == "post: joining #"@ + channel@ + " as room '"@ + room@
            + "' (identity inferred from cwd)"@,
{
    text::cat5("post: joining #", channel, " as room '", room, "' (identity inferred from cwd)")
}

/// The receipt of a channel message.
pub fn chat_sent_receipt(message: &ChannelMessage) -> (r: String)
    ensures
        r@ == "post: sent #"@ + message.channel@ + " "@ + message.id@ + " from "@ + message.from@
            + "\n"@,
{
    text::cat7(
        "post: sent #",
        message.channel.as_str(),
        " ",
        message.id.as_str(),
        " from ",
        message.from.as_str(),
        "\n",
    )
}

/// What is said where a message was written and its sender's cursor could not be moved.
pub fn own_advance_warning(channel: &str, problem: &str) -> (r: String)
    ensures
        r@ == "post: warning: sent ok, but could not advance own cursor for #"@ + channel@ + ": "@
            + problem@,
{
    text::cat4(
        "post: warning: sent ok, but could not advance own cursor for #",
        channel,
        ": ",
        problem,
    )
}

} // verus!
