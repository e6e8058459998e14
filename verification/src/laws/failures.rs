//! What errors carry, how they end a run, and how mail files are written and read.
use vstd::prelude::*;

use crate::error;
use crate::error::{AppError, DetailsView, ErrorCode, ErrorView, MissedChannelMessage};
use crate::mail;
use crate::model;
use crate::paths;
use crate::text;

verus! {

/// The exit status tells the kind of failure: a wrong argument, something missing, a blocked route,
/// a broken configuration, a failed read or write, work that was done but not reported or filed;
/// all else is bad data.
pub proof fn exits_tell_the_kind_of_failure(code: ErrorCode)
    ensures
        code.exit() == 2 <==> code == ErrorCode::InvalidArgument,
        code.exit() == 66 <==> code == ErrorCode::NotFound,
        code.exit() == 77 <==> code == ErrorCode::BlockedRoute,
        code.exit() == 78 <==> code == ErrorCode::ConfigInvalid,
        code.exit() == 75 <==> code == ErrorCode::IoError,
        code.exit() == 70 <==> code == ErrorCode::DeliveredOutputFailure || code
            == ErrorCode::DeliveredUnarchived,
        code.exit() == 65 <==> code == ErrorCode::UnknownRoom || code == ErrorCode::ReservedSender
            || code == ErrorCode::EmptyBody || code == ErrorCode::AmbiguousId || code
            == ErrorCode::DuplicateWorkspace || code == ErrorCode::NotAMember || code
            == ErrorCode::CrossedSend,
        code.exit() != 0,
{
}

/// No two codes have one name.
pub proof fn codes_have_names_of_their_own(code: ErrorCode, other: ErrorCode)
    requires
        code != other,
    ensures
        code.name() != other.name(),
{
    reveal_strlit("unknown_room");
    reveal_strlit("blocked_route");
    reveal_strlit("reserved_sender");
    reveal_strlit("empty_body");
    reveal_strlit("ambiguous_id");
    reveal_strlit("not_found");
    reveal_strlit("invalid_argument");
    reveal_strlit("config_invalid");
    reveal_strlit("duplicate_workspace");
    reveal_strlit("io_error");
    reveal_strlit("delivered_output_failure");
    reveal_strlit("delivered_unarchived");
    reveal_strlit("not_a_member");
    reveal_strlit("crossed_send");
    let a = code.name();
    let b = other.name();
    assert(a.len() != b.len() || a[0] != b[0]);
}

/// The names are those that callers match on.
pub proof fn codes_are_named_for_callers(code: ErrorCode)
    ensures
        code.name() == "unknown_room"@ <==> code == ErrorCode::UnknownRoom,
        code.name() == "blocked_route"@ <==> code == ErrorCode::BlockedRoute,
        code.name() == "reserved_sender"@ <==> code == ErrorCode::ReservedSender,
        code.name() == "empty_body"@ <==> code == ErrorCode::EmptyBody,
        code.name() == "ambiguous_id"@ <==> code == ErrorCode::AmbiguousId,
        code.name() == "not_found"@ <==> code == ErrorCode::NotFound,
        code.name() == "invalid_argument"@ <==> code == ErrorCode::InvalidArgument,
        code.name() == "config_invalid"@ <==> code == ErrorCode::ConfigInvalid,
        code.name() == "duplicate_workspace"@ <==> code == ErrorCode::DuplicateWorkspace,
        code.name() == "io_error"@ <==> code == ErrorCode::IoError,
        code.name() == "delivered_output_failure"@ <==> code == ErrorCode::DeliveredOutputFailure,
        code.name() == "delivered_unarchived"@ <==> code == ErrorCode::DeliveredUnarchived,
        code.name() == "not_a_member"@ <==> code == ErrorCode::NotAMember,
        code.name() == "crossed_send"@ <==> code == ErrorCode::CrossedSend,
{
    assert forall|other: ErrorCode| code != other implies code.name() != #[trigger] other.name() by {
        codes_have_names_of_their_own(code, other);
    }
    assert(ErrorCode::UnknownRoom.name() == "unknown_room"@);
    assert(ErrorCode::BlockedRoute.name() == "blocked_route"@);
    assert(ErrorCode::ReservedSender.name() == "reserved_sender"@);
    assert(ErrorCode::EmptyBody.name() == "empty_body"@);
    assert(ErrorCode::AmbiguousId.name() == "ambiguous_id"@);
    assert(ErrorCode::NotFound.name() == "not_found"@);
    assert(ErrorCode::InvalidArgument.name() == "invalid_argument"@);
    assert(ErrorCode::ConfigInvalid.name() == "config_invalid"@);
    assert(ErrorCode::DuplicateWorkspace.name() == "duplicate_workspace"@);
    assert(ErrorCode::IoError.name() == "io_error"@);
    assert(ErrorCode::DeliveredOutputFailure.name() == "delivered_output_failure"@);
    assert(ErrorCode::DeliveredUnarchived.name() == "delivered_unarchived"@);
    assert(ErrorCode::NotAMember.name() == "not_a_member"@);
    assert(ErrorCode::CrossedSend.name() == "crossed_send"@);
}

/// A new error carries its code, its message and its remedy, exits as its code does, is worth a
/// retry only after a failed read or write, and has no details yet.
pub proof fn errors_begin_without_details(code: ErrorCode, message: Seq<char>, fix: Seq<char>)
    ensures
        ErrorView::of(code, message, fix).code == code,
        ErrorView::of(code, message, fix).message == message,
        ErrorView::of(code, message, fix).suggested_fix == fix,
        ErrorView::of(code, message, fix).exit_code == code.exit(),
        ErrorView::of(code, message, fix).retryable <==> code == ErrorCode::IoError,
        ({
            let d = ErrorView::of(code, message, fix).details;
            &&& d.archive_path is None
            &&& d.did_you_mean is None
            &&& d.exact_fix is None
            &&& d.id is None
            &&& d.inbox_path is None
            &&& d.input is None
            &&& d.matches is None
            &&& d.missed is None
            &&& d.operation is None
            &&& d.path is None
            &&& d.reason is None
            &&& d.registered_path is None
            &&& d.room is None
            &&& d.rule is None
        }),
{
}

/// Whether two errors differ in their details at most.
pub open spec fn same_but_for_details(a: ErrorView, b: ErrorView) -> bool {
    &&& a.code == b.code
    &&& a.message == b.message
    &&& a.suggested_fix == b.suggested_fix
    &&& a.exit_code == b.exit_code
    &&& a.retryable == b.retryable
}

/// A detail that is added is there, and nothing else of the error changes.
pub proof fn details_are_added_one_by_one(e: ErrorView, v: Seq<char>)
    ensures
        same_but_for_details(e.archive_path(v), e),
        e.archive_path(v).details == (DetailsView { archive_path: Some(v), ..e.details }),
        same_but_for_details(e.did_you_mean(v), e),
        e.did_you_mean(v).details == (DetailsView { did_you_mean: Some(v), ..e.details }),
        same_but_for_details(e.exact_fix(v), e),
        e.exact_fix(v).details == (DetailsView { exact_fix: Some(v), ..e.details }),
        same_but_for_details(e.id(v), e),
        e.id(v).details == (DetailsView { id: Some(v), ..e.details }),
        same_but_for_details(e.inbox_path(v), e),
        e.inbox_path(v).details == (DetailsView { inbox_path: Some(v), ..e.details }),
        same_but_for_details(e.input(v), e),
        e.input(v).details == (DetailsView { input: Some(v), ..e.details }),
        same_but_for_details(e.operation(v), e),
        e.operation(v).details == (DetailsView { operation: Some(v), ..e.details }),
        same_but_for_details(e.path(v), e),
        e.path(v).details == (DetailsView { path: Some(v), ..e.details }),
        same_but_for_details(e.reason(v), e),
        e.reason(v).details == (DetailsView { reason: Some(v), ..e.details }),
        same_but_for_details(e.registered_path(v), e),
        e.registered_path(v).details == (DetailsView { registered_path: Some(v), ..e.details }),
        same_but_for_details(e.room(v), e),
        e.room(v).details == (DetailsView { room: Some(v), ..e.details }),
{
}

/// The same of the details that are lists or rules.
pub proof fn lists_and_rules_are_added_too(
    e: ErrorView,
    matching: Seq<Seq<char>>,
    missed: Seq<error::MissedView>,
    rule: model::RuleView,
)
    ensures
        same_but_for_details(e.matches(matching), e),
        e.matches(matching).details == (DetailsView { matches: Some(matching), ..e.details }),
        same_but_for_details(e.missed(missed), e),
        e.missed(missed).details == (DetailsView { missed: Some(missed), ..e.details }),
        same_but_for_details(e.rule(rule), e),
        e.rule(rule).details == (DetailsView { rule: Some(rule), ..e.details }),
{
}

/// The common errors carry what they are about: the file and the reason, the operation too where
/// one failed, and both copies' places where mail was delivered and not filed.
pub proof fn common_errors_say_what_they_are_about(
    operation: Seq<char>,
    path: Seq<char>,
    other: Seq<char>,
    id: Seq<char>,
    reason: Seq<char>,
)
    ensures
        ErrorView::config(path, reason).code == ErrorCode::ConfigInvalid,
        ErrorView::config(path, reason).details.path == Some(path),
        ErrorView::config(path, reason).details.reason == Some(reason),
        ErrorView::io(operation, path, reason).code == ErrorCode::IoError,
        ErrorView::io(operation, path, reason).retryable,
        ErrorView::io(operation, path, reason).details.operation == Some(operation),
        ErrorView::io(operation, path, reason).details.path == Some(path),
        ErrorView::io(operation, path, reason).details.reason == Some(reason),
        ErrorView::invalid_argument(reason).code == ErrorCode::InvalidArgument,
        ErrorView::invalid_argument(reason).message == reason,
        ErrorView::delivered_output_failure(reason).code == ErrorCode::DeliveredOutputFailure,
        !ErrorView::delivered_output_failure(reason).retryable,
        ErrorView::delivered_output_failure(reason).details.reason == Some(reason),
        ErrorView::delivered_unarchived(id, path, other, reason).code
            == ErrorCode::DeliveredUnarchived,
        !ErrorView::delivered_unarchived(id, path, other, reason).retryable,
        ErrorView::delivered_unarchived(id, path, other, reason).details.id == Some(id),
        ErrorView::delivered_unarchived(id, path, other, reason).details.inbox_path == Some(path),
        ErrorView::delivered_unarchived(id, path, other, reason).details.archive_path == Some(
            other,
        ),
        ErrorView::delivered_unarchived(id, path, other, reason).details.reason == Some(reason),
{
}

/// Errors are seen as they are, field by field.
pub proof fn errors_are_seen_as_they_are(e: AppError, missed: MissedChannelMessage)
    ensures
        e@.code == e.code,
        e@.message == e.message@,
        e@.retryable == e.retryable,
        e@.suggested_fix == e.suggested_fix@,
        e@.exit_code == e.exit_code,
        e@.details.archive_path == text::opt(e.details.archive_path),
        e@.details.did_you_mean == text::opt(e.details.did_you_mean),
        e@.details.exact_fix == text::opt(e.details.exact_fix),
        e@.details.id == text::opt(e.details.id),
        e@.details.inbox_path == text::opt(e.details.inbox_path),
        e@.details.input == text::opt(e.details.input),
        e@.details.operation == text::opt(e.details.operation),
        e@.details.path == text::opt(e.details.path),
        e@.details.reason == text::opt(e.details.reason),
        e@.details.registered_path == text::opt(e.details.registered_path),
        e@.details.room == text::opt(e.details.room),
        e.details.matches matches Some(m) ==> e@.details.matches == Some(text::texts(m@)),
        e.details.rule matches Some(rule) ==> e@.details.rule == Some(rule@),
        e.details.missed matches Some(m) ==> (e@.details.missed matches Some(v) && v.len()
            == m@.len() && forall|i: int| 0 <= i < m@.len() ==> v[i] == (#[trigger] m@[i])@),
        missed@.id == missed.id@,
        missed@.from == missed.from@,
        missed@.subject == missed.subject@,
        missed@.sent == missed.sent@,
        missed@.body == missed.body@,
{
}

/// A result fails with its own error and succeeds with none; texts are seen one by one.
pub proof fn results_are_seen_as_they_are(r: error::AppResult<()>, items: Seq<String>, one: String)
    ensures
        error::failure(r) is None <==> r is Ok,
        r matches Err(e) ==> error::failure(r) == Some(e@),
        text::texts(items).len() == items.len(),
        forall|i: int| 0 <= i < items.len() ==> text::texts(items)[i] == (#[trigger] items[i])@,
        text::opt(Some(one)) == Some(one@),
        text::opt(None) == None::<Seq<char>>,
{
}

/// Escaping works character by character, so that an escaped text can be cut anywhere.
pub proof fn escaping_works_by_character(a: Seq<char>, b: Seq<char>)
    ensures
        mail::ascii_escaped(a + b) == mail::ascii_escaped(a) + mail::ascii_escaped(b),
    decreases a.len(),
{
    if a.len() == 0 {
        assert(a + b =~= b);
        assert(mail::ascii_escaped(a) + mail::ascii_escaped(b) =~= mail::ascii_escaped(b));
    } else {
        escaping_works_by_character(a.skip(1), b);
        assert((a + b).skip(1) =~= a.skip(1) + b);
        assert(mail::ascii_escaped(a + b) =~= mail::ascii_escaped(a) + mail::ascii_escaped(b));
    }
}

/// A character that ASCII prints stays; any other becomes a backslash, a `u` and four hexadecimal
/// digits that tell it, and one beyond sixteen bits becomes two such pairs.
pub proof fn other_characters_become_escapes(c: char)
    ensures
        (c as int) < 0x7f ==> mail::ascii_escaped(seq![c]) == seq![c],
        0x7f <= c as int <= 0xffff ==> mail::ascii_escaped(seq![c]) == "\\u"@ + text::low_hex(
            c as nat,
            4,
        ),
        c as int > 0xffff ==> mail::ascii_escaped(seq![c]) == "\\u"@ + text::low_hex(
            (0xd800 + (c as int - 0x10000) / 1024) as nat,
            4,
        ) + ("\\u"@ + text::low_hex((0xdc00 + (c as int - 0x10000) % 1024) as nat, 4)),
{
    assert(seq![c].skip(1) =~= Seq::<char>::empty());
    assert(mail::ascii_escaped(Seq::<char>::empty()) =~= Seq::<char>::empty());
    assert(mail::ascii_escaped(seq![c]) =~= mail::char_escape(c));
}

/// A mail file is its escaped header, a line of three dashes and its body, word for word.
pub proof fn mail_files_end_with_their_body(head: Seq<char>, body: Seq<char>)
    ensures
        mail::framed(head, body) == mail::ascii_escaped(head) + ("\n---\n"@ + body),
        mail::framed(head, body).skip(mail::ascii_escaped(head).len() as int + 5) == body,
        mail::framed(head, body).take(mail::ascii_escaped(head).len() as int)
            == mail::ascii_escaped(head),
{
    reveal_strlit("\n---\n");
    let whole = mail::framed(head, body);
    assert(whole =~= mail::ascii_escaped(head) + ("\n---\n"@ + body));
    assert(whole.skip(mail::ascii_escaped(head).len() as int + 5) =~= body);
    assert(whole.take(mail::ascii_escaped(head).len() as int) =~= mail::ascii_escaped(head));
}

/// Splitting a file loses nothing: header, separator and body are the whole file, and the header
/// holds no separator.
pub proof fn splitting_loses_nothing(raw: Seq<char>, head: Seq<char>, body: Seq<char>)
    requires
        mail::is_split(raw, head, body),
    ensures
        raw == head + "\n---\n"@ + body,
        !text::has_part(head, "\n---\n"@),
{
    reveal_strlit("\n---\n");
    let sep = "\n---\n"@;
    if text::has_part(head, sep) {
        let at = choose|at: int| text::occurs(head, sep, at);
        assert(raw.subrange(at, at + sep.len()) =~= head.subrange(at, at + sep.len()));
        assert(text::occurs(raw, sep, at));
        assert(at < head.len());
    }
}

/// Of the files of a directory those with the wanted extension are taken, all of them, and in the
/// order of their names.
pub proof fn files_are_taken_by_extension(
    chosen: Seq<Seq<char>>,
    listed: Seq<Seq<char>>,
    ext: Seq<char>,
    name: Seq<char>,
)
    requires
        mail::are_files_with(chosen, listed, ext),
    ensures
        chosen.contains(name) <==> listed.contains(name) && paths::extension(name) == Some(ext),
        forall|i: int, j: int|
            0 <= i <= j < chosen.len() ==> text::le(#[trigger] chosen[i], #[trigger] chosen[j]),
{
    broadcast use vstd::seq_lib::group_to_multiset_ensures;

    let keep = |name: Seq<char>| mail::has_extension(name, ext);
    let kept = listed.filter(keep);
    assert(chosen.contains(name) <==> chosen.to_multiset().count(name) > 0);
    assert(kept.contains(name) <==> kept.to_multiset().count(name) > 0);
    kept_names(listed, keep, name);
}

proof fn kept_names(listed: Seq<Seq<char>>, keep: spec_fn(Seq<char>) -> bool, name: Seq<char>)
    ensures
        listed.filter(keep).contains(name) <==> listed.contains(name) && keep(name),
    decreases listed.len(),
{
    reveal(Seq::filter);
    if listed.len() > 0 {
        let front = listed.drop_last();
        kept_names(front, keep, name);
        let kept = front.filter(keep);
        if listed.contains(name) && keep(name) {
            let i = choose|i: int| 0 <= i < listed.len() && listed[i] == name;
            if i < front.len() {
                assert(front[i] == name);
                let j = choose|j: int| 0 <= j < kept.len() && kept[j] == name;
                assert(listed.filter(keep)[j] == name);
            } else {
                assert(listed.filter(keep).last() == name);
            }
        }
        if listed.filter(keep).contains(name) {
            let j = choose|j: int|
                0 <= j < listed.filter(keep).len() && listed.filter(keep)[j] == name;
            if j < kept.len() {
                assert(kept[j] == name);
                let i = choose|i: int| 0 <= i < front.len() && front[i] == name;
                assert(listed[i] == name);
            } else {
                assert(listed[listed.len() - 1] == name);
            }
        }
    }
}

} // verus!
