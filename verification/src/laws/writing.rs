//! How files are brought to their place, and how a command ends.
use vstd::prelude::*;

use crate::command;
use crate::command::CommandResult;
use crate::error::ErrorCode;
use crate::store;
use crate::store::{Commit, OutcomeView, Place, WritingView};
use crate::text;

verus! {

/// A temporary file is hidden, is named after the file that it becomes, and ends as such files do;
/// processes and attempts that differ do not share one.
pub proof fn temporary_files_are_apart(
    filename: Seq<char>,
    process: u32,
    nonce: u64,
    other_process: u32,
    other_nonce: u64,
)
    ensures
        text::has_prefix(store::temporary(filename, process, nonce), "."@ + filename + "."@),
        text::has_suffix(store::temporary(filename, process, nonce), ".tmp"@),
        process == other_process && nonce != other_nonce ==> store::temporary(
            filename,
            process,
            nonce,
        ) != store::temporary(filename, other_process, other_nonce),
{
    reveal_strlit(".");
    reveal_strlit(".tmp");
    let whole = store::temporary(filename, process, nonce);
    let front = "."@ + filename + "."@;
    assert(whole.subrange(0, front.len() as int) =~= front);
    assert(whole.subrange(whole.len() - 4, whole.len() as int) =~= ".tmp"@);
    if process == other_process && nonce != other_nonce {
        let other = store::temporary(filename, other_process, other_nonce);
        let a = text::decimal(nonce as nat);
        let b = text::decimal(other_nonce as nat);
        let start = front + text::decimal(process as nat) + "."@;
        assert(whole =~= start + a + ".tmp"@);
        assert(other =~= start + b + ".tmp"@);
        if whole == other {
            assert(a =~= whole.subrange(start.len() as int, whole.len() - 4));
            assert(b =~= other.subrange(start.len() as int, other.len() - 4));
            text::decimals_are_read_back(nonce as nat);
            text::decimals_are_read_back(other_nonce as nat);
            crate::laws::words::numbers_are_read_from_digits(nonce, a);
            crate::laws::words::numbers_are_read_from_digits(other_nonce, b);
        }
    }
}

/// A replaced file keeps its mode bits, a new one is its owner's alone, and a link is not replaced.
pub proof fn replaced_files_keep_their_mode(mode: u32)
    ensures
        store::replacement_mode(Place::Link) is None,
        store::replacement_mode(Place::Missing) == Some(0o600u32),
        mode <= 0o7777 ==> store::replacement_mode(Place::File { mode }) == Some(mode),
        store::replacement_mode(Place::File { mode }) matches Some(m) && m <= 0o7777,
{
}

/// A file whose writing and placing both succeed is in its place, whatever becomes of the tidying;
/// one that fails at either is not, and says why.
pub proof fn files_are_placed_or_left_alone(
    commit: Commit,
    path: Seq<char>,
    exists_already: bool,
    problem: Seq<char>,
    last: OutcomeView,
)
    ensures
        store::run(commit, path, seq![OutcomeView::Good, OutcomeView::Good, OutcomeView::Good])
            == (WritingView::Done { warning: None }),
        store::run(commit, path, seq![OutcomeView::Good, OutcomeView::Good, last]) is Done,
        last is Bad ==> (store::run(
            commit,
            path,
            seq![OutcomeView::Good, OutcomeView::Good, last],
        ) matches WritingView::Done { warning } && warning is Some),
        store::run(commit, path, seq![OutcomeView::Bad { exists_already, problem }, last]) == (
        WritingView::Failed { exists_already, problem }),
        store::run(
            commit,
            path,
            seq![OutcomeView::Good, OutcomeView::Bad { exists_already, problem }, last],
        ) == (WritingView::Failed { exists_already, problem }),
{
    let good = OutcomeView::Good;
    let bad = OutcomeView::Bad { exists_already, problem };
    reveal_with_fuel(store::run, 5);
    assert(seq![good, good, good].drop_last() =~= seq![good, good]);
    assert(seq![good, good, last].drop_last() =~= seq![good, good]);
    assert(seq![good, good].drop_last() =~= seq![good]);
    assert(seq![good].drop_last() =~= Seq::<OutcomeView>::empty());
    assert(seq![bad, last].drop_last() =~= seq![bad]);
    assert(seq![bad].drop_last() =~= Seq::<OutcomeView>::empty());
    assert(seq![good, bad, last].drop_last() =~= seq![good, bad]);
    assert(seq![good, bad].drop_last() =~= seq![good]);
    assert(store::run(commit, path, seq![]) is Prepare);
    assert(store::run(commit, path, seq![good]) is Commit);
    assert(store::run(commit, path, seq![good, good]) is Settle);
}

/// The warning about tidying names the file and the problem.
pub proof fn tidying_warnings_name_the_file(commit: Commit, path: Seq<char>, problem: Seq<char>)
    ensures
        text::has_prefix(
            store::settle_warning(commit, path, problem),
            "post: warning: '"@ + path + "' was committed"@,
        ),
        text::has_suffix(store::settle_warning(commit, path, problem), problem),
{
    reveal_strlit("post: warning: '");
    reveal_strlit("' was committed");
    reveal_strlit("' was committed, but temporary-file cleanup or directory sync failed: ");
    reveal_strlit("' was committed, but directory sync failed: ");
    let whole = store::settle_warning(commit, path, problem);
    let front = "post: warning: '"@ + path + "' was committed"@;
    assert(whole.subrange(0, front.len() as int) =~= front);
    assert(whole.subrange(whole.len() - problem.len(), whole.len() as int) =~= problem);
}

/// A command whose output is written ends with its exit status and does what waited for the output.
/// One whose output is not written does nothing more: a delivered message fails as delivered, so
/// that nobody sends it again, a registered room is registered all the same, and anything else fails
/// as a write that may be retried.
pub proof fn commands_end_by_their_output(result: CommandResult, problem: Seq<char>)
    ensures
        command::ending(result, None) matches Ok(finish) && finish.exit_code == result.exit_code
            && finish.run_action,
        result.registration_committed ==> (command::ending(result, Some(problem)) matches Ok(finish)
            && finish.exit_code == result.exit_code && !finish.run_action),
        !result.registration_committed && result.delivery_committed ==> (command::ending(
            result,
            Some(problem),
        ) matches Err(e) && e.code == ErrorCode::DeliveredOutputFailure && !e.retryable
            && e.details.reason == Some(problem)),
        !result.registration_committed && !result.delivery_committed ==> (command::ending(
            result,
            Some(problem),
        ) matches Err(e) && e.code == ErrorCode::IoError && e.retryable && e.details.reason
            == Some(problem)),
{
}

} // verus!
