//! Writing files of the store: a file appears whole or not at all, and an existing one is
//! replaced only where that is meant.
use crate::text;
use vstd::prelude::*;

verus! {

/// The name of the file that is written before the real one appears.
pub open spec fn temporary(filename: Seq<char>, process: u32, nonce: u64) -> Seq<char> {
    "."@ + filename + "."@ + text::decimal(process as nat) + "."@ + text::decimal(nonce as nat)
        + ".tmp"@
}

pub fn temporary_name(filename: &str, process: u32, nonce: u64) -> (r: String)
    ensures
        r@ == temporary(filename@, process, nonce),
{
    text::cat7(
        ".",
        filename,
        ".",
        text::decimal_text(process as u64).as_str(),
        ".",
        text::decimal_text(nonce).as_str(),
        ".tmp",
    )
}

/// How a file comes to its place.
#[derive(Debug, Clone, Copy, PartialEq, Eq, Structural)]
pub enum Commit {
    /// By a link, which fails where a file is already.
    Link,
    /// By a renaming, which replaces a file that is there.
    Rename,
}

/// What is known of the place of a file that is to be replaced.
#[derive(Debug, Clone, Copy, PartialEq, Eq, Structural)]
pub enum Place {
    Missing,
    /// A link: it is neither followed nor replaced.
    Link,
    /// A file with the given mode bits.
    File { mode: u32 },
}

pub const PRIVATE_MODE: u32 = 0o600;

pub const SYMLINK_REFUSAL: &'static str = "refusing to replace a symlinked config file";

/// The mode of the file that replaces what is at a place.
pub open spec fn replacement_mode(place: Place) -> Option<u32> {
    match place {
        Place::Missing => Some(PRIVATE_MODE),
        Place::Link => None,
        Place::File { mode } => Some(mode % 4096),
    }
}

/// Chooses the mode of a replacement: that of the file it replaces, or a private one. A link
/// is refused.
pub fn plan_replacement(place: Place) -> (r: Result<u32, &'static str>)
    ensures
        match r {
            Ok(mode) => replacement_mode(place) == Some(mode),
            Err(reason) => replacement_mode(place) is None && reason@ == SYMLINK_REFUSAL@,
        },
{
    match place {
        Place::Missing => Ok(PRIVATE_MODE),
        Place::Link => Err(SYMLINK_REFUSAL),
        Place::File { mode } => Ok(mode % 4096),
    }
}

/// Where the writing of a file stands, and so what it needs next.
#[derive(Debug)]
pub enum Writing {
    /// Make the temporary file, write it and bring it to the disk.
    Prepare,
    /// Bring it to its place.
    Commit,
    /// Tidy up: remove a temporary file that is left, and bring the directory to the disk.
    Settle,
    /// Remove the temporary file of a writing that failed.
    Discard { exists_already: bool, problem: String },
    /// Nothing: the file is in its place.
    Done { warning: Option<String> },
    /// Nothing: the place is as it was.
    Failed { exists_already: bool, problem: String },
}

pub ghost enum WritingView {
    Prepare,
    Commit,
    Settle,
    Discard { exists_already: bool, problem: Seq<char> },
    Done { warning: Option<Seq<char>> },
    Failed { exists_already: bool, problem: Seq<char> },
}

impl View for Writing {
    type V = WritingView;

    open spec fn view(&self) -> WritingView {
        match self {
            Writing::Prepare => WritingView::Prepare,
            Writing::Commit => WritingView::Commit,
            Writing::Settle => WritingView::Settle,
            Writing::Discard { exists_already, problem } => WritingView::Discard {
                exists_already: *exists_already,
                problem: problem@,
            },
            Writing::Done { warning } => WritingView::Done { warning: text::opt(*warning) },
            Writing::Failed { exists_already, problem } => WritingView::Failed {
                exists_already: *exists_already,
                problem: problem@,
            },
        }
    }
}

/// The outcome of one step of work.
#[derive(Debug)]
pub enum Outcome {
    Good,
    /// It failed; whether because a file was there already, and why.
    Bad { exists_already: bool, problem: String },
}

pub ghost enum OutcomeView {
    Good,
    Bad { exists_already: bool, problem: Seq<char> },
}

impl View for Outcome {
    type V = OutcomeView;

    open spec fn view(&self) -> OutcomeView {
        match self {
            Outcome::Good => OutcomeView::Good,
            Outcome::Bad { exists_already, problem } => OutcomeView::Bad {
                exists_already: *exists_already,
                problem: problem@,
            },
        }
    }
}

/// What is said of a file that is in its place although tidying up failed.
pub open spec fn settle_warning(commit: Commit, path: Seq<char>, problem: Seq<char>) -> Seq<char> {
    "post: warning: '"@ + path + (match commit {
        Commit::Link => "' was committed, but temporary-file cleanup or directory sync failed: "@,
        Commit::Rename => "' was committed, but directory sync failed: "@,
    }) + problem
}

/// The state that follows an outcome.
pub open spec fn next(
    commit: Commit,
    path: Seq<char>,
    state: WritingView,
    outcome: OutcomeView,
) -> WritingView {
    match state {
        WritingView::Prepare => match outcome {
            OutcomeView::Good => WritingView::Commit,
            OutcomeView::Bad { exists_already, problem } => WritingView::Discard {
                exists_already,
                problem,
            },
        },
        WritingView::Commit => match outcome {
            OutcomeView::Good => WritingView::Settle,
            OutcomeView::Bad { exists_already, problem } => WritingView::Discard {
                exists_already,
                problem,
            },
        },
        WritingView::Settle => match outcome {
            OutcomeView::Good => WritingView::Done { warning: None },
            OutcomeView::Bad { exists_already, problem } => WritingView::Done {
                warning: Some(settle_warning(commit, path, problem)),
            },
        },
        WritingView::Discard { exists_already, problem } => WritingView::Failed {
            exists_already,
            problem,
        },
        _ => state,
    }
}

impl Writing {
    pub fn start() -> (r: Writing)
        ensures
            r@ == WritingView::Prepare,
    {
        Writing::Prepare
    }

    /// The state after an outcome. A failure to discard changes nothing: the writing has
    /// failed already, for its own reason.
    pub fn step(self, commit: Commit, path: &str, outcome: Outcome) -> (r: Writing)
        ensures
            r@ == next(commit, path@, self@, outcome@),
    {
        match self {
            Writing::Prepare => match outcome {
                Outcome::Good => Writing::Commit,
                Outcome::Bad { exists_already, problem } => Writing::Discard {
                    exists_already,
                    problem,
                },
            },
            Writing::Commit => match outcome {
                Outcome::Good => Writing::Settle,
                Outcome::Bad { exists_already, problem } => Writing::Discard {
                    exists_already,
                    problem,
                },
            },
            Writing::Settle => match outcome {
                Outcome::Good => Writing::Done { warning: None },
                Outcome::Bad { exists_already: _, problem } => {
                    let middle = match commit {
                        Commit::Link => "' was committed, but temporary-file cleanup or directory sync failed: ",
                        Commit::Rename => "' was committed, but directory sync failed: ",
                    };
                    Writing::Done {
                        warning: Some(
                            text::cat4("post: warning: '", path, middle, problem.as_str()),
                        ),
                    }
                },
            },
            Writing::Discard { exists_already, problem } => Writing::Failed {
                exists_already,
                problem,
            },
            state => state,
        }
    }
}

/// The state after a whole run of outcomes.
pub open spec fn run(commit: Commit, path: Seq<char>, outcomes: Seq<OutcomeView>) -> WritingView
    decreases outcomes.len(),
{
    if outcomes.len() == 0 {
        WritingView::Prepare
    } else {
        next(commit, path, run(commit, path, outcomes.drop_last()), outcomes.last())
    }
}

/// Whether the file came to its place in a run: the second step was done, after the first.
pub open spec fn committed(outcomes: Seq<OutcomeView>) -> bool {
    outcomes.len() >= 2 && outcomes[0] is Good && outcomes[1] is Good
}

/// A file appears whole or not at all, and the report says which: it comes to its place only
/// after it was written in full, a writing that succeeded has brought it there, and one that
/// failed has left the place as it was. What fails after that is a warning, never a failure.
pub proof fn files_appear_whole_or_not_at_all(
    commit: Commit,
    path: Seq<char>,
    outcomes: Seq<OutcomeView>,
)
    ensures
        run(commit, path, outcomes) is Done ==> committed(outcomes),
        run(commit, path, outcomes) is Failed ==> !committed(outcomes),
        run(commit, path, outcomes) is Settle <==> outcomes.len() == 2 && committed(outcomes),
        run(commit, path, outcomes) is Commit <==> outcomes.len() == 1 && outcomes[0] is Good,
        outcomes.len() >= 3 ==> run(commit, path, outcomes) is Done || run(
            commit,
            path,
            outcomes,
        ) is Failed,
    decreases outcomes.len(),
{
    if outcomes.len() > 0 {
        let before = outcomes.drop_last();
        files_appear_whole_or_not_at_all(commit, path, before);
        if outcomes.len() <= 3 {
            if before.len() > 0 {
                files_appear_whole_or_not_at_all(commit, path, before.drop_last());
            }
            assert(forall|i: int| 0 <= i < before.len() ==> before[i] == outcomes[i]);
            assert(outcomes.last() == outcomes[outcomes.len() - 1]);
            reveal_with_fuel(run, 4);
        }
        assert(forall|i: int| 0 <= i < before.len() ==> before[i] == outcomes[i]);
    }
}

} // verus!
