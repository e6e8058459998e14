//! The end of a command: what its output and its exit code say of what it did.
use crate::error;
use crate::error::{AppError, AppResult, ErrorCode};
use crate::text;
use vstd::prelude::*;

verus! {

/// What a command came to.
#[derive(Debug)]
pub struct CommandResult {
    pub stdout: String,
    pub exit_code: i32,
    /// Whether a message was delivered, so that a repetition would deliver it twice.
    pub delivery_committed: bool,
    /// Whether a room was registered.
    pub registration_committed: bool,
}

impl CommandResult {
    pub fn success(stdout: String) -> (r: CommandResult)
        ensures
            r.stdout == stdout,
            r.exit_code == 0,
            !r.delivery_committed,
            !r.registration_committed,
    {
        CommandResult {
            stdout,
            exit_code: 0,
            delivery_committed: false,
            registration_committed: false,
        }
    }

    pub fn committed(stdout: String) -> (r: CommandResult)
        ensures
            r.stdout == stdout,
            r.exit_code == 0,
            r.delivery_committed,
            !r.registration_committed,
    {
        CommandResult {
            stdout,
            exit_code: 0,
            delivery_committed: true,
            registration_committed: false,
        }
    }

    pub fn registration_committed(self) -> (r: CommandResult)
        ensures
            r == (CommandResult { registration_committed: true, ..self }),
    {
        CommandResult {
            stdout: self.stdout,
            exit_code: self.exit_code,
            delivery_committed: self.delivery_committed,
            registration_committed: true,
        }
    }
}

/// What is left to do once the output was written, or could not be.
#[derive(Debug)]
pub struct Finish {
    pub exit_code: i32,
    /// Whether to do what waits for the output: to mark a mail as read, or to move a cursor.
    pub run_action: bool,
}

impl View for Finish {
    type V = Finish;

    open spec fn view(&self) -> Finish {
        *self
    }
}

/// The end of a command, from how the writing of its output ended. What waits for the output
/// is done only if the whole output was written. A failed output of a delivered message must
/// not invite a repetition; one of a registered room is no failure.
pub open spec fn ending(result: CommandResult, problem: Option<Seq<char>>) -> Result<
    Finish,
    error::ErrorView,
> {
    match problem {
        None => Ok(Finish { exit_code: result.exit_code, run_action: true }),
        Some(p) => if result.registration_committed {
            Ok(Finish { exit_code: result.exit_code, run_action: false })
        } else if result.delivery_committed {
            Err(error::ErrorView::delivered_output_failure(p))
        } else {
            Err(error::ErrorView::io("write stdout"@, "<stdout>"@, p))
        },
    }
}

/// Decides the end of a command.
pub fn finish_command_result(result: &CommandResult, problem: Option<&str>) -> (r: AppResult<
    Finish,
>)
    ensures
        error::outcome(r) == ending(*result, text::opt_str(problem)),
{
    match problem {
        None => Ok(Finish { exit_code: result.exit_code, run_action: true }),
        Some(p) => if result.registration_committed {
            Ok(Finish { exit_code: result.exit_code, run_action: false })
        } else if result.delivery_committed {
            Err(AppError::delivered_output_failure(p))
        } else {
            Err(AppError::io("write stdout", "<stdout>", p))
        },
    }
}

/// A cursor moves, and a mail is marked as read, only after the whole output was written.
pub proof fn actions_follow_the_output(result: CommandResult, problem: Option<Seq<char>>)
    ensures
        match ending(result, problem) {
            Ok(finish) => finish.run_action <==> problem is None,
            Err(_) => problem is Some,
        },
{
}

/// What was committed invites no repetition: when the output of a delivered message or of a
/// registered room is lost, the command does not end with an error that may be retried.
pub proof fn committed_work_is_never_retryable(result: CommandResult, problem: Option<Seq<char>>)
    requires
        result.delivery_committed || result.registration_committed,
    ensures
        match ending(result, problem) {
            Ok(finish) => finish.exit_code == result.exit_code,
            Err(e) => e.code == ErrorCode::DeliveredOutputFailure && !e.retryable,
        },
{
}

} // verus!
