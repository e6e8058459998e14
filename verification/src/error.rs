//! Structured errors: a code, a message, details for a machine and a fix for the reader.
use crate::model;
use crate::model::BlockingRule;
use crate::text;
use vstd::prelude::*;

verus! {

pub type AppResult<T> = Result<T, AppError>;

/// A message that a bounced send has crossed with.
#[derive(Debug)]
pub struct MissedChannelMessage {
    pub id: String,
    pub from: String,
    pub subject: String,
    pub sent: String,
    pub body: String,
}

pub ghost struct MissedView {
    pub id: Seq<char>,
    pub from: Seq<char>,
    pub subject: Seq<char>,
    pub sent: Seq<char>,
    pub body: Seq<char>,
}

impl View for MissedChannelMessage {
    type V = MissedView;

    open spec fn view(&self) -> MissedView {
        MissedView {
            id: self.id@,
            from: self.from@,
            subject: self.subject@,
            sent: self.sent@,
            body: self.body@,
        }
    }
}

/// The missed messages of a list, as values.
pub open spec fn missed_view(items: Seq<MissedChannelMessage>) -> Seq<MissedView> {
    items.map_values(|m: MissedChannelMessage| m@)
}

impl Clone for MissedChannelMessage {
    fn clone(&self) -> (r: MissedChannelMessage)
        ensures
            r@ == self@,
    {
        MissedChannelMessage {
            id: self.id.clone(),
            from: self.from.clone(),
            subject: self.subject.clone(),
            sent: self.sent.clone(),
            body: self.body.clone(),
        }
    }
}

/// A copy of a list of missed messages.
fn clone_missed(items: &Vec<MissedChannelMessage>) -> (r: Vec<MissedChannelMessage>)
    ensures
        missed_view(r@) == missed_view(items@),
{
    let mut out: Vec<MissedChannelMessage> = Vec::new();
    for i in 0..items.len()
        invariant
            missed_view(out@) == missed_view(items@).take(i as int),
    {
        let ghost before = missed_view(out@);
        out.push(items[i].clone());
        assert(missed_view(out@) =~= before.push(items@[i as int]@));
        assert(missed_view(items@).take(i + 1) =~= before.push(items@[i as int]@));
    }
    assert(missed_view(items@).take(items@.len() as int) =~= missed_view(items@));
    out
}

/// What a machine can read about an error.
#[derive(Debug)]
pub struct ErrorDetails {
    pub archive_path: Option<String>,
    pub did_you_mean: Option<String>,
    pub exact_fix: Option<String>,
    pub id: Option<String>,
    pub inbox_path: Option<String>,
    pub input: Option<String>,
    pub matches: Option<Vec<String>>,
    pub missed: Option<Vec<MissedChannelMessage>>,
    pub operation: Option<String>,
    pub path: Option<String>,
    pub reason: Option<String>,
    pub registered_path: Option<String>,
    pub room: Option<String>,
    pub rule: Option<BlockingRule>,
}

pub ghost struct DetailsView {
    pub archive_path: Option<Seq<char>>,
    pub did_you_mean: Option<Seq<char>>,
    pub exact_fix: Option<Seq<char>>,
    pub id: Option<Seq<char>>,
    pub inbox_path: Option<Seq<char>>,
    pub input: Option<Seq<char>>,
    pub matches: Option<Seq<Seq<char>>>,
    pub missed: Option<Seq<MissedView>>,
    pub operation: Option<Seq<char>>,
    pub path: Option<Seq<char>>,
    pub reason: Option<Seq<char>>,
    pub registered_path: Option<Seq<char>>,
    pub room: Option<Seq<char>>,
    pub rule: Option<model::RuleView>,
}

impl View for ErrorDetails {
    type V = DetailsView;

    open spec fn view(&self) -> DetailsView {
        DetailsView {
            archive_path: text::opt(self.archive_path),
            did_you_mean: text::opt(self.did_you_mean),
            exact_fix: text::opt(self.exact_fix),
            id: text::opt(self.id),
            inbox_path: text::opt(self.inbox_path),
            input: text::opt(self.input),
            matches: match self.matches {
                Some(m) => Some(text::texts(m@)),
                None => None,
            },
            missed: match self.missed {
                Some(m) => Some(missed_view(m@)),
                None => None,
            },
            operation: text::opt(self.operation),
            path: text::opt(self.path),
            reason: text::opt(self.reason),
            registered_path: text::opt(self.registered_path),
            room: text::opt(self.room),
            rule: match self.rule {
                Some(r) => Some(r@),
                None => None,
            },
        }
    }
}

impl DetailsView {
    /// Details that say nothing.
    pub open spec fn none() -> DetailsView {
        DetailsView {
            archive_path: None,
            did_you_mean: None,
            exact_fix: None,
            id: None,
            inbox_path: None,
            input: None,
            matches: None,
            missed: None,
            operation: None,
            path: None,
            reason: None,
            registered_path: None,
            room: None,
            rule: None,
        }
    }
}

impl Default for ErrorDetails {
    fn default() -> (r: ErrorDetails)
        ensures
            r@ == DetailsView::none(),
    {
        ErrorDetails {
            archive_path: None,
            did_you_mean: None,
            exact_fix: None,
            id: None,
            inbox_path: None,
            input: None,
            matches: None,
            missed: None,
            operation: None,
            path: None,
            reason: None,
            registered_path: None,
            room: None,
            rule: None,
        }
    }
}

impl Clone for ErrorDetails {
    fn clone(&self) -> (r: ErrorDetails)
        ensures
            r@ == self@,
    {
        ErrorDetails {
            archive_path: text::opt_clone(&self.archive_path),
            did_you_mean: text::opt_clone(&self.did_you_mean),
            exact_fix: text::opt_clone(&self.exact_fix),
            id: text::opt_clone(&self.id),
            inbox_path: text::opt_clone(&self.inbox_path),
            input: text::opt_clone(&self.input),
            matches: match &self.matches {
                Some(items) => Some(text::texts_clone(items)),
                None => None,
            },
            missed: match &self.missed {
                Some(items) => Some(clone_missed(items)),
                None => None,
            },
            operation: text::opt_clone(&self.operation),
            path: text::opt_clone(&self.path),
            reason: text::opt_clone(&self.reason),
            registered_path: text::opt_clone(&self.registered_path),
            room: text::opt_clone(&self.room),
            rule: match &self.rule {
                Some(rule) => Some(rule.clone()),
                None => None,
            },
        }
    }
}

/// The kinds of failure.
#[derive(Debug, Clone, Copy, PartialEq, Eq, Structural)]
pub enum ErrorCode {
    UnknownRoom,
    BlockedRoute,
    ReservedSender,
    EmptyBody,
    AmbiguousId,
    NotFound,
    InvalidArgument,
    ConfigInvalid,
    DuplicateWorkspace,
    IoError,
    DeliveredOutputFailure,
    DeliveredUnarchived,
    NotAMember,
    CrossedSend,
}

impl ErrorCode {
    pub open spec fn name(self) -> Seq<char> {
        match self {
            ErrorCode::UnknownRoom => "unknown_room"@,
            ErrorCode::BlockedRoute => "blocked_route"@,
            ErrorCode::ReservedSender => "reserved_sender"@,
            ErrorCode::EmptyBody => "empty_body"@,
            ErrorCode::AmbiguousId => "ambiguous_id"@,
            ErrorCode::NotFound => "not_found"@,
            ErrorCode::InvalidArgument => "invalid_argument"@,
            ErrorCode::ConfigInvalid => "config_invalid"@,
            ErrorCode::DuplicateWorkspace => "duplicate_workspace"@,
            ErrorCode::IoError => "io_error"@,
            ErrorCode::DeliveredOutputFailure => "delivered_output_failure"@,
            ErrorCode::DeliveredUnarchived => "delivered_unarchived"@,
            ErrorCode::NotAMember => "not_a_member"@,
            ErrorCode::CrossedSend => "crossed_send"@,
        }
    }

    pub open spec fn exit(self) -> int {
        match self {
            ErrorCode::InvalidArgument => 2,
            ErrorCode::NotFound => 66,
            ErrorCode::BlockedRoute => 77,
            ErrorCode::ConfigInvalid => 78,
            ErrorCode::IoError => 75,
            ErrorCode::DeliveredOutputFailure => 70,
            ErrorCode::DeliveredUnarchived => 70,
            _ => 65,
        }
    }

    /// Every code, in the order in which they are documented.
    pub fn all() -> (r: Vec<ErrorCode>)
        ensures
            r@ == all_codes(),
    {
        vec![
            ErrorCode::UnknownRoom,
            ErrorCode::BlockedRoute,
            ErrorCode::ReservedSender,
            ErrorCode::EmptyBody,
            ErrorCode::AmbiguousId,
            ErrorCode::NotFound,
            ErrorCode::InvalidArgument,
            ErrorCode::ConfigInvalid,
            ErrorCode::DuplicateWorkspace,
            ErrorCode::IoError,
            ErrorCode::DeliveredOutputFailure,
            ErrorCode::DeliveredUnarchived,
            ErrorCode::NotAMember,
            ErrorCode::CrossedSend,
        ]
    }

    /// The name of the code on the wire.
    pub fn as_str(self) -> (r: &'static str)
        ensures
            r@ == self.name(),
    {
        match self {
            ErrorCode::UnknownRoom => "unknown_room",
            ErrorCode::BlockedRoute => "blocked_route",
            ErrorCode::ReservedSender => "reserved_sender",
            ErrorCode::EmptyBody => "empty_body",
            ErrorCode::AmbiguousId => "ambiguous_id",
            ErrorCode::NotFound => "not_found",
            ErrorCode::InvalidArgument => "invalid_argument",
            ErrorCode::ConfigInvalid => "config_invalid",
            ErrorCode::DuplicateWorkspace => "duplicate_workspace",
            ErrorCode::IoError => "io_error",
            ErrorCode::DeliveredOutputFailure => "delivered_output_failure",
            ErrorCode::DeliveredUnarchived => "delivered_unarchived",
            ErrorCode::NotAMember => "not_a_member",
            ErrorCode::CrossedSend => "crossed_send",
        }
    }

    /// The exit status of a command that fails with this code.
    pub fn exit_code(self) -> (r: i32)
        ensures
            r == self.exit(),
    {
        match self {
            ErrorCode::InvalidArgument => 2,
            ErrorCode::UnknownRoom
            | ErrorCode::ReservedSender
            | ErrorCode::EmptyBody
            | ErrorCode::AmbiguousId
            | ErrorCode::DuplicateWorkspace
            | ErrorCode::NotAMember
            | ErrorCode::CrossedSend => 65,
            ErrorCode::NotFound => 66,
            ErrorCode::BlockedRoute => 77,
            ErrorCode::ConfigInvalid => 78,
            ErrorCode::IoError => 75,
            ErrorCode::DeliveredOutputFailure | ErrorCode::DeliveredUnarchived => 70,
        }
    }

    /// Whether the same command may simply be tried again.
    pub fn retryable(self) -> (r: bool)
        ensures
            r == (self == ErrorCode::IoError),
    {
        matches!(self, ErrorCode::IoError)
    }
}

pub open spec fn all_codes() -> Seq<ErrorCode> {
    seq![
        ErrorCode::UnknownRoom,
        ErrorCode::BlockedRoute,
        ErrorCode::ReservedSender,
        ErrorCode::EmptyBody,
        ErrorCode::AmbiguousId,
        ErrorCode::NotFound,
        ErrorCode::InvalidArgument,
        ErrorCode::ConfigInvalid,
        ErrorCode::DuplicateWorkspace,
        ErrorCode::IoError,
        ErrorCode::DeliveredOutputFailure,
        ErrorCode::DeliveredUnarchived,
        ErrorCode::NotAMember,
        ErrorCode::CrossedSend,
    ]
}

/// Every code is listed, and none is listed twice.
pub proof fn every_code_is_listed_once(code: ErrorCode)
    ensures
        all_codes().contains(code),
        all_codes().no_duplicates(),
{
    let codes = all_codes();
    assert(codes[0] == ErrorCode::UnknownRoom);
    assert(codes[1] == ErrorCode::BlockedRoute);
    assert(codes[2] == ErrorCode::ReservedSender);
    assert(codes[3] == ErrorCode::EmptyBody);
    assert(codes[4] == ErrorCode::AmbiguousId);
    assert(codes[5] == ErrorCode::NotFound);
    assert(codes[6] == ErrorCode::InvalidArgument);
    assert(codes[7] == ErrorCode::ConfigInvalid);
    assert(codes[8] == ErrorCode::DuplicateWorkspace);
    assert(codes[9] == ErrorCode::IoError);
    assert(codes[10] == ErrorCode::DeliveredOutputFailure);
    assert(codes[11] == ErrorCode::DeliveredUnarchived);
    assert(codes[12] == ErrorCode::NotAMember);
    assert(codes[13] == ErrorCode::CrossedSend);
}

/// A failed command.
#[derive(Debug)]
pub struct AppError {
    pub code: ErrorCode,
    pub message: String,
    pub details: Box<ErrorDetails>,
    pub retryable: bool,
    pub suggested_fix: String,
    pub exit_code: i32,
}

pub ghost struct ErrorView {
    pub code: ErrorCode,
    pub message: Seq<char>,
    pub details: DetailsView,
    pub retryable: bool,
    pub suggested_fix: Seq<char>,
    pub exit_code: int,
}

impl View for AppError {
    type V = ErrorView;

    open spec fn view(&self) -> ErrorView {
        ErrorView {
            code: self.code,
            message: self.message@,
            details: (*self.details)@,
            retryable: self.retryable,
            suggested_fix: self.suggested_fix@,
            exit_code: self.exit_code as int,
        }
    }
}

impl ErrorView {
    /// An error with a code, a message and a fix, and no details.
    pub open spec fn of(code: ErrorCode, message: Seq<char>, fix: Seq<char>) -> ErrorView {
        ErrorView {
            code,
            message,
            details: DetailsView::none(),
            retryable: code == ErrorCode::IoError,
            suggested_fix: fix,
            exit_code: code.exit(),
        }
    }

    pub open spec fn archive_path(self, v: Seq<char>) -> ErrorView {
        ErrorView { details: DetailsView { archive_path: Some(v), ..self.details }, ..self }
    }

    pub open spec fn did_you_mean(self, v: Seq<char>) -> ErrorView {
        ErrorView { details: DetailsView { did_you_mean: Some(v), ..self.details }, ..self }
    }

    pub open spec fn exact_fix(self, v: Seq<char>) -> ErrorView {
        ErrorView { details: DetailsView { exact_fix: Some(v), ..self.details }, ..self }
    }

    pub open spec fn id(self, v: Seq<char>) -> ErrorView {
        ErrorView { details: DetailsView { id: Some(v), ..self.details }, ..self }
    }

    pub open spec fn inbox_path(self, v: Seq<char>) -> ErrorView {
        ErrorView { details: DetailsView { inbox_path: Some(v), ..self.details }, ..self }
    }

    pub open spec fn input(self, v: Seq<char>) -> ErrorView {
        ErrorView { details: DetailsView { input: Some(v), ..self.details }, ..self }
    }

    pub open spec fn matches(self, v: Seq<Seq<char>>) -> ErrorView {
        ErrorView { details: DetailsView { matches: Some(v), ..self.details }, ..self }
    }

    pub open spec fn missed(self, v: Seq<MissedView>) -> ErrorView {
        ErrorView { details: DetailsView { missed: Some(v), ..self.details }, ..self }
    }

    pub open spec fn operation(self, v: Seq<char>) -> ErrorView {
        ErrorView { details: DetailsView { operation: Some(v), ..self.details }, ..self }
    }

    pub open spec fn path(self, v: Seq<char>) -> ErrorView {
        ErrorView { details: DetailsView { path: Some(v), ..self.details }, ..self }
    }

    pub open spec fn reason(self, v: Seq<char>) -> ErrorView {
        ErrorView { details: DetailsView { reason: Some(v), ..self.details }, ..self }
    }

    pub open spec fn registered_path(self, v: Seq<char>) -> ErrorView {
        ErrorView { details: DetailsView { registered_path: Some(v), ..self.details }, ..self }
    }

    pub open spec fn room(self, v: Seq<char>) -> ErrorView {
        ErrorView { details: DetailsView { room: Some(v), ..self.details }, ..self }
    }

    pub open spec fn rule(self, v: model::RuleView) -> ErrorView {
        ErrorView { details: DetailsView { rule: Some(v), ..self.details }, ..self }
    }

    /// The command line was not understood.
    pub open spec fn invalid_argument(message: Seq<char>) -> ErrorView {
        ErrorView::of(
            ErrorCode::InvalidArgument,
            message,
            "Run `post --help` or `post schema` and retry with the documented syntax."@,
        )
    }

    /// A file of the store is not what it should be.
    pub open spec fn config(path: Seq<char>, reason: Seq<char>) -> ErrorView {
        ErrorView::of(
            ErrorCode::ConfigInvalid,
            "configuration '"@ + path + "' is invalid: "@ + reason,
            "Fix the named file by hand, then run `post doctor`."@,
        ).path(path).reason(reason)
    }

    /// An operation on a file failed.
    pub open spec fn io(operation: Seq<char>, path: Seq<char>, reason: Seq<char>) -> ErrorView {
        ErrorView::of(
            ErrorCode::IoError,
            "failed to "@ + operation + " '"@ + path + "': "@ + reason,
            "Check that '"@ + path
                + "' exists and is readable/writable, then retry the same command."@,
        ).operation(operation).path(path).reason(reason)
    }

    /// A mail was delivered, and its receipt could not be printed.
    pub open spec fn delivered_output_failure(reason: Seq<char>) -> ErrorView {
        ErrorView::of(
            ErrorCode::DeliveredOutputFailure,
            "mail was delivered but its receipt could not be written to stdout: "@ + reason,
            "Do not resend this mail; inspect the recipient inbox or archive for the delivered message."@,
        ).operation("write stdout after delivery"@).reason(reason)
    }

    /// A mail was delivered, and its archive copy could not be written.
    pub open spec fn delivered_unarchived(
        id: Seq<char>,
        inbox: Seq<char>,
        archive: Seq<char>,
        reason: Seq<char>,
    ) -> ErrorView {
        ErrorView::of(
            ErrorCode::DeliveredUnarchived,
            "mail '"@ + id + "' was delivered to '"@ + inbox + "' but could not be archived at '"@
                + archive + "': "@ + reason,
            "Do not resend this mail; run `post doctor` and reconcile the delivered and archive copies by hand."@,
        ).id(id).inbox_path(inbox).archive_path(archive).reason(reason)
    }
}

impl AppError {
    pub fn new(code: ErrorCode, message: &str, suggested_fix: &str) -> (r: Self)
        ensures
            r@ == ErrorView::of(code, message@, suggested_fix@),
    {
        AppError {
            code,
            message: message.to_owned(),
            details: Box::new(ErrorDetails::default()),
            retryable: code.retryable(),
            suggested_fix: suggested_fix.to_owned(),
            exit_code: code.exit_code(),
        }
    }

    pub fn archive_path(self, value: &str) -> (r: Self)
        ensures
            r@ == self@.archive_path(value@),
    {
        let mut error = self;
        error.details.archive_path = Some(value.to_owned());
        error
    }

    pub fn did_you_mean(self, value: &str) -> (r: Self)
        ensures
            r@ == self@.did_you_mean(value@),
    {
        let mut error = self;
        error.details.did_you_mean = Some(value.to_owned());
        error
    }

    pub fn exact_fix(self, value: &str) -> (r: Self)
        ensures
            r@ == self@.exact_fix(value@),
    {
        let mut error = self;
        error.details.exact_fix = Some(value.to_owned());
        error
    }

    pub fn id(self, value: &str) -> (r: Self)
        ensures
            r@ == self@.id(value@),
    {
        let mut error = self;
        error.details.id = Some(value.to_owned());
        error
    }

    pub fn inbox_path(self, value: &str) -> (r: Self)
        ensures
            r@ == self@.inbox_path(value@),
    {
        let mut error = self;
        error.details.inbox_path = Some(value.to_owned());
        error
    }

    pub fn input(self, value: &str) -> (r: Self)
        ensures
            r@ == self@.input(value@),
    {
        let mut error = self;
        error.details.input = Some(value.to_owned());
        error
    }

    pub fn matches(self, value: Vec<String>) -> (r: Self)
        ensures
            r@ == self@.matches(text::texts(value@)),
    {
        let mut error = self;
        error.details.matches = Some(value);
        error
    }

    pub fn missed(self, value: Vec<MissedChannelMessage>) -> (r: Self)
        ensures
            r@ == self@.missed(missed_view(value@)),
    {
        let mut error = self;
        error.details.missed = Some(value);
        error
    }

    pub fn operation(self, value: &str) -> (r: Self)
        ensures
            r@ == self@.operation(value@),
    {
        let mut error = self;
        error.details.operation = Some(value.to_owned());
        error
    }

    pub fn path(self, value: &str) -> (r: Self)
        ensures
            r@ == self@.path(value@),
    {
        let mut error = self;
        error.details.path = Some(value.to_owned());
        error
    }

    pub fn reason(self, value: &str) -> (r: Self)
        ensures
            r@ == self@.reason(value@),
    {
        let mut error = self;
        error.details.reason = Some(value.to_owned());
        error
    }

    pub fn registered_path(self, value: &str) -> (r: Self)
        ensures
            r@ == self@.registered_path(value@),
    {
        let mut error = self;
        error.details.registered_path = Some(value.to_owned());
        error
    }

    pub fn room(self, value: &str) -> (r: Self)
        ensures
            r@ == self@.room(value@),
    {
        let mut error = self;
        error.details.room = Some(value.to_owned());
        error
    }

    pub fn rule(self, value: BlockingRule) -> (r: Self)
        ensures
            r@ == self@.rule(value@),
    {
        let mut error = self;
        error.details.rule = Some(value);
        error
    }

    pub fn invalid_argument(message: &str) -> (r: Self)
        ensures
            r@ == ErrorView::invalid_argument(message@),
    {
        AppError::new(
            ErrorCode::InvalidArgument,
            message,
            "Run `post --help` or `post schema` and retry with the documented syntax.",
        )
    }

    /// The file at `path` is invalid, for the given reason.
    pub fn config(path: &str, reason: &str) -> (r: Self)
        ensures
            r@ == ErrorView::config(path@, reason@),
    {
        AppError::new(
            ErrorCode::ConfigInvalid,
            text::cat4("configuration '", path, "' is invalid: ", reason).as_str(),
            "Fix the named file by hand, then run `post doctor`.",
        ).path(path).reason(reason)
    }

    /// An operation on the file at `path` failed with the error text `source`.
    pub fn io(operation: &str, path: &str, source: &str) -> (r: Self)
        ensures
            r@ == ErrorView::io(operation@, path@, source@),
    {
        AppError::new(
            ErrorCode::IoError,
            text::cat6("failed to ", operation, " '", path, "': ", source).as_str(),
            text::cat3(
                "Check that '",
                path,
                "' exists and is readable/writable, then retry the same command.",
            ).as_str(),
        ).operation(operation).path(path).reason(source)
    }

    /// The receipt of a delivered mail could not be printed, with the error text `source`.
    pub fn delivered_output_failure(source: &str) -> (r: Self)
        ensures
            r@ == ErrorView::delivered_output_failure(source@),
    {
        AppError::new(
            ErrorCode::DeliveredOutputFailure,
            text::cat2(
                "mail was delivered but its receipt could not be written to stdout: ",
                source,
            ).as_str(),
            "Do not resend this mail; inspect the recipient inbox or archive for the delivered message.",
        ).operation("write stdout after delivery").reason(source)
    }

    /// The archive copy of a delivered mail could not be written, with the error text `source`.
    pub fn delivered_unarchived(id: &str, inbox: &str, archive: &str, source: &str) -> (r: Self)
        ensures
            r@ == ErrorView::delivered_unarchived(id@, inbox@, archive@, source@),
    {
        AppError::new(
            ErrorCode::DeliveredUnarchived,
            text::cat8(
                "mail '",
                id,
                "' was delivered to '",
                inbox,
                "' but could not be archived at '",
                archive,
                "': ",
                source,
            ).as_str(),
            "Do not resend this mail; run `post doctor` and reconcile the delivered and archive copies by hand.",
        ).id(id).inbox_path(inbox).archive_path(archive).reason(source)
    }
}

/// The error of a check that yields nothing else.
pub open spec fn failure(r: AppResult<()>) -> Option<ErrorView> {
    match r {
        Ok(_) => None,
        Err(e) => Some(e@),
    }
}

/// The value or the error of a computation, as values.
pub open spec fn outcome<T: View>(r: AppResult<T>) -> Result<T::V, ErrorView> {
    match r {
        Ok(v) => Ok(v@),
        Err(e) => Err(e@),
    }
}

/// Exactly the failures of the machine may be retried as they are; a delivered mail is never
/// one of them.
pub proof fn only_io_errors_are_retryable(code: ErrorCode, message: Seq<char>, fix: Seq<char>)
    ensures
        ErrorView::of(code, message, fix).retryable <==> code == ErrorCode::IoError,
        forall|reason: Seq<char>|
            !(#[trigger] ErrorView::delivered_output_failure(reason)).retryable,
        forall|id: Seq<char>, inbox: Seq<char>, archive: Seq<char>, reason: Seq<char>|
            !(#[trigger] ErrorView::delivered_unarchived(id, inbox, archive, reason)).retryable,
{
}

} // verus!
