//! The delivery of a mail as a state machine: each state asks for one step of work on the
//! store, and the outcome of that work leads to the next state.
use crate::context;
use crate::context::Context;
use crate::error;
use crate::error::{AppError, ErrorCode};
use crate::mail;
use crate::model;
use crate::model::{BlockingRule, Envelope, MailKind, SenderProvenance};
use crate::paths;
use crate::send;
use crate::text;
use vstd::prelude::*;

verus! {

/// How many ids are tried before a send gives up.
pub const MAX_ATTEMPTS: u64 = 256;

/// A mail that has everything but its id.
#[derive(Debug)]
pub struct Draft {
    pub from: String,
    pub to: String,
    pub kind: MailKind,
    pub subject: String,
    pub sent: String,
    pub display_name: Option<String>,
    pub pfp: Option<String>,
    pub sender_address: Option<String>,
    pub provenance: SenderProvenance,
}

/// The envelope of a draft under an id.
pub open spec fn envelope_of(draft: Draft, id: Seq<char>) -> model::EnvelopeView {
    model::EnvelopeView {
        id,
        from: draft.from@,
        to: draft.to@,
        kind: draft.kind,
        subject: draft.subject@,
        sent: draft.sent@,
        display_name: text::opt(draft.display_name),
        pfp: text::opt(draft.pfp),
        sender_address: text::opt(draft.sender_address),
        sender_provenance: Some(draft.provenance.name()),
    }
}

impl Draft {
    pub fn envelope(&self, id: &str) -> (r: Envelope)
        ensures
            r@ == envelope_of(*self, id@),
            r.id@ == id@,
            r.from@ == self.from@,
            r.to@ == self.to@,
            r.kind == self.kind,
            r.subject@ == self.subject@,
            r.sent@ == self.sent@,
            text::opt(r.display_name) == text::opt(self.display_name),
            text::opt(r.pfp) == text::opt(self.pfp),
            text::opt(r.sender_address) == text::opt(self.sender_address),
            text::opt(r.sender_provenance) == Some(self.provenance.name()),
    {
        Envelope {
            id: id.to_owned(),
            from: self.from.clone(),
            to: self.to.clone(),
            kind: self.kind,
            subject: self.subject.clone(),
            sent: self.sent.clone(),
            display_name: text::opt_clone(&self.display_name),
            pfp: text::opt_clone(&self.pfp),
            sender_address: text::opt_clone(&self.sender_address),
            sender_provenance: Some(self.provenance.as_str().to_owned()),
        }
    }
}

/// Where a delivery stands, and so what it needs next.
#[derive(Debug)]
pub enum Delivery {
    /// A fresh id, for the given attempt.
    NeedId { attempt: u64, inbox: Option<String> },
    /// The rules, loaded anew.
    CheckRoute { attempt: u64, inbox: Option<String>, envelope: Envelope },
    /// The archive directory and the recipient's mailbox, created if missing.
    PrepareStore { attempt: u64, envelope: Envelope },
    /// The mail, written into the inbox directory under a name that must not exist yet.
    WriteInbox { attempt: u64, inbox: String, envelope: Envelope },
    /// The same mail, written into the archive.
    WriteArchive { inbox: String, envelope: Envelope },
    /// Nothing: the mail is delivered and archived.
    Delivered { envelope: Envelope },
    /// Nothing: the delivery failed.
    Failed { error: AppError },
}

pub ghost enum DeliveryView {
    NeedId { attempt: int, inbox: Option<Seq<char>> },
    CheckRoute { attempt: int, inbox: Option<Seq<char>>, envelope: model::EnvelopeView },
    PrepareStore { attempt: int, envelope: model::EnvelopeView },
    WriteInbox { attempt: int, inbox: Seq<char>, envelope: model::EnvelopeView },
    WriteArchive { inbox: Seq<char>, envelope: model::EnvelopeView },
    Delivered { envelope: model::EnvelopeView },
    Failed { error: error::ErrorView },
}

impl View for Delivery {
    type V = DeliveryView;

    open spec fn view(&self) -> DeliveryView {
        match self {
            Delivery::NeedId { attempt, inbox } => DeliveryView::NeedId {
                attempt: *attempt as int,
                inbox: text::opt(*inbox),
            },
            Delivery::CheckRoute { attempt, inbox, envelope } => DeliveryView::CheckRoute {
                attempt: *attempt as int,
                inbox: text::opt(*inbox),
                envelope: envelope@,
            },
            Delivery::PrepareStore { attempt, envelope } => DeliveryView::PrepareStore {
                attempt: *attempt as int,
                envelope: envelope@,
            },
            Delivery::WriteInbox { attempt, inbox, envelope } => DeliveryView::WriteInbox {
                attempt: *attempt as int,
                inbox: inbox@,
                envelope: envelope@,
            },
            Delivery::WriteArchive { inbox, envelope } => DeliveryView::WriteArchive {
                inbox: inbox@,
                envelope: envelope@,
            },
            Delivery::Delivered { envelope } => DeliveryView::Delivered { envelope: envelope@ },
            Delivery::Failed { error } => DeliveryView::Failed { error: error@ },
        }
    }
}

/// The outcome of one step of work.
#[derive(Debug)]
pub enum DeliveryEvent {
    /// A fresh id.
    Id(String),
    /// The rules as they stand now.
    Rules(Vec<BlockingRule>),
    /// The store is ready; this is the recipient's inbox directory.
    Store(String),
    /// The file was written.
    Written,
    /// A file of that name was there already and nothing was written; the text says so.
    Exists(String),
    /// The file could not be written; the text says why.
    WriteFailed(String),
}

pub ghost enum EventView {
    Id(Seq<char>),
    Rules(Seq<model::RuleView>),
    Store(Seq<char>),
    Written,
    Exists(Seq<char>),
    WriteFailed(Seq<char>),
}

impl View for DeliveryEvent {
    type V = EventView;

    open spec fn view(&self) -> EventView {
        match self {
            DeliveryEvent::Id(id) => EventView::Id(id@),
            DeliveryEvent::Rules(rules) => EventView::Rules(model::rules_view(rules@)),
            DeliveryEvent::Store(inbox) => EventView::Store(inbox@),
            DeliveryEvent::Written => EventView::Written,
            DeliveryEvent::Exists(problem) => EventView::Exists(problem@),
            DeliveryEvent::WriteFailed(problem) => EventView::WriteFailed(problem@),
        }
    }
}

/// The file name of a mail.
pub open spec fn mail_name(id: Seq<char>) -> Seq<char> {
    id + ".mail"@
}

/// The path of a mail in an inbox directory.
pub open spec fn inbox_file(inbox: Seq<char>, id: Seq<char>) -> Seq<char> {
    paths::join(inbox, mail_name(id))
}

/// The path of a mail in the archive.
pub open spec fn archive_file(root: Seq<char>, id: Seq<char>) -> Seq<char> {
    paths::join(paths::join(root, "archive"@), mail_name(id))
}

pub open spec fn no_free_id_error() -> error::ErrorView {
    error::ErrorView::of(
        ErrorCode::IoError,
        "could not allocate a unique message id after 256 attempts"@,
        "Retry the same send command; if this repeats, run `post doctor`."@,
    )
}

/// The error of a mail that lies in the inbox and not in the archive.
pub open spec fn unarchived_error(
    root: Seq<char>,
    inbox: Seq<char>,
    id: Seq<char>,
    problem: Seq<char>,
) -> error::ErrorView {
    error::ErrorView::delivered_unarchived(
        id,
        inbox_file(inbox, id),
        archive_file(root, id),
        problem,
    )
}

/// The state that follows an outcome. An outcome of work that was not asked for changes
/// nothing.
pub open spec fn next(
    root: Seq<char>,
    draft: Draft,
    state: DeliveryView,
    event: EventView,
) -> DeliveryView {
    match (state, event) {
        (DeliveryView::NeedId { attempt, inbox }, EventView::Id(id)) => {
            let envelope = envelope_of(draft, id);
            match mail::envelope_fault(envelope) {
                Some(reason) => DeliveryView::Failed {
                    error: error::ErrorView::config("<generated mail>"@, reason),
                },
                None => DeliveryView::CheckRoute { attempt, inbox, envelope },
            }
        },
        (DeliveryView::CheckRoute { attempt, inbox, envelope }, EventView::Rules(rules)) => {
            match send::route_fault(rules, envelope.from, envelope.to) {
                Some(error) => DeliveryView::Failed { error },
                None => match inbox {
                    None => DeliveryView::PrepareStore { attempt, envelope },
                    Some(inbox) => DeliveryView::WriteInbox { attempt, inbox, envelope },
                },
            }
        },
        (DeliveryView::PrepareStore { attempt, envelope }, EventView::Store(inbox)) => {
            DeliveryView::CheckRoute { attempt, inbox: Some(inbox), envelope }
        },
        (DeliveryView::WriteInbox { attempt, inbox, envelope }, EventView::Written) => {
            DeliveryView::WriteArchive { inbox, envelope }
        },
        (DeliveryView::WriteInbox { attempt, inbox, envelope }, EventView::Exists(_)) => {
            if attempt + 1 < 256 {
                DeliveryView::NeedId { attempt: attempt + 1, inbox: Some(inbox) }
            } else {
                DeliveryView::Failed { error: no_free_id_error() }
            }
        },
        (DeliveryView::WriteInbox { attempt, inbox, envelope }, EventView::WriteFailed(problem)) => {
            DeliveryView::Failed {
                error: error::ErrorView::io(
                    "exclusively write inbox mail"@,
                    inbox_file(inbox, envelope.id),
                    problem,
                ),
            }
        },
        (DeliveryView::WriteArchive { inbox, envelope }, EventView::Written) => {
            DeliveryView::Delivered { envelope }
        },
        (DeliveryView::WriteArchive { inbox, envelope }, EventView::Exists(problem)) => {
            DeliveryView::Failed { error: unarchived_error(root, inbox, envelope.id, problem) }
        },
        (DeliveryView::WriteArchive { inbox, envelope }, EventView::WriteFailed(problem)) => {
            DeliveryView::Failed { error: unarchived_error(root, inbox, envelope.id, problem) }
        },
        _ => state,
    }
}

/// The path of a mail in an inbox directory.
pub fn inbox_path(inbox: &str, id: &str) -> (r: String)
    ensures
        r@ == inbox_file(inbox@, id@),
{
    paths::join_path(inbox, text::cat2(id, ".mail").as_str())
}

/// The path of a mail in the archive.
pub fn archive_path(context: &Context, id: &str) -> (r: String)
    ensures
        r@ == archive_file(context.root@, id@),
{
    let archive = context.file("archive");
    paths::join_path(archive.as_str(), text::cat2(id, ".mail").as_str())
}

fn unarchived(context: &Context, inbox: &str, id: &str, problem: &str) -> (r: AppError)
    ensures
        r@ == unarchived_error(context.root@, inbox@, id@, problem@),
{
    AppError::delivered_unarchived(
        id,
        inbox_path(inbox, id).as_str(),
        archive_path(context, id).as_str(),
        problem,
    )
}

impl Delivery {
    /// A delivery that has not begun.
    pub fn start() -> (r: Delivery)
        ensures
            r@ == (DeliveryView::NeedId { attempt: 0, inbox: None }),
    {
        Delivery::NeedId { attempt: 0, inbox: None }
    }

    /// The state after an outcome.
    pub fn step(self, context: &Context, draft: &Draft, event: DeliveryEvent) -> (r: Delivery)
        ensures
            r@ == next(context.root@, *draft, self@, event@),
    {
        match (self, event) {
            (Delivery::NeedId { attempt, inbox }, DeliveryEvent::Id(id)) => {
                let envelope = draft.envelope(id.as_str());
                match mail::validate_envelope("<generated mail>", &envelope) {
                    Ok(_) => Delivery::CheckRoute { attempt, inbox, envelope },
                    Err(error) => Delivery::Failed { error },
                }
            },
            (Delivery::CheckRoute { attempt, inbox, envelope }, DeliveryEvent::Rules(rules)) => {
                match send::ensure_route_allowed(
                    &rules,
                    envelope.from.as_str(),
                    envelope.to.as_str(),
                ) {
                    Err(error) => Delivery::Failed { error },
                    Ok(_) => match inbox {
                        None => Delivery::PrepareStore { attempt, envelope },
                        Some(inbox) => Delivery::WriteInbox { attempt, inbox, envelope },
                    },
                }
            },
            (Delivery::PrepareStore { attempt, envelope }, DeliveryEvent::Store(inbox)) => {
                Delivery::CheckRoute { attempt, inbox: Some(inbox), envelope }
            },
            (Delivery::WriteInbox { attempt: _, inbox, envelope }, DeliveryEvent::Written) => {
                Delivery::WriteArchive { inbox, envelope }
            },
            (Delivery::WriteInbox { attempt, inbox, envelope: _ }, DeliveryEvent::Exists(_)) => {
                if attempt < MAX_ATTEMPTS - 1 {
                    Delivery::NeedId { attempt: attempt + 1, inbox: Some(inbox) }
                } else {
                    Delivery::Failed {
                        error: AppError::new(
                            ErrorCode::IoError,
                            "could not allocate a unique message id after 256 attempts",
                            "Retry the same send command; if this repeats, run `post doctor`.",
                        ),
                    }
                }
            },
            (
                Delivery::WriteInbox { attempt: _, inbox, envelope },
                DeliveryEvent::WriteFailed(problem),
            ) => {
                let path = inbox_path(inbox.as_str(), envelope.id.as_str());
                Delivery::Failed {
                    error: AppError::io(
                        "exclusively write inbox mail",
                        path.as_str(),
                        problem.as_str(),
                    ),
                }
            },
            (Delivery::WriteArchive { inbox: _, envelope }, DeliveryEvent::Written) => {
                Delivery::Delivered { envelope }
            },
            (Delivery::WriteArchive { inbox, envelope }, DeliveryEvent::Exists(problem)) => {
                Delivery::Failed {
                    error: unarchived(
                        context,
                        inbox.as_str(),
                        envelope.id.as_str(),
                        problem.as_str(),
                    ),
                }
            },
            (Delivery::WriteArchive { inbox, envelope }, DeliveryEvent::WriteFailed(problem)) => {
                Delivery::Failed {
                    error: unarchived(
                        context,
                        inbox.as_str(),
                        envelope.id.as_str(),
                        problem.as_str(),
                    ),
                }
            },
            (state, _) => state,
        }
    }
}

// ---------------------------------------------------------------------------
// Laws
// ---------------------------------------------------------------------------
/// The state after a whole run of outcomes.
pub open spec fn run(
    root: Seq<char>,
    draft: Draft,
    state: DeliveryView,
    events: Seq<EventView>,
) -> DeliveryView
    decreases events.len(),
{
    if events.len() == 0 {
        state
    } else {
        next(root, draft, run(root, draft, state, events.drop_last()), events.last())
    }
}

/// What holds of every state of a delivery: the number of attempts is bounded, and what is
/// delivered is the draft under some id, with a valid envelope.
pub open spec fn sound(draft: Draft, state: DeliveryView) -> bool {
    let ours = |e: model::EnvelopeView|
        e == envelope_of(draft, e.id) && mail::envelope_fault(e) is None;
    match state {
        DeliveryView::NeedId { attempt, inbox } => 0 <= attempt < 256,
        DeliveryView::CheckRoute { attempt, inbox, envelope } => 0 <= attempt < 256 && ours(
            envelope,
        ),
        DeliveryView::PrepareStore { attempt, envelope } => 0 <= attempt < 256 && ours(envelope),
        DeliveryView::WriteInbox { attempt, inbox, envelope } => 0 <= attempt < 256 && ours(
            envelope,
        ),
        DeliveryView::WriteArchive { inbox, envelope } => ours(envelope),
        DeliveryView::Delivered { envelope } => ours(envelope),
        DeliveryView::Failed { error } => true,
    }
}

/// Every delivery, whatever the store answers, stays within its attempts and delivers nothing
/// but the draft.
pub proof fn deliveries_are_sound(root: Seq<char>, draft: Draft, events: Seq<EventView>)
    ensures
        sound(
            draft,
            run(root, draft, DeliveryView::NeedId { attempt: 0, inbox: None }, events),
        ),
    decreases events.len(),
{
    if events.len() > 0 {
        deliveries_are_sound(root, draft, events.drop_last());
    }
}

/// A mail is written only straight after the rules were loaded and allowed its route.
pub proof fn mail_is_written_only_on_an_allowed_route(
    root: Seq<char>,
    draft: Draft,
    state: DeliveryView,
    event: EventView,
)
    requires
        !(state is WriteInbox),
        next(root, draft, state, event) is WriteInbox,
    ensures
        event is Rules,
        context::blocking_rule(
            event->Rules_0,
            next(root, draft, state, event)->WriteInbox_envelope.from,
            next(root, draft, state, event)->WriteInbox_envelope.to,
        ) is None,
{
}

/// The archive copy is written only after the inbox copy, and a mail counts as delivered only
/// after both.
pub proof fn inbox_comes_before_archive(
    root: Seq<char>,
    draft: Draft,
    state: DeliveryView,
    event: EventView,
)
    ensures
        next(root, draft, state, event) is WriteArchive && !(state is WriteArchive) ==> state
            is WriteInbox && event is Written,
        next(root, draft, state, event) is Delivered && !(state is Delivered) ==> state
            is WriteArchive && event is Written,
{
}

/// Once a mail lies in the inbox, no outcome makes the command invite a retry, and none is
/// waited for twice: what follows the archive's answer is success or a failure that must not be
/// retried. An archive copy that is there already is such a failure, and stays as it is.
pub proof fn delivered_mail_is_never_retryable(
    root: Seq<char>,
    draft: Draft,
    state: DeliveryView,
    event: EventView,
)
    requires
        state is WriteArchive,
    ensures
        match next(root, draft, state, event) {
            DeliveryView::WriteArchive { inbox, envelope } => event is Id || event is Rules
                || event is Store,
            DeliveryView::Delivered { envelope } => event is Written,
            DeliveryView::Failed { error } => !error.retryable && error.code
                == ErrorCode::DeliveredUnarchived,
            _ => false,
        },
{
}

/// A name that is taken costs an attempt and leaves what lies under it alone; after the last
/// attempt the send fails, and may be retried.
pub proof fn taken_ids_are_skipped(
    root: Seq<char>,
    draft: Draft,
    attempt: int,
    inbox: Seq<char>,
    envelope: model::EnvelopeView,
    problem: Seq<char>,
)
    requires
        0 <= attempt < 256,
    ensures
        next(
            root,
            draft,
            DeliveryView::WriteInbox { attempt, inbox, envelope },
            EventView::Exists(problem),
        ) == if attempt < 255 {
            DeliveryView::NeedId { attempt: attempt + 1, inbox: Some(inbox) }
        } else {
            DeliveryView::Failed { error: no_free_id_error() }
        },
        no_free_id_error().retryable,
{
}

} // verus!
