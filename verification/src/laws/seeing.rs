//! What the models show of the values that they stand for: all of them, as they are.
use vstd::prelude::*;

use crate::channel::{Posting, PostingEvent, PostingEventView, PostingView};
use crate::cli;
use crate::cli::ParseFix;
use crate::declaring::{DeclareEvent, DeclareEventView, Declaring, DeclaringView};
use crate::delivery::{Delivery, DeliveryEvent, DeliveryView, EventView};
use crate::error;
use crate::error::AppError;
use crate::fence;
use crate::fence::FenceState;
use crate::joining::{JoinEvent, JoinEventView, Joining, JoiningView};
use crate::model;
use crate::names;
use crate::outside;
use crate::owner;
use crate::owner::OwnerResolution;
use crate::paths;
use crate::paths::{PartView, PathPart};
use crate::registering::{RegisterEvent, RegisterEventView, Registering, RegisteringView};
use crate::rooms::NormalPath;
use crate::signed;
use crate::signed::{Claim, ClaimView, SignedStatus, StatusView};
use crate::store::{Outcome, OutcomeView, Writing, WritingView};
use crate::text;

verus! {

/// A delivery is seen with its envelope, its inbox and its error, as they are.
pub proof fn deliveries_are_seen_as_they_are(state: Delivery, event: DeliveryEvent)
    ensures
        state matches Delivery::NeedId { attempt, inbox } ==> state@ == (DeliveryView::NeedId {
            attempt: attempt as int,
            inbox: text::opt(inbox),
        }),
        state matches Delivery::CheckRoute { attempt, inbox, envelope } ==> state@ == (
        DeliveryView::CheckRoute {
            attempt: attempt as int,
            inbox: text::opt(inbox),
            envelope: envelope@,
        }),
        state matches Delivery::PrepareStore { attempt, envelope } ==> state@ == (
        DeliveryView::PrepareStore { attempt: attempt as int, envelope: envelope@ }),
        state matches Delivery::WriteInbox { attempt, inbox, envelope } ==> state@ == (
        DeliveryView::WriteInbox {
            attempt: attempt as int,
            inbox: inbox@,
            envelope: envelope@,
        }),
        state matches Delivery::WriteArchive { inbox, envelope } ==> state@ == (
        DeliveryView::WriteArchive { inbox: inbox@, envelope: envelope@ }),
        state matches Delivery::Delivered { envelope } ==> state@ == (DeliveryView::Delivered {
            envelope: envelope@,
        }),
        state matches Delivery::Failed { error } ==> state@ == (DeliveryView::Failed {
            error: error@,
        }),
        event matches DeliveryEvent::Id(id) ==> event@ == EventView::Id(id@),
        event matches DeliveryEvent::Rules(rules) ==> event@ == EventView::Rules(
            model::rules_view(rules@),
        ),
        event matches DeliveryEvent::Store(inbox) ==> event@ == EventView::Store(inbox@),
        event is Written ==> event@ == EventView::Written,
        event matches DeliveryEvent::Exists(problem) ==> event@ == EventView::Exists(problem@),
        event matches DeliveryEvent::WriteFailed(problem) ==> event@ == EventView::WriteFailed(
            problem@,
        ),
{
}

/// The writing of a message is seen with the message and its error, as they are.
pub proof fn postings_are_seen_as_they_are(state: Posting, event: PostingEvent)
    ensures
        state matches Posting::NeedId { attempt } ==> state@ == (PostingView::NeedId {
            attempt: attempt as int,
        }),
        state matches Posting::Write { attempt, message } ==> state@ == (PostingView::Write {
            attempt: attempt as int,
            message: message@,
        }),
        state matches Posting::Posted { message } ==> state@ == (PostingView::Posted {
            message: message@,
        }),
        state matches Posting::Failed { error } ==> state@ == (PostingView::Failed {
            error: error@,
        }),
        event matches PostingEvent::Id { id, sent } ==> event@ == (PostingEventView::Id {
            id: id@,
            sent: sent@,
        }),
        event is Written ==> event@ == PostingEventView::Written,
        event is Exists ==> event@ == PostingEventView::Exists,
        event matches PostingEvent::WriteFailed { path, problem } ==> event@ == (
        PostingEventView::WriteFailed { path: path@, problem: problem@ }),
{
}

/// A join is seen with its time, its event and its error, as they are.
pub proof fn joins_are_seen_as_they_are(state: Joining, event: JoinEvent)
    ensures
        state is LoadRules ==> state@ == JoiningView::LoadRules,
        state is PrepareMessages ==> state@ == JoiningView::PrepareMessages,
        state matches Joining::CreateInfo { since } ==> state@ == (JoiningView::CreateInfo {
            since: since@,
        }),
        state matches Joining::AmendInfo { since } ==> state@ == (JoiningView::AmendInfo {
            since: text::opt(since),
        }),
        state matches Joining::PostEvent { since, created } ==> state@ == (JoiningView::PostEvent {
            since: since@,
            created,
        }),
        state matches Joining::AddMember { since, created, event_id } ==> state@ == (
        JoiningView::AddMember { since: since@, created, event_id: event_id@ }),
        state matches Joining::Done { created, already_member, event_id } ==> state@ == (
        JoiningView::Done { created, already_member, event_id: text::opt(event_id) }),
        state matches Joining::Failed { error } ==> state@ == (JoiningView::Failed {
            error: error@,
        }),
        event matches JoinEvent::Rules(rules) ==> event@ == JoinEventView::Rules(
            model::rules_view(rules@),
        ),
        event matches JoinEvent::Prepared { exists_already, now } ==> event@ == (
        JoinEventView::Prepared { exists_already, now: now@ }),
        event is InfoWritten ==> event@ == JoinEventView::InfoWritten,
        event matches JoinEvent::EventPosted(id) ==> event@ == JoinEventView::EventPosted(id@),
        event is MemberAdded ==> event@ == JoinEventView::MemberAdded,
{
}

/// A registration is seen with its workspace, its warnings and its error, as they are.
pub proof fn registrations_are_seen_as_they_are(state: Registering, event: RegisterEvent)
    ensures
        state matches Registering::Inspect { expanded } ==> state@ == (RegisteringView::Inspect {
            expanded: expanded@,
        }),
        state matches Registering::Compare { candidate } ==> state@ == (RegisteringView::Compare {
            candidate,
        }),
        state matches Registering::LoadRules { warnings } ==> state@ == (
        RegisteringView::LoadRules { warnings: text::texts(warnings@) }),
        state matches Registering::Write { warnings } ==> state@ == (RegisteringView::Write {
            warnings: text::texts(warnings@),
        }),
        state matches Registering::Done { warnings } ==> state@ == (RegisteringView::Done {
            warnings: text::texts(warnings@),
        }),
        state matches Registering::Failed { error } ==> state@ == (RegisteringView::Failed {
            error: error@,
        }),
        event matches RegisterEvent::Inspected(found) ==> event@ == RegisterEventView::Inspected(
            found,
        ),
        event matches RegisterEvent::Workspaces(known) ==> event@ == RegisterEventView::Workspaces(
            known@,
        ),
        event matches RegisterEvent::Rules(rules) ==> event@ == RegisterEventView::Rules(
            model::rules_view(rules@),
        ),
        event is Written ==> event@ == RegisterEventView::Written,
{
}

/// A declaration is seen with its owner and its error, as they are.
pub proof fn declarations_are_seen_as_they_are(state: Declaring, event: DeclareEvent)
    ensures
        state matches Declaring::Inspect { wanted } ==> state@ == (DeclaringView::Inspect {
            wanted: wanted@,
        }),
        state matches Declaring::Scaffold { wanted } ==> state@ == (DeclaringView::Scaffold {
            wanted: wanted@,
        }),
        state matches Declaring::Create { wanted } ==> state@ == (DeclaringView::Create {
            wanted: wanted@,
        }),
        state matches Declaring::Compare { wanted } ==> state@ == (DeclaringView::Compare {
            wanted: wanted@,
        }),
        state matches Declaring::Complete { existing } ==> state@ == (DeclaringView::Complete {
            existing: existing@,
        }),
        state matches Declaring::Done { created, owner } ==> state@ == (DeclaringView::Done {
            created,
            owner: owner@,
        }),
        state matches Declaring::Failed { error } ==> state@ == (DeclaringView::Failed {
            error: error@,
        }),
        event matches DeclareEvent::Found(found) ==> event@ == DeclareEventView::Found(found),
        event is Scaffolded ==> event@ == DeclareEventView::Scaffolded,
        event is Created ==> event@ == DeclareEventView::Created,
        event is Exists ==> event@ == DeclareEventView::Exists,
        event matches DeclareEvent::CreateFailed(problem) ==> event@
            == DeclareEventView::CreateFailed(problem@),
        event matches DeclareEvent::Existing { read, rooms } ==> event@ is Existing
            && event@->rooms == rooms@ && (read matches Ok(file) ==> event@->read matches Ok(seen)
            && seen == file) && (read matches Err(reason) ==> event@->read matches Err(seen) && seen
            == reason@),
{
}

/// The writing of a file is seen with its warning and its problem, as they are.
pub proof fn writings_are_seen_as_they_are(state: Writing, outcome: Outcome)
    ensures
        state is Prepare ==> state@ == WritingView::Prepare,
        state is Commit ==> state@ == WritingView::Commit,
        state is Settle ==> state@ == WritingView::Settle,
        state matches Writing::Discard { exists_already, problem } ==> state@ == (
        WritingView::Discard { exists_already, problem: problem@ }),
        state matches Writing::Done { warning } ==> state@ == (WritingView::Done {
            warning: text::opt(warning),
        }),
        state matches Writing::Failed { exists_already, problem } ==> state@ == (
        WritingView::Failed { exists_already, problem: problem@ }),
        outcome is Good ==> outcome@ == OutcomeView::Good,
        outcome matches Outcome::Bad { exists_already, problem } ==> outcome@ == (
        OutcomeView::Bad { exists_already, problem: problem@ }),
{
}

/// A claim and the verdict on it are seen with their texts, as they are.
pub proof fn claims_are_seen_as_they_are(claim: Claim, status: SignedStatus)
    ensures
        claim is Unsigned ==> claim@ == ClaimView::Unsigned,
        claim is Locator ==> claim@ == ClaimView::Locator,
        claim is Malformed ==> claim@ == ClaimView::Malformed,
        claim matches Claim::Trailed { text, tag } ==> claim@ == (ClaimView::Trailed {
            text: text@,
            tag: tag@,
        }),
        claim matches Claim::Tagged { text, tag } ==> claim@ == (ClaimView::Tagged {
            text: text@,
            tag: tag@,
        }),
        status matches SignedStatus::Verified { tag, age_minutes } ==> status@ == (
        StatusView::Verified { tag: tag@, age_minutes }),
        status matches SignedStatus::Failed { reason } ==> status@ == (StatusView::Failed {
            reason: reason@,
        }),
        signed::status_view(Some(status)) == Some(status@),
        signed::status_view(None) is None,
{
}

/// The parts of a path and a path without its detours are seen as they are.
pub proof fn paths_are_seen_as_they_are(part: PathPart, parts: Seq<PathPart>, path: NormalPath)
    ensures
        part is Root ==> part@ == PartView::Root,
        part is Current ==> part@ == PartView::Current,
        part is Parent ==> part@ == PartView::Parent,
        part matches PathPart::Normal(name) ==> part@ == PartView::Normal(name@),
        paths::parts_view(parts).len() == parts.len(),
        forall|i: int| 0 <= i < parts.len() ==> paths::parts_view(parts)[i] == (#[trigger] parts[i])@,
        path@.rooted == path.rooted,
        path@.parts == text::texts(path.parts@),
{
}

/// Results are seen by what they hold: their value, or their error.
pub proof fn outcomes_are_seen_as_they_are(
    reason: String,
    value: &str,
    state: FenceState,
    e: AppError,
    fix: ParseFix,
    members: Seq<(String, Option<String>)>,
)
    ensures
        names::fault(Ok(())) is None,
        names::fault(Err(reason)) == Some(reason@),
        text::opt_str(Some(value)) == Some(value@),
        text::opt_str(None) is None,
        fence::state_outcome(Ok(state)) == Ok::<FenceState, error::ErrorView>(state),
        fence::state_outcome(Err(e)) == Err::<FenceState, error::ErrorView>(e@),
        cli::fix_view(None) is None,
        cli::fix_view(Some(fix)) matches Some(seen) && seen.command == fix.command@
            && seen.guidance == fix.guidance@,
        outside::members_view(members).len() == members.len(),
        forall|i: int|
            0 <= i < members.len() ==> outside::members_view(members)[i].0 == (
            #[trigger] members[i]).0@ && outside::members_view(members)[i].1 == text::opt(
                members[i].1,
            ),
{
}

/// Whoever is found as the owner, whether configured or by the old name, is the owner.
pub proof fn found_owners_are_the_owner(resolution: OwnerResolution)
    ensures
        resolution matches OwnerResolution::Configured(one) ==> owner::owner_of(resolution) == Some(
            one,
        ),
        resolution matches OwnerResolution::Legacy(one) ==> owner::owner_of(resolution) == Some(
            one,
        ),
        resolution is Absent ==> owner::owner_of(resolution) is None,
{
}

} // verus!
