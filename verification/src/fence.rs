//! The write-admission fence of a store that is being migrated.
//!
//! A store without a fence file is a legacy store: its writers declare no generation. Once a
//! fence file exists, a writer must declare the active generation. Readers never need to.
use crate::context::Context;
use crate::error;
use crate::error::{AppError, AppResult, ErrorCode};
use crate::paths;
use crate::text;
use vstd::prelude::*;

verus! {

pub const STATE_FILE: &'static str = ".post-arx.json";

pub const LOCK_FILE: &'static str = ".post-arx.lock";

pub const GENERATION_ENV: &'static str = "POST_ARX_GENERATION";

/// What a fence file says.
#[derive(Debug, Clone, Copy, PartialEq, Eq, Structural)]
pub enum FenceState {
    Fenced { generation: u64 },
    Active { generation: u64 },
}

pub open spec fn invalid_state_error(path: Seq<char>, reason: Seq<char>) -> error::ErrorView {
    error::ErrorView::of(
        ErrorCode::ConfigInvalid,
        "migration fence '"@ + path + "' is invalid: "@ + reason,
        "Repair or complete the migration fence before retrying a write; read-only commands remain available."@,
    ).path(path).reason(reason)
}

/// The error of a fence file or lock that is not what it should be.
pub fn invalid_state(path: &str, reason: &str) -> (r: AppError)
    ensures
        r@ == invalid_state_error(path@, reason@),
{
    AppError::new(
        ErrorCode::ConfigInvalid,
        text::cat4("migration fence '", path, "' is invalid: ", reason).as_str(),
        "Repair or complete the migration fence before retrying a write; read-only commands remain available.",
    ).path(path).reason(reason)
}

/// What the two fields of a fence file mean.
pub open spec fn fence_of(path: Seq<char>, state: Seq<char>, generation: Option<u64>) -> Result<
    FenceState,
    error::ErrorView,
> {
    let no_generation = invalid_state_error(
        path,
        "fenced and active states require a positive generation"@,
    );
    if state == "fenced"@ {
        if generation is Some && generation->0 > 0 {
            Ok(FenceState::Fenced { generation: generation->0 })
        } else {
            Err(no_generation)
        }
    } else if state == "active"@ {
        if generation is Some && generation->0 > 0 {
            Ok(FenceState::Active { generation: generation->0 })
        } else {
            Err(no_generation)
        }
    } else {
        Err(
            invalid_state_error(
                path,
                "state must be fenced or active with a positive generation"@,
            ),
        )
    }
}

/// The value of a check that yields a fence state, or its error.
pub open spec fn state_outcome(r: AppResult<FenceState>) -> Result<FenceState, error::ErrorView> {
    match r {
        Ok(s) => Ok(s),
        Err(e) => Err(e@),
    }
}

fn valid_generation(path: &str, generation: Option<u64>) -> (r: AppResult<u64>)
    ensures
        match r {
            Ok(g) => generation == Some(g) && g > 0,
            Err(e) => !(generation is Some && generation->0 > 0) && e@ == invalid_state_error(
                path@,
                "fenced and active states require a positive generation"@,
            ),
        },
{
    match generation {
        Some(g) => {
            if g > 0 {
                return Ok(g);
            }
        },
        None => {},
    }
    Err(invalid_state(path, "fenced and active states require a positive generation"))
}

/// Reads the fields of the fence file at `path`.
pub fn fence_state(path: &str, state: &str, generation: Option<u64>) -> (r: AppResult<FenceState>)
    ensures
        state_outcome(r) == fence_of(path@, state@, generation),
{
    if text::same(state, "fenced") {
        match valid_generation(path, generation) {
            Ok(generation) => Ok(FenceState::Fenced { generation }),
            Err(e) => Err(e),
        }
    } else if text::same(state, "active") {
        match valid_generation(path, generation) {
            Ok(generation) => Ok(FenceState::Active { generation }),
            Err(e) => Err(e),
        }
    } else {
        Err(invalid_state(path, "state must be fenced or active with a positive generation"))
    }
}

/// How the environment declares a writer's generation.
#[derive(Debug)]
pub enum Declared {
    Unset,
    NotUtf8,
    Value(String),
}

/// The generation that a declaration stands for.
pub open spec fn declared_generation(declared: Declared) -> Result<
    Option<u64>,
    error::ErrorView,
> {
    match declared {
        Declared::Unset => Ok(None),
        Declared::NotUtf8 => Err(
            error::ErrorView::of(
                ErrorCode::ConfigInvalid,
                "migration fence: POST_ARX_GENERATION is set but is not valid UTF-8"@,
                "Unset POST_ARX_GENERATION or set it to the active positive generation."@,
            ).reason("non-UTF-8 generation declaration"@),
        ),
        Declared::Value(value) => match text::parsed_u64(value@) {
            Some(g) if g > 0 => Ok(Some(g)),
            _ => Err(
                error::ErrorView::of(
                    ErrorCode::ConfigInvalid,
                    "migration fence: POST_ARX_GENERATION must be a positive integer when set"@,
                    "Unset POST_ARX_GENERATION for a legacy store or set the active positive generation."@,
                ).input("POST_ARX_GENERATION"@).reason("invalid generation declaration"@),
            ),
        },
    }
}

/// The generation that the environment declares for this writer.
pub fn current_generation(declared: &Declared) -> (r: AppResult<Option<u64>>)
    ensures
        match r {
            Ok(g) => declared_generation(*declared) == Ok::<Option<u64>, error::ErrorView>(g),
            Err(e) => declared_generation(*declared) == Err::<Option<u64>, error::ErrorView>(e@),
        },
{
    match declared {
        Declared::Unset => Ok(None),
        Declared::NotUtf8 => Err(
            AppError::new(
                ErrorCode::ConfigInvalid,
                "migration fence: POST_ARX_GENERATION is set but is not valid UTF-8",
                "Unset POST_ARX_GENERATION or set it to the active positive generation.",
            ).reason("non-UTF-8 generation declaration"),
        ),
        Declared::Value(value) => {
            match text::parse_u64(value.as_str()) {
                Some(g) => {
                    if g > 0 {
                        return Ok(Some(g));
                    }
                },
                None => {},
            }
            Err(
                AppError::new(
                    ErrorCode::ConfigInvalid,
                    "migration fence: POST_ARX_GENERATION must be a positive integer when set",
                    "Unset POST_ARX_GENERATION for a legacy store or set the active positive generation.",
                ).input("POST_ARX_GENERATION").reason("invalid generation declaration"),
            )
        },
    }
}

/// The path of the fence file.
pub open spec fn state_file(root: Seq<char>) -> Seq<char> {
    paths::join(root, ".post-arx.json"@)
}

pub open spec fn refusal(root: Seq<char>, reason: Seq<char>) -> error::ErrorView {
    error::ErrorView::of(
        ErrorCode::ConfigInvalid,
        "write refused by migration fence '"@ + state_file(root) + "': "@ + reason,
        "Complete the migration or run this writer with the current POST_ARX_GENERATION."@,
    ).path(state_file(root)).reason("migration generation is not admitted"@)
}

fn refuse(context: &Context, reason: &str) -> (r: AppError)
    ensures
        r@ == refusal(context.root@, reason@),
{
    let path = context.file(".post-arx.json");
    AppError::new(
        ErrorCode::ConfigInvalid,
        text::cat4("write refused by migration fence '", path.as_str(), "': ", reason).as_str(),
        "Complete the migration or run this writer with the current POST_ARX_GENERATION.",
    ).path(path.as_str()).reason("migration generation is not admitted")
}

/// What a writer may do before it holds the fence's lock.
#[derive(Debug, Clone, Copy, PartialEq, Eq, Structural)]
pub enum BeforeLock {
    /// A legacy store: write without the lock.
    Legacy,
    /// An enrolled store: take the lock and ask again.
    TakeLock,
}

/// The first admission decision: from what stands in the store before the lock is taken.
pub open spec fn admission(
    root: Seq<char>,
    root_exists: bool,
    state: Option<FenceState>,
    generation: Option<u64>,
) -> Result<BeforeLock, error::ErrorView> {
    if root_exists && state is Some {
        Ok(BeforeLock::TakeLock)
    } else if generation is None {
        Ok(BeforeLock::Legacy)
    } else {
        Err(refusal(root, "the enrolled state file is missing"@))
    }
}

/// Decides whether a writer may go on before it holds the fence's lock.
pub fn admit_before_lock(
    context: &Context,
    root_exists: bool,
    state: Option<FenceState>,
    generation: Option<u64>,
) -> (r: AppResult<BeforeLock>)
    ensures
        match r {
            Ok(b) => admission(context.root@, root_exists, state, generation) == Ok::<
                BeforeLock,
                error::ErrorView,
            >(b),
            Err(e) => admission(context.root@, root_exists, state, generation) == Err::<
                BeforeLock,
                error::ErrorView,
            >(e@),
        },
{
    if root_exists && state.is_some() {
        return Ok(BeforeLock::TakeLock);
    }
    if generation.is_none() {
        return Ok(BeforeLock::Legacy);
    }
    Err(refuse(context, "the enrolled state file is missing"))
}

/// Why a writer is refused once the lock is held.
pub open spec fn refused_under_lock(
    root: Seq<char>,
    state: Option<FenceState>,
    generation: Option<u64>,
) -> Option<error::ErrorView> {
    match state {
        None => Some(refusal(root, "the enrolled state file disappeared"@)),
        Some(FenceState::Fenced { generation: _ }) => Some(
            refusal(root, "the store is fenced"@),
        ),
        Some(FenceState::Active { generation: expected }) => match generation {
            Some(actual) => if actual == expected {
                None
            } else {
                Some(
                    refusal(
                        root,
                        "writer generation "@ + text::decimal(actual as nat)
                            + " is stale; current generation is "@ + text::decimal(
                            expected as nat,
                        ),
                    ),
                )
            },
            None => Some(
                refusal(root, "an active store requires an explicit writer generation"@),
            ),
        },
    }
}

/// Decides whether a writer that holds the fence's lock may write.
pub fn admit_under_lock(
    context: &Context,
    state: Option<FenceState>,
    generation: Option<u64>,
) -> (r: AppResult<()>)
    ensures
        error::failure(r) == refused_under_lock(context.root@, state, generation),
{
    match state {
        None => Err(refuse(context, "the enrolled state file disappeared")),
        Some(FenceState::Fenced { generation: _ }) => Err(refuse(context, "the store is fenced")),
        Some(FenceState::Active { generation: expected }) => match generation {
            Some(actual) => {
                if actual == expected {
                    return Ok(());
                }
                Err(
                    refuse(
                        context,
                        text::cat4(
                            "writer generation ",
                            text::decimal_text(actual).as_str(),
                            " is stale; current generation is ",
                            text::decimal_text(expected).as_str(),
                        ).as_str(),
                    ),
                )
            },
            None => Err(
                refuse(context, "an active store requires an explicit writer generation"),
            ),
        },
    }
}

/// Whether a command that only reads must leave the store untouched: a generation is
/// declared, or the fence file exists, readable or not.
pub fn read_only_must_not_mutate(declared: bool, state: &AppResult<Option<FenceState>>) -> (r: bool)
    ensures
        r == (declared || *state is Err || (*state)->Ok_0 is Some),
{
    if declared {
        return true;
    }
    match state {
        Ok(found) => found.is_some(),
        Err(_) => true,
    }
}

/// The fence that a store without one gets, or why it gets none.
pub open spec fn fenced(root: Seq<char>, prior: Option<FenceState>, generation: u64) -> Result<
    FenceState,
    error::ErrorView,
> {
    if generation == 0 {
        Err(error::ErrorView::invalid_argument("migration generation must be positive"@))
    } else if prior is Some {
        Err(refusal(root, "fencing is only legal before enrollment"@))
    } else {
        Ok(FenceState::Fenced { generation })
    }
}

/// Decides on the fence for a store; asked before and after its lock is taken.
pub fn check_fence(context: &Context, prior: Option<FenceState>, generation: u64) -> (r: AppResult<
    FenceState,
>)
    ensures
        state_outcome(r) == fenced(context.root@, prior, generation),
{
    if generation == 0 {
        return Err(AppError::invalid_argument("migration generation must be positive"));
    }
    if prior.is_some() {
        return Err(refuse(context, "fencing is only legal before enrollment"));
    }
    Ok(FenceState::Fenced { generation })
}

/// The state that activation leads to, or why it is refused.
pub open spec fn activated(root: Seq<char>, prior: Option<FenceState>, generation: u64) -> Result<
    FenceState,
    error::ErrorView,
> {
    if prior == Some(FenceState::Fenced { generation }) {
        Ok(FenceState::Active { generation })
    } else {
        Err(refusal(root, "activation requires a fenced state with the same generation"@))
    }
}

/// Decides on the activation of a fenced store.
pub fn check_activate(
    context: &Context,
    prior: Option<FenceState>,
    generation: u64,
) -> (r: AppResult<FenceState>)
    ensures
        state_outcome(r) == activated(context.root@, prior, generation),
{
    match prior {
        Some(FenceState::Fenced { generation: expected }) => {
            if expected == generation {
                return Ok(FenceState::Active { generation });
            }
        },
        _ => {},
    }
    Err(refuse(context, "activation requires a fenced state with the same generation"))
}

// ---------------------------------------------------------------------------
// The lock file
// ---------------------------------------------------------------------------
/// What the file system says about a lock file.
#[derive(Debug, Clone, Copy, PartialEq, Eq, Structural)]
pub struct LockFacts {
    pub is_file: bool,
    pub links: u64,
    pub device: u64,
    pub inode: u64,
}

/// A lock file can be trusted if it is a regular file under one name.
pub open spec fn trusted(facts: LockFacts) -> bool {
    facts.is_file && facts.links == 1
}

pub fn trusted_lock(facts: &LockFacts) -> (r: bool)
    ensures
        r == trusted(*facts),
{
    facts.is_file && facts.links == 1
}

/// Checks a lock file that has just been opened.
pub fn check_opened_lock(path: &str, facts: &LockFacts) -> (r: AppResult<()>)
    ensures
        error::failure(r) == if trusted(*facts) {
            None
        } else {
            Some(invalid_state_error(path@, "lock must be a solitary regular file"@))
        },
{
    if trusted_lock(facts) {
        Ok(())
    } else {
        Err(invalid_state(path, "lock must be a solitary regular file"))
    }
}

/// The largest fence file, in bytes.
pub const MAX_STATE_BYTES: u64 = 4096;

/// Why a fence file is refused before it is read: it must be a regular file under one name,
/// and small.
pub open spec fn state_file_fault(facts: LockFacts, size: u64) -> Option<Seq<char>> {
    if !trusted(facts) {
        Some("state must be a solitary regular file"@)
    } else if size > 4096 {
        Some("state exceeds the 4 KiB limit"@)
    } else {
        None
    }
}

/// Checks a fence file of the given size that has just been opened.
pub fn check_state_file(path: &str, facts: &LockFacts, size: u64) -> (r: AppResult<()>)
    ensures
        error::failure(r) == match state_file_fault(*facts, size) {
            Some(reason) => Some(invalid_state_error(path@, reason)),
            None => None,
        },
{
    if !trusted_lock(facts) {
        return Err(invalid_state(path, "state must be a solitary regular file"));
    }
    if size > MAX_STATE_BYTES {
        return Err(invalid_state(path, "state exceeds the 4 KiB limit"));
    }
    Ok(())
}

/// The two fields of the fence file of a state.
pub open spec fn fields_of(state: FenceState) -> (Seq<char>, u64) {
    match state {
        FenceState::Fenced { generation } => ("fenced"@, generation),
        FenceState::Active { generation } => ("active"@, generation),
    }
}

pub fn state_fields(state: FenceState) -> (r: (&'static str, u64))
    ensures
        (r.0@, r.1) == fields_of(state),
{
    match state {
        FenceState::Fenced { generation } => ("fenced", generation),
        FenceState::Active { generation } => ("active", generation),
    }
}

/// A fence file is read back as the state that it was written for.
pub proof fn fence_files_are_read_back(path: Seq<char>, state: FenceState)
    requires
        fields_of(state).1 > 0,
    ensures
        fence_of(path, fields_of(state).0, Some(fields_of(state).1)) == Ok::<
            FenceState,
            error::ErrorView,
        >(state),
{
    reveal_strlit("fenced");
    reveal_strlit("active");
    assert("fenced"@[0] != "active"@[0]);
}

/// What stands at the path of a lock file after the lock was taken.
#[derive(Debug, Clone, Copy)]
pub enum OnPath {
    Found(LockFacts),
    Missing,
    Unreadable,
}

/// Why a lock that was taken does not count.
pub open spec fn lock_fault(held: LockFacts, on_path: OnPath) -> Option<Seq<char>> {
    match on_path {
        OnPath::Missing => Some("lock file disappeared while acquiring its flock"@),
        OnPath::Unreadable => Some("lock path cannot be inspected after acquiring its flock"@),
        OnPath::Found(found) => if trusted(held) && held == found {
            None
        } else {
            Some("lock path changed while acquiring its flock"@)
        },
    }
}

/// Checks that the lock that was taken is still the file at the path.
pub fn check_held_lock(path: &str, held: &LockFacts, on_path: &OnPath) -> (r: AppResult<()>)
    ensures
        error::failure(r) == match lock_fault(*held, *on_path) {
            Some(reason) => Some(invalid_state_error(path@, reason)),
            None => None,
        },
{
    match on_path {
        OnPath::Missing => Err(
            invalid_state(path, "lock file disappeared while acquiring its flock"),
        ),
        OnPath::Unreadable => Err(
            invalid_state(path, "lock path cannot be inspected after acquiring its flock"),
        ),
        OnPath::Found(found) => {
            if !trusted_lock(held) || !trusted_lock(found) || held.device != found.device
                || held.inode != found.inode || held.links != found.links {
                return Err(invalid_state(path, "lock path changed while acquiring its flock"));
            }
            Ok(())
        },
    }
}

// ---------------------------------------------------------------------------
// Laws
// ---------------------------------------------------------------------------
/// Whether a writer that declares a generation gets through the fence, if the fence does not
/// change between the two looks at it.
pub open spec fn admitted(
    root: Seq<char>,
    root_exists: bool,
    state: Option<FenceState>,
    generation: Option<u64>,
) -> bool {
    match admission(root, root_exists, state, generation) {
        Ok(BeforeLock::Legacy) => true,
        Ok(BeforeLock::TakeLock) => refused_under_lock(root, state, generation) is None,
        Err(_) => false,
    }
}

/// A fenced store admits no writer, whatever it declares.
pub proof fn fenced_stores_admit_nobody(root: Seq<char>, fence: u64, generation: Option<u64>)
    ensures
        !admitted(root, true, Some(FenceState::Fenced { generation: fence }), generation),
{
}

/// An active store admits exactly the writers that declare its generation.
pub proof fn active_stores_admit_their_generation_only(
    root: Seq<char>,
    active: u64,
    generation: Option<u64>,
)
    ensures
        admitted(root, true, Some(FenceState::Active { generation: active }), generation)
            <==> generation == Some(active),
{
}

/// A store without a fence file admits exactly the writers that declare no generation.
pub proof fn legacy_stores_admit_undeclared_writers_only(
    root: Seq<char>,
    root_exists: bool,
    generation: Option<u64>,
)
    ensures
        admitted(root, root_exists, None, generation) <==> generation is None,
{
}

/// A store is enrolled in two steps, in this order and with one generation: fenced, then
/// active. No step leads back, and none is taken twice.
pub proof fn enrollment_goes_one_way(root: Seq<char>, prior: Option<FenceState>, generation: u64)
    ensures
        fenced(root, prior, generation) is Ok <==> prior is None && generation > 0,
        activated(root, prior, generation) is Ok <==> prior == Some(
            FenceState::Fenced { generation },
        ),
        fenced(root, prior, generation) is Ok ==> fenced(root, prior, generation)->Ok_0
            == (FenceState::Fenced { generation }),
        activated(root, prior, generation) is Ok ==> activated(root, prior, generation)->Ok_0
            == (FenceState::Active { generation }),
{
}

} // verus!
