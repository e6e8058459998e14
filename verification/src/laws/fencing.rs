//! Who may write while the store moves.
use vstd::prelude::*;

use crate::error::ErrorCode;
use crate::fence;
use crate::fence::{Declared, FenceState, LockFacts, OnPath};
use crate::text;

verus! {

/// A fence is fenced or active, with a positive generation; anything else in its file is refused.
pub proof fn fences_have_a_state_and_a_generation(
    path: Seq<char>,
    state: Seq<char>,
    generation: u64,
)
    ensures
        generation > 0 ==> (fence::fence_of(path, "fenced"@, Some(generation)) matches Ok(s) && s
            == (FenceState::Fenced { generation })),
        generation > 0 ==> (fence::fence_of(path, "active"@, Some(generation)) matches Ok(s) && s
            == (FenceState::Active { generation })),
        fence::fence_of(path, state, Some(0)) is Err,
        fence::fence_of(path, state, None) is Err,
        state != "fenced"@ && state != "active"@ ==> fence::fence_of(
            path,
            state,
            Some(generation),
        ) is Err,
        fence::fence_of(path, state, Some(generation)) matches Err(e) ==> e.code
            == ErrorCode::ConfigInvalid && e.details.path == Some(path),
{
    reveal_strlit("fenced");
    reveal_strlit("active");
    assert("fenced"@[0] != "active"@[0]);
}

/// A writer declares no generation, or a positive number; anything else is refused.
pub proof fn generations_are_declared_as_numbers(declared: Declared)
    ensures
        declared is Unset ==> (fence::declared_generation(declared) matches Ok(g) && g is None),
        declared is NotUtf8 ==> fence::declared_generation(declared) is Err,
        declared matches Declared::Value(value) ==> {
            &&& fence::declared_generation(declared) matches Ok(g) ==> g is Some && g
                == text::parsed_u64(value@) && g->0 > 0
            &&& fence::declared_generation(declared) is Err <==> text::parsed_u64(value@) is None
                || text::parsed_u64(value@) == Some(0u64)
        },
        fence::declared_generation(declared) matches Err(e) ==> e.code == ErrorCode::ConfigInvalid,
{
}

/// Before the lock: an enrolled store asks for the lock; a store that is not takes writers that
/// declare nothing, and refuses those that declare a generation.
pub proof fn enrolled_stores_ask_for_the_lock(
    root: Seq<char>,
    root_exists: bool,
    state: Option<FenceState>,
    generation: Option<u64>,
)
    ensures
        root_exists && state is Some ==> (fence::admission(
            root,
            root_exists,
            state,
            generation,
        ) matches Ok(b) && b is TakeLock),
        !(root_exists && state is Some) && generation is None ==> (fence::admission(
            root,
            root_exists,
            state,
            generation,
        ) matches Ok(b) && b is Legacy),
        !(root_exists && state is Some) && generation is Some ==> fence::admission(
            root,
            root_exists,
            state,
            generation,
        ) is Err,
{
}

/// Under the lock: an active store takes just the writers of its own generation, and a fenced or
/// vanished one takes none.
pub proof fn active_stores_take_their_generation(
    root: Seq<char>,
    state: Option<FenceState>,
    generation: Option<u64>,
)
    ensures
        fence::refused_under_lock(root, state, generation) is None <==> state is Some && state->0
            is Active && generation == Some(state->0->Active_generation),
        fence::refused_under_lock(root, state, generation) matches Some(e) ==> e.code
            == ErrorCode::ConfigInvalid,
{
}

/// A store is fenced once, with a positive generation, and activated from that fence with the same
/// generation; every other move is refused.
pub proof fn fences_are_set_and_lifted_once(
    root: Seq<char>,
    prior: Option<FenceState>,
    generation: u64,
)
    ensures
        fence::fenced(root, prior, generation) is Ok <==> generation > 0 && prior is None,
        fence::fenced(root, prior, generation) matches Ok(s) ==> s == (FenceState::Fenced {
            generation,
        }),
        fence::activated(root, prior, generation) is Ok <==> prior is Some && prior->0 is Fenced
            && prior->0->Fenced_generation == generation,
        fence::activated(root, prior, generation) matches Ok(s) ==> s == (FenceState::Active {
            generation,
        }),
{
}

/// A lock or a state file is trusted only as a regular file with one name; a state file is at most
/// four kibibytes, and a lock is still the file that was opened.
pub proof fn files_are_trusted_alone(held: LockFacts, found: LockFacts, size: u64)
    ensures
        fence::trusted(held) <==> held.is_file && held.links == 1,
        fence::state_file_fault(held, size) is None <==> held.is_file && held.links == 1 && size
            <= 4096,
        fence::lock_fault(held, OnPath::Missing) is Some,
        fence::lock_fault(held, OnPath::Unreadable) is Some,
        fence::lock_fault(held, OnPath::Found(found)) is None <==> held.is_file && held.links == 1
            && found.is_file && found.links == 1 && held.device == found.device && held.inode
            == found.inode,
{
}

/// A fence is written by its state's name and its generation.
pub proof fn fences_are_written_by_name(generation: u64)
    ensures
        fence::fields_of(FenceState::Fenced { generation }) == ("fenced"@, generation),
        fence::fields_of(FenceState::Active { generation }) == ("active"@, generation),
{
}

} // verus!
