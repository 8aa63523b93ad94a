//! Decisions of the freeze-screen module.
use vstd::prelude::*;

verus! {

/// The screen counts as frozen once at least one monitor frame was captured.
pub fn is_frozen(captured_frames: usize) -> (frozen: bool)
    ensures
        frozen == (captured_frames > 0),
{
    captured_frames > 0
}

} // verus!
