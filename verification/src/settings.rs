//! Build-time operating mode.

use vstd::prelude::*;

verus! {

/// Developer mode uploads every 30 seconds; normal mode uploads once a
/// day at the fixed local target time.
pub const DEVELOPER_MODE: bool = true;

/// Whether the firmware was built in developer mode.
pub fn is_developer_mode() -> (r: bool)
    ensures
        r == DEVELOPER_MODE,
{
    DEVELOPER_MODE
}

} // verus!
