//! Outcome codes of setting up the database folder and file.

use vstd::prelude::*;

verus! {

/// The code reported after trying to create the database folder or file:
/// 1 when it was created, 0 when it was not (for instance because it was
/// already there).
pub fn creation_status(created: bool) -> (code: u8)
    ensures
        code == (if created { 1u8 } else { 0u8 }),
{
    if created {
        1
    } else {
        0
    }
}

} // verus!
