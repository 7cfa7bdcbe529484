//! Layout of the stage's block of memory.

use vstd::prelude::*;

verus! {

/// Backdrop number of the stage (i32).
pub const COSTUME: u32 = 0;

/// Four bytes of padding, so that the sprites' blocks that follow are aligned
/// to eight bytes.
pub const PADDING: u32 = 4;

/// Size of the stage's block.
pub const BLOCK_SIZE: u32 = 8;

} // verus!
