//! The regions of the module's linear memory: whether a redraw was
//! requested, the number of running threads, the variables, the sprites'
//! blocks and the threads' next steps, in this order.

use vstd::prelude::*;
use crate::wasm::mem_layout::sprite;

verus! {

/// Where the flag that a redraw was requested lies (4 bytes).
pub const REDRAW_REQUESTED: u64 = 0;

/// Where the number of running threads lies (4 bytes).
pub const THREAD_NUM: u64 = 4;

/// Where the variables start.
pub const VARS: u64 = 8;

/// The bytes that one variable takes: its type, padding, then its value.
pub const VAR_INFO_LEN: u64 = 16;

/// Where a variable's type lies in its bytes (4 bytes).
pub const VAR_TYPE: u64 = 0;

/// Where a variable's value lies in its bytes (8 bytes).
pub const VAR_VAL: u64 = 8;

/// The bytes that one thread's next step takes.
pub const THREAD_BYTE_LEN: u64 = 4;

/// The address of the variable with index `var_index`.
pub open spec fn var_address_spec(var_index: int) -> int {
    VARS + VAR_INFO_LEN * var_index
}

/// The address of the field at `field` of the block of the target with index
/// `target_index` (the stage is target 0 and has no block; sprite `n` is
/// target `n + 1`), after `var_count` variables.
pub open spec fn sprite_info_address_spec(var_count: int, target_index: int, field: int) -> int {
    (target_index - 1) * sprite::BLOCK_SIZE + VARS + var_count * VAR_INFO_LEN + field
}

/// The address of the next step of the thread with index `thread_index`,
/// after `var_count` variables and `sprite_count` sprites' blocks.
pub open spec fn thread_address_spec(var_count: int, sprite_count: int, thread_index: int) -> int {
    VARS + var_count * VAR_INFO_LEN + sprite_count * sprite::BLOCK_SIZE + thread_index
        * THREAD_BYTE_LEN
}

/// The address of the variable with index `var_index`.
pub fn var_address(var_index: u64) -> (r: u64)
    requires
        var_address_spec(var_index as int) <= u64::MAX,
    ensures
        r == var_address_spec(var_index as int),
{
    VARS + VAR_INFO_LEN * var_index
}

/// The address of a field of a sprite's block: the target with index
/// `target_index`, counted with the stage as 0, after `var_count` variables.
pub fn sprite_info_address(var_count: u64, target_index: u32, field: u64) -> (r: u64)
    requires
        target_index >= 1,
        sprite_info_address_spec(var_count as int, target_index as int, field as int) <= u64::MAX,
    ensures
        r == sprite_info_address_spec(var_count as int, target_index as int, field as int),
{
    proof {
        assert((target_index - 1) * sprite::BLOCK_SIZE >= 0) by (nonlinear_arith)
            requires
                target_index >= 1,
        ;
        assert(var_count * VAR_INFO_LEN >= 0) by (nonlinear_arith);
    }
    (target_index as u64 - 1) * sprite::BLOCK_SIZE as u64 + VARS + var_count * VAR_INFO_LEN + field
}

/// The address of the next step of the thread with index `thread_index`.
pub fn thread_address(var_count: u64, sprite_count: u64, thread_index: u64) -> (r: u64)
    requires
        thread_address_spec(var_count as int, sprite_count as int, thread_index as int) <= u64::MAX,
    ensures
        r == thread_address_spec(var_count as int, sprite_count as int, thread_index as int),
{
    proof {
        assert(var_count * VAR_INFO_LEN >= 0) by (nonlinear_arith);
        assert(sprite_count * sprite::BLOCK_SIZE >= 0) by (nonlinear_arith);
        assert(thread_index * THREAD_BYTE_LEN >= 0) by (nonlinear_arith);
    }
    VARS + var_count * VAR_INFO_LEN + sprite_count * sprite::BLOCK_SIZE as u64 + thread_index
        * THREAD_BYTE_LEN
}

/// Every value has the greatest alignment that its type can have: each
/// variable's type (4 bytes) and value (8 bytes), each sprite's block (whose
/// fields are aligned within it), and each thread's next step (4 bytes).
pub proof fn law_module_memory_is_aligned(
    var_count: nat,
    var_index: nat,
    target_index: nat,
    sprite_count: nat,
    thread_index: nat,
)
    requires
        target_index >= 1,
    ensures
        (var_address_spec(var_index as int) + VAR_TYPE) % 4 == 0,
        (var_address_spec(var_index as int) + VAR_VAL) % 8 == 0,
        sprite_info_address_spec(var_count as int, target_index as int, 0) % 8 == 0,
        thread_address_spec(var_count as int, sprite_count as int, thread_index as int) % 4 == 0,
        REDRAW_REQUESTED % 4 == 0 && THREAD_NUM % 4 == 0,
{
    assert((8 + 16 * var_index + 0) % 4 == 0) by (nonlinear_arith);
    assert((8 + 16 * var_index + 8) % 8 == 0) by (nonlinear_arith);
    assert(((target_index - 1) * 80 + 8 + var_count * 16 + 0) % 8 == 0) by (nonlinear_arith)
        requires
            target_index >= 1,
    ;
    assert((8 + var_count * 16 + sprite_count * 80 + thread_index * 4) % 4 == 0) by (
    nonlinear_arith);
}

} // verus!
