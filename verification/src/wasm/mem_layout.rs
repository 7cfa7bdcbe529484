//! The layout of the generated module's linear memory: the stage's block, then
//! one block per sprite. Each field's offset is given from the start of its
//! block.

pub mod module_memory;
pub mod sprite;
pub mod stage;

use vstd::prelude::*;

verus! {

/// The fields of a sprite's block in memory order, each with its offset and
/// its size in bytes.
pub open spec fn sprite_fields() -> Seq<(u32, u32)> {
    seq![
        (sprite::X, 8),
        (sprite::Y, 8),
        (sprite::PEN_COLOR, 4),
        (sprite::PEN_SATURATION, 4),
        (sprite::PEN_BRIGHTNESS, 4),
        (sprite::PEN_TRANSPARENCY, 4),
        (sprite::PEN_COLOR_R, 4),
        (sprite::PEN_COLOR_G, 4),
        (sprite::PEN_COLOR_B, 4),
        (sprite::PEN_COLOR_A, 4),
        (sprite::PEN_SIZE, 8),
        (sprite::PEN_DOWN, 1),
        (sprite::VISIBLE, 1),
        (sprite::PADDING, 2),
        (sprite::COSTUME, 4),
        (sprite::SIZE, 8),
        (sprite::ROTATION, 8),
    ]
}

/// The fields of the stage's block in memory order, each with its offset and
/// its size in bytes.
pub open spec fn stage_fields() -> Seq<(u32, u32)> {
    seq![(stage::COSTUME, 4), (stage::PADDING, 4)]
}

/// A field, given by its offset and size, lies at a multiple of its size.
pub open spec fn aligned(field: (u32, u32)) -> bool {
    if field.1 == 8 {
        field.0 % 8 == 0
    } else if field.1 == 4 {
        field.0 % 4 == 0
    } else if field.1 == 2 {
        field.0 % 2 == 0
    } else {
        field.1 == 1
    }
}

/// The fields of a block follow each other without gaps from offset 0, each
/// aligned to its own size, and the block ends where its last field ends.
pub open spec fn packed_and_aligned(fields: Seq<(u32, u32)>, block_size: u32) -> bool {
    &&& fields.len() > 0
    &&& fields[0].0 == 0
    &&& forall|i: int| 0 <= i < fields.len() ==> aligned(#[trigger] fields[i])
    &&& forall|i: int|
        0 <= i < fields.len() - 1 ==> #[trigger] fields[i].0 + fields[i].1 == fields[i + 1].0
    &&& fields.last().0 + fields.last().1 == block_size
}

/// Address of a field of the sprite with the given index (counted from 0 over
/// the sprites, the stage not included).
pub open spec fn sprite_field_address(sprite_index: int, offset: int) -> int {
    stage::BLOCK_SIZE + sprite_index * sprite::BLOCK_SIZE + offset
}

/// Every value in memory has the greatest alignment its type can have: the
/// fields of the stage's and of each sprite's block are packed in order, each
/// aligned to its size, and since both blocks' sizes are multiples of 8 every
/// sprite's block starts 8-byte aligned.
pub proof fn law_layout_is_aligned(sprite_index: nat)
    ensures
        packed_and_aligned(sprite_fields(), sprite::BLOCK_SIZE),
        packed_and_aligned(stage_fields(), stage::BLOCK_SIZE),
        sprite_field_address(sprite_index as int, 0) % 8 == 0,
{
    let f = sprite_fields();
    assert(f[0] == (0u32, 8u32));
    assert(f[1] == (8u32, 8u32));
    assert(f[2] == (16u32, 4u32));
    assert(f[3] == (20u32, 4u32));
    assert(f[4] == (24u32, 4u32));
    assert(f[5] == (28u32, 4u32));
    assert(f[6] == (32u32, 4u32));
    assert(f[7] == (36u32, 4u32));
    assert(f[8] == (40u32, 4u32));
    assert(f[9] == (44u32, 4u32));
    assert(f[10] == (48u32, 8u32));
    assert(f[11] == (56u32, 1u32));
    assert(f[12] == (57u32, 1u32));
    assert(f[13] == (58u32, 2u32));
    assert(f[14] == (60u32, 4u32));
    assert(f[15] == (64u32, 8u32));
    assert(f[16] == (72u32, 8u32));
    assert forall|i: int| 0 <= i < f.len() implies aligned(#[trigger] f[i]) by {
        assert(0 <= i < 17);
    }
    assert forall|i: int| 0 <= i < f.len() - 1 implies #[trigger] f[i].0 + f[i].1 == f[i + 1].0 by {
        assert(0 <= i < 16);
    }
    let s = stage_fields();
    assert(s[0] == (0u32, 4u32));
    assert(s[1] == (4u32, 4u32));
    assert((8 + sprite_index * 80) % 8 == 0) by (nonlinear_arith);
}

} // verus!
