use hyperquark::wasm::mem_layout::module_memory::{
    sprite_info_address, thread_address, var_address, VAR_VAL,
};
use hyperquark::wasm::mem_layout::{sprite, stage};

#[test]
fn sprite_layout_matches_the_documented_table() {
    assert_eq!(sprite::X, 0);
    assert_eq!(sprite::Y, 8);
    assert_eq!(sprite::PEN_COLOR, 16);
    assert_eq!(sprite::PEN_SATURATION, 20);
    assert_eq!(sprite::PEN_BRIGHTNESS, 24);
    assert_eq!(sprite::PEN_TRANSPARENCY, 28);
    assert_eq!(sprite::PEN_COLOR_R, 32);
    assert_eq!(sprite::PEN_COLOR_A, 44);
    assert_eq!(sprite::PEN_SIZE, 48);
    assert_eq!(sprite::PEN_DOWN, 56);
    assert_eq!(sprite::VISIBLE, 57);
    assert_eq!(sprite::COSTUME, 60);
    assert_eq!(sprite::SIZE, 64);
    assert_eq!(sprite::ROTATION, 72);
    assert_eq!(sprite::BLOCK_SIZE, 80);
}

#[test]
fn stage_block_keeps_sprite_blocks_aligned() {
    assert_eq!(stage::COSTUME, 0);
    assert_eq!(stage::BLOCK_SIZE, 8);
    for i in 0..10u32 {
        assert_eq!((stage::BLOCK_SIZE + i * sprite::BLOCK_SIZE) % 8, 0);
    }
}

#[test]
fn module_memory_places_variables_sprites_and_threads() {
    assert_eq!(var_address(0), 8);
    assert_eq!(var_address(3) + VAR_VAL, 64);
    // two variables, then the block of the first sprite (target 1)
    assert_eq!(sprite_info_address(2, 1, 0), 40);
    assert_eq!(sprite_info_address(2, 2, 56), 40 + 80 + 56);
    assert_eq!(thread_address(2, 3, 5), 8 + 32 + 240 + 20);
}
