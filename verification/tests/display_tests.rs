//! The framebuffer, the sprite blit with its collision flag, and the
//! keypad helpers.

use chip8_core::chip8::Chip8;
use chip8_core::display::{key_pressed, pressed_keys, Display, ValidHex};

#[test]
fn a_fresh_display_is_dark() {
    let d = Display::new();
    for y in 0..32 {
        for x in 0..64 {
            assert!(!d.pixel(x, y));
        }
    }
}

#[test]
fn set_and_flip_pixel_work_pointwise() {
    let mut d = Display::new();
    d.set_pixel(3, 5, true);
    assert!(d.pixel(3, 5));
    assert!(!d.pixel(5, 3));
    // Flip reports the state before the flip.
    assert!(d.flip_pixel(3, 5));
    assert!(!d.pixel(3, 5));
    assert!(!d.flip_pixel(3, 5));
    assert!(d.pixel(3, 5));
}

#[test]
fn clear_turns_every_pixel_off() {
    let mut d = Display::new();
    d.set_pixel(0, 0, true);
    d.set_pixel(63, 31, true);
    d.clear();
    assert!(!d.pixel(0, 0));
    assert!(!d.pixel(63, 31));
}

#[test]
fn drw_paints_the_sprite_rows() {
    let mut cpu = Chip8::new();
    // A two-row sprite: 0b11000000, 0b00000001.
    let sprite: Vec<u8> = vec![0xC0, 0x01];
    cpu.write_ram(&sprite, 0x600);
    cpu.ld_i_imm(0x600);
    cpu.ld_imm(0, 10);
    cpu.ld_imm(1, 4);
    cpu.drw(0, 1, 2);
    assert!(cpu.get_pixel(10, 4));
    assert!(cpu.get_pixel(11, 4));
    assert!(!cpu.get_pixel(12, 4));
    assert!(cpu.get_pixel(17, 5));
    assert!(!cpu.get_pixel(10, 5));
    assert_eq!(cpu.get_register(15), 0);
}

#[test]
fn drawing_twice_restores_the_screen_and_collides() {
    let mut cpu = Chip8::new();
    let sprite: Vec<u8> = vec![0xFF, 0x81];
    cpu.write_ram(&sprite, 0x600);
    cpu.ld_i_imm(0x600);
    cpu.ld_imm(0, 20);
    cpu.ld_imm(1, 10);
    cpu.drw(0, 1, 2);
    assert_eq!(cpu.get_register(15), 0);
    assert!(cpu.get_pixel(20, 10));
    cpu.drw(0, 1, 2);
    // Every pixel the first draw set was turned off again.
    assert_eq!(cpu.get_register(15), 1);
    for y in 0..32 {
        for x in 0..64 {
            assert!(!cpu.get_pixel(x, y));
        }
    }
}

#[test]
fn drw_clips_at_the_right_and_bottom_edges() {
    let mut cpu = Chip8::new();
    let sprite: Vec<u8> = vec![0xFF, 0xFF];
    cpu.write_ram(&sprite, 0x600);
    cpu.ld_i_imm(0x600);
    cpu.ld_imm(0, 60);
    cpu.ld_imm(1, 31);
    cpu.drw(0, 1, 2);
    // Columns 60..63 of row 31 are set; nothing wrapped to column 0 or
    // row 0.
    assert!(cpu.get_pixel(60, 31));
    assert!(cpu.get_pixel(63, 31));
    assert!(!cpu.get_pixel(0, 31));
    assert!(!cpu.get_pixel(0, 0));
    assert!(!cpu.get_pixel(60, 0));
}

#[test]
fn drw_wraps_the_origin() {
    let mut cpu = Chip8::new();
    let sprite: Vec<u8> = vec![0x80];
    cpu.write_ram(&sprite, 0x600);
    cpu.ld_i_imm(0x600);
    cpu.ld_imm(0, 64);
    cpu.ld_imm(1, 32);
    cpu.drw(0, 1, 1);
    assert!(cpu.get_pixel(0, 0));
}

#[test]
fn collision_comes_only_from_pixels_turned_off() {
    let mut cpu = Chip8::new();
    let sprite: Vec<u8> = vec![0x80];
    cpu.write_ram(&sprite, 0x600);
    cpu.ld_i_imm(0x600);
    cpu.ld_imm(0, 5);
    cpu.ld_imm(1, 5);
    cpu.drw(0, 1, 1);
    assert_eq!(cpu.get_register(15), 0);
    // A second sprite that misses the set pixel does not collide.
    cpu.ld_imm(0, 6);
    cpu.drw(0, 1, 1);
    assert_eq!(cpu.get_register(15), 0);
    // One that hits it does.
    cpu.ld_imm(0, 5);
    cpu.drw(0, 1, 1);
    assert_eq!(cpu.get_register(15), 1);
}

#[test]
fn cls_clears_through_the_machine() {
    let mut cpu = Chip8::new();
    let sprite: Vec<u8> = vec![0xFF];
    cpu.write_ram(&sprite, 0x600);
    cpu.ld_i_imm(0x600);
    cpu.ld_imm(0, 0);
    cpu.ld_imm(1, 0);
    cpu.drw(0, 1, 1);
    assert!(cpu.get_pixel(0, 0));
    cpu.cls();
    assert!(!cpu.get_pixel(0, 0));
}

#[test]
fn key_mask_queries_follow_the_bits() {
    let keys: u16 = (1 << 3) | (1 << 0xF);
    assert!(key_pressed(keys, 3));
    assert!(key_pressed(keys, 0xF));
    assert!(!key_pressed(keys, 0));
    assert!(!key_pressed(keys, 7));
}

#[test]
fn pressed_keys_lists_the_set_bits_in_order() {
    let keys: u16 = (1 << 1) | (1 << 0xA);
    let list = pressed_keys(keys);
    assert_eq!(list, vec![ValidHex::Num1, ValidHex::A]);
    assert_eq!(pressed_keys(0), vec![]);
}

#[test]
fn hex_values_round_trip() {
    for v in 0..16u8 {
        let k = ValidHex::from_value(v).unwrap();
        assert_eq!(k.value(), v);
    }
    assert_eq!(ValidHex::from_value(16), None);
}
