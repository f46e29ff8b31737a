//! Behaviour of the individual instruction handlers.

use chip8_core::chip8::Chip8;
use chip8_core::model::ExecError;

#[test]
fn add_sets_carry_on_overflow() {
    let mut cpu = Chip8::new();
    cpu.ld_imm(0, 0xFF);
    cpu.ld_imm(1, 0x01);
    cpu.add(0, 1);
    assert_eq!(cpu.get_register(0), 0x00);
    assert_eq!(cpu.get_register(15), 1);
}

#[test]
fn add_clears_carry_without_overflow() {
    let mut cpu = Chip8::new();
    cpu.ld_imm(0, 10);
    cpu.ld_imm(1, 20);
    cpu.ld_imm(15, 1);
    cpu.add(0, 1);
    assert_eq!(cpu.get_register(0), 30);
    assert_eq!(cpu.get_register(15), 0);
}

#[test]
fn sub_wraps_and_reports_borrow() {
    let mut cpu = Chip8::new();
    cpu.ld_imm(0, 0x05);
    cpu.ld_imm(1, 0x0A);
    cpu.sub(0, 1);
    assert_eq!(cpu.get_register(0), 0xFB);
    assert_eq!(cpu.get_register(15), 0);
}

#[test]
fn sub_without_borrow_sets_flag() {
    let mut cpu = Chip8::new();
    cpu.ld_imm(0, 0x0A);
    cpu.ld_imm(1, 0x05);
    cpu.sub(0, 1);
    assert_eq!(cpu.get_register(0), 0x05);
    assert_eq!(cpu.get_register(15), 1);
}

#[test]
fn sub_of_equal_values_reports_borrow_flag_zero() {
    let mut cpu = Chip8::new();
    cpu.ld_imm(0, 0x42);
    cpu.ld_imm(1, 0x42);
    cpu.sub(0, 1);
    assert_eq!(cpu.get_register(0), 0);
    assert_eq!(cpu.get_register(15), 0);
}

#[test]
fn subn_reverses_the_operands() {
    let mut cpu = Chip8::new();
    cpu.ld_imm(0, 0x05);
    cpu.ld_imm(1, 0x0A);
    cpu.subn(0, 1);
    assert_eq!(cpu.get_register(0), 0x05);
    assert_eq!(cpu.get_register(15), 1);
}

#[test]
fn shr_halves_and_keeps_old_low_bit() {
    let mut cpu = Chip8::new();
    cpu.ld_imm(3, 0b1000_0001);
    cpu.shr(3);
    assert_eq!(cpu.get_register(3), 0b0100_0000);
    assert_eq!(cpu.get_register(15), 1);
}

#[test]
fn shl_doubles_and_keeps_old_high_bit() {
    let mut cpu = Chip8::new();
    cpu.ld_imm(3, 0b1000_0001);
    cpu.shl(3);
    assert_eq!(cpu.get_register(3), 0b0000_0010);
    assert_eq!(cpu.get_register(15), 1);
}

#[test]
fn shr_of_even_value_clears_flag() {
    let mut cpu = Chip8::new();
    cpu.ld_imm(3, 0b0100_0010);
    cpu.shr(3);
    assert_eq!(cpu.get_register(3), 0b0010_0001);
    assert_eq!(cpu.get_register(15), 0);
}

#[test]
fn bcd_writes_the_three_decimal_digits() {
    let mut cpu = Chip8::new();
    cpu.ld_imm(2, 234);
    cpu.ld_i_imm(0x300);
    cpu.ld_bcd(2);
    assert_eq!(cpu.read_ram(0x300), 2);
    assert_eq!(cpu.read_ram(0x301), 3);
    assert_eq!(cpu.read_ram(0x302), 4);
}

#[test]
fn add_imm_wraps_and_leaves_the_flag_alone() {
    let mut cpu = Chip8::new();
    cpu.ld_imm(0, 250);
    cpu.ld_imm(15, 7);
    cpu.add_imm(0, 10);
    assert_eq!(cpu.get_register(0), 4);
    assert_eq!(cpu.get_register(15), 7);
}

#[test]
fn bitwise_ops_combine_the_registers() {
    let mut cpu = Chip8::new();
    cpu.ld_imm(0, 0b1100);
    cpu.ld_imm(1, 0b1010);
    cpu.or(0, 1);
    assert_eq!(cpu.get_register(0), 0b1110);
    cpu.ld_imm(0, 0b1100);
    cpu.and(0, 1);
    assert_eq!(cpu.get_register(0), 0b1000);
    cpu.ld_imm(0, 0b1100);
    cpu.xor(0, 1);
    assert_eq!(cpu.get_register(0), 0b0110);
}

#[test]
fn ld_copies_between_registers() {
    let mut cpu = Chip8::new();
    cpu.ld_imm(4, 0x77);
    cpu.ld(9, 4);
    assert_eq!(cpu.get_register(9), 0x77);
}

#[test]
fn skips_move_the_program_counter_by_two() {
    let mut cpu = Chip8::new();
    let start = cpu.get_pc();
    cpu.ld_imm(0, 5);
    cpu.se_imm(0, 5);
    assert_eq!(cpu.get_pc(), start + 2);
    cpu.se_imm(0, 6);
    assert_eq!(cpu.get_pc(), start + 2);
    cpu.sne_imm(0, 6);
    assert_eq!(cpu.get_pc(), start + 4);
    cpu.ld_imm(1, 5);
    cpu.se(0, 1);
    assert_eq!(cpu.get_pc(), start + 6);
    cpu.sne(0, 1);
    assert_eq!(cpu.get_pc(), start + 6);
}

#[test]
fn jp_and_jp_offset_set_the_program_counter() {
    let mut cpu = Chip8::new();
    cpu.jp(0x345);
    assert_eq!(cpu.get_pc(), 0x345);
    cpu.ld_imm(0, 0x10);
    cpu.jp_offset(0x400);
    assert_eq!(cpu.get_pc(), 0x410);
}

#[test]
fn ld_f_points_at_the_glyph() {
    let mut cpu = Chip8::new();
    cpu.ld_imm(6, 0xA);
    cpu.ld_f(6);
    assert_eq!(cpu.get_i(), 0x050 + 10 * 5);
}

#[test]
fn add_i_accumulates() {
    let mut cpu = Chip8::new();
    cpu.ld_i_imm(0x300);
    cpu.ld_imm(2, 0x20);
    cpu.add_i(2);
    assert_eq!(cpu.get_i(), 0x320);
}

#[test]
fn store_then_load_registers_round_trips() {
    let mut cpu = Chip8::new();
    cpu.ld_imm(0, 11);
    cpu.ld_imm(1, 22);
    cpu.ld_imm(2, 33);
    cpu.ld_i_imm(0x400);
    cpu.ld_into_i(2);
    assert_eq!(cpu.read_ram(0x400), 11);
    assert_eq!(cpu.read_ram(0x401), 22);
    assert_eq!(cpu.read_ram(0x402), 33);
    cpu.ld_imm(0, 0);
    cpu.ld_imm(1, 0);
    cpu.ld_imm(2, 0);
    cpu.ld_from_i(2);
    assert_eq!(cpu.get_register(0), 11);
    assert_eq!(cpu.get_register(1), 22);
    assert_eq!(cpu.get_register(2), 33);
}

#[test]
fn rand_stays_inside_the_mask() {
    let mut cpu = Chip8::new();
    cpu.rand(0, 0x0F);
    assert_eq!(cpu.get_register(0) & 0xF0, 0);
    cpu.rand(1, 0x00);
    assert_eq!(cpu.get_register(1), 0);
}

#[test]
fn skp_and_sknp_follow_the_key_mask() {
    let mut cpu = Chip8::new();
    let start = cpu.get_pc();
    cpu.ld_imm(0, 0x5);
    let keys: u16 = 1 << 5;
    cpu.skp(0, keys);
    assert_eq!(cpu.get_pc(), start + 2);
    cpu.sknp(0, keys);
    assert_eq!(cpu.get_pc(), start + 2);
    cpu.skp(0, 0);
    assert_eq!(cpu.get_pc(), start + 2);
    cpu.sknp(0, 0);
    assert_eq!(cpu.get_pc(), start + 4);
}

#[test]
fn unknown_opcode_comes_back_as_an_error() {
    let mut cpu = Chip8::new();
    // A fresh machine holds 0x0000 at the program start, which matches no
    // documented pattern.
    let start = cpu.get_pc();
    let r = cpu.step_cpu(0);
    assert_eq!(r, Err(ExecError::UnimplementedOpcode(0x0000)));
    assert_eq!(cpu.get_pc(), start + 2);
}
