//! Construction, loading, the fetch-execute step, the call stack and the
//! timers.

use chip8_core::chip8::Chip8;
use chip8_core::model::ExecError;
use chip8_core::LoadError;

#[test]
fn a_fresh_machine_has_the_documented_reset_state() {
    let cpu = Chip8::new();
    assert_eq!(cpu.get_pc(), 0x200);
    assert_eq!(cpu.get_sp(), 0);
    assert_eq!(cpu.get_i(), 0);
    assert_eq!(cpu.get_delay_timer(), 0);
    assert_eq!(cpu.get_sound_timer(), 0);
    for x in 0..16 {
        assert_eq!(cpu.get_register(x), 0);
    }
    // First byte of glyph 0 and last byte of glyph F.
    assert_eq!(cpu.read_ram(0x050), 0xF0);
    assert_eq!(cpu.read_ram(0x09F), 0x80);
    // Outside the font everything is zero.
    assert_eq!(cpu.read_ram(0x04F), 0);
    assert_eq!(cpu.read_ram(0x0A0), 0);
}

#[test]
fn an_empty_image_is_rejected() {
    let mut cpu = Chip8::new();
    let rom: Vec<u8> = Vec::new();
    assert_eq!(cpu.load_program(&rom), Err(LoadError::Empty));
}

#[test]
fn the_largest_image_fits() {
    let mut cpu = Chip8::new();
    let rom: Vec<u8> = vec![0xAB; 3584];
    assert_eq!(cpu.load_program(&rom), Ok(()));
    assert_eq!(cpu.read_ram(0x200), 0xAB);
    assert_eq!(cpu.read_ram(0xFFF), 0xAB);
}

#[test]
fn an_image_one_byte_over_is_rejected() {
    let mut cpu = Chip8::new();
    let rom: Vec<u8> = vec![0xAB; 3585];
    assert_eq!(cpu.load_program(&rom), Err(LoadError::TooLarge));
    assert_eq!(cpu.read_ram(0x200), 0);
}

#[test]
fn loading_places_the_image_at_the_program_start() {
    let mut cpu = Chip8::new();
    let rom: Vec<u8> = vec![0x12, 0x34, 0x56];
    assert_eq!(cpu.load_program(&rom), Ok(()));
    assert_eq!(cpu.read_ram(0x200), 0x12);
    assert_eq!(cpu.read_ram(0x201), 0x34);
    assert_eq!(cpu.read_ram(0x202), 0x56);
    assert_eq!(cpu.read_ram(0x203), 0x00);
}

#[test]
fn step_fetches_decodes_and_executes() {
    let mut cpu = Chip8::new();
    // 6A42: load 0x42 into VA.
    let rom: Vec<u8> = vec![0x6A, 0x42];
    cpu.load_program(&rom).unwrap();
    assert_eq!(cpu.step_cpu(0), Ok(()));
    assert_eq!(cpu.get_register(0xA), 0x42);
    assert_eq!(cpu.get_pc(), 0x202);
}

#[test]
fn call_then_ret_resumes_after_the_call() {
    let mut cpu = Chip8::new();
    // At 0x200: 2300 (CALL 0x300). At 0x300: 00EE (RET).
    let mut rom: Vec<u8> = vec![0; 0x102];
    rom[0] = 0x23;
    rom[1] = 0x00;
    rom[0x100] = 0x00;
    rom[0x101] = 0xEE;
    cpu.load_program(&rom).unwrap();
    assert_eq!(cpu.step_cpu(0), Ok(()));
    assert_eq!(cpu.get_pc(), 0x300);
    assert_eq!(cpu.get_sp(), 1);
    assert_eq!(cpu.step_cpu(0), Ok(()));
    assert_eq!(cpu.get_pc(), 0x202);
    assert_eq!(cpu.get_sp(), 0);
}

#[test]
fn sixteen_nested_calls_fit_and_the_seventeenth_fails() {
    let mut cpu = Chip8::new();
    for k in 0..16 {
        assert_eq!(cpu.call(0x300), Ok(()));
        assert_eq!(cpu.get_sp(), k + 1);
    }
    assert_eq!(cpu.call(0x300), Err(ExecError::StackOverflow));
    assert_eq!(cpu.get_sp(), 16);
}

#[test]
fn ret_with_an_empty_stack_fails() {
    let mut cpu = Chip8::new();
    assert_eq!(cpu.ret(), Err(ExecError::StackUnderflow));
    assert_eq!(cpu.get_pc(), 0x200);
    assert_eq!(cpu.get_sp(), 0);
}

#[test]
fn a_returned_call_frees_its_stack_slot() {
    let mut cpu = Chip8::new();
    for _ in 0..16 {
        assert_eq!(cpu.call(0x300), Ok(()));
    }
    assert_eq!(cpu.ret(), Ok(()));
    assert_eq!(cpu.get_sp(), 15);
    assert_eq!(cpu.call(0x300), Ok(()));
    assert_eq!(cpu.get_sp(), 16);
}

#[test]
fn timers_stop_at_zero() {
    let mut cpu = Chip8::new();
    cpu.tick_timers();
    assert_eq!(cpu.get_delay_timer(), 0);
    assert_eq!(cpu.get_sound_timer(), 0);
}

#[test]
fn write_ram_places_bytes_where_asked() {
    let mut cpu = Chip8::new();
    let data: Vec<u8> = vec![1, 2, 3];
    cpu.write_ram(&data, 0x700);
    assert_eq!(cpu.read_ram(0x700), 1);
    assert_eq!(cpu.read_ram(0x701), 2);
    assert_eq!(cpu.read_ram(0x702), 3);
    assert_eq!(cpu.read_ram(0x6FF), 0);
}

#[test]
fn read_instruction_is_big_endian() {
    let mut cpu = Chip8::new();
    let data: Vec<u8> = vec![0xAB, 0xCD];
    cpu.write_ram(&data, 0x500);
    assert_eq!(cpu.read_instruction(0x500), 0xABCD);
}
