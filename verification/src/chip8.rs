//! The executable machine: memory, registers, call stack, timers and the
//! framebuffer, with one verified handler per operation.
//!
//! Every mutating method promises to move the machine exactly as the
//! matching transition of [`crate::model`] says.

use vstd::prelude::*;
use crate::display::Display;
use crate::decode::{decode, spec_decode, Instruction, lemma_field_bounds};
use crate::model::{
    State, ExecError, spec_fetch16, spec_write_seq, spec_font, spec_initial_state, spec_skip,
    spec_store_regs, spec_load_regs, op_cls, op_ret, op_jp, op_call, op_se_imm, op_sne_imm, op_se,
    op_sne, op_ld_imm, op_add_imm, op_ld, op_or, op_and, op_xor, op_add, op_sub, op_subn, op_shr,
    op_shl, op_ld_i, op_jp_offset, op_rand, op_skp, op_sknp, op_add_i, op_ld_f, op_ld_bcd,
    op_ld_into_i, op_ld_from_i, op_drw, op_tick_timers, spec_drw_x0, spec_drw_y0,
    spec_drw_fb, spec_drw_collision, spec_sprite_covers, spec_covers_upto, spec_sprite_row,
    spec_sprite_bit, lemma_covers_upto_start, lemma_covers_upto_bit, lemma_covers_upto_clip_x,
    lemma_covers_upto_row_done, lemma_covers_upto_clip_y, spec_advance, spec_step_matches,
    MEM_SIZE, PROG_START, MAX_PROGRAM, NUM_REGS,
    STACK_DEPTH, FONT_BASE,
};
use crate::model::LoadError;

verus! {

/// A vector of `n` zero bytes.
fn zero_bytes(n: usize) -> (v: Vec<u8>)
    ensures
        v@ == Seq::new(n as nat, |k: int| 0u8),
{
    let mut v: Vec<u8> = Vec::new();
    let mut k: usize = 0;
    while k < n
        invariant
            k <= n,
            v@ == Seq::new(k as nat, |j: int| 0u8),
        decreases n - k,
    {
        v.push(0);
        proof {
            assert(v@ =~= Seq::new((k + 1) as nat, |j: int| 0u8));
        }
        k = k + 1;
    }
    v
}

/// A vector of `n` zero words.
fn zero_words(n: usize) -> (v: Vec<u16>)
    ensures
        v@ == Seq::new(n as nat, |k: int| 0u16),
{
    let mut v: Vec<u16> = Vec::new();
    let mut k: usize = 0;
    while k < n
        invariant
            k <= n,
            v@ == Seq::new(k as nat, |j: int| 0u16),
        decreases n - k,
    {
        v.push(0);
        proof {
            assert(v@ =~= Seq::new((k + 1) as nat, |j: int| 0u16));
        }
        k = k + 1;
    }
    v
}

/// The CHIP-8 machine. One value owns the whole architectural state; no
/// ambient globals.
pub struct Chip8 {
    ram: Vec<u8>,
    v: Vec<u8>,
    i: u16,
    pc: u16,
    stack: Vec<u16>,
    sp: usize,
    dt: u8,
    st: u8,
    display: Display,
}

impl View for Chip8 {
    type V = State;

    closed spec fn view(&self) -> State {
        State {
            ram: self.ram@,
            v: self.v@,
            i: self.i,
            pc: self.pc,
            stack: self.stack@,
            sp: self.sp as int,
            dt: self.dt,
            st: self.st,
            fb: self.display@,
        }
    }
}

impl Chip8 {
    /// The machine is well formed when its mathematical state is.
    pub open spec fn wf(&self) -> bool {
        self@.wf()
    }

    /// A fresh machine: cleared registers, stack, timers and screen, the
    /// program counter at the program start, and the font written at
    /// `FONT_BASE`.
    pub fn new() -> (c: Chip8)
        ensures
            c.wf(),
            c@ == spec_initial_state(),
    {
        let mut c = Chip8 {
            ram: zero_bytes(MEM_SIZE),
            v: zero_bytes(NUM_REGS),
            i: 0,
            pc: 0x200,
            stack: zero_words(STACK_DEPTH),
            sp: 0,
            dt: 0,
            st: 0,
            display: Display::new(),
        };
        let font: Vec<u8> = vec![
            0xF0, 0x90, 0x90, 0x90, 0xF0, // 0
            0x20, 0x60, 0x20, 0x20, 0x70, // 1
            0xF0, 0x10, 0xF0, 0x80, 0xF0, // 2
            0xF0, 0x10, 0xF0, 0x10, 0xF0, // 3
            0x90, 0x90, 0xF0, 0x10, 0x10, // 4
            0xF0, 0x80, 0xF0, 0x10, 0xF0, // 5
            0xF0, 0x80, 0xF0, 0x90, 0xF0, // 6
            0xF0, 0x10, 0x20, 0x40, 0x40, // 7
            0xF0, 0x90, 0xF0, 0x90, 0xF0, // 8
            0xF0, 0x90, 0xF0, 0x10, 0xF0, // 9
            0xF0, 0x90, 0xF0, 0x90, 0x90, // A
            0xE0, 0x90, 0xE0, 0x90, 0xE0, // B
            0xF0, 0x80, 0x80, 0x80, 0xF0, // C
            0xE0, 0x90, 0x90, 0x90, 0xE0, // D
            0xF0, 0x80, 0xF0, 0x80, 0xF0, // E
            0xF0, 0x80, 0xF0, 0x80, 0x80, // F
        ];
        proof {
            assert(font@ =~= spec_font());
        }
        c.write_ram(font.as_slice(), 0x050);
        proof {
            assert(c@ =~= spec_initial_state());
        }
        c
    }

    /// Copies a byte sequence into memory starting at `start_address`; the
    /// caller guarantees the range stays in bounds.
    pub fn write_ram(&mut self, array: &[u8], start_address: u16)
        requires
            old(self).wf(),
            start_address + array@.len() <= MEM_SIZE,
        ensures
            final(self).wf(),
            final(self)@ == (State {
                ram: spec_write_seq(old(self)@.ram, array@, start_address as int),
                ..old(self)@
            }),
    {
        let len: usize = array.len();
        let mut j: usize = 0;
        while j < len
            invariant
                j <= len,
                len == array@.len(),
                start_address + len <= MEM_SIZE,
                self@.ram.len() == MEM_SIZE,
                forall|a: int|
                    0 <= a < MEM_SIZE && !(start_address <= a < start_address + j) ==> self@.ram[a]
                        == old(self)@.ram[a],
                forall|a: int|
                    start_address <= a < start_address + j ==> self@.ram[a] == array@[a
                        - start_address],
                self@ == (State { ram: self@.ram, ..old(self)@ }),
            decreases len - j,
        {
            let addr: usize = start_address as usize + j;
            self.ram[addr] = array[j];
            j = j + 1;
        }
        proof {
            assert(self@.ram =~= spec_write_seq(old(self)@.ram, array@, start_address as int));
            assert(self@ =~= (State {
                ram: spec_write_seq(old(self)@.ram, array@, start_address as int),
                ..old(self)@
            }));
        }
    }

    /// The big-endian instruction word at `start_address`; the second byte
    /// address wraps at the end of memory.
    pub fn read_instruction(&self, start_address: usize) -> (r: u16)
        requires
            self.wf(),
            start_address < MEM_SIZE,
        ensures
            r == spec_fetch16(self@.ram, start_address as u16),
    {
        let upper: u16 = self.ram[start_address] as u16;
        let lower: u16 = self.ram[(start_address + 1) % MEM_SIZE] as u16;
        (upper << 8) | lower
    }

    /// Accepts a program image and writes it at the program start. An empty
    /// image and one that does not fit below the end of memory are rejected,
    /// and the machine is left untouched.
    pub fn load_program(&mut self, program: &[u8]) -> (r: Result<(), LoadError>)
        requires
            old(self).wf(),
        ensures
            final(self).wf(),
            match r {
                Ok(()) => {
                    &&& 1 <= program@.len() <= MAX_PROGRAM
                    &&& final(self)@ == (State {
                        ram: spec_write_seq(old(self)@.ram, program@, PROG_START as int),
                        ..old(self)@
                    })
                },
                Err(LoadError::Empty) => program@.len() == 0 && final(self)@ == old(self)@,
                Err(LoadError::TooLarge) => program@.len() > MAX_PROGRAM && final(self)@ == old(self)@,
                Err(LoadError::Io) => false,
            },
    {
        if program.len() == 0 {
            Err(LoadError::Empty)
        } else if program.len() > MAX_PROGRAM {
            Err(LoadError::TooLarge)
        } else {
            self.write_ram(program, 0x200);
            Ok(())
        }
    }

    /// Advances the program counter by one more instruction when `cond`
    /// holds: the common tail of the four skip operations.
    fn skip_if(&mut self, cond: bool)
        requires
            old(self).wf(),
        ensures
            final(self).wf(),
            final(self)@ == spec_skip(old(self)@, cond),
    {
        if cond {
            self.pc = (self.pc + 2) % 4096;
            proof {
                assert(self@ =~= spec_skip(old(self)@, cond));
            }
        }
    }

    /// 00E0: clears the display.
    pub fn cls(&mut self)
        requires
            old(self).wf(),
        ensures
            final(self).wf(),
            final(self)@ == op_cls(old(self)@),
    {
        self.display.clear();
        proof {
            assert(self@ =~= op_cls(old(self)@));
        }
    }

    /// 00EE: pops the return address into the program counter; fails with
    /// `StackUnderflow`, changing nothing, exactly when no call is
    /// outstanding.
    pub fn ret(&mut self) -> (r: Result<(), ExecError>)
        requires
            old(self).wf(),
        ensures
            final(self).wf(),
            match r {
                Ok(()) => op_ret(old(self)@) == Ok::<State, ExecError>(final(self)@),
                Err(e) => op_ret(old(self)@) == Err::<State, ExecError>(e) && final(self)@ == old(self)@,
            },
    {
        if self.sp == 0 {
            Err(ExecError::StackUnderflow)
        } else {
            self.sp = self.sp - 1;
            self.pc = self.stack[self.sp];
            proof {
                assert(op_ret(old(self)@) == Ok::<State, ExecError>(self@));
            }
            Ok(())
        }
    }

    /// 1nnn: sets the program counter to `address`.
    pub fn jp(&mut self, address: u16)
        requires
            old(self).wf(),
            address < MEM_SIZE,
        ensures
            final(self).wf(),
            final(self)@ == op_jp(old(self)@, address),
    {
        self.pc = address;
        proof {
            assert(self@ =~= op_jp(old(self)@, address));
        }
    }

    /// 2nnn: pushes the address of the next instruction and jumps to
    /// `address`; fails with `StackOverflow`, changing nothing, exactly when
    /// all sixteen stack slots are in use.
    pub fn call(&mut self, address: u16) -> (r: Result<(), ExecError>)
        requires
            old(self).wf(),
            address < MEM_SIZE,
        ensures
            final(self).wf(),
            match r {
                Ok(()) => op_call(old(self)@, address) == Ok::<State, ExecError>(final(self)@),
                Err(e) => op_call(old(self)@, address) == Err::<State, ExecError>(e) && final(self)@ == old(self)@,
            },
    {
        if self.sp == STACK_DEPTH {
            Err(ExecError::StackOverflow)
        } else {
            self.stack[self.sp] = self.pc;
            self.sp = self.sp + 1;
            self.pc = address;
            proof {
                assert(op_call(old(self)@, address) == Ok::<State, ExecError>(self@));
            }
            Ok(())
        }
    }

    /// 3xnn: skips the next instruction when Vx equals the immediate.
    pub fn se_imm(&mut self, target_register: usize, imm_value: u8)
        requires
            old(self).wf(),
            target_register < NUM_REGS,
        ensures
            final(self).wf(),
            final(self)@ == op_se_imm(old(self)@, target_register as int, imm_value),
    {
        let cond: bool = self.v[target_register] == imm_value;
        self.skip_if(cond);
    }

    /// 4xnn: skips the next instruction when Vx differs from the immediate.
    pub fn sne_imm(&mut self, target_register: usize, imm_value: u8)
        requires
            old(self).wf(),
            target_register < NUM_REGS,
        ensures
            final(self).wf(),
            final(self)@ == op_sne_imm(old(self)@, target_register as int, imm_value),
    {
        let cond: bool = self.v[target_register] != imm_value;
        self.skip_if(cond);
    }

    /// 5xy0: skips the next instruction when Vx equals Vy.
    pub fn se(&mut self, x_register: usize, y_register: usize)
        requires
            old(self).wf(),
            x_register < NUM_REGS,
            y_register < NUM_REGS,
        ensures
            final(self).wf(),
            final(self)@ == op_se(old(self)@, x_register as int, y_register as int),
    {
        let cond: bool = self.v[x_register] == self.v[y_register];
        self.skip_if(cond);
    }

    /// 9xy0: skips the next instruction when Vx differs from Vy.
    pub fn sne(&mut self, x_register: usize, y_register: usize)
        requires
            old(self).wf(),
            x_register < NUM_REGS,
            y_register < NUM_REGS,
        ensures
            final(self).wf(),
            final(self)@ == op_sne(old(self)@, x_register as int, y_register as int),
    {
        let cond: bool = self.v[x_register] != self.v[y_register];
        self.skip_if(cond);
    }

    /// 6xnn: loads the immediate into Vx.
    pub fn ld_imm(&mut self, target_register: usize, imm_value: u8)
        requires
            old(self).wf(),
            target_register < NUM_REGS,
        ensures
            final(self).wf(),
            final(self)@ == op_ld_imm(old(self)@, target_register as int, imm_value),
    {
        self.v[target_register] = imm_value;
        proof {
            assert(self@ =~= op_ld_imm(old(self)@, target_register as int, imm_value));
        }
    }

    /// 7xnn: adds the immediate to Vx, wrapping; the flag register is not
    /// touched.
    pub fn add_imm(&mut self, x_register: usize, imm_value: u8)
        requires
            old(self).wf(),
            x_register < NUM_REGS,
        ensures
            final(self).wf(),
            final(self)@ == op_add_imm(old(self)@, x_register as int, imm_value),
    {
        let sum: u16 = self.v[x_register] as u16 + imm_value as u16;
        self.v[x_register] = (sum % 256) as u8;
        proof {
            assert(self@ =~= op_add_imm(old(self)@, x_register as int, imm_value));
        }
    }

    /// 8xy0: copies Vy into Vx.
    pub fn ld(&mut self, x_register: usize, y_register: usize)
        requires
            old(self).wf(),
            x_register < NUM_REGS,
            y_register < NUM_REGS,
        ensures
            final(self).wf(),
            final(self)@ == op_ld(old(self)@, x_register as int, y_register as int),
    {
        self.v[x_register] = self.v[y_register];
        proof {
            assert(self@ =~= op_ld(old(self)@, x_register as int, y_register as int));
        }
    }

    /// 8xy1: ors Vy into Vx.
    pub fn or(&mut self, x_register: usize, y_register: usize)
        requires
            old(self).wf(),
            x_register < NUM_REGS,
            y_register < NUM_REGS,
        ensures
            final(self).wf(),
            final(self)@ == op_or(old(self)@, x_register as int, y_register as int),
    {
        let value: u8 = self.v[x_register] | self.v[y_register];
        self.v[x_register] = value;
        proof {
            assert(self@ =~= op_or(old(self)@, x_register as int, y_register as int));
        }
    }

    /// 8xy2: ands Vy into Vx.
    pub fn and(&mut self, x_register: usize, y_register: usize)
        requires
            old(self).wf(),
            x_register < NUM_REGS,
            y_register < NUM_REGS,
        ensures
            final(self).wf(),
            final(self)@ == op_and(old(self)@, x_register as int, y_register as int),
    {
        let value: u8 = self.v[x_register] & self.v[y_register];
        self.v[x_register] = value;
        proof {
            assert(self@ =~= op_and(old(self)@, x_register as int, y_register as int));
        }
    }

    /// 8xy3: xors Vy into Vx.
    pub fn xor(&mut self, x_register: usize, y_register: usize)
        requires
            old(self).wf(),
            x_register < NUM_REGS,
            y_register < NUM_REGS,
        ensures
            final(self).wf(),
            final(self)@ == op_xor(old(self)@, x_register as int, y_register as int),
    {
        let value: u8 = self.v[x_register] ^ self.v[y_register];
        self.v[x_register] = value;
        proof {
            assert(self@ =~= op_xor(old(self)@, x_register as int, y_register as int));
        }
    }

    /// 8xy4: adds Vy to Vx, wrapping; the flag register then takes the
    /// carry, 1 exactly when the true sum tops 255.
    pub fn add(&mut self, x_register: usize, y_register: usize)
        requires
            old(self).wf(),
            x_register < NUM_REGS,
            y_register < NUM_REGS,
        ensures
            final(self).wf(),
            final(self)@ == op_add(old(self)@, x_register as int, y_register as int),
    {
        let a: u8 = self.v[x_register];
        let b: u8 = self.v[y_register];
        let sum: u16 = a as u16 + b as u16;
        self.v[x_register] = (sum % 256) as u8;
        self.v[15] = if sum > 255 {
            1
        } else {
            0
        };
        proof {
            assert(self@ =~= op_add(old(self)@, x_register as int, y_register as int));
        }
    }

    /// 8xy5: subtracts Vy from Vx, wrapping; the flag register then takes
    /// the no-borrow flag, 1 exactly when Vx was strictly greater than Vy.
    pub fn sub(&mut self, x_register: usize, y_register: usize)
        requires
            old(self).wf(),
            x_register < NUM_REGS,
            y_register < NUM_REGS,
        ensures
            final(self).wf(),
            final(self)@ == op_sub(old(self)@, x_register as int, y_register as int),
    {
        let a: u8 = self.v[x_register];
        let b: u8 = self.v[y_register];
        let diff: u16 = (a as u16 + 256 - b as u16) % 256;
        self.v[x_register] = diff as u8;
        self.v[15] = if a > b {
            1
        } else {
            0
        };
        proof {
            assert(self@ =~= op_sub(old(self)@, x_register as int, y_register as int));
        }
    }

    /// 8xy7: sets Vx to Vy minus Vx, wrapping; the flag register then takes
    /// the no-borrow flag, 1 exactly when Vy was strictly greater than Vx.
    pub fn subn(&mut self, x_register: usize, y_register: usize)
        requires
            old(self).wf(),
            x_register < NUM_REGS,
            y_register < NUM_REGS,
        ensures
            final(self).wf(),
            final(self)@ == op_subn(old(self)@, x_register as int, y_register as int),
    {
        let a: u8 = self.v[x_register];
        let b: u8 = self.v[y_register];
        let diff: u16 = (b as u16 + 256 - a as u16) % 256;
        self.v[x_register] = diff as u8;
        self.v[15] = if b > a {
            1
        } else {
            0
        };
        proof {
            assert(self@ =~= op_subn(old(self)@, x_register as int, y_register as int));
        }
    }

    /// 8xy6: halves Vx; the flag register then takes the dropped low bit.
    pub fn shr(&mut self, x_register: usize)
        requires
            old(self).wf(),
            x_register < NUM_REGS,
        ensures
            final(self).wf(),
            final(self)@ == op_shr(old(self)@, x_register as int),
    {
        let a: u8 = self.v[x_register];
        self.v[x_register] = a / 2;
        self.v[15] = a % 2;
        proof {
            assert(self@ =~= op_shr(old(self)@, x_register as int));
        }
    }

    /// 8xyE: doubles Vx, wrapping; the flag register then takes the dropped
    /// high bit.
    pub fn shl(&mut self, x_register: usize)
        requires
            old(self).wf(),
            x_register < NUM_REGS,
        ensures
            final(self).wf(),
            final(self)@ == op_shl(old(self)@, x_register as int),
    {
        let a: u8 = self.v[x_register];
        self.v[x_register] = ((2 * a as u16) % 256) as u8;
        self.v[15] = if a >= 128 {
            1
        } else {
            0
        };
        proof {
            assert(self@ =~= op_shl(old(self)@, x_register as int));
        }
    }

    /// Annn: sets the index register to `address`.
    pub fn ld_i_imm(&mut self, address: u16)
        requires
            old(self).wf(),
        ensures
            final(self).wf(),
            final(self)@ == op_ld_i(old(self)@, address),
    {
        self.i = address;
        proof {
            assert(self@ =~= op_ld_i(old(self)@, address));
        }
    }

    /// Bnnn: jumps to `address` plus V0, wrapped into the address space.
    pub fn jp_offset(&mut self, address: u16)
        requires
            old(self).wf(),
            address < MEM_SIZE,
        ensures
            final(self).wf(),
            final(self)@ == op_jp_offset(old(self)@, address),
    {
        self.pc = (address + self.v[0] as u16) % 4096;
        proof {
            assert(self@ =~= op_jp_offset(old(self)@, address));
        }
    }

    /// Cxnn: draws a byte from the random source and stores it, masked by
    /// the immediate, in Vx. The contract promises only what holds of every
    /// byte the source can hand out.
    pub fn rand(&mut self, x_register: usize, imm_value: u8)
        requires
            old(self).wf(),
            x_register < NUM_REGS,
        ensures
            final(self).wf(),
            exists|r: u8| final(self)@ == op_rand(old(self)@, x_register as int, imm_value, r),
    {
        let rv: u8 = crate::rng::random_byte();
        self.v[x_register] = rv & imm_value;
        proof {
            assert(self@ =~= op_rand(old(self)@, x_register as int, imm_value, rv));
        }
    }

    /// Ex9E: skips the next instruction when the key named by the low
    /// nibble of Vx is down in the key mask.
    pub fn skp(&mut self, x_register: usize, keys: u16)
        requires
            old(self).wf(),
            x_register < NUM_REGS,
        ensures
            final(self).wf(),
            final(self)@ == op_skp(old(self)@, x_register as int, keys),
    {
        let key: u8 = self.v[x_register] & 0xF;
        proof {
            let vx = old(self)@.v[x_register as int];
            assert((vx & 0xF) < 16) by (bit_vector);
        }
        let pressed: bool = crate::display::key_pressed(keys, key);
        self.skip_if(pressed);
    }

    /// ExA1: skips the next instruction when the key named by the low
    /// nibble of Vx is up in the key mask.
    pub fn sknp(&mut self, x_register: usize, keys: u16)
        requires
            old(self).wf(),
            x_register < NUM_REGS,
        ensures
            final(self).wf(),
            final(self)@ == op_sknp(old(self)@, x_register as int, keys),
    {
        let key: u8 = self.v[x_register] & 0xF;
        proof {
            let vx = old(self)@.v[x_register as int];
            assert((vx & 0xF) < 16) by (bit_vector);
        }
        let pressed: bool = crate::display::key_pressed(keys, key);
        self.skip_if(!pressed);
    }

    /// Fx1E: adds Vx to the index register, wrapping at sixteen bits.
    pub fn add_i(&mut self, x_register: usize)
        requires
            old(self).wf(),
            x_register < NUM_REGS,
        ensures
            final(self).wf(),
            final(self)@ == op_add_i(old(self)@, x_register as int),
    {
        let sum: u32 = self.i as u32 + self.v[x_register] as u32;
        self.i = (sum % 0x10000) as u16;
        proof {
            assert(self@ =~= op_add_i(old(self)@, x_register as int));
        }
    }

    /// Fx29: points the index register at the five-byte font glyph for the
    /// value of Vx.
    pub fn ld_f(&mut self, x_register: usize)
        requires
            old(self).wf(),
            x_register < NUM_REGS,
        ensures
            final(self).wf(),
            final(self)@ == op_ld_f(old(self)@, x_register as int),
    {
        self.i = 0x050 + (self.v[x_register] as u16) * 5;
        proof {
            assert(self@ =~= op_ld_f(old(self)@, x_register as int));
        }
    }

    /// Fx33: writes the decimal digits of Vx, most significant first, to
    /// memory at I, I+1 and I+2, each address wrapped into memory.
    pub fn ld_bcd(&mut self, x_register: usize)
        requires
            old(self).wf(),
            x_register < NUM_REGS,
        ensures
            final(self).wf(),
            final(self)@ == op_ld_bcd(old(self)@, x_register as int),
    {
        let value: u8 = self.v[x_register];
        let i0: usize = (self.i as usize) % MEM_SIZE;
        let i1: usize = (self.i as usize + 1) % MEM_SIZE;
        let i2: usize = (self.i as usize + 2) % MEM_SIZE;
        self.ram[i0] = value / 100;
        self.ram[i1] = (value / 10) % 10;
        self.ram[i2] = value % 10;
        proof {
            assert(self@ =~= op_ld_bcd(old(self)@, x_register as int));
        }
    }

    /// Fx55: stores V0 through Vx to memory starting at I, each address
    /// wrapped into memory.
    pub fn ld_into_i(&mut self, x_register: usize)
        requires
            old(self).wf(),
            x_register < NUM_REGS,
        ensures
            final(self).wf(),
            final(self)@ == op_ld_into_i(old(self)@, x_register as int),
    {
        let ghost s0 = self@;
        let mut j: usize = 0;
        while j <= x_register
            invariant
                j <= x_register + 1,
                x_register < NUM_REGS,
                s0.wf(),
                self@ == (State { ram: spec_store_regs(s0.ram, s0.v, s0.i, j as int), ..s0 }),
                self@.ram.len() == MEM_SIZE,
            decreases x_register + 1 - j,
        {
            let addr: usize = (self.i as usize + j) % MEM_SIZE;
            let value: u8 = self.v[j];
            self.ram[addr] = value;
            proof {
                assert(self@.ram =~= spec_store_regs(s0.ram, s0.v, s0.i, j + 1));
                assert(self@ =~= (State {
                    ram: spec_store_regs(s0.ram, s0.v, s0.i, j + 1),
                    ..s0
                }));
            }
            j = j + 1;
        }
        proof {
            assert(self@ =~= op_ld_into_i(s0, x_register as int));
        }
    }

    /// Fx65: loads V0 through Vx from memory starting at I, each address
    /// wrapped into memory.
    pub fn ld_from_i(&mut self, x_register: usize)
        requires
            old(self).wf(),
            x_register < NUM_REGS,
        ensures
            final(self).wf(),
            final(self)@ == op_ld_from_i(old(self)@, x_register as int),
    {
        let ghost s0 = self@;
        let mut j: usize = 0;
        while j <= x_register
            invariant
                j <= x_register + 1,
                x_register < NUM_REGS,
                s0.wf(),
                self@ == (State { v: spec_load_regs(s0.v, s0.ram, s0.i, j as int), ..s0 }),
                self@.v.len() == NUM_REGS,
                self@.ram == s0.ram,
            decreases x_register + 1 - j,
        {
            let addr: usize = (self.i as usize + j) % MEM_SIZE;
            let value: u8 = self.ram[addr];
            self.v[j] = value;
            proof {
                assert(self@.v =~= spec_load_regs(s0.v, s0.ram, s0.i, j + 1));
                assert(self@ =~= (State { v: spec_load_regs(s0.v, s0.ram, s0.i, j + 1), ..s0 }));
            }
            j = j + 1;
        }
        proof {
            assert(self@ =~= op_ld_from_i(s0, x_register as int));
        }
    }

    /// Dxyn: draws the `n_bytes`-row sprite stored at the index register at
    /// the screen position named by Vx and Vy. The origin wraps at the
    /// screen edges; the drawn pixels do not: rows and columns leaving the
    /// screen are clipped. Every covered pixel is flipped, and the flag
    /// register then reports whether any flip turned a set pixel off.
    pub fn drw(&mut self, x_register: usize, y_register: usize, n_bytes: u8)
        requires
            old(self).wf(),
            x_register < NUM_REGS,
            y_register < NUM_REGS,
            n_bytes < 16,
        ensures
            final(self).wf(),
            final(self)@ == op_drw(old(self)@, x_register as int, y_register as int, n_bytes as int),
    {
        let ghost s0 = self@;
        let x0: u8 = self.v[x_register] % 64;
        let y0: u8 = self.v[y_register] % 32;
        let mut collision: bool = false;

        // Rows and bits that stay on the screen; the clipped remainder is
        // proved to cover nothing.
        let max_row: u8 = if 32 - y0 < n_bytes {
            32 - y0
        } else {
            n_bytes
        };
        let max_bit: u8 = if 64 - x0 < 8 {
            64 - x0
        } else {
            8
        };

        proof {
            lemma_covers_upto_start(s0.ram, s0.i, x0 as int, y0 as int, 0);
        }

        let mut row: u8 = 0;
        while row < max_row
            invariant
                row <= max_row,
                max_row <= n_bytes,
                n_bytes < 16,
                max_row == n_bytes || y0 + max_row == 32,
                max_bit <= 8,
                max_bit == 8 || x0 + max_bit == 64,
                x0 + max_bit <= 64,
                x0 < 64,
                y0 < 32,
                y0 + max_row <= 32,
                x0 == spec_drw_x0(s0, x_register as int),
                y0 == spec_drw_y0(s0, y_register as int),
                s0.wf(),
                self@ == (State { fb: self@.fb, ..s0 }),
                self@.fb.len() == 2048,
                forall|idx: int|
                    0 <= idx < 2048 ==> self@.fb[idx] == (s0.fb[idx] != spec_covers_upto(
                        s0.ram,
                        s0.i,
                        x0 as int,
                        y0 as int,
                        row as int,
                        0,
                        idx % 64,
                        idx / 64,
                    )),
                collision == exists|px: int, py: int|
                    #[trigger] spec_covers_upto(s0.ram, s0.i, x0 as int, y0 as int, row as int, 0, px, py)
                        && s0.fb[py * 64 + px],
            decreases max_row - row,
        {
            let sprite: u8 = self.ram[(self.i as usize + row as usize) % MEM_SIZE];
            proof {
                assert(sprite == spec_sprite_row(s0.ram, s0.i, row as int));
            }
            let mut bit: u8 = 0;
            while bit < max_bit
                invariant
                    bit <= max_bit,
                    max_bit <= 8,
                    max_bit == 8 || x0 + max_bit == 64,
                    x0 + max_bit <= 64,
                    x0 < 64,
                    y0 < 32,
                    row < max_row,
                    y0 + max_row <= 32,
                    sprite == spec_sprite_row(s0.ram, s0.i, row as int),
                    x0 == spec_drw_x0(s0, x_register as int),
                    y0 == spec_drw_y0(s0, y_register as int),
                    s0.wf(),
                    self@ == (State { fb: self@.fb, ..s0 }),
                    self@.fb.len() == 2048,
                    forall|idx: int|
                        0 <= idx < 2048 ==> self@.fb[idx] == (s0.fb[idx] != spec_covers_upto(
                            s0.ram,
                            s0.i,
                            x0 as int,
                            y0 as int,
                            row as int,
                            bit as int,
                            idx % 64,
                            idx / 64,
                        )),
                    collision == exists|px: int, py: int|
                        #[trigger] spec_covers_upto(
                            s0.ram,
                            s0.i,
                            x0 as int,
                            y0 as int,
                            row as int,
                            bit as int,
                            px,
                            py,
                        ) && s0.fb[py * 64 + px],
                decreases max_bit - bit,
            {
                proof {
                    lemma_covers_upto_bit(s0.ram, s0.i, x0 as int, y0 as int, row as int, bit as int);
                }
                let drawn: bool = (sprite >> (7 - bit)) & 1 == 1;
                proof {
                    assert(drawn == spec_sprite_bit(sprite, bit as int));
                }
                if drawn {
                    let xc: u8 = x0 + bit;
                    let yc: u8 = y0 + row;
                    let ghost t = yc as int * 64 + xc as int;
                    let was_set: bool = self.display.flip_pixel(xc, yc);
                    collision = collision || was_set;
                    proof {
                        assert(t % 64 == xc as int && t / 64 == yc as int);
                        assert(!spec_covers_upto(
                            s0.ram, s0.i, x0 as int, y0 as int, row as int, bit as int, xc as int, yc as int));
                        assert(was_set == s0.fb[t]);
                        assert forall|idx: int| 0 <= idx < 2048 implies self@.fb[idx] == (
                        s0.fb[idx] != spec_covers_upto(
                            s0.ram,
                            s0.i,
                            x0 as int,
                            y0 as int,
                            row as int,
                            bit as int + 1,
                            idx % 64,
                            idx / 64,
                        )) by {
                            if idx != t {
                                assert(idx % 64 != xc as int || idx / 64 != yc as int);
                            }
                        }
                        if was_set {
                            assert(spec_covers_upto(
                                s0.ram, s0.i, x0 as int, y0 as int, row as int, bit as int + 1, xc as int, yc as int)
                                && s0.fb[yc as int * 64 + xc as int]);
                        } else if collision {
                            let (px, py) = choose|px: int, py: int|
                                #[trigger] spec_covers_upto(
                                    s0.ram, s0.i, x0 as int, y0 as int, row as int, bit as int, px, py)
                                    && s0.fb[py * 64 + px];
                            assert(spec_covers_upto(
                                s0.ram, s0.i, x0 as int, y0 as int, row as int, bit as int + 1, px, py)
                                && s0.fb[py * 64 + px]);
                        } else {
                            if exists|px: int, py: int|
                                #[trigger] spec_covers_upto(
                                    s0.ram, s0.i, x0 as int, y0 as int, row as int, bit as int + 1, px, py)
                                    && s0.fb[py * 64 + px] {
                                let (px, py) = choose|px: int, py: int|
                                    #[trigger] spec_covers_upto(
                                        s0.ram, s0.i, x0 as int, y0 as int, row as int, bit as int + 1, px, py)
                                        && s0.fb[py * 64 + px];
                                assert(spec_covers_upto(
                                    s0.ram, s0.i, x0 as int, y0 as int, row as int, bit as int, px, py)
                                    && s0.fb[py * 64 + px]);
                                assert(false);
                            }
                        }
                    }
                } else {
                    proof {
                        assert forall|px: int, py: int|
                            #[trigger] spec_covers_upto(
                                s0.ram, s0.i, x0 as int, y0 as int, row as int, bit as int + 1, px, py)
                                == spec_covers_upto(
                                s0.ram, s0.i, x0 as int, y0 as int, row as int, bit as int, px, py) by {}
                        if exists|px: int, py: int|
                            #[trigger] spec_covers_upto(
                                s0.ram, s0.i, x0 as int, y0 as int, row as int, bit as int + 1, px, py)
                                && s0.fb[py * 64 + px] {
                            let (px, py) = choose|px: int, py: int|
                                #[trigger] spec_covers_upto(
                                    s0.ram, s0.i, x0 as int, y0 as int, row as int, bit as int + 1, px, py)
                                    && s0.fb[py * 64 + px];
                            assert(spec_covers_upto(
                                s0.ram, s0.i, x0 as int, y0 as int, row as int, bit as int, px, py)
                                && s0.fb[py * 64 + px]);
                        }
                        if collision {
                            let (px, py) = choose|px: int, py: int|
                                #[trigger] spec_covers_upto(
                                    s0.ram, s0.i, x0 as int, y0 as int, row as int, bit as int, px, py)
                                    && s0.fb[py * 64 + px];
                            assert(spec_covers_upto(
                                s0.ram, s0.i, x0 as int, y0 as int, row as int, bit as int + 1, px, py)
                                && s0.fb[py * 64 + px]);
                        }
                    }
                }
                bit = bit + 1;
            }
            // The clipped tail of the row and the row boundary: coverage is
            // unchanged up to the start of the next row.
            proof {
                if max_bit < 8 {
                    lemma_covers_upto_clip_x(
                        s0.ram, s0.i, x0 as int, y0 as int, row as int, max_bit as int);
                }
                lemma_covers_upto_row_done(s0.ram, s0.i, x0 as int, y0 as int, row as int);
                if collision {
                    let (px, py) = choose|px: int, py: int|
                        #[trigger] spec_covers_upto(
                            s0.ram, s0.i, x0 as int, y0 as int, row as int, max_bit as int, px, py)
                            && s0.fb[py * 64 + px];
                    assert(spec_covers_upto(
                        s0.ram, s0.i, x0 as int, y0 as int, row as int + 1, 0, px, py)
                        && s0.fb[py * 64 + px]);
                } else {
                    if exists|px: int, py: int|
                        #[trigger] spec_covers_upto(
                            s0.ram, s0.i, x0 as int, y0 as int, row as int + 1, 0, px, py)
                            && s0.fb[py * 64 + px] {
                        let (px, py) = choose|px: int, py: int|
                            #[trigger] spec_covers_upto(
                                s0.ram, s0.i, x0 as int, y0 as int, row as int + 1, 0, px, py)
                                && s0.fb[py * 64 + px];
                        assert(spec_covers_upto(
                            s0.ram, s0.i, x0 as int, y0 as int, row as int, max_bit as int, px, py)
                            && s0.fb[py * 64 + px]);
                        assert(false);
                    }
                }
            }
            row = row + 1;
        }

        // Relate the drawn prefix to the whole sprite: either every row was
        // drawn, or the rest is clipped at the bottom edge.
        proof {
            if max_row == n_bytes {
                lemma_covers_upto_start(s0.ram, s0.i, x0 as int, y0 as int, n_bytes as int);
            } else {
                lemma_covers_upto_clip_y(
                    s0.ram, s0.i, x0 as int, y0 as int, max_row as int, n_bytes as int);
            }
            if collision {
                let (px, py) = choose|px: int, py: int|
                    #[trigger] spec_covers_upto(
                        s0.ram, s0.i, x0 as int, y0 as int, max_row as int, 0, px, py)
                        && s0.fb[py * 64 + px];
                assert(spec_sprite_covers(
                    s0.ram, s0.i, x0 as int, y0 as int, n_bytes as int, px, py)
                    && s0.fb[py * 64 + px]);
                assert(spec_drw_collision(s0, x_register as int, y_register as int, n_bytes as int));
            } else {
                if spec_drw_collision(s0, x_register as int, y_register as int, n_bytes as int) {
                    let (px, py) = choose|px: int, py: int|
                        #[trigger] spec_sprite_covers(
                            s0.ram, s0.i, x0 as int, y0 as int, n_bytes as int, px, py)
                            && s0.fb[py * 64 + px];
                    assert(spec_covers_upto(
                        s0.ram, s0.i, x0 as int, y0 as int, max_row as int, 0, px, py)
                        && s0.fb[py * 64 + px]);
                    assert(false);
                }
            }
        }
        self.v[15] = if collision {
            1
        } else {
            0
        };
        proof {
            assert(self@.fb =~= spec_drw_fb(s0, x_register as int, y_register as int, n_bytes as int));
            assert(self@ =~= op_drw(s0, x_register as int, y_register as int, n_bytes as int));
        }
    }

    /// One CPU step: fetches the word at the program counter, advances the
    /// counter by one instruction, then decodes and executes. An unknown
    /// word or stack misuse comes back as a recoverable error; the advanced
    /// counter then stands and nothing else has changed.
    pub fn step_cpu(&mut self, keys: u16) -> (r: Result<(), ExecError>)
        requires
            old(self).wf(),
        ensures
            final(self).wf(),
            exists|rb: u8| #[trigger] spec_step_matches(old(self)@, final(self)@, r, keys, rb),
    {
        // Fetch
        let instr: u16 = self.read_instruction(self.pc as usize);
        self.pc = (self.pc + 2) % 4096;
        let ghost s1 = self@;
        proof {
            assert(s1 =~= spec_advance(old(self)@));
            lemma_field_bounds(instr);
        }
        // Decode, then execute
        let r: Result<(), ExecError> = match decode(instr) {
            Instruction::Cls => {
                self.cls();
                Ok(())
            },
            Instruction::Ret => self.ret(),
            Instruction::Jp(nnn) => {
                self.jp(nnn);
                Ok(())
            },
            Instruction::Call(nnn) => self.call(nnn),
            Instruction::SeImm(x, nn) => {
                self.se_imm(x, nn);
                Ok(())
            },
            Instruction::SneImm(x, nn) => {
                self.sne_imm(x, nn);
                Ok(())
            },
            Instruction::Se(x, y) => {
                self.se(x, y);
                Ok(())
            },
            Instruction::LdImm(x, nn) => {
                self.ld_imm(x, nn);
                Ok(())
            },
            Instruction::AddImm(x, nn) => {
                self.add_imm(x, nn);
                Ok(())
            },
            Instruction::Ld(x, y) => {
                self.ld(x, y);
                Ok(())
            },
            Instruction::Or(x, y) => {
                self.or(x, y);
                Ok(())
            },
            Instruction::And(x, y) => {
                self.and(x, y);
                Ok(())
            },
            Instruction::Xor(x, y) => {
                self.xor(x, y);
                Ok(())
            },
            Instruction::Add(x, y) => {
                self.add(x, y);
                Ok(())
            },
            Instruction::Sub(x, y) => {
                self.sub(x, y);
                Ok(())
            },
            Instruction::Shr(x) => {
                self.shr(x);
                Ok(())
            },
            Instruction::Subn(x, y) => {
                self.subn(x, y);
                Ok(())
            },
            Instruction::Shl(x) => {
                self.shl(x);
                Ok(())
            },
            Instruction::Sne(x, y) => {
                self.sne(x, y);
                Ok(())
            },
            Instruction::LdI(nnn) => {
                self.ld_i_imm(nnn);
                Ok(())
            },
            Instruction::JpOffset(nnn) => {
                self.jp_offset(nnn);
                Ok(())
            },
            Instruction::Rand(x, nn) => {
                self.rand(x, nn);
                Ok(())
            },
            Instruction::Drw(x, y, n) => {
                self.drw(x, y, n);
                Ok(())
            },
            Instruction::Skp(x) => {
                self.skp(x, keys);
                Ok(())
            },
            Instruction::Sknp(x) => {
                self.sknp(x, keys);
                Ok(())
            },
            Instruction::AddI(x) => {
                self.add_i(x);
                Ok(())
            },
            Instruction::LdF(x) => {
                self.ld_f(x);
                Ok(())
            },
            Instruction::LdBcd(x) => {
                self.ld_bcd(x);
                Ok(())
            },
            Instruction::LdIntoI(x) => {
                self.ld_into_i(x);
                Ok(())
            },
            Instruction::LdFromI(x) => {
                self.ld_from_i(x);
                Ok(())
            },
            Instruction::Unknown(_) => Err(ExecError::UnimplementedOpcode(instr)),
        };
        proof {
            match spec_decode(instr) {
                Instruction::Rand(x, nn) => {
                    let rb = choose|rbx: u8| self@ == op_rand(s1, x as int, nn, rbx);
                    assert(spec_step_matches(old(self)@, self@, r, keys, rb));
                },
                _ => {
                    assert(spec_step_matches(old(self)@, self@, r, keys, 0u8));
                },
            }
        }
        r
    }

    /// The value of the general register `x_register`.
    pub fn get_register(&self, x_register: usize) -> (r: u8)
        requires
            self.wf(),
            x_register < NUM_REGS,
        ensures
            r == self@.v[x_register as int],
    {
        self.v[x_register]
    }

    /// The value of the index register.
    pub fn get_i(&self) -> (r: u16)
        ensures
            r == self@.i,
    {
        self.i
    }

    /// The value of the program counter.
    pub fn get_pc(&self) -> (r: u16)
        ensures
            r == self@.pc,
    {
        self.pc
    }

    /// How many call-stack slots are in use.
    pub fn get_sp(&self) -> (r: usize)
        ensures
            r == self@.sp,
    {
        self.sp
    }

    /// The value of the delay timer.
    pub fn get_delay_timer(&self) -> (r: u8)
        ensures
            r == self@.dt,
    {
        self.dt
    }

    /// The value of the sound timer.
    pub fn get_sound_timer(&self) -> (r: u8)
        ensures
            r == self@.st,
    {
        self.st
    }

    /// The byte of memory at `address`.
    pub fn read_ram(&self, address: usize) -> (r: u8)
        requires
            self.wf(),
            address < MEM_SIZE,
        ensures
            r == self@.ram[address as int],
    {
        self.ram[address]
    }

    /// The state of the framebuffer pixel at column `x`, row `y`.
    pub fn get_pixel(&self, x: usize, y: usize) -> (r: bool)
        requires
            self.wf(),
            x < 64,
            y < 32,
        ensures
            r == self@.fb[y * 64 + x],
    {
        self.display.pixel(x, y)
    }

    /// One frame tick of the timers: each steps down toward zero and stops
    /// there.
    pub fn tick_timers(&mut self)
        requires
            old(self).wf(),
        ensures
            final(self).wf(),
            final(self)@ == op_tick_timers(old(self)@),
    {
        if self.dt > 0 {
            self.dt = self.dt - 1;
        }
        if self.st > 0 {
            self.st = self.st - 1;
        }
        proof {
            assert(self@ =~= op_tick_timers(old(self)@));
        }
    }
}

} // verus!
