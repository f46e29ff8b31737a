//! The mathematical model of the machine: a ghost state record and one pure
//! transition function per operation.
//!
//! Every executable handler of the interpreter promises in its contract to
//! move the machine exactly as the matching transition here says. The laws of
//! the instruction set are proved over these transitions.

use vstd::prelude::*;
use crate::decode::{spec_decode, Instruction};

verus! {

/// Bytes of the address space.
pub const MEM_SIZE: usize = 4096;

/// Address where program images are placed and where execution starts.
pub const PROG_START: usize = 0x200;

/// Largest program image that fits between `PROG_START` and the end of
/// memory: 4096 - 512 bytes.
pub const MAX_PROGRAM: usize = 3584;

/// Number of general-purpose registers.
pub const NUM_REGS: usize = 16;

/// Depth of the call stack.
pub const STACK_DEPTH: usize = 16;

/// Address of the first font glyph.
pub const FONT_BASE: usize = 0x050;

/// Why a program image was rejected by the loader.
#[derive(Clone, Copy, Debug, PartialEq, Eq, Structural)]
pub enum LoadError {
    /// The program buffer held no bytes at all.
    Empty,
    /// The program buffer did not fit between 0x200 and the end of memory.
    TooLarge,
    /// The embedding program failed to read the image from its source.
    Io,
}

/// An execution failure surfaced to the caller instead of a process abort.
#[derive(Clone, Copy, Debug, PartialEq, Eq, Structural)]
pub enum ExecError {
    /// The fetched word matches no documented instruction pattern.
    UnimplementedOpcode(u16),
    /// A call arrived with all sixteen stack slots in use.
    StackOverflow,
    /// A return arrived with no call outstanding.
    StackUnderflow,
}

/// The architectural state of the machine, as mathematics: memory and the
/// framebuffer as sequences, the register file as a sequence of bytes.
pub ghost struct State {
    /// The 4096-byte address space.
    pub ram: Seq<u8>,
    /// The sixteen general-purpose registers; index 15 is the flag register.
    pub v: Seq<u8>,
    /// The index register.
    pub i: u16,
    /// The program counter.
    pub pc: u16,
    /// The sixteen return-address slots.
    pub stack: Seq<u16>,
    /// How many stack slots are in use.
    pub sp: int,
    /// The delay timer.
    pub dt: u8,
    /// The sound timer.
    pub st: u8,
    /// The framebuffer, row-major, pixel (x, y) at index y * 64 + x.
    pub fb: Seq<bool>,
}

impl State {
    /// Shape of a valid machine: fixed sizes, the stack pointer within its
    /// slots, and every code address inside memory.
    pub open spec fn wf(self) -> bool {
        &&& self.ram.len() == MEM_SIZE
        &&& self.v.len() == NUM_REGS
        &&& self.stack.len() == STACK_DEPTH
        &&& 0 <= self.sp <= STACK_DEPTH
        &&& self.pc < MEM_SIZE
        &&& self.fb.len() == 2048
        &&& forall|k: int| 0 <= k < STACK_DEPTH ==> self.stack[k] < MEM_SIZE
    }
}

/// The big-endian 16-bit word at `pc`; the second byte address wraps at the
/// end of memory.
pub open spec fn spec_fetch16(ram: Seq<u8>, pc: u16) -> u16 {
    ((ram[pc as int] as u16) << 8) | (ram[((pc + 1) % (MEM_SIZE as int)) as int] as u16)
}

/// The state after the fetch advanced the program counter by one
/// instruction, wrapping inside the address space.
pub open spec fn spec_advance(s: State) -> State {
    State { pc: ((s.pc + 2) % (MEM_SIZE as int)) as u16, ..s }
}

/// Eight-bit addition, wrapping modulo 256.
pub open spec fn spec_add8(a: u8, b: u8) -> u8 {
    ((a + b) % 256) as u8
}

/// The carry flag of eight-bit addition: 1 exactly when the true sum does
/// not fit in eight bits.
pub open spec fn spec_carry8(a: u8, b: u8) -> u8 {
    if a + b > 255 {
        1
    } else {
        0
    }
}

/// Eight-bit subtraction, wrapping modulo 256.
pub open spec fn spec_sub8(a: u8, b: u8) -> u8 {
    ((a - b + 256) % 256) as u8
}

/// The no-borrow flag of subtraction: 1 exactly when the minuend is
/// strictly greater than the subtrahend.
pub open spec fn spec_no_borrow8(a: u8, b: u8) -> u8 {
    if a > b {
        1
    } else {
        0
    }
}

/// A right shift by one: the value halved.
pub open spec fn spec_shr8(a: u8) -> u8 {
    a / 2
}

/// Bit 0 of a byte, the bit a right shift drops.
pub open spec fn spec_bit0(a: u8) -> u8 {
    a % 2
}

/// A left shift by one, wrapping modulo 256.
pub open spec fn spec_shl8(a: u8) -> u8 {
    ((2 * a) % 256) as u8
}

/// Bit 7 of a byte, the bit a left shift drops.
pub open spec fn spec_bit7(a: u8) -> u8 {
    if a >= 128 {
        1
    } else {
        0
    }
}

/// 00E0: every pixel off.
pub open spec fn op_cls(s: State) -> State {
    State { fb: Seq::new(2048, |idx: int| false), ..s }
}

/// 00EE: pop the return address into the program counter; underflow when no
/// call is outstanding.
pub open spec fn op_ret(s: State) -> Result<State, ExecError> {
    if s.sp == 0 {
        Err(ExecError::StackUnderflow)
    } else {
        Ok(State { pc: s.stack[s.sp - 1], sp: s.sp - 1, ..s })
    }
}

/// 1nnn: jump.
pub open spec fn op_jp(s: State, nnn: u16) -> State {
    State { pc: nnn, ..s }
}

/// 2nnn: push the address of the next instruction and jump; overflow when
/// all slots are in use.
pub open spec fn op_call(s: State, nnn: u16) -> Result<State, ExecError> {
    if s.sp == STACK_DEPTH {
        Err(ExecError::StackOverflow)
    } else {
        Ok(State { stack: s.stack.update(s.sp, s.pc), sp: s.sp + 1, pc: nnn, ..s })
    }
}

/// The common shape of the four skip instructions: advance once more when
/// the condition holds.
pub open spec fn spec_skip(s: State, cond: bool) -> State {
    if cond {
        spec_advance(s)
    } else {
        s
    }
}

/// 3xnn: skip when Vx equals nn.
pub open spec fn op_se_imm(s: State, x: int, nn: u8) -> State {
    spec_skip(s, s.v[x] == nn)
}

/// 4xnn: skip when Vx differs from nn.
pub open spec fn op_sne_imm(s: State, x: int, nn: u8) -> State {
    spec_skip(s, s.v[x] != nn)
}

/// 5xy0: skip when Vx equals Vy.
pub open spec fn op_se(s: State, x: int, y: int) -> State {
    spec_skip(s, s.v[x] == s.v[y])
}

/// 9xy0: skip when Vx differs from Vy.
pub open spec fn op_sne(s: State, x: int, y: int) -> State {
    spec_skip(s, s.v[x] != s.v[y])
}

/// 6xnn: load the immediate.
pub open spec fn op_ld_imm(s: State, x: int, nn: u8) -> State {
    State { v: s.v.update(x, nn), ..s }
}

/// 7xnn: add the immediate, wrapping, with the flag untouched.
pub open spec fn op_add_imm(s: State, x: int, nn: u8) -> State {
    State { v: s.v.update(x, spec_add8(s.v[x], nn)), ..s }
}

/// 8xy0: copy.
pub open spec fn op_ld(s: State, x: int, y: int) -> State {
    State { v: s.v.update(x, s.v[y]), ..s }
}

/// 8xy1: bitwise or.
pub open spec fn op_or(s: State, x: int, y: int) -> State {
    State { v: s.v.update(x, s.v[x] | s.v[y]), ..s }
}

/// 8xy2: bitwise and.
pub open spec fn op_and(s: State, x: int, y: int) -> State {
    State { v: s.v.update(x, s.v[x] & s.v[y]), ..s }
}

/// 8xy3: bitwise xor.
pub open spec fn op_xor(s: State, x: int, y: int) -> State {
    State { v: s.v.update(x, s.v[x] ^ s.v[y]), ..s }
}

/// 8xy4: wrapping add; the flag register takes the carry last, so it wins
/// when Vx is the flag register itself.
pub open spec fn op_add(s: State, x: int, y: int) -> State {
    State { v: s.v.update(x, spec_add8(s.v[x], s.v[y])).update(15, spec_carry8(s.v[x], s.v[y])), ..s }
}

/// 8xy5: wrapping subtract; the flag register takes the no-borrow flag last.
pub open spec fn op_sub(s: State, x: int, y: int) -> State {
    State {
        v: s.v.update(x, spec_sub8(s.v[x], s.v[y])).update(15, spec_no_borrow8(s.v[x], s.v[y])),
        ..s
    }
}

/// 8xy7: wrapping reverse subtract; the flag register takes the no-borrow
/// flag last.
pub open spec fn op_subn(s: State, x: int, y: int) -> State {
    State {
        v: s.v.update(x, spec_sub8(s.v[y], s.v[x])).update(15, spec_no_borrow8(s.v[y], s.v[x])),
        ..s
    }
}

/// 8xy6: shift right; the flag register takes the dropped bit last.
pub open spec fn op_shr(s: State, x: int) -> State {
    State { v: s.v.update(x, spec_shr8(s.v[x])).update(15, spec_bit0(s.v[x])), ..s }
}

/// 8xyE: shift left; the flag register takes the dropped bit last.
pub open spec fn op_shl(s: State, x: int) -> State {
    State { v: s.v.update(x, spec_shl8(s.v[x])).update(15, spec_bit7(s.v[x])), ..s }
}

/// Annn: load the index register.
pub open spec fn op_ld_i(s: State, nnn: u16) -> State {
    State { i: nnn, ..s }
}

/// Bnnn: jump to nnn plus V0, wrapped into the address space.
pub open spec fn op_jp_offset(s: State, nnn: u16) -> State {
    State { pc: ((nnn + s.v[0]) % (MEM_SIZE as int)) as u16, ..s }
}

/// Cxnn: the random byte `r` masked by nn into Vx.
pub open spec fn op_rand(s: State, x: int, nn: u8, r: u8) -> State {
    State { v: s.v.update(x, r & nn), ..s }
}

/// Ex9E: skip when the key named by the low nibble of Vx is down.
pub open spec fn op_skp(s: State, x: int, keys: u16) -> State {
    spec_skip(s, crate::display::spec_key_down(keys, (s.v[x] & 0xF) as int))
}

/// ExA1: skip when the key named by the low nibble of Vx is up.
pub open spec fn op_sknp(s: State, x: int, keys: u16) -> State {
    spec_skip(s, !crate::display::spec_key_down(keys, (s.v[x] & 0xF) as int))
}

/// Fx1E: add Vx to the index register, wrapping at sixteen bits.
pub open spec fn op_add_i(s: State, x: int) -> State {
    State { i: ((s.i + s.v[x]) % 0x10000) as u16, ..s }
}

/// Fx29: point the index register at the five-byte font glyph of the low
/// nibble of Vx.
pub open spec fn op_ld_f(s: State, x: int) -> State {
    State { i: (FONT_BASE + (s.v[x] as int) * 5) as u16, ..s }
}

/// Fx33: the decimal digits of Vx, most significant first, written at I,
/// I+1, I+2, each address wrapped into memory.
pub open spec fn op_ld_bcd(s: State, x: int) -> State {
    State {
        ram: s.ram.update(((s.i + 0) % (MEM_SIZE as int)) as int, (s.v[x] / 100) as u8).update(
            ((s.i + 1) % (MEM_SIZE as int)) as int,
            ((s.v[x] / 10) % 10) as u8,
        ).update(((s.i + 2) % (MEM_SIZE as int)) as int, (s.v[x] % 10) as u8),
        ..s
    }
}

/// Memory after registers 0 through count-1 were stored at I onward, each
/// address wrapped into memory.
pub open spec fn spec_store_regs(ram: Seq<u8>, v: Seq<u8>, i: u16, count: int) -> Seq<u8>
    decreases count,
{
    if count <= 0 {
        ram
    } else {
        spec_store_regs(ram, v, i, count - 1).update(
            ((i + count - 1) % (MEM_SIZE as int)) as int,
            v[count - 1],
        )
    }
}

/// The register file after registers 0 through count-1 were loaded from I
/// onward, each address wrapped into memory.
pub open spec fn spec_load_regs(v: Seq<u8>, ram: Seq<u8>, i: u16, count: int) -> Seq<u8>
    decreases count,
{
    if count <= 0 {
        v
    } else {
        spec_load_regs(v, ram, i, count - 1).update(
            count - 1,
            ram[((i + count - 1) % (MEM_SIZE as int)) as int],
        )
    }
}

/// Fx55: store V0 through Vx to memory at I onward.
pub open spec fn op_ld_into_i(s: State, x: int) -> State {
    State { ram: spec_store_regs(s.ram, s.v, s.i, x + 1), ..s }
}

/// Fx65: load V0 through Vx from memory at I onward.
pub open spec fn op_ld_from_i(s: State, x: int) -> State {
    State { v: spec_load_regs(s.v, s.ram, s.i, x + 1), ..s }
}

/// Whether bit `j` of a sprite byte is set, counting from the most
/// significant bit.
pub open spec fn spec_sprite_bit(b: u8, j: int) -> bool
    recommends
        0 <= j < 8,
{
    (b >> ((7 - j) as u8)) & 1 == 1
}

/// The sprite row `row`, read from memory at I + row, wrapped into memory.
pub open spec fn spec_sprite_row(ram: Seq<u8>, i: u16, row: int) -> u8 {
    ram[((i + row) % (MEM_SIZE as int)) as int]
}

/// Whether the draw of `rows` sprite rows at origin (x0, y0) flips the pixel
/// at (px, py): the pixel lies under the sprite, is not clipped at the right
/// or bottom edge, and its sprite bit is set.
pub open spec fn spec_sprite_covers(
    ram: Seq<u8>,
    i: u16,
    x0: int,
    y0: int,
    rows: int,
    px: int,
    py: int,
) -> bool {
    &&& x0 <= px < x0 + 8
    &&& px < 64
    &&& y0 <= py < y0 + rows
    &&& py < 32
    &&& spec_sprite_bit(spec_sprite_row(ram, i, py - y0), px - x0)
}

/// The draw origin columns: Vx wrapped at the screen width.
pub open spec fn spec_drw_x0(s: State, x: int) -> int {
    (s.v[x] % 64) as int
}

/// The draw origin row: Vy wrapped at the screen height.
pub open spec fn spec_drw_y0(s: State, y: int) -> int {
    (s.v[y] % 32) as int
}

/// Whether the draw turns any previously-set pixel off.
pub open spec fn spec_drw_collision(s: State, x: int, y: int, rows: int) -> bool {
    exists|px: int, py: int|
        spec_sprite_covers(s.ram, s.i, spec_drw_x0(s, x), spec_drw_y0(s, y), rows, px, py)
            && s.fb[py * 64 + px]
}

/// The framebuffer after the draw: every covered pixel flipped, every other
/// pixel kept.
pub open spec fn spec_drw_fb(s: State, x: int, y: int, rows: int) -> Seq<bool> {
    Seq::new(
        2048,
        |idx: int|
            s.fb[idx] != spec_sprite_covers(
                s.ram,
                s.i,
                spec_drw_x0(s, x),
                spec_drw_y0(s, y),
                rows,
                idx % 64,
                idx / 64,
            ),
    )
}

/// Dxyn: the sprite blit, with the collision flag written to VF.
pub open spec fn op_drw(s: State, x: int, y: int, rows: int) -> State {
    State {
        fb: spec_drw_fb(s, x, y, rows),
        v: s.v.update(15, if spec_drw_collision(s, x, y, rows) { 1u8 } else { 0u8 }),
        ..s
    }
}

/// One frame tick of the two timers: each steps down toward zero and stops
/// there.
pub open spec fn op_tick_timers(s: State) -> State {
    State {
        dt: if s.dt > 0 {
            (s.dt - 1) as u8
        } else {
            0
        },
        st: if s.st > 0 {
            (s.st - 1) as u8
        } else {
            0
        },
        ..s
    }
}

/// The effect of one decoded operation on the already-advanced state `s`.
/// `keys` is the key mask sampled for this step and `r` the byte the random
/// source handed out.
pub open spec fn spec_exec(s: State, instr: u16, keys: u16, r: u8) -> Result<State, ExecError> {
    match spec_decode(instr) {
        Instruction::Cls => Ok(op_cls(s)),
        Instruction::Ret => op_ret(s),
        Instruction::Jp(nnn) => Ok(op_jp(s, nnn)),
        Instruction::Call(nnn) => op_call(s, nnn),
        Instruction::SeImm(x, nn) => Ok(op_se_imm(s, x as int, nn)),
        Instruction::SneImm(x, nn) => Ok(op_sne_imm(s, x as int, nn)),
        Instruction::Se(x, y) => Ok(op_se(s, x as int, y as int)),
        Instruction::LdImm(x, nn) => Ok(op_ld_imm(s, x as int, nn)),
        Instruction::AddImm(x, nn) => Ok(op_add_imm(s, x as int, nn)),
        Instruction::Ld(x, y) => Ok(op_ld(s, x as int, y as int)),
        Instruction::Or(x, y) => Ok(op_or(s, x as int, y as int)),
        Instruction::And(x, y) => Ok(op_and(s, x as int, y as int)),
        Instruction::Xor(x, y) => Ok(op_xor(s, x as int, y as int)),
        Instruction::Add(x, y) => Ok(op_add(s, x as int, y as int)),
        Instruction::Sub(x, y) => Ok(op_sub(s, x as int, y as int)),
        Instruction::Shr(x) => Ok(op_shr(s, x as int)),
        Instruction::Subn(x, y) => Ok(op_subn(s, x as int, y as int)),
        Instruction::Shl(x) => Ok(op_shl(s, x as int)),
        Instruction::Sne(x, y) => Ok(op_sne(s, x as int, y as int)),
        Instruction::LdI(nnn) => Ok(op_ld_i(s, nnn)),
        Instruction::JpOffset(nnn) => Ok(op_jp_offset(s, nnn)),
        Instruction::Rand(x, nn) => Ok(op_rand(s, x as int, nn, r)),
        Instruction::Drw(x, y, n) => Ok(op_drw(s, x as int, y as int, n as int)),
        Instruction::Skp(x) => Ok(op_skp(s, x as int, keys)),
        Instruction::Sknp(x) => Ok(op_sknp(s, x as int, keys)),
        Instruction::AddI(x) => Ok(op_add_i(s, x as int)),
        Instruction::LdF(x) => Ok(op_ld_f(s, x as int)),
        Instruction::LdBcd(x) => Ok(op_ld_bcd(s, x as int)),
        Instruction::LdIntoI(x) => Ok(op_ld_into_i(s, x as int)),
        Instruction::LdFromI(x) => Ok(op_ld_from_i(s, x as int)),
        Instruction::Unknown(w) => Err(ExecError::UnimplementedOpcode(w)),
    }
}

/// One whole CPU step: fetch the word at the program counter, advance the
/// counter by two, then execute. On an error the advanced counter stands and
/// nothing else changes.
pub open spec fn spec_step(s: State, keys: u16, r: u8) -> Result<State, ExecError> {
    spec_exec(spec_advance(s), spec_fetch16(s.ram, s.pc), keys, r)
}


/// Memory after `data` was copied in starting at `start`; every other byte
/// keeps its value.
pub open spec fn spec_write_seq(ram: Seq<u8>, data: Seq<u8>, start: int) -> Seq<u8> {
    Seq::new(
        MEM_SIZE as nat,
        |a: int|
            if start <= a < start + data.len() {
                data[a - start]
            } else {
                ram[a]
            },
    )
}

/// The eighty font bytes: sixteen glyphs of five rows each, digits 0
/// through F.
pub open spec fn spec_font() -> Seq<u8> {
    seq![
        0xF0u8, 0x90, 0x90, 0x90, 0xF0,
        0x20, 0x60, 0x20, 0x20, 0x70,
        0xF0, 0x10, 0xF0, 0x80, 0xF0,
        0xF0, 0x10, 0xF0, 0x10, 0xF0,
        0x90, 0x90, 0xF0, 0x10, 0x10,
        0xF0, 0x80, 0xF0, 0x10, 0xF0,
        0xF0, 0x80, 0xF0, 0x90, 0xF0,
        0xF0, 0x10, 0x20, 0x40, 0x40,
        0xF0, 0x90, 0xF0, 0x90, 0xF0,
        0xF0, 0x90, 0xF0, 0x10, 0xF0,
        0xF0, 0x90, 0xF0, 0x90, 0x90,
        0xE0, 0x90, 0xE0, 0x90, 0xE0,
        0xF0, 0x80, 0x80, 0x80, 0xF0,
        0xE0, 0x90, 0x90, 0x90, 0xE0,
        0xF0, 0x80, 0xF0, 0x80, 0xF0,
        0xF0, 0x80, 0xF0, 0x80, 0x80,
    ]
}

/// The machine as construction leaves it: cleared registers, stack, timers
/// and screen, the program counter at the program start, and the font
/// glyphs in memory at `FONT_BASE`.
pub open spec fn spec_initial_state() -> State {
    State {
        ram: spec_write_seq(Seq::new(MEM_SIZE as nat, |a: int| 0u8), spec_font(), FONT_BASE as int),
        v: Seq::new(NUM_REGS as nat, |k: int| 0u8),
        i: 0,
        pc: PROG_START as u16,
        stack: Seq::new(STACK_DEPTH as nat, |k: int| 0u16),
        sp: 0,
        dt: 0,
        st: 0,
        fb: Seq::new(2048, |idx: int| false),
    }
}


/// Pixels covered after the draw loop has finished `row` full sprite rows
/// and, within row `row`, the first `bit` bits.
pub open spec fn spec_covers_upto(
    ram: Seq<u8>,
    i: u16,
    x0: int,
    y0: int,
    row: int,
    bit: int,
    px: int,
    py: int,
) -> bool {
    ||| spec_sprite_covers(ram, i, x0, y0, row, px, py)
    ||| {
        &&& py == y0 + row
        &&& py < 32
        &&& x0 <= px < x0 + bit
        &&& px < 64
        &&& spec_sprite_bit(spec_sprite_row(ram, i, row), px - x0)
    }
}

/// With no bits of row `row` drawn yet, exactly the first `row` full rows
/// are covered.
pub proof fn lemma_covers_upto_start(ram: Seq<u8>, i: u16, x0: int, y0: int, row: int)
    ensures
        forall|px: int, py: int|
            spec_covers_upto(ram, i, x0, y0, row, 0, px, py) == spec_sprite_covers(
                ram,
                i,
                x0,
                y0,
                row,
                px,
                py,
            ),
{
}

/// Drawing one more bit extends the covered set by at most the one pixel
/// that bit names: nothing when the bit is clear or clipped.
pub proof fn lemma_covers_upto_bit(ram: Seq<u8>, i: u16, x0: int, y0: int, row: int, bit: int)
    requires
        0 <= bit < 8,
        0 <= row,
    ensures
        forall|px: int, py: int|
            spec_covers_upto(ram, i, x0, y0, row, bit + 1, px, py) == (spec_covers_upto(
                ram,
                i,
                x0,
                y0,
                row,
                bit,
                px,
                py,
            ) || {
                &&& px == x0 + bit
                &&& px < 64
                &&& py == y0 + row
                &&& py < 32
                &&& spec_sprite_bit(spec_sprite_row(ram, i, row), bit)
            }),
{
}

/// Once the pixels of a row would leave the right screen edge, the
/// remaining bits of that row cover nothing more.
pub proof fn lemma_covers_upto_clip_x(ram: Seq<u8>, i: u16, x0: int, y0: int, row: int, bit: int)
    requires
        0 <= bit <= 8,
        x0 + bit > 63,
    ensures
        forall|px: int, py: int|
            spec_covers_upto(ram, i, x0, y0, row, 8, px, py) == spec_covers_upto(
                ram,
                i,
                x0,
                y0,
                row,
                bit,
                px,
                py,
            ),
{
}

/// A row drawn through its eighth bit is a full row.
pub proof fn lemma_covers_upto_row_done(ram: Seq<u8>, i: u16, x0: int, y0: int, row: int)
    requires
        0 <= row,
    ensures
        forall|px: int, py: int|
            spec_covers_upto(ram, i, x0, y0, row, 8, px, py) == spec_covers_upto(
                ram,
                i,
                x0,
                y0,
                row + 1,
                0,
                px,
                py,
            ),
{
}

/// Once the next row would leave the bottom screen edge, the remaining
/// rows cover nothing more.
pub proof fn lemma_covers_upto_clip_y(
    ram: Seq<u8>,
    i: u16,
    x0: int,
    y0: int,
    row: int,
    rows: int,
)
    requires
        0 <= row <= rows,
        y0 + row > 31,
    ensures
        forall|px: int, py: int|
            spec_sprite_covers(ram, i, x0, y0, rows, px, py) == spec_covers_upto(
                ram,
                i,
                x0,
                y0,
                row,
                0,
                px,
                py,
            ),
{
}


/// How one executable step must relate the machine before (`pre`) and after
/// (`post`), its result `r`, the sampled key mask and the drawn random byte:
/// on success the machine lands exactly on the modelled successor; on an
/// error the advanced program counter stands and nothing else changes.
pub open spec fn spec_step_matches(
    pre: State,
    post: State,
    r: Result<(), ExecError>,
    keys: u16,
    rb: u8,
) -> bool {
    match spec_step(pre, keys, rb) {
        Ok(s) => r is Ok && post == s,
        Err(e) => r == Err::<(), ExecError>(e) && post == spec_advance(pre),
    }
}

} // verus!
