//! Laws of the instruction set, proved over the transitions of
//! [`crate::model`] that the executable handlers are verified against.

use vstd::prelude::*;
use crate::decode::{spec_decode, Instruction};
use crate::model::{
    State, ExecError, spec_fetch16, spec_step, spec_add8, spec_carry8, spec_shr8, spec_shl8,
    spec_bit0, spec_bit7, spec_drw_x0, spec_drw_y0, spec_drw_collision, spec_sprite_covers,
    op_add, op_call, op_ret, op_drw, MEM_SIZE, STACK_DEPTH,
};

verus! {

/// For all bytes a and b, the register add leaves the flag register 1
/// exactly when the true sum tops 255, and 0 otherwise; the target register
/// takes the sum modulo 256 whenever it is not the flag register itself.
pub proof fn lemma_add_carry(s: State, x: int, y: int)
    requires
        s.wf(),
        0 <= x < 16,
        0 <= y < 16,
    ensures
        op_add(s, x, y).v[15] == 1 <==> s.v[x] + s.v[y] > 255,
        op_add(s, x, y).v[15] == 0 <==> s.v[x] + s.v[y] <= 255,
        x != 15 ==> op_add(s, x, y).v[x] == (s.v[x] + s.v[y]) % 256,
{
    assert(spec_carry8(s.v[x], s.v[y]) == 1 <==> s.v[x] + s.v[y] > 255);
    assert(spec_add8(s.v[x], s.v[y]) == (s.v[x] + s.v[y]) % 256);
}

/// The arithmetic the shift transitions are stated with is the bit-level
/// reading: halving is a right shift and bit 0 is the dropped low bit;
/// doubling modulo 256 is a left shift and the high bit is the dropped one.
pub proof fn lemma_shift_bits(a: u8)
    ensures
        spec_shr8(a) == a >> 1,
        spec_bit0(a) == a & 1,
        spec_shl8(a) == (a << 1) as u8,
        (spec_bit7(a) == 1) == (a & 0x80 != 0),
        (spec_bit7(a) == 0) == (a & 0x80 == 0),
{
    assert(a / 2 == a >> 1) by (bit_vector);
    assert(a % 2 == a & 1) by (bit_vector);
    assert(((2 * a) % 256) as u8 == (a << 1) as u8) by (bit_vector);
    assert((if a >= 128 { 1u8 } else { 0u8 }) == (if a & 0x80 != 0 { 1u8 } else { 0u8 }))
        by (bit_vector);
}

/// Drawing the same sprite twice at the same coordinates returns the
/// framebuffer to its pre-draw state, and the second draw reports a
/// collision exactly where the first draw had turned a covered pixel on,
/// that is, where a covered pixel started out clear. (When Vx or Vy is the
/// flag register itself, the first draw moves the origin, so the law asks
/// for ordinary coordinate registers.)
#[verifier::rlimit(60)]
pub proof fn lemma_draw_twice(s: State, x: int, y: int, rows: int)
    requires
        s.wf(),
        0 <= x < 16,
        0 <= y < 16,
        x != 15,
        y != 15,
        0 <= rows,
    ensures
        op_drw(op_drw(s, x, y, rows), x, y, rows).fb == s.fb,
        spec_drw_collision(op_drw(s, x, y, rows), x, y, rows) == (exists|px: int, py: int|
            #[trigger] spec_sprite_covers(
                s.ram,
                s.i,
                spec_drw_x0(s, x),
                spec_drw_y0(s, y),
                rows,
                px,
                py,
            ) && !s.fb[py * 64 + px]),
{
    let s1 = op_drw(s, x, y, rows);
    assert(s1.ram == s.ram && s1.i == s.i);
    assert(s1.v[x] == s.v[x] && s1.v[y] == s.v[y]);
    let x0 = spec_drw_x0(s, x);
    let y0 = spec_drw_y0(s, y);

    // Each covered pixel is flipped back by the second draw; every other
    // pixel was never touched.
    assert forall|idx: int| 0 <= idx < 2048 implies op_drw(s1, x, y, rows).fb[idx] == s.fb[idx] by {
        assert(s1.fb[idx] == (s.fb[idx] != spec_sprite_covers(
            s.ram,
            s.i,
            x0,
            y0,
            rows,
            idx % 64,
            idx / 64,
        )));
    }
    assert(op_drw(s1, x, y, rows).fb =~= s.fb);

    // The second draw collides exactly on covered pixels the first draw
    // turned on.
    if spec_drw_collision(s1, x, y, rows) {
        let (px, py) = choose|px: int, py: int|
            #[trigger] spec_sprite_covers(s1.ram, s1.i, spec_drw_x0(s1, x), spec_drw_y0(s1, y), rows, px, py)
                && s1.fb[py * 64 + px];
        assert(0 <= px < 64 && 0 <= py < 32);
        assert((py * 64 + px) % 64 == px && (py * 64 + px) / 64 == py);
        assert(s1.fb[py * 64 + px] == !s.fb[py * 64 + px]);
        assert(spec_sprite_covers(s.ram, s.i, x0, y0, rows, px, py) && !s.fb[py * 64 + px]);
    }
    if exists|px: int, py: int|
        #[trigger] spec_sprite_covers(s.ram, s.i, x0, y0, rows, px, py) && !s.fb[py * 64 + px] {
        let (px, py) = choose|px: int, py: int|
            #[trigger] spec_sprite_covers(s.ram, s.i, x0, y0, rows, px, py) && !s.fb[py * 64 + px];
        assert(0 <= px < 64 && 0 <= py < 32);
        assert((py * 64 + px) % 64 == px && (py * 64 + px) / 64 == py);
        assert(s1.fb[py * 64 + px]);
        assert(spec_sprite_covers(s1.ram, s1.i, spec_drw_x0(s1, x), spec_drw_y0(s1, y), rows, px, py)
            && s1.fb[py * 64 + px]);
        assert(spec_drw_collision(s1, x, y, rows));
    }
}

/// A call followed by a return resumes at the instruction after the call:
/// for every starting state whose program counter fetches a call to some
/// address `nnn` holding a return instruction, and whose stack has a free
/// slot, two steps later the program counter sits two past where it began,
/// the stack pointer is back, and registers, memory, screen and timers are
/// untouched.
pub proof fn lemma_call_ret_round_trip(s: State, nnn: u16, keys: u16, rb: u8)
    requires
        s.wf(),
        spec_decode(spec_fetch16(s.ram, s.pc)) == Instruction::Call(nnn),
        spec_fetch16(s.ram, nnn) == 0x00EE,
        s.sp < STACK_DEPTH,
    ensures
        spec_step(s, keys, rb) matches Ok(s1) && {
            &&& s1.pc == nnn
            &&& s1.sp == s.sp + 1
            &&& spec_step(s1, keys, rb) matches Ok(s2) && {
                &&& s2.pc == (s.pc + 2) % (MEM_SIZE as int)
                &&& s2.sp == s.sp
                &&& s2.v == s.v
                &&& s2.ram == s.ram
                &&& s2.i == s.i
                &&& s2.fb == s.fb
                &&& s2.dt == s.dt
                &&& s2.st == s.st
            }
        },
{
    assert(spec_decode(0x00EE) == Instruction::Ret);
}

/// The stack holds exactly sixteen nested calls: a call fails, with
/// `StackOverflow`, exactly when all sixteen slots are in use, and
/// otherwise takes one more; a return fails, with `StackUnderflow`, exactly
/// when no call is outstanding, and otherwise gives one back.
pub proof fn lemma_stack_discipline(s: State, nnn: u16)
    requires
        s.wf(),
    ensures
        op_call(s, nnn) is Err <==> s.sp == STACK_DEPTH,
        op_call(s, nnn) is Err ==> op_call(s, nnn) == Err::<State, ExecError>(
            ExecError::StackOverflow,
        ),
        s.sp < STACK_DEPTH ==> (op_call(s, nnn) matches Ok(t) && t.sp == s.sp + 1),
        op_ret(s) is Err <==> s.sp == 0,
        op_ret(s) is Err ==> op_ret(s) == Err::<State, ExecError>(ExecError::StackUnderflow),
        s.sp > 0 ==> (op_ret(s) matches Ok(t) && t.sp == s.sp - 1),
{
}

} // verus!
