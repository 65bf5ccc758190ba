//! Laws the executor obeys, proved once over the cycle and draw semantics.

use vstd::prelude::*;
use crate::machine::CycleError;
use crate::machine::DecodeError;
use crate::machine::Instr;
use crate::machine::MachineModel;
use crate::machine::StackError;
use crate::machine::DISPLAY_CELLS;
use crate::machine::DISPLAY_HEIGHT;
use crate::machine::DISPLAY_WIDTH;
use crate::machine::MEMORY_SIZE;
use crate::machine::STACK_CAPACITY;
use crate::machine::bit_of;
use crate::machine::bits_collision;
use crate::machine::cell_index;
use crate::machine::draw_bits;
use crate::machine::draw_rows;
use crate::machine::fetch_op;
use crate::machine::rows_collision;
use crate::machine::spec_cycle;
use crate::machine::spec_decode;
use crate::machine::spec_mem_addr;
use crate::machine::wrap_row;

verus! {

/// Whether an instruction neither jumps nor skips: one that, from any state,
/// completes and moves the program counter to the next instruction.
pub open spec fn is_straightline(i: Instr) -> bool {
    match i {
        Instr::Jump(_) => false,
        Instr::Call(_) => false,
        Instr::Return => false,
        Instr::JumpV0(_) => false,
        Instr::SkipEqImm(_, _) => false,
        Instr::SkipNeImm(_, _) => false,
        Instr::SkipEqReg(_, _) => false,
        Instr::SkipNeReg(_, _) => false,
        Instr::SkipKey(_) => false,
        Instr::SkipNoKey(_) => false,
        Instr::Unknown(_) => false,
        _ => true,
    }
}

/// Program-counter advance: a non-jump, non-skip opcode executed from
/// address `A` completes and leaves the program counter at `A + 2`.
pub proof fn lemma_pc_advance(m: MachineModel)
    requires
        m.wf(),
        !m.halted,
        m.pc + 1 < MEMORY_SIZE,
        is_straightline(spec_decode(fetch_op(m))),
    ensures
        spec_cycle(m).0.pc == m.pc + 2,
        spec_cycle(m).1 == Ok::<(), CycleError>(()),
{
}

/// Skip law: a skip-on-equal opcode advances the program counter by 4 when
/// the condition holds and by 2 when it does not.
pub proof fn lemma_skip_on_equal(m: MachineModel, x: usize, imm: u8)
    requires
        m.wf(),
        !m.halted,
        m.pc + 1 < MEMORY_SIZE,
        spec_decode(fetch_op(m)) == Instr::SkipEqImm(x, imm),
    ensures
        spec_cycle(m).1 == Ok::<(), CycleError>(()),
        m.registers[x as int] == imm ==> spec_cycle(m).0.pc == m.pc + 4,
        m.registers[x as int] != imm ==> spec_cycle(m).0.pc == m.pc + 2,
{
}

/// Skip law, register form: a skip-on-equal opcode comparing two registers
/// advances the program counter by 4 when they are equal and by 2 when not.
pub proof fn lemma_skip_on_equal_registers(m: MachineModel, x: usize, y: usize)
    requires
        m.wf(),
        !m.halted,
        m.pc + 1 < MEMORY_SIZE,
        spec_decode(fetch_op(m)) == Instr::SkipEqReg(x, y),
    ensures
        spec_cycle(m).1 == Ok::<(), CycleError>(()),
        m.registers[x as int] == m.registers[y as int] ==> spec_cycle(m).0.pc == m.pc + 4,
        m.registers[x as int] != m.registers[y as int] ==> spec_cycle(m).0.pc == m.pc + 2,
{
}

/// A halted machine performs no further cycles: a cycle from a halted state
/// changes nothing and reports success, however often it is attempted.
pub proof fn lemma_halted_cycle_no_op(m: MachineModel)
    requires
        m.halted,
    ensures
        spec_cycle(m).0 == m,
        spec_cycle(m).1 == Ok::<(), CycleError>(()),
{
}

/// Stack round-trip: a call followed immediately by a return restores the
/// program counter to the instruction after the call and leaves the stack
/// exactly as it was.
pub proof fn lemma_call_return_round_trip(m: MachineModel, a: u16)
    requires
        m.wf(),
        !m.halted,
        m.pc + 1 < MEMORY_SIZE,
        spec_decode(fetch_op(m)) == Instr::Call(a),
        m.stack.len() < STACK_CAPACITY,
        a + 1 < MEMORY_SIZE,
        spec_decode(fetch_op(spec_cycle(m).0)) == Instr::Return,
    ensures
        spec_cycle(m).1 == Ok::<(), CycleError>(()),
        spec_cycle(spec_cycle(m).0).1 == Ok::<(), CycleError>(()),
        spec_cycle(spec_cycle(m).0).0.pc == m.pc + 2,
        spec_cycle(spec_cycle(m).0).0.stack == m.stack,
{
    let m1 = spec_cycle(m).0;
    assert(m1.stack == m.stack.push((m.pc + 2) as u16));
    assert(m1.stack.last() == (m.pc + 2) as u16);
    assert(m1.stack.drop_last() =~= m.stack);
}

/// Stack exhaustion: a call attempted with the stack already at capacity
/// reports an overflow, halts the machine and changes nothing else.
pub proof fn lemma_call_overflow(m: MachineModel, a: u16)
    requires
        m.wf(),
        !m.halted,
        m.pc + 1 < MEMORY_SIZE,
        spec_decode(fetch_op(m)) == Instr::Call(a),
        m.stack.len() == STACK_CAPACITY,
    ensures
        spec_cycle(m).1 == Err::<(), CycleError>(CycleError::Stack(StackError::Overflow)),
        spec_cycle(m).0 == (MachineModel { halted: true, ..m }),
{
}

/// An opcode that decodes to no defined mapping is reported as itself: the
/// undecodable instruction always carries the raw opcode.
pub proof fn lemma_unknown_carries_opcode(op: u16)
    requires
        spec_decode(op) is Unknown,
    ensures
        spec_decode(op) == Instr::Unknown(op),
{
}

/// Unknown opcode: a cycle whose opcode has no defined mapping reports the
/// raw opcode, halts the machine and leaves every other piece of state
/// unchanged.
pub proof fn lemma_unknown_opcode_atomic(m: MachineModel)
    requires
        m.wf(),
        !m.halted,
        m.pc + 1 < MEMORY_SIZE,
        spec_decode(fetch_op(m)) is Unknown,
    ensures
        spec_cycle(m).1 == Err::<(), CycleError>(
            CycleError::Decode(DecodeError::UnknownOpcode(fetch_op(m)))),
        spec_cycle(m).0 == (MachineModel { halted: true, ..m }),
{
    lemma_unknown_carries_opcode(fetch_op(m));
}

/// Whether one of the first `k` bits of sprite-row byte `byte`, drawn at row
/// offset `r`, is set and falls on framebuffer cell `c`.
pub open spec fn bit_hit(byte: u8, x0: int, y0: int, r: int, k: int, c: int) -> bool
    decreases k,
{
    if k <= 0 {
        false
    } else {
        bit_hit(byte, x0, y0, r, k - 1, c) || (bit_of(byte, k - 1) && cell_index(x0, y0, r, k - 1) == c)
    }
}

/// Whether some set bit of the sprite's first `k` rows falls on cell `c`.
pub open spec fn row_hit(mem: Seq<u8>, index: u16, x0: int, y0: int, k: int, c: int) -> bool
    decreases k,
{
    if k <= 0 {
        false
    } else {
        row_hit(mem, index, x0, y0, k - 1, c) || bit_hit(
            mem[spec_mem_addr(index, k - 1)], x0, y0, k - 1, 8, c)
    }
}

/// Whether some set bit among the first `k` of one sprite row falls on a
/// cell that is set in `fb`.
pub open spec fn bit_hit_on_set(fb: Seq<bool>, byte: u8, x0: int, y0: int, r: int, k: int) -> bool
    decreases k,
{
    if k <= 0 {
        false
    } else {
        bit_hit_on_set(fb, byte, x0, y0, r, k - 1) || (bit_of(byte, k - 1) && fb[cell_index(
            x0, y0, r, k - 1)])
    }
}

/// Whether some set bit of the sprite's first `k` rows falls on a cell that
/// is set in `fb`.
pub open spec fn row_hit_on_set(fb: Seq<bool>, mem: Seq<u8>, index: u16, x0: int, y0: int, k: int) -> bool
    decreases k,
{
    if k <= 0 {
        false
    } else {
        row_hit_on_set(fb, mem, index, x0, y0, k - 1) || bit_hit_on_set(
            fb, mem[spec_mem_addr(index, k - 1)], x0, y0, k - 1, 8)
    }
}

/// Drawing never changes the framebuffer's size.
pub proof fn lemma_draw_bits_len(fb: Seq<bool>, byte: u8, x0: int, y0: int, r: int, k: int)
    requires
        fb.len() == DISPLAY_CELLS,
        0 <= x0 < DISPLAY_WIDTH,
        0 <= y0 < DISPLAY_HEIGHT,
        0 <= r < DISPLAY_HEIGHT,
        k <= 8,
    ensures
        draw_bits(fb, byte, x0, y0, r, k).len() == fb.len(),
    decreases k,
{
    if k > 0 {
        lemma_draw_bits_len(fb, byte, x0, y0, r, k - 1);
    }
}

/// Drawing never changes the framebuffer's size.
pub proof fn lemma_draw_rows_len(fb: Seq<bool>, mem: Seq<u8>, index: u16, x0: int, y0: int, k: int)
    requires
        fb.len() == DISPLAY_CELLS,
        0 <= x0 < DISPLAY_WIDTH,
        0 <= y0 < DISPLAY_HEIGHT,
        k <= 16,
    ensures
        draw_rows(fb, mem, index, x0, y0, k).len() == fb.len(),
    decreases k,
{
    if k > 0 {
        lemma_draw_rows_len(fb, mem, index, x0, y0, k - 1);
        lemma_draw_bits_len(
            draw_rows(fb, mem, index, x0, y0, k - 1),
            mem[spec_mem_addr(index, k - 1)], x0, y0, k - 1, 8);
    }
}

/// Every cell one sprite row hits lies on that row of the framebuffer.
proof fn lemma_bit_hit_row(byte: u8, x0: int, y0: int, r: int, k: int, c: int)
    requires
        0 <= x0 < DISPLAY_WIDTH,
        0 <= y0 < DISPLAY_HEIGHT,
        0 <= r < DISPLAY_HEIGHT,
        0 <= k <= 8,
        bit_hit(byte, x0, y0, r, k, c),
    ensures
        c / (DISPLAY_WIDTH as int) == wrap_row(y0, r),
        0 <= c < DISPLAY_CELLS,
    decreases k,
{
    if k > 0 {
        if bit_hit(byte, x0, y0, r, k - 1, c) {
            lemma_bit_hit_row(byte, x0, y0, r, k - 1, c);
        }
    }
}

/// Within one sprite row, the first `k` bits never hit the cell of a later
/// bit: the eight columns a row touches are pairwise distinct.
proof fn lemma_bit_hit_excludes(byte: u8, x0: int, y0: int, r: int, k: int, b0: int)
    requires
        0 <= x0 < DISPLAY_WIDTH,
        0 <= y0 < DISPLAY_HEIGHT,
        0 <= r < DISPLAY_HEIGHT,
        0 <= k <= b0 < 8,
    ensures
        !bit_hit(byte, x0, y0, r, k, cell_index(x0, y0, r, b0)),
    decreases k,
{
    if k > 0 {
        lemma_bit_hit_excludes(byte, x0, y0, r, k - 1, b0);
        assert(cell_index(x0, y0, r, k - 1) != cell_index(x0, y0, r, b0));
    }
}

/// Drawing one sprite row changes exactly the cells it hits, by toggling.
proof fn lemma_draw_bits_pointwise(fb: Seq<bool>, byte: u8, x0: int, y0: int, r: int, k: int, c: int)
    requires
        fb.len() == DISPLAY_CELLS,
        0 <= x0 < DISPLAY_WIDTH,
        0 <= y0 < DISPLAY_HEIGHT,
        0 <= r < DISPLAY_HEIGHT,
        0 <= k <= 8,
        0 <= c < DISPLAY_CELLS,
    ensures
        draw_bits(fb, byte, x0, y0, r, k)[c] == (fb[c] != bit_hit(byte, x0, y0, r, k, c)),
    decreases k,
{
    if k > 0 {
        lemma_draw_bits_pointwise(fb, byte, x0, y0, r, k - 1, c);
        lemma_draw_bits_len(fb, byte, x0, y0, r, k - 1);
        if bit_of(byte, k - 1) && cell_index(x0, y0, r, k - 1) == c {
            lemma_bit_hit_excludes(byte, x0, y0, r, k - 1, k - 1);
        }
    }
}

/// The first `k` sprite rows never hit a cell that lies on the framebuffer
/// row of a later sprite row: the rows a sprite touches are pairwise
/// distinct.
proof fn lemma_row_hit_excludes(mem: Seq<u8>, index: u16, x0: int, y0: int, k: int, r0: int, c: int)
    requires
        0 <= x0 < DISPLAY_WIDTH,
        0 <= y0 < DISPLAY_HEIGHT,
        0 <= k <= r0 < 16,
        c / (DISPLAY_WIDTH as int) == wrap_row(y0, r0),
    ensures
        !row_hit(mem, index, x0, y0, k, c),
    decreases k,
{
    if k > 0 {
        lemma_row_hit_excludes(mem, index, x0, y0, k - 1, r0, c);
        if bit_hit(mem[spec_mem_addr(index, k - 1)], x0, y0, k - 1, 8, c) {
            lemma_bit_hit_row(mem[spec_mem_addr(index, k - 1)], x0, y0, k - 1, 8, c);
            assert(wrap_row(y0, k - 1) != wrap_row(y0, r0));
            assert(false);
        }
    }
}

/// Drawing a sprite changes exactly the cells its set bits fall on, by
/// toggling.
pub proof fn lemma_draw_rows_pointwise(fb: Seq<bool>, mem: Seq<u8>, index: u16, x0: int, y0: int, k: int, c: int)
    requires
        fb.len() == DISPLAY_CELLS,
        0 <= x0 < DISPLAY_WIDTH,
        0 <= y0 < DISPLAY_HEIGHT,
        0 <= k <= 16,
        0 <= c < DISPLAY_CELLS,
    ensures
        draw_rows(fb, mem, index, x0, y0, k)[c] == (fb[c] != row_hit(mem, index, x0, y0, k, c)),
    decreases k,
{
    if k > 0 {
        lemma_draw_rows_pointwise(fb, mem, index, x0, y0, k - 1, c);
        lemma_draw_rows_len(fb, mem, index, x0, y0, k - 1);
        let prev = draw_rows(fb, mem, index, x0, y0, k - 1);
        let byte = mem[spec_mem_addr(index, k - 1)];
        lemma_draw_bits_pointwise(prev, byte, x0, y0, k - 1, 8, c);
        if bit_hit(byte, x0, y0, k - 1, 8, c) {
            lemma_bit_hit_row(byte, x0, y0, k - 1, 8, c);
            lemma_row_hit_excludes(mem, index, x0, y0, k - 1, k - 1, c);
        }
    }
}

/// The collision a single sprite row reports is exactly a set bit of that
/// row falling on a cell already set when the whole draw began.
proof fn lemma_bits_collision_char(fb: Seq<bool>, byte: u8, x0: int, y0: int, r: int, k: int)
    requires
        fb.len() == DISPLAY_CELLS,
        0 <= x0 < DISPLAY_WIDTH,
        0 <= y0 < DISPLAY_HEIGHT,
        0 <= r < DISPLAY_HEIGHT,
        0 <= k <= 8,
    ensures
        bits_collision(fb, byte, x0, y0, r, k) == bit_hit_on_set(fb, byte, x0, y0, r, k),
    decreases k,
{
    if k > 0 {
        lemma_bits_collision_char(fb, byte, x0, y0, r, k - 1);
        if bit_of(byte, k - 1) {
            lemma_draw_bits_pointwise(fb, byte, x0, y0, r, k - 1, cell_index(x0, y0, r, k - 1));
            lemma_bit_hit_excludes(byte, x0, y0, r, k - 1, k - 1);
        }
    }
}

/// Two framebuffers that agree on every cell of one sprite row's eight
/// target cells make that row report the same collision.
proof fn lemma_bit_hit_on_set_agree(fb1: Seq<bool>, fb2: Seq<bool>, byte: u8, x0: int, y0: int, r: int, k: int)
    requires
        0 <= k <= 8,
        forall|b: int| 0 <= b < 8 ==> fb1[#[trigger] cell_index(x0, y0, r, b)] == fb2[cell_index(
            x0, y0, r, b)],
    ensures
        bit_hit_on_set(fb1, byte, x0, y0, r, k) == bit_hit_on_set(fb2, byte, x0, y0, r, k),
    decreases k,
{
    if k > 0 {
        lemma_bit_hit_on_set_agree(fb1, fb2, byte, x0, y0, r, k - 1);
    }
}

/// The collision a whole draw reports is exactly some set sprite bit
/// falling on a cell that was set before the draw began.
pub proof fn lemma_rows_collision_char(fb: Seq<bool>, mem: Seq<u8>, index: u16, x0: int, y0: int, k: int)
    requires
        fb.len() == DISPLAY_CELLS,
        0 <= x0 < DISPLAY_WIDTH,
        0 <= y0 < DISPLAY_HEIGHT,
        0 <= k <= 16,
    ensures
        rows_collision(fb, mem, index, x0, y0, k) == row_hit_on_set(fb, mem, index, x0, y0, k),
    decreases k,
{
    if k > 0 {
        lemma_rows_collision_char(fb, mem, index, x0, y0, k - 1);
        let prev = draw_rows(fb, mem, index, x0, y0, k - 1);
        let byte = mem[spec_mem_addr(index, k - 1)];
        lemma_draw_rows_len(fb, mem, index, x0, y0, k - 1);
        lemma_bits_collision_char(prev, byte, x0, y0, k - 1, 8);
        assert forall|b: int| 0 <= b < 8 implies prev[#[trigger] cell_index(x0, y0, k - 1, b)]
            == fb[cell_index(x0, y0, k - 1, b)] by {
            lemma_draw_rows_pointwise(fb, mem, index, x0, y0, k - 1, cell_index(x0, y0, k - 1, b));
            lemma_row_hit_excludes(mem, index, x0, y0, k - 1, k - 1, cell_index(x0, y0, k - 1, b));
        }
        lemma_bit_hit_on_set_agree(prev, fb, byte, x0, y0, k - 1, 8);
    }
}

/// Draw xor and collision: drawing the same sprite twice at the same
/// coordinates restores the framebuffer to its state before the first draw,
/// and the second draw reports a collision exactly when some set sprite bit
/// touches a cell the first draw left set.
pub proof fn lemma_draw_twice(fb: Seq<bool>, mem: Seq<u8>, index: u16, x0: int, y0: int, n: int)
    requires
        fb.len() == DISPLAY_CELLS,
        0 <= x0 < DISPLAY_WIDTH,
        0 <= y0 < DISPLAY_HEIGHT,
        0 <= n <= 16,
    ensures
        draw_rows(draw_rows(fb, mem, index, x0, y0, n), mem, index, x0, y0, n) == fb,
        rows_collision(draw_rows(fb, mem, index, x0, y0, n), mem, index, x0, y0, n)
            == row_hit_on_set(draw_rows(fb, mem, index, x0, y0, n), mem, index, x0, y0, n),
{
    let fb2 = draw_rows(fb, mem, index, x0, y0, n);
    lemma_draw_rows_len(fb, mem, index, x0, y0, n);
    assert forall|c: int| 0 <= c < DISPLAY_CELLS implies draw_rows(
        fb2, mem, index, x0, y0, n)[c] == fb[c] by {
        lemma_draw_rows_pointwise(fb, mem, index, x0, y0, n, c);
        lemma_draw_rows_pointwise(fb2, mem, index, x0, y0, n, c);
    }
    lemma_draw_rows_len(fb2, mem, index, x0, y0, n);
    assert(draw_rows(fb2, mem, index, x0, y0, n) =~= fb);
    lemma_rows_collision_char(fb2, mem, index, x0, y0, n);
}

} // verus!
