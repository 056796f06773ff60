//! Laws of the instruction semantics, stated and proved over the transition
//! functions and the step relation.

use vstd::prelude::*;

use crate::draw::draw_collides;
use crate::draw::draw_result;
use crate::draw::sprite_covers;
use crate::isa::Instr;
use crate::isa::TickOutcome;
use crate::state::MachineView;
use crate::trans::add_reg_tr;
use crate::trans::advanced;
use crate::trans::call_tr;
use crate::trans::can_fetch;
use crate::trans::decode_at;
use crate::trans::first_key;
use crate::trans::first_key_from;
use crate::trans::ret_tr;
use crate::trans::shl_tr;
use crate::trans::shr_tr;
use crate::trans::step_rel;
use crate::trans::sub_reg_tr;
use crate::trans::wait_key_tr;

verus! {

/// Register-to-register addition: for every pair of 8-bit values a = Vx and
/// b = Vy, the destination receives `(a + b) mod 256` and the flag register
/// becomes 1 exactly when `a + b >= 256`. (When the destination is the flag
/// register itself, the flag lands on top, as the machine prescribes.)
pub proof fn lemma_add_carry(m: MachineView, x: u8, y: u8)
    requires
        m.wf(),
        x < 16,
        y < 16,
    ensures
        m.regs[x as int] + m.regs[y as int] >= 256 ==> add_reg_tr(m, x, y).regs[15] == 1u8,
        m.regs[x as int] + m.regs[y as int] < 256 ==> add_reg_tr(m, x, y).regs[15] == 0u8,
        x != 15 ==> add_reg_tr(m, x, y).regs[x as int] == (m.regs[x as int] + m.regs[y as int])
            % 256,
{
}

/// Register-to-register subtraction: for every pair of 8-bit values a = Vx
/// and b = Vy, the flag register becomes 1 exactly when no borrow occurs
/// (`a >= b`), and the destination receives `(a - b) mod 256`.
pub proof fn lemma_sub_borrow(m: MachineView, x: u8, y: u8)
    requires
        m.wf(),
        x < 16,
        y < 16,
    ensures
        m.regs[x as int] >= m.regs[y as int] ==> sub_reg_tr(m, x, y).regs[15] == 1u8,
        m.regs[x as int] < m.regs[y as int] ==> sub_reg_tr(m, x, y).regs[15] == 0u8,
        x != 15 ==> sub_reg_tr(m, x, y).regs[x as int] == (m.regs[x as int] - m.regs[y as int]
            + 256) % 256,
{
}

/// The shifts set the flag register to the bit shifted out — the low bit
/// for a right shift, the high bit for a left shift — independent of the
/// shifted value that lands in the destination.
pub proof fn lemma_shift_flag(m: MachineView, x: u8)
    requires
        m.wf(),
        x < 16,
    ensures
        shr_tr(m, x).regs[15] == m.regs[x as int] % 2,
        shl_tr(m, x).regs[15] == m.regs[x as int] / 128,
        x != 15 ==> shr_tr(m, x).regs[x as int] == m.regs[x as int] / 2,
        x != 15 ==> shl_tr(m, x).regs[x as int] == (m.regs[x as int] * 2) % 256,
{
}

/// A call followed by a return restores the machine exactly: the program
/// counter comes back to the instruction after the call and the stack is as
/// it was.
pub proof fn lemma_call_ret_round_trip(m: MachineView, addr: u16)
    requires
        m.stack.len() < 16,
    ensures
        ret_tr(call_tr(m, addr)) == m,
{
    assert(call_tr(m, addr).stack.last() == m.pc);
    assert(call_tr(m, addr).stack.drop_last() =~= m.stack);
    assert(ret_tr(call_tr(m, addr)) =~= m);
}

/// The same round trip at the step level: when the word at the program
/// counter is a call, the word at the called address is a return, and both
/// steps run without fault, the program counter ends on the instruction
/// after the call and the stack is untouched.
pub proof fn lemma_call_ret_steps(
    m: MachineView,
    m1: MachineView,
    m2: MachineView,
    addr: u16,
)
    requires
        m.wf(),
        can_fetch(m),
        decode_at(m) == Instr::Call(addr),
        m.stack.len() < 16,
        step_rel(m, m1, TickOutcome::Continue),
        can_fetch(m1),
        decode_at(m1) == Instr::Ret,
        step_rel(m1, m2, TickOutcome::Continue),
    ensures
        m2.pc == m.pc + 2,
        m2.stack == m.stack,
{
    assert(m1 == call_tr(advanced(m), addr));
    assert(m2 == ret_tr(advanced(m1)));
    assert(advanced(m1).stack.last() == m.pc + 2);
    assert(advanced(m1).stack.drop_last() =~= m.stack);
}

/// Drawing the same sprite twice restores every pixel: XOR is its own
/// inverse, so the second draw undoes the first. And if the first draw
/// turned some pixel on, the second draw reports a collision.
pub proof fn lemma_draw_twice(disp: Seq<bool>, mem: Seq<u8>, i: int, x0: int, y0: int, n: int)
    requires
        disp.len() == 2048,
        0 <= x0 < 64,
        0 <= y0 < 32,
        0 <= n < 16,
    ensures
        draw_result(draw_result(disp, mem, i, x0, y0, n), mem, i, x0, y0, n) == disp,
        (exists|idx: int|
            0 <= idx < 2048 && sprite_covers(mem, i, x0, y0, n, idx) && !disp[idx])
            ==> draw_collides(draw_result(disp, mem, i, x0, y0, n), mem, i, x0, y0, n),
{
    let once = draw_result(disp, mem, i, x0, y0, n);
    assert(draw_result(once, mem, i, x0, y0, n) =~= disp);
    if exists|idx: int| 0 <= idx < 2048 && sprite_covers(mem, i, x0, y0, n, idx) && !disp[idx] {
        let idx = choose|idx: int|
            0 <= idx < 2048 && sprite_covers(mem, i, x0, y0, n, idx) && !disp[idx];
        let (r, c) = choose|r: int, c: int|
            0 <= r < n && 0 <= c < 8 && crate::draw::sprite_bit(mem[i + r], c)
                && crate::draw::pix_index(x0, y0, r, c) == idx;
        crate::draw::lemma_pix_index_in_range(x0, y0, r, c);
        assert(once[idx]);
        assert(draw_collides(once, mem, i, x0, y0, n));
    }
}

/// All keys up: no key from `k` on is the first pressed one.
proof fn lemma_no_first_key(keys: Seq<bool>, k: int)
    requires
        keys.len() == 16,
        0 <= k <= 16,
        forall|j: int| k <= j < 16 ==> !keys[j],
    ensures
        first_key_from(keys, k) == 16,
    decreases 16 - k,
{
    if k < 16 {
        lemma_no_first_key(keys, k + 1);
    }
}

/// The key-wait instruction makes no progress while no key is pressed: a
/// step on it leaves the machine exactly as it was, so the same instruction
/// is fetched again on the next step.
pub proof fn lemma_wait_key_no_progress(m: MachineView, m1: MachineView, x: u8)
    requires
        m.wf(),
        can_fetch(m),
        decode_at(m) == Instr::WaitKey(x),
        forall|j: int| 0 <= j < 16 ==> !m.keys[j],
        step_rel(m, m1, TickOutcome::Continue),
    ensures
        m1 == m,
{
    lemma_no_first_key(m.keys, 0);
    assert(m1 == wait_key_tr(advanced(m), x));
    assert(m1 =~= m);
}

/// With some key from `k` on pressed, the first pressed index from `k` is a
/// pressed key below 16 with nothing pressed before it.
proof fn lemma_first_key_found(keys: Seq<bool>, k: int)
    requires
        keys.len() == 16,
        0 <= k <= 16,
        exists|j: int| k <= j < 16 && keys[j],
    ensures
        k <= first_key_from(keys, k) < 16,
        keys[first_key_from(keys, k)],
        forall|j: int| k <= j < first_key_from(keys, k) ==> !keys[j],
    decreases 16 - k,
{
    if !keys[k] {
        let j0 = choose|j: int| k <= j < 16 && keys[j];
        assert(k + 1 <= j0 < 16 && keys[j0]);
        lemma_first_key_found(keys, k + 1);
    }
}

/// Once a key is pressed, a step on the key-wait instruction advances past
/// it and records the lowest pressed key's index in the destination.
pub proof fn lemma_wait_key_records(m: MachineView, m1: MachineView, x: u8)
    requires
        m.wf(),
        can_fetch(m),
        decode_at(m) == Instr::WaitKey(x),
        x < 16,
        exists|j: int| 0 <= j < 16 && m.keys[j],
        step_rel(m, m1, TickOutcome::Continue),
    ensures
        m1.pc == m.pc + 2,
        m1.regs[x as int] == first_key(m.keys),
        m.keys[first_key(m.keys)],
        forall|j: int| 0 <= j < first_key(m.keys) ==> !m.keys[j],
{
    lemma_first_key_found(m.keys, 0);
    assert(m1 == crate::trans::set_reg(advanced(m), x, first_key(m.keys) as u8));
}

/// Apart from the masked random byte of Cxkk, the step relation admits only
/// one outcome: the state after a step and what the step reports are
/// functions of the state before it.
pub proof fn lemma_step_deterministic(
    pre: MachineView,
    p1: MachineView,
    r1: TickOutcome,
    p2: MachineView,
    r2: TickOutcome,
)
    requires
        step_rel(pre, p1, r1),
        step_rel(pre, p2, r2),
        can_fetch(pre) ==> !(decode_at(pre) is RandMask),
    ensures
        p1 == p2,
        r1 == r2,
{
}

} // verus!
