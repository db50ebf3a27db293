use vstd::prelude::*;
use crate::decode::lemma_field_bounds;
use crate::decode::op_family;
use crate::decode::op_nnn;
use crate::decode::op_x;
use crate::draw::collision;
use crate::draw::draw_video;
use crate::draw::flip;
use crate::draw::hit;
use crate::draw::lemma_pixel_index;
use crate::semantics::eff_00ee;
use crate::semantics::eff_2nnn;
use crate::semantics::eff_fx55;
use crate::semantics::eff_fx65;
use crate::semantics::fetch16;
use crate::semantics::step;
use crate::state::VmState;

verus! {

/// Storing registers to memory and loading them back restores them: after
/// a register dump followed by a register load with the same `x` operand
/// and the same index register, every register holds its old value again.
pub proof fn lemma_store_load_round_trip(s: VmState)
    requires
        s.inv(),
        op_x(s.op) == 0 || s.index + op_x(s.op) <= 4096,
    ensures
        eff_fx65(eff_fx55(s)).regs == s.regs,
{
    lemma_field_bounds(s.op);
    let t = eff_fx55(s);
    assert(eff_fx65(t).regs =~= s.regs);
}

/// Drawing the same sprite twice at the same position is the identity on
/// the display: the toggles of the second draw undo those of the first.
/// And if some drawn, set sprite bit fell on a pixel that was off, that
/// pixel is on after the first draw, so the second draw reports a
/// collision.
pub proof fn lemma_draw_twice(d: Seq<u32>, mem: Seq<u8>, base: int, n: int, xpos: int, ypos: int)
    requires
        d.len() == 2048,
        forall|p: int| 0 <= p < 2048 ==> d[p] == 0 || d[p] == 1,
    ensures
        draw_video(draw_video(d, mem, base, n, xpos, ypos), mem, base, n, xpos, ypos) == d,
        (exists|py: int, px: int|
            0 <= py < 32 && 0 <= px < 64 && #[trigger] hit(mem, base, n, xpos, ypos, py, px)
                && d[py * 64 + px] == 0)
            ==> collision(draw_video(d, mem, base, n, xpos, ypos), mem, base, n, xpos, ypos),
{
    let d1 = draw_video(d, mem, base, n, xpos, ypos);
    let d2 = draw_video(d1, mem, base, n, xpos, ypos);
    assert forall|p: int| 0 <= p < 2048 implies d2[p] == d[p] by {
        if hit(mem, base, n, xpos, ypos, p / 64, p % 64) {
            assert(d1[p] == flip(d[p]));
            assert(d2[p] == flip(flip(d[p])));
        }
    };
    assert(d2 =~= d);
    if exists|py: int, px: int|
        0 <= py < 32 && 0 <= px < 64 && #[trigger] hit(mem, base, n, xpos, ypos, py, px)
            && d[py * 64 + px] == 0 {
        let (py, px) = choose|py: int, px: int|
            0 <= py < 32 && 0 <= px < 64 && #[trigger] hit(mem, base, n, xpos, ypos, py, px)
                && d[py * 64 + px] == 0;
        lemma_pixel_index(py, px);
        assert(d1[py * 64 + px] == flip(d[py * 64 + px]));
        assert(d1[py * 64 + px] == 1);
        assert(collision(d1, mem, base, n, xpos, ypos));
    }
}

/// A call followed by a return lands right after the call: if the
/// instruction at the program counter is a call, and the instruction at the
/// called address is a return, two cycles later the program counter points
/// at the instruction immediately after the call.
pub proof fn lemma_call_return(s: VmState, r1: u8, r2: u8)
    requires
        s.inv(),
        s.pc + 1 < 4096,
        s.sp < 16,
        op_family(fetch16(s.mem, s.pc as int)) == 2,
        fetch16(s.mem, op_nnn(fetch16(s.mem, s.pc as int)) as int) == 0x00EE,
    ensures
        step(step(s, r1), r2).pc == s.pc + 2,
{
    let op = fetch16(s.mem, s.pc as int);
    lemma_field_bounds(op);
    let s1 = step(s, r1);
    assert(s1 == crate::semantics::tick(eff_2nnn(crate::semantics::after_fetch(s))));
    assert(s1.pc == op_nnn(op));
    assert(s1.sp == s.sp + 1);
    assert(s1.stack[s.sp as int] == s.pc + 2);
    assert(s1.mem == s.mem);
    let op2 = fetch16(s1.mem, s1.pc as int);
    assert(op2 == 0x00EE);
    assert((0x00EEu16 & 0xF000) >> 12 == 0) by (bit_vector);
    assert((0x00EEu16 & 0x00FF) == 0xEE) by (bit_vector);
    let s2 = step(s1, r2);
    assert(s2 == crate::semantics::tick(eff_00ee(crate::semantics::after_fetch(s1))));
    assert(s2.pc == s.pc + 2);
}

/// The timer floor: a cycle from a state whose delay timer is at most 1
/// leaves it at exactly 0, whatever instruction runs, so long as that
/// instruction is not the one that reloads the delay timer. The timer is an
/// unsigned byte, so it can never be negative, and further cycles from 0
/// keep it at 0.
pub proof fn lemma_timer_floor(s: VmState, rnd: u8)
    requires
        s.delay <= 1,
        !(op_family(fetch16(s.mem, s.pc as int)) == 0xF
            && fetch16(s.mem, s.pc as int) & 0x00FF == 0x15),
    ensures
        step(s, rnd).delay == 0,
{
}

} // verus!
