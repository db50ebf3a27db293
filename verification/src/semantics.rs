use vstd::prelude::*;
use crate::decode::op_family;
use crate::decode::op_x;
use crate::decode::op_y;
use crate::decode::op_n;
use crate::decode::op_kk;
use crate::decode::op_nnn;
use crate::draw::collision;
use crate::draw::draw_video;
use crate::state::VmError;
use crate::state::VmState;
use vstd::wrapping::u16_specs;
use vstd::wrapping::u8_specs;

verus! {

// The meaning of each instruction, one spec function per opcode pattern.
// Every function takes the state as it stands right after the fetch: the
// opcode in `op` and the program counter already advanced past it. The
// executable handlers promise to produce exactly these states.

/// `00E0`: clear the display.
pub open spec fn eff_00e0(s: VmState) -> VmState {
    VmState { video: Seq::new(2048, |p: int| 0u32), ..s }
}

/// `00EE`: pop the stack into the program counter.
pub open spec fn eff_00ee(s: VmState) -> VmState {
    VmState { sp: (s.sp - 1) as u8, pc: s.stack[s.sp - 1], ..s }
}

/// `1nnn`: jump.
pub open spec fn eff_1nnn(s: VmState) -> VmState {
    VmState { pc: op_nnn(s.op), ..s }
}

/// `2nnn`: push the program counter, then jump.
pub open spec fn eff_2nnn(s: VmState) -> VmState {
    VmState { stack: s.stack.update(s.sp as int, s.pc), sp: (s.sp + 1) as u8, pc: op_nnn(s.op), ..s }
}

/// `3xkk`: skip the next instruction if Vx equals the byte operand.
pub open spec fn eff_3xkk(s: VmState) -> VmState {
    if s.regs[op_x(s.op) as int] == op_kk(s.op) {
        VmState { pc: (s.pc + 2) as u16, ..s }
    } else {
        s
    }
}

/// `4xkk`: skip the next instruction if Vx differs from the byte operand.
pub open spec fn eff_4xkk(s: VmState) -> VmState {
    if s.regs[op_x(s.op) as int] != op_kk(s.op) {
        VmState { pc: (s.pc + 2) as u16, ..s }
    } else {
        s
    }
}

/// `5xy0`: skip the next instruction if Vx equals Vy.
pub open spec fn eff_5xy0(s: VmState) -> VmState {
    if s.regs[op_x(s.op) as int] == s.regs[op_y(s.op) as int] {
        VmState { pc: (s.pc + 2) as u16, ..s }
    } else {
        s
    }
}

/// `6xkk`: load the byte operand into Vx.
pub open spec fn eff_6xkk(s: VmState) -> VmState {
    VmState { regs: s.regs.update(op_x(s.op) as int, op_kk(s.op)), ..s }
}

/// `7xkk`: add the byte operand to Vx with 8-bit wraparound; no flag.
pub open spec fn eff_7xkk(s: VmState) -> VmState {
    VmState {
        regs: s.regs.update(op_x(s.op) as int, u8_specs::wrapping_add(s.regs[op_x(s.op) as int], op_kk(s.op))),
        ..s
    }
}

/// `8xy0`: copy Vy into Vx.
pub open spec fn eff_8xy0(s: VmState) -> VmState {
    VmState { regs: s.regs.update(op_x(s.op) as int, s.regs[op_y(s.op) as int]), ..s }
}

/// `8xy1`: bitwise OR of Vy into Vx.
pub open spec fn eff_8xy1(s: VmState) -> VmState {
    let x = op_x(s.op) as int;
    VmState { regs: s.regs.update(x, s.regs[x] | s.regs[op_y(s.op) as int]), ..s }
}

/// `8xy2`: bitwise AND of Vy into Vx.
pub open spec fn eff_8xy2(s: VmState) -> VmState {
    let x = op_x(s.op) as int;
    VmState { regs: s.regs.update(x, s.regs[x] & s.regs[op_y(s.op) as int]), ..s }
}

/// `8xy3`: bitwise XOR of Vy into Vx.
pub open spec fn eff_8xy3(s: VmState) -> VmState {
    let x = op_x(s.op) as int;
    VmState { regs: s.regs.update(x, s.regs[x] ^ s.regs[op_y(s.op) as int]), ..s }
}

/// `8xy4`: add Vy to Vx; VF reports the carry, then Vx takes the wrapped
/// sum of the values the instruction started from.
pub open spec fn eff_8xy4(s: VmState) -> VmState {
    let x = op_x(s.op) as int;
    let y = op_y(s.op) as int;
    let carry: u8 = if s.regs[x] + s.regs[y] > 255 { 1 } else { 0 };
    let r1 = s.regs.update(15, carry);
    VmState { regs: r1.update(x, u8_specs::wrapping_add(s.regs[x], s.regs[y])), ..s }
}

/// `8xy5`: VF reports whether Vx exceeded Vy, then Vx takes the wrapping
/// difference, reading the registers after the flag write (so `x = F`
/// subtracts from the fresh flag, as the machine does).
pub open spec fn eff_8xy5(s: VmState) -> VmState {
    let x = op_x(s.op) as int;
    let y = op_y(s.op) as int;
    let borrow: u8 = if s.regs[x] > s.regs[y] { 1 } else { 0 };
    let r1 = s.regs.update(15, borrow);
    VmState { regs: r1.update(x, u8_specs::wrapping_sub(r1[x], r1[y])), ..s }
}

/// `8xy6`: VF takes the low bit of Vx, then Vx is shifted right once,
/// reading the register after the flag write.
pub open spec fn eff_8xy6(s: VmState) -> VmState {
    let x = op_x(s.op) as int;
    let r1 = s.regs.update(15, s.regs[x] & 0x01);
    VmState { regs: r1.update(x, r1[x] >> 1), ..s }
}

/// `8xy7`: VF reports whether Vy exceeded Vx, then Vx takes the wrapping
/// difference Vy - Vx, reading the registers after the flag write.
pub open spec fn eff_8xy7(s: VmState) -> VmState {
    let x = op_x(s.op) as int;
    let y = op_y(s.op) as int;
    let borrow: u8 = if s.regs[y] > s.regs[x] { 1 } else { 0 };
    let r1 = s.regs.update(15, borrow);
    VmState { regs: r1.update(x, u8_specs::wrapping_sub(r1[y], r1[x])), ..s }
}

/// `8xyE`: VF takes the high bit of Vx, then Vx is shifted left once with
/// 8-bit truncation, reading the register after the flag write.
pub open spec fn eff_8xye(s: VmState) -> VmState {
    let x = op_x(s.op) as int;
    let r1 = s.regs.update(15, (s.regs[x] & 0x80) >> 7);
    VmState { regs: r1.update(x, r1[x] << 1), ..s }
}

/// `9xy0`: skip the next instruction if Vx differs from Vy.
pub open spec fn eff_9xy0(s: VmState) -> VmState {
    if s.regs[op_x(s.op) as int] != s.regs[op_y(s.op) as int] {
        VmState { pc: (s.pc + 2) as u16, ..s }
    } else {
        s
    }
}

/// `Annn`: load the address operand into the index register.
pub open spec fn eff_annn(s: VmState) -> VmState {
    VmState { index: op_nnn(s.op), ..s }
}

/// `Bnnn`: jump to the address operand plus V0.
pub open spec fn eff_bnnn(s: VmState) -> VmState {
    VmState { pc: (s.regs[0] + op_nnn(s.op)) as u16, ..s }
}

/// `Cxkk`: Vx takes the byte operand masked with a random byte. The random
/// byte is a parameter here; the handler promises only that some byte was
/// used.
pub open spec fn eff_cxkk(s: VmState, rnd: u8) -> VmState {
    VmState { regs: s.regs.update(op_x(s.op) as int, op_kk(s.op) & rnd), ..s }
}

/// `Dxyn`: draw an n-row sprite from memory at the index register to
/// position (Vx mod 64, Vy mod 32), toggling pixels; VF reports whether any
/// toggle hit a pixel that was already on.
pub open spec fn eff_dxyn(s: VmState) -> VmState {
    let base = s.index as int;
    let n = op_n(s.op) as int;
    let xpos = (s.regs[op_x(s.op) as int] % 64) as int;
    let ypos = (s.regs[op_y(s.op) as int] % 32) as int;
    VmState {
        regs: s.regs.update(15, if collision(s.video, s.mem, base, n, xpos, ypos) { 1u8 } else { 0u8 }),
        video: draw_video(s.video, s.mem, base, n, xpos, ypos),
        ..s
    }
}

/// `Ex9E`: skip the next instruction if the key Vx names is down.
pub open spec fn eff_ex9e(s: VmState) -> VmState {
    if s.keys[s.regs[op_x(s.op) as int] as int] == 1 {
        VmState { pc: (s.pc + 2) as u16, ..s }
    } else {
        s
    }
}

/// `ExA1`: skip the next instruction if the key Vx names is up.
pub open spec fn eff_exa1(s: VmState) -> VmState {
    if s.keys[s.regs[op_x(s.op) as int] as int] != 1 {
        VmState { pc: (s.pc + 2) as u16, ..s }
    } else {
        s
    }
}

/// `Fx07`: Vx takes the delay timer.
pub open spec fn eff_fx07(s: VmState) -> VmState {
    VmState { regs: s.regs.update(op_x(s.op) as int, s.delay), ..s }
}

/// The lowest key index at or above `i` whose key is down, if any.
pub open spec fn first_down_from(keys: Seq<u8>, i: int) -> Option<u8>
    decreases 16 - i,
{
    if !(0 <= i < 16) {
        None
    } else if keys[i] == 1 {
        Some(i as u8)
    } else {
        first_down_from(keys, i + 1)
    }
}

/// `Fx0A`: if some key is down, Vx takes the lowest such index; otherwise
/// the program counter rewinds by 2 so the same instruction runs again next
/// cycle.
pub open spec fn eff_fx0a(s: VmState) -> VmState {
    match first_down_from(s.keys, 0) {
        Some(k) => VmState { regs: s.regs.update(op_x(s.op) as int, k), ..s },
        None => VmState { pc: (s.pc - 2) as u16, ..s },
    }
}

/// `Fx15`: the delay timer takes Vx.
pub open spec fn eff_fx15(s: VmState) -> VmState {
    VmState { delay: s.regs[op_x(s.op) as int], ..s }
}

/// `Fx18`: the sound timer takes Vx.
pub open spec fn eff_fx18(s: VmState) -> VmState {
    VmState { sound: s.regs[op_x(s.op) as int], ..s }
}

/// `Fx1E`: the index register takes I + Vx with 16-bit wraparound; no flag.
pub open spec fn eff_fx1e(s: VmState) -> VmState {
    VmState { index: u16_specs::wrapping_add(s.index, s.regs[op_x(s.op) as int] as u16), ..s }
}

/// `Fx29`: the index register points at the glyph for the digit in Vx.
pub open spec fn eff_fx29(s: VmState) -> VmState {
    VmState { index: (0x50 + 5 * s.regs[op_x(s.op) as int]) as u16, ..s }
}

/// `Fx33`: the three decimal digits of Vx go to memory at I, I+1, I+2.
pub open spec fn eff_fx33(s: VmState) -> VmState {
    let i = s.index as int;
    let v = s.regs[op_x(s.op) as int];
    VmState {
        mem: s.mem.update(i, (v / 100) as u8).update(i + 1, ((v / 10) % 10) as u8).update(i + 2, (v % 10) as u8),
        ..s
    }
}

/// `Fx55`: registers V0 up to but not including Vx go to memory starting at
/// the index register.
pub open spec fn eff_fx55(s: VmState) -> VmState {
    let i = s.index as int;
    let x = op_x(s.op) as int;
    VmState {
        mem: Seq::new(4096, |a: int| if i <= a < i + x { s.regs[a - i] } else { s.mem[a] }),
        ..s
    }
}

/// `Fx65`: memory starting at the index register goes to registers V0 up to
/// but not including Vx.
pub open spec fn eff_fx65(s: VmState) -> VmState {
    let i = s.index as int;
    let x = op_x(s.op) as int;
    VmState {
        regs: Seq::new(16, |j: int| if j < x { s.mem[i + j] } else { s.regs[j] }),
        ..s
    }
}

/// One timer tick: each timer counts down by one, floored at zero.
pub open spec fn tick(s: VmState) -> VmState {
    VmState {
        delay: if s.delay > 0 { (s.delay - 1) as u8 } else { 0 },
        sound: if s.sound > 0 { (s.sound - 1) as u8 } else { 0 },
        ..s
    }
}

/// The big-endian opcode word at address `pc`.
pub open spec fn fetch16(mem: Seq<u8>, pc: int) -> u16 {
    ((mem[pc] as u16) << 8) | (mem[pc + 1] as u16)
}

/// Dispatch of one already-fetched opcode: the matching instruction effect,
/// or the state unchanged for an opcode the machine does not know.
pub open spec fn dispatch(mid: VmState, rnd: u8) -> VmState {
    let op = mid.op;
    let fam = op_family(op);
    let low = op & 0x00FF;
    let sub = op & 0x000F;
    if fam == 0x0 {
        if low == 0xE0 {
            eff_00e0(mid)
        } else if low == 0xEE {
            eff_00ee(mid)
        } else {
            mid
        }
    } else if fam == 0x1 {
        eff_1nnn(mid)
    } else if fam == 0x2 {
        eff_2nnn(mid)
    } else if fam == 0x3 {
        eff_3xkk(mid)
    } else if fam == 0x4 {
        eff_4xkk(mid)
    } else if fam == 0x5 {
        eff_5xy0(mid)
    } else if fam == 0x6 {
        eff_6xkk(mid)
    } else if fam == 0x7 {
        eff_7xkk(mid)
    } else if fam == 0x8 {
        if sub == 0x0 {
            eff_8xy0(mid)
        } else if sub == 0x1 {
            eff_8xy1(mid)
        } else if sub == 0x2 {
            eff_8xy2(mid)
        } else if sub == 0x3 {
            eff_8xy3(mid)
        } else if sub == 0x4 {
            eff_8xy4(mid)
        } else if sub == 0x5 {
            eff_8xy5(mid)
        } else if sub == 0x6 {
            eff_8xy6(mid)
        } else if sub == 0x7 {
            eff_8xy7(mid)
        } else if sub == 0xE {
            eff_8xye(mid)
        } else {
            mid
        }
    } else if fam == 0x9 {
        eff_9xy0(mid)
    } else if fam == 0xA {
        eff_annn(mid)
    } else if fam == 0xB {
        eff_bnnn(mid)
    } else if fam == 0xC {
        eff_cxkk(mid, rnd)
    } else if fam == 0xD {
        eff_dxyn(mid)
    } else if fam == 0xE {
        if low == 0x9E {
            eff_ex9e(mid)
        } else if low == 0xA1 {
            eff_exa1(mid)
        } else {
            mid
        }
    } else if fam == 0xF {
        if low == 0x07 {
            eff_fx07(mid)
        } else if low == 0x0A {
            eff_fx0a(mid)
        } else if low == 0x15 {
            eff_fx15(mid)
        } else if low == 0x18 {
            eff_fx18(mid)
        } else if low == 0x1E {
            eff_fx1e(mid)
        } else if low == 0x29 {
            eff_fx29(mid)
        } else if low == 0x33 {
            eff_fx33(mid)
        } else if low == 0x55 {
            eff_fx55(mid)
        } else if low == 0x65 {
            eff_fx65(mid)
        } else {
            mid
        }
    } else {
        mid
    }
}

/// The state right after the fetch: the opcode recorded and the program
/// counter advanced past it, before any dispatch.
pub open spec fn after_fetch(pre: VmState) -> VmState {
    VmState { op: fetch16(pre.mem, pre.pc as int), pc: (pre.pc + 2) as u16, ..pre }
}

/// One whole cycle: fetch, advance, dispatch, then tick both timers. `rnd`
/// is the byte the random source would hand a `Cxkk` instruction; every
/// other opcode ignores it.
pub open spec fn step(pre: VmState, rnd: u8) -> VmState {
    tick(dispatch(after_fetch(pre), rnd))
}

/// The fault a cycle from `pre` would report, if any. Every fault is
/// detected before any state changes: a fetch past the end of memory, a
/// call with the stack full, a return with it empty, a sprite or register
/// transfer that would run past the end of memory, or a keypad test naming
/// a key above 15.
pub open spec fn cycle_fault(pre: VmState) -> Option<VmError> {
    if pre.pc + 1 >= 4096 {
        Some(VmError::MemoryOutOfBounds)
    } else {
        let op = fetch16(pre.mem, pre.pc as int);
        let fam = op_family(op);
        let low = op & 0x00FF;
        let x = op_x(op) as int;
        if fam == 0x0 && low == 0xEE && pre.sp == 0 {
            Some(VmError::StackUnderflow)
        } else if fam == 0x2 && pre.sp == 16 {
            Some(VmError::StackOverflow)
        } else if fam == 0xD && op_n(op) > 0 && pre.index + op_n(op) > 4096 {
            Some(VmError::MemoryOutOfBounds)
        } else if fam == 0xE && (low == 0x9E || low == 0xA1) && pre.regs[x] >= 16 {
            Some(VmError::KeyOutOfRange)
        } else if fam == 0xF && low == 0x33 && pre.index + 3 > 4096 {
            Some(VmError::MemoryOutOfBounds)
        } else if fam == 0xF && (low == 0x55 || low == 0x65) && op_x(op) > 0 && pre.index + op_x(op) > 4096 {
            Some(VmError::MemoryOutOfBounds)
        } else {
            None
        }
    }
}

} // verus!
