use vstd::prelude::*;
use crate::decode::lemma_field_bounds;
use crate::decode::op_kk;
use crate::decode::op_n;
use crate::decode::op_x;
use crate::decode::op_y;
use crate::draw::col_of;
use crate::draw::collision_upto;
use crate::draw::flip;
use crate::draw::hit_upto;
use crate::draw::lemma_pixel_index;
use crate::draw::lemma_row_rollover;
use crate::draw::lemma_wrap_mod;
use crate::draw::row_of;
use crate::draw::sprite_bit;
use crate::rng::random_byte;
use crate::semantics::eff_00e0;
use crate::semantics::eff_00ee;
use crate::semantics::eff_1nnn;
use crate::semantics::eff_2nnn;
use crate::semantics::eff_3xkk;
use crate::semantics::eff_4xkk;
use crate::semantics::eff_5xy0;
use crate::semantics::eff_6xkk;
use crate::semantics::eff_7xkk;
use crate::semantics::eff_8xy0;
use crate::semantics::eff_8xy1;
use crate::semantics::eff_8xy2;
use crate::semantics::eff_8xy3;
use crate::semantics::eff_8xy4;
use crate::semantics::eff_8xy5;
use crate::semantics::eff_8xy6;
use crate::semantics::eff_8xy7;
use crate::semantics::eff_8xye;
use crate::semantics::eff_9xy0;
use crate::semantics::eff_annn;
use crate::semantics::eff_bnnn;
use crate::semantics::eff_cxkk;
use crate::semantics::eff_dxyn;
use crate::semantics::eff_ex9e;
use crate::semantics::eff_exa1;
use crate::semantics::eff_fx07;
use crate::semantics::eff_fx0a;
use crate::semantics::eff_fx15;
use crate::semantics::eff_fx18;
use crate::semantics::eff_fx1e;
use crate::semantics::eff_fx29;
use crate::semantics::eff_fx33;
use crate::semantics::eff_fx55;
use crate::semantics::eff_fx65;
use crate::semantics::first_down_from;
use crate::state::Chip8;
use crate::state::VmState;

verus! {

/// A key is not down at index `i`, so the scan for the first down key gives
/// the same answer whether it starts at `i` or just past it.
proof fn lemma_first_down_skip(keys: Seq<u8>, i: int)
    requires
        0 <= i < 16,
        keys[i] != 1,
    ensures
        first_down_from(keys, i) == first_down_from(keys, i + 1),
{
}

// One executable handler per opcode pattern. Each one promises to leave the
// machine in exactly the state its spec-level effect describes, and each
// `requires` beyond well-formedness only rules out what would make the
// handler touch state that does not exist (an empty stack, an address past
// the end of memory); the cycle driver reports those as faults before it
// dispatches.
#[allow(non_snake_case)]
impl Chip8 {
    /// `00E0`: clear the display.
    pub fn OP_00E0(&mut self)
        requires
            old(self)@.inv(),
        ensures
            final(self)@.inv(),
            final(self)@ == eff_00e0(old(self)@),
            forall|p: int| 0 <= p < 2048 ==> final(self)@.video[p] == 0,
    {
        let mut p: usize = 0;
        while p < 2048
            invariant
                p <= 2048,
                self@.video.len() == 2048,
                forall|q: int| 0 <= q < p ==> self@.video[q] == 0,
                self@ == (VmState { video: self@.video, ..old(self)@ }),
            decreases 2048 - p,
        {
            self.video_memory.set(p, 0);
            p += 1;
        }
        assert(self@.video =~= eff_00e0(old(self)@).video);
        assert(self@ =~= eff_00e0(old(self)@));
    }

    /// `00EE`: pop the stack into the program counter.
    pub fn OP_00EE(&mut self)
        requires
            old(self)@.inv(),
            old(self)@.sp >= 1,
        ensures
            final(self)@.inv(),
            final(self)@ == eff_00ee(old(self)@),
    {
        self.stack_pointer -= 1;
        self.pc = self.stack[self.stack_pointer as usize];
        assert(self@ =~= eff_00ee(old(self)@));
    }

    /// `1nnn`: jump to the address operand.
    pub fn OP_1nnn(&mut self)
        requires
            old(self)@.inv(),
        ensures
            final(self)@.inv(),
            final(self)@ == eff_1nnn(old(self)@),
    {
        let address: u16 = self.current_op & 0x0FFF;
        self.pc = address;
        assert(self@ =~= eff_1nnn(old(self)@));
    }

    /// `2nnn`: push the program counter, then jump to the address operand.
    pub fn OP_2nnn(&mut self)
        requires
            old(self)@.inv(),
            old(self)@.sp < 16,
        ensures
            final(self)@.inv(),
            final(self)@ == eff_2nnn(old(self)@),
    {
        let address: u16 = self.current_op & 0x0FFF;
        self.stack.set(self.stack_pointer as usize, self.pc);
        self.stack_pointer += 1;
        self.pc = address;
        assert(self@ =~= eff_2nnn(old(self)@));
    }

    /// `3xkk`: skip the next instruction if Vx equals the byte operand.
    pub fn OP_3xkk(&mut self)
        requires
            old(self)@.inv(),
            old(self)@.pc + 2 <= 0xFFFF,
        ensures
            final(self)@.inv(),
            final(self)@ == eff_3xkk(old(self)@),
    {
        proof { lemma_field_bounds(self.current_op); }
        let x = ((self.current_op & 0x0F00) >> 8) as usize;
        let byte = (self.current_op & 0x00FF) as u8;
        if self.register[x] == byte {
            self.pc += 2;
        }
        assert(self@ =~= eff_3xkk(old(self)@));
    }

    /// `4xkk`: skip the next instruction if Vx differs from the byte operand.
    pub fn OP_4xkk(&mut self)
        requires
            old(self)@.inv(),
            old(self)@.pc + 2 <= 0xFFFF,
        ensures
            final(self)@.inv(),
            final(self)@ == eff_4xkk(old(self)@),
    {
        proof { lemma_field_bounds(self.current_op); }
        let x = ((self.current_op & 0x0F00) >> 8) as usize;
        let byte = (self.current_op & 0x00FF) as u8;
        if self.register[x] != byte {
            self.pc += 2;
        }
        assert(self@ =~= eff_4xkk(old(self)@));
    }

    /// `5xy0`: skip the next instruction if Vx equals Vy.
    pub fn OP_5xy0(&mut self)
        requires
            old(self)@.inv(),
            old(self)@.pc + 2 <= 0xFFFF,
        ensures
            final(self)@.inv(),
            final(self)@ == eff_5xy0(old(self)@),
    {
        proof { lemma_field_bounds(self.current_op); }
        let x = ((self.current_op & 0x0F00) >> 8) as usize;
        let y = ((self.current_op & 0x00F0) >> 4) as usize;
        if self.register[x] == self.register[y] {
            self.pc += 2;
        }
        assert(self@ =~= eff_5xy0(old(self)@));
    }

    /// `6xkk`: load the byte operand into Vx; every other register keeps
    /// its value.
    pub fn OP_6xkk(&mut self)
        requires
            old(self)@.inv(),
        ensures
            final(self)@.inv(),
            final(self)@ == eff_6xkk(old(self)@),
            final(self)@.regs[op_x(old(self)@.op) as int] == op_kk(old(self)@.op),
            forall|j: int| 0 <= j < 16 && j != op_x(old(self)@.op) as int
                ==> final(self)@.regs[j] == old(self)@.regs[j],
    {
        proof { lemma_field_bounds(self.current_op); }
        let x = ((self.current_op & 0x0F00) >> 8) as usize;
        let byte = (self.current_op & 0x00FF) as u8;
        self.register.set(x, byte);
        assert(self@ =~= eff_6xkk(old(self)@));
    }

    /// `7xkk`: add the byte operand to Vx with 8-bit wraparound; no flag.
    pub fn OP_7xkk(&mut self)
        requires
            old(self)@.inv(),
        ensures
            final(self)@.inv(),
            final(self)@ == eff_7xkk(old(self)@),
    {
        proof { lemma_field_bounds(self.current_op); }
        let x = ((self.current_op & 0x0F00) >> 8) as usize;
        let byte = (self.current_op & 0x00FF) as u8;
        let vx = self.register[x];
        self.register.set(x, vx.wrapping_add(byte));
        assert(self@ =~= eff_7xkk(old(self)@));
    }

    /// `8xy0`: copy Vy into Vx.
    pub fn OP_8xy0(&mut self)
        requires
            old(self)@.inv(),
        ensures
            final(self)@.inv(),
            final(self)@ == eff_8xy0(old(self)@),
    {
        proof { lemma_field_bounds(self.current_op); }
        let x = ((self.current_op & 0x0F00) >> 8) as usize;
        let y = ((self.current_op & 0x00F0) >> 4) as usize;
        let vy = self.register[y];
        self.register.set(x, vy);
        assert(self@ =~= eff_8xy0(old(self)@));
    }

    /// `8xy1`: bitwise OR of Vy into Vx.
    pub fn OP_8xy1(&mut self)
        requires
            old(self)@.inv(),
        ensures
            final(self)@.inv(),
            final(self)@ == eff_8xy1(old(self)@),
    {
        proof { lemma_field_bounds(self.current_op); }
        let x = ((self.current_op & 0x0F00) >> 8) as usize;
        let y = ((self.current_op & 0x00F0) >> 4) as usize;
        let v = self.register[x] | self.register[y];
        self.register.set(x, v);
        assert(self@ =~= eff_8xy1(old(self)@));
    }

    /// `8xy2`: bitwise AND of Vy into Vx.
    pub fn OP_8xy2(&mut self)
        requires
            old(self)@.inv(),
        ensures
            final(self)@.inv(),
            final(self)@ == eff_8xy2(old(self)@),
    {
        proof { lemma_field_bounds(self.current_op); }
        let x = ((self.current_op & 0x0F00) >> 8) as usize;
        let y = ((self.current_op & 0x00F0) >> 4) as usize;
        let v = self.register[x] & self.register[y];
        self.register.set(x, v);
        assert(self@ =~= eff_8xy2(old(self)@));
    }

    /// `8xy3`: bitwise XOR of Vy into Vx.
    pub fn OP_8xy3(&mut self)
        requires
            old(self)@.inv(),
        ensures
            final(self)@.inv(),
            final(self)@ == eff_8xy3(old(self)@),
    {
        proof { lemma_field_bounds(self.current_op); }
        let x = ((self.current_op & 0x0F00) >> 8) as usize;
        let y = ((self.current_op & 0x00F0) >> 4) as usize;
        let v = self.register[x] ^ self.register[y];
        self.register.set(x, v);
        assert(self@ =~= eff_8xy3(old(self)@));
    }

    /// `8xy4`: add Vy to Vx; VF takes the carry first, then Vx takes the
    /// wrapped sum of the values the instruction started from.
    pub fn OP_8xy4(&mut self)
        requires
            old(self)@.inv(),
        ensures
            final(self)@.inv(),
            final(self)@ == eff_8xy4(old(self)@),
    {
        proof { lemma_field_bounds(self.current_op); }
        let x = ((self.current_op & 0x0F00) >> 8) as usize;
        let y = ((self.current_op & 0x00F0) >> 4) as usize;
        let vx = self.register[x];
        let vy = self.register[y];
        let sum: u16 = vx as u16 + vy as u16;
        if sum > 255 {
            self.register.set(15, 1);
        } else {
            self.register.set(15, 0);
        }
        self.register.set(x, vx.wrapping_add(vy));
        assert(self@ =~= eff_8xy4(old(self)@));
    }

    /// `8xy5`: VF reports whether Vx exceeded Vy, then Vx takes the
    /// wrapping difference, re-reading the registers after the flag write.
    pub fn OP_8xy5(&mut self)
        requires
            old(self)@.inv(),
        ensures
            final(self)@.inv(),
            final(self)@ == eff_8xy5(old(self)@),
    {
        proof { lemma_field_bounds(self.current_op); }
        let x = ((self.current_op & 0x0F00) >> 8) as usize;
        let y = ((self.current_op & 0x00F0) >> 4) as usize;
        if self.register[x] > self.register[y] {
            self.register.set(15, 1);
        } else {
            self.register.set(15, 0);
        }
        let result = self.register[x].wrapping_sub(self.register[y]);
        self.register.set(x, result);
        assert(self@ =~= eff_8xy5(old(self)@));
    }

    /// `8xy6`: VF takes the low bit of Vx, then Vx is shifted right once,
    /// re-reading the register after the flag write.
    pub fn OP_8xy6(&mut self)
        requires
            old(self)@.inv(),
        ensures
            final(self)@.inv(),
            final(self)@ == eff_8xy6(old(self)@),
    {
        proof { lemma_field_bounds(self.current_op); }
        let x = ((self.current_op & 0x0F00) >> 8) as usize;
        let vx = self.register[x];
        self.register.set(15, vx & 0x01);
        let cur = self.register[x];
        self.register.set(x, cur >> 1);
        assert(self@ =~= eff_8xy6(old(self)@));
    }

    /// `8xy7`: VF reports whether Vy exceeded Vx, then Vx takes the
    /// wrapping difference Vy - Vx, re-reading after the flag write.
    pub fn OP_8xy7(&mut self)
        requires
            old(self)@.inv(),
        ensures
            final(self)@.inv(),
            final(self)@ == eff_8xy7(old(self)@),
    {
        proof { lemma_field_bounds(self.current_op); }
        let x = ((self.current_op & 0x0F00) >> 8) as usize;
        let y = ((self.current_op & 0x00F0) >> 4) as usize;
        if self.register[y] > self.register[x] {
            self.register.set(15, 1);
        } else {
            self.register.set(15, 0);
        }
        let result = self.register[y].wrapping_sub(self.register[x]);
        self.register.set(x, result);
        assert(self@ =~= eff_8xy7(old(self)@));
    }

    /// `8xyE`: VF takes the high bit of Vx, then Vx is shifted left once
    /// with 8-bit truncation, re-reading after the flag write.
    pub fn OP_8xye(&mut self)
        requires
            old(self)@.inv(),
        ensures
            final(self)@.inv(),
            final(self)@ == eff_8xye(old(self)@),
    {
        proof { lemma_field_bounds(self.current_op); }
        let x = ((self.current_op & 0x0F00) >> 8) as usize;
        let vx = self.register[x];
        self.register.set(15, (vx & 0x80) >> 7);
        let cur = self.register[x];
        self.register.set(x, cur << 1);
        assert(self@ =~= eff_8xye(old(self)@));
    }

    /// `9xy0`: skip the next instruction if Vx differs from Vy.
    pub fn OP_9xy0(&mut self)
        requires
            old(self)@.inv(),
            old(self)@.pc + 2 <= 0xFFFF,
        ensures
            final(self)@.inv(),
            final(self)@ == eff_9xy0(old(self)@),
    {
        proof { lemma_field_bounds(self.current_op); }
        let x = ((self.current_op & 0x0F00) >> 8) as usize;
        let y = ((self.current_op & 0x00F0) >> 4) as usize;
        if self.register[x] != self.register[y] {
            self.pc += 2;
        }
        assert(self@ =~= eff_9xy0(old(self)@));
    }

    /// `Annn`: load the address operand into the index register.
    pub fn OP_Annn(&mut self)
        requires
            old(self)@.inv(),
        ensures
            final(self)@.inv(),
            final(self)@ == eff_annn(old(self)@),
    {
        let address = self.current_op & 0x0FFF;
        self.index = address;
        assert(self@ =~= eff_annn(old(self)@));
    }

    /// `Bnnn`: jump to the address operand plus V0.
    pub fn OP_Bnnn(&mut self)
        requires
            old(self)@.inv(),
        ensures
            final(self)@.inv(),
            final(self)@ == eff_bnnn(old(self)@),
    {
        proof { lemma_field_bounds(self.current_op); }
        let address = self.current_op & 0x0FFF;
        self.pc = self.register[0] as u16 + address;
        assert(self@ =~= eff_bnnn(old(self)@));
    }

    /// `Cxkk`: Vx takes the byte operand masked with a byte from the random
    /// source. The contract promises exactly that for some byte; which byte
    /// came back is not observable in the state.
    pub fn OP_Cxkk(&mut self)
        requires
            old(self)@.inv(),
        ensures
            final(self)@.inv(),
            exists|rnd: u8| final(self)@ == eff_cxkk(old(self)@, rnd),
    {
        proof { lemma_field_bounds(self.current_op); }
        let x = ((self.current_op & 0x0F00) >> 8) as usize;
        let byte = (self.current_op & 0x00FF) as u8;
        let random = random_byte(&mut self.rng);
        self.register.set(x, byte & random);
        assert(self@ =~= eff_cxkk(old(self)@, random));
        assert(exists|rnd: u8| self@ == eff_cxkk(old(self)@, rnd));
    }

    /// `Dxyn`: draw an n-row sprite from memory at the index register to
    /// screen position (Vx mod 64, Vy mod 32). Each set sprite bit toggles
    /// its pixel, wrapping at the screen edges; VF reports whether any
    /// toggle hit a pixel that was already on.
    #[verifier::rlimit(50)]
    pub fn OP_Dxyn(&mut self)
        requires
            old(self)@.inv(),
            op_n(old(self)@.op) == 0 || old(self)@.index + op_n(old(self)@.op) <= 4096,
        ensures
            final(self)@.inv(),
            final(self)@ == eff_dxyn(old(self)@),
    {
        proof { lemma_field_bounds(self.current_op); }
        let vx = ((self.current_op & 0x0F00) >> 8) as usize;
        let vy = ((self.current_op & 0x00F0) >> 4) as usize;
        let height = (self.current_op & 0x000F) as usize;

        let xpos = (self.register[vx] % 64) as usize;
        let ypos = (self.register[vy] % 32) as usize;
        self.register.set(15, 0);

        let ghost d0 = old(self)@.video;
        let ghost mem0 = old(self)@.mem;
        let ghost base = old(self)@.index as int;
        let ghost xp = xpos as int;
        let ghost yp = ypos as int;

        let mut yline: usize = 0;
        while yline < height
            invariant
                yline <= height,
                height == op_n(old(self)@.op),
                height <= 15,
                height == 0 || base + height <= 4096,
                base == old(self)@.index,
                mem0 == old(self)@.mem,
                d0 == old(self)@.video,
                xp == xpos < 64,
                yp == ypos < 32,
                xpos == old(self)@.regs[op_x(old(self)@.op) as int] % 64,
                ypos == old(self)@.regs[op_y(old(self)@.op) as int] % 32,
                self.current_op == old(self)@.op,
                self@.inv(),
                self@ == (VmState { regs: self@.regs, video: self@.video, ..old(self)@ }),
                d0.len() == 2048,
                forall|j: int| 0 <= j < 16 && j != 15 ==> self@.regs[j] == old(self)@.regs[j],
                self@.regs[15] == (if collision_upto(d0, mem0, base, yline as int, 0, xp, yp) { 1u8 } else { 0u8 }),
                forall|p: int| 0 <= p < 2048 ==> self@.video[p]
                    == (if hit_upto(mem0, base, yline as int, 0, xp, yp, p / 64, p % 64) { flip(d0[p]) } else { d0[p] }),
            decreases height - yline,
        {
            let sprite_byte = self.memory[self.index as usize + yline];
            let mut xline: usize = 0;
            while xline < 8
                invariant
                    xline <= 8,
                    yline < height,
                    height == op_n(old(self)@.op),
                    height <= 15,
                    base + height <= 4096,
                    base == old(self)@.index,
                    mem0 == old(self)@.mem,
                    d0 == old(self)@.video,
                    xp == xpos < 64,
                    yp == ypos < 32,
                    xpos == old(self)@.regs[op_x(old(self)@.op) as int] % 64,
                    ypos == old(self)@.regs[op_y(old(self)@.op) as int] % 32,
                    self.current_op == old(self)@.op,
                    sprite_byte == mem0[base + yline],
                    self@.inv(),
                    self@ == (VmState { regs: self@.regs, video: self@.video, ..old(self)@ }),
                    d0.len() == 2048,
                    forall|j: int| 0 <= j < 16 && j != 15 ==> self@.regs[j] == old(self)@.regs[j],
                    self@.regs[15] == (if collision_upto(d0, mem0, base, yline as int, xline as int, xp, yp) { 1u8 } else { 0u8 }),
                    forall|p: int| 0 <= p < 2048 ==> self@.video[p]
                        == (if hit_upto(mem0, base, yline as int, xline as int, xp, yp, p / 64, p % 64) { flip(d0[p]) } else { d0[p] }),
                decreases 8 - xline,
            {
                let ghost r = yline as int;
                let ghost c = xline as int;
                let sprite_pixel = (sprite_byte >> ((7 - xline) as u8)) & 1;
                if sprite_pixel == 1 {
                    assert(sprite_bit(mem0, base, r, c));
                    let x = (xpos + xline) % 64;
                    let y = (ypos + yline) % 32;
                    proof {
                        lemma_wrap_mod((xpos + xline) as int, 64);
                        lemma_wrap_mod((ypos + yline) as int, 32);
                        lemma_pixel_index(y as int, x as int);
                    }
                    let p = y * 64 + x;
                    assert(row_of(yp, y as int) == r);
                    assert(col_of(xp, x as int) == c);
                    assert(!hit_upto(mem0, base, r, c, xp, yp, y as int, x as int));
                    assert(self@.video[p as int] == d0[p as int]);
                    let ghost was_on = d0[p as int] == 1;
                    if self.video_memory[p] == 1 {
                        self.register.set(15, 1);
                    }
                    let cur = self.video_memory[p];
                    self.video_memory.set(p, if cur == 0 { 1 } else { 0 });
                    proof {
                        // Every index other than p flattens to other coordinates,
                        // whose verdict this sprite bit does not change.
                        assert forall|q: int| 0 <= q < 2048 && q != p implies
                            #[trigger] hit_upto(mem0, base, r, c + 1, xp, yp, q / 64, q % 64)
                                == hit_upto(mem0, base, r, c, xp, yp, q / 64, q % 64) by {
                            vstd::arithmetic::div_mod::lemma_fundamental_div_mod(q, 64);
                            if row_of(yp, q / 64) == r && col_of(xp, q % 64) == c {
                                assert(q / 64 == y as int);
                                assert(q % 64 == x as int);
                                assert(q == p);
                            }
                        };
                        assert(hit_upto(mem0, base, r, c + 1, xp, yp, y as int, x as int));
                        assert(self@.video[p as int] == flip(d0[p as int]));
                        // The collision flag after this bit.
                        if was_on {
                            assert(hit_upto(mem0, base, r, c + 1, xp, yp, y as int, x as int) && d0[y as int * 64 + x as int] == 1);
                            assert(collision_upto(d0, mem0, base, r, c + 1, xp, yp));
                            assert(self@.regs[15] == 1);
                        } else {
                            if collision_upto(d0, mem0, base, r, c, xp, yp) {
                                let (py, px) = choose|py: int, px: int|
                                    0 <= py < 32 && 0 <= px < 64 && hit_upto(mem0, base, r, c, xp, yp, py, px) && d0[py * 64 + px] == 1;
                                assert(hit_upto(mem0, base, r, c + 1, xp, yp, py, px));
                                assert(collision_upto(d0, mem0, base, r, c + 1, xp, yp));
                            } else {
                                assert(!collision_upto(d0, mem0, base, r, c + 1, xp, yp)) by {
                                    if collision_upto(d0, mem0, base, r, c + 1, xp, yp) {
                                        let (py, px) = choose|py: int, px: int|
                                            0 <= py < 32 && 0 <= px < 64 && #[trigger] hit_upto(mem0, base, r, c + 1, xp, yp, py, px) && d0[py * 64 + px] == 1;
                                        if row_of(yp, py) == r && col_of(xp, px) == c {
                                            assert(py == y as int);
                                            assert(px == x as int);
                                            assert(was_on);
                                        } else {
                                            assert(hit_upto(mem0, base, r, c, xp, yp, py, px));
                                            assert(collision_upto(d0, mem0, base, r, c, xp, yp));
                                        }
                                    }
                                };
                            }
                        }
                    }
                } else {
                    proof {
                        assert(!sprite_bit(mem0, base, r, c));
                        assert forall|py: int, px: int|
                            #[trigger] hit_upto(mem0, base, r, c + 1, xp, yp, py, px)
                                == hit_upto(mem0, base, r, c, xp, yp, py, px) by {
                        };
                        if collision_upto(d0, mem0, base, r, c, xp, yp) {
                            let (py, px) = choose|py: int, px: int|
                                0 <= py < 32 && 0 <= px < 64 && hit_upto(mem0, base, r, c, xp, yp, py, px) && d0[py * 64 + px] == 1;
                            assert(hit_upto(mem0, base, r, c + 1, xp, yp, py, px));
                            assert(collision_upto(d0, mem0, base, r, c + 1, xp, yp));
                        } else {
                            assert(!collision_upto(d0, mem0, base, r, c + 1, xp, yp)) by {
                                if collision_upto(d0, mem0, base, r, c + 1, xp, yp) {
                                    let (py, px) = choose|py: int, px: int|
                                        0 <= py < 32 && 0 <= px < 64 && #[trigger] hit_upto(mem0, base, r, c + 1, xp, yp, py, px) && d0[py * 64 + px] == 1;
                                    assert(hit_upto(mem0, base, r, c, xp, yp, py, px));
                                    assert(collision_upto(d0, mem0, base, r, c, xp, yp));
                                }
                            };
                        }
                    }
                }
                xline += 1;
            }
            proof {
                lemma_row_rollover(d0, mem0, base, yline as int, xp, yp);
            }
            yline += 1;
        }
        assert(self@.video =~= eff_dxyn(old(self)@).video);
        assert(self@.regs =~= eff_dxyn(old(self)@).regs);
        assert(self@ =~= eff_dxyn(old(self)@));
    }

    /// `Ex9E`: skip the next instruction if the key Vx names is down.
    pub fn OP_Ex9E(&mut self)
        requires
            old(self)@.inv(),
            old(self)@.pc + 2 <= 0xFFFF,
            old(self)@.regs[op_x(old(self)@.op) as int] < 16,
        ensures
            final(self)@.inv(),
            final(self)@ == eff_ex9e(old(self)@),
    {
        proof { lemma_field_bounds(self.current_op); }
        let x = ((self.current_op & 0x0F00) >> 8) as usize;
        let key = self.register[x];
        if self.keypad[key as usize] == 1 {
            self.pc += 2;
        }
        assert(self@ =~= eff_ex9e(old(self)@));
    }

    /// `ExA1`: skip the next instruction if the key Vx names is up.
    pub fn OP_EXA1(&mut self)
        requires
            old(self)@.inv(),
            old(self)@.pc + 2 <= 0xFFFF,
            old(self)@.regs[op_x(old(self)@.op) as int] < 16,
        ensures
            final(self)@.inv(),
            final(self)@ == eff_exa1(old(self)@),
    {
        proof { lemma_field_bounds(self.current_op); }
        let x = ((self.current_op & 0x0F00) >> 8) as usize;
        let key = self.register[x];
        if self.keypad[key as usize] != 1 {
            self.pc += 2;
        }
        assert(self@ =~= eff_exa1(old(self)@));
    }

    /// `Fx07`: Vx takes the delay timer.
    pub fn OP_Fx07(&mut self)
        requires
            old(self)@.inv(),
        ensures
            final(self)@.inv(),
            final(self)@ == eff_fx07(old(self)@),
    {
        proof { lemma_field_bounds(self.current_op); }
        let x = ((self.current_op & 0x0F00) >> 8) as usize;
        let dt = self.delay_timer;
        self.register.set(x, dt);
        assert(self@ =~= eff_fx07(old(self)@));
    }

    /// `Fx0A`: if some key is down, Vx takes the lowest such index;
    /// otherwise the program counter rewinds by 2 so the same instruction
    /// runs again next cycle.
    pub fn OP_Fx0A(&mut self)
        requires
            old(self)@.inv(),
            old(self)@.pc >= 2,
        ensures
            final(self)@.inv(),
            final(self)@ == eff_fx0a(old(self)@),
    {
        proof { lemma_field_bounds(self.current_op); }
        let x = ((self.current_op & 0x0F00) >> 8) as usize;
        let mut key_pressed: Option<u8> = None;
        let mut i: usize = 0;
        while i < 16
            invariant
                i <= 16,
                self@ == old(self)@,
                self@.inv(),
                match key_pressed {
                    Some(k) => first_down_from(self@.keys, 0) == Some::<u8>(k),
                    None => first_down_from(self@.keys, 0) == first_down_from(self@.keys, i as int),
                },
            decreases 16 - i,
        {
            if self.keypad[i] == 1 && key_pressed.is_none() {
                key_pressed = Some(i as u8);
            } else {
                proof {
                    if key_pressed is None {
                        lemma_first_down_skip(self@.keys, i as int);
                    }
                }
            }
            i += 1;
        }
        match key_pressed {
            Some(key) => {
                self.register.set(x, key);
            }
            None => {
                self.pc -= 2;
            }
        }
        assert(self@ =~= eff_fx0a(old(self)@));
    }

    /// `Fx15`: the delay timer takes Vx.
    pub fn OP_Fx15(&mut self)
        requires
            old(self)@.inv(),
        ensures
            final(self)@.inv(),
            final(self)@ == eff_fx15(old(self)@),
    {
        proof { lemma_field_bounds(self.current_op); }
        let x = ((self.current_op & 0x0F00) >> 8) as usize;
        self.delay_timer = self.register[x];
        assert(self@ =~= eff_fx15(old(self)@));
    }

    /// `Fx18`: the sound timer takes Vx.
    pub fn OP_Fx18(&mut self)
        requires
            old(self)@.inv(),
        ensures
            final(self)@.inv(),
            final(self)@ == eff_fx18(old(self)@),
    {
        proof { lemma_field_bounds(self.current_op); }
        let x = ((self.current_op & 0x0F00) >> 8) as usize;
        self.sound_timer = self.register[x];
        assert(self@ =~= eff_fx18(old(self)@));
    }

    /// `Fx1E`: the index register takes I + Vx with 16-bit wraparound.
    pub fn OP_Fx1E(&mut self)
        requires
            old(self)@.inv(),
        ensures
            final(self)@.inv(),
            final(self)@ == eff_fx1e(old(self)@),
    {
        proof { lemma_field_bounds(self.current_op); }
        let x = ((self.current_op & 0x0F00) >> 8) as usize;
        let vx = self.register[x];
        self.index = self.index.wrapping_add(vx as u16);
        assert(self@ =~= eff_fx1e(old(self)@));
    }

    /// `Fx29`: the index register points at the glyph for the digit in Vx:
    /// five bytes per glyph, starting at the font base address.
    pub fn OP_Fx29(&mut self)
        requires
            old(self)@.inv(),
        ensures
            final(self)@.inv(),
            final(self)@ == eff_fx29(old(self)@),
    {
        proof { lemma_field_bounds(self.current_op); }
        let x = ((self.current_op & 0x0F00) >> 8) as usize;
        let digit = self.register[x];
        self.index = 0x50 + 5 * (digit as u16);
        assert(self@ =~= eff_fx29(old(self)@));
    }

    /// `Fx33`: the three decimal digits of Vx go to memory at I, I+1, I+2,
    /// hundreds first.
    pub fn OP_Fx33(&mut self)
        requires
            old(self)@.inv(),
            old(self)@.index + 3 <= 4096,
        ensures
            final(self)@.inv(),
            final(self)@ == eff_fx33(old(self)@),
    {
        proof { lemma_field_bounds(self.current_op); }
        let x = ((self.current_op & 0x0F00) >> 8) as usize;
        let value = self.register[x];
        let i = self.index as usize;
        self.memory.set(i, value / 100);
        self.memory.set(i + 1, (value / 10) % 10);
        self.memory.set(i + 2, value % 10);
        assert(self@ =~= eff_fx33(old(self)@));
    }

    /// `Fx55`: registers V0 up to but not including Vx go to memory
    /// starting at the index register.
    pub fn OP_Fx55(&mut self)
        requires
            old(self)@.inv(),
            op_x(old(self)@.op) == 0 || old(self)@.index + op_x(old(self)@.op) <= 4096,
        ensures
            final(self)@.inv(),
            final(self)@ == eff_fx55(old(self)@),
    {
        proof { lemma_field_bounds(self.current_op); }
        let x = ((self.current_op & 0x0F00) >> 8) as usize;
        let base = self.index as usize;
        let mut i: usize = 0;
        while i < x
            invariant
                i <= x,
                x == op_x(old(self)@.op),
                x < 16,
                base == old(self)@.index,
                x == 0 || base + x <= 4096,
                self@.inv(),
                self@ == (VmState { mem: self@.mem, ..old(self)@ }),
                forall|a: int| base <= a < base + i ==> self@.mem[a] == old(self)@.regs[a - base],
                forall|a: int| 0 <= a < 4096 && !(base <= a < base + i) ==> self@.mem[a] == old(self)@.mem[a],
            decreases x - i,
        {
            self.memory.set(base + i, self.register[i]);
            i += 1;
        }
        assert(self@.mem =~= eff_fx55(old(self)@).mem);
        assert(self@ =~= eff_fx55(old(self)@));
    }

    /// `Fx65`: memory starting at the index register goes to registers V0
    /// up to but not including Vx.
    pub fn OP_Fx56(&mut self)
        requires
            old(self)@.inv(),
            op_x(old(self)@.op) == 0 || old(self)@.index + op_x(old(self)@.op) <= 4096,
        ensures
            final(self)@.inv(),
            final(self)@ == eff_fx65(old(self)@),
    {
        proof { lemma_field_bounds(self.current_op); }
        let x = ((self.current_op & 0x0F00) >> 8) as usize;
        let base = self.index as usize;
        let mut i: usize = 0;
        while i < x
            invariant
                i <= x,
                x == op_x(old(self)@.op),
                x < 16,
                base == old(self)@.index,
                x == 0 || base + x <= 4096,
                self@.inv(),
                self@ == (VmState { regs: self@.regs, ..old(self)@ }),
                forall|j: int| 0 <= j < i ==> self@.regs[j] == old(self)@.mem[base + j],
                forall|j: int| i <= j < 16 ==> self@.regs[j] == old(self)@.regs[j],
            decreases x - i,
        {
            let b = self.memory[base + i];
            self.register.set(i, b);
            i += 1;
        }
        assert(self@.regs =~= eff_fx65(old(self)@).regs);
        assert(self@ =~= eff_fx65(old(self)@));
    }
}

} // verus!
