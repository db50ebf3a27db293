use vstd::prelude::*;
use crate::decode::lemma_field_bounds;
use crate::decode::op_family;
use crate::semantics::after_fetch;
use crate::semantics::cycle_fault;
use crate::semantics::dispatch;
use crate::semantics::eff_cxkk;
use crate::semantics::step;
use crate::semantics::tick;
use crate::state::Chip8;
use crate::state::VmError;

verus! {

impl Chip8 {
    /// One fetch-decode-execute-tick cycle, the entry point the host calls
    /// repeatedly. The opcode word at the program counter is fetched
    /// big-endian, the counter advances past it, the matching handler runs
    /// (an opcode the machine does not know is a no-op beyond the advance),
    /// and both timers count down, floored at zero.
    ///
    /// Every fault is detected before any state changes, so an `Err` leaves
    /// the machine exactly as it was; `cycle_fault` says which faults exist
    /// and when each is reported. On `Ok` the machine lands in `step` of the
    /// old state, for some byte from the random source.
    pub fn cycle(&mut self) -> (r: Result<(), VmError>)
        requires
            old(self)@.inv(),
        ensures
            final(self)@.inv(),
            match r {
                Ok(()) => cycle_fault(old(self)@) is None
                    && exists|rnd: u8| final(self)@ == step(old(self)@, rnd),
                Err(e) => cycle_fault(old(self)@) == Some(e) && final(self)@ == old(self)@,
            },
    {
        if self.pc >= 4095 {
            return Err(VmError::MemoryOutOfBounds);
        }
        let first_byte = self.memory[self.pc as usize];
        let second_byte = self.memory[(self.pc + 1) as usize];
        let op: u16 = ((first_byte as u16) << 8) | (second_byte as u16);
        proof { lemma_field_bounds(op); }
        let fam = (op & 0xF000) >> 12;
        let low = op & 0x00FF;
        let sub = op & 0x000F;

        if fam == 0x0 && low == 0xEE && self.stack_pointer == 0 {
            return Err(VmError::StackUnderflow);
        }
        if fam == 0x2 && self.stack_pointer == 16 {
            return Err(VmError::StackOverflow);
        }
        if fam == 0xD && sub > 0 && self.index as usize + sub as usize > 4096 {
            return Err(VmError::MemoryOutOfBounds);
        }
        if fam == 0xE && (low == 0x9E || low == 0xA1) {
            let x = ((op & 0x0F00) >> 8) as usize;
            if self.register[x] >= 16 {
                return Err(VmError::KeyOutOfRange);
            }
        }
        if fam == 0xF && low == 0x33 && self.index as usize + 3 > 4096 {
            return Err(VmError::MemoryOutOfBounds);
        }
        if fam == 0xF && (low == 0x55 || low == 0x65) {
            let x = (op & 0x0F00) >> 8;
            if x > 0 && self.index as usize + x as usize > 4096 {
                return Err(VmError::MemoryOutOfBounds);
            }
        }
        assert(cycle_fault(old(self)@) is None);

        self.current_op = op;
        self.pc += 2;
        let ghost mid = self@;
        assert(mid =~= after_fetch(old(self)@));

        if fam == 0x0 {
            if low == 0xE0 {
                self.OP_00E0();
            } else if low == 0xEE {
                self.OP_00EE();
            }
        } else if fam == 0x1 {
            self.OP_1nnn();
        } else if fam == 0x2 {
            self.OP_2nnn();
        } else if fam == 0x3 {
            self.OP_3xkk();
        } else if fam == 0x4 {
            self.OP_4xkk();
        } else if fam == 0x5 {
            self.OP_5xy0();
        } else if fam == 0x6 {
            self.OP_6xkk();
        } else if fam == 0x7 {
            self.OP_7xkk();
        } else if fam == 0x8 {
            if sub == 0x0 {
                self.OP_8xy0();
            } else if sub == 0x1 {
                self.OP_8xy1();
            } else if sub == 0x2 {
                self.OP_8xy2();
            } else if sub == 0x3 {
                self.OP_8xy3();
            } else if sub == 0x4 {
                self.OP_8xy4();
            } else if sub == 0x5 {
                self.OP_8xy5();
            } else if sub == 0x6 {
                self.OP_8xy6();
            } else if sub == 0x7 {
                self.OP_8xy7();
            } else if sub == 0xE {
                self.OP_8xye();
            }
        } else if fam == 0x9 {
            self.OP_9xy0();
        } else if fam == 0xA {
            self.OP_Annn();
        } else if fam == 0xB {
            self.OP_Bnnn();
        } else if fam == 0xC {
            self.OP_Cxkk();
        } else if fam == 0xD {
            self.OP_Dxyn();
        } else if fam == 0xE {
            if low == 0x9E {
                self.OP_Ex9E();
            } else if low == 0xA1 {
                self.OP_EXA1();
            }
        } else if fam == 0xF {
            if low == 0x07 {
                self.OP_Fx07();
            } else if low == 0x0A {
                self.OP_Fx0A();
            } else if low == 0x15 {
                self.OP_Fx15();
            } else if low == 0x18 {
                self.OP_Fx18();
            } else if low == 0x1E {
                self.OP_Fx1E();
            } else if low == 0x29 {
                self.OP_Fx29();
            } else if low == 0x33 {
                self.OP_Fx33();
            } else if low == 0x55 {
                self.OP_Fx55();
            } else if low == 0x65 {
                self.OP_Fx56();
            }
        }
        let ghost dispatched = self@;

        if self.delay_timer > 0 {
            self.delay_timer -= 1;
        }
        if self.sound_timer > 0 {
            self.sound_timer -= 1;
        }

        proof {
            assert(self@ =~= tick(dispatched));
            if op_family(op) == 0xC {
                let rnd = choose|rnd: u8| dispatched == eff_cxkk(mid, rnd);
                assert(dispatched == dispatch(mid, rnd));
                assert(self@ =~= step(old(self)@, rnd));
                assert(exists|w: u8| self@ == step(old(self)@, w));
            } else {
                assert(dispatched == dispatch(mid, 0));
                assert(self@ =~= step(old(self)@, 0));
                assert(exists|w: u8| self@ == step(old(self)@, w));
            }
        }
        Ok(())
    }
}

} // verus!
