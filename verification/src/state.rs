use vstd::prelude::*;
use crate::font::FONT;
use crate::font::FONT_BASE;
use crate::rng::fresh_rng;

verus! {

/// Everything an instruction can read or write, as mathematical values.
/// This is the model that every contract in the crate speaks of.
pub ghost struct VmState {
    /// 4096 bytes of addressable memory.
    pub mem: Seq<u8>,
    /// The sixteen general-purpose registers V0..VF.
    pub regs: Seq<u8>,
    /// Sixteen return-address slots.
    pub stack: Seq<u16>,
    /// Stack pointer: number of occupied stack slots, 0..=16.
    pub sp: u8,
    /// Program counter.
    pub pc: u16,
    /// The index register I.
    pub index: u16,
    /// Delay timer, counts down to 0.
    pub delay: u8,
    /// Sound timer, counts down to 0.
    pub sound: u8,
    /// Sixteen key states, 1 = down.
    pub keys: Seq<u8>,
    /// 2048 pixels, row-major over a 64-wide, 32-tall grid, each 0 or 1.
    pub video: Seq<u32>,
    /// The opcode fetched by the current cycle.
    pub op: u16,
}

impl VmState {
    /// Well-formedness: fixed sizes, the stack pointer in range, and every
    /// pixel a single bit.
    pub open spec fn inv(self) -> bool {
        &&& self.mem.len() == 4096
        &&& self.regs.len() == 16
        &&& self.stack.len() == 16
        &&& self.keys.len() == 16
        &&& self.video.len() == 2048
        &&& self.sp <= 16
        &&& forall|p: int| 0 <= p < 2048 ==> self.video[p] == 0 || self.video[p] == 1
    }
}

/// The state a freshly initialized machine is in: memory all zero except the
/// glyph table, registers, stack, timers and keypad cleared, the display
/// blank, and the program counter at the first program address.
pub open spec fn init_state() -> VmState {
    VmState {
        mem: Seq::new(4096, |a: int| if FONT_BASE <= a < FONT_BASE + 80 { FONT[a - FONT_BASE] } else { 0u8 }),
        regs: Seq::new(16, |i: int| 0u8),
        stack: Seq::new(16, |i: int| 0u16),
        sp: 0,
        pc: 0x200,
        index: 0,
        delay: 0,
        sound: 0,
        keys: Seq::new(16, |i: int| 0u8),
        video: Seq::new(2048, |p: int| 0u32),
        op: 0,
    }
}

/// The kinds of fault a load or a cycle can report. Each one is detected
/// before any state changes, so a faulting call leaves the machine as it was.
#[derive(Clone, Copy, Debug, PartialEq, Eq, Structural)]
pub enum VmError {
    /// The program image does not fit between the load address and the end
    /// of memory.
    ProgramTooLarge,
    /// A call instruction arrived with all sixteen stack slots occupied.
    StackOverflow,
    /// A return instruction arrived with the stack empty.
    StackUnderflow,
    /// An instruction would touch a memory address past the end of memory,
    /// the program counter included.
    MemoryOutOfBounds,
    /// A keypad-test instruction named a key index above 15.
    KeyOutOfRange,
}

/// The virtual machine. All fields that instructions touch are public so the
/// host can wire the keypad and read the display; contracts are stated over
/// the view, which pairs each field with its mathematical model.
pub struct Chip8 {
    pub register: Vec<u8>,
    pub delay_timer: u8,
    pub sound_timer: u8,
    pub keypad: Vec<u8>,
    pub index: u16,
    pub pc: u16,
    pub stack: Vec<u16>,
    pub stack_pointer: u8,
    pub memory: Vec<u8>,
    pub video_memory: Vec<u32>,
    pub current_op: u16,
    pub rng: rand::rngs::ThreadRng,
}

impl View for Chip8 {
    type V = VmState;

    open spec fn view(&self) -> VmState {
        VmState {
            mem: self.memory@,
            regs: self.register@,
            stack: self.stack@,
            sp: self.stack_pointer,
            pc: self.pc,
            index: self.index,
            delay: self.delay_timer,
            sound: self.sound_timer,
            keys: self.keypad@,
            video: self.video_memory@,
            op: self.current_op,
        }
    }
}

/// Builds a vector of `n` copies of `fill`.
fn filled_u8(n: usize, fill: u8) -> (v: Vec<u8>)
    ensures
        v@ == Seq::new(n as nat, |i: int| fill),
{
    let mut v: Vec<u8> = Vec::new();
    let mut i: usize = 0;
    while i < n
        invariant
            i <= n,
            v@.len() == i,
            forall|j: int| 0 <= j < i ==> v@[j] == fill,
        decreases n - i,
    {
        v.push(fill);
        i += 1;
    }
    assert(v@ =~= Seq::new(n as nat, |i: int| fill));
    v
}

fn filled_u16(n: usize, fill: u16) -> (v: Vec<u16>)
    ensures
        v@ == Seq::new(n as nat, |i: int| fill),
{
    let mut v: Vec<u16> = Vec::new();
    let mut i: usize = 0;
    while i < n
        invariant
            i <= n,
            v@.len() == i,
            forall|j: int| 0 <= j < i ==> v@[j] == fill,
        decreases n - i,
    {
        v.push(fill);
        i += 1;
    }
    assert(v@ =~= Seq::new(n as nat, |i: int| fill));
    v
}

fn filled_u32(n: usize, fill: u32) -> (v: Vec<u32>)
    ensures
        v@ == Seq::new(n as nat, |i: int| fill),
{
    let mut v: Vec<u32> = Vec::new();
    let mut i: usize = 0;
    while i < n
        invariant
            i <= n,
            v@.len() == i,
            forall|j: int| 0 <= j < i ==> v@[j] == fill,
        decreases n - i,
    {
        v.push(fill);
        i += 1;
    }
    assert(v@ =~= Seq::new(n as nat, |i: int| fill));
    v
}

impl Chip8 {
    /// Builds a machine in the initial state: glyph table in place, all other
    /// memory, registers, stack, timers, keypad and display cleared, and the
    /// program counter at the first program address.
    pub fn init() -> (c: Chip8)
        ensures
            c@ == init_state(),
            c@.inv(),
    {
        let mut memory = filled_u8(4096, 0);
        let mut i: usize = 0;
        while i < 80
            invariant
                i <= 80,
                memory@.len() == 4096,
                forall|a: int| 0 <= a < 4096 && !(0x50 <= a < 0x50 + i) ==> memory@[a] == 0,
                forall|a: int| 0x50 <= a < 0x50 + i ==> memory@[a] == FONT[a - 0x50],
            decreases 80 - i,
        {
            memory.set(0x50 + i, FONT[i]);
            i += 1;
        }
        let c = Chip8 {
            register: filled_u8(16, 0),
            delay_timer: 0,
            sound_timer: 0,
            keypad: filled_u8(16, 0),
            index: 0,
            pc: 0x200,
            stack: filled_u16(16, 0),
            stack_pointer: 0,
            memory,
            video_memory: filled_u32(2048, 0),
            current_op: 0,
            rng: fresh_rng(),
        };
        assert(c@.mem =~= init_state().mem);
        assert(c@ =~= init_state());
        c
    }

    /// Copies a program image verbatim into memory starting at the first
    /// program address. Succeeds exactly when the image fits; on failure the
    /// machine is untouched.
    pub fn load_rom(&mut self, rom: &Vec<u8>) -> (r: Result<(), VmError>)
        requires
            old(self)@.inv(),
        ensures
            final(self)@.inv(),
            rom@.len() <= 3584 ==> (r == Ok::<(), VmError>(())
                && final(self)@ == (VmState {
                    mem: Seq::new(4096, |a: int| if 0x200 <= a < 0x200 + rom@.len() { rom@[a - 0x200] } else { old(self)@.mem[a] }),
                    ..old(self)@
                })),
            rom@.len() > 3584 ==> r == Err::<(), VmError>(VmError::ProgramTooLarge) && final(self)@ == old(self)@,
    {
        if rom.len() > 3584 {
            return Err(VmError::ProgramTooLarge);
        }
        let n = rom.len();
        let mut i: usize = 0;
        while i < n
            invariant
                i <= n,
                n == rom@.len() <= 3584,
                self@.mem.len() == 4096,
                forall|a: int| 0x200 <= a < 0x200 + i ==> self@.mem[a] == rom@[a - 0x200],
                forall|a: int| 0 <= a < 4096 && !(0x200 <= a < 0x200 + i) ==> self@.mem[a] == old(self)@.mem[a],
                self@.regs == old(self)@.regs,
                self@.stack == old(self)@.stack,
                self@.sp == old(self)@.sp,
                self@.pc == old(self)@.pc,
                self@.index == old(self)@.index,
                self@.delay == old(self)@.delay,
                self@.sound == old(self)@.sound,
                self@.keys == old(self)@.keys,
                self@.video == old(self)@.video,
                self@.op == old(self)@.op,
            decreases n - i,
        {
            self.memory.set(0x200 + i, rom[i]);
            i += 1;
        }
        assert(self@.mem =~= Seq::new(4096, |a: int| if 0x200 <= a < 0x200 + rom@.len() { rom@[a - 0x200] } else { old(self)@.mem[a] }));
        assert(self@ =~= (VmState {
            mem: Seq::new(4096, |a: int| if 0x200 <= a < 0x200 + rom@.len() { rom@[a - 0x200] } else { old(self)@.mem[a] }),
            ..old(self)@
        }));
        assert(self@.inv());
        Ok(())
    }

    /// Records one key as down or up; the input collaborator calls this
    /// between cycles.
    pub fn set_key(&mut self, key: usize, down: bool)
        requires
            old(self)@.inv(),
            key < 16,
        ensures
            final(self)@.inv(),
            final(self)@ == (VmState { keys: old(self)@.keys.update(key as int, if down { 1u8 } else { 0u8 }), ..old(self)@ }),
    {
        self.keypad.set(key, if down { 1 } else { 0 });
        assert(self@ =~= (VmState { keys: old(self)@.keys.update(key as int, if down { 1u8 } else { 0u8 }), ..old(self)@ }));
    }
}

} // verus!
