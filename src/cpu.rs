//! Machine state: memory, registers, stack, timers, and the key-wait state.
use vstd::prelude::*;

verus! {

/// Address at which a program is loaded and execution starts.
pub const PROGRAM_START: usize = 0x200;

/// Largest program that fits between `PROGRAM_START` and the end of memory.
pub const MAX_ROM_SIZE: usize = 0xE00;

/// The errors that end an emulation session.
#[derive(Clone, Copy, Debug, PartialEq, Eq, Structural)]
pub enum Chip8Error {
    /// The program does not fit in memory above `PROGRAM_START`.
    RomTooLarge,
    /// A subroutine call with sixteen return addresses already stacked.
    StackOverflow,
    /// A return with no return address stacked.
    StackUnderflow,
    /// An instruction that no rule of its group matches.
    UnknownOpcode(u16),
}

impl Chip8Error {
    /// A short human-readable description of the error.
    pub fn message(&self) -> (s: String)
        ensures
            *self == Chip8Error::RomTooLarge ==> s@ == "ROM is too big"@,
            *self == Chip8Error::StackOverflow ==> s@ == "Stack overflow"@,
            *self == Chip8Error::StackUnderflow ==> s@ == "Stack underflow"@,
            *self is UnknownOpcode ==> s@ == "Unknown opcode"@,
    {
        match self {
            Chip8Error::RomTooLarge => String::from_str("ROM is too big"),
            Chip8Error::StackOverflow => String::from_str("Stack overflow"),
            Chip8Error::StackUnderflow => String::from_str("Stack underflow"),
            Chip8Error::UnknownOpcode(_) => String::from_str("Unknown opcode"),
        }
    }
}

/// Whether the decoder fetches instructions or waits for a key press.
#[derive(Clone, Copy, Debug, PartialEq, Eq, Structural)]
pub enum KeyWait {
    /// Instructions are fetched and executed.
    Running,
    /// No instruction is fetched until a key is pressed; the key's index is
    /// then stored in the given register.
    AwaitingKey(u8),
}

/// The mathematical model of the machine state.
pub struct CpuState {
    /// The 4096 bytes of memory.
    pub memory: Seq<u8>,
    /// The registers V0 to VF.
    pub v: Seq<u8>,
    /// The index register.
    pub i: u16,
    /// The program counter.
    pub pc: u16,
    /// The stacked return addresses, oldest first.
    pub stack: Seq<u16>,
    pub delay_timer: u8,
    pub sound_timer: u8,
    pub wait: KeyWait,
}

impl CpuState {
    /// Shape of a model state: sizes of memory, registers and stack, a program
    /// counter and return addresses inside memory, and a wait target that
    /// names a register.
    pub open spec fn wf(self) -> bool {
        &&& self.memory.len() == 4096
        &&& self.v.len() == 16
        &&& self.stack.len() <= 16
        &&& (forall|k: int| 0 <= k < self.stack.len() ==> self.stack[k] < 4096)
        &&& self.pc < 4096
        &&& (self.wait matches KeyWait::AwaitingKey(x) ==> x < 16)
    }
}

/// The built-in hexadecimal glyphs, five bytes each, for digits 0 to F.
pub open spec fn font() -> Seq<u8> {
    seq![
        0xF0u8, 0x90, 0x90, 0x90, 0xF0,
        0x20, 0x60, 0x20, 0x20, 0x70,
        0xF0, 0x10, 0xF0, 0x80, 0xF0,
        0xF0, 0x10, 0xF0, 0x10, 0xF0,
        0x90, 0x90, 0xF0, 0x10, 0x10,
        0xF0, 0x80, 0xF0, 0x10, 0xF0,
        0xF0, 0x80, 0xF0, 0x90, 0xF0,
        0xF0, 0x10, 0x20, 0x40, 0x40,
        0xF0, 0x90, 0xF0, 0x90, 0xF0,
        0xF0, 0x90, 0xF0, 0x10, 0xF0,
        0xF0, 0x90, 0xF0, 0x90, 0x90,
        0xE0, 0x90, 0xE0, 0x90, 0xE0,
        0xF0, 0x80, 0x80, 0x80, 0xF0,
        0xE0, 0x90, 0x90, 0x90, 0xE0,
        0xF0, 0x80, 0xF0, 0x80, 0xF0,
        0xF0, 0x80, 0xF0, 0x80, 0x80,
    ]
}

/// Memory at power-on: the font at address 0, zeros elsewhere.
pub open spec fn initial_memory() -> Seq<u8> {
    Seq::new(4096, |a: int| if a < 80 { font()[a] } else { 0u8 })
}

/// The machine state at power-on.
pub open spec fn initial_state() -> CpuState {
    CpuState {
        memory: initial_memory(),
        v: Seq::new(16, |r: int| 0u8),
        i: 0,
        pc: 0x200,
        stack: Seq::empty(),
        delay_timer: 0,
        sound_timer: 0,
        wait: KeyWait::Running,
    }
}

/// Memory after copying `rom` to `PROGRAM_START`, every other byte kept.
pub open spec fn with_rom(memory: Seq<u8>, rom: Seq<u8>) -> Seq<u8> {
    Seq::new(
        memory.len(),
        |a: int| if 0x200 <= a < 0x200 + rom.len() { rom[a - 0x200] } else { memory[a] },
    )
}

fn fontset() -> (f: [u8; 80])
    ensures
        f@ == font(),
{
    let f: [u8; 80] = [
        0xF0, 0x90, 0x90, 0x90, 0xF0,
        0x20, 0x60, 0x20, 0x20, 0x70,
        0xF0, 0x10, 0xF0, 0x80, 0xF0,
        0xF0, 0x10, 0xF0, 0x10, 0xF0,
        0x90, 0x90, 0xF0, 0x10, 0x10,
        0xF0, 0x80, 0xF0, 0x10, 0xF0,
        0xF0, 0x80, 0xF0, 0x90, 0xF0,
        0xF0, 0x10, 0x20, 0x40, 0x40,
        0xF0, 0x90, 0xF0, 0x90, 0xF0,
        0xF0, 0x90, 0xF0, 0x10, 0xF0,
        0xF0, 0x90, 0xF0, 0x90, 0x90,
        0xE0, 0x90, 0xE0, 0x90, 0xE0,
        0xF0, 0x80, 0x80, 0x80, 0xF0,
        0xE0, 0x90, 0x90, 0x90, 0xE0,
        0xF0, 0x80, 0xF0, 0x80, 0xF0,
        0xF0, 0x80, 0xF0, 0x80, 0x80,
    ];
    assert(f@ =~= font());
    f
}

/// The machine: memory, registers, stack, timers and key-wait state.
pub struct CPU {
    pub(crate) memory: [u8; 4096],
    pub(crate) v: [u8; 16],
    pub(crate) i: u16,
    pub(crate) pc: u16,
    pub(crate) stack: [u16; 16],
    pub(crate) sp: u8,
    pub(crate) delay_timer: u8,
    pub(crate) sound_timer: u8,
    pub(crate) wait: KeyWait,
}

impl View for CPU {
    type V = CpuState;

    open(crate) spec fn view(&self) -> CpuState {
        CpuState {
            memory: self.memory@,
            v: self.v@,
            i: self.i,
            pc: self.pc,
            stack: self.stack@.subrange(0, self.sp as int),
            delay_timer: self.delay_timer,
            sound_timer: self.sound_timer,
            wait: self.wait,
        }
    }
}

impl CPU {
    /// The machine's invariant: stack depth at most 16, program counter and
    /// return addresses inside memory, and a wait target that names a register.
    pub open(crate) spec fn wf(&self) -> bool {
        &&& self.sp <= 16
        &&& (forall|k: int| 0 <= k < self.sp ==> self.stack@[k] < 4096)
        &&& self.pc < 4096
        &&& (self.wait matches KeyWait::AwaitingKey(x) ==> x < 16)
    }

    /// A well-formed machine has a well-formed model.
    pub proof fn lemma_wf(&self)
        requires
            self.wf(),
        ensures
            self@.wf(),
    {
    }

    /// A machine at power-on: font loaded, registers, timers and stack empty,
    /// program counter at `PROGRAM_START`.
    pub fn new() -> (c: CPU)
        ensures
            c.wf(),
            c@ == initial_state(),
    {
        let fontset = fontset();
        let mut memory = [0u8; 4096];
        let mut a: usize = 0;
        while a < 80
            invariant
                a <= 80,
                fontset@ == font(),
                forall|b: int| 0 <= b < 4096 ==> #[trigger] memory@[b] == if b < a {
                    font()[b]
                } else {
                    0u8
                },
            decreases 80 - a,
        {
            memory[a] = fontset[a];
            a += 1;
        }
        let c = CPU {
            memory,
            v: [0; 16],
            i: 0,
            pc: 0x200,
            stack: [0; 16],
            sp: 0,
            delay_timer: 0,
            sound_timer: 0,
            wait: KeyWait::Running,
        };
        assert(c@.memory =~= initial_memory());
        assert(c@.v =~= Seq::new(16, |r: int| 0u8));
        assert(c@.stack =~= Seq::empty());
        c
    }

    /// Copies `rom` into memory at `PROGRAM_START`, leaving everything else as
    /// it was. A program longer than `MAX_ROM_SIZE` is refused and nothing is
    /// written.
    pub fn load_rom(&mut self, rom: &[u8]) -> (r: Result<(), Chip8Error>)
        requires
            old(self).wf(),
        ensures
            final(self).wf(),
            rom@.len() > 0xE00 ==> r == Err::<(), Chip8Error>(Chip8Error::RomTooLarge)
                && final(self)@ == old(self)@,
            rom@.len() <= 0xE00 ==> r is Ok && final(self)@ == (CpuState {
                memory: with_rom(old(self)@.memory, rom@),
                ..old(self)@
            }),
    {
        if rom.len() > MAX_ROM_SIZE {
            return Err(Chip8Error::RomTooLarge);
        }
        let ghost start = self.memory@;
        let mut k: usize = 0;
        while k < rom.len()
            invariant
                rom@.len() <= 0xE00,
                k <= rom@.len(),
                self.v == old(self).v,
                self.i == old(self).i,
                self.pc == old(self).pc,
                self.stack == old(self).stack,
                self.sp == old(self).sp,
                self.delay_timer == old(self).delay_timer,
                self.sound_timer == old(self).sound_timer,
                self.wait == old(self).wait,
                start.len() == 4096,
                forall|a: int| 0 <= a < 4096 ==> #[trigger] self.memory@[a] == if 0x200 <= a < 0x200 + k {
                    rom@[a - 0x200]
                } else {
                    start[a]
                },
            decreases rom@.len() - k,
        {
            self.memory[PROGRAM_START + k] = rom[k];
            k += 1;
        }
        assert(self.memory@ =~= with_rom(start, rom@));
        Ok(())
    }

    /// Register `r`.
    pub fn register(&self, r: usize) -> (b: u8)
        requires
            r < 16,
        ensures
            b == self@.v[r as int],
    {
        self.v[r]
    }

    /// Writes `b` into register `r`.
    pub fn set_register(&mut self, r: usize, b: u8)
        requires
            old(self).wf(),
            r < 16,
        ensures
            final(self).wf(),
            final(self)@ == (CpuState { v: old(self)@.v.update(r as int, b), ..old(self)@ }),
    {
        self.v[r] = b;
    }

    /// The byte at address `a`.
    pub fn memory_at(&self, a: usize) -> (b: u8)
        requires
            a < 4096,
        ensures
            b == self@.memory[a as int],
    {
        self.memory[a]
    }

    /// The index register.
    pub fn index(&self) -> (i: u16)
        ensures
            i == self@.i,
    {
        self.i
    }

    /// The program counter.
    pub fn program_counter(&self) -> (pc: u16)
        ensures
            pc == self@.pc,
    {
        self.pc
    }

    /// Number of stacked return addresses.
    pub fn stack_depth(&self) -> (d: usize)
        requires
            self.wf(),
        ensures
            d == self@.stack.len(),
    {
        self.sp as usize
    }

    /// The delay timer.
    pub fn delay_timer(&self) -> (t: u8)
        ensures
            t == self@.delay_timer,
    {
        self.delay_timer
    }

    /// The sound timer.
    pub fn sound_timer(&self) -> (t: u8)
        ensures
            t == self@.sound_timer,
    {
        self.sound_timer
    }

    /// Whether the decoder fetches instructions or waits for a key.
    pub fn key_wait(&self) -> (w: KeyWait)
        ensures
            w == self@.wait,
    {
        self.wait
    }
}

} // verus!
