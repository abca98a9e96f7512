//! A verified CHIP-8 virtual machine core.
//!
//! The emulator owns all machine state: 4096 bytes of memory (pre-seeded with
//! a glyph table for the hexadecimal digits), sixteen 8-bit registers, a
//! 16-bit address register, program counter, a 16-entry call stack, two 8-bit
//! timers, a 64x32 monochrome framebuffer and a 16-key keypad. A host drives
//! it through `tick` (one fetch-decode-execute cycle) and `time_tick`
//! (one 60 Hz timer decrement), and renders from `get_display`.
pub mod exec;
pub mod instr;
pub mod laws;

use vstd::prelude::*;

verus! {

/// Number of general-purpose registers.
pub const REGS_NUM: usize = 16;
/// Size of addressable memory in bytes.
pub const RAM_SIZE: usize = 4096;
/// Depth of the call stack.
pub const STACK_SIZE: usize = 16;
/// Framebuffer width in pixels.
pub const SCREEN_WIDTH: usize = 64;
/// Framebuffer height in pixels.
pub const SCREEN_HEIGHT: usize = 32;
/// Number of keypad keys.
pub const KEYS_NUM: usize = 16;
/// Address at which programs are loaded and execution starts.
pub const START_MEMORY_ADDR: u16 = 0x200;
/// Size of the built-in glyph table in bytes.
pub const FONTS_SIZE: usize = 80;
/// Suggested instruction cadence for hosts, in cycles per second.
pub const CLOCK_SPEED: u64 = 600;

/// Errors surfaced by the emulator instead of undefined behaviour.
#[derive(Clone, Copy, Debug, PartialEq, Eq, Structural)]
pub enum Chip8Error {
    /// A program handed to `load_data` does not fit in memory.
    Capacity,
    /// A fetched opcode matches no known instruction pattern.
    UnimplementedOpcode,
    /// A subroutine call exceeded the 16-entry stack.
    StackOverflow,
    /// A return was executed with an empty stack.
    StackUnderflow,
    /// An instruction addressed memory or the keypad out of range.
    OutOfBounds,
}

/// The mathematical state of the machine: every contract speaks of this view.
#[verifier::ext_equal]
pub struct EmuView {
    /// Program counter: address of the next instruction to fetch.
    pub pc: u16,
    /// Addressable memory.
    pub ram: Seq<u8>,
    /// General-purpose registers V0..VF.
    pub v: Seq<u8>,
    /// Address register I.
    pub i: u16,
    /// Stack pointer: number of occupied stack slots.
    pub sp: u16,
    /// Call stack.
    pub stack: Seq<u16>,
    /// Delay timer.
    pub dt: u8,
    /// Sound timer.
    pub st: u8,
    /// Framebuffer, row-major.
    pub screen: Seq<bool>,
    /// Keypad state.
    pub keys: Seq<bool>,
}

impl EmuView {
    /// Well-formedness: every array has its fixed size and the stack pointer
    /// stays within the stack.
    pub open spec fn wf(self) -> bool {
        &&& self.ram.len() == RAM_SIZE
        &&& self.v.len() == REGS_NUM
        &&& self.stack.len() == STACK_SIZE
        &&& self.screen.len() == SCREEN_WIDTH * SCREEN_HEIGHT
        &&& self.keys.len() == KEYS_NUM
        &&& self.sp <= STACK_SIZE
    }
}

/// The built-in glyph table: five bytes of sprite data for each of the
/// sixteen hexadecimal digits.
pub open spec fn font_seq() -> Seq<u8> {
    seq![
        0xF0u8, 0x90u8, 0x90u8, 0x90u8, 0xF0u8,
        0x20u8, 0x60u8, 0x20u8, 0x20u8, 0x70u8,
        0xF0u8, 0x10u8, 0xF0u8, 0x80u8, 0xF0u8,
        0xF0u8, 0x10u8, 0xF0u8, 0x10u8, 0xF0u8,
        0x90u8, 0x90u8, 0xF0u8, 0x10u8, 0x10u8,
        0xF0u8, 0x80u8, 0xF0u8, 0x10u8, 0xF0u8,
        0xF0u8, 0x80u8, 0xF0u8, 0x90u8, 0xF0u8,
        0xF0u8, 0x10u8, 0x20u8, 0x40u8, 0x40u8,
        0xF0u8, 0x90u8, 0xF0u8, 0x90u8, 0xF0u8,
        0xF0u8, 0x90u8, 0xF0u8, 0x10u8, 0xF0u8,
        0xF0u8, 0x90u8, 0xF0u8, 0x90u8, 0x90u8,
        0xE0u8, 0x90u8, 0xE0u8, 0x90u8, 0xE0u8,
        0xF0u8, 0x80u8, 0x80u8, 0x80u8, 0xF0u8,
        0xE0u8, 0x90u8, 0x90u8, 0x90u8, 0xE0u8,
        0xF0u8, 0x80u8, 0xF0u8, 0x80u8, 0xF0u8,
        0xF0u8, 0x80u8, 0xF0u8, 0x80u8, 0x80u8,
    ]
}

/// The state of a machine directly after construction or reset: glyph table
/// in low memory, program counter at the start address, all else zeroed.
pub open spec fn initial_view() -> EmuView {
    EmuView {
        pc: START_MEMORY_ADDR,
        ram: font_seq() + Seq::new((RAM_SIZE - FONTS_SIZE) as nat, |k: int| 0u8),
        v: Seq::new(REGS_NUM as nat, |k: int| 0u8),
        i: 0,
        sp: 0,
        stack: Seq::new(STACK_SIZE as nat, |k: int| 0u16),
        dt: 0,
        st: 0,
        screen: Seq::new((SCREEN_WIDTH * SCREEN_HEIGHT) as nat, |k: int| false),
        keys: Seq::new(KEYS_NUM as nat, |k: int| false),
    }
}

/// Core emulator for the CHIP-8 system.
#[derive(Debug, PartialEq)]
pub struct Emulator {
    pc: u16,
    ram: Vec<u8>,
    v_reg: Vec<u8>,
    i_reg: u16,
    sp: u16,
    stack: Vec<u16>,
    delay_timer: u8,
    sound_timer: u8,
    screen: Vec<bool>,
    keys: Vec<bool>,
}

impl View for Emulator {
    type V = EmuView;

    closed spec fn view(&self) -> EmuView {
        EmuView {
            pc: self.pc,
            ram: self.ram@,
            v: self.v_reg@,
            i: self.i_reg,
            sp: self.sp,
            stack: self.stack@,
            dt: self.delay_timer,
            st: self.sound_timer,
            screen: self.screen@,
            keys: self.keys@,
        }
    }
}

/// Builds a vector of `n` copies of `val`.
pub(crate) fn repeat_val<T: Copy>(val: T, n: usize) -> (v: Vec<T>)
    ensures
        v@ == Seq::new(n as nat, |k: int| val),
{
    let mut v: Vec<T> = Vec::new();
    while v.len() < n
        invariant
            v@.len() <= n,
            forall|k: int| 0 <= k < v@.len() ==> v@[k] == val,
        decreases n - v@.len(),
    {
        v.push(val);
    }
    proof {
        assert(v@ =~= Seq::new(n as nat, |k: int| val));
    }
    v
}

/// Builds the glyph table as a vector.
fn font_vec() -> (v: Vec<u8>)
    ensures
        v@ == font_seq(),
{
    let mut v: Vec<u8> = Vec::new();
    v.push(0xF0); v.push(0x90); v.push(0x90); v.push(0x90); v.push(0xF0);
    v.push(0x20); v.push(0x60); v.push(0x20); v.push(0x20); v.push(0x70);
    v.push(0xF0); v.push(0x10); v.push(0xF0); v.push(0x80); v.push(0xF0);
    v.push(0xF0); v.push(0x10); v.push(0xF0); v.push(0x10); v.push(0xF0);
    v.push(0x90); v.push(0x90); v.push(0xF0); v.push(0x10); v.push(0x10);
    v.push(0xF0); v.push(0x80); v.push(0xF0); v.push(0x10); v.push(0xF0);
    v.push(0xF0); v.push(0x80); v.push(0xF0); v.push(0x90); v.push(0xF0);
    v.push(0xF0); v.push(0x10); v.push(0x20); v.push(0x40); v.push(0x40);
    v.push(0xF0); v.push(0x90); v.push(0xF0); v.push(0x90); v.push(0xF0);
    v.push(0xF0); v.push(0x90); v.push(0xF0); v.push(0x10); v.push(0xF0);
    v.push(0xF0); v.push(0x90); v.push(0xF0); v.push(0x90); v.push(0x90);
    v.push(0xE0); v.push(0x90); v.push(0xE0); v.push(0x90); v.push(0xE0);
    v.push(0xF0); v.push(0x80); v.push(0x80); v.push(0x80); v.push(0xF0);
    v.push(0xE0); v.push(0x90); v.push(0x90); v.push(0x90); v.push(0xE0);
    v.push(0xF0); v.push(0x80); v.push(0xF0); v.push(0x80); v.push(0xF0);
    v.push(0xF0); v.push(0x80); v.push(0xF0); v.push(0x80); v.push(0x80);
    proof {
        assert(v@ =~= font_seq());
    }
    v
}

impl Emulator {
    /// Creates a machine in its initial state: glyph table loaded, program
    /// counter at the start address, everything else zeroed.
    pub fn new() -> (r: Emulator)
        ensures
            r@ == initial_view(),
            r@.wf(),
    {
        let mut ram = font_vec();
        while ram.len() < RAM_SIZE
            invariant
                FONTS_SIZE <= ram@.len() <= RAM_SIZE,
                ram@ == font_seq() + Seq::new((ram@.len() - FONTS_SIZE) as nat, |k: int| 0u8),
            decreases RAM_SIZE - ram@.len(),
        {
            ram.push(0);
            proof {
                assert(ram@ =~= font_seq()
                    + Seq::new((ram@.len() - FONTS_SIZE) as nat, |k: int| 0u8));
            }
        }
        let emu = Emulator {
            pc: START_MEMORY_ADDR,
            ram,
            v_reg: repeat_val(0u8, REGS_NUM),
            i_reg: 0,
            sp: 0,
            stack: repeat_val(0u16, STACK_SIZE),
            delay_timer: 0,
            sound_timer: 0,
            screen: repeat_val(false, SCREEN_WIDTH * SCREEN_HEIGHT),
            keys: repeat_val(false, KEYS_NUM),
        };
        proof {
            assert(emu@ =~~= initial_view());
        }
        emu
    }

    /// Restores the machine to the exact state of a freshly constructed one.
    pub fn reset(&mut self)
        ensures
            final(self)@ == initial_view(),
            final(self)@.wf(),
    {
        *self = Emulator::new();
    }

    /// Returns a read-only view of the 64x32 framebuffer, row-major.
    pub fn get_display(&self) -> (r: &[bool])
        ensures
            r@ == self@.screen,
    {
        self.screen.as_slice()
    }

    /// Returns the program counter.
    pub fn get_pc(&self) -> (r: u16)
        ensures
            r == self@.pc,
    {
        self.pc
    }

    /// Returns the address register I.
    pub fn get_i(&self) -> (r: u16)
        ensures
            r == self@.i,
    {
        self.i_reg
    }

    /// Returns the stack pointer: the number of occupied stack slots.
    pub fn get_sp(&self) -> (r: u16)
        ensures
            r == self@.sp,
    {
        self.sp
    }

    /// Returns the value of one general-purpose register.
    pub fn get_v(&self, index: usize) -> (r: u8)
        requires
            self@.wf(),
            index < REGS_NUM,
        ensures
            r == self@.v[index as int],
    {
        self.v_reg[index]
    }

    /// Returns one byte of memory.
    pub fn get_ram(&self, addr: usize) -> (r: u8)
        requires
            self@.wf(),
            addr < RAM_SIZE,
        ensures
            r == self@.ram[addr as int],
    {
        self.ram[addr]
    }

    /// Returns the delay timer.
    pub fn get_delay_timer(&self) -> (r: u8)
        ensures
            r == self@.dt,
    {
        self.delay_timer
    }

    /// Returns the sound timer; a value above zero asks the host to play a
    /// tone.
    pub fn get_sound_timer(&self) -> (r: u8)
        ensures
            r == self@.st,
    {
        self.sound_timer
    }

    /// Sets the pressed state of one keypad key.
    pub fn keypress(&mut self, index: usize, pressed: bool)
        requires
            old(self)@.wf(),
            index < KEYS_NUM,
        ensures
            final(self)@ == (EmuView { keys: old(self)@.keys.update(index as int, pressed), ..old(self)@ }),
            final(self)@.wf(),
    {
        self.keys[index] = pressed;
    }

    /// Copies a program into memory starting at the load address. Fails with
    /// `Chip8Error::Capacity`, leaving the machine untouched, when the
    /// program does not fit.
    pub fn load_data(&mut self, data: &[u8]) -> (r: Result<(), Chip8Error>)
        requires
            old(self)@.wf(),
        ensures
            final(self)@.wf(),
            match r {
                Ok(()) => {
                    &&& data@.len() <= RAM_SIZE - START_MEMORY_ADDR
                    &&& final(self)@ == (EmuView { ram: loaded_ram(old(self)@.ram, data@), ..old(self)@ })
                },
                Err(e) => {
                    &&& e == Chip8Error::Capacity
                    &&& data@.len() > RAM_SIZE - START_MEMORY_ADDR
                    &&& final(self)@ == old(self)@
                },
            },
    {
        if data.len() > RAM_SIZE - START_MEMORY_ADDR as usize {
            return Err(Chip8Error::Capacity);
        }
        let base = START_MEMORY_ADDR as usize;
        let ghost ram0 = self@.ram;
        let mut k: usize = 0;
        while k < data.len()
            invariant
                k <= data@.len(),
                data@.len() <= RAM_SIZE - START_MEMORY_ADDR,
                base == START_MEMORY_ADDR,
                self@.ram.len() == RAM_SIZE,
                ram0.len() == RAM_SIZE,
                forall|j: int| 0 <= j < k ==> self@.ram[base + j] == data@[j],
                forall|j: int| 0 <= j < RAM_SIZE && !(base <= j < base + k) ==> self@.ram[j] == ram0[j],
                self@ == (EmuView { ram: self@.ram, ..old(self)@ }),
            decreases data@.len() - k,
        {
            self.ram[base + k] = data[k];
            k = k + 1;
        }
        proof {
            assert(self@.ram =~= loaded_ram(ram0, data@));
        }
        Ok(())
    }

    /// Runs one fetch-decode-execute cycle, exactly as `step_spec` states for
    /// the given random byte: deterministic, so a host or test that injects
    /// the byte can predict the full machine state. On an error the machine
    /// is left untouched.
    pub fn step_with(&mut self, rnd: u8) -> (r: Result<(), Chip8Error>)
        requires
            old(self)@.wf(),
        ensures
            final(self)@.wf(),
            match r {
                Ok(()) => step_spec(old(self)@, rnd) == Ok::<EmuView, Chip8Error>(final(self)@),
                Err(e) => final(self)@ == old(self)@ && step_spec(old(self)@, rnd) == Err::<
                    EmuView,
                    Chip8Error,
                >(e),
            },
    {
        let ghost pre = self@;
        if self.pc as usize + 1 >= RAM_SIZE {
            return Err(Chip8Error::OutOfBounds);
        }
        let opcode = self.fetch_opcode();
        let instr = match crate::instr::decode_op(opcode) {
            Some(instr) => instr,
            None => {
                return Err(Chip8Error::UnimplementedOpcode);
            },
        };
        proof {
            crate::instr::lemma_decode_wf(opcode);
        }
        let saved_pc = self.pc;
        self.pc = self.pc + 2;
        match self.exec_instr(instr, rnd) {
            Ok(()) => Ok(()),
            Err(e) => {
                self.pc = saved_pc;
                proof {
                    assert(self@ =~~= pre);
                }
                Err(e)
            },
        }
    }

    /// Runs one fetch-decode-execute cycle, drawing the byte for a
    /// random-number instruction from the thread-local generator. On an
    /// error the machine is left untouched.
    pub fn tick(&mut self) -> (r: Result<(), Chip8Error>)
        requires
            old(self)@.wf(),
        ensures
            final(self)@.wf(),
            match r {
                Ok(()) => exists|rnd: u8|
                    step_spec(old(self)@, rnd) == Ok::<EmuView, Chip8Error>(final(self)@),
                Err(e) => final(self)@ == old(self)@ && exists|rnd: u8|
                    step_spec(old(self)@, rnd) == Err::<EmuView, Chip8Error>(e),
            },
    {
        let rnd = random_byte();
        let r = self.step_with(rnd);
        proof {
            match r {
                Ok(()) => {
                    assert(step_spec(old(self)@, rnd) == Ok::<EmuView, Chip8Error>(self@));
                },
                Err(e) => {
                    assert(step_spec(old(self)@, rnd) == Err::<EmuView, Chip8Error>(e));
                },
            }
        }
        r
    }

    /// Reads the two opcode bytes at the program counter, big-endian.
    fn fetch_opcode(&self) -> (op: u16)
        requires
            self@.wf(),
            self@.pc + 1 < RAM_SIZE,
        ensures
            op == (((self@.ram[self@.pc as int] as u16) << 8u16) | (self@.ram[self@.pc + 1]
                as u16)),
    {
        let higher_byte = self.ram[self.pc as usize] as u16;
        let lower_byte = self.ram[self.pc as usize + 1] as u16;
        (higher_byte << 8u16) | lower_byte
    }

    /// Decrements each timer that is above zero; called by the host at 60 Hz.
    pub fn time_tick(&mut self)
        ensures
            final(self)@ == timers_spec(old(self)@),
            old(self)@.wf() ==> final(self)@.wf(),
    {
        if self.delay_timer > 0 {
            self.delay_timer = self.delay_timer - 1;
        }
        if self.sound_timer > 0 {
            self.sound_timer = self.sound_timer - 1;
        }
    }
}

/// Memory after a program `data` is copied in at the load address.
pub open spec fn loaded_ram(ram: Seq<u8>, data: Seq<u8>) -> Seq<u8> {
    Seq::new(ram.len(), |k: int|
        if START_MEMORY_ADDR <= k < START_MEMORY_ADDR + data.len() {
            data[k - START_MEMORY_ADDR]
        } else {
            ram[k]
        })
}

/// One full cycle on a machine state: fetch the two opcode bytes at the
/// program counter big-endian, advance the program counter by two, decode,
/// and execute. A fetch outside memory or an unrecognized opcode is an error
/// that leaves the state unchanged.
pub open spec fn step_spec(pre: EmuView, rnd: u8) -> Result<EmuView, Chip8Error> {
    if pre.pc + 1 >= RAM_SIZE {
        Err(Chip8Error::OutOfBounds)
    } else {
        let op = ((pre.ram[pre.pc as int] as u16) << 8u16) | (pre.ram[pre.pc + 1] as u16);
        match crate::instr::spec_decode(op) {
            None => Err(Chip8Error::UnimplementedOpcode),
            Some(instr) => crate::exec::spec_exec(
                EmuView { pc: (pre.pc + 2) as u16, ..pre },
                instr,
                rnd,
            ),
        }
    }
}

/// Relies on rand::random: draws one byte from the thread-local generator.
/// Nothing can be promised of its value.
#[verifier::external_body]
fn random_byte() -> u8 {
    rand::random::<u8>()
}

/// One 60 Hz timer tick: each timer above zero decrements by one.
pub open spec fn timers_spec(pre: EmuView) -> EmuView {
    EmuView {
        dt: if pre.dt > 0 { (pre.dt - 1) as u8 } else { 0 },
        st: if pre.st > 0 { (pre.st - 1) as u8 } else { 0 },
        ..pre
    }
}

} // verus!
