use vstd::prelude::*;

use crate::cpu::{
    Cpu, CpuState, KEY_COUNT, REGISTER_COUNT, initial_cpu, key_delivered, step_spec, ticked,
};
use crate::display::{DISPLAY_HEIGHT, DISPLAY_WIDTH, Display, blank, pixel_index};
use crate::error::Chip8Error;
use crate::ram::{MAX_PROGRAM_SIZE, MEMORY_SIZE, Ram, initial_memory, loaded};

verus! {

/// Seed of the random source of a machine made by `Chip8::new`.
pub const DEFAULT_SEED: u32 = 0x2545_F491;

/// The random source's next state: a linear congruential step modulo 2^32.
pub open spec fn next_seed(seed: u32) -> u32 {
    ((seed as int * 1103515245 + 12345) % 0x1_0000_0000) as u32
}

/// The random byte that a step hands to `CXNN` from source state `seed`: bits 16..24 of
/// the next state.
pub open spec fn random_byte(seed: u32) -> u8 {
    ((next_seed(seed) as int / 0x1_0000) % 256) as u8
}

/// The whole machine as a mathematical value.
pub struct MachineState {
    pub cpu: CpuState,
    pub mem: Seq<u8>,
    pub pixels: Seq<bool>,
    /// Which of the sixteen keys are down.
    pub keys: Seq<bool>,
    /// State of the random source.
    pub seed: u32,
}

/// The machine after a successful step from `m` to processor `c`, memory `mem` and pixels
/// `px`; the random source moves on.
pub open spec fn after_step(m: MachineState, c: CpuState, mem: Seq<u8>, px: Seq<bool>) -> MachineState {
    MachineState { cpu: c, mem, pixels: px, seed: next_seed(m.seed), ..m }
}

/// A complete CHIP-8 machine: memory, display, processor and keypad.
pub struct Chip8 {
    ram: Ram,
    cpu: Cpu,
    display: Display,
    keys: Vec<bool>,
    seed: u32,
}

impl View for Chip8 {
    type V = MachineState;

    closed spec fn view(&self) -> MachineState {
        MachineState {
            cpu: self.cpu@,
            mem: self.ram@,
            pixels: self.display@,
            keys: self.keys@,
            seed: self.seed,
        }
    }
}

impl Chip8 {
    /// The components are well formed and the keypad has sixteen keys.
    pub open spec fn wf(&self) -> bool {
        &&& self@.cpu.wf()
        &&& self@.mem.len() == MEMORY_SIZE
        &&& self@.pixels.len() == crate::display::PIXEL_COUNT
        &&& self@.keys.len() == KEY_COUNT
    }

    proof fn lemma_parts(&self)
        ensures
            self.wf() <==> (self.cpu.wf() && self.ram.wf() && self.display.wf()
                && self.keys@.len() == KEY_COUNT),
    {
    }

    /// A fresh machine whose random source starts at `seed`.
    pub fn with_seed(seed: u32) -> (r: Chip8)
        ensures
            r.wf(),
            r@ == (MachineState {
                cpu: initial_cpu(),
                mem: initial_memory(),
                pixels: blank(),
                keys: Seq::new(KEY_COUNT as nat, |k: int| false),
                seed,
            }),
    {
        let mut keys: Vec<bool> = Vec::new();
        let mut k: usize = 0;
        while k < KEY_COUNT
            invariant
                k <= KEY_COUNT,
                keys@.len() == k,
                forall|j: int| 0 <= j < k ==> !keys@[j],
            decreases KEY_COUNT - k,
        {
            keys.push(false);
            k = k + 1;
        }
        assert(keys@ == Seq::new(KEY_COUNT as nat, |k: int| false));
        Chip8 { ram: Ram::new(), cpu: Cpu::new(), display: Display::new(), keys, seed }
    }

    /// A fresh machine whose random source starts at `DEFAULT_SEED`.
    pub fn new() -> (r: Chip8)
        ensures
            r.wf(),
            r@ == (MachineState {
                cpu: initial_cpu(),
                mem: initial_memory(),
                pixels: blank(),
                keys: Seq::new(KEY_COUNT as nat, |k: int| false),
                seed: DEFAULT_SEED,
            }),
    {
        Chip8::with_seed(DEFAULT_SEED)
    }

    /// Copies `data` into memory from `PROGRAM_OFFSET` on, or fails with `OutOfBounds`,
    /// changing nothing, when it is longer than `MAX_PROGRAM_SIZE`.
    pub fn load_rom(&mut self, data: &Vec<u8>) -> (r: Result<(), Chip8Error>)
        requires
            old(self).wf(),
        ensures
            final(self).wf(),
            data@.len() <= MAX_PROGRAM_SIZE ==> r is Ok && final(self)@ == (MachineState {
                mem: loaded(old(self)@.mem, data@),
                ..old(self)@
            }),
            data@.len() > MAX_PROGRAM_SIZE ==> r == Err::<(), Chip8Error>(
                Chip8Error::OutOfBounds,
            ) && final(self)@ == old(self)@,
    {
        proof {
            self.lemma_parts();
        }
        self.ram.load_program(data)
    }

    /// One fetch-decode-execute cycle. `CXNN` takes its random byte from the machine's
    /// random source, which moves on with every successful step. On failure nothing
    /// changes.
    pub fn run_instruction(&mut self) -> (r: Result<(), Chip8Error>)
        requires
            old(self).wf(),
        ensures
            final(self).wf(),
            match step_spec(
                old(self)@.cpu,
                old(self)@.mem,
                old(self)@.pixels,
                old(self)@.keys,
                random_byte(old(self)@.seed),
            ) {
                Ok((c, m, p)) => r is Ok && final(self)@ == after_step(old(self)@, c, m, p),
                Err(e) => r == Err::<(), Chip8Error>(e) && final(self)@ == old(self)@,
            },
    {
        proof {
            self.lemma_parts();
        }
        assert(self.seed as u64 * 1103515245 <= 0xFFFF_FFFFu64 * 1103515245) by (nonlinear_arith);
        let next: u32 = ((self.seed as u64 * 1103515245 + 12345) % 0x1_0000_0000) as u32;
        let random: u8 = ((next / 0x1_0000) % 256) as u8;
        let r = self.cpu.run_instruction(&mut self.ram, &mut self.display, &self.keys, random);
        if r.is_ok() {
            self.seed = next;
        }
        r
    }

    /// Sets whether key `key` is down.
    pub fn set_key(&mut self, key: u8, down: bool)
        requires
            old(self).wf(),
            key < KEY_COUNT,
        ensures
            final(self).wf(),
            final(self)@ == (MachineState { keys: old(self)@.keys.update(key as int, down), ..old(self)@ }),
    {
        self.keys.set(key as usize, down);
    }

    /// Whether key `key` is down.
    pub fn is_key_down(&self, key: u8) -> (r: bool)
        requires
            self.wf(),
            key < KEY_COUNT,
        ensures
            r == self@.keys[key as int],
    {
        self.keys[key as usize]
    }

    /// Delivers a press of key `key`, which ends a pending `FX0A`: the key goes into its
    /// register and the program moves on. Returns whether the machine was waiting.
    pub fn deliver_keypress(&mut self, key: u8) -> (r: bool)
        requires
            old(self).wf(),
            key < KEY_COUNT,
        ensures
            final(self).wf(),
            r == old(self)@.cpu.waiting is Some,
            final(self)@ == (MachineState { cpu: key_delivered(old(self)@.cpu, key), ..old(self)@ }),
    {
        self.cpu.deliver_key(key)
    }

    /// Counts the delay and sound timers down by one, stopping at zero.
    pub fn tick_timers(&mut self)
        requires
            old(self).wf(),
        ensures
            final(self).wf(),
            final(self)@ == (MachineState { cpu: ticked(old(self)@.cpu), ..old(self)@ }),
    {
        self.cpu.tick_timers();
    }

    /// The processor.
    pub fn cpu(&self) -> (r: &Cpu)
        ensures
            r@ == self@.cpu,
    {
        &self.cpu
    }

    /// The memory.
    pub fn ram(&self) -> (r: &Ram)
        ensures
            r@ == self@.mem,
    {
        &self.ram
    }

    /// Register `x`.
    pub fn register(&self, x: u8) -> (r: u8)
        requires
            self.wf(),
            x < REGISTER_COUNT,
        ensures
            r == self@.cpu.v[x as int],
    {
        self.cpu.register(x)
    }

    /// The program counter.
    pub fn pc(&self) -> (r: u16)
        ensures
            r == self@.cpu.pc,
    {
        self.cpu.pc()
    }

    /// The address register I.
    pub fn index(&self) -> (r: u16)
        ensures
            r == self@.cpu.i,
    {
        self.cpu.index()
    }

    /// The delay timer.
    pub fn delay_timer(&self) -> (r: u8)
        ensures
            r == self@.cpu.delay,
    {
        self.cpu.delay_timer()
    }

    /// The sound timer.
    pub fn sound_timer(&self) -> (r: u8)
        ensures
            r == self@.cpu.sound,
    {
        self.cpu.sound_timer()
    }

    /// Number of pending subroutine calls.
    pub fn stack_depth(&self) -> (r: usize)
        ensures
            r == self@.cpu.stack.len(),
    {
        self.cpu.stack_depth()
    }

    /// Whether the machine is waiting for a key press.
    pub fn is_waiting(&self) -> (r: bool)
        ensures
            r == self@.cpu.waiting is Some,
    {
        self.cpu.is_waiting()
    }

    /// The byte at `address`.
    pub fn read_memory(&self, address: u16) -> (r: u8)
        requires
            self.wf(),
            address < MEMORY_SIZE,
        ensures
            r == self@.mem[address as int],
    {
        self.ram.read_byte(address)
    }

    /// Whether the pixel at column `x`, row `y` is lit.
    pub fn pixel(&self, x: usize, y: usize) -> (r: bool)
        requires
            self.wf(),
            x < DISPLAY_WIDTH,
            y < DISPLAY_HEIGHT,
        ensures
            r == self@.pixels[pixel_index(x as int, y as int)],
    {
        self.display.pixel(x, y)
    }

    /// The display as `DISPLAY_HEIGHT` rows of `DISPLAY_WIDTH` pixels.
    pub fn display_grid(&self) -> (r: Vec<Vec<bool>>)
        requires
            self.wf(),
        ensures
            r@.len() == DISPLAY_HEIGHT,
            forall|y: int| 0 <= y < DISPLAY_HEIGHT ==> (#[trigger] r@[y])@.len() == DISPLAY_WIDTH,
            forall|y: int, x: int|
                0 <= y < DISPLAY_HEIGHT && 0 <= x < DISPLAY_WIDTH ==> (#[trigger] r@[y]@[x])
                    == self@.pixels[pixel_index(x, y)],
    {
        self.display.grid()
    }
}

} // verus!
