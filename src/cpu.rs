use vstd::prelude::*;

use crate::display::{Display, blank, collides, drawn};
use crate::error::Chip8Error;
use crate::instruction::{Instruction, decode_spec};
use crate::ram::{MEMORY_SIZE, PROGRAM_OFFSET, Ram};

verus! {

/// Number of general-purpose registers.
pub const REGISTER_COUNT: usize = 16;

/// Deepest nesting of subroutine calls.
pub const STACK_DEPTH: usize = 16;

/// Number of keys on the keypad.
pub const KEY_COUNT: usize = 16;

/// Index of the flag register VF.
pub const FLAG: usize = 15;

/// The processor's state as a mathematical value.
pub struct CpuState {
    /// V0..VF.
    pub v: Seq<u8>,
    /// Address of the next opcode.
    pub pc: u16,
    /// The address register I.
    pub i: u16,
    /// Saved opcode addresses of the pending calls, innermost last.
    pub stack: Seq<u16>,
    pub delay: u8,
    pub sound: u8,
    /// The register that a pending `FX0A` will fill, while the processor waits for a key.
    pub waiting: Option<u8>,
}

impl CpuState {
    /// Sixteen registers, a bounded stack of addresses from which a fetch succeeded, and a
    /// wait only at such an address.
    pub open spec fn wf(self) -> bool {
        &&& self.v.len() == REGISTER_COUNT
        &&& self.stack.len() <= STACK_DEPTH
        &&& forall|k: int| 0 <= k < self.stack.len() ==> #[trigger] self.stack[k] < MEMORY_SIZE - 1
        &&& self.waiting is Some ==> self.waiting.unwrap() < REGISTER_COUNT && self.pc
            < MEMORY_SIZE - 1
    }

    /// The state with the program counter moved past the current opcode.
    pub open spec fn advanced(self) -> CpuState {
        CpuState { pc: (self.pc + 2) as u16, ..self }
    }

    /// The state with the program counter moved past the current opcode and the next one.
    pub open spec fn skipped(self) -> CpuState {
        CpuState { pc: (self.pc + 4) as u16, ..self }
    }

    /// The state with register `x` set to `val`.
    pub open spec fn set_reg(self, x: int, val: u8) -> CpuState {
        CpuState { v: self.v.update(x, val), ..self }
    }
}

/// The state of a fresh processor.
pub open spec fn initial_cpu() -> CpuState {
    CpuState {
        v: Seq::new(REGISTER_COUNT as nat, |r: int| 0u8),
        pc: PROGRAM_OFFSET,
        i: 0,
        stack: Seq::empty(),
        delay: 0,
        sound: 0,
        waiting: None,
    }
}

/// Whether key `k` is down; values past the keypad never are.
pub open spec fn key_down(keys: Seq<bool>, k: u8) -> bool {
    k < KEY_COUNT && keys[k as int]
}

/// `a + b` modulo 256.
pub open spec fn add8(a: u8, b: u8) -> u8 {
    if a as int + b as int > 255 {
        (a as int + b as int - 256) as u8
    } else {
        (a as int + b as int) as u8
    }
}

/// `a - b` modulo 256.
pub open spec fn sub8(a: u8, b: u8) -> u8 {
    if a >= b {
        (a - b) as u8
    } else {
        (a as int - b as int + 256) as u8
    }
}

/// Memory with `vals` written from address `at` on.
pub open spec fn written(mem: Seq<u8>, at: int, vals: Seq<u8>) -> Seq<u8> {
    Seq::new(mem.len(), |a: int| if at <= a < at + vals.len() { vals[a - at] } else { mem[a] })
}

/// The three decimal digits of `b`, hundreds first.
pub open spec fn bcd(b: u8) -> Seq<u8> {
    seq![(b / 100) as u8, ((b / 10) % 10) as u8, (b % 10) as u8]
}

/// The outcome of one executed instruction: processor, memory and pixels afterwards.
pub type Outcome = Result<(CpuState, Seq<u8>, Seq<bool>), Chip8Error>;

/// What executing `ins`, fetched at `s.pc`, does, given the keypad and a random byte.
pub open spec fn execute_spec(
    s: CpuState,
    mem: Seq<u8>,
    px: Seq<bool>,
    ins: Instruction,
    keys: Seq<bool>,
    random: u8,
) -> Outcome {
    let v = s.v;
    match ins {
        Instruction::Sys(_) => Ok((s.advanced(), mem, px)),
        Instruction::Clear => Ok((s.advanced(), mem, blank())),
        Instruction::Return => if s.stack.len() == 0 {
            Err(Chip8Error::StackUnderflow)
        } else {
            Ok((CpuState { pc: (s.stack.last() + 2) as u16, stack: s.stack.drop_last(), ..s }, mem, px))
        },
        Instruction::Jump(a) => Ok((CpuState { pc: a, ..s }, mem, px)),
        Instruction::Call(a) => if s.stack.len() >= STACK_DEPTH {
            Err(Chip8Error::StackOverflow)
        } else {
            Ok((CpuState { pc: a, stack: s.stack.push(s.pc), ..s }, mem, px))
        },
        Instruction::SkipEqImm(x, nn) => Ok((if v[x as int] == nn { s.skipped() } else { s.advanced() }, mem, px)),
        Instruction::SkipNeImm(x, nn) => Ok((if v[x as int] != nn { s.skipped() } else { s.advanced() }, mem, px)),
        Instruction::SkipEqReg(x, y) => Ok((if v[x as int] == v[y as int] { s.skipped() } else { s.advanced() }, mem, px)),
        Instruction::LoadImm(x, nn) => Ok((s.set_reg(x as int, nn).advanced(), mem, px)),
        Instruction::AddImm(x, nn) => Ok((s.set_reg(x as int, add8(v[x as int], nn)).advanced(), mem, px)),
        Instruction::Move(x, y) => Ok((s.set_reg(x as int, v[y as int]).advanced(), mem, px)),
        Instruction::Or(x, y) => Ok((s.set_reg(x as int, v[x as int] | v[y as int]).advanced(), mem, px)),
        Instruction::And(x, y) => Ok((s.set_reg(x as int, v[x as int] & v[y as int]).advanced(), mem, px)),
        Instruction::Xor(x, y) => Ok((s.set_reg(x as int, v[x as int] ^ v[y as int]).advanced(), mem, px)),
        Instruction::AddReg(x, y) => Ok((
            s.set_reg(x as int, add8(v[x as int], v[y as int])).set_reg(
                FLAG as int,
                if v[x as int] as int + v[y as int] as int > 255 { 1u8 } else { 0u8 },
            ).advanced(),
            mem,
            px,
        )),
        Instruction::SubReg(x, y) => Ok((
            s.set_reg(x as int, sub8(v[x as int], v[y as int])).set_reg(
                FLAG as int,
                if v[x as int] < v[y as int] { 0u8 } else { 1u8 },
            ).advanced(),
            mem,
            px,
        )),
        Instruction::ShiftRight(x, y) => Ok((
            s.set_reg(FLAG as int, v[y as int] % 2).set_reg(x as int, v[y as int] / 2).advanced(),
            mem,
            px,
        )),
        Instruction::SubRev(x, y) => Ok((
            s.set_reg(x as int, sub8(v[y as int], v[x as int])).set_reg(
                FLAG as int,
                if v[y as int] < v[x as int] { 0u8 } else { 1u8 },
            ).advanced(),
            mem,
            px,
        )),
        Instruction::ShiftLeft(x, y) => Ok((
            s.set_reg(FLAG as int, v[y as int] / 128).set_reg(x as int, add8(v[y as int], v[y as int])).advanced(),
            mem,
            px,
        )),
        Instruction::SkipNeReg(x, y) => Ok((if v[x as int] != v[y as int] { s.skipped() } else { s.advanced() }, mem, px)),
        Instruction::LoadIndex(a) => Ok((CpuState { i: a, ..s }.advanced(), mem, px)),
        Instruction::JumpOffset(a) => Ok((CpuState { pc: (a + v[0]) as u16, ..s }, mem, px)),
        Instruction::Random(x, nn) => Ok((s.set_reg(x as int, random & nn).advanced(), mem, px)),
        Instruction::Draw(x, y, n) => if s.i as int + n as int > MEMORY_SIZE {
            Err(Chip8Error::OutOfBounds)
        } else {
            let sprite = mem.subrange(s.i as int, s.i as int + n as int);
            Ok((
                s.set_reg(
                    FLAG as int,
                    if collides(px, sprite, v[x as int] as int, v[y as int] as int) { 1u8 } else { 0u8 },
                ).advanced(),
                mem,
                drawn(px, sprite, v[x as int] as int, v[y as int] as int),
            ))
        },
        Instruction::SkipKey(x) => Ok((if key_down(keys, v[x as int]) { s.skipped() } else { s.advanced() }, mem, px)),
        Instruction::SkipNoKey(x) => Ok((if !key_down(keys, v[x as int]) { s.skipped() } else { s.advanced() }, mem, px)),
        Instruction::ReadDelay(x) => Ok((s.set_reg(x as int, s.delay).advanced(), mem, px)),
        Instruction::WaitKey(x) => Ok((CpuState { waiting: Some(x), ..s }, mem, px)),
        Instruction::SetDelay(x) => Ok((CpuState { delay: v[x as int], ..s }.advanced(), mem, px)),
        Instruction::SetSound(x) => Ok((CpuState { sound: v[x as int], ..s }.advanced(), mem, px)),
        Instruction::AddIndex(x) => Ok((CpuState { i: ((s.i as int + v[x as int] as int) % 0x1000) as u16, ..s }.advanced(), mem, px)),
        Instruction::Glyph(x) => Ok((CpuState { i: (v[x as int] as int * 5) as u16, ..s }.advanced(), mem, px)),
        Instruction::Bcd(x) => if s.i as int + 3 > MEMORY_SIZE {
            Err(Chip8Error::OutOfBounds)
        } else {
            Ok((s.advanced(), written(mem, s.i as int, bcd(v[x as int])), px))
        },
        Instruction::StoreRegs(x) => if s.i as int + x as int + 1 > MEMORY_SIZE {
            Err(Chip8Error::OutOfBounds)
        } else {
            Ok((s.advanced(), written(mem, s.i as int, v.take(x as int + 1)), px))
        },
        Instruction::LoadRegs(x) => if s.i as int + x as int + 1 > MEMORY_SIZE {
            Err(Chip8Error::OutOfBounds)
        } else {
            Ok((
                CpuState {
                    v: Seq::new(REGISTER_COUNT as nat, |r: int| if r <= x { mem[s.i + r] } else { v[r] }),
                    ..s
                }.advanced(),
                mem,
                px,
            ))
        },
    }
}

/// What one `step` does: nothing while waiting for a key; otherwise fetch the two bytes at
/// the program counter, decode them and execute the instruction.
pub open spec fn step_spec(s: CpuState, mem: Seq<u8>, px: Seq<bool>, keys: Seq<bool>, random: u8) -> Outcome {
    if s.waiting is Some {
        Ok((s, mem, px))
    } else if s.pc as int + 1 >= MEMORY_SIZE {
        Err(Chip8Error::OutOfBounds)
    } else {
        match decode_spec(mem[s.pc as int], mem[s.pc as int + 1]) {
            None => Err(Chip8Error::InvalidOpcode),
            Some(ins) => execute_spec(s, mem, px, ins, keys, random),
        }
    }
}

/// Whether a call that returned `r` and left `cpu`, `mem` and `px` behind did what `out`
/// says, starting from `cpu0`, `mem0` and `px0`: on failure nothing changed.
pub open spec fn realizes(
    r: Result<(), Chip8Error>,
    out: Outcome,
    cpu: CpuState,
    mem: Seq<u8>,
    px: Seq<bool>,
    cpu0: CpuState,
    mem0: Seq<u8>,
    px0: Seq<bool>,
) -> bool {
    match out {
        Ok((c, m, p)) => r is Ok && cpu == c && mem == m && px == p,
        Err(e) => r == Err::<(), Chip8Error>(e) && cpu == cpu0 && mem == mem0 && px == px0,
    }
}

/// The state after key `key` is pressed: a pending `FX0A` stores it and moves past the opcode;
/// otherwise nothing changes.
pub open spec fn key_delivered(s: CpuState, key: u8) -> CpuState {
    match s.waiting {
        Some(x) => CpuState { waiting: None, ..s }.set_reg(x as int, key).advanced(),
        None => s,
    }
}

/// The state after one timer tick: each nonzero timer counts down by one.
pub open spec fn ticked(s: CpuState) -> CpuState {
    CpuState {
        delay: if s.delay > 0 { (s.delay - 1) as u8 } else { 0 },
        sound: if s.sound > 0 { (s.sound - 1) as u8 } else { 0 },
        ..s
    }
}

/// The register file, program counter, address register, call stack and timers.
#[derive(Debug)]
pub struct Cpu {
    v: Vec<u8>,
    pc: u16,
    i: u16,
    stack: Vec<u16>,
    delay: u8,
    sound: u8,
    waiting: Option<u8>,
}

impl View for Cpu {
    type V = CpuState;

    closed spec fn view(&self) -> CpuState {
        CpuState {
            v: self.v@,
            pc: self.pc,
            i: self.i,
            stack: self.stack@,
            delay: self.delay,
            sound: self.sound,
            waiting: self.waiting,
        }
    }
}

impl Cpu {
    pub open spec fn wf(&self) -> bool {
        self@.wf()
    }

    /// A processor with zeroed registers and timers, an empty stack, and the program
    /// counter at `PROGRAM_OFFSET`.
    pub fn new() -> (r: Cpu)
        ensures
            r.wf(),
            r@ == initial_cpu(),
    {
        let mut v: Vec<u8> = Vec::new();
        let mut k: usize = 0;
        while k < REGISTER_COUNT
            invariant
                k <= REGISTER_COUNT,
                v@.len() == k,
                forall|j: int| 0 <= j < k ==> v@[j] == 0,
            decreases REGISTER_COUNT - k,
        {
            v.push(0);
            k = k + 1;
        }
        let r = Cpu { v, pc: PROGRAM_OFFSET, i: 0, stack: Vec::new(), delay: 0, sound: 0, waiting: None };
        assert(r@.v == initial_cpu().v);
        r
    }

    /// Register `x`.
    pub fn register(&self, x: u8) -> (r: u8)
        requires
            self.wf(),
            x < REGISTER_COUNT,
        ensures
            r == self@.v[x as int],
    {
        self.v[x as usize]
    }

    /// The program counter.
    pub fn pc(&self) -> (r: u16)
        ensures
            r == self@.pc,
    {
        self.pc
    }

    /// The address register I.
    pub fn index(&self) -> (r: u16)
        ensures
            r == self@.i,
    {
        self.i
    }

    /// The delay timer.
    pub fn delay_timer(&self) -> (r: u8)
        ensures
            r == self@.delay,
    {
        self.delay
    }

    /// The sound timer.
    pub fn sound_timer(&self) -> (r: u8)
        ensures
            r == self@.sound,
    {
        self.sound
    }

    /// Number of pending subroutine calls.
    pub fn stack_depth(&self) -> (r: usize)
        ensures
            r == self@.stack.len(),
    {
        self.stack.len()
    }

    /// Whether the processor is waiting for a key press.
    pub fn is_waiting(&self) -> (r: bool)
        ensures
            r == self@.waiting is Some,
    {
        self.waiting.is_some()
    }

    /// One fetch-decode-execute cycle against `ram` and `display`, given the keys that are
    /// down and a random byte for `CXNN`. While waiting for a key it does nothing. On
    /// failure nothing changes.
    pub fn run_instruction(
        &mut self,
        ram: &mut Ram,
        display: &mut Display,
        keys: &Vec<bool>,
        random: u8,
    ) -> (r: Result<(), Chip8Error>)
        requires
            old(self).wf(),
            old(ram).wf(),
            old(display).wf(),
            keys@.len() == KEY_COUNT,
        ensures
            final(self).wf(),
            final(ram).wf(),
            final(display).wf(),
            realizes(
                r,
                step_spec(old(self)@, old(ram)@, old(display)@, keys@, random),
                final(self)@,
                final(ram)@,
                final(display)@,
                old(self)@,
                old(ram)@,
                old(display)@,
            ),
    {
        if self.waiting.is_some() {
            return Ok(());
        }
        if self.pc as usize + 1 >= MEMORY_SIZE {
            return Err(Chip8Error::OutOfBounds);
        }
        let hi = ram.read_byte(self.pc);
        let lo = ram.read_byte(self.pc + 1);
        let ins = Instruction::decode(hi, lo)?;
        self.execute(ram, display, ins, keys, random)
    }

    /// Delivers a press of key `key`: a pending `FX0A` stores it in its register and the
    /// program moves on. Returns whether the processor was waiting.
    pub fn deliver_key(&mut self, key: u8) -> (r: bool)
        requires
            old(self).wf(),
            key < KEY_COUNT,
        ensures
            final(self).wf(),
            r == old(self)@.waiting is Some,
            final(self)@ == key_delivered(old(self)@, key),
    {
        match self.waiting {
            Some(x) => {
                self.waiting = None;
                self.set_reg(x, key);
                self.advance(false);
                true
            },
            None => false,
        }
    }

    /// Counts each nonzero timer down by one.
    pub fn tick_timers(&mut self)
        requires
            old(self).wf(),
        ensures
            final(self).wf(),
            final(self)@ == ticked(old(self)@),
    {
        if self.delay > 0 {
            self.delay = self.delay - 1;
        }
        if self.sound > 0 {
            self.sound = self.sound - 1;
        }
    }

    fn set_reg(&mut self, x: u8, val: u8)
        requires
            old(self).wf(),
            x < REGISTER_COUNT,
        ensures
            final(self).wf(),
            final(self)@ == old(self)@.set_reg(x as int, val),
    {
        self.v.set(x as usize, val);
    }

    /// Moves the program counter past the current opcode, or past the next one too.
    fn advance(&mut self, skip: bool)
        requires
            old(self).wf(),
            old(self)@.pc < MEMORY_SIZE - 1,
            old(self)@.waiting is None,
        ensures
            final(self).wf(),
            final(self)@ == if skip { old(self)@.skipped() } else { old(self)@.advanced() },
    {
        if skip {
            self.pc = self.pc + 4;
        } else {
            self.pc = self.pc + 2;
        }
    }

    /// Executes `ins`, fetched at the program counter.
    fn execute(
        &mut self,
        ram: &mut Ram,
        display: &mut Display,
        ins: Instruction,
        keys: &Vec<bool>,
        random: u8,
    ) -> (r: Result<(), Chip8Error>)
        requires
            old(self).wf(),
            old(ram).wf(),
            old(display).wf(),
            ins.wf(),
            keys@.len() == KEY_COUNT,
            old(self)@.pc < MEMORY_SIZE - 1,
            old(self)@.waiting is None,
        ensures
            final(self).wf(),
            final(ram).wf(),
            final(display).wf(),
            realizes(
                r,
                execute_spec(old(self)@, old(ram)@, old(display)@, ins, keys@, random),
                final(self)@,
                final(ram)@,
                final(display)@,
                old(self)@,
                old(ram)@,
                old(display)@,
            ),
    {
        match ins {
            Instruction::Sys(..)
            | Instruction::Clear
            | Instruction::Return
            | Instruction::Jump(..)
            | Instruction::Call(..)
            | Instruction::SkipEqImm(..)
            | Instruction::SkipNeImm(..)
            | Instruction::SkipEqReg(..)
            | Instruction::SkipNeReg(..)
            | Instruction::JumpOffset(..)
            | Instruction::SkipKey(..)
            | Instruction::SkipNoKey(..)
            | Instruction::WaitKey(..)
                => self.execute_control(ram, display, ins, keys, random),
            Instruction::LoadImm(..)
            | Instruction::AddImm(..)
            | Instruction::Move(..)
            | Instruction::Or(..)
            | Instruction::And(..)
            | Instruction::Xor(..)
            | Instruction::Random(..)
                => self.execute_arith(ram, display, ins, keys, random),
            Instruction::AddReg(..)
            | Instruction::SubReg(..)
            | Instruction::ShiftRight(..)
            | Instruction::SubRev(..)
            | Instruction::ShiftLeft(..)
                => self.execute_flags(ram, display, ins, keys, random),
            Instruction::LoadIndex(..)
            | Instruction::Draw(..)
            | Instruction::ReadDelay(..)
            | Instruction::SetDelay(..)
            | Instruction::SetSound(..)
            | Instruction::AddIndex(..)
            | Instruction::Glyph(..)
            | Instruction::Bcd(..)
            | Instruction::StoreRegs(..)
            | Instruction::LoadRegs(..)
                => self.execute_other(ram, display, ins, keys, random),
        }
    }

    /// Executes an instruction that clears the screen, waits, or moves the program counter
    /// other than by the usual step.
    #[verifier::rlimit(50)]
    fn execute_control(
        &mut self,
        ram: &mut Ram,
        display: &mut Display,
        ins: Instruction,
        keys: &Vec<bool>,
        random: u8,
    ) -> (r: Result<(), Chip8Error>)
        requires
            old(self).wf(),
            old(ram).wf(),
            old(display).wf(),
            ins.wf(),
            ins is Sys
                || ins is Clear
                || ins is Return
                || ins is Jump
                || ins is Call
                || ins is SkipEqImm
                || ins is SkipNeImm
                || ins is SkipEqReg
                || ins is SkipNeReg
                || ins is JumpOffset
                || ins is SkipKey
                || ins is SkipNoKey
                || ins is WaitKey,
            keys@.len() == KEY_COUNT,
            old(self)@.pc < MEMORY_SIZE - 1,
            old(self)@.waiting is None,
        ensures
            final(self).wf(),
            final(ram).wf(),
            final(display).wf(),
            realizes(
                r,
                execute_spec(old(self)@, old(ram)@, old(display)@, ins, keys@, random),
                final(self)@,
                final(ram)@,
                final(display)@,
                old(self)@,
                old(ram)@,
                old(display)@,
            ),
    {
        match ins {
            Instruction::Sys(_) => {
                self.advance(false);
            },
            Instruction::Clear => {
                display.clear();
                self.advance(false);
            },
            Instruction::Return => {
                if self.stack.len() == 0 {
                    return Err(Chip8Error::StackUnderflow);
                }
                let a = self.stack.pop().unwrap();
                self.pc = a + 2;
            },
            Instruction::Jump(a) => {
                self.pc = a;
            },
            Instruction::Call(a) => {
                if self.stack.len() >= STACK_DEPTH {
                    return Err(Chip8Error::StackOverflow);
                }
                self.stack.push(self.pc);
                self.pc = a;
            },
            Instruction::SkipEqImm(x, nn) => {
                let skip = self.v[x as usize] == nn;
                self.advance(skip);
            },
            Instruction::SkipNeImm(x, nn) => {
                let skip = self.v[x as usize] != nn;
                self.advance(skip);
            },
            Instruction::SkipEqReg(x, y) => {
                let skip = self.v[x as usize] == self.v[y as usize];
                self.advance(skip);
            },
            Instruction::SkipNeReg(x, y) => {
                let skip = self.v[x as usize] != self.v[y as usize];
                self.advance(skip);
            },
            Instruction::JumpOffset(a) => {
                self.pc = a + self.v[0] as u16;
            },
            Instruction::SkipKey(x) => {
                let k = self.v[x as usize];
                let skip = (k as usize) < KEY_COUNT && keys[k as usize];
                self.advance(skip);
            },
            Instruction::SkipNoKey(x) => {
                let k = self.v[x as usize];
                let skip = !((k as usize) < KEY_COUNT && keys[k as usize]);
                self.advance(skip);
            },
            Instruction::WaitKey(x) => {
                self.waiting = Some(x);
            },
            _ => {},  // other instructions are excluded by the precondition
        }
        Ok(())
    }

    /// Executes an instruction that computes a register from registers, an immediate or the
    /// random byte, leaving VF alone.
    #[verifier::rlimit(50)]
    fn execute_arith(
        &mut self,
        ram: &mut Ram,
        display: &mut Display,
        ins: Instruction,
        keys: &Vec<bool>,
        random: u8,
    ) -> (r: Result<(), Chip8Error>)
        requires
            old(self).wf(),
            old(ram).wf(),
            old(display).wf(),
            ins.wf(),
            ins is LoadImm
                || ins is AddImm
                || ins is Move
                || ins is Or
                || ins is And
                || ins is Xor
                || ins is Random,
            keys@.len() == KEY_COUNT,
            old(self)@.pc < MEMORY_SIZE - 1,
            old(self)@.waiting is None,
        ensures
            final(self).wf(),
            final(ram).wf(),
            final(display).wf(),
            realizes(
                r,
                execute_spec(old(self)@, old(ram)@, old(display)@, ins, keys@, random),
                final(self)@,
                final(ram)@,
                final(display)@,
                old(self)@,
                old(ram)@,
                old(display)@,
            ),
    {
        match ins {
            Instruction::LoadImm(x, nn) => {
                self.set_reg(x, nn);
                self.advance(false);
            },
            Instruction::AddImm(x, nn) => {
                let val = self.v[x as usize].wrapping_add(nn);
                self.set_reg(x, val);
                self.advance(false);
            },
            Instruction::Move(x, y) => {
                let val = self.v[y as usize];
                self.set_reg(x, val);
                self.advance(false);
            },
            Instruction::Or(x, y) => {
                let val = self.v[x as usize] | self.v[y as usize];
                self.set_reg(x, val);
                self.advance(false);
            },
            Instruction::And(x, y) => {
                let val = self.v[x as usize] & self.v[y as usize];
                self.set_reg(x, val);
                self.advance(false);
            },
            Instruction::Xor(x, y) => {
                let val = self.v[x as usize] ^ self.v[y as usize];
                self.set_reg(x, val);
                self.advance(false);
            },
            Instruction::Random(x, nn) => {
                self.set_reg(x, random & nn);
                self.advance(false);
            },
            _ => {},  // other instructions are excluded by the precondition
        }
        Ok(())
    }

    /// Executes an instruction that computes a register and sets VF from the operands.
    #[verifier::rlimit(50)]
    fn execute_flags(
        &mut self,
        ram: &mut Ram,
        display: &mut Display,
        ins: Instruction,
        keys: &Vec<bool>,
        random: u8,
    ) -> (r: Result<(), Chip8Error>)
        requires
            old(self).wf(),
            old(ram).wf(),
            old(display).wf(),
            ins.wf(),
            ins is AddReg
                || ins is SubReg
                || ins is ShiftRight
                || ins is SubRev
                || ins is ShiftLeft,
            keys@.len() == KEY_COUNT,
            old(self)@.pc < MEMORY_SIZE - 1,
            old(self)@.waiting is None,
        ensures
            final(self).wf(),
            final(ram).wf(),
            final(display).wf(),
            realizes(
                r,
                execute_spec(old(self)@, old(ram)@, old(display)@, ins, keys@, random),
                final(self)@,
                final(ram)@,
                final(display)@,
                old(self)@,
                old(ram)@,
                old(display)@,
            ),
    {
        match ins {
            Instruction::AddReg(x, y) => {
                let a = self.v[x as usize];
                let b = self.v[y as usize];
                let carry: u8 = if a as u16 + b as u16 > 255 { 1 } else { 0 };
                self.set_two(x, a.wrapping_add(b), FLAG as u8, carry);
            },
            Instruction::SubReg(x, y) => {
                let a = self.v[x as usize];
                let b = self.v[y as usize];
                let no_borrow: u8 = if a < b { 0 } else { 1 };
                self.set_two(x, a.wrapping_sub(b), FLAG as u8, no_borrow);
            },
            Instruction::ShiftRight(x, y) => {
                let b = self.v[y as usize];
                self.set_two(FLAG as u8, b % 2, x, b / 2);
            },
            Instruction::SubRev(x, y) => {
                let a = self.v[x as usize];
                let b = self.v[y as usize];
                let no_borrow: u8 = if b < a { 0 } else { 1 };
                self.set_two(x, b.wrapping_sub(a), FLAG as u8, no_borrow);
            },
            Instruction::ShiftLeft(x, y) => {
                let b = self.v[y as usize];
                self.set_two(FLAG as u8, b / 128, x, b.wrapping_add(b));
            },
            _ => {},  // other instructions are excluded by the precondition
        }
        Ok(())
    }

    /// Sets register `first` to `a`, then register `second` to `b`, and moves past the opcode.
    fn set_two(&mut self, first: u8, a: u8, second: u8, b: u8)
        requires
            old(self).wf(),
            first < REGISTER_COUNT,
            second < REGISTER_COUNT,
            old(self)@.pc < MEMORY_SIZE - 1,
            old(self)@.waiting is None,
        ensures
            final(self).wf(),
            final(self)@ == old(self)@.set_reg(first as int, a).set_reg(second as int, b).advanced(),
    {
        self.set_reg(first, a);
        self.set_reg(second, b);
        self.advance(false);
    }

    /// Executes an instruction on the address register, the timers, the display or a block of memory.
    #[verifier::rlimit(50)]
    fn execute_other(
        &mut self,
        ram: &mut Ram,
        display: &mut Display,
        ins: Instruction,
        keys: &Vec<bool>,
        random: u8,
    ) -> (r: Result<(), Chip8Error>)
        requires
            old(self).wf(),
            old(ram).wf(),
            old(display).wf(),
            ins.wf(),
            ins is LoadIndex
                || ins is Draw
                || ins is ReadDelay
                || ins is SetDelay
                || ins is SetSound
                || ins is AddIndex
                || ins is Glyph
                || ins is Bcd
                || ins is StoreRegs
                || ins is LoadRegs,
            keys@.len() == KEY_COUNT,
            old(self)@.pc < MEMORY_SIZE - 1,
            old(self)@.waiting is None,
        ensures
            final(self).wf(),
            final(ram).wf(),
            final(display).wf(),
            realizes(
                r,
                execute_spec(old(self)@, old(ram)@, old(display)@, ins, keys@, random),
                final(self)@,
                final(ram)@,
                final(display)@,
                old(self)@,
                old(ram)@,
                old(display)@,
            ),
    {
        match ins {
            Instruction::LoadIndex(a) => {
                self.i = a;
                self.advance(false);
            },
            Instruction::Draw(x, y, n) => {
                return self.draw(ram, display, x, y, n);
            },
            Instruction::ReadDelay(x) => {
                let d = self.delay;
                self.set_reg(x, d);
                self.advance(false);
            },
            Instruction::SetDelay(x) => {
                self.delay = self.v[x as usize];
                self.advance(false);
            },
            Instruction::SetSound(x) => {
                self.sound = self.v[x as usize];
                self.advance(false);
            },
            Instruction::AddIndex(x) => {
                self.i = ((self.i as u32 + self.v[x as usize] as u32) % 0x1000) as u16;
                self.advance(false);
            },
            Instruction::Glyph(x) => {
                self.i = self.v[x as usize] as u16 * 5;
                self.advance(false);
            },
            Instruction::Bcd(x) => {
                return self.store_bcd(ram, x);
            },
            Instruction::StoreRegs(x) => {
                return self.store_registers(ram, x);
            },
            Instruction::LoadRegs(x) => {
                return self.load_registers(ram, x);
            },
            _ => {},  // other instructions are excluded by the precondition
        }
        Ok(())
    }

    /// `DXYN`: draws the `n` bytes at I at (VX, VY) and sets VF to the collision flag.
    fn draw(&mut self, ram: &Ram, display: &mut Display, x: u8, y: u8, n: u8) -> (r: Result<(), Chip8Error>)
        requires
            old(self).wf(),
            ram.wf(),
            old(display).wf(),
            x < REGISTER_COUNT,
            y < REGISTER_COUNT,
            n < 16,
            old(self)@.pc < MEMORY_SIZE - 1,
            old(self)@.waiting is None,
        ensures
            final(self).wf(),
            final(display).wf(),
            realizes(
                r,
                execute_spec(old(self)@, ram@, old(display)@, Instruction::Draw(x, y, n), Seq::empty(), 0),
                final(self)@,
                ram@,
                final(display)@,
                old(self)@,
                ram@,
                old(display)@,
            ),
    {
        if self.i as usize + n as usize > MEMORY_SIZE {
            return Err(Chip8Error::OutOfBounds);
        }
        let mut sprite: Vec<u8> = Vec::new();
        let mut k: u16 = 0;
        while k < n as u16
            invariant
                ram.wf(),
                k <= n,
                self.i as int + n as int <= MEMORY_SIZE,
                sprite@ == ram@.subrange(self.i as int, self.i as int + k),
            decreases n - k,
        {
            sprite.push(ram.read_byte(self.i + k));
            k = k + 1;
            assert(sprite@ == ram@.subrange(self.i as int, self.i as int + k));
        }
        let collision = display.draw_sprite(self.v[x as usize], self.v[y as usize], &sprite);
        self.set_reg(FLAG as u8, if collision { 1 } else { 0 });
        self.advance(false);
        Ok(())
    }

    /// `FX33`: stores the decimal digits of VX at I, I+1 and I+2.
    fn store_bcd(&mut self, ram: &mut Ram, x: u8) -> (r: Result<(), Chip8Error>)
        requires
            old(self).wf(),
            old(ram).wf(),
            x < REGISTER_COUNT,
            old(self)@.pc < MEMORY_SIZE - 1,
            old(self)@.waiting is None,
        ensures
            final(self).wf(),
            final(ram).wf(),
            old(self)@.i as int + 3 > MEMORY_SIZE ==> r == Err::<(), Chip8Error>(Chip8Error::OutOfBounds) && final(self)@ == old(self)@
                && final(ram)@ == old(ram)@,
            !(old(self)@.i as int + 3 > MEMORY_SIZE) ==> r is Ok && final(self)@ == old(self)@.advanced() && final(ram)@ == written(old(ram)@, old(self)@.i as int, bcd(old(self)@.v[x as int])),
    {
        if self.i as usize + 3 > MEMORY_SIZE {
            return Err(Chip8Error::OutOfBounds);
        }
        let b = self.v[x as usize];
        ram.write_byte(self.i, b / 100);
        ram.write_byte(self.i + 1, (b / 10) % 10);
        ram.write_byte(self.i + 2, b % 10);
        assert(ram@ == written(old(ram)@, self.i as int, bcd(b)));
        self.advance(false);
        Ok(())
    }

    /// `FX55`: stores V0..=VX from address I on.
    fn store_registers(&mut self, ram: &mut Ram, x: u8) -> (r: Result<(), Chip8Error>)
        requires
            old(self).wf(),
            old(ram).wf(),
            x < REGISTER_COUNT,
            old(self)@.pc < MEMORY_SIZE - 1,
            old(self)@.waiting is None,
        ensures
            final(self).wf(),
            final(ram).wf(),
            old(self)@.i as int + x as int + 1 > MEMORY_SIZE ==> r == Err::<(), Chip8Error>(Chip8Error::OutOfBounds) && final(self)@ == old(self)@
                && final(ram)@ == old(ram)@,
            !(old(self)@.i as int + x as int + 1 > MEMORY_SIZE) ==> r is Ok && final(self)@ == old(self)@.advanced() && final(ram)@ == written(old(ram)@, old(self)@.i as int, old(self)@.v.take(x as int + 1)),
    {
        if self.i as usize + x as usize + 1 > MEMORY_SIZE {
            return Err(Chip8Error::OutOfBounds);
        }
        let mut k: u16 = 0;
        while k <= x as u16
            invariant
                self.wf(),
                ram.wf(),
                x < REGISTER_COUNT,
                k <= x + 1,
                self.i as int + x as int + 1 <= MEMORY_SIZE,
                ram@ == written(old(ram)@, self.i as int, self@.v.take(k as int)),
            decreases x + 1 - k,
        {
            let val = self.v[k as usize];
            ram.write_byte(self.i + k, val);
            k = k + 1;
            assert(ram@ == written(old(ram)@, self.i as int, self@.v.take(k as int)));
        }
        self.advance(false);
        Ok(())
    }

    /// `FX65`: loads V0..=VX from address I on.
    fn load_registers(&mut self, ram: &Ram, x: u8) -> (r: Result<(), Chip8Error>)
        requires
            old(self).wf(),
            ram.wf(),
            x < REGISTER_COUNT,
            old(self)@.pc < MEMORY_SIZE - 1,
            old(self)@.waiting is None,
        ensures
            final(self).wf(),
            old(self)@.i as int + x as int + 1 > MEMORY_SIZE ==> r == Err::<(), Chip8Error>(
                Chip8Error::OutOfBounds,
            ) && final(self)@ == old(self)@,
            !(old(self)@.i as int + x as int + 1 > MEMORY_SIZE) ==> r is Ok && final(self)@ == (CpuState {
                v: Seq::new(
                    REGISTER_COUNT as nat,
                    |r: int| if r <= x { ram@[old(self)@.i + r] } else { old(self)@.v[r] },
                ),
                ..old(self)@
            }).advanced(),
    {
        if self.i as usize + x as usize + 1 > MEMORY_SIZE {
            return Err(Chip8Error::OutOfBounds);
        }
        let ghost v0 = self@.v;
        let mut k: u16 = 0;
        while k <= x as u16
            invariant
                self.wf(),
                ram.wf(),
                x < REGISTER_COUNT,
                k <= x + 1,
                self.i == old(self)@.i,
                self@ == (CpuState { v: self@.v, ..old(self)@ }),
                self.i as int + x as int + 1 <= MEMORY_SIZE,
                v0 == old(self)@.v,
                self@.v == Seq::new(
                    REGISTER_COUNT as nat,
                    |r: int| if r < k { ram@[self.i + r] } else { v0[r] },
                ),
            decreases x + 1 - k,
        {
            let val = ram.read_byte(self.i + k);
            self.set_reg(k as u8, val);
            k = k + 1;
        }
        assert(self@.v == Seq::new(
            REGISTER_COUNT as nat,
            |r: int| if r <= x { ram@[self.i + r] } else { v0[r] },
        ));
        self.advance(false);
        Ok(())
    }
}

} // verus!