use vstd::prelude::*;

use crate::error::Chip8Error;

verus! {

/// Number of addressable bytes.
pub const MEMORY_SIZE: usize = 4096;

/// Address at which a program image is loaded.
pub const PROGRAM_OFFSET: u16 = 0x200;

/// Largest program image that fits between `PROGRAM_OFFSET` and the end of memory.
pub const MAX_PROGRAM_SIZE: usize = 3584;

/// Number of bytes in one built-in glyph.
pub const GLYPH_SIZE: usize = 5;

/// The sixteen hexadecimal glyphs, five rows each, stored from address 0.
pub open spec fn font() -> Seq<u8> {
    seq![
        0xF0u8, 0x90, 0x90, 0x90, 0xF0,
        0x20, 0x60, 0x20, 0x20, 0x70,
        0xF0, 0x10, 0xF0, 0x80, 0xF0,
        0xF0, 0x10, 0xF0, 0x10, 0xF0,
        0x90, 0x90, 0xF0, 0x10, 0x10,
        0xF0, 0x80, 0xF0, 0x10, 0xF0,
        0xF0, 0x80, 0xF0, 0x90, 0xF0,
        0xF0, 0x10, 0x20, 0x40, 0x40,
        0xF0, 0x90, 0xF0, 0x90, 0xF0,
        0xF0, 0x90, 0xF0, 0x10, 0xF0,
        0xF0, 0x90, 0xF0, 0x90, 0x90,
        0xE0, 0x90, 0xE0, 0x90, 0xE0,
        0xF0, 0x80, 0x80, 0x80, 0xF0,
        0xE0, 0x90, 0x90, 0x90, 0xE0,
        0xF0, 0x80, 0xF0, 0x80, 0xF0,
        0xF0, 0x80, 0xF0, 0x80, 0x80,
    ]
}

/// The contents of a fresh memory: the glyphs, then zeros up to `MEMORY_SIZE`.
pub open spec fn initial_memory() -> Seq<u8> {
    Seq::new(MEMORY_SIZE as nat, |a: int| if a < font().len() { font()[a] } else { 0u8 })
}

/// Memory after a program image is copied to `PROGRAM_OFFSET`.
pub open spec fn loaded(mem: Seq<u8>, program: Seq<u8>) -> Seq<u8> {
    Seq::new(
        mem.len(),
        |a: int|
            if PROGRAM_OFFSET <= a < PROGRAM_OFFSET + program.len() {
                program[a - PROGRAM_OFFSET]
            } else {
                mem[a]
            },
    )
}

/// The machine's byte-addressed memory.
#[derive(Debug)]
pub struct Ram {
    mem: Vec<u8>,
}

impl View for Ram {
    type V = Seq<u8>;

    closed spec fn view(&self) -> Seq<u8> {
        self.mem@
    }
}

impl Ram {
    /// Every memory holds exactly `MEMORY_SIZE` bytes.
    pub open spec fn wf(&self) -> bool {
        self@.len() == MEMORY_SIZE
    }

    /// A memory holding the glyphs at address 0 and zeros elsewhere.
    pub fn new() -> (r: Ram)
        ensures
            r.wf(),
            r@ == initial_memory(),
    {
        let glyphs: [u8; 80] = [
            0xF0, 0x90, 0x90, 0x90, 0xF0,
            0x20, 0x60, 0x20, 0x20, 0x70,
            0xF0, 0x10, 0xF0, 0x80, 0xF0,
            0xF0, 0x10, 0xF0, 0x10, 0xF0,
            0x90, 0x90, 0xF0, 0x10, 0x10,
            0xF0, 0x80, 0xF0, 0x10, 0xF0,
            0xF0, 0x80, 0xF0, 0x90, 0xF0,
            0xF0, 0x10, 0x20, 0x40, 0x40,
            0xF0, 0x90, 0xF0, 0x90, 0xF0,
            0xF0, 0x90, 0xF0, 0x10, 0xF0,
            0xF0, 0x90, 0xF0, 0x90, 0x90,
            0xE0, 0x90, 0xE0, 0x90, 0xE0,
            0xF0, 0x80, 0x80, 0x80, 0xF0,
            0xE0, 0x90, 0x90, 0x90, 0xE0,
            0xF0, 0x80, 0xF0, 0x80, 0xF0,
            0xF0, 0x80, 0xF0, 0x80, 0x80,
        ];
        assert(glyphs@ == font());
        let mut mem: Vec<u8> = Vec::with_capacity(MEMORY_SIZE);
        let mut a: usize = 0;
        while a < MEMORY_SIZE
            invariant
                a <= MEMORY_SIZE,
                glyphs@ == font(),
                mem@.len() == a,
                forall|j: int| 0 <= j < a ==> mem@[j] == initial_memory()[j],
            decreases MEMORY_SIZE - a,
        {
            if a < 80 {
                mem.push(glyphs[a]);
            } else {
                mem.push(0);
            }
            a = a + 1;
        }
        assert(mem@ == initial_memory());
        Ram { mem }
    }

    /// Stores `value` at `address`.
    pub fn write_byte(&mut self, address: u16, value: u8)
        requires
            old(self).wf(),
            address < MEMORY_SIZE,
        ensures
            final(self).wf(),
            final(self)@ == old(self)@.update(address as int, value),
    {
        self.mem.set(address as usize, value);
    }

    /// The byte at `address`.
    pub fn read_byte(&self, address: u16) -> (r: u8)
        requires
            self.wf(),
            address < MEMORY_SIZE,
        ensures
            r == self@[address as int],
    {
        self.mem[address as usize]
    }

    /// Copies `program` to `PROGRAM_OFFSET`, or fails with `OutOfBounds`, changing
    /// nothing, when it is longer than `MAX_PROGRAM_SIZE`.
    pub fn load_program(&mut self, program: &Vec<u8>) -> (r: Result<(), Chip8Error>)
        requires
            old(self).wf(),
        ensures
            final(self).wf(),
            program@.len() <= MAX_PROGRAM_SIZE ==> r is Ok && final(self)@ == loaded(
                old(self)@,
                program@,
            ),
            program@.len() > MAX_PROGRAM_SIZE ==> r == Err::<(), Chip8Error>(
                Chip8Error::OutOfBounds,
            ) && final(self)@ == old(self)@,
    {
        if program.len() > MAX_PROGRAM_SIZE {
            return Err(Chip8Error::OutOfBounds);
        }
        let mut k: usize = 0;
        while k < program.len()
            invariant
                program@.len() <= MAX_PROGRAM_SIZE,
                k <= program@.len(),
                self.wf(),
                forall|a: int|
                    0 <= a < MEMORY_SIZE ==> self@[a] == if PROGRAM_OFFSET <= a < PROGRAM_OFFSET
                        + k {
                        program@[a - PROGRAM_OFFSET]
                    } else {
                        old(self)@[a]
                    },
            decreases program@.len() - k,
        {
            self.mem.set(PROGRAM_OFFSET as usize + k, program[k]);
            k = k + 1;
        }
        assert(self@ == loaded(old(self)@, program@));
        Ok(())
    }
}

} // verus!
