use vstd::prelude::*;

use crate::cpu::{CpuState, FLAG, add8, KEY_COUNT, key_delivered, step_spec};
use crate::display::{PIXEL_COUNT, blank};
use crate::error::Chip8Error;
use crate::ram::{MAX_PROGRAM_SIZE, MEMORY_SIZE, PROGRAM_OFFSET, loaded};

verus! {

/// Whether the processor `s` is running and the opcode `hi lo` sits at its program counter.
pub open spec fn at_opcode(s: CpuState, mem: Seq<u8>, hi: u8, lo: u8) -> bool {
    &&& s.wf()
    &&& mem.len() == MEMORY_SIZE
    &&& s.waiting is None
    &&& s.pc as int + 1 < MEMORY_SIZE
    &&& mem[s.pc as int] == hi
    &&& mem[s.pc as int + 1] == lo
}

/// Loading a program that fits puts its byte `k` at address `PROGRAM_OFFSET + k`, keeps
/// every other byte, and keeps the memory's size.
pub proof fn lemma_load_places_bytes(mem: Seq<u8>, program: Seq<u8>)
    requires
        mem.len() == MEMORY_SIZE,
        program.len() <= MAX_PROGRAM_SIZE,
    ensures
        loaded(mem, program).len() == MEMORY_SIZE,
        forall|k: int| 0 <= k < program.len() ==> #[trigger] loaded(mem, program)[PROGRAM_OFFSET + k] == program[k],
        forall|a: int| 0 <= a < MEMORY_SIZE && !(PROGRAM_OFFSET <= a < PROGRAM_OFFSET + program.len())
            ==> #[trigger] loaded(mem, program)[a] == mem[a],
{
}

/// `6XNN` sets VX to NN, leaves the other registers, memory and display alone, and moves on
/// by one opcode.
pub proof fn lemma_load_immediate(s: CpuState, mem: Seq<u8>, px: Seq<bool>, keys: Seq<bool>, random: u8, x: u8, nn: u8)
    requires
        x < 16,
        at_opcode(s, mem, (0x60 + x) as u8, nn),
    ensures
        step_spec(s, mem, px, keys, random) == Ok::<(CpuState, Seq<u8>, Seq<bool>), Chip8Error>((
            CpuState { v: s.v.update(x as int, nn), pc: (s.pc + 2) as u16, ..s },
            mem,
            px,
        )),
{
    assert(((0x60 + x) as u8) / 16 == 6 && ((0x60 + x) as u8) % 16 == x);
}

/// Two consecutive `7XNN` additions of `a` and then `b` leave VX at the sum modulo 256 and
/// touch no other register, VF included.
pub proof fn lemma_add_immediate_twice(
    s: CpuState,
    mem: Seq<u8>,
    px: Seq<bool>,
    keys: Seq<bool>,
    r1: u8,
    r2: u8,
    x: u8,
    a: u8,
    b: u8,
)
    requires
        x < 16,
        at_opcode(s, mem, (0x70 + x) as u8, a),
        s.pc as int + 3 < MEMORY_SIZE,
        mem[s.pc as int + 2] == (0x70 + x) as u8,
        mem[s.pc as int + 3] == b,
    ensures
        step_spec(s, mem, px, keys, r1) matches Ok((s1, m1, p1)) && step_spec(s1, m1, p1, keys, r2)
            matches Ok((s2, m2, p2)) && s2.v[x as int] == (s.v[x as int] + a + b) % 256 && (forall|
            r: int,
        | 0 <= r < 16 && r != x ==> s2.v[r] == s.v[r]) && s2.v.len() == 16 && s2.pc == s.pc + 4
            && m2 == mem && p2 == px,
{
    lemma_add_immediate(s, mem, px, keys, r1, x, a);
    let s1 = s.set_reg(x as int, add8(s.v[x as int], a)).advanced();
    lemma_add_immediate(s1, mem, px, keys, r2, x, b);
}

proof fn lemma_add_immediate(s: CpuState, mem: Seq<u8>, px: Seq<bool>, keys: Seq<bool>, random: u8, x: u8, nn: u8)
    requires
        x < 16,
        at_opcode(s, mem, (0x70 + x) as u8, nn),
    ensures
        step_spec(s, mem, px, keys, random) == Ok::<(CpuState, Seq<u8>, Seq<bool>), Chip8Error>((
            s.set_reg(x as int, add8(s.v[x as int], nn)).advanced(),
            mem,
            px,
        )),
{
    assert(((0x70 + x) as u8) / 16 == 7 && ((0x70 + x) as u8) % 16 == x);
}

/// `8XY4` sets VF to 1 exactly when VX + VY, taken before the operation, exceeds 255, and
/// otherwise to 0; `8XY5` sets VF to 0 exactly when VY exceeds VX before the operation, and
/// otherwise to 1.
pub proof fn lemma_carry_and_borrow(
    s: CpuState,
    mem: Seq<u8>,
    px: Seq<bool>,
    keys: Seq<bool>,
    random: u8,
    x: u8,
    y: u8,
    last: u8,
)
    requires
        x < 16,
        y < 16,
        last == 4 || last == 5,
        at_opcode(s, mem, (0x80 + x) as u8, (y * 16 + last) as u8),
    ensures
        step_spec(s, mem, px, keys, random) matches Ok((s1, _m, _p)) && (last == 4 ==> (s1.v[FLAG as int] == 1
            <==> s.v[x as int] + s.v[y as int] > 255) && (s1.v[FLAG as int] == 0 <==> s.v[x as int]
            + s.v[y as int] <= 255)) && (last == 5 ==> (s1.v[FLAG as int] == 0 <==> s.v[y as int]
            > s.v[x as int]) && (s1.v[FLAG as int] == 1 <==> s.v[y as int] <= s.v[x as int])),
{
    assert(((0x80 + x) as u8) / 16 == 8 && ((0x80 + x) as u8) % 16 == x);
    assert(((y * 16 + last) as u8) / 16 == y && ((y * 16 + last) as u8) % 16 == last);
}

/// `00E0` leaves an all-off grid of exactly 64×32 pixels.
pub proof fn lemma_clear_blanks(s: CpuState, mem: Seq<u8>, px: Seq<bool>, keys: Seq<bool>, random: u8)
    requires
        at_opcode(s, mem, 0x00, 0xE0),
    ensures
        step_spec(s, mem, px, keys, random) matches Ok((_s1, _m, p)) && p == blank()
            && p.len() == 64 * 32 && forall|k: int| 0 <= k < p.len() ==> !#[trigger] p[k],
{
}

/// `1NNN` sets the program counter to NNN exactly, with no further advance; `3XNN` with VX
/// equal to NN moves the program counter four bytes past the opcode's own address.
pub proof fn lemma_jump_and_skip(
    s: CpuState,
    mem: Seq<u8>,
    px: Seq<bool>,
    keys: Seq<bool>,
    random: u8,
    hi: u8,
    lo: u8,
)
    requires
        at_opcode(s, mem, hi, lo),
        hi / 16 == 1 || (hi / 16 == 3 && s.v[(hi % 16) as int] == lo),
    ensures
        step_spec(s, mem, px, keys, random) matches Ok((s1, m, p)) && m == mem && p == px && (hi / 16
            == 1 ==> s1.pc == (hi % 16) as int * 256 + lo) && (hi / 16 == 3 ==> s1.pc == s.pc + 4),
{
}

/// `FX0A` holds the program counter at its own address, and so does every later step, with
/// any keys down and any random byte, until a key press is delivered; then the program
/// counter moves past the opcode and VX holds the key.
pub proof fn lemma_wait_for_key(
    s: CpuState,
    mem: Seq<u8>,
    px: Seq<bool>,
    keys: Seq<bool>,
    random: u8,
    later_keys: Seq<bool>,
    later_random: u8,
    x: u8,
    key: u8,
)
    requires
        x < 16,
        key < KEY_COUNT,
        at_opcode(s, mem, (0xF0 + x) as u8, 0x0A),
    ensures
        step_spec(s, mem, px, keys, random) matches Ok((s1, m1, p1)) && s1.pc == s.pc && s1.waiting
            == Some(x) && step_spec(s1, m1, p1, later_keys, later_random) == Ok::<
            (CpuState, Seq<u8>, Seq<bool>),
            Chip8Error,
        >((s1, m1, p1)) && key_delivered(s1, key).pc == s.pc + 2 && key_delivered(s1, key).v[x as int]
            == key && key_delivered(s1, key).waiting is None && key_delivered(s1, key).wf(),
{
    assert(((0xF0 + x) as u8) / 16 == 15 && ((0xF0 + x) as u8) % 16 == x);
}

} // verus!
