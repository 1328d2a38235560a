//! Encoding of the x86 near jump `jmp rel32` (opcode `E9` followed by a
//! little-endian 32-bit displacement), as written over the start of a hooked
//! function and at the end of a trampoline.
use vstd::prelude::*;
use vstd::arithmetic::div_mod::{lemma_add_mod_noop, lemma_sub_mod_noop, lemma_small_mod, lemma_mod_add_multiples_vanish};

verus! {

/// Opcode byte of `jmp rel32`.
pub const JMP_OPCODE: u8 = 0xE9;

/// Length in bytes of a `jmp rel32` instruction.
pub const JMP_LEN: usize = 5;

/// The size of the 32-bit address space in which the displacement wraps.
pub open spec fn address_space() -> int {
    0x1_0000_0000
}

/// The displacement that a `jmp rel32` placed at `from` needs to reach `to`:
/// the distance from the end of the instruction to `to`, modulo 2^32.
pub open spec fn rel32(from: int, to: int) -> u32 {
    ((to - (from + JMP_LEN)) % address_space()) as u32
}

/// The four little-endian bytes of `v`.
pub open spec fn le32_bytes(v: u32) -> Seq<u8> {
    seq![
        (v % 0x100) as u8,
        ((v / 0x100) % 0x100) as u8,
        ((v / 0x1_0000) % 0x100) as u8,
        ((v / 0x100_0000) % 0x100) as u8,
    ]
}

/// The value of four little-endian bytes.
pub open spec fn le32_value(b: Seq<u8>) -> int {
    b[0] + 0x100 * b[1] + 0x1_0000 * b[2] + 0x100_0000 * b[3]
}

/// The five bytes of a `jmp rel32` at `from` that transfers control to `to`.
pub open spec fn jump_bytes(from: int, to: int) -> Seq<u8> {
    seq![JMP_OPCODE].add(le32_bytes(rel32(from, to)))
}

/// Where a `jmp rel32` whose bytes are `b`, placed at `from`, transfers control
/// in a 32-bit address space.
pub open spec fn jump_landing(from: int, b: Seq<u8>) -> int {
    (from + JMP_LEN + le32_value(b.subrange(1, 5))) % address_space()
}

/// Computes the `rel32` displacement of a jump at `from` towards `to`.
pub fn rel32_displacement(from: usize, to: usize) -> (d: u32)
    ensures
        d == rel32(from as int, to as int),
{
    let m: u64 = 0x1_0000_0000;
    let t: u64 = (to as u64) % m;
    let f: u64 = ((from as u64) % m + 5) % m;
    let d: u64 = if t >= f {
        t - f
    } else {
        t + m - f
    };
    proof {
        let mi = m as int;
        lemma_add_mod_noop(from as int, 5, mi);
        lemma_small_mod(5, m as nat);
        assert(f as int == (from as int + 5) % mi);
        lemma_sub_mod_noop(to as int, from as int + 5, mi);
        assert((t - f) % mi == (to as int - (from as int + 5)) % mi);
        if t >= f {
            lemma_small_mod((t - f) as nat, m as nat);
        } else {
            lemma_mod_add_multiples_vanish(t - f, mi);
            lemma_small_mod((t + m - f) as nat, m as nat);
        }
        assert(d as int == (to as int - (from as int + JMP_LEN)) % address_space());
    }
    d as u32
}

/// Splits `v` into its four little-endian bytes.
pub fn le32_encode(v: u32) -> (b: [u8; 4])
    ensures
        b@ == le32_bytes(v),
{
    let b = [
        (v % 0x100) as u8,
        ((v / 0x100) % 0x100) as u8,
        ((v / 0x1_0000) % 0x100) as u8,
        ((v / 0x100_0000) % 0x100) as u8,
    ];
    assert(b@ =~= le32_bytes(v));
    b
}

/// Encodes the `jmp rel32` that, placed at address `from`, jumps to `to`.
pub fn encode_jump(from: usize, to: usize) -> (jmp: [u8; 5])
    ensures
        jmp@ == jump_bytes(from as int, to as int),
{
    let d = rel32_displacement(from, to);
    let le = le32_encode(d);
    let jmp = [JMP_OPCODE, le[0], le[1], le[2], le[3]];
    assert(jmp@ =~= jump_bytes(from as int, to as int));
    jmp
}

/// Reading back the four bytes of `v` gives `v`.
pub proof fn lemma_le32_roundtrip(v: u32)
    ensures
        le32_value(le32_bytes(v)) == v,
{
    let b = le32_bytes(v);
    assert(le32_value(b) == v) by (nonlinear_arith)
        requires
            b[0] == v % 0x100,
            b[1] == (v / 0x100) % 0x100,
            b[2] == (v / 0x1_0000) % 0x100,
            b[3] == (v / 0x100_0000) % 0x100,
            v < 0x1_0000_0000,
    ;
}

/// A jump encoded at `from` towards `to` is five bytes long, starts with the
/// `jmp rel32` opcode, and transfers control to `to` (in the 32-bit address
/// space, where every address of the hooked process lies).
pub proof fn lemma_jump_lands_on_target(from: int, to: int)
    ensures
        jump_bytes(from, to).len() == JMP_LEN,
        jump_bytes(from, to)[0] == JMP_OPCODE,
        jump_landing(from, jump_bytes(from, to)) == to % address_space(),
        0 <= to < address_space() ==> jump_landing(from, jump_bytes(from, to)) == to,
{
    let d = rel32(from, to);
    let b = jump_bytes(from, to);
    assert(b.subrange(1, 5) =~= le32_bytes(d));
    lemma_le32_roundtrip(d);
    let m = address_space();
    let x = to - (from + JMP_LEN);
    assert(d as int == x % m);
    assert((from + JMP_LEN + x % m) % m == to % m) by (nonlinear_arith)
        requires
            m == 0x1_0000_0000,
            x == to - (from + 5),
    {
        lemma_add_mod_noop(from + 5, x, m);
        lemma_small_mod(0, m as nat);
        assert((from + 5) % m + x % m == (from + 5) % m + x % m);
        lemma_add_mod_noop(from + 5, x % m, m);
        vstd::arithmetic::div_mod::lemma_mod_twice(x, m);
    }
    if 0 <= to < m {
        lemma_small_mod(to as nat, m as nat);
    }
}

} // verus!
