use vstd::prelude::*;

verus! {

/// The sum of two 16-bit words, modulo 2^16.
pub open spec fn wrap16_add(x: u16, y: u16) -> u16 {
    ((x + y) % 0x10000) as u16
}

/// The difference of two 16-bit words, modulo 2^16.
pub open spec fn wrap16_sub(x: u16, y: u16) -> u16 {
    ((x - y + 0x10000) % 0x10000) as u16
}

/// The output word of the Hack ALU for inputs `x`, `y` and the six control bits:
/// zero then negate each input, then add (`f`) or and (`!f`), then negate the output.
#[verifier::opaque]
pub open spec fn alu_out(x: u16, y: u16, zx: bool, nx: bool, zy: bool, ny: bool, f: bool, no: bool) -> u16 {
    let x1: u16 = if zx { 0u16 } else { x };
    let x2: u16 = if nx { !x1 } else { x1 };
    let y1: u16 = if zy { 0u16 } else { y };
    let y2: u16 = if ny { !y1 } else { y1 };
    let o: u16 = if f { wrap16_add(x2, y2) } else { x2 & y2 };
    if no { !o } else { o }
}

/// A word is negative when read as a two's complement number, that is when its top bit is set.
pub open spec fn is_negative(w: u16) -> bool {
    w >= 0x8000
}

/// The ALU function table: each of the eighteen control settings of the Hack ALU
/// computes the function of `x` and `y` named beside it.
pub proof fn lemma_alu_table(x: u16, y: u16)
    ensures
        alu_out(x, y, true, false, true, false, true, false) == 0,
        alu_out(x, y, true, true, true, true, true, true) == 1,
        alu_out(x, y, true, true, true, false, true, false) == 0xffff,
        alu_out(x, y, false, false, true, true, false, false) == x,
        alu_out(x, y, true, true, false, false, false, false) == y,
        alu_out(x, y, false, false, true, true, false, true) == !x,
        alu_out(x, y, true, true, false, false, false, true) == !y,
        alu_out(x, y, false, false, true, true, true, true) == wrap16_sub(0, x),
        alu_out(x, y, true, true, false, false, true, true) == wrap16_sub(0, y),
        alu_out(x, y, false, true, true, true, true, true) == wrap16_add(x, 1),
        alu_out(x, y, true, true, false, true, true, true) == wrap16_add(y, 1),
        alu_out(x, y, false, false, true, true, true, false) == wrap16_sub(x, 1),
        alu_out(x, y, true, true, false, false, true, false) == wrap16_sub(y, 1),
        alu_out(x, y, false, false, false, false, true, false) == wrap16_add(x, y),
        alu_out(x, y, false, true, false, false, true, true) == wrap16_sub(x, y),
        alu_out(x, y, false, false, false, true, true, true) == wrap16_sub(y, x),
        alu_out(x, y, false, false, false, false, false, false) == x & y,
        alu_out(x, y, false, true, false, true, false, true) == x | y,
{
    reveal(alu_out);
    assert(alu_out(x, y, true, false, true, false, true, false) == 0) by (bit_vector);
    assert(alu_out(x, y, true, true, true, true, true, true) == 1) by (bit_vector);
    assert(alu_out(x, y, true, true, true, false, true, false) == 0xffff) by (bit_vector);
    assert(alu_out(x, y, false, false, true, true, false, false) == x) by (bit_vector);
    assert(alu_out(x, y, true, true, false, false, false, false) == y) by (bit_vector);
    assert(alu_out(x, y, false, false, true, true, false, true) == !x) by (bit_vector);
    assert(alu_out(x, y, true, true, false, false, false, true) == !y) by (bit_vector);
    assert(alu_out(x, y, false, false, true, true, true, true) == wrap16_sub(0, x)) by (bit_vector);
    assert(alu_out(x, y, true, true, false, false, true, true) == wrap16_sub(0, y)) by (bit_vector);
    assert(alu_out(x, y, false, true, true, true, true, true) == wrap16_add(x, 1)) by (bit_vector);
    assert(alu_out(x, y, true, true, false, true, true, true) == wrap16_add(y, 1)) by (bit_vector);
    assert(alu_out(x, y, false, false, true, true, true, false) == wrap16_sub(x, 1)) by (bit_vector);
    assert(alu_out(x, y, true, true, false, false, true, false) == wrap16_sub(y, 1)) by (bit_vector);
    assert(alu_out(x, y, false, false, false, false, true, false) == wrap16_add(x, y)) by (bit_vector);
    assert(alu_out(x, y, false, true, false, false, true, true) == wrap16_sub(x, y)) by (bit_vector);
    assert(alu_out(x, y, false, false, false, true, true, true) == wrap16_sub(y, x)) by (bit_vector);
    assert(alu_out(x, y, false, false, false, false, false, false) == x & y) by (bit_vector);
    assert(alu_out(x, y, false, true, false, true, false, true) == x | y) by (bit_vector);
}

/// The Hack arithmetic-logic unit.
pub struct Alu;

impl Alu {
    /// Computes the ALU output and its two status flags: `zr` (the output is zero)
    /// and `ng` (the output is negative).
    pub fn compute(x: u16, y: u16, zx: bool, nx: bool, zy: bool, ny: bool, f: bool, no: bool) -> (res: (u16, bool, bool))
        ensures
            res.0 == alu_out(x, y, zx, nx, zy, ny, f, no),
            res.1 == (res.0 == 0),
            res.2 == is_negative(res.0),
    {
        reveal(alu_out);
        let x = if zx { 0 } else { x };
        let x = if nx { !x } else { x };
        let y = if zy { 0 } else { y };
        let y = if ny { !y } else { y };
        let out = if f { x.wrapping_add(y) } else { x & y };
        let out = if no { !out } else { out };
        let zr = out == 0;
        let ng = (out & 0x8000) != 0;
        assert(((out & 0x8000) != 0) == (out >= 0x8000)) by (bit_vector);
        (out, zr, ng)
    }
}

} // verus!
