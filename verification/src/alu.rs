//! The arithmetic-logic unit: a pure function of two 16-bit operands and a
//! six-bit control code.

use vstd::prelude::*;

use crate::engine::HackEngine;

verus! {

/// Control bit that replaces the x operand by zero.
pub const ZERO_X: u16 = 0x20;

/// Control bit that complements the x operand, after zeroing.
pub const NEGATE_X: u16 = 0x10;

/// Control bit that replaces the y operand by zero.
pub const ZERO_Y: u16 = 0x08;

/// Control bit that complements the y operand, after zeroing.
pub const NEGATE_Y: u16 = 0x04;

/// Control bit that selects addition; when clear the function is bitwise AND.
pub const SELECT_ADD: u16 = 0x02;

/// Control bit that complements the output.
pub const NEGATE_OUT: u16 = 0x01;

/// The x operand as it enters the function unit.
pub open spec fn alu_x(x: u16, code: u16) -> u16 {
    let zeroed = if code & ZERO_X != 0 { 0u16 } else { x };
    if code & NEGATE_X != 0 { !zeroed } else { zeroed }
}

/// The y operand as it enters the function unit.
pub open spec fn alu_y(y: u16, code: u16) -> u16 {
    let zeroed = if code & ZERO_Y != 0 { 0u16 } else { y };
    if code & NEGATE_Y != 0 { !zeroed } else { zeroed }
}

/// What the ALU computes: zero the inputs, complement them, add modulo 2^16
/// or AND, complement the output, each step under its control bit.
pub open spec fn alu_spec(x: u16, y: u16, code: u16) -> u16 {
    let x1 = alu_x(x, code);
    let y1 = alu_y(y, code);
    let f = if code & SELECT_ADD != 0 { ((x1 + y1) % 0x10000) as u16 } else { x1 & y1 };
    if code & NEGATE_OUT != 0 { !f } else { f }
}

impl HackEngine {
    /// Computes the ALU output for operands `x_in`, `y_in` and control code `c`.
    /// Only the low six bits of `c` are read.
    pub fn alu(x_in: u16, y_in: u16, c: u16) -> (out: u16)
        ensures
            out == alu_spec(x_in, y_in, c),
    {
        let x: u16 = if c & ZERO_X != 0 { 0 } else { x_in };
        let x: u16 = if c & NEGATE_X != 0 { !x } else { x };
        let y: u16 = if c & ZERO_Y != 0 { 0 } else { y_in };
        let y: u16 = if c & NEGATE_Y != 0 { !y } else { y };
        let f: u16 = if c & SELECT_ADD != 0 { x.wrapping_add(y) } else { x & y };
        if c & NEGATE_OUT != 0 { !f } else { f }
    }
}

proof fn lemma_alu_logic_codes(x: u16, y: u16)
    by (bit_vector)
    ensures
        alu_spec(x, y, 0x2a) == 0,
        alu_spec(x, y, 0x3f) == 1,
        alu_spec(x, y, 0x3a) == 0xffff,
        alu_spec(x, y, 0x0c) == x,
        alu_spec(x, y, 0x30) == y,
        alu_spec(x, y, 0x0d) == !x,
        alu_spec(x, y, 0x31) == !y,
        alu_spec(x, y, 0x00) == x & y,
        alu_spec(x, y, 0x15) == x | y,
{
}

proof fn lemma_alu_sum_codes(x: u16, y: u16)
    ensures
        alu_spec(x, y, 0x1f) as int == (x + 1) % 0x10000,
        alu_spec(x, y, 0x37) as int == (y + 1) % 0x10000,
        alu_spec(x, y, 0x02) as int == (x + y) % 0x10000,
        alu_spec(x, y, 0x0f) as int == (0x10000 - x) % 0x10000,
        alu_spec(x, y, 0x33) as int == (0x10000 - y) % 0x10000,
        alu_spec(x, y, 0x0e) as int == (x + 0xffff) % 0x10000,
        alu_spec(x, y, 0x32) as int == (y + 0xffff) % 0x10000,
        alu_spec(x, y, 0x13) as int == (x + 0x10000 - y) % 0x10000,
        alu_spec(x, y, 0x07) as int == (y + 0x10000 - x) % 0x10000,
{
    assert(alu_spec(x, y, 0x1f) as int == (x + 1) % 0x10000) by (bit_vector);
    assert(alu_spec(x, y, 0x37) as int == (y + 1) % 0x10000) by (bit_vector);
    assert(alu_spec(x, y, 0x02) as int == (x + y) % 0x10000) by (bit_vector);
    assert(alu_spec(x, y, 0x0f) as int == (0x10000 - x) % 0x10000) by (bit_vector);
    assert(alu_spec(x, y, 0x33) as int == (0x10000 - y) % 0x10000) by (bit_vector);
    assert(alu_spec(x, y, 0x0e) as int == (x + 0xffff) % 0x10000) by (bit_vector);
    assert(alu_spec(x, y, 0x32) as int == (y + 0xffff) % 0x10000) by (bit_vector);
    assert(alu_spec(x, y, 0x13) as int == (x + 0x10000 - y) % 0x10000) by (bit_vector);
    assert(alu_spec(x, y, 0x07) as int == (y + 0x10000 - x) % 0x10000) by (bit_vector);
}

/// Two numbers that differ by 2^16 have the same residue modulo 2^16.
proof fn lemma_residue_shift(r: int, a: int, b: int)
    requires
        r == a % 0x10000,
        a == b + 0x10000,
    ensures
        r == b % 0x10000,
{
}

/// The eighteen canonical control codes compute the constants 0, 1 and -1,
/// the operands, their complements and negations, their successors and
/// predecessors, the sum, both differences, AND and OR, all modulo 2^16.
pub proof fn lemma_alu_canonical_codes(x: u16, y: u16)
    ensures
        alu_spec(x, y, 0x2a) == 0,
        alu_spec(x, y, 0x3f) == 1,
        alu_spec(x, y, 0x3a) as int == (-1int) % 0x10000,
        alu_spec(x, y, 0x0c) == x,
        alu_spec(x, y, 0x30) == y,
        alu_spec(x, y, 0x0d) == !x,
        alu_spec(x, y, 0x31) == !y,
        alu_spec(x, y, 0x0f) as int == (-(x as int)) % 0x10000,
        alu_spec(x, y, 0x33) as int == (-(y as int)) % 0x10000,
        alu_spec(x, y, 0x1f) as int == (x + 1) % 0x10000,
        alu_spec(x, y, 0x37) as int == (y + 1) % 0x10000,
        alu_spec(x, y, 0x0e) as int == (x - 1) % 0x10000,
        alu_spec(x, y, 0x32) as int == (y - 1) % 0x10000,
        alu_spec(x, y, 0x02) as int == (x + y) % 0x10000,
        alu_spec(x, y, 0x13) as int == (x - y) % 0x10000,
        alu_spec(x, y, 0x07) as int == (y - x) % 0x10000,
        alu_spec(x, y, 0x00) == x & y,
        alu_spec(x, y, 0x15) == x | y,
{
    lemma_alu_logic_codes(x, y);
    lemma_alu_sum_codes(x, y);
    lemma_residue_shift(alu_spec(x, y, 0x3a) as int, 0xffff, -1);
    lemma_residue_shift(alu_spec(x, y, 0x0f) as int, 0x10000 - x, -(x as int));
    lemma_residue_shift(alu_spec(x, y, 0x33) as int, 0x10000 - y, -(y as int));
    lemma_residue_shift(alu_spec(x, y, 0x0e) as int, x + 0xffff, x - 1);
    lemma_residue_shift(alu_spec(x, y, 0x32) as int, y + 0xffff, y - 1);
    lemma_residue_shift(alu_spec(x, y, 0x13) as int, x + 0x10000 - y, x - y);
    lemma_residue_shift(alu_spec(x, y, 0x07) as int, y + 0x10000 - x, y - x);
}

/// The control code is read modulo 64: bits above the sixth do not matter.
pub proof fn lemma_alu_reads_six_bits(x: u16, y: u16, code: u16)
    by (bit_vector)
    ensures
        alu_spec(x, y, code) == alu_spec(x, y, code & 0x3f),
{
}

} // verus!
