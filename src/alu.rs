//! Pure 16-bit integer operations. Flag updates are the caller's concern.
use vstd::prelude::*;

verus! {

/// The low 16 bits of `a + b`.
pub open spec fn add_spec(a: u16, b: u16) -> u16 {
    ((a as int + b as int) % 0x10000) as u16
}

/// The low 16 bits of `a - b`.
pub open spec fn sub_spec(a: u16, b: u16) -> u16 {
    ((a as int - b as int + 0x10000) % 0x10000) as u16
}

/// Adds two 16-bit values; the carry is the unsigned overflow past 0xFFFF.
pub fn add(a: u16, b: u16) -> (r: (u16, bool))
    ensures
        r.0 == add_spec(a, b),
        r.1 == (a as int + b as int > 0xFFFF),
{
    let result = a.wrapping_add(b);
    let carry = (a as u32 + b as u32) > 0xFFFF;
    (result, carry)
}

/// Subtracts `b` from `a`; the carry is the borrow, `a < b`.
pub fn sub(a: u16, b: u16) -> (r: (u16, bool))
    ensures
        r.0 == sub_spec(a, b),
        r.1 == (a < b),
{
    let result = a.wrapping_sub(b);
    let carry = a < b;
    (result, carry)
}

pub fn and(a: u16, b: u16) -> (r: u16)
    ensures
        r == a & b,
{
    a & b
}

pub fn or(a: u16, b: u16) -> (r: u16)
    ensures
        r == a | b,
{
    a | b
}

pub fn xor(a: u16, b: u16) -> (r: u16)
    ensures
        r == a ^ b,
{
    a ^ b
}

pub fn not(a: u16) -> (r: u16)
    ensures
        r == !a,
{
    !a
}

/// `a` shifted left by `amount`; amounts of 16 or more give 0.
pub open spec fn shl_spec(a: u16, amount: u16) -> u16 {
    if amount >= 16 {
        0
    } else {
        a << amount
    }
}

/// `a` shifted right (logically) by `amount`; amounts of 16 or more give 0.
pub open spec fn shr_spec(a: u16, amount: u16) -> u16 {
    if amount >= 16 {
        0
    } else {
        a >> amount
    }
}

pub fn shift_left(a: u16, amount: u16) -> (r: u16)
    ensures
        r == shl_spec(a, amount),
{
    if amount >= 16 {
        0
    } else {
        a << amount
    }
}

pub fn shift_right(a: u16, amount: u16) -> (r: u16)
    ensures
        r == shr_spec(a, amount),
{
    if amount >= 16 {
        0
    } else {
        a >> amount
    }
}

} // verus!
