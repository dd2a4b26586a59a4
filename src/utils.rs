//! Small helpers on instruction fields.
use vstd::prelude::*;

verus! {

/// The low 10 bits of `val` read as a two's-complement number: bit 9 is the sign.
pub open spec fn sign_extend_10_spec(val: u16) -> i16 {
    let v = val as int % 1024;
    if v >= 512 {
        (v - 1024) as i16
    } else {
        v as i16
    }
}

/// Sign-extends a 10-bit immediate to 16 bits; bits above bit 9 are ignored.
pub fn sign_extend_10(val: u16) -> (r: i16)
    ensures
        r == sign_extend_10_spec(val),
        -512 <= r < 512,
{
    let v: u16 = val & 0x3FF;
    assert(v == val % 1024) by (bit_vector)
        requires
            v == val & 0x3FF,
    ;
    if v >= 512 {
        (v as i32 - 1024) as i16
    } else {
        v as i16
    }
}

} // verus!
