//! Arithmetic in GF(2^8) modulo the AES polynomial x^8 + x^4 + x^3 + x + 1
//! (0x11B). Addition is XOR; multiplication by a small constant is a sum
//! of repeated doublings.
use vstd::prelude::*;

verus! {

/// Multiplication by x ("xtime"): a left shift by one, reduced by 0x1B when
/// the high bit was set.
pub open spec fn xtime(x: u8) -> u8 {
    (x << 1u8) ^ (if x & 0x80u8 != 0 { 0x1bu8 } else { 0u8 })
}

/// The field product of `a` and the constant `k`: the XOR of `a * x^j` over
/// the set bits `j` of `k`.
pub open spec fn gf_mul(a: u8, k: nat) -> u8
    decreases k,
{
    if k == 0 {
        0
    } else {
        (if k % 2 == 1 { a } else { 0u8 }) ^ gf_mul(xtime(a), k / 2)
    }
}

/// Doubles `val` in GF(2^8). The reduction is selected by a mask computed
/// from the high bit, not by a branch.
pub fn dbl(val: u8) -> (r: u8)
    ensures
        r == xtime(val),
{
    let v = val as u16;
    let high = (v & 0x80u16) >> 7u16;
    assert(high <= 1) by (bit_vector)
        requires
            high == (v & 0x80u16) >> 7u16,
    ;
    let mask = (0x200u16 - high) & 0x11bu16;
    let r = ((v << 1u16) ^ mask) as u8;
    assert(r == xtime(val)) by (bit_vector)
        requires
            v == val as u16,
            high == (v & 0x80u16) >> 7u16,
            mask == ((0x200u16 - high) as u16) & 0x11bu16,
            r == ((v << 1u16) ^ mask) as u8,
    ;
    r
}

/// Multiplies by 2.
pub fn mul_2(val: u8) -> (r: u8)
    ensures
        r == gf_mul(val, 2),
{
    let r = dbl(val);
    assert(r == gf_mul(val, 2)) by (bit_vector)
        requires
            r == xtime(val),
    ;
    r
}

/// Multiplies by 3.
pub fn mul_3(val: u8) -> (r: u8)
    ensures
        r == gf_mul(val, 3),
{
    let r = dbl(val) ^ val;
    assert(r == gf_mul(val, 3)) by (bit_vector)
        requires
            r == xtime(val) ^ val,
    ;
    r
}

/// Multiplies by 9.
pub fn mul_9(val: u8) -> (r: u8)
    ensures
        r == gf_mul(val, 9),
{
    let r = dbl(dbl(dbl(val))) ^ val;
    assert(r == gf_mul(val, 9)) by (bit_vector)
        requires
            r == xtime(xtime(xtime(val))) ^ val,
    ;
    r
}

/// Multiplies by 11.
pub fn mul_11(val: u8) -> (r: u8)
    ensures
        r == gf_mul(val, 11),
{
    let a2 = dbl(val);
    let a4 = dbl(a2);
    let a8 = dbl(a4);
    let r = a8 ^ a2 ^ val;
    assert(r == gf_mul(val, 11)) by (bit_vector)
        requires
            a2 == xtime(val),
            a4 == xtime(a2),
            a8 == xtime(a4),
            r == a8 ^ a2 ^ val,
    ;
    r
}

/// Multiplies by 13.
pub fn mul_13(val: u8) -> (r: u8)
    ensures
        r == gf_mul(val, 13),
{
    let a2 = dbl(val);
    let a4 = dbl(a2);
    let a8 = dbl(a4);
    let r = a8 ^ a4 ^ val;
    assert(r == gf_mul(val, 13)) by (bit_vector)
        requires
            a2 == xtime(val),
            a4 == xtime(a2),
            a8 == xtime(a4),
            r == a8 ^ a4 ^ val,
    ;
    r
}

/// Multiplies by 14.
pub fn mul_14(val: u8) -> (r: u8)
    ensures
        r == gf_mul(val, 14),
{
    let a2 = dbl(val);
    let a4 = dbl(a2);
    let a8 = dbl(a4);
    let r = a8 ^ a4 ^ a2;
    assert(r == gf_mul(val, 14)) by (bit_vector)
        requires
            a2 == xtime(val),
            a4 == xtime(a2),
            a8 == xtime(a4),
            r == a8 ^ a4 ^ a2,
    ;
    r
}

} // verus!
