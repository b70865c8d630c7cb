//! Numbers on their way between PHP, which has 64 bit signed ones only, and the worker.

use vstd::prelude::*;

verus! {

/// The signed number with the bits of `n`.
pub open spec fn signed(n: u64) -> i64 {
    if n < 0x8000_0000_0000_0000 {
        n as i64
    } else {
        (n - 0x1_0000_0000_0000_0000) as i64
    }
}

/// The unsigned number with the bits of `n`.
pub open spec fn unsigned(n: i64) -> u64 {
    if n >= 0 {
        n as u64
    } else {
        (n + 0x1_0000_0000_0000_0000) as u64
    }
}

/// The unsigned number with the low 32 bits of `n`.
pub open spec fn low_u32(n: i64) -> u32 {
    (n as int % 0x1_0000_0000) as u32
}

/// The signed number with the low 32 bits of `n`.
pub open spec fn low_i32(n: i64) -> i32 {
    let u = n as int % 0x1_0000_0000;
    if u < 0x8000_0000 {
        u as i32
    } else {
        (u - 0x1_0000_0000) as i32
    }
}

/// The signed number with the bits of `n`.
pub fn to_signed(n: u64) -> (r: i64)
    ensures
        r == signed(n),
{
    let r = n as i64;
    assert(n < 0x8000_0000_0000_0000u64 ==> r == n) by (bit_vector)
        requires
            r == n as i64,
    ;
    assert(n >= 0x8000_0000_0000_0000u64 ==> r == n - 0x1_0000_0000_0000_0000) by (bit_vector)
        requires
            r == n as i64,
    ;
    r
}

/// The unsigned number with the bits of `n`.
pub fn to_unsigned(n: i64) -> (r: u64)
    ensures
        r == unsigned(n),
{
    let r = n as u64;
    assert(n >= 0 ==> r == n) by (bit_vector)
        requires
            r == n as u64,
    ;
    assert(n < 0 ==> r == n + 0x1_0000_0000_0000_0000) by (bit_vector)
        requires
            r == n as u64,
    ;
    r
}

/// The unsigned number with the low 32 bits of `n`.
pub fn to_low_u32(n: i64) -> (r: u32)
    ensures
        r == low_u32(n),
{
    let u = to_unsigned(n);
    let r = u as u32;
    assert(r == u % 0x1_0000_0000) by (bit_vector)
        requires
            r == u as u32,
    ;
    r
}

/// The signed number with the low 32 bits of `n`.
pub fn to_low_i32(n: i64) -> (r: i32)
    ensures
        r == low_i32(n),
{
    let u = to_low_u32(n);
    let r = u as i32;
    assert(u < 0x8000_0000u32 ==> r == u) by (bit_vector)
        requires
            r == u as i32,
    ;
    assert(u >= 0x8000_0000u32 ==> r == u - 0x1_0000_0000) by (bit_vector)
        requires
            r == u as i32,
    ;
    r
}

/// A number that was handed to PHP and comes back is the same number.
pub proof fn law_signed_round_trip(n: u64)
    ensures
        unsigned(signed(n)) == n,
{
}

/// A number and what becomes of it agree in their low bits: they differ by a multiple of two
/// to the power of their width. A number that fits is not changed.
pub proof fn law_low_bits_agree(n: u64, m: i64)
    ensures
        (signed(n) - n) % 0x1_0000_0000_0000_0000 == 0,
        (unsigned(m) - m) % 0x1_0000_0000_0000_0000 == 0,
        (low_u32(m) - m) % 0x1_0000_0000 == 0,
        (low_i32(m) - m) % 0x1_0000_0000 == 0,
        n <= i64::MAX ==> signed(n) == n,
        m >= 0 ==> unsigned(m) == m,
        0 <= m <= u32::MAX ==> low_u32(m) == m,
        i32::MIN <= m <= i32::MAX ==> low_i32(m) == m,
{
}

/// Different numbers stay different on the way to PHP and back.
pub proof fn law_signs_keep_numbers_apart(n: u64, k: u64, m: i64)
    ensures
        signed(n) == signed(k) ==> n == k,
        signed(unsigned(m)) == m,
{
}

} // verus!
