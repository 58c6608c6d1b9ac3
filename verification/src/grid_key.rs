//! A one-to-one packing of grid positions into 64-bit keys, so that maps over
//! positions can use integer keys.

use vstd::prelude::*;

verus! {

/// Packs a position: the column shifted to `0..2^32` in the high half, the row in the low half.
pub open spec fn pos_key(p: (i32, i32)) -> u64 {
    ((p.0 + 2147483648) * 4294967296 + (p.1 + 2147483648)) as u64
}

/// Unpacks a key made by `pos_key`.
pub open spec fn key_pos(k: u64) -> (i32, i32) {
    ((k / 4294967296 - 2147483648) as i32, (k % 4294967296 - 2147483648) as i32)
}

/// Packing and unpacking are inverse bijections between positions and `u64`.
pub proof fn lemma_pos_key_bijection(p: (i32, i32), k: u64)
    ensures
        key_pos(pos_key(p)) == p,
        pos_key(key_pos(k)) == k,
{
    let hi = p.0 + 2147483648;
    let lo = p.1 + 2147483648;
    assert(0 <= hi < 4294967296 && 0 <= lo < 4294967296);
    assert(0 <= hi * 4294967296 + lo < 18446744073709551616) by (nonlinear_arith)
        requires
            0 <= hi < 4294967296,
            0 <= lo < 4294967296,
    ;
    assert((hi * 4294967296 + lo) / 4294967296 == hi) by (nonlinear_arith)
        requires
            0 <= lo < 4294967296,
    ;
    assert((hi * 4294967296 + lo) % 4294967296 == lo) by (nonlinear_arith)
        requires
            0 <= lo < 4294967296,
    ;
    let q = k / 4294967296;
    let r = k % 4294967296;
    assert(k == q * 4294967296 + r && 0 <= r < 4294967296 && 0 <= q < 4294967296)
        by (nonlinear_arith)
        requires
            0 <= k < 18446744073709551616,
            q == k / 4294967296,
            r == k % 4294967296,
    ;
}

pub fn encode_pos(p: (i32, i32)) -> (k: u64)
    ensures
        k == pos_key(p),
{
    let hi: u64 = (p.0 as i64 + 2147483648) as u64;
    let lo: u64 = (p.1 as i64 + 2147483648) as u64;
    assert(hi * 4294967296 + lo <= 18446744073709551615) by (nonlinear_arith)
        requires
            hi < 4294967296,
            lo < 4294967296,
    ;
    hi * 4294967296 + lo
}

pub fn decode_key(k: u64) -> (p: (i32, i32))
    ensures
        p == key_pos(k),
{
    let hi: i64 = (k / 4294967296) as i64;
    let lo: i64 = (k % 4294967296) as i64;
    ((hi - 2147483648) as i32, (lo - 2147483648) as i32)
}

} // verus!
