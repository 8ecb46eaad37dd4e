//! Rotation of 64-bit words.

use vstd::prelude::*;

verus! {

/// `x` rotated left by `n` bits.
pub open spec fn rotl(x: u64, n: u32) -> u64 {
    if n == 0 {
        x
    } else {
        (x << (n as u64)) | (x >> ((64 - n) as u64))
    }
}

/// `x` rotated right by `n` bits.
pub open spec fn rotr(x: u64, n: u32) -> u64 {
    if n == 0 {
        x
    } else {
        (x >> (n as u64)) | (x << ((64 - n) as u64))
    }
}

/// Rotate left.
pub fn rotate_left(x: u64, n: u32) -> (out: u64)
    requires
        n < 64,
    ensures
        out == rotl(x, n),
{
    if n == 0 {
        x
    } else {
        (x << n) | (x >> (64 - n))
    }
}

/// Rotate right.
pub fn rotate_right(x: u64, n: u32) -> (out: u64)
    requires
        n < 64,
    ensures
        out == rotr(x, n),
{
    if n == 0 {
        x
    } else {
        (x >> n) | (x << (64 - n))
    }
}

/// Rotations by the same amount in opposite directions undo each other.
pub proof fn lemma_rotations_inverse(x: u64, n: u32)
    requires
        n < 64,
    ensures
        rotr(rotl(x, n), n) == x,
        rotl(rotr(x, n), n) == x,
{
    if n > 0 {
        let a = n as u64;
        let b = (64 - n) as u64;
        assert(((((x << a) | (x >> b)) >> a) | (((x << a) | (x >> b)) << b)) == x && ((((x >> a)
            | (x << b)) << a) | (((x >> a) | (x << b)) >> b)) == x) by (bit_vector)
            requires
                0 < a < 64,
                b == 64 - a,
        ;
    }
}

/// Where the bits go: bit `i` moves up by `n` places in a rotation to the left and down by `n`
/// in one to the right, and what leaves the word on one side comes back on the other.
pub proof fn law_rotations_bit_by_bit(x: u64, n: u32, i: u64)
    requires
        n < 64,
        i < 64,
    ensures
        (rotl(x, n) >> ((i + n) % 64) as u64) & 1 == (x >> i) & 1,
        (rotr(x, n) >> i) & 1 == (x >> ((i + n) % 64) as u64) & 1,
{
    let a = n as u64;
    let b = (64 - n) as u64;
    let j = ((i + n) % 64) as u64;
    if n > 0 {
        assert((((x << a) | (x >> b)) >> j) & 1 == (x >> i) & 1 && (((x >> a) | (x << b)) >> i) & 1
            == (x >> j) & 1) by (bit_vector)
            requires
                0 < a < 64,
                b == 64 - a,
                i < 64,
                j == (i + a) % 64,
        ;
    }
}

} // verus!
