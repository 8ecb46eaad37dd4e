//! A 64-bit word as a row of sixteen 4-bit nibbles, the least significant first.

use vstd::prelude::*;

verus! {

/// Nibble `i` of `x`, counted from the least significant end.
pub open spec fn nibble(x: u64, i: int) -> u64 {
    (x >> ((4 * i) as u64)) & 0xf
}

/// Two words with the same nibbles are the same word.
pub proof fn lemma_nibbles_determine_word(x: u64, y: u64)
    requires
        forall|i: int| 0 <= i < 16 ==> #[trigger] nibble(x, i) == nibble(y, i),
    ensures
        x == y,
{
    assert(nibble(x, 0) == nibble(y, 0));
    assert(nibble(x, 1) == nibble(y, 1));
    assert(nibble(x, 2) == nibble(y, 2));
    assert(nibble(x, 3) == nibble(y, 3));
    assert(nibble(x, 4) == nibble(y, 4));
    assert(nibble(x, 5) == nibble(y, 5));
    assert(nibble(x, 6) == nibble(y, 6));
    assert(nibble(x, 7) == nibble(y, 7));
    assert(nibble(x, 8) == nibble(y, 8));
    assert(nibble(x, 9) == nibble(y, 9));
    assert(nibble(x, 10) == nibble(y, 10));
    assert(nibble(x, 11) == nibble(y, 11));
    assert(nibble(x, 12) == nibble(y, 12));
    assert(nibble(x, 13) == nibble(y, 13));
    assert(nibble(x, 14) == nibble(y, 14));
    assert(nibble(x, 15) == nibble(y, 15));
    assert(x == y) by (bit_vector)
        requires
            (x >> 0u64) & 0xf == (y >> 0u64) & 0xf,
            (x >> 4u64) & 0xf == (y >> 4u64) & 0xf,
            (x >> 8u64) & 0xf == (y >> 8u64) & 0xf,
            (x >> 12u64) & 0xf == (y >> 12u64) & 0xf,
            (x >> 16u64) & 0xf == (y >> 16u64) & 0xf,
            (x >> 20u64) & 0xf == (y >> 20u64) & 0xf,
            (x >> 24u64) & 0xf == (y >> 24u64) & 0xf,
            (x >> 28u64) & 0xf == (y >> 28u64) & 0xf,
            (x >> 32u64) & 0xf == (y >> 32u64) & 0xf,
            (x >> 36u64) & 0xf == (y >> 36u64) & 0xf,
            (x >> 40u64) & 0xf == (y >> 40u64) & 0xf,
            (x >> 44u64) & 0xf == (y >> 44u64) & 0xf,
            (x >> 48u64) & 0xf == (y >> 48u64) & 0xf,
            (x >> 52u64) & 0xf == (y >> 52u64) & 0xf,
            (x >> 56u64) & 0xf == (y >> 56u64) & 0xf,
            (x >> 60u64) & 0xf == (y >> 60u64) & 0xf,
    ;
}

/// A nibble is below sixteen.
pub proof fn lemma_nibble_bound(x: u64, i: int)
    ensures
        nibble(x, i) < 16,
{
    let s = (4 * i) as u64;
    assert((x >> s) & 0xf < 16) by (bit_vector);
}

/// Writing a nibble above everything set so far keeps the nibbles below it.
pub proof fn lemma_place_nibble(out: u64, n: u64, k: int)
    requires
        0 <= k < 16,
        n < 16,
        out >> ((4 * k) as u64) == 0,
    ensures
        nibble(out | (n << ((4 * k) as u64)), k) == n,
        forall|i: int|
            0 <= i < k ==> #[trigger] nibble(out | (n << ((4 * k) as u64)), i) == nibble(out, i),
        k < 15 ==> (out | (n << ((4 * k) as u64))) >> ((4 * k + 4) as u64) == 0,
{
    let s = (4 * k) as u64;
    let w = out | (n << s);
    assert(((w >> s) & 0xf) == n && (s < 60 ==> w >> ((s + 4) as u64) == 0)) by (bit_vector)
        requires
            s <= 60,
            n < 16,
            out >> s == 0,
            w == out | (n << s),
    ;
    assert forall|i: int| 0 <= i < k implies #[trigger] nibble(w, i) == nibble(out, i) by {
        let j = (4 * i) as u64;
        assert((w >> j) & 0xf == (out >> j) & 0xf) by (bit_vector)
            requires
                s <= 60,
                j + 4 <= s,
                w == out | (n << s),
        ;
    }
}

} // verus!
