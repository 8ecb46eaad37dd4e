//! PRINCE, a 64-bit block cipher with a 128-bit key and twelve rounds
//! (Borghoff et al., 2012).

use vstd::prelude::*;

use crate::bytes::first_word;
use crate::bytes::lemma_be_value_8;
use crate::bytes::read_first_word;
use crate::bytes::read_second_word;
use crate::bytes::second_word;
use crate::crypto::nibble::lemma_nibble_bound;
use crate::crypto::nibble::lemma_nibbles_determine_word;
use crate::crypto::nibble::lemma_place_nibble;
use crate::crypto::nibble::nibble;
use crate::proxy_src::word_at;

verus! {

/// Round constants, one for each of the twelve key additions.
pub const RC: [u64; 12] = [
    0x0000000000000000,
    0x13198a2e03707344,
    0xa4093822299f31d0,
    0x082efa98ec4e6c89,
    0x452821e638d01377,
    0xbe5466cf34e90c6c,
    0x7ef84f78fd955cb1,
    0x85840851f1ac43aa,
    0xc882d32f25323c54,
    0x64a51195e0e3610d,
    0xd3b5a399ca0c2399,
    0xc0ac29b7c97c50dd,
];

/// The constant by which opposite round constants differ.
pub const ALPHA: u64 = 0xc0ac29b7c97c50dd;

/// The 4-bit S-box.
pub const SBOX: [u8; 16] = [
    0xB, 0xF, 0x3, 0x2, 0xA, 0xC, 0x9, 0x1, 0x6, 0x7, 0x8, 0x0, 0xE, 0x5, 0xD, 0x4,
];

/// The inverse of the S-box.
pub const SBOX_INV: [u8; 16] = [
    0xB, 0x7, 0x3, 0x2, 0xF, 0xD, 0x8, 0x9, 0xA, 0x6, 0x4, 0x0, 0x5, 0xE, 0xC, 0x1,
];

/// Columns of the first 16x16 matrix over GF(2): column `i` is where input bit `i` goes.
pub const M_HAT_0: [u16; 16] = [
    0x0111, 0x2220, 0x4404, 0x8088, 0x1011, 0x0222, 0x4440, 0x8808, 0x1101, 0x2022, 0x0444, 0x8880,
    0x1110, 0x2202, 0x4044, 0x0888,
];

/// Columns of the second matrix: those of the first, each rotated left by four bits.
pub const M_HAT_1: [u16; 16] = [
    0x1110, 0x2202, 0x4044, 0x0888, 0x0111, 0x2220, 0x4404, 0x8088, 0x1011, 0x0222, 0x4440, 0x8808,
    0x1101, 0x2022, 0x0444, 0x8880,
];

/// The bits of each of the four rows of nibbles.
pub const ROW_MASK: [u64; 4] = [
    0xF000_F000_F000_F000,
    0x0F00_0F00_0F00_0F00,
    0x00F0_00F0_00F0_00F0,
    0x000F_000F_000F_000F,
];

// ---------------------------------------------------------------------------
// Substitution layers
// ---------------------------------------------------------------------------

/// The lowest `k` nibbles of `x`, each replaced by its entry in `table`.
pub open spec fn substituted_low(x: u64, table: [u8; 16], k: nat) -> u64
    decreases k,
{
    if k == 0 {
        0
    } else {
        substituted_low(x, table, (k - 1) as nat) | ((table[nibble(x, k - 1) as int] as u64) << ((4
            * (k - 1)) as u64))
    }
}

/// `x` with every nibble replaced by its entry in `table`.
pub open spec fn substituted(x: u64, table: [u8; 16]) -> u64 {
    substituted_low(x, table, 16)
}

/// Every entry of `table` is a nibble.
pub open spec fn is_nibble_table(table: [u8; 16]) -> bool {
    forall|i: int| 0 <= i < 16 ==> #[trigger] table[i] < 16
}

proof fn lemma_substituted_low(x: u64, table: [u8; 16], k: nat)
    requires
        is_nibble_table(table),
        k <= 16,
    ensures
        forall|i: int|
            0 <= i < k ==> #[trigger] nibble(substituted_low(x, table, k), i) == table[nibble(
                x,
                i,
            ) as int],
        k < 16 ==> substituted_low(x, table, k) >> ((4 * k) as u64) == 0,
    decreases k,
{
    if k == 0 {
        assert(0u64 >> 0u64 == 0) by (bit_vector);
    } else {
        let j = (k - 1) as nat;
        lemma_substituted_low(x, table, j);
        lemma_nibble_bound(x, j as int);
        let n = table[nibble(x, j as int) as int] as u64;
        assert(n < 16);
        lemma_place_nibble(substituted_low(x, table, j), n, j as int);
    }
}

/// Each nibble of a substituted word is the table's entry for the nibble it replaces.
pub proof fn lemma_substituted_nibbles(x: u64, table: [u8; 16])
    requires
        is_nibble_table(table),
    ensures
        forall|i: int|
            0 <= i < 16 ==> #[trigger] nibble(substituted(x, table), i) == table[nibble(
                x,
                i,
            ) as int],
{
    lemma_substituted_low(x, table, 16);
}

/// Replace every nibble of `x` by its entry in `table`.
fn substitute(x: u64, table: &[u8; 16]) -> (out: u64)
    requires
        is_nibble_table(*table),
    ensures
        out == substituted(x, *table),
{
    let mut out: u64 = 0;
    let mut val: u64 = x;
    let mut shift: u32 = 0;
    assert(x >> 0u64 == x) by (bit_vector);
    while shift < 64
        invariant
            is_nibble_table(*table),
            shift <= 64,
            shift % 4 == 0,
            shift < 64 ==> val == x >> (shift as u64),
            out == substituted_low(x, *table, (shift / 4) as nat),
        decreases 64 - shift,
    {
        let ghost k = (shift / 4) as int;
        assert(val & 0xF < 16) by (bit_vector);
        assert(val & 0xF == nibble(x, k));
        let nib: usize = (val & 0xF) as usize;
        let sub: u64 = table[nib] as u64;
        out = out | (sub << shift);
        proof {
            let s = shift as u64;
            if s < 60 {
                assert((x >> s) >> 4u64 == x >> ((s + 4) as u64)) by (bit_vector)
                    requires
                        s < 60,
                ;
            }
        }
        val = val >> 4;
        shift = shift + 4;
    }
    out
}

/// Apply the S-box to each of the sixteen nibbles.
pub fn sbox_layer(x: u64) -> (out: u64)
    ensures
        out == substituted(x, SBOX),
        forall|i: int| 0 <= i < 16 ==> #[trigger] nibble(out, i) == SBOX[nibble(x, i) as int],
{
    proof {
        lemma_substituted_nibbles(x, SBOX);
    }
    substitute(x, &SBOX)
}

/// Apply the inverse S-box to each of the sixteen nibbles.
pub fn sbox_inv_layer(x: u64) -> (out: u64)
    ensures
        out == substituted(x, SBOX_INV),
        forall|i: int| 0 <= i < 16 ==> #[trigger] nibble(out, i) == SBOX_INV[nibble(x, i) as int],
{
    proof {
        lemma_substituted_nibbles(x, SBOX_INV);
    }
    substitute(x, &SBOX_INV)
}

/// The S-box and its inverse undo each other on every word.
pub proof fn law_sbox_layers_inverse(x: u64)
    ensures
        substituted(substituted(x, SBOX), SBOX_INV) == x,
        substituted(substituted(x, SBOX_INV), SBOX) == x,
{
    let y = substituted(x, SBOX);
    let z = substituted(x, SBOX_INV);
    lemma_substituted_nibbles(x, SBOX);
    lemma_substituted_nibbles(y, SBOX_INV);
    lemma_substituted_nibbles(x, SBOX_INV);
    lemma_substituted_nibbles(z, SBOX);
    assert forall|i: int| 0 <= i < 16 implies #[trigger] nibble(substituted(y, SBOX_INV), i)
        == nibble(x, i) by {
        lemma_nibble_bound(x, i);
        assert(nibble(y, i) == SBOX[nibble(x, i) as int]);
    }
    lemma_nibbles_determine_word(substituted(y, SBOX_INV), x);
    assert forall|i: int| 0 <= i < 16 implies #[trigger] nibble(substituted(z, SBOX), i) == nibble(
        x,
        i,
    ) by {
        lemma_nibble_bound(x, i);
        assert(nibble(z, i) == SBOX_INV[nibble(x, i) as int]);
    }
    lemma_nibbles_determine_word(substituted(z, SBOX), x);
}

// ---------------------------------------------------------------------------
// Linear layer
// ---------------------------------------------------------------------------

/// The sum over GF(2) of the columns `i < n` for which bit `i` of `val` is set.
pub open spec fn column_sum(val: u16, cols: [u16; 16], n: nat) -> u16
    decreases n,
{
    if n == 0 {
        0
    } else {
        column_sum(val, cols, (n - 1) as nat) ^ (if (val >> ((n - 1) as u16)) & 1 == 1 {
            cols[n - 1]
        } else {
            0
        })
    }
}

/// Multiply the matrix with columns `cols` by the bit vector `val`.
pub fn gf2_mat_mul(val: u16, cols: &[u16; 16]) -> (out: u16)
    ensures
        out == column_sum(val, *cols, 16),
{
    let mut out: u16 = 0;
    let mut i: u32 = 0;
    while i < 16
        invariant
            i <= 16,
            out == column_sum(val, *cols, i as nat),
        decreases 16 - i,
    {
        assert(out ^ 0 == out) by (bit_vector);
        if (val >> i) & 1 == 1 {
            out = out ^ cols[i as usize];
        }
        i = i + 1;
    }
    out
}

/// The 16-bit chunk `k` of `x`, counted from the least significant end.
pub open spec fn chunk(x: u64, k: int) -> u16 {
    ((x >> ((16 * k) as u64)) & 0xFFFF) as u16
}

/// The word with these four chunks, the least significant first.
pub open spec fn word_of_chunks(r0: u16, r1: u16, r2: u16, r3: u16) -> u64 {
    (r0 as u64) | ((r1 as u64) << 16u64) | ((r2 as u64) << 32u64) | ((r3 as u64) << 48u64)
}

/// The M' layer: one of the two matrices on each chunk.
pub open spec fn m_prime_of(x: u64) -> u64 {
    word_of_chunks(
        column_sum(chunk(x, 0), M_HAT_0, 16),
        column_sum(chunk(x, 1), M_HAT_1, 16),
        column_sum(chunk(x, 2), M_HAT_1, 16),
        column_sum(chunk(x, 3), M_HAT_0, 16),
    )
}

/// Apply the M' layer.
pub fn m_prime(x: u64) -> (out: u64)
    ensures
        out == m_prime_of(x),
        m_prime_of(out) == x,
{
    assert(x >> 0u64 == x) by (bit_vector);
    let c0: u16 = (x & 0xFFFF) as u16;
    let c1: u16 = ((x >> 16) & 0xFFFF) as u16;
    let c2: u16 = ((x >> 32) & 0xFFFF) as u16;
    let c3: u16 = ((x >> 48) & 0xFFFF) as u16;

    let r0: u64 = gf2_mat_mul(c0, &M_HAT_0) as u64;
    let r1: u64 = gf2_mat_mul(c1, &M_HAT_1) as u64;
    let r2: u64 = gf2_mat_mul(c2, &M_HAT_1) as u64;
    let r3: u64 = gf2_mat_mul(c3, &M_HAT_0) as u64;

    proof {
        law_m_prime_involution(x);
    }
    r0 | (r1 << 16) | (r2 << 32) | (r3 << 48)
}

spec fn bit_or_zero(v: u16, i: u16, col: u16) -> u16 {
    if (v >> i) & 1 == 1 {
        col
    } else {
        0
    }
}

spec fn hat_0(v: u16) -> u16 {
    0u16 ^ bit_or_zero(v, 0, 0x0111) ^ bit_or_zero(v, 1, 0x2220) ^ bit_or_zero(v, 2, 0x4404)
        ^ bit_or_zero(v, 3, 0x8088) ^ bit_or_zero(v, 4, 0x1011) ^ bit_or_zero(v, 5, 0x0222)
        ^ bit_or_zero(v, 6, 0x4440) ^ bit_or_zero(v, 7, 0x8808) ^ bit_or_zero(v, 8, 0x1101)
        ^ bit_or_zero(v, 9, 0x2022) ^ bit_or_zero(v, 10, 0x0444) ^ bit_or_zero(v, 11, 0x8880)
        ^ bit_or_zero(v, 12, 0x1110) ^ bit_or_zero(v, 13, 0x2202) ^ bit_or_zero(v, 14, 0x4044)
        ^ bit_or_zero(v, 15, 0x0888)
}

spec fn hat_1(v: u16) -> u16 {
    0u16 ^ bit_or_zero(v, 0, 0x1110) ^ bit_or_zero(v, 1, 0x2202) ^ bit_or_zero(v, 2, 0x4044)
        ^ bit_or_zero(v, 3, 0x0888) ^ bit_or_zero(v, 4, 0x0111) ^ bit_or_zero(v, 5, 0x2220)
        ^ bit_or_zero(v, 6, 0x4404) ^ bit_or_zero(v, 7, 0x8088) ^ bit_or_zero(v, 8, 0x1011)
        ^ bit_or_zero(v, 9, 0x0222) ^ bit_or_zero(v, 10, 0x4440) ^ bit_or_zero(v, 11, 0x8808)
        ^ bit_or_zero(v, 12, 0x1101) ^ bit_or_zero(v, 13, 0x2022) ^ bit_or_zero(v, 14, 0x0444)
        ^ bit_or_zero(v, 15, 0x8880)
}

proof fn lemma_hats(v: u16)
    ensures
        column_sum(v, M_HAT_0, 16) == hat_0(v),
        column_sum(v, M_HAT_1, 16) == hat_1(v),
{
    reveal_with_fuel(column_sum, 17);
}

/// Both matrices are their own inverses.
proof fn lemma_matrices_involutory(v: u16)
    ensures
        column_sum(column_sum(v, M_HAT_0, 16), M_HAT_0, 16) == v,
        column_sum(column_sum(v, M_HAT_1, 16), M_HAT_1, 16) == v,
{
    lemma_hats(v);
    lemma_hats(hat_0(v));
    lemma_hats(hat_1(v));
    assert(hat_0(hat_0(v)) == v) by (bit_vector);
    assert(hat_1(hat_1(v)) == v) by (bit_vector);
}

proof fn lemma_chunks_of_word(r0: u16, r1: u16, r2: u16, r3: u16)
    ensures
        chunk(word_of_chunks(r0, r1, r2, r3), 0) == r0,
        chunk(word_of_chunks(r0, r1, r2, r3), 1) == r1,
        chunk(word_of_chunks(r0, r1, r2, r3), 2) == r2,
        chunk(word_of_chunks(r0, r1, r2, r3), 3) == r3,
{
    let w = word_of_chunks(r0, r1, r2, r3);
    assert(((w >> 0u64) & 0xFFFF) as u16 == r0 && ((w >> 16u64) & 0xFFFF) as u16 == r1 && ((w
        >> 32u64) & 0xFFFF) as u16 == r2 && ((w >> 48u64) & 0xFFFF) as u16 == r3) by (bit_vector)
        requires
            w == (r0 as u64) | ((r1 as u64) << 16u64) | ((r2 as u64) << 32u64) | ((r3 as u64)
                << 48u64),
    ;
}

proof fn lemma_word_of_own_chunks(x: u64)
    ensures
        word_of_chunks(chunk(x, 0), chunk(x, 1), chunk(x, 2), chunk(x, 3)) == x,
{
    assert((((x >> 0u64) & 0xFFFF) as u16 as u64) | ((((x >> 16u64) & 0xFFFF) as u16 as u64)
        << 16u64) | ((((x >> 32u64) & 0xFFFF) as u16 as u64) << 32u64) | ((((x >> 48u64)
        & 0xFFFF) as u16 as u64) << 48u64) == x) by (bit_vector);
}

/// The columns of the second matrix are those of the first, each rotated left by four bits.
pub proof fn law_matrices_rotated(i: int)
    requires
        0 <= i < 16,
    ensures
        M_HAT_1[i] == M_HAT_0[i] % 4096 * 16 + M_HAT_0[i] / 4096,
{
    assert(i == 0 || i == 1 || i == 2 || i == 3 || i == 4 || i == 5 || i == 6 || i == 7 || i == 8
        || i == 9 || i == 10 || i == 11 || i == 12 || i == 13 || i == 14 || i == 15);
}

/// The M' layer is its own inverse.
pub proof fn law_m_prime_involution(x: u64)
    ensures
        m_prime_of(m_prime_of(x)) == x,
{
    let (c0, c1, c2, c3) = (chunk(x, 0), chunk(x, 1), chunk(x, 2), chunk(x, 3));
    lemma_matrices_involutory(c0);
    lemma_matrices_involutory(c1);
    lemma_matrices_involutory(c2);
    lemma_matrices_involutory(c3);
    lemma_chunks_of_word(
        column_sum(c0, M_HAT_0, 16),
        column_sum(c1, M_HAT_1, 16),
        column_sum(c2, M_HAT_1, 16),
        column_sum(c3, M_HAT_0, 16),
    );
    lemma_word_of_own_chunks(x);
}

/// `x` rotated left by `n` bits.
pub open spec fn rotated_left(x: u64, n: u64) -> u64 {
    (x << n) | (x >> ((64 - n) as u64))
}

/// Row `r` of nibbles rotated left by `r` chunks, for each of the four rows.
pub open spec fn rows_shifted(x: u64) -> u64 {
    (x & 0xF000_F000_F000_F000) | rotated_left(x & 0x0F00_0F00_0F00_0F00, 16) | rotated_left(
        x & 0x00F0_00F0_00F0_00F0,
        32,
    ) | rotated_left(x & 0x000F_000F_000F_000F, 48)
}

/// Row `r` of nibbles rotated right by `r` chunks, for each of the four rows.
pub open spec fn rows_unshifted(x: u64) -> u64 {
    (x & 0xF000_F000_F000_F000) | rotated_left(x & 0x0F00_0F00_0F00_0F00, 48) | rotated_left(
        x & 0x00F0_00F0_00F0_00F0,
        32,
    ) | rotated_left(x & 0x000F_000F_000F_000F, 16)
}

/// Forward ShiftRows: row `r` moves left by `r` positions.
pub fn shift_rows(x: u64) -> (out: u64)
    ensures
        out == rows_shifted(x),
{
    let mut out: u64 = x & ROW_MASK[0];
    let mut i: u32 = 1;
    while i < 4
        invariant
            1 <= i <= 4,
            i == 1 ==> out == x & 0xF000_F000_F000_F000,
            i == 2 ==> out == (x & 0xF000_F000_F000_F000) | rotated_left(
                x & 0x0F00_0F00_0F00_0F00,
                16,
            ),
            i == 3 ==> out == (x & 0xF000_F000_F000_F000) | rotated_left(
                x & 0x0F00_0F00_0F00_0F00,
                16,
            ) | rotated_left(x & 0x00F0_00F0_00F0_00F0, 32),
            i == 4 ==> out == rows_shifted(x),
        decreases 4 - i,
    {
        let row: u64 = x & ROW_MASK[i as usize];
        let shift: u32 = i * 16;
        out = out | ((row << shift) | (row >> (64 - shift)));
        i = i + 1;
    }
    out
}

/// Inverse ShiftRows: row `r` moves right by `r` positions.
pub fn shift_rows_inv(x: u64) -> (out: u64)
    ensures
        out == rows_unshifted(x),
{
    let mut out: u64 = x & ROW_MASK[0];
    let mut i: u32 = 1;
    while i < 4
        invariant
            1 <= i <= 4,
            i == 1 ==> out == x & 0xF000_F000_F000_F000,
            i == 2 ==> out == (x & 0xF000_F000_F000_F000) | rotated_left(
                x & 0x0F00_0F00_0F00_0F00,
                48,
            ),
            i == 3 ==> out == (x & 0xF000_F000_F000_F000) | rotated_left(
                x & 0x0F00_0F00_0F00_0F00,
                48,
            ) | rotated_left(x & 0x00F0_00F0_00F0_00F0, 32),
            i == 4 ==> out == rows_unshifted(x),
        decreases 4 - i,
    {
        let row: u64 = x & ROW_MASK[i as usize];
        let shift: u32 = i * 16;
        let ghost s = shift as u64;
        assert((row >> s) | (row << ((64 - s) as u64)) == (row << ((64 - s) as u64)) | (row
            >> s)) by (bit_vector);
        out = out | ((row >> shift) | (row << (64 - shift)));
        i = i + 1;
    }
    out
}

/// ShiftRows and its inverse undo each other on every word.
pub proof fn law_shift_rows_inverse(x: u64)
    ensures
        rows_unshifted(rows_shifted(x)) == x,
        rows_shifted(rows_unshifted(x)) == x,
{
    assert(rows_unshifted(rows_shifted(x)) == x) by (bit_vector);
    assert(rows_shifted(rows_unshifted(x)) == x) by (bit_vector);
}

/// The linear layer of the forward rounds: M', then ShiftRows.
pub fn m_layer(x: u64) -> (out: u64)
    ensures
        out == rows_shifted(m_prime_of(x)),
{
    shift_rows(m_prime(x))
}

/// The linear layer of the inverse rounds: inverse ShiftRows, then M'.
pub fn m_layer_inv(x: u64) -> (out: u64)
    ensures
        out == m_prime_of(rows_unshifted(x)),
{
    m_prime(shift_rows_inv(x))
}

// ---------------------------------------------------------------------------
// Core and key schedule
// ---------------------------------------------------------------------------

/// A forward round: substitute, mix, add the round constant `rc` and the key.
pub open spec fn forward_round(s: u64, k1: u64, rc: u64) -> u64 {
    rows_shifted(m_prime_of(substituted(s, SBOX))) ^ (rc ^ k1)
}

/// An inverse round: add the key and the round constant `rc`, unmix, substitute back.
pub open spec fn inverse_round(s: u64, k1: u64, rc: u64) -> u64 {
    substituted(m_prime_of(rows_unshifted(s ^ (k1 ^ rc))), SBOX_INV)
}

/// The state after forward rounds `1` to `n`.
pub open spec fn forward_rounds(s: u64, k1: u64, n: nat) -> u64
    decreases n,
{
    if n == 0 {
        s
    } else {
        forward_round(forward_rounds(s, k1, (n - 1) as nat), k1, RC[n as int])
    }
}

/// The state after inverse rounds `6` to `5 + n`.
pub open spec fn inverse_rounds(s: u64, k1: u64, n: nat) -> u64
    decreases n,
{
    if n == 0 {
        s
    } else {
        inverse_round(inverse_rounds(s, k1, (n - 1) as nat), k1, RC[5 + n as int])
    }
}

/// The middle layer between the forward and the inverse rounds.
pub open spec fn middle_layer(s: u64) -> u64 {
    substituted(m_prime_of(substituted(s, SBOX)), SBOX_INV)
}

/// The twelve-round core under the key half `k1`.
pub open spec fn prince_core(block: u64, k1: u64) -> u64 {
    let forward = forward_rounds(block ^ (k1 ^ RC[0]), k1, 5);
    inverse_rounds(middle_layer(forward), k1, 5) ^ (k1 ^ RC[11])
}

/// The output whitening key derived from the input whitening key.
pub open spec fn whitening_out(k0: u64) -> u64 {
    ((k0 >> 1u64) | (k0 << 63u64)) ^ (k0 >> 63u64)
}

/// The ciphertext of `block` under the 16-byte `key`.
pub open spec fn prince_encrypted(block: u64, key: Seq<u8>) -> u64 {
    prince_core(block ^ first_word(key), second_word(key)) ^ whitening_out(first_word(key))
}

/// The block whose ciphertext is `block` under the 16-byte `key`: the cipher run with
/// the whitening keys exchanged and `ALPHA` added to the core key.
pub open spec fn prince_decrypted(block: u64, key: Seq<u8>) -> u64 {
    prince_core(block ^ whitening_out(first_word(key)), second_word(key) ^ ALPHA) ^ first_word(key)
}

/// Run the twelve-round core.
pub fn prince_core_encrypt(block: u64, k1: u64) -> (out: u64)
    ensures
        out == prince_core(block, k1),
{
    let mut s: u64 = block;
    s = s ^ (k1 ^ RC[0]);
    let ghost start = s;

    let mut r: u32 = 1;
    while r <= 5
        invariant
            1 <= r <= 6,
            s == forward_rounds(start, k1, (r - 1) as nat),
        decreases 6 - r,
    {
        s = sbox_layer(s);
        s = m_layer(s);
        s = s ^ (RC[r as usize] ^ k1);
        r = r + 1;
    }

    s = sbox_layer(s);
    s = m_prime(s);
    s = sbox_inv_layer(s);
    let ghost middle = s;

    r = 6;
    while r <= 10
        invariant
            6 <= r <= 11,
            s == inverse_rounds(middle, k1, (r - 6) as nat),
        decreases 11 - r,
    {
        s = s ^ (k1 ^ RC[r as usize]);
        s = m_layer_inv(s);
        s = sbox_inv_layer(s);
        r = r + 1;
    }

    s ^ (k1 ^ RC[11])
}

/// Encrypt a 64-bit block under a 16-byte key.
///
/// Bytes 0 to 7 of the key are the whitening key, bytes 8 to 15 the core key.
pub fn prince_encrypt(block: u64, key: &[u8; 16]) -> (out: u64)
    ensures
        out == prince_encrypted(block, key@),
        prince_decrypted(out, key@) == block,
{
    let k0: u64 = read_first_word(key);
    let k1: u64 = read_second_word(key);
    let k0_prime: u64 = ((k0 >> 1) | (k0 << 63)) ^ (k0 >> 63);
    let input: u64 = block ^ k0;
    let core_out: u64 = prince_core_encrypt(input, k1);
    proof {
        law_prince_decrypts(block, key@);
    }
    core_out ^ k0_prime
}

/// Decrypt a 64-bit block under a 16-byte key.
pub fn prince_decrypt(block: u64, key: &[u8; 16]) -> (out: u64)
    ensures
        out == prince_decrypted(block, key@),
        prince_encrypted(out, key@) == block,
{
    let k0: u64 = read_first_word(key);
    let k1: u64 = read_second_word(key);
    let k0_prime: u64 = ((k0 >> 1) | (k0 << 63)) ^ (k0 >> 63);
    let k1_dec: u64 = k1 ^ ALPHA;
    let input: u64 = block ^ k0_prime;
    let core_out: u64 = prince_core_encrypt(input, k1_dec);
    proof {
        law_prince_encrypts(block, key@);
    }
    core_out ^ k0
}

// ---------------------------------------------------------------------------
// Laws
// ---------------------------------------------------------------------------

/// Opposite round constants differ by `ALPHA`.
pub proof fn law_round_constants_reflect(i: int)
    requires
        0 <= i < 12,
    ensures
        RC[i] ^ RC[11 - i] == ALPHA,
{
    assert(0x0000000000000000u64 ^ 0xc0ac29b7c97c50ddu64 == 0xc0ac29b7c97c50ddu64
        && 0xc0ac29b7c97c50ddu64 ^ 0x0000000000000000u64 == 0xc0ac29b7c97c50ddu64
        && 0x13198a2e03707344u64 ^ 0xd3b5a399ca0c2399u64 == 0xc0ac29b7c97c50ddu64
        && 0xd3b5a399ca0c2399u64 ^ 0x13198a2e03707344u64 == 0xc0ac29b7c97c50ddu64
        && 0xa4093822299f31d0u64 ^ 0x64a51195e0e3610du64 == 0xc0ac29b7c97c50ddu64
        && 0x64a51195e0e3610du64 ^ 0xa4093822299f31d0u64 == 0xc0ac29b7c97c50ddu64
        && 0x082efa98ec4e6c89u64 ^ 0xc882d32f25323c54u64 == 0xc0ac29b7c97c50ddu64
        && 0xc882d32f25323c54u64 ^ 0x082efa98ec4e6c89u64 == 0xc0ac29b7c97c50ddu64
        && 0x452821e638d01377u64 ^ 0x85840851f1ac43aau64 == 0xc0ac29b7c97c50ddu64
        && 0x85840851f1ac43aau64 ^ 0x452821e638d01377u64 == 0xc0ac29b7c97c50ddu64
        && 0xbe5466cf34e90c6cu64 ^ 0x7ef84f78fd955cb1u64 == 0xc0ac29b7c97c50ddu64
        && 0x7ef84f78fd955cb1u64 ^ 0xbe5466cf34e90c6cu64 == 0xc0ac29b7c97c50ddu64)
        by (bit_vector);
}

/// A forward round with the reflected key and constant undoes an inverse round.
proof fn lemma_forward_undoes_inverse(s: u64, k1: u64, r: int)
    requires
        0 <= r < 12,
    ensures
        forward_round(inverse_round(s, k1, RC[r]), k1 ^ ALPHA, RC[11 - r]) == s,
{
    let (rc, cr) = (RC[r], RC[11 - r]);
    let t = s ^ (k1 ^ rc);
    law_sbox_layers_inverse(m_prime_of(rows_unshifted(t)));
    law_m_prime_involution(rows_unshifted(t));
    law_shift_rows_inverse(t);
    law_round_constants_reflect(r);
    let alpha = ALPHA;
    assert((s ^ (k1 ^ rc)) ^ (cr ^ (k1 ^ alpha)) == s) by (bit_vector)
        requires
            rc ^ cr == alpha,
    ;
}

/// An inverse round with the reflected key and constant undoes a forward round.
proof fn lemma_inverse_undoes_forward(s: u64, k1: u64, r: int)
    requires
        0 <= r < 12,
    ensures
        inverse_round(forward_round(s, k1, RC[r]), k1 ^ ALPHA, RC[11 - r]) == s,
{
    let (rc, cr) = (RC[r], RC[11 - r]);
    let sub = substituted(s, SBOX);
    let mixed = rows_shifted(m_prime_of(sub));
    law_round_constants_reflect(r);
    let alpha = ALPHA;
    assert((mixed ^ (rc ^ k1)) ^ ((k1 ^ alpha) ^ cr) == mixed) by (bit_vector)
        requires
            rc ^ cr == alpha,
    ;
    law_shift_rows_inverse(m_prime_of(sub));
    law_m_prime_involution(sub);
    law_sbox_layers_inverse(s);
}

/// `n` forward rounds undo the last `n` of five inverse rounds.
proof fn lemma_forward_rounds_undo(s: u64, k1: u64, n: nat)
    requires
        n <= 5,
    ensures
        forward_rounds(inverse_rounds(s, k1, 5), k1 ^ ALPHA, n) == inverse_rounds(
            s,
            k1,
            (5 - n) as nat,
        ),
    decreases n,
{
    if n > 0 {
        lemma_forward_rounds_undo(s, k1, (n - 1) as nat);
        lemma_forward_undoes_inverse(inverse_rounds(s, k1, (5 - n) as nat), k1, 11 - n);
    }
}

/// `n` inverse rounds undo the last `n` of five forward rounds.
proof fn lemma_inverse_rounds_undo(s: u64, k1: u64, n: nat)
    requires
        n <= 5,
    ensures
        inverse_rounds(forward_rounds(s, k1, 5), k1 ^ ALPHA, n) == forward_rounds(
            s,
            k1,
            (5 - n) as nat,
        ),
    decreases n,
{
    if n > 0 {
        lemma_inverse_rounds_undo(s, k1, (n - 1) as nat);
        lemma_inverse_undoes_forward(forward_rounds(s, k1, (5 - n) as nat), k1, 6 - n);
    }
}

/// The reflection property: the core under `k1 ^ ALPHA` undoes the core under `k1`.
pub proof fn law_core_reflects(block: u64, k1: u64)
    ensures
        prince_core(prince_core(block, k1), k1 ^ ALPHA) == block,
{
    let s0 = block ^ (k1 ^ RC[0]);
    let s1 = forward_rounds(s0, k1, 5);
    let s2 = middle_layer(s1);
    let s3 = inverse_rounds(s2, k1, 5);
    let alpha = ALPHA;
    let (rc0, rc11) = (RC[0], RC[11]);
    law_round_constants_reflect(0);
    assert((s3 ^ (k1 ^ rc11)) ^ ((k1 ^ alpha) ^ rc0) == s3) by (bit_vector)
        requires
            rc0 ^ rc11 == alpha,
    ;
    lemma_forward_rounds_undo(s2, k1, 5);
    law_sbox_layers_inverse(m_prime_of(substituted(s1, SBOX)));
    law_m_prime_involution(substituted(s1, SBOX));
    law_sbox_layers_inverse(s1);
    assert(middle_layer(s2) == s1);
    lemma_inverse_rounds_undo(s0, k1, 5);
    assert(s0 ^ ((k1 ^ alpha) ^ rc11) == block) by (bit_vector)
        requires
            s0 == block ^ (k1 ^ rc0),
            rc0 ^ rc11 == alpha,
    ;
}

/// Decryption gives back every block that encryption took, under every key.
pub proof fn law_prince_decrypts(block: u64, key: Seq<u8>)
    ensures
        prince_decrypted(prince_encrypted(block, key), key) == block,
{
    let (k0, k1) = (first_word(key), second_word(key));
    let w = whitening_out(k0);
    let core = prince_core(block ^ k0, k1);
    assert((core ^ w) ^ w == core && (block ^ k0) ^ k0 == block) by (bit_vector);
    law_core_reflects(block ^ k0, k1);
}

/// Encryption gives back every block that decryption took, under every key.
pub proof fn law_prince_encrypts(block: u64, key: Seq<u8>)
    ensures
        prince_encrypted(prince_decrypted(block, key), key) == block,
{
    let (k0, k1) = (first_word(key), second_word(key));
    let w = whitening_out(k0);
    let alpha = ALPHA;
    let core = prince_core(block ^ w, k1 ^ alpha);
    assert((core ^ k0) ^ k0 == core && (block ^ w) ^ w == block && (k1 ^ alpha) ^ alpha == k1)
        by (bit_vector);
    law_core_reflects(block ^ w, k1 ^ alpha);
}

/// What the two halves of a key do. The first eight bytes are added to the block before the
/// core, and turned right by one bit with the top bit added to the lowest after it; the other
/// eight bytes go into the core. So blocks that the first halves bring to the same value leave
/// the core alike if the second halves are the same, and the core is the cipher under a key
/// whose first half is zero.
pub proof fn law_key_halves_do_their_part(
    block: u64,
    key: Seq<u8>,
    other_block: u64,
    other: Seq<u8>,
)
    requires
        key.len() == 16,
        other.len() == 16,
        key.subrange(8, 16) == other.subrange(8, 16),
        block ^ word_at(key, 0) == other_block ^ word_at(other, 0),
    ensures
        prince_encrypted(block, key) ^ turned(word_at(key, 0)) == prince_encrypted(
            other_block,
            other,
        ) ^ turned(word_at(other, 0)),
        prince_encrypted(block, key) ^ turned(word_at(key, 0)) == prince_core(
            block ^ word_at(key, 0),
            word_at(key, 8),
        ),
{
    lemma_be_value_8(key.subrange(0, 8));
    lemma_be_value_8(key.subrange(8, 16));
    lemma_be_value_8(other.subrange(0, 8));
    let (k, l) = (word_at(key, 0), word_at(other, 0));
    lemma_turned(k);
    lemma_turned(l);
    let core = prince_core(block ^ k, word_at(key, 8));
    let (w, v) = (whitening_out(k), whitening_out(l));
    assert((core ^ w) ^ w == core && (core ^ v) ^ v == core) by (bit_vector);
}

/// A word turned right by one bit, with its top bit added to the lowest over GF(2).
pub open spec fn turned(k: u64) -> u64 {
    ((k / 2 + k % 2 * 0x8000_0000_0000_0000) as u64) ^ ((k / 0x8000_0000_0000_0000) as u64)
}

/// The output whitening key, spelled out.
proof fn lemma_turned(k: u64)
    ensures
        whitening_out(k) == turned(k),
{
    assert((((k >> 1u64) | (k << 63u64)) ^ (k >> 63u64)) == ((k / 2 + k % 2
        * 0x8000_0000_0000_0000) as u64) ^ ((k / 0x8000_0000_0000_0000) as u64)) by (bit_vector);
}

} // verus!
