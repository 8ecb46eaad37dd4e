//! Big-endian byte sequences and the numbers they stand for.

use vstd::prelude::*;

verus! {

/// The number that `s` spells in base 256, the most significant byte first.
pub open spec fn be_value(s: Seq<u8>) -> nat
    decreases s.len(),
{
    if s.len() == 0 {
        0
    } else {
        be_value(s.drop_last()) * 256 + s.last() as nat
    }
}

/// The last `len` base-256 digits of `n`, the most significant first.
pub open spec fn be_bytes(n: nat, len: nat) -> Seq<u8>
    decreases len,
{
    if len == 0 {
        Seq::empty()
    } else {
        be_bytes(n / 256, (len - 1) as nat).push((n % 256) as u8)
    }
}

/// The length of a digit sequence.
pub proof fn lemma_be_bytes_len(n: nat, len: nat)
    ensures
        be_bytes(n, len).len() == len,
    decreases len,
{
    if len > 0 {
        lemma_be_bytes_len(n / 256, (len - 1) as nat);
    }
}

/// Reading back the digits of a sequence gives the sequence.
pub proof fn lemma_be_bytes_of_value(s: Seq<u8>)
    ensures
        be_bytes(be_value(s), s.len()) == s,
    decreases s.len(),
{
    if s.len() > 0 {
        lemma_be_bytes_of_value(s.drop_last());
        assert((be_value(s.drop_last()) * 256 + s.last() as nat) / 256 == be_value(s.drop_last()));
        assert(s.drop_last().push(s.last()) =~= s);
    }
}

/// Two sequences of one length that spell the same number are the same.
pub proof fn lemma_be_value_injective(s: Seq<u8>, t: Seq<u8>)
    requires
        s.len() == t.len(),
        be_value(s) == be_value(t),
    ensures
        s == t,
{
    lemma_be_bytes_of_value(s);
    lemma_be_bytes_of_value(t);
}

/// The value of two bytes.
pub proof fn lemma_be_value_2(s: Seq<u8>)
    requires
        s.len() == 2,
    ensures
        be_value(s) == s[0] as nat * 256 + s[1] as nat,
{
    reveal_with_fuel(be_value, 3);
}

/// The value of four bytes.
pub proof fn lemma_be_value_4(s: Seq<u8>)
    requires
        s.len() == 4,
    ensures
        be_value(s) == ((s[0] as nat * 256 + s[1] as nat) * 256 + s[2] as nat) * 256 + s[3] as nat,
{
    reveal_with_fuel(be_value, 5);
}

/// The value of eight bytes.
pub proof fn lemma_be_value_8(s: Seq<u8>)
    requires
        s.len() == 8,
    ensures
        be_value(s) == ((((((s[0] as nat * 256 + s[1] as nat) * 256 + s[2] as nat) * 256
            + s[3] as nat) * 256 + s[4] as nat) * 256 + s[5] as nat) * 256 + s[6] as nat) * 256
            + s[7] as nat,
{
    reveal_with_fuel(be_value, 9);
}

/// Four bytes spell a 32-bit number.
pub proof fn lemma_be_value_bound_4(s: Seq<u8>)
    requires
        s.len() == 4,
    ensures
        be_value(s) <= u32::MAX,
{
    lemma_be_value_4(s);
}

/// Eight bytes spell a 64-bit number.
pub proof fn lemma_be_value_bound_8(s: Seq<u8>)
    requires
        s.len() == 8,
    ensures
        be_value(s) <= u64::MAX,
{
    lemma_be_value_8(s);
}

/// Four digits are enough for a 32-bit number.
pub proof fn lemma_be_value_of_bytes_4(n: u32)
    ensures
        be_value(be_bytes(n as nat, 4)) == n,
{
    let n1 = n as nat / 256;
    let n2 = n1 / 256;
    let n3 = n2 / 256;
    reveal_with_fuel(be_bytes, 5);
    lemma_be_bytes_len(n as nat, 4);
    lemma_be_value_4(be_bytes(n as nat, 4));
}

/// Eight digits are enough for a 64-bit number.
pub proof fn lemma_be_value_of_bytes_8(n: u64)
    ensures
        be_value(be_bytes(n as nat, 8)) == n,
{
    reveal_with_fuel(be_bytes, 9);
    lemma_be_bytes_len(n as nat, 8);
    lemma_be_value_8(be_bytes(n as nat, 8));
}

/// A 32-bit number from four big-endian bytes.
pub fn u32_from_be(b0: u8, b1: u8, b2: u8, b3: u8) -> (n: u32)
    ensures
        n == be_value(seq![b0, b1, b2, b3]),
{
    proof {
        lemma_be_value_4(seq![b0, b1, b2, b3]);
    }
    ((b0 as u32 * 256 + b1 as u32) * 256 + b2 as u32) * 256 + b3 as u32
}

/// A 16-bit number from two big-endian bytes.
pub fn u16_from_be(b0: u8, b1: u8) -> (n: u16)
    ensures
        n == be_value(seq![b0, b1]),
{
    proof {
        lemma_be_value_2(seq![b0, b1]);
    }
    b0 as u16 * 256 + b1 as u16
}

/// A 64-bit number from eight big-endian bytes.
pub fn u64_from_be(b: &[u8; 8]) -> (n: u64)
    ensures
        n == be_value(b@),
{
    proof {
        lemma_be_value_8(b@);
    }
    ((((((b[0] as u64 * 256 + b[1] as u64) * 256 + b[2] as u64) * 256 + b[3] as u64) * 256
        + b[4] as u64) * 256 + b[5] as u64) * 256 + b[6] as u64) * 256 + b[7] as u64
}

/// Bytes 0 to 7 of a sequence, as a number.
pub open spec fn first_word(s: Seq<u8>) -> u64 {
    be_value(s.subrange(0, 8)) as u64
}

/// Bytes 8 to 15 of a sequence, as a number.
pub open spec fn second_word(s: Seq<u8>) -> u64 {
    be_value(s.subrange(8, 16)) as u64
}

/// Read the first eight of sixteen bytes as a number.
pub fn read_first_word(b: &[u8; 16]) -> (word: u64)
    ensures
        word == first_word(b@),
{
    let half: [u8; 8] = [b[0], b[1], b[2], b[3], b[4], b[5], b[6], b[7]];
    assert(half@ =~= b@.subrange(0, 8));
    u64_from_be(&half)
}

/// Read the last eight of sixteen bytes as a number.
pub fn read_second_word(b: &[u8; 16]) -> (word: u64)
    ensures
        word == second_word(b@),
{
    let half: [u8; 8] = [b[8], b[9], b[10], b[11], b[12], b[13], b[14], b[15]];
    assert(half@ =~= b@.subrange(8, 16));
    u64_from_be(&half)
}

/// The four big-endian bytes of a 32-bit number.
pub fn u32_to_be(n: u32) -> (b: [u8; 4])
    ensures
        b@ == be_bytes(n as nat, 4),
        be_value(b@) == n,
{
    let n1: u32 = n / 256;
    let n2: u32 = n1 / 256;
    let n3: u32 = n2 / 256;
    let b: [u8; 4] = [n3 as u8, (n2 % 256) as u8, (n1 % 256) as u8, (n % 256) as u8];
    proof {
        lemma_be_value_4(b@);
        lemma_be_bytes_of_value(b@);
    }
    b
}

/// The eight big-endian bytes of a 64-bit number.
pub fn u64_to_be(n: u64) -> (b: [u8; 8])
    ensures
        b@ == be_bytes(n as nat, 8),
        be_value(b@) == n,
{
    let n1: u64 = n / 256;
    let n2: u64 = n1 / 256;
    let n3: u64 = n2 / 256;
    let n4: u64 = n3 / 256;
    let n5: u64 = n4 / 256;
    let n6: u64 = n5 / 256;
    let n7: u64 = n6 / 256;
    let b: [u8; 8] = [
        n7 as u8,
        (n6 % 256) as u8,
        (n5 % 256) as u8,
        (n4 % 256) as u8,
        (n3 % 256) as u8,
        (n2 % 256) as u8,
        (n1 % 256) as u8,
        (n % 256) as u8,
    ];
    proof {
        lemma_be_value_8(b@);
        lemma_be_bytes_of_value(b@);
    }
    b
}

} // verus!
