//! The splitmix64 finalizer and the flow-context hash built on it.

use vstd::prelude::*;

use crate::types::ProxySrcCtx;

verus! {

/// First multiplier of the finalizer.
pub const MIX_MUL_1: u64 = 0xbf58476d1ce4e5b9;

/// Second multiplier of the finalizer.
pub const MIX_MUL_2: u64 = 0x94d049bb133111eb;

/// Inverse of the first multiplier modulo 2^64.
pub const MIX_INV_1: u64 = 0x96de1b173f119089;

/// Inverse of the second multiplier modulo 2^64.
pub const MIX_INV_2: u64 = 0x319642b2d24d8ec3;

/// `x * m` modulo 2^64.
pub open spec fn times(x: u64, m: u64) -> u64 {
    ((x as nat * m as nat) % 0x1_0000_0000_0000_0000) as u64
}

/// The splitmix64 finalizer.
pub open spec fn mixed(x: u64) -> u64 {
    let a = x ^ (x >> 30u64);
    let b = times(a, MIX_MUL_1);
    let c = b ^ (b >> 27u64);
    let d = times(c, MIX_MUL_2);
    d ^ (d >> 31u64)
}

/// The word that the finalizer takes to `y`.
pub open spec fn unmixed(y: u64) -> u64 {
    let d = y ^ (y >> 31u64) ^ (y >> 62u64);
    let c = times(d, MIX_INV_2);
    let b = c ^ (c >> 27u64) ^ (c >> 54u64);
    let a = times(b, MIX_INV_1);
    a ^ (a >> 30u64) ^ (a >> 60u64)
}

/// Run the splitmix64 finalizer.
pub fn mix64(x: u64) -> (out: u64)
    ensures
        out == mixed(x),
{
    let mut x: u64 = x;
    x = x ^ (x >> 30);
    x = x.wrapping_mul(MIX_MUL_1);
    x = x ^ (x >> 27);
    x = x.wrapping_mul(MIX_MUL_2);
    x ^ (x >> 31)
}

/// A flow context in one word: source port, destination port and protocol from the
/// top, the low 24 bits zero.
pub open spec fn packed_ctx(ctx: ProxySrcCtx) -> u64 {
    ((ctx.src_port as u64) << 48u64) | ((ctx.dst_port as u64) << 32u64) | ((ctx.proto as u64)
        << 24u64)
}

/// Pack a flow context into one word.
pub fn pack_ctx(ctx: &ProxySrcCtx) -> (packed: u64)
    ensures
        packed == packed_ctx(*ctx),
{
    ((ctx.src_port as u64) << 48) | ((ctx.dst_port as u64) << 32) | ((ctx.proto as u64) << 24)
}

/// Hash a flow context: pack it, then run the finalizer.
///
/// Not a cryptographic hash. Contexts that differ in a port or in the protocol never
/// collide, see [`law_hash_ctx_injective`].
pub fn hash_ctx(ctx: &ProxySrcCtx) -> (hash: u64)
    ensures
        hash == mixed(packed_ctx(*ctx)),
{
    mix64(pack_ctx(ctx))
}

/// Multiplying by `m` and then by its inverse modulo 2^64 changes nothing.
proof fn lemma_times_inverse(x: u64, m: u64, inv: u64)
    requires
        (m as nat * inv as nat) % 0x1_0000_0000_0000_0000 == 1,
    ensures
        times(times(x, m), inv) == x,
{
    let r: int = 0x1_0000_0000_0000_0000;
    let (xi, mi, vi) = (x as int, m as int, inv as int);
    vstd::arithmetic::div_mod::lemma_mul_mod_noop_left(xi * mi, vi, r);
    vstd::arithmetic::mul::lemma_mul_is_associative(xi, mi, vi);
    vstd::arithmetic::div_mod::lemma_mul_mod_noop_right(xi, mi * vi, r);
    assert(xi * 1 == xi);
    assert((x as nat * m as nat) as int == xi * mi);
    assert((times(x, m) as nat * inv as nat) as int == ((xi * mi) % r) * vi);
    assert((m as nat * inv as nat) as int == mi * vi);
}

/// The three xor-shifts and their inverses.
proof fn lemma_xor_shifts_inverse(v: u64)
    ensures
        (v ^ (v >> 30u64)) ^ ((v ^ (v >> 30u64)) >> 30u64) ^ ((v ^ (v >> 30u64)) >> 60u64) == v,
        (v ^ (v >> 27u64)) ^ ((v ^ (v >> 27u64)) >> 27u64) ^ ((v ^ (v >> 27u64)) >> 54u64) == v,
        (v ^ (v >> 31u64)) ^ ((v ^ (v >> 31u64)) >> 31u64) ^ ((v ^ (v >> 31u64)) >> 62u64) == v,
        ({
            let u = v ^ (v >> 30u64) ^ (v >> 60u64);
            u ^ (u >> 30u64) == v
        }),
        ({
            let u = v ^ (v >> 27u64) ^ (v >> 54u64);
            u ^ (u >> 27u64) == v
        }),
        ({
            let u = v ^ (v >> 31u64) ^ (v >> 62u64);
            u ^ (u >> 31u64) == v
        }),
{
    assert((v ^ (v >> 30u64)) ^ ((v ^ (v >> 30u64)) >> 30u64) ^ ((v ^ (v >> 30u64)) >> 60u64) == v
        && (v ^ (v >> 27u64)) ^ ((v ^ (v >> 27u64)) >> 27u64) ^ ((v ^ (v >> 27u64)) >> 54u64) == v
        && (v ^ (v >> 31u64)) ^ ((v ^ (v >> 31u64)) >> 31u64) ^ ((v ^ (v >> 31u64)) >> 62u64) == v)
        by (bit_vector);
    let p = v ^ (v >> 30u64) ^ (v >> 60u64);
    let q = v ^ (v >> 27u64) ^ (v >> 54u64);
    let r = v ^ (v >> 31u64) ^ (v >> 62u64);
    assert(p ^ (p >> 30u64) == v && q ^ (q >> 27u64) == v && r ^ (r >> 31u64) == v) by (bit_vector)
        requires
            p == v ^ (v >> 30u64) ^ (v >> 60u64),
            q == v ^ (v >> 27u64) ^ (v >> 54u64),
            r == v ^ (v >> 31u64) ^ (v >> 62u64),
    ;
}

/// The finalizer is a bijection: `unmixed` is its inverse on both sides.
pub proof fn law_mix64_bijective(x: u64)
    ensures
        unmixed(mixed(x)) == x,
        mixed(unmixed(x)) == x,
{
    assert((MIX_MUL_1 as nat * MIX_INV_1 as nat) % 0x1_0000_0000_0000_0000 == 1)
        by (nonlinear_arith);
    assert((MIX_MUL_2 as nat * MIX_INV_2 as nat) % 0x1_0000_0000_0000_0000 == 1)
        by (nonlinear_arith);
    assert((MIX_INV_1 as nat * MIX_MUL_1 as nat) % 0x1_0000_0000_0000_0000 == 1)
        by (nonlinear_arith);
    assert((MIX_INV_2 as nat * MIX_MUL_2 as nat) % 0x1_0000_0000_0000_0000 == 1)
        by (nonlinear_arith);
    assert(unmixed(mixed(x)) == x) by {
        let a = x ^ (x >> 30u64);
        let b = times(a, MIX_MUL_1);
        let c = b ^ (b >> 27u64);
        let d = times(c, MIX_MUL_2);
        lemma_xor_shifts_inverse(d);
        lemma_times_inverse(c, MIX_MUL_2, MIX_INV_2);
        lemma_xor_shifts_inverse(b);
        lemma_times_inverse(a, MIX_MUL_1, MIX_INV_1);
        lemma_xor_shifts_inverse(x);
    }
    assert(mixed(unmixed(x)) == x) by {
        let d = x ^ (x >> 31u64) ^ (x >> 62u64);
        let c = times(d, MIX_INV_2);
        let b = c ^ (c >> 27u64) ^ (c >> 54u64);
        let a = times(b, MIX_INV_1);
        lemma_xor_shifts_inverse(a);
        lemma_times_inverse(b, MIX_INV_1, MIX_MUL_1);
        lemma_xor_shifts_inverse(c);
        lemma_times_inverse(d, MIX_INV_2, MIX_MUL_2);
        lemma_xor_shifts_inverse(x);
    }
}

/// Contexts that differ in a port or in the protocol have different hashes.
pub proof fn law_hash_ctx_injective(a: ProxySrcCtx, b: ProxySrcCtx)
    requires
        mixed(packed_ctx(a)) == mixed(packed_ctx(b)),
    ensures
        a.src_port == b.src_port,
        a.dst_port == b.dst_port,
        a.proto == b.proto,
{
    law_mix64_bijective(packed_ctx(a));
    law_mix64_bijective(packed_ctx(b));
    let (s, d, p) = (a.src_port as u64, a.dst_port as u64, a.proto as u64);
    let (t, e, q) = (b.src_port as u64, b.dst_port as u64, b.proto as u64);
    assert(s == t && d == e && p == q) by (bit_vector)
        requires
            (s << 48u64) | (d << 32u64) | (p << 24u64) == (t << 48u64) | (e << 32u64) | (q
                << 24u64),
            s < 0x10000,
            d < 0x10000,
            p < 0x100,
            t < 0x10000,
            e < 0x10000,
            q < 0x100,
    ;
}

/// The finalizer step by step: shift down by 30 and add over GF(2), multiply, the same with 27,
/// multiply, the same with 31. The products are taken modulo two to the sixty-fourth.
pub proof fn law_mix64_step_by_step(x: u64, a: u64, b: u64, c: u64, d: u64)
    requires
        a == x ^ (x >> 30u64),
        b == (a as int * 0xbf58476d1ce4e5b9) % 0x1_0000_0000_0000_0000,
        c == b ^ (b >> 27u64),
        d == (c as int * 0x94d049bb133111eb) % 0x1_0000_0000_0000_0000,
    ensures
        mixed(x) == d ^ (d >> 31u64),
{
}

} // verus!
