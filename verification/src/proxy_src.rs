//! Proxy-source addresses: reversible, keyed encodings of a client id and a domain id.
//!
//! Layout of the sixteen bytes:
//!   0 to 3    the public prefix
//!   4 to 11   the two 24-bit ids and 16 zero bits, rotated and masked under the key
//!             and the flow context
//!   12 to 15  an integrity tag over bytes 4 to 11 and the flow context
//!
//! Mask and tag come from [`crate::crypto::mix`] alone. The two halves of a key are named
//! after PRINCE and SipHash, but neither of them takes part in the encoding.

use vstd::prelude::*;

use crate::bytes::be_bytes;
use crate::bytes::be_value;
use crate::bytes::first_word;
use crate::bytes::lemma_be_bytes_len;
use crate::bytes::lemma_be_bytes_of_value;
use crate::bytes::lemma_be_value_4;
use crate::bytes::lemma_be_value_8;
use crate::bytes::lemma_be_value_of_bytes_4;
use crate::bytes::lemma_be_value_of_bytes_8;
use crate::bytes::read_first_word;
use crate::bytes::read_second_word;
use crate::bytes::second_word;
use crate::bytes::u32_from_be;
use crate::bytes::u32_to_be;
use crate::bytes::u64_from_be;
use crate::bytes::u64_to_be;
use crate::constants::PROXY_SRC_CLIENT_ID_MAX;
use crate::constants::PROXY_SRC_DOMAIN_ID_MAX;
use crate::constants::PROXY_SRC_PREFIX;
use crate::crypto::mix::hash_ctx;
use crate::crypto::mix::law_mix64_bijective;
use crate::crypto::mix::mix64;
use crate::crypto::mix::mixed;
use crate::crypto::mix::pack_ctx;
use crate::crypto::mix::packed_ctx;
use crate::crypto::mix::unmixed;
use crate::crypto::rotate::lemma_rotations_inverse;
use crate::crypto::rotate::rotate_left;
use crate::crypto::rotate::rotate_right;
use crate::crypto::rotate::rotl;
use crate::crypto::rotate::rotr;
use crate::types::ProxySrcCtx;
use crate::types::ProxySrcKey;

verus! {

/// The mask and rotation word of a flow under a key.
pub open spec fn flow_mask(ctx: ProxySrcCtx, key: ProxySrcKey) -> u64 {
    mixed(
        mixed(packed_ctx(ctx)) ^ rotl(first_word(key.prince_key@), 11) ^ rotr(
            second_word(key.prince_key@),
            7,
        ) ^ 0x9e3779b97f4a7c15,
    )
}

/// The rotation amount that a mask selects.
pub open spec fn mask_rotation(mask: u64) -> u32 {
    (mask & 63) as u32
}

/// The word that the integrity tag of an obfuscated word is folded from.
pub open spec fn tag_word(enc: u64, ctx: ProxySrcCtx, key: ProxySrcKey) -> u64 {
    mixed(
        enc ^ packed_ctx(ctx) ^ rotl(first_word(key.siphash_key@), 13) ^ rotr(
            second_word(key.siphash_key@),
            17,
        ) ^ 0xa0761d6478bd642f,
    )
}

/// The integrity tag of an obfuscated word in a flow under a key.
pub open spec fn integrity_tag(enc: u64, ctx: ProxySrcCtx, key: ProxySrcKey) -> u32 {
    let t = tag_word(enc, ctx, key);
    (t as u32) ^ ((t >> 32u64) as u32)
}

/// Both ids in one word: the client id on top, the domain id below it, then 16 zero bits.
pub open spec fn packed_ids(client_id: u32, domain_id: u32) -> u64 {
    ((client_id as u64) << 40u64) | ((domain_id as u64) << 16u64)
}

/// A word of ids, obfuscated under a mask.
pub open spec fn obfuscated(ids: u64, mask: u64) -> u64 {
    rotl(ids, mask_rotation(mask)) ^ mask ^ 0xa5a5_a5a5_a5a5_a5a5
}

/// The word of ids that `enc` hides under a mask.
pub open spec fn revealed(enc: u64, mask: u64) -> u64 {
    rotr(enc ^ mask ^ 0xa5a5_a5a5_a5a5_a5a5, mask_rotation(mask))
}

/// Both ids fit in 24 bits.
pub open spec fn ids_fit(client_id: u32, domain_id: u32) -> bool {
    client_id <= PROXY_SRC_CLIENT_ID_MAX && domain_id <= PROXY_SRC_DOMAIN_ID_MAX
}

/// The proxy-source address of a client and a domain in a flow under a key.
pub open spec fn proxy_src_addr(
    client_id: u32,
    domain_id: u32,
    ctx: ProxySrcCtx,
    key: ProxySrcKey,
) -> Seq<u8> {
    let enc = obfuscated(packed_ids(client_id, domain_id), flow_mask(ctx, key));
    PROXY_SRC_PREFIX@ + be_bytes(enc as nat, 8) + be_bytes(integrity_tag(enc, ctx, key) as nat, 4)
}

/// Bytes 4 to 11 of an address, as a number.
pub open spec fn enc_field(addr: Seq<u8>) -> u64 {
    be_value(addr.subrange(4, 12)) as u64
}

/// Bytes 12 to 15 of an address, as a number.
pub open spec fn tag_field(addr: Seq<u8>) -> u32 {
    be_value(addr.subrange(12, 16)) as u32
}

/// The ids that an address carries in a flow under a key: none unless the tag is right
/// and the padding is zero.
pub open spec fn carried_ids(addr: Seq<u8>, ctx: ProxySrcCtx, key: ProxySrcKey) -> Option<
    (u32, u32),
> {
    let ids = revealed(enc_field(addr), flow_mask(ctx, key));
    if tag_field(addr) != integrity_tag(enc_field(addr), ctx, key) || ids & 0xFFFF != 0 {
        None
    } else {
        Some((((ids >> 40u64) & 0x00FF_FFFF) as u32, ((ids >> 16u64) & 0x00FF_FFFF) as u32))
    }
}

/// Compute the mask word of a flow under a key.
pub fn key_ctx_mix(ctx: &ProxySrcCtx, key: &ProxySrcKey) -> (mask: u64)
    ensures
        mask == flow_mask(*ctx, *key),
{
    let k0: u64 = read_first_word(&key.prince_key);
    let k1: u64 = read_second_word(&key.prince_key);
    let h: u64 = hash_ctx(ctx);
    mix64(h ^ rotate_left(k0, 11) ^ rotate_right(k1, 7) ^ 0x9e3779b97f4a7c15)
}

/// Compute the integrity tag of an obfuscated word.
pub fn tag32(enc64: u64, ctx: &ProxySrcCtx, key: &ProxySrcKey) -> (tag: u32)
    ensures
        tag == integrity_tag(enc64, *ctx, *key),
{
    let k2: u64 = read_first_word(&key.siphash_key);
    let k3: u64 = read_second_word(&key.siphash_key);
    let ctx_bits: u64 = pack_ctx(ctx);
    let t: u64 = mix64(
        enc64 ^ ctx_bits ^ rotate_left(k2, 13) ^ rotate_right(k3, 17) ^ 0xa0761d6478bd642f,
    );
    (#[verifier::truncate] (t as u32)) ^ (#[verifier::truncate] ((t >> 32) as u32))
}

/// Encode a client id and a domain id into a proxy-source address.
///
/// `None` if an id does not fit in 24 bits.
pub fn encode_proxy_src(
    client_id: u32,
    domain_id: u32,
    ctx: &ProxySrcCtx,
    key: &ProxySrcKey,
) -> (addr: Option<[u8; 16]>)
    ensures
        addr is Some <==> ids_fit(client_id, domain_id),
        addr matches Some(a) ==> a@ == proxy_src_addr(client_id, domain_id, *ctx, *key),
        addr matches Some(a) ==> carried_ids(a@, *ctx, *key) == Some((client_id, domain_id)),
{
    if client_id > PROXY_SRC_CLIENT_ID_MAX || domain_id > PROXY_SRC_DOMAIN_ID_MAX {
        return None;
    }
    let p64: u64 = ((client_id as u64) << 40) | ((domain_id as u64) << 16);
    let m: u64 = key_ctx_mix(ctx, key);
    assert(m & 63 < 64) by (bit_vector);
    let rot: u32 = (m & 63) as u32;
    let enc64: u64 = rotate_left(p64, rot) ^ m ^ 0xa5a5_a5a5_a5a5_a5a5;
    let e: [u8; 8] = u64_to_be(enc64);
    let t: [u8; 4] = u32_to_be(tag32(enc64, ctx, key));
    let p: [u8; 4] = PROXY_SRC_PREFIX;
    let addr: [u8; 16] = [
        p[0],
        p[1],
        p[2],
        p[3],
        e[0],
        e[1],
        e[2],
        e[3],
        e[4],
        e[5],
        e[6],
        e[7],
        t[0],
        t[1],
        t[2],
        t[3],
    ];
    proof {
        assert(addr@ =~= proxy_src_addr(client_id, domain_id, *ctx, *key));
        law_decode_inverts_encode(client_id, domain_id, *ctx, *key);
    }
    Some(addr)
}

/// Decode a proxy-source address.
///
/// `None` if the tag is wrong or the padding is not zero. The prefix is not looked at.
pub fn decode_proxy_src(addr: &[u8; 16], ctx: &ProxySrcCtx, key: &ProxySrcKey) -> (ids: Option<
    (u32, u32),
>)
    ensures
        ids == carried_ids(addr@, *ctx, *key),
        ids matches Some((client_id, domain_id)) ==> ids_fit(client_id, domain_id),
{
    let e: [u8; 8] = [
        addr[4],
        addr[5],
        addr[6],
        addr[7],
        addr[8],
        addr[9],
        addr[10],
        addr[11],
    ];
    assert(e@ =~= addr@.subrange(4, 12));
    let enc64: u64 = u64_from_be(&e);
    assert(seq![addr[12], addr[13], addr[14], addr[15]] =~= addr@.subrange(12, 16));
    let packet_tag: u32 = u32_from_be(addr[12], addr[13], addr[14], addr[15]);

    let expected_tag: u32 = tag32(enc64, ctx, key);
    if packet_tag != expected_tag {
        return None;
    }
    let m: u64 = key_ctx_mix(ctx, key);
    assert(m & 63 < 64) by (bit_vector);
    let rot: u32 = (m & 63) as u32;
    let p64: u64 = rotate_right(enc64 ^ m ^ 0xa5a5_a5a5_a5a5_a5a5, rot);
    if (p64 & 0xFFFF) != 0 {
        return None;
    }
    assert((p64 >> 40u64) & 0x00FF_FFFF <= 0x00FF_FFFF && (p64 >> 16u64) & 0x00FF_FFFF
        <= 0x00FF_FFFF) by (bit_vector);
    let client_id: u32 = ((p64 >> 40) & 0x00FF_FFFF) as u32;
    let domain_id: u32 = ((p64 >> 16) & 0x00FF_FFFF) as u32;
    Some((client_id, domain_id))
}

// ---------------------------------------------------------------------------
// Laws
// ---------------------------------------------------------------------------

/// Revealing undoes obfuscating, and obfuscating undoes revealing.
proof fn lemma_obfuscation_inverse(x: u64, mask: u64)
    ensures
        revealed(obfuscated(x, mask), mask) == x,
        obfuscated(revealed(x, mask), mask) == x,
{
    assert(mask & 63 < 64) by (bit_vector);
    let n = mask_rotation(mask);
    let r = rotl(x, n);
    let k = 0xa5a5_a5a5_a5a5_a5a5u64;
    assert((r ^ mask ^ k) ^ mask ^ k == r && (x ^ mask ^ k) ^ mask ^ k == x) by (bit_vector);
    lemma_rotations_inverse(x, n);
    lemma_rotations_inverse(x ^ mask ^ k, n);
}

/// The fields of an address that was put together from them.
proof fn lemma_fields_of_addr(enc: u64, tag: u32)
    ensures
        ({
            let addr = PROXY_SRC_PREFIX@ + be_bytes(enc as nat, 8) + be_bytes(tag as nat, 4);
            &&& addr.len() == 16
            &&& enc_field(addr) == enc
            &&& tag_field(addr) == tag
        }),
{
    let addr = PROXY_SRC_PREFIX@ + be_bytes(enc as nat, 8) + be_bytes(tag as nat, 4);
    lemma_be_bytes_len(enc as nat, 8);
    lemma_be_bytes_len(tag as nat, 4);
    lemma_be_value_of_bytes_8(enc);
    lemma_be_value_of_bytes_4(tag);
    assert(addr.subrange(4, 12) =~= be_bytes(enc as nat, 8));
    assert(addr.subrange(12, 16) =~= be_bytes(tag as nat, 4));
}

/// Decoding gives back the two ids that were encoded, for every flow context and key.
pub proof fn law_decode_inverts_encode(
    client_id: u32,
    domain_id: u32,
    ctx: ProxySrcCtx,
    key: ProxySrcKey,
)
    requires
        ids_fit(client_id, domain_id),
    ensures
        carried_ids(proxy_src_addr(client_id, domain_id, ctx, key), ctx, key) == Some(
            (client_id, domain_id),
        ),
{
    let mask = flow_mask(ctx, key);
    let ids = packed_ids(client_id, domain_id);
    let enc = obfuscated(ids, mask);
    lemma_fields_of_addr(enc, integrity_tag(enc, ctx, key));
    lemma_obfuscation_inverse(ids, mask);
    let (c, d) = (client_id as u64, domain_id as u64);
    assert(ids & 0xFFFF == 0 && (ids >> 40u64) & 0x00FF_FFFF == c && (ids >> 16u64) & 0x00FF_FFFF
        == d) by (bit_vector)
        requires
            ids == (c << 40u64) | (d << 16u64),
            c <= 0x00FF_FFFF,
            d <= 0x00FF_FFFF,
    ;
}

/// Decoding accepts nothing but what encoding makes: an address under the public prefix
/// from which ids are decoded is the encoding of those ids.
pub proof fn law_decode_accepts_only_encodings(
    addr: Seq<u8>,
    client_id: u32,
    domain_id: u32,
    ctx: ProxySrcCtx,
    key: ProxySrcKey,
)
    requires
        addr.len() == 16,
        addr.subrange(0, 4) == PROXY_SRC_PREFIX@,
        carried_ids(addr, ctx, key) == Some((client_id, domain_id)),
    ensures
        ids_fit(client_id, domain_id),
        addr == proxy_src_addr(client_id, domain_id, ctx, key),
{
    let mask = flow_mask(ctx, key);
    let ids = revealed(enc_field(addr), mask);
    assert((ids >> 40u64) & 0x00FF_FFFF <= 0x00FF_FFFF && (ids >> 16u64) & 0x00FF_FFFF
        <= 0x00FF_FFFF && (((ids >> 40u64) & 0x00FF_FFFF) << 40u64) | (((ids >> 16u64)
        & 0x00FF_FFFF) << 16u64) == ids) by (bit_vector)
        requires
            ids & 0xFFFF == 0,
    ;
    assert(packed_ids(client_id, domain_id) == ids);
    lemma_obfuscation_inverse(enc_field(addr), mask);
    crate::bytes::lemma_be_value_bound_4(addr.subrange(12, 16));
    crate::bytes::lemma_be_value_bound_8(addr.subrange(4, 12));
    lemma_be_bytes_of_value(addr.subrange(4, 12));
    lemma_be_bytes_of_value(addr.subrange(12, 16));
    assert(addr =~= addr.subrange(0, 4) + addr.subrange(4, 12) + addr.subrange(12, 16));
}

/// Of all tags, at most one goes with an obfuscated word: changing the tag of an address
/// that decodes makes it undecodable.
pub proof fn law_tag_tampering_detected(
    addr: Seq<u8>,
    tampered: Seq<u8>,
    ctx: ProxySrcCtx,
    key: ProxySrcKey,
)
    requires
        addr.len() == 16,
        tampered.len() == 16,
        carried_ids(addr, ctx, key) is Some,
        tampered.subrange(4, 12) == addr.subrange(4, 12),
        tampered.subrange(12, 16) != addr.subrange(12, 16),
    ensures
        carried_ids(tampered, ctx, key) is None,
{
    crate::bytes::lemma_be_value_bound_4(addr.subrange(12, 16));
    crate::bytes::lemma_be_value_bound_4(tampered.subrange(12, 16));
    if tag_field(tampered) == tag_field(addr) {
        crate::bytes::lemma_be_value_injective(tampered.subrange(12, 16), addr.subrange(12, 16));
    }
}

/// In one flow under one key, different pairs of ids have different addresses.
pub proof fn law_encodings_distinct(
    client_a: u32,
    domain_a: u32,
    client_b: u32,
    domain_b: u32,
    ctx: ProxySrcCtx,
    key: ProxySrcKey,
)
    requires
        ids_fit(client_a, domain_a),
        ids_fit(client_b, domain_b),
        (client_a, domain_a) != (client_b, domain_b),
    ensures
        proxy_src_addr(client_a, domain_a, ctx, key) != proxy_src_addr(
            client_b,
            domain_b,
            ctx,
            key,
        ),
{
    law_decode_inverts_encode(client_a, domain_a, ctx, key);
    law_decode_inverts_encode(client_b, domain_b, ctx, key);
}

// ---------------------------------------------------------------------------
// Laws on what a key, a flow and the ids do to an address
// ---------------------------------------------------------------------------

/// Eight bytes as a big-endian number.
pub open spec fn word_at(bytes: Seq<u8>, at: int) -> u64 {
    (bytes[at] * 0x100_0000_0000_0000 + bytes[at + 1] * 0x1_0000_0000_0000 + bytes[at + 2]
        * 0x100_0000_0000 + bytes[at + 3] * 0x1_0000_0000 + bytes[at + 4] * 0x100_0000 + bytes[at
        + 5] * 0x1_0000 + bytes[at + 6] * 0x100 + bytes[at + 7]) as u64
}

/// A flow as one number: the source port in the top sixteen bits, then the destination port,
/// then eight bits of protocol number.
pub open spec fn flow_number(ctx: ProxySrcCtx) -> u64 {
    (ctx.src_port * 0x1_0000_0000_0000 + ctx.dst_port * 0x1_0000_0000 + ctx.proto
        * 0x100_0000) as u64
}

/// What a key brings to the mask: the first word of its PRINCE half turned left by 11 bits, and
/// the second turned right by 7.
pub open spec fn mask_material(key: ProxySrcKey) -> u64 {
    let k0 = word_at(key.prince_key@, 0);
    let k1 = word_at(key.prince_key@, 8);
    ((k0 << 11u64) | (k0 >> 53u64)) ^ ((k1 >> 7u64) | (k1 << 57u64))
}

/// What a key brings to the tag: the first word of its SipHash half turned left by 13 bits, and
/// the second turned right by 17.
pub open spec fn tag_material(key: ProxySrcKey) -> u64 {
    let k2 = word_at(key.siphash_key@, 0);
    let k3 = word_at(key.siphash_key@, 8);
    ((k2 << 13u64) | (k2 >> 51u64)) ^ ((k3 >> 17u64) | (k3 << 47u64))
}

/// A number from bytes, spelled out.
proof fn lemma_word_at(bytes: Seq<u8>, at: int)
    requires
        0 <= at,
        at + 8 <= bytes.len(),
    ensures
        be_value(bytes.subrange(at, at + 8)) as u64 == word_at(bytes, at),
{
    lemma_be_value_8(bytes.subrange(at, at + 8));
}

/// A flow in one word, spelled out.
proof fn lemma_flow_number(ctx: ProxySrcCtx)
    ensures
        packed_ctx(ctx) == flow_number(ctx),
{
    let (s, d, p) = (ctx.src_port, ctx.dst_port, ctx.proto);
    assert((((s as u64) << 48u64) | ((d as u64) << 32u64) | ((p as u64) << 24u64)) == s
        * 0x1_0000_0000_0000 + d * 0x1_0000_0000 + p * 0x100_0000) by (bit_vector);
}

/// The mask of a flow under a key can be undone to the flow and the key's PRINCE half, and to
/// nothing else. So the SipHash half does not change it, and under one key different flows
/// have different masks.
pub proof fn law_mask_comes_from_flow_and_prince_half(ctx: ProxySrcCtx, key: ProxySrcKey)
    ensures
        unmixed(unmixed(flow_mask(ctx, key)) ^ mask_material(key) ^ 0x9e3779b97f4a7c15)
            == flow_number(ctx),
{
    lemma_flow_number(ctx);
    lemma_word_at(key.prince_key@, 0);
    lemma_word_at(key.prince_key@, 8);
    let h = mixed(packed_ctx(ctx));
    let a = rotl(first_word(key.prince_key@), 11);
    let b = rotr(second_word(key.prince_key@), 7);
    let c = 0x9e3779b97f4a7c15u64;
    law_mix64_bijective(h ^ a ^ b ^ c);
    law_mix64_bijective(packed_ctx(ctx));
    assert((h ^ a ^ b ^ c) ^ (a ^ b) ^ c == h) by (bit_vector);
}

/// The word behind a tag can be undone to the obfuscated word, the flow and the key's SipHash
/// half, and to nothing else.
pub proof fn law_tag_comes_from_word_flow_and_siphash_half(
    enc: u64,
    ctx: ProxySrcCtx,
    key: ProxySrcKey,
)
    ensures
        unmixed(tag_word(enc, ctx, key)) ^ flow_number(ctx) ^ tag_material(key)
            ^ 0xa0761d6478bd642f == enc,
        integrity_tag(enc, ctx, key) == ((tag_word(enc, ctx, key) % 0x1_0000_0000) as u32) ^ ((
        tag_word(enc, ctx, key) / 0x1_0000_0000) as u32),
{
    lemma_flow_number(ctx);
    lemma_word_at(key.siphash_key@, 0);
    lemma_word_at(key.siphash_key@, 8);
    let f = packed_ctx(ctx);
    let a = rotl(first_word(key.siphash_key@), 13);
    let b = rotr(second_word(key.siphash_key@), 17);
    let c = 0xa0761d6478bd642fu64;
    law_mix64_bijective(enc ^ f ^ a ^ b ^ c);
    let t = tag_word(enc, ctx, key);
    assert((enc ^ f ^ a ^ b ^ c) ^ f ^ (a ^ b) ^ c == enc && t as u32 == t % 0x1_0000_0000 && (t
        >> 32u64) as u32 == t / 0x1_0000_0000) by (bit_vector);
}

/// The PRINCE half of a key makes no difference to a tag, and its SipHash half does: for one
/// word and one flow, two keys have the same word behind the tag exactly if they bring the
/// same material to it.
pub proof fn law_siphash_half_decides_tag(
    enc: u64,
    ctx: ProxySrcCtx,
    key: ProxySrcKey,
    other: ProxySrcKey,
)
    ensures
        tag_word(enc, ctx, key) == tag_word(enc, ctx, other) <==> tag_material(key)
            == tag_material(other),
        key.siphash_key@ == other.siphash_key@ ==> integrity_tag(enc, ctx, key) == integrity_tag(
            enc,
            ctx,
            other,
        ),
{
    law_tag_comes_from_word_flow_and_siphash_half(enc, ctx, key);
    law_tag_comes_from_word_flow_and_siphash_half(enc, ctx, other);
    let u = unmixed(tag_word(enc, ctx, key));
    let v = unmixed(tag_word(enc, ctx, other));
    let f = flow_number(ctx);
    let a = tag_material(key);
    let b = tag_material(other);
    let c = 0xa0761d6478bd642fu64;
    assert(u == v <==> a == b) by (bit_vector)
        requires
            u ^ f ^ a ^ c == enc,
            v ^ f ^ b ^ c == enc,
    ;
    law_mix64_bijective(tag_word(enc, ctx, key));
    law_mix64_bijective(tag_word(enc, ctx, other));
}

/// The SipHash half of a key makes no difference to a mask, and its PRINCE half does: for one
/// flow, two keys have the same mask exactly if they bring the same material to it.
pub proof fn law_prince_half_decides_mask(ctx: ProxySrcCtx, key: ProxySrcKey, other: ProxySrcKey)
    ensures
        flow_mask(ctx, key) == flow_mask(ctx, other) <==> mask_material(key) == mask_material(
            other,
        ),
{
    law_mask_comes_from_flow_and_prince_half(ctx, key);
    law_mask_comes_from_flow_and_prince_half(ctx, other);
    let c = 0x9e3779b97f4a7c15u64;
    let u = unmixed(flow_mask(ctx, key));
    let v = unmixed(flow_mask(ctx, other));
    let a = mask_material(key);
    let b = mask_material(other);
    law_mix64_bijective(u ^ a ^ c);
    law_mix64_bijective(v ^ b ^ c);
    law_mix64_bijective(flow_mask(ctx, key));
    law_mix64_bijective(flow_mask(ctx, other));
    assert(u == v <==> a == b) by (bit_vector)
        requires
            u ^ a ^ c == v ^ b ^ c,
    ;
}

/// A proxy-source address, by its bytes: the public prefix `2001:0db8`; a word that, unmasked
/// and turned back by the lowest six bits of the mask, is the client's id in its top 24 bits
/// and the domain's id in the next 24; and the tag of that word. Ids of more than 24 bits
/// have no address.
pub proof fn law_address_by_bytes(
    client_id: u32,
    domain_id: u32,
    ctx: ProxySrcCtx,
    key: ProxySrcKey,
)
    ensures
        ids_fit(client_id, domain_id) <==> client_id < 0x100_0000 && domain_id < 0x100_0000,
        client_id < 0x100_0000 && domain_id < 0x100_0000 ==> {
            let addr = proxy_src_addr(client_id, domain_id, ctx, key);
            let mask = flow_mask(ctx, key);
            &&& addr.len() == 16
            &&& addr[0] == 0x20 && addr[1] == 0x01 && addr[2] == 0x0d && addr[3] == 0xb8
            &&& rotr(word_at(addr, 4) ^ mask ^ 0xa5a5_a5a5_a5a5_a5a5, (mask % 64) as u32)
                == client_id * 0x100_0000_0000 + domain_id * 0x1_0000
            &&& addr[12] * 0x100_0000 + addr[13] * 0x1_0000 + addr[14] * 0x100 + addr[15]
                == integrity_tag(word_at(addr, 4), ctx, key)
        },
{
    if client_id < 0x100_0000 && domain_id < 0x100_0000 {
        let addr = proxy_src_addr(client_id, domain_id, ctx, key);
        let mask = flow_mask(ctx, key);
        let ids = packed_ids(client_id, domain_id);
        let enc = obfuscated(ids, mask);
        lemma_fields_of_addr(enc, integrity_tag(enc, ctx, key));
        lemma_be_bytes_len(enc as nat, 8);
        lemma_word_at(addr, 4);
        lemma_be_value_4(addr.subrange(12, 16));
        lemma_obfuscation_inverse(ids, mask);
        assert(mask & 63 == mask % 64 && (((client_id as u64) << 40u64) | ((domain_id as u64)
            << 16u64)) == client_id * 0x100_0000_0000 + domain_id * 0x1_0000) by (bit_vector)
            requires
                client_id < 0x100_0000,
                domain_id < 0x100_0000,
        ;
    }
}

/// Decoding looks at bytes 4 to 15 of an address only.
pub proof fn law_decoding_ignores_prefix(
    a: Seq<u8>,
    b: Seq<u8>,
    ctx: ProxySrcCtx,
    key: ProxySrcKey,
)
    requires
        a.len() == 16,
        b.len() == 16,
        a.subrange(4, 16) == b.subrange(4, 16),
    ensures
        carried_ids(a, ctx, key) == carried_ids(b, ctx, key),
{
    assert(a.subrange(4, 12) =~= a.subrange(4, 16).subrange(0, 8));
    assert(b.subrange(4, 12) =~= b.subrange(4, 16).subrange(0, 8));
    assert(a.subrange(12, 16) =~= a.subrange(4, 16).subrange(8, 12));
    assert(b.subrange(12, 16) =~= b.subrange(4, 16).subrange(8, 12));
}

/// A key with the right PRINCE half and another SipHash half decodes an address only if its
/// tag happens to be the same, and then to the same ids.
pub proof fn law_wrong_siphash_half_fails_by_tag(
    client_id: u32,
    domain_id: u32,
    ctx: ProxySrcCtx,
    key: ProxySrcKey,
    other: ProxySrcKey,
)
    requires
        client_id < 0x100_0000,
        domain_id < 0x100_0000,
        key.prince_key@ == other.prince_key@,
    ensures
        ({
            let addr = proxy_src_addr(client_id, domain_id, ctx, key);
            let enc = word_at(addr, 4);
            carried_ids(addr, ctx, other) == if integrity_tag(enc, ctx, other) == integrity_tag(
                enc,
                ctx,
                key,
            ) {
                Some((client_id, domain_id))
            } else {
                None::<(u32, u32)>
            }
        }),
{
    let addr = proxy_src_addr(client_id, domain_id, ctx, key);
    law_address_by_bytes(client_id, domain_id, ctx, key);
    law_decode_inverts_encode(client_id, domain_id, ctx, key);
    lemma_word_at(addr, 4);
    lemma_be_value_4(addr.subrange(12, 16));
}

/// What tagging and masking return. The tag is the two halves of a word, added over GF(2), that
/// can be undone to the obfuscated word, the flow and the SipHash half of the key; a key with
/// the same SipHash half gives the same tag whatever its PRINCE half. The mask can be undone
/// to the flow and the PRINCE half.
pub proof fn law_tag_and_mask_by_key_half(
    enc: u64,
    ctx: ProxySrcCtx,
    key: ProxySrcKey,
    tag: u32,
    other: ProxySrcKey,
    other_tag: u32,
    mask: u64,
)
    requires
        call_ensures(tag32, (enc, &ctx, &key), tag),
        call_ensures(tag32, (enc, &ctx, &other), other_tag),
        call_ensures(key_ctx_mix, (&ctx, &key), mask),
    ensures
        exists|t: u64|
            #[trigger] unmixed(t) ^ flow_number(ctx) ^ tag_material(key) ^ 0xa0761d6478bd642f
                == enc && tag == ((t % 0x1_0000_0000) as u32) ^ ((t / 0x1_0000_0000) as u32),
        key.siphash_key@ == other.siphash_key@ ==> tag == other_tag,
        unmixed(unmixed(mask) ^ mask_material(key) ^ 0x9e3779b97f4a7c15) == flow_number(ctx),
{
    law_tag_comes_from_word_flow_and_siphash_half(enc, ctx, key);
    law_siphash_half_decides_tag(enc, ctx, key, other);
    law_mask_comes_from_flow_and_prince_half(ctx, key);
    let t = tag_word(enc, ctx, key);
    assert(unmixed(t) ^ flow_number(ctx) ^ tag_material(key) ^ 0xa0761d6478bd642f == enc);
}

/// Encoding succeeds just for ids of 24 bits, under the prefix `2001:0db8`, and decoding gives
/// the ids back.
pub proof fn law_encoder_and_decoder_agree(
    client_id: u32,
    domain_id: u32,
    ctx: ProxySrcCtx,
    key: ProxySrcKey,
    addr: Option<[u8; 16]>,
    ids: Option<(u32, u32)>,
)
    requires
        call_ensures(encode_proxy_src, (client_id, domain_id, &ctx, &key), addr),
        addr is Some ==> call_ensures(decode_proxy_src, (&addr->0, &ctx, &key), ids),
    ensures
        addr is Some <==> client_id < 0x100_0000 && domain_id < 0x100_0000,
        addr is Some ==> addr->0@[0] == 0x20 && addr->0@[1] == 0x01 && addr->0@[2] == 0x0d
            && addr->0@[3] == 0xb8,
        addr is Some ==> ids == Some((client_id, domain_id)),
{
    law_address_by_bytes(client_id, domain_id, ctx, key);
    if addr is Some {
        law_decode_inverts_encode(client_id, domain_id, ctx, key);
    }
}

} // verus!
