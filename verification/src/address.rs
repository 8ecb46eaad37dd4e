//! The addresses that the proxy hands out: synthetic addresses for domains and VIPs
//! for clients.

use vstd::prelude::*;

use crate::bytes::be_bytes;
use crate::bytes::be_value;
use crate::bytes::lemma_be_bytes_len;
use crate::bytes::lemma_be_value_4;
use crate::bytes::lemma_be_value_of_bytes_4;
use crate::bytes::u32_from_be;
use crate::bytes::u32_to_be;
use crate::constants::PROXY_SRC_PREFIX;
use crate::constants::SYNTHETIC_PREFIX;
use crate::constants::VIP_POOL_DISCRIMINATOR;

verus! {

/// Bytes 4 to 7 of an address, as a number.
pub open spec fn domain_id_of(addr: Seq<u8>) -> u32 {
    be_value(addr.subrange(4, 8)) as u32
}

/// Bytes 12 to 15 of an address, as a number.
pub open spec fn client_id_of(addr: Seq<u8>) -> u32 {
    be_value(addr.subrange(12, 16)) as u32
}

/// The synthetic address of a domain: `fd00:abcd:XXXX:YYYY::1` with the id at `XXXX:YYYY`.
pub open spec fn synthetic_addr(domain_id: u32) -> Seq<u8> {
    SYNTHETIC_PREFIX@ + be_bytes(domain_id as nat, 4) + seq![0u8, 0u8, 0u8, 0u8, 0u8, 0u8, 0u8, 1u8]
}

/// The VIP of a client: `fd00:abcd:0:1::` followed by the id in the last four bytes.
pub open spec fn client_vip(client_id: u32) -> Seq<u8> {
    SYNTHETIC_PREFIX@ + VIP_POOL_DISCRIMINATOR@ + seq![0u8, 0u8, 0u8, 0u8] + be_bytes(
        client_id as nat,
        4,
    )
}

/// The address starts with the four bytes of `prefix`.
pub open spec fn has_prefix(addr: Seq<u8>, prefix: [u8; 4]) -> bool {
    addr[0] == prefix[0] && addr[1] == prefix[1] && addr[2] == prefix[2] && addr[3] == prefix[3]
}

/// Whether an address starts with four given bytes.
pub fn starts_with_prefix(addr: &[u8; 16], prefix: &[u8; 4]) -> (yes: bool)
    ensures
        yes == has_prefix(addr@, *prefix),
{
    addr[0] == prefix[0] && addr[1] == prefix[1] && addr[2] == prefix[2] && addr[3] == prefix[3]
}

/// Whether two addresses are the same.
pub fn same_addr(a: &[u8; 16], b: &[u8; 16]) -> (same: bool)
    ensures
        same == (a@ == b@),
{
    let mut i: usize = 0;
    while i < 16
        invariant
            i <= 16,
            forall|j: int| 0 <= j < i ==> a@[j] == b@[j],
        decreases 16 - i,
    {
        if a[i] != b[i] {
            return false;
        }
        i = i + 1;
    }
    assert(a@ =~= b@);
    true
}

/// Read the domain id out of a synthetic address.
pub fn domain_id_from_ipv6(addr: &[u8; 16]) -> (id: u32)
    ensures
        id == domain_id_of(addr@),
{
    assert(seq![addr[4], addr[5], addr[6], addr[7]] =~= addr@.subrange(4, 8));
    u32_from_be(addr[4], addr[5], addr[6], addr[7])
}

/// Read the client id out of a client VIP.
pub fn client_id_from_ipv6(addr: &[u8; 16]) -> (id: u32)
    ensures
        id == client_id_of(addr@),
{
    assert(seq![addr[12], addr[13], addr[14], addr[15]] =~= addr@.subrange(12, 16));
    u32_from_be(addr[12], addr[13], addr[14], addr[15])
}

/// The synthetic address of a domain.
pub fn synthetic_ipv6(domain_id: u32) -> (addr: [u8; 16])
    ensures
        addr@ == synthetic_addr(domain_id),
{
    let id: [u8; 4] = u32_to_be(domain_id);
    let p: [u8; 4] = SYNTHETIC_PREFIX;
    let addr: [u8; 16] = [
        p[0],
        p[1],
        p[2],
        p[3],
        id[0],
        id[1],
        id[2],
        id[3],
        0,
        0,
        0,
        0,
        0,
        0,
        0,
        1,
    ];
    assert(addr@ =~= synthetic_addr(domain_id));
    addr
}

/// The VIP of a client.
pub fn client_vip_from_id24(client_id: u32) -> (addr: [u8; 16])
    ensures
        addr@ == client_vip(client_id),
{
    let p: [u8; 4] = SYNTHETIC_PREFIX;
    let d: [u8; 4] = VIP_POOL_DISCRIMINATOR;
    let cid: [u8; 4] = u32_to_be(client_id);
    let addr: [u8; 16] = [
        p[0],
        p[1],
        p[2],
        p[3],
        d[0],
        d[1],
        d[2],
        d[3],
        0,
        0,
        0,
        0,
        cid[0],
        cid[1],
        cid[2],
        cid[3],
    ];
    assert(addr@ =~= client_vip(client_id));
    addr
}

/// A synthetic address carries the synthetic prefix and gives its domain id back.
pub proof fn law_synthetic_addr_carries_domain_id(domain_id: u32)
    ensures
        synthetic_addr(domain_id).len() == 16,
        has_prefix(synthetic_addr(domain_id), SYNTHETIC_PREFIX),
        domain_id_of(synthetic_addr(domain_id)) == domain_id,
{
    lemma_be_value_of_bytes_4(domain_id);
    lemma_be_bytes_len(domain_id as nat, 4);
    assert(synthetic_addr(domain_id).subrange(4, 8) =~= be_bytes(domain_id as nat, 4));
}

/// A client VIP carries the synthetic prefix and the pool discriminator, and gives its client
/// id back.
pub proof fn law_client_vip_carries_client_id(client_id: u32)
    ensures
        client_vip(client_id).len() == 16,
        has_prefix(client_vip(client_id), SYNTHETIC_PREFIX),
        client_vip(client_id).subrange(4, 8) == VIP_POOL_DISCRIMINATOR@,
        client_id_of(client_vip(client_id)) == client_id,
{
    lemma_be_value_of_bytes_4(client_id);
    lemma_be_bytes_len(client_id as nat, 4);
    assert(client_vip(client_id).subrange(4, 8) =~= VIP_POOL_DISCRIMINATOR@);
    assert(client_vip(client_id).subrange(12, 16) =~= be_bytes(client_id as nat, 4));
}

/// Different domains have different synthetic addresses, different clients different VIPs.
pub proof fn law_addresses_distinct(a: u32, b: u32)
    requires
        a != b,
    ensures
        synthetic_addr(a) != synthetic_addr(b),
        client_vip(a) != client_vip(b),
{
    law_synthetic_addr_carries_domain_id(a);
    law_synthetic_addr_carries_domain_id(b);
    law_client_vip_carries_client_id(a);
    law_client_vip_carries_client_id(b);
}

/// A client VIP is no domain's synthetic address, with the one exception of client 1 and
/// domain 1. The clients of the pool have ids from `0x1_0000` on.
pub proof fn law_vips_are_not_synthetic(client_id: u32, domain_id: u32)
    requires
        client_id != 1 || domain_id != 1,
    ensures
        client_vip(client_id) != synthetic_addr(domain_id),
{
    law_client_vip_carries_client_id(client_id);
    law_synthetic_addr_carries_domain_id(domain_id);
    let vip = client_vip(client_id);
    let synthetic = synthetic_addr(domain_id);
    if vip == synthetic {
        lemma_be_value_4(VIP_POOL_DISCRIMINATOR@);
        assert(domain_id_of(synthetic) == 1);
        lemma_be_value_4(synthetic.subrange(12, 16));
        assert(client_id_of(vip) == 1);
    }
}

/// An address under the public prefix is never one under the synthetic prefix.
pub proof fn law_prefixes_disjoint(addr: Seq<u8>)
    ensures
        !(has_prefix(addr, PROXY_SRC_PREFIX) && has_prefix(addr, SYNTHETIC_PREFIX)),
{
}

/// The synthetic address of a domain, byte by byte: `fd 00 ab cd`, the id with its highest
/// byte first, seven zeros and a one.
pub proof fn law_synthetic_addr_by_bytes(domain_id: u32)
    ensures
        ({
            let a = synthetic_addr(domain_id);
            &&& a.len() == 16
            &&& a[0] == 0xfd && a[1] == 0x00 && a[2] == 0xab && a[3] == 0xcd
            &&& a[4] * 0x1000000 + a[5] * 0x10000 + a[6] * 0x100 + a[7] == domain_id
            &&& a[8] == 0 && a[9] == 0 && a[10] == 0 && a[11] == 0
            &&& a[12] == 0 && a[13] == 0 && a[14] == 0 && a[15] == 1
        }),
{
    law_synthetic_addr_carries_domain_id(domain_id);
    lemma_be_value_4(synthetic_addr(domain_id).subrange(4, 8));
    lemma_be_bytes_len(domain_id as nat, 4);
}

/// The VIP of a client, byte by byte: `fd 00 ab cd 00 00 00 01`, four zeros, and the id with
/// its highest byte first.
pub proof fn law_client_vip_by_bytes(client_id: u32)
    ensures
        ({
            let a = client_vip(client_id);
            &&& a.len() == 16
            &&& a[0] == 0xfd && a[1] == 0x00 && a[2] == 0xab && a[3] == 0xcd
            &&& a[4] == 0 && a[5] == 0 && a[6] == 0 && a[7] == 1
            &&& a[8] == 0 && a[9] == 0 && a[10] == 0 && a[11] == 0
            &&& a[12] * 0x1000000 + a[13] * 0x10000 + a[14] * 0x100 + a[15] == client_id
        }),
{
    law_client_vip_carries_client_id(client_id);
    lemma_be_value_4(client_vip(client_id).subrange(12, 16));
    lemma_be_bytes_len(client_id as nat, 4);
}

/// The ids that an address carries, by its bytes.
pub proof fn law_ids_by_bytes(addr: Seq<u8>)
    requires
        addr.len() == 16,
    ensures
        domain_id_of(addr) == addr[4] * 0x1000000 + addr[5] * 0x10000 + addr[6] * 0x100 + addr[7],
        client_id_of(addr) == addr[12] * 0x1000000 + addr[13] * 0x10000 + addr[14] * 0x100
            + addr[15],
{
    lemma_be_value_4(addr.subrange(4, 8));
    lemma_be_value_4(addr.subrange(12, 16));
}

/// Minting an address and reading the id out of it are opposites, for domains and for clients.
pub proof fn law_minted_addresses_read_back(
    id: u32,
    synthetic: [u8; 16],
    vip: [u8; 16],
    domain_id: u32,
    client_id: u32,
)
    requires
        call_ensures(synthetic_ipv6, (id,), synthetic),
        call_ensures(client_vip_from_id24, (id,), vip),
        call_ensures(domain_id_from_ipv6, (&synthetic,), domain_id),
        call_ensures(client_id_from_ipv6, (&vip,), client_id),
    ensures
        domain_id == id,
        client_id == id,
        synthetic@[0] == 0xfd && synthetic@[1] == 0x00 && synthetic@[2] == 0xab && synthetic@[3]
            == 0xcd,
        vip@[0] == 0xfd && vip@[1] == 0x00 && vip@[2] == 0xab && vip@[3] == 0xcd,
        synthetic@[4] * 0x1000000 + synthetic@[5] * 0x10000 + synthetic@[6] * 0x100
            + synthetic@[7] == id,
        vip@[12] * 0x1000000 + vip@[13] * 0x10000 + vip@[14] * 0x100 + vip@[15] == id,
        synthetic@[15] == 1,
        vip@[7] == 1,
{
    law_synthetic_addr_by_bytes(id);
    law_client_vip_by_bytes(id);
    law_ids_by_bytes(synthetic@);
    law_ids_by_bytes(vip@);
}

} // verus!
