//! Looking into a proxy-source address from the command line.

use vstd::prelude::*;

use crate::address::client_vip;
use crate::address::client_vip_from_id24;
use crate::address::synthetic_addr;
use crate::address::synthetic_ipv6;
use crate::dataplane::packet::L4Proto;
use crate::keys::key_as_bytes;
use crate::keys::key_bytes_of;
use crate::keys::parse_key_bytes;
use crate::keys::KeyError;
use crate::proxy_src::carried_ids;
use crate::proxy_src::decode_proxy_src;
use crate::proxy_src::law_decode_inverts_encode;
use crate::proxy_src::proxy_src_addr;
use crate::text::law_lowered_by_code_point;
use crate::text::lowered;
use crate::text::to_lower;
use crate::types::ProxySrcCtx;
use crate::types::ProxySrcKey;

verus! {

/// What a proxy-source address carries.
pub struct Decoded {
    pub client_id: u32,
    pub domain_id: u32,
    pub client_vip: [u8; 16],
    pub synthetic_addr: [u8; 16],
}

/// Why nothing was decoded.
#[derive(Clone, Copy, PartialEq, Eq, Structural, Debug)]
pub enum DecodeError {
    /// The key text is no key.
    Key(KeyError),
    /// The address text is no address.
    Address,
    /// The protocol is neither `tcp` nor `udp`.
    Protocol,
    /// Tag mismatch, padding error, or wrong key or context.
    Failed,
}

/// The protocol with a given name, in letters of any case.
pub open spec fn proto_named(name: Seq<char>) -> Option<L4Proto> {
    if lowered(name) == "tcp"@ {
        Some(L4Proto::Tcp)
    } else if lowered(name) == "udp"@ {
        Some(L4Proto::Udp)
    } else {
        None
    }
}

/// Find the protocol with a given name.
pub fn parse_proto(name: &str) -> (proto: Option<L4Proto>)
    ensures
        proto == proto_named(name@),
{
    let lower: String = to_lower(name);
    if lower == String::from_str("tcp") {
        Some(L4Proto::Tcp)
    } else if lower == String::from_str("udp") {
        Some(L4Proto::Udp)
    } else {
        None
    }
}

/// Decode an address with the key, ports and protocol that it was made under.
///
/// `addr` is `None` where the address text is no address. An all-zero key is as good as any
/// other here. Of several faults the first in the order key, address, protocol is reported.
pub fn decode_address(
    key_hex: &str,
    addr: Option<[u8; 16]>,
    src_port: u16,
    dst_port: u16,
    proto: &str,
) -> (decoded: Result<Decoded, DecodeError>)
    ensures
        match key_bytes_of(key_hex@) {
            Err(e) => decoded == Err::<Decoded, DecodeError>(DecodeError::Key(e)),
            Ok(bytes) => if addr is None {
                decoded == Err::<Decoded, DecodeError>(DecodeError::Address)
            } else if proto_named(proto@) is None {
                decoded == Err::<Decoded, DecodeError>(DecodeError::Protocol)
            } else {
                exists|key: ProxySrcKey|
                    {
                        let ctx = ProxySrcCtx::of(
                            src_port,
                            dst_port,
                            proto_named(proto@)->0.spec_number(),
                        );
                        &&& #[trigger] key_as_bytes(key) == bytes
                        &&& match decoded {
                            Ok(d) => {
                                &&& carried_ids(addr->0@, ctx, key) == Some(
                                    (d.client_id, d.domain_id),
                                )
                                &&& d.client_vip@ == client_vip(d.client_id)
                                &&& d.synthetic_addr@ == synthetic_addr(d.domain_id)
                            },
                            Err(e) => e == DecodeError::Failed && carried_ids(addr->0@, ctx, key)
                                is None,
                        }
                    }
            },
        },
{
    let key: ProxySrcKey = match parse_key_bytes(key_hex) {
        Ok(key) => key,
        Err(e) => return Err(DecodeError::Key(e)),
    };
    let addr_bytes: [u8; 16] = match addr {
        Some(bytes) => bytes,
        None => return Err(DecodeError::Address),
    };
    let proto: L4Proto = match parse_proto(proto) {
        Some(proto) => proto,
        None => return Err(DecodeError::Protocol),
    };
    let ctx = ProxySrcCtx::new(src_port, dst_port, proto.number());
    match decode_proxy_src(&addr_bytes, &ctx, &key) {
        Some((client_id, domain_id)) => Ok(
            Decoded {
                client_id,
                domain_id,
                client_vip: client_vip_from_id24(client_id),
                synthetic_addr: synthetic_ipv6(domain_id),
            },
        ),
        None => Err(DecodeError::Failed),
    }
}

/// The names of the protocols, letter by letter in either case: `t`, `c`, `p` and `u`, `d`,
/// `p`. Every other text names none.
pub proof fn law_protocol_names_by_letters(name: Seq<char>)
    ensures
        proto_named(name) == Some(L4Proto::Tcp) <==> {
            &&& name.len() == 3
            &&& name[0] as u32 == 84 || name[0] as u32 == 116
            &&& name[1] as u32 == 67 || name[1] as u32 == 99
            &&& name[2] as u32 == 80 || name[2] as u32 == 112
        },
        proto_named(name) == Some(L4Proto::Udp) <==> {
            &&& name.len() == 3
            &&& name[0] as u32 == 85 || name[0] as u32 == 117
            &&& name[1] as u32 == 68 || name[1] as u32 == 100
            &&& name[2] as u32 == 80 || name[2] as u32 == 112
        },
{
    reveal_strlit("tcp");
    reveal_strlit("udp");
    let low = lowered(name);
    assert(low.len() == name.len());
    assert("tcp"@.len() == 3 && "udp"@.len() == 3);
    assert("tcp"@[0] == 't' && "tcp"@[1] == 'c' && "tcp"@[2] == 'p');
    assert("udp"@[0] == 'u' && "udp"@[1] == 'd' && "udp"@[2] == 'p');
    if name.len() == 3 {
        law_lowered_by_code_point(name, 0);
        law_lowered_by_code_point(name, 1);
        law_lowered_by_code_point(name, 2);
        lemma_same_code(low[0], 't');
        lemma_same_code(low[0], 'u');
        lemma_same_code(low[1], 'c');
        lemma_same_code(low[1], 'd');
        lemma_same_code(low[2], 'p');
        assert(low[0] == 't' && low[1] == 'c' && low[2] == 'p' ==> low =~= "tcp"@);
        assert(low[0] == 'u' && low[1] == 'd' && low[2] == 'p' ==> low =~= "udp"@);
    }
}

/// Characters with the same code point are the same.
proof fn lemma_same_code(a: char, b: char)
    ensures
        a == b <==> a as u32 == b as u32,
{
}

/// An address is decoded to the ids that it was made from, with their two addresses, if the key
/// text says the key, and the ports and the protocol's name are those of the flow. The name
/// stands for 6 or 17.
pub proof fn law_inspection_undoes_encoding(
    key_hex: &str,
    addr: [u8; 16],
    src_port: u16,
    dst_port: u16,
    name: &str,
    decoded: Result<Decoded, DecodeError>,
    key: ProxySrcKey,
    client_id: u32,
    domain_id: u32,
)
    requires
        call_ensures(decode_address, (key_hex, Some(addr), src_port, dst_port, name), decoded),
        key_bytes_of(key_hex@) == Ok::<Seq<u8>, KeyError>(key_as_bytes(key)),
        proto_named(name@) is Some,
        client_id < 0x100_0000,
        domain_id < 0x100_0000,
        addr@ == proxy_src_addr(
            client_id,
            domain_id,
            ProxySrcCtx::of(
                src_port,
                dst_port,
                if proto_named(name@) == Some(L4Proto::Tcp) {
                    6
                } else {
                    17
                },
            ),
            key,
        ),
    ensures
        decoded matches Ok(d) && d.client_id == client_id && d.domain_id == domain_id
            && d.client_vip@ == client_vip(client_id) && d.synthetic_addr@ == synthetic_addr(
            domain_id,
        ),
{
    let ctx = ProxySrcCtx::of(src_port, dst_port, proto_named(name@)->0.spec_number());
    law_decode_inverts_encode(client_id, domain_id, ctx, key);
    let bytes = key_as_bytes(key);
    assert forall|k: ProxySrcKey| #[trigger] key_as_bytes(k) == bytes implies k == key by {
        assert(k.prince_key@ =~= bytes.subrange(0, 16));
        assert(key.prince_key@ =~= bytes.subrange(0, 16));
        assert(k.siphash_key@ =~= bytes.subrange(16, 32));
        assert(key.siphash_key@ =~= bytes.subrange(16, 32));
        assert(k.prince_key =~= key.prince_key);
        assert(k.siphash_key =~= key.siphash_key);
    }
}

} // verus!
