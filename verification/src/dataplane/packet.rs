//! Reading Ethernet, IPv6, TCP and UDP headers out of packet bytes.

use vstd::prelude::*;

use crate::bytes::be_value;
use crate::bytes::u16_from_be;

verus! {

/// Length of an Ethernet header.
pub const ETH_HDR_LEN: usize = 14;

/// Length of an IPv6 header.
pub const IPV6_HDR_LEN: usize = 40;

/// Length of a TCP header without options.
pub const TCP_HDR_LEN: usize = 20;

/// Length of a UDP header.
pub const UDP_HDR_LEN: usize = 8;

/// EtherType of IPv6.
pub const ETHERTYPE_IPV6: u16 = 0x86DD;

/// IP protocol number of TCP.
pub const PROTO_TCP: u8 = 6;

/// IP protocol number of UDP.
pub const PROTO_UDP: u8 = 17;

/// IP protocol number of ICMPv6.
pub const PROTO_ICMPV6: u8 = 58;

/// The transport protocols whose ports the proxy reads.
#[derive(Clone, Copy, PartialEq, Eq, Structural, Debug)]
pub enum L4Proto {
    Tcp,
    Udp,
}

impl L4Proto {
    /// The IP protocol number.
    pub open spec fn spec_number(self) -> u8 {
        match self {
            L4Proto::Tcp => PROTO_TCP,
            L4Proto::Udp => PROTO_UDP,
        }
    }

    /// The header length.
    pub open spec fn spec_header_len(self) -> int {
        match self {
            L4Proto::Tcp => TCP_HDR_LEN as int,
            L4Proto::Udp => UDP_HDR_LEN as int,
        }
    }

    /// Where the checksum stands in the header.
    pub open spec fn spec_checksum_at(self) -> int {
        match self {
            L4Proto::Tcp => 16,
            L4Proto::Udp => 6,
        }
    }

    /// The IP protocol number.
    pub fn number(self) -> (n: u8)
        ensures
            n == self.spec_number(),
    {
        match self {
            L4Proto::Tcp => PROTO_TCP,
            L4Proto::Udp => PROTO_UDP,
        }
    }

    /// The header length.
    pub fn header_len(self) -> (n: usize)
        ensures
            n == self.spec_header_len(),
    {
        match self {
            L4Proto::Tcp => TCP_HDR_LEN,
            L4Proto::Udp => UDP_HDR_LEN,
        }
    }

    /// Where the checksum stands in the header.
    pub fn checksum_at(self) -> (n: usize)
        ensures
            n == self.spec_checksum_at(),
    {
        match self {
            L4Proto::Tcp => 16,
            L4Proto::Udp => 6,
        }
    }
}

/// The transport protocol with a given number, if it is one whose ports the proxy reads.
pub open spec fn l4_proto_of(number: u8) -> Option<L4Proto> {
    if number == PROTO_TCP {
        Some(L4Proto::Tcp)
    } else if number == PROTO_UDP {
        Some(L4Proto::Udp)
    } else {
        None
    }
}

/// Tell TCP and UDP from everything else by the protocol number.
pub fn l4_proto(number: u8) -> (proto: Option<L4Proto>)
    ensures
        proto == l4_proto_of(number),
{
    if number == PROTO_TCP {
        Some(L4Proto::Tcp)
    } else if number == PROTO_UDP {
        Some(L4Proto::Udp)
    } else {
        None
    }
}

/// The packet starts with a whole Ethernet header that announces IPv6.
pub open spec fn is_ethernet_ipv6(packet: Seq<u8>) -> bool {
    packet.len() >= ETH_HDR_LEN && be_value(packet.subrange(12, 14)) == ETHERTYPE_IPV6
}

/// Where the IPv6 header of a packet starts: at once if the first byte is that of an IPv6
/// header, behind an Ethernet header that announces IPv6 otherwise.
pub open spec fn ipv6_offset_of(packet: Seq<u8>) -> Option<int> {
    if packet.len() == 0 {
        None
    } else if packet[0] / 16 == 6 {
        Some(0)
    } else if is_ethernet_ipv6(packet) {
        Some(ETH_HDR_LEN as int)
    } else {
        None
    }
}

/// A whole IPv6 header stands at `off`.
pub open spec fn has_ipv6_header(packet: Seq<u8>, off: int) -> bool {
    0 <= off && off + IPV6_HDR_LEN <= packet.len()
}

/// The next-header field of the IPv6 header at `off`.
pub open spec fn next_header_of(packet: Seq<u8>, off: int) -> u8 {
    packet[off + 6]
}

/// The source address of the IPv6 header at `off`.
pub open spec fn src_addr_of(packet: Seq<u8>, off: int) -> Seq<u8> {
    packet.subrange(off + 8, off + 24)
}

/// The destination address of the IPv6 header at `off`.
pub open spec fn dst_addr_of(packet: Seq<u8>, off: int) -> Seq<u8> {
    packet.subrange(off + 24, off + 40)
}

/// The source and destination port of the transport header at `base`, if the packet
/// holds that header whole.
pub open spec fn ports_of(packet: Seq<u8>, base: int, proto: L4Proto) -> Option<(u16, u16)> {
    if base + proto.spec_header_len() <= packet.len() {
        Some(
            (
                be_value(packet.subrange(base, base + 2)) as u16,
                be_value(packet.subrange(base + 2, base + 4)) as u16,
            ),
        )
    } else {
        None
    }
}

/// Whether the packet starts with an Ethernet header that announces IPv6.
pub fn starts_with_ethernet_ipv6(packet: &[u8]) -> (yes: bool)
    ensures
        yes == is_ethernet_ipv6(packet@),
{
    if packet.len() < ETH_HDR_LEN {
        return false;
    }
    assert(seq![packet[12], packet[13]] =~= packet@.subrange(12, 14));
    u16_from_be(packet[12], packet[13]) == ETHERTYPE_IPV6
}

/// Find the IPv6 header of a packet with or without Ethernet framing.
pub fn ipv6_offset(packet: &[u8]) -> (off: Option<usize>)
    ensures
        off is Some <==> ipv6_offset_of(packet@) is Some,
        off matches Some(o) ==> ipv6_offset_of(packet@) == Some(o as int),
{
    if packet.len() == 0 {
        return None;
    }
    if packet[0] / 16 == 6 {
        return Some(0);
    }
    if starts_with_ethernet_ipv6(packet) {
        Some(ETH_HDR_LEN)
    } else {
        None
    }
}

/// Sixteen bytes of a packet.
pub fn read_addr(packet: &[u8], at: usize) -> (addr: [u8; 16])
    requires
        at + 16 <= packet@.len(),
    ensures
        addr@ == packet@.subrange(at as int, at + 16),
{
    let mut addr: [u8; 16] = [0; 16];
    let mut i: usize = 0;
    while i < 16
        invariant
            i <= 16,
            at + 16 <= packet.len(),
            forall|j: int| 0 <= j < i ==> addr@[j] == packet@[at + j],
        decreases 16 - i,
    {
        addr[i] = packet[at + i];
        i = i + 1;
    }
    assert(addr@ =~= packet@.subrange(at as int, at + 16));
    addr
}

/// Read the ports, in host order, of the transport header at `base`.
pub fn extract_l4_ports(packet: &[u8], base: usize, proto: L4Proto) -> (ports: Option<(u16, u16)>)
    ensures
        ports == ports_of(packet@, base as int, proto),
{
    let need: usize = proto.header_len();
    if base > packet.len() || packet.len() - base < need {
        return None;
    }
    assert(seq![packet[base as int], packet[base + 1]] =~= packet@.subrange(
        base as int,
        base + 2,
    ));
    assert(seq![packet[base + 2], packet[base + 3]] =~= packet@.subrange(base + 2, base + 4));
    let src: u16 = u16_from_be(packet[base], packet[base + 1]);
    let dst: u16 = u16_from_be(packet[base + 2], packet[base + 3]);
    Some((src, dst))
}

/// Where the IPv6 header of a TCP or UDP packet starts, and which of the two it is.
/// None for every other packet.
pub open spec fn tcp_or_udp(packet: Seq<u8>) -> Option<(int, L4Proto)> {
    match ipv6_offset_of(packet) {
        Some(off) if has_ipv6_header(packet, off) => match l4_proto_of(
            next_header_of(packet, off),
        ) {
            Some(proto) => Some((off, proto)),
            None => None,
        },
        _ => None,
    }
}

/// Find the IPv6 header of a TCP or UDP packet.
pub fn find_tcp_or_udp(packet: &[u8]) -> (found: Option<(usize, L4Proto)>)
    ensures
        found is Some <==> tcp_or_udp(packet@) is Some,
        found matches Some((off, proto)) ==> tcp_or_udp(packet@) == Some((off as int, proto)),
        found matches Some((off, _)) ==> off + IPV6_HDR_LEN <= packet@.len(),
{
    let off: usize = match ipv6_offset(packet) {
        Some(off) => off,
        None => return None,
    };
    if packet.len() < off || packet.len() - off < IPV6_HDR_LEN {
        return None;
    }
    match l4_proto(packet[off + 6]) {
        Some(proto) => Some((off, proto)),
        None => None,
    }
}

} // verus!
