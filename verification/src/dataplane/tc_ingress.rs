//! Packets from the tunnel: client to origin.
//!
//! A packet to a synthetic address is sent on to the domain's origin. Its source becomes a
//! proxy-source address that carries everything needed to route the reply.

use vstd::prelude::*;

use crate::address::client_id_from_ipv6;
use crate::address::client_id_of;
use crate::address::domain_id_from_ipv6;
use crate::address::domain_id_of;
use crate::address::has_prefix;
use crate::address::starts_with_prefix;
use crate::constants::SYNTHETIC_PREFIX;
use crate::dataplane::packet::dst_addr_of;
use crate::dataplane::packet::extract_l4_ports;
use crate::dataplane::packet::find_tcp_or_udp;
use crate::dataplane::packet::ports_of;
use crate::dataplane::packet::read_addr;
use crate::dataplane::packet::src_addr_of;
use crate::dataplane::packet::tcp_or_udp;
use crate::dataplane::packet::L4Proto;
use crate::dataplane::packet::IPV6_HDR_LEN;
use crate::dataplane::plan::make_track_key;
use crate::dataplane::plan::ops_view;
use crate::dataplane::plan::track_key;
use crate::dataplane::plan::usable_key;
use crate::dataplane::plan::Mode;
use crate::dataplane::plan::OpView;
use crate::dataplane::plan::PacketOp;
use crate::dataplane::plan::TcAction;
use crate::dataplane::plan::TcStep;
use crate::dataplane::plan::TcVerdict;
use crate::dataplane::plan::TcVerdictView;
use crate::proxy_src::encode_proxy_src;
use crate::proxy_src::ids_fit;
use crate::proxy_src::proxy_src_addr;
use crate::types::NatEntry;
use crate::types::ProxySrcCtx;
use crate::types::ProxySrcKey;
use crate::types::ReplyTrackValue;

verus! {

/// A TCP or UDP packet to a synthetic address.
pub open spec fn is_outbound(packet: Seq<u8>) -> bool {
    tcp_or_udp(packet) matches Some((off, _)) && has_prefix(
        dst_addr_of(packet, off),
        SYNTHETIC_PREFIX,
    )
}

/// The first decision: packets that are not for a synthetic address pass, the others need
/// the origin of the domain in their destination.
pub open spec fn ingress_step(packet: Seq<u8>) -> TcStep {
    match tcp_or_udp(packet) {
        Some((off, _)) if is_outbound(packet) => TcStep::LookupOrigin {
            domain_id: domain_id_of(dst_addr_of(packet, off)),
        },
        _ => TcStep::Done(TcAction::Accept),
    }
}

/// The steps that send an outbound packet on to its origin under a proxy-source address,
/// or under the WAN address with the proxy-source address remembered.
pub open spec fn ingress_ops(
    packet: Seq<u8>,
    off: int,
    proto: L4Proto,
    ports: (u16, u16),
    origin: Seq<u8>,
    proxy_src: Seq<u8>,
    wan: Option<Seq<u8>>,
) -> Seq<OpView> {
    let csum = off + IPV6_HDR_LEN + proto.spec_checksum_at();
    let src = src_addr_of(packet, off);
    let dst = dst_addr_of(packet, off);
    match wan {
        None => seq![
            OpView::Store { offset: off + 24, addr: origin },
            OpView::Store { offset: off + 8, addr: proxy_src },
            OpView::FixChecksum { offset: csum, old_addr: src, new_addr: proxy_src },
            OpView::FixChecksum { offset: csum, old_addr: dst, new_addr: origin },
        ],
        Some(wan) => seq![
            OpView::Store { offset: off + 24, addr: origin },
            OpView::TrackReply {
                key: track_key(origin, ports.1, ports.0, proto.spec_number()),
                proxy_src,
            },
            OpView::Store { offset: off + 8, addr: wan },
            OpView::FixChecksum { offset: csum, old_addr: src, new_addr: wan },
            OpView::FixChecksum { offset: csum, old_addr: dst, new_addr: origin },
        ],
    }
}

/// The proxy-source address of an outbound packet at hand.
pub open spec fn outbound_proxy_src(
    packet: Seq<u8>,
    off: int,
    proto: L4Proto,
    ports: (u16, u16),
    key: ProxySrcKey,
) -> Seq<u8> {
    proxy_src_addr(
        client_id_of(src_addr_of(packet, off)),
        domain_id_of(dst_addr_of(packet, off)),
        ProxySrcCtx::of(ports.0, ports.1, proto.spec_number()),
        key,
    )
}

/// What is decided about a packet from the tunnel, given the origin of its domain, the
/// active key and the mode.
pub open spec fn ingress_verdict(
    packet: Seq<u8>,
    entry: Option<NatEntry>,
    key: Option<ProxySrcKey>,
    mode: Mode,
) -> TcVerdictView {
    match tcp_or_udp(packet) {
        Some((off, proto)) if is_outbound(packet) => {
            match (entry, ports_of(packet, off + IPV6_HDR_LEN, proto)) {
                (None, _) => TcVerdictView::Done(TcAction::Shot),
                (_, None) => TcVerdictView::Done(TcAction::Accept),
                (Some(found), Some(ports)) => if !usable_key(key) || !ids_fit(
                    client_id_of(src_addr_of(packet, off)),
                    domain_id_of(dst_addr_of(packet, off)),
                ) {
                    TcVerdictView::Done(TcAction::Shot)
                } else {
                    TcVerdictView::Rewrite {
                        ops: ingress_ops(
                            packet,
                            off,
                            proto,
                            ports,
                            found.origin_ipv6@,
                            outbound_proxy_src(packet, off, proto, ports, key->0),
                            mode.wan_addr(),
                        ),
                        then: TcAction::Accept,
                    }
                },
            }
        },
        _ => TcVerdictView::Done(TcAction::Accept),
    }
}

/// Decide whether a packet from the tunnel needs the origin of a domain, and of which.
pub fn classify_ingress(packet: &[u8]) -> (step: TcStep)
    ensures
        step == ingress_step(packet@),
{
    match find_tcp_or_udp(packet) {
        Some((off, _)) => {
            let dst: [u8; 16] = read_addr(packet, off + 24);
            if starts_with_prefix(&dst, &SYNTHETIC_PREFIX) {
                TcStep::LookupOrigin { domain_id: domain_id_from_ipv6(&dst) }
            } else {
                TcStep::Done(TcAction::Accept)
            }
        },
        None => TcStep::Done(TcAction::Accept),
    }
}

/// Decide what becomes of a packet from the tunnel.
///
/// `entry` is what the domain map holds for the domain that [`classify_ingress`] asks for,
/// `key` is what the active key slot holds.
pub fn tc_ingress(
    packet: &[u8],
    entry: Option<NatEntry>,
    key: Option<ProxySrcKey>,
    mode: &Mode,
) -> (verdict: TcVerdict)
    ensures
        verdict@ == ingress_verdict(packet@, entry, key, *mode),
{
    let (off, proto): (usize, L4Proto) = match find_tcp_or_udp(packet) {
        Some(found) => found,
        None => return TcVerdict::Done(TcAction::Accept),
    };
    let dst: [u8; 16] = read_addr(packet, off + 24);
    if !starts_with_prefix(&dst, &SYNTHETIC_PREFIX) {
        return TcVerdict::Done(TcAction::Accept);
    }
    let domain_id: u32 = domain_id_from_ipv6(&dst);
    let origin: [u8; 16] = match entry {
        Some(found) => found.origin_ipv6,
        None => return TcVerdict::Done(TcAction::Shot),
    };
    let src: [u8; 16] = read_addr(packet, off + 8);
    let client_id: u32 = client_id_from_ipv6(&src);
    let l4_base: usize = off + IPV6_HDR_LEN;
    let (src_port, dst_port): (u16, u16) = match extract_l4_ports(packet, l4_base, proto) {
        Some(ports) => ports,
        None => return TcVerdict::Done(TcAction::Accept),
    };
    let active: ProxySrcKey = match key {
        Some(k) => {
            if k.is_zero() {
                return TcVerdict::Done(TcAction::Shot);
            }
            k
        },
        None => return TcVerdict::Done(TcAction::Shot),
    };
    let flow_ctx = ProxySrcCtx::new(src_port, dst_port, proto.number());
    let proxy_src: [u8; 16] = match encode_proxy_src(client_id, domain_id, &flow_ctx, &active) {
        Some(addr) => addr,
        None => return TcVerdict::Done(TcAction::Shot),
    };
    let csum: usize = l4_base + proto.checksum_at();
    let mut ops: Vec<PacketOp> = Vec::new();
    ops.push(PacketOp::Store { offset: off + 24, addr: origin });
    let final_src: [u8; 16] = match mode.active_wan() {
        Some(wan) => {
            let track = make_track_key(origin, dst_port, src_port, proto.number());
            ops.push(PacketOp::TrackReply { key: track, value: ReplyTrackValue { proxy_src } });
            wan
        },
        None => proxy_src,
    };
    ops.push(PacketOp::Store { offset: off + 8, addr: final_src });
    ops.push(PacketOp::FixChecksum { offset: csum, old_addr: src, new_addr: final_src });
    ops.push(PacketOp::FixChecksum { offset: csum, old_addr: dst, new_addr: origin });
    assert(ops_view(ops@) =~= ingress_ops(
        packet@,
        off as int,
        proto,
        (src_port, dst_port),
        origin@,
        proxy_src@,
        mode.wan_addr(),
    ));
    TcVerdict::Rewrite { ops, then: TcAction::Accept }
}

} // verus!
