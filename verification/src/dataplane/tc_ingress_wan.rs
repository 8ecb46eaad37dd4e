//! Replies on the WAN interface: origin to client.
//!
//! A packet to a proxy-source address is checked and decoded. Its source becomes the
//! domain's synthetic address, its destination the client's VIP, and it goes back into the
//! tunnel.

use vstd::prelude::*;

use crate::address::client_vip;
use crate::address::client_vip_from_id24;
use crate::address::has_prefix;
use crate::address::same_addr;
use crate::address::starts_with_prefix;
use crate::address::synthetic_addr;
use crate::address::synthetic_ipv6;
use crate::constants::PROXY_SRC_PREFIX;
use crate::dataplane::packet::dst_addr_of;
use crate::dataplane::packet::extract_l4_ports;
use crate::dataplane::packet::find_tcp_or_udp;
use crate::dataplane::packet::ports_of;
use crate::dataplane::packet::read_addr;
use crate::dataplane::packet::src_addr_of;
use crate::dataplane::packet::tcp_or_udp;
use crate::dataplane::packet::L4Proto;
use crate::dataplane::packet::IPV6_HDR_LEN;
use crate::dataplane::plan::ops_view;
use crate::dataplane::plan::usable_key;
use crate::dataplane::plan::Mode;
use crate::dataplane::plan::OpView;
use crate::dataplane::plan::PacketOp;
use crate::dataplane::plan::TcAction;
use crate::dataplane::plan::TcStep;
use crate::dataplane::plan::TcVerdict;
use crate::dataplane::plan::TcVerdictView;
use crate::proxy_src::carried_ids;
use crate::proxy_src::decode_proxy_src;
use crate::types::NatEntry;
use crate::types::ProxySrcCtx;
use crate::types::ProxySrcKey;

verus! {

/// A TCP or UDP packet to a proxy-source address.
pub open spec fn is_reply(packet: Seq<u8>) -> bool {
    tcp_or_udp(packet) matches Some((off, _)) && has_prefix(
        dst_addr_of(packet, off),
        PROXY_SRC_PREFIX,
    )
}

/// The ids that an address carries under the active key, if there is one.
pub open spec fn ids_under_active_key(
    addr: Seq<u8>,
    ctx: ProxySrcCtx,
    key: Option<ProxySrcKey>,
) -> Option<(u32, u32)> {
    if usable_key(key) {
        carried_ids(addr, ctx, key->0)
    } else {
        None
    }
}

/// The flow that a reply belongs to, as the outbound packet saw it: the reply's ports are
/// the other way round.
pub open spec fn reply_ctx(reply_ports: (u16, u16), proto: L4Proto) -> ProxySrcCtx {
    ProxySrcCtx::of(reply_ports.1, reply_ports.0, proto.spec_number())
}

/// The first decision: packets that are not replies pass, replies that do not decode are
/// dropped, the others need the origin of their domain.
pub open spec fn wan_step(packet: Seq<u8>, key: Option<ProxySrcKey>) -> TcStep {
    match tcp_or_udp(packet) {
        Some((off, proto)) if is_reply(packet) => {
            match ports_of(packet, off + IPV6_HDR_LEN, proto) {
                None => TcStep::Done(TcAction::Accept),
                Some(ports) => match ids_under_active_key(
                    dst_addr_of(packet, off),
                    reply_ctx(ports, proto),
                    key,
                ) {
                    None => TcStep::Done(TcAction::Shot),
                    Some((_, domain_id)) => TcStep::LookupOrigin { domain_id },
                },
            }
        },
        _ => TcStep::Done(TcAction::Accept),
    }
}

/// The steps that hand a reply on to its client as coming from the synthetic address.
///
/// With a WAN address in use, the stored checksum still belongs to that address, so the
/// change from it is made up for.
pub open spec fn reply_ops(
    packet: Seq<u8>,
    off: int,
    proto: L4Proto,
    client_id: u32,
    domain_id: u32,
    wan: Option<Seq<u8>>,
) -> Seq<OpView> {
    let csum = off + IPV6_HDR_LEN + proto.spec_checksum_at();
    let src = src_addr_of(packet, off);
    let dst = dst_addr_of(packet, off);
    let rewrite = seq![
        OpView::Store { offset: off + 8, addr: synthetic_addr(domain_id) },
        OpView::Store { offset: off + 24, addr: client_vip(client_id) },
        OpView::FixChecksum { offset: csum, old_addr: src, new_addr: synthetic_addr(domain_id) },
        OpView::FixChecksum { offset: csum, old_addr: dst, new_addr: client_vip(client_id) },
    ];
    let mark = OpView::MarkChecksumPartial { offset: csum };
    match wan {
        None => rewrite.push(mark),
        Some(wan) => rewrite.push(
            OpView::FixChecksum { offset: csum, old_addr: wan, new_addr: dst },
        ).push(mark),
    }
}

/// Where a rewritten reply goes: into the tunnel, if the tunnel's index is known.
pub open spec fn tunnel_action(ifindex: Option<u32>) -> TcAction {
    match ifindex {
        Some(idx) if idx != 0 => TcAction::Redirect(idx),
        _ => TcAction::Shot,
    }
}

/// What is decided about a packet on the WAN interface, given the active key, the origin of
/// its domain, the tunnel's interface index and the mode.
pub open spec fn wan_verdict(
    packet: Seq<u8>,
    key: Option<ProxySrcKey>,
    entry: Option<NatEntry>,
    ifindex: Option<u32>,
    mode: Mode,
) -> TcVerdictView {
    match tcp_or_udp(packet) {
        Some((off, proto)) if is_reply(packet) => {
            match ports_of(packet, off + IPV6_HDR_LEN, proto) {
                None => TcVerdictView::Done(TcAction::Accept),
                Some(ports) => match (
                    ids_under_active_key(dst_addr_of(packet, off), reply_ctx(ports, proto), key),
                    entry,
                ) {
                    (Some((client_id, domain_id)), Some(found)) if src_addr_of(packet, off)
                        == found.origin_ipv6@ => TcVerdictView::Rewrite {
                        ops: reply_ops(packet, off, proto, client_id, domain_id, mode.wan_addr()),
                        then: tunnel_action(ifindex),
                    },
                    _ => TcVerdictView::Done(TcAction::Shot),
                },
            }
        },
        _ => TcVerdictView::Done(TcAction::Accept),
    }
}

/// Decode a proxy-source address with the active key, and with no other: a previous key is
/// not tried, so addresses made under it stop decoding when the active key changes.
///
/// `None` if there is no key, if it is all zeros, or if the address does not decode.
pub fn try_decode_with_active_key(
    addr: &[u8; 16],
    flow_ctx: &ProxySrcCtx,
    key: &Option<ProxySrcKey>,
) -> (ids: Option<(u32, u32)>)
    ensures
        ids == ids_under_active_key(addr@, *flow_ctx, *key),
{
    match key {
        Some(k) => {
            if k.is_zero() {
                None
            } else {
                decode_proxy_src(addr, flow_ctx, k)
            }
        },
        None => None,
    }
}

/// The ids in the destination of a reply, or the action if there is nothing to look up.
fn decode_reply(packet: &[u8], key: &Option<ProxySrcKey>) -> (res: Result<
    (usize, L4Proto, u32, u32),
    TcAction,
>)
    ensures
        match res {
            Ok((off, proto, client_id, domain_id)) => {
                &&& tcp_or_udp(packet@) == Some((off as int, proto))
                &&& off + IPV6_HDR_LEN + proto.spec_header_len() <= packet@.len()
                &&& is_reply(packet@)
                &&& ports_of(packet@, off + IPV6_HDR_LEN, proto) matches Some(ports)
                    && ids_under_active_key(
                    dst_addr_of(packet@, off as int),
                    reply_ctx(ports, proto),
                    *key,
                ) == Some((client_id, domain_id))
            },
            Err(action) => wan_step(packet@, *key) == TcStep::Done(action),
        },
{
    let (off, proto): (usize, L4Proto) = match find_tcp_or_udp(packet) {
        Some(found) => found,
        None => return Err(TcAction::Accept),
    };
    let dst: [u8; 16] = read_addr(packet, off + 24);
    if !starts_with_prefix(&dst, &PROXY_SRC_PREFIX) {
        return Err(TcAction::Accept);
    }
    let (reply_src_port, reply_dst_port): (u16, u16) = match extract_l4_ports(
        packet,
        off + IPV6_HDR_LEN,
        proto,
    ) {
        Some(ports) => ports,
        None => return Err(TcAction::Accept),
    };
    let flow_ctx = ProxySrcCtx::new(reply_dst_port, reply_src_port, proto.number());
    match try_decode_with_active_key(&dst, &flow_ctx, key) {
        Some((client_id, domain_id)) => Ok((off, proto, client_id, domain_id)),
        None => Err(TcAction::Shot),
    }
}

/// Decide whether a packet on the WAN interface needs the origin of a domain, and of which.
pub fn classify_wan(packet: &[u8], key: &Option<ProxySrcKey>) -> (step: TcStep)
    ensures
        step == wan_step(packet@, *key),
{
    match decode_reply(packet, key) {
        Ok((_, _, _, domain_id)) => TcStep::LookupOrigin { domain_id },
        Err(action) => TcStep::Done(action),
    }
}

/// The action for a rewritten reply.
pub fn redirect_to_tunnel(ifindex: Option<u32>) -> (action: TcAction)
    ensures
        action == tunnel_action(ifindex),
{
    match ifindex {
        Some(idx) => {
            if idx != 0 {
                TcAction::Redirect(idx)
            } else {
                TcAction::Shot
            }
        },
        None => TcAction::Shot,
    }
}

/// Decide what becomes of a packet on the WAN interface.
///
/// `key` is what the active key slot holds, `entry` is what the domain map holds for the
/// domain that [`classify_wan`] asks for, `ifindex` is what the tunnel index slot holds.
pub fn tc_ingress_wan(
    packet: &[u8],
    key: Option<ProxySrcKey>,
    entry: Option<NatEntry>,
    ifindex: Option<u32>,
    mode: &Mode,
) -> (verdict: TcVerdict)
    ensures
        verdict@ == wan_verdict(packet@, key, entry, ifindex, *mode),
{
    let (off, proto, client_id, domain_id): (usize, L4Proto, u32, u32) = match decode_reply(
        packet,
        &key,
    ) {
        Ok(decoded) => decoded,
        Err(action) => return TcVerdict::Done(action),
    };
    let client: [u8; 16] = client_vip_from_id24(client_id);
    let src: [u8; 16] = read_addr(packet, off + 8);
    let dst: [u8; 16] = read_addr(packet, off + 24);
    match entry {
        Some(found) => {
            if !same_addr(&src, &found.origin_ipv6) {
                return TcVerdict::Done(TcAction::Shot);
            }
        },
        None => return TcVerdict::Done(TcAction::Shot),
    }
    let synthetic: [u8; 16] = synthetic_ipv6(domain_id);
    let csum: usize = off + IPV6_HDR_LEN + proto.checksum_at();
    let mut ops: Vec<PacketOp> = Vec::new();
    ops.push(PacketOp::Store { offset: off + 8, addr: synthetic });
    ops.push(PacketOp::Store { offset: off + 24, addr: client });
    ops.push(PacketOp::FixChecksum { offset: csum, old_addr: src, new_addr: synthetic });
    ops.push(PacketOp::FixChecksum { offset: csum, old_addr: dst, new_addr: client });
    match mode.active_wan() {
        Some(wan) => {
            ops.push(PacketOp::FixChecksum { offset: csum, old_addr: wan, new_addr: dst });
        },
        None => {},
    }
    ops.push(PacketOp::MarkChecksumPartial { offset: csum });
    assert(ops_view(ops@) =~= reply_ops(
        packet@,
        off as int,
        proto,
        client_id,
        domain_id,
        mode.wan_addr(),
    ));
    TcVerdict::Rewrite { ops, then: redirect_to_tunnel(ifindex) }
}

} // verus!
