//! The filter in front of the WAN interface.
//!
//! Of IPv6 packets other than ICMPv6, only those to a proxy-source address get through. A
//! synthetic destination does not: such packets come from the tunnel, never from the WAN. In
//! testing mode, replies that arrive on the WAN address get their proxy-source address back.

use vstd::prelude::*;

use crate::address::has_prefix;
use crate::address::same_addr;
use crate::address::starts_with_prefix;
use crate::constants::PROXY_SRC_PREFIX;
use crate::dataplane::packet::dst_addr_of;
use crate::dataplane::packet::extract_l4_ports;
use crate::dataplane::packet::has_ipv6_header;
use crate::dataplane::packet::is_ethernet_ipv6;
use crate::dataplane::packet::l4_proto;
use crate::dataplane::packet::l4_proto_of;
use crate::dataplane::packet::next_header_of;
use crate::dataplane::packet::ports_of;
use crate::dataplane::packet::read_addr;
use crate::dataplane::packet::src_addr_of;
use crate::dataplane::packet::starts_with_ethernet_ipv6;
use crate::dataplane::packet::L4Proto;
use crate::dataplane::packet::ETH_HDR_LEN;
use crate::dataplane::packet::IPV6_HDR_LEN;
use crate::dataplane::packet::PROTO_ICMPV6;
use crate::dataplane::plan::make_track_key;
use crate::dataplane::plan::ops_view;
use crate::dataplane::plan::track_key;
use crate::dataplane::plan::Mode;
use crate::dataplane::plan::OpView;
use crate::dataplane::plan::PacketOp;
use crate::dataplane::plan::TrackKeyView;
use crate::dataplane::plan::XdpAction;
use crate::types::ReplyTrackKey;
use crate::types::ReplyTrackValue;

verus! {

/// Counter of IPv6 packets other than ICMPv6.
pub const COUNT_ENTERED: u32 = 0;

/// Counter of packets to a proxy-source address.
pub const COUNT_PROXY_SRC: u32 = 1;

/// Counter of packets to the WAN address.
pub const COUNT_WAN: u32 = 2;

/// Counter of replies to remembered connections.
pub const COUNT_TRACK_HIT: u32 = 3;

/// Counter of packets to the WAN address that belong to no remembered connection.
pub const COUNT_TRACK_MISS: u32 = 4;

/// Counter of dropped packets.
pub const COUNT_DROP: u32 = 5;

/// Counter of packets to other addresses while a WAN address slot is populated.
pub const COUNT_NOT_WAN: u32 = 6;

/// Counter of packets seen while no WAN address slot is populated.
pub const COUNT_NO_WAN: u32 = 7;

/// What the filter decides: the action, the steps before it, and the debug counters to
/// increment.
pub struct XdpVerdict {
    pub action: XdpAction,
    pub ops: Vec<PacketOp>,
    pub counters: Vec<u32>,
}

/// An [`XdpVerdict`] over views.
pub struct XdpVerdictView {
    pub action: XdpAction,
    pub ops: Seq<OpView>,
    pub counters: Seq<u32>,
}

impl View for XdpVerdict {
    type V = XdpVerdictView;

    open spec fn view(&self) -> XdpVerdictView {
        XdpVerdictView {
            action: self.action,
            ops: ops_view(self.ops@),
            counters: self.counters@,
        }
    }
}

/// An IPv6 packet in an Ethernet frame that the filter judges by its destination.
pub open spec fn is_filtered(packet: Seq<u8>) -> bool {
    &&& is_ethernet_ipv6(packet)
    &&& has_ipv6_header(packet, ETH_HDR_LEN as int)
    &&& next_header_of(packet, ETH_HDR_LEN as int) != PROTO_ICMPV6
}

/// A filtered packet to the WAN address, which is in use and not a proxy-source address.
pub open spec fn is_to_wan(packet: Seq<u8>, mode: Mode) -> bool {
    &&& is_filtered(packet)
    &&& !has_prefix(dst_addr_of(packet, ETH_HDR_LEN as int), PROXY_SRC_PREFIX)
    &&& mode.wan_addr() == Some(dst_addr_of(packet, ETH_HDR_LEN as int))
}

/// The remembered connection that a packet to the WAN address may be the reply of.
pub open spec fn tracked_as(packet: Seq<u8>, mode: Mode) -> Option<TrackKeyView> {
    let off = ETH_HDR_LEN as int;
    match l4_proto_of(next_header_of(packet, off)) {
        Some(proto) if is_to_wan(packet, mode) => match ports_of(
            packet,
            off + IPV6_HDR_LEN,
            proto,
        ) {
            Some((src_port, dst_port)) => Some(
                track_key(src_addr_of(packet, off), src_port, dst_port, proto.spec_number()),
            ),
            None => None,
        },
        _ => None,
    }
}

/// What is decided about a packet that arrives on the WAN interface, given what the reply
/// table holds for it.
pub open spec fn xdp_verdict(
    packet: Seq<u8>,
    known: Option<ReplyTrackValue>,
    mode: Mode,
) -> XdpVerdictView {
    XdpVerdictView {
        action: xdp_action(packet, mode),
        ops: xdp_ops(packet, known, mode),
        counters: xdp_counters(packet, known, mode),
    }
}

/// Dropped is what the filter judges, synthetic destinations included, unless it goes to a
/// proxy-source address or to the WAN address in use.
pub open spec fn xdp_action(packet: Seq<u8>, mode: Mode) -> XdpAction {
    if is_filtered(packet) && !has_prefix(
        dst_addr_of(packet, ETH_HDR_LEN as int),
        PROXY_SRC_PREFIX,
    ) && !is_to_wan(packet, mode) {
        XdpAction::Drop
    } else {
        XdpAction::Pass
    }
}

/// A reply to a remembered connection gets its proxy-source address back. Its checksum is
/// left alone.
pub open spec fn xdp_ops(packet: Seq<u8>, known: Option<ReplyTrackValue>, mode: Mode) -> Seq<
    OpView,
> {
    match (tracked_as(packet, mode), known) {
        (Some(_), Some(value)) => seq![
            OpView::Store { offset: ETH_HDR_LEN + 24, addr: value.proxy_src@ },
        ],
        _ => Seq::empty(),
    }
}

/// The debug counters to increment, in order. There are none in production.
pub open spec fn xdp_counters(
    packet: Seq<u8>,
    known: Option<ReplyTrackValue>,
    mode: Mode,
) -> Seq<u32> {
    match mode {
        Mode::Dev { wan } if is_filtered(packet) => if has_prefix(
            dst_addr_of(packet, ETH_HDR_LEN as int),
            PROXY_SRC_PREFIX,
        ) {
            seq![COUNT_ENTERED, COUNT_PROXY_SRC]
        } else if is_to_wan(packet, mode) {
            if tracked_as(packet, mode) is None {
                seq![COUNT_ENTERED, COUNT_WAN]
            } else if known is Some {
                seq![COUNT_ENTERED, COUNT_WAN, COUNT_TRACK_HIT]
            } else {
                seq![COUNT_ENTERED, COUNT_WAN, COUNT_TRACK_MISS]
            }
        } else if wan is Some {
            seq![COUNT_ENTERED, COUNT_NOT_WAN, COUNT_DROP]
        } else {
            seq![COUNT_ENTERED, COUNT_NO_WAN, COUNT_DROP]
        },
        _ => Seq::empty(),
    }
}

/// The destination of a packet that the filter judges by it.
pub fn filtered_dst(packet: &[u8]) -> (dst: Option<[u8; 16]>)
    ensures
        dst is Some <==> is_filtered(packet@),
        dst matches Some(d) ==> d@ == dst_addr_of(packet@, ETH_HDR_LEN as int),
{
    if !starts_with_ethernet_ipv6(packet) {
        return None;
    }
    if packet.len() < ETH_HDR_LEN + IPV6_HDR_LEN {
        return None;
    }
    if packet[ETH_HDR_LEN + 6] == PROTO_ICMPV6 {
        return None;
    }
    Some(read_addr(packet, ETH_HDR_LEN + 24))
}

/// Whether a packet has to be looked up in the reply table, and under which key.
pub fn classify_xdp_wan(packet: &[u8], mode: &Mode) -> (key: Option<ReplyTrackKey>)
    ensures
        key is Some <==> tracked_as(packet@, *mode) is Some,
        key matches Some(k) ==> tracked_as(packet@, *mode) == Some(k@),
{
    let dst: [u8; 16] = match filtered_dst(packet) {
        Some(dst) => dst,
        None => return None,
    };
    if starts_with_prefix(&dst, &PROXY_SRC_PREFIX) {
        return None;
    }
    match mode.active_wan() {
        Some(wan) => {
            if !same_addr(&dst, &wan) {
                return None;
            }
        },
        None => return None,
    }
    let proto: L4Proto = match l4_proto(packet[ETH_HDR_LEN + 6]) {
        Some(proto) => proto,
        None => return None,
    };
    match extract_l4_ports(packet, ETH_HDR_LEN + IPV6_HDR_LEN, proto) {
        Some((src_port, dst_port)) => {
            let src: [u8; 16] = read_addr(packet, ETH_HDR_LEN + 8);
            Some(make_track_key(src, src_port, dst_port, proto.number()))
        },
        None => None,
    }
}

/// Decide what becomes of a packet that arrives on the WAN interface.
///
/// `known` is what the reply table holds under the key that [`classify_xdp_wan`] gives.
pub fn xdp_wan(packet: &[u8], known: Option<ReplyTrackValue>, mode: &Mode) -> (verdict:
    XdpVerdict)
    ensures
        verdict@ == xdp_verdict(packet@, known, *mode),
{
    let mut ops: Vec<PacketOp> = Vec::new();
    let mut counters: Vec<u32> = Vec::new();
    let dst: [u8; 16] = match filtered_dst(packet) {
        Some(dst) => dst,
        None => {
            let verdict = XdpVerdict { action: XdpAction::Pass, ops, counters };
            assert(verdict@.ops =~= xdp_ops(packet@, known, *mode));
            assert(verdict@.counters =~= xdp_counters(packet@, known, *mode));
            return verdict;
        },
    };
    let (dev, slot): (bool, Option<[u8; 16]>) = match mode {
        Mode::Production => (false, None),
        Mode::Dev { wan } => (true, *wan),
    };
    if dev {
        counters.push(COUNT_ENTERED);
    }
    let action: XdpAction;
    if starts_with_prefix(&dst, &PROXY_SRC_PREFIX) {
        if dev {
            counters.push(COUNT_PROXY_SRC);
        }
        action = XdpAction::Pass;
    } else {
        let to_wan: bool = match mode.active_wan() {
            Some(wan) => same_addr(&dst, &wan),
            None => false,
        };
        if to_wan {
            counters.push(COUNT_WAN);
            if classify_xdp_wan(packet, mode).is_some() {
                match known {
                    Some(value) => {
                        counters.push(COUNT_TRACK_HIT);
                        ops.push(
                            PacketOp::Store { offset: ETH_HDR_LEN + 24, addr: value.proxy_src },
                        );
                    },
                    None => {
                        counters.push(COUNT_TRACK_MISS);
                    },
                }
            }
            action = XdpAction::Pass;
        } else {
            if dev {
                if slot.is_some() {
                    counters.push(COUNT_NOT_WAN);
                } else {
                    counters.push(COUNT_NO_WAN);
                }
                counters.push(COUNT_DROP);
            }
            action = XdpAction::Drop;
        }
    }
    let verdict = XdpVerdict { action, ops, counters };
    assert(verdict@.ops =~= xdp_ops(packet@, known, *mode));
    assert(verdict@.counters =~= xdp_counters(packet@, known, *mode));
    verdict
}

} // verus!
