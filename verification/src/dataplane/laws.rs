//! What holds of the data plane as a whole: replies find their way back, rewrites touch
//! nothing but addresses, and checksums follow the addresses.

use vstd::prelude::*;

use crate::address::client_id_of;
use crate::address::client_vip;
use crate::address::domain_id_of;
use crate::address::has_prefix;
use crate::address::law_client_vip_carries_client_id;
use crate::address::law_prefixes_disjoint;
use crate::address::law_synthetic_addr_carries_domain_id;
use crate::address::synthetic_addr;
use crate::bytes::lemma_be_bytes_len;
use crate::constants::PROXY_SRC_PREFIX;
use crate::dataplane::packet::dst_addr_of;
use crate::dataplane::packet::ipv6_offset_of;
use crate::dataplane::packet::ports_of;
use crate::dataplane::packet::src_addr_of;
use crate::dataplane::packet::tcp_or_udp;
use crate::dataplane::packet::L4Proto;
use crate::dataplane::packet::ETH_HDR_LEN;
use crate::dataplane::packet::IPV6_HDR_LEN;
use crate::dataplane::plan::op_applied;
use crate::dataplane::plan::ops_applied;
use crate::dataplane::plan::usable_key;
use crate::dataplane::plan::Mode;
use crate::dataplane::plan::OpView;
use crate::dataplane::plan::TcAction;
use crate::dataplane::plan::TcStep;
use crate::dataplane::plan::TcVerdictView;
use crate::dataplane::plan::TrackKeyView;
use crate::dataplane::plan::XdpAction;
use crate::dataplane::tc_ingress::ingress_ops;
use crate::dataplane::tc_ingress::ingress_verdict;
use crate::dataplane::tc_ingress::is_outbound;
use crate::dataplane::tc_ingress::outbound_proxy_src;
use crate::dataplane::tc_ingress_wan::is_reply;
use crate::dataplane::tc_ingress_wan::reply_ctx;
use crate::dataplane::tc_ingress_wan::reply_ops;
use crate::dataplane::tc_ingress_wan::wan_step;
use crate::dataplane::tc_ingress_wan::wan_verdict;
use crate::dataplane::xdp_wan::is_filtered;
use crate::dataplane::xdp_wan::tracked_as;
use crate::dataplane::xdp_wan::xdp_verdict;
use crate::proxy_src::carried_ids;
use crate::proxy_src::flow_mask;
use crate::proxy_src::ids_fit;
use crate::proxy_src::integrity_tag;
use crate::proxy_src::law_decode_accepts_only_encodings;
use crate::proxy_src::law_decode_inverts_encode;
use crate::proxy_src::obfuscated;
use crate::proxy_src::packed_ids;
use crate::proxy_src::proxy_src_addr;
use crate::types::NatEntry;
use crate::types::ProxySrcCtx;
use crate::types::ProxySrcKey;
use crate::types::ReplyTrackValue;

verus! {

/// `reply` goes back to where `packet` came from: same protocol, addresses and ports the
/// other way round.
pub open spec fn answers(reply: Seq<u8>, packet: Seq<u8>) -> bool {
    match (tcp_or_udp(reply), tcp_or_udp(packet)) {
        (Some((reply_off, reply_proto)), Some((off, proto))) => {
            &&& reply_proto == proto
            &&& src_addr_of(reply, reply_off) == dst_addr_of(packet, off)
            &&& dst_addr_of(reply, reply_off) == src_addr_of(packet, off)
            &&& match (
                ports_of(reply, reply_off + IPV6_HDR_LEN, proto),
                ports_of(packet, off + IPV6_HDR_LEN, proto),
            ) {
                (Some(there), Some(back)) => there.0 == back.1 && there.1 == back.0,
                _ => false,
            }
        },
        _ => false,
    }
}

/// The packet with other addresses in the IPv6 header at `off`.
pub open spec fn readdressed(packet: Seq<u8>, off: int, src: Seq<u8>, dst: Seq<u8>) -> Seq<u8> {
    packet.subrange(0, off + 8) + src + dst + packet.subrange(off + 40, packet.len() as int)
}

/// A packet with other addresses: its addresses are the new ones, and it still is a TCP or
/// UDP packet with the same ports.
proof fn lemma_readdressed(packet: Seq<u8>, off: int, proto: L4Proto, src: Seq<u8>, dst: Seq<u8>)
    requires
        tcp_or_udp(packet) == Some((off, proto)),
        src.len() == 16,
        dst.len() == 16,
    ensures
        ({
            let out = readdressed(packet, off, src, dst);
            &&& tcp_or_udp(out) == Some((off, proto))
            &&& src_addr_of(out, off) == src
            &&& dst_addr_of(out, off) == dst
            &&& ports_of(out, off + IPV6_HDR_LEN, proto) == ports_of(
                packet,
                off + IPV6_HDR_LEN,
                proto,
            )
        }),
{
    let out = readdressed(packet, off, src, dst);
    assert(out.len() == packet.len());
    assert(src_addr_of(out, off) =~= src);
    assert(dst_addr_of(out, off) =~= dst);
    assert(off == 14 ==> out.subrange(12, 14) =~= packet.subrange(12, 14));
    let base = off + IPV6_HDR_LEN;
    if base + proto.spec_header_len() <= packet.len() {
        assert(out.subrange(base, base + 2) =~= packet.subrange(base, base + 2));
        assert(out.subrange(base + 2, base + 4) =~= packet.subrange(base + 2, base + 4));
    }
}

/// The steps of an outbound rewrite leave the packet with the new addresses.
proof fn lemma_ingress_ops_applied(
    packet: Seq<u8>,
    off: int,
    proto: L4Proto,
    ports: (u16, u16),
    origin: Seq<u8>,
    proxy_src: Seq<u8>,
    wan: Option<Seq<u8>>,
)
    requires
        tcp_or_udp(packet) == Some((off, proto)),
        origin.len() == 16,
        proxy_src.len() == 16,
        wan matches Some(w) ==> w.len() == 16,
    ensures
        ops_applied(packet, ingress_ops(packet, off, proto, ports, origin, proxy_src, wan))
            == readdressed(
            packet,
            off,
            match wan {
                Some(w) => w,
                None => proxy_src,
            },
            origin,
        ),
{
    let ops = ingress_ops(packet, off, proto, ports, origin, proxy_src, wan);
    let first = op_applied(packet, ops[0]);
    reveal_with_fuel(ops_applied, 6);
    match wan {
        None => {
            assert(ops.drop_last() =~= seq![ops[0], ops[1], ops[2]]);
            assert(ops.drop_last().drop_last() =~= seq![ops[0], ops[1]]);
            assert(ops.drop_last().drop_last().drop_last() =~= seq![ops[0]]);
            assert(seq![ops[0]].drop_last() =~= Seq::<OpView>::empty());
            assert(op_applied(first, ops[1]) =~= readdressed(packet, off, proxy_src, origin));
        },
        Some(w) => {
            assert(ops.drop_last() =~= seq![ops[0], ops[1], ops[2], ops[3]]);
            assert(ops.drop_last().drop_last() =~= seq![ops[0], ops[1], ops[2]]);
            assert(ops.drop_last().drop_last().drop_last() =~= seq![ops[0], ops[1]]);
            assert(seq![ops[0], ops[1]].drop_last() =~= seq![ops[0]]);
            assert(seq![ops[0]].drop_last() =~= Seq::<OpView>::empty());
            assert(op_applied(first, ops[2]) =~= readdressed(packet, off, w, origin));
        },
    }
}

/// The steps of a reply rewrite leave the packet with the new addresses.
proof fn lemma_reply_ops_applied(
    packet: Seq<u8>,
    off: int,
    proto: L4Proto,
    client_id: u32,
    domain_id: u32,
    wan: Option<Seq<u8>>,
)
    requires
        tcp_or_udp(packet) == Some((off, proto)),
    ensures
        ops_applied(packet, reply_ops(packet, off, proto, client_id, domain_id, wan))
            == readdressed(packet, off, synthetic_addr(domain_id), client_vip(client_id)),
{
    law_client_vip_carries_client_id(client_id);
    law_synthetic_addr_carries_domain_id(domain_id);
    let ops = reply_ops(packet, off, proto, client_id, domain_id, wan);
    let first = op_applied(packet, ops[0]);
    let two = seq![ops[0], ops[1]];
    let four = seq![ops[0], ops[1], ops[2], ops[3]];
    reveal_with_fuel(ops_applied, 7);
    assert(op_applied(first, ops[1]) =~= readdressed(
        packet,
        off,
        synthetic_addr(domain_id),
        client_vip(client_id),
    ));
    assert(two.drop_last() =~= seq![ops[0]]);
    assert(seq![ops[0]].drop_last() =~= Seq::<OpView>::empty());
    assert(four.drop_last().drop_last() =~= two);
    if wan is None {
        assert(ops.drop_last() =~= four);
    } else {
        assert(ops.drop_last().drop_last() =~= four);
    }
}

/// A reply to a packet that was sent on under a proxy-source address is delivered.
///
/// For every packet from the tunnel that is rewritten, and every reply to what was sent: the
/// reply is looked up under the packet's own domain, passes, goes into the tunnel, and
/// carries the domain's synthetic address and the client's VIP.
pub proof fn law_reply_reaches_client(
    packet: Seq<u8>,
    reply: Seq<u8>,
    entry: NatEntry,
    key: ProxySrcKey,
    ifindex: u32,
)
    requires
        ingress_verdict(packet, Some(entry), Some(key), Mode::Production) is Rewrite,
        answers(
            reply,
            ops_applied(
                packet,
                ingress_verdict(packet, Some(entry), Some(key), Mode::Production)->ops,
            ),
        ),
        ifindex != 0,
    ensures
        ({
            let (off, _) = tcp_or_udp(packet)->0;
            let (reply_off, _) = tcp_or_udp(reply)->0;
            let domain_id = domain_id_of(dst_addr_of(packet, off));
            let client_id = client_id_of(src_addr_of(packet, off));
            let verdict = wan_verdict(
                reply,
                Some(key),
                Some(entry),
                Some(ifindex),
                Mode::Production,
            );
            &&& wan_step(reply, Some(key)) == TcStep::LookupOrigin { domain_id }
            &&& verdict is Rewrite
            &&& verdict->then == TcAction::Redirect(ifindex)
            &&& ops_applied(reply, verdict->ops) == readdressed(
                reply,
                reply_off,
                synthetic_addr(domain_id),
                client_vip(client_id),
            )
        }),
{
    let (off, proto) = tcp_or_udp(packet)->0;
    let ports = ports_of(packet, off + IPV6_HDR_LEN, proto)->0;
    let proxy_src = outbound_proxy_src(packet, off, proto, ports, key);
    let ops = ingress_verdict(packet, Some(entry), Some(key), Mode::Production)->ops;
    lemma_outbound_proxy_src(packet, off, proto, ports, key);
    lemma_ingress_ops_applied(packet, off, proto, ports, entry.origin_ipv6@, proxy_src, None);
    lemma_readdressed(packet, off, proto, proxy_src, entry.origin_ipv6@);
    let (reply_off, _) = tcp_or_udp(reply)->0;
    lemma_reply_ops_applied(
        reply,
        reply_off,
        proto,
        client_id_of(src_addr_of(packet, off)),
        domain_id_of(dst_addr_of(packet, off)),
        None,
    );
}

/// The proxy-source address of an outbound packet is an address under the public prefix
/// that decodes to the packet's ids.
pub proof fn lemma_outbound_proxy_src(
    packet: Seq<u8>,
    off: int,
    proto: L4Proto,
    ports: (u16, u16),
    key: ProxySrcKey,
)
    requires
        ids_fit(
            client_id_of(src_addr_of(packet, off)),
            domain_id_of(dst_addr_of(packet, off)),
        ),
    ensures
        ({
            let addr = outbound_proxy_src(packet, off, proto, ports, key);
            &&& addr.len() == 16
            &&& has_prefix(addr, PROXY_SRC_PREFIX)
            &&& carried_ids(
                addr,
                ProxySrcCtx::of(ports.0, ports.1, proto.spec_number()),
                key,
            ) == Some(
                (client_id_of(src_addr_of(packet, off)), domain_id_of(dst_addr_of(packet, off))),
            )
        }),
{
    let client_id = client_id_of(src_addr_of(packet, off));
    let domain_id = domain_id_of(dst_addr_of(packet, off));
    let ctx = ProxySrcCtx::of(ports.0, ports.1, proto.spec_number());
    law_decode_inverts_encode(client_id, domain_id, ctx, key);
    let enc = obfuscated(
        packed_ids(client_id, domain_id),
        flow_mask(ctx, key),
    );
    lemma_be_bytes_len(enc as nat, 8);
    lemma_be_bytes_len(integrity_tag(enc, ctx, key) as nat, 4);
}

/// What comes back to a client answers what the client sent: when a client writes from its
/// VIP to a synthetic address, the delivered reply comes from that synthetic address, goes to
/// that VIP, and has the client's ports.
pub proof fn law_delivered_reply_answers_client(
    packet: Seq<u8>,
    reply: Seq<u8>,
    entry: NatEntry,
    key: ProxySrcKey,
    ifindex: u32,
    client_id: u32,
    domain_id: u32,
)
    requires
        ingress_verdict(packet, Some(entry), Some(key), Mode::Production) is Rewrite,
        answers(
            reply,
            ops_applied(
                packet,
                ingress_verdict(packet, Some(entry), Some(key), Mode::Production)->ops,
            ),
        ),
        ifindex != 0,
        tcp_or_udp(packet) matches Some((off, _)) && src_addr_of(packet, off) == client_vip(
            client_id,
        ) && dst_addr_of(packet, off) == synthetic_addr(domain_id),
    ensures
        answers(
            ops_applied(
                reply,
                wan_verdict(
                    reply,
                    Some(key),
                    Some(entry),
                    Some(ifindex),
                    Mode::Production,
                )->ops,
            ),
            packet,
        ),
{
    law_reply_reaches_client(packet, reply, entry, key, ifindex);
    law_client_vip_carries_client_id(client_id);
    law_synthetic_addr_carries_domain_id(domain_id);
    let (off, proto) = tcp_or_udp(packet)->0;
    let (reply_off, _) = tcp_or_udp(reply)->0;
    let ports = ports_of(packet, off + IPV6_HDR_LEN, proto)->0;
    let proxy_src = outbound_proxy_src(packet, off, proto, ports, key);
    lemma_outbound_proxy_src(packet, off, proto, ports, key);
    lemma_ingress_ops_applied(packet, off, proto, ports, entry.origin_ipv6@, proxy_src, None);
    lemma_readdressed(packet, off, proto, proxy_src, entry.origin_ipv6@);
    lemma_readdressed(reply, reply_off, proto, synthetic_addr(domain_id), client_vip(client_id));
}

/// In testing mode a reply to the WAN address is delivered too: the filter looks it up under
/// the very key that the outbound packet was remembered under, puts the remembered
/// proxy-source address back, and what it leaves reaches the client.
///
/// The reply is in an Ethernet frame, as the filter needs it, and the WAN address is no
/// proxy-source address.
pub proof fn law_remembered_reply_reaches_client(
    packet: Seq<u8>,
    reply: Seq<u8>,
    entry: NatEntry,
    key: ProxySrcKey,
    ifindex: u32,
    mode: Mode,
    value: ReplyTrackValue,
)
    requires
        mode.wan_addr() matches Some(wan) && !has_prefix(wan, PROXY_SRC_PREFIX),
        ingress_verdict(packet, Some(entry), Some(key), mode) is Rewrite,
        answers(
            reply,
            ops_applied(packet, ingress_verdict(packet, Some(entry), Some(key), mode)->ops),
        ),
        ipv6_offset_of(reply) == Some(ETH_HDR_LEN as int),
        ifindex != 0,
        exists|track: TrackKeyView|
            #[trigger] ingress_verdict(packet, Some(entry), Some(key), mode)->ops.contains(
                OpView::TrackReply { key: track, proxy_src: value.proxy_src@ },
            ),
    ensures
        ({
            let (off, _) = tcp_or_udp(packet)->0;
            let domain_id = domain_id_of(dst_addr_of(packet, off));
            let client_id = client_id_of(src_addr_of(packet, off));
            let track = tracked_as(reply, mode);
            let passed = xdp_verdict(reply, Some(value), mode);
            let restored = ops_applied(reply, passed.ops);
            let verdict = wan_verdict(restored, Some(key), Some(entry), Some(ifindex), mode);
            &&& track is Some
            &&& ingress_verdict(packet, Some(entry), Some(key), mode)->ops.contains(
                OpView::TrackReply { key: track->0, proxy_src: value.proxy_src@ },
            )
            &&& passed.action == XdpAction::Pass
            &&& wan_step(restored, Some(key)) == TcStep::LookupOrigin { domain_id }
            &&& verdict is Rewrite
            &&& verdict->then == TcAction::Redirect(ifindex)
            &&& ops_applied(restored, verdict->ops) == readdressed(
                reply,
                ETH_HDR_LEN as int,
                synthetic_addr(domain_id),
                client_vip(client_id),
            )
        }),
{
    let (off, proto) = tcp_or_udp(packet)->0;
    let wan = mode.wan_addr()->0;
    let ports = ports_of(packet, off + IPV6_HDR_LEN, proto)->0;
    let proxy_src = outbound_proxy_src(packet, off, proto, ports, key);
    let origin = entry.origin_ipv6@;
    let ops = ingress_verdict(packet, Some(entry), Some(key), mode)->ops;
    lemma_outbound_proxy_src(packet, off, proto, ports, key);
    lemma_ingress_ops_applied(packet, off, proto, ports, origin, proxy_src, Some(wan));
    lemma_readdressed(packet, off, proto, wan, origin);
    assert(ops[1] is TrackReply);
    assert(value.proxy_src@ == proxy_src);
    assert(tracked_as(reply, mode) is Some);
    assert(ops[1] == OpView::TrackReply {
        key: tracked_as(reply, mode)->0,
        proxy_src: value.proxy_src@,
    });

    let eth = ETH_HDR_LEN as int;
    let passed = xdp_verdict(reply, Some(value), mode);
    let restored = ops_applied(reply, passed.ops);
    reveal_with_fuel(ops_applied, 2);
    assert(passed.ops.drop_last() =~= Seq::<OpView>::empty());
    assert(restored =~= readdressed(reply, eth, origin, proxy_src));
    lemma_readdressed(reply, eth, proto, origin, proxy_src);
    let client_id = client_id_of(src_addr_of(packet, off));
    let domain_id = domain_id_of(dst_addr_of(packet, off));
    lemma_reply_ops_applied(restored, eth, proto, client_id, domain_id, Some(wan));
    law_client_vip_carries_client_id(client_id);
    law_synthetic_addr_carries_domain_id(domain_id);
    assert(readdressed(restored, eth, synthetic_addr(domain_id), client_vip(client_id))
        =~= readdressed(reply, eth, synthetic_addr(domain_id), client_vip(client_id)));
}

/// A rewrite of an outbound packet touches nothing but the two addresses: the destination
/// becomes the origin, the source the WAN address if one is in use and the proxy-source
/// address otherwise.
pub proof fn law_ingress_touches_only_addresses(
    packet: Seq<u8>,
    entry: NatEntry,
    key: ProxySrcKey,
    mode: Mode,
)
    requires
        ingress_verdict(packet, Some(entry), Some(key), mode) is Rewrite,
    ensures
        ({
            let (off, proto) = tcp_or_udp(packet)->0;
            let ports = ports_of(packet, off + IPV6_HDR_LEN, proto)->0;
            ops_applied(packet, ingress_verdict(packet, Some(entry), Some(key), mode)->ops)
                == readdressed(
                packet,
                off,
                match mode.wan_addr() {
                    Some(wan) => wan,
                    None => outbound_proxy_src(packet, off, proto, ports, key),
                },
                entry.origin_ipv6@,
            )
        }),
{
    let (off, proto) = tcp_or_udp(packet)->0;
    let ports = ports_of(packet, off + IPV6_HDR_LEN, proto)->0;
    lemma_outbound_proxy_src(packet, off, proto, ports, key);
    lemma_ingress_ops_applied(
        packet,
        off,
        proto,
        ports,
        entry.origin_ipv6@,
        outbound_proxy_src(packet, off, proto, ports, key),
        mode.wan_addr(),
    );
}

/// A reply is rewritten only if it comes from the domain's origin and goes to an address
/// that encoding makes under the active key for the reply's own flow. The rewrite touches
/// nothing but the two addresses.
pub proof fn law_only_genuine_replies_rewritten(
    packet: Seq<u8>,
    key: ProxySrcKey,
    entry: NatEntry,
    ifindex: Option<u32>,
    mode: Mode,
)
    requires
        wan_verdict(packet, Some(key), Some(entry), ifindex, mode) is Rewrite,
    ensures
        ({
            let (off, proto) = tcp_or_udp(packet)->0;
            let ctx = reply_ctx(ports_of(packet, off + IPV6_HDR_LEN, proto)->0, proto);
            let (client_id, domain_id) = carried_ids(dst_addr_of(packet, off), ctx, key)->0;
            &&& src_addr_of(packet, off) == entry.origin_ipv6@
            &&& ids_fit(client_id, domain_id)
            &&& dst_addr_of(packet, off) == proxy_src_addr(client_id, domain_id, ctx, key)
            &&& ops_applied(
                packet,
                wan_verdict(packet, Some(key), Some(entry), ifindex, mode)->ops,
            ) == readdressed(packet, off, synthetic_addr(domain_id), client_vip(client_id))
        }),
{
    let (off, proto) = tcp_or_udp(packet)->0;
    let ctx = reply_ctx(ports_of(packet, off + IPV6_HDR_LEN, proto)->0, proto);
    let dst = dst_addr_of(packet, off);
    let (client_id, domain_id) = carried_ids(dst, ctx, key)->0;
    assert(dst.subrange(0, 4) =~= PROXY_SRC_PREFIX@);
    law_decode_accepts_only_encodings(dst, client_id, domain_id, ctx, key);
    lemma_reply_ops_applied(packet, off, proto, client_id, domain_id, mode.wan_addr());
}

/// A forged reply is dropped: a TCP or UDP packet to the public prefix, with its ports,
/// whose destination is not what encoding makes for its flow under the active key for any
/// ids.
pub proof fn law_forged_reply_dropped(
    packet: Seq<u8>,
    key: Option<ProxySrcKey>,
    entry: Option<NatEntry>,
    ifindex: Option<u32>,
    mode: Mode,
)
    requires
        is_reply(packet),
        ({
            let (off, proto) = tcp_or_udp(packet)->0;
            let ports = ports_of(packet, off + IPV6_HDR_LEN, proto);
            &&& ports is Some
            &&& key matches Some(k) ==> forall|client_id: u32, domain_id: u32|
                ids_fit(client_id, domain_id) ==> dst_addr_of(packet, off)
                    != #[trigger] proxy_src_addr(
                    client_id,
                    domain_id,
                    reply_ctx(ports->0, proto),
                    k,
                )
        }),
    ensures
        wan_step(packet, key) == TcStep::Done(TcAction::Shot),
        wan_verdict(packet, key, entry, ifindex, mode) == TcVerdictView::Done(TcAction::Shot),
{
    let (off, proto) = tcp_or_udp(packet)->0;
    let ctx = reply_ctx(ports_of(packet, off + IPV6_HDR_LEN, proto)->0, proto);
    let dst = dst_addr_of(packet, off);
    if let Some(k) = key {
        if let Some((client_id, domain_id)) = carried_ids(dst, ctx, k) {
            assert(dst.subrange(0, 4) =~= PROXY_SRC_PREFIX@);
            law_decode_accepts_only_encodings(dst, client_id, domain_id, ctx, k);
        }
    }
}

/// Without a key, or with one that is all zeros, nothing is translated: outbound packets and
/// replies with their ports are dropped.
pub proof fn law_no_key_no_translation(
    packet: Seq<u8>,
    key: Option<ProxySrcKey>,
    entry: Option<NatEntry>,
    ifindex: Option<u32>,
    mode: Mode,
)
    requires
        !usable_key(key),
    ensures
        ingress_verdict(packet, entry, key, mode) is Done,
        wan_verdict(packet, key, entry, ifindex, mode) is Done,
        tcp_or_udp(packet) matches Some((off, proto)) && ports_of(
            packet,
            off + IPV6_HDR_LEN,
            proto,
        ) is Some ==> {
            &&& is_outbound(packet) ==> ingress_verdict(packet, entry, key, mode)
                == TcVerdictView::Done(TcAction::Shot)
            &&& is_reply(packet) ==> wan_verdict(packet, key, entry, ifindex, mode)
                == TcVerdictView::Done(TcAction::Shot)
        },
{
}

/// No packet is taken both for an outbound packet and for a reply.
pub proof fn law_directions_disjoint(packet: Seq<u8>)
    ensures
        !(is_outbound(packet) && is_reply(packet)),
{
    if let Some((off, _)) = tcp_or_udp(packet) {
        law_prefixes_disjoint(dst_addr_of(packet, off));
    }
}

/// What is neither TCP nor UDP directly over IPv6 passes all programs of the data plane
/// untouched, ICMPv6 and everything but IPv6 also the filter.
pub proof fn law_other_traffic_passes(
    packet: Seq<u8>,
    key: Option<ProxySrcKey>,
    entry: Option<NatEntry>,
    ifindex: Option<u32>,
    known: Option<ReplyTrackValue>,
    mode: Mode,
)
    ensures
        tcp_or_udp(packet) is None ==> {
            &&& ingress_verdict(packet, entry, key, mode) == TcVerdictView::Done(TcAction::Accept)
            &&& wan_verdict(packet, key, entry, ifindex, mode) == TcVerdictView::Done(
                TcAction::Accept,
            )
        },
        !is_filtered(packet) ==> {
            &&& xdp_verdict(packet, known, mode).action == XdpAction::Pass
            &&& xdp_verdict(packet, known, mode).ops == Seq::<OpView>::empty()
        },
{
}

/// The filter never stands in the way of a reply in an Ethernet frame: what is rewritten
/// behind it passes it unchanged.
pub proof fn law_filter_passes_replies(
    packet: Seq<u8>,
    known: Option<ReplyTrackValue>,
    mode: Mode,
)
    requires
        is_reply(packet),
        ipv6_offset_of(packet) == Some(ETH_HDR_LEN as int),
    ensures
        xdp_verdict(packet, known, mode).action == XdpAction::Pass,
        xdp_verdict(packet, known, mode).ops == Seq::<OpView>::empty(),
{
}

/// In production the filter changes no packet and counts nothing.
pub proof fn law_production_filter_changes_nothing(
    packet: Seq<u8>,
    known: Option<ReplyTrackValue>,
)
    ensures
        xdp_verdict(packet, known, Mode::Production).ops == Seq::<OpView>::empty(),
        xdp_verdict(packet, known, Mode::Production).counters == Seq::<u32>::empty(),
{
}

/// The sum of the sixteen-bit words of an address, which is what an address adds to a
/// transport checksum.
pub open spec fn word_sum(addr: Seq<u8>) -> int
    decreases addr.len(),
{
    if addr.len() < 2 {
        0
    } else {
        addr[0] * 256 + addr[1] + word_sum(addr.subrange(2, addr.len() as int))
    }
}

/// What a list of steps adds to the sum behind the transport checksum.
pub open spec fn checksum_change(ops: Seq<OpView>) -> int
    decreases ops.len(),
{
    if ops.len() == 0 {
        0
    } else {
        checksum_change(ops.drop_last()) + match ops.last() {
            OpView::FixChecksum { old_addr, new_addr, .. } => word_sum(new_addr) - word_sum(
                old_addr,
            ),
            _ => 0,
        }
    }
}

/// The checksum of an outbound packet is changed by exactly what the change of its two
/// addresses adds up to.
pub proof fn law_ingress_checksum_follows_addresses(
    packet: Seq<u8>,
    entry: NatEntry,
    key: ProxySrcKey,
    mode: Mode,
)
    requires
        ingress_verdict(packet, Some(entry), Some(key), mode) is Rewrite,
    ensures
        ({
            let (off, _) = tcp_or_udp(packet)->0;
            let ops = ingress_verdict(packet, Some(entry), Some(key), mode)->ops;
            let out = ops_applied(packet, ops);
            checksum_change(ops) == word_sum(src_addr_of(out, off)) + word_sum(
                dst_addr_of(out, off),
            ) - word_sum(src_addr_of(packet, off)) - word_sum(dst_addr_of(packet, off))
        }),
{
    law_ingress_touches_only_addresses(packet, entry, key, mode);
    let (off, proto) = tcp_or_udp(packet)->0;
    let ports = ports_of(packet, off + IPV6_HDR_LEN, proto)->0;
    let proxy_src = outbound_proxy_src(packet, off, proto, ports, key);
    lemma_outbound_proxy_src(packet, off, proto, ports, key);
    let ops = ingress_verdict(packet, Some(entry), Some(key), mode)->ops;
    reveal_with_fuel(checksum_change, 6);
    match mode.wan_addr() {
        None => {
            lemma_readdressed(packet, off, proto, proxy_src, entry.origin_ipv6@);
            assert(ops.len() == 4);
        },
        Some(wan) => {
            lemma_readdressed(packet, off, proto, wan, entry.origin_ipv6@);
            assert(ops.len() == 5);
        },
    }
}

/// The checksum of a reply is changed by exactly what its two addresses add up to, counted
/// from the address that its stored checksum was made for: the WAN address if one is in use,
/// its own destination otherwise.
pub proof fn law_reply_checksum_follows_addresses(
    packet: Seq<u8>,
    key: ProxySrcKey,
    entry: NatEntry,
    ifindex: Option<u32>,
    mode: Mode,
)
    requires
        wan_verdict(packet, Some(key), Some(entry), ifindex, mode) is Rewrite,
    ensures
        ({
            let (off, _) = tcp_or_udp(packet)->0;
            let ops = wan_verdict(packet, Some(key), Some(entry), ifindex, mode)->ops;
            let out = ops_applied(packet, ops);
            checksum_change(ops) == word_sum(src_addr_of(out, off)) + word_sum(
                dst_addr_of(out, off),
            ) - word_sum(src_addr_of(packet, off)) - word_sum(
                match mode.wan_addr() {
                    Some(wan) => wan,
                    None => dst_addr_of(packet, off),
                },
            )
        }),
{
    law_only_genuine_replies_rewritten(packet, key, entry, ifindex, mode);
    let (off, proto) = tcp_or_udp(packet)->0;
    let ctx = reply_ctx(ports_of(packet, off + IPV6_HDR_LEN, proto)->0, proto);
    let (client_id, domain_id) = carried_ids(dst_addr_of(packet, off), ctx, key)->0;
    law_client_vip_carries_client_id(client_id);
    law_synthetic_addr_carries_domain_id(domain_id);
    lemma_readdressed(packet, off, proto, synthetic_addr(domain_id), client_vip(client_id));
    let ops = wan_verdict(packet, Some(key), Some(entry), ifindex, mode)->ops;
    reveal_with_fuel(checksum_change, 7);
    if mode.wan_addr() is None {
        assert(ops.len() == 5);
    } else {
        assert(ops.len() == 6);
    }
}

} // verus!
