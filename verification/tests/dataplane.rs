use prototype_net::address::client_vip_from_id24;
use prototype_net::address::synthetic_ipv6;
use prototype_net::constants::PROXY_SRC_PREFIX;
use prototype_net::dataplane::packet::extract_l4_ports;
use prototype_net::dataplane::packet::find_tcp_or_udp;
use prototype_net::dataplane::packet::ipv6_offset;
use prototype_net::dataplane::packet::l4_proto;
use prototype_net::dataplane::packet::read_addr;
use prototype_net::dataplane::packet::L4Proto;
use prototype_net::dataplane::plan::settle;
use prototype_net::dataplane::plan::to_network_order;
use prototype_net::dataplane::plan::Mode;
use prototype_net::dataplane::plan::PacketOp;
use prototype_net::dataplane::plan::TcAction;
use prototype_net::dataplane::plan::TcStep;
use prototype_net::dataplane::plan::TcVerdict;
use prototype_net::dataplane::plan::XdpAction;
use prototype_net::dataplane::tc_ingress::classify_ingress;
use prototype_net::dataplane::tc_ingress::tc_ingress;
use prototype_net::dataplane::tc_ingress_wan::classify_wan;
use prototype_net::dataplane::tc_ingress_wan::redirect_to_tunnel;
use prototype_net::dataplane::tc_ingress_wan::tc_ingress_wan;
use prototype_net::dataplane::tc_ingress_wan::try_decode_with_active_key;
use prototype_net::dataplane::xdp_wan::classify_xdp_wan;
use prototype_net::dataplane::xdp_wan::xdp_wan;
use prototype_net::proxy_src::decode_proxy_src;
use prototype_net::proxy_src::encode_proxy_src;
use prototype_net::types::NatEntry;
use prototype_net::types::ProxySrcCtx;
use prototype_net::types::ProxySrcKey;
use prototype_net::types::ReplyTrackValue;

const KEY: ProxySrcKey = ProxySrcKey { prince_key: [0x11; 16], siphash_key: [0x22; 16] };
const ZERO_KEY: ProxySrcKey = ProxySrcKey { prince_key: [0; 16], siphash_key: [0; 16] };
const ORIGIN: [u8; 16] = [0x2a, 0, 0x14, 0x50, 0x40, 1, 8, 1, 0, 0, 0, 0, 0, 0, 0x20, 0x0e];
const WAN: [u8; 16] = [0x2a, 2, 0xaa, 0xbb, 0, 0, 0, 0, 0, 0, 0, 0, 0, 0, 0, 7];
const ENTRY: NatEntry = NatEntry { origin_ipv6: ORIGIN };
const DEV: Mode = Mode::Dev { wan: Some(WAN) };

/// An IPv6 packet with a transport header of `l4_len` bytes.
fn packet(
    ethernet: bool,
    proto: u8,
    src: [u8; 16],
    dst: [u8; 16],
    ports: (u16, u16),
    l4_len: usize,
) -> Vec<u8> {
    let mut p: Vec<u8> = Vec::new();
    if ethernet {
        p.extend_from_slice(&[2, 0, 0, 0, 0, 1, 2, 0, 0, 0, 0, 2, 0x86, 0xdd]);
    }
    p.extend_from_slice(&[0x60, 0, 0, 0, 0, l4_len as u8, proto, 64]);
    p.extend_from_slice(&src);
    p.extend_from_slice(&dst);
    let mut l4 = vec![0u8; l4_len.max(4)];
    l4[0..2].copy_from_slice(&ports.0.to_be_bytes());
    l4[2..4].copy_from_slice(&ports.1.to_be_bytes());
    l4.truncate(l4_len);
    p.extend_from_slice(&l4);
    p
}

fn outbound(ethernet: bool) -> Vec<u8> {
    packet(
        ethernet,
        6,
        client_vip_from_id24(0x0012_3456),
        synthetic_ipv6(0x00ab_cdef),
        (50000, 443),
        20,
    )
}

/// The packet with all stores made, and the sum of all checksum adjustments.
fn apply(p: &[u8], ops: &[PacketOp]) -> (Vec<u8>, i64) {
    let mut out = p.to_vec();
    let mut delta: i64 = 0;
    for op in ops {
        match op {
            PacketOp::Store { offset, addr } => {
                out[*offset..*offset + 16].copy_from_slice(addr);
            }
            PacketOp::FixChecksum { old_addr, new_addr, .. } => {
                delta += word_sum(new_addr) - word_sum(old_addr);
            }
            _ => {}
        }
    }
    (out, delta)
}

fn word_sum(addr: &[u8]) -> i64 {
    addr.chunks(2).map(|w| (w[0] as i64) * 256 + w[1] as i64).sum()
}

fn rewrite(verdict: TcVerdict) -> (Vec<PacketOp>, TcAction) {
    match verdict {
        TcVerdict::Rewrite { ops, then } => (ops, then),
        TcVerdict::Done(action) => panic!("not rewritten: {:?}", action),
    }
}

fn done(verdict: TcVerdict) -> TcAction {
    match verdict {
        TcVerdict::Done(action) => action,
        TcVerdict::Rewrite { .. } => panic!("rewritten"),
    }
}

fn addrs(p: &[u8]) -> ([u8; 16], [u8; 16]) {
    let off = ipv6_offset(p).unwrap();
    (read_addr(p, off + 8), read_addr(p, off + 24))
}

/// What the origin sends back.
fn reply_to(p: &[u8], ethernet: bool) -> Vec<u8> {
    let off = ipv6_offset(p).unwrap();
    let (src, dst) = addrs(p);
    let proto = p[off + 6];
    let (sp, dp) = extract_l4_ports(p, off + 40, l4_proto(proto).unwrap()).unwrap();
    packet(ethernet, proto, dst, src, (dp, sp), p.len() - off - 40)
}

#[test]
fn ipv6_offset_tells_raw_from_ethernet() {
    assert_eq!(ipv6_offset(&outbound(false)), Some(0));
    assert_eq!(ipv6_offset(&outbound(true)), Some(14));
    assert_eq!(ipv6_offset(&[]), None);
    let mut arp = outbound(true);
    arp[12] = 0x08;
    arp[13] = 0x06;
    assert_eq!(ipv6_offset(&arp), None);
    assert_eq!(ipv6_offset(&[0u8; 13]), None);
    // One byte is enough to be taken for a raw packet.
    assert_eq!(ipv6_offset(&[0x6f]), Some(0));
}

#[test]
fn find_tcp_or_udp_needs_a_whole_header() {
    let p = outbound(false);
    assert_eq!(find_tcp_or_udp(&p), Some((0, L4Proto::Tcp)));
    assert_eq!(find_tcp_or_udp(&p[..39]), None);
    assert_eq!(find_tcp_or_udp(&p[..40]), Some((0, L4Proto::Tcp)));
    let mut hop = p.clone();
    hop[6] = 0;
    assert_eq!(find_tcp_or_udp(&hop), None);
}

#[test]
fn ports_need_the_whole_transport_header() {
    let p = outbound(false);
    assert_eq!(extract_l4_ports(&p, 40, L4Proto::Tcp), Some((50000, 443)));
    assert_eq!(extract_l4_ports(&p[..59], 40, L4Proto::Tcp), None);
    assert_eq!(extract_l4_ports(&p[..48], 40, L4Proto::Udp), Some((50000, 443)));
    assert_eq!(extract_l4_ports(&p[..47], 40, L4Proto::Udp), None);
    assert_eq!(extract_l4_ports(&p, usize::MAX, L4Proto::Udp), None);
}

#[test]
fn network_order_swaps_bytes() {
    assert_eq!(to_network_order(443), 0xbb01);
    assert_eq!(to_network_order(0x1234), 0x3412);
}

#[test]
fn ingress_asks_for_the_domain() {
    assert_eq!(
        classify_ingress(&outbound(false)),
        TcStep::LookupOrigin { domain_id: 0x00ab_cdef }
    );
    let other = packet(false, 6, WAN, ORIGIN, (1, 2), 20);
    assert_eq!(classify_ingress(&other), TcStep::Done(TcAction::Accept));
}

#[test]
fn ingress_rewrites_outbound_packet() {
    for ethernet in [false, true] {
        let p = outbound(ethernet);
        let off = if ethernet { 14 } else { 0 };
        let (ops, then) = rewrite(tc_ingress(&p, Some(ENTRY), Some(KEY), &Mode::Production));
        assert_eq!(then, TcAction::Accept);
        assert_eq!(ops.len(), 4);
        let (out, delta) = apply(&p, &ops);
        let (src, dst) = addrs(&out);
        assert_eq!(dst, ORIGIN);
        assert_eq!(&src[0..4], &PROXY_SRC_PREFIX);
        let ctx = ProxySrcCtx::new(50000, 443, 6);
        assert_eq!(decode_proxy_src(&src, &ctx, &KEY), Some((0x0012_3456, 0x00ab_cdef)));
        // Nothing but the addresses changed, and the checksum follows them.
        assert_eq!(&out[..off + 8], &p[..off + 8]);
        assert_eq!(&out[off + 40..], &p[off + 40..]);
        let (old_src, old_dst) = addrs(&p);
        assert_eq!(
            delta,
            word_sum(&src) + word_sum(&dst) - word_sum(&old_src) - word_sum(&old_dst)
        );
        assert!(matches!(ops[2], PacketOp::FixChecksum { offset, .. } if offset == off + 56));
    }
}

#[test]
fn ingress_udp_checksum_offset() {
    let p = packet(false, 17, client_vip_from_id24(1), synthetic_ipv6(1), (5, 53), 8);
    let (ops, _) = rewrite(tc_ingress(&p, Some(ENTRY), Some(KEY), &Mode::Production));
    assert!(matches!(ops[2], PacketOp::FixChecksum { offset: 46, .. }));
}

#[test]
fn ingress_drops_what_it_cannot_translate() {
    let p = outbound(false);
    assert_eq!(done(tc_ingress(&p, None, Some(KEY), &Mode::Production)), TcAction::Shot);
    assert_eq!(done(tc_ingress(&p, Some(ENTRY), None, &Mode::Production)), TcAction::Shot);
    assert_eq!(
        done(tc_ingress(&p, Some(ENTRY), Some(ZERO_KEY), &Mode::Production)),
        TcAction::Shot
    );
    // A client id that does not fit in 24 bits.
    let wide = packet(false, 6, client_vip_from_id24(0x0100_0000), synthetic_ipv6(1), (1, 2), 20);
    assert_eq!(done(tc_ingress(&wide, Some(ENTRY), Some(KEY), &Mode::Production)), TcAction::Shot);
    // A domain id that does not fit in 24 bits.
    let wide = packet(false, 6, client_vip_from_id24(1), synthetic_ipv6(0x0100_0000), (1, 2), 20);
    assert_eq!(done(tc_ingress(&wide, Some(ENTRY), Some(KEY), &Mode::Production)), TcAction::Shot);
}

#[test]
fn ingress_lets_short_transport_header_pass() {
    let p = outbound(false);
    let short = &p[..50];
    assert_eq!(
        done(tc_ingress(short, Some(ENTRY), Some(KEY), &Mode::Production)),
        TcAction::Accept
    );
    // An unknown domain is noticed before the ports are.
    assert_eq!(done(tc_ingress(short, None, Some(KEY), &Mode::Production)), TcAction::Shot);
    // The ports are read before the key is.
    assert_eq!(done(tc_ingress(short, Some(ENTRY), None, &Mode::Production)), TcAction::Accept);
}

#[test]
fn other_traffic_passes_everywhere() {
    let icmp = packet(true, 58, ORIGIN, WAN, (0, 0), 8);
    assert_eq!(
        done(tc_ingress(&icmp, Some(ENTRY), Some(KEY), &Mode::Production)),
        TcAction::Accept
    );
    assert_eq!(
        done(tc_ingress_wan(&icmp, Some(KEY), Some(ENTRY), Some(3), &Mode::Production)),
        TcAction::Accept
    );
    assert_eq!(xdp_wan(&icmp, None, &Mode::Production).action, XdpAction::Pass);
    let mut v4 = outbound(true);
    v4[12] = 0x08;
    v4[13] = 0x00;
    assert_eq!(xdp_wan(&v4, None, &Mode::Production).action, XdpAction::Pass);
    assert_eq!(xdp_wan(&v4[..10], None, &DEV).action, XdpAction::Pass);
    assert_eq!(xdp_wan(&outbound(true)[..50], None, &DEV).action, XdpAction::Pass);
}

#[test]
fn reply_reaches_client() {
    for ethernet in [false, true] {
        for (proto, len) in [(6u8, 20usize), (17, 8)] {
            let p = packet(
                false,
                proto,
                client_vip_from_id24(7),
                synthetic_ipv6(9),
                (41000, 443),
                len,
            );
            let (ops, _) = rewrite(tc_ingress(&p, Some(ENTRY), Some(KEY), &Mode::Production));
            let (sent, _) = apply(&p, &ops);
            let reply = reply_to(&sent, ethernet);
            assert_eq!(classify_wan(&reply, &Some(KEY)), TcStep::LookupOrigin { domain_id: 9 });
            let verdict =
                tc_ingress_wan(&reply, Some(KEY), Some(ENTRY), Some(12), &Mode::Production);
            let (ops, then) = rewrite(verdict);
            assert_eq!(then, TcAction::Redirect(12));
            let (back, delta) = apply(&reply, &ops);
            let (src, dst) = addrs(&back);
            assert_eq!(src, synthetic_ipv6(9));
            assert_eq!(dst, client_vip_from_id24(7));
            let (old_src, old_dst) = addrs(&reply);
            assert_eq!(
                delta,
                word_sum(&src) + word_sum(&dst) - word_sum(&old_src) - word_sum(&old_dst)
            );
            assert!(matches!(ops.last(), Some(PacketOp::MarkChecksumPartial { .. })));
            let off = if ethernet { 14 } else { 0 };
            assert_eq!(
                extract_l4_ports(&back, off + 40, l4_proto(proto).unwrap()),
                Some((443, 41000))
            );
            // In front of it, the filter lets the reply through as it is.
            let filtered = xdp_wan(&reply, None, &Mode::Production);
            assert_eq!(filtered.action, XdpAction::Pass);
            assert!(filtered.ops.is_empty());
        }
    }
}

#[test]
fn directions_do_not_mix() {
    let p = outbound(false);
    assert_eq!(
        done(tc_ingress_wan(&p, Some(KEY), Some(ENTRY), Some(3), &Mode::Production)),
        TcAction::Accept
    );
    let (ops, _) = rewrite(tc_ingress(&p, Some(ENTRY), Some(KEY), &Mode::Production));
    let reply = reply_to(&apply(&p, &ops).0, false);
    assert_eq!(
        done(tc_ingress(&reply, Some(ENTRY), Some(KEY), &Mode::Production)),
        TcAction::Accept
    );
}

#[test]
fn reply_without_tunnel_is_dropped() {
    assert_eq!(redirect_to_tunnel(None), TcAction::Shot);
    assert_eq!(redirect_to_tunnel(Some(0)), TcAction::Shot);
    assert_eq!(redirect_to_tunnel(Some(4)), TcAction::Redirect(4));
    let p = outbound(false);
    let (ops, _) = rewrite(tc_ingress(&p, Some(ENTRY), Some(KEY), &Mode::Production));
    let reply = reply_to(&apply(&p, &ops).0, true);
    let (ops, then) =
        rewrite(tc_ingress_wan(&reply, Some(KEY), Some(ENTRY), None, &Mode::Production));
    assert_eq!(then, TcAction::Shot);
    assert_eq!(ops.len(), 5);
}

#[test]
fn forged_replies_are_dropped() {
    let p = outbound(false);
    let (ops, _) = rewrite(tc_ingress(&p, Some(ENTRY), Some(KEY), &Mode::Production));
    let reply = reply_to(&apply(&p, &ops).0, false);
    let shot = |r: &[u8], key: Option<ProxySrcKey>, entry: Option<NatEntry>| {
        done(tc_ingress_wan(r, key, entry, Some(3), &Mode::Production)) == TcAction::Shot
    };
    // A changed tag, a changed body.
    let mut tag = reply.clone();
    tag[39] ^= 1;
    assert!(shot(&tag, Some(KEY), Some(ENTRY)));
    assert_eq!(classify_wan(&tag, &Some(KEY)), TcStep::Done(TcAction::Shot));
    let mut body = reply.clone();
    body[30] ^= 0x80;
    assert!(shot(&body, Some(KEY), Some(ENTRY)));
    // Another flow.
    let mut port = reply.clone();
    port[43] ^= 1;
    assert!(shot(&port, Some(KEY), Some(ENTRY)));
    // Another key, no key, an unpopulated key.
    let other = ProxySrcKey { prince_key: [0x33; 16], siphash_key: [0x44; 16] };
    assert!(shot(&reply, Some(other), Some(ENTRY)));
    assert!(shot(&reply, None, Some(ENTRY)));
    assert!(shot(&reply, Some(ZERO_KEY), Some(ENTRY)));
    // An unknown domain, another origin.
    assert!(shot(&reply, Some(KEY), None));
    assert!(shot(&reply, Some(KEY), Some(NatEntry { origin_ipv6: WAN })));
    // A short transport header passes.
    assert_eq!(
        done(tc_ingress_wan(&reply[..45], Some(KEY), Some(ENTRY), Some(3), &Mode::Production)),
        TcAction::Accept
    );
}

#[test]
fn active_key_has_to_be_populated() {
    let ctx = ProxySrcCtx::new(1, 2, 6);
    let zero_made = encode_proxy_src(1, 2, &ctx, &ZERO_KEY).unwrap();
    assert_eq!(try_decode_with_active_key(&zero_made, &ctx, &Some(ZERO_KEY)), None);
    assert_eq!(try_decode_with_active_key(&zero_made, &ctx, &None), None);
    let made = encode_proxy_src(1, 2, &ctx, &KEY).unwrap();
    assert_eq!(try_decode_with_active_key(&made, &ctx, &Some(KEY)), Some((1, 2)));
}

#[test]
fn production_filter_drops_foreign_destinations() {
    let foreign = packet(true, 6, ORIGIN, WAN, (443, 50000), 20);
    let verdict = xdp_wan(&foreign, None, &Mode::Production);
    assert_eq!(verdict.action, XdpAction::Drop);
    assert!(verdict.ops.is_empty());
    assert!(verdict.counters.is_empty());
    assert!(classify_xdp_wan(&foreign, &Mode::Production).is_none());
    // Synthetic destinations do not come from outside either.
    let synthetic = packet(true, 6, ORIGIN, synthetic_ipv6(1), (443, 50000), 20);
    assert_eq!(xdp_wan(&synthetic, None, &Mode::Production).action, XdpAction::Drop);
}

#[test]
fn remembered_reply_reaches_client() {
    let p = outbound(false);
    let (ops, _) = rewrite(tc_ingress(&p, Some(ENTRY), Some(KEY), &DEV));
    assert_eq!(ops.len(), 5);
    let (sent, delta) = apply(&p, &ops);
    let (old_src, old_dst) = addrs(&p);
    assert_eq!(addrs(&sent), (WAN, ORIGIN));
    assert_eq!(
        delta,
        word_sum(&WAN) + word_sum(&ORIGIN) - word_sum(&old_src) - word_sum(&old_dst)
    );
    let (track_key, value) = match ops[1] {
        PacketOp::TrackReply { key, value } => (key, value),
        _ => panic!("not remembered"),
    };
    assert_eq!(track_key.origin_ipv6, ORIGIN);
    assert_eq!(track_key.origin_port, 443u16.swap_bytes());
    assert_eq!(track_key.translated_port, 50000u16.swap_bytes());
    assert_eq!(track_key.proto, 6);
    assert_eq!(track_key._pad, [0; 3]);

    let reply = reply_to(&sent, true);
    let asked = classify_xdp_wan(&reply, &DEV).unwrap();
    assert_eq!(asked.origin_ipv6, track_key.origin_ipv6);
    assert_eq!(asked.origin_port, track_key.origin_port);
    assert_eq!(asked.translated_port, track_key.translated_port);
    assert_eq!(asked.proto, track_key.proto);
    assert_eq!(asked._pad, track_key._pad);

    let hit = xdp_wan(&reply, Some(value), &DEV);
    assert_eq!(hit.action, XdpAction::Pass);
    assert_eq!(hit.counters, vec![0, 2, 3]);
    let (restored, no_delta) = apply(&reply, &hit.ops);
    assert_eq!(no_delta, 0);
    assert_eq!(addrs(&restored).1, value.proxy_src);

    let (ops, then) = rewrite(tc_ingress_wan(&restored, Some(KEY), Some(ENTRY), Some(5), &DEV));
    assert_eq!(then, TcAction::Redirect(5));
    assert_eq!(ops.len(), 6);
    let (back, delta) = apply(&restored, &ops);
    assert_eq!(addrs(&back), (synthetic_ipv6(0x00ab_cdef), client_vip_from_id24(0x0012_3456)));
    // The checksum still belonged to the WAN address.
    assert_eq!(
        delta,
        word_sum(&addrs(&back).0) + word_sum(&addrs(&back).1) - word_sum(&ORIGIN) - word_sum(&WAN)
    );
}

#[test]
fn dev_filter_counts_its_paths() {
    let foreign = packet(true, 6, ORIGIN, ORIGIN, (443, 50000), 20);
    let verdict = xdp_wan(&foreign, None, &DEV);
    assert_eq!((verdict.action, verdict.counters), (XdpAction::Drop, vec![0, 6, 5]));
    let verdict = xdp_wan(&foreign, None, &Mode::Dev { wan: None });
    assert_eq!((verdict.action, verdict.counters), (XdpAction::Drop, vec![0, 7, 5]));
    let verdict = xdp_wan(&foreign, None, &Mode::Dev { wan: Some([0; 16]) });
    assert_eq!((verdict.action, verdict.counters), (XdpAction::Drop, vec![0, 6, 5]));
    let own = packet(true, 6, ORIGIN, WAN, (443, 50000), 20);
    let verdict = xdp_wan(&own, None, &DEV);
    assert_eq!((verdict.action, verdict.counters), (XdpAction::Pass, vec![0, 2, 4]));
    let value = ReplyTrackValue { proxy_src: [9; 16] };
    let verdict = xdp_wan(&own[..60], Some(value), &DEV);
    assert_eq!((verdict.action, verdict.counters), (XdpAction::Pass, vec![0, 2]));
    assert!(verdict.ops.is_empty());
    let esp = packet(true, 50, ORIGIN, WAN, (0, 0), 20);
    let verdict = xdp_wan(&esp, Some(value), &DEV);
    assert_eq!((verdict.action, verdict.counters), (XdpAction::Pass, vec![0, 2]));
    let mut proxy = own.clone();
    proxy[38..42].copy_from_slice(&PROXY_SRC_PREFIX);
    let verdict = xdp_wan(&proxy, None, &DEV);
    assert_eq!((verdict.action, verdict.counters), (XdpAction::Pass, vec![0, 1]));
}

#[test]
fn unwritable_packets_are_let_through() {
    assert_eq!(settle(TcAction::Redirect(3), true), TcAction::Redirect(3));
    assert_eq!(settle(TcAction::Redirect(3), false), TcAction::Accept);
    assert_eq!(settle(TcAction::Shot, false), TcAction::Accept);
}
