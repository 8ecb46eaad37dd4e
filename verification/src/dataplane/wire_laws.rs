//! What holds of the data plane, stated on the bytes of packets: which packets are rewritten,
//! which are dropped and which pass, and what a packet is after all steps were taken.
//!
//! Positions and values are written as numbers here. An IPv6 header starts at `off`: its next
//! header field is byte 6, its source bytes 8 to 23, its destination bytes 24 to 39, and the
//! transport header follows at 40.

use vstd::prelude::*;

use crate::address::client_vip;
use crate::address::law_client_vip_carries_client_id;
use crate::address::law_synthetic_addr_carries_domain_id;
use crate::address::synthetic_addr;
use crate::bytes::be_bytes;
use crate::bytes::lemma_be_bytes_len;
use crate::bytes::lemma_be_value_2;
use crate::bytes::lemma_be_value_4;
use crate::bytes::lemma_be_value_of_bytes_4;
use crate::constants::PROXY_SRC_PREFIX;
use crate::dataplane::laws::lemma_outbound_proxy_src;
use crate::dataplane::packet::extract_l4_ports;
use crate::dataplane::packet::find_tcp_or_udp;
use crate::dataplane::packet::ports_of;
use crate::dataplane::packet::tcp_or_udp;
use crate::dataplane::packet::L4Proto;
use crate::dataplane::plan::ops_view;
use crate::dataplane::plan::Mode;
use crate::dataplane::plan::OpView;
use crate::dataplane::plan::TcAction;
use crate::dataplane::plan::TcStep;
use crate::dataplane::plan::TcVerdict;
use crate::dataplane::plan::TcVerdictView;
use crate::dataplane::plan::TrackKeyView;
use crate::dataplane::plan::XdpAction;
use crate::dataplane::tc_ingress::classify_ingress;
use crate::dataplane::tc_ingress::ingress_ops;
use crate::dataplane::tc_ingress::ingress_step;
use crate::dataplane::tc_ingress::ingress_verdict;
use crate::dataplane::tc_ingress::outbound_proxy_src;
use crate::dataplane::tc_ingress::tc_ingress;
use crate::dataplane::tc_ingress_wan::classify_wan;
use crate::dataplane::tc_ingress_wan::redirect_to_tunnel;
use crate::dataplane::tc_ingress_wan::reply_ops;
use crate::dataplane::tc_ingress_wan::tc_ingress_wan;
use crate::dataplane::tc_ingress_wan::try_decode_with_active_key;
use crate::dataplane::tc_ingress_wan::wan_step;
use crate::dataplane::tc_ingress_wan::wan_verdict;
use crate::dataplane::xdp_wan::classify_xdp_wan;
use crate::dataplane::xdp_wan::tracked_as;
use crate::dataplane::xdp_wan::xdp_verdict;
use crate::dataplane::xdp_wan::xdp_wan;
use crate::dataplane::xdp_wan::XdpVerdict;
use crate::proxy_src::carried_ids;
use crate::proxy_src::law_address_by_bytes;
use crate::proxy_src::law_decode_accepts_only_encodings;
use crate::proxy_src::law_decode_inverts_encode;
use crate::proxy_src::proxy_src_addr;
use crate::types::NatEntry;
use crate::types::ProxySrcCtx;
use crate::types::ProxySrcKey;
use crate::types::ReplyTrackKey;
use crate::types::ReplyTrackValue;

verus! {

// ---------------------------------------------------------------------------
// Bytes of a packet
// ---------------------------------------------------------------------------

/// An IPv6 header starts at `off`: at once, or behind fourteen bytes of Ethernet that
/// announce IPv6.
pub open spec fn header_at(packet: Seq<u8>, off: int) -> bool {
    ||| off == 0 && packet.len() > 0 && 0x60 <= packet[0] <= 0x6f
    ||| off == 14 && packet.len() >= 14 && !(0x60 <= packet[0] <= 0x6f) && packet[12] == 0x86
        && packet[13] == 0xdd
}

/// The IPv6 header at `off` is whole and announces TCP or UDP.
pub open spec fn carries_tcp_or_udp(packet: Seq<u8>, off: int) -> bool {
    packet.len() >= off + 40 && (packet[off + 6] == 6 || packet[off + 6] == 17)
}

/// The transport header lies within the packet, whatever follows it.
pub open spec fn transport_within(packet: Seq<u8>, off: int) -> bool {
    if packet[off + 6] == 6 {
        off + 60 <= packet.len()
    } else {
        off + 48 <= packet.len()
    }
}

/// Four bytes as a big-endian number.
pub open spec fn number_at(packet: Seq<u8>, at: int) -> int {
    packet[at] * 0x100_0000 + packet[at + 1] * 0x1_0000 + packet[at + 2] * 0x100 + packet[at + 3]
}

/// Where the checksum of the transport header stands: sixteen bytes into a TCP header, six
/// bytes into a UDP header.
pub open spec fn checksum_pos(packet: Seq<u8>, off: int) -> int {
    if packet[off + 6] == 6 {
        off + 56
    } else {
        off + 46
    }
}

/// The key is there, and one of its bytes is not zero.
pub open spec fn key_in_use(key: Option<ProxySrcKey>) -> bool {
    key matches Some(k) && exists|i: int|
        0 <= i < 16 && (#[trigger] k.prince_key[i] != 0 || k.siphash_key[i] != 0)
}

/// The WAN address slot is set, and one of its bytes is not zero.
pub open spec fn wan_in_use(mode: Mode, wan: Seq<u8>) -> bool {
    mode matches Mode::Dev { wan: Some(w) } && w@ == wan && exists|i: int|
        0 <= i < 16 && #[trigger] wan[i] != 0
}

/// No WAN address is in use: production, an empty slot, or all zeros.
pub open spec fn no_wan_in_use(mode: Mode) -> bool {
    match mode {
        Mode::Dev { wan: Some(w) } => forall|i: int| 0 <= i < 16 ==> #[trigger] w@[i] == 0,
        _ => true,
    }
}

// ---------------------------------------------------------------------------
// Taking the steps
// ---------------------------------------------------------------------------

/// The sum of the big-endian sixteen-bit words of some bytes. A last odd byte counts as the
/// upper half of a word.
pub open spec fn ones_sum(bytes: Seq<u8>) -> int
    decreases bytes.len(),
{
    if bytes.len() == 0 {
        0
    } else if bytes.len() == 1 {
        bytes[0] * 256
    } else {
        bytes[0] * 256 + bytes[1] + ones_sum(bytes.subrange(2, bytes.len() as int))
    }
}

/// A packet after one step. A checksum step changes the sixteen bits at its offset so that, in
/// one's-complement arithmetic, they make up for the change of an address.
pub open spec fn step_taken(packet: Seq<u8>, op: OpView) -> Seq<u8> {
    match op {
        OpView::Store { offset, addr } => Seq::new(
            packet.len(),
            |i: int|
                if offset <= i < offset + addr.len() {
                    addr[i - offset]
                } else {
                    packet[i]
                },
        ),
        OpView::FixChecksum { offset, old_addr, new_addr } => {
            let sum = packet[offset] * 256 + packet[offset + 1] + ones_sum(old_addr) - ones_sum(
                new_addr,
            );
            packet.update(offset, (sum % 65535 / 256) as u8).update(
                offset + 1,
                (sum % 65535 % 256) as u8,
            )
        },
        OpView::MarkChecksumPartial { .. } => packet,
        OpView::TrackReply { .. } => packet,
    }
}

/// A packet after all steps, taken in order.
pub open spec fn steps_taken(packet: Seq<u8>, ops: Seq<OpView>) -> Seq<u8>
    decreases ops.len(),
{
    if ops.len() == 0 {
        packet
    } else {
        step_taken(steps_taken(packet, ops.drop_last()), ops.last())
    }
}

/// The part of a packet that the transport checksum covers, but for the length and the
/// protocol number: both addresses and all that follows the IPv6 header.
pub open spec fn checksummed(packet: Seq<u8>, off: int) -> Seq<u8> {
    packet.subrange(off + 8, packet.len() as int)
}

proof fn lemma_ones_sum_concat(a: Seq<u8>, b: Seq<u8>)
    requires
        a.len() % 2 == 0,
    ensures
        ones_sum(a + b) == ones_sum(a) + ones_sum(b),
    decreases a.len(),
{
    if a.len() == 0 {
        assert(a + b =~= b);
    } else {
        let rest = a.subrange(2, a.len() as int);
        lemma_ones_sum_concat(rest, b);
        assert((a + b).subrange(2, (a + b).len() as int) =~= rest + b);
    }
}

/// The sum under a checksum, part by part.
proof fn lemma_checksummed_parts(packet: Seq<u8>, off: int, pos: int)
    requires
        0 <= off,
        pos == off + 56 || pos == off + 46,
        pos + 2 <= packet.len(),
    ensures
        ones_sum(checksummed(packet, off)) == ones_sum(packet.subrange(off + 8, off + 24))
            + ones_sum(packet.subrange(off + 24, off + 40)) + ones_sum(
            packet.subrange(off + 40, pos),
        ) + packet[pos] * 256 + packet[pos + 1] + ones_sum(
            packet.subrange(pos + 2, packet.len() as int),
        ),
{
    let n = packet.len() as int;
    let src = packet.subrange(off + 8, off + 24);
    let dst = packet.subrange(off + 24, off + 40);
    let before = packet.subrange(off + 40, pos);
    let after = packet.subrange(pos + 2, n);
    let field = packet.subrange(pos, n);
    lemma_ones_sum_concat(src, packet.subrange(off + 24, n));
    assert(checksummed(packet, off) =~= src + packet.subrange(off + 24, n));
    lemma_ones_sum_concat(dst, packet.subrange(off + 40, n));
    assert(packet.subrange(off + 24, n) =~= dst + packet.subrange(off + 40, n));
    lemma_ones_sum_concat(before, field);
    assert(packet.subrange(off + 40, n) =~= before + field);
    assert(field.subrange(2, field.len() as int) =~= after);
}

/// A checksum step changes nothing but the checksum, by the change of the address.
proof fn lemma_fix(packet: Seq<u8>, pos: int, old_addr: Seq<u8>, new_addr: Seq<u8>)
    requires
        0 <= pos,
        pos + 2 <= packet.len(),
    ensures
        ({
            let out = step_taken(packet, OpView::FixChecksum { offset: pos, old_addr, new_addr });
            &&& out.len() == packet.len()
            &&& forall|i: int|
                0 <= i < packet.len() && i != pos && i != pos + 1 ==> #[trigger] out[i]
                    == packet[i]
            &&& (out[pos] * 256 + out[pos + 1] - (packet[pos] * 256 + packet[pos + 1] + ones_sum(
                old_addr,
            ) - ones_sum(new_addr))) % 65535 == 0
        }),
{
    let sum = packet[pos] * 256 + packet[pos + 1] + ones_sum(old_addr) - ones_sum(new_addr);
    assert(0 <= sum % 65535 < 65535);
    assert(0 <= sum % 65535 / 256 < 256);
    assert(sum % 65535 / 256 * 256 + sum % 65535 % 256 == sum % 65535);
    assert((sum % 65535 - sum) % 65535 == 0);
}

/// Two sums that differ by a multiple of 65535 are the same in one's-complement arithmetic.
pub open spec fn same_ones_sum(a: int, b: int) -> bool {
    (a - b) % 65535 == 0
}

/// The packet after its addresses were changed to `src` and `dst`: but for the checksum,
/// everything else is as it was.
spec fn translated(packet: Seq<u8>, out: Seq<u8>, off: int, src: Seq<u8>, dst: Seq<u8>) -> bool {
    let pos = checksum_pos(packet, off);
    &&& out.len() == packet.len()
    &&& forall|i: int| off + 8 <= i < off + 24 ==> #[trigger] out[i] == src[i - off - 8]
    &&& forall|i: int| off + 24 <= i < off + 40 ==> #[trigger] out[i] == dst[i - off - 24]
    &&& forall|i: int|
        0 <= i < packet.len() && !(off + 8 <= i < off + 40) && i != pos && i != pos + 1
            ==> #[trigger] out[i] == packet[i]
}

proof fn lemma_translated_sum(
    packet: Seq<u8>,
    out: Seq<u8>,
    off: int,
    src: Seq<u8>,
    dst: Seq<u8>,
)
    requires
        off >= 0,
        carries_tcp_or_udp(packet, off),
        transport_within(packet, off),
        src.len() == 16,
        dst.len() == 16,
        translated(packet, out, off, src, dst),
    ensures
        ({
            let pos = checksum_pos(packet, off);
            ones_sum(checksummed(out, off)) - ones_sum(checksummed(packet, off)) == ones_sum(src)
                + ones_sum(dst) - ones_sum(packet.subrange(off + 8, off + 24)) - ones_sum(
                packet.subrange(off + 24, off + 40),
            ) + (out[pos] * 256 + out[pos + 1]) - (packet[pos] * 256 + packet[pos + 1])
        }),
{
    let pos = checksum_pos(packet, off);
    lemma_checksummed_parts(packet, off, pos);
    lemma_checksummed_parts(out, off, pos);
    assert(out.subrange(off + 8, off + 24) =~= src);
    assert(out.subrange(off + 24, off + 40) =~= dst);
    assert(out.subrange(off + 40, pos) =~= packet.subrange(off + 40, pos));
    assert(out.subrange(pos + 2, out.len() as int) =~= packet.subrange(
        pos + 2,
        packet.len() as int,
    ));
}

// ---------------------------------------------------------------------------
// From bytes to the data plane's terms
// ---------------------------------------------------------------------------

/// The protocol of a packet by its protocol number.
spec fn proto_by_number(packet: Seq<u8>, off: int) -> L4Proto {
    if packet[off + 6] == 6 {
        L4Proto::Tcp
    } else {
        L4Proto::Udp
    }
}

proof fn lemma_framing(packet: Seq<u8>, off: int)
    requires
        header_at(packet, off),
    ensures
        carries_tcp_or_udp(packet, off) ==> tcp_or_udp(packet) == Some(
            (off, proto_by_number(packet, off)),
        ),
        !carries_tcp_or_udp(packet, off) ==> tcp_or_udp(packet) is None,
{
    if packet.len() >= 14 {
        lemma_be_value_2(packet.subrange(12, 14));
    }
}

proof fn lemma_no_framing(packet: Seq<u8>)
    requires
        !header_at(packet, 0),
        !header_at(packet, 14),
    ensures
        tcp_or_udp(packet) is None,
{
    if packet.len() >= 14 {
        lemma_be_value_2(packet.subrange(12, 14));
    }
}

proof fn lemma_key_in_use(key: Option<ProxySrcKey>)
    ensures
        key_in_use(key) == crate::dataplane::plan::usable_key(key),
{
    if let Some(k) = key {
        if key_in_use(key) {
            let i = choose|i: int|
                0 <= i < 16 && (#[trigger] k.prince_key[i] != 0 || k.siphash_key[i] != 0);
            assert(!k.zero_at(i));
        } else {
            assert forall|i: int| 0 <= i < 16 implies #[trigger] k.zero_at(i) by {
                assert(!(k.prince_key[i] != 0 || k.siphash_key[i] != 0));
            }
        }
    }
}

proof fn lemma_wan(mode: Mode, wan: Seq<u8>)
    ensures
        wan_in_use(mode, wan) ==> mode.wan_addr() == Some(wan) && wan.len() == 16,
        no_wan_in_use(mode) ==> mode.wan_addr() is None,
{
    if let Mode::Dev { wan: Some(w) } = mode {
        if no_wan_in_use(mode) {
            assert(w@ =~= crate::dataplane::plan::zero_addr());
        }
        if wan_in_use(mode, wan) {
            let i = choose|i: int| 0 <= i < 16 && #[trigger] wan[i] != 0;
            assert(crate::dataplane::plan::zero_addr()[i] == 0);
        }
    }
}

proof fn lemma_number(packet: Seq<u8>, at: int, start: int, len: int)
    requires
        0 <= at,
        at + 16 <= packet.len(),
        0 <= start,
        start + 4 <= 16,
    ensures
        crate::bytes::be_value(packet.subrange(at, at + 16).subrange(start, start + 4))
            == number_at(packet, at + start),
        0 <= number_at(packet, at + start) <= u32::MAX,
{
    lemma_be_value_4(packet.subrange(at, at + 16).subrange(start, start + 4));
}

// ---------------------------------------------------------------------------
// Outbound packets
// ---------------------------------------------------------------------------

/// What becomes of a packet from the tunnel, by its bytes.
///
/// A TCP or UDP packet to `fd00:abcd::/32` is looked up under the number in bytes 4 to 7 of
/// its destination. Without an entry it is dropped. If its transport header lies within it,
/// whatever follows, it is rewritten and passes; it is dropped if there is no key, or if one
/// of the two ids does not fit in 24 bits. Every other packet passes as it is.
pub proof fn law_ingress_by_bytes(
    packet: Seq<u8>,
    off: int,
    entry: Option<NatEntry>,
    key: Option<ProxySrcKey>,
    mode: Mode,
)
    requires
        header_at(packet, off),
    ensures
        ({
            let verdict = ingress_verdict(packet, entry, key, mode);
            if !carries_tcp_or_udp(packet, off) || !(packet[off + 24] == 0xfd && packet[off + 25]
                == 0x00 && packet[off + 26] == 0xab && packet[off + 27] == 0xcd) {
                &&& ingress_step(packet) == TcStep::Done(TcAction::Accept)
                &&& verdict == TcVerdictView::Done(TcAction::Accept)
            } else {
                &&& ingress_step(packet) == TcStep::LookupOrigin {
                    domain_id: number_at(packet, off + 28) as u32,
                }
                &&& entry is None ==> verdict == TcVerdictView::Done(TcAction::Shot)
                &&& entry is Some && !transport_within(packet, off) ==> verdict
                    == TcVerdictView::Done(TcAction::Accept)
                &&& entry is Some && transport_within(packet, off) && (!key_in_use(key)
                    || packet[off + 20] != 0 || packet[off + 28] != 0) ==> verdict
                    == TcVerdictView::Done(TcAction::Shot)
                &&& entry is Some && transport_within(packet, off) && key_in_use(key)
                    && packet[off + 20] == 0 && packet[off + 28] == 0 ==> {
                    &&& verdict is Rewrite
                    &&& verdict->then == TcAction::Accept
                }
            }
        }),
{
    lemma_framing(packet, off);
    lemma_key_in_use(key);
    if carries_tcp_or_udp(packet, off) {
        lemma_number(packet, off + 24, 4, 4);
        lemma_number(packet, off + 8, 12, 4);
    }
}

/// The steps of an outbound rewrite, one after the other.
proof fn lemma_ingress_steps(
    packet: Seq<u8>,
    off: int,
    proto: L4Proto,
    ports: (u16, u16),
    origin: Seq<u8>,
    proxy_src: Seq<u8>,
    wan: Option<Seq<u8>>,
)
    requires
        off >= 0,
        carries_tcp_or_udp(packet, off),
        transport_within(packet, off),
        proto == proto_by_number(packet, off),
        origin.len() == 16,
        proxy_src.len() == 16,
        wan matches Some(w) ==> w.len() == 16,
    ensures
        ({
            let ops = ingress_ops(packet, off, proto, ports, origin, proxy_src, wan);
            let out = steps_taken(packet, ops);
            let src = match wan {
                Some(w) => w,
                None => proxy_src,
            };
            &&& translated(packet, out, off, src, origin)
            &&& same_ones_sum(
                ones_sum(checksummed(out, off)),
                ones_sum(checksummed(packet, off)),
            )
        }),
{
    let ops = ingress_ops(packet, off, proto, ports, origin, proxy_src, wan);
    let pos = checksum_pos(packet, off);
    let old_src = packet.subrange(off + 8, off + 24);
    let old_dst = packet.subrange(off + 24, off + 40);
    let src = match wan {
        Some(w) => w,
        None => proxy_src,
    };
    let p1 = step_taken(packet, OpView::Store { offset: off + 24, addr: origin });
    let p2 = step_taken(p1, OpView::Store { offset: off + 8, addr: src });
    let fix1 = OpView::FixChecksum { offset: pos, old_addr: old_src, new_addr: src };
    let fix2 = OpView::FixChecksum { offset: pos, old_addr: old_dst, new_addr: origin };
    let p3 = step_taken(p2, fix1);
    let out = step_taken(p3, fix2);
    reveal_with_fuel(steps_taken, 6);
    let n = ops.len() as int;
    assert(ops.drop_last() =~= ops.subrange(0, n - 1));
    assert(ops.drop_last().drop_last() =~= ops.subrange(0, n - 2));
    assert(ops.drop_last().drop_last().drop_last() =~= ops.subrange(0, n - 3));
    if wan is None {
        assert(ops.subrange(0, 1).drop_last() =~= Seq::<OpView>::empty());
        assert(steps_taken(packet, ops.subrange(0, 1)) == p1);
    } else {
        assert(ops.subrange(0, 2).drop_last() =~= ops.subrange(0, 1));
        assert(ops.subrange(0, 1).drop_last() =~= Seq::<OpView>::empty());
        assert(steps_taken(packet, ops.subrange(0, 1)) == p1);
        assert(steps_taken(packet, ops.subrange(0, 2)) == p1);
    }
    assert(steps_taken(packet, ops.subrange(0, n - 2)) == p2);
    assert(steps_taken(packet, ops) == out);
    lemma_fix(p2, pos, old_src, src);
    lemma_fix(p3, pos, old_dst, origin);
    assert(translated(packet, out, off, src, origin));
    lemma_translated_sum(packet, out, off, src, origin);
}

/// What an outbound packet is when it leaves, by its bytes.
///
/// Its destination is the origin. Its source is the WAN address if one is in use, and
/// otherwise an address under the public prefix `2001:0db8::/32`. Its transport checksum,
/// which is bytes 16 and 17 of a TCP header or bytes 6 and 7 of a UDP header, is right if it
/// was right before. No other byte is changed.
pub proof fn law_outbound_packet_by_bytes(
    packet: Seq<u8>,
    off: int,
    entry: NatEntry,
    key: ProxySrcKey,
    mode: Mode,
    wan: Seq<u8>,
)
    requires
        header_at(packet, off),
        ingress_verdict(packet, Some(entry), Some(key), mode) is Rewrite,
    ensures
        ({
            let ops = ingress_verdict(packet, Some(entry), Some(key), mode)->ops;
            let out = steps_taken(packet, ops);
            let pos = checksum_pos(packet, off);
            &&& out.len() == packet.len()
            &&& forall|i: int|
                off + 24 <= i < off + 40 ==> #[trigger] out[i] == entry.origin_ipv6@[i - off - 24]
            &&& wan_in_use(mode, wan) ==> forall|i: int|
                off + 8 <= i < off + 24 ==> #[trigger] out[i] == wan[i - off - 8]
            &&& no_wan_in_use(mode) ==> out[off + 8] == 0x20 && out[off + 9] == 0x01 && out[off
                + 10] == 0x0d && out[off + 11] == 0xb8
            &&& forall|i: int|
                0 <= i < packet.len() && !(off + 8 <= i < off + 40) && i != pos && i != pos + 1
                    ==> #[trigger] out[i] == packet[i]
            &&& same_ones_sum(
                ones_sum(checksummed(out, off)),
                ones_sum(checksummed(packet, off)),
            )
        }),
{
    lemma_framing(packet, off);
    lemma_wan(mode, wan);
    law_ingress_by_bytes(packet, off, Some(entry), Some(key), mode);
    lemma_number(packet, off + 24, 4, 4);
    lemma_number(packet, off + 8, 12, 4);
    let proto = proto_by_number(packet, off);
    let ports = ports_of(packet, off + 40, proto)->0;
    let proxy_src = outbound_proxy_src(packet, off, proto, ports, key);
    lemma_outbound_proxy_src(packet, off, proto, ports, key);
    lemma_ingress_steps(
        packet,
        off,
        proto,
        ports,
        entry.origin_ipv6@,
        proxy_src,
        mode.wan_addr(),
    );
}

// ---------------------------------------------------------------------------
// Replies
// ---------------------------------------------------------------------------

/// Two bytes as a big-endian number.
pub open spec fn port_at(packet: Seq<u8>, at: int) -> u16 {
    (packet[at] * 256 + packet[at + 1]) as u16
}

/// The destination of the IPv6 header at `off` is the proxy-source address of a client and a
/// domain, made under `key` for the flow that the packet answers: its destination port was
/// the source port, and its source port the destination port.
pub open spec fn is_answer_for(
    packet: Seq<u8>,
    off: int,
    key: ProxySrcKey,
    client_id: u32,
    domain_id: u32,
) -> bool {
    &&& client_id < 0x100_0000
    &&& domain_id < 0x100_0000
    &&& packet.subrange(off + 24, off + 40) == proxy_src_addr(
        client_id,
        domain_id,
        ProxySrcCtx::of(
            port_at(packet, off + 42),
            port_at(packet, off + 40),
            packet[off + 6],
        ),
        key,
    )
}

proof fn lemma_ports(packet: Seq<u8>, off: int)
    requires
        off >= 0,
        carries_tcp_or_udp(packet, off),
        transport_within(packet, off),
    ensures
        ports_of(packet, off + 40, proto_by_number(packet, off)) == Some(
            (port_at(packet, off + 40), port_at(packet, off + 42)),
        ),
        proto_by_number(packet, off).spec_number() == packet[off + 6],
{
    lemma_be_value_2(packet.subrange(off + 40, off + 42));
    lemma_be_value_2(packet.subrange(off + 42, off + 44));
}

/// What becomes of a packet on the WAN interface, by its bytes.
///
/// A TCP or UDP packet to `2001:0db8::/32` whose transport header lies within it, whatever
/// follows, is looked up under a domain exactly if its destination is what encoding makes of
/// some client and that domain for the flow that it answers; otherwise it is dropped. It is
/// rewritten exactly if it was looked up, there is an entry, and its source is the entry's
/// origin; otherwise it is dropped. A rewritten packet goes to the tunnel interface if its
/// index is known. Every other packet passes as it is.
pub proof fn law_wan_by_bytes(
    packet: Seq<u8>,
    off: int,
    key: Option<ProxySrcKey>,
    entry: Option<NatEntry>,
    ifindex: Option<u32>,
    mode: Mode,
    client_id: u32,
    domain_id: u32,
)
    requires
        header_at(packet, off),
    ensures
        ({
            let step = wan_step(packet, key);
            let verdict = wan_verdict(packet, key, entry, ifindex, mode);
            if !carries_tcp_or_udp(packet, off) || !(packet[off + 24] == 0x20 && packet[off + 25]
                == 0x01 && packet[off + 26] == 0x0d && packet[off + 27] == 0xb8)
                || !transport_within(packet, off) {
                &&& step == TcStep::Done(TcAction::Accept)
                &&& verdict == TcVerdictView::Done(TcAction::Accept)
            } else {
                &&& !key_in_use(key) ==> step == TcStep::Done(TcAction::Shot)
                &&& key_in_use(key) && is_answer_for(packet, off, key->0, client_id, domain_id)
                    ==> step == TcStep::LookupOrigin { domain_id }
                &&& step == TcStep::Done(TcAction::Shot) || exists|c: u32, d: u32|
                    step == (TcStep::LookupOrigin { domain_id: d }) && #[trigger] is_answer_for(
                        packet,
                        off,
                        key->0,
                        c,
                        d,
                    )
                &&& if step is LookupOrigin && entry is Some && (forall|i: int|
                    0 <= i < 16 ==> packet[off + 8 + i] == #[trigger] entry->0.origin_ipv6@[i]) {
                    &&& verdict is Rewrite
                    &&& verdict->then == if ifindex is Some && ifindex->0 != 0 {
                        TcAction::Redirect(ifindex->0)
                    } else {
                        TcAction::Shot
                    }
                } else {
                    verdict == TcVerdictView::Done(TcAction::Shot)
                }
            }
        }),
{
    lemma_framing(packet, off);
    lemma_key_in_use(key);
    if carries_tcp_or_udp(packet, off) && transport_within(packet, off) {
        lemma_ports(packet, off);
        let dst = packet.subrange(off + 24, off + 40);
        let ctx = ProxySrcCtx::of(
            port_at(packet, off + 42),
            port_at(packet, off + 40),
            packet[off + 6],
        );
        if packet[off + 24] == 0x20 && packet[off + 25] == 0x01 && packet[off + 26] == 0x0d
            && packet[off + 27] == 0xb8 && key_in_use(key) {
            let k = key->0;
            if is_answer_for(packet, off, k, client_id, domain_id) {
                law_decode_inverts_encode(client_id, domain_id, ctx, k);
            }
            if let Some((c, d)) = carried_ids(dst, ctx, k) {
                assert(dst.subrange(0, 4) =~= PROXY_SRC_PREFIX@);
                law_decode_accepts_only_encodings(dst, c, d, ctx, k);
                assert(is_answer_for(packet, off, k, c, d));
            }
        }
        if let Some(found) = entry {
            let src = packet.subrange(off + 8, off + 24);
            if forall|i: int| 0 <= i < 16 ==> packet[off + 8 + i] == #[trigger] found.origin_ipv6@[i] {
                assert(src =~= found.origin_ipv6@);
            } else {
                let i = choose|i: int|
                    0 <= i < 16 && packet[off + 8 + i] != #[trigger] found.origin_ipv6@[i];
                assert(src[i] != found.origin_ipv6@[i]);
            }
        }
    }
}

/// The steps of a reply rewrite, one after the other.
proof fn lemma_reply_steps(
    packet: Seq<u8>,
    off: int,
    proto: L4Proto,
    client_id: u32,
    domain_id: u32,
    wan: Option<Seq<u8>>,
)
    requires
        off >= 0,
        carries_tcp_or_udp(packet, off),
        transport_within(packet, off),
        proto == proto_by_number(packet, off),
    ensures
        ({
            let ops = reply_ops(packet, off, proto, client_id, domain_id, wan);
            let out = steps_taken(packet, ops);
            let pos = checksum_pos(packet, off);
            &&& translated(packet, out, off, synthetic_addr(domain_id), client_vip(client_id))
            &&& same_ones_sum(
                ones_sum(checksummed(out, off)),
                match wan {
                    None => ones_sum(checksummed(packet, off)),
                    Some(w) => ones_sum(checksummed(packet, off)) - ones_sum(
                        packet.subrange(off + 24, off + 40),
                    ) + ones_sum(w),
                },
            )
            &&& ops.last() == OpView::MarkChecksumPartial { offset: pos }
        }),
{
    law_client_vip_carries_client_id(client_id);
    law_synthetic_addr_carries_domain_id(domain_id);
    let ops = reply_ops(packet, off, proto, client_id, domain_id, wan);
    let pos = checksum_pos(packet, off);
    let old_src = packet.subrange(off + 8, off + 24);
    let old_dst = packet.subrange(off + 24, off + 40);
    let src = synthetic_addr(domain_id);
    let dst = client_vip(client_id);
    let p1 = step_taken(packet, OpView::Store { offset: off + 8, addr: src });
    let p2 = step_taken(p1, OpView::Store { offset: off + 24, addr: dst });
    let p3 = step_taken(
        p2,
        OpView::FixChecksum { offset: pos, old_addr: old_src, new_addr: src },
    );
    let p4 = step_taken(
        p3,
        OpView::FixChecksum { offset: pos, old_addr: old_dst, new_addr: dst },
    );
    reveal_with_fuel(steps_taken, 7);
    let four = ops.subrange(0, 4);
    assert(four.drop_last() =~= ops.subrange(0, 3));
    assert(ops.subrange(0, 3).drop_last() =~= ops.subrange(0, 2));
    assert(ops.subrange(0, 2).drop_last() =~= ops.subrange(0, 1));
    assert(ops.subrange(0, 1).drop_last() =~= Seq::<OpView>::empty());
    assert(steps_taken(packet, ops.subrange(0, 1)) == p1);
    assert(steps_taken(packet, ops.subrange(0, 2)) == p2);
    assert(steps_taken(packet, ops.subrange(0, 3)) == p3);
    assert(steps_taken(packet, four) == p4);
    lemma_fix(p2, pos, old_src, src);
    lemma_fix(p3, pos, old_dst, dst);
    assert(translated(packet, p4, off, src, dst));
    match wan {
        None => {
            assert(ops.drop_last() =~= four);
            assert(steps_taken(packet, ops) == p4);
            lemma_translated_sum(packet, p4, off, src, dst);
        },
        Some(w) => {
            let p5 = step_taken(
                p4,
                OpView::FixChecksum { offset: pos, old_addr: w, new_addr: old_dst },
            );
            assert(ops.drop_last().drop_last() =~= four);
            assert(steps_taken(packet, ops) == p5);
            lemma_fix(p4, pos, w, old_dst);
            assert(translated(packet, p5, off, src, dst));
            lemma_translated_sum(packet, p5, off, src, dst);
        },
    }
}

/// What a reply is when it goes into the tunnel, by its bytes.
///
/// Its source is `fd00:abcd:XXXX:YYYY::1` with the domain's id at `XXXX:YYYY`, its destination
/// is `fd00:abcd:0:1::` with the client's id in the last four bytes. Its transport checksum,
/// which is bytes 16 and 17 of a TCP header or bytes 6 and 7 of a UDP header, is right if it
/// was right before, for the WAN address in place of the destination if one is in use. It is
/// marked last for being computed afresh. No other byte is changed.
pub proof fn law_delivered_packet_by_bytes(
    packet: Seq<u8>,
    off: int,
    key: ProxySrcKey,
    entry: NatEntry,
    ifindex: Option<u32>,
    mode: Mode,
    wan: Seq<u8>,
    client_id: u32,
    domain_id: u32,
)
    requires
        header_at(packet, off),
        is_answer_for(packet, off, key, client_id, domain_id),
        wan_verdict(packet, Some(key), Some(entry), ifindex, mode) is Rewrite,
    ensures
        ({
            let ops = wan_verdict(packet, Some(key), Some(entry), ifindex, mode)->ops;
            let out = steps_taken(packet, ops);
            let pos = checksum_pos(packet, off);
            &&& out.len() == packet.len()
            &&& number_at(out, off + 8) == 0xfd00abcd
            &&& number_at(out, off + 12) == domain_id
            &&& number_at(out, off + 16) == 0
            &&& number_at(out, off + 20) == 1
            &&& number_at(out, off + 24) == 0xfd00abcd
            &&& number_at(out, off + 28) == 1
            &&& number_at(out, off + 32) == 0
            &&& number_at(out, off + 36) == client_id
            &&& forall|i: int|
                0 <= i < packet.len() && !(off + 8 <= i < off + 40) && i != pos && i != pos + 1
                    ==> #[trigger] out[i] == packet[i]
            &&& no_wan_in_use(mode) ==> same_ones_sum(
                ones_sum(checksummed(out, off)),
                ones_sum(checksummed(packet, off)),
            )
            &&& wan_in_use(mode, wan) ==> same_ones_sum(
                ones_sum(checksummed(out, off)),
                ones_sum(checksummed(packet, off)) - ones_sum(packet.subrange(off + 24, off + 40))
                    + ones_sum(wan),
            )
            &&& ops.len() > 0 && ops.last() == OpView::MarkChecksumPartial { offset: pos }
        }),
{
    lemma_framing(packet, off);
    lemma_wan(mode, wan);
    law_wan_by_bytes(
        packet,
        off,
        Some(key),
        Some(entry),
        ifindex,
        mode,
        client_id,
        domain_id,
    );
    lemma_ports(packet, off);
    let proto = proto_by_number(packet, off);
    let ctx = ProxySrcCtx::of(
        port_at(packet, off + 42),
        port_at(packet, off + 40),
        packet[off + 6],
    );
    law_decode_inverts_encode(client_id, domain_id, ctx, key);
    lemma_reply_steps(packet, off, proto, client_id, domain_id, mode.wan_addr());
    lemma_synthetic_numbers(domain_id);
    lemma_vip_numbers(client_id);
    let out = steps_taken(
        packet,
        wan_verdict(packet, Some(key), Some(entry), ifindex, mode)->ops,
    );
    assert(forall|i: int|
        0 <= i < 16 ==> out[off + 8 + i] == #[trigger] synthetic_addr(domain_id)[i]);
    assert(forall|i: int|
        0 <= i < 16 ==> out[off + 24 + i] == #[trigger] client_vip(client_id)[i]);
}

/// The four words of a synthetic address.
proof fn lemma_synthetic_numbers(domain_id: u32)
    ensures
        synthetic_addr(domain_id).len() == 16,
        number_at(synthetic_addr(domain_id), 0) == 0xfd00abcd,
        number_at(synthetic_addr(domain_id), 4) == domain_id,
        number_at(synthetic_addr(domain_id), 8) == 0,
        number_at(synthetic_addr(domain_id), 12) == 1,
{
    law_synthetic_addr_carries_domain_id(domain_id);
    lemma_be_bytes_len(domain_id as nat, 4);
    lemma_be_value_of_bytes_4(domain_id);
    lemma_be_value_4(be_bytes(domain_id as nat, 4));
}

/// The four words of a client VIP.
proof fn lemma_vip_numbers(client_id: u32)
    ensures
        client_vip(client_id).len() == 16,
        number_at(client_vip(client_id), 0) == 0xfd00abcd,
        number_at(client_vip(client_id), 4) == 1,
        number_at(client_vip(client_id), 8) == 0,
        number_at(client_vip(client_id), 12) == client_id,
{
    law_client_vip_carries_client_id(client_id);
    lemma_be_bytes_len(client_id as nat, 4);
    lemma_be_value_of_bytes_4(client_id);
    lemma_be_value_4(be_bytes(client_id as nat, 4));
}

/// The way there and back, by bytes.
///
/// A packet from the tunnel to `fd00:abcd::/32` whose ids fit in 24 bits is sent on under a
/// source that brings the answer back: every packet from the origin to that source, with the
/// ports exchanged and the same protocol, goes into the tunnel. It then comes from the very
/// domain and goes to the very client, by the bytes of the packet that was sent.
pub proof fn law_answer_returns_by_bytes(
    packet: Seq<u8>,
    off: int,
    entry: NatEntry,
    key: ProxySrcKey,
    reply: Seq<u8>,
    reply_off: int,
    ifindex: u32,
)
    requires
        header_at(packet, off),
        carries_tcp_or_udp(packet, off),
        transport_within(packet, off),
        number_at(packet, off + 24) == 0xfd00abcd,
        packet[off + 20] == 0,
        packet[off + 28] == 0,
        key_in_use(Some(key)),
        header_at(reply, reply_off),
        carries_tcp_or_udp(reply, reply_off),
        transport_within(reply, reply_off),
        reply[reply_off + 6] == packet[off + 6],
        reply.subrange(reply_off + 40, reply_off + 42) == packet.subrange(off + 42, off + 44),
        reply.subrange(reply_off + 42, reply_off + 44) == packet.subrange(off + 40, off + 42),
        reply.subrange(reply_off + 8, reply_off + 24) == entry.origin_ipv6@,
        reply.subrange(reply_off + 24, reply_off + 40) == steps_taken(
            packet,
            ingress_verdict(packet, Some(entry), Some(key), Mode::Production)->ops,
        ).subrange(off + 8, off + 24),
        ifindex != 0,
    ensures
        ({
            let verdict = wan_verdict(
                reply,
                Some(key),
                Some(entry),
                Some(ifindex),
                Mode::Production,
            );
            let out = steps_taken(reply, verdict->ops);
            &&& ingress_verdict(packet, Some(entry), Some(key), Mode::Production) is Rewrite
            &&& wan_step(reply, Some(key)) == TcStep::LookupOrigin {
                domain_id: number_at(packet, off + 28) as u32,
            }
            &&& verdict is Rewrite
            &&& verdict->then == TcAction::Redirect(ifindex)
            &&& number_at(out, reply_off + 8) == 0xfd00abcd
            &&& number_at(out, reply_off + 12) == number_at(packet, off + 28)
            &&& number_at(out, reply_off + 16) == 0
            &&& number_at(out, reply_off + 20) == 1
            &&& number_at(out, reply_off + 24) == 0xfd00abcd
            &&& number_at(out, reply_off + 28) == 1
            &&& number_at(out, reply_off + 32) == 0
            &&& number_at(out, reply_off + 36) == number_at(packet, off + 20)
        }),
{
    lemma_framing(packet, off);
    law_ingress_by_bytes(packet, off, Some(entry), Some(key), Mode::Production);
    law_outbound_packet_by_bytes(packet, off, entry, key, Mode::Production, Seq::empty());
    lemma_number(packet, off + 24, 4, 4);
    lemma_number(packet, off + 8, 12, 4);
    lemma_ports(packet, off);
    let proto = proto_by_number(packet, off);
    let ports = (port_at(packet, off + 40), port_at(packet, off + 42));
    let proxy_src = outbound_proxy_src(packet, off, proto, ports, key);
    lemma_outbound_proxy_src(packet, off, proto, ports, key);
    lemma_ingress_steps(packet, off, proto, ports, entry.origin_ipv6@, proxy_src, None);
    let sent = steps_taken(
        packet,
        ingress_verdict(packet, Some(entry), Some(key), Mode::Production)->ops,
    );
    assert(sent.subrange(off + 8, off + 24) =~= proxy_src);
    let client_id = number_at(packet, off + 20) as u32;
    let domain_id = number_at(packet, off + 28) as u32;
    assert(reply[reply_off + 40] == reply.subrange(reply_off + 40, reply_off + 42)[0]);
    assert(reply[reply_off + 41] == reply.subrange(reply_off + 40, reply_off + 42)[1]);
    assert(reply[reply_off + 42] == reply.subrange(reply_off + 42, reply_off + 44)[0]);
    assert(reply[reply_off + 43] == reply.subrange(reply_off + 42, reply_off + 44)[1]);
    assert(port_at(reply, reply_off + 42) == ports.0);
    assert(port_at(reply, reply_off + 40) == ports.1);
    assert(is_answer_for(reply, reply_off, key, client_id, domain_id));
    let there = reply.subrange(reply_off + 24, reply_off + 40);
    assert(there[0] == proxy_src[0] && there[1] == proxy_src[1] && there[2] == proxy_src[2]
        && there[3] == proxy_src[3]);
    assert forall|i: int| 0 <= i < 16 implies reply[reply_off + 8 + i]
        == #[trigger] entry.origin_ipv6@[i] by {
        assert(reply.subrange(reply_off + 8, reply_off + 24)[i] == entry.origin_ipv6@[i]);
    }
    law_wan_by_bytes(
        reply,
        reply_off,
        Some(key),
        Some(entry),
        Some(ifindex),
        Mode::Production,
        client_id,
        domain_id,
    );
    law_delivered_packet_by_bytes(
        reply,
        reply_off,
        key,
        entry,
        Some(ifindex),
        Mode::Production,
        Seq::empty(),
        client_id,
        domain_id,
    );
}

// ---------------------------------------------------------------------------
// The filter on the WAN interface
// ---------------------------------------------------------------------------

/// The key under which a connection is remembered, with both ports as a little-endian machine
/// reads their big-endian bytes.
pub open spec fn is_track_key(
    key: TrackKeyView,
    origin: Seq<u8>,
    packet: Seq<u8>,
    origin_port_at: int,
    own_port_at: int,
    proto: u8,
) -> bool {
    &&& key.origin_ipv6 == origin
    &&& key.origin_port == packet[origin_port_at + 1] * 256 + packet[origin_port_at]
    &&& key.translated_port == packet[own_port_at + 1] * 256 + packet[own_port_at]
    &&& key.proto == proto
    &&& key.pad == seq![0u8, 0u8, 0u8]
}

/// What is remembered of an outbound packet, by its bytes.
///
/// With a WAN address in use, exactly one step remembers the connection: under the origin,
/// the packet's destination port, its source port and its protocol, with the source that the
/// packet would have in production. Otherwise nothing is remembered.
pub proof fn law_outbound_packet_remembered(
    packet: Seq<u8>,
    off: int,
    entry: NatEntry,
    key: ProxySrcKey,
    mode: Mode,
    wan: Seq<u8>,
)
    requires
        header_at(packet, off),
        ingress_verdict(packet, Some(entry), Some(key), mode) is Rewrite,
    ensures
        ({
            let ops = ingress_verdict(packet, Some(entry), Some(key), mode)->ops;
            let production = steps_taken(
                packet,
                ingress_verdict(packet, Some(entry), Some(key), Mode::Production)->ops,
            );
            &&& no_wan_in_use(mode) ==> forall|i: int|
                0 <= i < ops.len() ==> #[trigger] ops[i] !is TrackReply
            &&& wan_in_use(mode, wan) ==> {
                &&& ops.len() > 1
                &&& ops[1] is TrackReply
                &&& forall|i: int| 0 <= i < ops.len() && #[trigger] ops[i] is TrackReply ==> i == 1
                &&& ops[1]->proxy_src == production.subrange(off + 8, off + 24)
                &&& is_track_key(
                    ops[1]->key,
                    entry.origin_ipv6@,
                    packet,
                    off + 42,
                    off + 40,
                    packet[off + 6],
                )
            }
        }),
{
    lemma_framing(packet, off);
    lemma_wan(mode, wan);
    law_ingress_by_bytes(packet, off, Some(entry), Some(key), mode);
    law_ingress_by_bytes(packet, off, Some(entry), Some(key), Mode::Production);
    lemma_number(packet, off + 24, 4, 4);
    lemma_number(packet, off + 8, 12, 4);
    lemma_ports(packet, off);
    let proto = proto_by_number(packet, off);
    let ports = (port_at(packet, off + 40), port_at(packet, off + 42));
    let proxy_src = outbound_proxy_src(packet, off, proto, ports, key);
    lemma_outbound_proxy_src(packet, off, proto, ports, key);
    lemma_ingress_steps(packet, off, proto, ports, entry.origin_ipv6@, proxy_src, None);
    let production = steps_taken(
        packet,
        ingress_verdict(packet, Some(entry), Some(key), Mode::Production)->ops,
    );
    assert(production.subrange(off + 8, off + 24) =~= proxy_src);
}

/// An Ethernet frame with a whole IPv6 header that announces anything but ICMPv6.
pub open spec fn is_judged(packet: Seq<u8>) -> bool {
    packet.len() >= 54 && packet[12] == 0x86 && packet[13] == 0xdd && packet[20] != 58
}

/// What the filter does, by the bytes of a frame.
///
/// An Ethernet frame with a whole IPv6 header other than ICMPv6, whatever its protocol, is
/// dropped unless it goes to `2001:0db8::/32` or to the WAN address in use. Everything else
/// passes. Only a frame to the WAN address with a whole TCP or UDP header is looked up among
/// the remembered connections: under its source, its source port, its destination port and
/// its protocol. If one is found, the remembered address becomes the destination in bytes 38
/// to 53, and no other byte is changed.
pub proof fn law_filter_by_bytes(
    packet: Seq<u8>,
    known: Option<ReplyTrackValue>,
    mode: Mode,
    wan: Seq<u8>,
)
    requires
        no_wan_in_use(mode) || wan_in_use(mode, wan),
    ensures
        ({
            let verdict = xdp_verdict(packet, known, mode);
            let out = steps_taken(packet, verdict.ops);
            let to_wan = wan_in_use(mode, wan) && packet.subrange(38, 54) == wan;
            let to_public = packet[38] == 0x20 && packet[39] == 0x01 && packet[40] == 0x0d
                && packet[41] == 0xb8;
            let asked = is_judged(packet) && !to_public && to_wan && (packet[20] == 6
                && packet.len() >= 74 || packet[20] == 17 && packet.len() >= 62);
            &&& verdict.action == if is_judged(packet) && !to_public && !to_wan {
                XdpAction::Drop
            } else {
                XdpAction::Pass
            }
            &&& tracked_as(packet, mode) is Some <==> asked
            &&& asked ==> is_track_key(
                tracked_as(packet, mode)->0,
                packet.subrange(22, 38),
                packet,
                54,
                56,
                packet[20],
            )
            &&& out.len() == packet.len()
            &&& asked && known is Some ==> out.subrange(38, 54) == known->0.proxy_src@
            &&& forall|i: int|
                0 <= i < packet.len() && !(asked && known is Some && 38 <= i < 54)
                    ==> #[trigger] out[i] == packet[i]
            &&& verdict.ops.len() == if asked && known is Some {
                1int
            } else {
                0int
            }
        }),
{
    lemma_wan(mode, wan);
    if packet.len() >= 14 {
        lemma_be_value_2(packet.subrange(12, 14));
    }
    reveal_with_fuel(steps_taken, 2);
    let verdict = xdp_verdict(packet, known, mode);
    let out = steps_taken(packet, verdict.ops);
    if packet.len() >= 54 {
        let dst = packet.subrange(38, 54);
        assert(dst[0] == packet[38] && dst[1] == packet[39] && dst[2] == packet[40] && dst[3]
            == packet[41]);
        if packet[20] == 6 && packet.len() >= 74 || packet[20] == 17 && packet.len() >= 62 {
            lemma_ports(packet, 14);
        }
    }
    if verdict.ops.len() == 1 {
        assert(verdict.ops.drop_last() =~= Seq::<OpView>::empty());
        assert(out.subrange(38, 54) =~= known->0.proxy_src@);
    }
}

/// The counters of the filter, by the bytes of a frame. Production counts nothing, and so
/// does a frame that is not judged. In testing mode every judged frame is counted first under
/// 0, a frame to the public prefix under 1, a frame to the WAN address under 2 and then under
/// 3 or 4 if it was looked up and found or not, a dropped frame under 6 or, with an empty WAN
/// slot, 7, and last under 5.
pub proof fn law_filter_counters_by_bytes(
    packet: Seq<u8>,
    known: Option<ReplyTrackValue>,
    mode: Mode,
    wan: Seq<u8>,
)
    requires
        no_wan_in_use(mode) || wan_in_use(mode, wan),
    ensures
        ({
            let counters = xdp_verdict(packet, known, mode).counters;
            let to_wan = wan_in_use(mode, wan) && packet.subrange(38, 54) == wan;
            let to_public = packet[38] == 0x20 && packet[39] == 0x01 && packet[40] == 0x0d
                && packet[41] == 0xb8;
            let whole = packet[20] == 6 && packet.len() >= 74 || packet[20] == 17 && packet.len()
                >= 62;
            &&& mode is Production || !is_judged(packet) ==> counters.len() == 0
            &&& mode is Dev && is_judged(packet) ==> {
                &&& to_public ==> counters == seq![0u32, 1u32]
                &&& !to_public && to_wan && !whole ==> counters == seq![0u32, 2u32]
                &&& !to_public && to_wan && whole && known is Some ==> counters
                    == seq![0u32, 2u32, 3u32]
                &&& !to_public && to_wan && whole && known is None ==> counters
                    == seq![0u32, 2u32, 4u32]
                &&& !to_public && !to_wan && mode->wan is Some ==> counters
                    == seq![0u32, 6u32, 5u32]
                &&& !to_public && !to_wan && mode->wan is None ==> counters
                    == seq![0u32, 7u32, 5u32]
            }
        }),
{
    law_filter_by_bytes(packet, known, mode, wan);
    lemma_wan(mode, wan);
    if packet.len() >= 14 {
        lemma_be_value_2(packet.subrange(12, 14));
    }
    if packet.len() >= 54 {
        let dst = packet.subrange(38, 54);
        assert(dst[0] == packet[38] && dst[1] == packet[39] && dst[2] == packet[40] && dst[3]
            == packet[41]);
    }
}

/// A reply to the WAN address is looked up under the very key that the outbound packet was
/// remembered under, by the bytes of both.
pub proof fn law_remembered_key_is_asked_for(
    packet: Seq<u8>,
    off: int,
    entry: NatEntry,
    key: ProxySrcKey,
    mode: Mode,
    wan: Seq<u8>,
    reply: Seq<u8>,
)
    requires
        header_at(packet, off),
        wan_in_use(mode, wan),
        ingress_verdict(packet, Some(entry), Some(key), mode) is Rewrite,
        is_judged(reply),
        reply[20] == packet[off + 6],
        reply[20] == 6 ==> reply.len() >= 74,
        reply[20] == 17 ==> reply.len() >= 62,
        reply.subrange(22, 38) == entry.origin_ipv6@,
        reply.subrange(38, 54) == wan,
        reply[38] != 0x20,
        reply[54] == packet[off + 42] && reply[55] == packet[off + 43],
        reply[56] == packet[off + 40] && reply[57] == packet[off + 41],
    ensures
        ingress_verdict(packet, Some(entry), Some(key), mode)->ops.len() > 1,
        ingress_verdict(packet, Some(entry), Some(key), mode)->ops[1] is TrackReply,
        tracked_as(reply, mode) == Some(
            ingress_verdict(packet, Some(entry), Some(key), mode)->ops[1]->key,
        ),
{
    law_ingress_by_bytes(packet, off, Some(entry), Some(key), mode);
    law_outbound_packet_remembered(packet, off, entry, key, mode, wan);
    law_filter_by_bytes(reply, None, mode, wan);
}

/// A packet without an IPv6 header passes all traffic-control programs as it is.
pub proof fn law_no_header_passes(
    packet: Seq<u8>,
    entry: Option<NatEntry>,
    key: Option<ProxySrcKey>,
    ifindex: Option<u32>,
    mode: Mode,
)
    requires
        !header_at(packet, 0),
        !header_at(packet, 14),
    ensures
        ingress_step(packet) == TcStep::Done(TcAction::Accept),
        ingress_verdict(packet, entry, key, mode) == TcVerdictView::Done(TcAction::Accept),
        wan_step(packet, key) == TcStep::Done(TcAction::Accept),
        wan_verdict(packet, key, entry, ifindex, mode) == TcVerdictView::Done(TcAction::Accept),
{
    lemma_no_framing(packet);
}

// ---------------------------------------------------------------------------
// The programs
// ---------------------------------------------------------------------------

/// Finding the transport header, by bytes. Ports are read wherever a header of 20 bytes for TCP
/// or 8 for UDP lies within the packet, whatever follows it, and are its first and second
/// pair of bytes, the higher byte first.
pub proof fn law_transport_header_by_bytes(
    packet: &[u8],
    off: int,
    found: Option<(usize, L4Proto)>,
    base: usize,
    proto: L4Proto,
    ports: Option<(u16, u16)>,
)
    requires
        call_ensures(find_tcp_or_udp, (packet,), found),
        call_ensures(extract_l4_ports, (packet, base, proto), ports),
    ensures
        found is Some && header_at(packet@, off) ==> (found->0).0 == off,
        header_at(packet@, off) ==> (found is Some <==> carries_tcp_or_udp(packet@, off)),
        !header_at(packet@, 0) && !header_at(packet@, 14) ==> found is None,
        found is Some ==> ((found->0).1 == L4Proto::Tcp <==> packet@[(found->0).0 + 6] == 6),
        ports is Some <==> base + (if proto == L4Proto::Tcp {
            20int
        } else {
            8int
        }) <= packet@.len(),
        ports is Some ==> (ports->0).0 == packet@[base as int] * 256 + packet@[base + 1] && (ports->0).1
            == packet@[base + 2] * 256 + packet@[base + 3],
{
    if header_at(packet@, off) {
        lemma_framing(packet@, off);
    }
    if header_at(packet@, 0) {
        lemma_framing(packet@, 0);
    } else if header_at(packet@, 14) {
        lemma_framing(packet@, 14);
    } else {
        lemma_no_framing(packet@);
    }
    if base + 4 <= packet@.len() {
        lemma_be_value_2(packet@.subrange(base as int, base + 2));
        lemma_be_value_2(packet@.subrange(base + 2, base + 4));
    }
}

/// What the program on the tunnel returns for a TCP or UDP packet to `fd00:abcd::/32` with a
/// whole transport header, ids of 24 bits, an entry and a key: steps that send it to the
/// origin with a right checksum and nothing else changed, and then acceptance.
pub proof fn law_tunnel_program_rewrites(
    packet: &[u8],
    off: int,
    entry: NatEntry,
    key: ProxySrcKey,
    mode: &Mode,
    verdict: TcVerdict,
)
    requires
        call_ensures(tc_ingress, (packet, Some(entry), Some(key), mode), verdict),
        header_at(packet@, off),
        carries_tcp_or_udp(packet@, off),
        transport_within(packet@, off),
        number_at(packet@, off + 24) == 0xfd00abcd,
        packet@[off + 20] == 0,
        packet@[off + 28] == 0,
        key_in_use(Some(key)),
    ensures
        verdict is Rewrite,
        verdict->then == TcAction::Accept,
        ({
            let out = steps_taken(packet@, ops_view(verdict->ops@));
            let pos = checksum_pos(packet@, off);
            &&& out.len() == packet@.len()
            &&& forall|i: int|
                off + 24 <= i < off + 40 ==> #[trigger] out[i] == entry.origin_ipv6@[i - off - 24]
            &&& forall|i: int|
                0 <= i < packet@.len() && !(off + 8 <= i < off + 40) && i != pos && i != pos + 1
                    ==> #[trigger] out[i] == packet@[i]
            &&& same_ones_sum(
                ones_sum(checksummed(out, off)),
                ones_sum(checksummed(packet@, off)),
            )
        }),
{
    law_ingress_by_bytes(packet@, off, Some(entry), Some(key), *mode);
    law_outbound_packet_by_bytes(packet@, off, entry, key, *mode, Seq::empty());
}

/// What the program on the WAN returns for an answer from the origin, with a whole transport
/// header, to the address of a client and a domain: steps that bring it from the domain to
/// the client with nothing but addresses and checksum changed, and a right checksum where no
/// WAN address is in use. It goes to the tunnel interface if its index is known.
pub proof fn law_wan_program_rewrites(
    packet: &[u8],
    off: int,
    key: ProxySrcKey,
    entry: NatEntry,
    ifindex: Option<u32>,
    mode: &Mode,
    verdict: TcVerdict,
    client_id: u32,
    domain_id: u32,
)
    requires
        call_ensures(tc_ingress_wan, (packet, Some(key), Some(entry), ifindex, mode), verdict),
        header_at(packet@, off),
        carries_tcp_or_udp(packet@, off),
        transport_within(packet@, off),
        key_in_use(Some(key)),
        is_answer_for(packet@, off, key, client_id, domain_id),
        forall|i: int| 0 <= i < 16 ==> packet@[off + 8 + i] == #[trigger] entry.origin_ipv6@[i],
    ensures
        verdict is Rewrite,
        verdict->then == if ifindex is Some && ifindex->0 != 0 {
            TcAction::Redirect(ifindex->0)
        } else {
            TcAction::Shot
        },
        ({
            let out = steps_taken(packet@, ops_view(verdict->ops@));
            let pos = checksum_pos(packet@, off);
            &&& out.len() == packet@.len()
            &&& number_at(out, off + 8) == 0xfd00abcd
            &&& number_at(out, off + 12) == domain_id
            &&& number_at(out, off + 24) == 0xfd00abcd
            &&& number_at(out, off + 36) == client_id
            &&& forall|i: int|
                0 <= i < packet@.len() && !(off + 8 <= i < off + 40) && i != pos && i != pos + 1
                    ==> #[trigger] out[i] == packet@[i]
            &&& no_wan_in_use(*mode) ==> same_ones_sum(
                ones_sum(checksummed(out, off)),
                ones_sum(checksummed(packet@, off)),
            )
        }),
{
    let dst = packet@.subrange(off + 24, off + 40);
    let ctx = ProxySrcCtx::of(
        port_at(packet@, off + 42),
        port_at(packet@, off + 40),
        packet@[off + 6],
    );
    law_address_by_bytes(client_id, domain_id, ctx, key);
    assert(dst[0] == packet@[off + 24] && dst[1] == packet@[off + 25] && dst[2] == packet@[off + 26]
        && dst[3] == packet@[off + 27]);
    law_wan_by_bytes(
        packet@,
        off,
        Some(key),
        Some(entry),
        ifindex,
        *mode,
        client_id,
        domain_id,
    );
    law_delivered_packet_by_bytes(
        packet@,
        off,
        key,
        entry,
        ifindex,
        *mode,
        Seq::empty(),
        client_id,
        domain_id,
    );
}

/// What the filter returns: in production, a frame with EtherType `86dd`, a whole IPv6 header
/// and a next header other than 58 is dropped unless it goes to `2001:0db8::/32`, whatever its
/// protocol, and every other frame passes; in testing mode a frame to the WAN address in use
/// passes too. A frame that is not looked up is not changed.
pub proof fn law_filter_program_drops(
    packet: &[u8],
    known: Option<ReplyTrackValue>,
    mode: &Mode,
    wan: Seq<u8>,
    verdict: XdpVerdict,
    asked: Option<ReplyTrackKey>,
)
    requires
        call_ensures(xdp_wan, (packet, known, mode), verdict),
        call_ensures(classify_xdp_wan, (packet, mode), asked),
        no_wan_in_use(*mode) || wan_in_use(*mode, wan),
    ensures
        ({
            let p = packet@;
            let judged = p.len() >= 54 && p[12] == 0x86 && p[13] == 0xdd && p[20] != 58;
            let to_public = p[38] == 0x20 && p[39] == 0x01 && p[40] == 0x0d && p[41] == 0xb8;
            let to_wan = wan_in_use(*mode, wan) && p.subrange(38, 54) == wan;
            &&& verdict.action == XdpAction::Drop <==> judged && !to_public && !to_wan
            &&& asked is Some <==> judged && !to_public && to_wan && (p[20] == 6 && p.len() >= 74
                || p[20] == 17 && p.len() >= 62)
            &&& asked is None || known is None ==> verdict.ops@.len() == 0
            &&& *mode is Production ==> verdict.counters@.len() == 0
        }),
{
    law_filter_by_bytes(packet@, known, *mode, wan);
    law_filter_counters_by_bytes(packet@, known, *mode, wan);
    assert(ops_view(verdict.ops@).len() == verdict.ops@.len());
}

/// Which domain the programs ask for: the one in bytes 4 to 7 of a synthetic destination, and
/// the one that the destination of an answer was made from.
pub proof fn law_programs_ask_for_domain(
    packet: &[u8],
    off: int,
    key: Option<ProxySrcKey>,
    outbound: TcStep,
    inbound: TcStep,
    client_id: u32,
    domain_id: u32,
)
    requires
        call_ensures(classify_ingress, (packet,), outbound),
        call_ensures(classify_wan, (packet, &key), inbound),
        header_at(packet@, off),
        carries_tcp_or_udp(packet@, off),
    ensures
        number_at(packet@, off + 24) == 0xfd00abcd ==> outbound == (TcStep::LookupOrigin {
            domain_id: number_at(packet@, off + 28) as u32,
        }),
        number_at(packet@, off + 24) != 0xfd00abcd ==> outbound == TcStep::Done(TcAction::Accept),
        number_at(packet@, off + 24) != 0x20010db8 ==> inbound == TcStep::Done(TcAction::Accept),
        number_at(packet@, off + 24) == 0x20010db8 && transport_within(packet@, off)
            && key_in_use(key) && is_answer_for(packet@, off, key->0, client_id, domain_id)
            ==> inbound == (TcStep::LookupOrigin { domain_id }),
        !key_in_use(key) ==> inbound is Done,
{
    law_ingress_by_bytes(packet@, off, None, key, Mode::Production);
    law_wan_by_bytes(packet@, off, key, None, None, Mode::Production, client_id, domain_id);
}

/// Decoding under the active key: a key of zeros, and none, decode nothing, and every other key
/// decodes what it encoded. A rewritten reply goes to the tunnel interface, and is dropped if
/// its index is 0 or not known.
pub proof fn law_active_key_and_tunnel(
    client_id: u32,
    domain_id: u32,
    ctx: ProxySrcCtx,
    key: Option<ProxySrcKey>,
    addr: [u8; 16],
    ids: Option<(u32, u32)>,
    ifindex: Option<u32>,
    action: TcAction,
)
    requires
        call_ensures(try_decode_with_active_key, (&addr, &ctx, &key), ids),
        call_ensures(redirect_to_tunnel, (ifindex,), action),
    ensures
        !key_in_use(key) ==> ids is None,
        key_in_use(key) && client_id < 0x100_0000 && domain_id < 0x100_0000 && addr@
            == proxy_src_addr(client_id, domain_id, ctx, key->0) ==> ids == Some(
            (client_id, domain_id),
        ),
        ifindex matches Some(n) && n != 0 ==> action == TcAction::Redirect(ifindex->0),
        ifindex is None || ifindex == Some(0u32) ==> action == TcAction::Shot,
{
    lemma_key_in_use(key);
    if key_in_use(key) && client_id < 0x100_0000 && domain_id < 0x100_0000 {
        law_decode_inverts_encode(client_id, domain_id, ctx, key->0);
    }
}

} // verus!
