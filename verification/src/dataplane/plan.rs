//! The vocabulary of packet decisions: actions, and the writes that go with them.

use vstd::prelude::*;

use crate::types::ProxySrcKey;
use crate::types::ReplyTrackKey;
use crate::types::ReplyTrackValue;

verus! {

/// Whether the data plane runs in production or in double-NAT testing mode.
#[derive(Clone, Copy)]
pub enum Mode {
    Production,
    /// Testing mode, with what the WAN address slot holds.
    Dev { wan: Option<[u8; 16]> },
}

impl Mode {
    /// The WAN address to use for double NAT: set, and not all zeros.
    pub open spec fn wan_addr(self) -> Option<Seq<u8>> {
        match self {
            Mode::Dev { wan: Some(wan) } if wan@ != zero_addr() => Some(wan@),
            _ => None,
        }
    }

    /// The WAN address to use for double NAT, if there is one.
    pub fn active_wan(&self) -> (wan: Option<[u8; 16]>)
        ensures
            wan is Some <==> self.wan_addr() is Some,
            wan matches Some(w) ==> self.wan_addr() == Some(w@),
    {
        match self {
            Mode::Dev { wan: Some(wan) } => {
                let zero: [u8; 16] = [0; 16];
                assert(zero@ =~= zero_addr());
                if crate::address::same_addr(wan, &zero) {
                    None
                } else {
                    Some(*wan)
                }
            },
            _ => None,
        }
    }
}

/// The unspecified address.
pub open spec fn zero_addr() -> Seq<u8> {
    Seq::new(16, |i: int| 0u8)
}

/// What a traffic-control program returns.
#[derive(Clone, Copy, PartialEq, Eq, Structural, Debug)]
pub enum TcAction {
    /// Let the packet pass.
    Accept,
    /// Drop the packet.
    Shot,
    /// Send the packet out of the interface with this index.
    Redirect(u32),
}

/// What an XDP program returns.
#[derive(Clone, Copy, PartialEq, Eq, Structural, Debug)]
pub enum XdpAction {
    Pass,
    Drop,
}

/// One step of carrying out a decision. Steps are taken in order.
#[derive(Clone, Copy)]
pub enum PacketOp {
    /// Write an address into the packet.
    Store { offset: usize, addr: [u8; 16] },
    /// Adjust the transport checksum at `offset` for a pseudo-header address that changed.
    FixChecksum { offset: usize, old_addr: [u8; 16], new_addr: [u8; 16] },
    /// Have the checksum at `offset` computed afresh on transmission.
    MarkChecksumPartial { offset: usize },
    /// Remember a connection for the reply. A failure is ignored.
    TrackReply { key: ReplyTrackKey, value: ReplyTrackValue },
}

/// What a traffic-control program decides about a packet.
pub enum TcVerdict {
    /// Leave the packet as it is and return this action.
    Done(TcAction),
    /// Take these steps, and return the action `then` if all of them succeed.
    Rewrite { ops: Vec<PacketOp>, then: TcAction },
}

/// A [`TcVerdict`] over views.
pub enum TcVerdictView {
    Done(TcAction),
    Rewrite { ops: Seq<OpView>, then: TcAction },
}

impl View for TcVerdict {
    type V = TcVerdictView;

    open spec fn view(&self) -> TcVerdictView {
        match self {
            TcVerdict::Done(action) => TcVerdictView::Done(*action),
            TcVerdict::Rewrite { ops, then } => TcVerdictView::Rewrite {
                ops: ops_view(ops@),
                then: *then,
            },
        }
    }
}

/// What a traffic-control program asks of the domain map before it can decide.
#[derive(Clone, Copy, PartialEq, Eq, Structural, Debug)]
pub enum TcStep {
    /// Nothing: the action is settled and the packet stays as it is.
    Done(TcAction),
    /// The origin of this domain.
    LookupOrigin { domain_id: u32 },
}

/// The action after the steps of a rewrite: a packet that could not be written is let
/// through.
pub fn settle(then: TcAction, all_applied: bool) -> (action: TcAction)
    ensures
        action == if all_applied {
            then
        } else {
            TcAction::Accept
        },
{
    if all_applied {
        then
    } else {
        TcAction::Accept
    }
}

/// The key is there and not all zeros.
pub open spec fn usable_key(key: Option<ProxySrcKey>) -> bool {
    key is Some && !key->0.all_zero()
}

/// A [`PacketOp`] with addresses as byte sequences.
pub enum OpView {
    Store { offset: int, addr: Seq<u8> },
    FixChecksum { offset: int, old_addr: Seq<u8>, new_addr: Seq<u8> },
    MarkChecksumPartial { offset: int },
    TrackReply { key: TrackKeyView, proxy_src: Seq<u8> },
}

/// A [`ReplyTrackKey`] with the address and the padding as byte sequences. The reply table
/// compares keys with their padding.
#[verifier::ext_equal]
pub struct TrackKeyView {
    pub origin_ipv6: Seq<u8>,
    pub origin_port: u16,
    pub translated_port: u16,
    pub proto: u8,
    pub pad: Seq<u8>,
}

impl View for ReplyTrackKey {
    type V = TrackKeyView;

    open spec fn view(&self) -> TrackKeyView {
        TrackKeyView {
            origin_ipv6: self.origin_ipv6@,
            origin_port: self.origin_port,
            translated_port: self.translated_port,
            proto: self.proto,
            pad: self._pad@,
        }
    }
}

impl View for PacketOp {
    type V = OpView;

    open spec fn view(&self) -> OpView {
        match self {
            PacketOp::Store { offset, addr } => OpView::Store {
                offset: *offset as int,
                addr: addr@,
            },
            PacketOp::FixChecksum { offset, old_addr, new_addr } => OpView::FixChecksum {
                offset: *offset as int,
                old_addr: old_addr@,
                new_addr: new_addr@,
            },
            PacketOp::MarkChecksumPartial { offset } => OpView::MarkChecksumPartial {
                offset: *offset as int,
            },
            PacketOp::TrackReply { key, value } => OpView::TrackReply {
                key: key@,
                proxy_src: value.proxy_src@,
            },
        }
    }
}

/// The views of a list of steps.
pub open spec fn ops_view(ops: Seq<PacketOp>) -> Seq<OpView> {
    Seq::new(ops.len(), |i: int| ops[i]@)
}

/// The bytes of a packet after one step.
pub open spec fn op_applied(packet: Seq<u8>, op: OpView) -> Seq<u8> {
    match op {
        OpView::Store { offset, addr } => Seq::new(
            packet.len(),
            |i: int|
                if offset <= i < offset + addr.len() {
                    addr[i - offset]
                } else {
                    packet[i]
                },
        ),
        _ => packet,
    }
}

/// The bytes of a packet after all steps but checksum adjustments, which leave the bytes
/// of the headers above the transport checksum alone.
pub open spec fn ops_applied(packet: Seq<u8>, ops: Seq<OpView>) -> Seq<u8>
    decreases ops.len(),
{
    if ops.len() == 0 {
        packet
    } else {
        op_applied(ops_applied(packet, ops.drop_last()), ops.last())
    }
}

/// A port as the little-endian data plane stores it in network order.
pub open spec fn network_order(port: u16) -> u16 {
    ((port % 256) * 256 + port / 256) as u16
}

/// Exchange the bytes of a port, as storing it in network order does on the
/// little-endian data plane.
pub fn to_network_order(port: u16) -> (swapped: u16)
    ensures
        swapped == network_order(port),
{
    (port % 256) * 256 + port / 256
}

/// The key under which a connection to `origin` is remembered: the origin's port, the
/// port that the reply comes back to, the protocol, and zero padding.
pub open spec fn track_key(
    origin: Seq<u8>,
    origin_port: u16,
    translated_port: u16,
    proto: u8,
) -> TrackKeyView {
    TrackKeyView {
        origin_ipv6: origin,
        origin_port: network_order(origin_port),
        translated_port: network_order(translated_port),
        proto,
        pad: seq![0u8, 0u8, 0u8],
    }
}

/// Build the key under which a connection is remembered.
pub fn make_track_key(
    origin: [u8; 16],
    origin_port: u16,
    translated_port: u16,
    proto: u8,
) -> (key: ReplyTrackKey)
    ensures
        key@ == track_key(origin@, origin_port, translated_port, proto),
{
    let mut key = ReplyTrackKey::default();
    key.origin_ipv6 = origin;
    key.origin_port = to_network_order(origin_port);
    key.translated_port = to_network_order(translated_port);
    key.proto = proto;
    key
}

/// A step is seen as it is: the offset, the addresses and the remembered connection are those
/// that are carried out.
pub proof fn law_steps_seen_as_they_are(ops: Seq<PacketOp>, i: int)
    requires
        0 <= i < ops.len(),
    ensures
        ops_view(ops).len() == ops.len(),
        match (ops[i], ops_view(ops)[i]) {
            (PacketOp::Store { offset, addr }, OpView::Store { offset: o, addr: a }) => {
                offset == o && addr@ == a
            },
            (
                PacketOp::FixChecksum { offset, old_addr, new_addr },
                OpView::FixChecksum { offset: o, old_addr: a, new_addr: b },
            ) => offset == o && old_addr@ == a && new_addr@ == b,
            (
                PacketOp::MarkChecksumPartial { offset },
                OpView::MarkChecksumPartial { offset: o },
            ) => offset == o,
            (PacketOp::TrackReply { key, value }, OpView::TrackReply { key: k, proxy_src }) => {
                &&& key.origin_ipv6@ == k.origin_ipv6
                &&& key.origin_port == k.origin_port
                &&& key.translated_port == k.translated_port
                &&& key.proto == k.proto
                &&& key._pad@ == k.pad
                &&& value.proxy_src@ == proxy_src
            },
            _ => false,
        },
{
}

/// A packet that could not be written is let through, and every other gets its action.
pub proof fn law_settled_by_success(then: TcAction, all_applied: bool, action: TcAction)
    requires
        call_ensures(settle, (then, all_applied), action),
    ensures
        all_applied ==> action == then,
        !all_applied ==> action == TcAction::Accept,
{
}

} // verus!
