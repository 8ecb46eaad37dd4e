//! Flow contexts, keys and the values of the data-plane maps.

use vstd::prelude::*;

verus! {

/// The flow context that tweaks the proxy-source encoding.
///
/// Ports are in host byte order. The padding is always zero and takes no part in any
/// computation.
#[derive(Clone, Copy)]
pub struct ProxySrcCtx {
    pub src_port: u16,
    pub dst_port: u16,
    pub proto: u8,
    pub _pad: [u8; 3],
}

impl ProxySrcCtx {
    /// The context with these ports and this protocol, and zero padding.
    pub open spec fn of(src_port: u16, dst_port: u16, proto: u8) -> Self {
        ProxySrcCtx { src_port, dst_port, proto, _pad: [0, 0, 0] }
    }

    /// The padding is zero.
    pub open spec fn wf(self) -> bool {
        self == Self::of(self.src_port, self.dst_port, self.proto)
    }

    /// A context with zero padding.
    pub fn new(src_port: u16, dst_port: u16, proto: u8) -> (ctx: Self)
        ensures
            ctx == Self::of(src_port, dst_port, proto),
            ctx.wf(),
    {
        ProxySrcCtx { src_port, dst_port, proto, _pad: [0, 0, 0] }
    }
}

/// 256 bits of key material for the proxy-source encoding. The halves are named after
/// ciphers, and feed the encoding's mask and its tag.
#[derive(Clone, Copy)]
pub struct ProxySrcKey {
    pub prince_key: [u8; 16],
    pub siphash_key: [u8; 16],
}

impl ProxySrcKey {
    /// Byte `i` of both halves is zero.
    pub open spec fn zero_at(self, i: int) -> bool {
        self.prince_key[i] == 0 && self.siphash_key[i] == 0
    }

    /// Every byte of both halves is zero.
    pub open spec fn all_zero(self) -> bool {
        forall|i: int| 0 <= i < 16 ==> #[trigger] self.zero_at(i)
    }

    /// Whether the key is all zeros, that is, not populated.
    pub fn is_zero(&self) -> (zero: bool)
        ensures
            zero == self.all_zero(),
    {
        let mut acc: u8 = 0;
        let mut i: usize = 0;
        while i < 16
            invariant
                i <= 16,
                acc == 0 <==> forall|j: int| 0 <= j < i ==> #[trigger] self.zero_at(j),
            decreases 16 - i,
        {
            let p: u8 = self.prince_key[i];
            let s: u8 = self.siphash_key[i];
            assert(((acc | p) | s) == 0 <==> acc == 0 && p == 0 && s == 0) by (bit_vector);
            assert(self.zero_at(i as int) <==> p == 0 && s == 0);
            acc = acc | p;
            acc = acc | s;
            i = i + 1;
        }
        acc == 0
    }
}

/// Where a domain id leads: the origin's IPv6 address.
#[derive(Clone, Copy)]
pub struct NatEntry {
    pub origin_ipv6: [u8; 16],
}

/// What identifies an outbound connection whose reply arrives on the WAN address.
///
/// Both ports hold their bytes in network order.
#[derive(Clone, Copy)]
pub struct ReplyTrackKey {
    pub origin_ipv6: [u8; 16],
    pub origin_port: u16,
    pub translated_port: u16,
    pub proto: u8,
    pub _pad: [u8; 3],
}

impl Default for ReplyTrackKey {
    fn default() -> (key: Self)
        ensures
            key.origin_ipv6@ == Seq::new(16, |i: int| 0u8),
            key.origin_port == 0,
            key.translated_port == 0,
            key.proto == 0,
            key._pad@ == seq![0u8, 0u8, 0u8],
    {
        let key = ReplyTrackKey {
            origin_ipv6: [0; 16],
            origin_port: 0,
            translated_port: 0,
            proto: 0,
            _pad: [0; 3],
        };
        assert(key.origin_ipv6@ =~= Seq::new(16, |i: int| 0u8));
        assert(key._pad@ =~= seq![0u8, 0u8, 0u8]);
        key
    }
}

/// The proxy-source address to put back into a tracked reply.
#[derive(Clone, Copy)]
pub struct ReplyTrackValue {
    pub proxy_src: [u8; 16],
}

} // verus!
