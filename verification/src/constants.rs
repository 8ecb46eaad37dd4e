//! The address-space constants that the DNS server, the data plane and the tunnel
//! configuration share.

use vstd::prelude::*;

verus! {

/// Prefix bytes of synthetic IPv6 addresses: `fd00:abcd::/32`.
pub const SYNTHETIC_PREFIX: [u8; 4] = [0xfd, 0x00, 0xab, 0xcd];

/// Bytes 4 to 7 of every client VIP.
pub const VIP_POOL_DISCRIMINATOR: [u8; 4] = [0x00, 0x00, 0x00, 0x01];

/// Interface id of the XFRM tunnel interface.
pub const XFRM_IF_ID: u32 = 42;

/// The public /32 prefix of proxy-source addresses.
pub const PROXY_SRC_PREFIX: [u8; 4] = [0x20, 0x01, 0x0d, 0xb8];

/// The largest 24-bit client id.
pub const PROXY_SRC_CLIENT_ID_MAX: u32 = 0x00ff_ffff;

/// The largest 24-bit domain id.
pub const PROXY_SRC_DOMAIN_ID_MAX: u32 = 0x00ff_ffff;

} // verus!
