use prototype_net::address::client_vip_from_id24;
use prototype_net::address::synthetic_ipv6;
use prototype_net::constants::PROXY_SRC_PREFIX;
use prototype_net::constants::SYNTHETIC_PREFIX;
use prototype_net::constants::VIP_POOL_DISCRIMINATOR;
use prototype_net::constants::XFRM_IF_ID;
use prototype_net::proxy_src::decode_proxy_src;
use prototype_net::proxy_src::encode_proxy_src;
use prototype_net::types::ProxySrcCtx;
use prototype_net::types::ProxySrcKey;

// Test key for encode/decode tests.
const TEST_KEY: ProxySrcKey = ProxySrcKey {
    prince_key: [
        0x01, 0x23, 0x45, 0x67, 0x89, 0xab, 0xcd, 0xef, 0xfe, 0xdc, 0xba, 0x98, 0x76, 0x54,
        0x32, 0x10,
    ],
    siphash_key: [
        0x00, 0x01, 0x02, 0x03, 0x04, 0x05, 0x06, 0x07, 0x08, 0x09, 0x0a, 0x0b, 0x0c, 0x0d,
        0x0e, 0x0f,
    ],
};

fn tcp_ctx(src_port: u16, dst_port: u16) -> ProxySrcCtx {
    ProxySrcCtx::new(src_port, dst_port, 6)
}

#[test]
fn vip_discriminator_matches_client_vip_layout() {
    let vip = client_vip_from_id24(0x0001_0000);
    assert_eq!(&vip[0..4], &SYNTHETIC_PREFIX);
    assert_eq!(&vip[4..8], &VIP_POOL_DISCRIMINATOR);
    assert_eq!(&vip[8..12], &[0u8; 4]);
    assert_eq!(&vip[12..16], &0x0001_0000u32.to_be_bytes());
}

#[test]
fn synthetic_ipv6_prefix_matches() {
    let addr = synthetic_ipv6(42);
    assert_eq!(&addr[0..4], &SYNTHETIC_PREFIX);
}

#[test]
fn xfrm_if_id_is_nonzero() {
    assert!(XFRM_IF_ID > 0);
}

// -- Obfuscated encode/decode tests --

#[test]
fn encode_decode_roundtrip() {
    let ctx = tcp_ctx(50000, 443);
    let addr = encode_proxy_src(100, 7, &ctx, &TEST_KEY).unwrap();
    assert_eq!(&addr[0..4], &PROXY_SRC_PREFIX);
    let (cid, did) = decode_proxy_src(&addr, &ctx, &TEST_KEY).unwrap();
    assert_eq!(cid, 100);
    assert_eq!(did, 7);
}

#[test]
fn encode_decode_roundtrip_various() {
    let cases: &[(u32, u32, u16, u16)] = &[
        (0, 0, 1024, 80),
        (1, 1, 443, 50000),
        (0x00FF_FFFF, 0x00FF_FFFF, 65535, 65535),
        (0x0001_0000, 7, 50000, 443),
        (42, 999, 8080, 3000),
    ];
    for &(cid, did, sp, dp) in cases {
        let ctx = tcp_ctx(sp, dp);
        let addr = encode_proxy_src(cid, did, &ctx, &TEST_KEY).unwrap();
        let (c, d) = decode_proxy_src(&addr, &ctx, &TEST_KEY).unwrap();
        assert_eq!(
            (c, d),
            (cid, did),
            "roundtrip failed for cid={cid}, did={did}"
        );
    }
}

#[test]
fn different_ctx_different_enc64() {
    let ctx1 = tcp_ctx(50000, 443);
    let ctx2 = tcp_ctx(50001, 443);
    let addr1 = encode_proxy_src(100, 7, &ctx1, &TEST_KEY).unwrap();
    let addr2 = encode_proxy_src(100, 7, &ctx2, &TEST_KEY).unwrap();
    // ENC64 (bytes 4-11) should differ for different flow contexts.
    assert_ne!(&addr1[4..12], &addr2[4..12]);
}

#[test]
fn same_ctx_same_enc64() {
    let ctx = tcp_ctx(50000, 443);
    let addr1 = encode_proxy_src(100, 7, &ctx, &TEST_KEY).unwrap();
    let addr2 = encode_proxy_src(100, 7, &ctx, &TEST_KEY).unwrap();
    assert_eq!(
        addr1, addr2,
        "determinism: same inputs must produce same output"
    );
}

#[test]
fn wrong_key_decode_returns_none() {
    let ctx = tcp_ctx(50000, 443);
    let addr = encode_proxy_src(100, 7, &ctx, &TEST_KEY).unwrap();
    let wrong_key = ProxySrcKey {
        prince_key: [0xFF; 16],
        siphash_key: [0xFF; 16],
    };
    assert!(decode_proxy_src(&addr, &ctx, &wrong_key).is_none());
}

#[test]
fn tag32_tamper_returns_none() {
    let ctx = tcp_ctx(50000, 443);
    let mut addr = encode_proxy_src(100, 7, &ctx, &TEST_KEY).unwrap();
    // Flip a bit in TAG32 (byte 12).
    addr[12] ^= 0x01;
    assert!(decode_proxy_src(&addr, &ctx, &TEST_KEY).is_none());
}

#[test]
fn enc64_tamper_returns_none() {
    let ctx = tcp_ctx(50000, 443);
    let mut addr = encode_proxy_src(100, 7, &ctx, &TEST_KEY).unwrap();
    // Flip a bit in ENC64 (byte 6). TAG32 will mismatch.
    addr[6] ^= 0x01;
    assert!(decode_proxy_src(&addr, &ctx, &TEST_KEY).is_none());
}

#[test]
fn client_id_over_24bit_returns_none() {
    let ctx = tcp_ctx(50000, 443);
    assert!(encode_proxy_src(0x0100_0000, 7, &ctx, &TEST_KEY).is_none());
}

#[test]
fn domain_id_over_24bit_returns_none() {
    let ctx = tcp_ctx(50000, 443);
    assert!(encode_proxy_src(100, 0x0100_0000, &ctx, &TEST_KEY).is_none());
}

#[test]
fn size_alignment_invariants() {
    assert_eq!(core::mem::size_of::<ProxySrcCtx>(), 8);
    assert_eq!(core::mem::size_of::<ProxySrcKey>(), 32);
}

#[test]
fn proxy_src_key_is_zero() {
    let zero = ProxySrcKey {
        prince_key: [0; 16],
        siphash_key: [0; 16],
    };
    assert!(zero.is_zero());
    assert!(!TEST_KEY.is_zero());
}

#[test]
fn proxy_src_prefix_distinct_from_synthetic() {
    // The proxy-source prefix must be different from the synthetic prefix.
    assert_ne!(PROXY_SRC_PREFIX, SYNTHETIC_PREFIX);
}
