use prototype_net::crypto::hash_ctx;
use prototype_net::crypto::m_prime;
use prototype_net::crypto::prince_decrypt;
use prototype_net::crypto::prince_encrypt;
use prototype_net::crypto::siphash_2_4;
use prototype_net::types::ProxySrcCtx;

// -----------------------------------------------------------------------
// hash_ctx frozen test vectors
// -----------------------------------------------------------------------

#[test]
fn hash_ctx_zero() {
    let ctx = ProxySrcCtx {
        src_port: 0,
        dst_port: 0,
        proto: 0,
        _pad: [0; 3],
    };
    assert_eq!(hash_ctx(&ctx), 0x0000000000000000);
}

#[test]
fn hash_ctx_443_50000_tcp() {
    let ctx = ProxySrcCtx {
        src_port: 443,
        dst_port: 50000,
        proto: 6,
        _pad: [0; 3],
    };
    assert_eq!(hash_ctx(&ctx), 0xae510a47a775e0c3);
}

#[test]
fn hash_ctx_50000_443_tcp() {
    let ctx = ProxySrcCtx {
        src_port: 50000,
        dst_port: 443,
        proto: 6,
        _pad: [0; 3],
    };
    assert_eq!(hash_ctx(&ctx), 0x6999dcb37e570b67);
}

#[test]
fn hash_ctx_443_50000_udp() {
    let ctx = ProxySrcCtx {
        src_port: 443,
        dst_port: 50000,
        proto: 17,
        _pad: [0; 3],
    };
    assert_eq!(hash_ctx(&ctx), 0x8e7b5430862b54bc);
}

#[test]
fn hash_ctx_1_1_1() {
    let ctx = ProxySrcCtx {
        src_port: 1,
        dst_port: 1,
        proto: 1,
        _pad: [0; 3],
    };
    assert_eq!(hash_ctx(&ctx), 0xfbf2b99b8d507220);
}

#[test]
fn hash_ctx_distinct_outputs() {
    let values = [
        0x0000000000000000u64,
        0xae510a47a775e0c3,
        0x6999dcb37e570b67,
        0x8e7b5430862b54bc,
        0xfbf2b99b8d507220,
    ];
    for i in 0..values.len() {
        for j in (i + 1)..values.len() {
            assert_ne!(values[i], values[j], "collision at indices {i} and {j}");
        }
    }
}

// -----------------------------------------------------------------------
// M' involution test
// -----------------------------------------------------------------------

#[test]
fn m_prime_is_involution() {
    for x in [
        0u64,
        1,
        0xdeadbeef,
        0x0123456789abcdef,
        0xffffffffffffffff,
        0xcafebabe00000000,
    ] {
        let y = m_prime(x);
        let z = m_prime(y);
        assert_eq!(z, x, "M' is not involutory for x={x:#018x}");
    }
}

// -----------------------------------------------------------------------
// PRINCE test vectors from the original paper (Borghoff et al., 2012)
// -----------------------------------------------------------------------

#[test]
fn prince_test_vector_all_zero() {
    let key = [0u8; 16];
    let ct = prince_encrypt(0x0000000000000000, &key);
    assert_eq!(ct, 0x818665aa0d02dfda, "PRINCE all-zero: got {ct:#018x}");
    let pt = prince_decrypt(ct, &key);
    assert_eq!(pt, 0x0000000000000000);
}

#[test]
fn prince_test_vector_2() {
    let key = [0u8; 16];
    let ct = prince_encrypt(0xffffffffffffffff, &key);
    assert_eq!(ct, 0x604ae6ca03c20ada, "PRINCE TV2: got {ct:#018x}");
    let pt = prince_decrypt(ct, &key);
    assert_eq!(pt, 0xffffffffffffffff);
}

#[test]
fn prince_test_vector_3() {
    let mut key = [0u8; 16];
    key[8] = 0xfe;
    key[9] = 0xdc;
    key[10] = 0xba;
    key[11] = 0x98;
    key[12] = 0x76;
    key[13] = 0x54;
    key[14] = 0x32;
    key[15] = 0x10;
    let ct = prince_encrypt(0x0123456789abcdef, &key);
    assert_eq!(ct, 0xae25ad3ca8fa9ccf, "PRINCE TV3: got {ct:#018x}");
    let pt = prince_decrypt(ct, &key);
    assert_eq!(pt, 0x0123456789abcdef);
}

#[test]
fn prince_roundtrip_various() {
    let key: [u8; 16] = [
        0x01, 0x23, 0x45, 0x67, 0x89, 0xab, 0xcd, 0xef, 0xfe, 0xdc, 0xba, 0x98, 0x76, 0x54,
        0x32, 0x10,
    ];
    for pt in [
        0u64,
        1,
        0xdeadbeefcafe0000,
        0xffffffffffffffff,
        0x0123456789abcdef,
    ] {
        let ct = prince_encrypt(pt, &key);
        let dec = prince_decrypt(ct, &key);
        assert_eq!(dec, pt, "round-trip failed for pt={pt:#018x}");
        assert_ne!(ct, pt, "no encryption for pt={pt:#018x}");
    }
}

#[test]
fn prince_encrypt_decrypt_consistency() {
    let key: [u8; 16] = [
        0xde, 0xad, 0xbe, 0xef, 0xca, 0xfe, 0xba, 0xbe, 0x01, 0x02, 0x03, 0x04, 0x05, 0x06,
        0x07, 0x08,
    ];
    for pt in 0..100u64 {
        let ct = prince_encrypt(pt, &key);
        let dec = prince_decrypt(ct, &key);
        assert_eq!(dec, pt, "consistency failed for pt={pt}");
    }
}

// -----------------------------------------------------------------------
// SipHash-2-4 test vectors from Appendix A
// -----------------------------------------------------------------------

#[test]
fn siphash_reference_vectors() {
    let key: [u8; 16] = [
        0x00, 0x01, 0x02, 0x03, 0x04, 0x05, 0x06, 0x07, 0x08, 0x09, 0x0a, 0x0b, 0x0c, 0x0d,
        0x0e, 0x0f,
    ];

    let expected: [u64; 16] = [
        0x726fdb47dd0e0e31,
        0x74f839c593dc67fd,
        0x0d6c8009d9a94f5a,
        0x85676696d7fb7e2d,
        0xcf2794e0277187b7,
        0x18765564cd99a68d,
        0xcbc9466e58fee3ce,
        0xab0200f58b01d137,
        0x93f5f5799a932462,
        0x9e0082df0ba9e4b0,
        0x7a5dbbc594ddb9f3,
        0xf4b32f46226bada7,
        0x751e8fbc860ee5fb,
        0x14ea5627c0843d90,
        0xf723ca908e7af2ee,
        0xa129ca6149be45e5,
    ];

    for i in 0..16usize {
        let input: Vec<u8> = (0..i as u8).collect();
        let result = siphash_2_4(&key, &input);
        assert_eq!(
            result, expected[i],
            "SipHash vector {i} failed: got={result:#018x}, expected={:#018x}",
            expected[i]
        );
    }
}

#[test]
fn siphash_empty_input() {
    let key = [0u8; 16];
    let h1 = siphash_2_4(&key, &[]);
    let h2 = siphash_2_4(&key, &[]);
    assert_eq!(h1, h2);
}
