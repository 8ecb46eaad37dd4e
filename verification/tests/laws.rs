use prototype_net::address::client_id_from_ipv6;
use prototype_net::address::client_vip_from_id24;
use prototype_net::address::domain_id_from_ipv6;
use prototype_net::address::starts_with_prefix;
use prototype_net::address::synthetic_ipv6;
use prototype_net::constants::PROXY_SRC_PREFIX;
use prototype_net::constants::SYNTHETIC_PREFIX;
use prototype_net::crypto::mix::hash_ctx;
use prototype_net::crypto::mix::mix64;
use prototype_net::crypto::mix::MIX_INV_1;
use prototype_net::crypto::mix::MIX_INV_2;
use prototype_net::crypto::prince::m_layer;
use prototype_net::crypto::prince::m_layer_inv;
use prototype_net::crypto::prince::m_prime;
use prototype_net::crypto::prince::prince_core_encrypt;
use prototype_net::crypto::prince::sbox_inv_layer;
use prototype_net::crypto::prince::sbox_layer;
use prototype_net::crypto::prince::shift_rows;
use prototype_net::crypto::prince::shift_rows_inv;
use prototype_net::crypto::prince::ALPHA;
use prototype_net::crypto::prince::M_HAT_0;
use prototype_net::crypto::prince::M_HAT_1;
use prototype_net::crypto::prince::RC;
use prototype_net::crypto::prince_decrypt;
use prototype_net::crypto::prince_encrypt;
use prototype_net::crypto::rotate::rotate_left;
use prototype_net::crypto::rotate::rotate_right;
use prototype_net::proxy_src::decode_proxy_src;
use prototype_net::proxy_src::encode_proxy_src;
use prototype_net::types::ProxySrcCtx;
use prototype_net::types::ProxySrcKey;

const WORDS: [u64; 6] =
    [0, 1, 0x0123_4567_89ab_cdef, 0xffff_ffff_ffff_ffff, 0x8000_0000_0000_0000, 0xdead_beef];

#[test]
fn cipher_layers_are_inverse() {
    for x in WORDS {
        assert_eq!(sbox_inv_layer(sbox_layer(x)), x);
        assert_eq!(sbox_layer(sbox_inv_layer(x)), x);
        assert_eq!(m_prime(m_prime(x)), x);
        assert_eq!(shift_rows_inv(shift_rows(x)), x);
        assert_eq!(shift_rows(shift_rows_inv(x)), x);
        assert_eq!(m_layer_inv(m_layer(x)), x);
    }
}

#[test]
fn round_constants_reflect() {
    for i in 0..12 {
        assert_eq!(RC[i] ^ RC[11 - i], ALPHA);
    }
}

#[test]
fn matrices_are_rotated() {
    for i in 0..16 {
        assert_eq!(M_HAT_1[i], M_HAT_0[i].rotate_left(4));
    }
}

#[test]
fn core_reflects() {
    for x in WORDS {
        for k in WORDS {
            assert_eq!(prince_core_encrypt(prince_core_encrypt(x, k), k ^ ALPHA), x);
        }
    }
}

#[test]
fn cipher_decrypts_and_encrypts() {
    let key: [u8; 16] = [1, 2, 3, 4, 5, 6, 7, 8, 9, 10, 11, 12, 13, 14, 15, 16];
    for x in WORDS {
        assert_eq!(prince_decrypt(prince_encrypt(x, &key), &key), x);
        assert_eq!(prince_encrypt(prince_decrypt(x, &key), &key), x);
    }
}

#[test]
fn rotations_agree_with_std() {
    for x in WORDS {
        for n in [0u32, 1, 13, 32, 63] {
            assert_eq!(rotate_left(x, n), x.rotate_left(n));
            assert_eq!(rotate_right(x, n), x.rotate_right(n));
        }
    }
}

#[test]
fn mixing_can_be_undone() {
    let unshift = |x: u64, n: u32| {
        let mut y = x;
        for _ in 0..3 {
            y = x ^ (y >> n);
        }
        y
    };
    for x in WORDS {
        let mut y = unshift(mix64(x), 31);
        y = unshift(y.wrapping_mul(MIX_INV_2), 27);
        y = unshift(y.wrapping_mul(MIX_INV_1), 30);
        assert_eq!(y, x);
    }
}

#[test]
fn flows_hash_apart() {
    let a = hash_ctx(&ProxySrcCtx::new(1, 2, 6));
    for ctx in [
        ProxySrcCtx::new(2, 1, 6),
        ProxySrcCtx::new(1, 2, 17),
        ProxySrcCtx::new(1, 3, 6),
        ProxySrcCtx::new(0, 2, 6),
    ] {
        assert_ne!(hash_ctx(&ctx), a);
    }
}

#[test]
fn addresses_carry_their_ids() {
    for id in [0u32, 1, 0xff, 0x0012_3456, 0x00ff_ffff, 0xffff_ffff] {
        let synthetic = synthetic_ipv6(id);
        assert_eq!(domain_id_from_ipv6(&synthetic), id);
        assert!(starts_with_prefix(&synthetic, &SYNTHETIC_PREFIX));
        let vip = client_vip_from_id24(id);
        assert_eq!(client_id_from_ipv6(&vip), id);
        assert!(starts_with_prefix(&vip, &SYNTHETIC_PREFIX));
        assert!(!starts_with_prefix(&vip, &PROXY_SRC_PREFIX));
    }
    assert_ne!(client_vip_from_id24(0x1_0000), synthetic_ipv6(1));
    assert_ne!(client_vip_from_id24(2), synthetic_ipv6(1));
    assert_ne!(client_vip_from_id24(1), synthetic_ipv6(2));
    assert_eq!(client_vip_from_id24(1), synthetic_ipv6(1));
    assert_ne!(synthetic_ipv6(1), synthetic_ipv6(2));
    assert_ne!(client_vip_from_id24(1), client_vip_from_id24(2));
}

#[test]
fn decoding_accepts_only_encodings() {
    let key = ProxySrcKey { prince_key: [5; 16], siphash_key: [6; 16] };
    let ctx = ProxySrcCtx::new(1234, 443, 6);
    let addr = encode_proxy_src(10, 20, &ctx, &key).unwrap();
    assert_ne!(addr, encode_proxy_src(20, 10, &ctx, &key).unwrap());
    assert_eq!(decode_proxy_src(&addr, &ctx, &key), Some((10, 20)));
    for i in 4..16 {
        let mut changed = addr;
        changed[i] ^= 0x10;
        if let Some((c, d)) = decode_proxy_src(&changed, &ctx, &key) {
            assert_eq!(encode_proxy_src(c, d, &ctx, &key), Some(changed));
        }
    }
    // The prefix takes no part in decoding.
    let mut other_prefix = addr;
    other_prefix[0] = 0xfd;
    assert_eq!(decode_proxy_src(&other_prefix, &ctx, &key), Some((10, 20)));
}
