use prototype_net::inspect::decode_address;
use prototype_net::inspect::parse_proto;
use prototype_net::inspect::DecodeError;
use prototype_net::keys::key_fingerprint;
use prototype_net::keys::parse_key_bytes;
use prototype_net::keys::parse_proxy_key_hex;
use prototype_net::keys::KeyError;
use prototype_net::numbers::as_unsigned;
use prototype_net::numbers::parse_i32;
use prototype_net::numbers::parse_u32;
use prototype_net::numbers::parse_u64;
use prototype_net::numbers::parse_usize;
use prototype_net::numbers::to_decimal;
use prototype_net::address::client_vip_from_id24;
use prototype_net::address::synthetic_ipv6;
use prototype_net::dataplane::packet::L4Proto;
use prototype_net::proxy_src::encode_proxy_src;
use prototype_net::text::contains;
use prototype_net::text::to_lower;
use prototype_net::text::trim;
use prototype_net::text::trim_trailing_dots;
use prototype_net::types::ProxySrcCtx;
use prototype_net::types::ProxySrcKey;

const HEX: &str = "000102030405060708090a0b0c0d0e0f101112131415161718191A1B1C1D1E1F";

#[test]
fn trim_agrees_with_std() {
    for text in [
        "", " ", "a", " a ", "\t\r\n a b \u{a0}\u{3000}", "\u{2028}x\u{200b}", "\u{85}é\u{1680}",
        "\u{180e}y\u{feff}", "\u{2000}\u{200a}\u{202f}\u{205f}z",
    ] {
        assert_eq!(trim(text), text.trim());
    }
}

#[test]
fn trailing_dots_and_case() {
    assert_eq!(trim_trailing_dots("example.com."), "example.com");
    assert_eq!(trim_trailing_dots("a..."), "a");
    assert_eq!(trim_trailing_dots("..."), "");
    assert_eq!(trim_trailing_dots(".a"), ".a");
    assert_eq!(to_lower("ExAmPle.COM-Z_az09"), "example.com-z_az09");
    assert_eq!(to_lower("\\195\\132"), "\\195\\132");
}

#[test]
fn contains_agrees_with_std() {
    let texts = ["", "a", "aab", "if_id_in = 42\n", "x — y", "ababac"];
    let patterns = ["", "a", "ab", "if_id_in = 4", "—", "abac", "ababacc", "y "];
    for t in texts {
        for p in patterns {
            assert_eq!(contains(t, p), t.contains(p));
        }
    }
}

#[test]
fn numbers_are_read_like_std_reads_them() {
    let texts = [
        "", "+", "-", "0", "7", "+7", "-7", "-0", "++7", "+-7", "007", " 7", "7 ", "7a", "2147483647",
        "2147483648", "-2147483648", "-2147483649", "4294967295", "4294967296",
        "18446744073709551615", "18446744073709551616", "99999999999999999999999999999999", "٣",
    ];
    for t in texts {
        assert_eq!(parse_i32(t), t.parse::<i32>().ok());
        assert_eq!(parse_u32(t), t.parse::<u32>().ok());
        assert_eq!(parse_u64(t), t.parse::<u64>().ok());
        assert_eq!(parse_usize(t), t.parse::<usize>().ok());
    }
}

#[test]
fn numbers_are_written_like_std_writes_them() {
    for n in [0u32, 9, 10, 42, 100, 4294967295] {
        assert_eq!(to_decimal(n), n.to_string());
    }
    for n in [0i32, 5, -1, i32::MIN, i32::MAX] {
        assert_eq!(as_unsigned(n), n as u32);
    }
}

#[test]
fn key_is_read_in_two_halves() {
    let key = parse_proxy_key_hex(&format!("  {}\n", HEX)).ok().unwrap();
    assert_eq!(key.prince_key, [0, 1, 2, 3, 4, 5, 6, 7, 8, 9, 10, 11, 12, 13, 14, 15]);
    assert_eq!(key.siphash_key, [16, 17, 18, 19, 20, 21, 22, 23, 24, 25, 26, 27, 28, 29, 30, 31]);
}

#[test]
fn key_length_is_checked_after_trimming() {
    assert_eq!(parse_proxy_key_hex("abc").err(), Some(KeyError::Length(3)));
    assert_eq!(parse_proxy_key_hex(" ").err(), Some(KeyError::Length(0)));
    // Bytes count, not characters.
    assert_eq!(parse_proxy_key_hex("éé").err(), Some(KeyError::Length(4)));
}

#[test]
fn key_digits_are_checked_in_order() {
    let bad = format!("00zz{}", "0".repeat(60));
    assert_eq!(parse_proxy_key_hex(&bad).err(), Some(KeyError::InvalidHex { position: 2 }));
    let minus = format!("{}-1", "0".repeat(62));
    assert_eq!(parse_proxy_key_hex(&minus).err(), Some(KeyError::InvalidHex { position: 62 }));
    // A sign is no digit.
    let plus = format!("+f{}", "0".repeat(62));
    assert_eq!(parse_proxy_key_hex(&plus).err(), Some(KeyError::InvalidHex { position: 0 }));
    let signs = "+1".repeat(32);
    assert_eq!(parse_proxy_key_hex(&signs).err(), Some(KeyError::InvalidHex { position: 0 }));
    assert_eq!(parse_key_bytes(&signs).err(), Some(KeyError::InvalidHex { position: 0 }));
    assert_eq!(
        decode_address(&signs, Some([0; 16]), 1, 2, "tcp").err(),
        Some(DecodeError::Key(KeyError::InvalidHex { position: 0 }))
    );
}

#[test]
fn all_zero_key_is_refused_by_the_daemon_only() {
    let zeros = "0".repeat(64);
    assert_eq!(parse_proxy_key_hex(&zeros).err(), Some(KeyError::AllZero));
    assert_eq!(parse_key_bytes(&zeros).ok().unwrap().prince_key, [0; 16]);
}

#[test]
fn key_text_beyond_ascii() {
    let error = |text: String| parse_proxy_key_hex(&text).err();
    // A character of two bytes in the place of a pair, across two pairs, across the last ones.
    let pair = format!("é{}", "0".repeat(62));
    assert_eq!(error(pair), Some(KeyError::InvalidHex { position: 0 }));
    let across = format!("0é{}", "0".repeat(61));
    assert_eq!(across.len(), 64);
    assert_eq!(error(across), Some(KeyError::InvalidHex { position: 0 }));
    let late = format!("{}—0", "0".repeat(60));
    assert_eq!(error(late), Some(KeyError::InvalidHex { position: 60 }));
    // A bad pair in front of it comes first.
    let after = format!("00zz0é{}", "0".repeat(57));
    assert_eq!(error(after), Some(KeyError::InvalidHex { position: 2 }));
    // 64 characters, but more bytes.
    assert_eq!(error("é".repeat(64)), Some(KeyError::Length(128)));
    assert!(parse_proxy_key_hex(HEX).is_ok());
}

#[test]
fn fingerprint_folds_the_key() {
    let key = parse_proxy_key_hex(HEX).ok().unwrap();
    assert_eq!(key_fingerprint(&key), "00000000");
    let mut other = key;
    other.prince_key[0] ^= 0xa5;
    other.siphash_key[7] ^= 0x0f;
    assert_eq!(key_fingerprint(&other), "a500000f");
}

#[test]
fn protocol_names() {
    assert_eq!(parse_proto("tcp"), Some(L4Proto::Tcp));
    assert_eq!(parse_proto("UDP"), Some(L4Proto::Udp));
    assert_eq!(parse_proto("Tcp"), Some(L4Proto::Tcp));
    assert_eq!(parse_proto("icmp"), None);
    assert_eq!(parse_proto(" tcp"), None);
}

#[test]
fn address_is_decoded_with_its_flow() {
    let key = parse_key_bytes(HEX).ok().unwrap();
    let addr = encode_proxy_src(77, 99, &ProxySrcCtx::new(50000, 443, 6), &key).unwrap();
    let decoded = decode_address(HEX, Some(addr), 50000, 443, "TCP").ok().unwrap();
    assert_eq!(decoded.client_id, 77);
    assert_eq!(decoded.domain_id, 99);
    assert_eq!(decoded.client_vip, client_vip_from_id24(77));
    assert_eq!(decoded.synthetic_addr, synthetic_ipv6(99));
    assert_eq!(
        decode_address(HEX, Some(addr), 50001, 443, "tcp").err(),
        Some(DecodeError::Failed)
    );
    assert_eq!(
        decode_address(HEX, Some(addr), 50000, 443, "udp").err(),
        Some(DecodeError::Failed)
    );
}

#[test]
fn decode_faults_in_order() {
    assert_eq!(
        decode_address("12", None, 1, 2, "x").err(),
        Some(DecodeError::Key(KeyError::Length(2)))
    );
    assert_eq!(decode_address(HEX, None, 1, 2, "x").err(), Some(DecodeError::Address));
    assert_eq!(decode_address(HEX, Some([0; 16]), 1, 2, "x").err(), Some(DecodeError::Protocol));
}

#[test]
fn zero_key_decodes_on_the_command_line() {
    let zero = ProxySrcKey { prince_key: [0; 16], siphash_key: [0; 16] };
    let addr = encode_proxy_src(1, 2, &ProxySrcCtx::new(3, 4, 17), &zero).unwrap();
    let decoded = decode_address(&"0".repeat(64), Some(addr), 3, 4, "udp").ok().unwrap();
    assert_eq!((decoded.client_id, decoded.domain_id), (1, 2));
}
