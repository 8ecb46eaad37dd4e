//! Proxy-source keys as configuration gives them: 64 hexadecimal characters.

use vstd::prelude::*;
use vstd::utf8::encode_utf8;

use crate::numbers::append_hex;
use crate::numbers::hex_text;
use crate::numbers::hex_worth;
use crate::numbers::law_hex_text_counts_up_to_byte;
use crate::text::trim;
use crate::text::trimmed;
use crate::types::ProxySrcKey;

verus! {

/// The length of a key as text, in bytes.
pub const KEY_HEX_LEN: usize = 64;

/// Why a text is no key.
#[derive(Clone, Copy, PartialEq, Eq, Structural, Debug)]
pub enum KeyError {
    /// The trimmed text has this many bytes in place of 64.
    Length(usize),
    /// The two bytes at this position are not both hexadecimal digits.
    InvalidHex { position: usize },
    /// Every byte of the key is zero.
    AllZero,
}

/// The value of a hexadecimal digit.
pub open spec fn hex_value(b: u8) -> Option<u8> {
    if 0x30 <= b <= 0x39 {
        Some((b - 0x30) as u8)
    } else if 0x61 <= b <= 0x66 {
        Some((b - 0x61 + 10) as u8)
    } else if 0x41 <= b <= 0x46 {
        Some((b - 0x41 + 10) as u8)
    } else {
        None
    }
}

/// The value of two hexadecimal digits. A sign is no digit.
pub open spec fn pair_value(first: u8, second: u8) -> Option<u8> {
    match (hex_value(first), hex_value(second)) {
        (Some(high), Some(low)) => Some((high * 16 + low) as u8),
        _ => None,
    }
}

/// The bytes of a key text, without the whitespace around it.
pub open spec fn key_text(text: Seq<char>) -> Seq<u8> {
    encode_utf8(trimmed(text))
}

/// The value of pair `i`.
pub open spec fn pair_at(bytes: Seq<u8>, i: int) -> Option<u8> {
    pair_value(bytes[2 * i], bytes[2 * i + 1])
}

/// The first `n` pairs are hexadecimal digits.
pub open spec fn pairs_valid(bytes: Seq<u8>, n: int) -> bool {
    forall|i: int| 0 <= i < n ==> #[trigger] pair_at(bytes, i) is Some
}

/// What a text says as a key: the key's 32 bytes, or why there is none. An all-zero key is
/// not looked for here.
pub open spec fn key_bytes_of(text: Seq<char>) -> Result<Seq<u8>, KeyError> {
    let bytes = key_text(text);
    if bytes.len() != KEY_HEX_LEN {
        Err(KeyError::Length(bytes.len() as usize))
    } else if pairs_valid(bytes, 32) {
        Ok(Seq::new(32, |i: int| pair_at(bytes, i)->0))
    } else {
        Err(
            KeyError::InvalidHex {
                position: (2 * first_invalid_pair(bytes, 0)) as usize,
            },
        )
    }
}

/// The first of the 32 pairs from `from` on that is not two hexadecimal digits.
pub open spec fn first_invalid_pair(bytes: Seq<u8>, from: int) -> int
    decreases 32 - from,
{
    if from < 32 && pair_at(bytes, from) is Some {
        first_invalid_pair(bytes, from + 1)
    } else {
        from
    }
}

/// The bytes of a key, the PRINCE half first.
pub open spec fn key_as_bytes(key: ProxySrcKey) -> Seq<u8> {
    key.prince_key@ + key.siphash_key@
}

/// The value of a hexadecimal digit.
fn hex_digit(b: u8) -> (value: Option<u8>)
    ensures
        value == hex_value(b),
{
    if 0x30 <= b && b <= 0x39 {
        Some(b - 0x30)
    } else if 0x61 <= b && b <= 0x66 {
        Some(b - 0x61 + 10)
    } else if 0x41 <= b && b <= 0x46 {
        Some(b - 0x41 + 10)
    } else {
        None
    }
}

/// The value of two hexadecimal digits.
fn hex_pair(first: u8, second: u8) -> (value: Option<u8>)
    ensures
        value == pair_value(first, second),
{
    match (hex_digit(first), hex_digit(second)) {
        (Some(high), Some(low)) => Some(high * 16 + low),
        _ => None,
    }
}

/// Read the 32 bytes of a key. An all-zero key is read like any other.
pub fn parse_key_bytes(text: &str) -> (key: Result<ProxySrcKey, KeyError>)
    ensures
        key matches Ok(k) ==> key_bytes_of(text@) == Ok::<Seq<u8>, KeyError>(key_as_bytes(k)),
        key matches Err(e) ==> key_bytes_of(text@) == Err::<Seq<u8>, KeyError>(e),
{
    let inner: &str = trim(text);
    let bytes: &[u8] = inner.as_bytes();
    if bytes.len() != KEY_HEX_LEN {
        return Err(KeyError::Length(bytes.len()));
    }
    let mut prince_key: [u8; 16] = [0; 16];
    let mut siphash_key: [u8; 16] = [0; 16];
    let mut i: usize = 0;
    while i < 32
        invariant
            i <= 32,
            bytes@ == key_text(text@),
            bytes@.len() == KEY_HEX_LEN,
            pairs_valid(bytes@, i as int),
            first_invalid_pair(bytes@, 0) == first_invalid_pair(bytes@, i as int),
            forall|j: int|
                0 <= j < 16 && j < i ==> prince_key@[j] == (#[trigger] pair_at(bytes@, j))->0,
            forall|j: int|
                16 <= j < i ==> siphash_key@[j - 16] == (#[trigger] pair_at(bytes@, j))->0,
        decreases 32 - i,
    {
        match hex_pair(bytes[2 * i], bytes[2 * i + 1]) {
            Some(value) => {
                assert(pair_at(bytes@, i as int) == Some(value));
                if i < 16 {
                    prince_key[i] = value;
                } else {
                    siphash_key[i - 16] = value;
                }
            },
            None => {
                assert(pair_at(bytes@, i as int) is None);
                return Err(KeyError::InvalidHex { position: 2 * i });
            },
        }
        i = i + 1;
    }
    let key = ProxySrcKey { prince_key, siphash_key };
    assert(key_as_bytes(key) =~= Seq::new(32, |j: int| pair_at(bytes@, j)->0));
    Ok(key)
}

/// Read a key. An all-zero key is refused.
pub fn parse_proxy_key_hex(text: &str) -> (key: Result<ProxySrcKey, KeyError>)
    ensures
        match key_bytes_of(text@) {
            Ok(bytes) => match key {
                Ok(k) => key_as_bytes(k) == bytes && !k.all_zero(),
                Err(e) => e == KeyError::AllZero && bytes == Seq::new(32, |i: int| 0u8),
            },
            Err(e) => key == Err::<ProxySrcKey, KeyError>(e),
        },
{
    let key: ProxySrcKey = match parse_key_bytes(text) {
        Ok(key) => key,
        Err(e) => return Err(e),
    };
    if key.is_zero() {
        assert forall|i: int| 0 <= i < 32 implies #[trigger] key_as_bytes(key)[i] == 0 by {
            assert(key.zero_at(if i < 16 {
                i
            } else {
                i - 16
            }));
        }
        assert(key_as_bytes(key) =~= Seq::new(32, |i: int| 0u8));
        return Err(KeyError::AllZero);
    }
    Ok(key)
}

/// A text is read as a key exactly if, without the whitespace around it, it is 64 bytes long
/// and every one of them is a hexadecimal digit.
pub proof fn law_keys_are_64_hex_digits(text: Seq<char>)
    ensures
        key_bytes_of(text) is Ok <==> {
            &&& key_text(text).len() == KEY_HEX_LEN
            &&& forall|j: int|
                0 <= j < KEY_HEX_LEN ==> hex_value(#[trigger] key_text(text)[j]) is Some
        },
{
    let bytes = key_text(text);
    if pairs_valid(bytes, 32) {
        assert forall|j: int| 0 <= j < KEY_HEX_LEN implies hex_value(#[trigger] bytes[j])
            is Some by {
            assert(pair_at(bytes, j / 2) is Some);
        }
    }
}

/// The exclusive or of bytes `lane`, `lane + 4`, `lane + 8` and so on below `n` of both
/// halves of a key.
pub open spec fn folded(key: ProxySrcKey, lane: int, n: int) -> u8
    decreases n,
{
    if n <= 0 {
        0
    } else if (n - 1) % 4 == lane {
        folded(key, lane, n - 1) ^ key.prince_key[n - 1] ^ key.siphash_key[n - 1]
    } else {
        folded(key, lane, n - 1)
    }
}

/// The fingerprint of a key: its four lanes as hexadecimal digits.
pub open spec fn fingerprint_text(key: ProxySrcKey) -> Seq<char> {
    hex_text(folded(key, 0, 16)) + hex_text(folded(key, 1, 16)) + hex_text(folded(key, 2, 16))
        + hex_text(folded(key, 3, 16))
}

/// A short mark by which a key can be told from others in a log.
pub fn key_fingerprint(key: &ProxySrcKey) -> (text: String)
    ensures
        text@ == fingerprint_text(*key),
        text@ == hex_text(folded(*key, 0, 16)) + hex_text(folded(*key, 1, 16)) + hex_text(
            folded(*key, 2, 16),
        ) + hex_text(folded(*key, 3, 16)),
{
    let mut fp: [u8; 4] = [0; 4];
    let mut i: usize = 0;
    while i < 16
        invariant
            i <= 16,
            forall|lane: int|
                0 <= lane < 4 ==> #[trigger] fp@[lane] == folded(*key, lane, i as int),
        decreases 16 - i,
    {
        let lane: usize = i % 4;
        fp[lane] = fp[lane] ^ key.prince_key[i] ^ key.siphash_key[i];
        i = i + 1;
    }
    let mut text: String = String::new();
    append_hex(&mut text, fp[0]);
    append_hex(&mut text, fp[1]);
    append_hex(&mut text, fp[2]);
    append_hex(&mut text, fp[3]);
    assert(text@ =~= hex_text(fp[0]) + hex_text(fp[1]) + hex_text(fp[2]) + hex_text(fp[3]));
    text
}

/// A byte is the hexadecimal digit with value `v`, by its number: 48 to 57 for the digits, from
/// 97 or from 65 on for the letters.
pub open spec fn is_hex_digit(b: u8, v: int) -> bool {
    if 0 <= v < 10 {
        b == 48 + v
    } else {
        10 <= v < 16 && (b == 87 + v || b == 55 + v)
    }
}

/// A byte has a value as a digit just if it is the digit with that value.
pub proof fn law_hex_value_by_number(b: u8, v: u8)
    ensures
        hex_value(b) == Some(v) <==> is_hex_digit(b, v as int),
        hex_value(b) is None <==> forall|w: int| !#[trigger] is_hex_digit(b, w),
{
    if hex_value(b) is Some {
        assert(is_hex_digit(b, hex_value(b)->0 as int));
    }
}

/// Sixty-four digits are read as the thirty-two bytes that they write, the higher digit of
/// each byte first, whatever the case of the letters and the whitespace around.
pub proof fn law_key_digits_write_bytes(text: Seq<char>, bytes: Seq<u8>)
    requires
        bytes.len() == 32,
        encode_utf8(trimmed(text)).len() == 64,
        forall|i: int|
            0 <= i < 32 ==> is_hex_digit(
                encode_utf8(trimmed(text))[2 * i],
                (#[trigger] bytes[i]) as int / 16,
            ) && is_hex_digit(encode_utf8(trimmed(text))[2 * i + 1], bytes[i] as int % 16),
    ensures
        key_bytes_of(text) == Ok::<Seq<u8>, KeyError>(bytes),
{
    let digits = encode_utf8(trimmed(text));
    assert forall|i: int| 0 <= i < 32 implies #[trigger] pair_at(digits, i) == Some(bytes[i]) by {
        law_hex_value_by_number(digits[2 * i], bytes[i] / 16);
        law_hex_value_by_number(digits[2 * i + 1], bytes[i] % 16);
    }
    assert(pairs_valid(digits, 32));
    assert(Seq::new(32, |i: int| pair_at(digits, i)->0) =~= bytes);
}

/// Why a text is no key: it has another length than sixty-four, which is reported; or the two
/// bytes at an even position are not both digits while all bytes before them are, and that
/// position is reported.
pub proof fn law_key_errors_by_bytes(text: Seq<char>)
    requires
        encode_utf8(trimmed(text)).len() <= usize::MAX,
    ensures
        ({
            let b = encode_utf8(trimmed(text));
            match key_bytes_of(text) {
                Ok(bytes) => {
                    &&& b.len() == 64
                    &&& bytes.len() == 32
                    &&& forall|i: int|
                        0 <= i < 32 ==> is_hex_digit(b[2 * i], (#[trigger] bytes[i]) as int / 16)
                            && is_hex_digit(b[2 * i + 1], bytes[i] as int % 16)
                },
                Err(KeyError::Length(n)) => b.len() != 64 && n == b.len(),
                Err(KeyError::InvalidHex { position }) => {
                    &&& b.len() == 64
                    &&& position < 64 && position % 2 == 0
                    &&& forall|j: int| 0 <= j < position ==> hex_value(#[trigger] b[j]) is Some
                    &&& hex_value(b[position as int]) is None || hex_value(b[position + 1]) is None
                },
                Err(KeyError::AllZero) => false,
            }
        }),
{
    let b = encode_utf8(trimmed(text));
    if b.len() == 64 {
        if pairs_valid(b, 32) {
            let bytes = key_bytes_of(text)->Ok_0;
            assert forall|i: int| 0 <= i < 32 implies is_hex_digit(
                b[2 * i],
                (#[trigger] bytes[i]) as int / 16,
            ) && is_hex_digit(b[2 * i + 1], bytes[i] as int % 16) by {
                assert(pair_at(b, i) is Some);
                let (high, low) = (hex_value(b[2 * i])->0, hex_value(b[2 * i + 1])->0);
                law_hex_value_by_number(b[2 * i], high);
                law_hex_value_by_number(b[2 * i + 1], low);
                assert(bytes[i] == high * 16 + low);
                assert(bytes[i] as int / 16 == high && bytes[i] as int % 16 == low);
            }
        } else {
            lemma_first_invalid_pair(b, 0);
            let first = first_invalid_pair(b, 0);
            assert forall|j: int| 0 <= j < 2 * first implies hex_value(#[trigger] b[j]) is Some by {
                assert(pair_at(b, j / 2) is Some);
            }
        }
    }
}

/// All pairs before the first invalid one are valid.
proof fn lemma_first_invalid_pair(bytes: Seq<u8>, from: int)
    requires
        0 <= from <= 32,
        pairs_valid(bytes, from),
        !pairs_valid(bytes, 32),
    ensures
        from <= first_invalid_pair(bytes, from) < 32,
        pairs_valid(bytes, first_invalid_pair(bytes, from)),
        pair_at(bytes, first_invalid_pair(bytes, from)) is None,
    decreases 32 - from,
{
    if from < 32 && pair_at(bytes, from) is Some {
        lemma_first_invalid_pair(bytes, from + 1);
    }
}

/// The first sixteen bytes of a key are its PRINCE half, the others its SipHash half.
pub proof fn law_key_halves(key: ProxySrcKey, i: int)
    requires
        0 <= i < 16,
    ensures
        key_as_bytes(key).len() == 32,
        key_as_bytes(key)[i] == key.prince_key@[i],
        key_as_bytes(key)[16 + i] == key.siphash_key@[i],
{
}

/// The byte of a fingerprint in a lane is the exclusive or of every fourth byte of both halves
/// of the key, from the lane on. The fingerprint writes the four of them in order, two digits
/// each.
pub proof fn law_fingerprint_by_bytes(key: ProxySrcKey, lane: int)
    requires
        0 <= lane < 4,
    ensures
        ({
            let (p, s) = (key.prince_key@, key.siphash_key@);
            let text = fingerprint_text(key);
            &&& text.len() == 8
            &&& hex_worth(text[2 * lane]) >= 0 && hex_worth(text[2 * lane + 1]) >= 0
            &&& 16 * hex_worth(text[2 * lane]) + hex_worth(text[2 * lane + 1]) == p[lane] ^ s[lane]
                ^ p[lane + 4] ^ s[lane + 4] ^ p[lane + 8] ^ s[lane + 8] ^ p[lane + 12] ^ s[lane
                + 12]
        }),
{
    reveal_with_fuel(folded, 17);
    let first = key.prince_key[lane];
    assert(0u8 ^ first == first) by (bit_vector);
    law_hex_text_counts_up_to_byte(folded(key, lane, 16));
    assert(fingerprint_text(key)[2 * lane] == hex_text(folded(key, lane, 16))[0]);
    assert(fingerprint_text(key)[2 * lane + 1] == hex_text(folded(key, lane, 16))[1]);
}

/// Reading a key gives the bytes that its sixty-four digits write, the first sixteen as the
/// PRINCE half. Only a key of zeros is refused for what it says.
pub proof fn law_key_reader_by_digits(
    text: &str,
    bytes: Seq<u8>,
    key: Result<ProxySrcKey, KeyError>,
    any: Result<ProxySrcKey, KeyError>,
    i: int,
)
    requires
        call_ensures(parse_proxy_key_hex, (text,), key),
        call_ensures(parse_key_bytes, (text,), any),
        0 <= i < 16,
        bytes.len() == 32,
        encode_utf8(trimmed(text@)).len() == 64,
        forall|j: int|
            0 <= j < 32 ==> is_hex_digit(
                encode_utf8(trimmed(text@))[2 * j],
                (#[trigger] bytes[j]) as int / 16,
            ) && is_hex_digit(encode_utf8(trimmed(text@))[2 * j + 1], bytes[j] as int % 16),
    ensures
        any matches Ok(k) && k.prince_key@[i] == bytes[i] && k.siphash_key@[i] == bytes[16 + i],
        key is Ok <==> exists|j: int| 0 <= j < 32 && #[trigger] bytes[j] != 0,
        key matches Ok(k) ==> k.prince_key@[i] == bytes[i] && k.siphash_key@[i] == bytes[16 + i],
        key matches Err(e) ==> e == KeyError::AllZero,
{
    law_key_digits_write_bytes(text@, bytes);
    if let Ok(k) = any {
        law_key_halves(k, i);
    }
    if let Ok(k) = key {
        law_key_halves(k, i);
        let z = choose|z: int| 0 <= z < 16 && !#[trigger] k.zero_at(z);
        law_key_halves(k, z);
        if k.prince_key@[z] != 0 {
            assert(bytes[z] != 0);
        } else {
            assert(bytes[16 + z] != 0);
        }
    }
}

/// The mark of a key is eight digits that tell, two by two, the exclusive or of every fourth
/// byte of both halves.
pub proof fn law_key_mark_by_bytes(key: &ProxySrcKey, text: String, lane: int)
    requires
        call_ensures(key_fingerprint, (key,), text),
        0 <= lane < 4,
    ensures
        ({
            let (p, s) = (key.prince_key@, key.siphash_key@);
            &&& text@.len() == 8
            &&& 16 * hex_worth(text@[2 * lane]) + hex_worth(text@[2 * lane + 1]) == p[lane]
                ^ s[lane] ^ p[lane + 4] ^ s[lane + 4] ^ p[lane + 8] ^ s[lane + 8] ^ p[lane + 12]
                ^ s[lane + 12]
        }),
{
    law_fingerprint_by_bytes(*key, lane);
}

} // verus!
