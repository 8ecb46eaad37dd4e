//! Numbers as text.

use vstd::prelude::*;

use crate::text::chars_of;

verus! {

/// A decimal digit.
pub open spec fn is_digit(c: char) -> bool {
    '0' <= c <= '9'
}

/// All characters are decimal digits.
pub open spec fn all_digits(text: Seq<char>) -> bool {
    forall|i: int| 0 <= i < text.len() ==> is_digit(#[trigger] text[i])
}

/// The number that a string of digits stands for.
pub open spec fn magnitude(digits: Seq<char>) -> nat
    decreases digits.len(),
{
    if digits.len() == 0 {
        0
    } else {
        (magnitude(digits.drop_last()) * 10 + (digits.last() as u32 - '0' as u32)) as nat
    }
}

/// The number that a text of one or more digits and nothing else stands for.
pub open spec fn decimal(text: Seq<char>) -> Option<nat> {
    if text.len() > 0 && all_digits(text) {
        Some(magnitude(text))
    } else {
        None
    }
}

/// The number that a text stands for: digits, with or without a plus sign in front.
pub open spec fn unsigned_text(text: Seq<char>) -> Option<nat> {
    if text.len() > 0 && text[0] == '+' {
        decimal(text.subrange(1, text.len() as int))
    } else {
        decimal(text)
    }
}

/// The number that a text stands for: digits, with or without a sign in front.
pub open spec fn signed_text(text: Seq<char>) -> Option<int> {
    if text.len() > 0 && text[0] == '-' {
        match decimal(text.subrange(1, text.len() as int)) {
            Some(n) => Some(-n),
            None => None,
        }
    } else {
        match unsigned_text(text) {
            Some(n) => Some(n as int),
            None => None,
        }
    }
}

/// Read the digits from `from` on.
fn parse_digits(chars: &Vec<char>, from: usize) -> (n: Option<u64>)
    requires
        from <= chars@.len(),
    ensures
        match decimal(chars@.subrange(from as int, chars@.len() as int)) {
            Some(v) => if v <= u64::MAX {
                n == Some(v as u64)
            } else {
                n is None
            },
            None => n is None,
        },
{
    let ghost digits = chars@.subrange(from as int, chars@.len() as int);
    if from == chars.len() {
        return None;
    }
    let mut acc: u64 = 0;
    let mut overflow: bool = false;
    let mut i: usize = from;
    while i < chars.len()
        invariant
            from <= i <= chars.len(),
            digits == chars@.subrange(from as int, chars@.len() as int),
            all_digits(digits.take(i - from)),
            !overflow ==> acc == magnitude(digits.take(i - from)),
            overflow ==> magnitude(digits.take(i - from)) > u64::MAX,
        decreases chars.len() - i,
    {
        let c: char = chars[i];
        let ghost k = i - from;
        assert(digits[k] == c);
        if !('0' <= c && c <= '9') {
            return None;
        }
        let d: u64 = c as u64 - '0' as u64;
        assert(digits.take(k + 1).drop_last() =~= digits.take(k));
        assert(digits.take(k + 1) =~= digits.take(k).push(c));
        if !overflow {
            if acc > (u64::MAX - d) / 10 {
                overflow = true;
            } else {
                acc = acc * 10 + d;
            }
        }
        i = i + 1;
    }
    assert(digits.take(i - from) =~= digits);
    if overflow {
        None
    } else {
        Some(acc)
    }
}

/// Read an unsigned number that fits in 64 bits.
pub fn parse_u64(text: &str) -> (n: Option<u64>)
    ensures
        match unsigned_text(text@) {
            Some(v) => if v <= u64::MAX {
                n == Some(v as u64)
            } else {
                n is None
            },
            None => n is None,
        },
{
    let chars: Vec<char> = chars_of(text);
    if chars.len() > 0 && chars[0] == '+' {
        parse_digits(&chars, 1)
    } else {
        assert(text@.subrange(0, text@.len() as int) =~= text@);
        parse_digits(&chars, 0)
    }
}

/// Read an unsigned number that fits in 32 bits.
pub fn parse_u32(text: &str) -> (n: Option<u32>)
    ensures
        match unsigned_text(text@) {
            Some(v) => if v <= u32::MAX {
                n == Some(v as u32)
            } else {
                n is None
            },
            None => n is None,
        },
{
    match parse_u64(text) {
        Some(v) => {
            if v <= u32::MAX as u64 {
                Some(v as u32)
            } else {
                None
            }
        },
        None => None,
    }
}

/// Read an unsigned number that fits in a machine word.
pub fn parse_usize(text: &str) -> (n: Option<usize>)
    ensures
        match unsigned_text(text@) {
            Some(v) => if v <= usize::MAX {
                n == Some(v as usize)
            } else {
                n is None
            },
            None => n is None,
        },
{
    match parse_u64(text) {
        Some(v) => {
            if v <= usize::MAX as u64 {
                Some(v as usize)
            } else {
                None
            }
        },
        None => None,
    }
}

/// Read a signed number that fits in 32 bits.
pub fn parse_i32(text: &str) -> (n: Option<i32>)
    ensures
        match signed_text(text@) {
            Some(v) => if i32::MIN <= v <= i32::MAX {
                n == Some(v as i32)
            } else {
                n is None
            },
            None => n is None,
        },
{
    let chars: Vec<char> = chars_of(text);
    if chars.len() > 0 && chars[0] == '-' {
        match parse_digits(&chars, 1) {
            Some(v) => {
                if v <= 0x8000_0000 {
                    Some((-(v as i64)) as i32)
                } else {
                    None
                }
            },
            None => None,
        }
    } else {
        match parse_u64(text) {
            Some(v) => {
                if v <= 0x7fff_ffff {
                    Some(v as i32)
                } else {
                    None
                }
            },
            None => None,
        }
    }
}

/// A signed number as the unsigned one with the same bits.
pub open spec fn same_bits(n: i32) -> u32 {
    if n < 0 {
        (n + 0x1_0000_0000) as u32
    } else {
        n as u32
    }
}

/// Take a signed number as the unsigned one with the same bits.
pub fn as_unsigned(n: i32) -> (u: u32)
    ensures
        u == same_bits(n),
{
    if n < 0 {
        ((n as i64) + 0x1_0000_0000) as u32
    } else {
        n as u32
    }
}

// ---------------------------------------------------------------------------
// Writing
// ---------------------------------------------------------------------------

/// The digit with a given value, in bases up to sixteen.
pub open spec fn digit_char(value: nat) -> char {
    if value < 10 {
        ('0' as u32 + value) as char
    } else {
        ('a' as u32 + (value - 10)) as char
    }
}

/// A number in decimal notation.
pub open spec fn decimal_text(n: nat) -> Seq<char>
    decreases n,
{
    if n < 10 {
        seq![digit_char(n)]
    } else {
        decimal_text(n / 10).push(digit_char(n % 10))
    }
}

/// A byte as two hexadecimal digits.
pub open spec fn hex_text(byte: u8) -> Seq<char> {
    seq![digit_char((byte / 16) as nat), digit_char((byte % 16) as nat)]
}

/// The hexadecimal digits, in order.
pub const DIGITS: &'static str = "0123456789abcdef";

/// The digit with a given value as a text.
fn digit(value: usize) -> (piece: &'static str)
    requires
        value < 16,
    ensures
        piece@ == seq![digit_char(value as nat)],
{
    proof {
        reveal_strlit("0123456789abcdef");
    }
    let piece: &'static str = DIGITS.substring_char(value, value + 1);
    assert(piece@ =~= seq![digit_char(value as nat)]);
    piece
}

/// Write a number in decimal notation.
pub fn to_decimal(n: u32) -> (text: String)
    ensures
        text@ == decimal_text(n as nat),
    decreases n,
{
    if n < 10 {
        let text: String = String::from_str(digit(n as usize));
        text
    } else {
        let mut text: String = to_decimal(n / 10);
        text.append(digit((n % 10) as usize));
        assert(text@ =~= decimal_text((n / 10) as nat).push(digit_char((n % 10) as nat)));
        text
    }
}

/// Append a byte as two hexadecimal digits.
pub fn append_hex(text: &mut String, byte: u8)
    ensures
        final(text)@ == old(text)@ + hex_text(byte),
{
    text.append(digit((byte / 16) as usize));
    text.append(digit((byte % 16) as usize));
    assert(text@ =~= old(text)@ + hex_text(byte));
}

// ---------------------------------------------------------------------------
// Laws
// ---------------------------------------------------------------------------

/// All characters are among the ten from code point 48 to 57.
pub open spec fn ten_digits(text: Seq<char>) -> bool {
    forall|i: int| 0 <= i < text.len() ==> 48 <= (#[trigger] text[i]) as u32 <= 57
}

/// A text is a number just if it is made of one or more digits, after one plus sign at most;
/// with a sign allowed, after one plus or minus sign at most.
pub proof fn law_texts_that_are_numbers(text: Seq<char>, digits: Seq<char>)
    requires
        text.len() > 0 ==> text[0] as u32 != 43 && text[0] as u32 != 45,
    ensures
        unsigned_text(text) is Some <==> text.len() > 0 && ten_digits(text),
        unsigned_text(seq!['+'] + digits) is Some <==> digits.len() > 0 && ten_digits(digits),
        unsigned_text(seq!['-'] + digits) is None,
        signed_text(text) is Some <==> text.len() > 0 && ten_digits(text),
        signed_text(seq!['+'] + digits) is Some <==> digits.len() > 0 && ten_digits(digits),
        signed_text(seq!['-'] + digits) is Some <==> digits.len() > 0 && ten_digits(digits),
{
    lemma_ten_digits(text);
    lemma_ten_digits(digits);
    let plus = seq!['+'] + digits;
    let minus = seq!['-'] + digits;
    assert(plus.subrange(1, plus.len() as int) =~= digits);
    assert(minus.subrange(1, minus.len() as int) =~= digits);
    assert(minus[0] == '-' && !is_digit(minus[0]));
}

/// The digits have the code points from 48 to 57.
proof fn lemma_digit_codes(c: char)
    ensures
        is_digit(c) <==> 48 <= c as u32 <= 57,
{
}

/// The digits are the ten characters from `0` to `9`.
proof fn lemma_ten_digits(text: Seq<char>)
    ensures
        all_digits(text) == ten_digits(text),
{
    if all_digits(text) {
        assert forall|i: int| 0 <= i < text.len() implies 48 <= (#[trigger] text[i]) as u32
            <= 57 by {
            assert(is_digit(text[i]));
        }
    }
    if ten_digits(text) {
        assert forall|i: int| 0 <= i < text.len() implies is_digit(#[trigger] text[i]) by {
            lemma_digit_codes(text[i]);
        }
    }
}

/// What a digit adds: one digit is its own value, and a digit behind a number makes ten times
/// the number plus the digit. A plus sign in front changes nothing, a minus sign the sign.
pub proof fn law_number_digit_by_digit(digits: Seq<char>, d: char)
    requires
        digits.len() > 0,
        ten_digits(digits),
        48 <= d as u32 <= 57,
    ensures
        unsigned_text(seq![d]) == Some((d as u32 - 48) as nat),
        unsigned_text(digits) is Some,
        unsigned_text(digits.push(d)) == Some(
            (10 * unsigned_text(digits)->Some_0 + (d as u32 - 48)) as nat,
        ),
        unsigned_text(seq!['+'] + digits) == unsigned_text(digits),
        signed_text(digits) == Some(unsigned_text(digits)->Some_0 as int),
        signed_text(seq!['+'] + digits) == signed_text(digits),
        signed_text(seq!['-'] + digits) == Some(-unsigned_text(digits)->Some_0),
{
    reveal_with_fuel(magnitude, 2);
    let one = seq![d];
    let more = digits.push(d);
    lemma_ten_digits(digits);
    assert(ten_digits(one));
    lemma_ten_digits(one);
    assert(ten_digits(more));
    lemma_ten_digits(more);
    assert(digits[0] as u32 >= 48);
    assert(more[0] == digits[0]);
    assert(one.drop_last() =~= Seq::<char>::empty());
    assert(more.drop_last() =~= digits);
    let plus = seq!['+'] + digits;
    let minus = seq!['-'] + digits;
    assert(plus.subrange(1, plus.len() as int) =~= digits);
    assert(minus.subrange(1, minus.len() as int) =~= digits);
}

/// A number that is written is read back as itself: without a sign and with either sign.
pub proof fn law_written_number_reads_back(n: nat)
    ensures
        unsigned_text(decimal_text(n)) == Some(n),
        unsigned_text(seq!['+'] + decimal_text(n)) == Some(n),
        signed_text(decimal_text(n)) == Some(n as int),
        signed_text(seq!['-'] + decimal_text(n)) == Some(-(n as int)),
    decreases n,
{
    law_written_number_has_no_padding(n);
    let text = decimal_text(n);
    let d = digit_char(n % 10);
    if n < 10 {
        law_number_digit_by_digit(text, d);
        assert(text =~= seq![d]);
    } else {
        law_written_number_reads_back(n / 10);
        law_written_number_has_no_padding(n / 10);
        law_number_digit_by_digit(decimal_text(n / 10), d);
        law_number_digit_by_digit(text, d);
    }
}

/// A written number is made of digits only, one at least, and begins with zero only if it is
/// zero: there is one way to write a number.
pub proof fn law_written_number_has_no_padding(n: nat)
    ensures
        decimal_text(n).len() > 0,
        ten_digits(decimal_text(n)),
        decimal_text(n)[0] as u32 == 48 <==> n == 0,
        n == 0 ==> decimal_text(n).len() == 1,
    decreases n,
{
    let d = digit_char(n % 10);
    assert(d as u32 == 48 + n % 10);
    if n >= 10 {
        law_written_number_has_no_padding(n / 10);
        let front = decimal_text(n / 10);
        assert(decimal_text(n) == front.push(d));
        assert forall|i: int| 0 <= i < front.push(d).len() implies 48 <= (#[trigger] front.push(
            d,
        )[i]) as u32 <= 57 by {
            if i < front.len() {
                assert(front.push(d)[i] == front[i]);
            }
        }
    }
}

/// Two different numbers are never written alike.
pub proof fn law_written_numbers_differ(a: nat, b: nat)
    requires
        decimal_text(a) == decimal_text(b),
    ensures
        a == b,
{
    law_written_number_reads_back(a);
    law_written_number_reads_back(b);
}

/// Taking a signed number as unsigned changes it by a multiple of two to the thirty-second.
pub proof fn law_same_bits_congruent(n: i32)
    ensures
        (same_bits(n) - n) % 0x1_0000_0000 == 0,
        n >= 0 ==> same_bits(n) == n,
{
}

/// What a hexadecimal digit in lower case counts, by its code point.
pub open spec fn hex_worth(c: char) -> int {
    let u = c as u32;
    if 48 <= u <= 57 {
        u - 48
    } else if 97 <= u <= 102 {
        u - 87
    } else {
        -1
    }
}

/// A byte is written as two digits, the higher one first, that count up to the byte.
pub proof fn law_hex_text_counts_up_to_byte(byte: u8)
    ensures
        hex_text(byte).len() == 2,
        hex_worth(hex_text(byte)[0]) >= 0,
        hex_worth(hex_text(byte)[1]) >= 0,
        16 * hex_worth(hex_text(byte)[0]) + hex_worth(hex_text(byte)[1]) == byte,
{
}

/// The readers give back every number that fits, and nothing for one that does not.
pub proof fn law_readers_give_back_numbers(
    text: &str,
    n: nat,
    long: Option<u64>,
    short: Option<u32>,
    word: Option<usize>,
    signed: Option<i32>,
)
    requires
        text@ == decimal_text(n),
        call_ensures(parse_u64, (text,), long),
        call_ensures(parse_u32, (text,), short),
        call_ensures(parse_usize, (text,), word),
        call_ensures(parse_i32, (text,), signed),
    ensures
        long == if n <= 0xffff_ffff_ffff_ffff {
            Some(n as u64)
        } else {
            None::<u64>
        },
        short == if n <= 0xffff_ffff {
            Some(n as u32)
        } else {
            None::<u32>
        },
        word == if n <= usize::MAX {
            Some(n as usize)
        } else {
            None::<usize>
        },
        signed == if n <= 0x7fff_ffff {
            Some(n as i32)
        } else {
            None::<i32>
        },
{
    law_written_number_reads_back(n);
}

/// The signed reader gives back every negative number down to the smallest.
pub proof fn law_reader_gives_back_negative_numbers(text: &str, n: nat, signed: Option<i32>)
    requires
        text@ == seq!['-'] + decimal_text(n),
        call_ensures(parse_i32, (text,), signed),
    ensures
        signed == if n <= 0x8000_0000 {
            Some((-n) as i32)
        } else {
            None::<i32>
        },
{
    law_written_number_reads_back(n);
}

} // verus!
