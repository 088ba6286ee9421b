//! Lower-case hexadecimal rendering of bytes, and its inverse.

use vstd::prelude::*;
use vstd::string::*;
use vstd::utf8::encode_utf8;

verus! {

/// The hexadecimal digit `d`, for `d < 16`.
pub open spec fn hex_char(d: nat) -> char {
    if d < 10 {
        (48 + d) as char
    } else {
        (87 + d) as char
    }
}

/// The value of a hexadecimal digit in either case, if `b` is one.
pub open spec fn hex_value(b: u8) -> Option<u8> {
    if 48 <= b <= 57 {
        Some((b - 48) as u8)
    } else if 97 <= b <= 102 {
        Some((b - 87) as u8)
    } else if 65 <= b <= 70 {
        Some((b - 55) as u8)
    } else {
        None
    }
}

/// Two lower-case digits for each byte, the high one first.
pub open spec fn hex_text(bytes: Seq<u8>) -> Seq<char> {
    Seq::new(
        2 * bytes.len(),
        |i: int|
            hex_char(
                if i % 2 == 0 {
                    (bytes[i / 2] / 16) as nat
                } else {
                    (bytes[i / 2] % 16) as nat
                },
            ),
    )
}

/// Every byte of `text` is a hexadecimal digit, and their number is even.
pub open spec fn is_hex(text: Seq<u8>) -> bool {
    text.len() % 2 == 0 && forall|i: int|
        0 <= i < text.len() ==> hex_value(#[trigger] text[i]) is Some
}

/// The bytes that the digit pairs of `text` spell.
pub open spec fn hex_bytes(text: Seq<u8>) -> Seq<u8> {
    Seq::new(
        text.len() / 2,
        |i: int| (hex_value(text[2 * i])->0 * 16 + hex_value(text[2 * i + 1])->0) as u8,
    )
}

fn hex_digit_text(d: u8) -> (r: &'static str)
    requires
        d < 16,
    ensures
        r@ == seq![hex_char(d as nat)],
{
    proof {
        reveal_strlit("0");
        reveal_strlit("1");
        reveal_strlit("2");
        reveal_strlit("3");
        reveal_strlit("4");
        reveal_strlit("5");
        reveal_strlit("6");
        reveal_strlit("7");
        reveal_strlit("8");
        reveal_strlit("9");
        reveal_strlit("a");
        reveal_strlit("b");
        reveal_strlit("c");
        reveal_strlit("d");
        reveal_strlit("e");
        reveal_strlit("f");
    }
    let r: &'static str = match d {
        0 => "0",
        1 => "1",
        2 => "2",
        3 => "3",
        4 => "4",
        5 => "5",
        6 => "6",
        7 => "7",
        8 => "8",
        9 => "9",
        10 => "a",
        11 => "b",
        12 => "c",
        13 => "d",
        14 => "e",
        _ => "f",
    };
    assert(r@ =~= seq![hex_char(d as nat)]);
    r
}

/// Renders `bytes` as lower-case hexadecimal text.
pub fn hex_encode(bytes: &[u8]) -> (r: String)
    ensures
        r@ == hex_text(bytes@),
{
    let mut out: String = String::new();
    let mut i: usize = 0;
    while i < bytes.len()
        invariant
            i <= bytes.len(),
            out@ =~= hex_text(bytes@.take(i as int)),
        decreases bytes.len() - i,
    {
        let b: u8 = bytes[i];
        out.append(hex_digit_text(b / 16));
        out.append(hex_digit_text(b % 16));
        proof {
            let after = bytes@.take(i + 1);
            assert(out@ =~= hex_text(after));
        }
        i = i + 1;
    }
    assert(bytes@.take(bytes@.len() as int) =~= bytes@);
    out
}

fn hex_digit(b: u8) -> (r: Option<u8>)
    ensures
        r == hex_value(b),
        r matches Some(v) ==> v < 16,
{
    if 48 <= b && b <= 57 {
        Some(b - 48)
    } else if 97 <= b && b <= 102 {
        Some(b - 87)
    } else if 65 <= b && b <= 70 {
        Some(b - 55)
    } else {
        None
    }
}

/// Reads hexadecimal text in either case back into bytes; `None` unless the
/// text is made of digit pairs alone.
pub fn hex_decode(text: &str) -> (r: Option<Vec<u8>>)
    ensures
        match r {
            Some(bytes) => is_hex(encode_utf8(text@)) && bytes@ == hex_bytes(encode_utf8(text@)),
            None => !is_hex(encode_utf8(text@)),
        },
{
    let digits: &[u8] = text.as_bytes();
    if digits.len() % 2 != 0 {
        return None;
    }
    let mut out: Vec<u8> = Vec::new();
    let mut i: usize = 0;
    while i < digits.len()
        invariant
            i <= digits.len(),
            i % 2 == 0,
            digits.len() % 2 == 0,
            digits@ == encode_utf8(text@),
            forall|j: int| 0 <= j < i ==> hex_value(#[trigger] digits@[j]) is Some,
            out@ =~= hex_bytes(digits@.take(i as int)),
        decreases digits.len() - i,
    {
        let hi: Option<u8> = hex_digit(digits[i]);
        let lo: Option<u8> = hex_digit(digits[i + 1]);
        match (hi, lo) {
            (Some(h), Some(l)) => {
                out.push(h * 16 + l);
                proof {
                    let after = digits@.take(i + 2);
                    assert(out@ =~= hex_bytes(after));
                }
            },
            _ => {
                assert(hex_value(digits@[i as int]) is None || hex_value(
                    digits@[i + 1],
                ) is None);
                return None;
            },
        }
        i = i + 2;
    }
    assert(digits@.take(digits@.len() as int) =~= digits@);
    Some(out)
}

/// The first 32 bytes as an array, if there are exactly that many.
pub fn to_array_32(bytes: &[u8]) -> (r: Option<[u8; 32]>)
    ensures
        match r {
            Some(array) => array@ == bytes@,
            None => bytes@.len() != 32,
        },
{
    if bytes.len() != 32 {
        return None;
    }
    let mut out: [u8; 32] = [0; 32];
    let mut i: usize = 0;
    while i < 32
        invariant
            i <= 32,
            bytes@.len() == 32,
            forall|j: int| 0 <= j < i ==> out@[j] == bytes@[j],
        decreases 32 - i,
    {
        out[i] = bytes[i];
        i = i + 1;
    }
    assert(out@ =~= bytes@);
    Some(out)
}

/// Reading the rendering of some bytes gives those bytes back.
pub proof fn hex_round_trip(bytes: Seq<u8>)
    ensures
        is_hex(encode_utf8(hex_text(bytes))),
        hex_bytes(encode_utf8(hex_text(bytes))) == bytes,
{
    let text = hex_text(bytes);
    assert forall|i: int| 0 <= i < text.len() implies 0 <= (#[trigger] text[i]) as nat && (
    text[i] as nat) < 128 by {}
    assert(vstd::utf8::is_ascii_chars(text));
    vstd::utf8::is_ascii_chars_encode_utf8(text);
    let enc = encode_utf8(text);
    assert forall|i: int| 0 <= i < enc.len() implies hex_value(#[trigger] enc[i]) is Some by {
        assert(enc[i] == text[i] as u8);
    }
    assert forall|i: int| 0 <= i < bytes.len() implies hex_bytes(enc)[i] == bytes[i] by {
        assert(enc[2 * i] == text[2 * i] as u8);
        assert(enc[2 * i + 1] == text[2 * i + 1] as u8);
        assert((2 * i) / 2 == i && (2 * i) % 2 == 0);
        assert((2 * i + 1) / 2 == i && (2 * i + 1) % 2 == 1);
        let b = bytes[i];
        assert(hex_value(enc[2 * i]) == Some((b / 16) as u8));
        assert(hex_value(enc[2 * i + 1]) == Some((b % 16) as u8));
        assert((b / 16) * 16 + b % 16 == b);
    }
    assert(hex_bytes(enc) =~= bytes);
}

/// The digits are these sixteen, in lower case, and each reads back as its value
/// in either case; no other byte is a digit.
pub proof fn hex_digits_are_these(d: u8, b: u8)
    requires
        d < 16,
    ensures
        d < 10 ==> hex_char(d as nat) as u32 == '0' as u32 + d,
        d >= 10 ==> hex_char(d as nat) as u32 == 'a' as u32 + (d - 10),
        hex_value(hex_char(d as nat) as u8) == Some(d),
        d >= 10 ==> hex_value(('A' as u8 + (d - 10)) as u8) == Some(d),
        hex_value(b) is Some <==> ('0' as u8 <= b <= '9' as u8 || 'a' as u8 <= b <= 'f' as u8
            || 'A' as u8 <= b <= 'F' as u8),
{
}

/// Bytes are rendered one after the other, each with its high digit first.
pub proof fn hex_goes_byte_by_byte(a: Seq<u8>, b: Seq<u8>, high: u8, low: u8)
    requires
        high < 16,
        low < 16,
    ensures
        hex_text(a + b) == hex_text(a) + hex_text(b),
        hex_text(seq![(16 * high + low) as u8]) == seq![
            hex_char(high as nat),
            hex_char(low as nat),
        ],
{
    let whole = hex_text(a + b);
    let parts = hex_text(a) + hex_text(b);
    assert(whole.len() == parts.len());
    assert forall|i: int| 0 <= i < whole.len() implies whole[i] == parts[i] by {
        if i < 2 * a.len() {
            assert(i / 2 < a.len());
        } else {
            let j = i - 2 * a.len();
            assert(j / 2 == i / 2 - a.len() && j % 2 == i % 2);
            assert((a + b)[i / 2] == b[j / 2]);
        }
    }
    assert(whole =~= parts);
    let one = seq![(16 * high + low) as u8];
    assert(one[0] / 16 == high && one[0] % 16 == low);
    assert(hex_text(one) =~= seq![hex_char(high as nat), hex_char(low as nat)]);
}

/// Bytes that were written in hexadecimal are read back, and what is read has two
/// digits for each byte.
pub proof fn written_digits_are_read_back(bytes: &[u8], hex: String, text: &str, r: Option<Vec<u8>>)
    requires
        call_ensures(hex_encode, (bytes,), hex),
        call_ensures(hex_decode, (text,), r),
    ensures
        text@ == hex@ ==> r is Some && r->0@ == bytes@,
        hex@.len() == 2 * bytes@.len(),
        r matches Some(read) ==> encode_utf8(text@).len() == 2 * read@.len(),
{
    hex_round_trip(bytes@);
}

/// Exactly 32 bytes fit an array of that length.
pub proof fn only_32_bytes_fit(bytes: &[u8], r: Option<[u8; 32]>)
    requires
        call_ensures(to_array_32, (bytes,), r),
    ensures
        r is Some <==> bytes@.len() == 32,
        r matches Some(array) ==> array@ == bytes@,
{
}

} // verus!
