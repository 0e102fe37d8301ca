//! Byte strings written as hexadecimal text, as style prototypes store
//! their properties.
use vstd::prelude::*;
use vstd::string::StringSliceAdditionalSpecFns;
use vstd::utf8::{encode_utf8, is_ascii_chars, is_ascii_chars_encode_utf8};

use crate::licensing::{hex_digit, lower_hex};

verus! {

/// Why hexadecimal text could not be read back as bytes.
#[derive(Clone, Copy, Debug, PartialEq, Eq, Structural)]
pub enum HexDecodeError {
    /// The text has an odd number of bytes.
    OddLength,
    /// A byte of the text is no hexadecimal digit.
    InvalidData,
}

impl HexDecodeError {
    /// The message the error is reported with.
    pub fn message(&self) -> (message: &'static str)
        ensures
            *self == HexDecodeError::OddLength ==> message@ == "hex byte string has an odd length"@,
            *self == HexDecodeError::InvalidData ==> message@ == "hex byte string contains invalid data"@,
    {
        match self {
            HexDecodeError::OddLength => "hex byte string has an odd length",
            HexDecodeError::InvalidData => "hex byte string contains invalid data",
        }
    }
}

/// The value of a hexadecimal digit, in either case.
pub open spec fn hex_value(b: u8) -> Option<u8> {
    if 48 <= b <= 57 {
        Some((b - 48) as u8)
    } else if 97 <= b <= 102 {
        Some((b - 87) as u8)
    } else if 65 <= b <= 70 {
        Some((b - 55) as u8)
    } else {
        None
    }
}

/// Whether every byte of `text` is a hexadecimal digit.
pub open spec fn all_hex(text: Seq<u8>) -> bool {
    forall|i: int| 0 <= i < text.len() ==> #[trigger] hex_value(text[i]) is Some
}

/// The bytes that the digit pairs of `text` stand for, high digit first.
pub open spec fn decoded_hex(text: Seq<u8>) -> Seq<u8> {
    Seq::new(
        text.len() / 2,
        |i: int| (hex_value(text[2 * i])->0 * 16 + hex_value(text[2 * i + 1])->0) as u8,
    )
}

/// The value of the hexadecimal digit `value`, if it is one.
pub fn hex_digit_value(value: u8) -> (digit: Option<u8>)
    ensures
        digit == hex_value(value),
{
    if 48 <= value && value <= 57 {
        Some(value - 48)
    } else if 97 <= value && value <= 102 {
        Some(value - 87)
    } else if 65 <= value && value <= 70 {
        Some(value - 55)
    } else {
        None
    }
}

/// Reads hexadecimal text back as bytes, two digits (high first, either
/// case) per byte: refused with `OddLength` when the text has an odd number
/// of bytes, else with `InvalidData` when any byte is no digit.
pub fn decode_hex_bytes(encoded: &str) -> (result: Result<Vec<u8>, HexDecodeError>)
    ensures
        match result {
            Ok(bytes) => encoded.spec_bytes().len() % 2 == 0 && all_hex(encoded.spec_bytes()) && bytes@
                == decoded_hex(encoded.spec_bytes()),
            Err(HexDecodeError::OddLength) => encoded.spec_bytes().len() % 2 == 1,
            Err(HexDecodeError::InvalidData) => encoded.spec_bytes().len() % 2 == 0 && !all_hex(
                encoded.spec_bytes(),
            ),
        },
{
    let text = encoded.as_bytes();
    if text.len() % 2 != 0 {
        return Err(HexDecodeError::OddLength);
    }
    let mut bytes: Vec<u8> = Vec::new();
    let mut i: usize = 0;
    while i < text.len() / 2
        invariant
            text@ == encoded.spec_bytes(),
            text@.len() % 2 == 0,
            i <= text@.len() / 2,
            bytes@.len() == i,
            forall|j: int| 0 <= j < 2 * i ==> #[trigger] hex_value(text@[j]) is Some,
            forall|j: int| 0 <= j < i ==> #[trigger] bytes@[j] == decoded_hex(text@)[j],
        decreases text@.len() / 2 - i,
    {
        let high = match hex_digit_value(text[2 * i]) {
            Some(d) => d,
            None => {
                assert(hex_value(text@[2 * i as int]) is None);
                return Err(HexDecodeError::InvalidData);
            },
        };
        let low = match hex_digit_value(text[2 * i + 1]) {
            Some(d) => d,
            None => {
                assert(hex_value(text@[2 * i + 1]) is None);
                return Err(HexDecodeError::InvalidData);
            },
        };
        bytes.push(high * 16 + low);
        i = i + 1;
    }
    assert(bytes@ =~= decoded_hex(text@));
    Ok(bytes)
}

/// Where each digit of the hexadecimal form of `bytes` comes from.
proof fn lemma_lower_hex_at(bytes: Seq<u8>)
    ensures
        lower_hex(bytes).len() == 2 * bytes.len(),
        forall|i: int|
            0 <= i < bytes.len() ==> #[trigger] lower_hex(bytes)[2 * i] == hex_digit(bytes[i] as int / 16)
                && lower_hex(bytes)[2 * i + 1] == hex_digit(bytes[i] as int % 16),
    decreases bytes.len(),
{
    if bytes.len() > 0 {
        let front = bytes.drop_last();
        lemma_lower_hex_at(front);
        assert forall|i: int| 0 <= i < bytes.len() implies #[trigger] lower_hex(bytes)[2 * i] == hex_digit(
            bytes[i] as int / 16,
        ) && lower_hex(bytes)[2 * i + 1] == hex_digit(bytes[i] as int % 16) by {
            if i < front.len() {
                assert(lower_hex(front)[2 * i] == hex_digit(front[i] as int / 16));
            }
        }
    }
}

/// A digit that [`hex_digit`] writes is read back as its value.
proof fn lemma_hex_digit_value(d: int)
    requires
        0 <= d < 16,
    ensures
        '\0' <= hex_digit(d) <= '\u{7f}',
        hex_value(hex_digit(d) as u8) == Some(d as u8),
{
}

/// Reading back the lower-case hexadecimal form of any bytes, as the UTF-8
/// text it is stored as, gives those bytes: the text has an even length,
/// holds only digits, and its digit pairs are the bytes.
pub proof fn lemma_hex_round_trip(bytes: Seq<u8>)
    ensures
        encode_utf8(lower_hex(bytes)).len() % 2 == 0,
        all_hex(encode_utf8(lower_hex(bytes))),
        decoded_hex(encode_utf8(lower_hex(bytes))) == bytes,
{
    let text = lower_hex(bytes);
    lemma_lower_hex_at(bytes);
    assert forall|j: int| 0 <= j < text.len() implies '\0' <= #[trigger] text[j] <= '\u{7f}'
        && hex_value(text[j] as u8) is Some by {
        let i = j / 2;
        assert(j == 2 * i || j == 2 * i + 1);
        assert(text[2 * i] == hex_digit(bytes[i] as int / 16));
        lemma_hex_digit_value(bytes[i] as int / 16);
        lemma_hex_digit_value(bytes[i] as int % 16);
    }
    assert(is_ascii_chars(text));
    is_ascii_chars_encode_utf8(text);
    let encoded = encode_utf8(text);
    assert forall|j: int| 0 <= j < encoded.len() implies #[trigger] hex_value(encoded[j]) is Some by {
        assert(text[j] as u8 == encoded[j]);
    }
    assert forall|i: int| 0 <= i < bytes.len() implies #[trigger] decoded_hex(encoded)[i] == bytes[i] by {
        assert(text[2 * i] == hex_digit(bytes[i] as int / 16));
        assert(text[2 * i] as u8 == encoded[2 * i]);
        assert(text[2 * i + 1] as u8 == encoded[2 * i + 1]);
        lemma_hex_digit_value(bytes[i] as int / 16);
        lemma_hex_digit_value(bytes[i] as int % 16);
    }
    assert(decoded_hex(encoded) =~= bytes);
}

} // verus!
