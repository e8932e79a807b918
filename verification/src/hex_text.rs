//! Hexadecimal text, through the `hex` crate.

use vstd::prelude::*;

verus! {

/// Why text is not hexadecimal.
#[derive(Clone, Copy, Debug, PartialEq, Eq, Structural)]
pub enum HexError {
    /// The first character that is no digit, and where it stands.
    InvalidHexCharacter { c: char, index: usize },
    /// Digits do not come in pairs.
    OddLength,
    /// The text does not fit a container of fixed size.
    InvalidStringLength,
}

/// A value below sixteen as a lower-case digit.
pub open spec fn hex_digit(value: int) -> char {
    if value < 10 {
        (48 + value) as char
    } else {
        (87 + value) as char
    }
}

/// Bytes as lower-case digits, two for each byte.
pub open spec fn hex_text(bytes: Seq<u8>) -> Seq<char> {
    Seq::new(
        2 * bytes.len(),
        |k: int|
            hex_digit(
                if k % 2 == 0 {
                    bytes[k / 2] as int / 16
                } else {
                    bytes[k / 2] as int % 16
                },
            ),
    )
}

/// The value of a digit, in either case.
pub open spec fn digit_value(c: u8) -> Option<int> {
    if 48 <= c <= 57 {
        Some(c - 48)
    } else if 65 <= c <= 70 {
        Some(c - 55)
    } else if 97 <= c <= 102 {
        Some(c - 87)
    } else {
        None
    }
}

/// The first position from `from` on that holds no digit, or the length.
pub open spec fn first_non_digit(text: Seq<u8>, from: int) -> int
    decreases text.len() - from,
{
    if from < 0 || from >= text.len() {
        text.len() as int
    } else if digit_value(text[from]) is None {
        from
    } else {
        first_non_digit(text, from + 1)
    }
}

/// The bytes that text stands for, or what is wrong with it.
pub open spec fn hex_value(text: Seq<u8>) -> Result<Seq<u8>, HexError> {
    let bad = first_non_digit(text, 0);
    if text.len() % 2 != 0 {
        Err(HexError::OddLength)
    } else if bad < text.len() {
        Err(HexError::InvalidHexCharacter { c: text[bad] as char, index: bad as usize })
    } else {
        Ok(
            Seq::new(
                text.len() / 2,
                |i: int|
                    (16 * digit_value(text[2 * i])->0 + digit_value(text[2 * i + 1])->0) as u8,
            ),
        )
    }
}

/// `hex::encode`: lower-case digits, two for each byte.
#[verifier::external_body]
pub(crate) fn hex_encode(bytes: &[u8]) -> (text: String)
    ensures
        text@ == hex_text(bytes@),
{
    hex::encode(bytes)
}

/// `hex::decode`: the bytes that pairs of digits stand for, in either case; an odd length is
/// refused first, then the first byte that is no digit.
#[verifier::external_body]
pub(crate) fn hex_decode(text: &[u8]) -> (result: Result<Vec<u8>, HexError>)
    ensures
        match result {
            Ok(bytes) => hex_value(text@) == Ok::<Seq<u8>, HexError>(bytes@),
            Err(error) => hex_value(text@) == Err::<Seq<u8>, HexError>(error),
        },
{
    match hex::decode(text) {
        Ok(bytes) => Ok(bytes),
        Err(hex::FromHexError::InvalidHexCharacter { c, index }) => Err(HexError::InvalidHexCharacter { c, index }),
        Err(hex::FromHexError::OddLength) => Err(HexError::OddLength),
        Err(hex::FromHexError::InvalidStringLength) => Err(HexError::InvalidStringLength),
    }
}

/// Text without a digit missing has digits everywhere.
pub proof fn lemma_all_digits(text: Seq<u8>, from: int)
    requires
        0 <= from,
        forall|i: int| from <= i < text.len() ==> digit_value(#[trigger] text[i]) is Some,
    ensures
        first_non_digit(text, from) == text.len(),
    decreases text.len() - from,
{
    if from < text.len() {
        lemma_all_digits(text, from + 1);
    }
}

/// Bytes written as digits are read back.
pub proof fn law_hex_round_trip(bytes: Seq<u8>)
    ensures
        hex_value(hex_text(bytes).map_values(|c: char| c as u8)) == Ok::<Seq<u8>, HexError>(bytes),
        forall|i: int|
            0 <= i < hex_text(bytes).len() ==> (#[trigger] hex_text(bytes)[i]) as u32 <= 127,
{
    let chars = hex_text(bytes);
    let text = chars.map_values(|c: char| c as u8);
    assert forall|k: int| 0 <= k < text.len() implies digit_value(#[trigger] text[k]) == Some(
        if k % 2 == 0 {
            bytes[k / 2] as int / 16
        } else {
            bytes[k / 2] as int % 16
        },
    ) && chars[k] as u32 <= 127 by {
        let v = if k % 2 == 0 {
            bytes[k / 2] as int / 16
        } else {
            bytes[k / 2] as int % 16
        };
        assert(0 <= v < 16);
        assert(chars[k] == hex_digit(v));
    }
    lemma_all_digits(text, 0);
    let decoded = Seq::new(
        text.len() / 2,
        |i: int| (16 * digit_value(text[2 * i])->0 + digit_value(text[2 * i + 1])->0) as u8,
    );
    assert forall|i: int| 0 <= i < bytes.len() implies decoded[i] == bytes[i] by {
        assert((2 * i) / 2 == i && (2 * i) % 2 == 0);
        assert((2 * i + 1) / 2 == i && (2 * i + 1) % 2 == 1);
        assert(digit_value(text[2 * i]) == Some(bytes[i] as int / 16));
        assert(digit_value(text[2 * i + 1]) == Some(bytes[i] as int % 16));
    }
    assert(decoded =~= bytes);
}

} // verus!
