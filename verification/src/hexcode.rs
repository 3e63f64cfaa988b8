//! Hexadecimal text: the form in which a socket path travels as a URI host.

use vstd::prelude::*;
use vstd::utf8::*;

verus! {

/// Why a text is not the hexadecimal form of a byte string.
#[derive(Clone, Copy, Debug, PartialEq, Eq, Structural)]
pub enum HexError {
    /// The byte at `index` is no hexadecimal digit. `c` is the character with that byte's value.
    InvalidHexCharacter { c: char, index: usize },
    /// The number of digits is odd, so the last one has no partner.
    OddLength,
    /// The text does not fill a container of a fixed size.
    InvalidStringLength,
}

/// The lower-case digit for a value below sixteen.
pub open spec fn hex_digit(value: int) -> char {
    if value < 10 {
        ('0' as int + value) as char
    } else {
        ('a' as int + value - 10) as char
    }
}

/// Two lower-case digits for each byte, the high half first.
pub open spec fn hex_text(bytes: Seq<u8>) -> Seq<char> {
    Seq::new(
        2 * bytes.len(),
        |i: int| hex_digit(if i % 2 == 0 { bytes[i / 2] as int / 16 } else { bytes[i / 2] as int % 16 }),
    )
}

/// The value of a hexadecimal digit of either case.
pub open spec fn digit_value(digit: u8) -> Option<int> {
    if 48 <= digit <= 57 {
        Some(digit - 48)
    } else if 65 <= digit <= 70 {
        Some(digit - 55)
    } else if 97 <= digit <= 102 {
        Some(digit - 87)
    } else {
        None
    }
}

/// The position of the first byte at or after `from` that is no hexadecimal digit.
pub open spec fn first_bad_digit(text: Seq<u8>, from: int) -> Option<int>
    decreases text.len() - from,
{
    if from >= text.len() {
        None
    } else if digit_value(text[from]) is None {
        Some(from)
    } else {
        first_bad_digit(text, from + 1)
    }
}

/// The bytes that a hexadecimal text stands for, or what is wrong with the text.
pub open spec fn hex_bytes(text: Seq<u8>) -> Result<Seq<u8>, HexError> {
    if text.len() % 2 != 0 {
        Err(HexError::OddLength)
    } else {
        match first_bad_digit(text, 0) {
            Some(i) => Err(
                HexError::InvalidHexCharacter { c: text[i] as char, index: i as usize },
            ),
            None => Ok(
                Seq::new(
                    text.len() / 2,
                    |i: int|
                        (16 * digit_value(text[2 * i])->0 + digit_value(text[2 * i + 1])->0) as u8,
                ),
            ),
        }
    }
}

/// A printable ASCII character that needs no escape between quotation marks or apostrophes.
pub open spec fn is_plain_char(c: char) -> bool {
    ' ' <= c <= '~' && c != '"' && c != '\'' && c != '\\'
}

/// A character between apostrophes, with the escapes of the standard library's `Debug`.
pub uninterp spec fn quoted_char(c: char) -> Seq<char>;

/// A number in decimal digits.
pub open spec fn decimal(number: nat) -> Seq<char>
    decreases number,
{
    let digit = ('0' as int + number % 10) as char;
    if number < 10 {
        seq![digit]
    } else {
        decimal(number / 10).push(digit)
    }
}

/// The message that goes with an error.
pub open spec fn hex_error_text(error: HexError) -> Seq<char> {
    match error {
        HexError::InvalidHexCharacter { c, index } => "Invalid character "@ + quoted_char(c)
            + " at position "@ + decimal(index as nat),
        HexError::OddLength => "Odd number of digits"@,
        HexError::InvalidStringLength => "Invalid string length"@,
    }
}

/// Calls `hex::encode`, which gives two lower-case digits for each byte, the high half first.
#[verifier::external_body]
pub(crate) fn hex_encode(bytes: &[u8]) -> (text: String)
    ensures
        text@ == hex_text(bytes@),
{
    hex::encode(bytes)
}

/// Calls `hex::decode`. It takes digits of either case. It looks at the number of digits first,
/// and then reports the first byte that is no digit.
#[verifier::external_body]
pub(crate) fn hex_decode(text: &str) -> (decoded: Result<Vec<u8>, HexError>)
    ensures
        match decoded {
            Ok(bytes) => hex_bytes(encode_utf8(text@)) == Ok::<Seq<u8>, HexError>(bytes@),
            Err(error) => hex_bytes(encode_utf8(text@)) == Err::<Seq<u8>, HexError>(error),
        },
{
    hex::decode(text).map_err(|error| match error {
        hex::FromHexError::InvalidHexCharacter { c, index } => HexError::InvalidHexCharacter { c, index },
        hex::FromHexError::OddLength => HexError::OddLength,
        hex::FromHexError::InvalidStringLength => HexError::InvalidStringLength,
    })
}

/// Calls the `Display` of `hex::FromHexError`. Its messages are stated, but for how the standard
/// library quotes a character: that is a function of the character, which is kept as it is where it
/// is printable ASCII and no quotation mark, apostrophe or backslash.
#[verifier::external_body]
pub(crate) fn hex_error_message(error: &HexError) -> (text: String)
    ensures
        match *error {
            HexError::InvalidHexCharacter { c, index } => {
                &&& text@ == "Invalid character "@ + quoted_char(c) + " at position "@ + decimal(
                    index as nat,
                )
                &&& is_plain_char(c) ==> text@ == "Invalid character "@ + seq!['\'', c, '\'']
                    + " at position "@ + decimal(index as nat)
            },
            HexError::OddLength => text@ == "Odd number of digits"@,
            HexError::InvalidStringLength => text@ == "Invalid string length"@,
        },
{
    match *error {
        HexError::InvalidHexCharacter { c, index } => hex::FromHexError::InvalidHexCharacter { c, index },
        HexError::OddLength => hex::FromHexError::OddLength,
        HexError::InvalidStringLength => hex::FromHexError::InvalidStringLength,
    }.to_string()
}

/// A hexadecimal text is made of lower-case digits.
pub(crate) proof fn lemma_hex_text_chars(bytes: Seq<u8>)
    ensures
        is_ascii_chars(hex_text(bytes)),
        forall|i: int|
            0 <= i < hex_text(bytes).len() ==> {
                let c = #[trigger] hex_text(bytes)[i];
                '0' <= c <= '9' || 'a' <= c <= 'f'
            },
{
}

/// Decoding the hexadecimal form of a byte string gives the byte string back.
pub proof fn law_hex_round_trip(bytes: Seq<u8>)
    ensures
        hex_bytes(encode_utf8(hex_text(bytes))) == Ok::<Seq<u8>, HexError>(bytes),
{
    let chars = hex_text(bytes);
    let text = encode_utf8(chars);
    lemma_hex_text_chars(bytes);
    is_ascii_chars_encode_utf8(chars);
    assert forall|i: int| 0 <= i < text.len() implies digit_value(#[trigger] text[i]) == Some(
        if i % 2 == 0 { bytes[i / 2] as int / 16 } else { bytes[i / 2] as int % 16 },
    ) by {
        assert(text[i] == chars[i] as u8);
    }
    lemma_all_digits(text, 0);
    assert(hex_bytes(text)->Ok_0 =~= bytes);
}

/// A text of digits alone has no bad digit.
proof fn lemma_all_digits(text: Seq<u8>, from: int)
    requires
        0 <= from,
        forall|i: int| 0 <= i < text.len() ==> digit_value(#[trigger] text[i]) is Some,
    ensures
        first_bad_digit(text, from) is None,
    decreases text.len() - from,
{
    if from < text.len() {
        lemma_all_digits(text, from + 1);
    }
}

/// Two texts whose bytes have the same values as hexadecimal digits.
pub open spec fn same_digits(text: Seq<u8>, other: Seq<u8>) -> bool {
    &&& text.len() == other.len()
    &&& forall|i: int|
        0 <= i < text.len() ==> digit_value(#[trigger] text[i]) == digit_value(other[i])
}

/// Two such texts stand for the same bytes, or for none.
pub(crate) proof fn lemma_same_digits(text: Seq<u8>, other: Seq<u8>)
    requires
        same_digits(text, other),
    ensures
        hex_bytes(text) is Ok <==> hex_bytes(other) is Ok,
        hex_bytes(text) is Ok ==> hex_bytes(text) == hex_bytes(other),
{
    lemma_same_bad_digit(text, other, 0);
    if hex_bytes(text) is Ok {
        assert(hex_bytes(text)->Ok_0 =~= hex_bytes(other)->Ok_0);
    }
}

/// Two such texts have their first bad digit in the same place.
proof fn lemma_same_bad_digit(text: Seq<u8>, other: Seq<u8>, from: int)
    requires
        0 <= from,
        same_digits(text, other),
    ensures
        first_bad_digit(text, from) == first_bad_digit(other, from),
    decreases text.len() - from,
{
    if from < text.len() {
        lemma_same_bad_digit(text, other, from + 1);
    }
}

/// A text is refused where its number of digits is odd, or else for the first byte that is no digit:
/// every byte before it is one. A text of digits stands for a byte for every two of them.
pub proof fn law_hex_bytes(text: Seq<u8>)
    requires
        text.len() <= usize::MAX,
    ensures
        match hex_bytes(text) {
            Err(HexError::OddLength) => text.len() % 2 == 1,
            Err(HexError::InvalidHexCharacter { c, index }) => {
                &&& text.len() % 2 == 0
                &&& index < text.len()
                &&& digit_value(text[index as int]) is None
                &&& c as int == text[index as int]
                &&& forall|i: int| 0 <= i < index ==> digit_value(#[trigger] text[i]) is Some
            },
            Err(HexError::InvalidStringLength) => false,
            Ok(bytes) => {
                &&& 2 * bytes.len() == text.len()
                &&& forall|i: int| 0 <= i < text.len() ==> digit_value(#[trigger] text[i]) is Some
                &&& forall|i: int|
                    0 <= i < bytes.len() ==> #[trigger] bytes[i] == 16 * digit_value(
                        text[2 * i],
                    )->0 + digit_value(text[2 * i + 1])->0
            },
        },
{
    lemma_first_bad_digit(text, 0);
}

/// The first bad digit is bad, and all before it are good.
pub(crate) proof fn lemma_first_bad_digit(text: Seq<u8>, from: int)
    requires
        0 <= from <= text.len(),
    ensures
        match first_bad_digit(text, from) {
            Some(bad) => {
                &&& from <= bad < text.len()
                &&& digit_value(text[bad]) is None
                &&& forall|i: int| from <= i < bad ==> digit_value(#[trigger] text[i]) is Some
            },
            None => forall|i: int|
                from <= i < text.len() ==> digit_value(#[trigger] text[i]) is Some,
        },
    decreases text.len() - from,
{
    if from < text.len() && digit_value(text[from]) is Some {
        lemma_first_bad_digit(text, from + 1);
    }
}

/// The digits of either case, and nothing else, have the values that they are written for.
pub proof fn law_digit_value(value: int, digit: u8)
    ensures
        0 <= value < 16 ==> digit_value(hex_digit(value) as u8) == Some(value),
        10 <= value < 16 ==> digit_value((hex_digit(value) as u8 - 32) as u8) == Some(value),
        digit_value(digit) matches Some(value) ==> {
            &&& 0 <= value < 16
            &&& digit == hex_digit(value) as u8 || value >= 10 && digit == hex_digit(value) as u8
                - 32
        },
{
}

} // verus!
