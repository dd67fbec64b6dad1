//! Text encodings that the standard library and other crates decode.

use vstd::prelude::*;
use vstd::utf8::{decode_utf8, encode_utf8, valid_utf8};

verus! {

/// What `String::from_utf8_lossy` makes of bytes that are not UTF-8.
pub uninterp spec fn utf8_repaired(bytes: Seq<u8>) -> Seq<char>;

/// The text of some bytes, whether they are UTF-8 or have to be repaired.
pub open spec fn lossy(bytes: Seq<u8>) -> Seq<char> {
    if valid_utf8(bytes) {
        decode_utf8(bytes)
    } else {
        utf8_repaired(bytes)
    }
}

/// A text survives the way through its bytes.
pub proof fn law_lossy_text(text: Seq<char>)
    ensures
        lossy(encode_utf8(text)) == text,
{
    vstd::utf8::encode_utf8_valid_utf8(text);
    vstd::utf8::encode_utf8_decode_utf8(text);
}

/// `String::from_utf8_lossy` of the standard library. Bytes that are UTF-8 are
/// decoded; what stands for the others is named and not described.
#[verifier::external_body]
pub(crate) fn lossy_text(bytes: &[u8]) -> (r: String)
    ensures
        r@ == if valid_utf8(bytes@) {
            decode_utf8(bytes@)
        } else {
            utf8_repaired(bytes@)
        },
{
    String::from_utf8_lossy(bytes).into_owned()
}

/// `String::from_utf8` of the standard library: the text of the bytes, if they
/// are UTF-8.
#[verifier::external_body]
pub(crate) fn strict_text(bytes: Vec<u8>) -> (r: Option<String>)
    ensures
        match r {
            Some(s) => valid_utf8(bytes@) && s@ == decode_utf8(bytes@),
            None => !valid_utf8(bytes@),
        },
{
    String::from_utf8(bytes).ok()
}

/// What `char::to_uppercase` makes of a character.
pub uninterp spec fn uppercase(c: char) -> Seq<char>;

/// `char::to_uppercase` of the standard library. The letters a to z become A to
/// Z and the other ASCII characters stay; what becomes of the others is named.
#[verifier::external_body]
pub(crate) fn upper_text(c: char) -> (r: String)
    ensures
        r@ == uppercase(c),
        'a' <= c <= 'z' ==> r@ == seq![((c as u32) - 32) as char],
        (c as u32) < 128 && !('a' <= c <= 'z') ==> r@ == seq![c],
{
    c.to_uppercase().collect::<String>()
}

/// The value of a hexadecimal digit, in either case.
pub open spec fn hex_value(b: u8) -> Option<int> {
    if 0x30 <= b <= 0x39 {
        Some(b - 0x30)
    } else if 0x41 <= b <= 0x46 {
        Some(b - 0x41 + 10)
    } else if 0x61 <= b <= 0x66 {
        Some(b - 0x61 + 10)
    } else {
        None
    }
}

/// The bytes with each `%` and two hexadecimal digits replaced by the byte that
/// the digits write.
pub open spec fn percent_decoded(bytes: Seq<u8>) -> Seq<u8>
    decreases bytes.len(),
{
    if bytes.len() == 0 {
        Seq::empty()
    } else if bytes[0] == 0x25 && bytes.len() >= 3 && hex_value(bytes[1]) is Some && hex_value(
        bytes[2],
    ) is Some {
        seq![(hex_value(bytes[1])->0 * 16 + hex_value(bytes[2])->0) as u8] + percent_decoded(
            bytes.skip(3),
        )
    } else {
        seq![bytes[0]] + percent_decoded(bytes.drop_first())
    }
}

/// How the standard library words that some bytes are not UTF-8.
pub uninterp spec fn utf8_complaint(bytes: Seq<u8>) -> Seq<char>;

/// The text that is written with percent signs, or how it is worded that there is
/// none.
pub open spec fn percent_text(encoded: Seq<char>) -> Result<Seq<char>, Seq<char>> {
    let bytes = percent_decoded(encode_utf8(encoded));
    if valid_utf8(bytes) {
        Ok(decode_utf8(bytes))
    } else {
        Err(utf8_complaint(bytes))
    }
}

/// `percent_encoding::percent_decode_str` and `decode_utf8` on its result: the
/// decoded bytes as text, if they are UTF-8. The wording of the refusal is named.
#[verifier::external_body]
pub(crate) fn percent_decode(encoded: &str) -> (r: Result<String, String>)
    ensures
        match r {
            Ok(s) => {
                &&& valid_utf8(percent_decoded(encode_utf8(encoded@)))
                &&& s@ == decode_utf8(percent_decoded(encode_utf8(encoded@)))
            },
            Err(e) => {
                &&& !valid_utf8(percent_decoded(encode_utf8(encoded@)))
                &&& e@ == utf8_complaint(percent_decoded(encode_utf8(encoded@)))
            },
        },
{
    percent_encoding::percent_decode_str(encoded)
        .decode_utf8()
        .map(|text| text.into_owned())
        .map_err(|err| err.to_string())
}

/// The two hexadecimal digits of a byte, in lower case.
pub open spec fn hex_pair(b: u8) -> Seq<char> {
    crate::text::hexadecimal(b as nat, 2)
}

/// The hexadecimal digits of some bytes, in lower case.
pub open spec fn hex_encoded(bytes: Seq<u8>) -> Seq<char>
    decreases bytes.len(),
{
    if bytes.len() == 0 {
        Seq::empty()
    } else {
        hex_encoded(bytes.drop_last()) + hex_pair(bytes.last())
    }
}

/// `digits` are an even number of hexadecimal digits.
pub open spec fn is_hex(digits: Seq<u8>) -> bool {
    &&& digits.len() % 2 == 0
    &&& forall|i: int| 0 <= i < digits.len() ==> hex_value(#[trigger] digits[i]) is Some
}

/// The bytes that pairs of hexadecimal digits write.
pub open spec fn hex_decoded(digits: Seq<u8>) -> Seq<u8> {
    Seq::new(
        digits.len() / 2,
        |i: int| (hex_value(digits[2 * i])->0 * 16 + hex_value(digits[2 * i + 1])->0) as u8,
    )
}

/// How the crate `hex` words that a byte is not a hexadecimal digit.
pub uninterp spec fn hex_complaint(digits: Seq<u8>) -> Seq<char>;

/// `hex::encode`: two digits for each byte.
#[verifier::external_body]
pub(crate) fn hex_encode(bytes: &[u8]) -> (r: String)
    ensures
        r@ == hex_encoded(bytes@),
{
    hex::encode(bytes)
}

/// `hex::decode`: the bytes that pairs of digits write. An odd number of digits
/// is refused first; the wording for a byte that is no digit is named.
#[verifier::external_body]
pub(crate) fn hex_decode(digits: &[u8]) -> (r: Result<Vec<u8>, String>)
    ensures
        match r {
            Ok(bytes) => is_hex(digits@) && bytes@ == hex_decoded(digits@),
            Err(e) => !is_hex(digits@) && e@ == if digits@.len() % 2 != 0 {
                "Odd number of digits"@
            } else {
                hex_complaint(digits@)
            },
        },
{
    hex::decode(digits).map_err(|err| err.to_string())
}

} // verus!
