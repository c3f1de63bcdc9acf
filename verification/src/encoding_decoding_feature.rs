//! Encoding and decoding of text, with Base64 as the one encoding on offer.

use vstd::prelude::*;
use vstd::string::*;
use vstd::utf8::*;
use crate::text::text_of;

verus! {

/// The error of `base64`'s decoding functions; nothing is read from it.
#[verifier::external_type_specification]
#[verifier::external_body]
pub struct ExDecodeError(base64::DecodeError);

/// The error of `String::from_utf8`; nothing is read from it.
#[verifier::external_type_specification]
#[verifier::external_body]
pub struct ExFromUtf8Error(std::string::FromUtf8Error);

/// The text that `base64`'s standard engine (standard alphabet, padded)
/// encodes `bytes` to.
pub uninterp spec fn base64_text(bytes: Seq<u8>) -> Seq<char>;

/// The bytes that `base64`'s standard engine decodes `text` to, if it accepts
/// `text` at all.
pub uninterp spec fn base64_bytes(text: Seq<char>) -> Option<Seq<u8>>;

/// The length of padded Base64 text for `n` bytes: four characters for every
/// group of up to three bytes.
pub open spec fn base64_len(n: nat) -> nat {
    4 * ((n + 2) / 3)
}

/// `Engine::encode` of `base64::engine::general_purpose::STANDARD`.
///
/// The crate computes the padded length `base64_len` first and panics when it
/// does not fit in `usize`, so such inputs are excluded. The text returned has
/// that length; its content is known only by name.
#[verifier::external_body]
fn standard_encode(bytes: &[u8]) -> (text: String)
    requires
        base64_len(bytes@.len()) <= usize::MAX,
    ensures
        text@ == base64_text(bytes@),
        text@.len() == base64_len(bytes@.len()),
{
    base64::Engine::encode(&base64::engine::general_purpose::STANDARD, bytes)
}

/// `Engine::decode` of `base64::engine::general_purpose::STANDARD`.
///
/// The outcome is known by name. Beyond that, the engine takes back what it
/// wrote itself: text that is the standard encoding of some bytes decodes to
/// exactly those bytes.
#[verifier::external_body]
fn standard_decode(text: &str) -> (bytes: Result<Vec<u8>, base64::DecodeError>)
    ensures
        bytes is Ok <==> base64_bytes(text@) is Some,
        bytes matches Ok(b) ==> base64_bytes(text@) == Some(b@),
        forall|origin: Seq<u8>|
            text@ == #[trigger] base64_text(origin) ==> bytes is Ok && bytes->Ok_0@ == origin,
{
    base64::Engine::decode(&base64::engine::general_purpose::STANDARD, text)
}

/// `String::from_utf8` of std: the text that `bytes` spell, or an error when
/// they are not valid UTF-8.
#[verifier::external_body]
fn string_from_utf8(bytes: Vec<u8>) -> (text: Result<String, std::string::FromUtf8Error>)
    ensures
        text is Ok <==> valid_utf8(bytes@),
        text matches Ok(s) ==> s@ == decode_utf8(bytes@),
{
    String::from_utf8(bytes)
}

/// What a line is encoded to: the Base64 text of its UTF-8 bytes.
pub open spec fn encoded_line(line: Seq<char>) -> Seq<char> {
    base64_text(encode_utf8(line))
}

/// Whether the Base64 text of `line` can be held in memory at all.
pub open spec fn encodable(line: Seq<char>) -> bool {
    base64_len(encode_utf8(line).len()) <= usize::MAX
}

/// What a line is decoded to: the text spelled by the bytes that the line is
/// the Base64 form of. There is none when the line is not Base64, or when the
/// bytes are not UTF-8.
pub open spec fn decoded_line(line: Seq<char>) -> Option<Seq<char>> {
    match base64_bytes(line) {
        Some(bytes) => if valid_utf8(bytes) {
            Some(decode_utf8(bytes))
        } else {
            None
        },
        None => None,
    }
}

/// Whether a text of `n` bytes can be Base64-encoded in memory.
pub fn fits_encoding(n: usize) -> (yes: bool)
    ensures
        yes == (base64_len(n as nat) <= usize::MAX),
{
    let groups: usize = n / 3 + (if n % 3 > 0 { 1 } else { 0 });
    assert(groups == (n + 2) / 3);
    groups <= usize::MAX / 4
}

/// Turns the outcome of Base64 decoding into text: the decoded bytes read as
/// UTF-8, or nothing when decoding failed or the bytes are not UTF-8.
pub fn decoded_text(bytes: Result<Vec<u8>, base64::DecodeError>) -> (text: Option<String>)
    ensures
        text_of(text) == match bytes {
            Ok(b) => if valid_utf8(b@) {
                Some(decode_utf8(b@))
            } else {
                None
            },
            Err(_) => None,
        },
{
    match bytes {
        Ok(b) => match string_from_utf8(b) {
            Ok(s) => Some(s),
            Err(_) => None,
        },
        Err(_) => None,
    }
}

/// A reversible encoding of text.
pub trait DataEncoding {
    /// Whether `data` is within the machine's limits for this encoding.
    spec fn can_encode(data: Seq<char>) -> bool;

    /// The encoded form of `data`.
    spec fn encoding(data: Seq<char>) -> Seq<char>;

    /// The text that `text` is the encoded form of, if any.
    spec fn decoding(text: Seq<char>) -> Option<Seq<char>>;

    /// Encodes `data`; this always succeeds.
    fn encode(data: &str) -> (encoded: Option<String>)
        requires
            Self::can_encode(data@),
        ensures
            text_of(encoded) == Some(Self::encoding(data@)),
    ;

    /// Decodes `text`; there is no result when `text` is not a valid encoding
    /// of any text. What was produced by `encode` decodes to what was encoded.
    fn decode(text: &str) -> (decoded: Option<String>)
        ensures
            text_of(decoded) == Self::decoding(text@),
            forall|data: Seq<char>|
                text@ == #[trigger] Self::encoding(data) ==> text_of(decoded) == Some(data),
    ;
}

/// Base64 with the standard alphabet and padding.
pub struct Base64;

impl DataEncoding for Base64 {
    open spec fn can_encode(data: Seq<char>) -> bool {
        encodable(data)
    }

    open spec fn encoding(data: Seq<char>) -> Seq<char> {
        encoded_line(data)
    }

    open spec fn decoding(text: Seq<char>) -> Option<Seq<char>> {
        decoded_line(text)
    }

    /// The Base64 text of the UTF-8 bytes of `data`: four characters for every
    /// three bytes or part of three, so none for the empty text.
    fn encode(data: &str) -> (encoded: Option<String>)
        ensures
            encoded matches Some(e) && e@.len() == base64_len(encode_utf8(data@).len()),
            data@.len() == 0 ==> text_of(encoded) == Some(Seq::<char>::empty()),
    {
        let bytes = data.as_bytes();
        assert(Self::can_encode(data@) == encodable(data@));
        let encoded = standard_encode(bytes);
        assert(Self::encoding(data@) == encoded@);
        proof {
            if data@.len() == 0 {
                assert(encode_utf8(data@).len() == 0);
                assert(encoded@ =~= Seq::<char>::empty());
            }
        }
        Some(encoded)
    }

    /// The text whose UTF-8 bytes `text` is the Base64 form of. Text that is
    /// not Base64, or whose bytes are not UTF-8, has no decoding.
    fn decode(text: &str) -> (decoded: Option<String>) {
        let bytes = standard_decode(text);
        proof {
            assert(Self::decoding(text@) == decoded_line(text@));
            assert forall|data: Seq<char>| text@ == #[trigger] Self::encoding(data) implies (
            bytes matches Ok(b) && valid_utf8(b@) && decode_utf8(b@) == data) by {
                assert(Self::encoding(data) == base64_text(encode_utf8(data)));
                encode_utf8_valid_utf8(data);
                encode_utf8_decode_utf8(data);
            }
        }
        decoded_text(bytes)
    }
}

} // verus!
