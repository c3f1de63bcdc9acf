//! Base64, as an encoding of its own and as two transforms.

use ricat::encoding_decoding_feature::{decoded_text, fits_encoding};
use ricat::{Base64, Base64Decoding, Base64Encoding, DataEncoding, LineTextFeature};

#[test]
fn encode_pads_to_groups_of_four() {
    assert_eq!(Base64::encode("f"), Some("Zg==".to_string()));
    assert_eq!(Base64::encode("fo"), Some("Zm8=".to_string()));
    assert_eq!(Base64::encode("foo"), Some("Zm9v".to_string()));
    assert_eq!(Base64::encode("foob"), Some("Zm9vYg==".to_string()));
    assert_eq!(Base64::encode("fooba"), Some("Zm9vYmE=".to_string()));
    assert_eq!(Base64::encode("foobar"), Some("Zm9vYmFy".to_string()));
}

#[test]
fn encode_uses_the_standard_alphabet() {
    assert_eq!(Base64::encode("~~~"), Some("fn5+".to_string()));
    assert_eq!(Base64::encode("???"), Some("Pz8/".to_string()));
}

#[test]
fn encode_works_on_the_utf8_bytes() {
    assert_eq!(Base64::encode("é"), Some("w6k=".to_string()));
    assert_eq!(Base64::encode("日本"), Some("5pel5pys".to_string()));
}

#[test]
fn encoded_length_is_four_for_every_three_bytes() {
    for n in 0..40 {
        let data = "x".repeat(n);
        let encoded = Base64::encode(&data).unwrap();
        assert_eq!(encoded.len(), 4 * ((n + 2) / 3));
    }
}

#[test]
fn decode_gives_back_what_was_encoded() {
    for text in ["", "a", "ab", "abc", "Hello, world!", "line with\ttab", "  ", "é日本語🙂", "=="] {
        let encoded = Base64::encode(text).unwrap();
        assert_eq!(Base64::decode(&encoded), Some(text.to_string()), "{:?}", text);
    }
}

#[test]
fn decode_of_the_empty_text_is_the_empty_text() {
    assert_eq!(Base64::decode(""), Some(String::new()));
}

#[test]
fn decode_turns_away_what_is_not_base64() {
    assert_eq!(Base64::decode("InvalidBase64=="), None);
    assert_eq!(Base64::decode("not base64!"), None);
    assert_eq!(Base64::decode("Zm9v\n"), None);
    assert_eq!(Base64::decode("Zm 9v"), None);
    assert_eq!(Base64::decode("Z"), None);
}

#[test]
fn decode_asks_for_the_padding() {
    assert_eq!(Base64::decode("Zg"), None);
    assert_eq!(Base64::decode("Zg="), None);
    assert_eq!(Base64::decode("Zg=="), Some("f".to_string()));
    assert_eq!(Base64::decode("Zm8"), None);
    assert_eq!(Base64::decode("Zm8="), Some("fo".to_string()));
}

#[test]
fn decode_turns_away_the_other_alphabet() {
    assert_eq!(Base64::decode("fn5-"), None);
    assert_eq!(Base64::decode("Pz8_"), None);
}

#[test]
fn decode_turns_away_bytes_that_are_not_utf8() {
    // "/w==" is the byte 0xFF, "wyg=" the bytes 0xC3 0x28.
    assert_eq!(Base64::decode("/w=="), None);
    assert_eq!(Base64::decode("wyg="), None);
    assert_eq!(Base64::decode("w6k="), Some("é".to_string()));
}

#[test]
fn decoded_text_reads_bytes_as_utf8() {
    assert_eq!(decoded_text(Ok(b"plain".to_vec())), Some("plain".to_string()));
    assert_eq!(decoded_text(Ok(vec![0xE6, 0x97, 0xA5])), Some("日".to_string()));
    assert_eq!(decoded_text(Ok(Vec::new())), Some(String::new()));
}

#[test]
fn decoded_text_is_nothing_for_bad_bytes_or_failed_decoding() {
    assert_eq!(decoded_text(Ok(vec![0xFF])), None);
    assert_eq!(decoded_text(Ok(vec![0xE6, 0x97])), None);
    assert_eq!(decoded_text(Err(base64::DecodeError::InvalidPadding)), None);
    assert_eq!(decoded_text(Err(base64::DecodeError::InvalidLength(1))), None);
}

#[test]
fn encoding_fits_up_to_three_quarters_of_the_address_space() {
    assert!(fits_encoding(0));
    assert!(fits_encoding(1));
    assert!(fits_encoding(4096));
    let most = 3 * (usize::MAX / 4);
    assert!(fits_encoding(most));
    assert!(!fits_encoding(most + 1));
    assert!(!fits_encoding(usize::MAX));
}

#[test]
fn encoding_transform_encodes_each_line() {
    let mut feature = Base64Encoding::new();
    assert_eq!(feature.apply_feature("Hello, world!"), Some("SGVsbG8sIHdvcmxkIQ==".to_string()));
    assert_eq!(feature.apply_feature(""), Some(String::new()));
    assert_eq!(feature.apply_feature("f"), Some("Zg==".to_string()));
}

#[test]
fn decoding_transform_decodes_or_suppresses() {
    let mut feature = Base64Decoding::new();
    assert_eq!(feature.apply_feature("SGVsbG8sIHdvcmxkIQ=="), Some("Hello, world!".to_string()));
    assert_eq!(feature.apply_feature("InvalidBase64=="), None);
    assert_eq!(feature.apply_feature("/w=="), None);
    // A suppressed line leaves nothing behind: the next line decodes as usual.
    assert_eq!(feature.apply_feature("Zm9v"), Some("foo".to_string()));
}

#[test]
fn decoding_transform_undoes_the_encoding_transform() {
    let mut encoding = Base64Encoding::new();
    let mut decoding = Base64Decoding::new();
    for line in ["", "one", "two words", "tab\there", "ünïcödé"] {
        let encoded = encoding.apply_feature(line).unwrap();
        assert_eq!(decoding.apply_feature(&encoded), Some(line.to_string()));
    }
}
