use base64::engine::general_purpose::STANDARD;
use base64::Engine;
use stellar_wallet_tools::base64::{decode, encode};

#[test]
fn known_encodings() {
    assert_eq!(encode(b""), b"");
    assert_eq!(encode(b"f"), b"Zg==");
    assert_eq!(encode(b"fo"), b"Zm8=");
    assert_eq!(encode(b"foo"), b"Zm9v");
    assert_eq!(encode(b"foob"), b"Zm9vYg==");
    assert_eq!(encode(b"fooba"), b"Zm9vYmE=");
    assert_eq!(encode(b"foobar"), b"Zm9vYmFy");
    assert_eq!(encode(&[0xfb, 0xff, 0xbf]), b"+/+/");
}

#[test]
fn known_decodings() {
    assert_eq!(decode(b""), Some(vec![]));
    assert_eq!(decode(b"Zg=="), Some(b"f".to_vec()));
    assert_eq!(decode(b"Zm8="), Some(b"fo".to_vec()));
    assert_eq!(decode(b"Zm9v"), Some(b"foo".to_vec()));
    assert_eq!(decode(b"Zm9vYmFy"), Some(b"foobar".to_vec()));
    assert_eq!(decode(b"+/+/"), Some(vec![0xfb, 0xff, 0xbf]));
}

#[test]
fn text_that_is_not_canonical_is_refused() {
    // Wrong length.
    assert_eq!(decode(b"Zg"), None);
    assert_eq!(decode(b"Zg="), None);
    assert_eq!(decode(b"Zm9vY"), None);
    // Bytes outside the alphabet.
    assert_eq!(decode(b"Zm9*"), None);
    assert_eq!(decode(b"Zm 9"), None);
    assert_eq!(decode(b"Zm9v\n==="), None);
    // Padding in the wrong place.
    assert_eq!(decode(b"Zg==Zm9v"), None);
    assert_eq!(decode(b"=Zg="), None);
    assert_eq!(decode(b"Z==="), None);
    assert_eq!(decode(b"===="), None);
    assert_eq!(decode(b"Zm=v"), None);
    // Unused bits that are not zero.
    assert_eq!(decode(b"Zh=="), None);
    assert_eq!(decode(b"Zm9="), None);
}

#[test]
fn decoding_undoes_encoding_for_every_length() {
    let mut bytes: Vec<u8> = Vec::new();
    for i in 0..300u32 {
        let text = encode(&bytes);
        assert_eq!(text.len(), (bytes.len() + 2) / 3 * 4);
        assert_eq!(decode(&text), Some(bytes.clone()));
        bytes.push((i.wrapping_mul(37) ^ (i >> 3)) as u8);
    }
}

#[test]
fn encoding_agrees_with_the_base64_crate() {
    let mut bytes: Vec<u8> = Vec::new();
    for i in 0..200u32 {
        assert_eq!(encode(&bytes), STANDARD.encode(&bytes).into_bytes());
        bytes.push((i.wrapping_mul(101) ^ 0x5a) as u8);
    }
    let all: Vec<u8> = (0..=255u8).collect();
    assert_eq!(encode(&all), STANDARD.encode(&all).into_bytes());
}

#[test]
fn decoding_agrees_with_the_base64_crate() {
    let texts: [&[u8]; 8] =
        [b"", b"AA==", b"AAA=", b"AAAA", b"Zh==", b"////", b"Zm9vYg==", b"Zm9vYg="];
    for text in texts {
        assert_eq!(decode(text), STANDARD.decode(text).ok(), "{:?}", text);
    }
}
