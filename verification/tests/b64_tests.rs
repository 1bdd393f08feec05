use base64::engine::general_purpose::STANDARD;
use base64::engine::general_purpose::URL_SAFE;
use base64::Engine;

use rcli::process_decode;
use rcli::process_encode;
use rcli::Base64Format;
use rcli::TextError;

#[test]
fn test_process_encode() {
    let input = "Cargo.toml".as_bytes().to_vec();
    let format = Base64Format::Standard;
    let encoded = process_encode(&input, format);
    assert!(!encoded.is_empty());
    assert_eq!(encoded, STANDARD.encode(&input));
}

#[test]
fn test_process_decode() {
    let input = "fixtures/b64.txt".as_bytes().to_vec();
    let format = Base64Format::UrlSafe;
    let encoded = process_encode(&input, format);
    let decoded = process_decode(&encoded, format).unwrap();
    assert_eq!(decoded, input);
}

#[test]
fn test_encode_matches_url_safe_engine() {
    let data: Vec<u8> = vec![0, 1, 2, 250, 251, 252, 253, 254, 255];
    assert_eq!(process_encode(&data, Base64Format::UrlSafe), URL_SAFE.encode(&data));
    assert_eq!(process_encode(&data, Base64Format::Standard), STANDARD.encode(&data));
}

#[test]
fn test_encode_known_values() {
    assert_eq!(process_encode(&b"".to_vec(), Base64Format::Standard), "");
    assert_eq!(process_encode(&b"f".to_vec(), Base64Format::Standard), "Zg==");
    assert_eq!(process_encode(&b"fo".to_vec(), Base64Format::Standard), "Zm8=");
    assert_eq!(process_encode(&b"foo".to_vec(), Base64Format::Standard), "Zm9v");
    assert_eq!(process_encode(&b"foob".to_vec(), Base64Format::Standard), "Zm9vYg==");
    assert_eq!(process_encode(&b"fooba".to_vec(), Base64Format::Standard), "Zm9vYmE=");
    assert_eq!(process_encode(&b"foobar".to_vec(), Base64Format::Standard), "Zm9vYmFy");
}

#[test]
fn test_round_trip_many_lengths() {
    for n in 0..40usize {
        let data: Vec<u8> = (0..n).map(|i| (i * 37 + 11) as u8).collect();
        for format in [Base64Format::Standard, Base64Format::UrlSafe] {
            let encoded = process_encode(&data, format);
            assert_eq!(process_decode(&encoded, format), Ok(data.clone()));
        }
    }
}

#[test]
fn test_round_trip_empty() {
    let encoded = process_encode(&Vec::new(), Base64Format::UrlSafe);
    assert_eq!(encoded, "");
    assert_eq!(process_decode(&encoded, Base64Format::UrlSafe), Ok(Vec::new()));
}

#[test]
fn test_decode_rejects_bad_text() {
    assert_eq!(process_decode("Zg!=", Base64Format::Standard), Err(TextError::TagDecodeError));
    assert_eq!(process_decode("Zg", Base64Format::Standard), Err(TextError::TagDecodeError));
    assert_eq!(process_decode("Zg===", Base64Format::Standard), Err(TextError::TagDecodeError));
    // `+` and `/` belong to the standard alphabet only.
    assert_eq!(process_decode("+/A=", Base64Format::UrlSafe), Err(TextError::TagDecodeError));
    assert!(process_decode("+/+/", Base64Format::Standard).is_ok());
    // `-` and `_` belong to the URL-safe alphabet only.
    assert_eq!(process_decode("-_A=", Base64Format::Standard), Err(TextError::TagDecodeError));
    assert!(process_decode("-_-_", Base64Format::UrlSafe).is_ok());
}

#[test]
fn test_decode_agrees_with_engine() {
    let samples = ["AAAA", "AA==", "AAA=", "////", "____", "SGVsbG8="];
    for s in samples {
        let ours_std = process_decode(s, Base64Format::Standard);
        let theirs_std = STANDARD.decode(s);
        assert_eq!(ours_std.is_ok(), theirs_std.is_ok(), "standard {}", s);
        if let (Ok(a), Ok(b)) = (ours_std, theirs_std) {
            assert_eq!(a, b, "standard {}", s);
        }
        let ours_url = process_decode(s, Base64Format::UrlSafe);
        let theirs_url = URL_SAFE.decode(s);
        assert_eq!(ours_url.is_ok(), theirs_url.is_ok(), "url {}", s);
        if let (Ok(a), Ok(b)) = (ours_url, theirs_url) {
            assert_eq!(a, b, "url {}", s);
        }
    }
}
