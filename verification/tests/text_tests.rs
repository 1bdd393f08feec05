use base64::engine::general_purpose::URL_SAFE_NO_PAD;
use base64::Engine;

use rcli::process_generate;
use rcli::process_text_sign;
use rcli::process_text_verify;
use rcli::text::Blake3;
use rcli::text::Ed25519Signer;
use rcli::text::Ed25519Verifier;
use rcli::text::KeyGenerator;
use rcli::text::KeyLoader;
use rcli::text::TextSign;
use rcli::text::TextVerify;
use rcli::TextError;
use rcli::TextSignFormat;

#[test]
fn test_blake3_sign_verify() {
    let key: Vec<u8> = (0..32u8).collect();
    let blake3 = Blake3::try_new(&key).unwrap();

    let data = b"hello world";
    let sig = blake3.sign(&data.to_vec());
    assert!(blake3.verify(&data.to_vec(), &sig).unwrap());
}

#[test]
fn test_blake3_golden_zero_key() {
    // KeyedHash, key = 32 zero bytes, input = "hello world": the tag is the
    // keyed hash fixed by the algorithm itself, cross-checked here.
    let key = vec![0u8; 32];
    let data = b"hello world".to_vec();
    let encoded = process_text_sign(&data, &key, TextSignFormat::Blake3).unwrap();
    let expected = blake3::keyed_hash(&[0u8; 32], b"hello world");
    assert_eq!(encoded, URL_SAFE_NO_PAD.encode(expected.as_bytes()));
    assert_eq!(encoded, "9w1nUwM4JGplIurp2q2SwN_UvPTlEWAtlumv0dIhBHk");

    assert_eq!(process_text_verify(&data, &key, &encoded, TextSignFormat::Blake3), Ok(true));

    // Any single flipped bit in the input makes verification return false.
    for byte in 0..data.len() {
        for bit in 0..8 {
            let mut tampered = data.clone();
            tampered[byte] ^= 1 << bit;
            assert_eq!(
                process_text_verify(&tampered, &key, &encoded, TextSignFormat::Blake3),
                Ok(false)
            );
        }
    }
}

#[test]
fn test_blake3_deterministic() {
    let key = vec![7u8; 32];
    let data = b"determinism".to_vec();
    let one = process_text_sign(&data, &key, TextSignFormat::Blake3).unwrap();
    let two = process_text_sign(&data, &key, TextSignFormat::Blake3).unwrap();
    assert_eq!(one, two);
}

#[test]
fn test_blake3_key_sensitivity() {
    let data = b"same input".to_vec();
    let one = process_text_sign(&data, &vec![1u8; 32], TextSignFormat::Blake3).unwrap();
    let two = process_text_sign(&data, &vec![2u8; 32], TextSignFormat::Blake3).unwrap();
    assert_ne!(one, two);
}

#[test]
fn test_blake3_key_truncation() {
    // More than 32 bytes of key material: only the first 32 are used.
    let mut long_key = vec![9u8; 32];
    long_key.extend_from_slice(b"ignored tail");
    let data = b"payload".to_vec();
    let with_long = process_text_sign(&data, &long_key, TextSignFormat::Blake3).unwrap();
    let with_exact = process_text_sign(&data, &vec![9u8; 32], TextSignFormat::Blake3).unwrap();
    assert_eq!(with_long, with_exact);
}

#[test]
fn test_short_key_rejected() {
    let key = vec![0u8; 31];
    let data = b"anything".to_vec();
    assert_eq!(
        process_text_sign(&data, &key, TextSignFormat::Blake3),
        Err(TextError::KeyFormatError)
    );
    assert_eq!(
        process_text_sign(&data, &key, TextSignFormat::Ed25519),
        Err(TextError::KeyFormatError)
    );
    assert!(matches!(Blake3::try_new(&key), Err(TextError::KeyFormatError)));
    assert!(matches!(Blake3::load(&key), Err(TextError::KeyFormatError)));
    assert!(matches!(Ed25519Signer::try_new(&key), Err(TextError::KeyFormatError)));
    assert!(matches!(Ed25519Verifier::try_new(&key), Err(TextError::KeyFormatError)));
    assert!(matches!(Blake3::try_new(&[]), Err(TextError::KeyFormatError)));
}

#[test]
fn test_blake3_wrong_tag_length_is_error() {
    let key = vec![0u8; 32];
    let data = b"hello".to_vec();
    // A 31-byte tag has the wrong length for the keyed hash: an error, not false.
    let short_tag = URL_SAFE_NO_PAD.encode([0u8; 31]);
    assert_eq!(
        process_text_verify(&data, &key, &short_tag, TextSignFormat::Blake3),
        Err(TextError::SignatureFormatError)
    );
}

#[test]
fn test_bad_tag_text_is_error() {
    let key = vec![0u8; 32];
    let data = b"hello".to_vec();
    assert_eq!(
        process_text_verify(&data, &key, "not!base64", TextSignFormat::Blake3),
        Err(TextError::TagDecodeError)
    );
    // Unpadded text must not carry padding characters.
    assert_eq!(
        process_text_verify(&data, &key, "AAAA====", TextSignFormat::Blake3),
        Err(TextError::TagDecodeError)
    );
}

#[test]
fn test_ed25519_empty_buffer_round_trip() {
    // Signature, freshly generated keypair, empty input buffer.
    let keys = process_generate(TextSignFormat::Ed25519).unwrap();
    assert_eq!(keys.len(), 2);
    let sk = &keys[0];
    let pk = &keys[1];
    assert_eq!(sk.len(), 32);
    assert_eq!(pk.len(), 32);

    let data = Vec::new();
    let encoded = process_text_sign(&data, sk, TextSignFormat::Ed25519).unwrap();
    let raw = URL_SAFE_NO_PAD.decode(&encoded).unwrap();
    assert_eq!(raw.len(), 64);
    assert_eq!(process_text_verify(&data, pk, &encoded, TextSignFormat::Ed25519), Ok(true));

    // A different freshly generated public key does not accept the tag.
    let other = process_generate(TextSignFormat::Ed25519).unwrap();
    assert_eq!(process_text_verify(&data, &other[1], &encoded, TextSignFormat::Ed25519), Ok(false));
}

#[test]
fn test_ed25519_round_trip_nonempty() {
    let keys = process_generate(TextSignFormat::Ed25519).unwrap();
    let data = b"a message of some length".to_vec();
    let encoded = process_text_sign(&data, &keys[0], TextSignFormat::Ed25519).unwrap();
    assert_eq!(process_text_verify(&data, &keys[1], &encoded, TextSignFormat::Ed25519), Ok(true));

    // Tampering with any single byte makes verification return false.
    for byte in 0..data.len() {
        let mut tampered = data.clone();
        tampered[byte] ^= 0x40;
        assert_eq!(
            process_text_verify(&tampered, &keys[1], &encoded, TextSignFormat::Ed25519),
            Ok(false)
        );
    }
}

#[test]
fn test_ed25519_63_byte_tag_is_error() {
    // Signature, verify called with a 63-byte tag: SignatureFormatError, not false.
    let keys = process_generate(TextSignFormat::Ed25519).unwrap();
    let tag = URL_SAFE_NO_PAD.encode([0u8; 63]);
    let data = b"whatever".to_vec();
    assert_eq!(
        process_text_verify(&data, &keys[1], &tag, TextSignFormat::Ed25519),
        Err(TextError::SignatureFormatError)
    );
}

#[test]
fn test_ed25519_invalid_key_rejected() {
    // Roughly half of all 32-byte values are not valid curve points; find
    // some and check they are rejected as InvalidKeyError, not KeyFormatError.
    let mut invalid_seen = 0usize;
    for i in 0..=255u8 {
        let key = vec![i; 32];
        match Ed25519Verifier::try_new(&key) {
            Ok(_) => {},
            Err(e) => {
                assert_eq!(e, TextError::InvalidKeyError);
                invalid_seen += 1;
            },
        }
    }
    assert!(invalid_seen > 0);
}

#[test]
fn test_ed25519_signer_loads_and_signs() {
    // Every 32-byte value is usable as a signing key; the derived keypair
    // verifies its own signatures.
    let sk = vec![42u8; 32];
    let signer = Ed25519Signer::load(&sk).unwrap();
    let data = b"load then sign".to_vec();
    let sig = signer.sign(&data);
    assert_eq!(sig.len(), 64);

    let dalek = ed25519_dalek::SigningKey::from_bytes(&[42u8; 32]);
    let pk = dalek.verifying_key().to_bytes().to_vec();
    let verifier = Ed25519Verifier::load(&pk).unwrap();
    assert_eq!(verifier.verify(&data, &sig), Ok(true));
    assert_eq!(verifier.verify(&b"other".to_vec(), &sig), Ok(false));
}

#[test]
fn test_generate_blake3_key() {
    let keys = process_generate(TextSignFormat::Blake3).unwrap();
    assert_eq!(keys.len(), 1);
    assert_eq!(keys[0].len(), 32);
    for b in &keys[0] {
        assert!(b.is_ascii_graphic());
    }
    // The generated key is directly usable.
    let data = b"fresh key".to_vec();
    let encoded = process_text_sign(&data, &keys[0], TextSignFormat::Blake3).unwrap();
    assert_eq!(process_text_verify(&data, &keys[0], &encoded, TextSignFormat::Blake3), Ok(true));
}

#[test]
fn test_generate_keys_differ() {
    let one = process_generate(TextSignFormat::Blake3).unwrap();
    let two = process_generate(TextSignFormat::Blake3).unwrap();
    assert_ne!(one[0], two[0]);
}

#[test]
fn test_blake3_generate_trait() {
    let keys = Blake3::generate().unwrap();
    assert_eq!(keys.len(), 1);
    assert_eq!(keys[0].len(), 32);
}

#[test]
fn test_genpass_shape() {
    let one = rcli::process_genpass(true, true, true, true, 32).unwrap();
    assert_eq!(one.len(), 32);
    assert!(one.bytes().any(|b| b.is_ascii_uppercase()));
    assert!(one.bytes().any(|b| b.is_ascii_lowercase()));
    assert!(one.bytes().any(|b| b.is_ascii_digit()));
    assert!(one.bytes().any(|b| !b.is_ascii_alphanumeric()));

    let digits = rcli::process_genpass(false, false, true, false, 8).unwrap();
    assert_eq!(digits.len(), 8);
    assert!(digits.bytes().all(|b| b.is_ascii_digit() && b != b'0'));
}
