use rcli::verify_file;
use rcli::verify_path;
use rcli::opts::verify_input_file;
use rcli::TextSignFormat;
use rcli::TextError;

#[test]
fn test_verify_input_file() {
    // Whether a designator exists on disk is an explicit input here; these
    // are the observations for a directory that holds a Cargo.toml.
    assert_eq!(verify_file("-", false), Ok("-".into()));
    assert_eq!(verify_file("*", false), Err("File does not exist"));
    assert_eq!(verify_file("Cargo.toml", true), Ok("Cargo.toml".into()));
    assert_eq!(verify_file("not-exist", false), Err("File does not exist"));
}

#[test]
fn test_verify_input_file_plain() {
    assert_eq!(verify_input_file("Cargo.toml", true), Ok("Cargo.toml".into()));
    assert_eq!(verify_input_file("not-exist", false), Err("file not exist"));
}

#[test]
fn test_verify_path() {
    assert_eq!(verify_path("src", true, true), Ok("src".into()));
    assert_eq!(
        verify_path("Cargo.toml", true, false),
        Err("Path does not exist or is not a directory")
    );
    assert_eq!(
        verify_path("not-exist", false, false),
        Err("Path does not exist or is not a directory")
    );
}

#[test]
fn test_parse_format() {
    assert_eq!(TextSignFormat::parse("blake3"), Ok(TextSignFormat::Blake3));
    assert_eq!(TextSignFormat::parse("ed25519"), Ok(TextSignFormat::Ed25519));
    assert_eq!(TextSignFormat::parse("sha256"), Err(TextError::UnsupportedAlgorithmError));
    assert_eq!(TextSignFormat::parse("Blake3"), Err(TextError::UnsupportedAlgorithmError));
}

#[test]
fn test_format_from_str() {
    assert_eq!("blake3".parse::<TextSignFormat>(), Ok(TextSignFormat::Blake3));
    assert_eq!("ed25519".parse::<TextSignFormat>(), Ok(TextSignFormat::Ed25519));
    assert!("".parse::<TextSignFormat>().is_err());
}

#[test]
fn test_format_text() {
    assert_eq!(TextSignFormat::Blake3.as_text(), "blake3");
    assert_eq!(TextSignFormat::Ed25519.as_text(), "ed25519");
}

#[test]
fn test_error_messages() {
    assert_eq!(TextError::KeyFormatError.message(), "key material is too short");
    assert_eq!(TextError::GenerationError.message(), "entropy source unavailable");
}
