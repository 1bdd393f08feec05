//! The command surface: the option records the program works from, the
//! algorithm selector, and the checks applied to input designators.
//!
//! Whether a path exists on disk is established by the caller; the decision
//! functions here take that observation and apply the acceptance rules.

use vstd::prelude::*;

use crate::b64::Base64Format;
use crate::errors::TextError;

verus! {

/// The algorithm selector: which signing family an operation uses.
#[derive(Debug, Clone, Copy, PartialEq, Eq, Structural)]
pub enum TextSignFormat {
    /// The symmetric keyed hash.
    Blake3,
    /// The asymmetric digital signature.
    Ed25519,
}

/// Relies on `PartialEq` for `str`: two string slices are equal exactly when
/// they hold the same characters.
#[verifier::external_body]
fn str_eq(a: &str, b: &str) -> (r: bool)
    ensures
        r == (a@ == b@),
{
    a == b
}

impl TextSignFormat {
    /// The textual token of the selector, as it appears on the command line.
    pub fn as_text(&self) -> (r: &'static str)
        ensures
            *self is Blake3 ==> r@ == "blake3"@,
            *self is Ed25519 ==> r@ == "ed25519"@,
    {
        match self {
            TextSignFormat::Blake3 => "blake3",
            TextSignFormat::Ed25519 => "ed25519",
        }
    }

    /// Parse a selector token, case-sensitively: `"blake3"` or `"ed25519"`;
    /// any other token names no known algorithm.
    pub fn parse(s: &str) -> (r: Result<TextSignFormat, TextError>)
        ensures
            s@ == "blake3"@ ==> r == Ok::<TextSignFormat, TextError>(TextSignFormat::Blake3),
            s@ == "ed25519"@ ==> r == Ok::<TextSignFormat, TextError>(TextSignFormat::Ed25519),
            s@ != "blake3"@ && s@ != "ed25519"@ ==> (r matches Err(e) && e
                == TextError::UnsupportedAlgorithmError),
    {
        proof {
            reveal_strlit("blake3");
            reveal_strlit("ed25519");
            assert("blake3"@.len() == 6);
            assert("ed25519"@.len() == 7);
            assert("blake3"@ != "ed25519"@);
        }
        if str_eq(s, "blake3") {
            Ok(TextSignFormat::Blake3)
        } else if str_eq(s, "ed25519") {
            Ok(TextSignFormat::Ed25519)
        } else {
            Err(TextError::UnsupportedAlgorithmError)
        }
    }
}

impl core::str::FromStr for TextSignFormat {
    type Err = TextError;

    fn from_str(s: &str) -> (r: Result<TextSignFormat, TextError>) {
        TextSignFormat::parse(s)
    }
}

/// Accept an input designator: `"-"` stands for standard input and is always
/// accepted; any other designator is accepted exactly when the caller found
/// it to exist as a file.
pub fn verify_file(file_name: &str, exists: bool) -> (r: Result<String, &'static str>)
    ensures
        file_name@ == "-"@ || exists ==> (r matches Ok(s) && s@ == file_name@),
        file_name@ != "-"@ && !exists ==> (r matches Err(e) && e@ == "File does not exist"@),
{
    if str_eq(file_name, "-") || exists {
        Ok(file_name.to_owned())
    } else {
        Err("File does not exist")
    }
}

/// Accept an output directory designator: the caller must have found it to
/// exist and to be a directory.
pub fn verify_path(path: &str, exists: bool, is_dir: bool) -> (r: Result<String, &'static str>)
    ensures
        exists && is_dir ==> (r matches Ok(s) && s@ == path@),
        !(exists && is_dir) ==> (r matches Err(e) && e@
            == "Path does not exist or is not a directory"@),
{
    if exists && is_dir {
        Ok(path.to_owned())
    } else {
        Err("Path does not exist or is not a directory")
    }
}

/// The whole command line: one subcommand.
#[derive(Debug, Clone)]
pub struct Opts {
    pub cmd: SubCommand,
}

/// The program's subcommands.
#[derive(Debug, Clone)]
pub enum SubCommand {
    /// Convert CSV to a structured output file.
    Csv(crate::opts::CsvOpts),
    /// Generate a random password.
    GenPass(GenPassOpts),
    /// Base-64 encode or decode a byte stream.
    Base64(Base64SubCommand),
    /// Sign or verify a text buffer.
    Text(TextSubCommand),
}

/// Options of the password generator.
#[derive(Debug, Clone)]
pub struct GenPassOpts {
    pub uppercase: bool,
    pub lowercase: bool,
    pub number: bool,
    pub symbol: bool,
    pub length: u8,
}

/// The byte-stream transcoding subcommands.
#[derive(Debug, Clone)]
pub enum Base64SubCommand {
    Encode(Base64Opts),
    Decode(Base64Opts),
}

/// Options of a transcoding run: the input designator and the alphabet.
#[derive(Debug, Clone)]
pub struct Base64Opts {
    pub input: String,
    pub format: Base64Format,
}

/// The text-signing subcommands.
#[derive(Debug, Clone)]
pub enum TextSubCommand {
    /// Sign a message with a private or shared key.
    Sign(TextSignOpts),
    /// Verify a signed message.
    Verify(TextVerifyOpts),
}

/// Options of a signing run.
#[derive(Debug, Clone)]
pub struct TextSignOpts {
    /// The input designator; `"-"` stands for standard input.
    pub input: String,
    /// The key file designator.
    pub key: String,
    /// The algorithm selector.
    pub format: TextSignFormat,
}

/// Options of a verification run.
#[derive(Debug, Clone)]
pub struct TextVerifyOpts {
    /// The input designator; `"-"` stands for standard input.
    pub input: String,
    /// The key file designator.
    pub key: String,
    /// The algorithm selector.
    pub format: TextSignFormat,
    /// The encoded tag to check.
    pub sign: String,
}

} // verus!
