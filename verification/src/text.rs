//! The signing and verification core.
//!
//! Two algorithm families stand behind one polymorphic surface: a symmetric
//! keyed hash (shared-secret authentication) and an asymmetric digital
//! signature (public verification, private signing). The dispatch layer
//! builds the concrete signer or verifier for the requested algorithm from
//! raw key bytes, signs or verifies a whole input buffer, and carries tags
//! through the URL-safe unpadded base-64 codec.

use vstd::prelude::*;
use vstd::string::StringSliceAdditionalSpecFns;

use ed25519_dalek::Signature;
use ed25519_dalek::Signer as DalekSigner;
use ed25519_dalek::SigningKey;
use ed25519_dalek::Verifier as DalekVerifier;
use ed25519_dalek::VerifyingKey;
use rand::rngs::OsRng;
use rand::RngCore;

use crate::b64::ascii_to_string;
use crate::b64::b64_decode_bytes;
use crate::b64::b64_encode_bytes;
use crate::b64::lemma_b64_round_trip;
use crate::b64::lemma_encode_ascii;
use crate::b64::spec_b64_decode;
use crate::b64::spec_b64_encode;
use crate::b64::spec_chars_of;
use crate::cli::TextSignFormat;
use crate::errors::TextError;
use crate::gen_pass::genpass_bytes;
use crate::gen_pass::spec_allowed;
use crate::gen_pass::spec_lower_chars;
use crate::gen_pass::spec_number_chars;
use crate::gen_pass::spec_symbol_chars;
use crate::gen_pass::spec_upper_chars;

verus! {

/// A sequence cut or zero-padded to exactly `n` bytes.
pub open spec fn spec_fixed(s: Seq<u8>, n: nat) -> Seq<u8> {
    Seq::new(n, |i: int| if i < s.len() { s[i] } else { 0u8 })
}

/// What `blake3::keyed_hash` returns for a 32-byte key and an input buffer.
pub uninterp spec fn blake3_keyed_raw(key: Seq<u8>, data: Seq<u8>) -> Seq<u8>;

/// The 32-byte keyed digest of an input buffer: the symmetric tag.
pub open spec fn blake3_keyed_digest(key: Seq<u8>, data: Seq<u8>) -> Seq<u8> {
    spec_fixed(blake3_keyed_raw(key, data), 32)
}

/// What the ed25519 signing routine returns for a 32-byte private key and a
/// message; ed25519 signing is deterministic, so this is a function of its
/// arguments alone.
pub uninterp spec fn ed25519_sig_raw(key: Seq<u8>, data: Seq<u8>) -> Seq<u8>;

/// The 64-byte ed25519 signature over a message: the asymmetric tag.
pub open spec fn ed25519_sig_of(key: Seq<u8>, data: Seq<u8>) -> Seq<u8> {
    spec_fixed(ed25519_sig_raw(key, data), 64)
}

/// What the ed25519 public-key derivation returns for a 32-byte private key.
pub uninterp spec fn ed25519_pub_raw(key: Seq<u8>) -> Seq<u8>;

/// The 32-byte public verification key derived from a private signing key.
pub open spec fn ed25519_public_of(key: Seq<u8>) -> Seq<u8> {
    spec_fixed(ed25519_pub_raw(key), 32)
}

/// Whether 32 bytes decompress to a valid ed25519 verifying key.
pub uninterp spec fn ed25519_key_valid(key: Seq<u8>) -> bool;

/// Whether an ed25519 signature is valid for a message under a public key.
pub uninterp spec fn ed25519_accepts(key: Seq<u8>, data: Seq<u8>, sig: Seq<u8>) -> bool;

// ---------------------------------------------------------------------------
// The outside cryptographic routines, behind trusted wrappers.
// ---------------------------------------------------------------------------

/// Relies on `blake3::keyed_hash`: the 32-byte keyed digest of the input,
/// a function of the key and input bytes alone.
#[verifier::external_body]
fn blake3_keyed_hash_bytes(key: &[u8], data: &[u8]) -> (r: Vec<u8>)
    requires
        key@.len() == 32,
    ensures
        r@ == blake3_keyed_raw(key@, data@),
        r@ == blake3_keyed_digest(key@, data@),
        r@.len() == 32,
{
    let mut k = [0u8; 32];
    k.copy_from_slice(key);
    blake3::keyed_hash(&k, data).as_bytes().to_vec()
}

/// Relies on `SigningKey::from_bytes` and `Signer::sign` of ed25519-dalek:
/// a deterministic 64-byte signature, a function of the key and message
/// alone, which verifies under the signer's public key.
#[verifier::external_body]
fn ed25519_sign_bytes(key: &[u8], data: &[u8]) -> (r: Vec<u8>)
    requires
        key@.len() == 32,
    ensures
        r@ == ed25519_sig_raw(key@, data@),
        r@ == ed25519_sig_of(key@, data@),
        r@.len() == 64,
        ed25519_accepts(ed25519_public_of(key@), data@, r@),
{
    let mut k = [0u8; 32];
    k.copy_from_slice(key);
    let sk = SigningKey::from_bytes(&k);
    sk.sign(data).to_vec()
}

/// Relies on `SigningKey::verifying_key` of ed25519-dalek: the public key
/// derived from a private key, a function of the key bytes alone; the
/// result always parses back as a valid verifying key.
#[verifier::external_body]
fn ed25519_public_key_bytes(key: &[u8]) -> (r: Vec<u8>)
    requires
        key@.len() == 32,
    ensures
        r@ == ed25519_pub_raw(key@),
        r@ == ed25519_public_of(key@),
        r@.len() == 32,
        ed25519_key_valid(r@),
{
    let mut k = [0u8; 32];
    k.copy_from_slice(key);
    SigningKey::from_bytes(&k).verifying_key().to_bytes().to_vec()
}

/// Relies on `VerifyingKey::from_bytes` of ed25519-dalek: whether 32 bytes
/// decompress to a valid curve point, a function of the bytes alone.
#[verifier::external_body]
fn ed25519_key_check(key: &[u8]) -> (r: bool)
    requires
        key@.len() == 32,
    ensures
        r == ed25519_key_valid(key@),
{
    let mut k = [0u8; 32];
    k.copy_from_slice(key);
    VerifyingKey::from_bytes(&k).is_ok()
}

/// Relies on `Verifier::verify` of ed25519-dalek: whether the signature is
/// valid for the message under the public key, a function of its arguments
/// alone.
#[verifier::external_body]
fn ed25519_verify_bytes(key: &[u8], data: &[u8], sig: &[u8]) -> (r: bool)
    requires
        key@.len() == 32,
        ed25519_key_valid(key@),
        sig@.len() == 64,
    ensures
        r == ed25519_accepts(key@, data@, sig@),
{
    let mut k = [0u8; 32];
    k.copy_from_slice(key);
    let mut sb = [0u8; 64];
    sb.copy_from_slice(sig);
    match VerifyingKey::from_bytes(&k) {
        Ok(vk) => vk.verify(data, &Signature::from_bytes(&sb)).is_ok(),
        Err(_) => false,
    }
}

/// Relies on `OsRng::try_fill_bytes` of rand: 32 random bytes from the
/// operating system, or a report that entropy is unavailable.
#[verifier::external_body]
fn os_random_32() -> (r: Result<Vec<u8>, TextError>)
    ensures
        r matches Ok(v) ==> v@.len() == 32,
        r matches Err(e) ==> e == TextError::GenerationError,
{
    let mut b = [0u8; 32];
    match OsRng.try_fill_bytes(&mut b) {
        Ok(()) => Ok(b.to_vec()),
        Err(_) => Err(TextError::GenerationError),
    }
}

/// Byte-for-byte equality of two slices.
fn bytes_equal(a: &[u8], b: &[u8]) -> (r: bool)
    ensures
        r == (a@ == b@),
{
    if a.len() != b.len() {
        return false;
    }
    let mut i: usize = 0;
    while i < a.len()
        invariant
            i <= a@.len(),
            a@.len() == b@.len(),
            forall|j: int| 0 <= j < i ==> a@[j] == b@[j],
        decreases a@.len() - i,
    {
        if a[i] != b[i] {
            return false;
        }
        i += 1;
    }
    proof {
        assert(a@ =~= b@);
    }
    true
}

// ---------------------------------------------------------------------------
// The polymorphic surface.
// ---------------------------------------------------------------------------

/// Producing a raw authentication tag over a whole input buffer.
pub trait TextSign {
    /// Whether the signer is well formed.
    spec fn sign_wf(&self) -> bool;

    /// The tag this signer produces for an input buffer.
    spec fn spec_tag(&self, data: Seq<u8>) -> Seq<u8>;

    /// Sign the whole input buffer and return the raw tag bytes.
    fn sign(&self, data: &Vec<u8>) -> (r: Vec<u8>)
        requires
            self.sign_wf(),
        ensures
            r@ == self.spec_tag(data@),
    ;
}

/// Checking a raw tag against a whole input buffer.
pub trait TextVerify {
    /// Whether the verifier is well formed.
    spec fn verify_wf(&self) -> bool;

    /// The exact byte length a tag must have for this verifier.
    spec fn spec_tag_len(&self) -> nat;

    /// Whether the verifier accepts a tag for an input buffer.
    spec fn spec_accepts(&self, data: Seq<u8>, sig: Seq<u8>) -> bool;

    /// Check a raw tag: a tag of the wrong byte length cannot be checked and
    /// is an error, never a plain `false`.
    fn verify(&self, data: &Vec<u8>, sig: &[u8]) -> (r: Result<bool, TextError>)
        requires
            self.verify_wf(),
        ensures
            sig@.len() != self.spec_tag_len() ==> (r matches Err(e) && e
                == TextError::SignatureFormatError),
            sig@.len() == self.spec_tag_len() ==> (r matches Ok(b) && b == self.spec_accepts(
                data@,
                sig@,
            )),
    ;
}

/// Building a signer or verifier from raw key material.
pub trait KeyLoader: Sized {
    /// Whether 32 bytes of key material form a usable key for this type.
    spec fn spec_key_ok(key: Seq<u8>) -> bool;

    /// Whether the built value is well formed.
    spec fn load_wf(&self) -> bool;

    /// The key the built value holds.
    spec fn spec_key(&self) -> Seq<u8>;

    /// Use exactly the first 32 bytes of `key`; fewer are a `KeyFormatError`,
    /// 32 bytes that do not form a usable key are an `InvalidKeyError`.
    fn load(key: &[u8]) -> (r: Result<Self, TextError>)
        ensures
            key@.len() < 32 ==> (r matches Err(e) && e == TextError::KeyFormatError),
            key@.len() >= 32 && Self::spec_key_ok(key@.take(32)) ==> (r matches Ok(v)
                && v.load_wf() && v.spec_key() == key@.take(32)),
            key@.len() >= 32 && !Self::spec_key_ok(key@.take(32)) ==> (r matches Err(e) && e
                == TextError::InvalidKeyError),
    ;
}

/// Generating fresh key material appropriate to the algorithm.
pub trait KeyGenerator {
    /// What must hold of any generated list of key buffers.
    spec fn spec_keys_ok(r: Seq<Seq<u8>>) -> bool;

    /// Generate fresh key material; fails only when entropy is unavailable.
    fn generate() -> (r: Result<Vec<Vec<u8>>, TextError>)
        ensures
            r matches Ok(v) ==> Self::spec_keys_ok(v.deep_view()),
            r matches Err(e) ==> e == TextError::GenerationError,
    ;
}

// ---------------------------------------------------------------------------
// The symmetric keyed-hash signer/verifier.
// ---------------------------------------------------------------------------

/// The symmetric algorithm: one 32-byte shared key, tags are 32-byte keyed
/// digests, and verification recomputes and compares.
pub struct Blake3 {
    key: Vec<u8>,
}

impl Blake3 {
    /// The held symmetric key.
    pub closed spec fn key_bytes(&self) -> Seq<u8> {
        self.key@
    }

    /// The key is exactly 32 bytes.
    pub open spec fn wf(&self) -> bool {
        self.key_bytes().len() == 32
    }

    /// Wrap an exactly 32-byte key.
    pub fn new(key: Vec<u8>) -> (r: Self)
        requires
            key@.len() == 32,
        ensures
            r.wf(),
            r.key_bytes() == key@,
    {
        Blake3 { key }
    }

    /// Use exactly the first 32 bytes of `key`; fail with `KeyFormatError` if
    /// fewer are supplied. Longer key material is truncated, never rejected.
    pub fn try_new(key: &[u8]) -> (r: Result<Self, TextError>)
        ensures
            key@.len() < 32 ==> (r matches Err(e) && e == TextError::KeyFormatError),
            key@.len() >= 32 ==> (r matches Ok(v) && v.wf() && v.key_bytes() == key@.take(32)),
    {
        if key.len() < 32 {
            return Err(TextError::KeyFormatError);
        }
        let head = vstd::slice::slice_subrange(key, 0, 32);
        let k = vstd::slice::slice_to_vec(head);
        Ok(Blake3::new(k))
    }
}

impl TextSign for Blake3 {
    open spec fn sign_wf(&self) -> bool {
        self.wf()
    }

    open spec fn spec_tag(&self, data: Seq<u8>) -> Seq<u8> {
        blake3_keyed_digest(self.key_bytes(), data)
    }

    fn sign(&self, data: &Vec<u8>) -> (r: Vec<u8>) {
        blake3_keyed_hash_bytes(self.key.as_slice(), data.as_slice())
    }
}

impl TextVerify for Blake3 {
    open spec fn verify_wf(&self) -> bool {
        self.wf()
    }

    open spec fn spec_tag_len(&self) -> nat {
        32
    }

    open spec fn spec_accepts(&self, data: Seq<u8>, sig: Seq<u8>) -> bool {
        sig == blake3_keyed_digest(self.key_bytes(), data)
    }

    fn verify(&self, data: &Vec<u8>, sig: &[u8]) -> (r: Result<bool, TextError>) {
        if sig.len() != 32 {
            return Err(TextError::SignatureFormatError);
        }
        let digest = blake3_keyed_hash_bytes(self.key.as_slice(), data.as_slice());
        Ok(bytes_equal(sig, digest.as_slice()))
    }
}

impl KeyLoader for Blake3 {
    open spec fn spec_key_ok(key: Seq<u8>) -> bool {
        true
    }

    open spec fn load_wf(&self) -> bool {
        self.wf()
    }

    open spec fn spec_key(&self) -> Seq<u8> {
        self.key_bytes()
    }

    fn load(key: &[u8]) -> (r: Result<Self, TextError>) {
        Blake3::try_new(key)
    }
}

impl KeyGenerator for Blake3 {
    open spec fn spec_keys_ok(r: Seq<Seq<u8>>) -> bool {
        &&& r.len() == 1
        &&& r[0].len() == 32
        &&& forall|i: int| 0 <= i < 32 ==> spec_allowed(#[trigger] r[0][i], true, true, true, true)
        &&& exists|c: u8| spec_upper_chars().contains(c) && r[0].contains(c)
        &&& exists|c: u8| spec_lower_chars().contains(c) && r[0].contains(c)
        &&& exists|c: u8| spec_number_chars().contains(c) && r[0].contains(c)
        &&& exists|c: u8| spec_symbol_chars().contains(c) && r[0].contains(c)
    }

    fn generate() -> (r: Result<Vec<Vec<u8>>, TextError>) {
        let pw = genpass_bytes(true, true, true, true, 32);
        let mut out: Vec<Vec<u8>> = Vec::new();
        out.push(pw);
        proof {
            assert(out.deep_view() =~~= seq![out@[0]@]);
        }
        Ok(out)
    }
}

// ---------------------------------------------------------------------------
// The asymmetric signer and verifier.
// ---------------------------------------------------------------------------

/// The asymmetric signer: holds one 32-byte private signing key and produces
/// 64-byte ed25519 signatures.
pub struct Ed25519Signer {
    key: Vec<u8>,
}

impl Ed25519Signer {
    /// The held private signing key.
    pub closed spec fn key_bytes(&self) -> Seq<u8> {
        self.key@
    }

    /// The key is exactly 32 bytes.
    pub open spec fn wf(&self) -> bool {
        self.key_bytes().len() == 32
    }

    /// Use exactly the first 32 bytes of `key`; fail with `KeyFormatError` if
    /// fewer are supplied. Every 32-byte value is a usable signing key.
    pub fn try_new(key: &[u8]) -> (r: Result<Self, TextError>)
        ensures
            key@.len() < 32 ==> (r matches Err(e) && e == TextError::KeyFormatError),
            key@.len() >= 32 ==> (r matches Ok(v) && v.wf() && v.key_bytes() == key@.take(32)),
    {
        if key.len() < 32 {
            return Err(TextError::KeyFormatError);
        }
        let head = vstd::slice::slice_subrange(key, 0, 32);
        let k = vstd::slice::slice_to_vec(head);
        Ok(Ed25519Signer { key: k })
    }
}

impl TextSign for Ed25519Signer {
    open spec fn sign_wf(&self) -> bool {
        self.wf()
    }

    open spec fn spec_tag(&self, data: Seq<u8>) -> Seq<u8> {
        ed25519_sig_of(self.key_bytes(), data)
    }

    fn sign(&self, data: &Vec<u8>) -> (r: Vec<u8>) {
        ed25519_sign_bytes(self.key.as_slice(), data.as_slice())
    }
}

impl KeyLoader for Ed25519Signer {
    open spec fn spec_key_ok(key: Seq<u8>) -> bool {
        true
    }

    open spec fn load_wf(&self) -> bool {
        self.wf()
    }

    open spec fn spec_key(&self) -> Seq<u8> {
        self.key_bytes()
    }

    fn load(key: &[u8]) -> (r: Result<Self, TextError>) {
        Ed25519Signer::try_new(key)
    }
}

impl KeyGenerator for Ed25519Signer {
    open spec fn spec_keys_ok(r: Seq<Seq<u8>>) -> bool {
        &&& r.len() == 2
        &&& r[0].len() == 32
        &&& r[1].len() == 32
        &&& r[1] == ed25519_public_of(r[0])
        &&& ed25519_key_valid(r[1])
    }

    fn generate() -> (r: Result<Vec<Vec<u8>>, TextError>) {
        let sk = match os_random_32() {
            Ok(v) => v,
            Err(e) => {
                return Err(e);
            },
        };
        let pk = ed25519_public_key_bytes(sk.as_slice());
        let mut out: Vec<Vec<u8>> = Vec::new();
        out.push(sk);
        out.push(pk);
        proof {
            assert(out.deep_view() =~~= seq![out@[0]@, out@[1]@]);
        }
        Ok(out)
    }
}

/// The asymmetric verifier: holds one 32-byte public verification key and
/// checks 64-byte ed25519 signatures.
pub struct Ed25519Verifier {
    key: Vec<u8>,
}

impl Ed25519Verifier {
    /// The held public verification key.
    pub closed spec fn key_bytes(&self) -> Seq<u8> {
        self.key@
    }

    /// The key is exactly 32 bytes and a valid curve point.
    pub open spec fn wf(&self) -> bool {
        self.key_bytes().len() == 32 && ed25519_key_valid(self.key_bytes())
    }

    /// Use exactly the first 32 bytes of `key`; fail with `KeyFormatError` if
    /// fewer are supplied and with `InvalidKeyError` if the 32 bytes do not
    /// form a valid verifying key.
    pub fn try_new(key: &[u8]) -> (r: Result<Self, TextError>)
        ensures
            key@.len() < 32 ==> (r matches Err(e) && e == TextError::KeyFormatError),
            key@.len() >= 32 && ed25519_key_valid(key@.take(32)) ==> (r matches Ok(v) && v.wf()
                && v.key_bytes() == key@.take(32)),
            key@.len() >= 32 && !ed25519_key_valid(key@.take(32)) ==> (r matches Err(e) && e
                == TextError::InvalidKeyError),
    {
        if key.len() < 32 {
            return Err(TextError::KeyFormatError);
        }
        let head = vstd::slice::slice_subrange(key, 0, 32);
        let k = vstd::slice::slice_to_vec(head);
        if !ed25519_key_check(k.as_slice()) {
            return Err(TextError::InvalidKeyError);
        }
        Ok(Ed25519Verifier { key: k })
    }
}

impl TextVerify for Ed25519Verifier {
    open spec fn verify_wf(&self) -> bool {
        self.wf()
    }

    open spec fn spec_tag_len(&self) -> nat {
        64
    }

    open spec fn spec_accepts(&self, data: Seq<u8>, sig: Seq<u8>) -> bool {
        ed25519_accepts(self.key_bytes(), data, sig)
    }

    fn verify(&self, data: &Vec<u8>, sig: &[u8]) -> (r: Result<bool, TextError>) {
        if sig.len() != 64 {
            return Err(TextError::SignatureFormatError);
        }
        Ok(ed25519_verify_bytes(self.key.as_slice(), data.as_slice(), sig))
    }
}

impl KeyLoader for Ed25519Verifier {
    open spec fn spec_key_ok(key: Seq<u8>) -> bool {
        ed25519_key_valid(key)
    }

    open spec fn load_wf(&self) -> bool {
        self.wf()
    }

    open spec fn spec_key(&self) -> Seq<u8> {
        self.key_bytes()
    }

    fn load(key: &[u8]) -> (r: Result<Self, TextError>) {
        Ed25519Verifier::try_new(key)
    }
}

// ---------------------------------------------------------------------------
// The dispatch layer.
// ---------------------------------------------------------------------------

/// The raw tag the chosen algorithm produces over a buffer with the first 32
/// bytes of the supplied key material.
pub open spec fn spec_raw_tag(data: Seq<u8>, key: Seq<u8>, format: TextSignFormat) -> Seq<u8> {
    if format is Blake3 {
        blake3_keyed_digest(key.take(32), data)
    } else {
        ed25519_sig_of(key.take(32), data)
    }
}

/// The encoded-tag bytes `process_text_sign` owes for its inputs, or the
/// error it owes instead.
pub open spec fn spec_text_sign(data: Seq<u8>, key: Seq<u8>, format: TextSignFormat) -> Result<
    Seq<u8>,
    TextError,
> {
    if key.len() < 32 {
        Err(TextError::KeyFormatError)
    } else {
        Ok(spec_b64_encode(spec_raw_tag(data, key, format), true, false))
    }
}

/// The result `process_text_verify` owes for its inputs: the key is loaded
/// first, then the tag text is decoded, then the tag length is checked, and
/// only then is the tag compared.
pub open spec fn spec_text_verify(
    data: Seq<u8>,
    key: Seq<u8>,
    tag_text: Seq<u8>,
    format: TextSignFormat,
) -> Result<bool, TextError> {
    if key.len() < 32 {
        Err(TextError::KeyFormatError)
    } else if format is Ed25519 && !ed25519_key_valid(key.take(32)) {
        Err(TextError::InvalidKeyError)
    } else {
        match spec_b64_decode(tag_text, true, false) {
            None => Err(TextError::TagDecodeError),
            Some(tag) => {
                let want: nat = if format is Blake3 { 32 } else { 64 };
                if tag.len() != want {
                    Err(TextError::SignatureFormatError)
                } else if format is Blake3 {
                    Ok(tag == blake3_keyed_digest(key.take(32), data))
                } else {
                    Ok(ed25519_accepts(key.take(32), data, tag))
                }
            },
        }
    }
}

/// Sign a whole input buffer with the chosen algorithm and return the tag as
/// URL-safe unpadded base-64 text.
pub fn process_text_sign(data: &Vec<u8>, key: &Vec<u8>, format: TextSignFormat) -> (r: Result<
    String,
    TextError,
>)
    ensures
        spec_text_sign(data@, key@, format) matches Ok(tb) ==> (r matches Ok(s) && s@
            == spec_chars_of(tb)),
        spec_text_sign(data@, key@, format) matches Err(e) ==> (r matches Err(e2) && e2 == e),
{
    let signed: Vec<u8> = match format {
        TextSignFormat::Blake3 => {
            let signer = match Blake3::load(key.as_slice()) {
                Ok(s) => s,
                Err(e) => {
                    return Err(e);
                },
            };
            signer.sign(data)
        },
        TextSignFormat::Ed25519 => {
            let signer = match Ed25519Signer::load(key.as_slice()) {
                Ok(s) => s,
                Err(e) => {
                    return Err(e);
                },
            };
            signer.sign(data)
        },
    };
    let encoded = b64_encode_bytes(signed.as_slice(), true, false);
    proof {
        lemma_encode_ascii(signed@, true, false);
    }
    Ok(ascii_to_string(encoded))
}

/// Verify an encoded tag for a whole input buffer with the chosen algorithm.
///
/// A mismatched tag is a successful computation yielding `false`; only
/// structural problems (short keys, bad encodings, wrong tag lengths) are
/// errors.
pub fn process_text_verify(data: &Vec<u8>, key: &Vec<u8>, sig: &str, format: TextSignFormat) -> (r:
    Result<bool, TextError>)
    ensures
        r == spec_text_verify(data@, key@, sig.spec_bytes(), format),
{
    match format {
        TextSignFormat::Blake3 => {
            let verifier = match Blake3::try_new(key.as_slice()) {
                Ok(v) => v,
                Err(e) => {
                    return Err(e);
                },
            };
            let tag = match b64_decode_bytes(sig.as_bytes(), true, false) {
                Ok(t) => t,
                Err(e) => {
                    return Err(e);
                },
            };
            verifier.verify(data, tag.as_slice())
        },
        TextSignFormat::Ed25519 => {
            let verifier = match Ed25519Verifier::try_new(key.as_slice()) {
                Ok(v) => v,
                Err(e) => {
                    return Err(e);
                },
            };
            let tag = match b64_decode_bytes(sig.as_bytes(), true, false) {
                Ok(t) => t,
                Err(e) => {
                    return Err(e);
                },
            };
            verifier.verify(data, tag.as_slice())
        },
    }
}

/// Generate fresh key material for the chosen algorithm: one 32-byte shared
/// key for the keyed hash, or a `[private, public]` pair for the signature
/// algorithm.
pub fn process_generate(format: TextSignFormat) -> (r: Result<Vec<Vec<u8>>, TextError>)
    ensures
        r matches Err(e) ==> e == TextError::GenerationError,
        format is Blake3 ==> (r matches Ok(v) ==> <Blake3 as KeyGenerator>::spec_keys_ok(
            v.deep_view(),
        )),
        format is Ed25519 ==> (r matches Ok(v) ==> <Ed25519Signer as KeyGenerator>::spec_keys_ok(
            v.deep_view(),
        )),
{
    match format {
        TextSignFormat::Blake3 => Blake3::generate(),
        TextSignFormat::Ed25519 => Ed25519Signer::generate(),
    }
}

// ---------------------------------------------------------------------------
// Laws of the dispatch layer.
// ---------------------------------------------------------------------------

/// Round trip for the keyed hash: verifying a buffer against the tag that
/// signing it produced, with the same key material, yields `true` — the
/// codec, the length checks and the comparison lose nothing.
pub proof fn lemma_keyed_hash_round_trip(data: Seq<u8>, key: Seq<u8>)
    requires
        key.len() >= 32,
    ensures
        spec_text_sign(data, key, TextSignFormat::Blake3) matches Ok(tb) && spec_text_verify(
            data,
            key,
            tb,
            TextSignFormat::Blake3,
        ) == Ok::<bool, TextError>(true),
{
    let tag = blake3_keyed_digest(key.take(32), data);
    lemma_b64_round_trip(tag, true, false);
}

/// Round trip for the signature algorithm: given the acceptance promise of
/// the signing routine (a signature verifies under the signer's public key,
/// which is what `ed25519_sign_bytes` is trusted for), the dispatch layer
/// returns `true` when verifying a signed buffer against the derived public
/// key — its codec, length checks and key handling lose nothing.
pub proof fn lemma_signature_round_trip(data: Seq<u8>, sk: Seq<u8>, pk: Seq<u8>)
    requires
        sk.len() >= 32,
        pk.len() == 32,
        pk == ed25519_public_of(sk.take(32)),
        ed25519_key_valid(pk),
        ed25519_accepts(pk, data, ed25519_sig_of(sk.take(32), data)),
    ensures
        spec_text_sign(data, sk, TextSignFormat::Ed25519) matches Ok(tb) && spec_text_verify(
            data,
            pk,
            tb,
            TextSignFormat::Ed25519,
        ) == Ok::<bool, TextError>(true),
{
    let tag = ed25519_sig_of(sk.take(32), data);
    lemma_b64_round_trip(tag, true, false);
    assert(pk.take(32) =~= pk);
}

/// Determinism of the keyed hash: any two tags that meet the signing
/// contract for the same key and input are identical byte for byte.
pub proof fn lemma_keyed_hash_deterministic(key: Seq<u8>, data: Seq<u8>, t1: Seq<u8>, t2: Seq<u8>)
    requires
        t1 == blake3_keyed_digest(key, data),
        t2 == blake3_keyed_digest(key, data),
    ensures
        t1 == t2,
{
}

} // verus!
