//! Secrets and their encryption at rest.
//!
//! A `Secret` carries a plaintext behind an accessor so that nothing
//! serializes it by accident.  Stored secrets are encrypted with a
//! process-wide symmetric key and carried as base64 text; the two outside
//! calls that do the work are trusted at their documented contracts, and
//! the composition here is verified to round-trip.

use vstd::prelude::*;
use vstd::string::StringSliceAdditionalSpecFns;

verus! {

/// What base64's standard no-padding alphabet encodes the bytes to.
pub uninterp spec fn b64_of(bytes: Seq<u8>) -> Seq<char>;

/// What base64's standard no-padding alphabet decodes the text to, where
/// it decodes at all.
pub uninterp spec fn b64_decode_of(text: Seq<char>) -> Option<Seq<u8>>;

/// What simplestcrypt's deserialize-and-decrypt computes from a password
/// and a serialized ciphertext, where it succeeds at all.
pub uninterp spec fn sc_decrypt_of(password: Seq<u8>, data: Seq<u8>) -> Option<Seq<u8>>;

/// Relies on base64's BASE64_STANDARD_NO_PAD engine: encoding is a
/// function of the bytes alone, and decoding the result yields the bytes
/// back.
#[verifier::external_body]
fn b64_encode(bytes: &[u8]) -> (r: String)
    ensures
        r@ == b64_of(bytes@),
        b64_decode_of(r@) == Some(bytes@),
{
    <base64::engine::general_purpose::GeneralPurpose as base64::Engine>::encode(
        &base64::prelude::BASE64_STANDARD_NO_PAD,
        bytes,
    )
}

/// Relies on base64's BASE64_STANDARD_NO_PAD engine: decoding is a
/// function of the text alone and fails exactly where the text is no
/// base64.
#[verifier::external_body]
fn b64_decode(text: &str) -> (r: Option<Vec<u8>>)
    ensures
        match r {
            Some(v) => b64_decode_of(text@) == Some(v@),
            None => b64_decode_of(text@) is None,
        },
{
    <base64::engine::general_purpose::GeneralPurpose as base64::Engine>::decode(
        &base64::prelude::BASE64_STANDARD_NO_PAD,
        text,
    ).ok()
}

/// Relies on simplestcrypt::encrypt_and_serialize: the nonce is drawn at
/// random, so nothing is promised of the ciphertext itself beyond that
/// decrypting it with the same password yields the plaintext back.  A
/// password over 32 bytes is refused; with a password within that limit
/// the call succeeds (its cipher and serializer accept every input).
#[verifier::external_body]
fn sc_encrypt(password: &[u8], bytes: &[u8]) -> (r: Option<Vec<u8>>)
    ensures
        r matches Some(c) ==> sc_decrypt_of(password@, c@) == Some(bytes@),
        password@.len() > 32 ==> r is None,
        password@.len() <= 32 ==> r is Some,
{
    simplestcrypt::encrypt_and_serialize(password, bytes).ok()
}

/// Relies on simplestcrypt::deserialize_and_decrypt: a function of the
/// password and the serialized ciphertext alone.
#[verifier::external_body]
fn sc_decrypt(password: &[u8], data: &[u8]) -> (r: Option<Vec<u8>>)
    ensures
        match r {
            Some(p) => sc_decrypt_of(password@, data@) == Some(p@),
            None => sc_decrypt_of(password@, data@) is None,
        },
{
    simplestcrypt::deserialize_and_decrypt(password, data).ok()
}

/// Relies on String::from_utf8: it succeeds exactly on valid UTF-8, and
/// the returned string's characters are decoded from those bytes.
#[verifier::external_body]
pub(crate) fn string_from_utf8(bytes: Vec<u8>) -> (r: Option<String>)
    ensures
        r matches Some(s) ==> vstd::utf8::valid_utf8(bytes@) && s@ == vstd::utf8::decode_utf8(
            bytes@,
        ),
        r is None ==> !vstd::utf8::valid_utf8(bytes@),
{
    String::from_utf8(bytes).ok()
}

/// A plaintext secret.  The value sits behind `expose_secret` so that no
/// caller touches it without saying so, and nothing prints it: the type
/// deliberately has no formatting; serialized forms are produced only
/// through `encrypt_value`.
#[derive(Clone, PartialEq)]
pub struct Secret {
    plaintext: String,
}

impl View for Secret {
    type V = Seq<char>;

    closed spec fn view(&self) -> Seq<char> {
        self.plaintext@
    }
}

impl Secret {
    pub fn new(plaintext: String) -> (r: Secret)
        ensures
            r@ == plaintext@,
    {
        Secret { plaintext }
    }

    /// An equal copy.
    pub fn dup(&self) -> (r: Secret)
        ensures
            r == *self,
    {
        Secret { plaintext: self.plaintext.clone() }
    }

    /// The plaintext, named loudly.
    pub fn expose_secret(&self) -> (r: &str)
        ensures
            r@ == self@,
    {
        self.plaintext.as_str()
    }

    /// Encrypt a value under the process key for storage: ciphertext under
    /// a random nonce, carried as base64 text.  Succeeds exactly when the
    /// key is within the cipher's 32-byte limit; any returned text
    /// decrypts back to the value.
    pub fn encrypt_value(password_secret: &str, value: &str) -> (r: Option<String>)
        ensures
            r matches Some(c) ==> (b64_decode_of(c@) matches Some(e) && sc_decrypt_of(
                password_secret.spec_bytes(),
                e,
            ) == Some(value.spec_bytes())),
            r is Some <==> password_secret.spec_bytes().len() <= 32,
    {
        let encrypted = sc_encrypt(password_secret.as_bytes(), value.as_bytes());
        match encrypted {
            Some(cipher) => Some(b64_encode(cipher.as_slice())),
            None => None,
        }
    }

    /// Decrypt a stored value with the process key: the inverse of
    /// `encrypt_value`.  Succeeds exactly when the text decodes, decrypts
    /// under the key, and the plaintext is text; the result is then that
    /// plaintext.
    pub fn decrypt_value(password_secret: &str, stored: &str) -> (r: Option<String>)
        ensures
            r matches Some(s) ==> (b64_decode_of(stored@) matches Some(e) && sc_decrypt_of(
                password_secret.spec_bytes(),
                e,
            ) matches Some(p) && vstd::utf8::valid_utf8(p) && s@ == vstd::utf8::decode_utf8(p)),
            (b64_decode_of(stored@) matches Some(e) && sc_decrypt_of(
                password_secret.spec_bytes(),
                e,
            ) matches Some(p) && vstd::utf8::valid_utf8(p)) ==> r is Some,
            b64_decode_of(stored@) is None ==> r is None,
            (b64_decode_of(stored@) matches Some(e) && sc_decrypt_of(
                password_secret.spec_bytes(),
                e,
            ) is None) ==> r is None,
    {
        let decoded = b64_decode(stored);
        match decoded {
            Some(cipher) => {
                let plain = sc_decrypt(password_secret.as_bytes(), cipher.as_slice());
                match plain {
                    Some(bytes) => string_from_utf8(bytes),
                    None => None,
                }
            },
            None => None,
        }
    }
}

} // verus!
