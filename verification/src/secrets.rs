//! Secrets in their stored form: the text `encrypted:` followed by the
//! base64 form of the secret.

use vstd::prelude::*;
use vstd::string::*;
use vstd::utf8::{valid_utf8, decode_utf8, encode_utf8_valid_utf8, encode_utf8_decode_utf8};
use base64::Engine;
use crate::error::ForgeKitError;
use crate::text::{has_prefix, join2, to_chars, from_chars, chars_match_at, slice_chars};

verus! {

/// The standard base64 form, with padding, of a sequence of bytes.
pub uninterp spec fn base64_encoded(bytes: Seq<u8>) -> Seq<char>;

/// The bytes that a text in standard base64 form stands for; nothing where
/// the text is not in that form.
pub uninterp spec fn base64_decoded(text: Seq<char>) -> Option<Seq<u8>>;

/// `Engine::encode` of the base64 crate on its `STANDARD` engine: the
/// standard base64 form of the bytes, as a function of the bytes alone.
/// The engine writes the padding that it asks for when decoding, so what it
/// encodes it decodes to the same bytes.
#[verifier::external_body]
fn base64_encode(data: &[u8]) -> (r: String)
    ensures
        r@ == base64_encoded(data@),
        base64_decoded(r@) == Some(data@),
{
    base64::engine::general_purpose::STANDARD.encode(data)
}

/// `Engine::decode` of the base64 crate on its `STANDARD` engine: the bytes
/// that the text stands for, or nothing where the crate rejects the text;
/// which of the two depends on the text alone.
#[verifier::external_body]
fn base64_decode(text: &str) -> (r: Option<Vec<u8>>)
    ensures
        match r {
            Some(bytes) => base64_decoded(text@) == Some(bytes@),
            None => base64_decoded(text@) is None,
        },
{
    base64::engine::general_purpose::STANDARD.decode(text).ok()
}

/// `String::from_utf8` of std: the text that the bytes encode in UTF-8, or
/// nothing where they are not valid UTF-8.
#[verifier::external_body]
fn string_from_utf8(bytes: Vec<u8>) -> (r: Option<String>)
    ensures
        match r {
            Some(s) => valid_utf8(bytes@) && s@ == decode_utf8(bytes@),
            None => !valid_utf8(bytes@),
        },
{
    String::from_utf8(bytes).ok()
}

/// The mark that stands before every stored secret.
pub open spec fn secret_mark() -> Seq<char> {
    "encrypted:"@
}

/// What a stored secret reads as, given the bytes that its base64 part
/// stands for: the text that the bytes encode, or the reason why there is
/// none.
pub open spec fn secret_outcome(decoded: Option<Seq<u8>>) -> Result<Seq<char>, Seq<char>> {
    match decoded {
        None => Err("Failed to decrypt secret"@),
        Some(bytes) => if valid_utf8(bytes) {
            Ok(decode_utf8(bytes))
        } else {
            Err("Invalid UTF-8 in decrypted secret"@)
        },
    }
}

/// What a stored text reads as: a text without the mark is the secret
/// itself; a text with the mark holds the secret in base64 form after it.
pub open spec fn secret_reading(stored: Seq<char>) -> Result<Seq<char>, Seq<char>> {
    if has_prefix(stored, secret_mark()) {
        secret_outcome(base64_decoded(stored.subrange(secret_mark().len() as int, stored.len() as int)))
    } else {
        Ok(stored)
    }
}

/// Stores and reads secrets.
#[derive(Debug, Clone)]
pub struct SecretsManager;

impl SecretsManager {
    /// The stored form of a secret: the mark, then the base64 form of the
    /// secret's bytes. Read again, the stored form gives the secret back.
    pub fn encrypt_secret(value: &str) -> (r: Result<String, ForgeKitError>)
        ensures
            r is Ok,
            r->Ok_0@ == secret_mark() + base64_encoded(value.spec_bytes()),
            secret_reading(r->Ok_0@) == Ok::<Seq<char>, Seq<char>>(value@),
    {
        let encoded = base64_encode(value.as_bytes());
        let stored = join2("encrypted:", encoded.as_str());
        proof {
            let mark = secret_mark();
            assert(stored@.subrange(0, mark.len() as int) =~= mark);
            assert(stored@.subrange(mark.len() as int, stored@.len() as int) =~= encoded@);
            encode_utf8_valid_utf8(value@);
            encode_utf8_decode_utf8(value@);
        }
        Ok(stored)
    }

    /// What a stored secret reads as, given the outcome of decoding its
    /// base64 part.
    pub fn secret_from_decoded(decoded: Option<Vec<u8>>) -> (r: Result<String, ForgeKitError>)
        ensures
            match secret_outcome(
                match decoded {
                    Some(b) => Some(b@),
                    None => None,
                },
            ) {
                Ok(text) => r is Ok && r->Ok_0@ == text,
                Err(reason) => r is Err && r->Err_0 is InvalidConfig && r->Err_0.detail()
                    == reason,
            },
    {
        match decoded {
            None => Err(ForgeKitError::InvalidConfig(String::from_str("Failed to decrypt secret"))),
            Some(bytes) => match string_from_utf8(bytes) {
                Some(text) => Ok(text),
                None => Err(
                    ForgeKitError::InvalidConfig(
                        String::from_str("Invalid UTF-8 in decrypted secret"),
                    ),
                ),
            },
        }
    }

    /// Reads a secret: a text without the mark is the secret itself; a
    /// text with the mark holds the secret in base64 form after it.
    pub fn decrypt_secret(encrypted: &str) -> (r: Result<String, ForgeKitError>)
        ensures
            match secret_reading(encrypted@) {
                Ok(text) => r is Ok && r->Ok_0@ == text,
                Err(reason) => r is Err && r->Err_0 is InvalidConfig && r->Err_0.detail()
                    == reason,
            },
    {
        let h = to_chars(encrypted);
        let mark = to_chars("encrypted:");
        if chars_match_at(&h, &mark, 0) {
            let rest = slice_chars(&h, mark.len(), h.len());
            let encoded = from_chars(&rest);
            Self::secret_from_decoded(base64_decode(encoded.as_str()))
        } else {
            Ok(String::from_str(encrypted))
        }
    }
}

} // verus!
