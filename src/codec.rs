//! Encryption at rest: every revision's content is stored as a base64
//! ciphertext under a key derived from a secret given at startup.
use vstd::prelude::*;
use magic_crypt::{MagicCrypt256, MagicCryptError, MagicCryptTrait};
use crate::error::TextError;

verus! {

#[verifier::external_type_specification]
#[verifier::external_body]
pub struct ExMagicCryptError(MagicCryptError);

/// What decrypting the base64 ciphertext `blob` under the key derived from
/// `secret` yields: the plaintext, or `None` where `blob` is not the
/// ciphertext of a UTF-8 text under that key.
pub uninterp spec fn decryption_of(secret: Seq<char>, blob: Seq<char>) -> Option<Seq<char>>;

/// Relies on magic_crypt's `MagicCrypt256::new` (AES-256 key: SHA-256 of the
/// secret, zero IV) and `encrypt_str_to_base64`: CBC with PKCS#7 padding, then
/// standard base64, which decrypts back to the same UTF-8 text.
#[verifier::external_body]
fn encrypt_with(secret: &str, plain: &str) -> (r: String)
    ensures
        decryption_of(secret@, r@) == Some(plain@),
{
    MagicCrypt256::new(secret, None::<String>).encrypt_str_to_base64(plain)
}

/// Relies on magic_crypt's `MagicCrypt256::new` and `decrypt_base64_to_string`:
/// base64 decoding, AES-256-CBC decryption and UTF-8 decoding, failing with an
/// error where any of them fails.
#[verifier::external_body]
fn decrypt_with(secret: &str, blob: &str) -> (r: Result<String, MagicCryptError>)
    ensures
        match r {
            Ok(p) => decryption_of(secret@, blob@) == Some(p@),
            Err(_) => decryption_of(secret@, blob@) is None,
        },
{
    MagicCrypt256::new(secret, None::<String>).decrypt_base64_to_string(blob)
}

/// The outcome of decrypting `blob` under the key derived from `secret`.
pub open spec fn decrypted(secret: Seq<char>, blob: Seq<char>) -> Result<Seq<char>, TextError> {
    match decryption_of(secret, blob) {
        Some(p) => Ok(p),
        None => Err(TextError::DecodeError),
    }
}

/// The key holder: built once at startup from the secret and handed to every
/// operation that reads or writes content.
pub struct Codec {
    secret: String,
}

impl Codec {
    /// The secret that the key is derived from.
    pub closed spec fn secret(&self) -> Seq<char> {
        self.secret@
    }

    pub fn new(secret: &str) -> (r: Codec)
        ensures
            r.secret() == secret@,
    {
        Codec { secret: secret.to_owned() }
    }

    /// A ciphertext of `plaintext`; it need not be the same on every call,
    /// but it always decrypts to `plaintext`.
    pub fn encrypt(&self, plaintext: &str) -> (r: String)
        ensures
            decryption_of(self.secret(), r@) == Some(plaintext@),
    {
        encrypt_with(self.secret.as_str(), plaintext)
    }

    /// The plaintext of `blob`, or `DecodeError` where it is no ciphertext
    /// under this key.
    pub fn decrypt(&self, blob: &str) -> (r: Result<String, TextError>)
        ensures
            match r {
                Ok(p) => decrypted(self.secret(), blob@) == Ok::<Seq<char>, TextError>(p@),
                Err(e) => decrypted(self.secret(), blob@) == Err::<Seq<char>, TextError>(e),
            },
    {
        match decrypt_with(self.secret.as_str(), blob) {
            Ok(p) => Ok(p),
            Err(_) => Err(TextError::DecodeError),
        }
    }
}

/// Decrypting what `encrypt` produced for `plain` gives `plain` back, for
/// every text, the empty one and one holding redaction markup included.
pub proof fn lemma_round_trip(secret: Seq<char>, plain: Seq<char>, blob: Seq<char>)
    requires
        decryption_of(secret, blob) == Some(plain),
    ensures
        decrypted(secret, blob) == Ok::<Seq<char>, TextError>(plain),
{
}

} // verus!
