//! The errors that encrypting, decrypting and reading mnemonics report.

use vstd::prelude::*;
use vstd::string::*;
use argon2::Error as KdfFailure;
use aes_gcm_siv::Error as CipherFailure;
use bip39::Error as PhraseFailure;

verus! {

/// Why an operation on a mnemonic failed.
#[derive(Copy, Clone, Debug, Eq, PartialEq)]
pub enum Error {
    /// The password could not be turned into a key.
    Argon2Error(KdfFailure),
    /// Decryption failed: the password is wrong or the words were altered.
    AeadError(CipherFailure),
    /// The words are not as many as this kind of mnemonic has.
    BadWordCount,
    /// The words are not a valid BIP-39 phrase.
    Bip39Error(PhraseFailure),
}

pub type Result<T> = core::result::Result<T, Error>;

impl From<KdfFailure> for Error {
    fn from(value: KdfFailure) -> (r: Self) {
        Error::Argon2Error(value)
    }
}

impl vstd::std_specs::convert::FromSpecImpl<KdfFailure> for Error {
    open spec fn obeys_from_spec() -> bool {
        true
    }

    open spec fn from_spec(v: KdfFailure) -> Self {
        Error::Argon2Error(v)
    }
}

impl From<CipherFailure> for Error {
    fn from(value: CipherFailure) -> (r: Self) {
        Error::AeadError(value)
    }
}

impl vstd::std_specs::convert::FromSpecImpl<CipherFailure> for Error {
    open spec fn obeys_from_spec() -> bool {
        true
    }

    open spec fn from_spec(v: CipherFailure) -> Self {
        Error::AeadError(v)
    }
}

impl From<PhraseFailure> for Error {
    fn from(value: PhraseFailure) -> (r: Self) {
        Error::Bip39Error(value)
    }
}

impl vstd::std_specs::convert::FromSpecImpl<PhraseFailure> for Error {
    open spec fn obeys_from_spec() -> bool {
        true
    }

    open spec fn from_spec(v: PhraseFailure) -> Self {
        Error::Bip39Error(v)
    }
}

/// The message that `argon2::Error`'s `Display` writes for `e`.
pub uninterp spec fn kdf_failure_text(e: KdfFailure) -> Seq<char>;

/// The message that `bip39::Error`'s `Display` writes for `e`.
pub uninterp spec fn phrase_failure_text(e: PhraseFailure) -> Seq<char>;

/// Calls `Display` of `argon2::Error` (argon2's error.rs), which writes a
/// fixed text for each variant, and the inner error's text for `B64Encoding`:
/// a function of `e` alone, named `kdf_failure_text`.
#[verifier::external_body]
fn describe_kdf_failure(e: &KdfFailure) -> (r: String)
    ensures
        r@ == kdf_failure_text(*e),
{
    e.to_string()
}

/// Calls `Display` of `aes_gcm_siv::Error`, which is `aead::Error`: its source
/// writes the fixed text `aead::Error`.
#[verifier::external_body]
fn describe_cipher_failure(e: &CipherFailure) -> (r: String)
    ensures
        r@ == "aead::Error"@,
{
    e.to_string()
}

/// Calls `Display` of `bip39::Error` (bip39's lib.rs), which writes a text
/// made of the variant and the numbers or languages it holds: a function of
/// `e` alone, named `phrase_failure_text`.
#[verifier::external_body]
fn describe_phrase_failure(e: &PhraseFailure) -> (r: String)
    ensures
        r@ == phrase_failure_text(*e),
{
    e.to_string()
}

impl Error {
    /// The message that describes the error: that of the underlying crate's
    /// error where there is one.
    pub fn message(&self) -> (r: String)
        ensures
            r@ == match *self {
                Error::Argon2Error(e) => kdf_failure_text(e),
                Error::AeadError(_) => "aead::Error"@,
                Error::BadWordCount => "bad word count"@,
                Error::Bip39Error(e) => phrase_failure_text(e),
            },
    {
        match self {
            Error::Argon2Error(e) => describe_kdf_failure(e),
            Error::AeadError(e) => describe_cipher_failure(e),
            Error::BadWordCount => String::from_str("bad word count"),
            Error::Bip39Error(e) => describe_phrase_failure(e),
        }
    }
}

} // verus!
