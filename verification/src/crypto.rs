//! The password-based key derivation and the authenticated cipher.

use vstd::prelude::*;
use aes_gcm_siv::aead::Aead;
use aes_gcm_siv::{Aes256GcmSiv, Key, KeyInit, Nonce};
use argon2::Error as KdfFailure;
use aes_gcm_siv::Error as CipherFailure;

verus! {

#[verifier::external_type_specification]
#[verifier::external_body]
pub struct ExKdfFailure(KdfFailure);

#[verifier::external_type_specification]
#[verifier::external_body]
pub struct ExCipherFailure(CipherFailure);

/// The length in bytes of the key derived from a password.
pub const KEY_LEN: usize = 32;

/// The salt of the key derivation.
pub const SALT: [u8; 22] = [
    85, 111, 109, 49, 100, 84, 81, 86, 80, 79, 77, 121, 112, 100, 79, 75, 106, 105, 56, 97, 120, 65,
];

/// The nonce under which the entropy of a mnemonic is encrypted.
pub const NONCE: [u8; 12] = [106, 43, 100, 53, 47, 47, 101, 117, 78, 122, 111, 77];

/// The largest plaintext, in bytes, that AES-256-GCM-SIV encrypts.
pub const MAX_PLAINTEXT_LEN: u64 = 0x10_0000_0000;

/// The largest value that the key derivation takes for the lengths of the
/// password, the salt and the output.
pub const MAX_ARGON2_LEN: u64 = 0xFFFF_FFFF;

/// The output of Argon2id with its default parameters (version 0x13,
/// m = 19456 KiB, t = 2, p = 1) for `pwd` and `salt`, `out_len` bytes long.
pub uninterp spec fn argon2id_hash(pwd: Seq<u8>, salt: Seq<u8>, out_len: nat) -> Seq<u8>;

/// The error that Argon2id with its default parameters reports for `pwd`,
/// `salt` and an output of `out_len` bytes, where it reports one.
pub uninterp spec fn argon2_failure(pwd: Seq<u8>, salt: Seq<u8>, out_len: nat) -> KdfFailure;

/// The ciphertext, with its 16-byte tag appended, that AES-256-GCM-SIV makes
/// of `plaintext` under `key` and `nonce` with no associated data.
pub uninterp spec fn aes256_gcm_siv_seal(
    key: Seq<u8>,
    nonce: Seq<u8>,
    plaintext: Seq<u8>,
) -> Seq<u8>;

/// The plaintext that AES-256-GCM-SIV recovers from `ciphertext` under `key`
/// and `nonce` with no associated data, or `None` where the tag does not match.
pub uninterp spec fn aes256_gcm_siv_open(
    key: Seq<u8>,
    nonce: Seq<u8>,
    ciphertext: Seq<u8>,
) -> Option<Seq<u8>>;

/// Calls `argon2::Argon2::hash_password_into` on `Argon2::default()`, which
/// fails exactly where the password or the salt is too long, the salt is
/// shorter than 8 bytes, or the output is shorter than 4 or longer than
/// 2^32 - 1 bytes (`verify_inputs` and the output checks in the crate's
/// source); otherwise the output is the hash named `argon2id_hash`. The error
/// is that of the first check that fails, a function of the arguments alone,
/// named `argon2_failure`.
#[verifier::external_body]
pub(crate) fn argon2_hash(pwd: &[u8], salt: &[u8], out_len: usize) -> (r: Result<
    Vec<u8>,
    argon2::Error,
>)
    ensures
        r is Ok <==> (pwd@.len() <= MAX_ARGON2_LEN && 8 <= salt@.len() <= MAX_ARGON2_LEN && 4
            <= out_len <= MAX_ARGON2_LEN),
        r matches Ok(k) ==> k@ == argon2id_hash(pwd@, salt@, out_len as nat),
        r matches Ok(k) ==> k@.len() == out_len,
        r matches Err(e) ==> e == argon2_failure(pwd@, salt@, out_len as nat),
{
    let mut out = vec![0u8; out_len];
    match argon2::Argon2::default().hash_password_into(pwd, salt, &mut out) {
        Ok(()) => Ok(out),
        Err(e) => Err(e),
    }
}

/// Calls `aes_gcm_siv::aead::Aead::encrypt` on `Aes256GcmSiv`, which fails
/// exactly where the plaintext is longer than `P_MAX` (2^36 bytes). The
/// ciphertext is the plaintext's length plus the 16-byte tag, and decrypting
/// it under the same key and nonce gives the plaintext back, as an AEAD
/// cipher does.
#[verifier::external_body]
pub(crate) fn aes_seal(key: &[u8], nonce: &[u8], plaintext: &[u8]) -> (r: Result<
    Vec<u8>,
    aes_gcm_siv::Error,
>)
    requires
        key@.len() == 32,
        nonce@.len() == 12,
    ensures
        r is Ok <==> plaintext@.len() <= MAX_PLAINTEXT_LEN,
        r matches Ok(c) ==> c@ == aes256_gcm_siv_seal(key@, nonce@, plaintext@),
        r matches Ok(c) ==> c@.len() == plaintext@.len() + 16,
        r matches Ok(c) ==> aes256_gcm_siv_open(key@, nonce@, c@) == Some(plaintext@),
{
    let cipher = Aes256GcmSiv::new(Key::<Aes256GcmSiv>::from_slice(key));
    cipher.encrypt(Nonce::from_slice(nonce), plaintext)
}

/// Calls `aes_gcm_siv::aead::Aead::decrypt` on `Aes256GcmSiv`: it succeeds
/// exactly where `aes256_gcm_siv_open` gives a plaintext, which is then what
/// it returns, the ciphertext less its 16-byte tag (the crate truncates the
/// buffer at the tag's position).
#[verifier::external_body]
pub(crate) fn aes_open(key: &[u8], nonce: &[u8], ciphertext: &[u8]) -> (r: Result<
    Vec<u8>,
    aes_gcm_siv::Error,
>)
    requires
        key@.len() == 32,
        nonce@.len() == 12,
    ensures
        r is Ok <==> aes256_gcm_siv_open(key@, nonce@, ciphertext@) is Some,
        r matches Ok(p) ==> aes256_gcm_siv_open(key@, nonce@, ciphertext@) == Some(p@),
        r matches Ok(p) ==> p@.len() + 16 == ciphertext@.len(),
{
    let cipher = Aes256GcmSiv::new(Key::<Aes256GcmSiv>::from_slice(key));
    cipher.decrypt(Nonce::from_slice(nonce), ciphertext)
}

/// The key that `pwd` gives: Argon2id of the password with this crate's salt.
pub open spec fn derived_key(pwd: Seq<u8>) -> Seq<u8> {
    argon2id_hash(pwd, SALT@, KEY_LEN as nat)
}

/// The error that deriving a key from `pwd` reports, where it reports one.
pub open spec fn derivation_failure(pwd: Seq<u8>) -> KdfFailure {
    argon2_failure(pwd, SALT@, KEY_LEN as nat)
}

/// Whether a key can be derived from `pwd`: its length fits Argon2's limit.
pub open spec fn key_derivable(pwd: Seq<u8>) -> bool {
    pwd.len() <= MAX_ARGON2_LEN
}

/// The encryption of `entropy` under the key of `pwd` and this crate's nonce.
pub open spec fn sealed_entropy(entropy: Seq<u8>, pwd: Seq<u8>) -> Seq<u8> {
    aes256_gcm_siv_seal(derived_key(pwd), NONCE@, entropy)
}

/// The decryption of `ciphertext` under the key of `pwd` and this crate's nonce.
pub open spec fn opened_entropy(ciphertext: Seq<u8>, pwd: Seq<u8>) -> Option<Seq<u8>> {
    aes256_gcm_siv_open(derived_key(pwd), NONCE@, ciphertext)
}

/// Derives the key of `pwd`.
pub fn derive_key(pwd: &[u8]) -> (r: Result<Vec<u8>, argon2::Error>)
    ensures
        r is Ok <==> key_derivable(pwd@),
        r matches Ok(k) ==> k@ == derived_key(pwd@) && k@.len() == KEY_LEN,
        r matches Err(e) ==> e == derivation_failure(pwd@),
        r matches Ok(k) ==> k@ == argon2id_hash(pwd@, seq![85u8, 111u8, 109u8, 49u8, 100u8, 84u8, 81u8, 86u8, 80u8, 79u8, 77u8, 121u8, 112u8, 100u8, 79u8, 75u8, 106u8, 105u8, 56u8, 97u8, 120u8, 65u8], 32),
        r matches Err(e) ==> e == argon2_failure(pwd@, seq![85u8, 111u8, 109u8, 49u8, 100u8, 84u8, 81u8, 86u8, 80u8, 79u8, 77u8, 121u8, 112u8, 100u8, 79u8, 75u8, 106u8, 105u8, 56u8, 97u8, 120u8, 65u8], 32),
{
    let salt: [u8; 22] = SALT;
    argon2_hash(pwd, salt.as_slice(), KEY_LEN)
}

/// The key is Argon2id of the password with the whole 22-byte salt
/// `Uom1dTQVPOMypdOKji8axA`, 32 bytes long, and the cipher's nonce is the 12
/// bytes `j+d5//euNzoM`: what the keys and ciphertexts of earlier encryptions
/// were made with.
pub proof fn lemma_key_and_nonce()
    ensures
        forall|pwd: Seq<u8>| #[trigger] derived_key(pwd) == argon2id_hash(pwd, seq![85u8, 111u8, 109u8, 49u8, 100u8, 84u8, 81u8, 86u8, 80u8, 79u8, 77u8, 121u8, 112u8, 100u8, 79u8, 75u8, 106u8, 105u8, 56u8, 97u8, 120u8, 65u8], 32),
        forall|pwd: Seq<u8>| #[trigger] derivation_failure(pwd) == argon2_failure(pwd, seq![85u8, 111u8, 109u8, 49u8, 100u8, 84u8, 81u8, 86u8, 80u8, 79u8, 77u8, 121u8, 112u8, 100u8, 79u8, 75u8, 106u8, 105u8, 56u8, 97u8, 120u8, 65u8], 32),
        NONCE@ == seq![106u8, 43u8, 100u8, 53u8, 47u8, 47u8, 101u8, 117u8, 78u8, 122u8, 111u8, 77u8],
{
    assert(SALT@ =~= seq![85u8, 111u8, 109u8, 49u8, 100u8, 84u8, 81u8, 86u8, 80u8, 79u8, 77u8, 121u8, 112u8, 100u8, 79u8, 75u8, 106u8, 105u8, 56u8, 97u8, 120u8, 65u8]);
    assert(NONCE@ =~= seq![106u8, 43u8, 100u8, 53u8, 47u8, 47u8, 101u8, 117u8, 78u8, 122u8, 111u8, 77u8]);
}

} // verus!
