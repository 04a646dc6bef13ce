//! Encrypts a BIP-39 mnemonic under a password and writes the result back as
//! BIP-39 words, and decrypts such words again.

pub mod cli;
pub mod crypto;
pub mod error;
pub mod mnemonic;
mod sealed;
pub mod text;
pub mod util;

use vstd::prelude::*;
use crate::crypto::{
    aes256_gcm_siv_open, aes256_gcm_siv_seal, aes_open, aes_seal, argon2id_hash,
    derivation_failure, derive_key, key_derivable, lemma_key_and_nonce, opened_entropy,
    sealed_entropy, NONCE,
};
use crate::error::{Error, Result};
use crate::mnemonic::{
    bip39_entropy_words, bip39_parse, bip39_phrase_entropy, is_lowercase_word, lemma_lowercase_words, Mnemonic,
};
use crate::text::{
    all_words, join_with_spaces, join_words, lemma_split_gives_words, lemma_split_join,
    lemma_words_subrange, split_white_space, split_words, texts,
};

verus! {

/// A fixed number of encrypted bytes: 32 for the encryption of a 12-word
/// mnemonic, 48 for that of a 24-word one.
pub trait Entropy: Sized + sealed::Sealed {
    /// The bytes held.
    spec fn bytes(&self) -> Seq<u8>;

    /// How many bytes a value of this type holds.
    spec fn size() -> nat;

    /// The sizes are those of an encrypted 128-bit or 256-bit entropy.
    proof fn lemma_size()
        ensures
            Self::size() == 32 || Self::size() == 48,
    ;

    /// A value holds as many bytes as its type says.
    proof fn lemma_bytes_len(&self)
        ensures
            self.bytes().len() == Self::size(),
    ;

    /// How many bytes a value of this type holds.
    fn byte_len() -> (n: usize)
        ensures
            n == Self::size(),
    ;

    /// The bytes held.
    fn as_bytes(&self) -> (r: &[u8])
        ensures
            r@ == self.bytes(),
            r@.len() == Self::size(),
    ;

    /// Holds `bytes`, which have the size of this type.
    fn from_bytes(bytes: &[u8]) -> (r: Self)
        requires
            bytes@.len() == Self::size(),
        ensures
            r.bytes() == bytes@,
    ;
}

/// Copies `bytes` into a new array of `N` bytes.
fn copy_to_array<const N: usize>(bytes: &[u8]) -> (r: [u8; N])
    requires
        bytes@.len() == N,
    ensures
        r@ == bytes@,
{
    let mut r = [0u8; N];
    let mut i: usize = 0;
    while i < N
        invariant
            bytes@.len() == N,
            r@.len() == N,
            i <= N,
            forall|j: int| 0 <= j < i ==> r@[j] == bytes@[j],
        decreases N - i,
    {
        r[i] = bytes[i];
        i = i + 1;
    }
    assert(r@ =~= bytes@);
    r
}

impl Entropy for [u8; 32] {
    open spec fn bytes(&self) -> Seq<u8> {
        self@
    }

    open spec fn size() -> nat {
        32
    }

    proof fn lemma_size() {
    }

    proof fn lemma_bytes_len(&self) {
    }

    fn byte_len() -> (n: usize) {
        32
    }

    fn as_bytes(&self) -> (r: &[u8]) {
        self.as_slice()
    }

    fn from_bytes(bytes: &[u8]) -> (r: Self) {
        copy_to_array::<32>(bytes)
    }
}

impl Entropy for [u8; 48] {
    open spec fn bytes(&self) -> Seq<u8> {
        self@
    }

    open spec fn size() -> nat {
        48
    }

    proof fn lemma_size() {
    }

    proof fn lemma_bytes_len(&self) {
    }

    fn byte_len() -> (n: usize) {
        48
    }

    fn as_bytes(&self) -> (r: &[u8]) {
        self.as_slice()
    }

    fn from_bytes(bytes: &[u8]) -> (r: Self) {
        copy_to_array::<48>(bytes)
    }
}

/// What encrypting `entropy` under `pwd` into `size` bytes gives: the error
/// of the key derivation where the password is too long for it, a bad word
/// count where the encryption does not have `size` bytes, and otherwise the
/// encrypted bytes.
pub open spec fn encryption_outcome(
    entropy: Seq<u8>,
    pwd: Seq<u8>,
    size: nat,
) -> core::result::Result<Seq<u8>, Error> {
    if !key_derivable(pwd) {
        Err(Error::Argon2Error(derivation_failure(pwd)))
    } else if entropy.len() + 16 != size {
        Err(Error::BadWordCount)
    } else {
        Ok(sealed_entropy(entropy, pwd))
    }
}

/// The encryption of a mnemonic's entropy, which is itself written as BIP-39 words.
pub struct EncryptedMnemonic<E: Entropy> {
    entropy: E,
}

/// The encryption of a 12-word mnemonic, written as 24 words.
pub type EncryptedMnemonic24 = EncryptedMnemonic<[u8; 32]>;

/// The encryption of a 24-word mnemonic, written as 36 words.
pub type EncryptedMnemonic36 = EncryptedMnemonic<[u8; 48]>;

impl<E: Entropy> EncryptedMnemonic<E> {
    /// The encrypted bytes.
    pub closed spec fn ciphertext(&self) -> Seq<u8> {
        self.entropy.bytes()
    }

    /// The encrypted bytes are as many as the entropy type holds.
    pub proof fn lemma_ciphertext_size(&self)
        ensures
            self.ciphertext().len() == E::size(),
    {
        self.entropy.lemma_bytes_len();
    }

    /// Encrypts the entropy of `mnemonic` under the key derived from `pwd`.
    pub fn new(mnemonic: &Mnemonic, pwd: &[u8]) -> (r: Result<Self>)
        ensures
            match encryption_outcome(mnemonic@, pwd@, E::size()) {
                Ok(c) => r matches Ok(em) && em.ciphertext() == c,
                Err(e) => r == Err::<Self, Error>(e),
            },
            r matches Ok(em) ==> opened_entropy(em.ciphertext(), pwd@) == Some(mnemonic@),
            r matches Ok(em) ==> em.ciphertext() == aes256_gcm_siv_seal(
                argon2id_hash(pwd@, seq![85u8, 111u8, 109u8, 49u8, 100u8, 84u8, 81u8, 86u8, 80u8, 79u8, 77u8, 121u8, 112u8, 100u8, 79u8, 75u8, 106u8, 105u8, 56u8, 97u8, 120u8, 65u8], 32),
                seq![106u8, 43u8, 100u8, 53u8, 47u8, 47u8, 101u8, 117u8, 78u8, 122u8, 111u8, 77u8],
                mnemonic@,
            ),
    {
        proof {
            lemma_key_and_nonce();
        }
        let key = match derive_key(pwd) {
            Ok(k) => k,
            Err(e) => return Err(Error::Argon2Error(e)),
        };
        let entropy = mnemonic.to_entropy();
        let nonce: [u8; 12] = NONCE;
        let sealed = match aes_seal(key.as_slice(), nonce.as_slice(), entropy.as_slice()) {
            Ok(c) => c,
            Err(e) => return Err(Error::AeadError(e)),
        };
        if sealed.len() != E::byte_len() {
            return Err(Error::BadWordCount);
        }
        Ok(EncryptedMnemonic { entropy: E::from_bytes(sealed.as_slice()) })
    }

    /// Decrypts with the key derived from `pwd`.
    pub fn decrypt(&self, pwd: &[u8]) -> (r: Result<Mnemonic>)
        ensures
            !key_derivable(pwd@) ==> r == Err::<Mnemonic, Error>(
                Error::Argon2Error(derivation_failure(pwd@)),
            ),
            key_derivable(pwd@) ==> match opened_entropy(self.ciphertext(), pwd@) {
                Some(e) => r matches Ok(m) && m@ == e,
                None => r matches Err(Error::AeadError(_)),
            },
            r matches Ok(m) ==> m@.len() + 16 == E::size(),
            pwd@.len() <= 0xFFFF_FFFF ==> match aes256_gcm_siv_open(
                argon2id_hash(pwd@, seq![85u8, 111u8, 109u8, 49u8, 100u8, 84u8, 81u8, 86u8, 80u8, 79u8, 77u8, 121u8, 112u8, 100u8, 79u8, 75u8, 106u8, 105u8, 56u8, 97u8, 120u8, 65u8], 32),
                seq![106u8, 43u8, 100u8, 53u8, 47u8, 47u8, 101u8, 117u8, 78u8, 122u8, 111u8, 77u8],
                self.ciphertext(),
            ) {
                Some(e) => r matches Ok(m) && m@ == e,
                None => r matches Err(Error::AeadError(_)),
            },
    {
        proof {
            lemma_key_and_nonce();
        }
        let key = match derive_key(pwd) {
            Ok(k) => k,
            Err(e) => return Err(Error::Argon2Error(e)),
        };
        let nonce: [u8; 12] = NONCE;
        let plain = match aes_open(key.as_slice(), nonce.as_slice(), self.entropy.as_bytes()) {
            Ok(p) => p,
            Err(e) => return Err(Error::AeadError(e)),
        };
        proof {
            E::lemma_size();
        }
        match Mnemonic::from_entropy(plain.as_slice()) {
            Ok(m) => Ok(m),
            Err(e) => {
                proof {
                    assert(false);
                }
                Err(e)
            },
        }
    }
}

/// `phrase` is in normal form: its words separated by single spaces, with
/// no space before the first or after the last.
pub open spec fn is_normal_phrase(phrase: Seq<char>) -> bool {
    phrase == join_with_spaces(split_white_space(phrase))
}

/// The entropy that a 24-word phrase gives: what BIP-39 reads from it, where
/// that is 32 bytes.
pub open spec fn words24_entropy(phrase: Seq<char>) -> Option<Seq<u8>> {
    match bip39_phrase_entropy(phrase) {
        Some(e) => if e.len() == 32 {
            Some(e)
        } else {
            None
        },
        None => None,
    }
}

/// The first 24 words of `phrase`, separated by single spaces.
pub open spec fn first_phrase(phrase: Seq<char>) -> Seq<char> {
    join_with_spaces(split_white_space(phrase).subrange(0, 24))
}

/// The words of `phrase` from the 25th to the 36th, separated by single spaces.
pub open spec fn second_phrase(phrase: Seq<char>) -> Seq<char> {
    join_with_spaces(split_white_space(phrase).subrange(24, 36))
}

/// The entropy that a 36-word phrase gives: its first 24 words and its last 12
/// words read as two BIP-39 phrases, one after the other.
pub open spec fn words36_entropy(phrase: Seq<char>) -> Option<Seq<u8>> {
    let ws = split_white_space(phrase);
    if ws.len() != 36 {
        None
    } else {
        match (bip39_phrase_entropy(first_phrase(phrase)), bip39_phrase_entropy(second_phrase(phrase))) {
            (Some(a), Some(b)) => Some(a + b),
            _ => None,
        }
    }
}

/// Copies `words` into an array of `N` words.
fn words_to_array<const N: usize>(words: &Vec<&'static str>) -> (r: [&'static str; N])
    requires
        words@.len() == N,
    ensures
        r@ == words@,
{
    let mut r = [""; N];
    let mut i: usize = 0;
    while i < N
        invariant
            words@.len() == N,
            r@.len() == N,
            i <= N,
            forall|j: int| 0 <= j < i ==> r@[j] == words@[j],
        decreases N - i,
    {
        r[i] = words[i];
        i = i + 1;
    }
    assert(r@ =~= words@);
    r
}

impl EncryptedMnemonic24 {
    /// Reads the 24 words of an encrypted 12-word mnemonic.
    pub fn from_words(words: &str) -> (r: Result<Self>)
        ensures
            bip39_parse(words@) matches Err(f) ==> r == Err::<Self, Error>(Error::Bip39Error(f)),
            bip39_parse(words@) matches Ok(e) && e.len() != 32 ==> r matches Err(
                Error::BadWordCount,
            ),
            bip39_parse(words@) matches Ok(e) ==> (e.len() == 32 ==> (r matches Ok(em)
                && em.ciphertext() == e)),
            r is Ok <==> words24_entropy(words@) is Some,
            r matches Ok(em) ==> words24_entropy(words@) == Some(em.ciphertext()),
            r matches Ok(em) ==> bip39_entropy_words(em.ciphertext()) == split_white_space(words@),
            r matches Ok(em) ==> (is_normal_phrase(words@) ==> join_with_spaces(
                bip39_entropy_words(em.ciphertext()),
            ) == words@),
    {
        let m = match Mnemonic::parse_normalized(words) {
            Ok(m) => m,
            Err(e) => return Err(e),
        };
        let e = m.to_entropy();
        if e.len() != 32 {
            return Err(Error::BadWordCount);
        }
        Ok(EncryptedMnemonic { entropy: copy_to_array::<32>(e.as_slice()) })
    }

    /// The 24 words that write the encrypted bytes.
    pub fn words(&self) -> (r: [&'static str; 24])
        ensures
            texts(r@) == bip39_entropy_words(self.ciphertext()),
            all_words(texts(r@)),
            words24_entropy(join_with_spaces(texts(r@))) == Some(self.ciphertext()),
    {
        let m = match Mnemonic::from_entropy(self.entropy.as_slice()) {
            Ok(m) => m,
            Err(e) => {
                proof {
                    assert(false);
                }
                return [""; 24];
            },
        };
        let w = m.words();
        proof {
            lemma_lowercase_words(w@);
        }
        words_to_array::<24>(&w)
    }
}

impl EncryptedMnemonic36 {
    /// Reads the 36 words of an encrypted 24-word mnemonic.
    pub fn from_words(words: &str) -> (r: Result<Self>)
        ensures
            split_white_space(words@).len() != 36 ==> r matches Err(Error::BadWordCount),
            split_white_space(words@).len() == 36 ==> (bip39_parse(join_with_spaces(split_white_space(words@).subrange(0, 24))) matches Err(f) ==> r == Err::<
                Self,
                Error,
            >(Error::Bip39Error(f))),
            split_white_space(words@).len() == 36 && bip39_parse(join_with_spaces(split_white_space(words@).subrange(0, 24))) is Ok ==> (bip39_parse(
                join_with_spaces(split_white_space(words@).subrange(24, 36)),
            ) matches Err(f) ==> r == Err::<Self, Error>(Error::Bip39Error(f))),
            split_white_space(words@).len() == 36 ==> (bip39_parse(join_with_spaces(split_white_space(words@).subrange(0, 24))) matches Ok(a) ==> (
            bip39_parse(join_with_spaces(split_white_space(words@).subrange(24, 36))) matches Ok(b) ==> (r matches Ok(em) && em.ciphertext() == a + b))),
            r is Ok <==> words36_entropy(words@) is Some,
            r matches Ok(em) ==> words36_entropy(words@) == Some(em.ciphertext()),
            r matches Ok(em) ==> bip39_entropy_words(em.ciphertext().subrange(0, 32))
                + bip39_entropy_words(em.ciphertext().subrange(32, 48)) == split_white_space(
                words@,
            ),
            r matches Ok(em) ==> (is_normal_phrase(words@) ==> join_with_spaces(
                bip39_entropy_words(em.ciphertext().subrange(0, 32)) + bip39_entropy_words(
                    em.ciphertext().subrange(32, 48),
                ),
            ) == words@),
    {
        let ws = split_words(words);
        if ws.len() != 36 {
            return Err(Error::BadWordCount);
        }
        proof {
            lemma_split_gives_words(words@);
            lemma_words_subrange(texts(ws@), 0, 24);
            lemma_words_subrange(texts(ws@), 24, 36);
            lemma_split_join(texts(ws@).subrange(0, 24));
            lemma_split_join(texts(ws@).subrange(24, 36));
        }
        let first = join_words(ws.as_slice(), 0, 24);
        let second = join_words(ws.as_slice(), 24, 36);
        let m1 = match Mnemonic::parse_normalized(first.as_str()) {
            Ok(m) => m,
            Err(e) => return Err(e),
        };
        let m2 = match Mnemonic::parse_normalized(second.as_str()) {
            Ok(m) => m,
            Err(e) => return Err(e),
        };
        let mut e = m1.to_entropy();
        let mut e2 = m2.to_entropy();
        let ghost (first_half, second_half) = (e@, e2@);
        e.append(&mut e2);
        proof {
            assert(e@.subrange(0, 32) =~= first_half);
            assert(e@.subrange(32, 48) =~= second_half);
            assert(texts(ws@) =~= texts(ws@).subrange(0, 24) + texts(ws@).subrange(24, 36));
        }
        Ok(EncryptedMnemonic { entropy: copy_to_array::<48>(e.as_slice()) })
    }

    /// The 36 words that write the encrypted bytes: the 24 words of the first
    /// 32 bytes, then the 12 words of the last 16.
    pub fn words(&self) -> (r: [&'static str; 36])
        ensures
            texts(r@) == bip39_entropy_words(self.ciphertext().subrange(0, 32))
                + bip39_entropy_words(self.ciphertext().subrange(32, 48)),
            all_words(texts(r@)),
            words36_entropy(join_with_spaces(texts(r@))) == Some(self.ciphertext()),
    {
        let bytes = self.entropy.as_slice();
        let m1 = match Mnemonic::from_entropy(&bytes[0..32]) {
            Ok(m) => m,
            Err(e) => {
                proof {
                    assert(false);
                }
                return [""; 36];
            },
        };
        let m2 = match Mnemonic::from_entropy(&bytes[32..48]) {
            Ok(m) => m,
            Err(e) => {
                proof {
                    assert(false);
                }
                return [""; 36];
            },
        };
        let mut w = m1.words();
        let mut w2 = m2.words();
        let ghost w1v = w@;
        let ghost w2v = w2@;
        w.append(&mut w2);
        proof {
            let ghost all = texts(w@);
            assert(w@ =~= w1v + w2v);
            assert(all =~= texts(w1v) + texts(w2v));
            assert(all.subrange(0, 24) =~= texts(w1v));
            assert(all.subrange(24, 36) =~= texts(w2v));
            assert forall|i: int| 0 <= i < w@.len() implies is_lowercase_word(
                #[trigger] w@[i]@,
            ) by {
                if i < 24 {
                    assert(w@[i] == w1v[i]);
                } else {
                    assert(w@[i] == w2v[i - 24]);
                }
            }
            lemma_lowercase_words(w@);
            lemma_split_join(all);
            assert(self.ciphertext().subrange(0, 32) + self.ciphertext().subrange(32, 48)
                =~= self.ciphertext());
        }
        words_to_array::<36>(&w)
    }
}

/// An encrypted mnemonic of either size.
pub enum AnyEncryptedMnemonic {
    Words24(EncryptedMnemonic24),
    Words36(EncryptedMnemonic36),
}

impl AnyEncryptedMnemonic {
    /// The encrypted bytes are 32 for the 24-word kind and 48 for the 36-word kind.
    pub proof fn lemma_ciphertext_len(&self)
        ensures
            self is Words24 ==> self.ciphertext().len() == 32,
            self is Words36 ==> self.ciphertext().len() == 48,
    {
        match self {
            AnyEncryptedMnemonic::Words24(m) => m.entropy.lemma_bytes_len(),
            AnyEncryptedMnemonic::Words36(m) => m.entropy.lemma_bytes_len(),
        }
    }

    /// The encrypted bytes.
    pub open spec fn ciphertext(&self) -> Seq<u8> {
        match self {
            AnyEncryptedMnemonic::Words24(m) => m.ciphertext(),
            AnyEncryptedMnemonic::Words36(m) => m.ciphertext(),
        }
    }

    /// Decrypts with the key derived from `pwd`.
    pub fn decrypt(&self, pwd: &[u8]) -> (r: Result<Mnemonic>)
        ensures
            !key_derivable(pwd@) ==> r == Err::<Mnemonic, Error>(
                Error::Argon2Error(derivation_failure(pwd@)),
            ),
            key_derivable(pwd@) ==> match opened_entropy(self.ciphertext(), pwd@) {
                Some(e) => r matches Ok(m) && m@ == e,
                None => r matches Err(Error::AeadError(_)),
            },
            r matches Ok(m) ==> m@.len() + 16 == self.ciphertext().len(),
    {
        proof {
            self.lemma_ciphertext_len();
        }
        match self {
            AnyEncryptedMnemonic::Words24(m) => m.decrypt(pwd),
            AnyEncryptedMnemonic::Words36(m) => m.decrypt(pwd),
        }
    }
}

impl EncryptedMnemonic24 {
    /// Wraps as an encrypted mnemonic of either size.
    pub fn into_enum(self) -> (r: AnyEncryptedMnemonic)
        ensures
            r == AnyEncryptedMnemonic::Words24(self),
    {
        AnyEncryptedMnemonic::Words24(self)
    }
}

impl EncryptedMnemonic36 {
    /// Wraps as an encrypted mnemonic of either size.
    pub fn into_enum(self) -> (r: AnyEncryptedMnemonic)
        ensures
            r == AnyEncryptedMnemonic::Words36(self),
    {
        AnyEncryptedMnemonic::Words36(self)
    }
}

} // verus!
