//! BIP-39 mnemonics in English, held as the entropy that they encode.

use vstd::prelude::*;
use bip39::Error as PhraseFailure;
use crate::error::Error;
use crate::text::{all_words, is_white_space, is_word, join_with_spaces, split_white_space, texts};

verus! {

#[verifier::external_type_specification]
#[verifier::external_body]
pub struct ExPhraseFailure(PhraseFailure);

/// Whether `n` bytes are an entropy that BIP-39 encodes: 128 to 256 bits, in
/// steps of 32 bits.
pub open spec fn valid_entropy_len(n: nat) -> bool {
    n % 4 == 0 && 16 <= n <= 32
}

/// Whether `w` is made of the letters `a` to `z` only, as every word of the
/// English BIP-39 list is, and is not empty.
pub open spec fn is_lowercase_word(w: Seq<char>) -> bool {
    w.len() > 0 && forall|i: int| 0 <= i < w.len() ==> 'a' <= #[trigger] w[i] <= 'z'
}

/// What `bip39::Mnemonic::parse_normalized` followed by `Mnemonic::to_entropy`
/// gives for the English BIP-39 phrase `phrase`: the entropy that it encodes,
/// or the error with which the crate rejects the phrase.
pub uninterp spec fn bip39_parse(phrase: Seq<char>) -> Result<Seq<u8>, PhraseFailure>;

/// What `bip39::Mnemonic::from_entropy` followed by `Mnemonic::words` gives for
/// `entropy`: the English BIP-39 words that encode it, or the error with which
/// the crate rejects it.
pub uninterp spec fn bip39_from_entropy(entropy: Seq<u8>) -> Result<Seq<Seq<char>>, PhraseFailure>;

/// The entropy that the English BIP-39 phrase `phrase` encodes, or `None`
/// where the phrase is rejected.
pub open spec fn bip39_phrase_entropy(phrase: Seq<char>) -> Option<Seq<u8>> {
    match bip39_parse(phrase) {
        Ok(e) => Some(e),
        Err(_) => None,
    }
}

/// The English BIP-39 words that encode `entropy`, where it has a length
/// that BIP-39 encodes.
pub open spec fn bip39_entropy_words(entropy: Seq<u8>) -> Seq<Seq<char>> {
    match bip39_from_entropy(entropy) {
        Ok(w) => w,
        Err(_) => Seq::empty(),
    }
}

/// Calls `bip39::Mnemonic::parse_normalized` and, on success,
/// `Mnemonic::to_entropy`. The crate's source counts the words of the phrase
/// with `split_whitespace`, accepts 12, 15, 18, 21 or 24 of them, and gives
/// back 4 bytes of entropy for every 3 words. Each word must be found, exactly
/// as written, in the English list, and the checksum must match, so the words
/// that encode the entropy are the words of the phrase. The error that comes
/// back is a function of the phrase alone.
#[verifier::external_body]
fn parse_phrase(phrase: &str) -> (r: Result<Vec<u8>, PhraseFailure>)
    ensures
        r matches Ok(e) ==> (bip39_parse(phrase@) matches Ok(x) && x == e@),
        r matches Err(f) ==> (bip39_parse(phrase@) matches Err(g) && g == f),
        r matches Ok(e) ==> valid_entropy_len(e@.len()),
        r matches Ok(e) ==> e@.len() * 3 == split_white_space(phrase@).len() * 4,
        r matches Ok(e) ==> bip39_entropy_words(e@) == split_white_space(phrase@),
{
    match bip39::Mnemonic::parse_normalized(phrase) {
        Ok(m) => Ok(m.to_entropy()),
        Err(e) => Err(e),
    }
}

/// Calls `bip39::Mnemonic::from_entropy` and, on success, collects
/// `Mnemonic::words`. The crate's source accepts exactly the entropy lengths
/// of `valid_entropy_len` and makes 3 words of every 4 bytes, each taken from
/// the English list, whose words are lowercase letters. The words joined with
/// single spaces are the mnemonic's `Display`, and parsing them gives back a
/// mnemonic whose `to_entropy` is `entropy`. The error that comes back
/// (`BadEntropyBitCount`) is a function of the entropy alone.
#[verifier::external_body]
fn entropy_words(entropy: &[u8]) -> (r: Result<Vec<&'static str>, PhraseFailure>)
    ensures
        r is Ok <==> valid_entropy_len(entropy@.len()),
        r matches Ok(w) ==> (bip39_from_entropy(entropy@) matches Ok(x) && x == texts(w@)),
        r matches Err(f) ==> (bip39_from_entropy(entropy@) matches Err(g) && g == f),
        r matches Ok(w) ==> w@.len() * 4 == entropy@.len() * 3,
        r matches Ok(w) ==> forall|i: int|
            0 <= i < w@.len() ==> is_lowercase_word(#[trigger] w@[i]@),
        r matches Ok(w) ==> bip39_phrase_entropy(join_with_spaces(texts(w@))) == Some(entropy@),
{
    match bip39::Mnemonic::from_entropy(entropy) {
        Ok(m) => Ok(m.words().collect()),
        Err(e) => Err(e),
    }
}

/// Lowercase words are words: they hold no white space.
pub proof fn lemma_lowercase_words(ws: Seq<&str>)
    requires
        forall|i: int| 0 <= i < ws.len() ==> is_lowercase_word(#[trigger] ws[i]@),
    ensures
        all_words(texts(ws)),
{
    assert forall|i: int| 0 <= i < texts(ws).len() implies is_word(#[trigger] texts(ws)[i]) by {
        let w = ws[i]@;
        assert(texts(ws)[i] == w);
        assert(is_lowercase_word(ws[i]@));
        assert forall|j: int| 0 <= j < w.len() implies !is_white_space(#[trigger] w[j]) by {
            assert('a' <= w[j] <= 'z');
        }
    }
}

/// A BIP-39 mnemonic in English, held as the entropy that it encodes.
pub struct Mnemonic {
    entropy: Vec<u8>,
}

impl View for Mnemonic {
    type V = Seq<u8>;

    /// The entropy that the mnemonic encodes.
    closed spec fn view(&self) -> Seq<u8> {
        self.entropy@
    }
}

impl Mnemonic {
    /// The entropy always has a length that BIP-39 encodes.
    #[verifier::type_invariant]
    pub open spec fn is_valid(&self) -> bool {
        valid_entropy_len(self@.len())
    }

    /// The mnemonic that encodes `entropy`.
    pub fn from_entropy(entropy: &[u8]) -> (r: Result<Mnemonic, Error>)
        ensures
            r is Ok <==> valid_entropy_len(entropy@.len()),
            r matches Ok(m) ==> m@ == entropy@,
            bip39_from_entropy(entropy@) matches Err(f) ==> r == Err::<Mnemonic, Error>(
                Error::Bip39Error(f),
            ),
    {
        match entropy_words(entropy) {
            Ok(_) => {
                let mut bytes: Vec<u8> = Vec::new();
                let mut i: usize = 0;
                while i < entropy.len()
                    invariant
                        i <= entropy@.len(),
                        bytes@ == entropy@.take(i as int),
                    decreases entropy@.len() - i,
                {
                    bytes.push(entropy[i]);
                    i = i + 1;
                    assert(bytes@ =~= entropy@.take(i as int));
                }
                assert(entropy@.take(i as int) =~= entropy@);
                Ok(Mnemonic { entropy: bytes })
            },
            Err(e) => Err(Error::Bip39Error(e)),
        }
    }

    /// Reads an English BIP-39 phrase whose words are separated by white space.
    pub fn parse_normalized(phrase: &str) -> (r: Result<Mnemonic, Error>)
        ensures
            match bip39_parse(phrase@) {
                Ok(e) => r matches Ok(m) && m@ == e,
                Err(f) => r == Err::<Mnemonic, Error>(Error::Bip39Error(f)),
            },
            r matches Ok(m) ==> m@.len() * 3 == split_white_space(phrase@).len() * 4,
            r matches Ok(m) ==> bip39_entropy_words(m@) == split_white_space(phrase@),
    {
        match parse_phrase(phrase) {
            Ok(e) => Ok(Mnemonic { entropy: e }),
            Err(e) => Err(Error::Bip39Error(e)),
        }
    }

    /// The entropy that the mnemonic encodes.
    pub fn to_entropy(&self) -> (r: Vec<u8>)
        ensures
            r@ == self@,
            valid_entropy_len(r@.len()),
    {
        proof {
            use_type_invariant(self);
        }
        self.entropy.clone()
    }

    /// The length of the entropy in bytes.
    pub fn entropy_len(&self) -> (r: usize)
        ensures
            r == self@.len(),
            valid_entropy_len(r as nat),
    {
        proof {
            use_type_invariant(self);
        }
        self.entropy.len()
    }

    /// The words of the mnemonic.
    pub fn words(&self) -> (r: Vec<&'static str>)
        ensures
            texts(r@) == bip39_entropy_words(self@),
            valid_entropy_len(self@.len()),
            r@.len() * 4 == self@.len() * 3,
            forall|i: int| 0 <= i < r@.len() ==> is_lowercase_word(#[trigger] r@[i]@),
            bip39_phrase_entropy(join_with_spaces(texts(r@))) == Some(self@),
    {
        proof {
            use_type_invariant(self);
        }
        match entropy_words(self.entropy.as_slice()) {
            Ok(w) => w,
            Err(_) => {
                proof {
                    assert(false);
                }
                Vec::new()
            },
        }
    }

    /// How many words the mnemonic has.
    pub fn word_count(&self) -> (r: usize)
        ensures
            r * 4 == self@.len() * 3,
    {
        let n = self.entropy_len();
        n / 4 * 3
    }
}

} // verus!
