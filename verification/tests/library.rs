use mnemolock::error::Error;
use mnemolock::mnemonic::Mnemonic;
use mnemolock::text::{join_words, split_words};
use mnemolock::util::BoundedIndex;
use mnemolock::{EncryptedMnemonic24, EncryptedMnemonic36, Entropy};

const ZERO_12: &str = "abandon abandon abandon abandon abandon abandon abandon abandon abandon abandon abandon about";
const ZERO_24: &str = "abandon abandon abandon abandon abandon abandon abandon abandon abandon abandon abandon abandon abandon abandon abandon abandon abandon abandon abandon abandon abandon abandon abandon art";
const LEGAL_12: &str = "legal winner thank year wave sausage worth useful legal winner thank yellow";

#[test]
fn bounded_index_moves_within_bounds() {
    let mut i = BoundedIndex::new(1, 1, 3);
    i.decrement();
    assert_eq!(i.value(), 1);
    i.increment();
    assert_eq!(i.value(), 2);
    i.increment();
    i.increment();
    assert_eq!(i.value(), 3);
    i.decrement();
    assert_eq!(i.value(), 2);
}

#[test]
fn bounded_index_increment_then_decrement_restores() {
    let mut i = BoundedIndex::new(5, 1, 9);
    i.increment();
    i.decrement();
    assert_eq!(i.value(), 5);
    let mut j = BoundedIndex::new(9, 1, 9);
    j.increment();
    assert_eq!(j.value(), 9);
}

#[test]
fn split_words_splits_at_any_white_space() {
    let words = split_words("  alpha\tbeta \u{3000}gamma\n");
    assert_eq!(words, vec!["alpha", "beta", "gamma"]);
    assert!(split_words(" \t ").is_empty());
}

#[test]
fn join_then_split_gives_the_words_back() {
    let words = ["one", "two", "three", "four"];
    let joined = join_words(&words, 1, 4);
    assert_eq!(joined, "two three four");
    assert_eq!(split_words(&joined), vec!["two", "three", "four"]);
    assert_eq!(join_words(&words, 2, 2), "");
}

#[test]
fn mnemonic_parses_the_zero_vector() {
    let m = Mnemonic::parse_normalized(ZERO_12).unwrap();
    assert_eq!(m.to_entropy(), vec![0u8; 16]);
    assert_eq!(m.word_count(), 12);
    assert_eq!(m.entropy_len(), 16);
}

#[test]
fn mnemonic_words_of_known_entropy() {
    let m = Mnemonic::from_entropy(&[0x7fu8; 16]).unwrap();
    assert_eq!(m.words().join(" "), LEGAL_12);
    let z = Mnemonic::from_entropy(&[0u8; 32]).unwrap();
    assert_eq!(z.words().join(" "), ZERO_24);
}

#[test]
fn mnemonic_rejects_bad_entropy_and_phrases() {
    assert!(matches!(Mnemonic::from_entropy(&[0u8; 17]), Err(Error::Bip39Error(_))));
    assert!(matches!(Mnemonic::from_entropy(&[0u8; 12]), Err(Error::Bip39Error(_))));
    assert!(matches!(Mnemonic::parse_normalized("abandon abandon"), Err(Error::Bip39Error(_))));
    let bad_checksum = "abandon abandon abandon abandon abandon abandon abandon abandon abandon abandon abandon abandon";
    assert!(matches!(Mnemonic::parse_normalized(bad_checksum), Err(Error::Bip39Error(_))));
}

#[test]
fn encrypt_then_decrypt_gives_the_mnemonic_back() {
    let m = Mnemonic::parse_normalized(LEGAL_12).unwrap();
    let enc = EncryptedMnemonic24::new(&m, b"correct horse").unwrap();
    let words = enc.words();
    assert_eq!(words.len(), 24);
    assert_ne!(words.join(" "), LEGAL_12);
    let back = enc.decrypt(b"correct horse").unwrap();
    assert_eq!(back.to_entropy(), vec![0x7fu8; 16]);
}

#[test]
fn wrong_password_fails_to_decrypt() {
    let m = Mnemonic::parse_normalized(ZERO_12).unwrap();
    let enc = EncryptedMnemonic24::new(&m, b"right").unwrap();
    assert!(matches!(enc.decrypt(b"wrong"), Err(Error::AeadError(_))));
}

#[test]
fn encrypted_words_read_back_24() {
    let m = Mnemonic::parse_normalized(ZERO_12).unwrap();
    let enc = EncryptedMnemonic24::new(&m, b"pw").unwrap();
    let phrase = enc.words().join(" ");
    let read = EncryptedMnemonic24::from_words(&phrase).unwrap();
    assert_eq!(read.words(), enc.words());
    assert_eq!(read.words().join(" "), phrase);
    assert_ne!(read.words().join(" "), ZERO_24);
}

#[test]
fn encrypted_words_read_back_36() {
    let m = Mnemonic::parse_normalized(ZERO_24).unwrap();
    let enc = EncryptedMnemonic36::new(&m, b"pw").unwrap();
    let words = enc.words();
    assert_eq!(words.len(), 36);
    let phrase = words.join("  \n");
    let read = EncryptedMnemonic36::from_words(&phrase).unwrap();
    assert_eq!(read.words(), words);
    let back = read.decrypt(b"pw").unwrap();
    assert_eq!(back.to_entropy(), vec![0u8; 32]);
}

#[test]
fn size_mismatch_is_a_bad_word_count() {
    let m = Mnemonic::parse_normalized(ZERO_12).unwrap();
    assert!(matches!(EncryptedMnemonic36::new(&m, b"pw"), Err(Error::BadWordCount)));
}

#[test]
fn from_words_errors() {
    assert!(matches!(EncryptedMnemonic24::from_words(ZERO_12), Err(Error::BadWordCount)));
    assert!(matches!(EncryptedMnemonic24::from_words("not words"), Err(Error::Bip39Error(_))));
    assert!(matches!(EncryptedMnemonic36::from_words(ZERO_24), Err(Error::BadWordCount)));
    let mut thirty_six = String::from(ZERO_24);
    thirty_six.push(' ');
    thirty_six.push_str(ZERO_12);
    assert!(EncryptedMnemonic36::from_words(&thirty_six).is_ok());
    let mut broken = String::from(ZERO_24);
    broken.push(' ');
    broken.push_str(&ZERO_12.replace("about", "abandon"));
    assert!(matches!(EncryptedMnemonic36::from_words(&broken), Err(Error::Bip39Error(_))));
}

#[test]
fn entropy_sizes() {
    assert_eq!(<[u8; 32] as Entropy>::byte_len(), 32);
    assert_eq!(<[u8; 48] as Entropy>::byte_len(), 48);
    let a = <[u8; 32] as Entropy>::from_bytes(&[7u8; 32]);
    assert_eq!(a.as_bytes(), &[7u8; 32][..]);
}

#[test]
fn error_messages() {
    assert_eq!(Error::BadWordCount.message(), "bad word count");
    let m = Mnemonic::parse_normalized(ZERO_12).unwrap();
    let enc = EncryptedMnemonic24::new(&m, b"a").unwrap();
    let failed = match enc.decrypt(b"b") {
        Err(e) => e,
        Ok(_) => panic!("a wrong password decrypts nothing"),
    };
    assert_eq!(failed.message(), "aead::Error");
    let e = match Mnemonic::parse_normalized("abandon") {
        Err(e) => e,
        Ok(_) => panic!("a single word is no mnemonic"),
    };
    assert!(!e.message().is_empty());
}

#[test]
fn phrase_errors_are_those_of_bip39() {
    let expected = bip39::Mnemonic::parse_normalized("not words").unwrap_err();
    match EncryptedMnemonic24::from_words("not words") {
        Err(Error::Bip39Error(e)) => assert_eq!(e, expected),
        _ => panic!("two unknown words are no mnemonic"),
    }
    match Mnemonic::from_entropy(&[0u8; 17]) {
        Err(Error::Bip39Error(e)) => assert_eq!(e, bip39::Error::BadEntropyBitCount(136)),
        _ => panic!("17 bytes are no entropy"),
    }
    let unknown = "abandon abandon abandon xyzzy abandon abandon abandon abandon abandon abandon abandon about";
    let mut broken_second = String::from(ZERO_24);
    broken_second.push(' ');
    broken_second.push_str(unknown);
    match EncryptedMnemonic36::from_words(&broken_second) {
        Err(Error::Bip39Error(e)) => assert_eq!(e, bip39::Error::UnknownWord(3)),
        _ => panic!("the last 12 words hold an unknown word"),
    }
    let mut broken_first = ZERO_24.replace("art", "zoo");
    broken_first.push(' ');
    broken_first.push_str(unknown);
    match EncryptedMnemonic36::from_words(&broken_first) {
        Err(Error::Bip39Error(e)) => assert_eq!(e, bip39::Error::InvalidChecksum),
        _ => panic!("the first 24 words fail before the last 12 are read"),
    }
}
