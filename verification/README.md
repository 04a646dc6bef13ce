# mnemolock

Encrypts a BIP-39 mnemonic under a password and writes the encryption back as
BIP-39 words, so that it can be written down like any mnemonic: a 12-word
mnemonic becomes 24 words, a 24-word mnemonic 36 words. The key is derived from
the password with Argon2id and the entropy is encrypted with AES-256-GCM-SIV.

Layout:

- `src/` is the library, verified with Verus.
  - `lib.rs`: `EncryptedMnemonic` (encrypt, decrypt, read and write as words).
  - `mnemonic.rs`: English BIP-39 mnemonics held as their entropy.
  - `crypto.rs`: key derivation and the cipher.
  - `text.rs`: splitting text at white space and joining words.
  - `util.rs`: `BoundedIndex`.
  - `cli/`: the decisions of the interactive screens: key presses, the check
    of the words entered, and the encryption and decryption sessions as state
    machines.
- `app/` is the terminal program around the library: it reads keys, draws the
  screens and feeds the sessions.
- `tests/` runs the library on concrete values.
