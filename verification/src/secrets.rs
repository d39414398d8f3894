//! Secrets at rest: instance secrets (printer API keys) are sealed with
//! ChaCha20-Poly1305 under the instance key and stored as
//! `base64(nonce ‖ ciphertext+tag)`. Opening a token gives back the secret,
//! or nothing when the encoding, the authentication or the UTF-8 fails.

use base64::engine::general_purpose::STANDARD;
use base64::Engine;
use chacha20poly1305::aead::{Aead, OsRng};
use chacha20poly1305::{AeadCore, ChaCha20Poly1305, Key, KeyInit, Nonce};
use vstd::prelude::*;
use vstd::string::StringSliceAdditionalSpecFns;
use vstd::utf8::{decode_utf8, encode_utf8, valid_utf8};

use crate::text::{chars_of, is_ws, lemma_trim_no_ws, string_of, trim, trimmed};

verus! {

/// Length of the ChaCha20-Poly1305 nonce that prefixes a sealed secret.
pub const NONCE_LEN: usize = 12;

// --- Outside primitives --------------------------------------------------------

/// The standard, padded base64 text of `bytes` (`base64::engine::general_purpose::STANDARD`).
pub uninterp spec fn base64_text(bytes: Seq<u8>) -> Seq<char>;

/// The bytes that the standard base64 engine decodes from `text`, if it is
/// valid padded base64.
pub uninterp spec fn base64_bytes(text: Seq<char>) -> Option<Seq<u8>>;

/// ChaCha20-Poly1305 encryption of `plain` under `key` and `nonce`, with no
/// associated data: the ciphertext followed by the 16-byte tag.
pub uninterp spec fn aead_seal(key: Seq<u8>, nonce: Seq<u8>, plain: Seq<u8>) -> Seq<u8>;

/// ChaCha20-Poly1305 decryption of `sealed` (ciphertext then tag) under `key`
/// and `nonce`: the plaintext when the tag authenticates, otherwise nothing.
pub uninterp spec fn aead_open(key: Seq<u8>, nonce: Seq<u8>, sealed: Seq<u8>) -> Option<Seq<u8>>;

/// A character of the standard base64 alphabet, padding included.
pub open spec fn is_base64_char(c: char) -> bool {
    ||| ('A' <= c && c <= 'Z')
    ||| ('a' <= c && c <= 'z')
    ||| ('0' <= c && c <= '9')
    ||| c == '+'
    ||| c == '/'
    ||| c == '='
}

/// `STANDARD.encode(bytes)` from `base64`. Claimed: the result is the named
/// base64 text of the bytes, it uses only the base64 alphabet, and the same
/// engine decodes it back to the bytes.
#[verifier::external_body]
fn b64_encode(bytes: &[u8]) -> (r: String)
    ensures
        r@ == base64_text(bytes@),
        base64_bytes(r@) == Some(bytes@),
        forall|i: int| 0 <= i < r@.len() ==> is_base64_char(#[trigger] r@[i]),
{
    STANDARD.encode(bytes)
}

/// `STANDARD.decode(text)` from `base64`, its error mapped to `None`.
/// Claimed: the result is the named decoding of the text.
#[verifier::external_body]
fn b64_decode(text: &str) -> (r: Option<Vec<u8>>)
    ensures
        match r {
            Some(b) => base64_bytes(text@) == Some(b@),
            None => base64_bytes(text@) is None,
        },
{
    STANDARD.decode(text).ok()
}

/// `ChaCha20Poly1305::generate_nonce(&mut OsRng)`: twelve random bytes from
/// the operating system. Nothing is claimed of their value; the generator
/// panics only if the operating system cannot supply randomness.
#[verifier::external_body]
fn fresh_nonce() -> (r: [u8; 12]) {
    ChaCha20Poly1305::generate_nonce(&mut OsRng).into()
}

/// `Aead::encrypt` of `ChaCha20Poly1305` with no associated data. The crate
/// refuses a message of `u32::MAX` 64-byte blocks or more, which `requires`
/// leaves out. Claimed: the result is the named sealing, it is 16 bytes (the
/// tag) longer than the message, and `Aead::decrypt` under the same key and
/// nonce gives the message back.
#[verifier::external_body]
fn seal(key: &[u8; 32], nonce: &[u8; 12], plain: &[u8]) -> (r: Vec<u8>)
    requires
        plain@.len() / 64 < 0xffff_ffff,
    ensures
        r@ == aead_seal(key@, nonce@, plain@),
        r@.len() == plain@.len() + 16,
        aead_open(key@, nonce@, r@) == Some(plain@),
{
    let cipher = ChaCha20Poly1305::new(Key::from_slice(key));
    cipher.encrypt(Nonce::from_slice(nonce), plain).expect("message within the cipher's limit")
}

/// `Aead::decrypt` of `ChaCha20Poly1305` with no associated data, its error
/// mapped to `None`. Claimed: the result is the named opening.
#[verifier::external_body]
fn open(key: &[u8; 32], nonce: &[u8; 12], sealed: &[u8]) -> (r: Option<Vec<u8>>)
    ensures
        match r {
            Some(p) => aead_open(key@, nonce@, sealed@) == Some(p@),
            None => aead_open(key@, nonce@, sealed@) is None,
        },
{
    let cipher = ChaCha20Poly1305::new(Key::from_slice(key));
    cipher.decrypt(Nonce::from_slice(nonce), sealed).ok()
}

/// `String::from_utf8`, its error mapped to `None`: a string exactly when
/// the bytes are well-formed UTF-8, and then the characters they encode.
#[verifier::external_body]
fn utf8_string(bytes: Vec<u8>) -> (r: Option<String>)
    ensures
        r is Some <==> valid_utf8(bytes@),
        r matches Some(s) ==> s@ == decode_utf8(bytes@),
{
    String::from_utf8(bytes).ok()
}

// --- Tokens --------------------------------------------------------------------

/// What opening `token` under `key` gives: decode the trimmed base64, split
/// off the 12-byte nonce, authenticate and decrypt the rest, and read the
/// plaintext as UTF-8.
pub open spec fn opened_token(key: Seq<u8>, token: Seq<char>) -> Option<Seq<char>> {
    match base64_bytes(trim(token)) {
        None => None,
        Some(blob) => if blob.len() < 12 {
            None
        } else {
            match aead_open(key, blob.take(12), blob.skip(12)) {
                None => None,
                Some(p) => if valid_utf8(p) {
                    Some(decode_utf8(p))
                } else {
                    None
                },
            }
        },
    }
}

/// The token that sealing `plain` under `key` with `nonce` produces.
pub open spec fn sealed_token(key: Seq<u8>, nonce: Seq<u8>, plain: Seq<char>) -> Seq<char> {
    base64_text(nonce + aead_seal(key, nonce, encode_utf8(plain)))
}

/// The development key used when no instance key is configured:
/// the ASCII bytes of `web-slicer-dev-instance-key-0001`.
pub open spec fn dev_key() -> Seq<u8> {
    seq![
        119u8, 101u8, 98u8, 45u8, 115u8, 108u8, 105u8, 99u8, 101u8, 114u8, 45u8, 100u8, 101u8,
        118u8, 45u8, 105u8, 110u8, 115u8, 116u8, 97u8, 110u8, 99u8, 101u8, 45u8, 107u8, 101u8,
        121u8, 45u8, 48u8, 48u8, 48u8, 49u8,
    ]
}

/// The instance key chosen from the configured setting: the 32 bytes that
/// the trimmed setting decodes to as base64, else the development key.
pub open spec fn setting_key(setting: Option<Seq<char>>) -> Seq<u8> {
    match setting {
        None => dev_key(),
        Some(s) => match base64_bytes(trim(s)) {
            Some(b) => if b.len() == 32 {
                b
            } else {
                dev_key()
            },
            None => dev_key(),
        },
    }
}

/// Symmetric vault for instance secrets.
#[derive(Clone)]
pub struct SecretBox {
    key: [u8; 32],
}

fn dev_key_array() -> (r: [u8; 32])
    ensures
        r@ == dev_key(),
{
    let r: [u8; 32] = [
        119u8, 101u8, 98u8, 45u8, 115u8, 108u8, 105u8, 99u8, 101u8, 114u8, 45u8, 100u8, 101u8,
        118u8, 45u8, 105u8, 110u8, 115u8, 116u8, 97u8, 110u8, 99u8, 101u8, 45u8, 107u8, 101u8,
        121u8, 45u8, 48u8, 48u8, 48u8, 49u8,
    ];
    assert(r@ =~= dev_key());
    r
}

impl SecretBox {
    /// The instance key.
    pub closed spec fn key_bytes(&self) -> Seq<u8> {
        self.key@
    }

    /// A vault over a 32-byte key.
    pub fn new(key: [u8; 32]) -> (r: Self)
        ensures
            r.key_bytes() == key@,
    {
        SecretBox { key }
    }

    /// A vault over the configured instance key (base64 of 32 bytes, read
    /// by the caller from the environment); a missing or malformed setting
    /// falls back to the development key.
    pub fn from_setting(setting: Option<&str>) -> (r: Self)
        ensures
            r.key_bytes() == setting_key(
                match setting {
                    Some(s) => Some(s@),
                    None => None,
                },
            ),
    {
        match setting {
            None => SecretBox { key: dev_key_array() },
            Some(s) => {
                let sv = chars_of(s);
                let st = trimmed(&sv);
                let text = string_of(&st);
                match b64_decode(text.as_str()) {
                    Some(b) => {
                        if b.len() == 32 {
                            let mut key = [0u8; 32];
                            let mut i: usize = 0;
                            while i < 32
                                invariant
                                    b.len() == 32,
                                    i <= 32,
                                    forall|j: int| 0 <= j < i ==> key@[j] == b@[j],
                                decreases 32 - i,
                            {
                                key[i] = b[i];
                                i = i + 1;
                            }
                            assert(key@ =~= b@);
                            SecretBox { key }
                        } else {
                            SecretBox { key: dev_key_array() }
                        }
                    },
                    None => SecretBox { key: dev_key_array() },
                }
            },
        }
    }

    /// Seals a secret: `base64(nonce ‖ ciphertext+tag)` with a fresh random
    /// nonce. Whatever nonce was drawn, opening the token under the same key
    /// gives the secret back, and the token decodes to 12 + n + 16 bytes for
    /// an n-byte secret.
    pub fn encrypt(&self, plaintext: &str) -> (r: String)
        requires
            plaintext.spec_bytes().len() / 64 < 0xffff_ffff,
        ensures
            exists|n: Seq<u8>|
                n.len() == 12 && r@ == #[trigger] sealed_token(self.key_bytes(), n, plaintext@),
            opened_token(self.key_bytes(), r@) == Some(plaintext@),
            base64_bytes(r@) matches Some(b) && b.len() == 12 + plaintext.spec_bytes().len() + 16,
    {
        let nonce = fresh_nonce();
        let bytes = plaintext.as_bytes();
        let sealed = seal(&self.key, &nonce, bytes);
        let mut blob: Vec<u8> = Vec::new();
        let mut i: usize = 0;
        while i < 12
            invariant
                i <= 12,
                blob@ == nonce@.take(i as int),
            decreases 12 - i,
        {
            blob.push(nonce[i]);
            i = i + 1;
            assert(blob@ =~= nonce@.take(i as int));
        }
        let mut j: usize = 0;
        while j < sealed.len()
            invariant
                j <= sealed.len(),
                blob@ == nonce@ + sealed@.take(j as int),
            decreases sealed.len() - j,
        {
            blob.push(sealed[j]);
            j = j + 1;
            assert(blob@ =~= nonce@ + sealed@.take(j as int));
        }
        assert(blob@ =~= nonce@ + sealed@) by {
            assert(nonce@.take(12) =~= nonce@);
            assert(sealed@.take(sealed@.len() as int) =~= sealed@);
        }
        let token = b64_encode(blob.as_slice());
        proof {
            broadcast use vstd::utf8::encode_utf8_valid_utf8, vstd::utf8::encode_utf8_decode_utf8;

            assert forall|k: int| 0 <= k < token@.len() implies !is_ws(#[trigger] token@[k]) by {
                assert(is_base64_char(token@[k]));
            }
            lemma_trim_no_ws(token@);
            assert(blob@.take(12) =~= nonce@);
            assert(blob@.skip(12) =~= sealed@);
            assert(token@ == sealed_token(self.key_bytes(), nonce@, plaintext@));
        }
        token
    }

    /// Opens a token made by [`SecretBox::encrypt`]: `None` when the
    /// base64, the length, the authentication or the UTF-8 fails.
    pub fn decrypt(&self, token: &str) -> (r: Option<String>)
        ensures
            match r {
                Some(s) => opened_token(self.key_bytes(), token@) == Some(s@),
                None => opened_token(self.key_bytes(), token@) is None,
            },
    {
        let tv = chars_of(token);
        let tt = trimmed(&tv);
        let text = string_of(&tt);
        let blob = match b64_decode(text.as_str()) {
            None => return None,
            Some(b) => b,
        };
        if blob.len() < NONCE_LEN {
            return None;
        }
        let mut nonce = [0u8; 12];
        let mut i: usize = 0;
        while i < 12
            invariant
                12 <= blob.len(),
                i <= 12,
                forall|k: int| 0 <= k < i ==> nonce@[k] == blob@[k],
            decreases 12 - i,
        {
            nonce[i] = blob[i];
            i = i + 1;
        }
        assert(nonce@ =~= blob@.take(12));
        let mut rest: Vec<u8> = Vec::new();
        let mut j: usize = 12;
        while j < blob.len()
            invariant
                12 <= j <= blob.len(),
                rest@ == blob@.subrange(12, j as int),
            decreases blob.len() - j,
        {
            rest.push(blob[j]);
            j = j + 1;
            assert(rest@ =~= blob@.subrange(12, j as int));
        }
        assert(rest@ =~= blob@.skip(12));
        let plain = match open(&self.key, &nonce, rest.as_slice()) {
            None => return None,
            Some(p) => p,
        };
        utf8_string(plain)
    }
}

} // verus!
