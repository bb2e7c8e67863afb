//! Sealing and opening of byte buffers under a key that is derived from a
//! text.
//!
//! The cipher itself is the `magic_crypt` crate's 256-bit one: AES in CBC
//! mode with PKCS#7 padding, the key being a hash of the key text. What it
//! computes is not spelled out here. Two names stand for it, and the two
//! trusted functions at the end of this file say what is taken on trust.
//!
//! The cipher does not authenticate: under a wrong key the padding check
//! fails for most ciphertexts, not for all. So nothing here promises that
//! opening under another key fails; what is promised is that opening never
//! hands out bytes that the cipher did not accept as a whole.

use vstd::prelude::*;
use magic_crypt::MagicCrypt256;
use magic_crypt::MagicCryptError;
use magic_crypt::MagicCryptTrait;

verus! {

/// Why a byte buffer could not be opened.
#[derive(Clone, Copy, Debug, PartialEq, Eq, Structural)]
pub enum CryptoError {
    /// The cipher rejected the buffer under the given key.
    AuthenticationFailed,
    /// The buffer is empty or not a whole number of cipher blocks.
    Malformed,
}

/// The size of a cipher block in bytes.
pub const BLOCK_BYTES: usize = 16;

/// The ciphertext of `plain` under the key text `key`.
pub uninterp spec fn sealed_bytes(plain: Seq<u8>, key: Seq<char>) -> Seq<u8>;

/// What the cipher makes of `sealed` under the key text `key`: the plaintext,
/// or nothing where it rejects the buffer.
pub uninterp spec fn opened_bytes(sealed: Seq<u8>, key: Seq<char>) -> Option<Seq<u8>>;

/// The length of the ciphertext of a plaintext of `len` bytes: padding fills
/// the last block, and adds a whole block where there is nothing to fill.
pub open spec fn sealed_len(len: nat) -> nat {
    (len / (BLOCK_BYTES as nat) + 1) * (BLOCK_BYTES as nat)
}

/// Whether a buffer of `len` bytes is a positive whole number of blocks.
pub open spec fn whole_blocks(len: nat) -> bool {
    len > 0 && len % (BLOCK_BYTES as nat) == 0
}

/// What `open` returns for a buffer of `len` bytes to which the cipher
/// answered `raw`: a buffer that is not a whole number of blocks is malformed
/// whatever the cipher said, a rejected one failed authentication, and an
/// accepted one gives its plaintext.
pub open spec fn judged(len: nat, raw: Option<Seq<u8>>) -> Result<Seq<u8>, CryptoError> {
    if !whole_blocks(len) {
        Err(CryptoError::Malformed)
    } else {
        match raw {
            Some(plain) => Ok(plain),
            None => Err(CryptoError::AuthenticationFailed),
        }
    }
}

/// What `open` makes of `sealed` under `key`.
pub open spec fn open_result(sealed: Seq<u8>, key: Seq<char>) -> Result<Seq<u8>, CryptoError> {
    judged(sealed.len(), opened_bytes(sealed, key))
}

/// The view of an answer of the cipher.
pub open spec fn raw_view(raw: Option<Vec<u8>>) -> Option<Seq<u8>> {
    match raw {
        Some(plain) => Some(plain@),
        None => None,
    }
}

/// Seals `plaintext` under `key_material`. The same two arguments always
/// give the same bytes, and `open` under the same key gives the plaintext
/// back.
pub fn seal(plaintext: &[u8], key_material: &str) -> (sealed: Vec<u8>)
    ensures
        sealed@ == sealed_bytes(plaintext@, key_material@),
        sealed@.len() == sealed_len(plaintext@.len()),
        open_result(sealed@, key_material@) == Ok::<Seq<u8>, CryptoError>(plaintext@),
{
    aes_encrypt(plaintext, key_material)
}

/// Decides what `open` returns for a buffer of `len` bytes to which the
/// cipher answered `raw`. Where it returns a plaintext, that is the very
/// buffer the cipher gave.
pub fn judge(len: usize, raw: Option<Vec<u8>>) -> (r: Result<Vec<u8>, CryptoError>)
    ensures
        match r {
            Ok(plain) => judged(len as nat, raw_view(raw)) == Ok::<Seq<u8>, CryptoError>(plain@)
                && raw == Some(plain),
            Err(e) => judged(len as nat, raw_view(raw)) == Err::<Seq<u8>, CryptoError>(e),
        },
{
    if len == 0 || len % BLOCK_BYTES != 0 {
        Err(CryptoError::Malformed)
    } else {
        match raw {
            Some(plain) => Ok(plain),
            None => Err(CryptoError::AuthenticationFailed),
        }
    }
}

/// Opens `ciphertext` under `key_material`. It returns either the whole
/// plaintext or an error, never a part of it.
pub fn open(ciphertext: &[u8], key_material: &str) -> (r: Result<Vec<u8>, CryptoError>)
    ensures
        match r {
            Ok(plain) => open_result(ciphertext@, key_material@) == Ok::<Seq<u8>, CryptoError>(
                plain@,
            ),
            Err(e) => open_result(ciphertext@, key_material@) == Err::<Seq<u8>, CryptoError>(e),
        },
{
    let raw = match aes_decrypt(ciphertext, key_material) {
        Ok(plain) => Some(plain),
        Err(_) => None,
    };
    judge(ciphertext.len(), raw)
}

/// `magic_crypt::MagicCryptError`, the error of the cipher. Nothing is read
/// from it.
#[verifier::external_type_specification]
#[verifier::external_body]
pub struct ExMagicCryptError(MagicCryptError);

/// `MagicCrypt256::new` with no initialisation vector, then
/// `encrypt_to_bytes`. Taken on trust: the result depends on the two
/// arguments alone; PKCS#7 pads the plaintext to the next whole number of
/// 16-byte blocks, a full block where it is one already; and decrypting the
/// result under the same key text gives the plaintext back.
#[verifier::external_body]
fn aes_encrypt(plain: &[u8], key: &str) -> (out: Vec<u8>)
    ensures
        out@ == sealed_bytes(plain@, key@),
        out@.len() == sealed_len(plain@.len()),
        opened_bytes(out@, key@) == Some(plain@),
{
    MagicCrypt256::new(key, None::<&[u8]>).encrypt_to_bytes(plain)
}

/// `MagicCrypt256::new` with no initialisation vector, then
/// `decrypt_bytes_to_bytes`. Taken on trust: whether the cipher accepts the
/// buffer, and the plaintext it gives, depend on the two arguments alone.
#[verifier::external_body]
fn aes_decrypt(sealed: &[u8], key: &str) -> (r: Result<Vec<u8>, MagicCryptError>)
    ensures
        match r {
            Ok(plain) => opened_bytes(sealed@, key@) == Some(plain@),
            Err(_) => opened_bytes(sealed@, key@) is None,
        },
{
    MagicCrypt256::new(key, None::<&[u8]>).decrypt_bytes_to_bytes(sealed)
}

} // verus!
