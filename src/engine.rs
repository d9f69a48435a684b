//! The key derivation and authenticated cipher, provided by the `cocoon` crate.
//!
//! cocoon seals a buffer in place and hands back a detached 60-byte prefix:
//! `[magic: 3][version][cipher][kdf][kdf variant][reserved][salt: 16][nonce: 12][length: u64, big-endian][tag: 16]`.
//! The first 44 bytes are authenticated as associated data, so a container
//! opens only where the prefix is rebuilt byte for byte.
use vstd::prelude::*;

use crate::cipher::{cipher_id, Cipher};
use crate::container::be64;

verus! {

#[verifier::external_type_specification]
#[verifier::external_body]
pub struct ExCocoonError(cocoon::Error);

/// Length of cocoon's detached prefix.
pub const PREFIX_LEN: usize = 60;

/// Offset of the salt inside the prefix.
pub const PREFIX_SALT_AT: usize = 8;

/// Offset of the nonce inside the prefix.
pub const PREFIX_NONCE_AT: usize = 24;

/// Offset of the payload length inside the prefix.
pub const PREFIX_LEN_AT: usize = 36;

/// Offset of the tag inside the prefix.
pub const PREFIX_TAG_AT: usize = 44;

/// The first eight bytes of a prefix that cocoon writes for `c`: its magic
/// number, format version 1, the cipher, PBKDF2, the strong iteration count
/// and a zero reserved byte.
pub open spec fn prefix_start(c: Cipher) -> Seq<u8> {
    seq![0x7fu8, 0xc0u8, 0x0au8, 1u8, cipher_id(c), 1u8, 1u8, 0u8]
}

/// What cocoon's decryption leaves in a buffer holding `data`, under
/// `password` and the detached prefix `prefix`, or `None` where it fails.
pub uninterp spec fn opened(password: Seq<u8>, prefix: Seq<u8>, data: Seq<u8>) -> Option<Seq<u8>>;

/// Relies on `cocoon::Cocoon::new`, `with_cipher` and `encrypt`: the payload
/// is encrypted in place under a key derived from the password and a fresh
/// random salt, with a fresh random nonce; the detached prefix holds the
/// header that cocoon's `CocoonHeader::serialize_into` writes (for the cipher
/// chosen and the payload's length) followed by the tag, and `Cocoon::decrypt`
/// with the same password turns the result back into the payload. It fails
/// only where the AEAD cipher refuses the payload's length, which for both
/// ciphers lies far above `u32::MAX` bytes.
#[verifier::external_body]
pub(crate) fn seal(password: &[u8], cipher: Cipher, data: Vec<u8>) -> (r: Result<
    (Vec<u8>, Vec<u8>),
    cocoon::Error,
>)
    ensures
        data@.len() <= u32::MAX ==> r is Ok,
        r matches Ok((prefix, sealed)) ==> {
            &&& prefix@.len() == PREFIX_LEN
            &&& prefix@.subrange(0, 8) == prefix_start(cipher)
            &&& prefix@.subrange(PREFIX_LEN_AT as int, PREFIX_TAG_AT as int) == be64(
                data@.len() as u64,
            )
            &&& sealed@.len() == data@.len()
            &&& opened(password@, prefix@, sealed@) == Some(data@)
        },
{
    let chosen = match cipher {
        Cipher::Chacha20Poly1305 => cocoon::CocoonCipher::Chacha20Poly1305,
        Cipher::Aes256Gcm => cocoon::CocoonCipher::Aes256Gcm,
    };
    let mut data = data;
    let mut core = cocoon::Cocoon::new(password).with_cipher(chosen);
    match core.encrypt(&mut data) {
        Ok(prefix) => Ok((prefix.to_vec(), data)),
        Err(e) => Err(e),
    }
}

/// Relies on `cocoon::Cocoon::parse_only` and `decrypt`: the buffer is
/// decrypted in place under the password, the cipher and the salt that the
/// prefix names; the result depends on the three inputs alone.
#[verifier::external_body]
pub(crate) fn open(password: &[u8], prefix: &[u8], data: Vec<u8>) -> (r: Result<
    Vec<u8>,
    cocoon::Error,
>)
    ensures
        match r {
            Ok(plain) => opened(password@, prefix@, data@) == Some(plain@),
            Err(_) => opened(password@, prefix@, data@) is None,
        },
{
    let mut data = data;
    match cocoon::Cocoon::parse_only(password).decrypt(&mut data, prefix) {
        Ok(()) => Ok(data),
        Err(e) => Err(e),
    }
}

/// Relies on `String::from_utf8`: it succeeds exactly on valid UTF-8 and then
/// holds the characters those bytes encode.
#[verifier::external_body]
pub(crate) fn text_from_bytes(bytes: Vec<u8>) -> (r: Option<String>)
    ensures
        match r {
            Some(s) => vstd::utf8::valid_utf8(bytes@) && s@ == vstd::utf8::decode_utf8(bytes@),
            None => !vstd::utf8::valid_utf8(bytes@),
        },
{
    match String::from_utf8(bytes) {
        Ok(s) => Some(s),
        Err(_) => None,
    }
}

} // verus!
