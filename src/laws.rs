//! Properties that hold of every container this library writes or reads.
use vstd::prelude::*;

use crate::cipher::{cipher_id, cipher_of_id, Cipher};
use crate::container::{parse_container, read_be32, HEADER_LEN, LEN_AT, MIN_LEN, VERSION};
use crate::error::SecurityError;
use crate::manager::{decrypt_result, decrypt_text_result, sealed, SecurityManager};

verus! {

/// A container sealed from `plain` under `password` opens under the same
/// password to exactly `plain`, whatever its length, the empty payload
/// included.
pub proof fn lemma_round_trip(password: Seq<u8>, cipher: Cipher, plain: Seq<u8>, bytes: Seq<u8>)
    requires
        sealed(password, cipher, plain, bytes),
    ensures
        decrypt_result(password, bytes) == Ok::<Seq<u8>, SecurityError>(plain),
{
}

/// A container sealed from the UTF-8 encoding of `text` opens as text to
/// exactly `text`.
pub proof fn lemma_text_round_trip(
    password: Seq<u8>,
    cipher: Cipher,
    text: Seq<char>,
    bytes: Seq<u8>,
)
    requires
        sealed(password, cipher, vstd::utf8::encode_utf8(text), bytes),
    ensures
        decrypt_text_result(password, bytes) == Ok::<Seq<char>, SecurityError>(text),
{
    vstd::utf8::encode_utf8_valid_utf8(text);
    vstd::utf8::encode_utf8_decode_utf8(text);
}

/// A container keeps the cipher it was sealed with, and any handle with the
/// same passphrase opens it, whichever cipher that handle seals new
/// containers with.
pub proof fn lemma_cipher_agility(
    writer: SecurityManager,
    reader: SecurityManager,
    plain: Seq<u8>,
    bytes: Seq<u8>,
)
    requires
        sealed(writer.password_bytes(), writer.cipher_choice(), plain, bytes),
        reader.password_bytes() == writer.password_bytes(),
    ensures
        parse_container(bytes) matches Some(c) && c.cipher == writer.cipher_choice(),
        decrypt_result(reader.password_bytes(), bytes) == Ok::<Seq<u8>, SecurityError>(plain),
{
}

/// Bytes shorter than the smallest container, or naming an unknown version
/// or cipher, are rejected as malformed, before any key is derived.
pub proof fn lemma_malformed_rejected(password: Seq<u8>, bytes: Seq<u8>)
    requires
        bytes.len() < MIN_LEN || bytes[0] != VERSION || cipher_of_id(bytes[1]) is None,
    ensures
        parse_container(bytes) is None,
        decrypt_result(password, bytes) == Err::<Seq<u8>, SecurityError>(
            SecurityError::MalformedContainer,
        ),
{
}

/// Cutting any number of bytes off the end of a well-formed container leaves
/// bytes that are rejected as malformed.
pub proof fn lemma_truncation_rejected(password: Seq<u8>, bytes: Seq<u8>, n: int)
    requires
        parse_container(bytes) is Some,
        0 <= n < bytes.len(),
    ensures
        parse_container(bytes.take(n)) is None,
        decrypt_result(password, bytes.take(n)) == Err::<Seq<u8>, SecurityError>(
            SecurityError::MalformedContainer,
        ),
{
    let t = bytes.take(n);
    if n >= MIN_LEN {
        assert(t.subrange(LEN_AT as int, HEADER_LEN as int) =~= bytes.subrange(
            LEN_AT as int,
            HEADER_LEN as int,
        ));
        assert(t[0] == bytes[0] && t[1] == bytes[1]);
    }
}

/// Flipping any single bit of the version byte, the cipher byte or the
/// length field of a well-formed container leaves bytes that are rejected as
/// malformed.
pub proof fn lemma_header_bit_flip_rejected(password: Seq<u8>, bytes: Seq<u8>, i: int, bit: u8)
    requires
        parse_container(bytes) is Some,
        i == 0 || i == 1 || LEN_AT <= i < HEADER_LEN,
        bit < 8,
    ensures
        parse_container(bytes.update(i, bytes[i] ^ (1u8 << bit))) is None,
        decrypt_result(password, bytes.update(i, bytes[i] ^ (1u8 << bit))) == Err::<
            Seq<u8>,
            SecurityError,
        >(SecurityError::MalformedContainer),
{
    let v = bytes[i];
    let f = bytes.update(i, v ^ (1u8 << bit));
    assert(v ^ (1u8 << bit) != v) by (bit_vector)
        requires
            bit < 8,
    ;
    if i == 1 {
        assert((v == 1u8 || v == 2u8) ==> (v ^ (1u8 << bit) != 1u8 && v ^ (1u8 << bit) != 2u8))
            by (bit_vector)
            requires
                bit < 8,
        ;
    }
    if LEN_AT <= i < HEADER_LEN {
        let old_field = bytes.subrange(LEN_AT as int, HEADER_LEN as int);
        let new_field = f.subrange(LEN_AT as int, HEADER_LEN as int);
        assert(new_field =~= old_field.update(i - LEN_AT, v ^ (1u8 << bit)));
        let (a0, a1, a2, a3) = (old_field[0], old_field[1], old_field[2], old_field[3]);
        let w = v ^ (1u8 << bit);
        assert(read_be32(old_field) == ((a0 as u32) << 24u32) | ((a1 as u32) << 16u32) | ((
        a2 as u32) << 8u32) | (a3 as u32));
        assert(read_be32(new_field) != read_be32(old_field)) by {
            if i == LEN_AT {
                assert(w != a0 ==> ((w as u32) << 24u32) | ((a1 as u32) << 16u32) | ((a2 as u32)
                    << 8u32) | (a3 as u32) != ((a0 as u32) << 24u32) | ((a1 as u32) << 16u32) | ((
                a2 as u32) << 8u32) | (a3 as u32)) by (bit_vector);
            } else if i == LEN_AT + 1 {
                assert(w != a1 ==> ((a0 as u32) << 24u32) | ((w as u32) << 16u32) | ((a2 as u32)
                    << 8u32) | (a3 as u32) != ((a0 as u32) << 24u32) | ((a1 as u32) << 16u32) | ((
                a2 as u32) << 8u32) | (a3 as u32)) by (bit_vector);
            } else if i == LEN_AT + 2 {
                assert(w != a2 ==> ((a0 as u32) << 24u32) | ((a1 as u32) << 16u32) | ((w as u32)
                    << 8u32) | (a3 as u32) != ((a0 as u32) << 24u32) | ((a1 as u32) << 16u32) | ((
                a2 as u32) << 8u32) | (a3 as u32)) by (bit_vector);
            } else {
                assert(w != a3 ==> ((a0 as u32) << 24u32) | ((a1 as u32) << 16u32) | ((a2 as u32)
                    << 8u32) | (w as u32) != ((a0 as u32) << 24u32) | ((a1 as u32) << 16u32) | ((
                a2 as u32) << 8u32) | (a3 as u32)) by (bit_vector);
            }
        }
        assert(f[0] == bytes[0] && f[1] == bytes[1]);
    }
}

/// A sealed container has the documented layout: the current version, the
/// cipher's identifier, a length field holding the plaintext's length, and
/// a total size of the fixed overhead plus that length.
pub proof fn lemma_sealed_layout(password: Seq<u8>, cipher: Cipher, plain: Seq<u8>, bytes: Seq<u8>)
    requires
        sealed(password, cipher, plain, bytes),
    ensures
        bytes.len() == MIN_LEN + plain.len(),
        bytes[0] == VERSION,
        bytes[1] == cipher_id(cipher),
        read_be32(bytes.subrange(LEN_AT as int, HEADER_LEN as int)) == plain.len(),
{
    let c = parse_container(bytes)->0;
    assert(c.ciphertext.len() == bytes.len() - MIN_LEN);
    assert(cipher_id(cipher_of_id(bytes[1])->0) == bytes[1]);
}

} // verus!
