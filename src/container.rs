//! The container's byte layout:
//! `[version: u8][cipher: u8][salt: 16][nonce: 12][ciphertext length: u32, big-endian][ciphertext][tag: 16]`.
use vstd::prelude::*;

use crate::cipher::{cipher_id, cipher_of_id, Cipher};
use crate::error::SecurityError;

verus! {

/// The only format version this library writes and reads.
pub const VERSION: u8 = 1;

/// Length of the key-derivation salt.
pub const SALT_LEN: usize = 16;

/// Length of the cipher nonce.
pub const NONCE_LEN: usize = 12;

/// Length of the authentication tag.
pub const TAG_LEN: usize = 16;

/// Bytes before the ciphertext: version, cipher, salt, nonce and length.
pub const HEADER_LEN: usize = 34;

/// The smallest container: a header, an empty ciphertext and a tag.
pub const MIN_LEN: usize = 50;

/// Offset of the salt.
pub const SALT_AT: usize = 2;

/// Offset of the nonce.
pub const NONCE_AT: usize = 18;

/// Offset of the ciphertext length.
pub const LEN_AT: usize = 30;

/// A container as values: what its bytes say, field by field.
pub struct ContainerView {
    pub version: u8,
    pub cipher: Cipher,
    pub salt: Seq<u8>,
    pub nonce: Seq<u8>,
    pub ciphertext: Seq<u8>,
    pub tag: Seq<u8>,
}

/// An encrypted container, split into its fields.
pub struct Container {
    pub version: u8,
    pub cipher: Cipher,
    pub salt: Vec<u8>,
    pub nonce: Vec<u8>,
    pub ciphertext: Vec<u8>,
    pub tag: Vec<u8>,
}

impl View for Container {
    type V = ContainerView;

    open spec fn view(&self) -> ContainerView {
        ContainerView {
            version: self.version,
            cipher: self.cipher,
            salt: self.salt@,
            nonce: self.nonce@,
            ciphertext: self.ciphertext@,
            tag: self.tag@,
        }
    }
}

/// Four bytes holding `n`, most significant first.
pub open spec fn be32(n: u32) -> Seq<u8> {
    seq![(n >> 24u32) as u8, (n >> 16u32) as u8, (n >> 8u32) as u8, n as u8]
}

/// The number that four bytes hold, most significant first.
pub open spec fn read_be32(s: Seq<u8>) -> u32 {
    ((s[0] as u32) << 24u32) | ((s[1] as u32) << 16u32) | ((s[2] as u32) << 8u32) | (s[3] as u32)
}

/// Eight bytes holding `n`, most significant first.
pub open spec fn be64(n: u64) -> Seq<u8> {
    seq![
        (n >> 56u64) as u8,
        (n >> 48u64) as u8,
        (n >> 40u64) as u8,
        (n >> 32u64) as u8,
        (n >> 24u64) as u8,
        (n >> 16u64) as u8,
        (n >> 8u64) as u8,
        n as u8,
    ]
}

impl ContainerView {
    /// Fields of the sizes the format fixes, of the current version, with a
    /// ciphertext whose length fits the length field.
    pub open spec fn wf(self) -> bool {
        &&& self.version == VERSION
        &&& self.salt.len() == SALT_LEN
        &&& self.nonce.len() == NONCE_LEN
        &&& self.tag.len() == TAG_LEN
        &&& self.ciphertext.len() <= u32::MAX
    }

    /// The bytes of the container.
    pub open spec fn layout(self) -> Seq<u8> {
        seq![self.version, cipher_id(self.cipher)] + self.salt + self.nonce + be32(
            self.ciphertext.len() as u32,
        ) + self.ciphertext + self.tag
    }
}

/// What a byte sequence holds as a container, or `None` where it is not one:
/// too short, of another version, naming an unknown cipher, or of a length
/// other than the header declares.
pub open spec fn parse_container(b: Seq<u8>) -> Option<ContainerView> {
    if b.len() < MIN_LEN || b[0] != VERSION || cipher_of_id(b[1]) is None {
        None
    } else if b.len() != MIN_LEN + read_be32(b.subrange(LEN_AT as int, HEADER_LEN as int)) {
        None
    } else {
        Some(
            ContainerView {
                version: b[0],
                cipher: cipher_of_id(b[1])->0,
                salt: b.subrange(SALT_AT as int, NONCE_AT as int),
                nonce: b.subrange(NONCE_AT as int, LEN_AT as int),
                ciphertext: b.subrange(HEADER_LEN as int, b.len() - TAG_LEN),
                tag: b.subrange(b.len() - TAG_LEN, b.len() as int),
            },
        )
    }
}

/// Reading back the length field gives the length that was written.
pub proof fn lemma_be32_round_trip(n: u32)
    ensures
        read_be32(be32(n)) == n,
{
    assert(((((n >> 24u32) as u8) as u32) << 24u32) | ((((n >> 16u32) as u8) as u32) << 16u32) | (
    (((n >> 8u32) as u8) as u32) << 8u32) | ((n as u8) as u32) == n) by (bit_vector);
}

/// A well-formed container parses back from its own bytes.
pub proof fn lemma_parse_layout(c: ContainerView)
    requires
        c.wf(),
    ensures
        parse_container(c.layout()) == Some(c),
{
    let b = c.layout();
    let n = c.ciphertext.len();
    lemma_be32_round_trip(n as u32);
    assert(b.subrange(LEN_AT as int, HEADER_LEN as int) =~= be32(n as u32));
    assert(b.subrange(SALT_AT as int, NONCE_AT as int) =~= c.salt);
    assert(b.subrange(NONCE_AT as int, LEN_AT as int) =~= c.nonce);
    assert(b.subrange(HEADER_LEN as int, b.len() - TAG_LEN) =~= c.ciphertext);
    assert(b.subrange(b.len() - TAG_LEN, b.len() as int) =~= c.tag);
    assert(cipher_of_id(cipher_id(c.cipher)) == Some(c.cipher));
}

/// The bytes `b[start..end]` as a new vector.
pub(crate) fn copy_range(b: &[u8], start: usize, end: usize) -> (r: Vec<u8>)
    requires
        start <= end <= b@.len(),
    ensures
        r@ == b@.subrange(start as int, end as int),
{
    let mut r: Vec<u8> = Vec::with_capacity(end - start);
    let mut i: usize = start;
    while i < end
        invariant
            start <= i <= end <= b@.len(),
            r@ == b@.subrange(start as int, i as int),
        decreases end - i,
    {
        r.push(b[i]);
        i = i + 1;
        assert(r@ =~= b@.subrange(start as int, i as int));
    }
    r
}

/// Appends the bytes of `src` to `dst`.
fn append_bytes(dst: &mut Vec<u8>, src: &[u8])
    ensures
        final(dst)@ == old(dst)@ + src@,
{
    let mut i: usize = 0;
    while i < src.len()
        invariant
            i <= src@.len(),
            dst@ == old(dst)@ + src@.subrange(0, i as int),
        decreases src@.len() - i,
    {
        dst.push(src[i]);
        i = i + 1;
        assert(dst@ =~= old(dst)@ + src@.subrange(0, i as int));
    }
    assert(src@.subrange(0, src@.len() as int) =~= src@);
}

/// The four bytes of `n`, most significant first.
pub(crate) fn u32_to_be(n: u32) -> (r: Vec<u8>)
    ensures
        r@ == be32(n),
{
    let mut r: Vec<u8> = Vec::with_capacity(4);
    r.push((n >> 24u32) as u8);
    r.push((n >> 16u32) as u8);
    r.push((n >> 8u32) as u8);
    r.push(n as u8);
    assert(r@ =~= be32(n));
    r
}

/// The eight bytes of `n`, most significant first.
pub(crate) fn u64_to_be(n: u64) -> (r: Vec<u8>)
    ensures
        r@ == be64(n),
{
    let mut r: Vec<u8> = Vec::with_capacity(8);
    r.push((n >> 56u64) as u8);
    r.push((n >> 48u64) as u8);
    r.push((n >> 40u64) as u8);
    r.push((n >> 32u64) as u8);
    r.push((n >> 24u64) as u8);
    r.push((n >> 16u64) as u8);
    r.push((n >> 8u64) as u8);
    r.push(n as u8);
    assert(r@ =~= be64(n));
    r
}

impl Container {
    /// Serialises the container into its flat byte form.
    pub fn to_bytes(&self) -> (r: Vec<u8>)
        requires
            self@.wf(),
        ensures
            r@ == self@.layout(),
    {
        let n = self.ciphertext.len() as u32;
        let mut r: Vec<u8> = Vec::new();
        r.push(self.version);
        r.push(self.cipher.id());
        append_bytes(&mut r, self.salt.as_slice());
        append_bytes(&mut r, self.nonce.as_slice());
        let len_bytes = u32_to_be(n);
        append_bytes(&mut r, len_bytes.as_slice());
        append_bytes(&mut r, self.ciphertext.as_slice());
        append_bytes(&mut r, self.tag.as_slice());
        assert(r@ =~= self@.layout());
        r
    }

    /// Parses a container from bytes, checking its version, cipher and the
    /// agreement of its length field with its size. Nothing cryptographic
    /// happens here.
    pub fn from_bytes(bytes: &[u8]) -> (r: Result<Container, SecurityError>)
        ensures
            match r {
                Ok(c) => parse_container(bytes@) == Some(c@) && c@.wf(),
                Err(e) => parse_container(bytes@) is None && e == SecurityError::MalformedContainer,
            },
    {
        let len = bytes.len();
        if len < MIN_LEN || bytes[0] != VERSION {
            return Err(SecurityError::MalformedContainer);
        }
        let cipher = match Cipher::from_id(bytes[1]) {
            Some(c) => c,
            None => {
                return Err(SecurityError::MalformedContainer);
            },
        };
        let declared: u32 = ((bytes[30] as u32) << 24u32) | ((bytes[31] as u32) << 16u32) | ((
        bytes[32] as u32) << 8u32) | (bytes[33] as u32);
        proof {
            let f = bytes@.subrange(LEN_AT as int, HEADER_LEN as int);
            assert(f[0] == bytes@[30] && f[1] == bytes@[31] && f[2] == bytes@[32] && f[3]
                == bytes@[33]);
            assert(declared == read_be32(f));
        }
        if len - MIN_LEN != declared as usize {
            return Err(SecurityError::MalformedContainer);
        }
        let salt = copy_range(bytes, SALT_AT, NONCE_AT);
        let nonce = copy_range(bytes, NONCE_AT, LEN_AT);
        let ciphertext = copy_range(bytes, HEADER_LEN, len - TAG_LEN);
        let tag = copy_range(bytes, len - TAG_LEN, len);
        let c = Container { version: VERSION, cipher, salt, nonce, ciphertext, tag };
        assert(c@ == parse_container(bytes@)->0);
        Ok(c)
    }
}

} // verus!
