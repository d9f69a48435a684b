use vstd::prelude::*;

use crate::cipher::{default_cipher, Cipher};
use crate::container::{
    be64, copy_range, parse_container, u64_to_be, Container, ContainerView, TAG_LEN, VERSION,
};
use crate::engine::{
    open, opened, prefix_start, seal, text_from_bytes, PREFIX_LEN_AT, PREFIX_NONCE_AT,
    PREFIX_SALT_AT, PREFIX_TAG_AT,
};
use crate::error::SecurityError;

verus! {

/// The detached prefix that cocoon authenticates for a container: its own
/// header rebuilt from the container's cipher, salt, nonce and ciphertext
/// length, followed by the tag.
pub open spec fn cocoon_prefix(c: ContainerView) -> Seq<u8> {
    prefix_start(c.cipher) + c.salt + c.nonce + be64(c.ciphertext.len() as u64) + c.tag
}

/// What a container opens to under a passphrase: the plaintext, or the error
/// that decryption reports. A structurally broken container is reported as
/// such before any key is derived; every cryptographic failure is reported
/// as the same authentication failure.
pub open spec fn decrypt_result(password: Seq<u8>, bytes: Seq<u8>) -> Result<
    Seq<u8>,
    SecurityError,
> {
    match parse_container(bytes) {
        None => Err(SecurityError::MalformedContainer),
        Some(c) => match opened(password, cocoon_prefix(c), c.ciphertext) {
            Some(p) => Ok(p),
            None => Err(SecurityError::AuthenticationFailure),
        },
    }
}

/// What a container opens to as text.
pub open spec fn decrypt_text_result(password: Seq<u8>, bytes: Seq<u8>) -> Result<
    Seq<char>,
    SecurityError,
> {
    match decrypt_result(password, bytes) {
        Ok(p) => if vstd::utf8::valid_utf8(p) {
            Ok(vstd::utf8::decode_utf8(p))
        } else {
            Err(SecurityError::InvalidText)
        },
        Err(e) => Err(e),
    }
}

/// `bytes` is a well-formed container tagged with `cipher`, whose ciphertext
/// is as long as `plain`, and that opens under `password` to `plain`.
pub open spec fn sealed(password: Seq<u8>, cipher: Cipher, plain: Seq<u8>, bytes: Seq<u8>) -> bool {
    match parse_container(bytes) {
        Some(c) => c.cipher == cipher && c.ciphertext.len() == plain.len() && opened(
            password,
            cocoon_prefix(c),
            c.ciphertext,
        ) == Some(plain),
        None => false,
    }
}

/// A reusable handle that binds a passphrase and the cipher used for new
/// containers. It is never changed after construction.
pub struct SecurityManager {
    password: Vec<u8>,
    cipher: Cipher,
}

/// Builds cocoon's detached prefix for a container.
fn build_prefix(c: &Container) -> (r: Vec<u8>)
    requires
        c@.wf(),
    ensures
        r@ == cocoon_prefix(c@),
{
    let mut r: Vec<u8> = Vec::with_capacity(60);
    r.push(0x7fu8);
    r.push(0xc0u8);
    r.push(0x0au8);
    r.push(1u8);
    r.push(c.cipher.id());
    r.push(1u8);
    r.push(1u8);
    r.push(0u8);
    let mut i: usize = 0;
    while i < c.salt.len()
        invariant
            i <= c.salt@.len(),
            r@ == prefix_start(c.cipher) + c.salt@.subrange(0, i as int),
        decreases c.salt@.len() - i,
    {
        r.push(c.salt[i]);
        i = i + 1;
        assert(r@ =~= prefix_start(c.cipher) + c.salt@.subrange(0, i as int));
    }
    assert(c.salt@.subrange(0, i as int) =~= c.salt@);
    let mut i: usize = 0;
    while i < c.nonce.len()
        invariant
            i <= c.nonce@.len(),
            r@ == prefix_start(c.cipher) + c.salt@ + c.nonce@.subrange(0, i as int),
        decreases c.nonce@.len() - i,
    {
        r.push(c.nonce[i]);
        i = i + 1;
        assert(r@ =~= prefix_start(c.cipher) + c.salt@ + c.nonce@.subrange(0, i as int));
    }
    assert(c.nonce@.subrange(0, i as int) =~= c.nonce@);
    let len_bytes = u64_to_be(c.ciphertext.len() as u64);
    let mut i: usize = 0;
    while i < 8
        invariant
            i <= 8,
            len_bytes@.len() == 8,
            r@ == prefix_start(c.cipher) + c.salt@ + c.nonce@ + len_bytes@.subrange(0, i as int),
        decreases 8 - i,
    {
        r.push(len_bytes[i]);
        i = i + 1;
        assert(r@ =~= prefix_start(c.cipher) + c.salt@ + c.nonce@ + len_bytes@.subrange(
            0,
            i as int,
        ));
    }
    assert(len_bytes@.subrange(0, 8) =~= len_bytes@);
    let mut i: usize = 0;
    while i < c.tag.len()
        invariant
            i <= c.tag@.len(),
            len_bytes@ == be64(c.ciphertext@.len() as u64),
            r@ == prefix_start(c.cipher) + c.salt@ + c.nonce@ + len_bytes@ + c.tag@.subrange(
                0,
                i as int,
            ),
        decreases c.tag@.len() - i,
    {
        r.push(c.tag[i]);
        i = i + 1;
        assert(r@ =~= prefix_start(c.cipher) + c.salt@ + c.nonce@ + len_bytes@
            + c.tag@.subrange(0, i as int));
    }
    assert(c.tag@.subrange(0, i as int) =~= c.tag@);
    r
}

impl SecurityManager {
    /// The passphrase's bytes.
    pub closed spec fn password_bytes(&self) -> Seq<u8> {
        self.password@
    }

    /// The cipher that new containers are sealed with.
    pub closed spec fn cipher_choice(&self) -> Cipher {
        self.cipher
    }

    /// Creates a handle for `password`, sealing new containers with `cipher`
    /// or, where none is given, with ChaCha20-Poly1305.
    pub fn new(password: &str, cipher: Option<Cipher>) -> (r: SecurityManager)
        ensures
            r.password_bytes() == vstd::utf8::encode_utf8(password@),
            r.cipher_choice() == match cipher {
                Some(c) => c,
                None => default_cipher(),
            },
    {
        let bytes = password.as_bytes();
        let password = copy_range(bytes, 0, bytes.len());
        assert(bytes@.subrange(0, bytes@.len() as int) =~= bytes@);
        let cipher = match cipher {
            Some(c) => c,
            None => Cipher::Chacha20Poly1305,
        };
        SecurityManager { password, cipher }
    }

    /// The cipher that new containers are sealed with.
    pub fn cipher(&self) -> (r: Cipher)
        ensures
            r == self.cipher_choice(),
    {
        self.cipher
    }

    /// Seals `value` into a fresh container under this handle's passphrase
    /// and cipher, with a fresh random salt and nonce. It always succeeds on
    /// payloads that fit the container's length field.
    pub fn encrypt(&self, value: &[u8]) -> (r: Result<Vec<u8>, SecurityError>)
        requires
            value@.len() <= u32::MAX,
        ensures
            r is Ok,
            r matches Ok(bytes) ==> sealed(
                self.password_bytes(),
                self.cipher_choice(),
                value@,
                bytes@,
            ),
    {
        let data = copy_range(value, 0, value.len());
        assert(value@.subrange(0, value@.len() as int) =~= value@);
        let (prefix, ciphertext) = match seal(self.password.as_slice(), self.cipher, data) {
            Ok(parts) => parts,
            Err(_) => {
                return Err(SecurityError::EncryptionFailure);
            },
        };
        let salt = copy_range(prefix.as_slice(), PREFIX_SALT_AT, PREFIX_NONCE_AT);
        let nonce = copy_range(prefix.as_slice(), PREFIX_NONCE_AT, PREFIX_LEN_AT);
        let tag = copy_range(prefix.as_slice(), PREFIX_TAG_AT, PREFIX_TAG_AT + TAG_LEN);
        let c = Container { version: VERSION, cipher: self.cipher, salt, nonce, ciphertext, tag };
        proof {
            assert(prefix@.subrange(PREFIX_LEN_AT as int, PREFIX_TAG_AT as int) == be64(
                value@.len() as u64,
            ));
            assert(cocoon_prefix(c@) =~= prefix@) by {
                assert(prefix@ =~= prefix@.subrange(0, 8) + prefix@.subrange(8, 24)
                    + prefix@.subrange(24, 36) + prefix@.subrange(36, 44) + prefix@.subrange(
                    44,
                    60,
                ));
            }
            crate::container::lemma_parse_layout(c@);
        }
        let bytes = c.to_bytes();
        Ok(bytes)
    }

    /// Opens a container under this handle's passphrase. The container's own
    /// cipher identifier decides how it is opened, not this handle's cipher.
    pub fn decrypt(&self, value: &[u8]) -> (r: Result<Vec<u8>, SecurityError>)
        ensures
            match r {
                Ok(p) => decrypt_result(self.password_bytes(), value@) == Ok::<
                    Seq<u8>,
                    SecurityError,
                >(p@),
                Err(e) => decrypt_result(self.password_bytes(), value@) == Err::<
                    Seq<u8>,
                    SecurityError,
                >(e),
            },
    {
        let c = match Container::from_bytes(value) {
            Ok(c) => c,
            Err(e) => {
                return Err(e);
            },
        };
        let prefix = build_prefix(&c);
        let Container { ciphertext, .. } = c;
        match open(self.password.as_slice(), prefix.as_slice(), ciphertext) {
            Ok(plain) => Ok(plain),
            Err(_) => Err(SecurityError::AuthenticationFailure),
        }
    }

    /// Seals the UTF-8 bytes of `value` into a fresh container. It always
    /// succeeds on text that fits the container's length field.
    pub fn encrypt_str(&self, value: &str) -> (r: Result<Vec<u8>, SecurityError>)
        requires
            vstd::utf8::encode_utf8(value@).len() <= u32::MAX,
        ensures
            r is Ok,
            r matches Ok(bytes) ==> sealed(
                self.password_bytes(),
                self.cipher_choice(),
                vstd::utf8::encode_utf8(value@),
                bytes@,
            ),
    {
        self.encrypt(value.as_bytes())
    }

    /// Opens a container and reads its plaintext as UTF-8 text.
    pub fn dencrypt_str(&self, value: &[u8]) -> (r: Result<String, SecurityError>)
        ensures
            match r {
                Ok(s) => decrypt_text_result(self.password_bytes(), value@) == Ok::<
                    Seq<char>,
                    SecurityError,
                >(s@),
                Err(e) => decrypt_text_result(self.password_bytes(), value@) == Err::<
                    Seq<char>,
                    SecurityError,
                >(e),
            },
    {
        let plain = match self.decrypt(value) {
            Ok(p) => p,
            Err(e) => {
                return Err(e);
            },
        };
        match text_from_bytes(plain) {
            Some(s) => Ok(s),
            None => Err(SecurityError::InvalidText),
        }
    }
}

} // verus!
