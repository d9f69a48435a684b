use vstd::prelude::*;

verus! {

/// The authenticated ciphers a container can be sealed with.
#[derive(Clone, Copy, Debug, PartialEq, Eq, Structural)]
pub enum Cipher {
    /// ChaCha20-Poly1305.
    Chacha20Poly1305,
    /// AES-256 in Galois/Counter Mode.
    Aes256Gcm,
}

/// The cipher used when a handle is created without an explicit choice.
pub open spec fn default_cipher() -> Cipher {
    Cipher::Chacha20Poly1305
}

/// The byte that identifies a cipher inside a container.
pub open spec fn cipher_id(c: Cipher) -> u8 {
    match c {
        Cipher::Chacha20Poly1305 => 1,
        Cipher::Aes256Gcm => 2,
    }
}

/// The cipher that an identifier byte names, if any.
pub open spec fn cipher_of_id(b: u8) -> Option<Cipher> {
    if b == 1 {
        Some(Cipher::Chacha20Poly1305)
    } else if b == 2 {
        Some(Cipher::Aes256Gcm)
    } else {
        None
    }
}

impl Cipher {
    /// The identifier byte of this cipher.
    pub fn id(&self) -> (r: u8)
        ensures
            r == cipher_id(*self),
    {
        match self {
            Cipher::Chacha20Poly1305 => 1,
            Cipher::Aes256Gcm => 2,
        }
    }

    /// The cipher named by an identifier byte, or `None` for an unknown one.
    pub fn from_id(b: u8) -> (r: Option<Cipher>)
        ensures
            r == cipher_of_id(b),
            r matches Some(c) ==> cipher_id(c) == b,
    {
        if b == 1 {
            Some(Cipher::Chacha20Poly1305)
        } else if b == 2 {
            Some(Cipher::Aes256Gcm)
        } else {
            None
        }
    }
}

} // verus!
