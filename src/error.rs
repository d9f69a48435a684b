use vstd::prelude::*;

verus! {

/// The ways in which encrypting or decrypting a container can fail.
#[derive(Clone, Copy, Debug, PartialEq, Eq, Structural)]
pub enum SecurityError {
    /// The bytes are not a container of a known version and cipher, or
    /// their lengths do not agree with what the header declares.
    MalformedContainer,
    /// The container is well formed but does not open under the passphrase:
    /// the passphrase is wrong or the ciphertext or tag were altered.
    AuthenticationFailure,
    /// The cipher refused to seal the payload. Sealing a payload that fits
    /// the container's length field never gives this.
    EncryptionFailure,
    /// The container opened, but its plaintext is not UTF-8 text.
    InvalidText,
}

impl SecurityError {
    /// A short human-readable description of the error.
    pub fn message(&self) -> (r: &'static str)
        ensures
            *self == SecurityError::MalformedContainer ==> r@ == "malformed container"@,
            *self == SecurityError::AuthenticationFailure ==> r@ == "authentication failure"@,
            *self == SecurityError::EncryptionFailure ==> r@ == "encryption failure"@,
            *self == SecurityError::InvalidText ==> r@ == "decrypted data is not valid text"@,
    {
        match self {
            SecurityError::MalformedContainer => "malformed container",
            SecurityError::AuthenticationFailure => "authentication failure",
            SecurityError::EncryptionFailure => "encryption failure",
            SecurityError::InvalidText => "decrypted data is not valid text",
        }
    }
}

} // verus!
