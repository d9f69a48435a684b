//! Encrypted, self-describing containers for application preference data.
//!
//! A [`SecurityManager`] binds a passphrase and a cipher choice. It turns
//! text into a container that carries everything needed to open it again
//! (format version, cipher identifier, salt, nonce, ciphertext and tag) and
//! opens such containers, telling a structurally broken container apart from
//! one that fails authentication.
pub mod cipher;
pub mod container;
pub mod engine;
pub mod error;
pub mod laws;
pub mod manager;

pub use cipher::Cipher;
pub use container::Container;
pub use error::SecurityError;
pub use manager::SecurityManager;
