//! Password-based authenticated symmetric encryption.
//!
//! The crate derives key material from a password (PBKDF2-HMAC-SHA256 with
//! configurable iteration counts), seals and opens byte buffers with
//! AES-256 in cipher-block-chaining mode under PKCS padding, and prefixes
//! every ciphertext with a keyed digest so that the owning key can be
//! recognised before decryption is attempted.

use vstd::prelude::*;

pub mod cipher;
pub mod codec;
pub mod config;
pub mod kdf;
pub mod key;

pub use cipher::CipherError;
pub use codec::b64decode;
pub use codec::b64encode;
pub use config::Config;
pub use config::CyclesConfig;
pub use kdf::generate_iv;
pub use kdf::generate_key;
pub use kdf::hmac_256_digest;
pub use key::bytes_match;
pub use key::DecryptError;
pub use key::Key;

verus! {

/// Width in bytes of the keyed digest that prefixes every envelope.
pub const DIGEST_SIZE: usize = 32;

/// Width in bytes of the derived key-material buffer.
pub const KEY_SIZE: usize = 128;

/// Width in bytes of the initialization vector.
pub const IV_SIZE: usize = 16;

/// Width in bytes of one cipher block.
pub const BLOCK_SIZE: usize = 16;

} // verus!
