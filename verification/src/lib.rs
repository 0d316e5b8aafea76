//! An encrypted storage directory for a full-text search index.
//!
//! Content files written through the directory are transparently encrypted
//! with AES-256-CTR and authenticated with HMAC-SHA256; the working keys are
//! expanded from a master key that rests, itself encrypted under a
//! passphrase-derived key, in a small versioned key file.

mod codec;
mod ct;
mod encrypteddir;
mod error;
mod keyfile;
mod prims;

pub use encrypteddir::{AesFile, EncryptedMmapDirectory};
pub use error::Error;
