//! The error taxonomy of the encrypted directory.

use vstd::prelude::*;

verus! {

/// Everything that can go wrong while opening, reading or rewriting the
/// encrypted directory.
#[derive(Clone, Copy, Debug, PartialEq, Eq, Structural)]
pub enum Error {
    /// An underlying file-system failure, surfaced verbatim by the caller
    /// that performed the I/O (the library itself performs none).
    Io,
    /// A zero-length passphrase was handed to `open` or `change_passphrase`.
    EmptyPassphrase,
    /// The key-file MAC did not match, or decrypting the master key produced
    /// output of the wrong length.
    WrongPassphrase,
    /// The key file is too short or carries an unknown version byte.
    CorruptKeyFile,
    /// A content file failed its authentication tag check, or is too short
    /// to carry one.
    AuthenticationFailed,
    /// The operating-system random number generator refused to provide bytes.
    RandomnessUnavailable,
    /// `change_passphrase` was asked to rewrite a key file that does not
    /// exist.
    KeyFileMissing,
}

} // verus!
