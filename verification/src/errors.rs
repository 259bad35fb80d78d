//! Error kinds surfaced while producing an embedded signature.

use vstd::prelude::*;

verus! {

/// Everything that can go wrong while parsing, rewriting or signing a
/// Mach-O image.
#[derive(Debug, Clone, PartialEq, Eq)]
pub enum SigningError {
    /// The input is not a recognizable Mach-O or universal binary.
    ParseError,
    /// The image has no `__LINKEDIT` segment, so there is nowhere to
    /// place a signature.
    MissingLinkedit,
    /// The image's layout is one this signer cannot rewrite, for
    /// example an existing signature that is not at the end of
    /// `__LINKEDIT`.
    UnsupportedBinary,
    /// The settings omit the mandatory binary identifier.
    NoIdentifier,
    /// The rewriter detected cursor or segment corruption.
    MachOWrite(String),
    /// The real signature exceeds the reserved room.
    SignatureDataTooLarge,
    /// The CMS signing oracle failed.
    Cms(String),
}

} // verus!
