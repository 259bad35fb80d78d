//! Embedded code-signature production for Mach-O binaries.
//!
//! The crate parses a thin or universal Mach-O image, assembles the
//! SuperBlob holding one or more Code Directories together with the
//! auxiliary blobs, rewrites the load commands and the `__LINKEDIT`
//! segment so that the signature occupies a 16-byte aligned reservation
//! at the end of the file, and frames multiple architecture slices into
//! a universal binary.

pub mod bytes;
pub mod digest;
pub mod blobs;
pub mod bundle_api;
pub mod code_directory;
pub mod entitlements;
pub mod errors;
pub mod laws;
pub mod macho;
pub mod rewrite;
pub mod settings;
pub mod signing;
pub mod superblob;
pub mod universal;

use vstd::prelude::*;

verus! {

/// Round `n` up to the next multiple of `align` (`align > 0`).
pub open spec fn round_up(n: int, align: int) -> int {
    if n % align == 0 {
        n
    } else {
        n + align - n % align
    }
}

} // verus!
