//! Sparse binary patches between two files of equal length.
//!
//! A patch set names a file, carries the SHA-256 fingerprint of the content it
//! was made from, and lists every offset at which the new content differs,
//! each with the new byte written as two hexadecimal digits. Applying a patch
//! set first checks the fingerprint of the target, then writes the bytes one
//! by one.
//!
//! [`generate_patch`] makes a patch set from two contents and [`apply_patch`]
//! applies one to a content in memory. [`Applier`] takes the same decisions for
//! a target that its caller reads and writes: it is told what happened to the
//! file and says what to do next. Reading and writing the patch file itself is
//! left to the caller.

pub mod apply;
pub mod checksum;
pub mod diff;
pub mod encoding;
pub mod naming;
pub mod patch;
pub mod round_trip;

pub use apply::{apply_patch, Applier, ApplyAction, ApplyEvent, ApplyState};
pub use checksum::compute_checksum;
pub use diff::{diff, generate_patch};
pub use naming::{json_name_for, replace_extension_with_json};
pub use patch::{create_patch_file, Patch, PatchError, PatchFile};
