//! The data of a patch set, and the errors that making or applying one can
//! end in.

use crate::encoding::{hex_bytes, hex_decode, is_hex_text};
use vstd::prelude::*;

verus! {

/// Why a patch set could not be made or applied.
#[derive(Debug, Clone, Copy, PartialEq, Eq)]
pub enum PatchError {
    /// The original and the modified content differ in length.
    SizeMismatch,
    /// The target's content does not have the fingerprint that the patch set
    /// records.
    ChecksumMismatch,
    /// The record for `offset` does not hold one byte in hexadecimal text.
    InvalidHexData { offset: u64 },
    /// The file that the patch set names does not exist.
    TargetMissing,
    /// The target could not be read or opened.
    IoError,
    /// `offset` lies outside the target, or could not be reached.
    SeekFailure { offset: u64 },
    /// The byte for `offset` could not be written.
    WriteFailure { offset: u64 },
}

/// One byte of the modified content: where it goes, and the byte as two
/// hexadecimal digits.
#[derive(Debug, Clone, PartialEq, Eq)]
pub struct Patch {
    pub offset: u64,
    pub data: String,
}

/// What a `Patch` holds.
pub ghost struct PatchView {
    pub offset: nat,
    pub data: Seq<char>,
}

impl PatchView {
    /// The byte that the record carries: `data` read as hexadecimal text, where
    /// it is text for exactly one byte.
    pub open spec fn byte(self) -> Option<u8> {
        if is_hex_text(self.data) && self.data.len() == 2 {
            Some(hex_bytes(self.data)[0])
        } else {
            None
        }
    }
}

impl View for Patch {
    type V = PatchView;

    open spec fn view(&self) -> PatchView {
        PatchView { offset: self.offset as nat, data: self.data@ }
    }
}

impl Patch {
    /// Reads the byte that the record carries. Digits of either case are
    /// taken; anything but two hexadecimal digits gives `None`.
    pub fn byte(&self) -> (byte: Option<u8>)
        ensures
            byte == self@.byte(),
    {
        match hex_decode(self.data.as_str()) {
            Ok(bytes) => {
                if bytes.len() == 1 {
                    Some(bytes[0])
                } else {
                    None
                }
            },
            Err(_) => None,
        }
    }
}

/// What each of `patches` holds, in the same order.
pub open spec fn patch_views(patches: Seq<Patch>) -> Seq<PatchView> {
    patches.map_values(|patch: Patch| patch@)
}

/// A patch set: the name of the file it is for, the fingerprint of the content
/// it was made from, and the bytes to write.
#[derive(Debug, Clone, PartialEq, Eq)]
pub struct PatchFile {
    pub file_name: String,
    pub checksum: String,
    pub patches: Vec<Patch>,
}

/// What a `PatchFile` holds.
pub ghost struct PatchFileView {
    pub file_name: Seq<char>,
    pub checksum: Seq<char>,
    pub patches: Seq<PatchView>,
}

impl View for PatchFile {
    type V = PatchFileView;

    open spec fn view(&self) -> PatchFileView {
        PatchFileView {
            file_name: self.file_name@,
            checksum: self.checksum@,
            patches: patch_views(self.patches@),
        }
    }
}

/// Puts the three parts of a patch set together, as they are.
pub fn create_patch_file(
    file_name: String,
    checksum: String,
    patches: Vec<Patch>,
) -> (patch_file: PatchFile)
    ensures
        patch_file.file_name == file_name,
        patch_file.checksum == checksum,
        patch_file.patches == patches,
{
    PatchFile { file_name, checksum, patches }
}

} // verus!
