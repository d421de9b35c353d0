//! Making a patch set: comparing two contents of equal length byte by byte.

use crate::checksum::{compute_checksum, fingerprint};
use crate::encoding::{hex_encode, hex_text};
use crate::patch::{
    create_patch_file, patch_views, Patch, PatchError, PatchFile, PatchFileView, PatchView,
};
use vstd::prelude::*;

verus! {

/// The offsets below `bound` at which `original` and `modified` hold different
/// bytes, in ascending order.
pub open spec fn differing_offsets(original: Seq<u8>, modified: Seq<u8>, bound: nat) -> Seq<int> {
    Seq::new(bound, |i: int| i).filter(|i: int| original[i] != modified[i])
}

/// The record that puts the byte of `modified` at `offset` in its place.
pub open spec fn record_at(modified: Seq<u8>, offset: int) -> PatchView {
    PatchView { offset: offset as nat, data: hex_text(seq![modified[offset]]) }
}

/// The records for the offsets below `bound` at which the two differ.
pub open spec fn diff_records_below(
    original: Seq<u8>,
    modified: Seq<u8>,
    bound: nat,
) -> Seq<PatchView> {
    differing_offsets(original, modified, bound).map_values(|i: int| record_at(modified, i))
}

/// The records that turn `original` into `modified`: one for each offset at
/// which they differ, in ascending order of offset, each with the byte of
/// `modified`.
pub open spec fn diff_records(original: Seq<u8>, modified: Seq<u8>) -> Seq<PatchView>
    recommends
        original.len() == modified.len(),
{
    diff_records_below(original, modified, original.len())
}

/// The patch set that `generate_patch` makes for a file of the given name.
pub open spec fn generated_patch(
    file_name: Seq<char>,
    original: Seq<u8>,
    modified: Seq<u8>,
) -> PatchFileView
    recommends
        original.len() == modified.len(),
{
    PatchFileView {
        file_name: file_name,
        checksum: fingerprint(original),
        patches: diff_records(original, modified),
    }
}

/// Below offset 0 there is no record.
pub proof fn lemma_diff_records_start(original: Seq<u8>, modified: Seq<u8>)
    ensures
        diff_records_below(original, modified, 0) == Seq::<PatchView>::empty(),
{
    reveal(Seq::filter);
    assert(diff_records_below(original, modified, 0) =~= Seq::<PatchView>::empty());
}

/// Raising the bound by one adds the record for that offset where the two
/// differ there, and nothing where they agree.
pub proof fn lemma_diff_records_step(original: Seq<u8>, modified: Seq<u8>, bound: nat)
    ensures
        original[bound as int] != modified[bound as int] ==> diff_records_below(
            original,
            modified,
            bound + 1,
        ) == diff_records_below(original, modified, bound).push(record_at(modified, bound as int)),
        original[bound as int] == modified[bound as int] ==> diff_records_below(
            original,
            modified,
            bound + 1,
        ) == diff_records_below(original, modified, bound),
{
    reveal(Seq::filter);
    let wider = Seq::new(bound + 1, |i: int| i);
    assert(wider.drop_last() =~= Seq::new(bound, |i: int| i));
    assert(wider.last() == bound);
    if original[bound as int] != modified[bound as int] {
        assert(diff_records_below(original, modified, bound + 1) =~= diff_records_below(
            original,
            modified,
            bound,
        ).push(record_at(modified, bound as int)));
    }
}

/// Compares `original` and `modified` byte by byte. Contents of different
/// lengths are refused; otherwise there is one record for each offset at which
/// they differ, in ascending order, with the byte of `modified`.
pub fn diff(original: &[u8], modified: &[u8]) -> (result: Result<Vec<Patch>, PatchError>)
    ensures
        original@.len() != modified@.len() ==> result == Err::<Vec<Patch>, PatchError>(
            PatchError::SizeMismatch,
        ),
        original@.len() == modified@.len() ==> result is Ok && patch_views(result->Ok_0@)
            == diff_records(original@, modified@),
{
    let length = original.len();
    if length != modified.len() {
        return Err(PatchError::SizeMismatch);
    }
    let mut patches: Vec<Patch> = Vec::new();
    let mut i: usize = 0;
    proof {
        lemma_diff_records_start(original@, modified@);
        assert(patch_views(patches@) =~= Seq::<PatchView>::empty());
    }
    while i < length
        invariant
            i <= length,
            length == original@.len(),
            length == modified@.len(),
            patch_views(patches@) == diff_records_below(original@, modified@, i as nat),
        decreases length - i,
    {
        proof {
            lemma_diff_records_step(original@, modified@, i as nat);
        }
        if original[i] != modified[i] {
            let byte: [u8; 1] = [modified[i]];
            let data = hex_encode(byte.as_slice());
            let patch = Patch { offset: i as u64, data };
            assert(byte@ =~= seq![modified@[i as int]]);
            assert(patch@ == record_at(modified@, i as int));
            let ghost before = patches@;
            patches.push(patch);
            assert(patch_views(patches@) =~= patch_views(before).push(patch@));
        }
        i += 1;
    }
    Ok(patches)
}

/// Makes the patch set that turns `original` into `modified`, for a file
/// called `file_name`: the fingerprint of `original` and the records of
/// `diff`. Contents of different lengths are refused.
pub fn generate_patch(
    file_name: &str,
    original: &[u8],
    modified: &[u8],
) -> (result: Result<PatchFile, PatchError>)
    ensures
        original@.len() != modified@.len() ==> result == Err::<PatchFile, PatchError>(
            PatchError::SizeMismatch,
        ),
        original@.len() == modified@.len() ==> result is Ok && result->Ok_0@ == generated_patch(
            file_name@,
            original@,
            modified@,
        ),
{
    match diff(original, modified) {
        Ok(patches) => {
            let checksum = compute_checksum(original);
            Ok(create_patch_file(file_name.to_owned(), checksum, patches))
        },
        Err(error) => Err(error),
    }
}

} // verus!
