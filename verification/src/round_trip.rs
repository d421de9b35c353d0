//! What holds of making and applying patch sets together.

use crate::apply::{
    apply_outcome, apply_records, ApplierView, ApplyAction, ApplyEvent, ApplyState,
};
use crate::checksum::fingerprint;
use crate::diff::{
    diff_records, diff_records_below, generated_patch, lemma_diff_records_start,
    lemma_diff_records_step, record_at,
};
use crate::encoding::lemma_hex_text_bytes;
use crate::patch::{PatchError, PatchFileView, PatchView};
use vstd::prelude::*;

verus! {

/// `original` with its first `bound` bytes replaced by those of `modified`.
pub open spec fn merged(original: Seq<u8>, modified: Seq<u8>, bound: nat) -> Seq<u8> {
    Seq::new(
        original.len(),
        |i: int|
            if i < bound {
                modified[i]
            } else {
                original[i]
            },
    )
}

/// The record made for the byte at `offset` carries that byte.
pub proof fn lemma_record_at_byte(modified: Seq<u8>, offset: int)
    ensures
        record_at(modified, offset).byte() == Some(modified[offset]),
        record_at(modified, offset).data.len() == 2,
{
    lemma_hex_text_bytes(seq![modified[offset]]);
}

/// The records for the offsets below `bound` turn the first `bound` bytes of
/// `original` into those of `modified`, and none of them is refused.
pub proof fn lemma_apply_diff_records_below(original: Seq<u8>, modified: Seq<u8>, bound: nat)
    requires
        original.len() == modified.len(),
        bound <= original.len(),
    ensures
        apply_records(original, diff_records_below(original, modified, bound)) == (
            merged(original, modified, bound),
            Ok::<(), PatchError>(()),
        ),
    decreases bound,
{
    if bound == 0 {
        lemma_diff_records_start(original, modified);
        assert(merged(original, modified, 0) =~= original);
    } else {
        let below = (bound - 1) as nat;
        lemma_apply_diff_records_below(original, modified, below);
        lemma_diff_records_step(original, modified, below);
        let reached = merged(original, modified, below);
        if original[below as int] != modified[below as int] {
            let record = record_at(modified, below as int);
            let records = diff_records_below(original, modified, bound);
            lemma_record_at_byte(modified, below as int);
            assert(records.drop_last() =~= diff_records_below(original, modified, below));
            assert(records.last() == record);
            assert(reached.update(below as int, modified[below as int]) =~= merged(
                original,
                modified,
                bound,
            ));
        } else {
            assert(reached =~= merged(original, modified, bound));
        }
    }
}

/// The records for the offsets below `bound` are those of the offsets at which
/// the two differ, no other and each once: every record lies below `bound`, at
/// an offset where the two differ, and carries the byte of `modified`; the
/// offsets ascend; and every offset below `bound` at which the two differ has
/// its record.
pub proof fn lemma_diff_records_exact(original: Seq<u8>, modified: Seq<u8>, bound: nat)
    ensures
        forall|k: int|
            0 <= k < diff_records_below(original, modified, bound).len() ==> ({
                let record = #[trigger] diff_records_below(original, modified, bound)[k];
                &&& record.offset < bound
                &&& original[record.offset as int] != modified[record.offset as int]
                &&& record == record_at(modified, record.offset as int)
                &&& record.byte() == Some(modified[record.offset as int])
            }),
        forall|j: int, k: int|
            0 <= j < k < diff_records_below(original, modified, bound).len()
                ==> #[trigger] diff_records_below(original, modified, bound)[j].offset
                < #[trigger] diff_records_below(original, modified, bound)[k].offset,
        forall|i: int|
            0 <= i < bound && original[i] != modified[i] ==> exists|k: int|
                0 <= k < diff_records_below(original, modified, bound).len()
                    && #[trigger] diff_records_below(original, modified, bound)[k].offset == i,
    decreases bound,
{
    let records = diff_records_below(original, modified, bound);
    if bound == 0 {
        lemma_diff_records_start(original, modified);
    } else {
        let below = (bound - 1) as nat;
        let shorter = diff_records_below(original, modified, below);
        lemma_diff_records_exact(original, modified, below);
        lemma_diff_records_step(original, modified, below);
        lemma_record_at_byte(modified, below as int);
        assert forall|i: int| 0 <= i < bound && original[i] != modified[i] implies exists|k: int|
            0 <= k < records.len() && #[trigger] records[k].offset == i by {
            if i < below {
                let k = choose|k: int| 0 <= k < shorter.len() && #[trigger] shorter[k].offset == i;
                assert(records[k].offset == i);
            } else {
                assert(records[records.len() - 1].offset == i);
            }
        }
    }
}

/// Applying the patch set made from `original` and `modified` to a content
/// equal to `original` succeeds and gives `modified`, byte for byte.
pub proof fn lemma_round_trip(file_name: Seq<char>, original: Seq<u8>, modified: Seq<u8>)
    requires
        original.len() == modified.len(),
    ensures
        apply_outcome(original, generated_patch(file_name, original, modified)) == (
            modified,
            Ok::<(), PatchError>(()),
        ),
{
    lemma_apply_diff_records_below(original, modified, original.len());
    assert(merged(original, modified, original.len()) =~= modified);
}

/// Comparing a content with itself gives no record.
pub proof fn lemma_diff_of_equal(content: Seq<u8>, bound: nat)
    ensures
        diff_records_below(content, content, bound) == Seq::<PatchView>::empty(),
    decreases bound,
{
    if bound == 0 {
        lemma_diff_records_start(content, content);
    } else {
        lemma_diff_of_equal(content, (bound - 1) as nat);
        lemma_diff_records_step(content, content, (bound - 1) as nat);
    }
}

/// The patch set made from a content and itself holds no record, and applying
/// it to that content succeeds and leaves it as it is.
pub proof fn lemma_no_op_patch(file_name: Seq<char>, content: Seq<u8>)
    ensures
        diff_records(content, content) == Seq::<PatchView>::empty(),
        generated_patch(file_name, content, content).patches == Seq::<PatchView>::empty(),
        apply_outcome(content, generated_patch(file_name, content, content)) == (
            content,
            Ok::<(), PatchError>(()),
        ),
{
    lemma_diff_of_equal(content, content.len());
    lemma_round_trip(file_name, content, content);
}

/// A content whose fingerprint is not the one that the patch set records is
/// refused with `ChecksumMismatch` and stays as it is, whatever the records
/// hold.
pub proof fn lemma_checksum_gate(content: Seq<u8>, patch: PatchFileView)
    requires
        fingerprint(content) != patch.checksum,
    ensures
        apply_outcome(content, patch) == (
            content,
            Err::<(), PatchError>(PatchError::ChecksumMismatch),
        ),
{
}

/// The machine, on reading a content whose fingerprint is not the one that
/// the patch set records, fails with `ChecksumMismatch` and asks for no write.
pub proof fn lemma_machine_checksum_gate(machine: ApplierView, content: &[u8])
    requires
        machine.state == ApplyState::Unverified,
        fingerprint(content@) != machine.patch.checksum,
    ensures
        machine.next(ApplyEvent::TargetRead(content)).state == ApplyState::Failed(
            PatchError::ChecksumMismatch,
        ),
        machine.next(ApplyEvent::TargetRead(content)).action() == ApplyAction::Abort(
            PatchError::ChecksumMismatch,
        ),
{
}

/// An application that is done or has failed stays so: no event moves the
/// machine, and it asks for nothing more to be done to the target.
pub proof fn lemma_ended_stays_ended(machine: ApplierView, event: ApplyEvent)
    requires
        machine.state is Done || machine.state is Failed,
    ensures
        machine.next(event) == machine,
        machine.action() is Finish || machine.action() is Abort,
{
}

} // verus!
