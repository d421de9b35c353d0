//! Applying a patch set: what it does to a content, and the machine that
//! decides, step by step, what is done to the target file.

use crate::checksum::{compute_checksum, fingerprint};
use crate::patch::{PatchError, PatchFile, PatchFileView, PatchView};
use vstd::prelude::*;

verus! {

/// What one record does to `content`: it puts its byte at its offset. A record
/// that does not carry one byte is refused, and so is one whose offset lies at
/// or past the end of `content`; the first of these is tested first.
pub open spec fn apply_record(content: Seq<u8>, record: PatchView) -> Result<Seq<u8>, PatchError> {
    match record.byte() {
        None => Err(PatchError::InvalidHexData { offset: record.offset as u64 }),
        Some(byte) => if record.offset < content.len() {
            Ok(content.update(record.offset as int, byte))
        } else {
            Err(PatchError::SeekFailure { offset: record.offset as u64 })
        },
    }
}

/// What `records` do to `content`, applied in order: the content that is left,
/// and how it ended. The first record that is refused ends it, and what the
/// records before it wrote stays written.
pub open spec fn apply_records(content: Seq<u8>, records: Seq<PatchView>) -> (
    Seq<u8>,
    Result<(), PatchError>,
)
    decreases records.len(),
{
    if records.len() == 0 {
        (content, Ok(()))
    } else {
        let (reached, status) = apply_records(content, records.drop_last());
        match status {
            Err(_) => (reached, status),
            Ok(_) => match apply_record(reached, records.last()) {
                Ok(written) => (written, Ok(())),
                Err(error) => (reached, Err(error)),
            },
        }
    }
}

/// What applying `patch` does to `content`. A content whose fingerprint is not
/// the one that `patch` records is left as it is; otherwise the records are
/// applied in order.
pub open spec fn apply_outcome(content: Seq<u8>, patch: PatchFileView) -> (
    Seq<u8>,
    Result<(), PatchError>,
) {
    if fingerprint(content) != patch.checksum {
        (content, Err(PatchError::ChecksumMismatch))
    } else {
        apply_records(content, patch.patches)
    }
}

/// Once a record has been refused, the records after it change nothing.
pub proof fn lemma_apply_records_stops(content: Seq<u8>, records: Seq<PatchView>, count: int)
    requires
        0 <= count <= records.len(),
        apply_records(content, records.take(count)).1 is Err,
    ensures
        apply_records(content, records) == apply_records(content, records.take(count)),
    decreases records.len(),
{
    if count == records.len() {
        assert(records.take(count) =~= records);
    } else {
        assert(records.drop_last().take(count) =~= records.take(count));
        lemma_apply_records_stops(content, records.drop_last(), count);
    }
}

/// Where the application of a patch set stands.
#[derive(Debug, Clone, Copy, PartialEq, Eq)]
pub enum ApplyState {
    /// The target has not been read yet.
    Unverified,
    /// The target has the fingerprint that the patch set records.
    Verified,
    /// The records before `index` are written, and `byte` is due at `offset`.
    Patching { index: usize, offset: u64, byte: u8 },
    /// Every record is written.
    Done,
    /// The application has ended with an error.
    Failed(PatchError),
}

/// What has happened to the target since the last step.
#[derive(Debug, Clone, Copy, PartialEq, Eq)]
pub enum ApplyEvent<'a> {
    /// The file that the patch set names does not exist.
    TargetMissing,
    /// The target exists and could not be read.
    ReadFailed,
    /// The target holds these bytes.
    TargetRead(&'a [u8]),
    /// The target has this fingerprint and this length, for a caller that has
    /// fingerprinted the target itself.
    TargetFingerprinted { checksum: &'a str, len: usize },
    /// The target is open for reading and writing.
    Opened,
    /// The target could not be opened.
    OpenFailed,
    /// The byte that was due is written.
    Written,
    /// The offset of the byte that was due could not be reached.
    SeekFailed,
    /// The byte that was due could not be written.
    WriteFailed,
}

/// What is to be done to the target next.
#[derive(Debug, Clone, Copy, PartialEq, Eq)]
pub enum ApplyAction {
    /// Read the whole target.
    ReadTarget,
    /// Open the target for reading and writing, keeping its content.
    OpenTarget,
    /// Write `byte` at `offset`, counted from the start of the target.
    WriteByte { offset: u64, byte: u8 },
    /// Nothing is left to do: the patch set is applied.
    Finish,
    /// Nothing more may be done: the application has failed.
    Abort(PatchError),
}

/// What an `Applier` holds: the patch set, the length of the target once it
/// has been read, and the state.
pub ghost struct ApplierView {
    pub patch: PatchFileView,
    pub target_len: nat,
    pub state: ApplyState,
}

impl ApplierView {
    /// The state in which record `index` is taken up, the records before it
    /// being written: `Done` past the last record, `Failed` for a record that
    /// does not carry one byte or whose offset lies at or past the end of the
    /// target, and `Patching` with the byte that is due otherwise.
    pub open spec fn arrive(self, index: nat) -> ApplyState {
        if index >= self.patch.patches.len() {
            ApplyState::Done
        } else {
            let record = self.patch.patches[index as int];
            match record.byte() {
                None => ApplyState::Failed(
                    PatchError::InvalidHexData { offset: record.offset as u64 },
                ),
                Some(byte) => if record.offset < self.target_len {
                    ApplyState::Patching {
                        index: index as usize,
                        offset: record.offset as u64,
                        byte: byte,
                    }
                } else {
                    ApplyState::Failed(PatchError::SeekFailure { offset: record.offset as u64 })
                },
            }
        }
    }

    /// The state in which a target with the fingerprint `checksum` is taken:
    /// `Verified` where it is the fingerprint that the patch set records, and
    /// `Failed` otherwise.
    pub open spec fn gate(self, checksum: Seq<char>) -> ApplyState {
        if checksum == self.patch.checksum {
            ApplyState::Verified
        } else {
            ApplyState::Failed(PatchError::ChecksumMismatch)
        }
    }

    /// The state that follows on `event`. An event that cannot happen in the
    /// present state changes nothing, and neither does any event once the
    /// application is done or has failed.
    pub open spec fn next_state(self, event: ApplyEvent) -> ApplyState {
        match (self.state, event) {
            (ApplyState::Unverified, ApplyEvent::TargetMissing) => ApplyState::Failed(
                PatchError::TargetMissing,
            ),
            (ApplyState::Unverified, ApplyEvent::ReadFailed) => ApplyState::Failed(
                PatchError::IoError,
            ),
            (ApplyState::Unverified, ApplyEvent::TargetRead(content)) => self.gate(
                fingerprint(content@),
            ),
            (
                ApplyState::Unverified,
                ApplyEvent::TargetFingerprinted { checksum, .. },
            ) => self.gate(checksum@),
            (ApplyState::Verified, ApplyEvent::Opened) => self.arrive(0),
            (ApplyState::Verified, ApplyEvent::OpenFailed) => ApplyState::Failed(
                PatchError::IoError,
            ),
            (ApplyState::Patching { index, .. }, ApplyEvent::Written) => self.arrive(
                (index + 1) as nat,
            ),
            (ApplyState::Patching { offset, .. }, ApplyEvent::SeekFailed) => ApplyState::Failed(
                PatchError::SeekFailure { offset },
            ),
            (ApplyState::Patching { offset, .. }, ApplyEvent::WriteFailed) => ApplyState::Failed(
                PatchError::WriteFailure { offset },
            ),
            _ => self.state,
        }
    }

    /// The machine after `event`. The length of the target is taken from what
    /// comes in of the target in the state `Unverified`.
    pub open spec fn next(self, event: ApplyEvent) -> ApplierView {
        ApplierView {
            patch: self.patch,
            target_len: match (self.state, event) {
                (ApplyState::Unverified, ApplyEvent::TargetRead(content)) => content@.len(),
                (ApplyState::Unverified, ApplyEvent::TargetFingerprinted { len, .. }) => len as nat,
                _ => self.target_len,
            },
            state: self.next_state(event),
        }
    }

    /// What is to be done in the present state.
    pub open spec fn action(self) -> ApplyAction {
        match self.state {
            ApplyState::Unverified => ApplyAction::ReadTarget,
            ApplyState::Verified => ApplyAction::OpenTarget,
            ApplyState::Patching { offset, byte, .. } => ApplyAction::WriteByte { offset, byte },
            ApplyState::Done => ApplyAction::Finish,
            ApplyState::Failed(error) => ApplyAction::Abort(error),
        }
    }

    /// In the state `Patching` the byte that is due is that of the record at
    /// `index`, and its offset lies inside the target.
    pub open spec fn wf(self) -> bool {
        self.state matches ApplyState::Patching { index, offset, byte } ==> {
            &&& index < self.patch.patches.len()
            &&& self.patch.patches[index as int].offset == offset
            &&& self.patch.patches[index as int].byte() == Some(byte)
            &&& offset < self.target_len
        }
    }

    /// How many steps are left at most before the application ends.
    spec fn steps_left(self) -> nat {
        match self.state {
            ApplyState::Unverified => self.patch.patches.len() + 2,
            ApplyState::Verified => self.patch.patches.len() + 1,
            ApplyState::Patching { index, .. } => (self.patch.patches.len() - index) as nat,
            ApplyState::Done => 0,
            ApplyState::Failed(_) => 0,
        }
    }
}

/// The machine that applies one patch set to one target. It decides; its
/// caller reads, opens and writes, and reports back.
pub struct Applier {
    patch: PatchFile,
    target_len: usize,
    state: ApplyState,
}

impl View for Applier {
    type V = ApplierView;

    closed spec fn view(&self) -> ApplierView {
        ApplierView {
            patch: self.patch@,
            target_len: self.target_len as nat,
            state: self.state,
        }
    }
}

impl Applier {
    #[verifier::type_invariant]
    spec fn inv(&self) -> bool {
        self@.wf()
    }

    /// Takes the patch set that is to be applied. Nothing is known of the
    /// target yet.
    pub fn new(patch: PatchFile) -> (applier: Applier)
        ensures
            applier@ == (ApplierView {
                patch: patch@,
                target_len: 0,
                state: ApplyState::Unverified,
            }),
            applier@.wf(),
    {
        Applier { patch, target_len: 0, state: ApplyState::Unverified }
    }

    /// The present state.
    pub fn state(&self) -> (state: ApplyState)
        ensures
            state == self@.state,
    {
        self.state
    }

    /// What is to be done in the present state.
    pub fn action(&self) -> (action: ApplyAction)
        ensures
            action == self@.action(),
    {
        match self.state {
            ApplyState::Unverified => ApplyAction::ReadTarget,
            ApplyState::Verified => ApplyAction::OpenTarget,
            ApplyState::Patching { offset, byte, .. } => ApplyAction::WriteByte { offset, byte },
            ApplyState::Done => ApplyAction::Finish,
            ApplyState::Failed(error) => ApplyAction::Abort(error),
        }
    }

    /// The state in which a target with the fingerprint `checksum` is taken.
    fn gate(&self, checksum: String) -> (state: ApplyState)
        ensures
            state == self@.gate(checksum@),
    {
        if checksum == self.patch.checksum {
            ApplyState::Verified
        } else {
            ApplyState::Failed(PatchError::ChecksumMismatch)
        }
    }

    /// The state in which record `index` is taken up.
    fn arrive(&self, index: usize) -> (state: ApplyState)
        requires
            index <= self.patch.patches@.len(),
        ensures
            state == self@.arrive(index as nat),
    {
        if index >= self.patch.patches.len() {
            return ApplyState::Done;
        }
        let record = &self.patch.patches[index];
        assert(self@.patch.patches[index as int] == record@);
        match record.byte() {
            None => ApplyState::Failed(PatchError::InvalidHexData { offset: record.offset }),
            Some(byte) => {
                if record.offset < self.target_len as u64 {
                    ApplyState::Patching { index, offset: record.offset, byte }
                } else {
                    ApplyState::Failed(PatchError::SeekFailure { offset: record.offset })
                }
            },
        }
    }

    /// Takes `event` in and says what is to be done next. The fingerprint of
    /// the target is tested when its content comes in; each record is tested
    /// when its turn comes.
    pub fn step(&mut self, event: ApplyEvent) -> (action: ApplyAction)
        ensures
            final(self)@ == old(self)@.next(event),
            final(self)@.wf(),
            action == final(self)@.action(),
    {
        proof {
            use_type_invariant(&*self);
        }
        match (self.state, event) {
            (ApplyState::Unverified, ApplyEvent::TargetMissing) => {
                self.state = ApplyState::Failed(PatchError::TargetMissing);
            },
            (ApplyState::Unverified, ApplyEvent::ReadFailed) => {
                self.state = ApplyState::Failed(PatchError::IoError);
            },
            (ApplyState::Unverified, ApplyEvent::TargetRead(content)) => {
                let actual = compute_checksum(content);
                self.target_len = content.len();
                self.state = self.gate(actual);
            },
            (ApplyState::Unverified, ApplyEvent::TargetFingerprinted { checksum, len }) => {
                self.target_len = len;
                self.state = self.gate(checksum.to_owned());
            },
            (ApplyState::Verified, ApplyEvent::Opened) => {
                self.state = self.arrive(0);
            },
            (ApplyState::Verified, ApplyEvent::OpenFailed) => {
                self.state = ApplyState::Failed(PatchError::IoError);
            },
            (ApplyState::Patching { index, .. }, ApplyEvent::Written) => {
                assert(index < self.patch.patches.len()) by {
                    assert(self@.patch.patches.len() == self.patch.patches@.len());
                }
                self.state = self.arrive(index + 1);
            },
            (ApplyState::Patching { offset, .. }, ApplyEvent::SeekFailed) => {
                self.state = ApplyState::Failed(PatchError::SeekFailure { offset });
            },
            (ApplyState::Patching { offset, .. }, ApplyEvent::WriteFailed) => {
                self.state = ApplyState::Failed(PatchError::WriteFailure { offset });
            },
            _ => {},
        }
        self.action()
    }
}

/// Whether a target that held `start` and holds `content` now is where the
/// machine says it is, the machine having been told only of what was done.
spec fn on_track(machine: ApplierView, start: Seq<u8>, content: Seq<u8>) -> bool {
    &&& content.len() == start.len()
    &&& match machine.state {
        ApplyState::Unverified => content == start,
        ApplyState::Verified => {
            &&& content == start
            &&& fingerprint(start) == machine.patch.checksum
            &&& machine.target_len == start.len()
        },
        ApplyState::Patching { index, .. } => {
            &&& fingerprint(start) == machine.patch.checksum
            &&& machine.target_len == start.len()
            &&& apply_records(start, machine.patch.patches.take(index as int)) == (
                content,
                Ok::<(), PatchError>(()),
            )
        },
        ApplyState::Done => apply_outcome(start, machine.patch) == (content, Ok::<(), PatchError>(())),
        ApplyState::Failed(error) => apply_outcome(start, machine.patch) == (
            content,
            Err::<(), PatchError>(error),
        ),
    }
}

/// Taking up record `index` keeps the machine on track, the records before it
/// being written.
proof fn lemma_arrive_on_track(machine: ApplierView, start: Seq<u8>, content: Seq<u8>, index: nat)
    requires
        index <= machine.patch.patches.len() <= usize::MAX,
        content.len() == start.len(),
        machine.target_len == start.len(),
        fingerprint(start) == machine.patch.checksum,
        apply_records(start, machine.patch.patches.take(index as int)) == (
            content,
            Ok::<(), PatchError>(()),
        ),
    ensures
        on_track(
            ApplierView { state: machine.arrive(index), ..machine },
            start,
            content,
        ),
{
    let records = machine.patch.patches;
    if index >= records.len() {
        assert(records.take(index as int) =~= records);
    } else {
        let wider = records.take(index as int + 1);
        assert(wider.drop_last() =~= records.take(index as int));
        assert(wider.last() == records[index as int]);
        if apply_record(content, records[index as int]) is Err {
            lemma_apply_records_stops(start, records, index as int + 1);
        }
    }
}

/// Applies `patch` to a target that is held in memory. A target whose
/// fingerprint is not the one that `patch` records is refused and left as it
/// is. Otherwise the records are applied in order; the first that does not
/// carry one byte, or whose offset lies at or past the end of the target, ends
/// the application, and what was written before it stays written.
pub fn apply_patch(target: &mut Vec<u8>, patch: PatchFile) -> (result: Result<(), PatchError>)
    ensures
        (final(target)@, result) == apply_outcome(old(target)@, patch@),
        fingerprint(old(target)@) != patch@.checksum ==> final(target)@ == old(target)@ && result
            == Err::<(), PatchError>(PatchError::ChecksumMismatch),
{
    let ghost start = target@;
    let ghost patch_view = patch@;
    assert(patch_view.patches.len() == patch.patches.len());
    let mut run = Applier::new(patch);
    let mut action = run.action();
    loop
        invariant
            start == old(target)@,
            patch_view == patch@,
            run@.patch == patch_view,
            patch_view.patches.len() <= usize::MAX,
            run@.wf(),
            action == run@.action(),
            on_track(run@, start, target@),
        decreases run@.steps_left(),
    {
        let ghost before = run@;
        let ghost content = target@;
        match action {
            ApplyAction::ReadTarget => {
                action = run.step(ApplyEvent::TargetRead(target.as_slice()));
            },
            ApplyAction::OpenTarget => {
                action = run.step(ApplyEvent::Opened);
                proof {
                    assert(patch_view.patches.take(0) =~= Seq::<PatchView>::empty());
                    lemma_arrive_on_track(before, start, content, 0);
                }
            },
            ApplyAction::WriteByte { offset, byte } => {
                target.set(offset as usize, byte);
                action = run.step(ApplyEvent::Written);
                proof {
                    let index = before.state->index;
                    let wider = patch_view.patches.take(index + 1);
                    assert(wider.drop_last() =~= patch_view.patches.take(index as int));
                    assert(wider.last() == patch_view.patches[index as int]);
                    lemma_arrive_on_track(before, start, target@, (index + 1) as nat);
                }
            },
            ApplyAction::Finish => {
                return Ok(());
            },
            ApplyAction::Abort(error) => {
                return Err(error);
            },
        }
    }
}

} // verus!
