use patchit::{
    compute_checksum, create_patch_file, Applier, ApplyAction, ApplyEvent, ApplyState, Patch,
    PatchError, PatchFile,
};

const TARGET: [u8; 4] = [0x00, 0x01, 0x02, 0x03];

fn entry(offset: u64, data: &str) -> Patch {
    Patch { offset, data: data.to_string() }
}

fn patch_of(patches: Vec<Patch>) -> PatchFile {
    create_patch_file("target.bin".to_string(), compute_checksum(&TARGET), patches)
}

fn opened(patches: Vec<Patch>) -> (Applier, ApplyAction) {
    let mut applier = Applier::new(patch_of(patches));
    assert_eq!(applier.step(ApplyEvent::TargetRead(&TARGET)), ApplyAction::OpenTarget);
    let action = applier.step(ApplyEvent::Opened);
    (applier, action)
}

#[test]
fn applier_starts_unverified_and_asks_for_the_target() {
    let applier = Applier::new(patch_of(vec![entry(1, "ff")]));
    assert_eq!(applier.state(), ApplyState::Unverified);
    assert_eq!(applier.action(), ApplyAction::ReadTarget);
}

#[test]
fn applier_runs_from_unverified_to_done() {
    let mut applier = Applier::new(patch_of(vec![entry(1, "ff"), entry(3, "0A")]));

    assert_eq!(applier.step(ApplyEvent::TargetRead(&TARGET)), ApplyAction::OpenTarget);
    assert_eq!(applier.state(), ApplyState::Verified);

    assert_eq!(
        applier.step(ApplyEvent::Opened),
        ApplyAction::WriteByte { offset: 1, byte: 0xFF }
    );
    assert_eq!(applier.state(), ApplyState::Patching { index: 0, offset: 1, byte: 0xFF });

    assert_eq!(
        applier.step(ApplyEvent::Written),
        ApplyAction::WriteByte { offset: 3, byte: 0x0A }
    );
    assert_eq!(applier.state(), ApplyState::Patching { index: 1, offset: 3, byte: 0x0A });
    assert_eq!(applier.action(), ApplyAction::WriteByte { offset: 3, byte: 0x0A });

    assert_eq!(applier.step(ApplyEvent::Written), ApplyAction::Finish);
    assert_eq!(applier.state(), ApplyState::Done);
    assert_eq!(applier.action(), ApplyAction::Finish);
}

#[test]
fn applier_without_records_is_done_once_the_target_is_open() {
    let (applier, action) = opened(vec![]);
    assert_eq!(action, ApplyAction::Finish);
    assert_eq!(applier.state(), ApplyState::Done);
}

#[test]
fn applier_fails_when_the_target_is_missing() {
    let mut applier = Applier::new(patch_of(vec![entry(1, "ff")]));
    assert_eq!(
        applier.step(ApplyEvent::TargetMissing),
        ApplyAction::Abort(PatchError::TargetMissing)
    );
    assert_eq!(applier.state(), ApplyState::Failed(PatchError::TargetMissing));
}

#[test]
fn applier_fails_when_the_target_cannot_be_read() {
    let mut applier = Applier::new(patch_of(vec![entry(1, "ff")]));
    assert_eq!(applier.step(ApplyEvent::ReadFailed), ApplyAction::Abort(PatchError::IoError));
    assert_eq!(applier.state(), ApplyState::Failed(PatchError::IoError));
}

#[test]
fn applier_refuses_wrong_content_before_any_write() {
    let mut applier = Applier::new(patch_of(vec![entry(1, "ff")]));
    assert_eq!(
        applier.step(ApplyEvent::TargetRead(&[0x00, 0x01, 0x02, 0x04])),
        ApplyAction::Abort(PatchError::ChecksumMismatch)
    );
    assert_eq!(applier.state(), ApplyState::Failed(PatchError::ChecksumMismatch));
    assert_eq!(
        applier.step(ApplyEvent::Opened),
        ApplyAction::Abort(PatchError::ChecksumMismatch)
    );
}

#[test]
fn applier_takes_a_fingerprint_from_its_caller() {
    let patch = create_patch_file("t".to_string(), "abc".to_string(), vec![entry(5, "01")]);
    let mut applier = Applier::new(patch.clone());
    assert_eq!(
        applier.step(ApplyEvent::TargetFingerprinted { checksum: "abc", len: 6 }),
        ApplyAction::OpenTarget
    );
    assert_eq!(
        applier.step(ApplyEvent::Opened),
        ApplyAction::WriteByte { offset: 5, byte: 1 }
    );

    let mut short = Applier::new(patch.clone());
    assert_eq!(
        short.step(ApplyEvent::TargetFingerprinted { checksum: "abc", len: 5 }),
        ApplyAction::OpenTarget
    );
    assert_eq!(
        short.step(ApplyEvent::Opened),
        ApplyAction::Abort(PatchError::SeekFailure { offset: 5 })
    );

    let mut other = Applier::new(patch);
    assert_eq!(
        other.step(ApplyEvent::TargetFingerprinted { checksum: "abd", len: 6 }),
        ApplyAction::Abort(PatchError::ChecksumMismatch)
    );
}

#[test]
fn applier_fails_when_the_target_cannot_be_opened() {
    let mut applier = Applier::new(patch_of(vec![entry(1, "ff")]));
    applier.step(ApplyEvent::TargetRead(&TARGET));
    assert_eq!(applier.step(ApplyEvent::OpenFailed), ApplyAction::Abort(PatchError::IoError));
    assert_eq!(applier.state(), ApplyState::Failed(PatchError::IoError));
}

#[test]
fn applier_fails_at_the_record_with_invalid_hex() {
    let (mut applier, action) = opened(vec![entry(2, "0f"), entry(7, "gg"), entry(3, "00")]);
    assert_eq!(action, ApplyAction::WriteByte { offset: 2, byte: 0x0F });
    assert_eq!(
        applier.step(ApplyEvent::Written),
        ApplyAction::Abort(PatchError::InvalidHexData { offset: 7 })
    );
    assert_eq!(applier.state(), ApplyState::Failed(PatchError::InvalidHexData { offset: 7 }));
}

#[test]
fn applier_fails_at_once_when_the_first_record_is_invalid() {
    let (applier, action) = opened(vec![entry(0, "g0")]);
    assert_eq!(action, ApplyAction::Abort(PatchError::InvalidHexData { offset: 0 }));
    assert_eq!(applier.state(), ApplyState::Failed(PatchError::InvalidHexData { offset: 0 }));
}

#[test]
fn applier_fails_at_an_offset_past_the_end() {
    let (mut applier, action) = opened(vec![entry(3, "0f"), entry(4, "00")]);
    assert_eq!(action, ApplyAction::WriteByte { offset: 3, byte: 0x0F });
    assert_eq!(
        applier.step(ApplyEvent::Written),
        ApplyAction::Abort(PatchError::SeekFailure { offset: 4 })
    );
}

#[test]
fn applier_fails_when_a_seek_fails() {
    let (mut applier, _) = opened(vec![entry(2, "0f"), entry(3, "00")]);
    assert_eq!(
        applier.step(ApplyEvent::SeekFailed),
        ApplyAction::Abort(PatchError::SeekFailure { offset: 2 })
    );
    assert_eq!(applier.state(), ApplyState::Failed(PatchError::SeekFailure { offset: 2 }));
}

#[test]
fn applier_fails_when_a_write_fails() {
    let (mut applier, _) = opened(vec![entry(2, "0f"), entry(3, "00")]);
    applier.step(ApplyEvent::Written);
    assert_eq!(
        applier.step(ApplyEvent::WriteFailed),
        ApplyAction::Abort(PatchError::WriteFailure { offset: 3 })
    );
    assert_eq!(applier.state(), ApplyState::Failed(PatchError::WriteFailure { offset: 3 }));
}

#[test]
fn applier_stays_where_it_failed() {
    let (mut applier, _) = opened(vec![entry(2, "0f")]);
    applier.step(ApplyEvent::WriteFailed);
    for event in [
        ApplyEvent::TargetMissing,
        ApplyEvent::ReadFailed,
        ApplyEvent::TargetRead(&TARGET),
        ApplyEvent::Opened,
        ApplyEvent::OpenFailed,
        ApplyEvent::Written,
        ApplyEvent::SeekFailed,
        ApplyEvent::WriteFailed,
    ] {
        assert_eq!(
            applier.step(event),
            ApplyAction::Abort(PatchError::WriteFailure { offset: 2 })
        );
    }
}

#[test]
fn applier_stays_done() {
    let (mut applier, _) = opened(vec![]);
    for event in [
        ApplyEvent::TargetMissing,
        ApplyEvent::TargetRead(&[9, 9]),
        ApplyEvent::Written,
        ApplyEvent::SeekFailed,
        ApplyEvent::WriteFailed,
    ] {
        assert_eq!(applier.step(event), ApplyAction::Finish);
        assert_eq!(applier.state(), ApplyState::Done);
    }
}

#[test]
fn applier_passes_over_events_that_do_not_fit() {
    let mut applier = Applier::new(patch_of(vec![entry(1, "ff")]));
    assert_eq!(applier.step(ApplyEvent::Written), ApplyAction::ReadTarget);
    assert_eq!(applier.step(ApplyEvent::Opened), ApplyAction::ReadTarget);
    assert_eq!(applier.state(), ApplyState::Unverified);

    applier.step(ApplyEvent::TargetRead(&TARGET));
    assert_eq!(applier.step(ApplyEvent::TargetMissing), ApplyAction::OpenTarget);
    assert_eq!(applier.step(ApplyEvent::Written), ApplyAction::OpenTarget);
    assert_eq!(applier.state(), ApplyState::Verified);

    applier.step(ApplyEvent::Opened);
    let due = ApplyAction::WriteByte { offset: 1, byte: 0xFF };
    assert_eq!(applier.step(ApplyEvent::Opened), due);
    assert_eq!(applier.step(ApplyEvent::TargetRead(&[1, 2, 3])), due);
    assert_eq!(applier.state(), ApplyState::Patching { index: 0, offset: 1, byte: 0xFF });
}

#[test]
fn applier_driven_over_a_buffer_gives_the_modified_content() {
    let mut buffer = TARGET.to_vec();
    let mut applier = Applier::new(patch_of(vec![entry(0, "de"), entry(3, "AD")]));
    let mut action = applier.action();
    let mut writes = 0;
    loop {
        action = match action {
            ApplyAction::ReadTarget => applier.step(ApplyEvent::TargetRead(&buffer)),
            ApplyAction::OpenTarget => applier.step(ApplyEvent::Opened),
            ApplyAction::WriteByte { offset, byte } => {
                buffer[offset as usize] = byte;
                writes += 1;
                applier.step(ApplyEvent::Written)
            }
            ApplyAction::Finish => break,
            ApplyAction::Abort(error) => panic!("the application failed: {:?}", error),
        };
    }
    assert_eq!(writes, 2);
    assert_eq!(buffer, vec![0xDE, 0x01, 0x02, 0xAD]);
}
