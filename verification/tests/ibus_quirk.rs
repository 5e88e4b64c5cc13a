use daklak::quirks::ibus::IbusSurroundingQuirk;

#[test]
fn first_correction_never_downgrades() {
    let mut quirk = IbusSurroundingQuirk::new();

    assert!(!quirk.note_correction_and_should_downgrade());
}

#[test]
fn echoed_corrections_never_downgrade() {
    let mut quirk = IbusSurroundingQuirk::new();

    assert!(!quirk.note_correction_and_should_downgrade());
    quirk.mark_surrounding_frame_seen();
    assert!(!quirk.note_correction_and_should_downgrade());
    quirk.mark_surrounding_frame_seen();
    assert!(!quirk.note_correction_and_should_downgrade());
}

#[test]
fn repeated_missing_echoes_downgrade_after_threshold() {
    let mut quirk = IbusSurroundingQuirk::new();

    assert!(!quirk.note_correction_and_should_downgrade());
    assert!(quirk.note_correction_and_should_downgrade());
}

#[test]
fn reset_clears_downgrade_history() {
    let mut quirk = IbusSurroundingQuirk::new();

    assert!(!quirk.note_correction_and_should_downgrade());
    assert!(quirk.note_correction_and_should_downgrade());
    quirk.reset();
    assert!(!quirk.note_correction_and_should_downgrade());
}
