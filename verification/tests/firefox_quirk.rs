use daklak::edit::DeleteUnit;
use daklak::quirks::firefox::FirefoxContenteditableQuirk;

#[test]
fn final_echo_resets_to_byte_delete() {
    let mut quirk = FirefoxContenteditableQuirk::new();
    quirk.record_expected_echo("tự".to_owned(), "t".to_owned());

    quirk.observe_surrounding("tự", true, false);

    assert_eq!(quirk.delete_unit(), DeleteUnit::Bytes);
    assert!(!quirk.has_pending_echo());
}

#[test]
fn delete_only_echo_keeps_waiting() {
    let mut quirk = FirefoxContenteditableQuirk::new();
    quirk.record_expected_echo("tự".to_owned(), "t".to_owned());

    quirk.observe_surrounding("t", true, false);

    assert_eq!(quirk.delete_unit(), DeleteUnit::Bytes);
    assert!(quirk.has_pending_echo());
}

#[test]
fn stale_recent_echo_arms_char_delete() {
    let mut quirk = FirefoxContenteditableQuirk::new();
    quirk.record_expected_echo("tự".to_owned(), "t".to_owned());

    quirk.observe_surrounding("tư", true, false);

    assert_eq!(quirk.delete_unit(), DeleteUnit::Chars);
    assert!(!quirk.has_pending_echo());
}

#[test]
fn retroactive_cursor_on_boundary_keeps_byte_delete() {
    let mut quirk = FirefoxContenteditableQuirk::new();
    quirk.record_expected_echo("tự".to_owned(), "t".to_owned());

    quirk.observe_surrounding("tư ", true, true);

    assert_eq!(quirk.delete_unit(), DeleteUnit::Bytes);
    assert!(!quirk.has_pending_echo());
}

#[test]
fn non_recent_mismatch_clears_pending_echo() {
    let mut quirk = FirefoxContenteditableQuirk::new();
    quirk.record_expected_echo("tự".to_owned(), "t".to_owned());

    quirk.observe_surrounding("other", false, false);

    assert_eq!(quirk.delete_unit(), DeleteUnit::Bytes);
    assert!(!quirk.has_pending_echo());
}
