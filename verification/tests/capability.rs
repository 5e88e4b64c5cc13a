use daklak::edit::capability::{detect_method, CapabilityProbe};
use daklak::edit::BackspaceMethod;

fn probe(purpose: u32, surrounding_text_seen: bool) -> CapabilityProbe {
    CapabilityProbe {
        purpose,
        surrounding_text_seen,
        terminal_override: None,
    }
}

#[test]
fn terminal_default_is_forward_key() {
    assert_eq!(
        detect_method(&probe(13, false)),
        BackspaceMethod::ForwardKey
    );

    assert_eq!(detect_method(&probe(13, true)), BackspaceMethod::ForwardKey);
}

#[test]
fn terminal_override_forward() {
    let mut p = probe(13, false);
    p.terminal_override = Some(BackspaceMethod::ForwardKey);
    assert_eq!(detect_method(&p), BackspaceMethod::ForwardKey);
}

#[test]
fn terminal_override_surrounding() {
    let mut p = probe(13, true);
    p.terminal_override = Some(BackspaceMethod::SurroundingText);
    assert_eq!(detect_method(&p), BackspaceMethod::SurroundingText);
}

#[test]
fn gedit_non_empty_surrounding_is_tier1() {
    assert_eq!(
        detect_method(&probe(0, true)),
        BackspaceMethod::SurroundingText
    );
}

#[test]
fn non_terminal_no_surrounding_is_forward_key() {
    assert_eq!(detect_method(&probe(0, false)), BackspaceMethod::ForwardKey);
}

#[test]
fn empty_surrounding_is_tier1() {
    assert_eq!(
        detect_method(&probe(0, true)),
        BackspaceMethod::SurroundingText
    );
}
