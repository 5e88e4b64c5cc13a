use daklak::backend::InputBackend;
use daklak::control::{control_step, CmdKind, ControlReply};

#[test]
fn control_reply_formats_ipc_lines() {
    assert_eq!(ControlReply::Enabled(true).as_ipc_line(), "on");
    assert_eq!(ControlReply::Enabled(false).as_ipc_line(), "off");
    assert_eq!(ControlReply::Backend(InputBackend::Wayland).as_ipc_line(), "wayland");
    assert_eq!(ControlReply::Done("backend evdev".into()).as_ipc_line(), "ok backend evdev");
    assert_eq!(
        ControlReply::Error("backend ibus unavailable".into()).as_ipc_line(),
        "err backend ibus unavailable"
    );
}

#[test]
fn toggling_twice_changes_nothing() {
    let once = control_step(CmdKind::Toggle, true);
    assert!(!once.enabled && once.announce && !once.quit);
    assert_eq!(once.reply.as_ipc_line(), "off");
    assert!(control_step(CmdKind::Toggle, once.enabled).enabled);
}

#[test]
fn queries_change_nothing() {
    let s = control_step(CmdKind::Status, false);
    assert!(!s.enabled && !s.announce && !s.quit);
    assert_eq!(s.reply.enabled_value(), Some(false));
    let b = control_step(CmdKind::BackendStatus, true);
    assert_eq!(
        b.reply.as_ipc_line(),
        "err backend switching unavailable before supervisor starts"
    );
    assert_eq!(b.reply.enabled_value(), None);
    assert!(control_step(CmdKind::Quit, true).quit);
}
