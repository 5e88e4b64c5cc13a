use daklak::backend::BackendTarget;
use daklak::control::CmdKind;
use daklak::ipc::{
    accept_retry_delay, classify_connection_join, error_line, parse_ipc_command, socket_path,
    validate_peer_uid, ConnectionEnd, LineReader, LineStep, TaskDisposition, MAX_IPC_LINE_BYTES,
};

#[test]
fn parses_existing_commands() {
    assert!(matches!(parse_ipc_command("toggle"), Ok(CmdKind::Toggle)));
    assert!(matches!(parse_ipc_command("enable"), Ok(CmdKind::Enable)));
    assert!(matches!(parse_ipc_command("disable"), Ok(CmdKind::Disable)));
    assert!(matches!(parse_ipc_command("status"), Ok(CmdKind::Status)));
    assert!(matches!(parse_ipc_command("quit"), Ok(CmdKind::Quit)));
}

#[test]
fn parses_backend_commands() {
    assert!(matches!(parse_ipc_command("backend"), Ok(CmdKind::BackendStatus)));
    assert!(matches!(
        parse_ipc_command("backend evdev"),
        Ok(CmdKind::SetBackend(BackendTarget::Evdev))
    ));
    assert!(matches!(
        parse_ipc_command("backend native"),
        Ok(CmdKind::SetBackend(BackendTarget::Native))
    ));
    assert!(matches!(
        parse_ipc_command("backend auto"),
        Ok(CmdKind::SetBackend(BackendTarget::Native))
    ));
    assert!(matches!(
        parse_ipc_command("backend toggle"),
        Ok(CmdKind::SetBackend(BackendTarget::Toggle))
    ));
}

#[test]
fn rejects_direct_ibus_wayland_backend_switches() {
    assert_eq!(
        parse_ipc_command("backend ibus"),
        Err("direct ibus switching is not supported; use native, evdev, or toggle".to_owned())
    );
    assert_eq!(
        parse_ipc_command("backend wayland"),
        Err("direct wayland switching is not supported; use native, evdev, or toggle".to_owned())
    );
}

#[test]
fn rejects_bad_backend_commands() {
    assert_eq!(parse_ipc_command("backend potato"), Err("unknown backend: potato".to_owned()));
    assert_eq!(
        parse_ipc_command("backend evdev extra"),
        Err("backend takes at most one argument".to_owned())
    );
}

#[test]
fn validate_peer_uid_rejects_other_users() {
    let current: u32 = 1000;
    let other: u32 = if current == 0 { 1 } else { 0 };
    let err = validate_peer_uid(other, current).unwrap_err();
    assert_eq!(err, "IPC peer uid 0 does not match daemon uid 1000");
}

#[test]
fn validate_peer_uid_accepts_current_user() {
    let current: u32 = 1000;
    validate_peer_uid(current, current).unwrap();
}

#[test]
fn other_commands_are_refused() {
    assert_eq!(parse_ipc_command("  "), Err("empty command".to_owned()));
    assert_eq!(parse_ipc_command("Dance"), Err("unknown command: dance".to_owned()));
    assert!(matches!(parse_ipc_command(" STATUS \n"), Ok(CmdKind::Status)));
}

fn feed(bytes: &[u8]) -> (LineReader, LineStep) {
    let mut l = LineReader::new();
    let mut step = LineStep::More;
    for b in bytes {
        step = l.push(*b);
        if step != LineStep::More {
            break;
        }
    }
    (l, step)
}

#[test]
fn lines_are_read_up_to_the_newline() {
    let (l, step) = feed("trạng thái\nmore".as_bytes());
    assert_eq!(step, LineStep::Complete);
    assert_eq!(l.finish(), Ok("trạng thái\n".to_owned()));
    let (l, step) = feed(b"\xff\n");
    assert_eq!(step, LineStep::Complete);
    assert_eq!(l.finish(), Err("command must be UTF-8".to_owned()));
    let (l, step) = feed(b"stat");
    assert_eq!(step, LineStep::More);
    assert_eq!(l.end_of_input(), "command missing newline");
    assert_eq!(LineReader::new().end_of_input(), "empty command");
    let long = vec![b'x'; MAX_IPC_LINE_BYTES + 1];
    let (_, step) = feed(&long);
    assert_eq!(step, LineStep::TooLong);
    assert_eq!(LineReader::too_long(), "command too long (max 4096 bytes)");
    assert_eq!(error_line("empty command"), "err empty command\n");
}

#[test]
fn connections_end_in_their_own_ways() {
    assert_eq!(classify_connection_join(ConnectionEnd::Finished), TaskDisposition::Continue);
    assert_eq!(classify_connection_join(ConnectionEnd::Failed), TaskDisposition::Continue);
    assert_eq!(classify_connection_join(ConnectionEnd::Panicked), TaskDisposition::Continue);
    assert_eq!(classify_connection_join(ConnectionEnd::Cancelled), TaskDisposition::Shutdown);
    assert_eq!(accept_retry_delay(0), Some(100));
    assert_eq!(accept_retry_delay(1), Some(500));
    assert_eq!(accept_retry_delay(2), None);
    assert_eq!(
        socket_path(&Some("/run/user/1000".to_owned())),
        Some("/run/user/1000/daklak.sock".to_owned())
    );
    assert_eq!(socket_path(&None), None);
}
