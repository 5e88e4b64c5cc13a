use daklak::backend::{BackendTarget, InputBackend};
use daklak::cli::{help_text, invocation, unknown_subcommand, Invocation};
use daklak::control::CmdKind;
use daklak::focus::FocusEvent;
use daklak::focused_app::focused_app_info;
use daklak::ipc::parse_ipc_command;
use daklak::json::parse_json;
use daklak::keystrokes::{telex_context_from_surrounding, vni_context_from_surrounding};
use daklak::numbers::{pad_zeros, parse_u32, to_decimal, to_hex, to_signed_decimal};
use daklak::paths::{among, join, same};
use daklak::preflight::{
    check_input_access, check_or_notify, group_gid, is_event_device, require_active_group,
    DeviceEntry, PreflightChecks,
};
use daklak::strings::{split_lines, trim};

#[test]
fn names_of_targets_parse() {
    for t in [BackendTarget::Native, BackendTarget::Evdev, BackendTarget::Toggle] {
        assert_eq!(BackendTarget::parse(t.as_str()), Some(t));
    }
    assert_eq!(InputBackend::Ibus.as_str(), "ibus");
    assert_eq!(BackendTarget::parse(InputBackend::Ibus.as_str()), None);
}

fn args(rest: &[&str]) -> Vec<String> {
    let mut v = vec!["daklak".to_owned()];
    v.extend(rest.iter().map(|s| s.to_string()));
    v
}

#[test]
fn the_command_line_says_what_to_do() {
    assert!(matches!(invocation(&args(&[])), Invocation::Daemon { ibus: false }));
    assert!(matches!(invocation(&args(&["--ibus"])), Invocation::Daemon { ibus: true }));
    assert!(matches!(invocation(&args(&["toggle"])), Invocation::Control(CmdKind::Toggle)));
    assert!(matches!(invocation(&args(&["status"])), Invocation::Control(CmdKind::Status)));
    assert!(matches!(invocation(&args(&["gen-keymap"])), Invocation::GenKeymap));
    assert!(matches!(invocation(&args(&["-h"])), Invocation::Help));
    assert!(matches!(invocation(&args(&["dance"])), Invocation::Unknown(s) if s == "dance"));
    assert_eq!(unknown_subcommand("da\"nce"), "daklak: unknown subcommand \"da\\\"nce\"\n");
    assert!(help_text().starts_with("Usage: daklak [SUBCOMMAND]\n\nSubcommands:\n"));
}

#[test]
fn the_backend_can_be_asked_for_and_switched() {
    let cases = [
        (args(&["backend"]), CmdKind::BackendStatus),
        (args(&["backend", "native"]), CmdKind::SetBackend(BackendTarget::Native)),
        (args(&["backend", "evdev"]), CmdKind::SetBackend(BackendTarget::Evdev)),
        (args(&["backend", "toggle"]), CmdKind::SetBackend(BackendTarget::Toggle)),
    ];
    for (given, wanted) in cases {
        match invocation(&given) {
            Invocation::Backend(line) => assert_eq!(parse_ipc_command(&line), Ok(wanted)),
            other => panic!("{other:?}"),
        }
    }
}

#[test]
fn no_focus_is_the_default() {
    assert_eq!(FocusEvent::default(), FocusEvent { app_id: None, is_xwayland: false });
}

fn bytes(s: &str) -> Vec<u8> {
    s.as_bytes().to_vec()
}

#[test]
fn the_focused_window_is_found() {
    let tree = r#"{"nodes": [{"focused": false, "nodes": [{"focused": 1}]},
        {"nodes": [], "floating_nodes": [{"focused": true, "app_id": "foot", "name": "sh"}]},
        {"focused": true, "app_id": "late"}]}"#;
    assert_eq!(
        focused_app_info(&bytes(tree)),
        Some(("foot".to_owned(), "sh".to_owned()))
    );
    let tree = r#"{"focused": true, "app_id": null}"#;
    assert_eq!(focused_app_info(&bytes(tree)), Some((String::new(), String::new())));
    assert_eq!(focused_app_info(&bytes("{}")), None);
    assert_eq!(focused_app_info(&bytes("{\"focused\": ")), None);
}

#[test]
fn members_are_found_by_name() {
    let j = parse_json(&bytes(r#"{"a": [1, 2.5, "x"], "b": true}"#)).unwrap();
    assert!(j.get("b").unwrap().is_true());
    assert!(!j.get("a").unwrap().is_true());
    assert!(j.get("c").is_none());
    assert!(parse_json(&bytes("[")).is_none());
}

#[test]
fn texts_become_keys() {
    let (keys, widths) = telex_context_from_surrounding("ơiời");
    assert_eq!(keys, "owiowfi");
    assert_eq!(widths, vec![2, 1, 3, 1]);
    assert_eq!(vni_context_from_surrounding("tiê").0, "tie6");
    assert_eq!(telex_context_from_surrounding("hello").0, "hello");
}

#[test]
fn numbers_are_printed_and_read() {
    for n in [0u32, 7, 10, 4096, u32::MAX] {
        assert_eq!(to_decimal(n as u64), n.to_string());
        assert_eq!(parse_u32(&to_decimal(n as u64)), Some(n));
        assert_eq!(to_hex(n), format!("{n:X}"));
    }
    assert_eq!(parse_u32("4294967296"), None);
    assert_eq!(parse_u32(""), None);
    assert_eq!(parse_u32("x"), None);
    assert_eq!(to_signed_decimal(-12), "-12");
    assert_eq!(to_signed_decimal(i32::MIN), i32::MIN.to_string());
    assert_eq!(pad_zeros("E0", 4), "00E0");
}

#[test]
fn paths_are_compared_name_by_name() {
    assert_eq!(join("/a", "b"), "/a/b");
    assert_eq!(join("/a/", "b"), "/a/b");
    assert!(same("/a//b/", "/a/./b"));
    assert!(!same("/a/b", "a/b"));
    assert!(among("/a/b", &vec!["/x".to_owned(), "/a//b".to_owned()]));
}

#[test]
fn texts_are_cut() {
    assert_eq!(split_lines("a\r\nb\n\nc"), vec!["a", "b", "", "c"]);
    assert!(split_lines("").is_empty());
    assert_eq!(trim(" \t x y \n"), "x y");
}

const GROUPS: &str = "root:x:0:\nuucp:x:14:u\ninput:x:104:u,v\nbroken\nuinput:x:x:\n";

#[test]
fn groups_are_looked_up() {
    assert_eq!(group_gid(GROUPS, "input"), Some(104));
    assert_eq!(group_gid(GROUPS, "uinput"), None);
    assert_eq!(group_gid(GROUPS, "none"), None);
    assert_eq!(require_active_group("input", Some(104), &vec![1, 104]), Ok(()));
    assert_eq!(
        require_active_group("input", Some(104), &vec![1]),
        Err("current process is not in group \"input\"".to_owned())
    );
    assert_eq!(
        require_active_group("uinput", None, &vec![1]),
        Err("group \"uinput\" does not exist".to_owned())
    );
}

#[test]
fn event_name_filter_matches_kernel_event_devices() {
    assert!(is_event_device("event0"));
    assert!(!is_event_device("mouse0"));
}

fn entry(name: &str, readable: bool) -> DeviceEntry {
    DeviceEntry { name: name.to_owned(), readable }
}

#[test]
fn some_keyboard_must_be_readable() {
    assert_eq!(check_input_access(&vec![entry("mouse0", true), entry("event1", true)]), Ok(()));
    assert_eq!(
        check_input_access(&vec![entry("event1", false)]),
        Err("no readable /dev/input/event* device found".to_owned())
    );
    assert_eq!(
        check_input_access(&vec![]),
        Err("no /dev/input/event* devices found".to_owned())
    );
}

#[test]
fn problems_are_reported_together() {
    let checks = PreflightChecks {
        input_group: Err("a".to_owned()),
        uinput_group: Ok(()),
        uinput_access: Err("b".to_owned()),
        input_access: Ok(()),
    };
    let (result, notice) = check_or_notify(checks);
    let report = "evdev grab preflight failed: a; b. Add your user to input and uinput, ensure /dev/uinput exists, then log out/in.";
    assert_eq!(result, Err(report.to_owned()));
    assert_eq!(
        notice,
        Some(format!(
            "{report}\n\nTry: sudo usermod -aG input,uinput $USER; then log out and back in."
        ))
    );
    let fine = PreflightChecks {
        input_group: Ok(()),
        uinput_group: Ok(()),
        uinput_access: Ok(()),
        input_access: Ok(()),
    };
    assert_eq!(check_or_notify(fine), (Ok(()), None));
}
