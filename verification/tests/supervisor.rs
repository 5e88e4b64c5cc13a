use daklak::backend::{BackendTarget, InputBackend};
use daklak::config::Config;
use daklak::control::CmdKind;
use daklak::supervisor::{
    backend_supported_at_build, BackendFault, BuildSupport, CmdStep, GrabRun, GrabStep, NextStep,
    PendingAction, Supervisor,
};

const ALL: BuildSupport = BuildSupport { ibus: true, evdev_grab: true };

#[test]
fn native_resolves_from_config_even_when_evdev_startup_is_enabled() {
    let mut cfg = Config::default();
    cfg.enable_wayland = true;
    cfg.enable_evdev_grab = true;
    let s = Supervisor::new(cfg, true, InputBackend::Auto, ALL);
    assert_eq!(
        s.resolve_target(BackendTarget::Native).unwrap(),
        InputBackend::Wayland
    );
}

#[test]
fn toggle_resolves_opposite_current_backend() {
    let mut cfg = Config::default();
    cfg.enable_wayland = true;
    let s = Supervisor::new(cfg, true, InputBackend::Wayland, ALL);
    assert_eq!(
        s.resolve_target(BackendTarget::Toggle).unwrap(),
        InputBackend::Evdev
    );

    let mut cfg = Config::default();
    cfg.enable_wayland = true;
    let s = Supervisor::new(cfg, true, InputBackend::Evdev, ALL);
    assert_eq!(
        s.resolve_target(BackendTarget::Toggle).unwrap(),
        InputBackend::Wayland
    );
}

#[test]
fn switching_to_grabbed_keyboards_is_checked_first() {
    let mut s = Supervisor::new(Config::default(), true, InputBackend::Wayland, ALL);
    assert!(matches!(
        s.handle_cmd(CmdKind::SetBackend(BackendTarget::Evdev)),
        CmdStep::CheckGrab
    ));
    assert_eq!(s.pending_action, None);
    let refused = s.finish_grab_switch(Err("no keyboards".to_owned()));
    assert_eq!(refused.as_ipc_line(), "err backend evdev unavailable: no keyboards");
    assert_eq!(s.pending_action, None);
    let granted = s.finish_grab_switch(Ok(()));
    assert_eq!(granted.as_ipc_line(), "ok backend evdev");
    assert_eq!(s.pending_action, Some(PendingAction::SwitchTo(InputBackend::Evdev)));
    assert!(s.must_stop());
    assert_eq!(s.after_stop(InputBackend::Wayland, false), NextStep::Run(InputBackend::Evdev));
}

#[test]
fn commands_are_answered() {
    let mut s = Supervisor::new(Config::default(), true, InputBackend::Wayland, ALL);
    match s.handle_cmd(CmdKind::Toggle) {
        CmdStep::Reply { reply, announce } => {
            assert_eq!(reply.as_ipc_line(), "off");
            assert_eq!(announce, Some(false));
        }
        CmdStep::CheckGrab => panic!("no grab"),
    }
    match s.handle_cmd(CmdKind::BackendStatus) {
        CmdStep::Reply { reply, announce } => {
            assert_eq!(reply.as_ipc_line(), "wayland");
            assert_eq!(announce, None);
        }
        CmdStep::CheckGrab => panic!("no grab"),
    }
    match s.handle_cmd(CmdKind::SetBackend(BackendTarget::Native)) {
        CmdStep::Reply { reply, .. } => assert_eq!(reply.as_ipc_line(), "ok backend wayland"),
        CmdStep::CheckGrab => panic!("no grab"),
    }
    s.handle_cmd(CmdKind::Quit);
    assert_eq!(s.pending_action, Some(PendingAction::Quit));
    assert_eq!(s.after_stop(InputBackend::Wayland, false), NextStep::Exit);
}

#[test]
fn failed_grab_falls_back_to_the_native_backend() {
    let mut s = Supervisor::new(Config::default(), true, InputBackend::Evdev, ALL);
    assert_eq!(s.after_stop(InputBackend::Evdev, true), NextStep::Run(InputBackend::Wayland));
    assert_eq!(s.after_stop(InputBackend::Evdev, false), NextStep::Finish);
    let mut cfg = Config::default();
    cfg.enable_wayland = false;
    let mut s = Supervisor::new(cfg, true, InputBackend::Evdev, ALL);
    assert_eq!(s.after_stop(InputBackend::Evdev, true), NextStep::Finish);
}

#[test]
fn faults_name_what_is_missing() {
    let mut cfg = Config::default();
    cfg.enable_wayland = false;
    let mut s = Supervisor::new(cfg, true, InputBackend::Auto, ALL);
    assert_eq!(s.start(), Err(BackendFault::NoneEnabled));
    assert_eq!(s.resolve_target(BackendTarget::Native), Err(BackendFault::NoNative));
    let bare = BuildSupport { ibus: false, evdev_grab: false };
    assert_eq!(
        backend_supported_at_build(InputBackend::Ibus, bare),
        Err(BackendFault::IbusNotBuilt)
    );
    assert_eq!(
        backend_supported_at_build(InputBackend::Evdev, bare),
        Err(BackendFault::EvdevNotBuilt)
    );
    assert_eq!(backend_supported_at_build(InputBackend::Wayland, bare), Ok(()));
    assert_eq!(BackendFault::NoNative.message(), "no configured native backend available");
    assert_eq!(BackendFault::IbusNotBuilt.message(), "ibus support was not compiled in");
    assert_eq!(BackendFault::EvdevNotBuilt.message(), "evdev_grab support was not compiled in");
    assert_eq!(
        BackendFault::NoneEnabled.message(),
        "no input backend enabled; set enable_wayland=true or enable_evdev_grab=true"
    );
}

#[test]
fn hooks_are_undone_after_the_keyboards() {
    let mut g = GrabRun::new();
    assert!(matches!(g.hooks_ready(Ok(())), GrabStep::Wait));
    assert!(matches!(g.keyboards_ended(Ok(())), GrabStep::Undo));
    assert_eq!(g.hooks_undone(Err("undo".to_owned())), Err("undo".to_owned()));

    let mut g = GrabRun::new();
    assert!(matches!(g.keyboards_ended(Err("gone".to_owned())), GrabStep::AwaitHooks));
    assert!(matches!(g.hooks_ready(Ok(())), GrabStep::Undo));
    assert_eq!(g.hooks_undone(Err("undo".to_owned())), Err("gone".to_owned()));

    let mut g = GrabRun::new();
    match g.hooks_ready(Err("bad".to_owned())) {
        GrabStep::Finish(r) => assert_eq!(r, Err("bad".to_owned())),
        _ => panic!("a failed setup ends the run"),
    }
}

#[test]
fn a_build_without_ibus_takes_another_backend() {
    let bare = BuildSupport { ibus: false, evdev_grab: true };
    let mut cfg = Config::default();
    cfg.ibus_requested = true;
    let mut s = Supervisor::new(cfg, true, InputBackend::Auto, bare);
    assert_eq!(s.start(), Ok(InputBackend::Wayland));
    assert_eq!(s.resolve_target(BackendTarget::Native), Ok(InputBackend::Wayland));
    assert_eq!(s.after_stop(InputBackend::Evdev, true), NextStep::Run(InputBackend::Wayland));

    let mut cfg = Config::default();
    cfg.ibus_requested = true;
    cfg.enable_evdev_grab = true;
    let mut s = Supervisor::new(cfg, true, InputBackend::Auto, bare);
    assert_eq!(s.start(), Ok(InputBackend::Evdev));
    assert_eq!(s.pending_action, None);
}
