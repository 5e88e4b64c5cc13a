use daklak::backend::{BackendTarget, InputBackend};
use daklak::config::Config;

#[test]
fn parses_backend_targets_and_rejects_direct_native_backend_names() {
    assert_eq!(BackendTarget::parse("native"), Some(BackendTarget::Native));
    assert_eq!(BackendTarget::parse("auto"), Some(BackendTarget::Native));
    assert_eq!(
        BackendTarget::parse("evdev-grab"),
        Some(BackendTarget::Evdev)
    );
    assert_eq!(BackendTarget::parse("toggle"), Some(BackendTarget::Toggle));
    assert_eq!(BackendTarget::parse("ibus"), None);
    assert_eq!(BackendTarget::parse("wayland"), None);
}

#[test]
fn startup_honors_evdev_enabled_over_wayland() {
    let mut cfg = Config::default();
    cfg.enable_wayland = true;
    cfg.enable_evdev_grab = true;
    assert_eq!(InputBackend::startup_from_config(&cfg), InputBackend::Evdev);
}

#[test]
fn startup_falls_back_to_evdev_when_no_native() {
    let mut cfg = Config::default();
    cfg.enable_wayland = false;
    cfg.enable_evdev_grab = true;
    assert_eq!(InputBackend::startup_from_config(&cfg), InputBackend::Evdev);
}

#[test]
fn native_config_prefers_ibus_over_wayland() {
    let mut cfg = Config::default();
    cfg.enable_wayland = true;
    cfg.ibus_requested = true;
    assert_eq!(InputBackend::native_from_config(&cfg), InputBackend::Ibus);
    assert_eq!(
        InputBackend::native_at_build(&cfg, false),
        InputBackend::Wayland
    );
}

#[test]
fn matrix_ibus_x_wayland_x_evdev_x() {
    let mut cfg = Config::default();
    cfg.ibus_requested = true;
    cfg.enable_wayland = true;
    cfg.enable_evdev_grab = true;
    assert_eq!(
        InputBackend::startup_from_config(&cfg),
        InputBackend::Ibus,
        "with --ibus, ibus is the startup backend"
    );
    assert_eq!(
        InputBackend::startup_at_build(&cfg, false),
        InputBackend::Evdev,
        "without ibus feature, enable_evdev_grab makes evdev active"
    );
}

#[test]
fn matrix_ibus_dash_wayland_dash_evdev_x() {
    let mut cfg = Config::default();
    cfg.enable_wayland = false;
    cfg.enable_evdev_grab = true;
    assert_eq!(InputBackend::startup_from_config(&cfg), InputBackend::Evdev);
}

#[test]
fn matrix_ibus_x_wayland_dash_evdev_dash() {
    let mut cfg = Config::default();
    cfg.enable_wayland = false;
    cfg.ibus_requested = true;
    cfg.enable_evdev_grab = false;
    assert_eq!(InputBackend::startup_from_config(&cfg), InputBackend::Ibus);
    assert_eq!(
        InputBackend::startup_at_build(&cfg, false),
        InputBackend::Auto,
        "no ibus feature + no wayland + no evdev → Auto (error)"
    );
}

#[test]
fn matrix_ibus_x_wayland_dash_evdev_x() {
    let mut cfg = Config::default();
    cfg.enable_wayland = false;
    cfg.ibus_requested = true;
    cfg.enable_evdev_grab = true;
    assert_eq!(InputBackend::startup_from_config(&cfg), InputBackend::Ibus);
    assert_eq!(
        InputBackend::startup_at_build(&cfg, false),
        InputBackend::Evdev,
        "no ibus feature: falls back to evdev"
    );
}

#[test]
fn matrix_ibus_dash_wayland_x_evdev_dash() {
    let mut cfg = Config::default();
    cfg.ibus_requested = false;
    cfg.enable_wayland = true;
    cfg.enable_evdev_grab = false;
    assert_eq!(
        InputBackend::startup_from_config(&cfg),
        InputBackend::Wayland
    );
}

#[test]
fn matrix_ibus_dash_wayland_x_evdev_x() {
    let mut cfg = Config::default();
    cfg.ibus_requested = false;
    cfg.enable_wayland = true;
    cfg.enable_evdev_grab = true;
    assert_eq!(
        InputBackend::startup_from_config(&cfg),
        InputBackend::Evdev,
        "config enable_evdev_grab=true makes evdev active on startup"
    );
}
