use daklak::backend::InputBackend;
use daklak::config::{Config, MethodConfig};
use daklak::control::{CmdKind, ConfigChange};
use daklak::tray::{discover_hook_names, evdev_toggle_label, DaklakTray, MenuEntry, Setting};

#[test]
fn evdev_toggle_label_mentions_grab_backend() {
    assert_eq!(evdev_toggle_label(false), "Enable evdev grab backend");
    assert_eq!(evdev_toggle_label(true), "Evdev grab backend active");
}

fn tray() -> DaklakTray {
    DaklakTray::new(&Config::default(), true, InputBackend::Wayland)
}

#[test]
fn the_menu_follows_the_settings() {
    let mut t = tray();
    t.evdev_grab_hooks = vec!["sway".to_owned()];
    let menu = t.menu(&Some(vec!["kde".to_owned(), "sway".to_owned()]));
    assert!(matches!(&menu[0], MenuEntry::Button { label, command: CmdKind::Disable } if label == "Off"));
    assert!(matches!(&menu[1], MenuEntry::Modes { selected: 0, options, .. } if options.len() == 3));
    assert!(matches!(&menu[2], MenuEntry::Check { checked: false, setting: Setting::LegacyTones, .. }));
    assert!(matches!(&menu[3], MenuEntry::Check { checked: false, setting: Setting::EvdevGrab, .. }));
    match &menu[4] {
        MenuEntry::Hooks { items, .. } => {
            assert_eq!((items[0].name.as_str(), items[0].checked), ("kde", false));
            assert_eq!((items[1].name.as_str(), items[1].checked), ("sway", true));
        }
        _ => panic!("hooks"),
    }
    assert!(matches!(&menu[5], MenuEntry::Button { command: CmdKind::Quit, .. }));
    assert_eq!(t.menu(&None).len(), 4);
}

#[test]
fn choices_take_effect_and_are_saved() {
    let mut t = tray();
    let e = t.select_mode(1);
    assert_eq!(e.change, Some(ConfigChange { method: MethodConfig::Vni, modern_style: true }));
    assert!(e.save);
    assert!(!t.select_mode(3).save);
    let e = t.toggle_legacy_tones();
    assert_eq!(e.change, Some(ConfigChange { method: MethodConfig::Vni, modern_style: false }));
    assert_eq!(t.saved_change().method, MethodConfig::Vni);
    assert!(!t.saved_change().modern_style);
}

#[test]
fn a_hook_toggled_twice_is_as_before() {
    let mut t = tray();
    t.toggle_evdev_hook("sway");
    assert_eq!(t.evdev_grab_hooks, vec!["sway"]);
    t.toggle_evdev_hook("sway");
    assert!(t.evdev_grab_hooks.is_empty());
}

#[test]
fn discover_hook_names_merges_builtins_and_user_pairs() {
    let entries: Vec<String> =
        ["sway-set", "sway-unset", "custom-set", "custom-unset", "partial-set"]
            .iter()
            .map(|s| s.to_string())
            .collect();
    let names = discover_hook_names(&entries, &entries);
    assert_eq!(names, vec!["custom", "gnome", "kde", "sway", "x11"]);
}

#[test]
fn the_icon_shows_the_state() {
    let t = tray();
    assert_eq!(t.id(), "daklak");
    assert!(t.title().contains("wayland") || !t.title().is_empty());
    let off = DaklakTray::new(&Config::default(), false, InputBackend::Wayland);
    assert_ne!(t.icon_name(), off.icon_name());
}
