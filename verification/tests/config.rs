use daklak::config::{default_config_path, is_truthy, parse_directive_list, Config, EnvOverrides, LoadFault, MethodConfig};
use daklak::engine::InputMethod;

#[test]
fn parse_directive_list_trims_and_preserves_case() {
    let r = parse_directive_list("  daklak=Debug , viet_ime=info  ,,");
    assert_eq!(r, vec!["daklak=Debug", "viet_ime=info"]);
}

fn unset() -> EnvOverrides {
    EnvOverrides {
        method: None,
        enable_wayland: None,
        log_level: None,
        log_path: None,
        log_modules: None,
        enable_evdev_grab: None,
        bracket_shortcuts: None,
        modern_style: None,
        enable_ibus: None,
    }
}

#[test]
fn defaults() {
    let c = Config::load(None, &unset());
    assert_eq!(c.method, MethodConfig::Telex);
    assert_eq!(c.method.to_engine(), InputMethod::Telex);
    assert!(c.enable_wayland && c.modern_style);
    assert!(!c.enable_evdev_grab && !c.bracket_shortcuts && !c.enable_ibus);
    assert_eq!(c.log_level, "error");
    assert_eq!(c.log_path, "/dev/stdout");
    assert!(c.log_modules.is_empty() && c.evdev_grab_hooks.is_empty());
}

#[test]
fn the_environment_overrides_the_file() {
    let mut env = unset();
    env.method = Some("VNI".to_owned());
    env.enable_wayland = Some("no".to_owned());
    env.modern_style = Some("1".to_owned());
    env.log_modules = Some("daklak=debug".to_owned());
    let mut file = Config::default();
    file.modern_style = false;
    file.log_level = "info".to_owned();
    let c = Config::load(Some(file), &env);
    assert_eq!(c.method, MethodConfig::Vni);
    assert!(!c.enable_wayland && c.modern_style);
    assert_eq!(c.log_level, "info");
    assert_eq!(c.log_modules, vec!["daklak=debug"]);
}

#[test]
fn truthy_words() {
    for word in ["1", "true", " YES ", "on"] {
        assert!(is_truthy(word), "{word}");
    }
    for word in ["0", "false", "", "2"] {
        assert!(!is_truthy(word), "{word}");
    }
}

#[test]
fn a_file_that_was_named_must_be_readable() {
    let path = Some("/tmp/x.toml".to_owned());
    let missing = Err(LoadFault::Unreadable);
    let err = Config::load_from(path.clone(), missing, &unset()).unwrap_err();
    assert_eq!(err, "failed to read config file /tmp/x.toml");
    let broken = Err(LoadFault::Invalid);
    let err = Config::load_from(path.clone(), broken, &unset()).unwrap_err();
    assert_eq!(err, "failed to parse config file /tmp/x.toml");
    let c = Config::load_from(None, Err(LoadFault::Invalid), &unset()).unwrap();
    assert_eq!((c.method, c.config_path), (MethodConfig::Telex, None));
    let mut file = Config::default();
    file.method = MethodConfig::Vni;
    let c = Config::load_from(path.clone(), Ok(file), &unset()).unwrap();
    assert_eq!(c.method, MethodConfig::Vni);
    assert_eq!(c.config_path, path);
}

#[test]
fn default_config_path_prefers_the_settings_directory() {
    let home = Some("/home/a".to_owned());
    assert_eq!(
        default_config_path(&Some("/cfg".to_owned()), &home),
        Some("/cfg/daklak/config.toml".to_owned())
    );
    assert_eq!(
        default_config_path(&None, &home),
        Some("/home/a/.config/daklak/config.toml".to_owned())
    );
    assert_eq!(default_config_path(&None, &None), None);
}
