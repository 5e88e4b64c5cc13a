use daklak::config::MethodConfig;
use daklak::settings_file::{config_example_candidates, find_first_table_pos, format_hooks_array, plan_save, replace_toml_value, SavePlan, TrayChange};

#[test]
fn replace_toml_value_skips_nested_key_with_boundary() {
    let mut text = String::from("method = \"telex\"\n\n[section]\nenable_evdev_grab = false\n");
    let boundary = find_first_table_pos(&text);

    assert!(!replace_toml_value(
        &mut text,
        "enable_evdev_grab",
        "true",
        boundary
    ));

    assert!(text.contains("[section]\nenable_evdev_grab = false"));
}

#[test]
fn replace_toml_value_updates_in_place() {
    let mut text = String::from("# comment\nmethod = \"telex\"\nmodern_style = true\n");
    assert!(replace_toml_value(&mut text, "method", "\"vni\"", None));
    assert!(replace_toml_value(&mut text, "modern_style", "false", None));
    assert_eq!(text, "# comment\nmethod = \"vni\"\nmodern_style = false\n");
}

#[test]
fn replace_toml_value_returns_false_for_missing_key() {
    let mut text = String::from("method = \"telex\"\n");
    assert!(!replace_toml_value(
        &mut text,
        "enable_evdev_grab",
        "true",
        None
    ));
    assert_eq!(text, "method = \"telex\"\n", "text unchanged");
}

#[test]
fn format_hooks_array_quotes_properly() {
    let hooks: Vec<String> = vec!["sway".into(), "x11".into()];
    let formatted = format_hooks_array(&hooks);
    assert_eq!(formatted, "[\"sway\", \"x11\"]");
}

#[test]
fn format_hooks_array_empty() {
    assert_eq!(format_hooks_array(&vec![]), "[]");
}

#[test]
fn find_first_table_pos_returns_none_for_flat_config() {
    let text = "method = \"telex\"\nmodern_style = true\n";
    assert_eq!(find_first_table_pos(text), None);
}

#[test]
fn find_first_table_pos_finds_table_header() {
    let text = "# header\nmethod = \"telex\"\n\n[section]\nkey = 1\n";
    let pos = find_first_table_pos(text).unwrap();
    assert!(pos > 0);
    assert_eq!(&text[pos..pos + 9], "[section]");
}

#[test]
fn find_first_table_pos_handles_trailing_comment() {
    let text = "method = \"telex\"\n\n[section] # my table\nkey = 1\n";
    let pos = find_first_table_pos(text).unwrap();
    assert_eq!(&text[pos..pos + 9], "[section]");

    assert!(text[pos..].contains("# my table"));
}

fn change(method: MethodConfig, modern_style: bool) -> TrayChange {
    TrayChange { method, modern_style, enable_evdev_grab: true }
}

fn written(plan: SavePlan) -> String {
    match plan {
        SavePlan::Write(text) => text,
        SavePlan::Generate(_) => panic!("the text can be edited"),
    }
}

#[test]
fn save_config_replaces_multiline_evdev_hooks_without_leftover_tail() {
    let old = "# keep this comment\nmethod = \"telex\"\nmodern_style = true\nenable_evdev_grab = true\nevdev_grab_hooks = [\n    \"gnome\",\n    \"kde\",\n    \"sway\",\n    \"x11\",\n]\n";
    let text = written(plan_save(old, &change(MethodConfig::Telex, true), &vec![]));
    assert!(text.contains("# keep this comment"), "comments preserved: {text}");
    assert!(text.contains("evdev_grab_hooks = []"));
    assert!(!text.contains("\"gnome\""), "old multiline array tail removed: {text}");
    let value: toml::Value = toml::from_str(&text).unwrap();
    assert!(value["evdev_grab_hooks"].as_array().unwrap().is_empty());
}

#[test]
fn save_config_appends_missing_enable_evdev_grab_key() {
    let old = "# My settings\nmethod = \"telex\"\nmodern_style = true\n";
    let text = written(plan_save(old, &change(MethodConfig::Vni, false), &vec![]));
    assert!(text.contains("# My settings"), "comments preserved");
    assert!(text.contains("enable_evdev_grab"), "missing key appended");
    let value: toml::Value = toml::from_str(&text).unwrap();
    assert_eq!(value["method"].as_str(), Some("vni"));
    assert_eq!(value["modern_style"].as_bool(), Some(false));
    assert_eq!(value["enable_evdev_grab"].as_bool(), Some(true));
}

#[test]
fn save_config_inserts_top_level_before_section_table() {
    let old = "method = \"telex\"\nmodern_style = true\n\n[section]\nenable_evdev_grab = false\n";
    let text = written(plan_save(old, &change(MethodConfig::Vni, false), &vec![]));
    assert!(
        text.contains("[section]\nenable_evdev_grab = false"),
        "nested enable_evdev_grab unchanged; output: {text}"
    );
    let top = text.split("[section]").next().unwrap();
    assert!(
        top.contains("enable_evdev_grab = true"),
        "top-level enable_evdev_grab inserted before [section]"
    );
    let _: toml::Value = toml::from_str(&text).unwrap();
}

#[test]
fn save_config_preserves_table_with_comment_on_header() {
    let old = "method = \"telex\"\n\n[section] # important section\nenable_evdev_grab = false\n";
    let text = written(plan_save(old, &change(MethodConfig::Vni, false), &vec![]));
    let top = text.split("[section]").next().unwrap();
    assert!(top.contains("enable_evdev_grab = true"));
    assert!(text.contains("enable_evdev_grab = false"));
    assert!(text.contains("# important section"));
}

#[test]
fn save_config_updates_evdev_hook_list() {
    let text = written(plan_save(
        "method = \"telex\"\n",
        &change(MethodConfig::Telex, true),
        &vec!["sway".into(), "x11".into()],
    ));
    let value: toml::Value = toml::from_str(&text).unwrap();
    let hooks = value["evdev_grab_hooks"].as_array().unwrap();
    assert_eq!(hooks[0].as_str(), Some("sway"));
    assert_eq!(hooks[1].as_str(), Some("x11"));
}

#[test]
fn a_broken_file_is_written_anew() {
    let hooks = vec!["sway".to_owned()];
    for text in ["method = = [", ""] {
        match plan_save(text, &change(MethodConfig::Vni, false), &hooks) {
            SavePlan::Generate(c) => {
                assert_eq!(c.method, MethodConfig::Vni);
                assert!(!c.modern_style && c.enable_evdev_grab && c.enable_wayland);
                assert_eq!(c.evdev_grab_hooks, hooks);
                assert_eq!((c.log_level.as_str(), c.log_path.as_str()), ("error", "/dev/stdout"));
                assert_eq!(c.config_path, None);
            }
            SavePlan::Write(text) => panic!("{text}"),
        }
    }
}

#[test]
fn tables_are_found_behind_any_line_end() {
    let text = "a = 1\r\n[t]\r\n";
    assert_eq!(find_first_table_pos(text), Some(7));
}

#[test]
fn examples_are_looked_for_below_home_first() {
    assert_eq!(
        config_example_candidates(&Some("/home/a".to_owned())),
        vec![
            "/home/a/.local/share/daklak/config.toml.example".to_owned(),
            "/usr/share/daklak/config.toml.example".to_owned(),
        ]
    );
    assert_eq!(
        config_example_candidates(&None),
        vec!["/usr/share/daklak/config.toml.example".to_owned()]
    );
}

#[test]
fn the_first_of_two_lines_for_a_key_is_changed() {
    let mut text = String::from("a = 1\na = 2\n");
    assert!(replace_toml_value(&mut text, "a", "9", None));
    assert_eq!(text, "a = 9\na = 2\n");
}
