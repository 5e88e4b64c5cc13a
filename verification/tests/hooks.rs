use std::collections::HashMap;

use daklak::config::Config;
use daklak::hooks::resolve::{
    hook_search_dirs, resolve_builtin_dir, resolve_hooks_in_dirs, Places,
};
use daklak::hooks::{
    check_script, recover_stale_rollback, rollback_marker, rollback_marker_path, run_cleanup_hooks,
    run_setup_hooks_inner, validate_hook_name, AppliedHooks,
    HookCommandRunner, HookError, HookFiles, HookSpec, RollbackMarkerFile, ScriptFault, ScriptMeta, SetupOutcome,
};

#[test]
fn hook_names_allow_safe_ascii() {
    assert!(validate_hook_name("sway").is_ok());
    assert!(validate_hook_name("kde-6").is_ok());
    assert!(validate_hook_name("x11_custom").is_ok());
}

#[test]
fn builtin_dir_runtime_env_overrides_compile_time() {
    let build = Some("/compile/libexec/daklak/hooks".to_owned());

    assert_eq!(
        resolve_builtin_dir(&Some("/run/libexec/daklak/hooks".to_owned()), &build),
        Some("/run/libexec/daklak/hooks".to_owned())
    );

    assert_eq!(
        resolve_builtin_dir(&Some(String::new()), &build),
        Some("/compile/libexec/daklak/hooks".to_owned())
    );

    assert_eq!(resolve_builtin_dir(&None, &None), None);
}

#[test]
fn hook_names_reject_paths_and_shell_syntax() {
    assert!(validate_hook_name("").is_err());
    assert!(validate_hook_name("../x11").is_err());
    assert!(validate_hook_name("foo/bar").is_err());
    assert!(validate_hook_name("foo;rm").is_err());
    assert!(validate_hook_name("foo bar").is_err());
}

#[test]
fn hook_file_policy_rejects_group_or_other_writable_scripts() {
    let meta = ScriptMeta { is_file: true, mode: 0o666, owner: 1000 };
    let err = check_script(&meta, 1000).unwrap_err();
    assert_eq!(err, ScriptFault::Writable);
    let message = err.message("/tmp/sway-set", 1000, 1000);
    assert!(message.contains("group/other writable"), "{message}");
}

#[test]
fn hook_file_policy_accepts_owner_private_script() {
    let meta = ScriptMeta { is_file: true, mode: 0o700, owner: 1000 };
    check_script(&meta, 1000).unwrap();
}

fn nothing() -> HookFiles {
    HookFiles { files: vec![], others: vec![] }
}

#[test]
fn resolves_hook_pairs_from_config_array() {
    let mut cfg = Config::default();
    cfg.evdev_grab_hooks = vec!["sway".into(), "kde".into()];
    let hooks =
        resolve_hooks_in_dirs(&cfg, &vec!["/tmp/daklak-hooks".to_owned()], &nothing()).unwrap();
    assert_eq!(hooks[0].set_path, "/tmp/daklak-hooks/sway-set");
    assert_eq!(hooks[0].unset_path, "/tmp/daklak-hooks/sway-unset");
    assert_eq!(hooks[1].set_path, "/tmp/daklak-hooks/kde-set");
    assert_eq!(hooks[1].unset_path, "/tmp/daklak-hooks/kde-unset");
}

#[test]
fn resolves_user_hooks_before_packaged_hooks() {
    let user_dir = "/r/config-hooks".to_owned();
    let packaged_dir = "/r/packaged-hooks".to_owned();
    let files = HookFiles {
        files: vec![
            format!("{user_dir}/sway-set"),
            format!("{user_dir}/sway-unset"),
            format!("{packaged_dir}/sway-set"),
            format!("{packaged_dir}/sway-unset"),
            format!("{packaged_dir}/kde-set"),
            format!("{packaged_dir}/kde-unset"),
        ],
        others: vec![],
    };

    let mut cfg = Config::default();
    cfg.evdev_grab_hooks = vec!["sway".into(), "kde".into()];
    let dirs = vec![user_dir.clone(), packaged_dir.clone()];
    let hooks = resolve_hooks_in_dirs(&cfg, &dirs, &files).unwrap();

    assert_eq!(hooks[0].set_path, format!("{user_dir}/sway-set"));
    assert_eq!(hooks[0].unset_path, format!("{user_dir}/sway-unset"));
    assert_eq!(hooks[1].set_path, format!("{packaged_dir}/kde-set"));
    assert_eq!(hooks[1].unset_path, format!("{packaged_dir}/kde-unset"));
}

#[test]
fn resolves_hook_from_first_dir_with_complete_pair_in_search_list() {
    let config = "/r/config".to_owned();
    let local = "/r/local-libexec".to_owned();
    let system = "/r/system-libexec".to_owned();
    let files = HookFiles {
        files: vec![
            format!("{local}/kde-set"),
            format!("{local}/kde-unset"),
            format!("{system}/x11-set"),
            format!("{system}/x11-unset"),
        ],
        others: vec![],
    };

    let mut cfg = Config::default();
    cfg.evdev_grab_hooks = vec!["kde".into(), "x11".into()];
    let dirs = vec![config.clone(), local.clone(), system.clone()];
    let hooks = resolve_hooks_in_dirs(&cfg, &dirs, &files).unwrap();

    assert_eq!(
        hooks[0].set_path,
        format!("{local}/kde-set"),
        "kde resolves from ~/.local dir"
    );
    assert_eq!(
        hooks[1].set_path,
        format!("{system}/x11-set"),
        "x11 resolves from /usr dir"
    );
}

struct FakeRunner {
    codes: HashMap<(String, String), i32>,
    calls: Vec<(String, String)>,
}

impl FakeRunner {
    fn new(codes: &[((&str, &str), i32)]) -> Self {
        Self {
            codes: codes
                .iter()
                .map(|((n, p), c)| ((n.to_string(), p.to_string()), *c))
                .collect(),
            calls: Vec::new(),
        }
    }
}

impl HookCommandRunner for FakeRunner {
    fn run(&mut self, _path: &str, phase: &str, name: &str) -> Result<i32, String> {
        self.calls.push((name.to_string(), phase.to_string()));
        Ok(*self
            .codes
            .get(&(name.to_string(), phase.to_string()))
            .unwrap_or(&0))
    }
}

fn hook(name: &str) -> HookSpec {
    HookSpec {
        name: name.into(),
        set_path: format!("/tmp/{name}-set"),
        unset_path: format!("/tmp/{name}-unset"),
    }
}

fn run_setup_hooks_without_file_checks_for_test(
    hooks: &Vec<HookSpec>,
    runner: &mut FakeRunner,
) -> Result<(AppliedHooks, Vec<SetupOutcome>), HookError> {
    run_setup_hooks_inner(hooks, &nothing(), runner, false)
}

#[test]
fn setup_records_applied_and_skipped_hooks() {
    let hooks = vec![hook("sway"), hook("kde")];
    let mut runner = FakeRunner::new(&[(("sway", "set"), 10), (("kde", "set"), 0)]);
    let (applied, outcomes) =
        run_setup_hooks_without_file_checks_for_test(&hooks, &mut runner).unwrap();
    assert_eq!(applied.names(), vec!["kde"]);
    assert_eq!(
        outcomes,
        vec![
            SetupOutcome::Skipped("sway".into()),
            SetupOutcome::Applied("kde".into())
        ]
    );
}

#[test]
fn missing_hook_scripts_are_skipped_not_fatal() {
    let hooks = vec![HookSpec {
        name: "ghost".into(),
        set_path: "/tmp/daklak-nonexistent-ghost-set".to_owned(),
        unset_path: "/tmp/daklak-nonexistent-ghost-unset".to_owned(),
    }];
    let mut runner = FakeRunner::new(&[]);
    let (applied, outcomes) =
        run_setup_hooks_inner(&hooks, &nothing(), &mut runner, true).unwrap();
    assert!(applied.is_empty(), "missing hook applies nothing");
    assert_eq!(outcomes, vec![SetupOutcome::Skipped("ghost".into())]);
    assert!(
        runner.calls.is_empty(),
        "missing hook script is never executed"
    );
}

#[test]
fn failure_cleans_already_applied_hooks_in_reverse_order() {
    let hooks = vec![hook("first"), hook("second"), hook("third")];
    let mut runner = FakeRunner::new(&[
        (("first", "set"), 0),
        (("second", "set"), 0),
        (("third", "set"), 2),
        (("second", "unset"), 0),
        (("first", "unset"), 0),
    ]);
    let err = run_setup_hooks_without_file_checks_for_test(&hooks, &mut runner).unwrap_err();
    assert!(err.message().contains("third"));
    assert_eq!(
        runner.calls,
        vec![
            ("first".into(), "set".into()),
            ("second".into(), "set".into()),
            ("third".into(), "set".into()),
            ("second".into(), "unset".into()),
            ("first".into(), "unset".into()),
        ]
    );
}

#[test]
fn cleanup_treats_skip_exit_as_success() {
    let applied = AppliedHooks {
        hooks: vec![hook("gnome")],
    };
    let mut runner = FakeRunner::new(&[(("gnome", "unset"), 10)]);

    run_cleanup_hooks(&applied, &mut runner).unwrap();

    assert_eq!(runner.calls, vec![("gnome".into(), "unset".into())]);
}

#[test]
fn errors_say_which_hook_failed() {
    let hooks = vec![hook("sway")];
    let mut runner = FakeRunner::new(&[(("sway", "set"), 3)]);
    let err = run_setup_hooks_without_file_checks_for_test(&hooks, &mut runner).unwrap_err();
    assert!(err.message().contains("set failed with exit code 3"), "{}", err.message());
    let mut runner = FakeRunner::new(&[(("sway", "unset"), -1)]);
    let err = run_cleanup_hooks(&AppliedHooks { hooks }, &mut runner).unwrap_err();
    assert!(err.message().contains("unset failed with exit code -1"), "{}", err.message());
    assert_eq!(
        validate_hook_name("").unwrap_err().message(),
        "evdev hook name must not be empty"
    );
    assert_eq!(
        validate_hook_name("a\"b").unwrap_err().message(),
        "evdev hook name \"a\\\"b\" must contain only ASCII letters, digits, '_' or '-'"
    );
}

#[test]
fn foreign_scripts_are_refused() {
    let foreign = ScriptMeta { is_file: true, mode: 0o755, owner: 7 };
    assert_eq!(check_script(&foreign, 1000), Err(ScriptFault::ForeignOwner));
    assert_eq!(
        ScriptFault::ForeignOwner.message("/h", 7, 1000),
        "hook /h owner uid 7 is neither daemon uid 1000 nor root"
    );
    let root = ScriptMeta { is_file: true, mode: 0o755, owner: 0 };
    assert_eq!(check_script(&root, 1000), Ok(()));
    let dir = ScriptMeta { is_file: false, mode: 0o755, owner: 1000 };
    assert_eq!(check_script(&dir, 1000), Err(ScriptFault::NotRegular));
}

#[test]
fn a_stale_rollback_is_undone() {
    assert_eq!(rollback_marker_path(&None), None);
    assert_eq!(
        rollback_marker_path(&Some("/run/user/1000".to_owned())),
        Some("/run/user/1000/daklak-evdev-hooks.json".to_owned())
    );
    let places = Places {
        config_home: Some("/c".to_owned()),
        home: Some("/home/u".to_owned()),
        override_dir: None,
        built_in: None,
    };
    let mut runner = FakeRunner::new(&[]);
    let marker = RollbackMarkerFile::Hooks(vec![hook("first"), hook("second")]);
    let r =
        recover_stale_rollback(&Config::default(), &places, &nothing(), Some(marker), &mut runner);
    assert!(r.result.is_ok() && r.clear_marker);
    assert_eq!(
        runner.calls,
        vec![("second".into(), "unset".into()), ("first".into(), "unset".into())]
    );
    let mut runner = FakeRunner::new(&[]);
    let marker = RollbackMarkerFile::Names(vec!["sway".to_owned()]);
    let mut cfg = Config::default();
    cfg.evdev_grab_hooks = vec!["kde".into(), "sway".into()];
    let r = recover_stale_rollback(&cfg, &places, &nothing(), Some(marker), &mut runner);
    assert!(r.result.is_ok() && r.clear_marker);
    assert_eq!(runner.calls, vec![("sway".into(), "unset".into())]);
}

#[test]
fn user_hooks_are_searched_first() {
    let places = Places {
        config_home: Some("/c".to_owned()),
        home: Some("/home/u".to_owned()),
        override_dir: None,
        built_in: Some("/opt/hooks".to_owned()),
    };
    let dirs = hook_search_dirs(&places);
    assert_eq!(dirs[0], "/c/daklak/hooks");
    assert_eq!(dirs[1], "/home/u/.local/libexec/daklak/hooks");
    assert_eq!(dirs[2], "/usr/libexec/daklak/hooks");
    assert!(dirs.contains(&"/opt/hooks".to_owned()));
}

fn no_places() -> Places {
    Places { config_home: None, home: None, override_dir: None, built_in: None }
}

#[test]
fn marked_hooks_are_undone_whatever_the_settings_list() {
    let applied = AppliedHooks { hooks: vec![hook("first"), hook("second")] };
    let mut cfg = Config::default();
    cfg.evdev_grab_hooks = vec!["other".into()];

    let mut runner = FakeRunner::new(&[(("second", "unset"), 10)]);
    let r = recover_stale_rollback(
        &cfg,
        &no_places(),
        &nothing(),
        rollback_marker(&applied),
        &mut runner,
    );
    assert!(r.result.is_ok() && r.clear_marker);
    assert_eq!(
        runner.calls,
        vec![("second".into(), "unset".into()), ("first".into(), "unset".into())]
    );

    let mut runner = FakeRunner::new(&[(("second", "unset"), 1)]);
    let r = recover_stale_rollback(
        &cfg,
        &no_places(),
        &nothing(),
        rollback_marker(&applied),
        &mut runner,
    );
    assert!(r.result.is_err() && !r.clear_marker, "the marker stays for the next start");
    assert_eq!(runner.calls.len(), 2, "every hook is tried");
}

#[test]
fn nothing_is_written_down_for_no_hooks() {
    assert!(rollback_marker(&AppliedHooks { hooks: vec![] }).is_none());
    let mut runner = FakeRunner::new(&[]);
    let r =
        recover_stale_rollback(&Config::default(), &no_places(), &nothing(), None, &mut runner);
    assert!(r.result.is_ok() && !r.clear_marker && runner.calls.is_empty());
}

#[test]
fn a_marker_holds_the_paths_of_its_hooks() {
    let applied = AppliedHooks { hooks: vec![hook("sway")] };
    match rollback_marker(&applied) {
        Some(RollbackMarkerFile::Hooks(v)) => {
            assert_eq!(v.len(), 1);
            assert_eq!(v[0].name, "sway");
            assert_eq!(v[0].set_path, "/tmp/sway-set");
            assert_eq!(v[0].unset_path, "/tmp/sway-unset");
        }
        _ => panic!("hooks are written down with their paths"),
    }
}
