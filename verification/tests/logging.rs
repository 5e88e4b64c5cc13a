use daklak::logging::{build_directives, log_target, normalize_directive, normalize_level, LogError, LogTarget};

#[test]
fn builds_directives_from_default_level_and_modules() {
    let s = build_directives(
        "error",
        &vec!["daklak=debug".to_owned(), "viet_ime_wayland_adapter=info".to_owned()],
    )
    .unwrap();
    assert_eq!(s, "error,daklak=trace,viet_ime_wayland_adapter=info");
}

#[test]
fn debug_maps_to_trace() {
    let s = build_directives("debug", &vec!["daklak=debug".to_owned()]).unwrap();
    assert_eq!(s, "trace,daklak=trace");
}

#[test]
fn rejects_bad_levels() {
    assert!(build_directives("warn", &vec![]).is_err());
    assert!(build_directives("trace", &vec![]).is_err());
    assert!(build_directives("error", &vec!["daklak=warn".to_owned()]).is_err());
    assert!(build_directives("error", &vec!["daklak=trace".to_owned()]).is_err());
}

#[test]
fn errors_name_their_cause() {
    assert!(matches!(normalize_level("loud"), Err(LogError::Level(s)) if s == "loud"));
    assert!(matches!(normalize_directive("daklak"), Err(LogError::Directive(s)) if s == "daklak"));
    assert!(matches!(normalize_directive("=info"), Err(LogError::EmptyTarget(_))));
    assert!(matches!(normalize_directive("  "), Ok(s) if s.is_empty()));
    assert!(matches!(normalize_directive(" a = Info "), Ok(s) if s == "a=info"));
}

#[test]
fn standard_output_is_no_file() {
    assert_eq!(log_target("/dev/stdout"), LogTarget::Stdout);
    assert_eq!(log_target("/tmp/daklak.log"), LogTarget::File);
}

#[test]
fn refusals_say_what_is_wanted() {
    assert_eq!(
        LogError::Level("lo\"ud".to_owned()).message(),
        "invalid log level \"lo\\\"ud\"; use error, info, or debug"
    );
    assert_eq!(
        LogError::Directive("daklak".to_owned()).message(),
        "invalid log directive \"daklak\"; use target=level"
    );
    assert_eq!(
        LogError::EmptyTarget("=info".to_owned()).message(),
        "invalid log directive \"=info\"; target is empty"
    );
}
