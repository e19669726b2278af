use embark_oss::error::{cause_string, Report};

#[test]
fn cause_string_without_causes() {
    let error = Report::new("Project has been archived on GitHub");
    assert_eq!(
        cause_string(&error, false),
        "Project has been archived on GitHub\n"
    );
    assert_eq!(
        cause_string(&error, true),
        "    Project has been archived on GitHub\n"
    );
}

#[test]
fn cause_string_numbers_causes_from_zero() {
    let error = Report::new("Code owner `x` does not start with an @")
        .wrap_err("Unable to parse code owners for *")
        .wrap_err("Unable to determine maintainers");
    assert_eq!(
        cause_string(&error, true),
        "    Unable to determine maintainers\n    Caused by:\n        0: Unable to parse code owners for *\n        1: Code owner `x` does not start with an @\n"
    );
    assert_eq!(
        cause_string(&error, false),
        "Unable to determine maintainers\nCaused by:\n    0: Unable to parse code owners for *\n    1: Code owner `x` does not start with an @\n"
    );
}

#[test]
fn cause_string_with_many_causes() {
    let mut error = Report::new("cause");
    for _ in 0..11 {
        error = error.wrap_err("cause");
    }
    let text = cause_string(&error, false);
    assert!(text.starts_with("cause\nCaused by:\n    0: cause\n    1: cause\n"));
    assert!(text.ends_with("    9: cause\n    10: cause\n"));
    assert_eq!(text.lines().count(), 13);
}

#[test]
fn wrap_err_puts_the_message_in_front() {
    let error = Report::new("inner").wrap_err("middle").wrap_err("outer");
    assert_eq!(error.message, "outer");
    assert_eq!(error.causes, vec!["middle".to_string(), "inner".to_string()]);
    assert_eq!(error.to_string(), "outer");
}
