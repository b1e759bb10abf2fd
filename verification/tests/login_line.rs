use cce_display_manager::protocol::{auth_success_line, parse_auth_success};

#[test]
fn auth_success_plain() {
    let got = parse_auth_success("AUTH_SUCCESS|lucas|startcce|true|hunter2");
    assert_eq!(
        got,
        Some(("lucas".into(), "startcce".into(), true, "hunter2".into()))
    );
}

#[test]
fn auth_success_password_with_pipes() {
    // The password is the last field and may contain the separator.
    let got = parse_auth_success("AUTH_SUCCESS|lucas|startcce|true|a|b|c");
    assert_eq!(
        got,
        Some(("lucas".into(), "startcce".into(), true, "a|b|c".into()))
    );
}

#[test]
fn auth_success_empty_password_fingerprint_path() {
    let got = parse_auth_success("AUTH_SUCCESS|lucas|startcce|true|");
    assert_eq!(
        got,
        Some(("lucas".into(), "startcce".into(), true, String::new()))
    );
}

#[test]
fn auth_success_malformed() {
    assert_eq!(parse_auth_success("AUTH_SUCCESS|lucas|startcce"), None);
    assert_eq!(parse_auth_success("AUTH_SUCCESS|"), None);
    assert_eq!(parse_auth_success("NOT_A_THING|x|y|z|w"), None);
}

/// The greeter's line and the daemon's parse agree, and a password is
/// carried exactly: spaces at either end, and the separator, intact.
#[test]
fn auth_success_round_trips_the_password_verbatim() {
    for pw in ["hunter2", " leading", "trailing ", "  both  ", "a|b", ""] {
        let line = auth_success_line("lucas", "startcce", true, pw);
        assert_eq!(
            parse_auth_success(&line),
            Some(("lucas".into(), "startcce".into(), true, pw.to_string())),
            "{pw:?}"
        );
    }
}

#[test]
fn auth_success_bad_bool_defaults_wayland() {
    let got = parse_auth_success("AUTH_SUCCESS|lucas|startcce|banana|pw");
    assert_eq!(got.map(|t| t.2), Some(true));
}

#[test]
fn login_line_is_written_field_by_field() {
    assert_eq!(
        auth_success_line("u", "startx --foo", false, " p|w "),
        "AUTH_SUCCESS|u|startx --foo|false| p|w "
    );
    assert_eq!(
        parse_auth_success("AUTH_SUCCESS|u|e|false|"),
        Some(("u".into(), "e".into(), false, String::new()))
    );
    assert_eq!(parse_auth_success("auth_success|u|e|true|p"), None);
    assert_eq!(parse_auth_success(""), None);
}
