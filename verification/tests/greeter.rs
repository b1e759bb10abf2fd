use cce_display_manager::greeter::{
    fprint_autostart_recently, initial_username, is_fprint_enabled, status_color, Answers,
    AuthStart, AutoStart, EventOutcome, Focus, Key, KeyInput, KeyOutcome, Root, Routing, Startup,
    State,
};
use cce_display_manager::helper::{fprint_failure_text, AuthEvent};
use cce_display_manager::protocol::parse_auth_success;
use cce_display_manager::session::Session;

fn session(name: &str, command: &str, is_wayland: bool) -> Session {
    Session { name: name.to_string(), command: command.to_string(), is_wayland }
}

fn startup(user: &str) -> Startup {
    Startup {
        last_user: Some(Some(format!("{user}\n"))),
        env_user: None,
        sessions: vec![session("cce", "startcce", true), session("Xfce", "startxfce4", false)],
        last_session: Some(Some("startxfce4\n".to_string())),
        fprint_enabled: false,
        autostarted_recently: false,
    }
}

fn idle(user: &str) -> State {
    State::new(startup(user)).0
}

fn press(key: Key) -> KeyInput {
    KeyInput { key, ctrl: false, pressed: true }
}

fn ctrl(letter: &str) -> KeyInput {
    KeyInput { key: Key::Character(letter.to_string()), ctrl: true, pressed: true }
}

fn typed(letter: &str) -> KeyInput {
    press(Key::Character(letter.to_string()))
}

#[test]
fn the_greeter_starts_with_the_last_user_and_session() {
    let (s, auto) = State::new(startup("lucas"));
    assert_eq!(s.username, "lucas");
    assert_eq!(s.focus, Focus::Password);
    assert_eq!(s.status, "Enter password to start");
    assert_eq!(s.session_list.selected_idx, 1);
    assert_eq!(s.login_label(), "Log In");
    assert_eq!(auto, AutoStart::No);
    let (s, _) = State::new(startup(""));
    assert_eq!(s.focus, Focus::Username);
}

#[test]
fn a_scan_starts_on_its_own_once() {
    let mut first = startup("lucas");
    first.fprint_enabled = true;
    let (s, auto) = State::new(first);
    assert_eq!(auto, AutoStart::Run { request_id: 1, username: "lucas".to_string() });
    assert!(s.is_authenticating && s.fprint_running);
    assert_eq!(s.status, "Scan finger to login or type password");
    assert_eq!(s.login_label(), "Authenticating...");

    let mut again = startup("lucas");
    again.fprint_enabled = true;
    again.autostarted_recently = true;
    let (s, auto) = State::new(again);
    assert_eq!(auto, AutoStart::Suppressed);
    assert!(!s.is_authenticating);
    assert_eq!(s.status, "Press Enter to scan finger, or type password");

    let mut nobody = startup("");
    nobody.fprint_enabled = true;
    assert_eq!(State::new(nobody).1, AutoStart::No);
}

#[test]
fn a_system_user_is_not_filled_in() {
    let env = |u: &str| Some(u.to_string());
    assert_eq!(initial_username(&None, &env("lucas")), "lucas");
    assert_eq!(initial_username(&None, &env("root")), "");
    assert_eq!(initial_username(&None, &env("cce-display-manager")), "");
    assert_eq!(initial_username(&None, &None), "");
    assert_eq!(initial_username(&Some(None), &env("lucas")), "");
    assert_eq!(initial_username(&Some(Some(" ana \n".to_string())), &env("lucas")), "ana");
}

#[test]
fn a_recent_scan_is_one_of_the_last_20_seconds() {
    assert!(fprint_autostart_recently(Some(0)));
    assert!(fprint_autostart_recently(Some(19)));
    assert!(!fprint_autostart_recently(Some(20)));
    assert!(!fprint_autostart_recently(None));
}

#[test]
fn fingerprints_are_enabled_by_their_stack() {
    assert!(is_fprint_enabled(Some("# x\n  auth requisite pam_fprintd.so\n")));
    assert!(!is_fprint_enabled(Some("  # auth requisite pam_fprintd.so\n")));
    assert!(!is_fprint_enabled(Some("auth include system-local-login\n")));
    assert!(!is_fprint_enabled(Some("")));
    assert!(!is_fprint_enabled(None));
}

#[test]
fn a_password_is_checked_as_typed() {
    let mut s = idle("lucas");
    s.password = " hunter2 ".to_string();
    s.username = " lucas ".to_string();
    assert_eq!(
        s.trigger_auth(true),
        AuthStart::Password {
            request_id: 1,
            username: "lucas".to_string(),
            password: " hunter2 ".to_string()
        }
    );
    assert_eq!(s.auth_password, " hunter2 ");
    assert_eq!(s.status, "Authenticating...");
    assert!(s.is_authenticating && !s.fprint_running);
}

#[test]
fn empty_boxes_are_refused() {
    let mut s = idle("");
    s.username = "  ".to_string();
    s.password = "x".to_string();
    assert_eq!(s.trigger_auth(true), AuthStart::Refused);
    assert_eq!((s.status.as_str(), s.status_is_error), ("Username cannot be empty", true));
    assert_eq!(s.focus, Focus::Username);

    let mut s = idle("lucas");
    assert_eq!(s.trigger_auth(false), AuthStart::Refused);
    assert_eq!((s.status.as_str(), s.status_is_error), ("Password cannot be empty", true));
    assert_eq!(s.focus, Focus::Password);
}

#[test]
fn enter_on_an_empty_password_scans() {
    let mut s = idle("lucas");
    assert_eq!(s.handle_key_input(&press(Key::Enter)), KeyOutcome::Submit);
    assert_eq!(
        s.trigger_auth(true),
        AuthStart::Fingerprint { request_id: 1, username: "lucas".to_string() }
    );
    s.fprint_spawn_failed();
    assert_eq!(s.status, "Fingerprint unavailable — type password");
    assert!(s.status_is_error && !s.is_authenticating && !s.fprint_running);
}

#[test]
fn submitting_a_password_cancels_a_scan() {
    let mut s = idle("lucas");
    s.start_fprint_auth();
    assert!(s.fprint_running);
    assert_eq!(
        s.handle_key_input(&typed("x")),
        KeyOutcome::Forward { scan_cancelled: true }
    );
    assert!(!s.fprint_running && !s.is_authenticating);
    assert_eq!(s.auth_request_id, 2);
    assert_eq!(s.status, "Enter password to start");
    s.password = "x".to_string();
    assert!(matches!(s.trigger_auth(true), AuthStart::Password { request_id: 3, .. }));
    assert!(!s.cancel_fprint_auth());
}

#[test]
fn ctrl_c_and_f5_end_the_greeter() {
    let mut s = idle("lucas");
    s.start_fprint_auth();
    assert_eq!(s.handle_key_input(&ctrl("c")), KeyOutcome::Exit(130));
    assert_eq!(s.handle_key_input(&ctrl("C")), KeyOutcome::Exit(130));
    assert_eq!(s.handle_key_input(&press(Key::F5)), KeyOutcome::Exit(135));
    let release = KeyInput { key: Key::F5, ctrl: false, pressed: false };
    assert_eq!(s.handle_key_input(&release), KeyOutcome::Exit(135));
}

#[test]
fn keys_pick_the_session_and_the_box() {
    let mut s = idle("lucas");
    assert_eq!(s.session_list.selected_idx, 1);
    assert_eq!(s.handle_key_input(&press(Key::ArrowDown)), KeyOutcome::Moved);
    assert_eq!(s.session_list.selected_idx, 0);
    assert_eq!(s.handle_key_input(&ctrl("p")), KeyOutcome::Moved);
    assert_eq!(s.session_list.selected_idx, 1);
    assert_eq!(s.handle_key_input(&ctrl("N")), KeyOutcome::Moved);
    assert_eq!(s.handle_key_input(&press(Key::ArrowUp)), KeyOutcome::Moved);
    assert_eq!(s.session_list.selected_idx, 1);
    assert_eq!(s.handle_key_input(&press(Key::Tab)), KeyOutcome::Switched);
    assert_eq!(s.focus, Focus::Username);
    assert_eq!(s.handle_key_input(&press(Key::Enter)), KeyOutcome::Advance);
    assert_eq!(s.focus, Focus::Password);
    s.focus = Focus::Nowhere;
    assert_eq!(
        s.handle_key_input(&press(Key::Enter)),
        KeyOutcome::Forward { scan_cancelled: false }
    );
    assert_eq!(s.handle_key_input(&press(Key::Tab)), KeyOutcome::Switched);
    assert_eq!(s.focus, Focus::Username);
}

#[test]
fn as_many_steps_as_sessions_come_round() {
    let mut s = idle("lucas");
    s.auth_request_id = u64::MAX;
    for key in [press(Key::ArrowDown), press(Key::ArrowUp), ctrl("n"), ctrl("P")] {
        s.session_list.hovered_idx = Some(0);
        for _ in 0..s.session_list.sessions.len() {
            assert_eq!(s.handle_key_input(&key), KeyOutcome::Moved);
            assert_eq!(s.session_list.hovered_idx, None);
        }
        assert_eq!(s.session_list.selected_idx, 1);
    }
    s.username = String::new();
    assert_eq!(s.trigger_auth(true), AuthStart::Refused);
}

#[test]
fn the_widgets_are_taken_over() {
    let mut s = idle("lucas");
    s.take_over("ana".to_string(), "pw".to_string(), Focus::Nowhere, 0, Some(1));
    assert_eq!((s.username.as_str(), s.password.as_str()), ("ana", "pw"));
    assert_eq!(s.focus, Focus::Nowhere);
    assert_eq!((s.session_list.selected_idx, s.session_list.hovered_idx), (0, Some(1)));
    s.take_over("ana".to_string(), String::new(), Focus::Username, 2, None);
    assert_eq!((s.session_list.selected_idx, s.session_list.hovered_idx), (0, None));
    assert_eq!(s.status, "Enter password to start");
}

#[test]
fn keys_wait_for_a_password_check() {
    let mut s = idle("lucas");
    s.password = "pw".to_string();
    s.trigger_auth(false);
    assert_eq!(s.handle_key_input(&typed("x")), KeyOutcome::Ignored);
    assert_eq!(s.handle_key_input(&press(Key::Tab)), KeyOutcome::Ignored);
    let mut s = idle("lucas");
    s.start_fprint_auth();
    assert_eq!(s.handle_key_input(&press(Key::Enter)), KeyOutcome::Ignored);
    assert_eq!(s.handle_key_input(&press(Key::Tab)), KeyOutcome::Switched);
    assert!(s.fprint_running);
}

#[test]
fn a_verified_attempt_hands_over_the_checked_password() {
    let mut s = idle("lucas");
    s.password = "a|b ".to_string();
    s.trigger_auth(false);
    s.password = "half".to_string();
    let ok = AuthEvent::Success { request_id: 1, username: "lucas".to_string() };
    let EventOutcome::LoggedIn(line) = s.handle_auth_event(ok) else {
        panic!("logged in");
    };
    assert_eq!(line, "AUTH_SUCCESS|lucas|startxfce4|false|a|b ");
    assert_eq!(
        parse_auth_success(&line),
        Some(("lucas".into(), "startxfce4".into(), false, "a|b ".into()))
    );
    assert_eq!(s.status, "Welcome, lucas!");
    assert!(s.login_success);
}

#[test]
fn a_fingerprint_hands_over_no_password() {
    let mut s = idle("lucas");
    s.start_fprint_auth();
    let ok = AuthEvent::Success { request_id: 1, username: "lucas".to_string() };
    assert_eq!(
        s.handle_auth_event(ok),
        EventOutcome::LoggedIn("AUTH_SUCCESS|lucas|startxfce4|false|".to_string())
    );
}

#[test]
fn a_failed_attempt_clears_the_password() {
    let mut s = idle("lucas");
    s.password = "pw".to_string();
    s.trigger_auth(false);
    let no = AuthEvent::Failure { request_id: 1, err_msg: "AUTH_ERR".to_string() };
    assert_eq!(s.handle_auth_event(no), EventOutcome::Failed { reap_helper: false });
    assert_eq!((s.status.as_str(), s.password.as_str()), ("AUTH_ERR", ""));
    assert!(s.status_is_error && !s.is_authenticating);

    s.start_fprint_auth();
    let no = AuthEvent::Failure { request_id: 2, err_msg: "AUTH_ERR".to_string() };
    assert_eq!(s.handle_auth_event(no), EventOutcome::Failed { reap_helper: true });
    assert_eq!(
        s.status,
        "Fingerprint not recognized — press Enter to scan again, or type password"
    );
}

#[test]
fn reports_of_old_attempts_are_dropped() {
    let mut s = idle("lucas");
    s.start_fprint_auth();
    s.start_fprint_auth();
    let old = AuthEvent::Success { request_id: 1, username: "lucas".to_string() };
    assert_eq!(s.handle_auth_event(old), EventOutcome::Stale);
    assert!(!s.login_success && s.is_authenticating);
    let info = AuthEvent::Info { request_id: 2, msg: "Swipe".to_string() };
    assert_eq!(s.handle_auth_event(info), EventOutcome::Informed);
    assert_eq!(s.status, "Swipe");
}

#[test]
fn failures_are_explained() {
    assert_eq!(
        fprint_failure_text("AUTHINFO_UNAVAIL"),
        "No fingerprint read (timed out or none enrolled)"
    );
    assert_eq!(fprint_failure_text("MAXTRIES"), "Fingerprint not recognized");
    assert_eq!(fprint_failure_text("AUTH_ERR"), "Fingerprint not recognized");
    assert_eq!(fprint_failure_text("SERVICE_ERR"), "Fingerprint reader unavailable");
    assert_eq!(fprint_failure_text("SYSTEM_ERR"), "Fingerprint reader unavailable");
    assert_eq!(fprint_failure_text("ABORT"), "Fingerprint failed (ABORT)");
    assert_eq!(status_color(true), (0xee, 0x5c, 0x5c));
    assert_eq!(status_color(false), (0x83, 0x83, 0x8a));
}

#[test]
fn a_key_stops_at_the_first_root_that_uses_it() {
    let s = idle("lucas");
    let none = Answers::none();
    assert_eq!(s.widgets_keyboard_input(none), Routing::Ask(Root::Background));
    let bg = none.with(Root::Background, false);
    assert_eq!(s.widgets_keyboard_input(bg), Routing::Ask(Root::SessionList));
    assert_eq!(s.widgets_keyboard_input(bg.with(Root::SessionList, true)), Routing::Done(true));
    let sl = bg.with(Root::SessionList, false);
    assert_eq!(s.widgets_keyboard_input(sl), Routing::Ask(Root::Card));
    assert_eq!(s.widgets_keyboard_input(sl.with(Root::Card, false)), Routing::Done(false));
    assert_eq!(s.widgets_keyboard_input(none.with(Root::Background, true)), Routing::Done(true));
}

#[test]
fn a_movement_reaches_every_root() {
    let s = idle("lucas");
    let a = Answers::none().with(Root::Background, true);
    assert_eq!(s.widgets_cursor_moved(a), Routing::Ask(Root::SessionList));
    let a = a.with(Root::SessionList, true);
    assert_eq!(s.widgets_cursor_moved(a), Routing::Ask(Root::Card));
    assert_eq!(s.widgets_cursor_moved(a.with(Root::Card, false)), Routing::Done(true));
}

#[test]
fn a_press_beside_everything_takes_the_keyboard_away() {
    let mut s = idle("lucas");
    let a = Answers::none().with(Root::Background, false).with(Root::SessionList, false);
    assert_eq!(s.widgets_mouse_input(true, true, a), Routing::Ask(Root::Card));
    assert_eq!(s.widgets_mouse_input(true, true, a.with(Root::Card, true)), Routing::Done(true));
    assert_eq!(s.focus, Focus::Password);
    assert_eq!(s.widgets_mouse_input(true, false, a.with(Root::Card, false)), Routing::Done(false));
    assert_eq!(s.focus, Focus::Password);
    assert_eq!(s.widgets_mouse_input(true, true, a.with(Root::Card, false)), Routing::Done(true));
    assert_eq!(s.focus, Focus::Nowhere);
    assert!(s.click_triggers(true, true, true) && !s.click_triggers(true, true, false));
    assert!(s.accepts_mouse());
    s.start_fprint_auth();
    assert!(!s.accepts_mouse() && !s.click_triggers(true, true, true));
}
