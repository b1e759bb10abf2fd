use cce_display_manager::path::DirFile;
use cce_display_manager::session::{
    discover_sessions, parse_desktop_file, row_label, sanitize_exec, session_command,
    session_pam_service, valid_session_id, InvalidDesktopFile, Session, SessionList,
};

fn session(name: &str, command: &str, is_wayland: bool) -> Session {
    Session { name: name.to_string(), command: command.to_string(), is_wayland }
}

fn file(name: &str, content: Option<&str>) -> DirFile {
    DirFile { name: name.to_string(), content: content.map(|c| c.to_string()) }
}

fn three() -> SessionList {
    SessionList::new(vec![
        session("cce", "startcce", true),
        session("Xfce", "startxfce4", false),
        session("Bash Shell", "bash", true),
    ])
}

#[test]
fn an_empty_password_opens_on_the_autologin_stack() {
    assert_eq!(session_pam_service(""), "cce-display-manager-autologin");
    assert_eq!(session_pam_service("x"), "cce-display-manager-password");
    assert_eq!(session_pam_service(" "), "cce-display-manager-password");
}

#[test]
fn only_plain_session_ids_reach_loginctl() {
    for ok in ["15", "c3", "2"] {
        assert!(valid_session_id(ok), "{ok}");
    }
    for bad in ["", "15 --all", "-h", "1;rm", "../x", &"9".repeat(40)] {
        assert!(!valid_session_id(bad), "{bad}");
    }
}

#[test]
fn a_session_id_has_at_most_32_characters() {
    assert!(valid_session_id(&"9".repeat(32)));
    assert!(!valid_session_id(&"9".repeat(33)));
    assert!(!valid_session_id("é"));
}

#[test]
fn a_desktop_file_gives_its_last_name_and_command() {
    let text = "[Desktop Entry]\n  Name=First  \r\nName=cce\nExec=startcce %U\nComment=x\n";
    assert_eq!(parse_desktop_file(text, true), Ok(session("cce", "startcce %U", true)));
    assert_eq!(parse_desktop_file("Name=\nExec=", false), Ok(session("", "", false)));
}

#[test]
fn a_desktop_file_without_name_or_command_is_invalid() {
    assert_eq!(parse_desktop_file("Name=cce\n", true), Err(InvalidDesktopFile));
    assert_eq!(parse_desktop_file("Exec=cce\n", true), Err(InvalidDesktopFile));
    assert_eq!(parse_desktop_file("", true), Err(InvalidDesktopFile));
    assert_eq!(parse_desktop_file("name=a\nexec=b\n", true), Err(InvalidDesktopFile));
}

#[test]
fn sessions_are_those_of_the_directories_and_the_shell() {
    let wayland = vec![
        file("cce.desktop", Some("Name=cce\nExec=startcce\n")),
        file("readme.txt", Some("Name=no\nExec=no\n")),
        file("unreadable.desktop", None),
        file(".desktop", Some("Name=no\nExec=no\n")),
        file("broken.desktop", Some("Name=no\n")),
    ];
    let x11 = vec![file("xfce.desktop", Some("Name=Xfce\nExec=startxfce4\n"))];
    assert_eq!(
        discover_sessions(&wayland, &x11),
        vec![
            session("cce", "startcce", true),
            session("Xfce", "startxfce4", false),
            session("Bash Shell", "bash", true),
        ]
    );
    assert_eq!(discover_sessions(&vec![], &vec![]), vec![session("Bash Shell", "bash", true)]);
}

#[test]
fn field_codes_are_dropped_from_a_command() {
    assert_eq!(
        sanitize_exec("  startx  --a %U\t%f --b\n"),
        ("startx".to_string(), vec!["--a".to_string(), "--b".to_string()])
    );
    assert_eq!(sanitize_exec("a%U"), ("a%U".to_string(), vec![]));
    assert_eq!(sanitize_exec("%U %f"), (String::new(), vec![]));
    assert_eq!(sanitize_exec(""), (String::new(), vec![]));
}

#[test]
fn an_x11_session_runs_under_xinit() {
    assert_eq!(
        session_command("startxfce4 --x %U", false),
        Some((
            "/usr/sbin/xinit".to_string(),
            vec!["startxfce4".to_string(), "--x".into(), "--".into(), "-keeptty".into()]
        ))
    );
    assert_eq!(session_command("startcce", true), Some(("startcce".to_string(), vec![])));
    assert_eq!(session_command(" %U ", true), None);
    assert_eq!(
        session_command("", false),
        Some((
            "/usr/sbin/xinit".to_string(),
            vec![String::new(), "--".to_string(), "-keeptty".to_string()]
        ))
    );
}

#[test]
fn rows_say_the_kind_of_a_session() {
    assert_eq!(row_label(&session("cce", "startcce", true)), "cce (Wayland)");
    assert_eq!(row_label(&session("Xfce", "x", false)), "Xfce (X11)");
    assert_eq!(row_label(&session("Bash Shell", "bash", true)), "Bash Shell");
}

#[test]
fn the_saved_session_is_selected() {
    let mut l = three();
    l.select_saved("startxfce4");
    assert_eq!(l.selected_idx, 1);
    l.select_saved("gone");
    assert_eq!(l.selected_idx, 1);
    l.select_saved("");
    assert_eq!(l.selected_idx, 1);
    assert_eq!(l.selected_session().map(|s| s.command.clone()), Some("startxfce4".to_string()));
}

#[test]
fn the_selection_goes_round() {
    let mut l = three();
    l.hovered_idx = Some(2);
    l.select_previous();
    assert_eq!((l.selected_idx, l.hovered_idx), (2, None));
    l.select_next();
    assert_eq!(l.selected_idx, 0);
    for start in 0..3 {
        l.selected_idx = start;
        l.select_next();
        l.select_previous();
        assert_eq!(l.selected_idx, start);
        l.select_previous();
        l.select_next();
        assert_eq!(l.selected_idx, start);
    }
}

#[test]
fn the_pointer_hovers_the_row_under_it() {
    let mut l = three();
    assert!(l.pointer_moved(true, &vec![false, true, false]));
    assert_eq!(l.hovered_idx, Some(1));
    assert_eq!(l.hover_row(), Some(1));
    assert!(!l.pointer_moved(true, &vec![false, true, false]));
    assert!(l.pointer_moved(false, &vec![false, true, false]));
    assert_eq!(l.hovered_idx, None);
    assert!(l.pointer_moved(true, &vec![true, false, false]));
    assert_eq!(l.hover_row(), None);
}

#[test]
fn a_press_selects_the_row_under_it() {
    let mut l = three();
    assert!(l.left_pressed(&vec![false, false, true]));
    assert_eq!(l.selected_idx, 2);
    assert!(!l.left_pressed(&vec![false, false, true]));
    assert!(!l.left_pressed(&vec![false, false, false]));
    assert_eq!(l.selected_idx, 2);
}
