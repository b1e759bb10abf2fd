use cce_display_manager::daemon::{
    greeter_command, greeter_ended, greeter_log_text, greeter_runtime_dir, helper_command,
    log_path, monitor_command, next_launch_step, on_resume, opens_own_log, own_exe,
    read_greeter_line, restart_exe, restart_failed, restart_flag, restart_flag_path,
    resume_concerns_greeter, terminate_greeter, terminate_session, worker_command, AfterGreeter,
    Daemon, DaemonStep, EndStep, FlagFile, FlagVerdict, GreeterLine, LaunchEvent, LaunchStep,
    Login, SessionEnd,
};
use cce_display_manager::resume::monitor_pause_secs;
use cce_display_manager::vt::{console_tty, chvt_command, ensure_vt_active, vt_number, VtStep};

fn login(password: &str) -> Login {
    Login {
        username: "lucas".to_string(),
        command: "startcce".to_string(),
        is_wayland: true,
        password: password.to_string(),
    }
}

#[test]
fn the_log_never_holds_a_password() {
    assert_eq!(
        greeter_log_text("AUTH_SUCCESS|lucas|startcce|true|hunter2"),
        "[greeter-stdout] AUTH_SUCCESS|lucas|startcce|true"
    );
    assert_eq!(
        greeter_log_text("AUTH_SUCCESS|lucas|hunter2"),
        "[greeter-stdout] malformed AUTH_SUCCESS line (redacted); login attempt dropped"
    );
    assert_eq!(greeter_log_text("hello"), "[greeter-stdout] hello");
    assert_eq!(
        greeter_log_text("AUTH_SUCCESS|u|c|true|one"),
        greeter_log_text("AUTH_SUCCESS|u|c|true|two|three")
    );
}

#[test]
fn the_greeters_lines_are_told_apart() {
    assert_eq!(
        read_greeter_line("AUTH_SUCCESS|lucas|startcce|true|a|b"),
        GreeterLine::Login(login("a|b"))
    );
    assert_eq!(read_greeter_line("AUTH_SUCCESS|lucas"), GreeterLine::Malformed);
    assert_eq!(read_greeter_line("AUTH_SUCCESS"), GreeterLine::Plain);
    assert_eq!(read_greeter_line(""), GreeterLine::Plain);
}

#[test]
fn the_greeters_exit_decides() {
    assert_eq!(greeter_ended(Some(130), None), AfterGreeter::Quit);
    assert_eq!(greeter_ended(Some(135), None), AfterGreeter::Restart(None));
    assert_eq!(
        greeter_ended(Some(135), Some(login("x"))),
        AfterGreeter::Restart(Some(login("x")))
    );
    assert_eq!(greeter_ended(Some(0), None), AfterGreeter::Respawn);
    assert_eq!(greeter_ended(None, None), AfterGreeter::Respawn);
    assert_eq!(greeter_ended(None, Some(login("x"))), AfterGreeter::Launch(login("x")));
    assert_eq!(greeter_ended(Some(130), Some(login("x"))), AfterGreeter::Quit);
    assert_eq!(restart_failed(Some(login(""))), AfterGreeter::Launch(login("")));
    assert_eq!(restart_failed(None), AfterGreeter::Respawn);
}

#[test]
fn a_restarted_session_skips_the_greeter() {
    let mut d = Daemon::new(true);
    assert_eq!(d.next_step(), DaemonStep::ShowGreeter { claim_vt: true });
    d.session_ended(&login("secret"), false);
    assert_eq!(d.next_step(), DaemonStep::ShowGreeter { claim_vt: true });
    d.session_ended(&login("secret"), true);
    assert_eq!(d.next_step(), DaemonStep::Relaunch(login("")));
    assert_eq!(d.next_step(), DaemonStep::ShowGreeter { claim_vt: true });
    assert_eq!(Daemon::new(false).next_step(), DaemonStep::ShowGreeter { claim_vt: false });
}

#[test]
fn only_a_file_of_the_user_restarts_a_session() {
    let f = |is_regular, owner| Some(FlagFile { is_regular, owner });
    assert_eq!(restart_flag(None, Some(1000)), FlagVerdict::Absent);
    assert_eq!(restart_flag(f(true, 1000), Some(1000)), FlagVerdict::Honoured);
    assert_eq!(restart_flag(f(false, 1000), Some(1000)), FlagVerdict::Rejected);
    assert_eq!(restart_flag(f(true, 1001), Some(1000)), FlagVerdict::Rejected);
    assert_eq!(restart_flag(f(true, 1000), None), FlagVerdict::Rejected);
    assert_eq!(restart_flag_path("lucas"), "/tmp/cce-restart-requested-lucas");
}

#[test]
fn a_session_is_launched_step_by_step() {
    let run = |events: &[LaunchEvent]| {
        events.iter().fold(LaunchStep::RemoveStaleFlag, |s, e| next_launch_step(s, *e))
    };
    let done = LaunchEvent::Done;
    assert_eq!(run(&[LaunchEvent::Failed]), LaunchStep::ClaimVt);
    assert_eq!(run(&[done, done]), LaunchStep::SpawnWorker);
    assert_eq!(run(&[done, done, LaunchEvent::Failed]), LaunchStep::Over { relaunch: false });
    assert_eq!(run(&[done; 3]), LaunchStep::ReadSessionId);
    assert_eq!(run(&[done; 4]), LaunchStep::WaitForWorker);
    assert_eq!(run(&[done; 5]), LaunchStep::TerminateSession);
    assert_eq!(run(&[done; 6]), LaunchStep::CheckFlag);
}

#[test]
fn a_restart_file_is_removed_either_way() {
    let after = |v| next_launch_step(LaunchStep::CheckFlag, LaunchEvent::Flag(v));
    let done = LaunchEvent::Done;
    assert_eq!(after(FlagVerdict::Absent), LaunchStep::SwitchBack);
    let honoured = after(FlagVerdict::Honoured);
    assert_eq!(honoured, LaunchStep::RemoveFlag { honoured: true });
    assert_eq!(next_launch_step(honoured, done), LaunchStep::Over { relaunch: true });
    let rejected = after(FlagVerdict::Rejected);
    assert_eq!(rejected, LaunchStep::RemoveFlag { honoured: false });
    assert_eq!(next_launch_step(rejected, done), LaunchStep::SwitchBack);
    assert_eq!(
        next_launch_step(LaunchStep::SwitchBack, done),
        LaunchStep::Over { relaunch: false }
    );
}

#[test]
fn a_login_session_is_ended_by_its_id() {
    let SessionEnd::Terminate(i) = terminate_session("c3") else {
        panic!("terminate");
    };
    assert_eq!(i.program, "loginctl");
    assert_eq!(i.args, vec!["terminate-session", "c3"]);
    assert!(matches!(terminate_session(""), SessionEnd::Nothing));
    assert!(matches!(terminate_session("-h"), SessionEnd::Unexpected));
}

#[test]
fn a_greeter_gets_three_seconds() {
    assert_eq!(terminate_greeter(0, true), EndStep::Gone);
    assert_eq!(terminate_greeter(0, false), EndStep::Pause);
    assert_eq!(terminate_greeter(29, false), EndStep::Pause);
    assert_eq!(terminate_greeter(30, false), EndStep::Kill);
    assert_eq!(terminate_greeter(30, true), EndStep::Kill);
    assert_eq!(on_resume(12, 12, 29), EndStep::Pause);
    assert_eq!(on_resume(12, 12, 30), EndStep::Kill);
    assert_eq!(on_resume(12, 13, 30), EndStep::Gone);
    assert_eq!(on_resume(12, 0, 0), EndStep::Gone);
    assert!(resume_concerns_greeter(12));
    assert!(!resume_concerns_greeter(0) && !resume_concerns_greeter(-1));
    assert_eq!((monitor_pause_secs(true), monitor_pause_secs(false)), (2, 5));
}

#[test]
fn programs_and_files_are_found() {
    let installed = "/usr/bin/cce-display-manager";
    assert_eq!(own_exe(Some("/x"), true), "/x");
    assert_eq!(own_exe(Some("/x"), false), installed);
    assert_eq!(own_exe(None, false), installed);
    assert_eq!(restart_exe(true, Some("/x")), installed);
    assert_eq!(restart_exe(false, Some("/x")), "/x");
    assert_eq!(restart_exe(false, None), installed);
    assert_eq!(log_path("tty1"), "/var/log/cce-display-manager-tty1.log");
    assert_eq!(greeter_runtime_dir("tty1"), "/run/cce-display-manager-tty1");
    assert!(opens_own_log(None) && opens_own_log(Some("")));
    assert!(!opens_own_log(Some("8:1234")));
}

#[test]
fn programs_are_called_with_their_arguments() {
    let g = greeter_command("/usr/bin/dm", "/run/x");
    assert_eq!(g.program, "cage");
    assert_eq!(g.args, vec!["-s", "--", "/usr/bin/dm", "--greeter"]);
    let env: Vec<(&str, &str)> = g.env.iter().map(|(k, v)| (k.as_str(), v.as_str())).collect();
    assert_eq!(
        env,
        vec![
            ("XDG_RUNTIME_DIR", "/run/x"),
            ("CCE_FONTS_DIR", "/usr/share/fonts/cce"),
            ("CCE_LOAD_SYSTEM_FONTS", "1"),
            ("LIBSEAT_BACKEND", "seatd"),
            ("WLR_DRM_NO_MODIFIERS", "1"),
            ("WLR_DRM_DEVICES", "/dev/dri/card1:/dev/dri/card0"),
        ]
    );
    let h = helper_command("/usr/bin/dm", "lucas");
    assert_eq!(h.args, vec!["--fprint-auth", "lucas"]);
    let w = worker_command("/usr/bin/dm", &login("secret").worker_args_on("tty1"));
    assert_eq!(w.args, vec!["--session-worker", "tty1", "lucas", "true", "startcce"]);
    let m = monitor_command();
    assert_eq!(m.program, "busctl");
    assert_eq!(m.args, vec!["monitor", "--system", "org.freedesktop.login1"]);
}

#[test]
fn the_terminal_is_that_of_standard_input() {
    assert_eq!(console_tty(Some("/dev/tty3")), ("tty3".to_string(), true));
    assert_eq!(console_tty(Some("/dev/pts/0")), ("tty1".to_string(), false));
    assert_eq!(console_tty(Some("pipe:[42]")), ("tty1".to_string(), false));
    assert_eq!(console_tty(Some("/")), ("tty1".to_string(), true));
    assert_eq!(console_tty(None), ("tty1".to_string(), true));
}

#[test]
fn a_terminal_is_made_active() {
    assert_eq!(vt_number("tty12"), Some(12));
    assert_eq!(vt_number("ttyS0"), None);
    assert_eq!(vt_number("pts"), None);
    assert_eq!(ensure_vt_active("tty1", Some("tty1\n"), 0), VtStep::Done);
    assert_eq!(ensure_vt_active("tty1", Some("tty2\n"), 0), VtStep::Switch(1));
    assert_eq!(ensure_vt_active("tty1", None, 19), VtStep::Switch(1));
    assert_eq!(ensure_vt_active("tty1", Some("tty2\n"), 20), VtStep::GiveUp);
    assert_eq!(ensure_vt_active("ttyS0", None, 0), VtStep::Done);
    let c = chvt_command(7);
    assert_eq!((c.program.as_str(), c.args), ("chvt", vec!["7".to_string()]));
}
