use cce_display_manager::roles::{
    refusal, role_of, worker_args, Role, WorkerArgs, EXIT_MALFORMED_WORKER, EXIT_NOT_ROOT,
};
use cce_display_manager::worker::{
    account_shell, activate_command, drop_steps, first_worker_step, next_worker_step,
    pam_session_env, removed_vars, reported_session_id, session_id_line, session_invocation,
    session_log_paths, session_output, tty_device, user_runtime_dir, worker_env, Account, DropStep,
    SessionOutput, WorkerStep,
};

fn argv(args: &[&str]) -> Vec<String> {
    let mut v = vec!["cce-display-manager".to_string()];
    v.extend(args.iter().map(|a| a.to_string()));
    v
}

fn account() -> Account {
    Account {
        username: "lucas".to_string(),
        uid: 1000,
        gid: 100,
        home: "/home/lucas".to_string(),
        shell: "/bin/zsh".to_string(),
    }
}

fn pair(k: &str, v: &str) -> (String, String) {
    (k.to_string(), v.to_string())
}

/// Anyone can run the installed program. As a user it must not open a PAM
/// session or report one, and it checks before reading the password.
#[test]
fn a_non_root_session_worker_refuses() {
    let role = role_of(&argv(&["--session-worker", "tty1", "nobody", "true", "bash"]));
    assert!(matches!(role, Role::SessionWorker(_)));
    assert_eq!(refusal(&role, 1000), Some(1));
    assert_eq!(first_worker_step(1000), WorkerStep::Exit(1));
    assert_eq!(refusal(&role, 0), None);
}

/// A malformed worker argv is an error, not a fall-through into the daemon
/// (which, as root, would start a second greeter on the tty).
#[test]
fn a_malformed_session_worker_argv_is_an_error() {
    let role = role_of(&argv(&["--session-worker", "tty1"]));
    assert_eq!(role, Role::MalformedWorker);
    for uid in [0, 1000] {
        assert_eq!(refusal(&role, uid), Some(2));
    }
    for args in [
        &["--session-worker"][..],
        &["--session-worker", "tty1", "nobody", "maybe", "bash"][..],
        &["--session-worker", "tty1", "nobody", "true", "bash", "-l"][..],
    ] {
        assert_eq!(role_of(&argv(args)), Role::MalformedWorker);
    }
    assert_eq!(EXIT_MALFORMED_WORKER, 2);
    assert_eq!(EXIT_NOT_ROOT, 1);
}

#[test]
fn roles_follow_the_arguments() {
    assert_eq!(role_of(&argv(&[])), Role::Daemon);
    assert_eq!(role_of(&argv(&["--greeter"])), Role::Greeter);
    assert_eq!(role_of(&argv(&["--greeter", "x"])), Role::Greeter);
    assert_eq!(role_of(&argv(&["--fprint-auth", "lucas"])), Role::FprintHelper("lucas".to_string()));
    assert_eq!(role_of(&argv(&["--fprint-auth"])), Role::Daemon);
    assert_eq!(role_of(&argv(&["--other"])), Role::Daemon);
    assert_eq!(refusal(&Role::Daemon, 1000), Some(1));
    assert_eq!(refusal(&Role::Daemon, 0), None);
    assert_eq!(refusal(&Role::Greeter, 1000), None);
}

#[test]
fn a_worker_reads_back_what_it_is_started_with() {
    for is_wayland in [true, false] {
        let a = WorkerArgs {
            tty: "tty1".to_string(),
            username: "lucas".to_string(),
            is_wayland,
            command: "startcce --x %U".to_string(),
        };
        let mut args = vec!["/usr/bin/cce-display-manager".to_string()];
        args.extend(worker_args(&a));
        assert_eq!(role_of(&args), Role::SessionWorker(a));
    }
}

#[test]
fn a_session_takes_its_steps_in_order() {
    let mut step = first_worker_step(0);
    let mut seen = vec![step];
    while !matches!(step, WorkerStep::Exit(_)) {
        step = next_worker_step(step, true);
        seen.push(step);
    }
    assert_eq!(
        seen,
        vec![
            WorkerStep::ReadPassword,
            WorkerStep::LookUpUser,
            WorkerStep::StartPam,
            WorkerStep::PutSessionEnv,
            WorkerStep::Authenticate,
            WorkerStep::OpenSession,
            WorkerStep::Report,
            WorkerStep::Activate,
            WorkerStep::ResolveCommand,
            WorkerStep::RunSession,
            WorkerStep::ClosePam,
            WorkerStep::Exit(0),
        ]
    );
}

#[test]
fn a_failed_step_ends_the_worker_or_not() {
    for step in [
        WorkerStep::ReadPassword,
        WorkerStep::LookUpUser,
        WorkerStep::StartPam,
        WorkerStep::Authenticate,
        WorkerStep::OpenSession,
        WorkerStep::ResolveCommand,
    ] {
        assert_eq!(next_worker_step(step, false), WorkerStep::Exit(1));
    }
    assert_eq!(next_worker_step(WorkerStep::PutSessionEnv, false), WorkerStep::Authenticate);
    assert_eq!(next_worker_step(WorkerStep::Report, false), WorkerStep::Activate);
    assert_eq!(next_worker_step(WorkerStep::Activate, false), WorkerStep::ResolveCommand);
    assert_eq!(next_worker_step(WorkerStep::RunSession, false), WorkerStep::ClosePam);
    assert_eq!(next_worker_step(WorkerStep::ClosePam, false), WorkerStep::Exit(0));
}

#[test]
fn the_session_gets_its_environment() {
    let pam_env = vec![pair("XDG_SESSION_ID", "15"), pair("USER", "root")];
    let i = session_invocation("startcce --a %U", true, &pam_env, &account()).unwrap();
    assert_eq!(i.program, "startcce");
    assert_eq!(i.args, vec!["--a"]);
    assert_eq!(
        i.env,
        vec![
            pair("XDG_SESSION_ID", "15"),
            pair("USER", "root"),
            pair("USER", "lucas"),
            pair("LOGNAME", "lucas"),
            pair("HOME", "/home/lucas"),
            pair("SHELL", "/bin/zsh"),
            pair("PATH", "/usr/local/sbin:/usr/local/bin:/usr/sbin:/usr/bin:/sbin:/bin"),
            pair("XDG_RUNTIME_DIR", "/run/user/1000"),
            pair("XDG_SESSION_TYPE", "wayland"),
            pair("XDG_SESSION_CLASS", "user"),
        ]
    );
    assert!(session_invocation("%U", true, &vec![], &account()).is_none());
    let x = session_invocation("startx", false, &vec![], &account()).unwrap();
    assert_eq!(x.program, "/usr/sbin/xinit");
    assert!(x.env.contains(&pair("XDG_SESSION_TYPE", "x11")));
    assert_eq!(removed_vars(), vec!["SUDO_USER", "SUDO_UID", "SUDO_GID", "SUDO_COMMAND"]);
}

#[test]
fn the_worker_sets_its_own_environment() {
    assert_eq!(
        worker_env(&account()),
        vec![
            pair("USER", "lucas"),
            pair("LOGNAME", "lucas"),
            pair("HOME", "/home/lucas"),
            pair("SHELL", "/bin/zsh"),
            pair("XDG_RUNTIME_DIR", "/run/user/1000"),
        ]
    );
    assert_eq!(pam_session_env(true), vec!["XDG_SESSION_TYPE=wayland", "XDG_SESSION_CLASS=user"]);
    assert_eq!(pam_session_env(false), vec!["XDG_SESSION_TYPE=x11", "XDG_SESSION_CLASS=user"]);
    assert_eq!(account_shell(None), "/bin/bash");
    assert_eq!(account_shell(Some("/bin/fish")), "/bin/fish");
}

#[test]
fn a_session_id_reaches_the_daemon() {
    assert_eq!(session_id_line("c3"), "SESSION_ID|c3");
    assert_eq!(reported_session_id(&session_id_line("c3")), Some("c3".to_string()));
    assert_eq!(reported_session_id("SESSION_ID| 15 \n"), Some("15".to_string()));
    assert_eq!(reported_session_id("c3"), None);
    let i = activate_command("c3");
    assert_eq!((i.program.as_str(), i.args), ("loginctl", vec!["activate".to_string(), "c3".into()]));
}

#[test]
fn a_session_writes_to_its_log() {
    assert_eq!(user_runtime_dir(1000), "/run/user/1000");
    assert_eq!(
        session_log_paths(1000),
        (
            "/run/user/1000/cce-session.log".to_string(),
            "/run/user/1000/cce-session.log.old".to_string()
        )
    );
    assert_eq!(session_output("startcce"), SessionOutput::LogFile);
    assert_eq!(session_output("bash"), SessionOutput::Terminal);
    assert_eq!(tty_device("tty3"), "/dev/tty3");
    assert_eq!(drop_steps(), vec![DropStep::InitGroups, DropStep::SetGid, DropStep::SetUid]);
}
