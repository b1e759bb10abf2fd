//! The daemon: shows the greeter, starts the session that it asks for, and
//! starts over when the session ends.
use vstd::prelude::*;

use crate::greeter::{
    key_outcome, KeyInput, KeyOutcome, StateView, EXIT_ABORT, EXIT_RESTART,
};
use crate::invocation::{plain_call, Invocation, InvocationView};
use crate::protocol::{
    bool_str, bool_text, login_line, login_of, only_login_lines_are_accepted,
    parse_auth_success, written_with_flag,
};
use crate::roles::{worker_args, worker_argv, WorkerArgs, WorkerArgsView};
use crate::session::{is_session_id, service_for, valid_session_id};
use crate::text::{join2, join3, starts_with};

verus! {

/// The program, as it is installed.
pub const INSTALLED_EXE: &'static str = "/usr/bin/cce-display-manager";

/// The file with the user of the last login.
pub const LAST_USER_PATH: &'static str = "/var/lib/cce-display-manager/last_user";

/// The file with the command of the last session.
pub const LAST_SESSION_PATH: &'static str = "/var/lib/cce-display-manager/last_session";

/// The pause before another greeter, in milliseconds, where the last one ended
/// without a login.
pub const RESPAWN_PAUSE_MILLIS: u64 = 1000;

// ---------------------------------------------------------------------------
// Files and programs
// ---------------------------------------------------------------------------

/// The log of a daemon that does not write to the journal.
pub fn log_path(tty_name: &str) -> (r: String)
    ensures
        r@ == "/var/log/cce-display-manager-"@ + tty_name@ + ".log"@,
{
    join3("/var/log/cce-display-manager-", tty_name, ".log")
}

/// Whether the daemon opens a log of its own: only where its output does not
/// go to the journal, as under a unit that connects it to the terminal.
pub fn opens_own_log(journal_stream: Option<&str>) -> (r: bool)
    ensures
        r == (match journal_stream {
            Some(s) => s@.len() == 0,
            None => true,
        }),
{
    match journal_stream {
        Some(s) => s.is_empty(),
        None => true,
    }
}

/// The runtime directory of the greeter.
pub fn greeter_runtime_dir(tty_name: &str) -> (r: String)
    ensures
        r@ == "/run/cce-display-manager-"@ + tty_name@,
{
    join2("/run/cce-display-manager-", tty_name)
}

/// The program to run as greeter, helper or worker: the running one, unless it
/// is not known or its file is gone.
pub fn own_exe(current: Option<&str>, exists: bool) -> (r: String)
    ensures
        r@ == (match current {
            Some(path) => if exists {
                path@
            } else {
                INSTALLED_EXE@
            },
            None => INSTALLED_EXE@,
        }),
{
    match current {
        Some(path) => if exists {
            path.to_owned()
        } else {
            INSTALLED_EXE.to_owned()
        },
        None => INSTALLED_EXE.to_owned(),
    }
}

/// The program to restart the daemon from: the installed one, where it exists.
pub fn restart_exe(installed_exists: bool, current: Option<&str>) -> (r: String)
    ensures
        r@ == (match current {
            Some(path) => if installed_exists {
                INSTALLED_EXE@
            } else {
                path@
            },
            None => INSTALLED_EXE@,
        }),
{
    match current {
        Some(path) => if installed_exists {
            INSTALLED_EXE.to_owned()
        } else {
            path.to_owned()
        },
        None => INSTALLED_EXE.to_owned(),
    }
}

/// The greeter, under its compositor.
pub open spec fn greeter_call(exe: Seq<char>, runtime_dir: Seq<char>) -> InvocationView {
    InvocationView {
        program: "cage"@,
        args: seq!["-s"@, "--"@, exe, "--greeter"@],
        env: seq![
            ("XDG_RUNTIME_DIR"@, runtime_dir),
            ("CCE_FONTS_DIR"@, "/usr/share/fonts/cce"@),
            ("CCE_LOAD_SYSTEM_FONTS"@, "1"@),
            ("LIBSEAT_BACKEND"@, "seatd"@),
            ("WLR_DRM_NO_MODIFIERS"@, "1"@),
            ("WLR_DRM_DEVICES"@, "/dev/dri/card1:/dev/dri/card0"@),
        ],
    }
}

/// The call that shows the greeter.
pub fn greeter_command(exe: &str, runtime_dir: &str) -> (r: Invocation)
    ensures
        r@ == greeter_call(exe@, runtime_dir@),
{
    let r = Invocation::new("cage").arg("-s").arg("--").arg(exe).arg("--greeter").env(
        "XDG_RUNTIME_DIR",
        runtime_dir,
    ).env("CCE_FONTS_DIR", "/usr/share/fonts/cce").env("CCE_LOAD_SYSTEM_FONTS", "1").env(
        "LIBSEAT_BACKEND",
        "seatd",
    ).env("WLR_DRM_NO_MODIFIERS", "1").env("WLR_DRM_DEVICES", "/dev/dri/card1:/dev/dri/card0");
    assert(r@ =~= greeter_call(exe@, runtime_dir@));
    r
}

/// The call that runs a fingerprint attempt.
pub fn helper_command(exe: &str, username: &str) -> (r: Invocation)
    ensures
        r@ == plain_call(exe@, seq!["--fprint-auth"@, username@]),
{
    let r = Invocation::new(exe).arg("--fprint-auth").arg(username);
    assert(r@ =~= plain_call(exe@, seq!["--fprint-auth"@, username@]));
    r
}

/// The call that runs a session. The password is no part of it.
pub fn worker_command(exe: &str, a: &WorkerArgs) -> (r: Invocation)
    ensures
        r@ == plain_call(exe@, worker_argv(a@)),
{
    let r = Invocation { program: exe.to_owned(), args: worker_args(a), env: Vec::new() };
    assert(r@ =~= plain_call(exe@, worker_argv(a@)));
    r
}

/// The call that watches the login manager's signals.
pub fn monitor_command() -> (r: Invocation)
    ensures
        r@ == plain_call("busctl"@, seq!["monitor"@, "--system"@, "org.freedesktop.login1"@]),
{
    let r = Invocation::new("busctl").arg("monitor").arg("--system").arg("org.freedesktop.login1");
    assert(r@ =~= plain_call(
        "busctl"@,
        seq!["monitor"@, "--system"@, "org.freedesktop.login1"@],
    ));
    r
}

// ---------------------------------------------------------------------------
// The greeter's output
// ---------------------------------------------------------------------------

/// What a line of the greeter's output is.
#[derive(Debug, PartialEq, Eq)]
pub enum GreeterLine {
    /// A login: reading stops here.
    Login(Login),
    /// A login line that cannot be read: the attempt is dropped.
    Malformed,
    /// Anything else.
    Plain,
}

/// Reads a line of the greeter's output.
pub fn read_greeter_line(line: &str) -> (r: GreeterLine)
    ensures
        match r {
            GreeterLine::Login(l) => login_of(line@) == Some(
                (l@.username, l@.command, l@.is_wayland, l@.password),
            ),
            GreeterLine::Malformed => "AUTH_SUCCESS|"@.is_prefix_of(line@) && login_of(
                line@,
            ) is None,
            GreeterLine::Plain => !"AUTH_SUCCESS|"@.is_prefix_of(line@) && login_of(line@) is None,
        },
{
    if starts_with(line, "AUTH_SUCCESS|") {
        match parse_auth_success(line) {
            Some((username, command, is_wayland, password)) => GreeterLine::Login(
                Login { username, command, is_wayland, password },
            ),
            None => GreeterLine::Malformed,
        }
    } else {
        proof {
            lemma_logins_have_the_prefix(line@);
        }
        GreeterLine::Plain
    }
}

proof fn lemma_logins_have_the_prefix(line: Seq<char>)
    ensures
        login_of(line) is Some ==> "AUTH_SUCCESS|"@.is_prefix_of(line),
{
    if let Some(l) = login_of(line) {
        only_login_lines_are_accepted(line, l);
        let flag = choose|flag: Seq<char>| written_with_flag(line, l, flag);
        let p = "AUTH_SUCCESS|"@;
        assert(line == login_line(l.0, l.1, flag, l.3));
        assert(p =~= line.subrange(0, p.len() as int));
    }
}

/// What the log says of a line. A login line holds the password: of a good one
/// the log gets the other fields, of a malformed one nothing.
pub open spec fn logged(line: Seq<char>) -> Seq<char> {
    match login_of(line) {
        Some((username, exec, is_wayland, _)) => "[greeter-stdout] AUTH_SUCCESS|"@ + username
            + "|"@ + exec + "|"@ + bool_text(is_wayland),
        None => if "AUTH_SUCCESS|"@.is_prefix_of(line) {
            "[greeter-stdout] malformed AUTH_SUCCESS line (redacted); login attempt dropped"@
        } else {
            "[greeter-stdout] "@ + line
        },
    }
}

/// What the log says of a line of the greeter's output.
pub fn greeter_log_text(line: &str) -> (r: String)
    ensures
        r@ == logged(line@),
{
    match read_greeter_line(line) {
        GreeterLine::Login(l) => {
            let mut s = join2("[greeter-stdout] AUTH_SUCCESS|", l.username.as_str());
            s.append("|");
            s.append(l.command.as_str());
            s.append("|");
            s.append(bool_str(l.is_wayland));
            s
        },
        GreeterLine::Malformed =>
        "[greeter-stdout] malformed AUTH_SUCCESS line (redacted); login attempt dropped".to_owned(),
        GreeterLine::Plain => join2("[greeter-stdout] ", line),
    }
}

/// The log does not depend on the password: two login lines that differ in it
/// alone are logged alike, and all malformed ones are.
pub proof fn the_password_is_not_logged(
    username: Seq<char>,
    exec: Seq<char>,
    flag: Seq<char>,
    password: Seq<char>,
    other: Seq<char>,
)
    requires
        !username.contains('|'),
        !exec.contains('|'),
        !flag.contains('|'),
    ensures
        logged(login_line(username, exec, flag, password)) == logged(
            login_line(username, exec, flag, other),
        ),
{
    let l1 = login_line(username, exec, flag, password);
    let l2 = login_line(username, exec, flag, other);
    let f1 = (username, exec, flag != "false"@, password);
    let f2 = (username, exec, flag != "false"@, other);
    only_login_lines_are_accepted(l1, f1);
    only_login_lines_are_accepted(l2, f2);
    assert(written_with_flag(l1, f1, flag));
    assert(written_with_flag(l2, f2, flag));
}

/// Of a malformed login line the log says the same, whatever the line holds.
pub proof fn malformed_logins_are_logged_alike(a: Seq<char>, b: Seq<char>)
    requires
        "AUTH_SUCCESS|"@.is_prefix_of(a),
        "AUTH_SUCCESS|"@.is_prefix_of(b),
        login_of(a) is None,
        login_of(b) is None,
    ensures
        logged(a) == logged(b),
{
}

// ---------------------------------------------------------------------------
// The loop
// ---------------------------------------------------------------------------

/// A login: the user, the session's command and kind, and the password that
/// the worker is handed. It is empty where the user was verified without one.
#[derive(Debug, PartialEq, Eq)]
pub struct Login {
    pub username: String,
    pub command: String,
    pub is_wayland: bool,
    pub password: String,
}

/// The view of a [`Login`].
#[verifier::ext_equal]
pub struct LoginView {
    pub username: Seq<char>,
    pub command: Seq<char>,
    pub is_wayland: bool,
    pub password: Seq<char>,
}

impl View for Login {
    type V = LoginView;

    open spec fn view(&self) -> LoginView {
        LoginView {
            username: self.username@,
            command: self.command@,
            is_wayland: self.is_wayland,
            password: self.password@,
        }
    }
}

/// The same login without its password.
pub open spec fn without_password(l: LoginView) -> LoginView {
    LoginView { password: Seq::empty(), ..l }
}

impl Login {
    /// What the worker of this login is started with. The password is no part
    /// of it.
    pub fn worker_args_on(&self, tty_name: &str) -> (r: WorkerArgs)
        ensures
            r@ == worker_args_of(self@, tty_name@),
    {
        WorkerArgs {
            tty: tty_name.to_owned(),
            username: self.username.clone(),
            is_wayland: self.is_wayland,
            command: self.command.clone(),
        }
    }
}

/// What the worker of a login is started with.
pub open spec fn worker_args_of(l: LoginView, tty_name: Seq<char>) -> WorkerArgsView {
    WorkerArgsView {
        tty: tty_name,
        username: l.username,
        is_wayland: l.is_wayland,
        command: l.command,
    }
}

/// The password is not among the worker's arguments, which anyone can read:
/// logins that differ in it alone start the same program with the same ones.
pub proof fn the_password_is_no_argument(l: LoginView, other: LoginView, tty_name: Seq<char>)
    requires
        without_password(l) == without_password(other),
    ensures
        worker_argv(worker_args_of(l, tty_name)) == worker_argv(worker_args_of(other, tty_name)),
{
    assert(l.username == without_password(other).username);
    assert(l.command == without_password(other).command);
    assert(l.is_wayland == without_password(other).is_wayland);
}

/// What the daemon does once the greeter has ended.
#[derive(Debug, PartialEq, Eq)]
pub enum AfterGreeter {
    /// End with exit status 0.
    Quit,
    /// Run the installed program in its place. Where that fails, go on with
    /// what the greeter read, as without the request.
    Restart(Option<Login>),
    /// Pause, and show the greeter again.
    Respawn,
    /// Remember user and session, and start the session.
    Launch(Login),
}

/// The view of an [`AfterGreeter`].
#[verifier::ext_equal]
pub enum AfterGreeterView {
    Quit,
    Restart(Option<LoginView>),
    Respawn,
    Launch(LoginView),
}

impl View for AfterGreeter {
    type V = AfterGreeterView;

    open spec fn view(&self) -> AfterGreeterView {
        match self {
            AfterGreeter::Quit => AfterGreeterView::Quit,
            AfterGreeter::Restart(l) => AfterGreeterView::Restart(login_or_none(*l)),
            AfterGreeter::Respawn => AfterGreeterView::Respawn,
            AfterGreeter::Launch(l) => AfterGreeterView::Launch(l@),
        }
    }
}

/// The view of what the greeter may have read.
pub open spec fn login_or_none(l: Option<Login>) -> Option<LoginView> {
    match l {
        Some(l) => Some(l@),
        None => None,
    }
}

/// What follows a greeter that ended with `code`, after a login or without one.
pub open spec fn after_greeter(code: Option<i32>, login: Option<LoginView>) -> AfterGreeterView {
    if code == Some(EXIT_ABORT) {
        AfterGreeterView::Quit
    } else if code == Some(EXIT_RESTART) {
        AfterGreeterView::Restart(login)
    } else {
        without_request(login)
    }
}

/// What follows a greeter that asked for nothing.
pub open spec fn without_request(login: Option<LoginView>) -> AfterGreeterView {
    match login {
        Some(l) => AfterGreeterView::Launch(l),
        None => AfterGreeterView::Respawn,
    }
}

/// What the daemon does once the greeter has ended.
pub fn greeter_ended(code: Option<i32>, login: Option<Login>) -> (r: AfterGreeter)
    ensures
        r@ == after_greeter(code, login_or_none(login)),
{
    match code {
        Some(c) => if c == EXIT_ABORT {
            AfterGreeter::Quit
        } else if c == EXIT_RESTART {
            AfterGreeter::Restart(login)
        } else {
            restart_failed(login)
        },
        None => restart_failed(login),
    }
}

/// What the daemon does where it was asked to restart and could not.
pub fn restart_failed(login: Option<Login>) -> (r: AfterGreeter)
    ensures
        r@ == without_request(login_or_none(login)),
{
    match login {
        Some(l) => AfterGreeter::Launch(l),
        None => AfterGreeter::Respawn,
    }
}

/// Ctrl+C in the greeter ends the display manager, and F5 restarts the daemon:
/// these keys end the greeter in any state, and the daemon understands its
/// exit status, also without a login.
pub proof fn greeter_keys_reach_the_daemon(g: StateView, k: KeyInput, login: Option<LoginView>)
    ensures
        k.is_ctrl("c"@, "C"@) ==> (key_outcome(g, k) matches KeyOutcome::Exit(code)
            && after_greeter(Some(code), login) == AfterGreeterView::Quit),
        k.key is F5 ==> (key_outcome(g, k) matches KeyOutcome::Exit(code) && after_greeter(
            Some(code),
            login,
        ) == AfterGreeterView::Restart(login)),
{
}

/// What the daemon does next.
#[derive(Debug, PartialEq, Eq)]
pub enum DaemonStep {
    /// Start a session again, without the greeter.
    Relaunch(Login),
    /// Show the greeter, after making its terminal the active one where that
    /// is a terminal of the console.
    ShowGreeter { claim_vt: bool },
}

/// The view of a [`DaemonStep`].
#[verifier::ext_equal]
pub enum DaemonStepView {
    Relaunch(LoginView),
    ShowGreeter { claim_vt: bool },
}

impl View for DaemonStep {
    type V = DaemonStepView;

    open spec fn view(&self) -> DaemonStepView {
        match self {
            DaemonStep::Relaunch(l) => DaemonStepView::Relaunch(l@),
            DaemonStep::ShowGreeter { claim_vt } => DaemonStepView::ShowGreeter {
                claim_vt: *claim_vt,
            },
        }
    }
}

/// The daemon between two of its steps: the login to start again, if its
/// session asked for it.
pub struct Daemon {
    pub is_real_tty: bool,
    pub pending_relaunch: Option<Login>,
}

/// The view of a [`Daemon`].
#[verifier::ext_equal]
pub struct DaemonView {
    pub is_real_tty: bool,
    pub pending_relaunch: Option<LoginView>,
}

impl View for Daemon {
    type V = DaemonView;

    open spec fn view(&self) -> DaemonView {
        DaemonView {
            is_real_tty: self.is_real_tty,
            pending_relaunch: login_or_none(self.pending_relaunch),
        }
    }
}

/// What the daemon does next.
pub open spec fn daemon_step(d: DaemonView) -> DaemonStepView {
    match d.pending_relaunch {
        Some(l) => DaemonStepView::Relaunch(l),
        None => DaemonStepView::ShowGreeter { claim_vt: d.is_real_tty },
    }
}

/// The daemon after a session, which may have asked to be started again.
pub open spec fn daemon_after(d: DaemonView, login: LoginView, relaunch: bool) -> DaemonView {
    if relaunch {
        DaemonView { pending_relaunch: Some(without_password(login)), ..d }
    } else {
        d
    }
}

impl Daemon {
    pub fn new(is_real_tty: bool) -> (r: Self)
        ensures
            r@ == (DaemonView { is_real_tty, pending_relaunch: None }),
    {
        Daemon { is_real_tty, pending_relaunch: None }
    }

    /// Takes the next step.
    pub fn next_step(&mut self) -> (r: DaemonStep)
        ensures
            r@ == daemon_step(old(self)@),
            final(self)@ == (DaemonView { pending_relaunch: None, ..old(self)@ }),
    {
        let mut pending: Option<Login> = None;
        std::mem::swap(&mut pending, &mut self.pending_relaunch);
        match pending {
            Some(l) => DaemonStep::Relaunch(l),
            None => DaemonStep::ShowGreeter { claim_vt: self.is_real_tty },
        }
    }

    /// A session has ended; it is started again where it asked for it.
    pub fn session_ended(&mut self, login: &Login, relaunch: bool)
        ensures
            final(self)@ == daemon_after(old(self)@, login@, relaunch),
    {
        if relaunch {
            let l = Login {
                username: login.username.clone(),
                command: login.command.clone(),
                is_wayland: login.is_wayland,
                password: String::new(),
            };
            assert(l@ =~= without_password(login@));
            self.pending_relaunch = Some(l);
        }
    }
}

/// A session that asks for it is started again next: the same one for the same
/// user, without the greeter, on the service that asks for no password.
pub proof fn a_restart_skips_the_greeter(d: DaemonView, login: LoginView)
    ensures
        daemon_step(daemon_after(d, login, true)) matches DaemonStepView::Relaunch(l)
            && l.username == login.username && l.command == login.command && l.is_wayland
            == login.is_wayland && service_for(l.password) == "cce-display-manager-autologin"@,
{
}

/// A session that does not ask for it is followed by the greeter.
pub proof fn a_session_is_followed_by_the_greeter(d: DaemonView, login: LoginView)
    requires
        d.pending_relaunch is None,
    ensures
        daemon_step(daemon_after(d, login, false)) == (DaemonStepView::ShowGreeter {
            claim_vt: d.is_real_tty,
        }),
{
}

// ---------------------------------------------------------------------------
// A session
// ---------------------------------------------------------------------------

/// The file by which a session asks to be started again.
pub fn restart_flag_path(username: &str) -> (r: String)
    ensures
        r@ == "/tmp/cce-restart-requested-"@ + username@,
{
    join2("/tmp/cce-restart-requested-", username)
}

/// What is found at the place of that file: links are not followed.
#[derive(Debug, Clone, Copy, PartialEq, Eq, Structural)]
pub struct FlagFile {
    pub is_regular: bool,
    pub owner: u32,
}

/// What is made of it.
#[derive(Debug, Clone, Copy, PartialEq, Eq, Structural)]
pub enum FlagVerdict {
    /// There is none.
    Absent,
    /// The session asked to be started again.
    Honoured,
    /// It counts for nothing, and is removed.
    Rejected,
}

/// What is made of a restart file: it counts only as a regular file of the
/// session's own user, because anyone can create one.
pub open spec fn flag_verdict(flag: Option<FlagFile>, user: Option<u32>) -> FlagVerdict {
    match flag {
        None => FlagVerdict::Absent,
        Some(f) => if f.is_regular && user == Some(f.owner) {
            FlagVerdict::Honoured
        } else {
            FlagVerdict::Rejected
        },
    }
}

/// What is made of a restart file.
pub fn restart_flag(flag: Option<FlagFile>, user: Option<u32>) -> (r: FlagVerdict)
    ensures
        r == flag_verdict(flag, user),
{
    match flag {
        None => FlagVerdict::Absent,
        Some(f) => match user {
            Some(uid) => if f.is_regular && uid == f.owner {
                FlagVerdict::Honoured
            } else {
                FlagVerdict::Rejected
            },
            None => FlagVerdict::Rejected,
        },
    }
}

/// A restart file of anyone but the session's user is never honoured.
pub proof fn only_the_user_restarts_the_session(flag: FlagFile, user: Option<u32>)
    ensures
        flag_verdict(Some(flag), user) == FlagVerdict::Honoured ==> flag.is_regular && user == Some(
            flag.owner,
        ),
{
}

/// A step of running a session from the daemon.
#[derive(Debug, Clone, Copy, PartialEq, Eq, Structural)]
pub enum LaunchStep {
    /// Remove a restart file that an earlier session left.
    RemoveStaleFlag,
    /// Make the session's terminal the active one.
    ClaimVt,
    /// Start the worker and hand it the password.
    SpawnWorker,
    /// Read the session's id from the worker.
    ReadSessionId,
    /// Wait for the worker's end.
    WaitForWorker,
    /// End the login session.
    TerminateSession,
    /// Look for a restart file.
    CheckFlag,
    /// Remove the one that was found, honoured or not.
    RemoveFlag { honoured: bool },
    /// Switch back to the greeter's terminal.
    SwitchBack,
    /// The session is over.
    Over { relaunch: bool },
}

/// What came of a step.
#[derive(Debug, Clone, Copy, PartialEq, Eq, Structural)]
pub enum LaunchEvent {
    /// It is done: the worker started, or the like.
    Done,
    /// It failed.
    Failed,
    /// What was made of the restart file.
    Flag(FlagVerdict),
}

/// The step after `step`. What came of it counts at two of them: whether the
/// worker started, and what was made of the restart file.
pub open spec fn launch_next(step: LaunchStep, e: LaunchEvent) -> LaunchStep {
    match step {
        LaunchStep::RemoveStaleFlag => LaunchStep::ClaimVt,
        LaunchStep::ClaimVt => LaunchStep::SpawnWorker,
        LaunchStep::SpawnWorker => if e == LaunchEvent::Done {
            LaunchStep::ReadSessionId
        } else {
            LaunchStep::Over { relaunch: false }
        },
        LaunchStep::ReadSessionId => LaunchStep::WaitForWorker,
        LaunchStep::WaitForWorker => LaunchStep::TerminateSession,
        LaunchStep::TerminateSession => LaunchStep::CheckFlag,
        LaunchStep::CheckFlag => match e {
            LaunchEvent::Flag(FlagVerdict::Honoured) => LaunchStep::RemoveFlag { honoured: true },
            LaunchEvent::Flag(FlagVerdict::Rejected) => LaunchStep::RemoveFlag { honoured: false },
            _ => LaunchStep::SwitchBack,
        },
        LaunchStep::RemoveFlag { honoured } => if honoured {
            LaunchStep::Over { relaunch: true }
        } else {
            LaunchStep::SwitchBack
        },
        LaunchStep::SwitchBack => LaunchStep::Over { relaunch: false },
        LaunchStep::Over { relaunch } => LaunchStep::Over { relaunch },
    }
}

/// The step after `step`.
pub fn next_launch_step(step: LaunchStep, event: LaunchEvent) -> (r: LaunchStep)
    ensures
        r == launch_next(step, event),
{
    match step {
        LaunchStep::RemoveStaleFlag => LaunchStep::ClaimVt,
        LaunchStep::ClaimVt => LaunchStep::SpawnWorker,
        LaunchStep::SpawnWorker => match event {
            LaunchEvent::Done => LaunchStep::ReadSessionId,
            _ => LaunchStep::Over { relaunch: false },
        },
        LaunchStep::ReadSessionId => LaunchStep::WaitForWorker,
        LaunchStep::WaitForWorker => LaunchStep::TerminateSession,
        LaunchStep::TerminateSession => LaunchStep::CheckFlag,
        LaunchStep::CheckFlag => match event {
            LaunchEvent::Flag(FlagVerdict::Honoured) => LaunchStep::RemoveFlag { honoured: true },
            LaunchEvent::Flag(FlagVerdict::Rejected) => LaunchStep::RemoveFlag { honoured: false },
            _ => LaunchStep::SwitchBack,
        },
        LaunchStep::RemoveFlag { honoured } => if honoured {
            LaunchStep::Over { relaunch: true }
        } else {
            LaunchStep::SwitchBack
        },
        LaunchStep::SwitchBack => LaunchStep::Over { relaunch: false },
        LaunchStep::Over { relaunch } => LaunchStep::Over { relaunch },
    }
}

/// Where running a session stands after these events.
pub open spec fn launch_after(events: Seq<LaunchEvent>) -> LaunchStep
    decreases events.len(),
{
    if events.len() == 0 {
        LaunchStep::RemoveStaleFlag
    } else {
        launch_next(launch_after(events.drop_last()), events.last())
    }
}

/// The place of a step on the way of a session whose worker starts; the last
/// two come one earlier where there is no restart file.
pub open spec fn launch_place(step: LaunchStep) -> int {
    match step {
        LaunchStep::RemoveStaleFlag => 0,
        LaunchStep::ClaimVt => 1,
        LaunchStep::SpawnWorker => 2,
        LaunchStep::ReadSessionId => 3,
        LaunchStep::WaitForWorker => 4,
        LaunchStep::TerminateSession => 5,
        LaunchStep::CheckFlag => 6,
        LaunchStep::RemoveFlag { .. } => 7,
        LaunchStep::SwitchBack => 8,
        LaunchStep::Over { .. } => 9,
    }
}

/// Where the way of a session leads: what stands at each place of it.
proof fn lemma_launch_way(events: Seq<LaunchEvent>)
    ensures
        ({
            let n = events.len();
            let step = launch_after(events);
            &&& n == 0 ==> step == LaunchStep::RemoveStaleFlag
            &&& n == 1 ==> step == LaunchStep::ClaimVt
            &&& n == 2 ==> step == LaunchStep::SpawnWorker
            &&& n > 2 && events[2] != LaunchEvent::Done ==> step == (LaunchStep::Over {
                relaunch: false,
            })
            &&& n > 2 && events[2] == LaunchEvent::Done ==> {
                &&& n == 3 ==> step == LaunchStep::ReadSessionId
                &&& n == 4 ==> step == LaunchStep::WaitForWorker
                &&& n == 5 ==> step == LaunchStep::TerminateSession
                &&& n == 6 ==> step == LaunchStep::CheckFlag
                &&& n > 6 ==> step == (match events[6] {
                    LaunchEvent::Flag(FlagVerdict::Honoured) => if n == 7 {
                        LaunchStep::RemoveFlag { honoured: true }
                    } else {
                        LaunchStep::Over { relaunch: true }
                    },
                    LaunchEvent::Flag(FlagVerdict::Rejected) => if n == 7 {
                        LaunchStep::RemoveFlag { honoured: false }
                    } else if n == 8 {
                        LaunchStep::SwitchBack
                    } else {
                        LaunchStep::Over { relaunch: false }
                    },
                    _ => if n == 7 {
                        LaunchStep::SwitchBack
                    } else {
                        LaunchStep::Over { relaunch: false }
                    },
                })
            }
        }),
    decreases events.len(),
{
    if events.len() > 0 {
        lemma_launch_way(events.drop_last());
    }
}

/// A session is started again only where its worker ran to its end, its login
/// session was ended, and then its restart file was honoured; and a stale file
/// cannot do it, because it is removed before the worker starts.
pub proof fn a_relaunch_follows_an_honoured_flag(events: Seq<LaunchEvent>)
    requires
        launch_after(events) == (LaunchStep::Over { relaunch: true }),
    ensures
        events.len() > launch_place(LaunchStep::CheckFlag),
        events[launch_place(LaunchStep::SpawnWorker)] == LaunchEvent::Done,
        events[launch_place(LaunchStep::CheckFlag)] == LaunchEvent::Flag(FlagVerdict::Honoured),
        launch_after(events.take(launch_place(LaunchStep::RemoveStaleFlag)))
            == LaunchStep::RemoveStaleFlag,
        launch_after(events.take(launch_place(LaunchStep::CheckFlag))) == LaunchStep::CheckFlag,
{
    lemma_launch_way(events);
    lemma_launch_way(events.take(6));
}

/// A session does not outlive its end: where the worker started, the daemon
/// goes on to the greeter or to another session only after it waited for the
/// worker and ended the login session.
pub proof fn every_session_is_ended(events: Seq<LaunchEvent>)
    requires
        launch_after(events) is Over,
    ensures
        events.len() > launch_place(LaunchStep::SpawnWorker),
        events[launch_place(LaunchStep::SpawnWorker)] == LaunchEvent::Done ==> {
            &&& events.len() > launch_place(LaunchStep::CheckFlag)
            &&& launch_after(events.take(launch_place(LaunchStep::WaitForWorker)))
                == LaunchStep::WaitForWorker
            &&& launch_after(events.take(launch_place(LaunchStep::TerminateSession)))
                == LaunchStep::TerminateSession
        },
{
    lemma_launch_way(events);
    if events[2] == LaunchEvent::Done {
        lemma_launch_way(events.take(4));
        lemma_launch_way(events.take(5));
    }
}

/// The restart file decides what follows a session whose worker started: where
/// it is a regular file of the session's user, the same session is started
/// again, without a password; where it is anything else, or there is none,
/// what was pending stays. One that exists is removed either way, before the
/// session counts as over.
pub proof fn the_restart_file_decides(
    events: Seq<LaunchEvent>,
    flag: Option<FlagFile>,
    user: Option<u32>,
    d: DaemonView,
    login: LoginView,
)
    requires
        launch_after(events) is Over,
        events[launch_place(LaunchStep::SpawnWorker)] == LaunchEvent::Done,
        events[launch_place(LaunchStep::CheckFlag)] == LaunchEvent::Flag(flag_verdict(flag, user)),
    ensures
        ({
            let counts = flag matches Some(f) && f.is_regular && user == Some(f.owner);
            let relaunch = launch_after(events)->relaunch;
            let next = launch_after(events.take(launch_place(LaunchStep::CheckFlag) + 1));
            &&& relaunch == counts
            &&& flag is Some ==> next == (LaunchStep::RemoveFlag { honoured: counts })
            &&& flag is None ==> next == LaunchStep::SwitchBack
            &&& counts ==> daemon_after(d, login, relaunch).pending_relaunch == Some(
                without_password(login),
            )
            &&& !counts ==> daemon_after(d, login, relaunch) == d
        }),
{
    every_session_is_ended(events);
    lemma_launch_way(events);
    lemma_launch_way(events.take(7));
}

/// What is done with the login session of a worker that ended.
#[derive(Debug, Clone, PartialEq, Eq)]
pub enum SessionEnd {
    /// End it: whatever it left running is stopped.
    Terminate(Invocation),
    /// The id has another shape: warn, and leave it alone.
    Unexpected,
    /// No session was reported.
    Nothing,
}

/// Ends a login session, where its id is one.
pub fn terminate_session(id: &str) -> (r: SessionEnd)
    ensures
        match r {
            SessionEnd::Terminate(i) => is_session_id(id@) && i@ == plain_call(
                "loginctl"@,
                seq!["terminate-session"@, id@],
            ),
            SessionEnd::Unexpected => !is_session_id(id@) && id@.len() > 0,
            SessionEnd::Nothing => id@.len() == 0,
        },
{
    if !valid_session_id(id) {
        if id.is_empty() {
            SessionEnd::Nothing
        } else {
            SessionEnd::Unexpected
        }
    } else {
        let i = Invocation::new("loginctl").arg("terminate-session").arg(id);
        assert(i@ =~= plain_call("loginctl"@, seq!["terminate-session"@, id@]));
        SessionEnd::Terminate(i)
    }
}

// ---------------------------------------------------------------------------
// Ending the greeter
// ---------------------------------------------------------------------------

/// How often the greeter is looked at before it is killed.
pub const EXIT_POLLS: u32 = 30;

/// The pause between two looks, in milliseconds.
pub const EXIT_POLL_MILLIS: u64 = 100;

/// The next step of ending a greeter that was asked to end.
#[derive(Debug, Clone, Copy, PartialEq, Eq, Structural)]
pub enum EndStep {
    /// Pause, and look again.
    Pause,
    /// Kill it.
    Kill,
    /// It is gone.
    Gone,
}

/// The step after a look at the greeter. It is given its time, and then killed
/// without another look.
pub open spec fn end_step(pauses: int, gone: bool) -> EndStep {
    if pauses >= EXIT_POLLS {
        EndStep::Kill
    } else if gone {
        EndStep::Gone
    } else {
        EndStep::Pause
    }
}

/// The step after a look at the greeter of before a resume. Here a last look
/// comes before the kill: one that was replaced meanwhile is left alone.
pub open spec fn resume_end_step(pauses: int, gone: bool) -> EndStep {
    if gone {
        EndStep::Gone
    } else if pauses >= EXIT_POLLS {
        EndStep::Kill
    } else {
        EndStep::Pause
    }
}

/// What to do with a greeter that was asked to end, after so many pauses.
pub fn terminate_greeter(pauses: u32, gone: bool) -> (r: EndStep)
    ensures
        r == end_step(pauses as int, gone),
{
    if pauses >= EXIT_POLLS {
        EndStep::Kill
    } else if gone {
        EndStep::Gone
    } else {
        EndStep::Pause
    }
}

/// What to do with the greeter of before a resume, after so many pauses since
/// it was asked to end. `shown` is the process that is shown now.
pub fn on_resume(pid: i32, shown: i32, pauses: u32) -> (r: EndStep)
    ensures
        r == resume_end_step(pauses as int, shown != pid),
{
    if shown != pid {
        EndStep::Gone
    } else if pauses >= EXIT_POLLS {
        EndStep::Kill
    } else {
        EndStep::Pause
    }
}

/// The steps of ending a greeter, where the looks at it find these answers: as
/// many as it takes to come to an end.
pub open spec fn end_steps(looks: Seq<bool>, resume: bool) -> Seq<EndStep>
    decreases looks.len(),
{
    if looks.len() == 0 {
        Seq::empty()
    } else {
        let steps = end_steps(looks.drop_last(), resume);
        if steps.len() < looks.len() - 1 || (steps.len() > 0 && steps.last() != EndStep::Pause) {
            steps
        } else if resume {
            steps.push(resume_end_step(steps.len() as int, looks.last()))
        } else {
            steps.push(end_step(steps.len() as int, looks.last()))
        }
    }
}

/// A greeter is killed only after its full time, in which every look found it
/// running; and one that does not end is killed then.
pub proof fn a_greeter_is_killed_after_its_time(looks: Seq<bool>, resume: bool)
    ensures
        ({
            let steps = end_steps(looks, resume);
            &&& steps.len() <= looks.len()
            &&& steps.len() <= EXIT_POLLS + 1
            &&& forall|i: int| 0 <= i < steps.len() - 1 ==> #[trigger] steps[i] == EndStep::Pause
            &&& forall|i: int|
                0 <= i < steps.len() && steps[i] == EndStep::Pause ==> !#[trigger] looks[i]
            &&& steps.len() > 0 && steps.last() == EndStep::Kill ==> steps.len() == EXIT_POLLS + 1
            &&& looks.len() > EXIT_POLLS && (forall|i: int|
                0 <= i < looks.len() ==> !#[trigger] looks[i]) ==> steps.last() == EndStep::Kill
        }),
    decreases looks.len(),
{
    if looks.len() > 0 {
        let before = looks.drop_last();
        a_greeter_is_killed_after_its_time(before, resume);
        let steps = end_steps(looks, resume);
        let old_steps = end_steps(before, resume);
        lemma_end_steps(before, resume);
        assert forall|i: int| 0 <= i < steps.len() && steps[i] == EndStep::Pause implies !#[trigger] looks[i] by {
            if i < old_steps.len() {
                assert(old_steps[i] == EndStep::Pause);
                assert(!before[i]);
            }
        }
        if looks.len() > EXIT_POLLS && (forall|i: int|
            0 <= i < looks.len() ==> !#[trigger] looks[i]) {
            assert forall|i: int| 0 <= i < before.len() implies !#[trigger] before[i] by {
                assert(before[i] == looks[i]);
            }
            assert(!looks[looks.len() - 1]);
        }
    }
}

/// The steps go on as long as the greeter is there and time is left.
proof fn lemma_end_steps(looks: Seq<bool>, resume: bool)
    ensures
        ({
            let steps = end_steps(looks, resume);
            &&& steps.len() <= looks.len()
            &&& steps.len() < looks.len() ==> steps.len() > 0 && steps.last() != EndStep::Pause
            &&& steps.len() == 0 ==> looks.len() == 0
            &&& (forall|i: int| 0 <= i < looks.len() ==> !#[trigger] looks[i]) ==> {
                &&& looks.len() <= EXIT_POLLS ==> steps.len() == looks.len()
                &&& looks.len() <= EXIT_POLLS && looks.len() > 0 ==> steps.last() == EndStep::Pause
            }
        }),
    decreases looks.len(),
{
    if looks.len() > 0 {
        let before = looks.drop_last();
        lemma_end_steps(before, resume);
        if forall|i: int| 0 <= i < looks.len() ==> !#[trigger] looks[i] {
            assert forall|i: int| 0 <= i < before.len() implies !#[trigger] before[i] by {
                assert(before[i] == looks[i]);
            }
            assert(!looks[looks.len() - 1]);
        }
    }
}

/// Whether a resume concerns the greeter: only while one is shown. With a
/// session on the seat there is none, and its number is 0.
pub fn resume_concerns_greeter(greeter_pid: i32) -> (r: bool)
    ensures
        r == (greeter_pid > 0),
{
    greeter_pid > 0
}

// ---------------------------------------------------------------------------
// Laws
// ---------------------------------------------------------------------------

/// Every login that was read is launched, with all its fields, whatever status
/// the greeter ended with, unless one of its two keys asked for something
/// else; and the greeter is shown again only where no login was read.
pub proof fn a_login_is_launched(code: Option<i32>, login: Option<LoginView>)
    ensures
        code != Some(130i32) && code != Some(135i32) ==> {
            &&& login matches Some(l) ==> (after_greeter(code, login) matches AfterGreeterView::Launch(
                started,
            ) && started.username == l.username && started.command == l.command
                && started.is_wayland == l.is_wayland && started.password == l.password)
            &&& login is None ==> after_greeter(code, login) is Respawn
        },
        after_greeter(code, login) is Quit <==> code == Some(130i32),
        after_greeter(code, login) is Restart <==> code == Some(135i32),
        after_greeter(code, login) is Respawn ==> login is None,
        after_greeter(code, login) matches AfterGreeterView::Launch(l) ==> login == Some(l),
        after_greeter(code, login) matches AfterGreeterView::Restart(l) ==> login == l,
        without_request(login) is Respawn <==> login is None,
        without_request(login) matches AfterGreeterView::Launch(l) ==> login == Some(l),
        !(without_request(login) is Quit) && !(without_request(login) is Restart),
{
}

/// A session that is started again is the same one of the same user, and
/// carries no password; the login that was given stays as it is otherwise. The
/// next step after it is not repeated: the one that follows shows the greeter.
pub proof fn a_relaunch_carries_no_password(d: DaemonView, login: LoginView, relaunch: bool)
    ensures
        ({
            let l = without_password(login);
            &&& l.password.len() == 0
            &&& l.username == login.username && l.command == login.command
            &&& l.is_wayland == login.is_wayland
        }),
        daemon_after(d, login, relaunch).is_real_tty == d.is_real_tty,
        relaunch ==> (daemon_after(d, login, relaunch).pending_relaunch matches Some(l)
            && l.password.len() == 0 && l.username == login.username),
        !relaunch ==> daemon_after(d, login, relaunch) == d,
        daemon_step(d) is Relaunch <==> d.pending_relaunch is Some,
        daemon_step(d) matches DaemonStepView::Relaunch(l) ==> d.pending_relaunch == Some(l),
        daemon_step(d) matches DaemonStepView::ShowGreeter { claim_vt } ==> claim_vt
            == d.is_real_tty,
{
}

/// The worker is started with the fields of the login and the terminal.
pub proof fn the_worker_is_told_the_login(l: LoginView, tty_name: Seq<char>)
    ensures
        worker_args_of(l, tty_name).tty == tty_name,
        worker_args_of(l, tty_name).username == l.username,
        worker_args_of(l, tty_name).command == l.command,
        worker_args_of(l, tty_name).is_wayland == l.is_wayland,
{
}

/// What is logged of a line ends with the line itself, unless it is a login
/// line. Of a login that can be read, every field but the password stands in
/// the log.
pub proof fn the_log_shows_the_line(line: Seq<char>)
    ensures
        login_of(line) is None && !"AUTH_SUCCESS|"@.is_prefix_of(line) ==> logged(line)
            == "[greeter-stdout] "@ + line,
        login_of(line) matches Some((user, exec, is_wayland, _)) ==> logged(line)
            == "[greeter-stdout] AUTH_SUCCESS|"@ + user + seq!['|'] + exec + seq!['|'] + (
        if is_wayland {
            "true"@
        } else {
            "false"@
        }),
        login_of(line) is None && "AUTH_SUCCESS|"@.is_prefix_of(line) ==> logged(line)
            == "[greeter-stdout] malformed AUTH_SUCCESS line (redacted); login attempt dropped"@,
{
    reveal_strlit("|");
    assert("|"@ =~= seq!['|']);
}

/// The greeter is this program, run under `cage` with its runtime directory.
pub proof fn the_greeter_runs_under_its_compositor(exe: Seq<char>, runtime_dir: Seq<char>)
    ensures
        ({
            let c = greeter_call(exe, runtime_dir);
            &&& c.program == "cage"@
            &&& c.args.len() == 4 && c.args[0] == "-s"@ && c.args[1] == "--"@
            &&& c.args[2] == exe && c.args[3] == "--greeter"@
            &&& c.env.contains(("XDG_RUNTIME_DIR"@, runtime_dir))
            &&& c.env.contains(("CCE_FONTS_DIR"@, "/usr/share/fonts/cce"@))
            &&& c.env.contains(("CCE_LOAD_SYSTEM_FONTS"@, "1"@))
            &&& c.env.contains(("LIBSEAT_BACKEND"@, "seatd"@))
            &&& c.env.contains(("WLR_DRM_NO_MODIFIERS"@, "1"@))
            &&& c.env.contains(("WLR_DRM_DEVICES"@, "/dev/dri/card1:/dev/dri/card0"@))
            &&& c.env.len() == 6
        }),
{
    let e = greeter_call(exe, runtime_dir).env;
    assert(e[0] == ("XDG_RUNTIME_DIR"@, runtime_dir));
    assert(e[1] == ("CCE_FONTS_DIR"@, "/usr/share/fonts/cce"@));
    assert(e[2] == ("CCE_LOAD_SYSTEM_FONTS"@, "1"@));
    assert(e[3] == ("LIBSEAT_BACKEND"@, "seatd"@));
    assert(e[4] == ("WLR_DRM_NO_MODIFIERS"@, "1"@));
    assert(e[5] == ("WLR_DRM_DEVICES"@, "/dev/dri/card1:/dev/dri/card0"@));
}

/// A restart file that exists is either honoured or rejected: honoured exactly
/// as a regular file of the session's user.
pub proof fn a_restart_file_is_judged(flag: Option<FlagFile>, user: Option<u32>)
    ensures
        flag_verdict(flag, user) is Absent <==> flag is None,
        flag_verdict(flag, user) is Honoured <==> (flag matches Some(f) && f.is_regular
            && user == Some(f.owner)),
        flag_verdict(flag, user) is Rejected <==> (flag matches Some(f) && !(f.is_regular
            && user == Some(f.owner))),
{
}

/// The way of a session whose worker starts: every step in its place, whatever
/// else fails on it. The daemon switches back to the greeter's terminal unless
/// the session is started again.
pub proof fn the_way_of_a_session(events: Seq<LaunchEvent>)
    requires
        events.len() > 2 ==> events[2] == LaunchEvent::Done,
    ensures
        events.len() == 0 ==> launch_after(events) is RemoveStaleFlag,
        events.len() == 1 ==> launch_after(events) is ClaimVt,
        events.len() == 2 ==> launch_after(events) is SpawnWorker,
        events.len() == 3 ==> launch_after(events) is ReadSessionId,
        events.len() == 4 ==> launch_after(events) is WaitForWorker,
        events.len() == 5 ==> launch_after(events) is TerminateSession,
        events.len() == 6 ==> launch_after(events) is CheckFlag,
        events.len() > 6 ==> {
            let honoured = events[6] == LaunchEvent::Flag(FlagVerdict::Honoured);
            let rejected = events[6] == LaunchEvent::Flag(FlagVerdict::Rejected);
            let after = launch_after(events);
            &&& events.len() == 7 ==> if honoured || rejected {
                after == (LaunchStep::RemoveFlag { honoured })
            } else {
                after is SwitchBack
            }
            &&& events.len() == 8 && rejected ==> after is SwitchBack
            &&& events.len() >= 9 || events.len() == 8 && !rejected ==> after == (LaunchStep::Over {
                relaunch: honoured,
            })
        },
{
    lemma_launch_way(events);
}

/// Where the worker cannot be started, the session is over at once and is not
/// started again.
pub proof fn a_worker_that_does_not_start(events: Seq<LaunchEvent>)
    requires
        events.len() > 2,
        events[2] != LaunchEvent::Done,
    ensures
        launch_after(events) == (LaunchStep::Over { relaunch: false }),
{
    lemma_launch_way(events);
}

/// A greeter counts as gone only where a look found it gone. It is killed after
/// thirty pauses: at the end of the session without another look, before a
/// resume only where the last one found it still there. Until then it is
/// looked at again.
pub proof fn a_greeter_gets_its_time(pauses: int, gone: bool)
    ensures
        end_step(pauses, gone) is Gone <==> gone && pauses < 30,
        end_step(pauses, gone) is Kill <==> pauses >= 30,
        end_step(pauses, gone) is Pause <==> !gone && pauses < 30,
        resume_end_step(pauses, gone) is Gone <==> gone,
        resume_end_step(pauses, gone) is Kill <==> !gone && pauses >= 30,
        resume_end_step(pauses, gone) is Pause <==> !gone && pauses < 30,
{
}

/// A login that was read is taken as it is.
pub proof fn a_login_is_taken(l: Option<Login>)
    ensures
        login_or_none(l) is None <==> l is None,
        l matches Some(given) ==> (login_or_none(l) matches Some(taken) && taken == given@),
{
}

} // verus!
