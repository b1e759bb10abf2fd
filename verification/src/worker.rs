//! The session worker: opens a user's session, runs it as the user, and closes
//! it.
use vstd::prelude::*;

use crate::invocation::{pairs_view, plain_call, Invocation};
use crate::number::{decimal, decimal_text};
use crate::session::{session_command, session_words};
use crate::text::{join2, same, strip_prefix, texts, trim, trimmed};

verus! {

// ---------------------------------------------------------------------------
// The course of a session
// ---------------------------------------------------------------------------

/// A step of the worker.
#[derive(Debug, Clone, Copy, PartialEq, Eq, Structural)]
pub enum WorkerStep {
    /// Read the password from standard input.
    ReadPassword,
    /// Find the user's account.
    LookUpUser,
    /// Set the worker's environment and start PAM on the session's service.
    StartPam,
    /// Tell PAM the kind of the session.
    PutSessionEnv,
    /// Check the user.
    Authenticate,
    /// Open the session.
    OpenSession,
    /// Report the session's id to the daemon.
    Report,
    /// Activate the session.
    Activate,
    /// Find out what to run.
    ResolveCommand,
    /// Run the session as the user, and wait for its end.
    RunSession,
    /// Close the session.
    ClosePam,
    /// End with this exit status.
    Exit(i32),
}

/// The first step: a worker that is not root ends at once, before it reads the
/// password.
pub open spec fn worker_first(uid: u32) -> WorkerStep {
    if uid != 0 {
        WorkerStep::Exit(1)
    } else {
        WorkerStep::ReadPassword
    }
}

/// The step after `step`, which succeeded or not. Telling PAM the kind of the
/// session, reporting it and activating it may fail; a session that could not
/// be run is closed like one that ended.
pub open spec fn worker_next(step: WorkerStep, ok: bool) -> WorkerStep {
    match step {
        WorkerStep::ReadPassword => if ok {
            WorkerStep::LookUpUser
        } else {
            WorkerStep::Exit(1)
        },
        WorkerStep::LookUpUser => if ok {
            WorkerStep::StartPam
        } else {
            WorkerStep::Exit(1)
        },
        WorkerStep::StartPam => if ok {
            WorkerStep::PutSessionEnv
        } else {
            WorkerStep::Exit(1)
        },
        WorkerStep::PutSessionEnv => WorkerStep::Authenticate,
        WorkerStep::Authenticate => if ok {
            WorkerStep::OpenSession
        } else {
            WorkerStep::Exit(1)
        },
        WorkerStep::OpenSession => if ok {
            WorkerStep::Report
        } else {
            WorkerStep::Exit(1)
        },
        WorkerStep::Report => WorkerStep::Activate,
        WorkerStep::Activate => WorkerStep::ResolveCommand,
        WorkerStep::ResolveCommand => if ok {
            WorkerStep::RunSession
        } else {
            WorkerStep::Exit(1)
        },
        WorkerStep::RunSession => WorkerStep::ClosePam,
        WorkerStep::ClosePam => WorkerStep::Exit(0),
        WorkerStep::Exit(code) => WorkerStep::Exit(code),
    }
}

/// The first step of a worker.
pub fn first_worker_step(uid: u32) -> (r: WorkerStep)
    ensures
        r == worker_first(uid),
{
    if uid != 0 {
        WorkerStep::Exit(1)
    } else {
        WorkerStep::ReadPassword
    }
}

/// The step after `step`, which succeeded or not.
pub fn next_worker_step(step: WorkerStep, ok: bool) -> (r: WorkerStep)
    ensures
        r == worker_next(step, ok),
{
    match step {
        WorkerStep::PutSessionEnv => WorkerStep::Authenticate,
        WorkerStep::Report => WorkerStep::Activate,
        WorkerStep::Activate => WorkerStep::ResolveCommand,
        WorkerStep::RunSession => WorkerStep::ClosePam,
        WorkerStep::ClosePam => WorkerStep::Exit(0),
        WorkerStep::Exit(code) => WorkerStep::Exit(code),
        _ => {
            if !ok {
                return WorkerStep::Exit(1);
            }
            match step {
                WorkerStep::ReadPassword => WorkerStep::LookUpUser,
                WorkerStep::LookUpUser => WorkerStep::StartPam,
                WorkerStep::StartPam => WorkerStep::PutSessionEnv,
                WorkerStep::Authenticate => WorkerStep::OpenSession,
                WorkerStep::OpenSession => WorkerStep::Report,
                _ => WorkerStep::RunSession,
            }
        },
    }
}

/// Where a worker stands after steps with these results.
pub open spec fn worker_after(uid: u32, results: Seq<bool>) -> WorkerStep
    decreases results.len(),
{
    if results.len() == 0 {
        worker_first(uid)
    } else {
        worker_next(worker_after(uid, results.drop_last()), results.last())
    }
}

/// The place of a step on the way of a worker that nothing stops.
pub open spec fn worker_place(step: WorkerStep) -> int {
    match step {
        WorkerStep::ReadPassword => 0,
        WorkerStep::LookUpUser => 1,
        WorkerStep::StartPam => 2,
        WorkerStep::PutSessionEnv => 3,
        WorkerStep::Authenticate => 4,
        WorkerStep::OpenSession => 5,
        WorkerStep::Report => 6,
        WorkerStep::Activate => 7,
        WorkerStep::ResolveCommand => 8,
        WorkerStep::RunSession => 9,
        WorkerStep::ClosePam => 10,
        WorkerStep::Exit(_) => 11,
    }
}

proof fn lemma_worker_way(uid: u32, results: Seq<bool>)
    ensures
        !(worker_after(uid, results) is Exit) ==> uid == 0 && results.len() == worker_place(
            worker_after(uid, results),
        ),
        !(worker_after(uid, results) is Exit) ==> forall|i: int|
            0 <= i < results.len() && i != 3 && i != 6 && i != 7 && i != 9
                ==> #[trigger] results[i],
        worker_after(uid, results) matches WorkerStep::Exit(code) ==> code == 0 || code == 1,
        worker_after(uid, results) == WorkerStep::Exit(0) ==> uid == 0 && results.len() >= 11
            && forall|i: int|
            0 <= i < 11 && i != 3 && i != 6 && i != 7 && i != 9 && i != 10
                ==> #[trigger] results[i],
    decreases results.len(),
{
    if results.len() > 0 {
        let t = results.drop_last();
        lemma_worker_way(uid, t);
        let s = worker_after(uid, t);
        if !(worker_after(uid, results) is Exit) {
            assert forall|i: int|
                0 <= i < results.len() && i != 3 && i != 6 && i != 7 && i != 9 implies
                #[trigger] results[i] by {
                if i < t.len() {
                    assert(t[i]);
                }
            }
        }
        if worker_after(uid, results) == WorkerStep::Exit(0) {
            assert forall|i: int|
                0 <= i < 11 && i != 3 && i != 6 && i != 7 && i != 9 && i != 10 implies
                #[trigger] results[i] by {
                assert(t[i] == results[i]);
            }
        }
    }
}

/// A session is run only by a root worker, for a user who was found, whose
/// credentials and account were accepted, and whose session was opened.
pub proof fn a_session_runs_only_when_opened(uid: u32, results: Seq<bool>)
    requires
        worker_after(uid, results) is RunSession,
    ensures
        uid == 0,
        results.len() == worker_place(WorkerStep::RunSession),
        results[worker_place(WorkerStep::LookUpUser)],
        results[worker_place(WorkerStep::Authenticate)],
        results[worker_place(WorkerStep::OpenSession)],
        results[worker_place(WorkerStep::ResolveCommand)],
{
    lemma_worker_way(uid, results);
    assert(results[1] && results[4] && results[5] && results[8]);
}

/// A worker that is not root reads no password and opens no session: it is at
/// its end from the start, with exit status 1.
pub proof fn a_worker_that_is_not_root_does_nothing(uid: u32, results: Seq<bool>)
    requires
        uid != 0,
    ensures
        worker_after(uid, results) == WorkerStep::Exit(1),
    decreases results.len(),
{
    if results.len() > 0 {
        a_worker_that_is_not_root_does_nothing(uid, results.drop_last());
    }
}

/// A worker that ends with exit status 0 has closed the session that it ran.
pub proof fn success_means_closed(uid: u32, results: Seq<bool>)
    requires
        worker_after(uid, results) == WorkerStep::Exit(0),
    ensures
        results.len() > worker_place(WorkerStep::ClosePam),
        worker_after(uid, results.take(worker_place(WorkerStep::ClosePam))) is ClosePam,
        worker_after(uid, results.take(worker_place(WorkerStep::RunSession))) is RunSession,
    decreases results.len(),
{
    lemma_worker_way(uid, results);
    let t = results.drop_last();
    if results.len() > 11 {
        lemma_worker_way(uid, t);
        assert(worker_after(uid, t) is Exit || worker_after(uid, t) is ClosePam);
        success_means_closed(uid, t);
        assert(t.take(10) =~= results.take(10));
        assert(t.take(9) =~= results.take(9));
    } else {
        lemma_worker_way(uid, t);
        assert(results.take(10) =~= t);
        let u = t.drop_last();
        lemma_worker_way(uid, u);
        assert(results.take(9) =~= u);
        assert(worker_after(uid, t) is ClosePam);
    }
}

// ---------------------------------------------------------------------------
// The user and the environment
// ---------------------------------------------------------------------------

/// What the worker needs of a user's account.
#[derive(Debug, Clone, PartialEq, Eq)]
pub struct Account {
    pub username: String,
    pub uid: u32,
    pub gid: u32,
    pub home: String,
    pub shell: String,
}

/// The shell of an account; one that is no text counts as `/bin/bash`.
pub fn account_shell(shell: Option<&str>) -> (r: String)
    ensures
        r@ == (match shell {
            Some(s) => s@,
            None => "/bin/bash"@,
        }),
{
    match shell {
        Some(s) => s.to_owned(),
        None => "/bin/bash".to_owned(),
    }
}

/// The runtime directory of a user.
pub open spec fn runtime_dir(uid: u32) -> Seq<char> {
    "/run/user/"@ + decimal(uid as nat)
}

/// The runtime directory of a user.
pub fn user_runtime_dir(uid: u32) -> (r: String)
    ensures
        r@ == runtime_dir(uid),
{
    join2("/run/user/", decimal_text(uid as u64).as_str())
}

/// The variables of the worker itself, which the PAM modules see.
pub open spec fn base_env(a: Account) -> Seq<(Seq<char>, Seq<char>)> {
    seq![
        ("USER"@, a.username@),
        ("LOGNAME"@, a.username@),
        ("HOME"@, a.home@),
        ("SHELL"@, a.shell@),
        ("XDG_RUNTIME_DIR"@, runtime_dir(a.uid)),
    ]
}

/// The variables that the worker sets for itself before it starts PAM.
pub fn worker_env(a: &Account) -> (r: Vec<(String, String)>)
    ensures
        pairs_view(r@) == base_env(*a),
{
    let r = vec![
        ("USER".to_owned(), a.username.clone()),
        ("LOGNAME".to_owned(), a.username.clone()),
        ("HOME".to_owned(), a.home.clone()),
        ("SHELL".to_owned(), a.shell.clone()),
        ("XDG_RUNTIME_DIR".to_owned(), user_runtime_dir(a.uid)),
    ];
    assert(pairs_view(r@) =~= base_env(*a));
    r
}

/// The kind of a session, as the environment names it.
pub open spec fn session_type(is_wayland: bool) -> Seq<char> {
    if is_wayland {
        "wayland"@
    } else {
        "x11"@
    }
}

/// What PAM is told of the session.
pub fn pam_session_env(is_wayland: bool) -> (r: Vec<String>)
    ensures
        texts(r@) == seq![
            "XDG_SESSION_TYPE="@ + session_type(is_wayland),
            "XDG_SESSION_CLASS=user"@,
        ],
{
    let kind = if is_wayland {
        "wayland"
    } else {
        "x11"
    };
    let r = vec![join2("XDG_SESSION_TYPE=", kind), "XDG_SESSION_CLASS=user".to_owned()];
    assert(texts(r@) =~= seq![
        "XDG_SESSION_TYPE="@ + session_type(is_wayland),
        "XDG_SESSION_CLASS=user"@,
    ]);
    r
}

/// The variables that the session is given after those of PAM.
pub open spec fn own_env(a: Account, is_wayland: bool) -> Seq<(Seq<char>, Seq<char>)> {
    seq![
        ("USER"@, a.username@),
        ("LOGNAME"@, a.username@),
        ("HOME"@, a.home@),
        ("SHELL"@, a.shell@),
        ("PATH"@, "/usr/local/sbin:/usr/local/bin:/usr/sbin:/usr/bin:/sbin:/bin"@),
        ("XDG_RUNTIME_DIR"@, runtime_dir(a.uid)),
        ("XDG_SESSION_TYPE"@, session_type(is_wayland)),
        ("XDG_SESSION_CLASS"@, "user"@),
    ]
}

/// The variables that the session does not get, set or inherited.
pub open spec fn sudo_vars() -> Seq<Seq<char>> {
    seq!["SUDO_USER"@, "SUDO_UID"@, "SUDO_GID"@, "SUDO_COMMAND"@]
}

/// The variables that the session does not get, set or inherited.
pub fn removed_vars() -> (r: Vec<String>)
    ensures
        texts(r@) == sudo_vars(),
{
    let r = vec![
        "SUDO_USER".to_owned(),
        "SUDO_UID".to_owned(),
        "SUDO_GID".to_owned(),
        "SUDO_COMMAND".to_owned(),
    ];
    assert(texts(r@) =~= sudo_vars());
    r
}

/// The program of a session, with its arguments and its environment: that of
/// PAM first, then the worker's own variables. `None` where there is nothing
/// to run.
pub fn session_invocation(
    command: &str,
    is_wayland: bool,
    pam_env: &Vec<(String, String)>,
    a: &Account,
) -> (r: Option<Invocation>)
    ensures
        r is Some <==> session_words(command@, is_wayland).len() > 0,
        r matches Some(i) ==> {
            &&& seq![i@.program] + i@.args == session_words(command@, is_wayland)
            &&& i@.env == pairs_view(pam_env@) + own_env(*a, is_wayland)
        },
{
    let (program, args) = match session_command(command, is_wayland) {
        Some(c) => c,
        None => {
            return None;
        },
    };
    let mut env: Vec<(String, String)> = Vec::new();
    let ghost given = pairs_view(pam_env@);
    let mut i: usize = 0;
    assert(pairs_view(env@) =~= given.take(0));
    while i < pam_env.len()
        invariant
            given == pairs_view(pam_env@),
            i <= pam_env@.len(),
            pairs_view(env@) == given.take(i as int),
        decreases pam_env.len() - i,
    {
        let ghost before = env@;
        env.push((pam_env[i].0.clone(), pam_env[i].1.clone()));
        assert(pairs_view(env@) =~= pairs_view(before).push(given[i as int]));
        assert(given.take(i + 1) =~= given.take(i as int).push(given[i as int]));
        i = i + 1;
    }
    assert(given.take(given.len() as int) =~= given);
    let kind = if is_wayland {
        "wayland"
    } else {
        "x11"
    };
    env.push(("USER".to_owned(), a.username.clone()));
    env.push(("LOGNAME".to_owned(), a.username.clone()));
    env.push(("HOME".to_owned(), a.home.clone()));
    env.push(("SHELL".to_owned(), a.shell.clone()));
    env.push(
        (
            "PATH".to_owned(),
            "/usr/local/sbin:/usr/local/bin:/usr/sbin:/usr/bin:/sbin:/bin".to_owned(),
        ),
    );
    env.push(("XDG_RUNTIME_DIR".to_owned(), user_runtime_dir(a.uid)));
    env.push(("XDG_SESSION_TYPE".to_owned(), kind.to_owned()));
    env.push(("XDG_SESSION_CLASS".to_owned(), "user".to_owned()));
    assert(pairs_view(env@) =~= given + own_env(*a, is_wayland));
    Some(Invocation { program, args, env })
}

/// The value that a program sees of a variable: the last one set, unless the
/// variable is taken out.
pub open spec fn seen_value(
    env: Seq<(Seq<char>, Seq<char>)>,
    removed: Seq<Seq<char>>,
    name: Seq<char>,
) -> Option<Seq<char>>
    decreases env.len(),
{
    if env.len() == 0 || removed.contains(name) {
        None
    } else if env.last().0 == name {
        Some(env.last().1)
    } else {
        seen_value(env.drop_last(), removed, name)
    }
}

/// Whatever the PAM modules put into the environment, the session sees its own
/// user, home, shell, search path and runtime directory, and none of the variables of the
/// `sudo` that may have started the daemon.
pub proof fn the_session_sees_its_own_user(
    pam_env: Seq<(Seq<char>, Seq<char>)>,
    a: Account,
    is_wayland: bool,
)
    ensures
        ({
            let env = pam_env + own_env(a, is_wayland);
            &&& seen_value(env, sudo_vars(), "USER"@) == Some(a.username@)
            &&& seen_value(env, sudo_vars(), "LOGNAME"@) == Some(a.username@)
            &&& seen_value(env, sudo_vars(), "HOME"@) == Some(a.home@)
            &&& seen_value(env, sudo_vars(), "SHELL"@) == Some(a.shell@)
            &&& seen_value(env, sudo_vars(), "PATH"@) == Some(
                "/usr/local/sbin:/usr/local/bin:/usr/sbin:/usr/bin:/sbin:/bin"@,
            )
            &&& seen_value(env, sudo_vars(), "XDG_RUNTIME_DIR"@) == Some(runtime_dir(a.uid))
            &&& seen_value(env, sudo_vars(), "XDG_SESSION_TYPE"@) == Some(session_type(is_wayland))
            &&& seen_value(env, sudo_vars(), "XDG_SESSION_CLASS"@) == Some("user"@)
            &&& seen_value(env, sudo_vars(), "SUDO_USER"@) is None
            &&& seen_value(env, sudo_vars(), "SUDO_UID"@) is None
            &&& seen_value(env, sudo_vars(), "SUDO_GID"@) is None
            &&& seen_value(env, sudo_vars(), "SUDO_COMMAND"@) is None
        }),
{
    let own = own_env(a, is_wayland);
    let env = pam_env + own;
    reveal_strlit("USER");
    reveal_strlit("LOGNAME");
    reveal_strlit("HOME");
    reveal_strlit("SHELL");
    reveal_strlit("PATH");
    reveal_strlit("XDG_RUNTIME_DIR");
    reveal_strlit("XDG_SESSION_TYPE");
    reveal_strlit("XDG_SESSION_CLASS");
    reveal_strlit("SUDO_USER");
    reveal_strlit("SUDO_UID");
    reveal_strlit("SUDO_GID");
    reveal_strlit("SUDO_COMMAND");
    let r = sudo_vars();
    assert(r[0] == "SUDO_USER"@ && r[1] == "SUDO_UID"@ && r[2] == "SUDO_GID"@ && r[3]
        == "SUDO_COMMAND"@);
    let n = own.len() as int;
    lemma_not_sudo("USER"@, 'U');
    lemma_not_sudo("LOGNAME"@, 'L');
    lemma_not_sudo("HOME"@, 'H');
    lemma_not_sudo("PATH"@, 'P');
    lemma_shell_not_sudo();
    lemma_not_sudo("XDG_RUNTIME_DIR"@, 'X');
    lemma_not_sudo("XDG_SESSION_TYPE"@, 'X');
    lemma_not_sudo("XDG_SESSION_CLASS"@, 'X');
    assert("USER"@[0] == 'U' && "LOGNAME"@[0] == 'L' && "HOME"@[0] == 'H' && "SHELL"@[0] == 'S'
        && "PATH"@[0] == 'P' && "XDG_RUNTIME_DIR"@[4] == 'R' && "XDG_SESSION_TYPE"@[12] == 'T'
        && "XDG_SESSION_CLASS"@[12] == 'C');
    assert("XDG_RUNTIME_DIR"@[0] == 'X' && "XDG_SESSION_TYPE"@[0] == 'X'
        && "XDG_SESSION_CLASS"@[0] == 'X');
    assert("XDG_SESSION_TYPE"@[4] == 'S' && "XDG_SESSION_CLASS"@[4] == 'S');
    assert("USER"@.len() == 4 && "PATH"@.len() == 4);
    lemma_seen_at(pam_env, own, 0);
    lemma_seen_at(pam_env, own, 1);
    lemma_seen_at(pam_env, own, 2);
    lemma_seen_at(pam_env, own, 3);
    lemma_seen_at(pam_env, own, 4);
    lemma_seen_at(pam_env, own, 5);
    lemma_seen_at(pam_env, own, 6);
    lemma_seen_at(pam_env, own, 7);
}

proof fn lemma_not_sudo(name: Seq<char>, c: char)
    requires
        name.len() > 0,
        name[0] == c,
        c != 'S',
    ensures
        !sudo_vars().contains(name),
{
    reveal_strlit("SUDO_USER");
    reveal_strlit("SUDO_UID");
    reveal_strlit("SUDO_GID");
    reveal_strlit("SUDO_COMMAND");
    let r = sudo_vars();
    if r.contains(name) {
        let k = choose|k: int| 0 <= k < r.len() && r[k] == name;
        assert(r[k][0] == 'S');
    }
}

proof fn lemma_shell_not_sudo()
    ensures
        !sudo_vars().contains("SHELL"@),
{
    reveal_strlit("SHELL");
    reveal_strlit("SUDO_USER");
    reveal_strlit("SUDO_UID");
    reveal_strlit("SUDO_GID");
    reveal_strlit("SUDO_COMMAND");
    let r = sudo_vars();
    if r.contains("SHELL"@) {
        let k = choose|k: int| 0 <= k < r.len() && r[k] == "SHELL"@;
        assert(r[k][1] == 'U');
        assert("SHELL"@[1] == 'H');
    }
}

proof fn lemma_seen_at(
    before: Seq<(Seq<char>, Seq<char>)>,
    own: Seq<(Seq<char>, Seq<char>)>,
    at: int,
)
    requires
        0 <= at < own.len(),
        !sudo_vars().contains(own[at].0),
        forall|k: int| at < k < own.len() ==> (#[trigger] own[k]).0 != own[at].0,
    ensures
        seen_value(before + own, sudo_vars(), own[at].0) == Some(own[at].1),
    decreases own.len(),
{
    let env = before + own;
    assert(env.last() == own.last());
    if at < own.len() - 1 {
        assert(own[own.len() - 1].0 != own[at].0);
        let t = own.drop_last();
        assert(env.drop_last() =~= before + t);
        assert forall|k: int| at < k < t.len() implies (#[trigger] t[k]).0 != t[at].0 by {
            assert(t[k] == own[k]);
        }
        lemma_seen_at(before, t, at);
    }
}

// ---------------------------------------------------------------------------
// Reports, output, privileges
// ---------------------------------------------------------------------------

/// The line that reports a session's id to the daemon.
pub open spec fn report_of(id: Seq<char>) -> Seq<char> {
    "SESSION_ID|"@ + id
}

/// The line that reports a session's id to the daemon.
pub fn session_id_line(id: &str) -> (r: String)
    ensures
        r@ == report_of(id@),
{
    join2("SESSION_ID|", id)
}

/// The id that a line of the worker's output reports, if any.
pub open spec fn reported_id(line: Seq<char>) -> Option<Seq<char>> {
    if "SESSION_ID|"@.is_prefix_of(line) {
        Some(trimmed(line.skip("SESSION_ID|"@.len() as int)))
    } else {
        None
    }
}

/// The id that a line of the worker's output reports, if any.
pub fn reported_session_id(line: &str) -> (r: Option<String>)
    ensures
        match r {
            Some(id) => reported_id(line@) == Some(id@),
            None => reported_id(line@) is None,
        },
{
    match strip_prefix(line, "SESSION_ID|") {
        Some(id) => Some(trim(id).to_owned()),
        None => None,
    }
}

/// A reported id reaches the daemon, up to white space around it.
pub proof fn session_id_reads_back(id: Seq<char>)
    ensures
        reported_id(report_of(id)) == Some(trimmed(id)),
{
    let line = report_of(id);
    assert(line.skip("SESSION_ID|"@.len() as int) =~= id);
    assert("SESSION_ID|"@ =~= line.subrange(0, "SESSION_ID|"@.len() as int));
}

/// The call that activates a login session.
pub fn activate_command(id: &str) -> (r: Invocation)
    ensures
        r@ == plain_call("loginctl"@, seq!["activate"@, id@]),
{
    let r = Invocation::new("loginctl").arg("activate").arg(id);
    assert(r@ =~= plain_call("loginctl"@, seq!["activate"@, id@]));
    r
}

/// Where a session writes: the built-in shell is a console login and writes to
/// its terminal, any other session to the log in the user's runtime directory.
#[derive(Debug, Clone, Copy, PartialEq, Eq, Structural)]
pub enum SessionOutput {
    Terminal,
    LogFile,
}

/// Where a session with this command writes.
pub fn session_output(command: &str) -> (r: SessionOutput)
    ensures
        r == (if command@ == "bash"@ {
            SessionOutput::Terminal
        } else {
            SessionOutput::LogFile
        }),
{
    if same(command, "bash") {
        SessionOutput::Terminal
    } else {
        SessionOutput::LogFile
    }
}

/// The log of a user's session, and that of the session before it.
pub fn session_log_paths(uid: u32) -> (r: (String, String))
    ensures
        r.0@ == runtime_dir(uid) + "/cce-session.log"@,
        r.1@ == runtime_dir(uid) + "/cce-session.log"@ + ".old"@,
{
    let log = join2(user_runtime_dir(uid).as_str(), "/cce-session.log");
    let old_log = join2(log.as_str(), ".old");
    (log, old_log)
}

/// The device of a terminal.
pub fn tty_device(tty_name: &str) -> (r: String)
    ensures
        r@ == "/dev/"@ + tty_name@,
{
    join2("/dev/", tty_name)
}

/// A step in which the session's process gives up being root.
#[derive(Debug, Clone, Copy, PartialEq, Eq, Structural)]
pub enum DropStep {
    InitGroups,
    SetGid,
    SetUid,
}

/// The steps in which the session's process becomes the user's, in order; each
/// has to succeed. The user id goes last: without it the others are refused.
pub fn drop_steps() -> (r: Vec<DropStep>)
    ensures
        r@ == seq![DropStep::InitGroups, DropStep::SetGid, DropStep::SetUid],
{
    let r = vec![DropStep::InitGroups, DropStep::SetGid, DropStep::SetUid];
    assert(r@ =~= seq![DropStep::InitGroups, DropStep::SetGid, DropStep::SetUid]);
    r
}

// ---------------------------------------------------------------------------
// Laws
// ---------------------------------------------------------------------------

/// A worker goes on past what may fail: telling PAM the kind of the session,
/// reporting it, activating it and running it. So one of root whose other
/// steps succeed takes every step, in order, and ends well.
pub proof fn the_way_of_a_worker(results: Seq<bool>)
    requires
        forall|i: int|
            0 <= i < results.len() && (i <= 2 || i == 4 || i == 5 || i == 8) ==> #[trigger] results[i],
    ensures
        ({
            let n = results.len();
            let step = worker_after(0, results);
            &&& n == 0 ==> step is ReadPassword
            &&& n == 1 ==> step is LookUpUser
            &&& n == 2 ==> step is StartPam
            &&& n == 3 ==> step is PutSessionEnv
            &&& n == 4 ==> step is Authenticate
            &&& n == 5 ==> step is OpenSession
            &&& n == 6 ==> step is Report
            &&& n == 7 ==> step is Activate
            &&& n == 8 ==> step is ResolveCommand
            &&& n == 9 ==> step is RunSession
            &&& n == 10 ==> step is ClosePam
            &&& n >= 11 ==> step == WorkerStep::Exit(0)
        }),
    decreases results.len(),
{
    if results.len() > 0 {
        let before = results.drop_last();
        assert forall|i: int|
            0 <= i < before.len() && (i <= 2 || i == 4 || i == 5 || i == 8) implies
            #[trigger] before[i] by {
            assert(before[i] == results[i]);
        }
        the_way_of_a_worker(before);
        let last = results.len() - 1;
        if last <= 2 || last == 4 || last == 5 || last == 8 {
            assert(results[last]);
        }
    }
}

/// A worker stops, with an error, exactly at a step without which there is no
/// session: the password, the account, PAM itself, the check, the opening, and
/// what to run. No other failure ends it.
pub proof fn what_stops_a_worker(step: WorkerStep)
    ensures
        worker_next(step, false) == WorkerStep::Exit(1) <==> {
            ||| step is ReadPassword || step is LookUpUser || step is StartPam
            ||| step is Authenticate || step is OpenSession || step is ResolveCommand
            ||| step == WorkerStep::Exit(1)
        },
        worker_next(step, true) == WorkerStep::Exit(1) ==> step == WorkerStep::Exit(1),
        worker_next(step, false) == WorkerStep::Exit(1) || worker_next(step, false) == worker_next(
            step,
            true,
        ),
        step matches WorkerStep::Exit(code) ==> worker_next(step, true) == WorkerStep::Exit(code)
            && worker_next(step, false) == WorkerStep::Exit(code),
{
}

/// Only root's worker begins.
pub proof fn a_worker_is_for_root(uid: u32)
    ensures
        worker_first(uid) is ReadPassword <==> uid == 0,
        worker_first(uid) == WorkerStep::Exit(1) <==> uid != 0,
{
}

/// The runtime directory of a user is named by the user's id, so that no two
/// users share one; a session is of one of two kinds.
pub proof fn a_user_has_a_directory(uid: u32, is_wayland: bool)
    ensures
        runtime_dir(uid) == "/run/user/"@ + decimal(uid as nat),
        is_wayland ==> session_type(is_wayland) == "wayland"@,
        !is_wayland ==> session_type(is_wayland) == "x11"@,
{
}

/// The worker's own environment, which the PAM modules see, names the user,
/// the home, the shell and the runtime directory, and nothing else.
pub proof fn the_modules_see_the_user(a: Account)
    ensures
        base_env(a).len() == 5,
        base_env(a)[0] == ("USER"@, a.username@),
        base_env(a)[1] == ("LOGNAME"@, a.username@),
        base_env(a)[2] == ("HOME"@, a.home@),
        base_env(a)[3] == ("SHELL"@, a.shell@),
        base_env(a)[4] == ("XDG_RUNTIME_DIR"@, "/run/user/"@ + decimal(a.uid as nat)),
{
}

/// A session is given eight variables and denied four; it gets every other
/// variable of PAM as it is.
pub proof fn the_session_keeps_the_variables_of_pam(
    pam_env: Seq<(Seq<char>, Seq<char>)>,
    a: Account,
    is_wayland: bool,
    name: Seq<char>,
)
    requires
        name != "USER"@ && name != "LOGNAME"@ && name != "HOME"@ && name != "SHELL"@,
        name != "PATH"@ && name != "XDG_RUNTIME_DIR"@,
        name != "XDG_SESSION_TYPE"@ && name != "XDG_SESSION_CLASS"@,
        name != "SUDO_USER"@ && name != "SUDO_UID"@ && name != "SUDO_GID"@,
        name != "SUDO_COMMAND"@,
    ensures
        seen_value(pam_env + own_env(a, is_wayland), sudo_vars(), name) == seen_value(
            pam_env,
            seq![],
            name,
        ),
{
    let own = own_env(a, is_wayland);
    assert(!sudo_vars().contains(name));
    assert forall|k: int| 0 <= k < own.len() implies (#[trigger] own[k]).0 != name by {}
    lemma_not_seen(pam_env, own, name);
    lemma_nothing_removed(pam_env, name);
}

proof fn lemma_not_seen(
    before: Seq<(Seq<char>, Seq<char>)>,
    own: Seq<(Seq<char>, Seq<char>)>,
    name: Seq<char>,
)
    requires
        forall|k: int| 0 <= k < own.len() ==> (#[trigger] own[k]).0 != name,
    ensures
        seen_value(before + own, sudo_vars(), name) == seen_value(before, sudo_vars(), name),
    decreases own.len(),
{
    if own.len() == 0 {
        assert(before + own =~= before);
    } else {
        let t = own.drop_last();
        assert((before + own).drop_last() =~= before + t);
        assert((before + own).last() == own[own.len() - 1]);
        assert forall|k: int| 0 <= k < t.len() implies (#[trigger] t[k]).0 != name by {
            assert(t[k] == own[k]);
        }
        lemma_not_seen(before, t, name);
    }
}

proof fn lemma_nothing_removed(env: Seq<(Seq<char>, Seq<char>)>, name: Seq<char>)
    requires
        !sudo_vars().contains(name),
    ensures
        seen_value(env, sudo_vars(), name) == seen_value(env, seq![], name),
    decreases env.len(),
{
    if env.len() > 0 {
        lemma_nothing_removed(env.drop_last(), name);
    }
}

/// A line reports an id exactly where it starts with the mark: the rest of it,
/// without the white space around it.
pub proof fn a_report_is_marked(line: Seq<char>)
    ensures
        reported_id(line) is Some <==> "SESSION_ID|"@.is_prefix_of(line),
        reported_id(line) matches Some(id) ==> exists|rest: Seq<char>|
            line == "SESSION_ID|"@ + rest && id == #[trigger] trimmed(rest),
{
    if "SESSION_ID|"@.is_prefix_of(line) {
        let rest = line.skip("SESSION_ID|"@.len() as int);
        assert(line =~= "SESSION_ID|"@ + rest);
        assert(reported_id(line) == Some(trimmed(rest)));
    }
}

} // verus!
