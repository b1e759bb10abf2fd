//! Which of its roles the program was started in.
use vstd::prelude::*;

use crate::protocol::{bool_str, bool_text};
use crate::text::{same, texts};

verus! {

/// What a session worker is started with.
#[derive(Debug, Clone, PartialEq, Eq)]
pub struct WorkerArgs {
    pub tty: String,
    pub username: String,
    pub is_wayland: bool,
    pub command: String,
}

/// The view of [`WorkerArgs`].
#[verifier::ext_equal]
pub struct WorkerArgsView {
    pub tty: Seq<char>,
    pub username: Seq<char>,
    pub is_wayland: bool,
    pub command: Seq<char>,
}

impl View for WorkerArgs {
    type V = WorkerArgsView;

    open spec fn view(&self) -> WorkerArgsView {
        WorkerArgsView {
            tty: self.tty@,
            username: self.username@,
            is_wayland: self.is_wayland,
            command: self.command@,
        }
    }
}

/// A role of the program.
#[derive(Debug, Clone, PartialEq, Eq)]
pub enum Role {
    /// The login screen.
    Greeter,
    /// One fingerprint attempt for a user.
    FprintHelper(String),
    /// One session.
    SessionWorker(WorkerArgs),
    /// A session worker with arguments of another shape: an error, and not the
    /// daemon, which would show a second greeter.
    MalformedWorker,
    /// The daemon.
    Daemon,
}

/// The view of a [`Role`].
#[verifier::ext_equal]
pub enum RoleView {
    Greeter,
    FprintHelper(Seq<char>),
    SessionWorker(WorkerArgsView),
    MalformedWorker,
    Daemon,
}

impl View for Role {
    type V = RoleView;

    open spec fn view(&self) -> RoleView {
        match *self {
            Role::Greeter => RoleView::Greeter,
            Role::FprintHelper(u) => RoleView::FprintHelper(u@),
            Role::SessionWorker(a) => RoleView::SessionWorker(a@),
            Role::MalformedWorker => RoleView::MalformedWorker,
            Role::Daemon => RoleView::Daemon,
        }
    }
}

/// The exit status of a session worker whose arguments are malformed.
pub const EXIT_MALFORMED_WORKER: i32 = 2;

/// The exit status of a program that needs to be root and is not.
pub const EXIT_NOT_ROOT: i32 = 1;

/// The role for a list of arguments, of which the first is the program.
pub open spec fn role_for(args: Seq<Seq<char>>) -> RoleView {
    if args.len() > 1 && args[1] == "--greeter"@ {
        RoleView::Greeter
    } else if args.len() > 2 && args[1] == "--fprint-auth"@ {
        RoleView::FprintHelper(args[2])
    } else if args.len() > 1 && args[1] == "--session-worker"@ {
        if args.len() == 6 && (args[4] == "true"@ || args[4] == "false"@) {
            RoleView::SessionWorker(
                WorkerArgsView {
                    tty: args[2],
                    username: args[3],
                    is_wayland: args[4] == "true"@,
                    command: args[5],
                },
            )
        } else {
            RoleView::MalformedWorker
        }
    } else {
        RoleView::Daemon
    }
}

/// The role for the program's arguments.
pub fn role_of(args: &Vec<String>) -> (r: Role)
    ensures
        r@ == role_for(texts(args@)),
{
    let ghost all = texts(args@);
    if args.len() < 2 {
        return Role::Daemon;
    }
    let first = args[1].as_str();
    assert(first@ == all[1]);
    proof {
        lemma_flags_differ();
    }
    if same(first, "--greeter") {
        Role::Greeter
    } else if same(first, "--fprint-auth") {
        if args.len() > 2 {
            Role::FprintHelper(args[2].clone())
        } else {
            Role::Daemon
        }
    } else if same(first, "--session-worker") {
        if args.len() != 6 {
            return Role::MalformedWorker;
        }
        let flag = args[4].as_str();
        assert(flag@ == all[4]);
        let is_wayland = same(flag, "true");
        if !is_wayland && !same(flag, "false") {
            return Role::MalformedWorker;
        }
        Role::SessionWorker(
            WorkerArgs {
                tty: args[2].clone(),
                username: args[3].clone(),
                is_wayland,
                command: args[5].clone(),
            },
        )
    } else {
        Role::Daemon
    }
}

proof fn lemma_flags_differ()
    ensures
        "--greeter"@ != "--fprint-auth"@,
        "--greeter"@ != "--session-worker"@,
        "--fprint-auth"@ != "--session-worker"@,
        "true"@ != "false"@,
{
    reveal_strlit("--greeter");
    reveal_strlit("--fprint-auth");
    reveal_strlit("--session-worker");
    reveal_strlit("true");
    reveal_strlit("false");
    assert("--greeter"@.len() == 9);
    assert("--fprint-auth"@.len() == 13);
    assert("--session-worker"@.len() == 16);
    assert("true"@.len() != "false"@.len());
}

/// The arguments that start a session worker. The password is not among them:
/// it goes to the worker's standard input.
pub open spec fn worker_argv(a: WorkerArgsView) -> Seq<Seq<char>> {
    seq!["--session-worker"@, a.tty, a.username, bool_text(a.is_wayland), a.command]
}

/// The arguments that start a session worker.
pub fn worker_args(a: &WorkerArgs) -> (r: Vec<String>)
    ensures
        texts(r@) == worker_argv(a@),
{
    let r = vec![
        "--session-worker".to_owned(),
        a.tty.clone(),
        a.username.clone(),
        bool_str(a.is_wayland).to_owned(),
        a.command.clone(),
    ];
    assert(texts(r@) =~= worker_argv(a@));
    r
}

/// A worker started by the daemon finds what the daemon gave it.
pub proof fn worker_arguments_read_back(program: Seq<char>, a: WorkerArgsView)
    ensures
        role_for(seq![program] + worker_argv(a)) == RoleView::SessionWorker(a),
{
    lemma_flags_differ();
    let args = seq![program] + worker_argv(a);
    assert(args =~= seq![
        program,
        "--session-worker"@,
        a.tty,
        a.username,
        bool_text(a.is_wayland),
        a.command,
    ]);
}

/// Arguments that start with the worker's flag never lead to the daemon.
pub proof fn a_worker_is_never_the_daemon(args: Seq<Seq<char>>)
    requires
        args.len() > 1,
        args[1] == "--session-worker"@,
    ensures
        role_for(args) is SessionWorker || role_for(args) is MalformedWorker,
{
    lemma_flags_differ();
}

/// The exit status with which a role ends before it starts, if it may not run
/// for this user: the daemon and the session worker are for root, and a
/// malformed worker is for nobody.
pub open spec fn refused(role: RoleView, uid: u32) -> Option<i32> {
    match role {
        RoleView::MalformedWorker => Some(EXIT_MALFORMED_WORKER),
        RoleView::Daemon | RoleView::SessionWorker(_) => if uid != 0 {
            Some(EXIT_NOT_ROOT)
        } else {
            None
        },
        _ => None,
    }
}

/// The exit status with which a role ends before it starts, if it may not run.
pub fn refusal(role: &Role, uid: u32) -> (r: Option<i32>)
    ensures
        r == refused(role@, uid),
{
    match role {
        Role::MalformedWorker => Some(EXIT_MALFORMED_WORKER),
        Role::Daemon | Role::SessionWorker(_) => if uid != 0 {
            Some(EXIT_NOT_ROOT)
        } else {
            None
        },
        _ => None,
    }
}

// ---------------------------------------------------------------------------
// Laws
// ---------------------------------------------------------------------------

/// Each role has its own first argument, and without one of them the program
/// is the daemon. A helper needs a user as well.
pub proof fn the_first_argument_decides(args: Seq<Seq<char>>)
    ensures
        role_for(args) is Greeter <==> args.len() > 1 && args[1] == "--greeter"@,
        role_for(args) is FprintHelper <==> args.len() > 2 && args[1] == "--fprint-auth"@,
        role_for(args) matches RoleView::FprintHelper(user) ==> user == args[2],
        role_for(args) is Daemon <==> args.len() <= 1 || (args[1] != "--greeter"@ && args[1]
            != "--session-worker"@ && (args[1] != "--fprint-auth"@ || args.len() == 2)),
{
    lemma_flags_differ();
}

/// A session worker has exactly the arguments of one, and takes each from its
/// place: terminal, user, kind, command. All else after its flag is malformed.
pub proof fn a_worker_has_its_arguments(args: Seq<Seq<char>>)
    ensures
        role_for(args) matches RoleView::SessionWorker(a) ==> {
            &&& args.len() == 6 && args[1] == "--session-worker"@
            &&& a.tty == args[2] && a.username == args[3] && a.command == args[5]
            &&& args[4] == (if a.is_wayland {
                "true"@
            } else {
                "false"@
            })
        },
        role_for(args) is MalformedWorker <==> args.len() > 1 && args[1] == "--session-worker"@ && (
        args.len() != 6 || (args[4] != "true"@ && args[4] != "false"@)),
{
    lemma_flags_differ();
}

/// Whoever is not root runs neither the daemon nor a session; the greeter and
/// the helper run for anyone, and a malformed worker for nobody.
pub proof fn who_may_run_what(role: RoleView, uid: u32)
    ensures
        refused(role, uid) == Some(1i32) <==> uid != 0 && (role is Daemon || role is SessionWorker),
        refused(role, uid) == Some(2i32) <==> role is MalformedWorker,
        refused(role, uid) is None <==> role is Greeter || role is FprintHelper || (uid == 0 && (
        role is Daemon || role is SessionWorker)),
{
}

} // verus!
