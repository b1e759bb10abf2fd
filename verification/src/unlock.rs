//! The keyring daemon: opens a user's databases on request, and confirms that
//! they are open.
use vstd::prelude::*;

use crate::bus::{remaining, LockState, LAST_TIME, MILLISECOND, SECOND};
use crate::invocation::{plain_call, Invocation};
use crate::keyring::{DbEntry, KEEPASSXC_EXE};
use crate::number::{decimal, decimal_text};
use crate::path::{same_absolute, same_absolute_path};
use crate::split::find;
use crate::text::{join2, join3, same, strip_suffix, trim, trimmed};

verus! {

// ---------------------------------------------------------------------------
// Limits
// ---------------------------------------------------------------------------

/// How often a database is opened before it is given up.
pub const OPEN_ATTEMPTS: u32 = 4;

/// How long an opened database may take to show as open, in seconds.
pub const VERIFY_WINDOW_SECS: u64 = 12;

/// How long to wait for KeePassXC to appear, in seconds.
pub const NAME_WAIT_SECS: u64 = 30;

/// How long to wait for KeePassXC to answer, in seconds.
pub const READY_WAIT_SECS: u64 = 20;

/// The time for one request, in seconds. It ends before the client gives up,
/// so that the client hears the outcome and does not ask again meanwhile.
pub const REQUEST_BUDGET_SECS: u64 = 100;

/// The time for one call that opens a database, in seconds: KeePassXC does not
/// return from it while it shows a prompt of its own.
pub const OPEN_TIMEOUT_SECS: u64 = 15;

/// The time for one look at the lock, in seconds.
pub const PROP_TIMEOUT_SECS: u64 = 5;

/// How long to wait for the line of a request, in seconds.
pub const REQUEST_READ_SECS: u64 = 10;

/// The pause after a call that failed, in milliseconds.
pub const FAILED_PAUSE_MILLIS: u64 = 2000;

/// The pause between two looks at the lock, in milliseconds.
pub const LOOK_PAUSE_MILLIS: u64 = 750;

/// A duration of whole seconds, as it is written: none at all is written in
/// the smallest unit.
pub open spec fn duration_text(secs: u64) -> Seq<char> {
    if secs == 0 {
        "0ns"@
    } else {
        decimal(secs as nat) + "s"@
    }
}

/// What is said of a call that did not return in time.
pub open spec fn timeout_text(label: Seq<char>, secs: u64) -> Seq<char> {
    label + " did not return within "@ + duration_text(secs)
}

/// What is said of a call that did not return in time.
pub fn timeout_error(label: &str, secs: u64) -> (r: String)
    ensures
        r@ == timeout_text(label@, secs),
{
    if secs == 0 {
        join3(label, " did not return within ", "0ns")
    } else {
        let duration = join2(decimal_text(secs).as_str(), "s");
        join3(label, " did not return within ", duration.as_str())
    }
}

/// What came of a call that was given so many seconds: what it returned, where
/// that was received in time, and otherwise an error that says so.
pub fn with_timeout<T>(label: &str, secs: u64, received: Option<T>) -> (r: Result<T, String>)
    ensures
        match received {
            Some(v) => r == Ok::<T, String>(v),
            None => r matches Err(e) && e@ == timeout_text(label@, secs),
        },
{
    match received {
        Some(v) => Ok(v),
        None => Err(timeout_error(label, secs)),
    }
}

// ---------------------------------------------------------------------------
// Requests
// ---------------------------------------------------------------------------

/// The request to unlock, as the client writes it.
pub const UNLOCK_REQUEST: &'static str = "unlock";

/// The reply to any other request.
pub const UNKNOWN_REPLY: &'static str = "error: unknown request";

/// Whether a line asks to unlock.
pub open spec fn asks_to_unlock(line: Seq<char>) -> bool {
    trimmed(line) == UNLOCK_REQUEST@
}

/// Whether a line asks to unlock.
pub fn is_unlock_request(line: &str) -> (r: bool)
    ensures
        r == asks_to_unlock(line@),
{
    same(trim(line), UNLOCK_REQUEST)
}

/// The error in a result, if it is one.
pub open spec fn error_of(r: Result<(), String>) -> Option<Seq<char>> {
    match r {
        Ok(_) => None,
        Err(e) => Some(e@),
    }
}

/// The reply to a request to unlock.
pub open spec fn reply_of(error: Option<Seq<char>>) -> Seq<char> {
    match error {
        None => "ok"@,
        Some(e) => "error: "@ + e,
    }
}

/// The reply to a request to unlock.
pub fn reply(outcome: &Result<(), String>) -> (r: String)
    ensures
        r@ == reply_of(error_of(*outcome)),
{
    match outcome {
        Ok(_) => "ok".to_owned(),
        Err(e) => join2("error: ", e.as_str()),
    }
}

/// The first line of a text, as far as its end.
pub open spec fn first_line(text: Seq<char>) -> Seq<char> {
    text.take(find(text, '\n'))
}

/// The daemon understands what the client writes.
pub proof fn the_request_is_understood()
    ensures
        asks_to_unlock(UNLOCK_REQUEST@ + seq!['\n']),
{
    reveal_strlit("unlock");
    let line = UNLOCK_REQUEST@ + seq!['\n'];
    assert(line.drop_last() =~= UNLOCK_REQUEST@);
    reveal_with_fuel(crate::text::trim_end, 2);
}

/// The client hears of success exactly where the databases were unlocked: of a
/// reply it reads the first line, and trims it.
pub proof fn success_is_heard_exactly(error: Option<Seq<char>>)
    ensures
        trimmed(first_line(reply_of(error) + seq!['\n'])) == "ok"@ <==> error is None,
        trimmed(first_line(UNKNOWN_REPLY@ + seq!['\n'])) != "ok"@,
{
    reveal_strlit("ok");
    reveal_strlit("error: ");
    reveal_strlit("error: unknown request");
    let ok = "ok"@ + seq!['\n'];
    crate::split::lemma_find_unique(ok, '\n', 2);
    assert(first_line(ok) =~= "ok"@);
    if let Some(e) = error {
        lemma_error_line("error: "@ + e);
    }
    lemma_error_line(UNKNOWN_REPLY@);
}

proof fn lemma_error_line(text: Seq<char>)
    requires
        text.len() > 0,
        text[0] == 'e',
    ensures
        trimmed(first_line(text + seq!['\n'])) != "ok"@,
{
    reveal_strlit("ok");
    let all = text + seq!['\n'];
    crate::split::lemma_find(all, '\n');
    assert(all[0] == 'e');
    let line = first_line(all);
    assert(line.len() > 0 && line[0] == 'e');
    crate::text::trimmed_is_the_core(line);
    let (i, j) = choose|i: int, j: int|
        0 <= i <= j <= line.len() && #[trigger] line.subrange(i, j) == trimmed(line) && (forall|
            k: int,
        |
            0 <= k < i || j <= k < line.len() ==> crate::text::white_space(#[trigger] line[k]));
    assert(!crate::text::white_space(line[0]));
    assert(i == 0);
    if trimmed(line) == "ok"@ {
        assert(line.subrange(i, j)[0] == line[0]);
    }
}

// ---------------------------------------------------------------------------
// The user's bus
// ---------------------------------------------------------------------------

/// A step of connecting to a user's bus. It accepts only its owner, so the
/// effective ids are the user's for the handshake, and root's again after it.
#[derive(Debug, Clone, Copy, PartialEq, Eq, Structural)]
pub enum ConnectStep {
    /// Take the user's effective group.
    SetGid,
    /// Take the user's effective id.
    SetUid,
    /// Connect.
    Handshake,
    /// Take root's effective id back.
    RestoreUid { connected: bool },
    /// Take root's effective group back.
    RestoreGid { connected: bool },
    /// The connection is there, or it is not.
    Finished { connected: bool },
    /// End with this exit status: root could not be restored.
    Exit(i32),
}

/// The step after `step`, which succeeded or not: what was taken is given
/// back, whatever failed, and nothing goes on where that fails.
pub open spec fn connect_next(step: ConnectStep, ok: bool) -> ConnectStep {
    match step {
        ConnectStep::SetGid => if ok {
            ConnectStep::SetUid
        } else {
            ConnectStep::Finished { connected: false }
        },
        ConnectStep::SetUid => if ok {
            ConnectStep::Handshake
        } else {
            ConnectStep::RestoreGid { connected: false }
        },
        ConnectStep::Handshake => ConnectStep::RestoreUid { connected: ok },
        ConnectStep::RestoreUid { connected } => if ok {
            ConnectStep::RestoreGid { connected }
        } else {
            ConnectStep::Exit(1)
        },
        ConnectStep::RestoreGid { connected } => if ok {
            ConnectStep::Finished { connected }
        } else {
            ConnectStep::Exit(1)
        },
        ConnectStep::Finished { connected } => ConnectStep::Finished { connected },
        ConnectStep::Exit(code) => ConnectStep::Exit(code),
    }
}

/// The step after `step`.
pub fn connect_user_bus(step: ConnectStep, ok: bool) -> (r: ConnectStep)
    ensures
        r == connect_next(step, ok),
{
    match step {
        ConnectStep::SetGid => if ok {
            ConnectStep::SetUid
        } else {
            ConnectStep::Finished { connected: false }
        },
        ConnectStep::SetUid => if ok {
            ConnectStep::Handshake
        } else {
            ConnectStep::RestoreGid { connected: false }
        },
        ConnectStep::Handshake => ConnectStep::RestoreUid { connected: ok },
        ConnectStep::RestoreUid { connected } => if ok {
            ConnectStep::RestoreGid { connected }
        } else {
            ConnectStep::Exit(1)
        },
        ConnectStep::RestoreGid { connected } => if ok {
            ConnectStep::Finished { connected }
        } else {
            ConnectStep::Exit(1)
        },
        ConnectStep::Finished { connected } => ConnectStep::Finished { connected },
        ConnectStep::Exit(code) => ConnectStep::Exit(code),
    }
}

/// Where connecting stands after steps with these results.
pub open spec fn connect_after(results: Seq<bool>) -> ConnectStep
    decreases results.len(),
{
    if results.len() == 0 {
        ConnectStep::SetGid
    } else {
        connect_next(connect_after(results.drop_last()), results.last())
    }
}

/// Whose effective ids the daemon has: a user's or root's.
pub struct EffectiveIds {
    pub user_gid: bool,
    pub user_uid: bool,
}

/// The effective ids after steps with these results, where a step that fails
/// changes none.
pub open spec fn ids_after(results: Seq<bool>) -> EffectiveIds
    decreases results.len(),
{
    if results.len() == 0 {
        EffectiveIds { user_gid: false, user_uid: false }
    } else {
        let before = results.drop_last();
        let ids = ids_after(before);
        match connect_after(before) {
            ConnectStep::SetGid if results.last() => EffectiveIds { user_gid: true, ..ids },
            ConnectStep::SetUid if results.last() => EffectiveIds { user_uid: true, ..ids },
            ConnectStep::RestoreUid { .. } if results.last() => EffectiveIds {
                user_uid: false,
                ..ids
            },
            ConnectStep::RestoreGid { .. } if results.last() => EffectiveIds {
                user_gid: false,
                ..ids
            },
            _ => ids,
        }
    }
}

/// Connecting leaves root as it was: a course that comes to its end has both
/// effective ids restored, the handshake is made with both of them the user's,
/// and only a course in which restoring one failed ends the daemon. It is over
/// after a few steps, with a connection exactly where the handshake gave one.
pub proof fn connecting_restores_root(results: Seq<bool>)
    ensures
        ({
            let step = connect_after(results);
            let ids = ids_after(results);
            &&& step is Finished ==> !ids.user_gid && !ids.user_uid
            &&& step is Handshake ==> ids.user_gid && ids.user_uid
            &&& step is Exit ==> step == ConnectStep::Exit(1) && (ids.user_gid || ids.user_uid)
            &&& results.len() >= 5 ==> step is Finished || step is Exit
            &&& step matches ConnectStep::Finished { connected } ==> (connected
                <==> results.len() > 2 && results[0] && results[1] && results[2])
        }),
{
    lemma_connect_way(results);
}

proof fn lemma_connect_way(results: Seq<bool>)
    ensures
        ({
            let step = connect_after(results);
            let ids = ids_after(results);
            let n = results.len();
            let all = n > 2 && results[0] && results[1] && results[2];
            &&& step is SetGid ==> n == 0 && !ids.user_gid && !ids.user_uid
            &&& step is SetUid ==> n == 1 && results[0] && ids.user_gid && !ids.user_uid
            &&& step is Handshake ==> n == 2 && results[0] && results[1] && ids.user_gid
                && ids.user_uid
            &&& step matches ConnectStep::RestoreUid { connected } ==> n == 3 && connected == all
                && ids.user_gid && ids.user_uid
            &&& step matches ConnectStep::RestoreGid { connected } ==> (n == 2 || n == 4)
                && connected == all && ids.user_gid && !ids.user_uid
            &&& n == 2 && step is RestoreGid ==> !results[1]
            &&& step matches ConnectStep::Finished { connected } ==> n >= 1 && connected == all
                && !ids.user_gid && !ids.user_uid
            &&& step is Finished && !all ==> !results[0] || (n > 1 && !results[1]) || (n > 2
                && !results[2])
            &&& step is Exit ==> step == ConnectStep::Exit(1) && (ids.user_gid || ids.user_uid)
        }),
    decreases results.len(),
{
    if results.len() > 0 {
        lemma_connect_way(results.drop_last());
    }
}

// ---------------------------------------------------------------------------
// The owner of the name
// ---------------------------------------------------------------------------

/// The program of a process, without the mark that it gets when its file is
/// replaced under it: an upgraded KeePassXC is still KeePassXC.
pub open spec fn program_path(exe: Seq<char>) -> Seq<char> {
    let mark = " (deleted)"@;
    if mark.is_suffix_of(exe) {
        exe.take(exe.len() - mark.len())
    } else {
        exe
    }
}

/// Why the owner of the name of KeePassXC is not trusted, if it is not: the
/// process has to run the installed program, as the user who asks. A question
/// about it that fails counts as the reason.
pub open spec fn owner_error(
    uid: u32,
    pid: Result<u32, Seq<char>>,
    exe: Result<Seq<char>, Seq<char>>,
    owner: Result<u32, Seq<char>>,
) -> Option<Seq<char>> {
    match pid {
        Err(e) => Some(e),
        Ok(pid) => match exe {
            Err(e) => Some(e),
            Ok(exe) => if !same_absolute(program_path(exe), KEEPASSXC_EXE@) {
                Some(
                    "bus name owned by "@ + exe + " (pid "@ + decimal(pid as nat) + "), not "@
                        + KEEPASSXC_EXE@,
                )
            } else {
                match owner {
                    Err(e) => Some(e),
                    Ok(owner) => if owner != uid {
                        Some(
                            "keepassxc pid "@ + decimal(pid as nat) + " belongs to uid "@ + decimal(
                                owner as nat,
                            ) + ", expected "@ + decimal(uid as nat),
                        )
                    } else {
                        None
                    },
                }
            },
        },
    }
}

/// The view of an answer that is a number.
pub open spec fn number_answer(r: Result<u32, String>) -> Result<u32, Seq<char>> {
    match r {
        Ok(n) => Ok(n),
        Err(e) => Err(e@),
    }
}

/// The view of an answer that is a text.
pub open spec fn text_answer(r: Result<String, String>) -> Result<Seq<char>, Seq<char>> {
    match r {
        Ok(s) => Ok(s@),
        Err(e) => Err(e@),
    }
}

/// Whether the owner of the name of KeePassXC is trusted with a password.
pub fn verify_keepassxc_owner(
    uid: u32,
    pid: &Result<u32, String>,
    exe: &Result<String, String>,
    owner: &Result<u32, String>,
) -> (r: Result<(), String>)
    ensures
        error_of(r) == owner_error(
            uid,
            number_answer(*pid),
            text_answer(*exe),
            number_answer(*owner),
        ),
{
    let pid: u32 = match pid {
        Ok(pid) => *pid,
        Err(e) => {
            return Err(e.clone());
        },
    };
    let exe: &String = match exe {
        Ok(exe) => exe,
        Err(e) => {
            return Err(e.clone());
        },
    };
    let path: &str = match strip_suffix(exe.as_str(), " (deleted)") {
        Some(path) => path,
        None => exe.as_str(),
    };
    if !same_absolute_path(path, KEEPASSXC_EXE) {
        let mut s = join3("bus name owned by ", exe.as_str(), " (pid ");
        s.append(decimal_text(pid as u64).as_str());
        s.append("), not ");
        s.append(KEEPASSXC_EXE);
        return Err(s);
    }
    match owner {
        Ok(owner) => if *owner != uid {
            let mut s = join3("keepassxc pid ", decimal_text(pid as u64).as_str(), " belongs to uid ");
            s.append(decimal_text(*owner as u64).as_str());
            s.append(", expected ");
            s.append(decimal_text(uid as u64).as_str());
            Err(s)
        } else {
            Ok(())
        },
        Err(e) => Err(e.clone()),
    }
}

/// No impostor is trusted: a trusted owner runs the installed KeePassXC and
/// belongs to the user who asks.
pub proof fn no_impostor_is_trusted(
    uid: u32,
    pid: Result<u32, Seq<char>>,
    exe: Result<Seq<char>, Seq<char>>,
    owner: Result<u32, Seq<char>>,
)
    ensures
        owner_error(uid, pid, exe, owner) is None <==> pid is Ok && owner == Ok::<u32, Seq<char>>(
            uid,
        ) && (exe matches Ok(path) && same_absolute(program_path(path), KEEPASSXC_EXE@)),
{
}

// ---------------------------------------------------------------------------
// Passwords
// ---------------------------------------------------------------------------

/// The call that decrypts a database's password.
pub fn decrypt_command(entry: &DbEntry) -> (r: Invocation)
    ensures
        r@ == plain_call(
            "systemd-creds"@,
            seq!["decrypt"@, "--name="@ + entry@.name, entry@.cred_path, "-"@],
        ),
{
    let name = join2("--name=", entry.name.as_str());
    let r = Invocation::new("systemd-creds").arg("decrypt").arg(name.as_str()).arg(
        entry.cred_path.as_str(),
    ).arg("-");
    assert(r@.args =~= seq!["decrypt"@, "--name="@ + entry@.name, entry@.cred_path, "-"@]);
    r
}

/// The password, or why there is none: by the end of that call, and what it
/// wrote. `output` is an error where it is not text.
pub open spec fn decrypted(
    name: Seq<char>,
    success: bool,
    output: Result<Seq<char>, Seq<char>>,
    errors: Seq<char>,
) -> Result<Seq<char>, Seq<char>> {
    if success {
        output
    } else {
        Err("systemd-creds decrypt failed for "@ + name + ": "@ + trimmed(errors))
    }
}

/// The password, or why there is none.
pub fn decrypt_password(
    entry: &DbEntry,
    success: bool,
    output: Result<String, String>,
    errors: &str,
) -> (r: Result<String, String>)
    ensures
        text_answer(r) == decrypted(entry@.name, success, text_answer(output), errors@),
{
    if success {
        output
    } else {
        let mut s = join3("systemd-creds decrypt failed for ", entry.name.as_str(), ": ");
        s.append(trim(errors));
        Err(s)
    }
}

// ---------------------------------------------------------------------------
// Opening one database
// ---------------------------------------------------------------------------

/// What happened while a database is being opened.
#[derive(Debug, PartialEq, Eq)]
pub enum OpenEvent {
    /// It is about to be opened.
    Start,
    /// The call returned.
    Opened,
    /// The call failed.
    OpenFailed(String),
    /// The call did not return in time.
    OpenTimedOut,
    /// The lock was looked at.
    Looked(LockState),
    /// The pause is over.
    Rested,
}

/// The view of an [`OpenEvent`].
#[verifier::ext_equal]
pub enum OpenEventView {
    Start,
    Opened,
    OpenFailed(Seq<char>),
    OpenTimedOut,
    Looked(LockState),
    Rested,
}

impl View for OpenEvent {
    type V = OpenEventView;

    open spec fn view(&self) -> OpenEventView {
        match self {
            OpenEvent::Start => OpenEventView::Start,
            OpenEvent::Opened => OpenEventView::Opened,
            OpenEvent::OpenFailed(e) => OpenEventView::OpenFailed(e@),
            OpenEvent::OpenTimedOut => OpenEventView::OpenTimedOut,
            OpenEvent::Looked(l) => OpenEventView::Looked(*l),
            OpenEvent::Rested => OpenEventView::Rested,
        }
    }
}

/// What to do next.
#[derive(Debug, PartialEq, Eq)]
pub enum OpenStep {
    /// Call KeePassXC to open the database.
    Open,
    /// Look at the lock.
    Look,
    /// Pause for so many milliseconds.
    Rest(u64),
    /// The database is open, or is given up.
    Done(Result<(), String>),
}

/// The view of an [`OpenStep`].
#[verifier::ext_equal]
pub enum OpenStepView {
    Open,
    Look,
    Rest(u64),
    Done(Option<Seq<char>>),
}

impl View for OpenStep {
    type V = OpenStepView;

    open spec fn view(&self) -> OpenStepView {
        match self {
            OpenStep::Open => OpenStepView::Open,
            OpenStep::Look => OpenStepView::Look,
            OpenStep::Rest(n) => OpenStepView::Rest(*n),
            OpenStep::Done(r) => OpenStepView::Done(error_of(*r)),
        }
    }
}

/// The course of opening a database: the attempts made, the end of the window
/// in which the last one may show, whether the database showed as locked in
/// it, and the error to report.
pub struct OpenRun {
    pub budget: u64,
    pub made: u32,
    pub deadline: u64,
    pub verifying: bool,
    pub secrets_seen: bool,
    pub last_err: String,
}

/// The view of an [`OpenRun`].
#[verifier::ext_equal]
pub struct OpenRunView {
    pub budget: u64,
    pub made: u32,
    pub deadline: u64,
    pub verifying: bool,
    pub secrets_seen: bool,
    pub last_err: Seq<char>,
}

impl View for OpenRun {
    type V = OpenRunView;

    open spec fn view(&self) -> OpenRunView {
        OpenRunView {
            budget: self.budget,
            made: self.made,
            deadline: self.deadline,
            verifying: self.verifying,
            secrets_seen: self.secrets_seen,
            last_err: self.last_err@,
        }
    }
}

/// A run that has made no attempt.
pub open spec fn fresh_run(budget: u64) -> OpenRunView {
    OpenRunView {
        budget,
        made: 0,
        deadline: 0,
        verifying: false,
        secrets_seen: false,
        last_err: "unlock not confirmed"@,
    }
}

/// The next attempt, where one is left and the budget is not used up.
pub open spec fn next_attempt(s: OpenRunView, now: u64) -> (OpenRunView, OpenStepView) {
    if s.made >= OPEN_ATTEMPTS || now > s.budget {
        (s, OpenStepView::Done(Some(s.last_err)))
    } else {
        (
            OpenRunView { made: (s.made + 1) as u32, verifying: false, ..s },
            OpenStepView::Open,
        )
    }
}

/// The error of an attempt after which the database stayed locked.
pub open spec fn still_locked(attempt: u32) -> Seq<char> {
    "still locked "@ + decimal(VERIFY_WINDOW_SECS as nat) + "s after openDatabase (attempt "@
        + decimal(attempt as nat) + ")"@
}

/// A look at the lock, where the window is open. After it, a database that was
/// seen locked is tried again; where the Secret Service never answered there
/// is nothing to see, and the call is trusted.
pub open spec fn next_look(s: OpenRunView, now: u64) -> (OpenRunView, OpenStepView) {
    if now < s.deadline {
        (s, OpenStepView::Look)
    } else if !s.secrets_seen {
        (s, OpenStepView::Done(None))
    } else {
        next_attempt(OpenRunView { last_err: still_locked(s.made), ..s }, now)
    }
}

/// The end of the window of a call that returned at `now`.
pub open spec fn window_end(budget: u64, now: u64) -> u64 {
    if now + VERIFY_WINDOW_SECS * SECOND <= budget {
        (now + VERIFY_WINDOW_SECS * SECOND) as u64
    } else {
        budget
    }
}

/// The run after an event, and what to do next.
pub open spec fn open_step(s: OpenRunView, e: OpenEventView, now: u64) -> (
    OpenRunView,
    OpenStepView,
) {
    match e {
        OpenEventView::Start => next_attempt(s, now),
        OpenEventView::Opened => next_look(
            OpenRunView {
                deadline: window_end(s.budget, now),
                verifying: true,
                secrets_seen: false,
                ..s
            },
            now,
        ),
        OpenEventView::OpenFailed(error) => (
            OpenRunView { last_err: "openDatabase call failed: "@ + error, ..s },
            OpenStepView::Rest(FAILED_PAUSE_MILLIS),
        ),
        OpenEventView::OpenTimedOut => next_attempt(
            OpenRunView { last_err: timeout_text("openDatabase"@, OPEN_TIMEOUT_SECS), ..s },
            now,
        ),
        OpenEventView::Looked(LockState::Unlocked) => (s, OpenStepView::Done(None)),
        OpenEventView::Looked(LockState::Locked) => (
            OpenRunView { secrets_seen: true, ..s },
            OpenStepView::Rest(LOOK_PAUSE_MILLIS),
        ),
        OpenEventView::Looked(LockState::Unknown) => (s, OpenStepView::Rest(LOOK_PAUSE_MILLIS)),
        OpenEventView::Rested => if s.verifying {
            next_look(s, now)
        } else {
            next_attempt(s, now)
        },
    }
}

impl OpenRun {
    /// A run that has to end by `budget`.
    pub fn new(budget: u64) -> (r: Self)
        ensures
            r@ == fresh_run(budget),
    {
        OpenRun {
            budget,
            made: 0,
            deadline: 0,
            verifying: false,
            secrets_seen: false,
            last_err: "unlock not confirmed".to_owned(),
        }
    }

    fn begin_attempt(&mut self, now: u64) -> (r: OpenStep)
        ensures
            (final(self)@, r@) == next_attempt(old(self)@, now),
    {
        if self.made >= OPEN_ATTEMPTS || now > self.budget {
            OpenStep::Done(Err(self.last_err.clone()))
        } else {
            self.made = self.made + 1;
            self.verifying = false;
            OpenStep::Open
        }
    }

    fn begin_look(&mut self, now: u64) -> (r: OpenStep)
        ensures
            (final(self)@, r@) == next_look(old(self)@, now),
    {
        if now < self.deadline {
            OpenStep::Look
        } else if !self.secrets_seen {
            OpenStep::Done(Ok(()))
        } else {
            let mut s = join3(
                "still locked ",
                decimal_text(VERIFY_WINDOW_SECS).as_str(),
                "s after openDatabase (attempt ",
            );
            s.append(decimal_text(self.made as u64).as_str());
            s.append(")");
            self.last_err = s;
            self.begin_attempt(now)
        }
    }

    /// Goes on after an event.
    pub fn open_and_verify(&mut self, event: OpenEvent, now: u64) -> (r: OpenStep)
        requires
            now <= LAST_TIME,
        ensures
            (final(self)@, r@) == open_step(old(self)@, event@, now),
    {
        match event {
            OpenEvent::Start => self.begin_attempt(now),
            OpenEvent::Opened => {
                let end: u64 = now + VERIFY_WINDOW_SECS * SECOND;
                self.deadline = if end <= self.budget {
                    end
                } else {
                    self.budget
                };
                self.verifying = true;
                self.secrets_seen = false;
                self.begin_look(now)
            },
            OpenEvent::OpenFailed(error) => {
                self.last_err = join2("openDatabase call failed: ", error.as_str());
                OpenStep::Rest(FAILED_PAUSE_MILLIS)
            },
            OpenEvent::OpenTimedOut => {
                self.last_err = timeout_error("openDatabase", OPEN_TIMEOUT_SECS);
                self.begin_attempt(now)
            },
            OpenEvent::Looked(LockState::Unlocked) => OpenStep::Done(Ok(())),
            OpenEvent::Looked(LockState::Locked) => {
                self.secrets_seen = true;
                OpenStep::Rest(LOOK_PAUSE_MILLIS)
            },
            OpenEvent::Looked(LockState::Unknown) => OpenStep::Rest(LOOK_PAUSE_MILLIS),
            OpenEvent::Rested => if self.verifying {
                self.begin_look(now)
            } else {
                self.begin_attempt(now)
            },
        }
    }
}

/// Something that happened, and when.
pub struct OpenNote {
    pub event: OpenEventView,
    pub at: u64,
}

/// Where a run stands, that started at `start`, after all of `notes`.
pub open spec fn open_after(budget: u64, start: u64, notes: Seq<OpenNote>) -> (
    OpenRunView,
    OpenStepView,
)
    decreases notes.len(),
{
    if notes.len() == 0 {
        open_step(fresh_run(budget), OpenEventView::Start, start)
    } else {
        open_step(
            open_after(budget, start, notes.drop_last()).0,
            notes.last().event,
            notes.last().at,
        )
    }
}

/// How often the database was opened in such a run.
pub open spec fn opens(budget: u64, start: u64, notes: Seq<OpenNote>) -> nat
    decreases notes.len(),
{
    let here: nat = if open_after(budget, start, notes).1 == OpenStepView::Open {
        1
    } else {
        0
    };
    if notes.len() == 0 {
        here
    } else {
        opens(budget, start, notes.drop_last()) + here
    }
}

/// A database is not opened without end: the password is handed over a few
/// times at most, whatever KeePassXC does.
pub proof fn a_database_is_opened_a_few_times(budget: u64, start: u64, notes: Seq<OpenNote>)
    ensures
        opens(budget, start, notes) <= OPEN_ATTEMPTS,
        opens(budget, start, notes) == open_after(budget, start, notes).0.made,
    decreases notes.len(),
{
    if notes.len() > 0 {
        a_database_is_opened_a_few_times(budget, start, notes.drop_last());
    }
}

/// No attempt starts once the budget is used up.
pub proof fn no_attempt_starts_late(s: OpenRunView, e: OpenEventView, now: u64)
    ensures
        open_step(s, e, now).1 == OpenStepView::Open ==> now <= s.budget,
        open_step(s, e, now).0.budget == s.budget,
{
}

/// Whether an event answers a step.
pub open spec fn answers_step(step: OpenStepView, e: OpenEventView) -> bool {
    match step {
        OpenStepView::Open => e is Opened || e is OpenFailed || e is OpenTimedOut,
        OpenStepView::Look => e is Looked,
        OpenStepView::Rest(_) => e is Rested,
        OpenStepView::Done(_) => false,
    }
}

/// A course of events in which each answers the step before it.
pub open spec fn is_course(budget: u64, start: u64, notes: Seq<OpenNote>) -> bool {
    forall|i: int|
        0 <= i < notes.len() ==> answers_step(
            open_after(budget, start, notes.take(i)).1,
            (#[trigger] notes[i]).event,
        )
}

proof fn lemma_course(budget: u64, start: u64, notes: Seq<OpenNote>)
    requires
        is_course(budget, start, notes),
        notes.len() > 0,
    ensures
        is_course(budget, start, notes.drop_last()),
        answers_step(open_after(budget, start, notes.drop_last()).1, notes.last().event),
{
    let before = notes.drop_last();
    assert forall|i: int| 0 <= i < before.len() implies answers_step(
        open_after(budget, start, before.take(i)).1,
        (#[trigger] before[i]).event,
    ) by {
        assert(before.take(i) =~= notes.take(i));
        assert(notes[i] == before[i]);
    }
    assert(notes.take(notes.len() - 1) =~= before);
    assert(notes[notes.len() - 1] == notes.last());
}

/// Whether the last call to open the database has returned: in the attempt
/// under way, since the step that made it.
pub open spec fn returned(budget: u64, start: u64, notes: Seq<OpenNote>) -> bool
    decreases notes.len(),
{
    if notes.len() == 0 || open_after(budget, start, notes).1 == OpenStepView::Open {
        false
    } else if notes.last().event is Opened {
        true
    } else {
        returned(budget, start, notes.drop_last())
    }
}

/// Whether the database was seen locked since the call last returned.
pub open spec fn seen_locked(notes: Seq<OpenNote>) -> bool
    decreases notes.len(),
{
    if notes.len() == 0 || notes.last().event is Opened {
        false
    } else if notes.last().event == OpenEventView::Looked(LockState::Locked) {
        true
    } else {
        seen_locked(notes.drop_last())
    }
}

proof fn lemma_seen_step(s: OpenRunView, e: OpenEventView, now: u64)
    ensures
        ({
            let (t, next) = open_step(s, e, now);
            &&& t.secrets_seen == (if e is Opened {
                false
            } else if e == OpenEventView::Looked(LockState::Locked) {
                true
            } else {
                s.secrets_seen
            })
            &&& t.verifying ==> s.verifying || e is Opened
            &&& next is Look ==> t.verifying
            &&& next is Open ==> !t.verifying
        }),
{
}

proof fn lemma_seen(budget: u64, start: u64, notes: Seq<OpenNote>)
    ensures
        ({
            let (s, step) = open_after(budget, start, notes);
            &&& s.secrets_seen == seen_locked(notes)
            &&& s.verifying ==> returned(budget, start, notes)
            &&& step is Look ==> s.verifying
        }),
    decreases notes.len(),
{
    if notes.len() == 0 {
        lemma_seen_step(fresh_run(budget), OpenEventView::Start, start);
    } else {
        let before = notes.drop_last();
        lemma_seen(budget, start, before);
        lemma_seen_step(
            open_after(budget, start, before).0,
            notes.last().event,
            notes.last().at,
        );
    }
}

/// Success is confirmed: a database counts as open only once the last call to
/// open it has returned, and then either the Secret Service shows it unlocked,
/// or it has not been seen locked at all since that call.
pub proof fn success_is_confirmed(budget: u64, start: u64, notes: Seq<OpenNote>)
    requires
        is_course(budget, start, notes),
        open_after(budget, start, notes).1 == OpenStepView::Done(None),
    ensures
        returned(budget, start, notes),
        notes.last().event == OpenEventView::Looked(LockState::Unlocked) || !seen_locked(notes),
{
    lemma_course(budget, start, notes);
    lemma_seen(budget, start, notes);
    lemma_seen(budget, start, notes.drop_last());
}

/// The longest that a step takes: a call is given up after its time, and a
/// pause takes its own.
pub open spec fn step_limit(step: OpenStepView) -> int {
    match step {
        OpenStepView::Open => OPEN_TIMEOUT_SECS * SECOND,
        OpenStepView::Look => PROP_TIMEOUT_SECS * SECOND,
        OpenStepView::Rest(millis) => millis * MILLISECOND,
        OpenStepView::Done(_) => 0,
    }
}

/// The time of the last note, or of the start.
pub open spec fn time_of(start: u64, notes: Seq<OpenNote>) -> u64 {
    if notes.len() == 0 {
        start
    } else {
        notes.last().at
    }
}

/// A course in which no step takes longer than its limit, and no pause less.
pub open spec fn is_timely(budget: u64, start: u64, notes: Seq<OpenNote>) -> bool {
    &&& is_course(budget, start, notes)
    &&& forall|i: int|
        0 <= i < notes.len() ==> ({
            let step = open_after(budget, start, notes.take(i)).1;
            let before = time_of(start, notes.take(i));
            &&& before <= (#[trigger] notes[i]).at <= before + step_limit(step)
            &&& step is Rest ==> notes[i].at == before + step_limit(step)
        })
}

proof fn lemma_timely(budget: u64, start: u64, notes: Seq<OpenNote>)
    requires
        is_timely(budget, start, notes),
        notes.len() > 0,
    ensures
        is_timely(budget, start, notes.drop_last()),
        ({
            let step = open_after(budget, start, notes.drop_last()).1;
            let before = time_of(start, notes.drop_last());
            &&& before <= notes.last().at <= before + step_limit(step)
            &&& step is Rest ==> notes.last().at == before + step_limit(step)
        }),
{
    lemma_course(budget, start, notes);
    let before = notes.drop_last();
    assert forall|i: int| 0 <= i < before.len() implies ({
        let step = open_after(budget, start, before.take(i)).1;
        let t = time_of(start, before.take(i));
        &&& t <= (#[trigger] before[i]).at <= t + step_limit(step)
        &&& step is Rest ==> before[i].at == t + step_limit(step)
    }) by {
        assert(before.take(i) =~= notes.take(i));
        assert(notes[i] == before[i]);
    }
    assert(notes.take(notes.len() - 1) =~= before);
    assert(notes[notes.len() - 1] == notes.last());
}

/// The time by which a run has ended: its last call may start as the budget
/// ends, and be followed by a pause.
pub open spec fn run_end(budget: u64, start: u64) -> int {
    if start > budget {
        start as int
    } else {
        budget + OPEN_TIMEOUT_SECS * SECOND + FAILED_PAUSE_MILLIS * MILLISECOND
    }
}

proof fn lemma_run_ends(budget: u64, start: u64, notes: Seq<OpenNote>)
    requires
        is_timely(budget, start, notes),
    ensures
        ({
            let (s, step) = open_after(budget, start, notes);
            let now = time_of(start, notes);
            &&& s.budget == budget
            &&& s.deadline <= budget
            &&& start > budget ==> step is Done && notes.len() == 0
            &&& step is Open ==> now <= budget
            &&& step is Look ==> now <= budget
            &&& step matches OpenStepView::Rest(m) ==> {
                ||| m == FAILED_PAUSE_MILLIS && now <= budget + OPEN_TIMEOUT_SECS * SECOND
                ||| m == LOOK_PAUSE_MILLIS && now <= budget + PROP_TIMEOUT_SECS * SECOND
            }
            &&& now + step_limit(step) <= run_end(budget, start)
        }),
    decreases notes.len(),
{
    if notes.len() > 0 {
        lemma_timely(budget, start, notes);
        lemma_course(budget, start, notes);
        lemma_run_ends(budget, start, notes.drop_last());
    }
}

/// A run ends soon after its budget: where no step takes longer than its
/// limit, nothing happens in it later.
pub proof fn a_run_ends_in_time(budget: u64, start: u64, notes: Seq<OpenNote>)
    requires
        is_timely(budget, start, notes),
    ensures
        time_of(start, notes) <= run_end(budget, start),
{
    lemma_run_ends(budget, start, notes);
}

/// A run that starts after its budget ends at once: it makes no call, and
/// fails.
pub proof fn a_late_run_does_nothing(budget: u64, start: u64, notes: Seq<OpenNote>)
    requires
        start > budget,
        is_course(budget, start, notes),
    ensures
        notes.len() == 0,
        open_after(budget, start, notes) == (
            fresh_run(budget),
            OpenStepView::Done(Some(fresh_run(budget).last_err)),
        ),
    decreases notes.len(),
{
    if notes.len() > 0 {
        lemma_course(budget, start, notes);
        a_late_run_does_nothing(budget, start, notes.drop_last());
    }
}

/// One run, of those that a request makes: when it started, and what happened
/// in it.
pub struct OpenCourse {
    pub start: u64,
    pub notes: Seq<OpenNote>,
}

impl OpenCourse {
    /// The time of the last thing that happened in it.
    pub open spec fn end(self) -> u64 {
        time_of(self.start, self.notes)
    }

    /// What it came to.
    pub open spec fn step(self, budget: u64) -> OpenStepView {
        open_after(budget, self.start, self.notes).1
    }
}

/// The runs of a request, one for each database: no step in them takes longer
/// than its limit, and each starts after the one before it succeeded.
pub open spec fn is_request(budget: u64, runs: Seq<OpenCourse>) -> bool {
    &&& forall|i: int|
        0 <= i < runs.len() ==> is_timely(budget, (#[trigger] runs[i]).start, runs[i].notes)
    &&& forall|i: int|
        0 <= i < runs.len() - 1 ==> (#[trigger] runs[i]).step(budget) == OpenStepView::Done(None)
            && runs[i].end() <= runs[i + 1].start
}

/// The length of the pause between two looks.
spec fn look_pause() -> int {
    LOOK_PAUSE_MILLIS * MILLISECOND
}

/// The steps that a run still makes at most.
spec fn steps_left(s: OpenRunView, step: OpenStepView, now: int) -> int {
    let attempts = (OPEN_ATTEMPTS - s.made) * 40;
    match step {
        OpenStepView::Open => attempts + 39,
        OpenStepView::Look => attempts + 2 * ((s.deadline - now) / look_pause()) + 2,
        OpenStepView::Rest(_) => if s.verifying && s.deadline > now + look_pause() {
            attempts + 2 * ((s.deadline - now - look_pause()) / look_pause()) + 3
        } else {
            attempts + 1
        },
        OpenStepView::Done(_) => 0,
    }
}

/// What holds of a run at each of its steps.
spec fn in_phase(s: OpenRunView, step: OpenStepView, now: int) -> bool {
    &&& s.made <= OPEN_ATTEMPTS
    &&& step is Open ==> !s.verifying
    &&& step is Look ==> s.verifying && now < s.deadline
    &&& s.verifying ==> s.deadline <= now + VERIFY_WINDOW_SECS * SECOND
    &&& step matches OpenStepView::Rest(m) ==> if s.verifying {
        m == LOOK_PAUSE_MILLIS
    } else {
        m == FAILED_PAUSE_MILLIS
    }
}

proof fn lemma_step_taken(
    s: OpenRunView,
    step: OpenStepView,
    before: int,
    e: OpenEventView,
    now: u64,
)
    requires
        in_phase(s, step, before),
        answers_step(step, e),
        before <= now,
        step is Rest ==> now == before + step_limit(step),
    ensures
        ({
            let (t, next) = open_step(s, e, now);
            &&& in_phase(t, next, now as int)
            &&& 0 <= steps_left(t, next, now as int) < steps_left(s, step, before)
        }),
{
    let (t, next) = open_step(s, e, now);
    assert(look_pause() == 750_000_000);
    assert(in_phase(t, next, now as int));
}

proof fn lemma_steps_left(budget: u64, start: u64, notes: Seq<OpenNote>)
    requires
        is_timely(budget, start, notes),
    ensures
        ({
            let (s, step) = open_after(budget, start, notes);
            let now = time_of(start, notes) as int;
            &&& in_phase(s, step, now)
            &&& 0 <= steps_left(s, step, now)
            &&& notes.len() + steps_left(s, step, now) <= 40 * OPEN_ATTEMPTS
        }),
    decreases notes.len(),
{
    if notes.len() > 0 {
        let before = notes.drop_last();
        lemma_timely(budget, start, notes);
        lemma_course(budget, start, notes);
        lemma_steps_left(budget, start, before);
        let (s, step) = open_after(budget, start, before);
        lemma_step_taken(
            s,
            step,
            time_of(start, before) as int,
            notes.last().event,
            notes.last().at,
        );
    }
}

/// A run ends: where no step takes longer than its limit and no pause less
/// than its own, a run has only so many steps.
pub proof fn a_run_ends(budget: u64, start: u64, notes: Seq<OpenNote>)
    requires
        is_timely(budget, start, notes),
    ensures
        notes.len() <= 40 * OPEN_ATTEMPTS,
{
    lemma_steps_left(budget, start, notes);
}

// ---------------------------------------------------------------------------
// A request
// ---------------------------------------------------------------------------

/// The end of the budget of a request that came at `now`.
pub fn request_budget(now: u64) -> (r: u64)
    requires
        now <= LAST_TIME,
    ensures
        r == now + REQUEST_BUDGET_SECS * SECOND,
{
    now + REQUEST_BUDGET_SECS * SECOND
}

/// The end of the wait for KeePassXC to appear: no later than the budget's,
/// and at once where that has passed.
pub fn name_deadline(now: u64, budget: u64) -> (r: u64)
    requires
        now <= LAST_TIME,
    ensures
        now > budget ==> r == now,
        now <= budget && budget - now <= NAME_WAIT_SECS * SECOND ==> r == budget,
        now <= budget && budget - now > NAME_WAIT_SECS * SECOND ==> r == now + NAME_WAIT_SECS
            * SECOND,
{
    let left: u64 = match remaining(budget, now) {
        Some(left) => left,
        None => 0,
    };
    if left <= NAME_WAIT_SECS * SECOND {
        now + left
    } else {
        now + NAME_WAIT_SECS * SECOND
    }
}

/// The end of the wait for KeePassXC to answer.
pub fn ready_deadline(now: u64, budget: u64) -> (r: u64)
    requires
        now <= LAST_TIME,
    ensures
        r == (if now + READY_WAIT_SECS * SECOND <= budget {
            (now + READY_WAIT_SECS * SECOND) as u64
        } else {
            budget
        }),
{
    let end: u64 = now + READY_WAIT_SECS * SECOND;
    if end <= budget {
        end
    } else {
        budget
    }
}

/// A step of a request.
#[derive(Debug, PartialEq, Eq)]
pub enum UnlockStep {
    /// Connect to the user's session bus.
    Connect,
    /// Wait for KeePassXC to appear on it.
    WaitForName,
    /// Make sure that it is KeePassXC.
    VerifyOwner,
    /// Wait for it to answer.
    WaitUntilReady,
    /// Decrypt the password of a database.
    Decrypt(usize),
    /// Open the database, and confirm it.
    Open(usize),
    /// Overwrite the password, however opening the database ended.
    Scrub(usize, Result<(), String>),
    /// The request is answered.
    Done(Result<(), String>),
}

/// The view of an [`UnlockStep`].
#[verifier::ext_equal]
pub enum UnlockStepView {
    Connect,
    WaitForName,
    VerifyOwner,
    WaitUntilReady,
    Decrypt(int),
    Open(int),
    Scrub(int, Option<Seq<char>>),
    Done(Option<Seq<char>>),
}

impl View for UnlockStep {
    type V = UnlockStepView;

    open spec fn view(&self) -> UnlockStepView {
        match self {
            UnlockStep::Connect => UnlockStepView::Connect,
            UnlockStep::WaitForName => UnlockStepView::WaitForName,
            UnlockStep::VerifyOwner => UnlockStepView::VerifyOwner,
            UnlockStep::WaitUntilReady => UnlockStepView::WaitUntilReady,
            UnlockStep::Decrypt(i) => UnlockStepView::Decrypt(*i as int),
            UnlockStep::Open(i) => UnlockStepView::Open(*i as int),
            UnlockStep::Scrub(i, r) => UnlockStepView::Scrub(*i as int, error_of(*r)),
            UnlockStep::Done(r) => UnlockStepView::Done(error_of(*r)),
        }
    }
}

/// What is said where nothing is registered for a user.
pub open spec fn nothing_registered(uid: u32) -> Seq<char> {
    "no databases registered for uid "@ + decimal(uid as nat)
        + " (run cce-keyring-unlock-setup)"@
}

/// The first step of a request for a user with `entries` databases.
pub open spec fn unlock_first(uid: u32, entries: int) -> UnlockStepView {
    if entries == 0 {
        UnlockStepView::Done(Some(nothing_registered(uid)))
    } else {
        UnlockStepView::Connect
    }
}

/// What a step that failed with `error` reports: the two waits have errors of
/// their own.
pub open spec fn reported(step: UnlockStepView, error: Seq<char>) -> Seq<char> {
    match step {
        UnlockStepView::WaitForName => "KeePassXC never appeared on the session bus"@,
        UnlockStepView::WaitUntilReady =>
        "KeePassXC owns its D-Bus name but never answered a call"@,
        _ => error,
    }
}

/// The step after one that succeeded.
pub open spec fn unlock_onward(step: UnlockStepView, entries: int) -> UnlockStepView {
    match step {
        UnlockStepView::Connect => UnlockStepView::WaitForName,
        UnlockStepView::WaitForName => UnlockStepView::VerifyOwner,
        UnlockStepView::VerifyOwner => UnlockStepView::WaitUntilReady,
        UnlockStepView::WaitUntilReady => UnlockStepView::Decrypt(0),
        UnlockStepView::Decrypt(i) => UnlockStepView::Open(i),
        UnlockStepView::Open(i) => UnlockStepView::Scrub(i, None),
        UnlockStepView::Scrub(i, Some(e)) => UnlockStepView::Done(Some(e)),
        UnlockStepView::Scrub(i, None) => if i + 1 < entries {
            UnlockStepView::Decrypt(i + 1)
        } else {
            UnlockStepView::Done(None)
        },
        UnlockStepView::Done(r) => UnlockStepView::Done(r),
    }
}

/// The step after `step`, which may have failed. Overwriting a password does
/// not fail.
pub open spec fn unlock_next(
    step: UnlockStepView,
    error: Option<Seq<char>>,
    entries: int,
) -> UnlockStepView {
    match (step, error) {
        (UnlockStepView::Scrub(_, _), _) => unlock_onward(step, entries),
        (UnlockStepView::Done(_), _) => unlock_onward(step, entries),
        (UnlockStepView::Open(i), Some(e)) => UnlockStepView::Scrub(i, Some(e)),
        (_, Some(e)) => UnlockStepView::Done(Some(reported(step, e))),
        (_, None) => unlock_onward(step, entries),
    }
}

/// The first step of a request.
pub fn first_unlock_step(uid: u32, entries: usize) -> (r: UnlockStep)
    ensures
        r@ == unlock_first(uid, entries as int),
{
    if entries == 0 {
        UnlockStep::Done(
            Err(
                join3(
                    "no databases registered for uid ",
                    decimal_text(uid as u64).as_str(),
                    " (run cce-keyring-unlock-setup)",
                ),
            ),
        )
    } else {
        UnlockStep::Connect
    }
}

/// The step after `step`.
pub fn unlock_for(step: UnlockStep, result: Result<(), String>, entries: usize) -> (r: UnlockStep)
    ensures
        r@ == unlock_next(step@, error_of(result), entries as int),
{
    match step {
        UnlockStep::Connect => match result {
            Ok(_) => UnlockStep::WaitForName,
            Err(e) => UnlockStep::Done(Err(e)),
        },
        UnlockStep::WaitForName => match result {
            Ok(_) => UnlockStep::VerifyOwner,
            Err(_) => UnlockStep::Done(
                Err("KeePassXC never appeared on the session bus".to_owned()),
            ),
        },
        UnlockStep::VerifyOwner => match result {
            Ok(_) => UnlockStep::WaitUntilReady,
            Err(e) => UnlockStep::Done(Err(e)),
        },
        UnlockStep::WaitUntilReady => match result {
            Ok(_) => UnlockStep::Decrypt(0),
            Err(_) => UnlockStep::Done(
                Err("KeePassXC owns its D-Bus name but never answered a call".to_owned()),
            ),
        },
        UnlockStep::Decrypt(i) => match result {
            Ok(_) => UnlockStep::Open(i),
            Err(e) => UnlockStep::Done(Err(e)),
        },
        UnlockStep::Open(i) => UnlockStep::Scrub(i, result),
        UnlockStep::Scrub(i, opened) => match opened {
            Ok(_) => if entries > 0 && i < entries - 1 {
                UnlockStep::Decrypt(i + 1)
            } else {
                UnlockStep::Done(Ok(()))
            },
            Err(e) => UnlockStep::Done(Err(e)),
        },
        UnlockStep::Done(r) => UnlockStep::Done(r),
    }
}

/// Where a request stands after steps with these errors.
pub open spec fn unlock_after(uid: u32, entries: int, errors: Seq<Option<Seq<char>>>) -> UnlockStepView
    decreases errors.len(),
{
    if errors.len() == 0 {
        unlock_first(uid, entries)
    } else {
        unlock_next(unlock_after(uid, entries, errors.drop_last()), errors.last(), entries)
    }
}

/// The place of a step on the way.
pub open spec fn unlock_place(step: UnlockStepView) -> int {
    match step {
        UnlockStepView::Connect => 0,
        UnlockStepView::WaitForName => 1,
        UnlockStepView::VerifyOwner => 2,
        UnlockStepView::WaitUntilReady => 3,
        UnlockStepView::Decrypt(i) => 4 + 3 * i,
        UnlockStepView::Open(i) => 5 + 3 * i,
        UnlockStepView::Scrub(i, _) => 6 + 3 * i,
        UnlockStepView::Done(_) => -1,
    }
}

/// Whether the place on the way is one where a password is overwritten.
pub open spec fn scrubs_at(place: int) -> bool {
    place >= 4 && (place - 4) % 3 == 2
}

/// Whether every step so far succeeded, but for overwriting passwords, where
/// there is nothing to fail.
pub open spec fn went_well(errors: Seq<Option<Seq<char>>>) -> bool {
    forall|i: int| 0 <= i < errors.len() && !scrubs_at(i) ==> (#[trigger] errors[i]) is None
}

proof fn lemma_unlock_way(uid: u32, entries: int, errors: Seq<Option<Seq<char>>>)
    requires
        entries > 0,
    ensures
        ({
            let step = unlock_after(uid, entries, errors);
            &&& step matches UnlockStepView::Decrypt(i) ==> 0 <= i < entries
            &&& step matches UnlockStepView::Open(i) ==> 0 <= i < entries
            &&& step matches UnlockStepView::Scrub(i, _) ==> 0 <= i < entries
            &&& !(step is Done) ==> errors.len() == unlock_place(step)
            &&& !(step is Done) && !(step is Scrub) ==> went_well(errors)
            &&& step matches UnlockStepView::Scrub(_, e) ==> errors.last() == e && went_well(
                errors.drop_last(),
            )
            &&& step == UnlockStepView::Done(None) ==> errors.len() >= 4 + 3 * entries && went_well(
                errors.take(4 + 3 * entries),
            )
        }),
    decreases errors.len(),
{
    if errors.len() > 0 {
        let before = errors.drop_last();
        lemma_unlock_way(uid, entries, before);
        let step = unlock_after(uid, entries, errors);
        let last = unlock_after(uid, entries, before);
        if last is Done {
            if step == UnlockStepView::Done(None) {
                assert(before.take(4 + 3 * entries) =~= errors.take(4 + 3 * entries));
            }
        } else {
            if last is Scrub {
                let e = last->Scrub_1;
                if e is None {
                    assert forall|i: int| 0 <= i < errors.len() && !scrubs_at(
                        i,
                    ) implies (#[trigger] errors[i]) is None by {
                        if i < before.len() - 1 {
                            assert(before.drop_last()[i] == errors[i]);
                        } else if i == before.len() - 1 {
                            assert(before.last() == errors[i]);
                        }
                    }
                    if step == UnlockStepView::Done(None) {
                        assert(errors.take(4 + 3 * entries) =~= errors);
                    }
                }
            } else if errors.last() is None {
                assert forall|i: int| 0 <= i < errors.len() && !scrubs_at(
                    i,
                ) implies (#[trigger] errors[i]) is None by {
                    if i < before.len() {
                        assert(before[i] == errors[i]);
                    }
                }
            }
        }
    }
}

/// A password is decrypted, and KeePassXC called with it, only after the owner
/// of its name was found to be KeePassXC and answered.
pub proof fn a_password_waits_for_a_trusted_owner(
    uid: u32,
    entries: int,
    errors: Seq<Option<Seq<char>>>,
)
    requires
        entries > 0,
        unlock_after(uid, entries, errors) is Decrypt || unlock_after(uid, entries, errors) is Open,
    ensures
        errors.len() > unlock_place(UnlockStepView::WaitUntilReady),
        errors[unlock_place(UnlockStepView::VerifyOwner)] is None,
        errors[unlock_place(UnlockStepView::WaitUntilReady)] is None,
        unlock_after(
            uid,
            entries,
            errors.take(unlock_place(UnlockStepView::VerifyOwner)),
        ) == UnlockStepView::VerifyOwner,
{
    lemma_unlock_way(uid, entries, errors);
    assert(went_well(errors));
    assert(!scrubs_at(2) && !scrubs_at(3));
    let e = errors.take(2);
    assert(!scrubs_at(0) && !scrubs_at(1));
    assert(e[0] is None && e[1] is None) by {
        assert(e[0] == errors[0] && e[1] == errors[1]);
    }
    assert(e.drop_last().drop_last() =~= Seq::empty());
    reveal_with_fuel(unlock_after, 3);
}

/// A password does not outlive its use: the step after opening a database
/// overwrites it, whether that succeeded or not.
pub proof fn a_password_is_overwritten(i: int, error: Option<Seq<char>>, entries: int)
    ensures
        unlock_next(UnlockStepView::Open(i), error, entries) == UnlockStepView::Scrub(i, error),
{
}

/// Success means that every database was opened and confirmed.
pub proof fn success_means_all_are_open(uid: u32, entries: int, errors: Seq<Option<Seq<char>>>)
    requires
        entries >= 0,
        unlock_after(uid, entries, errors) == UnlockStepView::Done(None),
    ensures
        entries > 0,
        errors.len() >= unlock_place(UnlockStepView::Decrypt(entries)),
        forall|i: int|
            #![trigger unlock_place(UnlockStepView::Open(i))]
            0 <= i < entries ==> errors[unlock_place(UnlockStepView::Open(i))] is None,
{
    if entries == 0 {
        lemma_nothing_to_do(uid, errors);
    } else {
        lemma_unlock_way(uid, entries, errors);
        let way = errors.take(4 + 3 * entries);
        assert forall|i: int|
            #![trigger unlock_place(UnlockStepView::Open(i))]
            0 <= i < entries implies errors[unlock_place(UnlockStepView::Open(i))] is None by {
            let k = 5 + 3 * i;
            assert((k - 4) % 3 == 1);
            assert(way[k] is None);
        }
    }
}

proof fn lemma_nothing_to_do(uid: u32, errors: Seq<Option<Seq<char>>>)
    ensures
        unlock_after(uid, 0, errors) == UnlockStepView::Done(Some(nothing_registered(uid))),
    decreases errors.len(),
{
    if errors.len() > 0 {
        lemma_nothing_to_do(uid, errors.drop_last());
    }
}

// ---------------------------------------------------------------------------
// Laws
// ---------------------------------------------------------------------------

/// A call that did not return in time is named, with the time that it had: a
/// number of seconds, or no time at all.
pub proof fn a_timeout_names_call_and_time(label: Seq<char>, secs: u64)
    ensures
        timeout_text(label, secs) == label + " did not return within "@ + (if secs == 0 {
            "0ns"@
        } else {
            decimal(secs as nat) + "s"@
        }),
{
}

/// The daemon unlocks on one word alone, whatever white space stands around
/// it.
pub proof fn one_word_unlocks(line: Seq<char>)
    ensures
        asks_to_unlock(line) <==> trimmed(line) == "unlock"@,
{
}

/// A result has an error exactly where it is one, and it is the one in it; the
/// answers to a question are taken as they are.
pub proof fn answers_are_taken_as_they_are(
    r: Result<(), String>,
    n: Result<u32, String>,
    s: Result<String, String>,
)
    ensures
        error_of(r) is None <==> r is Ok,
        r matches Err(e) ==> error_of(r) == Some(e@),
        number_answer(n) is Ok <==> n is Ok,
        n matches Ok(v) ==> number_answer(n) == Ok::<u32, Seq<char>>(v),
        n matches Err(e) ==> number_answer(n) == Err::<u32, Seq<char>>(e@),
        text_answer(s) is Ok <==> s is Ok,
        s matches Ok(v) ==> text_answer(s) == Ok::<Seq<char>, Seq<char>>(v@),
        s matches Err(e) ==> text_answer(s) == Err::<Seq<char>, Seq<char>>(e@),
{
}

/// A reply tells success from failure, and a failure carries its reason.
pub proof fn a_reply_carries_the_reason(error: Option<Seq<char>>)
    ensures
        error is None ==> reply_of(error) == "ok"@,
        error matches Some(e) ==> reply_of(error) == "error: "@ + e,
{
}

/// The first line of a text is all of it up to the first line break, which is
/// no part of it, or the whole text where there is none.
pub proof fn the_first_line_ends_at_a_break(text: Seq<char>)
    ensures
        first_line(text).is_prefix_of(text),
        !first_line(text).contains('\n'),
        first_line(text).len() < text.len() ==> text[first_line(text).len() as int] == '\n',
{
    crate::split::lemma_find(text, '\n');
    let l = first_line(text);
    assert(text.subrange(0, l.len() as int) =~= l);
    assert forall|k: int| 0 <= k < l.len() implies l[k] != '\n' by {
        assert(l[k] == text[k]);
    }
}

/// What comes before each step of connecting. The ids are taken one after the
/// other, the handshake follows both, and each that was taken is given back in
/// the opposite order; only a failure to give one back ends the daemon, with
/// an error.
pub proof fn ids_are_taken_and_given_back(step: ConnectStep, ok: bool)
    ensures
        ({
            let next = connect_next(step, ok);
            &&& !(next is SetGid)
            &&& next is SetUid <==> step is SetGid && ok
            &&& next is Handshake <==> step is SetUid && ok
            &&& next is RestoreUid <==> step is Handshake
            &&& next matches ConnectStep::RestoreUid { connected } ==> connected == ok
            &&& next matches ConnectStep::RestoreGid { connected } ==> {
                ||| step is SetUid && !ok && !connected
                ||| step == (ConnectStep::RestoreUid { connected }) && ok
            }
            &&& next matches ConnectStep::Finished { connected } ==> {
                ||| step is SetGid && !ok && !connected
                ||| step == (ConnectStep::RestoreGid { connected }) && ok
                ||| step == (ConnectStep::Finished { connected })
            }
            &&& next matches ConnectStep::Exit(code) ==> {
                ||| (step is RestoreUid || step is RestoreGid) && !ok && code == 1
                ||| step == ConnectStep::Exit(code)
            }
        }),
{
}

/// A program whose file was replaced is still that program: the mark is taken
/// off, once, and nothing else is.
pub proof fn the_mark_is_taken_off(path: Seq<char>)
    ensures
        program_path(path + " (deleted)"@) == path,
        !" (deleted)"@.is_suffix_of(path) ==> program_path(path) == path,
        program_path(path) == path || program_path(path) + " (deleted)"@ == path,
{
    let mark = " (deleted)"@;
    let marked = path + mark;
    assert(marked.subrange(marked.len() - mark.len(), marked.len() as int) =~= mark);
    assert(mark.is_suffix_of(marked));
    assert(marked.take(marked.len() - mark.len()) =~= path);
    if mark.is_suffix_of(path) {
        assert(program_path(path) + mark =~= path);
    }
}

/// The reason for which an owner is not trusted is the first that applies: its
/// process is not known; its program is not known, or is another; its user is
/// not known, or is another.
pub proof fn why_an_owner_is_not_trusted(
    uid: u32,
    pid: Result<u32, Seq<char>>,
    exe: Result<Seq<char>, Seq<char>>,
    owner: Result<u32, Seq<char>>,
)
    ensures
        pid matches Err(e) ==> owner_error(uid, pid, exe, owner) == Some(e),
        pid matches Ok(p) ==> {
            &&& exe matches Err(e) ==> owner_error(uid, pid, exe, owner) == Some(e)
            &&& exe matches Ok(path) ==> {
                let installed = same_absolute(program_path(path), "/usr/bin/keepassxc"@);
                &&& !installed ==> owner_error(uid, pid, exe, owner) == Some(
                    "bus name owned by "@ + path + " (pid "@ + decimal(p as nat) + "), not "@
                        + "/usr/bin/keepassxc"@,
                )
                &&& installed ==> {
                    &&& owner matches Err(e) ==> owner_error(uid, pid, exe, owner) == Some(e)
                    &&& owner matches Ok(o) ==> owner_error(uid, pid, exe, owner) == (if o == uid {
                        None::<Seq<char>>
                    } else {
                        Some(
                            "keepassxc pid "@ + decimal(p as nat) + " belongs to uid "@ + decimal(
                                o as nat,
                            ) + ", expected "@ + decimal(uid as nat),
                        )
                    })
                }
            }
        },
{
}

/// A password is what the call wrote, and nothing else is where the call
/// failed: then the name and what it complained of are reported.
pub proof fn a_password_comes_from_a_good_call(
    name: Seq<char>,
    success: bool,
    output: Result<Seq<char>, Seq<char>>,
    errors: Seq<char>,
)
    ensures
        decrypted(name, success, output, errors) is Ok <==> success && output is Ok,
        success ==> decrypted(name, success, output, errors) == output,
        !success ==> (decrypted(name, success, output, errors) matches Err(e)
            && e == "systemd-creds decrypt failed for "@ + name + ": "@ + trimmed(errors)),
{
}

/// A database is called for only while one of its four attempts is left and
/// the budget is not used up; the call counts as one of them.
pub proof fn an_attempt_is_counted(s: OpenRunView, e: OpenEventView, now: u64)
    ensures
        ({
            let (t, next) = open_step(s, e, now);
            &&& next is Open ==> s.made < 4 && now <= s.budget && t.made == s.made + 1
                && !t.verifying
            &&& !(next is Open) ==> t.made == s.made
            &&& t.budget == s.budget
        }),
{
}

/// A run fails only where no attempt is left, or no time. The error is that of
/// its last attempt.
pub proof fn why_a_run_fails(s: OpenRunView, e: OpenEventView, now: u64)
    ensures
        open_step(s, e, now).1 matches OpenStepView::Done(Some(error)) ==> {
            &&& s.made >= 4 || now > s.budget
            &&& e is Start || (e is Rested && !s.verifying) ==> error == s.last_err
            &&& e is OpenTimedOut ==> error == "openDatabase did not return within "@ + decimal(15)
                + "s"@
            &&& e is Rested && s.verifying ==> s.secrets_seen && now >= s.deadline && error
                == "still locked "@ + decimal(12) + "s after openDatabase (attempt "@ + decimal(
                s.made as nat,
            ) + ")"@
            &&& !(e is Looked) && !(e is OpenFailed) && !(e is Opened)
        },
{
    assert("openDatabase"@ + " did not return within "@ + decimal(15) + "s"@ =~= "openDatabase"@
        + " did not return within "@ + (decimal(15) + "s"@));
    reveal_strlit("openDatabase did not return within ");
    reveal_strlit("openDatabase");
    reveal_strlit(" did not return within ");
    assert("openDatabase did not return within "@ =~= "openDatabase"@ + " did not return within "@);
}

/// A run succeeds for two reasons only: the database was seen unlocked, or its
/// window passed without its being seen locked.
pub proof fn why_a_run_succeeds(s: OpenRunView, e: OpenEventView, now: u64)
    ensures
        e == OpenEventView::Looked(LockState::Unlocked) ==> open_step(s, e, now)
            == (s, OpenStepView::Done(None)),
        open_step(s, e, now).1 == OpenStepView::Done(None) ==> {
            ||| e == OpenEventView::Looked(LockState::Unlocked)
            ||| e is Opened && now >= s.budget
            ||| e is Rested && s.verifying && now >= s.deadline && !s.secrets_seen
        },
        e is Rested && s.verifying && now >= s.deadline && !s.secrets_seen ==> open_step(
            s,
            e,
            now,
        ).1 == OpenStepView::Done(None),
{
}

/// A call that returned opens a window of twelve seconds, or what is left of
/// the budget, in which the lock is looked at; what was seen before does not
/// count in it.
pub proof fn a_window_follows_the_call(s: OpenRunView, now: u64)
    requires
        now < s.budget,
        now + 12 * 1_000_000_000 <= u64::MAX,
    ensures
        ({
            let (t, next) = open_step(s, OpenEventView::Opened, now);
            let end = now + 12 * 1_000_000_000;
            &&& next is Look
            &&& end <= s.budget ==> t.deadline == end
            &&& end > s.budget ==> t.deadline == s.budget
            &&& t.verifying && !t.secrets_seen && t.last_err == s.last_err
        }),
{
}

/// Inside the window a look follows each pause, and a pause each look that did
/// not show the database unlocked; a locked one is remembered.
pub proof fn the_lock_is_looked_at_again(s: OpenRunView, now: u64)
    ensures
        open_step(s, OpenEventView::Looked(LockState::Locked), now) == (
            OpenRunView { secrets_seen: true, ..s },
            OpenStepView::Rest(750),
        ),
        open_step(s, OpenEventView::Looked(LockState::Unknown), now) == (
            s,
            OpenStepView::Rest(750),
        ),
        s.verifying && now < s.deadline ==> open_step(s, OpenEventView::Rested, now) == (
            s,
            OpenStepView::Look,
        ),
{
}

/// Another attempt is made while one is left, in time: after a call that
/// failed and a pause of two seconds, after one that did not return, and after
/// a window in which the database was seen locked. Each leaves its error.
pub proof fn a_failed_attempt_is_repeated(s: OpenRunView, error: Seq<char>, now: u64)
    requires
        s.made < 4,
        now <= s.budget,
    ensures
        open_step(s, OpenEventView::OpenFailed(error), now) == (
            OpenRunView { last_err: "openDatabase call failed: "@ + error, ..s },
            OpenStepView::Rest(2000),
        ),
        open_step(s, OpenEventView::Start, now).1 is Open,
        open_step(s, OpenEventView::Start, now).0.last_err == s.last_err,
        !s.verifying ==> open_step(s, OpenEventView::Rested, now).1 is Open && open_step(
            s,
            OpenEventView::Rested,
            now,
        ).0.last_err == s.last_err,
        open_step(s, OpenEventView::OpenTimedOut, now).1 is Open,
        open_step(s, OpenEventView::OpenTimedOut, now).0.last_err == timeout_text(
            "openDatabase"@,
            15,
        ),
        s.verifying && now >= s.deadline && s.secrets_seen ==> {
            let (t, next) = open_step(s, OpenEventView::Rested, now);
            &&& next is Open
            &&& t.last_err == "still locked "@ + decimal(12) + "s after openDatabase (attempt "@
                + decimal(s.made as nat) + ")"@
        },
{
}

/// A run that has done nothing yet has made no attempt, is not looking at any
/// lock, and has its budget.
pub proof fn a_run_starts_fresh(budget: u64)
    ensures
        ({
            let s = fresh_run(budget);
            &&& s.budget == budget && s.made == 0
            &&& !s.verifying && !s.secrets_seen
            &&& s.last_err == "unlock not confirmed"@
        }),
{
}

/// A request for a user without databases is refused at once, with a message
/// that names the user's id; any other begins by connecting.
pub proof fn a_request_needs_a_database(uid: u32, entries: int)
    ensures
        unlock_first(uid, entries) is Connect <==> entries != 0,
        entries == 0 ==> unlock_first(uid, entries) == UnlockStepView::Done(
            Some(
                "no databases registered for uid "@ + decimal(uid as nat)
                    + " (run cce-keyring-unlock-setup)"@,
            ),
        ),
{
}

/// A step that fails ends the request with its error, but the two waits with
/// their own message, and opening a database only once the password is
/// overwritten.
pub proof fn a_failed_step_ends_the_request(step: UnlockStepView, error: Seq<char>, entries: int)
    ensures
        ({
            let next = unlock_next(step, Some(error), entries);
            &&& step is Connect || step is VerifyOwner || step is Decrypt ==> next
                == UnlockStepView::Done(Some(error))
            &&& step is WaitForName ==> next == UnlockStepView::Done(
                Some("KeePassXC never appeared on the session bus"@),
            )
            &&& step is WaitUntilReady ==> next == UnlockStepView::Done(
                Some("KeePassXC owns its D-Bus name but never answered a call"@),
            )
            &&& step matches UnlockStepView::Open(i) ==> {
                &&& next == UnlockStepView::Scrub(i, Some(error))
                &&& unlock_next(next, None, entries) == UnlockStepView::Done(Some(error))
                &&& unlock_next(next, Some(error), entries) == UnlockStepView::Done(Some(error))
            }
        }),
{
}

/// The way of a request on which nothing fails: KeePassXC is connected to,
/// awaited, verified and awaited again; then each database in turn is
/// decrypted, opened and its password overwritten; and then the request has
/// succeeded, and stays so.
pub proof fn the_way_of_a_request(uid: u32, entries: int, errors: Seq<Option<Seq<char>>>)
    requires
        entries > 0,
        forall|i: int| 0 <= i < errors.len() ==> (#[trigger] errors[i]) is None,
    ensures
        ({
            let n = errors.len() as int;
            let step = unlock_after(uid, entries, errors);
            &&& n == 0 ==> step is Connect
            &&& n == 1 ==> step is WaitForName
            &&& n == 2 ==> step is VerifyOwner
            &&& n == 3 ==> step is WaitUntilReady
            &&& 4 <= n < 4 + 3 * entries ==> {
                let i = (n - 4) / 3;
                &&& (n - 4) % 3 == 0 ==> step == UnlockStepView::Decrypt(i)
                &&& (n - 4) % 3 == 1 ==> step == UnlockStepView::Open(i)
                &&& (n - 4) % 3 == 2 ==> step == UnlockStepView::Scrub(i, None)
            }
            &&& n >= 4 + 3 * entries ==> step == UnlockStepView::Done(None)
        }),
    decreases errors.len(),
{
    if errors.len() > 0 {
        let before = errors.drop_last();
        assert forall|i: int| 0 <= i < before.len() implies (#[trigger] before[i]) is None by {
            assert(before[i] == errors[i]);
        }
        assert(errors[errors.len() - 1] is None);
        the_way_of_a_request(uid, entries, before);
    }
}

/// A request that is answered stays answered.
pub proof fn an_answer_is_final(answer: Option<Seq<char>>, error: Option<Seq<char>>, entries: int)
    ensures
        unlock_next(UnlockStepView::Done(answer), error, entries) == UnlockStepView::Done(answer),
{
}

} // verus!
