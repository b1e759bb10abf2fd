//! The client of the keyring daemon: asks it, once per session, to unlock the
//! user's databases.
use vstd::prelude::*;

use crate::bus::{LockState, MILLISECOND, SECOND};
use crate::keyring::SOCKET_PATH;
use crate::text::{join3, same, starts_with, trim, trimmed};
use crate::unlock::{
    a_late_run_does_nothing, a_run_ends_in_time, is_request, OpenCourse, OpenStepView,
    FAILED_PAUSE_MILLIS, OPEN_TIMEOUT_SECS, REQUEST_BUDGET_SECS,
};

verus! {

/// How long to wait for KeePassXC to appear, in seconds: the start of a
/// session can be slow.
pub const APPEAR_WAIT_SECS: u64 = 120;

/// How often the daemon is asked.
pub const REQUEST_ATTEMPTS: u32 = 3;

/// The pause after a request that failed, in seconds.
pub const REQUEST_PAUSE_SECS: u64 = 4;

/// How long to wait for the daemon's reply, in seconds.
pub const REPLY_WAIT_SECS: u64 = 120;

/// How long to wait for the compositor's reply, in seconds.
pub const CLOSE_REPLY_WAIT_SECS: u64 = 3;

/// The request to the compositor that closes the prompt which KeePassXC leaves
/// behind when a database is unlocked under it.
pub const CLOSE_REQUEST: &'static str = "close-window org.keepassxc.KeePassXC unlock database";

// ---------------------------------------------------------------------------
// The course of the client
// ---------------------------------------------------------------------------

/// What the client does next.
#[derive(Debug, Clone, Copy, PartialEq, Eq, Structural)]
pub enum ClientStep {
    /// Wait for KeePassXC to appear.
    WaitForName,
    /// Look at the lock.
    Look,
    /// Ask the daemon. The attempts are counted from 1.
    Request(u32),
    /// Pause after an attempt.
    Pause(u32),
    /// Close the prompt that may have been left behind.
    Dismiss,
    /// End with this exit status.
    Exit(i32),
}

/// What came of a step.
#[derive(Debug, Clone, Copy, PartialEq, Eq, Structural)]
pub enum ClientEvent {
    /// KeePassXC appeared, or did not.
    Appeared(bool),
    /// The lock.
    Looked(LockState),
    /// Whether the daemon confirmed the unlock.
    Replied(bool),
    /// The step is over.
    Over,
}

/// The step after `step`. A session without KeePassXC has nothing to unlock,
/// and neither has one whose database is unlocked already.
pub open spec fn client_next(step: ClientStep, e: ClientEvent) -> ClientStep {
    match step {
        ClientStep::WaitForName => if e == ClientEvent::Appeared(true) {
            ClientStep::Look
        } else {
            ClientStep::Exit(0)
        },
        ClientStep::Look => if e == ClientEvent::Looked(LockState::Unlocked) {
            ClientStep::Exit(0)
        } else {
            ClientStep::Request(1)
        },
        ClientStep::Request(n) => if e == ClientEvent::Replied(true) {
            ClientStep::Dismiss
        } else {
            ClientStep::Pause(n)
        },
        ClientStep::Pause(n) => if n < REQUEST_ATTEMPTS {
            ClientStep::Request((n + 1) as u32)
        } else {
            ClientStep::Exit(1)
        },
        ClientStep::Dismiss => ClientStep::Exit(0),
        ClientStep::Exit(code) => ClientStep::Exit(code),
    }
}

/// The step after `step`.
pub fn next_client_step(step: ClientStep, event: ClientEvent) -> (r: ClientStep)
    ensures
        r == client_next(step, event),
{
    match step {
        ClientStep::WaitForName => match event {
            ClientEvent::Appeared(true) => ClientStep::Look,
            _ => ClientStep::Exit(0),
        },
        ClientStep::Look => match event {
            ClientEvent::Looked(LockState::Unlocked) => ClientStep::Exit(0),
            _ => ClientStep::Request(1),
        },
        ClientStep::Request(n) => match event {
            ClientEvent::Replied(true) => ClientStep::Dismiss,
            _ => ClientStep::Pause(n),
        },
        ClientStep::Pause(n) => if n < REQUEST_ATTEMPTS {
            ClientStep::Request(n + 1)
        } else {
            ClientStep::Exit(1)
        },
        ClientStep::Dismiss => ClientStep::Exit(0),
        ClientStep::Exit(code) => ClientStep::Exit(code),
    }
}

/// Where the client stands after these events.
pub open spec fn client_after(events: Seq<ClientEvent>) -> ClientStep
    decreases events.len(),
{
    if events.len() == 0 {
        ClientStep::WaitForName
    } else {
        client_next(client_after(events.drop_last()), events.last())
    }
}

/// The most steps that come before `step`.
pub open spec fn client_place(step: ClientStep) -> int {
    match step {
        ClientStep::WaitForName => 0,
        ClientStep::Look => 1,
        ClientStep::Request(n) => 2 * n,
        ClientStep::Pause(n) => 2 * n + 1,
        ClientStep::Dismiss => 2 * REQUEST_ATTEMPTS + 1,
        ClientStep::Exit(_) => 2 * REQUEST_ATTEMPTS + 2,
    }
}

/// The client gives up after a few requests: it ends within so many steps,
/// asks the daemon no more often than that, and fails only where KeePassXC
/// appeared and none of its requests was confirmed.
pub proof fn the_client_ends(events: Seq<ClientEvent>)
    ensures
        client_after(events) matches ClientStep::Request(n) ==> 1 <= n <= REQUEST_ATTEMPTS,
        client_after(events) matches ClientStep::Pause(n) ==> 1 <= n <= REQUEST_ATTEMPTS,
        !(client_after(events) is Exit) ==> events.len() <= client_place(client_after(events)),
        events.len() >= client_place(ClientStep::Exit(0)) ==> client_after(events) is Exit,
        client_after(events) == ClientStep::Exit(1) ==> {
            &&& events.len() >= client_place(ClientStep::Exit(1))
            &&& events[0] == ClientEvent::Appeared(true)
            &&& forall|n: u32|
                #![trigger client_place(ClientStep::Request(n))]
                1 <= n <= REQUEST_ATTEMPTS ==> events[client_place(ClientStep::Request(n))]
                    != ClientEvent::Replied(true)
        },
        client_after(events) is Dismiss ==> events.last() == ClientEvent::Replied(true),
{
    lemma_client_way(events);
}

proof fn lemma_client_way(events: Seq<ClientEvent>)
    ensures
        ({
            let step = client_after(events);
            &&& step matches ClientStep::Request(n) ==> 1 <= n <= REQUEST_ATTEMPTS && no_success(
                events,
                n as int,
            )
            &&& step matches ClientStep::Pause(n) ==> 1 <= n <= REQUEST_ATTEMPTS && no_success(
                events,
                n + 1,
            )
            &&& step is WaitForName || step is Look || step is Request || step is Pause
                ==> events.len() == client_place(step)
            &&& step is Dismiss ==> events.len() > 0 && events.last() == ClientEvent::Replied(true)
                && events.len() <= client_place(step)
            &&& !(step is WaitForName) && step != ClientStep::Exit(0) ==> events.len() > 0
                && events[0] == ClientEvent::Appeared(true)
            &&& step == ClientStep::Exit(1) ==> events.len() >= client_place(step) && no_success(
                events,
                REQUEST_ATTEMPTS + 1,
            )
            &&& step matches ClientStep::Exit(code) ==> code == 0 || code == 1
        }),
    decreases events.len(),
{
    if events.len() > 0 {
        let before = events.drop_last();
        lemma_client_way(before);
        let last = client_after(before);
        if before.len() > 0 {
            assert(before[0] == events[0]);
        }
        let n: int = match last {
            ClientStep::Request(n) => n as int,
            ClientStep::Pause(n) => n + 1,
            _ => REQUEST_ATTEMPTS + 1,
        };
        if no_success(before, n) && before.len() >= 2 * n - 1 {
            assert forall|k: u32|
                #![trigger client_place(ClientStep::Request(k))]
                1 <= k < n implies events[client_place(ClientStep::Request(k))]
                != ClientEvent::Replied(true) by {
                assert(before[client_place(ClientStep::Request(k))] == events[client_place(
                    ClientStep::Request(k),
                )]);
            }
            assert(no_success(events, n));
        }
    }
}

/// Whether none of the requests before the `n`th was confirmed.
spec fn no_success(events: Seq<ClientEvent>, n: int) -> bool {
    forall|k: u32|
        #![trigger client_place(ClientStep::Request(k))]
        1 <= k < n ==> events[client_place(ClientStep::Request(k))] != ClientEvent::Replied(true)
}

/// The client waits long enough for all that a request does: every run that
/// it makes, for any number of databases, has ended before the client stops
/// waiting for the reply. Only a run that starts after the budget may be later;
/// it is the last of the request, makes no call and fails.
pub proof fn the_client_waits_for_every_run(
    asked: u64,
    budget: u64,
    runs: Seq<OpenCourse>,
    i: int,
)
    requires
        budget == asked + REQUEST_BUDGET_SECS * SECOND,
        is_request(budget, runs),
        0 <= i < runs.len(),
    ensures
        runs[i].start <= budget ==> runs[i].end() < asked + REPLY_WAIT_SECS * SECOND,
        i < runs.len() - 1 ==> runs[i].start <= budget,
        runs[i].start > budget ==> {
            &&& i == runs.len() - 1
            &&& runs[i].notes.len() == 0
            &&& runs[i].end() == runs[i].start
            &&& runs[i].step(budget) matches OpenStepView::Done(Some(_))
        },
{
    let run = runs[i];
    if run.start <= budget {
        a_run_ends_in_time(budget, run.start, run.notes);
    } else {
        a_late_run_does_nothing(budget, run.start, run.notes);
    }
}

/// The client hears the outcome of a whole request: where what comes before
/// the first run ends with the budget, and what comes between two runs takes
/// less than `gap`, everything has happened before the client stops waiting.
/// `gap` is what the budget, the last call and the pause after it leave of the
/// client's time.
pub proof fn the_client_waits_for_the_outcome(
    asked: u64,
    budget: u64,
    gap: int,
    runs: Seq<OpenCourse>,
    i: int,
)
    requires
        budget == asked + REQUEST_BUDGET_SECS * SECOND,
        gap == (REPLY_WAIT_SECS - REQUEST_BUDGET_SECS - OPEN_TIMEOUT_SECS) * SECOND
            - FAILED_PAUSE_MILLIS * MILLISECOND,
        is_request(budget, runs),
        runs.len() > 0 ==> runs[0].start < budget + gap,
        forall|k: int| 0 < k < runs.len() ==> (#[trigger] runs[k]).start < runs[k - 1].end() + gap,
        0 <= i < runs.len(),
    ensures
        gap == 3 * SECOND,
        runs[i].end() < asked + REPLY_WAIT_SECS * SECOND,
{
    the_client_waits_for_every_run(asked, budget, runs, i);
    if i > 0 {
        the_client_waits_for_every_run(asked, budget, runs, i - 1);
        a_run_ends_in_time(budget, runs[i - 1].start, runs[i - 1].notes);
    }
}

// ---------------------------------------------------------------------------
// The request
// ---------------------------------------------------------------------------

/// What is said where the daemon cannot be reached.
pub fn unreachable_text(error: &str) -> (r: String)
    ensures
        r@ == "cannot reach "@ + SOCKET_PATH@ + " (is cce-keyring-unlockd running?): "@ + error@,
{
    let mut s = join3("cannot reach ", SOCKET_PATH, " (is cce-keyring-unlockd running?): ");
    s.append(error);
    s
}

/// Whether the line that the daemon replied confirms the unlock.
pub fn request_unlock(line: &str) -> (r: bool)
    ensures
        r == (trimmed(line@) == "ok"@),
{
    same(trim(line), "ok")
}

// ---------------------------------------------------------------------------
// The prompt left behind
// ---------------------------------------------------------------------------

/// The compositor's socket.
pub fn compositor_socket(display: &str) -> (r: String)
    ensures
        r@ == "/tmp/cce-"@ + display@ + ".sock"@,
{
    join3("/tmp/cce-", display, ".sock")
}

/// What came of asking the compositor to close the prompt.
#[derive(Debug, PartialEq, Eq)]
pub enum CloseReply {
    /// It cannot be asked.
    Unreachable,
    /// What it replied; nothing where it did not in time.
    Line(String),
}

/// The next step of closing the prompt.
#[derive(Debug, Clone, Copy, PartialEq, Eq, Structural)]
pub enum DismissStep {
    /// Pause for so many seconds, and ask the compositor.
    AskAfter(u64),
    /// It is closed.
    Closed,
    /// There is nothing to close, or nobody to ask.
    GiveUp,
}

/// The pause before the compositor is asked for the `n`th time, counted from
/// 0: the prompt may still be on its way, so it is asked twice.
pub open spec fn ask_after(n: int) -> DismissStep {
    if n == 0 {
        DismissStep::AskAfter(2)
    } else if n == 1 {
        DismissStep::AskAfter(5)
    } else {
        DismissStep::GiveUp
    }
}

/// The step after the compositor was asked `asked` times, with this reply to
/// the last; or the first step. Outside a session of this desktop there is no
/// compositor to ask.
pub open spec fn dismiss_step(in_session: bool, asked: int, reply: Option<CloseReply>) -> DismissStep {
    if !in_session {
        DismissStep::GiveUp
    } else {
        match reply {
            Some(CloseReply::Unreachable) => DismissStep::GiveUp,
            Some(CloseReply::Line(l)) => if "ok"@.is_prefix_of(l@) {
                DismissStep::Closed
            } else {
                ask_after(asked)
            },
            None => ask_after(asked),
        }
    }
}

/// The next step of closing the prompt.
pub fn dismiss_orphaned_unlock_dialog(
    in_session: bool,
    asked: u32,
    reply: &Option<CloseReply>,
) -> (r: DismissStep)
    ensures
        r == dismiss_step(in_session, asked as int, *reply),
{
    if !in_session {
        return DismissStep::GiveUp;
    }
    match reply {
        Some(CloseReply::Unreachable) => {
            return DismissStep::GiveUp;
        },
        Some(CloseReply::Line(l)) => {
            if starts_with(l.as_str(), "ok") {
                return DismissStep::Closed;
            }
        },
        None => {},
    }
    if asked == 0 {
        DismissStep::AskAfter(2)
    } else if asked == 1 {
        DismissStep::AskAfter(5)
    } else {
        DismissStep::GiveUp
    }
}

// ---------------------------------------------------------------------------
// Laws
// ---------------------------------------------------------------------------

/// The client ends well for three reasons only: KeePassXC did not appear, it
/// was seen unlocked, or a request was confirmed and the prompt was seen to.
/// A database that was seen locked, or could not be seen, is asked for next.
pub proof fn why_the_client_ends_well(step: ClientStep, e: ClientEvent)
    ensures
        client_next(step, e) == ClientStep::Exit(0) <==> {
            ||| step is WaitForName && e != ClientEvent::Appeared(true)
            ||| step is Look && e == ClientEvent::Looked(LockState::Unlocked)
            ||| step is Dismiss
            ||| step == ClientStep::Exit(0)
        },
        client_next(step, e) is Dismiss <==> step is Request && e == ClientEvent::Replied(true),
        client_next(step, e) is Look <==> step is WaitForName && e == ClientEvent::Appeared(true),
        step is Look && e == ClientEvent::Looked(LockState::Locked) ==> client_next(step, e)
            == ClientStep::Request(1),
        step is Look && e != ClientEvent::Looked(LockState::Unlocked) ==> client_next(step, e)
            == ClientStep::Request(1),
        !(client_next(step, e) is WaitForName),
{
}

/// The client fails for one reason only: it paused after its third request. A
/// request that was not confirmed is followed by a pause, and each pause
/// before the last by one more request.
pub proof fn why_the_client_fails(step: ClientStep, e: ClientEvent)
    ensures
        client_next(step, e) == ClientStep::Exit(1) ==> step == ClientStep::Exit(1) || (
        step matches ClientStep::Pause(n) && n >= 3),
        client_next(step, e) matches ClientStep::Exit(code) ==> code == 0 || code == 1
            || step == ClientStep::Exit(code),
        step matches ClientStep::Exit(code) ==> client_next(step, e) == ClientStep::Exit(code),
        step matches ClientStep::Request(n) ==> e != ClientEvent::Replied(true) ==> client_next(
            step,
            e,
        ) == ClientStep::Pause(n),
        client_next(step, e) matches ClientStep::Pause(n) ==> step == ClientStep::Request(n),
        client_next(step, e) matches ClientStep::Request(n) ==> n != 1 ==> (
        step matches ClientStep::Pause(m) && n == m + 1),
        step matches ClientStep::Pause(n) ==> n < 3 ==> (client_next(
            step,
            e,
        ) matches ClientStep::Request(m) && m == n + 1),
        step matches ClientStep::Pause(n) ==> n >= 3 ==> client_next(step, e) == ClientStep::Exit(
            1,
        ),
{
}

/// A locked database is asked for three times before the client gives up, and
/// a confirmation of any of the requests ends it well.
pub proof fn three_requests_are_made(events: Seq<ClientEvent>)
    requires
        events.len() > 1,
        events[0] == ClientEvent::Appeared(true),
        events[1] != ClientEvent::Looked(LockState::Unlocked),
        forall|i: int| 1 < i < events.len() ==> #[trigger] events[i] != ClientEvent::Replied(true),
    ensures
        events.len() == 2 ==> client_after(events) == ClientStep::Request(1),
        events.len() == 3 ==> client_after(events) == ClientStep::Pause(1),
        events.len() == 4 ==> client_after(events) == ClientStep::Request(2),
        events.len() == 5 ==> client_after(events) == ClientStep::Pause(2),
        events.len() == 6 ==> client_after(events) == ClientStep::Request(3),
        events.len() == 7 ==> client_after(events) == ClientStep::Pause(3),
        events.len() > 7 ==> client_after(events) == ClientStep::Exit(1),
        client_after(events) is Request ==> {
            let confirmed = events.push(ClientEvent::Replied(true));
            &&& client_after(confirmed) is Dismiss
            &&& client_after(confirmed.push(ClientEvent::Over)) == ClientStep::Exit(0)
        },
    decreases events.len(),
{
    let before = events.drop_last();
    if events.len() == 2 {
        assert(before.drop_last() =~= Seq::empty());
        assert(client_after(before.drop_last()) == ClientStep::WaitForName);
        assert(before.last() == events[0]);
        assert(client_after(before) == ClientStep::Look);
    } else {
        assert forall|i: int| 1 < i < before.len() implies #[trigger] before[i]
            != ClientEvent::Replied(true) by {
            assert(before[i] == events[i]);
        }
        three_requests_are_made(before);
        assert(events[events.len() - 1] != ClientEvent::Replied(true));
    }
    if client_after(events) is Request {
        let confirmed = events.push(ClientEvent::Replied(true));
        assert(confirmed.drop_last() =~= events);
        assert(confirmed.push(ClientEvent::Over).drop_last() =~= confirmed);
    }
}

/// The compositor is asked twice at most, after two seconds and after five
/// more, for as long as it can be reached and has not closed the prompt.
pub proof fn the_prompt_is_asked_for_twice(asked: int, reply: Option<CloseReply>)
    requires
        asked >= 0,
    ensures
        dismiss_step(false, asked, reply) is GiveUp,
        dismiss_step(true, asked, reply) is Closed <==> (reply matches Some(CloseReply::Line(l))
            && l@.len() >= 2 && l@[0] == 'o' && l@[1] == 'k'),
        reply == Some(CloseReply::Unreachable) ==> dismiss_step(true, asked, reply) is GiveUp,
        reply != Some(CloseReply::Unreachable) && !(dismiss_step(true, asked, reply) is Closed)
            ==> {
            &&& asked == 0 ==> dismiss_step(true, asked, reply) == DismissStep::AskAfter(2)
            &&& asked == 1 ==> dismiss_step(true, asked, reply) == DismissStep::AskAfter(5)
            &&& asked >= 2 ==> dismiss_step(true, asked, reply) is GiveUp
        },
{
    reveal_strlit("ok");
    if let Some(CloseReply::Line(l)) = reply {
        if l@.len() >= 2 && l@[0] == 'o' && l@[1] == 'k' {
            assert(l@.subrange(0, 2) =~= "ok"@);
        }
        if "ok"@.is_prefix_of(l@) {
            assert(l@.subrange(0, 2)[0] == l@[0] && l@.subrange(0, 2)[1] == l@[1]);
        }
    }
}

} // verus!
