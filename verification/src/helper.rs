//! The fingerprint helper: what it reports on its output and what the greeter
//! makes of it.
use vstd::prelude::*;

use crate::text::{chars_of, join2, replaced, same, strip_prefix};

verus! {

/// The service of the fingerprint attempt. Its stack holds the fingerprint
/// module alone: with a password module behind it, every miss would count as
/// a wrong password.
pub const FPRINT_PAM_SERVICE: &'static str = "cce-display-manager-fprint";

/// The service of the password attempt.
pub const PASSWORD_PAM_SERVICE: &'static str = "cce-display-manager-password";

/// Starts a line that carries a message for the user.
pub const FPRINT_LINE_INFO: &'static str = "INFO|";

/// The line of a verified fingerprint.
pub const FPRINT_LINE_OK: &'static str = "OK";

/// Starts the line of a failed attempt.
pub const FPRINT_LINE_FAIL: &'static str = "FAIL|";

/// What an authentication attempt reports to the greeter, tagged with the
/// number of the attempt.
#[derive(Debug, Clone, PartialEq, Eq)]
pub enum AuthEvent {
    Success { request_id: u64, username: String },
    Failure { request_id: u64, err_msg: String },
    Info { request_id: u64, msg: String },
}

/// The view of an [`AuthEvent`].
#[verifier::ext_equal]
pub enum AuthEventView {
    Success { request_id: u64, username: Seq<char> },
    Failure { request_id: u64, err_msg: Seq<char> },
    Info { request_id: u64, msg: Seq<char> },
}

impl View for AuthEvent {
    type V = AuthEventView;

    open spec fn view(&self) -> AuthEventView {
        match *self {
            AuthEvent::Success { request_id, username } => AuthEventView::Success {
                request_id,
                username: username@,
            },
            AuthEvent::Failure { request_id, err_msg } => AuthEventView::Failure {
                request_id,
                err_msg: err_msg@,
            },
            AuthEvent::Info { request_id, msg } => AuthEventView::Info { request_id, msg: msg@ },
        }
    }
}

impl AuthEventView {
    /// The number of the attempt that the event belongs to.
    pub open spec fn request_id(self) -> u64 {
        match self {
            AuthEventView::Success { request_id, .. } => request_id,
            AuthEventView::Failure { request_id, .. } => request_id,
            AuthEventView::Info { request_id, .. } => request_id,
        }
    }

    /// Whether the event ends an attempt.
    pub open spec fn is_verdict(self) -> bool {
        !(self is Info)
    }
}

impl AuthEvent {
    /// The number of the attempt that the event belongs to.
    pub fn request_id(&self) -> (r: u64)
        ensures
            r == self@.request_id(),
    {
        match self {
            AuthEvent::Success { request_id, .. } => *request_id,
            AuthEvent::Failure { request_id, .. } => *request_id,
            AuthEvent::Info { request_id, .. } => *request_id,
        }
    }
}

/// What a password attempt reports, from the outcome of its checks: the name
/// of the failing code, where one failed.
pub fn password_attempt_event(request_id: u64, username: &str, outcome: Result<(), String>) -> (r:
    AuthEvent)
    ensures
        outcome is Ok ==> r@ == (AuthEventView::Success { request_id, username: username@ }),
        outcome matches Err(code) ==> r@ == (AuthEventView::Failure {
            request_id,
            err_msg: code@,
        }),
{
    match outcome {
        Ok(()) => AuthEvent::Success { request_id, username: username.to_owned() },
        Err(code) => AuthEvent::Failure { request_id, err_msg: code },
    }
}

// ---------------------------------------------------------------------------
// The helper's side
// ---------------------------------------------------------------------------

/// How a fingerprint attempt ended.
#[derive(Debug, Clone, PartialEq, Eq)]
pub enum Verdict {
    Verified,
    Refused(String),
    Panicked,
}

/// The line that reports a verdict.
pub open spec fn verdict_text(v: Verdict) -> Seq<char> {
    match v {
        Verdict::Verified => FPRINT_LINE_OK@,
        Verdict::Refused(code) => FPRINT_LINE_FAIL@ + code@,
        Verdict::Panicked => FPRINT_LINE_FAIL@ + "fingerprint worker panicked"@,
    }
}

/// The line that reports a verdict.
pub fn verdict_line(v: &Verdict) -> (r: String)
    ensures
        r@ == verdict_text(*v),
{
    match v {
        Verdict::Verified => FPRINT_LINE_OK.to_owned(),
        Verdict::Refused(code) => join2(FPRINT_LINE_FAIL, code.as_str()),
        Verdict::Panicked => join2(FPRINT_LINE_FAIL, "fingerprint worker panicked"),
    }
}

/// The exit status of a helper that ends with `v`: 0 for a verified
/// fingerprint, 1 for anything else.
pub fn verdict_exit_code(v: &Verdict) -> (r: i32)
    ensures
        r == (if *v is Verified {
            0i32
        } else {
            1i32
        }),
{
    match v {
        Verdict::Verified => 0,
        _ => 1,
    }
}

/// The line that carries a message: line breaks in it become spaces.
pub open spec fn info_text(msg: Seq<char>) -> Seq<char> {
    FPRINT_LINE_INFO@ + replaced(msg, '\n', ' ')
}

/// The line that carries a message for the user.
pub fn info_line(msg: &str) -> (r: String)
    ensures
        r@ == info_text(msg@),
{
    let cs = chars_of(msg);
    let mut s = FPRINT_LINE_INFO.to_owned();
    proof {
        reveal_strlit(" ");
        assert(" "@ =~= seq![' ']);
        assert(replaced(msg@, '\n', ' ').take(0) =~= Seq::<char>::empty());
        assert(s@ =~= FPRINT_LINE_INFO@ + replaced(msg@, '\n', ' ').take(0));
    }
    let mut i: usize = 0;
    while i < cs.len()
        invariant
            cs@ == msg@,
            i <= cs@.len(),
            " "@ == seq![' '],
            s@ == FPRINT_LINE_INFO@ + replaced(msg@, '\n', ' ').take(i as int),
        decreases cs.len() - i,
    {
        let ghost all = replaced(msg@, '\n', ' ');
        if cs[i] == '\n' {
            s.append(" ");
        } else {
            let one = msg.substring_char(i, i + 1);
            assert(one@ =~= seq![msg@[i as int]]);
            s.append(one);
        }
        proof {
            assert(all.take(i + 1) =~= all.take(i as int) + seq![all[i as int]]);
            assert(FPRINT_LINE_INFO@ + all.take(i as int) + seq![all[i as int]]
                =~= FPRINT_LINE_INFO@ + all.take(i + 1));
        }
        i = i + 1;
    }
    assert(replaced(msg@, '\n', ' ').take(cs@.len() as int) =~= replaced(msg@, '\n', ' '));
    s
}

// ---------------------------------------------------------------------------
// The greeter's side
// ---------------------------------------------------------------------------

/// What a line of the helper's output reports.
pub open spec fn helper_event(line: Seq<char>, request_id: u64, username: Seq<char>) -> Option<
    AuthEventView,
> {
    if FPRINT_LINE_INFO@.is_prefix_of(line) {
        Some(AuthEventView::Info { request_id, msg: line.skip(FPRINT_LINE_INFO@.len() as int) })
    } else if line == FPRINT_LINE_OK@ {
        Some(AuthEventView::Success { request_id, username })
    } else if FPRINT_LINE_FAIL@.is_prefix_of(line) {
        Some(
            AuthEventView::Failure {
                request_id,
                err_msg: line.skip(FPRINT_LINE_FAIL@.len() as int),
            },
        )
    } else {
        None
    }
}

/// What the end of the helper's output reports, where no verdict came.
pub open spec fn helper_gone(request_id: u64) -> AuthEventView {
    AuthEventView::Failure { request_id, err_msg: "Fingerprint helper exited"@ }
}

/// Reads the helper's output for one attempt.
pub struct HelperReader {
    pub request_id: u64,
    pub username: String,
    pub concluded: bool,
}

impl HelperReader {
    pub fn new(request_id: u64, username: &str) -> (r: Self)
        ensures
            r.request_id == request_id,
            r.username@ == username@,
            !r.concluded,
    {
        HelperReader { request_id, username: username.to_owned(), concluded: false }
    }

    /// Reads one line; lines of another shape report nothing.
    pub fn feed(&mut self, line: &str) -> (r: Option<AuthEvent>)
        ensures
            match r {
                Some(e) => helper_event(line@, old(self).request_id, old(self).username@) == Some(
                    e@,
                ),
                None => helper_event(line@, old(self).request_id, old(self).username@) is None,
            },
            final(self).request_id == old(self).request_id,
            final(self).username@ == old(self).username@,
            final(self).concluded == (old(self).concluded || (r matches Some(e)
                && e@.is_verdict())),
    {
        if let Some(msg) = strip_prefix(line, FPRINT_LINE_INFO) {
            Some(AuthEvent::Info { request_id: self.request_id, msg: msg.to_owned() })
        } else if same(line, FPRINT_LINE_OK) {
            self.concluded = true;
            Some(
                AuthEvent::Success { request_id: self.request_id, username: self.username.clone() },
            )
        } else if let Some(msg) = strip_prefix(line, FPRINT_LINE_FAIL) {
            self.concluded = true;
            Some(AuthEvent::Failure { request_id: self.request_id, err_msg: msg.to_owned() })
        } else {
            None
        }
    }

    /// The end of the output: without a verdict the attempt has failed.
    pub fn finish(&self) -> (r: Option<AuthEvent>)
        ensures
            match r {
                Some(e) => !self.concluded && e@ == helper_gone(self.request_id),
                None => self.concluded,
            },
    {
        if self.concluded {
            None
        } else {
            Some(
                AuthEvent::Failure {
                    request_id: self.request_id,
                    err_msg: "Fingerprint helper exited".to_owned(),
                },
            )
        }
    }
}

/// Everything that a helper reports: its lines in order, and its end.
pub open spec fn helper_run(lines: Seq<Seq<char>>, request_id: u64, username: Seq<char>) -> Seq<
    AuthEventView,
> {
    let events = helper_lines(lines, request_id, username);
    if has_verdict(events) {
        events
    } else {
        events.push(helper_gone(request_id))
    }
}

/// Whether some event tells how the attempt ended.
pub open spec fn has_verdict(events: Seq<AuthEventView>) -> bool {
    exists|i: int| 0 <= i < events.len() && (#[trigger] events[i]).is_verdict()
}

/// What the lines of a helper report.
pub open spec fn helper_lines(lines: Seq<Seq<char>>, request_id: u64, username: Seq<char>) -> Seq<
    AuthEventView,
>
    decreases lines.len(),
{
    if lines.len() == 0 {
        seq![]
    } else {
        let before = helper_lines(lines.drop_last(), request_id, username);
        match helper_event(lines.last(), request_id, username) {
            Some(e) => before.push(e),
            None => before,
        }
    }
}

/// A reader has concluded exactly where one of the lines that it read told how
/// the attempt ended: so it is at its start, and each line keeps it so.
pub proof fn a_reader_follows_its_lines(
    lines: Seq<Seq<char>>,
    line: Seq<char>,
    request_id: u64,
    username: Seq<char>,
)
    ensures
        !has_verdict(helper_lines(seq![], request_id, username)),
        has_verdict(helper_lines(lines.push(line), request_id, username)) == (has_verdict(
            helper_lines(lines, request_id, username),
        ) || (helper_event(line, request_id, username) matches Some(e) && e.is_verdict())),
{
    let before = helper_lines(lines, request_id, username);
    let after = helper_lines(lines.push(line), request_id, username);
    assert(lines.push(line).drop_last() =~= lines);
    if has_verdict(before) {
        let i = choose|i: int| 0 <= i < before.len() && (#[trigger] before[i]).is_verdict();
        assert(after[i].is_verdict());
    }
    if let Some(e) = helper_event(line, request_id, username) {
        assert(after.last() == after[before.len() as int]);
        if e.is_verdict() {
            assert(after[before.len() as int].is_verdict());
        }
    }
    if has_verdict(after) {
        let i = choose|i: int| 0 <= i < after.len() && (#[trigger] after[i]).is_verdict();
        if i < before.len() {
            assert(before[i].is_verdict());
        }
    }
}

/// Whatever a helper prints, the attempt gets a verdict, and every event
/// carries the number of its attempt.
pub proof fn every_helper_run_has_a_verdict(
    lines: Seq<Seq<char>>,
    request_id: u64,
    username: Seq<char>,
)
    ensures
        has_verdict(helper_run(lines, request_id, username)),
        forall|i: int|
            0 <= i < helper_run(lines, request_id, username).len() ==> (#[trigger] helper_run(
                lines,
                request_id,
                username,
            )[i]).request_id() == request_id,
{
    let events = helper_lines(lines, request_id, username);
    let all = helper_run(lines, request_id, username);
    lemma_helper_ids(lines, request_id, username);
    if !has_verdict(events) {
        assert(all[events.len() as int].is_verdict());
    }
}

proof fn lemma_helper_ids(lines: Seq<Seq<char>>, request_id: u64, username: Seq<char>)
    ensures
        forall|i: int|
            0 <= i < helper_lines(lines, request_id, username).len() ==> (#[trigger] helper_lines(
                lines,
                request_id,
                username,
            )[i]).request_id() == request_id,
    decreases lines.len(),
{
    if lines.len() > 0 {
        lemma_helper_ids(lines.drop_last(), request_id, username);
        let before = helper_lines(lines.drop_last(), request_id, username);
        let all = helper_lines(lines, request_id, username);
        assert forall|i: int| 0 <= i < all.len() implies (#[trigger] all[i]).request_id()
            == request_id by {
            if i < before.len() {
                assert(all[i] == before[i]);
            }
        }
    }
}

/// The line that reports a verdict is read as success for a recognised finger,
/// and as failure with the same code for a refusal.
pub proof fn verdicts_read_back(v: Verdict, request_id: u64, username: Seq<char>)
    ensures
        helper_event(verdict_text(v), request_id, username) == Some(
            match v {
                Verdict::Verified => AuthEventView::Success { request_id, username },
                Verdict::Refused(code) => AuthEventView::Failure { request_id, err_msg: code@ },
                Verdict::Panicked => AuthEventView::Failure {
                    request_id,
                    err_msg: "fingerprint worker panicked"@,
                },
            },
        ),
{
    reveal_strlit("OK");
    reveal_strlit("INFO|");
    reveal_strlit("FAIL|");
    let line = verdict_text(v);
    match v {
        Verdict::Verified => {
            assert(line.len() == 2);
        },
        Verdict::Refused(code) => {
            assert(line[0] == 'F');
            assert(FPRINT_LINE_INFO@[0] == 'I');
            assert(line.skip(5) =~= code@);
            assert(FPRINT_LINE_FAIL@.is_prefix_of(line));
        },
        Verdict::Panicked => {
            assert(line[0] == 'F');
            assert(FPRINT_LINE_INFO@[0] == 'I');
            assert(line.skip(5) =~= "fingerprint worker panicked"@);
            assert(FPRINT_LINE_FAIL@.is_prefix_of(line));
        },
    }
}

/// A message line is read as that message, on one line.
pub proof fn messages_read_back(msg: Seq<char>, request_id: u64, username: Seq<char>)
    ensures
        helper_event(info_text(msg), request_id, username) == Some(
            AuthEventView::Info { request_id, msg: replaced(msg, '\n', ' ') },
        ),
        !replaced(msg, '\n', ' ').contains('\n'),
{
    reveal_strlit("INFO|");
    let line = info_text(msg);
    let m = replaced(msg, '\n', ' ');
    assert(line.skip(5) =~= m);
    assert(FPRINT_LINE_INFO@.is_prefix_of(line));
    if m.contains('\n') {
        let k = choose|k: int| 0 <= k < m.len() && m[k] == '\n';
        assert(m[k] != '\n');
    }
}

// ---------------------------------------------------------------------------
// Texts for the user
// ---------------------------------------------------------------------------

/// What the user is told of a failed fingerprint attempt.
pub open spec fn failure_text(code: Seq<char>) -> Seq<char> {
    if code == "AUTHINFO_UNAVAIL"@ {
        "No fingerprint read (timed out or none enrolled)"@
    } else if code == "MAXTRIES"@ || code == "AUTH_ERR"@ {
        "Fingerprint not recognized"@
    } else if code == "SERVICE_ERR"@ || code == "SYSTEM_ERR"@ {
        "Fingerprint reader unavailable"@
    } else {
        "Fingerprint failed ("@ + code + ")"@
    }
}

/// Human text for the code that the helper reports.
pub fn fprint_failure_text(code: &str) -> (r: String)
    ensures
        r@ == failure_text(code@),
{
    if same(code, "AUTHINFO_UNAVAIL") {
        "No fingerprint read (timed out or none enrolled)".to_owned()
    } else if same(code, "MAXTRIES") || same(code, "AUTH_ERR") {
        "Fingerprint not recognized".to_owned()
    } else if same(code, "SERVICE_ERR") || same(code, "SYSTEM_ERR") {
        "Fingerprint reader unavailable".to_owned()
    } else {
        crate::text::join3("Fingerprint failed (", code, ")")
    }
}

// ---------------------------------------------------------------------------
// Laws
// ---------------------------------------------------------------------------

/// An event keeps the number that it was made with, and only a message leaves
/// the attempt open.
pub proof fn an_event_keeps_its_number(request_id: u64, text: Seq<char>)
    ensures
        (AuthEventView::Success { request_id, username: text }).request_id() == request_id,
        (AuthEventView::Failure { request_id, err_msg: text }).request_id() == request_id,
        (AuthEventView::Info { request_id, msg: text }).request_id() == request_id,
        (AuthEventView::Success { request_id, username: text }).is_verdict(),
        (AuthEventView::Failure { request_id, err_msg: text }).is_verdict(),
        !(AuthEventView::Info { request_id, msg: text }).is_verdict(),
{
}

/// A line reports success only where it is the one word for it, failure only
/// where it starts with the mark of a failure, and a message only with that of
/// a message; the rest of the line is the text. Any other line reports
/// nothing.
pub proof fn what_a_helper_line_reports(line: Seq<char>, request_id: u64, username: Seq<char>)
    ensures
        ({
            let e = helper_event(line, request_id, username);
            &&& e == Some(AuthEventView::Success { request_id, username }) <==> line == "OK"@
            &&& e matches Some(AuthEventView::Success { username: u, .. }) ==> u == username
            &&& e matches Some(AuthEventView::Failure { err_msg, .. }) ==> line == "FAIL|"@
                + err_msg
            &&& e matches Some(AuthEventView::Info { msg, .. }) ==> line == "INFO|"@ + msg
            &&& e is None <==> line != "OK"@ && !"FAIL|"@.is_prefix_of(line)
                && !"INFO|"@.is_prefix_of(line)
            &&& e matches Some(v) ==> v.request_id() == request_id
        }),
{
    reveal_strlit("OK");
    reveal_strlit("INFO|");
    reveal_strlit("FAIL|");
    assert("OK"@.len() == 2);
    assert("INFO|"@.len() == 5 && "FAIL|"@.len() == 5);
    if "INFO|"@.is_prefix_of(line) {
        assert(line =~= "INFO|"@ + line.skip(5));
    }
    if "FAIL|"@.is_prefix_of(line) {
        assert(line =~= "FAIL|"@ + line.skip(5));
    }
}

/// A verified finger is reported with one word, and anything else as a
/// failure.
pub proof fn what_a_verdict_says(v: Verdict)
    ensures
        verdict_text(v) == "OK"@ <==> v is Verified,
        v matches Verdict::Refused(code) ==> verdict_text(v) == "FAIL|"@ + code@,
        v is Panicked ==> verdict_text(v) == "FAIL|fingerprint worker panicked"@,
{
    reveal_strlit("OK");
    reveal_strlit("FAIL|");
    reveal_strlit("fingerprint worker panicked");
    reveal_strlit("FAIL|fingerprint worker panicked");
    assert("OK"@.len() == 2 && "FAIL|"@.len() == 5);
    assert("FAIL|"@ + "fingerprint worker panicked"@ =~= "FAIL|fingerprint worker panicked"@);
}

/// A message stays as it is but for its line breaks, which become spaces, one
/// for one.
pub proof fn a_message_stays_on_one_line(msg: Seq<char>)
    ensures
        ({
            let line = info_text(msg);
            &&& line.len() == msg.len() + 5
            &&& line.take(5) == "INFO|"@
            &&& forall|k: int|
                0 <= k < msg.len() ==> #[trigger] line[k + 5] == (if msg[k] == '\n' {
                    ' '
                } else {
                    msg[k]
                })
        }),
{
    reveal_strlit("INFO|");
    assert(info_text(msg).take(5) =~= "INFO|"@);
}

/// The reports of a helper are those of its lines, one after the other: of two
/// parts of its output, those of the first and then those of the second.
pub proof fn reports_follow_the_lines(
    a: Seq<Seq<char>>,
    b: Seq<Seq<char>>,
    request_id: u64,
    username: Seq<char>,
)
    ensures
        helper_lines(seq![], request_id, username).len() == 0,
        b.len() == 1 ==> helper_lines(b, request_id, username) == (match helper_event(
            b[0],
            request_id,
            username,
        ) {
            Some(e) => seq![e],
            None => seq![],
        }),
        helper_lines(a + b, request_id, username) == helper_lines(a, request_id, username)
            + helper_lines(b, request_id, username),
    decreases b.len(),
{
    let fa = helper_lines(a, request_id, username);
    let fb = helper_lines(b, request_id, username);
    if b.len() == 0 {
        assert(a + b =~= a);
        assert(fa + fb =~= fa);
    } else {
        let t = b.drop_last();
        reports_follow_the_lines(a, t, request_id, username);
        assert((a + b).drop_last() =~= a + t);
        assert((a + b).last() == b.last());
        assert(helper_lines(a + b, request_id, username) =~= fa + fb);
        if b.len() == 1 {
            assert(t =~= seq![]);
            assert(helper_lines(t, request_id, username) =~= seq![]);
        }
    }
}

/// A helper that ends without a verdict has failed, and one with a verdict
/// reports no other.
pub proof fn the_end_of_a_helper(lines: Seq<Seq<char>>, request_id: u64, username: Seq<char>)
    ensures
        ({
            let said = helper_lines(lines, request_id, username);
            let all = helper_run(lines, request_id, username);
            let ended = exists|i: int| 0 <= i < said.len() && !((#[trigger] said[i]) is Info);
            &&& ended ==> all == said
            &&& !ended ==> all == said.push(
                AuthEventView::Failure { request_id, err_msg: "Fingerprint helper exited"@ },
            )
        }),
{
    let said = helper_lines(lines, request_id, username);
    if exists|i: int| 0 <= i < said.len() && !((#[trigger] said[i]) is Info) {
        let i = choose|i: int| 0 <= i < said.len() && !((#[trigger] said[i]) is Info);
        assert(said[i].is_verdict());
    }
    if has_verdict(said) {
        let i = choose|i: int| 0 <= i < said.len() && (#[trigger] said[i]).is_verdict();
        assert(!(said[i] is Info));
    }
}

/// The user is told what five codes mean, and of any other code the code
/// itself.
pub proof fn what_a_failure_means(code: Seq<char>)
    ensures
        code == "AUTHINFO_UNAVAIL"@ ==> failure_text(code)
            == "No fingerprint read (timed out or none enrolled)"@,
        code == "MAXTRIES"@ || code == "AUTH_ERR"@ ==> failure_text(code)
            == "Fingerprint not recognized"@,
        code == "SERVICE_ERR"@ || code == "SYSTEM_ERR"@ ==> failure_text(code)
            == "Fingerprint reader unavailable"@,
        code != "AUTHINFO_UNAVAIL"@ && code != "MAXTRIES"@ && code != "AUTH_ERR"@ && code
            != "SERVICE_ERR"@ && code != "SYSTEM_ERR"@ ==> failure_text(code)
            == "Fingerprint failed ("@ + code + ")"@,
{
    reveal_strlit("AUTHINFO_UNAVAIL");
    reveal_strlit("MAXTRIES");
    reveal_strlit("AUTH_ERR");
    reveal_strlit("SERVICE_ERR");
    reveal_strlit("SYSTEM_ERR");
    assert("AUTHINFO_UNAVAIL"@[0] == 'A' && "MAXTRIES"@[0] == 'M' && "AUTH_ERR"@[4] == '_');
    assert("SERVICE_ERR"@[0] == 'S' && "SYSTEM_ERR"@[0] == 'S' && "AUTH_ERR"@[0] == 'A');
    assert("AUTHINFO_UNAVAIL"@[4] == 'I');
    assert("SERVICE_ERR"@.len() == 11 && "SYSTEM_ERR"@.len() == 10);
}

} // verus!
