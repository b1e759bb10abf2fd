//! Talking to PAM: its questions, the order of the calls, and the environment
//! that it hands out.
use vstd::prelude::*;

use crate::invocation::pairs_view;
use crate::split::{fields, splitn};
use crate::text::{chars_of, same, texts};

verus! {

// ---------------------------------------------------------------------------
// Conversation
// ---------------------------------------------------------------------------

/// The kind of a message.
#[derive(Debug, Clone, Copy, PartialEq, Eq, Structural)]
pub enum PromptStyle {
    EchoOn,
    EchoOff,
    ErrorMsg,
    TextInfo,
    Other,
}

/// The reply to a message.
#[derive(Debug, Clone, PartialEq, Eq)]
pub enum PromptReply {
    /// Answer with this text.
    Answer(String),
    /// Answer nothing, and pass the message on to the user.
    Show(String),
    /// Answer nothing.
    Silence,
}

/// A text as a C string holds it: one with a NUL inside becomes empty.
pub open spec fn c_text(s: Seq<char>) -> Seq<char> {
    if s.contains('\0') {
        seq![]
    } else {
        s
    }
}

/// A text as a C string holds it. An empty answer fails the authentication;
/// a text cut at the NUL could pass it.
pub fn c_string_text(s: &str) -> (r: String)
    ensures
        r@ == c_text(s@),
{
    let cs = chars_of(s);
    let mut i: usize = 0;
    while i < cs.len()
        invariant
            cs@ == s@,
            i <= cs@.len(),
            forall|k: int| 0 <= k < i ==> cs@[k] != '\0',
        decreases cs.len() - i,
    {
        if cs[i] == '\0' {
            assert(s@.contains(s@[i as int]));
            return String::new();
        }
        i = i + 1;
    }
    s.to_owned()
}

/// Answers one message: the username where input is shown, the password where
/// it is hidden; notices go to the user.
pub fn conversation_reply(
    style: PromptStyle,
    msg: Option<&str>,
    username: &str,
    password: &str,
) -> (r: PromptReply)
    ensures
        match style {
            PromptStyle::EchoOn => r matches PromptReply::Answer(a) && a@ == c_text(username@),
            PromptStyle::EchoOff => r matches PromptReply::Answer(a) && a@ == c_text(password@),
            PromptStyle::ErrorMsg | PromptStyle::TextInfo => match msg {
                Some(m) => r matches PromptReply::Show(t) && t@ == m@,
                None => r is Silence,
            },
            PromptStyle::Other => r is Silence,
        },
{
    match style {
        PromptStyle::EchoOn => PromptReply::Answer(c_string_text(username)),
        PromptStyle::EchoOff => PromptReply::Answer(c_string_text(password)),
        PromptStyle::ErrorMsg | PromptStyle::TextInfo => match msg {
            Some(m) => PromptReply::Show(m.to_owned()),
            None => PromptReply::Silence,
        },
        PromptStyle::Other => PromptReply::Silence,
    }
}

// ---------------------------------------------------------------------------
// Calls
// ---------------------------------------------------------------------------

/// A call into PAM on an open handle.
#[derive(Debug, Clone, Copy, PartialEq, Eq, Structural)]
pub enum PamCall {
    Authenticate,
    AcctMgmt,
    EstablishCred,
    OpenSession,
    ReinitializeCred,
    CloseSession,
    DeleteCred,
    End,
}

/// The calls that check a user: the credentials, then the account.
pub open spec fn check_calls() -> Seq<PamCall> {
    seq![PamCall::Authenticate, PamCall::AcctMgmt]
}

/// The calls that open a session: credentials are set before and after it.
pub open spec fn open_calls() -> Seq<PamCall> {
    seq![PamCall::EstablishCred, PamCall::OpenSession, PamCall::ReinitializeCred]
}

/// The calls of a trial of a service: a check, and a session that is opened.
pub open spec fn trial_calls() -> Seq<PamCall> {
    seq![
        PamCall::Authenticate,
        PamCall::AcctMgmt,
        PamCall::EstablishCred,
        PamCall::OpenSession,
    ]
}

/// The service that is tried.
pub const TRIAL_PAM_SERVICE: &'static str = "cce-display-manager";

/// The calls that end a handle: an open session is closed first.
pub open spec fn close_calls(session_open: bool) -> Seq<PamCall> {
    if session_open {
        seq![PamCall::CloseSession, PamCall::DeleteCred, PamCall::End]
    } else {
        seq![PamCall::DeleteCred, PamCall::End]
    }
}

/// How a run of calls goes on.
#[derive(Debug, Clone, Copy, PartialEq, Eq, Structural)]
pub enum PamNext {
    /// Make this call.
    Call(PamCall),
    /// Every call succeeded.
    Done,
    /// The last call failed: the run ends with its code.
    Failed(i32),
}

/// What follows when `codes` are the codes of the calls made so far: the next
/// call while each of them is 0, the end at the first other one.
pub open spec fn run_next(calls: Seq<PamCall>, codes: Seq<i32>) -> PamNext
    decreases codes.len(),
{
    if codes.len() == 0 {
        if calls.len() == 0 {
            PamNext::Done
        } else {
            PamNext::Call(calls[0])
        }
    } else if codes[0] != 0 {
        PamNext::Failed(codes[0])
    } else if calls.len() == 0 {
        PamNext::Done
    } else {
        run_next(calls.skip(1), codes.skip(1))
    }
}

/// A run of calls, each of which has to succeed before the next is made.
pub struct PamRun {
    pub calls: Vec<PamCall>,
    pub made: usize,
}

impl PamRun {
    pub open spec fn wf(self) -> bool {
        self.made <= self.calls@.len()
    }

    /// The check of a user.
    pub fn check() -> (r: Self)
        ensures
            r.wf(),
            r.calls@ == check_calls(),
            r.made == 0,
    {
        let r = PamRun { calls: vec![PamCall::Authenticate, PamCall::AcctMgmt], made: 0 };
        assert(r.calls@ =~= check_calls());
        r
    }

    /// The opening of a session.
    pub fn open() -> (r: Self)
        ensures
            r.wf(),
            r.calls@ == open_calls(),
            r.made == 0,
    {
        let r = PamRun {
            calls: vec![PamCall::EstablishCred, PamCall::OpenSession, PamCall::ReinitializeCred],
            made: 0,
        };
        assert(r.calls@ =~= open_calls());
        r
    }

    /// The trial of a service.
    pub fn trial() -> (r: Self)
        ensures
            r.wf(),
            r.calls@ == trial_calls(),
            r.made == 0,
    {
        let r = PamRun {
            calls: vec![
                PamCall::Authenticate,
                PamCall::AcctMgmt,
                PamCall::EstablishCred,
                PamCall::OpenSession,
            ],
            made: 0,
        };
        assert(r.calls@ =~= trial_calls());
        r
    }

    /// The first call of the run.
    pub fn first(&self) -> (r: PamNext)
        requires
            self.wf(),
            self.made == 0,
        ensures
            r == run_next(self.calls@, seq![]),
    {
        if self.calls.len() == 0 {
            PamNext::Done
        } else {
            PamNext::Call(self.calls[0])
        }
    }

    /// The call that is under way returned `code`.
    pub fn returned(&mut self, code: i32) -> (r: PamNext)
        requires
            old(self).wf(),
            old(self).made < old(self).calls@.len(),
        ensures
            final(self).wf(),
            final(self).calls == old(self).calls,
            code != 0 ==> r == PamNext::Failed(code) && final(self).made == old(self).made,
            code == 0 ==> final(self).made == old(self).made + 1 && r == (if final(self).made
                < final(self).calls@.len() {
                PamNext::Call(final(self).calls@[final(self).made as int])
            } else {
                PamNext::Done
            }),
            r == run_next(
                old(self).calls@,
                Seq::new(old(self).made as nat, |i: int| 0i32).push(code),
            ),
    {
        proof {
            lemma_run(self.calls@, self.made as nat, code);
        }
        if code != 0 {
            return PamNext::Failed(code);
        }
        let total: usize = self.calls.len();
        self.made = self.made + 1;
        if self.made < total {
            PamNext::Call(self.calls[self.made])
        } else {
            PamNext::Done
        }
    }
}

proof fn lemma_run(calls: Seq<PamCall>, made: nat, code: i32)
    requires
        made < calls.len(),
    ensures
        run_next(calls, Seq::new(made, |i: int| 0i32).push(code)) == (if code != 0 {
            PamNext::Failed(code)
        } else if made + 1 < calls.len() {
            PamNext::Call(calls[made as int + 1])
        } else {
            PamNext::Done
        }),
    decreases made,
{
    let codes = Seq::new(made, |i: int| 0i32).push(code);
    let rest_calls = calls.skip(1);
    if made == 0 {
        let none = Seq::<i32>::empty();
        assert(codes[0] == code);
        assert(codes.skip(1) =~= none);
        assert(run_next(rest_calls, none) == (if rest_calls.len() == 0 {
            PamNext::Done
        } else {
            PamNext::Call(rest_calls[0])
        }));
    } else {
        let rest = Seq::new((made - 1) as nat, |i: int| 0i32).push(code);
        assert(codes[0] == 0);
        assert(codes.skip(1) =~= rest);
        assert(run_next(calls, codes) == run_next(rest_calls, rest));
        lemma_run(rest_calls, (made - 1) as nat, code);
    }
}

/// A call, as the report of a trial names it.
pub fn call_label(call: PamCall) -> (r: &'static str)
    ensures
        r@ == (match call {
            PamCall::Authenticate => "pam_authenticate"@,
            PamCall::AcctMgmt => "pam_acct_mgmt"@,
            PamCall::EstablishCred => "pam_setcred (establish)"@,
            PamCall::OpenSession => "pam_open_session"@,
            PamCall::ReinitializeCred => "pam_setcred (reinitialize)"@,
            PamCall::CloseSession => "pam_close_session"@,
            PamCall::DeleteCred => "pam_setcred (delete)"@,
            PamCall::End => "pam_end"@,
        }),
{
    match call {
        PamCall::Authenticate => "pam_authenticate",
        PamCall::AcctMgmt => "pam_acct_mgmt",
        PamCall::EstablishCred => "pam_setcred (establish)",
        PamCall::OpenSession => "pam_open_session",
        PamCall::ReinitializeCred => "pam_setcred (reinitialize)",
        PamCall::CloseSession => "pam_close_session",
        PamCall::DeleteCred => "pam_setcred (delete)",
        PamCall::End => "pam_end",
    }
}

/// The calls that end a handle, in order; their codes do not matter.
pub fn end_calls(session_open: bool) -> (r: Vec<PamCall>)
    ensures
        r@ == close_calls(session_open),
{
    let r = if session_open {
        vec![PamCall::CloseSession, PamCall::DeleteCred, PamCall::End]
    } else {
        vec![PamCall::DeleteCred, PamCall::End]
    };
    assert(r@ =~= close_calls(session_open));
    r
}

/// A user is accepted only where both checks succeeded, and a session counts
/// as open only where all three calls succeeded: a run is done exactly when as
/// many calls as it has returned 0.
pub proof fn a_run_is_done_when_all_succeed(calls: Seq<PamCall>, codes: Seq<i32>)
    requires
        codes.len() <= calls.len(),
    ensures
        run_next(calls, codes) == PamNext::Done <==> codes.len() == calls.len() && forall|i: int|
            0 <= i < codes.len() ==> #[trigger] codes[i] == 0,
    decreases codes.len(),
{
    if codes.len() > 0 && codes[0] == 0 {
        let t = codes.skip(1);
        a_run_is_done_when_all_succeed(calls.skip(1), t);
        if forall|i: int| 0 <= i < t.len() ==> #[trigger] t[i] == 0 {
            assert forall|i: int| 0 <= i < codes.len() implies #[trigger] codes[i] == 0 by {
                if i > 0 {
                    assert(t[i - 1] == 0);
                }
            }
        } else {
            let j = choose|j: int| 0 <= j < t.len() && #[trigger] t[j] != 0;
            assert(codes[j + 1] != 0);
        }
    }
}

// ---------------------------------------------------------------------------
// Environment
// ---------------------------------------------------------------------------

/// The variables of an environment list: what is before and after the first
/// `=` of each entry; entries without one are left out.
pub open spec fn env_pairs(entries: Seq<Seq<char>>) -> Seq<(Seq<char>, Seq<char>)>
    decreases entries.len(),
{
    if entries.len() == 0 {
        seq![]
    } else {
        let before = env_pairs(entries.drop_last());
        let f = fields(entries.last(), 2, '=');
        if f.len() == 2 {
            before.push((f[0], f[1]))
        } else {
            before
        }
    }
}

/// The variables of an environment list.
pub fn get_env(entries: &Vec<String>) -> (r: Vec<(String, String)>)
    ensures
        pairs_view(r@) == env_pairs(texts(entries@)),
{
    let ghost all = texts(entries@);
    let mut out: Vec<(String, String)> = Vec::new();
    let mut i: usize = 0;
    assert(all.take(0) =~= Seq::<Seq<char>>::empty());
    assert(pairs_view(out@) =~= env_pairs(all.take(0)));
    while i < entries.len()
        invariant
            all == texts(entries@),
            i <= entries@.len(),
            pairs_view(out@) == env_pairs(all.take(i as int)),
        decreases entries.len() - i,
    {
        let ghost before = out@;
        let f = splitn(entries[i].as_str(), 2, '=');
        proof {
            assert(all.take(i + 1).drop_last() =~= all.take(i as int));
            assert(all.take(i + 1).last() == entries@[i as int]@);
            assert(texts(f@).len() == f@.len());
        }
        if f.len() == 2 {
            out.push((f[0].clone(), f[1].clone()));
            assert(pairs_view(out@) =~= pairs_view(before).push((texts(f@)[0], texts(f@)[1])));
        }
        i = i + 1;
    }
    assert(all.take(all.len() as int) =~= all);
    out
}

/// The value of the first variable called `name`, if any.
pub open spec fn first_value(env: Seq<(Seq<char>, Seq<char>)>, name: Seq<char>) -> Option<Seq<char>>
    decreases env.len(),
{
    if env.len() == 0 {
        None
    } else if env[0].0 == name {
        Some(env[0].1)
    } else {
        first_value(env.skip(1), name)
    }
}

/// The value of the first variable called `name`, if any.
pub fn find_env(env: &Vec<(String, String)>, name: &str) -> (r: Option<String>)
    ensures
        match r {
            Some(v) => first_value(pairs_view(env@), name@) == Some(v@),
            None => first_value(pairs_view(env@), name@) is None,
        },
{
    let ghost all = pairs_view(env@);
    let mut i: usize = 0;
    assert(all.skip(0) =~= all);
    while i < env.len()
        invariant
            all == pairs_view(env@),
            i <= env@.len(),
            first_value(all, name@) == first_value(all.skip(i as int), name@),
        decreases env.len() - i,
    {
        assert(all.skip(i as int)[0] == all[i as int]);
        if same(env[i].0.as_str(), name) {
            return Some(env[i].1.clone());
        }
        assert(all.skip(i as int).skip(1) =~= all.skip(i + 1));
        i = i + 1;
    }
    None
}

// ---------------------------------------------------------------------------
// Laws
// ---------------------------------------------------------------------------

/// A text without a NUL is handed over as it is; one with a NUL is not handed
/// over at all, nor any part of it.
pub proof fn a_text_with_a_nul_is_withheld(s: Seq<char>)
    ensures
        (forall|k: int| 0 <= k < s.len() ==> #[trigger] s[k] != '\0') ==> c_text(s) == s,
        (exists|k: int| 0 <= k < s.len() && #[trigger] s[k] == '\0') ==> c_text(s).len() == 0,
        !c_text(s).contains('\0'),
{
    if s.contains('\0') {
        let k = choose|k: int| 0 <= k < s.len() && s[k] == '\0';
        assert(s[k] == '\0');
    }
}

/// The order of the calls. A user's credentials are checked before the
/// account; a session is opened between establishing credentials and renewing
/// them; a trial checks and opens; and a session is closed before its
/// credentials are deleted and the handle ends.
pub proof fn the_order_of_the_calls()
    ensures
        check_calls() == seq![PamCall::Authenticate, PamCall::AcctMgmt],
        open_calls().len() == 3,
        open_calls()[0] == PamCall::EstablishCred,
        open_calls()[1] == PamCall::OpenSession,
        open_calls()[2] == PamCall::ReinitializeCred,
        trial_calls() == check_calls() + open_calls().take(2),
        close_calls(true) == seq![PamCall::CloseSession] + close_calls(false),
        close_calls(false) == seq![PamCall::DeleteCred, PamCall::End],
{
    assert(trial_calls() =~= check_calls() + open_calls().take(2));
    assert(close_calls(true) =~= seq![PamCall::CloseSession] + close_calls(false));
}

/// A run makes its calls in order, each only after all before it returned 0,
/// and ends with the code of the first that did not.
pub proof fn a_run_stops_at_the_first_failure(calls: Seq<PamCall>, codes: Seq<i32>)
    requires
        codes.len() <= calls.len(),
    ensures
        (forall|i: int| 0 <= i < codes.len() ==> #[trigger] codes[i] == 0) && codes.len()
            < calls.len() ==> run_next(calls, codes) == PamNext::Call(calls[codes.len() as int]),
        forall|i: int|
            0 <= i < codes.len() && #[trigger] codes[i] != 0 && (forall|k: int|
                0 <= k < i ==> #[trigger] codes[k] == 0) ==> run_next(calls, codes)
                == PamNext::Failed(codes[i]),
    decreases codes.len(),
{
    if codes.len() > 0 {
        let t = codes.skip(1);
        a_run_stops_at_the_first_failure(calls.skip(1), t);
        if codes[0] == 0 {
            if forall|i: int| 0 <= i < codes.len() ==> #[trigger] codes[i] == 0 {
                assert forall|i: int| 0 <= i < t.len() implies #[trigger] t[i] == 0 by {
                    assert(t[i] == codes[i + 1]);
                }
            }
            assert forall|i: int|
                0 <= i < codes.len() && #[trigger] codes[i] != 0 && (forall|k: int|
                    0 <= k < i ==> #[trigger] codes[k] == 0) implies run_next(calls, codes)
                == PamNext::Failed(codes[i]) by {
                assert(t[i - 1] == codes[i]);
                assert forall|k: int| 0 <= k < i - 1 implies #[trigger] t[k] == 0 by {
                    assert(t[k] == codes[k + 1]);
                }
            }
        }
    }
}

/// The variables of two lists are those of the first and then those of the
/// second; an entry gives one exactly where it has a `=`, with the name before
/// the first one and the value after it.
pub proof fn an_entry_is_a_variable(
    a: Seq<Seq<char>>,
    b: Seq<Seq<char>>,
    name: Seq<char>,
    value: Seq<char>,
)
    requires
        !name.contains('='),
    ensures
        env_pairs(seq![]).len() == 0,
        env_pairs(a + b) == env_pairs(a) + env_pairs(b),
        env_pairs(seq![name + seq!['='] + value]) == seq![(name, value)],
        env_pairs(seq![name]).len() == 0,
    decreases b.len(),
{
    if b.len() == 0 {
        assert(a + b =~= a);
        assert(env_pairs(a) + env_pairs(b) =~= env_pairs(a));
    } else {
        let t = b.drop_last();
        an_entry_is_a_variable(a, t, name, value);
        assert((a + b).drop_last() =~= a + t);
        assert((a + b).last() == b.last());
        assert(env_pairs(a + b) =~= env_pairs(a) + env_pairs(b));
    }
    let entry = name + seq!['='] + value;
    let one = seq![entry];
    assert(one.drop_last() =~= seq![]);
    assert(env_pairs(one.drop_last()) =~= seq![]);
    crate::split::lemma_fields_cons(name, value, 2, '=');
    crate::split::a_field_alone(value, 1, '=');
    assert(fields(entry, 2, '=') =~= seq![name, value]);
    assert(env_pairs(one) =~= seq![(name, value)]);
    let none = seq![name];
    assert(none.drop_last() =~= seq![]);
    crate::split::a_field_alone(name, 2, '=');
    assert(env_pairs(none) =~= seq![]);
}

/// The value that is found is that of the first variable with the name; there
/// is none exactly where no variable has it.
pub proof fn the_first_variable_counts(env: Seq<(Seq<char>, Seq<char>)>, name: Seq<char>)
    ensures
        first_value(env, name) is None <==> forall|k: int|
            0 <= k < env.len() ==> (#[trigger] env[k]).0 != name,
        forall|i: int|
            0 <= i < env.len() && (#[trigger] env[i]).0 == name && (forall|k: int|
                0 <= k < i ==> (#[trigger] env[k]).0 != name) ==> first_value(env, name) == Some(
                env[i].1,
            ),
    decreases env.len(),
{
    if env.len() > 0 && env[0].0 != name {
        let t = env.skip(1);
        the_first_variable_counts(t, name);
        assert forall|k: int| 0 < k < env.len() implies #[trigger] env[k] == t[k - 1] by {}
        if first_value(env, name) is None {
            assert forall|k: int| 0 <= k < env.len() implies (#[trigger] env[k]).0 != name by {
                if k > 0 {
                    assert(t[k - 1].0 != name);
                }
            }
        }
        if forall|k: int| 0 <= k < env.len() ==> (#[trigger] env[k]).0 != name {
            assert forall|k: int| 0 <= k < t.len() implies (#[trigger] t[k]).0 != name by {
                assert(t[k] == env[k + 1]);
            }
        }
        assert forall|i: int|
            0 <= i < env.len() && (#[trigger] env[i]).0 == name && (forall|k: int|
                0 <= k < i ==> (#[trigger] env[k]).0 != name) implies first_value(env, name)
            == Some(env[i].1) by {
            assert(t[i - 1] == env[i]);
            assert forall|k: int| 0 <= k < i - 1 implies (#[trigger] t[k]).0 != name by {
                assert(t[k] == env[k + 1]);
            }
        }
    }
}

} // verus!
