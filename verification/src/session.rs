//! The sessions that a user can start, and the list of them on the greeter.
use vstd::prelude::*;

use crate::path::{extension_is, has_extension, DirFile};
use crate::split::{is_word, lines, lines_of, split_whitespace, words, words_are_words};
use crate::text::{chars_of, join2, same, strip_prefix, texts, trim, trimmed};

verus! {

/// Where the desktop files of the Wayland sessions are.
pub const WAYLAND_SESSIONS_DIR: &'static str = "/usr/share/wayland-sessions";

/// Where the desktop files of the X11 sessions are.
pub const X11_SESSIONS_DIR: &'static str = "/usr/share/xsessions";

/// A session: what the list shows, the command that starts it, and whether it
/// runs on Wayland or on X11.
#[derive(Debug, Clone, PartialEq, Eq)]
pub struct Session {
    pub name: String,
    pub command: String,
    pub is_wayland: bool,
}

/// The view of a [`Session`].
#[verifier::ext_equal]
pub struct SessionView {
    pub name: Seq<char>,
    pub command: Seq<char>,
    pub is_wayland: bool,
}

impl View for Session {
    type V = SessionView;

    open spec fn view(&self) -> SessionView {
        SessionView { name: self.name@, command: self.command@, is_wayland: self.is_wayland }
    }
}

/// The views of a sequence of sessions.
pub open spec fn sessions_view(v: Seq<Session>) -> Seq<SessionView> {
    Seq::new(v.len(), |i: int| v[i]@)
}

// ---------------------------------------------------------------------------
// Desktop files
// ---------------------------------------------------------------------------

/// What the last line that starts with `key`, once trimmed, holds after it.
pub open spec fn last_value(ls: Seq<Seq<char>>, key: Seq<char>) -> Option<Seq<char>>
    decreases ls.len(),
{
    if ls.len() == 0 {
        None
    } else {
        let l = trimmed(ls.last());
        if key.is_prefix_of(l) {
            Some(l.skip(key.len() as int))
        } else {
            last_value(ls.drop_last(), key)
        }
    }
}

/// The session that a desktop file describes, where it has a name and a
/// command.
pub open spec fn desktop_session(content: Seq<char>, is_wayland: bool) -> Option<SessionView> {
    match (last_value(lines_of(content), "Name="@), last_value(lines_of(content), "Exec="@)) {
        (Some(name), Some(exec)) => Some(SessionView { name, command: exec, is_wayland }),
        _ => None,
    }
}

/// A desktop file without a name or without a command.
#[derive(Debug, Clone, Copy, PartialEq, Eq, Structural)]
pub struct InvalidDesktopFile;

proof fn lemma_keys_differ(l: Seq<char>)
    ensures
        !("Name="@.is_prefix_of(l) && "Exec="@.is_prefix_of(l)),
{
    reveal_strlit("Name=");
    reveal_strlit("Exec=");
    if "Name="@.is_prefix_of(l) && "Exec="@.is_prefix_of(l) {
        assert("Name="@[0] == l[0]);
        assert("Exec="@[0] == l[0]);
    }
}

/// Reads a desktop file's text.
pub fn parse_desktop_file(content: &str, is_wayland: bool) -> (r: Result<
    Session,
    InvalidDesktopFile,
>)
    ensures
        match r {
            Ok(s) => desktop_session(content@, is_wayland) == Some(s@),
            Err(_) => desktop_session(content@, is_wayland) is None,
        },
{
    let ls = lines(content);
    let mut name: Option<String> = None;
    let mut exec: Option<String> = None;
    let mut i: usize = 0;
    let ghost all = lines_of(content@);
    assert(all.take(0) =~= Seq::<Seq<char>>::empty());
    while i < ls.len()
        invariant
            all == texts(ls@),
            all == lines_of(content@),
            i <= ls@.len(),
            match name {
                Some(n) => last_value(all.take(i as int), "Name="@) == Some(n@),
                None => last_value(all.take(i as int), "Name="@) is None,
            },
            match exec {
                Some(e) => last_value(all.take(i as int), "Exec="@) == Some(e@),
                None => last_value(all.take(i as int), "Exec="@) is None,
            },
        decreases ls.len() - i,
    {
        let line = trim(ls[i].as_str());
        proof {
            assert(all.take(i + 1).drop_last() =~= all.take(i as int));
            assert(all.take(i + 1).last() == ls@[i as int]@);
            lemma_keys_differ(line@);
        }
        if let Some(v) = strip_prefix(line, "Name=") {
            name = Some(v.to_owned());
        } else if let Some(v) = strip_prefix(line, "Exec=") {
            exec = Some(v.to_owned());
        }
        i = i + 1;
    }
    assert(all.take(all.len() as int) =~= all);
    match (name, exec) {
        (Some(n), Some(e)) => Ok(Session { name: n, command: e, is_wayland }),
        _ => Err(InvalidDesktopFile),
    }
}

/// The session that a directory entry describes, if any.
pub open spec fn entry_session(f: DirFile, is_wayland: bool) -> Option<SessionView> {
    match f.content {
        Some(c) => if extension_is(f.name@, "desktop"@) {
            desktop_session(c@, is_wayland)
        } else {
            None
        },
        None => None,
    }
}

/// The sessions of a directory, in the order of its entries.
pub open spec fn dir_sessions(files: Seq<DirFile>, is_wayland: bool) -> Seq<SessionView>
    decreases files.len(),
{
    if files.len() == 0 {
        seq![]
    } else {
        let before = dir_sessions(files.drop_last(), is_wayland);
        match entry_session(files.last(), is_wayland) {
            Some(s) => before.push(s),
            None => before,
        }
    }
}

/// The built-in session: a console login.
pub open spec fn bash_shell() -> SessionView {
    SessionView { name: "Bash Shell"@, command: "bash"@, is_wayland: true }
}

fn add_dir_sessions(out: &mut Vec<Session>, files: &Vec<DirFile>, is_wayland: bool)
    ensures
        sessions_view(final(out)@) == sessions_view(old(out)@) + dir_sessions(files@, is_wayland),
{
    let mut i: usize = 0;
    let ghost start = sessions_view(out@);
    assert(files@.take(0) =~= Seq::<DirFile>::empty());
    assert(start + dir_sessions(files@.take(0), is_wayland) =~= start);
    while i < files.len()
        invariant
            i <= files@.len(),
            sessions_view(out@) == start + dir_sessions(files@.take(i as int), is_wayland),
        decreases files.len() - i,
    {
        let ghost before = dir_sessions(files@.take(i as int), is_wayland);
        let ghost shown = out@;
        proof {
            assert(files@.take(i + 1).drop_last() =~= files@.take(i as int));
            assert(files@.take(i + 1).last() == files@[i as int]);
        }
        if has_extension(files[i].name.as_str(), "desktop") {
            if let Some(content) = &files[i].content {
                if let Ok(s) = parse_desktop_file(content.as_str(), is_wayland) {
                    let ghost v = s@;
                    out.push(s);
                    assert(sessions_view(out@) =~= sessions_view(shown).push(v));
                    assert((start + before).push(v) =~= start + before.push(v));
                }
            }
        }
        i = i + 1;
    }
    assert(files@.take(files@.len() as int) =~= files@);
}

/// The sessions of the machine: those of the Wayland directory, those of the
/// X11 directory, and the built-in shell.
pub fn discover_sessions(wayland: &Vec<DirFile>, x11: &Vec<DirFile>) -> (r: Vec<Session>)
    ensures
        sessions_view(r@) == dir_sessions(wayland@, true) + dir_sessions(x11@, false)
            + seq![bash_shell()],
        r@.len() > 0,
{
    let mut out: Vec<Session> = Vec::new();
    add_dir_sessions(&mut out, wayland, true);
    add_dir_sessions(&mut out, x11, false);
    let ghost before = out@;
    assert(sessions_view(before) =~= dir_sessions(wayland@, true) + dir_sessions(x11@, false));
    out.push(
        Session { name: "Bash Shell".to_owned(), command: "bash".to_owned(), is_wayland: true },
    );
    assert(sessions_view(out@) =~= sessions_view(before) + seq![bash_shell()]);
    out
}

// ---------------------------------------------------------------------------
// Commands
// ---------------------------------------------------------------------------

/// Whether a word of a command is a desktop entry field code.
pub open spec fn is_field_code(w: Seq<char>) -> bool {
    w.len() > 0 && w[0] == '%'
}

/// The words that are not field codes, in order.
pub open spec fn plain_words(ws: Seq<Seq<char>>) -> Seq<Seq<char>>
    decreases ws.len(),
{
    if ws.len() == 0 {
        seq![]
    } else if is_field_code(ws.last()) {
        plain_words(ws.drop_last())
    } else {
        plain_words(ws.drop_last()).push(ws.last())
    }
}

/// The words of a command line, without its field codes.
pub open spec fn command_words(exec: Seq<char>) -> Seq<Seq<char>> {
    plain_words(words(exec))
}

/// The program of a word list: its first word, or nothing.
pub open spec fn program_of(ws: Seq<Seq<char>>) -> Seq<char> {
    if ws.len() == 0 {
        seq![]
    } else {
        ws[0]
    }
}

/// The arguments of a word list: what follows its first word.
pub open spec fn arguments_of(ws: Seq<Seq<char>>) -> Seq<Seq<char>> {
    if ws.len() == 0 {
        seq![]
    } else {
        ws.skip(1)
    }
}

/// Splits a desktop entry's command into program and arguments; both are
/// empty where nothing but field codes is left.
pub fn sanitize_exec(exec: &str) -> (r: (String, Vec<String>))
    ensures
        r.0@ == program_of(command_words(exec@)),
        texts(r.1@) == arguments_of(command_words(exec@)),
{
    let ws = split_whitespace(exec);
    let ghost all = words(exec@);
    let mut parts: Vec<String> = Vec::new();
    let mut i: usize = 0;
    assert(all.take(0) =~= Seq::<Seq<char>>::empty());
    assert(texts(parts@) =~= plain_words(all.take(0)));
    while i < ws.len()
        invariant
            all == texts(ws@),
            i <= ws@.len(),
            texts(parts@) == plain_words(all.take(i as int)),
        decreases ws.len() - i,
    {
        let ghost before = parts@;
        proof {
            assert(all.take(i + 1).drop_last() =~= all.take(i as int));
            assert(all.take(i + 1).last() == ws@[i as int]@);
        }
        let cs = chars_of(ws[i].as_str());
        if !(cs.len() > 0 && cs[0] == '%') {
            parts.push(ws[i].clone());
            assert(texts(parts@) =~= texts(before).push(ws@[i as int]@));
        }
        i = i + 1;
    }
    assert(all.take(all.len() as int) =~= all);
    if parts.len() == 0 {
        assert(texts(parts@).len() == 0);
        let none: Vec<String> = Vec::new();
        assert(texts(none@) =~= seq![]);
        return (String::new(), none);
    }
    let ghost whole = parts@;
    let cmd = parts.remove(0);
    assert(texts(parts@) =~= texts(whole).skip(1));
    (cmd, parts)
}

/// Neither the program nor an argument is ever empty, holds white space or is
/// a field code, where there is a program at all.
pub proof fn command_words_are_clean(exec: Seq<char>)
    ensures
        forall|i: int|
            0 <= i < command_words(exec).len() ==> is_word(#[trigger] command_words(exec)[i])
                && !is_field_code(command_words(exec)[i]),
{
    words_are_words(exec);
    lemma_plain_words(words(exec));
}

proof fn lemma_plain_words(ws: Seq<Seq<char>>)
    requires
        forall|i: int| 0 <= i < ws.len() ==> is_word(#[trigger] ws[i]),
    ensures
        forall|i: int|
            0 <= i < plain_words(ws).len() ==> is_word(#[trigger] plain_words(ws)[i])
                && !is_field_code(plain_words(ws)[i]),
    decreases ws.len(),
{
    if ws.len() > 0 {
        let t = ws.drop_last();
        assert forall|i: int| 0 <= i < t.len() implies is_word(#[trigger] t[i]) by {
            assert(t[i] == ws[i]);
        }
        lemma_plain_words(t);
        let p = plain_words(t);
        let all = plain_words(ws);
        assert(is_word(ws[ws.len() - 1]));
        assert forall|i: int| 0 <= i < all.len() implies is_word(#[trigger] all[i])
            && !is_field_code(all[i]) by {
            if i < p.len() {
                assert(all[i] == p[i]);
            }
        }
    }
}

/// The program and the arguments that start a session: a Wayland session's own
/// command, or `xinit` around an X11 one.
pub open spec fn session_words(exec: Seq<char>, is_wayland: bool) -> Seq<Seq<char>> {
    let client = command_words(exec);
    if is_wayland {
        client
    } else {
        seq!["/usr/sbin/xinit"@, program_of(client)] + arguments_of(client) + seq![
            "--"@,
            "-keeptty"@,
        ]
    }
}

/// The command of a session, where there is one to start.
pub fn session_command(exec: &str, is_wayland: bool) -> (r: Option<(String, Vec<String>)>)
    ensures
        r is Some <==> session_words(exec@, is_wayland).len() > 0,
        r matches Some(c) ==> seq![c.0@] + texts(c.1@) == session_words(exec@, is_wayland),
{
    let (client, client_args) = sanitize_exec(exec);
    let ghost ws = command_words(exec@);
    proof {
        command_words_are_clean(exec@);
    }
    if is_wayland {
        if client.as_str().is_empty() {
            proof {
                if ws.len() > 0 {
                    assert(is_word(ws[0]));
                }
            }
            None
        } else {
            assert(ws.len() > 0);
            assert(seq![client@] + texts(client_args@) =~= ws);
            Some((client, client_args))
        }
    } else {
        let mut args: Vec<String> = Vec::new();
        args.push(client);
        let mut i: usize = 0;
        let ghost extra = texts(client_args@);
        assert(texts(args@) =~= seq![program_of(ws)] + extra.take(0));
        while i < client_args.len()
            invariant
                extra == texts(client_args@),
                i <= client_args@.len(),
                texts(args@) == seq![program_of(ws)] + extra.take(i as int),
            decreases client_args.len() - i,
        {
            let ghost before = args@;
            args.push(client_args[i].clone());
            proof {
                assert(texts(args@) =~= texts(before).push(extra[i as int]));
                assert(extra.take(i + 1) =~= extra.take(i as int).push(extra[i as int]));
                assert(texts(args@) =~= seq![program_of(ws)] + extra.take(i + 1));
            }
            i = i + 1;
        }
        assert(extra.take(extra.len() as int) =~= extra);
        let ghost before = args@;
        args.push("--".to_owned());
        args.push("-keeptty".to_owned());
        proof {
            assert(texts(args@) =~= texts(before) + seq!["--"@, "-keeptty"@]);
            assert(seq!["/usr/sbin/xinit"@] + texts(args@) =~= session_words(exec@, is_wayland));
        }
        Some(("/usr/sbin/xinit".to_owned(), args))
    }
}

/// The service that the session is opened on. An empty password is the
/// fingerprint path, or the restart of a session: the user is verified
/// already, so the session opens on the autologin stack.
pub open spec fn service_for(password: Seq<char>) -> Seq<char> {
    if password.len() == 0 {
        "cce-display-manager-autologin"@
    } else {
        "cce-display-manager-password"@
    }
}

/// The service that the session is opened on.
pub fn session_pam_service(password: &str) -> (r: &'static str)
    ensures
        r@ == service_for(password@),
{
    if password.is_empty() {
        "cce-display-manager-autologin"
    } else {
        "cce-display-manager-password"
    }
}

/// Whether `c` is an ASCII letter or digit.
pub open spec fn ascii_alphanumeric(c: char) -> bool {
    ||| '0' <= c <= '9'
    ||| 'A' <= c <= 'Z'
    ||| 'a' <= c <= 'z'
}

/// Whether `c` is an ASCII letter or digit.
pub fn is_ascii_alphanumeric(c: char) -> (r: bool)
    ensures
        r == ascii_alphanumeric(c),
{
    ('0' <= c && c <= '9') || ('A' <= c && c <= 'Z') || ('a' <= c && c <= 'z')
}

/// A login session id: one to 32 ASCII letters and digits.
pub open spec fn is_session_id(id: Seq<char>) -> bool {
    &&& 0 < id.len() <= 32
    &&& forall|i: int| 0 <= i < id.len() ==> ascii_alphanumeric(#[trigger] id[i])
}

/// Whether `id` is a login session id; only then is it handed to `loginctl`.
pub fn valid_session_id(id: &str) -> (r: bool)
    ensures
        r == is_session_id(id@),
{
    let cs = chars_of(id);
    if cs.len() == 0 || cs.len() > 32 {
        return false;
    }
    let mut i: usize = 0;
    while i < cs.len()
        invariant
            cs@ == id@,
            i <= cs@.len(),
            forall|k: int| 0 <= k < i ==> ascii_alphanumeric(#[trigger] cs@[k]),
        decreases cs.len() - i,
    {
        if !is_ascii_alphanumeric(cs[i]) {
            return false;
        }
        i = i + 1;
    }
    true
}

// ---------------------------------------------------------------------------
// The list on the greeter
// ---------------------------------------------------------------------------

/// How a session is shown in the list.
pub open spec fn label_of(s: SessionView) -> Seq<char> {
    if s.name == "Bash Shell"@ {
        "Bash Shell"@
    } else {
        s.name + " ("@ + (if s.is_wayland {
            "Wayland"@
        } else {
            "X11"@
        }) + ")"@
    }
}

/// The text of a session's row.
pub fn row_label(s: &Session) -> (r: String)
    ensures
        r@ == label_of(s@),
{
    if same(s.name.as_str(), "Bash Shell") {
        "Bash Shell".to_owned()
    } else {
        let mut t = join2(s.name.as_str(), " (");
        t.append(
            if s.is_wayland {
                "Wayland"
            } else {
                "X11"
            },
        );
        t.append(")");
        t
    }
}

/// The first position at which `hits` holds, if any.
pub open spec fn first_hit(hits: Seq<bool>) -> Option<int>
    decreases hits.len(),
{
    if hits.len() == 0 {
        None
    } else if hits[0] {
        Some(0)
    } else {
        match first_hit(hits.skip(1)) {
            Some(i) => Some(i + 1),
            None => None,
        }
    }
}

proof fn lemma_first_hit(hits: Seq<bool>, i: int)
    requires
        0 <= i <= hits.len(),
        forall|k: int| 0 <= k < i ==> !hits[k],
        i < hits.len() ==> hits[i],
    ensures
        first_hit(hits) == (if i < hits.len() {
            Some(i)
        } else {
            None
        }),
    decreases hits.len(),
{
    if i > 0 {
        lemma_first_hit(hits.skip(1), i - 1);
    }
}

/// Which of the sessions are started by `exec`.
pub open spec fn started_by(sessions: Seq<SessionView>, exec: Seq<char>) -> Seq<bool> {
    Seq::new(sessions.len(), |i: int| sessions[i].command == exec)
}

/// The position to select for a remembered command: the first session that it
/// starts, or the current position.
pub open spec fn saved_position(
    sessions: Seq<SessionView>,
    exec: Seq<char>,
    current: int,
) -> int {
    match first_hit(started_by(sessions, exec)) {
        Some(i) => if exec.len() > 0 {
            i
        } else {
            current
        },
        None => current,
    }
}

/// The list of sessions: which one is selected, and which one the pointer is
/// over.
#[derive(Debug, Clone)]
pub struct SessionList {
    pub sessions: Vec<Session>,
    pub selected_idx: usize,
    pub hovered_idx: Option<usize>,
}

/// The view of a [`SessionList`].
#[verifier::ext_equal]
pub struct SessionListView {
    pub sessions: Seq<SessionView>,
    pub selected: int,
    pub hovered: Option<usize>,
}

impl View for SessionList {
    type V = SessionListView;

    open spec fn view(&self) -> SessionListView {
        SessionListView {
            sessions: sessions_view(self.sessions@),
            selected: self.selected_idx as int,
            hovered: self.hovered_idx,
        }
    }
}

impl SessionList {
    /// There is a session, and the selection is one of them.
    pub open spec fn wf(self) -> bool {
        self.selected_idx < self.sessions@.len()
    }

    pub fn new(sessions: Vec<Session>) -> (r: Self)
        ensures
            r.sessions == sessions,
            r.selected_idx == 0,
            r.hovered_idx is None,
            sessions@.len() > 0 ==> r.wf(),
    {
        SessionList { sessions, selected_idx: 0, hovered_idx: None }
    }

    /// The selected session.
    pub fn selected_session(&self) -> (r: Option<&Session>)
        ensures
            match r {
                Some(s) => self.selected_idx < self.sessions@.len()
                    && *s == self.sessions@[self.selected_idx as int],
                None => self.selected_idx >= self.sessions@.len(),
            },
    {
        if self.selected_idx < self.sessions.len() {
            Some(&self.sessions[self.selected_idx])
        } else {
            None
        }
    }

    /// Selects the first session that is started by `exec`; nothing changes
    /// where `exec` is empty or no session is started by it.
    pub fn select_saved(&mut self, exec: &str)
        ensures
            final(self).sessions == old(self).sessions,
            final(self).hovered_idx == old(self).hovered_idx,
            old(self).wf() ==> final(self).wf(),
            final(self).selected_idx == saved_position(
                sessions_view(old(self).sessions@),
                exec@,
                old(self).selected_idx as int,
            ),
    {
        if exec.is_empty() {
            return ;
        }
        let mut i: usize = 0;
        let ghost hits = started_by(sessions_view(self.sessions@), exec@);
        while i < self.sessions.len()
            invariant
                *self == *old(self),
                exec@.len() > 0,
                i <= self.sessions@.len(),
                hits == started_by(sessions_view(self.sessions@), exec@),
                forall|k: int| 0 <= k < i ==> !hits[k],
            decreases self.sessions.len() - i,
        {
            if same(self.sessions[i].command.as_str(), exec) {
                proof {
                    lemma_first_hit(hits, i as int);
                }
                self.selected_idx = i;
                return ;
            }
            i = i + 1;
        }
        proof {
            lemma_first_hit(hits, i as int);
        }
    }

    /// Selects the session above, from the first one round to the last.
    pub fn select_previous(&mut self)
        requires
            old(self).wf(),
        ensures
            final(self).wf(),
            final(self).sessions == old(self).sessions,
            final(self).hovered_idx is None,
            final(self).selected_idx == previous(
                old(self).selected_idx as int,
                old(self).sessions@.len() as int,
            ),
    {
        proof {
            lemma_wrap(self.selected_idx as int, self.sessions@.len() as int);
        }
        if self.selected_idx == 0 {
            self.selected_idx = self.sessions.len() - 1;
        } else {
            self.selected_idx = self.selected_idx - 1;
        }
        self.hovered_idx = None;
    }

    /// Selects the session below, from the last one round to the first.
    pub fn select_next(&mut self)
        requires
            old(self).wf(),
        ensures
            final(self).wf(),
            final(self).sessions == old(self).sessions,
            final(self).hovered_idx is None,
            final(self).selected_idx == following(
                old(self).selected_idx as int,
                old(self).sessions@.len() as int,
            ),
    {
        proof {
            lemma_wrap(self.selected_idx as int, self.sessions@.len() as int);
        }
        if self.selected_idx == self.sessions.len() - 1 {
            self.selected_idx = 0;
        } else {
            self.selected_idx = self.selected_idx + 1;
        }
        self.hovered_idx = None;
    }

    /// The pointer moved: `inside` says whether it is over the list, `hits[i]`
    /// whether it is over row `i`. The hovered row is the first one hit; the
    /// result says whether it changed.
    pub fn pointer_moved(&mut self, inside: bool, hits: &Vec<bool>) -> (r: bool)
        requires
            hits@.len() == old(self).sessions@.len(),
        ensures
            final(self).sessions == old(self).sessions,
            final(self).selected_idx == old(self).selected_idx,
            match final(self).hovered_idx {
                Some(i) => inside && first_hit(hits@) == Some(i as int),
                None => !inside || first_hit(hits@) is None,
            },
            r == (final(self).hovered_idx != old(self).hovered_idx),
    {
        let before = self.hovered_idx;
        self.hovered_idx = None;
        if inside {
            let mut i: usize = 0;
            while i < hits.len() && !hits[i]
                invariant
                    i <= hits@.len(),
                    forall|k: int| 0 <= k < i ==> !hits@[k],
                decreases hits.len() - i,
            {
                i = i + 1;
            }
            proof {
                lemma_first_hit(hits@, i as int);
            }
            if i < hits.len() {
                self.hovered_idx = Some(i);
            }
        }
        match (before, self.hovered_idx) {
            (None, None) => false,
            (Some(a), Some(b)) => a != b,
            _ => true,
        }
    }

    /// The left button was pressed over the list: the first row hit that is
    /// not selected yet becomes the selected one. The result says whether the
    /// selection changed.
    pub fn left_pressed(&mut self, hits: &Vec<bool>) -> (r: bool)
        requires
            hits@.len() == old(self).sessions@.len(),
        ensures
            final(self).sessions == old(self).sessions,
            final(self).hovered_idx == old(self).hovered_idx,
            old(self).wf() ==> final(self).wf(),
            r == (final(self).selected_idx != old(self).selected_idx),
            r ==> {
                let i = final(self).selected_idx as int;
                &&& i < hits@.len() && hits@[i]
                &&& forall|k: int|
                    0 <= k < i && k != old(self).selected_idx ==> !#[trigger] hits@[k]
            },
            !r ==> forall|k: int|
                0 <= k < hits@.len() && k != old(self).selected_idx ==> !#[trigger] hits@[k],
    {
        let mut i: usize = 0;
        while i < hits.len()
            invariant
                *self == *old(self),
                hits@.len() == self.sessions@.len(),
                i <= hits@.len(),
                forall|k: int|
                    0 <= k < i && k != old(self).selected_idx ==> !#[trigger] hits@[k],
            decreases hits.len() - i,
        {
            if hits[i] && self.selected_idx != i {
                self.selected_idx = i;
                return true;
            }
            i = i + 1;
        }
        false
    }

    /// The row that is drawn as hovered: the one under the pointer, unless it
    /// is the selected one or no row of the list.
    pub fn hover_row(&self) -> (r: Option<usize>)
        ensures
            match self.hovered_idx {
                Some(h) => r == (if h != self.selected_idx && h < self.sessions@.len() {
                    Some(h)
                } else {
                    None
                }),
                None => r is None,
            },
    {
        match self.hovered_idx {
            Some(h) => if h != self.selected_idx && h < self.sessions.len() {
                Some(h)
            } else {
                None
            },
            None => None,
        }
    }
}

/// The position before `i` in a ring of `n`.
pub open spec fn previous(i: int, n: int) -> int {
    (i + n - 1) % n
}

/// The position after `i` in a ring of `n`.
pub open spec fn following(i: int, n: int) -> int {
    (i + 1) % n
}

proof fn lemma_wrap(i: int, n: int)
    requires
        0 <= i < n,
    ensures
        previous(i, n) == (if i == 0 {
            n - 1
        } else {
            i - 1
        }),
        following(i, n) == (if i == n - 1 {
            0
        } else {
            i + 1
        }),
{
    if i == 0 {
        vstd::arithmetic::div_mod::lemma_small_mod((n - 1) as nat, n as nat);
    } else {
        vstd::arithmetic::div_mod::lemma_small_mod((i - 1) as nat, n as nat);
        vstd::arithmetic::div_mod::lemma_mod_add_multiples_vanish(i - 1, n);
        assert(i + n - 1 == n + (i - 1));
    }
    if i == n - 1 {
        vstd::arithmetic::div_mod::lemma_mod_self_0(n);
    } else {
        vstd::arithmetic::div_mod::lemma_small_mod((i + 1) as nat, n as nat);
    }
}

/// Going down and then up, or up and then down, comes back to the same
/// session.
pub proof fn down_and_up_cancel(i: int, n: int)
    requires
        0 <= i < n,
    ensures
        0 <= following(i, n) < n,
        0 <= previous(i, n) < n,
        previous(following(i, n), n) == i,
        following(previous(i, n), n) == i,
{
    lemma_wrap(i, n);
    lemma_wrap(following(i, n), n);
    lemma_wrap(previous(i, n), n);
}

// ---------------------------------------------------------------------------
// Laws
// ---------------------------------------------------------------------------

/// A desktop file's name and command are those of its last line with each key,
/// to the end of the line; it describes a session exactly where it has both.
pub proof fn a_desktop_file_gives_its_last_values(content: Seq<char>, is_wayland: bool)
    ensures
        desktop_session(content, is_wayland) is Some <==> has_key(lines_of(content), "Name="@)
            && has_key(lines_of(content), "Exec="@),
        desktop_session(content, is_wayland) matches Some(s) ==> {
            &&& is_last_value(lines_of(content), "Name="@, s.name)
            &&& is_last_value(lines_of(content), "Exec="@, s.command)
            &&& s.is_wayland == is_wayland
        },
{
    lemma_last_value(lines_of(content), "Name="@);
    lemma_last_value(lines_of(content), "Exec="@);
}

/// Whether some line starts with `key`, once trimmed.
pub open spec fn has_key(ls: Seq<Seq<char>>, key: Seq<char>) -> bool {
    exists|i: int| 0 <= i < ls.len() && key.is_prefix_of(trimmed(#[trigger] ls[i]))
}

/// Whether the last line that starts with `key` reads `key` and `value`.
pub open spec fn is_last_value(ls: Seq<Seq<char>>, key: Seq<char>, value: Seq<char>) -> bool {
    exists|i: int|
        0 <= i < ls.len() && trimmed(#[trigger] ls[i]) == key + value && forall|k: int|
            i < k < ls.len() ==> !key.is_prefix_of(trimmed(#[trigger] ls[k]))
}

proof fn lemma_last_value(ls: Seq<Seq<char>>, key: Seq<char>)
    ensures
        last_value(ls, key) is Some <==> has_key(ls, key),
        last_value(ls, key) matches Some(v) ==> is_last_value(ls, key, v),
    decreases ls.len(),
{
    if ls.len() > 0 {
        let n = ls.len() - 1;
        let l = trimmed(ls[n]);
        let before = ls.drop_last();
        if key.is_prefix_of(l) {
            assert(key + l.skip(key.len() as int) =~= l);
            assert(trimmed(ls[n]) == key + last_value(ls, key)->0);
        } else {
            lemma_last_value(before, key);
            if has_key(before, key) {
                let i = choose|i: int|
                    0 <= i < before.len() && key.is_prefix_of(trimmed(#[trigger] before[i]));
                assert(key.is_prefix_of(trimmed(ls[i])));
                let v = last_value(before, key)->0;
                let j = choose|j: int|
                    0 <= j < before.len() && trimmed(#[trigger] before[j]) == key + v && forall|
                        k: int,
                    |
                        j < k < before.len() ==> !key.is_prefix_of(trimmed(#[trigger] before[k]));
                assert(trimmed(ls[j]) == key + v);
                assert forall|k: int| j < k < ls.len() implies !key.is_prefix_of(
                    trimmed(#[trigger] ls[k]),
                ) by {
                    if k < n {
                        assert(!key.is_prefix_of(trimmed(before[k])));
                    }
                }
            }
            if has_key(ls, key) {
                let i = choose|i: int|
                    0 <= i < ls.len() && key.is_prefix_of(trimmed(#[trigger] ls[i]));
                assert(key.is_prefix_of(trimmed(before[i])));
            }
        }
    }
}

/// Whether a directory entry is a readable `.desktop` file with a name and a
/// command.
pub open spec fn lists_a_session(f: DirFile, is_wayland: bool) -> bool {
    &&& extension_is(f.name@, "desktop"@)
    &&& f.content matches Some(c) && desktop_session(c@, is_wayland) is Some
}

/// Every desktop file is listed: the sessions of a directory are those of its
/// readable `.desktop` files that have a name and a command, one for each, in
/// their order.
pub proof fn every_desktop_file_is_listed(files: Seq<DirFile>, is_wayland: bool)
    ensures
        dir_sessions(files, is_wayland) == files.filter(
            |f: DirFile| lists_a_session(f, is_wayland),
        ).map_values(|f: DirFile| desktop_session(f.content->0@, is_wayland)->0),
        forall|i: int|
            0 <= i < files.len() && lists_a_session(#[trigger] files[i], is_wayland)
                ==> dir_sessions(files, is_wayland).contains(
                desktop_session(files[i].content->0@, is_wayland)->0,
            ),
    decreases files.len(),
{
    reveal(Seq::filter);
    let keep = |f: DirFile| lists_a_session(f, is_wayland);
    let of = |f: DirFile| desktop_session(f.content->0@, is_wayland)->0;
    let all = dir_sessions(files, is_wayland);
    if files.len() > 0 {
        let before = files.drop_last();
        every_desktop_file_is_listed(before, is_wayland);
        let found = dir_sessions(before, is_wayland);
        if keep(files.last()) {
            assert(files.filter(keep) == before.filter(keep).push(files.last()));
            assert(files.filter(keep).map_values(of) =~= before.filter(keep).map_values(of).push(
                of(files.last()),
            ));
            assert(all == found.push(of(files.last())));
            assert(all.last() == of(files.last()));
            assert(all.contains(of(files.last())));
        }
        assert(all =~= files.filter(keep).map_values(of));
        assert forall|i: int|
            0 <= i < files.len() && lists_a_session(#[trigger] files[i], is_wayland) implies all.contains(
            of(files[i]),
        ) by {
            if i < before.len() {
                assert(before[i] == files[i]);
                assert(lists_a_session(before[i], is_wayland));
                let k = choose|k: int| 0 <= k < found.len() && found[k] == of(files[i]);
                assert(all[k] == of(files[i]));
            }
        }
    } else {
        assert(all =~= files.filter(keep).map_values(of));
    }
}

/// More files list more sessions: those of two groups of entries are those of
/// the first followed by those of the second.
pub proof fn directories_add_up(a: Seq<DirFile>, b: Seq<DirFile>, is_wayland: bool)
    ensures
        dir_sessions(a + b, is_wayland) == dir_sessions(a, is_wayland) + dir_sessions(
            b,
            is_wayland,
        ),
    decreases b.len(),
{
    if b.len() == 0 {
        assert(a + b =~= a);
        assert(dir_sessions(a, is_wayland) + dir_sessions(b, is_wayland) =~= dir_sessions(
            a,
            is_wayland,
        ));
    } else {
        let t = b.drop_last();
        directories_add_up(a, t, is_wayland);
        assert((a + b).drop_last() =~= a + t);
        assert((a + b).last() == b.last());
        assert(dir_sessions(a + b, is_wayland) =~= dir_sessions(a, is_wayland) + dir_sessions(
            b,
            is_wayland,
        ));
    }
}

/// The built-in session is a console login in the shell.
pub proof fn the_shell_is_built_in()
    ensures
        bash_shell().name == "Bash Shell"@,
        bash_shell().command == "bash"@,
        bash_shell().is_wayland,
        command_words(bash_shell().command) == seq!["bash"@],
        label_of(bash_shell()) == bash_shell().name,
{
    reveal_strlit("bash");
    crate::split::a_word_alone("bash"@);
    assert("bash"@[0] == 'b');
    assert(seq!["bash"@].drop_last() =~= seq![]);
    assert(plain_words(seq!["bash"@]) =~= seq!["bash"@]) by {
        reveal_with_fuel(plain_words, 2);
    }
}

/// A command keeps every word of its line that does not start with `%`, in
/// order and as often as it stands there, and no other.
pub proof fn a_command_keeps_its_words(exec: Seq<char>)
    ensures
        command_words(exec) == words(exec).filter(
            |w: Seq<char>| !(w.len() > 0 && w[0] == '%'),
        ),
        (forall|i: int| 0 <= i < words(exec).len() ==> (#[trigger] words(exec)[i])[0] != '%')
            ==> command_words(exec) == words(exec),
{
    let keep = |w: Seq<char>| !(w.len() > 0 && w[0] == '%');
    lemma_plain_is_filter(words(exec));
    if forall|i: int| 0 <= i < words(exec).len() ==> (#[trigger] words(exec)[i])[0] != '%' {
        lemma_nothing_to_drop(words(exec));
    }
}

proof fn lemma_plain_is_filter(ws: Seq<Seq<char>>)
    ensures
        plain_words(ws) == ws.filter(|w: Seq<char>| !(w.len() > 0 && w[0] == '%')),
    decreases ws.len(),
{
    reveal(Seq::filter);
    if ws.len() > 0 {
        lemma_plain_is_filter(ws.drop_last());
    }
    assert(plain_words(ws) =~= ws.filter(|w: Seq<char>| !(w.len() > 0 && w[0] == '%')));
}

proof fn lemma_nothing_to_drop(ws: Seq<Seq<char>>)
    requires
        forall|i: int| 0 <= i < ws.len() ==> (#[trigger] ws[i])[0] != '%',
    ensures
        plain_words(ws) == ws,
    decreases ws.len(),
{
    if ws.len() > 0 {
        let t = ws.drop_last();
        assert forall|i: int| 0 <= i < t.len() implies (#[trigger] t[i])[0] != '%' by {
            assert(t[i] == ws[i]);
        }
        assert(ws[ws.len() - 1][0] != '%');
        lemma_nothing_to_drop(t);
    }
    assert(plain_words(ws) =~= ws);
}

/// A command is its program followed by its arguments, and empty where no word
/// is left.
pub proof fn a_command_is_program_and_arguments(ws: Seq<Seq<char>>)
    ensures
        ws.len() > 0 ==> seq![program_of(ws)] + arguments_of(ws) == ws,
        ws.len() == 0 ==> program_of(ws).len() == 0 && arguments_of(ws).len() == 0,
{
    if ws.len() > 0 {
        assert(seq![program_of(ws)] + arguments_of(ws) =~= ws);
    }
}

/// A Wayland session runs its own command, word for word. An X11 session runs
/// it under `xinit`: between the program and the two words that end its line
/// stand all the words of the command, or an empty one where there are none.
pub proof fn a_session_runs_its_command(exec: Seq<char>)
    ensures
        session_words(exec, true) == command_words(exec),
        ({
            let x = session_words(exec, false);
            let n = x.len() as int;
            let client = x.subrange(1, n - 2);
            &&& n >= 4
            &&& x[0] == "/usr/sbin/xinit"@
            &&& x[n - 2] == "--"@ && x[n - 1] == "-keeptty"@
            &&& command_words(exec).len() > 0 ==> client == command_words(exec)
            &&& command_words(exec).len() == 0 ==> client == seq![Seq::<char>::empty()]
        }),
{
    let client = command_words(exec);
    let x = session_words(exec, false);
    a_command_is_program_and_arguments(client);
    if client.len() > 0 {
        assert(x.subrange(1, x.len() - 2) =~= client);
    } else {
        assert(x.subrange(1, x.len() - 2) =~= seq![Seq::<char>::empty()]);
    }
}

/// A session is opened without a password on one service only, and with one
/// on another only.
pub proof fn the_password_picks_the_service(password: Seq<char>)
    ensures
        service_for(password) == "cce-display-manager-autologin"@ <==> password.len() == 0,
        service_for(password) == "cce-display-manager-password"@ <==> password.len() > 0,
{
    reveal_strlit("cce-display-manager-autologin");
    reveal_strlit("cce-display-manager-password");
    assert("cce-display-manager-autologin"@.len() != "cce-display-manager-password"@.len());
}

/// An id that reaches `loginctl` is made of ASCII letters and digits alone,
/// and every such id of one to 32 characters does.
pub proof fn session_ids_are_plain(id: Seq<char>)
    ensures
        is_session_id(id) <==> 1 <= id.len() <= 32 && forall|i: int|
            0 <= i < id.len() ==> {
                let c = #[trigger] id[i];
                '0' <= c <= '9' || 'A' <= c <= 'Z' || 'a' <= c <= 'z'
            },
{
    if is_session_id(id) {
        assert forall|i: int| 0 <= i < id.len() implies {
            let c = #[trigger] id[i];
            '0' <= c <= '9' || 'A' <= c <= 'Z' || 'a' <= c <= 'z'
        } by {
            assert(ascii_alphanumeric(id[i]));
        }
    }
}

/// A row shows the name of its session, and whether it runs on Wayland or on
/// X11; only the built-in shell shows its name alone.
pub proof fn rows_show_name_and_kind(s: SessionView)
    ensures
        s.name.is_prefix_of(label_of(s)),
        s.name == "Bash Shell"@ ==> label_of(s) == s.name,
        s.name != "Bash Shell"@ && s.is_wayland ==> label_of(s) == s.name + " (Wayland)"@,
        s.name != "Bash Shell"@ && !s.is_wayland ==> label_of(s) == s.name + " (X11)"@,
{
    reveal_strlit(" (");
    reveal_strlit(")");
    reveal_strlit("Wayland");
    reveal_strlit("X11");
    reveal_strlit(" (Wayland)");
    reveal_strlit(" (X11)");
    assert(" ("@ + "Wayland"@ + ")"@ =~= " (Wayland)"@);
    assert(" ("@ + "X11"@ + ")"@ =~= " (X11)"@);
    if s.name != "Bash Shell"@ {
        if s.is_wayland {
            assert(label_of(s) =~= s.name + " (Wayland)"@);
        } else {
            assert(label_of(s) =~= s.name + " (X11)"@);
        }
        assert(label_of(s).subrange(0, s.name.len() as int) =~= s.name);
    } else {
        assert(s.name.subrange(0, s.name.len() as int) =~= s.name);
    }
}

/// The row under the pointer is the first that is hit, and there is none only
/// where no row is.
pub proof fn the_first_hit_counts(hits: Seq<bool>)
    ensures
        first_hit(hits) matches Some(i) ==> 0 <= i < hits.len() && hits[i] && forall|k: int|
            0 <= k < i ==> !#[trigger] hits[k],
        first_hit(hits) is None ==> forall|k: int| 0 <= k < hits.len() ==> !#[trigger] hits[k],
    decreases hits.len(),
{
    if hits.len() > 0 && !hits[0] {
        let t = hits.skip(1);
        the_first_hit_counts(t);
        match first_hit(t) {
            Some(i) => {
                assert(hits[i + 1] == t[i]);
                assert forall|k: int| 0 <= k < i + 1 implies !#[trigger] hits[k] by {
                    if k > 0 {
                        assert(hits[k] == t[k - 1]);
                    }
                }
            },
            None => {
                assert forall|k: int| 0 <= k < hits.len() implies !#[trigger] hits[k] by {
                    if k > 0 {
                        assert(hits[k] == t[k - 1]);
                    }
                }
            },
        }
    }
}

/// The session of the last login is selected again: the first one with that
/// command, wherever it stands now. The selection stays where no session has
/// it, or nothing was remembered.
pub proof fn the_last_session_is_selected(
    sessions: Seq<SessionView>,
    exec: Seq<char>,
    current: int,
)
    ensures
        ({
            let at = saved_position(sessions, exec, current);
            let found = exists|i: int|
                0 <= i < sessions.len() && (#[trigger] sessions[i]).command == exec;
            &&& exec.len() > 0 && found ==> 0 <= at < sessions.len() && sessions[at].command == exec
                && forall|k: int| 0 <= k < at ==> (#[trigger] sessions[k]).command != exec
            &&& exec.len() == 0 || !found ==> at == current
        }),
{
    let hits = started_by(sessions, exec);
    the_first_hit_counts(hits);
    assert forall|k: int| 0 <= k < sessions.len() implies hits[k] == ((#[trigger] sessions[k]).command
        == exec) by {}
}

/// The greeter's list has a row for every desktop file of the two directories
/// that describes a session, those for Wayland first, and one more for the
/// shell.
pub proof fn the_list_is_complete(wayland: Seq<DirFile>, x11: Seq<DirFile>)
    ensures
        ({
            let found = dir_sessions(wayland, true) + dir_sessions(x11, false) + seq![bash_shell()];
            let w = wayland.filter(|f: DirFile| lists_a_session(f, true));
            let x = x11.filter(|f: DirFile| lists_a_session(f, false));
            &&& found.len() == w.len() + x.len() + 1
            &&& found.last() == bash_shell()
            &&& forall|i: int|
                0 <= i < w.len() ==> #[trigger] found[i] == desktop_session(
                    w[i].content->0@,
                    true,
                )->0
            &&& forall|i: int|
                w.len() <= i < w.len() + x.len() ==> #[trigger] found[i] == desktop_session(
                    x[i - w.len()].content->0@,
                    false,
                )->0
        }),
{
    every_desktop_file_is_listed(wayland, true);
    every_desktop_file_is_listed(x11, false);
}

/// Each session is taken as it is, in order.
pub proof fn each_session_is_taken(v: Seq<Session>)
    ensures
        sessions_view(v).len() == v.len(),
        forall|i: int| 0 <= i < v.len() ==> #[trigger] sessions_view(v)[i] == v[i]@,
{
}

/// The list is a ring: the row after the last is the first, and the row before
/// the first is the last.
pub proof fn where_the_ring_closes(i: int, n: int)
    requires
        0 <= i < n,
    ensures
        following(i, n) == (if i == n - 1 {
            0
        } else {
            i + 1
        }),
        previous(i, n) == (if i == 0 {
            n - 1
        } else {
            i - 1
        }),
{
    lemma_wrap(i, n);
}

} // verus!
