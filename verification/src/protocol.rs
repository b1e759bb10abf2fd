//! The line by which the greeter hands a verified login to the daemon.
use vstd::prelude::*;

use crate::split::{
    fields, find, lemma_fields_cons, lemma_find, lemma_lines_cons, lines_of, one_line, splitn,
};
use crate::text::{same, texts};

verus! {

/// How a flag is written in a line.
pub open spec fn bool_text(b: bool) -> Seq<char> {
    if b {
        "true"@
    } else {
        "false"@
    }
}

/// The text of a flag.
pub fn bool_str(b: bool) -> (r: &'static str)
    ensures
        r@ == bool_text(b),
{
    if b {
        "true"
    } else {
        "false"
    }
}

/// A login line with the given fields.
pub open spec fn login_line(
    username: Seq<char>,
    exec: Seq<char>,
    wayland: Seq<char>,
    password: Seq<char>,
) -> Seq<char> {
    "AUTH_SUCCESS|"@ + username + "|"@ + exec + "|"@ + wayland + "|"@ + password
}

/// What a line of the greeter's output says: username, command, whether the
/// session is a Wayland one, password. A line with fewer than five fields, or
/// with another first field, says nothing; a flag other than `false` counts
/// as true.
pub open spec fn login_of(line: Seq<char>) -> Option<(Seq<char>, Seq<char>, bool, Seq<char>)> {
    let f = fields(line, 5, '|');
    if f.len() == 5 && f[0] == "AUTH_SUCCESS"@ {
        Some((f[1], f[2], f[3] != "false"@, f[4]))
    } else {
        None
    }
}

/// The view of a parsed login.
pub open spec fn login_view(l: (String, String, bool, String)) -> (
    Seq<char>,
    Seq<char>,
    bool,
    Seq<char>,
) {
    (l.0@, l.1@, l.2, l.3@)
}

/// Reads an `AUTH_SUCCESS|user|exec|is_wayland|password` line.
///
/// The password is the last field and runs to the end of the line, because it
/// may itself hold a `|`.
pub fn parse_auth_success(line: &str) -> (r: Option<(String, String, bool, String)>)
    ensures
        match r {
            Some(l) => login_of(line@) == Some(login_view(l)),
            None => login_of(line@) is None,
        },
{
    let f = splitn(line, 5, '|');
    assert(f@.len() == texts(f@).len());
    if f.len() != 5 || !same(f[0].as_str(), "AUTH_SUCCESS") {
        return None;
    }
    let is_wayland = !same(f[3].as_str(), "false");
    Some((f[1].clone(), f[2].clone(), is_wayland, f[4].clone()))
}

/// The greeter's half of [`parse_auth_success`]: the password goes into the
/// line as it is, without trimming.
pub fn auth_success_line(username: &str, exec: &str, is_wayland: bool, password: &str) -> (r:
    String)
    ensures
        r@ == login_line(username@, exec@, bool_text(is_wayland), password@),
{
    let mut s = "AUTH_SUCCESS|".to_owned();
    s.append(username);
    s.append("|");
    s.append(exec);
    s.append("|");
    s.append(bool_str(is_wayland));
    s.append("|");
    s.append(password);
    s
}

proof fn lemma_literals()
    ensures
        "AUTH_SUCCESS|"@ == "AUTH_SUCCESS"@ + seq!['|'],
        !"AUTH_SUCCESS"@.contains('|'),
        "|"@ == seq!['|'],
        !"true"@.contains('|'),
        !"false"@.contains('|'),
        "true"@ != "false"@,
{
    reveal_strlit("AUTH_SUCCESS|");
    reveal_strlit("AUTH_SUCCESS");
    reveal_strlit("|");
    reveal_strlit("true");
    reveal_strlit("false");
    assert("AUTH_SUCCESS|"@ =~= "AUTH_SUCCESS"@ + seq!['|']);
    assert("|"@ =~= seq!['|']);
    assert("true"@.len() != "false"@.len());
}

proof fn lemma_line_fields(
    username: Seq<char>,
    exec: Seq<char>,
    wayland: Seq<char>,
    password: Seq<char>,
)
    requires
        !username.contains('|'),
        !exec.contains('|'),
        !wayland.contains('|'),
    ensures
        fields(login_line(username, exec, wayland, password), 5, '|') == seq![
            "AUTH_SUCCESS"@,
            username,
            exec,
            wayland,
            password,
        ],
{
    lemma_literals();
    let sep = seq!['|'];
    let l4 = password;
    let l3 = wayland + sep + l4;
    let l2 = exec + sep + l3;
    let l1 = username + sep + l2;
    let l0 = "AUTH_SUCCESS"@ + sep + l1;
    assert(login_line(username, exec, wayland, password) =~= l0);
    lemma_fields_cons("AUTH_SUCCESS"@, l1, 5, '|');
    lemma_fields_cons(username, l2, 4, '|');
    lemma_fields_cons(exec, l3, 3, '|');
    lemma_fields_cons(wayland, l4, 2, '|');
    assert(fields(l4, 1, '|') =~= seq![l4]);
    assert(fields(l0, 5, '|') =~= seq!["AUTH_SUCCESS"@, username, exec, wayland, password]);
}

/// What the greeter writes is what the daemon reads: every field comes back,
/// the password character for character, whatever it holds. A username or a
/// command that holds the separator is the exception.
pub proof fn login_line_reads_back(
    username: Seq<char>,
    exec: Seq<char>,
    is_wayland: bool,
    password: Seq<char>,
)
    requires
        !username.contains('|'),
        !exec.contains('|'),
    ensures
        login_of(login_line(username, exec, bool_text(is_wayland), password)) == Some(
            (username, exec, is_wayland, password),
        ),
{
    lemma_literals();
    lemma_line_fields(username, exec, bool_text(is_wayland), password);
}

/// A login crosses the pipe between the two: the greeter prints the line and
/// ends it, and the daemon, which reads lines, finds that login and nothing
/// else. A text with a line break cannot be typed into the greeter; a password
/// that ends in a carriage return would lose it.
pub proof fn a_login_crosses_the_pipe(
    username: Seq<char>,
    exec: Seq<char>,
    is_wayland: bool,
    password: Seq<char>,
)
    requires
        !username.contains('|') && !username.contains('\n'),
        !exec.contains('|') && !exec.contains('\n'),
        one_line(password),
    ensures
        ({
            let line = login_line(username, exec, bool_text(is_wayland), password);
            let read = lines_of(line + seq!['\n']);
            read == seq![line] && login_of(read[0]) == Some((username, exec, is_wayland, password))
        }),
{
    lemma_literals();
    reveal_strlit("AUTH_SUCCESS|");
    reveal_strlit("true");
    reveal_strlit("false");
    login_line_reads_back(username, exec, is_wayland, password);
    let flag = bool_text(is_wayland);
    let line = login_line(username, exec, flag, password);
    if line.contains('\n') {
        let k = choose|k: int| 0 <= k < line.len() && line[k] == '\n';
        let a = "AUTH_SUCCESS|"@.len() as int;
        let b = a + username.len() + 1;
        let c = b + exec.len() + 1;
        let d = c + flag.len() + 1;
        if a <= k < b - 1 {
            assert(line[k] == username[k - a]);
        } else if b <= k < c - 1 {
            assert(line[k] == exec[k - b]);
        } else if c <= k < d - 1 {
            assert(line[k] == flag[k - c]);
        } else if d <= k {
            assert(line[k] == password[k - d]);
        }
    }
    if password.len() == 0 {
        assert(line.last() == '|');
    } else {
        assert(line.last() == password.last());
    }
    let none = Seq::<char>::empty();
    assert(line + seq!['\n'] =~= line + seq!['\n'] + none);
    lemma_lines_cons(line, none);
    assert(lines_of(none) =~= seq![]);
    assert(lines_of(line + seq!['\n']) =~= seq![line]);
}

proof fn lemma_cut(s: Seq<char>, n: nat)
    requires
        n >= 2,
        fields(s, n, '|').len() >= 2,
    ensures
        ({
            let f = fields(s, n, '|');
            let rest = s.skip(find(s, '|') + 1);
            &&& !f[0].contains('|')
            &&& s == f[0] + seq!['|'] + rest
            &&& f =~= seq![f[0]] + fields(rest, (n - 1) as nat, '|')
        }),
{
    lemma_find(s, '|');
    let i = find(s, '|');
    let rest = s.skip(i + 1);
    let f = fields(s, n, '|');
    assert(f == seq![s.take(i)] + fields(rest, (n - 1) as nat, '|'));
    assert(f[0] == s.take(i));
    if f[0].contains('|') {
        let k = choose|k: int| 0 <= k < f[0].len() && f[0][k] == '|';
        assert(s[k] == '|');
    }
    assert(s =~= f[0] + seq!['|'] + rest);
}

/// Whether `line` is a login line with the flag `flag` and otherwise the
/// fields of `l`, where only the password holds the separator.
pub open spec fn written_with_flag(
    line: Seq<char>,
    l: (Seq<char>, Seq<char>, bool, Seq<char>),
    flag: Seq<char>,
) -> bool {
    &&& line == login_line(l.0, l.1, flag, l.3)
    &&& !l.0.contains('|')
    &&& !l.1.contains('|')
    &&& !flag.contains('|')
    &&& l.2 == (flag != "false"@)
}

/// A line is accepted exactly when it is a login line, and what is read from
/// it are its fields.
pub proof fn only_login_lines_are_accepted(
    line: Seq<char>,
    l: (Seq<char>, Seq<char>, bool, Seq<char>),
)
    ensures
        login_of(line) == Some(l) <==> exists|flag: Seq<char>| written_with_flag(line, l, flag),
{
    if login_of(line) is Some {
        lemma_literals();
        let f0 = fields(line, 5, '|');
        lemma_cut(line, 5);
        let l1 = line.skip(find(line, '|') + 1);
        let f1 = fields(l1, 4, '|');
        assert(f1.len() == 4);
        lemma_cut(l1, 4);
        let l2 = l1.skip(find(l1, '|') + 1);
        let f2 = fields(l2, 3, '|');
        assert(f2.len() == 3);
        lemma_cut(l2, 3);
        let l3 = l2.skip(find(l2, '|') + 1);
        let f3 = fields(l3, 2, '|');
        assert(f3.len() == 2);
        lemma_cut(l3, 2);
        let l4 = l3.skip(find(l3, '|') + 1);
        assert(fields(l4, 1, '|') =~= seq![l4]);
        assert(f0[1] == f1[0]);
        assert(f0[2] == f1[1] && f1[1] == f2[0]);
        assert(f0[3] == f1[2] && f1[2] == f2[1] && f2[1] == f3[0]);
        assert(f0[4] == f1[3] && f1[3] == f2[2] && f2[2] == f3[1] && f3[1] == l4);
        assert(line =~= login_line(f0[1], f0[2], f0[3], f0[4]));
        let got = (f0[1], f0[2], f0[3] != "false"@, f0[4]);
        assert(written_with_flag(line, got, f0[3]));
        assert(login_of(line) == Some(got));
    }
    if exists|flag: Seq<char>| written_with_flag(line, l, flag) {
        let flag = choose|flag: Seq<char>| written_with_flag(line, l, flag);
        lemma_line_fields(l.0, l.1, flag, l.3);
    }
}

// ---------------------------------------------------------------------------
// Laws
// ---------------------------------------------------------------------------

/// A login line is five fields with a bar between each two: the mark of one,
/// and what was verified.
pub proof fn what_a_login_line_is(
    username: Seq<char>,
    exec: Seq<char>,
    wayland: Seq<char>,
    password: Seq<char>,
)
    ensures
        login_line(username, exec, wayland, password) == "AUTH_SUCCESS"@ + seq!['|'] + username
            + seq!['|'] + exec + seq!['|'] + wayland + seq!['|'] + password,
        bool_text(true) == "true"@,
        bool_text(false) == "false"@,
{
    lemma_literals();
}

/// A parsed login is taken as it is.
pub proof fn a_parsed_login_is_taken(l: (String, String, bool, String))
    ensures
        login_view(l).0 == l.0@,
        login_view(l).1 == l.1@,
        login_view(l).2 == l.2,
        login_view(l).3 == l.3@,
{
}

} // verus!
