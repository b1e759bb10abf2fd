//! Registering a database with the keyring daemon.
use vstd::prelude::*;

use crate::invocation::{plain_call, Invocation};
use crate::keyring::{registered_name, safe_name, zeroize};
use crate::number::{decimal, decimal_text};
use crate::path::{file_name, file_name_of, file_stem, stem_of};
use crate::text::{chars_of, join2, join3, same, texts};

verus! {

// ---------------------------------------------------------------------------
// Arguments
// ---------------------------------------------------------------------------

/// What to register: for which user, which database, and with which key file.
#[derive(Debug, Clone, PartialEq, Eq)]
pub struct SetupArgs {
    pub user: String,
    pub database: String,
    pub keyfile: Option<String>,
}

/// The view of [`SetupArgs`].
#[verifier::ext_equal]
pub struct SetupArgsView {
    pub user: Seq<char>,
    pub database: Seq<char>,
    pub keyfile: Option<Seq<char>>,
}

impl View for SetupArgs {
    type V = SetupArgsView;

    open spec fn view(&self) -> SetupArgsView {
        SetupArgsView {
            user: self.user@,
            database: self.database@,
            keyfile: match self.keyfile {
                Some(k) => Some(k@),
                None => None,
            },
        }
    }
}

/// What the program is asked to do, or why it does nothing: it is for root,
/// and takes two arguments or three.
pub open spec fn setup_args(euid: u32, args: Seq<Seq<char>>) -> Result<SetupArgsView, Seq<char>> {
    if euid != 0 {
        Err("must run as root (sudo)"@)
    } else if args.len() < 3 || args.len() > 4 {
        Err("usage: "@ + args[0] + " <user> <database.kdbx> [keyfile]"@)
    } else {
        Ok(
            SetupArgsView {
                user: args[1],
                database: args[2],
                keyfile: if args.len() == 4 {
                    Some(args[3])
                } else {
                    None
                },
            },
        )
    }
}

/// What the program is asked to do, or why it does nothing.
pub fn read_setup_args(euid: u32, args: &Vec<String>) -> (r: Result<SetupArgs, String>)
    requires
        args@.len() > 0,
    ensures
        match r {
            Ok(a) => setup_args(euid, texts(args@)) == Ok::<SetupArgsView, Seq<char>>(a@),
            Err(e) => setup_args(euid, texts(args@)) == Err::<SetupArgsView, Seq<char>>(e@),
        },
{
    assert(forall|i: int| 0 <= i < args@.len() ==> texts(args@)[i] == args@[i]@);
    if euid != 0 {
        Err("must run as root (sudo)".to_owned())
    } else if args.len() < 3 || args.len() > 4 {
        Err(join3("usage: ", args[0].as_str(), " <user> <database.kdbx> [keyfile]"))
    } else {
        let keyfile = if args.len() == 4 {
            Some(args[3].clone())
        } else {
            None
        };
        let a = SetupArgs { user: args[1].clone(), database: args[2].clone(), keyfile };
        assert(a@ =~= setup_args(euid, texts(args@))->Ok_0);
        Ok(a)
    }
}

/// The name under which the database at a path is registered.
pub fn database_name(path: &str) -> (r: String)
    ensures
        r@ == (match file_name_of(path@) {
            Some(name) => safe_name(stem_of(name)),
            None => safe_name("database"@),
        }),
{
    match file_name(path) {
        Some(name) => registered_name(Some(file_stem(name.as_str()).as_str())),
        None => registered_name(None),
    }
}

// ---------------------------------------------------------------------------
// Passwords
// ---------------------------------------------------------------------------

/// `s` without the ends of line that it ends with.
pub open spec fn without_line_end(s: Seq<char>) -> Seq<char>
    decreases s.len(),
{
    if s.len() > 0 && (s.last() == '\n' || s.last() == '\r') {
        without_line_end(s.drop_last())
    } else {
        s
    }
}

/// The password that was typed as a line; it may not be empty. Nothing but the
/// end of the line is taken from it.
pub fn entered_password(line: &str) -> (r: Result<String, String>)
    ensures
        match r {
            Ok(p) => p@ == without_line_end(line@) && p@.len() > 0,
            Err(e) => without_line_end(line@).len() == 0 && e@ == "empty password"@,
        },
{
    let cs = chars_of(line);
    let mut n: usize = cs.len();
    assert(line@.take(line@.len() as int) =~= line@);
    while n > 0 && (cs[n - 1] == '\n' || cs[n - 1] == '\r')
        invariant
            cs@ == line@,
            n <= cs@.len(),
            without_line_end(line@) == without_line_end(line@.take(n as int)),
        decreases n,
    {
        assert(line@.take(n as int).drop_last() =~= line@.take(n - 1));
        n = n - 1;
    }
    let p = line.substring_char(0, n).to_owned();
    assert(p@ =~= line@.take(n as int));
    if n == 0 {
        Err("empty password".to_owned())
    } else {
        Ok(p)
    }
}

/// A password is read as it was typed: only the end of the line is cut off.
pub proof fn a_typed_password_is_kept(p: Seq<char>)
    requires
        p.len() > 0,
        p.last() != '\n',
        p.last() != '\r',
    ensures
        without_line_end(p) == p,
        without_line_end(p + seq!['\n']) == p,
{
    assert((p + seq!['\n']).drop_last() =~= p);
    reveal_with_fuel(without_line_end, 2);
}

/// The flags of a terminal while a password is typed: it is not echoed, and is
/// read as a line.
pub fn prompt_flags(saved: u32, echo: u32, canonical: u32) -> (r: u32)
    ensures
        r == (saved & !echo) | canonical,
{
    (saved & !echo) | canonical
}

/// While a password is typed the terminal does not echo, reads a line, and is
/// otherwise as it was.
pub proof fn only_the_prompt_flags_change(saved: u32, echo: u32, canonical: u32)
    requires
        echo & canonical == 0,
    ensures
        ((saved & !echo) | canonical) & echo == 0,
        ((saved & !echo) | canonical) & canonical == canonical,
        ((saved & !echo) | canonical) & !(echo | canonical) == saved & !(echo | canonical),
{
    assert(echo & canonical == 0 ==> ((saved & !echo) | canonical) & echo == 0) by (bit_vector);
    assert(((saved & !echo) | canonical) & canonical == canonical) by (bit_vector);
    assert(((saved & !echo) | canonical) & !(echo | canonical) == saved & !(echo | canonical))
        by (bit_vector);
}

/// Compares the two passwords that were typed. The second is overwritten; so
/// is the first, where they differ.
pub fn confirm_password(password: &mut String, confirm: &mut String) -> (r: Result<(), String>)
    ensures
        r is Ok <==> old(password)@ == old(confirm)@,
        r matches Err(e) ==> e@ == "passwords do not match"@,
        final(confirm)@.len() == 0,
        r is Ok ==> final(password)@ == old(password)@,
        r is Err ==> final(password)@.len() == 0,
{
    if same(password.as_str(), confirm.as_str()) {
        zeroize(confirm);
        Ok(())
    } else {
        zeroize(password);
        zeroize(confirm);
        Err("passwords do not match".to_owned())
    }
}

/// The call that encrypts a password, which it reads from standard input.
pub fn encrypt_command(name: &str, cred_file: &str) -> (r: Invocation)
    ensures
        r@ == plain_call(
            "systemd-creds"@,
            seq!["encrypt"@, "--name="@ + name@, "-"@, cred_file@],
        ),
{
    let option = join2("--name=", name);
    let r = Invocation::new("systemd-creds").arg("encrypt").arg(option.as_str()).arg("-").arg(
        cred_file,
    );
    assert(r@.args =~= seq!["encrypt"@, "--name="@ + name@, "-"@, cred_file@]);
    r
}

// ---------------------------------------------------------------------------
// The course of a registration
// ---------------------------------------------------------------------------

/// A step of a registration.
#[derive(Debug, Clone, Copy, PartialEq, Eq, Structural)]
pub enum SetupStep {
    /// Find the user's account.
    LookUpUser,
    /// Find the database's path.
    FindDatabase,
    /// Make sure that it is a file.
    CheckDatabase,
    /// Find the key file's path, if there is one.
    FindKeyfile,
    /// Ask for the password.
    AskPassword,
    /// Ask for it again.
    AskAgain,
    /// Compare the two.
    Compare,
    /// Create the user's directory.
    MakeStore,
    /// Close the store to others.
    ProtectStore,
    /// Close the user's directory to others.
    ProtectDir,
    /// Encrypt the password into the directory.
    Encrypt,
    /// Overwrite the password.
    Scrub,
    /// Write down what was registered.
    WriteConf,
    /// Close that file to others.
    ProtectConf,
    /// Close the encrypted password to others.
    ProtectCred,
    /// The database is registered.
    Registered,
    /// The registration failed.
    Failed,
}

/// The steps of a registration that succeeds, in order.
pub open spec fn setup_way() -> Seq<SetupStep> {
    seq![
        SetupStep::LookUpUser,
        SetupStep::FindDatabase,
        SetupStep::CheckDatabase,
        SetupStep::FindKeyfile,
        SetupStep::AskPassword,
        SetupStep::AskAgain,
        SetupStep::Compare,
        SetupStep::MakeStore,
        SetupStep::ProtectStore,
        SetupStep::ProtectDir,
        SetupStep::Encrypt,
        SetupStep::Scrub,
        SetupStep::WriteConf,
        SetupStep::ProtectConf,
        SetupStep::ProtectCred,
        SetupStep::Registered,
    ]
}

/// The place of a step on that way.
pub open spec fn setup_place(step: SetupStep) -> int {
    match step {
        SetupStep::LookUpUser => 0,
        SetupStep::FindDatabase => 1,
        SetupStep::CheckDatabase => 2,
        SetupStep::FindKeyfile => 3,
        SetupStep::AskPassword => 4,
        SetupStep::AskAgain => 5,
        SetupStep::Compare => 6,
        SetupStep::MakeStore => 7,
        SetupStep::ProtectStore => 8,
        SetupStep::ProtectDir => 9,
        SetupStep::Encrypt => 10,
        SetupStep::Scrub => 11,
        SetupStep::WriteConf => 12,
        SetupStep::ProtectConf => 13,
        SetupStep::ProtectCred => 14,
        SetupStep::Registered => 15,
        SetupStep::Failed => 15,
    }
}

/// The step after `step`: any that fails ends the registration.
pub open spec fn setup_next(step: SetupStep, ok: bool) -> SetupStep {
    if step == SetupStep::Registered || step == SetupStep::Failed {
        step
    } else if ok {
        setup_way()[setup_place(step) + 1]
    } else {
        SetupStep::Failed
    }
}

/// The step after `step`.
pub fn run(step: SetupStep, ok: bool) -> (r: SetupStep)
    ensures
        r == setup_next(step, ok),
{
    if !ok {
        return match step {
            SetupStep::Registered => SetupStep::Registered,
            _ => SetupStep::Failed,
        };
    }
    match step {
        SetupStep::LookUpUser => SetupStep::FindDatabase,
        SetupStep::FindDatabase => SetupStep::CheckDatabase,
        SetupStep::CheckDatabase => SetupStep::FindKeyfile,
        SetupStep::FindKeyfile => SetupStep::AskPassword,
        SetupStep::AskPassword => SetupStep::AskAgain,
        SetupStep::AskAgain => SetupStep::Compare,
        SetupStep::Compare => SetupStep::MakeStore,
        SetupStep::MakeStore => SetupStep::ProtectStore,
        SetupStep::ProtectStore => SetupStep::ProtectDir,
        SetupStep::ProtectDir => SetupStep::Encrypt,
        SetupStep::Encrypt => SetupStep::Scrub,
        SetupStep::Scrub => SetupStep::WriteConf,
        SetupStep::WriteConf => SetupStep::ProtectConf,
        SetupStep::ProtectConf => SetupStep::ProtectCred,
        SetupStep::ProtectCred => SetupStep::Registered,
        SetupStep::Registered => SetupStep::Registered,
        SetupStep::Failed => SetupStep::Failed,
    }
}

/// Where a registration stands after steps with these results.
pub open spec fn setup_after(results: Seq<bool>) -> SetupStep
    decreases results.len(),
{
    if results.len() == 0 {
        SetupStep::LookUpUser
    } else {
        setup_next(setup_after(results.drop_last()), results.last())
    }
}

/// A registration goes its way step by step, and each step is reached only
/// where all before it succeeded. So nothing is written before the password
/// was confirmed, and what is written down names an encrypted password that
/// is there.
pub proof fn a_registration_goes_its_way(results: Seq<bool>)
    ensures
        setup_after(results) != SetupStep::Failed ==> {
            &&& results.len() >= setup_place(setup_after(results))
            &&& setup_after(results) != SetupStep::Registered ==> results.len() == setup_place(
                setup_after(results),
            )
            &&& forall|i: int|
                0 <= i < setup_place(setup_after(results)) ==> #[trigger] results[i]
        },
    decreases results.len(),
{
    if results.len() > 0 {
        let before = results.drop_last();
        a_registration_goes_its_way(before);
        if setup_after(results) != SetupStep::Failed {
            assert forall|i: int|
                0 <= i < setup_place(setup_after(results)) implies #[trigger] results[i] by {
                if i < before.len() {
                    assert(results[i] == before[i]);
                }
            }
        }
    }
}

// ---------------------------------------------------------------------------
// What is said
// ---------------------------------------------------------------------------

/// What is said of a user who does not exist.
pub fn unknown_user_text(user: &str) -> (r: String)
    ensures
        r@ == "unknown user '"@ + user@ + "'"@,
{
    join3("unknown user '", user, "'")
}

/// What is said of a path that cannot be found.
pub fn path_error_text(what: &str, path: &str, error: &str) -> (r: String)
    ensures
        r@ == what@ + " '"@ + path@ + "': "@ + error@,
{
    let mut s = join3(what, " '", path);
    s.append("': ");
    s.append(error);
    s
}

/// What is said of a database that is not a file.
pub fn not_a_file_text(path: &str) -> (r: String)
    ensures
        r@ == "'"@ + path@ + "' is not a file"@,
{
    join3("'", path, "' is not a file")
}

/// The prompt for a database's password.
pub fn password_prompt(database: &str) -> (r: String)
    ensures
        r@ == "Password for "@ + database@ + ": "@,
{
    join3("Password for ", database, ": ")
}

/// The prompt for the password's repetition.
pub const CONFIRM_PROMPT: &'static str = "Type the password again: ";

/// What is said where the password could not be encrypted.
pub const ENCRYPT_ERROR: &'static str = "systemd-creds encrypt failed";

/// What is said of a database that was registered.
pub fn registered_text(database: &str, uid: u32) -> (r: String)
    ensures
        r@ == "registered "@ + database@ + " for uid "@ + decimal(uid as nat)
            + "; cce-keyring-unlockd will unlock it at login"@,
{
    let mut s = join3("registered ", database, " for uid ");
    s.append(decimal_text(uid as u64).as_str());
    s.append("; cce-keyring-unlockd will unlock it at login");
    s
}

// ---------------------------------------------------------------------------
// Laws
// ---------------------------------------------------------------------------

/// A registration is for root, with a user, a database and perhaps a key file,
/// each taken from its place; anything else is refused with a reason.
pub proof fn what_a_registration_needs(euid: u32, args: Seq<Seq<char>>)
    ensures
        setup_args(euid, args) is Ok <==> euid == 0 && (args.len() == 3 || args.len() == 4),
        setup_args(euid, args) matches Ok(a) ==> {
            &&& a.user == args[1] && a.database == args[2]
            &&& args.len() == 3 ==> a.keyfile is None
            &&& args.len() == 4 ==> a.keyfile == Some(args[3])
        },
        euid != 0 ==> setup_args(euid, args) == Err::<SetupArgsView, Seq<char>>(
            "must run as root (sudo)"@,
        ),
        euid == 0 && setup_args(euid, args) is Err ==> setup_args(euid, args) == Err::<
            SetupArgsView,
            Seq<char>,
        >("usage: "@ + args[0] + " <user> <database.kdbx> [keyfile]"@),
{
}

/// Of a typed line only ends of line are cut off, at its end, and all of them.
pub proof fn what_is_cut_off_a_line(s: Seq<char>)
    ensures
        ({
            let p = without_line_end(s);
            &&& p.len() <= s.len() && s.take(p.len() as int) == p
            &&& p.len() > 0 ==> p.last() != '\n' && p.last() != '\r'
            &&& forall|k: int| p.len() <= k < s.len() ==> #[trigger] s[k] == '\n' || s[k] == '\r'
        }),
    decreases s.len(),
{
    let p = without_line_end(s);
    if s.len() > 0 && (s.last() == '\n' || s.last() == '\r') {
        let t = s.drop_last();
        what_is_cut_off_a_line(t);
        assert(t.take(p.len() as int) =~= s.take(p.len() as int));
        assert forall|k: int| p.len() <= k < s.len() implies #[trigger] s[k] == '\n' || s[k]
            == '\r' by {
            if k < t.len() {
                assert(t[k] == s[k]);
            }
        }
    } else {
        assert(s.take(s.len() as int) =~= s);
    }
}

/// The way of a registration on which nothing fails: every step, in order.
pub proof fn the_way_of_a_registration(results: Seq<bool>)
    requires
        forall|i: int| 0 <= i < results.len() ==> #[trigger] results[i],
    ensures
        ({
            let n = results.len();
            let step = setup_after(results);
            &&& n == 0 ==> step is LookUpUser
            &&& n == 1 ==> step is FindDatabase
            &&& n == 2 ==> step is CheckDatabase
            &&& n == 3 ==> step is FindKeyfile
            &&& n == 4 ==> step is AskPassword
            &&& n == 5 ==> step is AskAgain
            &&& n == 6 ==> step is Compare
            &&& n == 7 ==> step is MakeStore
            &&& n == 8 ==> step is ProtectStore
            &&& n == 9 ==> step is ProtectDir
            &&& n == 10 ==> step is Encrypt
            &&& n == 11 ==> step is Scrub
            &&& n == 12 ==> step is WriteConf
            &&& n == 13 ==> step is ProtectConf
            &&& n == 14 ==> step is ProtectCred
            &&& n >= 15 ==> step is Registered
        }),
    decreases results.len(),
{
    if results.len() > 0 {
        let before = results.drop_last();
        assert forall|i: int| 0 <= i < before.len() implies #[trigger] before[i] by {
            assert(before[i] == results[i]);
        }
        assert(results[results.len() - 1]);
        the_way_of_a_registration(before);
    }
}

/// A step that fails ends the registration, and a registration that ended
/// stays as it is.
pub proof fn a_failed_step_ends_the_registration(step: SetupStep, ok: bool)
    ensures
        !(step is Registered) ==> setup_next(step, false) is Failed,
        step is Registered ==> setup_next(step, ok) is Registered,
        step is Failed ==> setup_next(step, ok) is Failed,
        setup_next(step, true) is Failed ==> step is Failed,
{
}

} // verus!
