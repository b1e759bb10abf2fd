//! The databases registered for unlocking at login: where they are written
//! down, what is written, and how it is read.
use vstd::prelude::*;

use crate::number::{decimal, decimal_text};
use crate::path::{
    extension_is, file_stem, has_extension, join_path, joined, stem_of, DirFile,
};
use crate::session::{ascii_alphanumeric, is_ascii_alphanumeric};
use crate::split::{lemma_lines_cons, lines, lines_of, one_line};
use crate::text::{chars_of, strip_prefix, texts};

verus! {

pub const SOCKET_PATH: &'static str = "/run/cce-keyring-unlock.sock";

pub const STORE_DIR: &'static str = "/etc/cce/keyring-unlock";

pub const KEEPASSXC_DBUS_NAME: &'static str = "org.keepassxc.KeePassXC.MainWindow";

pub const KEEPASSXC_DBUS_PATH: &'static str = "/keepassxc";

pub const KEEPASSXC_EXE: &'static str = "/usr/bin/keepassxc";

pub const SECRETS_DBUS_NAME: &'static str = "org.freedesktop.secrets";

pub const DEFAULT_COLLECTION_PATH: &'static str = "/org/freedesktop/secrets/aliases/default";

/// One registered database.
#[derive(Debug, Clone, PartialEq, Eq)]
pub struct DbEntry {
    pub name: String,
    pub database: String,
    pub keyfile: String,
    pub cred_path: String,
}

/// The view of a [`DbEntry`].
#[verifier::ext_equal]
pub struct DbEntryView {
    pub name: Seq<char>,
    pub database: Seq<char>,
    pub keyfile: Seq<char>,
    pub cred_path: Seq<char>,
}

impl View for DbEntry {
    type V = DbEntryView;

    open spec fn view(&self) -> DbEntryView {
        DbEntryView {
            name: self.name@,
            database: self.database@,
            keyfile: self.keyfile@,
            cred_path: self.cred_path@,
        }
    }
}

/// The views of a sequence of entries.
pub open spec fn entries_view(v: Seq<DbEntry>) -> Seq<DbEntryView> {
    Seq::new(v.len(), |i: int| v[i]@)
}

/// The directory of a user's registered databases.
pub open spec fn store_dir(uid: u32) -> Seq<char> {
    "/etc/cce/keyring-unlock/"@ + decimal(uid as nat)
}

proof fn lemma_store_dir(uid: u32)
    ensures
        joined(STORE_DIR@, decimal(uid as nat)) == store_dir(uid),
        store_dir(uid).len() > 0,
        store_dir(uid).last() != '/',
{
    reveal_strlit("/etc/cce/keyring-unlock");
    reveal_strlit("/etc/cce/keyring-unlock/");
    crate::number::decimal_reads_back(uid as nat);
    let d = decimal(uid as nat);
    assert(crate::number::is_digit(d[0]));
    assert(crate::number::is_digit(d[d.len() - 1]));
    assert("/etc/cce/keyring-unlock/"@ =~= STORE_DIR@ + seq!['/']);
    assert(STORE_DIR@.last() == 'k');
    assert(store_dir(uid).last() == d.last());
}

/// The directory of a user's registered databases.
pub fn store_dir_for(uid: u32) -> (r: String)
    ensures
        r@ == store_dir(uid),
{
    proof {
        lemma_store_dir(uid);
    }
    join_path(STORE_DIR, decimal_text(uid as u64).as_str())
}

// ---------------------------------------------------------------------------
// Reading
// ---------------------------------------------------------------------------

/// What the last line that starts with `key` holds after it; nothing where no
/// line does.
pub open spec fn conf_value(ls: Seq<Seq<char>>, key: Seq<char>) -> Seq<char>
    decreases ls.len(),
{
    if ls.len() == 0 {
        seq![]
    } else if key.is_prefix_of(ls.last()) {
        ls.last().skip(key.len() as int)
    } else {
        conf_value(ls.drop_last(), key)
    }
}

/// The database that a `.conf` file registers; none where it names no database
/// or no credential.
pub open spec fn conf_entry(dir: Seq<char>, name: Seq<char>, text: Seq<char>) -> Option<
    DbEntryView,
> {
    let ls = lines_of(text);
    let database = conf_value(ls, "database="@);
    let cred = conf_value(ls, "cred="@);
    if database.len() > 0 && cred.len() > 0 {
        Some(
            DbEntryView {
                name: stem_of(name),
                database,
                keyfile: conf_value(ls, "keyfile="@),
                cred_path: joined(dir, cred),
            },
        )
    } else {
        None
    }
}

/// The database that a directory entry registers.
pub open spec fn file_entry(dir: Seq<char>, f: DirFile) -> Option<DbEntryView> {
    match f.content {
        Some(text) => if extension_is(f.name@, "conf"@) {
            conf_entry(dir, f.name@, text@)
        } else {
            None
        },
        None => None,
    }
}

/// The databases of a directory, in the order of its entries.
pub open spec fn dir_entries(dir: Seq<char>, files: Seq<DirFile>) -> Seq<DbEntryView>
    decreases files.len(),
{
    if files.len() == 0 {
        seq![]
    } else {
        let before = dir_entries(dir, files.drop_last());
        match file_entry(dir, files.last()) {
            Some(e) => before.push(e),
            None => before,
        }
    }
}

proof fn lemma_conf_keys_differ(l: Seq<char>)
    ensures
        !("database="@.is_prefix_of(l) && "keyfile="@.is_prefix_of(l)),
        !("database="@.is_prefix_of(l) && "cred="@.is_prefix_of(l)),
        !("keyfile="@.is_prefix_of(l) && "cred="@.is_prefix_of(l)),
{
    reveal_strlit("database=");
    reveal_strlit("keyfile=");
    reveal_strlit("cred=");
    if "database="@.is_prefix_of(l) {
        assert("database="@[0] == l[0]);
    }
    if "keyfile="@.is_prefix_of(l) {
        assert("keyfile="@[0] == l[0]);
    }
    if "cred="@.is_prefix_of(l) {
        assert("cred="@[0] == l[0]);
    }
}

/// Reads the text of a `.conf` file.
pub fn parse_conf(dir: &str, name: &str, text: &str) -> (r: Option<DbEntry>)
    ensures
        match r {
            Some(e) => conf_entry(dir@, name@, text@) == Some(e@),
            None => conf_entry(dir@, name@, text@) is None,
        },
{
    let ls = lines(text);
    let ghost all = lines_of(text@);
    let mut database = String::new();
    let mut keyfile = String::new();
    let mut cred = String::new();
    let mut i: usize = 0;
    assert(all.take(0) =~= Seq::<Seq<char>>::empty());
    while i < ls.len()
        invariant
            all == texts(ls@),
            i <= ls@.len(),
            database@ == conf_value(all.take(i as int), "database="@),
            keyfile@ == conf_value(all.take(i as int), "keyfile="@),
            cred@ == conf_value(all.take(i as int), "cred="@),
        decreases ls.len() - i,
    {
        let line = ls[i].as_str();
        proof {
            assert(all.take(i + 1).drop_last() =~= all.take(i as int));
            assert(all.take(i + 1).last() == line@);
            lemma_conf_keys_differ(line@);
        }
        if let Some(v) = strip_prefix(line, "database=") {
            database = v.to_owned();
        } else if let Some(v) = strip_prefix(line, "keyfile=") {
            keyfile = v.to_owned();
        } else if let Some(v) = strip_prefix(line, "cred=") {
            cred = v.to_owned();
        }
        i = i + 1;
    }
    assert(all.take(all.len() as int) =~= all);
    if database.as_str().is_empty() || cred.as_str().is_empty() {
        None
    } else {
        Some(
            DbEntry {
                name: file_stem(name),
                database,
                keyfile,
                cred_path: join_path(dir, cred.as_str()),
            },
        )
    }
}

/// The databases registered for a user, from the files of the user's
/// directory; none where there is no such directory.
pub fn load_entries(uid: u32, files: &Vec<DirFile>) -> (r: Vec<DbEntry>)
    ensures
        entries_view(r@) == dir_entries(store_dir(uid), files@),
{
    let dir = store_dir_for(uid);
    let mut out: Vec<DbEntry> = Vec::new();
    let mut i: usize = 0;
    assert(files@.take(0) =~= Seq::<DirFile>::empty());
    assert(entries_view(out@) =~= dir_entries(dir@, files@.take(0)));
    while i < files.len()
        invariant
            i <= files@.len(),
            entries_view(out@) == dir_entries(dir@, files@.take(i as int)),
        decreases files.len() - i,
    {
        let ghost before = out@;
        proof {
            assert(files@.take(i + 1).drop_last() =~= files@.take(i as int));
            assert(files@.take(i + 1).last() == files@[i as int]);
        }
        if has_extension(files[i].name.as_str(), "conf") {
            if let Some(text) = &files[i].content {
                if let Some(e) = parse_conf(dir.as_str(), files[i].name.as_str(), text.as_str()) {
                    let ghost v = e@;
                    out.push(e);
                    assert(entries_view(out@) =~= entries_view(before).push(v));
                }
            }
        }
        i = i + 1;
    }
    assert(files@.take(files@.len() as int) =~= files@);
    out
}

// ---------------------------------------------------------------------------
// Writing
// ---------------------------------------------------------------------------

/// A database's name as part of file names: everything but ASCII letters,
/// digits, `-` and `_` becomes `_`.
pub open spec fn safe_char(c: char) -> char {
    if ascii_alphanumeric(c) || c == '-' || c == '_' {
        c
    } else {
        '_'
    }
}

/// The name under which a database is registered, from its file stem.
pub open spec fn safe_name(stem: Seq<char>) -> Seq<char> {
    stem.map_values(|c: char| safe_char(c))
}

/// The name under which a database is registered; a path without a file name
/// gives `database`.
pub fn registered_name(stem: Option<&str>) -> (r: String)
    ensures
        r@ == (match stem {
            Some(s) => safe_name(s@),
            None => safe_name("database"@),
        }),
{
    let stem = match stem {
        Some(s) => s,
        None => "database",
    };
    let cs = chars_of(stem);
    let mut out = String::new();
    let mut i: usize = 0;
    proof {
        reveal_strlit("_");
        assert("_"@ =~= seq!['_']);
    }
    assert(out@ =~= safe_name(stem@).take(0));
    while i < cs.len()
        invariant
            cs@ == stem@,
            "_"@ == seq!['_'],
            i <= cs@.len(),
            out@ == safe_name(stem@).take(i as int),
        decreases cs.len() - i,
    {
        let c = cs[i];
        if is_ascii_alphanumeric(c) || c == '-' || c == '_' {
            let one = stem.substring_char(i, i + 1);
            assert(one@ =~= seq![c]);
            out.append(one);
        } else {
            out.append("_");
        }
        assert(safe_name(stem@).take(i + 1) =~= safe_name(stem@).take(i as int) + seq![
            safe_char(c),
        ]);
        i = i + 1;
    }
    assert(safe_name(stem@).take(cs@.len() as int) =~= safe_name(stem@));
    out
}

/// The file name of a registered database's credential.
pub open spec fn cred_name(name: Seq<char>) -> Seq<char> {
    name + ".cred"@
}

/// The file name of a registered database's description.
pub open spec fn conf_name(name: Seq<char>) -> Seq<char> {
    name + ".conf"@
}

/// The description of a registered database.
pub open spec fn conf_of(database: Seq<char>, keyfile: Seq<char>, name: Seq<char>) -> Seq<char> {
    "database="@ + database + "\n"@ + "keyfile="@ + keyfile + "\n"@ + "cred="@ + cred_name(name)
        + "\n"@
}

/// The path of the credential in a user's directory.
pub fn cred_file(uid: u32, name: &str) -> (r: String)
    ensures
        r@ == joined(store_dir(uid), cred_name(name@)),
{
    let mut file = name.to_owned();
    file.append(".cred");
    join_path(store_dir_for(uid).as_str(), file.as_str())
}

/// The path of the description in a user's directory.
pub fn conf_file(uid: u32, name: &str) -> (r: String)
    ensures
        r@ == joined(store_dir(uid), conf_name(name@)),
{
    let mut file = name.to_owned();
    file.append(".conf");
    join_path(store_dir_for(uid).as_str(), file.as_str())
}

/// The description of a registered database.
pub fn conf_text(database: &str, keyfile: &str, name: &str) -> (r: String)
    ensures
        r@ == conf_of(database@, keyfile@, name@),
{
    let mut s = "database=".to_owned();
    s.append(database);
    s.append("\n");
    s.append("keyfile=");
    s.append(keyfile);
    s.append("\n");
    s.append("cred=");
    s.append(name);
    s.append(".cred");
    s.append("\n");
    assert(s@ =~= conf_of(database@, keyfile@, name@));
    s
}

proof fn lemma_safe_name(stem: Seq<char>)
    ensures
        safe_name(stem).len() == stem.len(),
        forall|i: int|
            0 <= i < stem.len() ==> {
                let c = #[trigger] safe_name(stem)[i];
                c != '/' && c != '\n' && c != '.'
            },
{
}

/// What is registered is what is loaded: the description written for a
/// database, under the name written for it, registers that database, that key
/// file and that credential. A path with a line break, or one that ends in a
/// carriage return, is the exception.
pub proof fn registration_reads_back(
    uid: u32,
    database: Seq<char>,
    keyfile: Seq<char>,
    stem: Seq<char>,
)
    requires
        database.len() > 0,
        one_line(database),
        one_line(keyfile),
        stem.len() > 0,
    ensures
        extension_is(conf_name(safe_name(stem)), "conf"@),
        conf_entry(
            store_dir(uid),
            conf_name(safe_name(stem)),
            conf_of(database, keyfile, safe_name(stem)),
        ) == Some(
            DbEntryView {
                name: safe_name(stem),
                database,
                keyfile,
                cred_path: store_dir(uid) + "/"@ + cred_name(safe_name(stem)),
            },
        ),
        joined(store_dir(uid), cred_name(safe_name(stem))) == store_dir(uid) + "/"@ + cred_name(
            safe_name(stem),
        ),
{
    let name = safe_name(stem);
    lemma_safe_name(stem);
    reveal_strlit("database=");
    reveal_strlit("keyfile=");
    reveal_strlit("cred=");
    reveal_strlit(".cred");
    reveal_strlit(".conf");
    reveal_strlit("conf");
    reveal_strlit("\n");
    reveal_strlit("/");
    let nl = seq!['\n'];
    assert("\n"@ =~= nl);
    assert("/"@ =~= seq!['/']);
    let l1 = "database="@ + database;
    let l2 = "keyfile="@ + keyfile;
    let l3 = "cred="@ + cred_name(name);
    let end = Seq::<char>::empty();
    assert(conf_of(database, keyfile, name) =~= l1 + nl + (l2 + nl + (l3 + nl + end)));
    lemma_prefixed_line("database="@, database);
    lemma_prefixed_line("keyfile="@, keyfile);
    assert(one_line(l3)) by {
        assert(l3.last() == 'd');
        if l3.contains('\n') {
            let k = choose|k: int| 0 <= k < l3.len() && l3[k] == '\n';
            if k >= 5 && k < 5 + name.len() {
                assert(l3[k] == name[k - 5]);
            }
        }
    }
    lemma_lines_cons(l3, end);
    lemma_lines_cons(l2, l3 + nl + end);
    lemma_lines_cons(l1, l2 + nl + (l3 + nl + end));
    assert(lines_of(end) =~= seq![]);
    let ls = lines_of(conf_of(database, keyfile, name));
    assert(ls =~= seq![l1, l2, l3]);
    assert(ls.drop_last() =~= seq![l1, l2]);
    assert(ls.drop_last().drop_last() =~= seq![l1]);
    assert("database="@.is_prefix_of(l1) && "keyfile="@.is_prefix_of(l2) && "cred="@.is_prefix_of(
        l3,
    ));
    lemma_conf_keys_differ(l1);
    lemma_conf_keys_differ(l2);
    lemma_conf_keys_differ(l3);
    assert(l1.skip(9) =~= database);
    assert(l2.skip(8) =~= keyfile);
    assert(l3.skip(5) =~= cred_name(name));
    assert(conf_value(ls, "cred="@) == cred_name(name));
    assert(conf_value(ls, "keyfile="@) == conf_value(seq![l1, l2], "keyfile="@));
    assert(conf_value(ls, "keyfile="@) == keyfile);
    assert(conf_value(ls, "database="@) == conf_value(seq![l1, l2], "database="@));
    assert(conf_value(seq![l1, l2], "database="@) == conf_value(seq![l1], "database="@));
    assert(conf_value(ls, "database="@) == database);
    assert(conf_name(name) =~= name + seq!['.'] + "conf"@);
    crate::path::named_with_extension(name, "conf"@);
    lemma_store_dir(uid);
    assert(cred_name(name)[0] == name[0]);
    assert(joined(store_dir(uid), cred_name(name)) =~= store_dir(uid) + "/"@ + cred_name(name));
}

/// What is registered is loaded, whatever else the directory holds: where a
/// file of it is the one that was written for a database, that database is
/// among those that are loaded.
pub proof fn a_registration_is_loaded(
    uid: u32,
    files: Seq<DirFile>,
    i: int,
    database: Seq<char>,
    keyfile: Seq<char>,
    stem: Seq<char>,
)
    requires
        database.len() > 0,
        one_line(database),
        one_line(keyfile),
        stem.len() > 0,
        0 <= i < files.len(),
        files[i].name@ == conf_name(safe_name(stem)),
        files[i].content matches Some(text) && text@ == conf_of(
            database,
            keyfile,
            safe_name(stem),
        ),
    ensures
        dir_entries(store_dir(uid), files).contains(
            DbEntryView {
                name: safe_name(stem),
                database,
                keyfile,
                cred_path: store_dir(uid) + "/"@ + cred_name(safe_name(stem)),
            },
        ),
{
    registration_reads_back(uid, database, keyfile, stem);
    lemma_entry_is_loaded(store_dir(uid), files, i);
}

proof fn lemma_entry_is_loaded(dir: Seq<char>, files: Seq<DirFile>, i: int)
    requires
        0 <= i < files.len(),
        file_entry(dir, files[i]) is Some,
    ensures
        dir_entries(dir, files).contains(file_entry(dir, files[i])->0),
    decreases files.len(),
{
    let before = dir_entries(dir, files.drop_last());
    let all = dir_entries(dir, files);
    let entry = file_entry(dir, files[i])->0;
    if i == files.len() - 1 {
        assert(all.last() == entry);
    } else {
        lemma_entry_is_loaded(dir, files.drop_last(), i);
        let k = choose|k: int| 0 <= k < before.len() && before[k] == entry;
        assert(all[k] == entry);
    }
}

proof fn lemma_prefixed_line(key: Seq<char>, value: Seq<char>)
    requires
        one_line(key),
        one_line(value),
        key.len() > 0,
    ensures
        one_line(key + value),
{
    let l = key + value;
    if l.contains('\n') {
        let k = choose|k: int| 0 <= k < l.len() && l[k] == '\n';
        if k < key.len() {
            assert(key[k] == '\n');
        } else {
            assert(value[k - key.len()] == '\n');
        }
    }
    if value.len() > 0 {
        assert(l.last() == value.last());
    } else {
        assert(l =~= key);
    }
}

// ---------------------------------------------------------------------------
// Secrets
// ---------------------------------------------------------------------------

/// `String::into_bytes`: the bytes of the text, in the memory that held it.
pub assume_specification[ String::into_bytes ](s: String) -> (r: Vec<u8>)
    ensures
        r@ == vstd::utf8::encode_utf8(s@),
;

/// `String::from_utf8`: the text whose bytes these are, in the memory that held
/// them, where they are the bytes of a text.
#[verifier::external_body]
fn text_of_bytes(bytes: Vec<u8>) -> (r: Option<String>)
    ensures
        r is Some <==> vstd::utf8::valid_utf8(bytes@),
        r matches Some(s) ==> s@ == vstd::utf8::decode_utf8(bytes@),
{
    String::from_utf8(bytes).ok()
}

/// `std::hint::black_box`, which hands back what it is given, and counts as a
/// use of it: writes to the bytes are not left out as writes to memory that
/// nobody reads. It is there for bytes that were overwritten.
#[verifier::external_body]
fn count_as_used(bytes: Vec<u8>) -> (r: Vec<u8>)
    requires
        forall|i: int| 0 <= i < bytes@.len() ==> bytes@[i] == 0,
    ensures
        r@ == bytes@,
{
    std::hint::black_box(bytes)
}

/// Overwrites every byte with zero.
pub fn scrub(bytes: &mut Vec<u8>)
    ensures
        final(bytes)@ == Seq::new(old(bytes)@.len(), |i: int| 0u8),
{
    let mut i: usize = 0;
    while i < bytes.len()
        invariant
            i <= bytes@.len(),
            bytes@.len() == old(bytes)@.len(),
            forall|k: int| 0 <= k < i ==> bytes@[k] == 0,
        decreases bytes.len() - i,
    {
        bytes.set(i, 0);
        i = i + 1;
    }
    assert(bytes@ =~= Seq::new(old(bytes)@.len(), |i: int| 0u8));
}

/// Best-effort scrub of secret text: its bytes are overwritten, and the text
/// is empty; it keeps its memory for what is written next. The contract says
/// only that it is empty: that the bytes become zero is said by [`scrub`], and
/// what memory holds after a text is gone by nothing.
pub fn zeroize(s: &mut String)
    ensures
        final(s)@.len() == 0,
{
    let mut secret = String::new();
    std::mem::swap(s, &mut secret);
    let mut bytes = secret.into_bytes();
    scrub(&mut bytes);
    let mut bytes = count_as_used(bytes);
    bytes.clear();
    if let Some(emptied) = text_of_bytes(bytes) {
        *s = emptied;
    }
}

// ---------------------------------------------------------------------------
// Laws
// ---------------------------------------------------------------------------

/// The store of a user is named by the user's id.
pub proof fn a_user_has_a_store(uid: u32)
    ensures
        store_dir(uid) == "/etc/cce/keyring-unlock/"@ + decimal(uid as nat),
{
}

/// What a description holds for a key is what its last line with that key
/// does, to the end of the line; nothing where no line has it.
pub proof fn the_last_line_counts(ls: Seq<Seq<char>>, key: Seq<char>)
    ensures
        (forall|i: int| 0 <= i < ls.len() ==> !key.is_prefix_of(#[trigger] ls[i])) ==> conf_value(
            ls,
            key,
        ).len() == 0,
        forall|i: int|
            0 <= i < ls.len() && key.is_prefix_of(#[trigger] ls[i]) && (forall|k: int|
                i < k < ls.len() ==> !key.is_prefix_of(#[trigger] ls[k])) ==> ls[i] == key
                + conf_value(ls, key),
    decreases ls.len(),
{
    if ls.len() > 0 {
        let before = ls.drop_last();
        the_last_line_counts(before, key);
        if forall|i: int| 0 <= i < ls.len() ==> !key.is_prefix_of(#[trigger] ls[i]) {
            assert(!key.is_prefix_of(ls[ls.len() - 1]));
            assert forall|i: int| 0 <= i < before.len() implies !key.is_prefix_of(
                #[trigger] before[i],
            ) by {
                assert(before[i] == ls[i]);
            }
        }
        assert forall|i: int|
            0 <= i < ls.len() && key.is_prefix_of(#[trigger] ls[i]) && (forall|k: int|
                i < k < ls.len() ==> !key.is_prefix_of(#[trigger] ls[k])) implies ls[i] == key
            + conf_value(ls, key) by {
            if i < before.len() {
                assert(!key.is_prefix_of(ls[ls.len() - 1]));
                assert(before[i] == ls[i]);
                assert forall|k: int| i < k < before.len() implies !key.is_prefix_of(
                    #[trigger] before[k],
                ) by {
                    assert(before[k] == ls[k]);
                }
            } else {
                assert(ls[i] =~= key + ls[i].skip(key.len() as int));
            }
        }
    }
}

/// A description registers a database exactly where it names one and a
/// credential; the key file may be missing. The entry is called like its file,
/// and its credential is in the same directory, unless its path is absolute.
pub proof fn what_a_description_registers(dir: Seq<char>, name: Seq<char>, text: Seq<char>)
    ensures
        ({
            let ls = lines_of(text);
            let database = conf_value(ls, "database="@);
            let keyfile = conf_value(ls, "keyfile="@);
            let cred = conf_value(ls, "cred="@);
            &&& conf_entry(dir, name, text) is Some <==> database.len() > 0 && cred.len() > 0
            &&& conf_entry(dir, name, text) matches Some(e) ==> {
                &&& e.database == database && e.keyfile == keyfile
                &&& e.name == stem_of(name) && e.cred_path == joined(dir, cred)
            }
        }),
{
}

/// Whether a directory entry is a readable `.conf` file that registers a
/// database.
pub open spec fn registers(dir: Seq<char>, f: DirFile) -> bool {
    &&& extension_is(f.name@, "conf"@)
    &&& f.content matches Some(text) && conf_entry(dir, f.name@, text@) is Some
}

/// Every registration is loaded: the databases of a directory are those of its
/// readable `.conf` files that register one, one for each, in their order.
pub proof fn every_registration_is_loaded(dir: Seq<char>, files: Seq<DirFile>)
    ensures
        dir_entries(dir, files) == files.filter(|f: DirFile| registers(dir, f)).map_values(
            |f: DirFile| conf_entry(dir, f.name@, f.content->0@)->0,
        ),
        forall|i: int|
            0 <= i < files.len() && registers(dir, #[trigger] files[i]) ==> dir_entries(
                dir,
                files,
            ).contains(conf_entry(dir, files[i].name@, files[i].content->0@)->0),
    decreases files.len(),
{
    reveal(Seq::filter);
    let keep = |f: DirFile| registers(dir, f);
    let of = |f: DirFile| conf_entry(dir, f.name@, f.content->0@)->0;
    let all = dir_entries(dir, files);
    if files.len() > 0 {
        let before = files.drop_last();
        every_registration_is_loaded(dir, before);
        if keep(files.last()) {
            assert(files.filter(keep) == before.filter(keep).push(files.last()));
            assert(files.filter(keep).map_values(of) =~= before.filter(keep).map_values(of).push(
                of(files.last()),
            ));
        }
    }
    assert(all =~= files.filter(keep).map_values(of));
    assert forall|i: int| 0 <= i < files.len() && registers(dir, #[trigger] files[i]) implies all.contains(
        of(files[i]),
    ) by {
        lemma_entry_is_loaded(dir, files, i);
    }
}

/// A registered name keeps letters, digits, `-` and `_` of ASCII, and has `_`
/// for each other character; so it is never a path of several names, hidden,
/// or broken over lines.
pub proof fn what_a_registered_name_keeps(stem: Seq<char>)
    ensures
        safe_name(stem).len() == stem.len(),
        forall|i: int|
            0 <= i < stem.len() ==> {
                let c = stem[i];
                let kept = '0' <= c <= '9' || 'A' <= c <= 'Z' || 'a' <= c <= 'z' || c == '-' || c
                    == '_';
                #[trigger] safe_name(stem)[i] == (if kept {
                    c
                } else {
                    '_'
                })
            },
{
}

/// The two files of a registration, and what the description says: three
/// lines, with the database, the key file and the credential's file name.
pub proof fn what_a_registration_writes(database: Seq<char>, keyfile: Seq<char>, name: Seq<char>)
    ensures
        cred_name(name) == name + ".cred"@,
        conf_name(name) == name + ".conf"@,
        conf_of(database, keyfile, name) == "database="@ + database + seq!['\n'] + "keyfile="@
            + keyfile + seq!['\n'] + "cred="@ + name + ".cred"@ + seq!['\n'],
{
    reveal_strlit("\n");
    assert("\n"@ =~= seq!['\n']);
    assert(conf_of(database, keyfile, name) =~= "database="@ + database + seq!['\n'] + "keyfile="@
        + keyfile + seq!['\n'] + "cred="@ + name + ".cred"@ + seq!['\n']);
}

/// Each entry is taken as it is, in order.
pub proof fn each_entry_is_taken(v: Seq<DbEntry>)
    ensures
        entries_view(v).len() == v.len(),
        forall|i: int| 0 <= i < v.len() ==> #[trigger] entries_view(v)[i] == v[i]@,
{
}

} // verus!
