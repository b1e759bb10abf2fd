//! File names and paths as text.
use vstd::prelude::*;

use crate::split::{find, find_from, lemma_find};
use crate::text::{chars_of, same, texts};

verus! {

/// An entry of a directory: its file name, and its text where it could be read.
pub struct DirFile {
    pub name: String,
    pub content: Option<String>,
}

/// `name` taken relative to `dir`: an absolute `name` replaces `dir`.
pub open spec fn joined(dir: Seq<char>, name: Seq<char>) -> Seq<char> {
    if name.len() > 0 && name[0] == '/' {
        name
    } else if dir.len() == 0 || dir.last() == '/' {
        dir + name
    } else {
        dir + seq!['/'] + name
    }
}

/// The path of `name` in `dir`.
pub fn join_path(dir: &str, name: &str) -> (r: String)
    ensures
        r@ == joined(dir@, name@),
{
    let ds = chars_of(dir);
    let ns = chars_of(name);
    if ns.len() > 0 && ns[0] == '/' {
        name.to_owned()
    } else {
        let mut r = dir.to_owned();
        if ds.len() > 0 && ds[ds.len() - 1] != '/' {
            proof {
                reveal_strlit("/");
                assert("/"@ =~= seq!['/']);
            }
            r.append("/");
        }
        r.append(name);
        r
    }
}

/// The position of the last `.` in `s`, or -1 when there is none.
pub open spec fn last_dot(s: Seq<char>) -> int
    decreases s.len(),
{
    if s.len() == 0 {
        -1
    } else if s.last() == '.' {
        s.len() - 1
    } else {
        last_dot(s.drop_last())
    }
}

/// Where a file name divides into stem and extension: at its last `.`, unless
/// that is its first character or the name is `..`.
pub open spec fn extension_dot(name: Seq<char>) -> Option<int> {
    if last_dot(name) <= 0 || name == seq!['.', '.'] {
        None
    } else {
        Some(last_dot(name))
    }
}

/// Whether the file name has the extension `ext`.
pub open spec fn extension_is(name: Seq<char>, ext: Seq<char>) -> bool {
    extension_dot(name) matches Some(i) && name.skip(i + 1) == ext
}

/// A file name without its extension.
pub open spec fn stem_of(name: Seq<char>) -> Seq<char> {
    match extension_dot(name) {
        Some(i) => name.take(i),
        None => name,
    }
}

proof fn lemma_last_dot(s: Seq<char>)
    ensures
        -1 <= last_dot(s) < s.len(),
        last_dot(s) >= 0 ==> s[last_dot(s)] == '.',
        forall|k: int| last_dot(s) < k < s.len() ==> s[k] != '.',
    decreases s.len(),
{
    if s.len() > 0 && s.last() != '.' {
        let t = s.drop_last();
        lemma_last_dot(t);
        assert forall|k: int| last_dot(s) < k < s.len() implies s[k] != '.' by {
            if k < t.len() {
                assert(t[k] == s[k]);
            }
        }
    }
}

fn find_extension_dot(name: &str) -> (r: Option<usize>)
    ensures
        r is Some <==> extension_dot(name@) is Some,
        r matches Some(i) ==> i < name@.len() && extension_dot(name@) == Some(i as int),
{
    let cs = chars_of(name);
    let n: usize = cs.len();
    proof {
        lemma_last_dot(name@);
    }
    if n == 2 && cs[0] == '.' && cs[1] == '.' {
        assert(name@ =~= seq!['.', '.']);
        return None;
    }
    assert(name@ != seq!['.', '.']) by {
        if name@ == seq!['.', '.'] {
            assert(cs@[0] == '.' && cs@[1] == '.');
        }
    }
    let mut i: usize = n;
    while i > 0
        invariant
            cs@ == name@,
            i <= n,
            n == cs@.len(),
            name@ != seq!['.', '.'],
            forall|k: int| i <= k < n ==> cs@[k] != '.',
        decreases i,
    {
        i = i - 1;
        if cs[i] == '.' {
            proof {
                lemma_last_dot(name@);
            }
            return if i == 0 {
                None
            } else {
                Some(i)
            };
        }
    }
    None
}

/// Whether the file name has the extension `ext`.
pub fn has_extension(name: &str, ext: &str) -> (r: bool)
    ensures
        r == extension_is(name@, ext@),
{
    match find_extension_dot(name) {
        Some(i) => {
            let n = name.unicode_len();
            let tail = name.substring_char(i + 1, n);
            assert(tail@ =~= name@.skip(i + 1));
            crate::text::same(tail, ext)
        },
        None => false,
    }
}

/// The file name without its extension.
pub fn file_stem(name: &str) -> (r: String)
    ensures
        r@ == stem_of(name@),
{
    match find_extension_dot(name) {
        Some(i) => {
            let head = name.substring_char(0, i).to_owned();
            assert(head@ =~= name@.take(i as int));
            head
        },
        None => name.to_owned(),
    }
}

/// A name made of a stem, a dot and an extension without a dot divides into
/// these two, where the stem is not empty.
pub proof fn named_with_extension(stem: Seq<char>, ext: Seq<char>)
    requires
        stem.len() > 0,
        ext.len() > 0,
        !ext.contains('.'),
    ensures
        extension_is(stem + seq!['.'] + ext, ext),
        stem_of(stem + seq!['.'] + ext) == stem,
{
    let name = stem + seq!['.'] + ext;
    lemma_last_dot(name);
    let i = last_dot(name);
    let at = stem.len() as int;
    assert(name[at] == '.');
    assert forall|k: int| at < k < name.len() implies name[k] != '.' by {
        assert(name[k] == ext[k - at - 1]);
        assert(ext.contains(ext[k - at - 1]));
    }
    assert(i == at);
    assert(name.len() >= 3);
    assert(name.skip(at + 1) =~= ext);
    assert(name.take(at) =~= stem);
}

/// The names along a path: what stands between its slashes, without the empty
/// ones and without `.`.
pub open spec fn names_of(path: Seq<char>) -> Seq<Seq<char>>
    decreases path.len(),
    via names_of_decreases
{
    let i = find(path, '/');
    if i >= path.len() {
        kept_name(path)
    } else {
        kept_name(path.take(i)) + names_of(path.skip(i + 1))
    }
}

#[via_fn]
proof fn names_of_decreases(path: Seq<char>) {
    lemma_find(path, '/');
}

/// A piece of a path, where it counts as a name.
pub open spec fn kept_name(piece: Seq<char>) -> Seq<Seq<char>> {
    if piece.len() == 0 || piece == "."@ {
        seq![]
    } else {
        seq![piece]
    }
}

/// The names along a path.
pub fn path_names(path: &str) -> (r: Vec<String>)
    ensures
        texts(r@) == names_of(path@),
{
    let cs = chars_of(path);
    let mut out: Vec<String> = Vec::new();
    let mut from: usize = 0;
    assert(path@.skip(0) =~= path@);
    assert(texts(out@) + names_of(path@) =~= names_of(path@));
    loop
        invariant
            cs@ == path@,
            from <= cs@.len(),
            texts(out@) + names_of(path@.skip(from as int)) == names_of(path@),
        decreases cs@.len() - from,
    {
        let i = find_from(&cs, from, '/');
        let ghost rest = path@.skip(from as int);
        let piece = path.substring_char(from, i).to_owned();
        assert(piece@ =~= rest.take(i - from));
        let ghost before = out@;
        let kept = !(piece.as_str().is_empty() || same(piece.as_str(), "."));
        let ghost name = kept_name(piece@);
        if kept {
            out.push(piece);
        }
        assert(texts(out@) =~= texts(before) + name);
        if i == cs.len() {
            assert(rest.take(i - from) =~= rest);
            return out;
        }
        proof {
            assert(rest.skip(i - from + 1) =~= path@.skip(i + 1));
            let tail = names_of(path@.skip(i + 1));
            assert(texts(before) + (name + tail) =~= texts(out@) + tail);
        }
        from = i + 1;
    }
}

/// Whether two absolute paths are the same, name by name.
pub open spec fn same_absolute(a: Seq<char>, b: Seq<char>) -> bool {
    &&& a.len() > 0 && a[0] == '/'
    &&& b.len() > 0 && b[0] == '/'
    &&& names_of(a) == names_of(b)
}

/// Whether two absolute paths are the same, name by name.
pub fn same_absolute_path(a: &str, b: &str) -> (r: bool)
    ensures
        r == same_absolute(a@, b@),
{
    let ac = chars_of(a);
    let bc = chars_of(b);
    if ac.len() == 0 || bc.len() == 0 || ac[0] != '/' || bc[0] != '/' {
        return false;
    }
    let an = path_names(a);
    let bn = path_names(b);
    if an.len() != bn.len() {
        assert(texts(an@).len() != texts(bn@).len());
        return false;
    }
    let mut i: usize = 0;
    while i < an.len()
        invariant
            i <= an@.len(),
            an@.len() == bn@.len(),
            texts(an@) == names_of(a@),
            texts(bn@) == names_of(b@),
            forall|k: int| 0 <= k < i ==> texts(an@)[k] == texts(bn@)[k],
        decreases an.len() - i,
    {
        if !same(an[i].as_str(), bn[i].as_str()) {
            assert(texts(an@)[i as int] != texts(bn@)[i as int]);
            return false;
        }
        i = i + 1;
    }
    assert(texts(an@) =~= texts(bn@));
    true
}

/// The file name at the end of a path: none for a root, or for `..`.
pub open spec fn file_name_of(path: Seq<char>) -> Option<Seq<char>> {
    let names = names_of(path);
    if names.len() == 0 || names.last() == ".."@ {
        None
    } else {
        Some(names.last())
    }
}

/// The file name at the end of a path.
pub fn file_name(path: &str) -> (r: Option<String>)
    ensures
        match r {
            Some(name) => file_name_of(path@) == Some(name@),
            None => file_name_of(path@) is None,
        },
{
    let names = path_names(path);
    let n: usize = names.len();
    if n == 0 {
        assert(names_of(path@).len() == 0);
        return None;
    }
    assert(names_of(path@).last() == names@[n - 1]@);
    if same(names[n - 1].as_str(), "..") {
        None
    } else {
        Some(names[n - 1].clone())
    }
}

// ---------------------------------------------------------------------------
// Laws
// ---------------------------------------------------------------------------

/// A name in a directory stands behind it, with one slash between the two; an
/// absolute one stands alone.
pub proof fn where_a_name_stands(dir: Seq<char>, name: Seq<char>)
    ensures
        name.len() > 0 && name[0] == '/' ==> joined(dir, name) == name,
        !(name.len() > 0 && name[0] == '/') ==> {
            &&& dir.len() == 0 ==> joined(dir, name) == name
            &&& dir.len() > 0 && dir[dir.len() - 1] == '/' ==> joined(dir, name) == dir + name
            &&& dir.len() > 0 && dir[dir.len() - 1] != '/' ==> joined(dir, name) == dir + seq!['/']
                + name
        },
{
    if dir.len() == 0 {
        assert(dir + name =~= name);
    }
}

/// A file has an extension exactly where its name is something, a dot and the
/// extension, which has no dot in it.
pub proof fn what_an_extension_is(name: Seq<char>, ext: Seq<char>)
    requires
        name != seq!['.', '.'],
    ensures
        extension_is(name, ext) <==> exists|stem: Seq<char>|
            stem.len() > 0 && !ext.contains('.') && name == #[trigger] (stem + seq!['.'] + ext),
{
    lemma_last_dot(name);
    let i = last_dot(name);
    if extension_is(name, ext) {
        let stem = name.take(i);
        if ext.contains('.') {
            let k = choose|k: int| 0 <= k < ext.len() && ext[k] == '.';
            assert(name[i + 1 + k] == ext[k]);
        }
        assert(name =~= stem + seq!['.'] + ext);
    }
    if exists|stem: Seq<char>|
        stem.len() > 0 && !ext.contains('.') && name == #[trigger] (stem + seq!['.'] + ext) {
        let stem = choose|stem: Seq<char>|
            stem.len() > 0 && !ext.contains('.') && name == #[trigger] (stem + seq!['.'] + ext);
        let at = stem.len() as int;
        assert(name[at] == '.');
        assert forall|k: int| at < k < name.len() implies name[k] != '.' by {
            assert(name[k] == ext[k - at - 1]);
            assert(ext.contains(ext[k - at - 1]));
        }
        assert(i == at);
        assert(name.skip(at + 1) =~= ext);
    }
}

/// A name without a dot, or with one at its start alone, is its own stem, and
/// has no extension.
pub proof fn a_name_without_extension(name: Seq<char>, ext: Seq<char>)
    requires
        forall|k: int| 0 < k < name.len() ==> #[trigger] name[k] != '.',
    ensures
        stem_of(name) == name,
        !extension_is(name, ext),
{
    lemma_last_dot(name);
    if last_dot(name) > 0 {
        assert(name[last_dot(name)] != '.');
    }
}

/// Slashes part names: those of a path are those before any slash of it, and
/// then those after it. A piece is a name unless it is empty or a dot.
pub proof fn slashes_part_names(a: Seq<char>, b: Seq<char>)
    ensures
        names_of(a + seq!['/'] + b) == names_of(a) + names_of(b),
        !a.contains('/') ==> names_of(a) == (if a.len() == 0 || a == seq!['.'] {
            Seq::<Seq<char>>::empty()
        } else {
            seq![a]
        }),
    decreases a.len(),
{
    reveal_strlit(".");
    assert("."@ =~= seq!['.']);
    let path = a + seq!['/'] + b;
    lemma_find(a, '/');
    let i = find(a, '/');
    assert forall|k: int| 0 <= k < i implies path[k] != '/' by {
        assert(path[k] == a[k]);
    }
    assert(path[i] == '/') by {
        if i < a.len() {
            assert(path[i] == a[i]);
        }
    }
    crate::split::lemma_find_unique(path, '/', i);
    assert(path.take(i) =~= a.take(i));
    if i >= a.len() {
        assert(a.take(i) =~= a);
        assert(path.skip(i + 1) =~= b);
    } else {
        let t = a.skip(i + 1);
        slashes_part_names(t, b);
        assert(path.skip(i + 1) =~= t + seq!['/'] + b);
        assert(kept_name(a.take(i)) + (names_of(t) + names_of(b)) =~= kept_name(a.take(i))
            + names_of(t) + names_of(b));
    }
}

/// The file at the end of a path is the one that was named there.
pub proof fn a_file_is_found_again(dir: Seq<char>, name: Seq<char>)
    requires
        !name.contains('/'),
        name.len() > 0,
        name != seq!['.'],
    ensures
        name != seq!['.', '.'] ==> file_name_of(dir + seq!['/'] + name) == Some(name),
        name == seq!['.', '.'] ==> file_name_of(dir + seq!['/'] + name) is None,
        name != seq!['.', '.'] ==> file_name_of(name) == Some(name),
        file_name_of(dir + seq!['/']) == file_name_of(dir),
{
    reveal_strlit("..");
    assert(".."@ =~= seq!['.', '.']);
    slashes_part_names(dir, name);
    slashes_part_names(name, name);
    let none = Seq::<char>::empty();
    slashes_part_names(dir, none);
    slashes_part_names(none, none);
    assert(dir + seq!['/'] + none =~= dir + seq!['/']);
    assert(names_of(dir) + names_of(none) =~= names_of(dir));
    assert((names_of(dir) + names_of(name)).last() == name);
}

/// Two absolute paths are the same where their names are: slashes more and
/// dots between them do not count. No path is the same as a relative one.
pub proof fn when_paths_are_the_same(a: Seq<char>, b: Seq<char>)
    ensures
        same_absolute(a, b) ==> a[0] == '/' && b[0] == '/' && names_of(a) == names_of(b),
        same_absolute(a, b) == same_absolute(b, a),
        a.len() > 0 && a[0] == '/' ==> same_absolute(a, a) && same_absolute(a, a + seq!['/'])
            && same_absolute(a, seq!['/'] + a),
{
    let none = Seq::<char>::empty();
    slashes_part_names(a, none);
    slashes_part_names(none, a);
    slashes_part_names(none, none);
    assert(a + seq!['/'] + none =~= a + seq!['/']);
    assert(none + seq!['/'] + a =~= seq!['/'] + a);
    assert(names_of(a) + names_of(none) =~= names_of(a));
    assert(names_of(none) + names_of(a) =~= names_of(a));
}

/// The parent directory has no extension: its name is not divided.
pub proof fn the_parent_is_not_divided(name: Seq<char>, ext: Seq<char>)
    requires
        name.len() == 2,
        name[0] == '.' && name[1] == '.',
    ensures
        stem_of(name) == name,
        !extension_is(name, ext),
{
    assert(name =~= seq!['.', '.']);
}

} // verus!
