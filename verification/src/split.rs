//! Taking text apart: fields at a separator, lines, words.
use vstd::prelude::*;

use crate::text::{chars_of, is_white_space, texts, white_space};

verus! {

/// The position of the first `c` in `s`, or `s.len()` when there is none.
pub open spec fn find(s: Seq<char>, c: char) -> int
    decreases s.len(),
{
    if s.len() == 0 || s[0] == c {
        0
    } else {
        1 + find(s.skip(1), c)
    }
}

/// What `find` is, without recursion.
pub proof fn lemma_find(s: Seq<char>, c: char)
    ensures
        0 <= find(s, c) <= s.len(),
        find(s, c) < s.len() ==> s[find(s, c)] == c,
        forall|k: int| 0 <= k < find(s, c) ==> s[k] != c,
        find(s, c) == s.len() <==> !s.contains(c),
    decreases s.len(),
{
    if s.len() == 0 {
    } else if s[0] == c {
        assert(s.contains(c));
    } else {
        let t = s.skip(1);
        lemma_find(t, c);
        assert forall|k: int| 0 <= k < find(s, c) implies s[k] != c by {
            if k > 0 {
                assert(t[k - 1] == s[k]);
            }
        }
        if find(s, c) < s.len() {
            assert(s[find(s, c)] == t[find(t, c)]);
            assert(s.contains(c));
        } else if s.contains(c) {
            let k = choose|k: int| 0 <= k < s.len() && s[k] == c;
            assert(t[k - 1] == c);
            assert(t.contains(c));
        }
    }
}

/// `find` is the only position with these two properties.
pub proof fn lemma_find_unique(s: Seq<char>, c: char, i: int)
    requires
        0 <= i <= s.len(),
        i < s.len() ==> s[i] == c,
        forall|k: int| 0 <= k < i ==> s[k] != c,
    ensures
        find(s, c) == i,
{
    lemma_find(s, c);
    let j = find(s, c);
    if j < i {
        assert(s[j] == c);
    } else if i < j {
        assert(s[i] == c);
    }
}

/// The first `c` of `cs` at or after `from`.
pub fn find_from(cs: &Vec<char>, from: usize, c: char) -> (i: usize)
    requires
        from <= cs@.len(),
    ensures
        from <= i <= cs@.len(),
        i - from == find(cs@.skip(from as int), c),
{
    let mut i: usize = from;
    while i < cs.len() && cs[i] != c
        invariant
            from <= i <= cs@.len(),
            forall|k: int| from <= k < i ==> cs@[k] != c,
        decreases cs.len() - i,
    {
        i = i + 1;
    }
    proof {
        lemma_find_unique(cs@.skip(from as int), c, i - from);
    }
    i
}

// ---------------------------------------------------------------------------
// Fields
// ---------------------------------------------------------------------------

/// `s` cut at its first `n - 1` occurrences of `c`; the last piece keeps any
/// further ones.
pub open spec fn fields(s: Seq<char>, n: nat, c: char) -> Seq<Seq<char>>
    decreases n,
{
    let i = find(s, c);
    if n <= 1 || i >= s.len() {
        seq![s]
    } else {
        seq![s.take(i)] + fields(s.skip(i + 1), (n - 1) as nat, c)
    }
}

/// At most `n` fields of `s`, the last one taken to the end of the text.
pub fn splitn(s: &str, n: usize, c: char) -> (r: Vec<String>)
    requires
        n >= 1,
    ensures
        texts(r@) == fields(s@, n as nat, c),
{
    let cs = chars_of(s);
    let mut out: Vec<String> = Vec::new();
    let mut from: usize = 0;
    let mut left: usize = n;
    assert(s@.skip(0) =~= s@);
    assert(texts(out@) + fields(s@, n as nat, c) =~= fields(s@, n as nat, c));
    while left > 1
        invariant
            cs@ == s@,
            1 <= left,
            from <= cs@.len(),
            texts(out@) + fields(s@.skip(from as int), left as nat, c) == fields(s@, n as nat, c),
        decreases left,
    {
        let i = find_from(&cs, from, c);
        let ghost rest = s@.skip(from as int);
        if i == cs.len() {
            let piece = s.substring_char(from, cs.len()).to_owned();
            assert(piece@ =~= rest);
            let ghost before = out@;
            out.push(piece);
            assert(texts(out@) =~= texts(before) + seq![rest]);
            return out;
        }
        let piece = s.substring_char(from, i).to_owned();
        assert(piece@ =~= rest.take(i - from));
        let ghost before = out@;
        out.push(piece);
        proof {
            assert(texts(out@) =~= texts(before) + seq![rest.take(i - from)]);
            assert(rest.skip(i - from + 1) =~= s@.skip(i + 1));
            let tail = fields(s@.skip(i + 1), (left - 1) as nat, c);
            assert(texts(before) + (seq![rest.take(i - from)] + tail) =~= texts(out@) + tail);
        }
        from = i + 1;
        left = left - 1;
    }
    let piece = s.substring_char(from, cs.len()).to_owned();
    assert(piece@ =~= s@.skip(from as int));
    let ghost before = out@;
    out.push(piece);
    assert(texts(out@) =~= texts(before) + seq![s@.skip(from as int)]);
    out
}

/// A piece without the separator, followed by the separator: the first field
/// is that piece and the others are those of what follows.
pub proof fn lemma_fields_cons(head: Seq<char>, tail: Seq<char>, n: nat, c: char)
    requires
        !head.contains(c),
        n >= 2,
    ensures
        fields(head + seq![c] + tail, n, c) == seq![head] + fields(tail, (n - 1) as nat, c),
{
    let s = head + seq![c] + tail;
    assert(s[head.len() as int] == c);
    assert forall|k: int| 0 <= k < head.len() implies s[k] != c by {
        assert(head[k] == s[k]);
        assert(head.contains(head[k]));
    }
    lemma_find_unique(s, c, head.len() as int);
    assert(s.take(head.len() as int) =~= head);
    assert(s.skip(head.len() as int + 1) =~= tail);
}

// ---------------------------------------------------------------------------
// Lines
// ---------------------------------------------------------------------------

/// `l` without one trailing carriage return.
pub open spec fn without_cr(l: Seq<char>) -> Seq<char> {
    if l.len() > 0 && l.last() == '\r' {
        l.drop_last()
    } else {
        l
    }
}

/// The lines of `s`: a line ends at `\n` or `\r\n`, and the last one may lack
/// its ending.
pub open spec fn lines_of(s: Seq<char>) -> Seq<Seq<char>>
    decreases s.len(),
    via lines_of_decreases
{
    let i = find(s, '\n');
    if s.len() == 0 {
        seq![]
    } else if i >= s.len() {
        seq![s]
    } else {
        seq![without_cr(s.take(i))] + lines_of(s.skip(i + 1))
    }
}

#[via_fn]
proof fn lines_of_decreases(s: Seq<char>) {
    lemma_find(s, '\n');
}

/// The lines of the text.
pub fn lines(s: &str) -> (r: Vec<String>)
    ensures
        texts(r@) == lines_of(s@),
{
    let cs = chars_of(s);
    let mut out: Vec<String> = Vec::new();
    let mut from: usize = 0;
    assert(s@.skip(0) =~= s@);
    assert(texts(out@) + lines_of(s@) =~= lines_of(s@));
    while from < cs.len()
        invariant
            cs@ == s@,
            from <= cs@.len(),
            texts(out@) + lines_of(s@.skip(from as int)) == lines_of(s@),
        decreases cs.len() - from,
    {
        let i = find_from(&cs, from, '\n');
        let ghost rest = s@.skip(from as int);
        let ghost before = out@;
        if i == cs.len() {
            let piece = s.substring_char(from, i).to_owned();
            assert(piece@ =~= rest);
            out.push(piece);
            assert(texts(out@) =~= texts(before) + seq![rest]);
            return out;
        }
        let ghost raw = rest.take(i - from);
        let end: usize = if i > from && cs[i - 1] == '\r' {
            i - 1
        } else {
            i
        };
        let piece = s.substring_char(from, end).to_owned();
        proof {
            if i > from {
                assert(raw.last() == cs@[i - 1]);
            }
            assert(piece@ =~= without_cr(raw));
        }
        out.push(piece);
        proof {
            assert(texts(out@) =~= texts(before) + seq![without_cr(raw)]);
            assert(rest.skip(i - from + 1) =~= s@.skip(i + 1));
            let tail = lines_of(s@.skip(i + 1));
            assert(texts(before) + (seq![without_cr(raw)] + tail) =~= texts(out@) + tail);
        }
        from = i + 1;
    }
    assert(s@.skip(from as int) =~= Seq::<char>::empty());
    assert(texts(out@) + lines_of(Seq::<char>::empty()) =~= texts(out@));
    out
}

/// Whether a text stands on one line and comes back from it.
pub open spec fn one_line(s: Seq<char>) -> bool {
    !s.contains('\n') && (s.len() > 0 ==> s.last() != '\r')
}

/// A line that holds no `\n` and does not end in `\r`, followed by `\n`: it is
/// the first line and the others are those of what follows.
pub proof fn lemma_lines_cons(line: Seq<char>, tail: Seq<char>)
    requires
        one_line(line),
    ensures
        lines_of(line + seq!['\n'] + tail) == seq![line] + lines_of(tail),
{
    let s = line + seq!['\n'] + tail;
    assert(s[line.len() as int] == '\n');
    assert forall|k: int| 0 <= k < line.len() implies s[k] != '\n' by {
        assert(line[k] == s[k]);
        assert(line.contains(line[k]));
    }
    lemma_find_unique(s, '\n', line.len() as int);
    assert(s.take(line.len() as int) =~= line);
    assert(s.skip(line.len() as int + 1) =~= tail);
}

// ---------------------------------------------------------------------------
// Words
// ---------------------------------------------------------------------------

/// The length of the run of characters before the first white space in `s`.
pub open spec fn word_len(s: Seq<char>) -> int
    decreases s.len(),
{
    if s.len() == 0 || white_space(s[0]) {
        0
    } else {
        1 + word_len(s.skip(1))
    }
}

proof fn lemma_word_len_unique(s: Seq<char>, i: int)
    requires
        0 <= i <= s.len(),
        i < s.len() ==> white_space(s[i]),
        forall|k: int| 0 <= k < i ==> !white_space(#[trigger] s[k]),
    ensures
        word_len(s) == i,
    decreases s.len(),
{
    if i > 0 {
        assert(!white_space(s[0]));
        let t = s.skip(1);
        assert forall|k: int| 0 <= k < i - 1 implies !white_space(#[trigger] t[k]) by {
            assert(t[k] == s[k + 1]);
        }
        lemma_word_len_unique(t, i - 1);
    }
}

proof fn lemma_word_len(s: Seq<char>)
    ensures
        0 <= word_len(s) <= s.len(),
        s.len() > 0 && !white_space(s[0]) ==> word_len(s) > 0,
        word_len(s) < s.len() ==> white_space(s[word_len(s)]),
        forall|k: int| 0 <= k < word_len(s) ==> !white_space(#[trigger] s[k]),
    decreases s.len(),
{
    if s.len() > 0 && !white_space(s[0]) {
        let t = s.skip(1);
        lemma_word_len(t);
        if word_len(s) < s.len() {
            assert(t[word_len(t)] == s[word_len(s)]);
        }
        assert forall|k: int| 0 <= k < word_len(s) implies !white_space(#[trigger] s[k]) by {
            if k > 0 {
                assert(t[k - 1] == s[k]);
            }
        }
    }
}

/// The maximal runs of characters of `s` that are not white space, in order.
pub open spec fn words(s: Seq<char>) -> Seq<Seq<char>>
    decreases s.len(),
    via words_decreases
{
    if s.len() == 0 {
        seq![]
    } else if white_space(s[0]) {
        words(s.skip(1))
    } else {
        seq![s.take(word_len(s))] + words(s.skip(word_len(s)))
    }
}

#[via_fn]
proof fn words_decreases(s: Seq<char>) {
    lemma_word_len(s);
}

/// The words of the text.
pub fn split_whitespace(s: &str) -> (r: Vec<String>)
    ensures
        texts(r@) == words(s@),
{
    let cs = chars_of(s);
    let mut out: Vec<String> = Vec::new();
    let mut from: usize = 0;
    assert(s@.skip(0) =~= s@);
    assert(texts(out@) + words(s@) =~= words(s@));
    while from < cs.len()
        invariant
            cs@ == s@,
            from <= cs@.len(),
            texts(out@) + words(s@.skip(from as int)) == words(s@),
        decreases cs.len() - from,
    {
        let ghost rest = s@.skip(from as int);
        if is_white_space(cs[from]) {
            assert(rest.skip(1) =~= s@.skip(from + 1));
            from = from + 1;
        } else {
            let mut i: usize = from;
            while i < cs.len() && !is_white_space(cs[i])
                invariant
                    cs@ == s@,
                    from <= i <= cs@.len(),
                    forall|k: int| from <= k < i ==> !white_space(#[trigger] cs@[k]),
                decreases cs.len() - i,
            {
                i = i + 1;
            }
            proof {
                assert forall|k: int| 0 <= k < i - from implies !white_space(
                    #[trigger] rest[k],
                ) by {
                    assert(rest[k] == cs@[from + k]);
                }
                lemma_word_len_unique(rest, i - from);
                lemma_word_len(rest);
            }
            let piece = s.substring_char(from, i).to_owned();
            assert(piece@ =~= rest.take(i - from));
            let ghost before = out@;
            out.push(piece);
            proof {
                assert(texts(out@) =~= texts(before) + seq![rest.take(i - from)]);
                assert(rest.skip(i - from) =~= s@.skip(i as int));
                let tail = words(s@.skip(i as int));
                assert(texts(before) + (seq![rest.take(i - from)] + tail) =~= texts(out@) + tail);
            }
            from = i;
        }
    }
    assert(s@.skip(from as int) =~= Seq::<char>::empty());
    assert(texts(out@) + words(Seq::<char>::empty()) =~= texts(out@));
    out
}

/// A nonempty run of characters other than white space.
pub open spec fn is_word(w: Seq<char>) -> bool {
    w.len() > 0 && forall|k: int| 0 <= k < w.len() ==> !white_space(#[trigger] w[k])
}

/// No word is empty and none holds white space.
pub proof fn words_are_words(s: Seq<char>)
    ensures
        forall|i: int| 0 <= i < words(s).len() ==> is_word(#[trigger] words(s)[i]),
    decreases s.len(),
{
    if s.len() == 0 {
        assert(words(s) =~= seq![]);
    } else if white_space(s[0]) {
        words_are_words(s.skip(1));
        assert(words(s) == words(s.skip(1)));
    } else {
        lemma_word_len(s);
        assert(words(s) == seq![s.take(word_len(s))] + words(s.skip(word_len(s))));
        let n = word_len(s);
        let rest = words(s.skip(n));
        words_are_words(s.skip(n));
        assert forall|i: int| 0 <= i < words(s).len() implies is_word(#[trigger] words(s)[i]) by {
            if i > 0 {
                assert(words(s)[i] == rest[i - 1]);
            } else {
                let w = s.take(n);
                assert forall|k: int| 0 <= k < w.len() implies !white_space(#[trigger] w[k]) by {
                    assert(w[k] == s[k]);
                }
            }
        }
    }
}

// ---------------------------------------------------------------------------
// Laws
// ---------------------------------------------------------------------------

/// A text without the separator is one field; so is any text of which no more
/// are asked for.
pub proof fn a_field_alone(s: Seq<char>, n: nat, c: char)
    ensures
        !s.contains(c) ==> fields(s, n, c) == seq![s],
        n <= 1 ==> fields(s, n, c) == seq![s],
{
    lemma_find(s, c);
}

/// A text without a line break is one line, and an empty text is none. A line
/// break with or without a carriage return before it ends a line.
pub proof fn a_line_alone(s: Seq<char>, tail: Seq<char>)
    requires
        !s.contains('\n'),
    ensures
        s.len() > 0 ==> lines_of(s) == seq![s],
        s.len() == 0 ==> lines_of(s) == Seq::<Seq<char>>::empty(),
        lines_of(s + seq!['\r', '\n'] + tail) == seq![s] + lines_of(tail),
{
    lemma_find(s, '\n');
    let all = s + seq!['\r', '\n'] + tail;
    let n = s.len() as int;
    assert(all[n] == '\r' && all[n + 1] == '\n');
    assert forall|k: int| 0 <= k < n + 1 implies all[k] != '\n' by {
        if k < n {
            assert(all[k] == s[k]);
            assert(s.contains(s[k]));
        }
    }
    lemma_find_unique(all, '\n', n + 1);
    assert(all.take(n + 1).drop_last() =~= s);
    assert(all.take(n + 1).last() == '\r');
    assert(all.skip(n + 2) =~= tail);
}

/// A word stands alone as one word; a text without one has none.
pub proof fn a_word_alone(w: Seq<char>)
    ensures
        is_word(w) ==> words(w) == seq![w],
        (forall|k: int| 0 <= k < w.len() ==> white_space(#[trigger] w[k])) ==> words(w) == Seq::<
            Seq<char>,
        >::empty(),
    decreases w.len(),
{
    if is_word(w) {
        assert forall|k: int| 0 <= k < w.len() implies !white_space(#[trigger] w[k]) by {}
        lemma_word_len_unique(w, w.len() as int);
        assert(w.take(w.len() as int) =~= w);
        assert(w.skip(w.len() as int) =~= Seq::<char>::empty());
        assert(words(w.skip(w.len() as int)) =~= seq![]);
        assert(words(w) =~= seq![w]);
    }
    if forall|k: int| 0 <= k < w.len() ==> white_space(#[trigger] w[k]) {
        if w.len() > 0 {
            let t = w.skip(1);
            assert forall|k: int| 0 <= k < t.len() implies white_space(#[trigger] t[k]) by {
                assert(t[k] == w[k + 1]);
            }
            a_word_alone(t);
            assert(white_space(w[0]));
        }
    }
}

/// White space parts words: those of a text are those before any white space
/// of it, and then those after it.
pub proof fn white_space_parts_words(a: Seq<char>, c: char, b: Seq<char>)
    requires
        white_space(c),
    ensures
        words(a + seq![c] + b) == words(a) + words(b),
    decreases a.len(),
{
    let s = a + seq![c] + b;
    if a.len() == 0 {
        assert(s[0] == c);
        assert(s.skip(1) =~= b);
        assert(words(a) + words(b) =~= words(b));
    } else if white_space(a[0]) {
        let t = a.skip(1);
        white_space_parts_words(t, c, b);
        assert(s[0] == a[0]);
        assert(s.skip(1) =~= t + seq![c] + b);
        assert(words(a) == words(t));
    } else {
        let n = word_len(a);
        lemma_word_len(a);
        let t = a.skip(n);
        assert(s[0] == a[0]);
        assert(s[n] == (if n < a.len() {
            a[n]
        } else {
            c
        }));
        assert forall|k: int| 0 <= k < n implies !white_space(#[trigger] s[k]) by {
            assert(s[k] == a[k]);
        }
        lemma_word_len_unique(s, n);
        assert(s.take(n) =~= a.take(n));
        assert(s.skip(n) =~= t + seq![c] + b);
        white_space_parts_words(t, c, b);
        assert(words(a) == seq![a.take(n)] + words(t));
        assert(words(s) == seq![s.take(n)] + words(s.skip(n)));
        assert(words(s) =~= words(a) + words(b));
    }
}

/// A text is on one line, and comes back from it, exactly where it holds no
/// line break and does not end in a carriage return.
pub proof fn what_stands_on_one_line(s: Seq<char>)
    ensures
        one_line(s) <==> (forall|k: int| 0 <= k < s.len() ==> #[trigger] s[k] != '\n') && !(s.len()
            > 0 && s[s.len() - 1] == '\r'),
        one_line(s) ==> lines_of(s + seq!['\n']) == seq![s],
{
    if one_line(s) {
        assert forall|k: int| 0 <= k < s.len() implies #[trigger] s[k] != '\n' by {
            assert(s.contains(s[k]));
        }
        let none = Seq::<char>::empty();
        assert(s + seq!['\n'] + none =~= s + seq!['\n']);
        lemma_lines_cons(s, none);
        assert(lines_of(none) =~= seq![]);
        assert(seq![s] + lines_of(none) =~= seq![s]);
    }
}

} // verus!
