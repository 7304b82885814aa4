//! Character-level text handling: conversions between strings and character
//! vectors, comparison, splitting and joining.

use vstd::prelude::*;
use vstd::string::*;

verus! {

/// `String::push` of the standard library appends the character `c` to the
/// end of the string and leaves the characters before it untouched.
pub assume_specification[ String::push ](s: &mut String, c: char)
    ensures
        final(s)@ == old(s)@.push(c),
;

/// The contents of a sequence of strings.
pub open spec fn texts(v: Seq<String>) -> Seq<Seq<char>> {
    v.map_values(|s: String| s@)
}

/// The contents of a sequence of character vectors.
pub open spec fn rows(v: Seq<Vec<char>>) -> Seq<Seq<char>> {
    v.map_values(|r: Vec<char>| r@)
}

/// Where a text is cut into pieces.
#[derive(Clone, Copy, Debug)]
pub enum Cut {
    /// At every occurrence of one character.
    At(char),
    /// At every whitespace character.
    Blank,
}

/// Whitespace: the characters with the Unicode property White_Space. These
/// are U+0009 to U+000D, the space, U+0085, U+00A0, U+1680, U+2000 to U+200A,
/// U+2028, U+2029, U+202F, U+205F and U+3000.
pub open spec fn is_space(c: char) -> bool {
    {
        ||| c == '\t'
        ||| c == '\n'
        ||| c == '\x0b'
        ||| c == '\x0c'
        ||| c == '\r'
        ||| c == ' '
        ||| c == '\u{85}'
        ||| c == '\u{a0}'
        ||| c == '\u{1680}'
        ||| c == '\u{2000}'
        ||| c == '\u{2001}'
        ||| c == '\u{2002}'
        ||| c == '\u{2003}'
        ||| c == '\u{2004}'
        ||| c == '\u{2005}'
        ||| c == '\u{2006}'
        ||| c == '\u{2007}'
        ||| c == '\u{2008}'
        ||| c == '\u{2009}'
        ||| c == '\u{200a}'
        ||| c == '\u{2028}'
        ||| c == '\u{2029}'
        ||| c == '\u{202f}'
        ||| c == '\u{205f}'
        ||| c == '\u{3000}'
    }
}

/// Decides whether `c` is a whitespace character.
pub fn is_whitespace(c: char) -> (b: bool)
    ensures
        b == is_space(c),
{
    c == '\t'
        || c == '\n'
        || c == '\x0b'
        || c == '\x0c'
        || c == '\r'
        || c == ' '
        || c == '\u{85}'
        || c == '\u{a0}'
        || c == '\u{1680}'
        || c == '\u{2000}'
        || c == '\u{2001}'
        || c == '\u{2002}'
        || c == '\u{2003}'
        || c == '\u{2004}'
        || c == '\u{2005}'
        || c == '\u{2006}'
        || c == '\u{2007}'
        || c == '\u{2008}'
        || c == '\u{2009}'
        || c == '\u{200a}'
        || c == '\u{2028}'
        || c == '\u{2029}'
        || c == '\u{202f}'
        || c == '\u{205f}'
        || c == '\u{3000}'
}

impl Cut {
    /// Whether the text is cut at character `c`.
    pub open spec fn cuts(self, c: char) -> bool {
        match self {
            Cut::At(d) => c == d,
            Cut::Blank => is_space(c),
        }
    }

    /// Decides whether the text is cut at character `c`.
    pub fn hits(&self, c: char) -> (b: bool)
        ensures
            b == self.cuts(c),
    {
        match self {
            Cut::At(d) => c == *d,
            Cut::Blank => is_whitespace(c),
        }
    }
}

/// The pieces of `s` between the cut points, empty pieces included. A text
/// with `n` cut points has `n + 1` pieces.
pub open spec fn split(s: Seq<char>, cut: Cut) -> Seq<Seq<char>>
    decreases s.len(),
{
    if s.len() == 0 {
        seq![Seq::<char>::empty()]
    } else {
        let before = split(s.drop_last(), cut);
        if cut.cuts(s.last()) {
            before.push(Seq::<char>::empty())
        } else {
            before.drop_last().push(before.last().push(s.last()))
        }
    }
}

/// The pieces of `parts` that are not empty, in order.
pub open spec fn non_empty(parts: Seq<Seq<char>>) -> Seq<Seq<char>>
    decreases parts.len(),
{
    if parts.len() == 0 {
        Seq::<Seq<char>>::empty()
    } else if parts.last().len() > 0 {
        non_empty(parts.drop_last()).push(parts.last())
    } else {
        non_empty(parts.drop_last())
    }
}

/// The pieces of `parts` in order with `sep` between each two neighbours.
pub open spec fn join(parts: Seq<Seq<char>>, sep: Seq<char>) -> Seq<char>
    decreases parts.len(),
{
    if parts.len() == 0 {
        Seq::<char>::empty()
    } else if parts.len() == 1 {
        parts[0]
    } else {
        join(parts.drop_last(), sep) + sep + parts.last()
    }
}

/// A split text has at least one piece.
pub proof fn lemma_split_some(s: Seq<char>, cut: Cut)
    ensures
        split(s, cut).len() >= 1,
    decreases s.len(),
{
    if s.len() > 0 {
        lemma_split_some(s.drop_last(), cut);
    }
}

/// The characters of `s`, in order.
pub fn chars_of(s: &str) -> (out: Vec<char>)
    ensures
        out@ == s@,
{
    broadcast use group_string_axioms;

    let mut out: Vec<char> = Vec::new();
    let it = s.chars();
    for c in iter: it
        invariant
            iter.seq() == s@,
            out@ == iter.history@,
    {
        out.push(c);
    }
    assert(out@ =~= s@);
    out
}

/// The string made of the characters of `v`, in order.
pub fn string_of(v: &Vec<char>) -> (s: String)
    ensures
        s@ == v@,
{
    let mut s = String::new();
    let mut i: usize = 0;
    while i < v.len()
        invariant
            i <= v.len(),
            s@ == v@.take(i as int),
        decreases v.len() - i,
    {
        s.push(v[i]);
        assert(v@.take(i + 1) =~= v@.take(i as int).push(v@[i as int]));
        i += 1;
    }
    assert(v@.take(v.len() as int) =~= v@);
    s
}

/// A copy of `v`.
pub fn copy_text(v: &Vec<char>) -> (out: Vec<char>)
    ensures
        out@ == v@,
{
    let mut out: Vec<char> = Vec::new();
    append(&mut out, v);
    out
}

/// Appends the characters of `src` to `dst`.
pub fn append(dst: &mut Vec<char>, src: &Vec<char>)
    ensures
        final(dst)@ == old(dst)@ + src@,
{
    let mut i: usize = 0;
    while i < src.len()
        invariant
            i <= src.len(),
            dst@ == old(dst)@ + src@.take(i as int),
        decreases src.len() - i,
    {
        dst.push(src[i]);
        assert(src@.take(i + 1) =~= src@.take(i as int).push(src@[i as int]));
        assert(dst@ =~= old(dst)@ + src@.take(i + 1));
        i += 1;
    }
    assert(src@.take(src.len() as int) =~= src@);
}

/// The characters of `s` from position `from` up to, not including, `to`.
pub fn slice_text(s: &Vec<char>, from: usize, to: usize) -> (out: Vec<char>)
    requires
        from <= to <= s.len(),
    ensures
        out@ == s@.subrange(from as int, to as int),
{
    let mut out: Vec<char> = Vec::new();
    let mut i: usize = from;
    while i < to
        invariant
            from <= i <= to <= s.len(),
            out@ == s@.subrange(from as int, i as int),
        decreases to - i,
    {
        out.push(s[i]);
        i += 1;
        assert(out@ =~= s@.subrange(from as int, i as int));
    }
    out
}

/// Whether two texts hold the same characters.
pub fn same(a: &Vec<char>, b: &Vec<char>) -> (r: bool)
    ensures
        r == (a@ == b@),
{
    if a.len() != b.len() {
        return false;
    }
    let mut i: usize = 0;
    while i < a.len()
        invariant
            i <= a.len(),
            a.len() == b.len(),
            forall|j: int| 0 <= j < i ==> a@[j] == b@[j],
        decreases a.len() - i,
    {
        if a[i] != b[i] {
            return false;
        }
        i += 1;
    }
    assert(a@ =~= b@);
    true
}

/// Whether `x` is one of `list`.
pub fn holds(list: &Vec<Vec<char>>, x: &Vec<char>) -> (r: bool)
    ensures
        r == rows(list@).contains(x@),
{
    let mut i: usize = 0;
    while i < list.len()
        invariant
            i <= list.len(),
            forall|j: int| 0 <= j < i ==> rows(list@)[j] != x@,
        decreases list.len() - i,
    {
        if same(&list[i], x) {
            assert(rows(list@)[i as int] == x@);
            return true;
        }
        i += 1;
    }
    false
}

/// The contents of each string of `v` as a character vector.
pub fn rows_of(v: &Vec<String>) -> (out: Vec<Vec<char>>)
    ensures
        rows(out@) == texts(v@),
{
    let mut out: Vec<Vec<char>> = Vec::new();
    let mut i: usize = 0;
    while i < v.len()
        invariant
            i <= v.len(),
            rows(out@) == texts(v@).take(i as int),
        decreases v.len() - i,
    {
        let ghost done = rows(out@);
        let r = chars_of(v[i].as_str());
        out.push(r);
        assert(rows(out@) =~= done.push(v@[i as int]@));
        assert(texts(v@).take(i + 1) =~= texts(v@).take(i as int).push(v@[i as int]@));
        i += 1;
    }
    assert(texts(v@).take(v.len() as int) =~= texts(v@));
    out
}

/// Each character vector of `v` as a string.
pub fn strings_of(v: &Vec<Vec<char>>) -> (out: Vec<String>)
    ensures
        texts(out@) == rows(v@),
{
    let mut out: Vec<String> = Vec::new();
    let mut i: usize = 0;
    while i < v.len()
        invariant
            i <= v.len(),
            texts(out@) == rows(v@).take(i as int),
        decreases v.len() - i,
    {
        let ghost done = texts(out@);
        let s = string_of(&v[i]);
        out.push(s);
        assert(texts(out@) =~= done.push(v@[i as int]@));
        assert(rows(v@).take(i + 1) =~= rows(v@).take(i as int).push(v@[i as int]@));
        i += 1;
    }
    assert(rows(v@).take(v.len() as int) =~= rows(v@));
    out
}

/// Cuts `s` into its pieces, empty pieces included.
pub fn split_text(s: &Vec<char>, cut: Cut) -> (out: Vec<Vec<char>>)
    ensures
        rows(out@) == split(s@, cut),
        out.len() >= 1,
{
    let mut out: Vec<Vec<char>> = Vec::new();
    let mut cur: Vec<char> = Vec::new();
    let mut i: usize = 0;
    while i < s.len()
        invariant
            i <= s.len(),
            rows(out@).push(cur@) == split(s@.take(i as int), cut),
        decreases s.len() - i,
    {
        let c = s[i];
        let ghost done = rows(out@);
        let ghost piece = cur@;
        assert(s@.take(i + 1).drop_last() =~= s@.take(i as int));
        assert(done.push(piece).drop_last() =~= done);
        if cut.hits(c) {
            out.push(cur);
            cur = Vec::new();
            assert(rows(out@) =~= done.push(piece));
        } else {
            cur.push(c);
        }
        i += 1;
    }
    assert(s@.take(s.len() as int) =~= s@);
    let ghost done = rows(out@);
    out.push(cur);
    assert(rows(out@) =~= done.push(cur@));
    out
}

/// Keeps the pieces that are not empty.
pub fn drop_empty(parts: &Vec<Vec<char>>) -> (out: Vec<Vec<char>>)
    ensures
        rows(out@) == non_empty(rows(parts@)),
{
    let mut out: Vec<Vec<char>> = Vec::new();
    let mut i: usize = 0;
    while i < parts.len()
        invariant
            i <= parts.len(),
            rows(out@) == non_empty(rows(parts@).take(i as int)),
        decreases parts.len() - i,
    {
        let ghost done = rows(out@);
        assert(rows(parts@).take(i + 1).drop_last() =~= rows(parts@).take(i as int));
        if parts[i].len() > 0 {
            let piece = copy_text(&parts[i]);
            out.push(piece);
            assert(rows(out@) =~= done.push(parts@[i as int]@));
        }
        i += 1;
    }
    assert(rows(parts@).take(parts.len() as int) =~= rows(parts@));
    out
}

/// Joins the pieces with `sep` between each two neighbours.
pub fn join_text(parts: &Vec<Vec<char>>, sep: &Vec<char>) -> (out: Vec<char>)
    ensures
        out@ == join(rows(parts@), sep@),
{
    let mut out: Vec<char> = Vec::new();
    let mut i: usize = 0;
    while i < parts.len()
        invariant
            i <= parts.len(),
            out@ == join(rows(parts@).take(i as int), sep@),
        decreases parts.len() - i,
    {
        assert(rows(parts@).take(i + 1).drop_last() =~= rows(parts@).take(i as int));
        if i > 0 {
            append(&mut out, sep);
        }
        append(&mut out, &parts[i]);
        i += 1;
    }
    assert(rows(parts@).take(parts.len() as int) =~= rows(parts@));
    out
}

} // verus!
