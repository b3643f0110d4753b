//! Text as sequences of characters: the conversions between strings and
//! character vectors, and the searches, splits and joins the rest of the
//! library builds on.

use vstd::prelude::*;

verus! {

/// `String::push` appends one character to the end of the string.
pub assume_specification[ String::push ](s: &mut String, c: char)
    ensures
        final(s)@ == old(s)@.push(c),
;

/// The views of the items of `items`, in order.
pub open spec fn views<T: View>(items: Seq<T>) -> Seq<T::V> {
    items.map_values(|t: T| t@)
}

/// The index of the first `c` in `s`, or the length of `s` if it holds none.
pub open spec fn find(s: Seq<char>, c: char) -> int
    decreases s.len(),
{
    if s.len() == 0 || s[0] == c {
        0
    } else {
        1 + find(s.drop_first(), c)
    }
}

/// The pieces of `s` between occurrences of `sep`. There is always one piece
/// more than there are separators, so the empty text has one empty piece.
pub open spec fn split(s: Seq<char>, sep: char) -> Seq<Seq<char>>
    decreases s.len(),
{
    let n = find(s, sep);
    if 0 <= n < s.len() {
        seq![s.take(n)] + split(s.skip(n + 1), sep)
    } else {
        seq![s]
    }
}

/// `find` is pinned down by where the first occurrence is.
pub proof fn lemma_find(s: Seq<char>, c: char, n: int)
    requires
        0 <= n <= s.len(),
        forall|k: int| 0 <= k < n ==> s[k] != c,
        n == s.len() || s[n] == c,
    ensures
        find(s, c) == n,
    decreases n,
{
    if n > 0 {
        let t = s.drop_first();
        assert forall|k: int| 0 <= k < n - 1 implies t[k] != c by {
            assert(t[k] == s[k + 1]);
        }
        lemma_find(t, c, n - 1);
    }
}

/// `find` returns a position inside the text or its length, and nothing
/// before that position is the character looked for.
pub proof fn lemma_find_bounds(s: Seq<char>, c: char)
    ensures
        0 <= find(s, c) <= s.len(),
        forall|k: int| 0 <= k < find(s, c) ==> s[k] != c,
        find(s, c) < s.len() ==> s[find(s, c)] == c,
    decreases s.len(),
{
    if s.len() == 0 || s[0] == c {
    } else {
        let t = s.drop_first();
        lemma_find_bounds(t, c);
        assert forall|k: int| 0 <= k < find(s, c) implies s[k] != c by {
            if k > 0 {
                assert(t[k - 1] == s[k]);
            }
        }
    }
}

/// Splitting after a first piece that holds no separator.
pub proof fn lemma_split_first(head: Seq<char>, tail: Seq<char>, sep: char)
    requires
        forall|k: int| 0 <= k < head.len() ==> head[k] != sep,
    ensures
        split(head + seq![sep] + tail, sep) == seq![head] + split(tail, sep),
{
    let s = head + seq![sep] + tail;
    let n = head.len() as int;
    lemma_find(s, sep, n);
    assert(s.take(n) =~= head);
    assert(s.skip(n + 1) =~= tail);
}

/// The characters of `s`, in order.
pub fn to_chars(s: &str) -> (v: Vec<char>)
    ensures
        v@ == s@,
{
    let mut v: Vec<char> = Vec::new();
    for c in it: s.chars()
        invariant
            it.seq() == s@,
            v@ == s@.take(it.index() as int),
    {
        v.push(c);
    }
    v
}

/// The string made of the characters of `v`, in order.
pub fn from_chars(v: &Vec<char>) -> (s: String)
    ensures
        s@ == v@,
{
    let mut s = String::new();
    let mut i: usize = 0;
    while i < v.len()
        invariant
            i <= v.len(),
            s@ == v@.take(i as int),
        decreases v.len() - i,
    {
        s.push(v[i]);
        i += 1;
    }
    s
}

/// Whether the two vectors hold the same characters.
pub fn same_chars(a: &Vec<char>, b: &Vec<char>) -> (r: bool)
    ensures
        r == (a@ == b@),
{
    if a.len() != b.len() {
        return false;
    }
    let mut i: usize = 0;
    while i < a.len()
        invariant
            i <= a.len(),
            a.len() == b.len(),
            a@.take(i as int) == b@.take(i as int),
        decreases a.len() - i,
    {
        if a[i] != b[i] {
            return false;
        }
        proof {
            assert(a@.take(i + 1) =~= a@.take(i as int).push(a@[i as int]));
            assert(b@.take(i + 1) =~= b@.take(i as int).push(b@[i as int]));
        }
        i += 1;
    }
    proof {
        assert(a@ =~= a@.take(a.len() as int));
        assert(b@ =~= b@.take(b.len() as int));
    }
    true
}

/// Whether the two strings hold the same text.
pub fn same_text(a: &str, b: &str) -> (r: bool)
    ensures
        r == (a@ == b@),
{
    let x = to_chars(a);
    let y = to_chars(b);
    same_chars(&x, &y)
}

/// Whether `v` spells out the text `s`.
pub fn spells(v: &Vec<char>, s: &str) -> (r: bool)
    ensures
        r == (v@ == s@),
{
    let y = to_chars(s);
    same_chars(v, &y)
}

/// The characters of `s` from position `from` up to, not including, `to`.
pub(crate) fn slice(s: &Vec<char>, from: usize, to: usize) -> (r: Vec<char>)
    requires
        from <= to <= s.len(),
    ensures
        r@ == s@.subrange(from as int, to as int),
{
    let mut r: Vec<char> = Vec::new();
    let mut i: usize = from;
    while i < to
        invariant
            from <= i <= to <= s.len(),
            r@ == s@.subrange(from as int, i as int),
        decreases to - i,
    {
        r.push(s[i]);
        i += 1;
    }
    r
}

/// Appends the characters of `src` to `dst`.
pub fn append(dst: &mut Vec<char>, src: &Vec<char>)
    ensures
        final(dst)@ == old(dst)@ + src@,
{
    let mut i: usize = 0;
    while i < src.len()
        invariant
            i <= src.len(),
            dst@ == old(dst)@ + src@.take(i as int),
        decreases src.len() - i,
    {
        dst.push(src[i]);
        i += 1;
    }
    proof {
        assert(src@.take(src.len() as int) =~= src@);
    }
}

/// Appends the text of `s` to `dst`.
pub fn append_str(dst: &mut Vec<char>, s: &str)
    ensures
        final(dst)@ == old(dst)@ + s@,
{
    let v = to_chars(s);
    append(dst, &v);
}

/// The position of the first `c` in `s` at or after `from`, or the length
/// of `s` if there is none.
pub(crate) fn find_char(s: &Vec<char>, c: char, from: usize) -> (j: usize)
    requires
        from <= s.len(),
    ensures
        from <= j <= s.len(),
        j - from == find(s@.skip(from as int), c),
{
    let mut j: usize = from;
    while j < s.len() && s[j] != c
        invariant
            from <= j <= s.len(),
            forall|k: int| from <= k < j ==> s@[k] != c,
        decreases s.len() - j,
    {
        j += 1;
    }
    proof {
        lemma_find(s@.skip(from as int), c, j - from);
    }
    j
}

/// The pieces of `s` between occurrences of `sep`.
pub fn split_chars(s: &Vec<char>, sep: char) -> (pieces: Vec<Vec<char>>)
    ensures
        views(pieces@) == split(s@, sep),
{
    let mut pieces: Vec<Vec<char>> = Vec::new();
    let mut i: usize = 0;
    proof {
        assert(s@.skip(0) =~= s@);
        assert(views(pieces@) + split(s@, sep) =~= split(s@, sep));
    }
    loop
        invariant_except_break
            i <= s.len(),
            views(pieces@) + split(s@.skip(i as int), sep) == split(s@, sep),
        ensures
            views(pieces@) == split(s@, sep),
        decreases s.len() - i,
    {
        let j = find_char(s, sep, i);
        let piece = slice(s, i, j);
        let ghost before = views(pieces@);
        let ghost rest = s@.skip(i as int);
        pieces.push(piece);
        proof {
            assert(rest.take(j - i) =~= s@.subrange(i as int, j as int));
            assert(views(pieces@) =~= before.push(rest.take(j - i)));
        }
        if j < s.len() {
            proof {
                assert(rest.skip(j - i + 1) =~= s@.skip(j + 1));
                assert(before.push(rest.take(j - i)) + split(s@.skip(j + 1), sep) =~= before + (
                seq![rest.take(j - i)] + split(s@.skip(j + 1), sep)));
            }
            i = j + 1;
        } else {
            proof {
                assert(rest.take(j - i) =~= rest);
                assert(before.push(rest) =~= before + seq![rest]);
            }
            break;
        }
    }
    pieces
}

} // verus!
