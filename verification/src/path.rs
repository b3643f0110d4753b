//! Paths as text with `/` between the segments: where a path starts, what
//! its parent is, and how a possibly relative path resolves against a base
//! directory. Nothing here looks at a file system; a symbolic link is a
//! segment like any other.

use vstd::prelude::*;
use crate::text::{append, from_chars, lemma_split_first, split, split_chars, to_chars, views};

verus! {

/// A path is absolute when it starts at the root.
pub open spec fn absolute(p: Seq<char>) -> bool {
    p.len() > 0 && p[0] == '/'
}

/// How much of `t` is left once separators and `.` segments at its end are
/// dropped. The slash of the root is never dropped.
pub open spec fn trimmed_len(t: Seq<char>) -> nat
    decreases t.len(),
{
    if t.len() <= 1 {
        t.len()
    } else if t.last() == '/' {
        trimmed_len(t.drop_last())
    } else if t.last() == '.' && t[t.len() - 2] == '/' {
        trimmed_len(t.drop_last())
    } else {
        t.len()
    }
}

/// Where the last segment of `t` starts: behind its last separator, or at 0.
pub open spec fn last_segment_start(t: Seq<char>) -> nat
    decreases t.len(),
{
    if t.len() == 0 || t.last() == '/' {
        t.len()
    } else {
        last_segment_start(t.drop_last())
    }
}

/// The length of the parent of `t`, which is a prefix of `t`; `None` where
/// `t` names the root or nothing at all.
pub open spec fn parent_len(t: Seq<char>) -> Option<nat> {
    let n = trimmed_len(t);
    let i = last_segment_start(t.take(n as int));
    if i == n {
        None
    } else {
        Some(trimmed_len(t.take(i as int)))
    }
}

/// The path without its last segment; `None` where `t` names the root or
/// nothing at all.
pub open spec fn parent_of(t: Seq<char>) -> Option<Seq<char>> {
    match parent_len(t) {
        Some(n) => Some(t.take(n as int)),
        None => None,
    }
}

/// One segment off the end of `t`. At the root, and on the empty path,
/// there is nothing to take off and `t` stays as it is.
pub open spec fn popped(t: Seq<char>) -> Seq<char> {
    match parent_of(t) {
        Some(p) => p,
        None => t,
    }
}

/// `t` with the segment `seg` behind it, and a separator between the two
/// where `t` does not already end in one.
pub open spec fn pushed(t: Seq<char>, seg: Seq<char>) -> Seq<char> {
    if t.len() == 0 || t.last() == '/' {
        t + seg
    } else {
        t + seq!['/'] + seg
    }
}

/// What one segment of a relative path does to the path walked so far:
/// `..` goes up, an empty segment and `.` stay, a name goes down.
pub open spec fn stepped(t: Seq<char>, seg: Seq<char>) -> Seq<char> {
    if seg =~= seq!['.', '.'] {
        popped(t)
    } else if seg.len() == 0 || seg =~= seq!['.'] {
        t
    } else {
        pushed(t, seg)
    }
}

/// The segments of `segs` applied to `t` from first to last.
pub open spec fn walked(t: Seq<char>, segs: Seq<Seq<char>>) -> Seq<char>
    decreases segs.len(),
{
    if segs.len() == 0 {
        t
    } else {
        walked(stepped(t, segs[0]), segs.drop_first())
    }
}

/// `candidate` as seen from the directory `base`: an absolute candidate is
/// the answer itself, a relative one is walked from `base` segment by
/// segment.
pub open spec fn resolve(base: Seq<char>, candidate: Seq<char>) -> Seq<char> {
    if absolute(candidate) {
        candidate
    } else {
        walked(base, split(candidate, '/'))
    }
}

/// Trimming the end of a text never empties it.
pub proof fn lemma_trimmed_len_bounds(t: Seq<char>)
    ensures
        trimmed_len(t) <= t.len(),
        t.len() > 0 ==> trimmed_len(t) > 0,
    decreases t.len(),
{
    if t.len() > 1 {
        lemma_trimmed_len_bounds(t.drop_last());
    }
}

/// The last segment of a path that starts with a separator starts behind it.
pub proof fn lemma_last_segment_start_bounds(t: Seq<char>)
    ensures
        last_segment_start(t) <= t.len(),
        absolute(t) ==> last_segment_start(t) > 0,
    decreases t.len(),
{
    if t.len() == 0 || t.last() == '/' {
    } else {
        lemma_last_segment_start_bounds(t.drop_last());
    }
}

/// Going up from an absolute path gives an absolute path.
pub proof fn lemma_popped_absolute(t: Seq<char>)
    requires
        absolute(t),
    ensures
        absolute(popped(t)),
{
    let n = trimmed_len(t);
    lemma_trimmed_len_bounds(t);
    let u = t.take(n as int);
    lemma_last_segment_start_bounds(u);
    let i = last_segment_start(u);
    if i != n {
        lemma_trimmed_len_bounds(t.take(i as int));
    }
}

/// Walking from an absolute path ends at an absolute path.
pub proof fn lemma_walked_absolute(t: Seq<char>, segs: Seq<Seq<char>>)
    requires
        absolute(t),
    ensures
        absolute(walked(t, segs)),
    decreases segs.len(),
{
    if segs.len() > 0 {
        lemma_popped_absolute(t);
        lemma_walked_absolute(stepped(t, segs[0]), segs.drop_first());
    }
}

/// Resolving against an absolute base gives an absolute path, whatever the
/// candidate is.
pub proof fn law_resolve_stays_absolute(base: Seq<char>, candidate: Seq<char>)
    requires
        absolute(base),
    ensures
        absolute(resolve(base, candidate)),
{
    lemma_walked_absolute(base, split(candidate, '/'));
}

/// Resolving a path that is already absolute gives that path, whatever the
/// base is.
pub proof fn law_resolve_absolute_unchanged(base: Seq<char>, candidate: Seq<char>)
    requires
        absolute(candidate),
    ensures
        resolve(base, candidate) == candidate,
{
}

/// Resolving `../` followed by a relative path `rest` is resolving `rest`
/// against the base one segment up. At the root, one segment up is the root
/// itself.
pub proof fn law_resolve_through_parent(base: Seq<char>, rest: Seq<char>)
    requires
        !absolute(rest),
    ensures
        resolve(base, seq!['.', '.', '/'] + rest) == resolve(popped(base), rest),
{
    let up = seq!['.', '.'];
    let candidate = seq!['.', '.', '/'] + rest;
    assert(candidate =~= up + seq!['/'] + rest);
    lemma_split_first(up, rest, '/');
    let segs = split(candidate, '/');
    assert(segs[0] == up);
    assert(segs.drop_first() =~= split(rest, '/'));
}

/// How much of the first `upto` characters of `t` is left once separators
/// and `.` segments at their end are dropped.
fn trimmed(t: &Vec<char>, upto: usize) -> (n: usize)
    requires
        upto <= t.len(),
    ensures
        n <= upto,
        n == trimmed_len(t@.take(upto as int)),
{
    let mut n: usize = upto;
    while n > 1 && (t[n - 1] == '/' || (t[n - 1] == '.' && t[n - 2] == '/'))
        invariant
            n <= upto <= t.len(),
            trimmed_len(t@.take(n as int)) == trimmed_len(t@.take(upto as int)),
        decreases n,
    {
        proof {
            assert(t@.take(n as int).drop_last() =~= t@.take(n - 1));
        }
        n -= 1;
    }
    n
}

/// Where the last segment of the first `upto` characters of `t` starts.
fn segment_start(t: &Vec<char>, upto: usize) -> (i: usize)
    requires
        upto <= t.len(),
    ensures
        i <= upto,
        i == last_segment_start(t@.take(upto as int)),
{
    let mut i: usize = upto;
    while i > 0 && t[i - 1] != '/'
        invariant
            i <= upto <= t.len(),
            last_segment_start(t@.take(i as int)) == last_segment_start(t@.take(upto as int)),
        decreases i,
    {
        proof {
            assert(t@.take(i as int).drop_last() =~= t@.take(i - 1));
        }
        i -= 1;
    }
    i
}

/// The length of the parent of `t`, if it has one.
fn parent_length(t: &Vec<char>) -> (r: Option<usize>)
    ensures
        match r {
            Some(n) => n <= t.len() && parent_len(t@) == Some(n as nat),
            None => parent_len(t@) is None,
        },
{
    proof {
        assert(t@.take(t.len() as int) =~= t@);
    }
    let n = trimmed(t, t.len());
    let i = segment_start(t, n);
    if i == n {
        None
    } else {
        let m = trimmed(t, i);
        Some(m)
    }
}

/// Takes one segment off the end of `t`, as `popped` says.
fn pop(t: &mut Vec<char>)
    ensures
        final(t)@ == popped(old(t)@),
{
    match parent_length(t) {
        Some(n) => {
            t.truncate(n);
        },
        None => {},
    }
}

/// Puts the segment `seg` behind `t`, as `pushed` says.
fn push(t: &mut Vec<char>, seg: &Vec<char>)
    ensures
        final(t)@ == pushed(old(t)@, seg@),
{
    if t.len() > 0 && t[t.len() - 1] != '/' {
        t.push('/');
    }
    append(t, seg);
}

/// Applies one segment of a relative path to `t`, as `stepped` says.
fn step(t: &mut Vec<char>, seg: &Vec<char>)
    ensures
        final(t)@ == stepped(old(t)@, seg@),
{
    if seg.len() == 2 && seg[0] == '.' && seg[1] == '.' {
        pop(t);
    } else if seg.len() == 0 || (seg.len() == 1 && seg[0] == '.') {
    } else {
        push(t, seg);
    }
}

/// `candidate` as seen from the directory `base`, both as characters.
pub fn resolve_chars(base: &Vec<char>, candidate: &Vec<char>) -> (r: Vec<char>)
    ensures
        r@ == resolve(base@, candidate@),
{
    if candidate.len() > 0 && candidate[0] == '/' {
        return candidate.clone();
    }
    let segs = split_chars(candidate, '/');
    let mut acc = base.clone();
    let mut i: usize = 0;
    proof {
        assert(views(segs@).skip(0) =~= views(segs@));
    }
    while i < segs.len()
        invariant
            i <= segs.len(),
            views(segs@) == split(candidate@, '/'),
            walked(acc@, views(segs@).skip(i as int)) == walked(base@, views(segs@)),
        decreases segs.len() - i,
    {
        proof {
            assert(views(segs@).skip(i as int).drop_first() =~= views(segs@).skip(i + 1));
        }
        step(&mut acc, &segs[i]);
        i += 1;
    }
    acc
}

/// Whether the path starts at the root.
pub fn is_absolute(path: &str) -> (b: bool)
    ensures
        b == absolute(path@),
{
    let p = to_chars(path);
    p.len() > 0 && p[0] == '/'
}

/// The path without its last segment, or `None` where `path` names the
/// root or nothing at all.
pub fn parent(path: &str) -> (r: Option<String>)
    ensures
        match r {
            Some(p) => parent_of(path@) == Some(p@),
            None => parent_of(path@) is None,
        },
{
    let mut p = to_chars(path);
    match parent_length(&p) {
        Some(n) => {
            p.truncate(n);
            Some(from_chars(&p))
        },
        None => None,
    }
}

/// Resolves `path` against the directory `relative_to`. An absolute `path`
/// comes back unchanged. A relative one is walked from `relative_to`: each
/// `..` takes a segment off (at the root there is none to take, and the walk
/// goes on from the root), each name adds one, and empty segments and `.`
/// change nothing. Symbolic links are not followed.
pub fn canonicalize(relative_to: &str, path: &str) -> (r: String)
    ensures
        r@ == resolve(relative_to@, path@),
        absolute(path@) ==> r@ == path@,
        absolute(relative_to@) ==> absolute(r@),
{
    proof {
        if absolute(relative_to@) {
            law_resolve_stays_absolute(relative_to@, path@);
        }
    }
    let base = to_chars(relative_to);
    let candidate = to_chars(path);
    let r = resolve_chars(&base, &candidate);
    from_chars(&r)
}

} // verus!
