//! Paths with placeholders for the names of the kernel and the flavor.

use vstd::prelude::*;
use crate::text::{append, from_chars, same_chars, slice, to_chars};

verus! {

/// The placeholder for the name of the kernel.
pub const KERNEL_PLACEHOLDER: &'static str = "{kernel}";

/// The placeholder for the name of the flavor.
pub const FLAVOR_PLACEHOLDER: &'static str = "{flavor}";

/// `s` with every occurrence of `pattern` replaced by `with`. Occurrences
/// are found from the left and do not overlap; what has been put in is not
/// searched again. An empty pattern occurs nowhere.
pub open spec fn replaced(s: Seq<char>, pattern: Seq<char>, with: Seq<char>) -> Seq<char>
    decreases s.len(),
{
    if pattern.len() == 0 || s.len() < pattern.len() {
        s
    } else if s.take(pattern.len() as int) == pattern {
        with + replaced(s.skip(pattern.len() as int), pattern, with)
    } else {
        seq![s[0]] + replaced(s.skip(1), pattern, with)
    }
}

/// What a path with placeholders stands for: the name of the kernel is put
/// in first, the name of the flavor after that.
pub open spec fn filled(format: Seq<char>, kernel: Seq<char>, flavor: Seq<char>) -> Seq<char> {
    replaced(replaced(format, KERNEL_PLACEHOLDER@, kernel), FLAVOR_PLACEHOLDER@, flavor)
}

/// `s` with every occurrence of `pattern` replaced by `with`.
pub fn replace_all(s: &Vec<char>, pattern: &Vec<char>, with: &Vec<char>) -> (r: Vec<char>)
    ensures
        r@ == replaced(s@, pattern@, with@),
{
    if pattern.len() == 0 {
        return s.clone();
    }
    let mut out: Vec<char> = Vec::new();
    let mut i: usize = 0;
    proof {
        assert(s@.skip(0) =~= s@);
    }
    while i < s.len()
        invariant
            i <= s.len(),
            pattern.len() > 0,
            out@ + replaced(s@.skip(i as int), pattern@, with@) == replaced(s@, pattern@, with@),
        decreases s.len() - i,
    {
        let ghost rest = s@.skip(i as int);
        let ghost before = out@;
        let mut found = false;
        if pattern.len() <= s.len() - i {
            let window = slice(s, i, i + pattern.len());
            proof {
                assert(rest.take(pattern.len() as int) =~= s@.subrange(
                    i as int,
                    i + pattern.len(),
                ));
            }
            found = same_chars(&window, pattern);
        }
        if found {
            append(&mut out, with);
            proof {
                assert(rest.skip(pattern.len() as int) =~= s@.skip(i + pattern.len()));
                assert(before + with@ + replaced(s@.skip(i + pattern.len()), pattern@, with@)
                    =~= before + (with@ + replaced(s@.skip(i + pattern.len()), pattern@, with@)));
            }
            i += pattern.len();
        } else {
            out.push(s[i]);
            proof {
                assert(rest.skip(1) =~= s@.skip(i + 1));
                if rest.len() < pattern.len() {
                    assert(rest =~= seq![rest[0]] + rest.skip(1));
                }
                assert(before.push(s@[i as int]) + replaced(s@.skip(i + 1), pattern@, with@)
                    =~= before + (seq![rest[0]] + replaced(s@.skip(i + 1), pattern@, with@)));
            }
            i += 1;
        }
    }
    proof {
        assert(out@ + replaced(s@.skip(i as int), pattern@, with@) =~= out@);
    }
    out
}

/// A path in which `{kernel}` and `{flavor}` stand for the names of the
/// kernel and the flavor.
#[derive(Debug, Clone, PartialEq, Eq)]
pub struct FormatPath(pub String);

impl View for FormatPath {
    type V = Seq<char>;

    open spec fn view(&self) -> Seq<char> {
        self.0@
    }
}

impl FormatPath {
    /// The format written as `format`.
    pub fn new(format: String) -> (r: Self)
        ensures
            r@ == format@,
    {
        FormatPath(format)
    }

    /// The path for the target `kernel`, `flavor`: every `{kernel}` gives
    /// way to the name of the kernel, then every `{flavor}` to the name of
    /// the flavor.
    pub fn replace(&self, kernel: &str, flavor: &str) -> (path: String)
        ensures
            path@ == filled(self@, kernel@, flavor@),
    {
        let format = to_chars(self.0.as_str());
        let first = replace_all(&format, &to_chars(KERNEL_PLACEHOLDER), &to_chars(kernel));
        let second = replace_all(&first, &to_chars(FLAVOR_PLACEHOLDER), &to_chars(flavor));
        from_chars(&second)
    }
}

/// A text without the opening brace holds no placeholder and stands for
/// itself.
pub proof fn law_plain_format_unchanged(format: Seq<char>, kernel: Seq<char>, flavor: Seq<char>)
    requires
        forall|i: int| 0 <= i < format.len() ==> format[i] != '{',
    ensures
        filled(format, kernel, flavor) == format,
{
    reveal_strlit("{kernel}");
    reveal_strlit("{flavor}");
    lemma_replaced_without_first(format, KERNEL_PLACEHOLDER@, kernel);
    lemma_replaced_without_first(format, FLAVOR_PLACEHOLDER@, flavor);
}

/// A text that nowhere holds the first character of the pattern holds no
/// occurrence of it.
pub proof fn lemma_replaced_without_first(s: Seq<char>, pattern: Seq<char>, with: Seq<char>)
    requires
        pattern.len() > 0,
        forall|i: int| 0 <= i < s.len() ==> s[i] != pattern[0],
    ensures
        replaced(s, pattern, with) == s,
    decreases s.len(),
{
    if s.len() >= pattern.len() {
        assert(s.take(pattern.len() as int)[0] == s[0]);
        let rest = s.skip(1);
        assert forall|i: int| 0 <= i < rest.len() implies rest[i] != pattern[0] by {
            assert(rest[i] == s[i + 1]);
        }
        lemma_replaced_without_first(rest, pattern, with);
        assert(seq![s[0]] + rest =~= s);
    }
}

} // verus!
