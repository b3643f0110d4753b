//! Which targets are built: all of them, or those whose name matches one of
//! a set of regular expressions. The expressions are compiled and matched
//! by the `regex` crate.

use vstd::prelude::*;
use vstd::string::StringExecFns;
use crate::text::views;

verus! {

/// The compiled set of expressions of the `regex` crate. Nothing inside it
/// is looked at here.
#[verifier::external_type_specification]
#[verifier::external_body]
pub struct ExRegexSet(regex::RegexSet);

/// The error of the `regex` crate for expressions that do not compile. It
/// is handed on as it comes.
#[verifier::external_type_specification]
#[verifier::external_body]
pub struct ExRegexError(regex::Error);

/// The expressions that a set was compiled from, in the order in which
/// they were given.
pub uninterp spec fn set_patterns(set: regex::RegexSet) -> Seq<Seq<char>>;

/// Whether `regex::RegexSet::new` compiles `patterns` into a set: every one
/// of them is a valid expression, and the set stays within the size that
/// the crate allows a set that is built with nothing set but the
/// expressions.
pub uninterp spec fn set_compiles(patterns: Seq<Seq<char>>) -> bool;

/// Whether a set compiled from `patterns`, with nothing set but the
/// expressions, matches somewhere in `text`.
pub uninterp spec fn set_accepts(patterns: Seq<Seq<char>>, text: Seq<char>) -> bool;

/// Expressions compiled into one set. The only way to such a value is
/// `compile_patterns`, so every set in one was compiled by
/// `regex::RegexSet::new`, with the options that come with it.
#[derive(Debug)]
pub struct Patterns {
    set: regex::RegexSet,
}

impl View for Patterns {
    type V = Seq<Seq<char>>;

    closed spec fn view(&self) -> Seq<Seq<char>> {
        set_patterns(self.set)
    }
}

/// `regex::RegexSet::new` compiles the expressions into one set, or fails
/// where one of them is no valid expression or the set grows too large. It
/// builds with fixed options, so whether it succeeds depends on the
/// expressions alone. The set remembers the expressions it was compiled
/// from. A list without expressions always compiles: the crate's own
/// `RegexSet::empty` is this call on an empty list, unwrapped.
#[verifier::external_body]
fn compile(patterns: &Vec<String>) -> (r: Result<regex::RegexSet, regex::Error>)
    ensures
        r is Ok <==> set_compiles(views(patterns@)),
        r matches Ok(set) ==> set_patterns(set) == views(patterns@),
        patterns@.len() == 0 ==> r is Ok,
{
    regex::RegexSet::new(patterns)
}

/// `regex::RegexSet::is_match` tells whether at least one expression of
/// the set matches somewhere in the text. For a set compiled by
/// `regex::RegexSet::new` the answer depends on the expressions and on the
/// text, and on nothing else.
#[verifier::external_body]
fn is_match(patterns: &Patterns, text: &str) -> (b: bool)
    ensures
        b == set_accepts(patterns@, text@),
{
    patterns.set.is_match(text)
}

/// What is asked to be built.
#[derive(Debug, Clone, PartialEq, Eq)]
pub enum Selection {
    /// Every target.
    All,
    /// The targets whose name matches at least one of these regular
    /// expressions.
    Matching(Vec<String>),
}

/// A selection that could not be used: its expressions do not compile.
#[derive(Debug)]
pub struct BadPattern {
    pub cause: regex::Error,
}

/// The name of a target as people write it: kernel, dot, flavor.
pub open spec fn target_name(kernel: Seq<char>, flavor: Seq<char>) -> Seq<char> {
    kernel + "."@ + flavor
}

/// The targets of `targets` whose name a set compiled from `patterns`
/// matches, in the order of `targets`.
pub open spec fn selected(
    targets: Seq<(Seq<char>, Seq<char>)>,
    patterns: Seq<Seq<char>>,
) -> Seq<(Seq<char>, Seq<char>)>
    decreases targets.len(),
{
    if targets.len() == 0 {
        Seq::empty()
    } else {
        let before = selected(targets.drop_last(), patterns);
        let last = targets.last();
        if set_accepts(patterns, target_name(last.0, last.1)) {
            before.push(last)
        } else {
            before
        }
    }
}

/// The name of the target `kernel`, `flavor`.
pub fn human_name(kernel: &str, flavor: &str) -> (name: String)
    ensures
        name@ == target_name(kernel@, flavor@),
{
    let mut name = String::from_str(kernel);
    name.append(".");
    name.append(flavor);
    name
}

/// The set compiled from `patterns`. There is a set exactly where the
/// `regex` crate compiles the expressions, as it always does for a list
/// without expressions; the set is then made of them, in their order.
pub fn compile_patterns(patterns: &Vec<String>) -> (r: Result<Patterns, BadPattern>)
    ensures
        r is Ok <==> set_compiles(views(patterns@)),
        r matches Ok(compiled) ==> compiled@ == views(patterns@),
        patterns@.len() == 0 ==> r is Ok,
{
    match compile(patterns) {
        Ok(set) => Ok(Patterns { set }),
        Err(cause) => Err(BadPattern { cause }),
    }
}

/// The targets of `targets` whose name `set` matches, in the order of
/// `targets`.
pub fn select(targets: &Vec<(String, String)>, set: &Patterns) -> (chosen: Vec<(String, String)>)
    ensures
        views(chosen@) == selected(views(targets@), set@),
{
    let mut chosen: Vec<(String, String)> = Vec::new();
    let mut i: usize = 0;
    let ghost all = views(targets@);
    proof {
        assert(views(chosen@) =~= selected(all.take(0), set@));
    }
    while i < targets.len()
        invariant
            i <= targets.len(),
            all == views(targets@),
            views(chosen@) == selected(all.take(i as int), set@),
        decreases targets.len() - i,
    {
        let name = human_name(targets[i].0.as_str(), targets[i].1.as_str());
        let ghost before = views(chosen@);
        proof {
            assert(all.take(i + 1).drop_last() =~= all.take(i as int));
            assert(all.take(i + 1).last() == all[i as int]);
        }
        if is_match(set, name.as_str()) {
            chosen.push((targets[i].0.clone(), targets[i].1.clone()));
            proof {
                assert(views(chosen@) =~= before.push(all[i as int]));
            }
        }
        i += 1;
    }
    proof {
        assert(all.take(targets.len() as int) =~= all);
    }
    chosen
}

/// Whatever is selected from a list stands in that list.
pub proof fn law_selected_from_targets(
    targets: Seq<(Seq<char>, Seq<char>)>,
    patterns: Seq<Seq<char>>,
)
    ensures
        forall|i: int|
            0 <= i < selected(targets, patterns).len() ==> targets.contains(
                #[trigger] selected(targets, patterns)[i],
            ),
        forall|i: int|
            0 <= i < selected(targets, patterns).len() ==> set_accepts(
                patterns,
                target_name(
                    (#[trigger] selected(targets, patterns)[i]).0,
                    selected(targets, patterns)[i].1,
                ),
            ),
    decreases targets.len(),
{
    if targets.len() > 0 {
        let shorter = targets.drop_last();
        law_selected_from_targets(shorter, patterns);
        assert forall|i: int| 0 <= i < selected(targets, patterns).len() implies targets.contains(
            #[trigger] selected(targets, patterns)[i],
        ) by {
            let t = selected(targets, patterns)[i];
            if i < selected(shorter, patterns).len() {
                assert(shorter.contains(t));
                let j = choose|j: int| 0 <= j < shorter.len() && shorter[j] == t;
                assert(targets[j] == t);
            } else {
                assert(targets[targets.len() - 1] == t);
            }
        }
    }
}

/// A selection holds exactly the targets of the list that the set
/// matches, and holds none twice where the list holds none twice. A target
/// that several expressions match is still one target.
pub proof fn law_selected_are_the_matching(
    targets: Seq<(Seq<char>, Seq<char>)>,
    patterns: Seq<Seq<char>>,
)
    ensures
        forall|t: (Seq<char>, Seq<char>)| #[trigger]
            selected(targets, patterns).contains(t) <==> targets.contains(t) && set_accepts(
                patterns,
                target_name(t.0, t.1),
            ),
        targets.no_duplicates() ==> selected(targets, patterns).no_duplicates(),
    decreases targets.len(),
{
    let chosen = selected(targets, patterns);
    if targets.len() == 0 {
        assert forall|t: (Seq<char>, Seq<char>)| #[trigger]
            chosen.contains(t) <==> targets.contains(t) && set_accepts(
                patterns,
                target_name(t.0, t.1),
            ) by {}
    } else {
        let shorter = targets.drop_last();
        let last = targets.last();
        let before = selected(shorter, patterns);
        law_selected_are_the_matching(shorter, patterns);
        let taken = set_accepts(patterns, target_name(last.0, last.1));
        assert forall|t: (Seq<char>, Seq<char>)| #[trigger]
            chosen.contains(t) <==> targets.contains(t) && set_accepts(
                patterns,
                target_name(t.0, t.1),
            ) by {
            if chosen.contains(t) {
                let i = choose|i: int| 0 <= i < chosen.len() && chosen[i] == t;
                if i < before.len() {
                    assert(before[i] == t);
                    assert(before.contains(t));
                    let j = choose|j: int| 0 <= j < shorter.len() && shorter[j] == t;
                    assert(targets[j] == t);
                } else {
                    assert(targets[targets.len() - 1] == t);
                }
            }
            if targets.contains(t) && set_accepts(patterns, target_name(t.0, t.1)) {
                let j = choose|j: int| 0 <= j < targets.len() && targets[j] == t;
                if j < shorter.len() {
                    assert(shorter[j] == t);
                    assert(shorter.contains(t));
                    assert(before.contains(t));
                    let i = choose|i: int| 0 <= i < before.len() && before[i] == t;
                    assert(chosen[i] == t);
                } else {
                    assert(chosen[chosen.len() - 1] == t);
                }
            }
        }
        if targets.no_duplicates() {
            assert(shorter.no_duplicates()) by {
                assert forall|i: int, j: int|
                    0 <= i < shorter.len() && 0 <= j < shorter.len() && i != j implies shorter[i]
                    != shorter[j] by {
                    assert(shorter[i] == targets[i] && shorter[j] == targets[j]);
                }
            }
            assert forall|i: int, j: int|
                0 <= i < chosen.len() && 0 <= j < chosen.len() && i != j implies chosen[i]
                != chosen[j] by {
                if i < before.len() && j < before.len() {
                    assert(chosen[i] == before[i] && chosen[j] == before[j]);
                } else {
                    let k = if i < before.len() {
                        i
                    } else {
                        j
                    };
                    assert(chosen[k] == before[k]);
                    assert(before.contains(before[k]));
                    let m = choose|m: int| 0 <= m < shorter.len() && shorter[m] == before[k];
                    assert(targets[m] == before[k]);
                    assert(targets[targets.len() - 1] == last);
                }
            }
        }
    }
}

} // verus!
