//! The rewrite of an os-release description for one flavor: the line of
//! `PRETTY_NAME` gets a title of its own, the line of `ID` gets the flavor's
//! name behind its value, and every other line stays as it is.

use vstd::prelude::*;
use vstd::string::StringExecFns;
use crate::text::{
    append_str, find, find_char, from_chars, lemma_find, lemma_find_bounds, slice, spells, to_chars,
    views,
};

verus! {

/// The key of a line: what stands before its first `=`. A line without `=`
/// has no key.
pub open spec fn key_of(line: Seq<char>) -> Option<Seq<char>> {
    let n = find(line, '=');
    if 0 <= n < line.len() {
        Some(line.take(n))
    } else {
        None
    }
}

/// The value of a line: what stands behind its first `=`.
pub open spec fn value_of(line: Seq<char>) -> Option<Seq<char>> {
    let n = find(line, '=');
    if 0 <= n < line.len() {
        Some(line.skip(n + 1))
    } else {
        None
    }
}

/// The line that replaces `line`. A line without `=` is no assignment and
/// is passed on as it is.
pub open spec fn rewritten_line(line: Seq<char>, title: Seq<char>, flavor: Seq<char>) -> Seq<char> {
    if key_of(line) == Some("PRETTY_NAME"@) {
        "PRETTY_NAME=\""@ + title + "\""@
    } else if key_of(line) == Some("ID"@) {
        line + "-"@ + flavor
    } else {
        line
    }
}

/// The lines that replace `lines`, one for one.
pub open spec fn rewritten_lines(
    lines: Seq<Seq<char>>,
    title: Seq<char>,
    flavor: Seq<char>,
) -> Seq<Seq<char>> {
    lines.map_values(|line: Seq<char>| rewritten_line(line, title, flavor))
}

/// `line` without a carriage return at its end.
pub open spec fn without_cr(line: Seq<char>) -> Seq<char> {
    if line.len() > 0 && line.last() == '\r' {
        line.drop_last()
    } else {
        line
    }
}

/// The lines of a text. A line ends at a line feed, or at the end of the
/// text where the text does not end in a line feed; the line feed, and a
/// carriage return right before it, are not part of the line.
pub open spec fn lines_of(text: Seq<char>) -> Seq<Seq<char>>
    decreases text.len(),
{
    if text.len() == 0 {
        Seq::<Seq<char>>::empty()
    } else {
        let n = find(text, '\n');
        if 0 <= n < text.len() {
            seq![without_cr(text.take(n))] + lines_of(text.skip(n + 1))
        } else {
            seq![text]
        }
    }
}

/// The text made of `lines`, each followed by a line feed.
pub open spec fn joined_lines(lines: Seq<Seq<char>>) -> Seq<char>
    decreases lines.len(),
{
    if lines.len() == 0 {
        Seq::<char>::empty()
    } else {
        joined_lines(lines.drop_last()) + lines.last() + seq!['\n']
    }
}

/// The os-release text that replaces `text`.
pub open spec fn rewritten_text(text: Seq<char>, title: Seq<char>, flavor: Seq<char>) -> Seq<char> {
    joined_lines(rewritten_lines(lines_of(text), title, flavor))
}

/// The rewrite keeps the number of lines and touches two keys only: a line
/// whose key is neither `PRETTY_NAME` nor `ID` stays as it is, the line of
/// `PRETTY_NAME` becomes `PRETTY_NAME="<title>"`, and the line of `ID` keeps
/// its key and has `-<flavor>` behind its value, once.
pub proof fn law_rewrite_touches_two_keys(
    lines: Seq<Seq<char>>,
    title: Seq<char>,
    flavor: Seq<char>,
)
    ensures
        rewritten_lines(lines, title, flavor).len() == lines.len(),
        forall|i: int|
            0 <= i < lines.len() ==> {
                let before = #[trigger] lines[i];
                let after = rewritten_lines(lines, title, flavor)[i];
                &&& key_of(before) != Some("PRETTY_NAME"@) && key_of(before) != Some("ID"@)
                    ==> after == before
                &&& key_of(before) == Some("PRETTY_NAME"@) ==> after == "PRETTY_NAME=\""@ + title
                    + "\""@
                &&& key_of(before) == Some("ID"@) ==> key_of(after) == Some("ID"@) && value_of(
                    after,
                ) == Some(value_of(before).unwrap() + "-"@ + flavor)
            },
{
    reveal_strlit("PRETTY_NAME");
    reveal_strlit("ID");
    assert forall|i: int| 0 <= i < lines.len() implies {
        let before = #[trigger] lines[i];
        let after = rewritten_lines(lines, title, flavor)[i];
        key_of(before) == Some("ID"@) ==> key_of(after) == Some("ID"@) && value_of(after) == Some(
            value_of(before).unwrap() + "-"@ + flavor,
        )
    } by {
        let before = lines[i];
        if key_of(before) == Some("ID"@) {
            lemma_suffix_keeps_key(before, "-"@ + flavor);
            assert(before + "-"@ + flavor =~= before + ("-"@ + flavor));
            assert(before.skip(find(before, '=') + 1) + ("-"@ + flavor) =~= before.skip(
                find(before, '=') + 1,
            ) + "-"@ + flavor);
        }
    }
}

/// Text put behind an assignment leaves its key alone and lands behind its
/// value.
pub proof fn lemma_suffix_keeps_key(line: Seq<char>, suffix: Seq<char>)
    requires
        key_of(line) is Some,
    ensures
        key_of(line + suffix) == key_of(line),
        value_of(line + suffix) == Some(value_of(line).unwrap() + suffix),
{
    let n = find(line, '=');
    lemma_find_bounds(line, '=');
    lemma_find(line + suffix, '=', n);
    assert((line + suffix).take(n) =~= line.take(n));
    assert((line + suffix).skip(n + 1) =~= line.skip(n + 1) + suffix);
}

/// The line that replaces `line` in the os-release of the flavor `flavor`
/// with the title `title`.
pub fn rewrite_line(line: &str, title: &str, flavor: &str) -> (r: String)
    ensures
        r@ == rewritten_line(line@, title@, flavor@),
{
    let chars = to_chars(line);
    proof {
        assert(chars@.skip(0) =~= chars@);
    }
    let n = find_char(&chars, '=', 0);
    if n < chars.len() {
        let key = slice(&chars, 0, n);
        if spells(&key, "PRETTY_NAME") {
            let mut r = String::from_str("PRETTY_NAME=\"");
            r.append(title);
            r.append("\"");
            return r;
        }
        if spells(&key, "ID") {
            let mut r = String::from_str(line);
            r.append("-");
            r.append(flavor);
            return r;
        }
    }
    String::from_str(line)
}

/// The lines that replace `lines`, one for one and in the same order.
pub fn rewrite_lines(lines: &Vec<String>, title: &str, flavor: &str) -> (r: Vec<String>)
    ensures
        views(r@) == rewritten_lines(views(lines@), title@, flavor@),
{
    let mut r: Vec<String> = Vec::new();
    let mut i: usize = 0;
    while i < lines.len()
        invariant
            i <= lines.len(),
            views(r@) == rewritten_lines(views(lines@), title@, flavor@).take(i as int),
        decreases lines.len() - i,
    {
        let ghost before = views(r@);
        let line = rewrite_line(lines[i].as_str(), title, flavor);
        r.push(line);
        proof {
            assert(views(r@) =~= before.push(rewritten_line(lines@[i as int]@, title@, flavor@)));
        }
        i += 1;
    }
    proof {
        let all = rewritten_lines(views(lines@), title@, flavor@);
        assert(all.take(lines.len() as int) =~= all);
    }
    r
}

/// The lines of `text`.
pub fn split_lines(text: &str) -> (lines: Vec<String>)
    ensures
        views(lines@) == lines_of(text@),
{
    let chars = to_chars(text);
    let mut lines: Vec<String> = Vec::new();
    let mut i: usize = 0;
    proof {
        assert(chars@.skip(0) =~= chars@);
        assert(views(lines@) + lines_of(chars@) =~= lines_of(chars@));
    }
    while i < chars.len()
        invariant
            i <= chars.len(),
            chars@ == text@,
            views(lines@) + lines_of(chars@.skip(i as int)) == lines_of(chars@),
        decreases chars.len() - i,
    {
        let j = find_char(&chars, '\n', i);
        let ghost before = views(lines@);
        let ghost rest = chars@.skip(i as int);
        if j < chars.len() {
            let end = if j > i && chars[j - 1] == '\r' {
                j - 1
            } else {
                j
            };
            let line = slice(&chars, i, end);
            lines.push(from_chars(&line));
            proof {
                assert(rest.take(j - i) =~= chars@.subrange(i as int, j as int));
                assert(without_cr(rest.take(j - i)) =~= chars@.subrange(i as int, end as int));
                assert(rest.skip(j - i + 1) =~= chars@.skip(j + 1));
                assert(views(lines@) =~= before.push(without_cr(rest.take(j - i))));
                assert(before.push(without_cr(rest.take(j - i))) + lines_of(chars@.skip(j + 1))
                    =~= before + (seq![without_cr(rest.take(j - i))] + lines_of(
                    chars@.skip(j + 1),
                )));
            }
            i = j + 1;
        } else {
            let line = slice(&chars, i, j);
            lines.push(from_chars(&line));
            proof {
                assert(rest =~= chars@.subrange(i as int, j as int));
                assert(views(lines@) =~= before.push(rest));
                assert(before.push(rest) =~= before + seq![rest]);
                assert(chars@.skip(j as int) =~= Seq::<char>::empty());
                assert(views(lines@) + lines_of(chars@.skip(j as int)) =~= views(lines@));
            }
            i = j;
        }
    }
    proof {
        assert(chars@.skip(i as int) =~= Seq::<char>::empty());
        assert(views(lines@) + lines_of(chars@.skip(i as int)) =~= views(lines@));
    }
    lines
}

/// The text made of `lines`, each followed by a line feed.
pub fn join_lines(lines: &Vec<String>) -> (text: String)
    ensures
        text@ == joined_lines(views(lines@)),
{
    let mut out: Vec<char> = Vec::new();
    let mut i: usize = 0;
    while i < lines.len()
        invariant
            i <= lines.len(),
            out@ == joined_lines(views(lines@).take(i as int)),
        decreases lines.len() - i,
    {
        append_str(&mut out, lines[i].as_str());
        out.push('\n');
        proof {
            let upto = views(lines@).take(i + 1);
            assert(upto.drop_last() =~= views(lines@).take(i as int));
            assert(upto.last() == lines@[i as int]@);
        }
        i += 1;
    }
    proof {
        assert(views(lines@).take(lines.len() as int) =~= views(lines@));
    }
    from_chars(&out)
}

/// Rewrites the os-release text `text` for the flavor `flavor` with the
/// title `title`: line by line, every line ending in a line feed.
pub fn rewrite_os_release(text: &str, title: &str, flavor: &str) -> (r: String)
    ensures
        r@ == rewritten_text(text@, title@, flavor@),
{
    let lines = split_lines(text);
    let rewritten = rewrite_lines(&lines, title, flavor);
    join_lines(&rewritten)
}

} // verus!
