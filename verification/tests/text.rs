use genuki::text::{append, append_str, from_chars, same_chars, same_text, spells, split_chars, to_chars};

fn chars(s: &str) -> Vec<char> {
    s.chars().collect()
}

#[test]
fn strings_and_characters_convert_both_ways() {
    for s in ["", "a", "linux.default", "é→ü", "a\nb"] {
        assert_eq!(to_chars(s), chars(s));
        assert_eq!(from_chars(&chars(s)), s);
    }
}

#[test]
fn equal_texts_are_told_from_unequal() {
    assert!(same_text("", ""));
    assert!(same_text("abc", "abc"));
    assert!(!same_text("abc", "abd"));
    assert!(!same_text("abc", "ab"));
    assert!(!same_text("", "a"));
    assert!(same_chars(&chars("é"), &chars("é")));
    assert!(spells(&chars("ID"), "ID"));
    assert!(!spells(&chars("ID"), "id"));
}

#[test]
fn appending_puts_text_behind() {
    let mut v = chars("ab");
    append(&mut v, &chars("cd"));
    assert_eq!(v, chars("abcd"));
    append_str(&mut v, "");
    append_str(&mut v, "é");
    assert_eq!(v, chars("abcdé"));
}

#[test]
fn split_agrees_with_the_standard_library() {
    for s in ["", "a", "/", "a/b", "/a/b/", "a//b", "///", "é/ü"] {
        let expected: Vec<Vec<char>> = s.split('/').map(chars).collect();
        assert_eq!(split_chars(&chars(s), '/'), expected, "text {:?}", s);
    }
    assert_eq!(split_chars(&chars("a,b"), ','), vec![chars("a"), chars("b")]);
}
