use adsmacroexpand::replace::replace_all;
use adsmacroexpand::text::{chars_of, string_of};

fn replace(text: &str, from: &str, to: &str) -> String {
    string_of(&replace_all(&chars_of(text), &chars_of(from), &chars_of(to)))
}

#[test]
fn replaces_every_occurrence() {
    assert_eq!(replace("a-b-c", "-", "+"), "a+b+c");
    assert_eq!(replace("abcabc", "abc", "x"), "xx");
    assert_eq!(replace("abcabc", "bc", ""), "aa");
    assert_eq!(replace("abc", "abc", "abc"), "abc");
}

#[test]
fn occurrences_do_not_overlap() {
    assert_eq!(replace("aaa", "aa", "b"), "ba");
    assert_eq!(replace("aaaa", "aa", "b"), "bb");
    assert_eq!(replace("ababa", "aba", "x"), "xba");
}

#[test]
fn what_was_put_in_is_not_searched() {
    assert_eq!(replace("ab", "a", "aa"), "aab");
    assert_eq!(replace("xay", "a", "xay"), "xxayy");
}

#[test]
fn a_missing_pattern_changes_nothing() {
    assert_eq!(replace("abc", "d", "x"), "abc");
    assert_eq!(replace("abc", "abcd", "x"), "abc");
    assert_eq!(replace("", "a", "x"), "");
}

#[test]
fn an_empty_pattern_occurs_before_every_character_and_at_the_end() {
    assert_eq!(replace("abc", "", "-"), "-a-b-c-");
    assert_eq!(replace("", "", "-"), "-");
}

#[test]
fn agrees_with_str_replace() {
    let texts = ["", "a", "aaa", "abcabcab", "\\apj\\apjl", "żółć żółw", "x\u{1F600}y\u{1F600}"];
    let patterns = ["", "a", "aa", "ab", "abc", "\\apj", "żół", "\u{1F600}", "zzz"];
    let replacements = ["", "b", "aa", "Astrophysical Journal", "ż"];
    for text in texts {
        for from in patterns {
            for to in replacements {
                assert_eq!(replace(text, from, to), text.replace(from, to));
            }
        }
    }
}
