use adsmacroexpand::text::{chars_of, string_of};

#[test]
fn chars_of_gives_the_characters_in_order() {
    assert_eq!(chars_of(""), Vec::<char>::new());
    assert_eq!(chars_of("a\\b"), vec!['a', '\\', 'b']);
    assert_eq!(chars_of("żó日\u{1F600}"), vec!['ż', 'ó', '日', '\u{1F600}']);
}

#[test]
fn string_of_puts_the_characters_together() {
    assert_eq!(string_of(&Vec::new()), "");
    assert_eq!(string_of(&vec!['p', 'a', 'p', 'e', 'r']), "paper");
    assert_eq!(string_of(&vec!['ż', '\n', '日']), "ż\n日");
}

#[test]
fn string_of_undoes_chars_of() {
    for text in ["", "plain", "\\mnras", "Zażółć gęślą jaźń ∑ \u{1F600}\n"] {
        assert_eq!(string_of(&chars_of(text)), text);
    }
}
