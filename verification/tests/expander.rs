use adsmacroexpand::expand::update_bibliography_file;
use adsmacroexpand::order::sort_by_length;
use adsmacroexpand::table::{mappings, Mapping};
use adsmacroexpand::text::string_of;

fn token_of(mapping: &Mapping) -> String {
    string_of(&mapping.token)
}

fn replacement_of(mapping: &Mapping) -> String {
    string_of(&mapping.replacement)
}

#[test]
fn expands_apj_and_apjl_in_a_sentence() {
    assert_eq!(
        update_bibliography_file("See \\apj and \\apjl for details."),
        "See Astrophysical Journal and Astrophysical Journal, Letters for details."
    );
}

#[test]
fn expands_mnras_alone() {
    assert_eq!(update_bibliography_file("\\mnras"), "Monthly Notices of the RAS");
}

#[test]
fn apjl_is_never_apj_with_an_l() {
    let out = update_bibliography_file("journal = {\\apjl},");
    assert_eq!(out, "journal = {Astrophysical Journal, Letters},");
    assert_ne!(out, "journal = {Astrophysical Journall},");
    assert_eq!(
        update_bibliography_file("\\apjs"),
        "Astrophysical Journal, Supplement"
    );
}

#[test]
fn tokens_that_start_with_another_token() {
    assert_eq!(
        update_bibliography_file("\\aap|\\aapr|\\aaps"),
        "Astronomy and Astrophysics|Astronomy and Astrophysics Reviews|Astronomy and Astrophysics, Supplement"
    );
    assert_eq!(
        update_bibliography_file("\\na \\nar \\nat"),
        "New Astronomy New Astronomy Review Nature"
    );
}

#[test]
fn text_without_tokens_is_unchanged() {
    let texts = [
        "",
        "plain text",
        "@article{key,\n  title = {A title},\n  year = 2020\n}\n",
        "a lone backslash \\ and an unknown \\macro and \\APJ in capitals",
        "Zażółć gęślą jaźń — ∑ 日本語 \u{1F600}",
        "trailing backslash \\",
        "\\a \\ap \\m \\mnra",
    ];
    for text in texts {
        assert_eq!(update_bibliography_file(text), text);
    }
}

#[test]
fn expanding_twice_changes_nothing() {
    let texts = [
        "See \\apj and \\apjl for details.",
        "\\\\apj \\ap\\jgr \\a\\jcp \\mn\\mnras",
        "journal = \\aap, volume = 1\njournal = \\mnras, volume = 2\n",
    ];
    for text in texts {
        let once = update_bibliography_file(text);
        assert_eq!(update_bibliography_file(&once), once);
    }
}

#[test]
fn a_token_is_matched_wherever_it_stands() {
    assert_eq!(update_bibliography_file("\\apjx"), "Astrophysical Journalx");
    assert_eq!(update_bibliography_file("x\\ao"), "xApplied Optics");
    assert_eq!(update_bibliography_file("\\\\prl"), "\\Physical Review Letters");
    assert_eq!(update_bibliography_file("\\ap\\jgr"), "\\apJournal of Geophysics Research");
    assert_eq!(
        update_bibliography_file("\\zap\\zap"),
        "Zeitschrift fuer AstrophysikZeitschrift fuer Astrophysik"
    );
    assert_eq!(update_bibliography_file("% \\icarus"), "% Icarus");
}

#[test]
fn text_around_tokens_is_kept() {
    assert_eq!(
        update_bibliography_file("é\\pasp ü\n\\pasj\t日本"),
        "éPublications of the ASP ü\nPublications of the ASJ\t日本"
    );
}

#[test]
fn every_token_expands_to_its_replacement() {
    let table = mappings();
    assert_eq!(table.len(), 60);
    for mapping in &table {
        assert_eq!(update_bibliography_file(&token_of(mapping)), replacement_of(mapping));
    }
}

#[test]
fn the_table_is_as_written() {
    let table = mappings();
    assert_eq!(token_of(&table[0]), "\\aas");
    assert_eq!(
        replacement_of(&table[0]),
        "American Astronomical Society Meeting Abstracts"
    );
    assert_eq!(token_of(&table[5]), "\\apjl");
    assert_eq!(replacement_of(&table[5]), "Astrophysical Journal, Letters");
    assert_eq!(token_of(&table[19]), "\\dps");
    assert_eq!(
        replacement_of(&table[19]),
        "American Astronomical Society/Division for Planetary Sciences Meeting Abstracts"
    );
    assert_eq!(token_of(&table[34]), "\\mnras");
    assert_eq!(token_of(&table[59]), "\\zap");
    assert_eq!(replacement_of(&table[59]), "Zeitschrift fuer Astrophysik");
}

#[test]
fn no_replacement_holds_a_token() {
    let table = mappings();
    for with in &table {
        let replacement = replacement_of(with);
        for mapping in &table {
            assert!(!replacement.contains(&token_of(mapping)));
        }
    }
}

#[test]
fn mapping_new_holds_both_texts() {
    let mapping = Mapping::new("\\aj", "Astronomical Journal");
    assert_eq!(mapping.token, vec!['\\', 'a', 'j']);
    assert_eq!(replacement_of(&mapping), "Astronomical Journal");
}

#[test]
fn sorting_is_by_ascending_length_and_stable() {
    let sorted = sort_by_length(mappings());
    let mut expected: Vec<(String, String)> = mappings()
        .iter()
        .map(|m| (token_of(m), replacement_of(m)))
        .collect();
    expected.sort_by_key(|pair| pair.0.len());
    let got: Vec<(String, String)> = sorted
        .iter()
        .map(|m| (token_of(m), replacement_of(m)))
        .collect();
    assert_eq!(got, expected);
    assert_eq!(got[0].0, "\\aj");
    assert_eq!(got[59].0, "\\procspie");
}

#[test]
fn sorting_small_tables() {
    assert_eq!(sort_by_length(Vec::new()).len(), 0);
    let table = vec![
        Mapping::new("ccc", "1"),
        Mapping::new("a", "2"),
        Mapping::new("bb", "3"),
        Mapping::new("d", "4"),
        Mapping::new("eee", "5"),
    ];
    let sorted: Vec<String> = sort_by_length(table).iter().map(replacement_of).collect();
    assert_eq!(sorted, vec!["2", "4", "3", "1", "5"]);
}

#[test]
fn expansion_agrees_with_passes_of_str_replace() {
    let texts = [
        "See \\apj and \\apjl for details.",
        "\\aas\\aj\\actaa\\araa\\apj\\apjl\\apjs\\ao\\apss\\aap\\aapr\\aaps\\aplett\\apspr",
        "\\physrep \\physscr \\planss \\pra\\prb\\prc\\prd\\pre\\prl \\procspie",
        "nothing here",
        "\\memras\\memsai\\mnras\\na\\nar\\nat\\nphysa",
    ];
    let mut table: Vec<(String, String)> = mappings()
        .iter()
        .map(|m| (token_of(m), replacement_of(m)))
        .collect();
    table.sort_by_key(|pair| pair.0.len());
    for text in texts {
        let mut expected = text.to_string();
        for (from, to) in table.iter().rev() {
            expected = expected.replace(from.as_str(), to.as_str());
        }
        assert_eq!(update_bibliography_file(text), expected);
    }
}
