use adsmacroexpand::locator::{is_paper_md, paper_md, Entry, Location, Metadata, Search};
use std::path::PathBuf;

fn entry(file_name: &str, parent: &str, bibliography: Option<&str>) -> Entry<PathBuf> {
    Entry {
        file_name: Some(file_name.to_string()),
        parent: Some(PathBuf::from(parent)),
        metadata: bibliography.map(|name| Metadata { bibliography: name.to_string() }),
    }
}

fn path_of(location: Option<Location<PathBuf>>) -> Option<PathBuf> {
    location.map(|location| location.directory.join(location.file))
}

fn search(entries: Vec<Result<Entry<PathBuf>, ()>>) -> Option<PathBuf> {
    let mut search = Search::new();
    for entry in entries {
        search.visit(entry);
    }
    path_of(search.finish())
}

#[test]
fn test_load_paper_metadata() {
    let path = search(vec![
        Ok(entry("demo", "tests/data", None)),
        Ok(entry("paper.bib", "tests/data/demo", None)),
        Ok(entry("paper.md", "tests/data/demo", Some("paper.bib"))),
    ]);
    assert_eq!(path, Some(PathBuf::from("tests/data/demo/paper.bib")));
}

#[test]
fn test_load_paper_metadata_subdir() {
    let path = search(vec![
        Ok(entry("subdir", "tests/data", None)),
        Ok(entry("subdir", "tests/data/subdir", None)),
        Ok(entry("joss.bib", "tests/data/subdir/subdir", None)),
        Ok(entry("paper.md", "tests/data/subdir/subdir", Some("joss.bib"))),
    ]);
    assert_eq!(
        path,
        Some(PathBuf::from("tests/data/subdir/subdir/joss.bib"))
    );
}

#[test]
fn the_name_must_be_paper_md_exactly() {
    assert!(is_paper_md("paper.md"));
    for name in ["Paper.md", "paper.MD", "paper.markdown", "paper.md ", "apaper.md", "paper", ""] {
        assert!(!is_paper_md(name));
    }
}

#[test]
fn an_entry_that_names_a_bibliography() {
    let found = paper_md(Ok::<_, ()>(entry("paper.md", "project", Some("refs/paper.bib"))));
    let found = found.unwrap();
    assert_eq!(found.directory, PathBuf::from("project"));
    assert_eq!(found.file, "refs/paper.bib");
}

#[test]
fn entries_that_name_none() {
    assert!(paper_md(Err::<Entry<PathBuf>, &str>("permission denied")).is_none());
    assert!(paper_md(Ok::<_, ()>(entry("notes.md", "project", Some("paper.bib")))).is_none());
    assert!(paper_md(Ok::<_, ()>(entry("paper.md", "project", None))).is_none());
    let no_name = Entry {
        file_name: None,
        parent: Some(PathBuf::from("project")),
        metadata: Some(Metadata { bibliography: "paper.bib".to_string() }),
    };
    assert!(paper_md(Ok::<_, ()>(no_name)).is_none());
    let no_parent: Entry<PathBuf> = Entry {
        file_name: Some("paper.md".to_string()),
        parent: None,
        metadata: Some(Metadata { bibliography: "paper.bib".to_string() }),
    };
    assert!(paper_md(Ok::<_, ()>(no_parent)).is_none());
}

#[test]
fn no_paper_md_nothing_found() {
    assert_eq!(search(Vec::new()), None);
    assert_eq!(
        search(vec![
            Ok(entry("src", "project", None)),
            Err(()),
            Ok(entry("README.md", "project", Some("paper.bib"))),
        ]),
        None
    );
}

#[test]
fn an_undecoded_paper_md_is_passed_over() {
    let path = search(vec![
        Ok(entry("paper.md", "project/draft", None)),
        Err(()),
        Ok(entry("paper.md", "project/final", Some("final.bib"))),
    ]);
    assert_eq!(path, Some(PathBuf::from("project/final/final.bib")));
}

#[test]
fn the_first_paper_md_wins() {
    let path = search(vec![
        Ok(entry("paper.md", "a", Some("first.bib"))),
        Ok(entry("paper.md", "b", Some("second.bib"))),
    ]);
    assert_eq!(path, Some(PathBuf::from("a/first.bib")));
}

#[test]
fn the_search_says_when_it_is_done() {
    let mut search = Search::new();
    assert!(!search.is_done());
    search.visit(Ok::<_, ()>(entry("paper.md", "a", None)));
    assert!(!search.is_done());
    search.visit(Ok::<_, ()>(entry("paper.md", "deep/down/in/the/tree", Some("x.bib"))));
    assert!(search.is_done());
    search.visit(Ok::<_, ()>(entry("paper.md", "b", Some("y.bib"))));
    assert!(search.is_done());
    assert_eq!(
        path_of(search.finish()),
        Some(PathBuf::from("deep/down/in/the/tree/x.bib"))
    );
}

#[test]
fn directories_can_be_named_by_any_type() {
    let mut search = Search::new();
    search.visit(Ok::<_, ()>(Entry {
        file_name: Some("paper.md".to_string()),
        parent: Some(7u32),
        metadata: Some(Metadata { bibliography: "paper.bib".to_string() }),
    }));
    let found = search.finish().unwrap();
    assert_eq!(found.directory, 7);
    assert_eq!(found.file, "paper.bib");
}
