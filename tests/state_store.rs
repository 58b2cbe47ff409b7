use prompt_builder::commands::{handle_add, handle_clear};
use prompt_builder::state::{file_block, is_blank};
use prompt_builder::walk::{lock_overrides, walk_builder};
use prompt_builder::{AppError, FileEntry, State};

fn entry(relative: &str, absolute: &str) -> FileEntry {
    FileEntry::new(relative.to_string(), absolute.to_string())
}

fn empty_state() -> State {
    State::new("state.json".to_string(), None).expect("no document gives the empty state")
}

fn relatives(st: &State) -> Vec<String> {
    st.files().iter().map(|e| e.relative_path.clone()).collect()
}

#[test]
fn missing_document_gives_empty_state() {
    let st = State::new("/cfg/state.json".to_string(), None).unwrap();
    assert!(st.is_empty());
    assert_eq!(st.path(), "/cfg/state.json");
}

#[test]
fn blank_document_gives_empty_state() {
    assert!(State::new("s".to_string(), Some("")).unwrap().is_empty());
    assert!(State::new("s".to_string(), Some("  \n\t\r\n")).unwrap().is_empty());
    assert!(State::new("s".to_string(), Some("\u{3000}\u{a0}")).unwrap().is_empty());
}

#[test]
fn non_blank_document_must_be_parsed() {
    assert!(State::new("s".to_string(), Some("{\"files\":[]}")).is_none());
    assert!(State::new("s".to_string(), Some("  x ")).is_none());
    assert!(State::new("s".to_string(), Some("{}")).is_none());
}

#[test]
fn blank_text() {
    assert!(is_blank(""));
    assert!(is_blank(" \t\n"));
    assert!(!is_blank(" a "));
    assert!(!is_blank("[]"));
    assert!(is_blank("\u{85}\u{2028}\u{202f}"));
    assert!(!is_blank("\u{200b}"));
}

#[test]
fn add_twice_adds_once() {
    let mut st = empty_state();
    let found = vec![entry("src/a.rs", "/p/src/a.rs"), entry("src/b.rs", "/p/src/b.rs")];
    assert_eq!(st.add_entries(&found), 2);
    assert_eq!(st.add_entries(&found), 0);
    assert_eq!(relatives(&st), vec!["src/a.rs", "src/b.rs"]);
}

#[test]
fn add_skips_known_canonical_paths() {
    let mut st = empty_state();
    assert_eq!(st.add_entries(&vec![entry("a.rs", "/p/a.rs")]), 1);
    let found = vec![
        entry("./a.rs", "/p/a.rs"),
        entry("c.rs", "/p/c.rs"),
        entry("link.rs", "/p/c.rs"),
        entry("b.rs", "/p/b.rs"),
    ];
    assert_eq!(st.add_entries(&found), 2);
    assert_eq!(relatives(&st), vec!["a.rs", "c.rs", "b.rs"]);
}

#[test]
fn add_nothing_changes_nothing() {
    let mut st = empty_state();
    assert_eq!(st.add_entries(&Vec::new()), 0);
    assert!(st.is_empty());
}

#[test]
fn reload_of_saved_entries_is_identical() {
    let mut st = empty_state();
    st.add_entries(&vec![entry("b.rs", "/p/b.rs"), entry("a.rs", "/p/a.rs")]);
    let copies: Vec<FileEntry> = st.files().iter().map(|e| e.copy()).collect();
    let back = State::from_entries(st.path().clone(), &copies);
    assert_eq!(relatives(&back), vec!["b.rs", "a.rs"]);
    assert_eq!(back.files()[1].absolute_path, "/p/a.rs");
    assert_eq!(back.path(), "state.json");
}

#[test]
fn loaded_duplicates_keep_the_first() {
    let st = State::from_entries(
        "s".to_string(),
        &vec![entry("x", "/p/x"), entry("y", "/p/x"), entry("z", "/p/z")],
    );
    assert_eq!(relatives(&st), vec!["x", "z"]);
}

#[test]
fn clear_empties_and_keeps_path() {
    let mut st = empty_state();
    st.add_entries(&vec![entry("a.rs", "/p/a.rs")]);
    st.clear();
    assert!(st.is_empty());
    assert_eq!(st.path(), "state.json");
    st.clear();
    assert!(st.is_empty());
}

#[test]
fn list_two_entries_in_order() {
    let mut st = empty_state();
    st.add_entries(&vec![entry("a.rs", "/p/a.rs"), entry("b.rs", "/p/b.rs")]);
    assert_eq!(st.list_lines(false), vec!["Files in state:", "- a.rs", "- b.rs"]);
}

#[test]
fn list_long_shows_canonical_paths() {
    let mut st = empty_state();
    st.add_entries(&vec![entry("a.rs", "/p/a.rs")]);
    assert_eq!(st.list_lines(true), vec!["Files in state:", "- a.rs (/p/a.rs)"]);
}

#[test]
fn list_empty_state() {
    assert_eq!(empty_state().list_lines(true), vec!["No files have been added yet."]);
}

#[test]
fn print_on_empty_state_fails() {
    match empty_state().check_printable() {
        Err(AppError::CustomError(m)) => assert_eq!(m, "No files to print!"),
        _ => panic!("expected the user error"),
    }
}

#[test]
fn print_on_filled_state_goes_ahead() {
    let mut st = empty_state();
    st.add_entries(&vec![entry("a.rs", "/p/a.rs")]);
    assert!(st.check_printable().is_ok());
}

#[test]
fn file_block_wraps_contents() {
    let e = entry("src/a.rs", "/p/src/a.rs");
    assert_eq!(file_block(&e, "fn a() {}"), "<file path=\"src/a.rs\">\nfn a() {}\n</file>");
    assert_eq!(file_block(&e, ""), "<file path=\"src/a.rs\">\n\n</file>");
}

#[test]
fn lock_files_are_left_out() {
    let ov = match lock_overrides("src/") {
        Ok(ov) => ov,
        Err(e) => panic!("overrides failed: {:?}", e),
    };
    assert!(ov.matched("src/x.lock", false).is_ignore());
    assert!(ov.matched("Cargo.lock", false).is_ignore());
    assert!(!ov.matched("src/a.rs", false).is_ignore());
}

#[test]
fn lock_exclusion_then_dedup_adds_two() {
    let ov = lock_overrides("src/").unwrap();
    let walked = ["src/a.rs", "src/b.rs", "src/x.lock"];
    let found: Vec<FileEntry> = walked
        .iter()
        .filter(|p| !ov.matched(p, false).is_ignore())
        .map(|p| entry(p, &format!("/p/{}", p)))
        .collect();
    let mut st = empty_state();
    assert_eq!(st.add_entries(&found), 2);
    assert_eq!(st.add_entries(&found), 0);
    assert_eq!(relatives(&st), vec!["src/a.rs", "src/b.rs"]);
}

#[test]
fn add_report_asks_for_save_only_on_change() {
    let mut st = empty_state();
    let found = vec![entry("src/a.rs", "/p/src/a.rs"), entry("src/b.rs", "/p/src/b.rs")];
    let first = handle_add(&mut st, &found);
    assert_eq!(first.added, 2);
    assert!(first.save);
    let second = handle_add(&mut st, &found);
    assert_eq!(second.added, 0);
    assert!(!second.save);
    assert_eq!(relatives(&st), vec!["src/a.rs", "src/b.rs"]);
}

#[test]
fn clear_of_empty_state_is_still_saved() {
    let mut st = empty_state();
    assert!(handle_clear(&mut st));
    assert!(st.is_empty());
}

#[test]
fn walk_of_source_tree_finds_library_files() {
    let builder = match walk_builder(&vec!["src".to_string()]) {
        Ok(b) => b,
        Err(e) => panic!("walk setup failed: {:?}", e),
    };
    let names: Vec<String> = builder
        .build()
        .filter_map(|r| r.ok())
        .filter(|e| e.file_type().map_or(false, |t| t.is_file()))
        .map(|e| e.path().to_string_lossy().into_owned())
        .collect();
    assert!(names.iter().any(|n| n.ends_with("lib.rs")));
    assert!(names.iter().all(|n| !n.ends_with(".lock")));
}

#[test]
fn walk_covers_every_pattern() {
    let builder = walk_builder(&vec!["src".to_string(), "tests".to_string()]).unwrap();
    let names: Vec<String> = builder
        .build()
        .filter_map(|r| r.ok())
        .map(|e| e.path().to_string_lossy().into_owned())
        .collect();
    assert!(names.iter().any(|n| n.ends_with("lib.rs")));
    assert!(names.iter().any(|n| n.ends_with("state_store.rs")));
}
