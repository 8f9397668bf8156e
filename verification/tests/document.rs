use editr::document::{OpenError, SaveError};
use editr::{Document, Position};

fn lines(document: &Document) -> Vec<String> {
    (0..document.len()).map(|y| document.row(y).unwrap().as_str().to_string()).collect()
}

fn at(x: usize, y: usize) -> Position {
    Position { x, y }
}

#[test]
fn default_document_is_empty_and_clean() {
    let document = Document::default();
    assert_eq!(document.len(), 0);
    assert!(document.is_empty());
    assert!(!document.is_dirty());
    assert_eq!(document.file_name(), None);
    assert!(document.row(0).is_none());
    assert_eq!(document.contents(), "");
}

#[test]
fn open_makes_one_row_per_line() {
    let document = Document::open("notes.txt", Some("one\ntwo\nthree")).unwrap();
    assert_eq!(lines(&document), vec!["one", "two", "three"]);
    assert_eq!(document.len(), 3);
    assert!(!document.is_empty());
    assert_eq!(document.file_name(), Some("notes.txt"));
    assert!(!document.is_dirty());
    assert_eq!(document.row(1).unwrap().len(), 3);
    assert!(document.row(3).is_none());
}

#[test]
fn open_takes_a_closing_newline_as_the_end_of_the_last_line() {
    let document = Document::open("f", Some("one\ntwo\n")).unwrap();
    assert_eq!(lines(&document), vec!["one", "two"]);
    let document = Document::open("f", Some("one\n\n")).unwrap();
    assert_eq!(lines(&document), vec!["one", ""]);
    let document = Document::open("f", Some("\n")).unwrap();
    assert_eq!(lines(&document), vec![""]);
}

#[test]
fn open_drops_carriage_returns_before_newlines() {
    let document = Document::open("f", Some("one\r\ntwo\r\nthree\r")).unwrap();
    assert_eq!(lines(&document), vec!["one", "two", "three\r"]);
}

#[test]
fn open_of_an_empty_file_has_no_rows() {
    let document = Document::open("empty", Some("")).unwrap();
    assert_eq!(document.len(), 0);
    assert!(document.is_empty());
    assert_eq!(document.file_name(), Some("empty"));
}

#[test]
fn open_of_an_unreadable_file_fails() {
    assert!(matches!(Document::open("missing", None), Err(OpenError::NotFound)));
}

#[test]
fn open_highlights_every_row() {
    let document = Document::open("f", Some("a1\n22")).unwrap();
    assert_eq!(document.row(0).unwrap().highlighting().len(), 2);
    assert_eq!(document.row(1).unwrap().highlighting().len(), 2);
}

#[test]
fn contents_joins_rows_with_newlines() {
    let document = Document::open("f", Some("one\ntwo\nthree\n")).unwrap();
    assert_eq!(document.contents(), "one\ntwo\nthree");
    let document = Document::open("f", Some("only")).unwrap();
    assert_eq!(document.contents(), "only");
}

#[test]
fn insert_puts_a_character_into_a_row() {
    let mut document = Document::open("f", Some("ab\ncd")).unwrap();
    document.insert(&at(1, 0), 'x');
    assert_eq!(lines(&document), vec!["axb", "cd"]);
    document.insert(&at(2, 1), 'e');
    assert_eq!(lines(&document), vec!["axb", "cde"]);
    assert!(document.is_dirty());
    assert_eq!(document.row(0).unwrap().highlighting().len(), 3);
}

#[test]
fn insert_of_a_newline_splits_the_row() {
    let mut document = Document::open("f", Some("hello world\nnext")).unwrap();
    document.insert(&at(5, 0), '\n');
    assert_eq!(lines(&document), vec!["hello", " world", "next"]);
    assert!(document.is_dirty());
    document.insert(&at(0, 2), '\n');
    assert_eq!(lines(&document), vec!["hello", " world", "", "next"]);
    document.insert(&at(4, 3), '\n');
    assert_eq!(lines(&document), vec!["hello", " world", "", "next", ""]);
}

#[test]
fn insert_below_the_last_row_begins_a_row() {
    let mut document = Document::default();
    document.insert(&at(0, 0), 'a');
    assert_eq!(lines(&document), vec!["a"]);
    document.insert(&at(0, 1), '\n');
    assert_eq!(lines(&document), vec!["a", ""]);
    assert!(document.is_dirty());
}

#[test]
fn insert_far_below_the_document_changes_no_row() {
    let mut document = Document::open("f", Some("ab")).unwrap();
    document.insert(&at(0, 5), 'x');
    assert_eq!(lines(&document), vec!["ab"]);
    assert!(document.is_dirty());
}

#[test]
fn delete_removes_the_grapheme_at_the_position() {
    let mut document = Document::open("f", Some("abc\ndef")).unwrap();
    document.delete(&at(1, 0));
    assert_eq!(lines(&document), vec!["ac", "def"]);
    assert!(document.is_dirty());
}

#[test]
fn delete_at_the_end_of_a_row_joins_the_next_row() {
    let mut document = Document::open("f", Some("ab\ncd\nef")).unwrap();
    document.delete(&at(2, 0));
    assert_eq!(lines(&document), vec!["abcd", "ef"]);
    assert_eq!(document.len(), 2);
    assert!(document.is_dirty());
    assert_eq!(document.row(0).unwrap().highlighting().len(), 4);
}

#[test]
fn delete_at_the_end_of_the_last_row_changes_no_row() {
    let mut document = Document::open("f", Some("ab\ncd")).unwrap();
    document.delete(&at(2, 1));
    assert_eq!(lines(&document), vec!["ab", "cd"]);
    document.delete(&at(0, 2));
    assert_eq!(lines(&document), vec!["ab", "cd"]);
    assert!(document.is_dirty());
}

#[test]
fn dirty_flag_follows_edits_and_saves() {
    let mut document = Document::open("f", Some("ab")).unwrap();
    assert!(!document.is_dirty());
    document.insert(&at(0, 0), 'x');
    assert!(document.is_dirty());
    assert_eq!(document.save(true), Ok(()));
    assert!(!document.is_dirty());
    document.delete(&at(0, 0));
    assert!(document.is_dirty());
    assert_eq!(document.save(false), Err(SaveError::WriteFailed));
    assert!(document.is_dirty());
    assert_eq!(document.save(true), Ok(()));
    assert!(!document.is_dirty());
    assert_eq!(lines(&document), vec!["ab"]);
}

#[test]
fn set_file_name_names_the_document() {
    let mut document = Document::default();
    document.set_file_name("new.txt".to_string());
    assert_eq!(document.file_name(), Some("new.txt"));
    assert!(!document.is_dirty());
}

#[test]
fn find_goes_on_from_the_anchor_and_wraps() {
    let mut document = Document::open("f", Some("hello\nworld\nhello")).unwrap();
    // A first search leaves the anchor on line 1.
    assert_eq!(document.find("world"), Some(at(0, 1)));
    assert_eq!(document.find("hello"), Some(at(0, 2)));
    assert_eq!(document.find("hello"), Some(at(0, 0)));
    assert_eq!(document.find("hello"), Some(at(0, 2)));
}

#[test]
fn find_starts_at_the_top_of_a_fresh_document() {
    let mut document = Document::open("f", Some("abc abc\nabc")).unwrap();
    assert_eq!(document.find("abc"), Some(at(0, 0)));
    assert_eq!(document.find("abc"), Some(at(4, 0)));
    assert_eq!(document.find("abc"), Some(at(0, 1)));
    assert_eq!(document.find("abc"), Some(at(0, 0)));
}

#[test]
fn find_of_a_single_match_comes_back_to_it() {
    let mut document = Document::open("f", Some("one\ntwo xyz\nthree")).unwrap();
    assert_eq!(document.find("xyz"), Some(at(4, 1)));
    assert_eq!(document.find("xyz"), Some(at(4, 1)));
}

#[test]
fn find_without_a_match_gives_nothing_and_keeps_the_anchor() {
    let mut document = Document::open("f", Some("hello\nworld")).unwrap();
    assert_eq!(document.find("world"), Some(at(0, 1)));
    assert_eq!(document.find("absent"), None);
    assert_eq!(document.find("hello"), Some(at(0, 0)));
    assert_eq!(Document::default().find("a"), None);
}

#[test]
fn find_gives_grapheme_columns() {
    let mut document = Document::open("f", Some("héllo wörld")).unwrap();
    assert_eq!(document.find("wörld"), Some(at(6, 0)));
}

#[test]
fn find_does_not_change_the_document() {
    let mut document = Document::open("f", Some("ab\ncd")).unwrap();
    document.find("cd");
    assert!(!document.is_dirty());
    assert_eq!(lines(&document), vec!["ab", "cd"]);
}
