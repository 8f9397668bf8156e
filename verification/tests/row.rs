use editr::highlighting::Type;
use editr::Row;

const NUMBER_ON: &str = "\x1b[38;2;220;163;163m";
const NUMBER_OFF: &str = "\x1b[39m";

fn text(row: &Row) -> String {
    String::from_utf8(row.as_bytes().to_vec()).unwrap()
}

#[test]
fn from_counts_graphemes_not_chars() {
    assert_eq!(Row::from("hello").len(), 5);
    assert_eq!(Row::from("").len(), 0);
    assert!(Row::from("").is_empty());
    assert!(!Row::from("a").is_empty());
    // "e" followed by a combining acute accent is one grapheme of two chars.
    let accented = Row::from("e\u{301}a");
    assert_eq!(accented.as_str().chars().count(), 3);
    assert_eq!(accented.len(), 2);
    // A family emoji joined by zero-width joiners is one grapheme.
    assert_eq!(Row::from("\u{1F468}\u{200D}\u{1F469}\u{200D}\u{1F467}").len(), 1);
}

#[test]
fn default_row_is_empty() {
    let row = Row::default();
    assert_eq!(row.len(), 0);
    assert_eq!(text(&row), "");
    assert!(row.highlighting().is_empty());
}

#[test]
fn update_len_keeps_the_content() {
    let mut row = Row::from("héllo");
    row.update_len();
    assert_eq!(row.len(), 5);
    assert_eq!(text(&row), "héllo");
}

#[test]
fn insert_in_the_middle() {
    let mut row = Row::from("held");
    row.insert(3, 'l');
    assert_eq!(text(&row), "helld");
    assert_eq!(row.len(), 5);
    row.insert(0, '>');
    assert_eq!(text(&row), ">helld");
}

#[test]
fn insert_at_or_past_the_end_appends() {
    let mut row = Row::from("ab");
    row.insert(2, 'c');
    assert_eq!(text(&row), "abc");
    row.insert(100, 'd');
    assert_eq!(text(&row), "abcd");
    assert_eq!(row.len(), 4);
}

#[test]
fn insert_counts_by_grapheme() {
    // Index 1 is after the whole accented letter, not inside it.
    let mut row = Row::from("e\u{301}z");
    row.insert(1, 'x');
    assert_eq!(text(&row), "e\u{301}xz");
    assert_eq!(row.len(), 3);
}

#[test]
fn insert_of_a_combining_mark_joins_the_grapheme_before() {
    let mut row = Row::from("e");
    row.insert(1, '\u{301}');
    assert_eq!(text(&row), "e\u{301}");
    assert_eq!(row.len(), 1);
}

#[test]
fn delete_removes_one_grapheme() {
    let mut row = Row::from("abc");
    row.delete(1);
    assert_eq!(text(&row), "ac");
    assert_eq!(row.len(), 2);
    let mut accented = Row::from("ae\u{301}b");
    accented.delete(1);
    assert_eq!(text(&accented), "ab");
    assert_eq!(accented.len(), 2);
}

#[test]
fn delete_past_the_end_does_nothing() {
    let mut row = Row::from("abc");
    row.delete(3);
    assert_eq!(text(&row), "abc");
    row.delete(77);
    assert_eq!(text(&row), "abc");
    assert_eq!(row.len(), 3);
}

#[test]
fn insert_then_delete_round_trips() {
    for at in 0..=5 {
        let mut row = Row::from("héllo");
        row.insert(at, 'x');
        assert_eq!(row.len(), 6);
        row.delete(at);
        assert_eq!(text(&row), "héllo");
        assert_eq!(row.len(), 5);
    }
}

#[test]
fn append_concatenates() {
    let mut row = Row::from("foo");
    row.append(&Row::from("bar"));
    assert_eq!(text(&row), "foobar");
    assert_eq!(row.len(), 6);
    row.append(&Row::from(""));
    assert_eq!(text(&row), "foobar");
}

#[test]
fn split_keeps_the_head_and_returns_the_tail() {
    let mut row = Row::from("hello world");
    let rest = row.split(5);
    assert_eq!(text(&row), "hello");
    assert_eq!(row.len(), 5);
    assert_eq!(text(&rest), " world");
    assert_eq!(rest.len(), 6);
}

#[test]
fn split_at_the_ends() {
    let mut row = Row::from("abc");
    let rest = row.split(0);
    assert_eq!(text(&row), "");
    assert_eq!(text(&rest), "abc");
    let mut row = Row::from("abc");
    let rest = row.split(3);
    assert_eq!(text(&row), "abc");
    assert_eq!(text(&rest), "");
    let mut row = Row::from("abc");
    let rest = row.split(10);
    assert_eq!(text(&row), "abc");
    assert_eq!(rest.len(), 0);
}

#[test]
fn split_then_append_gives_the_row_back() {
    for at in 0..=7 {
        let mut row = Row::from("ae\u{301}b c\td");
        let rest = row.split(at);
        row.append(&rest);
        assert_eq!(text(&row), "ae\u{301}b c\td");
        assert_eq!(row.len(), 7);
    }
}

#[test]
fn as_bytes_is_utf8() {
    assert_eq!(Row::from("hé").as_bytes(), &[b'h', 0xc3, 0xa9]);
    assert_eq!(Row::from("hé").as_str(), "hé");
}

#[test]
fn render_plain_text_passes_through() {
    let row = Row::from("hello world");
    assert_eq!(row.render(0, 11), "hello world");
    assert_eq!(row.render(6, 11), "world");
    assert_eq!(row.render(0, 5), "hello");
}

#[test]
fn render_clamps_the_window() {
    let row = Row::from("hello");
    assert_eq!(row.render(0, 100), "hello");
    assert_eq!(row.render(3, 100), "lo");
    assert_eq!(row.render(5, 100), "");
    assert_eq!(row.render(50, 100), "");
    // A start past the end is pulled back to the end.
    assert_eq!(row.render(4, 2), "");
    assert_eq!(row.render(0, 0), "");
}

#[test]
fn render_widens_tabs() {
    assert_eq!(Row::from("a\tb").render(0, 3), "a  b");
    assert_eq!(Row::from("\t").render(0, 1), "  ");
}

#[test]
fn render_colours_digits() {
    let row = Row::from("a1b");
    assert_eq!(row.render(0, 3), format!("a{}1{}b", NUMBER_ON, NUMBER_OFF));
    assert_eq!(
        Row::from("42").render(0, 2),
        format!("{}4{}{}2{}", NUMBER_ON, NUMBER_OFF, NUMBER_ON, NUMBER_OFF)
    );
    assert_eq!(Row::from("x9").render(0, 1), "x");
}

#[test]
fn render_shows_at_most_the_window() {
    let row = Row::from("abcdefghij");
    for start in 0..12 {
        for end in start..14 {
            let shown = row.render(start, end);
            assert!(shown.chars().count() <= end - start);
        }
    }
}

#[test]
fn render_goes_by_grapheme() {
    // A grapheme comes back whole, with all its characters.
    let row = Row::from("ae\u{301}b");
    assert_eq!(row.render(1, 2), "e\u{301}");
    assert_eq!(row.render(2, 3), "b");
    assert_eq!(row.render(0, 3), "ae\u{301}b");
    assert_eq!(Row::from("e\u{301}x").render(0, 2), "e\u{301}x");
    let family = "\u{1F468}\u{200D}\u{1F469}\u{200D}\u{1F467}";
    assert_eq!(Row::from(family).render(0, 1), family);
    assert_eq!(Row::from(family).render(1, 2), "");
}

#[test]
fn render_of_plain_text_is_the_text_in_the_window() {
    let row = Row::from("héllo wörld, ça va");
    assert_eq!(row.render(0, 100), "héllo wörld, ça va");
    assert_eq!(row.render(6, 11), "wörld");
}

#[test]
fn find_gives_a_grapheme_index() {
    let row = Row::from("héllo wörld");
    assert_eq!(row.find("wörld", 0), Some(6));
    assert_eq!(row.find("h", 0), Some(0));
    assert_eq!(row.find("llo", 0), Some(2));
    // Two chars per letter: the index counts graphemes.
    let row = Row::from("e\u{301}e\u{301}x");
    assert_eq!(row.find("x", 0), Some(2));
}

#[test]
fn find_starts_at_the_given_grapheme() {
    let row = Row::from("abcabc");
    assert_eq!(row.find("abc", 0), Some(0));
    assert_eq!(row.find("abc", 1), Some(3));
    assert_eq!(row.find("abc", 3), Some(3));
    assert_eq!(row.find("abc", 4), None);
    assert_eq!(row.find("c", 5), Some(5));
}

#[test]
fn find_without_a_match() {
    let row = Row::from("hello");
    assert_eq!(row.find("world", 0), None);
    assert_eq!(row.find("hello!", 0), None);
    assert_eq!(row.find("h", 5), None);
    assert_eq!(row.find("h", 50), None);
    assert_eq!(Row::from("").find("a", 0), None);
}

#[test]
fn find_of_nothing_matches_where_the_search_starts() {
    let row = Row::from("abc");
    assert_eq!(row.find("", 0), Some(0));
    assert_eq!(row.find("", 2), Some(2));
    assert_eq!(row.find("", 3), None);
}

#[test]
fn find_inside_a_grapheme_is_no_match() {
    // The accent alone occurs only inside the first grapheme.
    let row = Row::from("e\u{301}x");
    assert_eq!(row.find("\u{301}", 0), None);
    assert_eq!(row.find("x", 0), Some(1));
}

#[test]
fn highlight_marks_digits() {
    let mut row = Row::from("a1 2é");
    assert!(row.highlighting().is_empty());
    row.highlight();
    assert_eq!(
        row.highlighting(),
        &vec![Type::Plain, Type::Number, Type::Plain, Type::Number, Type::Plain]
    );
    assert_eq!(text(&row), "a1 2é");
}

#[test]
fn highlight_is_not_redone_by_edits() {
    let mut row = Row::from("12");
    row.highlight();
    row.insert(0, 'a');
    assert_eq!(row.highlighting(), &vec![Type::Number, Type::Number]);
    row.highlight();
    assert_eq!(row.highlighting(), &vec![Type::Plain, Type::Number, Type::Number]);
}
