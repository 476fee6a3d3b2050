use rust_vim::model::EditorModel;
use rust_vim::search::{char_offset_in, find_line_end, line_string, utf8_width};

#[test]
fn model_holds_its_text_and_file_name() {
    let model = EditorModel::new("notes.txt", "hello\nworld");
    assert_eq!(model.to_text(), "hello\nworld");
    assert_eq!(model.file_name, "notes.txt");
    assert_eq!(model.len_chars(), 11);
}

#[test]
fn insert_char_puts_the_character_at_the_index() {
    let mut model = EditorModel::new("f", "held");
    model.insert_char('l', 2);
    assert_eq!(model.to_text(), "helld");
    model.insert_char('!', 5);
    assert_eq!(model.to_text(), "helld!");
    model.insert_char('\u{4e2d}', 0);
    assert_eq!(model.to_text(), "\u{4e2d}helld!");
    assert_eq!(model.len_chars(), 7);
}

#[test]
fn delete_char_removes_one_character() {
    let mut model = EditorModel::new("f", "abc");
    assert!(model.delete_char(1));
    assert_eq!(model.to_text(), "ac");
    assert!(!model.delete_char(2));
    assert_eq!(model.to_text(), "ac");
}

#[test]
fn delete_range_removes_the_characters_between() {
    let mut model = EditorModel::new("f", "one\ntwo\nthree");
    model.delete_range(4, 8);
    assert_eq!(model.to_text(), "one\nthree");
    model.delete_range(2, 2);
    assert_eq!(model.to_text(), "one\nthree");
}

#[test]
fn delete_to_end_keeps_what_comes_before() {
    let mut model = EditorModel::new("f", "one\ntwo");
    model.delete_to_end(4);
    assert_eq!(model.to_text(), "one\n");
    model.delete_to_end(0);
    assert_eq!(model.to_text(), "");
}

#[test]
fn search_finds_matches_on_every_line() {
    let model = EditorModel::new("f", "cat\nbat\ncat\n");
    let found = model.run_search("cat").unwrap();
    assert_eq!(found, vec![0..3, 8..11]);
}

#[test]
fn search_finds_several_matches_on_a_line() {
    let model = EditorModel::new("f", "a cat, a cat\ncats");
    let found = model.run_search("cat").unwrap();
    assert_eq!(found, vec![2..5, 9..12, 13..16]);
}

#[test]
fn search_counts_characters_not_bytes() {
    let model = EditorModel::new("f", "\u{4e2d}\u{6587} caf\u{e9} a\u{e9}b\nn\u{e9}\u{e9}");
    let found = model.run_search("\u{e9}").unwrap();
    assert_eq!(found, vec![6..7, 9..10, 13..14, 14..15]);
}

#[test]
fn search_understands_regular_expressions() {
    let model = EditorModel::new("f", "a1 b22 c333");
    let found = model.run_search("[0-9]+").unwrap();
    assert_eq!(found, vec![1..2, 4..6, 8..11]);
}

#[test]
fn search_does_not_match_across_lines() {
    let model = EditorModel::new("f", "ab\ncd");
    assert!(model.run_search("b\nc").unwrap().is_empty());
    assert_eq!(model.run_search("^c").unwrap(), vec![3..4]);
}

#[test]
fn empty_query_finds_nothing() {
    let model = EditorModel::new("f", "anything");
    assert!(model.run_search("").unwrap().is_empty());
}

#[test]
fn query_without_matches_finds_nothing() {
    let model = EditorModel::new("f", "anything");
    assert!(model.run_search("zebra").unwrap().is_empty());
}

#[test]
fn invalid_pattern_is_an_error() {
    let model = EditorModel::new("f", "a(b");
    let error = model.run_search("a(b").unwrap_err();
    assert!(!error.message.is_empty());
}

#[test]
fn utf8_widths() {
    assert_eq!(utf8_width('a'), 1);
    assert_eq!(utf8_width('\u{e9}'), 2);
    assert_eq!(utf8_width('\u{4e2d}'), 3);
    assert_eq!(utf8_width('\u{1f600}'), 4);
}

#[test]
fn byte_offsets_become_character_offsets() {
    let chars: Vec<char> = "x\u{e9}\u{4e2d}yz".chars().collect();
    assert_eq!(char_offset_in(&chars, 0, 5, 0), 0);
    assert_eq!(char_offset_in(&chars, 0, 5, 1), 1);
    assert_eq!(char_offset_in(&chars, 0, 5, 3), 2);
    assert_eq!(char_offset_in(&chars, 0, 5, 6), 3);
    assert_eq!(char_offset_in(&chars, 0, 5, 8), 5);
    assert_eq!(char_offset_in(&chars, 1, 5, 2), 1);
}

#[test]
fn lines_end_after_their_newline() {
    let chars: Vec<char> = "ab\ncd".chars().collect();
    assert_eq!(find_line_end(&chars, 0), 3);
    assert_eq!(find_line_end(&chars, 3), 5);
    assert_eq!(find_line_end(&chars, 5), 5);
    assert_eq!(line_string(&chars, 0, 3), "ab\n");
    assert_eq!(line_string(&chars, 3, 5), "cd");
}
