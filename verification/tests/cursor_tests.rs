use rust_vim::cursor::{
    count_skipped, display_row_index, file_index, inline_index, is_invalid, left_bound,
    reach_from_width, slip_column, slip_column_right, snap_column,
};
use rust_vim::digits::push_decimal;
use rust_vim::glyph::{columns_from_measure, measure_glyph};
use rust_vim::wrap::{string_to_lines, DisplayLine};

fn row(line_num: usize, infile: usize, inline: usize, invalid: Vec<u16>) -> DisplayLine {
    let mut line = DisplayLine::new(line_num, infile, inline);
    line.invalid_cols = invalid;
    line
}

#[test]
fn display_row_counts_from_the_scroll_offset() {
    assert_eq!(display_row_index(0, 1), 0);
    assert_eq!(display_row_index(7, 3), 9);
}

#[test]
fn skipped_columns_are_those_left_of_the_cursor() {
    assert_eq!(count_skipped(&vec![2, 3, 4, 8], 1), 0);
    assert_eq!(count_skipped(&vec![2, 3, 4, 8], 4), 2);
    assert_eq!(count_skipped(&vec![2, 3, 4, 8], 5), 3);
    assert_eq!(count_skipped(&vec![2, 3, 4, 8], 9), 4);
}

#[test]
fn file_index_in_normal_mode() {
    let line = row(1, 10, 4, vec![]);
    assert_eq!(file_index(&line, 1, false, false), 11);
    assert_eq!(file_index(&line, 5, false, false), 15);
    assert_eq!(inline_index(&line, 5, false, false), 9);
}

#[test]
fn file_index_in_insert_mode_is_one_less() {
    let line = row(1, 10, 4, vec![]);
    assert_eq!(file_index(&line, 1, true, false), 10);
    assert_eq!(inline_index(&line, 1, true, false), 4);
}

#[test]
fn file_index_leaves_out_the_gutter() {
    let line = row(12, 30, 0, vec![]);
    assert_eq!(file_index(&line, 4, true, true), 30);
    assert_eq!(file_index(&line, 6, true, true), 32);
    assert_eq!(file_index(&line, 4, false, true), 31);
}

#[test]
fn file_index_leaves_out_columns_inside_glyphs() {
    // "ab\tcd": the tab takes columns 3 and 4, so "c" is in column 5.
    let lines = string_to_lines("ab\tcd", 10, false, &vec![]);
    assert_eq!(file_index(&lines[0], 3, true, false), 2);
    assert_eq!(file_index(&lines[0], 5, true, false), 3);
    assert_eq!(file_index(&lines[0], 6, true, false), 4);
}

#[test]
fn left_bound_is_past_the_gutter() {
    assert_eq!(left_bound(&row(1, 0, 0, vec![]), false), 1);
    assert_eq!(left_bound(&row(1, 0, 0, vec![]), true), 3);
    assert_eq!(left_bound(&row(10, 0, 0, vec![]), true), 4);
    assert_eq!(left_bound(&row(12345, 0, 0, vec![]), true), 7);
}

#[test]
fn reach_is_the_width_or_one_more() {
    assert_eq!(reach_from_width(0, false), 0);
    assert_eq!(reach_from_width(0, true), 1);
    assert_eq!(reach_from_width(6, false), 6);
    assert_eq!(reach_from_width(6, true), 7);
    assert_eq!(reach_from_width(70000, true), 65535);
    assert_eq!(reach_from_width(65535, false), 65535);
}

#[test]
fn snap_clamps_to_the_width() {
    assert_eq!(snap_column(9, 4, false, true), 4);
    assert_eq!(snap_column(9, 4, true, true), 5);
    assert_eq!(snap_column(3, 4, false, true), 3);
    assert_eq!(snap_column(9, 0, false, false), 1);
    assert_eq!(snap_column(9, 0, true, false), 1);
    assert_eq!(snap_column(9, 100000, false, true), 9);
}

#[test]
fn slip_moves_left_out_of_a_glyph() {
    assert_eq!(slip_column(4, &vec![2, 3, 4], 1), 1);
    assert_eq!(slip_column(3, &vec![3], 1), 2);
    assert_eq!(slip_column(5, &vec![2, 3, 4], 1), 5);
}

#[test]
fn slip_moves_right_out_of_the_gutter() {
    assert_eq!(slip_column(1, &vec![], 3), 3);
    assert_eq!(slip_column(4, &vec![4], 3), 3);
}

#[test]
fn slipping_right_stops_at_the_end_of_the_glyph() {
    assert_eq!(slip_column_right(1, &vec![2, 3, 4]), 4);
    assert_eq!(slip_column_right(5, &vec![2, 3, 4]), 5);
    assert_eq!(slip_column_right(65535, &vec![]), 65535);
}

#[test]
fn invalid_columns_are_found() {
    assert!(is_invalid(&vec![2, 5], 5));
    assert!(!is_invalid(&vec![2, 5], 3));
}

#[test]
fn decimal_digits_are_written_in_order() {
    let mut text = String::from("n=");
    push_decimal(&mut text, 0);
    push_decimal(&mut text, 7);
    push_decimal(&mut text, 1234567890);
    assert_eq!(text, "n=071234567890");
}

#[test]
fn glyphs_are_one_or_two_columns_wide() {
    assert_eq!(measure_glyph('a'), 1);
    assert_eq!(measure_glyph(' '), 1);
    assert_eq!(measure_glyph('\u{4e2d}'), 2);
    assert_eq!(measure_glyph('\u{2705}'), 2);
    assert_eq!(columns_from_measure(0), 1);
    assert_eq!(columns_from_measure(1), 1);
    assert_eq!(columns_from_measure(2), 2);
    assert_eq!(columns_from_measure(9), 2);
}
