use rust_vim::controller::App;
use rust_vim::keys::{Action, Event, Key, SaveIntent};
use rust_vim::model::EditorModel;
use rust_vim::state::{Mode, QuitSelection};

fn session(text: &str, height: u16, width: u16) -> App {
    App::new(EditorModel::new("file.txt", text), height, width)
}

fn press(app: &mut App, key: Key) -> Action {
    app.handle_events(Event::Key(key))
}

fn type_text(app: &mut App, text: &str) {
    for c in text.chars() {
        press(app, Key::Char(c));
    }
}

fn command(app: &mut App, text: &str) -> Action {
    type_text(app, text);
    press(app, Key::Enter)
}

fn contents(app: &App) -> Vec<String> {
    app.get_content().iter().map(|l| l.line_content.clone()).collect()
}

#[test]
fn new_session_starts_at_the_top_left_in_normal_mode() {
    let app = session("hello\nworld", 10, 20);
    assert_eq!(*app.get_app_mode(), Mode::Normal);
    assert_eq!(app.get_cursor_pos(), (1, 1));
    assert_eq!(app.get_scroll_amount(), 0);
    assert_eq!(app.get_scroll_help_amount(), 0);
    assert_eq!(*app.get_quit_selection(), QuitSelection::Cancel);
    assert_eq!(app.get_msg_display(), "");
    assert_eq!(app.get_filename(), "file.txt");
    assert_eq!(app.get_text(), "hello\nworld");
    assert!(!app.get_show_line_num());
    assert!(!app.get_show_highlights());
    assert!(app.running());
    assert_eq!(contents(&app), vec!["hello", "world"]);
}

#[test]
fn new_session_in_a_low_terminal_is_minimized() {
    let app = session("hello", 4, 20);
    assert_eq!(*app.get_app_mode(), Mode::Minimized);
    assert_eq!(app.get_cursor_pos(), (1, 1));
}

#[test]
fn cursor_bounds_follow_the_terminal_size() {
    let app = session("hello", 12, 30);
    assert_eq!(app.term_top_cursor_bound(), 1);
    assert_eq!(app.term_bottom_cursor_bound(), 8);
    assert_eq!(app.term_left_cursor_bound(), 1);
    assert_eq!(app.term_right_cursor_bound(), 28);
}

#[test]
fn mode_text_names_the_mode() {
    let mut app = session("hello", 10, 20);
    assert_eq!(
        app.get_mode_text(),
        "Normal Mode [z]=>Help [i]=>Insert [:]=>Command [/]=>Search"
    );
    press(&mut app, Key::Char('i'));
    assert_eq!(app.get_mode_text(), "Insertion Mode [ESC]=>Exit");
    press(&mut app, Key::Esc);
    press(&mut app, Key::Char(':'));
    assert_eq!(app.get_mode_text(), "Command Mode [ENTER]=>Submit [ESC]=>Exit");
    press(&mut app, Key::Esc);
    press(&mut app, Key::Char('/'));
    assert_eq!(app.get_mode_text(), "Search Mode [ENTER]=>Submit [ESC]=>Exit");
    press(&mut app, Key::Esc);
    press(&mut app, Key::Char('z'));
    assert_eq!(app.get_mode_text(), "Help Page [ESC]=>Exit [^][v] to Scroll Help Text");
    press(&mut app, Key::Esc);
    command(&mut app, ":q");
    assert_eq!(app.get_mode_text(), "[<][>] to select, [ENTER]=>Confirm, [ESC]=>Cancel");
    app.update_term_size(3, 20);
    assert_eq!(app.get_mode_text(), "Please Enlarge Terminal Window");
}

#[test]
fn left_move_at_document_start() {
    let mut app = session("hello", 10, 20);
    press(&mut app, Key::Left);
    assert_eq!(app.get_cursor_pos(), (1, 1));
    assert_eq!(app.get_scroll_amount(), 0);
    assert_eq!(app.get_msg_display(), "Error: Start of file reached");
    app.cursor_left();
    assert_eq!(app.get_cursor_pos(), (1, 1));
    assert_eq!(app.get_msg_display(), "Error: Start of file reached");
}

#[test]
fn up_move_at_document_start() {
    let mut app = session("hello", 10, 20);
    press(&mut app, Key::Char('k'));
    assert_eq!(app.get_cursor_pos(), (1, 1));
    assert_eq!(app.get_msg_display(), "Error: Start of file reached");
}

#[test]
fn status_is_cleared_by_the_next_key() {
    let mut app = session("hello", 10, 20);
    press(&mut app, Key::Left);
    assert_eq!(app.get_msg_display(), "Error: Start of file reached");
    press(&mut app, Key::Other);
    assert_eq!(app.get_msg_display(), "");
}

#[test]
fn right_moves_step_over_a_tab() {
    let mut app = session("ab\tcd", 10, 10);
    assert_eq!(contents(&app), vec!["ab  cd"]);
    press(&mut app, Key::Right);
    assert_eq!(app.get_cursor_pos(), (1, 2));
    press(&mut app, Key::Char('l'));
    assert_eq!(app.get_cursor_pos(), (1, 3));
    press(&mut app, Key::Right);
    assert_eq!(app.get_cursor_pos(), (1, 5));
    press(&mut app, Key::Right);
    assert_eq!(app.get_cursor_pos(), (1, 6));
    press(&mut app, Key::Right);
    assert_eq!(app.get_cursor_pos(), (1, 6));
    assert_eq!(app.get_msg_display(), "Error: End of file reached");
    press(&mut app, Key::Left);
    assert_eq!(app.get_cursor_pos(), (1, 5));
    assert_eq!(app.get_msg_display(), "");
    press(&mut app, Key::Char('h'));
    assert_eq!(app.get_cursor_pos(), (1, 3));
}

#[test]
fn right_move_at_the_end_of_a_row_goes_to_the_next_row() {
    let mut app = session("ab\ncd", 10, 20);
    press(&mut app, Key::Right);
    press(&mut app, Key::Right);
    assert_eq!(app.get_cursor_pos(), (2, 1));
    press(&mut app, Key::Left);
    assert_eq!(app.get_cursor_pos(), (1, 2));
}

#[test]
fn down_move_snaps_to_a_shorter_row() {
    let mut app = session("abcdef\nxy\n\nlonger", 10, 20);
    for _ in 0..4 {
        press(&mut app, Key::Right);
    }
    assert_eq!(app.get_cursor_pos(), (1, 5));
    press(&mut app, Key::Down);
    assert_eq!(app.get_cursor_pos(), (2, 2));
    press(&mut app, Key::Char('j'));
    assert_eq!(app.get_cursor_pos(), (3, 1));
    press(&mut app, Key::Down);
    assert_eq!(app.get_cursor_pos(), (4, 1));
    press(&mut app, Key::Down);
    assert_eq!(app.get_cursor_pos(), (4, 1));
    assert_eq!(app.get_msg_display(), "Error: End of file reached");
}

#[test]
fn down_move_slips_out_of_a_tab() {
    let mut app = session("abcd\n\tx", 10, 20);
    press(&mut app, Key::Right);
    press(&mut app, Key::Right);
    assert_eq!(app.get_cursor_pos(), (1, 3));
    press(&mut app, Key::Down);
    assert_eq!(app.get_cursor_pos(), (2, 1));
}

#[test]
fn moves_scroll_at_the_edges_of_the_viewport() {
    let mut app = session("0\n1\n2\n3\n4\n5\n6\n7\n8\n9", 8, 20);
    assert_eq!(app.term_bottom_cursor_bound(), 4);
    for _ in 0..3 {
        press(&mut app, Key::Down);
    }
    assert_eq!(app.get_cursor_pos(), (4, 1));
    assert_eq!(app.get_scroll_amount(), 0);
    press(&mut app, Key::Down);
    assert_eq!(app.get_cursor_pos(), (4, 1));
    assert_eq!(app.get_scroll_amount(), 1);
    assert_eq!(app.get_cursor_display_row(), 4);
    for _ in 0..5 {
        press(&mut app, Key::Down);
    }
    assert_eq!(app.get_scroll_amount(), 6);
    assert_eq!(app.get_cursor_display_row(), 9);
    assert_eq!(app.get_msg_display(), "");
    press(&mut app, Key::Down);
    assert_eq!(app.get_scroll_amount(), 6);
    assert_eq!(app.get_cursor_pos(), (4, 1));
    assert_eq!(app.get_msg_display(), "Error: End of file reached");
    for _ in 0..3 {
        press(&mut app, Key::Up);
    }
    assert_eq!(app.get_cursor_pos(), (1, 1));
    assert_eq!(app.get_scroll_amount(), 6);
    press(&mut app, Key::Up);
    assert_eq!(app.get_cursor_pos(), (1, 1));
    assert_eq!(app.get_scroll_amount(), 5);
    press(&mut app, Key::Left);
    assert_eq!(app.get_cursor_pos(), (1, 1));
    assert_eq!(app.get_scroll_amount(), 4);
    press(&mut app, Key::Right);
    assert_eq!(app.get_cursor_pos(), (2, 1));
}

#[test]
fn right_move_scrolls_at_the_bottom_of_the_viewport() {
    let mut app = session("0\n1\n2\n3\n4\n5", 8, 20);
    for _ in 0..3 {
        press(&mut app, Key::Down);
    }
    press(&mut app, Key::Right);
    assert_eq!(app.get_cursor_pos(), (4, 1));
    assert_eq!(app.get_scroll_amount(), 1);
}

#[test]
fn cursor_is_never_inside_a_glyph_after_a_move() {
    let mut app = session("\ta\u{4e2d}b\n\u{4e2d}\t\tx\nplain\n\t", 9, 9);
    let keys = [
        Key::Right, Key::Down, Key::Right, Key::Right, Key::Up, Key::Down, Key::Down, Key::Left,
        Key::Up, Key::Right, Key::Right, Key::Right, Key::Down, Key::Down, Key::Down, Key::Left,
        Key::Left, Key::Up, Key::Up, Key::Up, Key::Up, Key::Right, Key::Down,
    ];
    for key in keys {
        press(&mut app, key);
        let (_, col) = app.get_cursor_pos();
        let row = &app.get_content()[app.get_cursor_display_row()];
        assert!(!row.invalid_cols.contains(&col));
        assert!(col >= app.term_left_cursor_bound());
    }
}

#[test]
fn typing_inserts_at_the_caret() {
    let mut app = session("", 10, 20);
    press(&mut app, Key::Char('i'));
    assert_eq!(*app.get_app_mode(), Mode::Insert);
    type_text(&mut app, "hi");
    assert_eq!(app.get_text(), "hi");
    assert_eq!(app.get_cursor_pos(), (1, 3));
    assert_eq!(app.get_cursor_file_index(), 2);
    press(&mut app, Key::Enter);
    assert_eq!(app.get_text(), "hi\n");
    assert_eq!(app.get_cursor_pos(), (2, 1));
    type_text(&mut app, "x");
    assert_eq!(app.get_text(), "hi\nx");
    assert_eq!(app.get_cursor_pos(), (2, 2));
    assert_eq!(contents(&app), vec!["hi", "x"]);
}

#[test]
fn typing_in_the_middle_of_a_line() {
    let mut app = session("ac", 10, 20);
    press(&mut app, Key::Char('i'));
    press(&mut app, Key::Right);
    press(&mut app, Key::Char('b'));
    assert_eq!(app.get_text(), "abc");
    assert_eq!(app.get_cursor_pos(), (1, 3));
}

#[test]
fn typing_a_tab_moves_past_it() {
    let mut app = session("", 10, 20);
    press(&mut app, Key::Char('i'));
    press(&mut app, Key::Tab);
    assert_eq!(app.get_text(), "\t");
    assert_eq!(app.get_cursor_pos(), (1, 5));
    assert_eq!(app.get_cursor_file_index(), 1);
    assert_eq!(app.get_cursor_inline_index(), 1);
}

#[test]
fn typing_at_the_end_of_a_full_row_follows_the_character() {
    let mut app = session("abc", 10, 5);
    press(&mut app, Key::Char('i'));
    for _ in 0..3 {
        press(&mut app, Key::Right);
    }
    assert_eq!(app.get_cursor_pos(), (1, 4));
    press(&mut app, Key::Char('d'));
    assert_eq!(app.get_text(), "abcd");
    assert_eq!(contents(&app), vec!["abc", "d"]);
    assert_eq!(app.get_cursor_pos(), (2, 2));
}

#[test]
fn backspace_deletes_the_character_before_the_caret() {
    let mut app = session("hi\n", 10, 20);
    press(&mut app, Key::Char('i'));
    press(&mut app, Key::Down);
    assert_eq!(app.get_cursor_pos(), (2, 1));
    press(&mut app, Key::Backspace);
    assert_eq!(app.get_text(), "hi");
    assert_eq!(app.get_cursor_pos(), (1, 3));
    press(&mut app, Key::Backspace);
    assert_eq!(app.get_text(), "h");
    assert_eq!(app.get_cursor_pos(), (1, 2));
}

#[test]
fn backspace_at_the_start_of_the_document() {
    let mut app = session("hi", 10, 20);
    press(&mut app, Key::Char('I'));
    press(&mut app, Key::Backspace);
    assert_eq!(app.get_text(), "hi");
    assert_eq!(app.get_cursor_pos(), (1, 1));
    assert_eq!(app.get_msg_display(), "Error: Start of file reached");
}

#[test]
fn delete_removes_the_character_at_the_caret() {
    let mut app = session("ab", 10, 20);
    press(&mut app, Key::Char('i'));
    press(&mut app, Key::Delete);
    assert_eq!(app.get_text(), "b");
    press(&mut app, Key::Delete);
    assert_eq!(app.get_text(), "");
    assert_eq!(app.get_msg_display(), "");
    press(&mut app, Key::Delete);
    assert_eq!(app.get_text(), "");
    assert_eq!(app.get_msg_display(), "Error: End of file reached");
    assert_eq!(app.get_cursor_pos(), (1, 1));
}

#[test]
fn delete_that_removes_the_cursor_row_brings_the_cursor_back() {
    let mut app = session("abc", 10, 5);
    press(&mut app, Key::Char('i'));
    for _ in 0..3 {
        press(&mut app, Key::Right);
    }
    press(&mut app, Key::Char('d'));
    press(&mut app, Key::Left);
    assert_eq!(app.get_cursor_pos(), (2, 1));
    press(&mut app, Key::Delete);
    assert_eq!(app.get_text(), "abc");
    assert_eq!(contents(&app), vec!["abc"]);
    assert_eq!(app.get_cursor_pos(), (1, 1));
}

#[test]
fn leaving_insert_mode_snaps_the_cursor_onto_a_character() {
    let mut app = session("ab", 10, 20);
    press(&mut app, Key::Char('i'));
    press(&mut app, Key::Right);
    press(&mut app, Key::Right);
    assert_eq!(app.get_cursor_pos(), (1, 3));
    press(&mut app, Key::Esc);
    assert_eq!(*app.get_app_mode(), Mode::Normal);
    assert_eq!(app.get_cursor_pos(), (1, 2));
}

#[test]
fn file_index_in_normal_mode_counts_from_one() {
    let mut app = session("hello", 10, 20);
    assert_eq!(app.get_cursor_file_index(), 1);
    assert_eq!(app.get_cursor_inline_index(), 1);
    press(&mut app, Key::Right);
    assert_eq!(app.get_cursor_file_index(), 2);
}

#[test]
fn command_input_is_shown_and_edited() {
    let mut app = session("hello", 10, 20);
    press(&mut app, Key::Char(':'));
    assert_eq!(*app.get_app_mode(), Mode::Command);
    assert_eq!(app.get_msg_display(), ":");
    type_text(&mut app, "nux");
    assert_eq!(app.get_msg_display(), ":nux");
    press(&mut app, Key::Backspace);
    assert_eq!(app.get_msg_display(), ":nu");
    press(&mut app, Key::Up);
    assert_eq!(app.get_msg_display(), ":nu");
    press(&mut app, Key::Backspace);
    press(&mut app, Key::Backspace);
    assert_eq!(app.get_msg_display(), ":");
    assert_eq!(*app.get_app_mode(), Mode::Command);
    press(&mut app, Key::Backspace);
    assert_eq!(app.get_msg_display(), "");
    assert_eq!(*app.get_app_mode(), Mode::Normal);
}

#[test]
fn escape_leaves_command_mode() {
    let mut app = session("hello", 10, 20);
    type_text(&mut app, ":dd");
    press(&mut app, Key::Esc);
    assert_eq!(*app.get_app_mode(), Mode::Normal);
    assert_eq!(app.get_msg_display(), "");
    assert_eq!(app.get_text(), "hello");
}

#[test]
fn unknown_command_is_reported() {
    let mut app = session("hello", 10, 20);
    let action = command(&mut app, ":frobnicate");
    assert_eq!(action, Action::Nothing);
    assert_eq!(*app.get_app_mode(), Mode::Normal);
    assert_eq!(app.get_msg_display(), "Error: Invalid Command");
}

#[test]
fn write_command_asks_for_a_save() {
    for text in [":w", ":write"] {
        let mut app = session("hello", 10, 20);
        assert_eq!(command(&mut app, text), Action::Save(SaveIntent::Write));
        assert_eq!(*app.get_app_mode(), Mode::Normal);
        app.save_finished(SaveIntent::Write, None);
        assert_eq!(app.get_msg_display(), "Wrote file");
        assert!(app.running());
    }
}

#[test]
fn failed_write_is_reported() {
    let mut app = session("hello", 10, 20);
    command(&mut app, ":w");
    app.save_finished(SaveIntent::Write, Some(String::from("disk full")));
    assert_eq!(app.get_msg_display(), "Error: could not write file: disk full");
    assert_eq!(*app.get_app_mode(), Mode::Normal);
    assert!(app.running());
}

#[test]
fn write_and_quit_ends_the_session_after_the_save() {
    let mut app = session("hello", 10, 20);
    assert_eq!(command(&mut app, ":wq"), Action::Save(SaveIntent::WriteQuit));
    assert!(app.running());
    app.save_finished(SaveIntent::WriteQuit, None);
    assert!(!app.running());
}

#[test]
fn failed_write_and_quit_goes_on() {
    let mut app = session("hello", 10, 20);
    command(&mut app, ":wq");
    app.save_finished(SaveIntent::WriteQuit, Some(String::from("no space")));
    assert!(app.running());
    assert_eq!(*app.get_app_mode(), Mode::Normal);
    assert_eq!(app.get_msg_display(), "Error: could not write file: no space");
}

#[test]
fn quit_command_opens_the_quit_selection() {
    for text in [":q", ":quit"] {
        let mut app = session("hello", 10, 20);
        assert_eq!(command(&mut app, text), Action::Nothing);
        assert_eq!(*app.get_app_mode(), Mode::Quit);
        assert_eq!(*app.get_quit_selection(), QuitSelection::Cancel);
        assert!(app.running());
    }
}

#[test]
fn quit_selection_moves_without_wrapping() {
    let mut app = session("hello", 10, 20);
    command(&mut app, ":q");
    press(&mut app, Key::Right);
    assert_eq!(*app.get_quit_selection(), QuitSelection::Cancel);
    press(&mut app, Key::Left);
    assert_eq!(*app.get_quit_selection(), QuitSelection::NoSaveQuit);
    press(&mut app, Key::Char('<'));
    assert_eq!(*app.get_quit_selection(), QuitSelection::SaveAndQuit);
    press(&mut app, Key::Char(','));
    assert_eq!(*app.get_quit_selection(), QuitSelection::SaveAndQuit);
    press(&mut app, Key::Char('>'));
    assert_eq!(*app.get_quit_selection(), QuitSelection::NoSaveQuit);
    press(&mut app, Key::Char('.'));
    assert_eq!(*app.get_quit_selection(), QuitSelection::Cancel);
}

#[test]
fn quit_selection_cancel_returns_to_normal_mode() {
    let mut app = session("hello", 10, 20);
    command(&mut app, ":q");
    press(&mut app, Key::Enter);
    assert_eq!(*app.get_app_mode(), Mode::Normal);
    assert_eq!(app.get_msg_display(), "");
    assert!(app.running());
    command(&mut app, ":q");
    press(&mut app, Key::Esc);
    assert_eq!(*app.get_app_mode(), Mode::Normal);
    assert!(app.running());
}

#[test]
fn quit_without_saving_ends_the_session() {
    let mut app = session("hello", 10, 20);
    command(&mut app, ":q");
    press(&mut app, Key::Left);
    assert_eq!(press(&mut app, Key::Enter), Action::Nothing);
    assert!(!app.running());
}

#[test]
fn save_and_quit_ends_the_session_after_the_save() {
    let mut app = session("hello", 10, 20);
    command(&mut app, ":q");
    press(&mut app, Key::Left);
    press(&mut app, Key::Left);
    assert_eq!(press(&mut app, Key::Enter), Action::Save(SaveIntent::ConfirmQuit));
    assert!(app.running());
    app.save_finished(SaveIntent::ConfirmQuit, Some(String::from("denied")));
    assert!(app.running());
    assert_eq!(*app.get_app_mode(), Mode::Quit);
    assert_eq!(app.get_msg_display(), "Error: could not write file: denied");
    assert_eq!(press(&mut app, Key::Enter), Action::Save(SaveIntent::ConfirmQuit));
    app.save_finished(SaveIntent::ConfirmQuit, None);
    assert!(!app.running());
}

#[test]
fn quit_selection_starts_at_cancel_every_time() {
    let mut app = session("hello", 10, 20);
    command(&mut app, ":q");
    press(&mut app, Key::Left);
    press(&mut app, Key::Esc);
    command(&mut app, ":q");
    assert_eq!(*app.get_quit_selection(), QuitSelection::Cancel);
}

#[test]
fn number_commands_toggle_the_gutter() {
    for text in [":set number", ":set num", ":set nu", ":num", ":nu"] {
        let mut app = session("hello\nworld", 10, 20);
        command(&mut app, text);
        assert!(app.get_show_line_num());
        assert_eq!(*app.get_app_mode(), Mode::Normal);
        assert_eq!(app.get_msg_display(), "");
        assert_eq!(contents(&app), vec!["1|hello", "2|world"]);
        assert_eq!(app.get_cursor_pos(), (1, 3));
        assert_eq!(app.term_left_cursor_bound(), 3);
        command(&mut app, text);
        assert!(!app.get_show_line_num());
        assert_eq!(contents(&app), vec!["hello", "world"]);
        assert_eq!(app.get_cursor_pos(), (1, 3));
    }
}

#[test]
fn hiding_the_gutter_snaps_the_cursor() {
    let mut app = session("ab", 10, 20);
    command(&mut app, ":nu");
    press(&mut app, Key::Right);
    assert_eq!(app.get_cursor_pos(), (1, 4));
    assert_eq!(app.get_cursor_file_index(), 2);
    command(&mut app, ":nu");
    assert_eq!(app.get_cursor_pos(), (1, 2));
}

#[test]
fn moves_with_the_gutter_stay_out_of_it() {
    let mut app = session("ab\ncd", 10, 20);
    command(&mut app, ":nu");
    press(&mut app, Key::Left);
    assert_eq!(app.get_cursor_pos(), (1, 3));
    assert_eq!(app.get_msg_display(), "Error: Start of file reached");
    press(&mut app, Key::Right);
    press(&mut app, Key::Right);
    assert_eq!(app.get_cursor_pos(), (2, 3));
    press(&mut app, Key::Left);
    assert_eq!(app.get_cursor_pos(), (1, 4));
}

#[test]
fn dd_on_single_line_document() {
    let mut app = session("hello", 10, 20);
    press(&mut app, Key::Right);
    press(&mut app, Key::Right);
    command(&mut app, ":dd");
    assert_eq!(app.get_text(), "");
    assert_eq!(app.get_cursor_pos(), (1, 1));
    assert_eq!(app.get_cursor_pos().1, app.term_left_cursor_bound());
    assert_eq!(*app.get_app_mode(), Mode::Normal);
    assert_eq!(app.get_msg_display(), "");
    assert_eq!(contents(&app), vec![""]);
}

#[test]
fn dd_deletes_the_line_under_the_cursor() {
    let mut app = session("one\ntwo\nthree", 10, 20);
    press(&mut app, Key::Down);
    command(&mut app, ":dd");
    assert_eq!(app.get_text(), "one\nthree");
    assert_eq!(app.get_cursor_pos(), (2, 1));
}

#[test]
fn dd_on_the_last_line_deletes_to_the_end() {
    let mut app = session("one\ntwo", 10, 20);
    press(&mut app, Key::Down);
    command(&mut app, ":dd");
    assert_eq!(app.get_text(), "one\n");
    assert_eq!(contents(&app), vec!["one", ""]);
    assert_eq!(app.get_cursor_pos(), (2, 1));
}

#[test]
fn dd_deletes_every_row_of_a_wrapped_line() {
    let mut app = session("abcdefgh\nxy", 10, 5);
    assert_eq!(contents(&app), vec!["abc", "def", "gh", "xy"]);
    press(&mut app, Key::Down);
    command(&mut app, ":dd");
    assert_eq!(app.get_text(), "xy");
    assert_eq!(contents(&app), vec!["xy"]);
    assert_eq!(app.get_cursor_pos(), (1, 1));
}

#[test]
fn dd_with_the_gutter_shown() {
    let mut app = session("one\ntwo", 10, 20);
    command(&mut app, ":nu");
    command(&mut app, ":dd");
    assert_eq!(app.get_text(), "two");
    assert_eq!(contents(&app), vec!["1|two"]);
    assert_eq!(app.get_cursor_pos(), (1, 3));
}

#[test]
fn search_highlight() {
    let mut app = session("cat\nbat\ncat\n", 10, 20);
    press(&mut app, Key::Char('/'));
    assert_eq!(*app.get_app_mode(), Mode::SearchInput);
    assert_eq!(app.get_msg_display(), "/");
    type_text(&mut app, "cat");
    assert_eq!(app.get_msg_display(), "/cat");
    press(&mut app, Key::Enter);
    assert_eq!(*app.get_app_mode(), Mode::Normal);
    assert_eq!(app.get_msg_display(), "2 matches for cat");
    assert!(app.get_show_highlights());
    let rows = app.get_content();
    assert_eq!(rows[0].highlight_ranges, vec![0..3]);
    assert!(rows[1].highlight_ranges.is_empty());
    assert_eq!(rows[2].highlight_ranges, vec![0..3]);
}

#[test]
fn matches_stay_in_the_status_while_highlighted() {
    let mut app = session("cat\nbat\ncat\n", 10, 20);
    type_text(&mut app, "/cat");
    press(&mut app, Key::Enter);
    press(&mut app, Key::Up);
    assert_eq!(app.get_msg_display(), "Error: Start of file reached");
    press(&mut app, Key::Down);
    assert_eq!(app.get_msg_display(), "2 matches for cat");
    type_text(&mut app, ":x");
    press(&mut app, Key::Esc);
    assert_eq!(app.get_msg_display(), "2 matches for cat");
    press(&mut app, Key::Char('z'));
    assert_eq!(app.get_msg_display(), "");
    press(&mut app, Key::Esc);
    assert_eq!(app.get_msg_display(), "2 matches for cat");
    press(&mut app, Key::Esc);
    assert_eq!(app.get_msg_display(), "");
    assert!(!app.get_show_highlights());
}

#[test]
fn highlights_follow_edits() {
    let mut app = session("cat\ncat", 10, 20);
    type_text(&mut app, "/cat");
    press(&mut app, Key::Enter);
    press(&mut app, Key::Char('i'));
    press(&mut app, Key::Char('x'));
    assert_eq!(app.get_text(), "xcat\ncat");
    let rows = app.get_content();
    assert_eq!(rows[0].highlight_ranges, vec![1..4]);
    assert_eq!(rows[1].highlight_ranges, vec![0..3]);
    press(&mut app, Key::Right);
    press(&mut app, Key::Delete);
    assert_eq!(app.get_text(), "xct\ncat");
    assert!(app.get_content()[0].highlight_ranges.is_empty());
    press(&mut app, Key::Esc);
    assert_eq!(app.get_msg_display(), "1 matches for cat");
}

#[test]
fn search_without_matches() {
    let mut app = session("cat", 10, 20);
    type_text(&mut app, "/dog");
    press(&mut app, Key::Enter);
    assert_eq!(*app.get_app_mode(), Mode::Normal);
    assert_eq!(app.get_msg_display(), "Error: No matches found");
    assert!(!app.get_show_highlights());
    assert!(app.get_content()[0].highlight_ranges.is_empty());
}

#[test]
fn search_for_nothing_finds_nothing() {
    let mut app = session("cat", 10, 20);
    press(&mut app, Key::Char('/'));
    press(&mut app, Key::Enter);
    assert_eq!(app.get_msg_display(), "Error: No matches found");
    assert_eq!(*app.get_app_mode(), Mode::Normal);
}

#[test]
fn search_for_an_invalid_pattern_is_reported() {
    let mut app = session("cat", 10, 20);
    type_text(&mut app, "/c(");
    press(&mut app, Key::Enter);
    assert_eq!(*app.get_app_mode(), Mode::Normal);
    assert!(app.get_msg_display().starts_with("Error: "));
    assert!(app.get_msg_display().len() > "Error: ".len());
    assert!(!app.get_show_highlights());
}

#[test]
fn search_input_is_edited_and_left() {
    let mut app = session("cat", 10, 20);
    type_text(&mut app, "/ab");
    press(&mut app, Key::Backspace);
    assert_eq!(app.get_msg_display(), "/a");
    press(&mut app, Key::Backspace);
    press(&mut app, Key::Backspace);
    assert_eq!(app.get_msg_display(), "");
    assert_eq!(*app.get_app_mode(), Mode::Normal);
    type_text(&mut app, "/ab");
    press(&mut app, Key::Esc);
    assert_eq!(app.get_msg_display(), "");
    assert_eq!(*app.get_app_mode(), Mode::Normal);
}

#[test]
fn starting_a_search_drops_the_old_matches() {
    let mut app = session("cat", 10, 20);
    type_text(&mut app, "/cat");
    press(&mut app, Key::Enter);
    assert!(app.get_show_highlights());
    press(&mut app, Key::Char('/'));
    assert!(!app.get_show_highlights());
    assert_eq!(app.get_msg_display(), "/");
}

#[test]
fn help_scrolls_within_its_bounds() {
    let mut app = session("cat", 10, 20);
    press(&mut app, Key::Char('Z'));
    assert_eq!(*app.get_app_mode(), Mode::Help);
    press(&mut app, Key::Up);
    assert_eq!(app.get_scroll_help_amount(), 0);
    for _ in 0..20 {
        press(&mut app, Key::Down);
    }
    assert_eq!(app.get_scroll_help_amount(), 14);
    press(&mut app, Key::Char('^'));
    assert_eq!(app.get_scroll_help_amount(), 13);
    press(&mut app, Key::Char('v'));
    press(&mut app, Key::Char('V'));
    assert_eq!(app.get_scroll_help_amount(), 14);
    press(&mut app, Key::Esc);
    assert_eq!(*app.get_app_mode(), Mode::Normal);
    assert_eq!(app.get_scroll_help_amount(), 0);
}

#[test]
fn minimized_guard() {
    let mut app = session("a\nb\nc", 10, 20);
    press(&mut app, Key::Down);
    press(&mut app, Key::Down);
    assert_eq!(app.get_cursor_pos(), (3, 1));
    assert_eq!(app.handle_events(Event::Resize(20, 3)), Action::Nothing);
    assert_eq!(*app.get_app_mode(), Mode::Minimized);
    assert_eq!(app.get_cursor_pos(), (1, 1));
    app.handle_events(Event::Resize(20, 10));
    assert_eq!(*app.get_app_mode(), Mode::Normal);
    assert_eq!(app.get_cursor_pos(), (1, 1));
}

#[test]
fn minimized_session_ignores_keys() {
    let mut app = session("hello", 10, 20);
    app.update_term_size(4, 20);
    assert_eq!(*app.get_app_mode(), Mode::Minimized);
    for key in [Key::Char('i'), Key::Char(':'), Key::Down, Key::Enter, Key::Esc] {
        assert_eq!(press(&mut app, key), Action::Nothing);
        assert_eq!(*app.get_app_mode(), Mode::Minimized);
        assert_eq!(app.get_cursor_pos(), (1, 1));
    }
    assert_eq!(app.get_text(), "hello");
}

#[test]
fn waking_up_restores_the_matches_status() {
    let mut app = session("cat", 10, 20);
    type_text(&mut app, "/cat");
    press(&mut app, Key::Enter);
    press(&mut app, Key::Left);
    app.update_term_size(2, 20);
    app.update_term_size(10, 20);
    assert_eq!(*app.get_app_mode(), Mode::Normal);
    assert_eq!(app.get_msg_display(), "1 matches for cat");
}

#[test]
fn resize_clamps_the_cursor_row_to_the_viewport() {
    let mut app = session("0\n1\n2\n3\n4\n5\n6\n7\n8\n9\n10\n11", 20, 20);
    for _ in 0..9 {
        press(&mut app, Key::Down);
    }
    assert_eq!(app.get_cursor_pos(), (10, 1));
    app.update_term_size(10, 20);
    assert_eq!(app.get_cursor_pos(), (6, 1));
    assert_eq!(app.get_scroll_amount(), 0);
}

#[test]
fn resize_clamps_the_cursor_row_to_the_rows() {
    let mut app = session("abcdefghij", 10, 5);
    assert_eq!(contents(&app), vec!["abc", "def", "ghi", "j"]);
    for _ in 0..3 {
        press(&mut app, Key::Down);
    }
    assert_eq!(app.get_cursor_pos(), (4, 1));
    app.update_term_size(10, 40);
    assert_eq!(contents(&app), vec!["abcdefghij"]);
    assert_eq!(app.get_cursor_pos(), (1, 1));
}

#[test]
fn resize_clamps_the_cursor_column() {
    let mut app = session("abcdefghij", 10, 40);
    for _ in 0..8 {
        press(&mut app, Key::Right);
    }
    assert_eq!(app.get_cursor_pos(), (1, 9));
    app.update_term_size(10, 6);
    assert_eq!(contents(&app), vec!["abcd", "efgh", "ij"]);
    assert_eq!(app.get_cursor_pos(), (1, 4));
}

#[test]
fn resize_brings_the_scroll_amount_back() {
    let text = "abcdefghijklmnopqrstuvwxyz";
    let mut app = session(text, 6, 4);
    assert_eq!(app.get_content().len(), 13);
    for _ in 0..12 {
        press(&mut app, Key::Down);
    }
    assert_eq!(app.get_scroll_amount(), 11);
    assert_eq!(app.get_cursor_pos(), (2, 1));
    app.update_term_size(6, 12);
    assert_eq!(contents(&app), vec!["abcdefghij", "klmnopqrst", "uvwxyz"]);
    assert_eq!(app.get_scroll_amount(), 1);
    assert_eq!(app.get_cursor_pos(), (2, 1));
    assert_eq!(app.get_cursor_display_row(), 2);
}

#[test]
fn other_events_change_nothing() {
    let mut app = session("hello", 10, 20);
    press(&mut app, Key::Right);
    assert_eq!(app.handle_events(Event::Other), Action::Nothing);
    assert_eq!(app.get_cursor_pos(), (1, 2));
    assert_eq!(*app.get_app_mode(), Mode::Normal);
}

#[test]
fn snap_and_slip_bring_the_cursor_onto_the_row() {
    let mut app = session("\tab", 10, 20);
    app.snap_cursor();
    app.slip_cursor();
    assert_eq!(app.get_cursor_pos(), (1, 1));
    press(&mut app, Key::Right);
    assert_eq!(app.get_cursor_pos(), (1, 5));
}
