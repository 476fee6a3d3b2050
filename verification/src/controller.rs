//! The editor session: the document, its display rows, the cursor, the
//! scroll offset and the mode, and what moving the cursor does to them.

use core::ops::Range;
use vstd::prelude::*;
use crate::cursor::{
    display_row_index, file_index, file_index_spec, inline_index, inline_index_spec, left_bound,
    lemma_index_nonnegative, reach_from_width, slip_column, slip_column_right, snap_column,
};
use crate::digits::{decimal_chars, push_decimal};
use crate::glyph::str_width;
use crate::invariants::{lemma_rows_inv, row_inv};
use crate::layout::ranges_ascending;
use crate::model::EditorModel;
use crate::keys::{
    first_of_line, first_off_line, lemma_offsets_ordered, lemma_revalidated_wf,
    lemma_rewrapped_content, parse_command, Action, Command, Event, Key, SaveIntent,
};
use crate::search::pattern_valid;
use crate::state::{
    lemma_content, lemma_down_keeps_wf, lemma_left_keeps_wf, lemma_right_keeps_wf,
    lemma_slipped_rests, lemma_up_keeps_wf, matches_text, AppView, Mode, QuitSelection,
    MAX_HELP_SCROLL,
};
use crate::text::{chars_of, string_of};
use crate::wrap::{measured_page, ranges_view, rows_view, string_to_lines, DisplayLine};

verus! {

/// An editor session.
#[derive(Debug)]
pub struct App {
    model: EditorModel,
    display_content: Vec<DisplayLine>,
    scroll_amount: u16,
    scroll_help_amount: u16,
    quit_selection: QuitSelection,
    mode: Mode,
    show_line_nums: bool,
    msg_display: Vec<char>,
    search_term: Vec<char>,
    match_ranges: Vec<Range<usize>>,
    cursor_pos: (u16, u16),
    term_size: (u16, u16),
    running: bool,
}

impl View for App {
    type V = AppView;

    closed spec fn view(&self) -> AppView {
        AppView {
            text: self.model.text(),
            file_name: self.model.file_name@,
            rows: rows_view(self.display_content@),
            scroll: self.scroll_amount as int,
            help_scroll: self.scroll_help_amount as int,
            selection: self.quit_selection,
            mode: self.mode,
            gutter: self.show_line_nums,
            status: self.msg_display@,
            search_term: self.search_term@,
            matches: ranges_view(self.match_ranges@),
            row: self.cursor_pos.0 as int,
            col: self.cursor_pos.1 as int,
            height: self.term_size.0 as int,
            width: self.term_size.1 as int,
            running: self.running,
        }
    }
}

/// The label of a mode, with the keys that matter in it.
pub open spec fn mode_text(mode: Mode) -> Seq<char> {
    match mode {
        Mode::Normal => "Normal Mode [z]=>Help [i]=>Insert [:]=>Command [/]=>Search"@,
        Mode::Command => "Command Mode [ENTER]=>Submit [ESC]=>Exit"@,
        Mode::SearchInput => "Search Mode [ENTER]=>Submit [ESC]=>Exit"@,
        Mode::Insert => "Insertion Mode [ESC]=>Exit"@,
        Mode::Minimized => "Please Enlarge Terminal Window"@,
        Mode::Help => "Help Page [ESC]=>Exit [^][v] to Scroll Help Text"@,
        Mode::Quit => "[<][>] to select, [ENTER]=>Confirm, [ESC]=>Cancel"@,
    }
}

/// Appends the characters `src` to `dst`.
pub fn append_chars(dst: &mut Vec<char>, src: &Vec<char>)
    ensures
        final(dst)@ == old(dst)@ + src@,
{
    let ghost before = dst@;
    let mut k: usize = 0;
    assert(dst@ =~= before + src@.take(0));
    while k < src.len()
        invariant
            k <= src.len(),
            dst@ == before + src@.take(k as int),
        decreases src.len() - k,
    {
        dst.push(src[k]);
        k += 1;
        assert(dst@ =~= before + src@.take(k as int));
    }
    assert(src@.take(src.len() as int) =~= src@);
}

/// The status that tells how many matches of `term` are highlighted.
pub fn matches_status(count: usize, term: &Vec<char>) -> (status: Vec<char>)
    ensures
        status@ == matches_text(count as nat, term@),
{
    let mut digits = String::new();
    push_decimal(&mut digits, count);
    let mut status = chars_of(digits.as_str());
    assert(status@ =~= decimal_chars(count as nat));
    let middle = chars_of(" matches for ");
    append_chars(&mut status, &middle);
    append_chars(&mut status, term);
    status
}

impl App {
    /// A session on `model` in a terminal of the given size, with the cursor
    /// at the top left. A terminal of four rows or fewer starts minimized.
    pub fn new(model: EditorModel, term_height: u16, term_width: u16) -> (app: Self)
        requires
            term_width >= 3,
        ensures
            app@.wf(),
            app@.text == model.text(),
            app@.file_name == model.file_name@,
            app@.rows == measured_page(model.text(), term_width as int, false, Seq::empty()).rows(),
            app@.scroll == 0,
            app@.help_scroll == 0,
            app@.selection == QuitSelection::Cancel,
            app@.mode == if term_height <= 4 {
                Mode::Minimized
            } else {
                Mode::Normal
            },
            !app@.gutter,
            app@.status.len() == 0,
            app@.search_term.len() == 0,
            app@.matches.len() == 0,
            app@.row == 1,
            app@.col == 1,
            app@.height == term_height,
            app@.width == term_width,
            app@.running,
    {
        let match_ranges: Vec<Range<usize>> = Vec::new();
        assert(ranges_view(match_ranges@) =~= Seq::<(int, int)>::empty());
        let text = model.to_text();
        let display_content = string_to_lines(text.as_str(), term_width, false, &match_ranges);
        let mode = if term_height <= 4 {
            Mode::Minimized
        } else {
            Mode::Normal
        };
        let app = App {
            model,
            display_content,
            scroll_amount: 0,
            scroll_help_amount: 0,
            quit_selection: QuitSelection::Cancel,
            mode,
            show_line_nums: false,
            msg_display: Vec::new(),
            search_term: Vec::new(),
            match_ranges,
            cursor_pos: (1, 1),
            term_size: (term_height, term_width),
            running: true,
        };
        proof {
            reveal(crate::state::content_inv);
            let page = measured_page(app@.text, term_width as int, false, Seq::empty());
            lemma_rows_inv(page);
            assert(row_inv(app@.rows[0], false));
            if app@.cur_row().invalid_cols.contains(1) {
                let cols = app@.cur_row().invalid_cols;
                let k = choose|k: int| 0 <= k < cols.len() && cols[k] == 1;
                assert(1 < cols[k]);
            }
        }
        app
    }

    /// Name of the document's file.
    pub fn get_filename(&self) -> (name: &str)
        ensures
            name@ == self@.file_name,
    {
        self.model.file_name.as_str()
    }

    /// The document as a string.
    pub fn get_text(&self) -> (text: String)
        ensures
            text@ == self@.text,
    {
        self.model.to_text()
    }

    /// The display rows.
    pub fn get_content(&self) -> (rows: &Vec<DisplayLine>)
        ensures
            rows_view(rows@) == self@.rows,
    {
        &self.display_content
    }

    /// The mode.
    pub fn get_app_mode(&self) -> (mode: &Mode)
        ensures
            *mode == self@.mode,
    {
        &self.mode
    }

    /// What the message bar shows.
    pub fn get_msg_display(&self) -> (status: String)
        ensures
            status@ == self@.status,
    {
        string_of(&self.msg_display)
    }

    /// The cursor's row and column in the viewport, both from 1.
    pub fn get_cursor_pos(&self) -> (pos: (u16, u16))
        ensures
            pos.0 == self@.row,
            pos.1 == self@.col,
    {
        self.cursor_pos
    }

    /// Display rows scrolled past the top.
    pub fn get_scroll_amount(&self) -> (scroll: u16)
        ensures
            scroll == self@.scroll,
    {
        self.scroll_amount
    }

    /// Rows of help text scrolled past the top.
    pub fn get_scroll_help_amount(&self) -> (scroll: u16)
        ensures
            scroll == self@.help_scroll,
    {
        self.scroll_help_amount
    }

    /// The choice selected in the quit pop-up.
    pub fn get_quit_selection(&self) -> (selection: &QuitSelection)
        ensures
            *selection == self@.selection,
    {
        &self.quit_selection
    }

    /// Whether rows show their line numbers.
    pub fn get_show_line_num(&self) -> (shown: bool)
        ensures
            shown == self@.gutter,
    {
        self.show_line_nums
    }

    /// Whether matches are highlighted.
    pub fn get_show_highlights(&self) -> (shown: bool)
        ensures
            shown == self@.highlighting(),
    {
        self.search_term.len() > 0
    }

    /// The label of the mode, with the keys that matter in it.
    pub fn get_mode_text(&self) -> (label: &'static str)
        ensures
            label@ == mode_text(self@.mode),
    {
        match self.mode {
            Mode::Normal => "Normal Mode [z]=>Help [i]=>Insert [:]=>Command [/]=>Search",
            Mode::Command => "Command Mode [ENTER]=>Submit [ESC]=>Exit",
            Mode::SearchInput => "Search Mode [ENTER]=>Submit [ESC]=>Exit",
            Mode::Insert => "Insertion Mode [ESC]=>Exit",
            Mode::Minimized => "Please Enlarge Terminal Window",
            Mode::Help => "Help Page [ESC]=>Exit [^][v] to Scroll Help Text",
            Mode::Quit => "[<][>] to select, [ENTER]=>Confirm, [ESC]=>Cancel",
        }
    }

    /// Index of the display row under the cursor.
    pub fn get_cursor_display_row(&self) -> (index: usize)
        requires
            self@.wf(),
        ensures
            index == self@.cur(),
            index < self@.rows.len(),
    {
        display_row_index(self.scroll_amount, self.cursor_pos.0)
    }

    /// The index in its line of the character under the cursor.
    ///
    /// The cursor must stand right of the gutter, as it does in every mode
    /// but Minimized.
    pub fn get_cursor_inline_index(&self) -> (index: usize)
        requires
            self@.wf(),
            self@.left() <= self@.col,
        ensures
            index == inline_index_spec(
                self@.cur_row(),
                self@.col,
                self@.insert(),
                self@.gutter,
            ),
    {
        let row = &self.display_content[self.get_cursor_display_row()];
        proof {
            crate::state::lemma_content(self@);
            assert(row_inv(self@.rows[self@.cur()], self@.gutter));
            lemma_index_nonnegative(
                row@.inline_index,
                row@,
                self@.col,
                self@.insert(),
                self@.gutter,
            );
        }
        inline_index(row, self.cursor_pos.1, self.is_insert(), self.show_line_nums)
    }

    /// The index in the document of the character under the cursor.
    ///
    /// The cursor must stand right of the gutter, as it does in every mode
    /// but Minimized.
    pub fn get_cursor_file_index(&self) -> (index: usize)
        requires
            self@.wf(),
            self@.left() <= self@.col,
        ensures
            index == file_index_spec(self@.cur_row(), self@.col, self@.insert(), self@.gutter),
    {
        let row = &self.display_content[self.get_cursor_display_row()];
        proof {
            crate::state::lemma_content(self@);
            assert(row_inv(self@.rows[self@.cur()], self@.gutter));
            assert(self@.rows[self@.cur()].infile_index <= self@.text.len());
            lemma_index_nonnegative(
                row@.infile_index,
                row@,
                self@.col,
                self@.insert(),
                self@.gutter,
            );
        }
        file_index(row, self.cursor_pos.1, self.is_insert(), self.show_line_nums)
    }

    /// The topmost row of the viewport that the cursor reaches.
    pub fn term_top_cursor_bound(&self) -> (top: u16)
        ensures
            top == 1,
    {
        1
    }

    /// The lowest row of the viewport that the cursor reaches.
    pub fn term_bottom_cursor_bound(&self) -> (bottom: u16)
        requires
            self@.height >= 4,
        ensures
            bottom == self@.bottom(),
    {
        self.term_size.0 - 4
    }

    /// The leftmost column where the cursor may rest on its row.
    pub fn term_left_cursor_bound(&self) -> (left: u16)
        requires
            self@.wf(),
        ensures
            left == self@.left(),
    {
        left_bound(&self.display_content[self.get_cursor_display_row()], self.show_line_nums)
    }

    /// The rightmost column of the viewport inside the borders.
    pub fn term_right_cursor_bound(&self) -> (right: u16)
        requires
            self@.width >= 2,
        ensures
            right == self@.right(),
    {
        self.term_size.1 - 2
    }

    /// Whether the session goes on.
    pub fn running(&self) -> (running: bool)
        ensures
            running == self@.running,
    {
        self.running
    }

    /// Whether the caret stands between characters.
    fn is_insert(&self) -> (insert: bool)
        ensures
            insert == self@.insert(),
    {
        match self.mode {
            Mode::Insert => true,
            _ => false,
        }
    }

    /// Whether the rows can scroll one further down.
    fn can_scroll_down(&self) -> (can: bool)
        requires
            self@.height >= 4,
        ensures
            can == self@.can_scroll_down(),
    {
        let bottom = (self.term_size.0 - 4) as usize;
        let len = self.display_content.len();
        self.scroll_amount < 0xffff && len > bottom && (self.scroll_amount as usize) < len - bottom
    }

    /// Clamps the cursor's column to what its row shows.
    pub fn snap_cursor(&mut self)
        requires
            old(self)@.framed(),
        ensures
            final(self)@ == old(self)@.snapped(),
    {
        let index = display_row_index(self.scroll_amount, self.cursor_pos.0);
        let insert = self.is_insert();
        let width = str_width(self.display_content[index].line_content.as_str());
        let shows = !self.display_content[index].line_content.as_str().is_empty();
        self.cursor_pos.1 = snap_column(self.cursor_pos.1, width, insert, shows);
    }

    /// Moves the cursor's column out of any glyph and out of the gutter.
    pub fn slip_cursor(&mut self)
        requires
            old(self)@.framed(),
        ensures
            final(self)@ == old(self)@.slipped(),
            final(self)@.wf(),
    {
        let index = display_row_index(self.scroll_amount, self.cursor_pos.0);
        let left = left_bound(&self.display_content[index], self.show_line_nums);
        self.cursor_pos.1 = slip_column(
            self.cursor_pos.1,
            &self.display_content[index].invalid_cols,
            left,
        );
        proof {
            lemma_slipped_rests(old(self)@);
        }
    }

    /// The column that `col` settles on in display row `index`: snapped to
    /// what the row shows if `snap` is set, then slipped.
    fn settle_on(&self, index: usize, col: u16, snap: bool) -> (settled: u16)
        requires
            index < self@.rows.len(),
        ensures
            settled == crate::cursor::slip_spec(
                if snap {
                    crate::cursor::snap_spec(col as int, self@.rows[index as int], self@.insert())
                } else {
                    col as int
                },
                self@.rows[index as int],
                self@.gutter,
            ),
    {
        let row = &self.display_content[index];
        let from = if snap {
            let width = str_width(row.line_content.as_str());
            let shows = !row.line_content.as_str().is_empty();
            snap_column(col, width, self.is_insert(), shows)
        } else {
            col
        };
        slip_column(from, &row.invalid_cols, left_bound(row, self.show_line_nums))
    }

    /// Moves the cursor up by one row, scrolling at the top of the viewport.
    pub fn cursor_up(&mut self)
        requires
            old(self)@.wf(),
            old(self)@.mode != Mode::Minimized,
        ensures
            final(self)@ == old(self)@.moved_up(),
            final(self)@.wf(),
    {
        proof {
            lemma_up_keeps_wf(self@);
        }
        let index = display_row_index(self.scroll_amount, self.cursor_pos.0);
        if self.cursor_pos.0 > 1 {
            let col = self.settle_on(index - 1, self.cursor_pos.1, true);
            self.cursor_pos = (self.cursor_pos.0 - 1, col);
        } else if self.scroll_amount > 0 {
            let col = self.settle_on(index - 1, self.cursor_pos.1, false);
            self.scroll_amount -= 1;
            self.cursor_pos.1 = col;
        } else {
            self.msg_display = chars_of("Error: Start of file reached");
        }
    }

    /// Moves the cursor down by one row, scrolling at the bottom of the
    /// viewport.
    pub fn cursor_down(&mut self)
        requires
            old(self)@.wf(),
            old(self)@.mode != Mode::Minimized,
        ensures
            final(self)@ == old(self)@.moved_down(),
            final(self)@.wf(),
    {
        proof {
            lemma_down_keeps_wf(self@);
        }
        let index = display_row_index(self.scroll_amount, self.cursor_pos.0);
        if index + 1 == self.display_content.len() {
            self.msg_display = chars_of("Error: End of file reached");
        } else if self.cursor_pos.0 < self.term_size.0 - 4 {
            let col = self.settle_on(index + 1, self.cursor_pos.1, true);
            self.cursor_pos = (self.cursor_pos.0 + 1, col);
        } else if self.can_scroll_down() {
            let col = self.settle_on(index + 1, self.cursor_pos.1, false);
            self.scroll_amount += 1;
            self.cursor_pos.1 = col;
        } else {
            self.msg_display = chars_of("Error: End of file reached");
        }
    }

    /// Moves the cursor right by one glyph, on to the next row at the end of
    /// a row.
    pub fn cursor_right(&mut self)
        requires
            old(self)@.wf(),
            old(self)@.mode != Mode::Minimized,
        ensures
            final(self)@ == old(self)@.moved_right(),
            final(self)@.wf(),
    {
        proof {
            lemma_right_keeps_wf(self@);
        }
        let index = display_row_index(self.scroll_amount, self.cursor_pos.0);
        let insert = self.is_insert();
        let glyph_end = slip_column_right(
            self.cursor_pos.1,
            &self.display_content[index].invalid_cols,
        );
        let width = str_width(self.display_content[index].line_content.as_str());
        if glyph_end >= reach_from_width(width, insert) {
            if index + 1 == self.display_content.len() {
                self.msg_display = chars_of("Error: End of file reached");
            } else if self.cursor_pos.0 == self.term_size.0 - 4 {
                if self.can_scroll_down() {
                    self.scroll_amount += 1;
                    self.cursor_pos.1 = left_bound(
                        &self.display_content[index + 1],
                        self.show_line_nums,
                    );
                } else {
                    self.msg_display = chars_of("Error: End of file reached");
                }
            } else {
                self.cursor_pos.0 += 1;
                self.cursor_pos.1 = left_bound(
                    &self.display_content[index + 1],
                    self.show_line_nums,
                );
            }
        } else {
            self.cursor_pos.1 = glyph_end + 1;
        }
    }

    /// Moves the cursor left by one glyph, back to the row before at the
    /// start of a row.
    pub fn cursor_left(&mut self)
        requires
            old(self)@.wf(),
            old(self)@.mode != Mode::Minimized,
        ensures
            final(self)@ == old(self)@.moved_left(),
            final(self)@.wf(),
    {
        proof {
            lemma_left_keeps_wf(self@);
        }
        let index = display_row_index(self.scroll_amount, self.cursor_pos.0);
        let insert = self.is_insert();
        let left = left_bound(&self.display_content[index], self.show_line_nums);
        if self.cursor_pos.1 == left {
            if self.cursor_pos.0 == 1 && self.scroll_amount == 0 {
                self.msg_display = chars_of("Error: Start of file reached");
            } else {
                let width = str_width(self.display_content[index - 1].line_content.as_str());
                let col = self.settle_on(index - 1, reach_from_width(width, insert), false);
                if self.cursor_pos.0 == 1 {
                    self.scroll_amount -= 1;
                } else {
                    self.cursor_pos.0 -= 1;
                }
                self.cursor_pos.1 = col;
            }
        } else {
            let col = self.settle_on(index, self.cursor_pos.1 - 1, false);
            self.cursor_pos.1 = col;
        }
    }

    /// Wraps the rows anew, searching again if matches are highlighted.
    fn wrap_text(&mut self)
        requires
            old(self)@.width >= 3,
            ranges_ascending(old(self)@.matches),
            old(self)@.highlighting() ==> pattern_valid(old(self)@.search_term),
        ensures
            final(self)@ == old(self)@.rewrapped(),
            final(self)@.content_ok(),
            final(self)@.rows.len() >= 1,
    {
        if self.search_term.len() > 0 {
            let term = string_of(&self.search_term);
            match self.model.run_search(term.as_str()) {
                Ok(found) => {
                    self.match_ranges = found;
                },
                Err(_) => {
                    assert(false);
                },
            }
        }
        let text = self.model.to_text();
        self.display_content = string_to_lines(
            text.as_str(),
            self.term_size.1,
            self.show_line_nums,
            &self.match_ranges,
        );
        proof {
            lemma_rewrapped_content(old(self)@);
        }
    }

    /// Brings the scroll amount and the cursor back onto the rows.
    fn revalidate(&mut self)
        requires
            old(self)@.loose(),
        ensures
            final(self)@ == old(self)@.revalidated(),
            final(self)@.wf(),
            final(self)@.mode == old(self)@.mode,
    {
        proof {
            lemma_revalidated_wf(self@);
        }
        let bottom = self.term_size.0 - 4;
        let len = self.display_content.len();
        let max_scroll: usize = if len > bottom as usize {
            len - bottom as usize
        } else {
            0
        };
        let scroll: u16 = if self.scroll_amount as usize > max_scroll {
            max_scroll as u16
        } else {
            self.scroll_amount
        };
        let within: u16 = if self.cursor_pos.0 > bottom {
            bottom
        } else {
            self.cursor_pos.0
        };
        let row: u16 = if within as usize > len - scroll as usize {
            (len - scroll as usize) as u16
        } else {
            within
        };
        self.scroll_amount = scroll;
        self.cursor_pos.0 = row;
        let index = display_row_index(scroll, row);
        let col = self.settle_on(index, self.cursor_pos.1, true);
        self.cursor_pos.1 = col;
    }

    /// The status that replaces passing messages.
    fn quiet_status(&self) -> (status: Vec<char>)
        ensures
            status@ == self@.quiet_status(),
    {
        if self.search_term.len() > 0 {
            matches_status(self.match_ranges.len(), &self.search_term)
        } else {
            Vec::new()
        }
    }

    /// Takes note of a new terminal size. At four rows or fewer the session
    /// is minimized; otherwise the rows are wrapped anew and the cursor is
    /// brought back into the viewport and onto the rows.
    pub fn update_term_size(&mut self, term_height: u16, term_width: u16)
        requires
            old(self)@.wf(),
            term_height > 4 ==> term_width >= 3,
        ensures
            final(self)@ == old(self)@.resized(term_height as int, term_width as int),
            final(self)@.wf(),
    {
        proof {
            lemma_content(self@);
        }
        self.term_size = (term_height, term_width);
        if term_height <= 4 {
            self.mode = Mode::Minimized;
            self.cursor_pos = (1, 1);
            return ;
        }
        if let Mode::Minimized = self.mode {
            self.mode = Mode::Normal;
            self.msg_display = self.quiet_status();
        }
        self.wrap_text();
        if self.cursor_pos.1 > term_width - 2 {
            self.cursor_pos.1 = term_width - 2;
        }
        self.revalidate();
    }

    /// Takes note of how a save went that was asked for with `intent`;
    /// `error` is why it failed, if it did.
    pub fn save_finished(&mut self, intent: SaveIntent, error: Option<String>)
        requires
            old(self)@.wf(),
        ensures
            final(self)@ == old(self)@.saved(
                intent,
                match error {
                    Some(reason) => Some(reason@),
                    None => None,
                },
            ),
            final(self)@.wf(),
    {
        match error {
            Some(reason) => {
                let mut status = chars_of("Error: could not write file: ");
                let reason_chars = chars_of(reason.as_str());
                append_chars(&mut status, &reason_chars);
                proof {
                    reveal_strlit("Error: could not write file: ");
                }
                self.msg_display = status;
            },
            None => match intent {
                SaveIntent::Write => {
                    proof {
                        reveal_strlit("Wrote file");
                    }
                    self.msg_display = chars_of("Wrote file");
                },
                _ => {
                    self.running = false;
                },
            },
        }
    }

    /// Handles a key while the quit pop-up is open.
    fn quit_handle_key_event(&mut self, key: Key) -> (action: Action)
        requires
            old(self)@.wf(),
            old(self)@.mode == Mode::Quit,
        ensures
            final(self)@ == old(self)@.quit_key(key),
            action == old(self)@.quit_action(key),
            final(self)@.wf(),
    {
        match key {
            Key::Left | Key::Char('<') | Key::Char(',') => {
                self.quit_selection = match self.quit_selection {
                    QuitSelection::Cancel => QuitSelection::NoSaveQuit,
                    _ => QuitSelection::SaveAndQuit,
                };
                Action::Nothing
            },
            Key::Right | Key::Char('>') | Key::Char('.') => {
                self.quit_selection = match self.quit_selection {
                    QuitSelection::SaveAndQuit => QuitSelection::NoSaveQuit,
                    _ => QuitSelection::Cancel,
                };
                Action::Nothing
            },
            Key::Enter => match self.quit_selection {
                QuitSelection::Cancel => {
                    self.msg_display = self.quiet_status();
                    self.mode = Mode::Normal;
                    Action::Nothing
                },
                QuitSelection::NoSaveQuit => {
                    self.running = false;
                    Action::Nothing
                },
                QuitSelection::SaveAndQuit => Action::Save(SaveIntent::ConfirmQuit),
            },
            Key::Esc => {
                self.msg_display = self.quiet_status();
                self.mode = Mode::Normal;
                Action::Nothing
            },
            _ => Action::Nothing,
        }
    }

    /// Handles a key while the help pop-up is open.
    fn help_handle_key_event(&mut self, key: Key)
        requires
            old(self)@.wf(),
            old(self)@.mode == Mode::Help,
        ensures
            final(self)@ == old(self)@.help_key(key),
            final(self)@.wf(),
    {
        match key {
            Key::Esc => {
                self.mode = Mode::Normal;
                self.scroll_help_amount = 0;
                if self.search_term.len() > 0 {
                    self.msg_display = self.quiet_status();
                }
            },
            Key::Up | Key::Char('^') => {
                if self.scroll_help_amount > 0 {
                    self.scroll_help_amount -= 1;
                }
            },
            Key::Down | Key::Char('v') | Key::Char('V') => {
                if self.scroll_help_amount < MAX_HELP_SCROLL {
                    self.scroll_help_amount += 1;
                }
            },
            _ => {},
        }
    }

    /// Handles a key in Normal mode.
    fn normal_handle_key_event(&mut self, key: Key)
        requires
            old(self)@.wf(),
            old(self)@.mode == Mode::Normal,
        ensures
            final(self)@ == old(self)@.normal_key(key),
            final(self)@.wf(),
    {
        proof {
            lemma_content(self@);
            reveal(crate::state::content_inv);
        }
        let quiet = self.quiet_status();
        match key {
            Key::Esc => {
                self.search_term = Vec::new();
                self.match_ranges = Vec::new();
                self.msg_display = Vec::new();
                assert(ranges_view(self.match_ranges@) =~= Seq::<(int, int)>::empty());
            },
            Key::Char('i') | Key::Char('I') => {
                self.msg_display = quiet;
                self.mode = Mode::Insert;
            },
            Key::Char(':') => {
                let mut input: Vec<char> = Vec::new();
                input.push(':');
                self.msg_display = input;
                self.mode = Mode::Command;
            },
            Key::Char('/') => {
                let mut input: Vec<char> = Vec::new();
                input.push('/');
                self.mode = Mode::SearchInput;
                self.search_term = Vec::new();
                self.match_ranges = Vec::new();
                self.msg_display = input;
                assert(ranges_view(self.match_ranges@) =~= Seq::<(int, int)>::empty());
            },
            Key::Char('z') | Key::Char('Z') => {
                self.mode = Mode::Help;
                self.scroll_help_amount = 0;
                self.msg_display = Vec::new();
            },
            Key::Up | Key::Char('k') => {
                self.msg_display = quiet;
                self.cursor_up();
            },
            Key::Down | Key::Char('j') => {
                self.msg_display = quiet;
                self.cursor_down();
            },
            Key::Left | Key::Char('h') => {
                self.msg_display = quiet;
                self.cursor_left();
            },
            Key::Right | Key::Char('l') => {
                self.msg_display = quiet;
                self.cursor_right();
            },
            _ => {
                self.msg_display = quiet;
            },
        }
    }

    /// Deletes the line under the cursor from the document.
    fn delete_line(&mut self)
        requires
            old(self)@.wf(),
        ensures
            final(self)@ == (AppView { text: old(self)@.without_line(), ..old(self)@ }),
    {
        proof {
            lemma_content(self@);
        }
        let len = self.display_content.len();
        let target = self.display_content[self.get_cursor_display_row()].line_num;
        let mut first: usize = 0;
        while first < len && self.display_content[first].line_num != target
            invariant
                self == old(self),
                len == self.display_content.len(),
                first <= self@.cur() < len,
                target == self@.cur_row().line_num,
                first_of_line(self@.rows, target as int, first as int) == first_of_line(
                    self@.rows,
                    target as int,
                    0,
                ),
            decreases len - first,
        {
            first += 1;
        }
        let mut next: usize = first + 1;
        while next < len && self.display_content[next].line_num == target
            invariant
                self == old(self),
                len == self.display_content.len(),
                first < next <= len,
                first_off_line(self@.rows, target as int, next as int) == first_off_line(
                    self@.rows,
                    target as int,
                    first + 1,
                ),
            decreases len - next,
        {
            next += 1;
        }
        let start = self.display_content[first].infile_index;
        if next < len {
            let end = self.display_content[next].infile_index;
            proof {
                lemma_offsets_ordered(
                    self@.rows,
                    self@.gutter,
                    self@.text.len() as int,
                    first as int,
                    next as int,
                );
            }
            self.model.delete_range(start, end);
        } else {
            proof {
                lemma_offsets_ordered(
                    self@.rows,
                    self@.gutter,
                    self@.text.len() as int,
                    first as int,
                    first as int,
                );
            }
            self.model.delete_to_end(start);
        }
    }

    /// Shows or hides the line numbers.
    fn toggle_numbers(&mut self)
        requires
            old(self)@.wf(),
            old(self)@.mode == Mode::Command,
        ensures
            final(self)@ == (AppView {
                gutter: !old(self)@.gutter,
                ..old(self)@
            }).rewrapped().revalidated().quiet().in_mode(Mode::Normal),
            final(self)@.wf(),
    {
        proof {
            lemma_content(self@);
        }
        self.show_line_nums = !self.show_line_nums;
        self.wrap_text();
        self.revalidate();
        self.msg_display = self.quiet_status();
        self.mode = Mode::Normal;
    }

    /// Deletes the line under the cursor and shows what is left.
    fn delete_shown_line(&mut self)
        requires
            old(self)@.wf(),
            old(self)@.mode == Mode::Command,
        ensures
            final(self)@ == old(self)@.edited(old(self)@.without_line()).in_mode(
                Mode::Normal,
            ).with_status(Seq::empty()),
            final(self)@.wf(),
    {
        proof {
            lemma_content(self@);
        }
        self.delete_line();
        self.wrap_text();
        self.revalidate();
        self.mode = Mode::Normal;
        self.msg_display = Vec::new();
    }

    /// Carries out the command in the message bar.
    fn submit_command(&mut self) -> (action: Action)
        requires
            old(self)@.wf(),
            old(self)@.mode == Mode::Command,
        ensures
            final(self)@ == old(self)@.submitted(),
            action == old(self)@.submitted_action(),
            final(self)@.wf(),
    {
        match parse_command(&self.msg_display) {
            Command::Write => {
                self.mode = Mode::Normal;
                Action::Save(SaveIntent::Write)
            },
            Command::WriteQuit => {
                self.mode = Mode::Normal;
                Action::Save(SaveIntent::WriteQuit)
            },
            Command::Quit => {
                self.mode = Mode::Quit;
                self.quit_selection = QuitSelection::Cancel;
                Action::Nothing
            },
            Command::ToggleNumbers => {
                self.toggle_numbers();
                Action::Nothing
            },
            Command::DeleteLine => {
                self.delete_shown_line();
                Action::Nothing
            },
            Command::Invalid => {
                self.mode = Mode::Normal;
                self.msg_display = chars_of("Error: Invalid Command");
                Action::Nothing
            },
        }
    }

    /// Handles a key in Command mode.
    fn command_handle_key_event(&mut self, key: Key) -> (action: Action)
        requires
            old(self)@.wf(),
            old(self)@.mode == Mode::Command,
        ensures
            final(self)@ == old(self)@.command_key(key),
            action == if key == Key::Enter {
                old(self)@.submitted_action()
            } else {
                Action::Nothing
            },
            final(self)@.wf(),
    {
        match key {
            Key::Esc => {
                self.msg_display = self.quiet_status();
                self.mode = Mode::Normal;
                Action::Nothing
            },
            Key::Enter => self.submit_command(),
            Key::Backspace => {
                if self.msg_display.len() <= 1 {
                    self.msg_display = self.quiet_status();
                    self.mode = Mode::Normal;
                } else {
                    self.msg_display.pop();
                }
                Action::Nothing
            },
            Key::Char(c) => {
                self.msg_display.push(c);
                Action::Nothing
            },
            _ => Action::Nothing,
        }
    }

    /// Inserts `c` where the caret stands and moves the caret past it.
    fn insert_char(&mut self, c: char)
        requires
            old(self)@.wf(),
            old(self)@.mode == Mode::Insert,
        ensures
            final(self)@ == old(self)@.typed(c),
            final(self)@.wf(),
    {
        proof {
            lemma_content(self@);
        }
        let index = self.get_cursor_file_index();
        if index > self.model.len_chars() {
            self.msg_display = chars_of("Error: End of file reached");
            return ;
        }
        self.model.insert_char(c, index);
        self.wrap_text();
        self.revalidate();
        self.cursor_right();
        if self.cursor_pos.1 == 1 && c != '\n' {
            self.cursor_right();
        }
    }

    /// Deletes the character at the caret.
    fn delete_char(&mut self)
        requires
            old(self)@.wf(),
            old(self)@.mode == Mode::Insert,
        ensures
            final(self)@ == old(self)@.deleted(),
            final(self)@.wf(),
    {
        proof {
            lemma_content(self@);
        }
        let index = self.get_cursor_file_index();
        if self.model.delete_char(index) {
            self.wrap_text();
            self.revalidate();
        } else {
            self.msg_display = chars_of("Error: End of file reached");
        }
    }

    /// Handles a key in Insert mode.
    fn insert_handle_key_event(&mut self, key: Key)
        requires
            old(self)@.wf(),
            old(self)@.mode == Mode::Insert,
        ensures
            final(self)@ == old(self)@.insert_key(key),
            final(self)@.wf(),
    {
        self.msg_display = self.quiet_status();
        match key {
            Key::Esc => {
                self.mode = Mode::Normal;
                let index = display_row_index(self.scroll_amount, self.cursor_pos.0);
                let col = self.settle_on(index, self.cursor_pos.1, true);
                self.cursor_pos.1 = col;
                proof {
                    lemma_slipped_rests(old(self)@.quiet().in_mode(Mode::Normal).snapped());
                }
            },
            Key::Backspace => {
                if self.get_cursor_file_index() > 0 {
                    self.cursor_left();
                    self.delete_char();
                } else {
                    self.msg_display = chars_of("Error: Start of file reached");
                }
            },
            Key::Delete => self.delete_char(),
            Key::Enter => self.insert_char('\n'),
            Key::Tab => self.insert_char('\t'),
            Key::Char(c) => self.insert_char(c),
            Key::Up => self.cursor_up(),
            Key::Down => self.cursor_down(),
            Key::Left => self.cursor_left(),
            Key::Right => self.cursor_right(),
            _ => {},
        }
    }

    /// What was typed after the slash.
    fn read_query(&self) -> (query: Vec<char>)
        requires
            self@.status.len() >= 1,
        ensures
            query@ == self@.query(),
    {
        let mut query: Vec<char> = Vec::new();
        let mut k: usize = 1;
        while k < self.msg_display.len()
            invariant
                1 <= k <= self.msg_display.len(),
                query@ == self.msg_display@.subrange(1, k as int),
            decreases self.msg_display.len() - k,
        {
            query.push(self.msg_display[k]);
            k += 1;
            assert(self.msg_display@.subrange(1, k as int) =~= self.msg_display@.subrange(
                1,
                k - 1,
            ).push(self.msg_display@[k - 1]));
        }
        query
    }

    /// Shows the matches `found` of a search for `query`.
    fn show_matches(&mut self, query: Vec<char>, found: Vec<Range<usize>>)
        requires
            old(self)@.wf(),
            old(self)@.mode == Mode::SearchInput,
            ranges_ascending(ranges_view(found@)),
            found@.len() > 0 ==> query@.len() > 0 && pattern_valid(query@),
        ensures
            final(self)@ == old(self)@.searched(query@, ranges_view(found@)),
            final(self)@.wf(),
    {
        proof {
            lemma_content(self@);
        }
        let count = found.len();
        self.match_ranges = found;
        if count > 0 {
            self.wrap_text();
            self.revalidate();
            self.msg_display = matches_status(count, &query);
            proof {
                lemma_content(self@);
                crate::state::lemma_content_swap(self@, self@.matches, query@);
            }
            self.search_term = query;
            self.mode = Mode::Normal;
        } else {
            proof {
                crate::state::lemma_content_swap(
                    old(self)@,
                    ranges_view(self.match_ranges@),
                    self@.search_term,
                );
            }
            self.msg_display = chars_of("Error: No matches found");
            self.mode = Mode::Normal;
        }
    }

    /// Shows that a search could not run, for the reason `reason`.
    fn show_search_error(&mut self, reason: &str)
        requires
            old(self)@.wf(),
            old(self)@.mode == Mode::SearchInput,
        ensures
            final(self)@ == old(self)@.search_failed(reason@),
            final(self)@.wf(),
    {
        let mut status = chars_of("Error: ");
        let reason_chars = chars_of(reason);
        append_chars(&mut status, &reason_chars);
        self.msg_display = status;
        self.mode = Mode::Normal;
    }

    /// Searches the document for what was typed after the slash.
    fn submit_search(&mut self)
        requires
            old(self)@.wf(),
            old(self)@.mode == Mode::SearchInput,
        ensures
            old(self)@.search_submitted(final(self)@),
            final(self)@.wf(),
    {
        let query = self.read_query();
        let term = string_of(&query);
        match self.model.run_search(term.as_str()) {
            Ok(found) => {
                assert(query@.len() == 0 ==> ranges_view(found@) =~= Seq::<(int, int)>::empty());
                self.show_matches(query, found);
            },
            Err(error) => {
                self.show_search_error(error.message.as_str());
            },
        }
    }

    /// Handles a key in SearchInput mode.
    fn search_input_handle_key_event(&mut self, key: Key)
        requires
            old(self)@.wf(),
            old(self)@.mode == Mode::SearchInput,
        ensures
            key != Key::Enter ==> final(self)@ == old(self)@.search_key(key),
            key == Key::Enter ==> old(self)@.search_submitted(final(self)@),
            final(self)@.wf(),
    {
        match key {
            Key::Esc => {
                self.msg_display = Vec::new();
                self.mode = Mode::Normal;
            },
            Key::Enter => self.submit_search(),
            Key::Backspace => {
                if self.msg_display.len() <= 1 {
                    self.msg_display = Vec::new();
                    self.mode = Mode::Normal;
                } else {
                    self.msg_display.pop();
                }
            },
            Key::Char(c) => {
                self.msg_display.push(c);
            },
            _ => {},
        }
    }

    /// Handles a key press: what it does depends on the mode.
    pub fn handle_key_event(&mut self, key: Key) -> (action: Action)
        requires
            old(self)@.wf(),
        ensures
            old(self)@.key_pressed(key, final(self)@),
            action == old(self)@.key_action(key),
            final(self)@.wf(),
    {
        match self.mode {
            Mode::Command => self.command_handle_key_event(key),
            Mode::Insert => {
                self.insert_handle_key_event(key);
                Action::Nothing
            },
            Mode::Normal => {
                self.normal_handle_key_event(key);
                Action::Nothing
            },
            Mode::SearchInput => {
                self.search_input_handle_key_event(key);
                Action::Nothing
            },
            Mode::Minimized => Action::Nothing,
            Mode::Help => {
                self.help_handle_key_event(key);
                Action::Nothing
            },
            Mode::Quit => self.quit_handle_key_event(key),
        }
    }

    /// Handles what the terminal reported: a key press or a new size.
    pub fn handle_events(&mut self, event: Event) -> (action: Action)
        requires
            old(self)@.wf(),
            event matches Event::Resize(cols, rows) ==> (rows > 4 ==> cols >= 3),
        ensures
            match event {
                Event::Key(key) => old(self)@.key_pressed(key, final(self)@) && action == old(
                    self,
                )@.key_action(key),
                Event::Resize(cols, rows) => final(self)@ == old(self)@.resized(
                    rows as int,
                    cols as int,
                ) && action == Action::Nothing,
                Event::Other => final(self)@ == old(self)@ && action == Action::Nothing,
            },
            final(self)@.wf(),
    {
        match event {
            Event::Key(key) => self.handle_key_event(key),
            Event::Resize(cols, rows) => {
                self.update_term_size(rows, cols);
                Action::Nothing
            },
            Event::Other => Action::Nothing,
        }
    }
}

} // verus!
