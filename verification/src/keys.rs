//! The mode state machine as contracts speak of it: what each key, each
//! resize and each finished save makes of the session.

use vstd::prelude::*;
use crate::cursor::file_index_spec;
use crate::layout::RowView;
use crate::model::without;
use crate::invariants::{lemma_rows_inv, rows_inv};
use crate::layout::ranges_ascending;
use crate::search::{pattern_valid, search_hits};
use crate::state::{
    content_inv, end_of_file_text, lemma_slipped_rests, matches_text, start_of_file_text, AppView,
    Mode, QuitSelection, MAX_HELP_SCROLL,
};
use crate::wrap::measured_page;
use crate::text::chars_of;

verus! {

/// A key press.
#[derive(Debug, Clone, Copy, PartialEq, Eq, Structural)]
pub enum Key {
    Char(char),
    Enter,
    Esc,
    Backspace,
    Delete,
    Tab,
    Up,
    Down,
    Left,
    Right,
    /// Any key that no mode listens to.
    Other,
}

/// What the terminal reports.
#[derive(Debug, Clone, Copy, PartialEq, Eq, Structural)]
pub enum Event {
    Key(Key),
    /// The terminal now has this many columns and rows.
    Resize(u16, u16),
    /// Anything else; it is ignored.
    Other,
}

/// Why the document is to be saved.
#[derive(Debug, Clone, Copy, PartialEq, Eq, Structural)]
pub enum SaveIntent {
    /// `:w`: save and go on.
    Write,
    /// `:wq`: save and leave.
    WriteQuit,
    /// The quit pop-up's first choice: save and leave.
    ConfirmQuit,
}

/// What the caller is to do after an event.
#[derive(Debug, Clone, Copy, PartialEq, Eq, Structural)]
pub enum Action {
    Nothing,
    /// Save the document, then report how it went.
    Save(SaveIntent),
}

/// What a submitted command asks for.
#[derive(Debug, Clone, Copy, PartialEq, Eq, Structural)]
pub enum Command {
    Write,
    Quit,
    WriteQuit,
    ToggleNumbers,
    DeleteLine,
    Invalid,
}

/// Status shown after a save.
pub open spec fn wrote_file_text() -> Seq<char> {
    "Wrote file"@
}

/// Status shown when a save failed for the reason `reason`.
pub open spec fn write_error_text(reason: Seq<char>) -> Seq<char> {
    "Error: could not write file: "@ + reason
}

/// Status shown after a command that is none.
pub open spec fn invalid_command_text() -> Seq<char> {
    "Error: Invalid Command"@
}

/// Status shown after a search without matches.
pub open spec fn no_matches_text() -> Seq<char> {
    "Error: No matches found"@
}

/// Status shown after a search for a pattern that does not compile, which
/// the pattern compiler described as `reason`.
pub open spec fn search_error_text(reason: Seq<char>) -> Seq<char> {
    "Error: "@ + reason
}

/// The command that the input `input` spells.
pub open spec fn command_of(input: Seq<char>) -> Command {
    if input == ":w"@ || input == ":write"@ {
        Command::Write
    } else if input == ":q"@ || input == ":quit"@ {
        Command::Quit
    } else if input == ":wq"@ {
        Command::WriteQuit
    } else if input == ":set number"@ || input == ":set num"@ || input == ":set nu"@ || input
        == ":num"@ || input == ":nu"@ {
        Command::ToggleNumbers
    } else if input == ":dd"@ {
        Command::DeleteLine
    } else {
        Command::Invalid
    }
}

/// Whether `input` spells `word`.
pub fn spells(input: &Vec<char>, word: &str) -> (same: bool)
    ensures
        same == (input@ == word@),
{
    let letters = chars_of(word);
    if letters.len() != input.len() {
        return false;
    }
    let mut k: usize = 0;
    while k < input.len()
        invariant
            k <= input.len(),
            letters.len() == input.len(),
            letters@ == word@,
            forall|j: int| 0 <= j < k ==> input[j] == letters[j],
        decreases input.len() - k,
    {
        if input[k] != letters[k] {
            return false;
        }
        k += 1;
    }
    assert(input@ =~= letters@);
    true
}

/// Reads a submitted command.
pub fn parse_command(input: &Vec<char>) -> (command: Command)
    ensures
        command == command_of(input@),
{
    if spells(input, ":w") || spells(input, ":write") {
        Command::Write
    } else if spells(input, ":q") || spells(input, ":quit") {
        Command::Quit
    } else if spells(input, ":wq") {
        Command::WriteQuit
    } else if spells(input, ":set number") || spells(input, ":set num") || spells(
        input,
        ":set nu",
    ) || spells(input, ":num") || spells(input, ":nu") {
        Command::ToggleNumbers
    } else if spells(input, ":dd") {
        Command::DeleteLine
    } else {
        Command::Invalid
    }
}

/// The first row at or after `k` that belongs to line `line`, or the number
/// of rows if there is none.
pub open spec fn first_of_line(rows: Seq<RowView>, line: int, k: int) -> int
    decreases rows.len() - k,
{
    if k < 0 || k >= rows.len() || rows[k].line_num == line {
        k
    } else {
        first_of_line(rows, line, k + 1)
    }
}

/// The first row at or after `k` that belongs to another line than `line`,
/// or the number of rows if there is none.
pub open spec fn first_off_line(rows: Seq<RowView>, line: int, k: int) -> int
    decreases rows.len() - k,
{
    if k < 0 || k >= rows.len() || rows[k].line_num != line {
        k
    } else {
        first_off_line(rows, line, k + 1)
    }
}

/// The selection one step to the left.
pub open spec fn selection_left(selection: QuitSelection) -> QuitSelection {
    match selection {
        QuitSelection::Cancel => QuitSelection::NoSaveQuit,
        _ => QuitSelection::SaveAndQuit,
    }
}

/// The selection one step to the right.
pub open spec fn selection_right(selection: QuitSelection) -> QuitSelection {
    match selection {
        QuitSelection::SaveAndQuit => QuitSelection::NoSaveQuit,
        _ => QuitSelection::Cancel,
    }
}

impl AppView {
    /// The status that replaces passing messages: the count of matches
    /// while matches are highlighted, nothing otherwise.
    pub open spec fn quiet_status(self) -> Seq<char> {
        if self.highlighting() {
            matches_text(self.matches.len(), self.search_term)
        } else {
            Seq::empty()
        }
    }

    /// The session with passing messages cleared.
    pub open spec fn quiet(self) -> AppView {
        self.with_status(self.quiet_status())
    }

    /// The session in another mode.
    pub open spec fn in_mode(self, mode: Mode) -> AppView {
        AppView { mode, ..self }
    }

    /// The document index that the cursor stands for.
    pub open spec fn file_index(self) -> int {
        file_index_spec(self.cur_row(), self.col, self.insert(), self.gutter)
    }

    /// The session with another document, wrapped anew, and the cursor
    /// brought back onto the rows.
    pub open spec fn edited(self, text: Seq<char>) -> AppView {
        AppView { text, ..self }.rewrapped().revalidated()
    }

    /// The session after the character `c` is typed in Insert mode: `c` is
    /// inserted where the caret stands and the caret moves past it. Where
    /// the caret stands beyond the document, nothing is inserted and the
    /// status says so.
    pub open spec fn typed(self, c: char) -> AppView {
        if self.file_index() > self.text.len() {
            self.with_status(end_of_file_text())
        } else {
            let after = self.edited(self.text.insert(self.file_index(), c)).moved_right();
            if after.col == 1 && c != '\n' {
                after.moved_right()
            } else {
                after
            }
        }
    }

    /// The session after the character at the caret is deleted; where there
    /// is none, the status says so.
    pub open spec fn deleted(self) -> AppView {
        if self.file_index() < self.text.len() {
            self.edited(self.text.remove(self.file_index()))
        } else {
            self.with_status(end_of_file_text())
        }
    }

    /// The session after Backspace in Insert mode: the caret moves left and
    /// the character it then stands before is deleted; at the start of the
    /// document the status says so.
    pub open spec fn erased(self) -> AppView {
        if self.file_index() > 0 {
            self.moved_left().deleted()
        } else {
            self.with_status(start_of_file_text())
        }
    }

    /// The document without the line under the cursor: from the first
    /// character of the line's first row to the first character of the next
    /// line's first row, or to the end of the document if no line follows.
    pub open spec fn without_line(self) -> Seq<char> {
        let line = self.cur_row().line_num;
        let first = first_of_line(self.rows, line, 0);
        let next = first_off_line(self.rows, line, first + 1);
        if next < self.rows.len() {
            without(self.text, self.rows[first].infile_index, self.rows[next].infile_index)
        } else {
            self.text.subrange(0, self.rows[first].infile_index)
        }
    }

    /// The session after a key in Normal mode.
    pub open spec fn normal_key(self, key: Key) -> AppView {
        let quiet = self.quiet();
        match key {
            Key::Esc => AppView {
                search_term: Seq::empty(),
                matches: Seq::empty(),
                status: Seq::empty(),
                ..self
            },
            Key::Char('i') | Key::Char('I') => quiet.in_mode(Mode::Insert),
            Key::Char(':') => quiet.in_mode(Mode::Command).with_status(seq![':']),
            Key::Char('/') => AppView {
                mode: Mode::SearchInput,
                search_term: Seq::empty(),
                matches: Seq::empty(),
                status: seq!['/'],
                ..self
            },
            Key::Char('z') | Key::Char('Z') => AppView {
                mode: Mode::Help,
                help_scroll: 0,
                status: Seq::empty(),
                ..self
            },
            Key::Up | Key::Char('k') => quiet.moved_up(),
            Key::Down | Key::Char('j') => quiet.moved_down(),
            Key::Left | Key::Char('h') => quiet.moved_left(),
            Key::Right | Key::Char('l') => quiet.moved_right(),
            _ => quiet,
        }
    }

    /// The session after a key in Insert mode.
    pub open spec fn insert_key(self, key: Key) -> AppView {
        let quiet = self.quiet();
        match key {
            Key::Esc => quiet.in_mode(Mode::Normal).snapped().slipped(),
            Key::Backspace => quiet.erased(),
            Key::Delete => quiet.deleted(),
            Key::Enter => quiet.typed('\n'),
            Key::Tab => quiet.typed('\t'),
            Key::Char(c) => quiet.typed(c),
            Key::Up => quiet.moved_up(),
            Key::Down => quiet.moved_down(),
            Key::Left => quiet.moved_left(),
            Key::Right => quiet.moved_right(),
            _ => quiet,
        }
    }

    /// The session after a command is submitted.
    pub open spec fn submitted(self) -> AppView {
        match command_of(self.status) {
            Command::Write | Command::WriteQuit => self.in_mode(Mode::Normal),
            Command::Quit => AppView { mode: Mode::Quit, selection: QuitSelection::Cancel, ..self },
            Command::ToggleNumbers => AppView { gutter: !self.gutter, ..self }.rewrapped().revalidated().quiet().in_mode(
                Mode::Normal,
            ),
            Command::DeleteLine => self.edited(self.without_line()).in_mode(Mode::Normal).with_status(
                Seq::empty(),
            ),
            Command::Invalid => self.in_mode(Mode::Normal).with_status(invalid_command_text()),
        }
    }

    /// What the caller is to do after a command is submitted.
    pub open spec fn submitted_action(self) -> Action {
        match command_of(self.status) {
            Command::Write => Action::Save(SaveIntent::Write),
            Command::WriteQuit => Action::Save(SaveIntent::WriteQuit),
            _ => Action::Nothing,
        }
    }

    /// The session after a key in Command mode.
    pub open spec fn command_key(self, key: Key) -> AppView {
        match key {
            Key::Esc => self.quiet().in_mode(Mode::Normal),
            Key::Enter => self.submitted(),
            Key::Backspace => if self.status.len() <= 1 {
                self.quiet().in_mode(Mode::Normal)
            } else {
                self.with_status(self.status.drop_last())
            },
            Key::Char(c) => self.with_status(self.status.push(c)),
            _ => self,
        }
    }

    /// The session after a key other than Enter in SearchInput mode.
    pub open spec fn search_key(self, key: Key) -> AppView {
        match key {
            Key::Esc => self.in_mode(Mode::Normal).with_status(Seq::empty()),
            Key::Backspace => if self.status.len() <= 1 {
                self.in_mode(Mode::Normal).with_status(Seq::empty())
            } else {
                self.with_status(self.status.drop_last())
            },
            Key::Char(c) => self.with_status(self.status.push(c)),
            _ => self,
        }
    }

    /// What was typed after the slash in SearchInput mode.
    pub open spec fn query(self) -> Seq<char> {
        self.status.subrange(1, self.status.len() as int)
    }

    /// Whether `after` is the session after Enter in SearchInput mode: the
    /// document was searched for the query. An empty query finds nothing; a
    /// pattern that compiles finds its matches; for one that does not, the
    /// status gives the reason, whatever it is.
    pub open spec fn search_submitted(self, after: AppView) -> bool {
        if self.query().len() == 0 {
            after == self.searched(self.query(), Seq::empty())
        } else if pattern_valid(self.query()) {
            after == self.searched(self.query(), search_hits(self.query(), self.text))
        } else {
            exists|reason: Seq<char>| after == self.search_failed(reason)
        }
    }

    /// Whether `after` is the session after `key` is pressed: each mode has
    /// its own keys, and a minimized session ignores them all.
    pub open spec fn key_pressed(self, key: Key, after: AppView) -> bool {
        match self.mode {
            Mode::Normal => after == self.normal_key(key),
            Mode::Insert => after == self.insert_key(key),
            Mode::Command => after == self.command_key(key),
            Mode::SearchInput => if key == Key::Enter {
                self.search_submitted(after)
            } else {
                after == self.search_key(key)
            },
            Mode::Help => after == self.help_key(key),
            Mode::Quit => after == self.quit_key(key),
            Mode::Minimized => after == self,
        }
    }

    /// What the caller is to do after `key` is pressed.
    pub open spec fn key_action(self, key: Key) -> Action {
        match self.mode {
            Mode::Command => if key == Key::Enter {
                self.submitted_action()
            } else {
                Action::Nothing
            },
            Mode::Quit => self.quit_action(key),
            _ => Action::Nothing,
        }
    }

    /// The session after a search for `query` found the matches `found`:
    /// with at least one, they are highlighted and counted in the status;
    /// with none, the status says so.
    pub open spec fn searched(self, query: Seq<char>, found: Seq<(int, int)>) -> AppView {
        if found.len() > 0 {
            let shown = AppView { matches: found, ..self }.rewrapped().revalidated();
            AppView {
                search_term: query,
                status: matches_text(found.len(), query),
                mode: Mode::Normal,
                ..shown
            }
        } else {
            AppView { matches: found, status: no_matches_text(), mode: Mode::Normal, ..self }
        }
    }

    /// The session after a search could not run for the reason `reason`.
    pub open spec fn search_failed(self, reason: Seq<char>) -> AppView {
        self.in_mode(Mode::Normal).with_status(search_error_text(reason))
    }

    /// The session after a key in Help mode.
    pub open spec fn help_key(self, key: Key) -> AppView {
        match key {
            Key::Esc => AppView {
                mode: Mode::Normal,
                help_scroll: 0,
                status: if self.highlighting() {
                    self.quiet_status()
                } else {
                    self.status
                },
                ..self
            },
            Key::Up | Key::Char('^') => AppView {
                help_scroll: if self.help_scroll > 0 {
                    self.help_scroll - 1
                } else {
                    self.help_scroll
                },
                ..self
            },
            Key::Down | Key::Char('v') | Key::Char('V') => AppView {
                help_scroll: if self.help_scroll < MAX_HELP_SCROLL {
                    self.help_scroll + 1
                } else {
                    self.help_scroll
                },
                ..self
            },
            _ => self,
        }
    }

    /// The session after a key in Quit mode.
    pub open spec fn quit_key(self, key: Key) -> AppView {
        match key {
            Key::Left | Key::Char('<') | Key::Char(',') => AppView {
                selection: selection_left(self.selection),
                ..self
            },
            Key::Right | Key::Char('>') | Key::Char('.') => AppView {
                selection: selection_right(self.selection),
                ..self
            },
            Key::Enter => match self.selection {
                QuitSelection::Cancel => self.quiet().in_mode(Mode::Normal),
                QuitSelection::NoSaveQuit => AppView { running: false, ..self },
                QuitSelection::SaveAndQuit => self,
            },
            Key::Esc => self.quiet().in_mode(Mode::Normal),
            _ => self,
        }
    }

    /// What the caller is to do after a key in Quit mode.
    pub open spec fn quit_action(self, key: Key) -> Action {
        if key == Key::Enter && self.selection == QuitSelection::SaveAndQuit {
            Action::Save(SaveIntent::ConfirmQuit)
        } else {
            Action::Nothing
        }
    }

    /// The session after a save was tried for `intent`; `error` is why it
    /// failed, if it did.
    pub open spec fn saved(self, intent: SaveIntent, error: Option<Seq<char>>) -> AppView {
        match error {
            Some(reason) => self.with_status(write_error_text(reason)),
            None => match intent {
                SaveIntent::Write => self.with_status(wrote_file_text()),
                _ => AppView { running: false, ..self },
            },
        }
    }

    /// The session after the terminal is resized to `height` rows and
    /// `width` columns. At four rows or fewer the session is minimized and
    /// the cursor goes to the top left. Otherwise a minimized session
    /// returns to Normal mode, the rows are wrapped anew, and the cursor is
    /// brought back into the viewport and onto the rows.
    pub open spec fn resized(self, height: int, width: int) -> AppView {
        let sized = AppView { height, width, ..self };
        if height <= 4 {
            AppView { mode: Mode::Minimized, row: 1, col: 1, ..sized }
        } else {
            let awake = if self.mode == Mode::Minimized {
                sized.in_mode(Mode::Normal).quiet()
            } else {
                sized
            };
            let wrapped = awake.rewrapped();
            wrapped.with_col(
                if wrapped.col > wrapped.right() {
                    wrapped.right()
                } else {
                    wrapped.col
                },
            ).revalidated()
        }
    }
}

impl AppView {
    /// The content is in order and the terminal is large enough; the scroll
    /// amount and the cursor may lie beyond the rows.
    pub open spec fn loose(self) -> bool {
        &&& self.content_ok()
        &&& self.rows.len() >= 1
        &&& 0 <= self.help_scroll <= MAX_HELP_SCROLL
        &&& 0 <= self.scroll
        &&& 1 <= self.row
        &&& self.mode == Mode::SearchInput || self.mode == Mode::Command ==> self.status.len() >= 1
        &&& self.mode == Mode::SearchInput ==> !self.highlighting()
        &&& self.mode != Mode::Minimized
        &&& self.height > 4
        &&& self.width >= 3
    }
}

/// Bringing the scroll amount and the cursor back onto the rows makes the
/// session well formed.
pub proof fn lemma_revalidated_wf(v: AppView)
    requires
        v.loose(),
    ensures
        v.revalidated().wf(),
        v.revalidated().mode == v.mode,
{
    let scroll = if v.scroll > v.max_scroll() {
        v.max_scroll()
    } else {
        v.scroll
    };
    let within = if v.row > v.bottom() {
        v.bottom()
    } else {
        v.row
    };
    let row = if within > v.rows.len() - scroll {
        v.rows.len() - scroll
    } else {
        within
    };
    let placed = AppView { scroll, row, ..v };
    assert(placed.framed());
    lemma_slipped_rests(placed.snapped());
}

/// The rows of a document wrapped anew, with matches in order, are content
/// in order.
pub proof fn lemma_rewrapped_content(v: AppView)
    requires
        v.text.len() * 4 <= isize::MAX,
        ranges_ascending(v.fresh_matches()),
        v.highlighting() ==> pattern_valid(v.search_term),
    ensures
        v.rewrapped().content_ok(),
        v.rewrapped().rows.len() >= 1,
{
    reveal(content_inv);
    let page = measured_page(v.text, v.width, v.gutter, v.fresh_matches());
    assert(page.wf());
    lemma_rows_inv(page);
}

/// In rows whose offsets never decrease, a later row starts no earlier.
pub proof fn lemma_offsets_ordered(rows: Seq<RowView>, gutter: bool, text_len: int, a: int, b: int)
    requires
        rows_inv(rows, gutter, text_len),
        0 <= a <= b < rows.len(),
    ensures
        0 <= rows[a].infile_index <= rows[b].infile_index <= text_len,
    decreases b - a,
{
    assert(crate::invariants::row_inv(rows[a], gutter));
    if a < b {
        lemma_offsets_ordered(rows, gutter, text_len, a, b - 1);
        assert(rows[b - 1].infile_index <= rows[b].infile_index);
    }
}

} // verus!
