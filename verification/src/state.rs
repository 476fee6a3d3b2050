//! The editor session as contracts speak of it, and what each cursor move
//! makes of it.

use vstd::prelude::*;
use crate::cursor::{
    left_bound_spec, lemma_slip_rests, reach_spec, slip_right, slip_spec, snap_spec,
};
use crate::digits::decimal_chars;
use crate::invariants::{row_inv, rows_inv};
use crate::layout::{ranges_ascending, RowView};
use crate::search::{pattern_valid, search_hits};
use crate::wrap::measured_page;

verus! {

/// How far the help text scrolls.
pub const MAX_HELP_SCROLL: u16 = 14;

/// What the keys mean at the moment.
#[derive(Debug, Clone, Copy, PartialEq, Eq, Structural)]
pub enum Mode {
    Normal,
    Command,
    SearchInput,
    Insert,
    /// The terminal is too low to show anything; keys are ignored.
    Minimized,
    /// The help pop-up is open.
    Help,
    /// The quit pop-up is open.
    Quit,
}

/// The choices of the quit pop-up, from left to right.
#[derive(Debug, Clone, Copy, PartialEq, Eq, Structural)]
pub enum QuitSelection {
    SaveAndQuit,
    NoSaveQuit,
    Cancel,
}

/// Status shown when a move runs into the start of the document.
pub open spec fn start_of_file_text() -> Seq<char> {
    "Error: Start of file reached"@
}

/// Status shown when a move or a deletion runs into the end of the document.
pub open spec fn end_of_file_text() -> Seq<char> {
    "Error: End of file reached"@
}

/// Status shown while matches are highlighted.
pub open spec fn matches_text(count: nat, term: Seq<char>) -> Seq<char> {
    decimal_chars(count) + " matches for "@ + term
}

/// The session as contracts speak of it.
pub struct AppView {
    /// The document.
    pub text: Seq<char>,
    /// Name of the document's file.
    pub file_name: Seq<char>,
    /// The display rows, as last wrapped.
    pub rows: Seq<RowView>,
    /// Display rows scrolled past the top.
    pub scroll: int,
    /// Rows of help text scrolled past the top.
    pub help_scroll: int,
    /// The choice selected in the quit pop-up.
    pub selection: QuitSelection,
    pub mode: Mode,
    /// Whether rows show their line numbers.
    pub gutter: bool,
    /// The message bar: status text or, in Command and SearchInput mode, the
    /// input typed so far.
    pub status: Seq<char>,
    /// The pattern whose matches are highlighted; empty when none are.
    pub search_term: Seq<char>,
    /// The matches that the rows were last wrapped with.
    pub matches: Seq<(int, int)>,
    /// The cursor's row in the viewport, from 1.
    pub row: int,
    /// The cursor's column in the viewport, from 1.
    pub col: int,
    /// Height of the terminal.
    pub height: int,
    /// Width of the terminal.
    pub width: int,
    /// Whether the session goes on.
    pub running: bool,
}

impl AppView {
    /// Index of the display row under the cursor.
    pub open spec fn cur(self) -> int {
        self.scroll + self.row - 1
    }

    /// The display row under the cursor.
    pub open spec fn cur_row(self) -> RowView {
        self.rows[self.cur()]
    }

    /// Whether the caret stands between characters.
    pub open spec fn insert(self) -> bool {
        self.mode == Mode::Insert
    }

    /// The lowest row of the viewport that the cursor reaches; the borders
    /// and two status rows take the rest.
    pub open spec fn bottom(self) -> int {
        self.height - 4
    }

    /// The rightmost column of the viewport inside the borders.
    pub open spec fn right(self) -> int {
        self.width - 2
    }

    /// The leftmost column where the cursor may rest on its row.
    pub open spec fn left(self) -> int {
        left_bound_spec(self.cur_row(), self.gutter)
    }

    /// Whether matches are highlighted.
    pub open spec fn highlighting(self) -> bool {
        self.search_term.len() > 0
    }

    /// The most that the rows can be scrolled: what keeps the last row at or
    /// below the bottom of the viewport.
    pub open spec fn max_scroll(self) -> int {
        if self.rows.len() > self.bottom() {
            self.rows.len() - self.bottom()
        } else {
            0
        }
    }

    /// The rows are those of a wrapped document and start within the text,
    /// which is short enough to be held in memory; the matches are in
    /// order, and a highlighted pattern is one that compiles.
    pub open spec fn content_ok(self) -> bool {
        content_inv(self.rows, self.gutter, self.text, self.matches, self.search_term)
    }

    /// The content is in order, the cursor is on a row and, unless the
    /// terminal is minimized, within the viewport. Nothing is said of the
    /// cursor's column.
    pub open spec fn framed(self) -> bool {
        &&& self.content_ok()
        &&& self.rows.len() >= 1
        &&& 0 <= self.help_scroll <= MAX_HELP_SCROLL
        &&& 0 <= self.scroll
        &&& 1 <= self.row
        &&& self.scroll + self.row <= self.rows.len()
        &&& self.mode == Mode::SearchInput || self.mode == Mode::Command ==> self.status.len() >= 1
        &&& self.mode == Mode::SearchInput ==> !self.highlighting()
        &&& self.mode != Mode::Minimized ==> {
            &&& self.height > 4
            &&& self.width >= 3
            &&& self.row <= self.bottom()
            &&& self.scroll <= self.max_scroll()
        }
    }

    /// The cursor rests right of the gutter and outside every glyph.
    pub open spec fn rests(self) -> bool {
        &&& self.left() <= self.col
        &&& !self.cur_row().invalid_cols.contains(self.col)
    }

    /// The session is framed and, unless the terminal is minimized, the
    /// cursor rests where it may.
    pub open spec fn wf(self) -> bool {
        &&& self.framed()
        &&& 1 <= self.col
        &&& self.mode != Mode::Minimized ==> self.rests()
    }

    /// The session with another status.
    pub open spec fn with_status(self, status: Seq<char>) -> AppView {
        AppView { status, ..self }
    }

    /// The session with the cursor's column at `col`.
    pub open spec fn with_col(self, col: int) -> AppView {
        AppView { col, ..self }
    }

    /// The column clamped to what the row under the cursor shows.
    pub open spec fn snapped(self) -> AppView {
        self.with_col(snap_spec(self.col, self.cur_row(), self.insert()))
    }

    /// The column moved out of any glyph and out of the gutter.
    pub open spec fn slipped(self) -> AppView {
        self.with_col(slip_spec(self.col, self.cur_row(), self.gutter))
    }

    /// Whether the rows can scroll one further down.
    pub open spec fn can_scroll_down(self) -> bool {
        self.scroll < self.max_scroll() && self.scroll < u16::MAX
    }

    /// The session after a move up: one row up, or, on the top row, the rows
    /// scrolled back by one; at the start of the document nothing moves and
    /// the status says so.
    pub open spec fn moved_up(self) -> AppView {
        if self.row > 1 {
            AppView { row: self.row - 1, ..self }.snapped().slipped()
        } else if self.scroll > 0 {
            AppView { scroll: self.scroll - 1, ..self }.slipped()
        } else {
            self.with_status(start_of_file_text())
        }
    }

    /// The session after a move down: one row down, or, on the bottom row,
    /// the rows scrolled on by one; on the last row of the document nothing
    /// moves and the status says so.
    pub open spec fn moved_down(self) -> AppView {
        if self.cur() + 1 == self.rows.len() {
            self.with_status(end_of_file_text())
        } else if self.row < self.bottom() {
            AppView { row: self.row + 1, ..self }.snapped().slipped()
        } else if self.can_scroll_down() {
            AppView { scroll: self.scroll + 1, ..self }.slipped()
        } else {
            self.with_status(end_of_file_text())
        }
    }

    /// The column that a move right starts from: the last column of the
    /// glyph under the cursor.
    pub open spec fn glyph_end(self) -> int {
        slip_right(self.col, self.cur_row().invalid_cols, (u16::MAX - self.col) as nat)
    }

    /// The session after a move right: one glyph on, or, at the end of the
    /// row, the start of the next row, scrolled into view if need be; at the
    /// end of the document nothing moves and the status says so.
    pub open spec fn moved_right(self) -> AppView {
        if self.glyph_end() >= reach_spec(self.cur_row(), self.insert()) {
            if self.cur() + 1 == self.rows.len() {
                self.with_status(end_of_file_text())
            } else if self.row == self.bottom() {
                if self.can_scroll_down() {
                    let scrolled = AppView { scroll: self.scroll + 1, ..self };
                    scrolled.with_col(scrolled.left())
                } else {
                    self.with_status(end_of_file_text())
                }
            } else {
                let lower = AppView { row: self.row + 1, ..self };
                lower.with_col(lower.left())
            }
        } else {
            self.with_col(self.glyph_end() + 1)
        }
    }

    /// The session after a move left: one column back and out of any glyph,
    /// or, at the start of the row, the end of the row before, scrolled into
    /// view if need be; at the start of the document nothing moves and the
    /// status says so.
    pub open spec fn moved_left(self) -> AppView {
        if self.col == self.left() {
            if self.row == 1 {
                if self.scroll > 0 {
                    let scrolled = AppView { scroll: self.scroll - 1, ..self };
                    scrolled.with_col(reach_spec(scrolled.cur_row(), self.insert())).slipped()
                } else {
                    self.with_status(start_of_file_text())
                }
            } else {
                let upper = AppView { row: self.row - 1, ..self };
                upper.with_col(reach_spec(upper.cur_row(), self.insert())).slipped()
            }
        } else {
            self.with_col(self.col - 1).slipped()
        }
    }

    /// The matches that a new wrapping shows: those of the highlighted
    /// pattern in the document as it is now, or the ones at hand.
    pub open spec fn fresh_matches(self) -> Seq<(int, int)> {
        if self.highlighting() {
            search_hits(self.search_term, self.text)
        } else {
            self.matches
        }
    }

    /// The session with its rows wrapped anew.
    pub open spec fn rewrapped(self) -> AppView {
        AppView {
            matches: self.fresh_matches(),
            rows: measured_page(self.text, self.width, self.gutter, self.fresh_matches()).rows(),
            ..self
        }
    }

    /// The scroll amount and the cursor brought back onto the rows: the
    /// scroll amount to what the rows allow, the cursor's row into the
    /// viewport and onto the rows, its column snapped and slipped.
    pub open spec fn revalidated(self) -> AppView {
        let scroll = if self.scroll > self.max_scroll() {
            self.max_scroll()
        } else {
            self.scroll
        };
        let within = if self.row > self.bottom() {
            self.bottom()
        } else {
            self.row
        };
        let row = if within > self.rows.len() - scroll {
            self.rows.len() - scroll
        } else {
            within
        };
        AppView { scroll, row, ..self }.snapped().slipped()
    }
}

/// The rows are those of a wrapped document and start within the text,
/// which is short enough to be held in memory; the matches are in order,
/// and a highlighted pattern is one that compiles.
#[verifier::opaque]
pub open spec fn content_inv(
    rows: Seq<RowView>,
    gutter: bool,
    text: Seq<char>,
    matches: Seq<(int, int)>,
    search_term: Seq<char>,
) -> bool {
    &&& rows_inv(rows, gutter, text.len() as int)
    &&& text.len() * 4 <= isize::MAX
    &&& ranges_ascending(matches)
    &&& search_term.len() > 0 ==> pattern_valid(search_term)
}

/// What a framed session's content is known to be.
pub proof fn lemma_content(v: AppView)
    requires
        v.content_ok(),
    ensures
        rows_inv(v.rows, v.gutter, v.text.len() as int),
        v.text.len() * 4 <= isize::MAX,
        ranges_ascending(v.matches),
        v.highlighting() ==> pattern_valid(v.search_term),
        forall|k: int| 0 <= k < v.rows.len() ==> row_inv(#[trigger] v.rows[k], v.gutter),
{
    reveal(content_inv);
}

/// Content stays in order when the matches and the highlighted pattern are
/// replaced by matches in order and a pattern that compiles.
pub proof fn lemma_content_swap(v: AppView, matches: Seq<(int, int)>, search_term: Seq<char>)
    requires
        v.content_ok(),
        ranges_ascending(matches),
        search_term.len() > 0 ==> pattern_valid(search_term),
    ensures
        content_inv(v.rows, v.gutter, v.text, matches, search_term),
{
    reveal(content_inv);
}

/// A slipped cursor rests right of the gutter and outside every glyph.
pub proof fn lemma_slipped_rests(v: AppView)
    requires
        v.framed(),
    ensures
        v.slipped().rests(),
        v.slipped().wf(),
{
    reveal(content_inv);
    assert(row_inv(v.rows[v.cur()], v.gutter));
    lemma_slip_rests(v.col, v.cur_row(), v.gutter);
}

/// The first column after the gutter is a place where the cursor may rest.
pub proof fn lemma_rests_at_left(v: AppView)
    requires
        v.framed(),
    ensures
        v.with_col(v.left()).rests(),
        v.with_col(v.left()).wf(),
{
    reveal(content_inv);
    assert(row_inv(v.rows[v.cur()], v.gutter));
    let row = v.cur_row();
    if row.invalid_cols.contains(v.left()) {
        let k = choose|k: int| 0 <= k < row.invalid_cols.len() && row.invalid_cols[k] == v.left();
        assert(v.left() < row.invalid_cols[k]);
    }
}

/// A move up leaves a well-formed session well formed.
pub proof fn lemma_up_keeps_wf(v: AppView)
    requires
        v.wf(),
        v.mode != Mode::Minimized,
    ensures
        v.moved_up().wf(),
        v.moved_up().mode == v.mode,
{
    reveal_strlit("Error: Start of file reached");
    if v.row > 1 {
        lemma_slipped_rests(AppView { row: v.row - 1, ..v }.snapped());
    } else if v.scroll > 0 {
        lemma_slipped_rests(AppView { scroll: v.scroll - 1, ..v });
    }
}

/// A move down leaves a well-formed session well formed.
pub proof fn lemma_down_keeps_wf(v: AppView)
    requires
        v.wf(),
        v.mode != Mode::Minimized,
    ensures
        v.moved_down().wf(),
        v.moved_down().mode == v.mode,
{
    reveal_strlit("Error: End of file reached");
    if v.cur() + 1 == v.rows.len() {
    } else if v.row < v.bottom() {
        lemma_slipped_rests(AppView { row: v.row + 1, ..v }.snapped());
    } else if v.can_scroll_down() {
        lemma_slipped_rests(AppView { scroll: v.scroll + 1, ..v });
    }
}

/// A move left leaves a well-formed session well formed.
pub proof fn lemma_left_keeps_wf(v: AppView)
    requires
        v.wf(),
        v.mode != Mode::Minimized,
    ensures
        v.moved_left().wf(),
        v.moved_left().mode == v.mode,
{
    reveal_strlit("Error: Start of file reached");
    if v.col == v.left() {
        if v.row == 1 {
            if v.scroll > 0 {
                let scrolled = AppView { scroll: v.scroll - 1, ..v };
                lemma_slipped_rests(scrolled.with_col(reach_spec(scrolled.cur_row(), v.insert())));
            }
        } else {
            let upper = AppView { row: v.row - 1, ..v };
            lemma_slipped_rests(upper.with_col(reach_spec(upper.cur_row(), v.insert())));
        }
    } else {
        lemma_slipped_rests(v.with_col(v.col - 1));
    }
}

/// A move right leaves a well-formed session well formed.
pub proof fn lemma_right_keeps_wf(v: AppView)
    requires
        v.wf(),
        v.mode != Mode::Minimized,
        v.col <= u16::MAX,
    ensures
        v.moved_right().wf(),
        v.moved_right().mode == v.mode,
{
    reveal_strlit("Error: End of file reached");
    crate::cursor::lemma_slip_right(v.col, v.cur_row().invalid_cols, (u16::MAX - v.col) as nat);
    if v.glyph_end() >= reach_spec(v.cur_row(), v.insert()) {
        if v.cur() + 1 == v.rows.len() {
        } else if v.row == v.bottom() {
            if v.can_scroll_down() {
                lemma_rests_at_left(AppView { scroll: v.scroll + 1, ..v });
            }
        } else {
            lemma_rests_at_left(AppView { row: v.row + 1, ..v });
        }
    } else {
        assert(v.glyph_end() < u16::MAX);
    }
}

/// After any move the cursor's column is none of the invalid columns of the
/// row under the cursor. (The cursor's column is a 16-bit number.)
pub proof fn lemma_cursor_outside_glyphs(v: AppView)
    requires
        v.wf(),
        v.mode != Mode::Minimized,
        v.col <= u16::MAX,
    ensures
        !v.moved_up().cur_row().invalid_cols.contains(v.moved_up().col),
        !v.moved_down().cur_row().invalid_cols.contains(v.moved_down().col),
        !v.moved_left().cur_row().invalid_cols.contains(v.moved_left().col),
        !v.moved_right().cur_row().invalid_cols.contains(v.moved_right().col),
        !v.snapped().slipped().cur_row().invalid_cols.contains(v.snapped().slipped().col),
{
    assert(v.moved_up().rests()) by {
        lemma_up_keeps_wf(v);
    }
    assert(v.moved_down().rests()) by {
        lemma_down_keeps_wf(v);
    }
    assert(v.moved_left().rests()) by {
        lemma_left_keeps_wf(v);
    }
    assert(v.moved_right().rests()) by {
        lemma_right_keeps_wf(v);
    }
    assert(v.snapped().slipped().rests()) by {
        lemma_slipped_rests(v.snapped());
    }
}

} // verus!
