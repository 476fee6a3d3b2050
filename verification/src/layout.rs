//! The mathematical description of soft wrapping: where each display row
//! starts and stops, what it shows, and what follows from that.

use vstd::prelude::*;
use crate::digits::{decimal_chars, decimal_digits};

verus! {

/// Everything the layout of a document depends on.
pub struct Page {
    /// The document's characters.
    pub text: Seq<char>,
    /// For each character, the columns its glyph takes; unused for tabs and newlines.
    pub widths: Seq<int>,
    /// Columns available to one row, gutter included.
    pub budget: int,
    /// Whether every row starts with its line number.
    pub gutter: bool,
    /// Search matches as half-open ranges of character indices.
    pub highlights: Seq<(int, int)>,
}

/// Where a row starts: its first character, the columns of its gutter, and,
/// for a row that continues a wrapped line, the columns of its first
/// character.
pub struct Origin {
    pub start: int,
    pub base: int,
    pub lead: Option<int>,
}

/// One display row, as contracts speak of it.
pub struct RowView {
    pub content: Seq<char>,
    pub line_num: int,
    pub infile_index: int,
    pub inline_index: int,
    pub invalid_cols: Seq<int>,
    pub highlights: Seq<(int, int)>,
}

impl Page {
    /// Glyph widths are given for every character and are one or two.
    pub open spec fn wf(self) -> bool {
        &&& self.widths.len() == self.text.len()
        &&& forall|i: int| 0 <= i < self.widths.len() ==> 1 <= #[trigger] self.widths[i] <= 2
    }

    /// Matches come in ascending order and do not overlap.
    pub open spec fn highlights_ascending(self) -> bool {
        ranges_ascending(self.highlights)
    }

    /// Columns taken by character `i` when `used` columns of its row are taken:
    /// a tab runs to the next tab stop, anything else takes its glyph width.
    pub open spec fn cell_width(self, i: int, used: int) -> int {
        if self.text[i] == '\t' {
            4 - used % 4
        } else {
            self.widths[i]
        }
    }

    /// Columns taken by character `i` in the row that starts at `o`.
    pub open spec fn width_in(self, o: Origin, i: int, used: int) -> int {
        match o.lead {
            Some(w) if i == o.start => w,
            _ => self.cell_width(i, used),
        }
    }

    /// Columns taken once the characters `o.start..i` are placed in the row.
    pub open spec fn used_at(self, o: Origin, i: int) -> int
        decreases i - o.start,
    {
        if i <= o.start {
            o.base
        } else {
            let before = self.used_at(o, i - 1);
            before + self.width_in(o, i - 1, before)
        }
    }

    /// What the characters `o.start..i` show: a tab shows as spaces over the
    /// columns it takes, any other character as itself.
    pub open spec fn rendered(self, o: Origin, i: int) -> Seq<char>
        decreases i - o.start,
    {
        if i <= o.start {
            Seq::empty()
        } else {
            let before = self.used_at(o, i - 1);
            self.rendered(o, i - 1) + self.cells(i - 1, self.width_in(o, i - 1, before))
        }
    }

    /// What character `i` shows when it takes `width` columns.
    pub open spec fn cells(self, i: int, width: int) -> Seq<char> {
        glyph_cells(self.text[i], width)
    }

    /// The columns inside glyphs of the characters `o.start..i`: every column
    /// of a glyph but its first, numbered from 1.
    pub open spec fn invalid_cols(self, o: Origin, i: int) -> Seq<int>
        decreases i - o.start,
    {
        if i <= o.start {
            Seq::empty()
        } else {
            let before = self.used_at(o, i - 1);
            self.invalid_cols(o, i - 1) + Seq::new(
                (self.width_in(o, i - 1, before) - 1) as nat,
                |k: int| before + 2 + k,
            )
        }
    }

    /// Where a row stops that holds `used` columns and would place character
    /// `i` next: at the end of the text, at a newline, or at the first
    /// character that does not fit.
    pub open spec fn row_end(self, i: int, used: int) -> int
        decreases self.text.len() - i,
    {
        if i < 0 || i >= self.text.len() || self.text[i] == '\n' {
            i
        } else if used + self.cell_width(i, used) > self.budget {
            i
        } else {
            self.row_end(i + 1, used + self.cell_width(i, used))
        }
    }

    /// Columns of the gutter of a row of line `line_num`.
    pub open spec fn gutter_width(self, line_num: int) -> int {
        gutter_width(line_num, self.gutter)
    }

    /// Where the row stops that starts at `o`. A row that continues a wrapped
    /// line takes its first character whether it fits or not; a row that
    /// starts a line takes only what fits.
    pub open spec fn row_stop(self, o: Origin) -> int {
        if o.lead is Some && 0 <= o.start < self.text.len() {
            self.row_end(o.start + 1, self.used_at(o, o.start + 1))
        } else {
            self.row_end(o.start, o.base)
        }
    }

    /// The parts of the matches `j..` that fall on the characters
    /// `o.start..stop` of one row, as half-open ranges of column offsets.
    pub open spec fn row_highlights(self, j: int, o: Origin, stop: int) -> Seq<(int, int)>
        decreases self.highlights.len() - j,
    {
        if j < 0 || j >= self.highlights.len() {
            Seq::empty()
        } else {
            let lo = if self.highlights[j].0 > o.start {
                self.highlights[j].0
            } else {
                o.start
            };
            let hi = if self.highlights[j].1 < stop {
                self.highlights[j].1
            } else {
                stop
            };
            let rest = self.row_highlights(j + 1, o, stop);
            if lo < hi {
                seq![(self.used_at(o, lo), self.used_at(o, hi))] + rest
            } else {
                rest
            }
        }
    }

    /// Where the row of line `line_num` starts that begins at character
    /// `start`, whose width is `lead` if the row continues a wrapped line.
    pub open spec fn origin(self, start: int, line_num: int, lead: Option<int>) -> Origin {
        Origin { start, base: self.gutter_width(line_num), lead }
    }

    /// The row that shows the characters `o.start..stop` of line `line_num`.
    pub open spec fn row_of(self, o: Origin, stop: int, line_num: int, line_off: int) -> RowView {
        RowView {
            content: gutter_chars(line_num, self.gutter) + self.rendered(o, stop),
            line_num: line_num,
            infile_index: o.start,
            inline_index: line_off,
            invalid_cols: self.invalid_cols(o, stop),
            highlights: self.row_highlights(0, o, stop),
        }
    }

    /// The rows from character `start` on, which is character `line_off` of
    /// line `line_num`. After a newline the next row starts a new line. After
    /// a character that did not fit, the next row continues the line with
    /// that character, which keeps the width it was measured with.
    pub open spec fn rows_from(
        self,
        start: int,
        line_num: int,
        line_off: int,
        lead: Option<int>,
    ) -> Seq<RowView>
        decreases self.text.len() - start, (if lead is Some { 0int } else { 1int }),
        via Self::rows_from_terminates
    {
        let o = self.origin(start, line_num, lead);
        let stop = self.row_stop(o);
        let row = self.row_of(o, stop, line_num, line_off);
        if start < 0 || stop >= self.text.len() {
            seq![row]
        } else if self.text[stop] == '\n' {
            seq![row] + self.rows_from(stop + 1, line_num + 1, 0, None)
        } else {
            let used = self.used_at(o, stop);
            seq![row] + self.rows_from(
                stop,
                line_num,
                line_off + (stop - start),
                Some(self.cell_width(stop, used)),
            )
        }
    }

    #[via_fn]
    proof fn rows_from_terminates(self, start: int, line_num: int, line_off: int, lead: Option<int>) {
        self.lemma_row_stop_bounds(self.origin(start, line_num, lead));
    }

    /// All the rows of the document.
    pub open spec fn rows(self) -> Seq<RowView> {
        self.rows_from(0, 1, 0, None)
    }

    /// The row that starts at `o` has been filled with the characters up to
    /// `i`: it takes `used` columns, shows `content`, holds the invalid
    /// columns `invalid`, its characters start at the column offsets `cols`,
    /// and it stops where a row stops that is filled this far.
    #[verifier::opaque]
    pub open spec fn filled(
        self,
        o: Origin,
        line_num: int,
        i: int,
        used: int,
        content: Seq<char>,
        invalid: Seq<int>,
        cols: Seq<int>,
    ) -> bool {
        &&& o.start <= i
        &&& o.base == self.gutter_width(line_num)
        &&& used == self.used_at(o, i)
        &&& content == gutter_chars(line_num, self.gutter) + self.rendered(o, i)
        &&& invalid == self.invalid_cols(o, i)
        &&& cols.len() == i - o.start
        &&& forall|k: int| 0 <= k < cols.len() ==> cols[k] == self.used_at(o, o.start + k)
        &&& self.row_stop(o) == self.row_end(i, used)
    }

    /// A row that starts a line is filled up to its start when it shows its
    /// gutter alone.
    pub proof fn lemma_filled_open(self, start: int, line_num: int)
        ensures
            self.filled(
                self.origin(start, line_num, None),
                line_num,
                start,
                self.gutter_width(line_num),
                gutter_chars(line_num, self.gutter),
                Seq::empty(),
                Seq::empty(),
            ),
    {
        reveal(Page::filled);
        let o = self.origin(start, line_num, None);
        assert(gutter_chars(line_num, self.gutter) + self.rendered(o, start) =~= gutter_chars(
            line_num,
            self.gutter,
        ));
    }

    /// A row that continues a line is filled up to its second character once
    /// it shows its gutter and its first character.
    pub proof fn lemma_filled_lead(self, start: int, line_num: int, width: int)
        requires
            0 <= start < self.text.len(),
        ensures
            self.filled(
                self.origin(start, line_num, Some(width)),
                line_num,
                start + 1,
                self.gutter_width(line_num) + width,
                gutter_chars(line_num, self.gutter) + glyph_cells(self.text[start], width),
                Seq::new((width - 1) as nat, |k: int| self.gutter_width(line_num) + 2 + k),
                seq![self.gutter_width(line_num)],
            ),
    {
        reveal(Page::filled);
        let o = self.origin(start, line_num, Some(width));
        let base = self.gutter_width(line_num);
        assert(self.used_at(o, start) == base);
        assert(self.used_at(o, start + 1) == base + width);
        assert(self.rendered(o, start) =~= Seq::<char>::empty());
        assert(self.rendered(o, start + 1) =~= glyph_cells(self.text[start], width));
        assert(self.invalid_cols(o, start) =~= Seq::<int>::empty());
        assert(self.invalid_cols(o, start + 1) =~= Seq::new(
            (width - 1) as nat,
            |k: int| base + 2 + k,
        ));
    }

    /// Placing the next character, which fits, fills the row one character
    /// further.
    pub proof fn lemma_filled_place(
        self,
        o: Origin,
        line_num: int,
        i: int,
        used: int,
        content: Seq<char>,
        invalid: Seq<int>,
        cols: Seq<int>,
    )
        requires
            self.filled(o, line_num, i, used, content, invalid, cols),
            0 <= i < self.text.len(),
            self.text[i] != '\n',
            o.lead is Some ==> o.start < i,
            used + self.cell_width(i, used) <= self.budget,
        ensures
            self.filled(
                o,
                line_num,
                i + 1,
                used + self.cell_width(i, used),
                content + glyph_cells(self.text[i], self.cell_width(i, used)),
                invalid + Seq::new(
                    (self.cell_width(i, used) - 1) as nat,
                    |k: int| used + 2 + k,
                ),
                cols.push(used),
            ),
    {
        reveal(Page::filled);
        let width = self.cell_width(i, used);
        assert(self.width_in(o, i, used) == width);
        assert(self.used_at(o, i + 1) == used + width);
        assert(self.rendered(o, i + 1) == self.rendered(o, i) + glyph_cells(self.text[i], width));
        assert(content + glyph_cells(self.text[i], width) =~= gutter_chars(line_num, self.gutter)
            + self.rendered(o, i + 1));
        assert(self.row_end(i, used) == self.row_end(i + 1, used + width));
        let next = cols.push(used);
        assert forall|k: int| 0 <= k < next.len() implies next[k] == self.used_at(
            o,
            o.start + k,
        ) by {
            if k < cols.len() {
                assert(next[k] == cols[k]);
            }
        }
    }

    /// A filled row whose next character is a newline stops there, and the
    /// rows after it start the next line.
    pub proof fn lemma_rows_break(
        self,
        start: int,
        line_num: int,
        line_off: int,
        lead: Option<int>,
        i: int,
        used: int,
        content: Seq<char>,
        invalid: Seq<int>,
        cols: Seq<int>,
    )
        requires
            self.filled(self.origin(start, line_num, lead), line_num, i, used, content, invalid, cols),
            0 <= start,
            0 <= i < self.text.len(),
            self.text[i] == '\n',
        ensures
            self.rows_from(start, line_num, line_off, lead) == seq![
                self.row_of(self.origin(start, line_num, lead), i, line_num, line_off),
            ] + self.rows_from(i + 1, line_num + 1, 0, None),
    {
        reveal(Page::filled);
    }

    /// A filled row whose next character does not fit stops there, and the
    /// rows after it continue the line with that character.
    pub proof fn lemma_rows_wrap(
        self,
        start: int,
        line_num: int,
        line_off: int,
        lead: Option<int>,
        i: int,
        used: int,
        content: Seq<char>,
        invalid: Seq<int>,
        cols: Seq<int>,
    )
        requires
            self.filled(self.origin(start, line_num, lead), line_num, i, used, content, invalid, cols),
            0 <= start,
            0 <= i < self.text.len(),
            self.text[i] != '\n',
            used + self.cell_width(i, used) > self.budget,
        ensures
            self.rows_from(start, line_num, line_off, lead) == seq![
                self.row_of(self.origin(start, line_num, lead), i, line_num, line_off),
            ] + self.rows_from(
                i,
                line_num,
                line_off + (i - start),
                Some(self.cell_width(i, used)),
            ),
    {
        reveal(Page::filled);
    }

    /// A row filled to the end of the text is the last.
    pub proof fn lemma_rows_last(
        self,
        start: int,
        line_num: int,
        line_off: int,
        lead: Option<int>,
        used: int,
        content: Seq<char>,
        invalid: Seq<int>,
        cols: Seq<int>,
    )
        requires
            self.filled(
                self.origin(start, line_num, lead),
                line_num,
                self.text.len() as int,
                used,
                content,
                invalid,
                cols,
            ),
        ensures
            self.rows_from(start, line_num, line_off, lead) == seq![
                self.row_of(
                    self.origin(start, line_num, lead),
                    self.text.len() as int,
                    line_num,
                    line_off,
                ),
            ],
    {
        reveal(Page::filled);
    }

    /// Matches that end at or before a row's start leave nothing on the row.
    pub proof fn lemma_highlights_skip(self, from: int, to: int, o: Origin, stop: int)
        requires
            0 <= from <= to <= self.highlights.len(),
            forall|k: int| from <= k < to ==> (#[trigger] self.highlights[k]).1 <= o.start,
        ensures
            self.row_highlights(from, o, stop) == self.row_highlights(to, o, stop),
        decreases to - from,
    {
        if from < to {
            assert(self.highlights[from].1 <= o.start);
            self.lemma_highlights_skip(from + 1, to, o, stop);
        }
    }

    /// Ascending matches from the first that starts at or after a row's stop
    /// leave nothing on the row.
    pub proof fn lemma_highlights_beyond(self, j: int, o: Origin, stop: int)
        requires
            self.highlights_ascending(),
            0 <= j <= self.highlights.len(),
            j < self.highlights.len() ==> self.highlights[j].0 >= stop,
        ensures
            self.row_highlights(j, o, stop) == Seq::<(int, int)>::empty(),
        decreases self.highlights.len() - j,
    {
        if j < self.highlights.len() {
            if j + 1 < self.highlights.len() {
                assert(self.highlights[j].1 <= self.highlights[j + 1].0);
                assert(self.highlights[j].0 <= self.highlights[j].1);
            }
            self.lemma_highlights_beyond(j + 1, o, stop);
        }
    }

    /// A row stops at or after its start, after it if it continues a line,
    /// and within the text.
    pub proof fn lemma_row_stop_bounds(self, o: Origin)
        ensures
            o.start <= self.row_stop(o),
            o.lead is Some && 0 <= o.start < self.text.len() ==> o.start < self.row_stop(o),
            0 <= o.start <= self.text.len() ==> self.row_stop(o) <= self.text.len(),
    {
        if o.lead is Some && 0 <= o.start < self.text.len() {
            self.lemma_row_end_bounds(o.start + 1, self.used_at(o, o.start + 1));
        } else {
            self.lemma_row_end_bounds(o.start, o.base);
        }
    }

    /// A row never stops before the character it would place next, nor
    /// beyond the end of the text.
    pub proof fn lemma_row_end_bounds(self, i: int, used: int)
        ensures
            i <= self.row_end(i, used),
            0 <= i <= self.text.len() ==> self.row_end(i, used) <= self.text.len(),
        decreases self.text.len() - i,
    {
        if i < 0 || i >= self.text.len() || self.text[i] == '\n' {
        } else if used + self.cell_width(i, used) > self.budget {
        } else {
            self.lemma_row_end_bounds(i + 1, used + self.cell_width(i, used));
        }
    }
}

/// Ranges are well formed, come in ascending order and do not overlap.
pub open spec fn ranges_ascending(ranges: Seq<(int, int)>) -> bool {
    &&& forall|j: int| 0 <= j < ranges.len() ==> 0 <= (#[trigger] ranges[j]).0 <= ranges[j].1
    &&& forall|j: int, k: int|
        0 <= j < k < ranges.len() ==> (#[trigger] ranges[j]).1 <= (#[trigger] ranges[k]).0
}

/// What a character shows when it takes `width` columns: a tab shows as that
/// many spaces, any other character as itself.
pub open spec fn glyph_cells(c: char, width: int) -> Seq<char> {
    if c == '\t' {
        Seq::new(width as nat, |k: int| ' ')
    } else {
        seq![c]
    }
}

/// Columns of the gutter of a row of line `line_num`: its digits and a bar.
pub open spec fn gutter_width(line_num: int, shown: bool) -> int {
    if shown {
        (decimal_digits(line_num as nat) + 1) as int
    } else {
        0
    }
}

/// The gutter of a row of line `line_num`: the number, then a bar.
pub open spec fn gutter_chars(line_num: int, shown: bool) -> Seq<char> {
    if shown {
        decimal_chars(line_num as nat).push('|')
    } else {
        Seq::empty()
    }
}

} // verus!
