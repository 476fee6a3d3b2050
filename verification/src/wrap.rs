//! The display wrapper: re-flows a document into rows that fit the viewport.

use core::ops::Range;
use vstd::prelude::*;
use crate::digits::{count_digits, lemma_digits_of_word, push_decimal};
use crate::glyph::{glyph_width, measure_glyph, TAB_SIZE};
use crate::invariants::{lemma_rows_inv, rows_inv};
use crate::layout::{
    glyph_cells, gutter_chars, gutter_width, ranges_ascending, Origin, Page, RowView,
};
use crate::text::{chars_of, push_char};

verus! {

/// One row of the viewport.
#[derive(Debug)]
pub struct DisplayLine {
    /// What the row shows, gutter included.
    pub line_content: String,
    /// Number of the document line that the row belongs to, from 1.
    pub line_num: usize,
    /// Index in the document of the row's first character.
    pub infile_index: usize,
    /// Index in its line of the row's first character.
    pub inline_index: usize,
    /// Columns, from 1, that lie inside a glyph; the cursor never rests there.
    pub invalid_cols: Vec<u16>,
    /// Search matches on this row, as half-open ranges of column offsets.
    pub highlight_ranges: Vec<Range<usize>>,
}

impl View for DisplayLine {
    type V = RowView;

    open spec fn view(&self) -> RowView {
        RowView {
            content: self.line_content@,
            line_num: self.line_num as int,
            infile_index: self.infile_index as int,
            inline_index: self.inline_index as int,
            invalid_cols: cols_view(self.invalid_cols@),
            highlights: ranges_view(self.highlight_ranges@),
        }
    }
}

impl DisplayLine {
    /// An empty row at the given place in the document.
    pub fn new(line_num: usize, infile_index: usize, inline_index: usize) -> (line: Self)
        ensures
            line.line_content@ == Seq::<char>::empty(),
            line.line_num == line_num,
            line.infile_index == infile_index,
            line.inline_index == inline_index,
            line.invalid_cols@ == Seq::<u16>::empty(),
            line.highlight_ranges@ == Seq::<Range<usize>>::empty(),
    {
        DisplayLine {
            line_content: String::new(),
            line_num,
            infile_index,
            inline_index,
            invalid_cols: Vec::new(),
            highlight_ranges: Vec::new(),
        }
    }
}

/// Columns as mathematical integers.
pub open spec fn cols_view(cols: Seq<u16>) -> Seq<int> {
    Seq::new(cols.len(), |k: int| cols[k] as int)
}

/// Ranges as pairs of mathematical integers.
pub open spec fn ranges_view(ranges: Seq<Range<usize>>) -> Seq<(int, int)> {
    Seq::new(ranges.len(), |k: int| (ranges[k].start as int, ranges[k].end as int))
}

/// Rows as contracts speak of them.
pub open spec fn rows_view(rows: Seq<DisplayLine>) -> Seq<RowView> {
    Seq::new(rows.len(), |k: int| rows[k]@)
}

/// The layout problem that `wrap_glyphs` solves.
pub open spec fn page_of(
    text: Seq<char>,
    widths: Seq<u16>,
    term_width: u16,
    show_lines: bool,
    highlights: Seq<Range<usize>>,
) -> Page {
    Page {
        text,
        widths: cols_view(widths),
        budget: term_width - 2,
        gutter: show_lines,
        highlights: ranges_view(highlights),
    }
}

/// Columns that the wrapper charges for a character: what the width oracle
/// says of its glyph. Tabs and newlines are not asked about.
pub open spec fn measured_width(c: char) -> int {
    if c == '\t' || c == '\n' {
        1
    } else {
        glyph_width(c) as int
    }
}

/// The layout problem that `string_to_lines` solves: the text in a viewport
/// of `term_width` columns, with every glyph as wide as the oracle says.
pub open spec fn measured_page(
    text: Seq<char>,
    term_width: int,
    show_lines: bool,
    highlights: Seq<(int, int)>,
) -> Page {
    Page {
        text,
        widths: Seq::new(text.len(), |i: int| measured_width(text[i])),
        budget: term_width - 2,
        gutter: show_lines,
        highlights,
    }
}

/// Content and width of the gutter of a new row.
fn open_row(line_num: usize, show_lines: bool) -> (r: (String, u16))
    ensures
        r.0@ == gutter_chars(line_num as int, show_lines),
        r.1 == gutter_width(line_num as int, show_lines),
        r.1 <= 21,
{
    let mut content = String::new();
    if show_lines {
        push_decimal(&mut content, line_num);
        push_char(&mut content, '|');
        let digits = count_digits(line_num);
        proof {
            lemma_digits_of_word(line_num);
        }
        (content, (digits + 1) as u16)
    } else {
        (content, 0)
    }
}

/// Puts character `c`, which takes `width` columns after `used`, on a row.
fn place_glyph(content: &mut String, invalid: &mut Vec<u16>, c: char, used: u16, width: u16)
    requires
        1 <= width,
        used + width <= u16::MAX,
    ensures
        final(content)@ == old(content)@ + glyph_cells(c, width as int),
        cols_view(final(invalid)@) == cols_view(old(invalid)@) + Seq::new(
            (width - 1) as nat,
            |k: int| used + 2 + k,
        ),
{
    let ghost content0 = content@;
    let ghost invalid0 = invalid@;
    if c == '\t' {
        push_char(content, ' ');
    } else {
        push_char(content, c);
    }
    let mut k: u16 = 1;
    while k < width
        invariant
            1 <= k <= width,
            used + width <= u16::MAX,
            content@ == content0 + glyph_cells(c, if c == '\t' { k as int } else { width as int }),
            cols_view(invalid@) == cols_view(invalid0) + Seq::new(
                (k - 1) as nat,
                |j: int| used + 2 + j,
            ),
        decreases width - k,
    {
        if c == '\t' {
            push_char(content, ' ');
        }
        let ghost before = cols_view(invalid@);
        invalid.push(used + 1 + k);
        assert(cols_view(invalid@) =~= before.push(used + 1 + k));
        assert(before.push(used + 1 + k) =~= cols_view(invalid0) + Seq::new(
            k as nat,
            |j: int| used + 2 + j,
        ));
        k += 1;
    }
}

/// The parts of the matches that fall on one row.
fn row_ranges(
    page: Ghost<Page>,
    o: Ghost<Origin>,
    highlight_ranges: &Vec<Range<usize>>,
    from: usize,
    cols: &Vec<u16>,
    used: u16,
    start: usize,
    stop: usize,
) -> (out: Vec<Range<usize>>)
    requires
        page@.highlights == ranges_view(highlight_ranges@),
        page@.highlights_ascending(),
        from <= highlight_ranges.len(),
        forall|k: int| 0 <= k < from ==> highlight_ranges[k].end <= start,
        o@.start == start,
        start <= stop,
        cols.len() == stop - start,
        forall|k: int| 0 <= k < cols.len() ==> cols[k] == page@.used_at(o@, start + k),
        used == page@.used_at(o@, stop as int),
    ensures
        ranges_view(out@) == page@.row_highlights(0, o@, stop as int),
{
    let mut out: Vec<Range<usize>> = Vec::new();
    let mut j: usize = from;
    proof {
        page@.lemma_highlights_skip(0, from as int, o@, stop as int);
        assert(ranges_view(out@) =~= Seq::<(int, int)>::empty());
    }
    while j < highlight_ranges.len() && highlight_ranges[j].start < stop
        invariant
            page@.highlights == ranges_view(highlight_ranges@),
            page@.highlights_ascending(),
            from <= j <= highlight_ranges.len(),
            o@.start == start,
            start <= stop,
            cols.len() == stop - start,
            forall|k: int| 0 <= k < cols.len() ==> cols[k] == page@.used_at(o@, start + k),
            used == page@.used_at(o@, stop as int),
            ranges_view(out@) + page@.row_highlights(j as int, o@, stop as int)
                == page@.row_highlights(0, o@, stop as int),
        decreases highlight_ranges.len() - j,
    {
        let lo = if highlight_ranges[j].start > start {
            highlight_ranges[j].start
        } else {
            start
        };
        let hi = if highlight_ranges[j].end < stop {
            highlight_ranges[j].end
        } else {
            stop
        };
        assert(page@.highlights[j as int] == (
            highlight_ranges[j as int].start as int,
            highlight_ranges[j as int].end as int,
        ));
        if lo < hi {
            let from_col = cols[lo - start] as usize;
            let to_col = if hi < stop {
                cols[hi - start] as usize
            } else {
                used as usize
            };
            let ghost before = ranges_view(out@);
            out.push(Range { start: from_col, end: to_col });
            assert(ranges_view(out@) =~= before + seq![(from_col as int, to_col as int)]);
            assert(before + (seq![(from_col as int, to_col as int)] + page@.row_highlights(
                j + 1,
                o@,
                stop as int,
            )) =~= before + seq![(from_col as int, to_col as int)] + page@.row_highlights(
                j + 1,
                o@,
                stop as int,
            ));
        }
        j += 1;
    }
    proof {
        page@.lemma_highlights_beyond(j as int, o@, stop as int);
        assert(ranges_view(out@) + Seq::<(int, int)>::empty() =~= ranges_view(out@));
    }
    out
}

/// The first match at or after `from` that reaches beyond `start`, or the
/// number of matches if none does: every match before it ends at or before
/// `start`, and it does not.
fn skip_passed(highlight_ranges: &Vec<Range<usize>>, from: usize, start: usize) -> (idx: usize)
    requires
        from <= highlight_ranges.len(),
        forall|k: int| 0 <= k < from ==> highlight_ranges[k].end <= start,
    ensures
        from <= idx <= highlight_ranges.len(),
        forall|k: int| 0 <= k < idx ==> highlight_ranges[k].end <= start,
        idx < highlight_ranges.len() ==> highlight_ranges[idx as int].end > start,
{
    let mut idx = from;
    while idx < highlight_ranges.len() && highlight_ranges[idx].end <= start
        invariant
            from <= idx <= highlight_ranges.len(),
            forall|k: int| 0 <= k < idx ==> highlight_ranges[k].end <= start,
        decreases highlight_ranges.len() - idx,
    {
        idx += 1;
    }
    idx
}

/// Finishes the row that shows the characters `start..stop`.
fn close_row(
    page: Ghost<Page>,
    o: Ghost<Origin>,
    content: String,
    invalid: Vec<u16>,
    highlight_ranges: &Vec<Range<usize>>,
    from: usize,
    cols: &Vec<u16>,
    used: u16,
    line_num: usize,
    start: usize,
    stop: usize,
    line_off: usize,
) -> (row: DisplayLine)
    requires
        page@.highlights == ranges_view(highlight_ranges@),
        page@.highlights_ascending(),
        from <= highlight_ranges.len(),
        forall|k: int| 0 <= k < from ==> highlight_ranges[k].end <= start,
        o@.start == start,
        page@.filled(
            o@,
            line_num as int,
            stop as int,
            used as int,
            content@,
            cols_view(invalid@),
            cols_view(cols@),
        ),
    ensures
        row@ == page@.row_of(o@, stop as int, line_num as int, line_off as int),
{
    proof {
        reveal(Page::filled);
        assert forall|k: int| 0 <= k < cols.len() implies cols[k] == page@.used_at(
            o@,
            start + k,
        ) by {
            assert(cols_view(cols@)[k] == cols[k]);
        }
    }
    let ranges = row_ranges(page, o, highlight_ranges, from, cols, used, start, stop);
    DisplayLine {
        line_content: content,
        line_num,
        infile_index: start,
        inline_index: line_off,
        invalid_cols: invalid,
        highlight_ranges: ranges,
    }
}

/// Re-flows a document, given as its characters and the columns that each
/// glyph takes, into rows that fit a bordered viewport of `term_width`
/// columns.
///
/// The rows are exactly those of [`Page::rows`]: a row ends at a newline, at
/// the end of the text, or before the first character that does not fit in
/// the `term_width - 2` columns that the borders leave; with `show_lines`
/// each row starts with its line number and a bar, which take columns too.
pub fn wrap_glyphs(
    chars: &Vec<char>,
    widths: &Vec<u16>,
    term_width: u16,
    show_lines: bool,
    highlight_ranges: &Vec<Range<usize>>,
) -> (lines: Vec<DisplayLine>)
    requires
        term_width >= 3,
        chars.len() < usize::MAX,
        page_of(chars@, widths@, term_width, show_lines, highlight_ranges@).wf(),
        ranges_ascending(ranges_view(highlight_ranges@)),
    ensures
        rows_view(lines@) == page_of(
            chars@,
            widths@,
            term_width,
            show_lines,
            highlight_ranges@,
        ).rows(),
        rows_inv(rows_view(lines@), show_lines, chars@.len() as int),
{
    let ghost page = page_of(chars@, widths@, term_width, show_lines, highlight_ranges@);
    proof {
        lemma_rows_inv(page);
    }
    let max: u16 = term_width - 2;
    let n = chars.len();
    let mut lines: Vec<DisplayLine> = Vec::new();
    let mut line_num: usize = 1;
    let mut row_start: usize = 0;
    let mut line_off: usize = 0;
    let mut hl_idx: usize = 0;
    let (mut content, mut gutter) = open_row(line_num, show_lines);
    let mut used: u16 = gutter;
    let mut invalid: Vec<u16> = Vec::new();
    let mut cols: Vec<u16> = Vec::new();
    let ghost mut lead: Option<int> = None;
    let mut i: usize = 0;
    proof {
        assert(rows_view(lines@) =~= Seq::<RowView>::empty());
        assert(rows_view(lines@) + page.rows() =~= page.rows());
        page.lemma_filled_open(0, 1);
        assert(cols_view(invalid@) =~= Seq::<int>::empty());
        assert(cols_view(cols@) =~= Seq::<int>::empty());
    }
    while i < n
        invariant
            n == chars.len(),
            n < usize::MAX,
            page == page_of(chars@, widths@, term_width, show_lines, highlight_ranges@),
            page.wf(),
            page.highlights_ascending(),
            max == term_width - 2,
            row_start <= i <= n,
            line_off <= row_start,
            1 <= line_num <= row_start + 1,
            gutter == page.gutter_width(line_num as int),
            gutter <= 21,
            lead is Some ==> row_start < i,
            used <= max || used <= gutter + 4,
            page.filled(
                page.origin(row_start as int, line_num as int, lead),
                line_num as int,
                i as int,
                used as int,
                content@,
                cols_view(invalid@),
                cols_view(cols@),
            ),
            hl_idx <= highlight_ranges.len(),
            forall|k: int| 0 <= k < hl_idx ==> highlight_ranges[k].end <= row_start,
            rows_view(lines@) + page.rows_from(
                row_start as int,
                line_num as int,
                line_off as int,
                lead,
            ) == page.rows(),
        decreases n - i,
    {
        let c = chars[i];
        let ghost o = page.origin(row_start as int, line_num as int, lead);
        let ghost shown = rows_view(lines@);
        if c == '\n' {
            proof {
                page.lemma_rows_break(
                    row_start as int,
                    line_num as int,
                    line_off as int,
                    lead,
                    i as int,
                    used as int,
                    content@,
                    cols_view(invalid@),
                    cols_view(cols@),
                );
            }
            let row = close_row(
                Ghost(page),
                Ghost(o),
                content,
                invalid,
                highlight_ranges,
                hl_idx,
                &cols,
                used,
                line_num,
                row_start,
                i,
                line_off,
            );
            lines.push(row);
            line_num = line_num + 1;
            row_start = i + 1;
            line_off = 0;
            hl_idx = skip_passed(highlight_ranges, hl_idx, row_start);
            let opened = open_row(line_num, show_lines);
            content = opened.0;
            gutter = opened.1;
            used = gutter;
            invalid = Vec::new();
            cols = Vec::new();
            proof {
                lead = None;
                lemma_rows_pushed(shown, row@, lines@, page.rows_from(
                    row_start as int,
                    line_num as int,
                    0,
                    None,
                ));
                page.lemma_filled_open(row_start as int, line_num as int);
                assert(cols_view(invalid@) =~= Seq::<int>::empty());
                assert(cols_view(cols@) =~= Seq::<int>::empty());
            }
        } else {
            let width: u16 = if c == '\t' {
                TAB_SIZE - used % TAB_SIZE
            } else {
                widths[i]
            };
            assert(width == page.cell_width(i as int, used as int));
            assert(1 <= width <= 4) by {
                assert(page.widths[i as int] == widths[i as int]);
            }
            if used as u32 + width as u32 > max as u32 {
                proof {
                    page.lemma_rows_wrap(
                        row_start as int,
                        line_num as int,
                        line_off as int,
                        lead,
                        i as int,
                        used as int,
                        content@,
                        cols_view(invalid@),
                        cols_view(cols@),
                    );
                }
                let row = close_row(
                    Ghost(page),
                    Ghost(o),
                    content,
                    invalid,
                    highlight_ranges,
                    hl_idx,
                    &cols,
                    used,
                    line_num,
                    row_start,
                    i,
                    line_off,
                );
                lines.push(row);
                line_off = line_off + (i - row_start);
                row_start = i;
                hl_idx = skip_passed(highlight_ranges, hl_idx, row_start);
                let opened = open_row(line_num, show_lines);
                content = opened.0;
                invalid = Vec::new();
                cols = Vec::new();
                let ghost gutter_only = content@;
                cols.push(gutter);
                place_glyph(&mut content, &mut invalid, c, gutter, width);
                used = gutter + width;
                proof {
                    lead = Some(width as int);
                    lemma_rows_pushed(shown, row@, lines@, page.rows_from(
                        row_start as int,
                        line_num as int,
                        line_off as int,
                        lead,
                    ));
                    page.lemma_filled_lead(row_start as int, line_num as int, width as int);
                    assert(cols_view(invalid@) =~= Seq::new(
                        (width - 1) as nat,
                        |k: int| gutter + 2 + k,
                    ));
                    assert(cols_view(cols@) =~= seq![gutter as int]);
                }
            } else {
                let ghost content0 = content@;
                let ghost invalid0 = cols_view(invalid@);
                let ghost cols0 = cols_view(cols@);
                proof {
                    page.lemma_filled_place(
                        o,
                        line_num as int,
                        i as int,
                        used as int,
                        content0,
                        invalid0,
                        cols0,
                    );
                }
                cols.push(used);
                place_glyph(&mut content, &mut invalid, c, used, width);
                assert(cols_view(cols@) =~= cols0.push(used as int));
                used = used + width;
            }
        }
        i += 1;
    }
    let ghost o = page.origin(row_start as int, line_num as int, lead);
    let ghost shown = rows_view(lines@);
    proof {
        page.lemma_rows_last(
            row_start as int,
            line_num as int,
            line_off as int,
            lead,
            used as int,
            content@,
            cols_view(invalid@),
            cols_view(cols@),
        );
    }
    let row = close_row(
        Ghost(page),
        Ghost(o),
        content,
        invalid,
        highlight_ranges,
        hl_idx,
        &cols,
        used,
        line_num,
        row_start,
        i,
        line_off,
    );
    lines.push(row);
    proof {
        lemma_rows_pushed(shown, row@, lines@, Seq::empty());
        assert(seq![row@] + Seq::<RowView>::empty() =~= seq![row@]);
    }
    lines
}

/// Pushing a row onto the rows shown moves it over from the rows to come.
proof fn lemma_rows_pushed(
    shown: Seq<RowView>,
    row: RowView,
    lines: Seq<DisplayLine>,
    rest: Seq<RowView>,
)
    requires
        lines.len() == shown.len() + 1,
        rows_view(lines.drop_last()) =~= shown,
        lines.last()@ == row,
    ensures
        rows_view(lines) + rest == shown + (seq![row] + rest),
{
    assert(rows_view(lines) =~= shown.push(row)) by {
        assert forall|k: int| 0 <= k < lines.len() implies rows_view(lines)[k] == shown.push(
            row,
        )[k] by {
            if k < shown.len() {
                assert(rows_view(lines.drop_last())[k] == lines.drop_last()[k]@);
            }
        }
    }
    assert(shown.push(row) + rest =~= shown + (seq![row] + rest));
}

/// Re-flows the document `string` into rows that fit a bordered viewport of
/// `term_width` columns, asking the width oracle how wide each glyph is.
///
/// `highlight_ranges` are search matches, as ascending half-open ranges of
/// character indices; each row gets the parts that fall on it.
pub fn string_to_lines(
    string: &str,
    term_width: u16,
    show_lines: bool,
    highlight_ranges: &Vec<Range<usize>>,
) -> (lines: Vec<DisplayLine>)
    requires
        term_width >= 3,
        ranges_ascending(ranges_view(highlight_ranges@)),
    ensures
        rows_view(lines@) == measured_page(
            string@,
            term_width as int,
            show_lines,
            ranges_view(highlight_ranges@),
        ).rows(),
        rows_inv(rows_view(lines@), show_lines, string@.len() as int),
        string@.len() * 4 <= isize::MAX,
{
    let chars = chars_of(string);
    let mut widths: Vec<u16> = Vec::new();
    let mut i: usize = 0;
    while i < chars.len()
        invariant
            i <= chars.len(),
            widths.len() == i,
            forall|k: int| 0 <= k < i ==> widths[k] == measured_width(chars[k]),
        decreases chars.len() - i,
    {
        let c = chars[i];
        if c == '\t' || c == '\n' {
            widths.push(1);
        } else {
            widths.push(measure_glyph(c));
        }
        i += 1;
    }
    proof {
        let page = page_of(chars@, widths@, term_width, show_lines, highlight_ranges@);
        assert(page.widths =~= measured_page(
            string@,
            term_width as int,
            show_lines,
            ranges_view(highlight_ranges@),
        ).widths);
        assert(forall|k: int| 0 <= k < page.widths.len() ==> 1 <= #[trigger] page.widths[k] <= 2);
    }
    wrap_glyphs(&chars, &widths, term_width, show_lines, highlight_ranges)
}

} // verus!
