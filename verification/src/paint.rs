//! What a painter needs of a row: which stretches of its content are line
//! number, plain text, or a search match.

use core::ops::Range;
use vstd::prelude::*;
use crate::digits::{count_digits, lemma_digits_of_word};
use crate::glyph::{glyph_width, measure_glyph};
use crate::layout::gutter_width;
use crate::text::chars_of;
use crate::wrap::{ranges_view, DisplayLine};

verus! {

/// How a stretch of a row is painted.
#[derive(Debug, Clone, Copy, PartialEq, Eq, Structural)]
pub enum Paint {
    LineNumber,
    Plain,
    Match,
}

/// A stretch of a row's content: the characters `start..end`, all painted
/// alike.
#[derive(Debug, Clone, Copy, PartialEq, Eq, Structural)]
pub struct Span {
    pub paint: Paint,
    pub start: usize,
    pub end: usize,
}

/// A span as contracts speak of it.
pub struct SpanView {
    pub paint: Paint,
    pub start: int,
    pub end: int,
}

impl View for Span {
    type V = SpanView;

    open spec fn view(&self) -> SpanView {
        SpanView { paint: self.paint, start: self.start as int, end: self.end as int }
    }
}

/// Spans as contracts speak of them.
pub open spec fn spans_view(spans: Seq<Span>) -> Seq<SpanView> {
    Seq::new(spans.len(), |k: int| spans[k]@)
}

/// The column offset at which character `k` starts, given the columns that
/// each character takes.
pub open spec fn starts_at(widths: Seq<int>, k: int) -> int
    decreases k,
{
    if k <= 0 {
        0
    } else {
        starts_at(widths, k - 1) + widths[k - 1]
    }
}

/// The first character at or after `k` that starts at or after column
/// offset `col`, or the number of characters if there is none.
pub open spec fn char_at(widths: Seq<int>, col: int, k: int) -> int
    decreases widths.len() - k,
{
    if k < 0 || k >= widths.len() || starts_at(widths, k) >= col {
        k
    } else {
        char_at(widths, col, k + 1)
    }
}

/// The spans from character `from` on, for the matches `j..`: before each
/// match a plain span, then the match itself, and a plain span to the end.
/// A match never reaches back before `from`.
pub open spec fn match_spans(widths: Seq<int>, ranges: Seq<(int, int)>, j: int, from: int) -> Seq<
    SpanView,
>
    decreases ranges.len() - j,
{
    if j < 0 || j >= ranges.len() {
        seq![SpanView { paint: Paint::Plain, start: from, end: widths.len() as int }]
    } else {
        let start = later(from, char_at(widths, ranges[j].0, 0));
        let end = later(start, char_at(widths, ranges[j].1, 0));
        seq![
            SpanView { paint: Paint::Plain, start: from, end: start },
            SpanView { paint: Paint::Match, start, end },
        ] + match_spans(widths, ranges, j + 1, end)
    }
}

/// The later of two places.
pub open spec fn later(a: int, b: int) -> int {
    if a < b {
        b
    } else {
        a
    }
}

/// The spans of a row whose characters take the columns `widths` and whose
/// gutter has `gutter` characters: the line number, if shown; then the rest,
/// starting with the gutter's bar, split at the matches if they are shown.
pub open spec fn spans_of(
    widths: Seq<int>,
    gutter: int,
    ranges: Seq<(int, int)>,
    show_highlights: bool,
) -> Seq<SpanView> {
    let digits = if 0 < gutter <= widths.len() {
        gutter - 1
    } else {
        0
    };
    let number = if digits > 0 {
        seq![SpanView { paint: Paint::LineNumber, start: 0, end: digits }]
    } else {
        Seq::empty()
    };
    if show_highlights {
        number + match_spans(widths, ranges, 0, digits)
    } else {
        number + seq![SpanView { paint: Paint::Plain, start: digits, end: widths.len() as int }]
    }
}

/// The columns that each character of a row's content takes: one for each
/// character of the gutter, and what the width oracle says for the others.
pub open spec fn content_widths(content: Seq<char>, gutter: int) -> Seq<int> {
    Seq::new(
        content.len(),
        |k: int|
            if k < gutter {
                1int
            } else {
                glyph_width(content[k]) as int
            },
    )
}

/// Columns as mathematical integers.
pub open spec fn widths_view(widths: Seq<u16>) -> Seq<int> {
    Seq::new(widths.len(), |k: int| widths[k] as int)
}

/// The first character that starts at or after column offset `col`.
pub fn char_at_column(widths: &Vec<u16>, col: usize) -> (index: usize)
    ensures
        index == char_at(widths_view(widths@), col as int, 0),
        index <= widths.len(),
{
    let mut k: usize = 0;
    let mut reached: usize = 0;
    let ghost view = widths_view(widths@);
    while k < widths.len() && reached < col
        invariant
            k <= widths.len(),
            view == widths_view(widths@),
            reached < col ==> reached == starts_at(view, k as int),
            reached >= col ==> starts_at(view, k as int) >= col,
            char_at(view, col as int, k as int) == char_at(view, col as int, 0),
        decreases widths.len() - k,
    {
        let width = widths[k] as usize;
        assert(view[k as int] == widths[k as int]);
        assert(starts_at(view, k + 1) == starts_at(view, k as int) + view[k as int]);
        if width >= col - reached {
            reached = col;
        } else {
            reached += width;
        }
        k += 1;
    }
    k
}

/// Splits a row at its matches, given the columns that its characters take.
pub fn spans_from_widths(
    widths: &Vec<u16>,
    gutter: usize,
    highlight_ranges: &Vec<Range<usize>>,
    show_highlights: bool,
) -> (spans: Vec<Span>)
    ensures
        spans_view(spans@) == spans_of(
            widths_view(widths@),
            gutter as int,
            ranges_view(highlight_ranges@),
            show_highlights,
        ),
{
    let ghost view = widths_view(widths@);
    let ghost ranges = ranges_view(highlight_ranges@);
    let mut spans: Vec<Span> = Vec::new();
    let digits: usize = if 0 < gutter && gutter <= widths.len() {
        gutter - 1
    } else {
        0
    };
    if digits > 0 {
        spans.push(Span { paint: Paint::LineNumber, start: 0, end: digits });
    }
    let ghost number = spans_view(spans@);
    if !show_highlights {
        spans.push(Span { paint: Paint::Plain, start: digits, end: widths.len() });
        assert(spans_view(spans@) =~= spans_of(view, gutter as int, ranges, show_highlights));
        return spans;
    }
    let mut from: usize = digits;
    let mut j: usize = 0;
    assert(spans_view(spans@) =~= number);
    while j < highlight_ranges.len()
        invariant
            j <= highlight_ranges.len(),
            from <= widths.len(),
            view == widths_view(widths@),
            ranges == ranges_view(highlight_ranges@),
            spans_view(spans@) + match_spans(view, ranges, j as int, from as int) == number
                + match_spans(view, ranges, 0, digits as int),
        decreases highlight_ranges.len() - j,
    {
        let found_start = char_at_column(widths, highlight_ranges[j].start);
        let found_end = char_at_column(widths, highlight_ranges[j].end);
        let start = if from < found_start {
            found_start
        } else {
            from
        };
        let end = if start < found_end {
            found_end
        } else {
            start
        };
        let ghost before = spans_view(spans@);
        let ghost plain = SpanView { paint: Paint::Plain, start: from as int, end: start as int };
        let ghost hit = SpanView { paint: Paint::Match, start: start as int, end: end as int };
        spans.push(Span { paint: Paint::Plain, start: from, end: start });
        spans.push(Span { paint: Paint::Match, start, end });
        proof {
            assert(ranges[j as int] == (
                highlight_ranges[j as int].start as int,
                highlight_ranges[j as int].end as int,
            ));
            assert(spans_view(spans@) =~= before + seq![plain, hit]);
            assert(before + (seq![plain, hit] + match_spans(view, ranges, j + 1, end as int))
                =~= before + seq![plain, hit] + match_spans(view, ranges, j + 1, end as int));
        }
        from = end;
        j += 1;
    }
    let ghost before = spans_view(spans@);
    spans.push(Span { paint: Paint::Plain, start: from, end: widths.len() });
    assert(spans_view(spans@) =~= before + match_spans(view, ranges, j as int, from as int));
    spans
}

/// Splits a row into the stretches that a painter paints alike. `gutter`
/// says whether the row starts with its line number, `show_highlights`
/// whether its matches are to show.
pub fn line_spans(line: &DisplayLine, gutter: bool, show_highlights: bool) -> (spans: Vec<Span>)
    ensures
        spans_view(spans@) == spans_of(
            content_widths(line@.content, gutter_width(line@.line_num, gutter)),
            gutter_width(line@.line_num, gutter),
            line@.highlights,
            show_highlights,
        ),
{
    let chars = chars_of(line.line_content.as_str());
    let gutter_len: usize = if gutter {
        proof {
            lemma_digits_of_word(line.line_num);
        }
        count_digits(line.line_num) + 1
    } else {
        0
    };
    let mut widths: Vec<u16> = Vec::new();
    let mut k: usize = 0;
    while k < chars.len()
        invariant
            k <= chars.len(),
            widths.len() == k,
            forall|j: int|
                0 <= j < k ==> widths[j] == content_widths(chars@, gutter_len as int)[j],
        decreases chars.len() - k,
    {
        if k < gutter_len {
            widths.push(1);
        } else {
            widths.push(measure_glyph(chars[k]));
        }
        k += 1;
    }
    assert(widths_view(widths@) =~= content_widths(chars@, gutter_len as int));
    spans_from_widths(&widths, gutter_len, &line.highlight_ranges, show_highlights)
}

} // verus!
