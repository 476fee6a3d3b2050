//! What holds of every wrapped document: the shape of each row, the order
//! of the rows, and that the rows show the whole text.

use vstd::prelude::*;
use crate::digits::lemma_decimal_chars_len;
use crate::layout::{gutter_chars, gutter_width, Origin, Page, RowView};

verus! {

/// What holds of every row of a wrapped document.
pub open spec fn row_inv(row: RowView, gutter: bool) -> bool {
    let base = gutter_width(row.line_num, gutter);
    &&& row.line_num >= 1
    &&& 0 <= row.inline_index <= row.infile_index
    &&& row.content.len() >= base
    &&& row.content.subrange(0, base) == gutter_chars(row.line_num, gutter)
    &&& forall|k: int| 0 <= k < row.invalid_cols.len() ==> base + 1 < #[trigger] row.invalid_cols[k]
    &&& forall|j: int, k: int|
        0 <= j < k < row.invalid_cols.len() ==> row.invalid_cols[j] < row.invalid_cols[k]
    &&& forall|k: int|
        0 <= k < row.highlights.len() ==> base <= (#[trigger] row.highlights[k]).0
            < row.highlights[k].1
    &&& forall|j: int, k: int|
        0 <= j < k < row.highlights.len() ==> (#[trigger] row.highlights[j]).1 <= (
        #[trigger] row.highlights[k]).0
}

/// What holds of the rows of a wrapped document of `text_len` characters:
/// there is a row, every row is well formed and starts inside the text,
/// offsets never decrease, and the next row either continues the line or
/// starts the next one.
pub open spec fn rows_inv(rows: Seq<RowView>, gutter: bool, text_len: int) -> bool {
    &&& rows.len() >= 1
    &&& forall|k: int|
        0 <= k < rows.len() ==> row_inv(#[trigger] rows[k], gutter) && rows[k].infile_index
            <= text_len
    &&& forall|k: int|
        0 <= k < rows.len() - 1 ==> (#[trigger] rows[k]).infile_index <= rows[k + 1].infile_index
            && follows(rows[k], rows[k + 1])
}

/// Row `next` comes right after row `row`: it continues the same line
/// further on, or starts the next line.
pub open spec fn follows(row: RowView, next: RowView) -> bool {
    ||| next.line_num == row.line_num && next.inline_index >= row.inline_index
    ||| next.line_num == row.line_num + 1 && next.inline_index == 0
}

/// A row's content without its gutter.
pub open spec fn row_body(row: RowView, gutter: bool) -> Seq<char> {
    row.content.skip(gutter_width(row.line_num, gutter))
}

/// The rows read back as text: the bodies of the rows in order, with a
/// newline wherever the next row belongs to another line.
pub open spec fn joined(rows: Seq<RowView>, gutter: bool) -> Seq<char>
    decreases rows.len(),
{
    if rows.len() == 0 {
        Seq::empty()
    } else if rows.len() == 1 {
        row_body(rows[0], gutter)
    } else if rows[1].line_num != rows[0].line_num {
        row_body(rows[0], gutter) + seq!['\n'] + joined(rows.skip(1), gutter)
    } else {
        row_body(rows[0], gutter) + joined(rows.skip(1), gutter)
    }
}

/// The text holds no tab.
pub open spec fn tab_free(text: Seq<char>) -> bool {
    forall|i: int| 0 <= i < text.len() ==> #[trigger] text[i] != '\t'
}

impl Page {
    /// The origin starts inside the text, and a row that continues a line
    /// starts with a character that takes at least one column.
    pub open spec fn origin_wf(self, o: Origin) -> bool {
        &&& 0 <= o.start <= self.text.len()
        &&& 0 <= o.base
        &&& o.lead matches Some(w) ==> 1 <= w && o.start < self.text.len()
    }

    /// Every character takes at least one column.
    pub proof fn lemma_width_positive(self, o: Origin, i: int, used: int)
        requires
            self.wf(),
            self.origin_wf(o),
            0 <= i < self.text.len(),
        ensures
            1 <= self.width_in(o, i, used),
            1 <= self.cell_width(i, used),
            o.lead is None || i != o.start ==> self.width_in(o, i, used) <= 4,
    {
        assert(1 <= self.widths[i] <= 2);
    }

    /// The columns taken grow with every character placed.
    pub proof fn lemma_used_grows(self, o: Origin, i: int, j: int)
        requires
            self.wf(),
            self.origin_wf(o),
            o.start <= i <= j <= self.text.len(),
        ensures
            o.base <= self.used_at(o, i),
            self.used_at(o, i) + (j - i) <= self.used_at(o, j),
        decreases j - o.start,
    {
        if j > o.start {
            if i < j {
                self.lemma_used_grows(o, i, j - 1);
            } else {
                self.lemma_used_grows(o, i - 1, j - 1);
            }
            self.lemma_width_positive(o, j - 1, self.used_at(o, j - 1));
        }
    }

    /// Invalid columns lie beyond the first column after the gutter, within
    /// the columns taken, and come in strictly ascending order.
    pub proof fn lemma_invalid_cols(self, o: Origin, i: int)
        requires
            self.wf(),
            self.origin_wf(o),
            o.start <= i <= self.text.len(),
        ensures
            forall|k: int|
                0 <= k < self.invalid_cols(o, i).len() ==> o.base + 1 < #[trigger] self.invalid_cols(
                    o,
                    i,
                )[k] <= self.used_at(o, i),
            forall|j: int, k: int|
                0 <= j < k < self.invalid_cols(o, i).len() ==> self.invalid_cols(o, i)[j]
                    < self.invalid_cols(o, i)[k],
        decreases i - o.start,
    {
        if i > o.start {
            self.lemma_invalid_cols(o, i - 1);
            self.lemma_used_grows(o, o.start, i - 1);
            let before = self.used_at(o, i - 1);
            self.lemma_width_positive(o, i - 1, before);
            let head = self.invalid_cols(o, i - 1);
            let tail = Seq::new(
                (self.width_in(o, i - 1, before) - 1) as nat,
                |k: int| before + 2 + k,
            );
            assert(self.invalid_cols(o, i) == head + tail);
            assert forall|k: int| 0 <= k < (head + tail).len() implies o.base + 1 < #[trigger] (
            head + tail)[k] <= self.used_at(o, i) by {
                if k < head.len() {
                    assert((head + tail)[k] == head[k]);
                } else {
                    assert((head + tail)[k] == tail[k - head.len()]);
                }
            }
            assert forall|j: int, k: int| 0 <= j < k < (head + tail).len() implies (head + tail)[j]
                < (head + tail)[k] by {
                if k < head.len() {
                    assert((head + tail)[k] == head[k]);
                    assert((head + tail)[j] == head[j]);
                } else if j < head.len() {
                    assert((head + tail)[j] == head[j]);
                    assert((head + tail)[k] == tail[k - head.len()]);
                } else {
                    assert((head + tail)[j] == tail[j - head.len()]);
                    assert((head + tail)[k] == tail[k - head.len()]);
                }
            }
        }
    }

    /// The matches on a row lie on its content past the gutter, are not
    /// empty, and come in ascending order without overlap.
    pub proof fn lemma_row_highlights(self, j: int, o: Origin, stop: int)
        requires
            self.wf(),
            self.origin_wf(o),
            self.highlights_ascending(),
            o.start <= stop <= self.text.len(),
            0 <= j <= self.highlights.len(),
        ensures
            forall|k: int|
                0 <= k < self.row_highlights(j, o, stop).len() ==> o.base <= (
                #[trigger] self.row_highlights(j, o, stop)[k]).0 < self.row_highlights(
                    j,
                    o,
                    stop,
                )[k].1,
            forall|a: int, b: int|
                0 <= a < b < self.row_highlights(j, o, stop).len() ==> (
                #[trigger] self.row_highlights(j, o, stop)[a]).1 <= (#[trigger] self.row_highlights(
                    j,
                    o,
                    stop,
                )[b]).0,
            j < self.highlights.len() ==> forall|k: int|
                0 <= k < self.row_highlights(j, o, stop).len() ==> (
                #[trigger] self.row_highlights(j, o, stop)[k]).0 >= self.used_at(
                    o,
                    self.clip(self.highlights[j].0, o, stop),
                ),
        decreases self.highlights.len() - j,
    {
        if j < self.highlights.len() {
            let here = self.row_highlights(j, o, stop);
            let rest = self.row_highlights(j + 1, o, stop);
            self.lemma_row_highlights(j + 1, o, stop);
            let lo = if self.highlights[j].0 > o.start {
                self.highlights[j].0
            } else {
                o.start
            };
            let hi = if self.highlights[j].1 < stop {
                self.highlights[j].1
            } else {
                stop
            };
            assert(0 <= self.highlights[j].0 <= self.highlights[j].1);
            if j + 1 < self.highlights.len() {
                assert(self.highlights[j].1 <= self.highlights[j + 1].0);
                assert(0 <= self.highlights[j + 1].0 <= self.highlights[j + 1].1);
                let next_lo = self.clip(self.highlights[j + 1].0, o, stop);
                if lo < hi {
                    self.lemma_used_grows(o, hi, next_lo);
                }
                self.lemma_used_grows(o, self.clip(self.highlights[j].0, o, stop), next_lo);
            }
            if lo < hi {
                self.lemma_used_grows(o, lo, hi);
                self.lemma_used_grows(o, o.start, lo);
                let first = (self.used_at(o, lo), self.used_at(o, hi));
                assert(here == seq![first] + rest);
                assert forall|k: int| 0 <= k < here.len() implies o.base <= (#[trigger] here[k]).0
                    < here[k].1 && here[k].0 >= self.used_at(o, lo) by {
                    if k > 0 {
                        assert(here[k] == rest[k - 1]);
                    }
                }
                assert forall|a: int, b: int| 0 <= a < b < here.len() implies (#[trigger] here[a]).1
                    <= (#[trigger] here[b]).0 by {
                    assert(here[b] == rest[b - 1]);
                    if a > 0 {
                        assert(here[a] == rest[a - 1]);
                    }
                }
            } else {
                assert(here == rest);
                assert forall|k: int| 0 <= k < here.len() implies (#[trigger] here[k]).0
                    >= self.used_at(o, self.clip(self.highlights[j].0, o, stop)) by {
                    assert(here[k] == rest[k]);
                }
            }
        }
    }

    /// A character index brought into the span `o.start..=stop` of a row.
    pub open spec fn clip(self, i: int, o: Origin, stop: int) -> int {
        if i < o.start {
            o.start
        } else if i > stop {
            stop
        } else {
            i
        }
    }
}

impl Page {
    /// Character `start` is character `line_off` of line `line_num`, and a
    /// row that continues a line starts with a character of that line.
    pub open spec fn start_wf(self, start: int, line_num: int, line_off: int, lead: Option<int>) -> bool {
        &&& 0 <= start <= self.text.len()
        &&& 1 <= line_num
        &&& 0 <= line_off <= start
        &&& lead matches Some(w) ==> 1 <= w && start < self.text.len()
    }

    /// A row of the layout is well formed.
    pub proof fn lemma_row_of_inv(self, o: Origin, stop: int, line_num: int, line_off: int)
        requires
            self.wf(),
            self.highlights_ascending(),
            self.origin_wf(o),
            o.base == self.gutter_width(line_num),
            o.start <= stop <= self.text.len(),
            1 <= line_num,
            0 <= line_off <= o.start,
        ensures
            row_inv(self.row_of(o, stop, line_num, line_off), self.gutter),
    {
        let row = self.row_of(o, stop, line_num, line_off);
        self.lemma_invalid_cols(o, stop);
        self.lemma_row_highlights(0, o, stop);
        lemma_decimal_chars_len(line_num as nat);
        assert(row.content.subrange(0, o.base) =~= gutter_chars(line_num, self.gutter));
    }

    /// The rows from any place in the text on are well formed and in order,
    /// and the first of them starts at that place.
    pub proof fn lemma_rows_from_inv(self, start: int, line_num: int, line_off: int, lead: Option<int>)
        requires
            self.wf(),
            self.highlights_ascending(),
            self.start_wf(start, line_num, line_off, lead),
        ensures
            rows_inv(self.rows_from(start, line_num, line_off, lead), self.gutter, self.text.len() as int),
            self.rows_from(start, line_num, line_off, lead)[0].infile_index == start,
            self.rows_from(start, line_num, line_off, lead)[0].line_num == line_num,
            self.rows_from(start, line_num, line_off, lead)[0].inline_index == line_off,
        decreases self.text.len() - start, (if lead is Some { 0int } else { 1int }),
    {
        let o = self.origin(start, line_num, lead);
        let stop = self.row_stop(o);
        let row = self.row_of(o, stop, line_num, line_off);
        let rows = self.rows_from(start, line_num, line_off, lead);
        self.lemma_row_stop_bounds(o);
        self.lemma_row_of_inv(o, stop, line_num, line_off);
        if stop >= self.text.len() {
            assert(rows == seq![row]);
        } else {
            let tail = if self.text[stop] == '\n' {
                self.rows_from(stop + 1, line_num + 1, 0, None)
            } else {
                self.rows_from(
                    stop,
                    line_num,
                    line_off + (stop - start),
                    Some(self.cell_width(stop, self.used_at(o, stop))),
                )
            };
            if self.text[stop] == '\n' {
                self.lemma_rows_from_inv(stop + 1, line_num + 1, 0, None);
            } else {
                self.lemma_width_positive(o, stop, self.used_at(o, stop));
                self.lemma_rows_from_inv(
                    stop,
                    line_num,
                    line_off + (stop - start),
                    Some(self.cell_width(stop, self.used_at(o, stop))),
                );
            }
            assert(rows == seq![row] + tail);
            assert forall|k: int| 0 <= k < rows.len() implies row_inv(
                #[trigger] rows[k],
                self.gutter,
            ) && rows[k].infile_index <= self.text.len() by {
                if k > 0 {
                    assert(rows[k] == tail[k - 1]);
                }
            }
            assert forall|k: int| 0 <= k < rows.len() - 1 implies (#[trigger] rows[k]).infile_index
                <= rows[k + 1].infile_index && follows(rows[k], rows[k + 1]) by {
                assert(rows[k + 1] == tail[k]);
                if k > 0 {
                    assert(rows[k] == tail[k - 1]);
                }
            }
        }
    }

    /// Without tabs a row shows its characters as they are.
    pub proof fn lemma_rendered_plain(self, o: Origin, i: int)
        requires
            tab_free(self.text),
            0 <= o.start <= i <= self.text.len(),
        ensures
            self.rendered(o, i) == self.text.subrange(o.start, i),
        decreases i - o.start,
    {
        if i > o.start {
            self.lemma_rendered_plain(o, i - 1);
            assert(self.text[i - 1] != '\t');
            assert(self.text.subrange(o.start, i) =~= self.text.subrange(o.start, i - 1).push(
                self.text[i - 1],
            ));
        } else {
            assert(self.text.subrange(o.start, i) =~= Seq::<char>::empty());
        }
    }

    /// Without tabs the rows from any place on read back as the text from
    /// that place on.
    pub proof fn lemma_joined_from(self, start: int, line_num: int, line_off: int, lead: Option<int>)
        requires
            tab_free(self.text),
            0 <= start <= self.text.len(),
            0 <= line_num,
        ensures
            self.rows_from(start, line_num, line_off, lead).len() >= 1,
            self.rows_from(start, line_num, line_off, lead)[0].line_num == line_num,
            joined(self.rows_from(start, line_num, line_off, lead), self.gutter)
                == self.text.subrange(start, self.text.len() as int),
        decreases self.text.len() - start, (if lead is Some { 0int } else { 1int }),
    {
        let o = self.origin(start, line_num, lead);
        let stop = self.row_stop(o);
        let row = self.row_of(o, stop, line_num, line_off);
        let rows = self.rows_from(start, line_num, line_off, lead);
        let len = self.text.len() as int;
        self.lemma_row_stop_bounds(o);
        self.lemma_rendered_plain(o, stop);
        lemma_decimal_chars_len(line_num as nat);
        assert(row_body(row, self.gutter) =~= self.text.subrange(start, stop));
        if stop >= len {
            assert(rows == seq![row]);
        } else if self.text[stop] == '\n' {
            let tail = self.rows_from(stop + 1, line_num + 1, 0, None);
            self.lemma_joined_from(stop + 1, line_num + 1, 0, None);
            assert(rows == seq![row] + tail);
            assert(rows.skip(1) =~= tail);
            assert(rows[1] == tail[0]);
            assert(self.text.subrange(start, stop) + seq!['\n'] + self.text.subrange(stop + 1, len)
                =~= self.text.subrange(start, len));
        } else {
            let next = Some(self.cell_width(stop, self.used_at(o, stop)));
            let tail = self.rows_from(stop, line_num, line_off + (stop - start), next);
            self.lemma_joined_from(stop, line_num, line_off + (stop - start), next);
            assert(rows == seq![row] + tail);
            assert(rows.skip(1) =~= tail);
            assert(rows[1] == tail[0]);
            assert(self.text.subrange(start, stop) + self.text.subrange(stop, len)
                =~= self.text.subrange(start, len));
        }
    }
}

/// Every wrapped document has at least one row, every row is well formed
/// and starts inside the text, and each row continues the line of the row
/// before it or starts the next line.
pub proof fn lemma_rows_inv(page: Page)
    requires
        page.wf(),
        page.highlights_ascending(),
    ensures
        rows_inv(page.rows(), page.gutter, page.text.len() as int),
        page.rows()[0].infile_index == 0,
        page.rows()[0].line_num == 1,
{
    page.lemma_rows_from_inv(0, 1, 0, None);
}

/// From one row of a wrapped document to the next, the offset of the first
/// character in the document never decreases.
pub proof fn lemma_offsets_monotonic(page: Page, i: int)
    requires
        page.wf(),
        page.highlights_ascending(),
        0 <= i,
        i + 1 < page.rows().len(),
    ensures
        page.rows()[i].infile_index <= page.rows()[i + 1].infile_index,
{
    lemma_rows_inv(page);
    let rows = page.rows();
    assert(rows[i].infile_index <= rows[i + 1].infile_index);
}

/// The rows of a document without tabs, stripped of their gutters and
/// joined with a newline wherever the line number changes, are the
/// document. (A tab is shown as spaces, so a document with tabs does not
/// read back from what its rows show.)
pub proof fn lemma_round_trip(page: Page)
    requires
        tab_free(page.text),
    ensures
        joined(page.rows(), page.gutter) == page.text,
{
    page.lemma_joined_from(0, 1, 0, None);
    assert(page.text.subrange(0, page.text.len() as int) =~= page.text);
}

} // verus!
