//! The coordinate mapper and the column rules of the cursor: which document
//! index a screen position stands for, and how a column is brought back to a
//! place where the cursor may rest.

use vstd::prelude::*;
use crate::digits::{count_digits, lemma_digits_of_word};
use crate::glyph::display_width;
use crate::invariants::row_inv;
use crate::layout::{gutter_width, RowView};
use crate::wrap::{cols_view, DisplayLine};

verus! {

/// Index of the display row under the cursor: rows scrolled past, plus the
/// cursor's row counted from 1.
pub open spec fn display_row_spec(scroll_amount: int, cursor_row: int) -> int {
    scroll_amount + cursor_row - 1
}

/// Index of the display row under the cursor.
pub fn display_row_index(scroll_amount: u16, cursor_row: u16) -> (index: usize)
    requires
        scroll_amount + cursor_row >= 1,
    ensures
        index == display_row_spec(scroll_amount as int, cursor_row as int),
{
    scroll_amount as usize + cursor_row as usize - 1
}

/// How many of the columns `invalid` lie strictly left of `col`.
pub open spec fn skipped_before(invalid: Seq<int>, col: int) -> int
    decreases invalid.len(),
{
    if invalid.len() == 0 {
        0
    } else {
        skipped_before(invalid.drop_last(), col) + if invalid.last() < col {
            1int
        } else {
            0int
        }
    }
}

/// The character index that column `col` stands for, counted from `origin`:
/// the column, less the columns left of it that hold no character of their
/// own, less the gutter, and less one in Insert mode, where the caret
/// addresses the slot before a character.
pub open spec fn mapped_index(origin: int, row: RowView, col: int, insert: bool, gutter: bool) -> int {
    origin + col - skipped_before(row.invalid_cols, col) - gutter_width(row.line_num, gutter) - if insert {
        1int
    } else {
        0int
    }
}

/// The document index that column `col` of `row` stands for.
pub open spec fn file_index_spec(row: RowView, col: int, insert: bool, gutter: bool) -> int {
    mapped_index(row.infile_index, row, col, insert, gutter)
}

/// The index in its line that column `col` of `row` stands for.
pub open spec fn inline_index_spec(row: RowView, col: int, insert: bool, gutter: bool) -> int {
    mapped_index(row.inline_index, row, col, insert, gutter)
}

/// Counts the invalid columns strictly left of `col`.
pub fn count_skipped(invalid: &Vec<u16>, col: u16) -> (count: usize)
    ensures
        count == skipped_before(cols_view(invalid@), col as int),
        count <= invalid.len(),
{
    let mut count: usize = 0;
    let mut k: usize = 0;
    while k < invalid.len()
        invariant
            k <= invalid.len(),
            count <= k,
            count == skipped_before(cols_view(invalid@).take(k as int), col as int),
        decreases invalid.len() - k,
    {
        proof {
            let next = cols_view(invalid@).take(k + 1);
            assert(next.drop_last() =~= cols_view(invalid@).take(k as int));
            assert(next.last() == invalid[k as int]);
        }
        if invalid[k] < col {
            count += 1;
        }
        k += 1;
    }
    assert(cols_view(invalid@).take(invalid.len() as int) =~= cols_view(invalid@));
    count
}

/// Maps column `col` of a row to a character index counted from `origin`.
fn map_index(origin: usize, row: &DisplayLine, col: u16, insert: bool, gutter: bool) -> (index: usize)
    requires
        0 <= mapped_index(origin as int, row@, col as int, insert, gutter),
        origin + col <= usize::MAX,
    ensures
        index == mapped_index(origin as int, row@, col as int, insert, gutter),
{
    let skipped = count_skipped(&row.invalid_cols, col);
    let mut index = origin + col as usize - skipped;
    if insert {
        index -= 1;
    }
    if gutter {
        proof {
            lemma_digits_of_word(row.line_num);
        }
        index -= count_digits(row.line_num) + 1;
    }
    index
}

/// The document index that column `col` of `row` stands for.
///
/// The position must stand for an index: a column inside the gutter, or the
/// column before the first character in Insert mode, stands for none.
pub fn file_index(row: &DisplayLine, col: u16, insert: bool, gutter: bool) -> (index: usize)
    requires
        0 <= file_index_spec(row@, col as int, insert, gutter),
        row.infile_index + col <= usize::MAX,
    ensures
        index == file_index_spec(row@, col as int, insert, gutter),
{
    map_index(row.infile_index, row, col, insert, gutter)
}

/// The index in its line that column `col` of `row` stands for.
pub fn inline_index(row: &DisplayLine, col: u16, insert: bool, gutter: bool) -> (index: usize)
    requires
        0 <= inline_index_spec(row@, col as int, insert, gutter),
        row.inline_index + col <= usize::MAX,
    ensures
        index == inline_index_spec(row@, col as int, insert, gutter),
{
    map_index(row.inline_index, row, col, insert, gutter)
}

/// The leftmost column where the cursor may rest on `row`: the first after
/// the gutter.
pub open spec fn left_bound_spec(row: RowView, gutter: bool) -> int {
    gutter_width(row.line_num, gutter) + 1
}

/// The leftmost column where the cursor may rest on `row`.
pub fn left_bound(row: &DisplayLine, gutter: bool) -> (left: u16)
    ensures
        left == left_bound_spec(row@, gutter),
        1 <= left <= 22,
{
    if gutter {
        proof {
            lemma_digits_of_word(row.line_num);
        }
        (count_digits(row.line_num) + 2) as u16
    } else {
        1
    }
}

/// The rightmost column that a horizontal move reaches on a row whose
/// content is `width` columns wide: the width, and one more in Insert mode.
/// A column is a 16-bit number, so the bound stops at the largest of them.
pub open spec fn reach_of(width: u64, insert: bool) -> int {
    let bound = width + if insert {
        1int
    } else {
        0int
    };
    if bound > u16::MAX {
        u16::MAX as int
    } else {
        bound
    }
}

/// The rightmost column that a horizontal move reaches on `row`.
pub open spec fn reach_spec(row: RowView, insert: bool) -> int {
    reach_of(display_width(row.content), insert)
}

/// Exec counterpart of [`reach_of`].
pub fn reach_from_width(width: u64, insert: bool) -> (bound: u16)
    ensures
        bound == reach_of(width, insert),
{
    if width >= 0xffff {
        0xffff
    } else if insert {
        (width + 1) as u16
    } else {
        width as u16
    }
}

/// The column that `col` snaps to on a row whose content is `width` columns
/// wide: no further right than the width (at least 1), or one column
/// further in Insert mode on a row that shows anything.
pub open spec fn snap_of(col: int, width: u64, insert: bool, shows: bool) -> int {
    let least = if width < 1 {
        1int
    } else {
        width as int
    };
    let bound = least + if insert && shows {
        1int
    } else {
        0int
    };
    if bound < col {
        bound
    } else {
        col
    }
}

/// The column that `col` snaps to on `row`.
pub open spec fn snap_spec(col: int, row: RowView, insert: bool) -> int {
    snap_of(col, display_width(row.content), insert, row.content.len() > 0)
}

/// Exec counterpart of [`snap_of`].
pub fn snap_column(col: u16, width: u64, insert: bool, shows: bool) -> (snapped: u16)
    ensures
        snapped == snap_of(col as int, width, insert, shows),
{
    let least: u64 = if width < 1 {
        1
    } else {
        width
    };
    if least >= 0xffff {
        col
    } else {
        let bound: u64 = if insert && shows {
            least + 1
        } else {
            least
        };
        if bound < col as u64 {
            bound as u16
        } else {
            col
        }
    }
}

/// The column reached from `col` by stepping left while the column lies
/// inside a glyph.
pub open spec fn slip_left(col: int, invalid: Seq<int>) -> int
    decreases col,
{
    if col > 0 && invalid.contains(col) {
        slip_left(col - 1, invalid)
    } else {
        col
    }
}

/// The column that `col` slips to: left out of any glyph it lies inside,
/// then right out of the gutter.
pub open spec fn slip_of(col: int, invalid: Seq<int>, left: int) -> int {
    let out = slip_left(col, invalid);
    if out < left {
        left
    } else {
        out
    }
}

/// The column that `col` slips to on `row`.
pub open spec fn slip_spec(col: int, row: RowView, gutter: bool) -> int {
    slip_of(col, row.invalid_cols, left_bound_spec(row, gutter))
}

/// The column reached from `col` by stepping right while the next column
/// lies inside a glyph; `fuel` bounds the steps.
pub open spec fn slip_right(col: int, invalid: Seq<int>, fuel: nat) -> int
    decreases fuel,
{
    if fuel > 0 && invalid.contains(col + 1) {
        slip_right(col + 1, invalid, (fuel - 1) as nat)
    } else {
        col
    }
}

/// Whether `col` is one of the columns `invalid`.
pub fn is_invalid(invalid: &Vec<u16>, col: u16) -> (found: bool)
    ensures
        found == cols_view(invalid@).contains(col as int),
{
    let mut k: usize = 0;
    while k < invalid.len()
        invariant
            k <= invalid.len(),
            forall|j: int| 0 <= j < k ==> invalid[j] != col,
        decreases invalid.len() - k,
    {
        if invalid[k] == col {
            assert(cols_view(invalid@)[k as int] == col as int);
            return true;
        }
        k += 1;
    }
    false
}

/// Exec counterpart of [`slip_of`].
pub fn slip_column(col: u16, invalid: &Vec<u16>, left: u16) -> (slipped: u16)
    ensures
        slipped == slip_of(col as int, cols_view(invalid@), left as int),
{
    let mut out = col;
    while out > 0 && is_invalid(invalid, out)
        invariant
            out <= col,
            slip_left(out as int, cols_view(invalid@)) == slip_left(col as int, cols_view(invalid@)),
        decreases out,
    {
        out -= 1;
    }
    if out < left {
        left
    } else {
        out
    }
}

/// Exec counterpart of [`slip_right`], for a column that can still grow.
pub fn slip_column_right(col: u16, invalid: &Vec<u16>) -> (slipped: u16)
    ensures
        slipped == slip_right(col as int, cols_view(invalid@), (u16::MAX - col) as nat),
        col <= slipped,
        !cols_view(invalid@).contains(slipped + 1),
{
    let mut out = col;
    while out < 0xffff && is_invalid(invalid, out + 1)
        invariant
            col <= out,
            slip_right(out as int, cols_view(invalid@), (u16::MAX - out) as nat) == slip_right(
                col as int,
                cols_view(invalid@),
                (u16::MAX - col) as nat,
            ),
        decreases u16::MAX - out,
    {
        out += 1;
    }
    proof {
        if out == 0xffff {
            let cols = cols_view(invalid@);
            if cols.contains(out + 1) {
                let k = choose|k: int| 0 <= k < cols.len() && cols[k] == out + 1;
                assert(cols[k] == invalid@[k]);
            }
        }
    }
    out
}

/// On a well-formed row a slipped column is a place where the cursor may
/// rest: right of the gutter and inside no glyph.
pub proof fn lemma_slip_rests(col: int, row: RowView, gutter: bool)
    requires
        row_inv(row, gutter),
    ensures
        left_bound_spec(row, gutter) <= slip_spec(col, row, gutter),
        !row.invalid_cols.contains(slip_spec(col, row, gutter)),
{
    lemma_slip_left(col, row.invalid_cols);
    let left = left_bound_spec(row, gutter);
    if row.invalid_cols.contains(left) {
        let k = choose|k: int| 0 <= k < row.invalid_cols.len() && row.invalid_cols[k] == left;
        assert(left < row.invalid_cols[k]);
    }
}

/// Stepping left ends on column 0 or outside every glyph, and never moves
/// right.
pub proof fn lemma_slip_left(col: int, invalid: Seq<int>)
    ensures
        slip_left(col, invalid) <= col || col < 0,
        slip_left(col, invalid) <= 0 || !invalid.contains(slip_left(col, invalid)),
        col <= 0 ==> slip_left(col, invalid) == col,
    decreases col,
{
    if col > 0 && invalid.contains(col) {
        lemma_slip_left(col - 1, invalid);
    }
}

/// Stepping right ends before a column outside every glyph, or where the
/// steps ran out, and never moves left.
pub proof fn lemma_slip_right(col: int, invalid: Seq<int>, fuel: nat)
    ensures
        col <= slip_right(col, invalid, fuel) <= col + fuel,
        slip_right(col, invalid, fuel) < col + fuel ==> !invalid.contains(
            slip_right(col, invalid, fuel) + 1,
        ),
    decreases fuel,
{
    if fuel > 0 && invalid.contains(col + 1) {
        lemma_slip_right(col + 1, invalid, (fuel - 1) as nat);
    }
}

/// The first column after the gutter stands for the row's first character
/// in Insert mode, and no column right of the gutter stands for less.
pub proof fn lemma_index_nonnegative(origin: int, row: RowView, col: int, insert: bool, gutter: bool)
    requires
        row_inv(row, gutter),
        left_bound_spec(row, gutter) <= col,
    ensures
        origin <= mapped_index(origin, row, col, true, gutter),
        origin < mapped_index(origin, row, col, false, gutter),
        mapped_index(origin, row, col, insert, gutter) <= origin + col,
{
    let base = gutter_width(row.line_num, gutter);
    lemma_skipped_bound(row.invalid_cols, col, base);
}

/// Strictly ascending columns beyond `base + 1` leave at most
/// `col - base - 1` of them left of `col`, counting from none.
pub proof fn lemma_skipped_bound(invalid: Seq<int>, col: int, base: int)
    requires
        forall|k: int| 0 <= k < invalid.len() ==> base + 1 < #[trigger] invalid[k],
        forall|j: int, k: int| 0 <= j < k < invalid.len() ==> invalid[j] < invalid[k],
        base + 1 <= col,
    ensures
        0 <= skipped_before(invalid, col) <= col - base - 1,
        skipped_before(invalid, col) <= invalid.len(),
        invalid.len() > 0 ==> invalid.last() >= base + 1 + invalid.len(),
    decreases invalid.len(),
{
    if invalid.len() > 0 {
        let front = invalid.drop_last();
        assert forall|k: int| 0 <= k < front.len() implies base + 1 < #[trigger] front[k] by {
            assert(front[k] == invalid[k]);
        }
        assert forall|j: int, k: int| 0 <= j < k < front.len() implies front[j] < front[k] by {
            assert(front[j] == invalid[j]);
            assert(front[k] == invalid[k]);
        }
        lemma_skipped_bound(front, col, base);
        if front.len() > 0 {
            assert(front.last() == invalid[invalid.len() - 2]);
            assert(invalid[invalid.len() - 2] < invalid[invalid.len() - 1]);
        }
        if invalid.last() < col {
            lemma_skipped_all(front, col);
        }
    }
}

/// When the largest column lies left of `col`, they all do.
pub proof fn lemma_skipped_all(invalid: Seq<int>, col: int)
    requires
        forall|k: int| 0 <= k < invalid.len() ==> #[trigger] invalid[k] < col,
    ensures
        skipped_before(invalid, col) == invalid.len(),
    decreases invalid.len(),
{
    if invalid.len() > 0 {
        let front = invalid.drop_last();
        assert forall|k: int| 0 <= k < front.len() implies #[trigger] front[k] < col by {
            assert(front[k] == invalid[k]);
        }
        lemma_skipped_all(front, col);
    }
}

} // verus!
