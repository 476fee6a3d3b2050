//! The glyph width oracle: how many terminal columns a piece of text takes.

use vstd::prelude::*;
use crate::text::push_char;

verus! {

/// Size of a tab stop, in columns.
pub const TAB_SIZE: u16 = 4;

/// The number of terminal columns that a monospace font needs for `text`,
/// read as a sequence of extended grapheme clusters.
pub uninterp spec fn display_width(text: Seq<char>) -> u64;

/// Columns taken by a single character other than a tab: two where the
/// width oracle reports a wide glyph, one otherwise.
pub open spec fn glyph_width(c: char) -> nat {
    columns_of(display_width(seq![c]))
}

/// Reads an oracle answer for a single character as one or two columns.
pub open spec fn columns_of(measured: u64) -> nat {
    if measured >= 2 {
        2
    } else {
        1
    }
}

/// Measures the display width of a string.
///
/// Trusted: stands for `unicode_display_width::width`, a pure function of
/// the string that sums the widths of its grapheme clusters. Its result is
/// named, not described.
#[verifier::external_body]
pub(crate) fn str_width(text: &str) -> (w: u64)
    ensures
        w == display_width(text@),
{
    unicode_display_width::width(text)
}

/// Exec counterpart of [`columns_of`].
pub fn columns_from_measure(measured: u64) -> (w: u16)
    ensures
        w == columns_of(measured),
        1 <= w <= 2,
{
    if measured >= 2 {
        2
    } else {
        1
    }
}

/// Columns taken by the character `c`, asked of the width oracle.
pub fn measure_glyph(c: char) -> (w: u16)
    ensures
        w == glyph_width(c),
        1 <= w <= 2,
{
    let mut s = String::new();
    push_char(&mut s, c);
    assert(s@ == seq![c]);
    columns_from_measure(str_width(s.as_str()))
}

} // verus!
