//! Searching a document for a pattern, line by line.

use core::ops::Range;
use vstd::prelude::*;
use crate::layout::ranges_ascending;
use crate::text::push_char;
use crate::wrap::ranges_view;

verus! {

/// Trusted: declares `regex::Error`, whose inside the verifier does not see.
#[verifier::external_type_specification]
#[verifier::external_body]
pub struct ExRegexError(regex::Error);

/// Whether `pattern` compiles to a regular expression.
pub uninterp spec fn pattern_valid(pattern: Seq<char>) -> bool;

/// The matches of the regular expression `pattern` in `haystack`, from left
/// to right, each as the byte offsets of its start and of its end.
pub uninterp spec fn pattern_matches(pattern: Seq<char>, haystack: Seq<char>) -> Seq<(usize, usize)>;

/// Matches start no later than they end, and each ends no later than the
/// next starts.
pub open spec fn matches_ordered(found: Seq<(usize, usize)>) -> bool {
    &&& forall|j: int| 0 <= j < found.len() ==> (#[trigger] found[j]).0 <= found[j].1
    &&& forall|j: int, k: int|
        0 <= j < k < found.len() ==> (#[trigger] found[j]).1 <= (#[trigger] found[k]).0
}

/// Compiles `pattern` and finds its matches in `haystack`.
///
/// Trusted: stands for `regex::Regex::new` and `regex::Regex::find_iter`.
/// The first fails exactly on a pattern that is invalid or compiles to too
/// large a program; the second yields successive non-overlapping matches,
/// whose `start()` and `end()` are byte offsets with `start() <= end()`.
/// Whether the pattern compiles and what it matches are named, not
/// described.
#[verifier::external_body]
pub(crate) fn find_matches(pattern: &str, haystack: &str) -> (found: Result<
    Vec<(usize, usize)>,
    regex::Error,
>)
    ensures
        found is Ok <==> pattern_valid(pattern@),
        found matches Ok(v) ==> v@ == pattern_matches(pattern@, haystack@) && matches_ordered(v@),
{
    let re = regex::Regex::new(pattern)?;
    Ok(re.find_iter(haystack).map(|m| (m.start(), m.end())).collect())
}

/// The text of a pattern error.
///
/// Trusted: stands for the `Display` of `regex::Error`; nothing is claimed
/// of the text.
#[verifier::external_body]
pub(crate) fn error_message(error: &regex::Error) -> (message: String) {
    error.to_string()
}

/// Why a search could not run.
#[derive(Debug)]
pub struct SearchError {
    /// What the pattern compiler said of the pattern.
    pub message: String,
}

/// Bytes that the UTF-8 encoding of `c` takes.
pub open spec fn utf8_len(c: char) -> int {
    if (c as u32) < 0x80 {
        1
    } else if (c as u32) < 0x800 {
        2
    } else if (c as u32) < 0x10000 {
        3
    } else {
        4
    }
}

/// The number of characters of `line` from `k` on that start before byte
/// offset `byte`, added to `k`; the characters before `k` take `acc` bytes.
pub open spec fn chars_before(line: Seq<char>, k: int, acc: int, byte: int) -> int
    decreases line.len() - k,
{
    if k < 0 || k >= line.len() || acc >= byte {
        k
    } else {
        chars_before(line, k + 1, acc + utf8_len(line[k]), byte)
    }
}

/// The number of characters of `line` that start before byte offset `byte`
/// of its UTF-8 encoding.
pub open spec fn char_offset(line: Seq<char>, byte: int) -> int {
    chars_before(line, 0, 0, byte)
}

/// Where the line ends that character `start` belongs to: after its
/// newline, or at the end of the text.
pub open spec fn line_end(text: Seq<char>, start: int) -> int
    decreases text.len() - start,
{
    if start < 0 || start >= text.len() {
        start
    } else if text[start] == '\n' {
        start + 1
    } else {
        line_end(text, start + 1)
    }
}

/// The matches of `pattern` in the line `start..stop` of `text`, as
/// half-open ranges of character indices in the text.
pub open spec fn line_hits(pattern: Seq<char>, text: Seq<char>, start: int, stop: int) -> Seq<
    (int, int),
> {
    let line = text.subrange(start, stop);
    let found = pattern_matches(pattern, line);
    Seq::new(
        found.len(),
        |k: int| (start + char_offset(line, found[k].0 as int), start + char_offset(line, found[k].1 as int)),
    )
}

/// The matches of `pattern` in the lines of `text` from the line that
/// starts at `start` on. A line includes its newline; a text that ends with
/// a newline has an empty last line.
pub open spec fn hits_from(pattern: Seq<char>, text: Seq<char>, start: int) -> Seq<(int, int)>
    decreases text.len() - start,
    via hits_from_terminates
{
    let stop = line_end(text, start);
    let here = line_hits(pattern, text, start, stop);
    if 0 <= start < stop && text[stop - 1] == '\n' {
        here + hits_from(pattern, text, stop)
    } else {
        here
    }
}

#[via_fn]
proof fn hits_from_terminates(pattern: Seq<char>, text: Seq<char>, start: int) {
    lemma_line_end(text, start);
}

/// All matches of `pattern` in `text`, searched line by line.
pub open spec fn search_hits(pattern: Seq<char>, text: Seq<char>) -> Seq<(int, int)> {
    hits_from(pattern, text, 0)
}

/// A line ends after its start and within the text, and holds no newline
/// but at its end.
pub proof fn lemma_line_end(text: Seq<char>, start: int)
    ensures
        start <= line_end(text, start),
        0 <= start <= text.len() ==> line_end(text, start) <= text.len(),
        0 <= start < text.len() ==> start < line_end(text, start),
    decreases text.len() - start,
{
    if start < 0 || start >= text.len() {
    } else if text[start] == '\n' {
    } else {
        lemma_line_end(text, start + 1);
    }
}

/// A character offset lies within the line, and a later byte offset gives
/// no earlier character offset.
pub proof fn lemma_chars_before(line: Seq<char>, k: int, acc: int, first: int, second: int)
    requires
        0 <= k <= line.len(),
        first <= second,
    ensures
        k <= chars_before(line, k, acc, first) <= chars_before(line, k, acc, second) <= line.len(),
    decreases line.len() - k,
{
    if k < line.len() && acc < second {
        lemma_chars_before(line, k + 1, acc + utf8_len(line[k]), first, second);
    }
}

/// Bytes that the UTF-8 encoding of `c` takes.
pub fn utf8_width(c: char) -> (bytes: usize)
    ensures
        bytes == utf8_len(c),
        1 <= bytes <= 4,
{
    let code = c as u32;
    if code < 0x80 {
        1
    } else if code < 0x800 {
        2
    } else if code < 0x10000 {
        3
    } else {
        4
    }
}

/// The number of characters of the line `start..stop` of `chars` that start
/// before byte offset `byte` of the line's UTF-8 encoding.
pub fn char_offset_in(chars: &Vec<char>, start: usize, stop: usize, byte: usize) -> (offset: usize)
    requires
        start <= stop <= chars.len(),
        chars.len() * 4 <= isize::MAX,
    ensures
        offset == char_offset(chars@.subrange(start as int, stop as int), byte as int),
        offset <= stop - start,
{
    let ghost line = chars@.subrange(start as int, stop as int);
    let mut k: usize = start;
    let mut acc: usize = 0;
    while k < stop && acc < byte
        invariant
            start <= k <= stop <= chars.len(),
            chars.len() * 4 <= isize::MAX,
            line == chars@.subrange(start as int, stop as int),
            acc <= 4 * (k - start),
            chars_before(line, k - start, acc as int, byte as int) == char_offset(
                line,
                byte as int,
            ),
        decreases stop - k,
    {
        assert(line[k - start] == chars[k as int]);
        acc += utf8_width(chars[k]);
        k += 1;
    }
    k - start
}

/// The characters `start..stop` of `chars` as a string.
pub fn line_string(chars: &Vec<char>, start: usize, stop: usize) -> (line: String)
    requires
        start <= stop <= chars.len(),
    ensures
        line@ == chars@.subrange(start as int, stop as int),
{
    let mut line = String::new();
    let mut k: usize = start;
    while k < stop
        invariant
            start <= k <= stop <= chars.len(),
            line@ == chars@.subrange(start as int, k as int),
        decreases stop - k,
    {
        push_char(&mut line, chars[k]);
        k += 1;
        assert(chars@.subrange(start as int, k as int) == chars@.subrange(
            start as int,
            k - 1,
        ).push(chars@[k - 1]));
    }
    line
}

/// Where the line ends that starts at `start`.
pub fn find_line_end(chars: &Vec<char>, start: usize) -> (stop: usize)
    requires
        start <= chars.len(),
    ensures
        stop == line_end(chars@, start as int),
        start <= stop <= chars.len(),
{
    let mut k: usize = start;
    while k < chars.len() && chars[k] != '\n'
        invariant
            start <= k <= chars.len(),
            line_end(chars@, k as int) == line_end(chars@, start as int),
        decreases chars.len() - k,
    {
        k += 1;
    }
    if k < chars.len() {
        k + 1
    } else {
        k
    }
}

/// Adds to `out` the matches `found` of a pattern in the line `start..stop`
/// of `chars`, as ranges of character indices in the text.
pub fn push_line_hits(
    out: &mut Vec<Range<usize>>,
    chars: &Vec<char>,
    start: usize,
    stop: usize,
    found: &Vec<(usize, usize)>,
)
    requires
        start <= stop <= chars.len(),
        chars.len() * 4 <= isize::MAX,
        matches_ordered(found@),
        ranges_ascending(ranges_view(old(out)@)),
        forall|k: int| 0 <= k < old(out)@.len() ==> old(out)@[k].end <= start,
    ensures
        ranges_view(final(out)@) == ranges_view(old(out)@) + Seq::new(
            found@.len(),
            |k: int|
                (
                    start + char_offset(
                        chars@.subrange(start as int, stop as int),
                        found@[k].0 as int,
                    ),
                    start + char_offset(
                        chars@.subrange(start as int, stop as int),
                        found@[k].1 as int,
                    ),
                ),
        ),
        ranges_ascending(ranges_view(final(out)@)),
        forall|k: int| 0 <= k < final(out)@.len() ==> final(out)@[k].end <= stop,
{
    let ghost line = chars@.subrange(start as int, stop as int);
    let ghost before = ranges_view(out@);
    let ghost hits = Seq::new(
        found@.len(),
        |k: int|
            (
                start + char_offset(line, found@[k].0 as int),
                start + char_offset(line, found@[k].1 as int),
            ),
    );
    let mut j: usize = 0;
    assert(ranges_view(out@) =~= before + hits.take(0));
    while j < found.len()
        invariant
            j <= found.len(),
            start <= stop <= chars.len(),
            chars.len() * 4 <= isize::MAX,
            matches_ordered(found@),
            line == chars@.subrange(start as int, stop as int),
            hits == Seq::new(
                found@.len(),
                |k: int|
                    (
                        start + char_offset(line, found@[k].0 as int),
                        start + char_offset(line, found@[k].1 as int),
                    ),
            ),
            ranges_view(out@) == before + hits.take(j as int),
            ranges_ascending(ranges_view(out@)),
            forall|k: int| 0 <= k < out@.len() ==> out@[k].end <= stop,
            forall|k: int| 0 <= k < before.len() ==> before[k].1 <= start,
            j > 0 ==> out@.len() > 0 && out@[out@.len() - 1].end == start + char_offset(
                line,
                found@[j - 1].1 as int,
            ),
        decreases found.len() - j,
    {
        let from = start + char_offset_in(chars, start, stop, found[j].0);
        let to = start + char_offset_in(chars, start, stop, found[j].1);
        proof {
            lemma_chars_before(line, 0, 0, found@[j as int].0 as int, found@[j as int].1 as int);
            if j > 0 {
                assert(found@[j - 1].1 <= found@[j as int].0);
                lemma_chars_before(line, 0, 0, found@[j - 1].1 as int, found@[j as int].0 as int);
            }
        }
        let ghost shown = ranges_view(out@);
        let ghost last_end = if out@.len() > 0 {
            out@[out@.len() - 1].end as int
        } else {
            0int
        };
        assert(forall|k: int| 0 <= k < shown.len() ==> (#[trigger] shown[k]).1 <= from) by {
            assert forall|k: int| 0 <= k < shown.len() implies (#[trigger] shown[k]).1 <= from by {
                if k < before.len() {
                    assert(shown[k] == before[k]);
                } else if k < shown.len() - 1 {
                    assert(shown[k].1 <= shown[shown.len() - 1].0);
                    assert(shown[shown.len() - 1].0 <= shown[shown.len() - 1].1);
                } else {
                }
            }
        }
        out.push(Range { start: from, end: to });
        assert(ranges_view(out@) =~= shown.push((from as int, to as int)));
        assert(hits.take(j + 1) =~= hits.take(j as int).push(hits[j as int]));
        assert(ranges_view(out@) =~= before + hits.take(j + 1));
        assert(ranges_ascending(ranges_view(out@))) by {
            let now = ranges_view(out@);
            assert forall|k: int| 0 <= k < now.len() implies 0 <= (#[trigger] now[k]).0
                <= now[k].1 by {
                if k < shown.len() {
                    assert(now[k] == shown[k]);
                }
            }
            assert forall|a: int, b: int| 0 <= a < b < now.len() implies (#[trigger] now[a]).1 <= (
            #[trigger] now[b]).0 by {
                assert(now[a] == shown[a]);
                if b < shown.len() {
                    assert(now[b] == shown[b]);
                }
            }
        }
        j += 1;
    }
    assert(hits.take(found@.len() as int) =~= hits);
}

} // verus!
