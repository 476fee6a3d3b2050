//! The document: a rope of characters that can be edited and searched.

use core::ops::Range;
use ropey::Rope;
use vstd::prelude::*;
use crate::layout::ranges_ascending;
use crate::search::{
    error_message, find_line_end, find_matches, hits_from, line_hits, line_string,
    pattern_valid, push_line_hits, search_hits, SearchError,
};
use vstd::string::StringExecFns;
use crate::text::chars_of;
use crate::wrap::ranges_view;

verus! {

/// Trusted: declares `ropey::Rope`, whose inside the verifier does not see.
#[verifier::external_type_specification]
#[verifier::external_body]
pub struct ExRope(Rope);

/// The characters that a rope holds, in order.
pub uninterp spec fn rope_text(rope: Rope) -> Seq<char>;

/// Makes a rope of a string.
///
/// Trusted: stands for `ropey::Rope::from_str`, which builds a rope that
/// holds the given text.
#[verifier::external_body]
pub(crate) fn rope_from_str(text: &str) -> (rope: Rope)
    ensures
        rope_text(rope) == text@,
{
    Rope::from_str(text)
}

/// Number of characters in a rope.
///
/// Trusted: stands for `ropey::Rope::len_chars`, the total number of chars
/// in the rope.
#[verifier::external_body]
pub(crate) fn rope_len_chars(rope: &Rope) -> (len: usize)
    ensures
        len == rope_text(*rope).len(),
{
    rope.len_chars()
}

/// Inserts a character into a rope.
///
/// Trusted: stands for `ropey::Rope::insert_char`, which inserts `ch` at
/// char index `char_idx` and panics if that index is beyond the end.
#[verifier::external_body]
pub(crate) fn rope_insert_char(rope: &mut Rope, char_idx: usize, ch: char)
    requires
        char_idx <= rope_text(*old(rope)).len(),
    ensures
        rope_text(*final(rope)) == rope_text(*old(rope)).insert(char_idx as int, ch),
{
    rope.insert_char(char_idx, ch)
}

/// Removes a range of characters from a rope.
///
/// Trusted: stands for `ropey::Rope::remove` on the char range
/// `start..end`, which panics if the start is greater than the end or the
/// end is out of bounds.
#[verifier::external_body]
pub(crate) fn rope_remove(rope: &mut Rope, start: usize, end: usize)
    requires
        start <= end <= rope_text(*old(rope)).len(),
    ensures
        rope_text(*final(rope)) == rope_text(*old(rope)).subrange(0, start as int) + rope_text(
            *old(rope),
        ).subrange(end as int, rope_text(*old(rope)).len() as int),
{
    rope.remove(start..end)
}

/// The text of a rope as a string.
///
/// Trusted: stands for `String::from(&Rope)`, which concatenates the
/// rope's chunks.
#[verifier::external_body]
pub(crate) fn rope_to_string(rope: &Rope) -> (text: String)
    ensures
        text@ == rope_text(*rope),
{
    String::from(rope)
}

/// What is left of `text` once the characters `start..end` are removed.
pub open spec fn without(text: Seq<char>, start: int, end: int) -> Seq<char> {
    text.subrange(0, start) + text.subrange(end, text.len() as int)
}

/// A document and the name of the file it belongs to.
#[derive(Debug)]
pub struct EditorModel {
    pub rope: Rope,
    pub file_name: String,
}

impl EditorModel {
    /// The document's characters.
    pub open spec fn text(&self) -> Seq<char> {
        rope_text(self.rope)
    }

    /// A document that holds `text` and belongs to the file `file_name`.
    pub fn new(file_name: &str, text: &str) -> (model: Self)
        ensures
            model.text() == text@,
            model.file_name@ == file_name@,
    {
        EditorModel { rope: rope_from_str(text), file_name: String::from_str(file_name) }
    }

    /// Number of characters in the document.
    pub fn len_chars(&self) -> (len: usize)
        ensures
            len == self.text().len(),
    {
        rope_len_chars(&self.rope)
    }

    /// The document as a string.
    pub fn to_text(&self) -> (text: String)
        ensures
            text@ == self.text(),
    {
        rope_to_string(&self.rope)
    }

    /// Inserts `ch` so that it becomes character `char_idx`.
    pub fn insert_char(&mut self, ch: char, char_idx: usize)
        requires
            char_idx <= old(self).text().len(),
        ensures
            final(self).text() == old(self).text().insert(char_idx as int, ch),
            final(self).file_name == old(self).file_name,
    {
        rope_insert_char(&mut self.rope, char_idx, ch);
    }

    /// Deletes character `char_idx` and says whether there was one.
    pub fn delete_char(&mut self, char_idx: usize) -> (deleted: bool)
        ensures
            deleted == (char_idx < old(self).text().len()),
            deleted ==> final(self).text() == old(self).text().remove(char_idx as int),
            !deleted ==> final(self).text() == old(self).text(),
            final(self).file_name == old(self).file_name,
    {
        if char_idx < rope_len_chars(&self.rope) {
            let ghost before = self.text();
            rope_remove(&mut self.rope, char_idx, char_idx + 1);
            assert(without(before, char_idx as int, char_idx + 1) =~= before.remove(
                char_idx as int,
            ));
            true
        } else {
            false
        }
    }

    /// Deletes the characters `start..end`.
    pub fn delete_range(&mut self, start: usize, end: usize)
        requires
            start <= end <= old(self).text().len(),
        ensures
            final(self).text() == without(old(self).text(), start as int, end as int),
            final(self).file_name == old(self).file_name,
    {
        rope_remove(&mut self.rope, start, end);
    }

    /// Deletes the characters from `start` to the end of the document.
    pub fn delete_to_end(&mut self, start: usize)
        requires
            start <= old(self).text().len(),
        ensures
            final(self).text() == old(self).text().subrange(0, start as int),
            final(self).file_name == old(self).file_name,
    {
        let ghost before = self.text();
        let end = rope_len_chars(&self.rope);
        rope_remove(&mut self.rope, start, end);
        assert(without(before, start as int, end as int) =~= before.subrange(0, start as int));
    }

    /// Searches the document, line by line, for the regular expression
    /// `search_query`, and gives the matches as ascending half-open ranges of
    /// character indices. An empty query matches nothing; a pattern that does
    /// not compile is an error.
    pub fn run_search(&self, search_query: &str) -> (found: Result<Vec<Range<usize>>, SearchError>)
        ensures
            search_query@.len() == 0 ==> (found matches Ok(v) && v@.len() == 0),
            search_query@.len() > 0 ==> (found is Ok <==> pattern_valid(search_query@)),
            search_query@.len() > 0 ==> (found matches Ok(v) ==> ranges_view(v@) == search_hits(
                search_query@,
                self.text(),
            )),
            found matches Ok(v) ==> ranges_ascending(ranges_view(v@)),
    {
        let mut out: Vec<Range<usize>> = Vec::new();
        assert(ranges_view(out@) =~= Seq::<(int, int)>::empty());
        if search_query.unicode_len() == 0 {
            return Ok(out);
        }
        let text = rope_to_string(&self.rope);
        let chars = chars_of(text.as_str());
        let mut start: usize = 0;
        let mut more = true;
        while more
            invariant
                search_query@.len() > 0,
                chars@ == self.text(),
                chars.len() * 4 <= isize::MAX,
                start <= chars.len(),
                ranges_ascending(ranges_view(out@)),
                forall|k: int| 0 <= k < out@.len() ==> out@[k].end <= start,
                more ==> ranges_view(out@) + hits_from(search_query@, chars@, start as int)
                    == search_hits(search_query@, chars@),
                !more ==> pattern_valid(search_query@) && ranges_view(out@) == search_hits(
                    search_query@,
                    chars@,
                ),
            decreases (if more { 1int } else { 0int }), chars.len() - start,
        {
            let stop = find_line_end(&chars, start);
            let line = line_string(&chars, start, stop);
            let ghost before = ranges_view(out@);
            match find_matches(search_query, line.as_str()) {
                Err(error) => {
                    return Err(SearchError { message: error_message(&error) });
                },
                Ok(found) => {
                    push_line_hits(&mut out, &chars, start, stop, &found);
                    assert(ranges_view(out@) == before + line_hits(
                        search_query@,
                        chars@,
                        start as int,
                        stop as int,
                    ));
                    if start < stop && chars[stop - 1] == '\n' {
                        assert(before + (line_hits(
                            search_query@,
                            chars@,
                            start as int,
                            stop as int,
                        ) + hits_from(search_query@, chars@, stop as int)) =~= ranges_view(out@)
                            + hits_from(search_query@, chars@, stop as int));
                    } else {
                        more = false;
                    }
                    start = stop;
                },
            }
        }
        Ok(out)
    }
}

} // verus!
