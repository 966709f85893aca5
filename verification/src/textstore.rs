//! The text store: an ordered, mutable sequence of Unicode characters with
//! logarithmic-time insert/remove and conversions among byte offsets, char
//! offsets and (row, column) positions.
use vstd::prelude::*;

use crate::ropewrap::{
    rope_byte_to_char, rope_byte_to_line, rope_char_to_byte, rope_char_to_line, rope_chars,
    rope_from_str, rope_insert, rope_len_bytes, rope_len_chars, rope_len_lines, rope_line_to_byte,
    rope_line_to_char, rope_remove, rope_slice_string,
};
use crate::textmodel::{
    byte_len, byte_of, char_of_byte, lemma_byte_of_mono, lemma_byte_of_nonneg,
    lemma_char_byte_char, lemma_char_in_its_line, lemma_char_of_byte, lemma_line_end_next,
    lemma_line_start, lemma_nl_count_bounds, lemma_nl_count_mono, lemma_point_to_char_inverse,
    line_end, line_start, nl_count, num_lines, splice,
};
use crate::{EditError, Point};

verus! {

/// Where a character offset sits as a (row, column) pair: the row is the
/// number of breaks before it, the column its distance from the row's start.
pub open spec fn char_to_point_spec(s: Seq<char>, c: int) -> Point {
    Point { row: nl_count(s, c) as usize, column: (c - line_start(s, nl_count(s, c))) as usize }
}

/// The character offset of a (row, column) pair.
pub open spec fn point_to_char_spec(s: Seq<char>, p: Point) -> int {
    line_start(s, p.row as int) + p.column
}

/// A (row, column) pair addresses a character (or the end of a line) of `s`.
pub open spec fn point_valid(s: Seq<char>, p: Point) -> bool {
    p.row < num_lines(s) && p.column <= line_end(s, p.row as int) - line_start(s, p.row as int)
}

/// A single replayable mutation of a text store.
pub enum TextOp {
    /// Insert the text before the character at the offset.
    Insert(usize, String),
    /// Remove the half-open character range.
    Remove(usize, usize),
}

/// What one operation does to the content: an out-of-range operation is
/// rejected and leaves the content unchanged.
pub open spec fn apply_op_spec(s: Seq<char>, op: TextOp) -> Seq<char> {
    match op {
        TextOp::Insert(at, t) => if at <= s.len() {
            splice(s, at as int, at as int, t@)
        } else {
            s
        },
        TextOp::Remove(a, b) => if a <= b <= s.len() {
            splice(s, a as int, b as int, Seq::empty())
        } else {
            s
        },
    }
}

/// The content after replaying a sequence of operations in order.
pub open spec fn replay_spec(s: Seq<char>, ops: Seq<TextOp>) -> Seq<char>
    decreases ops.len(),
{
    if ops.len() == 0 {
        s
    } else {
        apply_op_spec(replay_spec(s, ops.drop_last()), ops.last())
    }
}

/// The mutable text container.  Its view is the sequence of characters it
/// holds; all contracts are stated over that view and the line/byte model of
/// `crate::textmodel`.
pub struct TextStore {
    rope: ropey::Rope,
}

impl View for TextStore {
    type V = Seq<char>;

    closed spec fn view(&self) -> Seq<char> {
        rope_chars(self.rope)
    }
}

impl TextStore {
    /// Builds a store holding exactly `content`.
    pub fn new(content: &str) -> (r: TextStore)
        ensures
            r@ == content@,
    {
        TextStore { rope: rope_from_str(content) }
    }

    /// Number of characters.
    pub fn len_chars(&self) -> (n: usize)
        ensures
            n == self@.len(),
    {
        rope_len_chars(&self.rope)
    }

    /// Length of the UTF-8 encoding in bytes.
    pub fn len_bytes(&self) -> (n: usize)
        ensures
            n == byte_len(self@),
    {
        rope_len_bytes(&self.rope)
    }

    /// Number of lines (one more than the number of `'\n'` breaks).
    pub fn len_lines(&self) -> (n: usize)
        ensures
            n == num_lines(self@),
    {
        rope_len_lines(&self.rope)
    }

    /// Inserts `text` before the character at `at`; `at == len` appends.
    /// Rejects an offset beyond the end and leaves the content unchanged.
    pub fn insert(&mut self, at: usize, text: &str) -> (r: Result<(), EditError>)
        ensures
            at <= old(self)@.len() ==> r == Ok::<(), EditError>(()) && final(self)@ == splice(
                old(self)@,
                at as int,
                at as int,
                text@,
            ),
            at > old(self)@.len() ==> r == Err::<(), EditError>(EditError::OutOfRange)
                && final(self)@ == old(self)@,
    {
        let n: usize = rope_len_chars(&self.rope);
        if at > n {
            return Err(EditError::OutOfRange);
        }
        rope_insert(&mut self.rope, at, text);
        Ok(())
    }

    /// Removes the half-open character range `[start, end)`.  Rejects a
    /// reversed or out-of-bounds range and leaves the content unchanged.
    pub fn remove(&mut self, start: usize, end: usize) -> (r: Result<(), EditError>)
        ensures
            start <= end <= old(self)@.len() ==> r == Ok::<(), EditError>(()) && final(self)@
                == splice(old(self)@, start as int, end as int, Seq::empty()),
            !(start <= end <= old(self)@.len()) ==> r == Err::<(), EditError>(
                EditError::OutOfRange,
            ) && final(self)@ == old(self)@,
    {
        let n: usize = rope_len_chars(&self.rope);
        if start > end || end > n {
            return Err(EditError::OutOfRange);
        }
        rope_remove(&mut self.rope, start, end);
        Ok(())
    }

    /// The byte offset of character `c` (one-past-the-end allowed).
    pub fn char_to_byte(&self, c: usize) -> (r: Result<usize, EditError>)
        ensures
            c <= self@.len() ==> (r matches Ok(n) && n == byte_of(self@, c as int)),
            c > self@.len() ==> r == Err::<usize, EditError>(EditError::OutOfRange),
    {
        let n: usize = rope_len_chars(&self.rope);
        if c > n {
            return Err(EditError::OutOfRange);
        }
        Ok(rope_char_to_byte(&self.rope, c))
    }

    /// The index of the character containing byte `b` (one-past-the-end
    /// allowed).
    pub fn byte_to_char(&self, b: usize) -> (r: Result<usize, EditError>)
        ensures
            b <= byte_len(self@) ==> (r matches Ok(n) && n == char_of_byte(self@, b as int)),
            b > byte_len(self@) ==> r == Err::<usize, EditError>(EditError::OutOfRange),
    {
        let n: usize = rope_len_bytes(&self.rope);
        if b > n {
            return Err(EditError::OutOfRange);
        }
        Ok(rope_byte_to_char(&self.rope, b))
    }

    /// The row holding character `c`: the number of breaks before it.
    pub fn char_to_line(&self, c: usize) -> (r: Result<usize, EditError>)
        ensures
            c <= self@.len() ==> (r matches Ok(n) && n == nl_count(self@, c as int)),
            c > self@.len() ==> r == Err::<usize, EditError>(EditError::OutOfRange),
    {
        let n: usize = rope_len_chars(&self.rope);
        if c > n {
            return Err(EditError::OutOfRange);
        }
        Ok(rope_char_to_line(&self.rope, c))
    }

    /// The character offset of the start of line `row` (one-past-the-end
    /// allowed, yielding the content length).
    pub fn line_to_char(&self, row: usize) -> (r: Result<usize, EditError>)
        ensures
            row <= num_lines(self@) ==> (r matches Ok(n) && n == line_start(self@, row as int)),
            row > num_lines(self@) ==> r == Err::<usize, EditError>(EditError::OutOfRange),
    {
        let n: usize = rope_len_lines(&self.rope);
        if row > n {
            return Err(EditError::OutOfRange);
        }
        Ok(rope_line_to_char(&self.rope, row))
    }

    /// The byte offset of the start of line `row`.
    pub fn line_to_byte(&self, row: usize) -> (r: Result<usize, EditError>)
        ensures
            row <= num_lines(self@) ==> (r matches Ok(n) && n == byte_of(
                self@,
                line_start(self@, row as int),
            )),
            row > num_lines(self@) ==> r == Err::<usize, EditError>(EditError::OutOfRange),
    {
        let n: usize = rope_len_lines(&self.rope);
        if row > n {
            return Err(EditError::OutOfRange);
        }
        Ok(rope_line_to_byte(&self.rope, row))
    }

    /// The row holding byte `b`: the number of breaks before it.
    pub fn byte_to_line(&self, b: usize) -> (r: Result<usize, EditError>)
        ensures
            b <= byte_len(self@) ==> (r matches Ok(n) && n == nl_count(
                self@,
                char_of_byte(self@, b as int),
            )),
            b > byte_len(self@) ==> r == Err::<usize, EditError>(EditError::OutOfRange),
    {
        let n: usize = rope_len_bytes(&self.rope);
        if b > n {
            return Err(EditError::OutOfRange);
        }
        Ok(rope_byte_to_line(&self.rope, b))
    }

    /// The text of the half-open character range `[start, end)`.
    pub fn slice(&self, start: usize, end: usize) -> (r: Result<String, EditError>)
        ensures
            start <= end <= self@.len() ==> (r matches Ok(t) && t@ == self@.subrange(
                start as int,
                end as int,
            )),
            !(start <= end <= self@.len()) ==> r == Err::<String, EditError>(EditError::OutOfRange),
    {
        let n: usize = rope_len_chars(&self.rope);
        if start > end || end > n {
            return Err(EditError::OutOfRange);
        }
        Ok(rope_slice_string(&self.rope, start, end))
    }

    /// The text of line `row`, without its terminating break.
    pub fn line(&self, row: usize) -> (r: Result<String, EditError>)
        ensures
            row < num_lines(self@) ==> (r matches Ok(t) && t@ == self@.subrange(
                line_start(self@, row as int),
                line_end(self@, row as int),
            )),
            row >= num_lines(self@) ==> r == Err::<String, EditError>(EditError::OutOfRange),
    {
        let n: usize = rope_len_lines(&self.rope);
        if row >= n {
            return Err(EditError::OutOfRange);
        }
        let ls: usize = rope_line_to_char(&self.rope, row);
        let le: usize = self.line_end_char(row);
        proof {
            lemma_line_end_next(self@, row as int);
        }
        Ok(rope_slice_string(&self.rope, ls, le))
    }

    /// The character offset one past the last own character of line `row`
    /// (the position of its break, or the end of the content).
    pub fn line_end_char(&self, row: usize) -> (n: usize)
        requires
            row < num_lines(self@),
        ensures
            n == line_end(self@, row as int),
    {
        let nlines: usize = rope_len_lines(&self.rope);
        proof {
            lemma_line_end_next(self@, row as int);
        }
        if row + 1 < nlines {
            let next: usize = rope_line_to_char(&self.rope, row + 1);
            next - 1
        } else {
            rope_len_chars(&self.rope)
        }
    }

    /// Converts a character offset to its (row, column) position.
    pub fn char_to_point(&self, c: usize) -> (r: Result<Point, EditError>)
        ensures
            c <= self@.len() ==> (r matches Ok(p) && p == char_to_point_spec(self@, c as int)
                && point_valid(self@, p)),
            c > self@.len() ==> r == Err::<Point, EditError>(EditError::OutOfRange),
    {
        let n: usize = rope_len_chars(&self.rope);
        if c > n {
            return Err(EditError::OutOfRange);
        }
        proof {
            lemma_char_in_its_line(self@, c as int);
        }
        let row: usize = rope_char_to_line(&self.rope, c);
        let ls: usize = rope_line_to_char(&self.rope, row);
        Ok(Point { row, column: c - ls })
    }

    /// Converts a (row, column) position back to a character offset.  The
    /// column counts characters from the line start and may at most reach the
    /// line's break (or the end of the content, on the last line); anything
    /// further is rejected, not clamped.
    pub fn point_to_char(&self, p: Point) -> (r: Result<usize, EditError>)
        ensures
            point_valid(self@, p) ==> (r matches Ok(c) && c == point_to_char_spec(self@, p)
                && c <= self@.len()),
            !point_valid(self@, p) ==> r == Err::<usize, EditError>(EditError::OutOfRange),
    {
        let nlines: usize = rope_len_lines(&self.rope);
        if p.row >= nlines {
            return Err(EditError::OutOfRange);
        }
        let ls: usize = rope_line_to_char(&self.rope, p.row);
        let le: usize = self.line_end_char(p.row);
        proof {
            lemma_line_end_next(self@, p.row as int);
        }
        if p.column > le - ls {
            return Err(EditError::OutOfRange);
        }
        Ok(ls + p.column)
    }

    /// The byte offset of character `c`, for callers that have already
    /// established the bound.
    pub(crate) fn char_to_byte_u(&self, c: usize) -> (n: usize)
        requires
            c <= self@.len(),
        ensures
            n == byte_of(self@, c as int),
    {
        rope_char_to_byte(&self.rope, c)
    }

    /// The character containing byte `b`, for callers that have already
    /// established the bound.
    pub(crate) fn byte_to_char_u(&self, b: usize) -> (n: usize)
        requires
            b <= byte_len(self@),
        ensures
            n == char_of_byte(self@, b as int),
    {
        rope_byte_to_char(&self.rope, b)
    }

    /// The start of line `row`, for callers that have already established the
    /// bound.
    pub(crate) fn line_to_char_u(&self, row: usize) -> (n: usize)
        requires
            row <= num_lines(self@),
        ensures
            n == line_start(self@, row as int),
    {
        rope_line_to_char(&self.rope, row)
    }

    /// The row of character `c`, for callers that have already established
    /// the bound.
    pub(crate) fn char_to_line_u(&self, c: usize) -> (n: usize)
        requires
            c <= self@.len(),
        ensures
            n == nl_count(self@, c as int),
    {
        rope_char_to_line(&self.rope, c)
    }

    /// The byte offset of the start of line `row`, for callers that have
    /// already established the bound.
    pub(crate) fn line_to_byte_u(&self, row: usize) -> (n: usize)
        requires
            row <= num_lines(self@),
        ensures
            n == byte_of(self@, line_start(self@, row as int)),
    {
        rope_line_to_byte(&self.rope, row)
    }

    /// The text of `[start, end)`, for callers that have already established
    /// the bounds.
    pub(crate) fn slice_u(&self, start: usize, end: usize) -> (t: String)
        requires
            start <= end <= self@.len(),
        ensures
            t@ == self@.subrange(start as int, end as int),
    {
        rope_slice_string(&self.rope, start, end)
    }

    /// Replays a sequence of operations on a store freshly built from
    /// `initial`.  An out-of-range operation is rejected and skipped, exactly
    /// as the model says.
    pub fn replay(initial: &str, ops: &Vec<TextOp>) -> (r: TextStore)
        ensures
            r@ == replay_spec(initial@, ops@),
    {
        let mut store: TextStore = TextStore::new(initial);
        let mut i: usize = 0;
        while i < ops.len()
            invariant
                i <= ops.len(),
                store@ == replay_spec(initial@, ops@.take(i as int)),
            decreases ops.len() - i,
        {
            proof {
                assert(ops@.take(i + 1).drop_last() =~= ops@.take(i as int));
                assert(ops@.take(i + 1).last() == ops@[i as int]);
            }
            match &ops[i] {
                TextOp::Insert(at, t) => {
                    let _ = store.insert(*at, t.as_str());
                },
                TextOp::Remove(a, b) => {
                    let _ = store.remove(*a, *b);
                },
            }
            i = i + 1;
        }
        proof {
            assert(ops@.take(ops@.len() as int) =~= ops@);
        }
        store
    }
}

// ------------------------------------------------------------------
// Conversion-inverse laws.
// ------------------------------------------------------------------

/// Converting a character offset to a (row, column) position and back yields
/// the same offset, and the position is always valid.
pub proof fn lemma_char_point_roundtrip(s: Seq<char>, c: int)
    requires
        s.len() <= usize::MAX,
        0 <= c <= s.len(),
    ensures
        point_valid(s, char_to_point_spec(s, c)),
        point_to_char_spec(s, char_to_point_spec(s, c)) == c,
{
    lemma_char_in_its_line(s, c);
    lemma_nl_count_bounds(s, c);
    lemma_line_start(s, nl_count(s, c));
    assert(char_to_point_spec(s, c).row as int == nl_count(s, c));
    assert(char_to_point_spec(s, c).column as int == c - line_start(s, nl_count(s, c)));
}

/// Converting a valid (row, column) position to a character offset and back
/// yields the same position.
pub proof fn lemma_point_char_roundtrip(s: Seq<char>, p: Point)
    requires
        s.len() <= usize::MAX,
        point_valid(s, p),
    ensures
        0 <= point_to_char_spec(s, p) <= s.len(),
        char_to_point_spec(s, point_to_char_spec(s, p)) == p,
{
    lemma_line_end_next(s, p.row as int);
    lemma_point_to_char_inverse(s, p.row as int, p.column as int);
    lemma_line_start(s, p.row as int);
}

/// Converting a character offset to its byte offset and back yields the same
/// character offset.
pub proof fn lemma_char_byte_roundtrip(s: Seq<char>, c: int)
    requires
        0 <= c <= s.len(),
    ensures
        char_of_byte(s, byte_of(s, c)) == c,
{
    lemma_char_byte_char(s, c);
}

/// Converting a byte offset to its character and back floors the byte offset
/// to the containing character's first byte; on character boundaries the two
/// conversions are exact inverses.
pub proof fn lemma_byte_char_roundtrip(s: Seq<char>, b: int)
    requires
        0 <= b <= byte_len(s),
    ensures
        byte_of(s, char_of_byte(s, b)) <= b,
        (exists|c: int| 0 <= c <= s.len() && byte_of(s, c) == b) ==> byte_of(
            s,
            char_of_byte(s, b),
        ) == b,
{
    lemma_char_of_byte(s, b);
    if exists|c: int| 0 <= c <= s.len() && byte_of(s, c) == b {
        let c: int = choose|c: int| 0 <= c <= s.len() && byte_of(s, c) == b;
        lemma_char_byte_char(s, c);
    }
}

/// The third unit pair: a byte offset on a character boundary, taken through
/// its character to a (row, column) position and back, yields the same byte
/// offset.
pub proof fn lemma_byte_point_roundtrip(s: Seq<char>, c: int)
    requires
        s.len() <= usize::MAX,
        0 <= c <= s.len(),
    ensures
        byte_of(
            s,
            point_to_char_spec(s, char_to_point_spec(s, char_of_byte(s, byte_of(s, c)))),
        ) == byte_of(s, c),
{
    lemma_char_byte_char(s, c);
    lemma_char_point_roundtrip(s, c);
}

/// Converting a character offset to its row and taking that row's start never
/// passes the offset: rows and character offsets are mutually consistent.
pub proof fn lemma_char_line_roundtrip(s: Seq<char>, row: int)
    requires
        0 <= row < num_lines(s),
    ensures
        nl_count(s, line_start(s, row)) == row,
{
    lemma_line_start(s, row);
}

} // verus!
