//! The mathematical model of the text store: a sequence of characters,
//! its line structure (lines are delimited by `'\n'` alone) and the byte
//! offsets of its UTF-8 encoding.
use vstd::prelude::*;

verus! {

/// Number of line breaks (`'\n'`) in `s` strictly before position `c`.
pub open spec fn nl_count(s: Seq<char>, c: int) -> int
    decreases c,
{
    if c <= 0 {
        0
    } else {
        nl_count(s, c - 1) + if s[c - 1] == '\n' {
            1int
        } else {
            0int
        }
    }
}

/// Number of lines of `s`: one more than the number of line breaks.
pub open spec fn num_lines(s: Seq<char>) -> int {
    nl_count(s, s.len() as int) + 1
}

/// Position of the first `'\n'` at or after `from`, or `s.len()` if there is none.
pub open spec fn next_nl(s: Seq<char>, from: int) -> int
    decreases s.len() - from,
{
    if from < 0 || from >= s.len() {
        s.len() as int
    } else if s[from] == '\n' {
        from
    } else {
        next_nl(s, from + 1)
    }
}

/// Character index of the first character of line `row`.
/// For `row == num_lines(s)` (one past the last line) this is `s.len()`.
pub open spec fn line_start(s: Seq<char>, row: int) -> int
    decreases row,
{
    if row <= 0 {
        0
    } else {
        let e = next_nl(s, line_start(s, row - 1));
        if e < s.len() {
            e + 1
        } else {
            s.len() as int
        }
    }
}

/// Character index one past the last character of line `row` that belongs to
/// the line's own text, i.e. the position of its `'\n'`, or `s.len()` for the
/// last line.
pub open spec fn line_end(s: Seq<char>, row: int) -> int {
    next_nl(s, line_start(s, row))
}

/// Width in bytes of the UTF-8 encoding of one character.
pub open spec fn char_width(c: char) -> int {
    if (c as u32) < 0x80 {
        1
    } else if (c as u32) < 0x800 {
        2
    } else if (c as u32) < 0x10000 {
        3
    } else {
        4
    }
}

/// Byte offset of character `c` in the UTF-8 encoding of `s`.
pub open spec fn byte_of(s: Seq<char>, c: int) -> int
    decreases c,
{
    if c <= 0 {
        0
    } else {
        byte_of(s, c - 1) + char_width(s[c - 1])
    }
}

/// Total length in bytes of the UTF-8 encoding of `s`.
pub open spec fn byte_len(s: Seq<char>) -> int {
    byte_of(s, s.len() as int)
}

/// Helper for `char_of_byte`: first character at or after `c` whose encoding
/// extends beyond byte offset `b`.
pub open spec fn char_of_byte_from(s: Seq<char>, b: int, c: int) -> int
    decreases s.len() - c,
{
    if c < 0 || c >= s.len() {
        s.len() as int
    } else if byte_of(s, c + 1) > b {
        c
    } else {
        char_of_byte_from(s, b, c + 1)
    }
}

/// Index of the character whose UTF-8 encoding contains byte offset `b`
/// (`s.len()` when `b` is the one-past-the-end byte offset).
pub open spec fn char_of_byte(s: Seq<char>, b: int) -> int {
    char_of_byte_from(s, b, 0)
}

/// The content after replacing the character range `[start, end)` by `t`.
pub open spec fn splice(s: Seq<char>, start: int, end: int, t: Seq<char>) -> Seq<char> {
    s.subrange(0, start) + t + s.subrange(end, s.len() as int)
}

// ------------------------------------------------------------------
// Lemmas about the line structure.
// ------------------------------------------------------------------

/// Counting breaks is monotone, and grows by at most one per character.
pub proof fn lemma_nl_count_mono(s: Seq<char>, c1: int, c2: int)
    requires
        c1 <= c2,
    ensures
        nl_count(s, c1) <= nl_count(s, c2),
        nl_count(s, c2) - nl_count(s, c1) <= c2 - c1,
    decreases c2 - c1,
{
    if c1 < c2 {
        lemma_nl_count_mono(s, c1, c2 - 1);
    }
}

/// Break counts are non-negative and bounded by the position.
pub proof fn lemma_nl_count_bounds(s: Seq<char>, c: int)
    ensures
        0 <= nl_count(s, c),
        nl_count(s, c) <= if c >= 0 {
            c
        } else {
            0
        },
    decreases c,
{
    if c > 0 {
        lemma_nl_count_bounds(s, c - 1);
    }
}

/// What `next_nl` finds: no break lies in `[from, next_nl)`, and the found
/// position (if within the text) holds a break.
pub proof fn lemma_next_nl(s: Seq<char>, from: int)
    requires
        0 <= from <= s.len(),
    ensures
        from <= next_nl(s, from) <= s.len(),
        forall|k: int| from <= k < next_nl(s, from) ==> s[k] != '\n',
        next_nl(s, from) < s.len() ==> s[next_nl(s, from)] == '\n',
    decreases s.len() - from,
{
    if from < s.len() && s[from] != '\n' {
        lemma_next_nl(s, from + 1);
    }
}

/// The break count does not change over a break-free range.
pub proof fn lemma_nl_count_flat(s: Seq<char>, a: int, b: int)
    requires
        0 <= a <= b <= s.len(),
        forall|k: int| a <= k < b ==> s[k] != '\n',
    ensures
        nl_count(s, a) == nl_count(s, b),
    decreases b - a,
{
    if a < b {
        lemma_nl_count_flat(s, a, b - 1);
    }
}

/// Stepping over one character adjusts the count by exactly its break status.
pub proof fn lemma_nl_count_step(s: Seq<char>, c: int)
    requires
        0 <= c < s.len(),
    ensures
        nl_count(s, c + 1) == nl_count(s, c) + if s[c] == '\n' {
            1int
        } else {
            0int
        },
{
}

/// The start of a valid line has exactly `row` breaks before it, and sits
/// directly after a break (except for line 0).
pub proof fn lemma_line_start(s: Seq<char>, row: int)
    requires
        0 <= row < num_lines(s),
    ensures
        0 <= line_start(s, row) <= s.len(),
        nl_count(s, line_start(s, row)) == row,
        row > 0 ==> line_start(s, row) > 0 && s[line_start(s, row) - 1] == '\n',
    decreases row,
{
    if row == 0 {
    } else {
        lemma_line_start(s, row - 1);
        let ls: int = line_start(s, row - 1);
        let e: int = next_nl(s, ls);
        lemma_next_nl(s, ls);
        lemma_nl_count_flat(s, ls, e);
        if e >= s.len() {
            // then nl_count(s, len) == row - 1, contradicting row < num_lines
            assert(nl_count(s, s.len() as int) == row - 1);
            assert(false);
        }
        lemma_nl_count_step(s, e);
    }
}

/// The central characterization: a position lies at or after the start of
/// line `row` exactly when at least `row` breaks lie before it.
pub proof fn lemma_line_start_char(s: Seq<char>, row: int, c: int)
    requires
        0 <= row < num_lines(s),
        0 <= c <= s.len(),
    ensures
        (nl_count(s, c) >= row) <==> (c >= line_start(s, row)),
{
    lemma_line_start(s, row);
    let ls: int = line_start(s, row);
    if c >= ls {
        lemma_nl_count_mono(s, ls, c);
    }
    if nl_count(s, c) >= row {
        if c < ls {
            // c < ls: fewer than `row` breaks lie before c.
            if row == 0 {
            } else {
                let prev: int = line_start(s, row - 1);
                lemma_line_start(s, row - 1);
                let e: int = next_nl(s, prev);
                lemma_next_nl(s, prev);
                // ls == e + 1, so c <= e
                if c <= prev {
                    lemma_nl_count_mono(s, c, prev);
                    lemma_nl_count_bounds(s, c);
                    assert(nl_count(s, c) <= row - 1);
                } else {
                    lemma_nl_count_flat(s, prev, c);
                    assert(nl_count(s, c) == row - 1);
                }
                assert(false);
            }
        }
    }
}

/// Every position lies between the start and the end of its own line.
pub proof fn lemma_char_in_its_line(s: Seq<char>, c: int)
    requires
        0 <= c <= s.len(),
    ensures
        0 <= nl_count(s, c) < num_lines(s),
        line_start(s, nl_count(s, c)) <= c,
        c <= line_end(s, nl_count(s, c)),
{
    let row: int = nl_count(s, c);
    lemma_nl_count_bounds(s, c);
    lemma_nl_count_mono(s, c, s.len() as int);
    lemma_line_start_char(s, row, c);
    let ls: int = line_start(s, row);
    let e: int = next_nl(s, ls);
    lemma_line_start(s, row);
    lemma_next_nl(s, ls);
    if c > e {
        // then a break at e lies before c, giving too many breaks before c
        lemma_nl_count_flat(s, ls, e);
        lemma_nl_count_step(s, e);
        lemma_nl_count_mono(s, e + 1, c);
        assert(nl_count(s, c) >= row + 1);
        assert(false);
    }
}

/// A line that is not the last one ends at a break, and the next line starts
/// directly after that break.  The last line ends at the end of the text.
pub proof fn lemma_line_end_next(s: Seq<char>, row: int)
    requires
        0 <= row < num_lines(s),
    ensures
        line_start(s, row) <= line_end(s, row) <= s.len(),
        row + 1 < num_lines(s) ==> line_end(s, row) < s.len() && line_start(s, row + 1)
            == line_end(s, row) + 1,
        row + 1 == num_lines(s) ==> line_end(s, row) == s.len(),
{
    lemma_line_start(s, row);
    let ls: int = line_start(s, row);
    let e: int = next_nl(s, ls);
    lemma_next_nl(s, ls);
    lemma_nl_count_flat(s, ls, e);
    if e < s.len() {
        lemma_nl_count_step(s, e);
        lemma_nl_count_mono(s, e + 1, s.len() as int);
        // nl_count(s, len) >= row + 1, so row is not the last line
        assert(num_lines(s) >= row + 2);
    } else {
        lemma_nl_count_mono(s, e, s.len() as int);
        // no break follows line `row`: it is the last line
        assert(nl_count(s, s.len() as int) == row);
    }
}

/// Distinct positions within one line keep their distance when the line start
/// is subtracted; adding a valid column back is the inverse.
pub proof fn lemma_point_to_char_inverse(s: Seq<char>, row: int, col: int)
    requires
        0 <= row < num_lines(s),
        0 <= col <= line_end(s, row) - line_start(s, row),
    ensures
        nl_count(s, line_start(s, row) + col) == row,
    {
    let ls: int = line_start(s, row);
    lemma_line_start(s, row);
    lemma_next_nl(s, ls);
    lemma_nl_count_flat(s, ls, ls + col);
}

// ------------------------------------------------------------------
// Lemmas about the byte structure.
// ------------------------------------------------------------------

/// Each character is one to four bytes wide.
pub proof fn lemma_char_width_bounds(c: char)
    ensures
        1 <= char_width(c) <= 4,
{
}

/// Byte offsets are monotone, growing by at least one and at most four per
/// character.
pub proof fn lemma_byte_of_mono(s: Seq<char>, c1: int, c2: int)
    requires
        c1 <= c2,
    ensures
        byte_of(s, c1) <= byte_of(s, c2),
        byte_of(s, c2) - byte_of(s, c1) >= if c1 >= 0 && c2 <= s.len() {
            c2 - c1
        } else {
            0
        },
        byte_of(s, c2) - byte_of(s, c1) <= 4 * (c2 - c1),
    decreases c2 - c1,
{
    if c1 < c2 {
        lemma_byte_of_mono(s, c1, c2 - 1);
    }
}

/// Byte offsets are non-negative.
pub proof fn lemma_byte_of_nonneg(s: Seq<char>, c: int)
    ensures
        byte_of(s, c) >= 0,
    decreases c,
{
    if c > 0 {
        lemma_byte_of_nonneg(s, c - 1);
    }
}

/// The scan of `char_of_byte_from` finds the character containing `b`.
pub proof fn lemma_char_of_byte_from(s: Seq<char>, b: int, c: int)
    requires
        0 <= c <= s.len(),
        byte_of(s, c) <= b,
    ensures
        c <= char_of_byte_from(s, b, c) <= s.len(),
        byte_of(s, char_of_byte_from(s, b, c)) <= b,
        char_of_byte_from(s, b, c) < s.len() ==> b < byte_of(s, char_of_byte_from(s, b, c) + 1),
    decreases s.len() - c,
{
    if c < s.len() && byte_of(s, c + 1) <= b {
        lemma_char_of_byte_from(s, b, c + 1);
    }
}

/// A byte offset maps into the character that contains it.
pub proof fn lemma_char_of_byte(s: Seq<char>, b: int)
    requires
        0 <= b,
    ensures
        0 <= char_of_byte(s, b) <= s.len(),
        byte_of(s, char_of_byte(s, b)) <= b,
        char_of_byte(s, b) < s.len() ==> b < byte_of(s, char_of_byte(s, b) + 1),
{
    lemma_char_of_byte_from(s, b, 0);
}

/// The byte-to-character conversion is monotone.
pub proof fn lemma_char_of_byte_mono(s: Seq<char>, b1: int, b2: int)
    requires
        0 <= b1 <= b2,
    ensures
        char_of_byte(s, b1) <= char_of_byte(s, b2),
{
    lemma_char_of_byte(s, b1);
    lemma_char_of_byte(s, b2);
    let c1: int = char_of_byte(s, b1);
    let c2: int = char_of_byte(s, b2);
    if c1 > c2 {
        lemma_byte_of_mono(s, c2 + 1, c1);
        assert(byte_of(s, c2 + 1) <= byte_of(s, c1));
        assert(false);
    }
}

/// Converting a character's byte offset back yields the same character.
pub proof fn lemma_char_byte_char(s: Seq<char>, c: int)
    requires
        0 <= c <= s.len(),
    ensures
        char_of_byte(s, byte_of(s, c)) == c,
{
    let b: int = byte_of(s, c);
    lemma_byte_of_nonneg(s, c);
    lemma_char_of_byte(s, b);
    let c2: int = char_of_byte(s, b);
    if c2 < c {
        lemma_byte_of_mono(s, c2 + 1, c);
        assert(byte_of(s, c2 + 1) <= b);
        assert(false);
    }
    if c2 > c {
        lemma_byte_of_mono(s, c, c2);
        lemma_char_width_bounds(s[c]);
        assert(byte_of(s, c2) >= byte_of(s, c + 1));
        assert(byte_of(s, c + 1) > b);
        assert(false);
    }
}

} // verus!
