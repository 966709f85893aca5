//! Trusted bindings to `ropey`, the balanced text container that backs the
//! text store.  Every contract below states, over the model of
//! `crate::textmodel`, exactly what ropey's documentation and source promise:
//! chars are Unicode scalar values, lines are delimited by `'\n'` (ropey is
//! built here without its extended line-break features), byte offsets are
//! UTF-8 offsets, and every function panics on out-of-bounds input, which the
//! `requires` below exclude.
use vstd::prelude::*;

use crate::textmodel::{byte_len, byte_of, char_of_byte, line_start, nl_count, num_lines, splice};

verus! {

#[verifier::external_type_specification]
#[verifier::external_body]
pub struct ExRope(ropey::Rope);

/// The sequence of characters a `Rope` holds.
pub uninterp spec fn rope_chars(r: ropey::Rope) -> Seq<char>;

/// Relies on `Rope::from_str`: builds a rope holding exactly the given text.
#[verifier::external_body]
pub(crate) fn rope_from_str(s: &str) -> (r: ropey::Rope)
    ensures
        rope_chars(r) == s@,
{
    ropey::Rope::from_str(s)
}

/// Relies on `Rope::len_chars`: the total number of chars.
#[verifier::external_body]
pub(crate) fn rope_len_chars(r: &ropey::Rope) -> (n: usize)
    ensures
        n == rope_chars(*r).len(),
{
    r.len_chars()
}

/// Relies on `Rope::len_bytes`: the total length of the UTF-8 encoding.
#[verifier::external_body]
pub(crate) fn rope_len_bytes(r: &ropey::Rope) -> (n: usize)
    ensures
        n == byte_len(rope_chars(*r)),
{
    r.len_bytes()
}

/// Relies on `Rope::len_lines`: one more than the number of line breaks.
#[verifier::external_body]
pub(crate) fn rope_len_lines(r: &ropey::Rope) -> (n: usize)
    ensures
        n == num_lines(rope_chars(*r)),
{
    r.len_lines()
}

/// Relies on `Rope::insert`: splices `text` in before char `at`.
/// `Rope::insert` panics when `at > len_chars()`, which the `requires`
/// excludes.
#[verifier::external_body]
pub(crate) fn rope_insert(r: &mut ropey::Rope, at: usize, text: &str)
    requires
        at <= rope_chars(*old(r)).len(),
    ensures
        rope_chars(*final(r)) == splice(rope_chars(*old(r)), at as int, at as int, text@),
{
    r.insert(at, text)
}

/// Relies on `Rope::remove`: removes the half-open char range.
/// `Rope::remove` panics when `start > end` or `end > len_chars()`, which the
/// `requires` excludes.
#[verifier::external_body]
pub(crate) fn rope_remove(r: &mut ropey::Rope, start: usize, end: usize)
    requires
        start <= end <= rope_chars(*old(r)).len(),
    ensures
        rope_chars(*final(r)) == splice(rope_chars(*old(r)), start as int, end as int, Seq::empty()),
{
    r.remove(start..end)
}

/// Relies on `Rope::char_to_byte`: the byte offset of the given char
/// (one-past-the-end allowed).
#[verifier::external_body]
pub(crate) fn rope_char_to_byte(r: &ropey::Rope, c: usize) -> (n: usize)
    requires
        c <= rope_chars(*r).len(),
    ensures
        n == byte_of(rope_chars(*r), c as int),
{
    r.char_to_byte(c)
}

/// Relies on `Rope::byte_to_char`: the index of the char containing the given
/// byte (one-past-the-end allowed).
#[verifier::external_body]
pub(crate) fn rope_byte_to_char(r: &ropey::Rope, b: usize) -> (n: usize)
    requires
        b <= byte_len(rope_chars(*r)),
    ensures
        n == char_of_byte(rope_chars(*r), b as int),
{
    r.byte_to_char(b)
}

/// Relies on `Rope::char_to_line`: the number of line breaks before the given
/// char (one-past-the-end allowed).
#[verifier::external_body]
pub(crate) fn rope_char_to_line(r: &ropey::Rope, c: usize) -> (n: usize)
    requires
        c <= rope_chars(*r).len(),
    ensures
        n == nl_count(rope_chars(*r), c as int),
{
    r.char_to_line(c)
}

/// Relies on `Rope::line_to_char`: the char index of the start of the given
/// line (one-past-the-end allowed, yielding `len_chars`).
#[verifier::external_body]
pub(crate) fn rope_line_to_char(r: &ropey::Rope, row: usize) -> (n: usize)
    requires
        row <= num_lines(rope_chars(*r)),
    ensures
        n == line_start(rope_chars(*r), row as int),
{
    r.line_to_char(row)
}

/// Relies on `Rope::line_to_byte`: the byte offset of the start of the given
/// line (one-past-the-end allowed).
#[verifier::external_body]
pub(crate) fn rope_line_to_byte(r: &ropey::Rope, row: usize) -> (n: usize)
    requires
        row <= num_lines(rope_chars(*r)),
    ensures
        n == byte_of(rope_chars(*r), line_start(rope_chars(*r), row as int)),
{
    r.line_to_byte(row)
}

/// Relies on `Rope::byte_to_line`: the number of line breaks before the given
/// byte (one-past-the-end allowed).
#[verifier::external_body]
pub(crate) fn rope_byte_to_line(r: &ropey::Rope, b: usize) -> (n: usize)
    requires
        b <= byte_len(rope_chars(*r)),
    ensures
        n == nl_count(rope_chars(*r), char_of_byte(rope_chars(*r), b as int)),
{
    r.byte_to_line(b)
}

/// Relies on `Rope::slice`: the chars of the half-open char range, converted
/// to an owned string.  `Rope::slice` panics when `start > end` or
/// `end > len_chars()`, which the `requires` excludes.
#[verifier::external_body]
pub(crate) fn rope_slice_string(r: &ropey::Rope, start: usize, end: usize) -> (out: String)
    requires
        start <= end <= rope_chars(*r).len(),
    ensures
        out@ == rope_chars(*r).subrange(start as int, end as int),
{
    r.slice(start..end).to_string()
}

} // verus!
