//! The rope that stores an editor's text, and the few rope queries the editor
//! makes. Every query is a thin trusted call into `ropey`.
use ropey::Rope;
use vstd::prelude::*;

verus! {

#[verifier::external_type_specification]
#[verifier::external_body]
pub struct ExRope(Rope);

/// The characters that a rope holds.
pub uninterp spec fn rope_chars(rope: Rope) -> Seq<char>;

/// `Rope::char_to_line`: the index of the line that holds the given character.
pub uninterp spec fn rope_char_to_line(chars: Seq<char>, char_index: usize) -> usize;

/// `Rope::line_to_char`: the character index at which a line starts.
pub uninterp spec fn rope_line_to_char(chars: Seq<char>, line_index: usize) -> usize;

/// `Rope::len_lines`: the number of lines (line breaks plus one).
pub uninterp spec fn rope_len_lines(chars: Seq<char>) -> usize;

/// `RopeSlice::len_chars` of `Rope::line`: the length of a line, its line break included.
pub uninterp spec fn rope_line_len(chars: Seq<char>, line_index: usize) -> usize;

/// `Rope::from_str`: a rope that holds exactly the characters of `text`.
#[verifier::external_body]
pub(crate) fn rope_from_str(text: &str) -> (rope: Rope)
    ensures
        rope_chars(rope) == text@,
{
    Rope::from_str(text)
}

/// `Rope::to_string` (through `Display`): the rope's characters as a string.
#[verifier::external_body]
pub(crate) fn rope_to_string(rope: &Rope) -> (text: String)
    ensures
        text@ == rope_chars(*rope),
{
    rope.to_string()
}

/// `Rope::len_chars`: the number of characters.
#[verifier::external_body]
pub(crate) fn rope_len_chars(rope: &Rope) -> (len: usize)
    ensures
        len == rope_chars(*rope).len(),
{
    rope.len_chars()
}

/// `Rope::slice(start..end)` turned into a string: the characters in the range.
/// `slice` panics unless `start <= end <= len_chars`.
#[verifier::external_body]
pub(crate) fn rope_slice(rope: &Rope, start: usize, end: usize) -> (text: String)
    requires
        start <= end <= rope_chars(*rope).len(),
    ensures
        text@ == rope_chars(*rope).subrange(start as int, end as int),
{
    rope.slice(start..end).to_string()
}

/// `Rope::char`: the character at an index; it panics past the end.
#[verifier::external_body]
pub(crate) fn rope_char(rope: &Rope, index: usize) -> (c: char)
    requires
        index < rope_chars(*rope).len(),
    ensures
        c == rope_chars(*rope)[index as int],
{
    rope.char(index)
}

/// `Rope::remove(start..end)`: the characters in the range leave the rope.
/// It panics unless `start <= end <= len_chars`.
#[verifier::external_body]
pub(crate) fn rope_remove(rope: &mut Rope, start: usize, end: usize)
    requires
        start <= end <= rope_chars(*old(rope)).len(),
    ensures
        rope_chars(*final(rope)) == rope_chars(*old(rope)).take(start as int) + rope_chars(
            *old(rope),
        ).skip(end as int),
{
    rope.remove(start..end)
}

/// `Rope::insert`: `text` enters the rope at a character index; it panics past the end.
#[verifier::external_body]
pub(crate) fn rope_insert(rope: &mut Rope, index: usize, text: &str)
    requires
        index <= rope_chars(*old(rope)).len(),
    ensures
        rope_chars(*final(rope)) == rope_chars(*old(rope)).take(index as int) + text@
            + rope_chars(*old(rope)).skip(index as int),
{
    rope.insert(index, text)
}

/// `Rope::len_lines`: the number of lines, which is at least one.
#[verifier::external_body]
pub(crate) fn rope_lines(rope: &Rope) -> (count: usize)
    ensures
        count == rope_len_lines(rope_chars(*rope)),
        count >= 1,
        rope_line_to_char(rope_chars(*rope), count) == rope_chars(*rope).len(),
{
    rope.len_lines()
}

/// `Rope::char_to_line`: the line that holds a character (the last line for the
/// index one past the end). The line starts at or before the character, and the
/// next line starts after it. It panics past the end.
#[verifier::external_body]
pub(crate) fn rope_line_of(rope: &Rope, index: usize) -> (line: usize)
    requires
        index <= rope_chars(*rope).len(),
    ensures
        line == rope_char_to_line(rope_chars(*rope), index),
        line < rope_len_lines(rope_chars(*rope)),
        index == rope_chars(*rope).len() ==> line + 1 == rope_len_lines(rope_chars(*rope)),
        rope_line_to_char(rope_chars(*rope), line) <= index,
        index < rope_line_to_char(rope_chars(*rope), (line + 1) as usize) || index
            == rope_chars(*rope).len(),
{
    rope.char_to_line(index)
}

/// `Rope::line_to_char`: where a line starts; the line one past the last starts
/// at the end of the text. The character at the start of a line belongs to that
/// line. It panics for a larger index.
#[verifier::external_body]
pub(crate) fn rope_line_start(rope: &Rope, line: usize) -> (index: usize)
    requires
        line <= rope_len_lines(rope_chars(*rope)),
    ensures
        index == rope_line_to_char(rope_chars(*rope), line),
        index <= rope_chars(*rope).len(),
        line < rope_len_lines(rope_chars(*rope)) ==> rope_char_to_line(rope_chars(*rope), index)
            == line,
{
    rope.line_to_char(line)
}

/// `Rope::line(line).len_chars()`: the length of a line; the next line starts
/// where it ends. `line` panics for an index past the last line.
#[verifier::external_body]
pub(crate) fn rope_line_len_of(rope: &Rope, line: usize) -> (len: usize)
    requires
        line < rope_len_lines(rope_chars(*rope)),
    ensures
        len == rope_line_len(rope_chars(*rope), line),
        rope_line_to_char(rope_chars(*rope), line) + len <= rope_chars(*rope).len(),
        rope_line_to_char(rope_chars(*rope), line) + len == rope_line_to_char(
            rope_chars(*rope),
            (line + 1) as usize,
        ),
{
    rope.line(line).len_chars()
}

} // verus!
