//! The text storage: a `ropey::Rope`, seen by the verifier as the sequence
//! of characters it holds.
//!
//! The functions of this module that call the rope state what it does
//! without proof; the rest of the library is verified against these
//! statements. Lines and byte offsets are defined here over the characters
//! alone.

use ropey::Rope;
use vstd::prelude::*;
use vstd::utf8::encode_utf8;

verus! {

/// `ropey::Rope`, of which the verifier sees nothing but what the items
/// below state.
#[verifier::external_type_specification]
#[verifier::external_body]
pub struct ExRope(ropey::Rope);

/// The characters that a rope holds, in order.
pub uninterp spec fn rope_text(rope: Rope) -> Seq<char>;

/// Whether `c` is a character that ends a line: line feed, vertical tab,
/// form feed, carriage return, next line, line separator or paragraph
/// separator.
pub open spec fn is_line_break_char(c: char) -> bool {
    c == '\n' || c == '\u{0B}' || c == '\u{0C}' || c == '\r' || c == '\u{85}' || c == '\u{2028}'
        || c == '\u{2029}'
}

/// Whether a line break of `text` ends just before the position `index`:
/// the character before it ends a line, and is not the carriage return of
/// a carriage return and line feed, which are one line break together.
pub open spec fn break_ends_at(text: Seq<char>, index: int) -> bool {
    &&& 0 < index <= text.len()
    &&& is_line_break_char(text[index - 1])
    &&& !(text[index - 1] == '\r' && index < text.len() && text[index] == '\n')
}

/// The number of line breaks of `text` that end at the position `index` or
/// before it. This is the index of the line that the character at `index`
/// stands in.
pub open spec fn breaks_before(text: Seq<char>, index: int) -> nat
    decreases index,
{
    if index <= 0 {
        0
    } else if break_ends_at(text, index) {
        breaks_before(text, index - 1) + 1
    } else {
        breaks_before(text, index - 1)
    }
}

/// The number of lines of `text`: one more than it has line breaks.
pub open spec fn line_count(text: Seq<char>) -> nat {
    breaks_before(text, text.len() as int) + 1
}

/// Whether line `line_index` of `text` starts at the position `index`:
/// the position is the start of the text or the end of a line break, and
/// `line_index` line breaks end at it or before it.
pub open spec fn is_line_start(text: Seq<char>, line_index: nat, index: int) -> bool {
    &&& 0 <= index <= text.len()
    &&& index == 0 || break_ends_at(text, index)
    &&& breaks_before(text, index) == line_index
}

/// The position at which line `line_index` of `text` starts. The line one
/// past the last starts at the end of the text, and there is no start for
/// a line beyond that.
pub open spec fn line_start(text: Seq<char>, line_index: nat) -> Option<int> {
    if line_index < line_count(text) {
        Some(choose|index: int| is_line_start(text, line_index, index))
    } else if line_index == line_count(text) {
        Some(text.len() as int)
    } else {
        None
    }
}

/// The characters of line `line_index` of `text`, its line break
/// included; `None` for a line that the text does not have.
pub open spec fn line_text(text: Seq<char>, line_index: nat) -> Option<Seq<char>> {
    if line_index < line_count(text) {
        Some(text.subrange(line_start(text, line_index)->0, line_start(text, line_index + 1)->0))
    } else {
        None
    }
}

/// The count of line breaks does not fall as the position moves on.
pub proof fn lemma_breaks_monotone(text: Seq<char>, from: int, to: int)
    requires
        from <= to,
    ensures
        breaks_before(text, from) <= breaks_before(text, to),
    decreases to - from,
{
    if from < to {
        lemma_breaks_monotone(text, from, to - 1);
    }
}

/// A line starts at one position only, and `line_start` names it.
pub proof fn lemma_line_start(text: Seq<char>, line_index: nat, index: int)
    requires
        is_line_start(text, line_index, index),
    ensures
        line_index < line_count(text),
        line_start(text, line_index) == Some(index),
{
    lemma_breaks_monotone(text, index, text.len() as int);
    let chosen = choose|i: int| is_line_start(text, line_index, i);
    if chosen < index {
        lemma_breaks_monotone(text, chosen, index - 1);
    } else if index < chosen {
        lemma_breaks_monotone(text, index, chosen - 1);
    }
}

/// The number of bytes that the first `char_index` characters of `text`
/// take in UTF-8.
pub open spec fn byte_offset(text: Seq<char>, char_index: int) -> nat {
    encode_utf8(text.subrange(0, char_index)).len()
}

/// The number of bytes that `text` takes in UTF-8.
pub open spec fn byte_len(text: Seq<char>) -> nat {
    encode_utf8(text).len()
}

/// Whether `char_index` is the index of the character that the byte at
/// `byte_index` belongs to (one past the last character for the byte one
/// past the end).
pub open spec fn is_char_of_byte(text: Seq<char>, byte_index: int, char_index: int) -> bool {
    &&& 0 <= char_index <= text.len()
    &&& byte_offset(text, char_index) <= byte_index
    &&& char_index < text.len() ==> byte_index < byte_offset(text, char_index + 1)
}

/// `text` with the characters from `start` up to `end` replaced by `new`.
pub open spec fn splice(text: Seq<char>, start: int, end: int, new: Seq<char>) -> Seq<char> {
    text.subrange(0, start) + new + text.subrange(end, text.len() as int)
}

/// Calls `Rope::from_str`: the new rope holds the characters of `text`.
#[verifier::external_body]
pub(crate) fn rope_from_str(text: &str) -> (rope: Rope)
    ensures
        rope_text(rope) == text@,
{
    Rope::from_str(text)
}

/// Calls `Rope::clone`: the copy holds the same characters.
#[verifier::external_body]
pub(crate) fn rope_clone(rope: &Rope) -> (copy: Rope)
    ensures
        rope_text(copy) == rope_text(*rope),
{
    rope.clone()
}

/// Calls `Rope::len_chars`: the number of characters held.
#[verifier::external_body]
pub(crate) fn rope_len_chars(rope: &Rope) -> (len: usize)
    ensures
        len == rope_text(*rope).len(),
{
    rope.len_chars()
}

/// Calls `Rope::to_string`: a string of the characters held.
#[verifier::external_body]
pub(crate) fn rope_to_string(rope: &Rope) -> (text: String)
    ensures
        text@ == rope_text(*rope),
{
    rope.to_string()
}

/// Calls `Rope::try_char_to_byte`: the byte offset of a character index up
/// to the length, an error beyond it.
#[verifier::external_body]
pub(crate) fn rope_try_char_to_byte(rope: &Rope, char_index: usize) -> (res: Option<usize>)
    ensures
        char_index <= rope_text(*rope).len() ==> res is Some && res->0 == byte_offset(
            rope_text(*rope),
            char_index as int,
        ),
        char_index > rope_text(*rope).len() ==> res is None,
{
    rope.try_char_to_byte(char_index).ok()
}

/// Calls `Rope::try_byte_to_char`: for a byte offset up to the length in
/// bytes, the index of the character that the byte belongs to; an error
/// beyond it.
#[verifier::external_body]
pub(crate) fn rope_try_byte_to_char(rope: &Rope, byte_index: usize) -> (res: Option<usize>)
    ensures
        byte_index <= byte_len(rope_text(*rope)) ==> res is Some && is_char_of_byte(
            rope_text(*rope),
            byte_index as int,
            res->0 as int,
        ),
        byte_index > byte_len(rope_text(*rope)) ==> res is None,
{
    rope.try_byte_to_char(byte_index).ok()
}

/// Calls `Rope::try_char_to_line`: for a character index up to the
/// length, the number of line breaks before it; an error beyond it.
#[verifier::external_body]
pub(crate) fn rope_try_char_to_line(rope: &Rope, char_index: usize) -> (res: Option<usize>)
    ensures
        char_index <= rope_text(*rope).len() ==> res is Some && res->0 == breaks_before(
            rope_text(*rope),
            char_index as int,
        ),
        char_index > rope_text(*rope).len() ==> res is None,
{
    rope.try_char_to_line(char_index).ok()
}

/// Calls `Rope::try_line_to_char`: the index of the first character of a
/// line, the length for the line index that equals the line count, an
/// error for a line index beyond that.
#[verifier::external_body]
pub(crate) fn rope_try_line_to_char(rope: &Rope, line_index: usize) -> (res: Option<usize>)
    ensures
        line_index < line_count(rope_text(*rope)) ==> res is Some && is_line_start(
            rope_text(*rope),
            line_index as nat,
            res->0 as int,
        ),
        line_index == line_count(rope_text(*rope)) ==> res is Some && res->0 == rope_text(
            *rope,
        ).len(),
        line_index > line_count(rope_text(*rope)) ==> res is None,
{
    rope.try_line_to_char(line_index).ok()
}

/// Calls `Rope::get_line`: the text of a line as a string, from the start
/// of the line to the start of the next; nothing for a line index at or
/// beyond the line count.
#[verifier::external_body]
pub(crate) fn rope_get_line(rope: &Rope, line_index: usize) -> (res: Option<String>)
    ensures
        line_index < line_count(rope_text(*rope)) ==> res is Some && Some(res->0@) == line_text(
            rope_text(*rope),
            line_index as nat,
        ),
        line_index >= line_count(rope_text(*rope)) ==> res is None,
{
    rope.get_line(line_index).map(|line| line.to_string())
}

/// Calls `Rope::slice` and turns the slice into a rope of its own: the
/// characters from `start` up to `end`.
#[verifier::external_body]
pub(crate) fn rope_slice(rope: &Rope, start: usize, end: usize) -> (part: Rope)
    requires
        start <= end <= rope_text(*rope).len(),
    ensures
        rope_text(part) == rope_text(*rope).subrange(start as int, end as int),
{
    Rope::from(rope.slice(start..end))
}

/// Calls `Rope::remove`: the characters from `start` up to `end` leave,
/// the rest stay in order.
#[verifier::external_body]
pub(crate) fn rope_remove(rope: &mut Rope, start: usize, end: usize)
    requires
        start <= end <= rope_text(*old(rope)).len(),
    ensures
        rope_text(*final(rope)) == rope_text(*old(rope)).subrange(0, start as int) + rope_text(
            *old(rope),
        ).subrange(end as int, rope_text(*old(rope)).len() as int),
{
    rope.remove(start..end)
}

/// Calls `Rope::insert`: the characters of `text` enter before the
/// character at `char_index`.
#[verifier::external_body]
pub(crate) fn rope_insert(rope: &mut Rope, char_index: usize, text: &str)
    requires
        char_index <= rope_text(*old(rope)).len(),
    ensures
        rope_text(*final(rope)) == rope_text(*old(rope)).subrange(0, char_index as int) + text@
            + rope_text(*old(rope)).subrange(
            char_index as int,
            rope_text(*old(rope)).len() as int,
        ),
{
    rope.insert(char_index, text)
}

} // verus!
