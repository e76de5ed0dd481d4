//! The rope that holds a buffer's text. The rope is `ropey::Rope`; this module
//! names its contents and states, for each of its methods that the buffer
//! calls, what the method does to them.

use crate::lines::{
    line_count, line_of, line_start, line_text, with_inserted, with_removed,
};
use ropey::Rope;
use vstd::prelude::*;
use vstd::utf8::encode_utf8;

verus! {

/// `ropey::Rope`, the text container. Nothing of its inside is known here.
#[verifier::external_type_specification]
#[verifier::external_body]
pub struct ExRope(ropey::Rope);

/// The characters that a rope holds, in order.
pub uninterp spec fn rope_text(rope: Rope) -> Seq<char>;

/// `Rope::new`: a rope that holds no text.
#[verifier::external_body]
pub(crate) fn rope_new() -> (rope: Rope)
    ensures
        rope_text(rope) == Seq::<char>::empty(),
{
    Rope::new()
}

/// `Rope::from_str`: a rope that holds the given text.
#[verifier::external_body]
pub(crate) fn rope_from_str(text: &str) -> (rope: Rope)
    ensures
        rope_text(rope) == text@,
{
    Rope::from_str(text)
}

/// `Rope::clone`: a rope that holds the same text.
#[verifier::external_body]
pub(crate) fn rope_clone(rope: &Rope) -> (copy: Rope)
    ensures
        rope_text(copy) == rope_text(*rope),
{
    rope.clone()
}

/// `Rope::len_chars`: the number of characters held.
#[verifier::external_body]
pub(crate) fn rope_len_chars(rope: &Rope) -> (n: usize)
    ensures
        n == rope_text(*rope).len(),
{
    rope.len_chars()
}

/// `Rope::len_bytes`: the number of bytes that the text takes in UTF-8.
#[verifier::external_body]
pub(crate) fn rope_len_bytes(rope: &Rope) -> (n: usize)
    ensures
        n == encode_utf8(rope_text(*rope)).len(),
{
    rope.len_bytes()
}

/// `Rope::len_lines`: the number of lines, one more than there are line
/// breaks.
#[verifier::external_body]
pub(crate) fn rope_len_lines(rope: &Rope) -> (n: usize)
    ensures
        n == line_count(rope_text(*rope)),
{
    rope.len_lines()
}

/// `Rope::line_to_char`: the index of the first character of a line; one past
/// the last line gives the length of the text. The method panics on a line
/// index beyond that.
#[verifier::external_body]
pub(crate) fn rope_line_to_char(rope: &Rope, line: usize) -> (idx: usize)
    requires
        line <= line_count(rope_text(*rope)),
    ensures
        idx == line_start(rope_text(*rope), line as int),
{
    rope.line_to_char(line)
}

/// `Rope::char_to_line`: the line of a character index, which is the number
/// of line breaks before it. The method panics on an index beyond the length
/// of the text.
#[verifier::external_body]
pub(crate) fn rope_char_to_line(rope: &Rope, idx: usize) -> (line: usize)
    requires
        idx <= rope_text(*rope).len(),
    ensures
        line == line_of(rope_text(*rope), idx as int),
{
    rope.char_to_line(idx)
}

/// `Rope::line`, as a string: the text of a line with its line break. The
/// method panics on a line that the text does not have.
#[verifier::external_body]
pub(crate) fn rope_line(rope: &Rope, line: usize) -> (text: String)
    requires
        line < line_count(rope_text(*rope)),
    ensures
        text@ == line_text(rope_text(*rope), line as int),
{
    rope.line(line).to_string()
}

/// `Rope::slice`, as a string: the characters from `from` up to `to`. The
/// method panics on a range that is reversed or ends beyond the text.
#[verifier::external_body]
pub(crate) fn rope_slice(rope: &Rope, from: usize, to: usize) -> (text: String)
    requires
        from <= to <= rope_text(*rope).len(),
    ensures
        text@ == rope_text(*rope).subrange(from as int, to as int),
{
    rope.slice(from..to).to_string()
}

/// The whole text of a rope as a string.
#[verifier::external_body]
pub(crate) fn rope_to_string(rope: &Rope) -> (text: String)
    ensures
        text@ == rope_text(*rope),
{
    String::from(rope)
}

/// `Rope::insert`: puts `text` in at character index `at`. The method panics
/// on an index beyond the length of the text.
#[verifier::external_body]
pub(crate) fn rope_insert(rope: &mut Rope, at: usize, text: &str)
    requires
        at <= rope_text(*old(rope)).len(),
    ensures
        rope_text(*final(rope)) == with_inserted(rope_text(*old(rope)), at as int, text@),
{
    rope.insert(at, text)
}

/// `Rope::remove`: takes out the characters from `from` up to `to`. The
/// method panics on a range that is reversed or ends beyond the text.
#[verifier::external_body]
pub(crate) fn rope_remove(rope: &mut Rope, from: usize, to: usize)
    requires
        from <= to <= rope_text(*old(rope)).len(),
    ensures
        rope_text(*final(rope)) == with_removed(rope_text(*old(rope)), from as int, to as int),
{
    rope.remove(from..to)
}

} // verus!
