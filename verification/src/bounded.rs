//! The fixed-capacity containers of `heapless` that hold this crate's buffers.
//!
//! Nothing in this file is proved. Each contract restates what the `heapless`
//! source does, over a name for what the container holds; the rest of the
//! crate is verified against these contracts.

use vstd::prelude::*;
use crate::morse::code::{Code, Mark};
use crate::{BUFFER_LENGTH, NOTATION_LENGTH, PATTERN_LENGTH};

verus! {

#[verifier::external_type_specification]
#[verifier::external_body]
#[verifier::reject_recursive_types(T)]
pub struct ExFixedVec<T, const N: usize>(heapless::Vec<T, N>);

#[verifier::external_type_specification]
#[verifier::external_body]
pub struct ExFixedString<const N: usize>(heapless::String<N>);

/// The codes that a code buffer holds, oldest first.
pub uninterp spec fn held_codes(buffer: heapless::Vec<Code, BUFFER_LENGTH>) -> Seq<Code>;

/// The marks that a letter under construction holds, oldest first.
pub uninterp spec fn held_marks(letter: heapless::Vec<Mark, 5>) -> Seq<Mark>;

/// `heapless::Vec::new`: a buffer that holds nothing.
#[verifier::external_body]
pub(crate) fn codes_new() -> (buffer: heapless::Vec<Code, BUFFER_LENGTH>)
    ensures
        held_codes(buffer) == Seq::<Code>::empty(),
{
    heapless::Vec::new()
}

/// `heapless::Vec::push`: appends the code while fewer than `BUFFER_LENGTH`
/// are held; a full buffer stays as it was and the code comes back.
#[verifier::external_body]
pub(crate) fn codes_push(
    buffer: &mut heapless::Vec<Code, BUFFER_LENGTH>,
    code: Code,
) -> (rejected: Option<Code>)
    ensures
        rejected is None <==> held_codes(*old(buffer)).len() < BUFFER_LENGTH,
        rejected is None ==> held_codes(*final(buffer)) == held_codes(*old(buffer)).push(code),
        rejected is Some ==> held_codes(*final(buffer)) == held_codes(*old(buffer)),
        rejected is Some ==> rejected == Some(code),
{
    buffer.push(code).err()
}

/// `heapless::Vec::as_slice`: the held codes as a slice. The buffer never
/// holds more than its capacity of `BUFFER_LENGTH`.
#[verifier::external_body]
pub(crate) fn codes_as_slice(buffer: &heapless::Vec<Code, BUFFER_LENGTH>) -> (items: &[Code])
    ensures
        items@ == held_codes(*buffer),
        items@.len() <= BUFFER_LENGTH,
{
    buffer.as_slice()
}

/// `heapless::Vec::into_array`: the held codes as an array, when there are
/// exactly `BUFFER_LENGTH` of them; otherwise the buffer comes back as the
/// error.
#[verifier::external_body]
pub(crate) fn codes_into_array(buffer: heapless::Vec<Code, BUFFER_LENGTH>) -> (array: Result<
    [Code; BUFFER_LENGTH],
    heapless::Vec<Code, BUFFER_LENGTH>,
>)
    ensures
        array is Ok <==> held_codes(buffer).len() == BUFFER_LENGTH,
        array matches Ok(codes) ==> codes@ == held_codes(buffer),
        array matches Err(back) ==> held_codes(back) == held_codes(buffer),
{
    buffer.into_array()
}

/// `heapless::Vec::new`: a letter that holds no mark.
#[verifier::external_body]
pub(crate) fn marks_new() -> (letter: heapless::Vec<Mark, 5>)
    ensures
        held_marks(letter) == Seq::<Mark>::empty(),
{
    heapless::Vec::new()
}

/// `heapless::Vec::push`: appends the mark while fewer than 5 are held;
/// a full letter stays as it was and the mark comes back.
#[verifier::external_body]
pub(crate) fn marks_push(
    letter: &mut heapless::Vec<Mark, 5>,
    mark: Mark,
) -> (rejected: Option<Mark>)
    ensures
        rejected is None <==> held_marks(*old(letter)).len() < 5,
        rejected is None ==> held_marks(*final(letter)) == held_marks(*old(letter)).push(mark),
        rejected is Some ==> held_marks(*final(letter)) == held_marks(*old(letter)),
        rejected is Some ==> rejected == Some(mark),
{
    letter.push(mark).err()
}

/// `heapless::Vec::as_slice`: the held marks as a slice. The letter never
/// holds more than its capacity of 5.
#[verifier::external_body]
pub(crate) fn marks_as_slice(letter: &heapless::Vec<Mark, 5>) -> (items: &[Mark])
    ensures
        items@ == held_marks(*letter),
        items@.len() <= 5,
{
    letter.as_slice()
}

/// `heapless::Vec::into_array`: the held marks as an array, when there are
/// exactly 5 of them; otherwise the letter comes back as the error.
#[verifier::external_body]
pub(crate) fn marks_into_array(letter: heapless::Vec<Mark, 5>) -> (array: Result<
    [Mark; 5],
    heapless::Vec<Mark, 5>,
>)
    ensures
        array is Ok <==> held_marks(letter).len() == 5,
        array matches Ok(marks) ==> marks@ == held_marks(letter),
        array matches Err(back) ==> held_marks(back) == held_marks(letter),
{
    letter.into_array()
}

/// Number of bytes that a character takes in UTF-8.
pub open spec fn utf8_width(c: char) -> nat {
    if (c as u32) < 0x80 {
        1
    } else if (c as u32) < 0x800 {
        2
    } else if (c as u32) < 0x1_0000 {
        3
    } else {
        4
    }
}

/// Number of bytes that a text takes in UTF-8.
pub open spec fn utf8_size(text: Seq<char>) -> nat
    decreases text.len(),
{
    if text.len() == 0 {
        0
    } else {
        utf8_size(text.drop_last()) + utf8_width(text.last())
    }
}

/// The characters that a line of text holds. Its capacity is `BUFFER_LENGTH`
/// bytes.
pub uninterp spec fn line_chars(text: heapless::String<BUFFER_LENGTH>) -> Seq<char>;

/// The characters that a buffer's dot/dash notation holds. Its capacity is
/// `NOTATION_LENGTH` bytes.
pub uninterp spec fn notation_chars(text: heapless::String<NOTATION_LENGTH>) -> Seq<char>;

/// The characters that one code's dot/dash notation holds. Its capacity is
/// `PATTERN_LENGTH` bytes.
pub uninterp spec fn pattern_chars(text: heapless::String<PATTERN_LENGTH>) -> Seq<char>;

/// `heapless::String::new`: a text without characters.
#[verifier::external_body]
pub(crate) fn line_new() -> (text: heapless::String<BUFFER_LENGTH>)
    ensures
        line_chars(text) == Seq::<char>::empty(),
{
    heapless::String::new()
}

/// `heapless::String::push`: appends the character if its UTF-8 bytes still
/// fit in the `BUFFER_LENGTH` bytes of the text; otherwise the text stays as
/// it was.
#[verifier::external_body]
pub(crate) fn line_push(text: &mut heapless::String<BUFFER_LENGTH>, c: char) -> (pushed: bool)
    ensures
        pushed <==> utf8_size(line_chars(*old(text))) + utf8_width(c) <= BUFFER_LENGTH,
        pushed ==> line_chars(*final(text)) == line_chars(*old(text)).push(c),
        !pushed ==> line_chars(*final(text)) == line_chars(*old(text)),
{
    text.push(c).is_ok()
}

/// `heapless::String::new`: a text without characters.
#[verifier::external_body]
pub(crate) fn notation_new() -> (text: heapless::String<NOTATION_LENGTH>)
    ensures
        notation_chars(text) == Seq::<char>::empty(),
{
    heapless::String::new()
}

/// `heapless::String::push`: appends the character if its UTF-8 bytes still
/// fit in the `NOTATION_LENGTH` bytes of the text; otherwise the text stays
/// as it was.
#[verifier::external_body]
pub(crate) fn notation_push(
    text: &mut heapless::String<NOTATION_LENGTH>,
    c: char,
) -> (pushed: bool)
    ensures
        pushed <==> utf8_size(notation_chars(*old(text))) + utf8_width(c) <= NOTATION_LENGTH,
        pushed ==> notation_chars(*final(text)) == notation_chars(*old(text)).push(c),
        !pushed ==> notation_chars(*final(text)) == notation_chars(*old(text)),
{
    text.push(c).is_ok()
}

/// `heapless::String::new`: a text without characters.
#[verifier::external_body]
pub(crate) fn pattern_new() -> (text: heapless::String<PATTERN_LENGTH>)
    ensures
        pattern_chars(text) == Seq::<char>::empty(),
{
    heapless::String::new()
}

/// `heapless::String::push`: appends the character if its UTF-8 bytes still
/// fit in the `PATTERN_LENGTH` bytes of the text; otherwise the text stays as
/// it was.
#[verifier::external_body]
pub(crate) fn pattern_push(text: &mut heapless::String<PATTERN_LENGTH>, c: char) -> (pushed: bool)
    ensures
        pushed <==> utf8_size(pattern_chars(*old(text))) + utf8_width(c) <= PATTERN_LENGTH,
        pushed ==> pattern_chars(*final(text)) == pattern_chars(*old(text)).push(c),
        !pushed ==> pattern_chars(*final(text)) == pattern_chars(*old(text)),
{
    text.push(c).is_ok()
}

} // verus!
