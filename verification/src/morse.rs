//! The codec: text to codes, and codes back to text or dot/dash notation.

use vstd::prelude::*;
use vstd::std_specs::iter::IteratorSpec;
use crate::bounded::{
    line_chars, line_new, line_push, notation_chars, notation_new, notation_push, pattern_chars,
    pattern_new, pattern_push, utf8_size, utf8_width,
};
use crate::morse::code::{
    decode, encode, has_symbol, is_symbol, law_round_trip, lower, symbol_of, Code, Mark,
};
use crate::{BUFFER_LENGTH, NOTATION_LENGTH, PATTERN_LENGTH};

pub mod code;

verus! {

/// The buffer that a text is encoded into: one code per character, in
/// order, for the first `BUFFER_LENGTH` characters, and `Code::Blank` in the
/// slots that are left.
pub open spec fn encoded(text: Seq<char>) -> Seq<Code> {
    Seq::new(
        BUFFER_LENGTH as nat,
        |i: int| if i < text.len() { encode(text[i]) } else { Code::Blank },
    )
}

/// What a code adds to the decoded text: its character, or nothing for
/// `Code::Blank`.
pub open spec fn text_piece(code: Code) -> Seq<char> {
    match code {
        Code::Blank => Seq::empty(),
        _ => seq![decode(code)],
    }
}

/// The decoded text of a sequence of codes.
pub open spec fn decoded_text(codes: Seq<Code>) -> Seq<char>
    decreases codes.len(),
{
    if codes.len() == 0 {
        Seq::empty()
    } else {
        decoded_text(codes.drop_last()) + text_piece(codes.last())
    }
}

/// Converts a text to a code buffer. Characters past the capacity of the
/// buffer are dropped.
pub fn string_to_codes(string: &str) -> (codes: [Code; BUFFER_LENGTH])
    ensures
        codes@ == encoded(string@),
{
    broadcast use vstd::string::group_string_axioms;

    let mut codes = [Code::Blank; BUFFER_LENGTH];
    let mut chars = string.chars();
    let mut index: usize = 0;
    assert(string@.skip(0) =~= string@);
    while index < BUFFER_LENGTH
        invariant
            index <= BUFFER_LENGTH,
            index <= string@.len(),
            chars.remaining() == string@.skip(index as int),
            forall|i: int| 0 <= i < index ==> codes@[i] == encode(string@[i]),
            forall|i: int| index <= i < BUFFER_LENGTH ==> codes@[i] == Code::Blank,
        ensures
            index == BUFFER_LENGTH || index == string@.len(),
            index <= string@.len(),
            forall|i: int| 0 <= i < index ==> codes@[i] == encode(string@[i]),
            forall|i: int| index <= i < BUFFER_LENGTH ==> codes@[i] == Code::Blank,
        decreases BUFFER_LENGTH - index,
    {
        match chars.next() {
            Some(character) => {
                codes[index] = Code::char_to_code(character);
                assert(string@.skip(index as int).drop_first() =~= string@.skip(index + 1));
                index += 1;
            },
            None => {
                break;
            },
        }
    }
    assert(codes@ =~= encoded(string@));
    codes
}

/// A text of table characters that fits in a buffer comes back from the
/// buffer as it went in, in lower case.
pub proof fn law_text_round_trip(text: Seq<char>)
    requires
        text.len() <= BUFFER_LENGTH,
        forall|i: int| 0 <= i < text.len() ==> text[i] == ' ' || is_symbol(lower(text[i])),
    ensures
        decoded_text(encoded(text)) == Seq::new(text.len(), |i: int| lower(text[i])),
{
    lemma_decoded_prefix(text, BUFFER_LENGTH as int);
    assert(encoded(text).take(BUFFER_LENGTH as int) =~= encoded(text));
}

/// The decoded text of the first `k` codes of an encoded text.
proof fn lemma_decoded_prefix(text: Seq<char>, k: int)
    requires
        text.len() <= BUFFER_LENGTH,
        0 <= k <= BUFFER_LENGTH,
        forall|i: int| 0 <= i < text.len() ==> text[i] == ' ' || is_symbol(lower(text[i])),
    ensures
        decoded_text(encoded(text).take(k)) == Seq::new(
            if k <= text.len() {
                k as nat
            } else {
                text.len()
            },
            |i: int| lower(text[i]),
        ),
    decreases k,
{
    let codes = encoded(text).take(k);
    if k == 0 {
        assert(decoded_text(codes) =~= Seq::new(0, |i: int| lower(text[i])));
    } else {
        lemma_decoded_prefix(text, k - 1);
        assert(codes.drop_last() =~= encoded(text).take(k - 1));
        if k <= text.len() {
            law_round_trip(text[k - 1]);
            assert(decoded_text(codes) =~= Seq::new(k as nat, |i: int| lower(text[i])));
        }
    }
}

/// The decoded character of any code is plain ASCII.
proof fn lemma_decode_is_ascii(code: Code)
    ensures
        (decode(code) as u32) < 0x80,
        utf8_width(decode(code)) == 1,
{
    if let Code::Letter(slots) = code {
        if has_symbol(slots@) {
            assert(is_symbol(symbol_of(slots@)));
        }
    }
}

/// Converts a code buffer to the text it stands for: one character per code,
/// `%` for a code that stands for none, nothing for `Code::Blank`. The text
/// of a buffer always fits.
pub fn codes_to_string(codes: &[Code; BUFFER_LENGTH]) -> (text: heapless::String<BUFFER_LENGTH>)
    ensures
        line_chars(text) == decoded_text(codes@),
{
    let mut text = line_new();
    let mut index: usize = 0;
    assert(codes@.take(0) =~= Seq::<Code>::empty());
    while index < BUFFER_LENGTH
        invariant
            index <= BUFFER_LENGTH,
            line_chars(text) == decoded_text(codes@.take(index as int)),
            utf8_size(line_chars(text)) == line_chars(text).len(),
            line_chars(text).len() <= index,
        decreases BUFFER_LENGTH - index,
    {
        let code = codes[index];
        proof {
            assert(codes@.take(index + 1).drop_last() =~= codes@.take(index as int));
            lemma_decode_is_ascii(code);
        }
        match code {
            Code::Blank => {},
            _ => {
                let ghost before = line_chars(text);
                let pushed = line_push(&mut text, code.to_char());
                assert(pushed);
                assert(line_chars(text).drop_last() =~= before);
            },
        }
        index += 1;
    }
    assert(codes@.take(BUFFER_LENGTH as int) =~= codes@);
    text
}

/// The dots and dashes of a letter's slots, in order; blank slots add nothing.
pub open spec fn mark_chars(slots: Seq<Mark>) -> Seq<char>
    decreases slots.len(),
{
    if slots.len() == 0 {
        Seq::empty()
    } else {
        mark_chars(slots.drop_last()) + match slots.last() {
            Mark::Dot => seq!['.'],
            Mark::Dash => seq!['-'],
            Mark::Blank => Seq::empty(),
        }
    }
}

/// What a code adds to the dot/dash notation: a letter its marks and one
/// space, a word boundary two spaces, an error `%`, and `Code::Blank` nothing.
pub open spec fn marks_piece(code: Code) -> Seq<char> {
    match code {
        Code::Letter(slots) => mark_chars(slots@) + seq![' '],
        Code::Space => seq![' ', ' '],
        Code::Error => seq!['%'],
        Code::Blank => Seq::empty(),
    }
}

/// The dot/dash notation of a sequence of codes, before its ends are trimmed.
pub open spec fn marks_text(codes: Seq<Code>) -> Seq<char>
    decreases codes.len(),
{
    if codes.len() == 0 {
        Seq::empty()
    } else {
        marks_text(codes.drop_last()) + marks_piece(codes.last())
    }
}

/// `text` without the spaces at its start.
pub open spec fn trim_start(text: Seq<char>) -> Seq<char>
    decreases text.len(),
{
    if text.len() > 0 && text.first() == ' ' {
        trim_start(text.drop_first())
    } else {
        text
    }
}

/// `text` without the spaces at its end.
pub open spec fn trim_end(text: Seq<char>) -> Seq<char>
    decreases text.len(),
{
    if text.len() > 0 && text.last() == ' ' {
        trim_end(text.drop_last())
    } else {
        text
    }
}

/// `text` without the spaces at its two ends. Spaces inside stay.
pub open spec fn trimmed(text: Seq<char>) -> Seq<char> {
    trim_end(trim_start(text))
}

/// Whether a text holds only characters of the dot/dash notation.
spec fn is_notation(text: Seq<char>) -> bool {
    forall|i: int|
        0 <= i < text.len() ==> text[i] == '.' || text[i] == '-' || text[i] == ' ' || text[i]
            == '%'
}

proof fn lemma_trim_start(text: Seq<char>, start: int)
    requires
        0 <= start <= text.len(),
        forall|i: int| 0 <= i < start ==> text[i] == ' ',
        start == text.len() || text[start] != ' ',
    ensures
        trim_start(text) == text.subrange(start, text.len() as int),
    decreases start,
{
    if start == 0 {
        assert(text.subrange(0, text.len() as int) =~= text);
    } else {
        lemma_trim_start(text.drop_first(), start - 1);
        assert(text.drop_first().subrange(start - 1, text.len() - 1) =~= text.subrange(
            start,
            text.len() as int,
        ));
    }
}

proof fn lemma_trim_end(text: Seq<char>, end: int)
    requires
        0 <= end <= text.len(),
        forall|i: int| end <= i < text.len() ==> text[i] == ' ',
        end == 0 || text[end - 1] != ' ',
    ensures
        trim_end(text) == text.subrange(0, end),
    decreases text.len() - end,
{
    if end == text.len() {
        assert(text.subrange(0, end) =~= text);
    } else {
        lemma_trim_end(text.drop_last(), end);
        assert(text.drop_last().subrange(0, end) =~= text.subrange(0, end));
    }
}

proof fn lemma_utf8_size_of_notation(text: Seq<char>)
    requires
        is_notation(text),
    ensures
        utf8_size(text) == text.len(),
    decreases text.len(),
{
    if text.len() > 0 {
        lemma_utf8_size_of_notation(text.drop_last());
    }
}

/// Finds where the trimmed text starts and ends in `text`.
fn trim_bounds(text: &Vec<char>) -> (bounds: (usize, usize))
    ensures
        bounds.0 <= bounds.1 <= text@.len(),
        trimmed(text@) == text@.subrange(bounds.0 as int, bounds.1 as int),
{
    let mut start: usize = 0;
    while start < text.len() && text[start] == ' '
        invariant
            start <= text@.len(),
            forall|i: int| 0 <= i < start ==> text@[i] == ' ',
        decreases text@.len() - start,
    {
        start += 1;
    }
    let mut end: usize = text.len();
    while end > start && text[end - 1] == ' '
        invariant
            start <= end <= text@.len(),
            forall|i: int| end <= i < text@.len() ==> text@[i] == ' ',
        decreases end,
    {
        end -= 1;
    }
    proof {
        let rest = text@.subrange(start as int, text@.len() as int);
        lemma_trim_start(text@, start as int);
        lemma_trim_end(rest, end - start);
        assert(rest.subrange(0, end - start) =~= text@.subrange(start as int, end as int));
    }
    (start, end)
}

/// Adds the dot/dash notation of one code to `rendering`.
fn render_code(rendering: &mut Vec<char>, code: Code)
    requires
        is_notation(old(rendering)@),
    ensures
        final(rendering)@ == old(rendering)@ + marks_piece(code),
        is_notation(final(rendering)@),
        final(rendering)@.len() <= old(rendering)@.len() + 6,
{
    let ghost before = rendering@;
    match code {
        Code::Letter(slots) => {
            let mut i: usize = 0;
            assert(slots@.take(0) =~= Seq::<Mark>::empty());
            while i < 5
                invariant
                    i <= 5,
                    rendering@ == before + mark_chars(slots@.take(i as int)),
                    rendering@.len() <= before.len() + i,
                    is_notation(rendering@),
                decreases 5 - i,
            {
                proof {
                    assert(slots@.take(i + 1).drop_last() =~= slots@.take(i as int));
                }
                match slots[i] {
                    Mark::Dot => {
                        rendering.push('.');
                    },
                    Mark::Dash => {
                        rendering.push('-');
                    },
                    Mark::Blank => {},
                }
                assert(rendering@ =~= before + mark_chars(slots@.take(i + 1)));
                i += 1;
            }
            assert(slots@.take(5) =~= slots@);
            rendering.push(' ');
            assert(rendering@ =~= before + marks_piece(code));
        },
        Code::Space => {
            rendering.push(' ');
            rendering.push(' ');
            assert(rendering@ =~= before + marks_piece(code));
        },
        Code::Error => {
            rendering.push('%');
            assert(rendering@ =~= before + marks_piece(code));
        },
        Code::Blank => {
            assert(rendering@ =~= before + marks_piece(code));
        },
    }
}

/// Converts a code buffer to dot/dash notation: the marks of each letter
/// followed by a space, two spaces for a word boundary, `%` for an error,
/// and the spaces at the two ends of the whole taken off. The notation of a
/// buffer always fits.
pub fn to_marks(codes: &[Code; BUFFER_LENGTH]) -> (text: heapless::String<NOTATION_LENGTH>)
    ensures
        notation_chars(text) == trimmed(marks_text(codes@)),
{
    let mut rendering: Vec<char> = Vec::new();
    let mut index: usize = 0;
    assert(codes@.take(0) =~= Seq::<Code>::empty());
    while index < BUFFER_LENGTH
        invariant
            index <= BUFFER_LENGTH,
            rendering@ == marks_text(codes@.take(index as int)),
            rendering@.len() <= 6 * index,
            is_notation(rendering@),
        decreases BUFFER_LENGTH - index,
    {
        proof {
            assert(codes@.take(index + 1).drop_last() =~= codes@.take(index as int));
        }
        render_code(&mut rendering, codes[index]);
        index += 1;
    }
    assert(codes@.take(BUFFER_LENGTH as int) =~= codes@);
    let (start, end) = trim_bounds(&rendering);
    let mut text = notation_new();
    let mut at: usize = start;
    while at < end
        invariant
            start <= at <= end <= rendering@.len() <= NOTATION_LENGTH,
            is_notation(rendering@),
            notation_chars(text) == rendering@.subrange(start as int, at as int),
        decreases end - at,
    {
        proof {
            lemma_utf8_size_of_notation(notation_chars(text));
        }
        let pushed = notation_push(&mut text, rendering[at]);
        assert(pushed);
        assert(notation_chars(text) =~= rendering@.subrange(start as int, at + 1));
        at += 1;
    }
    text
}

impl Code {
    /// Converts one code to dot/dash notation: the marks of a letter, `%`
    /// for an error, and nothing for a word boundary or `Code::Blank`. The
    /// notation of a code always fits.
    pub fn to_marks(self) -> (text: heapless::String<PATTERN_LENGTH>)
        ensures
            pattern_chars(text) == trimmed(marks_piece(self)),
    {
        let mut rendering: Vec<char> = Vec::new();
        render_code(&mut rendering, self);
        assert(rendering@ =~= marks_piece(self));
        let (start, end) = trim_bounds(&rendering);
        let mut text = pattern_new();
        let mut at: usize = start;
        while at < end
            invariant
                start <= at <= end <= rendering@.len() <= 6,
                is_notation(rendering@),
                pattern_chars(text) == rendering@.subrange(start as int, at as int),
            decreases end - at,
        {
            proof {
                lemma_utf8_size_of_notation(pattern_chars(text));
            }
            let pushed = pattern_push(&mut text, rendering[at]);
            assert(pushed);
            assert(pattern_chars(text) =~= rendering@.subrange(start as int, at + 1));
            at += 1;
        }
        text
    }
}

} // verus!
