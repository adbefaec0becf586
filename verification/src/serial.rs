//! The line of typed text: how the bytes that arrive are gathered, when the
//! line is complete, and what text it amounts to.
//!
//! The transport itself is the caller's. It hands each chunk of bytes to
//! [`LineReader::accept`], echoes what was taken, and asks
//! [`LineReader::ending`] whether the line is complete.

use vstd::prelude::*;
use crate::bounded::{line_chars, line_new, line_push, utf8_size, utf8_width};
use crate::BUFFER_LENGTH;

verus! {

/// The byte of a line feed.
pub const LINE_FEED: u8 = 10;

/// The byte of a carriage return.
pub const CARRIAGE_RETURN: u8 = 13;

/// The byte of a space.
pub const SPACE: u8 = 32;

/// The two bytes that end a line: line feed and carriage return.
pub open spec fn is_line_end(byte: u8) -> bool {
    byte == LINE_FEED || byte == CARRIAGE_RETURN
}

/// The bytes with every line end replaced by 0.
pub open spec fn cleaned(bytes: Seq<u8>) -> Seq<u8> {
    Seq::new(bytes.len(), |i: int| if is_line_end(bytes[i]) { 0u8 } else { bytes[i] })
}

/// `text` with `c` at its end if the text then still fits in
/// `BUFFER_LENGTH` bytes of UTF-8; otherwise `text`.
pub open spec fn fit(text: Seq<char>, c: char) -> Seq<char> {
    if utf8_size(text) + utf8_width(c) <= BUFFER_LENGTH {
        text.push(c)
    } else {
        text
    }
}

/// The text that the bytes spell: each byte but 0 is a character, in order.
/// Characters that no longer fit are dropped.
pub open spec fn typed(bytes: Seq<u8>) -> Seq<char>
    decreases bytes.len(),
{
    if bytes.len() == 0 {
        Seq::empty()
    } else if bytes.last() == 0 {
        typed(bytes.drop_last())
    } else {
        fit(typed(bytes.drop_last()), bytes.last() as char)
    }
}

/// Whether the byte at `i` is no space and stands right before a 0.
pub open spec fn open_at(bytes: Seq<u8>, i: int) -> bool {
    0 <= i && i + 1 < bytes.len() && bytes[i + 1] == 0 && bytes[i] != SPACE
}

/// Whether some byte other than a space stands right before a 0.
pub open spec fn ends_open(bytes: Seq<u8>) -> bool {
    exists|i: int| open_at(bytes, i)
}

/// The text of a line buffer: what its bytes spell without the line ends,
/// and a space after it, for the replay to end on a word gap, where some
/// byte other than a space stands right before a 0.
pub open spec fn line_text(bytes: Seq<u8>) -> Seq<char> {
    if ends_open(cleaned(bytes)) {
        fit(typed(cleaned(bytes)), ' ')
    } else {
        typed(cleaned(bytes))
    }
}

/// Replaces every line feed and carriage return in the buffer by 0.
pub fn remove_control_chars(buffer: &mut [u8; BUFFER_LENGTH])
    ensures
        final(buffer)@ == cleaned(old(buffer)@),
{
    let mut index: usize = 0;
    while index < BUFFER_LENGTH
        invariant
            index <= BUFFER_LENGTH,
            forall|i: int| 0 <= i < index ==> buffer@[i] == cleaned(old(buffer)@)[i],
            forall|i: int| index <= i < BUFFER_LENGTH ==> buffer@[i] == old(buffer)@[i],
        decreases BUFFER_LENGTH - index,
    {
        if buffer[index] == LINE_FEED || buffer[index] == CARRIAGE_RETURN {
            buffer[index] = 0;
        }
        index += 1;
    }
    assert(buffer@ =~= cleaned(old(buffer)@));
}

/// The text that the bytes of the buffer spell, without any change to them.
pub fn typed_text(buffer: &[u8; BUFFER_LENGTH]) -> (text: heapless::String<BUFFER_LENGTH>)
    ensures
        line_chars(text) == typed(buffer@),
{
    let mut text = line_new();
    let mut index: usize = 0;
    assert(buffer@.take(0) =~= Seq::<u8>::empty());
    while index < BUFFER_LENGTH
        invariant
            index <= BUFFER_LENGTH,
            line_chars(text) == typed(buffer@.take(index as int)),
        decreases BUFFER_LENGTH - index,
    {
        proof {
            assert(buffer@.take(index + 1).drop_last() =~= buffer@.take(index as int));
        }
        let byte = buffer[index];
        if byte != 0 {
            let _ = line_push(&mut text, byte as char);
        }
        index += 1;
    }
    assert(buffer@.take(BUFFER_LENGTH as int) =~= buffer@);
    text
}

/// Turns a line buffer into the text to encode: line ends are taken out, and
/// a space is added at the end where the buffer calls for one.
pub fn create_return_string(buffer: [u8; BUFFER_LENGTH]) -> (text: heapless::String<BUFFER_LENGTH>)
    ensures
        line_chars(text) == line_text(buffer@),
{
    let mut bytes = buffer;
    remove_control_chars(&mut bytes);
    let mut text = typed_text(&bytes);
    let mut index: usize = 0;
    while index + 1 < BUFFER_LENGTH
        invariant
            index < BUFFER_LENGTH,
            bytes@ == cleaned(buffer@),
            line_chars(text) == typed(bytes@),
            forall|i: int| 0 <= i < index ==> !open_at(bytes@, i),
        decreases BUFFER_LENGTH - index,
    {
        if bytes[index + 1] == 0 && bytes[index] != SPACE {
            assert(open_at(bytes@, index as int));
            let _ = line_push(&mut text, ' ');
            return text;
        }
        index += 1;
    }
    text
}

/// Why a line is complete.
#[derive(Clone, Copy, Debug, PartialEq, Eq)]
pub enum Ending {
    /// The buffer is full.
    BufferFull,
    /// A line end has arrived.
    Submitted,
}

/// The bytes of a line as they arrive.
pub struct LineReader {
    buffer: [u8; BUFFER_LENGTH],
    filled: usize,
}

impl LineReader {
    #[verifier::type_invariant]
    spec fn within_buffer(self) -> bool {
        self.filled <= BUFFER_LENGTH
    }

    /// The bytes of the buffer; those that have not arrived yet are 0.
    pub closed spec fn bytes(self) -> Seq<u8> {
        self.buffer@
    }

    /// The number of bytes that have arrived, `BUFFER_LENGTH` at most.
    pub closed spec fn filled(self) -> nat {
        self.filled as nat
    }

    /// A reader that has taken no byte.
    pub fn new() -> (reader: LineReader)
        ensures
            reader.filled() == 0,
            reader.bytes() == Seq::new(BUFFER_LENGTH as nat, |i: int| 0u8),
    {
        let reader = LineReader { buffer: [0u8; BUFFER_LENGTH], filled: 0 };
        assert(reader.buffer@ =~= Seq::new(BUFFER_LENGTH as nat, |i: int| 0u8));
        reader
    }

    /// Takes the bytes of a chunk, as many as still fit, and returns how
    /// many it took. The rest of the chunk is dropped.
    pub fn accept(&mut self, chunk: &[u8]) -> (taken: usize)
        ensures
            final(self).filled() <= BUFFER_LENGTH,
            taken == if chunk@.len() <= BUFFER_LENGTH - old(self).filled() {
                chunk@.len() as int
            } else {
                BUFFER_LENGTH - old(self).filled()
            },
            final(self).filled() == old(self).filled() + taken,
            final(self).bytes() == old(self).bytes().take(old(self).filled() as int)
                + chunk@.take(taken as int) + old(self).bytes().skip(
                final(self).filled() as int,
            ),
    {
        proof {
            use_type_invariant(&*self);
        }
        let room = BUFFER_LENGTH - self.filled;
        let taken = if chunk.len() <= room {
            chunk.len()
        } else {
            room
        };
        let mut index: usize = 0;
        while index < taken
            invariant
                index <= taken,
                taken <= chunk@.len(),
                self.filled + taken <= BUFFER_LENGTH,
                self.filled == old(self).filled,
                forall|i: int| 0 <= i < index ==> self.buffer@[self.filled + i] == chunk@[i],
                forall|i: int|
                    0 <= i < BUFFER_LENGTH && !(self.filled <= i < self.filled + index)
                        ==> self.buffer@[i]
                        == old(self).buffer@[i],
            decreases taken - index,
        {
            self.buffer[self.filled + index] = chunk[index];
            index += 1;
        }
        self.filled = self.filled + taken;
        assert(self.buffer@ =~= old(self).buffer@.take(old(self).filled as int) + chunk@.take(
            taken as int,
        ) + old(self).buffer@.skip(self.filled as int));
        taken
    }

    /// Whether the line is complete, and why: a full buffer comes first.
    pub fn ending(&self) -> (ending: Option<Ending>)
        ensures
            ending == if self.filled() == BUFFER_LENGTH {
                Some(Ending::BufferFull)
            } else if exists|i: int|
                0 <= i < BUFFER_LENGTH && is_line_end(#[trigger] self.bytes()[i]) {
                Some(Ending::Submitted)
            } else {
                None
            },
    {
        if self.filled == BUFFER_LENGTH {
            return Some(Ending::BufferFull);
        }
        let mut index: usize = 0;
        while index < BUFFER_LENGTH
            invariant
                index <= BUFFER_LENGTH,
                self.filled != BUFFER_LENGTH,
                forall|i: int| 0 <= i < index ==> !is_line_end(#[trigger] self.buffer@[i]),
            decreases BUFFER_LENGTH - index,
        {
            if self.buffer[index] == LINE_FEED || self.buffer[index] == CARRIAGE_RETURN {
                assert(is_line_end(self.bytes()[index as int]));
                return Some(Ending::Submitted);
            }
            index += 1;
        }
        None
    }

    /// The bytes that have arrived, in their buffer.
    pub fn into_buffer(self) -> (buffer: [u8; BUFFER_LENGTH])
        ensures
            buffer@ == self.bytes(),
    {
        self.buffer
    }
}

} // verus!
