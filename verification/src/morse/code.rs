//! Marks, codes and the Morse table.

use vstd::prelude::*;

verus! {

/// Number of characters that have a mark pattern.
pub const SYMBOL_COUNT: usize = 36;

/// A single dot or dash, or the filler of an unused slot.
#[derive(Copy, Clone, Debug, PartialEq, Eq, Structural)]
pub enum Mark {
    Dot,
    Dash,
    Blank,
}

/// One decoded unit.
///
/// `Letter` holds the marks of one character, left-aligned, with `Mark::Blank`
/// in the unused slots. `Space` is a word boundary. `Error` stands for a letter
/// with too many marks or a character without a pattern. `Blank` fills the
/// unused tail of a buffer and is skipped by every consumer.
#[derive(Copy, Clone, Debug, PartialEq, Eq)]
pub enum Code {
    Letter([Mark; 5]),
    Space,
    Error,
    Blank,
}

/// The characters that have a pattern, in table order.
pub const SYMBOLS: [char; SYMBOL_COUNT] = [
    'a', 'b', 'c', 'd', 'e', 'f', 'g', 'h', 'i', 'j', 'k', 'l', 'm',
    'n', 'o', 'p', 'q', 'r', 's', 't', 'u', 'v', 'w', 'x', 'y', 'z',
    '1', '2', '3', '4', '5', '6', '7', '8', '9', '0',
];

/// The characters of the Morse table besides the space: `a`-`z` and `0`-`9`.
pub open spec fn is_symbol(c: char) -> bool {
    ('a' <= c && c <= 'z') || ('0' <= c && c <= '9')
}

/// `c` with the ASCII capitals folded to lower case.
pub open spec fn lower(c: char) -> char {
    if 'A' <= c && c <= 'Z' {
        ((c as u32) + 32) as char
    } else {
        c
    }
}

/// International Morse code: the marks of each symbol, without padding.
/// Characters outside the table have no marks.
pub open spec fn morse(c: char) -> Seq<Mark> {
    match c {
        'a' => seq![Mark::Dot, Mark::Dash],
        'b' => seq![Mark::Dash, Mark::Dot, Mark::Dot, Mark::Dot],
        'c' => seq![Mark::Dash, Mark::Dot, Mark::Dash, Mark::Dot],
        'd' => seq![Mark::Dash, Mark::Dot, Mark::Dot],
        'e' => seq![Mark::Dot],
        'f' => seq![Mark::Dot, Mark::Dot, Mark::Dash, Mark::Dot],
        'g' => seq![Mark::Dash, Mark::Dash, Mark::Dot],
        'h' => seq![Mark::Dot, Mark::Dot, Mark::Dot, Mark::Dot],
        'i' => seq![Mark::Dot, Mark::Dot],
        'j' => seq![Mark::Dot, Mark::Dash, Mark::Dash, Mark::Dash],
        'k' => seq![Mark::Dash, Mark::Dot, Mark::Dash],
        'l' => seq![Mark::Dot, Mark::Dash, Mark::Dot, Mark::Dot],
        'm' => seq![Mark::Dash, Mark::Dash],
        'n' => seq![Mark::Dash, Mark::Dot],
        'o' => seq![Mark::Dash, Mark::Dash, Mark::Dash],
        'p' => seq![Mark::Dot, Mark::Dash, Mark::Dash, Mark::Dot],
        'q' => seq![Mark::Dash, Mark::Dash, Mark::Dot, Mark::Dash],
        'r' => seq![Mark::Dot, Mark::Dash, Mark::Dot],
        's' => seq![Mark::Dot, Mark::Dot, Mark::Dot],
        't' => seq![Mark::Dash],
        'u' => seq![Mark::Dot, Mark::Dot, Mark::Dash],
        'v' => seq![Mark::Dot, Mark::Dot, Mark::Dot, Mark::Dash],
        'w' => seq![Mark::Dot, Mark::Dash, Mark::Dash],
        'x' => seq![Mark::Dash, Mark::Dot, Mark::Dot, Mark::Dash],
        'y' => seq![Mark::Dash, Mark::Dot, Mark::Dash, Mark::Dash],
        'z' => seq![Mark::Dash, Mark::Dash, Mark::Dot, Mark::Dot],
        '1' => seq![Mark::Dot, Mark::Dash, Mark::Dash, Mark::Dash, Mark::Dash],
        '2' => seq![Mark::Dot, Mark::Dot, Mark::Dash, Mark::Dash, Mark::Dash],
        '3' => seq![Mark::Dot, Mark::Dot, Mark::Dot, Mark::Dash, Mark::Dash],
        '4' => seq![Mark::Dot, Mark::Dot, Mark::Dot, Mark::Dot, Mark::Dash],
        '5' => seq![Mark::Dot, Mark::Dot, Mark::Dot, Mark::Dot, Mark::Dot],
        '6' => seq![Mark::Dash, Mark::Dot, Mark::Dot, Mark::Dot, Mark::Dot],
        '7' => seq![Mark::Dash, Mark::Dash, Mark::Dot, Mark::Dot, Mark::Dot],
        '8' => seq![Mark::Dash, Mark::Dash, Mark::Dash, Mark::Dot, Mark::Dot],
        '9' => seq![Mark::Dash, Mark::Dash, Mark::Dash, Mark::Dash, Mark::Dot],
        '0' => seq![Mark::Dash, Mark::Dash, Mark::Dash, Mark::Dash, Mark::Dash],
        _ => Seq::empty(),
    }
}

/// The five slots of a letter that holds `marks`: the marks first, then
/// `Mark::Blank`. Marks past the fifth are cut off.
pub open spec fn pad(marks: Seq<Mark>) -> Seq<Mark> {
    Seq::new(5, |i: int| if i < marks.len() { marks[i] } else { Mark::Blank })
}

/// The letter code whose slots hold `marks`, padded.
pub open spec fn letter(marks: Seq<Mark>) -> Code {
    let slots = pad(marks);
    Code::Letter([slots[0], slots[1], slots[2], slots[3], slots[4]])
}

/// The code of a character: case-insensitive, a word boundary for the space,
/// `Error` for everything outside the table.
pub open spec fn encode(c: char) -> Code {
    if c == ' ' {
        Code::Space
    } else if is_symbol(lower(c)) {
        letter(morse(lower(c)))
    } else {
        Code::Error
    }
}

/// Whether some symbol of the table has exactly these five slots.
pub open spec fn has_symbol(slots: Seq<Mark>) -> bool {
    exists|c: char| #[trigger] is_symbol(c) && pad(morse(c)) == slots
}

/// The symbol with these five slots, where `has_symbol` holds.
pub open spec fn symbol_of(slots: Seq<Mark>) -> char {
    choose|c: char| #[trigger] is_symbol(c) && pad(morse(c)) == slots
}

/// The character that a code stands for: the space for a word boundary, the
/// matching symbol for a letter, and `%` for everything else, a letter that
/// matches no symbol included.
pub open spec fn decode(code: Code) -> char {
    match code {
        Code::Space => ' ',
        Code::Letter(slots) => if has_symbol(slots@) {
            symbol_of(slots@)
        } else {
            '%'
        },
        _ => '%',
    }
}

/// No two symbols share a mark pattern.
pub proof fn law_patterns_distinct(a: char, b: char)
    requires
        is_symbol(a),
        is_symbol(b),
        a != b,
    ensures
        pad(morse(a)) != pad(morse(b)),
        letter(morse(a)) != letter(morse(b)),
{
    let x = pad(morse(a));
    let y = pad(morse(b));
    if x == y {
        assert(x[0] == y[0] && x[1] == y[1] && x[2] == y[2] && x[3] == y[3] && x[4] == y[4]);
        assert(false);
    }
    let p = [x[0], x[1], x[2], x[3], x[4]];
    let q = [y[0], y[1], y[2], y[3], y[4]];
    assert(p@ =~= x);
    assert(q@ =~= y);
}

/// Encoding a table character and decoding the result gives the character
/// back, in lower case.
pub proof fn law_round_trip(c: char)
    requires
        c == ' ' || is_symbol(lower(c)),
    ensures
        decode(encode(c)) == lower(c),
{
    if c != ' ' {
        let l = lower(c);
        let slots = pad(morse(l));
        let held = [slots[0], slots[1], slots[2], slots[3], slots[4]];
        assert(held@ =~= slots);
        assert(is_symbol(l) && pad(morse(l)) == held@);
        let found = symbol_of(held@);
        if found != l {
            law_patterns_distinct(found, l);
        }
    }
}

/// Position of a symbol in `SYMBOLS`.
spec fn symbol_index(c: char) -> int {
    if 'a' <= c && c <= 'z' {
        c as int - 'a' as int
    } else if c == '0' {
        35
    } else {
        26 + (c as int - '1' as int)
    }
}

/// `SYMBOLS` lists every symbol, and nothing else.
proof fn lemma_symbols_complete()
    ensures
        forall|i: int| 0 <= i < SYMBOL_COUNT ==> is_symbol(#[trigger] SYMBOLS[i]),
        forall|c: char| #[trigger]
            is_symbol(c) ==> 0 <= symbol_index(c) < SYMBOL_COUNT && SYMBOLS[symbol_index(c)] == c,
{
}

/// Whether two letters hold the same marks, slot by slot.
pub fn same_marks(a: &[Mark; 5], b: &[Mark; 5]) -> (same: bool)
    ensures
        same == (a@ == b@),
{
    let mut i: usize = 0;
    while i < 5
        invariant
            i <= 5,
            forall|j: int| 0 <= j < i ==> a@[j] == b@[j],
        decreases 5 - i,
    {
        if a[i] != b[i] {
            return false;
        }
        i += 1;
    }
    assert(a@ =~= b@);
    true
}

impl Code {
    /// The marks that a letter holds, slot by slot; empty for the other codes.
    pub open spec fn slots(self) -> Seq<Mark> {
        match self {
            Code::Letter(slots) => slots@,
            _ => Seq::empty(),
        }
    }

    /// Converts a character to its code.
    pub fn char_to_code(character: char) -> (code: Code)
        ensures
            code == encode(character),
    {
        match character {
            ' ' => Code::Space,
            'a' | 'A' => Code::Letter(
                [Mark::Dot, Mark::Dash, Mark::Blank, Mark::Blank, Mark::Blank],
            ),
            'b' | 'B' => Code::Letter([Mark::Dash, Mark::Dot, Mark::Dot, Mark::Dot, Mark::Blank]),
            'c' | 'C' => Code::Letter([Mark::Dash, Mark::Dot, Mark::Dash, Mark::Dot, Mark::Blank]),
            'd' | 'D' => Code::Letter([Mark::Dash, Mark::Dot, Mark::Dot, Mark::Blank, Mark::Blank]),
            'e' | 'E' => Code::Letter(
                [Mark::Dot, Mark::Blank, Mark::Blank, Mark::Blank, Mark::Blank],
            ),
            'f' | 'F' => Code::Letter([Mark::Dot, Mark::Dot, Mark::Dash, Mark::Dot, Mark::Blank]),
            'g' | 'G' => Code::Letter(
                [Mark::Dash, Mark::Dash, Mark::Dot, Mark::Blank, Mark::Blank],
            ),
            'h' | 'H' => Code::Letter([Mark::Dot, Mark::Dot, Mark::Dot, Mark::Dot, Mark::Blank]),
            'i' | 'I' => Code::Letter(
                [Mark::Dot, Mark::Dot, Mark::Blank, Mark::Blank, Mark::Blank],
            ),
            'j' | 'J' => Code::Letter([Mark::Dot, Mark::Dash, Mark::Dash, Mark::Dash, Mark::Blank]),
            'k' | 'K' => Code::Letter(
                [Mark::Dash, Mark::Dot, Mark::Dash, Mark::Blank, Mark::Blank],
            ),
            'l' | 'L' => Code::Letter([Mark::Dot, Mark::Dash, Mark::Dot, Mark::Dot, Mark::Blank]),
            'm' | 'M' => Code::Letter(
                [Mark::Dash, Mark::Dash, Mark::Blank, Mark::Blank, Mark::Blank],
            ),
            'n' | 'N' => Code::Letter(
                [Mark::Dash, Mark::Dot, Mark::Blank, Mark::Blank, Mark::Blank],
            ),
            'o' | 'O' => Code::Letter(
                [Mark::Dash, Mark::Dash, Mark::Dash, Mark::Blank, Mark::Blank],
            ),
            'p' | 'P' => Code::Letter([Mark::Dot, Mark::Dash, Mark::Dash, Mark::Dot, Mark::Blank]),
            'q' | 'Q' => Code::Letter([Mark::Dash, Mark::Dash, Mark::Dot, Mark::Dash, Mark::Blank]),
            'r' | 'R' => Code::Letter([Mark::Dot, Mark::Dash, Mark::Dot, Mark::Blank, Mark::Blank]),
            's' | 'S' => Code::Letter([Mark::Dot, Mark::Dot, Mark::Dot, Mark::Blank, Mark::Blank]),
            't' | 'T' => Code::Letter(
                [Mark::Dash, Mark::Blank, Mark::Blank, Mark::Blank, Mark::Blank],
            ),
            'u' | 'U' => Code::Letter([Mark::Dot, Mark::Dot, Mark::Dash, Mark::Blank, Mark::Blank]),
            'v' | 'V' => Code::Letter([Mark::Dot, Mark::Dot, Mark::Dot, Mark::Dash, Mark::Blank]),
            'w' | 'W' => Code::Letter(
                [Mark::Dot, Mark::Dash, Mark::Dash, Mark::Blank, Mark::Blank],
            ),
            'x' | 'X' => Code::Letter([Mark::Dash, Mark::Dot, Mark::Dot, Mark::Dash, Mark::Blank]),
            'y' | 'Y' => Code::Letter([Mark::Dash, Mark::Dot, Mark::Dash, Mark::Dash, Mark::Blank]),
            'z' | 'Z' => Code::Letter([Mark::Dash, Mark::Dash, Mark::Dot, Mark::Dot, Mark::Blank]),
            '1' => Code::Letter([Mark::Dot, Mark::Dash, Mark::Dash, Mark::Dash, Mark::Dash]),
            '2' => Code::Letter([Mark::Dot, Mark::Dot, Mark::Dash, Mark::Dash, Mark::Dash]),
            '3' => Code::Letter([Mark::Dot, Mark::Dot, Mark::Dot, Mark::Dash, Mark::Dash]),
            '4' => Code::Letter([Mark::Dot, Mark::Dot, Mark::Dot, Mark::Dot, Mark::Dash]),
            '5' => Code::Letter([Mark::Dot, Mark::Dot, Mark::Dot, Mark::Dot, Mark::Dot]),
            '6' => Code::Letter([Mark::Dash, Mark::Dot, Mark::Dot, Mark::Dot, Mark::Dot]),
            '7' => Code::Letter([Mark::Dash, Mark::Dash, Mark::Dot, Mark::Dot, Mark::Dot]),
            '8' => Code::Letter([Mark::Dash, Mark::Dash, Mark::Dash, Mark::Dot, Mark::Dot]),
            '9' => Code::Letter([Mark::Dash, Mark::Dash, Mark::Dash, Mark::Dash, Mark::Dot]),
            '0' => Code::Letter([Mark::Dash, Mark::Dash, Mark::Dash, Mark::Dash, Mark::Dash]),
            _ => Code::Error,
        }
    }

    /// Converts a code to the character it stands for, `%` where it stands
    /// for none.
    pub fn to_char(self) -> (character: char)
        ensures
            character == decode(self),
    {
        match self {
            Code::Space => ' ',
            Code::Letter(slots) => {
                let mut i: usize = 0;
                while i < SYMBOL_COUNT
                    invariant
                        i <= SYMBOL_COUNT,
                        self == Code::Letter(slots),
                        forall|j: int| 0 <= j < i ==> pad(morse(#[trigger] SYMBOLS[j])) != slots@,
                    decreases SYMBOL_COUNT - i,
                {
                    let symbol = SYMBOLS[i];
                    proof {
                        lemma_symbols_complete();
                    }
                    if let Code::Letter(pattern) = Code::char_to_code(symbol) {
                        assert(pattern@ =~= pad(morse(symbol)));
                        if same_marks(&pattern, &slots) {
                            proof {
                                assert(is_symbol(symbol) && pad(morse(symbol)) == slots@);
                                let found = symbol_of(slots@);
                                if found != symbol {
                                    law_patterns_distinct(found, symbol);
                                }
                            }
                            return symbol;
                        }
                    }
                    i += 1;
                }
                proof {
                    lemma_symbols_complete();
                    assert forall|c: char| #[trigger] is_symbol(c) implies pad(morse(c))
                        != slots@ by {
                        assert(SYMBOLS[symbol_index(c)] == c);
                    }
                }
                '%'
            },
            _ => '%',
        }
    }
}

} // verus!
