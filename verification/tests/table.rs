use morse_button::morse::code::{same_marks, Code, Mark, SYMBOLS};

const DOT: Mark = Mark::Dot;
const DASH: Mark = Mark::Dash;
const BLANK: Mark = Mark::Blank;

#[test]
fn letters_have_their_international_patterns() {
    assert_eq!(Code::char_to_code('a'), Code::Letter([DOT, DASH, BLANK, BLANK, BLANK]));
    assert_eq!(Code::char_to_code('e'), Code::Letter([DOT, BLANK, BLANK, BLANK, BLANK]));
    assert_eq!(Code::char_to_code('o'), Code::Letter([DASH, DASH, DASH, BLANK, BLANK]));
    assert_eq!(Code::char_to_code('q'), Code::Letter([DASH, DASH, DOT, DASH, BLANK]));
    assert_eq!(Code::char_to_code('s'), Code::Letter([DOT, DOT, DOT, BLANK, BLANK]));
    assert_eq!(Code::char_to_code('z'), Code::Letter([DASH, DASH, DOT, DOT, BLANK]));
}

#[test]
fn digits_use_all_five_slots() {
    assert_eq!(Code::char_to_code('0'), Code::Letter([DASH, DASH, DASH, DASH, DASH]));
    assert_eq!(Code::char_to_code('1'), Code::Letter([DOT, DASH, DASH, DASH, DASH]));
    assert_eq!(Code::char_to_code('5'), Code::Letter([DOT, DOT, DOT, DOT, DOT]));
    assert_eq!(Code::char_to_code('9'), Code::Letter([DASH, DASH, DASH, DASH, DOT]));
    for digit in "0123456789".chars() {
        match Code::char_to_code(digit) {
            Code::Letter(slots) => assert!(slots.iter().all(|slot| *slot != BLANK)),
            other => panic!("{digit} encodes to {other:?}"),
        }
    }
}

#[test]
fn letters_use_one_to_four_slots_and_pad_at_the_end() {
    for letter in "abcdefghijklmnopqrstuvwxyz".chars() {
        match Code::char_to_code(letter) {
            Code::Letter(slots) => {
                let used = slots.iter().take_while(|slot| **slot != BLANK).count();
                assert!((1..=4).contains(&used), "{letter} uses {used} slots");
                assert!(slots[used..].iter().all(|slot| *slot == BLANK));
            }
            other => panic!("{letter} encodes to {other:?}"),
        }
    }
}

#[test]
fn space_is_a_word_boundary() {
    assert_eq!(Code::char_to_code(' '), Code::Space);
    assert_eq!(Code::Space.to_char(), ' ');
}

#[test]
fn encoding_ignores_case() {
    let capitals = "ABCDEFGHIJKLMNOPQRSTUVWXYZ";
    let small = "abcdefghijklmnopqrstuvwxyz";
    for (upper, lower) in capitals.chars().zip(small.chars()) {
        assert_eq!(Code::char_to_code(upper), Code::char_to_code(lower));
    }
}

#[test]
fn characters_outside_the_table_are_errors() {
    let others = [
        '!', '.', '-', '%', '\n', '\0', '@', '[', '`', '{', '/', ':', 'é', '\u{212A}', 'ſ', '١',
    ];
    for other in others {
        assert_eq!(Code::char_to_code(other), Code::Error, "{other:?}");
    }
}

#[test]
fn every_table_character_survives_the_round_trip() {
    assert_eq!(SYMBOLS.len(), 36);
    for symbol in SYMBOLS {
        assert_eq!(Code::char_to_code(symbol).to_char(), symbol);
        assert_eq!(Code::char_to_code(symbol.to_ascii_uppercase()).to_char(), symbol);
    }
    assert_eq!(Code::char_to_code(' ').to_char(), ' ');
}

#[test]
fn no_two_table_characters_share_a_pattern() {
    for (i, a) in SYMBOLS.iter().enumerate() {
        for b in &SYMBOLS[i + 1..] {
            assert_ne!(Code::char_to_code(*a), Code::char_to_code(*b), "{a} and {b}");
        }
    }
}

#[test]
fn codes_without_a_character_decode_to_percent() {
    assert_eq!(Code::Error.to_char(), '%');
    assert_eq!(Code::Blank.to_char(), '%');
    assert_eq!(Code::Letter([BLANK, BLANK, BLANK, BLANK, BLANK]).to_char(), '%');
    assert_eq!(Code::Letter([DOT, DASH, DOT, DASH, BLANK]).to_char(), '%');
    assert_eq!(Code::Letter([BLANK, DOT, BLANK, BLANK, BLANK]).to_char(), '%');
    assert_eq!(Code::Letter([DOT, BLANK, DOT, BLANK, BLANK]).to_char(), '%');
}

#[test]
fn foreign_letters_with_a_table_pattern_decode() {
    assert_eq!(Code::Letter([DASH, DOT, DASH, BLANK, BLANK]).to_char(), 'k');
    assert_eq!(Code::Letter([DOT, DOT, DOT, DASH, DASH]).to_char(), '3');
}

#[test]
fn same_marks_compares_slot_by_slot() {
    let s = [DOT, DOT, DOT, BLANK, BLANK];
    assert!(same_marks(&s, &[DOT, DOT, DOT, BLANK, BLANK]));
    assert!(!same_marks(&s, &[DOT, DOT, DOT, BLANK, DOT]));
    assert!(!same_marks(&s, &[DASH, DOT, DOT, BLANK, BLANK]));
}
