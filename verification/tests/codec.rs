use morse_button::morse::code::{Code, Mark};
use morse_button::morse::{codes_to_string, string_to_codes, to_marks};
use morse_button::BUFFER_LENGTH;

const DOT: Mark = Mark::Dot;
const DASH: Mark = Mark::Dash;
const BLANK: Mark = Mark::Blank;

fn buffer_of(codes: &[Code]) -> [Code; 64] {
    let mut buffer = [Code::Blank; 64];
    buffer[..codes.len()].copy_from_slice(codes);
    buffer
}

#[test]
fn buffer_length_is_64() {
    assert_eq!(BUFFER_LENGTH, 64);
}

#[test]
fn sos_encodes_to_three_letters_and_renders_as_marks() {
    let codes = string_to_codes("sos");
    let s = Code::Letter([DOT, DOT, DOT, BLANK, BLANK]);
    let o = Code::Letter([DASH, DASH, DASH, BLANK, BLANK]);
    assert_eq!(codes, buffer_of(&[s, o, s]));
    assert!(codes.iter().all(|code| *code != Code::Space));
    assert_eq!(to_marks(&codes).as_str(), "... --- ...");
    assert_eq!(codes_to_string(&codes).as_str(), "sos");
}

#[test]
fn encoding_adds_no_word_boundary_of_its_own() {
    assert_eq!(codes_to_string(&string_to_codes("a")).as_str(), "a");
    assert_eq!(codes_to_string(&string_to_codes("a ")).as_str(), "a ");
}

#[test]
fn encoding_folds_case_and_marks_unknown_characters() {
    let codes = string_to_codes("Hi, Bob!");
    assert_eq!(codes_to_string(&codes).as_str(), "hi% bob%");
    assert_eq!(codes[2], Code::Error);
    assert_eq!(codes[3], Code::Space);
    assert_eq!(codes[8], Code::Blank);
}

#[test]
fn empty_text_gives_a_blank_buffer() {
    assert_eq!(string_to_codes(""), [Code::Blank; 64]);
    assert_eq!(codes_to_string(&[Code::Blank; 64]).as_str(), "");
    assert_eq!(to_marks(&[Code::Blank; 64]).as_str(), "");
}

#[test]
fn text_past_the_capacity_is_dropped() {
    let long: String = "abcdefghij".repeat(8);
    assert_eq!(long.len(), 80);
    let codes = string_to_codes(&long);
    assert_eq!(codes_to_string(&codes).as_str(), &long[..64]);
    let exact: String = "z".repeat(64);
    assert_eq!(codes_to_string(&string_to_codes(&exact)).as_str(), exact);
}

#[test]
fn capacity_counts_characters_not_bytes() {
    let text: String = "é".repeat(70);
    let codes = string_to_codes(&text);
    assert_eq!(codes, [Code::Error; 64]);
    assert_eq!(codes_to_string(&codes).as_str(), "%".repeat(64));
}

#[test]
fn blank_codes_are_skipped_wherever_they_stand() {
    let e = Code::char_to_code('e');
    let t = Code::char_to_code('t');
    let mut codes = [Code::Blank; 64];
    codes[3] = e;
    codes[10] = Code::Space;
    codes[63] = t;
    assert_eq!(codes_to_string(&codes).as_str(), "e t");
    assert_eq!(to_marks(&codes).as_str(), ".   -");
}

#[test]
fn words_are_two_spaces_further_apart_in_marks() {
    let codes = string_to_codes("a b");
    assert_eq!(to_marks(&codes).as_str(), ".-   -...");
}

#[test]
fn marks_are_trimmed_at_the_ends_only() {
    let codes = string_to_codes("  e  t  ");
    assert_eq!(to_marks(&codes).as_str(), ".     -");
    assert_eq!(to_marks(&string_to_codes("   ")).as_str(), "");
}

#[test]
fn errors_render_as_percent_without_a_separator() {
    let codes = string_to_codes("e?t");
    assert_eq!(to_marks(&codes).as_str(), ". %-");
    assert_eq!(to_marks(&buffer_of(&[Code::Error])).as_str(), "%");
    assert_eq!(codes_to_string(&buffer_of(&[Code::Error])).as_str(), "%");
}

#[test]
fn a_letter_without_marks_renders_as_its_separator() {
    let empty = Code::Letter([BLANK; 5]);
    let e = Code::char_to_code('e');
    assert_eq!(to_marks(&buffer_of(&[e, empty, e])).as_str(), ".  .");
    assert_eq!(codes_to_string(&buffer_of(&[e, empty, e])).as_str(), "e%e");
}

#[test]
fn blank_slots_inside_a_letter_are_skipped_in_marks() {
    let odd = Code::Letter([DOT, BLANK, DASH, BLANK, DOT]);
    assert_eq!(to_marks(&buffer_of(&[odd])).as_str(), ".-.");
    assert_eq!(odd.to_marks().as_str(), ".-.");
}

#[test]
fn a_full_buffer_of_digits_renders_in_full() {
    let codes = string_to_codes(&"5".repeat(64));
    let marks = to_marks(&codes);
    assert_eq!(marks.len(), 64 * 6 - 1);
    assert_eq!(marks.as_str(), vec!["....."; 64].join(" "));
}

#[test]
fn one_code_renders_without_its_separator() {
    assert_eq!(Code::char_to_code('s').to_marks().as_str(), "...");
    assert_eq!(Code::char_to_code('0').to_marks().as_str(), "-----");
    assert_eq!(Code::Space.to_marks().as_str(), "");
    assert_eq!(Code::Error.to_marks().as_str(), "%");
    assert_eq!(Code::Blank.to_marks().as_str(), "");
    assert_eq!(Code::Letter([BLANK; 5]).to_marks().as_str(), "");
}

#[test]
fn decoding_a_scanned_looking_buffer() {
    let codes = buffer_of(&[
        Code::Letter([DOT, DOT, DOT, DOT, BLANK]),
        Code::Letter([DOT, DOT, BLANK, BLANK, BLANK]),
        Code::Space,
        Code::Error,
        Code::Letter([DASH, DASH, DASH, DASH, DASH]),
        Code::Space,
    ]);
    assert_eq!(codes_to_string(&codes).as_str(), "hi %0 ");
    assert_eq!(to_marks(&codes).as_str(), ".... ..   %-----");
}

#[test]
fn a_text_of_table_characters_comes_back_in_lower_case() {
    let text = "The Quick Brown Fox Jumps Over The Lazy Dog 0123456789";
    assert!(text.len() <= BUFFER_LENGTH);
    let codes = string_to_codes(text);
    assert_eq!(codes_to_string(&codes).as_str(), text.to_ascii_lowercase());
}
