use morse_button::button::{
    button_on_event, finalise_codes, handle_letter, handle_mark, handle_word, scan, Indicators,
    Scanner, Tick, Timing, QUANTUM_MS,
};
use morse_button::morse::code::{Code, Mark};
use morse_button::morse::codes_to_string;

const DOT: Mark = Mark::Dot;
const DASH: Mark = Mark::Dash;
const BLANK: Mark = Mark::Blank;

const DARK: Indicators = Indicators {
    short_press: false,
    long_press: false,
    letter: false,
    word: false,
    passage_end: false,
};

/// Thresholds small enough to write sessions out by hand.
const QUICK: Timing = Timing { long_press: 2, passage_end: 5, letter_gap: 3, word_gap: 6 };

fn buffer_of(codes: &[Code]) -> [Code; 64] {
    let mut buffer = [Code::Blank; 64];
    buffer[..codes.len()].copy_from_slice(codes);
    buffer
}

/// A session from runs of equal samples: `(pressed, quanta)`.
fn session(runs: &[(bool, usize)]) -> Vec<bool> {
    let mut samples = Vec::new();
    for (pressed, quanta) in runs {
        samples.extend(std::iter::repeat(*pressed).take(*quanta));
    }
    samples
}

/// Holds the button for `quanta` samples and lets go for one.
fn press_and_release(scanner: &mut Scanner, quanta: usize, timing: &Timing) -> Tick {
    for _ in 0..quanta {
        scanner.step(true, timing);
    }
    scanner.step(false, timing)
}

#[test]
fn standard_timing_matches_the_quantum() {
    let timing = Timing::standard();
    assert_eq!(QUANTUM_MS, 100);
    assert_eq!(timing, Timing { long_press: 5, passage_end: 15, letter_gap: 10, word_gap: 20 });
    assert!(timing.long_press < timing.passage_end);
    assert!(timing.letter_gap < timing.word_gap);
}

#[test]
fn a_press_of_exactly_long_press_is_a_dot() {
    let timing = Timing::standard();
    let mut scanner = Scanner::new();
    let tick = press_and_release(&mut scanner, 5, &timing);
    assert_eq!(tick.committed, DOT);
    assert!(!tick.finished);
}

#[test]
fn a_press_of_long_press_plus_one_is_a_dash() {
    let timing = Timing::standard();
    let mut scanner = Scanner::new();
    let tick = press_and_release(&mut scanner, 6, &timing);
    assert_eq!(tick.committed, DASH);
    assert!(!tick.finished);
}

#[test]
fn a_single_quantum_is_a_dot() {
    let mut scanner = Scanner::new();
    assert_eq!(press_and_release(&mut scanner, 1, &Timing::standard()).committed, DOT);
}

#[test]
fn a_press_of_exactly_passage_end_is_still_a_dash() {
    let timing = Timing::standard();
    let mut scanner = Scanner::new();
    let tick = press_and_release(&mut scanner, 15, &timing);
    assert_eq!(tick.committed, DASH);
    assert!(!tick.finished);
}

#[test]
fn a_press_of_passage_end_plus_one_ends_the_passage() {
    let timing = Timing::standard();
    let mut scanner = Scanner::new();
    for quantum in 1..=16 {
        let tick = scanner.step(true, &timing);
        assert_eq!(tick.indicators.passage_end, quantum == 16, "quantum {quantum}");
        assert!(!tick.finished);
    }
    let tick = scanner.step(false, &timing);
    assert!(tick.finished);
    assert_eq!(tick.committed, BLANK);
    assert_eq!(scanner.finish(), [Code::Blank; 64]);
}

#[test]
fn the_letter_closes_once_however_long_the_release() {
    let samples = session(&[(true, 1), (false, 40), (true, 6), (false, 1)]);
    let codes = scan(&samples, &QUICK).unwrap();
    assert_eq!(codes, buffer_of(&[Code::Letter([DOT, BLANK, BLANK, BLANK, BLANK]), Code::Space]));
}

#[test]
fn the_letter_closes_on_the_sample_after_the_gap() {
    let timing = QUICK;
    let mut scanner = Scanner::new();
    press_and_release(&mut scanner, 1, &timing);
    scanner.step(false, &timing);
    scanner.step(false, &timing);
    assert_eq!(scanner.step(true, &timing).indicators.letter, false);
    press_and_release(&mut scanner, 2, &timing);
    let mut lit = Vec::new();
    for _ in 0..8 {
        lit.push(scanner.step(false, &timing).indicators.letter);
    }
    assert_eq!(lit, [false, false, true, true, true, true, true, true]);
    press_and_release(&mut scanner, 6, &timing);
    assert_eq!(
        scanner.finish(),
        buffer_of(&[Code::Letter([DOT, DASH, BLANK, BLANK, BLANK]), Code::Space])
    );
}

#[test]
fn a_release_of_exactly_the_letter_gap_keeps_the_letter_open() {
    let samples = session(&[(true, 1), (false, 3), (true, 3), (false, 4), (true, 6), (false, 1)]);
    let codes = scan(&samples, &QUICK).unwrap();
    assert_eq!(codes_to_string(&codes).as_str(), "a ");
    let samples = session(&[(true, 1), (false, 4), (true, 3), (false, 4), (true, 6), (false, 1)]);
    let codes = scan(&samples, &QUICK).unwrap();
    assert_eq!(codes_to_string(&codes).as_str(), "et ");
}

#[test]
fn the_word_closes_once_on_the_sample_after_the_word_gap() {
    let timing = QUICK;
    let mut scanner = Scanner::new();
    press_and_release(&mut scanner, 1, &timing);
    let mut closed = Vec::new();
    for _ in 0..12 {
        closed.push(scanner.step(false, &timing).word_closed);
    }
    assert_eq!(closed.iter().filter(|closed| **closed).count(), 1);
    assert!(closed[5]);
    press_and_release(&mut scanner, 1, &timing);
    press_and_release(&mut scanner, 6, &timing);
    assert_eq!(codes_to_string(&scanner.finish()).as_str(), "e e ");
}

#[test]
fn a_sixth_mark_gives_the_letter_up_and_the_next_starts_afresh() {
    let mut runs = Vec::new();
    for _ in 0..6 {
        runs.push((true, 1));
        runs.push((false, 1));
    }
    runs.push((true, 3));
    runs.push((false, 4));
    runs.push((true, 6));
    runs.push((false, 1));
    let codes = scan(&session(&runs), &QUICK).unwrap();
    assert_eq!(
        codes,
        buffer_of(&[Code::Error, Code::Letter([DASH, BLANK, BLANK, BLANK, BLANK]), Code::Space])
    );
    assert_eq!(codes_to_string(&codes).as_str(), "%t ");
}

#[test]
fn five_marks_are_a_whole_letter() {
    let mut runs = Vec::new();
    for _ in 0..5 {
        runs.push((true, 1));
        runs.push((false, 1));
    }
    runs.push((false, 3));
    runs.push((true, 6));
    runs.push((false, 1));
    let codes = scan(&session(&runs), &QUICK).unwrap();
    assert_eq!(codes_to_string(&codes).as_str(), "5 ");
}

#[test]
fn the_overflowing_mark_is_not_reported_as_committed() {
    let timing = QUICK;
    let mut scanner = Scanner::new();
    for _ in 0..5 {
        assert_eq!(press_and_release(&mut scanner, 1, &timing).committed, DOT);
    }
    assert_eq!(press_and_release(&mut scanner, 1, &timing).committed, BLANK);
    assert_eq!(press_and_release(&mut scanner, 3, &timing).committed, DASH);
}

#[test]
fn three_dots_and_a_long_hold_scan_as_s() {
    let timing = Timing::standard();
    let samples = session(&[
        (true, 2),
        (false, 3),
        (true, 2),
        (false, 3),
        (true, 2),
        (false, 10),
        (true, 16),
        (false, 1),
    ]);
    let codes = scan(&samples, &timing).unwrap();
    assert_eq!(codes, buffer_of(&[Code::Letter([DOT, DOT, DOT, BLANK, BLANK]), Code::Space]));
    assert_eq!(codes[0].to_char(), 's');
    assert_eq!(codes_to_string(&codes).as_str(), "s ");
}

#[test]
fn the_hold_that_ends_the_passage_adds_no_mark() {
    let samples = session(&[(true, 1), (false, 1), (true, 9), (false, 1)]);
    let codes = scan(&samples, &QUICK).unwrap();
    assert_eq!(codes_to_string(&codes).as_str(), "e ");
}

#[test]
fn a_first_release_without_a_press_does_nothing() {
    let timing = QUICK;
    let mut scanner = Scanner::new();
    let tick = scanner.step(false, &timing);
    let idle = Tick { committed: BLANK, word_closed: false, finished: false, indicators: DARK };
    assert_eq!(tick, idle);
    press_and_release(&mut scanner, 6, &timing);
    assert_eq!(scanner.finish(), [Code::Blank; 64]);
}

#[test]
fn a_session_without_a_long_hold_gives_no_buffer() {
    assert_eq!(scan(&[], &QUICK), None);
    assert_eq!(scan(&session(&[(true, 1), (false, 30)]), &QUICK), None);
    assert_eq!(scan(&session(&[(true, 6)]), &QUICK), None);
    assert!(scan(&session(&[(true, 6), (false, 1)]), &QUICK).is_some());
}

#[test]
fn samples_after_the_end_change_nothing() {
    let ended = session(&[(true, 1), (false, 4), (true, 6), (false, 1)]);
    let mut longer = ended.clone();
    longer.extend(session(&[(true, 1), (false, 10), (true, 7), (false, 3)]));
    assert_eq!(scan(&longer, &QUICK), scan(&ended, &QUICK));
    let mut scanner = Scanner::new();
    for sample in &ended {
        scanner.step(*sample, &QUICK);
    }
    let tick = scanner.step(true, &QUICK);
    let done = Tick { committed: BLANK, word_closed: false, finished: true, indicators: DARK };
    assert_eq!(tick, done);
}

#[test]
fn codes_past_the_capacity_are_dropped() {
    let mut runs = Vec::new();
    for _ in 0..70 {
        runs.push((true, 1));
        runs.push((false, 4));
    }
    runs.push((true, 6));
    runs.push((false, 1));
    let codes = scan(&session(&runs), &QUICK).unwrap();
    assert_eq!(codes, [Code::Letter([DOT, BLANK, BLANK, BLANK, BLANK]); 64]);
}

#[test]
fn indicators_follow_the_press() {
    let timing = QUICK;
    let mut scanner = Scanner::new();
    let pressed = Indicators { short_press: true, ..DARK };
    assert_eq!(scanner.step(true, &timing).indicators, pressed);
    assert_eq!(scanner.step(true, &timing).indicators, pressed);
    let long = Indicators { short_press: true, long_press: true, ..DARK };
    assert_eq!(scanner.step(true, &timing).indicators, long);
    assert_eq!(scanner.step(true, &timing).indicators, long);
    assert_eq!(scanner.step(true, &timing).indicators, long);
    let ending = Indicators { passage_end: true, ..DARK };
    assert_eq!(scanner.step(true, &timing).indicators, ending);
    assert_eq!(scanner.step(true, &timing).indicators, ending);
    assert_eq!(scanner.step(false, &timing).indicators, DARK);
}

#[test]
fn indicators_follow_the_release() {
    let timing = QUICK;
    let mut scanner = Scanner::new();
    scanner.step(true, &timing);
    let mut shown = Vec::new();
    for _ in 0..8 {
        shown.push(scanner.step(false, &timing).indicators);
    }
    let letter = Indicators { letter: true, ..DARK };
    let word = Indicators { letter: true, word: true, ..DARK };
    assert_eq!(shown, [DARK, DARK, DARK, letter, letter, letter, word, word]);
    assert_eq!(scanner.step(true, &timing).indicators, Indicators { short_press: true, ..DARK });
}

#[test]
fn finalising_appends_a_space_unless_one_is_there() {
    let e = Code::Letter([DOT, BLANK, BLANK, BLANK, BLANK]);
    let mut codes: heapless::Vec<Code, 64> = heapless::Vec::new();
    assert_eq!(finalise_codes(codes.clone()), [Code::Blank; 64]);
    codes.push(e).unwrap();
    assert_eq!(finalise_codes(codes.clone()), buffer_of(&[e, Code::Space]));
    codes.push(Code::Space).unwrap();
    assert_eq!(finalise_codes(codes.clone()), buffer_of(&[e, Code::Space]));
    codes.push(Code::Error).unwrap();
    assert_eq!(
        finalise_codes(codes.clone()),
        buffer_of(&[e, Code::Space, Code::Error, Code::Space])
    );
}

#[test]
fn finalising_a_full_buffer_drops_the_space() {
    let e = Code::Letter([DOT, BLANK, BLANK, BLANK, BLANK]);
    let mut codes: heapless::Vec<Code, 64> = heapless::Vec::new();
    for _ in 0..63 {
        codes.push(e).unwrap();
    }
    let mut expected = [e; 64];
    expected[63] = Code::Space;
    assert_eq!(finalise_codes(codes.clone()), expected);
    codes.push(e).unwrap();
    assert_eq!(finalise_codes(codes), [e; 64]);
}

#[test]
fn the_pieces_of_a_step_work_on_their_own() {
    let timing = QUICK;
    let (mut on, mut off, mut mark, mut ended, mut leds) = (0u64, 7u64, BLANK, false, DARK);
    button_on_event(&mut on, &mut off, &mut mark, &mut ended, &mut leds, &timing);
    assert_eq!((on, off, mark, ended), (1, 0, DOT, false));
    on = 2;
    button_on_event(&mut on, &mut off, &mut mark, &mut ended, &mut leds, &timing);
    assert_eq!((on, off, mark, ended), (3, 0, DASH, false));
    on = 5;
    button_on_event(&mut on, &mut off, &mut mark, &mut ended, &mut leds, &timing);
    assert_eq!((on, off, mark, ended), (6, 0, DASH, true));
    assert_eq!(leds, Indicators { passage_end: true, ..DARK });
    on = u64::MAX;
    button_on_event(&mut on, &mut off, &mut mark, &mut ended, &mut leds, &timing);
    assert_eq!(on, u64::MAX);

    let mut letter: heapless::Vec<Mark, 5> = heapless::Vec::new();
    let mut codes: heapless::Vec<Code, 64> = heapless::Vec::new();
    assert_eq!(handle_mark(&mut letter, DASH, &mut codes), DASH);
    assert_eq!(handle_mark(&mut letter, DOT, &mut codes), DOT);
    assert_eq!(letter.as_slice(), [DASH, DOT]);
    handle_letter(&mut codes, &mut letter);
    assert!(letter.is_empty());
    handle_word(&mut codes);
    assert_eq!(codes.as_slice(), [Code::Letter([DASH, DOT, BLANK, BLANK, BLANK]), Code::Space]);
    for _ in 0..5 {
        handle_mark(&mut letter, DOT, &mut codes);
    }
    assert_eq!(handle_mark(&mut letter, DOT, &mut codes), BLANK);
    assert!(letter.is_empty());
    assert_eq!(codes.last(), Some(&Code::Error));
}
