//! The button scanner: a state machine that turns button samples, taken once
//! per quantum, into codes.
//!
//! The scanner never looks at a clock. It counts consecutive pressed and
//! released samples and compares the counts with the thresholds of a
//! [`Timing`]. The caller samples the button, calls [`Scanner::step`], shows
//! the indicators of the returned [`Tick`], waits one quantum, and repeats
//! until the tick says that the passage is finished.

use vstd::prelude::*;
use crate::bounded::{
    codes_as_slice, codes_into_array, codes_new, codes_push, held_codes, held_marks,
    marks_as_slice, marks_into_array, marks_new, marks_push,
};
use crate::morse::code::{letter, Code, Mark};
use crate::BUFFER_LENGTH;

verus! {

/// Length of one quantum in milliseconds.
pub const QUANTUM_MS: u32 = 100;

/// The thresholds of the scanner, in quanta.
#[derive(Clone, Copy, Debug, PartialEq, Eq)]
pub struct Timing {
    /// A press of more pressed samples than this is a dash.
    pub long_press: u32,
    /// A press of more pressed samples than this ends the passage.
    pub passage_end: u32,
    /// The released sample after this many released samples closes the letter.
    pub letter_gap: u32,
    /// The released sample after this many released samples closes the word.
    pub word_gap: u32,
}

impl Timing {
    /// The order in which the thresholds are meant to stand.
    pub open spec fn ordered(self) -> bool {
        &&& self.long_press < self.passage_end
        &&& 0 < self.letter_gap
        &&& self.letter_gap < self.word_gap
    }

    /// The thresholds for a quantum of `QUANTUM_MS`: half a second for a dash,
    /// a second and a half to end the passage, one second between letters and
    /// two between words.
    pub fn standard() -> (timing: Timing)
        ensures
            timing == (Timing { long_press: 5, passage_end: 15, letter_gap: 10, word_gap: 20 }),
            timing.ordered(),
    {
        Timing { long_press: 5, passage_end: 15, letter_gap: 10, word_gap: 20 }
    }
}

/// The five indicators that show the user what the scanner makes of the
/// button. They have no effect on what is scanned.
#[derive(Clone, Copy, Debug, PartialEq, Eq)]
pub struct Indicators {
    /// The button is down.
    pub short_press: bool,
    /// The button has been down long enough for a dash.
    pub long_press: bool,
    /// A letter was closed since the last press.
    pub letter: bool,
    /// A word was closed since the last press.
    pub word: bool,
    /// The button has been down long enough to end the passage.
    pub passage_end: bool,
}

impl Indicators {
    /// All indicators dark.
    pub fn dark() -> (indicators: Indicators)
        ensures
            indicators == dark(),
    {
        Indicators {
            short_press: false,
            long_press: false,
            letter: false,
            word: false,
            passage_end: false,
        }
    }
}

/// What one quantum did.
#[derive(Clone, Copy, Debug, PartialEq, Eq)]
pub struct Tick {
    /// The mark that joined the letter in this quantum, `Mark::Blank` if none did.
    pub committed: Mark,
    /// Whether this quantum closed a word.
    pub word_closed: bool,
    /// Whether the passage is finished: no later sample changes anything.
    pub finished: bool,
    /// The indicators after this quantum.
    pub indicators: Indicators,
}

/// The state of a scan.
pub struct ScanState {
    /// Consecutive pressed samples, 0 after a release.
    pub on_time: nat,
    /// Consecutive released samples, 0 after a press.
    pub off_time: nat,
    /// The mark that the press so far amounts to.
    pub current_mark: Mark,
    /// The marks of the open letter.
    pub letter: Seq<Mark>,
    /// The codes scanned so far.
    pub codes: Seq<Code>,
    /// Whether a press has lasted long enough to end the passage.
    pub passage_ended: bool,
    /// Whether the scan has reached its terminal state.
    pub finished: bool,
    /// The indicators.
    pub indicators: Indicators,
}

/// All indicators dark.
pub open spec fn dark() -> Indicators {
    Indicators {
        short_press: false,
        long_press: false,
        letter: false,
        word: false,
        passage_end: false,
    }
}

/// The state in which a scan starts.
pub open spec fn start() -> ScanState {
    ScanState {
        on_time: 0,
        off_time: 0,
        current_mark: Mark::Blank,
        letter: Seq::empty(),
        codes: Seq::empty(),
        passage_ended: false,
        finished: false,
        indicators: dark(),
    }
}

/// A sample counter one quantum later. It stops at the largest `u64`, far
/// above every threshold.
pub open spec fn tick_up(count: nat) -> nat {
    if count < u64::MAX {
        count + 1
    } else {
        count
    }
}

/// `codes` with `code` at its end, unless the buffer is full: then the code is
/// dropped.
pub open spec fn append(codes: Seq<Code>, code: Code) -> Seq<Code> {
    if codes.len() < BUFFER_LENGTH {
        codes.push(code)
    } else {
        codes
    }
}

/// A pressed sample: the press grows by one quantum and is classified anew.
pub open spec fn press(s: ScanState, t: Timing) -> ScanState {
    let on_time = tick_up(s.on_time);
    let mark = if on_time > t.long_press {
        Mark::Dash
    } else {
        Mark::Dot
    };
    let ended = s.passage_ended || on_time > t.passage_end;
    ScanState {
        on_time,
        off_time: 0,
        current_mark: mark,
        passage_ended: ended,
        indicators: Indicators {
            short_press: !ended,
            long_press: !ended && mark == Mark::Dash,
            letter: false,
            word: false,
            passage_end: ended,
        },
        ..s
    }
}

/// The end of a press: its mark joins the open letter. A letter that is
/// already full is given up as `Code::Error`, the mark with it, and a fresh
/// letter starts. Without a press before it, a release commits nothing.
pub open spec fn commit(s: ScanState) -> ScanState {
    if s.on_time == 0 {
        s
    } else if s.letter.len() >= 5 {
        ScanState { letter: Seq::empty(), codes: append(s.codes, Code::Error), ..s }
    } else {
        ScanState { letter: s.letter.push(s.current_mark), ..s }
    }
}

/// The open letter becomes a code, and a fresh letter starts.
pub open spec fn close_letter(s: ScanState) -> ScanState {
    ScanState {
        letter: Seq::empty(),
        codes: append(s.codes, letter(s.letter)),
        indicators: Indicators { letter: true, ..s.indicators },
        ..s
    }
}

/// A word boundary joins the codes.
pub open spec fn close_word(s: ScanState) -> ScanState {
    ScanState {
        codes: append(s.codes, Code::Space),
        indicators: Indicators { word: true, ..s.indicators },
        ..s
    }
}

/// A released sample. After a press that ended the passage, the open letter
/// is flushed, if it has any mark, and the scan is finished. Otherwise the
/// press before it, if any, is committed; the letter is closed if the release
/// has lasted exactly `letter_gap` quanta before this one, and the word if it
/// has lasted exactly `word_gap`; then the release grows by one quantum.
pub open spec fn release(s: ScanState, t: Timing) -> ScanState {
    if s.passage_ended {
        let flushed = if s.letter.len() > 0 {
            close_letter(s)
        } else {
            s
        };
        ScanState { finished: true, indicators: dark(), ..flushed }
    } else {
        let committed = commit(s);
        let lettered = if s.off_time == t.letter_gap {
            close_letter(committed)
        } else {
            committed
        };
        let worded = if s.off_time == t.word_gap {
            close_word(lettered)
        } else {
            lettered
        };
        ScanState {
            on_time: 0,
            off_time: tick_up(s.off_time),
            indicators: Indicators { short_press: false, long_press: false, ..worded.indicators },
            ..worded
        }
    }
}

/// One quantum: the transition function of the scanner. A finished scan stays
/// as it is.
pub open spec fn next(s: ScanState, pressed: bool, t: Timing) -> ScanState {
    if s.finished {
        s
    } else if pressed {
        press(s, t)
    } else {
        release(s, t)
    }
}

/// What the quantum that leads from `s` to `next(s, pressed, t)` reports.
pub open spec fn outcome(s: ScanState, pressed: bool, t: Timing) -> Tick {
    let live = !s.finished && !pressed && !s.passage_ended;
    Tick {
        committed: if live && s.on_time > 0 && s.letter.len() < 5 {
            s.current_mark
        } else {
            Mark::Blank
        },
        word_closed: live && s.off_time == t.word_gap,
        finished: next(s, pressed, t).finished,
        indicators: next(s, pressed, t).indicators,
    }
}

/// The codes of a passage with a word boundary at their end: one is added
/// unless there is no code at all, the last code is one already, or the
/// buffer is full.
pub open spec fn closed_passage(codes: Seq<Code>) -> Seq<Code> {
    if codes.len() > 0 && codes.last() != Code::Space {
        append(codes, Code::Space)
    } else {
        codes
    }
}

/// The first `BUFFER_LENGTH` of `codes`, followed by `Code::Blank` up to
/// `BUFFER_LENGTH` entries.
pub open spec fn padded_buffer(codes: Seq<Code>) -> Seq<Code> {
    Seq::new(BUFFER_LENGTH as nat, |i: int| if i < codes.len() { codes[i] } else { Code::Blank })
}

/// The buffer that a scan hands out for `codes`.
pub open spec fn finalised(codes: Seq<Code>) -> Seq<Code> {
    padded_buffer(closed_passage(codes))
}

/// Handles a pressed sample: counts it, classifies the press so far as dot or
/// dash, and notes when it has lasted long enough to end the passage.
pub fn button_on_event(
    button_on_time: &mut u64,
    button_off_time: &mut u64,
    current_mark: &mut Mark,
    passage_ended: &mut bool,
    indicators: &mut Indicators,
    timing: &Timing,
)
    ensures
        *final(button_on_time) == tick_up(*old(button_on_time) as nat),
        *final(button_off_time) == 0,
        *final(current_mark) == if *final(button_on_time) > timing.long_press {
            Mark::Dash
        } else {
            Mark::Dot
        },
        *final(passage_ended) == (*old(passage_ended) || *final(button_on_time)
            > timing.passage_end),
        *final(indicators) == (Indicators {
            short_press: !*final(passage_ended),
            long_press: !*final(passage_ended) && *final(current_mark) == Mark::Dash,
            letter: false,
            word: false,
            passage_end: *final(passage_ended),
        }),
{
    if *button_on_time < u64::MAX {
        *button_on_time += 1;
    }
    *button_off_time = 0;
    indicators.short_press = true;
    indicators.long_press = false;
    *current_mark = Mark::Dot;
    if *button_on_time > timing.long_press as u64 {
        indicators.long_press = true;
        *current_mark = Mark::Dash;
    }
    if *button_on_time > timing.passage_end as u64 {
        *passage_ended = true;
    }
    indicators.passage_end = *passage_ended;
    if *passage_ended {
        indicators.short_press = false;
        indicators.long_press = false;
    }
    indicators.word = false;
    indicators.letter = false;
}

/// Handles the end of a press: adds the mark to the open letter, or gives a
/// full letter up as `Code::Error`. Returns the mark that joined the letter,
/// `Mark::Blank` if none did.
pub fn handle_mark(
    current_code: &mut heapless::Vec<Mark, 5>,
    current_mark: Mark,
    codes: &mut heapless::Vec<Code, BUFFER_LENGTH>,
) -> (committed: Mark)
    ensures
        held_marks(*old(current_code)).len() < 5 ==> {
            &&& held_marks(*final(current_code)) == held_marks(*old(current_code)).push(
                current_mark,
            )
            &&& held_codes(*final(codes)) == held_codes(*old(codes))
            &&& committed == current_mark
        },
        held_marks(*old(current_code)).len() >= 5 ==> {
            &&& held_marks(*final(current_code)) == Seq::<Mark>::empty()
            &&& held_codes(*final(codes)) == append(held_codes(*old(codes)), Code::Error)
            &&& committed == Mark::Blank
        },
{
    match marks_push(current_code, current_mark) {
        None => current_mark,
        Some(_) => {
            let _ = codes_push(codes, Code::Error);
            *current_code = marks_new();
            Mark::Blank
        },
    }
}

/// Handles the end of a letter: the open letter, padded with `Mark::Blank`,
/// joins the codes, and a fresh letter starts.
pub fn handle_letter(
    codes: &mut heapless::Vec<Code, BUFFER_LENGTH>,
    current_code: &mut heapless::Vec<Mark, 5>,
)
    ensures
        held_codes(*final(codes)) == append(
            held_codes(*old(codes)),
            letter(held_marks(*old(current_code))),
        ),
        held_marks(*final(current_code)) == Seq::<Mark>::empty(),
{
    let ghost marks = held_marks(*current_code);
    let mut filled: usize = marks_as_slice(current_code).len();
    while filled < 5
        invariant
            filled <= 5,
            marks.len() <= filled,
            held_marks(*current_code).len() == filled,
            forall|i: int| 0 <= i < marks.len() ==> held_marks(*current_code)[i] == marks[i],
            forall|i: int|
                marks.len() <= i < filled ==> held_marks(*current_code)[i] == Mark::Blank,
        decreases 5 - filled,
    {
        let _ = marks_push(current_code, Mark::Blank);
        filled += 1;
    }
    let mut full = marks_new();
    core::mem::swap(current_code, &mut full);
    match marks_into_array(full) {
        Ok(slots) => {
            proof {
                let padded = crate::morse::code::pad(marks);
                assert(slots@ =~= padded);
                assert(slots =~= [padded[0], padded[1], padded[2], padded[3], padded[4]]);
            }
            let _ = codes_push(codes, Code::Letter(slots));
        },
        Err(_) => {
            assert(false);
        },
    }
}

/// Handles the end of a word: a word boundary joins the codes.
pub fn handle_word(codes: &mut heapless::Vec<Code, BUFFER_LENGTH>)
    ensures
        held_codes(*final(codes)) == append(held_codes(*old(codes)), Code::Space),
{
    let _ = codes_push(codes, Code::Space);
}

/// Brings the codes of a passage into their final form: a word boundary at
/// the end, so that a replay ends on a word gap, and `Code::Blank` in the
/// unused slots of the buffer.
pub fn finalise_codes(codes: heapless::Vec<Code, BUFFER_LENGTH>) -> (buffer: [Code; BUFFER_LENGTH])
    ensures
        buffer@ == finalised(held_codes(codes)),
{
    let mut codes = codes;
    let ghost scanned = held_codes(codes);
    let items = codes_as_slice(&codes);
    let mut count: usize = items.len();
    let open = count > 0 && match items[count - 1] {
        Code::Space => false,
        _ => true,
    };
    if open && count < BUFFER_LENGTH {
        let _ = codes_push(&mut codes, Code::Space);
        count += 1;
    }
    let ghost closed = held_codes(codes);
    assert(closed == closed_passage(scanned));
    while count < BUFFER_LENGTH
        invariant
            count <= BUFFER_LENGTH,
            closed.len() <= count,
            held_codes(codes).len() == count,
            forall|i: int| 0 <= i < closed.len() ==> held_codes(codes)[i] == closed[i],
            forall|i: int| closed.len() <= i < count ==> held_codes(codes)[i] == Code::Blank,
        decreases BUFFER_LENGTH - count,
    {
        let _ = codes_push(&mut codes, Code::Blank);
        count += 1;
    }
    assert(held_codes(codes) =~= padded_buffer(closed));
    match codes_into_array(codes) {
        Ok(buffer) => buffer,
        Err(_) => {
            assert(false);
            [Code::Blank; BUFFER_LENGTH]
        },
    }
}


/// A scan in progress.
pub struct Scanner {
    on_time: u64,
    off_time: u64,
    current_mark: Mark,
    current_code: heapless::Vec<Mark, 5>,
    codes: heapless::Vec<Code, BUFFER_LENGTH>,
    passage_ended: bool,
    finished: bool,
    indicators: Indicators,
}

impl View for Scanner {
    type V = ScanState;

    closed spec fn view(&self) -> ScanState {
        ScanState {
            on_time: self.on_time as nat,
            off_time: self.off_time as nat,
            current_mark: self.current_mark,
            letter: held_marks(self.current_code),
            codes: held_codes(self.codes),
            passage_ended: self.passage_ended,
            finished: self.finished,
            indicators: self.indicators,
        }
    }
}

impl Scanner {
    /// A scan that has seen no sample yet.
    pub fn new() -> (scanner: Scanner)
        ensures
            scanner@ == start(),
    {
        Scanner {
            on_time: 0,
            off_time: 0,
            current_mark: Mark::Blank,
            current_code: marks_new(),
            codes: codes_new(),
            passage_ended: false,
            finished: false,
            indicators: Indicators::dark(),
        }
    }

    /// Takes the sample of one quantum.
    pub fn step(&mut self, pressed: bool, timing: &Timing) -> (tick: Tick)
        ensures
            final(self)@ == next(old(self)@, pressed, *timing),
            tick == outcome(old(self)@, pressed, *timing),
    {
        let mut committed = Mark::Blank;
        let mut word_closed = false;
        if self.finished {
        } else if pressed {
            button_on_event(
                &mut self.on_time,
                &mut self.off_time,
                &mut self.current_mark,
                &mut self.passage_ended,
                &mut self.indicators,
                timing,
            );
        } else if self.passage_ended {
            if marks_as_slice(&self.current_code).len() > 0 {
                handle_letter(&mut self.codes, &mut self.current_code);
            }
            self.indicators = Indicators::dark();
            self.finished = true;
        } else {
            if self.on_time > 0 {
                committed = handle_mark(&mut self.current_code, self.current_mark, &mut self.codes);
            }
            if self.off_time == timing.letter_gap as u64 {
                handle_letter(&mut self.codes, &mut self.current_code);
                self.indicators.letter = true;
            }
            if self.off_time == timing.word_gap as u64 {
                handle_word(&mut self.codes);
                self.indicators.word = true;
                word_closed = true;
            }
            self.indicators.short_press = false;
            self.indicators.long_press = false;
            if self.off_time < u64::MAX {
                self.off_time += 1;
            }
            self.on_time = 0;
        }
        Tick { committed, word_closed, finished: self.finished, indicators: self.indicators }
    }

    /// Ends the scan and hands out its codes in their final form. A letter
    /// that is still open is not among them.
    pub fn finish(self) -> (buffer: [Code; BUFFER_LENGTH])
        ensures
            buffer@ == finalised(self@.codes),
    {
        finalise_codes(self.codes)
    }
}

/// The state of a scan after the samples, from the first to the last.
pub open spec fn after(samples: Seq<bool>, t: Timing) -> ScanState
    decreases samples.len(),
{
    if samples.len() == 0 {
        start()
    } else {
        next(after(samples.drop_last(), t), samples.last(), t)
    }
}

/// Scans the samples of a whole session, one per quantum.
///
/// The passage is complete once a press has lasted longer than
/// `passage_end` quanta and has been released; samples after that are not
/// looked at. Samples that stop before that give no buffer.
pub fn scan(samples: &[bool], timing: &Timing) -> (buffer: Option<[Code; BUFFER_LENGTH]>)
    ensures
        buffer is Some <==> after(samples@, *timing).finished,
        buffer matches Some(codes) ==> codes@ == finalised(after(samples@, *timing).codes),
{
    let mut scanner = Scanner::new();
    let mut i: usize = 0;
    assert(samples@.take(0) =~= Seq::<bool>::empty());
    while i < samples.len()
        invariant
            i <= samples.len(),
            scanner@ == after(samples@.take(i as int), *timing),
        decreases samples.len() - i,
    {
        let _ = scanner.step(samples[i], timing);
        assert(samples@.take(i + 1).drop_last() =~= samples@.take(i as int));
        i += 1;
    }
    assert(samples@.take(i as int) =~= samples@);
    if scanner.finished {
        Some(scanner.finish())
    } else {
        None
    }
}


/// The state after `n` more pressed samples in a row.
pub open spec fn held_down(s: ScanState, n: nat, t: Timing) -> ScanState
    decreases n,
{
    if n == 0 {
        s
    } else {
        next(held_down(s, (n - 1) as nat, t), true, t)
    }
}

/// The state after `n` more released samples in a row.
pub open spec fn let_go(s: ScanState, n: nat, t: Timing) -> ScanState
    decreases n,
{
    if n == 0 {
        s
    } else {
        next(let_go(s, (n - 1) as nat, t), false, t)
    }
}

/// A press of `n` quanta is a dot up to `long_press` quanta and a dash from
/// `long_press + 1` on, and it ends the passage from `passage_end + 1` on.
/// While the button is down, the open letter and the codes stay as they are.
pub proof fn law_press_thresholds(s: ScanState, n: nat, t: Timing)
    requires
        !s.finished,
        s.on_time == 0,
        n >= 1,
    ensures
        held_down(s, n, t).current_mark == if n <= t.long_press {
            Mark::Dot
        } else {
            Mark::Dash
        },
        held_down(s, n, t).passage_ended == (s.passage_ended || n > t.passage_end),
        held_down(s, n, t).on_time == if n <= u64::MAX {
            n
        } else {
            u64::MAX as nat
        },
        held_down(s, n, t).off_time == 0,
        held_down(s, n, t).letter == s.letter,
        held_down(s, n, t).codes == s.codes,
        !held_down(s, n, t).finished,
    decreases n,
{
    let before = held_down(s, (n - 1) as nat, t);
    if n > 1 {
        law_press_thresholds(s, (n - 1) as nat, t);
    } else {
        assert(before == s);
    }
    assert(held_down(s, n, t) == press(before, t));
}

/// The release after a press of `n` quanta commits the mark of the press to
/// the open letter: a dot up to `long_press` quanta, a dash above. A press of
/// more than `passage_end` quanta is not committed: its release finishes the
/// scan.
pub proof fn law_press_is_committed(s: ScanState, n: nat, t: Timing)
    requires
        t.ordered(),
        !s.finished,
        !s.passage_ended,
        s.on_time == 0,
        s.letter.len() < 5,
        n >= 1,
    ensures
        n <= t.long_press ==> next(held_down(s, n, t), false, t).letter == s.letter.push(
            Mark::Dot,
        ),
        t.long_press < n <= t.passage_end ==> next(held_down(s, n, t), false, t).letter
            == s.letter.push(Mark::Dash),
        n <= t.passage_end ==> next(held_down(s, n, t), false, t).codes == s.codes && !next(
            held_down(s, n, t),
            false,
            t,
        ).finished,
        n > t.passage_end ==> next(held_down(s, n, t), false, t).finished,
{
    law_press_thresholds(s, n, t);
}

/// A release closes the letter once and the word once, however long it
/// lasts. After `n` released quanta the press before them is committed; the
/// letter is closed if `n` is over `letter_gap`; the word is closed as well if
/// `n` is over `word_gap`; and nothing else has joined the codes.
pub proof fn law_gaps_fire_once(s: ScanState, n: nat, t: Timing)
    requires
        t.ordered(),
        !s.finished,
        !s.passage_ended,
        s.off_time == 0,
        n >= 1,
    ensures
        let_go(s, n, t).codes == if n <= t.letter_gap {
            commit(s).codes
        } else if n <= t.word_gap {
            append(commit(s).codes, letter(commit(s).letter))
        } else {
            append(append(commit(s).codes, letter(commit(s).letter)), Code::Space)
        },
        let_go(s, n, t).letter == if n <= t.letter_gap {
            commit(s).letter
        } else {
            Seq::<Mark>::empty()
        },
        let_go(s, n, t).on_time == 0,
        let_go(s, n, t).off_time == if n <= u64::MAX {
            n
        } else {
            u64::MAX as nat
        },
        !let_go(s, n, t).passage_ended,
        !let_go(s, n, t).finished,
    decreases n,
{
    let before = let_go(s, (n - 1) as nat, t);
    if n > 1 {
        law_gaps_fire_once(s, (n - 1) as nat, t);
    } else {
        assert(before == s);
    }
    assert(let_go(s, n, t) == release(before, t));
}

/// A sixth mark gives the letter up: the release after it adds `Code::Error`
/// and leaves an empty letter, and the mark of the next press, of `n` quanta,
/// is the first of a fresh letter.
pub proof fn law_overflow_recovers(s: ScanState, n: nat, t: Timing)
    requires
        t.ordered(),
        !s.finished,
        !s.passage_ended,
        s.on_time > 0,
        s.off_time == 0,
        s.letter.len() >= 5,
        1 <= n <= t.passage_end,
    ensures
        next(s, false, t).codes == append(s.codes, Code::Error),
        next(s, false, t).letter == Seq::<Mark>::empty(),
        ({
            let pressed = held_down(next(s, false, t), n, t);
            let released = next(pressed, false, t);
            &&& released.letter == seq![pressed.current_mark]
            &&& released.codes == append(s.codes, Code::Error)
        }),
{
    let given_up = next(s, false, t);
    law_press_thresholds(given_up, n, t);
    let pressed = held_down(given_up, n, t);
    assert(next(pressed, false, t).letter =~= seq![pressed.current_mark]);
}

/// The codes that a scan hands out end on a word boundary, so that a replay
/// ends on a word gap. The two exceptions are a scan without any code and a
/// buffer that is full before the word boundary is added.
pub proof fn law_passage_ends_on_space(codes: Seq<Code>)
    requires
        0 < codes.len() < BUFFER_LENGTH || (codes.len() > 0 && codes.last() == Code::Space),
    ensures
        closed_passage(codes).last() == Code::Space,
        closed_passage(codes).len() <= codes.len() + 1,
        forall|i: int| 0 <= i < codes.len() ==> closed_passage(codes)[i] == codes[i],
        forall|i: int|
            0 <= i < BUFFER_LENGTH ==> finalised(codes)[i] == if i < closed_passage(codes).len() {
                closed_passage(codes)[i]
            } else {
                Code::Blank
            },
{
}

/// Whether the open letter and the codes are within their capacities.
pub open spec fn within_capacity(s: ScanState) -> bool {
    s.letter.len() <= 5 && s.codes.len() <= BUFFER_LENGTH
}

/// No sample takes the open letter or the codes over their capacity.
pub proof fn law_capacity_is_kept(samples: Seq<bool>, t: Timing)
    ensures
        within_capacity(after(samples, t)),
    decreases samples.len(),
{
    if samples.len() > 0 {
        law_capacity_is_kept(samples.drop_last(), t);
    }
}

/// Once a scan is finished, further samples change nothing.
pub proof fn law_finished_scan_stays(samples: Seq<bool>, more: Seq<bool>, t: Timing)
    requires
        after(samples, t).finished,
    ensures
        after(samples + more, t) == after(samples, t),
    decreases more.len(),
{
    if more.len() == 0 {
        assert(samples + more =~= samples);
    } else {
        law_finished_scan_stays(samples, more.drop_last(), t);
        assert((samples + more).drop_last() =~= samples + more.drop_last());
    }
}

/// A released sample at the very start of a scan does nothing but count.
pub proof fn law_first_release_is_idle(t: Timing)
    requires
        t.ordered(),
    ensures
        next(start(), false, t) == (ScanState { off_time: 1, ..start() }),
{
}

} // verus!
