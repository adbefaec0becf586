//! The blink player: the on/off schedule that replays a code buffer on one
//! indicator.
//!
//! The schedule keeps the ratios of Morse timing. A dot is lit for one unit
//! and a dash for three; one dark unit follows every mark; two more follow a
//! letter, which makes three between letters; four more stand for a word
//! boundary, which makes seven between words. The caller plays the pulses
//! one after the other and holds each for its units of `TIME_UNIT`.

use vstd::prelude::*;
use crate::morse::code::{Code, Mark};
use crate::BUFFER_LENGTH;

verus! {

/// Length of one unit of the schedule in milliseconds.
pub const TIME_UNIT: u32 = 200;

/// One step of the schedule: the indicator lit or dark for a number of units.
#[derive(Clone, Copy, Debug, PartialEq, Eq)]
pub struct Pulse {
    pub lit: bool,
    pub units: u32,
}

/// A mark of `units` units: lit that long, then dark for one unit.
pub open spec fn cycle(units: u32) -> Seq<Pulse> {
    seq![Pulse { lit: true, units }, Pulse { lit: false, units: 1 }]
}

/// The pulses of a letter's marks; blank slots add nothing.
pub open spec fn mark_pulses(slots: Seq<Mark>) -> Seq<Pulse>
    decreases slots.len(),
{
    if slots.len() == 0 {
        Seq::empty()
    } else {
        mark_pulses(slots.drop_last()) + match slots.last() {
            Mark::Dot => cycle(1),
            Mark::Dash => cycle(3),
            Mark::Blank => Seq::empty(),
        }
    }
}

/// The pulses of one code: a letter's marks and the rest of the gap between
/// letters, the rest of the gap between words for a word boundary, and
/// nothing for an error or `Code::Blank`.
pub open spec fn code_pulses(code: Code) -> Seq<Pulse> {
    match code {
        Code::Letter(slots) => mark_pulses(slots@) + seq![Pulse { lit: false, units: 2 }],
        Code::Space => seq![Pulse { lit: false, units: 4 }],
        _ => Seq::empty(),
    }
}

/// The schedule of a sequence of codes.
pub open spec fn schedule(codes: Seq<Code>) -> Seq<Pulse>
    decreases codes.len(),
{
    if codes.len() == 0 {
        Seq::empty()
    } else {
        schedule(codes.drop_last()) + code_pulses(codes.last())
    }
}

/// Adds one mark to the schedule: lit for `units`, then dark for one unit.
pub fn cycle_led(pulses: &mut Vec<Pulse>, units: u32)
    ensures
        final(pulses)@ == old(pulses)@ + cycle(units),
{
    let ghost before = pulses@;
    pulses.push(Pulse { lit: true, units });
    pulses.push(Pulse { lit: false, units: 1 });
    assert(pulses@ =~= before + cycle(units));
}

/// The schedule that replays the buffer.
pub fn blink_codes(codes: &[Code; BUFFER_LENGTH]) -> (pulses: Vec<Pulse>)
    ensures
        pulses@ == schedule(codes@),
{
    let mut pulses: Vec<Pulse> = Vec::new();
    let mut index: usize = 0;
    assert(codes@.take(0) =~= Seq::<Code>::empty());
    while index < BUFFER_LENGTH
        invariant
            index <= BUFFER_LENGTH,
            pulses@ == schedule(codes@.take(index as int)),
        decreases BUFFER_LENGTH - index,
    {
        let ghost before = pulses@;
        proof {
            assert(codes@.take(index + 1).drop_last() =~= codes@.take(index as int));
        }
        match codes[index] {
            Code::Letter(slots) => {
                let mut i: usize = 0;
                assert(slots@.take(0) =~= Seq::<Mark>::empty());
                while i < 5
                    invariant
                        i <= 5,
                        pulses@ == before + mark_pulses(slots@.take(i as int)),
                    decreases 5 - i,
                {
                    proof {
                        assert(slots@.take(i + 1).drop_last() =~= slots@.take(i as int));
                    }
                    match slots[i] {
                        Mark::Dot => {
                            cycle_led(&mut pulses, 1);
                        },
                        Mark::Dash => {
                            cycle_led(&mut pulses, 3);
                        },
                        Mark::Blank => {},
                    }
                    assert(pulses@ =~= before + mark_pulses(slots@.take(i + 1)));
                    i += 1;
                }
                assert(slots@.take(5) =~= slots@);
                pulses.push(Pulse { lit: false, units: 2 });
                assert(pulses@ =~= before + code_pulses(codes@[index as int]));
            },
            Code::Space => {
                pulses.push(Pulse { lit: false, units: 4 });
                assert(pulses@ =~= before + code_pulses(codes@[index as int]));
            },
            _ => {
                assert(pulses@ =~= before + code_pulses(codes@[index as int]));
            },
        }
        index += 1;
    }
    assert(codes@.take(BUFFER_LENGTH as int) =~= codes@);
    pulses
}

} // verus!
