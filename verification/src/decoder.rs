//! The full-step quadrature state machine.
//!
//! A detent rests at pin sample `11`. A clockwise detent passes through the
//! samples `01`, `00`, `10` and back to `11`; a counter-clockwise detent passes
//! through `10`, `00`, `01` and back to `11`. A step is reported only on the
//! transition that completes one of these two paths.

use vstd::prelude::*;

verus! {

/// Flag set in a table entry on the transition that completes a clockwise detent.
pub const DIR_CW: u8 = 0x10;

/// Flag set in a table entry on the transition that completes a counter-clockwise detent.
pub const DIR_CCW: u8 = 0x20;

/// The bits of a table entry that hold the next state.
pub const STATE_MASK: u8 = 0x07;

/// The bits of a table entry that hold the direction flag.
pub const DIR_MASK: u8 = 0x30;

/// Code of the rest state.
pub const R_START: u8 = 0x0;

/// Codes of the three states on the clockwise path, in the order they are passed.
pub const R_CW_1: u8 = 0x1;

pub const R_CW_2: u8 = 0x2;

pub const R_CW_3: u8 = 0x3;

/// Codes of the three states on the counter-clockwise path, in the order they are passed.
pub const R_CCW_1: u8 = 0x4;

pub const R_CCW_2: u8 = 0x5;

pub const R_CCW_3: u8 = 0x6;

/// Code of the state that no transition leads to; every sample leaves it for the rest state.
pub const R_ILLEGAL: u8 = 0x7;

/// Packed transition table: one row per state code, one column per pin sample
/// in the order `00`, `01`, `10`, `11`. An entry holds the next state in its
/// low three bits and a direction flag on the transition that completes a detent.
pub const TRANSITION_TABLE: [[u8; 4]; 8] = [
    [R_START, R_CW_1, R_CCW_1, R_START],
    [R_CW_2, R_CW_1, R_START, R_START],
    [R_CW_2, R_CW_1, R_CW_3, R_START],
    [R_CW_2, R_START, R_CW_3, DIR_CW],
    [R_CCW_2, R_START, R_CCW_1, R_START],
    [R_CCW_2, R_CCW_3, R_CCW_1, R_START],
    [R_CCW_2, R_CCW_3, R_START, DIR_CCW],
    [R_START, R_START, R_START, R_START],
];

/// Position of the decoder inside a detent cycle.
#[derive(Clone, Copy, Debug, PartialEq, Eq, Structural)]
pub enum DecoderState {
    Start,
    Cw1,
    Cw2,
    Cw3,
    Ccw1,
    Ccw2,
    Ccw3,
    Illegal,
}

/// What a single transition reports.
#[derive(Clone, Copy, Debug, PartialEq, Eq, Structural)]
pub enum StepDirection {
    Clockwise,
    CounterClockwise,
    NoStep,
}

impl DecoderState {
    /// The three-bit code of the state, its row in the transition table.
    pub open spec fn code(self) -> int {
        match self {
            DecoderState::Start => 0,
            DecoderState::Cw1 => 1,
            DecoderState::Cw2 => 2,
            DecoderState::Cw3 => 3,
            DecoderState::Ccw1 => 4,
            DecoderState::Ccw2 => 5,
            DecoderState::Ccw3 => 6,
            DecoderState::Illegal => 7,
        }
    }

    /// The state with the given code; codes outside `0..8` stand for `Start`.
    pub open spec fn of_code(code: int) -> DecoderState {
        if code == 1 {
            DecoderState::Cw1
        } else if code == 2 {
            DecoderState::Cw2
        } else if code == 3 {
            DecoderState::Cw3
        } else if code == 4 {
            DecoderState::Ccw1
        } else if code == 5 {
            DecoderState::Ccw2
        } else if code == 6 {
            DecoderState::Ccw3
        } else if code == 7 {
            DecoderState::Illegal
        } else {
            DecoderState::Start
        }
    }

    pub fn to_code(self) -> (code: u8)
        ensures
            code as int == self.code(),
            code < 8,
            DecoderState::of_code(code as int) == self,
    {
        match self {
            DecoderState::Start => R_START,
            DecoderState::Cw1 => R_CW_1,
            DecoderState::Cw2 => R_CW_2,
            DecoderState::Cw3 => R_CW_3,
            DecoderState::Ccw1 => R_CCW_1,
            DecoderState::Ccw2 => R_CCW_2,
            DecoderState::Ccw3 => R_CCW_3,
            DecoderState::Illegal => R_ILLEGAL,
        }
    }

    /// Reads the state out of a table entry: its low three bits.
    pub fn from_entry(entry: u8) -> (state: DecoderState)
        ensures
            state == DecoderState::of_code((entry & STATE_MASK) as int),
            state.code() == (entry & STATE_MASK) as int,
    {
        let code: u8 = entry & STATE_MASK;
        assert(code < 8) by (bit_vector)
            requires
                code == entry & 0x07,
        ;
        if code == R_CW_1 {
            DecoderState::Cw1
        } else if code == R_CW_2 {
            DecoderState::Cw2
        } else if code == R_CW_3 {
            DecoderState::Cw3
        } else if code == R_CCW_1 {
            DecoderState::Ccw1
        } else if code == R_CCW_2 {
            DecoderState::Ccw2
        } else if code == R_CCW_3 {
            DecoderState::Ccw3
        } else if code == R_ILLEGAL {
            DecoderState::Illegal
        } else {
            DecoderState::Start
        }
    }
}

impl StepDirection {
    /// Reads the step out of a table entry: its direction flag.
    pub open spec fn of_entry(entry: u8) -> StepDirection {
        if entry & DIR_MASK == DIR_CW {
            StepDirection::Clockwise
        } else if entry & DIR_MASK == DIR_CCW {
            StepDirection::CounterClockwise
        } else {
            StepDirection::NoStep
        }
    }

    pub fn from_entry(entry: u8) -> (step: StepDirection)
        ensures
            step == StepDirection::of_entry(entry),
    {
        let flag: u8 = entry & DIR_MASK;
        if flag == DIR_CW {
            StepDirection::Clockwise
        } else if flag == DIR_CCW {
            StepDirection::CounterClockwise
        } else {
            StepDirection::NoStep
        }
    }
}

/// The two pin levels as a sample index: `clk` is the high bit, `dt` the low bit.
pub open spec fn sample_index(clk: bool, dt: bool) -> int {
    (if clk { 2int } else { 0int }) + (if dt { 1int } else { 0int })
}

/// The state that follows `state` on the pin sample `index`, for `index` in `0..4`.
///
/// Sample `11` is the rest position and always leads back to `Start`. A sample
/// that does not continue the path the decoder is on abandons the path.
pub open spec fn next_state(state: DecoderState, index: int) -> DecoderState {
    if index == 3 {
        DecoderState::Start
    } else {
        match state {
            DecoderState::Start => if index == 1 {
                DecoderState::Cw1
            } else if index == 2 {
                DecoderState::Ccw1
            } else {
                DecoderState::Start
            },
            DecoderState::Cw1 => if index == 0 {
                DecoderState::Cw2
            } else if index == 1 {
                DecoderState::Cw1
            } else {
                DecoderState::Start
            },
            DecoderState::Cw2 => if index == 0 {
                DecoderState::Cw2
            } else if index == 1 {
                DecoderState::Cw1
            } else {
                DecoderState::Cw3
            },
            DecoderState::Cw3 => if index == 0 {
                DecoderState::Cw2
            } else if index == 2 {
                DecoderState::Cw3
            } else {
                DecoderState::Start
            },
            DecoderState::Ccw1 => if index == 0 {
                DecoderState::Ccw2
            } else if index == 2 {
                DecoderState::Ccw1
            } else {
                DecoderState::Start
            },
            DecoderState::Ccw2 => if index == 0 {
                DecoderState::Ccw2
            } else if index == 2 {
                DecoderState::Ccw1
            } else {
                DecoderState::Ccw3
            },
            DecoderState::Ccw3 => if index == 0 {
                DecoderState::Ccw2
            } else if index == 1 {
                DecoderState::Ccw3
            } else {
                DecoderState::Start
            },
            DecoderState::Illegal => DecoderState::Start,
        }
    }
}

/// The step that the transition from `state` on the pin sample `index` reports:
/// one only on arrival at the rest position from the last state of a path.
pub open spec fn step_of(state: DecoderState, index: int) -> StepDirection {
    if index == 3 && state == DecoderState::Cw3 {
        StepDirection::Clockwise
    } else if index == 3 && state == DecoderState::Ccw3 {
        StepDirection::CounterClockwise
    } else {
        StepDirection::NoStep
    }
}

/// One transition of the decoder. An index outside `0..4` is no pin sample and
/// changes nothing.
pub open spec fn decode_step(state: DecoderState, index: int) -> (DecoderState, StepDirection) {
    if 0 <= index < 4 {
        (next_state(state, index), step_of(state, index))
    } else {
        (state, StepDirection::NoStep)
    }
}

proof fn lemma_entry_bits(entry: u8)
    ensures
        entry < 8 ==> entry & 0x07 == entry && entry & 0x30 == 0,
        entry == 0x10 ==> entry & 0x07 == 0 && entry & 0x30 == 0x10,
        entry == 0x20 ==> entry & 0x07 == 0 && entry & 0x30 == 0x20,
{
    assert(entry < 8 ==> entry & 0x07 == entry && entry & 0x30 == 0) by (bit_vector);
    assert(entry == 0x10 ==> entry & 0x07 == 0 && entry & 0x30 == 0x10) by (bit_vector);
    assert(entry == 0x20 ==> entry & 0x07 == 0 && entry & 0x30 == 0x20) by (bit_vector);
}

/// Every entry of the packed table holds the transition that `next_state` and
/// `step_of` describe.
pub proof fn lemma_table_holds_transitions(state: DecoderState, index: int)
    requires
        0 <= index < 4,
    ensures
        DecoderState::of_code((TRANSITION_TABLE[state.code()][index] & STATE_MASK) as int)
            == next_state(state, index),
        StepDirection::of_entry(TRANSITION_TABLE[state.code()][index]) == step_of(state, index),
{
    let entry = TRANSITION_TABLE[state.code()][index];
    lemma_entry_bits(entry);
}

/// Packs the two pin levels into a sample index.
pub fn pin_index(clk: bool, dt: bool) -> (index: u8)
    ensures
        index as int == sample_index(clk, dt),
        index < 4,
{
    let high: u8 = if clk { 2 } else { 0 };
    let low: u8 = if dt { 1 } else { 0 };
    high + low
}

/// Advances the decoder by one sample given as an index. Total: an index that
/// is no pin sample leaves the state as it is and reports no step.
pub fn decode_index(state: DecoderState, index: u8) -> (out: (DecoderState, StepDirection))
    ensures
        out == decode_step(state, index as int),
        0 <= out.0.code() < 8,
{
    if index >= 4 {
        return (state, StepDirection::NoStep);
    }
    let code = state.to_code();
    let entry: u8 = TRANSITION_TABLE[code as usize][index as usize];
    proof {
        lemma_table_holds_transitions(state, index as int);
    }
    (DecoderState::from_entry(entry), StepDirection::from_entry(entry))
}

/// Advances the decoder by one sample of the two pin levels.
pub fn decode(state: DecoderState, clk: bool, dt: bool) -> (out: (DecoderState, StepDirection))
    ensures
        out == decode_step(state, sample_index(clk, dt)),
        out.0 == next_state(state, sample_index(clk, dt)),
        out.1 == step_of(state, sample_index(clk, dt)),
{
    decode_index(state, pin_index(clk, dt))
}

/// The state of the decoder after the samples of `samples`, fed in order.
pub open spec fn run_state(state: DecoderState, samples: Seq<int>) -> DecoderState
    decreases samples.len(),
{
    if samples.len() == 0 {
        state
    } else {
        decode_step(run_state(state, samples.drop_last()), samples.last()).0
    }
}

/// How many of the transitions made while `samples` are fed report `direction`.
pub open spec fn count_steps(state: DecoderState, samples: Seq<int>, direction: StepDirection) -> nat
    decreases samples.len(),
{
    if samples.len() == 0 {
        0
    } else {
        let front = samples.drop_last();
        let last = decode_step(run_state(state, front), samples.last()).1;
        count_steps(state, front, direction) + (if last == direction {
            1nat
        } else {
            0nat
        })
    }
}

/// The rest sample `11` leads back to `Start` from every state.
pub proof fn lemma_rest_returns_to_start(state: DecoderState)
    ensures
        decode_step(state, 3).0 == DecoderState::Start,
{
}

/// The samples of one clockwise detent, from rest to rest: `11, 01, 00, 10, 11`.
pub open spec fn clockwise_detent() -> Seq<int> {
    seq![3int, 1int, 0int, 2int, 3int]
}

/// The samples of one counter-clockwise detent, from rest to rest: `11, 10, 00, 01, 11`.
pub open spec fn counter_clockwise_detent() -> Seq<int> {
    seq![3int, 2int, 0int, 1int, 3int]
}

/// Feeding one more sample makes one more transition, from the state that the
/// samples before it led to.
pub proof fn lemma_run_push(
    state: DecoderState,
    samples: Seq<int>,
    index: int,
    direction: StepDirection,
)
    ensures
        run_state(state, samples.push(index)) == decode_step(run_state(state, samples), index).0,
        count_steps(state, samples.push(index), direction) == count_steps(
            state,
            samples,
            direction,
        ) + (if decode_step(run_state(state, samples), index).1 == direction {
            1nat
        } else {
            0nat
        }),
{
    assert(samples.push(index).drop_last() =~= samples);
}

/// A full clockwise detent, fed from `Start`, reports exactly one clockwise
/// step and no other, and leaves the decoder at `Start`.
pub proof fn lemma_clockwise_detent()
    ensures
        run_state(DecoderState::Start, clockwise_detent()) == DecoderState::Start,
        count_steps(DecoderState::Start, clockwise_detent(), StepDirection::Clockwise) == 1,
        count_steps(DecoderState::Start, clockwise_detent(), StepDirection::CounterClockwise) == 0,
{
    let start = DecoderState::Start;
    let s0 = Seq::<int>::empty();
    let s1 = s0.push(3);
    let s2 = s1.push(1);
    let s3 = s2.push(0);
    let s4 = s3.push(2);
    let s5 = s4.push(3);
    lemma_run_push(start, s0, 3, StepDirection::Clockwise);
    lemma_run_push(start, s1, 1, StepDirection::Clockwise);
    lemma_run_push(start, s2, 0, StepDirection::Clockwise);
    lemma_run_push(start, s3, 2, StepDirection::Clockwise);
    lemma_run_push(start, s4, 3, StepDirection::Clockwise);
    lemma_run_push(start, s0, 3, StepDirection::CounterClockwise);
    lemma_run_push(start, s1, 1, StepDirection::CounterClockwise);
    lemma_run_push(start, s2, 0, StepDirection::CounterClockwise);
    lemma_run_push(start, s3, 2, StepDirection::CounterClockwise);
    lemma_run_push(start, s4, 3, StepDirection::CounterClockwise);
    assert(clockwise_detent() =~= s5);
}

/// A full counter-clockwise detent, fed from `Start`, reports exactly one
/// counter-clockwise step and no other, and leaves the decoder at `Start`.
pub proof fn lemma_counter_clockwise_detent()
    ensures
        run_state(DecoderState::Start, counter_clockwise_detent()) == DecoderState::Start,
        count_steps(DecoderState::Start, counter_clockwise_detent(), StepDirection::Clockwise)
            == 0,
        count_steps(
            DecoderState::Start,
            counter_clockwise_detent(),
            StepDirection::CounterClockwise,
        ) == 1,
{
    let start = DecoderState::Start;
    let s0 = Seq::<int>::empty();
    let s1 = s0.push(3);
    let s2 = s1.push(2);
    let s3 = s2.push(0);
    let s4 = s3.push(1);
    let s5 = s4.push(3);
    lemma_run_push(start, s0, 3, StepDirection::Clockwise);
    lemma_run_push(start, s1, 2, StepDirection::Clockwise);
    lemma_run_push(start, s2, 0, StepDirection::Clockwise);
    lemma_run_push(start, s3, 1, StepDirection::Clockwise);
    lemma_run_push(start, s4, 3, StepDirection::Clockwise);
    lemma_run_push(start, s0, 3, StepDirection::CounterClockwise);
    lemma_run_push(start, s1, 2, StepDirection::CounterClockwise);
    lemma_run_push(start, s2, 0, StepDirection::CounterClockwise);
    lemma_run_push(start, s3, 1, StepDirection::CounterClockwise);
    lemma_run_push(start, s4, 3, StepDirection::CounterClockwise);
    assert(counter_clockwise_detent() =~= s5);
}

/// Whether the decoder has not yet reached the middle of a detent.
pub open spec fn before_midpoint(state: DecoderState) -> bool {
    state == DecoderState::Start || state == DecoderState::Cw1 || state == DecoderState::Ccw1
        || state == DecoderState::Illegal
}

/// Bounce is rejected: from a state before the middle of a detent, samples
/// that never reach `00` report no step in either direction, however they
/// wiggle, and leave the decoder before the middle of a detent.
pub proof fn lemma_bounce_reports_no_step(state: DecoderState, samples: Seq<int>)
    requires
        before_midpoint(state),
        forall|k: int| 0 <= k < samples.len() ==> samples[k] != 0,
    ensures
        before_midpoint(run_state(state, samples)),
        count_steps(state, samples, StepDirection::Clockwise) == 0,
        count_steps(state, samples, StepDirection::CounterClockwise) == 0,
    decreases samples.len(),
{
    if samples.len() > 0 {
        lemma_bounce_reports_no_step(state, samples.drop_last());
    }
}

/// A step is reported only by the transition that reaches the rest sample
/// `11` from the last state of a path, and the decoder is then at `Start`.
pub proof fn lemma_step_completes_detent(state: DecoderState, index: int)
    ensures
        decode_step(state, index).1 == StepDirection::Clockwise <==> state == DecoderState::Cw3
            && index == 3,
        decode_step(state, index).1 == StepDirection::CounterClockwise <==> state
            == DecoderState::Ccw3 && index == 3,
        decode_step(state, index).1 != StepDirection::NoStep ==> decode_step(state, index).0
            == DecoderState::Start,
{
}


/// The direction of a step is that of the last quarter turn before the rest
/// position: a clockwise step arrives from sample `10`, a counter-clockwise
/// step from sample `01`, and none arrives straight from `00` or from rest.
pub proof fn lemma_step_follows_last_quarter(state: DecoderState, index: int)
    requires
        0 <= index < 4,
    ensures
        decode_step(decode_step(state, index).0, 3).1 == StepDirection::Clockwise ==> index == 2,
        decode_step(decode_step(state, index).0, 3).1 == StepDirection::CounterClockwise ==> index
            == 1,
{
}

} // verus!
