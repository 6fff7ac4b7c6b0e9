use rust_rotary_encoder::decoder::{DIR_CCW, DIR_CW, DIR_MASK, STATE_MASK, TRANSITION_TABLE};
use rust_rotary_encoder::mapper::{step_delta, wrap_value};
use rust_rotary_encoder::DecoderState::{Ccw1, Ccw2, Ccw3, Cw1, Cw2, Cw3, Start};
use rust_rotary_encoder::{
    apply_step, decode, decode_index, pin_index, DecoderState, EncoderConfig, RangeMode,
    StepDirection,
};

fn states() -> [DecoderState; 8] {
    [
        DecoderState::Start,
        DecoderState::Cw1,
        DecoderState::Cw2,
        DecoderState::Cw3,
        DecoderState::Ccw1,
        DecoderState::Ccw2,
        DecoderState::Ccw3,
        DecoderState::Illegal,
    ]
}

fn config(min: i32, max: i32, incr: i32, reversed: bool, mode: RangeMode) -> EncoderConfig {
    EncoderConfig {
        min_value: min,
        max_value: max,
        increment: incr,
        reversed,
        range_mode: mode,
    }
}

#[test]
fn pin_index_puts_clk_in_the_high_bit() {
    assert_eq!(pin_index(false, false), 0);
    assert_eq!(pin_index(false, true), 1);
    assert_eq!(pin_index(true, false), 2);
    assert_eq!(pin_index(true, true), 3);
}

#[test]
fn state_codes_round_trip() {
    for (k, state) in states().iter().enumerate() {
        assert_eq!(state.to_code() as usize, k);
        assert_eq!(DecoderState::from_entry(k as u8), *state);
        assert_eq!(DecoderState::from_entry(k as u8 | DIR_CW), *state);
    }
    assert_eq!(DecoderState::from_entry(0xff), DecoderState::Illegal);
    assert_eq!(DecoderState::from_entry(0x28), DecoderState::Start);
}

#[test]
fn step_flags_are_read_from_an_entry() {
    assert_eq!(StepDirection::from_entry(DIR_CW), StepDirection::Clockwise);
    assert_eq!(StepDirection::from_entry(DIR_CCW), StepDirection::CounterClockwise);
    assert_eq!(StepDirection::from_entry(0x03), StepDirection::NoStep);
    assert_eq!(StepDirection::from_entry(0x30), StepDirection::NoStep);
    assert_eq!(StepDirection::from_entry(0x17), StepDirection::Clockwise);
    assert_eq!(DIR_MASK, 0x30);
    assert_eq!(STATE_MASK, 0x07);
}

#[test]
fn decode_is_total_over_states_and_samples() {
    for state in states() {
        for index in 0u8..4 {
            let (next, _) = decode_index(state, index);
            assert!(next.to_code() < 8);
            let entry = TRANSITION_TABLE[state.to_code() as usize][index as usize];
            assert_eq!(next, DecoderState::from_entry(entry));
        }
    }
}

#[test]
fn decode_follows_the_transition_table() {
    let expected: [[DecoderState; 4]; 8] = [
        [Start, Cw1, Ccw1, Start],
        [Cw2, Cw1, Start, Start],
        [Cw2, Cw1, Cw3, Start],
        [Cw2, Start, Cw3, Start],
        [Ccw2, Start, Ccw1, Start],
        [Ccw2, Ccw3, Ccw1, Start],
        [Ccw2, Ccw3, Start, Start],
        [Start, Start, Start, Start],
    ];
    for (row, state) in states().iter().enumerate() {
        for index in 0u8..4 {
            let (next, step) = decode_index(*state, index);
            assert_eq!(next, expected[row][index as usize]);
            let wanted = if index == 3 && *state == Cw3 {
                StepDirection::Clockwise
            } else if index == 3 && *state == Ccw3 {
                StepDirection::CounterClockwise
            } else {
                StepDirection::NoStep
            };
            assert_eq!(step, wanted);
        }
    }
}

#[test]
fn decode_ignores_an_index_that_is_no_sample() {
    for state in states() {
        assert_eq!(decode_index(state, 4), (state, StepDirection::NoStep));
        assert_eq!(decode_index(state, 255), (state, StepDirection::NoStep));
    }
}

#[test]
fn decode_clockwise_cycle_from_start() {
    let (s, step) = decode(DecoderState::Start, true, true);
    assert_eq!((s, step), (DecoderState::Start, StepDirection::NoStep));
    let (s, step) = decode(s, false, true);
    assert_eq!((s, step), (DecoderState::Cw1, StepDirection::NoStep));
    let (s, step) = decode(s, false, false);
    assert_eq!((s, step), (DecoderState::Cw2, StepDirection::NoStep));
    let (s, step) = decode(s, true, false);
    assert_eq!((s, step), (DecoderState::Cw3, StepDirection::NoStep));
    let (s, step) = decode(s, true, true);
    assert_eq!((s, step), (DecoderState::Start, StepDirection::Clockwise));
}

#[test]
fn decode_counter_clockwise_cycle_from_start() {
    let (s, step) = decode(DecoderState::Start, true, true);
    assert_eq!((s, step), (DecoderState::Start, StepDirection::NoStep));
    let (s, step) = decode(s, true, false);
    assert_eq!((s, step), (DecoderState::Ccw1, StepDirection::NoStep));
    let (s, step) = decode(s, false, false);
    assert_eq!((s, step), (DecoderState::Ccw2, StepDirection::NoStep));
    let (s, step) = decode(s, false, true);
    assert_eq!((s, step), (DecoderState::Ccw3, StepDirection::NoStep));
    let (s, step) = decode(s, true, true);
    assert_eq!((s, step), (DecoderState::Start, StepDirection::CounterClockwise));
}

#[test]
fn decode_rejects_a_bounce() {
    let (s, step) = decode(DecoderState::Start, true, true);
    assert_eq!(step, StepDirection::NoStep);
    let (s, step) = decode(s, false, true);
    assert_eq!(step, StepDirection::NoStep);
    let (s, step) = decode(s, true, true);
    assert_eq!((s, step), (DecoderState::Start, StepDirection::NoStep));
}

#[test]
fn decode_repeated_sample_rests_in_place() {
    assert_eq!(decode(DecoderState::Cw1, false, true).0, DecoderState::Cw1);
    assert_eq!(decode(DecoderState::Cw2, false, false).0, DecoderState::Cw2);
    assert_eq!(decode(DecoderState::Cw3, true, false).0, DecoderState::Cw3);
    assert_eq!(decode(DecoderState::Ccw1, true, false).0, DecoderState::Ccw1);
    assert_eq!(decode(DecoderState::Ccw2, false, false).0, DecoderState::Ccw2);
    assert_eq!(decode(DecoderState::Ccw3, false, true).0, DecoderState::Ccw3);
}

#[test]
fn decode_illegal_state_corrects_itself() {
    for index in 0u8..4 {
        assert_eq!(
            decode_index(DecoderState::Illegal, index),
            (DecoderState::Start, StepDirection::NoStep)
        );
    }
}

#[test]
fn config_validity() {
    assert!(config(0, 0, 1, false, RangeMode::Wrap).is_valid());
    assert!(config(-5, 5, i32::MAX, true, RangeMode::Bounded).is_valid());
    assert!(!config(1, 0, 1, false, RangeMode::Wrap).is_valid());
    assert!(!config(0, 1, 0, false, RangeMode::Wrap).is_valid());
    assert!(!config(0, 1, i32::MIN, false, RangeMode::Unbounded).is_valid());
}

#[test]
fn step_delta_signs() {
    let plain = config(0, 10, 3, false, RangeMode::Unbounded);
    let reversed = config(0, 10, 3, true, RangeMode::Unbounded);
    assert_eq!(step_delta(&plain, StepDirection::Clockwise), 3);
    assert_eq!(step_delta(&plain, StepDirection::CounterClockwise), -3);
    assert_eq!(step_delta(&plain, StepDirection::NoStep), 0);
    assert_eq!(step_delta(&reversed, StepDirection::Clockwise), -3);
    assert_eq!(step_delta(&reversed, StepDirection::CounterClockwise), 3);
    assert_eq!(step_delta(&reversed, StepDirection::NoStep), 0);
}

#[test]
fn wrap_value_is_floored() {
    assert_eq!(wrap_value(6, 0, 5), 0);
    assert_eq!(wrap_value(-1, 0, 5), 5);
    assert_eq!(wrap_value(-6, 0, 5), 0);
    assert_eq!(wrap_value(-7, 0, 5), 5);
    assert_eq!(wrap_value(-19, 0, 5), 5);
    assert_eq!(wrap_value(3, 0, 5), 3);
    assert_eq!(wrap_value(17, 10, 12), 11);
    assert_eq!(wrap_value(-4, -3, 3), 3);
    assert_eq!(wrap_value(9, 7, 7), 7);
    assert_eq!(wrap_value(i64::MIN, 0, 9), 2);
    assert_eq!(wrap_value(i64::MAX, 0, 9), 7);
    assert_eq!(wrap_value(i32::MAX as i64 + 1, i32::MIN, i32::MAX), i32::MIN);
}

#[test]
fn apply_step_without_a_step_changes_nothing() {
    let bounded = config(0, 10, 1, false, RangeMode::Bounded);
    let wrapping = config(0, 10, 1, false, RangeMode::Wrap);
    assert_eq!(apply_step(77, &bounded, StepDirection::NoStep), 77);
    assert_eq!(apply_step(-77, &wrapping, StepDirection::NoStep), -77);
}

#[test]
fn apply_step_under_each_policy() {
    let unbounded = config(0, 5, 2, false, RangeMode::Unbounded);
    let bounded = config(0, 5, 2, false, RangeMode::Bounded);
    let wrapping = config(0, 5, 2, false, RangeMode::Wrap);
    assert_eq!(apply_step(5, &unbounded, StepDirection::Clockwise), 7);
    assert_eq!(apply_step(5, &bounded, StepDirection::Clockwise), 5);
    assert_eq!(apply_step(5, &wrapping, StepDirection::Clockwise), 1);
    assert_eq!(apply_step(0, &unbounded, StepDirection::CounterClockwise), -2);
    assert_eq!(apply_step(0, &bounded, StepDirection::CounterClockwise), 0);
    assert_eq!(apply_step(0, &wrapping, StepDirection::CounterClockwise), 4);
    assert_eq!(apply_step(2, &bounded, StepDirection::Clockwise), 4);
    assert_eq!(apply_step(2, &wrapping, StepDirection::Clockwise), 4);
}

#[test]
fn apply_step_reversed_acts_as_the_opposite_step() {
    for mode in [RangeMode::Unbounded, RangeMode::Bounded, RangeMode::Wrap] {
        let plain = config(-4, 9, 3, false, mode);
        let reversed = config(-4, 9, 3, true, mode);
        for value in -6..12 {
            assert_eq!(
                apply_step(value, &reversed, StepDirection::Clockwise),
                apply_step(value, &plain, StepDirection::CounterClockwise)
            );
            assert_eq!(
                apply_step(value, &reversed, StepDirection::CounterClockwise),
                apply_step(value, &plain, StepDirection::Clockwise)
            );
        }
    }
}

#[test]
fn apply_step_stays_inside_the_integers() {
    let unbounded = config(0, 5, i32::MAX, false, RangeMode::Unbounded);
    assert_eq!(apply_step(1, &unbounded, StepDirection::Clockwise), i32::MAX);
    assert_eq!(apply_step(-2, &unbounded, StepDirection::CounterClockwise), i32::MIN);
    assert_eq!(apply_step(-1, &unbounded, StepDirection::CounterClockwise), i32::MIN);
    assert_eq!(apply_step(0, &unbounded, StepDirection::CounterClockwise), -i32::MAX);
}
