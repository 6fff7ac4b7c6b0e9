//! The value mapper: how one detected step moves the held value under the
//! configured range policy.

use vstd::prelude::*;
use vstd::arithmetic::div_mod::{lemma_fundamental_div_mod, lemma_fundamental_div_mod_converse};
use crate::decoder::StepDirection;

verus! {

/// How a value that would leave `[min_value, max_value]` is resolved.
#[derive(Debug, Clone, Copy, PartialEq, Eq, Structural)]
pub enum RangeMode {
    /// The value moves freely; the bounds are not enforced.
    Unbounded,
    /// The value is reduced into the range modulo its width.
    Wrap,
    /// The value stops at the nearest bound.
    Bounded,
}

/// The one way in which building an encoder fails.
#[derive(Debug, Clone, Copy, PartialEq, Eq, Structural)]
pub enum EncoderError {
    /// `min_value > max_value`, or `increment <= 0`.
    InvalidConfig,
}

/// What is fixed when an encoder is built.
#[derive(Debug, Clone, Copy, PartialEq, Eq, Structural)]
pub struct EncoderConfig {
    /// Lower bound of the range, inclusive.
    pub min_value: i32,
    /// Upper bound of the range, inclusive.
    pub max_value: i32,
    /// How far one detent moves the value.
    pub increment: i32,
    /// Whether a clockwise detent lowers the value instead of raising it.
    pub reversed: bool,
    pub range_mode: RangeMode,
}

impl EncoderConfig {
    /// The bounds are ordered and the increment is positive.
    pub open spec fn valid(&self) -> bool {
        self.min_value <= self.max_value && self.increment > 0
    }

    /// Number of values in `[min_value, max_value]`.
    pub open spec fn width(&self) -> int {
        self.max_value - self.min_value + 1
    }

    pub fn is_valid(&self) -> (ok: bool)
        ensures
            ok == self.valid(),
    {
        self.min_value <= self.max_value && self.increment > 0
    }
}

/// The signed amount by which a step moves the value before the range policy:
/// the increment for a clockwise step, its negative for a counter-clockwise
/// one, with the sign flipped when the configuration is reversed.
pub open spec fn signed_increment(config: EncoderConfig, direction: StepDirection) -> int {
    let raw: int = match direction {
        StepDirection::Clockwise => config.increment as int,
        StepDirection::CounterClockwise => -(config.increment as int),
        StepDirection::NoStep => 0,
    };
    if config.reversed {
        -raw
    } else {
        raw
    }
}

/// `value` held to `[min, max]`: the nearest bound when it lies outside.
pub open spec fn clamp_into(value: int, min: int, max: int) -> int {
    if value < min {
        min
    } else if value > max {
        max
    } else {
        value
    }
}

/// `value` reduced into `[min, max]` modulo the width of the range. The
/// remainder is the mathematical one, never negative, so a value below `min`
/// by any distance lands inside the range.
pub open spec fn wrap_into(value: int, min: int, max: int) -> int {
    min + (value - min) % (max - min + 1)
}

/// The value after a step, as the range policy defines it over the integers.
/// No step leaves the value as it is, whatever it is.
pub open spec fn mapped_value(value: int, config: EncoderConfig, direction: StepDirection) -> int {
    if direction == StepDirection::NoStep {
        value
    } else {
        let moved = value + signed_increment(config, direction);
        match config.range_mode {
            RangeMode::Unbounded => moved,
            RangeMode::Bounded => clamp_into(moved, config.min_value as int, config.max_value as int),
            RangeMode::Wrap => wrap_into(moved, config.min_value as int, config.max_value as int),
        }
    }
}

/// The value that is held after a step: `mapped_value`, which an unbounded
/// encoder holds to what an `i32` can represent.
pub open spec fn stored_value(value: int, config: EncoderConfig, direction: StepDirection) -> int {
    clamp_into(mapped_value(value, config, direction), i32::MIN as int, i32::MAX as int)
}

/// The signed increment of a step, as a machine integer.
pub fn step_delta(config: &EncoderConfig, direction: StepDirection) -> (delta: i32)
    requires
        config.valid(),
    ensures
        delta as int == signed_increment(*config, direction),
        delta == 0 <==> direction == StepDirection::NoStep,
{
    let raw: i32 = match direction {
        StepDirection::Clockwise => config.increment,
        StepDirection::CounterClockwise => -config.increment,
        StepDirection::NoStep => 0,
    };
    if config.reversed {
        -raw
    } else {
        raw
    }
}

/// Reduces `value` into `[min, max]` modulo the width of the range.
pub fn wrap_value(value: i64, min: i32, max: i32) -> (wrapped: i32)
    requires
        min <= max,
    ensures
        wrapped as int == wrap_into(value as int, min as int, max as int),
        min <= wrapped <= max,
{
    let width: i128 = max as i128 - min as i128 + 1;
    let offset: i128 = value as i128 - min as i128;
    let rem: i128 = if offset >= 0 {
        offset % width
    } else {
        let back: i128 = (-offset) % width;
        proof {
            let q = (-offset) as int / width as int;
            lemma_fundamental_div_mod(-offset as int, width as int);
            if back == 0 {
                assert(offset as int == (-q) * width + 0) by (nonlinear_arith)
                    requires
                        -offset as int == width * q + 0,
                ;
                lemma_fundamental_div_mod_converse(offset as int, width as int, -q, 0);
            } else {
                assert(offset as int == (-q - 1) * width + (width - back)) by (nonlinear_arith)
                    requires
                        -offset as int == width * q + back,
                ;
                lemma_fundamental_div_mod_converse(
                    offset as int,
                    width as int,
                    -q - 1,
                    width - back,
                );
            }
        }
        if back == 0 {
            0
        } else {
            width - back
        }
    };
    (min as i128 + rem) as i32
}

/// Applies one step to `value` under the range policy of `config`.
pub fn apply_step(value: i32, config: &EncoderConfig, direction: StepDirection) -> (new_value: i32)
    requires
        config.valid(),
    ensures
        new_value as int == stored_value(value as int, *config, direction),
        direction == StepDirection::NoStep ==> new_value == value,
        direction != StepDirection::NoStep && config.range_mode != RangeMode::Unbounded
            ==> config.min_value <= new_value <= config.max_value,
{
    let delta = step_delta(config, direction);
    if delta == 0 {
        return value;
    }
    let moved: i64 = value as i64 + delta as i64;
    match config.range_mode {
        RangeMode::Unbounded => {
            if moved < i32::MIN as i64 {
                i32::MIN
            } else if moved > i32::MAX as i64 {
                i32::MAX
            } else {
                moved as i32
            }
        },
        RangeMode::Bounded => {
            if moved < config.min_value as i64 {
                config.min_value
            } else if moved > config.max_value as i64 {
                config.max_value
            } else {
                moved as i32
            }
        },
        RangeMode::Wrap => wrap_value(moved, config.min_value, config.max_value),
    }
}

/// What `wrap_into` gives: a value of the range that differs from `value` by a
/// whole number of range widths. A value of the range is left as it is; one
/// past the upper bound becomes the lower bound, and one before the lower
/// bound becomes the upper bound.
pub proof fn lemma_wrap_into_range(value: int, min: int, max: int)
    requires
        min <= max,
    ensures
        min <= wrap_into(value, min, max) <= max,
        (value - wrap_into(value, min, max)) % (max - min + 1) == 0,
        min <= value <= max ==> wrap_into(value, min, max) == value,
        value == max + 1 ==> wrap_into(value, min, max) == min,
        value == min - 1 ==> wrap_into(value, min, max) == max,
{
    let width = max - min + 1;
    let offset = value - min;
    let q = offset / width;
    let r = offset % width;
    lemma_fundamental_div_mod(offset, width);
    assert(value - wrap_into(value, min, max) == q * width + 0) by (nonlinear_arith)
        requires
            offset == width * q + r,
            value - wrap_into(value, min, max) == offset - r,
    ;
    lemma_fundamental_div_mod_converse(value - wrap_into(value, min, max), width, q, 0);
    if min <= value <= max {
        assert(offset == 0 * width + offset) by (nonlinear_arith);
        lemma_fundamental_div_mod_converse(offset, width, 0, offset);
    }
    if value == max + 1 {
        assert(offset == 1 * width + 0) by (nonlinear_arith)
            requires
                offset == width,
        ;
        lemma_fundamental_div_mod_converse(offset, width, 1, 0);
    }
    if value == min - 1 {
        assert(offset == (-1) * width + (width - 1)) by (nonlinear_arith)
            requires
                offset == -1,
        ;
        lemma_fundamental_div_mod_converse(offset, width, -1, width - 1);
    }
}

/// The configuration that turns the other way: `reversed` flipped, the rest kept.
pub open spec fn flipped(config: EncoderConfig) -> EncoderConfig {
    EncoderConfig { reversed: !config.reversed, ..config }
}

/// The other direction of a step; no step has none.
pub open spec fn opposite(direction: StepDirection) -> StepDirection {
    match direction {
        StepDirection::Clockwise => StepDirection::CounterClockwise,
        StepDirection::CounterClockwise => StepDirection::Clockwise,
        StepDirection::NoStep => StepDirection::NoStep,
    }
}

/// Reversing the configuration inverts the sign of every step's effect: the
/// signed increment is negated, so a step acts as the opposite step does
/// without the reversal, and an unbounded value moves as far the other way.
pub proof fn lemma_reversed_inverts_step(config: EncoderConfig, value: int, direction: StepDirection)
    ensures
        signed_increment(flipped(config), direction) == -signed_increment(config, direction),
        mapped_value(value, flipped(config), direction) == mapped_value(
            value,
            config,
            opposite(direction),
        ),
        stored_value(value, flipped(config), direction) == stored_value(
            value,
            config,
            opposite(direction),
        ),
        config.range_mode == RangeMode::Unbounded ==> mapped_value(
            value,
            flipped(config),
            direction,
        ) - value == -(mapped_value(value, config, direction) - value),
{
}

/// The direction whose steps raise the value under `config`.
pub open spec fn raising(config: EncoderConfig) -> StepDirection {
    if config.reversed {
        StepDirection::CounterClockwise
    } else {
        StepDirection::Clockwise
    }
}

/// The direction whose steps lower the value under `config`.
pub open spec fn lowering(config: EncoderConfig) -> StepDirection {
    if config.reversed {
        StepDirection::Clockwise
    } else {
        StepDirection::CounterClockwise
    }
}

/// A wrapping encoder that moves by one goes round at both ends: one raising
/// step from the upper bound gives the lower bound, and one lowering step
/// from the lower bound gives the upper bound.
pub proof fn lemma_wrap_goes_round(config: EncoderConfig)
    requires
        config.valid(),
        config.range_mode == RangeMode::Wrap,
        config.increment == 1,
    ensures
        stored_value(config.max_value as int, config, raising(config)) == config.min_value,
        stored_value(config.min_value as int, config, lowering(config)) == config.max_value,
{
    lemma_wrap_into_range(config.max_value + 1, config.min_value as int, config.max_value as int);
    lemma_wrap_into_range(config.min_value - 1, config.min_value as int, config.max_value as int);
}

} // verus!
