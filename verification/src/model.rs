//! The encoder as a mathematical value, and what holds of it over whole
//! sequences of pin samples.

use vstd::prelude::*;
use crate::decoder::{
    clockwise_detent, count_steps, counter_clockwise_detent, decode_step, run_state, DecoderState,
    StepDirection,
};
use crate::mapper::{
    flipped, lowering, mapped_value, raising, signed_increment, stored_value, EncoderConfig,
    RangeMode,
};

verus! {

/// An encoder as a plain value: its configuration, the decoder's state and the
/// held value.
pub struct EncoderModel {
    pub config: EncoderConfig,
    pub state: DecoderState,
    pub value: int,
}

impl EncoderModel {
    /// The encoder as it is built: at rest, holding the lower bound.
    pub open spec fn fresh(config: EncoderConfig) -> EncoderModel {
        EncoderModel { config, state: DecoderState::Start, value: config.min_value as int }
    }

    /// The encoder after one pin sample: the decoder advances, and the step it
    /// reports, if any, moves the value. State and value change together.
    pub open spec fn feed(self, index: int) -> EncoderModel {
        let (next, step) = decode_step(self.state, index);
        EncoderModel {
            config: self.config,
            state: next,
            value: stored_value(self.value, self.config, step),
        }
    }

    /// The encoder after the samples of `samples`, fed in order.
    pub open spec fn feed_all(self, samples: Seq<int>) -> EncoderModel
        decreases samples.len(),
    {
        if samples.len() == 0 {
            self
        } else {
            self.feed_all(samples.drop_last()).feed(samples.last())
        }
    }

    /// The encoder with another value; configuration and decoder state stay.
    pub open spec fn with_value(self, value: int) -> EncoderModel {
        EncoderModel { config: self.config, state: self.state, value }
    }

    /// The encoder that turns the other way: `reversed` flipped, the rest kept.
    pub open spec fn reversed(self) -> EncoderModel {
        EncoderModel { config: flipped(self.config), state: self.state, value: self.value }
    }

    /// The encoder with its value back at the lower bound.
    pub open spec fn reset(self) -> EncoderModel {
        self.with_value(self.config.min_value as int)
    }

    /// While `samples` are fed, no step moves the value past what an `i32` holds.
    pub open spec fn stays_representable(self, samples: Seq<int>) -> bool
        decreases samples.len(),
    {
        samples.len() == 0 || {
            let before = self.feed_all(samples.drop_last());
            let step = decode_step(before.state, samples.last()).1;
            let after = mapped_value(before.value, self.config, step);
            &&& self.stays_representable(samples.drop_last())
            &&& i32::MIN <= after <= i32::MAX
        }
    }
}

/// Feeding samples never touches the configuration, and the decoder's state
/// follows the samples alone, whatever the value and the configuration are.
pub proof fn lemma_feed_all_decodes(model: EncoderModel, samples: Seq<int>)
    ensures
        model.feed_all(samples).config == model.config,
        model.feed_all(samples).state == run_state(model.state, samples),
    decreases samples.len(),
{
    if samples.len() > 0 {
        lemma_feed_all_decodes(model, samples.drop_last());
    }
}

/// An unbounded encoder accumulates: after any samples its value is the value
/// it started from plus the increment, signed by `reversed`, times the number
/// of clockwise steps less the number of counter-clockwise steps, as long as
/// every value on the way is one that an `i32` holds.
pub proof fn lemma_unbounded_accumulates(model: EncoderModel, samples: Seq<int>)
    requires
        model.config.valid(),
        model.config.range_mode == RangeMode::Unbounded,
        i32::MIN <= model.value <= i32::MAX,
        model.stays_representable(samples),
    ensures
        model.feed_all(samples).value == model.value + (count_steps(
            model.state,
            samples,
            StepDirection::Clockwise,
        ) - count_steps(model.state, samples, StepDirection::CounterClockwise))
            * model.config.increment * (if model.config.reversed {
            -1int
        } else {
            1int
        }),
    decreases samples.len(),
{
    let cw = count_steps(model.state, samples, StepDirection::Clockwise) as int;
    let ccw = count_steps(model.state, samples, StepDirection::CounterClockwise) as int;
    let incr = model.config.increment as int;
    let sign = if model.config.reversed { -1int } else { 1int };
    if samples.len() == 0 {
        assert((cw - ccw) * incr * sign == 0) by (nonlinear_arith)
            requires
                cw - ccw == 0,
        ;
    } else {
        let front = samples.drop_last();
        lemma_unbounded_accumulates(model, front);
        lemma_feed_all_decodes(model, front);
        let before = model.feed_all(front);
        let step = decode_step(before.state, samples.last()).1;
        let cw0 = count_steps(model.state, front, StepDirection::Clockwise) as int;
        let ccw0 = count_steps(model.state, front, StepDirection::CounterClockwise) as int;
        assert((cw0 + 1 - ccw0) * incr * sign == (cw0 - ccw0) * incr * sign + incr * sign)
            by (nonlinear_arith);
        assert((cw0 - (ccw0 + 1)) * incr * sign == (cw0 - ccw0) * incr * sign - incr * sign)
            by (nonlinear_arith);
        assert(incr * sign == signed_increment(model.config, StepDirection::Clockwise))
            by (nonlinear_arith)
            requires
                sign == 1 || sign == -1,
                signed_increment(model.config, StepDirection::Clockwise) == (if sign == 1 {
                    incr
                } else {
                    -incr
                }),
        ;
    }
}

/// A bounded encoder that holds its upper bound stays there through any
/// samples that complete no lowering step, however many raising steps they hold.
pub proof fn lemma_bounded_holds_at_max(model: EncoderModel, samples: Seq<int>)
    requires
        model.config.valid(),
        model.config.range_mode == RangeMode::Bounded,
        model.value == model.config.max_value,
        count_steps(model.state, samples, lowering(model.config)) == 0,
    ensures
        model.feed_all(samples).value == model.config.max_value,
    decreases samples.len(),
{
    if samples.len() > 0 {
        let front = samples.drop_last();
        lemma_bounded_holds_at_max(model, front);
        lemma_feed_all_decodes(model, front);
    }
}

/// A bounded encoder that holds its lower bound stays there through any
/// samples that complete no raising step.
pub proof fn lemma_bounded_holds_at_min(model: EncoderModel, samples: Seq<int>)
    requires
        model.config.valid(),
        model.config.range_mode == RangeMode::Bounded,
        model.value == model.config.min_value,
        count_steps(model.state, samples, raising(model.config)) == 0,
    ensures
        model.feed_all(samples).value == model.config.min_value,
    decreases samples.len(),
{
    if samples.len() > 0 {
        let front = samples.drop_last();
        lemma_bounded_holds_at_min(model, front);
        lemma_feed_all_decodes(model, front);
    }
}

/// Under `Wrap` and `Bounded` a value inside the range stays inside it,
/// whatever samples are fed.
pub proof fn lemma_range_is_kept(model: EncoderModel, samples: Seq<int>)
    requires
        model.config.valid(),
        model.config.range_mode != RangeMode::Unbounded,
        model.config.min_value <= model.value <= model.config.max_value,
    ensures
        model.config.min_value <= model.feed_all(samples).value <= model.config.max_value,
    decreases samples.len(),
{
    if samples.len() > 0 {
        let front = samples.drop_last();
        lemma_range_is_kept(model, front);
        lemma_feed_all_decodes(model, front);
    }
}

/// Resetting the value does not disturb decoding: the samples that follow lead
/// the decoder through the same states, and the encoder behaves as one that
/// was just built and whose decoder stood in that state.
pub proof fn lemma_reset_keeps_decoding(model: EncoderModel, samples: Seq<int>)
    ensures
        model.reset().state == model.state,
        model.reset().feed_all(samples).state == model.feed_all(samples).state,
        model.reset().feed_all(samples) == (EncoderModel {
            state: model.state,
            ..EncoderModel::fresh(model.config)
        }).feed_all(samples),
{
    lemma_feed_all_decodes(model, samples);
    lemma_feed_all_decodes(model.reset(), samples);
}

/// Reversal over whole sample sequences: fed the same samples, an unbounded
/// encoder and its reversed twin end as far from the value they started at,
/// on opposite sides, as long as an `i32` holds every value on both ways.
pub proof fn lemma_reversed_inverts_run(model: EncoderModel, samples: Seq<int>)
    requires
        model.config.valid(),
        model.config.range_mode == RangeMode::Unbounded,
        i32::MIN <= model.value <= i32::MAX,
        model.stays_representable(samples),
        model.reversed().stays_representable(samples),
    ensures
        model.reversed().feed_all(samples).state == model.feed_all(samples).state,
        model.reversed().feed_all(samples).value - model.value == -(model.feed_all(samples).value
            - model.value),
{
    let twin = model.reversed();
    lemma_unbounded_accumulates(model, samples);
    lemma_unbounded_accumulates(twin, samples);
    lemma_feed_all_decodes(model, samples);
    lemma_feed_all_decodes(twin, samples);
    let net = count_steps(model.state, samples, StepDirection::Clockwise) - count_steps(
        model.state,
        samples,
        StepDirection::CounterClockwise,
    );
    let incr = model.config.increment as int;
    assert(net * incr * (-1int) == -(net * incr * 1int)) by (nonlinear_arith);
}


/// Feeding one more sample is one more `feed`, on the encoder that the samples
/// before it led to.
pub proof fn lemma_feed_all_push(model: EncoderModel, samples: Seq<int>, index: int)
    ensures
        model.feed_all(samples.push(index)) == model.feed_all(samples).feed(index),
{
    assert(samples.push(index).drop_last() =~= samples);
}

/// One full detent is one step: an encoder at rest that is fed a clockwise
/// detent ends at rest with its value moved by one clockwise step, and fed a
/// counter-clockwise detent, by one counter-clockwise step.
pub proof fn lemma_detent_is_one_step(model: EncoderModel)
    requires
        model.state == DecoderState::Start,
        i32::MIN <= model.value <= i32::MAX,
    ensures
        model.feed_all(clockwise_detent()) == model.with_value(
            stored_value(model.value, model.config, StepDirection::Clockwise),
        ),
        model.feed_all(counter_clockwise_detent()) == model.with_value(
            stored_value(model.value, model.config, StepDirection::CounterClockwise),
        ),
{
    let s0 = Seq::<int>::empty();
    let cw1 = s0.push(3);
    let cw2 = cw1.push(1);
    let cw3 = cw2.push(0);
    let cw4 = cw3.push(2);
    let cw5 = cw4.push(3);
    lemma_feed_all_push(model, s0, 3);
    lemma_feed_all_push(model, cw1, 1);
    lemma_feed_all_push(model, cw2, 0);
    lemma_feed_all_push(model, cw3, 2);
    lemma_feed_all_push(model, cw4, 3);
    assert(clockwise_detent() =~= cw5);
    let ccw2 = cw1.push(2);
    let ccw3 = ccw2.push(0);
    let ccw4 = ccw3.push(1);
    let ccw5 = ccw4.push(3);
    lemma_feed_all_push(model, cw1, 2);
    lemma_feed_all_push(model, ccw2, 0);
    lemma_feed_all_push(model, ccw3, 1);
    lemma_feed_all_push(model, ccw4, 3);
    assert(counter_clockwise_detent() =~= ccw5);
}

} // verus!
