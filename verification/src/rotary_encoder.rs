//! The encoder: configuration, decoder state and held value behind one owner.
//!
//! Every operation that changes the encoder takes it by exclusive reference,
//! so the state and the value are always those of one completed operation.

use vstd::prelude::*;
use crate::decoder::{decode, sample_index, DecoderState};
use crate::mapper::{apply_step, EncoderConfig, EncoderError, RangeMode};
use crate::model::EncoderModel;

verus! {

/// A rotary encoder: it is fed pin samples and holds the value they lead to.
pub struct RotaryEncoder {
    config: EncoderConfig,
    state: DecoderState,
    value: i32,
}

impl View for RotaryEncoder {
    type V = EncoderModel;

    closed spec fn view(&self) -> EncoderModel {
        EncoderModel { config: self.config, state: self.state, value: self.value as int }
    }
}

impl RotaryEncoder {
    /// What holds of every encoder: its configuration is valid.
    #[verifier::type_invariant]
    pub closed spec fn well_formed(&self) -> bool {
        self.config.valid()
    }

    /// A well-formed encoder has a valid configuration and holds an `i32`.
    pub proof fn lemma_well_formed(self)
        requires
            self.well_formed(),
        ensures
            self@.config.valid(),
            i32::MIN <= self@.value <= i32::MAX,
    {
    }

    /// Builds an encoder at rest that holds `min_val`. Fails when the bounds
    /// are out of order or the increment is not positive.
    pub fn new(min_val: i32, max_val: i32, incr: i32, reverse: bool, range_mode: RangeMode) -> (built:
        Result<RotaryEncoder, EncoderError>)
        ensures
            built is Ok <==> min_val <= max_val && incr > 0,
            built is Err ==> built == Err::<RotaryEncoder, EncoderError>(EncoderError::InvalidConfig),
            built is Ok ==> built->Ok_0@ == EncoderModel::fresh(
                (EncoderConfig {
                    min_value: min_val,
                    max_value: max_val,
                    increment: incr,
                    reversed: reverse,
                    range_mode,
                }),
            ),
            built is Ok ==> built->Ok_0.well_formed(),
    {
        let config = EncoderConfig {
            min_value: min_val,
            max_value: max_val,
            increment: incr,
            reversed: reverse,
            range_mode,
        };
        if config.is_valid() {
            Ok(RotaryEncoder { config, state: DecoderState::Start, value: min_val })
        } else {
            Err(EncoderError::InvalidConfig)
        }
    }

    /// The held value.
    pub fn value(&self) -> (value: i32)
        ensures
            value as int == self@.value,
    {
        self.value
    }

    /// Replaces the held value. The range is not enforced here: under `Wrap`
    /// and `Bounded` the next step brings the value back into it.
    pub fn set_value(&mut self, value: i32)
        ensures
            final(self)@ == old(self)@.with_value(value as int),
    {
        proof {
            use_type_invariant(&*self);
        }
        self.value = value;
    }

    /// Puts the held value back to the lower bound. The decoder keeps its state.
    pub fn reset(&mut self)
        ensures
            final(self)@ == old(self)@.reset(),
            final(self)@.value == old(self)@.config.min_value,
            final(self)@.state == old(self)@.state,
            final(self)@.config == old(self)@.config,
    {
        proof {
            use_type_invariant(&*self);
        }
        self.value = self.config.min_value;
    }

    /// Feeds one sample of the two pin levels: the decoder advances, and when
    /// the sample completes a detent the value moves by one step under the
    /// range policy. State and value change as one.
    pub fn process_pins(&mut self, clk: bool, dt: bool)
        ensures
            final(self)@ == old(self)@.feed(sample_index(clk, dt)),
    {
        proof {
            use_type_invariant(&*self);
        }
        let (next, step) = decode(self.state, clk, dt);
        let moved = apply_step(self.value, &self.config, step);
        self.state = next;
        self.value = moved;
    }

    /// The held value, read as an angle in degrees.
    pub fn angle(&self) -> (angle: i32)
        ensures
            angle as int == self@.value,
    {
        self.value()
    }
}

} // verus!
