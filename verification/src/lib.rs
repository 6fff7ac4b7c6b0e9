//! Quadrature rotary encoder decoding: a full-step transition machine over the
//! two pin levels, and a value that follows the detected steps under a range
//! policy.

pub mod decoder;
pub mod mapper;
pub mod model;
pub mod rotary_encoder;

pub use decoder::{decode, decode_index, pin_index, DecoderState, StepDirection};
pub use mapper::{apply_step, EncoderConfig, EncoderError, RangeMode};
pub use model::EncoderModel;
pub use rotary_encoder::RotaryEncoder;
