//! Animation engine for an addressable RGB LED strip: colours, frames,
//! sequences with their composition algebra, sequence generators, the
//! strip's wire encodings and the decisions of its playback loop.

pub mod error;
pub mod ratio;
pub mod led;
pub mod frame;
pub mod sequence;
pub mod sequence_generator;
pub mod stripe;
pub mod led_stripe;
pub mod door;
pub mod messages;
pub mod commands;
pub mod bcd;

pub use error::LedError;
pub use frame::Frame;
pub use ratio::Ratio;
pub use sequence::Sequence;
pub use sequence_generator::SequenzGenerator;
pub use bcd::{bcd2dec, dec2bcd};
pub use commands::{led_settings_sequence, playertable_frame};
pub use door::{Door, Event, MotorObserver, State};
pub use messages::{PlayerColors, ServerMsg, WorkMode};
pub use stripe::{Playback, PlaybackAction, Stripe, frame_period_micros};
pub use led::{LED, lerp_leds};
