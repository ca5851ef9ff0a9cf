//! Verified core of the tau pedal firmware: the decisions that turn
//! instrument input, footswitches and an expression pedal into USB MIDI.
//!
//! Hardware access, the async runtime, and everything that works on
//! floating-point samples live in the firmware around this library; the
//! library receives plain values (pin levels, ADC readings, millisecond
//! timestamps, detected note numbers) and answers with plain values (MIDI
//! messages, looper controls, LED levels).

pub mod audio;
pub mod board;
pub mod colours;
pub mod config;
pub mod dsp;
pub mod midi;
pub mod utils;
