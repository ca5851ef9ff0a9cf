use vstd::prelude::*;

verus! {

// Audio / DSP

/// Number of selected input samples in one analysis frame.
pub const FRAME_LEN: usize = 512;

pub const HOP_LEN: usize = 256;

// YIN

/// Largest lag that the pitch detector examines.
pub const TAU_MAX: usize = 400;

// Throttling

/// Pitch detection runs on every frame whose number is a multiple of this.
pub const DETECT_EVERY_N_FRAMES: u32 = 2;

// Input channel selection

/// Interleaved input: one sample in `INPUT_STRIDE` belongs to the instrument.
pub const INPUT_STRIDE: usize = 2;

/// Position of the instrument's sample inside each group of `INPUT_STRIDE`.
pub const INPUT_OFFSET: usize = 0;

// MIDI

pub const MIDI_VELOCITY: u8 = 100;

pub const MIDI_MIN_NOTE: u8 = 24;

pub const MIDI_MAX_NOTE: u8 = 96;

/// Missed detections after which a sounding note is released.
pub const NOTE_OFF_AFTER_MISSES: u8 = 2;

/// Consecutive readings of a new note before the smoother switches to it.
pub const CONFIRMATIONS: u8 = 3;

/// Capacity of the looper's event buffer.
pub const MAX_EVENTS: usize = 256;

// Expression pedal

/// Number of MIDI channels the expression pedal selects from.
pub const EXP_CHANNELS: usize = 4;

/// Width of one channel's zone in raw ADC units.
pub const EXP_ZONE_WIDTH: u32 = 16384;

/// How far past a zone border the pedal must move before the channel changes.
pub const EXP_HYSTERESIS: u32 = 1024;

/// Holding SW2 at least this long (milliseconds) clears the loop.
pub const CLEAR_HOLD_MS: u64 = 1000;

// USB identity

pub const USB_VID: u16 = 0xdead;

pub const USB_PID: u16 = 0xc0de;

} // verus!
