use vstd::prelude::*;

use crate::config::{MIDI_MAX_NOTE, MIDI_MIN_NOTE};

verus! {

/// The value of a 24-bit two's-complement sample held in the low bits of `y`.
pub open spec fn signed24(y: u32) -> int {
    let low = y as int % 0x100_0000;
    if low >= 0x80_0000 {
        low - 0x100_0000
    } else {
        low
    }
}

/// Turns a 24-bit two's-complement sample (in the low bits of `y`) into
/// offset binary: 0 for the most negative sample, 0x80_0000 for silence,
/// 0xFF_FFFF for the most positive one.
pub fn u24_to_offset_binary(y: u32) -> (u: u32)
    ensures
        u == (y as int + 0x80_0000) % 0x100_0000,
        u == signed24(y) + 0x80_0000,
        u < 0x100_0000,
{
    let u = y.wrapping_add(0x0080_0000) & 0x00FF_FFFF;
    assert(y.wrapping_add(0x0080_0000) & 0x00FF_FFFF == ((y as int + 0x80_0000) % 0x100_0000) as u32)
        by (bit_vector);
    u
}

/// The MIDI note for a rounded note number, when it lies in the range the
/// pedal plays (`MIDI_MIN_NOTE` to `MIDI_MAX_NOTE`).
pub fn midi_note_in_range(note_i: i32) -> (note: Option<u8>)
    ensures
        note == (if note_i < MIDI_MIN_NOTE || note_i > MIDI_MAX_NOTE { None } else { Some(note_i as u8) }),
        note matches Some(n) ==> MIDI_MIN_NOTE <= n <= MIDI_MAX_NOTE && n == note_i,
{
    if note_i < MIDI_MIN_NOTE as i32 || note_i > MIDI_MAX_NOTE as i32 {
        None
    } else {
        Some(note_i as u8)
    }
}

} // verus!
