use vstd::prelude::*;

use crate::midi::messages::MidiEvent;
use crate::config::MIDI_VELOCITY;

verus! {

/// The USB host went away; the event loop ends and waits for a new connection.
#[derive(Clone, Copy, PartialEq, Eq, Structural, Debug)]
pub struct Disconnected {}

/// The message that sending a note-on for `note` on `channel` queues for
/// the USB host.
pub fn send_note_on(channel: usize, note: u8) -> (queued: MidiEvent)
    ensures
        queued == (MidiEvent::NoteOn { channel: channel as u8, note, velocity: MIDI_VELOCITY }),
{
    MidiEvent::note_on(channel, note)
}

/// The message that sending a note-off for `note` on `channel` queues for
/// the USB host.
pub fn send_note_off(channel: usize, note: u8) -> (queued: MidiEvent)
    ensures
        queued == (MidiEvent::NoteOff { channel: channel as u8, note }),
{
    MidiEvent::note_off(channel, note)
}

} // verus!
