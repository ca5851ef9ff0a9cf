use vstd::prelude::*;

use crate::config::MIDI_VELOCITY;

verus! {

/// A MIDI channel-voice message as the pedal produces it.
#[derive(Clone, Copy, PartialEq, Eq, Structural, Debug)]
pub enum MidiEvent {
    NoteOn { channel: u8, note: u8, velocity: u8 },
    NoteOff { channel: u8, note: u8 },
    ControlChange { channel: u8, cc: u8, value: u8 },
}

/// The four bytes of the USB-MIDI event packet (cable 0) that carries `e`:
/// code index number, status byte, then the two data bytes.
pub open spec fn usb_packet_of(e: MidiEvent) -> Seq<u8> {
    match e {
        MidiEvent::NoteOn { channel, note, velocity } => seq![
            0x09u8,
            0x90u8 | (channel & 0x0f),
            note,
            velocity,
        ],
        MidiEvent::NoteOff { channel, note } => seq![0x08u8, 0x80u8 | (channel & 0x0f), note, 0u8],
        MidiEvent::ControlChange { channel, cc, value } => seq![
            0x0Bu8,
            0xB0u8 | (channel & 0x0f),
            cc,
            value,
        ],
    }
}

/// The channel a message is addressed to, as carried in the message.
pub open spec fn channel_of(e: MidiEvent) -> u8 {
    match e {
        MidiEvent::NoteOn { channel, .. } => channel,
        MidiEvent::NoteOff { channel, .. } => channel,
        MidiEvent::ControlChange { channel, .. } => channel,
    }
}

impl MidiEvent {
    /// Encodes the message as a USB-MIDI event packet.
    pub fn to_usb_packet(self) -> (packet: [u8; 4])
        ensures
            packet@ == usb_packet_of(self),
    {
        let packet = match self {
            MidiEvent::NoteOn { channel, note, velocity } => [
                0x09,
                0x90 | (channel & 0x0f),
                note,
                velocity,
            ],
            MidiEvent::NoteOff { channel, note } => [0x08, 0x80 | (channel & 0x0f), note, 0],
            MidiEvent::ControlChange { channel, cc, value } => [
                0x0B,
                0xB0 | (channel & 0x0f),
                cc,
                value,
            ],
        };
        assert(packet@ =~= usb_packet_of(self));
        packet
    }

    /// A note-on for `note` on `channel` (truncated to its low byte) at the
    /// pedal's fixed velocity.
    pub fn note_on(channel: usize, note: u8) -> (e: Self)
        ensures
            e == (MidiEvent::NoteOn { channel: channel as u8, note, velocity: MIDI_VELOCITY }),
    {
        Self::NoteOn { channel: channel as u8, note, velocity: MIDI_VELOCITY }
    }

    /// A note-off for `note` on `channel` (truncated to its low byte).
    pub fn note_off(channel: usize, note: u8) -> (e: Self)
        ensures
            e == (MidiEvent::NoteOff { channel: channel as u8, note }),
    {
        Self::NoteOff { channel: channel as u8, note }
    }

    /// A control change of controller `cc` to `value` on `channel`
    /// (truncated to its low byte).
    pub fn control_change(channel: usize, cc: u8, value: u8) -> (e: Self)
        ensures
            e == (MidiEvent::ControlChange { channel: channel as u8, cc, value }),
    {
        Self::ControlChange { channel: channel as u8, cc, value }
    }
}

/// Every packet is well framed: its code index number equals the high nibble
/// of its status byte, and the status byte's low nibble is the message's
/// channel modulo 16.
pub proof fn lemma_usb_packet_framing(e: MidiEvent)
    ensures
        usb_packet_of(e).len() == 4,
        usb_packet_of(e)[0] == usb_packet_of(e)[1] >> 4u8,
        usb_packet_of(e)[1] & 0x0fu8 == channel_of(e) % 16,
        usb_packet_of(e)[1] >= 0x80,
{
    let c = channel_of(e);
    match e {
        MidiEvent::NoteOn { channel, .. } => {
            assert(((0x90u8 | (c & 0x0f)) >> 4u8) == 0x09u8 && ((0x90u8 | (c & 0x0f)) & 0x0fu8)
                == c % 16 && (0x90u8 | (c & 0x0f)) >= 0x80) by (bit_vector);
        },
        MidiEvent::NoteOff { channel, .. } => {
            assert(((0x80u8 | (c & 0x0f)) >> 4u8) == 0x08u8 && ((0x80u8 | (c & 0x0f)) & 0x0fu8)
                == c % 16 && (0x80u8 | (c & 0x0f)) >= 0x80) by (bit_vector);
        },
        MidiEvent::ControlChange { channel, .. } => {
            assert(((0xB0u8 | (c & 0x0f)) >> 4u8) == 0x0Bu8 && ((0xB0u8 | (c & 0x0f)) & 0x0fu8)
                == c % 16 && (0xB0u8 | (c & 0x0f)) >= 0x80) by (bit_vector);
        },
    }
}

/// The data bytes of a packet: a note-on carries its note and velocity, a
/// note-off its note and velocity 0, a control change its controller and value.
pub proof fn lemma_usb_packet_data(e: MidiEvent)
    ensures
        e matches MidiEvent::NoteOn { note, velocity, .. } ==> usb_packet_of(e)[2] == note
            && usb_packet_of(e)[3] == velocity && usb_packet_of(e)[0] == 0x09,
        e matches MidiEvent::NoteOff { note, .. } ==> usb_packet_of(e)[2] == note && usb_packet_of(e)[3] == 0
            && usb_packet_of(e)[0] == 0x08,
        e matches MidiEvent::ControlChange { cc, value, .. } ==> usb_packet_of(e)[2] == cc
            && usb_packet_of(e)[3] == value && usb_packet_of(e)[0] == 0x0B,
{
}

} // verus!
