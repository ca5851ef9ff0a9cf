pub mod looper;
pub mod messages;
pub mod usb;

pub use messages::MidiEvent;
