use tau::audio::input::{input_selection, FrameAssembler};
use tau::board::{expression_raw_to_channel, release_control, AuxController, ChLeds, State, SwitchEvent, AUX1};
use tau::colours::Rgb;
use tau::config::{CONFIRMATIONS, FRAME_LEN, MAX_EVENTS, MIDI_VELOCITY};
use tau::dsp::pitch::{ActiveNote, NoteTracker};
use tau::dsp::smoothing::NoteSmoother;
use tau::midi::looper::{Looper, LooperControl, LooperState};
use tau::midi::usb::{send_note_off, send_note_on, Disconnected};
use tau::midi::MidiEvent;
use tau::utils::{midi_note_in_range, u24_to_offset_binary};

// ---- MIDI messages ----

#[test]
fn note_on_packet() {
    let e = MidiEvent::note_on(2, 60);
    assert_eq!(e, MidiEvent::NoteOn { channel: 2, note: 60, velocity: MIDI_VELOCITY });
    assert_eq!(e.to_usb_packet(), [0x09, 0x92, 60, 100]);
}

#[test]
fn note_off_packet_masks_channel() {
    let e = MidiEvent::note_off(17, 64);
    assert_eq!(e, MidiEvent::NoteOff { channel: 17, note: 64 });
    assert_eq!(e.to_usb_packet(), [0x08, 0x81, 64, 0]);
}

#[test]
fn control_change_packet() {
    let e = MidiEvent::control_change(0, 123, 0);
    assert_eq!(e.to_usb_packet(), [0x0B, 0xB0, 123, 0]);
    assert_eq!(MidiEvent::control_change(15, 7, 127).to_usb_packet(), [0x0B, 0xBF, 7, 127]);
}

#[test]
fn channel_truncates_to_low_byte() {
    assert_eq!(MidiEvent::note_on(256 + 3, 1), MidiEvent::NoteOn { channel: 3, note: 1, velocity: 100 });
}

#[test]
fn packets_are_framed() {
    for ch in 0..40usize {
        for e in [MidiEvent::note_on(ch, 61), MidiEvent::note_off(ch, 61), MidiEvent::control_change(ch, 1, 2)] {
            let p = e.to_usb_packet();
            assert_eq!(p[0], p[1] >> 4);
            assert_eq!((p[1] & 0x0f) as usize, ch % 16);
        }
    }
}

#[test]
fn send_note_messages() {
    assert_eq!(send_note_on(1, 48), MidiEvent::NoteOn { channel: 1, note: 48, velocity: 100 });
    assert_eq!(send_note_off(3, 50), MidiEvent::NoteOff { channel: 3, note: 50 });
    let d = Disconnected {};
    assert_eq!(d, Disconnected {});
}

// ---- note smoothing ----

#[test]
fn smoother_first_note_immediate() {
    let mut s = NoteSmoother::new();
    assert_eq!(s.update(Some(60)), Some(60));
    assert_eq!(s.update(Some(60)), Some(60));
}

#[test]
fn smoother_change_needs_confirmations() {
    assert_eq!(CONFIRMATIONS, 3);
    let mut s = NoteSmoother::new();
    assert_eq!(s.update(Some(60)), Some(60));
    assert_eq!(s.update(Some(62)), Some(60));
    assert_eq!(s.update(Some(62)), Some(60));
    assert_eq!(s.update(Some(62)), Some(62));
    assert_eq!(s.update(Some(62)), Some(62));
}

#[test]
fn smoother_interrupted_candidate_restarts() {
    let mut s = NoteSmoother::new();
    s.update(Some(60));
    assert_eq!(s.update(Some(62)), Some(60));
    assert_eq!(s.update(Some(64)), Some(60));
    assert_eq!(s.update(Some(62)), Some(60));
    assert_eq!(s.update(Some(62)), Some(60));
    assert_eq!(s.update(Some(62)), Some(62));
}

#[test]
fn smoother_stable_reading_drops_candidate() {
    let mut s = NoteSmoother::new();
    s.update(Some(60));
    s.update(Some(62));
    s.update(Some(62));
    assert_eq!(s.update(Some(60)), Some(60));
    assert_eq!(s.update(Some(62)), Some(60));
    assert_eq!(s.update(Some(62)), Some(60));
}

#[test]
fn smoother_none_resets() {
    let mut s = NoteSmoother::new();
    s.update(Some(60));
    assert_eq!(s.update(None), None);
    assert_eq!(s.update(Some(70)), Some(70));
    s.reset();
    assert_eq!(s.update(Some(40)), Some(40));
}

// ---- note tracking ----

#[test]
fn tracker_starts_and_changes_notes() {
    let mut t = NoteTracker::new(true);
    assert_eq!(t.on_detection(Some(60), 0), vec![MidiEvent::NoteOn { channel: 0, note: 60, velocity: 100 }]);
    assert_eq!(t.active_note(), Some(ActiveNote { note: 60, channel: 0 }));
    assert_eq!(t.on_detection(Some(60), 0), vec![]);
    // the channel changed: old note off, new note on
    assert_eq!(
        t.on_detection(Some(60), 2),
        vec![MidiEvent::NoteOff { channel: 0, note: 60 }, MidiEvent::NoteOn { channel: 2, note: 60, velocity: 100 }]
    );
    // a new note is only reported after confirmation
    assert_eq!(t.on_detection(Some(64), 2), vec![]);
    assert_eq!(t.on_detection(Some(64), 2), vec![]);
    assert_eq!(
        t.on_detection(Some(64), 2),
        vec![MidiEvent::NoteOff { channel: 2, note: 60 }, MidiEvent::NoteOn { channel: 2, note: 64, velocity: 100 }]
    );
}

#[test]
fn tracker_releases_after_misses() {
    let mut t = NoteTracker::new(true);
    t.on_detection(Some(50), 1);
    assert_eq!(t.on_detection(None, 1), vec![]);
    assert_eq!(t.active_note(), Some(ActiveNote { note: 50, channel: 1 }));
    assert_eq!(t.on_detection(None, 1), vec![MidiEvent::NoteOff { channel: 1, note: 50 }]);
    assert_eq!(t.active_note(), None);
    assert_eq!(t.on_detection(None, 1), vec![]);
}

#[test]
fn tracker_silence_releases() {
    let mut t = NoteTracker::new(true);
    t.on_detection(Some(50), 1);
    assert_eq!(t.on_silence(), Some(MidiEvent::NoteOff { channel: 1, note: 50 }));
    assert_eq!(t.on_silence(), None);
    assert_eq!(t.active_note(), None);
}

#[test]
fn tracker_midi_switch_off_releases() {
    let mut t = NoteTracker::new(true);
    t.on_detection(Some(50), 0);
    assert_eq!(t.on_midi_switch(true), None);
    assert_eq!(t.on_midi_switch(false), Some(MidiEvent::NoteOff { channel: 0, note: 50 }));
    assert_eq!(t.on_midi_switch(false), None);
    assert_eq!(t.on_midi_switch(true), None);
}

#[test]
fn tracker_detects_every_other_frame() {
    let mut t = NoteTracker::new(false);
    assert!(!t.begin_frame());
    assert!(t.begin_frame());
    assert!(!t.begin_frame());
    assert!(t.begin_frame());
}

// ---- looper ----

fn note(n: u8) -> MidiEvent {
    MidiEvent::note_on(0, n)
}

#[test]
fn looper_records_and_plays() {
    let mut l = Looper::new();
    assert_eq!(l.state(), LooperState::Idle);
    assert_eq!(l.handle_input_event(note(1), 500), note(1));
    l.sw1(1000);
    assert_eq!(l.state(), LooperState::Recording);
    assert_eq!(l.handle_input_event(note(2), 1100), note(2));
    assert_eq!(l.handle_input_event(note(3), 1700), note(3));
    l.sw1(2000);
    assert_eq!(l.state(), LooperState::Playing);
    assert_eq!(l.current_pos_ms(2000), 0);
    assert_eq!(l.tick(2050), vec![]);
    assert_eq!(l.tick(2150), vec![note(2)]);
    assert_eq!(l.tick(2150), vec![]);
    assert_eq!(l.tick(2800), vec![note(3)]);
    // wrapping round the end of the loop
    assert_eq!(l.tick(3100), vec![note(2)]);
}

#[test]
fn looper_overdub_adds_at_position() {
    let mut l = Looper::new();
    l.sw1(0);
    l.sw1(1000);
    l.sw1(1000);
    assert_eq!(l.state(), LooperState::Overdub);
    l.handle_input_event(note(9), 1250);
    assert_eq!(l.tick(1300), vec![note(9)]);
    l.sw1(1300);
    assert_eq!(l.state(), LooperState::Playing);
    l.handle_input_event(note(10), 1400);
    assert_eq!(l.tick(2260), vec![note(9)]);
}

#[test]
fn looper_pause_resume_keeps_position() {
    let mut l = Looper::new();
    l.sw1(0);
    l.sw1(1000);
    assert_eq!(l.pause_resume(1300), Some(MidiEvent::ControlChange { channel: 0, cc: 123, value: 0 }));
    assert_eq!(l.state(), LooperState::Paused);
    assert_eq!(l.tick(5000), vec![]);
    assert_eq!(l.pause_resume(5000), None);
    assert_eq!(l.state(), LooperState::Playing);
    assert_eq!(l.current_pos_ms(5000), 300);
    assert_eq!(l.current_pos_ms(5100), 400);
}

#[test]
fn looper_sw1_resumes_from_pause() {
    let mut l = Looper::new();
    l.sw1(0);
    l.sw1(1000);
    l.pause_resume(1700);
    l.sw1(9000);
    assert_eq!(l.state(), LooperState::Playing);
    assert_eq!(l.current_pos_ms(9000), 700);
}

#[test]
fn looper_clear_forgets() {
    let mut l = Looper::new();
    l.sw1(0);
    l.handle_input_event(note(5), 10);
    l.sw1(100);
    assert_eq!(l.clear(), MidiEvent::ControlChange { channel: 0, cc: 123, value: 0 });
    assert_eq!(l.state(), LooperState::Idle);
    assert_eq!(l.current_pos_ms(150), 0);
    assert_eq!(l.pause_resume(200), None);
    assert_eq!(l.tick(300), vec![]);
    l.sw1(1000);
    l.sw1(1100);
    assert_eq!(l.tick(1150), vec![]);
}

#[test]
fn looper_control_dispatch() {
    let mut l = Looper::new();
    assert_eq!(l.control(LooperControl::Sw1, 0), None);
    assert_eq!(l.control(LooperControl::Sw1, 400), None);
    assert_eq!(l.state(), LooperState::Playing);
    assert_eq!(l.control(LooperControl::PauseResume, 500), Some(MidiEvent::ControlChange { channel: 0, cc: 123, value: 0 }));
    assert_eq!(l.control(LooperControl::Clear, 600), Some(MidiEvent::ControlChange { channel: 0, cc: 123, value: 0 }));
    assert_eq!(l.state(), LooperState::Idle);
}

#[test]
fn looper_zero_length_loop_is_one_ms() {
    let mut l = Looper::new();
    l.sw1(50);
    l.sw1(50);
    assert_eq!(l.state(), LooperState::Playing);
    assert_eq!(l.current_pos_ms(77), 0);
}

#[test]
fn looper_buffer_is_bounded() {
    let mut l = Looper::new();
    l.sw1(0);
    for _ in 0..(MAX_EVENTS + 10) {
        l.handle_input_event(note(7), 10);
    }
    l.sw1(1000);
    let played = l.tick(1010);
    assert_eq!(played.len(), MAX_EVENTS);
}

#[test]
fn looper_clock_wraps() {
    let mut l = Looper::new();
    l.sw1(u32::MAX - 99);
    l.handle_input_event(note(4), 50);
    l.sw1(400);
    assert_eq!(l.tick(451), vec![]);
    assert_eq!(l.tick(551), vec![note(4)]);
}

#[test]
fn looper_send_all_notes_off() {
    let l = Looper::new();
    assert_eq!(l.send_all_notes_off(), MidiEvent::ControlChange { channel: 0, cc: 123, value: 0 });
}

#[test]
fn looper_record_event_direct() {
    let mut l = Looper::new();
    l.sw1(0);
    l.record_event(30, note(8));
    l.sw1(100);
    assert_eq!(l.tick(140), vec![note(8)]);
}

// ---- board ----

#[test]
fn expression_zones_with_hysteresis() {
    assert_eq!(expression_raw_to_channel(0, 0), 0);
    assert_eq!(expression_raw_to_channel(17407, 0), 0);
    assert_eq!(expression_raw_to_channel(17408, 0), 1);
    assert_eq!(expression_raw_to_channel(65535, 0), 3);
    assert_eq!(expression_raw_to_channel(31743, 2), 1);
    assert_eq!(expression_raw_to_channel(31744, 2), 2);
    assert_eq!(expression_raw_to_channel(0, 3), 0);
    assert_eq!(expression_raw_to_channel(65535, 10), 3);
    assert_eq!(expression_raw_to_channel(20000, 10), 1);
}

#[test]
fn expression_settles() {
    for raw in (0..=65535u32).step_by(97) {
        for cur in 0..5usize {
            let c = expression_raw_to_channel(raw as u16, cur);
            assert!(c < 4);
            assert_eq!(expression_raw_to_channel(raw as u16, c), c);
        }
    }
}

#[test]
fn state_channel_steps() {
    let mut s = State::new();
    assert_eq!(s.channel(), 0);
    s.prev_channel();
    assert_eq!(s.channel(), 3);
    s.next_channel();
    assert_eq!(s.channel(), 0);
    s.set_channel(6);
    assert_eq!(s.channel(), 2);
    for _ in 0..4 {
        s.next_channel();
    }
    assert_eq!(s.channel(), 2);
}

#[test]
fn aux1_polls_every_edge() {
    let mut a = AUX1::new();
    assert_eq!(a.poll_event(false, false), None);
    assert_eq!(a.poll_event(true, true), Some(SwitchEvent::Sw1Pressed));
    assert_eq!(a.poll_event(true, true), Some(SwitchEvent::Sw2Pressed));
    assert_eq!(a.poll_event(true, true), None);
    assert_eq!(a.poll_event(false, false), Some(SwitchEvent::Sw1Released));
    assert_eq!(a.poll_event(false, false), Some(SwitchEvent::Sw2Released));
}

#[test]
fn aux1_just_pressed() {
    let mut a = AUX1::new();
    assert!(a.sw1_just_pressed(true));
    assert!(!a.sw1_just_pressed(true));
    assert!(!a.sw1_just_pressed(false));
    assert!(a.sw2_just_pressed(true));
    assert!(!a.sw2_just_pressed(true));
}

#[test]
fn leds_follow_channel() {
    let mut l = ChLeds::new();
    assert_eq!(l.levels(), [false; 4]);
    l.set_channel(2);
    assert_eq!(l.levels(), [false, false, true, false]);
    l.set_channel(0);
    assert_eq!(l.levels(), [true, false, false, false]);
    l.set_channel(7);
    assert_eq!(l.levels(), [false; 4]);
}

#[test]
fn aux_long_press_clears() {
    let mut c = AuxController::new();
    assert_eq!(c.on_switch_event(SwitchEvent::Sw2Pressed, 0), None);
    assert_eq!(c.sw2_pressed_at(), Some(0));
    assert_eq!(c.on_switch_event(SwitchEvent::Sw2Released, 1_000_000), Some(LooperControl::Clear));
    assert_eq!(c.sw2_pressed_at(), None);
}

#[test]
fn aux_short_press_pauses() {
    let mut c = AuxController::new();
    c.on_switch_event(SwitchEvent::Sw2Pressed, 5_000);
    assert_eq!(c.on_switch_event(SwitchEvent::Sw2Released, 1_004_999), Some(LooperControl::PauseResume));
    assert_eq!(c.on_switch_event(SwitchEvent::Sw2Released, 7), Some(LooperControl::PauseResume));
}

#[test]
fn aux_sw1_release_is_sw1() {
    let mut c = AuxController::new();
    assert_eq!(c.on_switch_event(SwitchEvent::Sw1Pressed, 0), None);
    assert_eq!(c.on_switch_event(SwitchEvent::Sw1Released, 10), Some(LooperControl::Sw1));
}

#[test]
fn release_control_threshold() {
    assert_eq!(release_control(999), LooperControl::PauseResume);
    assert_eq!(release_control(1000), LooperControl::Clear);
    assert_eq!(release_control(0), LooperControl::PauseResume);
}

#[test]
fn aux_expression_updates_display_once() {
    let mut c = AuxController::new();
    let mut s = State::new();
    assert_eq!(c.on_expression(0, &mut s), Some(0));
    assert_eq!(c.on_expression(100, &mut s), None);
    assert_eq!(c.on_expression(40000, &mut s), Some(2));
    assert_eq!(s.channel(), 2);
    assert_eq!(c.on_expression(32000, &mut s), None);
    assert_eq!(s.channel(), 2);
}

// ---- utils ----

#[test]
fn u24_offset_binary_values() {
    assert_eq!(u24_to_offset_binary(0), 0x80_0000);
    assert_eq!(u24_to_offset_binary(0x7F_FFFF), 0xFF_FFFF);
    assert_eq!(u24_to_offset_binary(0x80_0000), 0);
    assert_eq!(u24_to_offset_binary(0xFF_FFFF), 0x7F_FFFF);
    assert_eq!(u24_to_offset_binary(0xFF00_0001), 0x80_0001);
}

#[test]
fn midi_note_range() {
    assert_eq!(midi_note_in_range(24), Some(24));
    assert_eq!(midi_note_in_range(23), None);
    assert_eq!(midi_note_in_range(96), Some(96));
    assert_eq!(midi_note_in_range(97), None);
    assert_eq!(midi_note_in_range(-5), None);
    assert_eq!(midi_note_in_range(69), Some(69));
}

// ---- audio input ----

#[test]
fn input_selection_corrects() {
    assert_eq!(input_selection(0, 0), (1, 0));
    assert_eq!(input_selection(2, 5), (2, 0));
    assert_eq!(input_selection(3, 2), (3, 2));
    assert_eq!(input_selection(0, 1), (1, 0));
}

fn collect_frames(stride: usize, offset: usize, n: u32) -> Vec<Vec<u32>> {
    let mut a = FrameAssembler::new(stride, offset);
    let mut frames = Vec::new();
    for s in 0..n {
        if let Some(f) = a.push_sample(s) {
            frames.push(f);
        }
    }
    frames
}

#[test]
fn frames_take_every_other_sample() {
    let frames = collect_frames(2, 0, (2 * FRAME_LEN + 3) as u32);
    assert_eq!(frames.len(), 1);
    assert_eq!(frames[0].len(), FRAME_LEN);
    for (i, s) in frames[0].iter().enumerate() {
        assert_eq!(*s, 2 * i as u32);
    }
}

#[test]
fn frames_follow_offset() {
    let frames = collect_frames(2, 1, (4 * FRAME_LEN) as u32);
    assert_eq!(frames.len(), 2);
    assert_eq!(frames[0][0], 1);
    assert_eq!(frames[1][0], (2 * FRAME_LEN + 1) as u32);
    assert_eq!(frames[1][FRAME_LEN - 1], (4 * FRAME_LEN - 1) as u32);
}

#[test]
fn frames_with_stride_one() {
    let frames = collect_frames(0, 3, (FRAME_LEN - 1) as u32);
    assert!(frames.is_empty());
    let frames = collect_frames(1, 0, FRAME_LEN as u32);
    assert_eq!(frames.len(), 1);
    assert_eq!(frames[0][FRAME_LEN - 1], (FRAME_LEN - 1) as u32);
}

// ---- colours ----

#[test]
fn palette() {
    assert_eq!(Rgb::black(), Rgb { r: 0, g: 0, b: 0 });
    assert_eq!(Rgb::red(), Rgb { r: 32, g: 0, b: 0 });
    assert_eq!(Rgb::green(), Rgb { r: 0, g: 32, b: 0 });
    assert_eq!(Rgb::blue(), Rgb { r: 0, g: 0, b: 32 });
    assert_eq!(Rgb::yellow(), Rgb { r: 32, g: 16, b: 0 });
    assert_eq!(Rgb::cyan(), Rgb { r: 0, g: 24, b: 24 });
    assert_eq!(Rgb::magenta(), Rgb { r: 24, g: 0, b: 24 });
    assert_eq!(Rgb::white(), Rgb { r: 24, g: 24, b: 24 });
}

#[test]
fn looper_ticks_split_without_loss() {
    let make = || {
        let mut l = Looper::new();
        l.sw1(0);
        for t in [10u32, 120, 150, 180, 250] {
            l.handle_input_event(note(t as u8), t);
        }
        l.sw1(1000);
        l
    };
    let mut a = make();
    let mut b = make();
    let mut split = a.tick(1100);
    split.extend(a.tick(1200));
    let whole = b.tick(1200);
    assert_eq!(split.len(), whole.len());
    assert_eq!(whole, vec![note(10), note(120), note(150), note(180)]);
}

#[test]
fn frames_from_blocks_match_stream() {
    let stream: Vec<u32> = (0..(5 * FRAME_LEN as u32 + 7)).map(|x| x * 3 + 1).collect();
    let mut a = FrameAssembler::new(2, 1);
    let mut frames = Vec::new();
    for block in stream.chunks(37) {
        frames.extend(a.push_samples(block));
    }
    assert_eq!(frames.len(), 2);
    for (k, f) in frames.iter().enumerate() {
        assert_eq!(f.len(), FRAME_LEN);
        for i in 0..FRAME_LEN {
            assert_eq!(f[i], stream[1 + 2 * (k * FRAME_LEN + i)]);
        }
    }
}

#[test]
fn tracker_run_keeps_one_note_sounding() {
    let mut t = NoteTracker::new(true);
    let mut sent = Vec::new();
    let readings = [Some(60u8), Some(60), Some(62), Some(62), Some(62), None, Some(65), None, None, Some(70)];
    for (k, r) in readings.iter().enumerate() {
        t.begin_frame();
        sent.extend(t.on_detection(*r, k % 3));
        if k == 6 {
            sent.extend(t.on_midi_switch(false));
        }
    }
    sent.extend(t.on_silence());
    let mut sounding: Option<(u8, u8)> = None;
    for m in sent {
        match m {
            MidiEvent::NoteOn { channel, note, .. } => {
                assert_eq!(sounding, None);
                sounding = Some((channel, note));
            }
            MidiEvent::NoteOff { channel, note } => {
                assert_eq!(sounding, Some((channel, note)));
                sounding = None;
            }
            MidiEvent::ControlChange { .. } => {}
        }
    }
    assert_eq!(sounding, None);
}

#[test]
fn looper_wrapped_ticks_split_without_loss() {
    let make = || {
        let mut l = Looper::new();
        l.sw1(0);
        for t in [10u32, 120, 850, 900, 990] {
            l.handle_input_event(note((t / 10) as u8), t);
        }
        l.sw1(1000);
        l.tick(1800);
        l
    };
    let mut a = make();
    let mut b = make();
    let mut split = a.tick(1950);
    split.extend(a.tick(2150));
    let mut whole = b.tick(2150);
    split.sort_by_key(|m| m.to_usb_packet());
    whole.sort_by_key(|m| m.to_usb_packet());
    assert_eq!(split, whole);
    assert_eq!(whole.len(), 5);
}
