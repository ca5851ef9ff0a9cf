use vstd::prelude::*;

use crate::config::{DETECT_EVERY_N_FRAMES, NOTE_OFF_AFTER_MISSES};
use crate::dsp::smoothing::{smoother_idle, smoother_step, smoother_wf, NoteSmoother, SmootherView};
use crate::midi::messages::MidiEvent;
use crate::midi::usb::{send_note_off, send_note_on};
use crate::config::MIDI_VELOCITY;

verus! {

/// The note the pedal is sounding and the channel it was started on.
#[derive(Clone, Copy, PartialEq, Eq, Structural, Debug)]
pub struct ActiveNote {
    pub note: u8,
    pub channel: usize,
}

/// What a [`NoteTracker`] holds.
pub struct TrackerView {
    pub smoother: SmootherView,
    pub active_note: Option<ActiveNote>,
    pub missed_detections: u8,
    pub midi_switch_was_enabled: bool,
    pub analyzed_frames: u32,
}

/// The note-off that ends `a`.
pub open spec fn off_message(a: ActiveNote) -> MidiEvent {
    MidiEvent::NoteOff { channel: a.channel as u8, note: a.note }
}

/// The note-on that starts `note` on `channel`.
pub open spec fn on_message(channel: usize, note: u8) -> MidiEvent {
    MidiEvent::NoteOn { channel: channel as u8, note, velocity: MIDI_VELOCITY }
}

/// The note-off for the sounding note, if any.
pub open spec fn release_messages(active: Option<ActiveNote>) -> Seq<MidiEvent> {
    match active {
        Some(a) => seq![off_message(a)],
        None => Seq::empty(),
    }
}

/// The consistent tracker states: the miss count stays below the release
/// threshold and is zero while nothing sounds.
pub open spec fn tracker_wf(v: TrackerView) -> bool {
    &&& smoother_wf(v.smoother)
    &&& v.missed_detections < NOTE_OFF_AFTER_MISSES
    &&& v.active_note is None ==> v.missed_detections == 0
}

/// Whether a detected `note` on `channel` differs from what is sounding.
pub open spec fn needs_new_note(active: Option<ActiveNote>, note: u8, channel: usize) -> bool {
    match active {
        Some(a) => a.note != note || a.channel != channel,
        None => true,
    }
}

/// The miss count after one more missed detection while a note sounds.
pub open spec fn one_more_miss(v: TrackerView) -> u8 {
    if v.missed_detections + 1 > u8::MAX {
        u8::MAX
    } else {
        (v.missed_detections + 1) as u8
    }
}

/// Whether a missed detection releases the sounding note.
pub open spec fn miss_releases(v: TrackerView) -> bool {
    v.active_note is Some && one_more_miss(v) >= NOTE_OFF_AFTER_MISSES
}

/// The messages a detection sends: `reading` is the note read from the
/// frame (`None` when no pitch or no note in range was found) and `channel`
/// the channel currently selected.
///
/// When the smoother reports a note that is not the one sounding on this
/// channel, the sounding note is released and the new one started. When it
/// reports nothing, the sounding note is released after
/// `NOTE_OFF_AFTER_MISSES` misses in a row.
pub open spec fn detection_messages(v: TrackerView, reading: Option<u8>, channel: usize) -> Seq<MidiEvent> {
    match smoother_step(v.smoother, reading).stable_note {
        Some(note) => if needs_new_note(v.active_note, note, channel) {
            release_messages(v.active_note).push(on_message(channel, note))
        } else {
            Seq::empty()
        },
        None => if miss_releases(v) {
            release_messages(v.active_note)
        } else {
            Seq::empty()
        },
    }
}

/// The tracker after a detection.
pub open spec fn after_detection(v: TrackerView, reading: Option<u8>, channel: usize) -> TrackerView {
    let s = smoother_step(v.smoother, reading);
    match s.stable_note {
        Some(note) => TrackerView {
            smoother: s,
            missed_detections: 0,
            active_note: if needs_new_note(v.active_note, note, channel) {
                Some(ActiveNote { note, channel })
            } else {
                v.active_note
            },
            ..v
        },
        None => TrackerView {
            smoother: smoother_idle(),
            missed_detections: if v.active_note is None {
                v.missed_detections
            } else if miss_releases(v) {
                0
            } else {
                one_more_miss(v)
            },
            active_note: if miss_releases(v) { None } else { v.active_note },
            ..v
        },
    }
}

/// The tracker after a silent frame: the smoother and the miss count are
/// cleared and nothing sounds any more.
pub open spec fn after_silence(v: TrackerView) -> TrackerView {
    TrackerView { smoother: smoother_idle(), missed_detections: 0, active_note: None, ..v }
}

/// The tracker after the MIDI switch was read as `enabled`: switching it
/// off releases the sounding note.
pub open spec fn after_switch(v: TrackerView, enabled: bool) -> TrackerView {
    if v.midi_switch_was_enabled && !enabled {
        TrackerView { active_note: None, missed_detections: 0, midi_switch_was_enabled: enabled, ..v }
    } else {
        TrackerView { midi_switch_was_enabled: enabled, ..v }
    }
}

/// The messages that reading the MIDI switch as `enabled` sends.
pub open spec fn switch_messages(v: TrackerView, enabled: bool) -> Seq<MidiEvent> {
    if v.midi_switch_was_enabled && !enabled {
        release_messages(v.active_note)
    } else {
        Seq::empty()
    }
}

/// Turns the stream of per-frame analysis results into note-on and note-off
/// messages, so that at most one note sounds at a time.
pub struct NoteTracker {
    note_smoother: NoteSmoother,
    active_note: Option<ActiveNote>,
    missed_detections: u8,
    midi_switch_was_enabled: bool,
    analyzed_frames: u32,
}

impl View for NoteTracker {
    type V = TrackerView;

    closed spec fn view(&self) -> TrackerView {
        TrackerView {
            smoother: self.note_smoother@,
            active_note: self.active_note,
            missed_detections: self.missed_detections,
            midi_switch_was_enabled: self.midi_switch_was_enabled,
            analyzed_frames: self.analyzed_frames,
        }
    }
}

/// The note-off message for `a`.
fn release(a: ActiveNote) -> (e: MidiEvent)
    ensures
        e == off_message(a),
{
    send_note_off(a.channel, a.note)
}

impl NoteTracker {
    /// Whether the tracker is in one of its consistent states.
    pub open spec fn wf(&self) -> bool {
        tracker_wf(self@)
    }

    /// A tracker with nothing sounding, given the MIDI switch's first reading.
    pub fn new(midi_enabled: bool) -> (t: Self)
        ensures
            t.wf(),
            t@.smoother == smoother_idle(),
            t@.active_note is None,
            t@.missed_detections == 0,
            t@.midi_switch_was_enabled == midi_enabled,
            t@.analyzed_frames == 0,
    {
        Self {
            note_smoother: NoteSmoother::new(),
            active_note: None,
            missed_detections: 0,
            midi_switch_was_enabled: midi_enabled,
            analyzed_frames: 0,
        }
    }

    /// The note now sounding.
    pub fn active_note(&self) -> (a: Option<ActiveNote>)
        ensures
            a == self@.active_note,
    {
        self.active_note
    }

    /// Takes in the MIDI switch's reading; turning MIDI off releases the
    /// sounding note, whose note-off is returned.
    pub fn on_midi_switch(&mut self, midi_enabled: bool) -> (sent: Option<MidiEvent>)
        requires
            old(self).wf(),
        ensures
            final(self).wf(),
            final(self)@ == after_switch(old(self)@, midi_enabled),
            match sent {
                Some(m) => switch_messages(old(self)@, midi_enabled) == seq![m],
                None => switch_messages(old(self)@, midi_enabled).len() == 0,
            },
    {
        let mut sent: Option<MidiEvent> = None;
        if self.midi_switch_was_enabled && !midi_enabled {
            if let Some(active) = self.active_note.take() {
                sent = Some(release(active));
            }
            self.missed_detections = 0;
        }
        self.midi_switch_was_enabled = midi_enabled;
        sent
    }

    /// Counts a new frame (wrapping) and says whether pitch detection runs on it.
    pub fn begin_frame(&mut self) -> (detect: bool)
        requires
            old(self).wf(),
        ensures
            final(self).wf(),
            final(self)@ == (TrackerView { analyzed_frames: old(self)@.analyzed_frames.wrapping_add(1), ..old(self)@ }),
            detect == (final(self)@.analyzed_frames % DETECT_EVERY_N_FRAMES == 0),
    {
        self.analyzed_frames = self.analyzed_frames.wrapping_add(1);
        self.analyzed_frames % DETECT_EVERY_N_FRAMES == 0
    }

    /// A frame below the noise gate: forgets the smoothing and releases the
    /// sounding note, whose note-off is returned.
    pub fn on_silence(&mut self) -> (sent: Option<MidiEvent>)
        requires
            old(self).wf(),
        ensures
            final(self).wf(),
            final(self)@ == after_silence(old(self)@),
            match sent {
                Some(m) => release_messages(old(self)@.active_note) == seq![m],
                None => old(self)@.active_note is None,
            },
    {
        self.note_smoother.reset();
        self.missed_detections = 0;
        match self.active_note.take() {
            Some(active) => Some(release(active)),
            None => None,
        }
    }

    /// A detection frame: `reading` is the MIDI note of the detected pitch,
    /// or `None` when no pitch (or none in range) was found, and `channel`
    /// the channel now selected. Returns the messages to send, in order.
    pub fn on_detection(&mut self, reading: Option<u8>, channel: usize) -> (sent: Vec<MidiEvent>)
        requires
            old(self).wf(),
        ensures
            final(self).wf(),
            final(self)@ == after_detection(old(self)@, reading, channel),
            sent@ == detection_messages(old(self)@, reading, channel),
    {
        let mut sent: Vec<MidiEvent> = Vec::new();
        let detected = self.note_smoother.update(reading);
        match detected {
            Some(note) => {
                self.missed_detections = 0;
                let needs_new_note = match self.active_note {
                    Some(active) => active.note != note || active.channel != channel,
                    None => true,
                };
                if needs_new_note {
                    if let Some(old) = self.active_note.take() {
                        sent.push(release(old));
                    }
                    sent.push(send_note_on(channel, note));
                    self.active_note = Some(ActiveNote { note, channel });
                }
                proof {
                    assert(sent@ =~= detection_messages(old(self)@, reading, channel));
                }
            },
            None => {
                if self.active_note.is_some() {
                    self.missed_detections = self.missed_detections.saturating_add(1);
                    if self.missed_detections >= NOTE_OFF_AFTER_MISSES {
                        if let Some(active) = self.active_note.take() {
                            sent.push(release(active));
                        }
                        self.missed_detections = 0;
                    }
                }
                self.note_smoother.reset();
                proof {
                    assert(sent@ =~= detection_messages(old(self)@, reading, channel));
                }
            },
        }
        sent
    }
}

/// The set of (channel, note) pairs left sounding by `msgs`, starting from
/// `sounding`: a note-on adds its pair, a note-off removes it.
pub open spec fn sounding_after(sounding: Set<(u8, u8)>, msgs: Seq<MidiEvent>) -> Set<(u8, u8)>
    decreases msgs.len(),
{
    if msgs.len() == 0 {
        sounding
    } else {
        let before = sounding_after(sounding, msgs.drop_last());
        match msgs.last() {
            MidiEvent::NoteOn { channel, note, .. } => before.insert((channel, note)),
            MidiEvent::NoteOff { channel, note } => before.remove((channel, note)),
            MidiEvent::ControlChange { .. } => before,
        }
    }
}

/// The pair a sounding note occupies on the wire.
pub open spec fn sounding_set(active: Option<ActiveNote>) -> Set<(u8, u8)> {
    match active {
        Some(a) => set![(a.channel as u8, a.note)],
        None => Set::empty(),
    }
}

/// No stuck or doubled notes: after any detection the notes that the sent
/// messages leave sounding are exactly the tracker's active note.
pub proof fn lemma_detection_keeps_sounding(v: TrackerView, reading: Option<u8>, channel: usize)
    requires
        tracker_wf(v),
    ensures
        sounding_after(sounding_set(v.active_note), detection_messages(v, reading, channel))
            == sounding_set(after_detection(v, reading, channel).active_note),
        tracker_wf(after_detection(v, reading, channel)),
{
    reveal_with_fuel(sounding_after, 3);
    let msgs = detection_messages(v, reading, channel);
    let start = sounding_set(v.active_note);
    let s = smoother_step(v.smoother, reading);
    match s.stable_note {
        Some(note) => {
            if needs_new_note(v.active_note, note, channel) {
                match v.active_note {
                    Some(a) => {
                        assert(msgs.drop_last() =~= seq![off_message(a)]);
                        assert(seq![off_message(a)].drop_last() =~= Seq::<MidiEvent>::empty());
                        assert(sounding_after(start, msgs.drop_last()) =~= Set::<(u8, u8)>::empty());
                    },
                    None => {
                        assert(msgs.drop_last() =~= Seq::<MidiEvent>::empty());
                    },
                }
                assert(sounding_after(start, msgs) =~= set![(channel as u8, note)]);
            }
        },
        None => {
            if miss_releases(v) {
                let a = v.active_note.unwrap();
                assert(msgs.drop_last() =~= Seq::<MidiEvent>::empty());
                assert(sounding_after(start, msgs) =~= Set::<(u8, u8)>::empty());
            }
        },
    }
}

/// Silence and switching MIDI off likewise leave sounding exactly the
/// tracker's active note, which is then none.
pub proof fn lemma_release_keeps_sounding(v: TrackerView, enabled: bool)
    requires
        tracker_wf(v),
    ensures
        sounding_after(sounding_set(v.active_note), release_messages(v.active_note)) == sounding_set(
            after_silence(v).active_note,
        ),
        sounding_after(sounding_set(v.active_note), switch_messages(v, enabled)) == sounding_set(
            after_switch(v, enabled).active_note,
        ),
        after_silence(v).active_note is None,
{
    reveal_with_fuel(sounding_after, 2);
    if v.active_note is Some {
        let m = release_messages(v.active_note);
        assert(m.drop_last() =~= Seq::<MidiEvent>::empty());
        assert(sounding_after(sounding_set(v.active_note), m) =~= Set::<(u8, u8)>::empty());
    }
}

/// A sounding note outlives fewer than `NOTE_OFF_AFTER_MISSES` misses in a
/// row: starting from a fresh detection, the first miss keeps it and the
/// second one (the threshold) releases it.
pub proof fn lemma_misses_release(v: TrackerView, channel: usize)
    requires
        tracker_wf(v),
        v.active_note is Some,
        v.missed_detections == 0,
    ensures
        after_detection(v, None, channel).active_note == v.active_note,
        detection_messages(v, None, channel).len() == 0,
        after_detection(after_detection(v, None, channel), None, channel).active_note is None,
        detection_messages(after_detection(v, None, channel), None, channel) == release_messages(v.active_note),
{
}

/// A note that keeps being detected on the same channel is started once and
/// then left alone.
pub proof fn lemma_held_note_quiet(v: TrackerView, note: u8, channel: usize)
    requires
        tracker_wf(v),
        v.active_note == Some(ActiveNote { note, channel }),
        v.smoother.stable_note == Some(note),
    ensures
        detection_messages(v, Some(note), channel).len() == 0,
        after_detection(v, Some(note), channel).active_note == v.active_note,
{
}

/// One thing that happens to a [`NoteTracker`], as its methods take them in.
pub enum TrackerInput {
    /// The MIDI switch was read (`on_midi_switch`).
    Switch(bool),
    /// A frame arrived (`begin_frame`).
    Frame,
    /// The frame was below the noise gate (`on_silence`).
    Silence,
    /// A detection frame read this note on this channel (`on_detection`).
    Detection(Option<u8>, usize),
}

/// The tracker after one input.
pub open spec fn input_step(v: TrackerView, input: TrackerInput) -> TrackerView {
    match input {
        TrackerInput::Switch(enabled) => after_switch(v, enabled),
        TrackerInput::Frame => TrackerView { analyzed_frames: v.analyzed_frames.wrapping_add(1), ..v },
        TrackerInput::Silence => after_silence(v),
        TrackerInput::Detection(reading, channel) => after_detection(v, reading, channel),
    }
}

/// The messages one input sends.
pub open spec fn input_messages(v: TrackerView, input: TrackerInput) -> Seq<MidiEvent> {
    match input {
        TrackerInput::Switch(enabled) => switch_messages(v, enabled),
        TrackerInput::Frame => Seq::empty(),
        TrackerInput::Silence => release_messages(v.active_note),
        TrackerInput::Detection(reading, channel) => detection_messages(v, reading, channel),
    }
}

/// The tracker after a run of inputs.
pub open spec fn tracker_run(v: TrackerView, inputs: Seq<TrackerInput>) -> TrackerView
    decreases inputs.len(),
{
    if inputs.len() == 0 {
        v
    } else {
        input_step(tracker_run(v, inputs.drop_last()), inputs.last())
    }
}

/// All messages a run of inputs sends, in order.
pub open spec fn run_messages(v: TrackerView, inputs: Seq<TrackerInput>) -> Seq<MidiEvent>
    decreases inputs.len(),
{
    if inputs.len() == 0 {
        Seq::empty()
    } else {
        run_messages(v, inputs.drop_last()) + input_messages(tracker_run(v, inputs.drop_last()), inputs.last())
    }
}

/// The (channel, note) pair a sounding note occupies on the wire.
pub open spec fn sounding_of(active: Option<ActiveNote>) -> Option<(u8, u8)> {
    match active {
        Some(a) => Some((a.channel as u8, a.note)),
        None => None,
    }
}

/// One message on a line where at most one note sounds (`cur`): a note-on
/// is only allowed while nothing sounds, and a note-off must end the note
/// that sounds. `None` when the message breaks these rules.
pub open spec fn pair_one(cur: Option<(u8, u8)>, m: MidiEvent) -> Option<Option<(u8, u8)>> {
    match m {
        MidiEvent::NoteOn { channel, note, .. } => if cur is None {
            Some(Some((channel, note)))
        } else {
            None
        },
        MidiEvent::NoteOff { channel, note } => if cur == Some((channel, note)) {
            Some(None)
        } else {
            None
        },
        MidiEvent::ControlChange { .. } => Some(cur),
    }
}

/// Plays `msgs` through [`pair_one`] starting from `cur`: the note left
/// sounding, or `None` when some message breaks the rules.
pub open spec fn pair_msgs(cur: Option<(u8, u8)>, msgs: Seq<MidiEvent>) -> Option<Option<(u8, u8)>>
    decreases msgs.len(),
{
    if msgs.len() == 0 {
        Some(cur)
    } else {
        match pair_msgs(cur, msgs.drop_last()) {
            Some(c) => pair_one(c, msgs.last()),
            None => None,
        }
    }
}

/// Playing two stretches of messages one after the other.
pub proof fn lemma_pair_msgs_concat(cur: Option<(u8, u8)>, a: Seq<MidiEvent>, b: Seq<MidiEvent>)
    ensures
        pair_msgs(cur, a + b) == (match pair_msgs(cur, a) {
            Some(c) => pair_msgs(c, b),
            None => None,
        }),
    decreases b.len(),
{
    if b.len() == 0 {
        assert(a + b =~= a);
    } else {
        lemma_pair_msgs_concat(cur, a, b.drop_last());
        assert((a + b).drop_last() =~= a + b.drop_last());
        assert((a + b).last() == b.last());
    }
}

/// When a whole stretch keeps the rules, so does every beginning of it.
pub proof fn lemma_pairing_prefixes(cur: Option<(u8, u8)>, msgs: Seq<MidiEvent>, k: int)
    requires
        pair_msgs(cur, msgs) is Some,
        0 <= k <= msgs.len(),
    ensures
        pair_msgs(cur, msgs.take(k)) is Some,
{
    lemma_pair_msgs_concat(cur, msgs.take(k), msgs.skip(k));
    assert(msgs.take(k) + msgs.skip(k) =~= msgs);
}

/// Each single input keeps the rules: the messages it sends, played from
/// the note that sounded before, leave sounding exactly the tracker's active
/// note (a note-off always comes before the note-on that replaces it).
pub proof fn lemma_input_pairs(v: TrackerView, input: TrackerInput)
    requires
        tracker_wf(v),
    ensures
        pair_msgs(sounding_of(v.active_note), input_messages(v, input)) == Some(
            sounding_of(input_step(v, input).active_note),
        ),
        tracker_wf(input_step(v, input)),
{
    reveal_with_fuel(pair_msgs, 3);
    match input {
        TrackerInput::Detection(reading, channel) => {
            let s = smoother_step(v.smoother, reading);
            if s.stable_note is Some && needs_new_note(v.active_note, s.stable_note.unwrap(), channel) {
                let msgs = input_messages(v, input);
                match v.active_note {
                    Some(a) => {
                        assert(msgs.drop_last() =~= seq![off_message(a)]);
                        assert(seq![off_message(a)].drop_last() =~= Seq::<MidiEvent>::empty());
                    },
                    None => {
                        assert(msgs.drop_last() =~= Seq::<MidiEvent>::empty());
                    },
                }
            } else if s.stable_note is None && miss_releases(v) {
                assert(input_messages(v, input).drop_last() =~= Seq::<MidiEvent>::empty());
            }
        },
        _ => {
            if v.active_note is Some {
                assert(release_messages(v.active_note).drop_last() =~= Seq::<MidiEvent>::empty());
            }
        },
    }
}

/// At most one note sounds over a whole run: for any sequence of switch
/// readings, frames, silences and detections (on any channels), every
/// note-off the tracker sends ends the last unmatched note-on, on the
/// channel that note was started on, no note-on is sent while another note
/// sounds, and what is left sounding is the tracker's active note.
pub proof fn lemma_run_pairs(v: TrackerView, inputs: Seq<TrackerInput>)
    requires
        tracker_wf(v),
    ensures
        pair_msgs(sounding_of(v.active_note), run_messages(v, inputs)) == Some(
            sounding_of(tracker_run(v, inputs).active_note),
        ),
        tracker_wf(tracker_run(v, inputs)),
        forall|k: int|
            0 <= k <= run_messages(v, inputs).len() ==> #[trigger] pair_msgs(
                sounding_of(v.active_note),
                run_messages(v, inputs).take(k),
            ) is Some,
    decreases inputs.len(),
{
    if inputs.len() > 0 {
        let prev = inputs.drop_last();
        lemma_run_pairs(v, prev);
        let w = tracker_run(v, prev);
        lemma_input_pairs(w, inputs.last());
        lemma_pair_msgs_concat(
            sounding_of(v.active_note),
            run_messages(v, prev),
            input_messages(w, inputs.last()),
        );
    }
    assert forall|k: int| 0 <= k <= run_messages(v, inputs).len() implies #[trigger] pair_msgs(
        sounding_of(v.active_note),
        run_messages(v, inputs).take(k),
    ) is Some by {
        lemma_pairing_prefixes(sounding_of(v.active_note), run_messages(v, inputs), k);
    }
}

/// Within one detection at most two messages go out, and when there are two
/// the note-off of the sounding note comes first and the note-on second.
pub proof fn lemma_off_before_on(v: TrackerView, reading: Option<u8>, channel: usize)
    ensures
        detection_messages(v, reading, channel).len() <= 2,
        detection_messages(v, reading, channel).len() == 2 ==> {
            &&& v.active_note is Some
            &&& detection_messages(v, reading, channel)[0] == off_message(v.active_note.unwrap())
            &&& detection_messages(v, reading, channel)[1] is NoteOn
        },
{
}

/// The miss count counts consecutive missed detections: a detection in which
/// the smoother reports a note sets it to zero (leaving a note sounding); a
/// missed detection while a note sounds adds one, and releases the note,
/// with its note-off, exactly when that reaches `NOTE_OFF_AFTER_MISSES`.
pub proof fn lemma_misses_count_consecutively(v: TrackerView, reading: Option<u8>, channel: usize)
    requires
        tracker_wf(v),
    ensures
        smoother_step(v.smoother, reading).stable_note is Some ==> after_detection(v, reading, channel).missed_detections
            == 0 && after_detection(v, reading, channel).active_note is Some,
        smoother_step(v.smoother, reading).stable_note is None && v.active_note is Some ==> {
            if v.missed_detections + 1 >= NOTE_OFF_AFTER_MISSES {
                &&& after_detection(v, reading, channel).active_note is None
                &&& after_detection(v, reading, channel).missed_detections == 0
                &&& detection_messages(v, reading, channel) == seq![off_message(v.active_note.unwrap())]
            } else {
                &&& after_detection(v, reading, channel).active_note == v.active_note
                &&& after_detection(v, reading, channel).missed_detections == v.missed_detections + 1
                &&& detection_messages(v, reading, channel).len() == 0
            }
        },
{
}

/// A sounding note is never released by a single miss that follows a
/// detection reporting a note: whatever the tracker's history, after a
/// reported note the next detection leaves a note sounding, and when it
/// misses it sends nothing.
pub proof fn lemma_no_release_after_reported_note(
    v: TrackerView,
    r1: Option<u8>,
    c1: usize,
    r2: Option<u8>,
    c2: usize,
)
    requires
        tracker_wf(v),
        smoother_step(v.smoother, r1).stable_note is Some,
    ensures
        after_detection(after_detection(v, r1, c1), r2, c2).active_note is Some,
        smoother_step(after_detection(v, r1, c1).smoother, r2).stable_note is None ==> detection_messages(
            after_detection(v, r1, c1),
            r2,
            c2,
        ).len() == 0,
{
    lemma_misses_count_consecutively(v, r1, c1);
    lemma_detection_keeps_sounding(v, r1, c1);
    lemma_misses_count_consecutively(after_detection(v, r1, c1), r2, c2);
}

/// The tracker remembers the switch's last reading, which nothing else
/// changes; so turning MIDI on and later off again, with any detection in
/// between, releases the note sounding at that point with its note-off.
pub proof fn lemma_switch_remembered(v: TrackerView, enabled: bool, reading: Option<u8>, channel: usize)
    requires
        tracker_wf(v),
    ensures
        after_switch(v, enabled).midi_switch_was_enabled == enabled,
        after_detection(v, reading, channel).midi_switch_was_enabled == v.midi_switch_was_enabled,
        after_silence(v).midi_switch_was_enabled == v.midi_switch_was_enabled,
        ({
            let w = after_detection(after_switch(v, true), reading, channel);
            w.active_note is Some ==> switch_messages(w, false) == seq![off_message(w.active_note.unwrap())]
                && after_switch(w, false).active_note is None
        }),
        v.active_note is Some && v.midi_switch_was_enabled ==> switch_messages(v, false) == seq![
            off_message(v.active_note.unwrap()),
        ],
{
}

/// What a detection that reports note `n` sends: nothing when `n` already
/// sounds on the selected channel; otherwise the note-off of whatever sounds
/// (on the channel and note it was started with) followed by a note-on of
/// `n` on the selected channel at the pedal's velocity.
pub proof fn lemma_reported_note_messages(v: TrackerView, reading: Option<u8>, channel: usize, n: u8)
    requires
        tracker_wf(v),
        smoother_step(v.smoother, reading).stable_note == Some(n),
    ensures
        (detection_messages(v, reading, channel).len() == 0) <==> v.active_note == Some(
            ActiveNote { note: n, channel },
        ),
        v.active_note != Some(ActiveNote { note: n, channel }) ==> {
            &&& detection_messages(v, reading, channel).last() == (MidiEvent::NoteOn {
                channel: channel as u8,
                note: n,
                velocity: MIDI_VELOCITY,
            })
            &&& after_detection(v, reading, channel).active_note == Some(ActiveNote { note: n, channel })
            &&& (v.active_note matches Some(a) ==> detection_messages(v, reading, channel)[0] == (
            MidiEvent::NoteOff { channel: a.channel as u8, note: a.note }))
        },
{
}

} // verus!
