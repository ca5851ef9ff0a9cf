use vstd::prelude::*;
use vstd::multiset::Multiset;

use crate::config::MAX_EVENTS;
use crate::midi::messages::MidiEvent;

verus! {

/// What the footswitches ask of the looper.
#[derive(Clone, Copy, PartialEq, Eq, Structural, Debug)]
pub enum LooperControl {
    /// SW1: record / play / overdub.
    Sw1,
    /// SW2 short press: pause / resume.
    PauseResume,
    /// SW2 long press: clear the loop.
    Clear,
}

#[derive(Clone, Copy, PartialEq, Eq, Structural, Debug)]
pub enum LooperState {
    Idle,
    Recording,
    Playing,
    Overdub,
    Paused,
}

/// A recorded MIDI message and its time, in milliseconds, within the loop.
#[derive(Clone, Copy, PartialEq, Eq, Structural, Debug)]
pub struct MidiLooperEvent {
    pub time_ms: u32,
    pub event: MidiEvent,
}

#[verifier::external_type_specification]
#[verifier::external_body]
#[verifier::reject_recursive_types(T)]
pub struct ExHeaplessVec<T, const N: usize>(heapless::Vec<T, N>);

/// The events that a fixed-capacity `heapless::Vec` of looper events holds,
/// in order.
pub uninterp spec fn held_events(v: heapless::Vec<MidiLooperEvent, MAX_EVENTS>) -> Seq<MidiLooperEvent>;

/// `heapless::Vec::new`: a vector that holds nothing.
#[verifier::external_body]
fn events_new() -> (v: heapless::Vec<MidiLooperEvent, MAX_EVENTS>)
    ensures
        held_events(v) == Seq::<MidiLooperEvent>::empty(),
{
    heapless::Vec::new()
}

/// `heapless::Vec::clear`: afterwards the vector holds nothing.
#[verifier::external_body]
fn events_clear(v: &mut heapless::Vec<MidiLooperEvent, MAX_EVENTS>)
    ensures
        held_events(*final(v)) == Seq::<MidiLooperEvent>::empty(),
{
    v.clear()
}

/// `heapless::Vec::push`: below capacity the item is appended and `Ok`
/// returned; at capacity the vector is unchanged and the item handed back.
#[verifier::external_body]
fn events_push(
    v: &mut heapless::Vec<MidiLooperEvent, MAX_EVENTS>,
    item: MidiLooperEvent,
) -> (r: Result<(), MidiLooperEvent>)
    requires
        held_events(*old(v)).len() <= MAX_EVENTS,
    ensures
        r is Ok <==> held_events(*old(v)).len() < MAX_EVENTS,
        r is Ok ==> held_events(*final(v)) == held_events(*old(v)).push(item),
        r is Err ==> held_events(*final(v)) == held_events(*old(v)),
        r matches Err(back) ==> back == item,
{
    v.push(item)
}

/// The length of a `heapless::Vec` (through its slice), which never exceeds
/// its capacity.
#[verifier::external_body]
fn events_len(v: &heapless::Vec<MidiLooperEvent, MAX_EVENTS>) -> (n: usize)
    ensures
        n == held_events(*v).len(),
        n <= MAX_EVENTS,
{
    v.len()
}

/// Indexing a `heapless::Vec` (through its slice) below its length.
#[verifier::external_body]
fn events_get(v: &heapless::Vec<MidiLooperEvent, MAX_EVENTS>, i: usize) -> (e: MidiLooperEvent)
    requires
        i < held_events(*v).len(),
    ensures
        e == held_events(*v)[i as int],
{
    v[i]
}

/// What a [`Looper`] holds.
pub struct LooperView {
    pub events: Seq<MidiLooperEvent>,
    pub state: LooperState,
    pub record_start_ms: u32,
    pub loop_len_ms: u32,
    pub playback_start_ms: u32,
    pub last_pos_ms: u32,
    pub paused_pos_ms: u32,
}

/// Controller 123 (all notes off), sent when playback stops.
pub open spec fn all_notes_off_message() -> MidiEvent {
    MidiEvent::ControlChange { channel: 0, cc: 123, value: 0 }
}

pub open spec fn is_running(s: LooperState) -> bool {
    s == LooperState::Playing || s == LooperState::Overdub
}

/// The consistent looper states: a loop length exists exactly once
/// recording has ended, and both remembered positions lie inside it.
pub open spec fn looper_wf(v: LooperView) -> bool {
    &&& v.events.len() <= MAX_EVENTS
    &&& (v.state == LooperState::Idle || v.state == LooperState::Recording) ==> {
        &&& v.loop_len_ms == 0
        &&& v.last_pos_ms == 0
        &&& v.paused_pos_ms == 0
    }
    &&& !(v.state == LooperState::Idle || v.state == LooperState::Recording) ==> {
        &&& v.loop_len_ms >= 1
        &&& v.last_pos_ms < v.loop_len_ms
        &&& v.paused_pos_ms < v.loop_len_ms
    }
}

/// The looper's position at time `now`: milliseconds since playback (re)started,
/// wrapping with the clock, modulo the loop length; 0 while there is no loop.
pub open spec fn position_at(v: LooperView, now: u32) -> u32 {
    if v.loop_len_ms == 0 {
        0
    } else {
        (now.wrapping_sub(v.playback_start_ms) % v.loop_len_ms) as u32
    }
}

/// Playback continues from `pos`: it restarts so that the position at `now` is `pos`.
pub open spec fn resume_from(v: LooperView, now: u32, pos: u32) -> LooperView {
    LooperView {
        playback_start_ms: now.wrapping_sub(pos),
        last_pos_ms: pos,
        state: LooperState::Playing,
        ..v
    }
}

/// SW1: Idle starts recording, Recording closes the loop and plays it,
/// Playing and Overdub toggle overdubbing, Paused resumes.
pub open spec fn looper_sw1(v: LooperView, now: u32) -> LooperView {
    match v.state {
        LooperState::Idle => LooperView {
            events: Seq::empty(),
            record_start_ms: now,
            loop_len_ms: 0,
            state: LooperState::Recording,
            ..v
        },
        LooperState::Recording => {
            let len = now.wrapping_sub(v.record_start_ms);
            LooperView {
                loop_len_ms: if len < 1 { 1 } else { len },
                playback_start_ms: now,
                last_pos_ms: 0,
                state: LooperState::Playing,
                ..v
            }
        },
        LooperState::Playing => LooperView { state: LooperState::Overdub, ..v },
        LooperState::Overdub => LooperView { state: LooperState::Playing, ..v },
        LooperState::Paused => resume_from(v, now, v.paused_pos_ms),
    }
}

/// SW2 short press: a running loop pauses at its current position, a paused
/// one resumes from there; otherwise nothing changes.
pub open spec fn looper_pause_resume(v: LooperView, now: u32) -> LooperView {
    if is_running(v.state) {
        LooperView { paused_pos_ms: position_at(v, now), state: LooperState::Paused, ..v }
    } else if v.state == LooperState::Paused {
        resume_from(v, now, v.paused_pos_ms)
    } else {
        v
    }
}

/// SW2 long press: everything recorded is forgotten.
pub open spec fn looper_clear(v: LooperView) -> LooperView {
    LooperView {
        events: Seq::empty(),
        loop_len_ms: 0,
        last_pos_ms: 0,
        paused_pos_ms: 0,
        state: LooperState::Idle,
        ..v
    }
}

/// Adds an event at `time_ms` unless the buffer is full.
pub open spec fn record_into(v: LooperView, time_ms: u32, event: MidiEvent) -> LooperView {
    if v.events.len() < MAX_EVENTS {
        LooperView { events: v.events.push(MidiLooperEvent { time_ms, event }), ..v }
    } else {
        v
    }
}

/// An incoming event is recorded while recording (at its time since the
/// recording started) and while overdubbing (at the loop position).
pub open spec fn looper_input(v: LooperView, event: MidiEvent, now: u32) -> LooperView {
    match v.state {
        LooperState::Recording => record_into(v, now.wrapping_sub(v.record_start_ms), event),
        LooperState::Overdub => record_into(v, position_at(v, now), event),
        _ => v,
    }
}

/// Whether an event at `t` falls in the stretch of the loop from just after
/// `last` up to and including `pos`, going round the end of the loop when
/// `pos` is below `last`.
pub open spec fn in_window(t: u32, last: u32, pos: u32) -> bool {
    if pos < last {
        t > last || t <= pos
    } else {
        t > last && t <= pos
    }
}

/// The messages of the events in `events` whose time falls in the window, in order.
pub open spec fn window_messages(events: Seq<MidiLooperEvent>, last: u32, pos: u32) -> Seq<MidiEvent>
    decreases events.len(),
{
    if events.len() == 0 {
        Seq::empty()
    } else {
        let prefix = window_messages(events.drop_last(), last, pos);
        if in_window(events.last().time_ms, last, pos) {
            prefix.push(events.last().event)
        } else {
            prefix
        }
    }
}

/// Whether a tick at `now` plays anything: the loop runs, has a length, and
/// its position has moved since the last tick.
pub open spec fn tick_advances(v: LooperView, now: u32) -> bool {
    is_running(v.state) && v.loop_len_ms != 0 && position_at(v, now) != v.last_pos_ms
}

/// The state after a tick at `now`.
pub open spec fn looper_tick(v: LooperView, now: u32) -> LooperView {
    if tick_advances(v, now) {
        LooperView { last_pos_ms: position_at(v, now), ..v }
    } else {
        v
    }
}

/// The messages a tick at `now` plays.
pub open spec fn tick_messages(v: LooperView, now: u32) -> Seq<MidiEvent> {
    if tick_advances(v, now) {
        window_messages(v.events, v.last_pos_ms, position_at(v, now))
    } else {
        Seq::empty()
    }
}

/// A MIDI looper: records incoming messages with their timing and plays
/// them back in a loop, with overdub, pause and clear.
pub struct Looper {
    events: heapless::Vec<MidiLooperEvent, MAX_EVENTS>,
    state: LooperState,
    record_start_ms: u32,
    loop_len_ms: u32,
    playback_start_ms: u32,
    last_pos_ms: u32,
    paused_pos_ms: u32,
}

impl View for Looper {
    type V = LooperView;

    closed spec fn view(&self) -> LooperView {
        LooperView {
            events: held_events(self.events),
            state: self.state,
            record_start_ms: self.record_start_ms,
            loop_len_ms: self.loop_len_ms,
            playback_start_ms: self.playback_start_ms,
            last_pos_ms: self.last_pos_ms,
            paused_pos_ms: self.paused_pos_ms,
        }
    }
}

impl Looper {
    /// Whether the looper is in one of its consistent states.
    pub open spec fn wf(&self) -> bool {
        looper_wf(self@)
    }

    /// An idle looper with nothing recorded.
    pub fn new() -> (l: Self)
        ensures
            l.wf(),
            l@.events == Seq::<MidiLooperEvent>::empty(),
            l@.state == LooperState::Idle,
            l@.record_start_ms == 0,
            l@.loop_len_ms == 0,
            l@.playback_start_ms == 0,
            l@.last_pos_ms == 0,
            l@.paused_pos_ms == 0,
    {
        Self {
            events: events_new(),
            state: LooperState::Idle,
            record_start_ms: 0,
            loop_len_ms: 0,
            playback_start_ms: 0,
            last_pos_ms: 0,
            paused_pos_ms: 0,
        }
    }

    /// The looper's current mode.
    pub fn state(&self) -> (s: LooperState)
        ensures
            s == self@.state,
    {
        self.state
    }

    /// SW1 at time `now` (milliseconds).
    pub fn sw1(&mut self, now: u32)
        requires
            old(self).wf(),
        ensures
            final(self).wf(),
            final(self)@ == looper_sw1(old(self)@, now),
    {
        match self.state {
            LooperState::Idle => {
                events_clear(&mut self.events);
                self.record_start_ms = now;
                self.loop_len_ms = 0;
                self.state = LooperState::Recording;
            },
            LooperState::Recording => {
                let len = now.wrapping_sub(self.record_start_ms);
                self.loop_len_ms = if len < 1 { 1 } else { len };
                self.playback_start_ms = now;
                self.last_pos_ms = 0;
                self.state = LooperState::Playing;
            },
            LooperState::Playing => {
                self.state = LooperState::Overdub;
            },
            LooperState::Overdub => {
                self.state = LooperState::Playing;
            },
            LooperState::Paused => {
                self.playback_start_ms = now.wrapping_sub(self.paused_pos_ms);
                self.last_pos_ms = self.paused_pos_ms;
                self.state = LooperState::Playing;
            },
        }
    }

    /// SW2 short press at time `now`; returns the all-notes-off message when
    /// a running loop is paused.
    pub fn pause_resume(&mut self, now: u32) -> (sent: Option<MidiEvent>)
        requires
            old(self).wf(),
        ensures
            final(self).wf(),
            final(self)@ == looper_pause_resume(old(self)@, now),
            sent == (if is_running(old(self)@.state) { Some(all_notes_off_message()) } else { None }),
    {
        match self.state {
            LooperState::Playing | LooperState::Overdub => {
                self.paused_pos_ms = self.current_pos_ms(now);
                self.state = LooperState::Paused;
                Some(self.send_all_notes_off())
            },
            LooperState::Paused => {
                self.playback_start_ms = now.wrapping_sub(self.paused_pos_ms);
                self.last_pos_ms = self.paused_pos_ms;
                self.state = LooperState::Playing;
                None
            },
            _ => None,
        }
    }

    /// SW2 long press: forgets the loop and returns the all-notes-off message.
    pub fn clear(&mut self) -> (sent: MidiEvent)
        requires
            old(self).wf(),
        ensures
            final(self).wf(),
            final(self)@ == looper_clear(old(self)@),
            sent == all_notes_off_message(),
    {
        events_clear(&mut self.events);
        self.loop_len_ms = 0;
        self.last_pos_ms = 0;
        self.paused_pos_ms = 0;
        self.state = LooperState::Idle;
        self.send_all_notes_off()
    }

    /// Carries out a footswitch control at time `now`; returns the message
    /// to send, if any.
    pub fn control(&mut self, control: LooperControl, now: u32) -> (sent: Option<MidiEvent>)
        requires
            old(self).wf(),
        ensures
            final(self).wf(),
            control == LooperControl::Sw1 ==> final(self)@ == looper_sw1(old(self)@, now) && sent is None,
            control == LooperControl::PauseResume ==> final(self)@ == looper_pause_resume(old(self)@, now)
                && sent == (if is_running(old(self)@.state) { Some(all_notes_off_message()) } else { None }),
            control == LooperControl::Clear ==> final(self)@ == looper_clear(old(self)@)
                && sent == Some(all_notes_off_message()),
    {
        match control {
            LooperControl::Sw1 => {
                self.sw1(now);
                None
            },
            LooperControl::PauseResume => self.pause_resume(now),
            LooperControl::Clear => Some(self.clear()),
        }
    }

    /// A live MIDI message arriving at time `now`: it is recorded while
    /// recording or overdubbing, and in every state passed through (the
    /// returned message is to be sent as it is).
    pub fn handle_input_event(&mut self, event: MidiEvent, now: u32) -> (sent: MidiEvent)
        requires
            old(self).wf(),
        ensures
            final(self).wf(),
            final(self)@ == looper_input(old(self)@, event, now),
            sent == event,
    {
        match self.state {
            LooperState::Recording => {
                let time_ms = now.wrapping_sub(self.record_start_ms);
                self.record_event(time_ms, event);
            },
            LooperState::Overdub => {
                let time_ms = self.current_pos_ms(now);
                self.record_event(time_ms, event);
            },
            _ => {},
        }
        event
    }

    /// Appends a recorded event; when the buffer is full the event is dropped.
    pub fn record_event(&mut self, time_ms: u32, event: MidiEvent)
        requires
            old(self).wf(),
        ensures
            final(self).wf(),
            final(self)@ == record_into(old(self)@, time_ms, event),
    {
        let _ = events_push(&mut self.events, MidiLooperEvent { time_ms, event });
    }

    /// The loop position at time `now`.
    pub fn current_pos_ms(&self, now: u32) -> (pos: u32)
        requires
            self.wf(),
        ensures
            pos == position_at(self@, now),
            self@.loop_len_ms > 0 ==> pos < self@.loop_len_ms,
    {
        if self.loop_len_ms == 0 {
            0
        } else {
            now.wrapping_sub(self.playback_start_ms) % self.loop_len_ms
        }
    }

    /// Advances playback to time `now` and returns the recorded messages
    /// whose time was passed since the previous tick, in recording order.
    pub fn tick(&mut self, now: u32) -> (played: Vec<MidiEvent>)
        requires
            old(self).wf(),
        ensures
            final(self).wf(),
            final(self)@ == looper_tick(old(self)@, now),
            played@ == tick_messages(old(self)@, now),
    {
        let mut played: Vec<MidiEvent> = Vec::new();
        match self.state {
            LooperState::Playing | LooperState::Overdub => {},
            _ => return played,
        }
        if self.loop_len_ms == 0 {
            return played;
        }
        let pos = self.current_pos_ms(now);
        let last = self.last_pos_ms;
        if pos == last {
            return played;
        }
        let wrapped = pos < last;
        let n = events_len(&self.events);
        let mut i: usize = 0;
        while i < n
            invariant
                self.wf(),
                n == self@.events.len(),
                i <= n,
                wrapped == (pos < last),
                played@ == window_messages(self@.events.take(i as int), last, pos),
            decreases n - i,
        {
            let e = events_get(&self.events, i);
            let should_play = if wrapped {
                e.time_ms > last || e.time_ms <= pos
            } else {
                e.time_ms > last && e.time_ms <= pos
            };
            if should_play {
                played.push(e.event);
            }
            assert(self@.events.take(i + 1).drop_last() =~= self@.events.take(i as int));
            i = i + 1;
        }
        assert(self@.events.take(n as int) =~= self@.events);
        self.last_pos_ms = pos;
        played
    }

    /// The message that silences everything the loop may have left sounding.
    pub fn send_all_notes_off(&self) -> (sent: MidiEvent)
        ensures
            sent == all_notes_off_message(),
    {
        MidiEvent::control_change(0, 123, 0)
    }
}

/// Every transition keeps the looper consistent.
pub proof fn lemma_transitions_keep_wf(v: LooperView, now: u32, event: MidiEvent)
    requires
        looper_wf(v),
    ensures
        looper_wf(looper_sw1(v, now)),
        looper_wf(looper_pause_resume(v, now)),
        looper_wf(looper_clear(v)),
        looper_wf(looper_input(v, event, now)),
        looper_wf(looper_tick(v, now)),
{
}

/// SW1 walks the cycle Idle -> Recording -> Playing <-> Overdub, and brings a
/// paused loop back to Playing.
pub proof fn lemma_sw1_cycle(v: LooperView, now: u32)
    ensures
        v.state == LooperState::Idle ==> looper_sw1(v, now).state == LooperState::Recording,
        v.state == LooperState::Recording ==> looper_sw1(v, now).state == LooperState::Playing,
        v.state == LooperState::Playing ==> looper_sw1(v, now).state == LooperState::Overdub,
        v.state == LooperState::Overdub ==> looper_sw1(v, now).state == LooperState::Playing,
        v.state == LooperState::Paused ==> looper_sw1(v, now).state == LooperState::Playing,
        looper_sw1(v, now).state != LooperState::Idle,
{
}

/// Closing a recording at `now` makes a loop as long as the recording (at
/// least one millisecond) that starts playing from its beginning, with the
/// recorded events kept.
pub proof fn lemma_loop_closes_at_start(v: LooperView, now: u32)
    requires
        looper_wf(v),
        v.state == LooperState::Recording,
    ensures
        looper_sw1(v, now).loop_len_ms == (if now.wrapping_sub(v.record_start_ms) < 1 { 1 } else {
            now.wrapping_sub(v.record_start_ms)
        }),
        position_at(looper_sw1(v, now), now) == 0,
        looper_sw1(v, now).events == v.events,
{
    let w = looper_sw1(v, now);
    assert(now.wrapping_sub(now) == 0);
    vstd::arithmetic::div_mod::lemma_small_mod(0, w.loop_len_ms as nat);
}

/// Pausing and later resuming picks the loop up where it stopped: the
/// position right after resuming at `t2` is the position at which it was
/// paused at `t1`, and the loop itself is unchanged.
pub proof fn lemma_pause_resume_keeps_position(v: LooperView, t1: u32, t2: u32)
    requires
        looper_wf(v),
        is_running(v.state),
    ensures
        looper_pause_resume(v, t1).state == LooperState::Paused,
        looper_pause_resume(looper_pause_resume(v, t1), t2).state == LooperState::Playing,
        position_at(looper_pause_resume(looper_pause_resume(v, t1), t2), t2) == position_at(v, t1),
        looper_pause_resume(looper_pause_resume(v, t1), t2).events == v.events,
        looper_pause_resume(looper_pause_resume(v, t1), t2).loop_len_ms == v.loop_len_ms,
        looper_pause_resume(looper_pause_resume(v, t1), t2).last_pos_ms == position_at(v, t1),
{
    let p = looper_pause_resume(v, t1);
    let r = looper_pause_resume(p, t2);
    let q = position_at(v, t1);
    assert(p.paused_pos_ms == q);
    assert(q < v.loop_len_ms);
    assert(r.playback_start_ms == t2.wrapping_sub(q));
    assert(t2.wrapping_sub(t2.wrapping_sub(q)) == q);
    assert(q % v.loop_len_ms == q) by {
        vstd::arithmetic::div_mod::lemma_small_mod(q as nat, v.loop_len_ms as nat);
    }
}

/// Resuming a paused loop with SW1 also continues from the paused position.
pub proof fn lemma_sw1_resumes_at_paused_position(v: LooperView, now: u32)
    requires
        looper_wf(v),
        v.state == LooperState::Paused,
    ensures
        position_at(looper_sw1(v, now), now) == v.paused_pos_ms,
        looper_sw1(v, now) == looper_pause_resume(v, now),
{
    assert(now.wrapping_sub(now.wrapping_sub(v.paused_pos_ms)) == v.paused_pos_ms);
    vstd::arithmetic::div_mod::lemma_small_mod(v.paused_pos_ms as nat, v.loop_len_ms as nat);
}

/// Clearing forgets every event and returns to Idle from any state.
pub proof fn lemma_clear_forgets(v: LooperView)
    ensures
        looper_clear(v).state == LooperState::Idle,
        looper_clear(v).events.len() == 0,
        looper_clear(v).loop_len_ms == 0,
{
}

/// While recording, each incoming message is kept (room permitting) with
/// its time since the recording began; in Idle, Playing and Paused nothing
/// is recorded.
pub proof fn lemma_recording_keeps_timing(v: LooperView, event: MidiEvent, now: u32)
    requires
        looper_wf(v),
    ensures
        v.state == LooperState::Recording && v.events.len() < MAX_EVENTS ==> looper_input(v, event, now).events
            == v.events.push(MidiLooperEvent { time_ms: now.wrapping_sub(v.record_start_ms), event }),
        (v.state == LooperState::Idle || v.state == LooperState::Playing || v.state == LooperState::Paused)
            ==> looper_input(v, event, now) == v,
        looper_input(v, event, now).events.len() >= v.events.len(),
{
}

/// Events added while overdubbing lie inside the loop.
pub proof fn lemma_overdub_within_loop(v: LooperView, event: MidiEvent, now: u32)
    requires
        looper_wf(v),
        v.state == LooperState::Overdub,
        v.events.len() < MAX_EVENTS,
    ensures
        looper_input(v, event, now).events.last().time_ms < v.loop_len_ms,
        looper_input(v, event, now).events.last().event == event,
{
}

/// A loop that is not running plays nothing and does not move.
pub proof fn lemma_stopped_plays_nothing(v: LooperView, now: u32)
    requires
        !is_running(v.state),
    ensures
        tick_messages(v, now).len() == 0,
        looper_tick(v, now) == v,
{
}

/// Every message a tick plays is one that was recorded.
pub proof fn lemma_played_were_recorded(events: Seq<MidiLooperEvent>, last: u32, pos: u32)
    ensures
        window_messages(events, last, pos).len() <= events.len(),
        forall|k: int|
            #![trigger window_messages(events, last, pos)[k]]
            0 <= k < window_messages(events, last, pos).len() ==> exists|j: int|
                0 <= j < events.len() && (#[trigger] events[j]).event == window_messages(events, last, pos)[k]
                    && in_window(events[j].time_ms, last, pos),
    decreases events.len(),
{
    if events.len() > 0 {
        let prefix = events.drop_last();
        lemma_played_were_recorded(prefix, last, pos);
        let w = window_messages(events, last, pos);
        let wp = window_messages(prefix, last, pos);
        assert forall|k: int| #![trigger w[k]] 0 <= k < w.len() implies exists|j: int|
            0 <= j < events.len() && (#[trigger] events[j]).event == w[k] && in_window(events[j].time_ms, last, pos)
        by {
            if k < wp.len() {
                let j = choose|j: int| 0 <= j < prefix.len() && (#[trigger] prefix[j]).event == wp[k]
                    && in_window(prefix[j].time_ms, last, pos);
                assert(events[j] == prefix[j]);
            } else {
                assert(events[events.len() - 1] == events.last());
            }
        }
    }
}

/// Whether `mid` lies on the way from `last` to `pos` going forward round
/// the loop (a stretch that does not wrap, or one that wraps past the end).
pub open spec fn cyclically_between(last: u32, mid: u32, pos: u32) -> bool {
    if last <= pos {
        last <= mid <= pos
    } else {
        mid >= last || mid <= pos
    }
}

/// Splitting a stretch of the loop at an intermediate position puts each
/// event time in exactly one of the two parts, also when the stretch wraps
/// round the end of the loop.
pub proof fn lemma_windows_split(t: u32, last: u32, mid: u32, pos: u32)
    requires
        cyclically_between(last, mid, pos),
    ensures
        in_window(t, last, pos) == (in_window(t, last, mid) || in_window(t, mid, pos)),
        !(in_window(t, last, mid) && in_window(t, mid, pos)),
{
}

/// Playback neither skips nor repeats: the messages that two consecutive
/// ticks play, from `last` to `mid` and from `mid` to `pos`, are together
/// exactly (as a multiset, and in number) those that one tick from `last`
/// to `pos` plays, wrapping round the end of the loop or not.
pub proof fn lemma_window_messages_split(events: Seq<MidiLooperEvent>, last: u32, mid: u32, pos: u32)
    requires
        cyclically_between(last, mid, pos),
    ensures
        window_messages(events, last, pos).to_multiset() == window_messages(events, last, mid).to_multiset().add(
            window_messages(events, mid, pos).to_multiset(),
        ),
        window_messages(events, last, pos).len() == window_messages(events, last, mid).len() + window_messages(
            events,
            mid,
            pos,
        ).len(),
    decreases events.len(),
{
    broadcast use vstd::seq_lib::group_to_multiset_ensures;

    if events.len() == 0 {
        assert(window_messages(events, last, pos).to_multiset() =~= Multiset::empty());
        assert(window_messages(events, last, mid).to_multiset() =~= Multiset::empty());
        assert(window_messages(events, mid, pos).to_multiset() =~= Multiset::empty());
        assert(Multiset::<MidiEvent>::empty().add(Multiset::empty()) =~= Multiset::empty());
    } else {
        let prefix = events.drop_last();
        let x = events.last();
        lemma_window_messages_split(prefix, last, mid, pos);
        lemma_windows_split(x.time_ms, last, mid, pos);
        let w = window_messages(prefix, last, pos).to_multiset();
        let a = window_messages(prefix, last, mid).to_multiset();
        let b = window_messages(prefix, mid, pos).to_multiset();
        if in_window(x.time_ms, last, mid) {
            assert(w.insert(x.event) =~= a.insert(x.event).add(b));
        } else if in_window(x.time_ms, mid, pos) {
            assert(w.insert(x.event) =~= a.add(b.insert(x.event)));
        }
    }
}

/// The loop position at `now` is the time since playback (re)started,
/// counted on the wrapping 32-bit millisecond clock, modulo the loop length.
pub proof fn lemma_position_is_elapsed_mod_len(v: LooperView, now: u32)
    requires
        v.loop_len_ms > 0,
    ensures
        position_at(v, now) as int == ((now as int - v.playback_start_ms as int) % 0x1_0000_0000) % (
        v.loop_len_ms as int),
{
    let d = now as int - v.playback_start_ms as int;
    if d < 0 {
        vstd::arithmetic::div_mod::lemma_mod_add_multiples_vanish(d, 0x1_0000_0000);
        vstd::arithmetic::div_mod::lemma_small_mod((d + 0x1_0000_0000) as nat, 0x1_0000_0000);
    } else {
        vstd::arithmetic::div_mod::lemma_small_mod(d as nat, 0x1_0000_0000);
    }
    vstd::arithmetic::div_mod::lemma_mod_bound(now.wrapping_sub(v.playback_start_ms) as int, v.loop_len_ms as int);
}

/// While overdubbing, an incoming message (room permitting) is stored at the
/// loop's current playback position: the time since playback (re)started on
/// the wrapping clock, modulo the loop length.
pub proof fn lemma_overdub_records_at_playback_position(v: LooperView, event: MidiEvent, now: u32)
    requires
        looper_wf(v),
        v.state == LooperState::Overdub,
        v.events.len() < MAX_EVENTS,
    ensures
        looper_input(v, event, now).events.len() == v.events.len() + 1,
        looper_input(v, event, now).events.drop_last() == v.events,
        looper_input(v, event, now).events.last().event == event,
        looper_input(v, event, now).events.last().time_ms as int == ((now as int - v.playback_start_ms as int)
            % 0x1_0000_0000) % (v.loop_len_ms as int),
{
    lemma_position_is_elapsed_mod_len(v, now);
    let e2 = looper_input(v, event, now).events;
    assert(e2.drop_last() =~= v.events);
}

/// Resuming continues playback exactly where it paused: right after
/// resuming (with SW2 or SW1) the last played position and the loop position
/// are the paused position, so the next tick plays only what lies after it
/// and nothing played before the pause is played again in that pass.
pub proof fn lemma_resume_continues(v: LooperView, now: u32, later: u32)
    requires
        looper_wf(v),
        v.state == LooperState::Paused,
    ensures
        looper_pause_resume(v, now).last_pos_ms == v.paused_pos_ms,
        looper_sw1(v, now).last_pos_ms == v.paused_pos_ms,
        position_at(looper_pause_resume(v, now), now) == v.paused_pos_ms,
        looper_pause_resume(v, now).events == v.events,
        looper_pause_resume(v, now).state == LooperState::Playing,
        tick_advances(looper_pause_resume(v, now), later) ==> tick_messages(looper_pause_resume(v, now), later)
            == window_messages(v.events, v.paused_pos_ms, position_at(looper_pause_resume(v, now), later)),
        tick_advances(looper_pause_resume(v, now), now) == false,
{
    lemma_sw1_resumes_at_paused_position(v, now);
}

/// A stretch from a position to itself holds no event.
pub proof fn lemma_empty_window(events: Seq<MidiLooperEvent>, p: u32)
    ensures
        window_messages(events, p, p).len() == 0,
    decreases events.len(),
{
    if events.len() > 0 {
        lemma_empty_window(events.drop_last(), p);
    }
}

/// Starting to record at `now` and then taking in a message at `t` stores it
/// at `t - now` on the wrapping clock, as the only recorded event.
pub proof fn lemma_recording_starts_at_sw1(v: LooperView, now: u32, event: MidiEvent, t: u32)
    requires
        looper_wf(v),
        v.state == LooperState::Idle,
    ensures
        looper_input(looper_sw1(v, now), event, t).events == seq![
            MidiLooperEvent { time_ms: t.wrapping_sub(now), event },
        ],
{
    assert(Seq::<MidiLooperEvent>::empty().push(MidiLooperEvent { time_ms: t.wrapping_sub(now), event }) =~= seq![
        MidiLooperEvent { time_ms: t.wrapping_sub(now), event },
    ]);
}

/// Two ticks in a row play, together, exactly what one tick over the same
/// stretch plays (as a multiset): the first one leaves off where it played
/// up to, a second tick at the same moment plays nothing, and playback does
/// not restart.
pub proof fn lemma_consecutive_ticks(v: LooperView, t1: u32, t2: u32)
    requires
        looper_wf(v),
        is_running(v.state),
        cyclically_between(v.last_pos_ms, position_at(v, t1), position_at(v, t2)),
    ensures
        tick_messages(v, t1).to_multiset().add(tick_messages(looper_tick(v, t1), t2).to_multiset())
            == tick_messages(v, t2).to_multiset(),
        tick_messages(looper_tick(v, t1), t1).len() == 0,
        looper_tick(v, t1).playback_start_ms == v.playback_start_ms,
        looper_tick(v, t1).last_pos_ms == position_at(v, t1),
{
    broadcast use vstd::seq_lib::group_to_multiset_ensures;

    let a = looper_tick(v, t1);
    let last = v.last_pos_ms;
    let p1 = position_at(v, t1);
    let p2 = position_at(v, t2);
    assert(position_at(a, t2) == p2);
    lemma_window_messages_split(v.events, last, p1, p2);
    lemma_empty_window(v.events, last);
    lemma_empty_window(v.events, p1);
    lemma_empty_window(v.events, p2);
    let em = Seq::<MidiEvent>::empty();
    assert(em.to_multiset() =~= Multiset::empty());
    assert(window_messages(v.events, last, last) =~= em);
    assert(window_messages(v.events, p1, p1) =~= em);
    assert(window_messages(v.events, p2, p2) =~= em);
    let w1 = window_messages(v.events, last, p1).to_multiset();
    let w2 = window_messages(v.events, p1, p2).to_multiset();
    assert(w1.add(Multiset::empty()) =~= w1);
    assert(Multiset::<MidiEvent>::empty().add(w2) =~= w2);
    assert(Multiset::<MidiEvent>::empty().add(Multiset::empty()) =~= Multiset::<MidiEvent>::empty());
}

} // verus!
