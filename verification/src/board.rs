use vstd::prelude::*;

use crate::config::{CLEAR_HOLD_MS, EXP_CHANNELS, EXP_HYSTERESIS, EXP_ZONE_WIDTH};
use crate::midi::looper::LooperControl;

verus! {

/// The zone of the expression pedal's travel that a raw reading lies in,
/// counting the top zone as extending to the end of the travel.
pub open spec fn zone_of(raw: u16) -> int {
    let z: int = raw as int / EXP_ZONE_WIDTH as int;
    if z < EXP_CHANNELS - 1 {
        z
    } else {
        EXP_CHANNELS - 1
    }
}

/// `current` brought into the range of channels the pedal selects.
pub open spec fn clamp_channel(current: usize) -> int {
    if current < EXP_CHANNELS - 1 {
        current as int
    } else {
        EXP_CHANNELS - 1
    }
}

/// The channel the expression pedal selects at `raw` when `current` is
/// selected: the channel changes to the pedal's zone only once the reading
/// lies more than `EXP_HYSTERESIS` beyond the current zone's borders.
pub open spec fn pedal_channel(raw: u16, current: usize) -> int {
    let cur = clamp_channel(current);
    let lower = cur * EXP_ZONE_WIDTH;
    let upper = (cur + 1) * EXP_ZONE_WIDTH;
    if cur < EXP_CHANNELS - 1 && raw >= upper + EXP_HYSTERESIS {
        zone_of(raw)
    } else if cur > 0 && raw + EXP_HYSTERESIS < lower {
        zone_of(raw)
    } else {
        cur
    }
}

/// Maps the expression pedal's raw ADC reading to a MIDI channel, with
/// hysteresis around the zone borders so the channel does not flicker.
pub fn expression_raw_to_channel(raw: u16, current_channel: usize) -> (channel: usize)
    ensures
        channel == pedal_channel(raw, current_channel),
        channel < EXP_CHANNELS,
{
    let raw = raw as u32;
    let current = current_channel.min(EXP_CHANNELS - 1);

    let lower = current as u32 * EXP_ZONE_WIDTH;
    let upper = (current as u32 + 1) * EXP_ZONE_WIDTH;

    if current < EXP_CHANNELS - 1 && raw >= upper + EXP_HYSTERESIS {
        (raw / EXP_ZONE_WIDTH).min((EXP_CHANNELS - 1) as u32) as usize
    } else if current > 0 && raw + EXP_HYSTERESIS < lower {
        (raw / EXP_ZONE_WIDTH).min((EXP_CHANNELS - 1) as u32) as usize
    } else {
        current
    }
}

/// The pedal keeps the current channel while the reading stays within
/// `EXP_HYSTERESIS` of the current zone.
pub proof fn lemma_pedal_hysteresis(raw: u16, current: usize)
    requires
        clamp_channel(current) * EXP_ZONE_WIDTH - EXP_HYSTERESIS <= raw,
        raw < (clamp_channel(current) + 1) * EXP_ZONE_WIDTH + EXP_HYSTERESIS,
    ensures
        pedal_channel(raw, current) == clamp_channel(current),
{
}

/// When the channel changes, it goes straight to the zone the pedal is in.
pub proof fn lemma_pedal_jumps_to_zone(raw: u16, current: usize)
    ensures
        pedal_channel(raw, current) != clamp_channel(current) ==> pedal_channel(raw, current) == zone_of(raw),
        0 <= pedal_channel(raw, current) < EXP_CHANNELS,
{
}

/// A second reading at the same pedal position keeps the channel that the
/// first one selected.
pub proof fn lemma_pedal_settles(raw: u16, current: usize)
    ensures
        pedal_channel(raw, pedal_channel(raw, current) as usize) == pedal_channel(raw, current),
{
}

/// A footswitch edge.
#[derive(Clone, Copy, PartialEq, Eq, Structural, Debug)]
pub enum SwitchEvent {
    Sw1Pressed,
    Sw1Released,
    Sw2Pressed,
    Sw2Released,
}

/// The MIDI channel currently selected (0 to 3).
pub struct State {
    midi_channel: usize,
}

impl View for State {
    type V = nat;

    closed spec fn view(&self) -> nat {
        self.midi_channel as nat
    }
}

/// The channel before `c`, going round from 0 to 3.
pub open spec fn prev_of(c: nat) -> nat {
    ((c + 3) % 4) as nat
}

/// The channel after `c`, going round from 3 to 0.
pub open spec fn next_of(c: nat) -> nat {
    ((c + 1) % 4) as nat
}

impl State {
    #[verifier::type_invariant]
    closed spec fn inv(self) -> bool {
        self.midi_channel < 4
    }

    /// Channel 0 selected.
    pub fn new() -> (s: Self)
        ensures
            s@ == 0,
    {
        Self { midi_channel: 0 }
    }

    /// Selects the previous channel, wrapping from the first to the last.
    pub fn prev_channel(&mut self)
        ensures
            final(self)@ == prev_of(old(self)@),
    {
        proof {
            use_type_invariant(&*self);
        }
        self.midi_channel = (self.midi_channel + 3) % 4;
    }

    /// Selects the next channel, wrapping from the last to the first.
    pub fn next_channel(&mut self)
        ensures
            final(self)@ == next_of(old(self)@),
    {
        proof {
            use_type_invariant(&*self);
        }
        self.midi_channel = (self.midi_channel + 1) % 4;
    }

    /// Selects `channel` modulo 4.
    pub fn set_channel(&mut self, channel: usize)
        ensures
            final(self)@ == channel % 4,
    {
        self.midi_channel = channel % 4;
    }

    /// The selected channel.
    pub fn channel(&self) -> (c: usize)
        ensures
            c == self@,
            c < 4,
    {
        proof {
            use_type_invariant(self);
        }
        self.midi_channel
    }
}

/// Stepping to the next channel and back, or back and then on, returns to
/// the same channel, and four steps in one direction go all the way round.
pub proof fn lemma_channel_steps(c: nat)
    requires
        c < 4,
    ensures
        prev_of(next_of(c)) == c,
        next_of(prev_of(c)) == c,
        next_of(next_of(next_of(next_of(c)))) == c,
        prev_of(c) < 4 && next_of(c) < 4,
{
}

/// The two footswitches' levels as last seen.
pub struct AUX1 {
    sw1_was_pressed: bool,
    sw2_was_pressed: bool,
}

impl View for AUX1 {
    type V = (bool, bool);

    closed spec fn view(&self) -> (bool, bool) {
        (self.sw1_was_pressed, self.sw2_was_pressed)
    }
}

/// What `poll_event` reports for the levels `sw1` and `sw2` when the
/// switches were last seen at `seen`: a change of SW1 first, else a change
/// of SW2, else nothing.
pub open spec fn switch_event_for(seen: (bool, bool), sw1: bool, sw2: bool) -> Option<SwitchEvent> {
    if sw1 != seen.0 {
        Some(if sw1 { SwitchEvent::Sw1Pressed } else { SwitchEvent::Sw1Released })
    } else if sw2 != seen.1 {
        Some(if sw2 { SwitchEvent::Sw2Pressed } else { SwitchEvent::Sw2Released })
    } else {
        None
    }
}

/// The levels remembered after reporting: only the switch whose change was
/// reported is updated.
pub open spec fn seen_after(seen: (bool, bool), sw1: bool, sw2: bool) -> (bool, bool) {
    if sw1 != seen.0 {
        (sw1, seen.1)
    } else {
        (seen.0, sw2)
    }
}

impl AUX1 {
    /// Both switches seen released.
    pub fn new() -> (a: Self)
        ensures
            a@ == (false, false),
    {
        Self { sw1_was_pressed: false, sw2_was_pressed: false }
    }

    /// Given SW1's level now, says whether it went down since last seen.
    pub fn sw1_just_pressed(&mut self, pressed: bool) -> (just: bool)
        ensures
            just == (pressed && !old(self)@.0),
            final(self)@ == (pressed, old(self)@.1),
    {
        let just_pressed = pressed && !self.sw1_was_pressed;
        self.sw1_was_pressed = pressed;
        just_pressed
    }

    /// Given SW2's level now, says whether it went down since last seen.
    pub fn sw2_just_pressed(&mut self, pressed: bool) -> (just: bool)
        ensures
            just == (pressed && !old(self)@.1),
            final(self)@ == (old(self)@.0, pressed),
    {
        let just_pressed = pressed && !self.sw2_was_pressed;
        self.sw2_was_pressed = pressed;
        just_pressed
    }

    /// Given both switches' levels now, reports one edge: SW1's if it
    /// changed, else SW2's if it changed.
    pub fn poll_event(&mut self, sw1_pressed: bool, sw2_pressed: bool) -> (event: Option<SwitchEvent>)
        ensures
            event == switch_event_for(old(self)@, sw1_pressed, sw2_pressed),
            final(self)@ == seen_after(old(self)@, sw1_pressed, sw2_pressed),
    {
        if sw1_pressed != self.sw1_was_pressed {
            self.sw1_was_pressed = sw1_pressed;
            return Some(if sw1_pressed { SwitchEvent::Sw1Pressed } else { SwitchEvent::Sw1Released });
        }
        if sw2_pressed != self.sw2_was_pressed {
            self.sw2_was_pressed = sw2_pressed;
            return Some(if sw2_pressed { SwitchEvent::Sw2Pressed } else { SwitchEvent::Sw2Released });
        }
        None
    }
}

/// No edge is lost: with the levels held, polling reports SW1's change, then
/// SW2's, and then nothing, after which both levels are remembered.
pub proof fn lemma_poll_reports_every_edge(seen: (bool, bool), sw1: bool, sw2: bool)
    ensures
        ({
            let s1 = seen_after(seen, sw1, sw2);
            let s2 = seen_after(s1, sw1, sw2);
            &&& s2 == (sw1, sw2)
            &&& switch_event_for(s2, sw1, sw2) is None
            &&& (sw1 != seen.0 && sw2 != seen.1) ==> switch_event_for(s1, sw1, sw2) is Some
        }),
        switch_event_for(seen, sw1, sw2) is None <==> seen == (sw1, sw2),
{
}

/// Which of the four channel LEDs are lit.
pub struct ChLeds {
    levels: [bool; 4],
}

impl View for ChLeds {
    type V = Seq<bool>;

    closed spec fn view(&self) -> Seq<bool> {
        self.levels@
    }
}

/// The LEDs for `channel`: only its own LED lit, none for a channel beyond 3.
pub open spec fn leds_for(channel: usize) -> Seq<bool> {
    Seq::new(4, |i: int| i == channel)
}

impl ChLeds {
    /// All LEDs dark.
    pub fn new() -> (l: Self)
        ensures
            l@ == seq![false, false, false, false],
    {
        let l = Self { levels: [false, false, false, false] };
        assert(l@ =~= seq![false, false, false, false]);
        l
    }

    /// Lights the LED of `channel` and darkens the others.
    pub fn set_channel(&mut self, channel: usize)
        ensures
            final(self)@ == leds_for(channel),
    {
        let mut levels = [false, false, false, false];
        match channel {
            0 => levels[0] = true,
            1 => levels[1] = true,
            2 => levels[2] = true,
            3 => levels[3] = true,
            _ => {},
        }
        self.levels = levels;
        assert(self.levels@ =~= leds_for(channel));
    }

    /// The LED levels, first channel first.
    pub fn levels(&self) -> (levels: [bool; 4])
        ensures
            levels@ == self@,
    {
        self.levels
    }
}

/// Exactly one LED is lit for each of the four channels.
pub proof fn lemma_one_led_per_channel(channel: usize)
    requires
        channel < 4,
    ensures
        leds_for(channel).filter(|b: bool| b).len() == 1,
        leds_for(channel)[channel as int],
{
    let s = leds_for(channel);
    reveal_with_fuel(Seq::filter, 5);
    assert(s =~= seq![channel == 0, channel == 1, channel == 2, channel == 3]);
    assert(s.drop_last().drop_last().drop_last().drop_last() =~= Seq::<bool>::empty());
}

/// The milliseconds that embassy-time counts from the instant of tick count
/// `earlier_ticks` to that of `now_ticks`.
pub uninterp spec fn elapsed_millis(now_ticks: u64, earlier_ticks: u64) -> u64;

/// `embassy_time::Instant::duration_since` followed by
/// `Duration::as_millis`, on instants given by their tick counts. The tick
/// rate is a build setting of embassy-time, so the result is only named.
/// `duration_since` panics when `earlier_ticks` is the later one.
#[verifier::external_body]
fn held_millis(now_ticks: u64, earlier_ticks: u64) -> (ms: u64)
    requires
        earlier_ticks <= now_ticks,
    ensures
        ms == elapsed_millis(now_ticks, earlier_ticks),
{
    embassy_time::Instant::from_ticks(now_ticks).duration_since(embassy_time::Instant::from_ticks(earlier_ticks)).as_millis()
}

/// The looper control that releasing SW2 after holding it `held_ms`
/// milliseconds asks for: a long press clears, a short one pauses or resumes.
pub fn release_control(held_ms: u64) -> (control: LooperControl)
    ensures
        control == (if held_ms >= CLEAR_HOLD_MS { LooperControl::Clear } else { LooperControl::PauseResume }),
{
    if held_ms >= CLEAR_HOLD_MS {
        LooperControl::Clear
    } else {
        LooperControl::PauseResume
    }
}

/// What the footswitch and pedal loop remembers between its rounds.
pub struct AuxView {
    /// Tick count at which SW2 went down, while it is held.
    pub sw2_pressed_at: Option<u64>,
    /// The channel the LEDs show.
    pub last_displayed_channel: Option<usize>,
}

/// The decisions of the footswitch and expression-pedal loop: which looper
/// control a switch edge asks for, and when the LEDs must change.
pub struct AuxController {
    sw2_pressed_at: Option<u64>,
    last_displayed_channel: Option<usize>,
}

impl View for AuxController {
    type V = AuxView;

    closed spec fn view(&self) -> AuxView {
        AuxView { sw2_pressed_at: self.sw2_pressed_at, last_displayed_channel: self.last_displayed_channel }
    }
}

/// The control that releasing SW2 at `now_ticks` asks for.
pub open spec fn sw2_release_control(v: AuxView, now_ticks: u64) -> LooperControl {
    let held: u64 = match v.sw2_pressed_at {
        Some(t) => elapsed_millis(now_ticks, t),
        None => 0,
    };
    if held >= CLEAR_HOLD_MS {
        LooperControl::Clear
    } else {
        LooperControl::PauseResume
    }
}

impl AuxController {
    /// SW2 not held, nothing displayed yet.
    pub fn new() -> (c: Self)
        ensures
            c@.sw2_pressed_at is None,
            c@.last_displayed_channel is None,
    {
        Self { sw2_pressed_at: None, last_displayed_channel: None }
    }

    /// The tick count at which SW2 went down, while it is held.
    pub fn sw2_pressed_at(&self) -> (t: Option<u64>)
        ensures
            t == self@.sw2_pressed_at,
    {
        self.sw2_pressed_at
    }

    /// Handles a footswitch edge seen at tick count `now_ticks`: releasing
    /// SW1 asks for SW1's looper action; pressing SW2 starts timing it;
    /// releasing SW2 asks to clear after a long press and to pause or resume
    /// after a short one.
    pub fn on_switch_event(&mut self, event: SwitchEvent, now_ticks: u64) -> (control: Option<LooperControl>)
        requires
            event == SwitchEvent::Sw2Released && old(self)@.sw2_pressed_at is Some
                ==> old(self)@.sw2_pressed_at.unwrap() <= now_ticks,
        ensures
            event == SwitchEvent::Sw1Pressed ==> control is None && final(self)@ == old(self)@,
            event == SwitchEvent::Sw1Released ==> control == Some(LooperControl::Sw1) && final(self)@
                == old(self)@,
            event == SwitchEvent::Sw2Pressed ==> control is None && final(self)@ == (AuxView {
                sw2_pressed_at: Some(now_ticks),
                ..old(self)@
            }),
            event == SwitchEvent::Sw2Released ==> control == Some(sw2_release_control(old(self)@, now_ticks))
                && final(self)@ == (AuxView { sw2_pressed_at: None, ..old(self)@ }),
    {
        match event {
            SwitchEvent::Sw1Pressed => None,
            SwitchEvent::Sw1Released => Some(LooperControl::Sw1),
            SwitchEvent::Sw2Pressed => {
                self.sw2_pressed_at = Some(now_ticks);
                None
            },
            SwitchEvent::Sw2Released => {
                let held_ms: u64 = match self.sw2_pressed_at {
                    Some(t) => held_millis(now_ticks, t),
                    None => 0,
                };
                self.sw2_pressed_at = None;
                Some(release_control(held_ms))
            },
        }
    }

    /// Takes in the expression pedal's raw reading: moves the selected
    /// channel in `state` as the pedal asks, and returns the channel the
    /// LEDs must now show when it differs from what they show.
    pub fn on_expression(&mut self, raw: u16, state: &mut State) -> (display: Option<usize>)
        ensures
            final(state)@ == pedal_channel(raw, old(state)@ as usize),
            display == (if old(self)@.last_displayed_channel == Some(final(state)@ as usize) {
                None::<usize>
            } else {
                Some(final(state)@ as usize)
            }),
            final(self)@ == (AuxView { last_displayed_channel: Some(final(state)@ as usize), ..old(self)@ }),
    {
        let current_channel = state.channel();
        let new_channel = expression_raw_to_channel(raw, current_channel);
        if new_channel != current_channel {
            state.set_channel(new_channel);
        }
        let channel = state.channel();
        if self.last_displayed_channel != Some(channel) {
            self.last_displayed_channel = Some(channel);
            Some(channel)
        } else {
            None
        }
    }
}

/// Beyond the hysteresis band the pedal follows its zone: a reading more
/// than `EXP_HYSTERESIS` below the current zone, or at least that far above
/// it, selects the zone the reading lies in, which is the channel `z` with
/// `z * EXP_ZONE_WIDTH <= raw < (z + 1) * EXP_ZONE_WIDTH` (the top zone
/// reaching to the end of the travel).
pub proof fn lemma_pedal_follows_zone(raw: u16, current: usize)
    ensures
        (raw < clamp_channel(current) * EXP_ZONE_WIDTH - EXP_HYSTERESIS || raw >= (clamp_channel(current) + 1)
            * EXP_ZONE_WIDTH + EXP_HYSTERESIS) ==> pedal_channel(raw, current) == zone_of(raw),
        0 <= zone_of(raw) < EXP_CHANNELS,
        zone_of(raw) * EXP_ZONE_WIDTH <= raw,
        raw < (zone_of(raw) + 1) * EXP_ZONE_WIDTH || zone_of(raw) == EXP_CHANNELS - 1,
{
}

/// A poll reports a press exactly when the switch is down now and was up
/// before, and a release exactly when it is up now and was down before; a
/// change of SW2 is reported only when SW1 has not changed.
pub proof fn lemma_poll_event_direction(seen: (bool, bool), sw1: bool, sw2: bool)
    ensures
        switch_event_for(seen, sw1, sw2) == Some(SwitchEvent::Sw1Pressed) <==> sw1 && !seen.0,
        switch_event_for(seen, sw1, sw2) == Some(SwitchEvent::Sw1Released) <==> !sw1 && seen.0,
        switch_event_for(seen, sw1, sw2) == Some(SwitchEvent::Sw2Pressed) <==> sw1 == seen.0 && sw2 && !seen.1,
        switch_event_for(seen, sw1, sw2) == Some(SwitchEvent::Sw2Released) <==> sw1 == seen.0 && !sw2 && seen.1,
{
}

} // verus!
