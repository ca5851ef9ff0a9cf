use vstd::prelude::*;

use crate::config::CONFIRMATIONS;

verus! {

/// What a [`NoteSmoother`] remembers between readings.
pub struct SmootherView {
    /// The note the smoother currently reports.
    pub stable_note: Option<u8>,
    /// A different note that has been read recently and may replace it.
    pub candidate_note: Option<u8>,
    /// How many readings in a row the candidate has been seen.
    pub candidate_count: u8,
}

/// The state of a smoother that has heard nothing.
pub open spec fn smoother_idle() -> SmootherView {
    SmootherView { stable_note: None, candidate_note: None, candidate_count: 0 }
}

/// The states a smoother can be in: a candidate exists exactly when it has
/// been counted, only beside a stable note that it differs from, and never
/// for as many readings as it takes to be confirmed.
pub open spec fn smoother_wf(s: SmootherView) -> bool {
    &&& (s.candidate_note is None <==> s.candidate_count == 0)
    &&& s.candidate_note is Some ==> s.stable_note is Some && s.candidate_note != s.stable_note
    &&& s.candidate_count < CONFIRMATIONS
}

/// How one reading changes the smoother.
///
/// No reading clears everything. The stable note read again drops any
/// candidate. With nothing stable, the first note read is taken at once.
/// Otherwise the note becomes (or stays) the candidate, and once it has been
/// read `CONFIRMATIONS` times in a row it replaces the stable note.
pub open spec fn smoother_step(s: SmootherView, reading: Option<u8>) -> SmootherView {
    match reading {
        None => smoother_idle(),
        Some(note) => if s.stable_note == Some(note) {
            SmootherView { stable_note: s.stable_note, candidate_note: None, candidate_count: 0 }
        } else if s.stable_note is None {
            SmootherView { stable_note: Some(note), ..s }
        } else {
            let count: u8 = if s.candidate_note == Some(note) {
                if s.candidate_count + 1 > u8::MAX {
                    u8::MAX
                } else {
                    (s.candidate_count + 1) as u8
                }
            } else {
                1
            };
            if count >= CONFIRMATIONS {
                SmootherView { stable_note: Some(note), candidate_note: None, candidate_count: 0 }
            } else {
                SmootherView { stable_note: s.stable_note, candidate_note: Some(note), candidate_count: count }
            }
        },
    }
}

/// Suppresses flicker in the detected note: a change of note is reported
/// only after the new note has been read several times in a row.
pub struct NoteSmoother {
    stable_note: Option<u8>,
    candidate_note: Option<u8>,
    candidate_count: u8,
}

impl View for NoteSmoother {
    type V = SmootherView;

    closed spec fn view(&self) -> SmootherView {
        SmootherView {
            stable_note: self.stable_note,
            candidate_note: self.candidate_note,
            candidate_count: self.candidate_count,
        }
    }
}

impl NoteSmoother {
    #[verifier::type_invariant]
    closed spec fn inv(self) -> bool {
        smoother_wf(self@)
    }

    /// A smoother that has heard nothing.
    pub fn new() -> (s: Self)
        ensures
            s@ == smoother_idle(),
    {
        Self { stable_note: None, candidate_note: None, candidate_count: 0 }
    }

    /// Forgets the stable note and any candidate.
    pub fn reset(&mut self)
        ensures
            final(self)@ == smoother_idle(),
    {
        *self = Self { stable_note: None, candidate_note: None, candidate_count: 0 };
    }

    /// Feeds one reading (`None` when no note was detected) and returns the
    /// note to report.
    pub fn update(&mut self, note: Option<u8>) -> (reported: Option<u8>)
        ensures
            final(self)@ == smoother_step(old(self)@, note),
            reported == final(self)@.stable_note,
            smoother_wf(final(self)@),
    {
        proof {
            use_type_invariant(&*self);
        }
        let note = match note {
            Some(n) => n,
            None => {
                self.reset();
                return None;
            },
        };

        if self.stable_note == Some(note) {
            *self = Self { stable_note: self.stable_note, candidate_note: None, candidate_count: 0 };
            return self.stable_note;
        }
        if self.stable_note.is_none() {
            *self = Self { stable_note: Some(note), candidate_note: self.candidate_note, candidate_count: self.candidate_count };
            return self.stable_note;
        }
        let count: u8 = if self.candidate_note == Some(note) {
            self.candidate_count.saturating_add(1)
        } else {
            1
        };
        if count >= CONFIRMATIONS {
            *self = Self { stable_note: Some(note), candidate_note: None, candidate_count: 0 };
        } else {
            *self = Self { stable_note: self.stable_note, candidate_note: Some(note), candidate_count: count };
        }
        self.stable_note
    }
}

/// `k` readings of the same note `note` in a row.
pub open spec fn smoother_repeat(s: SmootherView, note: u8, k: nat) -> SmootherView
    decreases k,
{
    if k == 0 {
        s
    } else {
        smoother_step(smoother_repeat(s, note, (k - 1) as nat), Some(note))
    }
}

/// Every step keeps a smoother well formed.
pub proof fn lemma_step_keeps_wf(s: SmootherView, reading: Option<u8>)
    requires
        smoother_wf(s),
    ensures
        smoother_wf(smoother_step(s, reading)),
{
}

/// Once a note is stable, reading it again keeps reporting it.
pub proof fn lemma_stable_note_holds(s: SmootherView, note: u8)
    requires
        smoother_wf(s),
        s.stable_note == Some(note),
    ensures
        smoother_step(s, Some(note)).stable_note == Some(note),
        smoother_step(s, Some(note)).candidate_note is None,
{
}

/// With nothing stable, the first note read is reported at once.
pub proof fn lemma_first_note_immediate(s: SmootherView, note: u8)
    requires
        smoother_wf(s),
        s.stable_note is None,
    ensures
        smoother_step(s, Some(note)).stable_note == Some(note),
{
}

/// A change of note needs confirmation: starting from a stable note and a
/// candidate other than `note`, reading `note` keeps reporting the old note
/// for the first `CONFIRMATIONS - 1` readings and reports `note` from the
/// `CONFIRMATIONS`-th reading on.
pub proof fn lemma_change_needs_confirmations(s: SmootherView, note: u8, k: nat)
    requires
        smoother_wf(s),
        s.stable_note is Some,
        s.stable_note != Some(note),
        s.candidate_note != Some(note),
        k <= CONFIRMATIONS,
    ensures
        k < CONFIRMATIONS ==> smoother_repeat(s, note, k).stable_note == s.stable_note,
        k == CONFIRMATIONS ==> smoother_repeat(s, note, k).stable_note == Some(note),
        0 < k < CONFIRMATIONS ==> smoother_repeat(s, note, k).candidate_note == Some(note)
            && smoother_repeat(s, note, k).candidate_count == k,
    decreases k,
{
    if k > 0 {
        lemma_change_needs_confirmations(s, note, (k - 1) as nat);
    }
}

/// No reading clears the smoother: its state is the same as a new one's.
pub proof fn lemma_silence_resets(s: SmootherView)
    ensures
        smoother_step(s, None) == smoother_idle(),
{
}

} // verus!
