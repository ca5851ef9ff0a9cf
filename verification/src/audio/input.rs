use vstd::prelude::*;

use crate::config::FRAME_LEN;

verus! {

/// The stride and offset actually used to pick the instrument's samples out
/// of the interleaved input: a zero stride is taken as 1, and an offset that
/// does not fit in the stride as 0.
pub fn input_selection(stride: usize, offset: usize) -> (sel: (usize, usize))
    ensures
        sel.0 == (if stride == 0 { 1 } else { stride }),
        sel.1 == (if offset < sel.0 { offset } else { 0 }),
        sel.1 < sel.0,
{
    let input_stride = if stride == 0 {
        1
    } else {
        stride
    };
    let input_offset = if offset < input_stride {
        offset
    } else {
        0
    };
    (input_stride, input_offset)
}

/// What a [`FrameAssembler`] holds.
pub struct FramerView {
    /// Selected samples of the frame being filled.
    pub pending: Seq<u32>,
    /// Position of the next input sample within its group of `stride`.
    pub phase: nat,
    pub stride: nat,
    pub offset: nat,
}

pub open spec fn framer_wf(v: FramerView) -> bool {
    &&& 1 <= v.stride <= usize::MAX
    &&& v.offset < v.stride
    &&& v.phase < v.stride
    &&& v.pending.len() < FRAME_LEN
}

/// The phase after one more input sample.
pub open spec fn next_phase(v: FramerView) -> nat {
    if v.phase + 1 >= v.stride {
        0
    } else {
        (v.phase + 1) as nat
    }
}

/// Whether the next input sample belongs to the instrument.
pub open spec fn selects(v: FramerView) -> bool {
    v.phase == v.offset
}

/// The assembler after one input sample.
pub open spec fn after_sample(v: FramerView, sample: u32) -> FramerView {
    let pending = if selects(v) {
        let p = v.pending.push(sample);
        if p.len() == FRAME_LEN {
            Seq::empty()
        } else {
            p
        }
    } else {
        v.pending
    };
    FramerView { pending, phase: next_phase(v), ..v }
}

/// The frame that one input sample completes, if any.
pub open spec fn completed_frame(v: FramerView, sample: u32) -> Option<Seq<u32>> {
    if selects(v) && v.pending.len() + 1 == FRAME_LEN {
        Some(v.pending.push(sample))
    } else {
        None
    }
}

/// Collects the instrument's samples from the interleaved audio input into
/// frames of `FRAME_LEN` samples for pitch analysis.
pub struct FrameAssembler {
    raw_frame: Vec<u32>,
    sample_phase: usize,
    input_stride: usize,
    input_offset: usize,
}

impl View for FrameAssembler {
    type V = FramerView;

    closed spec fn view(&self) -> FramerView {
        FramerView {
            pending: self.raw_frame@,
            phase: self.sample_phase as nat,
            stride: self.input_stride as nat,
            offset: self.input_offset as nat,
        }
    }
}

impl FrameAssembler {
    pub open spec fn wf(&self) -> bool {
        framer_wf(self@)
    }

    /// An empty assembler for the given stride and offset, corrected as
    /// [`input_selection`] does.
    pub fn new(stride: usize, offset: usize) -> (a: Self)
        ensures
            a.wf(),
            a@.pending.len() == 0,
            a@.phase == 0,
            (a@.stride as usize, a@.offset as usize) == input_selection_spec(stride, offset),
    {
        let (input_stride, input_offset) = input_selection(stride, offset);
        Self { raw_frame: Vec::new(), sample_phase: 0, input_stride, input_offset }
    }

    /// Takes in one input sample; returns the frame it completes, if any.
    pub fn push_sample(&mut self, sample: u32) -> (frame: Option<Vec<u32>>)
        requires
            old(self).wf(),
        ensures
            final(self).wf(),
            final(self)@ == after_sample(old(self)@, sample),
            match frame {
                Some(f) => completed_frame(old(self)@, sample) == Some(f@),
                None => completed_frame(old(self)@, sample) is None,
            },
    {
        let mut frame: Option<Vec<u32>> = None;
        if self.sample_phase == self.input_offset {
            self.raw_frame.push(sample);
            if self.raw_frame.len() == FRAME_LEN {
                let mut full: Vec<u32> = Vec::new();
                std::mem::swap(&mut full, &mut self.raw_frame);
                frame = Some(full);
            }
        }
        self.sample_phase = self.sample_phase + 1;
        if self.sample_phase >= self.input_stride {
            self.sample_phase = 0;
        }
        frame
    }

    /// Takes in a block of input samples; returns the frames they complete,
    /// in order.
    pub fn push_samples(&mut self, samples: &[u32]) -> (frames: Vec<Vec<u32>>)
        requires
            old(self).wf(),
        ensures
            final(self).wf(),
            final(self)@ == after_samples(old(self)@, samples@),
            frames@.map_values(|f: Vec<u32>| f@) == frames_from(old(self)@, samples@),
    {
        let ghost v0 = self@;
        let mut frames: Vec<Vec<u32>> = Vec::new();
        let mut i: usize = 0;
        while i < samples.len()
            invariant
                self.wf(),
                framer_wf(v0),
                i <= samples.len(),
                self@ == after_samples(v0, samples@.take(i as int)),
                frames@.map_values(|f: Vec<u32>| f@) == frames_from(v0, samples@.take(i as int)),
            decreases samples.len() - i,
        {
            let ghost before = frames@.map_values(|f: Vec<u32>| f@);
            proof {
                assert(samples@.take(i + 1).drop_last() =~= samples@.take(i as int));
                assert(samples@.take(i + 1).last() == samples@[i as int]);
            }
            let frame = self.push_sample(samples[i]);
            match frame {
                Some(f) => {
                    frames.push(f);
                    assert(frames@.map_values(|f: Vec<u32>| f@) =~= before.push(f@));
                },
                None => {},
            }
            i = i + 1;
        }
        assert(samples@.take(samples.len() as int) =~= samples@);
        frames
    }
}

/// The stride and offset [`input_selection`] computes.
pub open spec fn input_selection_spec(stride: usize, offset: usize) -> (usize, usize) {
    let s: usize = if stride == 0 { 1 } else { stride };
    (s, if offset < s { offset } else { 0 })
}

/// The assembler after the samples `samples`, one after another.
pub open spec fn after_samples(v: FramerView, samples: Seq<u32>) -> FramerView
    decreases samples.len(),
{
    if samples.len() == 0 {
        v
    } else {
        after_sample(after_samples(v, samples.drop_last()), samples.last())
    }
}

/// The instrument keeps its place in the interleaving: after `k` input
/// samples the phase has advanced by `k` modulo the stride, so the input
/// sample at index `k` is selected exactly when `(phase + k) % stride` is
/// the offset.
pub proof fn lemma_phase_advances(v: FramerView, samples: Seq<u32>)
    requires
        framer_wf(v),
    ensures
        after_samples(v, samples).phase == (v.phase + samples.len()) as int % (v.stride as int),
        after_samples(v, samples).stride == v.stride,
        after_samples(v, samples).offset == v.offset,
        framer_wf(after_samples(v, samples)),
    decreases samples.len(),
{
    let s = v.stride as int;
    if samples.len() == 0 {
        vstd::arithmetic::div_mod::lemma_small_mod(v.phase, v.stride);
    } else {
        let prev = samples.drop_last();
        lemma_phase_advances(v, prev);
        let w = after_samples(v, prev);
        let n: int = (v.phase + prev.len()) as int;
        assert(w.phase == n % s);
        if s == 1 {
            assert((n + 1) % 1 == 0);
        } else {
            vstd::arithmetic::div_mod::lemma_small_mod(1, v.stride);
            vstd::arithmetic::div_mod::lemma_add_mod_noop(n, 1, s);
            if w.phase + 1 >= v.stride {
                vstd::arithmetic::div_mod::lemma_mod_self_0(s);
            } else {
                vstd::arithmetic::div_mod::lemma_small_mod((w.phase + 1) as nat, v.stride);
            }
        }
        assert(samples.drop_last() == prev);
    }
}

/// A frame holds exactly `FRAME_LEN` selected samples, in input order: the
/// frame completed by a sample is what was pending followed by that sample.
pub proof fn lemma_frames_are_full(v: FramerView, sample: u32)
    requires
        framer_wf(v),
    ensures
        completed_frame(v, sample) matches Some(f) ==> f.len() == FRAME_LEN && f.last() == sample
            && f.drop_last() == v.pending,
        completed_frame(v, sample) is Some ==> after_sample(v, sample).pending.len() == 0,
        completed_frame(v, sample) is None ==> after_sample(v, sample).pending == (if selects(v) {
            v.pending.push(sample)
        } else {
            v.pending
        }),
        framer_wf(after_sample(v, sample)),
{
    if completed_frame(v, sample) is Some {
        assert(v.pending.push(sample).drop_last() =~= v.pending);
    }
}

/// The frames that the samples `samples`, one after another, complete.
pub open spec fn frames_from(v: FramerView, samples: Seq<u32>) -> Seq<Seq<u32>>
    decreases samples.len(),
{
    if samples.len() == 0 {
        Seq::empty()
    } else {
        let prev = frames_from(v, samples.drop_last());
        match completed_frame(after_samples(v, samples.drop_last()), samples.last()) {
            Some(f) => prev.push(f),
            None => prev,
        }
    }
}

/// How many of the indices below `n` are at `offset` within their group of `stride`.
pub open spec fn selected_count(n: nat, stride: nat, offset: nat) -> nat
    decreases n,
{
    if n == 0 {
        0
    } else {
        selected_count((n - 1) as nat, stride, offset) + if (n - 1) as int % stride as int == offset {
            1nat
        } else {
            0nat
        }
    }
}

/// Two numbers less than `stride` apart with the same residue are equal.
proof fn lemma_same_residue(a: int, b: int, stride: int)
    requires
        stride >= 1,
        b <= a < b + stride,
        a % stride == b % stride,
    ensures
        a == b,
{
    vstd::arithmetic::div_mod::lemma_fundamental_div_mod(a, stride);
    vstd::arithmetic::div_mod::lemma_fundamental_div_mod(b, stride);
    let qa = a / stride;
    let qb = b / stride;
    assert(stride * qa - stride * qb == a - b);
    assert(stride * (qa - qb) == a - b) by (nonlinear_arith)
        requires
            stride * qa - stride * qb == a - b,
    ;
    assert(qa - qb == 0) by (nonlinear_arith)
        requires
            stride * (qa - qb) == a - b,
            0 <= a - b < stride,
            stride >= 1,
    ;
}

/// The next selected index at or after `n` is `offset + stride * count`,
/// where `count` is the number of selected indices below `n`.
pub proof fn lemma_selected_count(n: nat, stride: nat, offset: nat)
    requires
        stride >= 1,
        offset < stride,
    ensures
        n <= offset + stride * selected_count(n, stride, offset) < n + stride,
        (offset + stride * selected_count(n, stride, offset)) as int % (stride as int) == offset,
    decreases n,
{
    let c = selected_count(n, stride, offset);
    vstd::arithmetic::div_mod::lemma_mod_multiples_vanish(c as int, offset as int, stride as int);
    vstd::arithmetic::div_mod::lemma_small_mod(offset, stride);
    assert(stride * c + offset == offset + stride * c);
    if n == 0 {
        assert(c == 0);
        assert(stride * 0 == 0) by (nonlinear_arith);
    } else {
        let m = (n - 1) as nat;
        lemma_selected_count(m, stride, offset);
        let cm = selected_count(m, stride, offset);
        let x: int = (offset + stride * cm) as int;
        assert(m <= x < m + stride);
        if m as int % stride as int == offset {
            assert(c == cm + 1);
            assert(x % (stride as int) == m as int % (stride as int));
            lemma_same_residue(x, m as int, stride as int);
            assert(stride * (cm + 1) == stride * cm + stride) by (nonlinear_arith);
            assert(offset + stride * c == x + stride);
        } else {
            assert(c == cm);
            assert(x != m);
        }
    }
}

/// The `j`-th selected sample lies below `n` when fewer than `count` have been selected.
proof fn lemma_selected_in_range(offset: int, stride: int, j: int, c: int, n: int)
    requires
        stride >= 1,
        0 <= j < c,
        offset + stride * c < n + stride,
    ensures
        offset + stride * j < n,
{
    assert(stride * j <= stride * c - stride) by (nonlinear_arith)
        requires
            stride >= 1,
            0 <= j < c,
    ;
}

/// What a fresh assembler has collected after the samples `samples`: the
/// frames so far and the pending samples, each sample being the input
/// sample at `offset + stride * (its place among the selected ones)`.
pub open spec fn stream_invariant(v: FramerView, samples: Seq<u32>) -> bool {
    let st = v.stride as int;
    let o = v.offset as int;
    let c = selected_count(samples.len(), v.stride, v.offset) as int;
    let frames = frames_from(v, samples);
    let w = after_samples(v, samples);
    &&& frames.len() == c / (FRAME_LEN as int)
    &&& w.pending.len() == c % (FRAME_LEN as int)
    &&& forall|k: int|
        0 <= k < frames.len() ==> (#[trigger] frames[k]).len() == FRAME_LEN
    &&& forall|k: int, i: int|
        #![trigger frames[k][i]]
        0 <= k < frames.len() && 0 <= i < FRAME_LEN ==> frames[k][i] == samples[o + st * (k * FRAME_LEN + i)]
            && o + st * (k * FRAME_LEN + i) < samples.len()
    &&& forall|i: int|
        #![trigger w.pending[i]]
        0 <= i < w.pending.len() ==> w.pending[i] == samples[o + st * ((c / (FRAME_LEN as int)) * FRAME_LEN
            + i)] && o + st * ((c / (FRAME_LEN as int)) * FRAME_LEN + i) < samples.len()
}

proof fn lemma_stream_step(v: FramerView, samples: Seq<u32>, x: u32)
    requires
        framer_wf(v),
        v.phase == 0,
        v.pending.len() == 0,
        stream_invariant(v, samples),
    ensures
        stream_invariant(v, samples.push(x)),
{
    let s2 = samples.push(x);
    let n = samples.len();
    let st = v.stride as int;
    let o = v.offset as int;
    let f = FRAME_LEN as int;
    assert(s2.drop_last() =~= samples);
    assert(s2.last() == x);
    lemma_phase_advances(v, samples);
    lemma_selected_count(n, v.stride, v.offset);
    let c = selected_count(n, v.stride, v.offset) as int;
    let c2 = selected_count(s2.len(), v.stride, v.offset) as int;
    let w = after_samples(v, samples);
    let w2 = after_samples(v, s2);
    let frames = frames_from(v, samples);
    let frames2 = frames_from(v, s2);
    vstd::arithmetic::div_mod::lemma_small_mod(0, v.stride);
    assert(w.phase == n as int % st);
    assert(selects(w) <==> n as int % st == o);
    assert forall|j: int| 0 <= j < n implies s2[j] == samples[j] by {}
    if selects(w) {
        lemma_same_residue(o + st * c, n as int, st);
        assert(o + st * c == n);
        assert(c2 == c + 1);
        assert(s2[n as int] == x);
        if w.pending.len() + 1 == FRAME_LEN {
            let fr = w.pending.push(x);
            assert(frames2 == frames.push(fr));
            assert(c2 / f == c / f + 1);
            assert(c2 % f == 0);
            assert(w2.pending.len() == 0);
            assert forall|k: int, i: int|
                #![trigger frames2[k][i]]
                0 <= k < frames2.len() && 0 <= i < FRAME_LEN implies frames2[k][i] == s2[o + st * (k
                    * FRAME_LEN + i)] && o + st * (k * FRAME_LEN + i) < s2.len() by {
                let idx = o + st * (k * FRAME_LEN + i);
                if k < frames.len() {
                    assert(frames2[k] == frames[k]);
                    assert(0 <= k < frames.len() && 0 <= i < FRAME_LEN);
                    assert(frames_from(v, samples)[k][i] == samples[o + st * (k * FRAME_LEN + i)]);
                    assert(frames[k][i] == samples[idx] && idx < n);
                    assert(s2[idx] == samples[idx]);
                } else {
                    assert(k == c / f);
                    assert(frames2[k] == fr);
                    if i < w.pending.len() {
                        assert(fr[i] == w.pending[i]);
                        assert(w.pending[i] == samples[o + st * ((c / f) * FRAME_LEN + i)]);
                        assert(idx < n);
                        assert(s2[idx] == samples[idx]);
                    } else {
                        assert(i == c % f);
                        assert(k * FRAME_LEN + i == c);
                        assert(idx == n);
                        assert(fr[i] == x);
                    }
                }
            }
            assert forall|k: int| 0 <= k < frames2.len() implies (#[trigger] frames2[k]).len() == FRAME_LEN by {
                if k < frames.len() {
                    assert(frames2[k] == frames[k]);
                }
            }
        } else {
            assert(frames2 == frames);
            assert(w2.pending == w.pending.push(x));
            assert(c2 / f == c / f);
            assert(c2 % f == c % f + 1);
            assert forall|k: int, i: int|
                #![trigger frames2[k][i]]
                0 <= k < frames2.len() && 0 <= i < FRAME_LEN implies frames2[k][i] == s2[o + st * (k
                    * FRAME_LEN + i)] && o + st * (k * FRAME_LEN + i) < s2.len() by {
                let idx = o + st * (k * FRAME_LEN + i);
                assert(frames[k][i] == samples[idx] && idx < n);
                assert(s2[idx] == samples[idx]);
            }
            assert forall|i: int|
                #![trigger w2.pending[i]]
                0 <= i < w2.pending.len() implies w2.pending[i] == s2[o + st * ((c2 / f) * FRAME_LEN + i)]
                    && o + st * ((c2 / f) * FRAME_LEN + i) < s2.len() by {
                let idx = o + st * ((c2 / f) * FRAME_LEN + i);
                if i < w.pending.len() {
                    assert(w2.pending[i] == w.pending[i]);
                    assert(w.pending[i] == samples[idx] && idx < n);
                    assert(s2[idx] == samples[idx]);
                } else {
                    assert((c2 / f) * FRAME_LEN + i == c);
                    assert(idx == n);
                }
            }
        }
    } else {
        assert(c2 == c);
        assert(frames2 == frames);
        assert(w2.pending == w.pending);
        assert forall|k: int, i: int|
            #![trigger frames2[k][i]]
            0 <= k < frames2.len() && 0 <= i < FRAME_LEN implies frames2[k][i] == s2[o + st * (k * FRAME_LEN
                + i)] && o + st * (k * FRAME_LEN + i) < s2.len() by {
            let idx = o + st * (k * FRAME_LEN + i);
            assert(frames[k][i] == samples[idx] && idx < n);
            assert(s2[idx] == samples[idx]);
        }
        assert forall|i: int|
            #![trigger w2.pending[i]]
            0 <= i < w2.pending.len() implies w2.pending[i] == s2[o + st * ((c2 / f) * FRAME_LEN + i)] && o
                + st * ((c2 / f) * FRAME_LEN + i) < s2.len() by {
            let idx = o + st * ((c / f) * FRAME_LEN + i);
            assert(w2.pending[i] == w.pending[i]);
            assert(0 <= i < w.pending.len());
            assert(after_samples(v, samples).pending[i] == samples[o + st * ((c / (FRAME_LEN as int)) * FRAME_LEN + i)]);
            assert(w.pending[i] == samples[idx] && idx < n);
            assert(s2[idx] == samples[idx]);
        }
    }
    assert(frames2.len() == c2 / f);
    assert(w2.pending.len() == c2 % f);
}

/// The whole input stream: starting from an empty assembler, frame `k`
/// holds, at place `i`, the input sample at index
/// `offset + stride * (k * FRAME_LEN + i)`; every frame is full; and the
/// frames and the pending samples together are all the selected samples.
pub proof fn lemma_frame_stream(v: FramerView, samples: Seq<u32>)
    requires
        framer_wf(v),
        v.phase == 0,
        v.pending.len() == 0,
    ensures
        stream_invariant(v, samples),
        frames_from(v, samples).len() * FRAME_LEN + after_samples(v, samples).pending.len() == selected_count(
            samples.len(),
            v.stride,
            v.offset,
        ),
        forall|k: int, i: int|
            #![trigger frames_from(v, samples)[k][i]]
            0 <= k < frames_from(v, samples).len() && 0 <= i < FRAME_LEN ==> frames_from(v, samples)[k][i]
                == samples[v.offset + v.stride * (k * FRAME_LEN + i)],
    decreases samples.len(),
{
    if samples.len() == 0 {
        assert(selected_count(0, v.stride, v.offset) == 0);
    } else {
        let prev = samples.drop_last();
        lemma_frame_stream(v, prev);
        lemma_stream_step(v, prev, samples.last());
        assert(prev.push(samples.last()) =~= samples);
    }
    let frames = frames_from(v, samples);
    assert forall|k: int, i: int|
        #![trigger frames[k][i]]
        0 <= k < frames.len() && 0 <= i < FRAME_LEN implies frames[k][i] == samples[v.offset + v.stride * (k
            * FRAME_LEN + i)] by {}
}

} // verus!
