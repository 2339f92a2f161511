//! Overlap-add processing in the frequency domain.
//!
//! The engine slides a window of `fft_length` samples over the input in steps
//! of `fft_length / oversample`. Each pass multiplies the window's samples by
//! an analysis window, hands the frame to a transform (forward transform,
//! whatever is done to the spectrum, inverse transform), multiplies what
//! comes back by the same window, adds it to an accumulator, emits the first
//! step of the accumulator and shifts the rest forward. A sample therefore
//! leaves the engine `fft_length - step` samples after it entered.
use crate::effects::{silence, zeros};
use crate::ring::{extended, extended_len, RingBuffer};
use crate::sample::Sample;
use vstd::prelude::*;

verus! {

/// How many overlapping windows cover each sample.
pub const OVERSAMPLE: usize = 4;

/// What an engine is, mathematically.
pub struct SpectralModel<S> {
    /// Scales the input before the transform.
    pub in_gain: S,
    /// The analysis window, one weight per sample of a frame.
    pub window: Seq<S>,
    /// The latest `fft_length` input samples, oldest first.
    pub input: Seq<S>,
    /// Output accumulated so far, twice a frame long; only the first frame's
    /// worth is ever written.
    pub accum: Seq<S>,
}

/// The state of a spectral engine between passes.
#[derive(Debug)]
pub struct SpectralEngine<S> {
    oversample: usize,
    in_gain: S,
    fft_length: usize,
    input: Vec<S>,
    window: Vec<S>,
    output_accum: Vec<S>,
}

impl<S: Sample> View for SpectralEngine<S> {
    type V = SpectralModel<S>;

    closed spec fn view(&self) -> SpectralModel<S> {
        SpectralModel {
            in_gain: self.in_gain,
            window: self.window@,
            input: self.input@,
            accum: self.output_accum@,
        }
    }
}

/// A frame holds at least one step, the input window is one frame long and
/// the accumulator two.
pub open spec fn spectral_wf<S: Sample>(m: SpectralModel<S>) -> bool {
    &&& m.window.len() >= OVERSAMPLE
    &&& m.input.len() == m.window.len()
    &&& m.accum.len() == 2 * m.window.len()
}

/// The number of samples by which the window advances in a pass.
pub open spec fn step_of<S: Sample>(m: SpectralModel<S>) -> int {
    m.window.len() as int / OVERSAMPLE as int
}

/// The number of samples by which the output trails the input.
pub open spec fn latency_of<S: Sample>(m: SpectralModel<S>) -> int {
    m.window.len() - step_of(m)
}

/// A new engine with the given analysis window.
pub open spec fn spectral_new<S: Sample>(window: Seq<S>) -> SpectralModel<S> {
    SpectralModel {
        in_gain: S::one_spec(),
        window,
        input: silence::<S>(window.len()),
        accum: silence::<S>(2 * window.len()),
    }
}

/// The frame handed to the transform: each sample of the input window times
/// its window weight times the input gain.
pub open spec fn windowed_frame<S: Sample>(m: SpectralModel<S>) -> Seq<S> {
    Seq::new(m.input.len(), |i: int| m.input[i].times_spec(m.window[i]).times_spec(m.in_gain))
}

/// The engine after a step of new samples has been placed at the end of its
/// input window.
pub open spec fn spectral_loaded<S: Sample>(m: SpectralModel<S>, step: Seq<S>) -> SpectralModel<S> {
    SpectralModel { input: m.input.take(latency_of(m)) + step, ..m }
}

/// The accumulator with a transformed frame added: each sample of the frame
/// times its window weight, divided by the frame's length.
pub open spec fn overlapped<S: Sample>(m: SpectralModel<S>, frame: Seq<S>) -> Seq<S> {
    Seq::new(
        m.accum.len(),
        |i: int|
            if i < m.window.len() {
                m.accum[i].plus_spec(
                    frame[i].times_spec(m.window[i]).over_spec(
                        S::from_count_spec(m.window.len() as usize),
                    ),
                )
            } else {
                m.accum[i]
            },
    )
}

/// `s` with its first `upto` places taken by what stood `by` places later.
pub open spec fn shifted<S>(s: Seq<S>, by: int, upto: int) -> Seq<S> {
    Seq::new(
        s.len(),
        |i: int|
            if i < upto {
                s[i + by]
            } else {
                s[i]
            },
    )
}

/// The engine after a pass has been completed with `frame`.
pub open spec fn spectral_emitted<S: Sample>(
    m: SpectralModel<S>,
    frame: Seq<S>,
) -> SpectralModel<S> {
    SpectralModel {
        accum: shifted(overlapped(m, frame), step_of(m), m.window.len() as int),
        input: shifted(m.input, step_of(m), latency_of(m)),
        ..m
    }
}

/// The length of a queue of `len` samples and room for `capacity` after
/// `more` samples have been pushed: a full queue stays full.
pub open spec fn grown(len: nat, capacity: nat, more: int) -> int {
    if len + more <= capacity {
        len + more
    } else {
        capacity as int
    }
}

/// The samples that a pass completed with `frame` emits.
pub open spec fn emitted_step<S: Sample>(m: SpectralModel<S>, frame: Seq<S>) -> Seq<S> {
    overlapped(m, frame).take(step_of(m))
}

/// Step number `k` of a queue that is read in steps of `step` samples.
pub open spec fn step_at<S>(queue: Seq<S>, step: int, k: int) -> Seq<S> {
    queue.subrange(k * step, (k + 1) * step)
}

/// The engine and the output queue after one pass for each frame of `backs`:
/// pass `k` loads step `k` of `input` and is completed with `backs[k]`.
pub open spec fn after_passes<S: Sample>(
    m: SpectralModel<S>,
    input: Seq<S>,
    output: Seq<S>,
    capacity: nat,
    backs: Seq<Seq<S>>,
) -> (SpectralModel<S>, Seq<S>)
    decreases backs.len(),
{
    if backs.len() == 0 {
        (m, output)
    } else {
        let before = after_passes(m, input, output, capacity, backs.drop_last());
        let loaded = spectral_loaded(before.0, step_at(input, step_of(m), backs.len() - 1));
        (
            spectral_emitted(loaded, backs.last()),
            extended(before.1, capacity, emitted_step(loaded, backs.last())),
        )
    }
}

/// The frame that pass `k` hands to the transform.
pub open spec fn frame_of_pass<S: Sample>(
    m: SpectralModel<S>,
    input: Seq<S>,
    output: Seq<S>,
    capacity: nat,
    backs: Seq<Seq<S>>,
    k: int,
) -> Seq<S> {
    windowed_frame(
        spectral_loaded(
            after_passes(m, input, output, capacity, backs.take(k)).0,
            step_at(input, step_of(m), k),
        ),
    )
}

/// Whether `transform`, handed `frame`, may have returned `back`.
pub open spec fn came_back<S, F: Fn(Vec<S>, bool) -> Vec<S>>(
    transform: &F,
    report: bool,
    frame: Seq<S>,
    back: Seq<S>,
) -> bool {
    exists|f: Vec<S>, b: Vec<S>|
        f@ == frame && b@ == back && #[trigger] call_ensures(transform, (f, report), b)
}

/// Whether `transform` returns frames as long as those it is handed.
pub open spec fn keeps_length<S, F: Fn(Vec<S>, bool) -> Vec<S>>(
    transform: &F,
    report: bool,
) -> bool {
    forall|f: Vec<S>, b: Vec<S>| #[trigger]
        call_ensures(transform, (f, report), b) ==> b@.len() == f@.len()
}

/// Whether every frame of `backs` is a frame's length long and is what the
/// transform returned for the frame of its pass.
pub open spec fn frames_came_back<S: Sample, F: Fn(Vec<S>, bool) -> Vec<S>>(
    m: SpectralModel<S>,
    input: Seq<S>,
    output: Seq<S>,
    capacity: nat,
    transform: &F,
    report: bool,
    backs: Seq<Seq<S>>,
) -> bool {
    forall|k: int|
        0 <= k < backs.len() ==> (#[trigger] backs[k]).len() == m.window.len() && came_back(
            transform,
            report,
            frame_of_pass(m, input, output, capacity, backs, k),
            backs[k],
        )
}

/// What `process` has done when it returns `(taken, complete)`, in terms of
/// the frames `backs` that came back from the transform and were used: each
/// is a frame's length long and is what the transform returned for the frame
/// of its pass; the output queue is as those passes leave it; and so is the
/// engine, except that where the last step taken was not completed its
/// samples stand loaded in the input window.
pub open spec fn passes_ran<S: Sample, F: Fn(Vec<S>, bool) -> Vec<S>>(
    m: SpectralModel<S>,
    input: Seq<S>,
    output: Seq<S>,
    capacity: nat,
    transform: &F,
    report: bool,
    backs: Seq<Seq<S>>,
    taken: int,
    complete: bool,
    engine_after: SpectralModel<S>,
    output_after: Seq<S>,
) -> bool {
    let done = after_passes(m, input, output, capacity, backs);
    &&& backs.len() == if complete {
        taken
    } else {
        taken - 1
    }
    &&& frames_came_back(m, input, output, capacity, transform, report, backs)
    &&& output_after == done.1
    &&& engine_after == if complete {
        done.0
    } else {
        spectral_loaded(done.0, step_at(input, step_of(m), backs.len() as int))
    }
}

/// What `process` has done when it returns `(taken, complete)`: there are
/// frames that came back from the transform such that [`passes_ran`] holds
/// of them.
pub open spec fn ran<S: Sample, F: Fn(Vec<S>, bool) -> Vec<S>>(
    m: SpectralModel<S>,
    input: Seq<S>,
    output: Seq<S>,
    capacity: nat,
    transform: &F,
    report: bool,
    taken: int,
    complete: bool,
    engine_after: SpectralModel<S>,
    output_after: Seq<S>,
) -> bool {
    exists|backs: Seq<Seq<S>>|
        passes_ran(
            m,
            input,
            output,
            capacity,
            transform,
            report,
            backs,
            taken,
            complete,
            engine_after,
            output_after,
        )
}

/// The frames that came back bear witness to what was done.
pub proof fn ran_with<S: Sample, F: Fn(Vec<S>, bool) -> Vec<S>>(
    m: SpectralModel<S>,
    input: Seq<S>,
    output: Seq<S>,
    capacity: nat,
    transform: &F,
    report: bool,
    backs: Seq<Seq<S>>,
    taken: int,
    complete: bool,
    engine_after: SpectralModel<S>,
    output_after: Seq<S>,
)
    requires
        passes_ran(
            m,
            input,
            output,
            capacity,
            transform,
            report,
            backs,
            taken,
            complete,
            engine_after,
            output_after,
        ),
    ensures
        ran(
            m,
            input,
            output,
            capacity,
            transform,
            report,
            taken,
            complete,
            engine_after,
            output_after,
        ),
{
}

/// One more pass: the frames that came back stay what they were for, and the
/// new frame is the last.
pub proof fn pass_completed<S: Sample, F: Fn(Vec<S>, bool) -> Vec<S>>(
    m: SpectralModel<S>,
    input: Seq<S>,
    output: Seq<S>,
    capacity: nat,
    transform: &F,
    report: bool,
    backs: Seq<Seq<S>>,
    back: Seq<S>,
)
    requires
        frames_came_back(m, input, output, capacity, transform, report, backs),
        back.len() == m.window.len(),
        came_back(
            transform,
            report,
            frame_of_pass(m, input, output, capacity, backs, backs.len() as int),
            back,
        ),
    ensures
        frames_came_back(m, input, output, capacity, transform, report, backs.push(back)),
        after_passes(m, input, output, capacity, backs.push(back)) == ({
            let before = after_passes(m, input, output, capacity, backs);
            let loaded = spectral_loaded(before.0, step_at(input, step_of(m), backs.len() as int));
            (
                spectral_emitted(loaded, back),
                extended(before.1, capacity, emitted_step(loaded, back)),
            )
        }),
{
    let longer = backs.push(back);
    assert(longer.drop_last() =~= backs);
    assert forall|k: int| 0 <= k < longer.len() implies (#[trigger] longer[k]).len()
        == m.window.len() && came_back(
        transform,
        report,
        frame_of_pass(m, input, output, capacity, longer, k),
        longer[k],
    ) by {
        if k < backs.len() {
            assert(longer.take(k) =~= backs.take(k));
            assert(longer[k] == backs[k]);
        } else {
            assert(longer.take(k) =~= backs);
            assert(backs.take(backs.len() as int) =~= backs);
        }
    }
}

/// A frame that came back with another length shows that the transform does
/// not keep the length of its frames.
pub proof fn wrong_length<S, F: Fn(Vec<S>, bool) -> Vec<S>>(
    transform: &F,
    report: bool,
    frame: Vec<S>,
    back: Vec<S>,
)
    requires
        call_ensures(transform, (frame, report), back),
        back@.len() != frame@.len(),
    ensures
        !keeps_length(transform, report),
{
}

/// What the transform returned for a frame came back for it.
pub proof fn returned<S, F: Fn(Vec<S>, bool) -> Vec<S>>(
    transform: &F,
    report: bool,
    frame: Vec<S>,
    back: Vec<S>,
)
    requires
        call_ensures(transform, (frame, report), back),
    ensures
        came_back(transform, report, frame@, back@),
{
}

impl<S: Sample> SpectralEngine<S> {
    /// An engine for frames as long as `window`, with unit input gain and
    /// silence in its buffers. There is none for a window shorter than the
    /// oversampling factor, whose step would be empty, nor for one that two
    /// frames of which would not fit in memory.
    pub fn new(window: Vec<S>) -> (r: Option<Self>)
        ensures
            r.is_some() == (OVERSAMPLE <= window@.len() <= usize::MAX / 2),
            r.is_some() ==> r.unwrap()@ == spectral_new(window@) && r.unwrap().wf(),
    {
        let fft_length = window.len();
        if fft_length < OVERSAMPLE || fft_length > usize::MAX / 2 {
            return None;
        }
        Some(
            SpectralEngine {
                oversample: OVERSAMPLE,
                in_gain: S::one(),
                fft_length,
                input: zeros(fft_length),
                window,
                output_accum: zeros(2 * fft_length),
            },
        )
    }

    /// The engine's buffers have the lengths its window calls for.
    pub closed spec fn wf(&self) -> bool {
        &&& spectral_wf(self@)
        &&& self.oversample == OVERSAMPLE
        &&& self.fft_length == self.window@.len()
    }

    /// The length of a frame.
    pub fn fft_length(&self) -> (r: usize)
        requires
            self.wf(),
        ensures
            r == self@.window.len(),
    {
        self.fft_length
    }

    /// The number of samples consumed and produced by a pass.
    pub fn step_size(&self) -> (r: usize)
        requires
            self.wf(),
        ensures
            r == step_of(self@),
            1 <= r <= self@.window.len(),
    {
        self.fft_length / self.oversample
    }

    /// The number of samples by which the output trails the input.
    pub fn latency(&self) -> (r: usize)
        requires
            self.wf(),
        ensures
            r == latency_of(self@),
            r + step_of(self@) == self@.window.len(),
    {
        self.fft_length - self.step_size()
    }

    /// Sets the gain applied to the input before the transform.
    pub fn set_in_gain(&mut self, gain: S)
        requires
            old(self).wf(),
        ensures
            final(self).wf(),
            final(self)@ == (SpectralModel { in_gain: gain, ..old(self)@ }),
    {
        self.in_gain = gain;
    }

    /// Starts a pass, provided the queue holds a step's worth of samples:
    /// moves them from the queue to the end of the input window and returns
    /// the frame to transform. Otherwise changes nothing.
    pub fn load(&mut self, input_rb: &mut RingBuffer<S>) -> (r: Option<Vec<S>>)
        requires
            old(self).wf(),
            old(input_rb).wf(),
        ensures
            final(self).wf(),
            final(input_rb).wf(),
            final(input_rb).capacity() == old(input_rb).capacity(),
            r.is_some() == (old(input_rb)@.len() >= step_of(old(self)@)),
            r.is_some() ==> {
                let step = old(input_rb)@.take(step_of(old(self)@));
                &&& final(self)@ == spectral_loaded(old(self)@, step)
                &&& final(input_rb)@ == old(input_rb)@.skip(step_of(old(self)@))
                &&& r.unwrap()@ == windowed_frame(final(self)@)
            },
            r.is_none() ==> final(self)@ == old(self)@ && final(input_rb)@ == old(input_rb)@,
    {
        let step = self.step_size();
        let latency = self.latency();
        if input_rb.len() < step {
            return None;
        }
        let mut i: usize = 0;
        while i < step
            invariant
                i <= step,
                step == step_of(old(self)@),
                latency == latency_of(old(self)@),
                latency + step == self.fft_length,
                step <= old(input_rb)@.len(),
                self.wf(),
                self.in_gain == old(self).in_gain,
                self.window@ == old(self).window@,
                self.output_accum@ == old(self).output_accum@,
                input_rb.wf(),
                input_rb.capacity() == old(input_rb).capacity(),
                input_rb@ == old(input_rb)@.skip(i as int),
                forall|j: int| 0 <= j < latency ==> self.input@[j] == old(self).input@[j],
                forall|j: int| 0 <= j < i ==> self.input@[latency + j] == old(input_rb)@[j],
            decreases step - i,
        {
            let front = input_rb.pop();
            match front {
                Some(v) => {
                    self.input[latency + i] = v;
                },
                None => {},
            }
            assert(old(input_rb)@.skip(i as int).drop_first() =~= old(input_rb)@.skip(i + 1));
            i += 1;
        }
        assert(self.input@ =~= old(self).input@.take(latency as int) + old(input_rb)@.take(
            step as int,
        ));
        Some(self.windowed())
    }

    /// The input window, weighted and scaled.
    fn windowed(&self) -> (r: Vec<S>)
        requires
            self.wf(),
        ensures
            r@ == windowed_frame(self@),
    {
        let n = self.fft_length;
        let mut frame: Vec<S> = Vec::with_capacity(n);
        let mut i: usize = 0;
        while i < n
            invariant
                i <= n,
                self.wf(),
                n == self.fft_length,
                frame@.len() == i,
                forall|j: int| 0 <= j < i ==> frame@[j] == windowed_frame(self@)[j],
            decreases n - i,
        {
            frame.push(self.input[i].times(self.window[i]).times(self.in_gain));
            i += 1;
        }
        assert(frame@ =~= windowed_frame(self@));
        frame
    }

    /// Completes a pass with the transformed frame: weights it, adds it to
    /// the accumulator, pushes the first step of the accumulator to the
    /// output queue, and moves accumulator and input window forward by a
    /// step.
    pub fn emit(&mut self, frame: &[S], output_rb: &mut RingBuffer<S>)
        requires
            old(self).wf(),
            old(output_rb).wf(),
            frame@.len() == old(self)@.window.len(),
        ensures
            final(self).wf(),
            final(output_rb).wf(),
            final(output_rb).capacity() == old(output_rb).capacity(),
            final(self)@ == spectral_emitted(old(self)@, frame@),
            final(output_rb)@ == extended(
                old(output_rb)@,
                old(output_rb).capacity(),
                emitted_step(old(self)@, frame@),
            ),
    {
        let n = self.fft_length;
        let step = self.step_size();
        let latency = self.latency();
        let ghost m = self@;
        let scale = S::from_count(n);

        // window and normalise the frame into the accumulator
        let mut i: usize = 0;
        while i < n
            invariant
                i <= n,
                n == m.window.len(),
                spectral_wf(m),
                scale == S::from_count_spec(n),
                frame@.len() == n,
                self.wf(),
                self.in_gain == m.in_gain,
                self.window@ == m.window,
                self.input@ == m.input,
                self.output_accum@.len() == 2 * n,
                forall|j: int| 0 <= j < i ==> self.output_accum@[j] == overlapped(m, frame@)[j],
                forall|j: int| i <= j < 2 * n ==> self.output_accum@[j] == m.accum[j],
            decreases n - i,
        {
            let v = self.output_accum[i].plus(frame[i].times(self.window[i]).over(scale));
            self.output_accum[i] = v;
            i += 1;
        }
        assert(self.output_accum@ =~= overlapped(m, frame@));

        // write out the finished step
        let mut i: usize = 0;
        while i < step
            invariant
                i <= step,
                step == step_of(m),
                step <= n,
                n == m.window.len(),
                self.wf(),
                self.in_gain == m.in_gain,
                self.window@ == m.window,
                self.input@ == m.input,
                self.output_accum@ == overlapped(m, frame@),
                output_rb.wf(),
                output_rb.capacity() == old(output_rb).capacity(),
                output_rb@ == extended(
                    old(output_rb)@,
                    old(output_rb).capacity(),
                    overlapped(m, frame@).take(i as int),
                ),
            decreases step - i,
        {
            output_rb.push(self.output_accum[i]);
            assert(overlapped(m, frame@).take(i + 1).drop_last() =~= overlapped(m, frame@).take(
                i as int,
            ));
            i += 1;
        }

        // move the buffers forward by a step
        let total = self.output_accum.len();
        assert(total == 2 * n);
        let mut i: usize = 0;
        while i < n
            invariant
                i <= n,
                step == step_of(m),
                1 <= step <= n,
                n == m.window.len(),
                n == self.fft_length,
                self.oversample == OVERSAMPLE,
                self.in_gain == m.in_gain,
                self.window@ == m.window,
                self.input@ == m.input,
                spectral_wf(m),
                self.output_accum@.len() == 2 * n,
                2 * n <= usize::MAX,
                forall|j: int|
                    0 <= j < i ==> self.output_accum@[j] == overlapped(m, frame@)[j + step],
                forall|j: int| i <= j < 2 * n ==> self.output_accum@[j] == overlapped(m, frame@)[j],
            decreases n - i,
        {
            let v = self.output_accum[i + step];
            self.output_accum[i] = v;
            i += 1;
        }
        assert(self.output_accum@ =~= shifted(overlapped(m, frame@), step as int, n as int));
        let mut i: usize = 0;
        while i < latency
            invariant
                i <= latency,
                step == step_of(m),
                latency + step == n,
                n == m.window.len(),
                n == self.fft_length,
                self.oversample == OVERSAMPLE,
                self.in_gain == m.in_gain,
                self.window@ == m.window,
                spectral_wf(m),
                self.output_accum@ == shifted(overlapped(m, frame@), step as int, n as int),
                self.input@.len() == n,
                forall|j: int| 0 <= j < i ==> self.input@[j] == m.input[j + step],
                forall|j: int| i <= j < n ==> self.input@[j] == m.input[j],
            decreases latency - i,
        {
            let v = self.input[i + step];
            self.input[i] = v;
            i += 1;
        }
        assert(self.input@ =~= shifted(m.input, step as int, latency as int));
    }

    /// Runs passes for as long as the input queue holds a step's worth of
    /// samples. Each frame goes through `transform`, which is told whether to
    /// publish the spectra it sees. A frame that comes back with another
    /// length than it went out with cannot be used: the engine stops there
    /// and reports it.
    ///
    /// Returns the number of steps taken from the input queue, and whether
    /// every one of them was completed. That is the case whenever the
    /// transform keeps the length of its frames, and then the passes are as
    /// many as the queue held whole steps. With less than a step queued,
    /// nothing is taken and nothing changes.
    #[verifier::rlimit(100)]
    pub fn process<F: Fn(Vec<S>, bool) -> Vec<S>>(
        &mut self,
        input_rb: &mut RingBuffer<S>,
        output_rb: &mut RingBuffer<S>,
        report_spectra: bool,
        transform: &F,
    ) -> (r: (usize, bool))
        requires
            old(self).wf(),
            old(input_rb).wf(),
            old(output_rb).wf(),
            forall|frame: Vec<S>, report: bool| call_requires(transform, (frame, report)),
        ensures
            final(self).wf(),
            final(input_rb).wf(),
            final(output_rb).wf(),
            final(input_rb).capacity() == old(input_rb).capacity(),
            final(output_rb).capacity() == old(output_rb).capacity(),
            final(self)@.window == old(self)@.window,
            final(self)@.in_gain == old(self)@.in_gain,
            final(input_rb)@ == old(input_rb)@.skip(r.0 * step_of(old(self)@)),
            r.0 * step_of(old(self)@) <= old(input_rb)@.len(),
            keeps_length(transform, report_spectra) ==> r.1,
            r.1 ==> r.0 == old(input_rb)@.len() / (step_of(old(self)@) as nat),
            r.1 ==> final(input_rb)@.len() == old(input_rb)@.len() % (step_of(old(self)@) as nat),
            !r.1 ==> r.0 >= 1,
            r.0 == 0 ==> final(self)@ == old(self)@ && final(output_rb)@ == old(output_rb)@,
            ran(
                old(self)@,
                old(input_rb)@,
                old(output_rb)@,
                old(output_rb).capacity(),
                transform,
                report_spectra,
                r.0 as int,
                r.1,
                final(self)@,
                final(output_rb)@,
            ),
            final(output_rb)@.len() == grown(
                old(output_rb)@.len(),
                old(output_rb).capacity(),
                if r.1 {
                    r.0 * step_of(old(self)@)
                } else {
                    (r.0 - 1) * step_of(old(self)@)
                },
            ),
    {
        let ghost step = step_of(self@);
        let ghost m0 = self@;
        let ghost in0 = input_rb@;
        let ghost out0 = output_rb@;
        let ghost cap = output_rb.capacity();
        let ghost mut backs: Seq<Seq<S>> = Seq::empty();
        let mut taken: usize = 0;
        assert(old(input_rb)@.skip(0) =~= old(input_rb)@);
        proof {
            input_rb.bounded();
            output_rb.bounded();
        }
        loop
            invariant
                self.wf(),
                input_rb.wf(),
                output_rb.wf(),
                input_rb.capacity() == old(input_rb).capacity(),
                output_rb.capacity() == cap,
                cap == old(output_rb).capacity(),
                m0 == old(self)@,
                in0 == old(input_rb)@,
                out0 == old(output_rb)@,
                self@.window == m0.window,
                self@.in_gain == m0.in_gain,
                step == step_of(m0),
                step >= 1,
                taken * step <= in0.len(),
                in0.len() <= usize::MAX,
                input_rb@ == in0.skip(taken * step),
                output_rb@.len() == grown(out0.len(), cap, taken * step),
                backs.len() == taken,
                (self@, output_rb@) == after_passes(m0, in0, out0, cap, backs),
                frames_came_back(m0, in0, out0, cap, transform, report_spectra, backs),
                forall|frame: Vec<S>, report: bool| call_requires(transform, (frame, report)),
            decreases input_rb@.len(),
        {
            proof {
                self.step_bounds();
            }
            let ghost engine_before = self@;
            let loaded = self.load(input_rb);
            match loaded {
                None => {
                    proof {
                        let left = in0.len() - taken * step;
                        vstd::arithmetic::div_mod::lemma_fundamental_div_mod_converse(
                            in0.len() as int,
                            step,
                            taken as int,
                            left,
                        );
                        ran_with(
                            m0,
                            in0,
                            out0,
                            cap,
                            transform,
                            report_spectra,
                            backs,
                            taken as int,
                            true,
                            self@,
                            output_rb@,
                        );
                    }
                    return (taken, true);
                },
                Some(frame) => {
                    let ghost handed = frame;
                    proof {
                        assert(in0.skip(taken * step).skip(step) =~= in0.skip((taken + 1) * step))
                            by {
                            assert((taken + 1) * step == taken * step + step) by (nonlinear_arith);
                        }
                        assert((taken + 1) * step <= in0.len()) by {
                            assert((taken + 1) * step == taken * step + step) by (nonlinear_arith);
                        }
                        assert(taken + 1 <= in0.len()) by (nonlinear_arith)
                            requires
                                (taken + 1) * step <= in0.len(),
                                step >= 1,
                        ;
                        assert(in0.skip(taken * step).take(step) =~= step_at(
                            in0,
                            step,
                            taken as int,
                        )) by {
                            assert((taken + 1) * step == taken * step + step) by (nonlinear_arith);
                        }
                        assert(self@ == spectral_loaded(
                            engine_before,
                            step_at(in0, step, taken as int),
                        ));
                        assert(backs.take(taken as int) =~= backs);
                        assert(handed@ == frame_of_pass(m0, in0, out0, cap, backs, taken as int));
                        assert(after_passes(m0, in0, out0, cap, backs).0 == engine_before);
                    }
                    taken += 1;
                    let back = transform(frame, report_spectra);
                    if back.len() != self.fft_length {
                        proof {
                            wrong_length(transform, report_spectra, handed, back);
                            ran_with(
                            m0,
                            in0,
                            out0,
                            cap,
                            transform,
                            report_spectra,
                            backs,
                            taken as int,
                            false,
                            self@,
                            output_rb@,
                        );
                        }
                        return (taken, false);
                    }
                    let ghost queued = output_rb@;
                    let ghost engine = self@;
                    self.emit(back.as_slice(), output_rb);
                    proof {
                        output_rb.bounded();
                        extended_len(queued, output_rb.capacity(), emitted_step(engine, back@));
                        assert(taken * step == (taken - 1) * step + step) by (nonlinear_arith);
                        assert(step_of(engine) == step);
                        returned(transform, report_spectra, handed, back);
                        pass_completed(m0, in0, out0, cap, transform, report_spectra, backs, back@);
                        backs = backs.push(back@);
                    }
                },
            }
        }
    }

    /// A step is at least one sample.
    proof fn step_bounds(&self)
        requires
            self.wf(),
        ensures
            1 <= step_of(self@) <= self@.window.len(),
    {
    }
}

} // verus!
