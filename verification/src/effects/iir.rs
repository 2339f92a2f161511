//! Infinite impulse response filters.
//!
//! An output sample is made of the current input, a number of previous inputs
//! and the same number of previous outputs. A block is processed strictly from
//! left to right: a sample's output is finished before its contributions to
//! later samples are accumulated, since those contributions depend on it.
//! Contributions that fall past the end of the block are carried into the
//! next one.
use crate::effects::fir::{joined, joined_len};
use crate::effects::{copy_of, scaled, silence, zeros, Effect};
use crate::sample::{Exact, Sample};
use vstd::prelude::*;

verus! {

/// What a recursive filter is, mathematically.
pub struct IirModel<S> {
    /// Weights of the inputs, the current one first. In use.
    pub feed: Seq<S>,
    /// Weights of the inputs as the filter was made.
    pub feed_original: Seq<S>,
    /// Weights of the previous outputs, the latest first. In use.
    pub back: Seq<S>,
    /// Weights of the previous outputs as the filter was made.
    pub back_original: Seq<S>,
    /// What past blocks contribute to the start of the next one.
    pub carry: Seq<S>,
    /// The gain last set.
    pub gain: S,
}

/// A recursive filter with its inter-block state.
#[derive(Debug, Clone)]
pub struct IIRFilter<S> {
    in_weights: Vec<S>,
    in_weights_original: Vec<S>,
    out_weights: Vec<S>,
    out_weights_original: Vec<S>,
    buffer: Vec<S>,
    output_buffer: Vec<S>,
    gain: S,
}

impl<S: Sample> View for IIRFilter<S> {
    type V = IirModel<S>;

    closed spec fn view(&self) -> IirModel<S> {
        IirModel {
            feed: self.in_weights@,
            feed_original: self.in_weights_original@,
            back: self.out_weights@,
            back_original: self.out_weights_original@,
            carry: self.buffer@,
            gain: self.gain,
        }
    }
}

/// There is one more input weight than output weights, and the carry has one
/// slot for each output weight.
pub open spec fn iir_wf<S: Sample>(m: IirModel<S>) -> bool {
    &&& m.feed.len() == m.back.len() + 1
    &&& m.feed_original.len() == m.feed.len()
    &&& m.back_original.len() == m.back.len()
    &&& m.carry.len() == m.back.len()
}

/// What position `at` of a block starts from: zero, plus the carry where the
/// carry reaches.
pub open spec fn iir_start<S: Sample>(m: IirModel<S>, at: int) -> S {
    if at < m.carry.len() {
        S::zero_spec().plus_spec(m.carry[at])
    } else {
        S::zero_spec()
    }
}

/// `init` plus, from left to right, what each of the first `upto` samples of
/// the block contributes to position `at`: sample `i`, with `tap = at - i`,
/// contributes `input[i] * feed[tap] + value(i) * back[tap - 1]` where those
/// weights exist.
pub open spec fn iir_acc<S: Sample>(m: IirModel<S>, input: Seq<S>, at: int, upto: int, init: S) -> S
    decreases upto, 0int,
{
    if upto <= 0 {
        init
    } else {
        let before = iir_acc(m, input, at, upto - 1, init);
        let tap = at - (upto - 1);
        if 1 <= tap < m.feed.len() {
            before.plus_spec(
                input[upto - 1].times_spec(m.feed[tap]).plus_spec(
                    iir_value(m, input, upto - 1).times_spec(m.back[tap - 1]),
                ),
            )
        } else {
            before
        }
    }
}

/// The filter's response at position `at` of the block: everything earlier
/// samples contribute to it, plus the current input by the first weight.
pub open spec fn iir_value<S: Sample>(m: IirModel<S>, input: Seq<S>, at: int) -> S
    decreases at, 1int,
{
    if at < 0 {
        S::zero_spec()
    } else {
        iir_acc(m, input, at, at, iir_start(m, at)).plus_spec(input[at].times_spec(m.feed[0]))
    }
}

/// The output block after the filter has been applied to `input` on top of
/// `output`.
pub open spec fn iir_output<S: Sample>(m: IirModel<S>, input: Seq<S>, output: Seq<S>) -> Seq<S> {
    Seq::new(output.len(), |at: int| output[at].plus_spec(iir_value(m, input, at)))
}

/// The carry after a block: what the block's samples contribute to each
/// position past its end, accumulated from zero.
pub open spec fn iir_carry<S: Sample>(m: IirModel<S>, input: Seq<S>) -> Seq<S> {
    Seq::new(
        m.carry.len(),
        |c: int| iir_acc(m, input, input.len() + c, input.len() as int, S::zero_spec()),
    )
}

/// The filter after it has processed `input`.
pub open spec fn iir_after<S: Sample>(m: IirModel<S>, input: Seq<S>) -> IirModel<S> {
    IirModel { carry: iir_carry(m, input), ..m }
}

/// The filter after `set_gain(gain)`: unchanged where `gain` compares equal to
/// the gain last set, and otherwise both sets of original weights rescaled.
pub open spec fn iir_with_gain<S: Sample>(m: IirModel<S>, gain: S) -> IirModel<S> {
    if gain.same_spec(m.gain) {
        m
    } else {
        IirModel {
            feed: scaled(m.feed_original, gain),
            back: scaled(m.back_original, gain),
            gain,
            ..m
        }
    }
}

/// A filter fresh from `new`.
pub open spec fn iir_new<S: Sample>(feed: Seq<S>, back: Seq<S>) -> IirModel<S> {
    IirModel {
        feed,
        feed_original: feed,
        back,
        back_original: back,
        carry: silence::<S>(back.len()),
        gain: S::one_spec(),
    }
}

/// The weights of a filter with a single pole.
pub open spec fn single_pole_model<S: Sample>(a0: S, a1: S, b1: S) -> IirModel<S> {
    iir_new(seq![a0, a1], seq![b1])
}

impl<S: Sample> IIRFilter<S> {
    /// A filter with the given input and output weights, unit gain and an
    /// empty carry. `frame_len` is the block length to prepare for; a block of
    /// another length makes the filter allocate.
    pub fn new(in_weights: Vec<S>, out_weights: Vec<S>, frame_len: usize) -> (r: Self)
        requires
            in_weights@.len() == out_weights@.len() + 1,
        ensures
            r@ == iir_new(in_weights@, out_weights@),
            iir_wf(r@),
    {
        let buffer_len = out_weights.len();
        let feed = copy_of(in_weights.as_slice());
        let back = copy_of(out_weights.as_slice());
        IIRFilter {
            in_weights: feed,
            in_weights_original: in_weights,
            out_weights: back,
            out_weights_original: out_weights,
            buffer: zeros(buffer_len),
            output_buffer: zeros(frame_len),
            gain: S::one(),
        }
    }

    /// Rescales the weights in use, of inputs and outputs alike, to
    /// `original * gain`. Does nothing where `gain` compares equal to the gain
    /// last set.
    pub fn set_gain(&mut self, gain: S)
        requires
            iir_wf(old(self)@),
        ensures
            final(self)@ == iir_with_gain(old(self)@, gain),
            iir_wf(final(self)@),
    {
        if gain.same(self.gain) {
            return ;
        }
        let n = self.in_weights.len();
        let mut i: usize = 0;
        while i < n
            invariant
                i <= n,
                n == self.in_weights@.len(),
                n == self.in_weights_original@.len(),
                self.in_weights_original@ == old(self).in_weights_original@,
                self.out_weights@ == old(self).out_weights@,
                self.out_weights_original@ == old(self).out_weights_original@,
                self.buffer@ == old(self).buffer@,
                forall|j: int|
                    0 <= j < i ==> self.in_weights@[j] == self.in_weights_original@[j].times_spec(
                        gain,
                    ),
            decreases n - i,
        {
            let w = self.in_weights_original[i].times(gain);
            self.in_weights[i] = w;
            i += 1;
        }
        let nb = self.out_weights.len();
        let mut i: usize = 0;
        while i < nb
            invariant
                i <= nb,
                nb == self.out_weights@.len(),
                nb == self.out_weights_original@.len(),
                self.in_weights@ =~= scaled(old(self).in_weights_original@, gain),
                self.in_weights_original@ == old(self).in_weights_original@,
                self.out_weights_original@ == old(self).out_weights_original@,
                self.buffer@ == old(self).buffer@,
                forall|j: int|
                    0 <= j < i ==> self.out_weights@[j]
                        == self.out_weights_original@[j].times_spec(gain),
            decreases nb - i,
        {
            let w = self.out_weights_original[i].times(gain);
            self.out_weights[i] = w;
            i += 1;
        }
        self.gain = gain;
        assert(self.out_weights@ =~= scaled(old(self).out_weights_original@, gain));
    }

    /// The number of input weights.
    pub fn len(&self) -> (r: usize)
        ensures
            r == self@.feed.len(),
    {
        self.in_weights.len()
    }

    /// The filter `y[n] = a0 x[n] + a1 x[n-1] + b1 y[n-1]`.
    pub fn single_pole(a0: S, a1: S, b1: S, frame_len: usize) -> (r: Self)
        ensures
            r@ == single_pole_model(a0, a1, b1),
            iir_wf(r@),
    {
        let mut in_weights: Vec<S> = Vec::new();
        in_weights.push(a0);
        in_weights.push(a1);
        let mut out_weights: Vec<S> = Vec::new();
        out_weights.push(b1);
        assert(in_weights@ =~= seq![a0, a1]);
        assert(out_weights@ =~= seq![b1]);
        Self::new(in_weights, out_weights, frame_len)
    }

    /// A filter that does not affect the signal.
    pub fn passthru(frame_len: usize) -> (r: Self)
        ensures
            r@ == single_pole_model(S::one_spec(), S::zero_spec(), S::zero_spec()),
            iir_wf(r@),
    {
        Self::single_pole(S::one(), S::zero(), S::zero(), frame_len)
    }

    /// The gain last set.
    pub fn gain(&self) -> (r: S)
        ensures
            r == self@.gain,
    {
        self.gain
    }

    /// The carry as it stands.
    pub fn carry(&self) -> (r: Vec<S>)
        ensures
            r@ == self@.carry,
    {
        copy_of(self.buffer.as_slice())
    }

    /// Makes the scratch block `len` samples of silence.
    fn zero_output_buffer(&mut self, len: usize)
        ensures
            final(self)@ == old(self)@,
            final(self).output_buffer@ == silence::<S>(len as nat),
    {
        if self.output_buffer.len() != len {
            self.output_buffer = zeros(len);
        } else {
            let mut i: usize = 0;
            while i < len
                invariant
                    i <= len,
                    self@ == old(self)@,
                    self.output_buffer@.len() == len,
                    forall|j: int| 0 <= j < i ==> self.output_buffer@[j] == S::zero_spec(),
                decreases len - i,
            {
                self.output_buffer[i] = S::zero();
                i += 1;
            }
            assert(self.output_buffer@ =~= silence::<S>(len as nat));
        }
    }

    /// Empties the carry.
    fn zero_buffer(&mut self)
        ensures
            final(self)@ == (IirModel {
                carry: silence::<S>(old(self)@.carry.len()),
                ..old(self)@
            }),
            final(self).output_buffer@ == old(self).output_buffer@,
    {
        let n = self.buffer.len();
        let mut i: usize = 0;
        while i < n
            invariant
                i <= n,
                n == self.buffer@.len(),
                self.in_weights@ == old(self).in_weights@,
                self.in_weights_original@ == old(self).in_weights_original@,
                self.out_weights@ == old(self).out_weights@,
                self.out_weights_original@ == old(self).out_weights_original@,
                self.gain == old(self).gain,
                self.output_buffer@ == old(self).output_buffer@,
                forall|j: int| 0 <= j < i ==> self.buffer@[j] == S::zero_spec(),
            decreases n - i,
        {
            self.buffer[i] = S::zero();
            i += 1;
        }
        assert(self.buffer@ =~= silence::<S>(old(self)@.carry.len()));
    }

    /// Adds the scratch block to `buf`.
    fn add_to_output_buffer(&self, buf: &mut [S])
        requires
            self.output_buffer@.len() == old(buf)@.len(),
        ensures
            final(buf)@.len() == old(buf)@.len(),
            forall|j: int|
                0 <= j < old(buf)@.len() ==> final(buf)@[j] == old(buf)@[j].plus_spec(
                    self.output_buffer@[j],
                ),
    {
        let n = buf.len();
        let mut i: usize = 0;
        while i < n
            invariant
                i <= n,
                n == buf@.len(),
                n == old(buf)@.len(),
                n == self.output_buffer@.len(),
                forall|j: int|
                    0 <= j < i ==> buf@[j] == old(buf)@[j].plus_spec(self.output_buffer@[j]),
                forall|j: int| i <= j < n ==> buf@[j] == old(buf)@[j],
            decreases n - i,
        {
            let v = buf[i].plus(self.output_buffer[i]);
            buf[i] = v;
            i += 1;
        }
    }

    /// What one sample contributes to the position `tap` samples after it.
    fn contribution(&self, sample_in: S, sample_out: S, tap: usize) -> (r: S)
        requires
            1 <= tap < self.in_weights@.len(),
            self.in_weights@.len() == self.out_weights@.len() + 1,
        ensures
            r == sample_in.times_spec(self.in_weights@[tap as int]).plus_spec(
                sample_out.times_spec(self.out_weights@[tap - 1]),
            ),
    {
        sample_in.times(self.in_weights[tap]).plus(sample_out.times(self.out_weights[tap - 1]))
    }
}

impl<S: Sample> Effect<S> for IIRFilter<S> {
    open spec fn wf(&self) -> bool {
        iir_wf(self@)
    }

    /// A block must be longer than the filter.
    open spec fn accepts(&self, len: nat) -> bool {
        len > self@.feed.len()
    }

    open spec fn output_after(&self, input: Seq<S>, output: Seq<S>) -> Seq<S> {
        iir_output(self@, input, output)
    }

    fn apply(&mut self, input: &[S], output: &mut [S])
        ensures
            final(self)@ == iir_after(old(self)@, input@),
    {
        let filter_len = self.in_weights.len();
        let sample_len = input.len();
        let ghost m = self@;
        let ghost x = input@;

        self.zero_output_buffer(sample_len);

        // previous block into this one
        let mut j: usize = 0;
        while j < filter_len - 1
            invariant
                j <= filter_len - 1,
                filter_len < sample_len,
                self@ == m,
                iir_wf(m),
                filter_len == m.feed.len(),
                self.output_buffer@.len() == sample_len,
                forall|t: int| 0 <= t < j ==> self.output_buffer@[t] == iir_start(m, t),
                forall|t: int| j <= t < sample_len ==> self.output_buffer@[t] == S::zero_spec(),
            decreases filter_len - 1 - j,
        {
            let v = self.output_buffer[j].plus(self.buffer[j]);
            self.output_buffer[j] = v;
            j += 1;
        }
        assert forall|t: int| 0 <= t < sample_len implies self.output_buffer@[t] == iir_acc(
            m,
            x,
            t,
            0,
            iir_start(m, t),
        ) by {}

        // this block into itself, where every contribution stays inside
        let mut idx: usize = 0;
        while idx < sample_len - filter_len
            invariant
                idx <= sample_len - filter_len,
                filter_len < sample_len,
                self@ == m,
                iir_wf(m),
                filter_len == m.feed.len(),
                x == input@,
                x.len() == sample_len,
                self.output_buffer@.len() == sample_len,
                forall|t: int| 0 <= t < idx ==> self.output_buffer@[t] == iir_value(m, x, t),
                forall|t: int|
                    idx <= t < sample_len ==> self.output_buffer@[t] == iir_acc(
                        m,
                        x,
                        t,
                        idx as int,
                        iir_start(m, t),
                    ),
            decreases sample_len - filter_len - idx,
        {
            // finish this sample
            let sample_in = input[idx];
            let finished = self.output_buffer[idx].plus(sample_in.times(self.in_weights[0]));
            self.output_buffer[idx] = finished;
            let sample_out = finished;

            // add its contributions to the samples after it
            let mut tap: usize = 1;
            while tap < filter_len
                invariant
                    1 <= tap <= filter_len,
                    idx < sample_len - filter_len,
                    self@ == m,
                    iir_wf(m),
                    filter_len == m.feed.len(),
                    x == input@,
                    x.len() == sample_len,
                    sample_in == x[idx as int],
                    sample_out == iir_value(m, x, idx as int),
                    self.output_buffer@.len() == sample_len,
                    forall|t: int| 0 <= t <= idx ==> self.output_buffer@[t] == iir_value(m, x, t),
                    forall|t: int|
                        idx < t < sample_len ==> self.output_buffer@[t] == iir_acc(
                            m,
                            x,
                            t,
                            if t < idx + tap {
                                idx + 1
                            } else {
                                idx as int
                            },
                            iir_start(m, t),
                        ),
                decreases filter_len - tap,
            {
                let amount = self.contribution(sample_in, sample_out, tap);
                let v = self.output_buffer[idx + tap].plus(amount);
                self.output_buffer[idx + tap] = v;
                tap += 1;
            }
            idx += 1;
        }

        // this block into itself and into the next
        self.zero_buffer();
        assert forall|c: int| 0 <= c < filter_len - 1 implies self.buffer@[c] == iir_acc(
            m,
            x,
            sample_len + c,
            (sample_len - filter_len) as int,
            S::zero_spec(),
        ) by {
            iir_acc_outside(
                m,
                x,
                sample_len + c,
                (sample_len - filter_len) as int,
                S::zero_spec(),
            );
        }
        let mut idx: usize = sample_len - filter_len;
        while idx < sample_len
            invariant
                sample_len - filter_len <= idx <= sample_len,
                filter_len < sample_len,
                self.in_weights@ == m.feed,
                self.in_weights_original@ == m.feed_original,
                self.out_weights@ == m.back,
                self.out_weights_original@ == m.back_original,
                self.gain == m.gain,
                self.buffer@.len() == filter_len - 1,
                iir_wf(m),
                filter_len == m.feed.len(),
                x == input@,
                x.len() == sample_len,
                self.output_buffer@.len() == sample_len,
                forall|t: int| 0 <= t < idx ==> self.output_buffer@[t] == iir_value(m, x, t),
                forall|t: int|
                    idx <= t < sample_len ==> self.output_buffer@[t] == iir_acc(
                        m,
                        x,
                        t,
                        idx as int,
                        iir_start(m, t),
                    ),
                forall|c: int|
                    0 <= c < filter_len - 1 ==> self.buffer@[c] == iir_acc(
                        m,
                        x,
                        sample_len + c,
                        idx as int,
                        S::zero_spec(),
                    ),
            decreases sample_len - idx,
        {
            // finish this sample
            let sample_in = input[idx];
            let finished = self.output_buffer[idx].plus(sample_in.times(self.in_weights[0]));
            self.output_buffer[idx] = finished;
            let sample_out = finished;

            // first into this block
            let mut tap: usize = 1;
            while tap < sample_len - idx
                invariant
                    1 <= tap,
                    idx + tap <= sample_len,
                    sample_len - filter_len <= idx < sample_len,
                    self.in_weights@ == m.feed,
                    self.in_weights_original@ == m.feed_original,
                    self.out_weights@ == m.back,
                    self.out_weights_original@ == m.back_original,
                    self.gain == m.gain,
                    self.buffer@.len() == filter_len - 1,
                    iir_wf(m),
                    filter_len == m.feed.len(),
                    x == input@,
                    x.len() == sample_len,
                    sample_in == x[idx as int],
                    sample_out == iir_value(m, x, idx as int),
                    self.output_buffer@.len() == sample_len,
                    forall|t: int| 0 <= t <= idx ==> self.output_buffer@[t] == iir_value(m, x, t),
                    forall|t: int|
                        idx < t < sample_len ==> self.output_buffer@[t] == iir_acc(
                            m,
                            x,
                            t,
                            if t < idx + tap {
                                idx + 1
                            } else {
                                idx as int
                            },
                            iir_start(m, t),
                        ),
                    forall|c: int|
                        0 <= c < filter_len - 1 ==> self.buffer@[c] == iir_acc(
                            m,
                            x,
                            sample_len + c,
                            idx as int,
                            S::zero_spec(),
                        ),
                decreases sample_len - idx - tap,
            {
                let amount = self.contribution(sample_in, sample_out, tap);
                let v = self.output_buffer[idx + tap].plus(amount);
                self.output_buffer[idx + tap] = v;
                tap += 1;
            }
            // then into the next block, through the carry
            while tap < filter_len
                invariant
                    1 <= tap <= filter_len,
                    idx + tap >= sample_len,
                    sample_len - filter_len <= idx < sample_len,
                    self.in_weights@ == m.feed,
                    self.in_weights_original@ == m.feed_original,
                    self.out_weights@ == m.back,
                    self.out_weights_original@ == m.back_original,
                    self.gain == m.gain,
                    self.buffer@.len() == filter_len - 1,
                    iir_wf(m),
                    filter_len == m.feed.len(),
                    x == input@,
                    x.len() == sample_len,
                    sample_in == x[idx as int],
                    sample_out == iir_value(m, x, idx as int),
                    self.output_buffer@.len() == sample_len,
                    forall|t: int| 0 <= t <= idx ==> self.output_buffer@[t] == iir_value(m, x, t),
                    forall|t: int|
                        idx < t < sample_len ==> self.output_buffer@[t] == iir_acc(
                            m,
                            x,
                            t,
                            idx + 1,
                            iir_start(m, t),
                        ),
                    forall|c: int|
                        0 <= c < filter_len - 1 ==> self.buffer@[c] == iir_acc(
                            m,
                            x,
                            sample_len + c,
                            if sample_len + c < idx + tap {
                                idx + 1
                            } else {
                                idx as int
                            },
                            S::zero_spec(),
                        ),
                decreases filter_len - tap,
            {
                let slot = tap - (sample_len - idx);
                let amount = self.contribution(sample_in, sample_out, tap);
                let v = self.buffer[slot].plus(amount);
                self.buffer[slot] = v;
                tap += 1;
            }
            idx += 1;
        }
        self.add_to_output_buffer(output);
        assert(output@ =~= iir_output(m, x, old(output)@));
        assert(self.buffer@ =~= iir_carry(m, x));
    }
}

/// Samples more than a filter's length before a position contribute nothing
/// to it.
pub proof fn iir_acc_outside<S: Sample>(m: IirModel<S>, input: Seq<S>, at: int, upto: int, init: S)
    requires
        at - (upto - 1) >= m.feed.len(),
    ensures
        iir_acc(m, input, at, upto, init) == init,
    decreases upto,
{
    if upto > 0 {
        iir_acc_outside(m, input, at, upto - 1, init);
    }
}

/// A position's accumulated contributions read only the samples before
/// `upto`.
pub proof fn iir_acc_prefix<S: Sample>(
    m: IirModel<S>,
    a: Seq<S>,
    b: Seq<S>,
    at: int,
    upto: int,
    init: S,
)
    requires
        upto <= a.len(),
        upto <= b.len(),
        forall|i: int| 0 <= i < upto ==> a[i] == b[i],
    ensures
        iir_acc(m, a, at, upto, init) == iir_acc(m, b, at, upto, init),
    decreases upto, 0int,
{
    if upto > 0 {
        iir_acc_prefix(m, a, b, at, upto - 1, init);
        iir_value_prefix(m, a, b, upto - 1);
    }
}

/// The response at a position reads only the samples up to it.
pub proof fn iir_value_prefix<S: Sample>(m: IirModel<S>, a: Seq<S>, b: Seq<S>, at: int)
    requires
        0 <= at < a.len(),
        at < b.len(),
        forall|i: int| 0 <= i <= at ==> a[i] == b[i],
    ensures
        iir_value(m, a, at) == iir_value(m, b, at),
    decreases at, 1int,
{
    iir_acc_prefix(m, a, b, at, at, iir_start(m, at));
}

/// With exact arithmetic, accumulating over a signal in two parts: what
/// `first + second` contributes to a position of the second part is what
/// `second` contributes to it, in a filter that has processed `first`,
/// started from what `first` contributes.
pub proof fn iir_acc_split<S: Exact>(
    m: IirModel<S>,
    first: Seq<S>,
    second: Seq<S>,
    at: int,
    upto: int,
    init: S,
)
    requires
        iir_wf(m),
        first.len() > m.feed.len(),
        0 <= upto <= second.len(),
    ensures
        iir_acc(m, first + second, first.len() + at, first.len() + upto, init) == iir_acc(
            iir_after(m, first),
            second,
            at,
            upto,
            iir_acc(m, first, first.len() + at, first.len() as int, init),
        ),
    decreases upto, 0int,
{
    let whole = first + second;
    let l1 = first.len() as int;
    if upto == 0 {
        iir_acc_prefix(m, whole, first, l1 + at, l1, init);
    } else {
        iir_acc_split(m, first, second, at, upto - 1, init);
        iir_value_split(m, first, second, upto - 1);
        assert(whole[l1 + upto - 1] == second[upto - 1]);
    }
}

/// With exact arithmetic, the response to `first + second` at a position of
/// the second part is the response to `second` of a filter that has
/// processed `first`.
pub proof fn iir_value_split<S: Exact>(m: IirModel<S>, first: Seq<S>, second: Seq<S>, at: int)
    requires
        iir_wf(m),
        first.len() > m.feed.len(),
        0 <= at < second.len(),
    ensures
        iir_value(m, first + second, first.len() + at) == iir_value(
            iir_after(m, first),
            second,
            at,
        ),
    decreases at, 1int,
{
    let whole = first + second;
    let l1 = first.len() as int;
    let zero = S::zero_spec();
    let after = iir_after(m, first);
    iir_acc_split(m, first, second, at, at, zero);
    assert(iir_start(m, l1 + at) == zero);
    let carried = iir_acc(m, first, l1 + at, l1, zero);
    if at < m.carry.len() {
        assert(after.carry[at] == carried);
        S::plus_commutes(zero, carried);
        S::plus_zero(carried);
    } else {
        iir_acc_outside(m, first, l1 + at, l1, zero);
    }
    assert(iir_start(after, at) == carried);
    assert(whole[l1 + at] == second[at]);
}

/// Carry continuity. With exact arithmetic, processing a signal as two
/// consecutive blocks gives the output and leaves the carry that processing
/// it as one block does.
pub proof fn iir_block_split<S: Exact>(
    m: IirModel<S>,
    first: Seq<S>,
    second: Seq<S>,
    out_first: Seq<S>,
    out_second: Seq<S>,
)
    requires
        iir_wf(m),
        first.len() > m.feed.len(),
        second.len() > m.feed.len(),
        out_first.len() == first.len(),
        out_second.len() == second.len(),
    ensures
        iir_output(m, first + second, out_first + out_second) == iir_output(m, first, out_first)
            + iir_output(iir_after(m, first), second, out_second),
        iir_carry(m, first + second) == iir_carry(iir_after(m, first), second),
{
    let whole = first + second;
    let l1 = first.len() as int;
    let l2 = second.len() as int;
    let zero = S::zero_spec();
    let after = iir_after(m, first);
    let one_block = iir_output(m, whole, out_first + out_second);
    let two_blocks = iir_output(m, first, out_first) + iir_output(after, second, out_second);
    assert forall|at: int| 0 <= at < l1 + l2 implies one_block[at] == two_blocks[at] by {
        if at < l1 {
            iir_value_prefix(m, whole, first, at);
        } else {
            iir_value_split(m, first, second, at - l1);
        }
    }
    assert(one_block =~= two_blocks);
    assert forall|c: int| 0 <= c < m.carry.len() implies iir_carry(m, whole)[c] == iir_carry(
        after,
        second,
    )[c] by {
        iir_acc_split(m, first, second, l2 + c, l2, zero);
        iir_acc_outside(m, first, l1 + l2 + c, l1, zero);
    }
    assert(iir_carry(m, whole) =~= iir_carry(after, second));
}

/// The filter after it has processed `blocks` one after the other, each on
/// top of its own output block, and the output blocks joined.
pub open spec fn iir_blockwise<S: Sample>(
    m: IirModel<S>,
    blocks: Seq<Seq<S>>,
    outs: Seq<Seq<S>>,
) -> (IirModel<S>, Seq<S>)
    decreases blocks.len(),
{
    if blocks.len() == 0 {
        (m, Seq::empty())
    } else {
        let before = iir_blockwise(m, blocks.drop_last(), outs.drop_last());
        (
            iir_after(before.0, blocks.last()),
            before.1 + iir_output(before.0, blocks.last(), outs.last()),
        )
    }
}

/// Carry continuity over any number of blocks. With exact arithmetic,
/// processing a signal block by block, whatever the sizes of the blocks as
/// long as each is longer than the filter, gives the output and leaves the
/// filter that processing the whole signal as one block does.
pub proof fn iir_blocks_join<S: Exact>(m: IirModel<S>, blocks: Seq<Seq<S>>, outs: Seq<Seq<S>>)
    requires
        iir_wf(m),
        blocks.len() >= 1,
        outs.len() == blocks.len(),
        forall|k: int|
            0 <= k < blocks.len() ==> (#[trigger] blocks[k]).len() > m.feed.len() && outs[k].len()
                == blocks[k].len(),
    ensures
        iir_blockwise(m, blocks, outs) == (
            iir_after(m, joined(blocks)),
            iir_output(m, joined(blocks), joined(outs)),
        ),
    decreases blocks.len(),
{
    let head = blocks.drop_last();
    let head_outs = outs.drop_last();
    let last = blocks.last();
    let last_out = outs.last();
    assert(last.len() > m.feed.len() && last_out.len() == last.len());
    if blocks.len() == 1 {
        assert(joined(head) =~= Seq::<S>::empty());
        assert(joined(head_outs) =~= Seq::<S>::empty());
        assert(joined(blocks) =~= last);
        assert(joined(outs) =~= last_out);
        assert(iir_blockwise(m, head, head_outs) == (m, Seq::<S>::empty()));
        assert(Seq::<S>::empty() + iir_output(m, last, last_out) =~= iir_output(m, last, last_out));
    } else {
        assert forall|k: int| 0 <= k < head.len() implies (#[trigger] head[k]).len()
            > m.feed.len() && head_outs[k].len() == head[k].len() by {
            assert(head[k] == blocks[k] && head_outs[k] == outs[k]);
        }
        iir_blocks_join(m, head, head_outs);
        assert forall|k: int| 0 <= k < head.len() implies (#[trigger] head_outs[k]).len()
            == head[k].len() by {
            assert(head[k] == blocks[k] && head_outs[k] == outs[k]);
        }
        joined_len(head, head_outs);
        assert(head.last().len() > m.feed.len()) by {
            assert(head.last() == blocks[head.len() - 1]);
        }
        iir_block_split(m, joined(head), last, joined(head_outs), last_out);
    }
}

/// Setting the same gain twice in a row leaves the filter as setting it once
/// does.
pub proof fn iir_set_gain_idempotent<S: Sample>(m: IirModel<S>, gain: S)
    ensures
        iir_with_gain(iir_with_gain(m, gain), gain) == iir_with_gain(m, gain),
{
}

} // verus!
