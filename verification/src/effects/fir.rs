//! Finite impulse response filters.
//!
//! A block is convolved with the filter's weights in three stages: the tail of
//! the previous block's response is added to the start of the output; every
//! input whose whole response fits in the block is accumulated into the
//! output; and for the last inputs the response is split between the output
//! and the carry buffer, which the next block starts from.
use crate::effects::{copy_of, scaled, silence, summed, zeros, Effect};
use crate::sample::{Exact, Sample};
use vstd::prelude::*;

verus! {

/// What a filter is, mathematically.
pub struct FirModel<S> {
    /// The weights in use: the original weights scaled by the gain last set.
    pub weights: Seq<S>,
    /// The weights the filter was made with.
    pub original: Seq<S>,
    /// The part of the response to past blocks that falls into the next one.
    pub carry: Seq<S>,
    /// The gain last set.
    pub gain: S,
}

/// A convolution filter with its inter-block state.
#[derive(Debug, Clone)]
pub struct FIRFilter<S> {
    weights: Vec<S>,
    weights_original: Vec<S>,
    buffer: Vec<S>,
    gain: S,
}

impl<S: Sample> View for FIRFilter<S> {
    type V = FirModel<S>;

    closed spec fn view(&self) -> FirModel<S> {
        FirModel {
            weights: self.weights@,
            original: self.weights_original@,
            carry: self.buffer@,
            gain: self.gain,
        }
    }
}

/// A filter has at least one weight, as many weights in use as original ones,
/// and a carry one shorter than its weights.
pub open spec fn fir_wf<S: Sample>(m: FirModel<S>) -> bool {
    &&& m.weights.len() >= 1
    &&& m.original.len() == m.weights.len()
    &&& m.carry.len() + 1 == m.weights.len()
}

/// `init` plus, from left to right, the contribution of each of the first
/// `upto` inputs to the output position `at`: input `i` contributes
/// `input[i] * weights[at - i]` where that weight exists.
pub open spec fn tap_sum<S: Sample>(
    input: Seq<S>,
    weights: Seq<S>,
    at: int,
    upto: int,
    init: S,
) -> S
    decreases upto,
{
    if upto <= 0 {
        init
    } else {
        let before = tap_sum(input, weights, at, upto - 1, init);
        let tap = at - (upto - 1);
        if 0 <= tap < weights.len() {
            before.plus_spec(input[upto - 1].times_spec(weights[tap]))
        } else {
            before
        }
    }
}

/// What output position `at` holds before the block's own inputs are
/// accumulated: the old output, plus the carry where the carry reaches.
pub open spec fn fir_start<S: Sample>(m: FirModel<S>, output: Seq<S>, at: int) -> S {
    if at < m.carry.len() {
        output[at].plus_spec(m.carry[at])
    } else {
        output[at]
    }
}

/// The output block after the filter has been applied to `input` on top of
/// `output`.
pub open spec fn fir_output<S: Sample>(m: FirModel<S>, input: Seq<S>, output: Seq<S>) -> Seq<S> {
    Seq::new(
        output.len(),
        |at: int| tap_sum(input, m.weights, at, input.len() as int, fir_start(m, output, at)),
    )
}

/// The carry after a block: for each position past the end of the block, the
/// contributions of the block's inputs to it, accumulated from zero.
pub open spec fn fir_carry<S: Sample>(m: FirModel<S>, input: Seq<S>) -> Seq<S> {
    Seq::new(
        m.carry.len(),
        |c: int| tap_sum(input, m.weights, input.len() + c, input.len() as int, S::zero_spec()),
    )
}

/// The filter after it has processed `input`.
pub open spec fn fir_after<S: Sample>(m: FirModel<S>, input: Seq<S>) -> FirModel<S> {
    FirModel { carry: fir_carry(m, input), ..m }
}

/// The filter after `set_gain(gain)`: unchanged where `gain` compares equal to
/// the gain last set, and otherwise the original weights rescaled.
pub open spec fn fir_with_gain<S: Sample>(m: FirModel<S>, gain: S) -> FirModel<S> {
    if gain.same_spec(m.gain) {
        m
    } else {
        FirModel { weights: scaled(m.original, gain), gain, ..m }
    }
}

/// `len`, or the next number where `len` is even.
pub open spec fn odd_length(len: usize) -> int {
    if len % 2 == 0 {
        len + 1
    } else {
        len as int
    }
}

/// A filter fresh from `new(weights)`.
pub open spec fn fir_new<S: Sample>(weights: Seq<S>) -> FirModel<S> {
    FirModel {
        weights,
        original: weights,
        carry: silence::<S>((weights.len() - 1) as nat),
        gain: S::one_spec(),
    }
}

impl<S: Sample> FIRFilter<S> {
    /// A filter with the given weights, unit gain and an empty carry.
    pub fn new(weights: Vec<S>) -> (r: Self)
        requires
            weights@.len() >= 1,
        ensures
            r@ == fir_new(weights@),
            fir_wf(r@),
    {
        let len = weights.len();
        let in_use = copy_of(weights.as_slice());
        FIRFilter {
            weights: in_use,
            weights_original: weights,
            buffer: zeros(len - 1),
            gain: S::one(),
        }
    }

    /// A filter designed tap by tap. Its length is `len` made odd, so that
    /// there is a centre tap; the centre tap is `center`, and every other
    /// tap is what `side` gives for the filter's length and the tap's index.
    pub fn from_taps<F: Fn(usize, usize) -> S>(len: usize, center: S, side: &F) -> (r: Self)
        requires
            len < usize::MAX,
            forall|n: usize, i: usize| call_requires(side, (n, i)),
        ensures
            fir_wf(r@),
            r@ == fir_new(r@.original),
            r@.original.len() == odd_length(len),
            r@.original[odd_length(len) / 2] == center,
            forall|i: int|
                0 <= i < odd_length(len) && i != odd_length(len) / 2 ==> call_ensures(
                    side,
                    (odd_length(len) as usize, i as usize),
                    #[trigger] r@.original[i],
                ),
    {
        let len = if len % 2 == 0 {
            len + 1
        } else {
            len
        };
        let middle = len / 2;
        let mut weights: Vec<S> = Vec::with_capacity(len);
        let mut i: usize = 0;
        while i < len
            invariant
                i <= len,
                middle == len / 2,
                len % 2 == 1,
                weights@.len() == i,
                forall|n: usize, k: usize| call_requires(side, (n, k)),
                middle < i ==> weights@[middle as int] == center,
                forall|k: int|
                    0 <= k < i && k != middle ==> call_ensures(
                        side,
                        (len, k as usize),
                        #[trigger] weights@[k],
                    ),
            decreases len - i,
        {
            if i == middle {
                weights.push(center);
            } else {
                weights.push(side(len, i));
            }
            i += 1;
        }
        Self::new(weights)
    }

    /// The filter that leaves a signal as it is: the single weight one.
    pub fn passthru() -> (r: Self)
        ensures
            r@ == fir_new(seq![S::one_spec()]),
            fir_wf(r@),
    {
        let mut weights: Vec<S> = Vec::new();
        weights.push(S::one());
        assert(weights@ =~= seq![S::one_spec()]);
        Self::new(weights)
    }

    /// Rescales the weights in use to `original * gain`. Does nothing where
    /// `gain` compares equal to the gain last set.
    pub fn set_gain(&mut self, gain: S)
        requires
            fir_wf(old(self)@),
        ensures
            final(self)@ == fir_with_gain(old(self)@, gain),
            fir_wf(final(self)@),
    {
        if gain.same(self.gain) {
            return ;
        }
        let n = self.weights.len();
        let mut i: usize = 0;
        while i < n
            invariant
                i <= n,
                n == self.weights@.len(),
                n == self.weights_original@.len(),
                self.weights_original@ == old(self).weights_original@,
                self.buffer@ == old(self).buffer@,
                forall|j: int|
                    0 <= j < i ==> self.weights@[j] == self.weights_original@[j].times_spec(gain),
            decreases n - i,
        {
            let w = self.weights_original[i].times(gain);
            self.weights[i] = w;
            i += 1;
        }
        self.gain = gain;
        assert(self.weights@ =~= scaled(old(self).weights_original@, gain));
    }

    /// The number of weights.
    pub fn len(&self) -> (r: usize)
        ensures
            r == self@.weights.len(),
    {
        self.weights.len()
    }

    /// The gain last set.
    pub fn gain(&self) -> (r: S)
        ensures
            r == self@.gain,
    {
        self.gain
    }

    /// The window function `window` tabulated over the filter's length:
    /// entry `i` is what `window` gives for the length and `i`.
    pub fn debug_window<F: Fn(usize, usize) -> S>(&self, window: &F) -> (r: Vec<S>)
        requires
            forall|n: usize, i: usize| call_requires(window, (n, i)),
        ensures
            r@.len() == self@.weights.len(),
            forall|i: int|
                0 <= i < r@.len() ==> call_ensures(
                    window,
                    (self@.weights.len() as usize, i as usize),
                    #[trigger] r@[i],
                ),
    {
        let len = self.weights.len();
        let mut table: Vec<S> = Vec::with_capacity(len);
        let mut i: usize = 0;
        while i < len
            invariant
                i <= len,
                len == self.weights@.len(),
                table@.len() == i,
                forall|n: usize, k: usize| call_requires(window, (n, k)),
                forall|k: int|
                    0 <= k < i ==> call_ensures(window, (len, k as usize), #[trigger] table@[k]),
            decreases len - i,
        {
            table.push(window(len, i));
            i += 1;
        }
        table
    }

    /// The weights the filter was made with.
    pub fn debug_weights(&self) -> (r: Vec<S>)
        ensures
            r@ == self@.original,
    {
        copy_of(self.weights_original.as_slice())
    }

    /// The weights in use.
    pub fn weights(&self) -> (r: Vec<S>)
        ensures
            r@ == self@.weights,
    {
        copy_of(self.weights.as_slice())
    }

    /// The carry as it stands.
    pub fn carry(&self) -> (r: Vec<S>)
        ensures
            r@ == self@.carry,
    {
        copy_of(self.buffer.as_slice())
    }
}

impl<S: Sample> Effect<S> for FIRFilter<S> {
    open spec fn wf(&self) -> bool {
        fir_wf(self@)
    }

    /// A block must be at least as long as the filter.
    open spec fn accepts(&self, len: nat) -> bool {
        len >= self@.weights.len()
    }

    open spec fn output_after(&self, input: Seq<S>, output: Seq<S>) -> Seq<S> {
        fir_output(self@, input, output)
    }

    fn apply(&mut self, input: &[S], output: &mut [S])
        ensures
            final(self)@ == fir_after(old(self)@, input@),
    {
        let n = self.weights.len();
        let len = input.len();
        let ghost m = self@;
        let ghost out0 = output@;
        let ghost x = input@;

        // previous block into this one
        let mut j: usize = 0;
        while j < n - 1
            invariant
                j <= n - 1,
                n <= len,
                self@ == m,
                fir_wf(m),
                n == m.weights.len(),
                output@.len() == len,
                out0.len() == len,
                forall|t: int| 0 <= t < j ==> output@[t] == fir_start(m, out0, t),
                forall|t: int| j <= t < len ==> output@[t] == out0[t],
            decreases n - 1 - j,
        {
            let v = output[j].plus(self.buffer[j]);
            output[j] = v;
            j += 1;
        }
        assert forall|t: int| 0 <= t < len implies output@[t] == tap_sum(
            x,
            m.weights,
            t,
            0,
            fir_start(m, out0, t),
        ) by {}

        // this block into itself, where the whole response fits
        let mut i: usize = 0;
        while i < len - n
            invariant
                i <= len - n,
                n <= len,
                self@ == m,
                fir_wf(m),
                n == m.weights.len(),
                x == input@,
                x.len() == len,
                output@.len() == len,
                forall|t: int|
                    0 <= t < len ==> output@[t] == tap_sum(
                        x,
                        m.weights,
                        t,
                        i as int,
                        fir_start(m, out0, t),
                    ),
            decreases len - n - i,
        {
            let sample_in = input[i];
            let mut k: usize = 0;
            while k < n
                invariant
                    k <= n,
                    i < len - n,
                    self@ == m,
                    n == m.weights.len(),
                    x == input@,
                    x.len() == len,
                    sample_in == x[i as int],
                    output@.len() == len,
                    forall|t: int|
                        0 <= t < len ==> output@[t] == tap_sum(
                            x,
                            m.weights,
                            t,
                            if i <= t < i + k {
                                i + 1
                            } else {
                                i as int
                            },
                            fir_start(m, out0, t),
                        ),
                decreases n - k,
            {
                let v = output[i + k].plus(sample_in.times(self.weights[k]));
                output[i + k] = v;
                k += 1;
            }
            i += 1;
        }

        // this block into itself and into the next
        let mut c: usize = 0;
        while c < n - 1
            invariant
                c <= n - 1,
                self.weights@ == m.weights,
                self.weights_original@ == m.original,
                self.gain == m.gain,
                self.buffer@.len() == n - 1,
                fir_wf(m),
                n == m.weights.len(),
                forall|t: int| 0 <= t < c ==> self.buffer@[t] == S::zero_spec(),
            decreases n - 1 - c,
        {
            self.buffer[c] = S::zero();
            c += 1;
        }
        assert forall|t: int| 0 <= t < n - 1 implies self.buffer@[t] == tap_sum(
            x,
            m.weights,
            len + t,
            (len - n) as int,
            S::zero_spec(),
        ) by {
            tap_sum_outside(x, m.weights, len + t, 0, (len - n) as int, S::zero_spec());
        }
        let mut i: usize = len - n;
        while i < len
            invariant
                len - n <= i <= len,
                n <= len,
                self.weights@ == m.weights,
                self.weights_original@ == m.original,
                self.gain == m.gain,
                self.buffer@.len() == n - 1,
                fir_wf(m),
                n == m.weights.len(),
                x == input@,
                x.len() == len,
                output@.len() == len,
                forall|t: int|
                    0 <= t < len ==> output@[t] == tap_sum(
                        x,
                        m.weights,
                        t,
                        i as int,
                        fir_start(m, out0, t),
                    ),
                forall|t: int|
                    0 <= t < n - 1 ==> self.buffer@[t] == tap_sum(
                        x,
                        m.weights,
                        len + t,
                        i as int,
                        S::zero_spec(),
                    ),
            decreases len - i,
        {
            let sample_in = input[i];
            let mut k: usize = 0;
            // first into this block
            while k < len - i
                invariant
                    k <= len - i,
                    len - n <= i < len,
                    self.weights@ == m.weights,
                    self.weights_original@ == m.original,
                    self.gain == m.gain,
                    self.buffer@.len() == n - 1,
                    n == m.weights.len(),
                    x == input@,
                    x.len() == len,
                    sample_in == x[i as int],
                    output@.len() == len,
                    forall|t: int|
                        0 <= t < len ==> output@[t] == tap_sum(
                            x,
                            m.weights,
                            t,
                            if i <= t < i + k {
                                i + 1
                            } else {
                                i as int
                            },
                            fir_start(m, out0, t),
                        ),
                    forall|t: int|
                        0 <= t < n - 1 ==> self.buffer@[t] == tap_sum(
                            x,
                            m.weights,
                            len + t,
                            i as int,
                            S::zero_spec(),
                        ),
                decreases len - i - k,
            {
                let v = output[i + k].plus(sample_in.times(self.weights[k]));
                output[i + k] = v;
                k += 1;
            }
            // then into the next block, through the carry
            while k < n
                invariant
                    len - i <= k <= n,
                    len - n <= i < len,
                    self.weights@ == m.weights,
                    self.weights_original@ == m.original,
                    self.gain == m.gain,
                    self.buffer@.len() == n - 1,
                    n == m.weights.len(),
                    x == input@,
                    x.len() == len,
                    sample_in == x[i as int],
                    output@.len() == len,
                    forall|t: int|
                        0 <= t < len ==> output@[t] == tap_sum(
                            x,
                            m.weights,
                            t,
                            i + 1,
                            fir_start(m, out0, t),
                        ),
                    forall|t: int|
                        0 <= t < n - 1 ==> self.buffer@[t] == tap_sum(
                            x,
                            m.weights,
                            len + t,
                            if t < k - (len - i) {
                                i + 1
                            } else {
                                i as int
                            },
                            S::zero_spec(),
                        ),
                decreases n - k,
            {
                let slot = k - (len - i);
                let v = self.buffer[slot].plus(sample_in.times(self.weights[k]));
                self.buffer[slot] = v;
                k += 1;
            }
            i += 1;
        }
        assert(output@ =~= fir_output(m, x, out0));
        assert(self.buffer@ =~= fir_carry(m, x));
    }
}

/// Inputs whose weight index falls outside the filter contribute nothing:
/// where every input from `lo` up to `upto` is either later than `at` or more
/// than a filter's length before it, the sum does not change over them.
pub proof fn tap_sum_outside<S: Sample>(
    input: Seq<S>,
    weights: Seq<S>,
    at: int,
    lo: int,
    upto: int,
    init: S,
)
    requires
        0 <= lo <= upto,
        at < lo || at - (upto - 1) >= weights.len(),
    ensures
        tap_sum(input, weights, at, upto, init) == tap_sum(input, weights, at, lo, init),
    decreases upto - lo,
{
    if upto > lo {
        tap_sum_outside(input, weights, at, lo, upto - 1, init);
    }
}

/// The sum reads only the first `upto` inputs.
pub proof fn tap_sum_prefix<S: Sample>(
    a: Seq<S>,
    b: Seq<S>,
    weights: Seq<S>,
    at: int,
    upto: int,
    init: S,
)
    requires
        0 <= upto <= a.len(),
        upto <= b.len(),
        forall|i: int| 0 <= i < upto ==> a[i] == b[i],
    ensures
        tap_sum(a, weights, at, upto, init) == tap_sum(b, weights, at, upto, init),
    decreases upto,
{
    if upto > 0 {
        tap_sum_prefix(a, b, weights, at, upto - 1, init);
    }
}

/// Accumulating over a signal in two parts: the sum over `head + tail` is the
/// sum over `tail`, started from the sum over `head`.
pub proof fn tap_sum_split<S: Sample>(
    head: Seq<S>,
    tail: Seq<S>,
    weights: Seq<S>,
    at: int,
    upto: int,
    init: S,
)
    requires
        0 <= upto <= tail.len(),
    ensures
        tap_sum(head + tail, weights, at, head.len() + upto, init) == tap_sum(
            tail,
            weights,
            at - head.len(),
            upto,
            tap_sum(head, weights, at, head.len() as int, init),
        ),
    decreases upto,
{
    let whole = head + tail;
    if upto == 0 {
        tap_sum_prefix(whole, head, weights, at, head.len() as int, init);
    } else {
        tap_sum_split(head, tail, weights, at, upto - 1, init);
        assert(whole[head.len() + upto - 1] == tail[upto - 1]);
    }
}

/// With exact arithmetic, what the sum starts from can be added afterwards.
pub proof fn tap_sum_absorbs<S: Exact>(
    input: Seq<S>,
    weights: Seq<S>,
    at: int,
    upto: int,
    a: S,
    b: S,
)
    ensures
        tap_sum(input, weights, at, upto, a.plus_spec(b)) == a.plus_spec(
            tap_sum(input, weights, at, upto, b),
        ),
    decreases upto,
{
    if upto > 0 {
        tap_sum_absorbs(input, weights, at, upto - 1, a, b);
        let tap = at - (upto - 1);
        if 0 <= tap < weights.len() {
            S::plus_associates(
                a,
                tap_sum(input, weights, at, upto - 1, b),
                input[upto - 1].times_spec(weights[tap]),
            );
        }
    }
}

/// With exact arithmetic, `(a + b) + (p + q) == (a + p) + (b + q)`.
pub proof fn plus_interchange<S: Exact>(a: S, b: S, p: S, q: S)
    ensures
        a.plus_spec(b).plus_spec(p.plus_spec(q)) == a.plus_spec(p).plus_spec(b.plus_spec(q)),
{
    // (a + b) + (p + q) == a + (b + (p + q))
    S::plus_associates(a, b, p.plus_spec(q));
    // b + (p + q) == (b + p) + q == (p + b) + q == p + (b + q)
    S::plus_associates(b, p, q);
    S::plus_commutes(b, p);
    S::plus_associates(p, b, q);
    // a + (p + (b + q)) == (a + p) + (b + q)
    S::plus_associates(a, p, b.plus_spec(q));
}

/// With exact arithmetic, the sum under the summed weights of two filters is
/// the sum of their sums.
pub proof fn tap_sum_adds<S: Exact>(
    input: Seq<S>,
    w1: Seq<S>,
    w2: Seq<S>,
    at: int,
    upto: int,
    a: S,
    b: S,
)
    requires
        w1.len() == w2.len(),
    ensures
        tap_sum(input, summed(w1, w2), at, upto, a.plus_spec(b)) == tap_sum(
            input,
            w1,
            at,
            upto,
            a,
        ).plus_spec(tap_sum(input, w2, at, upto, b)),
    decreases upto,
{
    if upto > 0 {
        tap_sum_adds(input, w1, w2, at, upto - 1, a, b);
        let tap = at - (upto - 1);
        if 0 <= tap < w1.len() {
            let s = input[upto - 1];
            S::times_distributes(s, w1[tap], w2[tap]);
            plus_interchange(
                tap_sum(input, w1, at, upto - 1, a),
                tap_sum(input, w2, at, upto - 1, b),
                s.times_spec(w1[tap]),
                s.times_spec(w2[tap]),
            );
        }
    }
}

/// Setting the same gain twice in a row leaves the filter as setting it once
/// does.
pub proof fn set_gain_idempotent<S: Sample>(m: FirModel<S>, gain: S)
    ensures
        fir_with_gain(fir_with_gain(m, gain), gain) == fir_with_gain(m, gain),
{
}

/// With exact arithmetic, a filter at gain zero whose carry is empty adds
/// nothing to the output, whether or not anyone spares it the work.
pub proof fn fir_zero_gain_adds_nothing<S: Exact>(m: FirModel<S>, input: Seq<S>, output: Seq<S>)
    requires
        fir_wf(m),
        m.carry == silence::<S>(m.carry.len()),
        !S::zero_spec().same_spec(m.gain),
    ensures
        fir_output(fir_with_gain(m, S::zero_spec()), input, output) == output,
{
    let zero = S::zero_spec();
    let quiet = fir_with_gain(m, zero);
    assert forall|at: int| 0 <= at < output.len() implies fir_output(quiet, input, output)[at]
        == output[at] by {
        S::plus_zero(output[at]);
        assert forall|k: int| 0 <= k < quiet.weights.len() implies quiet.weights[k] == zero by {
            S::times_zero(m.original[k]);
        }
        zero_weights_add_nothing(input, quiet.weights, at, input.len() as int, output[at]);
    }
    assert(fir_output(quiet, input, output) =~= output);
}

/// With exact arithmetic, weights that are all zero leave a sum where it
/// started.
pub proof fn zero_weights_add_nothing<S: Exact>(
    input: Seq<S>,
    weights: Seq<S>,
    at: int,
    upto: int,
    init: S,
)
    requires
        forall|k: int| 0 <= k < weights.len() ==> weights[k] == S::zero_spec(),
    ensures
        tap_sum(input, weights, at, upto, init) == init,
    decreases upto,
{
    if upto > 0 {
        zero_weights_add_nothing(input, weights, at, upto - 1, init);
        S::times_zero(input[upto - 1]);
        S::plus_zero(init);
    }
}

/// Additivity. With exact arithmetic, applying two filters of equal length
/// one after the other to a silent output gives what a single filter gives
/// whose weights and carry are the elementwise sums of theirs; and that
/// filter's carry afterwards is the sum of their carries.
pub proof fn fir_additive<S: Exact>(
    f1: FirModel<S>,
    f2: FirModel<S>,
    both: FirModel<S>,
    input: Seq<S>,
)
    requires
        fir_wf(f1),
        fir_wf(f2),
        f1.weights.len() == f2.weights.len(),
        both.weights == summed(f1.weights, f2.weights),
        both.carry == summed(f1.carry, f2.carry),
    ensures
        fir_output(f2, input, fir_output(f1, input, silence::<S>(input.len())))
            == fir_output(both, input, silence::<S>(input.len())),
        fir_carry(both, input) == summed(fir_carry(f1, input), fir_carry(f2, input)),
{
    let len = input.len() as int;
    let quiet = silence::<S>(input.len());
    let zero = S::zero_spec();
    let first = fir_output(f1, input, quiet);
    let second = fir_output(f2, input, first);
    let joint = fir_output(both, input, quiet);
    S::plus_zero(zero);
    assert forall|at: int| 0 <= at < len implies second[at] == joint[at] by {
        let s1 = fir_start(f1, quiet, at);
        if at < f1.carry.len() {
            let c1 = f1.carry[at];
            let c2 = f2.carry[at];
            // zero + (c1 + c2) == (zero + c1) + c2
            S::plus_associates(zero, c1, c2);
            tap_sum_adds(input, f1.weights, f2.weights, at, len, s1, c2);
            tap_sum_absorbs(input, f2.weights, at, len, first[at], c2);
        } else {
            S::plus_zero(first[at]);
            tap_sum_adds(input, f1.weights, f2.weights, at, len, zero, zero);
            tap_sum_absorbs(input, f2.weights, at, len, first[at], zero);
        }
    }
    assert(second =~= joint);
    assert forall|c: int| 0 <= c < both.carry.len() implies fir_carry(both, input)[c] == summed(
        fir_carry(f1, input),
        fir_carry(f2, input),
    )[c] by {
        tap_sum_adds(input, f1.weights, f2.weights, len + c, len, zero, zero);
    }
    assert(fir_carry(both, input) =~= summed(fir_carry(f1, input), fir_carry(f2, input)));
}

/// Carry continuity. With exact arithmetic, processing a signal as two
/// consecutive blocks gives the output and leaves the carry that processing
/// it as one block does. Any division of a signal into blocks is reached by
/// splitting again.
pub proof fn fir_block_split<S: Exact>(
    f: FirModel<S>,
    first: Seq<S>,
    second: Seq<S>,
    out_first: Seq<S>,
    out_second: Seq<S>,
)
    requires
        fir_wf(f),
        first.len() >= f.weights.len(),
        second.len() >= f.weights.len(),
        out_first.len() == first.len(),
        out_second.len() == second.len(),
    ensures
        fir_output(f, first + second, out_first + out_second) == fir_output(f, first, out_first)
            + fir_output(fir_after(f, first), second, out_second),
        fir_carry(f, first + second) == fir_carry(fir_after(f, first), second),
{
    let w = f.weights;
    let n = w.len() as int;
    let l1 = first.len() as int;
    let l2 = second.len() as int;
    let whole_in = first + second;
    let whole_out = out_first + out_second;
    let zero = S::zero_spec();
    let mid = fir_after(f, first);
    let one_block = fir_output(f, whole_in, whole_out);
    let two_blocks = fir_output(f, first, out_first) + fir_output(mid, second, out_second);
    assert forall|at: int| 0 <= at < l1 + l2 implies one_block[at] == two_blocks[at] by {
        if at < l1 {
            let start = fir_start(f, out_first, at);
            assert(fir_start(f, whole_out, at) == start);
            tap_sum_outside(whole_in, w, at, l1, l1 + l2, start);
            tap_sum_prefix(whole_in, first, w, at, l1, start);
        } else {
            let rel = at - l1;
            let start = out_second[rel];
            assert(fir_start(f, whole_out, at) == start);
            tap_sum_split(first, second, w, at, l2, start);
            if rel < mid.carry.len() {
                S::plus_zero(start);
                tap_sum_absorbs(first, w, at, l1, start, zero);
            } else {
                tap_sum_outside(first, w, at, 0, l1, start);
            }
        }
    }
    assert(one_block =~= two_blocks);
    assert forall|c: int| 0 <= c < f.carry.len() implies fir_carry(f, whole_in)[c] == fir_carry(
        mid,
        second,
    )[c] by {
        tap_sum_split(first, second, w, l1 + l2 + c, l2, zero);
        tap_sum_outside(first, w, l1 + l2 + c, 0, l1, zero);
    }
    assert(fir_carry(f, whole_in) =~= fir_carry(mid, second));
}

/// The signal that consecutive blocks make up.
pub open spec fn joined<S>(blocks: Seq<Seq<S>>) -> Seq<S>
    decreases blocks.len(),
{
    if blocks.len() == 0 {
        Seq::empty()
    } else {
        joined(blocks.drop_last()) + blocks.last()
    }
}

/// The filter after it has processed `blocks` one after the other, each on
/// top of its own output block, and the output blocks joined.
pub open spec fn fir_blockwise<S: Sample>(
    m: FirModel<S>,
    blocks: Seq<Seq<S>>,
    outs: Seq<Seq<S>>,
) -> (FirModel<S>, Seq<S>)
    decreases blocks.len(),
{
    if blocks.len() == 0 {
        (m, Seq::empty())
    } else {
        let before = fir_blockwise(m, blocks.drop_last(), outs.drop_last());
        (
            fir_after(before.0, blocks.last()),
            before.1 + fir_output(before.0, blocks.last(), outs.last()),
        )
    }
}

/// Blocks and output blocks of the same lengths join to signals of the same
/// length, which is at least that of the last block.
pub proof fn joined_len<S>(blocks: Seq<Seq<S>>, outs: Seq<Seq<S>>)
    requires
        outs.len() == blocks.len(),
        forall|k: int| 0 <= k < blocks.len() ==> (#[trigger] outs[k]).len() == blocks[k].len(),
    ensures
        joined(outs).len() == joined(blocks).len(),
        blocks.len() > 0 ==> joined(blocks).len() >= blocks.last().len(),
    decreases blocks.len(),
{
    if blocks.len() > 0 {
        joined_len(blocks.drop_last(), outs.drop_last());
        assert(outs.last().len() == blocks.last().len());
    }
}

/// Carry continuity over any number of blocks. With exact arithmetic,
/// processing a signal block by block, whatever the sizes of the blocks as
/// long as each holds the filter, gives the output and leaves the filter
/// that processing the whole signal as one block does.
pub proof fn fir_blocks_join<S: Exact>(m: FirModel<S>, blocks: Seq<Seq<S>>, outs: Seq<Seq<S>>)
    requires
        fir_wf(m),
        blocks.len() >= 1,
        outs.len() == blocks.len(),
        forall|k: int|
            0 <= k < blocks.len() ==> (#[trigger] blocks[k]).len() >= m.weights.len()
                && outs[k].len() == blocks[k].len(),
    ensures
        fir_blockwise(m, blocks, outs) == (
            fir_after(m, joined(blocks)),
            fir_output(m, joined(blocks), joined(outs)),
        ),
    decreases blocks.len(),
{
    let head = blocks.drop_last();
    let head_outs = outs.drop_last();
    let last = blocks.last();
    let last_out = outs.last();
    assert(last.len() >= m.weights.len() && last_out.len() == last.len());
    if blocks.len() == 1 {
        assert(joined(head) =~= Seq::<S>::empty());
        assert(joined(head_outs) =~= Seq::<S>::empty());
        assert(joined(blocks) =~= last);
        assert(joined(outs) =~= last_out);
        assert(fir_blockwise(m, head, head_outs) == (m, Seq::<S>::empty()));
        assert(Seq::<S>::empty() + fir_output(m, last, last_out) =~= fir_output(m, last, last_out));
    } else {
        assert forall|k: int| 0 <= k < head.len() implies (#[trigger] head[k]).len()
            >= m.weights.len() && head_outs[k].len() == head[k].len() by {
            assert(head[k] == blocks[k] && head_outs[k] == outs[k]);
        }
        fir_blocks_join(m, head, head_outs);
        assert forall|k: int| 0 <= k < head.len() implies (#[trigger] head_outs[k]).len()
            == head[k].len() by {
            assert(head[k] == blocks[k] && head_outs[k] == outs[k]);
        }
        joined_len(head, head_outs);
        assert(head.last().len() >= m.weights.len()) by {
            assert(head.last() == blocks[head.len() - 1]);
        }
        fir_block_split(m, joined(head), last, joined(head_outs), last_out);
    }
}

} // verus!
