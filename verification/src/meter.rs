//! Level metering: running peak and sum of squares of a channel's input and
//! output, accumulated sample by sample and read out once per metering
//! interval.
use crate::data::Metering;
use crate::sample::Sample;
use vstd::prelude::*;

verus! {

/// The larger of the peak so far and the magnitude of `val`.
pub open spec fn peak_with<S: Sample>(peak: S, val: S) -> S {
    if peak.below_spec(val.magnitude_spec()) {
        val.magnitude_spec()
    } else {
        peak
    }
}

/// The sum of squares so far with the square of `val` added.
pub open spec fn squares_with<S: Sample>(sum: S, val: S) -> S {
    sum.plus_spec(val.times_spec(val))
}

/// The peak after each sample of `block` in turn.
pub open spec fn peak_over<S: Sample>(peak: S, block: Seq<S>) -> S
    decreases block.len(),
{
    if block.len() == 0 {
        peak
    } else {
        peak_with(peak_over(peak, block.drop_last()), block.last())
    }
}

/// The sum of squares after each sample of `block` in turn.
pub open spec fn squares_over<S: Sample>(sum: S, block: Seq<S>) -> S
    decreases block.len(),
{
    if block.len() == 0 {
        sum
    } else {
        squares_with(squares_over(sum, block.drop_last()), block.last())
    }
}

/// The root of the mean of `count` squares that add up to `sum`.
pub open spec fn root_mean<S: Sample>(sum: S, count: usize) -> S {
    sum.over_spec(S::from_count_spec(count)).root_spec()
}

/// Folds one sample into a peak.
pub fn track_peak<S: Sample>(peak: S, val: S) -> (r: S)
    ensures
        r == peak_with(peak, val),
{
    let size = val.magnitude();
    if peak.below(size) {
        size
    } else {
        peak
    }
}

/// Accumulates the levels of one channel over a metering interval.
#[derive(Debug, Copy, Clone)]
pub struct MeterAcc<S> {
    pub sum_squares_in: S,
    pub max_in: S,
    pub sum_squares_out: S,
    pub max_out: S,
}

impl<S: Sample> MeterAcc<S> {
    /// An accumulator that has seen nothing.
    pub open spec fn empty() -> Self {
        MeterAcc {
            sum_squares_in: S::zero_spec(),
            max_in: S::zero_spec(),
            sum_squares_out: S::zero_spec(),
            max_out: S::zero_spec(),
        }
    }

    /// The accumulator after the samples of `block` on the input side.
    pub open spec fn with_input(self, block: Seq<S>) -> Self {
        MeterAcc {
            sum_squares_in: squares_over(self.sum_squares_in, block),
            max_in: peak_over(self.max_in, block),
            ..self
        }
    }

    /// The accumulator after the samples of `block` on the output side.
    pub open spec fn with_output(self, block: Seq<S>) -> Self {
        MeterAcc {
            sum_squares_out: squares_over(self.sum_squares_out, block),
            max_out: peak_over(self.max_out, block),
            ..self
        }
    }

    /// The levels over an interval of `count` samples.
    pub open spec fn levels(self, count: usize) -> Metering<S> {
        Metering {
            max_in: self.max_in,
            rms_in: root_mean(self.sum_squares_in, count),
            max_out: self.max_out,
            rms_out: root_mean(self.sum_squares_out, count),
        }
    }

    pub fn new() -> (r: Self)
        ensures
            r == Self::empty(),
    {
        MeterAcc {
            sum_squares_in: S::zero(),
            max_in: S::zero(),
            sum_squares_out: S::zero(),
            max_out: S::zero(),
        }
    }

    /// Takes one input sample into account.
    pub fn sample_in(&mut self, val: S)
        ensures
            *final(self) == (MeterAcc {
                sum_squares_in: squares_with(old(self).sum_squares_in, val),
                max_in: peak_with(old(self).max_in, val),
                ..*old(self)
            }),
    {
        self.max_in = track_peak(self.max_in, val);
        self.sum_squares_in = self.sum_squares_in.plus(val.times(val));
    }

    /// Takes one output sample into account.
    pub fn sample_out(&mut self, val: S)
        ensures
            *final(self) == (MeterAcc {
                sum_squares_out: squares_with(old(self).sum_squares_out, val),
                max_out: peak_with(old(self).max_out, val),
                ..*old(self)
            }),
    {
        self.max_out = track_peak(self.max_out, val);
        self.sum_squares_out = self.sum_squares_out.plus(val.times(val));
    }

    /// Takes a block of input samples into account, first to last.
    pub fn block_in(&mut self, block: &[S])
        ensures
            *final(self) == old(self).with_input(block@),
    {
        let mut i: usize = 0;
        while i < block.len()
            invariant
                i <= block.len(),
                *self == old(self).with_input(block@.take(i as int)),
            decreases block.len() - i,
        {
            self.sample_in(block[i]);
            assert(block@.take(i + 1).drop_last() =~= block@.take(i as int));
            i += 1;
        }
        assert(block@.take(block@.len() as int) =~= block@);
    }

    /// Takes a block of output samples into account, first to last.
    pub fn block_out(&mut self, block: &[S])
        ensures
            *final(self) == old(self).with_output(block@),
    {
        let mut i: usize = 0;
        while i < block.len()
            invariant
                i <= block.len(),
                *self == old(self).with_output(block@.take(i as int)),
            decreases block.len() - i,
        {
            self.sample_out(block[i]);
            assert(block@.take(i + 1).drop_last() =~= block@.take(i as int));
            i += 1;
        }
        assert(block@.take(block@.len() as int) =~= block@);
    }

    /// The peaks as they stand, and the root mean square of the `count`
    /// samples accumulated on each side.
    pub fn as_metering(&self, count: usize) -> (r: Metering<S>)
        ensures
            r == self.levels(count),
    {
        let n = S::from_count(count);
        Metering {
            max_in: self.max_in,
            rms_in: self.sum_squares_in.over(n).root(),
            max_out: self.max_out,
            rms_out: self.sum_squares_out.over(n).root(),
        }
    }

    /// Starts a new interval.
    pub fn clear(&mut self)
        ensures
            *final(self) == Self::empty(),
    {
        self.max_in = S::zero();
        self.sum_squares_in = S::zero();
        self.max_out = S::zero();
        self.sum_squares_out = S::zero();
    }
}

} // verus!
