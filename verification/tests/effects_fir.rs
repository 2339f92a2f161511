use mixjack::effects::{Effect, FIRFilter};
use mixjack::sample::Sample;

#[derive(Clone, Copy, Debug, PartialEq)]
struct F(f32);

impl Sample for F {
    fn zero_spec() -> Self {
        Self::zero()
    }
    fn one_spec() -> Self {
        Self::one()
    }
    fn plus_spec(self, rhs: Self) -> Self {
        self.plus(rhs)
    }
    fn minus_spec(self, rhs: Self) -> Self {
        self.minus(rhs)
    }
    fn times_spec(self, rhs: Self) -> Self {
        self.times(rhs)
    }
    fn over_spec(self, rhs: Self) -> Self {
        self.over(rhs)
    }
    fn root_spec(self) -> Self {
        self.root()
    }
    fn magnitude_spec(self) -> Self {
        self.magnitude()
    }
    fn same_spec(self, rhs: Self) -> bool {
        self.same(rhs)
    }
    fn below_spec(self, rhs: Self) -> bool {
        self.below(rhs)
    }
    fn from_count_spec(n: usize) -> Self {
        Self::from_count(n)
    }
    fn zero() -> Self {
        F(0.0)
    }
    fn one() -> Self {
        F(1.0)
    }
    fn plus(self, rhs: Self) -> Self {
        F(self.0 + rhs.0)
    }
    fn minus(self, rhs: Self) -> Self {
        F(self.0 - rhs.0)
    }
    fn times(self, rhs: Self) -> Self {
        F(self.0 * rhs.0)
    }
    fn over(self, rhs: Self) -> Self {
        F(self.0 / rhs.0)
    }
    fn root(self) -> Self {
        F(self.0.sqrt())
    }
    fn magnitude(self) -> Self {
        F(self.0.abs())
    }
    fn same(self, rhs: Self) -> bool {
        self.0 == rhs.0
    }
    fn below(self, rhs: Self) -> bool {
        self.0 < rhs.0
    }
    fn from_count(n: usize) -> Self {
        F(n as f32)
    }
}

/// A small linear congruential generator, for signals that look random.
fn noise(len: usize) -> Vec<i64> {
    let mut state: u64 = 0x2545_f491_4f6c_dd1d;
    let mut out = Vec::with_capacity(len);
    for _ in 0..len {
        state = state.wrapping_mul(6364136223846793005).wrapping_add(1442695040888963407);
        out.push(((state >> 40) as i64 % 2001) - 1000);
    }
    out
}

/// The full convolution of `x` with `w`, cut to the length of `x`.
fn convolve(x: &[i64], w: &[i64]) -> Vec<i64> {
    let mut out = vec![0i64; x.len()];
    for (i, xi) in x.iter().enumerate() {
        for (k, wk) in w.iter().enumerate() {
            if i + k < x.len() {
                out[i + k] += xi * wk;
            }
        }
    }
    out
}

#[test]
fn fir_passthru_leaves_the_signal_alone() {
    let mut filter: FIRFilter<i64> = FIRFilter::passthru();
    let input = vec![3, -1, 4, 1, -5];
    let mut output = vec![0i64; 5];
    filter.apply(&input, &mut output);
    assert_eq!(output, input);
    assert_eq!(filter.len(), 1);
    assert_eq!(filter.carry(), Vec::<i64>::new());
}

#[test]
fn fir_adds_to_what_the_output_holds() {
    let mut filter: FIRFilter<i64> = FIRFilter::new(vec![2]);
    let mut output = vec![10i64, 20, 30];
    filter.apply(&[1, 2, 3], &mut output);
    assert_eq!(output, vec![12, 24, 36]);
}

#[test]
fn fir_carries_the_tail_into_the_next_block() {
    let mut filter: FIRFilter<i64> = FIRFilter::new(vec![1, 2, 3]);
    let mut first = vec![0i64; 4];
    filter.apply(&[0, 0, 0, 1], &mut first);
    assert_eq!(first, vec![0, 0, 0, 1]);
    assert_eq!(filter.carry(), vec![2, 3]);
    let mut second = vec![0i64; 4];
    filter.apply(&[0, 0, 0, 0], &mut second);
    assert_eq!(second, vec![2, 3, 0, 0]);
    assert_eq!(filter.carry(), vec![0, 0]);
}

#[test]
fn fir_block_as_long_as_the_filter() {
    let mut filter: FIRFilter<i64> = FIRFilter::new(vec![1, 10, 100]);
    let mut output = vec![0i64; 3];
    filter.apply(&[1, 2, 3], &mut output);
    assert_eq!(output, vec![1, 12, 123]);
    assert_eq!(filter.carry(), vec![230, 300]);
}

#[test]
fn fir_two_filters_add_up_to_the_filter_of_their_sum() {
    let w1 = vec![1i64, -2, 3, 7, 0];
    let w2 = vec![4i64, 5, -6, 1, 9];
    let sum: Vec<i64> = w1.iter().zip(w2.iter()).map(|(a, b)| a + b).collect();
    let input = noise(64);
    let mut f1 = FIRFilter::new(w1);
    let mut f2 = FIRFilter::new(w2);
    let mut both = FIRFilter::new(sum);
    let mut one_after_the_other = vec![0i64; 64];
    f1.apply(&input, &mut one_after_the_other);
    f2.apply(&input, &mut one_after_the_other);
    let mut at_once = vec![0i64; 64];
    both.apply(&input, &mut at_once);
    assert_eq!(one_after_the_other, at_once);
    let carries: Vec<i64> = f1.carry().iter().zip(f2.carry().iter()).map(|(a, b)| a + b).collect();
    assert_eq!(both.carry(), carries);
}

#[test]
fn fir_block_sizes_do_not_change_the_output() {
    let weights = vec![3i64, -1, 4, 1, -5, 9, 2];
    let signal = noise(64 + 128 + 256);
    let mut whole = FIRFilter::new(weights.clone());
    let mut expected = vec![0i64; signal.len()];
    whole.apply(&signal, &mut expected);
    assert_eq!(expected, convolve(&signal, &weights));

    let mut blockwise = FIRFilter::new(weights);
    let mut got = Vec::new();
    let mut start = 0;
    for size in [64, 128, 256] {
        let mut out = vec![0i64; size];
        blockwise.apply(&signal[start..start + size], &mut out);
        got.extend(out);
        start += size;
    }
    assert_eq!(got, expected);
    assert_eq!(blockwise.carry(), whole.carry());
}

#[test]
fn fir_block_sizes_do_not_change_the_output_in_floats() {
    let weights: Vec<F> = [0.25f32, 0.5, 0.125, -0.0625, 0.03125].iter().map(|w| F(*w)).collect();
    let signal: Vec<F> = noise(448).iter().map(|v| F(*v as f32 / 1000.0)).collect();
    let mut whole = FIRFilter::new(weights.clone());
    let mut expected = vec![F(0.0); signal.len()];
    whole.apply(&signal, &mut expected);
    let mut blockwise = FIRFilter::new(weights);
    let mut got = Vec::new();
    let mut start = 0;
    for size in [64, 128, 256] {
        let mut out = vec![F(0.0); size];
        blockwise.apply(&signal[start..start + size], &mut out);
        got.extend(out);
        start += size;
    }
    for (a, b) in got.iter().zip(expected.iter()) {
        assert!((a.0 - b.0).abs() < 1e-5);
    }
}

#[test]
fn fir_set_gain_rescales_the_original_weights() {
    let mut filter: FIRFilter<i64> = FIRFilter::new(vec![1, 2, 3]);
    filter.set_gain(5);
    assert_eq!(filter.weights(), vec![5, 10, 15]);
    filter.set_gain(2);
    assert_eq!(filter.weights(), vec![2, 4, 6]);
    assert_eq!(filter.debug_weights(), vec![1, 2, 3]);
    assert_eq!(filter.gain(), 2);
}

#[test]
fn fir_set_gain_twice_is_set_gain_once() {
    let weights: Vec<F> = [0.1f32, 0.7, 0.3333].iter().map(|w| F(*w)).collect();
    let mut once = FIRFilter::new(weights.clone());
    let mut twice = FIRFilter::new(weights);
    once.set_gain(F(0.3));
    twice.set_gain(F(0.3));
    twice.set_gain(F(0.3));
    let a: Vec<u32> = once.weights().iter().map(|w| w.0.to_bits()).collect();
    let b: Vec<u32> = twice.weights().iter().map(|w| w.0.to_bits()).collect();
    assert_eq!(a, b);
}

#[test]
fn fir_set_gain_to_the_gain_it_has_changes_nothing() {
    let mut filter: FIRFilter<i64> = FIRFilter::new(vec![4, 5]);
    filter.set_gain(1);
    assert_eq!(filter.weights(), vec![4, 5]);
}

#[test]
fn fir_zero_gain_adds_nothing() {
    let mut filter: FIRFilter<i64> = FIRFilter::new(vec![4, 5, 6]);
    filter.set_gain(0);
    let mut output = vec![7i64, 8, 9, 10];
    filter.apply(&[1, 2, 3, 4], &mut output);
    assert_eq!(output, vec![7, 8, 9, 10]);
}

#[test]
fn fir_from_taps_makes_the_length_odd() {
    let filter: FIRFilter<i64> = FIRFilter::from_taps(4, 100, &|len, i| (len * 10 + i) as i64);
    assert_eq!(filter.debug_weights(), vec![50, 51, 100, 53, 54]);
    let odd: FIRFilter<i64> = FIRFilter::from_taps(3, 9, &|_, i| i as i64);
    assert_eq!(odd.debug_weights(), vec![0, 9, 2]);
    let one: FIRFilter<i64> = FIRFilter::from_taps(0, 9, &|_, i| i as i64);
    assert_eq!(one.debug_weights(), vec![9]);
}

#[test]
fn fir_debug_window_tabulates_the_window() {
    let filter: FIRFilter<i64> = FIRFilter::new(vec![0, 0, 0]);
    assert_eq!(filter.debug_window(&|len, i| (len * i) as i64), vec![0, 3, 6]);
}

#[test]
fn fir_additivity_survives_wrap_around() {
    let w1 = vec![i64::MAX, 3, i64::MIN];
    let w2 = vec![i64::MAX - 7, -5, 11];
    let sum: Vec<i64> = w1.iter().zip(w2.iter()).map(|(a, b)| a.wrapping_add(*b)).collect();
    let input = vec![i64::MAX, -2, 12345678901234, i64::MIN, 7];
    let mut f1 = FIRFilter::new(w1);
    let mut f2 = FIRFilter::new(w2);
    let mut both = FIRFilter::new(sum);
    let mut one_after_the_other = vec![0i64; 5];
    f1.apply(&input, &mut one_after_the_other);
    f2.apply(&input, &mut one_after_the_other);
    let mut at_once = vec![0i64; 5];
    both.apply(&input, &mut at_once);
    assert_eq!(one_after_the_other, at_once);
}

#[test]
fn fir_clone_carries_its_own_state() {
    let mut filter: FIRFilter<i64> = FIRFilter::new(vec![1, 2, 3]);
    let mut out = vec![0i64; 3];
    filter.apply(&[0, 0, 1], &mut out);
    let mut copy = filter.clone();
    assert_eq!(copy.carry(), vec![2, 3]);
    let mut a = vec![0i64; 3];
    let mut b = vec![0i64; 3];
    filter.apply(&[0, 0, 0], &mut a);
    assert_eq!(copy.carry(), vec![2, 3]);
    copy.apply(&[0, 0, 0], &mut b);
    assert_eq!(a, b);
}
