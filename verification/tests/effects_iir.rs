use mixjack::effects::{Effect, IIRFilter};
use mixjack::sample::Sample;

#[derive(Clone, Copy, Debug, PartialEq)]
struct F(f32);

impl Sample for F {
    fn zero_spec() -> Self {
        Self::zero()
    }
    fn one_spec() -> Self {
        Self::one()
    }
    fn plus_spec(self, rhs: Self) -> Self {
        self.plus(rhs)
    }
    fn minus_spec(self, rhs: Self) -> Self {
        self.minus(rhs)
    }
    fn times_spec(self, rhs: Self) -> Self {
        self.times(rhs)
    }
    fn over_spec(self, rhs: Self) -> Self {
        self.over(rhs)
    }
    fn root_spec(self) -> Self {
        self.root()
    }
    fn magnitude_spec(self) -> Self {
        self.magnitude()
    }
    fn same_spec(self, rhs: Self) -> bool {
        self.same(rhs)
    }
    fn below_spec(self, rhs: Self) -> bool {
        self.below(rhs)
    }
    fn from_count_spec(n: usize) -> Self {
        Self::from_count(n)
    }
    fn zero() -> Self {
        F(0.0)
    }
    fn one() -> Self {
        F(1.0)
    }
    fn plus(self, rhs: Self) -> Self {
        F(self.0 + rhs.0)
    }
    fn minus(self, rhs: Self) -> Self {
        F(self.0 - rhs.0)
    }
    fn times(self, rhs: Self) -> Self {
        F(self.0 * rhs.0)
    }
    fn over(self, rhs: Self) -> Self {
        F(self.0 / rhs.0)
    }
    fn root(self) -> Self {
        F(self.0.sqrt())
    }
    fn magnitude(self) -> Self {
        F(self.0.abs())
    }
    fn same(self, rhs: Self) -> bool {
        self.0 == rhs.0
    }
    fn below(self, rhs: Self) -> bool {
        self.0 < rhs.0
    }
    fn from_count(n: usize) -> Self {
        F(n as f32)
    }
}

/// The recursion `y[n] = sum a[k] x[n-k] + sum b[k] y[n-1-k]`, sample by sample.
fn recursion(x: &[i64], a: &[i64], b: &[i64]) -> Vec<i64> {
    let mut y = vec![0i64; x.len()];
    for n in 0..x.len() {
        let mut acc = 0i64;
        for k in 0..a.len() {
            if n >= k {
                acc += a[k] * x[n - k];
            }
        }
        for k in 0..b.len() {
            if n >= k + 1 {
                acc += b[k] * y[n - 1 - k];
            }
        }
        y[n] = acc;
    }
    y
}

#[test]
fn iir_passthru_leaves_the_signal_alone() {
    let mut filter: IIRFilter<i64> = IIRFilter::passthru(4);
    let input = vec![3, -1, 4, 1];
    let mut output = vec![0i64; 4];
    filter.apply(&input, &mut output);
    assert_eq!(output, input);
    assert_eq!(filter.len(), 2);
}

#[test]
fn iir_single_pole_feeds_its_output_back() {
    // y[n] = x[n] + 2 y[n-1]
    let mut filter: IIRFilter<i64> = IIRFilter::single_pole(1, 0, 2, 4);
    let mut output = vec![0i64; 4];
    filter.apply(&[1, 0, 0, 0], &mut output);
    assert_eq!(output, vec![1, 2, 4, 8]);
    assert_eq!(filter.carry(), vec![16]);
    let mut next = vec![0i64; 4];
    filter.apply(&[0, 0, 0, 0], &mut next);
    assert_eq!(next, vec![16, 32, 64, 128]);
}

#[test]
fn iir_adds_to_what_the_output_holds() {
    let mut filter: IIRFilter<i64> = IIRFilter::single_pole(1, 1, 0, 3);
    let mut output = vec![100i64, 100, 100];
    filter.apply(&[1, 2, 3], &mut output);
    assert_eq!(output, vec![101, 103, 105]);
    assert_eq!(filter.carry(), vec![3]);
}

#[test]
fn iir_two_poles_follow_the_recursion_across_blocks() {
    let a = vec![2i64, -1, 3];
    let b = vec![1i64, -1];
    let signal: Vec<i64> = (0..24).map(|n| ((n * 7 + 3) % 11) as i64 - 5).collect();
    let expected = recursion(&signal, &a, &b);
    let mut filter = IIRFilter::new(a, b, 8);
    let mut got = Vec::new();
    for block in signal.chunks(8) {
        let mut out = vec![0i64; 8];
        filter.apply(block, &mut out);
        got.extend(out);
    }
    assert_eq!(got, expected);
}

#[test]
fn iir_resizes_for_a_block_of_another_length() {
    let mut filter: IIRFilter<i64> = IIRFilter::single_pole(1, 0, 1, 2);
    let mut output = vec![0i64; 5];
    filter.apply(&[1, 1, 1, 1, 1], &mut output);
    assert_eq!(output, vec![1, 2, 3, 4, 5]);
}

#[test]
fn iir_set_gain_rescales_both_sets_of_weights() {
    let mut filter: IIRFilter<i64> = IIRFilter::single_pole(1, 2, 3, 4);
    filter.set_gain(2);
    assert_eq!(filter.gain(), 2);
    // y[n] = 2 x[n] + 4 x[n-1] + 6 y[n-1]
    let mut output = vec![0i64; 3];
    filter.apply(&[1, 0, 0], &mut output);
    assert_eq!(output, vec![2, 16, 96]);
}

#[test]
fn iir_set_gain_twice_is_set_gain_once() {
    let mut once: IIRFilter<F> = IIRFilter::single_pole(F(0.3), F(0.1), F(0.9), 4);
    let mut twice: IIRFilter<F> = IIRFilter::single_pole(F(0.3), F(0.1), F(0.9), 4);
    once.set_gain(F(0.7));
    twice.set_gain(F(0.7));
    twice.set_gain(F(0.7));
    let input = [F(1.0), F(0.5), F(-0.25), F(0.125)];
    let mut a = vec![F(0.0); 4];
    let mut b = vec![F(0.0); 4];
    once.apply(&input, &mut a);
    twice.apply(&input, &mut b);
    let a: Vec<u32> = a.iter().map(|v| v.0.to_bits()).collect();
    let b: Vec<u32> = b.iter().map(|v| v.0.to_bits()).collect();
    assert_eq!(a, b);
}
