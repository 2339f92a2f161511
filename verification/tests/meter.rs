use mixjack::meter::{track_peak, MeterAcc};
use mixjack::effects::{Band, FIRFilter, IIRFilter};
use mixjack::ports::{mix_bus, mix_strip, ChanInfo, ChanInfoBuilder};
use mixjack::sample::Sample;

#[derive(Clone, Copy, Debug, PartialEq)]
struct F(f32);

impl Sample for F {
    fn zero_spec() -> Self {
        Self::zero()
    }
    fn one_spec() -> Self {
        Self::one()
    }
    fn plus_spec(self, rhs: Self) -> Self {
        self.plus(rhs)
    }
    fn minus_spec(self, rhs: Self) -> Self {
        self.minus(rhs)
    }
    fn times_spec(self, rhs: Self) -> Self {
        self.times(rhs)
    }
    fn over_spec(self, rhs: Self) -> Self {
        self.over(rhs)
    }
    fn root_spec(self) -> Self {
        self.root()
    }
    fn magnitude_spec(self) -> Self {
        self.magnitude()
    }
    fn same_spec(self, rhs: Self) -> bool {
        self.same(rhs)
    }
    fn below_spec(self, rhs: Self) -> bool {
        self.below(rhs)
    }
    fn from_count_spec(n: usize) -> Self {
        Self::from_count(n)
    }
    fn zero() -> Self {
        F(0.0)
    }
    fn one() -> Self {
        F(1.0)
    }
    fn plus(self, rhs: Self) -> Self {
        F(self.0 + rhs.0)
    }
    fn minus(self, rhs: Self) -> Self {
        F(self.0 - rhs.0)
    }
    fn times(self, rhs: Self) -> Self {
        F(self.0 * rhs.0)
    }
    fn over(self, rhs: Self) -> Self {
        F(self.0 / rhs.0)
    }
    fn root(self) -> Self {
        F(self.0.sqrt())
    }
    fn magnitude(self) -> Self {
        F(self.0.abs())
    }
    fn same(self, rhs: Self) -> bool {
        self.0 == rhs.0
    }
    fn below(self, rhs: Self) -> bool {
        self.0 < rhs.0
    }
    fn from_count(n: usize) -> Self {
        F(n as f32)
    }
}

#[test]
fn meter_constant_signal_reads_its_amplitude() {
    let mut acc: MeterAcc<F> = MeterAcc::new();
    let block = vec![F(0.5); 256];
    for _ in 0..3 {
        acc.block_in(&block);
        acc.block_out(&block);
    }
    let levels = acc.as_metering(3 * 256);
    assert!((levels.rms_in.0 - 0.5).abs() < 1e-6);
    assert!((levels.rms_out.0 - 0.5).abs() < 1e-6);
    assert_eq!(levels.max_in, F(0.5));
    assert_eq!(levels.max_out, F(0.5));
    acc.clear();
    assert_eq!(acc.max_in, F(0.0));
    assert_eq!(acc.max_out, F(0.0));
    assert_eq!(acc.sum_squares_in, F(0.0));
    assert_eq!(acc.sum_squares_out, F(0.0));
    let cleared = acc.as_metering(1);
    assert_eq!(cleared.rms_in, F(0.0));
    assert_eq!(cleared.max_out, F(0.0));
}

#[test]
fn meter_keeps_input_and_output_apart() {
    let mut acc: MeterAcc<i64> = MeterAcc::new();
    acc.sample_in(3);
    acc.sample_in(-4);
    acc.sample_out(2);
    assert_eq!(acc.sum_squares_in, 25);
    assert_eq!(acc.max_in, 4);
    assert_eq!(acc.sum_squares_out, 4);
    assert_eq!(acc.max_out, 2);
    let levels = acc.as_metering(1);
    assert_eq!(levels.rms_in, 5);
    assert_eq!(levels.rms_out, 2);
    assert_eq!(levels.max_in, 4);
    assert_eq!(levels.max_out, 2);
}

#[test]
fn meter_root_mean_square_divides_by_the_count() {
    let mut acc: MeterAcc<i64> = MeterAcc::new();
    acc.block_in(&[6, 6, 6, 6]);
    // 144 / 4 = 36
    assert_eq!(acc.as_metering(4).rms_in, 6);
    // the count is the caller's: 144 / 9 = 16
    assert_eq!(acc.as_metering(9).rms_in, 4);
}

#[test]
fn meter_peak_is_the_largest_magnitude() {
    assert_eq!(track_peak(3i64, -7), 7);
    assert_eq!(track_peak(8i64, -7), 8);
    assert_eq!(track_peak(F(0.25), F(-0.75)), F(0.75));
}

#[test]
fn chan_info_builder_sums_squares_and_tracks_the_peak() {
    let mut builder: ChanInfoBuilder<i64> = ChanInfoBuilder::new();
    builder.sample(2);
    builder.sample(-9);
    builder.sample(1);
    let info = builder.into_chan_info(3);
    assert_eq!(info.sum_squares, 86);
    assert_eq!(info.max, 9);
    assert_eq!(info.count, 3);
}

fn three_bands() -> Vec<Band<i64>> {
    vec![
        Band::Iir(IIRFilter::single_pole(1, 0, 0, 4)),
        Band::Iir(IIRFilter::single_pole(0, 1, 0, 4)),
        Band::Fir(FIRFilter::new(vec![0, 0, 1])),
    ]
}

#[test]
fn mix_bus_sums_what_the_inputs_contribute() {
    let mut bus = vec![0i64; 4];
    let mut first = three_bands();
    let mut second = three_bands();
    let mut info_first = ChanInfoBuilder::new();
    let mut info_second = ChanInfoBuilder::new();
    // band gains 1, 10 and 100 at volume 2: x[n] * 2 + x[n-1] * 20 + x[n-2] * 200
    mix_strip(2, &[1, 10, 100], false, &mut first, &[1, 2, 3, 4], &mut bus, &mut info_first);
    assert_eq!(bus, vec![2, 24, 246, 468]);
    // filters switched off: the samples times the volume
    mix_strip(3, &[1, 10, 100], true, &mut second, &[5, 5, 5, -9], &mut bus, &mut info_second);
    assert_eq!(bus, vec![17, 39, 261, 441]);
    assert_eq!(info_first.max, 4);
    assert_eq!(info_first.sum_squares, 30);
    assert_eq!(info_second.max, 9);
    assert_eq!(info_second.sum_squares, 156);
    // the first input's filters carry their tails into the next block
    let mut next = vec![0i64; 4];
    mix_strip(2, &[1, 10, 100], false, &mut first, &[0, 0, 0, 0], &mut next, &mut info_first);
    assert_eq!(next, vec![680, 800, 0, 0]);
    // the second input's filters have their gains but have not run
    mix_strip(3, &[1, 10, 100], false, &mut second, &[0, 0, 0, 0], &mut next, &mut info_second);
    assert_eq!(next, vec![680, 800, 0, 0]);
}

#[test]
fn mix_bus_input_at_volume_zero_contributes_nothing() {
    let mut bus = vec![7i64, 8, 9, 10];
    let mut bands = three_bands();
    let mut info = ChanInfoBuilder::new();
    mix_strip(0, &[1, 1, 1], false, &mut bands, &[1, 2, 3, 4], &mut bus, &mut info);
    assert_eq!(bus, vec![7, 8, 9, 10]);
    mix_strip(0, &[1, 1, 1], true, &mut bands, &[1, 2, 3, 4], &mut bus, &mut info);
    assert_eq!(bus, vec![7, 8, 9, 10]);
    assert_eq!(info.max, 0);
    assert_eq!(info.sum_squares, 0);
    // nothing was left in the filters
    mix_strip(1, &[1, 1, 1], false, &mut bands, &[0, 0, 0, 0], &mut bus, &mut info);
    assert_eq!(bus, vec![7, 8, 9, 10]);
}

#[test]
fn chan_info_builder_takes_blocks() {
    let mut builder: ChanInfoBuilder<i64> = ChanInfoBuilder::new();
    builder.block(&[1, -2, 3]);
    builder.block(&[]);
    assert_eq!((builder.sum_squares, builder.max), (14, 3));
}

#[test]
fn mix_bus_starts_from_silence_and_reports_on_every_input() {
    let mut bus = vec![99i64; 4];
    let mut strips = vec![three_bands(), three_bands(), three_bands()];
    let inputs = vec![vec![1i64, 2, 3, 4], vec![5, 5, 5, -9], vec![7, 7, 7, 7]];
    let gains = vec![vec![1i64, 10, 100]; 3];
    let reports = mix_bus(&[2, 3, 0], &gains, &[false, true, false], &mut strips, &inputs, &mut bus);
    assert_eq!(bus, vec![17, 39, 261, 441]);
    assert_eq!(
        reports,
        vec![
            ChanInfo { sum_squares: 30, count: 4, max: 4 },
            ChanInfo { sum_squares: 156, count: 4, max: 9 },
            ChanInfo { sum_squares: 0, count: 4, max: 0 },
        ]
    );
    // the next block hears the first input's tail only
    let quiet = vec![vec![0i64; 4]; 3];
    let reports = mix_bus(&[2, 3, 1], &gains, &[false, false, false], &mut strips, &quiet, &mut bus);
    assert_eq!(bus, vec![680, 800, 0, 0]);
    assert_eq!(reports[0], ChanInfo { sum_squares: 0, count: 4, max: 0 });
}

#[test]
fn mix_bus_without_inputs_is_silent() {
    let mut bus = vec![99i64; 3];
    let mut strips: Vec<Vec<mixjack::effects::Band<i64>>> = Vec::new();
    let reports = mix_bus(&[], &[], &[], &mut strips, &[], &mut bus);
    assert_eq!(bus, vec![0, 0, 0]);
    assert!(reports.is_empty());
}

#[test]
fn meters_and_levels_can_be_copied() {
    let mut acc: MeterAcc<i64> = MeterAcc::new();
    acc.sample_in(3);
    let copy = acc;
    acc.sample_in(4);
    assert_eq!(copy.max_in, 3);
    assert_eq!(acc.max_in, 4);
    assert_eq!(copy.as_metering(1), copy.clone().as_metering(1));
    assert_eq!(mixjack::data::Metering::<i64>::default(), mixjack::data::Metering::silent());
}
