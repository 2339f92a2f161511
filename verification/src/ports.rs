//! A mix bus with an equaliser on every input, and feedback to the control
//! surface that drives it.
//!
//! Every input of the bus has a volume, a filter for each band with a gain of
//! its own, and a switch that takes the filters out of its path. What an
//! input contributes is added to the bus, so that the inputs of one bus mix.
//! The LEDs of a Novation Launch Control XL show which inputs have their
//! filters switched off.
//!
//! An LED is set by a system-exclusive message of eleven bytes that names a
//! template, a control and a colour. The controls of one channel strip are
//! eight apart.
use crate::effects::band::{bank_ready, bank_view, Band, BandModel};
use crate::effects::{clear, silence, Effect};
use crate::meter::{peak_over, peak_with, squares_over, squares_with, track_peak};
use crate::sample::Sample;
use vstd::prelude::*;

verus! {

/// The LED message under construction. Bytes 7, 8 and 9 select the template,
/// the control and the colour; the others are the fixed frame.
pub struct NovationOut {
    buf: [u8; 11],
}

/// The frame of an LED message with template, index and colour at zero.
pub open spec fn led_frame() -> Seq<u8> {
    seq![0xf0u8, 0x00u8, 0x20u8, 0x29u8, 0x02u8, 0x11u8, 0x78u8, 0x00u8, 0x00u8, 0x00u8, 0xf7u8]
}

pub const LED_GREEN: u8 = 0b0011_1100;

pub const LED_RED: u8 = 0b0000_1111;

pub const LED_OFF: u8 = 0b0000_1100;

impl View for NovationOut {
    type V = Seq<u8>;

    closed spec fn view(&self) -> Seq<u8> {
        self.buf@
    }
}

impl NovationOut {
    pub fn new() -> (r: Self)
        ensures
            r@ == led_frame(),
            r@.len() == 11,
    {
        let r = NovationOut {
            buf: [0xf0, 0x00, 0x20, 0x29, 0x02, 0x11, 0x78, 0x00, 0x00, 0x00, 0xf7],
        };
        assert(r.buf@ =~= led_frame());
        r
    }

    pub fn set_green_led(&mut self)
        ensures
            final(self)@ == old(self)@.update(9, LED_GREEN),
            final(self)@.len() == 11,
            old(self)@.len() == 11,
    {
        self.buf[9] = LED_GREEN;
    }

    pub fn set_red_led(&mut self)
        ensures
            final(self)@ == old(self)@.update(9, LED_RED),
            final(self)@.len() == 11,
            old(self)@.len() == 11,
    {
        self.buf[9] = LED_RED;
    }

    pub fn set_off_led(&mut self)
        ensures
            final(self)@ == old(self)@.update(9, LED_OFF),
            final(self)@.len() == 11,
            old(self)@.len() == 11,
    {
        self.buf[9] = LED_OFF;
    }

    pub fn set_template(&mut self, template: u8)
        ensures
            final(self)@ == old(self)@.update(7, template),
            final(self)@.len() == 11,
            old(self)@.len() == 11,
    {
        self.buf[7] = template;
    }

    pub fn set_index(&mut self, index: u8)
        ensures
            final(self)@ == old(self)@.update(8, index),
            final(self)@.len() == 11,
            old(self)@.len() == 11,
    {
        self.buf[8] = index;
    }

    /// A message is eleven bytes long, whatever its fields hold.
    pub proof fn eleven_bytes(&self)
        ensures
            self@.len() == 11,
    {
    }

    /// The message as it stands.
    pub fn bytes(&self) -> (r: [u8; 11])
        ensures
            r@ == self@,
            self@.len() == 11,
    {
        self.buf
    }

    /// The messages that set the four controls of channel strip `strip` to
    /// the current template and colour, top control first. The message under
    /// construction is left at the last of them.
    pub fn write_strip(&mut self, strip: u8) -> (r: Vec<[u8; 11]>)
        requires
            strip < STRIPS,
        ensures
            r@.len() == 4,
            forall|k: int|
                0 <= k < 4 ==> (#[trigger] r@[k])@ == old(self)@.update(8, (strip + 8 * k) as u8),
            final(self)@ == old(self)@.update(8, (strip + 0x18) as u8),
            final(self)@.len() == 11,
            old(self)@.len() == 11,
    {
        let mut messages: Vec<[u8; 11]> = Vec::with_capacity(4);
        self.set_index(strip);
        messages.push(self.bytes());
        self.set_index(strip + 0x8);
        messages.push(self.bytes());
        self.set_index(strip + 0x10);
        messages.push(self.bytes());
        self.set_index(strip + 0x18);
        messages.push(self.bytes());
        proof {
            let start = old(self)@;
            assert(start.update(8, strip).update(8, (strip + 8) as u8) =~= start.update(
                8,
                (strip + 8) as u8,
            ));
            assert(start.update(8, (strip + 8) as u8).update(8, (strip + 16) as u8)
                =~= start.update(8, (strip + 16) as u8));
            assert(start.update(8, (strip + 16) as u8).update(8, (strip + 24) as u8)
                =~= start.update(8, (strip + 24) as u8));
        }
        messages
    }

    /// The messages that show on the surface whether channel strip `strip`
    /// has its filters switched off: the strip goes dark where it has, and
    /// red where the filters run.
    pub fn handle_msg(&mut self, strip: u8, passthru: bool) -> (r: Vec<[u8; 11]>)
        requires
            strip < STRIPS,
        ensures
            r@.len() == 4,
            forall|k: int|
                0 <= k < 4 ==> (#[trigger] r@[k])@ == strip_message(
                    old(self)@,
                    passthru,
                    (strip + 8 * k) as u8,
                ),
            final(self)@ == strip_message(old(self)@, passthru, (strip + 0x18) as u8),
            final(self)@.len() == 11,
            old(self)@.len() == 11,
    {
        self.set_template(FACTORY_TEMPLATE);
        if passthru {
            self.set_off_led();
        } else {
            self.set_red_led();
        }
        self.write_strip(strip)
    }

    /// The message that resets the surface.
    pub fn reset() -> (r: [u8; 3])
        ensures
            r@ == seq![0xb8u8, 0x00u8, 0x00u8],
    {
        let r: [u8; 3] = [0xb8, 0x00, 0x00];
        assert(r@ =~= seq![0xb8u8, 0x00u8, 0x00u8]);
        r
    }
}

/// The number of channel strips on the surface.
pub const STRIPS: u8 = 8;

/// The template that the mixer's bindings are written for.
pub const FACTORY_TEMPLATE: u8 = 0x08;

/// `message` with the factory template, the colour for `passthru` and the
/// control `index`.
pub open spec fn strip_message(message: Seq<u8>, passthru: bool, index: u8) -> Seq<u8> {
    message.update(7, FACTORY_TEMPLATE).update(
        9,
        if passthru {
            LED_OFF
        } else {
            LED_RED
        },
    ).update(8, index)
}

/// The levels of a port over one block, before they are summarised.
#[derive(Debug, Clone, Copy)]
pub struct ChanInfoBuilder<S> {
    pub sum_squares: S,
    pub max: S,
}

/// The levels of a port over a block of `count` samples.
#[derive(Debug, Clone, Copy, PartialEq)]
pub struct ChanInfo<S> {
    pub sum_squares: S,
    pub count: usize,
    pub max: S,
}

impl<S: Sample> ChanInfoBuilder<S> {
    pub fn new() -> (r: Self)
        ensures
            r == (ChanInfoBuilder { sum_squares: S::zero_spec(), max: S::zero_spec() }),
    {
        ChanInfoBuilder { sum_squares: S::zero(), max: S::zero() }
    }

    /// Takes one sample into account.
    pub fn sample(&mut self, val: S)
        ensures
            *final(self) == (ChanInfoBuilder {
                sum_squares: squares_with(old(self).sum_squares, val),
                max: peak_with(old(self).max, val),
            }),
    {
        self.max = track_peak(self.max, val);
        self.sum_squares = self.sum_squares.plus(val.times(val));
    }

    /// The builder after each sample of `block` in turn.
    pub open spec fn with_block(self, block: Seq<S>) -> Self {
        ChanInfoBuilder {
            sum_squares: squares_over(self.sum_squares, block),
            max: peak_over(self.max, block),
        }
    }

    /// Takes a block of samples into account, first to last.
    pub fn block(&mut self, block: &[S])
        ensures
            *final(self) == old(self).with_block(block@),
    {
        let mut i: usize = 0;
        while i < block.len()
            invariant
                i <= block.len(),
                *self == old(self).with_block(block@.take(i as int)),
            decreases block.len() - i,
        {
            self.sample(block[i]);
            assert(block@.take(i + 1).drop_last() =~= block@.take(i as int));
            i += 1;
        }
        assert(block@.take(block@.len() as int) =~= block@);
    }

    /// The summary of a block of `count` samples.
    pub fn into_chan_info(self, count: usize) -> (r: ChanInfo<S>)
        ensures
            r == (ChanInfo { sum_squares: self.sum_squares, count, max: self.max }),
    {
        ChanInfo { sum_squares: self.sum_squares, count, max: self.max }
    }
}

/// The filters of an input with their gains set: each band's own gain times
/// the input's volume.
pub open spec fn strip_bands<S: Sample>(
    bands: Seq<BandModel<S>>,
    band_gains: Seq<S>,
    volume: S,
) -> Seq<BandModel<S>> {
    Seq::new(bands.len(), |k: int| bands[k].with_gain(band_gains[k].times_spec(volume)))
}

/// The bus after each of `bands` has been applied to `input` in turn.
pub open spec fn bands_applied<S: Sample>(
    bands: Seq<BandModel<S>>,
    input: Seq<S>,
    bus: Seq<S>,
) -> Seq<S>
    decreases bands.len(),
{
    if bands.len() == 0 {
        bus
    } else {
        bands.last().output(input, bands_applied(bands.drop_last(), input, bus))
    }
}

/// The bus after an input has been mixed in. An input at volume zero
/// contributes nothing. One whose filters are switched off contributes its
/// samples times its volume. Any other contributes what its filters make of
/// its samples.
pub open spec fn strip_output<S: Sample>(
    volume: S,
    passthru: bool,
    bands: Seq<BandModel<S>>,
    input: Seq<S>,
    bus: Seq<S>,
) -> Seq<S> {
    if volume.same_spec(S::zero_spec()) {
        bus
    } else if passthru {
        Seq::new(bus.len(), |i: int| bus[i].plus_spec(input[i].times_spec(volume)))
    } else {
        bands_applied(bands, input, bus)
    }
}

/// Whether an input's filters run: not at volume zero, and not while they are
/// switched off.
pub open spec fn strip_filters<S: Sample>(volume: S, passthru: bool) -> bool {
    !volume.same_spec(S::zero_spec()) && !passthru
}

/// The filters of an input after a block: with their gains set, and, where
/// they ran, with the block's tail in their carries.
pub open spec fn strip_after<S: Sample>(
    volume: S,
    band_gains: Seq<S>,
    passthru: bool,
    bands: Seq<BandModel<S>>,
    input: Seq<S>,
) -> Seq<BandModel<S>> {
    if strip_filters(volume, passthru) {
        Seq::new(bands.len(), |k: int| strip_bands(bands, band_gains, volume)[k].after(input))
    } else {
        strip_bands(bands, band_gains, volume)
    }
}

/// The levels of an input over a block: those of its samples, unless the
/// input stands at volume zero and is not metered.
pub open spec fn strip_levels<S: Sample>(
    info: ChanInfoBuilder<S>,
    volume: S,
    input: Seq<S>,
) -> ChanInfoBuilder<S> {
    if volume.same_spec(S::zero_spec()) {
        info
    } else {
        info.with_block(input)
    }
}

/// Mixes one input into a bus. The gain of every band is set first, whether
/// or not the filters then run. An input at volume zero is not metered.
pub fn mix_strip<S: Sample>(
    volume: S,
    band_gains: &[S],
    passthru: bool,
    bands: &mut Vec<Band<S>>,
    input: &[S],
    bus: &mut [S],
    info: &mut ChanInfoBuilder<S>,
)
    requires
        band_gains@.len() == old(bands)@.len(),
        input@.len() == old(bus)@.len(),
        bank_ready(bank_view(old(bands)@), input@.len()),
    ensures
        final(bus)@ == strip_output(
            volume,
            passthru,
            strip_bands(bank_view(old(bands)@), band_gains@, volume),
            input@,
            old(bus)@,
        ),
        bank_view(final(bands)@) == strip_after(
            volume,
            band_gains@,
            passthru,
            bank_view(old(bands)@),
            input@,
        ),
        bank_ready(bank_view(final(bands)@), input@.len()),
        *final(info) == strip_levels(*old(info), volume, input@),
        final(bus)@.len() == old(bus)@.len(),
{
    let ghost before = bank_view(bands@);
    let ghost set = strip_bands(before, band_gains@, volume);
    let n = bands.len();
    let mut k: usize = 0;
    while k < n
        invariant
            k <= n,
            n == bands@.len(),
            n == before.len(),
            n == band_gains@.len(),
            set == strip_bands(before, band_gains@, volume),
            bank_ready(before, input@.len()),
            forall|i: int| 0 <= i < k ==> bands@[i]@ == set[i],
            forall|i: int| k <= i < n ==> bands@[i]@ == before[i],
        decreases n - k,
    {
        assert(before[k as int].wf() && before[k as int].accepts(input@.len()));
        bands[k].set_gain(band_gains[k].times(volume));
        k += 1;
    }
    assert(bank_view(bands@) =~= set);
    assert forall|i: int| 0 <= i < n implies (#[trigger] set[i]).wf() && set[i].accepts(
        input@.len(),
    ) by {
        assert(before[i].wf() && before[i].accepts(input@.len()));
    }
    if volume.same(S::zero()) {
        return ;
    }
    info.block(input);
    if passthru {
        let mut i: usize = 0;
        while i < input.len()
            invariant
                i <= input.len(),
                input@.len() == bus@.len(),
                bus@.len() == old(bus)@.len(),
                forall|j: int|
                    0 <= j < i ==> bus@[j] == old(bus)@[j].plus_spec(input@[j].times_spec(volume)),
                forall|j: int| i <= j < bus@.len() ==> bus@[j] == old(bus)@[j],
            decreases input.len() - i,
        {
            let v = bus[i].plus(input[i].times(volume));
            bus[i] = v;
            i += 1;
        }
        assert(bus@ =~= strip_output(volume, passthru, set, input@, old(bus)@));
        return ;
    }
    let mut k: usize = 0;
    assert(set.take(0) =~= Seq::<BandModel<S>>::empty());
    while k < n
        invariant
            k <= n,
            n == bands@.len(),
            n == set.len(),
            input@.len() == bus@.len(),
            bank_ready(set, input@.len()),
            bus@ == bands_applied(set.take(k as int), input@, old(bus)@),
            forall|i: int| 0 <= i < k ==> bands@[i]@ == set[i].after(input@),
            forall|i: int| k <= i < n ==> bands@[i]@ == set[i],
        decreases n - k,
    {
        assert(set[k as int].wf() && set[k as int].accepts(input@.len()));
        assert(set.take(k + 1).drop_last() =~= set.take(k as int));
        bands[k].apply(input, bus);
        k += 1;
    }
    assert(set.take(n as int) =~= set);
    assert(bank_view(bands@) =~= Seq::new(n as nat, |k: int| set[k].after(input@)));
    assert forall|i: int| 0 <= i < n implies (#[trigger] bank_view(bands@)[i]).wf() && bank_view(
        bands@,
    )[i].accepts(input@.len()) by {
        assert(set[i].wf() && set[i].accepts(input@.len()));
    }
}

/// The filter sets of the inputs of a bus.
pub open spec fn banks<S: Sample>(strips: Seq<Vec<Band<S>>>) -> Seq<Seq<BandModel<S>>> {
    Seq::new(strips.len(), |i: int| bank_view(strips[i]@))
}

/// The bus after the first `upto` inputs have been mixed into silence, one
/// after the other.
pub open spec fn bus_after<S: Sample>(
    volumes: Seq<S>,
    band_gains: Seq<Vec<S>>,
    passthru: Seq<bool>,
    strips: Seq<Seq<BandModel<S>>>,
    inputs: Seq<Vec<S>>,
    len: nat,
    upto: int,
) -> Seq<S>
    decreases upto,
{
    if upto <= 0 {
        silence::<S>(len)
    } else {
        let i = upto - 1;
        strip_output(
            volumes[i],
            passthru[i],
            strip_bands(strips[i], band_gains[i]@, volumes[i]),
            inputs[i]@,
            bus_after(volumes, band_gains, passthru, strips, inputs, len, i),
        )
    }
}

/// The report on one input of a bus: its levels over the block and the
/// number of samples in it.
pub open spec fn strip_report<S: Sample>(volume: S, input: Seq<S>) -> ChanInfo<S> {
    let levels = strip_levels(
        ChanInfoBuilder { sum_squares: S::zero_spec(), max: S::zero_spec() },
        volume,
        input,
    );
    ChanInfo { sum_squares: levels.sum_squares, count: input.len() as usize, max: levels.max }
}

/// Whether the parts of a bus fit: there is a volume, a switch, a filter set
/// and a block for every input, a gain for every band, every block is as
/// long as the bus, and every filter takes blocks of that length.
pub open spec fn bus_fits<S: Sample>(
    volumes: Seq<S>,
    band_gains: Seq<Vec<S>>,
    passthru: Seq<bool>,
    strips: Seq<Vec<Band<S>>>,
    inputs: Seq<Vec<S>>,
    len: nat,
) -> bool {
    &&& volumes.len() == strips.len()
    &&& band_gains.len() == strips.len()
    &&& passthru.len() == strips.len()
    &&& inputs.len() == strips.len()
    &&& forall|i: int|
        0 <= i < strips.len() ==> (#[trigger] band_gains[i])@.len() == strips[i]@.len()
    &&& forall|i: int| 0 <= i < strips.len() ==> (#[trigger] inputs[i])@.len() == len
    &&& forall|i: int| 0 <= i < strips.len() ==> bank_ready(bank_view(#[trigger] strips[i]@), len)
}

/// Mixes the inputs of a bus: silences the bus, then mixes in one input
/// after the other, and reports on each.
pub fn mix_bus<S: Sample>(
    volumes: &[S],
    band_gains: &[Vec<S>],
    passthru: &[bool],
    strips: &mut Vec<Vec<Band<S>>>,
    inputs: &[Vec<S>],
    bus: &mut [S],
) -> (r: Vec<ChanInfo<S>>)
    requires
        bus_fits(volumes@, band_gains@, passthru@, old(strips)@, inputs@, old(bus)@.len()),
    ensures
        final(bus)@ == bus_after(
            volumes@,
            band_gains@,
            passthru@,
            banks(old(strips)@),
            inputs@,
            old(bus)@.len(),
            inputs@.len() as int,
        ),
        r@.len() == inputs@.len(),
        forall|i: int|
            0 <= i < inputs@.len() ==> (#[trigger] r@[i]) == strip_report(volumes@[i], inputs@[i]@),
        final(strips)@.len() == old(strips)@.len(),
        forall|i: int|
            0 <= i < inputs@.len() ==> bank_view(#[trigger] final(strips)@[i]@) == strip_after(
                volumes@[i],
                band_gains@[i]@,
                passthru@[i],
                bank_view(old(strips)@[i]@),
                inputs@[i]@,
            ),
        bus_fits(volumes@, band_gains@, passthru@, final(strips)@, inputs@, old(bus)@.len()),
{
    let ghost before = banks(strips@);
    let ghost len = bus@.len();
    let n = strips.len();
    let mut reports: Vec<ChanInfo<S>> = Vec::with_capacity(n);
    clear(bus);
    let mut i: usize = 0;
    while i < n
        invariant
            i <= n,
            n == strips@.len(),
            n == old(strips)@.len(),
            before == banks(old(strips)@),
            len == old(bus)@.len(),
            bus@.len() == len,
            bus_fits(volumes@, band_gains@, passthru@, old(strips)@, inputs@, len),
            bus_fits(volumes@, band_gains@, passthru@, strips@, inputs@, len),
            bus@ == bus_after(volumes@, band_gains@, passthru@, before, inputs@, len, i as int),
            reports@.len() == i,
            forall|k: int|
                0 <= k < i ==> (#[trigger] reports@[k]) == strip_report(volumes@[k], inputs@[k]@),
            forall|k: int|
                0 <= k < i ==> bank_view(#[trigger] strips@[k]@) == strip_after(
                    volumes@[k],
                    band_gains@[k]@,
                    passthru@[k],
                    before[k],
                    inputs@[k]@,
                ),
            forall|k: int| i <= k < n ==> bank_view(#[trigger] strips@[k]@) == before[k],
        decreases n - i,
    {
        let ghost held = strips@;
        assert(band_gains@[i as int]@.len() == strips@[i as int]@.len());
        assert(inputs@[i as int]@.len() == len);
        assert(bank_ready(bank_view(strips@[i as int]@), len));
        let mut info = ChanInfoBuilder::new();
        mix_strip(
            volumes[i],
            band_gains[i].as_slice(),
            passthru[i],
            &mut strips[i],
            inputs[i].as_slice(),
            bus,
            &mut info,
        );
        reports.push(info.into_chan_info(inputs[i].len()));
        proof {
            assert forall|k: int| 0 <= k < n implies (#[trigger] band_gains@[k])@.len()
                == strips@[k]@.len() by {
                if k != i {
                    assert(strips@[k] == held[k]);
                }
                assert(bank_view(strips@[k]@).len() == strips@[k]@.len());
            }
            assert forall|k: int| 0 <= k < n implies bank_ready(
                bank_view(#[trigger] strips@[k]@),
                len,
            ) by {
                if k != i {
                    assert(strips@[k] == held[k]);
                }
            }
            assert forall|k: int| i < k < n implies bank_view(#[trigger] strips@[k]@)
                == before[k] by {
                assert(strips@[k] == held[k]);
            }
            assert forall|k: int| 0 <= k < i implies bank_view(#[trigger] strips@[k]@)
                == strip_after(
                volumes@[k],
                band_gains@[k]@,
                passthru@[k],
                before[k],
                inputs@[k]@,
            ) by {
                assert(strips@[k] == held[k]);
            }
        }
        i += 1;
    }
    reports
}

} // verus!
