//! One band of a channel's filter set: either kind of filter behind one
//! interface.
use crate::effects::fir::{fir_after, fir_output, fir_wf, fir_with_gain, FIRFilter, FirModel};
use crate::effects::iir::{iir_after, iir_output, iir_wf, iir_with_gain, IIRFilter, IirModel};
use crate::effects::Effect;
use crate::sample::Sample;
use vstd::prelude::*;

verus! {

/// A filter of either kind.
#[derive(Debug, Clone)]
pub enum Band<S> {
    Fir(FIRFilter<S>),
    Iir(IIRFilter<S>),
}

/// What a band is, mathematically.
pub enum BandModel<S> {
    Fir(FirModel<S>),
    Iir(IirModel<S>),
}

impl<S: Sample> View for Band<S> {
    type V = BandModel<S>;

    open spec fn view(&self) -> BandModel<S> {
        match self {
            Band::Fir(f) => BandModel::Fir(f@),
            Band::Iir(f) => BandModel::Iir(f@),
        }
    }
}

impl<S: Sample> BandModel<S> {
    pub open spec fn wf(self) -> bool {
        match self {
            BandModel::Fir(m) => fir_wf(m),
            BandModel::Iir(m) => iir_wf(m),
        }
    }

    /// A finite response needs a block at least as long as the filter, a
    /// recursive one a block that is longer.
    pub open spec fn accepts(self, len: nat) -> bool {
        match self {
            BandModel::Fir(m) => len >= m.weights.len(),
            BandModel::Iir(m) => len > m.feed.len(),
        }
    }

    /// The output block after the band has been applied to `input` on top of
    /// `output`.
    pub open spec fn output(self, input: Seq<S>, output: Seq<S>) -> Seq<S> {
        match self {
            BandModel::Fir(m) => fir_output(m, input, output),
            BandModel::Iir(m) => iir_output(m, input, output),
        }
    }

    /// The band after it has processed `input`.
    pub open spec fn after(self, input: Seq<S>) -> Self {
        match self {
            BandModel::Fir(m) => BandModel::Fir(fir_after(m, input)),
            BandModel::Iir(m) => BandModel::Iir(iir_after(m, input)),
        }
    }

    /// The band after its gain has been set.
    pub open spec fn with_gain(self, gain: S) -> Self {
        match self {
            BandModel::Fir(m) => BandModel::Fir(fir_with_gain(m, gain)),
            BandModel::Iir(m) => BandModel::Iir(iir_with_gain(m, gain)),
        }
    }
}

impl<S: Sample> Band<S> {
    /// Rescales the band's weights to `original * gain`.
    pub fn set_gain(&mut self, gain: S)
        requires
            old(self)@.wf(),
        ensures
            final(self)@ == old(self)@.with_gain(gain),
            final(self)@.wf(),
    {
        match self {
            Band::Fir(f) => f.set_gain(gain),
            Band::Iir(f) => f.set_gain(gain),
        }
    }
}

impl<S: Sample> Effect<S> for Band<S> {
    open spec fn wf(&self) -> bool {
        self@.wf()
    }

    open spec fn accepts(&self, len: nat) -> bool {
        self@.accepts(len)
    }

    open spec fn output_after(&self, input: Seq<S>, output: Seq<S>) -> Seq<S> {
        self@.output(input, output)
    }

    fn apply(&mut self, input: &[S], output: &mut [S])
        ensures
            final(self)@ == old(self)@.after(input@),
    {
        match self {
            Band::Fir(f) => f.apply(input, output),
            Band::Iir(f) => f.apply(input, output),
        }
    }
}

/// The output block after each band of a filter set has had its gain set and
/// has been applied in turn.
pub open spec fn bank_output<S: Sample>(
    bands: Seq<BandModel<S>>,
    gain: S,
    input: Seq<S>,
    output: Seq<S>,
) -> Seq<S>
    decreases bands.len(),
{
    if bands.len() == 0 {
        output
    } else {
        bands.last().with_gain(gain).output(
            input,
            bank_output(bands.drop_last(), gain, input, output),
        )
    }
}

/// The filter set after each band has had its gain set and has processed
/// `input`.
pub open spec fn bank_after<S: Sample>(bands: Seq<BandModel<S>>, gain: S, input: Seq<S>) -> Seq<
    BandModel<S>,
> {
    Seq::new(bands.len(), |i: int| bands[i].with_gain(gain).after(input))
}

/// Every band is well formed and takes blocks of `len` samples.
pub open spec fn bank_ready<S: Sample>(bands: Seq<BandModel<S>>, len: nat) -> bool {
    forall|i: int| 0 <= i < bands.len() ==> (#[trigger] bands[i]).wf() && bands[i].accepts(len)
}

/// The models of a filter set's bands.
pub open spec fn bank_view<S: Sample>(bands: Seq<Band<S>>) -> Seq<BandModel<S>> {
    Seq::new(bands.len(), |i: int| bands[i]@)
}

/// Sets the gain of every band of a filter set and applies each to `input`,
/// adding to `output`.
pub fn apply_bank<S: Sample>(bands: &mut Vec<Band<S>>, gain: S, input: &[S], output: &mut [S])
    requires
        bank_ready(bank_view(old(bands)@), input@.len()),
        input@.len() == old(output)@.len(),
    ensures
        final(output)@ == bank_output(bank_view(old(bands)@), gain, input@, old(output)@),
        bank_view(final(bands)@) == bank_after(bank_view(old(bands)@), gain, input@),
        bank_ready(bank_view(final(bands)@), input@.len()),
{
    let ghost before = bank_view(bands@);
    let n = bands.len();
    let mut b: usize = 0;
    assert(before.take(0) =~= Seq::<BandModel<S>>::empty());
    while b < n
        invariant
            b <= n,
            n == bands@.len(),
            n == before.len(),
            bank_ready(before, input@.len()),
            input@.len() == output@.len(),
            output@ == bank_output(before.take(b as int), gain, input@, old(output)@),
            forall|i: int| 0 <= i < b ==> bands@[i]@ == before[i].with_gain(gain).after(input@),
            forall|i: int| b <= i < n ==> bands@[i]@ == before[i],
        decreases n - b,
    {
        assert(before[b as int].wf() && before[b as int].accepts(input@.len()));
        assert(before.take(b + 1).drop_last() =~= before.take(b as int));
        bands[b].set_gain(gain);
        bands[b].apply(input, output);
        b += 1;
    }
    assert(before.take(n as int) =~= before);
    assert(bank_view(bands@) =~= bank_after(before, gain, input@));
    assert forall|i: int| 0 <= i < n implies (#[trigger] bank_view(bands@)[i]).wf() && bank_view(
        bands@,
    )[i].accepts(input@.len()) by {
        assert(before[i].wf() && before[i].accepts(input@.len()));
    }
}

} // verus!
