//! Spectra in half-complex form.
//!
//! A real signal of `n` samples has a spectrum of `n / 2 + 1` bins. Its
//! half-complex form packs that spectrum into `n` numbers: the real parts of
//! bins `0, 1, ..` in order, followed by the imaginary parts in reverse
//! order, so that bin `k` has its real part at `k` and its imaginary part at
//! `n - k`. Bin 0 is always real, and so is the last bin where `n` is even.
use crate::effects::{silence, zeros};
use crate::sample::Sample;
use vstd::prelude::*;

verus! {

/// The product of two spectra of equal length, bin by bin, in half-complex
/// form: real bins multiply directly, and a complex bin `(pr, pi) * (dr, di)`
/// is `(pr * dr - pi * di, pr * di + dr * pi)`.
pub open spec fn hc_product<S: Sample>(params: Seq<S>, data: Seq<S>) -> Seq<S> {
    let n = data.len() as int;
    Seq::new(
        data.len(),
        |k: int|
            if k == 0 || 2 * k == n {
                data[k].times_spec(params[k])
            } else if 2 * k < n {
                params[k].times_spec(data[k]).minus_spec(params[n - k].times_spec(data[n - k]))
            } else {
                params[n - k].times_spec(data[k]).plus_spec(data[n - k].times_spec(params[k]))
            },
    )
}

/// The magnitude of each bin of a spectrum in half-complex form: `|re|` for a
/// real bin and `sqrt(re * re + im * im)` for a complex one. An empty spectrum
/// leaves `before` as it is.
pub open spec fn hc_magnitudes<S: Sample>(input: Seq<S>, before: Seq<S>) -> Seq<S> {
    let n = input.len() as int;
    if n == 0 {
        before
    } else {
        Seq::new(
            (n / 2 + 1) as nat,
            |k: int|
                if k == 0 || 2 * k == n {
                    input[k].magnitude_spec()
                } else {
                    input[k].times_spec(input[k]).plus_spec(
                        input[n - k].times_spec(input[n - k]),
                    ).root_spec()
                },
        )
    }
}

/// Multiplies the spectrum `input` by the spectrum `params`, in place.
pub fn hc_multiply<S: Sample>(params: &[S], input: &mut [S])
    requires
        params@.len() == old(input)@.len(),
    ensures
        final(input)@ == hc_product(params@, old(input)@),
{
    let n = params.len();
    if n == 0 {
        assert(input@ =~= hc_product(params@, old(input)@));
        return ;
    }
    let ghost data = input@;
    let first = input[0].times(params[0]);
    input[0] = first;
    let half = (n - 1) / 2;
    let mut i: usize = 1;
    while i <= half
        invariant
            1 <= i <= half + 1,
            half == (n - 1) / 2,
            n == params@.len(),
            n == input@.len(),
            n == data.len(),
            forall|k: int|
                0 <= k < n && (k < i || k > n - i) ==> input@[k] == hc_product(params@, data)[k],
            forall|k: int| i <= k <= n - i ==> input@[k] == data[k],
        decreases half + 1 - i,
    {
        let pre = params[i];
        let ire = input[i];
        let pim = params[n - i];
        let iim = input[n - i];
        let re = pre.times(ire).minus(pim.times(iim));
        let im = pre.times(iim).plus(ire.times(pim));
        input[i] = re;
        input[n - i] = im;
        i += 1;
    }
    if n % 2 == 0 {
        let n2 = n / 2;
        let v = input[n2].times(params[n2]);
        input[n2] = v;
    }
    assert(input@ =~= hc_product(params@, data));
}

/// Writes the magnitude of each bin of `input` to `output`.
pub fn hc_mod<S: Sample>(input: &[S], output: &mut [S])
    requires
        input@.len() / 2 + 1 == old(output)@.len(),
    ensures
        final(output)@ == hc_magnitudes(input@, old(output)@),
{
    let n = input.len();
    if n == 0 {
        return ;
    }
    output[0] = input[0].magnitude();
    let half = (n - 1) / 2;
    let mut i: usize = 1;
    while i <= half
        invariant
            1 <= i <= half + 1,
            half == (n - 1) / 2,
            n == input@.len(),
            n / 2 + 1 == output@.len(),
            forall|k: int| 0 <= k < i ==> output@[k] == hc_magnitudes(input@, old(output)@)[k],
        decreases half + 1 - i,
    {
        let re = input[i];
        let im = input[n - i];
        output[i] = re.times(re).plus(im.times(im)).root();
        i += 1;
    }
    if n % 2 == 0 {
        let n2 = n / 2;
        output[n2] = input[n2].magnitude();
    }
    assert(output@ =~= hc_magnitudes(input@, old(output)@));
}

/// The magnitude of each bin of `input`, in a new vector.
pub fn hc_to_mod<S: Sample>(input: &[S]) -> (r: Vec<S>)
    ensures
        r@ == hc_magnitudes(input@, silence::<S>((input@.len() / 2 + 1) as nat)),
{
    let mut output = zeros(input.len() / 2 + 1);
    hc_mod(input, output.as_mut_slice());
    output
}

} // verus!
