//! Signal modifiers with one input and one output.
//!
//! An effect works block by block and *adds* what it produces to the output
//! block, so that several effects applied to one output run in parallel with
//! their results summed. Whatever of a block's response falls past the end of
//! the block is carried in the effect and added to the start of the next one.
pub mod band;
pub mod fir;
pub mod half_complex;
pub mod iir;
pub mod spectral;

pub use band::Band;
pub use fir::FIRFilter;
pub use half_complex::{hc_mod, hc_multiply, hc_to_mod};
pub use iir::IIRFilter;
pub use spectral::SpectralEngine;

use crate::sample::Sample;
use vstd::prelude::*;

verus! {

/// An effect on blocks of samples.
pub trait Effect<S: Sample> {
    /// The effect's internal buffers have the lengths its weights call for.
    spec fn wf(&self) -> bool;

    /// Whether the effect can process a block of `len` samples.
    spec fn accepts(&self, len: nat) -> bool;

    /// The output block after `input` has been applied on top of `output`.
    spec fn output_after(&self, input: Seq<S>, output: Seq<S>) -> Seq<S>;

    /// Applies the effect to `input` and adds the result to `output`.
    fn apply(&mut self, input: &[S], output: &mut [S])
        requires
            old(self).wf(),
            old(self).accepts(input@.len()),
            input@.len() == old(output)@.len(),
        ensures
            final(self).wf(),
            final(output)@ == old(self).output_after(input@, old(output)@),
    ;
}

/// `s` with every element multiplied by `gain`.
pub open spec fn scaled<S: Sample>(s: Seq<S>, gain: S) -> Seq<S> {
    Seq::new(s.len(), |i: int| s[i].times_spec(gain))
}

/// `len` samples of silence.
pub open spec fn silence<S: Sample>(len: nat) -> Seq<S> {
    Seq::new(len, |i: int| S::zero_spec())
}

/// The elementwise sum of `a` and `b`, as long as `a`.
pub open spec fn summed<S: Sample>(a: Seq<S>, b: Seq<S>) -> Seq<S> {
    Seq::new(a.len(), |i: int| a[i].plus_spec(b[i]))
}

/// A fresh copy of `v`.
pub fn copy_of<S: Sample>(v: &[S]) -> (r: Vec<S>)
    ensures
        r@ == v@,
{
    let mut r: Vec<S> = Vec::with_capacity(v.len());
    let mut i: usize = 0;
    while i < v.len()
        invariant
            i <= v.len(),
            r@ == v@.subrange(0, i as int),
        decreases v.len() - i,
    {
        r.push(v[i]);
        assert(r@ =~= v@.subrange(0, i + 1));
        i += 1;
    }
    assert(r@ =~= v@);
    r
}

/// `len` samples of silence.
pub fn zeros<S: Sample>(len: usize) -> (r: Vec<S>)
    ensures
        r@ == silence::<S>(len as nat),
{
    let mut r: Vec<S> = Vec::with_capacity(len);
    let mut i: usize = 0;
    while i < len
        invariant
            i <= len,
            r@.len() == i,
            forall|j: int| 0 <= j < i ==> r@[j] == S::zero_spec(),
        decreases len - i,
    {
        r.push(S::zero());
        i += 1;
    }
    assert(r@ =~= silence::<S>(len as nat));
    r
}

/// Overwrites `block` with silence.
pub fn clear<S: Sample>(block: &mut [S])
    ensures
        final(block)@ == silence::<S>(old(block)@.len()),
{
    let mut i: usize = 0;
    while i < block.len()
        invariant
            i <= block.len(),
            block@.len() == old(block)@.len(),
            forall|j: int| 0 <= j < i ==> block@[j] == S::zero_spec(),
        decreases block.len() - i,
    {
        block[i] = S::zero();
        i += 1;
    }
    assert(block@ =~= silence::<S>(old(block)@.len()));
}

} // verus!
