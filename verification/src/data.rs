//! Values shared by the realtime engine and whoever displays its state.
use crate::sample::Sample;
use vstd::prelude::*;

verus! {

/// Peak and root-mean-square level of a channel over one metering interval,
/// measured before (`in`) and after (`out`) processing.
#[derive(Debug, Clone, Copy, PartialEq, Default)]
pub struct Metering<S> {
    pub max_in: S,
    pub rms_in: S,
    pub max_out: S,
    pub rms_out: S,
}

impl<S: Sample> Metering<S> {
    /// All four levels at zero.
    pub fn silent() -> (r: Self)
        ensures
            r == Self::silent_spec(),
    {
        Metering { max_in: S::zero(), rms_in: S::zero(), max_out: S::zero(), rms_out: S::zero() }
    }

    pub open spec fn silent_spec() -> Self {
        Metering {
            max_in: S::zero_spec(),
            rms_in: S::zero_spec(),
            max_out: S::zero_spec(),
            rms_out: S::zero_spec(),
        }
    }
}

/// What a channel does with its input.
#[derive(Debug, Clone, Copy, PartialEq, Eq, Structural)]
pub enum ChannelMode {
    /// Filter, scale by the channel gain, and meter both sides.
    Normal,
    /// Copy the input to the output untouched, and meter it on both sides.
    Bypass,
    /// Write silence, and meter the output as the silence it is.
    Mute,
}

impl Default for ChannelMode {
    /// Channels start muted.
    fn default() -> (r: Self)
        ensures
            r == ChannelMode::Mute,
    {
        ChannelMode::Mute
    }
}

} // verus!
