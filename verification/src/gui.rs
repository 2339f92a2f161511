//! The interface's side of the protocol: the messages it receives, the state
//! it keeps of every channel, and the messages it owes the realtime engine
//! when that state has changed under the user's hands.
use crate::audio::{AudioMsg, AudioMsgKind};
use crate::cli::Config;
use crate::data::{ChannelMode, Metering};
use crate::effects::copy_of;
use crate::sample::Sample;
use vstd::prelude::*;

verus! {

/// A level that the interface shows.
#[derive(Debug, Clone)]
pub enum Level<S> {
    Gain(S),
}

/// News from the realtime engine, on its way to the interface.
#[derive(Debug, Clone)]
pub enum UiMsg<S> {
    Levels { channel: usize, level: Level<S> },
    Metering { channel: usize, metering: Metering<S> },
    ToggleMetering { channel: usize },
    LowPassSpectrum(Vec<S>),
    AudioInSpectrum(Vec<S>),
    AudioOutSpectrum(Vec<S>),
}

/// What the interface shows of one channel.
#[derive(Debug, Clone, PartialEq)]
pub struct ChannelState<S> {
    pub name: String,
    pub gain: S,
    pub metering_on: bool,
    pub metering: Metering<S>,
    pub mode: ChannelMode,
}

/// What the interface shows.
#[derive(Debug, Clone, PartialEq)]
pub struct State<S> {
    /// Magnitudes of the low-pass filter's spectrum.
    pub low_pass_spectrum: Vec<S>,
    /// Magnitudes of the latest input spectrum.
    pub audio_in_spectrum: Vec<S>,
    /// Magnitudes of the latest output spectrum.
    pub audio_out_spectrum: Vec<S>,
    pub channels: Vec<ChannelState<S>>,
}

/// The channel a message is about, if it is about one.
pub open spec fn channel_of<S>(msg: UiMsg<S>) -> Option<usize> {
    match msg {
        UiMsg::Levels { channel, .. } => Some(channel),
        UiMsg::Metering { channel, .. } => Some(channel),
        UiMsg::ToggleMetering { channel } => Some(channel),
        _ => None,
    }
}

/// The channels after news from the engine: the channel that the news is
/// about has its gain or its metering replaced, or its metering switched on
/// or off. A spectrum changes no channel.
pub open spec fn channels_after<S>(channels: Seq<ChannelState<S>>, msg: UiMsg<S>) -> Seq<
    ChannelState<S>,
> {
    match msg {
        UiMsg::Levels { channel, level: Level::Gain(gain) } => channels.update(
            channel as int,
            ChannelState { gain, ..channels[channel as int] },
        ),
        UiMsg::Metering { channel, metering } => channels.update(
            channel as int,
            ChannelState { metering, ..channels[channel as int] },
        ),
        UiMsg::ToggleMetering { channel } => channels.update(
            channel as int,
            ChannelState {
                metering_on: !channels[channel as int].metering_on,
                ..channels[channel as int]
            },
        ),
        _ => channels,
    }
}

/// The messages that bring the engine's channel `idx` from `prev` to `next`:
/// the gain where it differs, then the mode where it differs.
pub open spec fn changes<S: Sample>(
    next: ChannelState<S>,
    prev: ChannelState<S>,
    idx: usize,
) -> Seq<AudioMsg<S>> {
    let gain = if !next.gain.same_spec(prev.gain) {
        seq![AudioMsg { channel: idx, kind: AudioMsgKind::Gain(next.gain) }]
    } else {
        Seq::empty()
    };
    let mode = if next.mode != prev.mode {
        seq![AudioMsg { channel: idx, kind: AudioMsgKind::Mode(next.mode) }]
    } else {
        Seq::empty()
    };
    gain + mode
}

/// The messages that bring the engine's first `upto` channels from `prev` to
/// `next`, channel by channel.
pub open spec fn sync_msgs<S: Sample>(
    next: Seq<ChannelState<S>>,
    prev: Seq<ChannelState<S>>,
    upto: int,
) -> Seq<AudioMsg<S>>
    decreases upto,
{
    if upto <= 0 {
        Seq::empty()
    } else {
        sync_msgs(next, prev, upto - 1) + changes(
            next[upto - 1],
            prev[upto - 1],
            (upto - 1) as usize,
        )
    }
}

/// The smaller of two lengths.
pub open spec fn shorter(a: nat, b: nat) -> nat {
    if a <= b {
        a
    } else {
        b
    }
}

impl<S: Sample> State<S> {
    /// One channel for each channel of the configuration, under its name, at
    /// gain zero, muted, with metering off; and no spectra yet.
    pub fn new(config: &Config) -> (r: Self)
        ensures
            r.low_pass_spectrum@.len() == 0,
            r.audio_in_spectrum@.len() == 0,
            r.audio_out_spectrum@.len() == 0,
            r.channels@.len() == config@.len(),
            forall|i: int|
                0 <= i < config@.len() ==> {
                    let c = #[trigger] r.channels@[i];
                    &&& c.name@ == config@[i].0
                    &&& c.gain == S::zero_spec()
                    &&& !c.metering_on
                    &&& c.metering == Metering::<S>::silent_spec()
                    &&& c.mode == ChannelMode::Mute
                },
    {
        let names = config.channel_names();
        let mut channels: Vec<ChannelState<S>> = Vec::with_capacity(names.len());
        let mut i: usize = 0;
        while i < names.len()
            invariant
                i <= names@.len(),
                names@.len() == config@.len(),
                forall|k: int| 0 <= k < names@.len() ==> names@[k]@ == config@[k].0,
                channels@.len() == i,
                forall|k: int|
                    0 <= k < i ==> {
                        let c = #[trigger] channels@[k];
                        &&& c.name@ == config@[k].0
                        &&& c.gain == S::zero_spec()
                        &&& !c.metering_on
                        &&& c.metering == Metering::<S>::silent_spec()
                        &&& c.mode == ChannelMode::Mute
                    },
            decreases names@.len() - i,
        {
            channels.push(
                ChannelState {
                    name: names[i].clone(),
                    gain: S::zero(),
                    metering_on: false,
                    metering: Metering::silent(),
                    mode: ChannelMode::default(),
                },
            );
            i += 1;
        }
        State {
            low_pass_spectrum: Vec::new(),
            audio_in_spectrum: Vec::new(),
            audio_out_spectrum: Vec::new(),
            channels,
        }
    }

    /// Takes in news from the engine: a channel's levels or metering are
    /// replaced, its metering is switched, or a spectrum is replaced.
    pub fn update(&mut self, msg: &UiMsg<S>)
        requires
            channel_of(*msg).is_some() ==> channel_of(*msg).unwrap() < old(self).channels@.len(),
        ensures
            final(self).channels@ == channels_after(old(self).channels@, *msg),
            final(self).low_pass_spectrum@ == match *msg {
                UiMsg::LowPassSpectrum(spectrum) => spectrum@,
                _ => old(self).low_pass_spectrum@,
            },
            final(self).audio_in_spectrum@ == match *msg {
                UiMsg::AudioInSpectrum(spectrum) => spectrum@,
                _ => old(self).audio_in_spectrum@,
            },
            final(self).audio_out_spectrum@ == match *msg {
                UiMsg::AudioOutSpectrum(spectrum) => spectrum@,
                _ => old(self).audio_out_spectrum@,
            },
    {
        match msg {
            UiMsg::Metering { channel, metering } => {
                let m = Metering {
                    max_in: metering.max_in,
                    rms_in: metering.rms_in,
                    max_out: metering.max_out,
                    rms_out: metering.rms_out,
                };
                self.channels[*channel].metering = m;
            },
            UiMsg::Levels { channel, level: Level::Gain(gain) } => {
                self.channels[*channel].gain = *gain;
            },
            UiMsg::ToggleMetering { channel } => {
                let on = self.channels[*channel].metering_on;
                self.channels[*channel].metering_on = !on;
            },
            UiMsg::LowPassSpectrum(spectrum) => {
                self.low_pass_spectrum = copy_of(spectrum.as_slice());
            },
            UiMsg::AudioInSpectrum(spectrum) => {
                self.audio_in_spectrum = copy_of(spectrum.as_slice());
            },
            UiMsg::AudioOutSpectrum(spectrum) => {
                self.audio_out_spectrum = copy_of(spectrum.as_slice());
            },
        }
    }

    /// The messages that bring the engine in line with this state, given the
    /// state it was last brought in line with: for each channel in turn, its
    /// gain if that has changed, then its mode if that has.
    pub fn sync_audio(&self, prev: &Self) -> (r: Vec<AudioMsg<S>>)
        ensures
            r@ == sync_msgs(
                self.channels@,
                prev.channels@,
                shorter(self.channels@.len(), prev.channels@.len()) as int,
            ),
    {
        let n = if self.channels.len() <= prev.channels.len() {
            self.channels.len()
        } else {
            prev.channels.len()
        };
        let mut msgs: Vec<AudioMsg<S>> = Vec::new();
        let mut idx: usize = 0;
        while idx < n
            invariant
                idx <= n,
                n == shorter(self.channels@.len(), prev.channels@.len()),
                msgs@ == sync_msgs(self.channels@, prev.channels@, idx as int),
            decreases n - idx,
        {
            let ghost before = msgs@;
            let next = &self.channels[idx];
            let last = &prev.channels[idx];
            if !next.gain.same(last.gain) {
                msgs.push(AudioMsg { channel: idx, kind: AudioMsgKind::Gain(next.gain) });
            }
            if next.mode != last.mode {
                msgs.push(AudioMsg { channel: idx, kind: AudioMsgKind::Mode(next.mode) });
            }
            assert(msgs@ =~= before + changes(*next, *last, idx));
            idx += 1;
        }
        msgs
    }
}

} // verus!
