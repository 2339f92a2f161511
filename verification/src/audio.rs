//! The state that the realtime callback owns, the messages that change it,
//! and what the callback does with one block of audio.
//!
//! The callback itself, which talks to the audio server and to the queues of
//! the user interface, lives outside this crate. It hands every event it sees
//! to the [`Mixer`], in the order it sees them, and does what the mixer
//! answers: control messages and interface messages first, then each
//! channel's block, then the end of the block.
pub mod info;

pub use info::Info;

use crate::cli::{
    gain_of_value, lookup_of, value_to_gain, Channel, Config, MidiEffect, MidiEffectKind,
    MidiInput, MidiKey, MidiLookup,
};
use crate::data::ChannelMode;
use crate::effects::band::{
    apply_bank, bank_after, bank_output, bank_ready, bank_view, Band, BandModel,
};
use crate::effects::{clear, silence};
use crate::gui::{Level, UiMsg};
use crate::meter::MeterAcc;
use crate::sample::Sample;
use vstd::prelude::*;

verus! {

/// Gain and mode of one channel.
#[derive(Debug, Clone, PartialEq)]
pub struct ChannelState<S> {
    pub gain: S,
    pub mode: ChannelMode,
}

/// Gain and mode of every channel.
#[derive(Debug, Clone, PartialEq)]
pub struct State<S> {
    pub channels: Vec<ChannelState<S>>,
}

/// A change to one channel, on its way to the realtime engine.
#[derive(Debug, Clone, Copy)]
pub struct AudioMsg<S> {
    pub channel: usize,
    pub kind: AudioMsgKind<S>,
}

#[derive(Debug, Clone, Copy)]
pub enum AudioMsgKind<S> {
    Gain(S),
    Mode(ChannelMode),
}

/// What came of taking a message from the interface's queue.
#[derive(Debug, Clone, Copy)]
pub enum Received<S> {
    Message(AudioMsg<S>),
    /// Nothing is waiting.
    Empty,
    /// The interface has gone away.
    Disconnected,
}

/// What came of putting a message on the interface's queue.
#[derive(Clone, Copy, Debug, PartialEq, Eq, Structural)]
pub enum Sent {
    Delivered,
    /// The queue has no room; the message is dropped.
    Full,
    /// The interface has gone away.
    Disconnected,
}

/// What the callback tells the audio server.
#[derive(Clone, Copy, Debug, PartialEq, Eq, Structural)]
pub enum Control {
    Continue,
    Quit,
}

/// The channel states after `msg`: the gain or the mode of the channel it
/// names is replaced.
pub open spec fn updated<S: Sample>(channels: Seq<ChannelState<S>>, msg: AudioMsg<S>) -> Seq<
    ChannelState<S>,
> {
    match msg.kind {
        AudioMsgKind::Gain(gain) => channels.update(
            msg.channel as int,
            ChannelState { gain, mode: channels[msg.channel as int].mode },
        ),
        AudioMsgKind::Mode(mode) => channels.update(
            msg.channel as int,
            ChannelState { gain: channels[msg.channel as int].gain, mode },
        ),
    }
}

/// Every channel silent and muted.
pub open spec fn initial_channels<S: Sample>(count: nat) -> Seq<ChannelState<S>> {
    Seq::new(count, |i: int| ChannelState { gain: S::zero_spec(), mode: ChannelMode::Mute })
}

impl<S: Sample> State<S> {
    /// One channel for each channel of the configuration, at gain zero and
    /// muted.
    pub fn new(config: &Config) -> (r: Self)
        ensures
            r.channels@ == initial_channels::<S>(config@.len()),
    {
        let listed = config.channel_list();
        let mut channels: Vec<ChannelState<S>> = Vec::with_capacity(listed.len());
        let mut i: usize = 0;
        while i < listed.len()
            invariant
                i <= listed.len(),
                listed@.len() == config@.len(),
                channels@.len() == i,
                forall|j: int|
                    0 <= j < i ==> channels@[j] == (ChannelState {
                        gain: S::zero_spec(),
                        mode: ChannelMode::Mute,
                    }),
            decreases listed.len() - i,
        {
            channels.push(ChannelState { gain: S::zero(), mode: ChannelMode::default() });
            i += 1;
        }
        assert(channels@ =~= initial_channels::<S>(config@.len()));
        State { channels }
    }

    /// Applies a message to the channel it names.
    pub fn update(&mut self, msg: AudioMsg<S>)
        requires
            msg.channel < old(self).channels@.len(),
        ensures
            final(self).channels@ == updated(old(self).channels@, msg),
    {
        let mode = self.channels[msg.channel].mode;
        let gain = self.channels[msg.channel].gain;
        match msg.kind {
            AudioMsgKind::Gain(new_gain) => {
                self.channels[msg.channel] = ChannelState { gain: new_gain, mode };
            },
            AudioMsgKind::Mode(new_mode) => {
                self.channels[msg.channel] = ChannelState { gain, mode: new_mode };
            },
        }
    }
}

/// The output block of a channel in its mode: silence where it is muted, the
/// input where it is bypassed, and otherwise what the filter set adds to
/// silence at the channel's gain; that is silence too where the gain is
/// zero, in which case the filters do not run.
pub open spec fn channel_output<S: Sample>(
    state: ChannelState<S>,
    bands: Seq<BandModel<S>>,
    input: Seq<S>,
) -> Seq<S> {
    match state.mode {
        ChannelMode::Mute => silence::<S>(input.len()),
        ChannelMode::Bypass => input,
        ChannelMode::Normal => if state.gain.same_spec(S::zero_spec()) {
            silence::<S>(input.len())
        } else {
            bank_output(bands, state.gain, input, silence::<S>(input.len()))
        },
    }
}

/// The filter set of a channel after a block: as it was, unless the channel
/// runs its filters.
pub open spec fn channel_bands_after<S: Sample>(
    state: ChannelState<S>,
    bands: Seq<BandModel<S>>,
    input: Seq<S>,
) -> Seq<BandModel<S>> {
    if state.mode == ChannelMode::Normal && !state.gain.same_spec(S::zero_spec()) {
        bank_after(bands, state.gain, input)
    } else {
        bands
    }
}

/// What the modes mean. A muted channel puts out silence whatever comes in.
/// A bypassed channel puts out its input, and its meter takes the input for
/// the output. A channel that runs at gain zero puts out silence.
pub proof fn mode_semantics<S: Sample>(
    state: ChannelState<S>,
    bands: Seq<BandModel<S>>,
    meter: MeterAcc<S>,
    input: Seq<S>,
)
    ensures
        state.mode == ChannelMode::Mute ==> channel_output(state, bands, input) == silence::<S>(
            input.len(),
        ),
        state.mode == ChannelMode::Bypass ==> channel_output(state, bands, input) == input
            && metered(meter, state, bands, input) == meter.with_input(input).with_output(input),
        state.mode == ChannelMode::Normal && state.gain.same_spec(S::zero_spec())
            ==> channel_output(state, bands, input) == silence::<S>(input.len()),
{
}

/// The meter of a channel after a block: it has taken in the input and what
/// the channel put out.
pub open spec fn metered<S: Sample>(
    meter: MeterAcc<S>,
    state: ChannelState<S>,
    bands: Seq<BandModel<S>>,
    input: Seq<S>,
) -> MeterAcc<S> {
    meter.with_input(input).with_output(channel_output(state, bands, input))
}

/// Processes one block of one channel: meters the input, writes the output
/// that the channel's mode calls for, and meters the output.
pub fn process_channel<S: Sample>(
    state: &ChannelState<S>,
    bands: &mut Vec<Band<S>>,
    meter: &mut MeterAcc<S>,
    input: &[S],
    output: &mut [S],
)
    requires
        input@.len() == old(output)@.len(),
        bank_ready(bank_view(old(bands)@), input@.len()),
    ensures
        final(output)@ == channel_output(*state, bank_view(old(bands)@), input@),
        bank_view(final(bands)@) == channel_bands_after(*state, bank_view(old(bands)@), input@),
        bank_ready(bank_view(final(bands)@), input@.len()),
        *final(meter) == metered(*old(meter), *state, bank_view(old(bands)@), input@),
{
    meter.block_in(input);
    match state.mode {
        ChannelMode::Mute => {
            clear(output);
        },
        ChannelMode::Bypass => {
            let mut i: usize = 0;
            while i < input.len()
                invariant
                    i <= input.len(),
                    input@.len() == output@.len(),
                    forall|j: int| 0 <= j < i ==> output@[j] == input@[j],
                decreases input.len() - i,
            {
                output[i] = input[i];
                i += 1;
            }
            assert(output@ =~= input@);
        },
        ChannelMode::Normal => {
            clear(output);
            if !state.gain.same(S::zero()) {
                apply_bank(bands, state.gain, input, output);
            }
        },
    }
    meter.block_out(output);
}

/// The realtime engine: channel states, filter sets and meters, the table
/// that maps control-surface keys to effects, and the bookkeeping of the
/// metering interval.
pub struct Mixer<S> {
    state: State<S>,
    strips: Vec<Vec<Band<S>>>,
    meter_accs: Vec<MeterAcc<S>>,
    midi_lookup: MidiLookup,
    frame_len: usize,
    frames_in_meter_frame: usize,
    frames_acc: usize,
    shutdown: bool,
}

/// What a mixer is, mathematically.
pub struct MixerModel<S> {
    pub channels: Seq<ChannelState<S>>,
    /// The filter set of each channel.
    pub strips: Seq<Seq<BandModel<S>>>,
    pub meters: Seq<MeterAcc<S>>,
    pub lookup: Map<MidiKey, MidiEffect>,
    /// The number of samples in a block.
    pub frame_len: nat,
    /// The number of blocks in a metering interval.
    pub frames_per_report: nat,
    /// The number of blocks since the last metering report.
    pub frames_acc: nat,
    /// Whether an endpoint has been seen to disconnect.
    pub shutdown: bool,
}

impl<S: Sample> View for Mixer<S> {
    type V = MixerModel<S>;

    closed spec fn view(&self) -> MixerModel<S> {
        MixerModel {
            channels: self.state.channels@,
            strips: Seq::new(self.strips@.len(), |i: int| bank_view(self.strips@[i]@)),
            meters: self.meter_accs@,
            lookup: self.midi_lookup@,
            frame_len: self.frame_len as nat,
            frames_per_report: self.frames_in_meter_frame as nat,
            frames_acc: self.frames_acc as nat,
            shutdown: self.shutdown,
        }
    }
}

/// The number of blocks in a metering interval, so that reports go out about
/// sixty times a second whatever the block size: the whole part of
/// `sample_rate / frame_len / 60`.
pub open spec fn frames_per_report(sample_rate: nat, frame_len: nat) -> nat {
    if frame_len == 0 {
        0
    } else {
        (sample_rate / frame_len) / 60
    }
}

impl<S: Sample> MixerModel<S> {
    /// There is a filter set and a meter for each channel, every filter takes
    /// blocks of the mixer's length, every effect in the lookup table names
    /// a channel, a block is not empty, and the samples of a metering
    /// interval can be counted.
    pub open spec fn wf(self) -> bool {
        &&& self.strips.len() == self.channels.len()
        &&& self.meters.len() == self.channels.len()
        &&& forall|i: int|
            0 <= i < self.strips.len() ==> bank_ready(#[trigger] self.strips[i], self.frame_len)
        &&& forall|key: MidiKey| #[trigger]
            self.lookup.contains_key(key) ==> self.lookup[key].channel < self.channels.len()
        &&& self.frame_len >= 1
        &&& (self.frames_per_report + 1) * self.frame_len <= usize::MAX
        &&& self.frames_acc <= self.frames_per_report
    }

    /// The mixer after a message from the control surface. A message whose
    /// key is bound sets the gain of the channel it is bound to; any other
    /// changes nothing.
    pub open spec fn after_midi(self, bytes: Seq<u8>) -> Self {
        match self.midi_target(bytes) {
            Some((channel, value)) => MixerModel {
                channels: self.channels.update(
                    channel as int,
                    ChannelState {
                        gain: gain_of_value::<S>(value),
                        mode: self.channels[channel as int].mode,
                    },
                ),
                ..self
            },
            None => self,
        }
    }

    /// The channel that a message from the control surface is bound to, and
    /// the value it carries.
    pub open spec fn midi_target(self, bytes: Seq<u8>) -> Option<(usize, u8)> {
        match crate::cli::decoded(bytes) {
            Some(evt) => match (MidiKey::of_input(evt), evt.value_spec()) {
                (Some(key), Some(value)) => if self.lookup.contains_key(key) {
                    Some((self.lookup[key].channel, value))
                } else {
                    None
                },
                _ => None,
            },
            None => None,
        }
    }

    /// The mixer after a message from the interface. A message for a channel
    /// that does not exist changes nothing.
    pub open spec fn after_msg(self, msg: AudioMsg<S>) -> Self {
        if msg.channel < self.channels.len() {
            MixerModel { channels: updated(self.channels, msg), ..self }
        } else {
            self
        }
    }

    /// The mixer after channel `idx` has processed `input`.
    pub open spec fn after_channel(self, idx: int, input: Seq<S>) -> Self {
        MixerModel {
            strips: self.strips.update(
                idx,
                channel_bands_after(self.channels[idx], self.strips[idx], input),
            ),
            meters: self.meters.update(
                idx,
                metered(self.meters[idx], self.channels[idx], self.strips[idx], input),
            ),
            ..self
        }
    }

    /// Whether the block that now ends completes a metering interval.
    pub open spec fn report_due(self) -> bool {
        self.frames_acc + 1 >= self.frames_per_report
    }

    /// The mixer after the end of a block: where a report is due the meters
    /// start over, and otherwise the block is counted.
    pub open spec fn after_block(self) -> Self {
        if self.report_due() {
            MixerModel {
                meters: Seq::new(self.meters.len(), |i: int| MeterAcc::<S>::empty()),
                frames_acc: 0,
                ..self
            }
        } else {
            MixerModel { frames_acc: self.frames_acc + 1, ..self }
        }
    }

    /// The levels reported at the end of a block: none unless a report is
    /// due, and then each channel's levels over the samples of the interval.
    pub open spec fn reports(self) -> Seq<UiMsg<S>> {
        if self.report_due() {
            Seq::new(
                self.meters.len(),
                |i: int|
                    UiMsg::Metering {
                        channel: i as usize,
                        metering: self.meters[i].levels(
                            ((self.frames_acc + 1) * self.frame_len) as usize,
                        ),
                    },
            )
        } else {
            Seq::empty()
        }
    }
}

/// The samples of the longest metering interval can be counted.
proof fn interval_fits(sample_rate: usize, frame_len: usize)
    requires
        frame_len > 0,
    ensures
        (frames_per_report(sample_rate as nat, frame_len as nat) + 1) * frame_len <= sample_rate
            + frame_len,
{
    let per_second = sample_rate as int / frame_len as int;
    let frames = per_second / 60;
    assert(frames <= per_second);
    assert(per_second * frame_len <= sample_rate) by (nonlinear_arith)
        requires
            per_second == sample_rate as int / frame_len as int,
            frame_len > 0,
            sample_rate >= 0,
    ;
    assert(frames * frame_len <= per_second * frame_len) by (nonlinear_arith)
        requires
            0 <= frames <= per_second,
            frame_len > 0,
    ;
    assert((frames + 1) * frame_len == frames * frame_len + frame_len) by (nonlinear_arith);
}

impl<S: Sample> Mixer<S> {
    /// A mixer for the channels of `config`, each muted and at gain zero,
    /// with the filter sets given and empty meters. There is none where the
    /// number of filter sets differs from the number of channels, where a
    /// filter does not take blocks of `frame_len` samples, or where a block
    /// is empty or too long for a second's worth of samples plus one block
    /// to be counted.
    pub fn new(
        config: &Config,
        strips: Vec<Vec<Band<S>>>,
        sample_rate: usize,
        frame_len: usize,
    ) -> (r: Option<Self>)
        requires
            forall|i: int, b: int|
                0 <= i < strips@.len() && 0 <= b < strips@[i]@.len() ==> (
                #[trigger] strips@[i]@[b])@.wf(),
        ensures
            r.is_some() == Self::buildable(config@.len(), strips@, sample_rate, frame_len),
            r.is_some() ==> {
                let m = r.unwrap()@;
                &&& m.wf()
                &&& m.channels == initial_channels::<S>(config@.len())
                &&& m.strips == Seq::new(strips@.len(), |i: int| bank_view(strips@[i]@))
                &&& m.meters == Seq::new(config@.len(), |i: int| MeterAcc::<S>::empty())
                &&& m.lookup == lookup_of(
                    config@.map_values(|entry: (Seq<char>, Channel)| entry.1),
                )
                &&& m.frame_len == frame_len
                &&& m.frames_per_report == frames_per_report(sample_rate as nat, frame_len as nat)
                &&& m.frames_acc == 0
                &&& !m.shutdown
            },
    {
        let state: State<S> = State::new(config);
        let count = state.channels.len();
        if strips.len() != count || frame_len == 0 || sample_rate > usize::MAX - frame_len {
            return None;
        }
        // every filter must take blocks of this length
        let mut i: usize = 0;
        while i < strips.len()
            invariant
                i <= strips@.len(),
                forall|k: int, b: int|
                    0 <= k < strips@.len() && 0 <= b < strips@[k]@.len() ==> (
                    #[trigger] strips@[k]@[b])@.wf(),
                forall|k: int|
                    0 <= k < i ==> bank_ready(
                        #[trigger] bank_view(strips@[k]@),
                        frame_len as nat,
                    ),
            decreases strips@.len() - i,
        {
            let mut b: usize = 0;
            while b < strips[i].len()
                invariant
                    i < strips@.len(),
                    b <= strips@[i as int]@.len(),
                    forall|k: int, c: int|
                        0 <= k < strips@.len() && 0 <= c < strips@[k]@.len() ==> (
                        #[trigger] strips@[k]@[c])@.wf(),
                    forall|c: int|
                        0 <= c < b ==> (#[trigger] strips@[i as int]@[c])@.accepts(
                            frame_len as nat,
                        ),
                decreases strips@[i as int]@.len() - b,
            {
                if !band_takes(&strips[i][b], frame_len) {
                    proof {
                        let bad = bank_view(strips@[i as int]@);
                        assert(!bad[b as int].accepts(frame_len as nat));
                    }
                    return None;
                }
                b += 1;
            }
            proof {
                let bank = bank_view(strips@[i as int]@);
                assert forall|c: int| 0 <= c < bank.len() implies (#[trigger] bank[c]).wf()
                    && bank[c].accepts(frame_len as nat) by {
                    assert(strips@[i as int]@[c]@.wf());
                    assert(strips@[i as int]@[c]@.accepts(frame_len as nat));
                }
            }
            i += 1;
        }
        let mut meter_accs: Vec<MeterAcc<S>> = Vec::with_capacity(count);
        let mut i: usize = 0;
        while i < count
            invariant
                i <= count,
                meter_accs@.len() == i,
                forall|j: int| 0 <= j < i ==> meter_accs@[j] == MeterAcc::<S>::empty(),
            decreases count - i,
        {
            meter_accs.push(MeterAcc::new());
            i += 1;
        }
        let midi_lookup = config.midi_lookup();
        let frames_in_meter_frame = (sample_rate / frame_len) / 60;
        proof {
            interval_fits(sample_rate, frame_len);
            lookup_in_range(config@.map_values(|entry: (Seq<char>, Channel)| entry.1));
        }
        let mixer = Mixer {
            state,
            strips,
            meter_accs,
            midi_lookup,
            frame_len,
            frames_in_meter_frame,
            frames_acc: 0,
            shutdown: false,
        };
        assert(mixer@.meters =~= Seq::new(config@.len(), |i: int| MeterAcc::<S>::empty()));
        assert(mixer@.strips =~= Seq::new(strips@.len(), |i: int| bank_view(strips@[i]@)));
        Some(mixer)
    }

    /// Whether a mixer can be built from these parts.
    pub open spec fn buildable(
        channels: nat,
        strips: Seq<Vec<Band<S>>>,
        sample_rate: usize,
        frame_len: usize,
    ) -> bool {
        &&& strips.len() == channels
        &&& frame_len > 0
        &&& sample_rate + frame_len <= usize::MAX
        &&& forall|i: int|
            0 <= i < strips.len() ==> bank_accepts(
                #[trigger] bank_view(strips[i]@),
                frame_len as nat,
            )
    }

    /// The number of channels.
    pub fn channel_count(&self) -> (r: usize)
        ensures
            r == self@.channels.len(),
    {
        self.state.channels.len()
    }

    /// The number of samples in a block.
    pub fn frame_len(&self) -> (r: usize)
        ensures
            r == self@.frame_len,
    {
        self.frame_len
    }

    /// Gain and mode of channel `idx`.
    pub fn channel(&self, idx: usize) -> (r: (S, ChannelMode))
        requires
            idx < self@.channels.len(),
        ensures
            r.0 == self@.channels[idx as int].gain,
            r.1 == self@.channels[idx as int].mode,
    {
        (self.state.channels[idx].gain, self.state.channels[idx].mode)
    }

    /// Handles one raw message from the control surface. Where its key is
    /// bound, sets the gain of the channel it is bound to and returns the
    /// news for the interface.
    pub fn handle_midi(&mut self, bytes: &[u8]) -> (r: Option<UiMsg<S>>)
        requires
            old(self)@.wf(),
        ensures
            final(self)@.wf(),
            final(self)@ == old(self)@.after_midi(bytes@),
            r == match old(self)@.midi_target(bytes@) {
                Some((channel, value)) => Some(
                    UiMsg::Levels { channel, level: Level::Gain(gain_of_value::<S>(value)) },
                ),
                None => None::<UiMsg<S>>,
            },
    {
        let evt = match MidiInput::parse(bytes) {
            Some(evt) => evt,
            None => {
                return None;
            },
        };
        let key = match MidiKey::from_opt(evt) {
            Some(key) => key,
            None => {
                return None;
            },
        };
        let value = match evt.value() {
            Some(value) => value,
            None => {
                return None;
            },
        };
        let effect = match self.midi_lookup.get(&key) {
            Some(effect) => effect,
            None => {
                return None;
            },
        };
        match effect.kind {
            MidiEffectKind::Gain => {
                let gain: S = value_to_gain(value);
                let mode = self.state.channels[effect.channel].mode;
                self.state.channels[effect.channel] = ChannelState { gain, mode };
                Some(UiMsg::Levels { channel: effect.channel, level: Level::Gain(gain) })
            },
        }
    }

    /// Handles the outcome of taking a message from the interface's queue.
    /// A message is applied; a disconnected queue asks for shutdown. Returns
    /// whether to take another: yes after a message, no once the queue is
    /// empty or gone.
    pub fn handle_received(&mut self, received: Received<S>) -> (r: bool)
        requires
            old(self)@.wf(),
        ensures
            final(self)@.wf(),
            final(self)@ == match received {
                Received::Message(msg) => old(self)@.after_msg(msg),
                Received::Empty => old(self)@,
                Received::Disconnected => (MixerModel { shutdown: true, ..old(self)@ }),
            },
            r == (received is Message),
    {
        match received {
            Received::Message(msg) => {
                if msg.channel < self.state.channels.len() {
                    self.state.update(msg);
                }
                true
            },
            Received::Empty => false,
            Received::Disconnected => {
                self.shutdown = true;
                false
            },
        }
    }

    /// Handles the outcome of putting a message on the interface's queue. A
    /// full queue is no error; a disconnected one asks for shutdown.
    pub fn handle_sent(&mut self, sent: Sent)
        requires
            old(self)@.wf(),
        ensures
            final(self)@.wf(),
            final(self)@ == (MixerModel {
                shutdown: old(self)@.shutdown || sent == Sent::Disconnected,
                ..old(self)@
            }),
    {
        match sent {
            Sent::Disconnected => {
                self.shutdown = true;
            },
            _ => {},
        }
    }

    /// Processes one block of channel `idx`.
    pub fn process_channel(&mut self, idx: usize, input: &[S], output: &mut [S])
        requires
            old(self)@.wf(),
            idx < old(self)@.channels.len(),
            input@.len() == old(self)@.frame_len,
            old(output)@.len() == old(self)@.frame_len,
        ensures
            final(self)@.wf(),
            final(self)@ == old(self)@.after_channel(idx as int, input@),
            final(output)@ == channel_output(
                old(self)@.channels[idx as int],
                old(self)@.strips[idx as int],
                input@,
            ),
    {
        let ghost before = self@;
        assert(bank_ready(before.strips[idx as int], before.frame_len));
        process_channel(
            &self.state.channels[idx],
            &mut self.strips[idx],
            &mut self.meter_accs[idx],
            input,
            output,
        );
        assert(self@.strips =~= before.after_channel(idx as int, input@).strips);
        assert forall|i: int| 0 <= i < self@.strips.len() implies bank_ready(
            #[trigger] self@.strips[i],
            self@.frame_len,
        ) by {
            if i != idx {
                assert(self@.strips[i] == before.strips[i]);
            }
        }
    }

    /// Ends a block. Once every `frames_per_report` blocks, returns each
    /// channel's levels over the interval, in the order of the channels, and
    /// starts the meters over; in between, returns nothing.
    pub fn end_block(&mut self) -> (r: Vec<UiMsg<S>>)
        requires
            old(self)@.wf(),
        ensures
            final(self)@.wf(),
            final(self)@ == old(self)@.after_block(),
            r@ == old(self)@.reports(),
    {
        let ghost before = self@;
        let mut reports: Vec<UiMsg<S>> = Vec::new();
        assert(self.frames_in_meter_frame + 1 <= (self.frames_in_meter_frame + 1) * self.frame_len)
            by (nonlinear_arith)
            requires
                self.frame_len >= 1,
        ;
        let frames = self.frames_acc + 1;
        if frames >= self.frames_in_meter_frame {
            assert(frames * self.frame_len <= (self.frames_in_meter_frame + 1) * self.frame_len)
                by (nonlinear_arith)
                requires
                    frames <= self.frames_in_meter_frame + 1,
                    self.frame_len >= 0,
            ;
            let count = frames * self.frame_len;
            let n = self.meter_accs.len();
            let mut idx: usize = 0;
            while idx < n
                invariant
                    idx <= n,
                    n == before.meters.len(),
                    self.meter_accs@.len() == n,
                    self.state.channels@ == before.channels,
                    self.strips@ == old(self).strips@,
                    self.midi_lookup@ == before.lookup,
                    self.frame_len == before.frame_len,
                    self.frames_in_meter_frame == before.frames_per_report,
                    self.shutdown == before.shutdown,
                    reports@.len() == idx,
                    forall|i: int| 0 <= i < idx ==> self.meter_accs@[i] == MeterAcc::<S>::empty(),
                    forall|i: int| idx <= i < n ==> self.meter_accs@[i] == before.meters[i],
                    forall|i: int|
                        0 <= i < idx ==> (#[trigger] reports@[i]) == (UiMsg::Metering {
                            channel: i as usize,
                            metering: before.meters[i].levels(count),
                        }),
                decreases n - idx,
            {
                let metering = self.meter_accs[idx].as_metering(count);
                reports.push(UiMsg::Metering { channel: idx, metering });
                self.meter_accs[idx].clear();
                idx += 1;
            }
            self.frames_acc = 0;
            assert(self@.meters =~= before.after_block().meters);
            assert(self@.strips =~= before.strips);
            assert(reports@ =~= before.reports());
        } else {
            self.frames_acc = frames;
            assert(self@.strips =~= before.strips);
            assert(reports@ =~= before.reports());
        }
        reports
    }

    /// What to tell the audio server at the end of the callback: to quit
    /// once an endpoint has been seen to disconnect, and to continue
    /// otherwise.
    pub fn control(&self) -> (r: Control)
        ensures
            r == if self@.shutdown {
                Control::Quit
            } else {
                Control::Continue
            },
    {
        if self.shutdown {
            Control::Quit
        } else {
            Control::Continue
        }
    }
}

/// Every band of the filter set takes blocks of `len` samples.
pub open spec fn bank_accepts<S: Sample>(bands: Seq<BandModel<S>>, len: nat) -> bool {
    forall|i: int| 0 <= i < bands.len() ==> (#[trigger] bands[i]).accepts(len)
}

/// Whether `band` takes blocks of `len` samples.
fn band_takes<S: Sample>(band: &Band<S>, len: usize) -> (r: bool)
    ensures
        r == band@.accepts(len as nat),
{
    match band {
        Band::Fir(f) => len >= f.len(),
        Band::Iir(f) => len > f.len(),
    }
}

/// Every effect in the lookup table of a list of channels names one of them.
pub proof fn lookup_in_range(channels: Seq<Channel>)
    ensures
        forall|key: MidiKey| #[trigger]
            lookup_of(channels).contains_key(key) ==> lookup_of(channels)[key].channel
                < channels.len(),
    decreases channels.len(),
{
    if channels.len() > 0 {
        lookup_in_range(channels.drop_last());
    }
}

} // verus!
