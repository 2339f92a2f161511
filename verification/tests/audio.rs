use mixjack::audio::{
    AudioMsg, AudioMsgKind, Control, Info, Mixer, Received, Sent, State,
};
use mixjack::cli::{Channel, Config, MidiKey};
use mixjack::data::ChannelMode;
use mixjack::effects::{Band, FIRFilter, IIRFilter};
use mixjack::gui::{Level, UiMsg};
use mixjack::sample::Sample;

#[derive(Clone, Copy, Debug, PartialEq)]
struct F(f32);

impl Sample for F {
    fn zero_spec() -> Self {
        Self::zero()
    }
    fn one_spec() -> Self {
        Self::one()
    }
    fn plus_spec(self, rhs: Self) -> Self {
        self.plus(rhs)
    }
    fn minus_spec(self, rhs: Self) -> Self {
        self.minus(rhs)
    }
    fn times_spec(self, rhs: Self) -> Self {
        self.times(rhs)
    }
    fn over_spec(self, rhs: Self) -> Self {
        self.over(rhs)
    }
    fn root_spec(self) -> Self {
        self.root()
    }
    fn magnitude_spec(self) -> Self {
        self.magnitude()
    }
    fn same_spec(self, rhs: Self) -> bool {
        self.same(rhs)
    }
    fn below_spec(self, rhs: Self) -> bool {
        self.below(rhs)
    }
    fn from_count_spec(n: usize) -> Self {
        Self::from_count(n)
    }
    fn zero() -> Self {
        F(0.0)
    }
    fn one() -> Self {
        F(1.0)
    }
    fn plus(self, rhs: Self) -> Self {
        F(self.0 + rhs.0)
    }
    fn minus(self, rhs: Self) -> Self {
        F(self.0 - rhs.0)
    }
    fn times(self, rhs: Self) -> Self {
        F(self.0 * rhs.0)
    }
    fn over(self, rhs: Self) -> Self {
        F(self.0 / rhs.0)
    }
    fn root(self) -> Self {
        F(self.0.sqrt())
    }
    fn magnitude(self) -> Self {
        F(self.0.abs())
    }
    fn same(self, rhs: Self) -> bool {
        self.0 == rhs.0
    }
    fn below(self, rhs: Self) -> bool {
        self.0 < rhs.0
    }
    fn from_count(n: usize) -> Self {
        F(n as f32)
    }
}

fn one_channel() -> Config {
    let mut config = Config::new();
    config.insert(
        "main".to_string(),
        Channel { volume: Some(MidiKey::controller(0, 0x4d)), ..Channel::empty() },
    );
    config
}

fn unity<S: Sample>() -> Vec<Band<S>> {
    vec![Band::Fir(FIRFilter::passthru())]
}

fn gain<S>(channel: usize, gain: S) -> Received<S> {
    Received::Message(AudioMsg { channel, kind: AudioMsgKind::Gain(gain) })
}

fn mode<S>(channel: usize, mode: ChannelMode) -> Received<S> {
    Received::Message(AudioMsg { channel, kind: AudioMsgKind::Mode(mode) })
}

#[test]
fn state_starts_silent_and_muted() {
    let state: State<i64> = State::new(&Config::default());
    assert_eq!(state.channels.len(), 2);
    for channel in &state.channels {
        assert_eq!(channel.gain, 0);
        assert_eq!(channel.mode, ChannelMode::Mute);
    }
    assert_eq!(ChannelMode::default(), ChannelMode::Mute);
}

#[test]
fn state_update_changes_one_thing_of_one_channel() {
    let mut state: State<i64> = State::new(&Config::default());
    state.update(AudioMsg { channel: 1, kind: AudioMsgKind::Gain(7) });
    assert_eq!(state.channels[1].gain, 7);
    assert_eq!(state.channels[1].mode, ChannelMode::Mute);
    state.update(AudioMsg { channel: 1, kind: AudioMsgKind::Mode(ChannelMode::Bypass) });
    assert_eq!(state.channels[1].gain, 7);
    assert_eq!(state.channels[1].mode, ChannelMode::Bypass);
    assert_eq!(state.channels[0].gain, 0);
    assert_eq!(state.channels[0].mode, ChannelMode::Mute);
}

#[test]
fn mixer_needs_parts_that_fit() {
    let config = one_channel();
    assert!(Mixer::<i64>::new(&config, vec![unity()], 48000, 64).is_some());
    // a filter set for every channel
    assert!(Mixer::<i64>::new(&config, vec![], 48000, 64).is_none());
    assert!(Mixer::<i64>::new(&config, vec![unity(), unity()], 48000, 64).is_none());
    // blocks that are not empty
    assert!(Mixer::<i64>::new(&config, vec![unity()], 48000, 0).is_none());
    // filters that take the block
    let long = vec![Band::Fir(FIRFilter::new(vec![1i64; 65]))];
    assert!(Mixer::new(&config, vec![long], 48000, 64).is_none());
    let fits = vec![Band::Fir(FIRFilter::new(vec![1i64; 64]))];
    assert!(Mixer::new(&config, vec![fits], 48000, 64).is_some());
    let recursive = vec![Band::Iir(IIRFilter::<i64>::passthru(2))];
    assert!(Mixer::new(&config, vec![recursive], 48000, 2).is_none());
    let recursive = vec![Band::Iir(IIRFilter::<i64>::passthru(3))];
    assert!(Mixer::new(&config, vec![recursive], 48000, 3).is_some());
    // a second of samples that can be counted
    assert!(Mixer::<i64>::new(&config, vec![unity()], usize::MAX, 64).is_none());
}

#[test]
fn mute_writes_silence() {
    let mut mixer = Mixer::<i64>::new(&one_channel(), vec![unity()], 6000, 4).unwrap();
    assert_eq!(mixer.channel(0), (0, ChannelMode::Mute));
    mixer.handle_received(gain(0, 5));
    let mut output = vec![9i64; 4];
    mixer.process_channel(0, &[1, -2, 3, -4], &mut output);
    assert_eq!(output, vec![0, 0, 0, 0]);
}

#[test]
fn bypass_copies_the_input_and_meters_it() {
    let mut mixer = Mixer::<i64>::new(&one_channel(), vec![unity()], 240, 4).unwrap();
    mixer.handle_received(mode(0, ChannelMode::Bypass));
    let mut output = vec![9i64; 4];
    mixer.process_channel(0, &[1, -2, 3, -4], &mut output);
    assert_eq!(output, vec![1, -2, 3, -4]);
    let reports = mixer.end_block();
    assert_eq!(reports.len(), 1);
    match &reports[0] {
        UiMsg::Metering { channel, metering } => {
            assert_eq!(*channel, 0);
            assert_eq!(metering.max_in, 4);
            assert_eq!(metering.max_out, 4);
            // floor(sqrt(30 / 4))
            assert_eq!(metering.rms_in, 2);
            assert_eq!(metering.rms_out, 2);
        }
        other => panic!("unexpected {:?}", other),
    }
}

#[test]
fn normal_at_gain_zero_is_silent_and_leaves_the_filters() {
    let bands = vec![Band::Fir(FIRFilter::new(vec![1i64, 1, 1]))];
    let mut mixer = Mixer::new(&one_channel(), vec![bands], 6000, 4).unwrap();
    mixer.handle_received(mode(0, ChannelMode::Normal));
    mixer.handle_received(gain(0, 3));
    let mut output = vec![0i64; 4];
    mixer.process_channel(0, &[0, 0, 0, 1], &mut output);
    assert_eq!(output, vec![0, 0, 0, 3]);
    // the tail of that block waits in the filter while the gain is zero
    mixer.handle_received(gain(0, 0));
    mixer.process_channel(0, &[5, 5, 5, 5], &mut output);
    assert_eq!(output, vec![0, 0, 0, 0]);
    mixer.handle_received(gain(0, 3));
    mixer.process_channel(0, &[0, 0, 0, 0], &mut output);
    assert_eq!(output, vec![3, 3, 0, 0]);
}

#[test]
fn normal_sums_the_bands_of_the_filter_set() {
    let bands = vec![
        Band::Fir(FIRFilter::new(vec![1i64, 0])),
        Band::Fir(FIRFilter::new(vec![0i64, 10])),
        Band::Iir(IIRFilter::single_pole(100, 0, 0, 4)),
    ];
    let mut mixer = Mixer::new(&one_channel(), vec![bands], 6000, 4).unwrap();
    mixer.handle_received(mode(0, ChannelMode::Normal));
    mixer.handle_received(gain(0, 2));
    let mut output = vec![7i64; 4];
    mixer.process_channel(0, &[1, 2, 3, 4], &mut output);
    assert_eq!(output, vec![202, 424, 646, 868]);
}

#[test]
fn gain_message_then_unity_filters_scale_the_block() {
    let mut mixer = Mixer::<F>::new(&one_channel(), vec![unity()], 48000, 800).unwrap();
    assert_eq!(mixer.channel_count(), 1);
    assert_eq!(mixer.frame_len(), 800);
    assert!(mixer.handle_received(gain(0, F(0.8))));
    assert!(mixer.handle_received(mode(0, ChannelMode::Normal)));
    assert!(!mixer.handle_received(Received::Empty));
    let input = vec![F(1.0); 800];
    let mut output = vec![F(0.0); 800];
    mixer.process_channel(0, &input, &mut output);
    assert!(output.iter().all(|s| *s == F(0.8)));
    // 48000 / 800 / 60 = 1: every block ends a metering interval
    let reports = mixer.end_block();
    assert_eq!(reports.len(), 1);
    match &reports[0] {
        UiMsg::Metering { channel, metering } => {
            assert_eq!(*channel, 0);
            assert!((metering.rms_out.0 - 0.8).abs() < 1e-5);
            assert!((metering.max_out.0 - 0.8).abs() < 1e-6);
            assert!((metering.rms_in.0 - 1.0).abs() < 1e-5);
            assert_eq!(metering.max_in, F(1.0));
        }
        other => panic!("unexpected {:?}", other),
    }
    assert_eq!(mixer.control(), Control::Continue);
}

#[test]
fn metering_is_reported_once_per_interval() {
    // 7200 / 40 / 60 = 3 blocks per report
    let mut mixer = Mixer::<i64>::new(&Config::default(), vec![unity(), unity()], 7200, 40).unwrap();
    mixer.handle_received(mode(1, ChannelMode::Bypass));
    let input = vec![2i64; 40];
    let mut output = vec![0i64; 40];
    for round in 0..2 {
        for block in 0..3 {
            mixer.process_channel(0, &input, &mut output);
            mixer.process_channel(1, &input, &mut output);
            let reports = mixer.end_block();
            if block < 2 {
                assert!(reports.is_empty(), "round {} block {}", round, block);
            } else {
                assert_eq!(reports.len(), 2);
                for (idx, report) in reports.iter().enumerate() {
                    match report {
                        UiMsg::Metering { channel, metering } => {
                            assert_eq!(*channel, idx);
                            assert_eq!(metering.max_in, 2);
                            assert_eq!(metering.rms_in, 2);
                            assert_eq!(metering.rms_out, if idx == 1 { 2 } else { 0 });
                        }
                        other => panic!("unexpected {:?}", other),
                    }
                }
            }
        }
    }
}

#[test]
fn slow_streams_report_every_block() {
    // 100 / 50 / 60 = 0: a report is due at the end of every block
    let mut mixer = Mixer::<i64>::new(&one_channel(), vec![unity()], 100, 50).unwrap();
    assert_eq!(mixer.end_block().len(), 1);
    assert_eq!(mixer.end_block().len(), 1);
}

#[test]
fn bound_controller_sets_the_gain_and_tells_the_interface() {
    let mut mixer = Mixer::<F>::new(&one_channel(), vec![unity()], 48000, 64).unwrap();
    match mixer.handle_midi(&[0xb0, 0x4d, 127]) {
        Some(UiMsg::Levels { channel, level: Level::Gain(gain) }) => {
            assert_eq!(channel, 0);
            assert_eq!(gain, F(1.0));
        }
        other => panic!("unexpected {:?}", other),
    }
    assert_eq!(mixer.channel(0), (F(1.0), ChannelMode::Mute));
    match mixer.handle_midi(&[0xb0, 0x4d, 0]) {
        Some(UiMsg::Levels { level: Level::Gain(gain), .. }) => assert_eq!(gain, F(0.0)),
        other => panic!("unexpected {:?}", other),
    }
    match mixer.handle_midi(&[0xb0, 0x4d, 64]) {
        Some(UiMsg::Levels { level: Level::Gain(gain), .. }) => assert_eq!(gain, F(64.0 / 127.0)),
        other => panic!("unexpected {:?}", other),
    }
}

#[test]
fn unbound_and_foreign_messages_change_nothing() {
    let mut mixer = Mixer::<i64>::new(&one_channel(), vec![unity()], 48000, 64).unwrap();
    mixer.handle_received(gain(0, 5));
    assert!(mixer.handle_midi(&[0xb0, 0x4e, 127]).is_none());
    assert!(mixer.handle_midi(&[0xb1, 0x4d, 127]).is_none());
    assert!(mixer.handle_midi(&[0x90, 0x4d, 127]).is_none());
    assert!(mixer.handle_midi(&[0x80, 0x4d, 127]).is_none());
    assert!(mixer.handle_midi(&[0xb0, 0x4d]).is_none());
    assert!(mixer.handle_midi(&[]).is_none());
    assert_eq!(mixer.channel(0), (5, ChannelMode::Mute));
}

#[test]
fn message_for_a_missing_channel_is_ignored() {
    let mut mixer = Mixer::<i64>::new(&one_channel(), vec![unity()], 48000, 64).unwrap();
    assert!(mixer.handle_received(gain(1, 5)));
    assert!(mixer.handle_received(mode(7, ChannelMode::Normal)));
    assert_eq!(mixer.channel(0), (0, ChannelMode::Mute));
    assert_eq!(mixer.control(), Control::Continue);
}

#[test]
fn disconnected_queues_ask_for_shutdown() {
    let mut mixer = Mixer::<i64>::new(&one_channel(), vec![unity()], 48000, 64).unwrap();
    mixer.handle_sent(Sent::Delivered);
    mixer.handle_sent(Sent::Full);
    assert_eq!(mixer.control(), Control::Continue);
    mixer.handle_sent(Sent::Disconnected);
    assert_eq!(mixer.control(), Control::Quit);
    mixer.handle_sent(Sent::Delivered);
    assert_eq!(mixer.control(), Control::Quit);

    let mut mixer = Mixer::<i64>::new(&one_channel(), vec![unity()], 48000, 64).unwrap();
    assert!(!mixer.handle_received(Received::Empty));
    assert_eq!(mixer.control(), Control::Continue);
    assert!(!mixer.handle_received(Received::Disconnected));
    assert_eq!(mixer.control(), Control::Quit);
}

#[test]
fn info_describes_the_client() {
    let info = Info::new("mixjack".to_string(), 44100, 1024);
    assert_eq!(
        info.log(),
        vec![
            "\"mixjack\" jack audio client".to_string(),
            "  sample rate: 44100".to_string(),
            "  buffer size: 1024".to_string(),
        ]
    );
    let info = Info::new(String::new(), 0, 7);
    assert_eq!(
        info.log(),
        vec![
            "\"\" jack audio client".to_string(),
            "  sample rate: 0".to_string(),
            "  buffer size: 7".to_string(),
        ]
    );
    let info = Info::new("x".to_string(), 1000000, u32::MAX);
    assert_eq!(info.log()[1], "  sample rate: 1000000");
    assert_eq!(info.log()[2], "  buffer size: 4294967295");
}
