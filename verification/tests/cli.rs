use mixjack::cli::{
    value_to_gain, Channel, Config, ConfigError, MidiEffect, MidiEffectKind, MidiInput, MidiKey,
    MidiKeyKind, MidiLookup, Opt,
};

fn bound(volume: MidiKey) -> Channel {
    Channel { volume: Some(volume), ..Channel::empty() }
}

#[test]
fn midi_controller_message_is_decoded() {
    assert_eq!(
        MidiInput::parse(&[0xb3, 0x4d, 0x7f]),
        Some(MidiInput::Controller { channel: 3, controller: 0x4d, value: 127 })
    );
    assert_eq!(
        MidiInput::parse(&[0xb0, 0x00, 0x00, 0xff]),
        Some(MidiInput::Controller { channel: 0, controller: 0, value: 0 })
    );
}

#[test]
fn midi_note_on_message_is_decoded() {
    assert_eq!(
        MidiInput::parse(&[0x9f, 60, 100]),
        Some(MidiInput::NoteOn { channel: 15, note: 60, velocity: 100 })
    );
}

#[test]
fn midi_data_bytes_have_seven_bits() {
    assert_eq!(
        MidiInput::parse(&[0xb1, 0x8d, 0xff]),
        Some(MidiInput::Controller { channel: 1, controller: 0x0d, value: 127 })
    );
    assert_eq!(
        MidiInput::parse(&[0x91, 0xff, 0x80]),
        Some(MidiInput::NoteOn { channel: 1, note: 127, velocity: 0 })
    );
}

#[test]
fn midi_other_channel_messages_are_told_apart() {
    assert_eq!(MidiInput::parse(&[0x80, 60, 0]), Some(MidiInput::Other));
    assert_eq!(MidiInput::parse(&[0xa0, 60, 0]), Some(MidiInput::Other));
    assert_eq!(MidiInput::parse(&[0xe0, 0, 0x40]), Some(MidiInput::Other));
    assert_eq!(MidiInput::parse(&[0xc0, 5]), Some(MidiInput::Other));
    assert_eq!(MidiInput::parse(&[0xd0, 5]), Some(MidiInput::Other));
}

#[test]
fn midi_short_and_foreign_messages_are_none() {
    assert_eq!(MidiInput::parse(&[]), None);
    assert_eq!(MidiInput::parse(&[0xb0]), None);
    assert_eq!(MidiInput::parse(&[0xb0, 1]), None);
    assert_eq!(MidiInput::parse(&[0x90, 1]), None);
    assert_eq!(MidiInput::parse(&[0x80, 1]), None);
    assert_eq!(MidiInput::parse(&[0xc0]), None);
    assert_eq!(MidiInput::parse(&[0x7f, 1, 2]), None);
    assert_eq!(MidiInput::parse(&[0xf0, 1, 2, 0xf7]), None);
    assert_eq!(MidiInput::parse(&[0xf8]), None);
}

#[test]
fn midi_key_of_a_message() {
    assert_eq!(
        MidiKey::from_opt(MidiInput::Controller { channel: 2, controller: 7, value: 99 }),
        Some(MidiKey::controller(2, 7))
    );
    assert_eq!(
        MidiKey::from_opt(MidiInput::NoteOn { channel: 2, note: 7, velocity: 99 }),
        Some(MidiKey { channel: 2, kind: MidiKeyKind::Note(7) })
    );
    assert_eq!(MidiKey::from_opt(MidiInput::Other), None);
    assert_eq!(MidiInput::Controller { channel: 2, controller: 7, value: 99 }.value(), Some(99));
    assert_eq!(MidiInput::NoteOn { channel: 2, note: 7, velocity: 98 }.value(), Some(98));
    assert_eq!(MidiInput::Other.value(), None);
}

#[test]
fn midi_key_from_a_binding() {
    assert_eq!(MidiKey::from_raw(1, "ctrl", 77), Ok(MidiKey::controller(1, 77)));
    assert_eq!(
        MidiKey::from_raw(9, "note", 41),
        Ok(MidiKey { channel: 9, kind: MidiKeyKind::Note(41) })
    );
    assert_eq!(MidiKey::from_raw(1, "knob", 77), Err(ConfigError::UnrecognisedKeyKind));
    assert_eq!(MidiKey::from_raw(1, "", 77), Err(ConfigError::UnrecognisedKeyKind));
    assert_eq!(MidiKey::from_raw(1, "Ctrl", 77), Err(ConfigError::UnrecognisedKeyKind));
}

#[test]
fn midi_key_codes_do_not_collide() {
    let mut seen = std::collections::HashSet::new();
    for channel in [0u8, 1, 15, 255] {
        for number in [0u8, 1, 127, 255] {
            assert!(seen.insert(MidiKey::controller(channel, number).code()));
            assert!(seen.insert(MidiKey { channel, kind: MidiKeyKind::Note(number) }.code()));
        }
    }
    assert_eq!(MidiKey::controller(1, 2).code(), 514);
    assert_eq!(MidiKey { channel: 1, kind: MidiKeyKind::Note(2) }.code(), 770);
}

#[test]
fn controller_value_to_gain_covers_zero_to_one() {
    assert_eq!(value_to_gain::<i64>(127), 1);
    assert_eq!(value_to_gain::<i64>(126), 0);
    assert_eq!(value_to_gain::<i64>(0), 0);
    assert_eq!(value_to_gain::<i64>(254), 2);
}

#[test]
fn config_default_has_left_and_right() {
    let config = Config::default();
    assert_eq!(config.channel_names(), vec!["left".to_string(), "right".to_string()]);
    let channels = config.channel_list();
    assert_eq!(channels.len(), 2);
    assert!(channels.iter().all(|c| {
        c.high.is_none() && c.mid.is_none() && c.low.is_none() && c.volume.is_none()
    }));
}

#[test]
fn config_keeps_channels_sorted_by_name() {
    let mut config = Config::new();
    assert!(config.channel_list().is_empty());
    config.insert("drums".to_string(), bound(MidiKey::controller(0, 3)));
    config.insert("bass".to_string(), bound(MidiKey::controller(0, 1)));
    config.insert("vocals".to_string(), bound(MidiKey::controller(0, 4)));
    config.insert("bas".to_string(), bound(MidiKey::controller(0, 0)));
    config.insert("Zither".to_string(), bound(MidiKey::controller(0, 9)));
    assert_eq!(
        config.channel_names(),
        vec!["Zither", "bas", "bass", "drums", "vocals"]
            .into_iter()
            .map(String::from)
            .collect::<Vec<_>>()
    );
    let volumes: Vec<MidiKey> = config.channel_list().iter().map(|c| c.volume.unwrap()).collect();
    assert_eq!(
        volumes,
        vec![
            MidiKey::controller(0, 9),
            MidiKey::controller(0, 0),
            MidiKey::controller(0, 1),
            MidiKey::controller(0, 3),
            MidiKey::controller(0, 4),
        ]
    );
}

#[test]
fn config_insert_replaces_a_channel_of_the_same_name() {
    let mut config = Config::new();
    config.insert("a".to_string(), bound(MidiKey::controller(0, 1)));
    config.insert("b".to_string(), Channel::empty());
    config.insert("a".to_string(), bound(MidiKey::controller(0, 2)));
    assert_eq!(config.channel_names(), vec!["a".to_string(), "b".to_string()]);
    assert_eq!(config.channel_list()[0].volume, Some(MidiKey::controller(0, 2)));
}

#[test]
fn lookup_maps_volume_keys_to_channel_gains() {
    let mut config = Config::new();
    config.insert("a".to_string(), bound(MidiKey::controller(0, 0x4d)));
    config.insert("b".to_string(), Channel::empty());
    config.insert(
        "c".to_string(),
        Channel {
            high: Some(MidiKey::controller(0, 0x0d)),
            volume: Some(MidiKey { channel: 8, kind: MidiKeyKind::Note(0x29) }),
            ..Channel::empty()
        },
    );
    let lookup = MidiLookup::construct(&config);
    assert_eq!(
        lookup.get(&MidiKey::controller(0, 0x4d)),
        Some(MidiEffect { channel: 0, kind: MidiEffectKind::Gain })
    );
    assert_eq!(
        lookup.get(&MidiKey { channel: 8, kind: MidiKeyKind::Note(0x29) }),
        Some(MidiEffect { channel: 2, kind: MidiEffectKind::Gain })
    );
    // only volume keys are bound, and a note is not a controller
    assert_eq!(lookup.get(&MidiKey::controller(0, 0x0d)), None);
    assert_eq!(lookup.get(&MidiKey::controller(8, 0x29)), None);
    assert_eq!(lookup.get(&MidiKey::controller(1, 0x4d)), None);
}

#[test]
fn lookup_gives_a_shared_key_to_the_later_channel() {
    let mut config = Config::new();
    config.insert("a".to_string(), bound(MidiKey::controller(0, 7)));
    config.insert("b".to_string(), bound(MidiKey::controller(0, 7)));
    let lookup = config.midi_lookup();
    assert_eq!(
        lookup.get(&MidiKey::controller(0, 7)),
        Some(MidiEffect { channel: 1, kind: MidiEffectKind::Gain })
    );
}

#[test]
fn lookup_of_the_default_config_is_empty() {
    let lookup = Config::default().midi_lookup();
    assert_eq!(lookup.get(&MidiKey::controller(0, 0)), None);
}

#[test]
fn options_are_plain_values() {
    let opt = Opt { verbosity: 2, jack_name: "mixjack".to_string(), config_file: None };
    assert_eq!(opt.verbosity, 2);
    assert_eq!(opt.jack_name, "mixjack");
    assert!(opt.config_file.is_none());
}

#[test]
fn lookup_counts_the_keys_that_are_bound() {
    assert_eq!(Config::default().midi_lookup().len(), 0);
    let mut config = Config::new();
    config.insert("a".to_string(), bound(MidiKey::controller(0, 7)));
    config.insert("b".to_string(), bound(MidiKey::controller(0, 7)));
    config.insert("c".to_string(), bound(MidiKey { channel: 0, kind: MidiKeyKind::Note(7) }));
    config.insert("d".to_string(), Channel::empty());
    config.insert("e".to_string(), bound(MidiKey::controller(255, 255)));
    let lookup = config.midi_lookup();
    assert_eq!(lookup.len(), 3);
    let copy = lookup.clone();
    assert_eq!(copy, lookup);
    assert_eq!(copy.len(), 3);
}

#[test]
fn config_clone_has_the_same_channels() {
    let mut config = Config::new();
    config.insert("b".to_string(), bound(MidiKey::controller(0, 1)));
    config.insert("a".to_string(), Channel::empty());
    let copy = config.clone();
    config.insert("c".to_string(), Channel::empty());
    assert_eq!(copy.channel_names(), vec!["a".to_string(), "b".to_string()]);
    assert_eq!(copy.channel_list()[1].volume, Some(MidiKey::controller(0, 1)));
    assert_eq!(config.channel_names().len(), 3);
}
