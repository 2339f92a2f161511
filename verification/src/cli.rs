//! The validated shape of the mixer's configuration: which channels exist,
//! in which order, and which control-surface keys are bound to them.
use crate::sample::Sample;
use fnv::FnvHashMap;
use im::OrdMap;
use midi_event::Parse;
use vstd::prelude::*;

verus! {

/// Options of a run.
#[derive(Debug)]
pub struct Opt {
    /// How verbose to be (0 = info, 1 = debug, 2 and up = trace).
    pub verbosity: u32,
    /// The name under which the mixer registers with the audio server.
    pub jack_name: String,
    /// Where to read the configuration from, if not from a default place.
    pub config_file: Option<String>,
}

/// The key bindings of one channel.
#[derive(Clone, Copy, Debug)]
pub struct Channel {
    pub high: Option<MidiKey>,
    pub mid: Option<MidiKey>,
    pub low: Option<MidiKey>,
    pub volume: Option<MidiKey>,
}

impl Channel {
    /// A channel with nothing bound.
    pub fn empty() -> (r: Self)
        ensures
            r == Channel::unbound(),
    {
        Channel { high: None, mid: None, low: None, volume: None }
    }

    pub open spec fn unbound() -> Self {
        Channel { high: None, mid: None, low: None, volume: None }
    }
}

/// A control on the surface: a controller or a note on one MIDI channel.
#[derive(Copy, Clone, Debug, Hash, PartialEq, Eq, Structural)]
pub struct MidiKey {
    pub channel: u8,
    pub kind: MidiKeyKind,
}

#[derive(Clone, Copy, Debug, Hash, PartialEq, Eq, Structural)]
pub enum MidiKeyKind {
    Controller(u8),
    Note(u8),
}

/// A decoded message from the control surface, as far as the mixer reads it.
#[derive(Clone, Copy, Debug, PartialEq, Eq, Structural)]
pub enum MidiInput {
    /// A controller was set to a value.
    Controller { channel: u8, controller: u8, value: u8 },
    /// A note was struck with a velocity.
    NoteOn { channel: u8, note: u8, velocity: u8 },
    /// Any other channel message.
    Other,
}

/// A key binding that names a kind of key the mixer does not know.
#[derive(Clone, Copy, Debug, PartialEq, Eq, Structural)]
pub enum ConfigError {
    UnrecognisedKeyKind,
}

/// What a key does: an effect on one mixer channel.
#[derive(Clone, Copy, Debug, PartialEq, Eq, Structural)]
pub struct MidiEffect {
    pub channel: usize,
    pub kind: MidiEffectKind,
}

#[derive(Clone, Copy, Debug, PartialEq, Eq, Structural)]
pub enum MidiEffectKind {
    Gain,
}

/// The message that `bytes` decode to: a channel message has its kind in the
/// high four bits of the first byte and its channel in the low four, and
/// carries one or two data bytes of seven bits each. Anything shorter than
/// its kind calls for, and anything that is no channel message, is none.
pub open spec fn decoded(bytes: Seq<u8>) -> Option<MidiInput> {
    if bytes.len() == 0 {
        None
    } else {
        let status = bytes[0] & 0xF0;
        let channel = bytes[0] & 0x0F;
        if status == 0xB0 && bytes.len() >= 3 {
            Some(
                MidiInput::Controller {
                    channel,
                    controller: bytes[1] & 0x7F,
                    value: bytes[2] & 0x7F,
                },
            )
        } else if status == 0x90 && bytes.len() >= 3 {
            Some(MidiInput::NoteOn { channel, note: bytes[1] & 0x7F, velocity: bytes[2] & 0x7F })
        } else if (status == 0x80 || status == 0xA0 || status == 0xE0) && bytes.len() >= 3 {
            Some(MidiInput::Other)
        } else if (status == 0xC0 || status == 0xD0) && bytes.len() >= 2 {
            Some(MidiInput::Other)
        } else {
            None
        }
    }
}

/// Decodes one raw message with `midi_event`'s `MidiEvent::parse`. The
/// contract restates that parser for channel messages: which status nibble
/// gives which event, how many bytes each needs, and that data bytes are
/// masked to seven bits. System messages parse to no `MidiEvent`.
#[verifier::external_body]
fn decode_midi(bytes: &[u8]) -> (r: Option<MidiInput>)
    ensures
        r == decoded(bytes@),
{
    match midi_event::MidiEvent::parse(bytes) {
        Some(midi_event::MidiEvent {
            channel,
            event: midi_event::MidiEventType::Controller(controller, value),
        }) => Some(MidiInput::Controller { channel, controller, value }),
        Some(midi_event::MidiEvent {
            channel,
            event: midi_event::MidiEventType::NoteOn(note, velocity),
        }) => Some(MidiInput::NoteOn { channel, note: note.into(), velocity }),
        Some(_) => Some(MidiInput::Other),
        None => None,
    }
}

impl MidiInput {
    /// Decodes one raw message from the control surface.
    pub fn parse(bytes: &[u8]) -> (r: Option<MidiInput>)
        ensures
            r == decoded(bytes@),
    {
        decode_midi(bytes)
    }

    /// The value a message carries: a controller's setting or a note's
    /// velocity, from 0 to 127.
    pub open spec fn value_spec(self) -> Option<u8> {
        match self {
            MidiInput::Controller { value, .. } => Some(value),
            MidiInput::NoteOn { velocity, .. } => Some(velocity),
            MidiInput::Other => None,
        }
    }

    pub fn value(&self) -> (r: Option<u8>)
        ensures
            r == self.value_spec(),
    {
        match self {
            MidiInput::Controller { value, .. } => Some(*value),
            MidiInput::NoteOn { velocity, .. } => Some(*velocity),
            MidiInput::Other => None,
        }
    }
}

/// The gain that a controller value stands for: `value / 127`, so that the
/// controller's range 0 to 127 covers gains from zero to one.
pub open spec fn gain_of_value<S: Sample>(value: u8) -> S {
    S::from_count_spec(value as usize).over_spec(S::from_count_spec(127))
}

/// Converts a controller value to a gain.
pub fn value_to_gain<S: Sample>(value: u8) -> (r: S)
    ensures
        r == gain_of_value::<S>(value),
{
    S::from_count(value as usize).over(S::from_count(127))
}

impl MidiKey {
    /// The key that a message comes from, if it is one the mixer may handle.
    pub open spec fn of_input(evt: MidiInput) -> Option<MidiKey> {
        match evt {
            MidiInput::Controller { channel, controller, .. } => Some(
                MidiKey { channel, kind: MidiKeyKind::Controller(controller) },
            ),
            MidiInput::NoteOn { channel, note, .. } => Some(
                MidiKey { channel, kind: MidiKeyKind::Note(note) },
            ),
            MidiInput::Other => None,
        }
    }

    /// If the event is one that we might handle, convert it to its key.
    pub fn from_opt(evt: MidiInput) -> (r: Option<Self>)
        ensures
            r == Self::of_input(evt),
    {
        match evt {
            MidiInput::Controller { channel, controller, .. } => Some(
                MidiKey { channel, kind: MidiKeyKind::Controller(controller) },
            ),
            MidiInput::NoteOn { channel, note, .. } => Some(
                MidiKey { channel, kind: MidiKeyKind::Note(note) },
            ),
            MidiInput::Other => None,
        }
    }

    /// The key of controller number `controller` on `channel`.
    pub fn controller(channel: u8, controller: u8) -> (r: Self)
        ensures
            r == (MidiKey { channel, kind: MidiKeyKind::Controller(controller) }),
    {
        MidiKey { channel, kind: MidiKeyKind::Controller(controller) }
    }

    /// The key that a binding `[channel, kind, number]` names, where `kind`
    /// is `"ctrl"` for a controller or `"note"` for a note.
    pub open spec fn of_raw(channel: u8, kind: Seq<char>, number: u8) -> Result<
        MidiKey,
        ConfigError,
    > {
        if kind == "ctrl"@ {
            Ok(MidiKey { channel, kind: MidiKeyKind::Controller(number) })
        } else if kind == "note"@ {
            Ok(MidiKey { channel, kind: MidiKeyKind::Note(number) })
        } else {
            Err(ConfigError::UnrecognisedKeyKind)
        }
    }

    /// Validates a binding as it stands in a configuration file.
    pub fn from_raw(channel: u8, kind: &str, number: u8) -> (r: Result<MidiKey, ConfigError>)
        ensures
            r == Self::of_raw(channel, kind@, number),
    {
        let given = kind.to_owned();
        if given == "ctrl".to_owned() {
            Ok(MidiKey { channel, kind: MidiKeyKind::Controller(number) })
        } else if given == "note".to_owned() {
            Ok(MidiKey { channel, kind: MidiKeyKind::Note(number) })
        } else {
            Err(ConfigError::UnrecognisedKeyKind)
        }
    }

    /// A number that identifies the key: distinct keys have distinct codes.
    pub open spec fn code_spec(self) -> u32 {
        match self.kind {
            MidiKeyKind::Controller(number) => (self.channel * 512 + number) as u32,
            MidiKeyKind::Note(number) => (self.channel * 512 + 256 + number) as u32,
        }
    }

    pub fn code(&self) -> (r: u32)
        ensures
            r == self.code_spec(),
    {
        let channel: u32 = self.channel as u32;
        match self.kind {
            MidiKeyKind::Controller(number) => channel * 512 + number as u32,
            MidiKeyKind::Note(number) => channel * 512 + 256 + number as u32,
        }
    }

    /// Keys with the same code are the same key.
    pub proof fn code_identifies(a: MidiKey, b: MidiKey)
        requires
            a.code_spec() == b.code_spec(),
        ensures
            a == b,
    {
    }
}

/// The lookup table that the channels of a configuration give rise to: each
/// channel with a volume key binds that key to the gain of the channel's
/// index. Where two channels name the same key, the later one has it.
pub open spec fn lookup_of(channels: Seq<Channel>) -> Map<MidiKey, MidiEffect>
    decreases channels.len(),
{
    if channels.len() == 0 {
        Map::empty()
    } else {
        let before = lookup_of(channels.drop_last());
        match channels.last().volume {
            Some(key) => before.insert(
                key,
                MidiEffect { channel: (channels.len() - 1) as usize, kind: MidiEffectKind::Gain },
            ),
            None => before,
        }
    }
}

/// Key codes to effects, hashed with FNV.
pub type Table = FnvHashMap<u32, MidiEffect>;

/// Channel names to channels, sorted by name.
pub type ChannelMap = OrdMap<String, Channel>;

/// An empty table, from `FnvHashMap::default`.
#[verifier::external_body]
fn table_new() -> (r: Table)
    ensures
        r@ == (Map::<u32, MidiEffect>::empty()),
{
    FnvHashMap::default()
}

/// `HashMap::insert` under the FNV hasher: afterwards the table maps `code`
/// to `effect` and is otherwise as before.
#[verifier::external_body]
fn table_insert(table: &mut Table, code: u32, effect: MidiEffect)
    ensures
        final(table)@ == old(table)@.insert(code, effect),
{
    table.insert(code, effect);
}

/// `HashMap::get` under the FNV hasher: the effect stored under `code`, if
/// there is one.
#[verifier::external_body]
fn table_get(table: &Table, code: u32) -> (r: Option<MidiEffect>)
    ensures
        r == if table@.contains_key(code) {
            Some(table@[code])
        } else {
            None::<MidiEffect>
        },
{
    table.get(&code).copied()
}

/// `HashMap::len`: the number of codes in the table.
#[verifier::external_body]
fn table_len(table: &Table) -> (r: usize)
    ensures
        r == table@.dom().len(),
{
    table.len()
}

/// The key with a given code, where the code is one.
pub open spec fn key_of_code(code: u32) -> MidiKey {
    if code % 512 < 256 {
        MidiKey { channel: (code / 512) as u8, kind: MidiKeyKind::Controller((code % 256) as u8) }
    } else {
        MidiKey { channel: (code / 512) as u8, kind: MidiKeyKind::Note((code % 256) as u8) }
    }
}

/// The largest code of a key, and one more.
pub const CODES: u32 = 131072;

/// A table for quick lookups from key to effect.
#[derive(Debug, Clone, PartialEq)]
pub struct MidiLookup(Table);

impl View for MidiLookup {
    type V = Map<MidiKey, MidiEffect>;

    closed spec fn view(&self) -> Map<MidiKey, MidiEffect> {
        Map::new(
            |key: MidiKey| self.0@.contains_key(key.code_spec()),
            |key: MidiKey| self.0@[key.code_spec()],
        )
    }
}

impl MidiLookup {
    /// The table holds finitely many effects, each under the code of a key.
    pub closed spec fn wf(&self) -> bool {
        &&& self.0@.dom().finite()
        &&& forall|code: u32| #[trigger] self.0@.contains_key(code) ==> code < CODES
    }

    /// The table for the channels of `config`, taken in the configuration's
    /// order.
    pub fn construct(config: &Config) -> (r: Self)
        ensures
            r@ == lookup_of(config@.map_values(|entry: (Seq<char>, Channel)| entry.1)),
            r.wf(),
    {
        let channels = channels_listed(&config.channels);
        let ghost listed = config@.map_values(|entry: (Seq<char>, Channel)| entry.1);
        assert(channels@ == listed);
        let mut lookup = MidiLookup(table_new());
        assert(lookup@ =~= lookup_of(listed.take(0)));
        let mut idx: usize = 0;
        while idx < channels.len()
            invariant
                idx <= channels.len(),
                channels@ == listed,
                lookup@ == lookup_of(listed.take(idx as int)),
                lookup.wf(),
            decreases channels.len() - idx,
        {
            let ghost before = lookup@;
            assert(listed.take(idx + 1).drop_last() =~= listed.take(idx as int));
            match channels[idx].volume {
                Some(key) => {
                    let effect = MidiEffect { channel: idx, kind: MidiEffectKind::Gain };
                    table_insert(&mut lookup.0, key.code(), effect);
                    assert(lookup@ =~= before.insert(key, effect)) by {
                        assert forall|other: MidiKey|
                            other.code_spec() == key.code_spec() implies other == key by {
                            MidiKey::code_identifies(other, key);
                        }
                    }
                },
                None => {},
            }
            idx += 1;
        }
        assert(listed.take(listed.len() as int) =~= listed);
        lookup
    }

    /// The number of keys that are bound.
    pub fn len(&self) -> (r: usize)
        requires
            self.wf(),
        ensures
            self@.dom().finite(),
            r == self@.dom().len(),
    {
        let r = table_len(&self.0);
        proof {
            let codes = self.0@.dom();
            let keys = self@.dom();
            assert(codes.map(|code: u32| key_of_code(code)) =~= keys) by {
                assert forall|key: MidiKey| keys.contains(key) implies codes.map(
                    |code: u32| key_of_code(code),
                ).contains(key) by {
                    assert(codes.contains(key.code_spec()));
                    assert(key_of_code(key.code_spec()) == key);
                }
                assert forall|key: MidiKey|
                    codes.map(|code: u32| key_of_code(code)).contains(key) implies keys.contains(
                    key,
                ) by {
                    let code = choose|code: u32| codes.contains(code) && key == key_of_code(code);
                    assert(self.0@.contains_key(code));
                    assert(key.code_spec() == code);
                }
            }
            assert(vstd::relations::injective_on(|code: u32| key_of_code(code), codes)) by {
                assert forall|a: u32, b: u32|
                    codes.contains(a) && codes.contains(b) && key_of_code(a) == key_of_code(
                        b,
                    ) implies a == b by {
                    assert(self.0@.contains_key(a) && self.0@.contains_key(b));
                    assert(key_of_code(a).code_spec() == a);
                    assert(key_of_code(b).code_spec() == b);
                }
            }
            vstd::set_lib::lemma_map_size(codes, keys, |code: u32| key_of_code(code));
        }
        r
    }

    /// The effect bound to `key`, if any.
    pub fn get(&self, key: &MidiKey) -> (r: Option<MidiEffect>)
        ensures
            r == if self@.contains_key(*key) {
                Some(self@[*key])
            } else {
                None::<MidiEffect>
            },
    {
        table_get(&self.0, key.code())
    }
}

#[verifier::external_type_specification]
#[verifier::external_body]
#[verifier::reject_recursive_types(K)]
#[verifier::reject_recursive_types(V)]
pub struct ExOrdMap<K, V>(OrdMap<K, V>);

#[verifier::external_type_specification]
#[verifier::external_body]
pub struct ExFnvHasher(fnv::FnvHasher);

#[verifier::external_type_specification]
#[verifier::external_body]
#[verifier::reject_recursive_types(H)]
pub struct ExBuildHasherDefault<H>(std::hash::BuildHasherDefault<H>);

/// The entries of a channel map, each a name and its channel, in the order
/// in which the map is walked: ascending by name.
pub uninterp spec fn channel_entries(channels: OrdMap<String, Channel>) -> Seq<(Seq<char>, Channel)>;

/// Whether name `a` sorts strictly before name `b`: the order of strings,
/// character by character, a proper prefix first.
pub open spec fn name_before(a: Seq<char>, b: Seq<char>) -> bool
    decreases a.len(),
{
    if b.len() == 0 {
        false
    } else if a.len() == 0 {
        true
    } else if a[0] != b[0] {
        (a[0] as u32) < (b[0] as u32)
    } else {
        name_before(a.drop_first(), b.drop_first())
    }
}

/// `entries` with `channel` placed under `name`: in place of the entry of
/// that name where there is one, and otherwise before the first entry whose
/// name sorts after it.
pub open spec fn placed(
    entries: Seq<(Seq<char>, Channel)>,
    name: Seq<char>,
    channel: Channel,
) -> Seq<(Seq<char>, Channel)>
    decreases entries.len(),
{
    if entries.len() == 0 {
        seq![(name, channel)]
    } else if entries[0].0 == name {
        seq![(name, channel)] + entries.drop_first()
    } else if name_before(name, entries[0].0) {
        seq![(name, channel)] + entries
    } else {
        seq![entries[0]] + placed(entries.drop_first(), name, channel)
    }
}

/// `OrdMap::new`: a map without entries.
#[verifier::external_body]
fn channels_new() -> (r: ChannelMap)
    ensures
        channel_entries(r) == (Seq::<(Seq<char>, Channel)>::empty()),
{
    OrdMap::new()
}

/// `OrdMap::insert`: the map keeps its entries sorted by name and holds one
/// entry per name, so the new entry replaces one of the same name or goes to
/// its place in the order.
#[verifier::external_body]
fn channels_insert(channels: &mut ChannelMap, name: String, channel: Channel)
    ensures
        channel_entries(*final(channels)) == placed(channel_entries(*old(channels)), name@, channel),
{
    channels.insert(name, channel);
}

/// `OrdMap::values`: the channels in the order of their names.
#[verifier::external_body]
fn channels_listed(channels: &ChannelMap) -> (r: Vec<Channel>)
    ensures
        r@ == channel_entries(*channels).map_values(|entry: (Seq<char>, Channel)| entry.1),
{
    channels.values().copied().collect()
}

/// `OrdMap::keys`: the names of the channels in order.
#[verifier::external_body]
fn channels_named(channels: &ChannelMap) -> (r: Vec<String>)
    ensures
        r@.len() == channel_entries(*channels).len(),
        forall|i: int| 0 <= i < r@.len() ==> r@[i]@ == channel_entries(*channels)[i].0,
{
    channels.keys().cloned().collect()
}

/// `OrdMap::clone`: a map with the same entries.
#[verifier::external_body]
fn channels_cloned(channels: &ChannelMap) -> (r: ChannelMap)
    ensures
        channel_entries(r) == channel_entries(*channels),
{
    channels.clone()
}

/// The channels of the mixer. Their order matters: a channel is known to the
/// engine by its place in it.
#[derive(Debug)]
pub struct Config {
    pub channels: OrdMap<String, Channel>,
}

impl View for Config {
    type V = Seq<(Seq<char>, Channel)>;

    /// The channels with their names, in order.
    open spec fn view(&self) -> Seq<(Seq<char>, Channel)> {
        channel_entries(self.channels)
    }
}

impl Clone for Config {
    fn clone(&self) -> (r: Self)
        ensures
            r@ == self@,
    {
        Config { channels: channels_cloned(&self.channels) }
    }
}

impl Default for Config {
    /// Two channels without bindings, `left` and `right`.
    fn default() -> (r: Self)
        ensures
            r@ == seq![("left"@, Channel::unbound()), ("right"@, Channel::unbound())],
    {
        let mut config = Config::new();
        config.insert("left".to_owned(), Channel::empty());
        config.insert("right".to_owned(), Channel::empty());
        proof {
            reveal_strlit("left");
            reveal_strlit("right");
            let left = "left"@;
            let right = "right"@;
            let one = seq![(left, Channel::unbound())];
            assert(left[0] == 'l' && right[0] == 'r');
            assert(name_before(left, right));
            assert(!name_before(right, left));
            assert(left != right);
            assert(one.drop_first() =~= Seq::<(Seq<char>, Channel)>::empty());
            assert(placed(one.drop_first(), right, Channel::unbound()) =~= seq![
                (right, Channel::unbound()),
            ]);
            assert(placed(one, right, Channel::unbound()) =~= seq![
                (left, Channel::unbound()),
                (right, Channel::unbound()),
            ]);
        }
        config
    }
}

impl Config {
    /// A configuration without channels.
    pub fn new() -> (r: Self)
        ensures
            r@ == (Seq::<(Seq<char>, Channel)>::empty()),
    {
        Config { channels: channels_new() }
    }

    /// Adds a channel, or replaces the channel of that name.
    pub fn insert(&mut self, name: String, channel: Channel)
        ensures
            final(self)@ == placed(old(self)@, name@, channel),
    {
        channels_insert(&mut self.channels, name, channel);
    }

    /// The channels in order.
    pub fn channel_list(&self) -> (r: Vec<Channel>)
        ensures
            r@ == self@.map_values(|entry: (Seq<char>, Channel)| entry.1),
    {
        channels_listed(&self.channels)
    }

    /// The names of the channels in order.
    pub fn channel_names(&self) -> (r: Vec<String>)
        ensures
            r@.len() == self@.len(),
            forall|i: int| 0 <= i < r@.len() ==> r@[i]@ == self@[i].0,
    {
        channels_named(&self.channels)
    }

    /// The lookup table for this configuration's key bindings.
    pub fn midi_lookup(&self) -> (r: MidiLookup)
        ensures
            r@ == lookup_of(self@.map_values(|entry: (Seq<char>, Channel)| entry.1)),
            r.wf(),
    {
        MidiLookup::construct(self)
    }
}

} // verus!
