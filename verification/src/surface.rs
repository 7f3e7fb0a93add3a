//! The eight knobs and buttons: what they show, and what moving them does.
//!
//! Each stream has a knob for its volume and the button below it for mute. Everything here
//! computes packets for the serial link and messages for MIDI; sending them is the caller's.
use crate::config::{Config, UserOverride};
use crate::midi;
use crate::midi::{Control, DeviceEvent, OutOfRange};
use crate::pipewire;
use crate::pipewire::{AudioStream, StreamView};
use crate::protocol;
use crate::protocol::{
    ControlMode, Device, KnobHapticMode, MidiButtonConfig, MidiKnobConfig, Mode, SwitchHapticMode,
};
use crate::text;
use vstd::prelude::*;
use vstd::string::*;

verus! {

broadcast use vstd::string::group_string_axioms;

/// How many streams there is room for.
pub const MAX_KNOBS: usize = 8;

/// The color of a button that shows nothing.
pub const UNLIT: u8 = 70;

/// The color of a button's light when the stream is muted.
pub const LED_ON: u8 = 14;

/// How many step names a control has.
pub const STEP_NAMES: usize = 16;

// ---- colors ----

/// Colors that are easy to tell apart: pink, orange, yellow, green, teal, blue, purple, red.
pub open spec fn color_pool() -> Seq<u8> {
    seq![0u8, 1u8, 3u8, 5u8, 7u8, 9u8, 11u8, 14u8]
}

/// A number made of a name, the same every time.
pub open spec fn name_hash(bytes: Seq<u8>) -> nat
    decreases bytes.len(),
{
    if bytes.len() == 0 {
        0
    } else {
        (name_hash(bytes.drop_last()) * 31 + bytes.last() as nat) % 0x1_0000_0000
    }
}

/// The color for a name that none is set for.
pub open spec fn pool_color(name: Seq<char>) -> u8 {
    color_pool()[(name_hash(vstd::utf8::encode_utf8(name)) % 8) as int]
}

/// A stream's color: the one that is set, else one after its name.
pub open spec fn color_of(s: StreamView) -> u8 {
    match s.color_scheme {
        Some(c) => c,
        None => pool_color(s.app_name),
    }
}

/// The color of a stream's button: unlit without a title, else the accent color that is set, else
/// the stream's color.
pub open spec fn button_color_of(s: StreamView) -> u8 {
    match (s.media_name, s.accent_color) {
        (None, _) => UNLIT,
        (Some(_), Some(c)) => c,
        (Some(_), None) => color_of(s),
    }
}

fn pool_entry(hash: u64) -> (r: u8)
    ensures
        r == color_pool()[(hash % 8) as int],
{
    match hash % 8 {
        0 => 0,
        1 => 1,
        2 => 3,
        3 => 5,
        4 => 7,
        5 => 9,
        6 => 11,
        _ => 14,
    }
}

/// The color for a name that none is set for.
pub fn name_color(name: &str) -> (r: u8)
    ensures
        r == pool_color(name@),
{
    let bytes = name.as_bytes();
    let mut hash: u64 = 0;
    let mut i: usize = 0;
    assert(bytes@.take(0) == Seq::<u8>::empty());
    while i < bytes.len()
        invariant
            i <= bytes@.len(),
            hash == name_hash(bytes@.take(i as int)),
            hash < 0x1_0000_0000,
        decreases bytes@.len() - i,
    {
        hash = (hash * 31 + bytes[i] as u64) % 0x1_0000_0000;
        i += 1;
        assert(bytes@.take(i as int).drop_last() == bytes@.take(i - 1));
    }
    assert(bytes@.take(i as int) == bytes@);
    pool_entry(hash)
}

/// A stream's color: the one that is set, else one after its name.
pub fn pick_color(stream: &AudioStream) -> (r: u8)
    ensures
        r == color_of(stream@),
{
    match stream.color_scheme {
        Some(c) => c,
        None => name_color(stream.app_name.as_str()),
    }
}

/// The color of a user: the one in the entry that was found for them, else one after the name.
pub open spec fn color_of_user(entry: Option<&UserOverride>, name: Seq<char>) -> u8 {
    match entry {
        Some(user) => match user.color {
            Some(c) => c,
            None => pool_color(name),
        },
        None => pool_color(name),
    }
}

/// The color of a user: the one in the entry that was found for them, else one after the name.
pub fn user_color(entry: Option<&UserOverride>, name: &str) -> (r: u8)
    ensures
        r == color_of_user(entry, name@),
{
    if let Some(user) = entry {
        if let Some(c) = user.color {
            return c;
        }
    }
    name_color(name)
}

/// Two streams of one name that no color is set for have the same color, one of the pool.
pub proof fn colors_are_stable(a: StreamView, b: StreamView)
    requires
        a.color_scheme is None,
        b.color_scheme is None,
        a.app_name == b.app_name,
    ensures
        color_of(a) == color_of(b),
        color_pool().contains(color_of(a)),
{
}

/// The knob of a stream is lit in the color that is set for the stream, else in one of the pool. Its
/// button is dark without a title; with one it is lit in the accent color, and where none is set in
/// the color of the knob. A title that no color is set for is never dark.
pub proof fn buttons_take_the_color_of_their_knobs(s: StreamView)
    ensures
        s.color_scheme matches Some(c) ==> color_of(s) == c,
        s.color_scheme is None ==> seq![0u8, 1, 3, 5, 7, 9, 11, 14].contains(color_of(s)),
        s.media_name is None ==> button_color_of(s) == 70,
        s.media_name is Some && s.accent_color is Some ==> Some(button_color_of(s))
            == s.accent_color,
        s.media_name is Some && s.accent_color is None ==> button_color_of(s) == color_of(s),
        s.media_name is Some && s.accent_color is None && s.color_scheme is None
            ==> button_color_of(s) != 70,
{
    let pool = seq![0u8, 1, 3, 5, 7, 9, 11, 14];
    assert(pool =~= color_pool());
    let k = (name_hash(vstd::utf8::encode_utf8(s.app_name)) % 8) as int;
    assert(pool[k] == pool_color(s.app_name));
}

/// The color of a name that none is set for comes from the name's bytes alone: every byte counts,
/// 31 times as much as the one after it, modulo 2^32, and the last three bits choose from the pool.
pub proof fn name_colors_come_from_every_byte(name: Seq<char>, bytes: Seq<u8>, b: u8)
    ensures
        name_hash(Seq::empty()) == 0,
        name_hash(bytes.push(b)) == (31 * name_hash(bytes) + b) % 4294967296,
        ({
            let h = name_hash(vstd::utf8::encode_utf8(name)) % 8;
            let c = pool_color(name);
            &&& h == 0 <==> c == 0
            &&& h == 1 <==> c == 1
            &&& h == 2 <==> c == 3
            &&& h == 3 <==> c == 5
            &&& h == 4 <==> c == 7
            &&& h == 5 <==> c == 9
            &&& h == 6 <==> c == 11
            &&& h == 7 <==> c == 14
        }),
{
    assert(bytes.push(b).drop_last() == bytes);
}

/// A user's own color comes first; without one, a user has the color that a stream of the same name
/// would have.
pub proof fn users_are_colored_like_streams(user: UserOverride, name: Seq<char>, s: StreamView)
    requires
        s.app_name == name,
        s.color_scheme is None,
    ensures
        user.color matches Some(c) ==> color_of_user(Some(&user), name) == c,
        user.color is None ==> color_of_user(Some(&user), name) == color_of(s),
        color_of_user(None, name) == color_of(s),
{
}

// ---- controls ----

/// Whether the step names are those of a control without steps: sixteen empty names.
pub open spec fn no_steps(names: Seq<String>) -> bool {
    names.len() == STEP_NAMES && forall|k: int|
        0 <= k < names.len() ==> (#[trigger] names[k])@ == Seq::<char>::empty()
}

fn blank_steps() -> (r: Vec<String>)
    ensures
        no_steps(r@),
        protocol::step_bytes(r@) == Seq::new(208, |i: int| 0u8),
{
    let mut r: Vec<String> = Vec::new();
    let mut i: usize = 0;
    while i < STEP_NAMES
        invariant
            i <= STEP_NAMES,
            r@.len() == i,
            forall|k: int| 0 <= k < i ==> (#[trigger] r@[k])@ == Seq::<char>::empty(),
            protocol::step_bytes(r@) == Seq::new((13 * i) as nat, |k: int| 0u8),
        decreases STEP_NAMES - i,
    {
        let ghost before = r@;
        let blank = String::new();
        r.push(blank);
        i += 1;
        proof {
            assert(r@.drop_last() == before);
            assert(blank@ == Seq::<char>::empty());
            lemma_blank_name(blank@);
            assert(protocol::step_bytes(r@) == Seq::new((13 * i) as nat, |k: int| 0u8));
        }
    }
    r
}

proof fn lemma_blank_name(name: Seq<char>)
    requires
        name.len() == 0,
    ensures
        protocol::name_bytes(name) == Seq::new(13, |k: int| 0u8),
{
    assert(vstd::utf8::encode_utf8(name).len() == 0);
}

/// The packet that sets up the knob of a stream.
pub open spec fn stream_knob_packet(i: int, s: StreamView) -> Seq<u8> {
    protocol::command(
        protocol::MIDI,
        protocol::MIDI_SET_KNOB_CONTROL_CONFIG,
        protocol::control_bytes(
            0,
            i as u8,
            ControlMode::Cc7Bit,
            midi::MIDI_CHANNEL,
            (Control::Knob.base() + i) as u8,
            0,
            0,
            127,
            s.app_name,
        ) + seq![color_of(s), KnobHapticMode::Normal.index(), 0xFFu8, 0xFFu8, 0u8] + Seq::new(
            208,
            |k: int| 0u8,
        ),
    )
}

/// The packet that sets up the button of a stream.
pub open spec fn stream_button_packet(i: int, s: StreamView) -> Seq<u8> {
    protocol::command(
        protocol::MIDI,
        protocol::MIDI_SET_SWITCH_CONTROL_CONFIG,
        protocol::control_bytes(
            0,
            i as u8,
            ControlMode::Cc7Bit,
            midi::MIDI_CHANNEL,
            (Control::Button.base() + i) as u8,
            0xFFFF,
            0,
            127,
            pipewire::or_empty(s.media_name),
        ) + seq![button_color_of(s), LED_ON, UNLIT, SwitchHapticMode::Toggle.index(), 0u8]
            + Seq::new(208, |k: int| 0u8),
    )
}

/// How the knob at place `i` is set up for a stream: it sends its own controller from 0 to 127,
/// turns freely, and shows the stream's name in its color.
pub fn make_knob_config(i: usize, stream: &AudioStream) -> (r: MidiKnobConfig)
    requires
        i < 255,
    ensures
        protocol::knob_packet(r) == stream_knob_packet(i as int, stream@),
        r.setup_index == 0,
        r.control_index == i,
        r.control_mode == ControlMode::Cc7Bit,
        r.control_channel == midi::MIDI_CHANNEL,
        r.control_param == midi::KNOB_CC_BASE + i,
        r.nrpn_address == 0,
        r.min_value == 0,
        r.max_value == 127,
        r.control_name@ == stream@.app_name,
        r.color_scheme == color_of(stream@),
        r.haptic_mode == KnobHapticMode::Normal,
        r.haptic_indent1 == 0xFF,
        r.haptic_indent2 == 0xFF,
        r.haptic_steps == 0,
        no_steps(r.step_names@),
{
    MidiKnobConfig {
        setup_index: 0,
        control_index: i as u8,
        control_mode: ControlMode::Cc7Bit,
        control_channel: midi::MIDI_CHANNEL,
        control_param: midi::KNOB_CC_BASE + i as u8,
        nrpn_address: 0,
        min_value: 0,
        max_value: 127,
        control_name: stream.app_name.clone(),
        color_scheme: pick_color(stream),
        haptic_mode: KnobHapticMode::Normal,
        haptic_indent1: 0xFF,
        haptic_indent2: 0xFF,
        haptic_steps: 0,
        step_names: blank_steps(),
    }
}

/// How the button at place `i` is set up for a stream: it sends its own controller, stays down or
/// up, and shows the stream's title, if there is one.
pub fn make_button_config(i: usize, stream: &AudioStream) -> (r: MidiButtonConfig)
    requires
        i <= 238,
    ensures
        protocol::button_packet(r) == stream_button_packet(i as int, stream@),
        r.setup_index == 0,
        r.control_index == i,
        r.control_mode == ControlMode::Cc7Bit,
        r.control_channel == midi::MIDI_CHANNEL,
        r.control_param == midi::BUTTON_CC_BASE + i,
        r.nrpn_address == 0xFFFF,
        r.min_value == 0,
        r.max_value == 127,
        r.control_name@ == pipewire::or_empty(stream@.media_name),
        r.color_scheme == button_color_of(stream@),
        r.led_on_color == LED_ON,
        r.led_off_color == UNLIT,
        r.haptic_mode == SwitchHapticMode::Toggle,
        r.haptic_steps == 0,
        no_steps(r.step_names@),
{
    let control_name = match &stream.media_name {
        Some(title) => title.clone(),
        None => String::new(),
    };
    let color: u8 = if stream.media_name.is_none() {
        UNLIT
    } else if let Some(c) = stream.accent_color {
        c
    } else {
        pick_color(stream)
    };
    MidiButtonConfig {
        setup_index: 0,
        control_index: i as u8,
        control_mode: ControlMode::Cc7Bit,
        control_channel: midi::MIDI_CHANNEL,
        control_param: midi::BUTTON_CC_BASE + i as u8,
        nrpn_address: 0xFFFF,
        min_value: 0,
        max_value: 127,
        control_name,
        color_scheme: color,
        led_on_color: LED_ON,
        led_off_color: UNLIT,
        haptic_mode: SwitchHapticMode::Toggle,
        haptic_steps: 0,
        step_names: blank_steps(),
    }
}

/// What a knob is told, byte by byte: it is the one at place `i` of the first setup, sends the
/// controller `1 + i` on the first channel from 0 to 127, has the stream's name and color, turns
/// freely and has no steps.
pub proof fn knobs_are_told_everything(i: int, s: StreamView)
    requires
        0 <= i < MAX_KNOBS,
    ensures
        ({
            let p = stream_knob_packet(i, s);
            &&& p.take(16) == seq![
                0x5Au8, 2, 7, 0, 237, 0, i as u8, 0, 0, (1 + i) as u8, 0, 0, 0, 0, 0, 127,
            ]
            &&& p.subrange(16, 29) == protocol::padded(vstd::utf8::encode_utf8(s.app_name), 13)
            &&& p.subrange(29, 34) == seq![color_of(s), 0u8, 0xFF, 0xFF, 0]
            &&& p.skip(34) == Seq::new(208, |k: int| 0u8)
        }),
{
    let p = stream_knob_packet(i, s);
    assert(p.take(16) =~= seq![
        0x5Au8, 2, 7, 0, 237, 0, i as u8, 0, 0, (1 + i) as u8, 0, 0, 0, 0, 0, 127,
    ]);
    assert(p.subrange(16, 29) =~= protocol::padded(vstd::utf8::encode_utf8(s.app_name), 13));
    assert(p.subrange(29, 34) =~= seq![color_of(s), 0u8, 0xFF, 0xFF, 0]);
    assert(p.skip(34) =~= Seq::new(208, |k: int| 0u8));
}

/// What a button is told, byte by byte: it is the one at place `i` of the first setup, sends the
/// controller `17 + i` on the first channel, 0 or 127, has the stream's title, if there is one, and
/// its color, is lit in one color while it is down and in none while it is up, and stays as it is
/// pressed.
pub proof fn buttons_are_told_everything(i: int, s: StreamView)
    requires
        0 <= i < MAX_KNOBS,
    ensures
        ({
            let p = stream_button_packet(i, s);
            let title = match s.media_name {
                Some(t) => t,
                None => Seq::empty(),
            };
            &&& p.take(16) == seq![
                0x5Au8, 2, 8, 0, 237, 0, i as u8, 0, 0, (17 + i) as u8, 0xFF, 0xFF, 0, 0, 0, 127,
            ]
            &&& p.subrange(16, 29) == protocol::padded(vstd::utf8::encode_utf8(title), 13)
            &&& p.subrange(29, 34) == seq![button_color_of(s), 14u8, 70, 1, 0]
            &&& p.skip(34) == Seq::new(208, |k: int| 0u8)
        }),
{
    let p = stream_button_packet(i, s);
    let title = pipewire::or_empty(s.media_name);
    assert(p.take(16) =~= seq![
        0x5Au8, 2, 8, 0, 237, 0, i as u8, 0, 0, (17 + i) as u8, 0xFF, 0xFF, 0, 0, 0, 127,
    ]);
    assert(p.subrange(16, 29) =~= protocol::padded(vstd::utf8::encode_utf8(title), 13));
    assert(p.subrange(29, 34) =~= seq![button_color_of(s), 14u8, 70, 1, 0]);
    assert(p.skip(34) =~= Seq::new(208, |k: int| 0u8));
}

// ---- the whole surface ----

/// The packets with which a session begins: MIDI mode from the first control on, and the name of
/// the page.
pub fn setup_packets() -> (r: Vec<Vec<u8>>)
    ensures
        protocol::packet_views(r@) == seq![
            protocol::command(
                protocol::GENERAL,
                protocol::GENERAL_SET_ATARI_MODE,
                seq![Mode::Midi.index(), 0u8],
            ),
        ] + protocol::transaction(
            protocol::command(
                protocol::MIDI,
                protocol::MIDI_SET_SETUP_NAME,
                seq![0u8] + protocol::name_bytes("Rotool"@),
            ),
        ),
{
    let mut r: Vec<Vec<u8>> = Vec::new();
    protocol::push_packet(&mut r, Device::set_mode(Mode::Midi, 0));
    let name = Device::set_setup_name(0, "Rotool");
    let ghost first = protocol::packet_views(r@);
    let ghost rest = protocol::packet_views(name@);
    let mut i: usize = 0;
    while i < name.len()
        invariant
            i <= name@.len(),
            rest == protocol::packet_views(name@),
            protocol::packet_views(r@) == first + rest.take(i as int),
        decreases name@.len() - i,
    {
        let packet = name[i].clone();
        assert(packet@ == name@[i as int]@);
        protocol::push_packet(&mut r, packet);
        i += 1;
        assert(first + rest.take(i as int) == (first + rest.take(i - 1)).push(rest[i - 1]));
    }
    assert(rest.take(i as int) == rest);
    r
}

/// The packets that set up the knob and the button of every stream, in turn.
pub open spec fn stream_packets(streams: Seq<StreamView>) -> Seq<Seq<u8>>
    decreases streams.len(),
{
    if streams.len() == 0 {
        Seq::empty()
    } else {
        let i = streams.len() - 1;
        stream_packets(streams.drop_last()).push(stream_knob_packet(i, streams.last())).push(
            stream_button_packet(i, streams.last()),
        )
    }
}

/// The packets that set up the whole surface in one transaction: what there are streams for is
/// configured, and the other places are cleared.
pub open spec fn surface_packets(streams: Seq<StreamView>) -> Seq<Seq<u8>> {
    (seq![protocol::start_packet()] + stream_packets(streams) + protocol::clear_packets(
        streams.len(),
        MAX_KNOBS as nat,
    )).push(protocol::end_packet())
}

/// The packets that set up the whole surface in one transaction.
pub fn apply_stream_config(streams: &Vec<AudioStream>) -> (r: Vec<Vec<u8>>)
    requires
        streams@.len() <= 239,
    ensures
        protocol::packet_views(r@) == surface_packets(pipewire::stream_views(streams@)),
{
    let ghost views = pipewire::stream_views(streams@);
    let ghost start = seq![protocol::start_packet()];
    let mut r: Vec<Vec<u8>> = Vec::new();
    protocol::push_packet(&mut r, Device::start_config_update());
    let mut i: usize = 0;
    assert(views.take(0) == Seq::<StreamView>::empty());
    assert(protocol::packet_views(r@) == start + stream_packets(views.take(0)));
    while i < streams.len()
        invariant
            i <= streams@.len() <= 239,
            views == pipewire::stream_views(streams@),
            protocol::packet_views(r@) == start + stream_packets(views.take(i as int)),
        decreases streams@.len() - i,
    {
        let knob = make_knob_config(i, &streams[i]);
        let button = make_button_config(i, &streams[i]);
        protocol::push_packet(&mut r, Device::send_midi_knob_config(&knob));
        protocol::push_packet(&mut r, Device::send_midi_button_config(&button));
        i += 1;
        assert(views.take(i as int).drop_last() == views.take(i - 1));
        assert(protocol::packet_views(r@) == start + stream_packets(views.take(i as int)));
    }
    assert(views.take(i as int) == views);
    let n: usize = streams.len();
    let ghost set = start + stream_packets(views);
    assert(protocol::packet_views(r@) == set + protocol::clear_packets(n as nat, n as nat));
    let mut k: usize = n;
    while k < MAX_KNOBS
        invariant
            n <= k,
            k <= MAX_KNOBS || k == n,
            protocol::packet_views(r@) == set + protocol::clear_packets(n as nat, k as nat),
        decreases MAX_KNOBS - k,
    {
        protocol::push_packet(&mut r, Device::send_clear_knob(0, k as u8));
        protocol::push_packet(&mut r, Device::send_clear_button(0, k as u8));
        k += 1;
        assert(protocol::packet_views(r@) == set + protocol::clear_packets(n as nat, k as nat));
    }
    assert(protocol::clear_packets(n as nat, k as nat) == protocol::clear_packets(
        n as nat,
        MAX_KNOBS as nat,
    ));
    protocol::push_packet(&mut r, Device::end_config_update());
    assert(protocol::packet_views(r@) == surface_packets(views));
    r
}

/// MIDI messages, by their bytes.
pub open spec fn message_views(messages: Seq<[u8; 3]>) -> Seq<Seq<u8>> {
    messages.map_values(|m: [u8; 3]| m@)
}

/// The controller value that a knob stands at for a volume.
pub open spec fn knob_position(volume: u8) -> u8 {
    if volume <= pipewire::FULL_VOLUME {
        volume
    } else {
        pipewire::FULL_VOLUME
    }
}

/// The controller value that lights a button, or not.
pub open spec fn light_of(muted: bool) -> u8 {
    if muted {
        127
    } else {
        0
    }
}

/// The messages that turn every knob to its stream's volume and light every button whose stream
/// is muted.
pub open spec fn sync_messages(streams: Seq<StreamView>) -> Seq<Seq<u8>>
    decreases streams.len(),
{
    if streams.len() == 0 {
        Seq::empty()
    } else {
        let i = streams.len() - 1;
        let s = streams.last();
        sync_messages(streams.drop_last()).push(
            midi::control_message(Control::Knob, i, knob_position(s.volume)),
        ).push(
            midi::control_message(Control::Button, i, light_of(s.muted)),
        )
    }
}

/// The messages that turn every knob to its stream's volume and light every button whose stream
/// is muted. There is an error where there are more streams than controls.
pub fn sync_midi_state(streams: &Vec<AudioStream>) -> (r: Result<Vec<[u8; 3]>, OutOfRange>)
    ensures
        match r {
            Ok(messages) => streams@.len() <= midi::NUM_CONTROLS && message_views(messages@)
                == sync_messages(pipewire::stream_views(streams@)),
            Err(e) => streams@.len() > midi::NUM_CONTROLS && e == (OutOfRange {
                control: Control::Knob,
                index: midi::NUM_CONTROLS,
            }),
        },
{
    let ghost views = pipewire::stream_views(streams@);
    let mut r: Vec<[u8; 3]> = Vec::new();
    let mut i: usize = 0;
    assert(views.take(0) == Seq::<StreamView>::empty());
    assert(message_views(r@) == sync_messages(views.take(0)));
    while i < streams.len()
        invariant
            i <= streams@.len(),
            i <= midi::NUM_CONTROLS,
            views == pipewire::stream_views(streams@),
            message_views(r@) == sync_messages(views.take(i as int)),
        decreases streams@.len() - i,
    {
        let ghost before = message_views(r@);
        let stream = &streams[i];
        let position: u8 = if stream.volume <= pipewire::FULL_VOLUME {
            stream.volume
        } else {
            pipewire::FULL_VOLUME
        };
        let light: u8 = if stream.muted {
            127
        } else {
            0
        };
        let knob = match midi::send_knob_value(i, position) {
            Ok(message) => message,
            Err(e) => {
                return Err(e);
            },
        };
        let button = match midi::send_button_value(i, light) {
            Ok(message) => message,
            Err(e) => {
                return Err(e);
            },
        };
        r.push(knob);
        r.push(button);
        assert(message_views(r@) == before.push(knob@).push(button@));
        i += 1;
        assert(views.take(i as int).drop_last() == views.take(i - 1));
    }
    assert(views.take(i as int) == views);
    Ok(r)
}

// ---- which streams have a place ----

/// The streams that are not hidden, in order.
pub open spec fn visible(streams: Seq<StreamView>) -> Seq<StreamView>
    decreases streams.len(),
{
    if streams.len() == 0 {
        Seq::empty()
    } else if streams.last().ignored {
        visible(streams.drop_last())
    } else {
        visible(streams.drop_last()).push(streams.last())
    }
}

/// The first streams, as many as there is room for.
pub open spec fn first_places(streams: Seq<StreamView>) -> Seq<StreamView> {
    if streams.len() <= MAX_KNOBS {
        streams
    } else {
        streams.take(MAX_KNOBS as int)
    }
}

/// The streams that get a knob and a button: none where PipeWire is switched off, else the first
/// that are not hidden.
pub open spec fn placed(enabled: bool, streams: Seq<StreamView>) -> Seq<StreamView> {
    if enabled {
        first_places(visible(streams))
    } else {
        Seq::empty()
    }
}

/// The streams that get a knob and a button.
pub fn assign_streams(config: &Config, streams: &Vec<AudioStream>) -> (r: Vec<AudioStream>)
    ensures
        pipewire::stream_views(r@) == placed(
            config.pipewire_enabled,
            pipewire::stream_views(streams@),
        ),
        r@.len() <= MAX_KNOBS,
{
    let mut r: Vec<AudioStream> = Vec::new();
    if !config.pipewire_enabled {
        assert(pipewire::stream_views(r@) == Seq::<StreamView>::empty());
        return r;
    }
    let ghost views = pipewire::stream_views(streams@);
    let mut i: usize = 0;
    assert(views.take(0) == Seq::<StreamView>::empty());
    assert(pipewire::stream_views(r@) == first_places(visible(views.take(0))));
    while i < streams.len()
        invariant
            i <= streams@.len(),
            views == pipewire::stream_views(streams@),
            pipewire::stream_views(r@) == first_places(visible(views.take(i as int))),
            r@.len() <= MAX_KNOBS,
        decreases streams@.len() - i,
    {
        let ghost before = visible(views.take(i as int));
        assert(pipewire::stream_views(r@).len() == r@.len());
        assert(views.take(i + 1).drop_last() == views.take(i as int));
        if !streams[i].ignored && r.len() < MAX_KNOBS {
            let ghost shown = pipewire::stream_views(r@);
            let stream = streams[i].clone();
            r.push(stream);
            assert(pipewire::stream_views(r@) == shown.push(views[i as int]));
        }
        assert(pipewire::stream_views(r@) == first_places(visible(views.take(i + 1))));
        i += 1;
    }
    assert(views.take(i as int) == views);
    r
}

/// Whether there is nothing to begin with: PipeWire is switched on, but no stream has a place.
pub fn nothing_to_assign(config: &Config, assigned: &Vec<AudioStream>) -> (r: bool)
    ensures
        r == (config.pipewire_enabled && assigned@.len() == 0),
{
    config.pipewire_enabled && assigned.len() == 0
}

proof fn lemma_visible(streams: Seq<StreamView>)
    ensures
        visible(streams).len() <= streams.len(),
        forall|i: int|
            0 <= i < visible(streams).len() ==> !(#[trigger] visible(streams)[i]).ignored
                && streams.contains(visible(streams)[i]),
    decreases streams.len(),
{
    if streams.len() > 0 {
        lemma_visible(streams.drop_last());
        let shorter = visible(streams.drop_last());
        assert forall|i: int| 0 <= i < visible(streams).len() implies !(
        #[trigger] visible(streams)[i]).ignored && streams.contains(visible(streams)[i]) by {
            if i < shorter.len() {
                let k = choose|k: int|
                    0 <= k < streams.drop_last().len() && streams.drop_last()[k] == shorter[i];
                assert(streams[k] == shorter[i]);
            } else {
                assert(streams[streams.len() - 1] == streams.last());
            }
        }
    }
}

/// At most eight streams have a place, hidden streams never do, and none does while PipeWire is
/// switched off.
pub proof fn hidden_streams_have_no_place(enabled: bool, streams: Seq<StreamView>)
    ensures
        placed(enabled, streams).len() <= MAX_KNOBS,
        !enabled ==> placed(enabled, streams).len() == 0,
        forall|i: int|
            0 <= i < placed(enabled, streams).len() ==> !(#[trigger] placed(enabled, streams)[i]).ignored
                && streams.contains(placed(enabled, streams)[i]),
{
    lemma_visible(streams);
    let shown = placed(enabled, streams);
    assert forall|i: int| 0 <= i < shown.len() implies !(#[trigger] shown[i]).ignored
        && streams.contains(shown[i]) by {
        assert(shown[i] == visible(streams)[i]);
    }
}

proof fn lemma_visible_is_filter(streams: Seq<StreamView>)
    ensures
        visible(streams) == streams.filter(|s: StreamView| !s.ignored),
    decreases streams.len(),
{
    reveal(Seq::filter);
    if streams.len() > 0 {
        lemma_visible_is_filter(streams.drop_last());
    }
}

/// While PipeWire is switched on, the streams that are not hidden have the places, in the order in
/// which they are listed: all of them where there are up to eight, else the first eight.
pub proof fn visible_streams_have_the_places(streams: Seq<StreamView>, k: int)
    requires
        0 <= k < streams.len(),
    ensures
        ({
            let shown = streams.filter(|s: StreamView| !s.ignored);
            &&& shown.len() <= 8 ==> placed(true, streams) == shown
            &&& shown.len() > 8 ==> placed(true, streams) == shown.take(8)
            &&& shown.len() <= 8 && !streams[k].ignored ==> placed(true, streams).contains(
                streams[k],
            )
        }),
{
    lemma_visible_is_filter(streams);
    if !streams[k].ignored {
        streams.lemma_filter_contains(|s: StreamView| !s.ignored, k);
    }
}

// ---- what moving a control does ----

/// What is to be done about a stream.
#[derive(Debug, Clone, Copy, PartialEq, Eq, Structural)]
pub enum Effect {
    /// Set the volume to a controller value.
    SetVolume { id: u32, volume: u8 },
    /// Mute the stream, or unmute it.
    ToggleMute { id: u32 },
}

/// The streams after a control was moved. A knob sets its stream's volume; a button that is down
/// means muted.
pub open spec fn after_input(streams: Seq<StreamView>, event: DeviceEvent) -> Seq<StreamView> {
    match event {
        DeviceEvent::KnobTurn { index, value } => if index < streams.len() {
            streams.update(
                index as int,
                StreamView { volume: value, ..streams[index as int] },
            )
        } else {
            streams
        },
        DeviceEvent::ButtonPress { index, value } => if index < streams.len() {
            streams.update(
                index as int,
                StreamView { muted: value > 0, ..streams[index as int] },
            )
        } else {
            streams
        },
        _ => streams,
    }
}

/// What is to be done when a control was moved: a knob always sets the volume; a button toggles
/// mute where it does not agree with the stream.
pub open spec fn effect_of(streams: Seq<StreamView>, event: DeviceEvent) -> Option<Effect> {
    match event {
        DeviceEvent::KnobTurn { index, value } => if index < streams.len() {
            Some(Effect::SetVolume { id: streams[index as int].id, volume: value })
        } else {
            None
        },
        DeviceEvent::ButtonPress { index, value } => if index < streams.len() && (value > 0)
            != streams[index as int].muted {
            Some(Effect::ToggleMute { id: streams[index as int].id })
        } else {
            None
        },
        _ => None,
    }
}

/// Takes in that a control was moved. The controls of the voice pages do nothing to streams.
pub fn handle_event(assigned: &mut Vec<AudioStream>, event: DeviceEvent) -> (r: Option<Effect>)
    ensures
        pipewire::stream_views(final(assigned)@) == after_input(
            pipewire::stream_views(old(assigned)@),
            event,
        ),
        r == effect_of(pipewire::stream_views(old(assigned)@), event),
{
    let ghost before = pipewire::stream_views(assigned@);
    match event {
        DeviceEvent::KnobTurn { index, value } => {
            if index < assigned.len() {
                let id: u32 = assigned[index].id;
                assigned[index].volume = value;
                assert(pipewire::stream_views(assigned@) == after_input(before, event));
                return Some(Effect::SetVolume { id, volume: value });
            }
        },
        DeviceEvent::ButtonPress { index, value } => {
            if index < assigned.len() {
                let id: u32 = assigned[index].id;
                let now_muted = value > 0;
                if now_muted != assigned[index].muted {
                    assigned[index].muted = now_muted;
                    assert(pipewire::stream_views(assigned@) == after_input(before, event));
                    return Some(Effect::ToggleMute { id });
                }
                assert(pipewire::stream_views(assigned@) == after_input(before, event));
            }
        },
        _ => {},
    }
    None
}

/// Moving a control changes nothing but its own stream, and of that only volume or mute.
pub proof fn only_its_own_stream_changes(streams: Seq<StreamView>, event: DeviceEvent, k: int)
    requires
        0 <= k < streams.len(),
    ensures
        after_input(streams, event).len() == streams.len(),
        after_input(streams, event)[k] == (StreamView {
            volume: after_input(streams, event)[k].volume,
            muted: after_input(streams, event)[k].muted,
            ..streams[k]
        }),
        after_input(streams, event)[k] != streams[k] ==> match event {
            DeviceEvent::KnobTurn { index, .. } => index == k,
            DeviceEvent::ButtonPress { index, .. } => index == k,
            _ => false,
        },
{
}

/// Turning the knob of a stream sets that stream's volume to where the knob stands, whatever the
/// volume was before, and does nothing about mute.
pub proof fn knobs_always_set_the_volume(streams: Seq<StreamView>, index: usize, value: u8)
    requires
        index < streams.len(),
    ensures
        ({
            let event = DeviceEvent::KnobTurn { index, value };
            let after = after_input(streams, event)[index as int];
            &&& effect_of(streams, event) == Some(
                Effect::SetVolume { id: streams[index as int].id, volume: value },
            )
            &&& after.volume == value
            &&& after.muted == streams[index as int].muted
        }),
{
}

/// After a button of a stream was pressed the stream is muted exactly while the button is down.
/// That stream is toggled where it was not so before, and else nothing is done; the volume stays.
pub proof fn buttons_decide_about_mute(streams: Seq<StreamView>, index: usize, value: u8)
    requires
        index < streams.len(),
    ensures
        ({
            let event = DeviceEvent::ButtonPress { index, value };
            let s = streams[index as int];
            let after = after_input(streams, event)[index as int];
            &&& after.muted <==> value != 0
            &&& after.volume == s.volume
            &&& s.muted != after.muted ==> effect_of(streams, event) == Some(
                Effect::ToggleMute { id: s.id },
            )
            &&& s.muted == after.muted ==> effect_of(streams, event) is None
        }),
{
}

/// A control without a stream, and every control of the voice pages, does nothing about streams.
pub proof fn other_controls_leave_streams_alone(streams: Seq<StreamView>, event: DeviceEvent)
    requires
        match event {
            DeviceEvent::KnobTurn { index, .. } => index >= streams.len(),
            DeviceEvent::ButtonPress { index, .. } => index >= streams.len(),
            _ => true,
        },
    ensures
        after_input(streams, event) == streams,
        effect_of(streams, event) is None,
{
}

/// A button that is set back to what its stream was leaves the stream as it was, and mute has been
/// toggled either both times or never.
pub proof fn setting_back_undoes(streams: Seq<StreamView>, index: usize, there: u8, back: u8)
    requires
        index < streams.len(),
        streams[index as int].muted == (back > 0),
    ensures
        ({
            let first = DeviceEvent::ButtonPress { index, value: there };
            let second = DeviceEvent::ButtonPress { index, value: back };
            let pressed = after_input(streams, first);
            &&& effect_of(pressed, second) == effect_of(streams, first)
            &&& after_input(pressed, second) == streams
        }),
{
    let first = DeviceEvent::ButtonPress { index, value: there };
    let second = DeviceEvent::ButtonPress { index, value: back };
    assert(after_input(after_input(streams, first), second) =~= streams);
}

// ---- remembering volumes ----

/// The volume that an application was last given by its knob.
#[derive(Debug)]
pub struct Remembered {
    /// What the application is told by.
    pub key: String,
    /// The volume as a controller value.
    pub volume: u8,
}

/// A remembered volume, with its key as a sequence of characters.
pub struct RememberedView {
    pub key: Seq<char>,
    pub volume: u8,
}

impl View for Remembered {
    type V = RememberedView;

    open spec fn view(&self) -> RememberedView {
        RememberedView { key: self.key@, volume: self.volume }
    }
}

/// Remembered volumes, by their views.
pub open spec fn memory_views(memory: Seq<Remembered>) -> Seq<RememberedView> {
    memory.map_values(|m: Remembered| m@)
}

/// What the application of a stream is told by: its program, else its portal name, else the name
/// that the stream came with.
pub open spec fn app_key(s: StreamView) -> Seq<char> {
    if s.binary.len() > 0 {
        s.binary
    } else if s.app_id.len() > 0 {
        s.app_id
    } else {
        s.raw_name
    }
}

/// The place of the first entry for a key, the number of entries if there is none.
pub open spec fn memory_index(memory: Seq<RememberedView>, key: Seq<char>) -> int
    decreases memory.len(),
{
    if memory.len() == 0 || memory[0].key == key {
        0
    } else {
        1 + memory_index(memory.skip(1), key)
    }
}

/// The volume that is remembered for a key.
pub open spec fn recalled(memory: Seq<RememberedView>, key: Seq<char>) -> Option<u8> {
    let i = memory_index(memory, key);
    if i < memory.len() {
        Some(memory[i].volume)
    } else {
        None
    }
}

/// The memory once a volume has been remembered for a key, in place of the one before.
pub open spec fn with_volume(memory: Seq<RememberedView>, key: Seq<char>, volume: u8) -> Seq<
    RememberedView,
> {
    let i = memory_index(memory, key);
    if i < memory.len() {
        memory.update(i, RememberedView { key, volume })
    } else {
        memory.push(RememberedView { key, volume })
    }
}

/// The memory after a control was moved: a knob's volume is remembered for the application of its
/// stream.
pub open spec fn memory_after(
    memory: Seq<RememberedView>,
    streams: Seq<StreamView>,
    event: DeviceEvent,
) -> Seq<RememberedView> {
    match event {
        DeviceEvent::KnobTurn { index, value } => if index < streams.len() {
            with_volume(memory, app_key(streams[index as int]), value)
        } else {
            memory
        },
        _ => memory,
    }
}

proof fn lemma_memory_index(memory: Seq<RememberedView>, key: Seq<char>, i: int)
    requires
        0 <= i <= memory.len(),
        forall|j: int| 0 <= j < i ==> (#[trigger] memory[j]).key != key,
        i == memory.len() || memory[i].key == key,
    ensures
        memory_index(memory, key) == i,
    decreases i,
{
    if i > 0 {
        assert(memory[0].key != key);
        assert forall|j: int| 0 <= j < i - 1 implies (#[trigger] memory.skip(1)[j]).key
            != key by {
            assert(memory.skip(1)[j] == memory[j + 1]);
        }
        lemma_memory_index(memory.skip(1), key, i - 1);
    }
}

proof fn lemma_memory_first(memory: Seq<RememberedView>, key: Seq<char>)
    ensures
        0 <= memory_index(memory, key) <= memory.len(),
        memory_index(memory, key) < memory.len() ==> memory[memory_index(memory, key)].key == key,
        forall|j: int|
            0 <= j < memory_index(memory, key) ==> (#[trigger] memory[j]).key != key,
    decreases memory.len(),
{
    if memory.len() > 0 && memory[0].key != key {
        let rest = memory.skip(1);
        lemma_memory_first(rest, key);
        assert forall|j: int| 0 <= j < memory_index(memory, key) implies (
        #[trigger] memory[j]).key != key by {
            if j > 0 {
                assert(rest[j - 1] == memory[j]);
            }
        }
    }
}

fn key_of_stream(stream: &AudioStream) -> (r: String)
    ensures
        r@ == app_key(stream@),
{
    if !stream.binary.as_str().is_empty() {
        stream.binary.clone()
    } else if !stream.app_id.as_str().is_empty() {
        stream.app_id.clone()
    } else {
        stream.raw_name.clone()
    }
}

fn find_memory(memory: &Vec<Remembered>, key: &str) -> (r: usize)
    ensures
        r == memory_index(memory_views(memory@), key@),
        r <= memory@.len(),
{
    let ghost views = memory_views(memory@);
    let mut i: usize = 0;
    while i < memory.len()
        invariant
            i <= memory@.len(),
            views == memory_views(memory@),
            forall|j: int| 0 <= j < i ==> (#[trigger] views[j]).key != key@,
        decreases memory@.len() - i,
    {
        assert(views[i as int] == memory@[i as int]@);
        if text::same_text(memory[i].key.as_str(), key) {
            proof {
                lemma_memory_index(views, key@, i as int);
            }
            return i;
        }
        i += 1;
    }
    proof {
        lemma_memory_index(views, key@, i as int);
    }
    i
}

/// The volume that is remembered for a key.
pub fn recall(memory: &Vec<Remembered>, key: &str) -> (r: Option<u8>)
    ensures
        r == recalled(memory_views(memory@), key@),
{
    let i: usize = find_memory(memory, key);
    if i < memory.len() {
        Some(memory[i].volume)
    } else {
        None
    }
}

/// Remembers the volume that a knob was turned to, for the application of its stream.
pub fn remember(memory: &mut Vec<Remembered>, assigned: &Vec<AudioStream>, event: DeviceEvent)
    ensures
        memory_views(final(memory)@) == memory_after(
            memory_views(old(memory)@),
            pipewire::stream_views(assigned@),
            event,
        ),
{
    let ghost before = memory_views(memory@);
    if let DeviceEvent::KnobTurn { index, value } = event {
        if index < assigned.len() {
            let key = key_of_stream(&assigned[index]);
            let i: usize = find_memory(memory, key.as_str());
            if i < memory.len() {
                proof {
                    lemma_memory_first(before, key@);
                }
                memory[i].volume = value;
            } else {
                memory.push(Remembered { key, volume: value });
            }
            assert(memory_views(memory@) == with_volume(before, key@, value));
        }
    }
}

/// What was remembered last for an application is what is recalled, and no other application's
/// volume is touched.
pub proof fn last_volume_is_recalled(
    memory: Seq<RememberedView>,
    key: Seq<char>,
    volume: u8,
    other: Seq<char>,
)
    ensures
        recalled(with_volume(memory, key, volume), key) == Some(volume),
        other != key ==> recalled(with_volume(memory, key, volume), other) == recalled(
            memory,
            other,
        ),
{
    let after = with_volume(memory, key, volume);
    lemma_memory_first(memory, key);
    lemma_memory_index(after, key, memory_index(memory, key));
    lemma_memory_first(memory, other);
    if other != key {
        let k = memory_index(memory, other);
        if k < memory.len() || after.len() == memory.len() {
            lemma_memory_index(after, other, k);
        } else {
            lemma_memory_index(after, other, k + 1);
        }
    }
}

/// An application is told by its program; where that is not known by its portal name; and where
/// neither is known by the name that the stream came with.
pub proof fn applications_are_told_apart(s: StreamView)
    ensures
        s.binary != Seq::<char>::empty() ==> app_key(s) == s.binary,
        s.binary == Seq::<char>::empty() && s.app_id != Seq::<char>::empty() ==> app_key(s)
            == s.app_id,
        s.binary == Seq::<char>::empty() && s.app_id == Seq::<char>::empty() ==> app_key(s)
            == s.raw_name,
{
    assert(s.binary.len() == 0 ==> s.binary =~= Seq::<char>::empty());
    assert(s.app_id.len() == 0 ==> s.app_id =~= Seq::<char>::empty());
}

/// Turning a knob makes the volume be remembered for the application of its stream and for no
/// other; nothing else changes what is remembered.
pub proof fn knobs_are_remembered(
    memory: Seq<RememberedView>,
    streams: Seq<StreamView>,
    event: DeviceEvent,
    other: Seq<char>,
)
    ensures
        ({
            let after = memory_after(memory, streams, event);
            match event {
                DeviceEvent::KnobTurn { index, value } => {
                    &&& index >= streams.len() ==> after == memory
                    &&& index < streams.len() && other == app_key(streams[index as int])
                        ==> recalled(after, other) == Some(value)
                    &&& index < streams.len() && other != app_key(streams[index as int])
                        ==> recalled(after, other) == recalled(memory, other)
                },
                _ => after == memory,
            }
        }),
{
    if let DeviceEvent::KnobTurn { index, value } = event {
        if index < streams.len() {
            last_volume_is_recalled(memory, app_key(streams[index as int]), value, other);
        }
    }
}

/// Nothing is remembered to begin with.
pub proof fn nothing_is_remembered_at_first(key: Seq<char>)
    ensures
        recalled(Seq::empty(), key) is None,
{
}

// ---- keeping up with the streams ----

/// The numbers of the streams, in order.
pub open spec fn ids(streams: Seq<StreamView>) -> Seq<u32> {
    streams.map_values(|s: StreamView| s.id)
}

/// Whether a knob has to be told anew.
pub open spec fn knob_differs(old: StreamView, new: StreamView) -> bool {
    old.app_name != new.app_name || color_of(old) != color_of(new)
}

/// Whether a button has to be told anew.
pub open spec fn button_differs(old: StreamView, new: StreamView) -> bool {
    old.media_name != new.media_name || button_color_of(old) != button_color_of(new)
}

/// The packets for the knobs and buttons that have to be told anew.
pub open spec fn changed_packets(old: Seq<StreamView>, new: Seq<StreamView>) -> Seq<Seq<u8>>
    decreases new.len(),
{
    if new.len() == 0 {
        Seq::empty()
    } else {
        let i = new.len() - 1;
        let before = changed_packets(old.drop_last(), new.drop_last());
        let knob = if knob_differs(old.last(), new.last()) {
            before.push(stream_knob_packet(i, new.last()))
        } else {
            before
        };
        if button_differs(old.last(), new.last()) {
            knob.push(stream_button_packet(i, new.last()))
        } else {
            knob
        }
    }
}

/// The packets that keep the surface up to date: all of it anew where there are other streams,
/// else what differs, in one transaction, or nothing at all.
pub open spec fn update_packets(old: Seq<StreamView>, new: Seq<StreamView>) -> Seq<Seq<u8>> {
    if ids(old) != ids(new) {
        surface_packets(new)
    } else if changed_packets(old, new).len() == 0 {
        Seq::empty()
    } else {
        (seq![protocol::start_packet()] + changed_packets(old, new)).push(protocol::end_packet())
    }
}

/// Whether a stream has come anew and a volume is remembered for its application.
pub open spec fn is_restored(
    memory: Seq<RememberedView>,
    old: Seq<StreamView>,
    s: StreamView,
) -> bool {
    !ids(old).contains(s.id) && recalled(memory, app_key(s)) is Some
}

/// A stream with the volume that is remembered for it, if it has come anew.
pub open spec fn restored(
    memory: Seq<RememberedView>,
    old: Seq<StreamView>,
    s: StreamView,
) -> StreamView {
    if is_restored(memory, old, s) {
        StreamView { volume: recalled(memory, app_key(s)).unwrap(), ..s }
    } else {
        s
    }
}

/// The streams with the volumes that are remembered for those that have come anew.
pub open spec fn all_restored(
    memory: Seq<RememberedView>,
    old: Seq<StreamView>,
    new: Seq<StreamView>,
) -> Seq<StreamView> {
    new.map_values(|s: StreamView| restored(memory, old, s))
}

/// What gives the streams that have come anew their remembered volumes, in order.
pub open spec fn restoring_effects(
    memory: Seq<RememberedView>,
    old: Seq<StreamView>,
    new: Seq<StreamView>,
) -> Seq<Effect>
    decreases new.len(),
{
    if new.len() == 0 {
        Seq::empty()
    } else {
        let before = restoring_effects(memory, old, new.drop_last());
        let s = new.last();
        if is_restored(memory, old, s) {
            before.push(
                Effect::SetVolume { id: s.id, volume: recalled(memory, app_key(s)).unwrap() },
            )
        } else {
            before
        }
    }
}

/// The streams after an update. Where they are the same ones, volume and mute stay what the
/// controls made them; else they are as they are listed, but for the volumes that are remembered.
pub open spec fn updated(
    memory: Seq<RememberedView>,
    old: Seq<StreamView>,
    new: Seq<StreamView>,
) -> Seq<StreamView> {
    if ids(old) != ids(new) {
        all_restored(memory, old, new)
    } else {
        Seq::new(
            new.len(),
            |i: int| StreamView { volume: old[i].volume, muted: old[i].muted, ..new[i] },
        )
    }
}

/// The messages that keep the surface up to date; there are some only where there are other
/// streams.
pub open spec fn update_messages(
    memory: Seq<RememberedView>,
    old: Seq<StreamView>,
    new: Seq<StreamView>,
) -> Seq<Seq<u8>> {
    if ids(old) != ids(new) {
        sync_messages(all_restored(memory, old, new))
    } else {
        Seq::empty()
    }
}

/// What is to be done about the streams in an update.
pub open spec fn update_effects(
    memory: Seq<RememberedView>,
    old: Seq<StreamView>,
    new: Seq<StreamView>,
) -> Seq<Effect> {
    if ids(old) != ids(new) {
        restoring_effects(memory, old, new)
    } else {
        Seq::empty()
    }
}

/// What an update comes to.
pub struct Rescan {
    /// What to write to the device.
    pub packets: Vec<Vec<u8>>,
    /// What to send over MIDI after that.
    pub messages: Vec<[u8; 3]>,
    /// What to do about the streams.
    pub effects: Vec<Effect>,
    /// The streams, once all that is done.
    pub assigned: Vec<AudioStream>,
}

fn same_ids(old: &Vec<AudioStream>, new: &Vec<AudioStream>) -> (r: bool)
    ensures
        r == (ids(pipewire::stream_views(old@)) == ids(pipewire::stream_views(new@))),
{
    let ghost a = ids(pipewire::stream_views(old@));
    let ghost b = ids(pipewire::stream_views(new@));
    if old.len() != new.len() {
        assert(a.len() != b.len());
        return false;
    }
    let mut i: usize = 0;
    while i < old.len()
        invariant
            i <= old@.len(),
            old@.len() == new@.len(),
            a == ids(pipewire::stream_views(old@)),
            b == ids(pipewire::stream_views(new@)),
            forall|k: int| 0 <= k < i ==> a[k] == b[k],
        decreases old@.len() - i,
    {
        assert(a[i as int] == old@[i as int].id);
        assert(b[i as int] == new@[i as int].id);
        if old[i].id != new[i].id {
            return false;
        }
        i += 1;
    }
    assert(a =~= b);
    true
}

fn changed_controls(old: &Vec<AudioStream>, new: &Vec<AudioStream>) -> (r: Vec<Vec<u8>>)
    requires
        old@.len() == new@.len(),
        new@.len() <= MAX_KNOBS,
    ensures
        protocol::packet_views(r@) == changed_packets(
            pipewire::stream_views(old@),
            pipewire::stream_views(new@),
        ),
{
    let ghost a = pipewire::stream_views(old@);
    let ghost b = pipewire::stream_views(new@);
    let mut r: Vec<Vec<u8>> = Vec::new();
    let mut i: usize = 0;
    assert(protocol::packet_views(r@) == changed_packets(a.take(0), b.take(0)));
    while i < new.len()
        invariant
            i <= new@.len() <= MAX_KNOBS,
            old@.len() == new@.len(),
            a == pipewire::stream_views(old@),
            b == pipewire::stream_views(new@),
            protocol::packet_views(r@) == changed_packets(a.take(i as int), b.take(i as int)),
        decreases new@.len() - i,
    {
        let knob = make_knob_config(i, &new[i]);
        let old_color: u8 = pick_color(&old[i]);
        if knob.color_scheme != old_color || !text::same_text(
            old[i].app_name.as_str(),
            new[i].app_name.as_str(),
        ) {
            protocol::push_packet(&mut r, Device::send_midi_knob_config(&knob));
        }
        let button = make_button_config(i, &new[i]);
        let old_button = make_button_config(i, &old[i]);
        if button.color_scheme != old_button.color_scheme || !text::same_option(
            &old[i].media_name,
            &new[i].media_name,
        ) {
            protocol::push_packet(&mut r, Device::send_midi_button_config(&button));
        }
        assert(a.take(i + 1).drop_last() == a.take(i as int));
        assert(b.take(i + 1).drop_last() == b.take(i as int));
        assert(a.take(i + 1).last() == a[i as int]);
        assert(b.take(i + 1).last() == b[i as int]);
        i += 1;
    }
    assert(a.take(i as int) == a);
    assert(b.take(i as int) == b);
    r
}

fn keep_levels(old: &Vec<AudioStream>, new: Vec<AudioStream>) -> (r: Vec<AudioStream>)
    requires
        old@.len() == new@.len(),
    ensures
        pipewire::stream_views(r@) == Seq::new(
            new@.len(),
            |i: int| StreamView { volume: old@[i].volume, muted: old@[i].muted, ..new@[i]@ },
        ),
{
    let ghost given = new@;
    let mut r = new;
    let mut i: usize = 0;
    while i < r.len()
        invariant
            i <= r@.len(),
            r@.len() == given.len(),
            old@.len() == given.len(),
            forall|k: int|
                0 <= k < i ==> (#[trigger] r@[k])@ == (StreamView {
                    volume: old@[k].volume,
                    muted: old@[k].muted,
                    ..given[k]@
                }),
            forall|k: int| i <= k < r@.len() ==> (#[trigger] r@[k]) == given[k],
        decreases r@.len() - i,
    {
        r[i].volume = old[i].volume;
        r[i].muted = old[i].muted;
        i += 1;
    }
    assert(pipewire::stream_views(r@) == Seq::new(
        given.len(),
        |i: int| StreamView { volume: old@[i].volume, muted: old@[i].muted, ..given[i]@ },
    ));
    r
}

fn has_id(streams: &Vec<AudioStream>, id: u32) -> (r: bool)
    ensures
        r == ids(pipewire::stream_views(streams@)).contains(id),
{
    let ghost all = ids(pipewire::stream_views(streams@));
    let mut i: usize = 0;
    while i < streams.len()
        invariant
            i <= streams@.len(),
            all == ids(pipewire::stream_views(streams@)),
            forall|k: int| 0 <= k < i ==> #[trigger] all[k] != id,
        decreases streams@.len() - i,
    {
        assert(all[i as int] == streams@[i as int].id);
        if streams[i].id == id {
            return true;
        }
        i += 1;
    }
    false
}

fn restore_volumes(
    memory: &Vec<Remembered>,
    old: &Vec<AudioStream>,
    new: Vec<AudioStream>,
) -> (r: (Vec<AudioStream>, Vec<Effect>))
    ensures
        pipewire::stream_views(r.0@) == all_restored(
            memory_views(memory@),
            pipewire::stream_views(old@),
            pipewire::stream_views(new@),
        ),
        r.1@ == restoring_effects(
            memory_views(memory@),
            pipewire::stream_views(old@),
            pipewire::stream_views(new@),
        ),
{
    let ghost m = memory_views(memory@);
    let ghost before = pipewire::stream_views(old@);
    let ghost given = pipewire::stream_views(new@);
    let mut streams = new;
    let mut effects: Vec<Effect> = Vec::new();
    let mut i: usize = 0;
    while i < streams.len()
        invariant
            i <= streams@.len(),
            streams@.len() == given.len(),
            m == memory_views(memory@),
            before == pipewire::stream_views(old@),
            forall|k: int|
                0 <= k < i ==> (#[trigger] streams@[k])@ == restored(m, before, given[k]),
            forall|k: int| i <= k < streams@.len() ==> (#[trigger] streams@[k])@ == given[k],
            effects@ == restoring_effects(m, before, given.take(i as int)),
        decreases streams@.len() - i,
    {
        let id: u32 = streams[i].id;
        let key = key_of_stream(&streams[i]);
        assert(given.take(i + 1).drop_last() == given.take(i as int));
        assert(given.take(i + 1).last() == given[i as int]);
        if !has_id(old, id) {
            if let Some(volume) = recall(memory, key.as_str()) {
                streams[i].volume = volume;
                effects.push(Effect::SetVolume { id, volume });
            }
        }
        i += 1;
    }
    assert(given.take(i as int) == given);
    assert(pipewire::stream_views(streams@) == all_restored(m, before, given));
    (streams, effects)
}

/// Compares the streams that have a place with those that there are now, and says what to do
/// about it. A stream that has come anew gets the volume that is remembered for its application.
pub fn rescan_streams(
    config: &Config,
    memory: &Vec<Remembered>,
    assigned: &Vec<AudioStream>,
    streams: &Vec<AudioStream>,
) -> (r: Rescan)
    ensures
        ({
            let m = memory_views(memory@);
            let old = pipewire::stream_views(assigned@);
            let new = placed(config.pipewire_enabled, pipewire::stream_views(streams@));
            &&& protocol::packet_views(r.packets@) == update_packets(old, new)
            &&& message_views(r.messages@) == update_messages(m, old, new)
            &&& r.effects@ == update_effects(m, old, new)
            &&& pipewire::stream_views(r.assigned@) == updated(m, old, new)
        }),
{
    let fresh = assign_streams(config, streams);
    let ghost m = memory_views(memory@);
    let ghost old = pipewire::stream_views(assigned@);
    let ghost new = pipewire::stream_views(fresh@);
    if !same_ids(assigned, &fresh) {
        let packets = apply_stream_config(&fresh);
        assert(pipewire::stream_views(fresh@).len() == fresh@.len());
        let done = restore_volumes(memory, assigned, fresh);
        assert(pipewire::stream_views(done.0@).len() == done.0@.len());
        let messages = match sync_midi_state(&done.0) {
            Ok(messages) => messages,
            Err(_) => Vec::new(),
        };
        return Rescan { packets, messages, effects: done.1, assigned: done.0 };
    }
    assert(ids(old).len() == old.len());
    assert(ids(new).len() == new.len());
    let changed = changed_controls(assigned, &fresh);
    let messages: Vec<[u8; 3]> = Vec::new();
    assert(message_views(messages@) == Seq::<Seq<u8>>::empty());
    let ghost inner = protocol::packet_views(changed@);
    assert(inner.len() == changed@.len());
    let mut packets: Vec<Vec<u8>> = Vec::new();
    if changed.len() > 0 {
        protocol::push_packet(&mut packets, Device::start_config_update());
        let ghost start = protocol::packet_views(packets@);
        let mut i: usize = 0;
        while i < changed.len()
            invariant
                i <= changed@.len(),
                inner == protocol::packet_views(changed@),
                protocol::packet_views(packets@) == start + inner.take(i as int),
            decreases changed@.len() - i,
        {
            let packet = changed[i].clone();
            assert(packet@ == changed@[i as int]@);
            protocol::push_packet(&mut packets, packet);
            i += 1;
            assert(start + inner.take(i as int) == (start + inner.take(i - 1)).push(inner[i - 1]));
        }
        assert(inner.take(i as int) == inner);
        protocol::push_packet(&mut packets, Device::end_config_update());
        assert(start == seq![protocol::start_packet()]);
    }
    assert(protocol::packet_views(packets@) == update_packets(old, new));
    let kept = keep_levels(assigned, fresh);
    assert(pipewire::stream_views(kept@) == updated(m, old, new));
    let effects: Vec<Effect> = Vec::new();
    assert(effects@ == Seq::<Effect>::empty());
    Rescan { packets, messages, effects, assigned: kept }
}

// ---- what the device shows ----

/// What the device shows: for every knob and every button of setup 0 the packet that it was last
/// told.
#[verifier::ext_equal]
pub struct Screen {
    pub knobs: Seq<Seq<u8>>,
    pub buttons: Seq<Seq<u8>>,
}

/// Whether there are as many knobs and buttons as the device has.
pub open spec fn is_screen(s: Screen) -> bool {
    s.knobs.len() == MAX_KNOBS && s.buttons.len() == MAX_KNOBS
}

/// What the device shows for some streams.
pub open spec fn screen_of(streams: Seq<StreamView>) -> Screen {
    Screen {
        knobs: Seq::new(
            MAX_KNOBS as nat,
            |i: int|
                if i < streams.len() {
                    stream_knob_packet(i, streams[i])
                } else {
                    protocol::clear_knob_packet(0, i as u8)
                },
        ),
        buttons: Seq::new(
            MAX_KNOBS as nat,
            |i: int|
                if i < streams.len() {
                    stream_button_packet(i, streams[i])
                } else {
                    protocol::clear_button_packet(0, i as u8)
                },
        ),
    }
}

/// A row of controls after one of them was told a packet.
pub open spec fn told(row: Seq<Seq<u8>>, i: int, packet: Seq<u8>) -> Seq<Seq<u8>> {
    if 0 <= i < row.len() {
        row.update(i, packet)
    } else {
        row
    }
}

/// What the device shows after a packet: configuring a control and clearing it tell that control,
/// and other packets tell none.
pub open spec fn after_packet(s: Screen, packet: Seq<u8>) -> Screen {
    if packet[1] != protocol::MIDI {
        s
    } else if packet[2] == protocol::MIDI_SET_KNOB_CONTROL_CONFIG {
        Screen { knobs: told(s.knobs, packet[6] as int, packet), ..s }
    } else if packet[2] == protocol::MIDI_SET_SWITCH_CONTROL_CONFIG {
        Screen { buttons: told(s.buttons, packet[6] as int, packet), ..s }
    } else if packet[2] == protocol::MIDI_CLEAR_CONTROL_CONFIG && packet[6] == 0 {
        Screen { knobs: told(s.knobs, packet[7] as int, packet), ..s }
    } else if packet[2] == protocol::MIDI_CLEAR_CONTROL_CONFIG {
        Screen { buttons: told(s.buttons, packet[7] as int, packet), ..s }
    } else {
        s
    }
}

/// What the device shows after some packets, in order.
pub open spec fn after_packets(s: Screen, packets: Seq<Seq<u8>>) -> Screen
    decreases packets.len(),
{
    if packets.len() == 0 {
        s
    } else {
        after_packet(after_packets(s, packets.drop_last()), packets.last())
    }
}

proof fn lemma_after_push(s: Screen, packets: Seq<Seq<u8>>, packet: Seq<u8>)
    ensures
        after_packets(s, packets.push(packet)) == after_packet(after_packets(s, packets), packet),
{
    assert(packets.push(packet).drop_last() == packets);
}

proof fn lemma_after_concat(s: Screen, a: Seq<Seq<u8>>, b: Seq<Seq<u8>>)
    ensures
        after_packets(s, a + b) == after_packets(after_packets(s, a), b),
    decreases b.len(),
{
    if b.len() == 0 {
        assert(a + b == a);
    } else {
        lemma_after_concat(s, a, b.drop_last());
        assert((a + b).drop_last() == a + b.drop_last());
    }
}

proof fn lemma_brackets(s: Screen, packets: Seq<Seq<u8>>)
    ensures
        after_packets(
            s,
            (seq![protocol::start_packet()] + packets).push(protocol::end_packet()),
        ) == after_packets(s, packets),
{
    let start = seq![protocol::start_packet()];
    lemma_after_push(s, start + packets, protocol::end_packet());
    lemma_after_concat(s, start, packets);
    assert(start == Seq::<Seq<u8>>::empty().push(protocol::start_packet()));
    lemma_after_push(s, Seq::empty(), protocol::start_packet());
    assert(after_packets(s, Seq::<Seq<u8>>::empty()) == s);
}

proof fn lemma_stream_controls(s: Screen, i: int, stream: StreamView)
    requires
        0 <= i < MAX_KNOBS,
    ensures
        after_packet(s, stream_knob_packet(i, stream)) == (Screen {
            knobs: told(s.knobs, i, stream_knob_packet(i, stream)),
            ..s
        }),
        after_packet(s, stream_button_packet(i, stream)) == (Screen {
            buttons: told(s.buttons, i, stream_button_packet(i, stream)),
            ..s
        }),
{
    assert(stream_knob_packet(i, stream)[6] == i);
    assert(stream_button_packet(i, stream)[6] == i);
}

proof fn lemma_clear_controls(s: Screen, i: int)
    requires
        0 <= i < MAX_KNOBS,
    ensures
        after_packet(s, protocol::clear_knob_packet(0, i as u8)) == (Screen {
            knobs: told(s.knobs, i, protocol::clear_knob_packet(0, i as u8)),
            ..s
        }),
        after_packet(s, protocol::clear_button_packet(0, i as u8)) == (Screen {
            buttons: told(s.buttons, i, protocol::clear_button_packet(0, i as u8)),
            ..s
        }),
{
}

/// A row whose first `n` controls are those of another row.
spec fn mixed(a: Seq<Seq<u8>>, b: Seq<Seq<u8>>, n: int) -> Seq<Seq<u8>> {
    Seq::new(
        b.len(),
        |i: int|
            if i < n {
                a[i]
            } else {
                b[i]
            },
    )
}

proof fn lemma_streams_shown(s: Screen, streams: Seq<StreamView>, n: int)
    requires
        is_screen(s),
        0 <= n <= streams.len() <= MAX_KNOBS,
    ensures
        after_packets(s, stream_packets(streams.take(n))) == (Screen {
            knobs: mixed(screen_of(streams).knobs, s.knobs, n),
            buttons: mixed(screen_of(streams).buttons, s.buttons, n),
        }),
    decreases n,
{
    let part = streams.take(n);
    if n == 0 {
        assert(mixed(screen_of(streams).knobs, s.knobs, n) == s.knobs);
        assert(mixed(screen_of(streams).buttons, s.buttons, n) == s.buttons);
    } else {
        lemma_streams_shown(s, streams, n - 1);
        assert(part.drop_last() == streams.take(n - 1));
        let before = stream_packets(streams.take(n - 1));
        let knob = stream_knob_packet(n - 1, part.last());
        let button = stream_button_packet(n - 1, part.last());
        lemma_after_push(s, before, knob);
        lemma_after_push(s, before.push(knob), button);
        lemma_stream_controls(after_packets(s, before), n - 1, part.last());
        lemma_stream_controls(after_packets(s, before.push(knob)), n - 1, part.last());
        assert(after_packets(s, stream_packets(part)) =~= Screen {
            knobs: mixed(screen_of(streams).knobs, s.knobs, n),
            buttons: mixed(screen_of(streams).buttons, s.buttons, n),
        });
    }
}

proof fn lemma_clears_shown(s: Screen, streams: Seq<StreamView>, k: int)
    requires
        is_screen(s),
        streams.len() <= k <= MAX_KNOBS,
        forall|i: int|
            0 <= i < streams.len() ==> s.knobs[i] == screen_of(streams).knobs[i] && s.buttons[i]
                == screen_of(streams).buttons[i],
    ensures
        after_packets(s, protocol::clear_packets(streams.len(), k as nat)) == (Screen {
            knobs: mixed(screen_of(streams).knobs, s.knobs, k),
            buttons: mixed(screen_of(streams).buttons, s.buttons, k),
        }),
    decreases k,
{
    let n = streams.len();
    if k == n {
        assert(mixed(screen_of(streams).knobs, s.knobs, k) == s.knobs);
        assert(mixed(screen_of(streams).buttons, s.buttons, k) == s.buttons);
    } else {
        lemma_clears_shown(s, streams, k - 1);
        let before = protocol::clear_packets(n, (k - 1) as nat);
        let knob = protocol::clear_knob_packet(0, (k - 1) as u8);
        let button = protocol::clear_button_packet(0, (k - 1) as u8);
        lemma_after_push(s, before, knob);
        lemma_after_push(s, before.push(knob), button);
        lemma_clear_controls(after_packets(s, before), k - 1);
        lemma_clear_controls(after_packets(s, before.push(knob)), k - 1);
        assert(after_packets(s, protocol::clear_packets(n, k as nat)) =~= Screen {
            knobs: mixed(screen_of(streams).knobs, s.knobs, k),
            buttons: mixed(screen_of(streams).buttons, s.buttons, k),
        });
    }
}

/// Setting up the surface makes the device show the streams, and nothing of what it showed
/// before: every place is either configured or cleared.
pub proof fn surface_shows_the_streams(s: Screen, streams: Seq<StreamView>)
    requires
        is_screen(s),
        streams.len() <= MAX_KNOBS,
    ensures
        after_packets(s, surface_packets(streams)) == screen_of(streams),
{
    let set = stream_packets(streams);
    let clear = protocol::clear_packets(streams.len(), MAX_KNOBS as nat);
    let start = seq![protocol::start_packet()];
    assert(start + set + clear == start + (set + clear));
    lemma_brackets(s, set + clear);
    lemma_after_concat(s, set, clear);
    assert(streams.take(streams.len() as int) == streams);
    lemma_streams_shown(s, streams, streams.len() as int);
    let middle = after_packets(s, set);
    lemma_clears_shown(middle, streams, MAX_KNOBS as int);
    assert(after_packets(middle, clear) =~= screen_of(streams));
}

proof fn lemma_changes_shown(old: Seq<StreamView>, new: Seq<StreamView>, n: int)
    requires
        old.len() == new.len(),
        0 <= n <= new.len() <= MAX_KNOBS,
    ensures
        after_packets(screen_of(old), changed_packets(old.take(n), new.take(n))) == (Screen {
            knobs: mixed(screen_of(new).knobs, screen_of(old).knobs, n),
            buttons: mixed(screen_of(new).buttons, screen_of(old).buttons, n),
        }),
    decreases n,
{
    let s = screen_of(old);
    let target = Screen {
        knobs: mixed(screen_of(new).knobs, s.knobs, n),
        buttons: mixed(screen_of(new).buttons, s.buttons, n),
    };
    if n == 0 {
        assert(target =~= s);
    } else {
        lemma_changes_shown(old, new, n - 1);
        assert(old.take(n).drop_last() == old.take(n - 1));
        assert(new.take(n).drop_last() == new.take(n - 1));
        let a = old[n - 1];
        let b = new[n - 1];
        let before = changed_packets(old.take(n - 1), new.take(n - 1));
        let knob = stream_knob_packet(n - 1, b);
        let button = stream_button_packet(n - 1, b);
        let middle = if knob_differs(a, b) {
            before.push(knob)
        } else {
            before
        };
        lemma_after_push(s, before, knob);
        lemma_after_push(s, middle, button);
        lemma_stream_controls(after_packets(s, before), n - 1, b);
        lemma_stream_controls(after_packets(s, middle), n - 1, b);
        if !knob_differs(a, b) {
            assert(stream_knob_packet(n - 1, a) == knob);
        }
        if !button_differs(a, b) {
            assert(stream_button_packet(n - 1, a) == button);
        }
        assert(after_packets(s, changed_packets(old.take(n), new.take(n))) =~= target);
    }
}

/// An update makes the device show the streams that there are now, whatever changed: names,
/// colors, titles or the streams themselves.
pub proof fn updates_show_the_streams(
    memory: Seq<RememberedView>,
    old: Seq<StreamView>,
    new: Seq<StreamView>,
)
    requires
        old.len() <= MAX_KNOBS,
        new.len() <= MAX_KNOBS,
    ensures
        after_packets(screen_of(old), update_packets(old, new)) == screen_of(new),
        screen_of(updated(memory, old, new)) == screen_of(new),
{
    if ids(old) != ids(new) {
        surface_shows_the_streams(screen_of(old), new);
        let shown = all_restored(memory, old, new);
        assert forall|i: int| 0 <= i < new.len() implies stream_knob_packet(i, #[trigger] shown[i])
            == stream_knob_packet(i, new[i]) && stream_button_packet(i, shown[i])
            == stream_button_packet(i, new[i]) by {
            assert(color_of(shown[i]) == color_of(new[i]));
            assert(button_color_of(shown[i]) == button_color_of(new[i]));
        }
        assert(screen_of(shown) =~= screen_of(new));
    } else {
        assert(ids(old).len() == old.len());
        assert(ids(new).len() == new.len());
        let n = new.len() as int;
        assert(old.take(n) == old);
        assert(new.take(n) == new);
        lemma_changes_shown(old, new, n);
        lemma_brackets(screen_of(old), changed_packets(old, new));
        assert(after_packets(screen_of(old), changed_packets(old, new)) =~= screen_of(new));
        assert(screen_of(updated(memory, old, new)) =~= screen_of(new));
    }
}

proof fn lemma_nothing_changed(old: Seq<StreamView>, new: Seq<StreamView>)
    requires
        old.len() == new.len(),
        forall|i: int|
            0 <= i < new.len() ==> !knob_differs(#[trigger] old[i], new[i]) && !button_differs(
                old[i],
                new[i],
            ),
    ensures
        changed_packets(old, new).len() == 0,
    decreases new.len(),
{
    if new.len() > 0 {
        let i = new.len() - 1;
        assert(!knob_differs(old[i], new[i]));
        assert forall|k: int| 0 <= k < i implies !knob_differs(
            #[trigger] old.drop_last()[k],
            new.drop_last()[k],
        ) && !button_differs(old.drop_last()[k], new.drop_last()[k]) by {
            assert(old.drop_last()[k] == old[k]);
        }
        lemma_nothing_changed(old.drop_last(), new.drop_last());
    }
}

/// Once an update was done, the same streams give nothing more to do: nothing is written, nothing
/// is sent, nothing is set, and the streams stay as they are.
pub proof fn updates_settle(
    memory: Seq<RememberedView>,
    old: Seq<StreamView>,
    new: Seq<StreamView>,
)
    ensures
        ({
            let now = updated(memory, old, new);
            &&& update_packets(now, new).len() == 0
            &&& update_messages(memory, now, new).len() == 0
            &&& update_effects(memory, now, new).len() == 0
            &&& updated(memory, now, new) == now
        }),
{
    let now = updated(memory, old, new);
    assert(ids(now) =~= ids(new));
    lemma_nothing_changed(now, new);
    assert(updated(memory, now, new) =~= now);
}

/// While the streams stay the same ones, their volume and mute are what the controls made them.
pub proof fn levels_are_kept(
    memory: Seq<RememberedView>,
    old: Seq<StreamView>,
    new: Seq<StreamView>,
    i: int,
)
    requires
        ids(old) == ids(new),
        0 <= i < old.len(),
    ensures
        updated(memory, old, new).len() == old.len(),
        updated(memory, old, new)[i].id == old[i].id,
        updated(memory, old, new)[i].volume == old[i].volume,
        updated(memory, old, new)[i].muted == old[i].muted,
        update_messages(memory, old, new).len() == 0,
        update_effects(memory, old, new).len() == 0,
{
    assert(ids(old).len() == old.len());
    assert(ids(new).len() == new.len());
    assert(ids(old)[i] == old[i].id);
    assert(ids(new)[i] == new[i].id);
}

proof fn lemma_restoring_effects(
    memory: Seq<RememberedView>,
    old: Seq<StreamView>,
    new: Seq<StreamView>,
    i: int,
)
    requires
        0 <= i < new.len(),
        is_restored(memory, old, new[i]),
    ensures
        restoring_effects(memory, old, new).contains(
            Effect::SetVolume {
                id: new[i].id,
                volume: recalled(memory, app_key(new[i])).unwrap(),
            },
        ),
    decreases new.len(),
{
    let wanted = Effect::SetVolume {
        id: new[i].id,
        volume: recalled(memory, app_key(new[i])).unwrap(),
    };
    let shorter = new.drop_last();
    let before = restoring_effects(memory, old, shorter);
    let all = restoring_effects(memory, old, new);
    if i < shorter.len() {
        assert(shorter[i] == new[i]);
        lemma_restoring_effects(memory, old, shorter, i);
        let k = before.index_of(wanted);
        assert(all[k] == wanted);
    } else {
        assert(all[before.len() as int] == wanted);
    }
}

/// A stream that starts again gets its volume back: once a knob has set the volume of an
/// application, whichever stream of it comes anew is given that volume, its knob is turned there,
/// and PipeWire is told.
pub proof fn restarted_streams_get_their_volume_back(
    memory: Seq<RememberedView>,
    streams: Seq<StreamView>,
    index: usize,
    value: u8,
    old: Seq<StreamView>,
    new: Seq<StreamView>,
    i: int,
)
    requires
        index < streams.len(),
        0 <= i < new.len(),
        app_key(new[i]) == app_key(streams[index as int]),
        !ids(old).contains(new[i].id),
    ensures
        ({
            let m = memory_after(memory, streams, DeviceEvent::KnobTurn { index, value });
            &&& updated(m, old, new)[i] == (StreamView { volume: value, ..new[i] })
            &&& update_messages(m, old, new)[2 * i] == midi::control_message(
                Control::Knob,
                i,
                knob_position(value),
            )
            &&& update_effects(m, old, new).contains(
                Effect::SetVolume { id: new[i].id, volume: value },
            )
        }),
{
    let key = app_key(new[i]);
    let m = memory_after(memory, streams, DeviceEvent::KnobTurn { index, value });
    last_volume_is_recalled(memory, key, value, key);
    assert(ids(new)[i] == new[i].id);
    assert(ids(new).contains(new[i].id));
    lemma_restoring_effects(m, old, new, i);
    sync_sets_every_control(all_restored(m, old, new), i);
}

/// A stream that was there before, or whose application nothing is remembered for, is taken over
/// as it is listed.
pub proof fn other_streams_are_taken_as_listed(
    memory: Seq<RememberedView>,
    old: Seq<StreamView>,
    new: Seq<StreamView>,
    i: int,
)
    requires
        ids(old) != ids(new),
        0 <= i < new.len(),
        ids(old).contains(new[i].id) || recalled(memory, app_key(new[i])) is None,
    ensures
        updated(memory, old, new)[i] == new[i],
{
}

/// An update takes everything but volume and mute over as it is listed.
pub proof fn updates_take_over_what_is_listed(
    memory: Seq<RememberedView>,
    old: Seq<StreamView>,
    new: Seq<StreamView>,
    i: int,
)
    requires
        0 <= i < new.len(),
    ensures
        ({
            let now = updated(memory, old, new);
            &&& now.len() == new.len()
            &&& now[i] == (StreamView { volume: now[i].volume, muted: now[i].muted, ..new[i] })
            &&& ids(old) != ids(new) ==> now[i].muted == new[i].muted
        }),
{
}

proof fn lemma_effects(
    memory: Seq<RememberedView>,
    old: Seq<StreamView>,
    new: Seq<StreamView>,
    k: int,
) -> (i: int)
    requires
        0 <= k < restoring_effects(memory, old, new).len(),
    ensures
        0 <= i < new.len(),
        is_restored(memory, old, new[i]),
        restoring_effects(memory, old, new)[k] == (Effect::SetVolume {
            id: new[i].id,
            volume: recalled(memory, app_key(new[i])).unwrap(),
        }),
    decreases new.len(),
{
    let before = restoring_effects(memory, old, new.drop_last());
    if k < before.len() {
        lemma_effects(memory, old, new.drop_last(), k)
    } else {
        new.len() - 1
    }
}

/// An update sets no volume but that of a stream that was not there before, and that to what is
/// remembered for its application; it never mutes.
pub proof fn updates_set_only_what_is_remembered(
    memory: Seq<RememberedView>,
    old: Seq<StreamView>,
    new: Seq<StreamView>,
    k: int,
)
    requires
        0 <= k < update_effects(memory, old, new).len(),
    ensures
        exists|i: int|
            {
                &&& 0 <= i < new.len()
                &&& !ids(old).contains((#[trigger] new[i]).id)
                &&& update_effects(memory, old, new)[k] matches Effect::SetVolume { id, volume }
                &&& id == new[i].id
                &&& recalled(memory, app_key(new[i])) == Some(volume)
            },
{
    let i = lemma_effects(memory, old, new, k);
    assert(!ids(old).contains(new[i].id));
}

/// Whether a packet tells the knob or the button at place `i` of a new name, title or color.
pub open spec fn tells_a_change(
    old: Seq<StreamView>,
    new: Seq<StreamView>,
    i: int,
    packet: Seq<u8>,
) -> bool {
    &&& 0 <= i < new.len()
    &&& {
        ||| packet == stream_knob_packet(i, new[i]) && (old[i].app_name != new[i].app_name
            || color_of(old[i]) != color_of(new[i]))
        ||| packet == stream_button_packet(i, new[i]) && (old[i].media_name != new[i].media_name
            || button_color_of(old[i]) != button_color_of(new[i]))
    }
}

proof fn lemma_changes(old: Seq<StreamView>, new: Seq<StreamView>, k: int) -> (i: int)
    requires
        old.len() == new.len(),
        0 <= k < changed_packets(old, new).len(),
    ensures
        tells_a_change(old, new, i, changed_packets(old, new)[k]),
    decreases new.len(),
{
    let before = changed_packets(old.drop_last(), new.drop_last());
    if k < before.len() {
        lemma_changes(old.drop_last(), new.drop_last(), k)
    } else {
        new.len() - 1
    }
}

/// While the streams stay the same ones, only those controls are written whose name, title or color
/// changed.
pub proof fn only_changes_are_written(old: Seq<StreamView>, new: Seq<StreamView>, k: int)
    requires
        ids(old) == ids(new),
        0 < k < update_packets(old, new).len() - 1,
    ensures
        exists|i: int| #[trigger] tells_a_change(old, new, i, update_packets(old, new)[k]),
{
    assert(ids(old).len() == old.len());
    assert(ids(new).len() == new.len());
    let i = lemma_changes(old, new, k - 1);
    assert(tells_a_change(old, new, i, update_packets(old, new)[k]));
}

/// Whether packets are one transaction: it is begun once, first, and ended once, last, and all in
/// between is for MIDI controls.
pub open spec fn is_transaction(packets: Seq<Seq<u8>>) -> bool {
    &&& packets.len() >= 2
    &&& packets.first() == protocol::start_packet()
    &&& packets.last() == protocol::end_packet()
    &&& forall|i: int|
        0 < i < packets.len() - 1 ==> (#[trigger] packets[i])[1] == protocol::MIDI
}

/// Whether all packets are for MIDI controls.
spec fn all_for_controls(packets: Seq<Seq<u8>>) -> bool {
    forall|i: int| 0 <= i < packets.len() ==> (#[trigger] packets[i])[1] == protocol::MIDI
}

proof fn lemma_for_controls(old: Seq<StreamView>, streams: Seq<StreamView>)
    ensures
        all_for_controls(stream_packets(streams)),
        all_for_controls(changed_packets(old, streams)),
    decreases streams.len(),
{
    if streams.len() > 0 {
        lemma_for_controls(old.drop_last(), streams.drop_last());
    }
}

proof fn lemma_clears_for_controls(from: nat, to: nat)
    ensures
        all_for_controls(protocol::clear_packets(from, to)),
    decreases to,
{
    if to > from {
        lemma_clears_for_controls(from, (to - 1) as nat);
    }
}

proof fn lemma_bracketed(packets: Seq<Seq<u8>>)
    requires
        all_for_controls(packets),
    ensures
        is_transaction((seq![protocol::start_packet()] + packets).push(protocol::end_packet())),
{
    let all = (seq![protocol::start_packet()] + packets).push(protocol::end_packet());
    assert forall|i: int| 0 < i < all.len() - 1 implies (#[trigger] all[i])[1]
        == protocol::MIDI by {
        assert(all[i] == packets[i - 1]);
    }
}

/// Whatever is written to keep the surface up to date is one transaction; and where nothing is
/// written, none is begun.
pub proof fn updates_are_transactions(old: Seq<StreamView>, new: Seq<StreamView>)
    ensures
        update_packets(old, new).len() == 0 || is_transaction(update_packets(old, new)),
        is_transaction(surface_packets(new)),
{
    let start = seq![protocol::start_packet()];
    let set = stream_packets(new);
    let clear = protocol::clear_packets(new.len(), MAX_KNOBS as nat);
    lemma_for_controls(old, new);
    lemma_clears_for_controls(new.len(), MAX_KNOBS as nat);
    assert(start + set + clear == start + (set + clear));
    lemma_bracketed(set + clear);
    lemma_bracketed(changed_packets(old, new));
}

/// Clearing the device is the same as setting up the surface for no streams.
pub proof fn clearing_shows_nothing()
    ensures
        surface_packets(Seq::empty()) == seq![protocol::start_packet()] + protocol::clear_packets(
            0,
            MAX_KNOBS as nat,
        ) + seq![protocol::end_packet()],
{
    assert(surface_packets(Seq::empty()) =~= seq![protocol::start_packet()]
        + protocol::clear_packets(0, MAX_KNOBS as nat) + seq![protocol::end_packet()]);
}

/// Every knob packet and every button packet has the same length, and tells that length.
pub proof fn control_packets_have_one_length(i: int, s: StreamView)
    ensures
        stream_knob_packet(i, s).len() == 242,
        stream_button_packet(i, s).len() == 242,
        stream_knob_packet(i, s)[3] * 256 + stream_knob_packet(i, s)[4] == 237,
        stream_button_packet(i, s)[3] * 256 + stream_button_packet(i, s)[4] == 237,
{
}

/// What is sent over MIDI for some streams sets the knob and the button of each of them, and
/// nothing else: the knob to the volume, the button's light to mute.
pub proof fn sync_sets_every_control(streams: Seq<StreamView>, i: int)
    requires
        0 <= i < streams.len(),
    ensures
        sync_messages(streams).len() == 2 * streams.len(),
        sync_messages(streams)[2 * i] == midi::control_message(
            Control::Knob,
            i,
            knob_position(streams[i].volume),
        ),
        sync_messages(streams)[2 * i + 1] == midi::control_message(
            Control::Button,
            i,
            light_of(streams[i].muted),
        ),
    decreases streams.len(),
{
    let shorter = streams.drop_last();
    if i < shorter.len() {
        sync_sets_every_control(shorter, i);
        assert(shorter[i] == streams[i]);
    } else if shorter.len() > 0 {
        sync_sets_every_control(shorter, 0);
    } else {
        assert(sync_messages(shorter).len() == 0);
    }
}

/// What is sent over MIDI, byte by byte: the knob at place `i` has the controller `1 + i` and goes
/// to the volume, 127 at most; the button has the controller `17 + i` and is lit where the stream is
/// muted.
pub proof fn sync_sends_volume_and_mute(streams: Seq<StreamView>, i: int)
    requires
        0 <= i < streams.len() <= 16,
    ensures
        sync_messages(streams)[2 * i] == seq![
            0xB0u8,
            (1 + i) as u8,
            if streams[i].volume < 127 {
                streams[i].volume
            } else {
                127
            },
        ],
        sync_messages(streams)[2 * i + 1] == seq![
            0xB0u8,
            (17 + i) as u8,
            if streams[i].muted {
                127u8
            } else {
                0
            },
        ],
{
    sync_sets_every_control(streams, i);
}

/// Wherever the streams are other ones than before, all knobs and buttons are set anew over MIDI, to
/// what the streams then are.
pub proof fn other_streams_set_every_control(
    memory: Seq<RememberedView>,
    old: Seq<StreamView>,
    new: Seq<StreamView>,
)
    requires
        ids(old) != ids(new),
    ensures
        update_messages(memory, old, new) == sync_messages(updated(memory, old, new)),
        update_packets(old, new) == surface_packets(new),
{
}

/// What was sent over MIDI, should it come back from the device, changes nothing: a stream whose
/// volume is at most full keeps it, and mute is not toggled.
pub proof fn echoes_change_nothing(streams: Seq<StreamView>, i: int)
    requires
        0 <= i < streams.len() <= midi::NUM_CONTROLS,
        streams[i].volume <= pipewire::FULL_VOLUME,
    ensures
        ({
            let knob = midi::message_event(sync_messages(streams)[2 * i]);
            let button = midi::message_event(sync_messages(streams)[2 * i + 1]);
            &&& knob is Some && after_input(streams, knob.unwrap()) == streams
            &&& button is Some && after_input(streams, button.unwrap()) == streams
            &&& effect_of(streams, button.unwrap()) is None
        }),
{
    sync_sets_every_control(streams, i);
    midi::messages_are_told_apart(Control::Knob, i as usize, streams[i].volume);
    midi::messages_are_told_apart(Control::Button, i as usize, light_of(streams[i].muted));
    let knob = DeviceEvent::KnobTurn { index: i as usize, value: streams[i].volume };
    let button = DeviceEvent::ButtonPress { index: i as usize, value: light_of(streams[i].muted) };
    assert(after_input(streams, knob) =~= streams);
    assert(after_input(streams, button) =~= streams);
}

} // verus!
