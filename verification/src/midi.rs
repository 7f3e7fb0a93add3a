//! MIDI messages between the host and the Roto-Control's knobs and buttons.
//!
//! All setups share MIDI channel 1, with controller numbers of their own:
//!
//! - PipeWire: knobs 1 to 16, buttons 17 to 32
//! - Discord: knobs 33 to 48, buttons 49 to 64
//! - TeamSpeak: knobs 65 to 80, buttons 81 to 96
//!
//! Two pages of eight controls make 16 for each, 96 in all.
use crate::text;
use vstd::prelude::*;

verus! {

/// The channel, counted from 0.
pub const MIDI_CHANNEL: u8 = 0;

/// The controller number of the first PipeWire knob.
pub const KNOB_CC_BASE: u8 = 1;

/// The controller number of the first PipeWire button.
pub const BUTTON_CC_BASE: u8 = 17;

/// The controller number of the first Discord knob.
pub const DISCORD_KNOB_CC_BASE: u8 = 33;

/// The controller number of the first Discord button.
pub const DISCORD_BUTTON_CC_BASE: u8 = 49;

/// The controller number of the first TeamSpeak knob.
pub const TS3_KNOB_CC_BASE: u8 = 65;

/// The controller number of the first TeamSpeak button.
pub const TS3_BUTTON_CC_BASE: u8 = 81;

/// How many knobs, and how many buttons, each setup has.
pub const NUM_CONTROLS: usize = 16;

/// The status byte of a controller change on the channel.
pub const CONTROL_CHANGE: u8 = 0xB0;

/// An event from the device.
#[derive(Debug, Clone, Copy, PartialEq, Eq, Structural)]
pub enum DeviceEvent {
    KnobTurn { index: usize, value: u8 },
    ButtonPress { index: usize, value: u8 },
    DiscordKnobTurn { index: usize, value: u8 },
    DiscordButtonPress { index: usize, value: u8 },
    Ts3KnobTurn { index: usize, value: u8 },
    Ts3ButtonPress { index: usize, value: u8 },
}

/// The six rows of controls.
#[derive(Debug, Clone, Copy, PartialEq, Eq, Structural)]
pub enum Control {
    Knob,
    Button,
    DiscordKnob,
    DiscordButton,
    Ts3Knob,
    Ts3Button,
}

/// There is no control with this index.
#[derive(Debug, Clone, Copy, PartialEq, Eq, Structural)]
pub struct OutOfRange {
    /// The row that was meant.
    pub control: Control,
    /// The index that was asked for.
    pub index: usize,
}

impl Control {
    /// The place of the row among the six.
    pub open spec fn ordinal(self) -> int {
        match self {
            Control::Knob => 0,
            Control::Button => 1,
            Control::DiscordKnob => 2,
            Control::DiscordButton => 3,
            Control::Ts3Knob => 4,
            Control::Ts3Button => 5,
        }
    }

    /// The controller number of the first control of the row.
    pub open spec fn base(self) -> int {
        1 + 16 * self.ordinal()
    }

    /// The event of a control of the row.
    pub open spec fn event(self, index: usize, value: u8) -> DeviceEvent {
        match self {
            Control::Knob => DeviceEvent::KnobTurn { index, value },
            Control::Button => DeviceEvent::ButtonPress { index, value },
            Control::DiscordKnob => DeviceEvent::DiscordKnobTurn { index, value },
            Control::DiscordButton => DeviceEvent::DiscordButtonPress { index, value },
            Control::Ts3Knob => DeviceEvent::Ts3KnobTurn { index, value },
            Control::Ts3Button => DeviceEvent::Ts3ButtonPress { index, value },
        }
    }
}

/// The row with the given place.
pub open spec fn control_at(ordinal: int) -> Control {
    if ordinal == 0 {
        Control::Knob
    } else if ordinal == 1 {
        Control::Button
    } else if ordinal == 2 {
        Control::DiscordKnob
    } else if ordinal == 3 {
        Control::DiscordButton
    } else if ordinal == 4 {
        Control::Ts3Knob
    } else {
        Control::Ts3Button
    }
}

/// The message that sets the control `index` of a row to a value.
pub open spec fn control_message(control: Control, index: int, value: u8) -> Seq<u8> {
    seq![CONTROL_CHANGE, (control.base() + index) as u8, value]
}

/// The event that a message tells of: a controller change on the channel, for one of the
/// controllers 1 to 96.
pub open spec fn message_event(message: Seq<u8>) -> Option<DeviceEvent> {
    if message.len() == 3 && message[0] == CONTROL_CHANGE && 1 <= message[1] <= 96 {
        let n = message[1] - 1;
        Some(control_at(n / 16).event((n % 16) as usize, message[2]))
    } else {
        None
    }
}

/// The event that a message from the device tells of.
pub fn decode_message(message: &[u8]) -> (r: Option<DeviceEvent>)
    ensures
        r == message_event(message@),
{
    if message.len() != 3 {
        return None;
    }
    let status: u8 = message[0];
    let cc: u8 = message[1];
    let value: u8 = message[2];
    if status != CONTROL_CHANGE {
        return None;
    }
    let n: u8 = NUM_CONTROLS as u8;
    if cc >= KNOB_CC_BASE && cc < KNOB_CC_BASE + n {
        Some(DeviceEvent::KnobTurn { index: (cc - KNOB_CC_BASE) as usize, value })
    } else if cc >= BUTTON_CC_BASE && cc < BUTTON_CC_BASE + n {
        Some(DeviceEvent::ButtonPress { index: (cc - BUTTON_CC_BASE) as usize, value })
    } else if cc >= DISCORD_KNOB_CC_BASE && cc < DISCORD_KNOB_CC_BASE + n {
        Some(DeviceEvent::DiscordKnobTurn { index: (cc - DISCORD_KNOB_CC_BASE) as usize, value })
    } else if cc >= DISCORD_BUTTON_CC_BASE && cc < DISCORD_BUTTON_CC_BASE + n {
        Some(
            DeviceEvent::DiscordButtonPress {
                index: (cc - DISCORD_BUTTON_CC_BASE) as usize,
                value,
            },
        )
    } else if cc >= TS3_KNOB_CC_BASE && cc < TS3_KNOB_CC_BASE + n {
        Some(DeviceEvent::Ts3KnobTurn { index: (cc - TS3_KNOB_CC_BASE) as usize, value })
    } else if cc >= TS3_BUTTON_CC_BASE && cc < TS3_BUTTON_CC_BASE + n {
        Some(DeviceEvent::Ts3ButtonPress { index: (cc - TS3_BUTTON_CC_BASE) as usize, value })
    } else {
        None
    }
}

/// Whether setting a control came out as it should: the message, or an error for an index of 16
/// or more.
pub open spec fn is_control_message(
    r: Result<[u8; 3], OutOfRange>,
    control: Control,
    index: usize,
    value: u8,
) -> bool {
    match r {
        Ok(message) => index < 16 && message@ == control_message(control, index as int, value),
        Err(e) => index >= 16 && e == OutOfRange { control, index },
    }
}

fn set_control(control: Control, base: u8, index: usize, value: u8) -> (r: Result<
    [u8; 3],
    OutOfRange,
>)
    requires
        base == control.base(),
    ensures
        is_control_message(r, control, index, value),
{
    if index >= NUM_CONTROLS {
        return Err(OutOfRange { control, index });
    }
    let message: [u8; 3] = [CONTROL_CHANGE, base + index as u8, value];
    assert(message@ == control_message(control, index as int, value));
    Ok(message)
}

/// The message that turns a PipeWire knob.
pub fn send_knob_value(index: usize, value: u8) -> (r: Result<[u8; 3], OutOfRange>)
    ensures
        is_control_message(r, Control::Knob, index, value),
{
    set_control(Control::Knob, KNOB_CC_BASE, index, value)
}

/// The message that sets a PipeWire button.
pub fn send_button_value(index: usize, value: u8) -> (r: Result<[u8; 3], OutOfRange>)
    ensures
        is_control_message(r, Control::Button, index, value),
{
    set_control(Control::Button, BUTTON_CC_BASE, index, value)
}

/// The message that turns a Discord knob.
pub fn send_discord_knob_value(index: usize, value: u8) -> (r: Result<[u8; 3], OutOfRange>)
    ensures
        is_control_message(r, Control::DiscordKnob, index, value),
{
    set_control(Control::DiscordKnob, DISCORD_KNOB_CC_BASE, index, value)
}

/// The message that sets a Discord button.
pub fn send_discord_button_value(index: usize, value: u8) -> (r: Result<[u8; 3], OutOfRange>)
    ensures
        is_control_message(r, Control::DiscordButton, index, value),
{
    set_control(Control::DiscordButton, DISCORD_BUTTON_CC_BASE, index, value)
}

/// The message that turns a TeamSpeak knob.
pub fn send_ts3_knob_value(index: usize, value: u8) -> (r: Result<[u8; 3], OutOfRange>)
    ensures
        is_control_message(r, Control::Ts3Knob, index, value),
{
    set_control(Control::Ts3Knob, TS3_KNOB_CC_BASE, index, value)
}

/// The message that sets a TeamSpeak button.
pub fn send_ts3_button_value(index: usize, value: u8) -> (r: Result<[u8; 3], OutOfRange>)
    ensures
        is_control_message(r, Control::Ts3Button, index, value),
{
    set_control(Control::Ts3Button, TS3_BUTTON_CC_BASE, index, value)
}

/// Whether a port's name says that it is the device's; a name that could not be read says no.
pub open spec fn is_device_port(name: Option<String>) -> bool {
    match name {
        Some(n) => text::contains_text(n@, "Roto-Control"@),
        None => false,
    }
}

/// The first of the MIDI ports that is the device's.
pub fn find_port(names: &Vec<Option<String>>) -> (r: Option<usize>)
    ensures
        match r {
            Some(i) => i < names@.len() && is_device_port(names@[i as int]) && forall|j: int|
                0 <= j < i ==> !is_device_port(#[trigger] names@[j]),
            None => forall|j: int| 0 <= j < names@.len() ==> !is_device_port(#[trigger] names@[j]),
        },
{
    let mut i: usize = 0;
    while i < names.len()
        invariant
            i <= names@.len(),
            forall|j: int| 0 <= j < i ==> !is_device_port(#[trigger] names@[j]),
        decreases names@.len() - i,
    {
        if let Some(name) = &names[i] {
            if text::contains(name.as_str(), "Roto-Control") {
                return Some(i);
            }
        }
        i += 1;
    }
    None
}

/// A message that sets a control is understood as the event of that control: every control of
/// every row has a controller number of its own.
pub proof fn messages_are_told_apart(control: Control, index: usize, value: u8)
    requires
        index < NUM_CONTROLS,
    ensures
        message_event(control_message(control, index as int, value)) == Some(
            control.event(index, value),
        ),
{
    let n = control.ordinal() * 16 + index;
    assert(n / 16 == control.ordinal());
    assert(n % 16 == index);
}

/// No two controls share a controller number.
pub proof fn controllers_are_distinct(a: Control, i: usize, b: Control, j: usize)
    requires
        i < NUM_CONTROLS,
        j < NUM_CONTROLS,
        a.base() + i == b.base() + j,
    ensures
        a == b && i == j,
{
}

/// Whatever a message tells of, the index of the control is below 16.
pub proof fn event_index_is_in_range(message: Seq<u8>, control: Control, index: usize, value: u8)
    requires
        message_event(message) == Some(control.event(index, value)),
    ensures
        index < NUM_CONTROLS,
        message == control_message(control, index as int, value),
{
    let n = message[1] - 1;
    assert(n == 16 * (n / 16) + n % 16);
    assert(message =~= control_message(control, index as int, value));
}

/// Every row has sixteen controllers, one after the other: PipeWire's knobs from 1 and buttons from
/// 17 on, Discord's from 33 and 49, TeamSpeak's from 65 and 81, all as controller changes on the
/// first channel.
pub proof fn controllers_are_numbered_in_rows(index: usize, value: u8)
    requires
        index < NUM_CONTROLS,
    ensures
        NUM_CONTROLS == 16,
        control_message(Control::Knob, index as int, value) == seq![
            0xB0u8,
            (1 + index) as u8,
            value,
        ],
        control_message(Control::Button, index as int, value) == seq![
            0xB0u8,
            (17 + index) as u8,
            value,
        ],
        control_message(Control::DiscordKnob, index as int, value) == seq![
            0xB0u8,
            (33 + index) as u8,
            value,
        ],
        control_message(Control::DiscordButton, index as int, value) == seq![
            0xB0u8,
            (49 + index) as u8,
            value,
        ],
        control_message(Control::Ts3Knob, index as int, value) == seq![
            0xB0u8,
            (65 + index) as u8,
            value,
        ],
        control_message(Control::Ts3Button, index as int, value) == seq![
            0xB0u8,
            (81 + index) as u8,
            value,
        ],
{
}

/// Each row has its own kind of event, with the control's index and value in it.
pub proof fn rows_have_their_events(index: usize, value: u8)
    ensures
        Control::Knob.event(index, value) == (DeviceEvent::KnobTurn { index, value }),
        Control::Button.event(index, value) == (DeviceEvent::ButtonPress { index, value }),
        Control::DiscordKnob.event(index, value) == (DeviceEvent::DiscordKnobTurn { index, value }),
        Control::DiscordButton.event(index, value) == (DeviceEvent::DiscordButtonPress {
            index,
            value,
        }),
        Control::Ts3Knob.event(index, value) == (DeviceEvent::Ts3KnobTurn { index, value }),
        Control::Ts3Button.event(index, value) == (DeviceEvent::Ts3ButtonPress { index, value }),
{
}

/// A message of another length, with another status or for another controller tells of nothing.
pub proof fn other_messages_tell_nothing(message: Seq<u8>)
    ensures
        message.len() != 3 ==> message_event(message) is None,
        message.len() == 3 && message[0] != 0xB0 ==> message_event(message) is None,
        message.len() == 3 && (message[1] == 0 || message[1] > 96) ==> message_event(message) is None,
        message.len() == 3 && message[0] == 0xB0 && 1 <= message[1] <= 96 ==> message_event(message)
            is Some,
{
}

/// The device's ports are those with its name anywhere in theirs; a port whose name could not be read
/// is none.
pub proof fn device_ports_have_its_name(a: Seq<char>, b: Seq<char>, name: String)
    ensures
        name@ == a + "Roto-Control"@ + b ==> is_device_port(Some(name)),
        !text::contains_text(name@, "Roto-Control"@) ==> !is_device_port(Some(name)),
        !is_device_port(None),
{
    text::contained_texts_can_be_cut_out(name@, a, "Roto-Control"@, b);
}

} // verus!
