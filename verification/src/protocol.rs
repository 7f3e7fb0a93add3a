//! Binary serial protocol of the Roto-Control device.
//!
//! Commands: `0x5A <group> <subcommand> <len_hi> <len_lo> [data...]`.
//! Responses: `0xA5 <status> [data...]`; status `0x00` is OK, anything else is an error code.
//!
//! The port itself is not touched here: commands are bytes to write, and a [`Device`] is told
//! what was read and says what to read next.
use crate::text;
use vstd::prelude::*;
use vstd::string::*;

verus! {

broadcast use vstd::string::group_string_axioms;

const MSG_COMMAND: u8 = 0x5A;

const MSG_RESPONSE: u8 = 0xA5;

const MSG_RESPONSE_OK: u8 = 0x00;

/// The command group for the device as a whole.
pub const GENERAL: u8 = 0x01;

/// The command group for the MIDI setups.
pub const MIDI: u8 = 0x02;

/// General: get the firmware version.
pub const GENERAL_GET_FW_VERSION: u8 = 0x01;

/// General: get the mode.
pub const GENERAL_GET_ATARI_MODE: u8 = 0x02;

/// General: set the mode.
pub const GENERAL_SET_ATARI_MODE: u8 = 0x03;

/// General: begin a configuration transaction.
pub const GENERAL_START_CONFIG_UPDATE: u8 = 0x04;

/// General: end a configuration transaction.
pub const GENERAL_END_CONFIG_UPDATE: u8 = 0x05;

/// MIDI: name a setup page.
pub const MIDI_SET_SETUP_NAME: u8 = 0x04;

/// MIDI: configure a knob.
pub const MIDI_SET_KNOB_CONTROL_CONFIG: u8 = 0x07;

/// MIDI: configure a button.
pub const MIDI_SET_SWITCH_CONTROL_CONFIG: u8 = 0x08;

/// MIDI: clear a knob or a button.
pub const MIDI_CLEAR_CONTROL_CONFIG: u8 = 0x09;

/// How many bytes a name takes, its final NUL included.
pub const NAME_LENGTH: usize = 13;

/// What the device does with its controls.
#[derive(Debug, Clone, Copy, PartialEq, Eq, Structural)]
pub enum Mode {
    Midi,
    Plugin,
    Mix,
}

/// What can go wrong in talking to the device.
#[derive(Debug, Clone, Copy, PartialEq, Eq, Structural)]
pub enum ProtocolError {
    /// No mode has this index.
    UnknownMode(u8),
    /// A response does not begin with `0xA5`.
    UnexpectedHeader(u8),
    /// The device reports an error.
    DeviceStatus(u8),
    /// The answer to a version request has fewer than ten bytes.
    VersionTooShort(usize),
    /// The answer to a mode request has fewer than two bytes.
    ModeTooShort(usize),
}

impl Mode {
    /// The number of the mode on the wire.
    pub open spec fn index(self) -> u8 {
        match self {
            Mode::Midi => 0,
            Mode::Plugin => 1,
            Mode::Mix => 2,
        }
    }

    /// The mode with a number; there are three.
    pub fn from_index(i: u8) -> (r: Result<Mode, ProtocolError>)
        ensures
            match r {
                Ok(mode) => mode.index() == i,
                Err(e) => i > 2 && e == ProtocolError::UnknownMode(i),
            },
    {
        match i {
            0 => Ok(Mode::Midi),
            1 => Ok(Mode::Plugin),
            2 => Ok(Mode::Mix),
            _ => Err(ProtocolError::UnknownMode(i)),
        }
    }

    /// The number of the mode on the wire.
    pub fn to_index(self) -> (r: u8)
        ensures
            r == self.index(),
    {
        match self {
            Mode::Midi => 0,
            Mode::Plugin => 1,
            Mode::Mix => 2,
        }
    }
}

/// A mode is known by its number, and every number up to two is a mode's.
pub proof fn mode_index_is_one_to_one(a: Mode, b: Mode)
    ensures
        a.index() == b.index() <==> a == b,
        a.index() <= 2,
{
}

/// The device's firmware.
#[derive(Debug)]
pub struct FirmwareVersion {
    pub major: u8,
    pub minor: u8,
    pub patch: u8,
    /// The commit that the firmware was built from.
    pub commit: String,
}

/// The device's mode.
#[derive(Debug, Clone, Copy)]
pub struct ModeInfo {
    pub mode: Mode,
    pub first_control_index: u8,
}

/// What a control sends when it is moved.
#[derive(Debug, Clone, Copy, PartialEq, Eq, Structural)]
pub enum ControlMode {
    Cc7Bit,
    Cc14Bit,
    Nrpn7Bit,
    Nrpn14Bit,
}

impl ControlMode {
    /// The number of the control mode on the wire.
    pub open spec fn index(self) -> u8 {
        match self {
            ControlMode::Cc7Bit => 0,
            ControlMode::Cc14Bit => 1,
            ControlMode::Nrpn7Bit => 2,
            ControlMode::Nrpn14Bit => 3,
        }
    }

    fn to_index(self) -> (r: u8)
        ensures
            r == self.index(),
    {
        match self {
            ControlMode::Cc7Bit => 0,
            ControlMode::Cc14Bit => 1,
            ControlMode::Nrpn7Bit => 2,
            ControlMode::Nrpn14Bit => 3,
        }
    }
}

/// How a knob feels.
#[derive(Debug, Clone, Copy, PartialEq, Eq, Structural)]
pub enum KnobHapticMode {
    Normal,
    NStep,
    CentreIndent,
}

impl KnobHapticMode {
    /// The number of the haptic mode on the wire.
    pub open spec fn index(self) -> u8 {
        match self {
            KnobHapticMode::Normal => 0,
            KnobHapticMode::NStep => 1,
            KnobHapticMode::CentreIndent => 2,
        }
    }

    fn to_index(self) -> (r: u8)
        ensures
            r == self.index(),
    {
        match self {
            KnobHapticMode::Normal => 0,
            KnobHapticMode::NStep => 1,
            KnobHapticMode::CentreIndent => 2,
        }
    }
}

/// How a button works.
#[derive(Debug, Clone, Copy, PartialEq, Eq, Structural)]
pub enum SwitchHapticMode {
    Push,
    Toggle,
}

impl SwitchHapticMode {
    /// The number of the haptic mode on the wire.
    pub open spec fn index(self) -> u8 {
        match self {
            SwitchHapticMode::Push => 0,
            SwitchHapticMode::Toggle => 1,
        }
    }

    fn to_index(self) -> (r: u8)
        ensures
            r == self.index(),
    {
        match self {
            SwitchHapticMode::Push => 0,
            SwitchHapticMode::Toggle => 1,
        }
    }
}

/// How a knob is set up.
#[derive(Debug)]
pub struct MidiKnobConfig {
    pub setup_index: u8,
    pub control_index: u8,
    pub control_mode: ControlMode,
    pub control_channel: u8,
    pub control_param: u8,
    pub nrpn_address: u16,
    pub min_value: u16,
    pub max_value: u16,
    pub control_name: String,
    pub color_scheme: u8,
    pub haptic_mode: KnobHapticMode,
    pub haptic_indent1: u8,
    pub haptic_indent2: u8,
    pub haptic_steps: u8,
    pub step_names: Vec<String>,
}

/// How a button is set up.
#[derive(Debug)]
pub struct MidiButtonConfig {
    pub setup_index: u8,
    pub control_index: u8,
    pub control_mode: ControlMode,
    pub control_channel: u8,
    pub control_param: u8,
    pub nrpn_address: u16,
    pub min_value: u16,
    pub max_value: u16,
    pub control_name: String,
    pub color_scheme: u8,
    pub led_on_color: u8,
    pub led_off_color: u8,
    pub haptic_mode: SwitchHapticMode,
    pub haptic_steps: u8,
    pub step_names: Vec<String>,
}

// ---- names ----

/// The bytes of a name, cut so that at least one NUL follows, and filled up with NULs to `len`.
pub open spec fn padded(bytes: Seq<u8>, len: nat) -> Seq<u8> {
    Seq::new(
        len,
        |i: int|
            if i < bytes.len() && i < len - 1 {
                bytes[i]
            } else {
                0
            },
    )
}

/// A text cut or filled to exactly `len` bytes, the last of them NUL.
pub fn to_padded_string(s: &str, len: usize) -> (r: Vec<u8>)
    requires
        len >= 1,
    ensures
        r@ == padded(s.spec_bytes(), len as nat),
        r@.len() == len,
        r@.last() == 0,
{
    let bytes = s.as_bytes();
    let mut r: Vec<u8> = Vec::new();
    let mut i: usize = 0;
    while i < len
        invariant
            len >= 1,
            i <= len,
            bytes@ == s.spec_bytes(),
            r@ == padded(s.spec_bytes(), len as nat).take(i as int),
        decreases len - i,
    {
        if i < bytes.len() && i < len - 1 {
            r.push(bytes[i]);
        } else {
            r.push(0);
        }
        i += 1;
        assert(r@ == padded(s.spec_bytes(), len as nat).take(i as int));
    }
    assert(r@ == padded(s.spec_bytes(), len as nat));
    r
}

// ---- commands ----

/// The two bytes of a 16-bit number, the higher first.
pub open spec fn big_endian(n: int) -> Seq<u8> {
    seq![(n / 256 % 256) as u8, (n % 256) as u8]
}

/// A command: `0x5A`, the group, the subcommand, the length of the data modulo 2^16, the data.
pub open spec fn command(group: u8, subcommand: u8, data: Seq<u8>) -> Seq<u8> {
    seq![0x5Au8, group, subcommand] + big_endian((data.len() % 65536) as int) + data
}

/// The bytes of a command.
pub fn send_command(group: u8, subcommand: u8, data: &[u8]) -> (r: Vec<u8>)
    ensures
        r@ == command(group, subcommand, data@),
{
    let len: usize = data.len() % 65536;
    let mut packet: Vec<u8> = Vec::new();
    packet.push(MSG_COMMAND);
    packet.push(group);
    packet.push(subcommand);
    packet.push((len / 256) as u8);
    packet.push((len % 256) as u8);
    packet.extend_from_slice(data);
    assert(packet@ == command(group, subcommand, data@));
    packet
}

/// The length field of a command tells how many bytes follow it, and those are the data.
pub proof fn command_length_is_told(group: u8, subcommand: u8, data: Seq<u8>)
    requires
        data.len() <= 65535,
    ensures
        ({
            let packet = command(group, subcommand, data);
            &&& packet.len() == 5 + data.len()
            &&& packet[3] * 256 + packet[4] == data.len()
            &&& packet.skip(5) == data
        }),
{
    assert(command(group, subcommand, data).skip(5) == data);
}

/// Packets, by their bytes.
pub open spec fn packet_views(packets: Seq<Vec<u8>>) -> Seq<Seq<u8>> {
    packets.map_values(|p: Vec<u8>| p@)
}

/// The packet that begins a configuration transaction.
pub open spec fn start_packet() -> Seq<u8> {
    command(GENERAL, GENERAL_START_CONFIG_UPDATE, Seq::empty())
}

/// The packet that ends a configuration transaction.
pub open spec fn end_packet() -> Seq<u8> {
    command(GENERAL, GENERAL_END_CONFIG_UPDATE, Seq::empty())
}

/// The packet that clears a knob.
pub open spec fn clear_knob_packet(setup_index: u8, control_index: u8) -> Seq<u8> {
    command(MIDI, MIDI_CLEAR_CONTROL_CONFIG, seq![setup_index, 0u8, control_index])
}

/// The packet that clears a button.
pub open spec fn clear_button_packet(setup_index: u8, control_index: u8) -> Seq<u8> {
    command(MIDI, MIDI_CLEAR_CONTROL_CONFIG, seq![setup_index, 1u8, control_index])
}

/// A name as the device takes it.
pub open spec fn name_bytes(name: Seq<char>) -> Seq<u8> {
    padded(vstd::utf8::encode_utf8(name), NAME_LENGTH as nat)
}

/// The names of the steps of a control, one after the other.
pub open spec fn step_bytes(names: Seq<String>) -> Seq<u8>
    decreases names.len(),
{
    if names.len() == 0 {
        Seq::empty()
    } else {
        step_bytes(names.drop_last()) + name_bytes(names.last()@)
    }
}

/// What a control is told first: where it is, what it sends, its range and its name.
pub open spec fn control_bytes(
    setup_index: u8,
    control_index: u8,
    control_mode: ControlMode,
    control_channel: u8,
    control_param: u8,
    nrpn_address: u16,
    min_value: u16,
    max_value: u16,
    control_name: Seq<char>,
) -> Seq<u8> {
    seq![setup_index, control_index, control_mode.index(), control_channel, control_param]
        + big_endian(nrpn_address as int) + big_endian(min_value as int) + big_endian(
        max_value as int,
    ) + name_bytes(control_name)
}

/// The packet that configures a knob.
pub open spec fn knob_packet(c: MidiKnobConfig) -> Seq<u8> {
    command(
        MIDI,
        MIDI_SET_KNOB_CONTROL_CONFIG,
        control_bytes(
            c.setup_index,
            c.control_index,
            c.control_mode,
            c.control_channel,
            c.control_param,
            c.nrpn_address,
            c.min_value,
            c.max_value,
            c.control_name@,
        ) + seq![
            c.color_scheme,
            c.haptic_mode.index(),
            c.haptic_indent1,
            c.haptic_indent2,
            c.haptic_steps,
        ] + step_bytes(c.step_names@),
    )
}

/// The packet that configures a button.
pub open spec fn button_packet(c: MidiButtonConfig) -> Seq<u8> {
    command(
        MIDI,
        MIDI_SET_SWITCH_CONTROL_CONFIG,
        control_bytes(
            c.setup_index,
            c.control_index,
            c.control_mode,
            c.control_channel,
            c.control_param,
            c.nrpn_address,
            c.min_value,
            c.max_value,
            c.control_name@,
        ) + seq![
            c.color_scheme,
            c.led_on_color,
            c.led_off_color,
            c.haptic_mode.index(),
            c.haptic_steps,
        ] + step_bytes(c.step_names@),
    )
}

/// A transaction with one command in it.
pub open spec fn transaction(packet: Seq<u8>) -> Seq<Seq<u8>> {
    seq![start_packet(), packet, end_packet()]
}

/// The packets that clear the knobs and buttons `from..to` of setup 0, in turn.
pub open spec fn clear_packets(from: nat, to: nat) -> Seq<Seq<u8>>
    decreases to,
{
    if to <= from {
        Seq::empty()
    } else {
        clear_packets(from, (to - 1) as nat).push(clear_knob_packet(0, (to - 1) as u8)).push(
            clear_button_packet(0, (to - 1) as u8),
        )
    }
}

fn push_big_endian(out: &mut Vec<u8>, n: u16)
    ensures
        final(out)@ == old(out)@ + big_endian(n as int),
{
    out.push((n / 256) as u8);
    out.push((n % 256) as u8);
    assert(out@ == old(out)@ + big_endian(n as int));
}

fn push_name(out: &mut Vec<u8>, name: &str)
    ensures
        final(out)@ == old(out)@ + name_bytes(name@),
{
    let bytes = to_padded_string(name, NAME_LENGTH);
    out.extend_from_slice(bytes.as_slice());
    assert(out@ == old(out)@ + name_bytes(name@));
}

fn push_steps(out: &mut Vec<u8>, names: &Vec<String>)
    ensures
        final(out)@ == old(out)@ + step_bytes(names@),
{
    let mut i: usize = 0;
    assert(names@.take(0) == Seq::<String>::empty());
    assert(out@ == old(out)@ + step_bytes(names@.take(0)));
    while i < names.len()
        invariant
            i <= names@.len(),
            out@ == old(out)@ + step_bytes(names@.take(i as int)),
        decreases names@.len() - i,
    {
        let ghost before = out@;
        push_name(out, names[i].as_str());
        i += 1;
        assert(names@.take(i as int).drop_last() == names@.take(i - 1));
        assert(out@ == old(out)@ + step_bytes(names@.take(i as int)));
    }
    assert(names@.take(i as int) == names@);
}

/// Adds a packet to a script.
pub(crate) fn push_packet(packets: &mut Vec<Vec<u8>>, packet: Vec<u8>)
    ensures
        packet_views(final(packets)@) == packet_views(old(packets)@).push(packet@),
{
    packets.push(packet);
    assert(packet_views(packets@) == packet_views(old(packets)@).push(packet@));
}

// ---- responses ----

/// Where the reading of a response stands.
#[derive(Debug, Clone, Copy, PartialEq, Eq, Structural)]
pub enum Phase {
    /// The first byte is to be read.
    Header,
    /// The device told something of its own accord; that is to be read and dropped.
    Notification,
    /// The status is to be read.
    Status,
    /// Data may follow until the device falls silent.
    Data,
    /// The response is complete.
    Done,
}

/// What came of reading.
pub enum LinkEvent {
    /// One byte was read.
    Byte(u8),
    /// A notification was read to its end.
    Drained,
    /// Some bytes of data were read.
    Chunk(Vec<u8>),
    /// The device fell silent.
    Quiet,
}

/// The host's side of the link to the device: how far a response has been read.
pub struct Device {
    phase: Phase,
    data: Vec<u8>,
}

/// A link, by its views.
#[verifier::ext_equal]
pub struct DeviceView {
    pub phase: Phase,
    pub data: Seq<u8>,
}

impl View for Device {
    type V = DeviceView;

    closed spec fn view(&self) -> DeviceView {
        DeviceView { phase: self.phase, data: self.data@ }
    }
}

/// A link that has just been written a command to.
pub open spec fn awaiting() -> DeviceView {
    DeviceView { phase: Phase::Header, data: Seq::empty() }
}

/// The link after something was read; what its phase does not wait for changes nothing.
pub open spec fn after_event(d: DeviceView, event: LinkEvent) -> Result<DeviceView, ProtocolError> {
    match (d.phase, event) {
        (Phase::Header, LinkEvent::Byte(b)) => if b == 0xA5 {
            Ok(DeviceView { phase: Phase::Status, ..d })
        } else if b == 0x5A {
            Ok(DeviceView { phase: Phase::Notification, ..d })
        } else {
            Err(ProtocolError::UnexpectedHeader(b))
        },
        (Phase::Notification, LinkEvent::Drained) => Ok(DeviceView { phase: Phase::Header, ..d }),
        (Phase::Status, LinkEvent::Byte(b)) => if b == 0x00 {
            Ok(DeviceView { phase: Phase::Data, ..d })
        } else {
            Err(ProtocolError::DeviceStatus(b))
        },
        (Phase::Data, LinkEvent::Chunk(bytes)) => Ok(DeviceView { data: d.data + bytes@, ..d }),
        (Phase::Data, LinkEvent::Quiet) => Ok(DeviceView { phase: Phase::Done, ..d }),
        _ => Ok(d),
    }
}

/// What the answer to a version request says.
pub open spec fn commit_text(data: Seq<u8>) -> Seq<char> {
    text::without_trailing(text::lossy(data.subrange(3, 10)), '\0')
}

impl Device {
    /// A link that waits for a response.
    pub fn new() -> (r: Device)
        ensures
            r@ == awaiting(),
    {
        Device { phase: Phase::Header, data: Vec::new() }
    }

    /// Where the reading of the response stands.
    pub fn phase(&self) -> (r: Phase)
        ensures
            r == self@.phase,
    {
        self.phase
    }

    /// The data of the response so far.
    pub fn into_data(self) -> (r: Vec<u8>)
        ensures
            r@ == self@.data,
    {
        self.data
    }

    /// How long reading waits in this phase, in milliseconds, where that differs from the
    /// port's own timeout.
    pub fn read_timeout_ms(&self) -> (r: Option<u64>)
        ensures
            r == match self@.phase {
                Phase::Notification => Some(50u64),
                Phase::Data => Some(100u64),
                _ => None,
            },
    {
        match self.phase {
            Phase::Notification => Some(50),
            Phase::Data => Some(100),
            _ => None,
        }
    }

    /// Takes in what was read. After an error the exchange is over; what the phase does not wait
    /// for is passed over.
    pub fn handle(&mut self, event: LinkEvent) -> (r: Result<(), ProtocolError>)
        ensures
            match r {
                Ok(_) => after_event(old(self)@, event) == Ok::<_, ProtocolError>(final(self)@),
                Err(e) => after_event(old(self)@, event) == Err::<DeviceView, _>(e) && final(self)@
                    == old(self)@,
            },
    {
        match (self.phase, event) {
            (Phase::Header, LinkEvent::Byte(b)) => {
                if b == MSG_RESPONSE {
                    self.phase = Phase::Status;
                } else if b == MSG_COMMAND {
                    self.phase = Phase::Notification;
                } else {
                    return Err(ProtocolError::UnexpectedHeader(b));
                }
            },
            (Phase::Notification, LinkEvent::Drained) => {
                self.phase = Phase::Header;
            },
            (Phase::Status, LinkEvent::Byte(b)) => {
                if b != MSG_RESPONSE_OK {
                    return Err(ProtocolError::DeviceStatus(b));
                }
                self.phase = Phase::Data;
            },
            (Phase::Data, LinkEvent::Chunk(bytes)) => {
                self.data.extend_from_slice(bytes.as_slice());
                assert(self.data@ == old(self).data@ + bytes@);
            },
            (Phase::Data, LinkEvent::Quiet) => {
                self.phase = Phase::Done;
            },
            _ => {},
        }
        Ok(())
    }

    /// The packet that begins a configuration transaction.
    pub fn start_config_update() -> (r: Vec<u8>)
        ensures
            r@ == start_packet(),
    {
        send_command(GENERAL, GENERAL_START_CONFIG_UPDATE, &[])
    }

    /// The packet that ends a configuration transaction.
    pub fn end_config_update() -> (r: Vec<u8>)
        ensures
            r@ == end_packet(),
    {
        send_command(GENERAL, GENERAL_END_CONFIG_UPDATE, &[])
    }

    /// A command with its own configuration transaction around it.
    pub fn send_config_update(group: u8, subcommand: u8, data: &[u8]) -> (r: Vec<Vec<u8>>)
        ensures
            packet_views(r@) == transaction(command(group, subcommand, data@)),
    {
        let mut r: Vec<Vec<u8>> = Vec::new();
        push_packet(&mut r, Device::start_config_update());
        push_packet(&mut r, send_command(group, subcommand, data));
        push_packet(&mut r, Device::end_config_update());
        assert(packet_views(r@) == transaction(command(group, subcommand, data@)));
        r
    }

    /// The packet that asks for the firmware version.
    pub fn get_version() -> (r: Vec<u8>)
        ensures
            r@ == command(GENERAL, GENERAL_GET_FW_VERSION, Seq::empty()),
    {
        send_command(GENERAL, GENERAL_GET_FW_VERSION, &[])
    }

    /// The firmware version in the data of a response: three numbers, then seven bytes for the
    /// commit, filled up with NULs.
    pub fn read_version(data: &[u8]) -> (r: Result<FirmwareVersion, ProtocolError>)
        ensures
            match r {
                Ok(v) => data@.len() >= 10 && v.major == data@[0] && v.minor == data@[1] && v.patch
                    == data@[2] && v.commit@ == commit_text(data@) && (vstd::utf8::valid_utf8(
                    data@.subrange(3, 10),
                ) ==> v.commit@ == text::without_trailing(
                    vstd::utf8::decode_utf8(data@.subrange(3, 10)),
                    '\0',
                )),
                Err(e) => data@.len() < 10 && e == ProtocolError::VersionTooShort(
                    data@.len() as usize,
                ),
            },
    {
        if data.len() < 10 {
            return Err(ProtocolError::VersionTooShort(data.len()));
        }
        let commit = text::from_utf8_lossy(vstd::slice::slice_subrange(data, 3, 10));
        Ok(
            FirmwareVersion {
                major: data[0],
                minor: data[1],
                patch: data[2],
                commit: text::trim_trailing(commit.as_str(), '\0'),
            },
        )
    }

    /// The packet that asks for the mode.
    pub fn get_mode() -> (r: Vec<u8>)
        ensures
            r@ == command(GENERAL, GENERAL_GET_ATARI_MODE, Seq::empty()),
    {
        send_command(GENERAL, GENERAL_GET_ATARI_MODE, &[])
    }

    /// The mode in the data of a response.
    pub fn read_mode(data: &[u8]) -> (r: Result<ModeInfo, ProtocolError>)
        ensures
            match r {
                Ok(m) => data@.len() >= 2 && m.mode.index() == data@[0] && m.first_control_index
                    == data@[1],
                Err(ProtocolError::ModeTooShort(n)) => data@.len() < 2 && n == data@.len(),
                Err(e) => data@.len() >= 2 && data@[0] > 2 && e == ProtocolError::UnknownMode(
                    data@[0],
                ),
            },
    {
        if data.len() < 2 {
            return Err(ProtocolError::ModeTooShort(data.len()));
        }
        match Mode::from_index(data[0]) {
            Ok(mode) => Ok(ModeInfo { mode, first_control_index: data[1] }),
            Err(e) => Err(e),
        }
    }

    /// The packet that sets the mode.
    pub fn set_mode(mode: Mode, first_control_index: u8) -> (r: Vec<u8>)
        ensures
            r@ == command(
                GENERAL,
                GENERAL_SET_ATARI_MODE,
                seq![mode.index(), first_control_index],
            ),
    {
        let data: [u8; 2] = [mode.to_index(), first_control_index];
        assert(data@ == seq![mode.index(), first_control_index]);
        send_command(GENERAL, GENERAL_SET_ATARI_MODE, &data)
    }

    /// The packets that name a setup page, in a transaction of their own.
    pub fn set_setup_name(setup_index: u8, name: &str) -> (r: Vec<Vec<u8>>)
        ensures
            packet_views(r@) == transaction(
                command(MIDI, MIDI_SET_SETUP_NAME, seq![setup_index] + name_bytes(name@)),
            ),
    {
        let mut payload: Vec<u8> = Vec::new();
        payload.push(setup_index);
        push_name(&mut payload, name);
        assert(payload@ == seq![setup_index] + name_bytes(name@));
        Device::send_config_update(MIDI, MIDI_SET_SETUP_NAME, payload.as_slice())
    }

    /// The packets that clear every knob and every button of setup 0, in one transaction.
    pub fn clear_all() -> (r: Vec<Vec<u8>>)
        ensures
            packet_views(r@) == seq![start_packet()] + clear_packets(0, 8) + seq![end_packet()],
    {
        let mut r: Vec<Vec<u8>> = Vec::new();
        push_packet(&mut r, Device::start_config_update());
        let mut i: u8 = 0;
        assert(packet_views(r@) == seq![start_packet()] + clear_packets(0, 0));
        while i < 8
            invariant
                i <= 8,
                packet_views(r@) == seq![start_packet()] + clear_packets(0, i as nat),
            decreases 8 - i,
        {
            push_packet(&mut r, Device::send_clear_knob(0, i));
            push_packet(&mut r, Device::send_clear_button(0, i));
            i += 1;
            assert(packet_views(r@) == seq![start_packet()] + clear_packets(0, i as nat));
        }
        push_packet(&mut r, Device::end_config_update());
        assert(packet_views(r@) == seq![start_packet()] + clear_packets(0, 8) + seq![end_packet()]);
        r
    }

    /// The packet that configures a knob, for use in a transaction.
    pub fn send_midi_knob_config(config: &MidiKnobConfig) -> (r: Vec<u8>)
        ensures
            r@ == knob_packet(*config),
    {
        let mut payload: Vec<u8> = Vec::new();
        payload.push(config.setup_index);
        payload.push(config.control_index);
        payload.push(config.control_mode.to_index());
        payload.push(config.control_channel);
        payload.push(config.control_param);
        push_big_endian(&mut payload, config.nrpn_address);
        push_big_endian(&mut payload, config.min_value);
        push_big_endian(&mut payload, config.max_value);
        push_name(&mut payload, config.control_name.as_str());
        let ghost first = payload@;
        assert(first == control_bytes(
            config.setup_index,
            config.control_index,
            config.control_mode,
            config.control_channel,
            config.control_param,
            config.nrpn_address,
            config.min_value,
            config.max_value,
            config.control_name@,
        ));
        payload.push(config.color_scheme);
        payload.push(config.haptic_mode.to_index());
        payload.push(config.haptic_indent1);
        payload.push(config.haptic_indent2);
        payload.push(config.haptic_steps);
        assert(payload@ == first + seq![
            config.color_scheme,
            config.haptic_mode.index(),
            config.haptic_indent1,
            config.haptic_indent2,
            config.haptic_steps,
        ]);
        push_steps(&mut payload, &config.step_names);
        send_command(MIDI, MIDI_SET_KNOB_CONTROL_CONFIG, payload.as_slice())
    }

    /// The packet that configures a button, for use in a transaction.
    pub fn send_midi_button_config(config: &MidiButtonConfig) -> (r: Vec<u8>)
        ensures
            r@ == button_packet(*config),
    {
        let mut payload: Vec<u8> = Vec::new();
        payload.push(config.setup_index);
        payload.push(config.control_index);
        payload.push(config.control_mode.to_index());
        payload.push(config.control_channel);
        payload.push(config.control_param);
        push_big_endian(&mut payload, config.nrpn_address);
        push_big_endian(&mut payload, config.min_value);
        push_big_endian(&mut payload, config.max_value);
        push_name(&mut payload, config.control_name.as_str());
        let ghost first = payload@;
        assert(first == control_bytes(
            config.setup_index,
            config.control_index,
            config.control_mode,
            config.control_channel,
            config.control_param,
            config.nrpn_address,
            config.min_value,
            config.max_value,
            config.control_name@,
        ));
        payload.push(config.color_scheme);
        payload.push(config.led_on_color);
        payload.push(config.led_off_color);
        payload.push(config.haptic_mode.to_index());
        payload.push(config.haptic_steps);
        assert(payload@ == first + seq![
            config.color_scheme,
            config.led_on_color,
            config.led_off_color,
            config.haptic_mode.index(),
            config.haptic_steps,
        ]);
        push_steps(&mut payload, &config.step_names);
        send_command(MIDI, MIDI_SET_SWITCH_CONTROL_CONFIG, payload.as_slice())
    }

    /// The packet that clears a knob, for use in a transaction.
    pub fn send_clear_knob(setup_index: u8, control_index: u8) -> (r: Vec<u8>)
        ensures
            r@ == clear_knob_packet(setup_index, control_index),
    {
        let data: [u8; 3] = [setup_index, 0, control_index];
        assert(data@ == seq![setup_index, 0u8, control_index]);
        send_command(MIDI, MIDI_CLEAR_CONTROL_CONFIG, &data)
    }

    /// The packet that clears a button, for use in a transaction.
    pub fn send_clear_button(setup_index: u8, control_index: u8) -> (r: Vec<u8>)
        ensures
            r@ == clear_button_packet(setup_index, control_index),
    {
        let data: [u8; 3] = [setup_index, 1, control_index];
        assert(data@ == seq![setup_index, 1u8, control_index]);
        send_command(MIDI, MIDI_CLEAR_CONTROL_CONFIG, &data)
    }
}

// ---- what holds of every exchange ----

/// The link after a number of events, in order.
pub open spec fn after_events(d: DeviceView, events: Seq<LinkEvent>) -> Result<
    DeviceView,
    ProtocolError,
>
    decreases events.len(),
{
    if events.len() == 0 {
        Ok(d)
    } else {
        match after_events(d, events.drop_last()) {
            Ok(e) => after_event(e, events.last()),
            Err(e) => Err(e),
        }
    }
}

/// Chunks of bytes, one after the other.
pub open spec fn joined(chunks: Seq<Vec<u8>>) -> Seq<u8>
    decreases chunks.len(),
{
    if chunks.len() == 0 {
        Seq::empty()
    } else {
        joined(chunks.drop_last()) + chunks.last()@
    }
}

/// A device's notification that comes before a response changes nothing in what is read.
pub proof fn notifications_are_skipped(d: DeviceView)
    requires
        d.phase is Header,
    ensures
        after_events(d, seq![LinkEvent::Byte(0x5A), LinkEvent::Drained]) == Ok::<_, ProtocolError>(
            d,
        ),
{
    let events = seq![LinkEvent::Byte(0x5A), LinkEvent::Drained];
    assert(events.drop_last() == seq![LinkEvent::Byte(0x5A)]);
    assert(events.drop_last().drop_last() == Seq::<LinkEvent>::empty());
    reveal_with_fuel(after_events, 3);
}

/// The events of a response that comes in the given chunks.
pub open spec fn response_events(chunks: Seq<Vec<u8>>) -> Seq<LinkEvent> {
    (seq![LinkEvent::Byte(0xA5), LinkEvent::Byte(0x00)] + chunks.map_values(
        |c: Vec<u8>| LinkEvent::Chunk(c),
    )).push(LinkEvent::Quiet)
}

proof fn lemma_chunks(chunks: Seq<Vec<u8>>)
    ensures
        after_events(awaiting(), response_events(chunks).drop_last()) == Ok::<
            _,
            ProtocolError,
        >(DeviceView { phase: Phase::Data, data: joined(chunks) }),
    decreases chunks.len(),
{
    let events = response_events(chunks).drop_last();
    if chunks.len() == 0 {
        assert(events == seq![LinkEvent::Byte(0xA5), LinkEvent::Byte(0x00)]);
        assert(events.drop_last() == seq![LinkEvent::Byte(0xA5)]);
        assert(events.drop_last().drop_last() == Seq::<LinkEvent>::empty());
        reveal_with_fuel(after_events, 3);
    } else {
        lemma_chunks(chunks.drop_last());
        assert(events.drop_last() == response_events(chunks.drop_last()).drop_last());
        assert(events.last() == LinkEvent::Chunk(chunks.last()));
    }
}

/// However a good response is cut into chunks, its data are the chunks put together.
pub proof fn response_is_read_whole(chunks: Seq<Vec<u8>>)
    ensures
        after_events(awaiting(), response_events(chunks)) == Ok::<_, ProtocolError>(
            DeviceView { phase: Phase::Done, data: joined(chunks) },
        ),
{
    lemma_chunks(chunks);
}

/// A response with any other status than OK is refused with that status.
pub proof fn bad_status_is_reported(status: u8)
    requires
        status != 0x00,
    ensures
        after_events(
            awaiting(),
            seq![LinkEvent::Byte(0xA5), LinkEvent::Byte(status)],
        ) == Err::<DeviceView, _>(ProtocolError::DeviceStatus(status)),
{
    let events = seq![LinkEvent::Byte(0xA5), LinkEvent::Byte(status)];
    assert(events.drop_last() == seq![LinkEvent::Byte(0xA5)]);
    assert(events.drop_last().drop_last() == Seq::<LinkEvent>::empty());
    reveal_with_fuel(after_events, 3);
}

/// A name of up to twelve bytes reaches the device whole, with NULs behind it; of a longer one the
/// first twelve bytes do.
pub proof fn names_are_cut_at_the_end(bytes: Seq<u8>)
    ensures
        padded(bytes, NAME_LENGTH as nat).len() == NAME_LENGTH,
        bytes.len() <= 12 ==> padded(bytes, NAME_LENGTH as nat).take(bytes.len() as int) == bytes,
        bytes.len() > 12 ==> padded(bytes, NAME_LENGTH as nat).take(12) == bytes.take(12),
        forall|i: int|
            bytes.len() <= i < NAME_LENGTH ==> #[trigger] padded(bytes, NAME_LENGTH as nat)[i] == 0,
        padded(bytes, NAME_LENGTH as nat)[12] == 0,
{
    let name = padded(bytes, NAME_LENGTH as nat);
    if bytes.len() <= 12 {
        assert(name.take(bytes.len() as int) =~= bytes);
    } else {
        assert(name.take(12) =~= bytes.take(12));
    }
}

/// A command begins with `0x5A`, its group and its subcommand.
pub proof fn commands_begin_alike(group: u8, subcommand: u8, data: Seq<u8>)
    ensures
        command(group, subcommand, data).take(3) == seq![0x5Au8, group, subcommand],
{
    assert(command(group, subcommand, data).take(3) =~= seq![0x5Au8, group, subcommand]);
}

/// The packets without data or with little, byte by byte.
pub proof fn short_packets(setup: u8, i: u8)
    ensures
        start_packet() == seq![0x5Au8, 1, 4, 0, 0],
        end_packet() == seq![0x5Au8, 1, 5, 0, 0],
        clear_knob_packet(setup, i) == seq![0x5Au8, 2, 9, 0, 3, setup, 0, i],
        clear_button_packet(setup, i) == seq![0x5Au8, 2, 9, 0, 3, setup, 1, i],
        transaction(clear_knob_packet(setup, i)) == seq![
            start_packet(),
            clear_knob_packet(setup, i),
            end_packet(),
        ],
{
    assert(start_packet() =~= seq![0x5Au8, 1, 4, 0, 0]);
    assert(end_packet() =~= seq![0x5Au8, 1, 5, 0, 0]);
    assert(clear_knob_packet(setup, i) =~= seq![0x5Au8, 2, 9, 0, 3, setup, 0, i]);
    assert(clear_button_packet(setup, i) =~= seq![0x5Au8, 2, 9, 0, 3, setup, 1, i]);
}

/// The numbers that modes go by on the wire.
pub proof fn modes_have_their_numbers(
    m: Mode,
    c: ControlMode,
    k: KnobHapticMode,
    b: SwitchHapticMode,
)
    ensures
        m is Midi <==> m.index() == 0,
        m is Plugin <==> m.index() == 1,
        m is Mix <==> m.index() == 2,
        c is Cc7Bit <==> c.index() == 0,
        c is Cc14Bit <==> c.index() == 1,
        c is Nrpn7Bit <==> c.index() == 2,
        c is Nrpn14Bit <==> c.index() == 3,
        k is Normal <==> k.index() == 0,
        k is NStep <==> k.index() == 1,
        k is CentreIndent <==> k.index() == 2,
        b is Push <==> b.index() == 0,
        b is Toggle <==> b.index() == 1,
{
}

/// Where everything stands in the packet for a knob: what it sends from byte 5 on, two bytes for each
/// larger number with the higher one first, then the name, then color, feel and steps.
pub proof fn knob_packets_hold_their_settings(c: MidiKnobConfig)
    ensures
        ({
            let p = knob_packet(c);
            &&& p[1] == 2
            &&& p[2] == 7
            &&& p[5] == c.setup_index
            &&& p[6] == c.control_index
            &&& p[7] == c.control_mode.index()
            &&& p[8] == c.control_channel
            &&& p[9] == c.control_param
            &&& p[10] * 256 + p[11] == c.nrpn_address
            &&& p[12] * 256 + p[13] == c.min_value
            &&& p[14] * 256 + p[15] == c.max_value
            &&& p.subrange(16, 29) == padded(vstd::utf8::encode_utf8(c.control_name@), 13)
            &&& p[29] == c.color_scheme
            &&& p[30] == c.haptic_mode.index()
            &&& p[31] == c.haptic_indent1
            &&& p[32] == c.haptic_indent2
            &&& p[33] == c.haptic_steps
            &&& p.skip(34) == step_bytes(c.step_names@)
        }),
{
    let p = knob_packet(c);
    assert(p.subrange(16, 29) =~= padded(vstd::utf8::encode_utf8(c.control_name@), 13));
    assert(p.skip(34) =~= step_bytes(c.step_names@));
}

/// Where everything stands in the packet for a button: as in that for a knob up to the color, then
/// the colors of its light, down and up, then how it works and its steps.
pub proof fn button_packets_hold_their_settings(c: MidiButtonConfig)
    ensures
        ({
            let p = button_packet(c);
            &&& p[1] == 2
            &&& p[2] == 8
            &&& p[5] == c.setup_index
            &&& p[6] == c.control_index
            &&& p[7] == c.control_mode.index()
            &&& p[8] == c.control_channel
            &&& p[9] == c.control_param
            &&& p[10] * 256 + p[11] == c.nrpn_address
            &&& p[12] * 256 + p[13] == c.min_value
            &&& p[14] * 256 + p[15] == c.max_value
            &&& p.subrange(16, 29) == padded(vstd::utf8::encode_utf8(c.control_name@), 13)
            &&& p[29] == c.color_scheme
            &&& p[30] == c.led_on_color
            &&& p[31] == c.led_off_color
            &&& p[32] == c.haptic_mode.index()
            &&& p[33] == c.haptic_steps
            &&& p.skip(34) == step_bytes(c.step_names@)
        }),
{
    let p = button_packet(c);
    assert(p.subrange(16, 29) =~= padded(vstd::utf8::encode_utf8(c.control_name@), 13));
    assert(p.skip(34) =~= step_bytes(c.step_names@));
}

/// The names of steps stand one after the other, thirteen bytes each.
pub proof fn step_names_follow_each_other(names: Seq<String>, k: int)
    requires
        0 <= k < names.len(),
    ensures
        step_bytes(names).len() == 13 * names.len(),
        step_bytes(names).subrange(13 * k, 13 * k + 13) == padded(
            vstd::utf8::encode_utf8(names[k]@),
            13,
        ),
    decreases names.len(),
{
    let before = step_bytes(names.drop_last());
    let wanted = padded(vstd::utf8::encode_utf8(names[k]@), 13);
    if names.len() > 1 {
        step_names_follow_each_other(
            names.drop_last(),
            if k < names.len() - 1 {
                k
            } else {
                0
            },
        );
    }
    assert(before.len() == 13 * (names.len() - 1));
    if k < names.len() - 1 {
        assert(step_bytes(names).subrange(13 * k, 13 * k + 13) =~= before.subrange(
            13 * k,
            13 * k + 13,
        ));
    } else {
        assert(step_bytes(names).subrange(13 * k, 13 * k + 13) =~= wanted);
    }
}

/// Clearing some controls clears the knob and the button of each place in the range, and no other.
pub proof fn clearing_covers_the_range(from: nat, to: nat, i: int)
    requires
        to <= 256,
        from <= i < to,
    ensures
        clear_packets(from, to).len() == 2 * (to - from),
        clear_packets(from, to)[2 * (i - from)] == clear_knob_packet(0, i as u8),
        clear_packets(from, to)[2 * (i - from) + 1] == clear_button_packet(0, i as u8),
    decreases to,
{
    if to - 1 > from {
        clearing_covers_the_range(
            from,
            (to - 1) as nat,
            if i < to - 1 {
                i
            } else {
                from as int
            },
        );
    } else {
        assert(clear_packets(from, (to - 1) as nat).len() == 0);
    }
}

/// A response that does not begin with `0xA5` is refused with the byte that it begins with, unless
/// that is the beginning of a notification.
pub proof fn other_headers_are_refused(d: DeviceView, b: u8)
    requires
        d.phase is Header,
        b != 0xA5,
        b != 0x5A,
    ensures
        after_event(d, LinkEvent::Byte(b)) == Err::<DeviceView, _>(
            ProtocolError::UnexpectedHeader(b),
        ),
{
}

/// What is read out of turn changes nothing.
pub proof fn events_out_of_turn_change_nothing(d: DeviceView, event: LinkEvent)
    requires
        match d.phase {
            Phase::Header => !(event is Byte),
            Phase::Notification => !(event is Drained),
            Phase::Status => !(event is Byte),
            Phase::Data => !(event is Chunk || event is Quiet),
            Phase::Done => true,
        },
    ensures
        after_event(d, event) == Ok::<_, ProtocolError>(d),
{
}

} // verus!
