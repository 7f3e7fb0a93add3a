//! The serial protocol and the MIDI messages.
use proto_control::midi;
use proto_control::midi::{Control, DeviceEvent, OutOfRange};
use proto_control::protocol;
use proto_control::protocol::{
    ControlMode, Device, KnobHapticMode, LinkEvent, MidiButtonConfig, MidiKnobConfig, Mode, Phase,
    ProtocolError, SwitchHapticMode,
};

#[test]
fn modes_are_numbered() {
    for (i, mode) in [Mode::Midi, Mode::Plugin, Mode::Mix].iter().enumerate() {
        assert_eq!(mode.to_index(), i as u8);
        assert_eq!(Mode::from_index(i as u8), Ok(*mode));
    }
    assert_eq!(Mode::from_index(3), Err(ProtocolError::UnknownMode(3)));
    assert_eq!(Mode::from_index(255), Err(ProtocolError::UnknownMode(255)));
}

#[test]
fn names_are_padded_with_nul() {
    assert_eq!(protocol::to_padded_string("Zen", 5), vec![b'Z', b'e', b'n', 0, 0]);
    assert_eq!(protocol::to_padded_string("Roto-Control!", 13), b"Roto-Control\0".to_vec());
    assert_eq!(protocol::to_padded_string("", 3), vec![0, 0, 0]);
    assert_eq!(protocol::to_padded_string("long", 1), vec![0]);
    assert_eq!(protocol::to_padded_string("aé", 3), vec![b'a', 0xC3, 0]);
}

#[test]
fn commands_tell_their_length() {
    assert_eq!(protocol::send_command(1, 2, &[]), vec![0x5A, 1, 2, 0, 0]);
    let data = vec![7u8; 300];
    let packet = protocol::send_command(2, 7, &data);
    assert_eq!(&packet[..5], &[0x5A, 2, 7, 1, 44]);
    assert_eq!(&packet[5..], &data[..]);
    let long = vec![1u8; 65536 + 3];
    assert_eq!(&protocol::send_command(2, 7, &long)[3..5], &[0, 3]);
}

#[test]
fn simple_packets() {
    assert_eq!(Device::start_config_update(), vec![0x5A, 1, 4, 0, 0]);
    assert_eq!(Device::end_config_update(), vec![0x5A, 1, 5, 0, 0]);
    assert_eq!(Device::get_version(), vec![0x5A, 1, 1, 0, 0]);
    assert_eq!(Device::get_mode(), vec![0x5A, 1, 2, 0, 0]);
    assert_eq!(Device::set_mode(Mode::Mix, 8), vec![0x5A, 1, 3, 0, 2, 2, 8]);
    assert_eq!(Device::send_clear_knob(0, 3), vec![0x5A, 2, 9, 0, 3, 0, 0, 3]);
    assert_eq!(Device::send_clear_button(0, 3), vec![0x5A, 2, 9, 0, 3, 0, 1, 3]);
}

#[test]
fn a_setup_is_named_in_a_transaction() {
    let packets = Device::set_setup_name(0, "Rotool");
    assert_eq!(packets.len(), 3);
    assert_eq!(packets[0], Device::start_config_update());
    assert_eq!(packets[1], b"\x5A\x02\x04\x00\x0E\x00Rotool\0\0\0\0\0\0\0".to_vec());
    assert_eq!(packets[2], Device::end_config_update());
}

#[test]
fn a_single_command_is_wrapped_in_a_transaction() {
    let packets = Device::send_config_update(2, 4, &[1, 2]);
    assert_eq!(
        packets,
        vec![
            Device::start_config_update(),
            vec![0x5A, 2, 4, 0, 2, 1, 2],
            Device::end_config_update(),
        ]
    );
}

#[test]
fn clearing_touches_every_control_once() {
    let packets = Device::clear_all();
    assert_eq!(packets.len(), 18);
    assert_eq!(packets[0], Device::start_config_update());
    for i in 0..8u8 {
        assert_eq!(packets[1 + 2 * i as usize], Device::send_clear_knob(0, i));
        assert_eq!(packets[2 + 2 * i as usize], Device::send_clear_button(0, i));
    }
    assert_eq!(packets[17], Device::end_config_update());
}

#[test]
fn knobs_are_configured() {
    let packet = Device::send_midi_knob_config(&MidiKnobConfig {
        setup_index: 0,
        control_index: 2,
        control_mode: ControlMode::Nrpn14Bit,
        control_channel: 4,
        control_param: 5,
        nrpn_address: 0x0102,
        min_value: 0x0304,
        max_value: 0x0506,
        control_name: "Zen".to_string(),
        color_scheme: 9,
        haptic_mode: KnobHapticMode::CentreIndent,
        haptic_indent1: 0xFF,
        haptic_indent2: 0xFE,
        haptic_steps: 10,
        step_names: vec!["a".to_string(), "bc".to_string()],
    });
    let mut expected = vec![0x5A, 2, 7, 0, 55, 0, 2, 3, 4, 5, 1, 2, 3, 4, 5, 6];
    expected.extend_from_slice(b"Zen\0\0\0\0\0\0\0\0\0\0");
    expected.extend_from_slice(&[9, 2, 0xFF, 0xFE, 10]);
    expected.extend_from_slice(b"a\0\0\0\0\0\0\0\0\0\0\0\0bc\0\0\0\0\0\0\0\0\0\0\0");
    assert_eq!(packet, expected);
}

#[test]
fn buttons_are_configured() {
    let packet = Device::send_midi_button_config(&MidiButtonConfig {
        setup_index: 1,
        control_index: 2,
        control_mode: ControlMode::Cc14Bit,
        control_channel: 4,
        control_param: 5,
        nrpn_address: 0xFFFF,
        min_value: 0,
        max_value: 127,
        control_name: String::new(),
        color_scheme: 70,
        led_on_color: 14,
        led_off_color: 71,
        haptic_mode: SwitchHapticMode::Toggle,
        haptic_steps: 3,
        step_names: vec![],
    });
    let mut expected = vec![0x5A, 2, 8, 0, 29, 1, 2, 1, 4, 5, 0xFF, 0xFF, 0, 0, 0, 127];
    expected.extend_from_slice(&[0; 13]);
    expected.extend_from_slice(&[70, 14, 71, 1, 3]);
    assert_eq!(packet, expected);
}

#[test]
fn responses_are_read_in_chunks() {
    let mut d = Device::new();
    assert_eq!(d.phase(), Phase::Header);
    assert_eq!(d.read_timeout_ms(), None);
    assert_eq!(d.handle(LinkEvent::Byte(0x5A)), Ok(()));
    assert_eq!(d.phase(), Phase::Notification);
    assert_eq!(d.read_timeout_ms(), Some(50));
    assert_eq!(d.handle(LinkEvent::Drained), Ok(()));
    assert_eq!(d.handle(LinkEvent::Byte(0xA5)), Ok(()));
    assert_eq!(d.phase(), Phase::Status);
    assert_eq!(d.handle(LinkEvent::Byte(0x00)), Ok(()));
    assert_eq!(d.phase(), Phase::Data);
    assert_eq!(d.read_timeout_ms(), Some(100));
    assert_eq!(d.handle(LinkEvent::Chunk(vec![1, 2])), Ok(()));
    assert_eq!(d.handle(LinkEvent::Chunk(vec![3])), Ok(()));
    assert_eq!(d.handle(LinkEvent::Quiet), Ok(()));
    assert_eq!(d.phase(), Phase::Done);
    assert_eq!(d.into_data(), vec![1, 2, 3]);
}

#[test]
fn bad_responses_are_refused() {
    let mut d = Device::new();
    assert_eq!(d.handle(LinkEvent::Byte(0x00)), Err(ProtocolError::UnexpectedHeader(0)));
    let mut d = Device::new();
    assert_eq!(d.handle(LinkEvent::Byte(0xA5)), Ok(()));
    assert_eq!(d.handle(LinkEvent::Byte(0x01)), Err(ProtocolError::DeviceStatus(1)));
    assert_eq!(d.phase(), Phase::Status);
    assert_eq!(d.handle(LinkEvent::Byte(0xFD)), Err(ProtocolError::DeviceStatus(0xFD)));
}

#[test]
fn what_was_not_waited_for_is_passed_over() {
    let mut d = Device::new();
    assert_eq!(d.handle(LinkEvent::Quiet), Ok(()));
    assert_eq!(d.handle(LinkEvent::Chunk(vec![1])), Ok(()));
    assert_eq!(d.phase(), Phase::Header);
    assert!(d.into_data().is_empty());
}

#[test]
fn versions_are_read() {
    let v = Device::read_version(b"\x01\x02\x03abc1234tail").unwrap();
    assert_eq!((v.major, v.minor, v.patch), (1, 2, 3));
    assert_eq!(v.commit, "abc1234");
    let v = Device::read_version(b"\x01\x02\x03ab\xFF\0\0\0\0").unwrap();
    assert_eq!(v.commit, "ab\u{FFFD}");
    match Device::read_version(&[1, 2, 3]) {
        Err(e) => assert_eq!(e, ProtocolError::VersionTooShort(3)),
        Ok(_) => panic!("too short"),
    }
}

#[test]
fn modes_are_read() {
    let m = Device::read_mode(&[1, 8, 0]).unwrap();
    assert_eq!(m.mode, Mode::Plugin);
    assert_eq!(m.first_control_index, 8);
    assert_eq!(Device::read_mode(&[1]).unwrap_err(), ProtocolError::ModeTooShort(1));
    assert_eq!(Device::read_mode(&[9, 0]).unwrap_err(), ProtocolError::UnknownMode(9));
}

#[test]
fn every_controller_is_told_apart() {
    let mut seen = Vec::new();
    for cc in 0..=127u8 {
        let event = midi::decode_message(&[0xB0, cc, 64]);
        assert_eq!(event.is_some(), (1..=96).contains(&cc));
        if let Some(e) = event {
            assert!(!seen.contains(&e));
            seen.push(e);
        }
    }
    assert_eq!(seen.len(), 96);
}

#[test]
fn sent_values_are_understood() {
    for index in 0..16usize {
        let v = 5;
        let pairs = [
            (midi::send_knob_value(index, v), DeviceEvent::KnobTurn { index, value: v }),
            (midi::send_button_value(index, v), DeviceEvent::ButtonPress { index, value: v }),
            (midi::send_discord_knob_value(index, v), DeviceEvent::DiscordKnobTurn { index, value: v }),
            (
                midi::send_discord_button_value(index, v),
                DeviceEvent::DiscordButtonPress { index, value: v },
            ),
            (midi::send_ts3_knob_value(index, v), DeviceEvent::Ts3KnobTurn { index, value: v }),
            (midi::send_ts3_button_value(index, v), DeviceEvent::Ts3ButtonPress { index, value: v }),
        ];
        for (message, event) in pairs {
            assert_eq!(midi::decode_message(&message.unwrap()), Some(event));
        }
    }
    assert_eq!(midi::send_knob_value(0, 127), Ok([0xB0, 1, 127]));
    assert_eq!(midi::send_ts3_button_value(15, 0), Ok([0xB0, 96, 0]));
}

#[test]
fn controls_beyond_the_last_are_refused() {
    let refused = |control| Err(OutOfRange { control, index: 16 });
    assert_eq!(midi::send_knob_value(16, 0), refused(Control::Knob));
    assert_eq!(midi::send_button_value(16, 0), refused(Control::Button));
    assert_eq!(midi::send_discord_knob_value(16, 0), refused(Control::DiscordKnob));
    assert_eq!(midi::send_discord_button_value(16, 0), refused(Control::DiscordButton));
    assert_eq!(midi::send_ts3_knob_value(16, 0), refused(Control::Ts3Knob));
    assert_eq!(midi::send_ts3_button_value(16, 0), refused(Control::Ts3Button));
}

#[test]
fn other_messages_are_passed_over() {
    assert_eq!(midi::decode_message(&[0xB1, 1, 0]), None);
    assert_eq!(midi::decode_message(&[0x90, 1, 0]), None);
    assert_eq!(midi::decode_message(&[0xB0, 1]), None);
    assert_eq!(midi::decode_message(&[0xB0, 1, 0, 0]), None);
}

#[test]
fn the_first_port_of_the_device_is_taken() {
    let names = vec![
        Some("Midi Through".to_string()),
        None,
        Some("Roto-Control MIDI 1".to_string()),
        Some("Roto-Control MIDI 2".to_string()),
    ];
    assert_eq!(midi::find_port(&names), Some(2));
    assert_eq!(midi::find_port(&vec![None, Some("roto-control".to_string())]), None);
}
