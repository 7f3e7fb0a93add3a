//! Configuration, PipeWire streams and what the surface shows of them.
use proto_control::config;
use proto_control::config::{
    Change, Config, DiscordConfig, StreamOverride, TeamSpeakConfig, UserOverride,
};
use proto_control::midi;
use proto_control::midi::{Control, DeviceEvent, OutOfRange};
use proto_control::pipewire;
use proto_control::pipewire::{AudioStream, Probe, PwNode, PwNodeInfo, PwNodeProps};
use proto_control::protocol::{Device, Mode};
use proto_control::surface;
use proto_control::surface::{Effect, Remembered};

fn text(s: &str) -> Option<String> {
    Some(s.to_string())
}

fn entry(binary: Option<&str>, app_id: Option<&str>, name: &str) -> StreamOverride {
    StreamOverride {
        binary: binary.map(String::from),
        app_id: app_id.map(String::from),
        name: name.to_string(),
        mpris_player: None,
        color: None,
        accent_color: None,
        ignored: false,
    }
}

fn user(name: &str, color: Option<u8>) -> UserOverride {
    UserOverride { name: name.to_string(), color, priority: None }
}

fn stream(id: u32, name: &str) -> AudioStream {
    AudioStream {
        id,
        binary: name.to_lowercase(),
        app_id: String::new(),
        raw_name: name.to_string(),
        app_name: name.to_string(),
        media_name: None,
        color_scheme: None,
        accent_color: None,
        ignored: false,
        volume: 64,
        muted: false,
    }
}

fn props(media_class: &str) -> PwNodeProps {
    PwNodeProps {
        media_class: text(media_class),
        application_name: None,
        node_name: None,
        process_binary: None,
        portal_app_id: None,
        media_name: None,
    }
}

fn node(id: u32, props: PwNodeProps) -> PwNode {
    PwNode { id, info: Some(PwNodeInfo { props: Some(props) }) }
}

// ---- configuration ----

#[test]
fn nothing_is_set_by_default() {
    let c = Config::default();
    assert!(c.streams.is_empty() && c.discord_users.is_empty() && c.teamspeak_users.is_empty());
    assert!(c.pipewire_enabled && c.discord.is_none() && c.teamspeak.is_none());
    assert!(config::default_true());
}

#[test]
fn entries_come_before_what_is_built_in() {
    let mut c = Config::default();
    let built_in = c.resolve(".Discord-wrapped", "", "WEBRTC");
    assert_eq!((built_in.name.as_str(), built_in.color), ("Discord", Some(62)));
    let mut e = entry(Some(".Discord-wrapped"), None, "Voice");
    e.color = Some(9);
    e.mpris_player = text("d");
    e.accent_color = Some(3);
    e.ignored = true;
    c.streams.push(entry(Some("other"), None, "Other"));
    c.streams.push(e);
    c.streams.push(entry(Some(".Discord-wrapped"), None, "Late"));
    let r = c.resolve(".Discord-wrapped", "", "WEBRTC");
    assert_eq!(r.name, "Voice");
    assert_eq!((r.color, r.accent_color, r.ignored), (Some(9), Some(3), true));
    assert_eq!(r.mpris_player, text("d"));
}

#[test]
fn unknown_streams_keep_what_they_came_with() {
    let c = Config::default();
    let r = c.resolve("zen", "", "Zen Browser");
    assert_eq!(r.name, "Zen Browser");
    assert!(r.color.is_none() && r.accent_color.is_none() && r.mpris_player.is_none() && !r.ignored);
}

#[test]
fn entries_fit_by_program_or_portal_name() {
    let mut c = Config::default();
    c.streams.push(entry(None, Some("org.app"), "App"));
    assert_eq!(c.resolve("x", "org.app", "y").name, "App");
    assert_eq!(c.resolve("org.app", "", "y").name, "y");
    c.streams.push(entry(Some(""), None, "Blank"));
    assert_eq!(c.resolve("", "", "y").name, "Blank");
}

#[test]
fn users_are_found_in_any_case() {
    let mut c = Config::default();
    c.discord_users.push(user("Alicent", Some(1)));
    c.discord_users.push(user("ALICE", Some(2)));
    c.teamspeak_users.push(user("Éva", Some(3)));
    assert_eq!(c.discord_user("alice").unwrap().color, Some(2));
    assert_eq!(c.ts3_user("éVA").unwrap().color, Some(3));
    assert!(c.ts3_user("alice").is_none());
    assert!(c.discord_user("bob").is_none());
}

#[test]
fn users_are_found_by_the_beginning_of_their_name() {
    let mut c = Config::default();
    c.discord_users.push(user("Bob", None));
    c.discord_users.push(user("Alicent", Some(1)));
    c.discord_users.push(user("Alice", Some(2)));
    assert_eq!(c.discord_user("ALI").unwrap().color, Some(1));
    assert_eq!(c.discord_user("alice").unwrap().color, Some(2));
    assert!(c.discord_user("Alice Cooper").is_none());
}

#[test]
fn names_are_looked_up_in_order() {
    let names: Vec<String> = ["ab", "a", "b"].iter().map(|s| s.to_string()).collect();
    assert_eq!(config::find_name(&names, "a"), Some(1));
    assert_eq!(config::find_name(&names, "ab"), Some(0));
    assert_eq!(config::find_name(&names, ""), Some(0));
    assert_eq!(config::find_name(&names, "c"), None);
}

#[test]
fn titles_are_asked_for_and_read() {
    assert_eq!(config::mpris_query("tidal-hifi"), vec!["-p", "tidal-hifi", "metadata", "title"]);
    assert_eq!(config::query_mpris_title(true, b"  Song \n"), text("Song"));
    assert_eq!(config::query_mpris_title(true, b" \n"), None);
    assert_eq!(config::query_mpris_title(false, b"Song"), None);
    assert_eq!(config::query_mpris_title(true, b"a\xFFb"), text("a\u{FFFD}b"));
    assert_eq!(config::track_title(" é "), text("é"));
    assert_eq!(config::track_title(""), None);
}

#[test]
fn integrations_follow_their_settings() {
    let discord = |id: &str, secret: &str, enabled| {
        Some(DiscordConfig {
            client_id: id.to_string(),
            client_secret: secret.to_string(),
            enabled,
        })
    };
    assert_eq!(config::discord_change(&None, &None), Change::Keep);
    assert_eq!(config::discord_change(&None, &discord("i", "s", false)), Change::Keep);
    assert_eq!(config::discord_change(&None, &discord("i", "s", true)), Change::Start);
    let on = discord("i", "s", true);
    assert_eq!(config::discord_change(&on, &discord("i", "s", true)), Change::Keep);
    assert_eq!(config::discord_change(&on, &discord("i", "t", true)), Change::Restart);
    assert_eq!(config::discord_change(&on, &discord("j", "s", true)), Change::Restart);
    assert_eq!(config::discord_change(&on, &discord("i", "s", false)), Change::Stop);
    assert_eq!(config::discord_change(&on, &None), Change::Stop);
    assert_eq!(config::discord_change(&discord("i", "s", false), &on), Change::Start);
    let socket = |path: &str, enabled| {
        Some(TeamSpeakConfig { socket_path: path.to_string(), enabled })
    };
    assert_eq!(config::teamspeak_change(&None, &socket("/a", true)), Change::Start);
    assert_eq!(config::teamspeak_change(&socket("/a", true), &socket("/b", true)), Change::Restart);
    assert_eq!(config::teamspeak_change(&socket("/a", true), &socket("/a", true)), Change::Keep);
    assert_eq!(config::teamspeak_change(&socket("/a", true), &None), Change::Stop);
    assert_eq!(config::teamspeak_change(&socket("/a", false), &None), Change::Keep);
}

// ---- streams ----

#[test]
fn only_audio_output_streams_are_listed() {
    let nodes = vec![
        PwNode { id: 1, info: None },
        PwNode { id: 2, info: Some(PwNodeInfo { props: None }) },
        node(3, PwNodeProps { media_class: None, ..props("") }),
        node(4, props("Stream/Input/Audio")),
        node(5, props("Stream/Output/Audio")),
        node(6, PwNodeProps { node_name: text("node"), ..props("Stream/Output/Audio") }),
        node(
            7,
            PwNodeProps {
                node_name: text("node"),
                application_name: text("An application"),
                process_binary: text("app"),
                portal_app_id: text("org.app"),
                media_name: text("m"),
                ..props("Stream/Output/Audio")
            },
        ),
    ];
    let r = pipewire::stream_candidates(&Config::default(), &nodes);
    let names: Vec<(u32, &str, &str)> =
        r.iter().map(|c| (c.id, c.raw_name.as_str(), c.app_name.as_str())).collect();
    assert_eq!(
        names,
        vec![
            (5, "Stream 5", "Stream 5"),
            (6, "node", "node"),
            (7, "An application", "An applicati"),
        ]
    );
    assert_eq!((r[2].binary.as_str(), r[2].app_id.as_str()), ("app", "org.app"));
    assert_eq!(r[2].media_name, text("m"));
    assert_eq!((r[0].binary.as_str(), r[0].app_id.as_str()), ("", ""));
}

#[test]
fn the_configuration_names_streams() {
    let mut c = Config::default();
    let mut e = entry(Some("zen"), None, "Zen");
    e.color = Some(9);
    e.accent_color = Some(1);
    e.ignored = true;
    e.mpris_player = text("zen");
    c.streams.push(e);
    let nodes = vec![node(
        1,
        PwNodeProps {
            application_name: text("Zen Browser"),
            process_binary: text("zen"),
            ..props("Stream/Output/Audio")
        },
    )];
    let r = pipewire::stream_candidates(&c, &nodes);
    assert_eq!((r[0].raw_name.as_str(), r[0].app_name.as_str()), ("Zen Browser", "Zen"));
    assert_eq!((r[0].color_scheme, r[0].accent_color, r[0].ignored), (Some(9), Some(1), true));
    assert_eq!(r[0].mpris_player, text("zen"));
}

#[test]
fn truncation_counts_characters() {
    assert_eq!(pipewire::truncate_to_chars("ééé", 2), "éé");
    assert_eq!(pipewire::truncate_to_chars("ab", 2), "ab");
    assert_eq!(pipewire::truncate_to_chars("", 0), "");
    assert_eq!(pipewire::truncate_to_chars("abc", 0), "");
}

#[test]
fn generic_media_names_are_told() {
    assert!(pipewire::is_generic_media_name("Audio Playback", "Zen"));
    assert!(pipewire::is_generic_media_name("PLAYSTREAM", "Zen"));
    assert!(pipewire::is_generic_media_name("my dummy", "Zen"));
    assert!(pipewire::is_generic_media_name("ÉCLAIR", "éclair"));
    assert!(pipewire::is_generic_media_name(" \t", "Zen"));
    assert!(pipewire::is_generic_media_name("", "Zen"));
    assert!(!pipewire::is_generic_media_name("A song", "Zen"));
    assert!(pipewire::looks_generic("playback", "zen", "PLAYBACK"));
    assert!(!pipewire::looks_generic("PLAYBACK", "zen", "PLAYBACK"));
}

fn titled(mpris: Option<&str>, media: Option<&str>, title: Option<&str>) -> Option<String> {
    let mut c = Config::default();
    let mut e = entry(Some("p"), None, "Player");
    e.mpris_player = mpris.map(String::from);
    c.streams.push(e);
    let nodes = vec![node(
        1,
        PwNodeProps {
            process_binary: text("p"),
            media_name: media.map(String::from),
            ..props("Stream/Output/Audio")
        },
    )];
    let candidates = pipewire::stream_candidates(&c, &nodes);
    let probes = vec![Probe { title: title.map(String::from), volume: 100, muted: true }];
    let r = pipewire::list_streams(&candidates, &probes);
    assert_eq!((r[0].volume, r[0].muted), (100, true));
    r[0].media_name.clone()
}

#[test]
fn the_player_is_asked_first() {
    assert_eq!(titled(Some("p"), Some("media"), Some("A very long title")), text("A very long "));
    assert_eq!(titled(Some("p"), Some("media"), None), text("media"));
    assert_eq!(titled(None, Some("a medium name here"), Some("title")), text("a medium nam"));
    assert_eq!(titled(Some("p"), Some("playback"), None), None);
    assert_eq!(titled(None, Some("PLAYER"), None), None);
    assert_eq!(titled(None, None, None), None);
}

#[test]
fn volume_is_asked_for_and_read() {
    assert_eq!(pipewire::volume_query(42), vec!["get-volume", "42"]);
    let r = pipewire::get_volume_and_mute(b"Volume: 0.45 [MUTED]\n");
    assert_eq!((r.volume, r.muted), (text("0.45"), true));
    let r = pipewire::get_volume_and_mute(b"Volume: 1.00\n");
    assert_eq!((r.volume, r.muted), (text("1.00"), false));
    let r = pipewire::read_volume("");
    assert_eq!((r.volume, r.muted), (None, false));
    assert!(pipewire::is_muted(b"Volume: 0.00 [MUTED]"));
    assert!(!pipewire::is_muted(b"Volume: 0.00"));
    assert!(!pipewire::is_muted(b"\xFF"));
}

#[test]
fn volume_is_set_in_hundredths() {
    for v in 0..=255u8 {
        let share = (v as f64 / 127.0).clamp(0.0, 1.0);
        assert_eq!(
            pipewire::set_volume(7, v),
            vec!["set-volume".to_string(), "7".to_string(), format!("{:.2}", share)]
        );
    }
    assert_eq!(pipewire::toggle_mute(7), vec!["set-mute", "7", "toggle"]);
}

// ---- colors and controls ----

fn hash_color(name: &str) -> u8 {
    let hash = name.bytes().fold(0u32, |h, b| h.wrapping_mul(31).wrapping_add(b as u32));
    [0, 1, 3, 5, 7, 9, 11, 14][hash as usize % 8]
}

#[test]
fn colors_follow_the_name() {
    for name in ["", "a", "Zen", "Discord", "Firefox", "Spotify", "A long name!", "ünï"] {
        assert_eq!(surface::pick_color(&stream(1, name)), hash_color(name), "{}", name);
        assert_eq!(surface::pick_color(&stream(2, name)), hash_color(name));
    }
    assert_eq!(surface::pick_color(&stream(1, "a")), 1);
    let mut s = stream(1, "Zen");
    s.color_scheme = Some(62);
    assert_eq!(surface::pick_color(&s), 62);
}

#[test]
fn users_without_a_color_get_one_after_the_name() {
    let mut c = Config::default();
    c.discord_users.push(user("Ann", Some(11)));
    c.discord_users.push(user("Bob", None));
    assert_eq!(surface::user_color(c.discord_user("ann"), "ann"), 11);
    assert_eq!(surface::user_color(c.discord_user("Bob"), "Bob"), hash_color("Bob"));
    assert_eq!(surface::user_color(c.discord_user("Eve"), "Eve"), hash_color("Eve"));
    assert_eq!(surface::name_color("Eve"), hash_color("Eve"));
}

#[test]
fn knobs_show_the_name() {
    let mut s = stream(1, "Zen");
    s.color_scheme = Some(9);
    let k = surface::make_knob_config(3, &s);
    assert_eq!((k.control_index, k.control_param, k.control_channel), (3, 4, 0));
    assert_eq!((k.min_value, k.max_value, k.nrpn_address), (0, 127, 0));
    assert_eq!((k.control_name.as_str(), k.color_scheme), ("Zen", 9));
    assert_eq!((k.haptic_indent1, k.haptic_indent2, k.haptic_steps), (0xFF, 0xFF, 0));
    assert_eq!(k.step_names, vec![String::new(); 16]);
    assert_eq!(surface::make_button_config(3, &s).step_names, vec![String::new(); 16]);
    assert_eq!(Device::send_midi_knob_config(&k).len(), 242);
}

#[test]
fn buttons_show_the_title() {
    let mut s = stream(1, "Zen");
    s.color_scheme = Some(9);
    let b = surface::make_button_config(3, &s);
    assert_eq!((b.control_index, b.control_param), (3, 20));
    assert_eq!((b.control_name.as_str(), b.color_scheme), ("", 70));
    assert_eq!((b.led_on_color, b.led_off_color, b.nrpn_address), (14, 70, 0xFFFF));
    assert_eq!(Device::send_midi_button_config(&b).len(), 242);
    s.media_name = text("Song");
    let b = surface::make_button_config(3, &s);
    assert_eq!((b.control_name.as_str(), b.color_scheme), ("Song", 9));
    s.accent_color = Some(3);
    assert_eq!(surface::make_button_config(3, &s).color_scheme, 3);
    s.media_name = None;
    assert_eq!(surface::make_button_config(3, &s).color_scheme, 70);
}

fn knob(i: usize, s: &AudioStream) -> Vec<u8> {
    Device::send_midi_knob_config(&surface::make_knob_config(i, s))
}

fn button(i: usize, s: &AudioStream) -> Vec<u8> {
    Device::send_midi_button_config(&surface::make_button_config(i, s))
}

#[test]
fn a_session_begins_with_the_mode_and_the_name() {
    let packets = surface::setup_packets();
    assert_eq!(packets.len(), 4);
    assert_eq!(packets[0], Device::set_mode(Mode::Midi, 0));
    assert_eq!(packets[1..].to_vec(), Device::set_setup_name(0, "Rotool"));
}

#[test]
fn the_whole_surface_is_set_in_one_transaction() {
    let streams = vec![stream(1, "Zen"), stream(2, "Tidal")];
    let mut expected = vec![Device::start_config_update()];
    for (i, s) in streams.iter().enumerate() {
        expected.push(knob(i, s));
        expected.push(button(i, s));
    }
    for i in 2..8 {
        expected.push(Device::send_clear_knob(0, i));
        expected.push(Device::send_clear_button(0, i));
    }
    expected.push(Device::end_config_update());
    assert_eq!(surface::apply_stream_config(&streams), expected);
    assert_eq!(surface::apply_stream_config(&vec![]), Device::clear_all());
}

#[test]
fn more_streams_than_places_leave_nothing_to_clear() {
    let streams: Vec<AudioStream> = (0..9).map(|i| stream(i, "x")).collect();
    assert_eq!(surface::apply_stream_config(&streams).len(), 2 + 18);
}

#[test]
fn knobs_and_lights_follow_the_streams() {
    let mut streams = vec![stream(1, "Zen"), stream(2, "Tidal")];
    streams[0].volume = 200;
    streams[1].muted = true;
    assert_eq!(
        surface::sync_midi_state(&streams).unwrap(),
        vec![[0xB0, 1, 127], [0xB0, 17, 0], [0xB0, 2, 64], [0xB0, 18, 127]]
    );
    let many: Vec<AudioStream> = (0..17).map(|i| stream(i, "x")).collect();
    assert_eq!(
        surface::sync_midi_state(&many).unwrap_err(),
        OutOfRange { control: Control::Knob, index: 16 }
    );
}

// ---- places ----

#[test]
fn the_first_eight_streams_have_places() {
    let mut streams: Vec<AudioStream> = (0..12).map(|i| stream(i, "x")).collect();
    streams[1].ignored = true;
    streams[5].ignored = true;
    let config = Config::default();
    let ids: Vec<u32> =
        surface::assign_streams(&config, &streams).iter().map(|s| s.id).collect();
    assert_eq!(ids, vec![0, 2, 3, 4, 6, 7, 8, 9]);
    let mut off = Config::default();
    off.pipewire_enabled = false;
    assert!(surface::assign_streams(&off, &streams).is_empty());
    assert!(surface::nothing_to_assign(&config, &vec![]));
    assert!(!surface::nothing_to_assign(&off, &vec![]));
    assert!(!surface::nothing_to_assign(&config, &streams));
}

// ---- events ----

#[test]
fn knobs_set_the_volume_of_their_stream() {
    let mut streams = vec![stream(10, "a"), stream(20, "b")];
    let effect = surface::handle_event(&mut streams, DeviceEvent::KnobTurn { index: 1, value: 90 });
    assert_eq!(effect, Some(Effect::SetVolume { id: 20, volume: 90 }));
    assert_eq!((streams[0].volume, streams[1].volume), (64, 90));
    let again = surface::handle_event(&mut streams, DeviceEvent::KnobTurn { index: 1, value: 90 });
    assert_eq!(again, Some(Effect::SetVolume { id: 20, volume: 90 }));
}

#[test]
fn buttons_mute_their_stream_and_back() {
    let mut streams = vec![stream(10, "a"), stream(20, "b")];
    let down = DeviceEvent::ButtonPress { index: 0, value: 127 };
    let up = DeviceEvent::ButtonPress { index: 0, value: 0 };
    assert_eq!(surface::handle_event(&mut streams, up), None);
    assert_eq!(surface::handle_event(&mut streams, down), Some(Effect::ToggleMute { id: 10 }));
    assert!(streams[0].muted && !streams[1].muted);
    assert_eq!(surface::handle_event(&mut streams, down), None);
    assert_eq!(surface::handle_event(&mut streams, up), Some(Effect::ToggleMute { id: 10 }));
    assert!(!streams[0].muted);
}

#[test]
fn other_controls_do_nothing() {
    let mut streams = vec![stream(10, "a")];
    for event in [
        DeviceEvent::KnobTurn { index: 1, value: 1 },
        DeviceEvent::ButtonPress { index: 15, value: 127 },
        DeviceEvent::DiscordKnobTurn { index: 0, value: 1 },
        DeviceEvent::DiscordButtonPress { index: 0, value: 127 },
        DeviceEvent::Ts3KnobTurn { index: 0, value: 1 },
        DeviceEvent::Ts3ButtonPress { index: 0, value: 127 },
    ] {
        assert_eq!(surface::handle_event(&mut streams, event), None);
    }
    assert_eq!((streams[0].volume, streams[0].muted), (64, false));
}

#[test]
fn what_comes_back_from_the_device_changes_nothing() {
    let mut streams = vec![stream(10, "a"), stream(20, "b")];
    streams[1].muted = true;
    for message in surface::sync_midi_state(&streams).unwrap() {
        let event = midi::decode_message(&message).unwrap();
        let effect = surface::handle_event(&mut streams, event);
        assert!(!matches!(effect, Some(Effect::ToggleMute { .. })));
    }
    assert_eq!((streams[0].volume, streams[0].muted), (64, false));
    assert_eq!((streams[1].volume, streams[1].muted), (64, true));
}

// ---- rescans ----

#[test]
fn other_streams_set_the_surface_anew() {
    let config = Config::default();
    let assigned = vec![stream(1, "a")];
    let fresh = vec![stream(2, "b"), stream(1, "a")];
    let r = surface::rescan_streams(&config, &vec![], &assigned, &fresh);
    assert_eq!(r.packets, surface::apply_stream_config(&fresh));
    assert_eq!(r.messages, surface::sync_midi_state(&fresh).unwrap());
    assert_eq!(r.assigned.iter().map(|s| s.id).collect::<Vec<_>>(), vec![2, 1]);
    let gone = surface::rescan_streams(&config, &vec![], &assigned, &vec![]);
    assert_eq!(gone.packets, Device::clear_all());
    assert!(gone.assigned.is_empty() && gone.messages.is_empty());
}

#[test]
fn the_same_streams_give_nothing_to_do() {
    let config = Config::default();
    let assigned = vec![stream(1, "a"), stream(2, "b")];
    let mut fresh = vec![stream(1, "a"), stream(2, "b")];
    fresh[0].volume = 1;
    fresh[1].muted = true;
    let r = surface::rescan_streams(&config, &vec![], &assigned, &fresh);
    assert!(r.packets.is_empty() && r.messages.is_empty());
    assert_eq!((r.assigned[0].volume, r.assigned[1].muted), (64, false));
}

#[test]
fn a_new_title_tells_its_button_only() {
    let config = Config::default();
    let assigned = vec![stream(1, "a"), stream(2, "b")];
    let mut fresh = vec![stream(1, "a"), stream(2, "b")];
    fresh[1].media_name = text("Song");
    let r = surface::rescan_streams(&config, &vec![], &assigned, &fresh);
    assert_eq!(
        r.packets,
        vec![Device::start_config_update(), button(1, &fresh[1]), Device::end_config_update()]
    );
    assert!(r.messages.is_empty());
    assert_eq!(r.assigned[1].media_name, text("Song"));
    let again = surface::rescan_streams(&config, &vec![], &r.assigned, &fresh);
    assert!(again.packets.is_empty());
}

#[test]
fn new_names_and_colors_are_shown() {
    let config = Config::default();
    let assigned = vec![stream(1, "a"), stream(2, "b"), stream(3, "c")];
    let mut fresh = vec![stream(1, "a"), stream(2, "b"), stream(3, "c")];
    fresh[0].app_name = "A".to_string();
    fresh[1].color_scheme = Some(62);
    fresh[2].accent_color = Some(62);
    let r = surface::rescan_streams(&config, &vec![], &assigned, &fresh);
    assert_eq!(
        r.packets,
        vec![
            Device::start_config_update(),
            knob(0, &fresh[0]),
            knob(1, &fresh[1]),
            Device::end_config_update(),
        ]
    );
    let mut titled = fresh.clone();
    titled[2].media_name = text("t");
    let r = surface::rescan_streams(&config, &vec![], &r.assigned, &titled);
    assert_eq!(
        r.packets,
        vec![Device::start_config_update(), button(2, &titled[2]), Device::end_config_update()]
    );
}

#[test]
fn hiding_a_stream_takes_its_place_away() {
    let config = Config::default();
    let assigned = vec![stream(1, "a"), stream(2, "b")];
    let mut fresh = vec![stream(1, "a"), stream(2, "b")];
    fresh[0].ignored = true;
    let r = surface::rescan_streams(&config, &vec![], &assigned, &fresh);
    assert_eq!(r.assigned.len(), 1);
    assert_eq!(r.packets[1], knob(0, &fresh[1]));
    let mut off = Config::default();
    off.pipewire_enabled = false;
    assert_eq!(surface::rescan_streams(&off, &vec![], &assigned, &fresh).packets, Device::clear_all());
}

// ---- remembered volumes ----

#[test]
fn a_stream_that_starts_again_gets_its_volume_back() {
    let config = Config::default();
    let mut memory: Vec<Remembered> = Vec::new();
    let mut assigned = vec![stream(1, "Zen"), stream(2, "Tidal")];
    let turn = DeviceEvent::KnobTurn { index: 0, value: 90 };
    surface::remember(&mut memory, &assigned, turn);
    surface::handle_event(&mut assigned, turn);
    let gone = surface::rescan_streams(&config, &memory, &assigned, &vec![stream(2, "Tidal")]);
    assert!(gone.effects.is_empty());
    let back = vec![stream(2, "Tidal"), stream(7, "Zen"), stream(8, "Other")];
    let r = surface::rescan_streams(&config, &memory, &gone.assigned, &back);
    assert_eq!(r.effects, vec![Effect::SetVolume { id: 7, volume: 90 }]);
    assert_eq!(r.assigned.iter().map(|s| s.volume).collect::<Vec<_>>(), vec![64, 90, 64]);
    assert_eq!(r.messages[2], [0xB0, 2, 90]);
    assert_eq!(r.messages[4], [0xB0, 3, 64]);
    assert_eq!(r.packets, surface::apply_stream_config(&back));
    let again = surface::rescan_streams(&config, &memory, &r.assigned, &back);
    assert!(again.effects.is_empty() && again.messages.is_empty() && again.packets.is_empty());
}

#[test]
fn streams_that_were_there_keep_what_is_listed() {
    let config = Config::default();
    let mut memory: Vec<Remembered> = Vec::new();
    let assigned = vec![stream(1, "Zen")];
    surface::remember(&mut memory, &assigned, DeviceEvent::KnobTurn { index: 0, value: 90 });
    let fresh = vec![stream(1, "Zen"), stream(2, "Tidal")];
    let r = surface::rescan_streams(&config, &memory, &assigned, &fresh);
    assert!(r.effects.is_empty());
    assert_eq!((r.assigned[0].volume, r.assigned[1].volume), (64, 64));
}

#[test]
fn the_last_volume_of_an_application_is_remembered() {
    let mut memory: Vec<Remembered> = Vec::new();
    let mut portal = stream(2, "P");
    portal.binary = String::new();
    portal.app_id = "org.p".to_string();
    let mut bare = stream(3, "Bare");
    bare.binary = String::new();
    let assigned = vec![stream(1, "Zen"), portal, bare];
    for (index, value) in [(0, 10), (1, 20), (2, 30), (0, 40), (9, 50)] {
        surface::remember(&mut memory, &assigned, DeviceEvent::KnobTurn { index, value });
    }
    surface::remember(&mut memory, &assigned, DeviceEvent::ButtonPress { index: 0, value: 127 });
    surface::remember(&mut memory, &assigned, DeviceEvent::Ts3KnobTurn { index: 0, value: 1 });
    assert_eq!(memory.len(), 3);
    assert_eq!(surface::recall(&memory, "zen"), Some(40));
    assert_eq!(surface::recall(&memory, "org.p"), Some(20));
    assert_eq!(surface::recall(&memory, "Bare"), Some(30));
    assert_eq!(surface::recall(&memory, "other"), None);
}
