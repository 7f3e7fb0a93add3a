//! The settings window and the tray icon.
use proto_control::config::{
    Config, DiscordConfig, StreamOverride, TeamSpeakConfig, UserOverride,
};
use proto_control::pipewire::AudioStream;
use proto_control::settings;
use proto_control::settings::{App, Message, Request, Tab, UserRow};
use proto_control::tray;

fn stream(binary: &str, app_id: &str, name: &str) -> AudioStream {
    AudioStream {
        id: 1,
        binary: binary.to_string(),
        app_id: app_id.to_string(),
        raw_name: name.to_string(),
        app_name: name.to_string(),
        media_name: None,
        color_scheme: None,
        accent_color: None,
        ignored: false,
        volume: 0,
        muted: false,
    }
}

fn entry(binary: Option<&str>, app_id: Option<&str>, name: &str) -> StreamOverride {
    StreamOverride {
        binary: binary.map(String::from),
        app_id: app_id.map(String::from),
        name: name.to_string(),
        mpris_player: None,
        color: None,
        accent_color: None,
        ignored: false,
    }
}

fn user(name: &str, color: Option<u8>, priority: Option<i32>) -> UserOverride {
    UserOverride { name: name.to_string(), color, priority }
}

fn window(config: Config, streams: Vec<AudioStream>) -> App {
    App::init(config, &streams, vec!["Ann".to_string(), "Bob".to_string()], vec!["Cid".to_string()])
}

#[test]
fn the_palette_is_drawn() {
    let entries = settings::palette_entries();
    assert_eq!(entries.len(), 9);
    assert_eq!(entries[0], (None, (0x50, 0x50, 0x50)));
    assert_eq!(entries[8], (Some(14), (0xFF, 0x36, 0x36)));
    for (color, rgb) in entries {
        assert_eq!(settings::palette_color(color), rgb);
    }
    assert_eq!(settings::palette_color(Some(62)), (0x50, 0x50, 0x50));
}

#[test]
fn the_window_opens_on_the_streams() {
    let mut c = Config::default();
    c.discord_users.push(user("Ann", Some(3), Some(-5)));
    c.teamspeak_users.push(user("Cid", None, None));
    let app = window(c, vec![stream("zen", "", "Zen Browser")]);
    assert_eq!(app.tab, Tab::PipeWire);
    assert_eq!(app.streams.len(), 1);
    assert_eq!(app.discord_users[0].name_input, "Ann");
    assert_eq!(app.discord_users[0].priority_input, "-5");
    assert_eq!(app.ts3_users[0].priority_input, "");
    assert_eq!(app.discord_active, vec!["Ann", "Bob"]);
    assert_eq!(app.ts3_active, vec!["Cid"]);
    assert!(app.discord_add_sel.is_none() && app.ts3_add_sel.is_none() && app.status.is_empty());
}

#[test]
fn every_key_has_one_row() {
    let mut c = Config::default();
    let mut zen = entry(Some("zen"), None, "Zen");
    zen.color = Some(9);
    zen.mpris_player = Some("zenplayer".to_string());
    c.streams.push(zen);
    let mut portal = entry(None, Some("org.app"), "App");
    portal.accent_color = Some(1);
    c.streams.push(portal);
    c.streams.push(entry(Some("offline"), Some("org.off"), "Off"));
    c.streams.push(entry(None, None, "nobody"));
    let mut live = stream("zen", "", "Zen Browser");
    live.media_name = Some("Song".to_string());
    let streams = vec![
        live,
        stream("zen", "", "second"),
        stream("", "org.app", "raw"),
        stream("", "", "unknown"),
        stream("plain", "", "Plain"),
    ];
    let rows = settings::build_stream_rows(&c, &streams);
    let keys: Vec<String> = rows.iter().map(settings::row_key).collect();
    assert_eq!(keys, vec!["zen", "org.app", "plain", "offline"]);
    assert_eq!((rows[0].name_input.as_str(), rows[0].raw_name.as_str()), ("Zen", "Zen Browser"));
    assert_eq!((rows[0].color, rows[0].is_live, rows[0].has_media_name), (Some(9), true, true));
    assert_eq!((rows[0].use_mpris, rows[0].mpris_player.as_deref()), (true, Some("zenplayer")));
    assert_eq!((rows[1].name_input.as_str(), rows[1].accent_color), ("App", Some(1)));
    assert_eq!((rows[2].name_input.as_str(), rows[2].use_mpris), ("Plain", false));
    assert_eq!((rows[3].is_live, rows[3].app_id.as_str(), rows[3].raw_name.as_str()), (false, "org.off", "Off"));
    assert!(settings::shows_accent(&rows[0]));
    assert!(settings::shows_accent(&rows[1]));
    assert!(!settings::shows_accent(&rows[2]));
}

#[test]
fn rows_of_streams_are_edited() {
    let mut app = window(Config::default(), vec![stream("a", "", "A"), stream("b", "", "B")]);
    assert_eq!(app.update(Message::StreamNameChanged(1, "New".to_string())), None);
    assert_eq!(app.update(Message::StreamColorSelected(1, Some(5))), None);
    assert_eq!(app.update(Message::StreamAccentColorSelected(1, Some(7))), None);
    assert_eq!(app.update(Message::StreamIgnoreToggled(1, true)), None);
    assert_eq!(app.update(Message::StreamMprisToggled(1, true)), None);
    let r = &app.streams[1];
    assert_eq!((r.name_input.as_str(), r.color, r.accent_color), ("New", Some(5), Some(7)));
    assert!(r.ignored && r.use_mpris);
    assert_eq!(app.streams[0].name_input, "A");
    assert_eq!(app.update(Message::RemoveStream(0)), None);
    assert_eq!(app.streams.len(), 1);
    assert_eq!(app.streams[0].binary, "b");
}

#[test]
fn rows_that_are_not_there_change_nothing() {
    let mut app = window(Config::default(), vec![stream("a", "", "A")]);
    app.update(Message::StreamNameChanged(1, "x".to_string()));
    app.update(Message::StreamColorSelected(9, Some(1)));
    app.update(Message::RemoveStream(1));
    app.update(Message::RemoveDiscordUser(0));
    app.update(Message::Ts3UserColorSelected(0, Some(1)));
    assert_eq!(app.streams.len(), 1);
    assert_eq!((app.streams[0].name_input.as_str(), app.streams[0].color), ("A", None));
    assert!(app.discord_users.is_empty() && app.ts3_users.is_empty());
}

#[test]
fn users_are_edited() {
    let mut app = window(Config::default(), vec![]);
    app.update(Message::TabSelected(Tab::Discord));
    assert_eq!(app.tab, Tab::Discord);
    app.update(Message::AddDiscordUser);
    app.update(Message::DiscordUserNameChanged(0, "Eve".to_string()));
    app.update(Message::DiscordUserColorSelected(0, Some(11)));
    app.update(Message::DiscordUserPriorityChanged(0, "2".to_string()));
    app.update(Message::AddTs3User);
    app.update(Message::Ts3UserNameChanged(0, "Tom".to_string()));
    app.update(Message::Ts3UserColorSelected(0, Some(1)));
    app.update(Message::Ts3UserPriorityChanged(0, "x".to_string()));
    let d = &app.discord_users[0];
    assert_eq!((d.name_input.as_str(), d.color, d.priority_input.as_str()), ("Eve", Some(11), "2"));
    let t = &app.ts3_users[0];
    assert_eq!((t.name_input.as_str(), t.color, t.priority_input.as_str()), ("Tom", Some(1), "x"));
    app.update(Message::RemoveDiscordUser(0));
    app.update(Message::RemoveTs3User(0));
    assert!(app.discord_users.is_empty() && app.ts3_users.is_empty());
}

#[test]
fn active_members_are_added_once() {
    let mut app = window(Config::default(), vec![]);
    assert_eq!(settings::available(&app.discord_active, &app.discord_users), vec!["Ann", "Bob"]);
    app.update(Message::AddDiscordUserFromActive);
    assert!(app.discord_users.is_empty());
    app.update(Message::DiscordActiveUserSelected("Bob".to_string()));
    app.update(Message::AddDiscordUserFromActive);
    assert!(app.discord_add_sel.is_none());
    assert_eq!(settings::available(&app.discord_active, &app.discord_users), vec!["Ann"]);
    app.update(Message::DiscordActiveUserSelected("Bob".to_string()));
    app.update(Message::AddDiscordUserFromActive);
    assert_eq!(app.discord_users.len(), 1);
    app.update(Message::Ts3ActiveUserSelected("Cid".to_string()));
    app.update(Message::AddTs3UserFromActive);
    assert_eq!(app.ts3_users[0].name_input, "Cid");
    assert!(settings::available(&app.ts3_active, &app.ts3_users).is_empty());
}

#[test]
fn switching_keeps_what_is_set() {
    let mut c = Config::default();
    c.discord = Some(DiscordConfig {
        client_id: "id".to_string(),
        client_secret: "secret".to_string(),
        enabled: true,
    });
    c.teamspeak = Some(TeamSpeakConfig { socket_path: "/s".to_string(), enabled: true });
    let mut app = window(c, vec![]);
    app.update(Message::SetDiscordEnabled(false));
    app.update(Message::SetTeamspeakEnabled(false));
    app.update(Message::SetPipewireEnabled(false));
    let d = app.config.discord.as_ref().unwrap();
    assert_eq!((d.client_id.as_str(), d.client_secret.as_str(), d.enabled), ("id", "secret", false));
    let t = app.config.teamspeak.as_ref().unwrap();
    assert_eq!((t.socket_path.as_str(), t.enabled), ("/s", false));
    assert!(!app.config.pipewire_enabled);
    let mut bare = window(Config::default(), vec![]);
    bare.update(Message::SetDiscordEnabled(true));
    bare.update(Message::SetTeamspeakEnabled(true));
    assert!(bare.config.discord.is_none() && bare.config.teamspeak.is_none());
}

#[test]
fn saving_takes_over_what_says_anything() {
    let mut app = window(
        Config::default(),
        vec![stream("a", "org.a", "A"), stream("b", "", "B"), stream("", "org.c", "C")],
    );
    app.update(Message::StreamNameChanged(0, "Renamed".to_string()));
    app.update(Message::StreamMprisToggled(2, true));
    app.update(Message::AddDiscordUser);
    app.update(Message::DiscordUserNameChanged(0, "  Eve ".to_string()));
    app.update(Message::DiscordUserPriorityChanged(0, "7".to_string()));
    app.update(Message::AddDiscordUser);
    app.update(Message::DiscordUserNameChanged(1, " \t".to_string()));
    app.update(Message::AddTs3User);
    app.update(Message::Ts3UserNameChanged(0, "Tom".to_string()));
    app.update(Message::Ts3UserPriorityChanged(0, "seven".to_string()));
    assert_eq!(app.update(Message::Save), Some(Request::Save));
    let s = &app.config.streams;
    assert_eq!(s.len(), 2);
    assert_eq!((s[0].binary.as_deref(), s[0].app_id.as_deref()), (Some("a"), Some("org.a")));
    assert_eq!((s[0].name.as_str(), s[0].mpris_player.as_deref()), ("Renamed", None));
    assert_eq!((s[1].binary.as_deref(), s[1].app_id.as_deref()), (None, Some("org.c")));
    assert_eq!(s[1].mpris_player.as_deref(), Some(""));
    let d = &app.config.discord_users;
    assert_eq!(d.len(), 1);
    assert_eq!((d[0].name.as_str(), d[0].priority), ("Eve", Some(7)));
    assert_eq!(app.config.teamspeak_users[0].priority, None);
    app.saved(Ok(()));
    assert_eq!(app.status, "Saved! Changes apply within ~1 second.");
    app.saved(Err("disk full".to_string()));
    assert_eq!(app.status, "Save error: disk full");
}

#[test]
fn opening_and_saving_keeps_entries() {
    let mut c = Config::default();
    let mut e = entry(Some("gone"), Some("org.gone"), "Gone");
    e.color = Some(3);
    e.accent_color = Some(5);
    e.ignored = true;
    e.mpris_player = Some("gp".to_string());
    c.streams.push(e);
    c.discord_users.push(user("Ann", Some(3), Some(-5)));
    c.teamspeak_users.push(user("Cid", None, None));
    let mut app = window(c, vec![]);
    app.update(Message::Save);
    let s = &app.config.streams[0];
    assert_eq!((s.binary.as_deref(), s.app_id.as_deref()), (Some("gone"), Some("org.gone")));
    assert_eq!((s.name.as_str(), s.color, s.accent_color), ("Gone", Some(3), Some(5)));
    assert_eq!((s.ignored, s.mpris_player.as_deref()), (true, Some("gp")));
    let d = &app.config.discord_users[0];
    assert_eq!((d.name.as_str(), d.color, d.priority), ("Ann", Some(3), Some(-5)));
    assert_eq!(app.config.teamspeak_users[0].name, "Cid");
}

#[test]
fn refreshing_looks_again() {
    let mut app = window(Config::default(), vec![stream("a", "", "A")]);
    app.saved(Ok(()));
    assert_eq!(app.update(Message::Refresh), Some(Request::Refresh));
    app.refreshed(&vec![stream("b", "", "B")], vec!["Zoe".to_string()], vec![]);
    assert_eq!(app.streams[0].binary, "b");
    assert_eq!(app.discord_active, vec!["Zoe"]);
    assert!(app.ts3_active.is_empty() && app.status.is_empty());
}

#[test]
fn empty_rows_hold_nothing() {
    let r = UserRow::empty();
    assert!(r.name_input.is_empty() && r.color.is_none() && r.priority_input.is_empty());
    let r = UserRow::from_override(&user("x", Some(1), Some(i32::MIN)));
    assert_eq!(r.priority_input, "-2147483648");
}

#[test]
fn member_lists_are_read() {
    assert_eq!(settings::read_member_state("[\"Ann\", \"B\\u00e9a\"]"), vec!["Ann", "Béa"]);
    assert!(settings::read_member_state("[]").is_empty());
    assert!(settings::read_member_state("[\"Ann\", 1]").is_empty());
    assert!(settings::read_member_state("{\"0\": \"Ann\"}").is_empty());
    assert!(settings::read_member_state("[\"Ann\"").is_empty());
    assert!(settings::read_member_state("").is_empty());
    let many: Vec<String> = (0..25).map(|i| format!("\"u{}\"", i)).collect();
    let names = settings::read_member_state(&format!("[{}]", many.join(",")));
    assert_eq!(names.len(), 25);
    assert_eq!((names[2].as_str(), names[20].as_str()), ("u2", "u20"));
    let value: serde_json::Value = serde_json::from_str("[\"x\"]").unwrap();
    assert_eq!(settings::names_in(&value), vec!["x"]);
}

// ---- the tray icon ----

fn encoded(width: u32, height: u32, color: png::ColorType, data: &[u8]) -> Vec<u8> {
    let mut out = Vec::new();
    {
        let mut encoder = png::Encoder::new(&mut out, width, height);
        encoder.set_color(color);
        encoder.set_depth(png::BitDepth::Eight);
        let mut writer = encoder.write_header().unwrap();
        writer.write_image_data(data).unwrap();
    }
    out
}

#[test]
fn icons_have_alpha_first() {
    let rgba = [1, 2, 3, 4, 5, 6, 7, 8];
    let icon = tray::decode_png_to_argb32(&encoded(2, 1, png::ColorType::Rgba, &rgba)).unwrap();
    assert_eq!((icon.width, icon.height), (2, 1));
    assert_eq!(icon.data, vec![4, 1, 2, 3, 8, 5, 6, 7]);
}

#[test]
fn bytes_beyond_the_last_whole_pixel_are_dropped() {
    let rgb = [1, 2, 3, 4, 5, 6];
    let icon = tray::decode_png_to_argb32(&encoded(1, 2, png::ColorType::Rgb, &rgb)).unwrap();
    assert_eq!((icon.width, icon.height), (1, 2));
    assert_eq!(icon.data, vec![4, 1, 2, 3]);
    let picture = tray::Picture { width: 3, height: 4, data: vec![9, 8, 7] };
    let icon = tray::to_argb32(&picture);
    assert_eq!((icon.width, icon.height, icon.data.len()), (3, 4, 0));
}

#[test]
fn what_is_no_picture_gives_no_icon() {
    assert!(tray::decode_png_to_argb32(b"not a picture").is_none());
    assert!(tray::decode_png_to_argb32(&[]).is_none());
    let whole = encoded(2, 1, png::ColorType::Rgba, &[0; 8]);
    assert!(tray::decode_png_to_argb32(&whole[..whole.len() / 2]).is_none());
}
