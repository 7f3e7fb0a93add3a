//! MPV, TeamSpeak and Discord.
use proto_control::discord::oauth;
use proto_control::discord::oauth::{
    AuthEvent, AuthState, AuthStep, AuthorizeError, TokenData, TokenError,
};
use proto_control::discord::session;
use proto_control::discord::session::{Action, FrameError, Session, VoiceMember};
use proto_control::discord::socket;
use proto_control::discord::wire;
use proto_control::discord::wire::{Nonces, Request, VoiceEvent};
use proto_control::config::{Config, UserOverride};
use proto_control::lines::{Next, Outcome};
use proto_control::midi::DeviceEvent;
use proto_control::mpv;
use proto_control::mpv::MpvState;
use proto_control::order::{self, Rank};
use proto_control::teamspeak;
use proto_control::teamspeak::{RawMember, RawMessage, TsMember};

fn value(s: &str) -> serde_json::Value {
    serde_json::from_str(s).unwrap()
}

// ---- MPV ----

#[test]
fn the_player_is_asked_at_the_socket() {
    assert_eq!(mpv::default_socket_path(), "/tmp/proto-control-mpv.sock");
    assert_eq!((mpv::FRAME_STEPS, mpv::MAX_CC, mpv::HOME_CC, mpv::SPRING_RETURN_MS), (24, 90, 45, 300));
    let messages = mpv::opening_messages();
    assert_eq!(messages.len(), 6);
    assert_eq!(messages[0], "{\"command\": [\"observe_property\", 1, \"speed\"]}");
    assert_eq!(messages[2], "{\"command\": [\"observe_property\", 3, \"estimated-vf-fps\"]}");
    assert_eq!(messages[4], "{\"command\": [\"get_property\", \"pause\"]}");
    for m in &messages {
        value(m);
    }
    assert_eq!(mpv::send_json("x"), "x\n");
}

#[test]
fn player_commands_are_json() {
    let speed = mpv::encode_command(&mpv::Command::SetSpeed("1.5".to_string()));
    assert_eq!(speed, "{\"command\": [\"set_property\", \"speed\", 1.5]}");
    assert_eq!(
        mpv::encode_command(&mpv::Command::SetPause(true)),
        "{\"command\": [\"set_property\", \"pause\", true]}"
    );
    assert_eq!(
        mpv::encode_command(&mpv::Command::SetPause(false)),
        "{\"command\": [\"set_property\", \"pause\", false]}"
    );
    assert_eq!(mpv::encode_command(&mpv::Command::FrameStep), "{\"command\": [\"frame-step\"]}");
    assert_eq!(
        mpv::encode_command(&mpv::Command::FrameBackStep),
        "{\"command\": [\"frame-back-step\"]}"
    );
}

fn after(line: &str) -> Option<(f64, bool, f64)> {
    let mut s = MpvState::initial(true);
    let before = s;
    let r = s.handle_line(line);
    match r {
        Some(told) => assert_eq!(told, s),
        None => assert_eq!(before, s),
    }
    r.map(|t| (f64::from_bits(t.speed), t.paused, f64::from_bits(t.fps)))
}

#[test]
fn a_player_starts_at_normal_speed() {
    let s = MpvState::initial(false);
    assert_eq!((f64::from_bits(s.speed), s.paused, f64::from_bits(s.fps)), (1.0, false, 24.0));
    assert!(!s.connected);
    assert_eq!((mpv::ONE, mpv::TWENTY_FOUR), (1.0f64.to_bits(), 24.0f64.to_bits()));
}

#[test]
fn changes_of_the_player_are_told() {
    assert_eq!(
        after("{\"event\":\"property-change\",\"name\":\"speed\",\"data\":1.5}"),
        Some((1.5, false, 24.0))
    );
    assert_eq!(
        after("{\"event\":\"property-change\",\"name\":\"speed\",\"data\":20}"),
        Some((20.0, false, 24.0))
    );
    assert_eq!(
        after("{\"event\":\"property-change\",\"name\":\"pause\",\"data\":true}"),
        Some((1.0, true, 24.0))
    );
    assert_eq!(
        after("{\"event\":\"property-change\",\"name\":\"estimated-vf-fps\",\"data\":59.94}"),
        Some((1.0, false, 59.94))
    );
}

#[test]
fn answers_of_the_player_are_told() {
    assert_eq!(after("{\"error\":\"success\",\"data\":10}"), Some((10.0, false, 24.0)));
    assert_eq!(after("{\"error\":\"success\",\"data\":10.5}"), Some((1.0, false, 10.5)));
    assert_eq!(after("{\"error\":\"success\",\"data\":true}"), Some((1.0, true, 24.0)));
    assert_eq!(
        after("{\"event\":\"property-change\",\"name\":\"speed\",\"data\":2,\"error\":\"success\"}"),
        Some((2.0, false, 24.0))
    );
}

#[test]
fn other_lines_of_the_player_are_passed_over() {
    for line in [
        "",
        "not json",
        "{}",
        "[]",
        "{\"event\":\"property-change\",\"name\":\"speed\"}",
        "{\"event\":\"property-change\",\"name\":\"speed\",\"data\":true}",
        "{\"event\":\"property-change\",\"name\":\"pause\",\"data\":1}",
        "{\"event\":\"property-change\",\"name\":\"estimated-vf-fps\",\"data\":0}",
        "{\"event\":\"property-change\",\"name\":\"estimated-vf-fps\",\"data\":-1}",
        "{\"event\":\"property-change\",\"name\":\"volume\",\"data\":1}",
        "{\"event\":\"idle\",\"name\":\"speed\",\"data\":1}",
        "{\"error\":\"success\",\"data\":0}",
        "{\"error\":\"success\",\"data\":-3}",
        "{\"error\":\"success\",\"data\":null}",
        "{\"error\":\"success\"}",
        "{\"error\":\"property not found\",\"data\":3}",
    ] {
        assert_eq!(after(line), None, "{}", line);
    }
    let mut s = MpvState::initial(true);
    assert!(s.handle_message(&value("{\"error\":\"success\",\"data\":3}")).is_some());
}

// ---- TeamSpeak ----

#[test]
fn the_plugin_listens_in_the_client_directory() {
    let home = Some("/home/u".to_string());
    assert_eq!(
        teamspeak::default_socket_path(&home, true),
        "/home/u/.var/app/com.teamspeak.TeamSpeak3/.ts3client/rotocontrol-ts3.sock"
    );
    assert_eq!(
        teamspeak::default_socket_path(&home, false),
        "/home/u/.ts3client/rotocontrol-ts3.sock"
    );
    assert_eq!(teamspeak::default_socket_path(&None, false), "/tmp/.ts3client/rotocontrol-ts3.sock");
    assert_eq!(
        teamspeak::sandbox_dir(&None),
        "/tmp/.var/app/com.teamspeak.TeamSpeak3/.ts3client"
    );
}

fn ts(self_muted: bool, self_deafened: bool) -> TsMember {
    TsMember {
        client_id: 1,
        nick: "n".to_string(),
        muted: false,
        volume: 100,
        self_muted,
        self_deafened,
    }
}

#[test]
fn who_speaks_comes_first() {
    assert_eq!(ts(false, false).activity_key(), 0);
    assert_eq!(ts(true, false).activity_key(), 1);
    assert_eq!(ts(false, true).activity_key(), 2);
    assert_eq!(ts(true, true).activity_key(), 2);
}

#[test]
fn members_are_told_by_the_plugin() {
    let raw = RawMember {
        id: 7,
        nick: "Tom".to_string(),
        muted: true,
        self_muted: false,
        self_deafened: true,
    };
    let members = teamspeak::members_of(RawMessage {
        msg_type: "members".to_string(),
        members: Some(vec![raw]),
    })
    .unwrap();
    assert_eq!(members.len(), 1);
    let m = &members[0];
    assert_eq!((m.client_id, m.nick.as_str(), m.muted, m.volume), (7, "Tom", true, 100));
    assert_eq!((m.self_muted, m.self_deafened), (false, true));
    let none = RawMessage { msg_type: "members".to_string(), members: None };
    assert!(teamspeak::members_of(none).unwrap().is_empty());
    let other = RawMessage { msg_type: "hello".to_string(), members: None };
    assert!(teamspeak::members_of(other).is_none());
}

#[test]
fn plugin_commands_are_lines_of_json() {
    let line = teamspeak::encode_command(teamspeak::Command::SetVolume { client_id: 7, volume: 150 });
    assert_eq!(line, "{\"type\":\"set_volume\",\"client_id\":7,\"volume\":150}\n");
    let line = teamspeak::encode_command(teamspeak::Command::SetMute { client_id: 65535, muted: true });
    assert_eq!(line, "{\"type\":\"set_mute\",\"client_id\":65535,\"muted\":true}\n");
    let line = teamspeak::encode_command(teamspeak::Command::SetMute { client_id: 0, muted: false });
    assert_eq!(line, "{\"type\":\"set_mute\",\"client_id\":0,\"muted\":false}\n");
}

// ---- Discord: frames and requests ----

#[test]
fn frames_announce_their_payload() {
    let f = wire::write_frame(1, &vec![9; 300]);
    assert_eq!(&f[..8], &[1, 0, 0, 0, 44, 1, 0, 0]);
    let mut header = [0u8; 8];
    header.copy_from_slice(&f[..8]);
    assert_eq!(wire::read_frame_header(&header), (1, 300));
    assert_eq!(wire::read_frame_header(&[1, 2, 3, 4, 255, 255, 255, 255]), (0x04030201, u32::MAX));
}

fn payload(frame: &[u8], opcode: u32) -> serde_json::Value {
    let mut header = [0u8; 8];
    header.copy_from_slice(&frame[..8]);
    assert_eq!(wire::read_frame_header(&header), (opcode, frame.len() as u32 - 8));
    serde_json::from_slice(&frame[8..]).unwrap()
}

#[test]
fn a_connection_opens_with_a_handshake() {
    assert_eq!(payload(&wire::handshake("42\"x"), 0), value("{\"v\":1,\"client_id\":\"42\\\"x\"}"));
}

#[test]
fn requests_carry_their_arguments() {
    let mut nonces = Nonces::new();
    let s = |t: &str| t.to_string();
    let cases = [
        (
            Request::Subscribe { event: VoiceEvent::ChannelSelect, channel_id: None },
            "{\"cmd\":\"SUBSCRIBE\",\"args\":{},\"nonce\":\"1\",\"evt\":\"VOICE_CHANNEL_SELECT\"}",
        ),
        (
            Request::Subscribe { event: VoiceEvent::StateUpdate, channel_id: Some(s("c")) },
            "{\"cmd\":\"SUBSCRIBE\",\"args\":{\"channel_id\":\"c\"},\"nonce\":\"2\",\"evt\":\"VOICE_STATE_UPDATE\"}",
        ),
        (
            Request::Unsubscribe { event: VoiceEvent::StateCreate, channel_id: s("c") },
            "{\"cmd\":\"UNSUBSCRIBE\",\"args\":{\"channel_id\":\"c\"},\"nonce\":\"3\",\"evt\":\"VOICE_STATE_CREATE\"}",
        ),
        (
            Request::GetSelectedVoiceChannel,
            "{\"cmd\":\"GET_SELECTED_VOICE_CHANNEL\",\"args\":{},\"nonce\":\"4\"}",
        ),
        (
            session::command_request(session::Command::SetVolume { user_id: s("u"), volume: 200 }),
            "{\"cmd\":\"SET_USER_VOICE_SETTINGS\",\"args\":{\"user_id\":\"u\",\"volume\":200},\"nonce\":\"5\"}",
        ),
        (
            session::command_request(session::Command::SetMute { user_id: s("u"), muted: true }),
            "{\"cmd\":\"SET_USER_VOICE_SETTINGS\",\"args\":{\"user_id\":\"u\",\"mute\":true},\"nonce\":\"6\"}",
        ),
        (
            Request::Authenticate { access_token: s("t\u{e9}\n") },
            "{\"cmd\":\"AUTHENTICATE\",\"args\":{\"access_token\":\"t\\u00e9\\n\"},\"nonce\":\"7\"}",
        ),
        (
            Request::Authorize { client_id: s("id") },
            "{\"cmd\":\"AUTHORIZE\",\"args\":{\"client_id\":\"id\",\"scopes\":[\"rpc\",\"rpc.voice.read\",\"rpc.voice.write\"]},\"nonce\":\"8\"}",
        ),
        (
            Request::Unsubscribe { event: VoiceEvent::StateDelete, channel_id: s("c") },
            "{\"cmd\":\"UNSUBSCRIBE\",\"args\":{\"channel_id\":\"c\"},\"nonce\":\"9\",\"evt\":\"VOICE_STATE_DELETE\"}",
        ),
    ];
    for (request, expected) in cases {
        assert_eq!(payload(&wire::send_rpc(&request, &mut nonces), 1), value(expected));
    }
}

#[test]
fn nonces_start_over_after_the_last() {
    let mut n = Nonces { next: u64::MAX };
    assert_eq!(n.next_nonce(), u64::MAX.to_string());
    assert_eq!(n.next_nonce(), "0");
}

// ---- Discord: the session ----

fn ids(members: &[VoiceMember]) -> Vec<(&str, &str, u16, bool)> {
    members.iter().map(|m| (m.user_id.as_str(), m.nick.as_str(), m.volume, m.muted)).collect()
}

fn published(actions: &[Action]) -> Vec<String> {
    match actions.last() {
        Some(Action::Publish(members)) => members.iter().map(|m| m.user_id.clone()).collect(),
        _ => panic!("nothing was published"),
    }
}

fn joined() -> Session {
    let (mut s, _) = Session::start("me".to_string());
    s.handle_message(&value(
        "{\"cmd\":\"GET_SELECTED_VOICE_CHANNEL\",\"data\":{\"id\":\"c\",\"voice_states\":[\
         {\"user\":{\"id\":\"me\"}},\
         {\"user\":{\"id\":\"a\",\"username\":\"ann\"},\"nick\":\"Ann\",\"volume\":149.5,\"mute\":true},\
         {\"user\":{\"id\":\"b\",\"username\":\"bob\"}},\
         {\"nick\":\"nobody\"},\
         {\"user\":{\"id\":\"c\"},\"volume\":-3}]}}",
    ));
    s
}

#[test]
fn a_session_asks_for_the_channel() {
    let (s, actions) = Session::start("me".to_string());
    assert_eq!(s.self_user_id, "me");
    assert!(s.channel.is_none() && s.members.is_empty());
    assert_eq!(actions.len(), 2);
    assert!(matches!(
        actions[0],
        Action::Send(Request::Subscribe { event: VoiceEvent::ChannelSelect, channel_id: None })
    ));
    assert!(matches!(actions[1], Action::Send(Request::GetSelectedVoiceChannel)));
}

#[test]
fn the_members_of_the_channel_are_listed() {
    let s = joined();
    assert_eq!(s.channel.as_deref(), Some("c"));
    assert_eq!(
        ids(&s.members),
        vec![("a", "Ann", 150, true), ("b", "bob", 100, false), ("c", "?", 0, false)]
    );
}

#[test]
fn a_selected_channel_is_subscribed_to() {
    let (mut s, _) = Session::start("me".to_string());
    let actions = s.handle_message(&value(
        "{\"cmd\":\"GET_SELECTED_VOICE_CHANNEL\",\"data\":{\"id\":\"c\",\"voice_states\":null}}",
    ));
    assert_eq!(actions.len(), 4);
    let events = [VoiceEvent::StateUpdate, VoiceEvent::StateCreate, VoiceEvent::StateDelete];
    for (action, wanted) in actions.iter().zip(events) {
        match action {
            Action::Send(Request::Subscribe { event, channel_id }) => {
                assert_eq!(*event, wanted);
                assert_eq!(channel_id.as_deref(), Some("c"));
            }
            _ => panic!("no subscription"),
        }
    }
    assert!(published(&actions).is_empty());
    let none = s.handle_message(&value("{\"cmd\":\"GET_SELECTED_VOICE_CHANNEL\",\"data\":null}"));
    assert!(none.is_empty());
    let error = s.handle_message(&value(
        "{\"cmd\":\"GET_SELECTED_VOICE_CHANNEL\",\"evt\":\"ERROR\",\"data\":{\"id\":\"d\"}}",
    ));
    assert!(error.is_empty());
    assert_eq!(s.channel.as_deref(), Some("c"));
}

fn dispatch(s: &mut Session, evt: &str, data: &str) -> Vec<Action> {
    s.handle_message(&value(&format!(
        "{{\"cmd\":\"DISPATCH\",\"evt\":\"{}\",\"data\":{}}}",
        evt, data
    )))
}

#[test]
fn joining_is_noticed_once() {
    let mut s = joined();
    let actions = dispatch(&mut s, "VOICE_STATE_CREATE", "{\"user\":{\"id\":\"d\"},\"nick\":\"Dan\"}");
    assert_eq!(published(&actions), vec!["a", "b", "c", "d"]);
    assert!(dispatch(&mut s, "VOICE_STATE_CREATE", "{\"user\":{\"id\":\"d\"}}").is_empty());
    assert!(dispatch(&mut s, "VOICE_STATE_CREATE", "{\"user\":{\"id\":\"me\"}}").is_empty());
    assert!(dispatch(&mut s, "VOICE_STATE_CREATE", "{}").is_empty());
    assert_eq!(s.members.len(), 4);
}

#[test]
fn leaving_is_noticed() {
    let mut s = joined();
    let actions = dispatch(&mut s, "VOICE_STATE_DELETE", "{\"user\":{\"id\":\"b\"}}");
    assert_eq!(published(&actions), vec!["a", "c"]);
    assert!(dispatch(&mut s, "VOICE_STATE_DELETE", "{\"user\":{\"id\":\"b\"}}").is_empty());
    assert_eq!(s.members.len(), 2);
}

#[test]
fn changes_of_members_are_noticed_once() {
    let mut s = joined();
    let data = "{\"user\":{\"id\":\"b\"},\"volume\":70.4,\"mute\":true}";
    let actions = dispatch(&mut s, "VOICE_STATE_UPDATE", data);
    assert_eq!(published(&actions), vec!["a", "b", "c"]);
    assert_eq!(ids(&s.members)[1], ("b", "bob", 70, true));
    assert!(dispatch(&mut s, "VOICE_STATE_UPDATE", data).is_empty());
    assert!(dispatch(&mut s, "VOICE_STATE_UPDATE", "{\"user\":{\"id\":\"z\"},\"mute\":true}").is_empty());
    assert!(dispatch(&mut s, "VOICE_STATE_UPDATE", "{\"user\":{\"id\":\"b\"}}").is_empty());
}

#[test]
fn switching_channels_ends_the_old_one() {
    let mut s = joined();
    assert!(dispatch(&mut s, "VOICE_CHANNEL_SELECT", "{\"channel_id\":\"c\"}").is_empty());
    let actions = dispatch(&mut s, "VOICE_CHANNEL_SELECT", "{\"channel_id\":\"d\"}");
    assert_eq!(actions.len(), 4);
    match &actions[0] {
        Action::Send(Request::Unsubscribe { event, channel_id }) => {
            assert_eq!(*event, VoiceEvent::StateUpdate);
            assert_eq!(channel_id, "c");
        }
        _ => panic!("the old channel is not ended"),
    }
    assert!(matches!(actions[3], Action::Send(Request::GetSelectedVoiceChannel)));
    assert_eq!((s.channel.as_deref(), s.members.len()), (Some("d"), 3));
    let actions = dispatch(&mut s, "VOICE_CHANNEL_SELECT", "{\"channel_id\":null}");
    assert!(published(&actions).is_empty());
    assert!(s.channel.is_none() && s.members.is_empty());
    let (mut fresh, _) = Session::start("me".to_string());
    assert_eq!(fresh.handle_channel_switch(Some("x".to_string())).len(), 1);
}

#[test]
fn frames_are_taken_in() {
    let mut s = joined();
    let text = b"{\"cmd\":\"DISPATCH\",\"evt\":\"VOICE_STATE_DELETE\",\"data\":{\"user\":{\"id\":\"a\"}}}";
    assert!(s.handle_frame(3, text).unwrap().is_empty());
    assert_eq!(s.members.len(), 3);
    assert_eq!(s.handle_frame(1, text).unwrap().len(), 1);
    assert_eq!(s.members.len(), 2);
    assert!(matches!(s.handle_frame(1, b"{"), Err(FrameError::Malformed)));
    assert!(matches!(s.handle_frame(3, b"{"), Err(FrameError::Malformed)));
}

#[test]
fn single_voice_states_are_read() {
    let v = value("{\"x\":[{\"user\":{\"id\":\"q\",\"username\":\"Q\"},\"volume\":65536,\"mute\":1}]}");
    let m = session::parse_voice_member(&v, "/x/0").unwrap();
    assert_eq!(ids(&[m]), vec![("q", "Q", 65535, false)]);
    assert!(session::parse_voice_member(&v, "/x/1").is_none());
    assert_eq!(session::parse_voice_states(&v, "/x", "other").len(), 1);
    assert!(session::parse_voice_states(&v, "/x", "q").is_empty());
    assert!(session::parse_voice_states(&v, "/y", "other").is_empty());
}

#[test]
fn the_handshake_names_the_user() {
    assert_eq!(session::ready_user(b"{\"data\":{\"user\":{\"id\":\"5\"}}}"), Ok("5".to_string()));
    assert_eq!(session::ready_user(b"{}"), Ok(String::new()));
    assert_eq!(session::ready_user(b""), Err(FrameError::Malformed));
    assert_eq!(session::user_in(&value("{\"data\":{\"user\":{\"id\":\"5\"}}}")), "5");
}

// ---- Discord: getting in ----

fn token(access: &str, refresh: Option<&str>) -> TokenData {
    TokenData { access_token: access.to_string(), refresh_token: refresh.map(String::from) }
}

#[test]
fn a_saved_token_that_is_accepted_is_enough() {
    let (state, step) = oauth::authenticate(Some(token("t", None)));
    assert!(matches!(step, AuthStep::Authenticate { ref access_token } if access_token == "t"));
    let (state, step) = oauth::advance(state, AuthEvent::Reply { accepted: true });
    assert!(matches!(state, AuthState::Finished));
    assert!(matches!(step, AuthStep::Finish { save: None }));
}

#[test]
fn a_refused_token_is_renewed_and_saved() {
    let (state, _) = oauth::authenticate(Some(token("t", Some("r"))));
    let (state, step) = oauth::advance(state, AuthEvent::Reply { accepted: false });
    assert!(matches!(step, AuthStep::Refresh { ref refresh_token } if refresh_token == "r"));
    let (state, step) = oauth::advance(state, AuthEvent::Refreshed(Some(token("t2", None))));
    assert!(matches!(step, AuthStep::Authenticate { ref access_token } if access_token == "t2"));
    let (_, step) = oauth::advance(state, AuthEvent::Reply { accepted: true });
    assert!(matches!(step, AuthStep::Finish { save: Some(ref t) } if t.access_token == "t2"));
}

#[test]
fn in_the_end_the_user_is_asked() {
    let (state, step) = oauth::authenticate(None);
    assert!(matches!(step, AuthStep::Authorize));
    let (state, step) = oauth::advance(state, AuthEvent::Code("c".to_string()));
    assert!(matches!(step, AuthStep::Exchange { ref code } if code == "c"));
    let (state, step) = oauth::advance(state, AuthEvent::Token(token("f", None)));
    assert!(matches!(step, AuthStep::Authenticate { ref access_token } if access_token == "f"));
    let (state, step) = oauth::advance(state, AuthEvent::Reply { accepted: false });
    assert!(matches!(state, AuthState::Failed));
    assert!(matches!(step, AuthStep::Fail));
}

#[test]
fn every_refusal_leads_to_the_user() {
    let (state, _) = oauth::authenticate(Some(token("t", None)));
    let (_, step) = oauth::advance(state, AuthEvent::Reply { accepted: false });
    assert!(matches!(step, AuthStep::Authorize));
    let (state, _) = oauth::authenticate(Some(token("t", Some("r"))));
    let (state, _) = oauth::advance(state, AuthEvent::Reply { accepted: false });
    let (_, step) = oauth::advance(state, AuthEvent::Refreshed(None));
    assert!(matches!(step, AuthStep::Authorize));
    let (state, _) = oauth::authenticate(Some(token("t", Some("r"))));
    let (state, _) = oauth::advance(state, AuthEvent::Reply { accepted: false });
    let (state, _) = oauth::advance(state, AuthEvent::Refreshed(Some(token("u", None))));
    let (_, step) = oauth::advance(state, AuthEvent::Reply { accepted: false });
    assert!(matches!(step, AuthStep::Authorize));
}

#[test]
fn replies_are_read() {
    assert_eq!(oauth::try_authenticate(b"{\"evt\":null}"), Ok(true));
    assert_eq!(oauth::try_authenticate(b"{\"evt\":\"ERROR\"}"), Ok(false));
    assert_eq!(oauth::try_authenticate(b"nope"), Err(FrameError::Malformed));
    assert_eq!(oauth::authorize(b"{\"data\":{\"code\":\"k\"}}"), Ok("k".to_string()));
    assert_eq!(
        oauth::authorize(b"{\"evt\":\"ERROR\",\"data\":{\"code\":\"k\"}}"),
        Err(AuthorizeError::Denied)
    );
    assert_eq!(oauth::authorize(b"{\"data\":{\"code\":4}}"), Err(AuthorizeError::NoCode));
    assert_eq!(oauth::authorize(b"{"), Err(AuthorizeError::Malformed));
    assert!(oauth::reports_error(&value("{\"evt\":\"ERROR\"}")));
    assert_eq!(oauth::code_in(&value("{\"data\":{\"code\":\"k\"}}")), Ok("k".to_string()));
}

#[test]
fn tokens_are_asked_for() {
    assert_eq!(
        oauth::exchange_code("i", "s", "c"),
        "client_id=i&client_secret=s&grant_type=authorization_code&code=c&redirect_uri=http://127.0.0.1"
    );
    let form = oauth::refresh_token("i", "s", "r");
    assert_eq!(form, "client_id=i&client_secret=s&grant_type=refresh_token&refresh_token=r");
    let args = oauth::token_request(form.clone());
    assert_eq!(args.len(), 8);
    assert_eq!(args[3], "https://discord.com/api/oauth2/token");
    assert_eq!(args[7], form);
}

#[test]
fn tokens_are_read() {
    let t = oauth::token_response(b"{\"access_token\":\"a\",\"refresh_token\":\"r\"}").unwrap();
    assert_eq!((t.access_token.as_str(), t.refresh_token.as_deref()), ("a", Some("r")));
    let t = oauth::token_in(&value("{\"access_token\":\"a\",\"refresh_token\":1}")).unwrap();
    assert_eq!(t.refresh_token, None);
    assert!(matches!(
        oauth::token_response(b"{\"error\":\"bad\",\"access_token\":\"a\"}"),
        Err(TokenError::Refused(ref e)) if e == "bad"
    ));
    assert!(matches!(oauth::token_response(b"{}"), Err(TokenError::NoAccessToken)));
    assert!(matches!(oauth::token_response(b""), Err(TokenError::Malformed)));
}

#[test]
fn sockets_are_looked_for_in_order() {
    assert_eq!(socket::default_runtime_dir(1000), "/run/user/1000");
    let paths = socket::socket_candidates("/run/user/1000");
    assert_eq!(paths.len(), 30);
    assert_eq!(paths[0], "/run/user/1000/discord-ipc-0");
    assert_eq!(paths[9], "/run/user/1000/discord-ipc-9");
    assert_eq!(paths[10], "/run/user/1000/app/com.discordapp.Discord/discord-ipc-0");
    assert_eq!(paths[29], "/tmp/discord-ipc-9");
    for base in ["", "/", "/a", "/a/", "rel"] {
        let joined = std::path::Path::new(base).join("x/y");
        assert_eq!(socket::join_path(base, "x/y"), joined.to_str().unwrap());
    }
}

// ---- connections and order ----

#[test]
fn lost_connections_are_made_again() {
    let again = Next::Reconnect { wait_ms: 5000, publish_nobody: true };
    assert_eq!(teamspeak::after_connection(Outcome::Closed), again);
    assert_eq!(teamspeak::after_connection(Outcome::Failed), again);
    assert_eq!(session::after_connection(Outcome::Closed), again);
    assert_eq!(session::after_connection(Outcome::Failed), again);
    assert_eq!(mpv::after_connection(Outcome::Failed), again);
    assert_eq!(mpv::after_connection(Outcome::Closed), Next::Stop);
    assert_eq!(mpv::after_connection(Outcome::Dropped), Next::Stop);
    assert_eq!(teamspeak::after_connection(Outcome::Dropped), Next::Stop);
    assert_eq!(session::after_connection(Outcome::Dropped), Next::Stop);
}

#[test]
fn ranks_are_ordered_by_priority_then_activity() {
    let rank = |priority, activity| Rank { priority, activity };
    let ranks = vec![
        rank(None, 2),
        rank(Some(2), 0),
        rank(Some(i32::MAX), 0),
        rank(Some(-1), 2),
        rank(None, 0),
        rank(Some(2), 0),
        rank(Some(-1), 1),
    ];
    assert_eq!(order::order(&ranks), vec![6, 3, 1, 5, 2, 4, 0]);
    assert!(order::order(&vec![]).is_empty());
}

fn prioritised(name: &str, priority: i32) -> UserOverride {
    UserOverride { name: name.to_string(), color: None, priority: Some(priority) }
}

#[test]
fn members_appear_in_the_order_of_the_device() {
    let mut config = Config::default();
    config.teamspeak_users.push(prioritised("charlie", 1));
    config.discord_users.push(prioritised("BOB", 1));
    let member = |nick: &str, self_muted, self_deafened| TsMember {
        nick: nick.to_string(),
        ..ts(self_muted, self_deafened)
    };
    let members = vec![
        member("x", false, true),
        member("y", true, false),
        member("z", false, false),
        member("Charlie", false, true),
    ];
    assert_eq!(teamspeak::device_order(&config, &members), vec![3, 2, 1, 0]);
    let voice = |nick: &str, muted| VoiceMember {
        user_id: nick.to_string(),
        nick: nick.to_string(),
        volume: 100,
        muted,
    };
    let members = vec![voice("ann", true), voice("dan", false), voice("bob", true)];
    assert_eq!(session::device_order(&config, &members), vec![2, 1, 0]);
}

#[test]
fn after_the_end_nothing_more_happens() {
    let (state, _) = oauth::authenticate(Some(token("t", None)));
    let (state, _) = oauth::advance(state, AuthEvent::Reply { accepted: true });
    let (state, step) = oauth::advance(state, AuthEvent::Reply { accepted: false });
    assert!(matches!(state, AuthState::Finished));
    assert!(matches!(step, AuthStep::Finish { save: None }));
    let (_, step) = oauth::advance(AuthState::Failed, AuthEvent::Code("c".to_string()));
    assert!(matches!(step, AuthStep::Fail));
    let (_, step) = oauth::advance(AuthState::Refreshing, AuthEvent::Reply { accepted: true });
    assert!(matches!(step, AuthStep::Authorize));
}

#[test]
fn buttons_of_the_voice_pages_mute_their_member() {
    let mut config = Config::default();
    config.teamspeak_users.push(prioritised("last", 9));
    config.teamspeak_users.push(prioritised("first", 1));
    config.discord_users.push(prioritised("dan", 1));
    let members: Vec<TsMember> = [(5, "last"), (6, "first")]
        .iter()
        .map(|(id, nick)| TsMember { client_id: *id, nick: nick.to_string(), ..ts(false, false) })
        .collect();
    let press = |index, value| {
        teamspeak::press_command(&config, &members, DeviceEvent::Ts3ButtonPress { index, value })
    };
    assert_eq!(press(0, 127), Some(teamspeak::Command::SetMute { client_id: 6, muted: true }));
    assert_eq!(press(1, 0), Some(teamspeak::Command::SetMute { client_id: 5, muted: false }));
    assert_eq!(press(2, 127), None);
    let turn = DeviceEvent::Ts3KnobTurn { index: 0, value: 1 };
    assert_eq!(teamspeak::press_command(&config, &members, turn), None);

    let voice = |id: &str, nick: &str| VoiceMember {
        user_id: id.to_string(),
        nick: nick.to_string(),
        volume: 100,
        muted: false,
    };
    let members = vec![voice("1", "ann"), voice("2", "dan")];
    let press = |index, value| {
        session::press_command(&config, &members, DeviceEvent::DiscordButtonPress { index, value })
    };
    assert!(matches!(
        press(0, 127),
        Some(session::Command::SetMute { ref user_id, muted: true }) if user_id == "2"
    ));
    assert!(matches!(
        press(1, 0),
        Some(session::Command::SetMute { ref user_id, muted: false }) if user_id == "1"
    ));
    assert!(press(2, 1).is_none());
    let other = DeviceEvent::ButtonPress { index: 0, value: 127 };
    assert!(session::press_command(&config, &members, other).is_none());
}
