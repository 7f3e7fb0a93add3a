//! MPV: playback speed and pause over its JSON socket.
//!
//! Speeds and frame rates are doubles, held here as their bits.
use crate::double;
use crate::json;
use crate::lines::{Next, Outcome};
use crate::text;
use vstd::prelude::*;
use vstd::string::*;

verus! {

broadcast use vstd::string::group_string_axioms;

/// How many detents the frame jog wheel has.
pub const FRAME_STEPS: u8 = 24;

/// The highest controller value of the speed knob.
pub const MAX_CC: u8 = 90;

/// The controller value of the speed knob's centre, where speed is 1.0.
pub const HOME_CC: u8 = MAX_CC / 2;

/// How long after its last movement the speed knob counts as let go, in milliseconds.
pub const SPRING_RETURN_MS: u64 = 300;

/// The double 1.0.
pub const ONE: u64 = 0x3FF0_0000_0000_0000;

/// The double 24.0.
pub const TWENTY_FOUR: u64 = 0x4038_0000_0000_0000;

/// Where MPV is looked for.
pub fn default_socket_path() -> (r: String)
    ensures
        r@ == "/tmp/proto-control-mpv.sock"@,
{
    "/tmp/proto-control-mpv.sock".to_string()
}

/// What is known of the player.
#[derive(Debug, Clone, Copy, PartialEq, Eq, Structural)]
pub struct MpvState {
    /// The playback speed, as the bits of a double.
    pub speed: u64,
    pub paused: bool,
    /// The frame rate, as the bits of a double.
    pub fps: u64,
    /// Whether there is a connection.
    pub connected: bool,
}

/// The constants are the doubles that they are called after.
pub proof fn constants_are_exact()
    ensures
        double::equals(ONE, 1),
        double::equals(TWENTY_FOUR, 24),
{
    vstd::arithmetic::power2::lemma2_to64();
    vstd::arithmetic::power2::lemma2_to64_rest();
}

impl MpvState {
    /// What is taken for granted until the player tells: normal speed, playing, 24 frames a
    /// second.
    pub fn initial(connected: bool) -> (r: MpvState)
        ensures
            r == (MpvState { speed: ONE, paused: false, fps: TWENTY_FOUR, connected }),
    {
        MpvState { speed: ONE, paused: false, fps: TWENTY_FOUR, connected }
    }
}

// ---- to the player ----

/// What is asked of the player.
#[derive(Debug)]
pub enum Command {
    /// Play at a speed, written as a decimal number.
    SetSpeed(String),
    /// Pause, or play on.
    SetPause(bool),
    /// Go one frame forward.
    FrameStep,
    /// Go one frame back.
    FrameBackStep,
}

/// The message that carries a command to the player.
pub open spec fn command_message(c: Command) -> Seq<char> {
    match c {
        Command::SetSpeed(speed) => "{\"command\": [\"set_property\", \"speed\", "@ + speed@
            + "]}"@,
        Command::SetPause(paused) => "{\"command\": [\"set_property\", \"pause\", "@
            + crate::teamspeak::truth_text(paused) + "]}"@,
        Command::FrameStep => "{\"command\": [\"frame-step\"]}"@,
        Command::FrameBackStep => "{\"command\": [\"frame-back-step\"]}"@,
    }
}

/// The message that carries a command to the player.
pub fn encode_command(c: &Command) -> (r: String)
    ensures
        r@ == command_message(*c),
{
    match c {
        Command::SetSpeed(speed) => {
            let mut r = "{\"command\": [\"set_property\", \"speed\", ".to_string();
            r.append(speed.as_str());
            r.append("]}");
            r
        },
        Command::SetPause(paused) => {
            let mut r = "{\"command\": [\"set_property\", \"pause\", ".to_string();
            if *paused {
                r.append("true");
            } else {
                r.append("false");
            }
            r.append("]}");
            r
        },
        Command::FrameStep => "{\"command\": [\"frame-step\"]}".to_string(),
        Command::FrameBackStep => "{\"command\": [\"frame-back-step\"]}".to_string(),
    }
}

/// The messages that a connection begins with: to be told of speed, pause and frame rate as they
/// change, and what they are now.
pub open spec fn opening() -> Seq<Seq<char>> {
    seq![
        "{\"command\": [\"observe_property\", 1, \"speed\"]}"@,
        "{\"command\": [\"observe_property\", 2, \"pause\"]}"@,
        "{\"command\": [\"observe_property\", 3, \"estimated-vf-fps\"]}"@,
        "{\"command\": [\"get_property\", \"speed\"]}"@,
        "{\"command\": [\"get_property\", \"pause\"]}"@,
        "{\"command\": [\"get_property\", \"estimated-vf-fps\"]}"@,
    ]
}

/// The messages that a connection begins with.
pub fn opening_messages() -> (r: Vec<String>)
    ensures
        text::texts(r@) == opening(),
{
    let mut r: Vec<String> = Vec::new();
    r.push("{\"command\": [\"observe_property\", 1, \"speed\"]}".to_string());
    r.push("{\"command\": [\"observe_property\", 2, \"pause\"]}".to_string());
    r.push("{\"command\": [\"observe_property\", 3, \"estimated-vf-fps\"]}".to_string());
    r.push("{\"command\": [\"get_property\", \"speed\"]}".to_string());
    r.push("{\"command\": [\"get_property\", \"pause\"]}".to_string());
    r.push("{\"command\": [\"get_property\", \"estimated-vf-fps\"]}".to_string());
    assert(text::texts(r@) == opening());
    r
}

/// A message as it is sent: a line of its own.
pub fn send_json(message: &str) -> (r: String)
    ensures
        r@ == message@.push('\n'),
{
    let mut r = message.to_string();
    r.push('\n');
    r
}

// ---- from the player ----

/// What a change of an observed property tells, if it tells anything: the speed, the pause, or a
/// frame rate above zero.
pub open spec fn after_change(s: MpvState, doc: Map<Seq<char>, json::JsonNode>) -> Option<
    MpvState,
> {
    let name = json::text_at(doc, "/name"@);
    let number = json::number_at(doc, "/data"@);
    if json::text_at(doc, "/event"@) != Some("property-change"@) {
        None
    } else if name == Some("speed"@) {
        match number {
            Some(bits) => Some(MpvState { speed: bits, ..s }),
            None => None,
        }
    } else if name == Some("pause"@) {
        match json::bool_at(doc, "/data"@) {
            Some(paused) => Some(MpvState { paused, ..s }),
            None => None,
        }
    } else if name == Some("estimated-vf-fps"@) {
        match number {
            Some(bits) => if double::is_positive(bits) {
                Some(MpvState { fps: bits, ..s })
            } else {
                None
            },
            None => None,
        }
    } else {
        None
    }
}

/// What the answer to a question tells, if it tells anything. A number above zero is a speed up
/// to ten, and a frame rate above that.
pub open spec fn after_answer(s: MpvState, doc: Map<Seq<char>, json::JsonNode>) -> Option<
    MpvState,
> {
    if json::text_at(doc, "/error"@) != Some("success"@) {
        None
    } else {
        match (json::number_at(doc, "/data"@), json::bool_at(doc, "/data"@)) {
            (Some(bits), _) => if !double::is_positive(bits) {
                None
            } else if double::at_most(bits, 10) {
                Some(MpvState { speed: bits, ..s })
            } else {
                Some(MpvState { fps: bits, ..s })
            },
            (None, Some(paused)) => Some(MpvState { paused, ..s }),
            (None, None) => None,
        }
    }
}

/// What a message tells, if it tells anything: first as a change, then as an answer.
pub open spec fn after_message(s: MpvState, doc: Map<Seq<char>, json::JsonNode>) -> Option<
    MpvState,
> {
    match after_change(s, doc) {
        Some(changed) => match after_answer(changed, doc) {
            Some(answered) => Some(answered),
            None => Some(changed),
        },
        None => after_answer(s, doc),
    }
}

/// What a line of the player's tells, if it is JSON and tells anything.
pub open spec fn after_line(s: MpvState, line: Seq<char>) -> Option<MpvState> {
    match json::json_document(vstd::utf8::encode_utf8(line)) {
        Some(doc) => after_message(s, doc),
        None => None,
    }
}

fn is_text_at(message: &serde_json::Value, pointer: &str, expected: &str) -> (r: bool)
    ensures
        r == (json::text_at(json::json_nodes(*message), pointer@) == Some(expected@)),
{
    match json::get_text(message, pointer) {
        Some(t) => text::same_text(t.as_str(), expected),
        None => false,
    }
}

impl MpvState {
    fn take_change(&mut self, message: &serde_json::Value) -> (r: bool)
        ensures
            match after_change(*old(self), json::json_nodes(*message)) {
                Some(s) => r && *final(self) == s,
                None => !r && *final(self) == *old(self),
            },
    {
        if !is_text_at(message, "/event", "property-change") {
            return false;
        }
        if is_text_at(message, "/name", "speed") {
            if let Some(bits) = json::get_number(message, "/data") {
                self.speed = bits;
                return true;
            }
        } else if is_text_at(message, "/name", "pause") {
            if let Some(paused) = json::get_bool(message, "/data") {
                self.paused = paused;
                return true;
            }
        } else if is_text_at(message, "/name", "estimated-vf-fps") {
            if let Some(bits) = json::get_number(message, "/data") {
                if double::positive(bits) {
                    self.fps = bits;
                    return true;
                }
            }
        }
        false
    }

    fn take_answer(&mut self, message: &serde_json::Value) -> (r: bool)
        ensures
            match after_answer(*old(self), json::json_nodes(*message)) {
                Some(s) => r && *final(self) == s,
                None => !r && *final(self) == *old(self),
            },
    {
        if !is_text_at(message, "/error", "success") {
            return false;
        }
        if let Some(bits) = json::get_number(message, "/data") {
            if !double::positive(bits) {
                return false;
            }
            if double::at_most_ten(bits) {
                self.speed = bits;
            } else {
                self.fps = bits;
            }
            return true;
        }
        if let Some(paused) = json::get_bool(message, "/data") {
            self.paused = paused;
            return true;
        }
        false
    }

    /// Takes a message of the player's in. The state is to be published where the message tells
    /// anything.
    pub fn handle_message(&mut self, message: &serde_json::Value) -> (r: Option<MpvState>)
        ensures
            r == after_message(*old(self), json::json_nodes(*message)),
            *final(self) == match r {
                Some(s) => s,
                None => *old(self),
            },
    {
        let changed = self.take_change(message);
        let answered = self.take_answer(message);
        if changed || answered {
            Some(*self)
        } else {
            None
        }
    }

    /// Takes a line of the player's in. The state is to be published where the line is JSON and
    /// tells anything.
    pub fn handle_line(&mut self, line: &str) -> (r: Option<MpvState>)
        ensures
            r == after_line(*old(self), line@),
            *final(self) == match r {
                Some(s) => s,
                None => *old(self),
            },
    {
        match json::parse(line.as_bytes()) {
            Ok(message) => self.handle_message(&message),
            Err(_) => None,
        }
    }
}

/// Nothing that the player says breaks the connection off, and the frame rate stays above zero.
pub proof fn frame_rate_stays_positive(s: MpvState, line: Seq<char>)
    requires
        double::is_positive(s.fps),
    ensures
        after_line(s, line) matches Some(t) ==> double::is_positive(t.fps) && t.connected
            == s.connected,
{
}

/// Whether a message tells that an observed property changed, by its name.
pub open spec fn tells_change(doc: Map<Seq<char>, json::JsonNode>, name: Seq<char>) -> bool {
    &&& json::text_at(doc, "/event"@) == Some("property-change"@)
    &&& json::text_at(doc, "/name"@) == Some(name)
    &&& json::text_at(doc, "/error"@) != Some("success"@)
}

proof fn lemma_property_names()
    ensures
        "speed"@ != "pause"@,
        "speed"@ != "estimated-vf-fps"@,
        "pause"@ != "estimated-vf-fps"@,
{
    reveal_strlit("speed");
    reveal_strlit("pause");
    reveal_strlit("estimated-vf-fps");
    assert("speed"@[0] != "pause"@[0]);
    assert("speed"@.len() != "estimated-vf-fps"@.len());
    assert("pause"@.len() != "estimated-vf-fps"@.len());
}

/// When the player tells that speed, pause or frame rate changed, that one is taken over as told and
/// the others stay. What has the wrong kind of value, a frame rate that is not above zero, and a
/// property of another name tell nothing.
pub proof fn changes_are_taken_over(s: MpvState, doc: Map<Seq<char>, json::JsonNode>)
    ensures
        ({
            let number = json::number_at(doc, "/data"@);
            let truth = json::bool_at(doc, "/data"@);
            &&& tells_change(doc, "speed"@) && number is Some ==> after_message(s, doc) == Some(
                MpvState { speed: number.unwrap(), ..s },
            )
            &&& tells_change(doc, "speed"@) && number is None ==> after_message(s, doc) is None
            &&& tells_change(doc, "pause"@) && truth is Some ==> after_message(s, doc) == Some(
                MpvState { paused: truth.unwrap(), ..s },
            )
            &&& tells_change(doc, "pause"@) && truth is None ==> after_message(s, doc) is None
            &&& tells_change(doc, "estimated-vf-fps"@) && number is Some && double::is_positive(
                number.unwrap(),
            ) ==> after_message(s, doc) == Some(MpvState { fps: number.unwrap(), ..s })
            &&& tells_change(doc, "estimated-vf-fps"@) && (number is None || !double::is_positive(
                number.unwrap(),
            )) ==> after_message(s, doc) is None
        }),
{
    lemma_property_names();
}

/// The answer to a question is taken over by what it is: a truth value is the pause, a number above
/// zero is the speed up to ten and the frame rate above ten. A question that failed, and a number that
/// is not above zero, tell nothing.
pub proof fn answers_are_taken_over(s: MpvState, doc: Map<Seq<char>, json::JsonNode>)
    requires
        json::text_at(doc, "/event"@) != Some("property-change"@),
    ensures
        ({
            let success = json::text_at(doc, "/error"@) == Some("success"@);
            let number = json::number_at(doc, "/data"@);
            let truth = json::bool_at(doc, "/data"@);
            let bits = number.unwrap();
            &&& !success ==> after_message(s, doc) is None
            &&& success && truth is Some ==> after_message(s, doc) == Some(
                MpvState { paused: truth.unwrap(), ..s },
            )
            &&& success && number is Some && double::is_positive(bits) && double::at_most(bits, 10)
                ==> after_message(s, doc) == Some(MpvState { speed: bits, ..s })
            &&& success && number is Some && double::is_positive(bits) && !double::at_most(bits, 10)
                ==> after_message(s, doc) == Some(MpvState { fps: bits, ..s })
            &&& success && number is Some && !double::is_positive(bits) ==> after_message(s, doc)
                is None
            &&& success && number is None && truth is None ==> after_message(s, doc) is None
        }),
{
}

/// What is sent to the player says what is asked: the speed as it is written, or whether to pause;
/// and a step back is not a step forward.
pub proof fn commands_say_what_they_ask(speed: String, paused: bool)
    ensures
        ({
            let fast = command_message(Command::SetSpeed(speed));
            let still = command_message(Command::SetPause(paused));
            &&& fast == "{\"command\": [\"set_property\", \"speed\", "@ + speed@ + "]}"@
            &&& paused ==> still == "{\"command\": [\"set_property\", \"pause\", true]}"@
            &&& !paused ==> still == "{\"command\": [\"set_property\", \"pause\", false]}"@
            &&& command_message(Command::FrameStep) == "{\"command\": [\"frame-step\"]}"@
            &&& command_message(Command::FrameBackStep) == "{\"command\": [\"frame-back-step\"]}"@
        }),
{
    reveal_strlit("{\"command\": [\"set_property\", \"pause\", ");
    reveal_strlit("true");
    reveal_strlit("false");
    reveal_strlit("]}");
    reveal_strlit("{\"command\": [\"set_property\", \"pause\", true]}");
    reveal_strlit("{\"command\": [\"set_property\", \"pause\", false]}");
    let still = command_message(Command::SetPause(paused));
    if paused {
        assert(still =~= "{\"command\": [\"set_property\", \"pause\", true]}"@);
    } else {
        assert(still =~= "{\"command\": [\"set_property\", \"pause\", false]}"@);
    }
}

/// A connection begins with asking to be told of the three properties, under three numbers, and
/// asking what they are now.
pub proof fn connections_begin_with_questions(message: Seq<char>)
    ensures
        opening().len() == 6,
        opening().contains(message) <==> {
            ||| message == "{\"command\": [\"observe_property\", 1, \"speed\"]}"@
            ||| message == "{\"command\": [\"observe_property\", 2, \"pause\"]}"@
            ||| message == "{\"command\": [\"observe_property\", 3, \"estimated-vf-fps\"]}"@
            ||| message == "{\"command\": [\"get_property\", \"speed\"]}"@
            ||| message == "{\"command\": [\"get_property\", \"pause\"]}"@
            ||| message == "{\"command\": [\"get_property\", \"estimated-vf-fps\"]}"@
        },
{
    let all = opening();
    assert(all.contains(all[0]));
    assert(all.contains(all[1]));
    assert(all.contains(all[2]));
    assert(all.contains(all[3]));
    assert(all.contains(all[4]));
    assert(all.contains(all[5]));
}

// ---- connections ----

/// What follows when the connection to the player is over: a player that quit is not waited for;
/// after a failure the connection is made again.
pub fn after_connection(outcome: Outcome) -> (r: Next)
    ensures
        r == match outcome {
            Outcome::Closed => Next::Stop,
            Outcome::Failed => Next::Reconnect { wait_ms: 5000, publish_nobody: true },
            Outcome::Dropped => Next::Stop,
        },
{
    match outcome {
        Outcome::Closed => Next::Stop,
        Outcome::Failed => Next::Reconnect { wait_ms: 5000, publish_nobody: true },
        Outcome::Dropped => Next::Stop,
    }
}

} // verus!
