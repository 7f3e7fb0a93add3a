//! Frames and requests of Discord's RPC.
use crate::double;
use crate::json;
use crate::text;
use vstd::prelude::*;
use vstd::string::*;

verus! {

broadcast use vstd::string::group_string_axioms;

/// The opcode of the first frame of a connection.
pub const OP_HANDSHAKE: u32 = 0;

/// The opcode of every other frame that is read or written.
pub const OP_FRAME: u32 = 1;

// ---- frames ----

/// A 32-bit number as four bytes, the lowest first.
pub open spec fn little_endian(n: int) -> Seq<u8> {
    seq![
        (n % 256) as u8,
        (n / 256 % 256) as u8,
        (n / 65536 % 256) as u8,
        (n / 16777216 % 256) as u8,
    ]
}

/// A frame: the opcode, the length of the payload modulo 2^32, the payload.
pub open spec fn frame(opcode: u32, payload: Seq<u8>) -> Seq<u8> {
    little_endian(opcode as int) + little_endian((payload.len() % 0x1_0000_0000) as int) + payload
}

/// The number that four bytes stand for, the lowest first.
pub open spec fn from_little_endian(b: Seq<u8>) -> int {
    b[0] + b[1] * 256 + b[2] * 65536 + b[3] * 16777216
}

fn push_little_endian(out: &mut Vec<u8>, n: u32)
    ensures
        final(out)@ == old(out)@ + little_endian(n as int),
{
    out.push((n % 256) as u8);
    out.push((n / 256 % 256) as u8);
    out.push((n / 65536 % 256) as u8);
    out.push((n / 16777216 % 256) as u8);
    assert(out@ == old(out)@ + little_endian(n as int));
}

/// The bytes of a frame.
pub fn write_frame(opcode: u32, payload: &Vec<u8>) -> (r: Vec<u8>)
    ensures
        r@ == frame(opcode, payload@),
{
    let mut out: Vec<u8> = Vec::new();
    push_little_endian(&mut out, opcode);
    let length: u64 = payload.len() as u64 % 0x1_0000_0000;
    push_little_endian(&mut out, length as u32);
    out.extend_from_slice(payload.as_slice());
    assert(out@ == frame(opcode, payload@));
    out
}

fn read_little_endian(b: &[u8], at: usize) -> (r: u32)
    requires
        at + 4 <= b@.len(),
    ensures
        r == from_little_endian(b@.subrange(at as int, at + 4)),
{
    let n: usize = b.len();
    b[at] as u32 + b[at + 1] as u32 * 256 + b[at + 2] as u32 * 65536 + b[at + 3] as u32 * 16777216
}

/// The opcode and the length of the payload that a frame's first eight bytes announce.
pub fn read_frame_header(header: &[u8; 8]) -> (r: (u32, u32))
    ensures
        r.0 == from_little_endian(header@.subrange(0, 4)),
        r.1 == from_little_endian(header@.subrange(4, 8)),
{
    let b: &[u8] = header;
    (read_little_endian(b, 0), read_little_endian(b, 4))
}

proof fn lemma_little_endian(n: int)
    requires
        0 <= n < 0x1_0000_0000,
    ensures
        from_little_endian(little_endian(n)) == n,
{
}

/// What a frame announces is what it was written with: the opcode, and the length of the payload
/// that follows the first eight bytes.
pub proof fn frame_reads_back(opcode: u32, payload: Seq<u8>)
    requires
        payload.len() < 0x1_0000_0000,
    ensures
        from_little_endian(frame(opcode, payload).subrange(0, 4)) == opcode,
        from_little_endian(frame(opcode, payload).subrange(4, 8)) == payload.len(),
        frame(opcode, payload).skip(8) == payload,
{
    let f = frame(opcode, payload);
    lemma_little_endian(opcode as int);
    lemma_little_endian(payload.len() as int);
    assert(f.subrange(0, 4) == little_endian(opcode as int));
    assert(f.subrange(4, 8) == little_endian(payload.len() as int));
    assert(f.skip(8) == payload);
}

// ---- requests ----

/// The events that a client can subscribe to.
#[derive(Debug, Clone, Copy, PartialEq, Eq, Structural)]
pub enum VoiceEvent {
    /// The user chose another voice channel, or left.
    ChannelSelect,
    /// A member of the channel changed.
    StateUpdate,
    /// A member joined the channel.
    StateCreate,
    /// A member left the channel.
    StateDelete,
}

impl VoiceEvent {
    /// The name of the event on the wire.
    pub open spec fn spec_name(self) -> Seq<char> {
        match self {
            VoiceEvent::ChannelSelect => "VOICE_CHANNEL_SELECT"@,
            VoiceEvent::StateUpdate => "VOICE_STATE_UPDATE"@,
            VoiceEvent::StateCreate => "VOICE_STATE_CREATE"@,
            VoiceEvent::StateDelete => "VOICE_STATE_DELETE"@,
        }
    }

    /// The name of the event on the wire.
    pub fn name(self) -> (r: &'static str)
        ensures
            r@ == self.spec_name(),
    {
        match self {
            VoiceEvent::ChannelSelect => "VOICE_CHANNEL_SELECT",
            VoiceEvent::StateUpdate => "VOICE_STATE_UPDATE",
            VoiceEvent::StateCreate => "VOICE_STATE_CREATE",
            VoiceEvent::StateDelete => "VOICE_STATE_DELETE",
        }
    }
}

/// A request to Discord.
#[allow(inconsistent_fields)]
pub enum Request {
    /// Asks for an event, of one channel where one is named.
    Subscribe { event: VoiceEvent, channel_id: Option<String> },
    /// Asks for an event no longer.
    Unsubscribe { event: VoiceEvent, channel_id: String },
    /// Asks for the channel that the user is in, and for its members.
    GetSelectedVoiceChannel,
    /// Sets how loud a member is heard.
    SetVolume { user_id: String, volume: u16 },
    /// Mutes a member, or hears them again.
    SetMute { user_id: String, muted: bool },
    /// Presents an access token.
    Authenticate { access_token: String },
    /// Asks the user to let the client in.
    Authorize { client_id: String },
}

/// A request, with its texts as sequences of characters.
#[allow(inconsistent_fields)]
pub enum RequestView {
    Subscribe { event: VoiceEvent, channel_id: Option<Seq<char>> },
    Unsubscribe { event: VoiceEvent, channel_id: Seq<char> },
    GetSelectedVoiceChannel,
    SetVolume { user_id: Seq<char>, volume: u16 },
    SetMute { user_id: Seq<char>, muted: bool },
    Authenticate { access_token: Seq<char> },
    Authorize { client_id: Seq<char> },
}

impl View for Request {
    type V = RequestView;

    open spec fn view(&self) -> RequestView {
        match *self {
            Request::Subscribe { event, channel_id } => RequestView::Subscribe {
                event,
                channel_id: text::option_text(channel_id),
            },
            Request::Unsubscribe { event, channel_id } => RequestView::Unsubscribe {
                event,
                channel_id: channel_id@,
            },
            Request::GetSelectedVoiceChannel => RequestView::GetSelectedVoiceChannel,
            Request::SetVolume { user_id, volume } => RequestView::SetVolume {
                user_id: user_id@,
                volume,
            },
            Request::SetMute { user_id, muted } => RequestView::SetMute { user_id: user_id@, muted },
            Request::Authenticate { access_token } => RequestView::Authenticate {
                access_token: access_token@,
            },
            Request::Authorize { client_id } => RequestView::Authorize { client_id: client_id@ },
        }
    }
}

/// The name of the command that a request is sent as.
pub open spec fn request_command(r: RequestView) -> Seq<char> {
    match r {
        RequestView::Subscribe { .. } => "SUBSCRIBE"@,
        RequestView::Unsubscribe { .. } => "UNSUBSCRIBE"@,
        RequestView::GetSelectedVoiceChannel => "GET_SELECTED_VOICE_CHANNEL"@,
        RequestView::SetVolume { .. } => "SET_USER_VOICE_SETTINGS"@,
        RequestView::SetMute { .. } => "SET_USER_VOICE_SETTINGS"@,
        RequestView::Authenticate { .. } => "AUTHENTICATE"@,
        RequestView::Authorize { .. } => "AUTHORIZE"@,
    }
}

/// The event that a request names.
pub open spec fn request_event(r: RequestView) -> Option<Seq<char>> {
    match r {
        RequestView::Subscribe { event, .. } => Some(event.spec_name()),
        RequestView::Unsubscribe { event, .. } => Some(event.spec_name()),
        _ => None,
    }
}

/// An object with one string in it.
pub open spec fn string_member(key: Seq<char>, value: Seq<char>) -> Map<Seq<char>, json::JsonNode> {
    json::with_member(
        json::leaf(json::JsonNode::Object),
        key,
        json::leaf(json::JsonNode::Text(value)),
    )
}

/// What the client asks to be allowed.
pub open spec fn scopes() -> Seq<Seq<char>> {
    seq!["rpc"@, "rpc.voice.read"@, "rpc.voice.write"@]
}

/// The arguments of a request.
pub open spec fn request_args(r: RequestView) -> Map<Seq<char>, json::JsonNode> {
    match r {
        RequestView::Subscribe { channel_id: Some(id), .. } => string_member("channel_id"@, id),
        RequestView::Unsubscribe { channel_id, .. } => string_member("channel_id"@, channel_id),
        RequestView::SetVolume { user_id, volume } => json::with_member(
            string_member("user_id"@, user_id),
            "volume"@,
            json::leaf(json::JsonNode::Number(double::of_whole(volume as nat))),
        ),
        RequestView::SetMute { user_id, muted } => json::with_member(
            string_member("user_id"@, user_id),
            "mute"@,
            json::leaf(json::JsonNode::Bool(muted)),
        ),
        RequestView::Authenticate { access_token } => string_member("access_token"@, access_token),
        RequestView::Authorize { client_id } => json::with_member(
            string_member("client_id"@, client_id),
            "scopes"@,
            json::text_items(scopes()),
        ),
        _ => json::leaf(json::JsonNode::Object),
    }
}

/// The message that a request is sent as: the command, its arguments, the nonce, and the event
/// where there is one.
pub open spec fn request_message(r: RequestView, nonce: Seq<char>) -> Map<Seq<char>, json::JsonNode> {
    let plain = json::with_member(
        json::with_member(string_member("cmd"@, request_command(r)), "args"@, request_args(r)),
        "nonce"@,
        json::leaf(json::JsonNode::Text(nonce)),
    );
    match request_event(r) {
        Some(event) => json::with_member(
            plain,
            "evt"@,
            json::leaf(json::JsonNode::Text(event)),
        ),
        None => plain,
    }
}

/// A member key that stands in pointers as it is, no longer than twelve characters.
spec fn is_short_key(key: Seq<char>) -> bool {
    json::is_plain_key(key) && key.len() <= 12
}

/// Whether a value is an object that stays printable when it becomes an argument.
spec fn is_small_object(doc: Map<Seq<char>, json::JsonNode>, n: int) -> bool {
    &&& doc.contains_key(Seq::empty())
    &&& doc[Seq::empty()] is Object
    &&& json::is_printable(doc)
    &&& json::pointers_below(doc, n)
}

fn put_string(object: &mut serde_json::Value, key: &str, value: &str, Ghost(n): Ghost<int>)
    requires
        is_small_object(json::json_nodes(*old(object)), n),
        is_short_key(key@),
        14 <= n <= 100,
    ensures
        json::json_nodes(*final(object)) == json::with_member(
            json::json_nodes(*old(object)),
            key@,
            json::leaf(json::JsonNode::Text(value@)),
        ),
        is_small_object(json::json_nodes(*final(object)), n),
{
    let child = json::string(value);
    proof {
        json::leaf_prints(json::JsonNode::Text(value@));
        json::member_prints(
            json::json_nodes(*object),
            key@,
            json::leaf(json::JsonNode::Text(value@)),
            n,
            1,
        );
    }
    json::put(object, key, child);
}

fn new_object(Ghost(n): Ghost<int>) -> (r: serde_json::Value)
    requires
        1 <= n,
    ensures
        json::json_nodes(r) == json::leaf(json::JsonNode::Object),
        is_small_object(json::json_nodes(r), n),
{
    proof {
        json::leaf_prints(json::JsonNode::Object);
    }
    json::object()
}

proof fn keys_are_short()
    ensures
        is_short_key("channel_id"@),
        is_short_key("user_id"@),
        is_short_key("volume"@),
        is_short_key("mute"@),
        is_short_key("access_token"@),
        is_short_key("client_id"@),
        is_short_key("scopes"@),
        is_short_key("cmd"@),
        is_short_key("args"@),
        is_short_key("nonce"@),
        is_short_key("evt"@),
        is_short_key("v"@),
        "args"@.len() == 4,
        "scopes"@.len() == 6,
{
    reveal_strlit("channel_id");
    reveal_strlit("user_id");
    reveal_strlit("volume");
    reveal_strlit("mute");
    reveal_strlit("access_token");
    reveal_strlit("client_id");
    reveal_strlit("scopes");
    reveal_strlit("cmd");
    reveal_strlit("args");
    reveal_strlit("nonce");
    reveal_strlit("evt");
    reveal_strlit("v");
}

impl Request {
    fn command(&self) -> (r: &'static str)
        ensures
            r@ == request_command(self@),
    {
        match self {
            Request::Subscribe { .. } => "SUBSCRIBE",
            Request::Unsubscribe { .. } => "UNSUBSCRIBE",
            Request::GetSelectedVoiceChannel => "GET_SELECTED_VOICE_CHANNEL",
            Request::SetVolume { .. } => "SET_USER_VOICE_SETTINGS",
            Request::SetMute { .. } => "SET_USER_VOICE_SETTINGS",
            Request::Authenticate { .. } => "AUTHENTICATE",
            Request::Authorize { .. } => "AUTHORIZE",
        }
    }

    fn event(&self) -> (r: Option<&'static str>)
        ensures
            match r {
                Some(e) => request_event(self@) == Some(e@),
                None => request_event(self@) is None,
            },
    {
        match self {
            Request::Subscribe { event, .. } => Some(event.name()),
            Request::Unsubscribe { event, .. } => Some(event.name()),
            _ => None,
        }
    }

    fn args(&self) -> (r: serde_json::Value)
        ensures
            json::json_nodes(r) == request_args(self@),
            is_small_object(json::json_nodes(r), 20),
    {
        proof {
            keys_are_short();
        }
        let mut args = new_object(Ghost(20));
        match self {
            Request::Subscribe { channel_id, .. } => {
                if let Some(id) = channel_id {
                    put_string(&mut args, "channel_id", id.as_str(), Ghost(20));
                }
            },
            Request::Unsubscribe { channel_id, .. } => {
                put_string(&mut args, "channel_id", channel_id.as_str(), Ghost(20));
            },
            Request::GetSelectedVoiceChannel => {},
            Request::SetVolume { user_id, volume } => {
                put_string(&mut args, "user_id", user_id.as_str(), Ghost(20));
                let child = json::whole(*volume);
                proof {
                    json::whole_prints(*volume as nat);
                    json::member_prints(
                        json::json_nodes(args),
                        "volume"@,
                        json::json_nodes(child),
                        20,
                        1,
                    );
                }
                json::put(&mut args, "volume", child);
            },
            Request::SetMute { user_id, muted } => {
                put_string(&mut args, "user_id", user_id.as_str(), Ghost(20));
                let child = json::truth(*muted);
                proof {
                    json::leaf_prints(json::JsonNode::Bool(*muted));
                    json::member_prints(
                        json::json_nodes(args),
                        "mute"@,
                        json::json_nodes(child),
                        20,
                        1,
                    );
                }
                json::put(&mut args, "mute", child);
            },
            Request::Authenticate { access_token } => {
                put_string(&mut args, "access_token", access_token.as_str(), Ghost(20));
            },
            Request::Authorize { client_id } => {
                put_string(&mut args, "client_id", client_id.as_str(), Ghost(20));
                let mut list: Vec<String> = Vec::new();
                list.push("rpc".to_string());
                list.push("rpc.voice.read".to_string());
                list.push("rpc.voice.write".to_string());
                assert(text::texts(list@) == scopes());
                let child = json::text_list(list);
                proof {
                    json::text_items_print(scopes());
                    json::member_prints(
                        json::json_nodes(args),
                        "scopes"@,
                        json::json_nodes(child),
                        20,
                        3,
                    );
                }
                json::put(&mut args, "scopes", child);
            },
        }
        args
    }
}

fn printed(value: &serde_json::Value) -> (r: Vec<u8>)
    requires
        json::is_printable(json::json_nodes(*value)),
    ensures
        json::json_document(r@) == Some(json::json_nodes(*value)),
{
    json::print(value).unwrap()
}

/// The payload of a request: the JSON text of its message.
pub fn request_payload(request: &Request, nonce: &str) -> (r: Vec<u8>)
    ensures
        json::json_document(r@) == Some(request_message(request@, nonce@)),
{
    proof {
        keys_are_short();
    }
    let mut message = new_object(Ghost(40));
    put_string(&mut message, "cmd", request.command(), Ghost(40));
    let args = request.args();
    proof {
        json::member_prints(json::json_nodes(message), "args"@, json::json_nodes(args), 40, 20);
    }
    json::put(&mut message, "args", args);
    put_string(&mut message, "nonce", nonce, Ghost(40));
    if let Some(event) = request.event() {
        put_string(&mut message, "evt", event, Ghost(40));
    }
    printed(&message)
}

/// The source of nonces, which tell the requests of one process apart.
pub struct Nonces {
    /// The next nonce to be given out.
    pub next: u64,
}

impl Nonces {
    /// A source that starts at 1.
    pub fn new() -> (r: Nonces)
        ensures
            r.next == 1,
    {
        Nonces { next: 1 }
    }

    /// The next nonce, in decimal. After 2^64 nonces they start over.
    pub fn next_nonce(&mut self) -> (r: String)
        ensures
            r@ == text::decimal(old(self).next as nat),
            final(self).next as int == (old(self).next + 1) % 0x1_0000_0000_0000_0000,
    {
        let n: u64 = self.next;
        self.next = n.wrapping_add(1);
        text::decimal_text(n)
    }
}

/// The bytes to send for a request: a frame whose payload is the message, under the next nonce.
pub fn send_rpc(request: &Request, nonces: &mut Nonces) -> (r: Vec<u8>)
    ensures
        r@.len() >= 8,
        r@ == frame(OP_FRAME, r@.skip(8)),
        json::json_document(r@.skip(8)) == Some(
            request_message(request@, text::decimal(old(nonces).next as nat)),
        ),
        final(nonces).next as int == (old(nonces).next + 1) % 0x1_0000_0000_0000_0000,
{
    let nonce = nonces.next_nonce();
    let payload = request_payload(request, nonce.as_str());
    let r = write_frame(OP_FRAME, &payload);
    assert(r@.skip(8) == payload@);
    r
}

/// What a connection is opened with: the version of the protocol and the client.
pub open spec fn handshake_message(client_id: Seq<char>) -> Map<Seq<char>, json::JsonNode> {
    json::with_member(
        string_member("client_id"@, client_id),
        "v"@,
        json::leaf(json::JsonNode::Number(double::of_whole(1))),
    )
}

/// The bytes that a connection is opened with.
pub fn handshake(client_id: &str) -> (r: Vec<u8>)
    ensures
        r@.len() >= 8,
        r@ == frame(OP_HANDSHAKE, r@.skip(8)),
        json::json_document(r@.skip(8)) == Some(handshake_message(client_id@)),
{
    proof {
        keys_are_short();
    }
    let mut message = new_object(Ghost(20));
    put_string(&mut message, "client_id", client_id, Ghost(20));
    let child = json::whole(1);
    proof {
        json::whole_prints(1);
        json::member_prints(json::json_nodes(message), "v"@, json::json_nodes(child), 20, 1);
    }
    json::put(&mut message, "v", child);
    let payload = printed(&message);
    let r = write_frame(OP_HANDSHAKE, &payload);
    assert(r@.skip(8) == payload@);
    r
}

// ---- what the other side reads ----

proof fn lemma_member(
    parent: Map<Seq<char>, json::JsonNode>,
    key: Seq<char>,
    child: Map<Seq<char>, json::JsonNode>,
    pointer: Seq<char>,
)
    requires
        pointer == seq!['/'] + key,
    ensures
        json::with_member(parent, key, child).contains_key(pointer) == child.contains_key(
            Seq::empty(),
        ),
        child.contains_key(Seq::empty()) ==> json::with_member(parent, key, child)[pointer]
            == child[Seq::empty()],
{
    json::member_reads_back(parent, key, child, Seq::empty());
    assert(seq!['/'] + key + Seq::<char>::empty() == pointer);
}

proof fn lemma_keys_apart()
    ensures
        "/cmd"@ == seq!['/'] + "cmd"@,
        "/nonce"@ == seq!['/'] + "nonce"@,
        "/evt"@ == seq!['/'] + "evt"@,
        !json::leads_into("/cmd"@, "args"@),
        !json::leads_into("/cmd"@, "nonce"@),
        !json::leads_into("/cmd"@, "evt"@),
        !json::leads_into("/nonce"@, "evt"@),
        !json::leads_into("/evt"@, "cmd"@),
        !json::leads_into("/evt"@, "args"@),
        !json::leads_into("/evt"@, "nonce"@),
{
    reveal_strlit("cmd");
    reveal_strlit("args");
    reveal_strlit("nonce");
    reveal_strlit("evt");
    reveal_strlit("/cmd");
    reveal_strlit("/nonce");
    reveal_strlit("/evt");
    assert("/cmd"@ =~= seq!['/'] + "cmd"@);
    assert("/nonce"@ =~= seq!['/'] + "nonce"@);
    assert("/evt"@ =~= seq!['/'] + "evt"@);
    assert("/cmd"@.take(4)[1] != (seq!['/'] + "evt"@)[1]);
    assert("/nonce"@.take(4)[1] != (seq!['/'] + "evt"@)[1]);
    assert("/evt"@.take(4)[1] != (seq!['/'] + "cmd"@)[1]);
}

/// Whoever reads a request finds its command, its nonce, and its event exactly where it has one.
pub proof fn requests_read_back(r: RequestView, nonce: Seq<char>)
    ensures
        json::text_at(request_message(r, nonce), "/cmd"@) == Some(request_command(r)),
        json::text_at(request_message(r, nonce), "/nonce"@) == Some(nonce),
        json::text_at(request_message(r, nonce), "/evt"@) == request_event(r),
{
    lemma_keys_apart();
    let object = json::leaf(json::JsonNode::Object);
    let cmd = json::leaf(json::JsonNode::Text(request_command(r)));
    let first = string_member("cmd"@, request_command(r));
    let second = json::with_member(first, "args"@, request_args(r));
    let nonce_leaf = json::leaf(json::JsonNode::Text(nonce));
    let plain = json::with_member(second, "nonce"@, nonce_leaf);
    lemma_member(object, "cmd"@, cmd, "/cmd"@);
    lemma_member(second, "nonce"@, nonce_leaf, "/nonce"@);
    json::other_members_stay(first, "args"@, request_args(r), "/cmd"@);
    json::other_members_stay(second, "nonce"@, nonce_leaf, "/cmd"@);
    json::other_members_stay(object, "cmd"@, cmd, "/evt"@);
    json::other_members_stay(first, "args"@, request_args(r), "/evt"@);
    json::other_members_stay(second, "nonce"@, nonce_leaf, "/evt"@);
    if let Some(event) = request_event(r) {
        let leaf = json::leaf(json::JsonNode::Text(event));
        lemma_member(plain, "evt"@, leaf, "/evt"@);
        json::other_members_stay(plain, "evt"@, leaf, "/cmd"@);
        json::other_members_stay(plain, "evt"@, leaf, "/nonce"@);
    }
}

/// Whoever reads a request finds its arguments under `/args`, as they were given.
pub proof fn arguments_read_back(r: RequestView, nonce: Seq<char>, rest: Seq<char>)
    requires
        rest.len() == 0 || rest[0] == '/',
    ensures
        ({
            let message = request_message(r, nonce);
            let pointer = "/args"@ + rest;
            &&& message.contains_key(pointer) == request_args(r).contains_key(rest)
            &&& request_args(r).contains_key(rest) ==> message[pointer] == request_args(r)[rest]
        }),
{
    reveal_strlit("/args");
    reveal_strlit("args");
    reveal_strlit("nonce");
    reveal_strlit("evt");
    let pointer = "/args"@ + rest;
    assert("/args"@ =~= seq!['/'] + "args"@);
    let first = string_member("cmd"@, request_command(r));
    let second = json::with_member(first, "args"@, request_args(r));
    let nonce_leaf = json::leaf(json::JsonNode::Text(nonce));
    let plain = json::with_member(second, "nonce"@, nonce_leaf);
    json::member_reads_back(first, "args"@, request_args(r), rest);
    assert(!json::leads_into(pointer, "nonce"@)) by {
        if json::leads_into(pointer, "nonce"@) {
            assert(pointer.take(6)[1] == (seq!['/'] + "nonce"@)[1]);
        }
    }
    assert(!json::leads_into(pointer, "evt"@)) by {
        if json::leads_into(pointer, "evt"@) {
            assert(pointer.take(4)[1] == (seq!['/'] + "evt"@)[1]);
        }
    }
    json::other_members_stay(second, "nonce"@, nonce_leaf, pointer);
    if let Some(event) = request_event(r) {
        json::other_members_stay(
            plain,
            "evt"@,
            json::leaf(json::JsonNode::Text(event)),
            pointer,
        );
    }
}

proof fn lemma_argument(
    r: RequestView,
    nonce: Seq<char>,
    rest: Seq<char>,
    pointer: Seq<char>,
    node: json::JsonNode,
)
    requires
        rest.len() > 0,
        rest[0] == '/',
        pointer == "/args"@ + rest,
        request_args(r).contains_key(rest),
        request_args(r)[rest] == node,
    ensures
        request_message(r, nonce).contains_key(pointer),
        request_message(r, nonce)[pointer] == node,
{
    arguments_read_back(r, nonce, rest);
}

proof fn lemma_pointers()
    ensures
        "/channel_id"@ == seq!['/'] + "channel_id"@,
        "/user_id"@ == seq!['/'] + "user_id"@,
        "/volume"@ == seq!['/'] + "volume"@,
        "/mute"@ == seq!['/'] + "mute"@,
        "/access_token"@ == seq!['/'] + "access_token"@,
        "/client_id"@ == seq!['/'] + "client_id"@,
        "/scopes"@ == seq!['/'] + "scopes"@,
        "/v"@ == seq!['/'] + "v"@,
        "/args/channel_id"@ == "/args"@ + "/channel_id"@,
        "/args/user_id"@ == "/args"@ + "/user_id"@,
        "/args/volume"@ == "/args"@ + "/volume"@,
        "/args/mute"@ == "/args"@ + "/mute"@,
        "/args/access_token"@ == "/args"@ + "/access_token"@,
        "/args/client_id"@ == "/args"@ + "/client_id"@,
        "/args/scopes"@ == "/args"@ + "/scopes"@,
        !json::leads_into("/user_id"@, "volume"@),
        !json::leads_into("/user_id"@, "mute"@),
        !json::leads_into("/client_id"@, "scopes"@),
        !json::leads_into("/client_id"@, "v"@),
{
    reveal_strlit("channel_id");
    reveal_strlit("user_id");
    reveal_strlit("volume");
    reveal_strlit("mute");
    reveal_strlit("access_token");
    reveal_strlit("client_id");
    reveal_strlit("scopes");
    reveal_strlit("v");
    reveal_strlit("/channel_id");
    reveal_strlit("/user_id");
    reveal_strlit("/volume");
    reveal_strlit("/mute");
    reveal_strlit("/access_token");
    reveal_strlit("/client_id");
    reveal_strlit("/scopes");
    reveal_strlit("/v");
    reveal_strlit("/args");
    reveal_strlit("/args/channel_id");
    reveal_strlit("/args/user_id");
    reveal_strlit("/args/volume");
    reveal_strlit("/args/mute");
    reveal_strlit("/args/access_token");
    reveal_strlit("/args/client_id");
    reveal_strlit("/args/scopes");
    assert("/channel_id"@ =~= seq!['/'] + "channel_id"@);
    assert("/user_id"@ =~= seq!['/'] + "user_id"@);
    assert("/volume"@ =~= seq!['/'] + "volume"@);
    assert("/mute"@ =~= seq!['/'] + "mute"@);
    assert("/access_token"@ =~= seq!['/'] + "access_token"@);
    assert("/client_id"@ =~= seq!['/'] + "client_id"@);
    assert("/scopes"@ =~= seq!['/'] + "scopes"@);
    assert("/v"@ =~= seq!['/'] + "v"@);
    assert("/args/channel_id"@ =~= "/args"@ + "/channel_id"@);
    assert("/args/user_id"@ =~= "/args"@ + "/user_id"@);
    assert("/args/volume"@ =~= "/args"@ + "/volume"@);
    assert("/args/mute"@ =~= "/args"@ + "/mute"@);
    assert("/args/access_token"@ =~= "/args"@ + "/access_token"@);
    assert("/args/client_id"@ =~= "/args"@ + "/client_id"@);
    assert("/args/scopes"@ =~= "/args"@ + "/scopes"@);
    assert("/user_id"@.take(7)[1] != (seq!['/'] + "volume"@)[1]);
    assert("/user_id"@.take(5)[1] != (seq!['/'] + "mute"@)[1]);
    assert("/client_id"@.take(7)[1] != (seq!['/'] + "scopes"@)[1]);
    assert("/client_id"@.take(2)[1] != (seq!['/'] + "v"@)[1]);
}

proof fn lemma_pair(
    key: Seq<char>,
    value: Seq<char>,
    second: Seq<char>,
    child: Map<Seq<char>, json::JsonNode>,
    at: Seq<char>,
    at_second: Seq<char>,
)
    requires
        at == seq!['/'] + key,
        at_second == seq!['/'] + second,
        !json::leads_into(at, second),
        child.contains_key(Seq::empty()),
    ensures
        ({
            let object = json::with_member(string_member(key, value), second, child);
            &&& object.contains_key(at)
            &&& object[at] == json::JsonNode::Text(value)
            &&& object.contains_key(at_second)
            &&& object[at_second] == child[Seq::empty()]
        }),
{
    let first = string_member(key, value);
    lemma_member(
        json::leaf(json::JsonNode::Object),
        key,
        json::leaf(json::JsonNode::Text(value)),
        at,
    );
    json::other_members_stay(first, second, child, at);
    lemma_member(first, second, child, at_second);
}

/// Whoever reads a request finds what it asks for: which command it is, the event and the channel
/// that it is about, the user and the volume or the mute state, the token, or the client that wants to
/// be let in. A request that names no event or no channel has none.
pub proof fn requests_say_what_they_ask(r: RequestView, nonce: Seq<char>)
    ensures
        ({
            let m = request_message(r, nonce);
            let cmd = json::text_at(m, "/cmd"@);
            let evt = json::text_at(m, "/evt"@);
            match r {
                RequestView::Subscribe { event, channel_id } => {
                    &&& cmd == Some("SUBSCRIBE"@)
                    &&& evt == Some(event.spec_name())
                    &&& channel_id is Some ==> json::text_at(m, "/args/channel_id"@) == channel_id
                },
                RequestView::Unsubscribe { event, channel_id } => {
                    &&& cmd == Some("UNSUBSCRIBE"@)
                    &&& evt == Some(event.spec_name())
                    &&& json::text_at(m, "/args/channel_id"@) == Some(channel_id)
                },
                RequestView::GetSelectedVoiceChannel => {
                    &&& cmd == Some("GET_SELECTED_VOICE_CHANNEL"@)
                    &&& evt is None
                },
                RequestView::SetVolume { user_id, volume } => {
                    &&& cmd == Some("SET_USER_VOICE_SETTINGS"@)
                    &&& evt is None
                    &&& json::text_at(m, "/args/user_id"@) == Some(user_id)
                    &&& json::number_at(m, "/args/volume"@) is Some
                    &&& double::equals(
                        json::number_at(m, "/args/volume"@).unwrap(),
                        volume as nat,
                    )
                },
                RequestView::SetMute { user_id, muted } => {
                    &&& cmd == Some("SET_USER_VOICE_SETTINGS"@)
                    &&& evt is None
                    &&& json::text_at(m, "/args/user_id"@) == Some(user_id)
                    &&& json::bool_at(m, "/args/mute"@) == Some(muted)
                },
                RequestView::Authenticate { access_token } => {
                    &&& cmd == Some("AUTHENTICATE"@)
                    &&& evt is None
                    &&& json::text_at(m, "/args/access_token"@) == Some(access_token)
                },
                RequestView::Authorize { client_id } => {
                    &&& cmd == Some("AUTHORIZE"@)
                    &&& evt is None
                    &&& json::text_at(m, "/args/client_id"@) == Some(client_id)
                    &&& json::length_at(m, "/args/scopes"@) == Some(3nat)
                },
            }
        }),
{
    requests_read_back(r, nonce);
    lemma_pointers();
    match r {
        RequestView::Subscribe { channel_id, .. } => {
            if let Some(id) = channel_id {
                let leaf = json::leaf(json::JsonNode::Text(id));
                lemma_member(json::leaf(json::JsonNode::Object), "channel_id"@, leaf, "/channel_id"@);
                lemma_argument(
                    r,
                    nonce,
                    "/channel_id"@,
                    "/args/channel_id"@,
                    json::JsonNode::Text(id),
                );
            }
        },
        RequestView::Unsubscribe { channel_id, .. } => {
            let leaf = json::leaf(json::JsonNode::Text(channel_id));
            lemma_member(json::leaf(json::JsonNode::Object), "channel_id"@, leaf, "/channel_id"@);
            lemma_argument(
                r,
                nonce,
                "/channel_id"@,
                "/args/channel_id"@,
                json::JsonNode::Text(channel_id),
            );
        },
        RequestView::GetSelectedVoiceChannel => {},
        RequestView::SetVolume { user_id, volume } => {
            let node = json::JsonNode::Number(double::of_whole(volume as nat));
            double::of_whole_is_exact(volume as nat);
            lemma_pair(
                "user_id"@,
                user_id,
                "volume"@,
                json::leaf(node),
                "/user_id"@,
                "/volume"@,
            );
            lemma_argument(r, nonce, "/user_id"@, "/args/user_id"@, json::JsonNode::Text(user_id));
            lemma_argument(r, nonce, "/volume"@, "/args/volume"@, node);
        },
        RequestView::SetMute { user_id, muted } => {
            let node = json::JsonNode::Bool(muted);
            lemma_pair("user_id"@, user_id, "mute"@, json::leaf(node), "/user_id"@, "/mute"@);
            lemma_argument(r, nonce, "/user_id"@, "/args/user_id"@, json::JsonNode::Text(user_id));
            lemma_argument(r, nonce, "/mute"@, "/args/mute"@, node);
        },
        RequestView::Authenticate { access_token } => {
            let leaf = json::leaf(json::JsonNode::Text(access_token));
            lemma_member(
                json::leaf(json::JsonNode::Object),
                "access_token"@,
                leaf,
                "/access_token"@,
            );
            lemma_argument(
                r,
                nonce,
                "/access_token"@,
                "/args/access_token"@,
                json::JsonNode::Text(access_token),
            );
        },
        RequestView::Authorize { client_id } => {
            lemma_pair(
                "client_id"@,
                client_id,
                "scopes"@,
                json::text_items(scopes()),
                "/client_id"@,
                "/scopes"@,
            );
            lemma_argument(
                r,
                nonce,
                "/client_id"@,
                "/args/client_id"@,
                json::JsonNode::Text(client_id),
            );
            lemma_argument(r, nonce, "/scopes"@, "/args/scopes"@, json::JsonNode::Array(3));
        },
    }
}

/// A client asks to use the connection, to see the voice settings and to change them, and for
/// nothing else.
pub proof fn clients_ask_for_voice_only(scope: Seq<char>)
    ensures
        scopes().contains(scope) <==> scope == "rpc"@ || scope == "rpc.voice.read"@ || scope
            == "rpc.voice.write"@,
{
    assert(scopes()[0] == "rpc"@);
    assert(scopes()[1] == "rpc.voice.read"@);
    assert(scopes()[2] == "rpc.voice.write"@);
}

/// Each event has the name that Discord has for it.
pub proof fn events_have_their_names(event: VoiceEvent)
    ensures
        event is ChannelSelect ==> event.spec_name() == "VOICE_CHANNEL_SELECT"@,
        event is StateUpdate ==> event.spec_name() == "VOICE_STATE_UPDATE"@,
        event is StateCreate ==> event.spec_name() == "VOICE_STATE_CREATE"@,
        event is StateDelete ==> event.spec_name() == "VOICE_STATE_DELETE"@,
{
}

/// A connection is opened with version 1 of the protocol and with the client's id.
pub proof fn handshakes_name_the_client(client_id: Seq<char>)
    ensures
        ({
            let m = handshake_message(client_id);
            &&& json::text_at(m, "/client_id"@) == Some(client_id)
            &&& json::number_at(m, "/v"@) is Some
            &&& double::equals(json::number_at(m, "/v"@).unwrap(), 1)
        }),
{
    lemma_pointers();
    double::of_whole_is_exact(1);
    lemma_pair(
        "client_id"@,
        client_id,
        "v"@,
        json::leaf(json::JsonNode::Number(double::of_whole(1))),
        "/client_id"@,
        "/v"@,
    );
}

/// A frame begins with its opcode and the length of its payload, the lowest byte first.
pub proof fn frames_begin_with_opcode_and_length(opcode: u8, payload: Seq<u8>)
    requires
        payload.len() < 65536,
    ensures
        frame(opcode as u32, payload) == seq![
            opcode,
            0u8,
            0,
            0,
            (payload.len() % 256) as u8,
            (payload.len() / 256) as u8,
            0,
            0,
        ] + payload,
{
    assert(frame(opcode as u32, payload) =~= seq![
        opcode,
        0u8,
        0,
        0,
        (payload.len() % 256) as u8,
        (payload.len() / 256) as u8,
        0,
        0,
    ] + payload);
}

} // verus!
