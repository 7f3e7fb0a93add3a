//! The session that follows one voice channel.
//!
//! It does no input or output of its own: it is given the frames that arrive and answers with
//! what to send and what to publish.
use crate::config;
use crate::config::Config;
use crate::discord::wire;
use crate::discord::wire::{Request, VoiceEvent};
use crate::double;
use crate::json;
use crate::lines::{Next, Outcome};
use crate::midi::DeviceEvent;
use crate::order;
use crate::order::Rank;
use crate::text;
use vstd::prelude::*;
use vstd::string::*;

verus! {

broadcast use vstd::string::group_string_axioms;

// ---- members ----

/// A member of the voice channel.
#[derive(Debug)]
pub struct VoiceMember {
    /// Who it is.
    pub user_id: String,
    /// The name to show.
    pub nick: String,
    /// How loud they are heard, 0 to 200 as Discord counts.
    pub volume: u16,
    /// Whether they are muted.
    pub muted: bool,
}

/// A member, with the texts as sequences of characters.
pub struct VoiceMemberView {
    pub user_id: Seq<char>,
    pub nick: Seq<char>,
    pub volume: u16,
    pub muted: bool,
}

impl View for VoiceMember {
    type V = VoiceMemberView;

    open spec fn view(&self) -> VoiceMemberView {
        VoiceMemberView {
            user_id: self.user_id@,
            nick: self.nick@,
            volume: self.volume,
            muted: self.muted,
        }
    }
}

impl Clone for VoiceMember {
    fn clone(&self) -> (r: Self)
        ensures
            r == *self,
    {
        VoiceMember {
            user_id: self.user_id.clone(),
            nick: self.nick.clone(),
            volume: self.volume,
            muted: self.muted,
        }
    }
}

/// A list of members, by their views.
pub open spec fn member_views(members: Seq<VoiceMember>) -> Seq<VoiceMemberView> {
    members.map_values(|m: VoiceMember| m@)
}

/// The member that the voice state at the pointer `at` describes; `None` where it names no user.
pub open spec fn voice_member(
    doc: Map<Seq<char>, json::JsonNode>,
    at: Seq<char>,
) -> Option<VoiceMemberView> {
    match json::text_at(doc, at + "/user/id"@) {
        None => None,
        Some(user_id) => Some(
            VoiceMemberView {
                user_id,
                nick: match json::text_at(doc, at + "/nick"@) {
                    Some(nick) => nick,
                    None => match json::text_at(doc, at + "/user/username"@) {
                        Some(name) => name,
                        None => "?"@,
                    },
                },
                volume: match json::number_at(doc, at + "/volume"@) {
                    Some(bits) => double::rounded(bits) as u16,
                    None => 100,
                },
                muted: json::bool_at(doc, at + "/mute"@) == Some(true),
            },
        ),
    }
}

/// The members that the first `n` voice states of the array at `at` describe, without the user
/// `self_id`.
pub open spec fn voice_states_upto(
    doc: Map<Seq<char>, json::JsonNode>,
    at: Seq<char>,
    self_id: Seq<char>,
    n: nat,
) -> Seq<VoiceMemberView>
    decreases n,
{
    if n == 0 {
        Seq::empty()
    } else {
        let before = voice_states_upto(doc, at, self_id, (n - 1) as nat);
        match voice_member(doc, at + json::item_pointer((n - 1) as nat)) {
            Some(m) => if m.user_id == self_id {
                before
            } else {
                before.push(m)
            },
            None => before,
        }
    }
}

/// The members that the array of voice states at `at` describes, without the user `self_id`;
/// none where no array stands there.
pub open spec fn voice_states(
    doc: Map<Seq<char>, json::JsonNode>,
    at: Seq<char>,
    self_id: Seq<char>,
) -> Seq<VoiceMemberView> {
    match json::length_at(doc, at) {
        Some(n) => voice_states_upto(doc, at, self_id, n),
        None => Seq::empty(),
    }
}

fn joined(a: &str, b: &str) -> (r: String)
    ensures
        r@ == a@ + b@,
{
    let mut s = a.to_string();
    s.append(b);
    s
}

/// The member that the voice state at the pointer `at` describes.
pub fn parse_voice_member(message: &serde_json::Value, at: &str) -> (r: Option<VoiceMember>)
    ensures
        match r {
            Some(m) => voice_member(json::json_nodes(*message), at@) == Some(m@),
            None => voice_member(json::json_nodes(*message), at@) is None,
        },
{
    let user_id = match json::get_text(message, joined(at, "/user/id").as_str()) {
        Some(id) => id,
        None => {
            return None;
        },
    };
    let nick = match json::get_text(message, joined(at, "/nick").as_str()) {
        Some(nick) => nick,
        None => match json::get_text(message, joined(at, "/user/username").as_str()) {
            Some(name) => name,
            None => "?".to_string(),
        },
    };
    let volume: u16 = match json::get_number(message, joined(at, "/volume").as_str()) {
        Some(bits) => double::round_to_u16(bits),
        None => 100,
    };
    let muted = match json::get_bool(message, joined(at, "/mute").as_str()) {
        Some(b) => b,
        None => false,
    };
    Some(VoiceMember { user_id, nick, volume, muted })
}

/// The members that the array of voice states at `at` describes, without the user `self_id`.
pub fn parse_voice_states(message: &serde_json::Value, at: &str, self_id: &str) -> (r: Vec<
    VoiceMember,
>)
    ensures
        member_views(r@) == voice_states(json::json_nodes(*message), at@, self_id@),
{
    let mut members: Vec<VoiceMember> = Vec::new();
    let count: usize = match json::get_length(message, at) {
        Some(n) => n,
        None => {
            return members;
        },
    };
    let ghost doc = json::json_nodes(*message);
    let mut i: usize = 0;
    while i < count
        invariant
            i <= count,
            doc == json::json_nodes(*message),
            member_views(members@) == voice_states_upto(doc, at@, self_id@, i as nat),
        decreases count - i,
    {
        let mut pointer = joined(at, "/");
        let index = text::decimal_text(i as u64);
        pointer.append(index.as_str());
        proof {
            reveal_strlit("/");
            assert(pointer@ == at@ + json::item_pointer(i as nat));
        }
        if let Some(m) = parse_voice_member(message, pointer.as_str()) {
            if !text::same_text(m.user_id.as_str(), self_id) {
                let ghost before = members@;
                members.push(m);
                assert(member_views(members@) == member_views(before).push(m@));
            }
        }
        i += 1;
    }
    members
}

/// What decides about a member's place on the device: the priority that is set for the name, and
/// whether they are heard at all.
pub open spec fn rank_of(users: Seq<config::UserOverride>, m: VoiceMemberView) -> Rank {
    Rank {
        priority: config::priority_of(users, m.nick),
        activity: if m.muted {
            1
        } else {
            0
        },
    }
}

/// What decides about the members' places, in the order of the list.
pub open spec fn ranks_of(
    users: Seq<config::UserOverride>,
    members: Seq<VoiceMemberView>,
) -> Seq<Rank> {
    members.map_values(|m: VoiceMemberView| rank_of(users, m))
}

/// The order in which the members appear on the device, by their places in the list.
pub fn device_order(config: &Config, members: &Vec<VoiceMember>) -> (r: Vec<usize>)
    ensures
        order::is_order(ranks_of(config.discord_users@, member_views(members@)), r@),
        r@ == order::the_order(ranks_of(config.discord_users@, member_views(members@))),
        r@.len() == members@.len(),
{
    let mut ranks: Vec<Rank> = Vec::new();
    let mut i: usize = 0;
    while i < members.len()
        invariant
            i <= members@.len(),
            ranks@.len() == i,
            forall|k: int|
                0 <= k < i ==> #[trigger] ranks@[k] == rank_of(
                    config.discord_users@,
                    members@[k]@,
                ),
        decreases members@.len() - i,
    {
        let priority = match config.discord_user(members[i].nick.as_str()) {
            Some(user) => user.priority,
            None => None,
        };
        let activity: u8 = if members[i].muted {
            1
        } else {
            0
        };
        ranks.push(Rank { priority, activity });
        i += 1;
    }
    assert(ranks@ == ranks_of(config.discord_users@, member_views(members@)));
    let r = order::order(&ranks);
    proof {
        order::order_is_complete(ranks@, r@);
    }
    r
}

// ---- the session ----

/// What a session knows: the user that it runs for, the channel that they are in, the others in
/// it.
pub struct Session {
    /// The user that the client is connected as.
    pub self_user_id: String,
    /// The voice channel, if the user is in one.
    pub channel: Option<String>,
    /// The other members of the channel.
    pub members: Vec<VoiceMember>,
}

/// A session, by its views.
#[verifier::ext_equal]
pub struct SessionView {
    pub self_user_id: Seq<char>,
    pub channel: Option<Seq<char>>,
    pub members: Seq<VoiceMemberView>,
}

impl View for Session {
    type V = SessionView;

    open spec fn view(&self) -> SessionView {
        SessionView {
            self_user_id: self.self_user_id@,
            channel: text::option_text(self.channel),
            members: member_views(self.members@),
        }
    }
}

/// What a session asks of whoever runs it.
pub enum Action {
    /// Send a request.
    Send(Request),
    /// Tell the rest of the program who is in the channel.
    Publish(Vec<VoiceMember>),
}

/// An action, by its views.
pub enum ActionView {
    Send(wire::RequestView),
    Publish(Seq<VoiceMemberView>),
}

impl View for Action {
    type V = ActionView;

    open spec fn view(&self) -> ActionView {
        match *self {
            Action::Send(r) => ActionView::Send(r@),
            Action::Publish(m) => ActionView::Publish(member_views(m@)),
        }
    }
}

/// A list of actions, by their views.
pub open spec fn action_views(actions: Seq<Action>) -> Seq<ActionView> {
    actions.map_values(|a: Action| a@)
}

/// Why a frame ends the session.
#[derive(Debug, Clone, Copy, PartialEq, Eq, Structural)]
pub enum FrameError {
    /// The payload is no JSON text.
    Malformed,
}

/// The requests for the three events of a channel.
pub open spec fn subscribe_all(id: Seq<char>) -> Seq<ActionView> {
    seq![
        ActionView::Send(
            wire::RequestView::Subscribe { event: VoiceEvent::StateUpdate, channel_id: Some(id) },
        ),
        ActionView::Send(
            wire::RequestView::Subscribe { event: VoiceEvent::StateCreate, channel_id: Some(id) },
        ),
        ActionView::Send(
            wire::RequestView::Subscribe { event: VoiceEvent::StateDelete, channel_id: Some(id) },
        ),
    ]
}

/// The requests that end the three events of a channel.
pub open spec fn unsubscribe_all(id: Seq<char>) -> Seq<ActionView> {
    seq![
        ActionView::Send(
            wire::RequestView::Unsubscribe { event: VoiceEvent::StateUpdate, channel_id: id },
        ),
        ActionView::Send(
            wire::RequestView::Unsubscribe { event: VoiceEvent::StateCreate, channel_id: id },
        ),
        ActionView::Send(
            wire::RequestView::Unsubscribe { event: VoiceEvent::StateDelete, channel_id: id },
        ),
    ]
}

/// The user goes to another channel, or leaves: the events of the old channel are ended; then
/// the members of the new channel are asked for, or nobody is published.
pub open spec fn after_switch(s: SessionView, new_channel: Option<Seq<char>>) -> (
    SessionView,
    Seq<ActionView>,
) {
    let leaving = match s.channel {
        Some(id) => unsubscribe_all(id),
        None => Seq::empty(),
    };
    match new_channel {
        Some(_) => (
            SessionView { channel: new_channel, ..s },
            leaving.push(ActionView::Send(wire::RequestView::GetSelectedVoiceChannel)),
        ),
        None => (
            SessionView { channel: None, members: Seq::empty(), ..s },
            leaving.push(ActionView::Publish(Seq::empty())),
        ),
    }
}

/// The answer to the question for the selected channel: its events are subscribed to and its
/// members published. Without a channel nothing happens.
pub open spec fn after_selected(s: SessionView, doc: Map<Seq<char>, json::JsonNode>) -> (
    SessionView,
    Seq<ActionView>,
) {
    match json::text_at(doc, "/data/id"@) {
        Some(id) => {
            let members = voice_states(doc, "/data/voice_states"@, s.self_user_id);
            (
                SessionView { channel: Some(id), members, ..s },
                subscribe_all(id).push(ActionView::Publish(members)),
            )
        },
        None => (s, Seq::empty()),
    }
}

/// The user that an event is about; empty where it names none.
pub open spec fn event_user(doc: Map<Seq<char>, json::JsonNode>) -> Seq<char> {
    match json::text_at(doc, "/data/user/id"@) {
        Some(id) => id,
        None => Seq::empty(),
    }
}

/// Whether a user is among the members.
pub open spec fn has_member(members: Seq<VoiceMemberView>, user_id: Seq<char>) -> bool {
    exists|i: int| 0 <= i < members.len() && (#[trigger] members[i]).user_id == user_id
}

/// Somebody joined: they are added at the end, unless they are the user of this session or are
/// there already.
pub open spec fn after_create(s: SessionView, doc: Map<Seq<char>, json::JsonNode>) -> (
    SessionView,
    Seq<ActionView>,
) {
    match voice_member(doc, "/data"@) {
        Some(m) => if event_user(doc) == s.self_user_id || has_member(s.members, m.user_id) {
            (s, Seq::empty())
        } else {
            let members = s.members.push(m);
            (SessionView { members, ..s }, seq![ActionView::Publish(members)])
        },
        None => (s, Seq::empty()),
    }
}

/// The members but for one user.
pub open spec fn without_user(members: Seq<VoiceMemberView>, user_id: Seq<char>) -> Seq<
    VoiceMemberView,
> {
    members.filter(|m: VoiceMemberView| m.user_id != user_id)
}

/// Somebody left: they are taken out, and where that changes anything the members are published.
pub open spec fn after_delete(s: SessionView, doc: Map<Seq<char>, json::JsonNode>) -> (
    SessionView,
    Seq<ActionView>,
) {
    let members = without_user(s.members, event_user(doc));
    (
        SessionView { members, ..s },
        if members.len() != s.members.len() {
            seq![ActionView::Publish(members)]
        } else {
            Seq::empty()
        },
    )
}

/// The place of the first member with the given user, the number of members if there is none.
pub open spec fn position(members: Seq<VoiceMemberView>, user_id: Seq<char>) -> int
    decreases members.len(),
{
    if members.len() == 0 || members[0].user_id == user_id {
        0
    } else {
        1 + position(members.skip(1), user_id)
    }
}

/// A member with the volume and the mute state that an event carries.
pub open spec fn updated_member(m: VoiceMemberView, doc: Map<Seq<char>, json::JsonNode>) -> VoiceMemberView {
    VoiceMemberView {
        volume: match json::number_at(doc, "/data/volume"@) {
            Some(bits) => double::rounded(bits) as u16,
            None => m.volume,
        },
        muted: match json::bool_at(doc, "/data/mute"@) {
            Some(b) => b,
            None => m.muted,
        },
        ..m
    }
}

/// Somebody changed: their volume and mute state are taken over, and where that changes anything
/// the members are published.
pub open spec fn after_update(s: SessionView, doc: Map<Seq<char>, json::JsonNode>) -> (
    SessionView,
    Seq<ActionView>,
) {
    let user_id = event_user(doc);
    let i = position(s.members, user_id);
    if user_id == s.self_user_id || i == s.members.len() || updated_member(s.members[i], doc)
        == s.members[i] {
        (s, Seq::empty())
    } else {
        let members = s.members.update(i, updated_member(s.members[i], doc));
        (SessionView { members, ..s }, seq![ActionView::Publish(members)])
    }
}

/// The text at a pointer, empty where there is none.
pub open spec fn text_or_empty(doc: Map<Seq<char>, json::JsonNode>, pointer: Seq<char>) -> Seq<char> {
    match json::text_at(doc, pointer) {
        Some(t) => t,
        None => Seq::empty(),
    }
}

/// What a message does to a session, and what it makes the session ask for.
pub open spec fn after_message(s: SessionView, doc: Map<Seq<char>, json::JsonNode>) -> (
    SessionView,
    Seq<ActionView>,
) {
    let cmd = text_or_empty(doc, "/cmd"@);
    let evt = text_or_empty(doc, "/evt"@);
    if cmd == "DISPATCH"@ && evt == "VOICE_CHANNEL_SELECT"@ {
        let new_channel = json::text_at(doc, "/data/channel_id"@);
        if new_channel == s.channel {
            (s, Seq::empty())
        } else {
            after_switch(s, new_channel)
        }
    } else if cmd == "GET_SELECTED_VOICE_CHANNEL"@ && evt != "ERROR"@ {
        after_selected(s, doc)
    } else if cmd == "DISPATCH"@ && evt == "VOICE_STATE_CREATE"@ {
        after_create(s, doc)
    } else if cmd == "DISPATCH"@ && evt == "VOICE_STATE_DELETE"@ {
        after_delete(s, doc)
    } else if cmd == "DISPATCH"@ && evt == "VOICE_STATE_UPDATE"@ {
        after_update(s, doc)
    } else {
        (s, Seq::empty())
    }
}

proof fn lemma_position(members: Seq<VoiceMemberView>, user_id: Seq<char>, i: int)
    requires
        0 <= i <= members.len(),
        forall|j: int| 0 <= j < i ==> (#[trigger] members[j]).user_id != user_id,
        i == members.len() || members[i].user_id == user_id,
    ensures
        position(members, user_id) == i,
    decreases i,
{
    if i > 0 {
        assert(members[0].user_id != user_id);
        assert forall|j: int| 0 <= j < i - 1 implies (#[trigger] members.skip(1)[j]).user_id
            != user_id by {
            assert(members.skip(1)[j] == members[j + 1]);
        }
        lemma_position(members.skip(1), user_id, i - 1);
    }
}

fn text_or_default(message: &serde_json::Value, pointer: &str) -> (r: String)
    ensures
        r@ == text_or_empty(json::json_nodes(*message), pointer@),
{
    match json::get_text(message, pointer) {
        Some(t) => t,
        None => String::new(),
    }
}

/// The actions that subscribe to the three events of a channel.
pub fn subscribe_channel_events(channel_id: &str) -> (r: Vec<Action>)
    ensures
        action_views(r@) == subscribe_all(channel_id@),
{
    let mut r: Vec<Action> = Vec::new();
    r.push(
        Action::Send(
            Request::Subscribe {
                event: VoiceEvent::StateUpdate,
                channel_id: Some(channel_id.to_string()),
            },
        ),
    );
    r.push(
        Action::Send(
            Request::Subscribe {
                event: VoiceEvent::StateCreate,
                channel_id: Some(channel_id.to_string()),
            },
        ),
    );
    r.push(
        Action::Send(
            Request::Subscribe {
                event: VoiceEvent::StateDelete,
                channel_id: Some(channel_id.to_string()),
            },
        ),
    );
    assert(action_views(r@) == subscribe_all(channel_id@));
    r
}

/// The actions that end the three events of a channel.
pub fn unsubscribe_channel_events(channel_id: &str) -> (r: Vec<Action>)
    ensures
        action_views(r@) == unsubscribe_all(channel_id@),
{
    let mut r: Vec<Action> = Vec::new();
    r.push(
        Action::Send(
            Request::Unsubscribe {
                event: VoiceEvent::StateUpdate,
                channel_id: channel_id.to_string(),
            },
        ),
    );
    r.push(
        Action::Send(
            Request::Unsubscribe {
                event: VoiceEvent::StateCreate,
                channel_id: channel_id.to_string(),
            },
        ),
    );
    r.push(
        Action::Send(
            Request::Unsubscribe {
                event: VoiceEvent::StateDelete,
                channel_id: channel_id.to_string(),
            },
        ),
    );
    assert(action_views(r@) == unsubscribe_all(channel_id@));
    r
}

fn copied_members(members: &Vec<VoiceMember>) -> (r: Vec<VoiceMember>)
    ensures
        r@ == members@,
{
    let r = members.clone();
    assert(r@ =~= members@);
    r
}

fn push_action(actions: &mut Vec<Action>, action: Action)
    ensures
        action_views(final(actions)@) == action_views(old(actions)@).push(action@),
{
    actions.push(action);
    assert(action_views(actions@) == action_views(old(actions)@).push(action@));
}

fn no_actions() -> (r: Vec<Action>)
    ensures
        action_views(r@) == Seq::<ActionView>::empty(),
{
    let r: Vec<Action> = Vec::new();
    assert(action_views(r@) == Seq::<ActionView>::empty());
    r
}

impl Session {
    /// A session that has just been let in, and its first requests: to be told of channel
    /// changes, and which channel the user is in.
    pub fn start(self_user_id: String) -> (r: (Session, Vec<Action>))
        ensures
            r.0@ == (SessionView {
                self_user_id: self_user_id@,
                channel: None,
                members: Seq::empty(),
            }),
            action_views(r.1@) == seq![
                ActionView::Send(
                    wire::RequestView::Subscribe { event: VoiceEvent::ChannelSelect, channel_id: None },
                ),
                ActionView::Send(wire::RequestView::GetSelectedVoiceChannel),
            ],
    {
        let mut actions = no_actions();
        push_action(
            &mut actions,
            Action::Send(Request::Subscribe { event: VoiceEvent::ChannelSelect, channel_id: None }),
        );
        push_action(&mut actions, Action::Send(Request::GetSelectedVoiceChannel));
        let members: Vec<VoiceMember> = Vec::new();
        assert(member_views(members@) == Seq::<VoiceMemberView>::empty());
        (Session { self_user_id, channel: None, members }, actions)
    }

    /// The user goes to another channel, or leaves.
    pub fn handle_channel_switch(&mut self, new_channel: Option<String>) -> (r: Vec<Action>)
        ensures
            (final(self)@, action_views(r@)) == after_switch(old(self)@, text::option_text(new_channel)),
    {
        let mut actions = match &self.channel {
            Some(id) => unsubscribe_channel_events(id.as_str()),
            None => no_actions(),
        };
        if new_channel.is_some() {
            push_action(&mut actions, Action::Send(Request::GetSelectedVoiceChannel));
        } else {
            let nobody: Vec<VoiceMember> = Vec::new();
            self.members = Vec::new();
            assert(member_views(nobody@) == Seq::<VoiceMemberView>::empty());
            assert(member_views(self.members@) == Seq::<VoiceMemberView>::empty());
            push_action(&mut actions, Action::Publish(nobody));
        }
        self.channel = new_channel;
        actions
    }

    fn selected(&mut self, message: &serde_json::Value) -> (r: Vec<Action>)
        ensures
            (final(self)@, action_views(r@)) == after_selected(
                old(self)@,
                json::json_nodes(*message),
            ),
    {
        match json::get_text(message, "/data/id") {
            Some(id) => {
                self.members =
                parse_voice_states(message, "/data/voice_states", self.self_user_id.as_str());
                let mut actions = subscribe_channel_events(id.as_str());
                push_action(&mut actions, Action::Publish(copied_members(&self.members)));
                self.channel = Some(id);
                actions
            },
            None => no_actions(),
        }
    }

    fn member_index(&self, user_id: &str) -> (r: usize)
        ensures
            r == position(self@.members, user_id@),
            r <= self.members@.len(),
            r < self.members@.len() <==> has_member(self@.members, user_id@),
    {
        let mut i: usize = 0;
        while i < self.members.len()
            invariant
                i <= self.members@.len(),
                forall|j: int|
                    0 <= j < i ==> (#[trigger] self@.members[j]).user_id != user_id@,
            decreases self.members@.len() - i,
        {
            if text::same_text(self.members[i].user_id.as_str(), user_id) {
                proof {
                    assert(self@.members[i as int].user_id == user_id@);
                    lemma_position(self@.members, user_id@, i as int);
                }
                return i;
            }
            i += 1;
        }
        proof {
            lemma_position(self@.members, user_id@, i as int);
        }
        i
    }

    fn created(&mut self, message: &serde_json::Value) -> (r: Vec<Action>)
        ensures
            (final(self)@, action_views(r@)) == after_create(old(self)@, json::json_nodes(*message)),
    {
        let mut actions = no_actions();
        let user_id = user_in(message);
        if text::same_text(user_id.as_str(), self.self_user_id.as_str()) {
            return actions;
        }
        if let Some(m) = parse_voice_member(message, "/data") {
            if self.member_index(m.user_id.as_str()) == self.members.len() {
                let ghost before = self.members@;
                self.members.push(m);
                assert(member_views(self.members@) == member_views(before).push(m@));
                push_action(&mut actions, Action::Publish(copied_members(&self.members)));
                assert(action_views(actions@) == seq![
                    ActionView::Publish(member_views(self.members@)),
                ]);
            }
        }
        actions
    }

    fn deleted(&mut self, message: &serde_json::Value) -> (r: Vec<Action>)
        ensures
            (final(self)@, action_views(r@)) == after_delete(old(self)@, json::json_nodes(*message)),
    {
        let mut actions = no_actions();
        let user_id = user_in(message);
        let mut kept: Vec<VoiceMember> = Vec::new();
        let mut i: usize = 0;
        let ghost others = |m: VoiceMemberView| m.user_id != user_id@;
        proof {
            assert(self@.members.take(0) == Seq::<VoiceMemberView>::empty());
            reveal(Seq::filter);
            assert(member_views(kept@) == self@.members.take(0).filter(others));
        }
        while i < self.members.len()
            invariant
                i <= self.members@.len(),
                others == (|m: VoiceMemberView| m.user_id != user_id@),
                member_views(kept@) == self@.members.take(i as int).filter(others),
            decreases self.members@.len() - i,
        {
            let ghost before = kept@;
            proof {
                let upto = self@.members.take(i + 1);
                assert(upto.drop_last() == self@.members.take(i as int));
                assert(upto.last() == self.members@[i as int]@);
                reveal(Seq::filter);
            }
            if !text::same_text(self.members[i].user_id.as_str(), user_id.as_str()) {
                kept.push(self.members[i].clone());
                assert(member_views(kept@) == member_views(before).push(self.members@[i as int]@));
            }
            i += 1;
        }
        assert(self@.members.take(i as int) == self@.members);
        let changed = kept.len() != self.members.len();
        self.members = kept;
        if changed {
            push_action(&mut actions, Action::Publish(copied_members(&self.members)));
            assert(action_views(actions@) == seq![
                ActionView::Publish(member_views(self.members@)),
            ]);
        }
        actions
    }

    fn updated(&mut self, message: &serde_json::Value) -> (r: Vec<Action>)
        ensures
            (final(self)@, action_views(r@)) == after_update(old(self)@, json::json_nodes(*message)),
    {
        let mut actions = no_actions();
        let user_id = user_in(message);
        if text::same_text(user_id.as_str(), self.self_user_id.as_str()) {
            return actions;
        }
        let i: usize = self.member_index(user_id.as_str());
        if i == self.members.len() {
            return actions;
        }
        let ghost old_members = self.members@;
        let mut member = self.members[i].clone();
        let mut changed = false;
        if let Some(bits) = json::get_number(message, "/data/volume") {
            let volume: u16 = double::round_to_u16(bits);
            if member.volume != volume {
                member.volume = volume;
                changed = true;
            }
        }
        if let Some(muted) = json::get_bool(message, "/data/mute") {
            if member.muted != muted {
                member.muted = muted;
                changed = true;
            }
        }
        if changed {
            self.members.set(i, member);
            assert(member_views(self.members@) == member_views(old_members).update(
                i as int,
                member@,
            ));
            push_action(&mut actions, Action::Publish(copied_members(&self.members)));
            assert(action_views(actions@) == seq![
                ActionView::Publish(member_views(self.members@)),
            ]);
        }
        actions
    }

    /// Takes a message in.
    pub fn handle_message(&mut self, message: &serde_json::Value) -> (r: Vec<Action>)
        ensures
            (final(self)@, action_views(r@)) == after_message(
                old(self)@,
                json::json_nodes(*message),
            ),
    {
        let cmd = text_or_default(message, "/cmd");
        let evt = text_or_default(message, "/evt");
        let dispatch = text::same_text(cmd.as_str(), "DISPATCH");
        if dispatch && text::same_text(evt.as_str(), "VOICE_CHANNEL_SELECT") {
            let new_channel = json::get_text(message, "/data/channel_id");
            if text::same_option(&new_channel, &self.channel) {
                no_actions()
            } else {
                self.handle_channel_switch(new_channel)
            }
        } else if text::same_text(cmd.as_str(), "GET_SELECTED_VOICE_CHANNEL") && !text::same_text(
            evt.as_str(),
            "ERROR",
        ) {
            self.selected(message)
        } else if dispatch && text::same_text(evt.as_str(), "VOICE_STATE_CREATE") {
            self.created(message)
        } else if dispatch && text::same_text(evt.as_str(), "VOICE_STATE_DELETE") {
            self.deleted(message)
        } else if dispatch && text::same_text(evt.as_str(), "VOICE_STATE_UPDATE") {
            self.updated(message)
        } else {
            no_actions()
        }
    }

    /// Takes a frame in. A payload that is no JSON text ends the session; a frame with another
    /// opcode than `OP_FRAME` is passed over.
    pub fn handle_frame(&mut self, opcode: u32, payload: &[u8]) -> (r: Result<
        Vec<Action>,
        FrameError,
    >)
        ensures
            match r {
                Err(_) => json::json_document(payload@) is None && final(self)@ == old(self)@,
                Ok(actions) => json::json_document(payload@) is Some && (
                final(self)@,
                action_views(actions@),
                ) == if opcode == wire::OP_FRAME {
                    after_message(old(self)@, json::json_document(payload@)->Some_0)
                } else {
                    (old(self)@, Seq::empty())
                },
            },
    {
        match json::parse(payload) {
            Ok(message) => if opcode == wire::OP_FRAME {
                Ok(self.handle_message(&message))
            } else {
                Ok(no_actions())
            },
            Err(_) => Err(FrameError::Malformed),
        }
    }
}

/// The user that a message is about; empty where it names none.
pub fn user_in(message: &serde_json::Value) -> (r: String)
    ensures
        r@ == event_user(json::json_nodes(*message)),
{
    text_or_default(message, "/data/user/id")
}

/// The user that the answer to the handshake names; empty where it names none.
pub fn ready_user(payload: &[u8]) -> (r: Result<String, FrameError>)
    ensures
        match r {
            Ok(id) => json::json_document(payload@) is Some && id@ == event_user(
                json::json_document(payload@)->Some_0,
            ),
            Err(_) => json::json_document(payload@) is None,
        },
{
    match json::parse(payload) {
        Ok(message) => Ok(user_in(&message)),
        Err(_) => Err(FrameError::Malformed),
    }
}

/// What follows when the connection to Discord is over: unless it was dropped here, nobody is
/// there until it has been made again.
pub fn after_connection(outcome: Outcome) -> (r: Next)
    ensures
        r == if outcome is Dropped {
            Next::Stop
        } else {
            Next::Reconnect { wait_ms: 5000, publish_nobody: true }
        },
{
    match outcome {
        Outcome::Closed => Next::Reconnect { wait_ms: 5000, publish_nobody: true },
        Outcome::Failed => Next::Reconnect { wait_ms: 5000, publish_nobody: true },
        Outcome::Dropped => Next::Stop,
    }
}

/// What the rest of the program asks of the session.
pub enum Command {
    /// Hear a member louder or softer.
    SetVolume { user_id: String, volume: u16 },
    /// Mute a member, or hear them again.
    SetMute { user_id: String, muted: bool },
}

/// A command, with its texts as sequences of characters.
#[allow(inconsistent_fields)]
pub enum CommandView {
    SetVolume { user_id: Seq<char>, volume: u16 },
    SetMute { user_id: Seq<char>, muted: bool },
}

impl View for Command {
    type V = CommandView;

    open spec fn view(&self) -> CommandView {
        match *self {
            Command::SetVolume { user_id, volume } => CommandView::SetVolume {
                user_id: user_id@,
                volume,
            },
            Command::SetMute { user_id, muted } => CommandView::SetMute { user_id: user_id@, muted },
        }
    }
}

/// Who a button of the Discord page belongs to: the member who appears at its place.
pub open spec fn member_at(
    users: Seq<config::UserOverride>,
    members: Seq<VoiceMemberView>,
    index: int,
) -> VoiceMemberView {
    members[order::the_order(ranks_of(users, members))[index] as int]
}

/// The command that a button of the Discord page gives: its member is muted while it is down. A
/// place without a member, and any other control, gives none.
pub open spec fn pressed(
    users: Seq<config::UserOverride>,
    members: Seq<VoiceMemberView>,
    event: DeviceEvent,
) -> Option<CommandView> {
    match event {
        DeviceEvent::DiscordButtonPress { index, value } => if index < members.len() {
            Some(
                CommandView::SetMute {
                    user_id: member_at(users, members, index as int).user_id,
                    muted: value > 0,
                },
            )
        } else {
            None
        },
        _ => None,
    }
}

/// The command that a button of the Discord page gives.
pub fn press_command(config: &Config, members: &Vec<VoiceMember>, event: DeviceEvent) -> (r: Option<
    Command,
>)
    ensures
        match r {
            Some(c) => pressed(config.discord_users@, member_views(members@), event) == Some(c@),
            None => pressed(config.discord_users@, member_views(members@), event) is None,
        },
{
    match event {
        DeviceEvent::DiscordButtonPress { index, value } => {
            let order = device_order(config, members);
            if index < order.len() {
                let place: usize = order[index];
                let user_id = members[place].user_id.clone();
                Some(Command::SetMute { user_id, muted: value > 0 })
            } else {
                None
            }
        },
        _ => None,
    }
}

/// The request that carries a command out.
pub open spec fn request_for(command: CommandView) -> wire::RequestView {
    match command {
        CommandView::SetVolume { user_id, volume } => wire::RequestView::SetVolume {
            user_id,
            volume,
        },
        CommandView::SetMute { user_id, muted } => wire::RequestView::SetMute { user_id, muted },
    }
}

/// The request that carries a command out.
pub fn command_request(command: Command) -> (r: Request)
    ensures
        r@ == request_for(command@),
        r@ == match command {
            Command::SetVolume { user_id, volume } => wire::RequestView::SetVolume {
                user_id: user_id@,
                volume,
            },
            Command::SetMute { user_id, muted } => wire::RequestView::SetMute { user_id: user_id@, muted },
        },
{
    match command {
        Command::SetVolume { user_id, volume } => Request::SetVolume { user_id, volume },
        Command::SetMute { user_id, muted } => Request::SetMute { user_id, muted },
    }
}

// ---- what holds of every session ----

proof fn lemma_pointers()
    ensures
        "/data"@ + "/user/id"@ == "/data/user/id"@,
{
    reveal_strlit("/data");
    reveal_strlit("/user/id");
    reveal_strlit("/data/user/id");
}

proof fn lemma_states_without_self(
    doc: Map<Seq<char>, json::JsonNode>,
    at: Seq<char>,
    self_id: Seq<char>,
    n: nat,
)
    ensures
        !has_member(voice_states_upto(doc, at, self_id, n), self_id),
    decreases n,
{
    if n > 0 {
        lemma_states_without_self(doc, at, self_id, (n - 1) as nat);
        let before = voice_states_upto(doc, at, self_id, (n - 1) as nat);
        let after = voice_states_upto(doc, at, self_id, n);
        assert forall|i: int| 0 <= i < after.len() implies (#[trigger] after[i]).user_id
            != self_id by {
            if i < before.len() {
                assert(after[i] == before[i]);
            }
        }
    }
}

proof fn lemma_without_user(members: Seq<VoiceMemberView>, user_id: Seq<char>)
    ensures
        without_user(members, user_id).len() <= members.len(),
        forall|i: int|
            0 <= i < without_user(members, user_id).len() ==> members.contains(
                #[trigger] without_user(members, user_id)[i],
            ) && without_user(members, user_id)[i].user_id != user_id,
        without_user(members, user_id).len() == members.len() ==> without_user(members, user_id)
            == members,
    decreases members.len(),
{
    reveal(Seq::filter);
    if members.len() > 0 {
        let init = members.drop_last();
        let kept = without_user(members, user_id);
        lemma_without_user(init, user_id);
        assert forall|i: int| 0 <= i < kept.len() implies members.contains(#[trigger] kept[i])
            && kept[i].user_id != user_id by {
            if i < without_user(init, user_id).len() {
                let m = without_user(init, user_id)[i];
                assert(kept[i] == m);
                let j = init.index_of(m);
                assert(members[j] == m);
            } else {
                assert(kept[i] == members.last());
                assert(members[members.len() - 1] == kept[i]);
            }
        }
        if kept.len() == members.len() {
            assert(init.push(members.last()) == members);
        }
    } else {
        assert(without_user(members, user_id) == members);
    }
}

proof fn lemma_position_bounds(members: Seq<VoiceMemberView>, user_id: Seq<char>)
    ensures
        0 <= position(members, user_id) <= members.len(),
        position(members, user_id) < members.len() ==> members[position(
            members,
            user_id,
        )].user_id == user_id,
    decreases members.len(),
{
    if members.len() > 0 && members[0].user_id != user_id {
        lemma_position_bounds(members.skip(1), user_id);
    }
}

/// The user of the session is never listed as a member of their channel, and the session keeps
/// its user.
pub proof fn session_user_stays_out(s: SessionView, doc: Map<Seq<char>, json::JsonNode>)
    requires
        !has_member(s.members, s.self_user_id),
    ensures
        !has_member(after_message(s, doc).0.members, s.self_user_id),
        after_message(s, doc).0.self_user_id == s.self_user_id,
{
    let after = after_message(s, doc).0.members;
    let uid = event_user(doc);
    lemma_pointers();
    lemma_without_user(s.members, uid);
    lemma_position_bounds(s.members, uid);
    match json::length_at(doc, "/data/voice_states"@) {
        Some(n) => {
            lemma_states_without_self(doc, "/data/voice_states"@, s.self_user_id, n);
        },
        None => {},
    }
    assert forall|i: int| 0 <= i < after.len() implies (#[trigger] after[i]).user_id
        != s.self_user_id by {
        if after == without_user(s.members, uid) {
            let j = s.members.index_of(after[i]);
            assert(s.members[j] == after[i]);
        } else if i < s.members.len() {
            assert(s.members[i].user_id != s.self_user_id);
        }
    }
}

/// Whenever the list of members changes, the last thing that the session asks for is to publish
/// the new list, and no other list is ever published.
pub proof fn changes_are_published(s: SessionView, doc: Map<Seq<char>, json::JsonNode>)
    ensures
        ({
            let (after, actions) = after_message(s, doc);
            &&& after.members != s.members ==> actions.len() > 0 && actions.last()
                == ActionView::Publish(after.members)
            &&& forall|i: int|
                0 <= i < actions.len() && (#[trigger] actions[i]) is Publish ==> actions[i]
                    == ActionView::Publish(after.members)
        }),
{
    lemma_without_user(s.members, event_user(doc));
}

/// When a member leaves they are gone from the list, and nobody else is.
pub proof fn who_left_is_gone(s: SessionView, doc: Map<Seq<char>, json::JsonNode>)
    ensures
        !has_member(after_delete(s, doc).0.members, event_user(doc)),
        forall|m: VoiceMemberView|
            s.members.contains(m) && m.user_id != event_user(doc) ==> #[trigger] after_delete(
                s,
                doc,
            ).0.members.contains(m),
{
    let uid = event_user(doc);
    lemma_without_user(s.members, uid);
    assert forall|m: VoiceMemberView|
        s.members.contains(m) && m.user_id != uid implies #[trigger] after_delete(
        s,
        doc,
    ).0.members.contains(m) by {
        s.members.lemma_filter_contains(|x: VoiceMemberView| x.user_id != uid, s.members.index_of(m));
    }
}

/// An update that is told twice changes nothing and publishes nothing the second time.
pub proof fn repeated_update_is_silent(s: SessionView, doc: Map<Seq<char>, json::JsonNode>)
    ensures
        after_update(after_update(s, doc).0, doc) == (
            after_update(s, doc).0,
            Seq::<ActionView>::empty(),
        ),
{
    let uid = event_user(doc);
    let i = position(s.members, uid);
    lemma_position_bounds(s.members, uid);
    if uid != s.self_user_id && i < s.members.len() {
        let members = s.members.update(i, updated_member(s.members[i], doc));
        lemma_first(s.members, uid);
        lemma_position(members, uid, i);
    }
}

proof fn lemma_first(members: Seq<VoiceMemberView>, user_id: Seq<char>)
    ensures
        forall|j: int|
            0 <= j < position(members, user_id) ==> (#[trigger] members[j]).user_id != user_id,
    decreases members.len(),
{
    if members.len() > 0 && members[0].user_id != user_id {
        lemma_first(members.skip(1), user_id);
        lemma_position_bounds(members.skip(1), user_id);
        assert forall|j: int| 0 <= j < position(members, user_id) implies (
        #[trigger] members[j]).user_id != user_id by {
            if j > 0 {
                assert(members.skip(1)[j - 1] == members[j]);
            }
        }
    }
}

/// Whether no user is listed twice.
pub open spec fn all_distinct(members: Seq<VoiceMemberView>) -> bool {
    forall|i: int, j: int|
        0 <= i < j < members.len() ==> (#[trigger] members[i]).user_id != (
        #[trigger] members[j]).user_id
}

proof fn lemma_without_user_distinct(members: Seq<VoiceMemberView>, user_id: Seq<char>)
    requires
        all_distinct(members),
    ensures
        all_distinct(without_user(members, user_id)),
    decreases members.len(),
{
    reveal(Seq::filter);
    if members.len() > 0 {
        let init = members.drop_last();
        let kept = without_user(init, user_id);
        let all = without_user(members, user_id);
        assert(all_distinct(init)) by {
            assert forall|i: int, j: int| 0 <= i < j < init.len() implies (
            #[trigger] init[i]).user_id != (#[trigger] init[j]).user_id by {
                assert(members[i] == init[i]);
                assert(members[j] == init[j]);
            }
        }
        lemma_without_user_distinct(init, user_id);
        lemma_without_user(init, user_id);
        assert forall|i: int, j: int| 0 <= i < j < all.len() implies (#[trigger] all[i]).user_id
            != (#[trigger] all[j]).user_id by {
            assert(all[i] == kept[i]);
            if j < kept.len() {
                assert(all[j] == kept[j]);
            } else {
                let k = init.index_of(kept[i]);
                assert(members[k] == kept[i]);
                assert(all[j] == members[members.len() - 1]);
            }
        }
    }
}

/// As members join, change and leave, no user comes to be listed twice.
pub proof fn members_stay_distinct(s: SessionView, doc: Map<Seq<char>, json::JsonNode>)
    requires
        all_distinct(s.members),
    ensures
        all_distinct(after_create(s, doc).0.members),
        all_distinct(after_update(s, doc).0.members),
        all_distinct(after_delete(s, doc).0.members),
{
    let uid = event_user(doc);
    lemma_position_bounds(s.members, uid);
    lemma_without_user_distinct(s.members, uid);
    let joined = after_create(s, doc).0.members;
    assert forall|i: int, j: int| 0 <= i < j < joined.len() implies (
    #[trigger] joined[i]).user_id != (#[trigger] joined[j]).user_id by {
        if j == s.members.len() {
            assert(s.members[i].user_id == joined[i].user_id);
        }
    }
}

/// The requests that end the events of a channel are for the same events of the same channel as
/// the requests that began them; and whoever leaves a channel ends them first.
pub proof fn subscriptions_are_ended(s: SessionView, new_channel: Option<Seq<char>>, id: Seq<char>)
    requires
        s.channel == Some(id),
    ensures
        subscribe_all(id).len() == unsubscribe_all(id).len(),
        forall|i: int|
            0 <= i < subscribe_all(id).len() ==> {
                &&& #[trigger] subscribe_all(id)[i] matches ActionView::Send(
                    wire::RequestView::Subscribe { event, channel_id },
                )
                &&& channel_id == Some(id)
                &&& unsubscribe_all(id)[i] == ActionView::Send(
                    wire::RequestView::Unsubscribe { event, channel_id: id },
                )
            },
        after_switch(s, new_channel).1.take(3) == unsubscribe_all(id),
        after_switch(s, new_channel).0.channel == new_channel,
        new_channel is None ==> after_switch(s, new_channel).0.members.len() == 0,
{
    assert(after_switch(s, new_channel).1.take(3) =~= unsubscribe_all(id));
}

// ---- what every message does ----

proof fn lemma_names()
    ensures
        "DISPATCH"@ != "GET_SELECTED_VOICE_CHANNEL"@,
        "VOICE_CHANNEL_SELECT"@ != "VOICE_STATE_CREATE"@,
        "VOICE_CHANNEL_SELECT"@ != "VOICE_STATE_DELETE"@,
        "VOICE_CHANNEL_SELECT"@ != "VOICE_STATE_UPDATE"@,
        "VOICE_STATE_CREATE"@ != "VOICE_STATE_DELETE"@,
        "VOICE_STATE_CREATE"@ != "VOICE_STATE_UPDATE"@,
        "VOICE_STATE_DELETE"@ != "VOICE_STATE_UPDATE"@,
        "/data"@ + "/user/id"@ == "/data/user/id"@,
        "/data"@ + "/nick"@ == "/data/nick"@,
        "/data"@ + "/user/username"@ == "/data/user/username"@,
        "/data"@ + "/volume"@ == "/data/volume"@,
        "/data"@ + "/mute"@ == "/data/mute"@,
{
    reveal_strlit("DISPATCH");
    reveal_strlit("GET_SELECTED_VOICE_CHANNEL");
    reveal_strlit("VOICE_CHANNEL_SELECT");
    reveal_strlit("VOICE_STATE_CREATE");
    reveal_strlit("VOICE_STATE_DELETE");
    reveal_strlit("VOICE_STATE_UPDATE");
    assert("DISPATCH"@.len() != "GET_SELECTED_VOICE_CHANNEL"@.len());
    assert("VOICE_CHANNEL_SELECT"@[6] != "VOICE_STATE_CREATE"@[6]);
    assert("VOICE_CHANNEL_SELECT"@[6] != "VOICE_STATE_DELETE"@[6]);
    assert("VOICE_CHANNEL_SELECT"@[6] != "VOICE_STATE_UPDATE"@[6]);
    assert("VOICE_STATE_CREATE"@[12] != "VOICE_STATE_DELETE"@[12]);
    assert("VOICE_STATE_CREATE"@[12] != "VOICE_STATE_UPDATE"@[12]);
    assert("VOICE_STATE_DELETE"@[12] != "VOICE_STATE_UPDATE"@[12]);
    reveal_strlit("/data");
    reveal_strlit("/user/id");
    reveal_strlit("/nick");
    reveal_strlit("/user/username");
    reveal_strlit("/volume");
    reveal_strlit("/mute");
    reveal_strlit("/data/user/id");
    reveal_strlit("/data/nick");
    reveal_strlit("/data/user/username");
    reveal_strlit("/data/volume");
    reveal_strlit("/data/mute");
    assert("/data"@ + "/user/id"@ =~= "/data/user/id"@);
    assert("/data"@ + "/nick"@ =~= "/data/nick"@);
    assert("/data"@ + "/user/username"@ =~= "/data/user/username"@);
    assert("/data"@ + "/volume"@ =~= "/data/volume"@);
    assert("/data"@ + "/mute"@ =~= "/data/mute"@);
}

/// Whether a message tells of an event, by the event's name.
pub open spec fn tells_of(doc: Map<Seq<char>, json::JsonNode>, event: Seq<char>) -> bool {
    json::text_at(doc, "/cmd"@) == Some("DISPATCH"@) && json::text_at(doc, "/evt"@) == Some(event)
}

/// After an update about a listed member, who is not the session's user, that member is muted
/// exactly as the update says, and heard as loud as it says, to the nearest whole number; what it does
/// not say stays. Nobody else changes. The list is published where the member changed, and only
/// there.
pub proof fn updates_are_taken_over(s: SessionView, doc: Map<Seq<char>, json::JsonNode>, i: int)
    requires
        tells_of(doc, "VOICE_STATE_UPDATE"@),
        0 <= i < s.members.len(),
        json::text_at(doc, "/data/user/id"@) == Some(s.members[i].user_id),
        s.members[i].user_id != s.self_user_id,
        forall|j: int| 0 <= j < i ==> (#[trigger] s.members[j]).user_id != s.members[i].user_id,
    ensures
        ({
            let (after, actions) = after_message(s, doc);
            let old = s.members[i];
            let new = after.members[i];
            &&& json::bool_at(doc, "/data/mute"@) == Some(true) ==> new.muted
            &&& json::bool_at(doc, "/data/mute"@) == Some(false) ==> !new.muted
            &&& json::bool_at(doc, "/data/mute"@) is None ==> new.muted == old.muted
            &&& json::number_at(doc, "/data/volume"@) is Some ==> new.volume == double::rounded(
                json::number_at(doc, "/data/volume"@).unwrap(),
            )
            &&& json::number_at(doc, "/data/volume"@) is None ==> new.volume == old.volume
            &&& new.user_id == old.user_id
            &&& new.nick == old.nick
            &&& after.members == s.members.update(i, new)
            &&& after.channel == s.channel
            &&& after.self_user_id == s.self_user_id
            &&& new != old ==> actions == seq![ActionView::Publish(after.members)]
            &&& new == old ==> actions.len() == 0
        }),
{
    lemma_names();
    lemma_position(s.members, s.members[i].user_id, i);
    if let Some(bits) = json::number_at(doc, "/data/volume"@) {
        double::rounding_is_to_the_nearest(bits);
    }
    let after = after_message(s, doc).0;
    assert(after.members =~= s.members.update(i, after.members[i]));
}

/// An update about the session's user, or about nobody who is listed, changes nothing.
pub proof fn updates_about_others_change_nothing(
    s: SessionView,
    doc: Map<Seq<char>, json::JsonNode>,
    id: Seq<char>,
)
    requires
        tells_of(doc, "VOICE_STATE_UPDATE"@),
        json::text_at(doc, "/data/user/id"@) == Some(id),
        id == s.self_user_id || !has_member(s.members, id),
    ensures
        after_message(s, doc) == (s, Seq::<ActionView>::empty()),
{
    lemma_names();
    lemma_position_bounds(s.members, id);
}

/// A voice state describes the user whose id it gives: under the nickname in the channel, else the
/// user name, else a question mark; at the volume that it gives, else 100; muted where it says so.
/// One that gives no user describes nobody.
pub proof fn voice_states_describe_members(doc: Map<Seq<char>, json::JsonNode>, at: Seq<char>)
    ensures
        json::text_at(doc, at + "/user/id"@) is None ==> voice_member(doc, at) is None,
        json::text_at(doc, at + "/user/id"@) is Some ==> {
            let m = voice_member(doc, at).unwrap();
            let nick = json::text_at(doc, at + "/nick"@);
            let name = json::text_at(doc, at + "/user/username"@);
            let volume = json::number_at(doc, at + "/volume"@);
            &&& voice_member(doc, at) is Some
            &&& Some(m.user_id) == json::text_at(doc, at + "/user/id"@)
            &&& nick is Some ==> m.nick == nick.unwrap()
            &&& nick is None && name is Some ==> m.nick == name.unwrap()
            &&& nick is None && name is None ==> m.nick == "?"@
            &&& volume is Some ==> m.volume == double::rounded(volume.unwrap())
            &&& volume is None ==> m.volume == 100
            &&& m.muted <==> json::bool_at(doc, at + "/mute"@) == Some(true)
        },
{
    if let Some(bits) = json::number_at(doc, at + "/volume"@) {
        double::rounding_is_to_the_nearest(bits);
    }
}

/// Whoever joins is added behind the others, as the event describes them, and the list is published;
/// but for the session's user, and for whoever is listed already.
pub proof fn joins_are_taken_over(
    s: SessionView,
    doc: Map<Seq<char>, json::JsonNode>,
    id: Seq<char>,
)
    requires
        tells_of(doc, "VOICE_STATE_CREATE"@),
        json::text_at(doc, "/data/user/id"@) == Some(id),
    ensures
        ({
            let (after, actions) = after_message(s, doc);
            let new = after.members.last();
            &&& id == s.self_user_id || has_member(s.members, id) ==> after == s && actions.len()
                == 0
            &&& id != s.self_user_id && !has_member(s.members, id) ==> {
                &&& after.members == s.members.push(new)
                &&& new.user_id == id
                &&& voice_member(doc, "/data"@) == Some(new)
                &&& after.channel == s.channel
                &&& after.self_user_id == s.self_user_id
                &&& actions == seq![ActionView::Publish(after.members)]
            }
        }),
{
    lemma_names();
}

/// Whoever leaves is taken out, everybody else stays in order, and the list is published where
/// anybody was taken out.
pub proof fn leaves_are_taken_over(
    s: SessionView,
    doc: Map<Seq<char>, json::JsonNode>,
    id: Seq<char>,
)
    requires
        tells_of(doc, "VOICE_STATE_DELETE"@),
        json::text_at(doc, "/data/user/id"@) == Some(id),
    ensures
        ({
            let (after, actions) = after_message(s, doc);
            &&& after.members == s.members.filter(|m: VoiceMemberView| m.user_id != id)
            &&& after.channel == s.channel
            &&& after.self_user_id == s.self_user_id
            &&& has_member(s.members, id) ==> actions == seq![ActionView::Publish(after.members)]
            &&& !has_member(s.members, id) ==> actions.len() == 0 && after == s
        }),
{
    lemma_names();
    lemma_without_user(s.members, id);
    let kept = without_user(s.members, id);
    if has_member(s.members, id) {
        if kept.len() == s.members.len() {
            let i = choose|i: int|
                0 <= i < s.members.len() && (#[trigger] s.members[i]).user_id == id;
            assert(kept[i].user_id != id);
        }
    } else {
        lemma_nobody_left(s.members, id);
    }
}

proof fn lemma_nobody_left(members: Seq<VoiceMemberView>, user_id: Seq<char>)
    requires
        !has_member(members, user_id),
    ensures
        without_user(members, user_id) == members,
    decreases members.len(),
{
    reveal(Seq::filter);
    if members.len() > 0 {
        let init = members.drop_last();
        assert(members[members.len() - 1].user_id != user_id);
        assert forall|i: int| 0 <= i < init.len() implies (#[trigger] init[i]).user_id
            != user_id by {
            assert(init[i] == members[i]);
        }
        lemma_nobody_left(init, user_id);
        assert(init.push(members.last()) =~= members);
    } else {
        assert(without_user(members, user_id) =~= members);
    }
}

/// The members of a channel are listed in the order of its voice states: each state adds the member
/// that it describes, but for the session's user; a state that describes nobody adds none.
pub proof fn channel_members_are_listed(
    doc: Map<Seq<char>, json::JsonNode>,
    at: Seq<char>,
    self_id: Seq<char>,
    n: nat,
)
    ensures
        ({
            let before = voice_states_upto(doc, at, self_id, n);
            let after = voice_states_upto(doc, at, self_id, n + 1);
            let state = at + seq!['/'] + text::decimal(n);
            &&& voice_states_upto(doc, at, self_id, 0).len() == 0
            &&& voice_member(doc, state) is None ==> after == before
            &&& voice_member(doc, state) matches Some(m) ==> m.user_id == self_id ==> after == before
            &&& voice_member(doc, state) matches Some(m) ==> m.user_id != self_id ==> after
                == before.push(m)
            &&& json::length_at(doc, at) == Some(n) ==> voice_states(doc, at, self_id) == before
            &&& json::length_at(doc, at) is None ==> voice_states(doc, at, self_id).len() == 0
        }),
{
    assert(at + seq!['/'] + text::decimal(n) =~= at + json::item_pointer(n));
}

/// The answer to the question for the user's channel makes that channel the session's, with the
/// members that it lists: the channel's three events are asked for, then the members published. An
/// answer without a channel, or with an error, changes nothing.
pub proof fn selected_channels_are_taken_over(s: SessionView, doc: Map<Seq<char>, json::JsonNode>)
    requires
        json::text_at(doc, "/cmd"@) == Some("GET_SELECTED_VOICE_CHANNEL"@),
    ensures
        ({
            let (after, actions) = after_message(s, doc);
            let id = json::text_at(doc, "/data/id"@);
            let error = json::text_at(doc, "/evt"@) == Some("ERROR"@);
            &&& error || id is None ==> after == s && actions.len() == 0
            &&& !error && id is Some ==> {
                &&& after.channel == id
                &&& after.self_user_id == s.self_user_id
                &&& after.members == voice_states(doc, "/data/voice_states"@, s.self_user_id)
                &&& actions.len() == 4
                &&& actions[3] == ActionView::Publish(after.members)
                &&& actions.contains(
                    ActionView::Send(
                        wire::RequestView::Subscribe {
                            event: VoiceEvent::StateUpdate,
                            channel_id: id,
                        },
                    ),
                )
                &&& actions.contains(
                    ActionView::Send(
                        wire::RequestView::Subscribe {
                            event: VoiceEvent::StateCreate,
                            channel_id: id,
                        },
                    ),
                )
                &&& actions.contains(
                    ActionView::Send(
                        wire::RequestView::Subscribe {
                            event: VoiceEvent::StateDelete,
                            channel_id: id,
                        },
                    ),
                )
            }
        }),
{
    lemma_names();
    reveal_strlit("ERROR");
    assert("ERROR"@.len() != 0);
    let actions = after_message(s, doc).1;
    if actions.len() == 4 {
        assert(actions.contains(actions[0]));
        assert(actions.contains(actions[1]));
        assert(actions.contains(actions[2]));
    }
}

/// When the user goes to another channel its members are asked for; when the user leaves, nobody is
/// left and that is published; the events of the old channel are ended first. A choice of the same
/// channel changes nothing.
pub proof fn channel_changes_are_followed(s: SessionView, doc: Map<Seq<char>, json::JsonNode>)
    requires
        tells_of(doc, "VOICE_CHANNEL_SELECT"@),
    ensures
        ({
            let (after, actions) = after_message(s, doc);
            let new = json::text_at(doc, "/data/channel_id"@);
            let leaving = match s.channel {
                Some(id) => unsubscribe_all(id),
                None => Seq::empty(),
            };
            &&& new == s.channel ==> after == s && actions.len() == 0
            &&& new != s.channel ==> {
                &&& after.channel == new
                &&& after.self_user_id == s.self_user_id
                &&& new is Some ==> after.members == s.members && actions == leaving.push(
                    ActionView::Send(wire::RequestView::GetSelectedVoiceChannel),
                )
                &&& new is None ==> after.members.len() == 0 && actions == leaving.push(
                    ActionView::Publish(after.members),
                )
            }
        }),
{
    lemma_names();
    let after = after_message(s, doc).0;
    if after.members.len() == 0 {
        assert(after.members =~= Seq::empty());
    }
}

/// The events of a channel that are asked for, and ended, are those of a member's change, coming and
/// going, each once.
pub proof fn channels_have_three_events(id: Seq<char>, event: VoiceEvent)
    ensures
        subscribe_all(id).len() == 3,
        subscribe_all(id).contains(
            ActionView::Send(wire::RequestView::Subscribe { event, channel_id: Some(id) }),
        ) <==> event != VoiceEvent::ChannelSelect,
{
    let all = subscribe_all(id);
    let wanted = ActionView::Send(wire::RequestView::Subscribe { event, channel_id: Some(id) });
    match event {
        VoiceEvent::StateUpdate => assert(all[0] == wanted),
        VoiceEvent::StateCreate => assert(all[1] == wanted),
        VoiceEvent::StateDelete => assert(all[2] == wanted),
        VoiceEvent::ChannelSelect => assert(!all.contains(wanted)),
    }
}

/// Every other message changes nothing and asks for nothing.
pub proof fn other_messages_change_nothing(s: SessionView, doc: Map<Seq<char>, json::JsonNode>)
    requires
        json::text_at(doc, "/cmd"@) != Some("GET_SELECTED_VOICE_CHANNEL"@),
        !tells_of(doc, "VOICE_CHANNEL_SELECT"@),
        !tells_of(doc, "VOICE_STATE_CREATE"@),
        !tells_of(doc, "VOICE_STATE_DELETE"@),
        !tells_of(doc, "VOICE_STATE_UPDATE"@),
    ensures
        after_message(s, doc) == (s, Seq::<ActionView>::empty()),
{
    reveal_strlit("GET_SELECTED_VOICE_CHANNEL");
    reveal_strlit("VOICE_CHANNEL_SELECT");
    reveal_strlit("VOICE_STATE_CREATE");
    reveal_strlit("VOICE_STATE_DELETE");
    reveal_strlit("VOICE_STATE_UPDATE");
    reveal_strlit("DISPATCH");
    assert("GET_SELECTED_VOICE_CHANNEL"@.len() != 0);
    assert("VOICE_CHANNEL_SELECT"@.len() != 0);
    assert("VOICE_STATE_CREATE"@.len() != 0);
    assert("VOICE_STATE_DELETE"@.len() != 0);
    assert("VOICE_STATE_UPDATE"@.len() != 0);
    assert("DISPATCH"@.len() != 0);
}

// ---- who is where on the device ----

/// On the device members appear by the priority that is set for their names, lower numbers first and
/// those without one last; at the same priority who is heard comes before who is muted; and else they
/// appear as they are listed.
pub proof fn members_appear_by_priority(
    users: Seq<config::UserOverride>,
    members: Seq<VoiceMemberView>,
    order: Seq<usize>,
    i: int,
    j: int,
)
    requires
        order::is_order(ranks_of(users, members), order),
        0 <= i < j < order.len(),
    ensures
        ({
            let a = members[order[i] as int];
            let b = members[order[j] as int];
            let p = config::priority_of(users, a.nick);
            let q = config::priority_of(users, b.nick);
            &&& p is None ==> q is None
            &&& p is Some && q is Some ==> p.unwrap() <= q.unwrap()
            &&& p == q && a.muted ==> b.muted
            &&& p == q && a.muted == b.muted ==> order[i] < order[j]
        }),
{
    order::members_are_sorted(ranks_of(users, members), order, i, j);
    order::order_is_complete(ranks_of(users, members), order);
}

/// A button of the Discord page mutes, while it is down, the member who appears at its place, and
/// nobody else; up, that member is heard again. Behind the last member buttons do nothing.
pub proof fn buttons_mute_who_appears_there(
    users: Seq<config::UserOverride>,
    members: Seq<VoiceMemberView>,
    order: Seq<usize>,
    index: usize,
    value: u8,
)
    requires
        order::is_order(ranks_of(users, members), order),
    ensures
        ({
            let r = pressed(users, members, DeviceEvent::DiscordButtonPress { index, value });
            &&& index < members.len() ==> r == Some(
                CommandView::SetMute {
                    user_id: members[order[index as int] as int].user_id,
                    muted: value != 0,
                },
            )
            &&& index >= members.len() ==> r is None
        }),
{
    order::the_order_is_any_order(ranks_of(users, members), order);
}

/// No other control of the device gives a command for Discord.
pub proof fn other_controls_give_no_command(
    users: Seq<config::UserOverride>,
    members: Seq<VoiceMemberView>,
    event: DeviceEvent,
)
    requires
        !(event is DiscordButtonPress),
    ensures
        pressed(users, members, event) is None,
{
}

/// What a button of the Discord page sends in the end is about the member who appears at its place,
/// and says that they are muted exactly where the button is down.
pub proof fn pressed_buttons_reach_discord(
    users: Seq<config::UserOverride>,
    members: Seq<VoiceMemberView>,
    order: Seq<usize>,
    index: usize,
    value: u8,
    nonce: Seq<char>,
)
    requires
        order::is_order(ranks_of(users, members), order),
        index < members.len(),
    ensures
        ({
            let event = DeviceEvent::DiscordButtonPress { index, value };
            let command = pressed(users, members, event).unwrap();
            let m = wire::request_message(request_for(command), nonce);
            &&& pressed(users, members, event) is Some
            &&& json::text_at(m, "/cmd"@) == Some("SET_USER_VOICE_SETTINGS"@)
            &&& json::text_at(m, "/args/user_id"@) == Some(
                members[order[index as int] as int].user_id,
            )
            &&& json::bool_at(m, "/args/mute"@) == Some(value != 0)
        }),
{
    buttons_mute_who_appears_there(users, members, order, index, value);
    let event = DeviceEvent::DiscordButtonPress { index, value };
    wire::requests_say_what_they_ask(request_for(pressed(users, members, event).unwrap()), nonce);
}

/// A command to hear a member louder or softer asks Discord for that member at that volume.
pub proof fn volume_commands_reach_discord(user_id: Seq<char>, volume: u16, nonce: Seq<char>)
    ensures
        ({
            let m = wire::request_message(
                request_for(CommandView::SetVolume { user_id, volume }),
                nonce,
            );
            &&& json::text_at(m, "/args/user_id"@) == Some(user_id)
            &&& json::number_at(m, "/args/volume"@) is Some
            &&& double::rounded(json::number_at(m, "/args/volume"@).unwrap()) == volume
        }),
{
    let r = request_for(CommandView::SetVolume { user_id, volume });
    wire::requests_say_what_they_ask(r, nonce);
    double::whole_rounds_to_itself(
        json::number_at(wire::request_message(r, nonce), "/args/volume"@).unwrap(),
        volume as nat,
    );
}

} // verus!
