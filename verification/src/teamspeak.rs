//! TeamSpeak: per-user volume and mute through the companion plugin.
//!
//! The plugin and the daemon exchange lines of JSON:
//!
//! - `{"type":"members","members":[{"id":N,"nick":"...","muted":bool,...},...]}` from the plugin
//! - `{"type":"set_volume","client_id":N,"volume":V}` to the plugin (V from 0 to 200, 100 = 0 dB)
//! - `{"type":"set_mute","client_id":N,"muted":bool}` to the plugin
use crate::config;
use crate::config::Config;
use crate::lines::{Next, Outcome};
use crate::midi::DeviceEvent;
use crate::order;
use crate::order::Rank;
use crate::text;
use vstd::prelude::*;
use vstd::string::*;

verus! {

broadcast use vstd::string::group_string_axioms;

// ---- where the plugin listens ----

/// The directory that a sandboxed client keeps its files in.
pub open spec fn flatpak_dir(home: Seq<char>) -> Seq<char> {
    home + "/.var/app/com.teamspeak.TeamSpeak3/.ts3client"@
}

/// The home directory, or `/tmp` where none is set.
pub open spec fn home_or_tmp(home: Option<String>) -> Seq<char> {
    match home {
        Some(h) => h@,
        None => "/tmp"@,
    }
}

fn home_dir(home: &Option<String>) -> (r: String)
    ensures
        r@ == home_or_tmp(*home),
{
    match home {
        Some(h) => h.clone(),
        None => "/tmp".to_string(),
    }
}

/// The directory whose existence tells that the client is sandboxed.
pub fn sandbox_dir(home: &Option<String>) -> (r: String)
    ensures
        r@ == flatpak_dir(home_or_tmp(*home)),
{
    let mut r = home_dir(home);
    r.append("/.var/app/com.teamspeak.TeamSpeak3/.ts3client");
    r
}

/// The plugin's socket: in the sandbox where there is one, else in the client's own directory.
pub fn default_socket_path(home: &Option<String>, sandboxed: bool) -> (r: String)
    ensures
        r@ == if sandboxed {
            flatpak_dir(home_or_tmp(*home)) + "/rotocontrol-ts3.sock"@
        } else {
            home_or_tmp(*home) + "/.ts3client/rotocontrol-ts3.sock"@
        },
{
    if sandboxed {
        let mut r = sandbox_dir(home);
        r.append("/rotocontrol-ts3.sock");
        r
    } else {
        let mut r = home_dir(home);
        r.append("/.ts3client/rotocontrol-ts3.sock");
        r
    }
}

// ---- members ----

/// A member of the voice channel.
#[derive(Debug, Clone)]
pub struct TsMember {
    pub client_id: u16,
    pub nick: String,
    /// Whether they are muted for us.
    pub muted: bool,
    /// 0 to 200, kept here only; 100 leaves them as they are.
    pub volume: u16,
    /// Whether they muted their own microphone.
    pub self_muted: bool,
    /// Whether they deafened themselves.
    pub self_deafened: bool,
}

impl TsMember {
    /// How little a member takes part.
    pub open spec fn activity(self) -> u8 {
        if self.self_deafened {
            2
        } else if self.self_muted {
            1
        } else {
            0
        }
    }

    /// A key to sort by: 0 for an active member, 1 for one who is only muted, 2 for a deafened
    /// one.
    pub fn activity_key(&self) -> (r: u8)
        ensures
            r == self.activity(),
    {
        if self.self_deafened {
            2
        } else if self.self_muted {
            1
        } else {
            0
        }
    }
}

/// Who hears comes before who does not, and among those who hear, who speaks comes first.
pub proof fn activity_orders_members(a: TsMember, b: TsMember)
    ensures
        !a.self_deafened && b.self_deafened ==> a.activity() < b.activity(),
        !a.self_deafened && !b.self_deafened && !a.self_muted && b.self_muted ==> a.activity()
            < b.activity(),
        a.activity() <= 2,
{
}

/// What decides about a member's place on the device: the priority that is set for the nickname,
/// and how little they take part.
pub open spec fn rank_of(users: Seq<config::UserOverride>, m: TsMember) -> Rank {
    Rank { priority: config::priority_of(users, m.nick@), activity: m.activity() }
}

/// What decides about the members' places, in the order of the list.
pub open spec fn ranks_of(users: Seq<config::UserOverride>, members: Seq<TsMember>) -> Seq<Rank> {
    members.map_values(|m: TsMember| rank_of(users, m))
}

/// The order in which the members appear on the device, by their places in the list.
pub fn device_order(config: &Config, members: &Vec<TsMember>) -> (r: Vec<usize>)
    ensures
        order::is_order(ranks_of(config.teamspeak_users@, members@), r@),
        r@ == order::the_order(ranks_of(config.teamspeak_users@, members@)),
        r@.len() == members@.len(),
{
    let mut ranks: Vec<Rank> = Vec::new();
    let mut i: usize = 0;
    while i < members.len()
        invariant
            i <= members@.len(),
            ranks@.len() == i,
            forall|k: int|
                0 <= k < i ==> #[trigger] ranks@[k] == rank_of(
                    config.teamspeak_users@,
                    members@[k],
                ),
        decreases members@.len() - i,
    {
        let priority = match config.ts3_user(members[i].nick.as_str()) {
            Some(user) => user.priority,
            None => None,
        };
        ranks.push(Rank { priority, activity: members[i].activity_key() });
        i += 1;
    }
    assert(ranks@ == ranks_of(config.teamspeak_users@, members@));
    let r = order::order(&ranks);
    proof {
        order::order_is_complete(ranks@, r@);
    }
    r
}

/// A member as the plugin tells of them.
pub struct RawMember {
    pub id: u16,
    pub nick: String,
    pub muted: bool,
    pub self_muted: bool,
    pub self_deafened: bool,
}

/// A message of the plugin.
pub struct RawMessage {
    pub msg_type: String,
    pub members: Option<Vec<RawMember>>,
}

/// The member that the plugin tells of, at the volume that changes nothing.
pub open spec fn is_member_of(m: TsMember, raw: RawMember) -> bool {
    &&& m.client_id == raw.id
    &&& m.nick@ == raw.nick@
    &&& m.muted == raw.muted
    &&& m.volume == 100
    &&& m.self_muted == raw.self_muted
    &&& m.self_deafened == raw.self_deafened
}

/// The members that a message tells of, none where it has no list.
pub open spec fn told_members(msg: RawMessage) -> Seq<RawMember> {
    match msg.members {
        Some(list) => list@,
        None => Seq::empty(),
    }
}

/// The members of the channel, in the order told, where a message is about them.
pub fn members_of(msg: RawMessage) -> (r: Option<Vec<TsMember>>)
    ensures
        match r {
            Some(members) => msg.msg_type@ == "members"@ && members@.len() == told_members(
                msg,
            ).len() && forall|i: int|
                0 <= i < members@.len() ==> is_member_of(
                    #[trigger] members@[i],
                    told_members(msg)[i],
                ),
            None => msg.msg_type@ != "members"@,
        },
{
    if !text::same_text(msg.msg_type.as_str(), "members") {
        return None;
    }
    let mut members: Vec<TsMember> = Vec::new();
    if let Some(list) = &msg.members {
        let mut i: usize = 0;
        while i < list.len()
            invariant
                i <= list@.len(),
                members@.len() == i,
                forall|j: int| 0 <= j < i ==> is_member_of(#[trigger] members@[j], list@[j]),
            decreases list@.len() - i,
        {
            let raw = &list[i];
            members.push(
                TsMember {
                    client_id: raw.id,
                    nick: raw.nick.clone(),
                    muted: raw.muted,
                    volume: 100,
                    self_muted: raw.self_muted,
                    self_deafened: raw.self_deafened,
                },
            );
            i += 1;
        }
    }
    Some(members)
}

// ---- commands ----

/// What the rest of the program asks of the plugin.
#[derive(Debug, Clone, Copy, PartialEq, Eq, Structural)]
pub enum Command {
    /// Hear a member louder or softer.
    SetVolume { client_id: u16, volume: u16 },
    /// Mute a member, or hear them again.
    SetMute { client_id: u16, muted: bool },
}

/// A truth value as JSON writes it.
pub open spec fn truth_text(b: bool) -> Seq<char> {
    if b {
        "true"@
    } else {
        "false"@
    }
}

/// The line that carries a command to the plugin.
pub open spec fn command_line(c: Command) -> Seq<char> {
    match c {
        Command::SetVolume { client_id, volume } => "{\"type\":\"set_volume\",\"client_id\":"@
            + text::decimal(client_id as nat) + ",\"volume\":"@ + text::decimal(volume as nat)
            + "}\n"@,
        Command::SetMute { client_id, muted } => "{\"type\":\"set_mute\",\"client_id\":"@
            + text::decimal(client_id as nat) + ",\"muted\":"@ + truth_text(muted) + "}\n"@,
    }
}

/// The line that carries a command to the plugin.
pub fn encode_command(c: Command) -> (r: String)
    ensures
        r@ == command_line(c),
{
    match c {
        Command::SetVolume { client_id, volume } => {
            let mut r = "{\"type\":\"set_volume\",\"client_id\":".to_string();
            let id = text::decimal_text(client_id as u64);
            r.append(id.as_str());
            r.append(",\"volume\":");
            let v = text::decimal_text(volume as u64);
            r.append(v.as_str());
            r.append("}\n");
            r
        },
        Command::SetMute { client_id, muted } => {
            let mut r = "{\"type\":\"set_mute\",\"client_id\":".to_string();
            let id = text::decimal_text(client_id as u64);
            r.append(id.as_str());
            r.append(",\"muted\":");
            if muted {
                r.append("true");
            } else {
                r.append("false");
            }
            r.append("}\n");
            r
        },
    }
}

// ---- connections ----

/// What follows when the connection to the plugin is over: unless it was dropped here, nobody
/// is there until it has been made again.
pub fn after_connection(outcome: Outcome) -> (r: Next)
    ensures
        r == if outcome is Dropped {
            Next::Stop
        } else {
            Next::Reconnect { wait_ms: 5000, publish_nobody: true }
        },
{
    match outcome {
        Outcome::Closed => Next::Reconnect { wait_ms: 5000, publish_nobody: true },
        Outcome::Failed => Next::Reconnect { wait_ms: 5000, publish_nobody: true },
        Outcome::Dropped => Next::Stop,
    }
}

// ---- buttons ----

/// Who a button of the TeamSpeak page belongs to: the member who appears at its place.
pub open spec fn member_at(
    users: Seq<config::UserOverride>,
    members: Seq<TsMember>,
    index: int,
) -> TsMember {
    members[order::the_order(ranks_of(users, members))[index] as int]
}

/// The command that a button of the TeamSpeak page gives: its member is muted while it is down. A
/// place without a member, and any other control, gives none.
pub open spec fn pressed(
    users: Seq<config::UserOverride>,
    members: Seq<TsMember>,
    event: DeviceEvent,
) -> Option<Command> {
    match event {
        DeviceEvent::Ts3ButtonPress { index, value } => if index < members.len() {
            Some(
                Command::SetMute {
                    client_id: member_at(users, members, index as int).client_id,
                    muted: value > 0,
                },
            )
        } else {
            None
        },
        _ => None,
    }
}

/// The command that a button of the TeamSpeak page gives.
pub fn press_command(config: &Config, members: &Vec<TsMember>, event: DeviceEvent) -> (r: Option<
    Command,
>)
    ensures
        r == pressed(config.teamspeak_users@, members@, event),
{
    match event {
        DeviceEvent::Ts3ButtonPress { index, value } => {
            let order = device_order(config, members);
            if index < order.len() {
                let place: usize = order[index];
                Some(Command::SetMute { client_id: members[place].client_id, muted: value > 0 })
            } else {
                None
            }
        },
        _ => None,
    }
}

/// On the device members appear by the priority that is set for their nicknames, lower numbers first
/// and those without one last; at the same priority who hears comes before who does not, and among
/// those who hear who speaks comes first; and else they appear as they are listed.
pub proof fn members_appear_by_priority(
    users: Seq<config::UserOverride>,
    members: Seq<TsMember>,
    order: Seq<usize>,
    i: int,
    j: int,
)
    requires
        order::is_order(ranks_of(users, members), order),
        0 <= i < j < order.len(),
    ensures
        ({
            let a = members[order[i] as int];
            let b = members[order[j] as int];
            let p = config::priority_of(users, a.nick@);
            let q = config::priority_of(users, b.nick@);
            &&& p is None ==> q is None
            &&& p is Some && q is Some ==> p.unwrap() <= q.unwrap()
            &&& p == q && a.self_deafened ==> b.self_deafened
            &&& p == q && !b.self_deafened && a.self_muted ==> b.self_muted
            &&& p == q && a.self_deafened == b.self_deafened && a.self_muted == b.self_muted
                ==> order[i] < order[j]
        }),
{
    order::members_are_sorted(ranks_of(users, members), order, i, j);
    order::order_is_complete(ranks_of(users, members), order);
}

/// A button of the TeamSpeak page mutes, while it is down, the member who appears at its place, and
/// nobody else; up, that member is heard again. Behind the last member buttons do nothing.
pub proof fn buttons_mute_who_appears_there(
    users: Seq<config::UserOverride>,
    members: Seq<TsMember>,
    order: Seq<usize>,
    index: usize,
    value: u8,
)
    requires
        order::is_order(ranks_of(users, members), order),
    ensures
        ({
            let r = pressed(users, members, DeviceEvent::Ts3ButtonPress { index, value });
            &&& index < members.len() ==> r == Some(
                Command::SetMute {
                    client_id: members[order[index as int] as int].client_id,
                    muted: value != 0,
                },
            )
            &&& index >= members.len() ==> r is None
        }),
{
    order::the_order_is_any_order(ranks_of(users, members), order);
}

/// No other control of the device gives a command for TeamSpeak.
pub proof fn other_controls_give_no_command(
    users: Seq<config::UserOverride>,
    members: Seq<TsMember>,
    event: DeviceEvent,
)
    requires
        !(event is Ts3ButtonPress),
    ensures
        pressed(users, members, event) is None,
{
}

/// A command is one line: it names itself and the member it is about, and says how loud or whether
/// muted.
pub proof fn commands_say_what_they_ask(client_id: u16, volume: u16, muted: bool)
    ensures
        ({
            let id = text::decimal(client_id as nat);
            let loud = command_line(Command::SetVolume { client_id, volume });
            let mute = command_line(Command::SetMute { client_id, muted });
            &&& loud == "{\"type\":\"set_volume\",\"client_id\":"@ + id + ",\"volume\":"@
                + text::decimal(volume as nat) + "}\n"@
            &&& muted ==> mute == "{\"type\":\"set_mute\",\"client_id\":"@ + id
                + ",\"muted\":true}\n"@
            &&& !muted ==> mute == "{\"type\":\"set_mute\",\"client_id\":"@ + id
                + ",\"muted\":false}\n"@
        }),
{
    let id = text::decimal(client_id as nat);
    let mute = command_line(Command::SetMute { client_id, muted });
    reveal_strlit(",\"muted\":");
    reveal_strlit("true");
    reveal_strlit("false");
    reveal_strlit("}\n");
    reveal_strlit(",\"muted\":true}\n");
    reveal_strlit(",\"muted\":false}\n");
    let head = "{\"type\":\"set_mute\",\"client_id\":"@ + id;
    if muted {
        assert(",\"muted\":true}\n"@ =~= ",\"muted\":"@ + "true"@ + "}\n"@);
        assert(mute =~= head + ",\"muted\":true}\n"@);
    } else {
        assert(",\"muted\":false}\n"@ =~= ",\"muted\":"@ + "false"@ + "}\n"@);
        assert(mute =~= head + ",\"muted\":false}\n"@);
    }
}

/// The plugin's members are taken over as they are told, each at the volume that changes nothing.
pub proof fn members_are_taken_over(m: TsMember, raw: RawMember)
    requires
        is_member_of(m, raw),
    ensures
        m.client_id == raw.id,
        m.nick@ == raw.nick@,
        m.muted == raw.muted,
        m.self_muted == raw.self_muted,
        m.self_deafened == raw.self_deafened,
        m.volume == 100,
{
}

/// An active member counts as 0, one who is only muted as 1, a deafened one as 2.
pub proof fn activity_has_three_levels(m: TsMember)
    ensures
        m.self_deafened <==> m.activity() == 2,
        !m.self_deafened && m.self_muted <==> m.activity() == 1,
        !m.self_deafened && !m.self_muted <==> m.activity() == 0,
{
}

} // verus!
