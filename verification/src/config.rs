//! Configuration, and the names of streams and users that it sets.
use crate::text;
use vstd::prelude::*;
use vstd::string::*;

verus! {

broadcast use vstd::string::group_string_axioms;

/// The whole configuration.
#[derive(Debug, Clone)]
pub struct Config {
    /// What is set for single streams; the first that fits a stream counts.
    pub streams: Vec<StreamOverride>,
    /// Whether PipeWire streams are shown at all.
    pub pipewire_enabled: bool,
    /// Discord, if it is set up.
    pub discord: Option<DiscordConfig>,
    /// TeamSpeak, if it is set up.
    pub teamspeak: Option<TeamSpeakConfig>,
    /// What is set for single Discord users.
    pub discord_users: Vec<UserOverride>,
    /// What is set for single TeamSpeak users.
    pub teamspeak_users: Vec<UserOverride>,
}

/// How Discord is reached.
#[derive(Debug, Clone)]
pub struct DiscordConfig {
    pub client_id: String,
    pub client_secret: String,
    pub enabled: bool,
}

/// How TeamSpeak is reached.
#[derive(Debug, Clone)]
pub struct TeamSpeakConfig {
    /// The Unix socket that the plugin creates.
    pub socket_path: String,
    pub enabled: bool,
}

/// What is set for one stream.
#[derive(Debug, Clone)]
pub struct StreamOverride {
    /// The program that the stream belongs to.
    pub binary: Option<String>,
    /// The portal's name for the program.
    pub app_id: Option<String>,
    /// The name to show.
    pub name: String,
    /// The player to ask for the current track's title.
    pub mpris_player: Option<String>,
    /// The knob's color (0 to 84).
    pub color: Option<u8>,
    /// The button's color, seen only when there is a title.
    pub accent_color: Option<u8>,
    /// Whether the stream is hidden from the device and the daemon.
    pub ignored: bool,
}

/// What is set for one user of Discord or TeamSpeak.
#[derive(Debug, Clone)]
pub struct UserOverride {
    /// The Discord username or the TeamSpeak nickname.
    pub name: String,
    /// The color (0 to 84); without one, a color after the name.
    pub color: Option<u8>,
    /// Lower numbers appear first on the device.
    pub priority: Option<i32>,
}

/// What is set for a stream, with its texts as sequences of characters.
pub struct OverrideView {
    pub binary: Option<Seq<char>>,
    pub app_id: Option<Seq<char>>,
    pub name: Seq<char>,
    pub mpris_player: Option<Seq<char>>,
    pub color: Option<u8>,
    pub accent_color: Option<u8>,
    pub ignored: bool,
}

impl View for StreamOverride {
    type V = OverrideView;

    open spec fn view(&self) -> OverrideView {
        OverrideView {
            binary: text::option_text(self.binary),
            app_id: text::option_text(self.app_id),
            name: self.name@,
            mpris_player: text::option_text(self.mpris_player),
            color: self.color,
            accent_color: self.accent_color,
            ignored: self.ignored,
        }
    }
}

/// What is set for a user, with the name as a sequence of characters.
pub struct UserView {
    pub name: Seq<char>,
    pub color: Option<u8>,
    pub priority: Option<i32>,
}

impl View for UserOverride {
    type V = UserView;

    open spec fn view(&self) -> UserView {
        UserView { name: self.name@, color: self.color, priority: self.priority }
    }
}

/// The configuration, with its lists by their views.
pub struct ConfigView {
    pub streams: Seq<OverrideView>,
    pub pipewire_enabled: bool,
    pub discord: Option<DiscordConfig>,
    pub teamspeak: Option<TeamSpeakConfig>,
    pub discord_users: Seq<UserView>,
    pub teamspeak_users: Seq<UserView>,
}

/// Entries for streams, by their views.
pub open spec fn override_views(entries: Seq<StreamOverride>) -> Seq<OverrideView> {
    entries.map_values(|e: StreamOverride| e@)
}

/// Entries for users, by their views.
pub open spec fn user_views(users: Seq<UserOverride>) -> Seq<UserView> {
    users.map_values(|u: UserOverride| u@)
}

impl View for Config {
    type V = ConfigView;

    open spec fn view(&self) -> ConfigView {
        ConfigView {
            streams: override_views(self.streams@),
            pipewire_enabled: self.pipewire_enabled,
            discord: self.discord,
            teamspeak: self.teamspeak,
            discord_users: user_views(self.discord_users@),
            teamspeak_users: user_views(self.teamspeak_users@),
        }
    }
}

/// What the configuration makes of a stream.
pub struct ResolvedStream {
    pub name: String,
    pub mpris_player: Option<String>,
    pub color: Option<u8>,
    pub accent_color: Option<u8>,
    pub ignored: bool,
}

/// A resolved stream, with its texts as sequences of characters.
pub struct ResolvedView {
    pub name: Seq<char>,
    pub mpris_player: Option<Seq<char>>,
    pub color: Option<u8>,
    pub accent_color: Option<u8>,
    pub ignored: bool,
}

impl View for ResolvedStream {
    type V = ResolvedView;

    open spec fn view(&self) -> ResolvedView {
        ResolvedView {
            name: self.name@,
            mpris_player: text::option_text(self.mpris_player),
            color: self.color,
            accent_color: self.accent_color,
            ignored: self.ignored,
        }
    }
}

impl Default for Config {
    /// Nothing set: PipeWire on, no integrations.
    fn default() -> (r: Self)
        ensures
            r.streams@.len() == 0,
            r.pipewire_enabled,
            r.discord is None,
            r.teamspeak is None,
            r.discord_users@.len() == 0,
            r.teamspeak_users@.len() == 0,
    {
        Config {
            streams: Vec::new(),
            pipewire_enabled: default_true(),
            discord: None,
            teamspeak: None,
            discord_users: Vec::new(),
            teamspeak_users: Vec::new(),
        }
    }
}

/// What a switch is where the configuration does not say.
pub fn default_true() -> (r: bool)
    ensures
        r,
{
    true
}

// ---- streams ----

/// Whether an entry is for a stream: by its program or by its portal name.
pub open spec fn is_for(entry: StreamOverride, binary: Seq<char>, app_id: Seq<char>) -> bool {
    text::option_text(entry.binary) == Some(binary) || text::option_text(entry.app_id) == Some(
        app_id,
    )
}

/// The place of the first entry for a stream, the number of entries if there is none.
pub open spec fn entry_index(
    entries: Seq<StreamOverride>,
    binary: Seq<char>,
    app_id: Seq<char>,
) -> int
    decreases entries.len(),
{
    if entries.len() == 0 || is_for(entries[0], binary, app_id) {
        0
    } else {
        1 + entry_index(entries.skip(1), binary, app_id)
    }
}

/// What an entry makes of a stream.
pub open spec fn entry_result(entry: StreamOverride) -> ResolvedView {
    ResolvedView {
        name: entry.name@,
        mpris_player: text::option_text(entry.mpris_player),
        color: entry.color,
        accent_color: entry.accent_color,
        ignored: entry.ignored,
    }
}

/// What is made of a stream that nothing is set for.
pub open spec fn plain_result(name: Seq<char>, color: Option<u8>) -> ResolvedView {
    ResolvedView { name, mpris_player: None, color, accent_color: None, ignored: false }
}

/// What is made of a stream: the first entry for it, else what is built in, else the name that it
/// came with.
pub open spec fn resolution(
    entries: Seq<StreamOverride>,
    binary: Seq<char>,
    app_id: Seq<char>,
    default: Seq<char>,
) -> ResolvedView {
    let i = entry_index(entries, binary, app_id);
    if i < entries.len() {
        entry_result(entries[i])
    } else if binary == ".Discord-wrapped"@ {
        plain_result("Discord"@, Some(62))
    } else {
        plain_result(default, None)
    }
}

proof fn lemma_entry_index(
    entries: Seq<StreamOverride>,
    binary: Seq<char>,
    app_id: Seq<char>,
    i: int,
)
    requires
        0 <= i <= entries.len(),
        forall|j: int| 0 <= j < i ==> !is_for(#[trigger] entries[j], binary, app_id),
        i == entries.len() || is_for(entries[i], binary, app_id),
    ensures
        entry_index(entries, binary, app_id) == i,
    decreases i,
{
    if i > 0 {
        assert(!is_for(entries[0], binary, app_id));
        assert forall|j: int| 0 <= j < i - 1 implies !is_for(
            #[trigger] entries.skip(1)[j],
            binary,
            app_id,
        ) by {
            assert(entries.skip(1)[j] == entries[j + 1]);
        }
        lemma_entry_index(entries.skip(1), binary, app_id, i - 1);
    }
}

/// Whether a text that may be missing is the given one.
pub fn is_text(s: &Option<String>, t: &str) -> (r: bool)
    ensures
        r == (text::option_text(*s) == Some(t@)),
{
    match s {
        Some(x) => text::same_text(x.as_str(), t),
        None => false,
    }
}

/// The first entry for a stream.
pub fn find_entry(entries: &Vec<StreamOverride>, binary: &str, app_id: &str) -> (r: Option<usize>)
    ensures
        match r {
            Some(i) => i < entries@.len() && entry_index(entries@, binary@, app_id@) == i,
            None => entry_index(entries@, binary@, app_id@) == entries@.len(),
        },
{
    let mut i: usize = 0;
    while i < entries.len()
        invariant
            i <= entries@.len(),
            forall|j: int| 0 <= j < i ==> !is_for(#[trigger] entries@[j], binary@, app_id@),
        decreases entries@.len() - i,
    {
        if is_text(&entries[i].binary, binary) || is_text(&entries[i].app_id, app_id) {
            proof {
                lemma_entry_index(entries@, binary@, app_id@, i as int);
            }
            return Some(i);
        }
        i += 1;
    }
    proof {
        lemma_entry_index(entries@, binary@, app_id@, i as int);
    }
    None
}

impl Config {
    /// What the configuration makes of a stream. Entries come before what is built in, and that
    /// before the default.
    pub fn resolve(&self, binary: &str, app_id: &str, default: &str) -> (r: ResolvedStream)
        ensures
            r@ == resolution(self.streams@, binary@, app_id@, default@),
    {
        if let Some(i) = find_entry(&self.streams, binary, app_id) {
            let entry = &self.streams[i];
            return ResolvedStream {
                name: entry.name.clone(),
                mpris_player: entry.mpris_player.clone(),
                color: entry.color,
                accent_color: entry.accent_color,
                ignored: entry.ignored,
            };
        }
        if text::same_text(binary, ".Discord-wrapped") {
            return ResolvedStream {
                name: "Discord".to_string(),
                mpris_player: None,
                color: Some(62),
                accent_color: None,
                ignored: false,
            };
        }
        ResolvedStream {
            name: default.to_string(),
            mpris_player: None,
            color: None,
            accent_color: None,
            ignored: false,
        }
    }

    /// What is set for a Discord user, looked up by the name or a beginning of it, in any case.
    pub fn discord_user(&self, name: &str) -> (r: Option<&UserOverride>)
        ensures
            r == found_user(self.discord_users@, name@),
    {
        find_user(&self.discord_users, name)
    }

    /// What is set for a TeamSpeak user, looked up by the name or a beginning of it, in any case.
    pub fn ts3_user(&self, name: &str) -> (r: Option<&UserOverride>)
        ensures
            r == found_user(self.teamspeak_users@, name@),
    {
        find_user(&self.teamspeak_users, name)
    }
}

/// An entry of the configuration decides about its stream, whatever is built in and whatever
/// the stream is called.
pub proof fn entries_come_first(
    entries: Seq<StreamOverride>,
    binary: Seq<char>,
    app_id: Seq<char>,
    default: Seq<char>,
    i: int,
)
    requires
        0 <= i < entries.len(),
        is_for(entries[i], binary, app_id),
        forall|j: int| 0 <= j < i ==> !is_for(#[trigger] entries[j], binary, app_id),
    ensures
        resolution(entries, binary, app_id, default) == entry_result(entries[i]),
        ({
            let r = resolution(entries, binary, app_id, default);
            let e = entries[i];
            &&& r.name == e.name@
            &&& r.mpris_player == match e.mpris_player {
                Some(p) => Some(p@),
                None => None,
            }
            &&& r.color == e.color
            &&& r.accent_color == e.accent_color
            &&& r.ignored == e.ignored
        }),
{
    lemma_entry_index(entries, binary, app_id, i);
}

/// A stream that no entry is for and that is not built in keeps its name, has no color of its own
/// and is shown.
pub proof fn unknown_streams_keep_their_name(
    entries: Seq<StreamOverride>,
    binary: Seq<char>,
    app_id: Seq<char>,
    default: Seq<char>,
)
    requires
        forall|j: int| 0 <= j < entries.len() ==> !is_for(#[trigger] entries[j], binary, app_id),
        binary != ".Discord-wrapped"@,
    ensures
        resolution(entries, binary, app_id, default) == plain_result(default, None),
        ({
            let r = resolution(entries, binary, app_id, default);
            &&& r.name == default
            &&& r.mpris_player is None
            &&& r.color is None
            &&& r.accent_color is None
            &&& !r.ignored
        }),
{
    lemma_entry_index(entries, binary, app_id, entries.len() as int);
}

/// Discord's own program has a name and a color built in, for as long as no entry is for it.
pub proof fn discord_is_built_in(
    entries: Seq<StreamOverride>,
    app_id: Seq<char>,
    default: Seq<char>,
)
    requires
        forall|j: int|
            0 <= j < entries.len() ==> !is_for(
                #[trigger] entries[j],
                ".Discord-wrapped"@,
                app_id,
            ),
    ensures
        ({
            let r = resolution(entries, ".Discord-wrapped"@, app_id, default);
            &&& r.name == "Discord"@
            &&& r.color == Some(62u8)
            &&& r.accent_color is None
            &&& r.mpris_player is None
            &&& !r.ignored
        }),
{
    lemma_entry_index(entries, ".Discord-wrapped"@, app_id, entries.len() as int);
}

/// An entry is for a stream where its program is the stream's, or its portal name is; one that names
/// neither is for none.
pub proof fn entries_are_by_program_or_portal_name(
    e: StreamOverride,
    binary: Seq<char>,
    app_id: Seq<char>,
)
    ensures
        e.binary matches Some(b) ==> b@ == binary ==> is_for(e, binary, app_id),
        e.app_id matches Some(a) ==> a@ == app_id ==> is_for(e, binary, app_id),
        (e.binary is None || e.binary.unwrap()@ != binary) && (e.app_id is None
            || e.app_id.unwrap()@ != app_id) ==> !is_for(e, binary, app_id),
{
}

// ---- users ----

/// The users' names, in lower case.
pub open spec fn lowered(users: Seq<UserOverride>) -> Seq<Seq<char>> {
    users.map_values(|u: UserOverride| text::lowercase(u.name@))
}

/// The place of the first of some names that is the given one, the number of names if there is
/// none.
pub open spec fn named_index(names: Seq<Seq<char>>, name: Seq<char>) -> int
    decreases names.len(),
{
    if names.len() == 0 || names[0] == name {
        0
    } else {
        1 + named_index(names.skip(1), name)
    }
}

/// The place of the first of some names that begins with the given one, the number of names if
/// there is none.
pub open spec fn begun_index(names: Seq<Seq<char>>, name: Seq<char>) -> int
    decreases names.len(),
{
    if names.len() == 0 || text::begins_with(names[0], name) {
        0
    } else {
        1 + begun_index(names.skip(1), name)
    }
}

/// Where a lookup by name leads: to the first name that is the given one, else to the first that
/// begins with it.
pub open spec fn found_name(names: Seq<Seq<char>>, name: Seq<char>) -> Option<int> {
    let i = named_index(names, name);
    let j = begun_index(names, name);
    if i < names.len() {
        Some(i)
    } else if j < names.len() {
        Some(j)
    } else {
        None
    }
}

/// What a lookup of a user by name comes to: the first user of that name, else the first whose
/// name begins with it, in any case.
pub open spec fn found_user<'a>(users: Seq<UserOverride>, name: Seq<char>) -> Option<
    &'a UserOverride,
> {
    match found_name(lowered(users), text::lowercase(name)) {
        Some(i) => Some(&users[i]),
        None => None,
    }
}

/// The priority that is set for a user, looked up by name.
pub open spec fn priority_of(users: Seq<UserOverride>, name: Seq<char>) -> Option<i32> {
    match found_user(users, name) {
        Some(user) => user.priority,
        None => None,
    }
}

proof fn lemma_named_index(names: Seq<Seq<char>>, name: Seq<char>, i: int)
    requires
        0 <= i <= names.len(),
        forall|j: int| 0 <= j < i ==> #[trigger] names[j] != name,
        i == names.len() || names[i] == name,
    ensures
        named_index(names, name) == i,
    decreases i,
{
    if i > 0 {
        assert(names[0] != name);
        assert forall|j: int| 0 <= j < i - 1 implies #[trigger] names.skip(1)[j] != name by {
            assert(names.skip(1)[j] == names[j + 1]);
        }
        lemma_named_index(names.skip(1), name, i - 1);
    }
}

proof fn lemma_begun_index(names: Seq<Seq<char>>, name: Seq<char>, i: int)
    requires
        0 <= i <= names.len(),
        forall|j: int| 0 <= j < i ==> !text::begins_with(#[trigger] names[j], name),
        i == names.len() || text::begins_with(names[i], name),
    ensures
        begun_index(names, name) == i,
    decreases i,
{
    if i > 0 {
        assert(!text::begins_with(names[0], name));
        assert forall|j: int| 0 <= j < i - 1 implies !text::begins_with(
            #[trigger] names.skip(1)[j],
            name,
        ) by {
            assert(names.skip(1)[j] == names[j + 1]);
        }
        lemma_begun_index(names.skip(1), name, i - 1);
    }
}

/// Looks a name up among some names: the first that is the given one, else the first that begins
/// with it.
pub fn find_name(names: &Vec<String>, name: &str) -> (r: Option<usize>)
    ensures
        match r {
            Some(i) => i < names@.len() && found_name(text::texts(names@), name@) == Some(i as int),
            None => found_name(text::texts(names@), name@) is None,
        },
{
    let ghost views = text::texts(names@);
    let mut i: usize = 0;
    while i < names.len()
        invariant
            i <= names@.len(),
            views == text::texts(names@),
            forall|j: int| 0 <= j < i ==> #[trigger] views[j] != name@,
        decreases names@.len() - i,
    {
        if text::same_text(names[i].as_str(), name) {
            proof {
                lemma_named_index(views, name@, i as int);
            }
            return Some(i);
        }
        i += 1;
    }
    proof {
        lemma_named_index(views, name@, i as int);
    }
    let mut k: usize = 0;
    while k < names.len()
        invariant
            k <= names@.len(),
            views == text::texts(names@),
            named_index(views, name@) == views.len(),
            forall|j: int| 0 <= j < k ==> !text::begins_with(#[trigger] views[j], name@),
        decreases names@.len() - k,
    {
        if text::starts_with(names[k].as_str(), name) {
            proof {
                lemma_begun_index(views, name@, k as int);
            }
            return Some(k);
        }
        k += 1;
    }
    proof {
        lemma_begun_index(views, name@, k as int);
    }
    None
}

fn find_user<'a>(users: &'a Vec<UserOverride>, name: &str) -> (r: Option<&'a UserOverride>)
    ensures
        r == found_user(users@, name@),
{
    let mut names: Vec<String> = Vec::new();
    let mut i: usize = 0;
    while i < users.len()
        invariant
            i <= users@.len(),
            text::texts(names@) == lowered(users@).take(i as int),
        decreases users@.len() - i,
    {
        let ghost before = text::texts(names@);
        let lower = text::to_lowercase(users[i].name.as_str());
        names.push(lower);
        assert(text::texts(names@) == before.push(lower@));
        i += 1;
        assert(lowered(users@).take(i as int) == before.push(lower@));
    }
    assert(lowered(users@).take(i as int) == lowered(users@));
    assert(text::texts(names@).len() == names@.len());
    let lower = text::to_lowercase(name);
    match find_name(&names, lower.as_str()) {
        Some(k) => Some(&users[k]),
        None => None,
    }
}

/// The case of the name does not matter in a lookup.
pub proof fn lookup_ignores_case(users: Seq<UserOverride>, a: Seq<char>, b: Seq<char>)
    requires
        text::lowercase(a) == text::lowercase(b),
    ensures
        found_user(users, a) == found_user(users, b),
{
}

/// Whether a user's name begins with the given one, in any case.
pub open spec fn begins_as(user: UserOverride, name: Seq<char>) -> bool {
    text::begins_with(text::lowercase(user.name@), text::lowercase(name))
}

/// A lookup finds someone exactly when some saved name begins with the given one, and who is
/// found has such a name.
pub proof fn lookup_is_by_beginning(users: Seq<UserOverride>, name: Seq<char>)
    ensures
        found_user(users, name) is Some <==> exists|i: int|
            0 <= i < users.len() && begins_as(#[trigger] users[i], name),
        found_user(users, name) matches Some(u) ==> begins_as(*u, name),
{
    let names = lowered(users);
    let lower = text::lowercase(name);
    lemma_index_bounds(names, lower);
    let i = named_index(names, lower);
    let j = begun_index(names, lower);
    assert(lower.subrange(0, lower.len() as int) == lower);
    if i < users.len() {
        assert(begins_as(users[i], name));
    } else if j < users.len() {
        assert(begins_as(users[j], name));
    }
    if exists|k: int| 0 <= k < users.len() && begins_as(#[trigger] users[k], name) {
        let k = choose|k: int| 0 <= k < users.len() && begins_as(#[trigger] users[k], name);
        lemma_begun_at_most(names, lower, k);
    }
}

/// A user whose saved name is the given one, in any case, is found before any other.
pub proof fn exact_names_come_first(users: Seq<UserOverride>, name: Seq<char>, i: int)
    requires
        0 <= i < users.len(),
        text::lowercase(users[i].name@) == text::lowercase(name),
        forall|j: int|
            0 <= j < i ==> text::lowercase((#[trigger] users[j]).name@) != text::lowercase(name),
    ensures
        found_user(users, name) == Some(&users[i]),
{
    let names = lowered(users);
    assert forall|j: int| 0 <= j < i implies #[trigger] names[j] != text::lowercase(name) by {
        assert(names[j] == text::lowercase(users[j].name@));
    }
    lemma_named_index(names, text::lowercase(name), i);
}

/// Where no saved name is the given one, the first that begins with it is found; and the priority
/// that counts for a name is that of whoever is found.
pub proof fn first_beginning_is_found(users: Seq<UserOverride>, name: Seq<char>, i: int)
    requires
        0 <= i < users.len(),
        forall|j: int|
            0 <= j < users.len() ==> text::lowercase((#[trigger] users[j]).name@)
                != text::lowercase(name),
        begins_as(users[i], name),
        forall|j: int| 0 <= j < i ==> !begins_as(#[trigger] users[j], name),
    ensures
        found_user(users, name) == Some(&users[i]),
        priority_of(users, name) == users[i].priority,
{
    let names = lowered(users);
    let lower = text::lowercase(name);
    assert forall|j: int| 0 <= j < names.len() implies #[trigger] names[j] != lower by {
        assert(names[j] == text::lowercase(users[j].name@));
    }
    lemma_named_index(names, lower, names.len() as int);
    assert forall|j: int| 0 <= j < i implies !text::begins_with(#[trigger] names[j], lower) by {
        assert(!begins_as(users[j], name));
    }
    lemma_begun_index(names, lower, i);
}

/// The priority that counts for a name is that of whoever is found for it; nobody found, none.
pub proof fn priorities_are_those_found(users: Seq<UserOverride>, name: Seq<char>)
    ensures
        found_user(users, name) matches Some(u) ==> priority_of(users, name) == u.priority,
        found_user(users, name) is None ==> priority_of(users, name) is None,
{
}

proof fn lemma_begun_at_most(names: Seq<Seq<char>>, name: Seq<char>, k: int)
    requires
        0 <= k < names.len(),
        text::begins_with(names[k], name),
    ensures
        begun_index(names, name) <= k,
    decreases names.len(),
{
    if !text::begins_with(names[0], name) {
        assert(names.skip(1)[k - 1] == names[k]);
        lemma_begun_at_most(names.skip(1), name, k - 1);
    }
}

proof fn lemma_index_bounds(names: Seq<Seq<char>>, name: Seq<char>)
    ensures
        0 <= named_index(names, name) <= names.len(),
        0 <= begun_index(names, name) <= names.len(),
        named_index(names, name) < names.len() ==> names[named_index(names, name)] == name,
        begun_index(names, name) < names.len() ==> text::begins_with(
            names[begun_index(names, name)],
            name,
        ),
    decreases names.len(),
{
    if names.len() > 0 {
        lemma_index_bounds(names.skip(1), name);
    }
}

// ---- integrations ----

/// What a new configuration means for an integration.
#[derive(Debug, Clone, Copy, PartialEq, Eq, Structural)]
pub enum Change {
    /// Leave it as it is.
    Keep,
    /// Start it.
    Start,
    /// Stop it.
    Stop,
    /// Stop it, and start it with the new settings.
    Restart,
}

/// What follows when an integration was on or off, is to be on or off, and has the same settings
/// or others.
pub open spec fn change_of(was_on: bool, is_on: bool, same: bool) -> Change {
    if !is_on {
        if was_on {
            Change::Stop
        } else {
            Change::Keep
        }
    } else if !was_on {
        Change::Start
    } else if same {
        Change::Keep
    } else {
        Change::Restart
    }
}

fn change(was_on: bool, is_on: bool, same: bool) -> (r: Change)
    ensures
        r == change_of(was_on, is_on, same),
{
    if !is_on {
        if was_on {
            Change::Stop
        } else {
            Change::Keep
        }
    } else if !was_on {
        Change::Start
    } else if same {
        Change::Keep
    } else {
        Change::Restart
    }
}

/// Whether Discord is set up and switched on.
pub open spec fn discord_on(d: Option<DiscordConfig>) -> bool {
    d is Some && d.unwrap().enabled
}

/// Whether two settings for Discord name the same client.
pub open spec fn same_client(a: Option<DiscordConfig>, b: Option<DiscordConfig>) -> bool {
    match (a, b) {
        (Some(x), Some(y)) => x.client_id@ == y.client_id@ && x.client_secret@
            == y.client_secret@,
        _ => false,
    }
}

/// What new settings mean for the connection to Discord.
pub fn discord_change(was: &Option<DiscordConfig>, is: &Option<DiscordConfig>) -> (r: Change)
    ensures
        r == change_of(discord_on(*was), discord_on(*is), same_client(*was, *is)),
{
    let was_on = match was {
        Some(d) => d.enabled,
        None => false,
    };
    let is_on = match is {
        Some(d) => d.enabled,
        None => false,
    };
    let same = match (was, is) {
        (Some(x), Some(y)) => text::same_text(x.client_id.as_str(), y.client_id.as_str())
            && text::same_text(x.client_secret.as_str(), y.client_secret.as_str()),
        _ => false,
    };
    change(was_on, is_on, same)
}

/// Whether TeamSpeak is set up and switched on.
pub open spec fn teamspeak_on(t: Option<TeamSpeakConfig>) -> bool {
    t is Some && t.unwrap().enabled
}

/// Whether two settings for TeamSpeak name the same socket.
pub open spec fn same_socket(a: Option<TeamSpeakConfig>, b: Option<TeamSpeakConfig>) -> bool {
    match (a, b) {
        (Some(x), Some(y)) => x.socket_path@ == y.socket_path@,
        _ => false,
    }
}

/// What new settings mean for the connection to the TeamSpeak plugin.
pub fn teamspeak_change(was: &Option<TeamSpeakConfig>, is: &Option<TeamSpeakConfig>) -> (r: Change)
    ensures
        r == change_of(teamspeak_on(*was), teamspeak_on(*is), same_socket(*was, *is)),
{
    let was_on = match was {
        Some(t) => t.enabled,
        None => false,
    };
    let is_on = match is {
        Some(t) => t.enabled,
        None => false,
    };
    let same = match (was, is) {
        (Some(x), Some(y)) => text::same_text(x.socket_path.as_str(), y.socket_path.as_str()),
        _ => false,
    };
    change(was_on, is_on, same)
}

/// An integration runs exactly while it is switched on, and runs with the settings that are in
/// force; what has not changed is not disturbed.
pub proof fn integrations_follow_the_settings(was_on: bool, is_on: bool, same: bool)
    ensures
        ({
            let c = change_of(was_on, is_on, same);
            let runs = c == Change::Start || c == Change::Restart || (c == Change::Keep && was_on);
            &&& runs == is_on
            &&& c == Change::Keep && is_on ==> same
            &&& was_on == is_on && (same || !is_on) ==> c == Change::Keep
        }),
{
}

/// Discord is started when it is switched on, stopped when it is switched off or taken out, started
/// anew when it is on for another client, and else left alone.
pub proof fn discord_follows_its_settings(was: Option<DiscordConfig>, is: Option<DiscordConfig>)
    ensures
        ({
            let c = change_of(discord_on(was), discord_on(is), same_client(was, is));
            let was_on = was is Some && was.unwrap().enabled;
            let is_on = is is Some && is.unwrap().enabled;
            &&& !was_on && is_on ==> c == Change::Start
            &&& was_on && !is_on ==> c == Change::Stop
            &&& !was_on && !is_on ==> c == Change::Keep
            &&& was_on && is_on ==> (c == Change::Keep <==> {
                &&& was.unwrap().client_id@ == is.unwrap().client_id@
                &&& was.unwrap().client_secret@ == is.unwrap().client_secret@
            })
            &&& was_on && is_on && c != Change::Keep ==> c == Change::Restart
        }),
{
}

/// TeamSpeak is started when it is switched on, stopped when it is switched off or taken out, started
/// anew when it is on with another socket, and else left alone.
pub proof fn teamspeak_follows_its_settings(
    was: Option<TeamSpeakConfig>,
    is: Option<TeamSpeakConfig>,
)
    ensures
        ({
            let c = change_of(teamspeak_on(was), teamspeak_on(is), same_socket(was, is));
            let was_on = was is Some && was.unwrap().enabled;
            let is_on = is is Some && is.unwrap().enabled;
            &&& !was_on && is_on ==> c == Change::Start
            &&& was_on && !is_on ==> c == Change::Stop
            &&& !was_on && !is_on ==> c == Change::Keep
            &&& was_on && is_on ==> (c == Change::Keep <==> was.unwrap().socket_path@
                == is.unwrap().socket_path@)
            &&& was_on && is_on && c != Change::Keep ==> c == Change::Restart
        }),
{
}

// ---- track titles ----

/// The arguments with which `playerctl` is asked for the title of a player's current track.
pub fn mpris_query(player: &str) -> (r: Vec<String>)
    ensures
        text::texts(r@) == seq!["-p"@, player@, "metadata"@, "title"@],
{
    let mut r: Vec<String> = Vec::new();
    r.push("-p".to_string());
    r.push(player.to_string());
    r.push("metadata".to_string());
    r.push("title".to_string());
    assert(text::texts(r@) == seq!["-p"@, player@, "metadata"@, "title"@]);
    r
}

/// The title in what a player printed: without white space around it, if anything is left.
pub open spec fn title_in(output: Seq<char>) -> Option<Seq<char>> {
    let title = text::trimmed(output);
    if title.len() == 0 {
        None
    } else {
        Some(title)
    }
}

/// A title is what a player printed but for the white space around it; white space alone is no
/// title.
pub proof fn titles_are_printed_between_white_space(a: Seq<char>, title: Seq<char>, b: Seq<char>)
    requires
        text::all_white(a),
        text::all_white(b),
        text::is_tight(title),
    ensures
        title.len() > 0 ==> title_in(a + title + b) == Some(title),
        title.len() == 0 ==> title_in(a + title + b) is None,
{
    text::trimming_takes_white_space_away(a, title, b);
}

/// The title in what a player printed.
pub fn track_title(output: &str) -> (r: Option<String>)
    ensures
        text::option_text(r) == title_in(output@),
{
    let title = text::trim(output);
    if title.as_str().is_empty() {
        None
    } else {
        Some(title)
    }
}

/// The title that `playerctl` printed. There is none where the program failed or printed nothing
/// but white space.
pub fn query_mpris_title(success: bool, stdout: &[u8]) -> (r: Option<String>)
    ensures
        text::option_text(r) == if success {
            title_in(text::lossy(stdout@))
        } else {
            None
        },
        success && vstd::utf8::valid_utf8(stdout@) ==> text::option_text(r) == title_in(
            vstd::utf8::decode_utf8(stdout@),
        ),
{
    if !success {
        return None;
    }
    let output = text::from_utf8_lossy(stdout);
    track_title(output.as_str())
}

} // verus!
