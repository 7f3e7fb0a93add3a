//! The settings window: what it holds, and what its controls do.
//!
//! Drawing the window, reading the streams and writing the file are the caller's.
use crate::config;
use crate::config::{Config, ConfigView, OverrideView, StreamOverride, UserOverride, UserView};
use crate::json;
use crate::pipewire;
use crate::pipewire::AudioStream;
use crate::text;
use vstd::prelude::*;
use vstd::string::*;

verus! {

broadcast use vstd::string::group_string_axioms;

// ---- palette ----

/// The colors to choose from: first the one that stands for no choice, then the pool's, each with
/// its red, green and blue.
pub open spec fn palette() -> Seq<(Option<u8>, (u8, u8, u8))> {
    seq![
        (None, (0x50u8, 0x50u8, 0x50u8)),
        (Some(0u8), (0xFFu8, 0x94u8, 0xA6u8)),
        (Some(1u8), (0xFFu8, 0xA5u8, 0x29u8)),
        (Some(3u8), (0xF7u8, 0xF4u8, 0x7Cu8)),
        (Some(5u8), (0x1Au8, 0xFFu8, 0x2Fu8)),
        (Some(7u8), (0x5Cu8, 0xFFu8, 0xE8u8)),
        (Some(9u8), (0x54u8, 0x80u8, 0xE4u8)),
        (Some(11u8), (0xD8u8, 0x6Cu8, 0xE4u8)),
        (Some(14u8), (0xFFu8, 0x36u8, 0x36u8)),
    ]
}

/// Where a color stands in the palette; what is not in it stands with no choice.
pub open spec fn palette_place(color: Option<u8>) -> int {
    match color {
        Some(0) => 1,
        Some(1) => 2,
        Some(3) => 3,
        Some(5) => 4,
        Some(7) => 5,
        Some(9) => 6,
        Some(11) => 7,
        Some(14) => 8,
        _ => 0,
    }
}

/// The colors to choose from.
pub fn palette_entries() -> (r: Vec<(Option<u8>, (u8, u8, u8))>)
    ensures
        r@ == palette(),
{
    let r: Vec<(Option<u8>, (u8, u8, u8))> = vec![
        (None, (0x50u8, 0x50u8, 0x50u8)),
        (Some(0u8), (0xFFu8, 0x94u8, 0xA6u8)),
        (Some(1u8), (0xFFu8, 0xA5u8, 0x29u8)),
        (Some(3u8), (0xF7u8, 0xF4u8, 0x7Cu8)),
        (Some(5u8), (0x1Au8, 0xFFu8, 0x2Fu8)),
        (Some(7u8), (0x5Cu8, 0xFFu8, 0xE8u8)),
        (Some(9u8), (0x54u8, 0x80u8, 0xE4u8)),
        (Some(11u8), (0xD8u8, 0x6Cu8, 0xE4u8)),
        (Some(14u8), (0xFFu8, 0x36u8, 0x36u8)),
    ];
    assert(r@ == palette());
    r
}

/// The red, green and blue with which a color is drawn.
pub fn palette_color(color: Option<u8>) -> (r: (u8, u8, u8))
    ensures
        r == palette()[palette_place(color)].1,
{
    match color {
        Some(0) => (0xFF, 0x94, 0xA6),
        Some(1) => (0xFF, 0xA5, 0x29),
        Some(3) => (0xF7, 0xF4, 0x7C),
        Some(5) => (0x1A, 0xFF, 0x2F),
        Some(7) => (0x5C, 0xFF, 0xE8),
        Some(9) => (0x54, 0x80, 0xE4),
        Some(11) => (0xD8, 0x6C, 0xE4),
        Some(14) => (0xFF, 0x36, 0x36),
        _ => (0x50, 0x50, 0x50),
    }
}

/// The palette offers exactly the colors that streams are given by their names, in the same
/// order, and every color stands at its own place.
pub proof fn palette_is_the_pool(i: int)
    requires
        0 <= i < 8,
    ensures
        palette().len() == 9,
        crate::surface::color_pool().len() == 8,
        palette()[i + 1].0 == Some(crate::surface::color_pool()[i]),
        palette_place(palette()[i + 1].0) == i + 1,
{
}

// ---- rows ----

/// The pages of the window.
#[derive(Debug, Clone, Copy, PartialEq, Eq, Structural)]
pub enum Tab {
    PipeWire,
    Discord,
    TeamSpeak,
}

/// What is being edited for one stream.
#[derive(Debug)]
pub struct StreamRow {
    pub binary: String,
    pub app_id: String,
    /// The name that the stream came with.
    pub raw_name: String,
    /// The name to show, as it stands in the input.
    pub name_input: String,
    pub color: Option<u8>,
    pub accent_color: Option<u8>,
    pub ignored: bool,
    /// Whether the stream is there now.
    pub is_live: bool,
    /// Whether the stream shows a title now.
    pub has_media_name: bool,
    /// Whether a player is asked for titles.
    pub use_mpris: bool,
    /// The player that was set; without one, the program's name is taken.
    pub mpris_player: Option<String>,
}

/// A stream's row, with its texts as sequences of characters.
pub struct StreamRowView {
    pub binary: Seq<char>,
    pub app_id: Seq<char>,
    pub raw_name: Seq<char>,
    pub name_input: Seq<char>,
    pub color: Option<u8>,
    pub accent_color: Option<u8>,
    pub ignored: bool,
    pub is_live: bool,
    pub has_media_name: bool,
    pub use_mpris: bool,
    pub mpris_player: Option<Seq<char>>,
}

impl View for StreamRow {
    type V = StreamRowView;

    open spec fn view(&self) -> StreamRowView {
        StreamRowView {
            binary: self.binary@,
            app_id: self.app_id@,
            raw_name: self.raw_name@,
            name_input: self.name_input@,
            color: self.color,
            accent_color: self.accent_color,
            ignored: self.ignored,
            is_live: self.is_live,
            has_media_name: self.has_media_name,
            use_mpris: self.use_mpris,
            mpris_player: text::option_text(self.mpris_player),
        }
    }
}

/// Rows for streams, by their views.
pub open spec fn stream_row_views(rows: Seq<StreamRow>) -> Seq<StreamRowView> {
    rows.map_values(|r: StreamRow| r@)
}

/// What is being edited for one user.
#[derive(Debug)]
pub struct UserRow {
    pub name_input: String,
    pub color: Option<u8>,
    pub priority_input: String,
}

/// A user's row, with its texts as sequences of characters.
pub struct UserRowView {
    pub name_input: Seq<char>,
    pub color: Option<u8>,
    pub priority_input: Seq<char>,
}

impl View for UserRow {
    type V = UserRowView;

    open spec fn view(&self) -> UserRowView {
        UserRowView {
            name_input: self.name_input@,
            color: self.color,
            priority_input: self.priority_input@,
        }
    }
}

/// Rows for users, by their views.
pub open spec fn user_row_views(rows: Seq<UserRow>) -> Seq<UserRowView> {
    rows.map_values(|r: UserRow| r@)
}

/// The row of a user that nothing is set for but the name.
pub open spec fn named_row(name: Seq<char>) -> UserRowView {
    UserRowView { name_input: name, color: None, priority_input: Seq::empty() }
}

/// The row that an entry for a user is edited in.
pub open spec fn user_row(u: UserView) -> UserRowView {
    UserRowView {
        name_input: u.name,
        color: u.color,
        priority_input: match u.priority {
            Some(p) => text::signed_decimal(p as int),
            None => Seq::empty(),
        },
    }
}

impl UserRow {
    /// A row with nothing in it.
    pub fn empty() -> (r: UserRow)
        ensures
            r@ == named_row(Seq::empty()),
    {
        UserRow { name_input: String::new(), color: None, priority_input: String::new() }
    }

    /// The row that an entry for a user is edited in.
    pub fn from_override(ov: &UserOverride) -> (r: UserRow)
        ensures
            r@ == user_row(ov@),
    {
        let priority_input = match ov.priority {
            Some(p) => text::signed_decimal_text(p),
            None => String::new(),
        };
        UserRow { name_input: ov.name.clone(), color: ov.color, priority_input }
    }
}

fn user_rows(users: &Vec<UserOverride>) -> (r: Vec<UserRow>)
    ensures
        user_row_views(r@) == config::user_views(users@).map_values(|u: UserView| user_row(u)),
{
    let mut r: Vec<UserRow> = Vec::new();
    let mut i: usize = 0;
    while i < users.len()
        invariant
            i <= users@.len(),
            r@.len() == i,
            forall|k: int| 0 <= k < i ==> (#[trigger] r@[k])@ == user_row(users@[k]@),
        decreases users@.len() - i,
    {
        r.push(UserRow::from_override(&users[i]));
        i += 1;
    }
    assert(user_row_views(r@) == config::user_views(users@).map_values(|u: UserView| user_row(u)));
    r
}

// ---- rows for streams ----

/// What a stream is told by: its program, else its portal name.
pub open spec fn stream_key(binary: Seq<char>, app_id: Seq<char>) -> Seq<char> {
    if binary.len() > 0 {
        binary
    } else {
        app_id
    }
}

/// What a row is told by.
pub fn row_key(row: &StreamRow) -> (r: String)
    ensures
        r@ == stream_key(row@.binary, row@.app_id),
{
    key_of(&row.binary, &row.app_id)
}

/// Whether a row offers the accent color: while the stream shows a title, or to take back one
/// that is set.
pub fn shows_accent(row: &StreamRow) -> (r: bool)
    ensures
        r == ((row@.is_live && row@.has_media_name) || row@.accent_color is Some),
{
    (row.is_live && row.has_media_name) || row.accent_color.is_some()
}

/// Whether one of some streams is told by a key.
pub open spec fn is_among(streams: Seq<pipewire::StreamView>, key: Seq<char>) -> bool {
    exists|i: int|
        0 <= i < streams.len() && stream_key(
            (#[trigger] streams[i]).binary,
            streams[i].app_id,
        ) == key
}

/// The row of a stream that is there: with what is set for its key, if anything is.
pub open spec fn live_row(
    entries: Seq<StreamOverride>,
    s: pipewire::StreamView,
) -> StreamRowView {
    let key = stream_key(s.binary, s.app_id);
    let i = config::entry_index(entries, key, key);
    let resolved = config::resolution(entries, s.binary, s.app_id, s.raw_name);
    if i < entries.len() {
        let entry = entries[i]@;
        let player = match entry.mpris_player {
            Some(p) => Some(p),
            None => resolved.mpris_player,
        };
        StreamRowView {
            binary: s.binary,
            app_id: s.app_id,
            raw_name: s.raw_name,
            name_input: entry.name,
            color: entry.color,
            accent_color: entry.accent_color,
            ignored: entry.ignored,
            is_live: true,
            has_media_name: s.media_name is Some,
            use_mpris: player is Some,
            mpris_player: player,
        }
    } else {
        StreamRowView {
            binary: s.binary,
            app_id: s.app_id,
            raw_name: s.raw_name,
            name_input: s.raw_name,
            color: None,
            accent_color: None,
            ignored: false,
            is_live: true,
            has_media_name: s.media_name is Some,
            use_mpris: resolved.mpris_player is Some,
            mpris_player: resolved.mpris_player,
        }
    }
}

/// The rows of the streams that are there: one for each key, that of the first stream with it.
pub open spec fn live_rows(
    entries: Seq<StreamOverride>,
    streams: Seq<pipewire::StreamView>,
) -> Seq<StreamRowView>
    decreases streams.len(),
{
    if streams.len() == 0 {
        Seq::empty()
    } else {
        let earlier = streams.drop_last();
        let s = streams.last();
        let key = stream_key(s.binary, s.app_id);
        if key.len() == 0 || is_among(earlier, key) {
            live_rows(entries, earlier)
        } else {
            live_rows(entries, earlier).push(live_row(entries, s))
        }
    }
}

/// What an entry is told by: its program, else its portal name, else nothing.
pub open spec fn entry_key(entry: OverrideView) -> Seq<char> {
    match (entry.binary, entry.app_id) {
        (Some(b), _) => b,
        (None, Some(a)) => a,
        (None, None) => Seq::empty(),
    }
}

/// The row of an entry whose stream is not there.
pub open spec fn offline_row(entry: OverrideView) -> StreamRowView {
    StreamRowView {
        binary: pipewire::or_empty(entry.binary),
        app_id: pipewire::or_empty(entry.app_id),
        raw_name: entry.name,
        name_input: entry.name,
        color: entry.color,
        accent_color: entry.accent_color,
        ignored: entry.ignored,
        is_live: false,
        has_media_name: false,
        use_mpris: entry.mpris_player is Some,
        mpris_player: entry.mpris_player,
    }
}

/// The rows of the entries that no stream there is told by.
pub open spec fn offline_rows(
    entries: Seq<OverrideView>,
    streams: Seq<pipewire::StreamView>,
) -> Seq<StreamRowView>
    decreases entries.len(),
{
    if entries.len() == 0 {
        Seq::empty()
    } else {
        let before = offline_rows(entries.drop_last(), streams);
        let key = entry_key(entries.last());
        if key.len() == 0 || is_among(streams, key) {
            before
        } else {
            before.push(offline_row(entries.last()))
        }
    }
}

/// All rows: first the streams that are there, then the entries for others.
pub open spec fn stream_rows(
    entries: Seq<StreamOverride>,
    streams: Seq<pipewire::StreamView>,
) -> Seq<StreamRowView> {
    live_rows(entries, streams) + offline_rows(config::override_views(entries), streams)
}

fn key_of(binary: &String, app_id: &String) -> (r: String)
    ensures
        r@ == stream_key(binary@, app_id@),
{
    if !binary.as_str().is_empty() {
        binary.clone()
    } else {
        app_id.clone()
    }
}

fn occurs_among(streams: &Vec<AudioStream>, n: usize, key: &str) -> (r: bool)
    requires
        n <= streams@.len(),
    ensures
        r == is_among(pipewire::stream_views(streams@).take(n as int), key@),
{
    let ghost views = pipewire::stream_views(streams@).take(n as int);
    let mut i: usize = 0;
    while i < n
        invariant
            i <= n <= streams@.len(),
            views == pipewire::stream_views(streams@).take(n as int),
            forall|k: int|
                0 <= k < i ==> stream_key((#[trigger] views[k]).binary, views[k].app_id) != key@,
        decreases n - i,
    {
        let other = key_of(&streams[i].binary, &streams[i].app_id);
        assert(views[i as int] == streams@[i as int]@);
        if text::same_text(other.as_str(), key) {
            return true;
        }
        i += 1;
    }
    false
}

fn live_stream_row(config: &Config, stream: &AudioStream, key: &str) -> (r: StreamRow)
    requires
        key@ == stream_key(stream@.binary, stream@.app_id),
    ensures
        r@ == live_row(config.streams@, stream@),
{
    let resolved = config.resolve(
        stream.binary.as_str(),
        stream.app_id.as_str(),
        stream.raw_name.as_str(),
    );
    let found = config::find_entry(&config.streams, key, key);
    let mut row = StreamRow {
        binary: stream.binary.clone(),
        app_id: stream.app_id.clone(),
        raw_name: stream.raw_name.clone(),
        name_input: stream.raw_name.clone(),
        color: None,
        accent_color: None,
        ignored: false,
        is_live: true,
        has_media_name: stream.media_name.is_some(),
        use_mpris: resolved.mpris_player.is_some(),
        mpris_player: resolved.mpris_player,
    };
    if let Some(i) = found {
        let entry = &config.streams[i];
        row.name_input = entry.name.clone();
        row.color = entry.color;
        row.accent_color = entry.accent_color;
        row.ignored = entry.ignored;
        if entry.mpris_player.is_some() {
            row.mpris_player = entry.mpris_player.clone();
            row.use_mpris = true;
        }
    }
    row
}

fn offline_stream_row(entry: &StreamOverride) -> (r: StreamRow)
    ensures
        r@ == offline_row(entry@),
{
    let binary = match &entry.binary {
        Some(b) => b.clone(),
        None => String::new(),
    };
    let app_id = match &entry.app_id {
        Some(a) => a.clone(),
        None => String::new(),
    };
    StreamRow {
        binary,
        app_id,
        raw_name: entry.name.clone(),
        name_input: entry.name.clone(),
        color: entry.color,
        accent_color: entry.accent_color,
        ignored: entry.ignored,
        is_live: false,
        has_media_name: false,
        use_mpris: entry.mpris_player.is_some(),
        mpris_player: entry.mpris_player.clone(),
    }
}

fn key_of_entry(entry: &StreamOverride) -> (r: String)
    ensures
        r@ == entry_key(entry@),
{
    if let Some(b) = &entry.binary {
        return b.clone();
    }
    if let Some(a) = &entry.app_id {
        return a.clone();
    }
    String::new()
}

/// The rows for the streams that are there, and for the entries of others.
pub fn build_stream_rows(config: &Config, streams: &Vec<AudioStream>) -> (r: Vec<StreamRow>)
    ensures
        stream_row_views(r@) == stream_rows(config.streams@, pipewire::stream_views(streams@)),
{
    let ghost entries = config.streams@;
    let ghost views = pipewire::stream_views(streams@);
    let mut rows: Vec<StreamRow> = Vec::new();
    let mut i: usize = 0;
    assert(stream_row_views(rows@) == live_rows(entries, views.take(0)));
    while i < streams.len()
        invariant
            i <= streams@.len(),
            entries == config.streams@,
            views == pipewire::stream_views(streams@),
            stream_row_views(rows@) == live_rows(entries, views.take(i as int)),
        decreases streams@.len() - i,
    {
        let ghost before = stream_row_views(rows@);
        let key = key_of(&streams[i].binary, &streams[i].app_id);
        assert(views.take(i + 1).drop_last() == views.take(i as int));
        assert(views.take(i + 1).last() == streams@[i as int]@);
        if !key.as_str().is_empty() && !occurs_among(streams, i, key.as_str()) {
            let row = live_stream_row(config, &streams[i], key.as_str());
            rows.push(row);
            assert(stream_row_views(rows@) == before.push(row@));
        }
        i += 1;
    }
    assert(views.take(i as int) == views);
    let ghost live = stream_row_views(rows@);
    let ghost saved = config::override_views(entries);
    let n: usize = streams.len();
    let mut k: usize = 0;
    assert(stream_row_views(rows@) == live + offline_rows(saved.take(0), views));
    while k < config.streams.len()
        invariant
            k <= config.streams@.len(),
            n == streams@.len(),
            entries == config.streams@,
            views == pipewire::stream_views(streams@),
            views.take(n as int) == views,
            saved == config::override_views(entries),
            stream_row_views(rows@) == live + offline_rows(saved.take(k as int), views),
        decreases config.streams@.len() - k,
    {
        let ghost before = stream_row_views(rows@);
        let key = key_of_entry(&config.streams[k]);
        assert(saved.take(k + 1).drop_last() == saved.take(k as int));
        assert(saved.take(k + 1).last() == config.streams@[k as int]@);
        if !key.as_str().is_empty() && !occurs_among(streams, n, key.as_str()) {
            let row = offline_stream_row(&config.streams[k]);
            rows.push(row);
            assert(stream_row_views(rows@) == before.push(row@));
        }
        k += 1;
        assert(stream_row_views(rows@) == live + offline_rows(saved.take(k as int), views));
    }
    assert(saved.take(k as int) == saved);
    rows
}

// ---- what is saved ----

/// Whether a stream's row says anything that has to be saved.
pub open spec fn has_override(row: StreamRowView) -> bool {
    row.name_input != row.raw_name || row.color is Some || row.accent_color is Some || row.ignored
        || row.use_mpris
}

/// A text, if there is anything in it.
pub open spec fn nonempty(s: Seq<char>) -> Option<Seq<char>> {
    if s.len() == 0 {
        None
    } else {
        Some(s)
    }
}

/// The entry that a stream's row is saved as.
pub open spec fn saved_entry(row: StreamRowView) -> OverrideView {
    OverrideView {
        binary: nonempty(row.binary),
        app_id: nonempty(row.app_id),
        name: row.name_input,
        mpris_player: if row.use_mpris {
            match row.mpris_player {
                Some(p) => Some(p),
                None => Some(row.binary),
            }
        } else {
            None
        },
        color: row.color,
        accent_color: row.accent_color,
        ignored: row.ignored,
    }
}

/// The entries that the streams' rows are saved as: one for every row that says anything.
pub open spec fn saved_entries(rows: Seq<StreamRowView>) -> Seq<OverrideView>
    decreases rows.len(),
{
    if rows.len() == 0 {
        Seq::empty()
    } else {
        let before = saved_entries(rows.drop_last());
        if has_override(rows.last()) {
            before.push(saved_entry(rows.last()))
        } else {
            before
        }
    }
}

/// The entry that a user's row is saved as: the name without white space around it, and the
/// priority where the input is a whole number.
pub open spec fn saved_user(row: UserRowView) -> UserView {
    UserView {
        name: text::trimmed(row.name_input),
        color: row.color,
        priority: match text::parsed_i32(row.priority_input) {
            Some(p) => Some(p as i32),
            None => None,
        },
    }
}

/// The entries that the users' rows are saved as: one for every row with a name.
pub open spec fn saved_users(rows: Seq<UserRowView>) -> Seq<UserView>
    decreases rows.len(),
{
    if rows.len() == 0 {
        Seq::empty()
    } else {
        let before = saved_users(rows.drop_last());
        if text::trimmed(rows.last().name_input).len() > 0 {
            before.push(saved_user(rows.last()))
        } else {
            before
        }
    }
}

fn text_if_any(s: &String) -> (r: Option<String>)
    ensures
        text::option_text(r) == nonempty(s@),
{
    if s.as_str().is_empty() {
        None
    } else {
        Some(s.clone())
    }
}

fn entry_of_row(row: &StreamRow) -> (r: Option<StreamOverride>)
    ensures
        match r {
            Some(e) => has_override(row@) && e@ == saved_entry(row@),
            None => !has_override(row@),
        },
{
    let renamed = !text::same_text(row.name_input.as_str(), row.raw_name.as_str());
    if !renamed && row.color.is_none() && row.accent_color.is_none() && !row.ignored
        && !row.use_mpris {
        return None;
    }
    let mpris_player = if row.use_mpris {
        match &row.mpris_player {
            Some(p) => Some(p.clone()),
            None => Some(row.binary.clone()),
        }
    } else {
        None
    };
    Some(
        StreamOverride {
            binary: text_if_any(&row.binary),
            app_id: text_if_any(&row.app_id),
            name: row.name_input.clone(),
            mpris_player,
            color: row.color,
            accent_color: row.accent_color,
            ignored: row.ignored,
        },
    )
}

fn entries_of_rows(rows: &Vec<StreamRow>) -> (r: Vec<StreamOverride>)
    ensures
        config::override_views(r@) == saved_entries(stream_row_views(rows@)),
{
    let ghost views = stream_row_views(rows@);
    let mut r: Vec<StreamOverride> = Vec::new();
    let mut i: usize = 0;
    assert(config::override_views(r@) == saved_entries(views.take(0)));
    while i < rows.len()
        invariant
            i <= rows@.len(),
            views == stream_row_views(rows@),
            config::override_views(r@) == saved_entries(views.take(i as int)),
        decreases rows@.len() - i,
    {
        let ghost before = config::override_views(r@);
        if let Some(e) = entry_of_row(&rows[i]) {
            r.push(e);
            assert(config::override_views(r@) == before.push(e@));
        }
        assert(views.take(i + 1).drop_last() == views.take(i as int));
        assert(views.take(i + 1).last() == rows@[i as int]@);
        i += 1;
    }
    assert(views.take(i as int) == views);
    r
}

fn users_of_rows(rows: &Vec<UserRow>) -> (r: Vec<UserOverride>)
    ensures
        config::user_views(r@) == saved_users(user_row_views(rows@)),
{
    let ghost views = user_row_views(rows@);
    let mut r: Vec<UserOverride> = Vec::new();
    let mut i: usize = 0;
    assert(config::user_views(r@) == saved_users(views.take(0)));
    while i < rows.len()
        invariant
            i <= rows@.len(),
            views == user_row_views(rows@),
            config::user_views(r@) == saved_users(views.take(i as int)),
        decreases rows@.len() - i,
    {
        let ghost before = config::user_views(r@);
        let name = text::trim(rows[i].name_input.as_str());
        if !name.as_str().is_empty() {
            let user = UserOverride {
                name,
                color: rows[i].color,
                priority: text::parse_i32(rows[i].priority_input.as_str()),
            };
            r.push(user);
            assert(config::user_views(r@) == before.push(user@));
        }
        assert(views.take(i + 1).drop_last() == views.take(i as int));
        assert(views.take(i + 1).last() == rows@[i as int]@);
        i += 1;
    }
    assert(views.take(i as int) == views);
    r
}

// ---- the window ----

/// What the window holds.
#[derive(Debug)]
pub struct App {
    pub tab: Tab,
    pub config: Config,
    pub streams: Vec<StreamRow>,
    pub discord_users: Vec<UserRow>,
    pub ts3_users: Vec<UserRow>,
    /// Who is in the Discord channel.
    pub discord_active: Vec<String>,
    /// Who is in the TeamSpeak channel.
    pub ts3_active: Vec<String>,
    /// Who is chosen to be added.
    pub discord_add_sel: Option<String>,
    /// Who is chosen to be added.
    pub ts3_add_sel: Option<String>,
    /// What is told at the bottom of the window.
    pub status: String,
}

/// What the window holds, with its texts as sequences of characters.
pub struct AppView {
    pub tab: Tab,
    pub config: ConfigView,
    pub streams: Seq<StreamRowView>,
    pub discord_users: Seq<UserRowView>,
    pub ts3_users: Seq<UserRowView>,
    pub discord_active: Seq<Seq<char>>,
    pub ts3_active: Seq<Seq<char>>,
    pub discord_add_sel: Option<Seq<char>>,
    pub ts3_add_sel: Option<Seq<char>>,
    pub status: Seq<char>,
}

impl View for App {
    type V = AppView;

    open spec fn view(&self) -> AppView {
        AppView {
            tab: self.tab,
            config: self.config@,
            streams: stream_row_views(self.streams@),
            discord_users: user_row_views(self.discord_users@),
            ts3_users: user_row_views(self.ts3_users@),
            discord_active: text::texts(self.discord_active@),
            ts3_active: text::texts(self.ts3_active@),
            discord_add_sel: text::option_text(self.discord_add_sel),
            ts3_add_sel: text::option_text(self.ts3_add_sel),
            status: self.status@,
        }
    }
}

/// What the user did.
#[derive(Debug, Clone)]
pub enum Message {
    TabSelected(Tab),
    StreamNameChanged(usize, String),
    StreamColorSelected(usize, Option<u8>),
    StreamAccentColorSelected(usize, Option<u8>),
    StreamIgnoreToggled(usize, bool),
    StreamMprisToggled(usize, bool),
    RemoveStream(usize),
    Refresh,
    AddDiscordUser,
    DiscordActiveUserSelected(String),
    AddDiscordUserFromActive,
    DiscordUserNameChanged(usize, String),
    DiscordUserColorSelected(usize, Option<u8>),
    DiscordUserPriorityChanged(usize, String),
    RemoveDiscordUser(usize),
    AddTs3User,
    Ts3ActiveUserSelected(String),
    AddTs3UserFromActive,
    Ts3UserNameChanged(usize, String),
    Ts3UserColorSelected(usize, Option<u8>),
    Ts3UserPriorityChanged(usize, String),
    RemoveTs3User(usize),
    SetPipewireEnabled(bool),
    SetDiscordEnabled(bool),
    SetTeamspeakEnabled(bool),
    Save,
}

/// What the window asks of its surroundings.
#[derive(Debug, Clone, Copy, PartialEq, Eq, Structural)]
pub enum Request {
    /// Look at the streams and the members again, and call [`App::refreshed`].
    Refresh,
    /// Write the configuration, and call [`App::saved`].
    Save,
}

/// What a message asks of the surroundings.
pub open spec fn request_of(msg: Message) -> Option<Request> {
    match msg {
        Message::Refresh => Some(Request::Refresh),
        Message::Save => Some(Request::Save),
        _ => None,
    }
}

/// A list with one item changed, if there is such an item.
pub open spec fn with_item<T>(list: Seq<T>, i: int, item: T) -> Seq<T> {
    if 0 <= i < list.len() {
        list.update(i, item)
    } else {
        list
    }
}

/// A list without one item, if there is such an item.
pub open spec fn without_item<T>(list: Seq<T>, i: int) -> Seq<T> {
    if 0 <= i < list.len() {
        list.remove(i)
    } else {
        list
    }
}

/// Whether one of some rows has a name.
pub open spec fn has_row(rows: Seq<UserRowView>, name: Seq<char>) -> bool {
    exists|i: int| 0 <= i < rows.len() && (#[trigger] rows[i]).name_input == name
}

/// The rows with one for the chosen user, unless there is one already.
pub open spec fn with_user(rows: Seq<UserRowView>, chosen: Option<Seq<char>>) -> Seq<UserRowView> {
    match chosen {
        Some(name) => if has_row(rows, name) {
            rows
        } else {
            rows.push(named_row(name))
        },
        None => rows,
    }
}

/// The configuration with everything in the window taken over.
pub open spec fn saved_config(a: AppView) -> ConfigView {
    ConfigView {
        streams: saved_entries(a.streams),
        discord_users: saved_users(a.discord_users),
        teamspeak_users: saved_users(a.ts3_users),
        ..a.config
    }
}

/// The window after a message about streams.
pub open spec fn after_stream_message(a: AppView, msg: Message) -> AppView {
    match msg {
        Message::StreamNameChanged(i, s) => AppView {
            streams: with_item(
                a.streams,
                i as int,
                StreamRowView { name_input: s@, ..a.streams[i as int] },
            ),
            ..a
        },
        Message::StreamColorSelected(i, color) => AppView {
            streams: with_item(a.streams, i as int, StreamRowView { color, ..a.streams[i as int] }),
            ..a
        },
        Message::StreamAccentColorSelected(i, accent_color) => AppView {
            streams: with_item(
                a.streams,
                i as int,
                StreamRowView { accent_color, ..a.streams[i as int] },
            ),
            ..a
        },
        Message::StreamIgnoreToggled(i, ignored) => AppView {
            streams: with_item(
                a.streams,
                i as int,
                StreamRowView { ignored, ..a.streams[i as int] },
            ),
            ..a
        },
        Message::StreamMprisToggled(i, use_mpris) => AppView {
            streams: with_item(
                a.streams,
                i as int,
                StreamRowView { use_mpris, ..a.streams[i as int] },
            ),
            ..a
        },
        Message::RemoveStream(i) => AppView { streams: without_item(a.streams, i as int), ..a },
        _ => a,
    }
}

/// The window after a message about Discord users.
pub open spec fn after_discord_message(a: AppView, msg: Message) -> AppView {
    let rows = a.discord_users;
    match msg {
        Message::AddDiscordUser => AppView { discord_users: rows.push(named_row(Seq::empty())), ..a },
        Message::DiscordActiveUserSelected(s) => AppView { discord_add_sel: Some(s@), ..a },
        Message::AddDiscordUserFromActive => AppView {
            discord_users: with_user(rows, a.discord_add_sel),
            discord_add_sel: None,
            ..a
        },
        Message::DiscordUserNameChanged(i, s) => AppView {
            discord_users: with_item(
                rows,
                i as int,
                UserRowView { name_input: s@, ..rows[i as int] },
            ),
            ..a
        },
        Message::DiscordUserColorSelected(i, color) => AppView {
            discord_users: with_item(rows, i as int, UserRowView { color, ..rows[i as int] }),
            ..a
        },
        Message::DiscordUserPriorityChanged(i, s) => AppView {
            discord_users: with_item(
                rows,
                i as int,
                UserRowView { priority_input: s@, ..rows[i as int] },
            ),
            ..a
        },
        Message::RemoveDiscordUser(i) => AppView {
            discord_users: without_item(rows, i as int),
            ..a
        },
        _ => a,
    }
}

/// The window after a message about TeamSpeak users.
pub open spec fn after_ts3_message(a: AppView, msg: Message) -> AppView {
    let rows = a.ts3_users;
    match msg {
        Message::AddTs3User => AppView { ts3_users: rows.push(named_row(Seq::empty())), ..a },
        Message::Ts3ActiveUserSelected(s) => AppView { ts3_add_sel: Some(s@), ..a },
        Message::AddTs3UserFromActive => AppView {
            ts3_users: with_user(rows, a.ts3_add_sel),
            ts3_add_sel: None,
            ..a
        },
        Message::Ts3UserNameChanged(i, s) => AppView {
            ts3_users: with_item(rows, i as int, UserRowView { name_input: s@, ..rows[i as int] }),
            ..a
        },
        Message::Ts3UserColorSelected(i, color) => AppView {
            ts3_users: with_item(rows, i as int, UserRowView { color, ..rows[i as int] }),
            ..a
        },
        Message::Ts3UserPriorityChanged(i, s) => AppView {
            ts3_users: with_item(
                rows,
                i as int,
                UserRowView { priority_input: s@, ..rows[i as int] },
            ),
            ..a
        },
        Message::RemoveTs3User(i) => AppView { ts3_users: without_item(rows, i as int), ..a },
        _ => a,
    }
}

/// Discord's settings, switched on or off; without settings there is nothing to switch.
pub open spec fn discord_switched(
    discord: Option<config::DiscordConfig>,
    enabled: bool,
) -> Option<config::DiscordConfig> {
    match discord {
        Some(d) => Some(config::DiscordConfig { enabled, ..d }),
        None => None,
    }
}

/// TeamSpeak's settings, switched on or off; without settings there is nothing to switch.
pub open spec fn teamspeak_switched(
    teamspeak: Option<config::TeamSpeakConfig>,
    enabled: bool,
) -> Option<config::TeamSpeakConfig> {
    match teamspeak {
        Some(t) => Some(config::TeamSpeakConfig { enabled, ..t }),
        None => None,
    }
}

/// The window after a message.
pub open spec fn after_message(a: AppView, msg: Message) -> AppView {
    match msg {
        Message::TabSelected(tab) => AppView { tab, ..a },
        Message::SetPipewireEnabled(v) => AppView {
            config: ConfigView { pipewire_enabled: v, ..a.config },
            ..a
        },
        Message::SetDiscordEnabled(v) => AppView {
            config: ConfigView { discord: discord_switched(a.config.discord, v), ..a.config },
            ..a
        },
        Message::SetTeamspeakEnabled(v) => AppView {
            config: ConfigView { teamspeak: teamspeak_switched(a.config.teamspeak, v), ..a.config },
            ..a
        },
        Message::Save => AppView { config: saved_config(a), ..a },
        Message::Refresh => a,
        _ => after_ts3_message(after_discord_message(after_stream_message(a, msg), msg), msg),
    }
}

/// The window as it opens.
pub open spec fn opened(
    config: Config,
    streams: Seq<pipewire::StreamView>,
    discord_active: Seq<Seq<char>>,
    ts3_active: Seq<Seq<char>>,
) -> AppView {
    AppView {
        tab: Tab::PipeWire,
        config: config@,
        streams: stream_rows(config.streams@, streams),
        discord_users: config@.discord_users.map_values(|u: UserView| user_row(u)),
        ts3_users: config@.teamspeak_users.map_values(|u: UserView| user_row(u)),
        discord_active,
        ts3_active,
        discord_add_sel: None,
        ts3_add_sel: None,
        status: Seq::empty(),
    }
}

/// The window once the streams and the members have been looked at again.
pub open spec fn looked_again(
    a: AppView,
    entries: Seq<StreamOverride>,
    streams: Seq<pipewire::StreamView>,
    discord_active: Seq<Seq<char>>,
    ts3_active: Seq<Seq<char>>,
) -> AppView {
    AppView {
        streams: stream_rows(entries, streams),
        discord_active,
        ts3_active,
        status: Seq::empty(),
        ..a
    }
}

fn row_exists(rows: &Vec<UserRow>, name: &str) -> (r: bool)
    ensures
        r == has_row(user_row_views(rows@), name@),
{
    let ghost views = user_row_views(rows@);
    let mut i: usize = 0;
    while i < rows.len()
        invariant
            i <= rows@.len(),
            views == user_row_views(rows@),
            forall|k: int| 0 <= k < i ==> (#[trigger] views[k]).name_input != name@,
        decreases rows@.len() - i,
    {
        assert(views[i as int] == rows@[i as int]@);
        if text::same_text(rows[i].name_input.as_str(), name) {
            return true;
        }
        i += 1;
    }
    false
}

fn add_user(rows: &mut Vec<UserRow>, chosen: Option<String>)
    ensures
        user_row_views(final(rows)@) == with_user(
            user_row_views(old(rows)@),
            text::option_text(chosen),
        ),
{
    let ghost before = user_row_views(rows@);
    if let Some(name) = chosen {
        if !row_exists(rows, name.as_str()) {
            let row = UserRow { name_input: name, color: None, priority_input: String::new() };
            rows.push(row);
            assert(user_row_views(rows@) == before.push(row@));
        }
    }
}

fn add_empty_user(rows: &mut Vec<UserRow>)
    ensures
        user_row_views(final(rows)@) == user_row_views(old(rows)@).push(named_row(Seq::empty())),
{
    rows.push(UserRow::empty());
    assert(user_row_views(rows@) == user_row_views(old(rows)@).push(named_row(Seq::empty())));
}

fn rename_user(rows: &mut Vec<UserRow>, i: usize, name: String)
    ensures
        user_row_views(final(rows)@) == with_item(
            user_row_views(old(rows)@),
            i as int,
            UserRowView { name_input: name@, ..user_row_views(old(rows)@)[i as int] },
        ),
{
    if i < rows.len() {
        rows[i].name_input = name;
    }
    assert(user_row_views(rows@) == with_item(
        user_row_views(old(rows)@),
        i as int,
        UserRowView { name_input: name@, ..user_row_views(old(rows)@)[i as int] },
    ));
}

fn color_user(rows: &mut Vec<UserRow>, i: usize, color: Option<u8>)
    ensures
        user_row_views(final(rows)@) == with_item(
            user_row_views(old(rows)@),
            i as int,
            UserRowView { color, ..user_row_views(old(rows)@)[i as int] },
        ),
{
    if i < rows.len() {
        rows[i].color = color;
    }
    assert(user_row_views(rows@) == with_item(
        user_row_views(old(rows)@),
        i as int,
        UserRowView { color, ..user_row_views(old(rows)@)[i as int] },
    ));
}

fn rank_user(rows: &mut Vec<UserRow>, i: usize, priority: String)
    ensures
        user_row_views(final(rows)@) == with_item(
            user_row_views(old(rows)@),
            i as int,
            UserRowView { priority_input: priority@, ..user_row_views(old(rows)@)[i as int] },
        ),
{
    if i < rows.len() {
        rows[i].priority_input = priority;
    }
    assert(user_row_views(rows@) == with_item(
        user_row_views(old(rows)@),
        i as int,
        UserRowView { priority_input: priority@, ..user_row_views(old(rows)@)[i as int] },
    ));
}

fn remove_user(rows: &mut Vec<UserRow>, i: usize)
    ensures
        user_row_views(final(rows)@) == without_item(user_row_views(old(rows)@), i as int),
{
    if i < rows.len() {
        rows.remove(i);
    }
    assert(user_row_views(rows@) == without_item(user_row_views(old(rows)@), i as int));
}

impl App {
    /// The window as it opens.
    pub fn init(
        config: Config,
        streams: &Vec<AudioStream>,
        discord_active: Vec<String>,
        ts3_active: Vec<String>,
    ) -> (r: App)
        ensures
            r@ == (AppView {
                tab: Tab::PipeWire,
                config: config@,
                streams: stream_rows(config.streams@, pipewire::stream_views(streams@)),
                discord_users: config@.discord_users.map_values(|u: UserView| user_row(u)),
                ts3_users: config@.teamspeak_users.map_values(|u: UserView| user_row(u)),
                discord_active: text::texts(discord_active@),
                ts3_active: text::texts(ts3_active@),
                discord_add_sel: None,
                ts3_add_sel: None,
                status: Seq::empty(),
            }),
            r@ == opened(
                config,
                pipewire::stream_views(streams@),
                text::texts(discord_active@),
                text::texts(ts3_active@),
            ),
    {
        let rows = build_stream_rows(&config, streams);
        let discord_users = user_rows(&config.discord_users);
        let ts3_users = user_rows(&config.teamspeak_users);
        App {
            tab: Tab::PipeWire,
            config,
            streams: rows,
            discord_users,
            ts3_users,
            discord_active,
            ts3_active,
            discord_add_sel: None,
            ts3_add_sel: None,
            status: String::new(),
        }
    }

    fn update_stream(&mut self, msg: Message)
        ensures
            final(self)@ == after_stream_message(old(self)@, msg),
    {
        match msg {
            Message::StreamNameChanged(i, s) => {
                if i < self.streams.len() {
                    self.streams[i].name_input = s;
                }
            },
            Message::StreamColorSelected(i, c) => {
                if i < self.streams.len() {
                    self.streams[i].color = c;
                }
            },
            Message::StreamAccentColorSelected(i, c) => {
                if i < self.streams.len() {
                    self.streams[i].accent_color = c;
                }
            },
            Message::StreamIgnoreToggled(i, v) => {
                if i < self.streams.len() {
                    self.streams[i].ignored = v;
                }
            },
            Message::StreamMprisToggled(i, v) => {
                if i < self.streams.len() {
                    self.streams[i].use_mpris = v;
                }
            },
            Message::RemoveStream(i) => {
                if i < self.streams.len() {
                    self.streams.remove(i);
                }
            },
            _ => {},
        }
        assert(self@.streams == after_stream_message(old(self)@, msg).streams);
    }

    fn update_discord(&mut self, msg: Message)
        ensures
            final(self)@ == after_discord_message(old(self)@, msg),
    {
        match msg {
            Message::AddDiscordUser => {
                add_empty_user(&mut self.discord_users);
            },
            Message::DiscordActiveUserSelected(s) => {
                self.discord_add_sel = Some(s);
            },
            Message::AddDiscordUserFromActive => {
                let chosen = self.discord_add_sel.take();
                add_user(&mut self.discord_users, chosen);
            },
            Message::DiscordUserNameChanged(i, s) => {
                rename_user(&mut self.discord_users, i, s);
            },
            Message::DiscordUserColorSelected(i, c) => {
                color_user(&mut self.discord_users, i, c);
            },
            Message::DiscordUserPriorityChanged(i, s) => {
                rank_user(&mut self.discord_users, i, s);
            },
            Message::RemoveDiscordUser(i) => {
                remove_user(&mut self.discord_users, i);
            },
            _ => {},
        }
    }

    fn update_ts3(&mut self, msg: Message)
        ensures
            final(self)@ == after_ts3_message(old(self)@, msg),
    {
        match msg {
            Message::AddTs3User => {
                add_empty_user(&mut self.ts3_users);
            },
            Message::Ts3ActiveUserSelected(s) => {
                self.ts3_add_sel = Some(s);
            },
            Message::AddTs3UserFromActive => {
                let chosen = self.ts3_add_sel.take();
                add_user(&mut self.ts3_users, chosen);
            },
            Message::Ts3UserNameChanged(i, s) => {
                rename_user(&mut self.ts3_users, i, s);
            },
            Message::Ts3UserColorSelected(i, c) => {
                color_user(&mut self.ts3_users, i, c);
            },
            Message::Ts3UserPriorityChanged(i, s) => {
                rank_user(&mut self.ts3_users, i, s);
            },
            Message::RemoveTs3User(i) => {
                remove_user(&mut self.ts3_users, i);
            },
            _ => {},
        }
    }

    /// Takes in what the user did. The answer says what the surroundings have to do about it.
    pub fn update(&mut self, msg: Message) -> (r: Option<Request>)
        ensures
            final(self)@ == after_message(old(self)@, msg),
            r == request_of(msg),
    {
        match msg {
            Message::TabSelected(tab) => {
                self.tab = tab;
            },
            Message::SetPipewireEnabled(v) => {
                self.config.pipewire_enabled = v;
            },
            Message::SetDiscordEnabled(v) => {
                if let Some(d) = &mut self.config.discord {
                    d.enabled = v;
                }
            },
            Message::SetTeamspeakEnabled(v) => {
                if let Some(t) = &mut self.config.teamspeak {
                    t.enabled = v;
                }
            },
            Message::Refresh => {
                return Some(Request::Refresh);
            },
            Message::Save => {
                self.config.streams = entries_of_rows(&self.streams);
                self.config.discord_users = users_of_rows(&self.discord_users);
                self.config.teamspeak_users = users_of_rows(&self.ts3_users);
                return Some(Request::Save);
            },
            Message::StreamNameChanged(..) | Message::StreamColorSelected(..)
            | Message::StreamAccentColorSelected(..) | Message::StreamIgnoreToggled(..)
            | Message::StreamMprisToggled(..) | Message::RemoveStream(..) => {
                self.update_stream(msg);
            },
            Message::AddDiscordUser | Message::DiscordActiveUserSelected(..)
            | Message::AddDiscordUserFromActive | Message::DiscordUserNameChanged(..)
            | Message::DiscordUserColorSelected(..) | Message::DiscordUserPriorityChanged(..)
            | Message::RemoveDiscordUser(..) => {
                self.update_discord(msg);
            },
            _ => {
                self.update_ts3(msg);
            },
        }
        None
    }

    /// Takes in the streams and the members that there are now, and clears the status.
    pub fn refreshed(
        &mut self,
        streams: &Vec<AudioStream>,
        discord_active: Vec<String>,
        ts3_active: Vec<String>,
    )
        ensures
            final(self)@ == (AppView {
                streams: stream_rows(
                    old(self).config.streams@,
                    pipewire::stream_views(streams@),
                ),
                discord_active: text::texts(discord_active@),
                ts3_active: text::texts(ts3_active@),
                status: Seq::empty(),
                ..old(self)@
            }),
            final(self)@ == looked_again(
                old(self)@,
                old(self).config.streams@,
                pipewire::stream_views(streams@),
                text::texts(discord_active@),
                text::texts(ts3_active@),
            ),
    {
        self.streams = build_stream_rows(&self.config, streams);
        self.discord_active = discord_active;
        self.ts3_active = ts3_active;
        self.status = String::new();
    }

    /// Tells how saving came out.
    pub fn saved(&mut self, outcome: Result<(), String>)
        ensures
            final(self)@ == (AppView {
                status: match outcome {
                    Ok(_) => "Saved! Changes apply within ~1 second."@,
                    Err(e) => "Save error: "@ + e@,
                },
                ..old(self)@
            }),
    {
        match outcome {
            Ok(_) => {
                self.status = "Saved! Changes apply within ~1 second.".to_string();
            },
            Err(e) => {
                let mut status = "Save error: ".to_string();
                status.append(e.as_str());
                self.status = status;
            },
        }
    }
}

// ---- members that can be added ----

/// The active members that no row has the name of, in order.
pub open spec fn addable(active: Seq<Seq<char>>, rows: Seq<UserRowView>) -> Seq<Seq<char>>
    decreases active.len(),
{
    if active.len() == 0 {
        Seq::empty()
    } else {
        let before = addable(active.drop_last(), rows);
        if has_row(rows, active.last()) {
            before
        } else {
            before.push(active.last())
        }
    }
}

/// The active members that can be added.
pub fn available(active: &Vec<String>, rows: &Vec<UserRow>) -> (r: Vec<String>)
    ensures
        text::texts(r@) == addable(text::texts(active@), user_row_views(rows@)),
{
    let ghost names = text::texts(active@);
    let ghost views = user_row_views(rows@);
    let mut r: Vec<String> = Vec::new();
    let mut i: usize = 0;
    assert(text::texts(r@) == addable(names.take(0), views));
    while i < active.len()
        invariant
            i <= active@.len(),
            names == text::texts(active@),
            views == user_row_views(rows@),
            text::texts(r@) == addable(names.take(i as int), views),
        decreases active@.len() - i,
    {
        let ghost before = text::texts(r@);
        if !row_exists(rows, active[i].as_str()) {
            r.push(active[i].clone());
            assert(text::texts(r@) == before.push(active@[i as int]@));
        }
        assert(names.take(i + 1).drop_last() == names.take(i as int));
        assert(names.take(i + 1).last() == active@[i as int]@);
        i += 1;
    }
    assert(names.take(i as int) == names);
    r
}

/// The names in a list of members: a JSON array of strings; anything else is an empty list.
pub open spec fn listed_names(doc: Map<Seq<char>, json::JsonNode>) -> Seq<Seq<char>> {
    match json::length_at(doc, Seq::empty()) {
        Some(n) => if forall|i: nat|
            i < n ==> json::text_at(doc, #[trigger] json::item_pointer(i)) is Some {
            Seq::new(n, |i: int| json::text_at(doc, json::item_pointer(i as nat)).unwrap())
        } else {
            Seq::empty()
        },
        None => Seq::empty(),
    }
}

/// The names in a list of members.
pub fn names_in(list: &serde_json::Value) -> (r: Vec<String>)
    ensures
        text::texts(r@) == listed_names(json::json_nodes(*list)),
{
    proof {
        reveal_strlit("");
    }
    let ghost doc = json::json_nodes(*list);
    assert(""@ == Seq::<char>::empty());
    let mut r: Vec<String> = Vec::new();
    let n: usize = match json::get_length(list, "") {
        Some(n) => n,
        None => {
            assert(text::texts(r@) == Seq::<Seq<char>>::empty());
            return r;
        },
    };
    let mut i: usize = 0;
    while i < n
        invariant
            i <= n,
            doc == json::json_nodes(*list),
            json::length_at(doc, Seq::empty()) == Some(n as nat),
            r@.len() == i,
            forall|k: nat|
                k < i ==> json::text_at(doc, #[trigger] json::item_pointer(k)) == Some(
                    r@[k as int]@,
                ),
        decreases n - i,
    {
        let mut pointer = "/".to_string();
        pointer.append(text::decimal_text(i as u64).as_str());
        proof {
            reveal_strlit("/");
        }
        assert(pointer@ == json::item_pointer(i as nat));
        match json::get_text(list, pointer.as_str()) {
            Some(name) => {
                r.push(name);
            },
            None => {
                let none: Vec<String> = Vec::new();
                assert(text::texts(none@) == Seq::<Seq<char>>::empty());
                return none;
            },
        }
        i += 1;
    }
    assert(text::texts(r@) == listed_names(doc));
    r
}

/// The names in the text of a list of members; a text that is no JSON has none.
pub fn read_member_state(contents: &str) -> (r: Vec<String>)
    ensures
        text::texts(r@) == match json::json_document(vstd::utf8::encode_utf8(contents@)) {
            Some(doc) => listed_names(doc),
            None => Seq::empty(),
        },
{
    match json::parse(contents.as_bytes()) {
        Ok(list) => names_in(&list),
        Err(_) => {
            let r: Vec<String> = Vec::new();
            assert(text::texts(r@) == Seq::<Seq<char>>::empty());
            r
        },
    }
}

// ---- what holds of the window ----

/// Whether a user's entry is one that saving writes: its name is not blank and has no white space
/// around it.
pub open spec fn is_clean(u: UserView) -> bool {
    u.name.len() > 0 && text::trimmed(u.name) == u.name
}

/// A user's entry that is put into a row and saved again is the same entry.
pub proof fn users_survive_editing(u: UserView)
    requires
        is_clean(u),
    ensures
        saved_user(user_row(u)) == u,
{
    if let Some(p) = u.priority {
        text::signed_decimal_reads_back(p as int);
    }
}

/// Opening the window and saving changes no user's entry, drops none and keeps their order.
pub proof fn opening_and_saving_keeps_users(users: Seq<UserView>)
    requires
        forall|i: int| 0 <= i < users.len() ==> is_clean(#[trigger] users[i]),
    ensures
        saved_users(users.map_values(|u: UserView| user_row(u))) == users,
    decreases users.len(),
{
    let rows = users.map_values(|u: UserView| user_row(u));
    if users.len() > 0 {
        let shorter = users.drop_last();
        assert forall|i: int| 0 <= i < shorter.len() implies is_clean(#[trigger] shorter[i]) by {
            assert(shorter[i] == users[i]);
        }
        opening_and_saving_keeps_users(shorter);
        assert(rows.drop_last() == shorter.map_values(|u: UserView| user_row(u)));
        assert(is_clean(users[users.len() - 1]));
        users_survive_editing(users.last());
        assert(saved_users(rows) =~= users);
    } else {
        assert(saved_users(rows) =~= users);
    }
}

proof fn lemma_trim_fixed(s: Seq<char>)
    ensures
        text::trimmed(text::trimmed(s)) == text::trimmed(s),
{
    let front = text::trim_front(s);
    lemma_trim_front(s);
    lemma_trim_back(front);
    let t = text::trimmed(s);
    assert(text::trim_front(t) == t);
    assert(text::trim_back(t) == t);
}

proof fn lemma_trim_front(s: Seq<char>)
    ensures
        text::trim_front(s).len() == 0 || !text::is_white(text::trim_front(s)[0]),
    decreases s.len(),
{
    if s.len() > 0 && text::is_white(s[0]) {
        lemma_trim_front(s.skip(1));
    }
}

proof fn lemma_trim_back(s: Seq<char>)
    ensures
        text::trim_back(s).len() == 0 || !text::is_white(text::trim_back(s).last()),
        text::trim_back(s).len() <= s.len(),
        text::trim_back(s).len() > 0 ==> text::trim_back(s)[0] == s[0],
    decreases s.len(),
{
    if s.len() > 0 && text::is_white(s.last()) {
        lemma_trim_back(s.drop_last());
    }
}

/// Whatever is in the rows, every user that is saved has a name that is not blank and has no white
/// space around it.
pub proof fn saved_users_are_clean(rows: Seq<UserRowView>)
    ensures
        forall|i: int|
            0 <= i < saved_users(rows).len() ==> is_clean(#[trigger] saved_users(rows)[i]),
    decreases rows.len(),
{
    if rows.len() > 0 {
        saved_users_are_clean(rows.drop_last());
        lemma_trim_fixed(rows.last().name_input);
        let before = saved_users(rows.drop_last());
        assert forall|i: int| 0 <= i < saved_users(rows).len() implies is_clean(
            #[trigger] saved_users(rows)[i],
        ) by {
            if i < before.len() {
                assert(saved_users(rows)[i] == before[i]);
            }
        }
    }
}

/// Whether an entry for a stream says something beside a name, and names its stream.
pub open spec fn says_more_than_a_name(e: OverrideView) -> bool {
    &&& e.binary != Some(Seq::<char>::empty())
    &&& e.app_id != Some(Seq::<char>::empty())
    &&& e.color is Some || e.accent_color is Some || e.ignored || e.mpris_player is Some
}

/// The entry of a stream that is not there is saved as it was, if it says something beside a
/// name.
pub proof fn offline_entries_survive_editing(e: OverrideView)
    requires
        says_more_than_a_name(e),
    ensures
        has_override(offline_row(e)),
        saved_entry(offline_row(e)) == e,
{
    if let Some(b) = e.binary {
        assert(b.len() > 0 || b =~= Seq::<char>::empty());
    }
    if let Some(a) = e.app_id {
        assert(a.len() > 0 || a =~= Seq::<char>::empty());
    }
}

/// A stream that is there, that nothing is set for and that is not touched is not saved.
pub proof fn untouched_streams_are_not_saved(
    entries: Seq<StreamOverride>,
    s: pipewire::StreamView,
)
    requires
        config::entry_index(
            entries,
            stream_key(s.binary, s.app_id),
            stream_key(s.binary, s.app_id),
        ) == entries.len(),
        config::resolution(entries, s.binary, s.app_id, s.raw_name).mpris_player is None,
    ensures
        !has_override(live_row(entries, s)),
{
}

proof fn lemma_among_push(streams: Seq<pipewire::StreamView>, key: Seq<char>)
    requires
        streams.len() > 0,
        is_among(streams.drop_last(), key),
    ensures
        is_among(streams, key),
{
    let earlier = streams.drop_last();
    let i = choose|i: int|
        0 <= i < earlier.len() && stream_key(
            (#[trigger] earlier[i]).binary,
            earlier[i].app_id,
        ) == key;
    assert(streams[i] == earlier[i]);
}

/// Every stream that is there has a row under its key, and no two rows of such streams have the
/// same key.
pub proof fn live_keys_are_distinct(
    entries: Seq<StreamOverride>,
    streams: Seq<pipewire::StreamView>,
)
    ensures
        ({
            let rows = live_rows(entries, streams);
            &&& forall|i: int|
                0 <= i < rows.len() ==> is_among(
                    streams,
                    stream_key((#[trigger] rows[i]).binary, rows[i].app_id),
                )
            &&& forall|i: int, j: int|
                0 <= i < j < rows.len() ==> stream_key(
                    (#[trigger] rows[i]).binary,
                    rows[i].app_id,
                ) != stream_key((#[trigger] rows[j]).binary, rows[j].app_id)
            &&& forall|k: int|
                0 <= k < streams.len() && stream_key(
                    (#[trigger] streams[k]).binary,
                    streams[k].app_id,
                ).len() > 0 ==> has_key(rows, stream_key(streams[k].binary, streams[k].app_id))
        }),
    decreases streams.len(),
{
    let rows = live_rows(entries, streams);
    if streams.len() > 0 {
        let earlier = streams.drop_last();
        let s = streams.last();
        let key = stream_key(s.binary, s.app_id);
        live_keys_are_distinct(entries, earlier);
        let before = live_rows(entries, earlier);
        assert(streams[streams.len() - 1] == s);
        assert forall|i: int| 0 <= i < rows.len() implies is_among(
            streams,
            stream_key((#[trigger] rows[i]).binary, rows[i].app_id),
        ) by {
            if i < before.len() {
                assert(rows[i] == before[i]);
                lemma_among_push(streams, stream_key(rows[i].binary, rows[i].app_id));
            }
        }
        assert forall|i: int, j: int| 0 <= i < j < rows.len() implies stream_key(
            (#[trigger] rows[i]).binary,
            rows[i].app_id,
        ) != stream_key((#[trigger] rows[j]).binary, rows[j].app_id) by {
            assert(rows[i] == before[i]);
            if j < before.len() {
                assert(rows[j] == before[j]);
            }
        }
        assert forall|k: int|
            0 <= k < streams.len() && stream_key(
                (#[trigger] streams[k]).binary,
                streams[k].app_id,
            ).len() > 0 implies has_key(
            rows,
            stream_key(streams[k].binary, streams[k].app_id),
        ) by {
            let wanted = stream_key(streams[k].binary, streams[k].app_id);
            if k < earlier.len() {
                assert(earlier[k] == streams[k]);
                assert(has_key(before, wanted));
                let i = choose|i: int|
                    0 <= i < before.len() && stream_key(
                        (#[trigger] before[i]).binary,
                        before[i].app_id,
                    ) == wanted;
                assert(rows[i] == before[i]);
            } else if is_among(earlier, key) {
                let m = choose|m: int|
                    0 <= m < earlier.len() && stream_key(
                        (#[trigger] earlier[m]).binary,
                        earlier[m].app_id,
                    ) == key;
                assert(has_key(before, stream_key(earlier[m].binary, earlier[m].app_id)));
            } else {
                assert(rows[rows.len() - 1] == live_row(entries, s));
            }
        }
    }
}

/// Whether one of some rows is told by a key.
pub open spec fn has_key(rows: Seq<StreamRowView>, key: Seq<char>) -> bool {
    exists|i: int|
        0 <= i < rows.len() && stream_key(
            (#[trigger] rows[i]).binary,
            rows[i].app_id,
        ) == key
}

proof fn lemma_addable(active: Seq<Seq<char>>, rows: Seq<UserRowView>)
    ensures
        forall|name: Seq<char>|
            addable(active, rows).contains(name) <==> active.contains(name) && !has_row(rows, name),
    decreases active.len(),
{
    if active.len() == 0 {
        assert(addable(active, rows) =~= Seq::empty());
    } else {
        let shorter = active.drop_last();
        let before = addable(shorter, rows);
        lemma_addable(shorter, rows);
        assert forall|name: Seq<char>|
            addable(active, rows).contains(name) <==> active.contains(name) && !has_row(
                rows,
                name,
            ) by {
            assert(active == shorter.push(active.last()));
            broadcast use vstd::seq_lib::group_seq_properties;

            assert(active.contains(name) <==> shorter.contains(name) || name == active.last());
            if !has_row(rows, active.last()) {
                assert(addable(active, rows).contains(name) <==> before.contains(name) || name
                    == active.last());
            }
        }
    }
}

/// Exactly those active members are offered that have no row yet; and whoever was added from the
/// offer has one row, and is offered no longer.
pub proof fn added_members_are_offered_no_longer(
    active: Seq<Seq<char>>,
    rows: Seq<UserRowView>,
    name: Seq<char>,
)
    ensures
        addable(active, rows).contains(name) <==> active.contains(name) && !has_row(rows, name),
        has_row(with_user(rows, Some(name)), name),
        !addable(active, with_user(rows, Some(name))).contains(name),
        with_user(with_user(rows, Some(name)), Some(name)) == with_user(rows, Some(name)),
{
    lemma_addable(active, rows);
    let added = with_user(rows, Some(name));
    if !has_row(rows, name) {
        assert(added[rows.len() as int].name_input == name);
    }
    lemma_addable(active, added);
}

/// Switching an integration off and on again changes nothing: its credentials are kept.
pub proof fn switching_keeps_credentials(
    discord: Option<config::DiscordConfig>,
    teamspeak: Option<config::TeamSpeakConfig>,
    enabled: bool,
)
    ensures
        discord matches Some(d) ==> {
            &&& discord_switched(discord, enabled) == Some(
                config::DiscordConfig { enabled, ..d },
            )
            &&& discord_switched(discord_switched(discord, enabled), d.enabled) == discord
        },
        teamspeak matches Some(t) ==> {
            &&& teamspeak_switched(teamspeak, enabled) == Some(
                config::TeamSpeakConfig { enabled, ..t },
            )
            &&& teamspeak_switched(teamspeak_switched(teamspeak, enabled), t.enabled) == teamspeak
        },
{
}

// ---- rows and entries ----

/// Whether an entry names a stream by the key that the window tells it by.
pub open spec fn names_key(e: StreamOverride, key: Seq<char>) -> bool {
    (e.binary is Some && e.binary.unwrap()@ == key) || (e.app_id is Some && e.app_id.unwrap()@
        == key)
}

/// Whether an entry is the first that names a key.
pub open spec fn is_first_for(entries: Seq<StreamOverride>, i: int, key: Seq<char>) -> bool {
    &&& 0 <= i < entries.len()
    &&& names_key(entries[i], key)
    &&& forall|j: int| 0 <= j < i ==> !names_key(#[trigger] entries[j], key)
}

proof fn lemma_first_entry(entries: Seq<StreamOverride>, i: int, key: Seq<char>)
    requires
        0 <= i <= entries.len(),
        i < entries.len() ==> names_key(entries[i], key),
        forall|j: int| 0 <= j < i ==> !names_key(#[trigger] entries[j], key),
    ensures
        config::entry_index(entries, key, key) == i,
    decreases i,
{
    if i > 0 {
        assert(!names_key(entries[0], key));
        let rest = entries.skip(1);
        assert forall|j: int| 0 <= j < i - 1 implies !names_key(#[trigger] rest[j], key) by {
            assert(rest[j] == entries[j + 1]);
        }
        lemma_first_entry(rest, i - 1, key);
    }
}

/// A stream is told by its program, and where that is not known by its portal name.
pub proof fn streams_are_told_by_program(binary: Seq<char>, app_id: Seq<char>)
    ensures
        binary != Seq::<char>::empty() ==> stream_key(binary, app_id) == binary,
        stream_key(Seq::empty(), app_id) == app_id,
{
    assert(binary.len() == 0 ==> binary =~= Seq::<char>::empty());
}

/// The row of a stream that is there and that an entry is for shows what the entry says: its name,
/// its colors, whether it is hidden, and its player. The stream itself decides about the rest.
pub proof fn live_rows_show_their_entry(
    entries: Seq<StreamOverride>,
    s: pipewire::StreamView,
    i: int,
)
    requires
        is_first_for(entries, i, stream_key(s.binary, s.app_id)),
    ensures
        ({
            let row = live_row(entries, s);
            let e = entries[i];
            &&& row.name_input == e.name@
            &&& row.color == e.color
            &&& row.accent_color == e.accent_color
            &&& row.ignored == e.ignored
            &&& e.mpris_player is Some ==> row.use_mpris && row.mpris_player == Some(
                e.mpris_player.unwrap()@,
            )
            &&& e.mpris_player is None ==> row.mpris_player == config::resolution(
                entries,
                s.binary,
                s.app_id,
                s.raw_name,
            ).mpris_player
            &&& row.use_mpris <==> row.mpris_player is Some
            &&& row.binary == s.binary
            &&& row.app_id == s.app_id
            &&& row.raw_name == s.raw_name
            &&& row.is_live
            &&& row.has_media_name == s.media_name is Some
        }),
{
    lemma_first_entry(entries, i, stream_key(s.binary, s.app_id));
}

/// The row of a stream that is there and that no entry is for shows the name that the stream came
/// with, no colors, and that the stream is not hidden.
pub proof fn live_rows_without_entry_are_plain(
    entries: Seq<StreamOverride>,
    s: pipewire::StreamView,
)
    requires
        forall|j: int|
            0 <= j < entries.len() ==> !names_key(
                #[trigger] entries[j],
                stream_key(s.binary, s.app_id),
            ),
    ensures
        ({
            let row = live_row(entries, s);
            &&& row.name_input == s.raw_name
            &&& row.color is None
            &&& row.accent_color is None
            &&& !row.ignored
            &&& row.mpris_player == config::resolution(
                entries,
                s.binary,
                s.app_id,
                s.raw_name,
            ).mpris_player
            &&& row.use_mpris <==> row.mpris_player is Some
            &&& row.binary == s.binary
            &&& row.app_id == s.app_id
            &&& row.raw_name == s.raw_name
            &&& row.is_live
            &&& row.has_media_name == s.media_name is Some
        }),
{
    lemma_first_entry(entries, entries.len() as int, stream_key(s.binary, s.app_id));
}

/// The first stream of every key has its row among those of the streams that are there.
pub proof fn every_stream_has_its_row(
    entries: Seq<StreamOverride>,
    streams: Seq<pipewire::StreamView>,
    k: int,
)
    requires
        0 <= k < streams.len(),
        stream_key(streams[k].binary, streams[k].app_id).len() > 0,
        forall|j: int|
            0 <= j < k ==> stream_key((#[trigger] streams[j]).binary, streams[j].app_id)
                != stream_key(streams[k].binary, streams[k].app_id),
    ensures
        live_rows(entries, streams).contains(live_row(entries, streams[k])),
    decreases streams.len(),
{
    let earlier = streams.drop_last();
    let rows = live_rows(entries, streams);
    let wanted = live_row(entries, streams[k]);
    if k < earlier.len() {
        assert(earlier[k] == streams[k]);
        assert forall|j: int| 0 <= j < k implies stream_key(
            (#[trigger] earlier[j]).binary,
            earlier[j].app_id,
        ) != stream_key(earlier[k].binary, earlier[k].app_id) by {
            assert(earlier[j] == streams[j]);
        }
        every_stream_has_its_row(entries, earlier, k);
        let m = live_rows(entries, earlier).index_of(wanted);
        assert(rows[m] == wanted);
    } else {
        let key = stream_key(streams[k].binary, streams[k].app_id);
        assert(!is_among(earlier, key)) by {
            if is_among(earlier, key) {
                let j = choose|j: int|
                    0 <= j < earlier.len() && stream_key(
                        (#[trigger] earlier[j]).binary,
                        earlier[j].app_id,
                    ) == key;
                assert(earlier[j] == streams[j]);
            }
        }
        assert(rows[rows.len() - 1] == wanted);
    }
}

/// Every entry that names a stream which is not there has its row among those of such entries.
pub proof fn every_offline_entry_has_its_row(
    entries: Seq<OverrideView>,
    streams: Seq<pipewire::StreamView>,
    k: int,
)
    requires
        0 <= k < entries.len(),
        entry_key(entries[k]).len() > 0,
        !is_among(streams, entry_key(entries[k])),
    ensures
        offline_rows(entries, streams).contains(offline_row(entries[k])),
    decreases entries.len(),
{
    let earlier = entries.drop_last();
    let rows = offline_rows(entries, streams);
    let wanted = offline_row(entries[k]);
    if k < earlier.len() {
        assert(earlier[k] == entries[k]);
        every_offline_entry_has_its_row(earlier, streams, k);
        let m = offline_rows(earlier, streams).index_of(wanted);
        assert(rows[m] == wanted);
    } else {
        assert(rows[rows.len() - 1] == wanted);
    }
}

/// There is no row but those of streams that are there, then those of entries that name others.
pub proof fn rows_are_streams_or_entries(
    entries: Seq<StreamOverride>,
    streams: Seq<pipewire::StreamView>,
    k: int,
)
    requires
        0 <= k < stream_rows(entries, streams).len(),
    ensures
        ({
            let row = stream_rows(entries, streams)[k];
            let n = live_rows(entries, streams).len();
            &&& k < n ==> exists|i: int|
                0 <= i < streams.len() && row == live_row(entries, #[trigger] streams[i])
            &&& k >= n ==> exists|i: int|
                {
                    &&& 0 <= i < entries.len()
                    &&& row == offline_row((#[trigger] entries[i])@)
                    &&& !is_among(streams, entry_key(entries[i]@))
                }
        }),
{
    let n = live_rows(entries, streams).len();
    if k < n {
        let i = lemma_live_origin(entries, streams, k);
        assert(live_rows(entries, streams)[k] == live_row(entries, streams[i]));
    } else {
        let views = config::override_views(entries);
        let i = lemma_offline_origin(views, streams, k - n);
        assert(views[i] == entries[i]@);
    }
}

proof fn lemma_live_origin(
    entries: Seq<StreamOverride>,
    streams: Seq<pipewire::StreamView>,
    k: int,
) -> (i: int)
    requires
        0 <= k < live_rows(entries, streams).len(),
    ensures
        0 <= i < streams.len(),
        live_rows(entries, streams)[k] == live_row(entries, streams[i]),
    decreases streams.len(),
{
    let before = live_rows(entries, streams.drop_last());
    if k < before.len() {
        lemma_live_origin(entries, streams.drop_last(), k)
    } else {
        streams.len() - 1
    }
}

proof fn lemma_offline_origin(
    entries: Seq<OverrideView>,
    streams: Seq<pipewire::StreamView>,
    k: int,
) -> (i: int)
    requires
        0 <= k < offline_rows(entries, streams).len(),
    ensures
        0 <= i < entries.len(),
        offline_rows(entries, streams)[k] == offline_row(entries[i]),
        !is_among(streams, entry_key(entries[i])),
    decreases entries.len(),
{
    let before = offline_rows(entries.drop_last(), streams);
    if k < before.len() {
        lemma_offline_origin(entries.drop_last(), streams, k)
    } else {
        entries.len() - 1
    }
}

proof fn lemma_saved_is_there(rows: Seq<StreamRowView>, row: StreamRowView)
    requires
        rows.contains(row),
        has_override(row),
    ensures
        saved_entries(rows).contains(saved_entry(row)),
    decreases rows.len(),
{
    let k = rows.index_of(row);
    let earlier = rows.drop_last();
    if k < earlier.len() {
        assert(earlier[k] == row);
        lemma_saved_is_there(earlier, row);
        let m = saved_entries(earlier).index_of(saved_entry(row));
        assert(saved_entries(rows)[m] == saved_entry(row));
    } else {
        assert(saved_entries(rows).last() == saved_entry(row));
        assert(saved_entries(rows)[saved_entries(rows).len() - 1] == saved_entry(row));
    }
}

/// A text as an entry holds it: nothing in place of an empty one.
pub open spec fn text_unless_empty(s: Seq<char>) -> Option<Seq<char>> {
    if s == Seq::<char>::empty() {
        None
    } else {
        Some(s)
    }
}

/// Opening the window and saving keeps what an entry sets for a stream that is there: its name, its
/// colors, whether it is hidden, and its player. Under the first stream of a key, the first entry
/// for that key counts.
pub proof fn opening_and_saving_keeps_live_entries(
    entries: Seq<StreamOverride>,
    streams: Seq<pipewire::StreamView>,
    k: int,
    i: int,
) -> (saved: OverrideView)
    requires
        0 <= k < streams.len(),
        stream_key(streams[k].binary, streams[k].app_id).len() > 0,
        forall|j: int|
            0 <= j < k ==> stream_key((#[trigger] streams[j]).binary, streams[j].app_id)
                != stream_key(streams[k].binary, streams[k].app_id),
        is_first_for(entries, i, stream_key(streams[k].binary, streams[k].app_id)),
        entries[i].name@ != streams[k].raw_name || entries[i].color is Some
            || entries[i].accent_color is Some || entries[i].ignored || entries[i].mpris_player
            is Some,
    ensures
        saved_entries(stream_rows(entries, streams)).contains(saved),
        saved.binary is Some ==> saved.binary == Some(streams[k].binary),
        saved.app_id is Some ==> saved.app_id == Some(streams[k].app_id),
        entry_key(saved) == stream_key(streams[k].binary, streams[k].app_id),
        saved.name == entries[i].name@,
        saved.color == entries[i].color,
        saved.accent_color == entries[i].accent_color,
        saved.ignored == entries[i].ignored,
        entries[i].mpris_player is Some ==> saved.mpris_player == Some(
            entries[i].mpris_player.unwrap()@,
        ),
{
    let s = streams[k];
    let row = live_row(entries, s);
    live_rows_show_their_entry(entries, s, i);
    every_stream_has_its_row(entries, streams, k);
    let live = live_rows(entries, streams);
    let m = live.index_of(row);
    assert(stream_rows(entries, streams)[m] == row);
    lemma_saved_is_there(stream_rows(entries, streams), row);
    saved_entry(row)
}

/// Opening the window and saving keeps every entry that says something beside a name and whose stream
/// is not there, as it was.
pub proof fn opening_and_saving_keeps_offline_entries(
    entries: Seq<StreamOverride>,
    streams: Seq<pipewire::StreamView>,
    k: int,
)
    requires
        0 <= k < entries.len(),
        says_more_than_a_name(entries[k]@),
        entries[k].binary is Some || entries[k].app_id is Some,
        forall|j: int|
            0 <= j < streams.len() ==> stream_key((#[trigger] streams[j]).binary, streams[j].app_id)
                != entry_key(entries[k]@),
    ensures
        saved_entries(stream_rows(entries, streams)).contains(entries[k]@),
{
    let views = config::override_views(entries);
    let e = entries[k]@;
    assert(views[k] == e);
    assert(entry_key(e).len() == 0 ==> entry_key(e) =~= Seq::<char>::empty());
    offline_entries_survive_editing(e);
    every_offline_entry_has_its_row(views, streams, k);
    let row = offline_row(e);
    let m = offline_rows(views, streams).index_of(row);
    assert(stream_rows(entries, streams)[live_rows(entries, streams).len() + m] == row);
    lemma_saved_is_there(stream_rows(entries, streams), row);
}

/// An entry whose stream is not there has a row that shows all that it says.
pub proof fn offline_rows_show_their_entry(e: OverrideView)
    ensures
        ({
            let row = offline_row(e);
            &&& row.name_input == e.name
            &&& row.raw_name == e.name
            &&& row.color == e.color
            &&& row.accent_color == e.accent_color
            &&& row.ignored == e.ignored
            &&& row.use_mpris == e.mpris_player is Some
            &&& row.mpris_player == e.mpris_player
            &&& e.binary is Some ==> Some(row.binary) == e.binary
            &&& e.binary is None ==> row.binary.len() == 0
            &&& e.app_id is Some ==> Some(row.app_id) == e.app_id
            &&& e.app_id is None ==> row.app_id.len() == 0
            &&& !row.is_live
            &&& !row.has_media_name
        }),
{
}

/// An entry is told by its program, else by its portal name.
pub proof fn entries_are_told_by_program(e: OverrideView)
    ensures
        e.binary is Some ==> Some(entry_key(e)) == e.binary,
        e.binary is None && e.app_id is Some ==> Some(entry_key(e)) == e.app_id,
        e.binary is None && e.app_id is None ==> entry_key(e).len() == 0,
{
}

/// A row is saved where it says anything that the stream does not: another name, a color, that the
/// stream is hidden, or a player. What is saved is what the row shows; a player that was not named is
/// called like the program.
pub proof fn rows_are_saved_as_they_show(rows: Seq<StreamRowView>, row: StreamRowView)
    requires
        rows.contains(row),
        row.name_input != row.raw_name || row.color is Some || row.accent_color is Some
            || row.ignored || row.use_mpris,
    ensures
        saved_entries(rows).contains(
            OverrideView {
                binary: text_unless_empty(row.binary),
                app_id: text_unless_empty(row.app_id),
                name: row.name_input,
                mpris_player: if !row.use_mpris {
                    None
                } else if row.mpris_player is Some {
                    row.mpris_player
                } else {
                    Some(row.binary)
                },
                color: row.color,
                accent_color: row.accent_color,
                ignored: row.ignored,
            },
        ),
{
    lemma_saved_is_there(rows, row);
    assert(row.binary.len() == 0 ==> row.binary =~= Seq::<char>::empty());
    assert(row.app_id.len() == 0 ==> row.app_id =~= Seq::<char>::empty());
}

/// Nothing is saved but for rows that say something, one entry for each and in their order: the
/// entries for some rows are those for the first of them followed by those for the rest.
pub proof fn rows_are_saved_in_order(a: Seq<StreamRowView>, b: Seq<StreamRowView>, row: StreamRowView)
    ensures
        saved_entries(a + b) == saved_entries(a) + saved_entries(b),
        saved_entries(seq![row]).len() <= 1,
        row.name_input == row.raw_name && row.color is None && row.accent_color is None
            && !row.ignored && !row.use_mpris ==> saved_entries(seq![row]).len() == 0,
    decreases b.len(),
{
    if b.len() > 0 {
        rows_are_saved_in_order(a, b.drop_last(), row);
        assert((a + b).drop_last() =~= a + b.drop_last());
        assert(saved_entries(a + b) =~= saved_entries(a) + saved_entries(b));
    } else {
        assert(a + b =~= a);
        assert(saved_entries(a) + saved_entries(b) =~= saved_entries(a));
    }
    assert(seq![row].drop_last() =~= Seq::<StreamRowView>::empty());
    reveal_with_fuel(saved_entries, 2);
}

/// A user's row is saved where its name is not blank: under the name without the white space around
/// it, with its color, and with its priority where that is a whole number. Other rows are not saved,
/// and the order is kept.
pub proof fn user_rows_are_saved_as_they_show(
    a: Seq<UserRowView>,
    b: Seq<UserRowView>,
    row: UserRowView,
)
    ensures
        saved_users(a + b) == saved_users(a) + saved_users(b),
        text::all_white(row.name_input) ==> saved_users(seq![row]).len() == 0,
        !text::all_white(row.name_input) ==> {
            let u = saved_users(seq![row])[0];
            let p = text::parsed_i32(row.priority_input);
            &&& saved_users(seq![row]).len() == 1
            &&& u.name == text::trimmed(row.name_input)
            &&& u.color == row.color
            &&& p is Some ==> u.priority == Some(p.unwrap() as i32)
            &&& p is None ==> u.priority is None
        },
    decreases b.len(),
{
    if b.len() > 0 {
        user_rows_are_saved_as_they_show(a, b.drop_last(), row);
        assert((a + b).drop_last() =~= a + b.drop_last());
        assert(saved_users(a + b) =~= saved_users(a) + saved_users(b));
    } else {
        assert(a + b =~= a);
        assert(saved_users(a) + saved_users(b) =~= saved_users(a));
    }
    assert(seq![row].drop_last() =~= Seq::<UserRowView>::empty());
    reveal_with_fuel(saved_users, 2);
    text::blank_texts_trim_to_nothing(row.name_input);
}

/// A user's row shows the entry: the name, the color, and the priority in decimal, or nothing.
pub proof fn user_rows_show_their_entry(u: UserView)
    ensures
        user_row(u).name_input == u.name,
        user_row(u).color == u.color,
        u.priority is None ==> user_row(u).priority_input.len() == 0,
        u.priority is Some ==> text::parsed_i32(user_row(u).priority_input) == Some(
            u.priority.unwrap() as int,
        ),
{
    if let Some(p) = u.priority {
        text::signed_decimal_reads_back(p as int);
    }
}

/// A color that is not in the palette stands with no choice, and every other at the place where the
/// palette has it.
pub proof fn palette_places_are_right(c: u8, i: int)
    ensures
        palette_place(None) == 0,
        palette()[0].0 is None,
        0 <= i < 9 && palette()[i].0 == Some(c) ==> palette_place(Some(c)) == i,
        (forall|k: int| 0 <= k < 9 ==> (#[trigger] palette()[k]).0 != Some(c)) ==> palette_place(
            Some(c),
        ) == 0,
{
    if forall|k: int| 0 <= k < 9 ==> (#[trigger] palette()[k]).0 != Some(c) {
        assert(palette()[1].0 != Some(c));
        assert(palette()[2].0 != Some(c));
        assert(palette()[3].0 != Some(c));
        assert(palette()[4].0 != Some(c));
        assert(palette()[5].0 != Some(c));
        assert(palette()[6].0 != Some(c));
        assert(palette()[7].0 != Some(c));
        assert(palette()[8].0 != Some(c));
    }
}

// ---- what the controls of the window do ----

/// Editing a stream's row makes it show what was entered, and leaves the rest of the row, the other
/// rows and the rest of the window as they are.
pub proof fn stream_edits_touch_one_row(
    a: AppView,
    i: usize,
    k: int,
    text: String,
    color: Option<u8>,
    on: bool,
)
    requires
        i < a.streams.len(),
        0 <= k < a.streams.len(),
    ensures
        ({
            let named = after_message(a, Message::StreamNameChanged(i, text));
            let colored = after_message(a, Message::StreamColorSelected(i, color));
            let accented = after_message(a, Message::StreamAccentColorSelected(i, color));
            let hidden = after_message(a, Message::StreamIgnoreToggled(i, on));
            let asked = after_message(a, Message::StreamMprisToggled(i, on));
            let row = a.streams[i as int];
            &&& named.streams[i as int] == (StreamRowView { name_input: text@, ..row })
            &&& colored.streams[i as int] == (StreamRowView { color, ..row })
            &&& accented.streams[i as int] == (StreamRowView { accent_color: color, ..row })
            &&& hidden.streams[i as int] == (StreamRowView { ignored: on, ..row })
            &&& asked.streams[i as int] == (StreamRowView { use_mpris: on, ..row })
            &&& only_streams_differ(a, named) && only_streams_differ(a, colored)
            &&& only_streams_differ(a, accented) && only_streams_differ(a, hidden)
            &&& only_streams_differ(a, asked)
            &&& k != i ==> {
                &&& named.streams[k] == a.streams[k]
                &&& colored.streams[k] == a.streams[k]
                &&& accented.streams[k] == a.streams[k]
                &&& hidden.streams[k] == a.streams[k]
                &&& asked.streams[k] == a.streams[k]
            }
        }),
{
}

/// Whether two windows have as many rows for streams, and are the same but for these.
pub open spec fn only_streams_differ(a: AppView, b: AppView) -> bool {
    b.streams.len() == a.streams.len() && b == (AppView { streams: b.streams, ..a })
}

/// Hiding a stream, coloring it or renaming it and then saving puts that into the configuration.
pub proof fn edits_are_saved(a: AppView, i: usize, text: String, color: u8)
    requires
        i < a.streams.len(),
        text@ != a.streams[i as int].raw_name,
    ensures
        ({
            let hidden = after_message(
                after_message(a, Message::StreamIgnoreToggled(i, true)),
                Message::Save,
            );
            let colored = after_message(
                after_message(a, Message::StreamColorSelected(i, Some(color))),
                Message::Save,
            );
            let renamed = after_message(
                after_message(a, Message::StreamNameChanged(i, text)),
                Message::Save,
            );
            let row = a.streams[i as int];
            &&& exists|e: OverrideView| #[trigger]
                hidden.config.streams.contains(e) && e.ignored && tells_row(e, row)
            &&& exists|e: OverrideView| #[trigger]
                colored.config.streams.contains(e) && e.color == Some(color) && tells_row(e, row)
            &&& exists|e: OverrideView| #[trigger]
                renamed.config.streams.contains(e) && e.name == text@ && tells_row(e, row)
        }),
{
    let row = a.streams[i as int];
    let hidden = after_message(a, Message::StreamIgnoreToggled(i, true));
    let colored = after_message(a, Message::StreamColorSelected(i, Some(color)));
    let renamed = after_message(a, Message::StreamNameChanged(i, text));
    assert(row.binary.len() == 0 ==> row.binary =~= Seq::<char>::empty());
    assert(row.app_id.len() == 0 ==> row.app_id =~= Seq::<char>::empty());
    assert(hidden.streams.contains(hidden.streams[i as int]));
    assert(colored.streams.contains(colored.streams[i as int]));
    assert(renamed.streams.contains(renamed.streams[i as int]));
    lemma_saved_is_there(hidden.streams, hidden.streams[i as int]);
    lemma_saved_is_there(colored.streams, colored.streams[i as int]);
    lemma_saved_is_there(renamed.streams, renamed.streams[i as int]);
    let e = saved_entry(hidden.streams[i as int]);
    assert(after_message(hidden, Message::Save).config.streams.contains(e) && e.ignored
        && tells_row(e, row));
    let f = saved_entry(colored.streams[i as int]);
    assert(after_message(colored, Message::Save).config.streams.contains(f) && f.color == Some(
        color,
    ) && tells_row(f, row));
    let g = saved_entry(renamed.streams[i as int]);
    assert(after_message(renamed, Message::Save).config.streams.contains(g) && g.name == text@
        && tells_row(g, row));
}

/// Whether an entry names the stream of a row.
pub open spec fn tells_row(e: OverrideView, row: StreamRowView) -> bool {
    &&& e.binary == text_unless_empty(row.binary)
    &&& e.app_id == text_unless_empty(row.app_id)
}

/// Editing a user's row makes it show what was entered, and leaves the rest of the row and the other
/// rows as they are; nothing else in the window changes.
pub proof fn user_edits_touch_one_row(a: AppView, i: usize, text: String, color: Option<u8>)
    ensures
        i < a.discord_users.len() ==> {
            let rows = a.discord_users;
            let row = rows[i as int];
            let named = UserRowView { name_input: text@, ..row };
            let colored = UserRowView { color, ..row };
            let ranked = UserRowView { priority_input: text@, ..row };
            &&& after_message(a, Message::DiscordUserNameChanged(i, text)) == (AppView {
                discord_users: rows.update(i as int, named),
                ..a
            })
            &&& after_message(a, Message::DiscordUserColorSelected(i, color)) == (AppView {
                discord_users: rows.update(i as int, colored),
                ..a
            })
            &&& after_message(a, Message::DiscordUserPriorityChanged(i, text)) == (AppView {
                discord_users: rows.update(i as int, ranked),
                ..a
            })
            &&& after_message(a, Message::RemoveDiscordUser(i)) == (AppView {
                discord_users: rows.remove(i as int),
                ..a
            })
        },
        i < a.ts3_users.len() ==> {
            let rows = a.ts3_users;
            let row = rows[i as int];
            let named = UserRowView { name_input: text@, ..row };
            let colored = UserRowView { color, ..row };
            let ranked = UserRowView { priority_input: text@, ..row };
            &&& after_message(a, Message::Ts3UserNameChanged(i, text)) == (AppView {
                ts3_users: rows.update(i as int, named),
                ..a
            })
            &&& after_message(a, Message::Ts3UserColorSelected(i, color)) == (AppView {
                ts3_users: rows.update(i as int, colored),
                ..a
            })
            &&& after_message(a, Message::Ts3UserPriorityChanged(i, text)) == (AppView {
                ts3_users: rows.update(i as int, ranked),
                ..a
            })
            &&& after_message(a, Message::RemoveTs3User(i)) == (AppView {
                ts3_users: rows.remove(i as int),
                ..a
            })
        },
        i < a.streams.len() ==> after_message(a, Message::RemoveStream(i)) == (AppView {
            streams: a.streams.remove(i as int),
            ..a
        }),
{
}

/// Whoever is chosen and added gets a row with that name and nothing else in it, behind the others,
/// unless there is one with that name; then nobody is chosen any longer. An added row that nobody was
/// chosen for is empty.
pub proof fn users_are_added_behind_the_others(a: AppView, name: String)
    ensures
        ({
            let blank = UserRowView {
                name_input: Seq::empty(),
                color: None,
                priority_input: Seq::empty(),
            };
            let row = UserRowView { name_input: name@, ..blank };
            let d = after_message(
                after_message(a, Message::DiscordActiveUserSelected(name)),
                Message::AddDiscordUserFromActive,
            );
            let t = after_message(
                after_message(a, Message::Ts3ActiveUserSelected(name)),
                Message::AddTs3UserFromActive,
            );
            &&& d.discord_add_sel is None
            &&& t.ts3_add_sel is None
            &&& has_row(a.discord_users, name@) ==> d.discord_users == a.discord_users
            &&& !has_row(a.discord_users, name@) ==> d.discord_users == a.discord_users.push(row)
            &&& has_row(a.ts3_users, name@) ==> t.ts3_users == a.ts3_users
            &&& !has_row(a.ts3_users, name@) ==> t.ts3_users == a.ts3_users.push(row)
            &&& after_message(a, Message::AddDiscordUser) == (AppView {
                discord_users: a.discord_users.push(blank),
                ..a
            })
            &&& after_message(a, Message::AddTs3User) == (AppView {
                ts3_users: a.ts3_users.push(blank),
                ..a
            })
        }),
{
}

/// Switching PipeWire or an integration on or off changes that switch and nothing else, choosing a
/// page changes the page and nothing else, and looking at the streams again changes nothing by
/// itself.
pub proof fn switches_do_one_thing(a: AppView, on: bool, tab: Tab)
    ensures
        ({
            let p = after_message(a, Message::SetPipewireEnabled(on));
            let d = after_message(a, Message::SetDiscordEnabled(on));
            let t = after_message(a, Message::SetTeamspeakEnabled(on));
            &&& p == (AppView {
                config: ConfigView { pipewire_enabled: on, ..a.config },
                ..a
            })
            &&& d == (AppView {
                config: ConfigView { discord: d.config.discord, ..a.config },
                ..a
            })
            &&& d.config.discord is Some <==> a.config.discord is Some
            &&& a.config.discord is Some ==> d.config.discord.unwrap().enabled == on
            &&& t == (AppView {
                config: ConfigView { teamspeak: t.config.teamspeak, ..a.config },
                ..a
            })
            &&& t.config.teamspeak is Some <==> a.config.teamspeak is Some
            &&& a.config.teamspeak is Some ==> t.config.teamspeak.unwrap().enabled == on
            &&& after_message(a, Message::TabSelected(tab)) == (AppView { tab, ..a })
            &&& after_message(a, Message::Refresh) == a
        }),
{
}

/// Saving puts the rows into the configuration, keeps its switches and credentials, and leaves the
/// rows as they are; and only saving and looking again ask anything of the surroundings.
pub proof fn saving_takes_the_rows_over(a: AppView, msg: Message)
    ensures
        ({
            let b = after_message(a, Message::Save);
            &&& b == (AppView { config: b.config, ..a })
            &&& b.config.streams == saved_entries(a.streams)
            &&& b.config.discord_users == saved_users(a.discord_users)
            &&& b.config.teamspeak_users == saved_users(a.ts3_users)
            &&& b.config.pipewire_enabled == a.config.pipewire_enabled
            &&& b.config.discord == a.config.discord
            &&& b.config.teamspeak == a.config.teamspeak
        }),
        request_of(msg) == Some(Request::Save) <==> msg is Save,
        request_of(msg) == Some(Request::Refresh) <==> msg is Refresh,
{
}

/// An edit of a row that there is not changes nothing.
pub proof fn edits_of_no_row_change_nothing(a: AppView, msg: Message)
    requires
        match msg {
            Message::StreamNameChanged(i, _) => i >= a.streams.len(),
            Message::StreamColorSelected(i, _) => i >= a.streams.len(),
            Message::StreamAccentColorSelected(i, _) => i >= a.streams.len(),
            Message::StreamIgnoreToggled(i, _) => i >= a.streams.len(),
            Message::StreamMprisToggled(i, _) => i >= a.streams.len(),
            Message::RemoveStream(i) => i >= a.streams.len(),
            Message::DiscordUserNameChanged(i, _) => i >= a.discord_users.len(),
            Message::DiscordUserColorSelected(i, _) => i >= a.discord_users.len(),
            Message::DiscordUserPriorityChanged(i, _) => i >= a.discord_users.len(),
            Message::RemoveDiscordUser(i) => i >= a.discord_users.len(),
            Message::Ts3UserNameChanged(i, _) => i >= a.ts3_users.len(),
            Message::Ts3UserColorSelected(i, _) => i >= a.ts3_users.len(),
            Message::Ts3UserPriorityChanged(i, _) => i >= a.ts3_users.len(),
            Message::RemoveTs3User(i) => i >= a.ts3_users.len(),
            _ => false,
        },
    ensures
        after_message(a, msg) == a,
{
}

/// A list of members is a JSON array of strings, taken over whole and in order; anything else, and an
/// array with anything else in it, is no list.
pub proof fn member_lists_are_read_whole(doc: Map<Seq<char>, json::JsonNode>, n: nat, i: nat)
    ensures
        json::length_at(doc, Seq::empty()) is None ==> listed_names(doc).len() == 0,
        json::length_at(doc, Seq::empty()) == Some(n) && i < n && json::text_at(
            doc,
            seq!['/'] + text::decimal(i),
        ) is None ==> listed_names(doc).len() == 0,
        json::length_at(doc, Seq::empty()) == Some(n) && listed_names(doc).len() > 0 && i < n ==> {
            &&& listed_names(doc).len() == n
            &&& Some(listed_names(doc)[i as int]) == json::text_at(
                doc,
                seq!['/'] + text::decimal(i),
            )
        },
        json::length_at(doc, Seq::empty()) == Some(n) && (forall|k: nat|
            k < n ==> json::text_at(doc, #[trigger] json::item_pointer(k)) is Some)
            ==> listed_names(doc).len() == n,
{
    assert(json::item_pointer(i) == seq!['/'] + text::decimal(i));
}

/// The window opens with the configuration as it is, and saving it then changes no switch, no
/// credential and no user; the entries for streams become those of the rows.
pub proof fn opening_and_saving_keeps_the_configuration(
    config: Config,
    streams: Seq<pipewire::StreamView>,
    discord_active: Seq<Seq<char>>,
    ts3_active: Seq<Seq<char>>,
)
    requires
        forall|i: int|
            0 <= i < config@.discord_users.len() ==> is_clean(#[trigger] config@.discord_users[i]),
        forall|i: int|
            0 <= i < config@.teamspeak_users.len() ==> is_clean(
                #[trigger] config@.teamspeak_users[i],
            ),
    ensures
        ({
            let a = opened(config, streams, discord_active, ts3_active);
            let saved = after_message(a, Message::Save).config;
            &&& a.config == config@
            &&& a.discord_active == discord_active
            &&& a.ts3_active == ts3_active
            &&& saved.pipewire_enabled == config.pipewire_enabled
            &&& saved.discord == config.discord
            &&& saved.teamspeak == config.teamspeak
            &&& saved.discord_users == config@.discord_users
            &&& saved.teamspeak_users == config@.teamspeak_users
            &&& saved.streams == saved_entries(stream_rows(config.streams@, streams))
        }),
{
    opening_and_saving_keeps_users(config@.discord_users);
    opening_and_saving_keeps_users(config@.teamspeak_users);
}

/// Looking again shows the streams and the members that there are now, with what is set for them, as
/// a window that is opened then does; the users' rows, the configuration, the page and who is chosen
/// stay.
pub proof fn looking_again_shows_what_is_there(
    a: AppView,
    config: Config,
    streams: Seq<pipewire::StreamView>,
    discord_active: Seq<Seq<char>>,
    ts3_active: Seq<Seq<char>>,
)
    ensures
        ({
            let new = opened(config, streams, discord_active, ts3_active);
            let b = looked_again(a, config.streams@, streams, discord_active, ts3_active);
            &&& b.streams == new.streams
            &&& b.discord_active == new.discord_active
            &&& b.ts3_active == new.ts3_active
            &&& b.status == new.status
            &&& b.config == a.config
            &&& b.tab == a.tab
            &&& b.discord_users == a.discord_users
            &&& b.ts3_users == a.ts3_users
            &&& b.discord_add_sel == a.discord_add_sel
            &&& b.ts3_add_sel == a.ts3_add_sel
        }),
{
}

} // verus!
