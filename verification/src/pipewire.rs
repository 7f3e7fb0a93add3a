//! PipeWire: which streams there are, what they are called, and how their volume is set.
//!
//! `pw-dump`, `wpctl` and `playerctl` are not run here: this module says with what arguments they
//! are to be run and what their output means.
use crate::config;
use crate::config::Config;
use crate::text;
use vstd::prelude::*;
use vstd::string::*;

verus! {

broadcast use vstd::string::group_string_axioms;

/// How many characters of a name are shown.
pub const DISPLAY_LENGTH: usize = 12;

/// The controller value that stands for full volume.
pub const FULL_VOLUME: u8 = 127;

/// An audio output stream.
#[derive(Debug)]
pub struct AudioStream {
    pub id: u32,
    /// The program that the stream belongs to; empty where it is not known.
    pub binary: String,
    /// The portal's name for the program; empty where it is not known.
    pub app_id: String,
    /// The name that the stream came with.
    pub raw_name: String,
    /// The name to show.
    pub app_name: String,
    /// The title to show, if there is one.
    pub media_name: Option<String>,
    /// The knob's color, where one is set.
    pub color_scheme: Option<u8>,
    /// The button's color, where one is set.
    pub accent_color: Option<u8>,
    /// Whether the stream is hidden.
    pub ignored: bool,
    /// The volume as a controller value; 127 and above is full volume.
    pub volume: u8,
    pub muted: bool,
}

/// A stream, with its texts as sequences of characters.
pub struct StreamView {
    pub id: u32,
    pub binary: Seq<char>,
    pub app_id: Seq<char>,
    pub raw_name: Seq<char>,
    pub app_name: Seq<char>,
    pub media_name: Option<Seq<char>>,
    pub color_scheme: Option<u8>,
    pub accent_color: Option<u8>,
    pub ignored: bool,
    pub volume: u8,
    pub muted: bool,
}

impl View for AudioStream {
    type V = StreamView;

    open spec fn view(&self) -> StreamView {
        StreamView {
            id: self.id,
            binary: self.binary@,
            app_id: self.app_id@,
            raw_name: self.raw_name@,
            app_name: self.app_name@,
            media_name: text::option_text(self.media_name),
            color_scheme: self.color_scheme,
            accent_color: self.accent_color,
            ignored: self.ignored,
            volume: self.volume,
            muted: self.muted,
        }
    }
}

impl Clone for AudioStream {
    fn clone(&self) -> (r: Self)
        ensures
            r@ == self@,
    {
        AudioStream {
            id: self.id,
            binary: self.binary.clone(),
            app_id: self.app_id.clone(),
            raw_name: self.raw_name.clone(),
            app_name: self.app_name.clone(),
            media_name: self.media_name.clone(),
            color_scheme: self.color_scheme,
            accent_color: self.accent_color,
            ignored: self.ignored,
            volume: self.volume,
            muted: self.muted,
        }
    }
}

/// Streams, by their views.
pub open spec fn stream_views(streams: Seq<AudioStream>) -> Seq<StreamView> {
    streams.map_values(|s: AudioStream| s@)
}

// ---- what pw-dump lists ----

/// An object that `pw-dump` lists.
#[derive(Debug)]
pub struct PwNode {
    pub id: u32,
    pub info: Option<PwNodeInfo>,
}

/// What is known of an object.
#[derive(Debug)]
pub struct PwNodeInfo {
    pub props: Option<PwNodeProps>,
}

/// The properties of an object that matter here.
#[derive(Debug)]
pub struct PwNodeProps {
    pub media_class: Option<String>,
    pub application_name: Option<String>,
    pub node_name: Option<String>,
    pub process_binary: Option<String>,
    pub portal_app_id: Option<String>,
    pub media_name: Option<String>,
}

/// A stream of which volume and title are still to be asked for.
#[derive(Debug)]
pub struct StreamCandidate {
    pub id: u32,
    pub binary: String,
    pub app_id: String,
    pub raw_name: String,
    pub app_name: String,
    /// The player to ask for the title.
    pub mpris_player: Option<String>,
    /// What PipeWire calls the media.
    pub media_name: Option<String>,
    pub color_scheme: Option<u8>,
    pub accent_color: Option<u8>,
    pub ignored: bool,
}

/// A candidate, with its texts as sequences of characters.
pub struct CandidateView {
    pub id: u32,
    pub binary: Seq<char>,
    pub app_id: Seq<char>,
    pub raw_name: Seq<char>,
    pub app_name: Seq<char>,
    pub mpris_player: Option<Seq<char>>,
    pub media_name: Option<Seq<char>>,
    pub color_scheme: Option<u8>,
    pub accent_color: Option<u8>,
    pub ignored: bool,
}

impl View for StreamCandidate {
    type V = CandidateView;

    open spec fn view(&self) -> CandidateView {
        CandidateView {
            id: self.id,
            binary: self.binary@,
            app_id: self.app_id@,
            raw_name: self.raw_name@,
            app_name: self.app_name@,
            mpris_player: text::option_text(self.mpris_player),
            media_name: text::option_text(self.media_name),
            color_scheme: self.color_scheme,
            accent_color: self.accent_color,
            ignored: self.ignored,
        }
    }
}

/// Candidates, by their views.
pub open spec fn candidate_views(candidates: Seq<StreamCandidate>) -> Seq<CandidateView> {
    candidates.map_values(|c: StreamCandidate| c@)
}

/// The first characters of a text, at most `max` of them.
pub open spec fn truncated(s: Seq<char>, max: nat) -> Seq<char> {
    if s.len() <= max {
        s
    } else {
        s.take(max as int)
    }
}

/// The first characters of a text, at most `max` of them.
pub fn truncate_to_chars(s: &str, max: usize) -> (r: String)
    ensures
        r@ == truncated(s@, max as nat),
{
    let chars = text::chars_of(s);
    if chars.len() <= max {
        s.to_string()
    } else {
        assert(chars@.subrange(0, max as int) == s@.take(max as int));
        text::text_of(&chars, 0, max)
    }
}

/// A text that may be missing, or else the empty text.
pub open spec fn or_empty(s: Option<Seq<char>>) -> Seq<char> {
    match s {
        Some(t) => t,
        None => Seq::empty(),
    }
}

fn text_or_empty(s: &Option<String>) -> (r: String)
    ensures
        r@ == or_empty(text::option_text(*s)),
{
    match s {
        Some(t) => t.clone(),
        None => String::new(),
    }
}

/// The name that a stream comes with: that of the application, else that of the node, else one
/// made of the stream's number.
pub open spec fn default_name(id: u32, props: PwNodeProps) -> Seq<char> {
    match (text::option_text(props.application_name), text::option_text(props.node_name)) {
        (Some(name), _) => name,
        (None, Some(name)) => name,
        (None, None) => "Stream "@ + text::decimal(id as nat),
    }
}

fn name_of(id: u32, props: &PwNodeProps) -> (r: String)
    ensures
        r@ == default_name(id, *props),
{
    if let Some(name) = &props.application_name {
        return name.clone();
    }
    if let Some(name) = &props.node_name {
        return name.clone();
    }
    let mut r = "Stream ".to_string();
    r.append(text::decimal_text(id as u64).as_str());
    r
}

/// The stream that an object is, if it is an audio output stream.
pub open spec fn candidate_of(
    entries: Seq<config::StreamOverride>,
    node: PwNode,
) -> Option<CandidateView> {
    match node.info {
        Some(PwNodeInfo { props: Some(props) }) => {
            if text::option_text(props.media_class) == Some("Stream/Output/Audio"@) {
                let binary = or_empty(text::option_text(props.process_binary));
                let app_id = or_empty(text::option_text(props.portal_app_id));
                let raw_name = default_name(node.id, props);
                let resolved = config::resolution(entries, binary, app_id, raw_name);
                Some(
                    CandidateView {
                        id: node.id,
                        binary,
                        app_id,
                        raw_name,
                        app_name: truncated(resolved.name, DISPLAY_LENGTH as nat),
                        mpris_player: resolved.mpris_player,
                        media_name: text::option_text(props.media_name),
                        color_scheme: resolved.color,
                        accent_color: resolved.accent_color,
                        ignored: resolved.ignored,
                    },
                )
            } else {
                None
            }
        },
        _ => None,
    }
}

/// The streams among some objects, in order.
pub open spec fn candidates_of(
    entries: Seq<config::StreamOverride>,
    nodes: Seq<PwNode>,
) -> Seq<CandidateView>
    decreases nodes.len(),
{
    if nodes.len() == 0 {
        Seq::empty()
    } else {
        let before = candidates_of(entries, nodes.drop_last());
        match candidate_of(entries, nodes.last()) {
            Some(c) => before.push(c),
            None => before,
        }
    }
}

fn stream_candidate(config: &Config, node: &PwNode) -> (r: Option<StreamCandidate>)
    ensures
        match r {
            Some(c) => candidate_of(config.streams@, *node) == Some(c@),
            None => candidate_of(config.streams@, *node) is None,
        },
{
    let info = match &node.info {
        Some(info) => info,
        None => {
            return None;
        },
    };
    let props = match &info.props {
        Some(props) => props,
        None => {
            return None;
        },
    };
    if !config::is_text(&props.media_class, "Stream/Output/Audio") {
        return None;
    }
    let raw_name = name_of(node.id, props);
    let binary = text_or_empty(&props.process_binary);
    let app_id = text_or_empty(&props.portal_app_id);
    let resolved = config.resolve(binary.as_str(), app_id.as_str(), raw_name.as_str());
    let app_name = truncate_to_chars(resolved.name.as_str(), DISPLAY_LENGTH);
    Some(
        StreamCandidate {
            id: node.id,
            binary,
            app_id,
            raw_name,
            app_name,
            mpris_player: resolved.mpris_player,
            media_name: props.media_name.clone(),
            color_scheme: resolved.color,
            accent_color: resolved.accent_color,
            ignored: resolved.ignored,
        },
    )
}

/// The streams among what `pw-dump` lists, as the configuration has them.
pub fn stream_candidates(config: &Config, nodes: &Vec<PwNode>) -> (r: Vec<StreamCandidate>)
    ensures
        candidate_views(r@) == candidates_of(config.streams@, nodes@),
{
    let mut r: Vec<StreamCandidate> = Vec::new();
    let mut i: usize = 0;
    assert(nodes@.take(0) == Seq::<PwNode>::empty());
    assert(candidate_views(r@) == candidates_of(config.streams@, nodes@.take(0)));
    while i < nodes.len()
        invariant
            i <= nodes@.len(),
            candidate_views(r@) == candidates_of(config.streams@, nodes@.take(i as int)),
        decreases nodes@.len() - i,
    {
        let ghost before = candidate_views(r@);
        if let Some(c) = stream_candidate(config, &nodes[i]) {
            r.push(c);
            assert(candidate_views(r@) == before.push(c@));
        }
        i += 1;
        assert(nodes@.take(i as int).drop_last() == nodes@.take(i - 1));
    }
    assert(nodes@.take(i as int) == nodes@);
    r
}

// ---- titles ----

/// Whether a media name is of no interest, given it and the application's name in lower case: it
/// speaks of a playback, a play stream or a dummy, repeats the application's name, or is blank.
pub open spec fn is_generic(lower: Seq<char>, lower_app: Seq<char>, media_name: Seq<char>) -> bool {
    ||| text::contains_text(lower, "playback"@)
    ||| text::contains_text(lower, "playstream"@)
    ||| text::contains_text(lower, "dummy"@)
    ||| lower == lower_app
    ||| text::trimmed(media_name).len() == 0
}

/// Whether a media name is of no interest, given it and the application's name in lower case.
pub fn looks_generic(lower: &str, lower_app: &str, media_name: &str) -> (r: bool)
    ensures
        r == is_generic(lower@, lower_app@, media_name@),
{
    text::contains(lower, "playback") || text::contains(lower, "playstream") || text::contains(
        lower,
        "dummy",
    ) || text::same_text(lower, lower_app) || text::trim(media_name).as_str().is_empty()
}

/// Whether a media name is of no interest.
pub fn is_generic_media_name(media_name: &str, app_name: &str) -> (r: bool)
    ensures
        r == is_generic(text::lowercase(media_name@), text::lowercase(app_name@), media_name@),
{
    let lower = text::to_lowercase(media_name);
    let lower_app = text::to_lowercase(app_name);
    looks_generic(lower.as_str(), lower_app.as_str(), media_name)
}

/// The title of a stream: what its player told, else what PipeWire calls the media, if that is of
/// interest.
pub open spec fn title_of(c: CandidateView, title: Option<Seq<char>>) -> Option<Seq<char>> {
    let told = if c.mpris_player is Some {
        title
    } else {
        None
    };
    match (told, c.media_name) {
        (Some(t), _) => Some(truncated(t, DISPLAY_LENGTH as nat)),
        (None, Some(m)) => if is_generic(text::lowercase(m), text::lowercase(c.app_name), m) {
            None
        } else {
            Some(truncated(m, DISPLAY_LENGTH as nat))
        },
        (None, None) => None,
    }
}

/// What was found out about a stream.
#[derive(Debug)]
pub struct Probe {
    /// What the player told, if it was asked and answered.
    pub title: Option<String>,
    /// The volume as a controller value.
    pub volume: u8,
    pub muted: bool,
}

/// A candidate with what was found out about it.
pub open spec fn probed(c: CandidateView, probe: Probe) -> StreamView {
    StreamView {
        id: c.id,
        binary: c.binary,
        app_id: c.app_id,
        raw_name: c.raw_name,
        app_name: c.app_name,
        media_name: title_of(c, text::option_text(probe.title)),
        color_scheme: c.color_scheme,
        accent_color: c.accent_color,
        ignored: c.ignored,
        volume: probe.volume,
        muted: probe.muted,
    }
}

fn media_title(c: &StreamCandidate, title: &Option<String>) -> (r: Option<String>)
    ensures
        text::option_text(r) == title_of(c@, text::option_text(*title)),
{
    if c.mpris_player.is_some() {
        if let Some(t) = title {
            return Some(truncate_to_chars(t.as_str(), DISPLAY_LENGTH));
        }
    }
    match &c.media_name {
        Some(m) => if is_generic_media_name(m.as_str(), c.app_name.as_str()) {
            None
        } else {
            Some(truncate_to_chars(m.as_str(), DISPLAY_LENGTH))
        },
        None => None,
    }
}

/// The streams, with what was found out about each.
pub fn list_streams(candidates: &Vec<StreamCandidate>, probes: &Vec<Probe>) -> (r: Vec<AudioStream>)
    requires
        probes@.len() == candidates@.len(),
    ensures
        stream_views(r@) == Seq::new(
            candidates@.len(),
            |i: int| probed(candidates@[i]@, probes@[i]),
        ),
{
    let mut r: Vec<AudioStream> = Vec::new();
    let mut i: usize = 0;
    while i < candidates.len()
        invariant
            i <= candidates@.len(),
            probes@.len() == candidates@.len(),
            r@.len() == i,
            forall|k: int| 0 <= k < i ==> (#[trigger] r@[k])@ == probed(candidates@[k]@, probes@[k]),
        decreases candidates@.len() - i,
    {
        let c = &candidates[i];
        let probe = &probes[i];
        let stream = AudioStream {
            id: c.id,
            binary: c.binary.clone(),
            app_id: c.app_id.clone(),
            raw_name: c.raw_name.clone(),
            app_name: c.app_name.clone(),
            media_name: media_title(c, &probe.title),
            color_scheme: c.color_scheme,
            accent_color: c.accent_color,
            ignored: c.ignored,
            volume: probe.volume,
            muted: probe.muted,
        };
        r.push(stream);
        i += 1;
    }
    assert(stream_views(r@) == Seq::new(
        candidates@.len(),
        |i: int| probed(candidates@[i]@, probes@[i]),
    ));
    r
}

/// Names and titles fit the device's display.
pub proof fn names_fit_the_display(
    entries: Seq<config::StreamOverride>,
    node: PwNode,
    probe: Probe,
)
    ensures
        candidate_of(entries, node) matches Some(c) ==> {
            &&& probed(c, probe).app_name.len() <= DISPLAY_LENGTH
            &&& probed(c, probe).media_name matches Some(m) ==> m.len() <= DISPLAY_LENGTH
        },
{
}

/// What the player tells comes before what PipeWire calls the media, and a media name that is of
/// no interest is never shown.
pub proof fn titles_come_from_the_player_first(c: CandidateView, title: Option<Seq<char>>)
    ensures
        c.mpris_player is Some && title is Some ==> title_of(c, title) == Some(
            truncated(title.unwrap(), DISPLAY_LENGTH as nat),
        ),
        c.mpris_player is None || title is None ==> (title_of(c, title) is Some <==> {
            c.media_name is Some && !is_generic(
                text::lowercase(c.media_name.unwrap()),
                text::lowercase(c.app_name),
                c.media_name.unwrap(),
            )
        }),
{
}

/// The first twelve characters of a text, or all of it where it has fewer.
pub open spec fn first_twelve(s: Seq<char>) -> Seq<char> {
    s.take(
        if s.len() < 12 {
            s.len() as int
        } else {
            12
        },
    )
}

/// A text that is cut is a beginning of what it was, as long as allowed; a text that is short enough
/// stays whole.
pub proof fn cut_texts_are_beginnings(s: Seq<char>, max: nat)
    ensures
        s.len() <= max ==> truncated(s, max) == s,
        s.len() > max ==> truncated(s, max).len() == max && text::begins_with(s, truncated(s, max)),
        truncated(s, 12) == first_twelve(s),
{
    if s.len() > max {
        assert(s.subrange(0, max as int) =~= s.take(max as int));
    }
    assert(s.take(s.len() as int) =~= s);
}

/// A media name that is not blank, is not the application's name in whatever case, and speaks of
/// no playback, play stream or dummy is shown as the title, by its first twelve characters, where no
/// player tells one.
pub proof fn telling_media_names_are_shown(
    c: CandidateView,
    title: Option<Seq<char>>,
    m: Seq<char>,
)
    requires
        c.media_name == Some(m),
        c.mpris_player is None || title is None,
        !text::all_white(m),
        text::lowercase(m) != text::lowercase(c.app_name),
        !text::contains_text(text::lowercase(m), "playback"@),
        !text::contains_text(text::lowercase(m), "playstream"@),
        !text::contains_text(text::lowercase(m), "dummy"@),
    ensures
        !is_generic(text::lowercase(m), text::lowercase(c.app_name), m),
        title_of(c, title) == Some(first_twelve(m)),
{
    text::blank_texts_trim_to_nothing(m);
    cut_texts_are_beginnings(m, 12);
}

/// Whatever speaks of a playback, a play stream or a dummy, is the application's name in whatever
/// case, or is blank, is no title; nor is there one where neither a player nor PipeWire tells any.
pub proof fn idle_media_names_are_not_shown(c: CandidateView, title: Option<Seq<char>>)
    requires
        c.mpris_player is None || title is None,
        c.media_name matches Some(m) ==> {
            ||| text::contains_text(text::lowercase(m), "playback"@)
            ||| text::contains_text(text::lowercase(m), "playstream"@)
            ||| text::contains_text(text::lowercase(m), "dummy"@)
            ||| text::lowercase(m) == text::lowercase(c.app_name)
            ||| text::all_white(m)
        },
    ensures
        title_of(c, title) is None,
{
    if let Some(m) = c.media_name {
        text::blank_texts_trim_to_nothing(m);
    }
}

/// What a player tells is the title, by its first twelve characters, whatever it is and whatever
/// PipeWire calls the media; a player that was not asked tells nothing.
pub proof fn player_titles_are_shown(c: CandidateView, t: Seq<char>, title: Option<Seq<char>>)
    ensures
        c.mpris_player is Some ==> title_of(c, Some(t)) == Some(first_twelve(t)),
        c.mpris_player is None ==> title_of(c, title) == title_of(c, None),
{
    cut_texts_are_beginnings(t, 12);
}

/// A stream has the name, the colors and the hidden state of its candidate, and the volume and mute
/// that were found out.
pub proof fn streams_are_candidates_with_levels(c: CandidateView, probe: Probe)
    ensures
        ({
            let s = probed(c, probe);
            &&& s.id == c.id
            &&& s.binary == c.binary
            &&& s.app_id == c.app_id
            &&& s.raw_name == c.raw_name
            &&& s.app_name == c.app_name
            &&& s.color_scheme == c.color_scheme
            &&& s.accent_color == c.accent_color
            &&& s.ignored == c.ignored
            &&& s.volume == probe.volume
            &&& s.muted == probe.muted
            &&& s.media_name == match probe.title {
                Some(t) => title_of(c, Some(t@)),
                None => title_of(c, None),
            }
        }),
{
}

/// An object without properties, or of another class than an audio output stream, is no stream.
pub proof fn only_audio_outputs_are_streams(entries: Seq<config::StreamOverride>, node: PwNode)
    requires
        match node.info {
            Some(info) => match info.props {
                Some(props) => match props.media_class {
                    Some(class) => class@ != "Stream/Output/Audio"@,
                    None => true,
                },
                None => true,
            },
            None => true,
        },
    ensures
        candidate_of(entries, node) is None,
{
}

/// Every audio output stream is listed, under its number. It comes with the application's name,
/// else the node's, else one made of its number, and is shown as the configuration has it, with the
/// first twelve characters of the name.
pub proof fn audio_outputs_are_streams(
    entries: Seq<config::StreamOverride>,
    node: PwNode,
    info: PwNodeInfo,
    props: PwNodeProps,
    class: String,
)
    requires
        node.info == Some(info),
        info.props == Some(props),
        props.media_class == Some(class),
        class@ == "Stream/Output/Audio"@,
    ensures
        ({
            let c = candidate_of(entries, node).unwrap();
            let r = config::resolution(entries, c.binary, c.app_id, c.raw_name);
            &&& candidate_of(entries, node) is Some
            &&& c.id == node.id
            &&& c.raw_name == match (props.application_name, props.node_name) {
                (Some(name), _) => name@,
                (None, Some(name)) => name@,
                (None, None) => "Stream "@ + text::decimal(node.id as nat),
            }
            &&& c.binary == match props.process_binary {
                Some(b) => b@,
                None => Seq::empty(),
            }
            &&& c.app_id == match props.portal_app_id {
                Some(a) => a@,
                None => Seq::empty(),
            }
            &&& c.media_name == match props.media_name {
                Some(m) => Some(m@),
                None => None,
            }
            &&& c.app_name == first_twelve(r.name)
            &&& c.mpris_player == r.mpris_player
            &&& c.color_scheme == r.color
            &&& c.accent_color == r.accent_color
            &&& c.ignored == r.ignored
        }),
{
    let c = candidate_of(entries, node).unwrap();
    cut_texts_are_beginnings(
        config::resolution(entries, c.binary, c.app_id, c.raw_name).name,
        12,
    );
}

/// The streams are listed in the order of the objects, each object by itself: those of a list of
/// objects are those of its beginning followed by those of the rest.
pub proof fn streams_are_listed_in_order(
    entries: Seq<config::StreamOverride>,
    a: Seq<PwNode>,
    b: Seq<PwNode>,
    node: PwNode,
)
    ensures
        candidates_of(entries, a + b) == candidates_of(entries, a) + candidates_of(entries, b),
        candidates_of(entries, seq![node]) == match candidate_of(entries, node) {
            Some(c) => seq![c],
            None => Seq::empty(),
        },
    decreases b.len(),
{
    if b.len() > 0 {
        streams_are_listed_in_order(entries, a, b.drop_last(), node);
        assert((a + b).drop_last() =~= a + b.drop_last());
        assert(candidates_of(entries, a + b) =~= candidates_of(entries, a) + candidates_of(
            entries,
            b,
        ));
    } else {
        assert(a + b =~= a);
        assert(candidates_of(entries, a) + candidates_of(entries, b) =~= candidates_of(entries, a));
    }
    assert(seq![node].drop_last() =~= Seq::<PwNode>::empty());
    reveal_with_fuel(candidates_of, 2);
    assert(candidates_of(entries, seq![node]) =~= match candidate_of(entries, node) {
        Some(c) => seq![c],
        None => Seq::empty(),
    });
}

// ---- wpctl ----

/// What `wpctl get-volume` told.
#[derive(Debug)]
pub struct VolumeReading {
    /// The number after "Volume:", as it was printed.
    pub volume: Option<String>,
    pub muted: bool,
}

/// The arguments with which `wpctl` is asked for a stream's volume.
pub fn volume_query(id: u32) -> (r: Vec<String>)
    ensures
        text::texts(r@) == seq!["get-volume"@, text::decimal(id as nat)],
{
    let mut r: Vec<String> = Vec::new();
    r.push("get-volume".to_string());
    r.push(text::decimal_text(id as u64));
    assert(text::texts(r@) == seq!["get-volume"@, text::decimal(id as nat)]);
    r
}

/// Whether the output of `wpctl get-volume` says that the stream is muted.
pub open spec fn says_muted(output: Seq<char>) -> bool {
    text::contains_text(output, "[MUTED]"@)
}

/// What a line such as `Volume: 0.45` or `Volume: 0.45 [MUTED]` says.
pub fn read_volume(output: &str) -> (r: VolumeReading)
    ensures
        text::option_text(r.volume) == text::word(output@, 1),
        r.muted == says_muted(output@),
{
    VolumeReading { volume: text::second_word(output), muted: text::contains(output, "[MUTED]") }
}

/// What the output of `wpctl get-volume` says.
pub fn get_volume_and_mute(stdout: &[u8]) -> (r: VolumeReading)
    ensures
        text::option_text(r.volume) == text::word(text::lossy(stdout@), 1),
        r.muted == says_muted(text::lossy(stdout@)),
        vstd::utf8::valid_utf8(stdout@) ==> text::option_text(r.volume) == text::word(
            vstd::utf8::decode_utf8(stdout@),
            1,
        ) && r.muted == says_muted(vstd::utf8::decode_utf8(stdout@)),
{
    let output = text::from_utf8_lossy(stdout);
    read_volume(output.as_str())
}

/// Whether the output of `wpctl get-volume` says that the stream is muted.
pub fn is_muted(stdout: &[u8]) -> (r: bool)
    ensures
        r == says_muted(text::lossy(stdout@)),
        vstd::utf8::valid_utf8(stdout@) ==> r == says_muted(vstd::utf8::decode_utf8(stdout@)),
{
    get_volume_and_mute(stdout).muted
}

/// A controller value as hundredths of full volume, to the nearest.
pub open spec fn hundredths(value: u8) -> nat {
    let v = if value <= FULL_VOLUME {
        value as nat
    } else {
        FULL_VOLUME as nat
    };
    (200 * v + 127) / 254
}

/// A controller value as a fraction of full volume, with two places after the point.
pub open spec fn volume_text(value: u8) -> Seq<char> {
    let h = hundredths(value);
    text::decimal(h / 100) + seq!['.', text::digit(h / 10 % 10), text::digit(h % 10)]
}

/// The arguments with which `wpctl` sets a stream's volume to a controller value; anything above
/// 127 is full volume.
pub fn set_volume(id: u32, volume: u8) -> (r: Vec<String>)
    ensures
        text::texts(r@) == seq!["set-volume"@, text::decimal(id as nat), volume_text(volume)],
{
    let v: u64 = if volume <= FULL_VOLUME {
        volume as u64
    } else {
        FULL_VOLUME as u64
    };
    let h: u64 = (200 * v + 127) / 254;
    let mut number = text::decimal_text(h / 100);
    number.push('.');
    number.push((48 + (h / 10 % 10) as u8) as char);
    number.push((48 + (h % 10) as u8) as char);
    assert(number@ == volume_text(volume));
    let mut r: Vec<String> = Vec::new();
    r.push("set-volume".to_string());
    r.push(text::decimal_text(id as u64));
    r.push(number);
    assert(text::texts(r@) == seq!["set-volume"@, text::decimal(id as nat), volume_text(volume)]);
    r
}

/// The arguments with which `wpctl` mutes a stream, or unmutes it.
pub fn toggle_mute(id: u32) -> (r: Vec<String>)
    ensures
        text::texts(r@) == seq!["set-mute"@, text::decimal(id as nat), "toggle"@],
{
    let mut r: Vec<String> = Vec::new();
    r.push("set-mute".to_string());
    r.push(text::decimal_text(id as u64));
    r.push("toggle".to_string());
    assert(text::texts(r@) == seq!["set-mute"@, text::decimal(id as nat), "toggle"@]);
    r
}

/// The volume that is set is the number of hundredths nearest to the controller value's share of
/// full volume, and never above full volume.
pub proof fn volume_is_nearest(value: u8)
    requires
        value <= FULL_VOLUME,
    ensures
        -127 < 2 * (100 * value - 127 * hundredths(value)) < 127,
        hundredths(value) <= 100,
{
}

/// A louder controller value never sets a lower volume.
pub proof fn volume_grows(a: u8, b: u8)
    requires
        a <= b,
    ensures
        hundredths(a) <= hundredths(b),
{
}

/// Everything from 127 on is full volume, 0 is silence, and full volume is reached only there.
pub proof fn full_volume_is_127(value: u8)
    ensures
        value >= 127 <==> hundredths(value) == 100,
        value == 0 <==> hundredths(value) == 0,
{
}

/// A volume is written as a number with a point before its last two digits, which without the point
/// is its hundredths.
pub proof fn volumes_are_written_in_hundredths(value: u8)
    ensures
        ({
            let t = volume_text(value);
            let n = t.len();
            &&& n == 4
            &&& t[1] == '.'
            &&& text::all_digits(t.remove(1))
            &&& text::digits_value(t.remove(1)) == hundredths(value)
        }),
{
    let t = volume_text(value);
    let h = hundredths(value);
    assert(h <= 100);
    assert(text::decimal(h / 100) =~= seq![text::digit(h / 100)]);
    let d = t.remove(1);
    assert(d =~= seq![text::digit(h / 100), text::digit(h / 10 % 10), text::digit(h % 10)]);
    assert(d.drop_last() =~= seq![text::digit(h / 100), text::digit(h / 10 % 10)]);
    assert(d.drop_last().drop_last() =~= seq![text::digit(h / 100)]);
    assert(d.drop_last().drop_last().drop_last() =~= Seq::<char>::empty());
    reveal_with_fuel(text::digits_value, 4);
}

proof fn lemma_no_bracket(s: Seq<char>)
    requires
        !s.contains('['),
    ensures
        !says_muted(s),
{
    reveal_strlit("[MUTED]");
    if says_muted(s) {
        let i = choose|i: int| text::occurs_at(s, "[MUTED]"@, i);
        assert(s.subrange(i, i + 7)[0] == s[i]);
        assert(s.contains(s[i]));
    }
}

/// What `wpctl` prints for a stream, with its volume and, where it is muted, a note of that, is read
/// as that volume and that mute state.
pub proof fn volume_lines_read_back(volume: Seq<char>, end: Seq<char>)
    requires
        text::is_word(volume),
        !volume.contains('['),
        text::all_white(end),
    ensures
        ({
            let plain = "Volume: "@ + volume + end;
            let muted = "Volume: "@ + volume + " [MUTED]"@ + end;
            &&& text::word(plain, 1) == Some(volume)
            &&& text::word(muted, 1) == Some(volume)
            &&& !says_muted(plain)
            &&& says_muted(muted)
        }),
{
    let plain = "Volume: "@ + volume + end;
    let muted = "Volume: "@ + volume + " [MUTED]"@ + end;
    reveal_strlit("Volume: ");
    reveal_strlit(" [MUTED]");
    reveal_strlit("[MUTED]");
    let first = seq!['V', 'o', 'l', 'u', 'm', 'e', ':'];
    let gap = seq![' '];
    let none = Seq::<char>::empty();
    assert("Volume: "@ =~= first + gap);
    assert(plain =~= none + first + gap + volume + end);
    assert(muted =~= none + first + gap + volume + (" [MUTED]"@ + end));
    assert(text::is_word(first));
    text::second_words_are_found(none, first, gap, volume, end);
    text::second_words_are_found(none, first, gap, volume, " [MUTED]"@ + end);
    assert(muted =~= ("Volume: "@ + volume + seq![' ']) + "[MUTED]"@ + end);
    text::contained_texts_can_be_cut_out(
        muted,
        "Volume: "@ + volume + seq![' '],
        "[MUTED]"@,
        end,
    );
    assert(!plain.contains('[')) by {
        if plain.contains('[') {
            let k = plain.index_of('[');
            if 8 <= k < 8 + volume.len() {
                assert(volume[k - 8] == '[');
                assert(volume.contains('['));
            } else if k >= 8 + volume.len() {
                assert(text::is_white(end[k - 8 - volume.len()]));
            }
        }
    }
    lemma_no_bracket(plain);
}

} // verus!
