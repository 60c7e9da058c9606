//! The catalog data that the player's logic reads: providers, collections,
//! track summaries, the now-playing track and the playback modes.

use vstd::prelude::*;

verus! {

/// Copies an optional string; the copy is equal to the original.
pub fn clone_opt_string(o: &Option<String>) -> (r: Option<String>)
    ensures
        r == *o,
{
    match o {
        Some(s) => Some(s.clone()),
        None => None,
    }
}

/// The view of an optional string.
pub open spec fn opt_str(o: Option<String>) -> Option<Seq<char>> {
    match o {
        Some(s) => Some(s@),
        None => None,
    }
}

/// The characters of the built-in local provider's identifier.
pub open spec fn local_provider_name() -> Seq<char> {
    seq!['l', 'o', 'c', 'a', 'l']
}

/// A character that may appear in a remote provider identifier.
pub open spec fn is_provider_id_char(c: char) -> bool {
    ('a' <= c && c <= 'z') || ('0' <= c && c <= '9') || c == '_' || c == '-'
}

/// A well-formed remote provider identifier: non-empty, made of provider-id
/// characters, and not the local provider's name.
pub open spec fn valid_remote_provider_name(s: Seq<char>) -> bool {
    &&& s.len() > 0
    &&& forall|i: int| 0 <= i < s.len() ==> is_provider_id_char(#[trigger] s[i])
    &&& s != local_provider_name()
}

/// A source of music: the local library, or a configured remote provider.
#[derive(Debug, PartialEq, Eq, Hash, PartialOrd, Ord)]
pub enum ProviderId {
    Local,
    Remote(String),
}

impl Clone for ProviderId {
    fn clone(&self) -> (r: Self)
        ensures
            r == *self,
    {
        match self {
            ProviderId::Local => ProviderId::Local,
            ProviderId::Remote(s) => ProviderId::Remote(s.clone()),
        }
    }
}

impl ProviderId {
    /// The identifier's characters.
    pub open spec fn name(self) -> Seq<char> {
        match self {
            ProviderId::Local => local_provider_name(),
            ProviderId::Remote(s) => s@,
        }
    }

    /// Equality of providers, by kind and identifier.
    pub open spec fn same(self, other: ProviderId) -> bool {
        match (self, other) {
            (ProviderId::Local, ProviderId::Local) => true,
            (ProviderId::Remote(a), ProviderId::Remote(b)) => a@ == b@,
            _ => false,
        }
    }

    pub open spec fn is_local(self) -> bool {
        self is Local
    }

    /// A provider value as `parse` produces it.
    pub open spec fn well_formed(self) -> bool {
        match self {
            ProviderId::Local => true,
            ProviderId::Remote(s) => valid_remote_provider_name(s@),
        }
    }

    /// Parses a provider identifier: `local` names the local library, any other
    /// non-empty identifier of lowercase ASCII letters, digits, `_` and `-` a
    /// remote provider.
    pub fn parse(s: &str) -> (r: Option<ProviderId>)
        ensures
            s@ == local_provider_name() ==> r == Some(ProviderId::Local),
            s@ != local_provider_name() ==> (r is Some <==> valid_remote_provider_name(s@)),
            r matches Some(p) ==> p.well_formed() && p.name() == s@,
    {
        let chars = crate::text::chars_of(s);
        let n = chars.len();
        if n == 5 && chars[0] == 'l' && chars[1] == 'o' && chars[2] == 'c' && chars[3] == 'a'
            && chars[4] == 'l' {
            assert(chars@ =~= local_provider_name());
            return Some(ProviderId::Local);
        }
        assert(chars@ != local_provider_name()) by {
            if chars@ == local_provider_name() {
                assert(chars@[0] == 'l' && chars@[1] == 'o' && chars@[2] == 'c');
                assert(chars@[3] == 'a' && chars@[4] == 'l');
            }
        }
        if n == 0 {
            return None;
        }
        let mut i: usize = 0;
        while i < n
            invariant
                n == chars@.len(),
                chars@ == s@,
                chars@ != local_provider_name(),
                n > 0,
                i <= n,
                forall|j: int| 0 <= j < i ==> is_provider_id_char(#[trigger] chars@[j]),
            decreases n - i,
        {
            let c = chars[i];
            if !(('a' <= c && c <= 'z') || ('0' <= c && c <= '9') || c == '_' || c == '-') {
                assert(!is_provider_id_char(s@[i as int]));
                return None;
            }
            i += 1;
        }
        Some(ProviderId::Remote(s.to_owned()))
    }

    /// The identifier as text.
    pub fn as_str(&self) -> (r: &str)
        ensures
            r@ == self.name(),
    {
        match self {
            ProviderId::Local => {
                proof {
                    reveal_strlit("local");
                }
                "local"
            },
            ProviderId::Remote(s) => s.as_str(),
        }
    }

    /// Whether two providers are the same.
    pub fn same_as(&self, other: &ProviderId) -> (r: bool)
        ensures
            r == self.same(*other),
    {
        match (self, other) {
            (ProviderId::Local, ProviderId::Local) => true,
            (ProviderId::Remote(a), ProviderId::Remote(b)) => *a == *b,
            _ => false,
        }
    }

    /// Whether this is the local library.
    pub fn is_local_provider(&self) -> (r: bool)
        ensures
            r == self.is_local(),
    {
        match self {
            ProviderId::Local => true,
            _ => false,
        }
    }
}

/// Whether a collection is an album or a playlist.
#[derive(Debug, PartialEq, Eq, Hash, Clone, Copy, Structural)]
pub enum CollectionKind {
    Album,
    Playlist,
}

impl CollectionKind {
    pub open spec fn label_view(self) -> Seq<char> {
        match self {
            CollectionKind::Album => "Album"@,
            CollectionKind::Playlist => "Playlist"@,
        }
    }

    /// The name of the kind as the browser shows it.
    pub fn label(&self) -> (r: &'static str)
        ensures
            r@ == self.label_view(),
    {
        match self {
            CollectionKind::Album => "Album",
            CollectionKind::Playlist => "Playlist",
        }
    }
}

/// The container format (codec family) of an audio stream.
#[derive(Debug, PartialEq, Eq, Hash)]
pub enum AudioFormat {
    Flac,
    Opus,
    Aac,
    M4a,
    Mp3,
    Unknown(String),
}

impl Clone for AudioFormat {
    fn clone(&self) -> (r: Self)
        ensures
            r == *self,
    {
        match self {
            AudioFormat::Flac => AudioFormat::Flac,
            AudioFormat::Opus => AudioFormat::Opus,
            AudioFormat::Aac => AudioFormat::Aac,
            AudioFormat::M4a => AudioFormat::M4a,
            AudioFormat::Mp3 => AudioFormat::Mp3,
            AudioFormat::Unknown(s) => AudioFormat::Unknown(s.clone()),
        }
    }
}

impl AudioFormat {
    /// The short display name of a format.
    pub open spec fn label_view(self) -> Seq<char> {
        match self {
            AudioFormat::Flac => seq!['F', 'L', 'A', 'C'],
            AudioFormat::Opus => seq!['O', 'p', 'u', 's'],
            AudioFormat::Aac => seq!['A', 'A', 'C'],
            AudioFormat::M4a => seq!['M', '4', 'A'],
            AudioFormat::Mp3 => seq!['M', 'P', '3'],
            AudioFormat::Unknown(s) => s@,
        }
    }

    /// The short display name of a format.
    pub fn label(&self) -> (r: &str)
        ensures
            r@ == self.label_view(),
    {
        match self {
            AudioFormat::Flac => {
                proof { reveal_strlit("FLAC"); }
                "FLAC"
            },
            AudioFormat::Opus => {
                proof { reveal_strlit("Opus"); }
                "Opus"
            },
            AudioFormat::Aac => {
                proof { reveal_strlit("AAC"); }
                "AAC"
            },
            AudioFormat::M4a => {
                proof { reveal_strlit("M4A"); }
                "M4A"
            },
            AudioFormat::Mp3 => {
                proof { reveal_strlit("MP3"); }
                "MP3"
            },
            AudioFormat::Unknown(s) => s.as_str(),
        }
    }
}

/// Copies an optional format.
pub fn clone_opt_format(o: &Option<AudioFormat>) -> (r: Option<AudioFormat>)
    ensures
        r == *o,
{
    match o {
        Some(f) => Some(f.clone()),
        None => None,
    }
}

/// A reference to a collection of a provider.
#[derive(Debug, PartialEq, Eq, Hash)]
pub struct CollectionRef {
    pub provider: ProviderId,
    pub id: String,
    pub kind: CollectionKind,
    pub canonical_url: Option<String>,
}

impl Clone for CollectionRef {
    fn clone(&self) -> (r: Self)
        ensures
            r == *self,
    {
        CollectionRef {
            provider: self.provider.clone(),
            id: self.id.clone(),
            kind: self.kind,
            canonical_url: clone_opt_string(&self.canonical_url),
        }
    }
}

impl CollectionRef {
    pub fn new(provider: ProviderId, id: &str, kind: CollectionKind, canonical_url: Option<String>) -> (r: Self)
        ensures
            r.provider == provider,
            r.id@ == id@,
            r.kind == kind,
            r.canonical_url == canonical_url,
    {
        CollectionRef { provider, id: id.to_owned(), kind, canonical_url }
    }
}

/// A reference to a track of a provider.
#[derive(Debug, PartialEq, Eq, Hash)]
pub struct TrackRef {
    pub provider: ProviderId,
    pub id: String,
    pub canonical_url: Option<String>,
    pub label: Option<String>,
}

impl Clone for TrackRef {
    fn clone(&self) -> (r: Self)
        ensures
            r == *self,
    {
        TrackRef {
            provider: self.provider.clone(),
            id: self.id.clone(),
            canonical_url: clone_opt_string(&self.canonical_url),
            label: clone_opt_string(&self.label),
        }
    }
}

impl TrackRef {
    pub fn new(provider: ProviderId, id: &str, canonical_url: Option<String>, label: Option<String>) -> (r: Self)
        ensures
            r.provider == provider,
            r.id@ == id@,
            r.canonical_url == canonical_url,
            r.label == label,
    {
        TrackRef { provider, id: id.to_owned(), canonical_url, label }
    }
}

/// The header of a track list: what it is and how it is shown.
#[derive(Debug, PartialEq, Eq)]
pub struct CollectionSummary {
    pub reference: CollectionRef,
    pub title: String,
    pub subtitle: Option<String>,
    pub artwork_url: Option<String>,
    pub track_count: Option<usize>,
}

impl Clone for CollectionSummary {
    fn clone(&self) -> (r: Self)
        ensures
            r == *self,
    {
        CollectionSummary {
            reference: self.reference.clone(),
            title: self.title.clone(),
            subtitle: clone_opt_string(&self.subtitle),
            artwork_url: clone_opt_string(&self.artwork_url),
            track_count: self.track_count,
        }
    }
}

/// One track as listed in a collection.
#[derive(Debug, PartialEq, Eq)]
pub struct TrackSummary {
    pub reference: TrackRef,
    pub title: String,
    pub artist: Option<String>,
    pub album: Option<String>,
    pub collection_id: Option<String>,
    pub collection_title: Option<String>,
    pub collection_subtitle: Option<String>,
    pub duration_seconds: Option<u32>,
    pub bitrate_bps: Option<u32>,
    pub audio_format: Option<AudioFormat>,
    pub artwork_url: Option<String>,
}

impl Clone for TrackSummary {
    fn clone(&self) -> (r: Self)
        ensures
            r == *self,
    {
        TrackSummary {
            reference: self.reference.clone(),
            title: self.title.clone(),
            artist: clone_opt_string(&self.artist),
            album: clone_opt_string(&self.album),
            collection_id: clone_opt_string(&self.collection_id),
            collection_title: clone_opt_string(&self.collection_title),
            collection_subtitle: clone_opt_string(&self.collection_subtitle),
            duration_seconds: self.duration_seconds,
            bitrate_bps: self.bitrate_bps,
            audio_format: clone_opt_format(&self.audio_format),
            artwork_url: clone_opt_string(&self.artwork_url),
        }
    }
}

/// Copies a list of tracks.
pub fn clone_tracks(tracks: &Vec<TrackSummary>) -> (r: Vec<TrackSummary>)
    ensures
        r@ == tracks@,
{
    let mut r: Vec<TrackSummary> = Vec::new();
    let n = tracks.len();
    for i in 0..n
        invariant
            n == tracks@.len(),
            r@ == tracks@.take(i as int),
    {
        r.push(tracks[i].clone());
        assert(tracks@.take(i + 1) =~= tracks@.take(i as int).push(tracks@[i as int]));
    }
    assert(tracks@.take(n as int) =~= tracks@);
    r
}

/// A collection with its tracks.
#[derive(Debug, PartialEq, Eq)]
pub struct TrackList {
    pub collection: CollectionSummary,
    pub tracks: Vec<TrackSummary>,
}

/// A track list as a value: its header and its sequence of tracks.
pub struct TrackListView {
    pub collection: CollectionSummary,
    pub tracks: Seq<TrackSummary>,
}

impl View for TrackList {
    type V = TrackListView;

    open spec fn view(&self) -> TrackListView {
        TrackListView { collection: self.collection, tracks: self.tracks@ }
    }
}

impl Clone for TrackList {
    fn clone(&self) -> (r: Self)
        ensures
            r@ == self@,
    {
        let tracks = clone_tracks(&self.tracks);
        TrackList { collection: self.collection.clone(), tracks }
    }
}

/// The views of a sequence of track lists.
pub open spec fn lists_view(lists: Seq<TrackList>) -> Seq<TrackListView> {
    lists.map_values(|l: TrackList| l@)
}

/// The track that is playing or was last played.
#[derive(Debug, PartialEq, Eq)]
pub struct Track {
    pub provider: ProviderId,
    pub track_id: String,
    pub title: String,
    pub artist: String,
    pub album: String,
    pub source_path: String,
    pub artwork_path: Option<String>,
    pub duration_seconds: Option<u32>,
    pub audio_format: Option<AudioFormat>,
    pub bitrate_bps: Option<u32>,
}

impl Clone for Track {
    fn clone(&self) -> (r: Self)
        ensures
            r == *self,
    {
        Track {
            provider: self.provider.clone(),
            track_id: self.track_id.clone(),
            title: self.title.clone(),
            artist: self.artist.clone(),
            album: self.album.clone(),
            source_path: self.source_path.clone(),
            artwork_path: clone_opt_string(&self.artwork_path),
            duration_seconds: self.duration_seconds,
            audio_format: clone_opt_format(&self.audio_format),
            bitrate_bps: self.bitrate_bps,
        }
    }
}

/// The text of an optional string, empty when there is none.
pub open spec fn text_or_empty(o: Option<String>) -> Seq<char> {
    match o {
        Some(s) => s@,
        None => Seq::empty(),
    }
}

fn string_or_empty(o: Option<String>) -> (r: String)
    ensures
        r@ == text_or_empty(o),
{
    match o {
        Some(s) => s,
        None => String::new(),
    }
}

impl Track {
    /// The track of a summary, played from `source_path`, its artist and
    /// album empty where the summary names none.
    pub fn from_track_summary_with_source(track: TrackSummary, source_path: String, artwork_path: Option<String>) -> (r: Track)
        ensures
            r.provider == track.reference.provider,
            r.track_id == track.reference.id,
            r.title == track.title,
            r.artist@ == text_or_empty(track.artist),
            r.album@ == text_or_empty(track.album),
            r.source_path == source_path,
            r.artwork_path == artwork_path,
            r.duration_seconds == track.duration_seconds,
            r.audio_format == track.audio_format,
            r.bitrate_bps == track.bitrate_bps,
    {
        Track {
            provider: track.reference.provider,
            track_id: track.reference.id,
            title: track.title,
            artist: string_or_empty(track.artist),
            album: string_or_empty(track.album),
            source_path,
            artwork_path,
            duration_seconds: track.duration_seconds,
            audio_format: track.audio_format,
            bitrate_bps: track.bitrate_bps,
        }
    }
}

/// What the player is doing.
#[derive(Debug, PartialEq, Eq, Clone, Copy, Structural)]
pub enum PlaybackStatus {
    Idle,
    Playing,
    Paused,
    Buffering,
}

/// How playback continues past the current track.
#[derive(Debug, PartialEq, Eq, Clone, Copy, Structural)]
pub enum RepeatMode {
    Off,
    All,
    One,
}

impl RepeatMode {
    pub open spec fn next(self) -> RepeatMode {
        match self {
            RepeatMode::Off => RepeatMode::All,
            RepeatMode::All => RepeatMode::One,
            RepeatMode::One => RepeatMode::Off,
        }
    }

    /// The next mode in the cycle Off, All, One, Off.
    pub fn cycle(&self) -> (r: RepeatMode)
        ensures
            r == self.next(),
    {
        match self {
            RepeatMode::Off => RepeatMode::All,
            RepeatMode::All => RepeatMode::One,
            RepeatMode::One => RepeatMode::Off,
        }
    }
}

/// Cycling the repeat mode three times comes back to where it started.
pub proof fn lemma_repeat_cycle_returns(m: RepeatMode)
    ensures
        m.next().next().next() == m,
{
}

} // verus!
