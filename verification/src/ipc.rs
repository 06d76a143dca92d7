//! What the player and its clients say to each other.
use vstd::prelude::*;

use crate::discover::Discover;
use crate::entry::Entry;
use crate::player::protocol::RepeatMode;
use crate::sort::SortBy;


verus! {

/// A section of the library.
#[derive(Debug, Clone, Copy, PartialEq, Eq, Structural)]
pub enum Section {
    Songs,
    Albums,
    Artists,
    Playlists,
}

/// What a page shows, and which collection its id belongs to.
#[derive(Debug, Clone, Copy, PartialEq, Eq, Structural)]
pub enum PageKind {
    Album,
    Artist,
    Playlist,
    LibraryAlbum,
    LibraryArtist,
    LibraryPlaylist,
}

/// Which kinds of thing a search of the catalogue asks for.
#[derive(Debug, Clone, Copy, PartialEq, Eq, Structural)]
pub enum CatalogFilter {
    All,
    Songs,
    Albums,
    Artists,
    Playlists,
}

impl CatalogFilter {
    /// The kind after this one, round and round.
    pub open spec fn spec_next(self) -> CatalogFilter {
        match self {
            CatalogFilter::All => CatalogFilter::Songs,
            CatalogFilter::Songs => CatalogFilter::Albums,
            CatalogFilter::Albums => CatalogFilter::Artists,
            CatalogFilter::Artists => CatalogFilter::Playlists,
            CatalogFilter::Playlists => CatalogFilter::All,
        }
    }

    /// The kind after this one, round and round.
    pub fn next(self) -> (r: CatalogFilter)
        ensures
            r == self.spec_next(),
    {
        match self {
            CatalogFilter::All => CatalogFilter::Songs,
            CatalogFilter::Songs => CatalogFilter::Albums,
            CatalogFilter::Albums => CatalogFilter::Artists,
            CatalogFilter::Artists => CatalogFilter::Playlists,
            CatalogFilter::Playlists => CatalogFilter::All,
        }
    }

    pub open spec fn spec_label(self) -> Seq<char> {
        match self {
            CatalogFilter::All => "everything"@,
            CatalogFilter::Songs => "songs"@,
            CatalogFilter::Albums => "albums"@,
            CatalogFilter::Artists => "artists"@,
            CatalogFilter::Playlists => "playlists"@,
        }
    }

    /// What the kind is called on screen.
    pub fn label(self) -> (r: &'static str)
        ensures
            r@ == self.spec_label(),
    {
        match self {
            CatalogFilter::All => "everything",
            CatalogFilter::Songs => "songs",
            CatalogFilter::Albums => "albums",
            CatalogFilter::Artists => "artists",
            CatalogFilter::Playlists => "playlists",
        }
    }
}

impl Default for CatalogFilter {
    fn default() -> (r: Self)
        ensures
            r == CatalogFilter::All,
    {
        CatalogFilter::All
    }
}

/// Five steps through the kinds come back to the first.
pub proof fn the_kinds_go_round(f: CatalogFilter)
    ensures
        f.spec_next().spec_next().spec_next().spec_next().spec_next() == f,
        f.spec_next() != f,
{
}

/// A change to a library.
#[derive(Debug, Clone, Copy, PartialEq, Eq, Structural)]
pub enum WriteAction {
    AddToLibrary,
    Favorite,
    Unfavorite,
    CreatePlaylist,
    AddToPlaylist,
}

/// One line of a song's text.
#[derive(Debug, PartialEq, Eq)]
pub struct LyricLine {
    pub start_ms: u64,
    pub text: String,
}

/// A song's text.
#[derive(Debug, PartialEq, Eq)]
pub struct Lyrics {
    /// Whether the lines carry the times they are sung at.
    pub synced: bool,
    pub lines: Vec<LyricLine>,
}

/// One queued track, as a client draws it.
#[derive(Debug, PartialEq, Eq)]
pub struct QueueItem {
    pub id: Option<String>,
    pub title: String,
    pub artist: String,
    pub album: String,
    pub duration_ms: u64,
}

impl Clone for QueueItem {
    fn clone(&self) -> (r: Self)
        ensures
            r == *self,
    {
        QueueItem {
            id: self.id.clone(),
            title: self.title.clone(),
            artist: self.artist.clone(),
            album: self.album.clone(),
            duration_ms: self.duration_ms,
        }
    }
}

impl Default for QueueItem {
    fn default() -> (r: Self)
        ensures
            r.id is None,
            r.title@.len() == 0,
            r.artist@.len() == 0,
            r.album@.len() == 0,
            r.duration_ms == 0,
    {
        QueueItem {
            id: None,
            title: String::new(),
            artist: String::new(),
            album: String::new(),
            duration_ms: 0,
        }
    }
}

/// What is playing, as a client draws it.
#[derive(Debug, PartialEq, Eq)]
pub struct Snapshot {
    pub track_id: Option<String>,
    pub title: String,
    pub artist: String,
    pub album: String,
    pub position_ms: u64,
    pub duration_ms: u64,
    pub playing: bool,
    pub busy: bool,
    pub shuffle: bool,
    pub repeat: RepeatMode,
    /// The loudness, as the bits of a floating-point number. It is carried
    /// here and never computed with.
    pub volume: u64,
}

impl Snapshot {
    /// Whether nothing is known but the loudness.
    pub open spec fn is_blank(self) -> bool {
        &&& self.track_id is None
        &&& self.title@.len() == 0
        &&& self.artist@.len() == 0
        &&& self.album@.len() == 0
        &&& self.position_ms == 0
        &&& self.duration_ms == 0
        &&& !self.playing
        &&& !self.busy
        &&& !self.shuffle
        &&& self.repeat is Off
    }

    /// Nothing playing, at this loudness.
    pub fn blank(volume: u64) -> (r: Self)
        ensures
            r.is_blank(),
            r.volume == volume,
    {
        Snapshot {
            track_id: None,
            title: String::new(),
            artist: String::new(),
            album: String::new(),
            position_ms: 0,
            duration_ms: 0,
            playing: false,
            busy: false,
            shuffle: false,
            repeat: RepeatMode::Off,
            volume,
        }
    }
}

impl Default for Snapshot {
    fn default() -> (r: Self)
        ensures
            r.is_blank(),
            r.volume == 0,
    {
        Snapshot::blank(0)
    }
}

/// How far the player has come in starting.
#[derive(Debug, PartialEq, Eq)]
pub enum Stage {
    Connecting,
    SignedOut,
    Ready,
    Broken { detail: String },
}

impl Default for Stage {
    fn default() -> (r: Self)
        ensures
            r is Connecting,
    {
        Stage::Connecting
    }
}

/// How a queue is to be started.
#[derive(Debug, Clone, Copy, PartialEq, Eq, Structural)]
pub enum PlayMode {
    InOrder,
    Shuffled,
}

/// A press on one of the player's controls.
#[derive(Debug, Clone, Copy, PartialEq, Eq, Structural)]
pub enum Transport {
    PlayPause,
    Previous,
    Next,
    Seek { position_ms: u64 },
    SetShuffle { shuffle: bool },
    SetRepeat { mode: RepeatMode },
    /// Set the volume, given by the bits of a number from nothing to one.
    SetVolume { volume: u64 },
}

/// What a client asks of the player.
#[derive(Debug, PartialEq, Eq)]
pub enum Request {
    Subscribe,
    Stage,
    Snapshot,
    Queue,
    SignIn,
    Transport(Transport),
    Refresh,
    Browse {
        view: Section,
        query: String,
        sort: SortBy,
        reverse: bool,
        offset: usize,
        limit: usize,
    },
    Search { query: String, filter: CatalogFilter, offset: usize },
    Open { kind: PageKind, id: String },
    Play { ids: Vec<String>, index: usize, start: PlayMode },
    Enqueue { ids: Vec<String>, next: bool },
    MoveInQueue { from: usize, to: usize },
    RemoveFromQueue { index: usize },
    JumpTo { index: usize },
    Quit,
}

/// What the player tells its clients.
#[derive(Debug, PartialEq, Eq)]
pub enum Event {
    Snapshot(Snapshot),
    Queue { items: Vec<QueueItem>, position: usize },
    Stage(Stage),
    Rows { entries: Vec<Entry>, total: usize },
    Results { query: String, entries: Vec<Entry>, offset: usize, more: bool },
    Page { header: Entry, entries: Vec<Entry> },
    Discover(Discover),
    LibraryChanged,
    LibraryRefreshing { refreshing: bool },
    Error { detail: String },
}

/// Going round, every kind comes once: no two kinds are followed by the same.
pub proof fn every_kind_comes_once(a: CatalogFilter, b: CatalogFilter)
    ensures
        a != b ==> a.spec_next() != b.spec_next(),
        CatalogFilter::All.spec_next() == CatalogFilter::Songs,
        CatalogFilter::Songs.spec_next() == CatalogFilter::Albums,
        CatalogFilter::Albums.spec_next() == CatalogFilter::Artists,
        CatalogFilter::Artists.spec_next() == CatalogFilter::Playlists,
{
}

} // verus!
