//! What the player and the audio engine say to each other.
//!
//! The engine runs as a child process. It is told [`Command`]s and reports
//! [`Event`]s, one to a line.
use vstd::prelude::*;

use crate::text;

verus! {

/// What the player tells the engine to do.
#[derive(Debug)]
pub enum Command {
    /// Load a whole queue in one call and start at `start_position`.
    ///
    /// A queue is never fed one track at a time: that would put a gap at every
    /// boundary.
    SetQueue {
        songs: Vec<String>,
        start_position: usize,
        /// Whether to start playing once it is loaded. False only when a saved
        /// queue is put back.
        start_playing: bool,
        /// Where in the starting track to begin, in milliseconds.
        start_time_ms: u64,
    },
    Play,
    Pause,
    PlayPause,
    Next,
    Previous,
    /// Move within the queue that is already loaded.
    ChangeToIndex { index: usize },
    /// Move one item; `to` is where it lands after it has been taken out.
    MoveInQueue { from: usize, to: usize },
    /// Tell the engine which index the current track is at, after an edit.
    SyncQueuePosition { index: usize },
    /// Insert songs right after the current track.
    PlayNext { songs: Vec<String> },
    /// Insert songs at the end.
    PlayLater { songs: Vec<String> },
    /// Empty the queue and stop.
    ClearQueue,
    /// Drop one item from the loaded queue.
    RemoveFromQueue { index: usize },
    Seek { position_ms: u64 },
    SetShuffle { shuffle: bool },
    SetRepeat { mode: RepeatMode },
    ShowLogin,
    Hide,
    Authorize,
    /// Take a song out of the library, by its library id.
    RemoveFromLibrary { id: String },
    /// Remove a song's star, by its catalog id.
    Unfavorite { id: String },
    /// End the session and clear its cookies.
    SignOut,
    RefreshTokens,
    Quit,
}

impl Command {
    /// The name a command has on the wire.
    pub open spec fn spec_name(self) -> Seq<char> {
        match self {
            Command::SetQueue { .. } => "setQueue"@,
            Command::Play => "play"@,
            Command::Pause => "pause"@,
            Command::PlayPause => "playPause"@,
            Command::Next => "next"@,
            Command::Previous => "previous"@,
            Command::ChangeToIndex { .. } => "changeToIndex"@,
            Command::MoveInQueue { .. } => "moveInQueue"@,
            Command::SyncQueuePosition { .. } => "syncQueuePosition"@,
            Command::PlayNext { .. } => "playNext"@,
            Command::PlayLater { .. } => "playLater"@,
            Command::RemoveFromQueue { .. } => "removeFromQueue"@,
            Command::ClearQueue => "clearQueue"@,
            Command::Seek { .. } => "seek"@,
            Command::SetShuffle { .. } => "setShuffle"@,
            Command::SetRepeat { .. } => "setRepeat"@,
            Command::RefreshTokens => "refreshTokens"@,
            Command::ShowLogin => "showLogin"@,
            Command::Authorize => "authorize"@,
            Command::RemoveFromLibrary { .. } => "removeFromLibrary"@,
            Command::Unfavorite { .. } => "unfavorite"@,
            Command::SignOut => "signOut"@,
            Command::Quit => "quit"@,
            Command::Hide => "hide"@,
        }
    }

    /// The name this command has on the wire.
    pub fn name(&self) -> (r: &'static str)
        ensures
            r@ == self.spec_name(),
    {
        match self {
            Command::SetQueue { .. } => "setQueue",
            Command::Play => "play",
            Command::Pause => "pause",
            Command::PlayPause => "playPause",
            Command::Next => "next",
            Command::Previous => "previous",
            Command::ChangeToIndex { .. } => "changeToIndex",
            Command::MoveInQueue { .. } => "moveInQueue",
            Command::SyncQueuePosition { .. } => "syncQueuePosition",
            Command::PlayNext { .. } => "playNext",
            Command::PlayLater { .. } => "playLater",
            Command::RemoveFromQueue { .. } => "removeFromQueue",
            Command::ClearQueue => "clearQueue",
            Command::Seek { .. } => "seek",
            Command::SetShuffle { .. } => "setShuffle",
            Command::SetRepeat { .. } => "setRepeat",
            Command::RefreshTokens => "refreshTokens",
            Command::ShowLogin => "showLogin",
            Command::Authorize => "authorize",
            Command::RemoveFromLibrary { .. } => "removeFromLibrary",
            Command::Unfavorite { .. } => "unfavorite",
            Command::SignOut => "signOut",
            Command::Quit => "quit",
            Command::Hide => "hide",
        }
    }
}

#[derive(Debug, Clone, Copy, PartialEq, Eq, Structural)]
pub enum RepeatMode {
    Off,
    One,
    All,
}

impl Default for RepeatMode {
    fn default() -> (r: Self)
        ensures
            r == RepeatMode::Off,
    {
        RepeatMode::Off
    }
}

/// What the engine reports.
#[allow(inconsistent_fields)]
pub enum Event {
    /// The process is up and reads its commands.
    Ready { debug: bool },
    /// The decryption module is installed. Nothing plays before this.
    WidevineReady,
    HookBoot { ready_state: String, href: String },
    HookReady { authorized: bool, version: String, trigger: String },
    HookFailed { detail: String },
    /// Shuffle and repeat, as the engine has them.
    Modes { shuffle: bool, repeat: RepeatMode },
    HookWarning { detail: String },
    /// An older engine reports its gain. The desktop owns volume, so the number
    /// is dropped where the line is read.
    Volume,
    Tokens(Tokens),
    PlaybackState { state: PlaybackState },
    NowPlaying { item: Option<Item>, queue: Queue },
    Position { position_ms: u64, duration_ms: u64 },
    Queue(Queue),
    Authorization { authorized: bool },
    WindowHidden,
    /// The outcome of one library write, with the id it was for.
    LibraryWrite { kind: String, id: String, ok: bool, detail: String },
    SignedOut,
    Ack { id: u64 },
    CmdRecv { cmd: String },
    CmdQueued { cmd: String, depth: u32 },
    CmdDone { cmd: String, state: i32, queue_len: i32 },
    Error { code: String, detail: String },
}

/// The credentials the engine harvests at every launch. Never written down.
pub struct Tokens {
    pub developer_token: String,
    pub music_user_token: Option<String>,
    pub storefront: String,
    pub authorized: bool,
}

/// What `format!("{:?}", s)` writes for a string: the text in quotes, with the
/// characters that need it escaped.
pub uninterp spec fn quoted_text(s: Seq<char>) -> Seq<char>;

/// The `Debug` form that std gives a string. The contract names the result,
/// which is a function of the string's characters alone; which characters are
/// escaped, and how, is left to std.
#[verifier::external_body]
fn quoted(s: &str) -> (r: String)
    ensures
        r@ == quoted_text(s@),
{
    format!("{:?}", s)
}

impl Tokens {
    /// How credentials show in a log: every secret redacted.
    pub open spec fn spec_debug(self) -> Seq<char> {
        "Tokens { developer_token: \"<redacted>\", music_user_token: "@ + (
        if self.music_user_token is Some {
            "Some(\"<redacted>\")"@
        } else {
            "None"@
        }) + ", storefront: "@ + quoted_text(self.storefront@) + ", authorized: "@ + (
        if self.authorized {
            "true"@
        } else {
            "false"@
        }) + " }"@
    }

    /// The text of these credentials for a log.
    pub fn debug_text(&self) -> (r: String)
        ensures
            r@ == self.spec_debug(),
    {
        let mut out = "Tokens { developer_token: \"<redacted>\", music_user_token: ".to_owned();
        out.append(
            match self.music_user_token {
                Some(_) => "Some(\"<redacted>\")",
                None => "None",
            },
        );
        out.append(", storefront: ");
        out.append(quoted(self.storefront.as_str()).as_str());
        out.append(", authorized: ");
        out.append(if self.authorized { "true" } else { "false" });
        out.append(" }");
        out
    }

    /// The storefront assumed when the engine names none.
    pub fn default_storefront() -> (r: String)
        ensures
            r@ == "us"@,
    {
        "us".to_owned()
    }
}

/// A log line never depends on a secret: two sets of credentials that differ
/// only in their tokens show alike.
pub proof fn tokens_show_no_secret(a: Tokens, b: Tokens)
    requires
        a.music_user_token is Some == b.music_user_token is Some,
        a.storefront@ == b.storefront@,
        a.authorized == b.authorized,
    ensures
        a.spec_debug() == b.spec_debug(),
{
}

#[derive(Debug, Clone, Copy, PartialEq, Eq, Structural)]
pub enum PlaybackState {
    /// Nothing is loaded.
    Idle,
    Loading,
    Playing,
    Paused,
    Stopped,
    Ended,
    Seeking,
    Waiting,
    Stalled,
    Completed,
    /// A state this version has no name for.
    Unknown,
}

impl Default for PlaybackState {
    fn default() -> (r: Self)
        ensures
            r == PlaybackState::Idle,
    {
        PlaybackState::Idle
    }
}

impl PlaybackState {
    pub open spec fn spec_is_playing(self) -> bool {
        self is Playing || self is Seeking
    }

    pub open spec fn spec_is_busy(self) -> bool {
        self is Loading || self is Waiting || self is Stalled
    }

    /// Whether sound is coming out, or about to again after a seek.
    pub fn is_playing(self) -> (r: bool)
        ensures
            r == self.spec_is_playing(),
    {
        matches!(self, PlaybackState::Playing | PlaybackState::Seeking)
    }

    /// Whether the engine is working towards sound.
    pub fn is_busy(self) -> (r: bool)
        ensures
            r == self.spec_is_busy(),
    {
        matches!(self, PlaybackState::Loading | PlaybackState::Waiting | PlaybackState::Stalled)
    }
}

/// No state is both playing and busy.
pub proof fn playing_is_not_busy(s: PlaybackState)
    ensures
        !(s.spec_is_playing() && s.spec_is_busy()),
{
}

/// Why a queue was reported.
#[derive(Debug, Clone, Copy, PartialEq, Eq, Structural)]
pub enum QueueChange {
    /// Something was added, removed or moved. The engine does not renumber its
    /// own position after this.
    Items,
    /// Only the cursor moved: the engine drives its own queue.
    Position,
}

impl Default for QueueChange {
    fn default() -> (r: Self)
        ensures
            r == QueueChange::Position,
    {
        QueueChange::Position
    }
}

#[derive(Debug)]
pub struct Queue {
    pub reason: QueueChange,
    /// The engine's position; negative while nothing is current.
    pub position: i64,
    pub items: Vec<Item>,
}

impl Default for Queue {
    fn default() -> (r: Self)
        ensures
            r.reason == QueueChange::Position,
            r.position == 0,
            r.items@ == Seq::<Item>::empty(),
    {
        Queue { reason: QueueChange::Position, position: 0, items: Vec::new() }
    }
}

impl Queue {
    /// The position of a queue that reports none.
    pub fn no_position() -> (r: i64)
        ensures
            r == -1,
    {
        -1
    }

    pub open spec fn spec_index(self) -> Option<int> {
        if 0 <= self.position < self.items@.len() {
            Some(self.position as int)
        } else {
            None
        }
    }

    /// The current index, or `None` while nothing is current.
    pub fn index(&self) -> (r: Option<usize>)
        ensures
            match r {
                Some(i) => self.spec_index() == Some(i as int),
                None => self.spec_index() is None,
            },
    {
        if self.position < 0 {
            return None;
        }
        if self.position as u64 >= self.items.len() as u64 {
            return None;
        }
        Some(self.position as usize)
    }
}

/// One track, as the engine describes it.
#[derive(Debug, PartialEq, Eq)]
pub struct Item {
    /// Identity of this place in the queue: two copies of one song have
    /// different ones. Empty when the engine gives none.
    pub occurrence_id: String,
    pub id: Option<String>,
    pub catalog_id: Option<String>,
    pub title: String,
    pub artist: String,
    pub album: String,
    pub duration_ms: u64,
    pub track_number: u32,
    /// An address with `{w}`, `{h}` and `{f}` left to fill in.
    pub artwork_template: Option<String>,
}

impl Clone for Item {
    fn clone(&self) -> (r: Self)
        ensures
            r == *self,
    {
        Item {
            occurrence_id: self.occurrence_id.clone(),
            id: self.id.clone(),
            catalog_id: self.catalog_id.clone(),
            title: self.title.clone(),
            artist: self.artist.clone(),
            album: self.album.clone(),
            duration_ms: self.duration_ms,
            track_number: self.track_number,
            artwork_template: self.artwork_template.clone(),
        }
    }
}

impl Default for Item {
    fn default() -> (r: Self)
        ensures
            r.occurrence_id@.len() == 0,
            r.id is None,
            r.catalog_id is None,
            r.title@.len() == 0,
            r.artist@.len() == 0,
            r.album@.len() == 0,
            r.duration_ms == 0,
            r.track_number == 0,
            r.artwork_template is None,
    {
        Item {
            occurrence_id: String::new(),
            id: None,
            catalog_id: None,
            title: String::new(),
            artist: String::new(),
            album: String::new(),
            duration_ms: 0,
            track_number: 0,
            artwork_template: None,
        }
    }
}

impl Item {
    /// The id that names the song: the catalog's, else its own.
    pub open spec fn spec_song_id(self) -> Option<Seq<char>> {
        match self.catalog_id {
            Some(c) => Some(c@),
            None => text::opt_view(self.id),
        }
    }

    /// Whether the song has the id `wanted`.
    pub fn has_song_id(&self, wanted: &str) -> (r: bool)
        ensures
            r == (self.spec_song_id() == Some(wanted@)),
    {
        match (&self.catalog_id, &self.id) {
            (Some(c), _) => text::same(c.as_str(), wanted),
            (None, Some(i)) => text::same(i.as_str(), wanted),
            (None, None) => false,
        }
    }

    /// The id that names the song.
    pub fn song_id(&self) -> (r: Option<&str>)
        ensures
            match r {
                Some(s) => self.spec_song_id() == Some(s@),
                None => self.spec_song_id() is None,
            },
    {
        match (&self.catalog_id, &self.id) {
            (Some(c), _) => Some(c.as_str()),
            (None, Some(i)) => Some(i.as_str()),
            (None, None) => None,
        }
    }
}

/// A copy of a list of items.
pub fn copy_items(items: &Vec<Item>) -> (r: Vec<Item>)
    ensures
        r@ == items@,
{
    let r = items.clone();
    assert(r@ =~= items@);
    r
}

/// A song goes by its catalogue id where it has one, and by its own otherwise.
pub proof fn a_song_goes_by_its_catalogue_id(item: Item)
    ensures
        item.catalog_id matches Some(c) ==> item.spec_song_id() == Some(c@),
        item.catalog_id is None ==> item.spec_song_id() == text::opt_view(item.id),
{
}

/// Something is playing while it plays or seeks, and the engine is busy while it
/// loads, waits or stalls; nothing else is either.
pub proof fn a_state_is_playing_or_busy(s: PlaybackState)
    ensures
        s is Playing || s is Seeking ==> s.spec_is_playing(),
        s is Loading || s is Waiting || s is Stalled ==> s.spec_is_busy(),
        s is Paused || s is Stopped || s is Ended || s is Completed || s is Idle || s is Unknown
            ==> !s.spec_is_playing() && !s.spec_is_busy(),
{
}

} // verus!
