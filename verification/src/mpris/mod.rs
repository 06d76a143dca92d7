//! What the desktop is told of playback over MPRIS, and what its requests ask
//! the player for.
use vstd::prelude::*;

use crate::player::protocol::{Item, RepeatMode};
use crate::steps::{self, same_path_opt};
use crate::text;
use track_list::{Change, Projection, TrackId};

pub mod exported;
pub mod track_list;

verus! {

/// What a request of the desktop asks the player for.
#[derive(Debug, Clone, Copy, PartialEq, Eq, Structural)]
pub enum MprisCommand {
    Play,
    Pause,
    PlayPause,
    Next,
    Previous,
    /// To this position, in milliseconds.
    Seek(u64),
    SetShuffle(bool),
    SetRepeat(RepeatMode),
    /// The bits of a double between zero and one.
    SetVolume(u64),
    /// To this place in the queue.
    GoTo { index: usize },
    Raise,
    Quit,
}

/// What the program that plays can do for the desktop.
#[derive(Debug, Clone, Copy, PartialEq, Eq, Structural)]
pub struct Capabilities {
    pub can_raise: bool,
    pub can_quit: bool,
}

impl Capabilities {
    /// A program with a window.
    pub fn windowed() -> (r: Self)
        ensures
            r == (Capabilities { can_raise: true, can_quit: true }),
    {
        Capabilities { can_raise: true, can_quit: true }
    }

    /// A program without one, which has nothing to raise and is not the
    /// desktop's to end.
    pub fn headless() -> (r: Self)
        ensures
            r == (Capabilities { can_raise: false, can_quit: false }),
    {
        Capabilities { can_raise: false, can_quit: false }
    }
}

#[derive(Debug, Clone, Copy, PartialEq, Eq, Structural)]
pub enum PlaybackStatus {
    Playing,
    Paused,
    Stopped,
}

#[derive(Debug, Clone, Copy, PartialEq, Eq, Structural)]
pub enum LoopStatus {
    Off,
    Track,
    Playlist,
}

/// The repeat mode that a loop status stands for.
pub open spec fn spec_repeat_of(status: LoopStatus) -> RepeatMode {
    match status {
        LoopStatus::Off => RepeatMode::Off,
        LoopStatus::Playlist => RepeatMode::All,
        LoopStatus::Track => RepeatMode::One,
    }
}

/// The loop status that stands for a repeat mode.
pub open spec fn spec_loop_of(repeat: RepeatMode) -> LoopStatus {
    match repeat {
        RepeatMode::Off => LoopStatus::Off,
        RepeatMode::All => LoopStatus::Playlist,
        RepeatMode::One => LoopStatus::Track,
    }
}

/// The desktop reads back the mode that it sets, and sets the one it reads.
pub proof fn loop_and_repeat_name_the_same_modes(status: LoopStatus, repeat: RepeatMode)
    ensures
        spec_loop_of(spec_repeat_of(status)) == status,
        spec_repeat_of(spec_loop_of(repeat)) == repeat,
{
}

/// What a track is described by. What is not known is left out.
#[derive(Debug, PartialEq, Eq)]
pub struct Metadata {
    pub trackid: Option<TrackId>,
    pub title: Option<String>,
    pub artist: Option<Vec<String>>,
    pub album: Option<String>,
    pub track_number: Option<i32>,
    /// In milliseconds.
    pub length: Option<i64>,
    pub art_url: Option<String>,
}

/// What a description says.
pub struct Described {
    pub trackid: Option<Seq<char>>,
    pub title: Option<Seq<char>>,
    pub artist: Option<Seq<Seq<char>>>,
    pub album: Option<Seq<char>>,
    pub track_number: Option<i32>,
    pub length: Option<i64>,
    pub art_url: Option<Seq<char>>,
}

/// What an optional id holds.
pub open spec fn id_view(id: Option<TrackId>) -> Option<Seq<char>> {
    match id {
        Some(t) => Some(t@),
        None => None,
    }
}

impl View for Metadata {
    type V = Described;

    open spec fn view(&self) -> Described {
        Described {
            trackid: id_view(self.trackid),
            title: text::opt_view(self.title),
            artist: match self.artist {
                Some(v) => Some(text::views(v@)),
                None => None,
            },
            album: text::opt_view(self.album),
            track_number: self.track_number,
            length: self.length,
            art_url: text::opt_view(self.art_url),
        }
    }
}

/// A name, left out where it is empty.
pub open spec fn named(s: Seq<char>) -> Option<Seq<char>> {
    if s.len() > 0 {
        Some(s)
    } else {
        None
    }
}

/// The description of a track: everything but the id and the title is left out
/// where it is not known, and a cover is named as a file.
pub open spec fn described(
    trackid: Option<Seq<char>>,
    title: Seq<char>,
    artist: Seq<char>,
    album: Seq<char>,
    track_number: u32,
    length_ms: u64,
    art_path: Option<Seq<char>>,
) -> Described {
    Described {
        trackid,
        title: Some(title),
        artist: match named(artist) {
            Some(a) => Some(seq![a]),
            None => None,
        },
        album: named(album),
        track_number: if track_number > 0 {
            Some(track_number as i32)
        } else {
            None
        },
        length: if length_ms > 0 {
            Some(length_ms as i64)
        } else {
            None
        },
        art_url: match art_path {
            Some(path) => Some("file://"@ + path),
            None => None,
        },
    }
}

fn name_of(s: &String) -> (r: Option<String>)
    ensures
        text::opt_view(r) == named(s@),
{
    if s.as_str().is_empty() {
        None
    } else {
        Some(s.clone())
    }
}

fn describe(
    trackid: Option<TrackId>,
    title: &String,
    artist: &String,
    album: &String,
    track_number: u32,
    length_ms: u64,
    art_path: &Option<String>,
) -> (r: Metadata)
    ensures
        r@ == described(
            id_view(trackid),
            title@,
            artist@,
            album@,
            track_number,
            length_ms,
            text::opt_view(*art_path),
        ),
{
    let artists = match name_of(artist) {
        Some(a) => {
            let ghost a0 = a@;
            let v = vec![a];
            assert(text::views(v@) =~= seq![a0]);
            Some(v)
        },
        None => None,
    };
    let art_url = match art_path {
        Some(path) => {
            let mut url = "file://".to_owned();
            url.append(path.as_str());
            Some(url)
        },
        None => None,
    };
    Metadata {
        trackid,
        title: Some(title.clone()),
        artist: artists,
        album: name_of(album),
        track_number: if track_number > 0 {
            Some(
                #[verifier::truncate]
                (track_number as i32),
            )
        } else {
            None
        },
        length: if length_ms > 0 {
            Some(
                #[verifier::truncate]
                (length_ms as i64),
            )
        } else {
            None
        },
        art_url,
    }
}

/// The description of a queued item.
pub open spec fn described_item(
    item: Item,
    track_id: Seq<char>,
    art_path: Option<Seq<char>>,
) -> Described {
    described(
        Some(track_id),
        item.title@,
        item.artist@,
        item.album@,
        item.track_number,
        item.duration_ms,
        art_path,
    )
}

/// The description of a queued item.
pub fn item_metadata(item: &Item, track_id: TrackId, art_path: &Option<String>) -> (r: Metadata)
    ensures
        r@ == described_item(*item, track_id@, text::opt_view(*art_path)),
{
    describe(
        Some(track_id),
        &item.title,
        &item.artist,
        &item.album,
        item.track_number,
        item.duration_ms,
        art_path,
    )
}

/// What playback looks like from the desktop.
#[derive(Debug)]
pub struct MprisState {
    pub track_id: Option<String>,
    pub current_item: Option<Item>,
    pub queue: Vec<Item>,
    pub queue_position: usize,
    pub title: String,
    pub artist: String,
    pub album: String,
    pub track_number: u32,
    /// Where the cover is on disk.
    pub art_path: Option<String>,
    pub length_ms: u64,
    pub position_ms: u64,
    pub playing: bool,
    pub stopped: bool,
    pub can_next: bool,
    pub can_previous: bool,
    /// The bits of a double.
    pub volume: u64,
    pub shuffle: bool,
    pub repeat: RepeatMode,
}

impl Clone for MprisState {
    fn clone(&self) -> (r: Self)
        ensures
            r == (MprisState { queue: r.queue, ..*self }),
            r.queue@ == self.queue@,
    {
        let queue = self.queue.clone();
        assert(queue@ =~= self.queue@);
        MprisState {
            track_id: self.track_id.clone(),
            current_item: self.current_item.clone(),
            queue,
            queue_position: self.queue_position,
            title: self.title.clone(),
            artist: self.artist.clone(),
            album: self.album.clone(),
            track_number: self.track_number,
            art_path: self.art_path.clone(),
            length_ms: self.length_ms,
            position_ms: self.position_ms,
            playing: self.playing,
            stopped: self.stopped,
            can_next: self.can_next,
            can_previous: self.can_previous,
            volume: self.volume,
            shuffle: self.shuffle,
            repeat: self.repeat,
        }
    }
}

impl Default for MprisState {
    fn default() -> (r: Self)
        ensures
            r.track_id is None,
            r.current_item is None,
            r.queue@.len() == 0,
            r.queue_position == 0,
            r.title@.len() == 0,
            r.artist@.len() == 0,
            r.album@.len() == 0,
            r.track_number == 0,
            r.art_path is None,
            r.length_ms == 0,
            r.position_ms == 0,
            !r.playing,
            !r.stopped,
            !r.can_next,
            !r.can_previous,
            r.volume == 0,
            !r.shuffle,
            r.repeat is Off,
    {
        MprisState {
            track_id: None,
            current_item: None,
            queue: Vec::new(),
            queue_position: 0,
            title: String::new(),
            artist: String::new(),
            album: String::new(),
            track_number: 0,
            art_path: None,
            length_ms: 0,
            position_ms: 0,
            playing: false,
            stopped: false,
            can_next: false,
            can_previous: false,
            volume: 0,
            shuffle: false,
            repeat: RepeatMode::Off,
        }
    }
}

/// The engine's name for the current place, where there is one.
pub open spec fn place_name(item: Option<Item>) -> Option<Seq<char>> {
    match item {
        Some(i) => Some(i.occurrence_id@),
        None => None,
    }
}

impl MprisState {
    /// Whether anything plays; stopped outranks playing.
    pub open spec fn spec_status(self) -> PlaybackStatus {
        if self.stopped {
            PlaybackStatus::Stopped
        } else if self.playing {
            PlaybackStatus::Playing
        } else {
            PlaybackStatus::Paused
        }
    }

    pub fn status(&self) -> (r: PlaybackStatus)
        ensures
            r == self.spec_status(),
    {
        if self.stopped {
            PlaybackStatus::Stopped
        } else if self.playing {
            PlaybackStatus::Playing
        } else {
            PlaybackStatus::Paused
        }
    }

    pub fn loop_status(&self) -> (r: LoopStatus)
        ensures
            r == spec_loop_of(self.repeat),
    {
        match self.repeat {
            RepeatMode::Off => LoopStatus::Off,
            RepeatMode::All => LoopStatus::Playlist,
            RepeatMode::One => LoopStatus::Track,
        }
    }

    /// Whether the track is described otherwise than before. Where it has got
    /// to, and how it plays, is no part of that.
    pub open spec fn redescribed_from(self, previous: Self) -> bool {
        ||| text::opt_view(self.track_id) != text::opt_view(previous.track_id)
        ||| self.title@ != previous.title@
        ||| self.artist@ != previous.artist@
        ||| self.album@ != previous.album@
        ||| self.track_number != previous.track_number
        ||| !same_path_opt(text::opt_view(self.art_path), text::opt_view(previous.art_path))
        ||| self.length_ms != previous.length_ms
        ||| place_name(self.current_item) != place_name(previous.current_item)
    }

    pub fn metadata_changed_from(&self, previous: &Self) -> (r: bool)
        ensures
            r == self.redescribed_from(*previous),
    {
        let place_changed = match (&self.current_item, &previous.current_item) {
            (Some(a), Some(b)) => !text::same(a.occurrence_id.as_str(), b.occurrence_id.as_str()),
            (None, None) => false,
            _ => true,
        };
        !text::same_opt(&self.track_id, &previous.track_id) || !text::same(
            self.title.as_str(),
            previous.title.as_str(),
        ) || !text::same(self.artist.as_str(), previous.artist.as_str()) || !text::same(
            self.album.as_str(),
            previous.album.as_str(),
        ) || self.track_number != previous.track_number || !steps::same_opt(
            &self.art_path,
            &previous.art_path,
        ) || self.length_ms != previous.length_ms || place_changed
    }

    /// The description of the current track, under the id that it is shown by.
    pub open spec fn spec_metadata(self, projected_track_id: Option<Seq<char>>) -> Described {
        described(
            projected_track_id,
            self.title@,
            self.artist@,
            self.album@,
            self.track_number,
            self.length_ms,
            text::opt_view(self.art_path),
        )
    }

    pub fn metadata(&self, projected_track_id: Option<TrackId>) -> (r: Metadata)
        ensures
            r@ == self.spec_metadata(id_view(projected_track_id)),
    {
        describe(
            projected_track_id,
            &self.title,
            &self.artist,
            &self.album,
            self.track_number,
            self.length_ms,
            &self.art_path,
        )
    }
}

/// What the desktop is to be told of the track list.
#[derive(Debug, PartialEq, Eq)]
pub enum TrackListNotification {
    Replaced { tracks: Vec<TrackId>, current_track: TrackId },
    TracksInvalidated,
    MetadataChanged { track_id: TrackId, metadata: Metadata },
}

/// The shown ids whose description may have changed: those of redescribed
/// items, and those that gain or lose the cover, which only the current track
/// has.
pub open spec fn touched(
    metadata: Seq<Seq<char>>,
    previous_current: Option<Seq<char>>,
    previous_art: Option<Seq<char>>,
    current: Option<Seq<char>>,
    art: Option<Seq<char>>,
) -> Seq<Seq<char>> {
    if previous_current != current {
        let lost = if previous_art is Some && previous_current is Some {
            metadata.push(previous_current->0)
        } else {
            metadata
        };
        if art is Some && current is Some {
            lost.push(current->0)
        } else {
            lost
        }
    } else if !same_path_opt(previous_art, art) && current is Some {
        metadata.push(current->0)
    } else {
        metadata
    }
}

/// The shown ones of `ids`, each once.
pub open spec fn to_tell(p: Projection, ids: Seq<Seq<char>>) -> Seq<Seq<char>>
    decreases ids.len(),
{
    if ids.len() == 0 {
        Seq::empty()
    } else {
        let r = to_tell(p, ids.drop_last());
        if r.contains(ids.last()) || p.spec_item(ids.last()) is None {
            r
        } else {
            r.push(ids.last())
        }
    }
}

/// The cover that the track with this id is shown with: only the current track
/// has one.
pub open spec fn cover_of(
    id: Seq<char>,
    current: Option<Seq<char>>,
    art: Option<Seq<char>>,
) -> Option<Seq<char>> {
    if current == Some(id) {
        art
    } else {
        None
    }
}

/// Whether `n` says how the track with this id is described.
pub open spec fn tells(
    n: TrackListNotification,
    p: Projection,
    id: Seq<char>,
    art: Option<Seq<char>>,
) -> bool {
    &&& n matches TrackListNotification::MetadataChanged { track_id, metadata }
    &&& track_id@ == id
    &&& p.spec_item(id) matches Some(item)
    &&& metadata@ == described_item(item, id, cover_of(id, id_view(p.current), art))
}

/// Whether `r` is what there is to tell: that the list was replaced, where the
/// shown ids changed; else each changed description, once.
pub open spec fn are_notifications(
    r: Seq<TrackListNotification>,
    p: Projection,
    change: Change,
    previous_current: Option<Seq<char>>,
    previous_art: Option<Seq<char>>,
    art: Option<Seq<char>>,
) -> bool {
    if change.window {
        &&& r.len() == 2
        &&& r[0] matches TrackListNotification::Replaced { tracks, current_track }
        &&& track_list::id_views(tracks@) == p.spec_tracks()
        &&& current_track@ == match p.current {
            Some(id) => id@,
            None => track_list::spec_no_track(),
        }
        &&& r[1] is TracksInvalidated
    } else {
        let ids = to_tell(
            p,
            touched(
                track_list::id_views(change.metadata@),
                previous_current,
                previous_art,
                id_view(p.current),
                art,
            ),
        );
        &&& r.len() == ids.len()
        &&& forall|i: int| 0 <= i < r.len() ==> tells(#[trigger] r[i], p, ids[i], art)
    }
}

fn same_id(a: &Option<TrackId>, b: &Option<TrackId>) -> (r: bool)
    ensures
        r == (id_view(*a) == id_view(*b)),
{
    match (a, b) {
        (Some(x), Some(y)) => x.same(y),
        (None, None) => true,
        _ => false,
    }
}

/// Whether `id` is among those already told.
fn told(list: &Vec<TrackId>, id: &TrackId) -> (r: bool)
    ensures
        r == track_list::id_views(list@).contains(id@),
{
    let mut i: usize = 0;
    while i < list.len()
        invariant
            i <= list@.len(),
            forall|j: int| 0 <= j < i ==> (#[trigger] list@[j])@ != id@,
        decreases list@.len() - i,
    {
        if list[i].same(id) {
            assert(track_list::id_views(list@)[i as int] == id@);
            return true;
        }
        i += 1;
    }
    proof {
        if track_list::id_views(list@).contains(id@) {
            let k = choose|k: int|
                0 <= k < list@.len() && track_list::id_views(list@)[k] == id@;
            assert(list@[k]@ == id@);
        }
    }
    false
}

/// What the desktop is to be told of the track list after a change.
pub fn track_list_notifications(
    track_list: &Projection,
    change: &Change,
    previous_current: Option<TrackId>,
    previous_art: &Option<String>,
    state: &MprisState,
) -> (r: Vec<TrackListNotification>)
    requires
        track_list.wf(),
    ensures
        are_notifications(
            r@,
            *track_list,
            *change,
            id_view(previous_current),
            text::opt_view(*previous_art),
            text::opt_view(state.art_path),
        ),
{
    let current = track_list.current();
    if change.window {
        let current_track = match current {
            Some(id) => id,
            None => TrackId::no_track(),
        };
        return vec![
            TrackListNotification::Replaced { tracks: track_list.tracks(), current_track },
            TrackListNotification::TracksInvalidated,
        ];
    }
    let ids = touched_ids(change, previous_current, previous_art, &current, state);
    let mut seen: Vec<TrackId> = Vec::new();
    let mut out: Vec<TrackListNotification> = Vec::new();
    let ghost views = track_list::id_views(ids@);
    let ghost art = text::opt_view(state.art_path);
    let nothing: Option<String> = None;
    let mut i: usize = 0;
    assert(views.take(0) =~= Seq::<Seq<char>>::empty());
    while i < ids.len()
        invariant
            i <= ids@.len(),
            views == track_list::id_views(ids@),
            art == text::opt_view(state.art_path),
            nothing is None,
            current == track_list.current,
            track_list.wf(),
            track_list::id_views(seen@) =~= to_tell(*track_list, views.take(i as int)),
            out@.len() == seen@.len(),
            forall|k: int|
                0 <= k < out@.len() ==> tells(#[trigger] out@[k], *track_list, seen@[k]@, art),
        decreases ids@.len() - i,
    {
        let ghost v = views.take(i + 1);
        proof {
            text::take_step(views, i as int);
            assert(v.drop_last() =~= views.take(i as int));
            assert(v.last() == ids@[i as int]@);
        }
        let id = ids[i].clone();
        i += 1;
        if told(&seen, &id) {
            continue;
        }
        match track_list.item(&id) {
            None => {
                continue;
            },
            Some(item) => {
                let is_current = match &current {
                    Some(c) => c.same(&id),
                    None => false,
                };
                let metadata = item_metadata(
                    item,
                    id.clone(),
                    if is_current {
                        &state.art_path
                    } else {
                        &nothing
                    },
                );
                proof {
                    let k = choose|k: int| #[trigger]
                        track_list.is_exposed(id@, k) && *item == track_list.occurrences@[k].item;
                    let m = choose|m: int| track_list.is_exposed(id@, m);
                    assert(track_list.is_exposed(id@, k));
                    assert(k == m);
                    assert(track_list.spec_item(id@) == Some(*item));
                }
                let ghost seen0 = seen@;
                let ghost out0 = out@;
                seen.push(id.clone());
                out.push(TrackListNotification::MetadataChanged { track_id: id, metadata });
                proof {
                    assert(track_list::id_views(seen@) =~= track_list::id_views(seen0).push(id@));
                    assert forall|k: int| 0 <= k < out@.len() implies tells(
                        #[trigger] out@[k],
                        *track_list,
                        seen@[k]@,
                        art,
                    ) by {
                        if k < out0.len() {
                            assert(out@[k] == out0[k]);
                            assert(seen@[k] == seen0[k]);
                        }
                    }
                }
            },
        }
    }
    proof {
        assert(views.take(ids@.len() as int) =~= views);
        let told = to_tell(*track_list, views);
        assert forall|k: int| 0 <= k < out@.len() implies tells(
            #[trigger] out@[k],
            *track_list,
            told[k],
            art,
        ) by {
            assert(told[k] == track_list::id_views(seen@)[k]);
        }
    }
    out
}

/// The ids whose description may have changed.
fn touched_ids(
    change: &Change,
    previous_current: Option<TrackId>,
    previous_art: &Option<String>,
    current: &Option<TrackId>,
    state: &MprisState,
) -> (r: Vec<TrackId>)
    ensures
        track_list::id_views(r@) == touched(
            track_list::id_views(change.metadata@),
            id_view(previous_current),
            text::opt_view(*previous_art),
            id_view(*current),
            text::opt_view(state.art_path),
        ),
{
    let mut ids = change.metadata.clone();
    assert(ids@ =~= change.metadata@);
    let ghost base = track_list::id_views(ids@);
    if !same_id(&previous_current, current) {
        if previous_art.is_some() {
            if let Some(id) = previous_current {
                ids.push(id);
                assert(track_list::id_views(ids@) =~= base.push(id@));
            }
        }
        let ghost lost = track_list::id_views(ids@);
        if state.art_path.is_some() {
            if let Some(id) = current {
                ids.push(id.clone());
                assert(track_list::id_views(ids@) =~= lost.push(id@));
            }
        }
    } else if !steps::same_opt(previous_art, &state.art_path) {
        if let Some(id) = current {
            ids.push(id.clone());
            assert(track_list::id_views(ids@) =~= base.push(id@));
        }
    }
    ids
}

/// No track is told of twice, and only shown tracks are told of.
pub proof fn each_track_is_told_of_once(p: Projection, ids: Seq<Seq<char>>)
    ensures
        to_tell(p, ids).no_duplicates(),
        forall|i: int|
            0 <= i < to_tell(p, ids).len() ==> p.spec_item(#[trigger] to_tell(p, ids)[i]) is Some
                && ids.contains(to_tell(p, ids)[i]),
        forall|i: int|
            0 <= i < ids.len() && p.spec_item(#[trigger] ids[i]) is Some ==> to_tell(
                p,
                ids,
            ).contains(ids[i]),
    decreases ids.len(),
{
    if ids.len() > 0 {
        let rest = ids.drop_last();
        each_track_is_told_of_once(p, rest);
        let before = to_tell(p, rest);
        let r = to_tell(p, ids);
        assert forall|i: int| 0 <= i < r.len() implies p.spec_item(#[trigger] r[i]) is Some
            && ids.contains(r[i]) by {
            if i < before.len() {
                assert(r[i] == before[i]);
                let k = choose|k: int| 0 <= k < rest.len() && rest[k] == before[i];
                assert(ids[k] == r[i]);
            } else {
                assert(ids[ids.len() - 1] == r[i]);
            }
        }
        assert forall|i: int|
            0 <= i < ids.len() && p.spec_item(#[trigger] ids[i]) is Some implies r.contains(
            ids[i],
        ) by {
            if i < rest.len() {
                assert(rest[i] == ids[i]);
                let k = choose|k: int| 0 <= k < before.len() && before[k] == ids[i];
                assert(r[k] == ids[i]);
            } else if !before.contains(ids.last()) {
                assert(r[before.len() as int] == ids[i]);
            }
        }
    }
}

/// There is nothing to tell where the shown ids, their descriptions and the
/// covers stay as they are; moving on to another shown track without a cover,
/// or within a track, is of that kind.
pub proof fn nothing_is_told_where_nothing_shown_changes(
    r: Seq<TrackListNotification>,
    p: Projection,
    change: Change,
    previous_current: Option<Seq<char>>,
    previous_art: Option<Seq<char>>,
    art: Option<Seq<char>>,
)
    requires
        !change.window,
        change.metadata@.len() == 0,
        same_path_opt(previous_art, art),
        previous_current == id_view(p.current) || art is None,
        are_notifications(r, p, change, previous_current, previous_art, art),
    ensures
        r.len() == 0,
{
    assert(track_list::id_views(change.metadata@) =~= Seq::<Seq<char>>::empty());
}

/// A property of the player that the desktop follows.
#[derive(Debug, PartialEq, Eq)]
pub enum Property {
    Metadata(Metadata),
    PlaybackStatus(PlaybackStatus),
    CanGoNext(bool),
    CanGoPrevious(bool),
    /// The bits of a double.
    Volume(u64),
    Shuffle(bool),
    LoopStatus(LoopStatus),
}

/// The properties, by name.
#[derive(Debug, Clone, Copy, PartialEq, Eq, Structural)]
pub enum Kind {
    Metadata,
    PlaybackStatus,
    CanGoNext,
    CanGoPrevious,
    Volume,
    Shuffle,
    LoopStatus,
}

/// `kind`, if `changed`.
pub open spec fn part(changed: bool, kind: Kind) -> Seq<Kind> {
    if changed {
        seq![kind]
    } else {
        Seq::empty()
    }
}

/// The properties that are not what they were; all of them where nothing was
/// said before.
pub open spec fn changed_kinds(
    previous: Option<&MprisState>,
    state: MprisState,
    volume_moved: bool,
) -> Seq<Kind> {
    let first = previous is None;
    let prev = *previous->0;
    part(first || state.redescribed_from(prev), Kind::Metadata) + part(
        first || state.spec_status() != prev.spec_status(),
        Kind::PlaybackStatus,
    ) + part(first || state.can_next != prev.can_next, Kind::CanGoNext) + part(
        first || state.can_previous != prev.can_previous,
        Kind::CanGoPrevious,
    ) + part(first || volume_moved, Kind::Volume) + part(
        first || state.shuffle != prev.shuffle,
        Kind::Shuffle,
    ) + part(first || spec_loop_of(state.repeat) != spec_loop_of(prev.repeat), Kind::LoopStatus)
}

/// Whether `p` is the property `kind` of `state`, under its name.
pub open spec fn shows(
    p: (&str, Property),
    kind: Kind,
    state: MprisState,
    current: Option<Seq<char>>,
) -> bool {
    match kind {
        Kind::Metadata => p.0@ == "metadata"@ && (p.1 matches Property::Metadata(m) && m@
            == state.spec_metadata(current)),
        Kind::PlaybackStatus => p.0@ == "playback status"@ && p.1 == Property::PlaybackStatus(
            state.spec_status(),
        ),
        Kind::CanGoNext => p.0@ == "can-go-next"@ && p.1 == Property::CanGoNext(state.can_next),
        Kind::CanGoPrevious => p.0@ == "can-go-previous"@ && p.1 == Property::CanGoPrevious(
            state.can_previous,
        ),
        Kind::Volume => p.0@ == "volume"@ && p.1 == Property::Volume(state.volume),
        Kind::Shuffle => p.0@ == "shuffle"@ && p.1 == Property::Shuffle(state.shuffle),
        Kind::LoopStatus => p.0@ == "loop status"@ && p.1 == Property::LoopStatus(
            spec_loop_of(state.repeat),
        ),
    }
}

/// Whether `r` shows the properties `kinds`, in order.
pub open spec fn all_shown(
    r: Seq<(&str, Property)>,
    kinds: Seq<Kind>,
    state: MprisState,
    current: Option<Seq<char>>,
) -> bool {
    &&& r.len() == kinds.len()
    &&& forall|i: int| 0 <= i < r.len() ==> shows(#[trigger] r[i], kinds[i], state, current)
}

/// `r` with `p` behind it, if it is to be said.
fn say(
    r: &mut Vec<(&'static str, Property)>,
    changed: bool,
    p: (&'static str, Property),
    Ghost(kinds): Ghost<Seq<Kind>>,
    Ghost(kind): Ghost<Kind>,
    state: &MprisState,
    Ghost(current): Ghost<Option<Seq<char>>>,
)
    requires
        all_shown(old(r)@, kinds, *state, current),
        shows(p, kind, *state, current),
    ensures
        all_shown(final(r)@, kinds + part(changed, kind), *state, current),
{
    let ghost all = kinds + part(changed, kind);
    let ghost before = r@;
    if changed {
        r.push(p);
        proof {
            assert forall|i: int| 0 <= i < r@.len() implies shows(
                #[trigger] r@[i],
                all[i],
                *state,
                current,
            ) by {
                if i < before.len() {
                    assert(r@[i] == before[i]);
                    assert(all[i] == kinds[i]);
                }
            }
        }
    } else {
        assert(all =~= kinds);
    }
}

/// The properties that the desktop is to be told of, in the order of telling.
/// Whether the volume moved by more than rounding is for the caller to say.
#[verifier::spinoff_prover]
pub fn changed_player_properties(
    previous: Option<&MprisState>,
    state: &MprisState,
    current_track: Option<TrackId>,
    volume_moved: bool,
) -> (r: Vec<(&'static str, Property)>)
    ensures
        all_shown(
            r@,
            changed_kinds(previous, *state, volume_moved),
            *state,
            id_view(current_track),
        ),
{
    let ghost current = id_view(current_track);
    let mut r: Vec<(&'static str, Property)> = Vec::new();
    let (metadata, status, next, before, volume, shuffle, repeat) = match previous {
        None => (true, true, true, true, true, true, true),
        Some(prev) => (
            state.metadata_changed_from(prev),
            state.status() != prev.status(),
            state.can_next != prev.can_next,
            state.can_previous != prev.can_previous,
            volume_moved,
            state.shuffle != prev.shuffle,
            state.loop_status() != prev.loop_status(),
        ),
    };
    let ghost k0 = Seq::<Kind>::empty();
    say(
        &mut r,
        metadata,
        ("metadata", Property::Metadata(state.metadata(current_track))),
        Ghost(k0),
        Ghost(Kind::Metadata),
        state,
        Ghost(current),
    );
    let ghost k1 = part(metadata, Kind::Metadata);
    assert(k0 + k1 =~= k1);
    say(
        &mut r,
        status,
        ("playback status", Property::PlaybackStatus(state.status())),
        Ghost(k1),
        Ghost(Kind::PlaybackStatus),
        state,
        Ghost(current),
    );
    let ghost k2 = k1 + part(status, Kind::PlaybackStatus);
    say(
        &mut r,
        next,
        ("can-go-next", Property::CanGoNext(state.can_next)),
        Ghost(k2),
        Ghost(Kind::CanGoNext),
        state,
        Ghost(current),
    );
    let ghost k3 = k2 + part(next, Kind::CanGoNext);
    say(
        &mut r,
        before,
        ("can-go-previous", Property::CanGoPrevious(state.can_previous)),
        Ghost(k3),
        Ghost(Kind::CanGoPrevious),
        state,
        Ghost(current),
    );
    let ghost k4 = k3 + part(before, Kind::CanGoPrevious);
    say(
        &mut r,
        volume,
        ("volume", Property::Volume(state.volume)),
        Ghost(k4),
        Ghost(Kind::Volume),
        state,
        Ghost(current),
    );
    let ghost k5 = k4 + part(volume, Kind::Volume);
    say(
        &mut r,
        shuffle,
        ("shuffle", Property::Shuffle(state.shuffle)),
        Ghost(k5),
        Ghost(Kind::Shuffle),
        state,
        Ghost(current),
    );
    let ghost k6 = k5 + part(shuffle, Kind::Shuffle);
    say(
        &mut r,
        repeat,
        ("loop status", Property::LoopStatus(state.loop_status())),
        Ghost(k6),
        Ghost(Kind::LoopStatus),
        state,
        Ghost(current),
    );
    let ghost k7 = k6 + part(repeat, Kind::LoopStatus);
    assert(k7 == changed_kinds(previous, *state, volume_moved));
    r
}

/// Where playback has got to is no reason to tell the desktop anything.
pub proof fn a_position_alone_is_not_told(previous: MprisState, state: MprisState)
    requires
        state == (MprisState { position_ms: state.position_ms, ..previous }),
    ensures
        changed_kinds(Some(&previous), state, false) == Seq::<Kind>::empty(),
{
    assert(changed_kinds(Some(&previous), state, false) =~= Seq::<Kind>::empty());
}

/// A description says the title, and the artist, the album, the number, the
/// length and the cover where they are known; what is not known is left out.
pub proof fn a_description_says_what_is_known(
    id: Option<Seq<char>>,
    title: Seq<char>,
    artist: Seq<char>,
    album: Seq<char>,
    number: u32,
    ms: u64,
    art: Option<Seq<char>>,
)
    ensures
        ({
            let d = described(id, title, artist, album, number, ms, art);
            &&& d.trackid == id
            &&& d.title == Some(title)
            &&& artist.len() > 0 ==> d.artist == Some(seq![artist])
            &&& artist.len() == 0 ==> d.artist is None
            &&& album.len() > 0 ==> d.album == Some(album)
            &&& album.len() == 0 ==> d.album is None
            &&& 0 < number <= i32::MAX ==> d.track_number == Some(number as i32)
            &&& number == 0 ==> d.track_number is None
            &&& 0 < ms <= i64::MAX ==> d.length == Some(ms as i64)
            &&& ms == 0 ==> d.length is None
            &&& art matches Some(path) ==> d.art_url == Some("file://"@ + path)
            &&& art is None ==> d.art_url is None
        }),
{
}

/// The current track and a queued item are described by what they say of
/// themselves.
pub proof fn a_track_is_described_by_itself(
    s: MprisState,
    item: Item,
    id: Seq<char>,
    art: Option<Seq<char>>,
)
    ensures
        s.spec_metadata(Some(id)).trackid == Some(id),
        s.spec_metadata(Some(id)).title == Some(s.title@),
        s.artist@.len() > 0 ==> s.spec_metadata(Some(id)).artist == Some(seq![s.artist@]),
        s.album@.len() > 0 ==> s.spec_metadata(Some(id)).album == Some(s.album@),
        0 < s.length_ms <= i64::MAX ==> s.spec_metadata(Some(id)).length == Some(
            s.length_ms as i64,
        ),
        described_item(item, id, art).trackid == Some(id),
        described_item(item, id, art).title == Some(item.title@),
        item.artist@.len() > 0 ==> described_item(item, id, art).artist == Some(
            seq![item.artist@],
        ),
        item.album@.len() > 0 ==> described_item(item, id, art).album == Some(item.album@),
        0 < item.duration_ms <= i64::MAX ==> described_item(item, id, art).length == Some(
            item.duration_ms as i64,
        ),
{
}

/// What is stopped is stopped, whatever else is said of it; else it plays or it
/// is paused.
pub proof fn a_status_is_one_of_three(s: MprisState)
    ensures
        s.stopped ==> s.spec_status() is Stopped,
        !s.stopped && s.playing ==> s.spec_status() is Playing,
        !s.stopped && !s.playing ==> s.spec_status() is Paused,
{
}

/// A track is described anew where its title, its artist, its album, its number,
/// its length or its place changes, and not where none of these and no cover
/// does.
pub proof fn a_track_is_described_anew(a: MprisState, b: MprisState)
    ensures
        a.title@ != b.title@ ==> a.redescribed_from(b),
        a.artist@ != b.artist@ ==> a.redescribed_from(b),
        a.album@ != b.album@ ==> a.redescribed_from(b),
        a.track_number != b.track_number ==> a.redescribed_from(b),
        a.length_ms != b.length_ms ==> a.redescribed_from(b),
        place_name(a.current_item) != place_name(b.current_item) ==> a.redescribed_from(b),
        a.title@ == b.title@ && a.artist@ == b.artist@ && a.album@ == b.album@ && a.track_number
            == b.track_number && a.length_ms == b.length_ms && a.track_id == b.track_id
            && a.art_path is None && b.art_path is None && a.current_item == b.current_item
            ==> !a.redescribed_from(b),
{
}

/// Where the current track moves on, the one that loses the cover and the one
/// that gains it are told of anew.
pub proof fn a_cover_that_moves_is_told_of(
    metadata: Seq<Seq<char>>,
    before: Seq<char>,
    after: Seq<char>,
    old_art: Option<Seq<char>>,
    art: Option<Seq<char>>,
)
    requires
        before != after,
    ensures
        old_art is Some ==> touched(metadata, Some(before), old_art, Some(after), art).contains(
            before,
        ),
        art is Some ==> touched(metadata, Some(before), old_art, Some(after), art).contains(after),
        old_art is None && art is None ==> touched(
            metadata,
            Some(before),
            old_art,
            Some(after),
            art,
        ) == metadata,
        metadata.is_prefix_of(touched(metadata, Some(before), old_art, Some(after), art)),
{
    let r = touched(metadata, Some(before), old_art, Some(after), art);
    let lost = if old_art is Some {
        metadata.push(before)
    } else {
        metadata
    };
    if old_art is Some {
        assert(r[metadata.len() as int] == before);
    }
    if art is Some {
        assert(r[lost.len() as int] == after);
    }
    assert(r.take(metadata.len() as int) =~= metadata);
}

/// Only the current track is shown with a cover.
pub proof fn only_the_current_track_has_a_cover(
    id: Seq<char>,
    current: Option<Seq<char>>,
    art: Option<Seq<char>>,
)
    ensures
        current == Some(id) ==> cover_of(id, current, art) == art,
        current != Some(id) ==> cover_of(id, current, art) is None,
{
}

/// A property is told exactly where it changed, or where nothing was told
/// before.
pub proof fn what_changed_is_told(prev: MprisState, state: MprisState, volume_moved: bool)
    ensures
        ({
            let told = changed_kinds(Some(&prev), state, volume_moved);
            &&& told.contains(Kind::Metadata) <==> state.redescribed_from(prev)
            &&& told.contains(Kind::PlaybackStatus) <==> state.spec_status() != prev.spec_status()
            &&& told.contains(Kind::CanGoNext) <==> state.can_next != prev.can_next
            &&& told.contains(Kind::CanGoPrevious) <==> state.can_previous != prev.can_previous
            &&& told.contains(Kind::Volume) <==> volume_moved
            &&& told.contains(Kind::Shuffle) <==> state.shuffle != prev.shuffle
            &&& told.contains(Kind::LoopStatus) <==> state.repeat != prev.repeat
        }),
        ({
            let told = changed_kinds(None, state, volume_moved);
            &&& told.contains(Kind::Metadata)
            &&& told.contains(Kind::PlaybackStatus)
            &&& told.contains(Kind::CanGoNext)
            &&& told.contains(Kind::CanGoPrevious)
            &&& told.contains(Kind::Volume)
            &&& told.contains(Kind::Shuffle)
            &&& told.contains(Kind::LoopStatus)
        }),
{
    let a = state.redescribed_from(prev);
    let b = state.spec_status() != prev.spec_status();
    let c = state.can_next != prev.can_next;
    let d = state.can_previous != prev.can_previous;
    let f = state.shuffle != prev.shuffle;
    let g = spec_loop_of(state.repeat) != spec_loop_of(prev.repeat);
    assert(changed_kinds(Some(&prev), state, volume_moved) == seven(
        a,
        b,
        c,
        d,
        volume_moved,
        f,
        g,
    ));
    assert(changed_kinds(None, state, volume_moved) == seven(
        true,
        true,
        true,
        true,
        true,
        true,
        true,
    ));
    each_part(a, b, c, d, volume_moved, f, g, Kind::Metadata);
    each_part(true, true, true, true, true, true, true, Kind::Metadata);
    each_part(a, b, c, d, volume_moved, f, g, Kind::PlaybackStatus);
    each_part(true, true, true, true, true, true, true, Kind::PlaybackStatus);
    each_part(a, b, c, d, volume_moved, f, g, Kind::CanGoNext);
    each_part(true, true, true, true, true, true, true, Kind::CanGoNext);
    each_part(a, b, c, d, volume_moved, f, g, Kind::CanGoPrevious);
    each_part(true, true, true, true, true, true, true, Kind::CanGoPrevious);
    each_part(a, b, c, d, volume_moved, f, g, Kind::Volume);
    each_part(true, true, true, true, true, true, true, Kind::Volume);
    each_part(a, b, c, d, volume_moved, f, g, Kind::Shuffle);
    each_part(true, true, true, true, true, true, true, Kind::Shuffle);
    each_part(a, b, c, d, volume_moved, f, g, Kind::LoopStatus);
    each_part(true, true, true, true, true, true, true, Kind::LoopStatus);
}

spec fn seven(a: bool, b: bool, c: bool, d: bool, e: bool, f: bool, g: bool) -> Seq<Kind> {
    part(a, Kind::Metadata) + part(b, Kind::PlaybackStatus) + part(c, Kind::CanGoNext) + part(
        d,
        Kind::CanGoPrevious,
    ) + part(e, Kind::Volume) + part(f, Kind::Shuffle) + part(g, Kind::LoopStatus)
}

proof fn each_part(a: bool, b: bool, c: bool, d: bool, e: bool, f: bool, g: bool, k: Kind)
    ensures
        seven(a, b, c, d, e, f, g).contains(k) <==> match k {
            Kind::Metadata => a,
            Kind::PlaybackStatus => b,
            Kind::CanGoNext => c,
            Kind::CanGoPrevious => d,
            Kind::Volume => e,
            Kind::Shuffle => f,
            Kind::LoopStatus => g,
        },
{
    let none = Seq::<Kind>::empty();
    let p = part(a, Kind::Metadata);
    let q = p + part(b, Kind::PlaybackStatus);
    let r = q + part(c, Kind::CanGoNext);
    let s = r + part(d, Kind::CanGoPrevious);
    let t = s + part(e, Kind::Volume);
    let u = t + part(f, Kind::Shuffle);
    assert(none + p =~= p);
    one_more(none, a, Kind::Metadata, k);
    one_more(p, b, Kind::PlaybackStatus, k);
    one_more(q, c, Kind::CanGoNext, k);
    one_more(r, d, Kind::CanGoPrevious, k);
    one_more(s, e, Kind::Volume, k);
    one_more(t, f, Kind::Shuffle, k);
    one_more(u, g, Kind::LoopStatus, k);
}

proof fn one_more(s: Seq<Kind>, on: bool, kind: Kind, k: Kind)
    ensures
        (s + part(on, kind)).contains(k) <==> s.contains(k) || (on && k == kind),
{
    let r = s + part(on, kind);
    if s.contains(k) {
        let i = choose|i: int| 0 <= i < s.len() && s[i] == k;
        assert(r[i] == k);
    }
    if on && k == kind {
        assert(r[s.len() as int] == k);
    }
    if r.contains(k) {
        let i = choose|i: int| 0 <= i < r.len() && r[i] == k;
        if i < s.len() {
            assert(s[i] == k);
        }
    }
}

/// A replaced list is the list that is shown, with the current track where there
/// is one.
pub proof fn a_replaced_list_is_the_shown_one(
    r: Seq<TrackListNotification>,
    p: Projection,
    change: Change,
    previous_current: Option<Seq<char>>,
    previous_art: Option<Seq<char>>,
    art: Option<Seq<char>>,
)
    requires
        are_notifications(r, p, change, previous_current, previous_art, art),
        change.window,
    ensures
        r.len() > 0,
        r[0] matches TrackListNotification::Replaced { tracks, current_track } && tracks@.len()
            == p.spec_tracks().len() && (p.current matches Some(id) ==> current_track@ == id@) && (
        p.current is None ==> current_track@ == "/org/mpris/MediaPlayer2/TrackList/NoTrack"@) && (
        forall|i: int|
            0 <= i < tracks@.len() ==> (#[trigger] tracks@[i])@ == p.spec_tracks()[i]),
{
    match r[0] {
        TrackListNotification::Replaced { tracks, current_track } => {
            assert forall|i: int| 0 <= i < tracks@.len() implies (#[trigger] tracks@[i])@
                == p.spec_tracks()[i] by {
                assert(track_list::id_views(tracks@)[i] == tracks@[i]@);
            }
        },
        _ => {},
    }
}

/// What a description says is what it holds.
pub proof fn a_description_says_what_it_holds(m: Metadata)
    ensures
        m.title matches Some(t) ==> m@.title == Some(t@),
        m.album matches Some(t) ==> m@.album == Some(t@),
        m.art_url matches Some(t) ==> m@.art_url == Some(t@),
        m.trackid matches Some(t) ==> m@.trackid == Some(t@),
        m.artist matches Some(v) ==> m@.artist == Some(text::views(v@)),
        m@.track_number == m.track_number && m@.length == m.length,
{
}

/// A property is shown under its own name with what the state says.
pub proof fn a_property_is_shown_under_its_name(
    p: (&str, Property),
    state: MprisState,
    current: Option<Seq<char>>,
)
    ensures
        shows(p, Kind::Shuffle, state, current) ==> p.1 == Property::Shuffle(state.shuffle),
        shows(p, Kind::Volume, state, current) ==> p.1 == Property::Volume(state.volume),
        shows(p, Kind::CanGoNext, state, current) ==> p.1 == Property::CanGoNext(state.can_next),
        shows(p, Kind::CanGoPrevious, state, current) ==> p.1 == Property::CanGoPrevious(
            state.can_previous,
        ),
        shows(p, Kind::PlaybackStatus, state, current) ==> p.1 == Property::PlaybackStatus(
            state.spec_status(),
        ),
        shows(p, Kind::LoopStatus, state, current) && state.repeat is One ==> p.1
            == Property::LoopStatus(LoopStatus::Track),
        shows(p, Kind::LoopStatus, state, current) && state.repeat is All ==> p.1
            == Property::LoopStatus(LoopStatus::Playlist),
        shows(p, Kind::Metadata, state, current) ==> (p.1 matches Property::Metadata(m) && m@.title
            == Some(state.title@) && m@.trackid == current),
{
}

} // verus!
