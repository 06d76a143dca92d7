//! A mirror of what the engine is doing.
//!
//! Nothing but the engine's own reports changes it, except a move and a seek,
//! which are shown at once and then confirmed.
//!
//! Times are readings of one monotonic clock, in nanoseconds.
use vstd::prelude::*;

use super::protocol::{copy_items, Event, Item, PlaybackState, Queue, QueueChange, RepeatMode};
use crate::text;

verus! {

/// How long to wait for a seek to show in the engine's reports: three seconds.
pub const SEEK_SETTLE: u64 = 3_000_000_000;

/// How close a reading has to be for a seek to have landed, in milliseconds.
pub const SEEK_TOLERANCE_MS: u64 = 1_500;

/// Nanoseconds in a millisecond.
pub const NANOS_PER_MS: u64 = 1_000_000;

#[derive(Debug)]
pub struct PlayerState {
    pub state: PlaybackState,
    pub now_playing: Option<Item>,
    pub queue: Vec<Item>,
    pub queue_position: usize,
    /// Whether the engine has to be told where the current track went.
    pub position_disagrees: bool,
    pub position_ms: u64,
    pub duration_ms: u64,
    pub shuffle: bool,
    pub repeat: RepeatMode,
    /// When `position_ms` was last set.
    pub last_tick: Option<u64>,
    /// A seek that was asked for and is not confirmed: its target, and when.
    pub seeking_to: Option<(u64, u64)>,
}

/// How long before `now` the reading `then` was taken; a clock that went
/// backwards reads as no time at all.
pub open spec fn elapsed(then: u64, now: u64) -> int {
    if now >= then {
        now - then
    } else {
        0
    }
}

/// The distance between two indices.
pub open spec fn distance(a: int, b: int) -> int {
    if a >= b {
        a - b
    } else {
        b - a
    }
}

/// Which index the playing track is at, given the index the engine reports.
///
/// The playing track is the fact and the report is a hint:
/// - with nothing playing the report stands;
/// - an item with the playing occurrence wins, the first of them if several;
/// - else the item with the playing song's id that is nearest to the report
///   wins, the earlier of two that are equally near;
/// - and if the song is nowhere in the queue the report stands.
pub open spec fn is_corrected(
    reported: int,
    queue: Seq<Item>,
    playing: Option<Item>,
    r: int,
) -> bool {
    match playing {
        None => r == reported,
        Some(p) => {
            let here = |item: Item| item.occurrence_id@ == p.occurrence_id@;
            if p.occurrence_id@.len() > 0 && !text::nowhere(queue, here) {
                text::is_first(queue, here, r)
            } else {
                match p.spec_song_id() {
                    None => r == reported,
                    Some(id) => {
                        let song = |item: Item| item.spec_song_id() == Some(id);
                        if text::nowhere(queue, song) {
                            r == reported
                        } else {
                            is_nearest(queue, song, reported, r)
                        }
                    },
                }
            }
        },
    }
}

/// Whether `r` is the position nearest to `near` at which `p` holds, and the
/// first of those that are equally near.
pub open spec fn is_nearest<A>(s: Seq<A>, p: spec_fn(A) -> bool, near: int, r: int) -> bool {
    &&& 0 <= r < s.len()
    &&& p(s[r])
    &&& forall|j: int|
        0 <= j < s.len() && p(#[trigger] s[j]) ==> distance(r, near) < distance(j, near) || (
        distance(r, near) == distance(j, near) && r <= j)
}

/// What [`is_corrected`] allows is one index only.
pub proof fn corrected_is_unique(
    reported: int,
    queue: Seq<Item>,
    playing: Option<Item>,
    a: int,
    b: int,
)
    requires
        is_corrected(reported, queue, playing, a),
        is_corrected(reported, queue, playing, b),
    ensures
        a == b,
{
}

/// The corrected position names the playing song whenever the queue holds it.
pub proof fn corrected_position_follows_the_song(
    reported: int,
    queue: Seq<Item>,
    playing: Item,
    r: int,
)
    requires
        is_corrected(reported, queue, Some(playing), r),
        playing.spec_song_id() is Some,
        exists|i: int|
            0 <= i < queue.len() && (#[trigger] queue[i]).spec_song_id() == playing.spec_song_id(),
    ensures
        0 <= r < queue.len(),
        queue[r].spec_song_id() == playing.spec_song_id() || (playing.occurrence_id@.len() > 0
            && queue[r].occurrence_id@ == playing.occurrence_id@),
{
}

/// Which index the playing track is actually at.
#[verifier::loop_isolation(false)]
pub fn corrected_position(reported: usize, queue: &Vec<Item>, playing: Option<&Item>) -> (r: usize)
    ensures
        is_corrected(
            reported as int,
            queue@,
            match playing {
                Some(p) => Some(*p),
                None => None,
            },
            r as int,
        ),
{
    let playing = match playing {
        Some(p) => p,
        None => return reported,
    };
    if !playing.occurrence_id.as_str().is_empty() {
        let mut i: usize = 0;
        while i < queue.len()
            invariant
                i <= queue@.len(),
                forall|j: int|
                    0 <= j < i ==> (#[trigger] queue@[j]).occurrence_id@ != playing.occurrence_id@,
            decreases queue@.len() - i,
        {
            if text::same(queue[i].occurrence_id.as_str(), playing.occurrence_id.as_str()) {
                return i;
            }
            i += 1;
        }
    }
    let wanted = match playing.song_id() {
        Some(id) => id,
        None => return reported,
    };
    let mut best: Option<usize> = None;
    let mut i: usize = 0;
    while i < queue.len()
        invariant
            i <= queue@.len(),
            playing.spec_song_id() == Some(wanted@),
            match best {
                None => forall|j: int|
                    0 <= j < i ==> (#[trigger] queue@[j]).spec_song_id() != Some(wanted@),
                Some(b) => {
                    &&& b < i
                    &&& queue@[b as int].spec_song_id() == Some(wanted@)
                    &&& forall|j: int|
                        0 <= j < i && (#[trigger] queue@[j]).spec_song_id() == Some(wanted@)
                            ==> distance(b as int, reported as int) < distance(j, reported as int)
                            || (distance(b as int, reported as int) == distance(j, reported as int)
                            && b <= j)
                },
            },
        decreases queue@.len() - i,
    {
        if queue[i].has_song_id(wanted) {
            let nearer = match best {
                None => true,
                Some(b) => gap(i, reported) < gap(b, reported),
            };
            if nearer {
                best = Some(i);
            }
        }
        i += 1;
    }
    match best {
        Some(b) => b,
        None => reported,
    }
}

/// The distance between two indices.
fn gap(a: usize, b: usize) -> (r: usize)
    ensures
        r == distance(a as int, b as int),
{
    if a >= b {
        a - b
    } else {
        b - a
    }
}

/// How long before `now` the reading `then` was taken.
pub fn since(then: u64, now: u64) -> (r: u64)
    ensures
        r == elapsed(then, now),
{
    now.saturating_sub(then)
}

impl Default for PlayerState {
    fn default() -> (r: Self)
        ensures
            r.is_fresh(),
    {
        PlayerState {
            state: PlaybackState::Idle,
            now_playing: None,
            queue: Vec::new(),
            queue_position: 0,
            position_disagrees: false,
            position_ms: 0,
            duration_ms: 0,
            shuffle: false,
            repeat: RepeatMode::Off,
            last_tick: None,
            seeking_to: None,
        }
    }
}

impl PlayerState {
    /// The mirror before the engine has said anything.
    pub open spec fn is_fresh(self) -> bool {
        &&& self.state is Idle
        &&& self.now_playing is None
        &&& self.queue@.len() == 0
        &&& self.queue_position == 0
        &&& !self.position_disagrees
        &&& self.position_ms == 0
        &&& self.duration_ms == 0
        &&& !self.shuffle
        &&& self.repeat is Off
        &&& self.last_tick is None
        &&& self.seeking_to is None
    }

    /// Everything but the playback state, the clock and the seek is as in `o`.
    pub open spec fn same_queue(self, o: PlayerState) -> bool {
        &&& self.now_playing == o.now_playing
        &&& self.queue@ == o.queue@
        &&& self.queue_position == o.queue_position
        &&& self.position_disagrees == o.position_disagrees
    }

    pub open spec fn same_modes(self, o: PlayerState) -> bool {
        self.shuffle == o.shuffle && self.repeat == o.repeat
    }

    pub open spec fn same_clock(self, o: PlayerState) -> bool {
        &&& self.position_ms == o.position_ms
        &&& self.duration_ms == o.duration_ms
        &&& self.last_tick == o.last_tick
        &&& self.seeking_to == o.seeking_to
    }

    /// Whether a reading of `reported` is from before a seek that is still
    /// waited for.
    pub open spec fn spec_settling(self, reported: u64, now: u64) -> bool {
        match self.seeking_to {
            None => false,
            Some((target, asked)) => elapsed(asked, now) <= SEEK_SETTLE && distance(
                reported as int,
                target as int,
            ) > SEEK_TOLERANCE_MS,
        }
    }

    /// Whether `self` is `o` with the queue `queue` taken over.
    pub open spec fn took_queue(self, queue: Queue, now_playing: Option<Item>) -> bool {
        let reported = match queue.spec_index() {
            Some(i) => i,
            None => 0,
        };
        &&& self.queue@ == queue.items@
        &&& is_corrected(reported, queue.items@, now_playing, self.queue_position as int)
        &&& self.position_disagrees == (self.queue_position != reported && queue.reason is Items)
    }

    /// Whether one event, heard at `now`, turns `o` into `self`.
    pub open spec fn follows(self, o: PlayerState, event: Event, now: u64) -> bool {
        match event {
            Event::PlaybackState { state } => {
                &&& self.state == state
                &&& self.last_tick == if state.spec_is_playing() {
                    o.last_tick
                } else {
                    None
                }
                &&& self.same_queue(o)
                &&& self.same_modes(o)
                &&& self.position_ms == o.position_ms
                &&& self.duration_ms == o.duration_ms
                &&& self.seeking_to == o.seeking_to
            },
            Event::NowPlaying { item, queue } => {
                &&& self.state == o.state
                &&& self.now_playing == item
                &&& self.duration_ms == match item {
                    Some(i) => i.duration_ms,
                    None => 0,
                }
                &&& self.position_ms == 0
                &&& self.last_tick == Some(now)
                &&& self.seeking_to == o.seeking_to
                &&& self.took_queue(queue, item)
                &&& self.same_modes(o)
            },
            Event::Position { position_ms, duration_ms } => {
                let settling = o.spec_settling(position_ms, now);
                &&& self.state == o.state
                &&& self.same_queue(o)
                &&& self.same_modes(o)
                &&& self.duration_ms == if duration_ms > 0 {
                    duration_ms
                } else {
                    o.duration_ms
                }
                &&& self.position_ms == if settling {
                    o.position_ms
                } else {
                    position_ms
                }
                &&& self.last_tick == if settling {
                    o.last_tick
                } else {
                    Some(now)
                }
                &&& self.seeking_to == if settling {
                    o.seeking_to
                } else {
                    None
                }
            },
            Event::Modes { shuffle, repeat } => {
                &&& self.state == o.state
                &&& self.same_queue(o)
                &&& self.same_clock(o)
                &&& self.shuffle == shuffle
                &&& self.repeat == repeat
            },
            Event::Queue(queue) => {
                &&& self.state == o.state
                &&& self.now_playing == o.now_playing
                &&& self.took_queue(queue, o.now_playing)
                &&& self.same_modes(o)
                &&& self.same_clock(o)
            },
            _ => {
                &&& self.state == o.state
                &&& self.same_queue(o)
                &&& self.same_modes(o)
                &&& self.same_clock(o)
            },
        }
    }

    /// Whether `self` is `o` after an item was moved from `from` to `to`.
    pub open spec fn after_move(self, o: PlayerState, from: int, to: int) -> bool {
        &&& self.state == o.state
        &&& self.now_playing == o.now_playing
        &&& self.position_disagrees == o.position_disagrees
        &&& self.same_modes(o)
        &&& self.same_clock(o)
        &&& self.queue@ == moved(o.queue@, from, to)
        &&& is_corrected(
            o.queue_position as int,
            self.queue@,
            o.now_playing,
            self.queue_position as int,
        )
    }

    /// Whether `self` is `o` after a seek to `position_ms` was asked for at
    /// `now`.
    pub open spec fn after_seek(self, o: PlayerState, position_ms: u64, now: u64) -> bool {
        &&& self.position_ms == position_ms
        &&& self.last_tick == Some(now)
        &&& self.seeking_to == Some((position_ms, now))
        &&& self.duration_ms == o.duration_ms
        &&& self.state == o.state
        &&& self.same_queue(o)
        &&& self.same_modes(o)
    }

    /// Whether a track follows the current one.
    pub open spec fn spec_has_next(self) -> bool {
        self.queue_position + 1 < self.queue@.len()
    }

    /// Whether a track precedes the current one.
    pub open spec fn spec_has_previous(self) -> bool {
        self.queue_position > 0
    }

    pub fn new() -> (r: Self)
        ensures
            r.is_fresh(),
    {
        PlayerState::default()
    }

    /// Take one report of the engine, heard at `now`.
    ///
    /// Answers whether something changed that the desktop has to be told of. A
    /// position alone never does: it is asked for, not announced.
    pub fn apply(&mut self, event: &Event, now: u64) -> (r: bool)
        ensures
            final(self).follows(*old(self), *event, now),
            r == (event is PlaybackState || event is NowPlaying || event is Modes || event is Queue),
    {
        match event {
            Event::PlaybackState { state } => {
                self.state = *state;
                if !state.is_playing() {
                    self.last_tick = None;
                }
                true
            },
            Event::NowPlaying { item, queue } => {
                self.now_playing = item.clone();
                self.duration_ms = match item {
                    Some(i) => i.duration_ms,
                    None => 0,
                };
                self.position_ms = 0;
                self.last_tick = Some(now);
                self.apply_queue(queue);
                true
            },
            Event::Position { position_ms, duration_ms } => {
                if *duration_ms > 0 {
                    self.duration_ms = *duration_ms;
                }
                if self.settling(*position_ms, now) {
                    return false;
                }
                self.position_ms = *position_ms;
                self.last_tick = Some(now);
                false
            },
            Event::Modes { shuffle, repeat } => {
                self.shuffle = *shuffle;
                self.repeat = *repeat;
                true
            },
            Event::Queue(queue) => {
                self.apply_queue(queue);
                true
            },
            _ => false,
        }
    }

    /// Take over the queue the engine reports.
    fn apply_queue(&mut self, queue: &Queue)
        ensures
            final(self).took_queue(*queue, old(self).now_playing),
            final(self).state == old(self).state,
            final(self).now_playing == old(self).now_playing,
            final(self).same_modes(*old(self)),
            final(self).same_clock(*old(self)),
    {
        self.queue = copy_items(&queue.items);
        let reported: usize = match queue.index() {
            Some(i) => i,
            None => 0,
        };
        self.queue_position = corrected_position(reported, &self.queue, self.now_playing.as_ref());
        self.position_disagrees = self.queue_position != reported && queue.reason
            == QueueChange::Items;
    }

    /// Move an item before the engine has confirmed it. `to` is its index after
    /// the move. Refuses a move to itself or from or to outside the queue.
    pub fn move_item(&mut self, from: usize, to: usize) -> (r: bool)
        ensures
            r == (from != to && from < old(self).queue@.len() && to < old(self).queue@.len()),
            final(self).state == old(self).state,
            final(self).now_playing == old(self).now_playing,
            final(self).position_disagrees == old(self).position_disagrees,
            final(self).same_modes(*old(self)),
            final(self).same_clock(*old(self)),
            r ==> final(self).after_move(*old(self), from as int, to as int),
            if r {
                &&& final(self).queue@ == moved(old(self).queue@, from as int, to as int)
                &&& is_corrected(
                    old(self).queue_position as int,
                    final(self).queue@,
                    old(self).now_playing,
                    final(self).queue_position as int,
                )
            } else {
                &&& final(self).queue@ == old(self).queue@
                &&& final(self).queue_position == old(self).queue_position
            },
    {
        if from == to || from >= self.queue.len() || to >= self.queue.len() {
            return false;
        }
        let item = self.queue.remove(from);
        self.queue.insert(to, item);
        self.queue_position = corrected_position(
            self.queue_position,
            &self.queue,
            self.now_playing.as_ref(),
        );
        true
    }

    /// Adopt a position that was asked for, before the engine has confirmed it.
    pub fn seeked_to(&mut self, position_ms: u64, now: u64)
        ensures
            final(self).after_seek(*old(self), position_ms, now),
            final(self).position_ms == position_ms,
            final(self).last_tick == Some(now),
            final(self).seeking_to == Some((position_ms, now)),
            final(self).duration_ms == old(self).duration_ms,
            final(self).state == old(self).state,
            final(self).same_queue(*old(self)),
            final(self).same_modes(*old(self)),
    {
        self.position_ms = position_ms;
        self.last_tick = Some(now);
        self.seeking_to = Some((position_ms, now));
    }

    /// Whether a reading should be ignored for the seek that is waited for. The
    /// wait ends when a reading lands near the target or three seconds pass.
    fn settling(&mut self, reported: u64, now: u64) -> (r: bool)
        ensures
            r == old(self).spec_settling(reported, now),
            final(self).seeking_to == if r {
                old(self).seeking_to
            } else {
                None
            },
            final(self).position_ms == old(self).position_ms,
            final(self).duration_ms == old(self).duration_ms,
            final(self).last_tick == old(self).last_tick,
            final(self).state == old(self).state,
            final(self).same_queue(*old(self)),
            final(self).same_modes(*old(self)),
    {
        let (target, asked) = match self.seeking_to {
            Some(pair) => pair,
            None => return false,
        };
        let off: u64 = if reported >= target {
            reported - target
        } else {
            target - reported
        };
        if since(asked, now) > SEEK_SETTLE || off <= SEEK_TOLERANCE_MS {
            self.seeking_to = None;
            return false;
        }
        true
    }

    /// A position held to the length of the track, where that is known.
    pub open spec fn spec_held(self, pos: int) -> int {
        if self.duration_ms > 0 && pos > self.duration_ms {
            self.duration_ms as int
        } else {
            pos
        }
    }

    /// The position at `now`: it runs on while playing, and never past the end.
    pub open spec fn spec_interpolated(self, now: u64) -> int {
        let drift = match self.last_tick {
            Some(t) if self.state.spec_is_playing() => elapsed(t, now) / NANOS_PER_MS as int,
            _ => 0,
        };
        self.spec_held(
            if self.position_ms + drift <= u64::MAX {
                self.position_ms + drift
            } else {
                u64::MAX as int
            },
        )
    }

    /// The position at `now`, for drawing between two reports.
    pub fn interpolated_position_ms(&self, now: u64) -> (r: u64)
        ensures
            r == self.spec_interpolated(now),
    {
        let drift: u64 = match self.last_tick {
            Some(t) => if self.state.is_playing() {
                since(t, now) / NANOS_PER_MS
            } else {
                0
            },
            None => 0,
        };
        let pos: u64 = self.position_ms.saturating_add(drift);
        if self.duration_ms > 0 && pos > self.duration_ms {
            self.duration_ms
        } else {
            pos
        }
    }

    /// Whether a track follows the current one.
    pub fn has_next(&self) -> (r: bool)
        ensures
            r == (self.queue_position + 1 < self.queue@.len()),
            r == self.spec_has_next(),
    {
        self.queue.len() > 0 && self.queue_position < self.queue.len() - 1
    }

    /// Whether a track precedes the current one.
    pub fn has_previous(&self) -> (r: bool)
        ensures
            r == (self.queue_position > 0),
            r == self.spec_has_previous(),
    {
        self.queue_position > 0
    }
}

/// `s` with the element at `from` taken out and put in at `to`.
pub open spec fn moved<A>(s: Seq<A>, from: int, to: int) -> Seq<A> {
    s.remove(from).insert(to, s[from])
}

/// Moving an item and moving it back restores the queue.
pub proof fn a_move_back_restores_the_queue<A>(s: Seq<A>, from: int, to: int)
    requires
        0 <= from < s.len(),
        0 <= to < s.len(),
    ensures
        moved(moved(s, from, to), to, from) == s,
{
    assert(moved(moved(s, from, to), to, from) =~= s);
}

/// A move loses and invents nothing.
pub proof fn a_move_keeps_every_item<A>(s: Seq<A>, from: int, to: int)
    requires
        0 <= from < s.len(),
        0 <= to < s.len(),
    ensures
        moved(s, from, to).to_multiset() == s.to_multiset(),
{
    broadcast use vstd::seq_lib::group_to_multiset_ensures;

    assert(s.remove(from).to_multiset() =~= s.to_multiset().remove(s[from]));
    assert(s.remove(from).insert(to, s[from]).to_multiset() =~= s.remove(from).to_multiset().insert(
        s[from],
    ));
    assert(s.contains(s[from]));
    assert(s.to_multiset().remove(s[from]).insert(s[from]) =~= s.to_multiset());
}

/// The position shown never lies past the end of the track, playing or not.
pub proof fn position_never_passes_the_end(s: PlayerState, now: u64)
    requires
        s.duration_ms > 0,
    ensures
        s.spec_interpolated(now) <= s.duration_ms,
{
}

/// While not playing, the position shown does not depend on the clock: it is
/// the position held to the length of the track.
pub proof fn a_paused_position_does_not_drift(s: PlayerState, a: u64, b: u64)
    requires
        !s.state.spec_is_playing(),
    ensures
        s.spec_interpolated(a) == s.spec_interpolated(b),
        s.spec_interpolated(a) == s.spec_held(s.position_ms as int),
{
}

/// While playing, the position shown never runs backwards.
pub proof fn a_playing_position_does_not_go_back(s: PlayerState, a: u64, b: u64)
    requires
        s.state.spec_is_playing(),
        a <= b,
    ensures
        s.spec_interpolated(a) <= s.spec_interpolated(b),
{
}

/// A seek that never lands gives up: once the wait is over, any reading is
/// taken.
pub proof fn a_lost_seek_is_given_up(s: PlayerState, reading: u64, now: u64)
    requires
        s.seeking_to matches Some((_, asked)) && elapsed(asked, now) > SEEK_SETTLE,
    ensures
        !s.spec_settling(reading, now),
{
}

/// The engine is only ever told its position is wrong after an edit.
pub proof fn only_an_edit_is_settled(
    before: PlayerState,
    after: PlayerState,
    queue: Queue,
    now: u64,
)
    requires
        after.follows(before, Event::Queue(queue), now),
        queue.reason is Position,
    ensures
        !after.position_disagrees,
{
}

/// An empty report empties the mirror, and then there is no next track.
pub proof fn an_empty_report_empties_the_mirror(
    before: PlayerState,
    after: PlayerState,
    queue: Queue,
    now: u64,
)
    requires
        after.follows(before, Event::Queue(queue), now),
        queue.items@.len() == 0,
    ensures
        after.queue@.len() == 0,
{
}

/// A report of the playback state says how the song plays and nothing else: the
/// position, the length, the song, the queue, the modes and a seek that is
/// waited for stay as they were, whichever state is reported.
pub proof fn a_state_report_moves_nothing(
    before: PlayerState,
    after: PlayerState,
    state: PlaybackState,
    now: u64,
)
    requires
        after.follows(before, Event::PlaybackState { state }, now),
    ensures
        after.state == state,
        after.position_ms == before.position_ms,
        after.duration_ms == before.duration_ms,
        after.now_playing == before.now_playing,
        after.queue@ == before.queue@,
        after.queue_position == before.queue_position,
        after.position_disagrees == before.position_disagrees,
        after.shuffle == before.shuffle,
        after.repeat == before.repeat,
        after.seeking_to == before.seeking_to,
{
}

/// A song that was paused goes on from where it was: whatever is reported as
/// the pause and as the resume, the position shown at the resume is the one
/// that was held at the pause, however long the pause took.
pub proof fn a_resumed_song_goes_on_from_the_pause(
    before: PlayerState,
    paused: PlayerState,
    resumed: PlayerState,
    pause: PlaybackState,
    resume: PlaybackState,
    pause_at: u64,
    resume_at: u64,
    shown_at: u64,
)
    requires
        !pause.spec_is_playing(),
        paused.follows(before, Event::PlaybackState { state: pause }, pause_at),
        resumed.follows(paused, Event::PlaybackState { state: resume }, resume_at),
    ensures
        resumed.position_ms == before.position_ms,
        paused.spec_interpolated(shown_at) == if 0 < before.duration_ms < before.position_ms {
            before.duration_ms as int
        } else {
            before.position_ms as int
        },
        resumed.spec_interpolated(shown_at) == paused.spec_interpolated(shown_at),
{
}

/// Sound comes out while the engine plays or seeks, and in no other state.
pub proof fn only_playing_and_seeking_play(state: PlaybackState)
    ensures
        state.spec_is_playing() <==> state == PlaybackState::Playing || state
            == PlaybackState::Seeking,
{
}

/// While no seek is waited for, a reading is what is shown: the position that
/// was read, held to the length, and from then on, while the song plays, a
/// millisecond of it for each that passes.
pub proof fn a_reading_is_shown(
    before: PlayerState,
    after: PlayerState,
    position_ms: u64,
    duration_ms: u64,
    now: u64,
    later_ms: u64,
)
    requires
        before.seeking_to is None,
        after.follows(before, Event::Position { position_ms, duration_ms }, now),
        now + later_ms * 1_000_000 <= u64::MAX,
    ensures
        after.position_ms == position_ms,
        after.duration_ms == if duration_ms == 0 {
            before.duration_ms
        } else {
            duration_ms
        },
        after.seeking_to is None,
        ({
            let shown = after.spec_interpolated((now + later_ms * 1_000_000) as u64);
            let reached = if before.state == PlaybackState::Playing || before.state
                == PlaybackState::Seeking {
                position_ms + later_ms
            } else {
                position_ms as int
            };
            &&& 0 < after.duration_ms < reached ==> shown == after.duration_ms
            &&& !(0 < after.duration_ms < reached) && reached <= u64::MAX ==> shown == reached
        }),
{
    let d = (now + later_ms * 1_000_000) - now;
    assert(d / 1_000_000 == later_ms) by (nonlinear_arith)
        requires
            d == later_ms * 1_000_000,
    ;
}

/// A reading tells of the position alone: how the song plays, which it is, the
/// queue and the modes stay, whether the reading is taken or not.
pub proof fn a_reading_moves_nothing_else(
    before: PlayerState,
    after: PlayerState,
    position_ms: u64,
    duration_ms: u64,
    now: u64,
)
    requires
        after.follows(before, Event::Position { position_ms, duration_ms }, now),
    ensures
        after.state == before.state,
        after.now_playing == before.now_playing,
        after.queue@ == before.queue@,
        after.queue_position == before.queue_position,
        after.position_disagrees == before.position_disagrees,
        after.shuffle == before.shuffle,
        after.repeat == before.repeat,
        after.position_ms == position_ms || after.position_ms == before.position_ms,
{
}

/// A new song is shown from its beginning, with its own length, and the queue
/// that comes with it is taken over.
pub proof fn a_new_song_starts_at_its_beginning(
    before: PlayerState,
    after: PlayerState,
    item: Option<Item>,
    queue: Queue,
    now: u64,
)
    requires
        after.follows(before, Event::NowPlaying { item, queue }, now),
    ensures
        after.now_playing == item,
        after.position_ms == 0,
        after.spec_interpolated(now) == 0,
        item matches Some(song) ==> after.duration_ms == song.duration_ms,
        item is None ==> after.duration_ms == 0,
        after.queue@ == queue.items@,
        after.state == before.state,
        after.shuffle == before.shuffle,
        after.repeat == before.repeat,
{
}

/// A seek shows at once where it leads, and readings from before it do not drag
/// the position back: within three seconds a reading more than a second and a
/// half off is not taken, and any other is.
pub proof fn a_seek_is_not_dragged_back(
    before: PlayerState,
    sought: PlayerState,
    after: PlayerState,
    target: u64,
    asked: u64,
    position_ms: u64,
    duration_ms: u64,
    now: u64,
)
    requires
        sought.after_seek(before, target, asked),
        after.follows(sought, Event::Position { position_ms, duration_ms }, now),
        asked <= now,
    ensures
        sought.position_ms == target,
        0 < before.duration_ms < target || sought.spec_interpolated(asked) == target,
        sought.state == before.state && sought.queue@ == before.queue@ && sought.now_playing
            == before.now_playing && sought.duration_ms == before.duration_ms,
        now - asked <= 3_000_000_000 && (position_ms > target + 1_500 || target > position_ms
            + 1_500) ==> after.position_ms == target && after.seeking_to == sought.seeking_to
            && after.last_tick == sought.last_tick,
        now - asked > 3_000_000_000 || (position_ms <= target + 1_500 && target <= position_ms
            + 1_500) ==> after.position_ms == position_ms && after.seeking_to is None,
{
}

/// The modes that are reported are taken, and nothing else changes.
pub proof fn a_report_of_the_modes_is_taken(
    before: PlayerState,
    after: PlayerState,
    shuffle: bool,
    repeat: RepeatMode,
    now: u64,
)
    requires
        after.follows(before, Event::Modes { shuffle, repeat }, now),
    ensures
        after.shuffle == shuffle,
        after.repeat == repeat,
        after.state == before.state,
        after.now_playing == before.now_playing,
        after.queue@ == before.queue@,
        after.queue_position == before.queue_position,
        after.position_ms == before.position_ms,
        after.duration_ms == before.duration_ms,
        after.last_tick == before.last_tick,
        after.seeking_to == before.seeking_to,
{
}

/// A queue that is reported is taken over whole, in its order, and neither the
/// song nor where it has got to changes by it.
pub proof fn a_reported_queue_is_taken_over(
    before: PlayerState,
    after: PlayerState,
    queue: Queue,
    now: u64,
)
    requires
        after.follows(before, Event::Queue(queue), now),
    ensures
        after.queue@ == queue.items@,
        after.now_playing == before.now_playing,
        after.state == before.state,
        after.position_ms == before.position_ms,
        after.duration_ms == before.duration_ms,
        after.last_tick == before.last_tick,
        after.seeking_to == before.seeking_to,
        after.shuffle == before.shuffle,
        after.repeat == before.repeat,
        before.now_playing is None && 0 <= queue.position < queue.items@.len()
            ==> after.queue_position == queue.position,
        before.now_playing is None && !(0 <= queue.position < queue.items@.len())
            ==> after.queue_position == 0,
{
}

/// The current place is the playing song's: where the queue holds the playing
/// occurrence, the place holds it; where it holds no such thing but the song,
/// the place holds the song, and no other place that does is nearer to the one
/// that was reported. So a report that is right stands.
pub proof fn the_current_place_is_the_playing_songs(
    before: PlayerState,
    after: PlayerState,
    queue: Queue,
    now: u64,
    playing: Item,
    at: int,
)
    requires
        after.follows(before, Event::Queue(queue), now),
        before.now_playing == Some(playing),
        0 <= at < queue.items@.len(),
    ensures
        playing.occurrence_id@.len() > 0 && queue.items@[at].occurrence_id@
            == playing.occurrence_id@ ==> after.queue_position <= at
            && queue.items@[after.queue_position as int].occurrence_id@ == playing.occurrence_id@,
        playing.occurrence_id@.len() == 0 && playing.spec_song_id() is Some
            && queue.items@[at].spec_song_id() == playing.spec_song_id() ==> {
            let reported = if 0 <= queue.position < queue.items@.len() {
                queue.position as int
            } else {
                0
            };
            &&& after.queue_position < queue.items@.len()
            &&& queue.items@[after.queue_position as int].spec_song_id() == playing.spec_song_id()
            &&& at == reported ==> after.queue_position == reported
            &&& reported <= at ==> after.queue_position <= at
            &&& at <= reported ==> at <= after.queue_position
                || after.queue_position - reported <= reported - at
        },
{
    let here = |item: Item| item.occurrence_id@ == playing.occurrence_id@;
    let song = |item: Item| item.spec_song_id() == playing.spec_song_id();
    if playing.occurrence_id@.len() > 0 && here(queue.items@[at]) {
        assert(!text::nowhere(queue.items@, here));
    }
    if playing.occurrence_id@.len() == 0 && playing.spec_song_id() is Some && song(
        queue.items@[at],
    ) {
        let s = |item: Item| item.spec_song_id() == Some(playing.spec_song_id()->0);
        assert(s(queue.items@[at]));
        assert(!text::nowhere(queue.items@, s));
    }
}

/// The engine is told that its place is wrong after an edit that left it so,
/// and only then.
pub proof fn a_place_is_settled_after_an_edit_that_moved_it(
    before: PlayerState,
    after: PlayerState,
    queue: Queue,
    now: u64,
)
    requires
        after.follows(before, Event::Queue(queue), now),
    ensures
        after.position_disagrees <==> queue.reason == QueueChange::Items && after.queue_position
            != if 0 <= queue.position < queue.items@.len() {
            queue.position as int
        } else {
            0
        },
{
}

/// A report that tells of none of these changes nothing.
pub proof fn any_other_report_changes_nothing(
    before: PlayerState,
    after: PlayerState,
    event: Event,
    now: u64,
)
    requires
        after.follows(before, event, now),
        !(event is PlaybackState) && !(event is NowPlaying) && !(event is Position) && !(
        event is Modes) && !(event is Queue),
    ensures
        after.state == before.state,
        after.now_playing == before.now_playing,
        after.queue@ == before.queue@,
        after.queue_position == before.queue_position,
        after.position_disagrees == before.position_disagrees,
        after.position_ms == before.position_ms,
        after.duration_ms == before.duration_ms,
        after.last_tick == before.last_tick,
        after.seeking_to == before.seeking_to,
        after.shuffle == before.shuffle,
        after.repeat == before.repeat,
{
}

/// A moved item stands where it was moved to, the others keep their order, and
/// neither the song nor where it has got to changes.
pub proof fn a_moved_item_stands_where_it_was_moved_to(
    before: PlayerState,
    after: PlayerState,
    from: int,
    to: int,
)
    requires
        after.after_move(before, from, to),
        0 <= from < before.queue@.len(),
        0 <= to < before.queue@.len(),
    ensures
        after.queue@.len() == before.queue@.len(),
        after.queue@[to] == before.queue@[from],
        after.queue@.remove(to) == before.queue@.remove(from),
        after.now_playing == before.now_playing,
        after.position_ms == before.position_ms,
        after.duration_ms == before.duration_ms,
        after.state == before.state,
{
    assert(after.queue@.remove(to) =~= before.queue@.remove(from));
}

/// Moving items never moves the current place off the playing occurrence.
pub proof fn a_move_keeps_the_current_place_on_the_song(
    before: PlayerState,
    after: PlayerState,
    from: int,
    to: int,
    playing: Item,
    at: int,
)
    requires
        after.after_move(before, from, to),
        before.now_playing == Some(playing),
        playing.occurrence_id@.len() > 0,
        0 <= at < before.queue@.len(),
        0 <= from < before.queue@.len(),
        0 <= to < before.queue@.len(),
        before.queue@[at].occurrence_id@ == playing.occurrence_id@,
    ensures
        after.queue_position < after.queue@.len(),
        after.queue@[after.queue_position as int].occurrence_id@ == playing.occurrence_id@,
{
    let here = |item: Item| item.occurrence_id@ == playing.occurrence_id@;
    let there = if at == from {
        to
    } else {
        let k = if at < from {
            at
        } else {
            at - 1
        };
        if k < to {
            k
        } else {
            k + 1
        }
    };
    assert(after.queue@[there] == before.queue@[at]);
    assert(here(after.queue@[there]));
    assert(!text::nowhere(after.queue@, here));
}

/// There is a next track exactly where the queue holds one behind the current
/// place, and a previous one where it holds one in front of it.
pub proof fn next_and_previous_are_in_the_queue(s: PlayerState, at: int)
    requires
        0 <= at < s.queue@.len(),
    ensures
        at > s.queue_position ==> s.spec_has_next(),
        at == s.queue@.len() - 1 && at <= s.queue_position ==> !s.spec_has_next(),
        at < s.queue_position ==> s.spec_has_previous(),
        at == 0 && at == s.queue_position ==> !s.spec_has_previous(),
{
}

} // verus!
