//! The player as the desktop sees it: what its requests do, what it answers,
//! and the order in which changes are told.
use vstd::prelude::*;

use crate::double::{clamp_unit, unit, INFINITE, MINUS_INFINITE, MINUS_ZERO, ONE};
use crate::mpris::track_list::{self, Projection, TrackId};
use crate::mpris::{
    are_notifications, cover_of, described_item, id_view, item_metadata, spec_loop_of,
    spec_repeat_of, track_list_notifications, Capabilities, LoopStatus, Metadata, MprisCommand,
    MprisState, PlaybackStatus, Property, TrackListNotification,
};
use crate::player::protocol::{Item, RepeatMode};
use crate::text;

verus! {

/// What the desktop sees.
#[derive(Debug)]
pub struct ViniloPlayer {
    pub state: MprisState,
    pub track_list: Projection,
    pub can: Capabilities,
}

/// Where a relative seek ends up: not before the start, nor past what can be
/// counted.
pub open spec fn sought(position_ms: u64, offset_ms: i64) -> int {
    let target = position_ms + offset_ms;
    if target < 0 {
        0
    } else if target > u64::MAX {
        u64::MAX as int
    } else {
        target
    }
}

/// The seek that a position in the track with this id asks for, `current` being
/// the one that plays.
pub open spec fn positioned(current: Option<Seq<char>>, id: Seq<char>, position_ms: i64) -> Option<
    MprisCommand,
> {
    if current == Some(id) && position_ms >= 0 {
        Some(MprisCommand::Seek(position_ms as u64))
    } else {
        None
    }
}

/// Whether `told` is what the desktop is to be told of the track list when
/// `before` becomes `after`.
pub open spec fn is_told(
    before: ViniloPlayer,
    after: ViniloPlayer,
    told: Seq<TrackListNotification>,
) -> bool {
    exists|change: track_list::Change|
        track_list::is_change(before.track_list, after.track_list, change)
            && #[trigger] are_notifications(
            told,
            after.track_list,
            change,
            id_view(before.track_list.current),
            text::opt_view(before.state.art_path),
            text::opt_view(after.state.art_path),
        )
}

impl ViniloPlayer {
    pub open spec fn wf(self) -> bool {
        self.track_list.wf()
    }

    pub fn new(state: MprisState, can: Capabilities) -> (r: Self)
        ensures
            r.wf(),
            r.state == state,
            r.can == can,
            exists|empty: Projection|
                empty.occurrences@.len() == 0 && empty.next_id == 1
                    && #[trigger] track_list::reconciled(
                    empty,
                    r.track_list,
                    state.queue@,
                    state.queue_position as int,
                    state.current_item,
                ),
    {
        let mut track_list = Projection::default();
        let ghost empty = track_list;
        track_list.reconcile(
            state.queue.as_slice(),
            state.queue_position,
            state.current_item.as_ref(),
        );
        ViniloPlayer { state, track_list, can }
    }

    /// Take over a new state. The result is the id of the current track, and
    /// what the desktop is to be told of the track list.
    pub fn update_state(&mut self, state: MprisState) -> (r: (
        Option<TrackId>,
        Vec<TrackListNotification>,
    ))
        requires
            old(self).wf(),
        ensures
            final(self).wf(),
            final(self).state == state,
            final(self).can == old(self).can,
            track_list::reconciled(
                old(self).track_list,
                final(self).track_list,
                state.queue@,
                state.queue_position as int,
                state.current_item,
            ),
            r.0 == final(self).track_list.current,
            is_told(*old(self), *final(self), r.1@),
    {
        let previous_current = self.track_list.current();
        let previous_art = self.state.art_path.clone();
        let change = self.track_list.reconcile(
            state.queue.as_slice(),
            state.queue_position,
            state.current_item.as_ref(),
        );
        let current = self.track_list.current();
        let notifications = track_list_notifications(
            &self.track_list,
            &change,
            previous_current,
            &previous_art,
            &state,
        );
        self.state = state;
        proof {
            assert(track_list::is_change(old(self).track_list, self.track_list, change));
            assert(are_notifications(
                notifications@,
                self.track_list,
                change,
                id_view(old(self).track_list.current),
                text::opt_view(old(self).state.art_path),
                text::opt_view(self.state.art_path),
            ));
            assert(is_told(*old(self), *self, notifications@));
        }
        (current, notifications)
    }

    pub fn raise(&self) -> (r: MprisCommand)
        ensures
            r is Raise,
    {
        MprisCommand::Raise
    }

    pub fn quit(&self) -> (r: MprisCommand)
        ensures
            r is Quit,
    {
        MprisCommand::Quit
    }

    pub fn can_quit(&self) -> (r: bool)
        ensures
            r == self.can.can_quit,
    {
        self.can.can_quit
    }

    pub fn can_raise(&self) -> (r: bool)
        ensures
            r == self.can.can_raise,
    {
        self.can.can_raise
    }

    pub fn fullscreen(&self) -> (r: bool)
        ensures
            !r,
    {
        false
    }

    pub fn can_set_fullscreen(&self) -> (r: bool)
        ensures
            !r,
    {
        false
    }

    pub fn has_track_list(&self) -> (r: bool)
        ensures
            r,
    {
        true
    }

    pub fn identity(&self) -> (r: &'static str)
        ensures
            r@ == "Vinilo"@,
    {
        "Vinilo"
    }

    pub fn desktop_entry(&self) -> (r: &'static str)
        ensures
            r@ == crate::APP_ID@,
    {
        crate::APP_ID
    }

    /// The schemes and the types of files that the player opens: none.
    pub fn opens(&self) -> (r: Vec<String>)
        ensures
            r@.len() == 0,
    {
        Vec::new()
    }

    pub fn next(&self) -> (r: MprisCommand)
        ensures
            r is Next,
    {
        MprisCommand::Next
    }

    pub fn previous(&self) -> (r: MprisCommand)
        ensures
            r is Previous,
    {
        MprisCommand::Previous
    }

    pub fn pause(&self) -> (r: MprisCommand)
        ensures
            r is Pause,
    {
        MprisCommand::Pause
    }

    pub fn play_pause(&self) -> (r: MprisCommand)
        ensures
            r is PlayPause,
    {
        MprisCommand::PlayPause
    }

    /// Stopping pauses: the queue stays.
    pub fn stop(&self) -> (r: MprisCommand)
        ensures
            r is Pause,
    {
        MprisCommand::Pause
    }

    pub fn play(&self) -> (r: MprisCommand)
        ensures
            r is Play,
    {
        MprisCommand::Play
    }

    /// A seek from where playback is.
    pub fn seek(&self, offset_ms: i64) -> (r: MprisCommand)
        ensures
            r matches MprisCommand::Seek(to) && to == sought(self.state.position_ms, offset_ms),
    {
        let target: i128 = self.state.position_ms as i128 + offset_ms as i128;
        if target < 0 {
            MprisCommand::Seek(0)
        } else if target > u64::MAX as i128 {
            MprisCommand::Seek(u64::MAX)
        } else {
            MprisCommand::Seek(target as u64)
        }
    }

    /// A seek in the track with this id: one that names another track, or a
    /// time before the start, is ignored.
    pub fn set_position(&self, supplied_id: &TrackId, position_ms: i64) -> (r: Option<
        MprisCommand,
    >)
        ensures
            if id_view(self.track_list.current) == Some(supplied_id@) && position_ms >= 0 {
                r == Some(MprisCommand::Seek(position_ms as u64))
            } else {
                r is None
            },
            r == positioned(id_view(self.track_list.current), supplied_id@, position_ms),
    {
        let here = match &self.track_list.current {
            Some(id) => id.same(supplied_id),
            None => false,
        };
        if here && position_ms >= 0 {
            Some(MprisCommand::Seek(position_ms as u64))
        } else {
            None
        }
    }

    pub fn playback_status(&self) -> (r: PlaybackStatus)
        ensures
            r == self.state.spec_status(),
    {
        self.state.status()
    }

    pub fn loop_status(&self) -> (r: LoopStatus)
        ensures
            r == spec_loop_of(self.state.repeat),
    {
        self.state.loop_status()
    }

    pub fn set_loop_status(&self, status: LoopStatus) -> (r: MprisCommand)
        ensures
            r == MprisCommand::SetRepeat(spec_repeat_of(status)),
    {
        MprisCommand::SetRepeat(
            match status {
                LoopStatus::Off => RepeatMode::Off,
                LoopStatus::Playlist => RepeatMode::All,
                LoopStatus::Track => RepeatMode::One,
            },
        )
    }

    /// The bits of the only rate there is.
    pub fn rate(&self) -> (r: u64)
        ensures
            r == ONE,
    {
        ONE
    }

    pub fn shuffle(&self) -> (r: bool)
        ensures
            r == self.state.shuffle,
    {
        self.state.shuffle
    }

    pub fn set_shuffle(&self, shuffle: bool) -> (r: MprisCommand)
        ensures
            r == MprisCommand::SetShuffle(shuffle),
    {
        MprisCommand::SetShuffle(shuffle)
    }

    /// The description of the current track.
    pub fn metadata(&self) -> (r: Metadata)
        ensures
            r@ == self.state.spec_metadata(id_view(self.track_list.current)),
    {
        self.state.metadata(self.track_list.current())
    }

    pub fn volume(&self) -> (r: u64)
        ensures
            r == self.state.volume,
    {
        self.state.volume
    }

    pub fn set_volume(&self, bits: u64) -> (r: MprisCommand)
        ensures
            r == MprisCommand::SetVolume(unit(bits)),
    {
        MprisCommand::SetVolume(clamp_unit(bits))
    }

    /// Where playback is, in milliseconds.
    pub fn position(&self) -> (r: i64)
        ensures
            r == self.state.position_ms as i64,
    {
        #[verifier::truncate]
        (self.state.position_ms as i64)
    }

    pub fn can_go_next(&self) -> (r: bool)
        ensures
            r == self.state.can_next,
    {
        self.state.can_next
    }

    pub fn can_go_previous(&self) -> (r: bool)
        ensures
            r == self.state.can_previous,
    {
        self.state.can_previous
    }

    /// Whether it can play, pause, seek and be controlled: always.
    pub fn can_control(&self) -> (r: bool)
        ensures
            r,
    {
        true
    }

    /// The descriptions of the shown ones of `track_ids`, in the order that
    /// they were asked for; only the current track has a cover.
    pub fn get_tracks_metadata(&self, track_ids: &Vec<TrackId>) -> (r: Vec<Metadata>)
        requires
            self.wf(),
        ensures
            r@.map_values(|m: Metadata| m@) == track_list::spec_metadata(
                self.track_list,
                track_ids@,
            ).map_values(
                |p: (Seq<char>, Item)|
                    described_item(
                        p.1,
                        p.0,
                        cover_of(
                            p.0,
                            id_view(self.track_list.current),
                            text::opt_view(self.state.art_path),
                        ),
                    ),
            ),
    {
        let found = self.track_list.metadata(track_ids.as_slice());
        let ghost shown = track_list::spec_metadata(self.track_list, track_ids@);
        let ghost current = id_view(self.track_list.current);
        let ghost art = text::opt_view(self.state.art_path);
        let nothing: Option<String> = None;
        let mut out: Vec<Metadata> = Vec::new();
        let mut i: usize = 0;
        while i < found.len()
            invariant
                i <= found@.len(),
                nothing is None,
                shown == found@.map_values(|p: (TrackId, Item)| (p.0@, p.1)),
                current == id_view(self.track_list.current),
                art == text::opt_view(self.state.art_path),
                out@.len() == i,
                forall|k: int|
                    0 <= k < i ==> (#[trigger] out@[k])@ == described_item(
                        shown[k].1,
                        shown[k].0,
                        cover_of(shown[k].0, current, art),
                    ),
            decreases found@.len() - i,
        {
            let id = &found[i].0;
            let item = &found[i].1;
            let is_current = match &self.track_list.current {
                Some(c) => c.same(id),
                None => false,
            };
            let metadata = item_metadata(
                item,
                id.clone(),
                if is_current {
                    &self.state.art_path
                } else {
                    &nothing
                },
            );
            assert(shown[i as int] == (id@, *item));
            out.push(metadata);
            i += 1;
        }
        proof {
            assert(out@.map_values(|m: Metadata| m@) =~= shown.map_values(
                |p: (Seq<char>, Item)|
                    described_item(
                        p.1,
                        p.0,
                        cover_of(
                            p.0,
                            id_view(self.track_list.current),
                            text::opt_view(self.state.art_path),
                        ),
                    ),
            ));
        }
        out
    }

    /// Adding a track, or removing one, is not supported: the list is
    /// read-only.
    pub fn edit(&self) -> (r: Result<(), &'static str>)
        ensures
            r matches Err(e) && e@ == "TrackList is read-only"@,
    {
        Err("TrackList is read-only")
    }

    pub fn can_edit_tracks(&self) -> (r: bool)
        ensures
            !r,
    {
        false
    }

    /// To the shown track with this id; an id that is not shown is ignored.
    pub fn go_to(&self, track_id: &TrackId) -> (r: Option<MprisCommand>)
        requires
            self.wf(),
        ensures
            match r {
                Some(c) => c matches MprisCommand::GoTo { index } && self.track_list.is_exposed(
                    track_id@,
                    index as int,
                ),
                None => forall|i: int| !self.track_list.is_exposed(track_id@, i),
            },
    {
        match self.track_list.index(track_id) {
            Some(index) => Some(MprisCommand::GoTo { index }),
            None => None,
        }
    }

    pub fn tracks(&self) -> (r: Vec<TrackId>)
        requires
            self.wf(),
        ensures
            track_list::id_views(r@) == self.track_list.spec_tracks(),
    {
        self.track_list.tracks()
    }
}

/// What a volume is set to is between zero and one, or is no number: its bits
/// are those of a double from zero to one, of minus zero, or past an infinity.
pub proof fn a_set_volume_is_held(bits: u64)
    ensures
        unit(bits) <= ONE || unit(bits) == MINUS_ZERO || INFINITE < unit(bits) < MINUS_ZERO
            || unit(bits) > MINUS_INFINITE,
        bits <= ONE ==> unit(bits) == bits,
{
}

/// What one change is to be told by.
#[derive(Debug)]
pub struct UpdateBatch {
    pub player_properties: Vec<(&'static str, Property)>,
    pub track_list_notifications: Vec<TrackListNotification>,
}

/// The changes that are still to be told, and whether somebody is telling them.
#[derive(Debug)]
pub struct Updates {
    pub pending: Vec<UpdateBatch>,
    pub emitting: bool,
}

impl Updates {
    /// What waits to be told is being told.
    pub open spec fn wf(self) -> bool {
        self.pending@.len() > 0 ==> self.emitting
    }

    pub fn new() -> (r: Self)
        ensures
            r.wf(),
            r.pending@.len() == 0,
            !r.emitting,
    {
        Updates { pending: Vec::new(), emitting: false }
    }

    /// One more change to tell, behind the others. The result says whether
    /// telling has to be started.
    pub fn push(&mut self, batch: UpdateBatch) -> (r: bool)
        ensures
            final(self).wf(),
            final(self).pending@ == old(self).pending@.push(batch),
            final(self).emitting,
            r == !old(self).emitting,
    {
        self.pending.push(batch);
        let start = !self.emitting;
        self.emitting = true;
        start
    }

    /// The next change to tell: the one that waited longest. Without one,
    /// telling is over.
    pub fn next(&mut self) -> (r: Option<UpdateBatch>)
        requires
            old(self).wf(),
        ensures
            final(self).wf(),
            match r {
                Some(batch) => {
                    &&& old(self).pending@.len() > 0
                    &&& batch == old(self).pending@[0]
                    &&& final(self).pending@ == old(self).pending@.skip(1)
                    &&& final(self).emitting
                },
                None => {
                    &&& old(self).pending@.len() == 0
                    &&& final(self).pending@ == old(self).pending@
                    &&& !final(self).emitting
                },
            },
    {
        if self.pending.len() == 0 {
            self.emitting = false;
            return None;
        }
        let batch = self.pending.remove(0);
        assert(self.pending@ =~= old(self).pending@.skip(1));
        Some(batch)
    }
}

/// What is left of a queue after `n` were taken from its front.
pub open spec fn drained<A>(queue: Seq<A>, n: int) -> Seq<A>
    decreases n,
{
    if n <= 0 {
        queue
    } else {
        drained(queue, n - 1).skip(1)
    }
}

/// Changes are told in the order that they came in: whatever is added
/// meanwhile, the `n`th to be told is the `n`th that was there.
pub proof fn changes_are_told_in_order<A>(queue: Seq<A>, added: Seq<A>, n: int)
    requires
        0 <= n < queue.len(),
    ensures
        drained(queue + added, n)[0] == queue[n],
        drained(queue + added, n) == (queue + added).skip(n),
    decreases n,
{
    if n > 0 {
        changes_are_told_in_order(queue, added, n - 1);
    }
    assert(drained(queue + added, n) =~= (queue + added).skip(n));
}

/// A seek moves by what it says and stops at the start; a seek by nothing stays.
pub proof fn a_seek_moves_by_its_offset(position_ms: u64, offset_ms: i64)
    ensures
        sought(position_ms, 0) == position_ms,
        0 <= position_ms + offset_ms <= u64::MAX ==> sought(position_ms, offset_ms) == position_ms
            + offset_ms,
        position_ms + offset_ms < 0 ==> sought(position_ms, offset_ms) == 0,
        0 <= sought(position_ms, offset_ms) <= u64::MAX,
{
}

/// A position is taken in the current track alone, and not before its start.
pub proof fn a_position_is_taken_in_the_current_track(
    current: Option<Seq<char>>,
    id: Seq<char>,
    position_ms: i64,
)
    ensures
        current != Some(id) ==> positioned(current, id, position_ms) is None,
        position_ms < 0 ==> positioned(current, id, position_ms) is None,
        current == Some(id) && position_ms >= 0 ==> (positioned(
            current,
            id,
            position_ms,
        ) matches Some(MprisCommand::Seek(to)) && to == position_ms),
{
}

} // verus!
