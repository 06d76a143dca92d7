//! The list of tracks that the desktop sees: a window on the queue in which
//! every place keeps one identity for as long as it stays queued.
use core::ops::Range;

use vstd::prelude::*;

use crate::player::protocol::Item;
use crate::text;

verus! {

/// The most places that are shown at once.
pub const LIMIT: usize = 21;

/// How many places are shown before the anchor, where there are enough.
pub const RADIUS: usize = 10;

/// Whether `c` may stand in an element of an object path.
pub open spec fn is_path_char(c: char) -> bool {
    ('a' <= c <= 'z') || ('A' <= c <= 'Z') || ('0' <= c <= '9') || c == '_'
}

/// Whether `s` is a D-Bus object path: the root, or elements of letters, digits
/// and underscores, each after one slash.
pub open spec fn is_object_path(s: Seq<char>) -> bool {
    ||| s == seq!['/']
    ||| {
        &&& s.len() > 1
        &&& s[0] == '/'
        &&& s.last() != '/'
        &&& forall|i: int|
            0 < i < s.len() ==> is_path_char(#[trigger] s[i]) || (s[i] == '/' && s[i - 1] != '/')
    }
}

/// The identity of one place in the track list: an object path.
#[derive(Debug, PartialEq, Eq)]
pub struct TrackId {
    pub path: String,
}

impl View for TrackId {
    type V = Seq<char>;

    open spec fn view(&self) -> Seq<char> {
        self.path@
    }
}

impl Clone for TrackId {
    fn clone(&self) -> (r: Self)
        ensures
            r == *self,
    {
        TrackId { path: self.path.clone() }
    }
}

impl TrackId {
    /// The id with this path, if it is one.
    pub fn parse(path: &str) -> (r: Option<TrackId>)
        ensures
            match r {
                Some(id) => is_object_path(path@) && id@ == path@,
                None => !is_object_path(path@),
            },
    {
        let s = text::chars(path);
        if s.len() == 0 || s[0] != '/' {
            return None;
        }
        if s.len() == 1 {
            assert(path@ =~= seq!['/']);
            return Some(TrackId { path: path.to_owned() });
        }
        if s[s.len() - 1] == '/' {
            return None;
        }
        let mut i: usize = 1;
        while i < s.len()
            invariant
                1 <= i <= s@.len(),
                s@ == path@,
                s@.len() > 1,
                forall|j: int|
                    0 < j < i ==> is_path_char(#[trigger] s@[j]) || (s@[j] == '/' && s@[j - 1]
                        != '/'),
            decreases s@.len() - i,
        {
            let c = s[i];
            let plain = ('a' <= c && c <= 'z') || ('A' <= c && c <= 'Z') || ('0' <= c && c <= '9')
                || c == '_';
            if !(plain || (c == '/' && s[i - 1] != '/')) {
                assert(!(is_path_char(path@[i as int]) || (path@[i as int] == '/' && path@[i - 1]
                    != '/')));
                return None;
            }
            i += 1;
        }
        Some(TrackId { path: path.to_owned() })
    }

    pub fn as_str(&self) -> (r: &str)
        ensures
            r@ == self@,
    {
        self.path.as_str()
    }

    /// The id that stands for no track.
    pub fn no_track() -> (r: TrackId)
        ensures
            r@ == spec_no_track(),
    {
        TrackId { path: "/org/mpris/MediaPlayer2/TrackList/NoTrack".to_owned() }
    }

    /// Whether two ids are the same.
    pub fn same(&self, other: &TrackId) -> (r: bool)
        ensures
            r == (self@ == other@),
    {
        text::same(self.path.as_str(), other.path.as_str())
    }
}

/// The path that the protocol keeps for no track at all.
pub open spec fn spec_no_track() -> Seq<char> {
    "/org/mpris/MediaPlayer2/TrackList/NoTrack"@
}

/// The path of the `n`th id that was handed out.
pub open spec fn path_of(n: nat) -> Seq<char> {
    "/dev/danielmiguelt/Vinilo/tracklist/"@ + text::decimal(n)
}

/// Every path that is handed out is an object path, and no two are alike.
pub proof fn path_of_is_an_object_path(n: nat)
    ensures
        is_object_path(path_of(n)),
{
    reveal_strlit("/dev/danielmiguelt/Vinilo/tracklist/");
    text::decimal_nonempty(n);
    let head = "/dev/danielmiguelt/Vinilo/tracklist/"@;
    let s = path_of(n);
    assert(s.last() == text::decimal(n).last());
    assert forall|i: int| 0 < i < s.len() implies is_path_char(#[trigger] s[i]) || (s[i] == '/'
        && s[i - 1] != '/') by {
        if i < head.len() {
            assert(s[i] == head[i]);
            assert(s[i - 1] == head[i - 1]);
        } else {
            assert(s[i] == text::decimal(n)[i - head.len()]);
        }
    }
}

/// Different numbers give different paths.
pub proof fn path_of_injective(a: nat, b: nat)
    requires
        path_of(a) == path_of(b),
    ensures
        a == b,
{
    let head = "/dev/danielmiguelt/Vinilo/tracklist/"@;
    assert(path_of(a).skip(head.len() as int) =~= text::decimal(a));
    assert(path_of(b).skip(head.len() as int) =~= text::decimal(b));
    text::decimal_injective(a, b);
}

/// One place in the queue.
#[derive(Debug)]
pub struct Occurrence {
    pub source_id: String,
    pub track_id: TrackId,
    pub item: Item,
    pub index: usize,
}

/// What a new queue changed.
#[derive(Debug, PartialEq, Eq)]
pub struct Change {
    /// The ids of the whole queue are not what they were.
    pub queue: bool,
    /// The ids that are shown are not what they were.
    pub window: bool,
    /// The shown ids whose description changed.
    pub metadata: Vec<TrackId>,
}

#[derive(Debug)]
pub struct Projection {
    pub occurrences: Vec<Occurrence>,
    pub window: Range<usize>,
    pub current: Option<TrackId>,
    pub next_id: u64,
}

/// What a place is known by: the engine's name for it and its id.
pub open spec fn known(occurrences: Seq<Occurrence>) -> Seq<(Seq<char>, Seq<char>)> {
    occurrences.map_values(|o: Occurrence| (o.source_id@, o.track_id@))
}

pub open spec fn ids_of(occurrences: Seq<Occurrence>) -> Seq<Seq<char>> {
    occurrences.map_values(|o: Occurrence| o.track_id@)
}

pub open spec fn id_views(ids: Seq<TrackId>) -> Seq<Seq<char>> {
    ids.map_values(|t: TrackId| t@)
}

pub open spec fn sources_of(queue: Seq<Item>) -> Seq<Seq<char>> {
    queue.map_values(|i: Item| i.occurrence_id@)
}

/// The first place known by `source`.
pub open spec fn first_known(left: Seq<(Seq<char>, Seq<char>)>, source: Seq<char>) -> Option<int>
    decreases left.len(),
{
    if left.len() == 0 {
        None
    } else {
        match first_known(left.drop_last(), source) {
            Some(i) => Some(i),
            None => if left.last().0 == source {
                Some(left.len() - 1)
            } else {
                None
            },
        }
    }
}

/// The number after `n`; the last number follows itself.
pub open spec fn after(n: nat) -> nat {
    if n < u64::MAX {
        n + 1
    } else {
        n
    }
}

/// Ids for the places `sources`, with the places still unclaimed and the next
/// number. Each place in turn claims the first unclaimed place of the same
/// name and its id; a place with no name, or with none left to claim, gets a
/// new id.
pub open spec fn assigned(
    left: Seq<(Seq<char>, Seq<char>)>,
    next: nat,
    sources: Seq<Seq<char>>,
) -> (Seq<Seq<char>>, Seq<(Seq<char>, Seq<char>)>, nat)
    decreases sources.len(),
{
    if sources.len() == 0 {
        (Seq::empty(), left, next)
    } else {
        let (ids, l, n) = assigned(left, next, sources.drop_last());
        let claim = if sources.last().len() > 0 {
            first_known(l, sources.last())
        } else {
            None
        };
        match claim {
            Some(i) => (ids.push(l[i].1), l.remove(i), n),
            None => (ids.push(path_of(n)), l, after(n)),
        }
    }
}

/// Whether two items are described alike.
pub open spec fn spec_same_metadata(a: Item, b: Item) -> bool {
    &&& a.title@ == b.title@
    &&& a.artist@ == b.artist@
    &&& a.album@ == b.album@
    &&& a.duration_ms == b.duration_ms
    &&& a.track_number == b.track_number
}

/// Whether a place was there before under its id and was described otherwise.
pub open spec fn redescribed(before: Seq<Occurrence>, o: Occurrence) -> bool {
    exists|k: int|
        text::is_first(before, |b: Occurrence| b.track_id@ == o.track_id@, k)
            && !spec_same_metadata(#[trigger] before[k].item, o.item)
}

/// The places of a queue of `len` that are shown around `anchor`.
pub open spec fn window_of(len: int, anchor: int) -> (int, int) {
    if len == 0 {
        (0, 0)
    } else {
        let width = if len < LIMIT {
            len
        } else {
            LIMIT as int
        };
        let at = if anchor < len {
            anchor
        } else {
            len - 1
        };
        let from = if at < RADIUS {
            0
        } else {
            at - RADIUS
        };
        let start = if from < len - width {
            from
        } else {
            len - width
        };
        (start, start + width)
    }
}

/// The window holds at most [`LIMIT`] places, as many as the queue has up to
/// that, all of them in the queue, and the anchor among them.
pub proof fn the_window_is_bounded_and_holds_the_anchor(len: int, anchor: int)
    requires
        0 <= len,
        0 <= anchor,
    ensures
        ({
            let (a, b) = window_of(len, anchor);
            &&& 0 <= a <= b <= len
            &&& b - a == if len < LIMIT {
                len
            } else {
                LIMIT as int
            }
            &&& anchor < len ==> a <= anchor < b
            &&& len <= anchor && len > 0 ==> b == len
        }),
{
}

/// The places of a queue of `queue_len` that are shown around `anchor`.
pub fn context_window(queue_len: usize, anchor: usize) -> (r: Range<usize>)
    ensures
        (r.start as int, r.end as int) == window_of(queue_len as int, anchor as int),
{
    if queue_len == 0 {
        return 0..0;
    }
    let width: usize = if queue_len < LIMIT {
        queue_len
    } else {
        LIMIT
    };
    let at: usize = if anchor < queue_len {
        anchor
    } else {
        queue_len - 1
    };
    let from: usize = at.saturating_sub(RADIUS);
    let start: usize = if from < queue_len - width {
        from
    } else {
        queue_len - width
    };
    start..start + width
}

/// Whether two items are described alike.
pub fn same_metadata(a: &Item, b: &Item) -> (r: bool)
    ensures
        r == spec_same_metadata(*a, *b),
{
    text::same(a.title.as_str(), b.title.as_str()) && text::same(
        a.artist.as_str(),
        b.artist.as_str(),
    ) && text::same(a.album.as_str(), b.album.as_str()) && a.duration_ms == b.duration_ms
        && a.track_number == b.track_number
}

/// `first_known` finds the first place of that name.
proof fn first_known_is_first(left: Seq<(Seq<char>, Seq<char>)>, source: Seq<char>)
    ensures
        match first_known(left, source) {
            Some(i) => 0 <= i < left.len() && left[i].0 == source && forall|j: int|
                0 <= j < i ==> (#[trigger] left[j]).0 != source,
            None => forall|j: int| 0 <= j < left.len() ==> (#[trigger] left[j]).0 != source,
        },
    decreases left.len(),
{
    if left.len() > 0 {
        let rest = left.drop_last();
        first_known_is_first(rest, source);
        assert forall|j: int| 0 <= j < rest.len() implies rest[j] == #[trigger] left[j] by {}
    }
}

/// Where the first unclaimed place of this name is.
fn find_known(left: &Vec<Occurrence>, source: &str) -> (r: Option<usize>)
    ensures
        match r {
            Some(i) => first_known(known(left@), source@) == Some(i as int),
            None => first_known(known(left@), source@) is None,
        },
{
    proof {
        first_known_is_first(known(left@), source@);
    }
    let mut i: usize = 0;
    while i < left.len()
        invariant
            i <= left@.len(),
            forall|j: int| 0 <= j < i ==> (#[trigger] left@[j]).source_id@ != source@,
            match first_known(known(left@), source@) {
                Some(i) => 0 <= i < left@.len() && known(left@)[i].0 == source@ && forall|j: int|
                    0 <= j < i ==> (#[trigger] known(left@)[j]).0 != source@,
                None => forall|j: int|
                    0 <= j < left@.len() ==> (#[trigger] known(left@)[j]).0 != source@,
            },
        decreases left@.len() - i,
    {
        if text::same(left[i].source_id.as_str(), source) {
            assert(known(left@)[i as int].0 == source@);
            return Some(i);
        }
        i += 1;
    }
    None
}

/// A copy of the ids of some places.
fn copy_ids(occurrences: &Vec<Occurrence>, from: usize, to: usize) -> (r: Vec<TrackId>)
    requires
        from <= to <= occurrences@.len(),
    ensures
        id_views(r@) == ids_of(occurrences@).subrange(from as int, to as int),
{
    let mut out: Vec<TrackId> = Vec::new();
    let mut i: usize = from;
    while i < to
        invariant
            from <= i <= to <= occurrences@.len(),
            id_views(out@) =~= ids_of(occurrences@).subrange(from as int, i as int),
        decreases to - i,
    {
        let ghost out0 = out@;
        out.push(occurrences[i].track_id.clone());
        proof {
            assert(id_views(out@) =~= id_views(out0).push(ids_of(occurrences@)[i as int]));
        }
        i += 1;
    }
    out
}

/// Whether two lists of ids are the same.
fn same_ids(a: &Vec<TrackId>, b: &Vec<TrackId>) -> (r: bool)
    ensures
        r == (id_views(a@) == id_views(b@)),
{
    if a.len() != b.len() {
        assert(id_views(a@).len() != id_views(b@).len());
        return false;
    }
    let mut i: usize = 0;
    while i < a.len()
        invariant
            i <= a@.len() == b@.len(),
            forall|j: int| 0 <= j < i ==> (#[trigger] a@[j])@ == b@[j]@,
        decreases a@.len() - i,
    {
        if !a[i].same(&b[i]) {
            assert(id_views(a@)[i as int] != id_views(b@)[i as int]);
            return false;
        }
        i += 1;
    }
    assert(id_views(a@) =~= id_views(b@));
    true
}

impl Default for Projection {
    fn default() -> (r: Self)
        ensures
            r.wf(),
            r.distinct(),
            r.occurrences@.len() == 0,
            r.window.start == 0,
            r.window.end == 0,
            r.current is None,
            r.next_id == 1,
    {
        Projection { occurrences: Vec::new(), window: 0..0, current: None, next_id: 1 }
    }
}

/// Whether `after` is what `before` becomes when it takes over `queue`.
///
/// Every place of the queue is there, in order, under the id that it is
/// assigned. Where the queue holds the current item, the first such place is
/// the current one and the window is put around it; else there is no current
/// place, and the window is put around the reported position.
pub open spec fn reconciled(
    before: Projection,
    after: Projection,
    queue: Seq<Item>,
    queue_position: int,
    current: Option<Item>,
) -> bool {
    &&& after.occurrences@.len() == queue.len()
    &&& forall|i: int|
        0 <= i < queue.len() ==> (#[trigger] after.occurrences@[i]).item == queue[i]
            && after.occurrences@[i].source_id@ == queue[i].occurrence_id@
    &&& {
        let (ids, _, next) = assigned(
            known(before.occurrences@),
            before.next_id as nat,
            sources_of(queue),
        );
        &&& ids_of(after.occurrences@) == ids
        &&& after.next_id == next
    }
    &&& match current {
        Some(c) => {
            let here = |i: Item| i.occurrence_id@ == c.occurrence_id@;
            if c.occurrence_id@.len() > 0 && !text::nowhere(queue, here) {
                exists|k: int|
                    {
                        &&& text::is_first(queue, here, k)
                        &&& after.current matches Some(id)
                        &&& id@ == (#[trigger] after.occurrences@[k]).track_id@
                        &&& window_of(queue.len() as int, k) == (
                            after.window.start as int,
                            after.window.end as int,
                        )
                    }
            } else {
                &&& after.current is None
                &&& window_of(queue.len() as int, queue_position) == (
                    after.window.start as int,
                    after.window.end as int,
                )
            }
        },
        None => {
            &&& after.current is None
            &&& window_of(queue.len() as int, queue_position) == (
                after.window.start as int,
                after.window.end as int,
            )
        },
    }
}

/// Whether `c` is what changed from `before` to `after`.
pub open spec fn is_change(before: Projection, after: Projection, c: Change) -> bool {
    &&& c.queue == (ids_of(before.occurrences@) != ids_of(after.occurrences@))
    &&& c.window == (before.spec_tracks() != after.spec_tracks())
    &&& id_views(c.metadata@) == ids_of(
        after.occurrences@.subrange(after.window.start as int, after.window.end as int).filter(
            |o: Occurrence| redescribed(before.occurrences@, o),
        ),
    )
}

impl Projection {
    /// The window lies in the queue, and every place knows where it is.
    pub open spec fn wf(self) -> bool {
        &&& self.window.start <= self.window.end <= self.occurrences@.len()
        &&& forall|i: int|
            0 <= i < self.occurrences@.len() ==> (#[trigger] self.occurrences@[i]).index == i
    }

    /// Every id was handed out before the next one, and none twice.
    pub open spec fn distinct(self) -> bool {
        ids_are_distinct(ids_of(self.occurrences@), self.next_id as nat)
    }

    /// The ids that are shown.
    pub open spec fn spec_tracks(self) -> Seq<Seq<char>> {
        ids_of(self.occurrences@).subrange(self.window.start as int, self.window.end as int)
    }

    /// The place that is shown under `id`: the first, if there is one.
    pub open spec fn is_exposed(self, id: Seq<char>, i: int) -> bool {
        &&& self.window.start <= i < self.window.end
        &&& self.occurrences@[i].track_id@ == id
        &&& forall|j: int|
            self.window.start <= j < i ==> (#[trigger] self.occurrences@[j]).track_id@ != id
    }

    /// Take over a queue.
    ///
    /// A place that was queued before keeps its id. The window is put around
    /// the current item where the queue holds it, else around the reported
    /// position.
    pub fn reconcile(
        &mut self,
        queue: &[Item],
        queue_position: usize,
        current: Option<&Item>,
    ) -> (r: Change)
        requires
            old(self).wf(),
        ensures
            final(self).wf(),
            reconciled(
                *old(self),
                *final(self),
                queue@,
                queue_position as int,
                match current {
                    Some(c) => Some(*c),
                    None => None,
                },
            ),
            is_change(*old(self), *final(self), r),
    {
        let ghost before = self.occurrences@;
        let previous_queue = copy_ids(&self.occurrences, 0, self.occurrences.len());
        let previous_window = self.tracks();
        let previous_items = copy_occurrences(&self.occurrences);
        let mut left: Vec<Occurrence> = copy_occurrences(&self.occurrences);
        let mut next: u64 = self.next_id;
        let mut placed: Vec<Occurrence> = Vec::new();
        let mut current_index: Option<usize> = None;
        let mut i: usize = 0;
        proof {
            assert(sources_of(queue@).take(0) =~= Seq::<Seq<char>>::empty());
            assert(known(left@) =~= known(before));
            assert(ids_of(placed@) =~= Seq::<Seq<char>>::empty());
        }
        while i < queue.len()
            invariant
                i <= queue@.len(),
                placed@.len() == i,
                before == old(self).occurrences@,
                forall|j: int|
                    0 <= j < i ==> (#[trigger] placed@[j]).item == queue@[j]
                        && placed@[j].source_id@ == queue@[j].occurrence_id@ && placed@[j].index
                        == j,
                (ids_of(placed@), known(left@), next as nat) == assigned(
                    known(before),
                    old(self).next_id as nat,
                    sources_of(queue@).take(i as int),
                ),
                match current_index {
                    Some(k) => {
                        &&& current matches Some(c)
                        &&& c.occurrence_id@.len() > 0
                        &&& k < i
                        &&& text::is_first(
                            queue@,
                            |q: Item| q.occurrence_id@ == c.occurrence_id@,
                            k as int,
                        )
                    },
                    None => current matches Some(c) ==> c.occurrence_id@.len() > 0 ==> forall|
                        j: int,
                    |
                        0 <= j < i ==> (#[trigger] queue@[j]).occurrence_id@ != c.occurrence_id@,
                },
            decreases queue@.len() - i,
        {
            let item = &queue[i];
            proof {
                text::take_step(sources_of(queue@), i as int);
                let t = sources_of(queue@).take(i + 1);
                assert(t.drop_last() =~= sources_of(queue@).take(i as int));
                assert(t.last() == item.occurrence_id@);
                first_known_is_first(known(left@), item.occurrence_id@);
            }
            let claim = if item.occurrence_id.as_str().is_empty() {
                None
            } else {
                find_known(&left, item.occurrence_id.as_str())
            };
            let ghost left0 = left@;
            let ghost placed0 = placed@;
            let track_id = match claim {
                Some(at) => {
                    let o = left.remove(at);
                    proof {
                        assert(known(left@) =~= known(left0).remove(at as int));
                    }
                    o.track_id
                },
                None => {
                    let id = make_id(next);
                    next = next.saturating_add(1);
                    id
                },
            };
            if current_index.is_none() {
                if let Some(c) = current {
                    if !c.occurrence_id.as_str().is_empty() && text::same(
                        item.occurrence_id.as_str(),
                        c.occurrence_id.as_str(),
                    ) {
                        current_index = Some(i);
                    }
                }
            }
            let ghost id = track_id@;
            placed.push(
                Occurrence {
                    source_id: item.occurrence_id.clone(),
                    track_id,
                    item: item.clone(),
                    index: i,
                },
            );
            proof {
                assert(ids_of(placed@) =~= ids_of(placed0).push(id));
            }
            i += 1;
        }
        proof {
            assert(sources_of(queue@).take(queue@.len() as int) =~= sources_of(queue@));
        }
        let anchor: usize = match current_index {
            Some(k) => k,
            None => queue_position,
        };
        proof {
            the_window_is_bounded_and_holds_the_anchor(queue@.len() as int, anchor as int);
            if let Some(c) = current {
                let here = |q: Item| q.occurrence_id@ == c.occurrence_id@;
                if let Some(k) = current_index {
                    assert(text::is_first(queue@, here, k as int));
                    assert(here(queue@[k as int]));
                }
            }
        }
        self.current = match current_index {
            Some(k) => Some(placed[k].track_id.clone()),
            None => None,
        };
        self.window = context_window(queue.len(), anchor);
        self.next_id = next;
        self.occurrences = placed;
        let current_queue = copy_ids(&self.occurrences, 0, self.occurrences.len());
        let current_window = self.tracks();
        let metadata = redescribed_ids(
            &previous_items,
            &self.occurrences,
            self.window.start,
            self.window.end,
        );
        let queue_changed = !same_ids(&previous_queue, &current_queue);
        let window_changed = !same_ids(&previous_window, &current_window);
        proof {
            assert(ids_of(before).subrange(0, before.len() as int) =~= ids_of(before));
            assert(ids_of(self.occurrences@).subrange(0, self.occurrences@.len() as int) =~= ids_of(
                self.occurrences@,
            ));
        }
        Change { queue: queue_changed, window: window_changed, metadata }
    }

    /// The ids that are shown, in order.
    pub fn tracks(&self) -> (r: Vec<TrackId>)
        requires
            self.wf(),
        ensures
            id_views(r@) == self.spec_tracks(),
    {
        copy_ids(&self.occurrences, self.window.start, self.window.end)
    }

    /// The id of the current track, where the queue holds it.
    pub fn current(&self) -> (r: Option<TrackId>)
        ensures
            r == self.current,
    {
        self.current.clone()
    }

    /// Where in the queue a shown id is.
    pub fn index(&self, id: &TrackId) -> (r: Option<usize>)
        requires
            self.wf(),
        ensures
            match r {
                Some(i) => self.is_exposed(id@, i as int),
                None => forall|i: int| !self.is_exposed(id@, i),
            },
    {
        match self.exposed(id) {
            Some(at) => Some(self.occurrences[at].index),
            None => None,
        }
    }

    /// The item behind a shown id.
    pub fn item(&self, id: &TrackId) -> (r: Option<&Item>)
        requires
            self.wf(),
        ensures
            match r {
                Some(item) => exists|i: int| #[trigger]
                    self.is_exposed(id@, i) && *item == self.occurrences@[i].item,
                None => forall|i: int| !self.is_exposed(id@, i),
            },
    {
        match self.exposed(id) {
            Some(at) => Some(&self.occurrences[at].item),
            None => None,
        }
    }

    /// The item behind `id`, where it is shown.
    pub open spec fn spec_item(self, id: Seq<char>) -> Option<Item> {
        if exists|i: int| self.is_exposed(id, i) {
            Some(self.occurrences@[choose|i: int| self.is_exposed(id, i)].item)
        } else {
            None
        }
    }

    /// The items behind the shown ones of `ids`, in the order they were asked
    /// for.
    pub fn metadata(&self, ids: &[TrackId]) -> (r: Vec<(TrackId, Item)>)
        requires
            self.wf(),
        ensures
            r@.map_values(|p: (TrackId, Item)| (p.0@, p.1)) == spec_metadata(*self, ids@),
    {
        let mut out: Vec<(TrackId, Item)> = Vec::new();
        let mut i: usize = 0;
        proof {
            assert(ids@.take(0) =~= Seq::<TrackId>::empty());
        }
        while i < ids.len()
            invariant
                i <= ids@.len(),
                self.wf(),
                out@.map_values(|p: (TrackId, Item)| (p.0@, p.1)) =~= spec_metadata(
                    *self,
                    ids@.take(i as int),
                ),
            decreases ids@.len() - i,
        {
            proof {
                text::take_step(ids@, i as int);
                assert(ids@.take(i + 1).drop_last() =~= ids@.take(i as int));
                assert(ids@.take(i + 1).last() == ids@[i as int]);
            }
            if let Some(item) = self.item(&ids[i]) {
                let ghost out0 = out@;
                proof {
                    let k = choose|k: int| #[trigger]
                        self.is_exposed(ids@[i as int]@, k) && *item == self.occurrences@[k].item;
                    let m = choose|m: int| self.is_exposed(ids@[i as int]@, m);
                    assert(self.is_exposed(ids@[i as int]@, k));
                    assert(k == m);
                }
                out.push((ids[i].clone(), item.clone()));
                proof {
                    assert(out@.drop_last() =~= out0);
                }
            }
            i += 1;
        }
        proof {
            assert(ids@.take(ids@.len() as int) =~= ids@);
        }
        out
    }

    /// Where the first shown place with this id is.
    fn exposed(&self, id: &TrackId) -> (r: Option<usize>)
        requires
            self.wf(),
        ensures
            match r {
                Some(i) => self.is_exposed(id@, i as int),
                None => forall|i: int| !self.is_exposed(id@, i),
            },
    {
        let mut i: usize = self.window.start;
        while i < self.window.end
            invariant
                self.wf(),
                self.window.start <= i <= self.window.end,
                forall|j: int|
                    self.window.start <= j < i ==> (#[trigger] self.occurrences@[j]).track_id@
                        != id@,
            decreases self.window.end - i,
        {
            if self.occurrences[i].track_id.same(id) {
                return Some(i);
            }
            i += 1;
        }
        None
    }

    /// The id of the first place the engine calls `source_id`.
    pub fn id_for_occurrence(&self, source_id: &str) -> (r: Option<TrackId>)
        ensures
            match r {
                Some(id) => exists|i: int|
                    text::is_first(
                        self.occurrences@,
                        |o: Occurrence| o.source_id@ == source_id@,
                        i,
                    ) && id == (#[trigger] self.occurrences@[i]).track_id,
                None => text::nowhere(
                    self.occurrences@,
                    |o: Occurrence| o.source_id@ == source_id@,
                ),
            },
    {
        let mut i: usize = 0;
        while i < self.occurrences.len()
            invariant
                i <= self.occurrences@.len(),
                forall|j: int|
                    0 <= j < i ==> (#[trigger] self.occurrences@[j]).source_id@ != source_id@,
            decreases self.occurrences@.len() - i,
        {
            if text::same(self.occurrences[i].source_id.as_str(), source_id) {
                proof {
                    assert(text::is_first(
                        self.occurrences@,
                        |o: Occurrence| o.source_id@ == source_id@,
                        i as int,
                    ));
                }
                return Some(self.occurrences[i].track_id.clone());
            }
            i += 1;
        }
        None
    }
}

/// The items behind the shown ones of `ids`.
pub open spec fn spec_metadata(p: Projection, ids: Seq<TrackId>) -> Seq<(Seq<char>, Item)>
    decreases ids.len(),
{
    if ids.len() == 0 {
        Seq::empty()
    } else {
        let r = spec_metadata(p, ids.drop_last());
        match p.spec_item(ids.last()@) {
            Some(item) => r.push((ids.last()@, item)),
            None => r,
        }
    }
}

/// The id with the number `n`.
fn make_id(n: u64) -> (r: TrackId)
    ensures
        r@ == path_of(n as nat),
        is_object_path(r@),
{
    let mut path = "/dev/danielmiguelt/Vinilo/tracklist/".to_owned();
    path.append(text::number(n).as_str());
    proof {
        path_of_is_an_object_path(n as nat);
    }
    TrackId { path }
}

/// A copy of some places.
fn copy_occurrences(v: &Vec<Occurrence>) -> (r: Vec<Occurrence>)
    ensures
        r@ == v@,
{
    let mut out: Vec<Occurrence> = Vec::new();
    let mut i: usize = 0;
    while i < v.len()
        invariant
            i <= v@.len(),
            out@ =~= v@.take(i as int),
        decreases v@.len() - i,
    {
        out.push(
            Occurrence {
                source_id: v[i].source_id.clone(),
                track_id: v[i].track_id.clone(),
                item: v[i].item.clone(),
                index: v[i].index,
            },
        );
        i += 1;
    }
    assert(out@ =~= v@);
    out
}

/// The ids among `now[from..to]` that `before` described otherwise.
fn redescribed_ids(
    before: &Vec<Occurrence>,
    now: &Vec<Occurrence>,
    from: usize,
    to: usize,
) -> (r: Vec<TrackId>)
    requires
        from <= to <= now@.len(),
    ensures
        id_views(r@) == ids_of(
            now@.subrange(from as int, to as int).filter(
                |o: Occurrence| redescribed(before@, o),
            ),
        ),
{
    let ghost p = |o: Occurrence| redescribed(before@, o);
    let ghost shown = now@.subrange(from as int, to as int);
    let mut out: Vec<TrackId> = Vec::new();
    let mut i: usize = from;
    proof {
        assert(shown.take(0) =~= Seq::<Occurrence>::empty());
        reveal(Seq::filter);
        assert(id_views(out@) =~= ids_of(shown.take(0).filter(p)));
    }
    while i < to
        invariant
            from <= i <= to <= now@.len(),
            shown == now@.subrange(from as int, to as int),
            p == (|o: Occurrence| redescribed(before@, o)),
            id_views(out@) == ids_of(shown.take(i - from).filter(p)),
        decreases to - i,
    {
        proof {
            text::filter_step(shown, p, i - from);
        }
        let ghost out0 = out@;
        let ghost kept0 = shown.take(i - from).filter(p);
        if was_redescribed(before, &now[i]) {
            out.push(now[i].track_id.clone());
            proof {
                assert(ids_of(kept0.push(shown[i - from])) =~= ids_of(kept0).push(
                    now@[i as int].track_id@,
                ));
                assert(id_views(out@) =~= id_views(out0).push(now@[i as int].track_id@));
            }
        }
        i += 1;
    }
    proof {
        assert(shown.take(to - from) =~= shown);
    }
    out
}

/// Whether a place was there before under its id and was described otherwise.
fn was_redescribed(before: &Vec<Occurrence>, o: &Occurrence) -> (r: bool)
    ensures
        r == redescribed(before@, *o),
{
    let ghost here = |b: Occurrence| b.track_id@ == o.track_id@;
    let mut k: usize = 0;
    while k < before.len()
        invariant
            k <= before@.len(),
            here == (|b: Occurrence| b.track_id@ == o.track_id@),
            forall|j: int| 0 <= j < k ==> (#[trigger] before@[j]).track_id@ != o.track_id@,
        decreases before@.len() - k,
    {
        if before[k].track_id.same(&o.track_id) {
            proof {
                assert(text::is_first(before@, here, k as int));
                assert(forall|m: int|
                    text::is_first(before@, here, m) ==> m == k && (#[trigger] before@[m]).item
                        == before@[k as int].item);
            }
            return !same_metadata(&before[k].item, &o.item);
        }
        k += 1;
    }
    false
}

/// Whether an id was handed out before the next one.
pub open spec fn handed_out(id: Seq<char>, next: nat) -> bool {
    exists|n: nat| n < next && #[trigger] path_of(n) == id
}

/// Every id was handed out before `next`, and none twice.
pub open spec fn ids_are_distinct(ids: Seq<Seq<char>>, next: nat) -> bool {
    &&& forall|i: int|
        0 <= i < ids.len() ==> handed_out(#[trigger] ids[i], next)
    &&& forall|i: int, j: int| 0 <= i < j < ids.len() ==> #[trigger] ids[i] != #[trigger] ids[j]
}

/// The ids handed out and those not claimed yet, taken together.
spec fn all_ids(ids: Seq<Seq<char>>, left: Seq<(Seq<char>, Seq<char>)>) -> Seq<Seq<char>> {
    ids + left.map_values(|p: (Seq<char>, Seq<char>)| p.1)
}

proof fn assigned_distinct(
    left: Seq<(Seq<char>, Seq<char>)>,
    next: nat,
    sources: Seq<Seq<char>>,
)
    requires
        ids_are_distinct(left.map_values(|p: (Seq<char>, Seq<char>)| p.1), next),
        next + sources.len() <= u64::MAX,
    ensures
        ({
            let (ids, l, n) = assigned(left, next, sources);
            &&& ids.len() == sources.len()
            &&& n <= next + sources.len()
            &&& ids_are_distinct(all_ids(ids, l), n)
        }),
    decreases sources.len(),
{
    if sources.len() == 0 {
        assert(all_ids(Seq::empty(), left) =~= left.map_values(|p: (Seq<char>, Seq<char>)| p.1));
    } else {
        assigned_distinct(left, next, sources.drop_last());
        let (ids, l, n) = assigned(left, next, sources.drop_last());
        let all = all_ids(ids, l);
        first_known_is_first(l, sources.last());
        let claim = if sources.last().len() > 0 {
            first_known(l, sources.last())
        } else {
            None
        };
        match claim {
            Some(k) => {
                let now = all_ids(ids.push(l[k].1), l.remove(k));
                let m = ids.len() as int;
                // Each position of the new list, and where it stood before.
                let from = |i: int|
                    if i < m {
                        i
                    } else if i == m {
                        m + k
                    } else if i - m - 1 < k {
                        i - 1
                    } else {
                        i
                    };
                assert forall|i: int| 0 <= i < now.len() implies #[trigger] now[i] == all[from(
                    i,
                )] by {
                    if i > m {
                        assert(l.remove(k)[i - m - 1] == if i - m - 1 < k {
                            l[i - m - 1]
                        } else {
                            l[i - m]
                        });
                    }
                }
                assert forall|i: int| 0 <= i < now.len() implies handed_out(
                    #[trigger] now[i],
                    n,
                ) by {
                    assert(now[i] == all[from(i)]);
                }
                assert forall|i: int, j: int| 0 <= i < j < now.len() implies #[trigger] now[i]
                    != #[trigger] now[j] by {
                    assert(now[i] == all[from(i)]);
                    assert(now[j] == all[from(j)]);
                    assert(from(i) != from(j));
                }
                assert(ids_are_distinct(now, n));
                assert(assigned(left, next, sources) == (ids.push(l[k].1), l.remove(k), n));
            },
            None => {
                let now = all_ids(ids.push(path_of(n)), l);
                let m = ids.len() as int;
                let from = |i: int|
                    if i < m {
                        i
                    } else {
                        i - 1
                    };
                assert forall|i: int| 0 <= i < now.len() && i != m implies #[trigger] now[i]
                    == all[from(i)] by {}
                assert(now[m] == path_of(n));
                assert forall|i: int| 0 <= i < now.len() && i != m implies handed_out(
                    #[trigger] now[i],
                    n,
                ) by {
                    assert(now[i] == all[from(i)]);
                }
                assert forall|i: int| 0 <= i < now.len() implies handed_out(
                    #[trigger] now[i],
                    n + 1,
                ) by {
                    if i == m {
                        assert(path_of(n) == now[i]);
                    } else {
                        let q = choose|q: nat| q < n && path_of(q) == now[i];
                        assert(q < n + 1 && path_of(q) == now[i]);
                    }
                }
                assert forall|i: int, j: int| 0 <= i < j < now.len() implies #[trigger] now[i]
                    != #[trigger] now[j] by {
                    if i == m || j == m {
                        let o = if i == m {
                            j
                        } else {
                            i
                        };
                        let q = choose|q: nat| q < n && path_of(q) == now[o];
                        if now[i] == now[j] {
                            path_of_injective(q, n);
                        }
                    } else {
                        assert(now[i] == all[from(i)]);
                        assert(now[j] == all[from(j)]);
                    }
                }
                assert(ids_are_distinct(now, n + 1));
                assert(assigned(left, next, sources) == (ids.push(path_of(n)), l, after(n)));
            },
        }
    }
}

/// No two places ever share an id: taking over a queue keeps ids distinct, for
/// as long as there are numbers left to hand out.
pub proof fn ids_stay_distinct(before: Projection, after: Projection, queue: Seq<Item>)
    requires
        before.distinct(),
        before.next_id + queue.len() <= u64::MAX,
        ({
            let (ids, _, next) = assigned(
                known(before.occurrences@),
                before.next_id as nat,
                sources_of(queue),
            );
            &&& ids_of(after.occurrences@) == ids
            &&& after.next_id == next
        }),
    ensures
        after.distinct(),
{
    let left = known(before.occurrences@);
    assert(left.map_values(|p: (Seq<char>, Seq<char>)| p.1) =~= ids_of(before.occurrences@));
    assigned_distinct(left, before.next_id as nat, sources_of(queue));
    let (ids, l, n) = assigned(left, before.next_id as nat, sources_of(queue));
    first_are_distinct(all_ids(ids, l), ids.len() as int, n);
    assert(all_ids(ids, l).take(ids.len() as int) =~= ids);
}

proof fn first_are_distinct(all: Seq<Seq<char>>, count: int, next: nat)
    requires
        ids_are_distinct(all, next),
        0 <= count <= all.len(),
    ensures
        ids_are_distinct(all.take(count), next),
{
    let ids = all.take(count);
    assert forall|i: int| 0 <= i < ids.len() implies handed_out(#[trigger] ids[i], next) by {
        assert(ids[i] == all[i]);
    }
    assert forall|i: int, j: int| 0 <= i < j < ids.len() implies #[trigger] ids[i]
        != #[trigger] ids[j] by {
        assert(ids[i] == all[i]);
        assert(ids[j] == all[j]);
    }
}

/// What one name is known by does not change while it is queued.
proof fn assigned_keeps(left: Seq<(Seq<char>, Seq<char>)>, next: nat, sources: Seq<Seq<char>>)
    requires
        forall|i: int, j: int|
            0 <= i < j < left.len() && (#[trigger] left[i]).0.len() > 0 ==> left[i].0 != (
            #[trigger] left[j]).0,
        forall|i: int, j: int|
            0 <= i < j < sources.len() && (#[trigger] sources[i]).len() > 0 ==> sources[i]
                != #[trigger] sources[j],
    ensures
        ({
            let (ids, l, n) = assigned(left, next, sources);
            &&& ids.len() == sources.len()
            &&& forall|k: int| 0 <= k < l.len() ==> left.contains(#[trigger] l[k])
            &&& forall|i: int|
                0 <= i < left.len() && (#[trigger] left[i]).0.len() > 0 && !sources.contains(
                    left[i].0,
                ) ==> l.contains(left[i])
            &&& forall|i: int, j: int|
                0 <= i < left.len() && 0 <= j < sources.len() && (#[trigger] left[i]).0.len() > 0
                    && left[i].0 == (#[trigger] sources[j]) ==> ids[j] == left[i].1
        }),
    decreases sources.len(),
{
    if sources.len() > 0 {
        let rest = sources.drop_last();
        assert forall|i: int, j: int|
            0 <= i < j < rest.len() && (#[trigger] rest[i]).len() > 0 implies rest[i]
            != #[trigger] rest[j] by {
            assert(rest[i] == sources[i] && rest[j] == sources[j]);
        }
        assigned_keeps(left, next, rest);
        let (ids, l, n) = assigned(left, next, rest);
        let (ids2, l2, n2) = assigned(left, next, sources);
        let s = sources.last();
        let at = sources.len() - 1;
        first_known_is_first(l, s);
        assert forall|i: int|
            0 <= i < left.len() && (#[trigger] left[i]).0.len() > 0 && left[i].0
                == s implies l.contains(left[i]) by {
            if rest.contains(s) {
                let k = choose|k: int| 0 <= k < rest.len() && rest[k] == s;
                assert(sources[k] == s && sources[at] == s);
            }
        }
        let claim = if s.len() > 0 {
            first_known(l, s)
        } else {
            None
        };
        if let Some(k) = claim {
            assert(l2 == l.remove(k));
            assert forall|m: int| 0 <= m < l2.len() implies left.contains(#[trigger] l2[m]) by {
                if m < k {
                    assert(l2[m] == l[m]);
                } else {
                    assert(l2[m] == l[m + 1]);
                }
            }
            assert forall|i: int|
                0 <= i < left.len() && (#[trigger] left[i]).0.len() > 0 && !sources.contains(
                    left[i].0,
                ) implies l2.contains(left[i]) by {
                assert(!rest.contains(left[i].0)) by {
                    if rest.contains(left[i].0) {
                        let q = choose|q: int| 0 <= q < rest.len() && rest[q] == left[i].0;
                        assert(sources[q] == left[i].0);
                    }
                }
                assert(sources[at] == s);
                let q = choose|q: int| 0 <= q < l.len() && l[q] == left[i];
                assert(q != k);
                if q < k {
                    assert(l2[q] == left[i]);
                } else {
                    assert(l2[q - 1] == left[i]);
                }
            }
        } else {
            assert(l2 == l);
            assert forall|i: int|
                0 <= i < left.len() && (#[trigger] left[i]).0.len() > 0 && !sources.contains(
                    left[i].0,
                ) implies l2.contains(left[i]) by {
                assert(!rest.contains(left[i].0)) by {
                    if rest.contains(left[i].0) {
                        let q = choose|q: int| 0 <= q < rest.len() && rest[q] == left[i].0;
                        assert(sources[q] == left[i].0);
                    }
                }
            }
        }
        assert forall|i: int, j: int|
            0 <= i < left.len() && 0 <= j < sources.len() && (#[trigger] left[i]).0.len() > 0
                && left[i].0 == (#[trigger] sources[j]) implies ids2[j] == left[i].1 by {
            if j < at {
                assert(rest[j] == sources[j]);
                assert(ids2[j] == ids[j]);
            } else {
                let q = choose|q: int| 0 <= q < l.len() && l[q] == left[i];
                assert(l[q].0 == s);
                let k = claim->0;
                assert(claim is Some);
                assert(left.contains(l[k]));
                let m = choose|m: int| 0 <= m < left.len() && left[m] == l[k];
                assert(left[m].0 == left[i].0);
                assert(m == i);
            }
        }
    } else {
        assert forall|k: int| 0 <= k < left.len() implies left.contains(#[trigger] left[k]) by {}
    }
}

/// A place that stays queued keeps its id, however the queue around it is
/// edited, where the engine calls no two places alike.
pub proof fn a_place_that_stays_keeps_its_id(
    before: Projection,
    after: Projection,
    queue: Seq<Item>,
    i: int,
    j: int,
)
    requires
        0 <= i < before.occurrences@.len(),
        0 <= j < queue.len(),
        before.occurrences@[i].source_id@ == queue[j].occurrence_id@,
        queue[j].occurrence_id@.len() > 0,
        forall|a: int, b: int|
            0 <= a < b < before.occurrences@.len() && (
            #[trigger] before.occurrences@[a]).source_id@.len() > 0
                ==> before.occurrences@[a].source_id@ != (
            #[trigger] before.occurrences@[b]).source_id@,
        forall|a: int, b: int|
            0 <= a < b < queue.len() && (#[trigger] queue[a]).occurrence_id@.len() > 0
                ==> queue[a].occurrence_id@ != (#[trigger] queue[b]).occurrence_id@,
        ids_of(after.occurrences@) == assigned(
            known(before.occurrences@),
            before.next_id as nat,
            sources_of(queue),
        ).0,
    ensures
        after.occurrences@[j].track_id@ == before.occurrences@[i].track_id@,
{
    let left = known(before.occurrences@);
    let sources = sources_of(queue);
    assigned_keeps(left, before.next_id as nat, sources);
    assert(left[i].0 == sources[j]);
    assert(ids_of(after.occurrences@).len() == queue.len());
    assert(ids_of(after.occurrences@)[j] == after.occurrences@[j].track_id@);
}

/// An id is found exactly when it is shown.
pub proof fn only_shown_ids_are_found(p: Projection, id: Seq<char>)
    requires
        p.wf(),
    ensures
        p.spec_tracks().contains(id) <==> exists|i: int| p.is_exposed(id, i),
        p.spec_tracks().len() == p.window.end - p.window.start,
{
    let shown = p.spec_tracks();
    if shown.contains(id) {
        let k = choose|k: int| 0 <= k < shown.len() && shown[k] == id;
        first_shown(p, id, p.window.start + k);
    }
    if exists|i: int| p.is_exposed(id, i) {
        let i = choose|i: int| p.is_exposed(id, i);
        assert(shown[i - p.window.start] == id);
    }
}

proof fn first_shown(p: Projection, id: Seq<char>, at: int)
    requires
        p.wf(),
        p.window.start <= at < p.window.end,
        p.occurrences@[at].track_id@ == id,
    ensures
        exists|i: int| p.is_exposed(id, i),
    decreases at - p.window.start,
{
    if forall|j: int|
        p.window.start <= j < at ==> (#[trigger] p.occurrences@[j]).track_id@ != id {
        assert(p.is_exposed(id, at));
    } else {
        let j = choose|j: int|
            p.window.start <= j < at && (#[trigger] p.occurrences@[j]).track_id@ == id;
        first_shown(p, id, j);
    }
}

/// The window holds ten places on either side of the anchor, where the queue has
/// them: twenty-one in all.
pub proof fn the_window_is_put_around_the_anchor(len: int, anchor: int)
    requires
        0 <= anchor < len,
    ensures
        10 <= anchor && anchor + 10 < len ==> window_of(len, anchor) == (anchor - 10, anchor + 11),
        len <= 21 ==> window_of(len, anchor) == (0int, len),
        anchor < 10 && len > 21 ==> window_of(len, anchor) == (0int, 21int),
        anchor + 10 >= len && len > 21 ==> window_of(len, anchor) == (len - 21, len),
{
}

/// After a queue was taken over, every place shows its item, and the current
/// place is the first that the current item is queued at, and is shown.
pub proof fn the_current_place_is_shown(
    before: Projection,
    after: Projection,
    queue: Seq<Item>,
    position: int,
    c: Item,
    k: int,
)
    requires
        reconciled(before, after, queue, position, Some(c)),
        0 <= position,
        0 <= k < queue.len(),
        queue[k].occurrence_id@ == c.occurrence_id@,
        c.occurrence_id@.len() > 0,
        forall|j: int| 0 <= j < k ==> (#[trigger] queue[j]).occurrence_id@ != c.occurrence_id@,
    ensures
        after.current matches Some(id) && id@ == after.occurrences@[k].track_id@,
        after.window.start <= k < after.window.end,
        after.occurrences@[k].item == queue[k],
        after.occurrences@.len() == queue.len(),
{
    let here = |i: Item| i.occurrence_id@ == c.occurrence_id@;
    assert(here(queue[k]));
    assert(!text::nowhere(queue, here));
    let at = choose|at: int|
        {
            &&& text::is_first(queue, here, at)
            &&& after.current matches Some(id)
            &&& id@ == (#[trigger] after.occurrences@[at]).track_id@
            &&& window_of(queue.len() as int, at) == (
                after.window.start as int,
                after.window.end as int,
            )
        };
    assert(at == k) by {
        if at < k {
            assert(here(queue[at]));
        }
        if k < at {
            assert(!here(queue[k]));
        }
    }
    the_window_is_bounded_and_holds_the_anchor(queue.len() as int, k);
}

/// Where nothing current is queued, no place is current and the reported one is
/// shown.
pub proof fn without_a_current_song_the_reported_place_is_shown(
    before: Projection,
    after: Projection,
    queue: Seq<Item>,
    position: int,
)
    requires
        reconciled(before, after, queue, position, None),
        0 <= position < queue.len(),
    ensures
        after.current is None,
        after.window.start <= position < after.window.end,
{
    the_window_is_bounded_and_holds_the_anchor(queue.len() as int, position);
}

/// Two items are described alike exactly where title, artist, album, length and
/// number are the same.
pub proof fn what_differs_is_described_otherwise(a: Item, b: Item)
    ensures
        a.title@ != b.title@ ==> !spec_same_metadata(a, b),
        a.artist@ != b.artist@ ==> !spec_same_metadata(a, b),
        a.album@ != b.album@ ==> !spec_same_metadata(a, b),
        a.duration_ms != b.duration_ms ==> !spec_same_metadata(a, b),
        a.track_number != b.track_number ==> !spec_same_metadata(a, b),
        spec_same_metadata(a, a),
        spec_same_metadata(a, b) == spec_same_metadata(b, a),
{
}

/// A list that shows the same ids as before is not told of as another, and one
/// that shows others is.
pub proof fn another_list_is_told_of(before: Projection, after: Projection, c: Change)
    requires
        is_change(before, after, c),
    ensures
        before.spec_tracks() == after.spec_tracks() <==> !c.window,
        ids_of(before.occurrences@) == ids_of(after.occurrences@) <==> !c.queue,
        before == after ==> !c.queue && !c.window,
{
}

} // verus!
