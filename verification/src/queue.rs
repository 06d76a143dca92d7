//! Turning a list of rows into a queue.
//!
//! The whole list is queued at once, and the track to start on is named by its
//! id: an index would have to survive every filter on the way.
use vstd::prelude::*;

use crate::entry::Entry;
use crate::player::protocol::Item;
use crate::text;

verus! {

/// Whether `c` is a digit.
pub open spec fn is_digit(c: char) -> bool {
    '0' <= c <= '9'
}

/// The runs of digits in `s`, in order; an empty run wherever two characters
/// that are no digits meet.
pub open spec fn digit_runs(s: Seq<char>) -> Seq<Seq<char>>
    decreases s.len(),
{
    if s.len() == 0 {
        seq![Seq::<char>::empty()]
    } else {
        let before = digit_runs(s.drop_last());
        if is_digit(s.last()) {
            before.drop_last().push(before.last().push(s.last()))
        } else {
            before.push(Seq::empty())
        }
    }
}

/// The ids named in a report that some items could not be resolved: the runs
/// of six digits or more behind the first `could not be resolved`.
pub open spec fn is_unresolvable(detail: Seq<char>, ids: Seq<Seq<char>>) -> bool {
    let marker = "could not be resolved"@;
    if text::occurs(detail, marker) {
        exists|i: int| #[trigger]
            text::first_at(detail, marker, 0, i) && ids == digit_runs(
                detail.skip(i + marker.len()),
            ).filter(|run: Seq<char>| run.len() >= 6)
    } else {
        ids.len() == 0
    }
}

/// Pull the ids out of the engine's report that some could not be resolved.
///
/// Loose on purpose: find the marker, then take runs of digits. A report in
/// other words yields no ids at all.
pub fn unresolvable_ids(detail: &str) -> (r: Vec<String>)
    ensures
        is_unresolvable(detail@, text::views(r@)),
{
    let v = text::chars(detail);
    let marker = text::chars("could not be resolved");
    let at = match text::find_from(&v, &marker, 0) {
        Some(i) => i,
        None => {
            assert(!text::occurs(detail@, "could not be resolved"@));
            return Vec::new();
        },
    };
    assert(at + marker@.len() <= v.len());
    let start: usize = at + marker.len();
    let ghost tail = detail@.skip(start as int);
    let ghost long = |run: Seq<char>| run.len() >= 6;
    let mut out: Vec<String> = Vec::new();
    let mut run = String::new();
    let mut len: usize = 0;
    let mut i: usize = start;
    proof {
        assert(tail.take(0) =~= Seq::<char>::empty());
        assert(digit_runs(tail.take(0)).drop_last() =~= Seq::<Seq<char>>::empty());
        reveal(Seq::filter);
        assert(text::views(out@) =~= digit_runs(tail.take(0)).drop_last().filter(long));
        runs_are_never_none(tail.take(0));
    }
    while i < v.len()
        invariant
            start <= i <= v.len(),
            v@ == detail@,
            tail == detail@.skip(start as int),
            long == (|run: Seq<char>| run.len() >= 6),
            len == run@.len(),
            len <= i - start,
            run@ == digit_runs(tail.take(i - start)).last(),
            text::views(out@) == digit_runs(tail.take(i - start)).drop_last().filter(long),
            digit_runs(tail.take(i - start)).len() > 0,
        decreases v.len() - i,
    {
        let c = v[i];
        let ghost before = digit_runs(tail.take(i - start));
        proof {
            text::take_step(tail, i - start);
            assert(tail.take(i - start + 1).drop_last() =~= tail.take(i - start));
            assert(tail[i - start] == c);
        }
        if '0' <= c && c <= '9' {
            run.push(c);
            len += 1;
            proof {
                assert(before.drop_last().push(run@).drop_last() =~= before.drop_last());
            }
        } else {
            let ghost out0 = out@;
            proof {
                assert(before.push(Seq::<char>::empty()).drop_last() =~= before);
                assert(before =~= before.drop_last().push(before.last()));
                before.drop_last().lemma_filter_push(before.last(), long);
            }
            if len >= 6 {
                out.push(run);
                proof {
                    assert(text::views(out@) =~= text::views(out0).push(before.last()));
                }
            }
            run = String::new();
            len = 0;
        }
        i += 1;
    }
    let ghost all = digit_runs(tail);
    let ghost out0 = out@;
    proof {
        assert(tail.take(i - start) =~= tail);
        assert(all =~= all.drop_last().push(all.last()));
        all.drop_last().lemma_filter_push(all.last(), long);
    }
    if len >= 6 {
        out.push(run);
        proof {
            assert(text::views(out@) =~= text::views(out0).push(all.last()));
        }
    }
    proof {
        assert(text::first_at(detail@, "could not be resolved"@, 0, at as int));
        assert(text::occurs_at(detail@, "could not be resolved"@, at as int));
    }
    out
}

proof fn runs_are_never_none(s: Seq<char>)
    ensures
        digit_runs(s).len() > 0,
    decreases s.len(),
{
    if s.len() > 0 {
        runs_are_never_none(s.drop_last());
    }
}

/// Whether `id` is among the ids the engine has refused.
pub open spec fn is_dead(dead: Seq<String>, id: Seq<char>) -> bool {
    exists|i: int| 0 <= i < dead.len() && (#[trigger] dead[i])@ == id
}

fn refused(dead: &Vec<String>, id: &str) -> (r: bool)
    ensures
        r == is_dead(dead@, id@),
{
    let found = text::position(dead, id);
    proof {
        if let Some(i) = found {
            assert(dead@[i as int]@ == id@);
        }
    }
    found.is_some()
}

/// What the ids of a list hold.
pub open spec fn id_views(visible: Seq<Option<String>>) -> Seq<Option<Seq<char>>> {
    visible.map_values(|id: Option<String>| text::opt_view(id))
}

/// Whether there is an id here that streams.
pub open spec fn streams(id: Option<Seq<char>>, dead: Seq<String>) -> bool {
    id matches Some(s) && !is_dead(dead, s)
}

/// The ids that stream, in order, each once.
pub open spec fn queued(visible: Seq<Option<Seq<char>>>, dead: Seq<String>) -> Seq<Seq<char>>
    decreases visible.len(),
{
    if visible.len() == 0 {
        Seq::empty()
    } else {
        let before = queued(visible.drop_last(), dead);
        match visible.last() {
            Some(id) => if !is_dead(dead, id) && !before.contains(id) {
                before.push(id)
            } else {
                before
            },
            None => before,
        }
    }
}

/// Whether `start` is the first id from `row` on that streams.
pub open spec fn is_start(
    visible: Seq<Option<Seq<char>>>,
    row: int,
    dead: Seq<String>,
    start: Option<Seq<char>>,
) -> bool {
    match start {
        Some(id) => exists|i: int|
            {
                &&& row <= i < visible.len()
                &&& #[trigger] visible[i] == Some(id)
                &&& !is_dead(dead, id)
                &&& forall|j: int| row <= j < i ==> !streams(#[trigger] visible[j], dead)
            },
        None => forall|j: int| row <= j < visible.len() ==> !streams(#[trigger] visible[j], dead),
    }
}

/// The ids that the rows of a list stream by.
pub open spec fn row_ids(visible: Seq<Entry>) -> Seq<Option<Seq<char>>> {
    visible.map_values(|e: Entry| e.spec_catalog_id())
}

/// A queue from the rows of a list, and the id to start on: that of the row,
/// or of the first one after it that streams.
pub fn queue_from(visible: &Vec<Entry>, row: usize, dead: &Vec<String>) -> (r: (
    Vec<String>,
    Option<String>,
))
    ensures
        text::views(r.0@) == queued(row_ids(visible@), dead@),
        is_start(row_ids(visible@), row as int, dead@, text::opt_view(r.1)),
{
    let mut ids: Vec<Option<String>> = Vec::new();
    let mut i: usize = 0;
    while i < visible.len()
        invariant
            i <= visible@.len(),
            id_views(ids@) =~= row_ids(visible@).take(i as int),
        decreases visible@.len() - i,
    {
        let ghost ids0 = ids@;
        let id = match visible[i].catalog_id() {
            Some(s) => Some(s.to_owned()),
            None => None,
        };
        ids.push(id);
        proof {
            assert(id_views(ids@) =~= id_views(ids0).push(visible@[i as int].spec_catalog_id()));
        }
        i += 1;
    }
    proof {
        assert(row_ids(visible@).take(i as int) =~= row_ids(visible@));
    }
    queue_from_ids(&ids, row, dead)
}

/// The same from ids. `None` stands for a row that is no song, so that
/// positions still line up with the list.
pub fn queue_from_ids(visible: &Vec<Option<String>>, row: usize, dead: &Vec<String>) -> (r: (
    Vec<String>,
    Option<String>,
))
    ensures
        text::views(r.0@) == queued(id_views(visible@), dead@),
        is_start(id_views(visible@), row as int, dead@, text::opt_view(r.1)),
{
    let ghost all = id_views(visible@);
    let mut songs: Vec<String> = Vec::new();
    let mut i: usize = 0;
    proof {
        assert(all.take(0) =~= Seq::<Option<Seq<char>>>::empty());
        assert(text::views(songs@) =~= queued(all.take(0), dead@));
    }
    while i < visible.len()
        invariant
            i <= visible@.len(),
            all == id_views(visible@),
            text::views(songs@) == queued(all.take(i as int), dead@),
        decreases visible@.len() - i,
    {
        proof {
            text::take_step(all, i as int);
            assert(all.take(i + 1).drop_last() =~= all.take(i as int));
            assert(all.take(i + 1).last() == all[i as int]);
        }
        if let Some(id) = &visible[i] {
            let ghost songs0 = songs@;
            let here = text::position(&songs, id.as_str());
            proof {
                let before = queued(all.take(i as int), dead@);
                if let Some(k) = here {
                    assert(before[k as int] == id@);
                    assert(before.contains(id@));
                } else if before.contains(id@) {
                    let k = choose|k: int| 0 <= k < before.len() && before[k] == id@;
                    assert(songs@[k]@ == id@);
                }
            }
            if !refused(dead, id.as_str()) && here.is_none() {
                songs.push(id.clone());
                proof {
                    assert(text::views(songs@) =~= text::views(songs0).push(id@));
                }
            }
        }
        i += 1;
    }
    proof {
        assert(all.take(i as int) =~= all);
    }
    let mut at: usize = row;
    while at < visible.len()
        invariant
            row <= at,
            all == id_views(visible@),
            text::views(songs@) == queued(all, dead@),
            forall|j: int| row <= j < at && j < all.len() ==> !streams(#[trigger] all[j], dead@),
        decreases visible@.len() - at,
    {
        if let Some(id) = &visible[at] {
            if !refused(dead, id.as_str()) {
                proof {
                    assert(all[at as int] == Some(id@));
                }
                return (songs, Some(id.clone()));
            }
        }
        proof {
            assert(!streams(all[at as int], dead@));
        }
        at += 1;
    }
    (songs, None)
}

/// A queue holds no id twice, no refused id, and every other id of the list.
pub proof fn a_queue_is_the_streaming_ids_once_each(
    visible: Seq<Option<Seq<char>>>,
    dead: Seq<String>,
)
    ensures
        queued(visible, dead).no_duplicates(),
        forall|id: Seq<char>| #[trigger]
            queued(visible, dead).contains(id) <==> visible.contains(Some(id)) && !is_dead(dead, id),
    decreases visible.len(),
{
    if visible.len() > 0 {
        let rest = visible.drop_last();
        a_queue_is_the_streaming_ids_once_each(rest, dead);
        let before = queued(rest, dead);
        let now = queued(visible, dead);
        assert(visible =~= rest.push(visible.last()));
        assert forall|id: Seq<char>| #[trigger]
            now.contains(id) <==> visible.contains(Some(id)) && !is_dead(dead, id) by {
            assert(visible.contains(Some(id)) <==> rest.contains(Some(id)) || visible.last()
                == Some(id)) by {
                if rest.contains(Some(id)) {
                    let k = choose|k: int| 0 <= k < rest.len() && rest[k] == Some(id);
                    assert(visible[k] == Some(id));
                }
                if visible.last() == Some(id) {
                    assert(visible[visible.len() - 1] == Some(id));
                }
                if visible.contains(Some(id)) {
                    let k = choose|k: int| 0 <= k < visible.len() && visible[k] == Some(id);
                    if k < rest.len() {
                        assert(rest[k] == Some(id));
                    }
                }
            }
            if now != before {
                let last = visible.last()->0;
                assert(now == before.push(last));
                assert(now[before.len() as int] == last);
                if before.contains(id) {
                    let k = choose|k: int| 0 <= k < before.len() && before[k] == id;
                    assert(now[k] == id);
                }
                if now.contains(id) && id != last {
                    let k = choose|k: int| 0 <= k < now.len() && now[k] == id;
                    assert(before[k] == id);
                }
            }
        }
        if now != before {
            let last = visible.last()->0;
            assert(now == before.push(last));
            assert forall|i: int, j: int| 0 <= i < now.len() && 0 <= j < now.len() && i
                != j implies now[i] != now[j] by {
                if i == before.len() {
                    assert(before[j] == now[j]);
                } else if j == before.len() {
                    assert(before[i] == now[i]);
                } else {
                    assert(before[i] == now[i] && before[j] == now[j]);
                }
            }
        }
    } else {
        assert(queued(visible, dead) =~= Seq::<Seq<char>>::empty());
    }
}

/// A queue keeps the list's order: of two of its ids, the one that comes first
/// in the queue has an occurrence in the list before every occurrence of the
/// other.
pub proof fn a_queue_keeps_the_order_of_the_list(
    visible: Seq<Option<Seq<char>>>,
    dead: Seq<String>,
    i: int,
    j: int,
)
    requires
        0 <= i < j < queued(visible, dead).len(),
    ensures
        exists|a: int|
            {
                &&& 0 <= a < visible.len()
                &&& #[trigger] visible[a] == Some(queued(visible, dead)[i])
                &&& forall|b: int|
                    0 <= b < visible.len() && #[trigger] visible[b] == Some(
                        queued(visible, dead)[j],
                    ) ==> a < b
            },
    decreases visible.len(),
{
    let rest = visible.drop_last();
    let before = queued(rest, dead);
    let now = queued(visible, dead);
    a_queue_is_the_streaming_ids_once_each(visible, dead);
    a_queue_is_the_streaming_ids_once_each(rest, dead);
    assert forall|k: int| 0 <= k < before.len() implies before[k] == now[k] by {}
    if j < before.len() {
        a_queue_keeps_the_order_of_the_list(rest, dead, i, j);
        let a = choose|a: int|
            {
                &&& 0 <= a < rest.len()
                &&& #[trigger] rest[a] == Some(before[i])
                &&& forall|b: int|
                    0 <= b < rest.len() && #[trigger] rest[b] == Some(before[j]) ==> a < b
            };
        assert(visible[a] == Some(now[i]));
        assert forall|b: int| 0 <= b < visible.len() && #[trigger] visible[b] == Some(
            now[j],
        ) implies a < b by {
            if b < rest.len() {
                assert(rest[b] == Some(before[j]));
            }
        }
    } else {
        // `j` is the one the last row added, so it occurs nowhere earlier.
        assert(before.contains(now[i])) by {
            assert(before[i] == now[i]);
        }
        assert(rest.contains(Some(now[i])));
        let a = choose|a: int| 0 <= a < rest.len() && rest[a] == Some(now[i]);
        assert(visible[a] == Some(now[i]));
        assert(!before.contains(now[j]));
        assert forall|b: int| 0 <= b < visible.len() && #[trigger] visible[b] == Some(
            now[j],
        ) implies a < b by {
            if b < rest.len() {
                assert(rest[b] == Some(now[j]));
                assert(rest.contains(Some(now[j])));
                assert(visible.last() == Some(now[j]));
                assert(now.contains(now[j]));
            }
        }
    }
}

/// A row that streams always names a track to start on, its own, and the queue
/// holds it.
pub proof fn a_playable_row_starts_itself(
    visible: Seq<Option<Seq<char>>>,
    row: int,
    dead: Seq<String>,
    start: Option<Seq<char>>,
)
    requires
        0 <= row < visible.len(),
        streams(visible[row], dead),
        is_start(visible, row, dead, start),
    ensures
        start == visible[row],
        queued(visible, dead).contains(start->0),
{
    a_queue_is_the_streaming_ids_once_each(visible, dead);
    if let Some(id) = start {
        let i = choose|i: int|
            {
                &&& row <= i < visible.len()
                &&& #[trigger] visible[i] == Some(id)
                &&& !is_dead(dead, id)
                &&& forall|j: int| row <= j < i ==> !streams(#[trigger] visible[j], dead)
            };
        assert(i == row);
        assert(visible.contains(Some(id)));
    }
}

/// The rows that hold a track that streams.
pub fn playable_rows(visible: &Vec<Entry>, dead: &Vec<String>) -> (r: Vec<usize>)
    ensures
        forall|i: int| 0 <= i < r@.len() ==> (#[trigger] r@[i]) < visible@.len(),
        forall|i: int, j: int| 0 <= i < j < r@.len() ==> #[trigger] r@[i] < #[trigger] r@[j],
        forall|row: int|
            0 <= row < visible@.len() ==> (streams(
                (#[trigger] visible@[row]).spec_catalog_id(),
                dead@,
            ) <==> exists|i: int| 0 <= i < r@.len() && #[trigger] r@[i] == row),
{
    let mut out: Vec<usize> = Vec::new();
    let mut row: usize = 0;
    while row < visible.len()
        invariant
            row <= visible@.len(),
            forall|i: int| 0 <= i < out@.len() ==> (#[trigger] out@[i]) < row,
            forall|i: int, j: int|
                0 <= i < j < out@.len() ==> #[trigger] out@[i] < #[trigger] out@[j],
            forall|k: int|
                0 <= k < row ==> (streams((#[trigger] visible@[k]).spec_catalog_id(), dead@)
                    <==> exists|i: int| 0 <= i < out@.len() && #[trigger] out@[i] == k),
        decreases visible@.len() - row,
    {
        let ghost out0 = out@;
        let alive = match visible[row].catalog_id() {
            Some(id) => !refused(dead, id),
            None => false,
        };
        if alive {
            out.push(row);
        }
        proof {
            assert forall|k: int| 0 <= k < row + 1 implies (streams(
                (#[trigger] visible@[k]).spec_catalog_id(),
                dead@,
            ) <==> exists|i: int| 0 <= i < out@.len() && #[trigger] out@[i] == k) by {
                if k < row {
                    if streams(visible@[k].spec_catalog_id(), dead@) {
                        let i = choose|i: int| 0 <= i < out0.len() && #[trigger] out0[i] == k;
                        assert(out@[i] == k);
                    }
                    if exists|i: int| 0 <= i < out@.len() && #[trigger] out@[i] == k {
                        let i = choose|i: int| 0 <= i < out@.len() && #[trigger] out@[i] == k;
                        assert(out0[i] == k);
                    }
                } else if alive {
                    assert(out@[out0.len() as int] == k);
                }
            }
        }
        row += 1;
    }
    out
}

/// The ids of a queue, where its items have one.
pub open spec fn item_ids(queue: Seq<Item>) -> Seq<Seq<char>>
    decreases queue.len(),
{
    if queue.len() == 0 {
        Seq::empty()
    } else {
        let before = item_ids(queue.drop_last());
        match queue.last().spec_song_id() {
            Some(id) => before.push(id),
            None => before,
        }
    }
}

/// Whether the engine is already holding exactly these songs, in any order.
pub open spec fn spec_holds(queue: Seq<Item>, songs: Seq<String>) -> bool {
    queue.len() == songs.len() && item_ids(queue).to_multiset() == text::views(
        songs,
    ).to_multiset()
}

/// Whether the engine is already holding exactly these songs. A shuffled queue
/// is still the same queue, so the order does not count.
pub fn holds(queue: &Vec<Item>, songs: &Vec<String>) -> (r: bool)
    ensures
        r == spec_holds(queue@, songs@),
{
    broadcast use vstd::multiset::group_multiset_axioms;
    broadcast use vstd::seq_lib::group_to_multiset_ensures;

    if queue.len() != songs.len() {
        return false;
    }
    let mut left: Vec<String> = Vec::new();
    let mut i: usize = 0;
    proof {
        assert(queue@.take(0) =~= Seq::<Item>::empty());
        assert(text::views(left@) =~= item_ids(queue@.take(0)));
    }
    while i < queue.len()
        invariant
            i <= queue@.len(),
            text::views(left@) == item_ids(queue@.take(i as int)),
        decreases queue@.len() - i,
    {
        proof {
            text::take_step(queue@, i as int);
            assert(queue@.take(i + 1).drop_last() =~= queue@.take(i as int));
        }
        if let Some(id) = queue[i].song_id() {
            let ghost left0 = left@;
            left.push(id.to_owned());
            proof {
                assert(text::views(left@) =~= text::views(left0).push(id@));
            }
        }
        i += 1;
    }
    let ghost theirs = item_ids(queue@).to_multiset();
    let ghost ours = text::views(songs@);
    let mut k: usize = 0;
    proof {
        assert(queue@.take(i as int) =~= queue@);
        assert(ours.take(0) =~= Seq::<Seq<char>>::empty());
        assert(text::views(left@).to_multiset().add(ours.take(0).to_multiset()) =~= theirs);
    }
    while k < songs.len()
        invariant
            k <= songs@.len(),
            ours == text::views(songs@),
            theirs == item_ids(queue@).to_multiset(),
            text::views(left@).to_multiset().add(ours.take(k as int).to_multiset()) =~= theirs,
        decreases songs@.len() - k,
    {
        broadcast use vstd::multiset::group_multiset_axioms;
        broadcast use vstd::seq_lib::group_to_multiset_ensures;

        proof {
            text::take_step(ours, k as int);
            vstd::seq_lib::to_multiset_build(ours.take(k as int), ours[k as int]);
        }
        match text::position(&left, songs[k].as_str()) {
            Some(at) => {
                let ghost left0 = left@;
                let gone = left.remove(at);
                proof {
                    assert(text::views(left@) =~= text::views(left0).remove(at as int));
                    vstd::seq_lib::to_multiset_remove(text::views(left0), at as int);
                    assert(text::views(left0)[at as int] == ours[k as int]);
                    assert(text::views(left0).contains(ours[k as int]));
                    assert(text::views(left@).to_multiset().add(ours.take(k + 1).to_multiset())
                        =~= theirs);
                }
            },
            None => {
                proof {
                    assert(!text::views(left@).contains(ours[k as int]));
                    assert(text::views(left@).to_multiset().count(ours[k as int]) == 0);
                    if theirs == ours.to_multiset() {
                        // Every song up to this one was found and taken out, so
                        // they hold it less often than we do.
                        assert(ours =~= ours.take(k + 1) + ours.skip(k + 1));
                        vstd::seq_lib::lemma_multiset_commutative(ours.take(k + 1), ours.skip(k + 1));
                        assert(ours.to_multiset().count(ours[k as int]) >= ours.take(
                            k + 1,
                        ).to_multiset().count(ours[k as int]));
                        assert(ours.take(k + 1).to_multiset().count(ours[k as int]) == ours.take(
                            k as int,
                        ).to_multiset().count(ours[k as int]) + 1);
                        assert(false);
                    }
                }
                return false;
            },
        }
        k += 1;
    }
    proof {
        assert(ours.take(k as int) =~= ours);
        if left@.len() == 0 {
            assert(text::views(left@) =~= Seq::<Seq<char>>::empty());
            assert(theirs =~= ours.to_multiset());
        } else {
            assert(text::views(left@).to_multiset().len() == left@.len());
            assert(theirs.len() == text::views(left@).to_multiset().len()
                + ours.to_multiset().len());
        }
    }
    left.is_empty()
}

/// Two queues of the same songs are held alike, whatever their orders.
pub proof fn shuffling_does_not_change_what_is_held(
    a: Seq<Item>,
    b: Seq<Item>,
    songs: Seq<String>,
)
    requires
        a.len() == b.len(),
        item_ids(a).to_multiset() == item_ids(b).to_multiset(),
    ensures
        spec_holds(a, songs) == spec_holds(b, songs),
{
}

/// Whether a queue starts at `r`: where the track to start on first stands, or
/// at the top.
pub open spec fn is_start_index(songs: Seq<String>, start_id: Option<&String>, r: int) -> bool {
    match start_id {
        Some(id) => {
            let here = |s: String| s@ == id@;
            if text::nowhere(songs, here) {
                r == 0
            } else {
                text::is_first(songs, here, r)
            }
        },
        None => r == 0,
    }
}

/// Where the track to start on sits in a queue; the top where it is not named
/// or not there.
pub fn start_index(songs: &Vec<String>, start_id: Option<&String>) -> (r: usize)
    ensures
        match start_id {
            Some(id) => {
                let here = |s: String| s@ == id@;
                if text::nowhere(songs@, here) {
                    r == 0
                } else {
                    text::is_first(songs@, here, r as int)
                }
            },
            None => r == 0,
        },
        is_start_index(songs@, start_id, r as int),
{
    match start_id {
        Some(id) => match text::position(songs, id.as_str()) {
            Some(i) => {
                proof {
                    let here = |s: String| s@ == id@;
                    assert(here(songs@[i as int]));
                }
                i
            },
            None => 0,
        },
        None => 0,
    }
}

/// Who asked for a queue, which decides the mode it is created in.
#[derive(Debug, Clone, Copy, PartialEq, Eq, Structural)]
pub enum Start {
    /// A click on a row: this list, from here.
    Clicked,
    /// This list, in order, whatever was on before.
    InOrder,
    /// This list, shuffled.
    Shuffled,
}

impl Start {
    /// The shuffle mode that is stated, if one is.
    pub open spec fn spec_mode(self, creating: bool) -> Option<bool> {
        match self {
            Start::Clicked => if creating {
                Some(false)
            } else {
                None
            },
            Start::InOrder => Some(false),
            Start::Shuffled => Some(true),
        }
    }

    /// The shuffle mode to state, or `None` to leave the player's alone. A
    /// click only states one when it creates a queue.
    pub fn mode(self, creating: bool) -> (r: Option<bool>)
        ensures
            r == match self {
                Start::Clicked => if creating {
                    Some(false)
                } else {
                    None
                },
                Start::InOrder => Some(false),
                Start::Shuffled => Some(true),
            },
            r == self.spec_mode(creating),
    {
        match self {
            Start::Clicked => if creating {
                Some(false)
            } else {
                None
            },
            Start::InOrder => Some(false),
            Start::Shuffled => Some(true),
        }
    }

    /// Whether the queue comes back in another order than the list's.
    pub fn reorders(self) -> (r: bool)
        ensures
            r == (self is Shuffled),
    {
        matches!(self, Start::Shuffled)
    }
}

/// Whether an item goes by `id`.
pub open spec fn goes_by(item: Item, id: Seq<char>) -> bool {
    text::opt_view(item.catalog_id) == Some(id) || text::opt_view(item.id) == Some(id)
}

fn is_it(item: &Item, id: &str) -> (r: bool)
    ensures
        r == goes_by(*item, id@),
{
    let by_catalog = match &item.catalog_id {
        Some(c) => text::same(c.as_str(), id),
        None => false,
    };
    let by_own = match &item.id {
        Some(c) => text::same(c.as_str(), id),
        None => false,
    };
    by_catalog || by_own
}

/// Whether a clicked row is at `r`.
pub open spec fn is_index_at(queue: Seq<Item>, at: int, id: Seq<char>, r: Option<usize>) -> bool {
    if 0 <= at < queue.len() && goes_by(queue[at], id) {
        r matches Some(i) && i == at
    } else {
        match r {
            Some(i) => text::is_first(queue, |item: Item| goes_by(item, id), i as int),
            None => text::nowhere(queue, |item: Item| goes_by(item, id)),
        }
    }
}

/// Where a clicked row is: at the position it was clicked at if the item there
/// goes by its id, else at the first item that does.
pub fn index_at(queue: &Vec<Item>, at: usize, id: &str) -> (r: Option<usize>)
    ensures
        if at < queue@.len() && goes_by(queue@[at as int], id@) {
            r == Some(at)
        } else {
            match r {
                Some(i) => text::is_first(queue@, |item: Item| goes_by(item, id@), i as int),
                None => text::nowhere(queue@, |item: Item| goes_by(item, id@)),
            }
        },
        is_index_at(queue@, at as int, id@, r),
{
    if at < queue.len() && is_it(&queue[at], id) {
        return Some(at);
    }
    let mut i: usize = 0;
    while i < queue.len()
        invariant
            i <= queue@.len(),
            !(at < queue@.len() && goes_by(queue@[at as int], id@)),
            forall|j: int| 0 <= j < i ==> !goes_by(#[trigger] queue@[j], id@),
        decreases queue@.len() - i,
    {
        if is_it(&queue[i], id) {
            return Some(i);
        }
        i += 1;
    }
    None
}

/// Runs of digits are cut at what is no digit: what stands behind it begins a
/// new run, and digits alone are one run.
pub proof fn runs_are_cut_at_what_is_no_digit(a: Seq<char>, c: char, d: Seq<char>)
    requires
        !('0' <= c <= '9'),
        forall|i: int| 0 <= i < d.len() ==> '0' <= #[trigger] d[i] <= '9',
    ensures
        digit_runs(d) == seq![d],
        digit_runs(a.push(c) + d) == digit_runs(a).push(d),
    decreases d.len(),
{
    if d.len() == 0 {
        assert(d =~= Seq::<char>::empty());
        assert(a.push(c) + d =~= a.push(c));
        assert(a.push(c).drop_last() =~= a);
    } else {
        let rest = d.drop_last();
        assert forall|i: int| 0 <= i < rest.len() implies '0' <= #[trigger] rest[i] <= '9' by {
            assert(rest[i] == d[i]);
        }
        runs_are_cut_at_what_is_no_digit(a, c, rest);
        assert(is_digit(d.last())) by {
            assert(d.last() == d[d.len() - 1]);
        }
        let s = a.push(c) + d;
        assert(s.drop_last() =~= a.push(c) + rest);
        assert(s.last() == d.last());
        assert(rest.push(d.last()) =~= d);
        assert(seq![rest].drop_last().push(d) =~= seq![d]);
        assert(digit_runs(a).push(rest).drop_last() =~= digit_runs(a));
    }
}

/// Nothing shorter than six digits is taken for an id, and nothing but digits.
pub proof fn an_id_that_is_refused_has_six_digits(detail: Seq<char>, ids: Seq<Seq<char>>, i: int)
    requires
        is_unresolvable(detail, ids),
        0 <= i < ids.len(),
    ensures
        ids[i].len() >= 6,
        forall|k: int| 0 <= k < ids[i].len() ==> '0' <= #[trigger] ids[i][k] <= '9',
        text::occurs(detail, "could not be resolved"@),
{
    broadcast use vstd::seq_lib::group_filter_ensures;

    let marker = "could not be resolved"@;
    let at = choose|at: int| #[trigger]
        text::first_at(detail, marker, 0, at) && ids == digit_runs(
            detail.skip(at + marker.len()),
        ).filter(|run: Seq<char>| run.len() >= 6);
    let runs = digit_runs(detail.skip(at + marker.len()));
    let long = |run: Seq<char>| run.len() >= 6;
    assert(runs.filter(long).contains(ids[i]));
    runs.lemma_filter_contains_rev(long, ids[i]);
    runs_are_digits(detail.skip(at + marker.len()));
    let k = choose|k: int| 0 <= k < runs.len() && runs[k] == ids[i];
    assert(all_digits(runs[k]));
    assert(long(runs.filter(long)[i]));
}

/// Whether a text is digits alone.
pub open spec fn all_digits(s: Seq<char>) -> bool {
    forall|k: int| 0 <= k < s.len() ==> '0' <= #[trigger] s[k] <= '9'
}

proof fn runs_are_digits(s: Seq<char>)
    ensures
        digit_runs(s).len() > 0,
        forall|i: int| 0 <= i < digit_runs(s).len() ==> all_digits(#[trigger] digit_runs(s)[i]),
    decreases s.len(),
{
    if s.len() > 0 {
        let before = digit_runs(s.drop_last());
        runs_are_digits(s.drop_last());
        assert(all_digits(before[before.len() - 1]));
        let r = digit_runs(s);
        assert forall|i: int| 0 <= i < r.len() implies all_digits(#[trigger] r[i]) by {
            if i < before.len() - 1 {
                assert(r[i] == before[i]);
            }
        }
    }
}

/// A row that does not stream starts what the row below it would.
pub proof fn a_row_that_does_not_stream_starts_the_next(
    visible: Seq<Option<Seq<char>>>,
    row: int,
    dead: Seq<String>,
    start: Option<Seq<char>>,
)
    requires
        0 <= row < visible.len(),
        visible[row] is None || is_dead(dead, visible[row]->0),
    ensures
        is_start(visible, row, dead, start) == is_start(visible, row + 1, dead, start),
{
    assert(!streams(visible[row], dead));
    if is_start(visible, row, dead, start) && start is Some {
        let i = choose|i: int|
            {
                &&& row <= i < visible.len()
                &&& #[trigger] visible[i] == Some(start->0)
                &&& !is_dead(dead, start->0)
                &&& forall|j: int| row <= j < i ==> !streams(#[trigger] visible[j], dead)
            };
        assert(i != row);
        assert(visible[i] == Some(start->0));
    }
    if is_start(visible, row + 1, dead, start) && start is Some {
        let i = choose|i: int|
            {
                &&& row + 1 <= i < visible.len()
                &&& #[trigger] visible[i] == Some(start->0)
                &&& !is_dead(dead, start->0)
                &&& forall|j: int| row + 1 <= j < i ==> !streams(#[trigger] visible[j], dead)
            };
        assert(visible[i] == Some(start->0));
    }
}

/// A queue starts on the track that is named where it is there, at the first
/// place that it has, and at the top otherwise.
pub proof fn a_queue_starts_on_the_named_track(songs: Seq<String>, id: String, r: int, k: int)
    requires
        0 <= k < songs.len(),
        is_start_index(songs, Some(&id), r),
    ensures
        songs[k]@ == id@ ==> 0 <= r <= k && songs[r]@ == id@,
        (forall|j: int| 0 <= j < songs.len() ==> (#[trigger] songs[j])@ != id@) ==> r == 0,
        is_start_index(songs, None, 0),
{
    let here = |s: String| s@ == id@;
    if songs[k]@ == id@ {
        assert(here(songs[k]));
        assert(!text::nowhere(songs, here));
    }
    if (forall|j: int| 0 <= j < songs.len() ==> (#[trigger] songs[j])@ != id@) {
        assert(text::nowhere(songs, here));
    }
}

/// A click leaves the mode of a queue that is there alone; who asks for an order
/// or a shuffle gets it either way.
pub proof fn a_click_leaves_the_mode_alone(creating: bool)
    ensures
        Start::Clicked.spec_mode(false) is None,
        Start::Clicked.spec_mode(true) == Some(false),
        Start::InOrder.spec_mode(creating) == Some(false),
        Start::Shuffled.spec_mode(creating) == Some(true),
{
}

/// A clicked row is an item that goes by its id: the one that was clicked where
/// that does, and none only where no item does.
pub proof fn a_clicked_row_goes_by_its_id(
    queue: Seq<Item>,
    at: int,
    id: Seq<char>,
    r: Option<usize>,
    k: int,
)
    requires
        is_index_at(queue, at, id, r),
        0 <= k < queue.len(),
    ensures
        r matches Some(i) ==> i < queue.len() && goes_by(queue[i as int], id),
        0 <= at < queue.len() && goes_by(queue[at], id) ==> r == Some(at as usize),
        goes_by(queue[k], id) ==> r is Some,
        text::opt_view(queue[k].catalog_id) == Some(id) ==> r is Some,
        text::opt_view(queue[k].id) == Some(id) ==> r is Some,
{
    let p = |item: Item| goes_by(item, id);
    if goes_by(queue[k], id) {
        assert(p(queue[k]));
    }
}

/// A queue that holds the songs as they are holds them; one with a song more or
/// less does not.
pub proof fn a_queue_of_the_songs_holds_them(queue: Seq<Item>, songs: Seq<String>)
    ensures
        queue.len() == songs.len() && (forall|i: int|
            0 <= i < queue.len() ==> (#[trigger] queue[i]).spec_song_id() == Some(songs[i]@))
            ==> spec_holds(queue, songs),
        queue.len() != songs.len() ==> !spec_holds(queue, songs),
        spec_holds(queue, songs) ==> forall|i: int|
            0 <= i < songs.len() ==> item_ids(queue).contains((#[trigger] songs[i])@),
{
    broadcast use vstd::seq_lib::group_to_multiset_ensures;

    if queue.len() == songs.len() && (forall|i: int|
        0 <= i < queue.len() ==> (#[trigger] queue[i]).spec_song_id() == Some(songs[i]@)) {
        ids_one_by_one(queue, songs);
    }
    if spec_holds(queue, songs) {
        assert forall|i: int| 0 <= i < songs.len() implies item_ids(queue).contains(
            (#[trigger] songs[i])@,
        ) by {
            let ours = text::views(songs);
            assert(ours[i] == songs[i]@);
            assert(ours.contains(songs[i]@));
            assert(ours.to_multiset().count(songs[i]@) > 0);
            assert(item_ids(queue).to_multiset().count(songs[i]@) > 0);
        }
    }
}

proof fn ids_one_by_one(queue: Seq<Item>, songs: Seq<String>)
    requires
        queue.len() == songs.len(),
        forall|i: int|
            0 <= i < queue.len() ==> (#[trigger] queue[i]).spec_song_id() == Some(songs[i]@),
    ensures
        item_ids(queue) == text::views(songs),
    decreases queue.len(),
{
    if queue.len() == 0 {
        assert(text::views(songs) =~= Seq::<Seq<char>>::empty());
    } else {
        let q = queue.drop_last();
        let s = songs.drop_last();
        assert forall|i: int| 0 <= i < q.len() implies (#[trigger] q[i]).spec_song_id() == Some(
            s[i]@,
        ) by {
            assert(q[i] == queue[i] && s[i] == songs[i]);
        }
        ids_one_by_one(q, s);
        assert(queue.last() == queue[queue.len() - 1]);
        assert(text::views(songs) =~= text::views(s).push(songs.last()@));
    }
}

/// A row streams by the id that it has in the catalogue, at its own place.
pub proof fn a_row_streams_by_its_own_id(visible: Seq<Entry>, i: int)
    requires
        0 <= i < visible.len(),
    ensures
        row_ids(visible).len() == visible.len(),
        visible[i] matches Entry::Song(t) ==> row_ids(visible)[i] == text::opt_view(t.catalog_id),
        !(visible[i] is Song) ==> row_ids(visible)[i] is None,
{
}

} // verus!
