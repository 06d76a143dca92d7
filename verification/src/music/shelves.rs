//! The page to begin with, as Apple Music fills it: stubs made into rows, and
//! rows put on shelves.
use vstd::prelude::*;

use crate::catalog::at_most;
use crate::discover::Discover;
use crate::entry::{Entry, EntryView};
use crate::json::{self, Json};
use crate::music::mixed::{self, is_library_id, looks_library_id, Typed, TypedResource};
use crate::music::types::{seen, Track};
use crate::text;

verus! {

/// The ids of the library among ids, or those of the catalogue.
pub fn partition(ids: &Vec<String>, library: bool) -> (r: Vec<String>)
    ensures
        r@ == ids@.filter(|s: String| is_library_id(s@) == library),
{
    let ghost f = |s: String| is_library_id(s@) == library;
    let mut out: Vec<String> = Vec::new();
    let mut i: usize = 0;
    proof {
        reveal(Seq::filter);
        assert(ids@.take(0) =~= Seq::<String>::empty());
    }
    while i < ids.len()
        invariant
            i <= ids@.len(),
            f == (|s: String| is_library_id(s@) == library),
            out@ =~= ids@.take(i as int).filter(f),
        decreases ids@.len() - i,
    {
        proof {
            text::filter_step(ids@, f, i as int);
        }
        if looks_library_id(ids[i].as_str()) == library {
            out.push(ids[i].clone());
        }
        i += 1;
    }
    assert(ids@.take(i as int) =~= ids@);
    out
}

/// Where things of a collection are asked for, `n` of them with each path.
pub open spec fn chunked(
    head: Seq<char>,
    ids: Seq<Seq<char>>,
    tail: Seq<char>,
    n: int,
) -> Seq<Seq<char>>
    decreases ids.len(),
{
    if ids.len() == 0 || n <= 0 {
        Seq::empty()
    } else if ids.len() <= n {
        seq![head + text::joined(ids, ","@) + tail]
    } else {
        seq![head + text::joined(ids.take(n), ","@) + tail] + chunked(head, ids.skip(n), tail, n)
    }
}

fn chunk(head: &str, ids: &Vec<String>, tail: &str, n: usize) -> (r: Vec<String>)
    requires
        n > 0,
    ensures
        text::views(r@) == chunked(head@, text::views(ids@), tail@, n as int),
{
    let ghost all = text::views(ids@);
    let mut out: Vec<String> = Vec::new();
    let mut i: usize = 0;
    proof {
        assert(all.skip(0) =~= all);
        assert(text::views(out@) + chunked(head@, all, tail@, n as int) =~= chunked(
            head@,
            all,
            tail@,
            n as int,
        ));
    }
    while i < ids.len()
        invariant
            i <= ids@.len(),
            n > 0,
            all == text::views(ids@),
            text::views(out@) + chunked(head@, all.skip(i as int), tail@, n as int) == chunked(
                head@,
                all,
                tail@,
                n as int,
            ),
        decreases ids@.len() - i,
    {
        let end: usize = if ids.len() - i <= n {
            ids.len()
        } else {
            i + n
        };
        let mut part: Vec<String> = Vec::new();
        let mut k: usize = i;
        while k < end
            invariant
                i <= k <= end <= ids@.len(),
                text::views(part@) =~= text::views(ids@).subrange(i as int, k as int),
            decreases end - k,
        {
            let ghost part0 = part@;
            part.push(ids[k].clone());
            proof {
                assert(text::views(part@) =~= text::views(part0).push(ids@[k as int]@));
                assert(text::views(ids@)[k as int] == ids@[k as int]@);
            }
            k += 1;
        }
        let mut path = head.to_owned();
        path.append(text::join(&part, ",").as_str());
        path.append(tail);
        let ghost out0 = out@;
        out.push(path);
        proof {
            let rest = all.skip(i as int);
            assert(text::views(out@) =~= text::views(out0).push(path@));
            if rest.len() <= n {
                assert(rest =~= all.subrange(i as int, end as int));
                assert(all.skip(end as int) =~= Seq::<Seq<char>>::empty());
                assert(text::views(out@) + Seq::<Seq<char>>::empty() =~= text::views(out0) + seq![
                    path@,
                ]);
            } else {
                assert(rest.take(n as int) =~= all.subrange(i as int, end as int));
                assert(rest.skip(n as int) =~= all.skip(end as int));
                let more = chunked(head@, all.skip(end as int), tail@, n as int);
                assert(text::views(out@) + more =~= text::views(out0) + (seq![path@] + more));
            }
        }
        i = end;
    }
    proof {
        assert(all.skip(i as int) =~= Seq::<Seq<char>>::empty());
        assert(text::views(out@) + Seq::<Seq<char>>::empty() =~= text::views(out@));
    }
    out
}

/// Where things of a collection are asked for by their ids, twenty-five with
/// each path.
pub fn id_paths(storefront: &str, catalog: bool, collection: &str, ids: &Vec<String>) -> (r: Vec<
    String,
>)
    ensures
        text::views(r@) == chunked(
            if catalog {
                "/catalog/"@ + storefront@ + "/"@ + collection@ + "?ids="@
            } else {
                "/me/library/"@ + collection@ + "?ids="@
            },
            text::views(ids@),
            ""@,
            25,
        ),
{
    let mut head = String::new();
    if catalog {
        head.append("/catalog/");
        head.append(storefront);
        head.append("/");
    } else {
        head.append("/me/library/");
    }
    head.append(collection);
    head.append("?ids=");
    proof {
        assert(catalog ==> head@ =~= "/catalog/"@ + storefront@ + "/"@ + collection@ + "?ids="@);
        assert(!catalog ==> head@ =~= "/me/library/"@ + collection@ + "?ids="@);
    }
    chunk(head.as_str(), ids, "", 25)
}

/// Where the songs among these that are in the library are asked for, a hundred
/// with each path.
pub fn membership_paths(storefront: &str, ids: &Vec<String>) -> (r: Vec<String>)
    ensures
        text::views(r@) == chunked(
            "/catalog/"@ + storefront@ + "/songs?ids="@,
            text::views(ids@),
            "&include=library"@,
            100,
        ),
{
    let mut head = "/catalog/".to_owned();
    head.append(storefront);
    head.append("/songs?ids=");
    chunk(head.as_str(), ids, "&include=library", 100)
}

/// Rows under the ids that they are known by.
#[derive(Debug)]
pub struct Hydrated {
    pub rows: Vec<(String, Entry)>,
}

/// The row that is known by an id: the last that was put there.
pub open spec fn known(rows: Seq<(String, Entry)>, id: Seq<char>) -> Option<Entry>
    decreases rows.len(),
{
    if rows.len() == 0 {
        None
    } else if rows.last().0@ == id {
        Some(rows.last().1)
    } else {
        known(rows.drop_last(), id)
    }
}

/// Whether a row is known by an id: a song by each of its ids, anything else by
/// its own.
pub open spec fn answers_to(e: Entry, id: Seq<char>) -> bool {
    match e {
        Entry::Song(t) => t.id.0@ == id || text::opt_view(t.catalog_id) == Some(id)
            || text::opt_view(t.library_id) == Some(id),
        Entry::Album(a) => a.id@ == id,
        Entry::Playlist(p) => p.id@ == id,
        Entry::Artist(a) => a.id@ == id,
    }
}

proof fn known_after_push(rows: Seq<(String, Entry)>, p: (String, Entry), id: Seq<char>)
    ensures
        known(rows.push(p), id) == if p.0@ == id {
            Some(p.1)
        } else {
            known(rows, id)
        },
{
    assert(rows.push(p).drop_last() =~= rows);
}

impl Hydrated {
    pub fn new() -> (r: Self)
        ensures
            r.rows@.len() == 0,
    {
        Hydrated { rows: Vec::new() }
    }

    fn put(&mut self, id: &String, entry: &Entry)
        ensures
            forall|i: Seq<char>| #[trigger]
                known(final(self).rows@, i) == if i == id@ {
                    Some(*entry)
                } else {
                    known(old(self).rows@, i)
                },
    {
        let ghost before = self.rows@;
        let pair = (id.clone(), entry.clone());
        self.rows.push(pair);
        assert forall|i: Seq<char>| #[trigger]
            known(self.rows@, i) == if i == id@ {
                Some(*entry)
            } else {
                known(before, i)
            } by {
            known_after_push(before, pair, i);
        }
    }

    /// Put a row under the ids that it is known by.
    pub fn index_hydrated(&mut self, entry: &Entry)
        ensures
            forall|id: Seq<char>| #[trigger]
                known(final(self).rows@, id) == if answers_to(*entry, id) {
                    Some(*entry)
                } else {
                    known(old(self).rows@, id)
                },
    {
        match entry {
            Entry::Song(t) => {
                self.put(&t.id.0, entry);
                if let Some(c) = &t.catalog_id {
                    self.put(c, entry);
                }
                if let Some(l) = &t.library_id {
                    self.put(l, entry);
                }
            },
            Entry::Album(a) => self.put(&a.id, entry),
            Entry::Playlist(p) => self.put(&p.id, entry),
            Entry::Artist(a) => self.put(&a.id, entry),
        }
    }

    /// The row that is known by an id.
    pub fn get(&self, id: &str) -> (r: Option<&Entry>)
        ensures
            match r {
                Some(e) => known(self.rows@, id@) == Some(*e),
                None => known(self.rows@, id@) is None,
            },
    {
        let mut i: usize = self.rows.len();
        assert(self.rows@.take(i as int) =~= self.rows@);
        while i > 0
            invariant
                i <= self.rows@.len(),
                known(self.rows@, id@) == known(self.rows@.take(i as int), id@),
            decreases i,
        {
            proof {
                text::take_step(self.rows@, i - 1);
                assert(self.rows@.take(i as int).drop_last() =~= self.rows@.take(i - 1));
                assert(self.rows@.take(i as int).last() == self.rows@[i - 1]);
            }
            if text::same(self.rows[i - 1].0.as_str(), id) {
                return Some(&self.rows[i - 1].1);
            }
            i -= 1;
        }
        None
    }
}

/// The row that a resource is, else the one that was asked for under its id;
/// neither without a title.
pub open spec fn hydrated_in(t: Typed, rows: Seq<(String, Entry)>) -> Option<EntryView> {
    match mixed::entry_in(t) {
        Some(e) if e.title().len() > 0 => Some(e),
        _ => match known(rows, t.id) {
            Some(e) => if e@.title().len() > 0 {
                Some(e@)
            } else {
                None
            },
            None => None,
        },
    }
}

/// Whether a resource is a stub of something that can be asked for by its id.
pub open spec fn is_stub(t: Typed) -> bool {
    ||| mixed::stub_of(t, "songs"@, "library-songs"@) is Some
    ||| mixed::stub_of(t, "albums"@, "library-albums"@) is Some
    ||| mixed::stub_of(t, "playlists"@, "library-playlists"@) is Some
}

/// Whether there is a stub among resources.
pub open spec fn any_stub(list: Seq<Typed>) -> bool {
    exists|i: int| 0 <= i < list.len() && is_stub(#[trigger] list[i])
}

/// The rows that resources are. Where none is a stub they stand as they are,
/// else only those with a title do.
pub open spec fn hydrated(list: Seq<Typed>, rows: Seq<(String, Entry)>) -> Seq<EntryView> {
    if any_stub(list) {
        json::chosen(list, |t: Typed| hydrated_in(t, rows))
    } else {
        json::chosen(list, |t: Typed| mixed::entry_in(t))
    }
}

/// Whether a resource is a stub of something that can be asked for.
fn has_stub(list: &Vec<TypedResource<'_>>) -> (r: bool)
    ensures
        r == any_stub(seen(list@)),
{
    let ghost all = seen(list@);
    let mut i: usize = 0;
    while i < list.len()
        invariant
            i <= list@.len(),
            all == seen(list@),
            forall|j: int| 0 <= j < i ==> !is_stub(#[trigger] all[j]),
        decreases list@.len() - i,
    {
        let t = &list[i];
        assert(all[i as int] == t@);
        if t.attributes.is_none() && (text::same(t.kind, "songs") || text::same(
            t.kind,
            "library-songs",
        ) || text::same(t.kind, "albums") || text::same(t.kind, "library-albums") || text::same(
            t.kind,
            "playlists",
        ) || text::same(t.kind, "library-playlists")) {
            assert(is_stub(all[i as int]));
            return true;
        }
        i += 1;
    }
    false
}

/// The rows that resources are, stubs by what was asked for under their ids.
pub fn hydrate_typed(list: &Vec<TypedResource<'_>>, by_id: &Hydrated) -> (r: Vec<Entry>)
    ensures
        seen(r@) == hydrated(seen(list@), by_id.rows@),
{
    if !has_stub(list) {
        return mixed::entries_from_list(list);
    }
    let ghost g = |t: Typed| hydrated_in(t, by_id.rows@);
    let ghost all = seen(list@);
    let mut out: Vec<Entry> = Vec::new();
    let mut i: usize = 0;
    proof {
        json::chosen_of_none(all, g);
        assert(seen(out@) =~= Seq::<EntryView>::empty());
    }
    while i < list.len()
        invariant
            i <= list@.len(),
            all == seen(list@),
            g == (|t: Typed| hydrated_in(t, by_id.rows@)),
            seen(out@) == json::chosen(all.take(i as int), g),
        decreases list@.len() - i,
    {
        let t = &list[i];
        proof {
            json::chosen_step(all, g, i as int);
            assert(all[i as int] == t@);
        }
        let own = match t.into_entry() {
            Some(e) => if e.title().is_empty() {
                None
            } else {
                Some(e)
            },
            None => None,
        };
        let row = match own {
            Some(e) => Some(e),
            None => match by_id.get(t.id) {
                Some(e) => if e.title().is_empty() {
                    None
                } else {
                    Some(e.clone())
                },
                None => None,
            },
        };
        if let Some(e) = row {
            let ghost out0 = out@;
            out.push(e);
            assert(seen(out@) =~= seen(out0).push(e@));
        }
        i += 1;
    }
    proof {
        json::chosen_of_none(all, g);
    }
    out
}

/// A stub is never lost for want of a row of its own: where something with a
/// title is known by its id, it is the row.
pub proof fn a_known_stub_is_a_row(t: Typed, rows: Seq<(String, Entry)>)
    requires
        is_stub(t),
    ensures
        match known(rows, t.id) {
            Some(e) => hydrated_in(t, rows) == if e@.title().len() > 0 {
                Some(e@)
            } else {
                None
            },
            None => hydrated_in(t, rows) is None,
        },
{
}

/// Whether a row of this id is there.
pub open spec fn has_row(rows: Seq<Entry>, id: Seq<char>) -> bool {
    exists|i: int| 0 <= i < rows.len() && (#[trigger] rows[i]).spec_id() == id
}

fn holds_row(rows: &Vec<Entry>, id: &str) -> (r: bool)
    ensures
        r == has_row(rows@, id@),
{
    let mut i: usize = 0;
    while i < rows.len()
        invariant
            i <= rows@.len(),
            forall|j: int| 0 <= j < i ==> (#[trigger] rows@[j]).spec_id() != id@,
        decreases rows@.len() - i,
    {
        if text::same(rows[i].id(), id) {
            return true;
        }
        i += 1;
    }
    false
}

/// Rows, with those behind them whose id is not there yet; only those with a
/// title, if `titled`.
pub open spec fn with_new(into: Seq<Entry>, more: Seq<Entry>, titled: bool) -> Seq<Entry>
    decreases more.len(),
{
    if more.len() == 0 {
        into
    } else {
        let r = with_new(into, more.drop_last(), titled);
        let e = more.last();
        if (titled && e.spec_title().len() == 0) || has_row(r, e.spec_id()) {
            r
        } else {
            r.push(e)
        }
    }
}

/// Put rows behind others, those whose id is not there yet.
pub fn add_new(into: &mut Vec<Entry>, more: &Vec<Entry>, titled: bool)
    ensures
        final(into)@ == with_new(old(into)@, more@, titled),
{
    let ghost before = into@;
    let mut i: usize = 0;
    assert(more@.take(0) =~= Seq::<Entry>::empty());
    while i < more.len()
        invariant
            i <= more@.len(),
            into@ == with_new(before, more@.take(i as int), titled),
        decreases more@.len() - i,
    {
        proof {
            text::take_step(more@, i as int);
            assert(more@.take(i + 1).drop_last() =~= more@.take(i as int));
        }
        let skip = titled && more[i].title().is_empty();
        if !skip && !holds_row(into, more[i].id()) {
            into.push(more[i].clone());
        }
        i += 1;
    }
    assert(more@.take(i as int) =~= more@);
}

/// What is added has an id that was not there, each once, and a title where one
/// is asked for; what was there stays in front.
pub proof fn what_is_added_is_new(into: Seq<Entry>, more: Seq<Entry>, titled: bool)
    ensures
        titled ==> forall|i: int|
            into.len() <= i < with_new(into, more, titled).len() ==> (#[trigger] with_new(
                into,
                more,
                titled,
            )[i]).spec_title().len() > 0,
        into.len() <= with_new(into, more, titled).len(),
        with_new(into, more, titled).take(into.len() as int) == into,
        forall|i: int, j: int|
            0 <= i < j < with_new(into, more, titled).len() && j >= into.len() ==> (
            #[trigger] with_new(into, more, titled)[i]).spec_id() != (
            #[trigger] with_new(into, more, titled)[j]).spec_id(),
    decreases more.len(),
{
    if more.len() == 0 {
        assert(with_new(into, more, titled).take(into.len() as int) =~= into);
    } else {
        let rest = more.drop_last();
        what_is_added_is_new(into, rest, titled);
        let kept = with_new(into, rest, titled);
        let all = with_new(into, more, titled);
        assert(all.take(into.len() as int) =~= kept.take(into.len() as int));
        if titled {
            assert forall|i: int| into.len() <= i < all.len() implies (
            #[trigger] all[i]).spec_title().len() > 0 by {
                if i < kept.len() {
                    assert(all[i] == kept[i]);
                }
            }
        }
        assert forall|i: int, j: int| 0 <= i < j < all.len() && j >= into.len() implies (
        #[trigger] all[i]).spec_id() != (#[trigger] all[j]).spec_id() by {
            assert(all[i] == kept[i]);
            if j < kept.len() {
                assert(all[j] == kept[j]);
            }
        }
    }
}

/// Whether a song with the same ids is there.
pub open spec fn has_song(songs: Seq<Track>, t: Track) -> bool {
    exists|i: int|
        0 <= i < songs.len() && text::opt_view((#[trigger] songs[i]).catalog_id) == text::opt_view(
            t.catalog_id,
        ) && songs[i].id.0@ == t.id.0@
}

fn holds_song(songs: &Vec<Track>, t: &Track) -> (r: bool)
    ensures
        r == has_song(songs@, *t),
{
    let mut i: usize = 0;
    while i < songs.len()
        invariant
            i <= songs@.len(),
            forall|j: int|
                0 <= j < i ==> !(text::opt_view((#[trigger] songs@[j]).catalog_id)
                    == text::opt_view(t.catalog_id) && songs@[j].id.0@ == t.id.0@),
        decreases songs@.len() - i,
    {
        if text::same_opt(&songs[i].catalog_id, &t.catalog_id) && text::same(
            songs[i].id.0.as_str(),
            t.id.0.as_str(),
        ) {
            return true;
        }
        i += 1;
    }
    false
}

/// The songs among recommended rows that have a title, each once.
pub open spec fn song_picks(rows: Seq<Entry>) -> Seq<Track>
    decreases rows.len(),
{
    if rows.len() == 0 {
        Seq::empty()
    } else {
        let r = song_picks(rows.drop_last());
        match rows.last() {
            Entry::Song(t) => if t.title@.len() > 0 && !has_song(r, t) {
                r.push(t)
            } else {
                r
            },
            _ => r,
        }
    }
}

/// The other rows.
pub open spec fn others(rows: Seq<Entry>) -> Seq<Entry> {
    rows.filter(|e: Entry| !(e is Song))
}

/// Whether `lists` and `songs` are the recommended rows that open a page and
/// the recommended songs.
pub open spec fn are_sorted(entries: Seq<Entry>, lists: Seq<Entry>, songs: Seq<Track>) -> bool {
    &&& lists == at_most(with_new(Seq::empty(), others(entries), true), 16)
    &&& songs == at_most(song_picks(entries), 16)
}

/// The recommended rows that open a page, and the recommended songs: those with
/// a title, each once, sixteen at most.
pub fn sort_recommended(entries: &Vec<Entry>) -> (r: (Vec<Entry>, Vec<Track>))
    ensures
        r.0@ == at_most(with_new(Seq::empty(), others(entries@), true), 16),
        r.1@ == at_most(song_picks(entries@), 16),
        are_sorted(entries@, r.0@, r.1@),
{
    let mut pages: Vec<Entry> = Vec::new();
    let mut songs: Vec<Track> = Vec::new();
    let ghost f = |e: Entry| !(e is Song);
    let mut i: usize = 0;
    proof {
        reveal(Seq::filter);
        assert(entries@.take(0) =~= Seq::<Entry>::empty());
        assert(others(entries@.take(0)) =~= Seq::<Entry>::empty());
    }
    while i < entries.len()
        invariant
            i <= entries@.len(),
            f == (|e: Entry| !(e is Song)),
            pages@ == with_new(Seq::empty(), others(entries@.take(i as int)), true),
            songs@ == song_picks(entries@.take(i as int)),
        decreases entries@.len() - i,
    {
        proof {
            text::take_step(entries@, i as int);
            assert(entries@.take(i + 1).drop_last() =~= entries@.take(i as int));
            text::filter_step(entries@, f, i as int);
        }
        match &entries[i] {
            Entry::Song(t) => {
                if !t.title.as_str().is_empty() && !holds_song(&songs, t) {
                    songs.push(t.clone());
                }
            },
            other => {
                proof {
                    let before = others(entries@.take(i as int));
                    assert(before.push(*other).drop_last() =~= before);
                }
                if !other.title().is_empty() && !holds_row(&pages, other.id()) {
                    pages.push(other.clone());
                }
            },
        }
        i += 1;
    }
    assert(entries@.take(i as int) =~= entries@);
    if pages.len() > 16 {
        pages.truncate(16);
    }
    if songs.len() > 16 {
        songs.truncate(16);
    }
    assert(pages@ =~= at_most(with_new(Seq::empty(), others(entries@), true), 16));
    assert(songs@ =~= at_most(song_picks(entries@), 16));
    (pages, songs)
}

/// The rows of the charts.
pub open spec fn charted(songs: Seq<Entry>, albums: Seq<Entry>, playlists: Seq<Entry>) -> Seq<Entry> {
    at_most(
        with_new(with_new(with_new(Seq::empty(), songs, true), albums, true), playlists, true),
        16,
    )
}

/// The rows of the charts: songs, albums and playlists, those with a title,
/// each id once, sixteen at most.
pub fn chart_rows(songs: &Vec<Entry>, albums: &Vec<Entry>, playlists: &Vec<Entry>) -> (r: Vec<
    Entry,
>)
    ensures
        r@ == at_most(
            with_new(
                with_new(with_new(Seq::empty(), songs@, true), albums@, true),
                playlists@,
                true,
            ),
            16,
        ),
        r@ == charted(songs@, albums@, playlists@),
{
    let mut rows: Vec<Entry> = Vec::new();
    assert(rows@ =~= Seq::<Entry>::empty());
    add_new(&mut rows, songs, true);
    add_new(&mut rows, albums, true);
    add_new(&mut rows, playlists, true);
    if rows.len() > 16 {
        rows.truncate(16);
    }
    rows
}

/// Where charts are asked for, in order.
pub fn chart_paths(storefront: &str) -> (r: Vec<String>)
    ensures
        text::views(r@) == seq![
            "/catalog/"@ + storefront@ + "/charts?types=songs,albums,playlists&limit=20"@,
            "/catalog/"@ + storefront@ + "/charts?types=songs,albums&limit=20"@,
            "/catalog/"@ + storefront@ + "/charts?chart=most-played&types=songs,albums&limit=20"@,
            "/catalog/"@ + storefront@ + "/charts?types=songs&limit=20"@,
        ],
{
    let mut base = "/catalog/".to_owned();
    base.append(storefront);
    let mut a = base.clone();
    a.append("/charts?types=songs,albums,playlists&limit=20");
    let mut b = base.clone();
    b.append("/charts?types=songs,albums&limit=20");
    let mut c = base.clone();
    c.append("/charts?chart=most-played&types=songs,albums&limit=20");
    let mut d = base;
    d.append("/charts?types=songs&limit=20");
    let r = vec![a, b, c, d];
    assert(text::views(r@) =~= seq![
        "/catalog/"@ + storefront@ + "/charts?types=songs,albums,playlists&limit=20"@,
        "/catalog/"@ + storefront@ + "/charts?types=songs,albums&limit=20"@,
        "/catalog/"@ + storefront@ + "/charts?chart=most-played&types=songs,albums&limit=20"@,
        "/catalog/"@ + storefront@ + "/charts?types=songs&limit=20"@,
    ]);
    r
}

/// What follows a page of groups of recommendations.
#[derive(Debug, Clone, Copy, PartialEq, Eq, Structural)]
pub enum Following {
    /// Ask for the page behind it.
    Page,
    /// Ask again in another way: there is nothing so far.
    OtherWay,
    /// Go on with what there is.
    Done,
}

/// What follows a page of groups.
pub open spec fn following_groups(asked: u32, more: bool, groups: usize, first_way: bool) -> Following {
    if more && asked < 4 {
        Following::Page
    } else if groups == 0 && first_way {
        Following::OtherWay
    } else {
        Following::Done
    }
}

/// What follows a page of groups, `asked` pages having been asked for in one
/// way: four at most, and the other way only where the first gave nothing.
pub fn after_groups(asked: u32, more: bool, groups: usize, first_way: bool) -> (r: Following)
    ensures
        r == if more && asked < 4 {
            Following::Page
        } else if groups == 0 && first_way {
            Following::OtherWay
        } else {
            Following::Done
        },
        r == following_groups(asked, more, groups, first_way),
{
    if more && asked < 4 {
        Following::Page
    } else if groups == 0 && first_way {
        Following::OtherWay
    } else {
        Following::Done
    }
}

/// Whether the contents of a recommendation are asked for: it holds none, or
/// nothing but stubs.
pub fn wants_contents(items: &Vec<TypedResource<'_>>) -> (r: bool)
    ensures
        r == forall|i: int| 0 <= i < items@.len() ==> (#[trigger] items@[i])@.attributes is None,
{
    let mut i: usize = 0;
    while i < items.len()
        invariant
            i <= items@.len(),
            forall|j: int| 0 <= j < i ==> (#[trigger] items@[j])@.attributes is None,
        decreases items@.len() - i,
    {
        if items[i].attributes.is_some() {
            assert(items@[i as int]@.attributes is Some);
            return false;
        }
        i += 1;
    }
    true
}

/// Whether contents that were asked for take the place of those that came with
/// the recommendation: one of them says more, or there were none.
pub fn takes_contents(held: usize, page: &Vec<TypedResource<'_>>) -> (r: bool)
    ensures
        r == (held == 0 || exists|i: int|
            0 <= i < page@.len() && (#[trigger] page@[i])@.attributes is Some),
{
    if held == 0 {
        return true;
    }
    !wants_contents(page)
}

/// Where contents go on: where the recommendation says, else where the page
/// that took their place does.
pub fn goes_on(own: Option<String>, taken: bool, following: Option<String>) -> (r: Option<String>)
    ensures
        r == if own is None && taken {
            following
        } else {
            own
        },
{
    if own.is_none() && taken {
        following
    } else {
        own
    }
}

/// Where contents go on behind a page of so many things, `asked` such pages
/// having been asked for: three at most, and nothing behind an empty one.
pub fn after_contents(asked: u32, page: usize, following: Option<String>) -> (r: Option<String>)
    ensures
        r == if asked < 3 && page > 0 {
            following
        } else {
            None
        },
{
    if asked < 3 && page > 0 {
        following
    } else {
        None
    }
}

/// Where a list goes on, as an answer says.
pub open spec fn following_in(value: Json) -> Option<Seq<char>> {
    match json::text_in(json::in_object(value, "next"@)) {
        Some(s) => if mixed::path_in(s).len() > 0 {
            Some(mixed::path_in(s))
        } else {
            None
        },
        None => None,
    }
}

/// The resources of an answer, and where the list goes on. An answer that is
/// none, or lists anything else, has no resources.
pub fn typed_list<'a>(value: Option<&'a Json>) -> (r: (Vec<TypedResource<'a>>, Option<String>))
    ensures
        match value {
            Some(v) => seen(r.0@) == mixed::resources_in(json::in_object(*v, "data"@))
                && text::opt_view(r.1) == following_in(*v),
            None => r.0@.len() == 0 && r.1 is None,
        },
{
    match value {
        Some(v) => {
            let list = mixed::resources(v.get("data"));
            let next = match json::text_of(v.get("next")) {
                Some(s) => {
                    let path = mixed::api_path(s);
                    if path.as_str().is_empty() {
                        None
                    } else {
                        Some(path)
                    }
                },
                None => None,
            };
            (list, next)
        },
        None => (Vec::new(), None),
    }
}

/// What was played lately with what is played often behind it.
pub open spec fn played_lately(
    played: Seq<Entry>,
    tracks: Seq<Entry>,
    rotation: Seq<Entry>,
) -> Seq<Entry> {
    at_most(with_new(with_new(played, tracks, false), rotation, false), 20)
}

/// The page to begin with: what was played lately with what is played often
/// behind it, each id once and twenty at most, and the other shelves as they
/// came.
pub fn discover(
    played: Vec<Entry>,
    tracks: &Vec<Entry>,
    rotation: &Vec<Entry>,
    rec_playlists: Vec<Entry>,
    rec_songs: Vec<Track>,
    added: Vec<Entry>,
    charts: Vec<Entry>,
) -> (r: Discover)
    ensures
        r.recently_played@ == at_most(
            with_new(with_new(played@, tracks@, false), rotation@, false),
            20,
        ),
        r.recommended_playlists == rec_playlists,
        r.recommended_songs == rec_songs,
        r.recently_added == added,
        r.charts == charts,
        r.version == 0,
        r.provider@.len() == 0,
        r.recently_played@ == played_lately(played@, tracks@, rotation@),
{
    let mut recently_played = played;
    add_new(&mut recently_played, tracks, false);
    add_new(&mut recently_played, rotation, false);
    if recently_played.len() > 20 {
        recently_played.truncate(20);
    }
    let mut page = Discover::default();
    page.recently_played = recently_played;
    page.recommended_playlists = rec_playlists;
    page.recommended_songs = rec_songs;
    page.recently_added = added;
    page.charts = charts;
    page
}

/// What is asked for is asked for once, so many with each path and in order: a
/// path for the first of them, and behind it the paths for the rest.
pub proof fn every_id_is_asked_for_once(
    head: Seq<char>,
    ids: Seq<Seq<char>>,
    tail: Seq<char>,
    n: int,
)
    requires
        n > 0,
    ensures
        ids.len() == 0 ==> chunked(head, ids, tail, n).len() == 0,
        0 < ids.len() <= n ==> chunked(head, ids, tail, n) == seq![
            head + text::joined(ids, ","@) + tail,
        ],
        ids.len() > n ==> chunked(head, ids, tail, n)[0] == head + text::joined(ids.take(n), ","@)
            + tail && chunked(head, ids, tail, n).skip(1) == chunked(head, ids.skip(n), tail, n),
        n * chunked(head, ids, tail, n).len() >= ids.len(),
        n * chunked(head, ids, tail, n).len() < ids.len() + n,
    decreases ids.len(),
{
    if ids.len() > n {
        every_id_is_asked_for_once(head, ids.skip(n), tail, n);
        let one = seq![head + text::joined(ids.take(n), ","@) + tail];
        let rest = chunked(head, ids.skip(n), tail, n);
        assert((one + rest).skip(1) =~= rest);
        assert((one + rest)[0] == one[0]);
        let k = rest.len();
        assert(n * (k + 1) == n * k + n) by (nonlinear_arith);
    } else if ids.len() > 0 {
        assert(n * 1 == n);
    }
}

/// A row is found by an id that it answers to: the last that was put there under
/// it. A song answers to each of its ids.
pub proof fn a_row_is_found_by_its_id(rows: Seq<(String, Entry)>, i: int)
    requires
        0 <= i < rows.len(),
        forall|j: int| i < j < rows.len() ==> (#[trigger] rows[j]).0@ != rows[i].0@,
    ensures
        known(rows, rows[i].0@) == Some(rows[i].1),
    decreases rows.len(),
{
    if i < rows.len() - 1 {
        let rest = rows.drop_last();
        assert forall|j: int| i < j < rest.len() implies (#[trigger] rest[j]).0@ != rest[i].0@ by {
            assert(rest[j] == rows[j]);
        }
        a_row_is_found_by_its_id(rest, i);
        assert(rows.last() == rows[rows.len() - 1]);
    }
}

/// A song answers to its own id, to that of the catalogue and to that of the
/// library, and to no other.
pub proof fn a_song_answers_to_each_of_its_ids(t: Track, id: Seq<char>)
    ensures
        answers_to(Entry::Song(t), t.id.0@),
        t.catalog_id matches Some(c) ==> answers_to(Entry::Song(t), c@),
        t.library_id matches Some(l) ==> answers_to(Entry::Song(t), l@),
        id != t.id.0@ && t@.catalog_id != Some(id) && t@.library_id != Some(id) ==> !answers_to(
            Entry::Song(t),
            id,
        ),
{
}

/// A row keeps what it says itself, and only a stub or a row without a title is
/// looked up.
pub proof fn a_row_that_says_something_stays(t: Typed, rows: Seq<(String, Entry)>, e: EntryView)
    requires
        mixed::entry_in(t) == Some(e),
        e.title().len() > 0,
    ensures
        hydrated_in(t, rows) == Some(e),
{
}

/// Nothing that is new is left out: a row whose id is not there yet is added,
/// behind the others.
pub proof fn what_is_new_is_added(into: Seq<Entry>, more: Seq<Entry>, e: Entry, titled: bool)
    requires
        !titled || e.spec_title().len() > 0,
    ensures
        has_row(with_new(into, more.push(e), titled), e.spec_id()),
        !has_row(into, e.spec_id()) && !has_row(more, e.spec_id()) ==> with_new(
            into,
            more.push(e),
            titled,
        ) == with_new(into, more, titled).push(e),
        forall|i: int|
            0 <= i < with_new(into, more, titled).len() ==> into.contains(
                #[trigger] with_new(into, more, titled)[i],
            ) || more.contains(with_new(into, more, titled)[i]),
{
    assert(more.push(e).drop_last() =~= more);
    let r = with_new(into, more, titled);
    only_what_came(into, more, titled);
    if has_row(r, e.spec_id()) {
        let i = choose|i: int| 0 <= i < r.len() && (#[trigger] r[i]).spec_id() == e.spec_id();
        assert(with_new(into, more.push(e), titled)[i].spec_id() == e.spec_id());
        if into.contains(r[i]) {
            let k = choose|k: int| 0 <= k < into.len() && into[k] == r[i];
            assert(has_row(into, e.spec_id()));
        } else {
            let k = choose|k: int| 0 <= k < more.len() && more[k] == r[i];
            assert(has_row(more, e.spec_id()));
        }
    } else {
        assert(r.push(e)[r.len() as int].spec_id() == e.spec_id());
    }
}

proof fn only_what_came(into: Seq<Entry>, more: Seq<Entry>, titled: bool)
    ensures
        forall|i: int|
            0 <= i < with_new(into, more, titled).len() ==> into.contains(
                #[trigger] with_new(into, more, titled)[i],
            ) || more.contains(with_new(into, more, titled)[i]),
    decreases more.len(),
{
    let r = with_new(into, more, titled);
    if more.len() == 0 {
        assert forall|i: int| 0 <= i < r.len() implies into.contains(#[trigger] r[i]) by {}
    } else {
        let rest = more.drop_last();
        let before = with_new(into, rest, titled);
        only_what_came(into, rest, titled);
        assert forall|i: int| 0 <= i < r.len() implies into.contains(#[trigger] r[i])
            || more.contains(r[i]) by {
            if i < before.len() {
                assert(r[i] == before[i]);
                if rest.contains(before[i]) {
                    let k = choose|k: int| 0 <= k < rest.len() && rest[k] == before[i];
                    assert(more[k] == r[i]);
                }
            } else {
                assert(more[more.len() - 1] == r[i]);
            }
        }
    }
}

/// The charts begin with a song where there is one with a title, hold nothing
/// without a title and no id twice, and are sixteen at most.
pub proof fn the_charts_begin_with_songs(
    songs: Seq<Entry>,
    albums: Seq<Entry>,
    playlists: Seq<Entry>,
    i: int,
    j: int,
)
    requires
        0 <= i < j < charted(songs, albums, playlists).len(),
    ensures
        charted(songs, albums, playlists).len() <= 16,
        charted(songs, albums, playlists)[i].spec_id() != charted(songs, albums, playlists)[
            j
        ].spec_id(),
        charted(songs, albums, playlists)[i].spec_title().len() > 0,
        charted(songs, albums, playlists)[j].spec_title().len() > 0,
        songs.len() > 0 && songs[0].spec_title().len() > 0 ==> charted(
            songs,
            albums,
            playlists,
        )[0] == songs[0],
{
    let none = Seq::<Entry>::empty();
    let a = with_new(none, songs, true);
    let b = with_new(a, albums, true);
    let c = with_new(b, playlists, true);
    what_is_added_is_new(none, songs, true);
    what_is_added_is_new(a, albums, true);
    what_is_added_is_new(b, playlists, true);
    let at = charted(songs, albums, playlists);
    assert(at[i] == c[i] && at[j] == c[j]);
    each_part(a, b, c, i);
    each_part(a, b, c, j);
    if j < b.len() {
        assert(c[i] == c.take(b.len() as int)[i]);
        assert(c[j] == c.take(b.len() as int)[j]);
        if j < a.len() {
            assert(b[i] == b.take(a.len() as int)[i]);
            assert(b[j] == b.take(a.len() as int)[j]);
            assert(a[i].spec_id() != a[j].spec_id());
        } else {
            assert(b[i].spec_id() != b[j].spec_id());
        }
    }
    if songs.len() > 0 && songs[0].spec_title().len() > 0 {
        the_first_new_is_first(songs);
        assert(b.take(a.len() as int)[0] == a[0]);
        assert(c.take(b.len() as int)[0] == b[0]);
    }
}

proof fn each_part(a: Seq<Entry>, b: Seq<Entry>, c: Seq<Entry>, i: int)
    requires
        0 <= i < c.len(),
        a.len() <= b.len() <= c.len(),
        b.take(a.len() as int) == a,
        c.take(b.len() as int) == b,
    ensures
        i < b.len() ==> c[i] == b[i],
        i < a.len() ==> c[i] == a[i],
{
    if i < b.len() {
        assert(c[i] == c.take(b.len() as int)[i]);
    }
    if i < a.len() {
        assert(b[i] == b.take(a.len() as int)[i]);
    }
}

proof fn the_first_new_is_first(songs: Seq<Entry>)
    requires
        songs.len() > 0,
        songs[0].spec_title().len() > 0,
    ensures
        with_new(Seq::empty(), songs, true).len() > 0,
        with_new(Seq::empty(), songs, true)[0] == songs[0],
    decreases songs.len(),
{
    if songs.len() == 1 {
        assert(songs.drop_last() =~= Seq::<Entry>::empty());
        assert(with_new(Seq::empty(), songs.drop_last(), true) =~= Seq::<Entry>::empty());
        assert(!has_row(Seq::<Entry>::empty(), songs[0].spec_id()));
    } else {
        the_first_new_is_first(songs.drop_last());
    }
}

/// What was played lately comes first and in its order, and what is played often
/// behind it, twenty in all.
pub proof fn what_was_played_comes_first(
    played: Seq<Entry>,
    tracks: Seq<Entry>,
    rotation: Seq<Entry>,
    i: int,
)
    requires
        0 <= i < played.len(),
        i < 20,
    ensures
        i < played_lately(played, tracks, rotation).len() <= 20,
        played_lately(played, tracks, rotation)[i] == played[i],
{
    let a = with_new(played, tracks, false);
    let b = with_new(a, rotation, false);
    what_is_added_is_new(played, tracks, false);
    what_is_added_is_new(a, rotation, false);
    assert(a.take(played.len() as int)[i] == played[i]);
    assert(b.take(a.len() as int)[i] == a[i]);
}

/// The recommended songs are songs, have titles, and are sixteen at most; the
/// rows that open a page are no songs.
pub proof fn what_is_recommended_is_sorted(
    entries: Seq<Entry>,
    lists: Seq<Entry>,
    songs: Seq<Track>,
    i: int,
)
    requires
        are_sorted(entries, lists, songs),
    ensures
        lists.len() <= 16,
        songs.len() <= 16,
        0 <= i < lists.len() ==> !(lists[i] is Song) && lists[i].spec_title().len() > 0
            && entries.contains(lists[i]),
        0 <= i < songs.len() ==> songs[i].title@.len() > 0 && entries.contains(
            Entry::Song(songs[i]),
        ),
        entries.len() > 0 ==> (entries[0] matches Entry::Song(t) ==> t.title@.len() > 0
            ==> songs.len() > 0 && songs[0] == t),
{
    broadcast use vstd::seq_lib::group_filter_ensures;

    let none = Seq::<Entry>::empty();
    let no_songs = |e: Entry| !(e is Song);
    only_what_came(none, others(entries), true);
    what_is_added_is_new(none, others(entries), true);
    picks_are_songs(entries);
    if 0 <= i < lists.len() {
        let e = with_new(none, others(entries), true)[i];
        assert(others(entries).contains(e));
        entries.lemma_filter_contains_rev(no_songs, e);
        let k = choose|k: int| 0 <= k < others(entries).len() && others(entries)[k] == e;
        assert(no_songs(entries.filter(no_songs)[k]));
    }
}

proof fn picks_are_songs(rows: Seq<Entry>)
    ensures
        forall|i: int|
            0 <= i < song_picks(rows).len() ==> (#[trigger] song_picks(rows)[i]).title@.len() > 0
                && rows.contains(Entry::Song(song_picks(rows)[i])),
        rows.len() > 0 ==> (rows[0] matches Entry::Song(t) ==> t.title@.len() > 0 ==> song_picks(
            rows,
        ).len() > 0 && song_picks(rows)[0] == t),
    decreases rows.len(),
{
    if rows.len() > 0 {
        let rest = rows.drop_last();
        picks_are_songs(rest);
        let r = song_picks(rows);
        assert forall|i: int| 0 <= i < r.len() implies (#[trigger] r[i]).title@.len() > 0
            && rows.contains(Entry::Song(r[i])) by {
            if i < song_picks(rest).len() {
                assert(r[i] == song_picks(rest)[i]);
                let k = choose|k: int| 0 <= k < rest.len() && rest[k] == Entry::Song(r[i]);
                assert(rows[k] == Entry::Song(r[i]));
            } else {
                assert(rows[rows.len() - 1] == Entry::Song(r[i]));
            }
        }
        if rest.len() == 0 {
            assert(rows.last() == rows[0]);
            assert(song_picks(rest) =~= Seq::<Track>::empty());
            match rows[0] {
                Entry::Song(t) => {
                    assert(!has_song(song_picks(rest), t));
                },
                _ => {},
            }
        } else {
            assert(rest[0] == rows[0]);
        }
    }
}

/// Pages of groups come to an end: after four of them no page follows, and the
/// other way is tried only where the first found nothing.
pub proof fn groups_come_to_an_end(asked: u32, more: bool, groups: usize, first_way: bool)
    ensures
        asked >= 4 ==> !(following_groups(asked, more, groups, first_way) is Page),
        !more ==> !(following_groups(asked, more, groups, first_way) is Page),
        more && asked < 4 ==> following_groups(asked, more, groups, first_way) is Page,
        !first_way || groups > 0 ==> !(following_groups(asked, more, groups, first_way) is OtherWay),
        !more && groups == 0 && first_way ==> following_groups(
            asked,
            more,
            groups,
            first_way,
        ) is OtherWay,
{
}

/// What is a row by itself stands as it is, with or without a title, where
/// nothing is a stub.
pub proof fn rows_stand_where_none_is_a_stub(t: Typed, rows: Seq<(String, Entry)>, e: EntryView)
    requires
        mixed::entry_in(t) == Some(e),
    ensures
        hydrated(seq![t], rows) == seq![e],
{
    assert(!is_stub(t));
    let list = seq![t];
    if any_stub(list) {
        let i = choose|i: int| 0 <= i < list.len() && is_stub(#[trigger] list[i]);
        assert(list[i] == t);
    }
    json::what_is_made_keeps_its_order(Seq::empty(), t, Seq::empty(), |x: Typed| mixed::entry_in(x));
}

/// A list goes on where its answer says, without the host and the version.
pub proof fn a_list_goes_on_where_it_says(value: Json, path: Seq<char>)
    requires
        path.len() > 0,
        path[0] == '/',
    ensures
        json::says(value, "next"@, "/v1"@ + path) ==> following_in(value) == Some(path),
        json::in_object(value, "next"@) is None ==> following_in(value) is None,
{
    mixed::an_address_is_asked_for_by_its_path(path);
}

} // verus!
