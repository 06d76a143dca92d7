//! Searching the catalogue, and the order the answers go in.
use vstd::prelude::*;

use crate::entry::Entry;
use crate::ipc::CatalogFilter;
use crate::music::types::{Album, Artist, Playlist, Track};

verus! {

/// The most results one request is answered with.
pub const CATALOG_LIMIT: u32 = 25;

/// How many artists, playlists and albums stand above the songs.
pub const CATALOG_BROWSE_ROWS: usize = 3;

/// What a search found.
#[derive(Debug)]
pub struct SearchResults {
    pub songs: Vec<Track>,
    pub albums: Vec<Album>,
    pub artists: Vec<Artist>,
    pub playlists: Vec<Playlist>,
}

/// The first `n` of `s`, or all of it.
pub open spec fn at_most<A>(s: Seq<A>, n: int) -> Seq<A> {
    if s.len() <= n {
        s
    } else {
        s.take(n)
    }
}

pub open spec fn song_rows(s: Seq<Track>) -> Seq<Entry> {
    s.map_values(|t: Track| Entry::Song(t))
}

pub open spec fn album_rows(s: Seq<Album>) -> Seq<Entry> {
    s.map_values(|a: Album| Entry::Album(a))
}

pub open spec fn artist_rows(s: Seq<Artist>) -> Seq<Entry> {
    s.map_values(|a: Artist| Entry::Artist(a))
}

pub open spec fn playlist_rows(s: Seq<Playlist>) -> Seq<Entry> {
    s.map_values(|p: Playlist| Entry::Playlist(p))
}

/// The rows of one page, and how far it moves the next offset.
///
/// Unfiltered, a first page is led by a few artists, playlists and albums, and
/// a later one holds songs only; the songs are what pages. Filtered, a page is
/// the one kind, whole.
pub open spec fn rows_of(
    filter: CatalogFilter,
    found: SearchResults,
    first_page: bool,
) -> (Seq<Entry>, nat) {
    let n = CATALOG_BROWSE_ROWS as int;
    match filter {
        CatalogFilter::All => (
            if first_page {
                artist_rows(at_most(found.artists@, n)) + playlist_rows(
                    at_most(found.playlists@, n),
                ) + album_rows(at_most(found.albums@, n)) + song_rows(found.songs@)
            } else {
                song_rows(found.songs@)
            },
            found.songs@.len(),
        ),
        CatalogFilter::Songs => (song_rows(found.songs@), found.songs@.len()),
        CatalogFilter::Albums => (album_rows(found.albums@), found.albums@.len()),
        CatalogFilter::Artists => (artist_rows(found.artists@), found.artists@.len()),
        CatalogFilter::Playlists => (playlist_rows(found.playlists@), found.playlists@.len()),
    }
}

/// Put the first `limit` songs behind `rows`.
pub fn add_songs(rows: &mut Vec<Entry>, songs: &Vec<Track>, limit: usize)
    ensures
        final(rows)@ == old(rows)@ + song_rows(at_most(songs@, limit as int)),
{
    let ghost rows0 = rows@;
    let mut i: usize = 0;
    while i < songs.len() && i < limit
        invariant
            i <= songs@.len(),
            i <= limit,
            rows@ =~= rows0 + song_rows(songs@.take(i as int)),
        decreases songs@.len() - i,
    {
        rows.push(Entry::Song(songs[i].clone()));
        i += 1;
    }
    assert(songs@.take(i as int) =~= at_most(songs@, limit as int));
}

/// Put the first `limit` albums behind `rows`.
pub fn add_albums(rows: &mut Vec<Entry>, albums: &Vec<Album>, limit: usize)
    ensures
        final(rows)@ == old(rows)@ + album_rows(at_most(albums@, limit as int)),
{
    let ghost rows0 = rows@;
    let mut i: usize = 0;
    while i < albums.len() && i < limit
        invariant
            i <= albums@.len(),
            i <= limit,
            rows@ =~= rows0 + album_rows(albums@.take(i as int)),
        decreases albums@.len() - i,
    {
        rows.push(Entry::Album(albums[i].clone()));
        i += 1;
    }
    assert(albums@.take(i as int) =~= at_most(albums@, limit as int));
}

/// Put the first `limit` artists behind `rows`.
pub fn add_artists(rows: &mut Vec<Entry>, artists: &Vec<Artist>, limit: usize)
    ensures
        final(rows)@ == old(rows)@ + artist_rows(at_most(artists@, limit as int)),
{
    let ghost rows0 = rows@;
    let mut i: usize = 0;
    while i < artists.len() && i < limit
        invariant
            i <= artists@.len(),
            i <= limit,
            rows@ =~= rows0 + artist_rows(artists@.take(i as int)),
        decreases artists@.len() - i,
    {
        rows.push(Entry::Artist(artists[i].clone()));
        i += 1;
    }
    assert(artists@.take(i as int) =~= at_most(artists@, limit as int));
}

/// Put the first `limit` playlists behind `rows`.
pub fn add_playlists(rows: &mut Vec<Entry>, playlists: &Vec<Playlist>, limit: usize)
    ensures
        final(rows)@ == old(rows)@ + playlist_rows(at_most(playlists@, limit as int)),
{
    let ghost rows0 = rows@;
    let mut i: usize = 0;
    while i < playlists.len() && i < limit
        invariant
            i <= playlists@.len(),
            i <= limit,
            rows@ =~= rows0 + playlist_rows(playlists@.take(i as int)),
        decreases playlists@.len() - i,
    {
        rows.push(Entry::Playlist(playlists[i].clone()));
        i += 1;
    }
    assert(playlists@.take(i as int) =~= at_most(playlists@, limit as int));
}

/// The rows of one page of results, and how far it moves the next offset.
pub fn catalog_rows(filter: CatalogFilter, found: SearchResults, first_page: bool) -> (r: (
    Vec<Entry>,
    usize,
))
    ensures
        (r.0@, r.1 as nat) == rows_of(filter, found, first_page),
{
    let mut rows: Vec<Entry> = Vec::new();
    let counted: usize = match filter {
        CatalogFilter::All => {
            if first_page {
                add_artists(&mut rows, &found.artists, CATALOG_BROWSE_ROWS);
                add_playlists(&mut rows, &found.playlists, CATALOG_BROWSE_ROWS);
                add_albums(&mut rows, &found.albums, CATALOG_BROWSE_ROWS);
            }
            add_songs(&mut rows, &found.songs, found.songs.len());
            found.songs.len()
        },
        CatalogFilter::Songs => {
            add_songs(&mut rows, &found.songs, found.songs.len());
            found.songs.len()
        },
        CatalogFilter::Albums => {
            add_albums(&mut rows, &found.albums, found.albums.len());
            found.albums.len()
        },
        CatalogFilter::Artists => {
            add_artists(&mut rows, &found.artists, found.artists.len());
            found.artists.len()
        },
        CatalogFilter::Playlists => {
            add_playlists(&mut rows, &found.playlists, found.playlists.len());
            found.playlists.len()
        },
    };
    assert(rows@ =~= rows_of(filter, found, first_page).0);
    (rows, counted)
}

/// A filtered page never drops a row: it moves the offset by what it shows.
pub proof fn a_filtered_page_counts_what_it_shows(
    filter: CatalogFilter,
    found: SearchResults,
    first_page: bool,
)
    requires
        !(filter is All),
    ensures
        rows_of(filter, found, first_page).0.len() == rows_of(filter, found, first_page).1,
{
}

/// Unfiltered, the songs always stand last, whole and in order.
pub proof fn songs_stand_last(found: SearchResults, first_page: bool)
    ensures
        ({
            let rows = rows_of(CatalogFilter::All, found, first_page).0;
            &&& rows.len() >= found.songs@.len()
            &&& rows.skip(rows.len() - found.songs@.len()) == song_rows(found.songs@)
            &&& forall|i: int|
                0 <= i < rows.len() - found.songs@.len() ==> !((#[trigger] rows[i]) is Song)
            &&& rows.len() <= found.songs@.len() + 3 * CATALOG_BROWSE_ROWS
        }),
{
    let rows = rows_of(CatalogFilter::All, found, first_page).0;
    assert(rows.skip(rows.len() - found.songs@.len()) =~= song_rows(found.songs@));
}

/// A first page begins with the artists, then the playlists, then the albums,
/// three of each at most and from their fronts; a filter shows its kind alone.
pub proof fn a_first_page_begins_with_the_artists(found: SearchResults, i: int, first_page: bool)
    ensures
        0 <= i < found.artists@.len() && i < 3 ==> rows_of(
            CatalogFilter::All,
            found,
            true,
        ).0[i] == Entry::Artist(found.artists@[i]),
        found.artists@.len() == 0 && 0 <= i < found.playlists@.len() && i < 3 ==> rows_of(
            CatalogFilter::All,
            found,
            true,
        ).0[i] == Entry::Playlist(found.playlists@[i]),
        found.artists@.len() == 0 && found.playlists@.len() == 0 && 0 <= i < found.albums@.len()
            && i < 3 ==> rows_of(CatalogFilter::All, found, true).0[i] == Entry::Album(
            found.albums@[i],
        ),
        rows_of(CatalogFilter::All, found, false).0.len() == found.songs@.len(),
        rows_of(CatalogFilter::All, found, first_page).1 == found.songs@.len(),
        0 <= i < found.songs@.len() ==> rows_of(CatalogFilter::Songs, found, first_page).0[i]
            == Entry::Song(found.songs@[i]),
        0 <= i < found.albums@.len() ==> rows_of(CatalogFilter::Albums, found, first_page).0[i]
            == Entry::Album(found.albums@[i]),
        0 <= i < found.artists@.len() ==> rows_of(CatalogFilter::Artists, found, first_page).0[i]
            == Entry::Artist(found.artists@[i]),
        0 <= i < found.playlists@.len() ==> rows_of(
            CatalogFilter::Playlists,
            found,
            first_page,
        ).0[i] == Entry::Playlist(found.playlists@[i]),
        rows_of(CatalogFilter::Songs, found, first_page).0.len() == found.songs@.len(),
        rows_of(CatalogFilter::Albums, found, first_page).0.len() == found.albums@.len(),
        rows_of(CatalogFilter::Artists, found, first_page).0.len() == found.artists@.len(),
        rows_of(CatalogFilter::Playlists, found, first_page).0.len() == found.playlists@.len(),
{
}

/// The first of a list are its front, and all of it where it is short.
pub proof fn the_first_are_the_front<A>(s: Seq<A>, n: int, i: int)
    requires
        0 <= n,
        0 <= i < at_most(s, n).len(),
    ensures
        at_most(s, n).len() <= n,
        at_most(s, n)[i] == s[i],
        s.len() <= n ==> at_most(s, n) == s,
        s.len() > n ==> at_most(s, n).len() == n,
{
}

} // verus!
