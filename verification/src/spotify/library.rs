//! A library at Spotify: the pages it comes in, and what is made of them.
use vstd::prelude::*;

use crate::catalog::{self, album_rows, at_most, playlist_rows, song_rows};
use crate::discover::Discover;
use crate::entry::Entry;
use crate::i18n::{self, Key, Language};
use crate::json::{self, Json};
use crate::music::types::{
    seen, seen_opt, Album, AlbumView, Artist, Playlist, PlaylistView, SongView, Track,
};
use crate::provider::Provider;
use crate::spotify::feeds::{self, choose_from, first_picture, liked};
use crate::spotify::gql::{self, get2, get3, in2, in3};
use crate::spotify::pages::HomeFeed;
use crate::spotify::rest;
use crate::text;

verus! {

/// A library.
#[derive(Debug)]
pub struct Library {
    pub songs: Vec<Track>,
    pub albums: Vec<Album>,
    pub artists: Vec<Artist>,
    pub playlists: Vec<Playlist>,
}

/// Where in a list the next page begins.
#[derive(Debug, Clone, Copy, PartialEq, Eq, Structural)]
pub struct Paging {
    pub offset: usize,
    pub limit: usize,
}

/// A page: what could be read of it, how many things it held, and how many
/// there are in all.
#[derive(Debug)]
pub struct Page<T> {
    pub rows: Vec<T>,
    pub len: usize,
    pub total: u64,
}

/// Whether the place behind a page of so many things, of so many in all, is
/// `after`, and `more` says whether another page is there.
pub open spec fn has_stepped(
    before: Paging,
    len: usize,
    total: u64,
    after: Paging,
    more: bool,
) -> bool {
    &&& after.limit == before.limit
    &&& after.offset == if len == 0 {
        before.offset as int
    } else if before.offset + before.limit > usize::MAX {
        usize::MAX as int
    } else {
        before.offset + before.limit
    }
    &&& more == (len > 0 && after.offset < total && len >= before.limit)
}

impl Paging {
    /// Step behind a page. The result says whether there is another: not after
    /// an empty or a short page, nor past the end of the list.
    pub fn after(&mut self, len: usize, total: u64) -> (r: bool)
        ensures
            final(self).limit == old(self).limit,
            final(self).offset == if len == 0 {
                old(self).offset as int
            } else if old(self).offset + old(self).limit > usize::MAX {
                usize::MAX as int
            } else {
                old(self).offset + old(self).limit
            },
            r == (len > 0 && final(self).offset < total && len >= old(self).limit),
            has_stepped(*old(self), len, total, *final(self), r),
    {
        if len == 0 {
            return false;
        }
        self.offset = self.offset.saturating_add(self.limit);
        (self.offset as u64) < total && len >= self.limit
    }
}

/// What a list of things and its count hold.
pub open spec fn is_page<T: View>(
    page: Page<T>,
    holder: Json,
    g: spec_fn(Json) -> Option<T::V>,
) -> bool {
    &&& seen(page.rows@) == json::chosen(json::items_in(json::in_object(holder, "items"@)), g)
    &&& page.len == json::items_in(json::in_object(holder, "items"@)).len()
    &&& page.total == json::count_in(json::in_object(holder, "totalCount"@))
}

fn read_page<T: View>(
    holder: &Json,
    f: impl Fn(&Json) -> Option<T>,
    Ghost(g): Ghost<spec_fn(Json) -> Option<T::V>>,
) -> (r: Page<T>)
    requires
        forall|j: &Json| #[trigger] call_requires(f, (j,)),
        forall|j: &Json, o: Option<T>| #[trigger]
            call_ensures(f, (j,), o) ==> seen_opt(o) == g(*j),
    ensures
        is_page(r, *holder, g),
{
    let len = match json::list_of(holder.get("items")) {
        Some(l) => l.len(),
        None => 0,
    };
    Page {
        rows: choose_from(holder.get("items"), f, Ghost(g)),
        len,
        total: json::count_of(holder.get("totalCount")),
    }
}

/// A page of liked songs. An answer without them is none.
pub fn liked_page(value: &Json) -> (r: Option<Page<Track>>)
    ensures
        match json::under(in3(*value, "data"@, "me"@, "library"@), "tracks"@) {
            Some(tracks) => r matches Some(page) && is_page(
                page,
                tracks,
                |i: Json| feeds::library_track_in(i),
            ),
            None => r is None,
        },
{
    match json::at(get3(value, "data", "me", "library"), "tracks") {
        Some(tracks) => Some(
            read_page(
                tracks,
                feeds::song_from_library_track,
                Ghost(|i: Json| feeds::library_track_in(i)),
            ),
        ),
        None => None,
    }
}

/// Why a page of the library was not given.
#[derive(Debug, Clone, Copy, PartialEq, Eq, Structural)]
pub enum Refusal {
    /// The answer has no library.
    Missing,
    /// The filter is not known.
    Filter,
}

/// The library in an answer.
pub open spec fn library_in(value: Json) -> Result<Json, Refusal> {
    match in3(value, "data"@, "me"@, "libraryV3"@) {
        None => Err(Refusal::Missing),
        Some(lib) => if json::text_in(json::in_object(lib, "__typename"@)) == Some(
            "LibraryInvalidFilterIdError"@,
        ) {
            Err(Refusal::Filter)
        } else {
            Ok(lib)
        },
    }
}

fn library_of(value: &Json) -> (r: Result<&Json, Refusal>)
    ensures
        match r {
            Ok(lib) => library_in(*value) == Ok::<Json, Refusal>(*lib),
            Err(e) => library_in(*value) == Err::<Json, Refusal>(e),
        },
{
    match get3(value, "data", "me", "libraryV3") {
        None => Err(Refusal::Missing),
        Some(lib) => {
            if let Some(kind) = json::text_of(lib.get("__typename")) {
                if text::same(kind, "LibraryInvalidFilterIdError") {
                    return Err(Refusal::Filter);
                }
            }
            Ok(lib)
        },
    }
}

/// A page of the library's playlists.
pub fn playlists_page(language: Language, value: &Json) -> (r: Result<Page<Playlist>, Refusal>)
    ensures
        match library_in(*value) {
            Ok(lib) => r matches Ok(page) && is_page(
                page,
                lib,
                |i: Json| feeds::library_list_in(language, i, 5),
            ),
            Err(e) => r == Err::<Page<Playlist>, Refusal>(e),
        },
{
    match library_of(value) {
        Err(e) => Err(e),
        Ok(lib) => {
            let f = |item: &Json| -> (o: Option<Playlist>)
                ensures
                    seen_opt(o) == feeds::library_list_in(language, *item, 5),
                { feeds::playlist_from_library_item(language, item) };
            Ok(read_page(lib, f, Ghost(|i: Json| feeds::library_list_in(language, i, 5))))
        },
    }
}

/// A page of the library's albums.
pub fn albums_page(value: &Json) -> (r: Result<Page<Album>, Refusal>)
    ensures
        match library_in(*value) {
            Ok(lib) => r matches Ok(page) && is_page(
                page,
                lib,
                |i: Json| feeds::library_album_in(i),
            ),
            Err(e) => r == Err::<Page<Album>, Refusal>(e),
        },
{
    match library_of(value) {
        Err(e) => Err(e),
        Ok(lib) => Ok(
            read_page(
                lib,
                feeds::album_from_library_item,
                Ghost(|i: Json| feeds::library_album_in(i)),
            ),
        ),
    }
}

/// A page of the library's artists.
pub fn artists_page(value: &Json) -> (r: Result<Page<Artist>, Refusal>)
    ensures
        match library_in(*value) {
            Ok(lib) => r matches Ok(page) && is_page(
                page,
                lib,
                |i: Json| feeds::library_artist_in(i),
            ),
            Err(e) => r == Err::<Page<Artist>, Refusal>(e),
        },
{
    match library_of(value) {
        Err(e) => Err(e),
        Ok(lib) => Ok(
            read_page(
                lib,
                feeds::artist_from_library_item,
                Ghost(|i: Json| feeds::library_artist_in(i)),
            ),
        ),
    }
}

/// A page of a playlist's songs, and the playlist where the page says what it
/// is. An answer without a playlist is none.
pub fn playlist_page(value: &Json, id: &str) -> (r: Option<(Option<Playlist>, Page<Track>)>)
    ensures
        match in2(*value, "data"@, "playlistV2"@) {
            None => r is None,
            Some(list) => {
                &&& r matches Some((p, page))
                &&& seen_opt(p) == gql::playlist_in(list, id@)
                &&& is_page(
                    page,
                    match json::in_object(list, "content"@) {
                        Some(c) => c,
                        None => Json::Null,
                    },
                    |i: Json| feeds::playlist_item_in(i),
                )
            },
        },
{
    match get2(value, "data", "playlistV2") {
        None => None,
        Some(list) => {
            let nothing = Json::Null;
            let content = match list.get("content") {
                Some(c) => c,
                None => &nothing,
            };
            let page = read_page(
                content,
                feeds::song_from_playlist_item,
                Ghost(|i: Json| feeds::playlist_item_in(i)),
            );
            Some((gql::playlist_from_gql(list, id), page))
        },
    }
}

/// A page of the public interface's: its things, and where the next one is; an
/// empty address where there is none.
#[derive(Debug)]
pub struct RestPage<T> {
    pub rows: Vec<T>,
    pub next: String,
}

/// A page of which a limited number of things is wanted: those, how many it
/// counts toward the limit, and where the next one is.
#[derive(Debug)]
pub struct CountedPage<T> {
    pub rows: Vec<T>,
    pub counted: usize,
    pub next: String,
}

/// The first `room` of a page's things, or all where there are fewer. What
/// cannot be read among them takes its room all the same.
pub open spec fn first_in(items: Option<Json>, room: int) -> Seq<Json> {
    let all = json::items_in(items);
    if room < all.len() {
        all.take(room)
    } else {
        all
    }
}

fn choose_within<T: View>(
    items: Option<&Json>,
    room: usize,
    f: impl Fn(&Json) -> Option<T>,
    Ghost(g): Ghost<spec_fn(Json) -> Option<T::V>>,
) -> (r: (Vec<T>, usize))
    requires
        forall|j: &Json| #[trigger] call_requires(f, (j,)),
        forall|j: &Json, o: Option<T>| #[trigger]
            call_ensures(f, (j,), o) ==> seen_opt(o) == g(*j),
    ensures
        seen(r.0@) == json::chosen(first_in(json::held(items), room as int), g),
        r.1 == first_in(json::held(items), room as int).len(),
{
    match json::list_of(items) {
        Some(l) => {
            let n: usize = if room < l.len() {
                room
            } else {
                l.len()
            };
            assert(l@.take(n as int) =~= first_in(json::held(items), room as int));
            (json::choose_first(l, n, f, Ghost(g)), n)
        },
        None => {
            let r: Vec<T> = Vec::new();
            assert(seen(r@) =~= Seq::<T::V>::empty());
            assert(first_in(json::held(items), room as int) =~= Seq::<Json>::empty());
            (r, 0)
        },
    }
}

/// Where the page behind a page is: nowhere, where the page is empty.
pub open spec fn next_in(items: Option<Json>, next: Option<Json>) -> Seq<char> {
    if json::items_in(items).len() == 0 {
        Seq::empty()
    } else {
        json::words(next)
    }
}

fn next_page(items: Option<&Json>, next: Option<&Json>) -> (r: String)
    ensures
        r@ == next_in(json::held(items), json::held(next)),
{
    let len = match json::list_of(items) {
        Some(l) => l.len(),
        None => 0,
    };
    if len == 0 {
        let none = String::new();
        assert(none@ =~= Seq::<char>::empty());
        none
    } else {
        json::words_of(next)
    }
}

/// A saved song.
pub open spec fn saved_track_in(item: Json) -> Option<SongView> {
    match json::in_object(item, "track"@) {
        Some(track) => rest::song_in(track, rest::text_in(item, "added_at"@), true, true),
        None => None,
    }
}

fn saved_track(item: &Json) -> (r: Option<Track>)
    ensures
        seen_opt(r) == saved_track_in(*item),
{
    match item.get("track") {
        Some(track) => rest::song_from_track(track, rest::text(item, "added_at"), true, true),
        None => None,
    }
}

/// A page of saved songs, of which `room` more things are wanted.
pub fn saved_tracks(value: &Json, room: usize) -> (r: CountedPage<Track>)
    ensures
        seen(r.rows@) == json::chosen(
            first_in(json::in_object(*value, "items"@), room as int),
            |i: Json| saved_track_in(i),
        ),
        r.counted == first_in(json::in_object(*value, "items"@), room as int).len(),
        r.next@ == next_in(
            json::in_object(*value, "items"@),
            json::in_object(*value, "next"@),
        ),
{
    let (rows, counted) = choose_within(
        value.get("items"),
        room,
        saved_track,
        Ghost(|i: Json| saved_track_in(i)),
    );
    CountedPage { rows, counted, next: next_page(value.get("items"), value.get("next")) }
}

/// A saved album.
pub open spec fn saved_album_in(item: Json) -> Option<AlbumView> {
    match json::in_object(item, "album"@) {
        Some(album) => rest::album_in(album, rest::text_in(item, "added_at"@), true),
        None => None,
    }
}

fn saved_album(item: &Json) -> (r: Option<Album>)
    ensures
        seen_opt(r) == saved_album_in(*item),
{
    match item.get("album") {
        Some(album) => rest::album_from_object(album, rest::text(item, "added_at"), true),
        None => None,
    }
}

/// A page of saved albums, of which `room` more things are wanted.
pub fn saved_albums(value: &Json, room: usize) -> (r: CountedPage<Album>)
    ensures
        seen(r.rows@) == json::chosen(
            first_in(json::in_object(*value, "items"@), room as int),
            |i: Json| saved_album_in(i),
        ),
        r.counted == first_in(json::in_object(*value, "items"@), room as int).len(),
        r.next@ == next_in(
            json::in_object(*value, "items"@),
            json::in_object(*value, "next"@),
        ),
{
    let (rows, counted) = choose_within(
        value.get("items"),
        room,
        saved_album,
        Ghost(|i: Json| saved_album_in(i)),
    );
    CountedPage { rows, counted, next: next_page(value.get("items"), value.get("next")) }
}

fn own_playlist(item: &Json) -> (r: Option<Playlist>)
    ensures
        seen_opt(r) == rest::playlist_in(*item, true),
{
    rest::playlist_from_object(item, true)
}

/// A page of somebody's playlists, of which `room` more things are wanted.
pub fn user_playlists(value: &Json, room: usize) -> (r: CountedPage<Playlist>)
    ensures
        seen(r.rows@) == json::chosen(
            first_in(json::in_object(*value, "items"@), room as int),
            |i: Json| rest::playlist_in(i, true),
        ),
        r.counted == first_in(json::in_object(*value, "items"@), room as int).len(),
        r.next@ == next_in(
            json::in_object(*value, "items"@),
            json::in_object(*value, "next"@),
        ),
{
    let (rows, counted) = choose_within(
        value.get("items"),
        room,
        own_playlist,
        Ghost(|i: Json| rest::playlist_in(i, true)),
    );
    CountedPage { rows, counted, next: next_page(value.get("items"), value.get("next")) }
}

/// A page of followed artists. Those that can be read are counted, so as many as
/// there is room for are kept.
pub fn followed_artists(value: &Json, room: usize) -> (r: CountedPage<Artist>)
    ensures
        ({
            let all = json::chosen(
                json::items_in(in2(*value, "artists"@, "items"@)),
                |i: Json| rest::artist_in(i),
            );
            &&& seen(r.rows@) == if room < all.len() {
                all.take(room as int)
            } else {
                all
            }
        }),
        r.counted == r.rows@.len(),
        r.next@ == next_in(
            in2(*value, "artists"@, "items"@),
            in2(*value, "artists"@, "next"@),
        ),
{
    let mut rows = choose_from(
        get2(value, "artists", "items"),
        rest::artist_from_object,
        Ghost(|i: Json| rest::artist_in(i)),
    );
    let ghost all = rows@;
    if room < rows.len() {
        rows.truncate(room);
        assert(seen(rows@) =~= seen(all).take(room as int));
    }
    let counted: usize = rows.len();
    CountedPage {
        rows,
        counted,
        next: next_page(get2(value, "artists", "items"), get2(value, "artists", "next")),
    }
}

/// A song of a playlist of the public interface's.
pub open spec fn listed_song_in(item: Json) -> Option<SongView> {
    match json::either(json::in_object(item, "track"@), json::in_object(item, "item"@)) {
        Some(track) => rest::song_in(track, rest::text_in(item, "added_at"@), false, true),
        None => None,
    }
}

fn listed_song(item: &Json) -> (r: Option<Track>)
    ensures
        seen_opt(r) == listed_song_in(*item),
{
    match json::or(item.get("track"), item.get("item")) {
        Some(track) => rest::song_from_track(track, rest::text(item, "added_at"), false, true),
        None => None,
    }
}

/// A further page of a playlist of the public interface's.
pub fn playlist_songs(items: Option<&Json>, next: Option<&Json>) -> (r: RestPage<Track>)
    ensures
        seen(r.rows@) == json::chosen(
            json::items_in(json::held(items)),
            |i: Json| listed_song_in(i),
        ),
        r.next@ == json::words(json::held(next)),
{
    RestPage {
        rows: choose_from(items, listed_song, Ghost(|i: Json| listed_song_in(i))),
        next: json::words_of(next),
    }
}

/// A playlist of the public interface's, with the first page of its songs. One
/// without an id is none.
pub fn playlist(value: &Json) -> (r: Option<(Playlist, RestPage<Track>)>)
    ensures
        match rest::playlist_in(*value, false) {
            None => r is None,
            Some(list) => {
                &&& r matches Some((p, page))
                &&& p@ == list
                &&& seen(page.rows@) == json::chosen(
                    json::items_in(in2(*value, "tracks"@, "items"@)),
                    |i: Json| listed_song_in(i),
                )
                &&& page.next@ == json::words(in2(*value, "tracks"@, "next"@))
            },
        },
{
    match rest::playlist_from_object(value, false) {
        None => None,
        Some(list) => Some(
            (
                list,
                playlist_songs(get2(value, "tracks", "items"), get2(value, "tracks", "next")),
            ),
        ),
    }
}

/// A song of an album's own list, numbered by its place where it has no number.
pub open spec fn numbered(item: Json, i: int, album: Json) -> Option<SongView> {
    match rest::song_of_album(item, album) {
        None => None,
        Some(song) => Some(
            SongView {
                track_number: if song.track_number == 0 {
                    (i + 1) as u32
                } else {
                    song.track_number
                },
                ..song
            },
        ),
    }
}

/// The songs of an album's own list, numbered.
pub open spec fn all_numbered(items: Seq<Json>, album: Json) -> Seq<SongView>
    decreases items.len(),
{
    if items.len() == 0 {
        Seq::empty()
    } else {
        let r = all_numbered(items.drop_last(), album);
        match numbered(items.last(), items.len() - 1, album) {
            Some(s) => r.push(s),
            None => r,
        }
    }
}

/// An album of the public interface's, with the first page of its songs. One
/// without an id is none.
pub fn album(value: &Json) -> (r: Option<(Album, RestPage<Track>)>)
    ensures
        match rest::album_in(*value, Seq::empty(), false) {
            None => r is None,
            Some(album) => {
                &&& r matches Some((a, page))
                &&& a@ == album
                &&& seen(page.rows@) == all_numbered(
                    json::items_in(in2(*value, "tracks"@, "items"@)),
                    *value,
                )
                &&& page.next@ == json::words(in2(*value, "tracks"@, "next"@))
            },
        },
{
    let none = String::new();
    assert(none@ =~= Seq::<char>::empty());
    match rest::album_from_object(value, none, false) {
        None => None,
        Some(found) => {
            let mut songs: Vec<Track> = Vec::new();
            assert(seen(songs@) =~= Seq::<SongView>::empty());
            if let Some(items) = json::list_of(get2(value, "tracks", "items")) {
                let mut i: usize = 0;
                assert(items@.take(0) =~= Seq::<Json>::empty());
                while i < items.len()
                    invariant
                        i <= items@.len(),
                        seen(songs@) == all_numbered(items@.take(i as int), *value),
                    decreases items@.len() - i,
                {
                    proof {
                        text::take_step(items@, i as int);
                        assert(items@.take(i + 1).drop_last() =~= items@.take(i as int));
                    }
                    if let Some(mut song) = rest::song_from_track_on_album(&items[i], value) {
                        if song.track_number == 0 {
                            song.track_number =
                            #[verifier::truncate]
                            ((i + 1) as u32);
                        }
                        let ghost songs0 = songs@;
                        songs.push(song);
                        assert(seen(songs@) =~= seen(songs0).push(song@));
                    }
                    i += 1;
                }
                assert(items@.take(i as int) =~= items@);
            }
            Some(
                (
                    found,
                    RestPage {
                        rows: songs,
                        next: json::words_of(get2(value, "tracks", "next")),
                    },
                ),
            )
        },
    }
}

/// A further page of an album's own list.
pub fn album_songs(page: &Json, album: &Json) -> (r: RestPage<Track>)
    ensures
        seen(r.rows@) == json::chosen(
            json::items_in(json::in_object(*page, "items"@)),
            |i: Json| rest::song_of_album(i, *album),
        ),
        r.next@ == json::words(json::in_object(*page, "next"@)),
{
    let f = |item: &Json| -> (o: Option<Track>)
        ensures
            seen_opt(o) == rest::song_of_album(*item, *album),
        { rest::song_from_track_on_album(item, album) };
    RestPage {
        rows: choose_from(
            page.get("items"),
            f,
            Ghost(|i: Json| rest::song_of_album(i, *album)),
        ),
        next: json::words_of(page.get("next")),
    }
}

/// Whether a further page is asked for: there is one, and there is room.
pub fn wants_more(have: usize, max: usize, next: &str) -> (r: bool)
    ensures
        r == (have < max && next@.len() > 0),
{
    have < max && !next.is_empty()
}

/// Whether the public interface is asked for a section: the web player's answer
/// failed, or held nothing.
pub fn asks_rest(first: Option<usize>) -> (r: bool)
    ensures
        r == (first is None || first == Some(0usize)),
{
    match first {
        None => true,
        Some(n) => n == 0,
    }
}

/// What of a library's lists the web player is asked for.
#[derive(Debug, Clone, Copy, PartialEq, Eq, Structural)]
pub enum Filter {
    Playlists,
    Everything,
}

impl Filter {
    pub open spec fn spec_name(self) -> Seq<char> {
        match self {
            Filter::Playlists => "Playlists"@,
            Filter::Everything => ""@,
        }
    }

    /// What the web player calls it.
    pub fn name(self) -> (r: &'static str)
        ensures
            r@ == self.spec_name(),
    {
        match self {
            Filter::Playlists => "Playlists",
            Filter::Everything => "",
        }
    }
}

/// What to ask the web player for after an answer with so many playlists, or
/// none where it failed: where there are no playlists among the playlists,
/// everything.
pub fn next_filter(filter: Filter, found: Option<usize>) -> (r: Option<Filter>)
    ensures
        r == if filter is Playlists && found == Some(0usize) {
            Some(Filter::Everything)
        } else {
            None
        },
{
    match (filter, found) {
        (Filter::Playlists, Some(0)) => Some(Filter::Everything),
        _ => None,
    }
}

/// Whether what is new is asked for: the home shows no albums.
pub fn asks_for_news(home: &HomeFeed) -> (r: bool)
    ensures
        r == (home.albums@.len() == 0),
{
    home.albums.len() == 0
}

/// What one way of asking gave, else what the other did.
pub open spec fn preferred<T>(first: Option<Vec<T>>, other: Option<Vec<T>>) -> Option<Vec<T>> {
    match first {
        Some(rows) => if rows@.len() > 0 || other is None || other->0@.len() == 0 {
            first
        } else {
            other
        },
        None => other,
    }
}

/// What one way of asking gave, else what the other did: the other is taken
/// where the first failed, or gave nothing while the other gives something.
pub fn prefer<T>(first: Option<Vec<T>>, other: Option<Vec<T>>) -> (r: Option<Vec<T>>)
    ensures
        r == match first {
            Some(rows) => if rows@.len() > 0 || other is None || other->0@.len() == 0 {
                first
            } else {
                other
            },
            None => other,
        },
        r == preferred(first, other),
{
    match first {
        Some(rows) => {
            if rows.len() > 0 {
                return Some(rows);
            }
            match other {
                Some(more) => if more.len() > 0 {
                    Some(more)
                } else {
                    Some(rows)
                },
                None => Some(rows),
            }
        },
        None => other,
    }
}

/// Whether a playlist with this id is there.
pub open spec fn has_list(lists: Seq<PlaylistView>, id: Seq<char>) -> bool {
    exists|i: int| 0 <= i < lists.len() && (#[trigger] lists[i]).id == id
}

fn holds_list(lists: &Vec<Playlist>, id: &str) -> (r: bool)
    ensures
        r == has_list(seen(lists@), id@),
{
    let ghost views = seen(lists@);
    let mut i: usize = 0;
    while i < lists.len()
        invariant
            i <= lists@.len(),
            views == seen(lists@),
            forall|j: int| 0 <= j < i ==> (#[trigger] views[j]).id != id@,
        decreases lists@.len() - i,
    {
        assert(views[i as int] == lists@[i as int]@);
        if text::same(lists[i].id.as_str(), id) {
            return true;
        }
        i += 1;
    }
    false
}

/// Playlists, with those behind them that are not among them yet.
pub open spec fn merged(into: Seq<PlaylistView>, extra: Seq<PlaylistView>) -> Seq<PlaylistView>
    decreases extra.len(),
{
    if extra.len() == 0 {
        into
    } else {
        let r = merged(into, extra.drop_last());
        if has_list(r, extra.last().id) {
            r
        } else {
            r.push(extra.last())
        }
    }
}

/// Put playlists behind others, those that are not among them yet.
pub fn merge_playlists(into: &mut Vec<Playlist>, extra: &Vec<Playlist>)
    ensures
        seen(final(into)@) == merged(seen(old(into)@), seen(extra@)),
{
    let ghost before = seen(into@);
    let ghost more = seen(extra@);
    let mut i: usize = 0;
    assert(more.take(0) =~= Seq::<PlaylistView>::empty());
    while i < extra.len()
        invariant
            i <= extra@.len(),
            more == seen(extra@),
            seen(into@) == merged(before, more.take(i as int)),
        decreases extra@.len() - i,
    {
        proof {
            text::take_step(more, i as int);
            assert(more.take(i + 1).drop_last() =~= more.take(i as int));
            assert(more[i as int] == extra@[i as int]@);
        }
        if !holds_list(into, extra[i].id.as_str()) {
            let ghost into0 = into@;
            let copy = extra[i].clone();
            into.push(copy);
            assert(seen(into@) =~= seen(into0).push(copy@));
        }
        i += 1;
    }
    assert(more.take(i as int) =~= more);
}

/// Merging keeps what was there in front, brings every id, and adds none twice.
pub proof fn merging_loses_nothing(into: Seq<PlaylistView>, extra: Seq<PlaylistView>)
    ensures
        into.len() <= merged(into, extra).len(),
        merged(into, extra).take(into.len() as int) == into,
        forall|i: int|
            0 <= i < extra.len() ==> has_list(merged(into, extra), (#[trigger] extra[i]).id),
        forall|i: int, j: int|
            0 <= i < j < merged(into, extra).len() && j >= into.len() ==> (
            #[trigger] merged(into, extra)[i]).id != (#[trigger] merged(into, extra)[j]).id,
    decreases extra.len(),
{
    if extra.len() == 0 {
        assert(merged(into, extra).take(into.len() as int) =~= into);
    } else {
        let rest = extra.drop_last();
        merging_loses_nothing(into, rest);
        let kept = merged(into, rest);
        let all = merged(into, extra);
        assert(all.take(into.len() as int) =~= kept.take(into.len() as int));
        assert forall|i: int| 0 <= i < extra.len() implies has_list(
            all,
            (#[trigger] extra[i]).id,
        ) by {
            if i < rest.len() {
                assert(rest[i] == extra[i]);
                let k = choose|k: int| 0 <= k < kept.len() && (#[trigger] kept[k]).id == rest[i].id;
                assert(all[k] == kept[k]);
            } else if has_list(kept, extra.last().id) {
                let k = choose|k: int|
                    0 <= k < kept.len() && (#[trigger] kept[k]).id == extra.last().id;
                assert(all[k] == kept[k]);
            } else {
                assert(all[kept.len() as int] == extra.last());
            }
        }
        assert forall|i: int, j: int| 0 <= i < j < all.len() && j >= into.len() implies (
        #[trigger] all[i]).id != (#[trigger] all[j]).id by {
            assert(all[i] == kept[i]);
            if j < kept.len() {
                assert(all[j] == kept[j]);
            }
        }
    }
}

/// Whether a playlist is somebody's own, and not one that Spotify makes.
pub open spec fn is_own(id: Seq<char>) -> bool {
    "sp:playlist:"@.is_prefix_of(id) && !text::occurs(id, "sp:playlist:37i9"@)
}

/// Whether a playlist is somebody's own.
pub fn is_user_playlist(list: &Playlist) -> (r: bool)
    ensures
        r == is_own(list.id@),
{
    text::starts_with(list.id.as_str(), "sp:playlist:") && !text::contains(
        list.id.as_str(),
        "sp:playlist:37i9",
    )
}

/// Whether the public interface is asked for playlists too: none of those there
/// is somebody's own.
pub fn needs_own_playlists(lists: &Vec<Playlist>) -> (r: bool)
    ensures
        r == text::nowhere(lists@, |p: Playlist| is_own(p.id@)),
{
    let mut i: usize = 0;
    while i < lists.len()
        invariant
            i <= lists@.len(),
            forall|j: int| 0 <= j < i ==> !is_own((#[trigger] lists@[j]).id@),
        decreases lists@.len() - i,
    {
        if is_user_playlist(&lists[i]) {
            proof {
                let p = |p: Playlist| is_own(p.id@);
                assert(p(lists@[i as int]));
            }
            return false;
        }
        i += 1;
    }
    true
}

/// Where the liked songs are.
pub open spec fn liked_at(lists: Seq<PlaylistView>) -> Option<int>
    decreases lists.len(),
{
    if lists.len() == 0 {
        None
    } else if lists[0].id == "sp:liked"@ {
        Some(0)
    } else {
        match liked_at(lists.skip(1)) {
            Some(i) => Some(i + 1),
            None => None,
        }
    }
}

/// The list of liked songs with what it lacks: a name, and a picture.
pub open spec fn completed(
    language: Language,
    list: PlaylistView,
    songs: Seq<Track>,
) -> PlaylistView {
    PlaylistView {
        name: if list.name.len() == 0 {
            i18n::sentence(language, Key::LikedSongs)
        } else {
            list.name
        },
        artwork: if list.artwork is None {
            first_picture(songs)
        } else {
            list.artwork
        },
        library: true,
        ..list
    }
}

/// Playlists with the liked songs in front of them.
pub open spec fn with_liked(
    language: Language,
    lists: Seq<PlaylistView>,
    songs: Seq<Track>,
) -> Seq<PlaylistView> {
    match liked_at(lists) {
        Some(i) => seq![completed(language, lists[i], songs)] + lists.remove(i),
        None => seq![liked(language, songs)] + lists,
    }
}

proof fn liked_is_there(lists: Seq<PlaylistView>)
    ensures
        match liked_at(lists) {
            Some(i) => 0 <= i < lists.len() && lists[i].id == "sp:liked"@ && forall|j: int|
                0 <= j < i ==> (#[trigger] lists[j]).id != "sp:liked"@,
            None => forall|j: int| 0 <= j < lists.len() ==> (#[trigger] lists[j]).id != "sp:liked"@,
        },
    decreases lists.len(),
{
    if lists.len() > 0 && lists[0].id != "sp:liked"@ {
        let rest = lists.skip(1);
        liked_is_there(rest);
        match liked_at(rest) {
            Some(i) => {
                assert(rest[i] == lists[i + 1]);
                assert forall|j: int| 0 <= j < i + 1 implies (#[trigger] lists[j]).id
                    != "sp:liked"@ by {
                    if j > 0 {
                        assert(rest[j - 1] == lists[j]);
                    }
                }
            },
            None => {
                assert forall|j: int| 0 <= j < lists.len() implies (#[trigger] lists[j]).id
                    != "sp:liked"@ by {
                    if j > 0 {
                        assert(rest[j - 1] == lists[j]);
                    }
                }
            },
        }
    }
}

/// Put the liked songs in front of playlists.
pub fn ensure_liked_playlist(
    language: Language,
    playlists: &mut Vec<Playlist>,
    songs: &Vec<Track>,
)
    ensures
        seen(final(playlists)@) == with_liked(language, seen(old(playlists)@), songs@),
{
    let ghost before = seen(playlists@);
    proof {
        liked_is_there(before);
    }
    let mut i: usize = 0;
    while i < playlists.len() && !text::same(playlists[i].id.as_str(), "sp:liked")
        invariant
            i <= playlists@.len(),
            before == seen(playlists@),
            *playlists == *old(playlists),
            forall|j: int| 0 <= j < i ==> (#[trigger] before[j]).id != "sp:liked"@,
        decreases playlists@.len() - i,
    {
        assert(before[i as int] == playlists@[i as int]@);
        i += 1;
    }
    if i < playlists.len() {
        assert(before[i as int] == playlists@[i as int]@);
        assert(liked_at(before) == Some(i as int));
        let mut list = playlists.remove(i);
        if list.name.as_str().is_empty() {
            list.name = i18n::t(language, Key::LikedSongs).to_owned();
        }
        if list.artwork.is_none() {
            list.artwork = if songs.len() > 0 {
                songs[0].artwork.clone()
            } else {
                None
            };
        }
        list.library = true;
        playlists.insert(0, list);
        assert(seen(playlists@) =~= with_liked(language, before, songs@));
    } else {
        assert(liked_at(before) is None);
        let list = feeds::liked_playlist(language, songs);
        playlists.insert(0, list);
        assert(seen(playlists@) =~= with_liked(language, before, songs@));
    }
}

/// The liked songs come first, and the other playlists keep their order; doing
/// it again changes nothing but what was lacking.
pub proof fn liked_songs_come_first(
    language: Language,
    lists: Seq<PlaylistView>,
    songs: Seq<Track>,
)
    ensures
        with_liked(language, lists, songs).len() > 0,
        with_liked(language, lists, songs)[0].id == "sp:liked"@,
        with_liked(language, lists, songs)[0].library,
        liked_at(with_liked(language, lists, songs)) == Some(0int),
        with_liked(language, with_liked(language, lists, songs), songs) == with_liked(
            language,
            lists,
            songs,
        ),
{
    liked_is_there(lists);
    let once = with_liked(language, lists, songs);
    i18n_is_not_empty(language);
    assert(once.remove(0) =~= once.skip(1));
    assert(with_liked(language, once, songs) =~= once);
}

proof fn i18n_is_not_empty(language: Language)
    ensures
        i18n::sentence(language, Key::LikedSongs).len() > 0,
{
    reveal_strlit("Liked Songs");
    reveal_strlit("Canciones que te gustan");
}

/// A library of what could be had. Nothing at all is no library.
pub fn library_from_parts(
    language: Language,
    songs: Vec<Track>,
    albums: Vec<Album>,
    artists: Vec<Artist>,
    playlists: Vec<Playlist>,
) -> (r: Option<Library>)
    ensures
        if songs@.len() == 0 && albums@.len() == 0 && artists@.len() == 0 && playlists@.len()
            == 0 {
            r is None
        } else {
            &&& r matches Some(l)
            &&& l.songs == songs
            &&& l.albums == albums
            &&& l.artists == artists
            &&& seen(l.playlists@) == with_liked(language, seen(playlists@), songs@)
        },
{
    if songs.len() == 0 && albums.len() == 0 && artists.len() == 0 && playlists.len() == 0 {
        return None;
    }
    let mut lists = playlists;
    ensure_liked_playlist(language, &mut lists, &songs);
    Some(Library { songs, albums, artists, playlists: lists })
}

/// The sections of a library, in the order that they are asked for.
#[derive(Debug, Clone, Copy, PartialEq, Eq, Structural)]
pub enum Section {
    Playlists,
    Songs,
    Albums,
    Artists,
}

/// The section to ask for next.
pub open spec fn following(section: Section, cooling_down: bool) -> Option<Section> {
    if cooling_down {
        None
    } else {
        match section {
            Section::Playlists => Some(Section::Songs),
            Section::Songs => Some(Section::Albums),
            Section::Albums => Some(Section::Artists),
            Section::Artists => None,
        }
    }
}

/// The section to ask for next: none once all were asked for, or while Spotify
/// wants to be left alone.
pub fn next_section(section: Section, cooling_down: bool) -> (r: Option<Section>)
    ensures
        r == if cooling_down {
            None
        } else {
            match section {
                Section::Playlists => Some(Section::Songs),
                Section::Songs => Some(Section::Albums),
                Section::Albums => Some(Section::Artists),
                Section::Artists => None,
            }
        },
        r == following(section, cooling_down),
{
    if cooling_down {
        return None;
    }
    match section {
        Section::Playlists => Some(Section::Songs),
        Section::Songs => Some(Section::Albums),
        Section::Albums => Some(Section::Artists),
        Section::Artists => None,
    }
}

/// Whether the library so far is told of once a section came in with so many
/// things. The last one is told of with the whole.
pub fn tells_of(section: Section, came: usize) -> (r: bool)
    ensures
        r == (came > 0 && !(section is Artists)),
{
    came > 0 && !matches!(section, Section::Artists)
}

/// Whether the liked songs are put among the playlists once a section came in
/// with so many things: the playlists themselves, or the songs.
pub fn adds_liked(section: Section, came: usize) -> (r: bool)
    ensures
        r == (came > 0 && (section is Playlists || section is Songs)),
{
    came > 0 && matches!(section, Section::Playlists | Section::Songs)
}

/// Whether a name is one that Spotify gives to a playlist it makes for
/// somebody.
pub open spec fn is_made_for_you(name: Seq<char>) -> bool {
    let n = text::ascii_lower(name);
    ||| text::occurs(n, "discover weekly"@)
    ||| text::occurs(n, "release radar"@)
    ||| text::occurs(n, "daily mix"@)
    ||| text::occurs(n, "on repeat"@)
    ||| text::occurs(n, "repeat rewind"@)
    ||| text::occurs(n, "tu mezcla"@)
    ||| text::occurs(n, "radar de novedades"@)
    ||| text::occurs(n, "descubrir"@)
}

/// Whether a name is one that Spotify gives to a playlist it makes for
/// somebody.
pub fn looks_made_for_you(name: &str) -> (r: bool)
    ensures
        r == is_made_for_you(name@),
{
    let low = text::to_ascii_lower(name);
    let n = low.as_str();
    text::contains(n, "discover weekly") || text::contains(n, "release radar") || text::contains(
        n,
        "daily mix",
    ) || text::contains(n, "on repeat") || text::contains(n, "repeat rewind") || text::contains(
        n,
        "tu mezcla",
    ) || text::contains(n, "radar de novedades") || text::contains(n, "descubrir")
}

/// Whether a playlist is a mix, and not one that somebody added.
pub open spec fn is_mix(p: Playlist) -> bool {
    is_made_for_you(p.name@) || p.id@ == "sp:liked"@ || p.id@ == "sp:top"@
}

fn looks_like_mix(p: &Playlist) -> (r: bool)
    ensures
        r == is_mix(*p),
{
    looks_made_for_you(p.name.as_str()) || text::same(p.id.as_str(), "sp:liked") || text::same(
        p.id.as_str(),
        "sp:top",
    )
}

/// The playlists that are mixes, or those that are not.
fn mixes(lists: &Vec<Playlist>, wanted: bool) -> (r: Vec<Playlist>)
    ensures
        r@ == lists@.filter(|p: Playlist| is_mix(p) == wanted),
{
    let ghost f = |p: Playlist| is_mix(p) == wanted;
    let mut out: Vec<Playlist> = Vec::new();
    let mut i: usize = 0;
    proof {
        reveal(Seq::filter);
        assert(lists@.take(0) =~= Seq::<Playlist>::empty());
    }
    while i < lists.len()
        invariant
            i <= lists@.len(),
            f == (|p: Playlist| is_mix(p) == wanted),
            out@ =~= lists@.take(i as int).filter(f),
        decreases lists@.len() - i,
    {
        proof {
            text::filter_step(lists@, f, i as int);
        }
        if looks_like_mix(&lists[i]) == wanted {
            out.push(lists[i].clone());
        }
        i += 1;
    }
    assert(lists@.take(i as int) =~= lists@);
    out
}

/// The songs that are recommended: those of the home, else some of the
/// library's.
pub open spec fn recommended(home: HomeFeed, library: Library) -> Seq<Track> {
    if home.songs@.len() == 0 {
        at_most(library.songs@, 16)
    } else {
        home.songs@
    }
}

/// Whether `r` is the page to begin with, from the home of Spotify, what is new
/// there, and the library.
pub open spec fn is_discovered(r: Discover, home: HomeFeed, news: Seq<Album>, library: Library) -> bool {
    &&& r.charts@ == album_rows(
        if home.albums@.len() == 0 {
            news
        } else {
            at_most(home.albums@, 16)
        },
    )
    &&& r.recommended_playlists@ == playlist_rows(
        library.playlists@.filter(|p: Playlist| is_mix(p) == true),
    ) + playlist_rows(at_most(home.playlists@, 16))
    &&& r.recommended_songs@ == recommended(home, library)
    &&& r.recently_played@ == song_rows(
        if home.recent@.len() == 0 {
            at_most(recommended(home, library), 8)
        } else {
            home.recent@
        },
    )
    &&& r.recently_added@ == playlist_rows(
        at_most(library.playlists@.filter(|p: Playlist| is_mix(p) == false), 16),
    )
}

/// The page to begin with, from the home of Spotify, what is new there, and the
/// library.
pub fn discover(home: &HomeFeed, news: &Vec<Album>, library: &Library, chosen: Option<Provider>) -> (
    r: Discover)
    ensures
        r.charts@ == album_rows(
            if home.albums@.len() == 0 {
                news@
            } else {
                at_most(home.albums@, 16)
            },
        ),
        r.recommended_playlists@ == playlist_rows(
            library.playlists@.filter(|p: Playlist| is_mix(p) == true),
        ) + playlist_rows(at_most(home.playlists@, 16)),
        r.recommended_songs@ == recommended(*home, *library),
        r.recently_played@ == song_rows(
            if home.recent@.len() == 0 {
                at_most(recommended(*home, *library), 8)
            } else {
                home.recent@
            },
        ),
        r.recently_added@ == playlist_rows(
            at_most(library.playlists@.filter(|p: Playlist| is_mix(p) == false), 16),
        ),
        r.provider@ == crate::discover::chosen_word(chosen),
        is_discovered(r, *home, news@, *library),
{
    let mut charts: Vec<Entry> = Vec::new();
    if home.albums.len() == 0 {
        catalog::add_albums(&mut charts, news, news.len());
    } else {
        catalog::add_albums(&mut charts, &home.albums, 16);
    }
    let mut lists: Vec<Entry> = Vec::new();
    let made = mixes(&library.playlists, true);
    catalog::add_playlists(&mut lists, &made, made.len());
    catalog::add_playlists(&mut lists, &home.playlists, 16);
    let mut songs: Vec<Track> = Vec::new();
    if home.songs.len() == 0 {
        let mut i: usize = 0;
        while i < library.songs.len() && i < 16
            invariant
                i <= library.songs@.len(),
                i <= 16,
                songs@ =~= library.songs@.take(i as int),
            decreases library.songs@.len() - i,
        {
            songs.push(library.songs[i].clone());
            i += 1;
        }
        assert(songs@ =~= at_most(library.songs@, 16));
    } else {
        songs = home.songs.clone();
        assert(songs@ =~= home.songs@);
    }
    let mut played: Vec<Entry> = Vec::new();
    if home.recent.len() == 0 {
        catalog::add_songs(&mut played, &songs, 8);
    } else {
        catalog::add_songs(&mut played, &home.recent, home.recent.len());
    }
    let mut added: Vec<Entry> = Vec::new();
    let own = mixes(&library.playlists, false);
    catalog::add_playlists(&mut added, &own, 16);
    proof {
        let none = Seq::<Entry>::empty();
        assert(charts@ =~= album_rows(
            if home.albums@.len() == 0 {
                news@
            } else {
                at_most(home.albums@, 16)
            },
        ));
        assert(lists@ =~= playlist_rows(made@) + playlist_rows(at_most(home.playlists@, 16)));
        assert(added@ =~= playlist_rows(at_most(own@, 16)));
        assert(played@ =~= song_rows(
            if home.recent@.len() == 0 {
                at_most(recommended(*home, *library), 8)
            } else {
                home.recent@
            },
        ));
    }
    Discover::shelves(chosen, played, lists, songs, added, charts)
}

/// Pages follow each other without a gap: the next begins where a full one
/// ended, another is asked for only further on, and none is left to ask for
/// where a full page was the last.
pub proof fn pages_leave_no_gap(before: Paging, len: usize, total: u64, after: Paging, more: bool)
    requires
        has_stepped(before, len, total, after, more),
        before.limit > 0,
        before.offset + before.limit <= usize::MAX,
    ensures
        more ==> after.offset == before.offset + before.limit && len > 0,
        more ==> before.offset < after.offset < total,
        len == before.limit && !more ==> total <= after.offset,
        len < before.limit ==> !more,
        after.limit == before.limit,
        len == 0 ==> !more && after.offset == before.offset,
{
}

/// What is preferred holds something where either does; the first is kept where
/// it holds something; and it failed only where both did.
pub proof fn something_is_preferred_to_nothing<T>(first: Option<Vec<T>>, other: Option<Vec<T>>)
    ensures
        first matches Some(rows) ==> (rows@.len() > 0 ==> preferred(first, other) == first),
        other matches Some(rows) ==> (rows@.len() > 0 ==> preferred(first, other) is Some
            && preferred(first, other)->0@.len() > 0),
        preferred(first, other) is None == (first is None && other is None),
        preferred(first, other) == first || preferred(first, other) == other,
{
}

/// From the playlists on, every section is asked for once, and nothing is while
/// Spotify wants to be left alone.
pub proof fn every_section_is_asked_for_once(section: Section, other: Section)
    ensures
        following(section, true) is None,
        following(section, false) != Some(section),
        following(section, false) != Some(Section::Playlists),
        section != other && following(section, false) is Some ==> following(section, false)
            != following(other, false),
        following(section, false) is None == (section is Artists),
        following(Section::Playlists, false) == Some(Section::Songs),
{
}

/// The list of liked songs keeps what it says of itself.
pub proof fn what_the_liked_songs_say_stays(
    language: Language,
    list: PlaylistView,
    first: Track,
    songs: Seq<Track>,
)
    ensures
        completed(language, list, songs).id == list.id,
        completed(language, list, songs).description == list.description,
        completed(language, list, songs).curator == list.curator,
        completed(language, list, songs).library,
        list.name.len() > 0 ==> completed(language, list, songs).name == list.name,
        list.name.len() == 0 ==> completed(language, list, songs).name == i18n::sentence(
            language,
            Key::LikedSongs,
        ),
        list.artwork is Some ==> completed(language, list, songs).artwork == list.artwork,
        list.artwork is None ==> completed(language, list, seq![first] + songs).artwork
            == crate::music::types::picture(first.artwork),
{
    assert((seq![first] + songs)[0] == first);
}

/// Putting the liked songs in front leaves every other playlist there, in its
/// order.
pub proof fn the_other_playlists_stay(
    language: Language,
    lists: Seq<PlaylistView>,
    songs: Seq<Track>,
    i: int,
)
    requires
        0 <= i < lists.len(),
    ensures
        liked_at(lists) is None ==> with_liked(language, lists, songs)[i + 1] == lists[i],
        liked_at(lists) matches Some(k) ==> i < k ==> with_liked(language, lists, songs)[i + 1]
            == lists[i],
        liked_at(lists) matches Some(k) ==> i > k ==> with_liked(language, lists, songs)[i]
            == lists[i],
        with_liked(language, lists, songs).len() == lists.len() + if liked_at(lists) is None {
            1int
        } else {
            0int
        },
        with_liked(language, lists, songs)[0].id == "sp:liked"@,
{
    liked_is_there(lists);
}

/// A page gives no more than there is room for, and all where there is room,
/// from the front.
pub proof fn a_page_gives_what_there_is_room_for(items: Option<Json>, room: int, i: int)
    requires
        room >= 0,
        0 <= i < first_in(items, room).len(),
    ensures
        first_in(items, room).len() <= room,
        json::items_in(items).len() <= room ==> first_in(items, room) == json::items_in(items),
        json::items_in(items).len() > room ==> first_in(items, room).len() == room,
        first_in(items, room)[i] == json::items_in(items)[i],
{
}

/// Behind an empty page there is none, and behind any other the one that the
/// answer names.
pub proof fn an_empty_page_is_the_last(items: Option<Json>, next: Json, address: String)
    requires
        next == Json::Text(address),
    ensures
        json::items_in(items).len() == 0 ==> next_in(items, Some(next)).len() == 0,
        json::items_in(items).len() > 0 ==> next_in(items, Some(next)) == address@,
        json::items_in(items).len() > 0 ==> next_in(items, None).len() == 0,
{
}

/// A saved song is liked and in the library, and was added when the place says;
/// a song of a playlist is in the library and not liked by that.
pub proof fn a_saved_song_is_liked(item: Json, track: Json, when: Seq<char>)
    requires
        json::in_object(item, "track"@) == Some(track),
        json::says(item, "added_at"@, when),
    ensures
        saved_track_in(item) matches Some(song) ==> song.favorite && song.in_library
            && song.date_added == when,
        listed_song_in(item) matches Some(song) ==> !song.favorite && song.in_library
            && song.date_added == when,
        saved_track_in(item) is Some == rest::hit_on(
            track,
            json::in_object(track, "album"@),
        ) is Some,
        (saved_track_in(item), rest::hit_on(track, json::in_object(track, "album"@))) matches (
            Some(song),
            Some(hit),
        ) ==> song.id == hit.id && song.title == hit.title && song.artist == hit.artist,
        (listed_song_in(item), rest::hit_on(track, json::in_object(track, "album"@))) matches (
            Some(song),
            Some(hit),
        ) ==> song.id == hit.id && song.title == hit.title && song.artist == hit.artist,
{
}

/// A saved album is of the library, and was added when the place says.
pub proof fn a_saved_album_is_of_the_library(item: Json, album: Json, id: Seq<char>, when: Seq<char>)
    requires
        json::in_object(item, "album"@) == Some(album),
        json::says(item, "added_at"@, when),
        json::says(album, "id"@, id),
    ensures
        saved_album_in(item) matches Some(a) && a.library && a.date_added == when && a.id
            == "sp:album:"@ + id,
{
}

/// A song of an album's own list has the number of its place where it has none.
pub proof fn a_song_without_a_number_has_its_place(item: Json, i: int, album: Json)
    requires
        0 <= i < u32::MAX,
    ensures
        numbered(item, i, album) is Some == rest::song_of_album(item, album) is Some,
        (numbered(item, i, album), rest::song_of_album(item, album)) matches (Some(a), Some(b))
            ==> {
            &&& b.track_number == 0 ==> a.track_number == i + 1
            &&& b.track_number != 0 ==> a.track_number == b.track_number
            &&& a.id == b.id
            &&& a.title == b.title
            &&& a.artist == b.artist
            &&& a.album == b.album
            &&& a.artwork == b.artwork
        },
{
}

/// An answer without a library, and one that refuses the filter, is refused;
/// any other is read.
pub proof fn a_library_is_refused_for_a_reason(value: Json, data: Json, me: Json, lib: Json)
    requires
        json::in_object(value, "data"@) == Some(data),
        json::in_object(data, "me"@) == Some(me),
    ensures
        json::in_object(me, "libraryV3"@) is None ==> library_in(value) == Err::<Json, Refusal>(
            Refusal::Missing,
        ),
        json::in_object(me, "libraryV3"@) == Some(lib) && json::says(
            lib,
            "__typename"@,
            "LibraryInvalidFilterIdError"@,
        ) ==> library_in(value) == Err::<Json, Refusal>(Refusal::Filter),
        json::in_object(me, "libraryV3"@) == Some(lib) && !json::says(
            lib,
            "__typename"@,
            "LibraryInvalidFilterIdError"@,
        ) ==> library_in(value) == Ok::<Json, Refusal>(lib),
{
}

/// A playlist is somebody's own where its id is one of a playlist and does not
/// begin as those that Spotify makes do.
pub proof fn an_own_playlist_is_not_made_by_spotify(rest: Seq<char>)
    ensures
        !is_own("sp:liked"@),
        !is_own("sp:top"@),
        !is_own("sp:playlist:37i9"@ + rest),
        rest.len() > 0 && (forall|i: int| 0 <= i < rest.len() ==> #[trigger] rest[i] != ':')
            && rest[0] != '3' ==> is_own("sp:playlist:"@ + rest),
{
    reveal_strlit("sp:liked");
    reveal_strlit("sp:top");
    reveal_strlit("sp:playlist:");
    reveal_strlit("sp:playlist:37i9");
    assert("sp:liked"@.len() < "sp:playlist:"@.len());
    assert("sp:top"@.len() < "sp:playlist:"@.len());
    let made = "sp:playlist:37i9"@ + rest;
    assert(made.subrange(0, 16) =~= "sp:playlist:37i9"@);
    assert(text::occurs_at(made, "sp:playlist:37i9"@, 0));
    assert(text::occurs(made, "sp:playlist:37i9"@));
    if rest.len() > 0 && (forall|i: int| 0 <= i < rest.len() ==> #[trigger] rest[i] != ':')
        && rest[0] != '3' {
        let id = "sp:playlist:"@ + rest;
        assert("sp:playlist:"@.is_prefix_of(id));
        if text::occurs(id, "sp:playlist:37i9"@) {
            let i = choose|i: int| text::occurs_at(id, "sp:playlist:37i9"@, i);
            let part = id.subrange(i, i + 16);
            assert(part =~= "sp:playlist:37i9"@);
            assert(part[2] == ':' && part[2] == id[i + 2]);
            assert(part[11] == ':' && part[11] == id[i + 11]);
            assert(part[12] == '3' && part[12] == id[i + 12]);
            if i + 11 >= 12 {
                assert(id[i + 11] == rest[i - 1]);
                assert(false);
            }
            assert(i == 0);
            assert(id[12] == rest[0]);
            assert(false);
        }
    }
}

/// A playlist that Spotify makes for somebody is recommended and is not shown
/// among those that were added; any other is not recommended on that account.
/// No shelf holds more than it should.
pub proof fn a_mix_is_recommended(
    r: Discover,
    home: HomeFeed,
    news: Seq<Album>,
    library: Library,
    i: int,
    k: int,
)
    requires
        is_discovered(r, home, news, library),
        0 <= i < library.playlists@.len(),
        0 <= k < r.recently_added@.len(),
    ensures
        is_mix(library.playlists@[i]) ==> r.recommended_playlists@.contains(
            Entry::Playlist(library.playlists@[i]),
        ),
        r.recently_added@[k] matches Entry::Playlist(p) && !is_mix(p)
            && library.playlists@.contains(p),
        r.recently_added@.len() <= 16,
        home.albums@.len() == 0 ==> r.charts@.len() == news.len(),
        home.albums@.len() > 0 ==> r.charts@.len() <= 16 && r.charts@[0] == Entry::Album(
            home.albums@[0],
        ),
        home.recent@.len() > 0 ==> r.recently_played@.len() == home.recent@.len()
            && r.recently_played@[0] == Entry::Song(home.recent@[0]),
        home.recent@.len() == 0 ==> r.recently_played@.len() <= 8,
        home.songs@.len() > 0 ==> r.recommended_songs@ == home.songs@,
        home.songs@.len() == 0 && library.songs@.len() > 0 ==> r.recommended_songs@.len() <= 16
            && r.recommended_songs@.len() > 0 && r.recommended_songs@[0] == library.songs@[0],
{
    broadcast use vstd::seq_lib::group_filter_ensures;

    let lists = library.playlists@;
    let yes = |p: Playlist| is_mix(p) == true;
    let no = |p: Playlist| is_mix(p) == false;
    if is_mix(lists[i]) {
        assert(lists.filter(yes).contains(lists[i]));
        let at = choose|at: int|
            0 <= at < lists.filter(yes).len() && lists.filter(yes)[at] == lists[i];
        assert(playlist_rows(lists.filter(yes))[at] == Entry::Playlist(lists[i]));
        assert(r.recommended_playlists@[at] == Entry::Playlist(lists[i]));
    }
    let p = lists.filter(no)[k];
    assert(r.recently_added@[k] == Entry::Playlist(p));
    assert(lists.filter(no).contains(p));
    lists.lemma_filter_contains_rev(no, p);
}

/// A name that Spotify gives to a playlist it makes is known whatever its
/// capitals, and wherever in the name it stands.
pub proof fn a_made_name_is_known(name: Seq<char>, other: Seq<char>)
    requires
        text::ascii_lower(name) == text::ascii_lower(other),
    ensures
        is_made_for_you(name) == is_made_for_you(other),
        text::occurs(text::ascii_lower(name), "discover weekly"@) ==> is_made_for_you(name),
        text::occurs(text::ascii_lower(name), "daily mix"@) ==> is_made_for_you(name),
        text::occurs(text::ascii_lower(name), "release radar"@) ==> is_made_for_you(name),
        text::occurs(text::ascii_lower(name), "on repeat"@) ==> is_made_for_you(name),
        text::occurs(text::ascii_lower(name), "repeat rewind"@) ==> is_made_for_you(name),
        text::occurs(text::ascii_lower(name), "tu mezcla"@) ==> is_made_for_you(name),
        text::occurs(text::ascii_lower(name), "radar de novedades"@) ==> is_made_for_you(name),
        text::occurs(text::ascii_lower(name), "descubrir"@) ==> is_made_for_you(name),
{
}

/// A page says what could be read of its things, in their order, how many they
/// were, and how many there are in all.
pub proof fn a_page_counts_its_things<T: View>(
    page: Page<T>,
    holder: Json,
    l: Seq<Json>,
    g: spec_fn(Json) -> Option<T::V>,
    total: u64,
    i: int,
)
    requires
        is_page(page, holder, g),
        json::list_in(json::in_object(holder, "items"@)) == Some(l),
        json::in_object(holder, "totalCount"@) == Some(Json::Number(json::Number::Whole(total))),
    ensures
        page.len == l.len(),
        page.total == total,
        page.rows@.len() <= l.len(),
        (forall|j: int| 0 <= j < l.len() ==> g(#[trigger] l[j]) is Some) && 0 <= i < l.len()
            ==> page.rows@.len() == l.len() && Some(page.rows@[i]@) == g(l[i]),
{
    all_or_fewer(l, g);
    assert(seen(page.rows@).len() == page.rows@.len());
    if (forall|j: int| 0 <= j < l.len() ==> g(#[trigger] l[j]) is Some) && 0 <= i < l.len() {
        assert(seen(page.rows@)[i] == page.rows@[i]@);
    }
}

proof fn all_or_fewer<B>(s: Seq<Json>, f: spec_fn(Json) -> Option<B>)
    ensures
        json::chosen(s, f).len() <= s.len(),
        (forall|j: int| 0 <= j < s.len() ==> f(#[trigger] s[j]) is Some) ==> json::chosen(
            s,
            f,
        ).len() == s.len() && forall|j: int|
            0 <= j < s.len() ==> Some(#[trigger] json::chosen(s, f)[j]) == f(s[j]),
    decreases s.len(),
{
    if s.len() > 0 {
        let rest = s.drop_last();
        all_or_fewer(rest, f);
        if (forall|j: int| 0 <= j < s.len() ==> f(#[trigger] s[j]) is Some) {
            assert forall|j: int| 0 <= j < rest.len() implies f(#[trigger] rest[j]) is Some by {
                assert(rest[j] == s[j]);
            }
            assert(f(s[s.len() - 1]) is Some);
            let r = json::chosen(s, f);
            assert forall|j: int| 0 <= j < s.len() implies Some(#[trigger] r[j]) == f(s[j]) by {
                if j < rest.len() {
                    assert(rest[j] == s[j]);
                    assert(Some(json::chosen(rest, f)[j]) == f(rest[j]));
                }
            }
        }
    }
}

/// The songs of an album's own list come in their order, each with the number of
/// its place where it has none.
pub proof fn an_albums_songs_keep_their_order(items: Seq<Json>, one: Json, album: Json)
    ensures
        all_numbered(Seq::empty(), album).len() == 0,
        numbered(one, items.len() as int, album) matches Some(s) ==> all_numbered(
            items.push(one),
            album,
        ) == all_numbered(items, album).push(s),
        numbered(one, items.len() as int, album) is None ==> all_numbered(items.push(one), album)
            == all_numbered(items, album),
{
    assert(items.push(one).drop_last() =~= items);
}

} // verus!
