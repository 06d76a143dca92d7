//! The pages that Apple Music answers with: a list of one kind, a search, an
//! album with its songs, an artist with their albums.
use vstd::prelude::*;

use crate::catalog::SearchResults;
use crate::json::{self, Json};
use crate::music::attributes;
use crate::music::client::{mark_songs, related, related_id, relation, relation_of};
use crate::music::mixed::{not_null, present, present_in, unless_null};
use crate::music::types::{
    seen, seen_opt, Album, AlbumView, Artist, ArtistView, Playlist, PlaylistView, SongView, Track,
    TrackId,
};
use crate::text;

verus! {

/// The song that is nothing but an id.
pub open spec fn bare_song(id: Seq<char>) -> SongView {
    SongView {
        id,
        catalog_id: None,
        favorite: false,
        in_library: false,
        library_id: None,
        date_added: Seq::empty(),
        year: Seq::empty(),
        title: Seq::empty(),
        artist: Seq::empty(),
        album: Seq::empty(),
        duration_ms: 0,
        track_number: 0,
        artwork: None,
    }
}

/// The song that a resource is. One that says where it is in the library is in
/// it; one that says so in a form that cannot be read is none.
pub open spec fn song_in(v: Json) -> Option<SongView> {
    match json::text_in(json::in_object(v, "id"@)) {
        None => None,
        Some(id) => {
            let own = match present(v, "attributes"@) {
                Some(a) => attributes::song_in(id, a, false),
                None => Some(bare_song(id)),
            };
            match related(v, "library"@) {
                None => None,
                Some(None) => own,
                Some(Some(l)) => match own {
                    Some(s) => Some(SongView { in_library: true, library_id: Some(l), ..s }),
                    None => None,
                },
            }
        },
    }
}

/// The song that a resource is.
pub fn song(v: &Json) -> (r: Option<Track>)
    ensures
        seen_opt(r) == song_in(*v),
{
    let id = match json::text_of(v.get("id")) {
        Some(id) => id,
        None => return None,
    };
    let own = match present_in(v, "attributes") {
        Some(a) => attributes::song(id, a, false),
        None => {
            let t = Track {
                id: TrackId(id.to_owned()),
                catalog_id: None,
                favorite: false,
                in_library: false,
                library_id: None,
                date_added: String::new(),
                year: String::new(),
                title: String::new(),
                artist: String::new(),
                album: String::new(),
                duration_ms: 0,
                track_number: 0,
                artwork: None,
            };
            proof {
                assert(t.date_added@ =~= Seq::<char>::empty());
                assert(t@ == bare_song(id@));
            }
            Some(t)
        },
    };
    match (own, related_id(v, "library")) {
        (Some(track), Some(library)) => {
            let mut track = track;
            if let Some(library) = library {
                track.in_library = true;
                track.library_id = Some(library);
            }
            Some(track)
        },
        _ => None,
    }
}

/// The album that a resource is.
pub open spec fn album_in(v: Json) -> Option<AlbumView> {
    match json::text_in(json::in_object(v, "id"@)) {
        None => None,
        Some(id) => match present(v, "attributes"@) {
            Some(a) => attributes::album_in(id, a, false),
            None => Some(
                AlbumView {
                    id,
                    date_added: Seq::empty(),
                    name: Seq::empty(),
                    artist: Seq::empty(),
                    artwork: None,
                    year: Seq::empty(),
                    library: false,
                    track_count: 0,
                },
            ),
        },
    }
}

/// The album that a resource is.
pub fn album(v: &Json) -> (r: Option<Album>)
    ensures
        seen_opt(r) == album_in(*v),
{
    match json::text_of(v.get("id")) {
        None => None,
        Some(id) => match present_in(v, "attributes") {
            Some(a) => attributes::album(id, a, false),
            None => {
                let a = Album {
                    id: id.to_owned(),
                    date_added: String::new(),
                    name: String::new(),
                    artist: String::new(),
                    artwork: None,
                    year: String::new(),
                    library: false,
                    track_count: 0,
                };
                assert(a.date_added@ =~= Seq::<char>::empty());
                Some(a)
            },
        },
    }
}

/// The playlist that a resource is.
pub open spec fn playlist_in(v: Json) -> Option<PlaylistView> {
    match json::text_in(json::in_object(v, "id"@)) {
        None => None,
        Some(id) => match present(v, "attributes"@) {
            Some(a) => attributes::playlist_in(id, a, false),
            None => Some(
                PlaylistView {
                    id,
                    date_added: Seq::empty(),
                    last_modified: Seq::empty(),
                    name: Seq::empty(),
                    curator: Seq::empty(),
                    description: Seq::empty(),
                    artwork: None,
                    library: false,
                },
            ),
        },
    }
}

/// The playlist that a resource is.
pub fn playlist(v: &Json) -> (r: Option<Playlist>)
    ensures
        seen_opt(r) == playlist_in(*v),
{
    match json::text_of(v.get("id")) {
        None => None,
        Some(id) => match present_in(v, "attributes") {
            Some(a) => attributes::playlist(id, a, false),
            None => {
                let p = Playlist {
                    id: id.to_owned(),
                    date_added: String::new(),
                    last_modified: String::new(),
                    name: String::new(),
                    curator: String::new(),
                    description: String::new(),
                    artwork: None,
                    library: false,
                };
                assert(p.date_added@ =~= Seq::<char>::empty());
                Some(p)
            },
        },
    }
}

/// The artist that a resource is.
pub open spec fn artist_in(v: Json) -> Option<ArtistView> {
    match json::text_in(json::in_object(v, "id"@)) {
        None => None,
        Some(id) => match present(v, "attributes"@) {
            Some(a) => attributes::artist_in(id, a, false),
            None => Some(
                ArtistView {
                    id,
                    name: Seq::empty(),
                    artwork: None,
                    genres: Seq::empty(),
                    library: false,
                },
            ),
        },
    }
}

/// The artist that a resource is.
pub fn artist(v: &Json) -> (r: Option<Artist>)
    ensures
        seen_opt(r) == artist_in(*v),
{
    match json::text_of(v.get("id")) {
        None => None,
        Some(id) => match present_in(v, "attributes") {
            Some(a) => attributes::artist(id, a, false),
            None => {
                let a = Artist {
                    id: id.to_owned(),
                    name: String::new(),
                    artwork: None,
                    genres: String::new(),
                    library: false,
                };
                assert(a.name@ =~= Seq::<char>::empty());
                Some(a)
            },
        },
    }
}

/// The things that an answer lists, all of them of one kind.
pub open spec fn listed<V>(v: Option<Json>, f: spec_fn(Json) -> Option<V>) -> Option<Seq<V>> {
    match json::list_in(json::under(v, "data"@)) {
        Some(l) => json::every(l, f),
        None => None,
    }
}

/// What a list of things says, if there is one.
pub open spec fn seen_all<T: View>(v: Option<Vec<T>>) -> Option<Seq<T::V>> {
    match v {
        Some(l) => Some(seen(l@)),
        None => None,
    }
}

/// The songs that an answer lists. One that lists anything else is none.
pub fn songs(v: Option<&Json>) -> (r: Option<Vec<Track>>)
    ensures
        seen_all(r) == listed(json::held(v), |j: Json| song_in(j)),
{
    match json::list_of(json::at(v, "data")) {
        Some(l) => json::every_item(l, song, Ghost(|j: Json| song_in(j))),
        None => None,
    }
}

/// The albums that an answer lists. One that lists anything else is none.
pub fn albums(v: Option<&Json>) -> (r: Option<Vec<Album>>)
    ensures
        seen_all(r) == listed(json::held(v), |j: Json| album_in(j)),
{
    match json::list_of(json::at(v, "data")) {
        Some(l) => json::every_item(l, album, Ghost(|j: Json| album_in(j))),
        None => None,
    }
}

/// The playlists that an answer lists. One that lists anything else is none.
pub fn playlists(v: Option<&Json>) -> (r: Option<Vec<Playlist>>)
    ensures
        seen_all(r) == listed(json::held(v), |j: Json| playlist_in(j)),
{
    match json::list_of(json::at(v, "data")) {
        Some(l) => json::every_item(l, playlist, Ghost(|j: Json| playlist_in(j))),
        None => None,
    }
}

/// The artists that an answer lists. One that lists anything else is none.
pub fn artists(v: Option<&Json>) -> (r: Option<Vec<Artist>>)
    ensures
        seen_all(r) == listed(json::held(v), |j: Json| artist_in(j)),
{
    match json::list_of(json::at(v, "data")) {
        Some(l) => json::every_item(l, artist, Ghost(|j: Json| artist_in(j))),
        None => None,
    }
}

/// The things that a search found of the kind at place `i`: a kind that is left
/// out has none.
pub open spec fn found<V>(
    value: Json,
    i: int,
    kind: Seq<char>,
    f: spec_fn(Json) -> Option<V>,
) -> Option<Seq<V>> {
    match json::field_in(value, 0, "results"@) {
        None => Some(Seq::empty()),
        Some(results) => match json::field_in(results, i, kind) {
            None | Some(Json::Null) => Some(Seq::empty()),
            other => listed(other, f),
        },
    }
}

/// Whether an answer has the form of a search's: results, if any, by their kinds
/// or, in a list, of the four kinds one after the other.
pub open spec fn is_search(value: Json) -> bool {
    &&& json::fits(value, 0, 0, 1)
    &&& match json::field_in(value, 0, "results"@) {
        None => true,
        Some(r) => json::fits(r, 0, 4, 4),
    }
}

fn results_of<'a>(results: Option<&'a Json>, i: usize, kind: &str) -> (r: Option<&'a Json>)
    ensures
        json::held(r) == match results {
            Some(v) => not_null(json::field_in(*v, i as int, kind@)),
            None => None,
        },
{
    match results {
        Some(v) => unless_null(json::field(v, i, kind)),
        None => None,
    }
}

/// What a search found, before it is known what of it is in the library. An
/// answer that is not of that form is none.
pub fn search_results(value: &Json) -> (r: Option<SearchResults>)
    ensures
        match (
            found(*value, 0, "songs"@, |j: Json| song_in(j)),
            found(*value, 1, "albums"@, |j: Json| album_in(j)),
            found(*value, 2, "artists"@, |j: Json| artist_in(j)),
            found(*value, 3, "playlists"@, |j: Json| playlist_in(j)),
        ) {
            (Some(songs), Some(albums), Some(artists), Some(playlists)) => if is_search(*value) {
                &&& r matches Some(p)
                &&& seen(p.songs@) == songs
                &&& seen(p.albums@) == albums
                &&& seen(p.artists@) == artists
                &&& seen(p.playlists@) == playlists
            } else {
                r is None
            },
            _ => r is None,
        },
{
    let results = json::field(value, 0, "results");
    let form = json::fitting(value, 0, 0, 1) && match results {
        Some(r) => json::fitting(r, 0, 4, 4),
        None => true,
    };
    if !form {
        return None;
    }
    let songs = match results_of(results, 0, "songs") {
        Some(v) => songs(Some(v)),
        None => Some(Vec::new()),
    };
    let albums = match results_of(results, 1, "albums") {
        Some(v) => albums(Some(v)),
        None => Some(Vec::new()),
    };
    let artists = match results_of(results, 2, "artists") {
        Some(v) => artists(Some(v)),
        None => Some(Vec::new()),
    };
    let playlists = match results_of(results, 3, "playlists") {
        Some(v) => playlists(Some(v)),
        None => Some(Vec::new()),
    };
    proof {
        assert(seen(Seq::<Track>::empty()) =~= Seq::<SongView>::empty());
        assert(seen(Seq::<Album>::empty()) =~= Seq::<AlbumView>::empty());
        assert(seen(Seq::<Artist>::empty()) =~= Seq::<ArtistView>::empty());
        assert(seen(Seq::<Playlist>::empty()) =~= Seq::<PlaylistView>::empty());
        assert(seen_all(songs) == found(*value, 0, "songs"@, |j: Json| song_in(j)));
        assert(seen_all(albums) == found(*value, 1, "albums"@, |j: Json| album_in(j)));
        assert(seen_all(artists) == found(*value, 2, "artists"@, |j: Json| artist_in(j)));
        assert(seen_all(playlists) == found(*value, 3, "playlists"@, |j: Json| playlist_in(j)));
    }
    match (songs, albums, artists, playlists) {
        (Some(songs), Some(albums), Some(artists), Some(playlists)) => Some(
            SearchResults { songs, albums, artists, playlists },
        ),
        _ => None,
    }
}

/// A search that found nothing of a kind leaves the kind out, and is no fault.
pub proof fn a_kind_left_out_is_no_fault<V>(
    value: Json,
    i: int,
    kind: Seq<char>,
    f: spec_fn(Json) -> Option<V>,
)
    requires
        json::field_in(value, 0, "results"@) matches Some(r) ==> json::field_in(
            r,
            i,
            kind,
        ) is None,
    ensures
        found(value, i, kind, f) == Some(Seq::<V>::empty()),
{
}

/// A song's own id with its id in the library, if it is there.
pub open spec fn member_in(v: Json) -> Option<(Seq<char>, Seq<char>)> {
    match (song_in(v), related(v, "library"@)) {
        (Some(s), Some(Some(l))) => Some((s.id, l)),
        _ => None,
    }
}

/// What pairs of texts say.
pub open spec fn pairs(v: Seq<(String, String)>) -> Seq<(Seq<char>, Seq<char>)> {
    v.map_values(|p: (String, String)| (p.0@, p.1@))
}

/// The songs of an answer that are in the library: their ids with those that
/// they have there. An answer that lists anything else has none.
pub fn library_membership(value: &Json) -> (r: Vec<(String, String)>)
    ensures
        pairs(r@) == match listed(Some(*value), |j: Json| song_in(j)) {
            Some(_) => json::chosen(
                json::items_in(json::in_object(*value, "data"@)),
                |j: Json| member_in(j),
            ),
            None => Seq::empty(),
        },
{
    let ghost g = |j: Json| member_in(j);
    let mut out: Vec<(String, String)> = Vec::new();
    assert(pairs(out@) =~= Seq::<(Seq<char>, Seq<char>)>::empty());
    if songs(Some(value)).is_none() {
        return out;
    }
    match json::list_of(value.get("data")) {
        Some(l) => {
            let mut i: usize = 0;
            proof {
                json::chosen_of_none(l@, g);
            }
            while i < l.len()
                invariant
                    i <= l@.len(),
                    g == (|j: Json| member_in(j)),
                    pairs(out@) == json::chosen(l@.take(i as int), g),
                decreases l@.len() - i,
            {
                proof {
                    json::chosen_step(l@, g, i as int);
                }
                if let (Some(t), Some(Some(library))) = (song(&l[i]), related_id(&l[i], "library")) {
                    let ghost out0 = out@;
                    let pair = (t.id.0, library);
                    out.push(pair);
                    assert(pairs(out@) =~= pairs(out0).push((pair.0@, pair.1@)));
                }
                i += 1;
            }
            proof {
                json::chosen_of_none(l@, g);
            }
        },
        None => {},
    }
    out
}

/// The catalogue ids of songs, of those that have one.
pub fn catalog_ids(songs: &Vec<Track>) -> (r: Vec<String>)
    ensures
        text::views(r@) == json::chosen(seen(songs@), |t: SongView| t.catalog_id),
{
    let ghost g = |t: SongView| t.catalog_id;
    let ghost all = seen(songs@);
    let mut out: Vec<String> = Vec::new();
    let mut i: usize = 0;
    proof {
        json::chosen_of_none(all, g);
        assert(text::views(out@) =~= Seq::<Seq<char>>::empty());
    }
    while i < songs.len()
        invariant
            i <= songs@.len(),
            all == seen(songs@),
            g == (|t: SongView| t.catalog_id),
            text::views(out@) == json::chosen(all.take(i as int), g),
        decreases songs@.len() - i,
    {
        proof {
            json::chosen_step(all, g, i as int);
            assert(all[i as int] == songs@[i as int]@);
        }
        if let Some(id) = &songs[i].catalog_id {
            let ghost out0 = out@;
            out.push(id.clone());
            assert(text::views(out@) =~= text::views(out0).push(id@));
        }
        i += 1;
    }
    proof {
        json::chosen_of_none(all, g);
    }
    out
}

/// What a resource is related to, in a list of one kind: none, where it does
/// not say.
pub open spec fn related_list<V>(v: Json, name: Seq<char>, f: spec_fn(Json) -> Option<V>) -> Option<
    Seq<V>,
> {
    match relation(v, name) {
        None => None,
        Some(None) => Some(Seq::empty()),
        Some(found) => listed(found, f),
    }
}

/// A song of an album of the library: it is there, under its own id.
pub open spec fn of_library(s: SongView) -> SongView {
    SongView { in_library: true, library_id: Some(s.id), ..s }
}

/// An album and its songs.
#[derive(Debug)]
struct WithSongs {
    album: Album,
    songs: Vec<Track>,
}

impl View for WithSongs {
    type V = (AlbumView, Seq<SongView>);

    closed spec fn view(&self) -> (AlbumView, Seq<SongView>) {
        (self.album@, seen(self.songs@))
    }
}

/// The album that a resource is, and its songs.
pub open spec fn album_with_songs_in(v: Json) -> Option<(AlbumView, Seq<SongView>)> {
    match (album_in(v), related_list(v, "tracks"@, |j: Json| song_in(j))) {
        (Some(a), Some(tracks)) => Some((a, tracks)),
        _ => None,
    }
}

fn album_with_songs(v: &Json) -> (r: Option<WithSongs>)
    ensures
        seen_opt(r) == album_with_songs_in(*v),
{
    let tracks = match relation_of(v, "tracks") {
        Some(Some(t)) => songs(Some(t)),
        Some(None) => Some(Vec::new()),
        None => None,
    };
    proof {
        assert(seen(Seq::<Track>::empty()) =~= Seq::<SongView>::empty());
        assert(seen_all(tracks) == related_list(*v, "tracks"@, |j: Json| song_in(j)));
    }
    match (album(v), tracks) {
        (Some(album), Some(songs)) => Some(WithSongs { album, songs }),
        _ => None,
    }
}

/// An album with its songs, as an answer gives it. Those of an album of the
/// library are all in it. An answer without an album is none, and so is one that
/// lists anything that cannot be read.
pub fn album_page(value: &Json, library: bool) -> (r: Option<(Album, Vec<Track>)>)
    ensures
        match listed(Some(*value), |j: Json| album_with_songs_in(j)) {
            Some(l) => match head(l) {
                Some((a, tracks)) => {
                    &&& r matches Some((album, songs))
                    &&& album@ == AlbumView { library: library || a.library, ..a }
                    &&& seen(songs@) == if library {
                        tracks.map_values(|s: SongView| of_library(s))
                    } else {
                        tracks
                    }
                },
                None => r is None,
            },
            None => r is None,
        },
{
    let found = match json::list_of(value.get("data")) {
        Some(l) => json::every_item(
            l,
            album_with_songs,
            Ghost(|j: Json| album_with_songs_in(j)),
        ),
        None => None,
    };
    let mut all = match found {
        Some(all) => all,
        None => return None,
    };
    if all.len() == 0 {
        return None;
    }
    assert(seen(all@)[0] == all@[0]@);
    let page = all.remove(0);
    let mut album = page.album;
    let mut tracks = page.songs;
    if library {
        album.library = true;
        let ghost before = tracks@;
        mark_songs(&mut tracks);
        assert(seen(tracks@) =~= seen(before).map_values(|s: SongView| of_library(s)));
    }
    Some((album, tracks))
}

/// The picture and the genres that an artist of the library has from the
/// catalogue.
pub open spec fn with_portrait(a: ArtistView, portrait: Option<ArtistView>) -> ArtistView {
    match portrait {
        Some(p) => ArtistView { artwork: p.artwork, genres: p.genres, ..a },
        None => a,
    }
}

/// The first of what was found.
pub open spec fn head<V>(s: Seq<V>) -> Option<V> {
    if s.len() > 0 {
        Some(s[0])
    } else {
        None
    }
}

/// The artist of the library that a resource is, with the picture and the
/// genres of the catalogue's artist that comes with it.
pub open spec fn library_artist_in(v: Json) -> Option<ArtistView> {
    match (artist_in(v), related_list(v, "catalog"@, |j: Json| artist_in(j))) {
        (Some(a), Some(catalog)) => Some(
            with_portrait(ArtistView { library: true, ..a }, head(catalog)),
        ),
        _ => None,
    }
}

/// The artist of the library that a resource is.
pub fn library_artist(v: &Json) -> (r: Option<Artist>)
    ensures
        seen_opt(r) == library_artist_in(*v),
{
    let catalog = match relation_of(v, "catalog") {
        Some(Some(t)) => artists(Some(t)),
        Some(None) => Some(Vec::new()),
        None => None,
    };
    proof {
        assert(seen(Seq::<Artist>::empty()) =~= Seq::<ArtistView>::empty());
        assert(seen_all(catalog) == related_list(*v, "catalog"@, |j: Json| artist_in(j)));
    }
    match (artist(v), catalog) {
        (Some(artist), Some(catalog)) => {
            let mut artist = artist;
            artist.library = true;
            if catalog.len() > 0 {
                let portrait = catalog[0].clone();
                assert(seen(catalog@)[0] == portrait@);
                artist.artwork = portrait.artwork;
                artist.genres = portrait.genres;
            }
            Some(artist)
        },
        _ => None,
    }
}

/// The artists of the library that an answer lists. One that lists anything
/// else is none.
pub fn library_artists(v: Option<&Json>) -> (r: Option<Vec<Artist>>)
    ensures
        seen_all(r) == listed(json::held(v), |j: Json| library_artist_in(j)),
{
    match json::list_of(json::at(v, "data")) {
        Some(l) => json::every_item(l, library_artist, Ghost(|j: Json| library_artist_in(j))),
        None => None,
    }
}

/// An artist, their albums, and the artists of the catalogue that they are.
#[derive(Debug)]
struct WithAlbums {
    artist: Artist,
    albums: Vec<Album>,
    catalog: Vec<Artist>,
}

impl View for WithAlbums {
    type V = (ArtistView, Seq<AlbumView>, Seq<ArtistView>);

    closed spec fn view(&self) -> (ArtistView, Seq<AlbumView>, Seq<ArtistView>) {
        (self.artist@, seen(self.albums@), seen(self.catalog@))
    }
}

/// The artist that a resource is, their albums, and the artists of the catalogue
/// that they are.
pub open spec fn artist_with_albums_in(v: Json) -> Option<
    (ArtistView, Seq<AlbumView>, Seq<ArtistView>),
> {
    match (
        artist_in(v),
        related_list(v, "albums"@, |j: Json| album_in(j)),
        related_list(v, "catalog"@, |j: Json| artist_in(j)),
    ) {
        (Some(a), Some(found), Some(catalog)) => Some((a, found, catalog)),
        _ => None,
    }
}

fn artist_with_albums(v: &Json) -> (r: Option<WithAlbums>)
    ensures
        seen_opt(r) == artist_with_albums_in(*v),
{
    let albums = match relation_of(v, "albums") {
        Some(Some(t)) => albums(Some(t)),
        Some(None) => Some(Vec::new()),
        None => None,
    };
    let catalog = match relation_of(v, "catalog") {
        Some(Some(t)) => artists(Some(t)),
        Some(None) => Some(Vec::new()),
        None => None,
    };
    proof {
        assert(seen(Seq::<Album>::empty()) =~= Seq::<AlbumView>::empty());
        assert(seen(Seq::<Artist>::empty()) =~= Seq::<ArtistView>::empty());
        assert(seen_all(albums) == related_list(*v, "albums"@, |j: Json| album_in(j)));
        assert(seen_all(catalog) == related_list(*v, "catalog"@, |j: Json| artist_in(j)));
    }
    match (artist(v), albums, catalog) {
        (Some(artist), Some(albums), Some(catalog)) => Some(
            WithAlbums { artist, albums, catalog },
        ),
        _ => None,
    }
}

/// An artist with their albums, as an answer gives it. An artist of the library
/// has their picture and genres from the catalogue. An answer without an artist
/// is none, and so is one that lists anything that cannot be read.
pub fn artist_page(value: &Json, library: bool) -> (r: Option<(Artist, Vec<Album>)>)
    ensures
        match listed(Some(*value), |j: Json| artist_with_albums_in(j)) {
            Some(l) => match head(l) {
                Some((a, found, catalog)) => {
                    &&& r matches Some((artist, albums))
                    &&& artist@ == if library {
                        with_portrait(ArtistView { library: true, ..a }, head(catalog))
                    } else {
                        a
                    }
                    &&& seen(albums@) == if library {
                        found.map_values(|b: AlbumView| AlbumView { library: true, ..b })
                    } else {
                        found
                    }
                },
                None => r is None,
            },
            None => r is None,
        },
{
    let found = match json::list_of(value.get("data")) {
        Some(l) => json::every_item(
            l,
            artist_with_albums,
            Ghost(|j: Json| artist_with_albums_in(j)),
        ),
        None => None,
    };
    let mut all = match found {
        Some(all) => all,
        None => return None,
    };
    if all.len() == 0 {
        return None;
    }
    assert(seen(all@)[0] == all@[0]@);
    let page = all.remove(0);
    let mut artist = page.artist;
    let mut albums = page.albums;
    let catalog = page.catalog;
    if library {
        artist.library = true;
        if catalog.len() > 0 {
            let portrait = catalog[0].clone();
            assert(seen(catalog@)[0] == portrait@);
            artist.artwork = portrait.artwork;
            artist.genres = portrait.genres;
        }
        mark_albums(&mut albums);
    }
    Some((artist, albums))
}

/// Whether an artist's albums are asked for by themselves: the artist came with
/// none, which may only mean that they were left out.
pub fn asks_for_albums(albums: &Vec<Album>) -> (r: bool)
    ensures
        r == (albums@.len() == 0),
{
    albums.len() == 0
}

/// Say of albums that they are of the library.
pub fn mark_albums(albums: &mut Vec<Album>)
    ensures
        seen(final(albums)@) == seen(old(albums)@).map_values(
            |a: AlbumView| AlbumView { library: true, ..a },
        ),
{
    let ghost before = albums@;
    let mut i: usize = 0;
    while i < albums.len()
        invariant
            i <= albums@.len(),
            albums@.len() == before.len(),
            forall|j: int| i <= j < before.len() ==> albums@[j] == before[j],
            forall|j: int|
                0 <= j < i ==> (#[trigger] albums@[j])@ == (AlbumView {
                    library: true,
                    ..before[j]@
                }),
        decreases albums@.len() - i,
    {
        let mut album = albums[i].clone();
        album.library = true;
        albums.set(i, album);
        i += 1;
    }
    assert(seen(albums@) =~= seen(before).map_values(
        |a: AlbumView| AlbumView { library: true, ..a },
    ));
}

/// Say of playlists that they are of the library.
pub fn mark_playlists(playlists: &mut Vec<Playlist>)
    ensures
        seen(final(playlists)@) == seen(old(playlists)@).map_values(
            |p: PlaylistView| PlaylistView { library: true, ..p },
        ),
{
    let ghost before = playlists@;
    let mut i: usize = 0;
    while i < playlists.len()
        invariant
            i <= playlists@.len(),
            playlists@.len() == before.len(),
            forall|j: int| i <= j < before.len() ==> playlists@[j] == before[j],
            forall|j: int|
                0 <= j < i ==> (#[trigger] playlists@[j])@ == (PlaylistView {
                    library: true,
                    ..before[j]@
                }),
        decreases playlists@.len() - i,
    {
        let mut playlist = playlists[i].clone();
        playlist.library = true;
        playlists.set(i, playlist);
        i += 1;
    }
    assert(seen(playlists@) =~= seen(before).map_values(
        |p: PlaylistView| PlaylistView { library: true, ..p },
    ));
}

/// The playlist that an answer is about. Whether it is one of the library is
/// for the caller to say, who knows which of the two was asked. An answer that
/// lists none, or anything else, is none.
pub fn playlist_details(value: &Json) -> (r: Option<Playlist>)
    ensures
        seen_opt(r) == match listed(Some(*value), |j: Json| playlist_in(j)) {
            Some(l) => head(l),
            None => None,
        },
{
    match playlists(Some(value)) {
        Some(l) => if l.len() > 0 {
            let p = l[0].clone();
            assert(seen(l@)[0] == p@);
            Some(p)
        } else {
            None
        },
        None => None,
    }
}

/// The playlist of the library that an answer is about. An answer that lists
/// none, or anything else, is none.
pub fn library_playlist_details(value: &Json) -> (r: Option<Playlist>)
    ensures
        seen_opt(r) == match listed(Some(*value), |j: Json| playlist_in(j)) {
            Some(l) => match head(l) {
                Some(p) => Some(PlaylistView { library: true, ..p }),
                None => None,
            },
            None => None,
        },
{
    match playlist_details(value) {
        Some(p) => {
            let mut p = p;
            p.library = true;
            Some(p)
        },
        None => None,
    }
}

/// A song that the library relates to is in it, under that id; one that it does
/// not relate to is what its attributes say.
pub proof fn a_related_song_is_in_the_library(v: Json, id: Seq<char>, attrs: Json, l: Seq<char>)
    requires
        json::says(v, "id"@, id),
        json::in_object(v, "attributes"@) == Some(attrs),
        !(attrs is Null),
    ensures
        related(v, "library"@) == Some(Some(l)) ==> (song_in(v) matches Some(s) ==> s.in_library
            && s.library_id == Some(l) && s.id == id),
        related(v, "library"@) == Some(None::<Seq<char>>) ==> song_in(v) == attributes::song_in(
            id,
            attrs,
            false,
        ),
        related(v, "library"@) is None ==> song_in(v) is None,
        (song_in(v), attributes::song_in(id, attrs, false)) matches (Some(a), Some(b)) ==> a.title
            == b.title && a.artist == b.artist && a.album == b.album && a.id == b.id
            && a.catalog_id == b.catalog_id && a.favorite == b.favorite,
        album_in(v) == attributes::album_in(id, attrs, false),
        playlist_in(v) == attributes::playlist_in(id, attrs, false),
        artist_in(v) == attributes::artist_in(id, attrs, false),
{
}

/// A resource without attributes is nothing but its id.
pub proof fn a_resource_without_attributes_is_its_id(v: Json, id: Seq<char>)
    requires
        json::says(v, "id"@, id),
        json::in_object(v, "attributes"@) is None,
    ensures
        album_in(v) matches Some(a) && a.id == id && a.name.len() == 0 && a.artist.len() == 0
            && a.track_count == 0 && !a.library,
        playlist_in(v) matches Some(p) && p.id == id && p.name.len() == 0 && !p.library,
        artist_in(v) matches Some(a) && a.id == id && a.name.len() == 0 && !a.library,
        related(v, "library"@) == Some(None::<Seq<char>>) ==> (song_in(v) matches Some(s) && s.id
            == id && s.title.len() == 0 && !s.in_library && s.library_id is None),
{
}

/// What an answer lists is listed whole, in order, or not at all.
pub proof fn a_list_is_read_whole<V>(v: Json, l: Seq<Json>, f: spec_fn(Json) -> Option<V>, i: int)
    requires
        json::list_in(json::in_object(v, "data"@)) == Some(l),
        0 <= i < l.len(),
    ensures
        f(l[i]) is None ==> listed(Some(v), f) is None,
        listed(Some(v), f) matches Some(r) ==> r.len() == l.len() && Some(r[i]) == f(l[i]),
        (forall|j: int| 0 <= j < l.len() ==> f(#[trigger] l[j]) is Some) ==> listed(
            Some(v),
            f,
        ) is Some,
{
    json::every_is_whole(l, f);
}

/// A song of an album of the library is there under its own id, and says what
/// it said.
pub proof fn a_song_of_the_library_is_there(s: SongView)
    ensures
        of_library(s).in_library,
        of_library(s).library_id == Some(s.id),
        of_library(s).id == s.id,
        of_library(s).title == s.title,
        of_library(s).artist == s.artist,
        of_library(s).album == s.album,
        of_library(s).track_number == s.track_number,
        of_library(s).duration_ms == s.duration_ms,
        of_library(s).catalog_id == s.catalog_id,
        of_library(s).artwork == s.artwork,
{
}

/// An artist of the library keeps their id and name, and has picture and genres
/// from the first artist of the catalogue that comes with them.
pub proof fn an_artist_has_the_catalogues_portrait(a: ArtistView, p: ArtistView)
    ensures
        with_portrait(a, Some(p)).id == a.id,
        with_portrait(a, Some(p)).name == a.name,
        with_portrait(a, Some(p)).library == a.library,
        with_portrait(a, Some(p)).artwork == p.artwork,
        with_portrait(a, Some(p)).genres == p.genres,
        with_portrait(a, None) == a,
{
}

/// A song of the library that an answer names is told by its own id and the one
/// that it has there.
pub proof fn a_member_goes_by_both_ids(v: Json, id: Seq<char>, l: Seq<char>)
    requires
        json::says(v, "id"@, id),
        song_in(v) is Some,
    ensures
        related(v, "library"@) == Some(Some(l)) ==> member_in(v) == Some((id, l)),
        related(v, "library"@) == Some(None::<Seq<char>>) ==> member_in(v) is None,
{
}

/// An album comes with the songs that it relates to, in their order, and an
/// artist with their albums.
pub proof fn what_a_page_relates_to_comes_with_it(
    v: Json,
    relations: Json,
    tracks: Json,
    l: Seq<Json>,
    i: int,
)
    requires
        json::in_object(v, "relationships"@) == Some(relations),
        relations is Object,
        tracks is Object,
        json::list_in(json::in_object(tracks, "data"@)) == Some(l),
        0 <= i < l.len(),
    ensures
        json::in_object(relations, "tracks"@) == Some(tracks) ==> (album_with_songs_in(
            v,
        ) matches Some(found) ==> Some(found.0) == album_in(v) && found.1.len() == l.len() && Some(
            found.1[i],
        ) == song_in(l[i])),
        json::in_object(relations, "albums"@) == Some(tracks) ==> (artist_with_albums_in(
            v,
        ) matches Some(found) ==> Some(found.0) == artist_in(v) && found.1.len() == l.len() && Some(
            found.1[i],
        ) == album_in(l[i])),
{
    json::every_is_whole(l, |j: Json| song_in(j));
    json::every_is_whole(l, |j: Json| album_in(j));
}

} // verus!
