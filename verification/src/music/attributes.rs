//! What Apple Music says of a song, an album, an artist or a playlist.
use vstd::prelude::*;

use crate::json::{self, Json, Number};
use crate::music::types::{
    picture_at, seen, seen_opt, Album, AlbumView, Artist, ArtistView, Playlist, PlaylistView,
    SongView, Track, TrackId,
};
use crate::text;

verus! {

/// The text of a member, or an empty one.
pub open spec fn said(attrs: Json, key: Seq<char>) -> Seq<char> {
    json::words(json::in_object(attrs, key))
}

fn text_at(attrs: &Json, key: &str) -> (r: String)
    ensures
        r@ == said(*attrs, key@),
{
    json::words_of(attrs.get(key))
}

/// The year that a date begins with.
pub open spec fn year(date: Seq<char>) -> Seq<char> {
    match text::first_bytes(date, 4) {
        Some(s) => s,
        None => Seq::empty(),
    }
}

fn year_of(date: &str) -> (r: String)
    ensures
        r@ == year(date@),
{
    match text::head_bytes(date, 4) {
        Some(s) => s,
        None => String::new(),
    }
}

/// The address of the picture.
pub open spec fn art(attrs: Json) -> Option<Seq<char>> {
    json::text_in(json::under(json::in_object(attrs, "artwork"@), "url"@))
}

fn art_of(attrs: &Json) -> (r: Option<String>)
    ensures
        text::opt_view(r) == art(*attrs),
{
    match json::text_of(json::at(attrs.get("artwork"), "url")) {
        Some(s) => Some(s.to_owned()),
        None => None,
    }
}

/// The id that a song streams by: its catalog id, else its own where that is
/// not one of the library.
pub open spec fn stream_id(attrs: Json) -> Option<Seq<char>> {
    let params = json::in_object(attrs, "playParams"@);
    match json::text_in(json::under(params, "catalogId"@)) {
        Some(s) => Some(s),
        None => if json::truth_in(json::under(params, "isLibrary"@)) == Some(true) {
            None
        } else {
            json::text_in(json::under(params, "id"@))
        },
    }
}

fn stream_id_of(attrs: &Json) -> (r: Option<String>)
    ensures
        text::opt_view(r) == stream_id(*attrs),
{
    let params = attrs.get("playParams");
    if let Some(s) = json::text_of(json::at(params, "catalogId")) {
        return Some(s.to_owned());
    }
    if let Some(true) = json::truth_of(json::at(params, "isLibrary")) {
        return None;
    }
    match json::text_of(json::at(params, "id")) {
        Some(s) => Some(s.to_owned()),
        None => None,
    }
}

/// A song of this id. One without a name is none.
pub open spec fn song_in(id: Seq<char>, attrs: Json, library: bool) -> Option<SongView> {
    match json::text_in(json::in_object(attrs, "name"@)) {
        None => None,
        Some(title) => Some(
            SongView {
                id,
                catalog_id: stream_id(attrs),
                favorite: json::truth_in(json::in_object(attrs, "inFavorites"@)) == Some(true),
                in_library: library,
                library_id: if library {
                    Some(id)
                } else {
                    None
                },
                date_added: said(attrs, "dateAdded"@),
                year: year(said(attrs, "releaseDate"@)),
                title,
                artist: said(attrs, "artistName"@),
                album: said(attrs, "albumName"@),
                duration_ms: json::count_in(json::in_object(attrs, "durationInMillis"@)),
                track_number: json::count_in(json::in_object(attrs, "trackNumber"@)) as u32,
                artwork: art(attrs),
            },
        ),
    }
}

/// A song of this id.
pub fn song(id: &str, attrs: &Json, library: bool) -> (r: Option<Track>)
    ensures
        seen_opt(r) == song_in(id@, *attrs, library),
{
    match json::text_of(attrs.get("name")) {
        None => None,
        Some(title) => {
            let favorite = match json::truth_of(attrs.get("inFavorites")) {
                Some(b) => b,
                None => false,
            };
            let n = json::count_of(attrs.get("trackNumber"));
            Some(
                Track {
                    id: TrackId(id.to_owned()),
                    catalog_id: stream_id_of(attrs),
                    favorite,
                    in_library: library,
                    library_id: if library {
                        Some(id.to_owned())
                    } else {
                        None
                    },
                    date_added: text_at(attrs, "dateAdded"),
                    year: year_of(text_at(attrs, "releaseDate").as_str()),
                    title: title.to_owned(),
                    artist: text_at(attrs, "artistName"),
                    album: text_at(attrs, "albumName"),
                    duration_ms: json::count_of(attrs.get("durationInMillis")),
                    track_number:
                    #[verifier::truncate]
                    (n as u32),
                    artwork: picture_at(art_of(attrs)),
                },
            )
        },
    }
}

/// An album of this id. One without a name is none.
pub open spec fn album_in(id: Seq<char>, attrs: Json, library: bool) -> Option<AlbumView> {
    match json::text_in(json::in_object(attrs, "name"@)) {
        None => None,
        Some(name) => Some(
            AlbumView {
                id,
                date_added: said(attrs, "dateAdded"@),
                name,
                artist: said(attrs, "artistName"@),
                artwork: art(attrs),
                year: year(said(attrs, "releaseDate"@)),
                library,
                track_count: json::count_in(json::in_object(attrs, "trackCount"@)) as u32,
            },
        ),
    }
}

/// An album of this id.
pub fn album(id: &str, attrs: &Json, library: bool) -> (r: Option<Album>)
    ensures
        seen_opt(r) == album_in(id@, *attrs, library),
{
    match json::text_of(attrs.get("name")) {
        None => None,
        Some(name) => {
            let n = json::count_of(attrs.get("trackCount"));
            Some(
                Album {
                    id: id.to_owned(),
                    date_added: text_at(attrs, "dateAdded"),
                    name: name.to_owned(),
                    artist: text_at(attrs, "artistName"),
                    artwork: picture_at(art_of(attrs)),
                    year: year_of(text_at(attrs, "releaseDate").as_str()),
                    library,
                    track_count:
                    #[verifier::truncate]
                    (n as u32),
                },
            )
        },
    }
}

/// A playlist of this id. One without a name is none.
pub open spec fn playlist_in(id: Seq<char>, attrs: Json, library: bool) -> Option<PlaylistView> {
    match json::text_in(json::in_object(attrs, "name"@)) {
        None => None,
        Some(name) => Some(
            PlaylistView {
                id,
                date_added: said(attrs, "dateAdded"@),
                last_modified: said(attrs, "lastModifiedDate"@),
                name,
                curator: said(attrs, "curatorName"@),
                description: json::words(
                    json::under(json::in_object(attrs, "description"@), "standard"@),
                ),
                artwork: art(attrs),
                library,
            },
        ),
    }
}

/// A playlist of this id.
pub fn playlist(id: &str, attrs: &Json, library: bool) -> (r: Option<Playlist>)
    ensures
        seen_opt(r) == playlist_in(id@, *attrs, library),
{
    match json::text_of(attrs.get("name")) {
        None => None,
        Some(name) => Some(
            Playlist {
                id: id.to_owned(),
                date_added: text_at(attrs, "dateAdded"),
                last_modified: text_at(attrs, "lastModifiedDate"),
                name: name.to_owned(),
                curator: text_at(attrs, "curatorName"),
                description: json::words_of(json::at(attrs.get("description"), "standard")),
                artwork: picture_at(art_of(attrs)),
                library,
            },
        ),
    }
}

fn text_item(v: &Json) -> (r: Option<String>)
    ensures
        seen_opt(r) == json::text_in(Some(*v)),
{
    match json::text_of(Some(v)) {
        Some(s) => Some(s.to_owned()),
        None => None,
    }
}

/// The genres, in a line.
pub open spec fn genres_in(attrs: Json) -> Seq<char> {
    text::joined(
        json::chosen(
            json::items_in(json::in_object(attrs, "genreNames"@)),
            |g: Json| json::text_in(Some(g)),
        ),
        ", "@,
    )
}

fn genres_of(attrs: &Json) -> (r: String)
    ensures
        r@ == genres_in(*attrs),
{
    match json::list_of(attrs.get("genreNames")) {
        Some(items) => {
            let names = json::choose_items(
                items,
                text_item,
                Ghost(|g: Json| json::text_in(Some(g))),
            );
            assert(seen(names@) =~= text::views(names@));
            text::join(&names, ", ")
        },
        None => {
            let r = String::new();
            assert(json::chosen(
                Seq::<Json>::empty(),
                |g: Json| json::text_in(Some(g)),
            ).len() == 0);
            assert(r@ =~= genres_in(*attrs));
            r
        },
    }
}

/// An artist of this id. One without a name is none.
pub open spec fn artist_in(id: Seq<char>, attrs: Json, library: bool) -> Option<ArtistView> {
    match json::text_in(json::in_object(attrs, "name"@)) {
        None => None,
        Some(name) => Some(
            ArtistView { id, name, artwork: art(attrs), genres: genres_in(attrs), library },
        ),
    }
}

/// An artist of this id.
pub fn artist(id: &str, attrs: &Json, library: bool) -> (r: Option<Artist>)
    ensures
        seen_opt(r) == artist_in(id@, *attrs, library),
{
    match json::text_of(attrs.get("name")) {
        None => None,
        Some(name) => Some(
            Artist {
                id: id.to_owned(),
                name: name.to_owned(),
                artwork: picture_at(art_of(attrs)),
                genres: genres_of(attrs),
                library,
            },
        ),
    }
}

/// A song says what its attributes say: title, artist, album, length, number,
/// year, and when it was added. It is in the library under its own id exactly
/// where it is read from there.
pub proof fn a_song_says_what_its_attributes_say(
    id: Seq<char>,
    attrs: Json,
    library: bool,
    title: Seq<char>,
    artist: Seq<char>,
    album: Seq<char>,
    ms: u64,
    n: u64,
    date: Seq<char>,
    added: Seq<char>,
)
    requires
        json::says(attrs, "name"@, title),
        json::says(attrs, "artistName"@, artist),
        json::says(attrs, "albumName"@, album),
        json::in_object(attrs, "durationInMillis"@) == Some(Json::Number(Number::Whole(ms))),
        json::in_object(attrs, "trackNumber"@) == Some(Json::Number(Number::Whole(n))),
        n <= u32::MAX,
        json::says(attrs, "releaseDate"@, date),
        date.len() >= 4,
        forall|k: int| 0 <= k < 4 ==> '0' <= #[trigger] date[k] <= '9',
        json::says(attrs, "dateAdded"@, added),
    ensures
        song_in(id, attrs, library) matches Some(song) && {
            &&& song.id == id
            &&& song.title == title
            &&& song.artist == artist
            &&& song.album == album
            &&& song.duration_ms == ms
            &&& song.track_number == n
            &&& song.year == date.take(4)
            &&& song.date_added == added
            &&& song.in_library == library
            &&& library ==> song.library_id == Some(id)
            &&& !library ==> song.library_id is None
            &&& song.favorite == (json::in_object(attrs, "inFavorites"@) == Some(Json::Bool(true)))
        },
{
    text::plain_characters_take_one_byte(date, 4);
}

/// A song streams by its catalogue id where it has one, and otherwise by its own
/// unless that is one of the library.
pub proof fn a_song_streams_by_its_catalogue_id(
    attrs: Json,
    params: Json,
    catalog: Seq<char>,
    own: Seq<char>,
)
    requires
        json::in_object(attrs, "playParams"@) == Some(params),
        json::says(params, "id"@, own),
    ensures
        json::says(params, "catalogId"@, catalog) ==> stream_id(attrs) == Some(catalog),
        json::in_object(params, "catalogId"@) is None && json::in_object(params, "isLibrary"@)
            == Some(Json::Bool(true)) ==> stream_id(attrs) is None,
        json::in_object(params, "catalogId"@) is None && json::in_object(params, "isLibrary"@)
            != Some(Json::Bool(true)) ==> stream_id(attrs) == Some(own),
{
}

/// An album says what its attributes say.
pub proof fn an_album_says_what_its_attributes_say(
    id: Seq<char>,
    attrs: Json,
    library: bool,
    name: Seq<char>,
    artist: Seq<char>,
    count: u64,
    date: Seq<char>,
    added: Seq<char>,
    art: Json,
    url: Seq<char>,
)
    requires
        json::says(attrs, "name"@, name),
        json::says(attrs, "artistName"@, artist),
        json::in_object(attrs, "trackCount"@) == Some(Json::Number(Number::Whole(count))),
        count <= u32::MAX,
        json::says(attrs, "releaseDate"@, date),
        date.len() >= 4,
        forall|k: int| 0 <= k < 4 ==> '0' <= #[trigger] date[k] <= '9',
        json::says(attrs, "dateAdded"@, added),
        json::in_object(attrs, "artwork"@) == Some(art),
        json::says(art, "url"@, url),
    ensures
        album_in(id, attrs, library) matches Some(album) && {
            &&& album.id == id
            &&& album.name == name
            &&& album.artist == artist
            &&& album.track_count == count
            &&& album.year == date.take(4)
            &&& album.date_added == added
            &&& album.artwork == Some(url)
            &&& album.library == library
        },
        song_in(id, attrs, library) matches Some(song) && song.artwork == Some(url),
{
    text::plain_characters_take_one_byte(date, 4);
}

/// A playlist says what its attributes say.
pub proof fn a_playlist_says_what_its_attributes_say(
    id: Seq<char>,
    attrs: Json,
    library: bool,
    name: Seq<char>,
    curator: Seq<char>,
    description: Json,
    standard: Seq<char>,
    added: Seq<char>,
    modified: Seq<char>,
)
    requires
        json::says(attrs, "name"@, name),
        json::says(attrs, "curatorName"@, curator),
        json::in_object(attrs, "description"@) == Some(description),
        json::says(description, "standard"@, standard),
        json::says(attrs, "dateAdded"@, added),
        json::says(attrs, "lastModifiedDate"@, modified),
    ensures
        playlist_in(id, attrs, library) matches Some(list) && {
            &&& list.id == id
            &&& list.name == name
            &&& list.curator == curator
            &&& list.description == standard
            &&& list.date_added == added
            &&& list.last_modified == modified
            &&& list.library == library
        },
{
}

/// An artist says what its attributes say, the genres in a line in their order.
pub proof fn an_artist_says_what_its_attributes_say(
    id: Seq<char>,
    attrs: Json,
    library: bool,
    name: Seq<char>,
    genres: Vec<Json>,
    one: String,
    other: String,
)
    requires
        json::says(attrs, "name"@, name),
        json::in_object(attrs, "genreNames"@) == Some(Json::List(genres)),
        genres@ == seq![Json::Text(one), Json::Text(other)],
    ensures
        artist_in(id, attrs, library) matches Some(artist) && artist.id == id && artist.name == name
            && artist.genres == one@ + ", "@ + other@ && artist.library == library,
{
    let f = |g: Json| json::text_in(Some(g));
    json::two_things_are_made(genres@, f, 0, 1);
    text::joining_one_more(seq![one@], ", "@, other@);
    assert(seq![one@].push(other@) =~= seq![one@, other@]);
}

/// What has no name is nothing.
pub proof fn what_has_no_name_is_nothing(id: Seq<char>, attrs: Json, library: bool)
    requires
        !(json::in_object(attrs, "name"@) matches Some(Json::Text(_))),
    ensures
        song_in(id, attrs, library) is None,
        album_in(id, attrs, library) is None,
        playlist_in(id, attrs, library) is None,
        artist_in(id, attrs, library) is None,
{
}

} // verus!
