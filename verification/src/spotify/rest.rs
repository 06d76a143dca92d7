//! What Spotify's public interface answers, read into songs, albums, artists
//! and playlists.
use vstd::prelude::*;

use crate::json::{self, Json, Number};
use crate::music::types::{
    picture_at, seen, seen_opt, Album, AlbumView, Artist, ArtistView, Playlist, PlaylistView,
    SongView, Track, TrackId,
};
use crate::spotify::gql::{get2, in2};
use crate::streams::{HitView, StreamHit};
use crate::text;

verus! {

/// The text of a member, or an empty one.
pub open spec fn text_in(value: Json, key: Seq<char>) -> Seq<char> {
    json::words(json::in_object(value, key))
}

/// The text of a member, or an empty one.
pub fn text(value: &Json, key: &str) -> (r: String)
    ensures
        r@ == text_in(*value, key@),
{
    json::words_of(value.get(key))
}

/// The year that a date begins with.
pub open spec fn year(date: Seq<char>) -> Seq<char> {
    match text::first_bytes(date, 4) {
        Some(s) => s,
        None => Seq::empty(),
    }
}

/// The year that a date begins with.
pub fn year_of(date: &str) -> (r: String)
    ensures
        r@ == year(date@),
{
    match text::head_bytes(date, 4) {
        Some(s) => s,
        None => String::new(),
    }
}

/// The name that a value has.
pub open spec fn name_in(a: Json) -> Option<Seq<char>> {
    json::text_in(json::in_object(a, "name"@))
}

fn name_of(a: &Json) -> (r: Option<String>)
    ensures
        seen_opt(r) == name_in(*a),
{
    match json::text_of(a.get("name")) {
        Some(s) => Some(s.to_owned()),
        None => None,
    }
}

/// The artists of a song or an album, in a line.
pub open spec fn line_in(item: Json) -> Seq<char> {
    text::joined(
        json::chosen(
            json::items_in(json::in_object(item, "artists"@)),
            |a: Json| name_in(a),
        ),
        ", "@,
    )
}

/// The artists of a song or an album, in a line.
pub fn artists_line(item: &Json) -> (r: String)
    ensures
        r@ == line_in(*item),
{
    match json::list_of(item.get("artists")) {
        Some(items) => {
            let names = json::choose_items(items, name_of, Ghost(|a: Json| name_in(a)));
            assert(seen(names@) =~= text::views(names@));
            text::join(&names, ", ")
        },
        None => {
            let r = String::new();
            assert(json::chosen(Seq::<Json>::empty(), |a: Json| name_in(a)).len() == 0);
            assert(r@ =~= line_in(*item));
            r
        },
    }
}

/// The address of the first of pictures.
pub open spec fn image_in(images: Option<Json>) -> Option<Seq<char>> {
    match json::list_in(images) {
        Some(l) => if l.len() > 0 {
            json::text_in(json::in_object(l[0], "url"@))
        } else {
            None
        },
        None => None,
    }
}

/// The address of the first of pictures.
pub fn image_url(images: Option<&Json>) -> (r: Option<String>)
    ensures
        text::opt_view(r) == image_in(json::held(images)),
{
    match json::list_of(images) {
        Some(l) => if l.len() > 0 {
            match json::text_of(l[0].get("url")) {
                Some(s) => Some(s.to_owned()),
                None => None,
            }
        } else {
            None
        },
        None => None,
    }
}

/// A song as the public interface answers it, on this album. What is on
/// somebody's disk, and what has no id or title, is none.
pub open spec fn hit_on(item: Json, album: Option<Json>) -> Option<HitView> {
    let id = text_in(item, "id"@);
    let title = text_in(item, "name"@);
    if json::truth_in(json::in_object(item, "is_local"@)) == Some(true) || id.len() == 0
        || title.len() == 0 {
        None
    } else {
        let own = image_in(json::under(album, "images"@));
        Some(
            HitView {
                id: "sp:"@ + id,
                title,
                artist: line_in(item),
                album: json::words(json::under(album, "name"@)),
                duration_ms: json::count_in(json::in_object(item, "duration_ms"@)),
                artwork: if own is Some {
                    own
                } else {
                    image_in(json::in_object(item, "images"@))
                },
                play_query: "https://open.spotify.com/track/"@ + id,
            },
        )
    }
}

fn hit_with_album(item: &Json, album: Option<&Json>) -> (r: Option<StreamHit>)
    ensures
        seen_opt(r) == hit_on(*item, json::held(album)),
{
    if let Some(true) = json::truth_of(item.get("is_local")) {
        return None;
    }
    let id = text(item, "id");
    if id.as_str().is_empty() {
        return None;
    }
    let title = text(item, "name");
    if title.as_str().is_empty() {
        return None;
    }
    let mut play_query = "https://open.spotify.com/track/".to_owned();
    play_query.append(id.as_str());
    let mut full = "sp:".to_owned();
    full.append(id.as_str());
    let artwork = match image_url(json::at(album, "images")) {
        Some(s) => Some(s),
        None => image_url(item.get("images")),
    };
    Some(
        StreamHit {
            play_query,
            artwork,
            duration_ms: json::count_of(item.get("duration_ms")),
            album: json::words_of(json::at(album, "name")),
            artist: artists_line(item),
            title,
            id: full,
        },
    )
}

/// A song as the public interface answers it.
pub fn hit_from_track(item: &Json) -> (r: Option<StreamHit>)
    ensures
        seen_opt(r) == hit_on(*item, json::in_object(*item, "album"@)),
{
    hit_with_album(item, item.get("album"))
}

/// A found song as one of the library's.
pub open spec fn song_of(hit: HitView) -> SongView {
    SongView {
        id: hit.id,
        catalog_id: Some(hit.id),
        favorite: false,
        in_library: false,
        library_id: Some(hit.id),
        date_added: Seq::empty(),
        year: Seq::empty(),
        title: hit.title,
        artist: hit.artist,
        album: hit.album,
        duration_ms: hit.duration_ms,
        track_number: 0,
        artwork: hit.artwork,
    }
}

/// A found song as one of the library's.
pub fn hit_to_song(hit: &StreamHit) -> (r: Track)
    ensures
        r@ == song_of(hit@),
{
    let r = Track {
        date_added: String::new(),
        year: String::new(),
        favorite: false,
        in_library: false,
        library_id: Some(hit.id.clone()),
        id: TrackId(hit.id.clone()),
        catalog_id: Some(hit.id.clone()),
        title: hit.title.clone(),
        artist: hit.artist.clone(),
        album: hit.album.clone(),
        duration_ms: hit.duration_ms,
        track_number: 0,
        artwork: picture_at(hit.artwork.clone()),
    };
    assert(r.date_added@ =~= Seq::<char>::empty());
    assert(r.year@ =~= Seq::<char>::empty());
    r
}

/// A song on this album, with what a list says of it.
pub open spec fn song_on(
    item: Json,
    album: Option<Json>,
    date_added: Seq<char>,
    favorite: bool,
    in_library: bool,
) -> Option<SongView> {
    match hit_on(item, album) {
        None => None,
        Some(hit) => Some(
            SongView {
                date_added,
                favorite,
                in_library,
                track_number: json::count_in(json::in_object(item, "track_number"@)) as u32,
                year: year(json::words(json::under(album, "release_date"@))),
                ..song_of(hit)
            },
        ),
    }
}

/// A song with what a list says of it.
pub open spec fn song_in(
    item: Json,
    date_added: Seq<char>,
    favorite: bool,
    in_library: bool,
) -> Option<SongView> {
    song_on(item, json::in_object(item, "album"@), date_added, favorite, in_library)
}

fn song_with_album(
    item: &Json,
    album: Option<&Json>,
    date_added: String,
    favorite: bool,
    in_library: bool,
) -> (r: Option<Track>)
    ensures
        seen_opt(r) == song_on(*item, json::held(album), date_added@, favorite, in_library),
{
    match hit_with_album(item, album) {
        None => None,
        Some(hit) => {
            let mut song = hit_to_song(&hit);
            song.date_added = date_added;
            song.favorite = favorite;
            song.in_library = in_library;
            let n = json::count_of(item.get("track_number"));
            song.track_number =
            #[verifier::truncate]
            (n as u32);
            song.year = year_of(json::words_of(json::at(album, "release_date")).as_str());
            Some(song)
        },
    }
}

/// A song with what a list says of it.
pub fn song_from_track(item: &Json, date_added: String, favorite: bool, in_library: bool) -> (r:
    Option<Track>)
    ensures
        seen_opt(r) == song_in(*item, date_added@, favorite, in_library),
{
    song_with_album(item, item.get("album"), date_added, favorite, in_library)
}

/// A song of an album's own list, which leaves out the album that it is on.
pub open spec fn song_of_album(item: Json, album: Json) -> Option<SongView> {
    song_on(
        item,
        json::either(json::in_object(item, "album"@), Some(album)),
        Seq::empty(),
        false,
        false,
    )
}

/// A song of an album's own list.
pub fn song_from_track_on_album(item: &Json, album: &Json) -> (r: Option<Track>)
    ensures
        seen_opt(r) == song_of_album(*item, *album),
{
    let none = String::new();
    assert(none@ =~= Seq::<char>::empty());
    song_with_album(item, json::or(item.get("album"), Some(album)), none, false, false)
}

/// An album as the public interface answers it. One without an id is none.
pub open spec fn album_in(item: Json, date_added: Seq<char>, library: bool) -> Option<AlbumView> {
    match json::text_in(json::in_object(item, "id"@)) {
        None => None,
        Some(id) => Some(
            AlbumView {
                id: "sp:album:"@ + id,
                date_added,
                name: text_in(item, "name"@),
                artist: line_in(item),
                artwork: image_in(json::in_object(item, "images"@)),
                year: year(text_in(item, "release_date"@)),
                track_count: json::count_in(json::in_object(item, "total_tracks"@)) as u32,
                library,
            },
        ),
    }
}

/// An album as the public interface answers it.
pub fn album_from_object(item: &Json, date_added: String, library: bool) -> (r: Option<Album>)
    ensures
        seen_opt(r) == album_in(*item, date_added@, library),
{
    match json::text_of(item.get("id")) {
        None => None,
        Some(id) => {
            let mut full = "sp:album:".to_owned();
            full.append(id);
            let n = json::count_of(item.get("total_tracks"));
            Some(
                Album {
                    id: full,
                    date_added,
                    name: text(item, "name"),
                    artist: artists_line(item),
                    artwork: picture_at(image_url(item.get("images"))),
                    year: year_of(text(item, "release_date").as_str()),
                    track_count:
                    #[verifier::truncate]
                    (n as u32),
                    library,
                },
            )
        },
    }
}

/// A playlist as the public interface answers it. One without an id is none.
pub open spec fn playlist_in(item: Json, library: bool) -> Option<PlaylistView> {
    match json::text_in(json::in_object(item, "id"@)) {
        None => None,
        Some(id) => Some(
            PlaylistView {
                id: "sp:playlist:"@ + id,
                date_added: Seq::empty(),
                last_modified: text_in(item, "snapshot_id"@),
                name: text_in(item, "name"@),
                curator: json::words(in2(item, "owner"@, "display_name"@)),
                description: text_in(item, "description"@),
                artwork: image_in(json::in_object(item, "images"@)),
                library,
            },
        ),
    }
}

/// A playlist as the public interface answers it.
pub fn playlist_from_object(item: &Json, library: bool) -> (r: Option<Playlist>)
    ensures
        seen_opt(r) == playlist_in(*item, library),
{
    match json::text_of(item.get("id")) {
        None => None,
        Some(id) => {
            let mut full = "sp:playlist:".to_owned();
            full.append(id);
            let r = Playlist {
                id: full,
                date_added: String::new(),
                last_modified: text(item, "snapshot_id"),
                name: text(item, "name"),
                curator: json::words_of(get2(item, "owner", "display_name")),
                description: text(item, "description"),
                artwork: picture_at(image_url(item.get("images"))),
                library,
            };
            assert(r.date_added@ =~= Seq::<char>::empty());
            Some(r)
        },
    }
}

fn text_item(v: &Json) -> (r: Option<String>)
    ensures
        seen_opt(r) == json::text_in(Some(*v)),
{
    match json::text_of(Some(v)) {
        Some(s) => Some(s.to_owned()),
        None => None,
    }
}

/// The genres of an artist, in a line.
pub open spec fn genres_in(item: Json) -> Seq<char> {
    text::joined(
        json::chosen(
            json::items_in(json::in_object(item, "genres"@)),
            |g: Json| json::text_in(Some(g)),
        ),
        ", "@,
    )
}

fn genres_of(item: &Json) -> (r: String)
    ensures
        r@ == genres_in(*item),
{
    match json::list_of(item.get("genres")) {
        Some(items) => {
            let names = json::choose_items(
                items,
                text_item,
                Ghost(|g: Json| json::text_in(Some(g))),
            );
            assert(seen(names@) =~= text::views(names@));
            text::join(&names, ", ")
        },
        None => {
            let r = String::new();
            assert(json::chosen(
                Seq::<Json>::empty(),
                |g: Json| json::text_in(Some(g)),
            ).len() == 0);
            assert(r@ =~= genres_in(*item));
            r
        },
    }
}

/// An artist as the public interface answers it. One without an id is none.
pub open spec fn artist_in(item: Json) -> Option<ArtistView> {
    match json::text_in(json::in_object(item, "id"@)) {
        None => None,
        Some(id) => Some(
            ArtistView {
                id: "sp:artist:"@ + id,
                name: text_in(item, "name"@),
                artwork: image_in(json::in_object(item, "images"@)),
                genres: genres_in(item),
                library: true,
            },
        ),
    }
}

/// An artist as the public interface answers it.
pub fn artist_from_object(item: &Json) -> (r: Option<Artist>)
    ensures
        seen_opt(r) == artist_in(*item),
{
    match json::text_of(item.get("id")) {
        None => None,
        Some(id) => {
            let mut full = "sp:artist:".to_owned();
            full.append(id);
            Some(
                Artist {
                    id: full,
                    name: text(item, "name"),
                    artwork: picture_at(image_url(item.get("images"))),
                    genres: genres_of(item),
                    library: true,
                },
            )
        },
    }
}

/// Whether `l` is a list of artists of which the one at `i` alone has a name,
/// and that is `n`.
pub open spec fn is_only_name(l: Seq<Json>, i: int, n: Seq<char>) -> bool {
    &&& 0 <= i < l.len()
    &&& json::says(l[i], "name"@, n)
    &&& forall|j: int|
        0 <= j < l.len() && j != i ==> !(json::in_object(#[trigger] l[j], "name"@) matches Some(
            Json::Text(_),
        ))
}

proof fn one_name_is_the_line(item: Json, l: Seq<Json>, i: int, n: Seq<char>)
    requires
        json::list_in(json::in_object(item, "artists"@)) == Some(l),
        is_only_name(l, i, n),
    ensures
        line_in(item) == n,
{
    let f = |a: Json| name_in(a);
    json::one_thing_is_made(l, f, i);
    text::joining_one_more(Seq::empty(), ", "@, n);
}

/// A song is by the artist that its artists name: one name is the artist, on
/// whatever album the song is.
pub proof fn a_song_is_by_its_artist(
    item: Json,
    album: Option<Json>,
    id: Seq<char>,
    title: Seq<char>,
    l: Seq<Json>,
    i: int,
    n: Seq<char>,
    date_added: Seq<char>,
    favorite: bool,
    in_library: bool,
)
    requires
        json::says(item, "id"@, id),
        id.len() > 0,
        json::says(item, "name"@, title),
        title.len() > 0,
        json::in_object(item, "is_local"@) != Some(Json::Bool(true)),
        json::list_in(json::in_object(item, "artists"@)) == Some(l),
        is_only_name(l, i, n),
    ensures
        hit_on(item, album) matches Some(hit) && hit.artist == n && hit.title == title,
        song_on(item, album, date_added, favorite, in_library) matches Some(song) && song.artist
            == n && song.title == title,
        song_in(item, date_added, favorite, in_library) matches Some(song) && song.artist == n,
        album matches Some(a) ==> (song_of_album(item, a) matches Some(song) && song.artist == n),
{
    one_name_is_the_line(item, l, i, n);
}

/// Two artists stand in a line, the first before the second, with a comma and a
/// space between them.
pub proof fn two_artists_stand_in_a_line(
    item: Json,
    l: Seq<Json>,
    i: int,
    n: Seq<char>,
    k: int,
    m: Seq<char>,
)
    requires
        json::list_in(json::in_object(item, "artists"@)) == Some(l),
        0 <= i < k < l.len(),
        json::says(l[i], "name"@, n),
        json::says(l[k], "name"@, m),
        forall|j: int|
            0 <= j < l.len() && j != i && j != k ==> !(json::in_object(
                #[trigger] l[j],
                "name"@,
            ) matches Some(Json::Text(_))),
    ensures
        line_in(item) == n + ", "@ + m,
{
    let f = |a: Json| name_in(a);
    json::two_things_are_made(l, f, i, k);
    text::joining_one_more(seq![n], ", "@, m);
    assert(seq![n].push(m) =~= seq![n, m]);
}

/// The album says which album a song is on, its picture and its year, and
/// nothing else of the song: on another album it is the same song by the same
/// artist.
pub proof fn the_album_says_nothing_of_the_song(
    item: Json,
    one: Option<Json>,
    other: Option<Json>,
    date_added: Seq<char>,
    favorite: bool,
    in_library: bool,
)
    ensures
        hit_on(item, one) is Some == hit_on(item, other) is Some,
        (hit_on(item, one), hit_on(item, other)) matches (Some(a), Some(b)) ==> {
            &&& a.id == b.id
            &&& a.title == b.title
            &&& a.artist == b.artist
            &&& a.duration_ms == b.duration_ms
            &&& a.play_query == b.play_query
        },
        (
            song_on(item, one, date_added, favorite, in_library),
            song_on(item, other, date_added, favorite, in_library),
        ) matches (Some(a), Some(b)) ==> {
            &&& a.id == b.id
            &&& a.title == b.title
            &&& a.artist == b.artist
            &&& a.duration_ms == b.duration_ms
            &&& a.track_number == b.track_number
        },
{
}

/// Two songs that differ in their album alone are by the same artist.
pub proof fn songs_that_differ_in_their_album_have_one_artist(
    a: Json,
    b: Json,
    date_added: Seq<char>,
    favorite: bool,
    in_library: bool,
)
    requires
        forall|key: Seq<char>|
            key != "album"@ ==> #[trigger] json::in_object(a, key) == json::in_object(b, key),
    ensures
        (
            song_in(a, date_added, favorite, in_library),
            song_in(b, date_added, favorite, in_library),
        ) matches (Some(x), Some(y)) ==> x.artist == y.artist && x.title == y.title && x.id == y.id
            && x.duration_ms == y.duration_ms,
        song_in(a, date_added, favorite, in_library) is Some == song_in(
            b,
            date_added,
            favorite,
            in_library,
        ) is Some,
{
    reveal_strlit("album");
    reveal_strlit("artists");
    reveal_strlit("name");
    reveal_strlit("id");
    reveal_strlit("is_local");
    reveal_strlit("duration_ms");
    assert("artists"@.len() != "album"@.len());
    assert("name"@.len() != "album"@.len());
    assert("id"@.len() != "album"@.len());
    assert("is_local"@.len() != "album"@.len());
    assert("duration_ms"@.len() != "album"@.len());
    assert(json::in_object(a, "artists"@) == json::in_object(b, "artists"@));
    assert(json::in_object(a, "name"@) == json::in_object(b, "name"@));
    assert(json::in_object(a, "id"@) == json::in_object(b, "id"@));
    assert(json::in_object(a, "is_local"@) == json::in_object(b, "is_local"@));
    assert(json::in_object(a, "duration_ms"@) == json::in_object(b, "duration_ms"@));
    assert(line_in(a) == line_in(b));
}

/// What a song says is what its members say: the id behind `sp:` and in the
/// address it is played from, the title, the length, and the album's name and
/// year.
pub proof fn a_song_says_what_its_members_say(
    item: Json,
    album: Json,
    id: Seq<char>,
    title: Seq<char>,
    ms: u64,
    name: Seq<char>,
    date: Seq<char>,
    n: u64,
    date_added: Seq<char>,
    favorite: bool,
    in_library: bool,
)
    requires
        json::says(item, "id"@, id),
        id.len() > 0,
        json::says(item, "name"@, title),
        title.len() > 0,
        json::in_object(item, "is_local"@) != Some(Json::Bool(true)),
        json::in_object(item, "duration_ms"@) == Some(Json::Number(Number::Whole(ms))),
        json::in_object(item, "track_number"@) == Some(Json::Number(Number::Whole(n))),
        n <= u32::MAX,
        json::says(album, "name"@, name),
        json::says(album, "release_date"@, date),
        date.len() >= 4,
        forall|k: int| 0 <= k < 4 ==> '0' <= #[trigger] date[k] <= '9',
    ensures
        song_on(item, Some(album), date_added, favorite, in_library) matches Some(song) && {
            &&& song.id == "sp:"@ + id
            &&& song.catalog_id == Some("sp:"@ + id)
            &&& song.library_id == Some("sp:"@ + id)
            &&& song.title == title
            &&& song.duration_ms == ms
            &&& song.track_number == n
            &&& song.album == name
            &&& song.year == date.take(4)
            &&& song.date_added == date_added
            &&& song.favorite == favorite
            &&& song.in_library == in_library
        },
        hit_on(item, Some(album)) matches Some(hit) && hit.play_query
            == "https://open.spotify.com/track/"@ + id && hit.album == name && hit.duration_ms
            == ms,
{
    a_date_begins_with_its_year(date);
}

/// The year is the first four digits of a date.
pub proof fn a_date_begins_with_its_year(date: Seq<char>)
    requires
        date.len() >= 4,
        forall|k: int| 0 <= k < 4 ==> '0' <= #[trigger] date[k] <= '9',
    ensures
        year(date) == date.take(4),
{
    text::plain_characters_take_one_byte(date, 4);
}

/// What is on somebody's disk, and what has no id or no title, is no song.
pub proof fn what_cannot_be_played_is_no_song(item: Json, album: Option<Json>)
    requires
        json::in_object(item, "is_local"@) == Some(Json::Bool(true)) || !(json::in_object(
            item,
            "id"@,
        ) matches Some(Json::Text(_))) || !(json::in_object(item, "name"@) matches Some(
            Json::Text(_),
        )) || json::says(item, "id"@, Seq::empty()) || json::says(item, "name"@, Seq::empty()),
    ensures
        hit_on(item, album) is None,
{
}

/// A song shows the first picture of its album, and its own first where the
/// album has none.
pub proof fn a_song_shows_its_albums_picture(
    item: Json,
    album: Json,
    l: Seq<Json>,
    url: Seq<char>,
)
    requires
        l.len() > 0,
        json::says(l[0], "url"@, url),
        hit_on(item, Some(album)) is Some,
    ensures
        json::list_in(json::in_object(album, "images"@)) == Some(l) ==> hit_on(
            item,
            Some(album),
        )->0.artwork == Some(url),
        json::in_object(album, "images"@) is None && json::list_in(
            json::in_object(item, "images"@),
        ) == Some(l) ==> hit_on(item, Some(album))->0.artwork == Some(url),
{
}

/// A song of an album's own list is on the album that it says it is on, and on
/// the list's where it says none.
pub proof fn a_listed_song_is_on_the_album(item: Json, album: Json, name: Seq<char>)
    requires
        song_of_album(item, album) is Some,
    ensures
        json::in_object(item, "album"@) is None && json::says(album, "name"@, name)
            ==> song_of_album(item, album)->0.album == name,
        json::in_object(item, "album"@) matches Some(own) && json::says(own, "name"@, name)
            ==> song_of_album(item, album)->0.album == name,
        song_of_album(item, album)->0.date_added.len() == 0,
        !song_of_album(item, album)->0.favorite,
        !song_of_album(item, album)->0.in_library,
{
}

/// What an album says is what its members say, and when it was added and
/// whether it is in the library is what it is read with.
pub proof fn an_album_says_what_its_members_say(
    item: Json,
    id: Seq<char>,
    name: Seq<char>,
    l: Seq<Json>,
    i: int,
    n: Seq<char>,
    date: Seq<char>,
    count: u64,
    pictures: Seq<Json>,
    url: Seq<char>,
    date_added: Seq<char>,
    library: bool,
)
    requires
        json::says(item, "id"@, id),
        json::says(item, "name"@, name),
        json::list_in(json::in_object(item, "artists"@)) == Some(l),
        is_only_name(l, i, n),
        json::says(item, "release_date"@, date),
        date.len() >= 4,
        forall|k: int| 0 <= k < 4 ==> '0' <= #[trigger] date[k] <= '9',
        json::in_object(item, "total_tracks"@) == Some(Json::Number(Number::Whole(count))),
        count <= u32::MAX,
        json::list_in(json::in_object(item, "images"@)) == Some(pictures),
        pictures.len() > 0,
        json::says(pictures[0], "url"@, url),
    ensures
        album_in(item, date_added, library) matches Some(album) && {
            &&& album.id == "sp:album:"@ + id
            &&& album.name == name
            &&& album.artist == n
            &&& album.year == date.take(4)
            &&& album.track_count == count
            &&& album.artwork == Some(url)
            &&& album.date_added == date_added
            &&& album.library == library
        },
{
    one_name_is_the_line(item, l, i, n);
    a_date_begins_with_its_year(date);
}

/// What a playlist says is what its members say.
pub proof fn a_playlist_says_what_its_members_say(
    item: Json,
    id: Seq<char>,
    name: Seq<char>,
    owner: Json,
    curator: Seq<char>,
    description: Seq<char>,
    snapshot: Seq<char>,
    library: bool,
)
    requires
        json::says(item, "id"@, id),
        json::says(item, "name"@, name),
        json::in_object(item, "owner"@) == Some(owner),
        json::says(owner, "display_name"@, curator),
        json::says(item, "description"@, description),
        json::says(item, "snapshot_id"@, snapshot),
    ensures
        playlist_in(item, library) matches Some(list) && {
            &&& list.id == "sp:playlist:"@ + id
            &&& list.name == name
            &&& list.curator == curator
            &&& list.description == description
            &&& list.last_modified == snapshot
            &&& list.date_added.len() == 0
            &&& list.library == library
        },
{
}

/// What an artist says is what its members say, two genres in a line.
pub proof fn an_artist_says_what_its_members_say(
    item: Json,
    id: Seq<char>,
    name: Seq<char>,
    one: String,
    other: String,
    genres: Vec<Json>,
    pictures: Seq<Json>,
    url: Seq<char>,
)
    requires
        json::says(item, "id"@, id),
        json::says(item, "name"@, name),
        json::in_object(item, "genres"@) == Some(Json::List(genres)),
        genres@ == seq![Json::Text(one), Json::Text(other)],
        json::list_in(json::in_object(item, "images"@)) == Some(pictures),
        pictures.len() > 0,
        json::says(pictures[0], "url"@, url),
    ensures
        artist_in(item) matches Some(artist) && {
            &&& artist.id == "sp:artist:"@ + id
            &&& artist.name == name
            &&& artist.genres == one@ + ", "@ + other@
            &&& artist.artwork == Some(url)
            &&& artist.library
        },
{
    let f = |g: Json| json::text_in(Some(g));
    json::two_things_are_made(genres@, f, 0, 1);
    text::joining_one_more(seq![one@], ", "@, other@);
    assert(seq![one@].push(other@) =~= seq![one@, other@]);
}

/// What has no id is no album, no playlist and no artist.
pub proof fn what_has_no_id_is_nothing(item: Json, date_added: Seq<char>, library: bool)
    requires
        !(json::in_object(item, "id"@) matches Some(Json::Text(_))),
    ensures
        album_in(item, date_added, library) is None,
        playlist_in(item, library) is None,
        artist_in(item) is None,
{
}

} // verus!
