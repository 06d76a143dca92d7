//! What Spotify's web player answers, read into songs, albums, artists and
//! playlists.
use vstd::prelude::*;

use crate::json::{self, Json, Number};
use crate::music::types::{
    picture_at, seen, seen_opt, Album, AlbumView, Artist, ArtistView, Playlist, PlaylistView,
    SongView, Track,
};
use crate::spotify::rest;
use crate::streams::{HitView, StreamHit};
use crate::text;

verus! {

/// A member of a member.
pub open spec fn in2(v: Json, a: Seq<char>, b: Seq<char>) -> Option<Json> {
    json::under(json::in_object(v, a), b)
}

/// A member of a member of a member.
pub open spec fn in3(v: Json, a: Seq<char>, b: Seq<char>, c: Seq<char>) -> Option<Json> {
    json::under(in2(v, a, b), c)
}

pub fn get2<'a>(v: &'a Json, a: &str, b: &str) -> (r: Option<&'a Json>)
    ensures
        json::held(r) == in2(*v, a@, b@),
{
    json::at(v.get(a), b)
}

pub fn get3<'a>(v: &'a Json, a: &str, b: &str, c: &str) -> (r: Option<&'a Json>)
    ensures
        json::held(r) == in3(*v, a@, b@, c@),
{
    json::at(get2(v, a, b), c)
}

/// A member, or the value itself where there is none.
pub open spec fn within(v: Json, key: Seq<char>) -> Json {
    match json::in_object(v, key) {
        Some(j) => j,
        None => v,
    }
}

pub fn inner<'a>(v: &'a Json, key: &str) -> (r: &'a Json)
    ensures
        *r == within(*v, key@),
{
    match v.get(key) {
        Some(j) => j,
        None => v,
    }
}

/// What stands behind the last colon.
pub open spec fn tail(uri: Seq<char>) -> Seq<char> {
    text::split(uri, ':').last()
}

/// What stands behind the last colon.
pub fn uri_tail(uri: &str) -> (r: String)
    ensures
        r@ == tail(uri@),
{
    let parts = text::split_on(uri, ':');
    proof {
        text::split_is_not_empty(uri@, ':');
        assert(text::views(parts@).len() == parts@.len());
        assert(text::views(parts@).last() == parts@[parts@.len() - 1]@);
    }
    parts[parts.len() - 1].clone()
}

/// How tall a picture says it is.
pub open spec fn height(v: Json) -> u64 {
    json::count_in(json::in_object(v, "height"@))
}

/// The tallest of pictures: the last of those that are.
pub open spec fn tallest(l: Seq<Json>) -> int
    decreases l.len(),
{
    if l.len() <= 1 {
        0
    } else {
        let best = tallest(l.drop_last());
        if height(l.last()) >= height(l[best]) {
            l.len() - 1
        } else {
            best
        }
    }
}

/// The address of a picture.
pub open spec fn url_in(v: Json) -> Option<Seq<char>> {
    json::text_in(json::in_object(v, "url"@))
}

/// The address of the tallest of pictures, else of the first.
pub open spec fn cover_in(sources: Option<Json>) -> Option<Seq<char>> {
    match json::list_in(sources) {
        Some(l) => if l.len() == 0 {
            None
        } else {
            match url_in(l[tallest(l)]) {
                Some(s) => Some(s),
                None => url_in(l[0]),
            }
        },
        None => None,
    }
}

proof fn tallest_is_there(l: Seq<Json>)
    requires
        l.len() > 0,
    ensures
        0 <= tallest(l) < l.len(),
    decreases l.len(),
{
    if l.len() > 1 {
        tallest_is_there(l.drop_last());
    }
}

/// The tallest picture is at least as tall as any other.
pub proof fn no_picture_is_taller(l: Seq<Json>, i: int)
    requires
        0 <= i < l.len(),
    ensures
        height(l[i]) <= height(l[tallest(l)]),
    decreases l.len(),
{
    tallest_is_there(l);
    if l.len() > 1 {
        tallest_is_there(l.drop_last());
        if i < l.len() - 1 {
            no_picture_is_taller(l.drop_last(), i);
        }
    }
}

fn url_of(v: &Json) -> (r: Option<String>)
    ensures
        text::opt_view(r) == url_in(*v),
{
    match json::text_of(v.get("url")) {
        Some(s) => Some(s.to_owned()),
        None => None,
    }
}

fn cover_from_sources(sources: Option<&Json>) -> (r: Option<String>)
    ensures
        text::opt_view(r) == cover_in(json::held(sources)),
{
    match json::list_of(sources) {
        None => None,
        Some(l) => {
            if l.len() == 0 {
                return None;
            }
            let mut best: usize = 0;
            let mut i: usize = 1;
            proof {
                assert(tallest(l@.take(1)) == 0);
            }
            while i < l.len()
                invariant
                    1 <= i <= l@.len(),
                    best < i,
                    best == tallest(l@.take(i as int)),
                decreases l@.len() - i,
            {
                proof {
                    text::take_step(l@, i as int);
                    assert(l@.take(i + 1).drop_last() =~= l@.take(i as int));
                    assert(l@.take(i + 1)[best as int] == l@[best as int]);
                }
                if json::count_of(l[i].get("height")) >= json::count_of(l[best].get("height")) {
                    best = i;
                }
                i += 1;
            }
            assert(l@.take(i as int) =~= l@);
            match url_of(&l[best]) {
                Some(s) => Some(s),
                None => url_of(&l[0]),
            }
        },
    }
}

/// The first of two texts that is there.
pub open spec fn or_text(a: Option<Seq<char>>, b: Option<Seq<char>>) -> Option<Seq<char>> {
    if a is Some {
        a
    } else {
        b
    }
}

fn or_string(a: Option<String>, b: Option<String>) -> (r: Option<String>)
    ensures
        text::opt_view(r) == or_text(text::opt_view(a), text::opt_view(b)),
{
    match a {
        Some(s) => Some(s),
        None => b,
    }
}

/// The picture of a song, an album or an artist.
pub open spec fn any_cover(data: Json) -> Option<Seq<char>> {
    or_text(
        or_text(
            or_text(
                or_text(
                    cover_in(in3(data, "albumOfTrack"@, "coverArt"@, "sources"@)),
                    cover_in(in2(data, "coverArt"@, "sources"@)),
                ),
                cover_in(in3(data, "visuals"@, "avatarImage"@, "sources"@)),
            ),
            rest::image_in(in2(data, "album"@, "images"@)),
        ),
        rest::image_in(json::in_object(data, "images"@)),
    )
}

fn gql_cover(data: &Json) -> (r: Option<String>)
    ensures
        text::opt_view(r) == any_cover(*data),
{
    let a = cover_from_sources(get3(data, "albumOfTrack", "coverArt", "sources"));
    let b = or_string(a, cover_from_sources(get2(data, "coverArt", "sources")));
    let c = or_string(b, cover_from_sources(get3(data, "visuals", "avatarImage", "sources")));
    let d = or_string(c, rest::image_url(get2(data, "album", "images")));
    or_string(d, rest::image_url(data.get("images")))
}

/// The picture of a playlist: of the first of its images.
pub open spec fn list_cover(data: Json) -> Option<Seq<char>> {
    match json::list_in(in2(data, "images"@, "items"@)) {
        Some(l) => if l.len() > 0 {
            cover_in(json::in_object(l[0], "sources"@))
        } else {
            None
        },
        None => None,
    }
}

fn gql_playlist_cover(data: &Json) -> (r: Option<String>)
    ensures
        text::opt_view(r) == list_cover(*data),
{
    match json::list_of(get2(data, "images", "items")) {
        Some(l) => if l.len() > 0 {
            cover_from_sources(l[0].get("sources"))
        } else {
            None
        },
        None => None,
    }
}

/// The name of an artist, in either of its forms.
pub open spec fn artist_name(a: Json) -> Option<Seq<char>> {
    json::text_in(json::either(in2(a, "profile"@, "name"@), json::in_object(a, "name"@)))
}

fn name_of_artist(a: &Json) -> (r: Option<String>)
    ensures
        seen_opt(r) == artist_name(*a),
{
    match json::text_of(json::or(get2(a, "profile", "name"), a.get("name"))) {
        Some(s) => Some(s.to_owned()),
        None => None,
    }
}

/// The artists of a song or an album, in a line.
pub open spec fn artists_in(data: Json) -> Seq<char> {
    let names = json::chosen(
        json::items_in(in2(data, "artists"@, "items"@)),
        |a: Json| artist_name(a),
    );
    if names.len() > 0 {
        text::joined(names, ", "@)
    } else {
        rest::line_in(data)
    }
}

fn gql_artists_line(data: &Json) -> (r: String)
    ensures
        r@ == artists_in(*data),
{
    if let Some(items) = json::list_of(get2(data, "artists", "items")) {
        let names = json::choose_items(
            items,
            name_of_artist,
            Ghost(|a: Json| artist_name(a)),
        );
        assert(seen(names@) =~= text::views(names@));
        assert(seen(names@).len() == names@.len());
        if names.len() > 0 {
            return text::join(&names, ", ");
        }
    }
    assert(json::chosen(Seq::<Json>::empty(), |a: Json| artist_name(a)).len() == 0);
    rest::artists_line(data)
}

/// The length of a song.
pub open spec fn length_in(data: Json) -> u64 {
    json::count_in(
        json::either(
            json::either(
                json::either(
                    in2(data, "duration"@, "totalMilliseconds"@),
                    in2(data, "trackDuration"@, "totalMilliseconds"@),
                ),
                json::in_object(data, "durationMs"@),
            ),
            json::in_object(data, "duration_ms"@),
        ),
    )
}

fn gql_duration_ms(data: &Json) -> (r: u64)
    ensures
        r == length_in(*data),
{
    json::count_of(
        json::or(
            json::or(
                json::or(
                    get2(data, "duration", "totalMilliseconds"),
                    get2(data, "trackDuration", "totalMilliseconds"),
                ),
                data.get("durationMs"),
            ),
            data.get("duration_ms"),
        ),
    )
}

/// When a song or an album came out.
pub open spec fn date_in(data: Json) -> Seq<char> {
    let day = json::text_in(
        json::either(
            json::either(
                in3(data, "albumOfTrack"@, "date"@, "isoString"@),
                in2(data, "date"@, "isoString"@),
            ),
            in2(data, "album"@, "release_date"@),
        ),
    );
    match day {
        Some(s) => s,
        None => match json::whole_in(in2(data, "date"@, "year"@)) {
            Some(y) => text::decimal(y as nat),
            None => Seq::empty(),
        },
    }
}

fn gql_date(data: &Json) -> (r: String)
    ensures
        r@ == date_in(*data),
{
    let day = json::text_of(
        json::or(
            json::or(
                get3(data, "albumOfTrack", "date", "isoString"),
                get2(data, "date", "isoString"),
            ),
            get2(data, "album", "release_date"),
        ),
    );
    match day {
        Some(s) => s.to_owned(),
        None => match json::whole_of(get2(data, "date", "year")) {
            Some(y) => text::number(y),
            None => String::new(),
        },
    }
}

/// A label: a text, or an object that holds one.
pub open spec fn label_in(value: Json, key: Seq<char>) -> Seq<char> {
    match json::in_object(value, key) {
        None => Seq::empty(),
        Some(field) => match json::text_in(Some(field)) {
            Some(s) => s,
            None => json::words(
                json::either(
                    json::either(
                        json::in_object(field, "transformedLabel"@),
                        json::in_object(field, "text"@),
                    ),
                    json::in_object(field, "transformedName"@),
                ),
            ),
        },
    }
}

fn gql_label(value: &Json, key: &str) -> (r: String)
    ensures
        r@ == label_in(*value, key@),
{
    match value.get(key) {
        None => String::new(),
        Some(field) => match json::text_of(Some(field)) {
            Some(s) => s.to_owned(),
            None => json::words_of(
                json::or(
                    json::or(field.get("transformedLabel"), field.get("text")),
                    field.get("transformedName"),
                ),
            ),
        },
    }
}

/// The id of a song: behind the last colon of its address, else its own.
pub open spec fn song_id(data: Json) -> Seq<char> {
    let uri = json::words(
        json::either(json::in_object(data, "uri"@), json::in_object(data, "_uri"@)),
    );
    if uri.len() == 0 {
        json::words(json::in_object(data, "id"@))
    } else {
        tail(uri)
    }
}

/// Whether `s` holds no colon and is not empty.
pub open spec fn is_bare(s: Seq<char>) -> bool {
    s.len() > 0 && !text::occurs(s, ":"@)
}

/// A song as the web player answers it. What is missing, what is an episode and
/// what has no id or title is none.
pub open spec fn hit_in(data: Json) -> Option<HitView> {
    let kind = json::words(json::in_object(data, "__typename"@));
    let id = song_id(data);
    let title = rest::text_in(data, "name"@);
    if data is Null || kind == "NotFound"@ || text::occurs(kind, "Episode"@) || !is_bare(id)
        || title.len() == 0 {
        None
    } else {
        Some(
            HitView {
                id: "sp:"@ + id,
                title,
                artist: artists_in(data),
                album: json::words(
                    json::either(
                        in2(data, "albumOfTrack"@, "name"@),
                        in2(data, "album"@, "name"@),
                    ),
                ),
                duration_ms: length_in(data),
                artwork: any_cover(data),
                play_query: "https://open.spotify.com/track/"@ + id,
            },
        )
    }
}

/// A song as the web player answers it.
pub fn hit_from_gql_track(data: &Json) -> (r: Option<StreamHit>)
    ensures
        seen_opt(r) == hit_in(*data),
{
    if data.is_null() {
        return None;
    }
    let kind = json::words_of(data.get("__typename"));
    if text::same(kind.as_str(), "NotFound") || text::contains(kind.as_str(), "Episode") {
        return None;
    }
    let uri = json::words_of(json::or(data.get("uri"), data.get("_uri")));
    let id = if uri.as_str().is_empty() {
        json::words_of(data.get("id"))
    } else {
        uri_tail(uri.as_str())
    };
    if id.as_str().is_empty() || text::contains(id.as_str(), ":") {
        return None;
    }
    let title = rest::text(data, "name");
    if title.as_str().is_empty() {
        return None;
    }
    let mut play_query = "https://open.spotify.com/track/".to_owned();
    play_query.append(id.as_str());
    let mut full = "sp:".to_owned();
    full.append(id.as_str());
    Some(
        StreamHit {
            play_query,
            artwork: gql_cover(data),
            duration_ms: gql_duration_ms(data),
            album: json::words_of(
                json::or(get2(data, "albumOfTrack", "name"), get2(data, "album", "name")),
            ),
            artist: gql_artists_line(data),
            title,
            id: full,
        },
    )
}

/// A song of the web player's with what a list says of it.
pub open spec fn song_in(
    data: Json,
    date_added: Seq<char>,
    favorite: bool,
    in_library: bool,
) -> Option<SongView> {
    match hit_in(data) {
        None => None,
        Some(hit) => Some(
            SongView {
                date_added,
                favorite,
                in_library,
                track_number: json::count_in(
                    json::either(
                        json::in_object(data, "trackNumber"@),
                        json::in_object(data, "track_number"@),
                    ),
                ) as u32,
                year: rest::year(date_in(data)),
                ..rest::song_of(hit)
            },
        ),
    }
}

/// A song of the web player's with what a list says of it.
pub fn song_from_gql(data: &Json, date_added: String, favorite: bool, in_library: bool) -> (r:
    Option<Track>)
    ensures
        seen_opt(r) == song_in(*data, date_added@, favorite, in_library),
{
    match hit_from_gql_track(data) {
        None => None,
        Some(hit) => {
            let mut song = rest::hit_to_song(&hit);
            song.date_added = date_added;
            song.favorite = favorite;
            song.in_library = in_library;
            let n = json::count_of(json::or(data.get("trackNumber"), data.get("track_number")));
            song.track_number =
            #[verifier::truncate]
            (n as u32);
            song.year = rest::year_of(gql_date(data).as_str());
            Some(song)
        },
    }
}

/// The id of what is not a song: behind the last colon of its address, else the
/// one that it was asked for by.
pub open spec fn page_id(data: Json, fallback: Seq<char>) -> Seq<char> {
    let id = tail(json::words(json::in_object(data, "uri"@)));
    if id.len() > 0 {
        id
    } else {
        fallback
    }
}

fn id_of_page(data: &Json, fallback_id: &str) -> (r: String)
    ensures
        r@ == page_id(*data, fallback_id@),
{
    let id = uri_tail(json::words_of(data.get("uri")).as_str());
    if id.as_str().is_empty() {
        fallback_id.to_owned()
    } else {
        id
    }
}

/// The same, else its own id.
pub open spec fn page_or_own_id(data: Json, fallback: Seq<char>) -> Seq<char> {
    let id = page_id(data, fallback);
    if id.len() > 0 {
        id
    } else {
        json::words(json::in_object(data, "id"@))
    }
}

fn id_of_page_or_own(data: &Json, fallback_id: &str) -> (r: String)
    ensures
        r@ == page_or_own_id(*data, fallback_id@),
{
    let id = id_of_page(data, fallback_id);
    if id.as_str().is_empty() {
        json::words_of(data.get("id"))
    } else {
        id
    }
}

/// The name of a playlist: its name, else its title.
pub open spec fn list_name(data: Json) -> Seq<char> {
    let name = label_in(data, "name"@);
    if name.len() > 0 {
        name
    } else {
        label_in(data, "title"@)
    }
}

/// A playlist as the web player answers it. One without an id or a name is
/// none.
pub open spec fn playlist_in(data: Json, fallback: Seq<char>) -> Option<PlaylistView> {
    let id = page_id(data, fallback);
    let name = list_name(data);
    if data is Null || id.len() == 0 || name.len() == 0 {
        None
    } else {
        Some(
            PlaylistView {
                id: "sp:playlist:"@ + id,
                date_added: Seq::empty(),
                last_modified: Seq::empty(),
                name,
                curator: json::words(
                    json::either(
                        in3(data, "ownerV2"@, "data"@, "name"@),
                        in2(data, "owner"@, "display_name"@),
                    ),
                ),
                description: rest::text_in(data, "description"@),
                artwork: or_text(list_cover(data), any_cover(data)),
                library: false,
            },
        )
    }
}

/// A playlist as the web player answers it.
pub fn playlist_from_gql(data: &Json, fallback_id: &str) -> (r: Option<Playlist>)
    ensures
        seen_opt(r) == playlist_in(*data, fallback_id@),
{
    if data.is_null() {
        return None;
    }
    let id = id_of_page(data, fallback_id);
    if id.as_str().is_empty() {
        return None;
    }
    let label = gql_label(data, "name");
    let name = if label.as_str().is_empty() {
        gql_label(data, "title")
    } else {
        label
    };
    if name.as_str().is_empty() {
        return None;
    }
    let mut full = "sp:playlist:".to_owned();
    full.append(id.as_str());
    let r = Playlist {
        id: full,
        date_added: String::new(),
        last_modified: String::new(),
        name,
        curator: json::words_of(
            json::or(
                get3(data, "ownerV2", "data", "name"),
                get2(data, "owner", "display_name"),
            ),
        ),
        description: rest::text(data, "description"),
        artwork: picture_at(or_string(gql_playlist_cover(data), gql_cover(data))),
        library: false,
    };
    assert(r.date_added@ =~= Seq::<char>::empty());
    Some(r)
}

/// An album as the web player answers it. One without an id or a name is none.
pub open spec fn album_in(data: Json, fallback: Seq<char>) -> Option<AlbumView> {
    let id = page_or_own_id(data, fallback);
    let name = rest::text_in(data, "name"@);
    if data is Null || id.len() == 0 || name.len() == 0 {
        None
    } else {
        Some(
            AlbumView {
                id: "sp:album:"@ + id,
                date_added: Seq::empty(),
                name,
                artist: artists_in(data),
                artwork: any_cover(data),
                year: rest::year(date_in(data)),
                track_count: json::count_in(
                    json::either(
                        in2(data, "tracksV2"@, "totalCount"@),
                        json::in_object(data, "total_tracks"@),
                    ),
                ) as u32,
                library: false,
            },
        )
    }
}

/// An album as the web player answers it.
pub fn album_from_gql(data: &Json, fallback_id: &str) -> (r: Option<Album>)
    ensures
        seen_opt(r) == album_in(*data, fallback_id@),
{
    if data.is_null() {
        return None;
    }
    let id = id_of_page_or_own(data, fallback_id);
    if id.as_str().is_empty() {
        return None;
    }
    let name = rest::text(data, "name");
    if name.as_str().is_empty() {
        return None;
    }
    let mut full = "sp:album:".to_owned();
    full.append(id.as_str());
    let n = json::count_of(
        json::or(get2(data, "tracksV2", "totalCount"), data.get("total_tracks")),
    );
    let r = Album {
        id: full,
        date_added: String::new(),
        name,
        artist: gql_artists_line(data),
        artwork: picture_at(gql_cover(data)),
        year: rest::year_of(gql_date(data).as_str()),
        track_count:
        #[verifier::truncate]
        (n as u32),
        library: false,
    };
    assert(r.date_added@ =~= Seq::<char>::empty());
    Some(r)
}

/// The name of an artist as the web player answers it: that of the profile
/// where it has one, else its own.
pub open spec fn artist_label(data: Json) -> Seq<char> {
    let name = json::words(in2(data, "profile"@, "name"@));
    if name.len() > 0 {
        name
    } else {
        rest::text_in(data, "name"@)
    }
}

/// An artist as the web player answers it. One without an id or a name is none.
pub open spec fn artist_in(data: Json, fallback: Seq<char>) -> Option<ArtistView> {
    let id = page_or_own_id(data, fallback);
    let name = artist_label(data);
    if data is Null || id.len() == 0 || name.len() == 0 {
        None
    } else {
        Some(
            ArtistView {
                id: "sp:artist:"@ + id,
                name,
                artwork: any_cover(data),
                genres: Seq::empty(),
                library: true,
            },
        )
    }
}

/// An artist as the web player answers it.
pub fn artist_from_gql(data: &Json, fallback_id: &str) -> (r: Option<Artist>)
    ensures
        seen_opt(r) == artist_in(*data, fallback_id@),
{
    if data.is_null() {
        return None;
    }
    let id = id_of_page_or_own(data, fallback_id);
    let profile = json::words_of(get2(data, "profile", "name"));
    let name = if profile.as_str().is_empty() {
        rest::text(data, "name")
    } else {
        profile
    };
    if id.as_str().is_empty() || name.as_str().is_empty() {
        return None;
    }
    let mut full = "sp:artist:".to_owned();
    full.append(id.as_str());
    let r = Artist {
        id: full,
        name,
        artwork: picture_at(gql_cover(data)),
        genres: String::new(),
        library: true,
    };
    assert(r.genres@ =~= Seq::<char>::empty());
    Some(r)
}

/// A song is by the one artist that its artists name, in the profile or by
/// itself.
pub proof fn a_song_is_by_its_artist(
    data: Json,
    artists: Json,
    l: Seq<Json>,
    i: int,
    n: Seq<char>,
)
    requires
        json::in_object(data, "artists"@) == Some(artists),
        json::list_in(json::in_object(artists, "items"@)) == Some(l),
        0 <= i < l.len(),
        json::in_object(l[i], "profile"@) matches Some(p) && json::says(p, "name"@, n),
        forall|j: int|
            0 <= j < l.len() && j != i ==> json::in_object(#[trigger] l[j], "profile"@) is None
                && json::in_object(l[j], "name"@) is None,
    ensures
        artists_in(data) == n,
        hit_in(data) matches Some(hit) ==> hit.artist == n,
        album_in(data, Seq::empty()) matches Some(album) ==> album.artist == n,
{
    let f = |a: Json| artist_name(a);
    json::one_thing_is_made(l, f, i);
    text::joining_one_more(Seq::empty(), ", "@, n);
}

/// Two artists stand in a line in their order.
pub proof fn two_artists_stand_in_a_line(
    data: Json,
    artists: Json,
    l: Seq<Json>,
    a: Json,
    n: Seq<char>,
    b: Json,
    m: Seq<char>,
)
    requires
        json::in_object(data, "artists"@) == Some(artists),
        json::list_in(json::in_object(artists, "items"@)) == Some(l),
        l.len() == 2,
        json::in_object(l[0], "profile"@) == Some(a),
        json::says(a, "name"@, n),
        json::in_object(l[1], "profile"@) == Some(b),
        json::says(b, "name"@, m),
    ensures
        artists_in(data) == n + ", "@ + m,
{
    let f = |x: Json| artist_name(x);
    json::two_things_are_made(l, f, 0, 1);
    text::joining_one_more(seq![n], ", "@, m);
    assert(seq![n].push(m) =~= seq![n, m]);
}

/// The id is what stands behind the last colon of an address.
pub proof fn the_id_is_behind_the_last_colon(before: Seq<char>, id: Seq<char>)
    requires
        forall|i: int| 0 <= i < id.len() ==> #[trigger] id[i] != ':',
    ensures
        tail(id) == id,
        tail(before.push(':') + id) == id,
{
    text::a_text_is_cut_at_its_separators(id, ':', Seq::empty());
    text::the_last_part_is_behind_the_last_separator(before, ':', id);
}

/// A song is what its members say: the id behind the last colon of its address,
/// its name, its length, and the name of its album.
pub proof fn a_song_says_what_its_members_say(
    data: Json,
    before: Seq<char>,
    id: Seq<char>,
    title: Seq<char>,
    album: Json,
    name: Seq<char>,
    duration: Json,
    ms: u64,
    n: u64,
    day: Json,
    date: Seq<char>,
    date_added: Seq<char>,
    favorite: bool,
    in_library: bool,
)
    requires
        json::says(data, "uri"@, before.push(':') + id),
        id.len() > 0,
        forall|i: int| 0 <= i < id.len() ==> #[trigger] id[i] != ':',
        json::says(data, "name"@, title),
        title.len() > 0,
        json::says(data, "__typename"@, "Track"@),
        json::in_object(data, "albumOfTrack"@) == Some(album),
        json::says(album, "name"@, name),
        json::in_object(album, "date"@) == Some(day),
        json::says(day, "isoString"@, date),
        date.len() >= 4,
        forall|k: int| 0 <= k < 4 ==> '0' <= #[trigger] date[k] <= '9',
        json::in_object(data, "duration"@) == Some(duration),
        json::in_object(duration, "totalMilliseconds"@) == Some(Json::Number(Number::Whole(ms))),
        json::in_object(data, "trackNumber"@) == Some(Json::Number(Number::Whole(n))),
        n <= u32::MAX,
    ensures
        song_in(data, date_added, favorite, in_library) matches Some(song) && {
            &&& song.id == "sp:"@ + id
            &&& song.catalog_id == Some("sp:"@ + id)
            &&& song.library_id == Some("sp:"@ + id)
            &&& song.title == title
            &&& song.album == name
            &&& song.duration_ms == ms
            &&& song.track_number == n
            &&& song.year == date.take(4)
            &&& song.date_added == date_added
            &&& song.favorite == favorite
            &&& song.in_library == in_library
        },
        hit_in(data) matches Some(hit) && hit.play_query == "https://open.spotify.com/track/"@
            + id,
{
    the_id_is_behind_the_last_colon(before, id);
    assert((before.push(':') + id).len() > 0);
    rest::a_date_begins_with_its_year(date);
    reveal_strlit(":");
    reveal_strlit("Track");
    reveal_strlit("NotFound");
    reveal_strlit("Episode");
    assert("Track"@ != "NotFound"@) by {
        assert("Track"@.len() != "NotFound"@.len());
    }
    if text::occurs("Track"@, "Episode"@) {
        let i = choose|i: int| text::occurs_at("Track"@, "Episode"@, i);
        assert(false);
    }
    if text::occurs(id, ":"@) {
        let i = choose|i: int| text::occurs_at(id, ":"@, i);
        assert(id.subrange(i, i + 1)[0] == id[i]);
        assert(false);
    }
}

/// What is missing, what is an episode, and what has no title is no song.
pub proof fn what_is_no_song_is_none(data: Json, kind: Seq<char>)
    requires
        data is Null || json::says(data, "__typename"@, "NotFound"@) || (json::says(
            data,
            "__typename"@,
            kind,
        ) && text::occurs(kind, "Episode"@)) || !(json::in_object(data, "name"@) matches Some(
            Json::Text(_),
        )) || json::says(data, "name"@, Seq::empty()),
    ensures
        hit_in(data) is None,
        song_in(data, Seq::empty(), false, false) is None,
{
}

/// A picture is the tallest of those that are listed.
pub proof fn a_picture_is_the_tallest(sources: Json, l: Seq<Json>, i: int, url: Seq<char>)
    requires
        json::list_in(Some(sources)) == Some(l),
        0 <= i < l.len(),
        json::says(l[i], "url"@, url),
        forall|j: int| 0 <= j < l.len() && j != i ==> height(#[trigger] l[j]) < height(l[i]),
    ensures
        cover_in(Some(sources)) == Some(url),
{
    no_picture_is_taller(l, i);
    tallest_is_there(l);
}

/// The picture of a song is its album's, else its own; that of an artist is the
/// portrait.
pub proof fn a_picture_is_the_albums_first(data: Json, album: Json, art: Json, url: Seq<char>)
    requires
        cover_in(json::in_object(art, "sources"@)) == Some(url),
    ensures
        json::in_object(data, "albumOfTrack"@) == Some(album) && json::in_object(
            album,
            "coverArt"@,
        ) == Some(art) ==> any_cover(data) == Some(url),
        json::in_object(data, "albumOfTrack"@) is None && json::in_object(data, "coverArt"@)
            == Some(art) ==> any_cover(data) == Some(url),
        json::in_object(data, "albumOfTrack"@) is None && json::in_object(data, "coverArt"@) is None
            && json::in_object(data, "visuals"@) == Some(album) && json::in_object(
            album,
            "avatarImage"@,
        ) == Some(art) ==> any_cover(data) == Some(url),
{
}

/// A playlist says what its members say: its id from its address or else what
/// it was asked for by, its name or else its title, and who made it.
pub proof fn a_playlist_says_what_its_members_say(
    data: Json,
    before: Seq<char>,
    id: Seq<char>,
    asked: Seq<char>,
    name: Seq<char>,
    owner: Json,
    who: Json,
    curator: Seq<char>,
    description: Seq<char>,
)
    requires
        id.len() > 0,
        asked.len() > 0,
        forall|i: int| 0 <= i < id.len() ==> #[trigger] id[i] != ':',
        json::says(data, "name"@, name),
        name.len() > 0,
        json::in_object(data, "ownerV2"@) == Some(owner),
        json::in_object(owner, "data"@) == Some(who),
        json::says(who, "name"@, curator),
        json::says(data, "description"@, description),
    ensures
        playlist_in(data, asked) matches Some(list) && {
            &&& list.name == name
            &&& list.curator == curator
            &&& list.description == description
            &&& !list.library
            &&& json::says(data, "uri"@, before.push(':') + id) ==> list.id == "sp:playlist:"@ + id
            &&& json::in_object(data, "uri"@) is None ==> list.id == "sp:playlist:"@ + asked
        },
{
    the_id_is_behind_the_last_colon(before, id);
    assert(Seq::<char>::empty().len() == 0);
    text::a_text_is_cut_at_its_separators(Seq::empty(), ':', Seq::empty());
}

/// A playlist without a name goes by its title, and a name may be wrapped.
pub proof fn a_label_may_be_wrapped(data: Json, field: Json, label: Seq<char>)
    requires
        label.len() > 0,
    ensures
        json::says(data, "name"@, label) ==> list_name(data) == label,
        json::in_object(data, "name"@) is None && json::says(data, "title"@, label) ==> list_name(
            data,
        ) == label,
        json::in_object(data, "name"@) == Some(field) && field is Object && json::says(
            field,
            "transformedLabel"@,
            label,
        ) ==> list_name(data) == label,
        json::in_object(data, "name"@) == Some(field) && field is Object && json::in_object(
            field,
            "transformedLabel"@,
        ) is None && json::says(field, "text"@, label) ==> list_name(data) == label,
{
}

/// An album says what its members say.
pub proof fn an_album_says_what_its_members_say(
    data: Json,
    before: Seq<char>,
    id: Seq<char>,
    name: Seq<char>,
    tracks: Json,
    count: u64,
    day: Json,
    date: Seq<char>,
)
    requires
        json::says(data, "uri"@, before.push(':') + id),
        id.len() > 0,
        forall|i: int| 0 <= i < id.len() ==> #[trigger] id[i] != ':',
        json::says(data, "name"@, name),
        name.len() > 0,
        json::in_object(data, "tracksV2"@) == Some(tracks),
        json::in_object(tracks, "totalCount"@) == Some(Json::Number(Number::Whole(count))),
        count <= u32::MAX,
        json::in_object(data, "albumOfTrack"@) is None,
        json::in_object(data, "date"@) == Some(day),
        json::says(day, "isoString"@, date),
        date.len() >= 4,
        forall|k: int| 0 <= k < 4 ==> '0' <= #[trigger] date[k] <= '9',
    ensures
        album_in(data, Seq::empty()) matches Some(album) && {
            &&& album.id == "sp:album:"@ + id
            &&& album.name == name
            &&& album.track_count == count
            &&& album.year == date.take(4)
            &&& album.date_added.len() == 0
            &&& !album.library
        },
{
    the_id_is_behind_the_last_colon(before, id);
    rest::a_date_begins_with_its_year(date);
}

/// An artist goes by the name in the profile.
pub proof fn an_artist_says_what_its_members_say(
    data: Json,
    before: Seq<char>,
    id: Seq<char>,
    profile: Json,
    name: Seq<char>,
)
    requires
        json::says(data, "uri"@, before.push(':') + id),
        id.len() > 0,
        forall|i: int| 0 <= i < id.len() ==> #[trigger] id[i] != ':',
        name.len() > 0,
    ensures
        json::in_object(data, "profile"@) == Some(profile) && json::says(profile, "name"@, name)
            ==> (artist_in(data, Seq::empty()) matches Some(artist) && artist.name == name
            && artist.id == "sp:artist:"@ + id && artist.library),
        json::in_object(data, "profile"@) is None && json::says(data, "name"@, name) ==> (artist_in(
            data,
            Seq::empty(),
        ) matches Some(artist) && artist.name == name && artist.id == "sp:artist:"@ + id),
{
    the_id_is_behind_the_last_colon(before, id);
}

/// A playlist shows the picture of the first of its images, and another of its
/// pictures where it lists none.
pub proof fn a_playlist_shows_its_first_image(data: Json, images: Json, l: Seq<Json>, url: Seq<char>)
    requires
        json::in_object(data, "images"@) == Some(images),
        json::list_in(json::in_object(images, "items"@)) == Some(l),
    ensures
        l.len() > 0 && cover_in(json::in_object(l[0], "sources"@)) == Some(url) ==> list_cover(data)
            == Some(url),
        l.len() == 0 ==> list_cover(data) is None,
        l.len() > 0 && cover_in(json::in_object(l[0], "sources"@)) == Some(url) ==> (playlist_in(
            data,
            Seq::empty(),
        ) matches Some(list) ==> list.artwork == Some(url)),
{
}

} // verus!
