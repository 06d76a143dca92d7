//! The lists and pages that Spotify answers with.
use vstd::prelude::*;

use crate::catalog::SearchResults;
use crate::i18n::{self, Key, Language};
use crate::json::{self, Json};
use crate::music::types::{
    picture, seen, seen_opt, Album, AlbumView, Artist, ArtistView, Playlist, PlaylistView,
    SongView, Track,
};
use crate::spotify::gql::{self, get2, in2, inner, within};
use crate::spotify::rest;
use crate::spotify::SearchPage;
use crate::streams::{HitView, StreamHit};
use crate::text;

verus! {

/// A song of the library.
pub open spec fn library_track_in(item: Json) -> Option<SongView> {
    match json::either(json::in_object(item, "track"@), json::in_object(item, "item"@)) {
        None => None,
        Some(wrapper) => gql::song_in(
            within(wrapper, "data"@),
            json::words(
                json::either(
                    in2(item, "addedAt"@, "isoString"@),
                    json::in_object(item, "addedAt"@),
                ),
            ),
            true,
            true,
        ),
    }
}

/// A song of the library.
pub fn song_from_library_track(item: &Json) -> (r: Option<Track>)
    ensures
        seen_opt(r) == library_track_in(*item),
{
    match json::or(item.get("track"), item.get("item")) {
        None => None,
        Some(wrapper) => {
            let added = json::words_of(
                json::or(get2(item, "addedAt", "isoString"), item.get("addedAt")),
            );
            gql::song_from_gql(inner(wrapper, "data"), added, true, true)
        },
    }
}

/// What a place of a playlist wraps.
pub open spec fn wrapped(item: Json) -> Json {
    match json::either(json::in_object(item, "itemV2"@), json::in_object(item, "item"@)) {
        Some(w) => w,
        None => item,
    }
}

/// A song of a playlist. What is no song, or is no longer there, is none.
pub open spec fn playlist_item_in(item: Json) -> Option<SongView> {
    let wrapper = wrapped(item);
    let kind = json::text_in(json::in_object(wrapper, "__typename"@));
    let data = within(wrapper, "data"@);
    if (kind is Some && !text::occurs(kind->0, "Track"@)) || json::text_in(
        json::in_object(data, "__typename"@),
    ) == Some("NotFound"@) {
        None
    } else {
        gql::song_in(data, json::words(in2(item, "addedAt"@, "isoString"@)), false, false)
    }
}

fn is_text(v: Option<&Json>, wanted: &str) -> (r: bool)
    ensures
        r == (json::text_in(json::held(v)) == Some(wanted@)),
{
    match json::text_of(v) {
        Some(s) => text::same(s, wanted),
        None => false,
    }
}

/// A song of a playlist.
pub fn song_from_playlist_item(item: &Json) -> (r: Option<Track>)
    ensures
        seen_opt(r) == playlist_item_in(*item),
{
    let wrapper = match json::or(item.get("itemV2"), item.get("item")) {
        Some(w) => w,
        None => item,
    };
    if let Some(kind) = json::text_of(wrapper.get("__typename")) {
        if !text::contains(kind, "Track") {
            return None;
        }
    }
    let data = inner(wrapper, "data");
    if is_text(data.get("__typename"), "NotFound") {
        return None;
    }
    let added = json::words_of(get2(item, "addedAt", "isoString"));
    gql::song_from_gql(data, added, false, false)
}

/// The list of liked songs, with the first song's picture.
pub open spec fn liked(language: Language, songs: Seq<Track>) -> PlaylistView {
    PlaylistView {
        id: "sp:liked"@,
        date_added: Seq::empty(),
        last_modified: Seq::empty(),
        name: i18n::sentence(language, Key::LikedSongs),
        curator: Seq::empty(),
        description: Seq::empty(),
        artwork: first_picture(songs),
        library: true,
    }
}

/// The picture of the first song.
pub open spec fn first_picture(songs: Seq<Track>) -> Option<Seq<char>> {
    if songs.len() > 0 {
        picture(songs[0].artwork)
    } else {
        None
    }
}

fn own_list(id: &str, name: &str, songs: &Vec<Track>) -> (r: Playlist)
    ensures
        r@ == (PlaylistView {
            id: id@,
            date_added: Seq::empty(),
            last_modified: Seq::empty(),
            name: name@,
            curator: Seq::empty(),
            description: Seq::empty(),
            artwork: first_picture(songs@),
            library: true,
        }),
{
    let none = String::new();
    assert(none@ =~= Seq::<char>::empty());
    let artwork = if songs.len() > 0 {
        songs[0].artwork.clone()
    } else {
        None
    };
    Playlist {
        id: id.to_owned(),
        date_added: none.clone(),
        last_modified: none.clone(),
        name: name.to_owned(),
        curator: none.clone(),
        description: none,
        artwork,
        library: true,
    }
}

/// The list of liked songs.
pub fn liked_playlist(language: Language, songs: &Vec<Track>) -> (r: Playlist)
    ensures
        r@ == liked(language, songs@),
{
    own_list("sp:liked", i18n::t(language, Key::LikedSongs), songs)
}

/// The list of the songs that are played most.
pub fn top_playlist(language: Language, songs: &Vec<Track>) -> (r: Playlist)
    ensures
        r@ == (PlaylistView {
            id: "sp:top"@,
            name: i18n::sentence(language, Key::YourTopTracks),
            ..liked(language, songs@)
        }),
{
    own_list("sp:top", i18n::t(language, Key::YourTopTracks), songs)
}

/// The address of what a place of the library wraps.
pub open spec fn node_uri(wrapper: Json, data: Json) -> Seq<char> {
    json::words(
        json::either(
            json::either(
                json::in_object(wrapper, "_uri"@),
                json::in_object(wrapper, "uri"@),
            ),
            json::in_object(data, "uri"@),
        ),
    )
}

/// The playlist at a place of the library. The songs that are liked are one;
/// folders and other collections are none.
pub open spec fn node_in(language: Language, node: Json) -> Option<PlaylistView> {
    let wrapper = within(node, "item"@);
    let data = within(wrapper, "data"@);
    let uri = node_uri(wrapper, data);
    let kinds = json::words(json::in_object(wrapper, "__typename"@)) + json::words(
        json::in_object(data, "__typename"@),
    );
    if json::text_in(json::in_object(data, "__typename"@)) == Some("NotFound"@) || text::occurs(
        uri,
        ":folder:"@,
    ) {
        None
    } else if text::occurs(uri, ":collection:tracks"@) {
        Some(liked(language, Seq::empty()))
    } else if text::occurs(uri, ":collection:"@) || (!text::occurs(kinds, "Playlist"@)
        && !text::occurs(uri, ":playlist:"@)) {
        None
    } else {
        match gql::playlist_in(data, gql::tail(uri)) {
            Some(list) => Some(PlaylistView { library: true, ..list }),
            None => None,
        }
    }
}

fn playlist_from_library_node(language: Language, node: &Json) -> (r: Option<Playlist>)
    ensures
        seen_opt(r) == node_in(language, *node),
{
    let wrapper = inner(node, "item");
    let data = inner(wrapper, "data");
    if is_text(data.get("__typename"), "NotFound") {
        return None;
    }
    let uri = json::words_of(
        json::or(json::or(wrapper.get("_uri"), wrapper.get("uri")), data.get("uri")),
    );
    let s = uri.as_str();
    if text::contains(s, ":folder:") {
        return None;
    }
    if text::contains(s, ":collection:tracks") {
        let none: Vec<Track> = Vec::new();
        assert(none@ =~= Seq::<Track>::empty());
        return Some(liked_playlist(language, &none));
    }
    if text::contains(s, ":collection:") {
        return None;
    }
    let mut kinds = json::words_of(wrapper.get("__typename"));
    kinds.append(json::words_of(data.get("__typename")).as_str());
    if !text::contains(kinds.as_str(), "Playlist") && !text::contains(s, ":playlist:") {
        return None;
    }
    match gql::playlist_from_gql(data, gql::uri_tail(s).as_str()) {
        Some(mut list) => {
            list.library = true;
            Some(list)
        },
        None => None,
    }
}

/// The playlist at a place of the library, or at what it wraps, so many deep.
pub open spec fn library_list_in(language: Language, item: Json, deep: nat) -> Option<PlaylistView>
    decreases deep,
{
    if deep == 0 {
        None
    } else {
        match node_in(language, item) {
            Some(list) => Some(list),
            None => match json::in_object(item, "item"@) {
                Some(next) => library_list_in(language, next, (deep - 1) as nat),
                None => None,
            },
        }
    }
}

/// The playlist at a place of the library.
pub fn playlist_from_library_item(language: Language, item: &Json) -> (r: Option<Playlist>)
    ensures
        seen_opt(r) == library_list_in(language, *item, 5),
{
    let mut cursor = item;
    let mut left: u32 = 5;
    while left > 0
        invariant
            left <= 5,
            library_list_in(language, *item, 5) == library_list_in(
                language,
                *cursor,
                left as nat,
            ),
        decreases left,
    {
        if let Some(list) = playlist_from_library_node(language, cursor) {
            return Some(list);
        }
        match cursor.get("item") {
            Some(next) => {
                cursor = next;
            },
            None => {
                return None;
            },
        }
        left -= 1;
    }
    None
}

/// An album of the library.
pub open spec fn library_album_in(item: Json) -> Option<AlbumView> {
    let wrapper = within(item, "item"@);
    let data = within(wrapper, "data"@);
    let outer = json::words(json::in_object(wrapper, "__typename"@));
    let kind = json::words(json::in_object(data, "__typename"@));
    if !text::occurs(outer, "Album"@) && !text::occurs(kind, "Album"@) {
        None
    } else {
        match gql::album_in(data, Seq::empty()) {
            Some(album) => Some(
                AlbumView {
                    library: true,
                    date_added: json::words(in2(item, "addedAt"@, "isoString"@)),
                    ..album
                },
            ),
            None => None,
        }
    }
}

/// An album of the library.
pub fn album_from_library_item(item: &Json) -> (r: Option<Album>)
    ensures
        seen_opt(r) == library_album_in(*item),
{
    let wrapper = inner(item, "item");
    let data = inner(wrapper, "data");
    let outer = json::words_of(wrapper.get("__typename"));
    let kind = json::words_of(data.get("__typename"));
    if !text::contains(outer.as_str(), "Album") && !text::contains(kind.as_str(), "Album") {
        return None;
    }
    proof {
        reveal_strlit("");
        assert(""@ =~= Seq::<char>::empty());
    }
    match gql::album_from_gql(data, "") {
        Some(mut album) => {
            album.library = true;
            album.date_added = json::words_of(get2(item, "addedAt", "isoString"));
            Some(album)
        },
        None => None,
    }
}

/// An artist of the library.
pub open spec fn library_artist_in(item: Json) -> Option<ArtistView> {
    match json::in_object(item, "item"@) {
        None => None,
        Some(wrapper) => if text::occurs(
            json::words(json::in_object(wrapper, "__typename"@)),
            "Artist"@,
        ) {
            gql::artist_in(within(wrapper, "data"@), Seq::empty())
        } else {
            None
        },
    }
}

/// An artist of the library.
pub fn artist_from_library_item(item: &Json) -> (r: Option<Artist>)
    ensures
        seen_opt(r) == library_artist_in(*item),
{
    match item.get("item") {
        None => None,
        Some(wrapper) => {
            let kind = json::words_of(wrapper.get("__typename"));
            if !text::contains(kind.as_str(), "Artist") {
                return None;
            }
            proof {
                reveal_strlit("");
                assert(""@ =~= Seq::<char>::empty());
            }
            gql::artist_from_gql(inner(wrapper, "data"), "")
        },
    }
}

/// A found song.
pub open spec fn found_song(item: Json) -> Option<HitView> {
    gql::hit_in(within(within(item, "item"@), "data"@))
}

fn hit_from_found(item: &Json) -> (r: Option<StreamHit>)
    ensures
        seen_opt(r) == found_song(*item),
{
    gql::hit_from_gql_track(inner(inner(item, "item"), "data"))
}

/// A found album.
pub open spec fn found_album(item: Json) -> Option<AlbumView> {
    gql::album_in(within(item, "data"@), Seq::empty())
}

fn album_from_found(item: &Json) -> (r: Option<Album>)
    ensures
        seen_opt(r) == found_album(*item),
{
    proof {
        reveal_strlit("");
        assert(""@ =~= Seq::<char>::empty());
    }
    gql::album_from_gql(inner(item, "data"), "")
}

/// A found artist.
pub open spec fn found_artist(item: Json) -> Option<ArtistView> {
    gql::artist_in(within(item, "data"@), Seq::empty())
}

fn artist_from_found(item: &Json) -> (r: Option<Artist>)
    ensures
        seen_opt(r) == found_artist(*item),
{
    proof {
        reveal_strlit("");
        assert(""@ =~= Seq::<char>::empty());
    }
    gql::artist_from_gql(inner(item, "data"), "")
}

/// A found playlist.
pub open spec fn found_playlist(item: Json) -> Option<PlaylistView> {
    gql::playlist_in(within(item, "data"@), Seq::empty())
}

fn playlist_from_found(item: &Json) -> (r: Option<Playlist>)
    ensures
        seen_opt(r) == found_playlist(*item),
{
    proof {
        reveal_strlit("");
        assert(""@ =~= Seq::<char>::empty());
    }
    gql::playlist_from_gql(inner(item, "data"), "")
}

/// What a list makes, where the value is one; nothing else makes anything.
pub(crate) fn choose_from<T: View>(
    v: Option<&Json>,
    f: impl Fn(&Json) -> Option<T>,
    Ghost(g): Ghost<spec_fn(Json) -> Option<T::V>>,
) -> (r: Vec<T>)
    requires
        forall|j: &Json| #[trigger] call_requires(f, (j,)),
        forall|j: &Json, o: Option<T>| #[trigger]
            call_ensures(f, (j,), o) ==> seen_opt(o) == g(*j),
    ensures
        seen(r@) == json::chosen(json::items_in(json::held(v)), g),
{
    match json::list_of(v) {
        Some(items) => json::choose_items(items, f, Ghost(g)),
        None => {
            let r: Vec<T> = Vec::new();
            assert(seen(r@) =~= Seq::<T::V>::empty());
            assert(json::chosen(Seq::<Json>::empty(), g) =~= Seq::<T::V>::empty());
            r
        },
    }
}

/// The songs that a search found.
pub fn tracks_from_search_v2(search: &Json) -> (r: Vec<StreamHit>)
    ensures
        seen(r@) == json::chosen(
            json::items_in(in2(*search, "tracksV2"@, "items"@)),
            |i: Json| found_song(i),
        ),
{
    choose_from(
        get2(search, "tracksV2", "items"),
        hit_from_found,
        Ghost(|i: Json| found_song(i)),
    )
}

/// The albums that a search found.
pub fn albums_from_search_v2(search: &Json) -> (r: Vec<Album>)
    ensures
        seen(r@) == json::chosen(
            json::items_in(
                json::either(
                    in2(*search, "albumsV2"@, "items"@),
                    in2(*search, "albums"@, "items"@),
                ),
            ),
            |i: Json| found_album(i),
        ),
{
    choose_from(
        json::or(get2(search, "albumsV2", "items"), get2(search, "albums", "items")),
        album_from_found,
        Ghost(|i: Json| found_album(i)),
    )
}

/// The artists that a search found.
pub fn artists_from_search_v2(search: &Json) -> (r: Vec<Artist>)
    ensures
        seen(r@) == json::chosen(
            json::items_in(in2(*search, "artists"@, "items"@)),
            |i: Json| found_artist(i),
        ),
{
    choose_from(
        get2(search, "artists", "items"),
        artist_from_found,
        Ghost(|i: Json| found_artist(i)),
    )
}

/// The playlists that a search found.
pub fn playlists_from_search_v2(search: &Json) -> (r: Vec<Playlist>)
    ensures
        seen(r@) == json::chosen(
            json::items_in(in2(*search, "playlists"@, "items"@)),
            |i: Json| found_playlist(i),
        ),
{
    choose_from(
        get2(search, "playlists", "items"),
        playlist_from_found,
        Ghost(|i: Json| found_playlist(i)),
    )
}

/// The songs that found songs are.
pub fn songs_of_hits(hits: &Vec<StreamHit>) -> (r: Vec<Track>)
    ensures
        seen(r@) == seen(hits@).map_values(|h: HitView| rest::song_of(h)),
{
    let ghost all = seen(hits@).map_values(|h: HitView| rest::song_of(h));
    let mut out: Vec<Track> = Vec::new();
    let mut i: usize = 0;
    while i < hits.len()
        invariant
            i <= hits@.len(),
            all == seen(hits@).map_values(|h: HitView| rest::song_of(h)),
            seen(out@) =~= all.take(i as int),
        decreases hits@.len() - i,
    {
        let ghost out0 = out@;
        let song = rest::hit_to_song(&hits[i]);
        out.push(song);
        proof {
            text::take_step(all, i as int);
            assert(all[i as int] == song@);
            assert(seen(out@) =~= seen(out0).push(song@));
        }
        i += 1;
    }
    assert(all.take(i as int) =~= all);
    out
}

/// The songs that the public interface's search found.
pub fn tracks_from_search(value: &Json) -> (r: Vec<StreamHit>)
    ensures
        seen(r@) == json::chosen(
            json::items_in(in2(*value, "tracks"@, "items"@)),
            |i: Json| rest::hit_on(i, json::in_object(i, "album"@)),
        ),
{
    choose_from(
        get2(value, "tracks", "items"),
        rest::hit_from_track,
        Ghost(|i: Json| rest::hit_on(i, json::in_object(i, "album"@))),
    )
}

fn plain_album(item: &Json) -> (r: Option<Album>)
    ensures
        seen_opt(r) == rest::album_in(*item, Seq::empty(), false),
{
    let none = String::new();
    assert(none@ =~= Seq::<char>::empty());
    rest::album_from_object(item, none, false)
}

fn plain_playlist(item: &Json) -> (r: Option<Playlist>)
    ensures
        seen_opt(r) == rest::playlist_in(*item, false),
{
    rest::playlist_from_object(item, false)
}

/// The albums of a list of the public interface's.
pub fn albums_from_list(v: Option<&Json>) -> (r: Vec<Album>)
    ensures
        seen(r@) == json::chosen(
            json::items_in(json::held(v)),
            |i: Json| rest::album_in(i, Seq::empty(), false),
        ),
{
    choose_from(
        v,
        plain_album,
        Ghost(|i: Json| rest::album_in(i, Seq::empty(), false)),
    )
}

/// The albums that the public interface's search found.
pub fn albums_from_search(value: &Json) -> (r: Vec<Album>)
    ensures
        seen(r@) == json::chosen(
            json::items_in(in2(*value, "albums"@, "items"@)),
            |i: Json| rest::album_in(i, Seq::empty(), false),
        ),
{
    albums_from_list(get2(value, "albums", "items"))
}

/// The artists that the public interface's search found.
pub fn artists_from_search(value: &Json) -> (r: Vec<Artist>)
    ensures
        seen(r@) == json::chosen(
            json::items_in(in2(*value, "artists"@, "items"@)),
            |i: Json| rest::artist_in(i),
        ),
{
    choose_from(
        get2(value, "artists", "items"),
        rest::artist_from_object,
        Ghost(|i: Json| rest::artist_in(i)),
    )
}

/// The playlists that the public interface's search found.
pub fn playlists_from_search(value: &Json) -> (r: Vec<Playlist>)
    ensures
        seen(r@) == json::chosen(
            json::items_in(in2(*value, "playlists"@, "items"@)),
            |i: Json| rest::playlist_in(i, false),
        ),
{
    choose_from(
        get2(value, "playlists", "items"),
        plain_playlist,
        Ghost(|i: Json| rest::playlist_in(i, false)),
    )
}

/// What the web player's search found. An answer without a list of songs is
/// none.
pub fn search_partner(value: &Json) -> (r: Option<SearchPage>)
    ensures
        ({
            let search = in2(*value, "data"@, "searchV2"@);
            let hits = json::chosen(
                json::items_in(json::under(json::under(search, "tracksV2"@), "items"@)),
                |i: Json| found_song(i),
            );
            match r {
                Some(page) => {
                    &&& json::list_in(
                        json::under(json::under(search, "tracksV2"@), "items"@),
                    ) is Some
                    &&& seen(page.hits@) == hits
                    &&& seen(page.results.songs@) == hits.map_values(
                        |h: HitView| rest::song_of(h),
                    )
                    &&& seen(page.results.albums@) == json::chosen(
                        json::items_in(
                            json::either(
                                in2(search->0, "albumsV2"@, "items"@),
                                in2(search->0, "albums"@, "items"@),
                            ),
                        ),
                        |i: Json| found_album(i),
                    )
                    &&& seen(page.results.artists@) == json::chosen(
                        json::items_in(in2(search->0, "artists"@, "items"@)),
                        |i: Json| found_artist(i),
                    )
                    &&& seen(page.results.playlists@) == json::chosen(
                        json::items_in(in2(search->0, "playlists"@, "items"@)),
                        |i: Json| found_playlist(i),
                    )
                },
                None => json::list_in(
                    json::under(json::under(search, "tracksV2"@), "items"@),
                ) is None,
            }
        }),
{
    match get2(value, "data", "searchV2") {
        None => None,
        Some(search) => {
            if json::list_of(get2(search, "tracksV2", "items")).is_none() {
                return None;
            }
            let hits = tracks_from_search_v2(search);
            let songs = songs_of_hits(&hits);
            Some(
                SearchPage {
                    results: SearchResults {
                        songs,
                        albums: albums_from_search_v2(search),
                        artists: artists_from_search_v2(search),
                        playlists: playlists_from_search_v2(search),
                    },
                    hits,
                },
            )
        },
    }
}

/// What the public interface's search found.
pub fn search_page_from_rest(value: &Json) -> (r: SearchPage)
    ensures
        seen(r.hits@) == json::chosen(
            json::items_in(in2(*value, "tracks"@, "items"@)),
            |i: Json| rest::hit_on(i, json::in_object(i, "album"@)),
        ),
        seen(r.results.songs@) == seen(r.hits@).map_values(|h: HitView| rest::song_of(h)),
        seen(r.results.albums@) == json::chosen(
            json::items_in(in2(*value, "albums"@, "items"@)),
            |i: Json| rest::album_in(i, Seq::empty(), false),
        ),
        seen(r.results.artists@) == json::chosen(
            json::items_in(in2(*value, "artists"@, "items"@)),
            |i: Json| rest::artist_in(i),
        ),
        seen(r.results.playlists@) == json::chosen(
            json::items_in(in2(*value, "playlists"@, "items"@)),
            |i: Json| rest::playlist_in(i, false),
        ),
{
    let hits = tracks_from_search(value);
    let songs = songs_of_hits(&hits);
    SearchPage {
        results: SearchResults {
            songs,
            albums: albums_from_search(value),
            artists: artists_from_search(value),
            playlists: playlists_from_search(value),
        },
        hits,
    }
}

/// A song of the library is the song it wraps, liked, in the library, and added
/// when the place says.
pub proof fn a_song_of_the_library_is_liked(
    item: Json,
    wrapper: Json,
    data: Json,
    added: Json,
    when: Seq<char>,
)
    requires
        json::in_object(item, "track"@) == Some(wrapper),
        json::in_object(wrapper, "data"@) == Some(data),
        json::in_object(item, "addedAt"@) == Some(added),
        json::says(added, "isoString"@, when),
    ensures
        library_track_in(item) is Some == gql::hit_in(data) is Some,
        (library_track_in(item), gql::hit_in(data)) matches (Some(song), Some(hit)) ==> {
            &&& song.favorite
            &&& song.in_library
            &&& song.date_added == when
            &&& song.id == hit.id
            &&& song.title == hit.title
            &&& song.artist == hit.artist
            &&& song.album == hit.album
            &&& song.duration_ms == hit.duration_ms
            &&& song.artwork == hit.artwork
        },
{
}

/// A place of the library without a song is none.
pub proof fn a_place_without_a_song_is_none(item: Json)
    requires
        json::in_object(item, "track"@) is None,
        json::in_object(item, "item"@) is None,
    ensures
        library_track_in(item) is None,
        library_artist_in(item) is None,
{
}

/// A song of a playlist is the song it wraps, neither liked nor of the library
/// by that alone; what is of another kind is none.
pub proof fn a_song_of_a_playlist_is_the_one_it_wraps(
    item: Json,
    wrapper: Json,
    data: Json,
    kind: Seq<char>,
    added: Json,
    when: Seq<char>,
)
    requires
        json::in_object(item, "itemV2"@) == Some(wrapper),
        json::in_object(wrapper, "data"@) == Some(data),
        json::says(wrapper, "__typename"@, kind),
        json::in_object(item, "addedAt"@) == Some(added),
        json::says(added, "isoString"@, when),
    ensures
        !text::occurs(kind, "Track"@) ==> playlist_item_in(item) is None,
        json::says(data, "__typename"@, "NotFound"@) ==> playlist_item_in(item) is None,
        text::occurs(kind, "Track"@) && !json::says(data, "__typename"@, "NotFound"@) ==> (
        playlist_item_in(item) is Some == gql::hit_in(data) is Some),
        (playlist_item_in(item), gql::hit_in(data)) matches (Some(song), Some(hit)) ==> {
            &&& !song.favorite
            &&& !song.in_library
            &&& song.date_added == when
            &&& song.id == hit.id
            &&& song.title == hit.title
            &&& song.artist == hit.artist
        },
{
}

/// The liked songs show the first song's picture, and are of the library.
pub proof fn the_liked_songs_show_the_first(language: Language, songs: Seq<Track>, first: Track)
    ensures
        liked(language, songs).id == "sp:liked"@,
        liked(language, songs).library,
        liked(language, songs).name == i18n::sentence(language, Key::LikedSongs),
        liked(language, Seq::empty()).artwork is None,
        liked(language, seq![first] + songs).artwork == picture(first.artwork),
{
    assert((seq![first] + songs)[0] == first);
}

/// A folder is no playlist; the liked songs are one; a playlist of the library
/// is the one it wraps, said to be of the library.
pub proof fn a_place_of_the_library_is_a_playlist(
    language: Language,
    node: Json,
    wrapper: Json,
    data: Json,
    uri: Seq<char>,
)
    requires
        json::in_object(node, "item"@) == Some(wrapper),
        json::in_object(wrapper, "data"@) == Some(data),
        json::says(wrapper, "_uri"@, uri),
        !json::says(data, "__typename"@, "NotFound"@),
    ensures
        text::occurs(uri, ":folder:"@) ==> node_in(language, node) is None,
        !text::occurs(uri, ":folder:"@) && text::occurs(uri, ":collection:tracks"@) ==> node_in(
            language,
            node,
        ) == Some(liked(language, Seq::empty())),
        !text::occurs(uri, ":folder:"@) && !text::occurs(uri, ":collection:tracks"@)
            && text::occurs(uri, ":collection:"@) ==> node_in(language, node) is None,
        !text::occurs(uri, ":folder:"@) && !text::occurs(uri, ":collection:"@) && text::occurs(
            uri,
            ":playlist:"@,
        ) && !text::occurs(uri, ":collection:tracks"@) ==> (node_in(language, node) is Some
            == gql::playlist_in(data, gql::tail(uri)) is Some),
        !text::occurs(uri, ":collection:tracks"@) ==> ((
            node_in(language, node),
            gql::playlist_in(data, gql::tail(uri)),
        ) matches (Some(a), Some(b)) ==> a.library && a.id == b.id && a.name == b.name && a.curator
            == b.curator && a.description == b.description && a.artwork == b.artwork),
{
}

/// An album of the library is the one it wraps, said to be of the library and
/// added when the place says; what is of another kind is none.
pub proof fn an_album_of_the_library_is_the_one_it_wraps(
    item: Json,
    wrapper: Json,
    data: Json,
    outer: Seq<char>,
    inner: Seq<char>,
    added: Json,
    when: Seq<char>,
)
    requires
        json::in_object(item, "item"@) == Some(wrapper),
        json::in_object(wrapper, "data"@) == Some(data),
        json::says(wrapper, "__typename"@, outer),
        json::says(data, "__typename"@, inner),
        json::in_object(item, "addedAt"@) == Some(added),
        json::says(added, "isoString"@, when),
    ensures
        !text::occurs(outer, "Album"@) && !text::occurs(inner, "Album"@) ==> library_album_in(
            item,
        ) is None,
        text::occurs(outer, "Album"@) || text::occurs(inner, "Album"@) ==> (library_album_in(
            item,
        ) is Some == gql::album_in(data, Seq::empty()) is Some),
        (library_album_in(item), gql::album_in(data, Seq::empty())) matches (Some(a), Some(b))
            ==> a.library && a.date_added == when && a.id == b.id && a.name == b.name && a.artist
            == b.artist && a.year == b.year && a.track_count == b.track_count && a.artwork
            == b.artwork,
{
}

/// What a search found is what it wraps.
pub proof fn what_is_found_is_what_is_wrapped(item: Json, wrapper: Json, data: Json)
    ensures
        json::in_object(item, "item"@) == Some(wrapper) && json::in_object(wrapper, "data"@)
            == Some(data) ==> found_song(item) == gql::hit_in(data),
        json::in_object(item, "data"@) == Some(data) ==> found_album(item) == gql::album_in(
            data,
            Seq::empty(),
        ) && found_artist(item) == gql::artist_in(data, Seq::empty()) && found_playlist(item)
            == gql::playlist_in(data, Seq::empty()),
        json::in_object(item, "item"@) == Some(wrapper) && json::in_object(wrapper, "data"@)
            == Some(data) && text::occurs(
            json::words(json::in_object(wrapper, "__typename"@)),
            "Artist"@,
        ) ==> library_artist_in(item) == gql::artist_in(data, Seq::empty()),
{
}

/// A playlist is found at a place of the library, or at what it wraps, up to
/// five deep.
pub proof fn a_playlist_is_found_where_it_is_wrapped(
    language: Language,
    item: Json,
    inner: Json,
    deep: nat,
)
    requires
        0 < deep,
    ensures
        node_in(language, item) is Some ==> library_list_in(language, item, deep) == node_in(
            language,
            item,
        ),
        node_in(language, item) is None && json::in_object(item, "item"@) == Some(inner)
            ==> library_list_in(language, item, deep) == library_list_in(
            language,
            inner,
            (deep - 1) as nat,
        ),
        node_in(language, item) is None && json::in_object(item, "item"@) is None
            ==> library_list_in(language, item, deep) is None,
        library_list_in(language, item, 0) is None,
{
}

} // verus!
