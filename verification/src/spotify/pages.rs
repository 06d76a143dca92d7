//! The pages that Spotify opens, and the feed of its home.
use vstd::prelude::*;

use crate::ipc::{LyricLine, Lyrics};
use crate::json::{self, Json, Number};
use crate::lyrics::{line_views, Line};
use crate::music::types::{
    seen, seen_opt, Album, AlbumView, Playlist, PlaylistView, SongView, Track,
};
use crate::spotify::feeds;
use crate::spotify::gql::{self, get2, get3, in2, in3, inner, within};
use crate::spotify::rest;
use crate::text;

verus! {

/// What an entry of a discography lists: its releases, or itself.
pub open spec fn releases_in(item: Json) -> Seq<Json> {
    match json::list_in(in2(item, "releases"@, "items"@)) {
        Some(l) => l,
        None => seq![item],
    }
}

/// The albums of an entry of a discography.
pub open spec fn albums_of_entry(item: Json) -> Seq<AlbumView> {
    json::chosen(releases_in(item), |r: Json| feeds::found_album(r))
}

/// The albums of entries of a discography.
pub open spec fn albums_of_entries(items: Seq<Json>) -> Seq<AlbumView>
    decreases items.len(),
{
    if items.len() == 0 {
        Seq::empty()
    } else {
        albums_of_entries(items.drop_last()) + albums_of_entry(items.last())
    }
}

/// Whether an album with this id is there.
pub open spec fn has_album(albums: Seq<AlbumView>, id: Seq<char>) -> bool {
    exists|i: int| 0 <= i < albums.len() && (#[trigger] albums[i]).id == id
}

/// The first album of each id.
pub open spec fn distinct(albums: Seq<AlbumView>) -> Seq<AlbumView>
    decreases albums.len(),
{
    if albums.len() == 0 {
        Seq::empty()
    } else {
        let r = distinct(albums.drop_last());
        if has_album(r, albums.last().id) {
            r
        } else {
            r.push(albums.last())
        }
    }
}

/// Everything that an artist released, in the order of the lists.
pub open spec fn discography(union: Json) -> Seq<AlbumView> {
    albums_of_entries(
        json::items_in(in3(union, "discography"@, "popularReleasesAlbums"@, "items"@)),
    ) + albums_of_entries(json::items_in(in3(union, "discography"@, "albums"@, "items"@)))
        + albums_of_entries(json::items_in(in3(union, "discography"@, "singles"@, "items"@)))
        + albums_of_entries(json::items_in(in3(union, "discography"@, "topAlbums"@, "items"@)))
}

fn album_of_release(item: &Json) -> (r: Option<Album>)
    ensures
        seen_opt(r) == feeds::found_album(*item),
{
    proof {
        reveal_strlit("");
        assert(""@ =~= Seq::<char>::empty());
    }
    gql::album_from_gql(inner(item, "data"), "")
}

fn has_id(albums: &Vec<Album>, id: &str) -> (r: bool)
    ensures
        r == has_album(seen(albums@), id@),
{
    let ghost views = seen(albums@);
    let mut i: usize = 0;
    while i < albums.len()
        invariant
            i <= albums@.len(),
            views == seen(albums@),
            forall|j: int| 0 <= j < i ==> (#[trigger] views[j]).id != id@,
        decreases albums@.len() - i,
    {
        assert(views[i as int] == albums@[i as int]@);
        if text::same(albums[i].id.as_str(), id) {
            return true;
        }
        i += 1;
    }
    false
}

proof fn distinct_step(albums: Seq<AlbumView>, a: AlbumView)
    ensures
        distinct(albums.push(a)) == if has_album(distinct(albums), a.id) {
            distinct(albums)
        } else {
            distinct(albums).push(a)
        },
{
    assert(albums.push(a).drop_last() =~= albums);
}

/// `into` with the albums of some entries behind it, no id twice.
fn add_entries(into: &mut Vec<Album>, items: Option<&Json>, Ghost(before): Ghost<Seq<AlbumView>>)
    requires
        seen(old(into)@) == distinct(before),
    ensures
        seen(final(into)@) == distinct(
            before + albums_of_entries(json::items_in(json::held(items))),
        ),
{
    match json::list_of(items) {
        None => {
            assert(albums_of_entries(Seq::<Json>::empty()) =~= Seq::<AlbumView>::empty());
            assert(before + Seq::<AlbumView>::empty() =~= before);
        },
        Some(l) => {
            let mut i: usize = 0;
            proof {
                assert(l@.take(0) =~= Seq::<Json>::empty());
                assert(before + Seq::<AlbumView>::empty() =~= before);
            }
            while i < l.len()
                invariant
                    i <= l@.len(),
                    seen(into@) == distinct(before + albums_of_entries(l@.take(i as int))),
                decreases l@.len() - i,
            {
                proof {
                    text::take_step(l@, i as int);
                    assert(l@.take(i + 1).drop_last() =~= l@.take(i as int));
                }
                let found = match json::list_of(get2(&l[i], "releases", "items")) {
                    Some(releases) => json::choose_items(
                        releases,
                        album_of_release,
                        Ghost(|r: Json| feeds::found_album(r)),
                    ),
                    None => {
                        let mut own: Vec<Album> = Vec::new();
                        let ghost g = |r: Json| feeds::found_album(r);
                        let ghost one = seq![l@[i as int]];
                        proof {
                            json::chosen_step(one, g, 0);
                            assert(one.take(1) =~= one);
                        }
                        if let Some(a) = album_of_release(&l[i]) {
                            own.push(a);
                        }
                        assert(seen(own@) =~= json::chosen(one, g));
                        own
                    },
                };
                let ghost done = before + albums_of_entries(l@.take(i as int));
                let ghost more = seen(found@);
                assert(more == albums_of_entry(l@[i as int]));
                let mut k: usize = 0;
                proof {
                    assert(more.take(0) =~= Seq::<AlbumView>::empty());
                    assert(done + Seq::<AlbumView>::empty() =~= done);
                }
                while k < found.len()
                    invariant
                        k <= found@.len(),
                        more == seen(found@),
                        seen(into@) == distinct(done + more.take(k as int)),
                    decreases found@.len() - k,
                {
                    proof {
                        text::take_step(more, k as int);
                        assert(done + more.take(k + 1) =~= (done + more.take(k as int)).push(
                            more[k as int],
                        ));
                        distinct_step(done + more.take(k as int), more[k as int]);
                        assert(more[k as int] == found@[k as int]@);
                    }
                    if !has_id(into, found[k].id.as_str()) {
                        let ghost into0 = into@;
                        let copy = found[k].clone();
                        into.push(copy);
                        assert(seen(into@) =~= seen(into0).push(copy@));
                    }
                    k += 1;
                }
                proof {
                    assert(more.take(k as int) =~= more);
                    assert(done + more =~= before + (albums_of_entries(l@.take(i as int)) + more));
                }
                i += 1;
            }
            assert(l@.take(i as int) =~= l@);
        },
    }
}

/// The albums that an artist released, each once.
pub fn albums_from_artist_union(union: &Json) -> (r: Vec<Album>)
    ensures
        seen(r@) == distinct(discography(*union)),
{
    let mut albums: Vec<Album> = Vec::new();
    let ghost none = Seq::<AlbumView>::empty();
    assert(seen(albums@) =~= distinct(none));
    let a = get3(union, "discography", "popularReleasesAlbums", "items");
    let b = get3(union, "discography", "albums", "items");
    let c = get3(union, "discography", "singles", "items");
    let d = get3(union, "discography", "topAlbums", "items");
    let ghost va = albums_of_entries(json::items_in(json::held(a)));
    let ghost vb = albums_of_entries(json::items_in(json::held(b)));
    let ghost vc = albums_of_entries(json::items_in(json::held(c)));
    add_entries(&mut albums, a, Ghost(none));
    assert(none + va =~= va);
    add_entries(&mut albums, b, Ghost(va));
    add_entries(&mut albums, c, Ghost(va + vb));
    add_entries(&mut albums, d, Ghost(va + vb + vc));
    albums
}

/// No album comes twice, and none is lost.
pub proof fn each_album_comes_once(albums: Seq<AlbumView>)
    ensures
        forall|i: int, j: int|
            0 <= i < j < distinct(albums).len() ==> (#[trigger] distinct(albums)[i]).id != (
            #[trigger] distinct(albums)[j]).id,
        forall|i: int|
            0 <= i < albums.len() ==> has_album(distinct(albums), (#[trigger] albums[i]).id),
    decreases albums.len(),
{
    if albums.len() > 0 {
        let rest = albums.drop_last();
        each_album_comes_once(rest);
        let kept = distinct(rest);
        let all = distinct(albums);
        assert forall|i: int, j: int| 0 <= i < j < all.len() implies (#[trigger] all[i]).id != (
        #[trigger] all[j]).id by {
            assert(all[i] == kept[i]);
            if j < kept.len() {
                assert(all[j] == kept[j]);
            }
        }
        assert forall|i: int| 0 <= i < albums.len() implies has_album(
            all,
            (#[trigger] albums[i]).id,
        ) by {
            if i < rest.len() {
                assert(rest[i] == albums[i]);
                let k = choose|k: int| 0 <= k < kept.len() && (#[trigger] kept[k]).id == rest[i].id;
                assert(all[k] == kept[k]);
            } else if has_album(kept, albums.last().id) {
                let k = choose|k: int|
                    0 <= k < kept.len() && (#[trigger] kept[k]).id == albums.last().id;
                assert(all[k] == kept[k]);
            } else {
                assert(all[kept.len() as int] == albums.last());
            }
        }
    }
}

/// A song of an album's page: its number, album and picture are the page's
/// where it has none of its own.
pub open spec fn album_song(item: Json, i: int, album: AlbumView) -> Option<SongView> {
    match gql::song_in(within(item, "track"@), Seq::empty(), false, false) {
        None => None,
        Some(song) => Some(
            SongView {
                track_number: if song.track_number == 0 {
                    (i + 1) as u32
                } else {
                    song.track_number
                },
                album: if song.album.len() == 0 {
                    album.name
                } else {
                    song.album
                },
                artwork: if song.artwork is None {
                    album.artwork
                } else {
                    song.artwork
                },
                ..song
            },
        ),
    }
}

/// The songs of an album's page.
pub open spec fn album_songs(items: Seq<Json>, album: AlbumView) -> Seq<SongView>
    decreases items.len(),
{
    if items.len() == 0 {
        Seq::empty()
    } else {
        let r = album_songs(items.drop_last(), album);
        match album_song(items.last(), items.len() - 1, album) {
            Some(s) => r.push(s),
            None => r,
        }
    }
}

fn song_of_page(item: &Json, i: usize, album: &Album) -> (r: Option<Track>)
    requires
        i < usize::MAX,
    ensures
        seen_opt(r) == album_song(*item, i as int, album@),
{
    let none = String::new();
    assert(none@ =~= Seq::<char>::empty());
    match gql::song_from_gql(inner(item, "track"), none, false, false) {
        None => None,
        Some(mut song) => {
            if song.track_number == 0 {
                song.track_number =
                #[verifier::truncate]
                ((i + 1) as u32);
            }
            if song.album.as_str().is_empty() {
                song.album = album.name.clone();
            }
            if song.artwork.is_none() {
                song.artwork = album.artwork.clone();
            }
            Some(song)
        },
    }
}

/// An album's page: the album, and its songs. An answer without an album is
/// none.
pub fn album_page(value: &Json, id: &str) -> (r: Option<(Album, Vec<Track>)>)
    ensures
        match in2(*value, "data"@, "albumUnion"@) {
            None => r is None,
            Some(union) => match gql::album_in(union, id@) {
                None => r is None,
                Some(album) => {
                    &&& r matches Some((a, songs))
                    &&& a@ == album
                    &&& seen(songs@) == album_songs(
                        json::items_in(in2(union, "tracksV2"@, "items"@)),
                        album,
                    )
                },
            },
        },
{
    match get2(value, "data", "albumUnion") {
        None => None,
        Some(union) => match gql::album_from_gql(union, id) {
            None => None,
            Some(album) => {
                let mut songs: Vec<Track> = Vec::new();
                assert(seen(songs@) =~= Seq::<SongView>::empty());
                if let Some(items) = json::list_of(get2(union, "tracksV2", "items")) {
                    let ghost view = album@;
                    let mut i: usize = 0;
                    assert(items@.take(0) =~= Seq::<Json>::empty());
                    while i < items.len()
                        invariant
                            i <= items@.len(),
                            view == album@,
                            seen(songs@) == album_songs(items@.take(i as int), view),
                        decreases items@.len() - i,
                    {
                        proof {
                            text::take_step(items@, i as int);
                            assert(items@.take(i + 1).drop_last() =~= items@.take(i as int));
                        }
                        if let Some(song) = song_of_page(&items[i], i, &album) {
                            let ghost songs0 = songs@;
                            songs.push(song);
                            assert(seen(songs@) =~= seen(songs0).push(song@));
                        }
                        i += 1;
                    }
                    assert(items@.take(i as int) =~= items@);
                }
                Some((album, songs))
            },
        },
    }
}

/// What the home of Spotify shows.
#[derive(Debug)]
pub struct HomeFeed {
    pub playlists: Vec<Playlist>,
    pub albums: Vec<Album>,
    pub songs: Vec<Track>,
    pub recent: Vec<Track>,
}

/// A thing of the home, with the heading that it stands under.
pub struct Shown {
    pub heading: Seq<char>,
    pub item: Json,
}

/// The heading of a section, its capitals made small.
pub open spec fn heading_in(section: Json) -> Seq<char> {
    text::ascii_lower(
        json::words(
            json::either(
                in3(section, "data"@, "title"@, "transformedLabel"@),
                in3(section, "data"@, "title"@, "text"@),
            ),
        ),
    )
}

/// What kind of thing an item of the home says it is.
pub open spec fn kind_in(item: Json) -> Seq<char> {
    json::words(json::in_object(within(item, "content"@), "__typename"@))
}

/// What an item of the home holds.
pub open spec fn data_in(item: Json) -> Json {
    within(within(item, "content"@), "data"@)
}

/// Whether a kind is shown as a playlist.
pub open spec fn is_list_kind(kind: Seq<char>) -> bool {
    text::occurs(kind, "Playlist"@) || text::occurs(kind, "Radio"@) || text::occurs(
        kind,
        "Station"@,
    ) || text::occurs(kind, "Blend"@)
}

/// Whether a heading stands over what was played before.
pub open spec fn is_recent(heading: Seq<char>) -> bool {
    text::occurs(heading, "jump"@) || text::occurs(heading, "recent"@) || text::occurs(
        heading,
        "vuelve"@,
    )
}

/// The playlist that an item of the home is.
pub open spec fn home_list(s: Shown) -> Option<PlaylistView> {
    if is_list_kind(kind_in(s.item)) {
        gql::playlist_in(data_in(s.item), Seq::empty())
    } else {
        None
    }
}

/// The album that an item of the home is.
pub open spec fn home_album(s: Shown) -> Option<AlbumView> {
    let kind = kind_in(s.item);
    if !is_list_kind(kind) && text::occurs(kind, "Album"@) {
        gql::album_in(data_in(s.item), Seq::empty())
    } else {
        None
    }
}

/// The song that an item of the home is, under a heading for what was played
/// before or not.
pub open spec fn home_song(s: Shown, recent: bool) -> Option<SongView> {
    let kind = kind_in(s.item);
    if !is_list_kind(kind) && !text::occurs(kind, "Album"@) && text::occurs(kind, "Track"@)
        && is_recent(s.heading) == recent {
        gql::song_in(data_in(s.item), Seq::empty(), false, false)
    } else {
        None
    }
}

/// The things of a section under its heading.
pub open spec fn shown_in(section: Json) -> Seq<Shown> {
    json::items_in(in2(section, "sectionItems"@, "items"@)).map_values(
        |i: Json| Shown { heading: heading_in(section), item: i },
    )
}

/// The things of sections, in order.
pub open spec fn all_shown(sections: Seq<Json>) -> Seq<Shown>
    decreases sections.len(),
{
    if sections.len() == 0 {
        Seq::empty()
    } else {
        all_shown(sections.drop_last()) + shown_in(sections.last())
    }
}

/// Whether `feed` is what these things of the home are.
pub open spec fn is_feed(feed: HomeFeed, shown: Seq<Shown>) -> bool {
    &&& seen(feed.playlists@) == json::chosen(shown, |s: Shown| home_list(s))
    &&& seen(feed.albums@) == json::chosen(shown, |s: Shown| home_album(s))
    &&& seen(feed.songs@) == json::chosen(shown, |s: Shown| home_song(s, false))
    &&& seen(feed.recent@) == json::chosen(shown, |s: Shown| home_song(s, true))
}

proof fn chosen_push<A, B>(s: Seq<A>, a: A, f: spec_fn(A) -> Option<B>)
    ensures
        json::chosen(s.push(a), f) == match f(a) {
            Some(b) => json::chosen(s, f).push(b),
            None => json::chosen(s, f),
        },
{
    assert(s.push(a).drop_last() =~= s);
}

fn add_shown(feed: &mut HomeFeed, heading: &str, item: &Json, Ghost(before): Ghost<Seq<Shown>>)
    requires
        is_feed(*old(feed), before),
    ensures
        is_feed(*final(feed), before.push(Shown { heading: heading@, item: *item })),
{
    let ghost s = Shown { heading: heading@, item: *item };
    proof {
        chosen_push(before, s, |s: Shown| home_list(s));
        chosen_push(before, s, |s: Shown| home_album(s));
        chosen_push(before, s, |s: Shown| home_song(s, false));
        chosen_push(before, s, |s: Shown| home_song(s, true));
        reveal_strlit("");
        assert(""@ =~= Seq::<char>::empty());
    }
    let content = inner(item, "content");
    let kind_text = json::words_of(content.get("__typename"));
    let kind = kind_text.as_str();
    let data = inner(content, "data");
    if text::contains(kind, "Playlist") || text::contains(kind, "Radio") || text::contains(
        kind,
        "Station",
    ) || text::contains(kind, "Blend") {
        if let Some(list) = gql::playlist_from_gql(data, "") {
            let ghost rows = feed.playlists@;
            feed.playlists.push(list);
            assert(seen(feed.playlists@) =~= seen(rows).push(list@));
        }
    } else if text::contains(kind, "Album") {
        if let Some(album) = gql::album_from_gql(data, "") {
            let ghost rows = feed.albums@;
            feed.albums.push(album);
            assert(seen(feed.albums@) =~= seen(rows).push(album@));
        }
    } else if text::contains(kind, "Track") {
        let none = String::new();
        assert(none@ =~= Seq::<char>::empty());
        if let Some(song) = gql::song_from_gql(data, none, false, false) {
            if text::contains(heading, "jump") || text::contains(heading, "recent")
                || text::contains(heading, "vuelve") {
                let ghost rows = feed.recent@;
                feed.recent.push(song);
                assert(seen(feed.recent@) =~= seen(rows).push(song@));
            } else {
                let ghost rows = feed.songs@;
                feed.songs.push(song);
                assert(seen(feed.songs@) =~= seen(rows).push(song@));
            }
        }
    }
}

/// What the home of Spotify shows.
pub fn home_feed(value: &Json) -> (r: HomeFeed)
    ensures
        is_feed(
            r,
            all_shown(
                json::items_in(
                    json::under(
                        json::under(
                            in3(*value, "data"@, "home"@, "sectionContainer"@),
                            "sections"@,
                        ),
                        "items"@,
                    ),
                ),
            ),
        ),
{
    let mut feed = HomeFeed {
        playlists: Vec::new(),
        albums: Vec::new(),
        songs: Vec::new(),
        recent: Vec::new(),
    };
    let ghost none = Seq::<Shown>::empty();
    proof {
        assert(seen(feed.playlists@) =~= json::chosen(none, |s: Shown| home_list(s)));
        assert(seen(feed.albums@) =~= json::chosen(none, |s: Shown| home_album(s)));
        assert(seen(feed.songs@) =~= json::chosen(none, |s: Shown| home_song(s, false)));
        assert(seen(feed.recent@) =~= json::chosen(none, |s: Shown| home_song(s, true)));
    }
    let found = json::at(
        json::at(get3(value, "data", "home", "sectionContainer"), "sections"),
        "items",
    );
    if let Some(sections) = json::list_of(found) {
        let mut i: usize = 0;
        assert(sections@.take(0) =~= Seq::<Json>::empty());
        while i < sections.len()
            invariant
                i <= sections@.len(),
                is_feed(feed, all_shown(sections@.take(i as int))),
            decreases sections@.len() - i,
        {
            let section = &sections[i];
            let ghost done = all_shown(sections@.take(i as int));
            let ghost more = shown_in(*section);
            proof {
                text::take_step(sections@, i as int);
                assert(sections@.take(i + 1).drop_last() =~= sections@.take(i as int));
            }
            let label = json::words_of(
                json::or(
                    get3(section, "data", "title", "transformedLabel"),
                    get3(section, "data", "title", "text"),
                ),
            );
            let heading = text::to_ascii_lower(label.as_str());
            match json::list_of(get2(section, "sectionItems", "items")) {
                Some(items) => {
                    let mut k: usize = 0;
                    proof {
                        assert(more.take(0) =~= Seq::<Shown>::empty());
                        assert(done + Seq::<Shown>::empty() =~= done);
                    }
                    while k < items.len()
                        invariant
                            k <= items@.len(),
                            more == items@.map_values(
                                |i: Json| Shown { heading: heading@, item: i },
                            ),
                            is_feed(feed, done + more.take(k as int)),
                        decreases items@.len() - k,
                    {
                        proof {
                            text::take_step(more, k as int);
                            assert(more[k as int] == Shown {
                                heading: heading@,
                                item: items@[k as int],
                            });
                            assert(done + more.take(k + 1) =~= (done + more.take(k as int)).push(
                                more[k as int],
                            ));
                        }
                        add_shown(
                            &mut feed,
                            heading.as_str(),
                            &items[k],
                            Ghost(done + more.take(k as int)),
                        );
                        k += 1;
                    }
                    assert(more.take(k as int) =~= more);
                },
                None => {
                    assert(more =~= Seq::<Shown>::empty());
                    assert(done + more =~= done);
                },
            }
            i += 1;
        }
        assert(sections@.take(i as int) =~= sections@);
    }
    feed
}

/// A new album of the feed of what is new.
pub open spec fn new_album(item: Json) -> Option<AlbumView> {
    match json::in_object(item, "content"@) {
        None => None,
        Some(content) => gql::album_in(within(content, "data"@), Seq::empty()),
    }
}

fn album_of_news(item: &Json) -> (r: Option<Album>)
    ensures
        seen_opt(r) == new_album(*item),
{
    match item.get("content") {
        None => None,
        Some(content) => {
            proof {
                reveal_strlit("");
                assert(""@ =~= Seq::<char>::empty());
            }
            gql::album_from_gql(inner(content, "data"), "")
        },
    }
}

/// The new albums, `max` at most.
pub fn whats_new_albums(value: &Json, max: usize) -> (r: Vec<Album>)
    ensures
        seen(r@) == crate::catalog::at_most(
            json::chosen(
                json::items_in(in3(*value, "data"@, "whatsNewFeedItems"@, "items"@)),
                |i: Json| new_album(i),
            ),
            max as int,
        ),
{
    let ghost g = |i: Json| new_album(i);
    let mut out: Vec<Album> = match json::list_of(
        get3(value, "data", "whatsNewFeedItems", "items"),
    ) {
        Some(items) => json::choose_items(items, album_of_news, Ghost(g)),
        None => Vec::new(),
    };
    let ghost all = json::chosen(
        json::items_in(in3(*value, "data"@, "whatsNewFeedItems"@, "items"@)),
        g,
    );
    assert(seen(out@) =~= all);
    assert(seen(out@).len() == out@.len());
    if out.len() > max {
        let ghost out0 = out@;
        out.truncate(max);
        assert(seen(out@) =~= seen(out0).take(max as int));
    }
    out
}

/// A line of Spotify's texts. One without words, or with nothing but a note, is
/// none.
pub open spec fn sung_line(line: Json) -> Option<Line> {
    let words = match json::text_in(json::in_object(line, "words"@)) {
        Some(s) => text::trimmed(s),
        None => Seq::empty(),
    };
    let at = json::in_object(line, "startTimeMs"@);
    let start = match json::whole_in(at) {
        Some(n) => n as int,
        None => match json::text_in(at) {
            Some(s) => match text::number_in(s) {
                Some(n) => n as int,
                None => 0,
            },
            None => 0,
        },
    };
    if words.len() == 0 || words == "♪"@ {
        None
    } else {
        Some(Line { start_ms: start, text: words })
    }
}

fn read_line(line: &Json) -> (r: Option<LyricLine>)
    ensures
        match r {
            Some(l) => sung_line(*line) == Some(
                Line { start_ms: l.start_ms as int, text: l.text@ },
            ),
            None => sung_line(*line) is None,
        },
{
    let words = match json::text_of(line.get("words")) {
        Some(s) => text::trim(s),
        None => String::new(),
    };
    if words.as_str().is_empty() || text::same(words.as_str(), "♪") {
        return None;
    }
    let at = line.get("startTimeMs");
    let start_ms = match json::whole_of(at) {
        Some(n) => n,
        None => match json::text_of(at) {
            Some(s) => match text::parse_number(s) {
                Some(n) => n,
                None => 0,
            },
            None => 0,
        },
    };
    Some(LyricLine { start_ms, text: words })
}

/// The lines of Spotify's texts.
pub open spec fn sung_lines(value: Json) -> Seq<Line> {
    json::chosen(
        json::items_in(in2(value, "lyrics"@, "lines"@)),
        |l: Json| sung_line(l),
    )
}

/// The text of a song as Spotify answers it. One without lines is none.
pub fn lyrics_from_color(value: &Json) -> (r: Option<Lyrics>)
    ensures
        match r {
            Some(l) => {
                &&& sung_lines(*value).len() > 0
                &&& line_views(l.lines@) == sung_lines(*value)
                &&& l.synced == (text::ascii_lower(
                    json::words(in2(*value, "lyrics"@, "syncType"@)),
                ) == text::ascii_lower("LINE_SYNCED"@))
            },
            None => sung_lines(*value).len() == 0,
        },
{
    let mut lines: Vec<LyricLine> = Vec::new();
    let ghost g = |l: Json| sung_line(l);
    assert(line_views(lines@) =~= Seq::<Line>::empty());
    if let Some(items) = json::list_of(get2(value, "lyrics", "lines")) {
        let mut i: usize = 0;
        proof {
            json::chosen_of_none(items@, g);
        }
        while i < items.len()
            invariant
                i <= items@.len(),
                g == (|l: Json| sung_line(l)),
                line_views(lines@) == json::chosen(items@.take(i as int), g),
            decreases items@.len() - i,
        {
            proof {
                json::chosen_step(items@, g, i as int);
            }
            if let Some(line) = read_line(&items[i]) {
                let ghost lines0 = lines@;
                let ghost view = Line { start_ms: line.start_ms as int, text: line.text@ };
                lines.push(line);
                assert(line_views(lines@) =~= line_views(lines0).push(view));
            }
            i += 1;
        }
        proof {
            json::chosen_of_none(items@, g);
        }
    }
    assert(line_views(lines@) == sung_lines(*value));
    assert(line_views(lines@).len() == lines@.len());
    if lines.len() == 0 {
        return None;
    }
    let sync = json::words_of(get2(value, "lyrics", "syncType"));
    Some(
        Lyrics {
            synced: text::same(
                text::to_ascii_lower(sync.as_str()).as_str(),
                text::to_ascii_lower("LINE_SYNCED").as_str(),
            ),
            lines,
        },
    )
}

/// A song of an album's page keeps what it says of itself, and has from the page
/// the number of its place, the album's name and the album's picture where it
/// says nothing of them.
pub proof fn a_song_of_an_album_has_its_place(item: Json, track: Json, i: int, album: AlbumView)
    requires
        json::in_object(item, "track"@) == Some(track),
        0 <= i < u32::MAX,
    ensures
        album_song(item, i, album) is Some == gql::hit_in(track) is Some,
        (album_song(item, i, album), gql::song_in(track, Seq::empty(), false, false)) matches (
            Some(song),
            Some(own),
        ) ==> {
            &&& song.id == own.id
            &&& song.title == own.title
            &&& song.artist == own.artist
            &&& song.duration_ms == own.duration_ms
            &&& song.year == own.year
            &&& own.track_number == 0 ==> song.track_number == i + 1
            &&& own.track_number != 0 ==> song.track_number == own.track_number
            &&& own.album.len() == 0 ==> song.album == album.name
            &&& own.album.len() > 0 ==> song.album == own.album
            &&& own.artwork is None ==> song.artwork == album.artwork
            &&& own.artwork is Some ==> song.artwork == own.artwork
        },
{
}

/// The songs of an album's page come in the order of the page: one more item
/// adds its song behind them, or nothing.
pub proof fn the_songs_of_an_album_keep_their_order(items: Seq<Json>, one: Json, album: AlbumView)
    ensures
        album_songs(items.push(one), album).len() <= items.len() + 1,
        album_songs(items, album).len() <= album_songs(items.push(one), album).len(),
        album_songs(items.push(one), album).take(album_songs(items, album).len() as int)
            == album_songs(items, album),
        album_song(one, items.len() as int, album) matches Some(s) ==> album_songs(
            items.push(one),
            album,
        ).last() == s && album_songs(items.push(one), album).len() == album_songs(
            items,
            album,
        ).len() + 1,
        album_song(one, items.len() as int, album) is None ==> album_songs(items.push(one), album)
            == album_songs(items, album),
        album_songs(Seq::empty(), album).len() == 0,
    decreases items.len(),
{
    assert(items.push(one).drop_last() =~= items);
    if items.len() > 0 {
        the_songs_of_an_album_keep_their_order(items.drop_last(), items.last(), album);
        assert(items.drop_last().push(items.last()) =~= items);
    }
    let r = album_songs(items, album);
    assert(r.take(r.len() as int) =~= r);
    match album_song(one, items.len() as int, album) {
        Some(s) => {
            assert(r.push(s).take(r.len() as int) =~= r);
        },
        None => {},
    }
}

/// A thing of the home is shown as one thing at most: a playlist, an album, a
/// song, or a song that was played before.
pub proof fn a_thing_is_shown_once(s: Shown)
    ensures
        home_list(s) is Some ==> home_album(s) is None,
        home_list(s) is Some ==> home_song(s, true) is None && home_song(s, false) is None,
        home_album(s) is Some ==> home_song(s, true) is None && home_song(s, false) is None,
        home_song(s, true) is Some ==> home_song(s, false) is None,
{
}

/// A playlist, a radio, a station and a blend are shown as playlists, an album
/// as an album, and a song as a song; a song under a heading for what was played
/// before is shown there.
pub proof fn a_thing_is_shown_as_what_it_is(
    s: Shown,
    content: Json,
    data: Json,
    kind: Seq<char>,
)
    requires
        json::in_object(s.item, "content"@) == Some(content),
        json::in_object(content, "data"@) == Some(data),
        json::says(content, "__typename"@, kind),
    ensures
        text::occurs(kind, "Playlist"@) || text::occurs(kind, "Radio"@) || text::occurs(
            kind,
            "Station"@,
        ) || text::occurs(kind, "Blend"@) ==> home_list(s) == gql::playlist_in(data, Seq::empty()),
        !is_list_kind(kind) && text::occurs(kind, "Album"@) ==> home_album(s) == gql::album_in(
            data,
            Seq::empty(),
        ),
        !is_list_kind(kind) && !text::occurs(kind, "Album"@) && text::occurs(kind, "Track"@) && (
        text::occurs(s.heading, "jump"@) || text::occurs(s.heading, "recent"@) || text::occurs(
            s.heading,
            "vuelve"@,
        )) ==> home_song(s, true) == gql::song_in(data, Seq::empty(), false, false),
        !is_list_kind(kind) && !text::occurs(kind, "Album"@) && text::occurs(kind, "Track"@)
            && !text::occurs(s.heading, "jump"@) && !text::occurs(s.heading, "recent"@)
            && !text::occurs(s.heading, "vuelve"@) ==> home_song(s, false) == gql::song_in(
            data,
            Seq::empty(),
            false,
            false,
        ),
        !is_list_kind(kind) ==> home_list(s) is None,
        !text::occurs(kind, "Album"@) ==> home_album(s) is None,
        !text::occurs(kind, "Track"@) ==> home_song(s, true) is None && home_song(s, false) is None,
{
}

/// The things of the home come in the order of their sections, each under the
/// heading of its own.
pub proof fn the_home_keeps_its_order(sections: Seq<Json>, one: Json, i: int)
    requires
        0 <= i < json::items_in(in2(one, "sectionItems"@, "items"@)).len(),
    ensures
        all_shown(sections.push(one)).len() == all_shown(sections).len() + json::items_in(
            in2(one, "sectionItems"@, "items"@),
        ).len(),
        all_shown(sections.push(one)).take(all_shown(sections).len() as int) == all_shown(sections),
        all_shown(sections.push(one))[all_shown(sections).len() + i].heading == heading_in(one),
        all_shown(sections.push(one))[all_shown(sections).len() + i].item == json::items_in(
            in2(one, "sectionItems"@, "items"@),
        )[i],
{
    assert(sections.push(one).drop_last() =~= sections);
    let r = all_shown(sections);
    assert((r + shown_in(one)).take(r.len() as int) =~= r);
}

/// A line of a text says its words and begins when it says, in a number or in
/// digits; one without words, or with nothing but a note, is none.
pub proof fn a_line_says_its_words(
    line: Json,
    words: Seq<char>,
    start: u64,
    at: Seq<char>,
)
    requires
        json::says(line, "words"@, words),
    ensures
        text::trimmed(words).len() == 0 || text::trimmed(words) == "♪"@ ==> sung_line(line) is None,
        text::trimmed(words).len() > 0 && text::trimmed(words) != "♪"@ ==> sung_line(line) is Some
            && sung_line(line)->0.text == text::trimmed(words),
        json::in_object(line, "startTimeMs"@) == Some(Json::Number(Number::Whole(start)))
            && sung_line(line) is Some ==> sung_line(line)->0.start_ms == start,
        json::says(line, "startTimeMs"@, at) && text::number_in(at) == Some(start)
            && sung_line(line) is Some ==> sung_line(line)->0.start_ms == start,
{
}

/// Of albums of one id the first stays, and the albums keep their order.
pub proof fn the_first_of_an_id_stays(albums: Seq<AlbumView>, a: AlbumView)
    ensures
        has_album(distinct(albums), a.id) ==> distinct(albums.push(a)) == distinct(albums),
        !has_album(albums, a.id) ==> distinct(albums.push(a)) == distinct(albums).push(a),
        forall|i: int|
            0 <= i < distinct(albums).len() ==> albums.contains(#[trigger] distinct(albums)[i]),
    decreases albums.len(),
{
    distinct_step(albums, a);
    if albums.len() > 0 {
        let rest = albums.drop_last();
        the_first_of_an_id_stays(rest, albums.last());
        assert(rest.push(albums.last()) =~= albums);
        assert forall|i: int| 0 <= i < distinct(albums).len() implies albums.contains(
            #[trigger] distinct(albums)[i],
        ) by {
            if i < distinct(rest).len() {
                assert(distinct(albums)[i] == distinct(rest)[i]);
                let k = choose|k: int| 0 <= k < rest.len() && rest[k] == distinct(rest)[i];
                assert(albums[k] == distinct(albums)[i]);
            } else {
                assert(albums[albums.len() - 1] == distinct(albums)[i]);
            }
        }
    }
    if !has_album(albums, a.id) && has_album(distinct(albums), a.id) {
        let i = choose|i: int|
            0 <= i < distinct(albums).len() && (#[trigger] distinct(albums)[i]).id == a.id;
        assert(albums.contains(distinct(albums)[i]));
        let k = choose|k: int| 0 <= k < albums.len() && albums[k] == distinct(albums)[i];
        assert(albums[k].id == a.id);
        assert(false);
    }
}

/// A discography lists the popular releases, then the albums, then the singles,
/// then the top albums: every album of each is there.
pub proof fn a_discography_has_every_release(union: Json, d: Json, part: Json, entry: Json)
    requires
        json::in_object(union, "discography"@) == Some(d),
        json::list_in(json::in_object(part, "items"@)) == Some(seq![entry]),
    ensures
        json::in_object(d, "popularReleasesAlbums"@) == Some(part) && json::in_object(
            d,
            "albums"@,
        ) is None && json::in_object(d, "singles"@) is None && json::in_object(d, "topAlbums"@) is None
            ==> discography(union) == albums_of_entry(entry),
        json::in_object(d, "popularReleasesAlbums"@) is None && json::in_object(d, "albums"@)
            == Some(part) && json::in_object(d, "singles"@) is None && json::in_object(
            d,
            "topAlbums"@,
        ) is None ==> discography(union) == albums_of_entry(entry),
        json::in_object(d, "popularReleasesAlbums"@) is None && json::in_object(
            d,
            "albums"@,
        ) is None && json::in_object(d, "singles"@) == Some(part) && json::in_object(
            d,
            "topAlbums"@,
        ) is None ==> discography(union) == albums_of_entry(entry),
        json::in_object(d, "popularReleasesAlbums"@) is None && json::in_object(
            d,
            "albums"@,
        ) is None && json::in_object(d, "singles"@) is None && json::in_object(d, "topAlbums"@)
            == Some(part) ==> discography(union) == albums_of_entry(entry),
        json::in_object(entry, "releases"@) is None ==> releases_in(entry) == seq![entry],
{
    reveal_with_fuel(albums_of_entries, 2);
    let none = Seq::<AlbumView>::empty();
    let one = albums_of_entry(entry);
    assert(seq![entry].drop_last() =~= Seq::<Json>::empty());
    assert(albums_of_entries(seq![entry]) =~= one);
    assert(albums_of_entries(Seq::<Json>::empty()) =~= none);
    assert(none + none + none + one =~= one);
    assert(none + none + one + none =~= one);
    assert(none + one + none + none =~= one);
    assert(one + none + none + none =~= one);
}

/// A new album is the one that the item wraps; an item without one is none.
pub proof fn a_new_album_is_the_one_it_wraps(item: Json, content: Json, data: Json)
    ensures
        json::in_object(item, "content"@) == Some(content) && json::in_object(content, "data"@)
            == Some(data) ==> new_album(item) == gql::album_in(data, Seq::empty()),
        json::in_object(item, "content"@) is None ==> new_album(item) is None,
{
}

/// One more thing of the home is put behind the others of its kind, and leaves
/// the other kinds as they are.
pub proof fn the_home_shows_one_more(
    a: HomeFeed,
    b: HomeFeed,
    shown: Seq<Shown>,
    s: Shown,
)
    requires
        is_feed(a, shown),
        is_feed(b, shown.push(s)),
    ensures
        home_list(s) matches Some(p) ==> seen(b.playlists@) == seen(a.playlists@).push(p),
        home_list(s) is None ==> seen(b.playlists@) == seen(a.playlists@),
        home_album(s) matches Some(x) ==> seen(b.albums@) == seen(a.albums@).push(x),
        home_album(s) is None ==> seen(b.albums@) == seen(a.albums@),
        home_song(s, false) matches Some(x) ==> seen(b.songs@) == seen(a.songs@).push(x),
        home_song(s, false) is None ==> seen(b.songs@) == seen(a.songs@),
        home_song(s, true) matches Some(x) ==> seen(b.recent@) == seen(a.recent@).push(x),
        home_song(s, true) is None ==> seen(b.recent@) == seen(a.recent@),
{
    chosen_push(shown, s, |x: Shown| home_list(x));
    chosen_push(shown, s, |x: Shown| home_album(x));
    chosen_push(shown, s, |x: Shown| home_song(x, false));
    chosen_push(shown, s, |x: Shown| home_song(x, true));
}

} // verus!
