use vinilo::i18n::Language;
use vinilo::json::{self, Json};
use vinilo::spotify::feeds::{
    playlist_from_library_item, playlists_from_search, playlists_from_search_v2,
    song_from_library_track, song_from_playlist_item, tracks_from_search, tracks_from_search_v2,
};
use vinilo::spotify::feeds::albums_from_search_v2;
use vinilo::spotify::gql::playlist_from_gql;
use vinilo::spotify::library::{
    adds_liked, asks_rest, ensure_liked_playlist, looks_made_for_you, merge_playlists, next_filter,
    tells_of, Filter, Paging, Section,
};
use vinilo::spotify::pages::lyrics_from_color;
use vinilo::spotify::rest::{song_from_track, text};
use vinilo::spotify::session::{
    clip_body, cooling_down, note_rate_limit, retry_after, send_token, session, status, Status,
    Step,
};
use vinilo::spotify::{open, Opening, Ref};

fn read(raw: &str) -> Json {
    json::read(raw).expect("json")
}

#[test]
fn track_album_and_liked_ids_round_trip() {
    assert_eq!(Ref::parse("sp:abc"), Some(Ref::Track("abc".into())));
    assert_eq!(Ref::parse("sp:track:abc"), Some(Ref::Track("abc".into())));
    assert_eq!(Ref::parse("sp:album:x"), Some(Ref::Album("x".into())));
    assert_eq!(Ref::parse("sp:playlist:y"), Some(Ref::Playlist("y".into())));
    assert_eq!(Ref::parse("sp:liked"), Some(Ref::Liked));
    assert_eq!(Ref::parse("yt:abc"), None);
    assert!(!Ref::parse("sp:playlist:y").unwrap().is_track());
}

#[test]
fn a_fresh_process_is_not_rate_limited() {
    assert!(!cooling_down(None, 0));
}

#[test]
fn a_wait_runs_out_and_is_never_shortened() {
    let second = 1_000_000_000;
    let until = note_rate_limit(None, 0, 30 * second);
    assert!(cooling_down(Some(until), 29 * second));
    assert!(!cooling_down(Some(until), 30 * second));
    assert_eq!(note_rate_limit(Some(until), 0, second), until);
}

#[test]
fn search_json_keeps_songs_and_playlists() {
    let value = read(
        r#"{"tracks":{"items":[{"id":"abc","name":"Pa Mal","duration_ms":180000,
        "artists":[{"name":"Aitana"}],
        "album":{"name":"Alpha","images":[{"url":"https://i.scdn.co/image/x"}]}}]},
        "playlists":{"items":[{"id":"pl1","name":"Gym","owner":{"display_name":"Aitana"},
        "images":[{"url":"https://i.scdn.co/image/p"}]}]}}"#,
    );
    let hits = tracks_from_search(&value);
    assert_eq!(hits[0].id, "sp:abc");
    let lists = playlists_from_search(&value);
    assert_eq!(lists[0].id, "sp:playlist:pl1");
    assert_eq!(lists[0].curator, "Aitana");
}

#[test]
fn saved_track_wrapper_becomes_a_library_song() {
    let item = read(
        r#"{"added_at":"2024-01-02T00:00:00Z","track":{"id":"t1","name":"Superestrella",
        "duration_ms":200000,"track_number":3,"artists":[{"name":"Aitana"}],
        "album":{"name":"Alpha","release_date":"2023-01-01","images":[]}}}"#,
    );
    let song = song_from_track(
        item.get("track").unwrap(),
        text(&item, "added_at"),
        true,
        true,
    )
    .unwrap();
    assert_eq!(song.catalog_id.as_deref(), Some("sp:t1"));
    assert_eq!(song.title, "Superestrella");
    assert!(song.favorite);
    assert_eq!(song.track_number, 3);
    assert_eq!(song.year, "2023");
}

#[test]
fn retry_after_reads_seconds_and_clamps() {
    assert_eq!(retry_after(Some("30")), 30);
    assert_eq!(retry_after(Some("5")), 15);
    assert_eq!(retry_after(Some("99999")), 15 * 60);
    assert_eq!(retry_after(None), 60);
}

#[test]
fn pathfinder_liked_song_becomes_a_library_track() {
    let item = read(
        r#"{"addedAt":{"isoString":"2026-01-02T00:00:00Z"},"track":{"_uri":"spotify:track:t1",
        "data":{"__typename":"Track","uri":"spotify:track:t1","name":"Superestrella",
        "trackDuration":{"totalMilliseconds":200000},
        "artists":{"items":[{"profile":{"name":"Aitana"}}]},
        "albumOfTrack":{"name":"Alpha","date":{"isoString":"2023-01-01"},
        "coverArt":{"sources":[{"url":"https://i.scdn.co/image/x","height":300}]}}}}}"#,
    );
    let song = song_from_library_track(&item).unwrap();
    assert_eq!(song.catalog_id.as_deref(), Some("sp:t1"));
    assert_eq!(song.title, "Superestrella");
    assert_eq!(song.artist, "Aitana");
    assert_eq!(song.album, "Alpha");
    assert_eq!(song.duration_ms, 200000);
    assert!(song.favorite);
    assert_eq!(song.year, "2023");
    assert_eq!(song.artwork.as_ref().unwrap().url(300), "https://i.scdn.co/image/x");
}

#[test]
fn pathfinder_library_playlists_skip_collection_uris() {
    let list_of = |raw: &str| playlist_from_library_item(Language::English, &read(raw)).unwrap();
    let liked = list_of(
        r#"{"item":{"__typename":"PlaylistResponseWrapper","_uri":"spotify:user:me:collection:tracks",
        "data":{"__typename":"Playlist","name":"Liked Songs","uri":"spotify:user:me:collection:tracks"}}}"#,
    );
    assert_eq!(liked.id, "sp:liked");
    assert!(liked.library);
    let list = list_of(
        r#"{"item":{"__typename":"PlaylistResponseWrapper","_uri":"spotify:playlist:pl1",
        "data":{"__typename":"Playlist","uri":"spotify:playlist:pl1","name":"Gym",
        "ownerV2":{"data":{"name":"Aitana"}},
        "images":{"items":[{"sources":[{"url":"https://i.scdn.co/image/p","height":64}]}]}}}}"#,
    );
    assert_eq!(list.id, "sp:playlist:pl1");
    assert_eq!(list.curator, "Aitana");
    assert!(list.library);
    assert_eq!(list.artwork.as_ref().unwrap().url(64), "https://i.scdn.co/image/p");
    let list = list_of(
        r#"{"__typename":"PlaylistResponseWrapper","uri":"spotify:playlist:pl2",
        "data":{"__typename":"Playlist","uri":"spotify:playlist:pl2","name":"Drive"}}"#,
    );
    assert_eq!(list.id, "sp:playlist:pl2");
    assert!(list.library);
    let list = list_of(
        r#"{"item":{"__typename":"LibraryPaginatableItem","item":{
        "__typename":"PlaylistResponseWrapper","_uri":"spotify:playlist:pl3",
        "data":{"__typename":"Playlist","uri":"spotify:playlist:pl3","name":"Noche"}}}}"#,
    );
    assert_eq!(list.id, "sp:playlist:pl3");
    assert!(list.library);
}

#[test]
fn editorial_playlist_names_can_be_a_transformed_label() {
    let value = read(
        r#"{"uri":"spotify:playlist:37i9dQZF1DX0XUs1WfzixN","name":{"transformedLabel":"Beele Radio"}}"#,
    );
    let list = playlist_from_gql(&value, "").unwrap();
    assert_eq!(list.id, "sp:playlist:37i9dQZF1DX0XUs1WfzixN");
    assert_eq!(list.name, "Beele Radio");
}

#[test]
fn color_lyrics_map_synced_lines() {
    let value = read(
        r#"{"lyrics":{"syncType":"LINE_SYNCED","lines":[
        {"startTimeMs":"1200","words":"Hola"},
        {"startTimeMs":"2400","words":"♪"},
        {"startTimeMs":"3600","words":"Noche"}]}}"#,
    );
    let lyrics = lyrics_from_color(&value).unwrap();
    assert!(lyrics.synced);
    assert_eq!(lyrics.lines.len(), 2);
    assert_eq!(lyrics.lines[0].text, "Hola");
    assert_eq!(lyrics.lines[0].start_ms, 1200);
}

#[test]
fn pathfinder_search_maps_tracks_albums_and_playlists() {
    let search = read(
        r#"{"tracksV2":{"items":[{"item":{"__typename":"TrackResponseWrapper","data":{
        "__typename":"Track","id":"abc","uri":"spotify:track:abc","name":"Pa Mal",
        "duration":{"totalMilliseconds":180000},
        "artists":{"items":[{"profile":{"name":"Aitana"}}]},
        "albumOfTrack":{"name":"Alpha","coverArt":{"sources":[{"url":"https://i.scdn.co/image/x"}]}}}}}]},
        "playlists":{"items":[{"__typename":"PlaylistResponseWrapper","data":{
        "__typename":"Playlist","uri":"spotify:playlist:pl1","name":"Gym",
        "ownerV2":{"data":{"name":"Aitana"}}}}]},
        "albumsV2":{"items":[{"__typename":"AlbumResponseWrapper","data":{
        "__typename":"Album","uri":"spotify:album:al1","name":"Alpha",
        "artists":{"items":[{"profile":{"name":"Aitana"}}]},"date":{"year":2023}}}]}}"#,
    );
    let hits = tracks_from_search_v2(&search);
    assert_eq!(hits[0].id, "sp:abc");
    assert_eq!(hits[0].artist, "Aitana");
    let lists = playlists_from_search_v2(&search);
    assert_eq!(lists[0].id, "sp:playlist:pl1");
    assert!(!lists[0].library);
    let albums = albums_from_search_v2(&search);
    assert_eq!(albums[0].id, "sp:album:al1");
    assert_eq!(albums[0].year, "2023");
}

#[test]
fn pathfinder_playlist_item_v2_becomes_a_song() {
    let item = read(
        r#"{"uid":"row1","itemV2":{"__typename":"TrackResponseWrapper","data":{
        "__typename":"Track","uri":"spotify:track:abc","name":"Pa Mal",
        "trackDuration":{"totalMilliseconds":180000},
        "artists":{"items":[{"profile":{"name":"Aitana"}}]},
        "albumOfTrack":{"name":"Alpha",
        "coverArt":{"sources":[{"url":"https://i.scdn.co/image/x","height":64}]}}}}}"#,
    );
    let song = song_from_playlist_item(&item).unwrap();
    assert_eq!(song.id.0, "sp:abc");
    assert_eq!(song.artist, "Aitana");
    assert_eq!(song.duration_ms, 180000);
}

#[test]
fn an_id_says_what_is_opened() {
    assert_eq!(open("sp:album:x"), Opening::Album("x".into()));
    assert_eq!(open("sp:playlist:y"), Opening::Playlist("y".into()));
    assert_eq!(open("sp:artist:z"), Opening::Artist("z".into()));
}

#[test]
fn liked_songs_come_first_and_lists_are_merged_once() {
    let list = |id: &str| {
        let raw = format!(r#"{{"uri":"spotify:playlist:{id}","name":"{id}"}}"#);
        playlist_from_gql(&read(&raw), "").unwrap()
    };
    let mut lists = vec![list("a")];
    merge_playlists(&mut lists, &vec![list("a"), list("b")]);
    assert_eq!(lists.len(), 2);
    let item = read(
        r#"{"track":{"_uri":"spotify:track:t1","data":{"uri":"spotify:track:t1","name":"One"}}}"#,
    );
    let songs = vec![song_from_library_track(&item).unwrap()];
    ensure_liked_playlist(Language::English, &mut lists, &songs);
    assert_eq!(lists[0].id, "sp:liked");
    assert_eq!(lists.len(), 3);
}

#[test]
fn a_mix_is_made_for_you_in_any_case() {
    assert!(looks_made_for_you("DAILY MIX 1"));
    assert!(!looks_made_for_you("Gym"));
}

#[test]
fn paging_stops_at_the_total() {
    let mut paging = Paging { offset: 0, limit: 50 };
    assert!(paging.after(50, 120));
    assert_eq!(paging.offset, 50);
    assert!(!paging.after(0, 120));
}

#[test]
fn a_session_is_used_while_it_lasts() {
    assert_eq!(session(Some(10), None, 5, true), Step::Use);
    assert_eq!(session(None, Some(10), 5, true), Step::Wait);
    assert_eq!(session(None, None, 5, false), Step::SignIn);
    assert_eq!(session(None, None, 5, true), Step::Ask);
}

#[test]
fn a_token_is_read() {
    let raw = r#"{"accessToken":"t","isAnonymous":false,"accessTokenExpirationTimestampMs":3700000,"clientId":"c"}"#;
    let token = send_token(raw, 100_000, "own").unwrap();
    assert_eq!(token.access, "t");
    assert_eq!(token.client_id, "c");
    assert!(!token.anonymous);
    assert!(send_token("{}", 0, "own").is_none());
    assert!(send_token("nonsense", 0, "own").is_none());
}

#[test]
fn a_status_says_what_to_do() {
    assert_eq!(status(200), Status::Fine);
    assert_eq!(status(429), Status::TooMany);
    assert_eq!(status(404), Status::Missing);
    assert_eq!(status(500), Status::Failed);
    assert_eq!(clip_body("short"), "short");
}

#[test]
fn what_cannot_be_read_takes_its_room() {
    let value = vinilo::json::read(
        r#"{"items":[
            {"added_at":"2020","track":{"id":"1","name":"One"}},
            {"added_at":"2020"},
            {"added_at":"2021","track":{"id":"2","name":"Two"}}
        ],"next":"https://more"}"#,
    )
    .unwrap();
    let page = vinilo::spotify::library::saved_tracks(&value, 2);
    assert_eq!((page.rows.len(), page.counted), (1, 2));
    assert_eq!(page.rows[0].title, "One");
    assert_eq!(page.next, "https://more");
    let page = vinilo::spotify::library::saved_tracks(&value, 50);
    assert_eq!((page.rows.len(), page.counted), (2, 3));
    let value = vinilo::json::read(
        r#"{"artists":{"items":[{},{"id":"a","name":"A"},{"id":"b","name":"B"}]}}"#,
    )
    .unwrap();
    let page = vinilo::spotify::library::followed_artists(&value, 1);
    assert_eq!((page.rows.len(), page.counted), (1, 1));
    assert_eq!(page.rows[0].name, "A");
    assert_eq!(page.next, "");
}

#[test]
fn what_is_asked_next_of_a_library() {
    assert!(asks_rest(None));
    assert!(asks_rest(Some(0)));
    assert!(!asks_rest(Some(3)));
    assert_eq!(next_filter(Filter::Playlists, Some(0)), Some(Filter::Everything));
    assert_eq!(next_filter(Filter::Playlists, Some(1)), None);
    assert_eq!(next_filter(Filter::Playlists, None), None);
    assert_eq!(next_filter(Filter::Everything, Some(0)), None);
    assert_eq!((Filter::Playlists.name(), Filter::Everything.name()), ("Playlists", ""));
    assert!(tells_of(Section::Albums, 1) && !adds_liked(Section::Albums, 1));
    assert!(tells_of(Section::Songs, 1) && adds_liked(Section::Songs, 1));
    assert!(!tells_of(Section::Playlists, 0) && !adds_liked(Section::Playlists, 0));
    assert!(!tells_of(Section::Artists, 4));
}
