use vinilo::entry::Entry;
use vinilo::json::{self, Json};
use vinilo::music::client::{
    diagnose, explain, first_song, lyrics_paths, next_round, offsets, page_path,
    playlist_id_from_create, search_path, song_containers, transport_error, ApiError, LIBRARY_PAGE,
};
use vinilo::music::mixed::{
    api_path, chart_resources, contents_href, contents_of, contents_resources, entries_from_list,
    looks_library_id, stub_ids, typed,
};
use vinilo::music::pages::{
    album_page, artist_page, catalog_ids, library_artists, library_membership,
    library_playlist_details, playlist_details, search_results,
};
use vinilo::music::shelves::{
    after_contents, after_groups, chart_paths, chart_rows, discover, goes_on, hydrate_typed,
    id_paths, membership_paths, partition, sort_recommended, takes_contents, typed_list,
    wants_contents, Following, Hydrated,
};

fn read(raw: &str) -> Json {
    json::read(raw).expect("json")
}

#[test]
fn search_results_are_nested_differently_to_every_other_endpoint() {
    let raw = r#"{"results":{"songs":{"data":[
        {"id":"1440857781","attributes":{"name":"Roundabout","artistName":"Yes"}}]}}}"#;
    let parsed = search_results(&read(raw)).unwrap();
    assert_eq!(parsed.songs[0].id.0, "1440857781");
    assert_eq!(parsed.songs[0].artist, "Yes");
}

#[test]
fn a_search_that_matches_nothing_omits_the_key_entirely() {
    let parsed = search_results(&read(r#"{"results":{}}"#)).unwrap();
    assert!(parsed.songs.is_empty());
    assert!(search_results(&read(r#"{"results":{"songs":{"data":[{}]}}}"#)).is_none());
}

#[test]
fn statuses_map_to_errors_that_name_the_fix() {
    assert!(matches!(diagnose(401, false), ApiError::Unauthorized));
    assert!(diagnose(403, true).message("403 Forbidden").contains("subscription"));
    assert_eq!(diagnose(404, true), ApiError::NotFound);
    assert_eq!(diagnose(500, true), ApiError::Other(500));
    assert!(diagnose(500, true).message("500 Internal").contains("500 Internal"));
    assert_eq!(transport_error(true), ApiError::Offline);
    assert_eq!(transport_error(false), ApiError::Other(502));
}

#[test]
fn a_401_while_signed_in_does_not_tell_you_to_sign_in() {
    let err = diagnose(401, true);
    assert!(matches!(err, ApiError::Rejected));
    let msg = err.message("401 Unauthorized");
    assert!(!msg.contains("sign in"), "misleading message: {msg}");
    assert!(msg.contains("valid session"));
}

#[test]
fn an_error_says_what_the_server_said() {
    assert_eq!(explain("not found", "  \n"), "not found");
    assert_eq!(explain("not found", " a\nb "), "not found — a b");
}

#[test]
fn a_created_playlist_id_is_inside_the_data_array() {
    let value = read(r#"{"data":[{"id":"p.rmUMW1EMxo","type":"library-playlists"}]}"#);
    assert_eq!(playlist_id_from_create(&value).as_deref(), Some("p.rmUMW1EMxo"));
    assert!(playlist_id_from_create(&read(r#"{"data":{"id":"p.x"}}"#)).is_some());
    assert!(playlist_id_from_create(&read(r#"{"data":[]}"#)).is_none());
}

#[test]
fn pages_are_asked_for_side_by_side_until_one_is_short() {
    assert_eq!(offsets(100), [100, 200, 300, 400, 500, 600]);
    assert_eq!(next_round(0, &vec![LIBRARY_PAGE; 6], 1_000), Some(600));
    assert_eq!(next_round(0, &vec![100, 100, 40, 0, 0, 0], 1_000), None);
    assert_eq!(next_round(0, &vec![LIBRARY_PAGE; 6], 600), None);
    assert_eq!(
        page_path("/me/library", "songs", "&x=1", 200),
        "/me/library/songs?limit=100&offset=200&x=1"
    );
    assert_eq!(
        search_path("es", "songs", 25, 50, "a b"),
        "/catalog/es/search?types=songs&limit=25&offset=50&term=a%20b"
    );
}

#[test]
fn lyrics_are_asked_for_by_catalogue_id_only() {
    assert!(lyrics_paths("es", "i.abc").is_none());
    let paths = lyrics_paths("es", "12").unwrap();
    assert_eq!(
        paths,
        [
            "/catalog/es/songs/12/syllable-lyrics?extend=ttmlLocalizations",
            "/catalog/es/songs/12/lyrics",
            "/catalog/es/songs/12?include=lyrics",
        ]
    );
    assert_eq!(first_song(Some("i.x")), Some(("i.x", "library-songs")));
    assert_eq!(first_song(Some("12")), Some(("12", "songs")));
    assert_eq!(first_song(Some("")), None);
}

#[test]
fn a_song_knows_its_album_and_artist() {
    let value = read(
        r#"{"data":[{"id":"1","relationships":{"albums":{"data":[{"id":"a"}]},"artists":{"data":[]}}}]}"#,
    );
    assert_eq!(song_containers(&value), Some((Some("a".into()), None)));
    assert_eq!(song_containers(&read(r#"{"data":[]}"#)), None);
}

#[test]
fn a_catalog_song_becomes_a_playable_entry() {
    let value = read(
        r#"{"id":"1440857781","type":"songs","attributes":{"name":"Bloom",
        "artistName":"Radiohead","albumName":"The King of Limbs","durationInMillis":328000,
        "playParams":{"id":"1440857781","kind":"song"}}}"#,
    );
    let Entry::Song(track) = typed(&value).unwrap().into_entry().unwrap() else {
        panic!("expected a song");
    };
    assert_eq!(track.title, "Bloom");
    assert_eq!(track.catalog_id.as_deref(), Some("1440857781"));
    assert!(track.playable());
}

#[test]
fn a_library_playlist_keeps_its_library_flag() {
    let value = read(r#"{"id":"p.abc","type":"library-playlists","attributes":{"name":"Game on"}}"#);
    let Entry::Playlist(list) = typed(&value).unwrap().into_entry().unwrap() else {
        panic!("expected a playlist");
    };
    assert!(list.library);
    assert_eq!(list.id, "p.abc");
}

#[test]
fn a_station_is_skipped() {
    let value = read(r#"{"id":"ra.1","type":"stations","attributes":{"name":"Radio"}}"#);
    assert!(typed(&value).unwrap().into_entry().is_none());
}

#[test]
fn a_recommendation_group_yields_its_contents() {
    let value = read(
        r#"{"id":"rec.1","type":"personal-recommendation","relationships":{"contents":{"data":[
        {"id":"pl.abc","type":"playlists","attributes":{"name":"New Music Mix"}},
        {"id":"1440857781","type":"songs","attributes":{"name":"Bloom","artistName":"Radiohead",
        "playParams":{"id":"1440857781","kind":"song"}}}]}}}"#,
    );
    let resource = typed(&value).unwrap();
    let contents = contents_of(&resource);
    assert_eq!(contents.len(), 2);
    assert!(matches!(&contents[0], Entry::Playlist(p) if p.name == "New Music Mix"));
    assert!(matches!(&contents[1], Entry::Song(t) if t.title == "Bloom"));
}

fn stubs() -> Json {
    read(
        r#"{"id":"rec.1","type":"personal-recommendation","relationships":{"contents":{
        "href":"/v1/me/recommendations/rec.1/contents","data":[
        {"id":"pl.u-mix","type":"playlists"},
        {"id":"1440857781","type":"songs"},
        {"id":"l.abc","type":"library-albums"}]}}}"#,
    )
}

#[test]
fn stubs_without_attributes_are_collected_not_turned_into_tiles() {
    let value = stubs();
    let resource = typed(&value).unwrap();
    assert!(contents_of(&resource).is_empty());
    let (songs, albums, playlists) = stub_ids(&contents_resources(&resource));
    assert_eq!(songs, vec!["1440857781"]);
    assert_eq!(albums, vec!["l.abc"]);
    assert_eq!(playlists, vec!["pl.u-mix"]);
    assert_eq!(
        contents_href(&resource).as_deref(),
        Some("/me/recommendations/rec.1/contents")
    );
    assert!(looks_library_id("l.abc"));
    assert!(!looks_library_id("pl.u-mix"));
    assert!(!looks_library_id("1440857781"));
}

#[test]
fn charts_accept_an_array_or_a_single_object() {
    let results = read(
        r#"{"songs":[{"chart":"most-played","data":[{"id":"1","type":"songs","attributes":{
        "name":"One","artistName":"Aitana","playParams":{"id":"1","kind":"song"}}}]}],
        "albums":{"chart":"most-played","data":[{"id":"2","type":"albums","attributes":{
        "name":"Alpha","artistName":"Aitana"}}]}}"#,
    );
    let songs = entries_from_list(&chart_resources(&results, "songs"));
    let albums = entries_from_list(&chart_resources(&results, "albums"));
    assert!(matches!(&songs[0], Entry::Song(t) if t.title == "One"));
    assert!(matches!(&albums[0], Entry::Album(a) if a.name == "Alpha"));
    assert!(chart_resources(&results, "playlists").is_empty());
    let rows = chart_rows(&songs, &albums, &songs);
    assert_eq!(rows.len(), 2, "each id once");
}

#[test]
fn api_paths_drop_the_v1_prefix() {
    assert_eq!(
        api_path("https://api.music.apple.com/v1/me/recommendations"),
        "/me/recommendations"
    );
    assert_eq!(api_path("/v1/catalog/es/charts"), "/catalog/es/charts");
    assert_eq!(api_path("/catalog/es/songs?ids=1"), "/catalog/es/songs?ids=1");
}

fn texts(n: usize) -> Vec<String> {
    (0..n).map(|i| i.to_string()).collect()
}

#[test]
fn ids_are_asked_for_in_chunks() {
    let ids = vec!["l.1".to_owned(), "2".to_owned(), "i.3".to_owned()];
    assert_eq!(partition(&ids, true), ["l.1", "i.3"]);
    assert_eq!(partition(&ids, false), ["2"]);
    assert!(id_paths("es", true, "songs", &vec![]).is_empty());
    assert_eq!(id_paths("es", false, "songs", &ids), ["/me/library/songs?ids=l.1,2,i.3"]);
    let paths = id_paths("es", true, "albums", &texts(26));
    assert_eq!(paths.len(), 2);
    assert!(paths[0].ends_with(",24"), "{}", paths[0]);
    assert_eq!(paths[1], "/catalog/es/albums?ids=25");
    let paths = membership_paths("es", &texts(101));
    assert_eq!(paths.len(), 2);
    assert_eq!(paths[1], "/catalog/es/songs?ids=100&include=library");
}

fn named(id: &str, kind: &str, name: &str) -> Entry {
    let raw = format!(r#"{{"id":"{id}","type":"{kind}","attributes":{{"name":"{name}"}}}}"#);
    typed(&read(&raw)).unwrap().into_entry().unwrap()
}

#[test]
fn a_stub_is_filled_by_what_was_asked_for() {
    let value = stubs();
    let resource = typed(&value).unwrap();
    let list = contents_resources(&resource);
    let mut by_id = Hydrated::new();
    by_id.index_hydrated(&named("pl.u-mix", "playlists", "Mix"));
    by_id.index_hydrated(&named("l.abc", "library-albums", ""));
    let rows = hydrate_typed(&list, &by_id);
    assert_eq!(rows.len(), 1);
    assert_eq!(rows[0].title(), "Mix");
    by_id.index_hydrated(&named("pl.u-mix", "playlists", "Newer"));
    assert_eq!(by_id.get("pl.u-mix").unwrap().title(), "Newer");
    assert!(by_id.get("1440857781").is_none());
}

#[test]
fn rows_stand_as_they_are_where_none_is_a_stub() {
    let value = read(r#"{"data":[{"id":"1","type":"albums","attributes":{"name":""}}]}"#);
    let (list, next) = typed_list(Some(&value));
    assert!(next.is_none());
    assert_eq!(hydrate_typed(&list, &Hydrated::new()).len(), 1);
}

#[test]
fn recommendations_are_sorted_and_kept_once() {
    let rows = vec![
        named("1", "songs", "One"),
        named("2", "playlists", "Two"),
        named("1", "songs", "One"),
        named("2", "playlists", "Two again"),
        named("3", "albums", ""),
    ];
    let (pages, songs) = sort_recommended(&rows);
    assert_eq!(pages.len(), 1);
    assert_eq!(songs.len(), 1);
    let many: Vec<Entry> = (0..20).map(|i| named(&i.to_string(), "albums", "A")).collect();
    assert_eq!(sort_recommended(&many).0.len(), 16);
}

#[test]
fn a_list_says_where_it_goes_on() {
    let value = read(r#"{"data":[],"next":"/v1/me/recommendations?offset=10"}"#);
    let (list, next) = typed_list(Some(&value));
    assert!(list.is_empty());
    assert_eq!(next.as_deref(), Some("/me/recommendations?offset=10"));
    assert!(typed_list(None).1.is_none());
    assert!(typed_list(Some(&read(r#"{"data":[{"id":1}]}"#))).0.is_empty());
}

#[test]
fn pages_of_recommendations_are_bounded() {
    assert_eq!(after_groups(1, true, 0, true), Following::Page);
    assert_eq!(after_groups(4, true, 0, true), Following::OtherWay);
    assert_eq!(after_groups(4, true, 3, true), Following::Done);
    assert_eq!(after_groups(1, false, 0, false), Following::Done);
    let next = || Some("/n".to_owned());
    assert_eq!(after_contents(0, 1, next()), next());
    assert_eq!(after_contents(3, 1, next()), None);
    assert_eq!(after_contents(0, 0, next()), None);
    assert_eq!(goes_on(None, true, next()), next());
    assert_eq!(goes_on(None, false, next()), None);
    let value = stubs();
    let resource = typed(&value).unwrap();
    let list = contents_resources(&resource);
    assert!(wants_contents(&list));
    assert!(!takes_contents(3, &list));
    assert!(takes_contents(0, &list));
    assert_eq!(chart_paths("es")[3], "/catalog/es/charts?types=songs&limit=20");
}

#[test]
fn what_was_played_stands_first_and_once() {
    let row = |id: &str| named(id, "albums", id);
    let page = discover(
        vec![row("a"), row("b")],
        &vec![row("b"), row("c")],
        &vec![row("a"), row("d")],
        vec![],
        vec![],
        vec![row("x")],
        vec![],
    );
    let ids: Vec<&str> = page.recently_played.iter().map(|e| e.id()).collect();
    assert_eq!(ids, ["a", "b", "c", "d"]);
    assert_eq!(page.recently_added.len(), 1);
}

#[test]
fn an_album_comes_with_its_songs() {
    let value = read(
        r#"{"data":[{"id":"l.1","attributes":{"name":"Alpha"},"relationships":{"tracks":{"data":[
        {"id":"i.1","attributes":{"name":"One"}}]}}}]}"#,
    );
    let (album, songs) = album_page(&value, true).unwrap();
    assert!(album.library);
    assert!(songs[0].in_library);
    assert_eq!(songs[0].library_id.as_deref(), Some("i.1"));
    let (album, songs) = album_page(&value, false).unwrap();
    assert!(!album.library && !songs[0].in_library);
    assert!(album_page(&read(r#"{"data":[]}"#), false).is_none());
}

#[test]
fn a_library_artist_has_their_portrait_from_the_catalogue() {
    let value = read(
        r#"{"data":[{"id":"r.1","attributes":{"name":"Aitana"},"relationships":{
        "albums":{"data":[{"id":"l.1","attributes":{"name":"Alpha"}}]},
        "catalog":{"data":[{"id":"9","attributes":{"name":"Aitana","genreNames":["Pop"],
        "artwork":{"url":"https://x/{w}x{h}.jpg"}}}]}}}]}"#,
    );
    let (artist, albums) = artist_page(&value, true).unwrap();
    assert!(artist.library && albums[0].library);
    assert_eq!(artist.id, "r.1");
    assert_eq!(artist.genres, "Pop");
    assert!(artist.artwork.is_some());
    let (artist, albums) = artist_page(&value, false).unwrap();
    assert!(!artist.library && !albums[0].library);
    assert_eq!(artist.genres, "");
}

#[test]
fn a_found_song_may_be_in_the_library() {
    let value = read(
        r#"{"data":[{"id":"1","attributes":{"name":"One","playParams":{"id":"1"}},
        "relationships":{"library":{"data":[{"id":"i.1"}]}}},
        {"id":"2","attributes":{"name":"Two"}}]}"#,
    );
    assert_eq!(library_membership(&value), [("1".to_owned(), "i.1".to_owned())]);
    let parsed = search_results(&read(
        r#"{"results":{"songs":{"data":[{"id":"1","attributes":{"name":"One","playParams":{"id":"1"}}}]}}}"#,
    ))
    .unwrap();
    assert_eq!(catalog_ids(&parsed.songs), ["1"]);
    let mut songs = parsed.songs;
    vinilo::music::client::mark_members(&mut songs, &library_membership(&value));
    assert!(songs[0].in_library);
    assert_eq!(songs[0].library_id.as_deref(), Some("i.1"));
}

#[test]
fn a_playlist_is_of_the_library_where_the_library_was_asked() {
    let value = read(r#"{"data":[{"id":"p.1","attributes":{"name":"Gym"}}]}"#);
    let list = playlist_details(&value).unwrap();
    assert_eq!(list.name, "Gym");
    assert!(!list.library);
    let list = library_playlist_details(&value).unwrap();
    assert_eq!(list.name, "Gym");
    assert!(list.library);
    assert!(playlist_details(&read(r#"{"data":[]}"#)).is_none());
    assert!(library_playlist_details(&read(r#"{"data":[]}"#)).is_none());
}

#[test]
fn artists_of_the_library_have_their_portrait_from_the_catalogue() {
    let value = read(
        r#"{"data":[
            {"id":"r.1","attributes":{"name":"Yes"},"relationships":{"catalog":{"data":[
                {"id":"9","attributes":{"name":"YES","genreNames":["Rock"],
                    "artwork":{"url":"https://a/{w}x{h}.jpg"}}}]}}},
            {"id":"r.2","attributes":{"name":"Nobody"}}
        ]}"#,
    );
    let artists = library_artists(Some(&value)).unwrap();
    assert_eq!(artists.len(), 2);
    assert_eq!(artists[0].id, "r.1");
    assert_eq!(artists[0].name, "Yes");
    assert_eq!(artists[0].genres, "Rock");
    assert!(artists[0].artwork.is_some());
    assert!(artists[0].library);
    assert_eq!(artists[1].name, "Nobody");
    assert!(artists[1].artwork.is_none());
    assert!(artists[1].library);
    assert!(library_artists(Some(&read(r#"{"data":[{"name":"no id"}]}"#))).is_none());
}

#[test]
fn a_resource_may_list_its_parts_without_their_names() {
    let value = read(r#"["1","songs",{"name":"One","playParams":{"id":"1"}}]"#);
    let resource = typed(&value).unwrap();
    assert_eq!((resource.id, resource.kind), ("1", "songs"));
    assert!(resource.relationships.is_none());
    assert_eq!(resource.into_entry().unwrap().title(), "One");
    assert!(typed(&read(r#"["1"]"#)).is_none());
    assert!(typed(&read(r#"["1","songs",null,null,null]"#)).is_none());
    assert!(typed(&read(r#"["1","songs",null,null]"#)).unwrap().attributes.is_none());
}

#[test]
fn a_search_may_list_its_kinds_without_their_names() {
    let songs = r#"{"data":[{"id":"1","attributes":{"name":"One"}}]}"#;
    let found = search_results(&read(&format!("[[{songs},null,null,null]]"))).unwrap();
    assert_eq!(found.songs.len(), 1);
    assert!(found.albums.is_empty());
    assert!(search_results(&read("[]")).unwrap().songs.is_empty());
    assert!(search_results(&read(&format!("[[{songs}]]"))).is_none());
    assert!(search_results(&read(r#"[{},{}]"#)).is_none());
    assert!(search_results(&read(r#"{"results":null}"#)).is_none());
}

#[test]
fn everything_that_is_listed_has_to_be_read() {
    let good = r#"{"id":"a","attributes":{"name":"A"}}"#;
    assert!(album_page(&read(&format!(r#"{{"data":[{good},{good}]}}"#)), false).is_some());
    assert!(album_page(&read(&format!(r#"{{"data":[{good},{{}}]}}"#)), false).is_none());
    assert!(artist_page(&read(&format!(r#"{{"data":[{good},{good}]}}"#)), false).is_some());
    assert!(artist_page(&read(&format!(r#"{{"data":[{good},7]}}"#)), true).is_none());
    let odd = r#"{"data":[{"id":"a","attributes":{"name":"A"},"relationships":5}]}"#;
    assert!(album_page(&read(odd), false).is_none());
    assert_eq!(song_containers(&read(r#"{"data":[{}]}"#)), Some((None, None)));
    assert_eq!(
        song_containers(&read(
            r#"{"data":[{"relationships":{"artists":{"data":[{"id":"r"},{"id":"s"}]}}}]}"#
        )),
        Some((None, Some("r".into())))
    );
    for odd in [
        r#"{"data":[{},5]}"#,
        r#"{"data":[{"relationships":[]}]}"#,
        r#"{"data":[{"relationships":{"albums":{}}}]}"#,
        r#"{"data":[{"relationships":{"albums":{"data":[{"id":"a"},{}]}}}]}"#,
    ] {
        assert_eq!(song_containers(&read(odd)), None, "{odd}");
    }
}

#[test]
fn albums_that_were_left_out_are_asked_for() {
    assert!(vinilo::music::pages::asks_for_albums(&Vec::new()));
    let page = read(r#"{"data":[{"id":"a","attributes":{"name":"A"}}]}"#);
    let (album, _) = album_page(&page, false).unwrap();
    assert!(!vinilo::music::pages::asks_for_albums(&vec![album]));
}
