use vinilo::catalog::{catalog_rows, SearchResults, CATALOG_BROWSE_ROWS};
use vinilo::catalog_write::{reject_foreign, route, Service};
use vinilo::discover::{homemade, Discover};
use vinilo::entry::Entry;
use vinilo::i18n::{
    empty_album, empty_artist, empty_playlist, set_current, t, Key, Language, Locale,
};
use vinilo::ipc::{CatalogFilter, PageKind};
use vinilo::listen_history;
use vinilo::listen_stats::{
    format_count, record, set_public_plays, source_label, top_tracks, total_ms, File, TrackStat,
};
use vinilo::local_files::{expand_audio_paths, Child, Node};
use vinilo::music::types::{Album, Artist, Artwork, Playlist, Track, TrackId};
use vinilo::page_cache::{accept, file_name, page, same};
use vinilo::paths::{artwork_dir, cache_dir, cache_file, config_dir, state_dir, Env};
use vinilo::provider::{Maturity, Provider};

fn track(title: &str, catalog: Option<&str>) -> Track {
    Track {
        id: TrackId(format!("i.{title}")),
        catalog_id: catalog.map(str::to_owned),
        title: title.into(),
        favorite: false,
        in_library: false,
        library_id: None,
        date_added: String::new(),
        year: String::new(),
        artist: "Aitana".into(),
        album: "Superestrella".into(),
        duration_ms: 200_000,
        track_number: 1,
        artwork: None,
    }
}

fn found(songs: usize, albums: usize, artists: usize, playlists: usize) -> SearchResults {
    SearchResults {
        songs: (0..songs).map(|i| track(&format!("s{i}"), Some("1"))).collect(),
        albums: (0..albums)
            .map(|i| Album {
                id: format!("al{i}"),
                date_added: String::new(),
                name: format!("al{i}"),
                artist: String::new(),
                artwork: None,
                year: String::new(),
                library: false,
                track_count: 1,
            })
            .collect(),
        artists: (0..artists)
            .map(|i| Artist {
                id: format!("ar{i}"),
                name: format!("ar{i}"),
                artwork: None,
                genres: String::new(),
                library: false,
            })
            .collect(),
        playlists: (0..playlists)
            .map(|i| Playlist {
                id: format!("pl{i}"),
                date_added: String::new(),
                last_modified: String::new(),
                name: format!("pl{i}"),
                curator: String::new(),
                description: String::new(),
                artwork: None,
                library: false,
            })
            .collect(),
    }
}

fn kinds(rows: &[Entry]) -> Vec<&'static str> {
    rows.iter()
        .map(|e| match e {
            Entry::Song(_) => "song",
            Entry::Album(_) => "album",
            Entry::Artist(_) => "artist",
            Entry::Playlist(_) => "playlist",
        })
        .collect()
}

#[test]
fn unfiltered_results_lead_with_trimmed_browse_rows() {
    let (rows, paged) = catalog_rows(CatalogFilter::All, found(5, 9, 9, 9), true);
    let k = kinds(&rows);
    assert_eq!(k.iter().filter(|k| **k == "artist").count(), CATALOG_BROWSE_ROWS);
    assert_eq!(k.iter().filter(|k| **k == "album").count(), CATALOG_BROWSE_ROWS);
    assert_eq!(k.iter().filter(|k| **k == "playlist").count(), CATALOG_BROWSE_ROWS);
    assert_eq!(k.iter().filter(|k| **k == "song").count(), 5);
    assert_eq!(k[k.len() - 5..], ["song"; 5]);
    assert_eq!(paged, 5);
}

#[test]
fn later_pages_carry_songs_only() {
    let (rows, paged) = catalog_rows(CatalogFilter::All, found(25, 9, 9, 9), false);
    assert_eq!(kinds(&rows), ["song"; 25]);
    assert_eq!(paged, 25);
}

#[test]
fn a_filtered_page_counts_its_own_kind_not_songs() {
    for (filter, kind, expected) in [
        (CatalogFilter::Songs, "song", 5),
        (CatalogFilter::Albums, "album", 6),
        (CatalogFilter::Artists, "artist", 7),
        (CatalogFilter::Playlists, "playlist", 8),
    ] {
        let (rows, paged) = catalog_rows(filter, found(5, 6, 7, 8), true);
        assert_eq!(kinds(&rows), vec![kind; expected], "{filter:?} rows");
        assert_eq!(paged, expected, "{filter:?} offset");
    }
}

#[test]
fn a_filtered_page_never_trims() {
    let (rows, paged) = catalog_rows(CatalogFilter::Albums, found(0, 25, 0, 0), true);
    assert_eq!(rows.len(), 25);
    assert_eq!(paged, 25);
}

#[test]
fn spotify_rejects_an_apple_library_id() {
    let err = reject_foreign(Language::English, Provider::Spotify, "p.rmUMW1EMxo").unwrap_err();
    assert!(err.contains("another music source") || err.contains("otra fuente"));
    let err = reject_foreign(Language::Spanish, Provider::Spotify, "p.rmUMW1EMxo").unwrap_err();
    assert!(err.contains("otra fuente"));
}

#[test]
fn empty_id_is_allowed_when_creating_a_playlist() {
    assert!(reject_foreign(Language::English, Provider::Spotify, "").is_ok());
}

#[test]
fn a_write_goes_to_the_service_of_its_source() {
    let to = |p, id| route(Language::English, p, id, None);
    assert_eq!(to(Provider::Spotify, "sp:1").unwrap(), Service::Spotify);
    assert!(to(Provider::Spotify, "yt:1").is_err());
}

fn dated(title: &str, favorite: bool, added: &str) -> Track {
    Track {
        id: TrackId(format!("i.{title}")),
        catalog_id: Some("1".into()),
        favorite,
        in_library: true,
        library_id: None,
        date_added: added.into(),
        year: String::new(),
        title: title.into(),
        artist: "Aitana".into(),
        album: "Superestrella".into(),
        duration_ms: 200_000,
        track_number: 1,
        artwork: Some(Artwork::new("https://x/{w}x{h}bb.jpg")),
    }
}

#[test]
fn homemade_prefers_favourites_for_recommended_songs() {
    let songs = vec![
        dated("plain", false, "2024-01-01T00:00:00Z"),
        dated("star", true, "2023-01-01T00:00:00Z"),
    ];
    let made = homemade(None, &songs, &vec![], &vec![], &vec![]);
    assert_eq!(made.recommended_songs.len(), 1);
    assert_eq!(made.recommended_songs[0].title, "star");
}

#[test]
fn same_tiles_ignores_artwork_url_churn() {
    let make = || {
        Discover::shelves(
            None,
            vec![Entry::Song(dated("played", false, ""))],
            Vec::new(),
            vec![dated("star", true, "")],
            Vec::new(),
            Vec::new(),
        )
    };
    let mut a = make();
    let mut b = make();
    if let Entry::Song(track) = &mut a.recently_played[0] {
        track.artwork = Some(Artwork::new("https://cdn/old/{w}x{h}.jpg"));
    }
    if let Entry::Song(track) = &mut b.recently_played[0] {
        track.artwork = Some(Artwork::new("https://cdn/new/{w}x{h}.jpg"));
    }
    assert!(a.same_tiles(&b));
    b.recommended_songs[0].title = "other".into();
    assert!(!a.same_tiles(&b));
}

#[test]
fn fill_gaps_does_not_replace_apple_content() {
    let mut apple = Discover {
        recommended_songs: vec![dated("from-apple", false, "")],
        ..Discover::default()
    };
    apple.fill_gaps(Discover {
        recommended_songs: vec![dated("homemade", true, "")],
        recently_played: vec![Entry::Song(dated("played", false, ""))],
        ..Discover::default()
    });
    assert_eq!(apple.recommended_songs[0].title, "from-apple");
    assert_eq!(apple.recently_played.len(), 1);
}

fn playlist(name: &str) -> Playlist {
    Playlist {
        id: format!("p.{name}"),
        date_added: "2024-01-01T00:00:00Z".into(),
        last_modified: "2024-06-01T00:00:00Z".into(),
        name: name.into(),
        curator: String::new(),
        description: String::new(),
        artwork: None,
        library: true,
    }
}

#[test]
fn homemade_does_not_pass_library_playlists_off_as_made_for_you() {
    let lists = vec![playlist("Gym"), playlist("Drive")];
    let made = homemade(None, &vec![], &vec![], &lists, &vec![]);
    assert!(made.recommended_playlists.is_empty());
    assert!(made.charts.is_empty());
}

fn playlist_undated(name: &str) -> Playlist {
    Playlist {
        date_added: String::new(),
        ..playlist(name)
    }
}

#[test]
fn homemade_lists_undated_playlists_when_nothing_is_dated() {
    let lists = vec![playlist_undated("Gym"), playlist_undated("Drive")];
    let made = homemade(None, &vec![], &vec![], &lists, &vec![]);
    assert_eq!(made.recently_added.len(), 2);
    assert!(made.recommended_playlists.is_empty());
}

#[test]
fn language_round_trips() {
    for language in [Language::English, Language::Spanish] {
        assert_eq!(Language::parse(language.as_str()), Some(language));
        assert_eq!(Language::from_index(language.index()), language);
    }
}

#[test]
fn unknown_language_is_none() {
    assert_eq!(Language::parse("fr"), None);
    assert_eq!(Language::parse(""), None);
}

#[test]
fn spanish_welcome_is_spanish() {
    let mut locale = Locale::default();
    set_current(&mut locale, Language::Spanish);
    let now = vinilo::i18n::current(&locale);
    assert_eq!(t(now, Key::WelcomeTitle), "Bienvenido a Vinilo");
    assert_eq!(t(now, Key::SignIn), "Iniciar sesión en Apple Music");
    set_current(&mut locale, Language::English);
    let now = vinilo::i18n::current(&locale);
    assert_eq!(t(now, Key::WelcomeTitle), "Welcome to Vinilo");
}

#[test]
fn empty_states_are_complete_sentences() {
    assert_eq!(empty_album(Language::English), "This album has no songs.");
    assert_eq!(empty_playlist(Language::English), "This playlist has no songs.");
    assert_eq!(empty_artist(Language::English), "This artist has no albums.");
    assert_eq!(empty_album(Language::Spanish), "Este álbum no tiene canciones.");
    assert_eq!(empty_playlist(Language::Spanish), "Esta lista no tiene canciones.");
    assert_eq!(empty_artist(Language::Spanish), "Este artista no tiene álbumes.");
}

fn played(id: &str) -> Track {
    Track {
        id: TrackId(id.into()),
        catalog_id: Some(id.into()),
        favorite: false,
        in_library: false,
        library_id: None,
        date_added: String::new(),
        year: String::new(),
        title: id.into(),
        artist: "A".into(),
        album: "B".into(),
        duration_ms: 1,
        track_number: 1,
        artwork: None,
    }
}

#[test]
fn recording_the_same_song_moves_it_to_the_front() {
    let tracks = listen_history::record(&vec![played("a"), played("b")], played("b"));
    assert_eq!(tracks[0].catalog_id.as_deref(), Some("b"));
    assert_eq!(tracks.len(), 2);
}

fn stat(id: &str, title: &str, play_count: u64, total_ms: u64, last_played: u64) -> TrackStat {
    TrackStat {
        id: id.into(),
        title: title.into(),
        artist: "x".into(),
        album: String::new(),
        year: String::new(),
        artwork: None,
        source: String::new(),
        public_plays: None,
        play_count,
        total_ms,
        last_played,
    }
}

#[test]
fn top_orders_by_play_count() {
    let mut file = File::new();
    file.tracks.push(("a".into(), stat("a", "A", 1, 100, 1)));
    file.tracks.push(("b".into(), stat("b", "B", 5, 50, 2)));
    let tracks = top_tracks(&file, 10);
    assert_eq!(tracks[0].id, "b");
    assert_eq!(tracks[1].id, "a");
    assert_eq!(top_tracks(&file, 1).len(), 1);
}

#[test]
fn a_play_is_counted() {
    let mut file = File::new();
    record(&mut file, &played("sp:1"), 1_500, 7);
    record(&mut file, &played("sp:1"), 500, 9);
    assert_eq!(total_ms(&file), 2_000);
    let top = top_tracks(&file, 5);
    assert_eq!(top.len(), 1);
    assert_eq!(top[0].play_count, 2);
    assert_eq!(top[0].last_played, 9);
    assert!(set_public_plays(&mut file, "sp:1", 42));
    assert!(!set_public_plays(&mut file, "sp:2", 42));
    assert_eq!(source_label("sp:1"), "Spotify");
}

#[test]
fn compact_counts() {
    assert_eq!(format_count(950), "950");
    assert_eq!(format_count(12_400), "12.4K");
    assert_eq!(format_count(1_200_000), "1.2M");
    assert_eq!(format_count(2_100_000_000), "2.1B");
}

fn file(path: &str) -> Node {
    Node::Other { path: path.into(), is_file: true }
}

fn child(dir: &str, name: &str) -> Child {
    Child { name: name.into(), node: file(&format!("{dir}/{name}")) }
}

#[test]
fn a_folder_becomes_its_audio_files_in_name_order() {
    let dir = Node::Dir {
        path: "/d".into(),
        children: vec![
            child("/d", "b.mp3"),
            child("/d", "a.flac"),
            child("/d", "readme.txt"),
            child("/d", ".hidden.mp3"),
        ],
    };
    assert_eq!(expand_audio_paths(&vec![dir]), vec!["/d/a.flac", "/d/b.mp3"]);
}

#[test]
fn a_plain_file_is_kept_and_a_photo_is_not() {
    let files = expand_audio_paths(&vec![file("/d/track.ogg"), file("/d/cover.jpg")]);
    assert_eq!(files, vec!["/d/track.ogg"]);
}

#[test]
fn duplicates_are_dropped() {
    let files = expand_audio_paths(&vec![file("/d/one.wav"), file("/d/one.wav")]);
    assert_eq!(files.len(), 1);
}

fn header() -> Entry {
    Entry::Playlist(Playlist {
        id: "p.abc".into(),
        date_added: String::new(),
        last_modified: String::new(),
        name: "Game on".into(),
        curator: String::new(),
        description: String::new(),
        artwork: None,
        library: true,
    })
}

#[test]
fn same_page_matches_on_ids() {
    let row = |id: &str| Entry::Song(played(id));
    let entries = vec![row("one"), row("two")];
    let cached = accept(page(&header(), &entries)).unwrap();
    assert!(same(&cached, &header(), &entries));
    assert!(!same(&cached, &header(), &vec![row("one")]));
}

#[test]
fn playlist_ids_cannot_escape_the_cache_directory() {
    let name = file_name(PageKind::LibraryPlaylist, "p.a/b?c");
    assert!(!name.contains('/'));
    assert!(!name.contains('?'));
    assert!(name.starts_with("library-playlist-"));
    assert!(name.ends_with(".json"));
}

#[test]
fn every_directory_sits_under_its_own_xdg_base() {
    let env = Env {
        cache_home: None,
        state_home: None,
        config_home: None,
        home: Some("/home/x".into()),
    };
    let (cache, state, config) = (
        cache_dir(&env).unwrap(),
        state_dir(&env).unwrap(),
        config_dir(&env).unwrap(),
    );
    assert!(cache.ends_with("/vinilo"));
    assert!(state.ends_with("/vinilo"));
    assert!(config.ends_with("/vinilo"));
    assert_ne!(cache, state);
    assert_ne!(config, cache);
    assert!(artwork_dir(&env).unwrap().starts_with(&cache));
    assert_eq!(
        cache_file(&env, "discover", Some(Provider::Spotify)).unwrap(),
        "/home/x/.cache/vinilo/discover-spotify.json"
    );
}

#[test]
fn provider_round_trips_through_its_string_form() {
    for provider in [
        Provider::AppleMusic,
        Provider::Local,
        Provider::Spotify,
        Provider::YoutubeMusic,
        Provider::Tidal,
    ] {
        assert_eq!(Provider::parse(provider.as_str()), Some(provider));
    }
}

#[test]
fn aliases_are_forgiven() {
    assert_eq!(Provider::parse("apple"), Some(Provider::AppleMusic));
    assert_eq!(Provider::parse("files"), Some(Provider::Local));
    assert_eq!(Provider::parse("ytmusic"), Some(Provider::YoutubeMusic));
}

#[test]
fn unknown_provider_is_none() {
    assert_eq!(Provider::parse("deezer"), None);
    assert_eq!(Provider::parse(""), None);
}

#[test]
fn only_apple_needs_the_sidecar() {
    assert!(Provider::AppleMusic.needs_sidecar());
    assert!(Provider::AppleMusic.needs_apple());
    assert!(!Provider::Local.needs_sidecar());
    assert!(!Provider::Spotify.needs_apple());
    assert!(Provider::Spotify.is_catalog());
    assert_eq!(Provider::from_index(2), Provider::Spotify);
    assert_eq!(Provider::Tidal.index(), 4);
    assert_eq!(Provider::AppleMusic.cache_stem(), None);
    assert_eq!(Provider::Spotify.cache_stem(), Some("spotify"));
}

#[test]
fn maturity_matches_how_ready_each_source_is() {
    assert_eq!(Provider::Local.maturity(), Maturity::Ready);
    assert_eq!(Provider::AppleMusic.maturity(), Maturity::Ready);
    assert_eq!(Provider::Spotify.maturity(), Maturity::Beta);
    assert_eq!(Provider::YoutubeMusic.maturity(), Maturity::Beta);
    assert_eq!(Provider::Tidal.maturity(), Maturity::Alpha);
}

fn count_of(n: u64) -> String {
    let x = n as f64;
    let (v, unit) = if x < 1_000.0 {
        return format!("{n}");
    } else if x < 1_000_000.0 {
        (x / 1_000.0, "K")
    } else if x < 1_000_000_000.0 {
        (x / 1_000_000.0, "M")
    } else {
        (x / 1_000_000_000.0, "B")
    };
    if v >= 100.0 {
        format!("{v:.0}{unit}")
    } else {
        format!("{v:.1}{unit}")
    }
}

#[test]
fn counts_go_through_a_double() {
    assert_eq!(format_count(9_007_200_500_000_001), "9007200B");
    assert_eq!(format_count(u64::MAX), "18446744074B");
    let mut n: u64 = 7;
    for k in 0..4000u64 {
        n = n.wrapping_mul(6364136223846793005).wrapping_add(1442695040888963407);
        let some = n >> (k % 60);
        assert_eq!(format_count(some), count_of(some), "{some}");
        let tie = some / 1_000_000_000 * 1_000_000_000 + 500_000_000;
        assert_eq!(format_count(tie), count_of(tie), "{tie}");
        assert_eq!(format_count(tie - 256), count_of(tie - 256), "{tie}");
        assert_eq!(format_count(1_050 + k * 100), count_of(1_050 + k * 100));
        assert_eq!(format_count(1_050_000 + k * 100_000), count_of(1_050_000 + k * 100_000));
    }
}

#[test]
fn a_file_is_one_however_its_path_is_written() {
    let files = expand_audio_paths(&vec![
        file("/m/a.mp3"),
        file("/m//a.mp3"),
        file("/m/./a.mp3"),
        file("/m/a.mp3/"),
        file("./a.mp3"),
        file("a.mp3"),
        file("../a.mp3"),
        file("/m/.."),
        file(".mp3"),
    ]);
    assert_eq!(files, vec!["/m/a.mp3", "./a.mp3", "a.mp3", "../a.mp3"]);
    for (a, b) in [
        ("/m/a", "/m//a"),
        ("/m/a", "/m/a/."),
        ("/./m", "/m"),
        ("./m", "m"),
        (".", "./"),
        ("", "."),
        ("", "/"),
        ("a/../b", "b"),
        ("a/b", "a/c"),
    ] {
        let same = std::path::Path::new(a) == std::path::Path::new(b);
        assert_eq!(vinilo::steps::same(a, b), same, "{a} {b}");
        let before = std::path::Path::new(a) < std::path::Path::new(b);
        let rank = vinilo::steps::path_rank(a, b);
        assert_eq!(matches!(rank, vinilo::text::Rank::Before), before, "{a} {b}");
    }
    let before = std::path::Path::new("x/../a") < std::path::Path::new("x/!/a");
    let rank = vinilo::steps::path_rank("x/../a", "x/!/a");
    assert_eq!(matches!(rank, vinilo::text::Rank::Before), before);
}
