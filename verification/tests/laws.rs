use std::cmp::Ordering;

use vinilo::aguja::app::{
    greeting, next_repeat, on_key, pick_language, App, KeyCode, KeyEvent, Pane, Steps, FRAME_MS,
};
use vinilo::aguja::browser::{section_at, slot, Showing};
use vinilo::aguja::panes::{header, key_hints, render, row, search_box};
use vinilo::aguja::ui::{fit, Span};
use vinilo::artwork::{cache_path, ART_SIZE};
use vinilo::discover::{rescue_stem, Discover, VERSION};
use vinilo::entry::Entry;
use vinilo::i18n::Language;
use vinilo::ipc::{CatalogFilter, Event, PageKind, QueueItem, Request, Section, Stage};
use vinilo::listen_history;
use vinilo::listen_stats::{record, set_artwork_file, File};
use vinilo::music::types::{Album, Artist, Artwork, Playlist, Track, TrackId};
use vinilo::page_cache;
use vinilo::paths::{cache_file, cache_name, legacy_cache_file, Env};
use vinilo::player::protocol::RepeatMode;
use vinilo::provider::Provider;
use vinilo::sort::SortBy;
use vinilo::streams::{title_is_raw_id, track_title_is_placeholder, StreamHit};

const SOURCES: [Provider; 5] = [
    Provider::AppleMusic,
    Provider::YoutubeMusic,
    Provider::Spotify,
    Provider::Tidal,
    Provider::Local,
];

fn track(title: &str) -> Track {
    Track {
        id: TrackId(format!("i.{title}")),
        catalog_id: Some(title.to_owned()),
        favorite: false,
        in_library: false,
        library_id: None,
        date_added: String::new(),
        year: String::new(),
        title: title.to_owned(),
        artist: String::new(),
        album: String::new(),
        duration_ms: 1_000,
        track_number: 1,
        artwork: None,
    }
}

fn album(name: &str) -> Album {
    Album {
        id: format!("al.{name}"),
        date_added: String::new(),
        name: name.to_owned(),
        artist: String::new(),
        artwork: None,
        year: String::new(),
        library: false,
        track_count: 1,
    }
}

fn playlist(name: &str) -> Playlist {
    Playlist {
        id: format!("pl.{name}"),
        date_added: String::new(),
        last_modified: String::new(),
        name: name.to_owned(),
        curator: String::new(),
        description: String::new(),
        artwork: None,
        library: false,
    }
}

fn artist(name: &str) -> Artist {
    Artist {
        id: format!("ar.{name}"),
        name: name.to_owned(),
        artwork: None,
        genres: String::new(),
        library: false,
    }
}

fn env() -> Env {
    Env {
        cache_home: None,
        state_home: None,
        config_home: None,
        home: Some("/home/a".into()),
    }
}

fn words(line: &[Span]) -> String {
    line.iter().map(|s| s.text.as_str()).collect()
}

fn press(code: KeyCode, app: &mut App) -> (bool, Vec<Request>) {
    let mut link = Vec::new();
    let steps = Steps { down: 0, up: 0 };
    let key = KeyEvent { code, control: false };
    let goes_on = on_key(key, &mut link, app, Language::English, steps, 7);
    (goes_on, link)
}

#[test]
fn songs_are_ordered_by_their_key_and_then_by_title() {
    let a = Track { artist: "b".into(), ..track("A") };
    let b = Track { artist: "A".into(), ..track("b") };
    assert_eq!(SortBy::Title.compare(&a, &b), Ordering::Less);
    assert_eq!(SortBy::Artist.compare(&a, &b), Ordering::Greater);
    assert_eq!(SortBy::Artist.compare(&b, &a), Ordering::Less);
    assert_eq!(SortBy::Added.compare(&a, &b), Ordering::Less);

    let first = Track { album: "X".into(), track_number: 1, ..track("z") };
    let second = Track { album: "x".into(), track_number: 2, ..track("a") };
    assert_eq!(SortBy::Album.compare(&first, &second), Ordering::Less);
    let again = Track { album: "x".into(), track_number: 2, ..track("b") };
    assert_eq!(SortBy::Album.compare(&second, &again), Ordering::Less);

    let old = Track { year: "1971".into(), ..track("z") };
    let new = Track { year: "2024".into(), ..track("a") };
    assert_eq!(SortBy::Year.compare(&old, &new), Ordering::Less);
    assert_eq!(SortBy::Year.compare(&old, &old), Ordering::Equal);
}

#[test]
fn albums_playlists_and_artists_are_ordered_by_what_they_have() {
    let a = Album { date_added: "2024".into(), ..album("a") };
    let b = Album { date_added: "2023".into(), ..album("b") };
    assert_eq!(SortBy::Added.compare_album(&a, &b), Ordering::Greater);
    assert_eq!(SortBy::Updated.compare_album(&a, &b), Ordering::Less);
    let p = Playlist { last_modified: "2".into(), ..playlist("p") };
    let q = Playlist { last_modified: "1".into(), ..playlist("q") };
    assert_eq!(SortBy::Updated.compare_playlist(&p, &q), Ordering::Greater);
    assert_eq!(SortBy::Artist.compare_playlist(&p, &q), Ordering::Less);
    assert_eq!(SortBy::compare_artist(&artist("Ábc"), &artist("ábc")), Ordering::Equal);
    assert_eq!(SortBy::compare_artist(&artist("B"), &artist("a")), Ordering::Greater);
}

#[test]
fn a_sort_key_is_read_back_and_kept_where_it_applies() {
    for key in [
        SortBy::Title,
        SortBy::Artist,
        SortBy::Album,
        SortBy::Year,
        SortBy::Added,
        SortBy::Updated,
    ] {
        assert_eq!(SortBy::parse(key.id()), key);
        for view in [Section::Songs, Section::Albums, Section::Artists, Section::Playlists] {
            let keys = SortBy::for_view(view);
            assert_eq!(keys[0], SortBy::Title);
            let valid = key.valid_for(view);
            assert_eq!(valid, if keys.contains(&key) { key } else { SortBy::Title });
        }
    }
    assert_eq!(SortBy::parse("size"), SortBy::Title);
    assert!(SortBy::Year.descends_by_default());
    assert!(!SortBy::Album.descends_by_default());
    assert_eq!(SortBy::Added.label(Language::English), "Recently Added");
}

#[test]
fn repeat_and_the_kinds_go_round() {
    assert_eq!(next_repeat(RepeatMode::Off), RepeatMode::All);
    assert_eq!(next_repeat(RepeatMode::All), RepeatMode::One);
    assert_eq!(next_repeat(RepeatMode::One), RepeatMode::Off);
    let mut kind = CatalogFilter::default();
    let mut seen = vec![kind];
    loop {
        kind = kind.next();
        if kind == CatalogFilter::default() {
            break;
        }
        assert!(!seen.contains(&kind));
        seen.push(kind);
    }
    assert_eq!(seen.len(), 5);
}

#[test]
fn the_tab_strip_goes_round_in_both_directions() {
    let mut app = App::default();
    for place in [1usize, 2, 3] {
        let (_, link) = press(KeyCode::Tab, &mut app);
        assert_eq!(slot(app.browser.view), place);
        assert_eq!(section_at(place), app.browser.view);
        assert_eq!(link.len(), 1);
    }
    assert!(press(KeyCode::Tab, &mut app).1.is_empty());
    assert!(app.browser.showing.is_catalog());
    press(KeyCode::Tab, &mut app);
    assert_eq!(app.pane, Pane::Queue);
    press(KeyCode::Tab, &mut app);
    assert_eq!((app.pane, app.browser.view), (Pane::Browser, Section::Songs));
    press(KeyCode::BackTab, &mut app);
    assert_eq!(app.pane, Pane::Queue);
}

#[test]
fn no_key_edits_the_queue_or_sends_twice() {
    for code in [
        KeyCode::Char('d'),
        KeyCode::Char('i'),
        KeyCode::Char('k'),
        KeyCode::Enter,
        KeyCode::Char(' '),
        KeyCode::Left,
        KeyCode::PageDown,
        KeyCode::Char('6'),
        KeyCode::Char('3'),
    ] {
        let mut app = App {
            stage: Stage::Ready,
            pane: Pane::Queue,
            ..Default::default()
        };
        let items: Vec<QueueItem> = ["a", "b", "c"]
            .iter()
            .map(|t| QueueItem { title: (*t).to_owned(), ..Default::default() })
            .collect();
        app.queue.replace(items, 1);
        let (goes_on, link) = press(code, &mut app);
        assert!(goes_on);
        assert!(link.len() <= 1, "{code:?}");
        let titles: Vec<&str> = app.queue.items.iter().map(|i| i.title.as_str()).collect();
        assert_eq!(titles, ["a", "b", "c"], "{code:?}");
        assert_eq!(app.queue.position, 1);
    }
}

#[test]
fn while_typing_a_letter_is_a_letter() {
    let mut app = App::default();
    app.browser.typing = true;
    for c in "qd6 ".chars() {
        assert!(press(KeyCode::Char(c), &mut app).0);
    }
    assert!(!app.quit_daemon);
    assert_eq!(app.browser.filter(), "qd6 ");
    press(KeyCode::Backspace, &mut app);
    assert_eq!(app.browser.filter(), "qd6");
    press(KeyCode::Esc, &mut app);
    assert_eq!((app.browser.filter(), app.browser.typing), ("", false));
    let (goes_on, _) = press(KeyCode::Char('q'), &mut app);
    assert!(!goes_on && app.quit_daemon);
}

#[test]
fn a_search_that_was_withdrawn_has_no_answer() {
    let mut app = App::default();
    press(KeyCode::Char('5'), &mut app);
    press(KeyCode::Char('a'), &mut app);
    let (_, link) = press(KeyCode::Enter, &mut app);
    assert_eq!(
        link,
        [Request::Search {
            query: "a".into(),
            filter: CatalogFilter::default(),
            offset: 0
        }]
    );
    let answer = |query: &str| Event::Results {
        query: query.into(),
        entries: vec![Entry::Song(track("one"))],
        offset: 0,
        more: false,
    };
    app.on_event(answer("b"), &mut Vec::new(), 0);
    assert!(app.browser.rows.is_empty());
    app.on_event(answer("a"), &mut Vec::new(), 0);
    assert_eq!(app.browser.rows.len(), 1);
    press(KeyCode::Char('1'), &mut app);
    press(KeyCode::BackTab, &mut app);
    press(KeyCode::BackTab, &mut app);
    assert_eq!(app.browser.rows.len(), 1, "the answer outlives a visit elsewhere");
}

#[test]
fn the_clock_runs_while_playing_and_stops_at_the_end() {
    let mut app = App::default();
    app.snap.duration_ms = 250;
    assert!(!app.tick(0));
    app.snap.playing = true;
    for expected in [FRAME_MS, 2 * FRAME_MS, 250, 250] {
        assert!(app.tick(0));
        assert_eq!(app.snap.position_ms, expected);
    }
}

#[test]
fn a_client_subscribes_before_it_asks() {
    assert_eq!(
        greeting(),
        [Request::Subscribe, Request::Stage, Request::Snapshot, Request::Queue]
    );
    assert_eq!(pick_language(KeyCode::Char('E')), Some(Language::English));
    assert_eq!(pick_language(KeyCode::Char('2')), Some(Language::Spanish));
    assert_eq!(pick_language(KeyCode::Char('3')), None);
}

#[test]
fn how_to_leave_is_always_shown() {
    for width in [0usize, 10, 40, 300] {
        for pane in [Pane::Browser, Pane::Queue] {
            let line = words(&key_hints(width, pane, false, false));
            assert!(line.ends_with("[Ctrl+C] hide   [q] quit   "), "{line}");
        }
    }
    assert_eq!(words(&key_hints(0, Pane::Queue, true, false)), "[Ctrl+C] hide   [q] quit   ");
    assert!(words(&key_hints(200, Pane::Browser, true, true)).contains("search Apple Music"));
}

#[test]
fn a_narrow_window_loses_the_least_useful_hints() {
    let line = words(&key_hints(71, Pane::Browser, false, false));
    assert_eq!(line, "[space] play/pause   [↑↓] move   [Ctrl+C] hide   [q] quit   ");
    for width in 27usize..200 {
        for pane in [Pane::Browser, Pane::Queue] {
            assert!(words(&key_hints(width, pane, false, false)).chars().count() <= width);
        }
    }
    let line = words(&key_hints(82, Pane::Queue, false, false));
    assert_eq!(
        line,
        "[space] play/pause   [↑↓] move   [↵] play   [⇥] tabs   [Ctrl+C] hide   [q] quit   "
    );
}

#[test]
fn a_text_takes_its_column() {
    assert_eq!(fit("abc", 5), "abc  ");
    assert_eq!(fit("abc", 3), "abc");
    assert_eq!(fit("abcd", 3), "ab…");
    assert_eq!(fit("ñandú", 1), "…");
    assert_eq!(fit("abc", 0), "");
    assert_eq!(fit("ñandú", 6), "ñandú ");
}

#[test]
fn a_row_leads_somewhere_or_streams() {
    let song = Entry::Song(Track {
        artist: "Yes".into(),
        album: "Fragile".into(),
        ..track("Roundabout")
    });
    assert_eq!(song.page_target(), None);
    assert_eq!(song.catalog_id(), Some("Roundabout"));
    assert_eq!(song.subtitle(), "Yes — Fragile");
    let page = Entry::Album(Album {
        library: true,
        artist: "Yes".into(),
        ..album("Fragile")
    });
    assert!(page.opens_a_page());
    assert_eq!(page.catalog_id(), None);
    assert_eq!(page.page_target(), Some((PageKind::LibraryAlbum, "al.Fragile".into())));
    assert_eq!(page.subtitle(), "Yes");
    assert_eq!(words(&row(&song, false, 20)), "  Roundabout       ");
    assert_eq!(words(&row(&page, true, 20)), "▸ Fragile        ");
}

#[test]
fn the_pane_says_what_it_shows() {
    let mut app = App::default();
    let line = words(&header(&app.browser, None, 80, Language::English));
    assert!(line.starts_with("SONGS   albums   artists   playlists   apple music   queue ─"));
    assert!(line.ends_with("[↓ title]"), "{line}");
    let line = words(&header(&app.browser, Some(3), 80, Language::English));
    assert!(line.starts_with("songs ") && line.ends_with("[3]"), "{line}");
    app.browser.showing = Showing::Page {
        title: "Fragile".into(),
        subtitle: "Yes".into(),
        loading: true,
    };
    let line = words(&header(&app.browser, None, 80, Language::English));
    assert_eq!(line, "FRAGILE   Yes   opening…");

    *app.browser.filter_mut() = "abc".into();
    let drawn = search_box(&app.browser, 30);
    let shown: Vec<String> = drawn.iter().map(|l| words(l)).collect();
    assert_eq!(
        shown,
        [
            "┌── filter the library ──────┐",
            "│ abc                        │",
            "└────────────────────────────┘"
        ]
    );
    let empty = render(&mut app.browser, 30, 3);
    assert_eq!(words(&empty[0]), "Opening…");
    app.browser.rows = vec![Entry::Song(track("a")), Entry::Song(track("b"))];
    assert_eq!(render(&mut app.browser, 30, 1).len(), 1);
}

#[test]
fn no_two_sources_share_a_file() {
    for (i, a) in SOURCES.iter().enumerate() {
        assert_eq!(Provider::from_index(a.index()), *a);
        for b in &SOURCES[i + 1..] {
            assert_ne!(cache_name("library", *a), cache_name("library", *b));
        }
    }
    assert_eq!(
        cache_file(&env(), "discover", Some(Provider::Spotify)).as_deref(),
        Some("/home/a/.cache/vinilo/discover-spotify.json")
    );
    assert_eq!(
        cache_file(&env(), "discover", None),
        legacy_cache_file(&env(), "discover")
    );
}

#[test]
fn a_cover_is_kept_by_its_address_and_size() {
    let art = Artwork { template: "https://x/a.jpg".into() };
    assert_eq!(
        cache_path(&env(), &art, ART_SIZE).as_deref(),
        Some("/home/a/.cache/vinilo/artwork/https___x_a.jpg-512.jpg")
    );
}

#[test]
fn pages_of_two_kinds_have_two_names() {
    assert_eq!(page_cache::file_name(PageKind::Album, "1"), "album-1.json");
    assert_ne!(
        page_cache::file_name(PageKind::Album, "1"),
        page_cache::file_name(PageKind::LibraryAlbum, "1")
    );
    assert_eq!(
        page_cache::path(&env(), PageKind::Playlist, "../x").as_deref(),
        Some("/home/a/.cache/vinilo/pages/playlist-.._x.json")
    );
}

#[test]
fn a_song_of_another_catalogue_is_a_hit() {
    let t = Track {
        catalog_id: Some("sp:1".into()),
        artist: "Yes".into(),
        ..track("Roundabout")
    };
    let hit = StreamHit::from_song(&t).unwrap();
    assert_eq!((hit.id.as_str(), hit.play_query.as_str()), ("sp:1", "Yes Roundabout"));
    assert!(StreamHit::from_song(&track("1")).is_none());
    assert!(title_is_raw_id("yt:abc", "abc"));
    assert!(!title_is_raw_id("sp:abc", "abc"));
    assert!(track_title_is_placeholder(&Track {
        catalog_id: Some("yt:abc".into()),
        ..track("abc")
    }));
}

#[test]
fn a_kept_page_is_opened_by_its_own_source() {
    let spotify = |provider: &str| Discover {
        version: VERSION,
        provider: provider.into(),
        charts: vec![
            Entry::Album(Album { id: "sp:album:1".into(), ..album("a") }),
            Entry::Song(Track { catalog_id: Some("yt:abc".into()), ..track("abc") }),
        ],
        ..Discover::default()
    };
    let opened = spotify("spotify").accept(Some(Provider::Spotify));
    assert_eq!(opened.charts.len(), 1, "a bare video id is no title");
    assert!(spotify("spotify").accept(Some(Provider::AppleMusic)).is_empty());
    assert!(spotify("").accept(None).is_empty());
    assert!(!spotify("").accept(Some(Provider::Spotify)).is_empty());
    assert!(spotify("spotify").accept(Some(Provider::Local)).is_empty());
    let old = Discover { version: 1, ..spotify("spotify") };
    assert!(old.accept(Some(Provider::Spotify)).is_empty());

    assert_eq!(rescue_stem(&spotify("")), Some("spotify"));
    assert_eq!(rescue_stem(&spotify("tidal")), Some("tidal"));
    assert_eq!(rescue_stem(&Discover::default()), None);
    assert!(Discover::default().to_write(None).is_none());
    let written = spotify("").to_write(Some(Provider::Tidal)).unwrap();
    assert_eq!((written.version, written.provider.as_str()), (VERSION, "tidal"));
}

#[test]
fn the_history_holds_a_song_once_and_is_bounded() {
    let mut heard: Vec<Track> = Vec::new();
    for i in 0..100 {
        heard = listen_history::record(&heard, track(&format!("t{}", i % 60)));
        assert_eq!(heard[0].title, format!("t{}", i % 60));
    }
    assert!(heard.len() <= listen_history::KEEP);
    let again = heard.iter().filter(|t| t.title == heard[0].title).count();
    assert_eq!(again, 1);
}

#[test]
fn a_cover_is_set_on_the_song_it_belongs_to() {
    let mut kept = File::new();
    record(&mut kept, &track("a"), 5, 1);
    assert!(set_artwork_file(&mut kept, "a", "/tmp/a.jpg"));
    assert!(!set_artwork_file(&mut kept, "b", "/tmp/b.jpg"));
    assert!(!set_artwork_file(&mut kept, "", "/tmp/b.jpg"));
    assert_eq!(kept.tracks.len(), 1);
    assert_eq!(kept.tracks[0].1.artwork.as_deref(), Some("/tmp/a.jpg"));
}
