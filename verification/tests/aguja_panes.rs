use vinilo::aguja::app::{on_key, App, KeyCode, KeyEvent, Notice, Pane, Steps};
use vinilo::aguja::app::{silence, spectrum_redraw_due, SPECTRUM_FRAME};
use vinilo::aguja::browser::{Browser, Showing, Sorts};
use vinilo::aguja::panes::key_hints;
use vinilo::aguja::queue::Queue;
use vinilo::aguja::theme::{parse, reply_ended, Rgb};
use vinilo::aguja::ui::{any_sound, bars, clock, columns, meter, rest, stage_text, Span};
use vinilo::entry::Entry;
use vinilo::i18n::Language;
use vinilo::ipc::{CatalogFilter, Event, QueueItem, Request, Section, Snapshot, Stage, Transport};
use vinilo::music::types::{Track, TrackId};
use vinilo::sort::SortBy;

fn song(id: Option<&str>) -> Entry {
    Entry::Song(Track {
        date_added: String::new(),
        year: String::new(),
        favorite: false,
        in_library: true,
        library_id: None,
        id: TrackId(String::from("l.1")),
        catalog_id: id.map(String::from),
        title: "A Song".into(),
        artist: "Someone".into(),
        album: "An Album".into(),
        duration_ms: 180_000,
        track_number: 1,
        artwork: None,
    })
}

#[test]
fn unplayable_rows_do_not_shift_the_starting_track() {
    let mut b = Browser::default();
    b.replace(
        vec![song(None), song(Some("c1")), song(None), song(Some("c2"))],
        4,
    );
    b.cursor = 3;
    let (ids, index) = b.queue_from_here();
    assert_eq!(ids, vec!["c1", "c2"]);
    assert_eq!(index, 1, "counted rows the daemon is about to discard");
}

#[test]
fn an_empty_catalog_invites_a_search_rather_than_reporting_none() {
    let mut b = Browser {
        showing: Showing::Catalog { searching: false },
        ..Default::default()
    };
    assert!(b.filter().is_empty());
    assert!(b.showing.is_catalog());

    *b.filter_mut() = "odesza".into();
    assert!(b.showing.is_catalog(), "still the catalog once asked");
}

#[test]
fn a_shorter_list_cannot_strand_the_cursor() {
    let mut b = Browser::default();
    b.replace((0..10).map(|_| song(Some("c"))).collect(), 10);
    b.cursor = 9;
    b.replace(vec![song(Some("c"))], 1);
    assert_eq!(b.cursor, 0);
}

#[test]
fn the_cursor_stays_on_screen() {
    let mut b = Browser::default();
    b.replace((0..200).map(|_| song(Some("c"))).collect(), 200);
    for target in [0usize, 120, 199, 7] {
        b.cursor = target;
        b.scroll(12);
        assert!((b.offset..b.offset + 12).contains(&b.cursor), "{target}");
    }
}

#[test]
fn signed_out_clears_account_rows_and_keeps_browser_choices() {
    let mut b = Browser {
        view: Section::Albums,
        kinds: CatalogFilter::Artists,
        sorts: Sorts {
            songs: (SortBy::Title, false),
            albums: (SortBy::Year, true),
            artists: (SortBy::Title, false),
            playlists: (SortBy::Title, false),
        },
        ..Default::default()
    };
    *b.filter_mut() = "old album".into();
    b.showing = Showing::Catalog { searching: true };
    *b.filter_mut() = "old catalog search".into();
    b.rows = vec![song(Some("old"))];
    b.found = b.rows.clone();
    b.cursor = 1;
    b.typing = true;
    b.more = true;
    b.paging = true;
    b.from_catalog = true;
    b.total = 1;
    b.offset = 1;

    b.clear_account_state();

    assert_eq!(b.view, Section::Albums);
    assert_eq!(b.kinds, CatalogFilter::Artists);
    assert_eq!(b.sorts.albums, (SortBy::Year, true));
    assert!(matches!(b.showing, Showing::Library));
    assert!(b.rows.is_empty());
    assert!(b.found.is_empty());
    assert!(b.filters.none());
    assert_eq!(b.cursor, 0);
    assert!(!b.typing);
    assert!(!b.more);
    assert!(!b.paging);
    assert!(!b.from_catalog);
    assert_eq!(b.total, 0);
    assert_eq!(b.offset, 0);
}

fn press(code: KeyCode, link: &mut Vec<Request>, app: &mut App) -> bool {
    let key = KeyEvent { code, control: false };
    let volume = f64::from_bits(app.snap.volume);
    let steps = Steps {
        down: (volume - 0.05).to_bits(),
        up: (volume + 0.05).to_bits(),
    };
    on_key(key, link, app, Language::English, steps, 0)
}

#[test]
fn a_volume_key_steps_from_the_last_press() {
    let mut requests = Vec::new();
    let mut app = App::default();
    app.snap.volume = 0.9f64.to_bits();
    for expected in [0.9 + 0.05, 1.0, 1.0] {
        assert!(press(KeyCode::Char('+'), &mut requests, &mut app));
        assert_eq!(f64::from_bits(app.snap.volume), expected);
        assert_eq!(
            requests.pop(),
            Some(Request::Transport(Transport::SetVolume {
                volume: app.snap.volume
            }))
        );
    }
    app.snap.volume = 0.03f64.to_bits();
    assert!(press(KeyCode::Char('-'), &mut requests, &mut app));
    assert_eq!(f64::from_bits(app.snap.volume), 0.0);
    assert_eq!(requests.len(), 1);
}

#[test]
fn signed_out_enter_requests_sign_in_before_typing_consumes_it() {
    let mut requests = Vec::new();
    let mut app = App {
        stage: Stage::SignedOut,
        ..Default::default()
    };
    app.browser.typing = true;

    assert!(press(KeyCode::Enter, &mut requests, &mut app));
    assert!(matches!(requests.first().expect("sign-in request"), Request::SignIn));
}

#[test]
fn other_stages_do_not_request_sign_in() {
    for stage in [
        Stage::Connecting,
        Stage::Ready,
        Stage::Broken {
            detail: "failed".into(),
        },
    ] {
        let mut requests = Vec::new();
        let mut app = App {
            stage,
            ..Default::default()
        };

        assert!(press(KeyCode::Enter, &mut requests, &mut app));
        assert!(requests.is_empty());
    }
}

#[test]
fn signed_out_clears_transient_player_state_and_keeps_choices() {
    let mut requests = Vec::new();
    let mut app = App {
        snap: Snapshot {
            track_id: Some("old".into()),
            title: "Old song".into(),
            volume: 0.75f64.to_bits(),
            playing: true,
            ..Default::default()
        },
        ..Default::default()
    };
    app.browser.view = Section::Albums;
    app.browser.kinds = CatalogFilter::Artists;
    app.browser.sorts.albums = (SortBy::Year, true);
    app.browser.showing = Showing::Catalog { searching: true };
    *app.browser.filter_mut() = "old search".into();
    app.queue.replace(
        vec![QueueItem {
            title: "Old song".into(),
            ..Default::default()
        }],
        0,
    );
    app.pane = Pane::Queue;
    app.message = Some(Notice::bad("old error", 0));
    app.bars = vec![1.0f32.to_bits(); 96];

    app.on_event(Event::Stage(Stage::SignedOut), &mut requests, 0);

    assert_eq!(app.stage, Stage::SignedOut);
    assert!(app.snap.track_id.is_none());
    assert!(app.snap.title.is_empty());
    assert_eq!(f64::from_bits(app.snap.volume), 0.75);
    assert!(app.queue.items.is_empty());
    assert!(matches!(app.pane, Pane::Browser));
    assert!(app.message.is_none());
    assert_eq!(app.bars, vec![0.0f32.to_bits(); 96]);
    assert_eq!(app.bars, silence());
    assert_eq!(app.browser.view, Section::Albums);
    assert_eq!(app.browser.kinds, CatalogFilter::Artists);
    assert_eq!(app.browser.sorts.albums, (SortBy::Year, true));
    assert!(matches!(app.browser.showing, Showing::Library));
    assert!(app.browser.catalog_query().is_empty());
}

#[test]
fn library_change_reloads_the_visible_aguja_section() {
    let mut requests = Vec::new();
    let mut app = App {
        stage: Stage::Ready,
        ..Default::default()
    };
    app.browser.view = Section::Albums;

    app.on_event(Event::LibraryChanged, &mut requests, 0);

    assert!(matches!(
        requests.first().expect("browse request"),
        Request::Browse {
            view: Section::Albums,
            ..
        }
    ));
}

#[test]
fn uppercase_r_requests_a_library_refresh() {
    let mut requests = Vec::new();
    let mut app = App {
        stage: Stage::Ready,
        ..Default::default()
    };

    assert!(press(KeyCode::Char('R'), &mut requests, &mut app));

    assert!(matches!(requests.first().expect("refresh request"), Request::Refresh));
    assert!(app.refreshing_library);
}

#[test]
fn daemon_refresh_state_controls_the_aguja_indicator() {
    let mut requests = Vec::new();
    let mut app = App::default();

    app.on_event(Event::LibraryRefreshing { refreshing: true }, &mut requests, 0);
    assert!(app.refreshing_library);

    app.on_event(Event::LibraryRefreshing { refreshing: false }, &mut requests, 0);
    assert!(!app.refreshing_library);
}

#[test]
fn spectrum_redraws_are_limited_to_twenty_four_frames_per_second() {
    let start: u64 = 1_000_000_000;
    let mut last = start;

    assert!(!spectrum_redraw_due(&mut last, start + SPECTRUM_FRAME - 1));
    assert!(spectrum_redraw_due(&mut last, start + SPECTRUM_FRAME));
    assert_eq!(last, start + SPECTRUM_FRAME);
}

fn queue_of(n: usize) -> Queue {
    let mut q = Queue::default();
    q.replace(
        (0..n)
            .map(|i| QueueItem {
                id: Some(format!("t{i}")),
                title: format!("Track {i}"),
                artist: "Someone".into(),
                album: "An Album".into(),
                duration_ms: 180_000,
            })
            .collect(),
        0,
    );
    q
}

#[test]
fn an_untouched_cursor_follows_the_music() {
    let mut q = queue_of(10);
    q.replace(q.items.clone(), 4);
    assert_eq!(q.cursor, 4);

    let mut fresh = Queue::default();
    fresh.replace(queue_of(10).items, 7);
    assert_eq!(fresh.cursor, 7, "a new client opened on the wrong track");
}

#[test]
fn a_cursor_moved_by_hand_stops_following() {
    let mut q = queue_of(10);
    q.move_cursor(7);
    q.replace(q.items.clone(), 4);
    assert_eq!(q.cursor, 7);
}

#[test]
fn a_shorter_queue_cannot_strand_the_cursor() {
    let mut q = queue_of(10);
    q.move_cursor(9);
    let two = q.items[..2].to_vec();
    q.replace(two, 0);
    assert_eq!(q.cursor, 1);
}

#[test]
fn a_reorder_at_either_end_is_refused_rather_than_clamped() {
    let mut q = queue_of(3);
    assert_eq!(q.swap_target(-1), None);
    assert_eq!(q.swap_target(1), Some(1));
    q.move_cursor(2);
    assert_eq!(q.swap_target(1), None);
}

#[test]
fn the_cursor_stays_on_screen_however_far_it_moves() {
    let mut q = queue_of(100);
    for target in [0usize, 50, 99, 3] {
        q.cursor = target;
        q.scroll(10);
        assert!(
            (q.offset..q.offset + 10).contains(&q.cursor),
            "cursor {target} off screen at offset {}",
            q.offset
        );
        assert!(q.offset + 10 <= 100, "scrolled past the end");
    }
}

#[test]
fn a_reply_is_read_at_whatever_width_it_comes_in() {
    assert_eq!(
        parse("\x1b]11;rgb:ffff/ffff/ffff\x07"),
        Some(Rgb { red: 255, green: 255, blue: 255 })
    );
    assert_eq!(
        parse("\x1b]11;rgb:ff/00/80\x07"),
        Some(Rgb { red: 255, green: 0, blue: 128 })
    );
    assert_eq!(parse("no reply at all"), None);
}

#[test]
fn a_reply_ends_with_a_bell_or_a_string_terminator() {
    assert!(!reply_ended(&b"\x1b]11;rgb:ff/00/80".to_vec()));
    assert!(reply_ended(&b"\x1b]11;rgb:ff/00/80\x07".to_vec()));
    assert!(reply_ended(&b"\x1b]11;rgb:ff/00/80\x1b\\".to_vec()));
    assert!(!reply_ended(&b"\\\x1b".to_vec()));
    assert!(!reply_ended(&Vec::new()));
}

#[test]
fn signed_out_status_names_the_sign_in_key() {
    assert_eq!(stage_text(&Stage::SignedOut), "[Enter] Sign in to Apple Music");
}

#[test]
fn other_stage_statuses_stay_the_same() {
    assert_eq!(stage_text(&Stage::Connecting), "Starting the playback engine…");
    assert_eq!(stage_text(&Stage::Ready), "");
    assert_eq!(
        stage_text(&Stage::Broken {
            detail: "failed".into()
        }),
        "Playback unavailable: failed"
    );
}

fn words(line: &[Span]) -> String {
    line.iter().map(|s| s.text.as_str()).collect()
}

#[test]
fn browser_hints_advertise_manual_refresh() {
    let text = words(&key_hints(300, Pane::Browser, false, false));
    assert!(text.contains("[R] refresh"));
}

/// How many eighths of a column each level fills, over so many rows.
fn heights(levels: &[f32], width: usize, rows: usize) -> Vec<usize> {
    let bits = levels.iter().map(|v| v.to_bits()).collect();
    columns(&bits, width)
        .iter()
        .map(|v| (f32::from_bits(*v).clamp(0.0, 1.0) * (rows * 8) as f32).round() as usize)
        .collect()
}

#[test]
fn a_silent_bar_is_a_space_rather_than_a_stub() {
    let glyphs = |rows: Vec<Vec<Span>>| rows.iter().map(|r| words(r)).collect::<Vec<_>>();
    assert_eq!(glyphs(bars(&heights(&[0.0, 0.0], 2, 2), 2)), vec!["  ", "  "]);
    assert_eq!(glyphs(bars(&heights(&[1.0], 1, 2), 2)), vec!["█", "█"]);
    assert_eq!(glyphs(bars(&heights(&[0.5], 1, 2), 2)), vec![" ", "█"]);
    assert_eq!(glyphs(bars(&heights(&[0.5], 1, 4), 4)), vec![" ", " ", "█", "█"]);
}

#[test]
fn the_bars_take_the_width_they_are_given() {
    let bands = [0.1, 0.9, 0.2, 0.8];
    for width in [1usize, 3, 4, 12, 80] {
        for rows in [2usize, 4, 6] {
            let drawn = bars(&heights(&bands, width, rows), rows);
            assert_eq!(drawn.len(), rows, "row count at {width}x{rows}");
            for row in &drawn {
                assert_eq!(row.len(), width, "row width at {width}x{rows}");
            }
        }
    }
}

#[test]
fn folding_bands_keeps_the_peak_rather_than_the_average() {
    let bits: Vec<u32> = [0.0f32, 1.0, 0.0, 0.0].iter().map(|v| v.to_bits()).collect();
    let folded: Vec<f32> = columns(&bits, 2).iter().map(|v| f32::from_bits(*v)).collect();
    assert_eq!(folded, vec![1.0, 0.0]);
}

#[test]
fn a_clock_grows_a_field_only_when_it_needs_one() {
    assert_eq!(clock(0), "0:00");
    assert_eq!(clock(63_000), "1:03");
    assert_eq!(clock(3_723_000), "1:02:03");
}

#[test]
fn a_meter_and_its_remainder_always_fill_the_width() {
    for width in [8usize, 25, 60, 137] {
        for pct in 0..=100 {
            let f = pct as f64 / 100.0;
            let filled = ((f * width as f64).round() as usize).min(width);
            assert_eq!(
                meter(filled, '━').chars().count() + rest(filled, width, '─').chars().count(),
                width,
                "at {pct}% and width {width}"
            );
        }
    }
}

#[test]
fn what_is_no_number_above_zero_is_silence() {
    let bits: Vec<u32> = [-1.0f32, f32::NAN, -0.0, 0.0].iter().map(|v| v.to_bits()).collect();
    assert_eq!(columns(&bits, 1), [0]);
    assert!(!any_sound(&bits));
    let bits: Vec<u32> = [-1.0f32, 0.25, f32::NAN].iter().map(|v| v.to_bits()).collect();
    assert_eq!(columns(&bits, 1), [0.25f32.to_bits()]);
    assert!(any_sound(&bits));
}
