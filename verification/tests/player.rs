use vinilo::player::protocol::{
    Command, Event, Item, PlaybackState, Queue, QueueChange, RepeatMode, Tokens,
};
use vinilo::player::sidecar::{
    candidates, dirs_data_dirs, dirs_data_home, electron_binary, locate, log_line, restart_delay,
    Handle, LogLine, Sent, MAX_PER_SECOND,
};
use vinilo::player::state::{corrected_position, PlayerState, SEEK_SETTLE};

fn q(titles: &[&str]) -> Vec<Item> {
    titles
        .iter()
        .map(|t| Item {
            id: Some((*t).to_owned()),
            title: (*t).to_owned(),
            ..Item::default()
        })
        .collect()
}

fn titles(s: &PlayerState) -> Vec<&str> {
    s.queue.iter().map(|i| i.title.as_str()).collect()
}

fn now_playing(item: &Item, position: i64, items: &[Item]) -> Event {
    Event::NowPlaying {
        item: Some(item.clone()),
        queue: Queue {
            position,
            items: items.to_vec(),
            reason: QueueChange::Position,
        },
    }
}

fn at(position_ms: u64, duration_ms: u64) -> Event {
    Event::Position { position_ms, duration_ms }
}

#[test]
fn an_optimistic_move_keeps_the_marker_on_the_playing_track() {
    let mut s = PlayerState::new();
    let items = q(&["a", "b", "c", "d", "e"]);
    s.apply(&now_playing(&items[2], 2, &items), 0);

    assert!(s.move_item(0, 4));
    assert_eq!(titles(&s), ["b", "c", "d", "e", "a"]);
    assert_eq!(s.queue_position, 1, "the marker follows the track, not the index");

    assert!(s.move_item(4, 0));
    assert_eq!(titles(&s), ["a", "b", "c", "d", "e"]);
    assert_eq!(s.queue_position, 2);
}

#[test]
fn a_reading_from_before_a_seek_does_not_drag_the_position_back() {
    let mut s = PlayerState::new();
    s.apply(&at(30_000, 240_000), 0);
    s.seeked_to(120_000, 0);

    s.apply(&at(30_400, 240_000), 0);
    assert_eq!(s.position_ms, 120_000, "a stale reading was taken");

    s.apply(&at(120_300, 240_000), 0);
    assert_eq!(s.position_ms, 120_300);
    s.apply(&at(121_300, 240_000), 0);
    assert_eq!(s.position_ms, 121_300, "still ignoring after the seek landed");
}

#[test]
fn a_seek_that_never_lands_does_not_freeze_the_position() {
    let mut s = PlayerState::new();
    s.seeked_to(120_000, 0);
    s.apply(&at(31_000, 240_000), SEEK_SETTLE * 2);
    assert_eq!(s.position_ms, 31_000, "gave up waiting and took the reading");
}

#[test]
fn a_queue_that_has_gone_away_empties_the_projection() {
    let mut s = PlayerState::new();
    let items = q(&["a", "b", "c"]);
    s.apply(&now_playing(&items[0], 0, &items), 0);
    assert_eq!(s.queue.len(), 3, "baseline");

    s.apply(
        &Event::Queue(Queue {
            position: -1,
            items: Vec::new(),
            reason: QueueChange::Items,
        }),
        0,
    );

    assert!(s.queue.is_empty(), "the mirror still believes in a dead queue");
    assert!(!s.has_next(), "and would offer to skip within it");
}

#[test]
fn a_move_that_cannot_happen_is_refused() {
    let mut s = PlayerState::new();
    s.apply(
        &Event::Queue(Queue {
            position: 0,
            items: q(&["a", "b"]),
            ..Default::default()
        }),
        0,
    );
    assert!(!s.move_item(0, 0), "a move to itself is not a move");
    assert!(!s.move_item(0, 9), "out of range");
    assert!(!s.move_item(9, 0), "out of range");
    assert_eq!(s.queue.len(), 2, "and nothing was disturbed");
}

#[test]
fn the_projection_re_finds_the_playing_track_after_an_edit() {
    let mut s = PlayerState::new();
    let items = q(&["a", "b", "c", "d"]);
    s.apply(&now_playing(&items[2], 2, &items), 0);
    assert_eq!(s.queue_position, 2, "baseline");

    s.apply(
        &Event::Queue(Queue {
            position: 2,
            items: q(&["b", "c", "d"]),
            reason: QueueChange::Items,
        }),
        0,
    );
    assert_eq!(s.queue_position, 1, "the playing track moved to 1; a stale report said 2");
    assert!(s.position_disagrees);
}

#[test]
fn musickits_pre_advance_is_not_a_disagreement_to_settle() {
    let mut s = PlayerState::new();
    let items = q(&["a", "b", "c"]);
    s.apply(&now_playing(&items[0], 0, &items), 0);

    s.apply(
        &Event::Queue(Queue {
            position: 1,
            items: items.clone(),
            reason: QueueChange::Position,
        }),
        0,
    );

    assert_eq!(s.queue_position, 0, "our copy still follows now_playing");
    assert!(!s.position_disagrees, "but MusicKit is right and must not be corrected");
}

#[test]
fn an_identical_disagreement_after_an_edit_is_still_settled() {
    let mut s = PlayerState::new();
    let items = q(&["a", "b", "c"]);
    s.apply(&now_playing(&items[0], 0, &items), 0);

    s.apply(
        &Event::Queue(Queue {
            position: 1,
            items: items.clone(),
            reason: QueueChange::Items,
        }),
        0,
    );

    assert_eq!(s.queue_position, 0);
    assert!(s.position_disagrees, "an edit leaves a genuinely stale index");
}

#[test]
fn nothing_said_is_no_edit() {
    assert_eq!(QueueChange::default(), QueueChange::Position);
    assert_eq!(Queue::default().reason, QueueChange::Position);
}

#[test]
fn a_report_that_agrees_is_taken_as_it_stands() {
    let items = q(&["a", "b", "c"]);
    let playing = items[1].clone();
    assert_eq!(corrected_position(1, &items, Some(&playing)), 1);
}

#[test]
fn removing_a_track_above_the_playing_one_is_corrected() {
    let items = q(&["a", "c", "d"]);
    let playing = Item {
        id: Some("c".into()),
        title: "c".into(),
        ..Item::default()
    };
    assert_eq!(corrected_position(2, &items, Some(&playing)), 1);
}

#[test]
fn a_duplicate_track_resolves_to_the_nearest_copy() {
    let items = q(&["x", "dup", "y", "z", "dup"]);
    let playing = Item {
        id: Some("dup".into()),
        title: "dup".into(),
        ..Item::default()
    };
    assert_eq!(corrected_position(4, &items, Some(&playing)), 4);
    assert_eq!(corrected_position(2, &items, Some(&playing)), 1);
}

#[test]
fn an_occurrence_id_resolves_the_exact_duplicate() {
    let mut items = q(&["x", "dup", "y", "z", "dup"]);
    items[1].occurrence_id = "run-a:10".into();
    items[4].occurrence_id = "run-a:11".into();
    let playing = items[4].clone();

    assert_eq!(corrected_position(2, &items, Some(&playing)), 4);
}

#[test]
fn nothing_playing_leaves_the_report_alone() {
    assert_eq!(corrected_position(7, &q(&["a", "b"]), None), 7);
}

#[test]
fn a_track_that_has_left_the_queue_keeps_the_report() {
    let items = q(&["a", "b"]);
    let gone = Item {
        id: Some("vanished".into()),
        title: "vanished".into(),
        ..Item::default()
    };
    assert_eq!(corrected_position(1, &items, Some(&gone)), 1);
}

fn item(title: &str, duration_ms: u64) -> Item {
    Item {
        title: title.to_owned(),
        duration_ms,
        ..Default::default()
    }
}

#[test]
fn now_playing_resets_position_and_takes_duration() {
    let mut s = PlayerState::new();
    s.position_ms = 90_000;
    s.apply(
        &Event::NowPlaying {
            item: Some(item("Heart of the Sunrise", 665_000)),
            queue: Queue::default(),
        },
        0,
    );
    assert_eq!(s.position_ms, 0, "a new track starts at zero");
    assert_eq!(s.duration_ms, 665_000);
}

#[test]
fn position_events_do_not_request_an_mpris_refresh() {
    let mut s = PlayerState::new();
    let changed = s.apply(&at(1_000, 0), 0);
    assert!(!changed, "per-second ticks must not signal PropertiesChanged");
}

#[test]
fn position_never_runs_past_the_end() {
    let mut s = PlayerState::new();
    s.apply(
        &Event::PlaybackState {
            state: PlaybackState::Playing,
        },
        0,
    );
    s.apply(&at(500_000, 500_000), 0);
    assert!(s.interpolated_position_ms(0) <= 500_000);
    assert!(s.interpolated_position_ms(3_600_000_000_000) <= 500_000);
}

#[test]
fn a_playing_position_moves_with_the_clock() {
    let mut s = PlayerState::new();
    s.apply(
        &Event::PlaybackState {
            state: PlaybackState::Playing,
        },
        0,
    );
    s.apply(&at(10_000, 500_000), 1_000_000_000);
    assert_eq!(s.interpolated_position_ms(3_500_000_000), 12_500);
}

#[test]
fn paused_position_does_not_drift() {
    let mut s = PlayerState::new();
    s.apply(&at(42_000, 300_000), 0);
    s.apply(
        &Event::PlaybackState {
            state: PlaybackState::Paused,
        },
        0,
    );
    assert_eq!(s.interpolated_position_ms(9_000_000_000), 42_000);
}

#[test]
fn a_paused_position_is_held_to_the_track() {
    let mut s = PlayerState::new();
    s.apply(&at(310_000, 300_000), 0);
    s.apply(
        &Event::PlaybackState {
            state: PlaybackState::Paused,
        },
        0,
    );
    assert_eq!(s.interpolated_position_ms(0), 300_000);
    assert_eq!(s.interpolated_position_ms(9_000_000_000), 300_000);
}

#[test]
fn queue_navigation_edges() {
    let mut s = PlayerState::new();
    let queue = |position| {
        Event::Queue(Queue {
            position,
            items: vec![item("a", 1), item("b", 1)],
            ..Default::default()
        })
    };
    s.apply(&queue(0), 0);
    assert!(s.has_next());
    assert!(!s.has_previous(), "nothing before the first track");

    s.apply(&queue(-1), 0);
    assert_eq!(s.queue_position, 0);
    assert!(!s.has_previous(), "cannot go back from 'not started'");

    s.apply(&queue(1), 0);
    assert!(!s.has_next(), "nothing after the last track");
    assert!(s.has_previous());
}

#[test]
fn a_real_queue_position_resolves() {
    let queue = Queue {
        position: 1,
        items: vec![Item::default(), Item::default()],
        ..Default::default()
    };
    assert_eq!(queue.index(), Some(1));
}

#[test]
fn a_position_past_the_end_is_not_current() {
    let queue = Queue {
        position: 5,
        items: vec![Item::default()],
        ..Default::default()
    };
    assert_eq!(queue.index(), None, "must not index out of bounds");
}

#[test]
fn a_position_before_the_start_is_not_current() {
    let queue = Queue {
        position: -1,
        items: vec![Item::default()],
        ..Default::default()
    };
    assert_eq!(queue.index(), None);
}

#[test]
fn tokens_never_appear_in_debug_output() {
    let t = Tokens {
        developer_token: "eyJhbGciOi.SECRET".into(),
        music_user_token: Some("ALSO_SECRET".into()),
        storefront: "gb".into(),
        authorized: true,
    };
    let shown = t.debug_text();
    assert!(!shown.contains("SECRET"), "token leaked into Debug: {shown}");
    assert!(shown.contains("gb"));
}

#[test]
fn a_storefront_is_quoted_in_debug_output() {
    let t = Tokens {
        developer_token: String::new(),
        music_user_token: None,
        storefront: "g\"b".into(),
        authorized: false,
    };
    assert!(t.debug_text().contains("\"g\\\"b\""));
}

#[test]
fn commands_are_named_as_the_sidecar_knows_them() {
    assert_eq!(Command::RemoveFromLibrary { id: String::new() }.name(), "removeFromLibrary");
    assert_eq!(Command::Unfavorite { id: String::new() }.name(), "unfavorite");
    assert_eq!(Command::SignOut.name(), "signOut");
    assert_eq!(Command::Play.name(), "play");
    assert_eq!(RepeatMode::default(), RepeatMode::Off);
}

fn delivered(h: &mut Handle, n: usize) -> usize {
    (0..n)
        .filter(|_| matches!(h.send(Command::Seek { position_ms: 500 }, 0), Sent::Deliver(_)))
        .count()
}

#[test]
fn a_command_storm_is_cut_off_at_the_ceiling() {
    let mut h = Handle::new(None);
    assert_eq!(
        delivered(&mut h, 5_000),
        MAX_PER_SECOND as usize,
        "the ceiling should have cut this off"
    );
}

#[test]
fn the_ceiling_is_per_command_kind() {
    let mut h = Handle::new(None);
    delivered(&mut h, 5_000);
    assert!(
        matches!(h.send(Command::Pause, 0), Sent::Deliver(Command::Pause)),
        "pause was collateral damage"
    );
}

#[test]
fn ordinary_use_never_reaches_it() {
    let mut h = Handle::new(None);
    assert_eq!(delivered(&mut h, 200), 200, "a real drag must not be clipped");
}

#[test]
fn a_storm_is_reported_once_and_over_in_a_second() {
    let mut h = Handle::new(None);
    delivered(&mut h, MAX_PER_SECOND as usize);
    let seek = || Command::Seek { position_ms: 1 };
    assert!(matches!(h.send(seek(), 1), Sent::Dropped { report: true }));
    assert!(matches!(h.send(seek(), 2), Sent::Dropped { report: false }));
    assert!(matches!(h.send(seek(), 2_000_000_000), Sent::Deliver(_)));
}

#[test]
fn backoff_grows_then_caps() {
    assert_eq!(restart_delay(0), 1);
    assert_eq!(restart_delay(1), 2);
    assert_eq!(restart_delay(3), 8);
    assert_eq!(restart_delay(5), 30);
    assert_eq!(restart_delay(99), 30, "must stay bounded");
}

#[test]
fn a_missing_electron_names_the_fix() {
    let msg = electron_binary("/nonexistent/vinilo", false).unwrap_err();
    assert!(msg.contains("make sidecar"), "unhelpful error: {msg}");
    assert!(msg.contains("/nonexistent/vinilo"), "should say where it looked: {msg}");
    assert_eq!(
        electron_binary("/x", true).unwrap(),
        "/x/node_modules/electron/dist/electron"
    );
}

#[test]
fn the_system_data_dirs_default_to_what_xdg_mandates() {
    let dirs = dirs_data_dirs(None);
    assert!(!dirs.is_empty(), "there must always be somewhere to look");
    assert!(dirs.iter().all(|p| p.starts_with('/')));
    assert_eq!(dirs, ["/usr/local/share", "/usr/share"]);
    assert_eq!(dirs_data_dirs(Some("")), dirs);
    assert_eq!(dirs_data_dirs(Some("/a::/b")), ["/a", "/b"]);
}

#[test]
fn the_sidecar_is_looked_for_in_order() {
    let home = dirs_data_home(&None, &Some("/home/x".into())).unwrap();
    assert_eq!(home, "/home/x/.local/share");
    let places = candidates(None, Some(home.as_str()), &vec!["/usr/share".to_owned()], None);
    assert_eq!(
        places,
        ["/home/x/.local/share/vinilo/sidecar", "/usr/share/vinilo/sidecar"]
    );
    assert_eq!(locate(&places, &vec![false, true]).unwrap(), places[1]);
    let msg = locate(&places, &vec![false, false]).unwrap_err();
    assert!(msg.contains(&places.join(", ")), "{msg}");
    assert!(msg.contains("make sidecar"), "{msg}");
}

#[test]
fn a_line_of_the_log_is_told_apart() {
    assert_eq!(log_line("   "), LogLine::Blank);
    assert_eq!(log_line("[sidecar] up"), LogLine::Engine("up".into()));
    assert_eq!(log_line("[1:2:ERROR] gpu"), LogLine::Browser);
}
