use vinilo::double::clamp_unit;
use vinilo::mpris::exported::{UpdateBatch, Updates, ViniloPlayer};
use vinilo::mpris::track_list::{context_window, Projection, TrackId};
use vinilo::mpris::{
    changed_player_properties, Capabilities, LoopStatus, MprisCommand, MprisState, PlaybackStatus,
    Property, TrackListNotification,
};
use vinilo::player::protocol::{Item, RepeatMode};
use vinilo::APP_ID;

fn local_player(state: MprisState) -> ViniloPlayer {
    ViniloPlayer::new(state, Capabilities::windowed())
}

fn queue_item(occurrence_id: &str, title: &str) -> Item {
    Item {
        occurrence_id: occurrence_id.into(),
        id: Some("song-a".into()),
        title: title.into(),
        ..Default::default()
    }
}

fn queue_state(queue: Vec<Item>, current: usize) -> MprisState {
    MprisState {
        current_item: queue.get(current).cloned(),
        queue,
        queue_position: current,
        ..Default::default()
    }
}

fn numbered(n: usize) -> Vec<Item> {
    (0..n)
        .map(|index| queue_item(&format!("run:{index}"), &format!("Track {index}")))
        .collect()
}

fn track_id(path: &str) -> TrackId {
    TrackId::parse(path).expect("valid object path")
}

fn assert_structural_notifications(initial: MprisState, next: MprisState) {
    let mut player = local_player(initial);

    let (_, notifications) = player.update_state(next);
    let tracks = player.track_list.tracks();
    let current_track = player.track_list.current().unwrap_or(TrackId::no_track());

    assert_eq!(
        notifications,
        [
            TrackListNotification::Replaced {
                tracks,
                current_track,
            },
            TrackListNotification::TracksInvalidated,
        ]
    );
}

#[test]
fn status_maps_the_three_mpris_states() {
    let playing = MprisState {
        playing: true,
        ..Default::default()
    };
    assert_eq!(playing.status(), PlaybackStatus::Playing);

    let paused = MprisState::default();
    assert_eq!(paused.status(), PlaybackStatus::Paused);

    let stopped = MprisState {
        stopped: true,
        playing: true,
        ..Default::default()
    };
    assert_eq!(stopped.status(), PlaybackStatus::Stopped);
}

#[test]
fn position_is_not_part_of_the_metadata_diff() {
    let a = MprisState {
        title: "Roundabout".into(),
        position_ms: 1_000,
        ..Default::default()
    };
    let b = MprisState {
        position_ms: 90_000,
        ..a.clone()
    };
    assert!(!b.metadata_changed_from(&a));
    assert!(changed_player_properties(Some(&a), &b, None, false).is_empty());
}

#[test]
fn player_property_changes_match_the_existing_export() {
    let previous = MprisState::default();
    let state = MprisState {
        title: "Roundabout".into(),
        playing: true,
        can_next: true,
        can_previous: true,
        volume: 0.4f64.to_bits(),
        shuffle: true,
        repeat: RepeatMode::One,
        ..Default::default()
    };
    let moved = f64::from_bits(previous.volume) != f64::from_bits(state.volume);

    assert_eq!(
        changed_player_properties(Some(&previous), &state, None, moved),
        [
            ("metadata", Property::Metadata(state.metadata(None))),
            ("playback status", Property::PlaybackStatus(PlaybackStatus::Playing)),
            ("can-go-next", Property::CanGoNext(true)),
            ("can-go-previous", Property::CanGoPrevious(true)),
            ("volume", Property::Volume(0.4f64.to_bits())),
            ("shuffle", Property::Shuffle(true)),
            ("loop status", Property::LoopStatus(LoopStatus::Track)),
        ]
    );
}

#[test]
fn art_url_is_a_file_uri() {
    let state = MprisState {
        art_path: Some("/home/x/.cache/vinilo/artwork/ab-512.jpg".into()),
        ..Default::default()
    };
    let art = state.metadata(None).art_url.expect("art url");
    assert!(art.starts_with("file:///"), "GNOME Shell needs a file:// path, got {art}");
}

#[test]
fn repeat_maps_onto_the_loop_status_that_means_the_same_thing() {
    let mode = |repeat| {
        MprisState {
            repeat,
            ..Default::default()
        }
        .loop_status()
    };

    assert_eq!(mode(RepeatMode::Off), LoopStatus::Off);
    assert_eq!(mode(RepeatMode::All), LoopStatus::Playlist);
    assert_eq!(mode(RepeatMode::One), LoopStatus::Track);
}

#[test]
fn shuffle_and_repeat_are_not_part_of_the_metadata_diff() {
    let off = MprisState {
        title: "Roundabout".into(),
        ..Default::default()
    };
    let on = MprisState {
        shuffle: true,
        repeat: RepeatMode::One,
        ..off.clone()
    };
    assert!(!on.metadata_changed_from(&off));
    assert_ne!(off.loop_status(), on.loop_status());
}

#[test]
fn an_unknown_length_is_omitted_rather_than_sent_as_zero() {
    let state = MprisState::default();
    assert!(
        state.metadata(None).length.is_none(),
        "a zero length would render as a 0:00 track"
    );
}

#[test]
fn local_root_matches_the_existing_export() {
    let player = local_player(MprisState::default());

    assert!(player.can_raise());
    assert!(player.can_quit());
    assert!(!player.fullscreen());
    assert!(!player.can_set_fullscreen());
    assert!(player.has_track_list());
    assert_eq!(player.identity(), "Vinilo");
    assert_eq!(player.desktop_entry(), APP_ID);
    assert!(player.opens().is_empty());

    assert_eq!(
        [player.raise(), player.quit()],
        [MprisCommand::Raise, MprisCommand::Quit]
    );

    let headless = ViniloPlayer::new(MprisState::default(), Capabilities::headless());
    assert!(!headless.can_raise());
    assert!(!headless.can_quit());
}

#[test]
fn local_player_reports_the_current_state() {
    let item = queue_item("run:1", "Roundabout");
    let state = MprisState {
        current_item: Some(item.clone()),
        queue: vec![item],
        title: "Roundabout".into(),
        position_ms: 12_345,
        playing: true,
        can_next: true,
        can_previous: true,
        volume: 0.4f64.to_bits(),
        shuffle: true,
        repeat: RepeatMode::One,
        ..Default::default()
    };
    let player = local_player(state.clone());
    let current_track = player.tracks()[0].clone();

    assert_eq!(player.playback_status(), state.status());
    assert_eq!(player.loop_status(), state.loop_status());
    assert_eq!(f64::from_bits(player.rate()), 1.0);
    assert!(player.shuffle());
    assert_eq!(player.metadata(), state.metadata(Some(current_track)));
    assert_eq!(f64::from_bits(player.volume()), 0.4);
    assert_eq!(player.position(), 12_345);
    assert!(player.can_go_next());
    assert!(player.can_go_previous());
    assert!(player.can_control());
}

#[test]
fn local_controls_map_to_existing_commands() {
    let item = queue_item("run:1", "Roundabout");
    let state = MprisState {
        current_item: Some(item.clone()),
        queue: vec![item],
        position_ms: 5_000,
        ..Default::default()
    };
    let player = local_player(state);
    let current_track = player.tracks()[0].clone();

    assert_eq!(
        [
            player.play(),
            player.pause(),
            player.play_pause(),
            player.stop(),
            player.next(),
            player.previous(),
            player.seek(-2_000),
            player.set_position(&current_track, 4_000).expect("absolute seek"),
            player.set_shuffle(true),
            player.set_loop_status(LoopStatus::Playlist),
            player.set_volume(2.0f64.to_bits()),
        ],
        [
            MprisCommand::Play,
            MprisCommand::Pause,
            MprisCommand::PlayPause,
            MprisCommand::Pause,
            MprisCommand::Next,
            MprisCommand::Previous,
            MprisCommand::Seek(3_000),
            MprisCommand::Seek(4_000),
            MprisCommand::SetShuffle(true),
            MprisCommand::SetRepeat(RepeatMode::All),
            MprisCommand::SetVolume(1.0f64.to_bits()),
        ]
    );
}

#[test]
fn a_volume_is_held_between_nothing_and_all() {
    for (given, kept) in [(-0.5, 0.0), (0.25, 0.25), (7.0, 1.0), (1.0, 1.0)] {
        let given: f64 = given;
        assert_eq!(f64::from_bits(clamp_unit(given.to_bits())), kept);
    }
}

#[test]
fn set_position_ignores_a_stale_track_id() {
    let item = queue_item("run:1", "Roundabout");
    let state = MprisState {
        current_item: Some(item.clone()),
        queue: vec![item],
        ..Default::default()
    };
    let player = local_player(state);

    let stale = track_id("/dev/danielmiguelt/Vinilo/tracklist/stale");
    assert!(player.set_position(&stale, 9_000).is_none());
}

#[test]
fn local_track_list_exposes_a_bounded_window_with_the_player_current_id() {
    let queue = numbered(30);
    let state = MprisState {
        current_item: Some(queue[15].clone()),
        queue,
        queue_position: 15,
        title: "Track 15".into(),
        ..Default::default()
    };
    let player = local_player(state);

    let tracks = player.tracks();
    let metadata = player.metadata();

    assert_eq!(tracks.len(), 21);
    assert_eq!(metadata.trackid, Some(tracks[10].clone()));
    assert!(player.has_track_list());
    assert!(!player.can_edit_tracks());
}

#[test]
fn track_list_metadata_preserves_order_and_limits_artwork_to_the_current_track() {
    let mut current = queue_item("run:1", "One");
    current.artist = "Artist".into();
    current.album = "Album".into();
    current.duration_ms = 42_000;
    current.track_number = 3;
    let other = queue_item("run:2", "");
    let state = MprisState {
        current_item: Some(current.clone()),
        queue: vec![current, other],
        queue_position: 0,
        art_path: Some("/tmp/current.jpg".into()),
        ..Default::default()
    };
    let player = local_player(state);
    let tracks = player.tracks();
    let unknown = track_id("/dev/danielmiguelt/Vinilo/tracklist/unknown");

    let metadata =
        player.get_tracks_metadata(&vec![tracks[1].clone(), unknown, tracks[0].clone()]);

    assert_eq!(metadata.len(), 2);
    assert_eq!(metadata[0].trackid, Some(tracks[1].clone()));
    assert_eq!(metadata[0].title.as_deref(), Some(""));
    assert!(metadata[0].art_url.is_none());
    assert_eq!(metadata[1].trackid, Some(tracks[0].clone()));
    assert_eq!(metadata[1].title.as_deref(), Some("One"));
    assert_eq!(metadata[1].artist, Some(vec!["Artist".into()]));
    assert_eq!(metadata[1].album.as_deref(), Some("Album"));
    assert_eq!(metadata[1].length, Some(42_000));
    assert_eq!(metadata[1].track_number, Some(3));
    assert_eq!(metadata[1].art_url.as_deref(), Some("file:///tmp/current.jpg"));
}

#[test]
fn track_list_edits_are_not_supported() {
    let player = local_player(MprisState::default());
    assert!(player.edit().is_err());
}

#[test]
fn go_to_routes_exposed_occurrences_to_their_full_queue_indices() {
    let queue = numbered(500);
    let state = MprisState {
        current_item: Some(queue[250].clone()),
        queue,
        queue_position: 250,
        ..Default::default()
    };
    let player = local_player(state);
    let tracks = player.tracks();

    assert_eq!(player.go_to(&tracks[0]), Some(MprisCommand::GoTo { index: 240 }));
    assert_eq!(player.go_to(&tracks[20]), Some(MprisCommand::GoTo { index: 260 }));
}

#[test]
fn go_to_distinguishes_duplicates_and_ignores_stale_ids() {
    let queue = vec![queue_item("run:1", "Same"), queue_item("run:2", "Same")];
    let state = MprisState {
        current_item: Some(queue[0].clone()),
        queue: queue.clone(),
        ..Default::default()
    };
    let mut player = local_player(state);
    let tracks = player.tracks();

    assert_eq!(player.go_to(&tracks[1]), Some(MprisCommand::GoTo { index: 1 }));
    player.update_state(MprisState {
        current_item: Some(queue[1].clone()),
        queue: vec![queue[1].clone()],
        ..Default::default()
    });
    assert_eq!(player.go_to(&tracks[0]), None);
    assert_eq!(player.go_to(&TrackId::no_track()), None);
}

#[test]
fn structural_notification_plan_covers_insert_remove_move_and_window_slide() {
    let short = vec![
        queue_item("run:1", "One"),
        queue_item("run:2", "Two"),
        queue_item("run:3", "Three"),
    ];

    let mut inserted = short.clone();
    inserted.insert(1, queue_item("run:new", "New"));
    assert_structural_notifications(queue_state(short.clone(), 0), queue_state(inserted, 0));

    assert_structural_notifications(
        queue_state(short.clone(), 0),
        queue_state(short[1..].to_vec(), 0),
    );

    let mut moved = short.clone();
    moved.swap(0, 2);
    assert_structural_notifications(queue_state(short, 0), queue_state(moved, 2));

    let long = numbered(40);
    assert_structural_notifications(queue_state(long.clone(), 10), queue_state(long, 11));
}

#[test]
fn metadata_notification_plan_names_only_the_changed_retained_occurrence() {
    let queue = vec![queue_item("run:1", "One"), queue_item("run:2", "Two")];
    let mut player = local_player(queue_state(queue.clone(), 0));
    let changed_id = player.track_list.tracks()[1].clone();
    let mut changed = queue;
    changed[1].title = "Two (Remastered)".into();

    let (_, notifications) = player.update_state(queue_state(changed, 0));

    let [TrackListNotification::MetadataChanged { track_id, metadata }] = notifications.as_slice()
    else {
        panic!("expected one metadata notification, got {notifications:?}");
    };
    assert_eq!(track_id, &changed_id);
    assert_eq!(metadata.trackid, Some(changed_id));
    assert_eq!(metadata.title.as_deref(), Some("Two (Remastered)"));
}

#[test]
fn cached_artwork_refreshes_only_the_current_occurrence_metadata() {
    let queue = vec![queue_item("run:1", "One"), queue_item("run:2", "Two")];
    let mut player = local_player(queue_state(queue, 0));
    let tracks = player.track_list.tracks();
    let mut with_art = player.state.clone();
    with_art.art_path = Some("/tmp/current.jpg".into());

    let (_, notifications) = player.update_state(with_art);

    let [TrackListNotification::MetadataChanged { track_id, metadata }] = notifications.as_slice()
    else {
        panic!("expected one artwork notification, got {notifications:?}");
    };
    assert_eq!(track_id, &tracks[0]);
    assert_eq!(metadata.art_url.as_deref(), Some("file:///tmp/current.jpg"));
}

#[test]
fn an_uncached_non_current_artwork_template_change_emits_no_metadata() {
    let queue = vec![queue_item("run:1", "One"), queue_item("run:2", "Two")];
    let mut player = local_player(queue_state(queue.clone(), 0));
    let mut changed = queue;
    changed[1].artwork_template = Some("https://example.test/{w}x{h}.jpg".into());

    assert!(player.update_state(queue_state(changed, 0)).1.is_empty());
}

fn batch(name: &'static str, volume: f64) -> UpdateBatch {
    UpdateBatch {
        player_properties: vec![(name, Property::Volume(volume.to_bits()))],
        track_list_notifications: Vec::new(),
    }
}

#[test]
fn complete_emission_batches_are_drained_in_fifo_order() {
    let mut updates = Updates::new();
    assert!(updates.push(batch("first", 0.1)), "nobody is emitting yet");
    let mut seen = Vec::new();
    while let Some(b) = updates.next() {
        let name = b.player_properties[0].0;
        seen.push(format!("{name}:start"));
        if name == "first" {
            assert!(!updates.push(batch("second", 0.2)), "one emitter at a time");
        }
        seen.push(format!("{name}:end"));
    }
    assert_eq!(seen, ["first:start", "first:end", "second:start", "second:end"]);
    assert!(!updates.emitting);
}

#[test]
fn position_current_and_unrelated_player_changes_need_no_track_list_notification() {
    let queue = vec![queue_item("run:1", "One"), queue_item("run:2", "Two")];
    let initial = queue_state(queue.clone(), 0);
    let mut player = local_player(initial.clone());

    let mut position = initial.clone();
    position.position_ms = 42_000;
    assert!(player.update_state(position).1.is_empty());

    let mut unrelated = initial.clone();
    unrelated.volume = 0.5f64.to_bits();
    unrelated.shuffle = true;
    assert!(player.update_state(unrelated).1.is_empty());

    assert!(player.update_state(queue_state(queue, 1)).1.is_empty());
}

#[test]
fn context_stays_bounded_and_shifts_at_both_edges() {
    assert_eq!(context_window(0, 0), 0..0);
    assert_eq!(context_window(8, 4), 0..8);
    assert_eq!(context_window(100, 0), 0..21);
    assert_eq!(context_window(100, 50), 40..61);
    assert_eq!(context_window(100, 99), 79..100);
    assert_eq!(context_window(100, 500), 79..100);
}

#[test]
fn a_long_queue_still_exposes_only_twenty_one_occurrences() {
    let window = context_window(500, 250);
    assert_eq!(window.len(), 21);
    assert_eq!(window, 240..261);
}

#[test]
fn duplicate_occurrences_have_distinct_ids_and_the_exact_current_one_wins() {
    let queue = vec![queue_item("run:1", "Same"), queue_item("run:2", "Same")];
    let mut projection = Projection::default();

    projection.reconcile(&queue, 1, Some(&queue[0]));

    let tracks = projection.tracks();
    assert_ne!(tracks[0], tracks[1]);
    assert_eq!(projection.current(), Some(tracks[0].clone()));
    assert_eq!(projection.index(&tracks[0]), Some(0));
    assert_eq!(projection.index(&tracks[1]), Some(1));
}

#[test]
fn retained_occurrences_keep_ids_through_edits_and_window_slides() {
    let mut queue = numbered(30);
    let mut projection = Projection::default();
    projection.reconcile(&queue, 10, Some(&queue[10]));
    let retained = projection.id_for_occurrence("run:10").expect("initial id");

    queue.insert(0, queue_item("run:new", "New"));
    let moved = queue.remove(6);
    queue.insert(20, moved);
    queue.retain(|entry| entry.occurrence_id != "run:4");
    let current = queue
        .iter()
        .find(|entry| entry.occurrence_id == "run:10")
        .expect("retained current");
    projection.reconcile(&queue, 25, Some(current));

    assert_eq!(projection.id_for_occurrence("run:10"), Some(retained));
    assert_eq!(projection.tracks().len(), 21);
}

#[test]
fn stale_and_unknown_ids_are_not_resolved() {
    let queue = vec![queue_item("run:1", "One"), queue_item("run:2", "Two")];
    let mut projection = Projection::default();
    projection.reconcile(&queue, 0, Some(&queue[0]));
    let stale = projection.tracks()[0].clone();

    projection.reconcile(&queue[1..], 0, Some(&queue[1]));
    let unknown = track_id("/dev/danielmiguelt/Vinilo/tracklist/999999");

    assert_eq!(projection.index(&stale), None);
    assert!(projection.item(&stale).is_none());
    assert_eq!(projection.index(&unknown), None);
    assert!(projection.item(&unknown).is_none());
}

#[test]
fn empty_and_out_of_range_inputs_are_safe() {
    let mut projection = Projection::default();
    projection.reconcile(&[], 500, None);
    assert!(projection.tracks().is_empty());
    assert!(projection.current().is_none());

    let queue = vec![queue_item("run:1", "One")];
    projection.reconcile(&queue, 500, None);
    assert_eq!(projection.tracks().len(), 1);
    assert!(projection.current().is_none());
}

#[test]
fn metadata_changes_are_distinct_from_queue_and_window_changes() {
    let mut queue = vec![queue_item("run:1", "One"), queue_item("run:2", "Two")];
    let mut projection = Projection::default();
    projection.reconcile(&queue, 0, Some(&queue[0]));
    let changed_id = projection.id_for_occurrence("run:2").expect("known id");

    queue[1].title = "Two (Remastered)".into();
    let change = projection.reconcile(&queue, 0, Some(&queue[0]));

    assert!(!change.queue);
    assert!(!change.window);
    assert_eq!(change.metadata, vec![changed_id]);
}

#[test]
fn an_edit_outside_the_window_changes_only_the_full_queue() {
    let mut queue = numbered(30);
    let mut projection = Projection::default();
    projection.reconcile(&queue, 10, Some(&queue[10]));

    let moved = queue.remove(25);
    queue.push(moved);
    let current = queue
        .iter()
        .find(|entry| entry.occurrence_id == "run:10")
        .expect("current");
    let change = projection.reconcile(&queue, 10, Some(current));

    assert!(change.queue);
    assert!(!change.window);
    assert!(change.metadata.is_empty());
}

#[test]
fn sliding_the_context_is_a_window_change_without_a_queue_change() {
    let queue = numbered(40);
    let mut projection = Projection::default();
    projection.reconcile(&queue, 10, Some(&queue[10]));

    let change = projection.reconcile(&queue, 11, Some(&queue[11]));

    assert!(!change.queue);
    assert!(change.window);
    assert!(change.metadata.is_empty());
}

#[test]
fn a_current_change_inside_a_short_queue_needs_no_tracklist_notice() {
    let queue = vec![queue_item("run:1", "One"), queue_item("run:2", "Two")];
    let mut projection = Projection::default();
    projection.reconcile(&queue, 0, Some(&queue[0]));

    let change = projection.reconcile(&queue, 1, Some(&queue[1]));

    assert!(!change.queue);
    assert!(!change.window);
    assert!(change.metadata.is_empty());
}

#[test]
fn metadata_lookup_preserves_request_order_and_ignores_unknown_ids() {
    let queue = vec![queue_item("run:1", "One"), queue_item("run:2", "Two")];
    let mut projection = Projection::default();
    projection.reconcile(&queue, 0, Some(&queue[0]));
    let tracks = projection.tracks();
    let unknown = track_id("/dev/danielmiguelt/Vinilo/tracklist/999999");

    let metadata = projection.metadata(&[tracks[1].clone(), unknown, tracks[0].clone()]);

    assert_eq!(
        metadata
            .iter()
            .map(|(_, item)| item.title.as_str())
            .collect::<Vec<_>>(),
        vec!["Two", "One"]
    );
}

#[test]
fn a_five_hundred_item_projection_maps_the_published_window_to_full_indices() {
    let queue = numbered(500);
    let mut projection = Projection::default();
    projection.reconcile(&queue, 250, Some(&queue[250]));
    let tracks = projection.tracks();

    assert_eq!(tracks.len(), 21);
    assert_eq!(projection.index(&tracks[0]), Some(240));
    assert_eq!(projection.index(&tracks[20]), Some(260));
}

#[test]
fn an_unmatched_current_item_reports_no_current_occurrence() {
    let queue = vec![queue_item("run:1", "One")];
    let outside = queue_item("run:outside", "Outside");
    let mut projection = Projection::default();

    projection.reconcile(&queue, 0, Some(&outside));

    assert_eq!(projection.tracks().len(), 1);
    assert!(projection.current().is_none());
}

#[test]
fn an_id_is_an_object_path() {
    assert!(TrackId::parse("/a/b_1").is_some());
    assert!(TrackId::parse("a/b").is_none());
    assert!(TrackId::parse("/a//b").is_none());
    assert!(TrackId::parse("/a/b-1").is_none());
}

#[test]
fn a_cover_is_the_same_however_its_path_is_written() {
    let at = |path: &str| MprisState {
        art_path: Some(path.into()),
        ..Default::default()
    };
    assert!(!at("/tmp//c.jpg").metadata_changed_from(&at("/tmp/c.jpg")));
    assert!(at("/tmp/d.jpg").metadata_changed_from(&at("/tmp/c.jpg")));
    assert!(at("/tmp/c.jpg").metadata_changed_from(&MprisState::default()));
}
