use vinilo::entry::Entry;
use vinilo::music::types::{Album, Artist, Track, TrackId};
use vinilo::player::protocol::Item;
use vinilo::queue::{
    holds, index_at, playable_rows, queue_from, queue_from_ids, start_index, unresolvable_ids,
    Start,
};

fn queue(ids: &[&str]) -> Vec<Item> {
    ids.iter()
        .map(|id| Item {
            catalog_id: Some((*id).to_owned()),
            ..Default::default()
        })
        .collect()
}

#[test]
fn a_duplicated_track_resolves_to_the_copy_that_was_clicked() {
    let q = queue(&["a", "b", "a", "c"]);
    assert_eq!(index_at(&q, 2, "a"), Some(2), "clicked the second");
    assert_eq!(index_at(&q, 0, "a"), Some(0), "clicked the first");
    assert_eq!(index_at(&q, usize::MAX, "a"), Some(0), "id alone finds one");
}

#[test]
fn a_moved_queue_falls_back_to_searching_by_id() {
    let q = queue(&["b", "a", "c"]);
    assert_eq!(index_at(&q, 2, "a"), Some(1));
}

#[test]
fn a_position_past_the_end_does_not_panic() {
    let q = queue(&["a"]);
    assert_eq!(index_at(&q, 99, "a"), Some(0));
    assert_eq!(index_at(&q, 99, "gone"), None);
}

fn song(title: &str, catalog: Option<&str>) -> Entry {
    Entry::Song(Track {
        id: TrackId(format!("i.{title}")),
        catalog_id: catalog.map(str::to_owned),
        title: title.into(),
        favorite: false,
        in_library: false,
        library_id: None,
        date_added: String::new(),
        year: String::new(),
        artist: "Aitana".into(),
        album: "Superestrella".into(),
        duration_ms: 200_000,
        track_number: 1,
        artwork: None,
    })
}

fn dead(ids: &[&str]) -> Vec<String> {
    ids.iter().map(|s| s.to_string()).collect()
}

fn three() -> Vec<Entry> {
    vec![
        song("a", Some("1")),
        song("b", Some("2")),
        song("c", Some("3")),
    ]
}

#[test]
fn clicking_a_row_enqueues_the_whole_visible_list() {
    let (songs, start_id) = queue_from(&three(), 1, &dead(&[]));
    assert_eq!(songs, vec!["1", "2", "3"]);
    assert_eq!(start_index(&songs, start_id.as_ref()), 1);
}

#[test]
fn unplayable_rows_do_not_shift_the_chosen_track() {
    let visible = vec![
        song("a", Some("1")),
        song("b", None),
        song("c", Some("3")),
        song("d", Some("4")),
    ];

    let (songs, start_id) = queue_from(&visible, 3, &dead(&[]));
    assert_eq!(songs, vec!["1", "3", "4"]);
    assert_eq!(songs[start_index(&songs, start_id.as_ref())], "4");
}

#[test]
fn known_dead_ids_never_reach_the_queue_and_do_not_shift_it() {
    let (songs, start_id) = queue_from(&three(), 2, &dead(&["2"]));
    assert_eq!(songs, vec!["1", "3"], "dead id must not be sent");
    assert_eq!(songs[start_index(&songs, start_id.as_ref())], "3");
}

#[test]
fn clicking_a_dead_row_starts_the_next_streamable_track() {
    let (songs, start_id) = queue_from(&three(), 1, &dead(&["2"]));
    assert_eq!(songs[start_index(&songs, start_id.as_ref())], "3");
}

fn album() -> Entry {
    Entry::Album(Album {
        date_added: String::new(),
        id: "al1".into(),
        name: "Superestrella".into(),
        artist: "Aitana".into(),
        artwork: None,
        year: "2020".into(),
        library: false,
        track_count: 12,
    })
}

#[test]
fn album_and_artist_rows_are_not_enqueued() {
    let visible = vec![
        Entry::Artist(Artist {
            id: "a1".into(),
            name: "Aitana".into(),
            artwork: None,
            genres: String::new(),
            library: false,
        }),
        album(),
        song("a", Some("1")),
        song("b", Some("2")),
    ];

    let (songs, start_id) = queue_from(&visible, 3, &dead(&[]));
    assert_eq!(songs, vec!["1", "2"], "browse rows are not tracks");
    assert_eq!(songs[start_index(&songs, start_id.as_ref())], "2");
}

#[test]
fn a_shuffle_can_start_on_any_streamable_row_and_only_those() {
    let visible = vec![
        song("a", Some("1")),
        song("b", None),
        song("c", Some("3")),
        song("d", Some("4")),
        song("e", Some("5")),
    ];
    assert_eq!(playable_rows(&visible, &dead(&["4"])), vec![0, 2, 4]);
}

#[test]
fn a_shuffle_never_starts_on_a_row_that_would_fall_back_to_the_top() {
    let visible = vec![song("a", Some("1")), song("b", None)];
    let rows = playable_rows(&visible, &dead(&[]));
    assert_eq!(rows, vec![0], "row 1 would have fallen back to the top");

    for row in rows {
        let (songs, start_id) = queue_from(&visible, row, &dead(&[]));
        assert!(start_id.is_some(), "row {row} names no track");
        assert_eq!(songs[start_index(&songs, start_id.as_ref())], "1");
    }
}

#[test]
fn browse_rows_are_not_somewhere_a_shuffle_can_start() {
    let visible = vec![album(), song("a", Some("1"))];
    assert_eq!(playable_rows(&visible, &dead(&[])), vec![1]);
}

#[test]
fn a_list_with_nothing_playable_offers_no_shuffle_start() {
    assert!(playable_rows(&vec![song("a", None)], &dead(&[])).is_empty());
}

#[test]
fn a_row_click_states_sequential_when_it_builds_a_queue() {
    assert_eq!(Start::Clicked.mode(true), Some(false));
}

#[test]
fn a_row_click_leaves_the_mode_alone_when_it_only_moves_within_a_queue() {
    assert_eq!(Start::Clicked.mode(false), None);
}

#[test]
fn both_buttons_state_a_mode_either_way() {
    for creating in [true, false] {
        assert_eq!(Start::Shuffled.mode(creating), Some(true));
        assert_eq!(Start::InOrder.mode(creating), Some(false));
    }
}

#[test]
fn only_a_queue_that_keeps_our_order_is_worth_verifying() {
    assert!(Start::Shuffled.reorders());
    assert!(!Start::Clicked.reorders(), "a click keeps the list's order");
    assert!(!Start::InOrder.reorders(), "so does Play");
}

#[test]
fn the_id_form_and_the_row_form_agree() {
    let visible = vec![song("a", Some("1")), song("b", None), song("c", Some("3"))];
    let ids: Vec<Option<String>> = visible
        .iter()
        .map(|e| e.catalog_id().map(str::to_owned))
        .collect();
    for row in 0..visible.len() {
        assert_eq!(
            queue_from(&visible, row, &dead(&[])),
            queue_from_ids(&ids, row, &dead(&[])),
            "row {row}"
        );
    }
}

#[test]
fn a_list_with_nothing_playable_produces_no_queue() {
    let (songs, _) = queue_from(&vec![song("a", None)], 0, &dead(&[]));
    assert!(songs.is_empty(), "caller must toast rather than enqueue");
}

#[test]
fn clicking_past_the_last_streamable_track_falls_back_to_the_top() {
    let visible = vec![song("a", Some("1")), song("b", None)];
    let (songs, start_id) = queue_from(&visible, 1, &dead(&[]));
    assert_eq!(start_index(&songs, start_id.as_ref()), 0);
}

fn item(catalog: &str) -> Item {
    Item {
        occurrence_id: String::new(),
        id: None,
        catalog_id: Some(catalog.into()),
        title: catalog.into(),
        artist: String::new(),
        album: String::new(),
        duration_ms: 0,
        track_number: 0,
        artwork_template: None,
    }
}

#[test]
fn a_shuffled_queue_is_still_the_same_queue() {
    let queue = vec![item("3"), item("1"), item("2")];
    assert!(holds(&queue, &vec!["1".into(), "2".into(), "3".into()]));
}

#[test]
fn a_different_list_is_not_the_same_queue() {
    let queue = vec![item("1"), item("2")];
    assert!(!holds(&queue, &vec!["1".into(), "3".into()]));
    assert!(!holds(&queue, &vec!["1".into(), "2".into(), "3".into()]));
    assert!(!holds(&queue, &vec![]));
}

#[test]
fn an_error_names_the_songs_it_is_about() {
    let detail = "[mk-007] NOT_FOUND; One or more items could not be resolved: 1550626760, 12, 1526511025";
    assert_eq!(unresolvable_ids(detail), ["1550626760", "1526511025"]);
}

#[test]
fn an_error_without_ids_names_none() {
    assert!(unresolvable_ids("something else went wrong").is_empty());
}
