use vinilo::double::{round, through_double};
use vinilo::json::{self, Json};
use vinilo::player::protocol::{
    Command, Event, Item, PlaybackState, Queue, QueueChange, RepeatMode,
};
use vinilo::player::wire::{event_from, incoming, line_of, read_item, read_queue, Incoming};

fn event(line: &str) -> Event {
    event_from(line).expect("must parse")
}

fn value(text: &str) -> Json {
    json::read(text).expect("must be JSON")
}

fn position(line: &str) -> (u64, u64) {
    match event(line) {
        Event::Position {
            position_ms,
            duration_ms,
        } => (position_ms, duration_ms),
        _ => panic!("wrong variant: {line}"),
    }
}

#[test]
fn set_queue_serialises_to_the_shape_preload_expects() {
    let json = line_of(&Command::SetQueue {
        songs: vec!["1440857781".into(), "1440857782".into()],
        start_position: 1,
        start_playing: true,
        start_time_ms: 0,
    });
    assert_eq!(
        json,
        r#"{"cmd":"setQueue","songs":["1440857781","1440857782"],"startPosition":1,"startPlaying":true,"startTimeMs":0}"#
    );
}

#[test]
fn a_restored_queue_asks_not_to_play_and_carries_its_position() {
    let json = line_of(&Command::SetQueue {
        songs: vec!["1".into()],
        start_position: 0,
        start_playing: false,
        start_time_ms: 42_000,
    });
    assert!(json.contains(r#""startPlaying":false"#), "{json}");
    assert!(json.contains(r#""startTimeMs":42000"#), "{json}");
}

#[test]
fn occurrence_ids_distinguish_duplicates_and_link_the_current_item() {
    let line = r#"{
            "event":"nowPlaying",
            "item":{"occurrenceId":"run-a:7","id":"song-a"},
            "queue":{"reason":"position","position":0,"items":[
                {"occurrenceId":"run-a:7","id":"song-a"},
                {"occurrenceId":"run-a:8","id":"song-a"}
            ]}
        }"#;
    match event(line) {
        Event::NowPlaying {
            item: Some(item),
            queue,
        } => {
            assert_eq!(item.occurrence_id, "run-a:7");
            assert_eq!(
                queue.items[0].occurrence_id.as_str(),
                item.occurrence_id.as_str()
            );
            assert_ne!(
                queue.items[1].occurrence_id.as_str(),
                item.occurrence_id.as_str()
            );
        }
        _ => panic!("wrong variant"),
    }
}

#[test]
fn a_negative_position_is_read_as_zero_not_rejected() {
    for line in [
        r#"{"event":"position","positionMs":-544000,"durationMs":266000}"#,
        r#"{"event":"position","positionMs":-298000,"durationMs":232000}"#,
    ] {
        let (position_ms, duration_ms) = position(line);
        assert_eq!(position_ms, 0, "negative should floor at zero");
        assert!(duration_ms > 0, "duration should survive: {line}");
    }
}

#[test]
fn an_ordinary_position_is_untouched() {
    let line = r#"{"event":"position","positionMs":30000,"durationMs":266000}"#;
    assert_eq!(position(line), (30_000, 266_000));
}

#[test]
fn a_fractional_millisecond_rounds_rather_than_failing() {
    let line = r#"{"event":"position","positionMs":1500.6,"durationMs":266000}"#;
    assert_eq!(position(line).0, 1501);
}

#[test]
fn a_negative_track_duration_is_floored_too() {
    let item = read_item(&value(r#"{"title":"x","durationMs":-1}"#)).expect("must parse");
    assert_eq!(item.duration_ms, 0);
}

#[test]
fn seek_uses_camel_case_position() {
    let json = line_of(&Command::Seek {
        position_ms: 30_000,
    });
    assert_eq!(json, r#"{"cmd":"seek","positionMs":30000}"#);
}

#[test]
fn unit_commands_carry_only_the_tag() {
    assert_eq!(line_of(&Command::Play), r#"{"cmd":"play"}"#);
}

#[test]
fn parses_a_now_playing_event() {
    let raw = r#"{"event":"nowPlaying","item":{"id":"1440857781","title":"Roundabout",
            "artist":"Yes","album":"Fragile","durationMs":513000,"trackNumber":1,
            "artworkTemplate":"https://is1.mzstatic.com/image/thumb/x/{w}x{h}bb.jpg"},
            "queue":{"position":0,"items":[]}}"#;
    let Event::NowPlaying {
        item: Some(item), ..
    } = event(raw)
    else {
        panic!("expected NowPlaying");
    };
    assert_eq!(item.title, "Roundabout");
    assert_eq!(item.duration_ms, 513_000);
}

#[test]
fn a_queue_position_of_minus_one_parses() {
    let raw = r#"{"event":"queue","position":-1,"items":[
            {"id":"1049009209","title":"Roundabout"}]}"#;
    let Event::Queue(queue) = event(raw) else {
        panic!("expected Queue")
    };
    assert_eq!(queue.items.len(), 1);
    assert_eq!(queue.index(), None, "-1 means nothing is current yet");
}

#[test]
fn an_unknown_playback_state_does_not_fail_the_parse() {
    let Event::PlaybackState { state } =
        event(r#"{"event":"playbackState","state":"teleporting"}"#)
    else {
        panic!("expected PlaybackState");
    };
    assert_eq!(state, PlaybackState::Unknown);
}

#[test]
fn a_library_write_outcome_carries_the_id_it_was_for() {
    let Event::LibraryWrite { kind, id, ok, .. } =
        event(r#"{"event":"library-write","kind":"remove","id":"i.ABC","ok":true}"#)
    else {
        panic!("expected LibraryWrite");
    };
    assert_eq!((kind.as_str(), id.as_str(), ok), ("remove", "i.ABC", true));

    let Event::LibraryWrite { ok, detail, .. } = event(
        r#"{"event":"library-write","kind":"unfavorite","id":"282559791",
                "ok":false,"detail":"403 Forbidden"}"#,
    ) else {
        panic!("expected LibraryWrite");
    };
    assert!(!ok);
    assert_eq!(detail, "403 Forbidden");
}

#[test]
fn the_removals_carry_the_right_id_space() {
    let remove = value(&line_of(&Command::RemoveFromLibrary {
        id: "i.RBrxxaLS1BA3Jv5".into(),
    }));
    assert_eq!(
        remove.get("cmd"),
        Some(&Json::Text("removeFromLibrary".into()))
    );
    let id = json::text_of(remove.get("id")).unwrap();
    assert!(
        id.starts_with("i."),
        "removal must carry a library id, got {remove:?}"
    );

    let unfav = value(&line_of(&Command::Unfavorite {
        id: "282559791".into(),
    }));
    assert_eq!(unfav.get("cmd"), Some(&Json::Text("unfavorite".into())));
    let id = json::text_of(unfav.get("id")).unwrap();
    assert!(
        id.parse::<u64>().is_ok(),
        "un-favourite must carry a numeric catalog id, got {unfav:?}"
    );

    assert_eq!(
        Command::RemoveFromLibrary { id: String::new() }.name(),
        "removeFromLibrary"
    );
    assert_eq!(
        Command::Unfavorite { id: String::new() }.name(),
        "unfavorite"
    );
}

#[test]
fn the_sign_out_pair_matches_the_sidecar() {
    assert_eq!(Command::SignOut.name(), "signOut");
    assert_eq!(
        value(&line_of(&Command::SignOut)).get("cmd"),
        Some(&Json::Text("signOut".into()))
    );
    assert!(matches!(
        event(r#"{"event":"signed-out"}"#),
        Event::SignedOut
    ));
}

#[test]
fn a_sidecar_that_does_not_say_why_is_never_settled() {
    let queue: Queue = read_queue(&value(r#"{"position":1,"items":[]}"#)).unwrap();
    assert_eq!(queue.reason, QueueChange::Position);
}

#[test]
fn every_command_is_written_in_its_shape() {
    let line = |c: Command| line_of(&c);
    assert_eq!(
        line(Command::ChangeToIndex { index: 3 }),
        r#"{"cmd":"changeToIndex","index":3}"#
    );
    assert_eq!(
        line(Command::MoveInQueue { from: 4, to: 0 }),
        r#"{"cmd":"moveInQueue","from":4,"to":0}"#
    );
    assert_eq!(
        line(Command::SyncQueuePosition { index: 9 }),
        r#"{"cmd":"syncQueuePosition","index":9}"#
    );
    assert_eq!(
        line(Command::PlayNext { songs: vec![] }),
        r#"{"cmd":"playNext","songs":[]}"#
    );
    assert_eq!(
        line(Command::PlayLater {
            songs: vec!["a".into()]
        }),
        r#"{"cmd":"playLater","songs":["a"]}"#
    );
    assert_eq!(
        line(Command::RemoveFromQueue { index: 1 }),
        r#"{"cmd":"removeFromQueue","index":1}"#
    );
    assert_eq!(
        line(Command::SetShuffle { shuffle: true }),
        r#"{"cmd":"setShuffle","shuffle":true}"#
    );
    assert_eq!(
        line(Command::SetRepeat {
            mode: RepeatMode::Off
        }),
        r#"{"cmd":"setRepeat","mode":"none"}"#
    );
    assert_eq!(
        line(Command::SetRepeat {
            mode: RepeatMode::All
        }),
        r#"{"cmd":"setRepeat","mode":"all"}"#
    );
    assert_eq!(line(Command::ClearQueue), r#"{"cmd":"clearQueue"}"#);
}

#[test]
fn an_id_is_quoted_as_json_quotes_it() {
    let id = "a\"b\\c\nd\te\u{1}f\u{7f}é\u{8}\u{c}\r";
    let line = line_of(&Command::Unfavorite { id: id.into() });
    assert_eq!(
        line,
        "{\"cmd\":\"unfavorite\",\"id\":\"a\\\"b\\\\c\\nd\\te\\u0001f\u{7f}é\\b\\f\\r\"}"
    );
    assert!(!line.contains('\n'));
    assert_eq!(json::text_of(value(&line).get("id")), Some(id));
}

#[test]
fn every_kind_of_event_is_read() {
    assert!(matches!(
        event(r#"{"event":"ready","debug":true}"#),
        Event::Ready { debug: true }
    ));
    assert!(matches!(
        event(r#"{"event":"widevine-ready","more":1}"#),
        Event::WidevineReady
    ));
    assert!(matches!(
        event(r#"{"event":"hook-boot","href":"x"}"#),
        Event::HookBoot { ready_state, href } if ready_state.is_empty() && href == "x"
    ));
    assert!(matches!(
        event(r#"{"event":"hook-ready","authorized":false,"version":"3"}"#),
        Event::HookReady { authorized: false, version, trigger } if version == "3" && trigger.is_empty()
    ));
    assert!(matches!(
        event(r#"{"event":"hook-failed","detail":"d"}"#),
        Event::HookFailed { detail } if detail == "d"
    ));
    assert!(matches!(
        event(r#"{"event":"hook-warning","detail":"w"}"#),
        Event::HookWarning { detail } if detail == "w"
    ));
    assert!(matches!(
        event(r#"{"event":"modes","repeat":"one"}"#),
        Event::Modes {
            shuffle: false,
            repeat: RepeatMode::One
        }
    ));
    assert!(matches!(
        event(r#"{"event":"volume","volume":0.5}"#),
        Event::Volume
    ));
    assert!(matches!(
        event(r#"{"event":"tokens","developerToken":"d","musicUserToken":null}"#),
        Event::Tokens(t) if t.developer_token == "d" && t.music_user_token.is_none()
            && t.storefront == "us" && !t.authorized
    ));
    assert!(matches!(
        event(r#"{"event":"authorization","authorized":true}"#),
        Event::Authorization { authorized: true }
    ));
    assert!(matches!(
        event(r#"{"event":"window-hidden"}"#),
        Event::WindowHidden
    ));
    assert!(matches!(
        event(r#"{"event":"ack","id":7}"#),
        Event::Ack { id: 7 }
    ));
    assert!(matches!(
        event(r#"{"event":"cmd-recv","cmd":"play"}"#),
        Event::CmdRecv { cmd } if cmd == "play"
    ));
    assert!(matches!(
        event(r#"{"event":"cmd-queued","cmd":"play","depth":2}"#),
        Event::CmdQueued { cmd, depth: 2 } if cmd == "play"
    ));
    assert!(matches!(
        event(r#"{"event":"cmd-done","cmd":"play","state":-2,"queueLen":5}"#),
        Event::CmdDone { cmd, state: -2, queue_len: 5 } if cmd == "play"
    ));
    assert!(matches!(
        event(r#"{"event":"error","code":"c","detail":"d"}"#),
        Event::Error { code, detail } if code == "c" && detail == "d"
    ));
}

#[test]
fn what_lacks_a_part_is_no_event() {
    for line in [
        "not json",
        "[]",
        r#"{"debug":true}"#,
        r#"{"event":"moon"}"#,
        r#"{"event":"ready"}"#,
        r#"{"event":"ready","debug":1}"#,
        r#"{"event":"position","positionMs":1}"#,
        r#"{"event":"position","positionMs":null,"durationMs":1}"#,
        r#"{"event":"nowPlaying","item":null}"#,
        r#"{"event":"nowPlaying","item":3,"queue":{}}"#,
        r#"{"event":"modes","repeat":"twice"}"#,
        r#"{"event":"queue","position":1.5}"#,
        r#"{"event":"queue","reason":"whim"}"#,
        r#"{"event":"cmd-queued","cmd":"x","depth":-1}"#,
        r#"{"event":"tokens","developerToken":"d","storefront":null}"#,
    ] {
        assert!(event_from(line).is_none(), "{line}");
    }
    assert!(matches!(
        event(r#"{"event":"nowPlaying","queue":{}}"#),
        Event::NowPlaying { item: None, queue } if queue.position == -1 && queue.items.is_empty()
    ));
}

#[test]
fn a_line_is_an_event_or_is_handed_on() {
    assert!(incoming("  \t").is_none());
    assert!(matches!(
        incoming(r#"{"event":"signed-out"}"#),
        Some(Incoming::Event(Event::SignedOut))
    ));
    assert!(matches!(
        incoming("what"),
        Some(Incoming::Unparsed(line)) if line == "what"
    ));
}

#[test]
fn a_double_rounds_to_the_nearest_whole_number() {
    for x in [
        0.0, -0.0, 0.25, 0.499_999, 0.5, 0.75, 1.0, 1.5, 2.5, 1500.6, -3.0, 1e9, 4_503_599_627_370_495.5,
        9_007_199_254_740_993.0, 1e18, 1.8e19, 2e19, 1e300, f64::INFINITY, f64::NAN, f64::MIN_POSITIVE, 5e-324,
    ] {
        let expected = if x.is_finite() && x > 0.0 { x.round() as u64 } else { 0 };
        assert_eq!(round(x.to_bits()), expected, "{x}");
    }
}

#[test]
fn a_whole_number_passes_through_a_double() {
    for n in [
        0u64,
        1,
        266_000,
        (1 << 53) - 1,
        1 << 53,
        (1 << 53) + 1,
        (1 << 53) + 3,
        (1 << 60) + 64,
        (1 << 60) + 192,
        (1 << 60) + 193,
        u64::MAX - 1024,
        u64::MAX - 1023,
        u64::MAX,
    ] {
        assert_eq!(through_double(n), n as f64 as u64, "{n}");
    }
}

#[test]
fn a_track_says_what_it_is() {
    let item = read_item(&value(
        r#"{"occurrenceId":"o","id":"1","catalogId":null,"title":"t","artist":"a","album":"b",
            "durationMs":5.5,"trackNumber":3,"artworkTemplate":"w"}"#,
    ));
    assert_eq!(
        item,
        Some(Item {
            occurrence_id: "o".into(),
            id: Some("1".into()),
            catalog_id: None,
            title: "t".into(),
            artist: "a".into(),
            album: "b".into(),
            duration_ms: 6,
            track_number: 3,
            artwork_template: Some("w".into()),
        })
    );
    assert_eq!(read_item(&value("[]")), None);
}

#[test]
fn a_mode_that_is_set_is_read_back() {
    for mode in [RepeatMode::Off, RepeatMode::One, RepeatMode::All] {
        let set = value(&line_of(&Command::SetRepeat { mode }));
        let name = json::text_of(set.get("mode")).unwrap();
        let line = format!("{{\"event\":\"modes\",\"repeat\":\"{name}\"}}");
        assert!(matches!(event(&line), Event::Modes { repeat, .. } if repeat == mode));
    }
}

#[test]
fn a_report_may_list_its_parts_without_their_names() {
    assert!(matches!(event(r#"["ready",true]"#), Event::Ready { debug: true }));
    assert!(matches!(event(r#"["signed-out"]"#), Event::SignedOut));
    assert!(event_from(r#"["signed-out",1]"#).is_none());
    assert!(event_from(r#"["ready"]"#).is_none());
    assert!(event_from(r#"["ready",true,true]"#).is_none());
    assert!(event_from(r#"[]"#).is_none());
    assert!(event_from(r#"["queue",["x",0]]"#).is_none());
    match event(r#"["cmd-done","play"]"#) {
        Event::CmdDone { cmd, state, queue_len } => {
            assert_eq!((cmd.as_str(), state, queue_len), ("play", 0, 0));
        }
        _ => panic!("not done"),
    }
    match event(r#"["tokens","dev",null]"#) {
        Event::Tokens(t) => {
            assert_eq!(t.developer_token, "dev");
            assert_eq!(t.music_user_token, None);
            assert_eq!(t.storefront, "us");
            assert!(!t.authorized);
        }
        _ => panic!("no tokens"),
    }
    assert!(event_from(r#"["tokens","dev"]"#).is_none());
    match event(r#"["queue","items",2,[["o","1",null,"T","A","L",1.4,7,null]]]"#) {
        Event::Queue(q) => {
            assert_eq!(q.reason, QueueChange::Items);
            assert_eq!(q.position, 2);
            assert_eq!(q.items.len(), 1);
            assert_eq!(q.items[0].occurrence_id, "o");
            assert_eq!(q.items[0].id.as_deref(), Some("1"));
            assert_eq!(q.items[0].title, "T");
            assert_eq!(q.items[0].duration_ms, 1);
            assert_eq!(q.items[0].track_number, 7);
        }
        _ => panic!("no queue"),
    }
    assert!(read_item(&value(r#"["o","1",null,"T","A","L",1,7]"#)).is_none());
    match event(r#"["nowPlaying",null,["position",-1]]"#) {
        Event::NowPlaying { item, queue } => {
            assert!(item.is_none());
            assert_eq!(queue.position, -1);
            assert!(queue.items.is_empty());
        }
        _ => panic!("nothing plays"),
    }
}

#[test]
fn a_name_may_stand_over_nothing() {
    match event(r#"{"event":"modes","repeat":{"one":null}}"#) {
        Event::Modes { repeat, .. } => assert_eq!(repeat, RepeatMode::One),
        _ => panic!("no modes"),
    }
    match event(r#"{"event":"playbackState","state":{"paused":{}}}"#) {
        Event::PlaybackState { state } => assert_eq!(state, PlaybackState::Paused),
        _ => panic!("no state"),
    }
    match event(r#"{"event":"playbackState","state":{"teleporting":null}}"#) {
        Event::PlaybackState { state } => assert_eq!(state, PlaybackState::Unknown),
        _ => panic!("no state"),
    }
    assert!(event_from(r#"{"event":"modes","repeat":{"one":1}}"#).is_none());
    assert!(event_from(r#"{"event":"modes","repeat":{"one":null,"all":null}}"#).is_none());
    assert!(event_from(r#"{"event":"modes","repeat":{}}"#).is_none());
    let queue = read_queue(&value(r#"{"reason":{"items":null}}"#)).unwrap();
    assert_eq!(queue.reason, QueueChange::Items);
}
