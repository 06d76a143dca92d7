use vinilo::json;
use vinilo::lastfm::{
    answer, begin_auth, complete_auth, is_scrobble_eligible, md5_hex, request, scrobble_params,
    sign, unix_now, Config, Failure, NoSession, Params,
};
use vinilo::lyrics::{for_id, from_apple_ttml, ttml_ms, Asked};
use vinilo::percent::urlencode;
use vinilo::provider::Provider;
use vinilo::session::{self, Session};
use vinilo::setup::{
    clear, cookie_header, cookie_names, is_configured, looks_signed_in, mark_configured,
    netscape_text, ranked_cookie_header_from, session_cookie, uri_looks_signed_in,
    ytdlp_cookie_args, NetscapeCookie,
};

#[test]
fn signature_matches_lastfm_auth_example_shape() {
    let mut params = Params::new();
    params.insert("api_key", "xxxxxxxx");
    params.insert("method", "auth.getSession");
    params.insert("token", "xxxxxxx");
    let sig = sign(&params, "mysecret");
    assert_eq!(sig, md5_hex("api_keyxxxxxxxxmethodauth.getSessiontokenxxxxxxxmysecret"));
}

#[test]
fn a_digest_is_written_in_hexadecimal() {
    assert_eq!(md5_hex(""), "d41d8cd98f00b204e9800998ecf8427e");
    assert_eq!(md5_hex("abc"), "900150983cd24fb0d6963f7d28e17f72");
}

#[test]
fn the_order_of_giving_parameters_does_not_matter() {
    let mut one = Params::new();
    one.insert("b", "2");
    one.insert("a", "1");
    let mut other = Params::new();
    other.insert("a", "1");
    other.insert("b", "2");
    assert_eq!(one.pairs, other.pairs);
    assert_eq!(sign(&one, "s"), md5_hex("a1b2s"));
    assert_eq!(sign(&one, "s"), sign(&other, "s"));
}

#[test]
fn the_form_of_an_answer_is_asked_for_and_not_signed() {
    let sent = request("track.scrobble", Params::new(), "s");
    assert!(sent.pairs.contains(&("format".into(), "json".into())));
    let sig = md5_hex("methodtrack.scrobbles");
    assert!(sent.pairs.contains(&("api_sig".into(), sig)));
}

#[test]
fn an_answer_is_judged() {
    assert_eq!(answer("not json", true).unwrap_err(), Failure::NotJson);
    assert_eq!(
        answer(r#"{"error":9,"message":"bad session"}"#, true).unwrap_err(),
        Failure::Refused { code: 9, message: "bad session".into() }
    );
    assert!(answer(r#"{"ok":1}"#, true).is_ok());
    assert!(answer(r#"{"ok":1}"#, false).is_err());
    let refused = Failure::Refused { code: -9, message: "bad session".into() };
    assert_eq!(refused.message("200 OK"), "last.fm error -9: bad session");
    assert_eq!(Failure::Status.message("502 Bad Gateway"), "last.fm HTTP 502 Bad Gateway");
}

fn account() -> Config {
    Config {
        enabled: false,
        api_key: "k".into(),
        api_secret: "s".into(),
        session_key: String::new(),
        username: String::new(),
    }
}

#[test]
fn a_session_is_asked_for_and_kept() {
    let cfg = account();
    assert!(cfg.can_auth() && !cfg.ready());
    let (token, url) = begin_auth(&cfg, &json::read(r#"{"token":"t1"}"#).unwrap()).unwrap();
    assert_eq!(token, "t1");
    assert!(url.contains("api_key=k") && url.contains("token=t1"), "{url}");
    let value = json::read(r#"{"session":{"key":"sk","name":"me"}}"#).unwrap();
    let signed = complete_auth(&cfg, &value).unwrap();
    assert!(signed.ready());
    assert_eq!(signed.username, "me");
    let none = complete_auth(&cfg, &json::read(r#"{}"#).unwrap()).unwrap_err();
    assert_eq!(none, NoSession::NotAuthorised);
    assert!(scrobble_params(&cfg, "a", "t", "", 7).is_none());
    let params = scrobble_params(&signed, "a", "t", "", 7).unwrap();
    assert!(params.pairs.contains(&("timestamp[0]".into(), "7".into())));
}

#[test]
fn a_clock_before_the_epoch_is_zero() {
    assert_eq!(unix_now(None), 0);
    assert_eq!(unix_now(Some(9)), 9);
}

#[test]
fn short_tracks_need_half_duration() {
    assert!(is_scrobble_eligible(20_000, 40_000));
    assert!(!is_scrobble_eligible(10_000, 40_000));
}

#[test]
fn long_tracks_need_thirty_seconds() {
    assert!(is_scrobble_eligible(30_000, 240_000));
    assert!(!is_scrobble_eligible(29_000, 240_000));
}

#[test]
fn ttml_clock_time_and_syllable_spans() {
    let value = json::read(
        r#"{"data":[{"attributes":{"ttml":"<tt><body><div>\n<p begin=\"00:00:01.200\" end=\"00:00:03.000\">\n<span begin=\"00:00:01.200\">Hola</span>\n<span begin=\"00:00:01.800\">mundo</span>\n</p>\n<p begin=\"00:00:04.000\">Noche</p>\n</div></body></tt>"}}]}"#,
    )
    .unwrap();
    let lyrics = from_apple_ttml(&value).unwrap();
    assert!(lyrics.synced);
    assert_eq!(lyrics.lines.len(), 2);
    assert_eq!(lyrics.lines[0].text, "Hola mundo");
    assert_eq!(lyrics.lines[0].start_ms, 1200);
    assert_eq!(lyrics.lines[1].start_ms, 4000);
}

#[test]
fn unsynced_ttml_has_no_times() {
    let value = json::read(
        r#"{"data":[{"attributes":{"ttml":"<tt><body><div><p>One</p><p>Two</p></div></body></tt>"}}]}"#,
    )
    .unwrap();
    let lyrics = from_apple_ttml(&value).unwrap();
    assert!(!lyrics.synced);
    assert_eq!(lyrics.lines[0].start_ms, 0);
    assert_eq!(lyrics.lines[1].text, "Two");
}

#[test]
fn empty_ttml_is_missing() {
    let value = json::read(r#"{"data":[{"attributes":{"ttml":"<tt></tt>"}}]}"#).unwrap();
    assert!(from_apple_ttml(&value).is_none());
}

#[test]
fn seconds_suffix_parses() {
    assert_eq!(ttml_ms("12.5s"), Some(12_500));
    assert_eq!(ttml_ms("1:02.000"), Some(62_000));
}

#[test]
fn include_lyrics_nests_the_ttml() {
    let value = json::read(
        r#"{"data":[{"type":"songs","relationships":{"lyrics":{"data":[{"attributes":{"ttml":"<tt><body><div><p begin=\"1.5s\">Hola</p></div></body></tt>"}}]}}}]}"#,
    )
    .unwrap();
    let lyrics = from_apple_ttml(&value).unwrap();
    assert_eq!(lyrics.lines[0].text, "Hola");
    assert_eq!(lyrics.lines[0].start_ms, 1500);
}

#[test]
fn ttml_localizations_string_is_used() {
    let value = json::read(
        r#"{"data":[{"attributes":{"ttmlLocalizations":"<tt><body><div><p begin=\"0.064\">Uno</p></div></body></tt>"}}]}"#,
    )
    .unwrap();
    let lyrics = from_apple_ttml(&value).unwrap();
    assert_eq!(lyrics.lines[0].text, "Uno");
    assert_eq!(lyrics.lines[0].start_ms, 64);
}

#[test]
fn lyrics_are_asked_of_the_source_of_the_song() {
    assert_eq!(for_id("sp:abc", true), Asked::Spotify);
    assert_eq!(for_id("yt:abc", true), Asked::Youtube);
    assert_eq!(for_id("1440857781", true), Asked::Apple);
}

#[test]
fn search_terms_are_percent_encoded() {
    assert_eq!(urlencode("Sigur Rós & co"), "Sigur%20R%C3%B3s%20%26%20co");
    assert_eq!(urlencode("plain-term_1.0~x"), "plain-term_1.0~x");
}

#[test]
fn a_session_survives_the_round_trip() {
    let saved = Session {
        songs: vec!["1440857781".into(), "1440857782".into()],
        start: 1,
        position_ms: 42_000,
    };
    let back = session::parse(&saved.text()).unwrap();
    assert_eq!(back.songs, saved.songs);
    assert_eq!(back.start, 1);
    assert_eq!(back.position_ms, 42_000);
}

#[test]
fn a_session_is_kept_as_a_record() {
    let saved = Session {
        songs: vec!["a\"\n".into(), "ñ".into()],
        start: usize::MAX,
        position_ms: u64::MAX,
    };
    assert_eq!(
        saved.text(),
        format!(
            "{{\"songs\":[\"a\\\"\\n\",\"ñ\"],\"start\":{},\"position_ms\":{}}}",
            usize::MAX,
            u64::MAX
        )
    );
    assert_eq!(session::parse(&saved.text()), Some(saved));
}

#[test]
fn an_empty_queue_is_nothing_to_restore() {
    assert!(session::parse(r#"{"songs":[],"start":0,"position_ms":0}"#).is_none());
}

#[test]
fn a_file_we_cannot_read_is_survivable() {
    assert!(session::parse("").is_none());
    assert!(session::parse("{").is_none());
    assert!(session::parse(r#"{"songs":"not a list"}"#).is_none());
}

#[test]
fn the_optional_fields_default() {
    let s = session::parse(r#"{"songs":["1"]}"#).unwrap();
    assert_eq!(s.start, 0);
    assert_eq!(s.position_ms, 0);
}

#[test]
fn spotify_home_counts_as_signed_in() {
    assert!(uri_looks_signed_in(Provider::Spotify, "https://open.spotify.com/intl-es"));
    assert!(!uri_looks_signed_in(Provider::Spotify, "https://accounts.spotify.com/en/login"));
}

#[test]
fn youtube_music_home_counts_as_signed_in() {
    assert!(uri_looks_signed_in(Provider::YoutubeMusic, "https://music.youtube.com/"));
    assert!(!uri_looks_signed_in(
        Provider::YoutubeMusic,
        "https://accounts.google.com/ServiceLogin?service=youtube"
    ));
    assert!(
        !uri_looks_signed_in(Provider::YoutubeMusic, "https://www.youtube.com/"),
        "plain youtube.com is not the Music session"
    );
}

#[test]
fn tidal_home_counts_as_signed_in() {
    assert!(uri_looks_signed_in(Provider::Tidal, "https://listen.tidal.com/"));
    assert!(uri_looks_signed_in(Provider::Tidal, "https://tidal.com/browse"));
    assert!(!uri_looks_signed_in(Provider::Tidal, "https://listen.tidal.com/login"));
    assert!(!uri_looks_signed_in(Provider::Tidal, "https://login.tidal.com/authorize"));
}

#[test]
fn tidal_session_cookies_are_not_analytics() {
    assert!(looks_signed_in(Provider::Tidal, &["SID".into(), "_ga".into()]));
    assert!(looks_signed_in(Provider::Tidal, &["tidal_access_token".into()]));
    assert!(!looks_signed_in(
        Provider::Tidal,
        &["_ga".into(), "__cf_bm".into(), "XSRF-TOKEN".into()]
    ));
}

#[test]
fn sp_dc_means_a_spotify_session() {
    assert!(looks_signed_in(Provider::Spotify, &["sp_dc".into(), "sp_t".into()]));
    assert!(!looks_signed_in(Provider::Spotify, &["sp_landing".into()]));
    assert!(
        !looks_signed_in(Provider::Spotify, &["sp_key".into()]),
        "sp_key without sp_dc is not a logged-in session"
    );
}

fn cookie() -> NetscapeCookie {
    NetscapeCookie {
        domain: "spotify.com".into(),
        host_only: false,
        path: "/".into(),
        secure: true,
        http_only: true,
        expires: 2000000000,
        name: "sp_dc".into(),
        value: "abc".into(),
    }
}

#[test]
fn netscape_round_trip_keeps_httponly() {
    let text = netscape_text(&[cookie()]);
    assert!(text.contains("#HttpOnly_.spotify.com"));
    assert!(text.contains("sp_dc"));
}

#[test]
fn a_written_cookie_is_read_back() {
    let text = netscape_text(&[cookie()]);
    assert_eq!(cookie_header(&text).as_deref(), Some("sp_dc=abc"));
    assert_eq!(cookie_names(&text), ["sp_dc"]);
    assert_eq!(session_cookie(Provider::Spotify, &text).as_deref(), Some("sp_dc=abc"));
    assert_eq!(cookie_header(""), None);
}

#[test]
fn youtube_cookie_header_prefers_music_over_google() {
    let text = "\
.google.com	TRUE	/	TRUE	0	SID	google-sid
.youtube.com	TRUE	/	TRUE	0	SID	youtube-sid
.music.youtube.com	TRUE	/	TRUE	0	SID	music-sid
.google.com	TRUE	/	TRUE	0	SAPISID	google-sapi
";
    let header =
        ranked_cookie_header_from(text, &["music.youtube.com", "youtube.com", "google.com"])
            .unwrap();
    assert!(header.contains("SID=music-sid"));
    assert!(!header.contains("google-sid"));
    assert!(!header.contains("youtube-sid"));
    assert!(header.contains("SAPISID=google-sapi"));
}

#[test]
fn a_source_is_set_up_until_it_is_cleared() {
    let list = mark_configured("", Provider::Spotify).unwrap();
    assert!(is_configured(Some(&list), Provider::Spotify));
    assert!(!is_configured(Some(&list), Provider::Tidal));
    assert_eq!(mark_configured(&list, Provider::Spotify).as_deref(), Some(list.as_str()));
    assert!(mark_configured(&list, Provider::AppleMusic).is_none());
    let both = mark_configured(&list, Provider::Tidal).unwrap();
    let left = clear(&both, Provider::Spotify).unwrap_or_default();
    assert!(!is_configured(Some(&left), Provider::Spotify));
    assert!(is_configured(Some(&left), Provider::Tidal));
}

#[test]
fn cookies_are_handed_on_only_if_they_are_there() {
    let path = Some("/c/cookies.txt".to_owned());
    assert!(ytdlp_cookie_args(&path, false).is_empty());
    assert_eq!(ytdlp_cookie_args(&path, true), ["--cookies", "/c/cookies.txt"]);
    assert!(ytdlp_cookie_args(&None, true).is_empty());
}

fn seconds_of(raw: &str) -> Option<u64> {
    let s = raw.trim().trim_end_matches('s');
    let parts: Vec<&str> = s.split(':').collect();
    let num = |p: &str| p.parse::<f64>().ok();
    let seconds = match parts.as_slice() {
        [h, m, sec] => num(h)? * 3600.0 + num(m)? * 60.0 + num(sec)?,
        [m, sec] => num(m)? * 60.0 + num(sec)?,
        [sec] => num(sec)?,
        _ => return None,
    };
    if !seconds.is_finite() || seconds < 0.0 {
        return None;
    }
    Some((seconds * 1000.0).round() as u64)
}

#[test]
fn times_are_reckoned_as_doubles() {
    assert_eq!(ttml_ms("1e3"), Some(1_000_000));
    assert_eq!(ttml_ms("1234567890123.5"), Some(1_234_567_890_123_500));
    assert_eq!(ttml_ms("-1"), None);
    assert_eq!(ttml_ms("-0"), Some(0));
    assert_eq!(ttml_ms("1e400"), None);
    assert_eq!(ttml_ms("1e308"), Some(u64::MAX));
    assert_eq!(ttml_ms("1e-400"), Some(0));
    let long = "9".repeat(500);
    let zeros = format!("0.{}1e600", "0".repeat(590));
    let raws = [
        "0.0005", "1.0005", "1.0015", "2.0025", "8.3205", "12.5s", "1:02.000", "1:00:00.001",
        "0:00.0005", "-1:90", "-1:90:0", "1:-61", ".5", "5.", ".", "", "+3", "+", "-", "1e", "1e+",
        "1e+2", "1E-3", "e5", ".e5", "1.2.3", "1_0", " 7 ", "7ss", "inf", "nan", "-inf", "infinity",
        "1:inf", "4.35", "0.1:0.2", "0.1:0.2:0.3", "1e22", "1e23", "9007199254740993",
        "9007199254740992.5", "18446744073709551.615", "18446744073709551.616", "5e-324", "2e-324",
        "1.7976931348623157e308", "1.7976931348623159e308", "1e305:0", "1e308:0:0", "1e308:-1e308:0",
        "1e99999999999999999999999999999999999999", "1e-99999999999999999999999999999999999999",
        "0e99999999999999999999999999999999999999", "123456789.123456789123456789", "0.3", "0.7", "00012",
        long.as_str(), zeros.as_str(), "1:2:3:4", "59.9995", "3:59.9994999999", "1e-4", "ñ",
    ];
    for raw in raws {
        assert_eq!(ttml_ms(raw), seconds_of(raw), "{raw}");
    }
    let mut n: u64 = 12345;
    for _ in 0..300 {
        n = n.wrapping_mul(6364136223846793005).wrapping_add(1442695040888963407);
        let raw = format!("{}:{}.{:04}", n % 60, n / 60 % 60, n / 3600 % 10_000);
        assert_eq!(ttml_ms(&raw), seconds_of(&raw), "{raw}");
        let raw = format!("{}.{}e-{}", n % 1000, n, n % 30);
        assert_eq!(ttml_ms(&raw), seconds_of(&raw), "{raw}");
    }
}
