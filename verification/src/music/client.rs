//! Talking to Apple Music: what its requests ask for, how pages follow each
//! other, and what is made of the answers.
use vstd::prelude::*;
use vstd::utf8::encode_utf8;

use crate::catalog;
use crate::json::{self, Json};
use crate::music::mixed::{not_null, unless_null};
use crate::music::types::{seen, seen_opt, Track};
use crate::percent;
use crate::text;

verus! {

/// Where requests go.
pub const API_BASE: &'static str = "https://api.music.apple.com/v1";

/// Where requests for texts go first.
pub const AMP_API_BASE: &'static str = "https://amp-api.music.apple.com/v1";

/// How many songs of a playlist are asked for at most.
pub const PLAYLIST_MAX: usize = 1_000;

/// How many things a page of a list holds.
pub const LIBRARY_PAGE: usize = 100;

/// How many pages are asked for at once.
pub const LIBRARY_CONCURRENCY: usize = 6;

/// Why a request came to nothing.
#[derive(Debug, Clone, Copy, PartialEq, Eq, Structural)]
pub enum ApiError {
    /// Nobody is signed in.
    Unauthorized,
    /// The request was rejected although somebody is.
    Rejected,
    /// There is no subscription.
    Forbidden,
    NotFound,
    Offline,
    Other(u16),
}

/// What a status means. A rejected request does not tell anybody to sign in who
/// is signed in.
pub open spec fn diagnosed(status: u16, signed_in: bool) -> ApiError {
    if status == 401 && signed_in {
        ApiError::Rejected
    } else if status == 401 {
        ApiError::Unauthorized
    } else if status == 403 {
        ApiError::Forbidden
    } else if status == 404 {
        ApiError::NotFound
    } else {
        ApiError::Other(status)
    }
}

/// What a status means.
pub fn diagnose(status: u16, signed_in: bool) -> (r: ApiError)
    ensures
        r == diagnosed(status, signed_in),
{
    if status == 401 && signed_in {
        ApiError::Rejected
    } else if status == 401 {
        ApiError::Unauthorized
    } else if status == 403 {
        ApiError::Forbidden
    } else if status == 404 {
        ApiError::NotFound
    } else {
        ApiError::Other(status)
    }
}

/// Why a request did not get through: there is no connection, or something
/// between is broken.
pub fn transport_error(is_connect: bool) -> (r: ApiError)
    ensures
        r == if is_connect {
            ApiError::Offline
        } else {
            ApiError::Other(502)
        },
{
    if is_connect {
        ApiError::Offline
    } else {
        ApiError::Other(502)
    }
}

impl ApiError {
    /// What a failure is called, `status` being what its number is called.
    pub open spec fn spec_message(self, status: Seq<char>) -> Seq<char> {
        match self {
            ApiError::Unauthorized => "not signed in to Apple Music"@,
            ApiError::Rejected =>
                "Apple Music rejected the request (401) despite a valid session"@,
            ApiError::Forbidden => "no active Apple Music subscription"@,
            ApiError::NotFound => "not found"@,
            ApiError::Offline => "offline — check your connection"@,
            ApiError::Other(_) => "Apple Music error ("@ + status + ")"@,
        }
    }

    /// What a failure is called, `status` being what its number is called.
    pub fn message(&self, status: &str) -> (r: String)
        ensures
            r@ == self.spec_message(status@),
    {
        match self {
            ApiError::Unauthorized => "not signed in to Apple Music".to_owned(),
            ApiError::Rejected => {
                "Apple Music rejected the request (401) despite a valid session".to_owned()
            },
            ApiError::Forbidden => "no active Apple Music subscription".to_owned(),
            ApiError::NotFound => "not found".to_owned(),
            ApiError::Offline => "offline — check your connection".to_owned(),
            ApiError::Other(_) => {
                let mut out = "Apple Music error (".to_owned();
                out.append(status);
                out.append(")");
                out
            },
        }
    }
}

/// `s` cut to `n` bytes of UTF-8, or less where a character would be cut.
pub open spec fn cut_bytes(s: Seq<char>, n: int) -> Seq<char>
    decreases s.len(),
{
    if s.len() == 0 || text::width(s[0]) > n {
        Seq::empty()
    } else {
        seq![s[0]] + cut_bytes(s.skip(1), n - text::width(s[0]))
    }
}

fn cut(s: &str, n: usize) -> (r: String)
    ensures
        r@ == cut_bytes(s@, n as int),
{
    let v = text::chars(s);
    let mut left: usize = n;
    let mut i: usize = 0;
    let ghost all = cut_bytes(s@, n as int);
    proof {
        assert(v@.skip(0) =~= s@);
        assert(v@.take(0) + all =~= all);
    }
    while i < v.len() && text::width_in(v[i]) <= left
        invariant
            i <= v@.len(),
            v@ == s@,
            all == v@.take(i as int) + cut_bytes(v@.skip(i as int), left as int),
        decreases v@.len() - i,
    {
        let ghost rest = v@.skip(i as int);
        let w = text::width_in(v[i]);
        proof {
            assert(rest[0] == v@[i as int]);
            assert(rest.skip(1) =~= v@.skip(i + 1));
            text::take_step(v@, i as int);
            let tail = cut_bytes(v@.skip(i + 1), left - w);
            assert(v@.take(i + 1) + tail =~= v@.take(i as int) + (seq![rest[0]] + tail));
        }
        left -= w;
        i += 1;
    }
    proof {
        let rest = v@.skip(i as int);
        if i < v@.len() {
            assert(rest[0] == v@[i as int]);
        }
        assert(cut_bytes(rest, left as int) == Seq::<char>::empty());
        assert(all =~= v@.subrange(0, i as int));
    }
    text::slice(&v, 0, i)
}

/// A failure with what the service said of it: the start of the body, on one
/// line, where there is one.
pub open spec fn explained(message: Seq<char>, body: Seq<char>) -> Seq<char> {
    let detail = text::trimmed(body);
    if detail.len() == 0 {
        message
    } else {
        message + " — "@ + cut_bytes(text::replaced(detail, "\n"@, " "@), 400)
    }
}

/// A failure with what the service said of it.
pub fn explain(message: &str, body: &str) -> (r: String)
    ensures
        r@ == explained(message@, body@),
{
    let detail = text::trim(body);
    if detail.as_str().is_empty() {
        return message.to_owned();
    }
    proof {
        reveal_strlit("\n");
    }
    let line = text::replace(detail.as_str(), "\n", " ");
    let mut out = message.to_owned();
    out.append(" — ");
    out.append(cut(line.as_str(), 400).as_str());
    out
}

/// The places of the pages that are asked for at once.
pub open spec fn places(offset: usize) -> Seq<usize> {
    Seq::new(LIBRARY_CONCURRENCY as nat, |i: int| (offset + i * LIBRARY_PAGE) as usize)
}

/// The places of the pages that are asked for at once.
pub fn offsets(offset: usize) -> (r: Vec<usize>)
    requires
        offset + LIBRARY_CONCURRENCY * LIBRARY_PAGE <= usize::MAX,
    ensures
        r@ == Seq::new(LIBRARY_CONCURRENCY as nat, |i: int| (offset + i * LIBRARY_PAGE) as usize),
        r@ == places(offset),
{
    let mut out: Vec<usize> = Vec::new();
    let mut i: usize = 0;
    while i < LIBRARY_CONCURRENCY
        invariant
            i <= LIBRARY_CONCURRENCY,
            offset + LIBRARY_CONCURRENCY * LIBRARY_PAGE <= usize::MAX,
            out@ =~= Seq::new(i as nat, |i: int| (offset + i * LIBRARY_PAGE) as usize),
        decreases LIBRARY_CONCURRENCY - i,
    {
        out.push(offset + i * LIBRARY_PAGE);
        i += 1;
    }
    out
}

/// How many things pages hold.
pub open spec fn sum(lens: Seq<usize>) -> int
    decreases lens.len(),
{
    if lens.len() == 0 {
        0
    } else {
        sum(lens.drop_last()) + lens.last()
    }
}

/// Whether a page is not full.
pub open spec fn any_short(lens: Seq<usize>) -> bool {
    exists|i: int| 0 <= i < lens.len() && (#[trigger] lens[i]) < LIBRARY_PAGE
}

/// Where the next round of pages begins.
pub open spec fn round_after(offset: usize, lens: Seq<usize>, max: usize) -> Option<usize> {
    if any_short(lens) || sum(lens) == 0 || offset + sum(lens) >= max {
        None
    } else {
        Some((offset + sum(lens)) as usize)
    }
}

/// Where the next round of pages begins, the last having begun at `offset`:
/// nowhere after a page that was not full, where nothing came at all, or where
/// there are `max` things.
pub fn next_round(offset: usize, lens: &Vec<usize>, max: usize) -> (r: Option<usize>)
    requires
        offset + sum(lens@) <= usize::MAX,
    ensures
        r == if any_short(lens@) || sum(lens@) == 0 || offset + sum(lens@) >= max {
            None
        } else {
            Some((offset + sum(lens@)) as usize)
        },
        r == round_after(offset, lens@, max),
{
    let mut round: usize = 0;
    let mut short = false;
    let mut i: usize = 0;
    assert(lens@.take(0) =~= Seq::<usize>::empty());
    while i < lens.len()
        invariant
            i <= lens@.len(),
            offset + sum(lens@) <= usize::MAX,
            round == sum(lens@.take(i as int)),
            short == exists|j: int| 0 <= j < i && (#[trigger] lens@[j]) < LIBRARY_PAGE,
        decreases lens@.len() - i,
    {
        proof {
            text::take_step(lens@, i as int);
            assert(lens@.take(i + 1).drop_last() =~= lens@.take(i as int));
            sums_grow(lens@, i + 1);
        }
        round += lens[i];
        if lens[i] < LIBRARY_PAGE {
            short = true;
        }
        i += 1;
    }
    assert(lens@.take(i as int) =~= lens@);
    if short || round == 0 || offset + round >= max {
        None
    } else {
        Some(offset + round)
    }
}

proof fn sums_grow(lens: Seq<usize>, n: int)
    requires
        0 <= n <= lens.len(),
    ensures
        0 <= sum(lens.take(n)) <= sum(lens),
    decreases lens.len() - n,
{
    if n < lens.len() {
        sums_grow(lens, n + 1);
        text::take_step(lens, n);
        assert(lens.take(n + 1).drop_last() =~= lens.take(n));
        sums_are_not_negative(lens.take(n));
    } else {
        assert(lens.take(n) =~= lens);
        sums_are_not_negative(lens);
    }
}

proof fn sums_are_not_negative(lens: Seq<usize>)
    ensures
        sum(lens) >= 0,
    decreases lens.len(),
{
    if lens.len() > 0 {
        sums_are_not_negative(lens.drop_last());
    }
}

/// A full round moves on by all its pages: the next one begins where the last
/// of them ended.
pub proof fn a_full_round_leaves_no_gap(offset: int, lens: Seq<usize>)
    requires
        lens.len() == LIBRARY_CONCURRENCY,
        forall|i: int| 0 <= i < lens.len() ==> #[trigger] lens[i] == LIBRARY_PAGE,
    ensures
        offset + sum(lens) == offset + LIBRARY_CONCURRENCY * LIBRARY_PAGE,
        !any_short(lens),
{
    reveal_with_fuel(sum, 7);
    assert(lens[0] == 100 && lens[1] == 100 && lens[2] == 100 && lens[3] == 100 && lens[4] == 100
        && lens[5] == 100);
    let a = lens.drop_last();
    let b = a.drop_last();
    let c = b.drop_last();
    let d = c.drop_last();
    let e = d.drop_last();
    assert(sum(e.drop_last()) == 0);
    assert(sum(e) == 100);
    assert(sum(d) == 200);
    assert(sum(c) == 300);
    assert(sum(b) == 400);
    assert(sum(a) == 500);
}

/// The path of a page.
pub fn page_path(base: &str, kind: &str, extra_query: &str, offset: usize) -> (r: String)
    ensures
        r@ == base@ + "/"@ + kind@ + "?limit=100&offset="@ + text::decimal(offset as nat)
            + extra_query@,
{
    let mut out = base.to_owned();
    out.append("/");
    out.append(kind);
    out.append("?limit=100&offset=");
    out.append(text::number(offset as u64).as_str());
    out.append(extra_query);
    out
}

/// The path of a search.
pub fn search_path(storefront: &str, types: &str, limit: u32, offset: usize, term: &str) -> (r:
    String)
    ensures
        r@ == "/catalog/"@ + storefront@ + "/search?types="@ + types@ + "&limit="@ + text::decimal(
            limit as nat,
        ) + "&offset="@ + text::decimal(offset as nat) + "&term="@ + percent::encoded(
            encode_utf8(term@),
        ),
{
    let mut out = "/catalog/".to_owned();
    out.append(storefront);
    out.append("/search?types=");
    out.append(types);
    out.append("&limit=");
    out.append(text::number(limit as u64).as_str());
    out.append("&offset=");
    out.append(text::number(offset as u64).as_str());
    out.append("&term=");
    out.append(percent::urlencode(term).as_str());
    out
}

/// The library id of a catalog id among pairs, the last one standing.
pub open spec fn member_of(members: Seq<(String, String)>, id: Seq<char>) -> Option<Seq<char>>
    decreases members.len(),
{
    if members.len() == 0 {
        None
    } else if members.last().0@ == id {
        Some(members.last().1@)
    } else {
        member_of(members.drop_last(), id)
    }
}

fn find_member(members: &Vec<(String, String)>, id: &str) -> (r: Option<String>)
    ensures
        text::opt_view(r) == member_of(members@, id@),
{
    let mut i: usize = members.len();
    assert(members@.take(i as int) =~= members@);
    while i > 0
        invariant
            i <= members@.len(),
            member_of(members@, id@) == member_of(members@.take(i as int), id@),
        decreases i,
    {
        proof {
            text::take_step(members@, i - 1);
            assert(members@.take(i as int).drop_last() =~= members@.take(i - 1));
            assert(members@.take(i as int).last() == members@[i - 1]);
        }
        if text::same(members[i - 1].0.as_str(), id) {
            return Some(members[i - 1].1.clone());
        }
        i -= 1;
    }
    None
}

/// A song with what the library says of it.
pub open spec fn with_membership(t: Track, members: Seq<(String, String)>) -> Option<Seq<char>> {
    match t.catalog_id {
        Some(c) => member_of(members, c@),
        None => None,
    }
}

/// Whether `after` are the songs `before` with those marked that are in the
/// library.
pub open spec fn are_marked(
    before: Seq<Track>,
    members: Seq<(String, String)>,
    after: Seq<Track>,
) -> bool {
    &&& after.len() == before.len()
    &&& forall|i: int|
        0 <= i < before.len() ==> (match with_membership(before[i], members) {
            Some(library_id) => (#[trigger] after[i])@ == (crate::music::types::SongView {
                in_library: true,
                library_id: Some(library_id),
                ..before[i]@
            }),
            None => after[i] == before[i],
        })
}

/// Mark the songs that are in the library.
pub fn mark_members(songs: &mut Vec<Track>, members: &Vec<(String, String)>)
    ensures
        final(songs)@.len() == old(songs)@.len(),
        forall|i: int|
            0 <= i < old(songs)@.len() ==> (match with_membership(old(songs)@[i], members@) {
                Some(library_id) => (#[trigger] final(songs)@[i])@ == (
                crate::music::types::SongView {
                    in_library: true,
                    library_id: Some(library_id),
                    ..old(songs)@[i]@
                }),
                None => final(songs)@[i] == old(songs)@[i],
            }),
        are_marked(old(songs)@, members@, final(songs)@),
{
    let ghost before = songs@;
    let mut i: usize = 0;
    while i < songs.len()
        invariant
            i <= songs@.len(),
            songs@.len() == before.len(),
            forall|j: int| i <= j < before.len() ==> songs@[j] == before[j],
            forall|j: int|
                0 <= j < i ==> (match with_membership(before[j], members@) {
                    Some(library_id) => (#[trigger] songs@[j])@ == (
                    crate::music::types::SongView {
                        in_library: true,
                        library_id: Some(library_id),
                        ..before[j]@
                    }),
                    None => songs@[j] == before[j],
                }),
        decreases songs@.len() - i,
    {
        let found = match &songs[i].catalog_id {
            Some(c) => find_member(members, c.as_str()),
            None => None,
        };
        if let Some(library_id) = found {
            let mut song = songs[i].clone();
            song.in_library = true;
            song.library_id = Some(library_id);
            songs.set(i, song);
        }
        i += 1;
    }
}

/// A song of a list of the library's: it is in the library, under its own id.
pub fn mark_songs(songs: &mut Vec<Track>)
    ensures
        final(songs)@.len() == old(songs)@.len(),
        forall|i: int|
            0 <= i < old(songs)@.len() ==> (#[trigger] final(songs)@[i])@ == (
            crate::music::types::SongView {
                in_library: true,
                library_id: Some(old(songs)@[i].id.0@),
                ..old(songs)@[i]@
            }),
{
    let ghost before = songs@;
    let mut i: usize = 0;
    while i < songs.len()
        invariant
            i <= songs@.len(),
            songs@.len() == before.len(),
            forall|j: int| i <= j < before.len() ==> songs@[j] == before[j],
            forall|j: int|
                0 <= j < i ==> (#[trigger] songs@[j])@ == (crate::music::types::SongView {
                    in_library: true,
                    library_id: Some(before[j].id.0@),
                    ..before[j]@
                }),
        decreases songs@.len() - i,
    {
        let mut song = songs[i].clone();
        song.in_library = true;
        song.library_id = Some(song.id.0.clone());
        songs.set(i, song);
        i += 1;
    }
}

/// The path that adds a thing to the library.
pub fn add_to_library(kind: &str, id: &str) -> (r: String)
    ensures
        r@ == "/me/library?ids["@ + kind@ + "]="@ + id@,
{
    let mut out = "/me/library?ids[".to_owned();
    out.append(kind);
    out.append("]=");
    out.append(id);
    out
}

/// The path that makes a thing a favourite.
pub fn add_to_favorites(kind: &str, id: &str) -> (r: String)
    ensures
        r@ == "/me/favorites?ids["@ + kind@ + "]="@ + id@,
{
    let mut out = "/me/favorites?ids[".to_owned();
    out.append(kind);
    out.append("]=");
    out.append(id);
    out
}

/// The path that adds a song to a playlist.
pub fn add_to_playlist(playlist_id: &str) -> (r: String)
    ensures
        r@ == "/me/library/playlists/"@ + playlist_id@ + "/tracks"@,
{
    let mut out = "/me/library/playlists/".to_owned();
    out.append(playlist_id);
    out.append("/tracks");
    out
}

/// Whether a new playlist begins with the song `r`, the id and the kind.
pub open spec fn begins_with(r: Option<(&str, &str)>, track_id: Option<&str>) -> bool {
    match track_id {
        Some(id) => if id@.len() == 0 {
            r is None
        } else {
            r matches Some((i, kind)) && i@ == id@ && kind@ == if "i."@.is_prefix_of(id@) {
                "library-songs"@
            } else {
                "songs"@
            }
        },
        None => r is None,
    }
}

/// The song that a new playlist begins with, and its kind; none where there is
/// no id.
pub fn first_song<'a>(track_id: Option<&'a str>) -> (r: Option<(&'a str, &'static str)>)
    ensures
        match track_id {
            Some(id) => if id@.len() == 0 {
                r is None
            } else {
                r matches Some((i, kind)) && i@ == id@ && kind@ == if "i."@.is_prefix_of(id@) {
                    "library-songs"@
                } else {
                    "songs"@
                }
            },
            None => r is None,
        },
        begins_with(r, track_id),
{
    match track_id {
        Some(id) => if id.is_empty() {
            None
        } else if text::starts_with(id, "i.") {
            Some((id, "library-songs"))
        } else {
            Some((id, "songs"))
        },
        None => None,
    }
}

/// The first thing of a list, or the member of that name of an object.
pub open spec fn first_of(v: Option<Json>) -> Option<Json> {
    match v {
        Some(Json::List(l)) => if l@.len() > 0 {
            Some(l@[0])
        } else {
            None
        },
        Some(Json::Object(m)) => json::member(m@, "0"@),
        _ => None,
    }
}

fn first_in<'a>(v: Option<&'a Json>) -> (r: Option<&'a Json>)
    ensures
        json::held(r) == first_of(json::held(v)),
{
    match v {
        Some(Json::List(l)) => if l.len() > 0 {
            Some(&l[0])
        } else {
            None
        },
        Some(Json::Object(_)) => json::at(v, "0"),
        _ => None,
    }
}

/// The id of a playlist that was made: of the first thing that the answer
/// lists, else of the one that it is.
pub fn playlist_id_from_create(value: &Json) -> (r: Option<String>)
    ensures
        text::opt_view(r) == match json::text_in(
            json::either(
                json::under(first_of(json::in_object(*value, "data"@)), "id"@),
                json::under(json::in_object(*value, "data"@), "id"@),
            ),
        ) {
            Some(s) => if s.len() > 0 {
                Some(s)
            } else {
                None
            },
            None => None,
        },
{
    let data = value.get("data");
    match json::text_of(json::or(json::at(first_in(data), "id"), json::at(data, "id"))) {
        Some(s) => if s.is_empty() {
            None
        } else {
            Some(s.to_owned())
        },
        None => None,
    }
}

/// Where the text of a song is asked for, in order: nowhere, where the id is
/// not one of the catalogue.
pub fn lyrics_paths(storefront: &str, song_id: &str) -> (r: Option<Vec<String>>)
    ensures
        match r {
            Some(paths) => {
                &&& forall|i: int| 0 <= i < song_id@.len() ==> '0' <= #[trigger] song_id@[i] <= '9'
                &&& text::views(paths@) == seq![
                    "/catalog/"@ + storefront@ + "/songs/"@ + song_id@
                        + "/syllable-lyrics?extend=ttmlLocalizations"@,
                    "/catalog/"@ + storefront@ + "/songs/"@ + song_id@ + "/lyrics"@,
                    "/catalog/"@ + storefront@ + "/songs/"@ + song_id@ + "?include=lyrics"@,
                ]
            },
            None => exists|i: int|
                0 <= i < song_id@.len() && !('0' <= #[trigger] song_id@[i] <= '9'),
        },
{
    let v = text::chars(song_id);
    let mut i: usize = 0;
    while i < v.len()
        invariant
            i <= v@.len(),
            v@ == song_id@,
            forall|j: int| 0 <= j < i ==> '0' <= #[trigger] v@[j] <= '9',
        decreases v@.len() - i,
    {
        if v[i] < '0' || '9' < v[i] {
            assert(!('0' <= song_id@[i as int] <= '9'));
            return None;
        }
        i += 1;
    }
    let mut base = "/catalog/".to_owned();
    base.append(storefront);
    base.append("/songs/");
    base.append(song_id);
    let mut a = base.clone();
    a.append("/syllable-lyrics?extend=ttmlLocalizations");
    let mut b = base.clone();
    b.append("/lyrics");
    let mut c = base;
    c.append("?include=lyrics");
    let paths = vec![a, b, c];
    assert(text::views(paths@) =~= seq![
        "/catalog/"@ + storefront@ + "/songs/"@ + song_id@
            + "/syllable-lyrics?extend=ttmlLocalizations"@,
        "/catalog/"@ + storefront@ + "/songs/"@ + song_id@ + "/lyrics"@,
        "/catalog/"@ + storefront@ + "/songs/"@ + song_id@ + "?include=lyrics"@,
    ]);
    Some(paths)
}

/// The id of a resource.
pub open spec fn id_in(v: Json) -> Option<Seq<char>> {
    json::text_in(json::in_object(v, "id"@))
}

fn read_id(v: &Json) -> (r: Option<String>)
    ensures
        seen_opt(r) == id_in(*v),
{
    match json::text_of(v.get("id")) {
        Some(s) => Some(s.to_owned()),
        None => None,
    }
}

/// The relationship of this name: nothing where the resource has none, and
/// none where it cannot be read.
pub open spec fn relation(v: Json, name: Seq<char>) -> Option<Option<Json>> {
    match json::in_object(v, "relationships"@) {
        None | Some(Json::Null) => Some(None),
        Some(Json::Object(m)) => Some(not_null(json::member(m@, name))),
        Some(_) => None,
    }
}

/// The relationship of this name.
pub fn relation_of<'a>(v: &'a Json, name: &str) -> (r: Option<Option<&'a Json>>)
    ensures
        match r {
            Some(found) => relation(*v, name@) == Some(json::held(found)),
            None => relation(*v, name@) is None,
        },
{
    match v.get("relationships") {
        None => Some(None),
        Some(Json::Null) => Some(None),
        Some(relationships) => match relationships {
            Json::Object(_) => Some(unless_null(relationships.get(name))),
            _ => None,
        },
    }
}

/// The first id that a relationship lists, if it lists any; none where the
/// relationship cannot be read.
pub open spec fn related(v: Json, name: Seq<char>) -> Option<Option<Seq<char>>> {
    match relation(v, name) {
        None => None,
        Some(None) => Some(None),
        Some(Some(found)) => match json::list_in(json::in_object(found, "data"@)) {
            Some(l) => match json::every(l, |j: Json| id_in(j)) {
                Some(ids) => Some(
                    if ids.len() > 0 {
                        Some(ids[0])
                    } else {
                        None
                    },
                ),
                None => None,
            },
            None => None,
        },
    }
}

/// The first id that a relationship lists.
pub fn related_id(v: &Json, name: &str) -> (r: Option<Option<String>>)
    ensures
        match r {
            Some(id) => related(*v, name@) == Some(text::opt_view(id)),
            None => related(*v, name@) is None,
        },
{
    match relation_of(v, name) {
        None => None,
        Some(None) => Some(None),
        Some(Some(found)) => match json::list_of(found.get("data")) {
            Some(l) => match json::every_item(l, read_id, Ghost(|j: Json| id_in(j))) {
                Some(ids) => if ids.len() > 0 {
                    assert(seen(ids@)[0] == ids@[0]@);
                    Some(Some(ids[0].clone()))
                } else {
                    Some(None)
                },
                None => None,
            },
            None => None,
        },
    }
}

/// What a song belongs to: an album and an artist, if any.
#[derive(Debug)]
struct Containers {
    album: Option<String>,
    artist: Option<String>,
}

impl View for Containers {
    type V = (Option<Seq<char>>, Option<Seq<char>>);

    closed spec fn view(&self) -> (Option<Seq<char>>, Option<Seq<char>>) {
        (text::opt_view(self.album), text::opt_view(self.artist))
    }
}

/// The album and the artist that a song says it belongs to.
pub open spec fn containers_in(v: Json) -> Option<(Option<Seq<char>>, Option<Seq<char>>)> {
    match (v is Object, related(v, "albums"@), related(v, "artists"@)) {
        (true, Some(album), Some(artist)) => Some((album, artist)),
        _ => None,
    }
}

fn containers(v: &Json) -> (r: Option<Containers>)
    ensures
        seen_opt(r) == containers_in(*v),
{
    if !matches!(v, Json::Object(_)) {
        return None;
    }
    match (related_id(v, "albums"), related_id(v, "artists")) {
        (Some(album), Some(artist)) => Some(Containers { album, artist }),
        _ => None,
    }
}

/// The album and the artist that a song belongs to. An answer without a song is
/// none, and so is one that lists anything that cannot be read.
pub fn song_containers(value: &Json) -> (r: Option<(Option<String>, Option<String>)>)
    ensures
        match json::list_in(json::in_object(*value, "data"@)) {
            Some(l) => match json::every(l, |j: Json| containers_in(j)) {
                Some(found) => if found.len() > 0 {
                    &&& r matches Some((album, artist))
                    &&& (text::opt_view(album), text::opt_view(artist)) == found[0]
                } else {
                    r is None
                },
                None => r is None,
            },
            None => r is None,
        },
{
    match json::list_of(value.get("data")) {
        Some(l) => match json::every_item(l, containers, Ghost(|j: Json| containers_in(j))) {
            Some(found) => if found.len() > 0 {
                assert(seen(found@)[0] == found@[0]@);
                Some((found[0].album.clone(), found[0].artist.clone()))
            } else {
                None
            },
            None => None,
        },
        None => None,
    }
}

/// A round goes on right behind what came, and only while every page was full
/// and more is wanted.
pub proof fn a_round_goes_on_behind_what_came(offset: usize, lens: Seq<usize>, max: usize, i: int)
    requires
        offset + sum(lens) <= usize::MAX,
        0 <= i < lens.len(),
    ensures
        round_after(offset, lens, max) matches Some(next) ==> next == offset + sum(lens) && offset
            < next < max && lens[i] >= 100,
        lens[i] < 100 ==> round_after(offset, lens, max) is None,
        offset + sum(lens) >= max ==> round_after(offset, lens, max) is None,
        (forall|j: int| 0 <= j < lens.len() ==> #[trigger] lens[j] == 100) && offset + sum(lens)
            < max ==> round_after(offset, lens, max) is Some,
{
    sums_are_not_negative(lens);
    if (forall|j: int| 0 <= j < lens.len() ==> #[trigger] lens[j] == 100) {
        sums_are_not_negative(lens.drop_last());
        assert(lens[lens.len() - 1] == 100);
        assert(sum(lens) > 0);
    }
}

/// How many things pages hold is how many the one holds and the others.
pub proof fn pages_add_up(a: Seq<usize>, one: usize)
    ensures
        sum(a.push(one)) == sum(a) + one,
        sum(Seq::<usize>::empty()) == 0,
{
    assert(a.push(one).drop_last() =~= a);
}

/// A song is marked exactly where its catalogue id is among the members, and
/// nothing else of any song changes.
pub proof fn marking_changes_membership_alone(
    before: Seq<Track>,
    members: Seq<(String, String)>,
    after: Seq<Track>,
    i: int,
    k: int,
)
    requires
        are_marked(before, members, after),
        0 <= i < before.len(),
        0 <= k < members.len(),
    ensures
        after.len() == before.len(),
        after[i]@.id == before[i]@.id,
        after[i]@.title == before[i]@.title,
        after[i]@.artist == before[i]@.artist,
        after[i]@.album == before[i]@.album,
        after[i]@.catalog_id == before[i]@.catalog_id,
        after[i]@.favorite == before[i]@.favorite,
        before[i].catalog_id is None ==> after[i] == before[i],
        before[i]@.catalog_id == Some(members[k].0@) && (forall|j: int|
            k < j < members.len() ==> (#[trigger] members[j]).0@ != members[k].0@)
            ==> after[i]@.in_library && after[i]@.library_id == Some(members[k].1@),
        before[i]@.catalog_id matches Some(c) && (forall|j: int|
            0 <= j < members.len() ==> (#[trigger] members[j]).0@ != c) ==> after[i] == before[i],
{
    if before[i].catalog_id is Some {
        let c = before[i].catalog_id->0@;
        if (forall|j: int| 0 <= j < members.len() ==> (#[trigger] members[j]).0@ != c) {
            no_member(members, c);
        }
        if c == members[k].0@ && (forall|j: int|
            k < j < members.len() ==> (#[trigger] members[j]).0@ != members[k].0@) {
            last_member(members, k);
        }
    }
}

proof fn no_member(members: Seq<(String, String)>, id: Seq<char>)
    requires
        forall|j: int| 0 <= j < members.len() ==> (#[trigger] members[j]).0@ != id,
    ensures
        member_of(members, id) is None,
    decreases members.len(),
{
    if members.len() > 0 {
        let rest = members.drop_last();
        assert forall|j: int| 0 <= j < rest.len() implies (#[trigger] rest[j]).0@ != id by {
            assert(rest[j] == members[j]);
        }
        no_member(rest, id);
        assert(members.last() == members[members.len() - 1]);
    }
}

proof fn last_member(members: Seq<(String, String)>, k: int)
    requires
        0 <= k < members.len(),
        forall|j: int| k < j < members.len() ==> (#[trigger] members[j]).0@ != members[k].0@,
    ensures
        member_of(members, members[k].0@) == Some(members[k].1@),
    decreases members.len(),
{
    if k < members.len() - 1 {
        let rest = members.drop_last();
        assert forall|j: int| k < j < rest.len() implies (#[trigger] rest[j]).0@
            != rest[k].0@ by {
            assert(rest[j] == members[j]);
        }
        last_member(rest, k);
        assert(members.last() == members[members.len() - 1]);
    }
}

/// Nobody who is signed in is told to sign in; nobody who is not is told that
/// the session is valid; and every status says something else.
pub proof fn a_status_is_diagnosed(status: u16, signed_in: bool)
    ensures
        signed_in ==> !(diagnosed(status, signed_in) is Unauthorized),
        !signed_in ==> !(diagnosed(status, signed_in) is Rejected),
        diagnosed(401, true) is Rejected,
        diagnosed(401, false) is Unauthorized,
        diagnosed(403, signed_in) is Forbidden,
        diagnosed(404, signed_in) is NotFound,
        status != 401 && status != 403 && status != 404 ==> diagnosed(status, signed_in)
            == ApiError::Other(status),
{
}

/// A failure is explained by what the service said: nothing where it said
/// nothing, and no more than four hundred bytes of it, from its start.
pub proof fn a_failure_is_explained(message: Seq<char>, body: Seq<char>)
    ensures
        text::trimmed(body).len() == 0 ==> explained(message, body) == message,
        text::trimmed(body).len() > 0 ==> (message + " — "@).is_prefix_of(
            explained(message, body),
        ),
{
    if text::trimmed(body).len() > 0 {
        let head = message + " — "@;
        let tail = cut_bytes(text::replaced(text::trimmed(body), "\n"@, " "@), 400);
        assert(explained(message, body) == head + tail);
        assert((head + tail).take(head.len() as int) =~= head);
    }
}

/// What is cut is the start of a text, and all of it where it is short: of plain
/// characters, as many as there are bytes.
pub proof fn a_text_is_cut_from_its_start(s: Seq<char>, n: int)
    requires
        0 <= n,
        forall|k: int| 0 <= k < s.len() ==> #[trigger] s[k] <= '~',
    ensures
        s.len() <= n ==> cut_bytes(s, n) == s,
        s.len() > n ==> cut_bytes(s, n) == s.take(n),
    decreases s.len(),
{
    if s.len() > 0 {
        assert(s[0] <= '~');
        text::plain_width(s[0]);
        let rest = s.skip(1);
        assert forall|k: int| 0 <= k < rest.len() implies #[trigger] rest[k] <= '~' by {
            assert(rest[k] == s[k + 1]);
        }
        if n > 0 {
            a_text_is_cut_from_its_start(rest, n - 1);
            assert(seq![s[0]] + rest =~= s);
            if s.len() > n {
                assert(seq![s[0]] + rest.take(n - 1) =~= s.take(n));
            }
        } else {
            assert(s.take(0) =~= Seq::<char>::empty());
        }
    }
}

/// A song belongs to the first album and the first artist that it relates to,
/// and to none where it does not relate to any.
pub proof fn a_song_belongs_to_the_first(
    v: Json,
    relations: Json,
    name: Seq<char>,
    found: Json,
    l: Seq<Json>,
    id: Seq<char>,
)
    requires
        json::in_object(v, "relationships"@) == Some(relations),
        relations is Object,
        json::in_object(relations, name) == Some(found),
        found is Object,
        json::list_in(json::in_object(found, "data"@)) == Some(l),
        l.len() > 0,
        json::says(l[0], "id"@, id),
        forall|j: int|
            0 <= j < l.len() ==> (json::in_object(#[trigger] l[j], "id"@) matches Some(
                Json::Text(_),
            )),
    ensures
        related(v, name) == Some(Some(id)),
{
    json::every_is_whole(l, |j: Json| id_in(j));
    assert forall|j: int| 0 <= j < l.len() implies id_in(#[trigger] l[j]) is Some by {}
}

/// What relates to nothing has no relation, and no fault either.
pub proof fn nothing_related_is_no_fault(v: Json, name: Seq<char>)
    requires
        json::in_object(v, "relationships"@) is None || json::in_object(v, "relationships"@)
            == Some(Json::Null),
    ensures
        related(v, name) == Some(None::<Seq<char>>),
{
}

/// A song says both the album and the artist that it belongs to, each from its
/// own relation.
pub proof fn a_song_says_what_it_belongs_to(
    v: Json,
    album: Option<Seq<char>>,
    artist: Option<Seq<char>>,
)
    requires
        v is Object,
        related(v, "albums"@) == Some(album),
        related(v, "artists"@) == Some(artist),
    ensures
        containers_in(v) == Some((album, artist)),
{
}

/// Six pages are asked for at once, the first where the round begins and each
/// where the one before it ends.
pub proof fn pages_are_asked_for_side_by_side(offset: usize, i: int)
    requires
        offset + 600 <= usize::MAX,
        0 <= i < 5,
    ensures
        places(offset).len() == 6,
        places(offset)[0] == offset,
        places(offset)[i + 1] == places(offset)[i] + 100,
{
}

/// A new playlist begins with the song that is given, as one of the library where
/// its id is one of the library; without an id it begins empty.
pub proof fn a_playlist_begins_with_the_given_song(r: Option<(&str, &str)>, id: &str, rest: Seq<char>)
    ensures
        begins_with(r, None) ==> r is None,
        begins_with(r, Some(id)) && id@.len() == 0 ==> r is None,
        begins_with(r, Some(id)) && id@ == "i."@ + rest ==> (r matches Some((i, kind)) && i@ == id@
            && kind@ == "library-songs"@),
        begins_with(r, Some(id)) && id@.len() > 0 && id@[0] != 'i' ==> (r matches Some((i, kind))
            && i@ == id@ && kind@ == "songs"@),
{
    reveal_strlit("i.");
    assert(("i."@ + rest).take(2) =~= "i."@);
    assert("i."@[0] == 'i');
    if "i."@.is_prefix_of(id@) {
        assert(id@.take(2)[0] == id@[0]);
    }
}

} // verus!
