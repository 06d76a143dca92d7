//! How often, and for how long, songs were listened to.
use vstd::prelude::*;

use crate::catalog;
use crate::double::{self, as_double, even_quotient, nearest_ratio};
use crate::music::types::Track;
use crate::order;
use crate::text;

verus! {

/// The version of what is kept.
pub const VERSION: u32 = 1;

/// What is kept of a song.
#[derive(Debug, PartialEq, Eq)]
pub struct TrackStat {
    pub id: String,
    pub title: String,
    pub artist: String,
    pub album: String,
    pub year: String,
    /// Where its picture is, in the net or on disk.
    pub artwork: Option<String>,
    /// Where it is from.
    pub source: String,
    /// How often it was played by everybody, where its catalogue says.
    pub public_plays: Option<u64>,
    pub play_count: u64,
    pub total_ms: u64,
    pub last_played: u64,
}

impl Clone for TrackStat {
    fn clone(&self) -> (r: Self)
        ensures
            r == *self,
    {
        TrackStat {
            id: self.id.clone(),
            title: self.title.clone(),
            artist: self.artist.clone(),
            album: self.album.clone(),
            year: self.year.clone(),
            artwork: self.artwork.clone(),
            source: self.source.clone(),
            public_plays: self.public_plays,
            play_count: self.play_count,
            total_ms: self.total_ms,
            last_played: self.last_played,
        }
    }
}

/// Everything that is kept: songs under the ids they stream by, no id twice.
#[derive(Debug)]
pub struct File {
    pub version: u32,
    pub tracks: Vec<(String, TrackStat)>,
    pub total_ms: u64,
}

/// Where a song with this id is from.
pub open spec fn spec_source_label(id: Seq<char>) -> Seq<char> {
    if "yt:"@.is_prefix_of(id) {
        "YouTube Music"@
    } else if "sp:"@.is_prefix_of(id) {
        "Spotify"@
    } else if "td:"@.is_prefix_of(id) {
        "Tidal"@
    } else if "/"@.is_prefix_of(id) || text::occurs(id, ".mp3"@) || text::occurs(id, ".flac"@) {
        "This computer"@
    } else {
        "Apple Music"@
    }
}

/// Where a song with this id is from.
pub fn source_label(id: &str) -> (r: &'static str)
    ensures
        r@ == spec_source_label(id@),
{
    if text::starts_with(id, "yt:") {
        "YouTube Music"
    } else if text::starts_with(id, "sp:") {
        "Spotify"
    } else if text::starts_with(id, "td:") {
        "Tidal"
    } else if text::starts_with(id, "/") || text::contains(id, ".mp3") || text::contains(
        id,
        ".flac",
    ) {
        "This computer"
    } else {
        "Apple Music"
    }
}

/// What a double of one or more is counted in here: its 53 binary digits reach
/// no further down.
const FINE: u64 = 0x1000_0000_0000_0000;

/// `n` in units of `d`, as a double: to a tenth, and from a hundred units on to
/// one. Half way goes to the even one.
pub open spec fn in_units(n: int, d: int, unit: char) -> Seq<char> {
    let one = 0x1000_0000_0000_0000int;
    let v = nearest_ratio(n * one, d);
    if v >= 100 * one {
        text::decimal(even_quotient(v, one) as nat).push(unit)
    } else {
        let k = even_quotient(10 * v, one);
        (text::decimal((k / 10) as nat).push('.') + text::decimal((k % 10) as nat)).push(unit)
    }
}

/// A count, short: 950, 12.4K, 1.2M, 2.1B.
pub open spec fn short_count(n: int) -> Seq<char> {
    if n < 1_000 {
        text::decimal(n as nat)
    } else if n < 1_000_000 {
        in_units(n, 1_000, 'K')
    } else if n < 1_000_000_000 {
        in_units(n, 1_000_000, 'M')
    } else {
        in_units(n, 1_000_000_000, 'B')
    }
}

fn write_units(n: u128, d: u128, unit: char) -> (r: String)
    requires
        d == 1_000 || d == 1_000_000 || d == 1_000_000_000,
        n <= 0x1_1000_0000_0000_0000,
    ensures
        r@ == in_units(n as int, d as int, unit),
{
    let one: u128 = FINE as u128;
    let v: u128 = double::divide(n * one, d);
    proof {
        let a = n * one;
        let b = d as int;
        let x = a / b;
        double::nearest_is_near(a, b);
        assert(0 <= x <= a / 1_000) by (nonlinear_arith)
            requires
                a >= 0,
                b >= 1_000,
                x == a / b,
        ;
        double::spacing_is_small(x);
        let g = double::spacing(x);
        assert(v - g <= a / 1_000 + 1) by (nonlinear_arith)
            requires
                (v - g) * b <= a,
                b >= 1_000,
                a >= 0,
        ;
    }
    if v >= 100 * one {
        let k: u128 = double::divide_evenly(v, one);
        let mut out = text::number(k as u64);
        out.push(unit);
        out
    } else {
        let k: u128 = double::divide_evenly(10 * v, one);
        let mut out = text::number((k / 10) as u64);
        out.push('.');
        out.append(text::number((k % 10) as u64).as_str());
        out.push(unit);
        out
    }
}

/// A count, short. It goes through a double, as a share of a thousand, a
/// million or a billion does.
pub fn format_count(n: u64) -> (r: String)
    ensures
        r@ == short_count(as_double(n as int)),
{
    let x: u128 = double::nearest_double(n);
    proof {
        double::nearest_is_near(n as int, 1);
        double::spacing_is_small(n as int);
    }
    if x < 1_000 {
        text::number(x as u64)
    } else if x < 1_000_000 {
        write_units(x, 1_000, 'K')
    } else if x < 1_000_000_000 {
        write_units(x, 1_000_000, 'M')
    } else {
        write_units(x, 1_000_000_000, 'B')
    }
}

/// The sum, or the most that can be counted.
pub open spec fn capped(a: u64, b: u64) -> u64 {
    if a + b > u64::MAX {
        u64::MAX
    } else {
        (a + b) as u64
    }
}

/// Whether `now` is what is kept of a song after one more listen, `was` being
/// what was kept before.
pub open spec fn after_listen(
    was: Option<TrackStat>,
    now: TrackStat,
    id: Seq<char>,
    track: Track,
    heard_ms: u64,
    public_plays: Option<u64>,
    at: u64,
) -> bool {
    let picture = match track.artwork {
        Some(a) => Some(a.spec_url(300)),
        None => None,
    };
    &&& now.title@ == track.title@
    &&& now.artist@ == track.artist@
    &&& now.source@ == spec_source_label(id)
    &&& now.last_played == at
    &&& match was {
        None => {
            &&& now.id@ == id
            &&& now.album@ == track.album@
            &&& now.year@ == track.year@
            &&& text::opt_view(now.artwork) == picture
            &&& now.public_plays == public_plays
            &&& now.play_count == 1
            &&& now.total_ms == heard_ms
        },
        Some(w) => {
            &&& now.id@ == w.id@
            &&& now.album@ == if track.album@.len() > 0 {
                track.album@
            } else {
                w.album@
            }
            &&& now.year@ == if track.year@.len() > 0 {
                track.year@
            } else {
                w.year@
            }
            &&& text::opt_view(now.artwork) == if picture is Some {
                picture
            } else {
                text::opt_view(w.artwork)
            }
            &&& now.public_plays == if public_plays is Some {
                public_plays
            } else {
                w.public_plays
            }
            &&& now.play_count == capped(w.play_count, 1)
            &&& now.total_ms == capped(w.total_ms, heard_ms)
        },
    }
}

/// What a song is kept under.
pub open spec fn keyed(id: Seq<char>) -> spec_fn((String, TrackStat)) -> bool {
    |p: (String, TrackStat)| p.0@ == id
}

/// Whether `b` comes behind `a`: it was played less often, or as often and for
/// a shorter time.
pub open spec fn played_more() -> spec_fn(TrackStat, TrackStat) -> bool {
    |a: TrackStat, b: TrackStat|
        a.play_count > b.play_count || (a.play_count == b.play_count && a.total_ms > b.total_ms)
}

/// What is kept of the songs.
pub open spec fn stats(tracks: Seq<(String, TrackStat)>) -> Seq<TrackStat> {
    tracks.map_values(|p: (String, TrackStat)| p.1)
}

impl File {
    /// No id is kept twice.
    pub open spec fn wf(self) -> bool {
        forall|i: int, j: int|
            0 <= i < j < self.tracks@.len() ==> (#[trigger] self.tracks@[i]).0@ != (
            #[trigger] self.tracks@[j]).0@
    }

    pub fn new() -> (r: Self)
        ensures
            r.wf(),
            r.version == VERSION,
            r.tracks@.len() == 0,
            r.total_ms == 0,
    {
        File { version: VERSION, tracks: Vec::new(), total_ms: 0 }
    }

    fn find(&self, id: &str) -> (r: Option<usize>)
        ensures
            match r {
                Some(i) => text::is_first(self.tracks@, keyed(id@), i as int),
                None => text::nowhere(self.tracks@, keyed(id@)),
            },
    {
        let mut i: usize = 0;
        while i < self.tracks.len()
            invariant
                i <= self.tracks@.len(),
                forall|j: int| 0 <= j < i ==> (#[trigger] self.tracks@[j]).0@ != id@,
            decreases self.tracks@.len() - i,
        {
            if text::same(self.tracks[i].0.as_str(), id) {
                return Some(i);
            }
            i += 1;
        }
        None
    }
}

/// Keep one listen. What was heard is the song's length where only its end
/// is known.
pub fn record(kept: &mut File, track: &Track, heard_ms: u64, now: u64)
    requires
        old(kept).wf(),
    ensures
        final(kept).wf(),
        kept_listen(*old(kept), *final(kept), *track, heard_ms, None, now),
{
    record_with_public(kept, track, heard_ms, None, now);
}

/// Keep one listen, and how often everybody played the song.
pub fn record_with_public(
    kept: &mut File,
    track: &Track,
    heard_ms: u64,
    public_plays: Option<u64>,
    now: u64,
)
    requires
        old(kept).wf(),
    ensures
        final(kept).wf(),
        kept_listen(*old(kept), *final(kept), *track, heard_ms, public_plays, now),
{
    let id = track.key();
    if id.is_empty() {
        return;
    }
    let ghost before = *kept;
    let picture = match &track.artwork {
        Some(a) => Some(a.url(300)),
        None => None,
    };
    kept.version = VERSION;
    let at = match kept.find(id) {
        Some(i) => {
            let was = kept.tracks[i].1.clone();
            let stat = TrackStat {
                id: was.id,
                title: track.title.clone(),
                artist: track.artist.clone(),
                album: if track.album.as_str().is_empty() {
                    was.album
                } else {
                    track.album.clone()
                },
                year: if track.year.as_str().is_empty() {
                    was.year
                } else {
                    track.year.clone()
                },
                artwork: if picture.is_some() {
                    picture
                } else {
                    was.artwork
                },
                source: source_label(id).to_owned(),
                public_plays: if public_plays.is_some() {
                    public_plays
                } else {
                    was.public_plays
                },
                play_count: was.play_count.saturating_add(1),
                total_ms: was.total_ms.saturating_add(heard_ms),
                last_played: now,
            };
            let name = kept.tracks[i].0.clone();
            kept.tracks.set(i, (name, stat));
            i
        },
        None => {
            let stat = TrackStat {
                id: id.to_owned(),
                title: track.title.clone(),
                artist: track.artist.clone(),
                album: track.album.clone(),
                year: track.year.clone(),
                artwork: picture,
                source: source_label(id).to_owned(),
                public_plays,
                play_count: 1,
                total_ms: heard_ms,
                last_played: now,
            };
            let n = kept.tracks.len();
            kept.tracks.push((id.to_owned(), stat));
            n
        },
    };
    kept.total_ms = kept.total_ms.saturating_add(heard_ms);
    proof {
        let i = at as int;
        if text::nowhere(before.tracks@, keyed(id@)) {
            assert(i == before.tracks@.len()) by {
                if i < before.tracks@.len() {
                    assert(keyed(id@)(before.tracks@[i]));
                }
            }
            assert(kept.tracks@.drop_last() =~= before.tracks@);
        } else {
            assert(text::is_first(before.tracks@, keyed(id@), i));
            assert(kept.tracks@ =~= before.tracks@.update(
                i,
                (before.tracks@[i].0, kept.tracks@[i].1),
            ));
            assert(after_listen(
                Some(before.tracks@[i].1),
                kept.tracks@[i].1,
                id@,
                *track,
                heard_ms,
                public_plays,
                now,
            ));
        }
        assert(kept_listen(before, *kept, *track, heard_ms, public_plays, now));
    }
}

/// How long was listened in all.
pub fn total_ms(kept: &File) -> (r: u64)
    ensures
        r == kept.total_ms,
{
    kept.total_ms
}

/// The songs that were listened to most: by how often, then by how long.
pub fn top_tracks(kept: &File, limit: usize) -> (r: Vec<TrackStat>)
    ensures
        r@ == catalog::at_most(
            order::sorted(stats(kept.tracks@), played_more()),
            limit as int,
        ),
{
    let ghost all = stats(kept.tracks@);
    let ghost before = played_more();
    let mut out: Vec<TrackStat> = Vec::new();
    let mut i: usize = 0;
    assert(all.take(0) =~= Seq::<TrackStat>::empty());
    while i < kept.tracks.len()
        invariant
            i <= kept.tracks@.len(),
            all == stats(kept.tracks@),
            before == played_more(),
            out@.len() == i,
            out@ == order::sorted(all.take(i as int), before),
        decreases kept.tracks@.len() - i,
    {
        let s = &kept.tracks[i].1;
        proof {
            text::take_step(all, i as int);
            assert(all.take(i + 1).drop_last() =~= all.take(i as int));
            assert(all[i as int] == *s);
        }
        let mut k: usize = out.len();
        while k > 0 && (s.play_count > out[k - 1].play_count || (s.play_count
            == out[k - 1].play_count && s.total_ms > out[k - 1].total_ms))
            invariant
                k <= out@.len(),
                before == played_more(),
                forall|j: int| k <= j < out@.len() ==> before(*s, #[trigger] out@[j]),
            decreases k,
        {
            k -= 1;
        }
        proof {
            order::put_in_is_insert(out@, *s, before, k as int);
        }
        out.insert(k, s.clone());
        i += 1;
    }
    assert(all.take(i as int) =~= all);
    if out.len() > limit {
        out.truncate(limit);
    }
    assert(out@ =~= catalog::at_most(order::sorted(all, before), limit as int));
    out
}

/// Keep a picture that is on disk. The result says whether the song is
/// known.
pub fn set_artwork_file(kept: &mut File, id: &str, file: &str) -> (r: bool)
    requires
        old(kept).wf(),
    ensures
        final(kept).wf(),
        r == (id@.len() > 0 && !text::nowhere(old(kept).tracks@, keyed(id@))),
        if r {
            exists|i: int|
                {
                    &&& text::is_first(old(kept).tracks@, keyed(id@), i)
                    &&& #[trigger] final(kept).tracks@[i].1 == (TrackStat {
                        artwork: final(kept).tracks@[i].1.artwork,
                        ..old(kept).tracks@[i].1
                    })
                    &&& text::opt_view(final(kept).tracks@[i].1.artwork) == Some(file@)
                    &&& *final(kept) == (File { tracks: final(kept).tracks, ..*old(kept) })
                    &&& final(kept).tracks@ == old(kept).tracks@.update(
                        i,
                        (old(kept).tracks@[i].0, final(kept).tracks@[i].1),
                    )
                }
        } else {
            *final(kept) == *old(kept)
        },
{
    if id.is_empty() {
        return false;
    }
    match kept.find(id) {
        None => false,
        Some(i) => {
            let mut stat = kept.tracks[i].1.clone();
            stat.artwork = Some(file.to_owned());
            let name = kept.tracks[i].0.clone();
            kept.tracks.set(i, (name, stat));
            proof {
                assert(text::is_first(old(kept).tracks@, keyed(id@), i as int));
                assert(kept.tracks@[i as int].1 == stat);
            }
            true
        },
    }
}

/// Keep how often everybody played a song. The result says whether the
/// song is known and was played at all.
pub fn set_public_plays(kept: &mut File, id: &str, plays: u64) -> (r: bool)
    requires
        old(kept).wf(),
    ensures
        final(kept).wf(),
        r == (id@.len() > 0 && plays > 0 && !text::nowhere(old(kept).tracks@, keyed(id@))),
        if r {
            exists|i: int|
                {
                    &&& text::is_first(old(kept).tracks@, keyed(id@), i)
                    &&& *final(kept) == (File { tracks: final(kept).tracks, ..*old(kept) })
                    &&& #[trigger] final(kept).tracks@[i].1 == (TrackStat {
                        public_plays: Some(plays),
                        ..old(kept).tracks@[i].1
                    })
                    &&& final(kept).tracks@ == old(kept).tracks@.update(
                        i,
                        (old(kept).tracks@[i].0, final(kept).tracks@[i].1),
                    )
                }
        } else {
            *final(kept) == *old(kept)
        },
{
    if id.is_empty() || plays == 0 {
        return false;
    }
    match kept.find(id) {
        None => false,
        Some(i) => {
            let mut stat = kept.tracks[i].1.clone();
            stat.public_plays = Some(plays);
            let name = kept.tracks[i].0.clone();
            kept.tracks.set(i, (name, stat));
            proof {
                assert(text::is_first(old(kept).tracks@, keyed(id@), i as int));
                assert(kept.tracks@[i as int].1 == stat);
            }
            true
        },
    }
}
/// Whether `now` keeps one more listen than `was`. A song without an id is not
/// kept; any other is kept under its id, and every other song stays as it was.
pub open spec fn kept_listen(
    was: File,
    now: File,
    track: Track,
    heard_ms: u64,
    public_plays: Option<u64>,
    at: u64,
) -> bool {
    let id = track.spec_key();
    if id.len() == 0 {
        now == was
    } else {
        &&& now.version == VERSION
        &&& now.total_ms == capped(was.total_ms, heard_ms)
        &&& if text::nowhere(was.tracks@, keyed(id)) {
            &&& now.tracks@.len() == was.tracks@.len() + 1
            &&& now.tracks@.drop_last() == was.tracks@
            &&& now.tracks@.last().0@ == id
            &&& after_listen(
                None,
                now.tracks@.last().1,
                id,
                track,
                heard_ms,
                public_plays,
                at,
            )
        } else {
            exists|i: int|
                {
                    &&& text::is_first(was.tracks@, keyed(id), i)
                    &&& now.tracks@ == was.tracks@.update(
                        i,
                        (was.tracks@[i].0, (#[trigger] now.tracks@[i]).1),
                    )
                    &&& after_listen(
                        Some(was.tracks@[i].1),
                        now.tracks@[i].1,
                        id,
                        track,
                        heard_ms,
                        public_plays,
                        at,
                    )
                }
        }
    }
}

/// The order of songs by listens is an order, so sorting by it loses nothing
/// and leaves nothing in front of what was played more, nor, of what was played
/// as often, in front of what was heard longer.
pub proof fn the_most_played_come_first(tracks: Seq<(String, TrackStat)>)
    ensures
        order::sorted(stats(tracks), played_more()).to_multiset() == stats(tracks).to_multiset(),
        forall|i: int, j: int|
            0 <= i < j < order::sorted(stats(tracks), played_more()).len() ==> {
                let a = #[trigger] order::sorted(stats(tracks), played_more())[i];
                let b = #[trigger] order::sorted(stats(tracks), played_more())[j];
                a.play_count > b.play_count || (a.play_count == b.play_count && a.total_ms
                    >= b.total_ms)
            },
{
    let before = played_more();
    assert(order::is_order(before));
    order::sorting_is_stable(stats(tracks), before);
    let done = order::sorted(stats(tracks), before);
    assert forall|i: int, j: int| 0 <= i < j < done.len() implies {
        let a = #[trigger] done[i];
        let b = #[trigger] done[j];
        a.play_count > b.play_count || (a.play_count == b.play_count && a.total_ms >= b.total_ms)
    } by {
        assert(!before(done[j], done[i]));
    }
}

/// How long the kept songs were heard, all together.
pub open spec fn heard_in_all(tracks: Seq<(String, TrackStat)>) -> int
    decreases tracks.len(),
{
    if tracks.len() == 0 {
        0
    } else {
        heard_in_all(tracks.drop_last()) + tracks.last().1.total_ms
    }
}

/// How often the kept songs were played, all together.
pub open spec fn plays_in_all(tracks: Seq<(String, TrackStat)>) -> int
    decreases tracks.len(),
{
    if tracks.len() == 0 {
        0
    } else {
        plays_in_all(tracks.drop_last()) + tracks.last().1.play_count
    }
}

proof fn one_song_of_all(tracks: Seq<(String, TrackStat)>, i: int, song: (String, TrackStat))
    requires
        0 <= i < tracks.len(),
    ensures
        heard_in_all(tracks.update(i, song)) == heard_in_all(tracks) - tracks[i].1.total_ms
            + song.1.total_ms,
        plays_in_all(tracks.update(i, song)) == plays_in_all(tracks) - tracks[i].1.play_count
            + song.1.play_count,
        tracks[i].1.total_ms <= heard_in_all(tracks),
        tracks[i].1.play_count <= plays_in_all(tracks),
    decreases tracks.len(),
{
    let now = tracks.update(i, song);
    all_is_never_below_zero(tracks.drop_last());
    if i == tracks.len() - 1 {
        assert(now.drop_last() =~= tracks.drop_last());
    } else {
        one_song_of_all(tracks.drop_last(), i, song);
        assert(now.drop_last() =~= tracks.drop_last().update(i, song));
    }
}

proof fn all_is_never_below_zero(tracks: Seq<(String, TrackStat)>)
    ensures
        heard_in_all(tracks) >= 0,
        plays_in_all(tracks) >= 0,
    decreases tracks.len(),
{
    if tracks.len() > 0 {
        all_is_never_below_zero(tracks.drop_last());
    }
}

/// What is heard adds up: each listen that is kept adds what was heard to the
/// songs and to the file alike, and one play to the songs, as long as nothing
/// reaches what can be counted.
pub proof fn what_is_heard_adds_up(
    was: File,
    now: File,
    track: Track,
    heard_ms: u64,
    public_plays: Option<u64>,
    at: u64,
)
    requires
        was.wf(),
        kept_listen(was, now, track, heard_ms, public_plays, at),
        track.spec_key().len() > 0,
        heard_in_all(was.tracks@) + heard_ms <= u64::MAX,
        plays_in_all(was.tracks@) + 1 <= u64::MAX,
        was.total_ms + heard_ms <= u64::MAX,
    ensures
        heard_in_all(now.tracks@) == heard_in_all(was.tracks@) + heard_ms,
        plays_in_all(now.tracks@) == plays_in_all(was.tracks@) + 1,
        now.total_ms == was.total_ms + heard_ms,
        was.total_ms == heard_in_all(was.tracks@) ==> now.total_ms == heard_in_all(now.tracks@),
{
    let id = track.spec_key();
    if !text::nowhere(was.tracks@, keyed(id)) {
        let i = choose|i: int|
            {
                &&& text::is_first(was.tracks@, keyed(id), i)
                &&& now.tracks@ == was.tracks@.update(
                    i,
                    (was.tracks@[i].0, (#[trigger] now.tracks@[i]).1),
                )
                &&& after_listen(
                    Some(was.tracks@[i].1),
                    now.tracks@[i].1,
                    id,
                    track,
                    heard_ms,
                    public_plays,
                    at,
                )
            };
        one_song_of_all(was.tracks@, i, now.tracks@[i]);
    }
}

/// A file without songs has heard nothing, as its total says.
pub proof fn an_empty_file_has_heard_nothing(f: File)
    requires
        f.tracks@.len() == 0,
    ensures
        heard_in_all(f.tracks@) == 0,
        plays_in_all(f.tracks@) == 0,
{
}

/// A listen is kept under the song's id, and there only: that song has one play
/// more and what was heard more, under the title and the artist it has now, and
/// every other song stays as it was.
pub proof fn a_listen_changes_its_song_alone(
    was: File,
    now: File,
    track: Track,
    heard_ms: u64,
    public_plays: Option<u64>,
    at: u64,
    k: int,
)
    requires
        was.wf(),
        kept_listen(was, now, track, heard_ms, public_plays, at),
        0 <= k < was.tracks@.len(),
    ensures
        now.tracks@.len() >= was.tracks@.len(),
        now.tracks@[k].0@ == was.tracks@[k].0@,
        was.tracks@[k].0@ != track.spec_key() ==> now.tracks@[k].1 == was.tracks@[k].1,
        track.spec_key().len() > 0 && was.tracks@[k].0@ == track.spec_key() ==> {
            let (a, b) = (was.tracks@[k].1, now.tracks@[k].1);
            &&& now.tracks@.len() == was.tracks@.len()
            &&& b.id@ == a.id@
            &&& b.title@ == track.title@
            &&& b.artist@ == track.artist@
            &&& b.last_played == at
            &&& a.play_count < u64::MAX ==> b.play_count == a.play_count + 1
            &&& a.total_ms + heard_ms <= u64::MAX ==> b.total_ms == a.total_ms + heard_ms
            &&& track.album@.len() > 0 ==> b.album@ == track.album@
            &&& track.album@.len() == 0 ==> b.album@ == a.album@
            &&& track.year@.len() > 0 ==> b.year@ == track.year@
            &&& track.year@.len() == 0 ==> b.year@ == a.year@
            &&& public_plays is None ==> b.public_plays == a.public_plays
            &&& public_plays is Some ==> b.public_plays == public_plays
            &&& track.artwork is None ==> text::opt_view(b.artwork) == text::opt_view(a.artwork)
        },
{
    let id = track.spec_key();
    if id.len() > 0 {
        if text::nowhere(was.tracks@, keyed(id)) {
            assert(now.tracks@.drop_last()[k] == was.tracks@[k]);
            assert(!keyed(id)(was.tracks@[k]));
        } else {
            let i = choose|i: int|
                {
                    &&& text::is_first(was.tracks@, keyed(id), i)
                    &&& now.tracks@ == was.tracks@.update(
                        i,
                        (was.tracks@[i].0, (#[trigger] now.tracks@[i]).1),
                    )
                    &&& after_listen(
                        Some(was.tracks@[i].1),
                        now.tracks@[i].1,
                        id,
                        track,
                        heard_ms,
                        public_plays,
                        at,
                    )
                };
            assert(keyed(id)(was.tracks@[i]));
            if i < k {
                assert(was.tracks@[i].0@ != was.tracks@[k].0@);
            } else if k < i {
                assert(was.tracks@[k].0@ != was.tracks@[i].0@);
            }
        }
    }
}

/// A song that is heard for the first time is kept with one play, what was
/// heard, and what the song says of itself; a song without an id is not kept.
pub proof fn a_new_song_is_kept_with_one_play(
    was: File,
    now: File,
    track: Track,
    heard_ms: u64,
    public_plays: Option<u64>,
    at: u64,
)
    requires
        kept_listen(was, now, track, heard_ms, public_plays, at),
        forall|i: int|
            0 <= i < was.tracks@.len() ==> (#[trigger] was.tracks@[i]).0@ != track.spec_key(),
    ensures
        track.spec_key().len() == 0 ==> now == was,
        track.spec_key().len() > 0 ==> {
            let song = now.tracks@.last();
            &&& now.tracks@.len() == was.tracks@.len() + 1
            &&& song.0@ == track.spec_key()
            &&& song.1.id@ == track.spec_key()
            &&& song.1.title@ == track.title@
            &&& song.1.artist@ == track.artist@
            &&& song.1.album@ == track.album@
            &&& song.1.year@ == track.year@
            &&& song.1.play_count == 1
            &&& song.1.total_ms == heard_ms
            &&& song.1.last_played == at
            &&& song.1.public_plays == public_plays
        },
{
    let id = track.spec_key();
    assert forall|j: int| 0 <= j < was.tracks@.len() implies !keyed(id)(
        #[trigger] was.tracks@[j],
    ) by {}
    assert(text::nowhere(was.tracks@, keyed(id)));
}

/// Of the songs that were listened to most, none is missing that was played
/// more often than one that is shown, nor one played as often and heard longer;
/// and none is missing at all while there is room.
pub proof fn no_song_played_more_is_left_out(
    tracks: Seq<(String, TrackStat)>,
    limit: int,
    k: int,
)
    requires
        0 <= limit,
        0 <= k < tracks.len(),
    ensures
        ({
            let top = catalog::at_most(order::sorted(stats(tracks), played_more()), limit);
            let song = tracks[k].1;
            &&& top.len() == if tracks.len() < limit {
                tracks.len() as int
            } else {
                limit
            }
            &&& top.contains(song) || (top.len() == limit && forall|i: int|
                0 <= i < top.len() ==> (#[trigger] top[i]).play_count > song.play_count || (
                top[i].play_count == song.play_count && top[i].total_ms >= song.total_ms))
            &&& forall|i: int|
                0 <= i < top.len() ==> stats(tracks).contains(#[trigger] top[i])
        }),
{
    let before = played_more();
    let all = stats(tracks);
    let done = order::sorted(all, before);
    let top = catalog::at_most(done, limit);
    let song = tracks[k].1;
    assert(order::is_order(before));
    order::sorting_is_stable(all, before);
    assert(all[k] == song);
    order::sorted_holds_the_same(all, before, song);
    let at = choose|at: int| 0 <= at < done.len() && done[at] == song;
    if at < top.len() {
        assert(top[at] == song);
    } else {
        the_most_played_come_first(tracks);
        assert forall|i: int| 0 <= i < top.len() implies (#[trigger] top[i]).play_count
            > song.play_count || (top[i].play_count == song.play_count && top[i].total_ms
            >= song.total_ms) by {
            assert(top[i] == done[i]);
            assert(!before(done[at], done[i]));
        }
    }
    assert forall|i: int| 0 <= i < top.len() implies all.contains(#[trigger] top[i]) by {
        assert(top[i] == done[i]);
        order::sorted_holds_the_same(all, before, top[i]);
    }
}

/// A count below a thousand is written out; one above it is written in tenths of
/// a thousand, a million or a billion, the nearest where it is not half way.
pub proof fn a_short_count_is_near(n: int, d: int, unit: char, k: int)
    requires
        (d == 1_000 && unit == 'K' && 1_000 <= n < 100_000) || (d == 1_000_000 && unit == 'M'
            && 1_000_000 <= n < 100_000_000) || (d == 1_000_000_000 && unit == 'B'
            && 1_000_000_000 <= n < 100_000_000_000),
        -d < 2 * (10 * n - k * d) < d,
    ensures
        short_count(n) == (text::decimal((k / 10) as nat).push('.') + text::decimal(
            (k % 10) as nat,
        )).push(unit),
{
    let one = 0x1000_0000_0000_0000int;
    let a = n * one;
    let x = a / d;
    let v = nearest_ratio(a, d);
    double::nearest_is_near(a, d);
    assert(0 <= x < 100 * one) by (nonlinear_arith)
        requires
            a == n * one,
            x == a / d,
            0 <= n < 100 * d,
            d > 0,
            one > 0,
    ;
    double::spacing_is_small(x);
    let g = double::spacing(x);
    assert(1 <= g < 0x10_0000);
    // `v` is within `g` of the share.
    let e = v * d - a;
    assert(-(g * d) < e <= g * d) by (nonlinear_arith)
        requires
            (v - g) * d <= a,
            (v + g) * d > a,
            e == v * d - a,
    ;
    let off = 10 * n - k * d;
    let w = 10 * v - k * one;
    assert(w * d == 10 * e + off * one) by (nonlinear_arith)
        requires
            w == 10 * v - k * one,
            e == v * d - a,
            a == n * one,
            off == 10 * n - k * d,
    ;
    assert(-one < 2 * w < one) by (nonlinear_arith)
        requires
            w * d == 10 * e + off * one,
            -(g * d) < e <= g * d,
            1 <= g < 0x10_0000,
            -d + 1 <= 2 * off <= d - 1,
            one == 0x1000_0000_0000_0000,
            1_000 <= d <= 1_000_000_000,
    ;
    let low = (10 * v) / one;
    let rest = (10 * v) % one;
    vstd::arithmetic::div_mod::lemma_fundamental_div_mod(10 * v, one);
    if w >= 0 {
        assert(low == k && rest == w) by {
            vstd::arithmetic::div_mod::lemma_fundamental_div_mod_converse(10 * v, one, k, w);
        }
    } else {
        assert(low == k - 1 && rest == w + one) by {
            assert((k - 1) * one + (w + one) == 10 * v) by (nonlinear_arith)
                requires
                    w == 10 * v - k * one,
            ;
            vstd::arithmetic::div_mod::lemma_fundamental_div_mod_converse(
                10 * v,
                one,
                k - 1,
                w + one,
            );
        }
    }
    assert(even_quotient(10 * v, one) == k);
    assert(v < 100 * one) by (nonlinear_arith)
        requires
            v * d == e + a,
            e <= g * d,
            g < 0x10_0000,
            a == n * one,
            n <= 100 * d - 1,
            one == 0x1000_0000_0000_0000,
            1_000 <= d <= 1_000_000_000,
    ;
}

/// What is kept of a song is what it was heard as last: its title and artist,
/// where it came from and when; the album, the year, the picture and the plays
/// of others are kept from before where nothing new is said of them.
pub proof fn a_song_is_kept_as_it_was_heard(
    was: TrackStat,
    now: TrackStat,
    id: Seq<char>,
    track: Track,
    heard_ms: u64,
    public_plays: Option<u64>,
    at: u64,
)
    requires
        after_listen(Some(was), now, id, track, heard_ms, public_plays, at),
    ensures
        now.id@ == was.id@,
        now.title@ == track.title@,
        now.artist@ == track.artist@,
        now.last_played == at,
        track.album@.len() > 0 ==> now.album@ == track.album@,
        track.album@.len() == 0 ==> now.album@ == was.album@,
        track.year@.len() > 0 ==> now.year@ == track.year@,
        track.year@.len() == 0 ==> now.year@ == was.year@,
        track.artwork is None ==> text::opt_view(now.artwork) == text::opt_view(was.artwork),
        track.artwork matches Some(a) ==> text::opt_view(now.artwork) == Some(a.spec_url(300)),
        public_plays is Some ==> now.public_plays == public_plays,
        public_plays is None ==> now.public_plays == was.public_plays,
        was.play_count < u64::MAX ==> now.play_count == was.play_count + 1,
        was.total_ms + heard_ms <= u64::MAX ==> now.total_ms == was.total_ms + heard_ms,
{
}

/// A song comes from where its id says: a catalogue by the letters it begins
/// with, this computer by a path, and Apple Music otherwise.
pub proof fn a_song_comes_from_where_its_id_says(rest: Seq<char>)
    ensures
        spec_source_label("yt:"@ + rest) == "YouTube Music"@,
        spec_source_label("sp:"@ + rest) == "Spotify"@,
        spec_source_label("td:"@ + rest) == "Tidal"@,
        spec_source_label("/"@ + rest) == "This computer"@,
        (forall|i: int| 0 <= i < rest.len() ==> '0' <= #[trigger] rest[i] <= '9')
            ==> spec_source_label(rest) == "Apple Music"@,
{
    reveal_strlit("yt:");
    reveal_strlit("sp:");
    reveal_strlit("td:");
    reveal_strlit("/");
    reveal_strlit(".mp3");
    reveal_strlit(".flac");
    assert("yt:"@[0] == 'y' && "sp:"@[0] == 's' && "td:"@[0] == 't' && "/"@[0] == '/');
    assert(("yt:"@ + rest).take(3) =~= "yt:"@);
    assert(("sp:"@ + rest).take(3) =~= "sp:"@);
    assert(("td:"@ + rest).take(3) =~= "td:"@);
    assert(("/"@ + rest).take(1) =~= "/"@);
    assert(forall|p: Seq<char>, s: Seq<char>| #[trigger]
        p.is_prefix_of(s) && p.len() > 0 ==> s[0] == p[0]);
    assert(("sp:"@ + rest)[0] == 's' && ("td:"@ + rest)[0] == 't' && ("/"@ + rest)[0] == '/');
    if (forall|i: int| 0 <= i < rest.len() ==> '0' <= #[trigger] rest[i] <= '9') {
        if text::occurs(rest, ".mp3"@) {
            let i = choose|i: int| text::occurs_at(rest, ".mp3"@, i);
            assert(rest.subrange(i, i + 4)[0] == rest[i]);
            assert(".mp3"@[0] == '.');
            assert(false);
        }
        if text::occurs(rest, ".flac"@) {
            let i = choose|i: int| text::occurs_at(rest, ".flac"@, i);
            assert(rest.subrange(i, i + 5)[0] == rest[i]);
            assert(".flac"@[0] == '.');
            assert(false);
        }
    }
}

} // verus!
