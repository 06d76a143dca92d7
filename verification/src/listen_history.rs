//! The songs played here lately, newest first.
use vstd::prelude::*;

use crate::catalog::at_most;
use crate::music::types::Track;
use crate::text;

verus! {

/// The form the list is kept in.
pub const VERSION: u32 = 1;

/// How many songs are kept.
pub const KEEP: usize = 40;

/// The list with one more play: the song in front, no older copy of it, and no
/// more than [`KEEP`] in all.
pub open spec fn recorded(tracks: Seq<Track>, track: Track) -> Seq<Track> {
    at_most(
        seq![track] + tracks.filter(|t: Track| t.spec_key() != track.spec_key()),
        KEEP as int,
    )
}

/// The list with one more play.
pub fn record(tracks: &Vec<Track>, track: Track) -> (r: Vec<Track>)
    ensures
        r@ == recorded(tracks@, track),
{
    let ghost other = |t: Track| t.spec_key() != track.spec_key();
    let ghost track0 = track;
    let mut out: Vec<Track> = Vec::new();
    out.push(track);
    let mut i: usize = 0;
    proof {
        assert(tracks@.take(0) =~= Seq::<Track>::empty());
        reveal(Seq::filter);
        assert(out@ =~= seq![track0] + tracks@.take(0).filter(other));
    }
    while i < tracks.len()
        invariant
            i <= tracks@.len(),
            out@.len() > 0,
            out@[0] == track0,
            other == (|t: Track| t.spec_key() != track0.spec_key()),
            out@ == seq![track0] + tracks@.take(i as int).filter(other),
        decreases tracks@.len() - i,
    {
        proof {
            text::filter_step(tracks@, other, i as int);
        }
        if !text::same(tracks[i].key(), out[0].key()) {
            let ghost out0 = out@;
            out.push(tracks[i].clone());
            proof {
                assert(out@ =~= seq![track0] + tracks@.take(i as int).filter(other).push(
                    tracks@[i as int],
                ));
            }
        }
        i += 1;
    }
    proof {
        assert(tracks@.take(i as int) =~= tracks@);
    }
    if out.len() > KEEP {
        out.truncate(KEEP);
    }
    out
}

/// The songs of a list that was read.
pub open spec fn accepted(version: u32, tracks: Seq<Track>) -> Seq<Track> {
    if version == VERSION {
        tracks
    } else {
        Seq::empty()
    }
}

/// The songs of a list that was read; none where it was kept in another form.
pub fn accept(version: u32, tracks: Vec<Track>) -> (r: Vec<Track>)
    ensures
        r@ == if version == VERSION {
            tracks@
        } else {
            Seq::<Track>::empty()
        },
        r@ == accepted(version, tracks@),
{
    if version == VERSION {
        tracks
    } else {
        Vec::new()
    }
}

/// The song played last stands first, once, and the list stays short.
pub proof fn the_last_song_stands_first_once(tracks: Seq<Track>, track: Track)
    ensures
        recorded(tracks, track).len() > 0,
        recorded(tracks, track).len() <= KEEP,
        recorded(tracks, track)[0] == track,
        forall|i: int|
            0 < i < recorded(tracks, track).len() ==> (#[trigger] recorded(
                tracks,
                track,
            )[i]).spec_key() != track.spec_key(),
{
    broadcast use vstd::seq_lib::group_filter_ensures;

    let other = |t: Track| t.spec_key() != track.spec_key();
    let kept = tracks.filter(other);
    let all = seq![track] + kept;
    assert forall|i: int| 0 < i < recorded(tracks, track).len() implies (#[trigger] recorded(
        tracks,
        track,
    )[i]).spec_key() != track.spec_key() by {
        assert(recorded(tracks, track)[i] == all[i]);
        assert(all[i] == kept[i - 1]);
        assert(other(kept[i - 1]));
    }
}

/// A play loses no other song and keeps the order of the others: they move down
/// by one, and only the last of forty falls off.
pub proof fn a_play_keeps_the_other_songs(tracks: Seq<Track>, track: Track, i: int)
    requires
        0 <= i < tracks.len(),
        tracks.len() < 40,
    ensures
        recorded(tracks, track).contains(tracks[i]) || tracks[i].spec_key() == track.spec_key(),
        (forall|j: int| 0 <= j < tracks.len() ==> (#[trigger] tracks[j]).spec_key()
            != track.spec_key()) ==> recorded(tracks, track) == seq![track] + tracks,
{
    broadcast use vstd::seq_lib::group_filter_ensures;

    let other = |t: Track| t.spec_key() != track.spec_key();
    let kept = tracks.filter(other);
    assert(recorded(tracks, track) == seq![track] + kept);
    if other(tracks[i]) {
        assert(kept.contains(tracks[i]));
        let k = choose|k: int| 0 <= k < kept.len() && kept[k] == tracks[i];
        assert((seq![track] + kept)[k + 1] == tracks[i]);
    }
    if (forall|j: int| 0 <= j < tracks.len() ==> (#[trigger] tracks[j]).spec_key()
        != track.spec_key()) {
        all_stay(tracks, other);
    }
}

/// The forty songs played last are kept: where as many are there, the one played
/// longest ago falls off.
pub proof fn forty_songs_are_kept(tracks: Seq<Track>, track: Track)
    requires
        tracks.len() == 40,
        forall|j: int| 0 <= j < tracks.len() ==> (#[trigger] tracks[j]).spec_key()
            != track.spec_key(),
    ensures
        recorded(tracks, track) == seq![track] + tracks.take(39),
{
    let other = |t: Track| t.spec_key() != track.spec_key();
    all_stay(tracks, other);
    assert((seq![track] + tracks).take(40) =~= seq![track] + tracks.take(39));
}

proof fn all_stay(s: Seq<Track>, p: spec_fn(Track) -> bool)
    requires
        forall|j: int| 0 <= j < s.len() ==> p(#[trigger] s[j]),
    ensures
        s.filter(p) == s,
    decreases s.len(),
{
    reveal(Seq::filter);
    if s.len() > 0 {
        let rest = s.drop_last();
        assert forall|j: int| 0 <= j < rest.len() implies p(#[trigger] rest[j]) by {
            assert(rest[j] == s[j]);
        }
        all_stay(rest, p);
        assert(p(s[s.len() - 1]));
        assert(rest.push(s.last()) =~= s);
    } else {
        assert(s.filter(p) =~= s);
    }
}

/// A list that was kept is read as it is, and one of another form is empty.
pub proof fn a_kept_list_is_read(version: u32, tracks: Seq<Track>)
    ensures
        accepted(1, tracks) == tracks,
        version != 1 ==> accepted(version, tracks).len() == 0,
{
}

} // verus!
