//! Songs that stream from a catalogue other than Apple Music. Their ids carry
//! the catalogue in front: `sp:`, `yt:` or `td:`.
use vstd::prelude::*;

use crate::music::types::Track;
use crate::text;

verus! {

/// A song of such a catalogue.
#[derive(Debug, PartialEq, Eq)]
pub struct StreamHit {
    pub id: String,
    pub title: String,
    pub artist: String,
    pub album: String,
    pub duration_ms: u64,
    pub artwork: Option<String>,
    /// What to look for where the song has to be found by name.
    pub play_query: String,
}

/// What such a song says.
pub struct HitView {
    pub id: Seq<char>,
    pub title: Seq<char>,
    pub artist: Seq<char>,
    pub album: Seq<char>,
    pub duration_ms: u64,
    pub artwork: Option<Seq<char>>,
    pub play_query: Seq<char>,
}

impl View for StreamHit {
    type V = HitView;

    open spec fn view(&self) -> HitView {
        HitView {
            id: self.id@,
            title: self.title@,
            artist: self.artist@,
            album: self.album@,
            duration_ms: self.duration_ms,
            artwork: text::opt_view(self.artwork),
            play_query: self.play_query@,
        }
    }
}

/// A song of such a catalogue as one; any other is none. It is looked for by
/// its artist and title.
pub open spec fn hit_of(t: Track) -> Option<HitView> {
    if stream_id(t.spec_key()) {
        Some(
            HitView {
                id: t.spec_key(),
                title: t.title@,
                artist: t.artist@,
                album: t.album@,
                duration_ms: t.duration_ms,
                artwork: crate::music::types::picture(t.artwork),
                play_query: t.artist@ + " "@ + t.title@,
            },
        )
    } else {
        None
    }
}

/// Whether `id` belongs to one of these catalogues.
pub open spec fn stream_id(id: Seq<char>) -> bool {
    "sp:"@.is_prefix_of(id) || "yt:"@.is_prefix_of(id) || "td:"@.is_prefix_of(id)
}

impl StreamHit {
    /// Whether `id` belongs to one of these catalogues.
    pub fn is_stream_id(id: &str) -> (r: bool)
        ensures
            r == stream_id(id@),
    {
        text::starts_with(id, "sp:") || text::starts_with(id, "yt:") || text::starts_with(id, "td:")
    }

    /// A song of such a catalogue as one; any other is none.
    pub fn from_song(track: &Track) -> (r: Option<StreamHit>)
        ensures
            crate::music::types::seen_opt(r) == hit_of(*track),
    {
        let id = track.key();
        if !StreamHit::is_stream_id(id) {
            return None;
        }
        let mut play_query = track.artist.clone();
        play_query.append(" ");
        play_query.append(track.title.as_str());
        let artwork = match &track.artwork {
            Some(a) => Some(a.template.clone()),
            None => None,
        };
        Some(
            StreamHit {
                id: id.to_owned(),
                title: track.title.clone(),
                artist: track.artist.clone(),
                album: track.album.clone(),
                duration_ms: track.duration_ms,
                artwork,
                play_query,
            },
        )
    }
}

/// Whether a title is nothing but the video id it stands for.
pub open spec fn raw_id(id: Seq<char>, title: Seq<char>) -> bool {
    title.len() > 0 && text::after_prefix(id, "yt:"@) == Some(title)
}

/// Whether a title is nothing but the video id it stands for.
pub fn title_is_raw_id(id: &str, title: &str) -> (r: bool)
    ensures
        r == raw_id(id@, title@),
{
    match text::strip_prefix(id, "yt:") {
        Some(rest) => !title.is_empty() && text::same(rest.as_str(), title),
        None => false,
    }
}

/// Whether a song's title is nothing but its video id.
pub fn track_title_is_placeholder(track: &Track) -> (r: bool)
    ensures
        r == raw_id(track.spec_key(), track.title@),
{
    title_is_raw_id(track.key(), track.title.as_str())
}

/// A song of such a catalogue is found as itself: the same id, title, artist,
/// album and length; a song of any other is none.
pub proof fn a_song_is_found_as_itself(t: Track)
    ensures
        hit_of(t) is Some == stream_id(t.spec_key()),
        hit_of(t) matches Some(hit) ==> {
            &&& hit.id == t.spec_key()
            &&& hit.title == t.title@
            &&& hit.artist == t.artist@
            &&& hit.album == t.album@
            &&& hit.duration_ms == t.duration_ms
            &&& hit.play_query == t.artist@ + " "@ + t.title@
        },
{
}

/// An id of these catalogues begins with two letters and a colon; a number does
/// not, nor does an id of the library.
pub proof fn an_id_tells_its_catalogue(rest: Seq<char>)
    ensures
        stream_id("sp:"@ + rest),
        stream_id("yt:"@ + rest),
        stream_id("td:"@ + rest),
        rest.len() > 0 && '0' <= rest[0] <= '9' ==> !stream_id(rest),
        !stream_id("i."@ + rest),
        rest.len() > 0 ==> raw_id("yt:"@ + rest, rest),
        rest.len() > 0 ==> !raw_id("sp:"@ + rest, rest),
        !raw_id("yt:"@ + rest, Seq::empty()),
{
    reveal_strlit("sp:");
    reveal_strlit("yt:");
    reveal_strlit("td:");
    reveal_strlit("i.");
    assert("sp:"@[0] == 's' && "yt:"@[0] == 'y' && "td:"@[0] == 't' && "i."@[0] == 'i');
    assert("sp:"@.is_prefix_of("sp:"@ + rest));
    assert("yt:"@.is_prefix_of("yt:"@ + rest));
    assert("td:"@.is_prefix_of("td:"@ + rest));
    assert(("yt:"@ + rest).skip(3) =~= rest);
    assert(("sp:"@ + rest)[0] == 's');
    assert(("i."@ + rest)[0] == 'i');
    assert(forall|p: Seq<char>, s: Seq<char>| #[trigger]
        p.is_prefix_of(s) && p.len() > 0 ==> s[0] == p[0]);
}

/// What a found song says is what it holds.
pub proof fn a_found_song_says_what_it_holds(h: StreamHit)
    ensures
        h@.id == h.id@ && h@.title == h.title@ && h@.artist == h.artist@ && h@.album == h.album@,
        h@.duration_ms == h.duration_ms && h@.play_query == h.play_query@,
        h.artwork matches Some(a) ==> h@.artwork == Some(a@),
        h.artwork is None ==> h@.artwork is None,
{
}

} // verus!
