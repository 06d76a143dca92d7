//! Spotify's catalogue.
use vstd::prelude::*;

use crate::catalog::{self, SearchResults};
use crate::entry::Entry;
use crate::ipc::CatalogFilter;
use crate::music::types::{seen, Album, Artist, Playlist, Track};
use crate::streams::{self, StreamHit};
use crate::text;

pub mod feeds;
pub mod gql;
pub mod library;
pub mod pages;
pub mod rest;
pub mod session;

verus! {

/// What an id of Spotify's stands for.
#[derive(Debug, PartialEq, Eq)]
pub enum Ref {
    Track(String),
    Album(String),
    Artist(String),
    Playlist(String),
    Liked,
    Top,
}

/// The same, as values.
pub enum RefView {
    Track(Seq<char>),
    Album(Seq<char>),
    Artist(Seq<char>),
    Playlist(Seq<char>),
    Liked,
    Top,
}

impl View for Ref {
    type V = RefView;

    open spec fn view(&self) -> RefView {
        match self {
            Ref::Track(s) => RefView::Track(s@),
            Ref::Album(s) => RefView::Album(s@),
            Ref::Artist(s) => RefView::Artist(s@),
            Ref::Playlist(s) => RefView::Playlist(s@),
            Ref::Liked => RefView::Liked,
            Ref::Top => RefView::Top,
        }
    }
}

/// A bare id of a song, if it is one: not empty, and without a colon.
pub open spec fn bare_track(s: Seq<char>) -> Option<RefView> {
    if gql::is_bare(s) {
        Some(RefView::Track(s))
    } else {
        None
    }
}

/// What an id stands for.
pub open spec fn spec_ref(id: Seq<char>) -> Option<RefView> {
    match text::after_prefix(id, "sp:"@) {
        None => None,
        Some(rest) => if rest == "liked"@ {
            Some(RefView::Liked)
        } else if rest == "top"@ {
            Some(RefView::Top)
        } else if "playlist:"@.is_prefix_of(rest) {
            Some(RefView::Playlist(rest.skip(9)))
        } else if "album:"@.is_prefix_of(rest) {
            Some(RefView::Album(rest.skip(6)))
        } else if "artist:"@.is_prefix_of(rest) {
            Some(RefView::Artist(rest.skip(7)))
        } else if "track:"@.is_prefix_of(rest) {
            bare_track(rest.skip(6))
        } else {
            bare_track(rest)
        },
    }
}

fn bare(s: String) -> (r: Option<Ref>)
    ensures
        crate::music::types::seen_opt(r) == bare_track(s@),
{
    if s.as_str().is_empty() || text::contains(s.as_str(), ":") {
        None
    } else {
        Some(Ref::Track(s))
    }
}

impl Ref {
    /// What an id stands for.
    pub fn parse(id: &str) -> (r: Option<Self>)
        ensures
            crate::music::types::seen_opt(r) == spec_ref(id@),
    {
        proof {
            reveal_strlit("playlist:");
            reveal_strlit("album:");
            reveal_strlit("artist:");
            reveal_strlit("track:");
        }
        match text::strip_prefix(id, "sp:") {
            None => None,
            Some(rest) => {
                let s = rest.as_str();
                if text::same(s, "liked") {
                    return Some(Ref::Liked);
                }
                if text::same(s, "top") {
                    return Some(Ref::Top);
                }
                if let Some(p) = text::strip_prefix(s, "playlist:") {
                    return Some(Ref::Playlist(p));
                }
                if let Some(a) = text::strip_prefix(s, "album:") {
                    return Some(Ref::Album(a));
                }
                if let Some(a) = text::strip_prefix(s, "artist:") {
                    return Some(Ref::Artist(a));
                }
                if let Some(t) = text::strip_prefix(s, "track:") {
                    return bare(t);
                }
                bare(rest)
            },
        }
    }

    pub fn is_track(&self) -> (r: bool)
        ensures
            r == (self@ is Track),
    {
        matches!(self, Ref::Track(_))
    }
}

/// What a search found: songs to play, and rows to show.
#[derive(Debug)]
pub struct SearchPage {
    pub hits: Vec<StreamHit>,
    pub results: SearchResults,
}

/// The songs to play, and the rows of a first page.
pub fn catalog_entries(page: SearchPage, filter: CatalogFilter) -> (r: (Vec<StreamHit>, Vec<Entry>))
    ensures
        r.0 == page.hits,
        r.1@ == catalog::rows_of(filter, page.results, true).0,
{
    let (entries, _) = catalog::catalog_rows(filter, page.results, true);
    (page.hits, entries)
}

/// The songs among `songs` that stream from a catalogue other than Apple Music.
pub fn hits_from_songs(songs: &[Track]) -> (r: Vec<StreamHit>)
    ensures
        seen(r@) == crate::json::chosen(songs@, |t: Track| streams::hit_of(t)),
{
    let ghost g = |t: Track| streams::hit_of(t);
    let mut out: Vec<StreamHit> = Vec::new();
    let mut i: usize = 0;
    proof {
        crate::json::chosen_of_none(songs@, g);
        assert(seen(out@) =~= Seq::<streams::HitView>::empty());
    }
    while i < songs.len()
        invariant
            i <= songs@.len(),
            g == (|t: Track| streams::hit_of(t)),
            seen(out@) == crate::json::chosen(songs@.take(i as int), g),
        decreases songs@.len() - i,
    {
        proof {
            crate::json::chosen_step(songs@, g, i as int);
        }
        if let Some(hit) = StreamHit::from_song(&songs[i]) {
            let ghost out0 = out@;
            out.push(hit);
            assert(seen(out@) =~= seen(out0).push(hit@));
        }
        i += 1;
    }
    proof {
        crate::json::chosen_of_none(songs@, g);
    }
    out
}

/// What opening an id asks Spotify for.
#[derive(Debug, PartialEq, Eq)]
pub enum Opening {
    Album(String),
    Playlist(String),
    Artist(String),
    /// The liked songs, so many at most.
    Liked { max: usize },
    /// The songs that are played most, so many at most.
    Top { max: usize },
    /// A song opens no page.
    NoPage,
    /// The id is not Spotify's.
    Foreign,
}

/// What opening an id asks Spotify for.
pub fn open(id: &str) -> (r: Opening)
    ensures
        match spec_ref(id@) {
            None => r is Foreign,
            Some(RefView::Album(s)) => r matches Opening::Album(t) && t@ == s,
            Some(RefView::Playlist(s)) => r matches Opening::Playlist(t) && t@ == s,
            Some(RefView::Artist(s)) => r matches Opening::Artist(t) && t@ == s,
            Some(RefView::Liked) => r == (Opening::Liked { max: 200 }),
            Some(RefView::Top) => r == (Opening::Top { max: 50 }),
            Some(RefView::Track(_)) => r is NoPage,
        },
{
    match Ref::parse(id) {
        None => Opening::Foreign,
        Some(Ref::Album(s)) => Opening::Album(s),
        Some(Ref::Playlist(s)) => Opening::Playlist(s),
        Some(Ref::Artist(s)) => Opening::Artist(s),
        Some(Ref::Liked) => Opening::Liked { max: 200 },
        Some(Ref::Top) => Opening::Top { max: 50 },
        Some(Ref::Track(_)) => Opening::NoPage,
    }
}

proof fn what_follows(p: Seq<char>, rest: Seq<char>)
    ensures
        p.is_prefix_of(p + rest),
        (p + rest).skip(p.len() as int) == rest,
        text::after_prefix(p + rest, p) == Some(rest),
{
    assert((p + rest).subrange(0, p.len() as int) =~= p);
    assert((p + rest).skip(p.len() as int) =~= rest);
}

proof fn differs_at(p: Seq<char>, s: Seq<char>, k: int)
    requires
        0 <= k < p.len(),
        k < s.len(),
        p[k] != s[k],
    ensures
        !p.is_prefix_of(s),
        p != s,
{
    if p.is_prefix_of(s) {
        assert(s.subrange(0, p.len() as int)[k] == s[k]);
    }
}

/// The id of an album is read back.
pub proof fn an_album_is_read_back(id: Seq<char>)
    ensures
        spec_ref("sp:album:"@ + id) == Some(RefView::Album(id)),
{
    reveal_strlit("sp:");
    reveal_strlit("sp:album:");
    reveal_strlit("liked");
    reveal_strlit("top");
    reveal_strlit("playlist:");
    reveal_strlit("album:");
    let rest = "album:"@ + id;
    assert("sp:album:"@ + id =~= "sp:"@ + rest);
    what_follows("sp:"@, rest);
    what_follows("album:"@, id);
    differs_at("liked"@, rest, 0);
    differs_at("top"@, rest, 0);
    differs_at("playlist:"@, rest, 0);
}

/// The id of an artist is read back.
pub proof fn an_artist_is_read_back(id: Seq<char>)
    ensures
        spec_ref("sp:artist:"@ + id) == Some(RefView::Artist(id)),
{
    reveal_strlit("sp:");
    reveal_strlit("sp:artist:");
    reveal_strlit("liked");
    reveal_strlit("top");
    reveal_strlit("playlist:");
    reveal_strlit("album:");
    reveal_strlit("artist:");
    let rest = "artist:"@ + id;
    assert("sp:artist:"@ + id =~= "sp:"@ + rest);
    what_follows("sp:"@, rest);
    what_follows("artist:"@, id);
    differs_at("liked"@, rest, 0);
    differs_at("top"@, rest, 0);
    differs_at("playlist:"@, rest, 0);
    differs_at("album:"@, rest, 1);
}

/// The id of a playlist is read back, and so are those of the two lists that
/// are not playlists.
pub proof fn a_playlist_is_read_back(id: Seq<char>)
    ensures
        spec_ref("sp:playlist:"@ + id) == Some(RefView::Playlist(id)),
        spec_ref("sp:liked"@) == Some(RefView::Liked),
        spec_ref("sp:top"@) == Some(RefView::Top),
{
    reveal_strlit("sp:");
    reveal_strlit("sp:playlist:");
    reveal_strlit("sp:liked");
    reveal_strlit("sp:top");
    reveal_strlit("liked");
    reveal_strlit("top");
    reveal_strlit("playlist:");
    let rest = "playlist:"@ + id;
    assert("sp:playlist:"@ + id =~= "sp:"@ + rest);
    assert("sp:liked"@ =~= "sp:"@ + "liked"@);
    assert("sp:top"@ =~= "sp:"@ + "top"@);
    what_follows("sp:"@, rest);
    what_follows("sp:"@, "liked"@);
    what_follows("sp:"@, "top"@);
    what_follows("playlist:"@, id);
    differs_at("liked"@, rest, 0);
    differs_at("top"@, rest, 0);
    differs_at("liked"@, "top"@, 0);
}

/// The id of a song is read back, where it holds no colon and is not the word
/// for one of the two lists.
pub proof fn a_song_is_read_back(id: Seq<char>)
    requires
        gql::is_bare(id),
        id != "liked"@,
        id != "top"@,
    ensures
        spec_ref("sp:"@ + id) == Some(RefView::Track(id)),
{
    reveal_strlit("playlist:");
    reveal_strlit("album:");
    reveal_strlit("artist:");
    reveal_strlit("track:");
    what_follows("sp:"@, id);
    no_colon(id, "playlist:"@);
    no_colon(id, "album:"@);
    no_colon(id, "artist:"@);
    no_colon(id, "track:"@);
}

proof fn no_colon(id: Seq<char>, p: Seq<char>)
    requires
        gql::is_bare(id),
        p.len() > 0,
        p.last() == ':',
    ensures
        !p.is_prefix_of(id),
{
    reveal_strlit(":");
    if p.is_prefix_of(id) {
        let k = p.len() - 1;
        assert(id.subrange(0, p.len() as int)[k] == id[k]);
        assert(id.subrange(k, k + 1) =~= ":"@);
        assert(text::occurs_at(id, ":"@, k));
    }
}

} // verus!
