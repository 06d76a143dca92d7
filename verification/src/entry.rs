//! A row in a list of things, whatever list it is.
use vstd::prelude::*;

use crate::ipc::PageKind;
use crate::music::types::{
    Album, AlbumView, Artist, ArtistView, Playlist, PlaylistView, SongView, Track,
};
use crate::text;

verus! {

/// What a row stands for. Songs play; everything else opens a page.
#[derive(Debug, PartialEq, Eq)]
pub enum Entry {
    Song(Track),
    Album(Album),
    Artist(Artist),
    Playlist(Playlist),
}

impl Clone for Entry {
    fn clone(&self) -> (r: Self)
        ensures
            r == *self,
    {
        match self {
            Entry::Song(t) => Entry::Song(t.clone()),
            Entry::Album(a) => Entry::Album(a.clone()),
            Entry::Artist(a) => Entry::Artist(a.clone()),
            Entry::Playlist(p) => Entry::Playlist(p.clone()),
        }
    }
}

/// What a row says.
pub enum EntryView {
    Song(SongView),
    Album(AlbumView),
    Artist(ArtistView),
    Playlist(PlaylistView),
}

impl View for Entry {
    type V = EntryView;

    open spec fn view(&self) -> EntryView {
        match self {
            Entry::Song(t) => EntryView::Song(t@),
            Entry::Album(a) => EntryView::Album(a@),
            Entry::Artist(a) => EntryView::Artist(a@),
            Entry::Playlist(p) => EntryView::Playlist(p@),
        }
    }
}

impl EntryView {
    /// The title of a row.
    pub open spec fn title(self) -> Seq<char> {
        match self {
            EntryView::Song(t) => t.title,
            EntryView::Album(a) => a.name,
            EntryView::Artist(a) => a.name,
            EntryView::Playlist(p) => p.name,
        }
    }

    /// The id of the thing that a row stands for.
    pub open spec fn id(self) -> Seq<char> {
        match self {
            EntryView::Song(t) => match t.catalog_id {
                Some(c) => c,
                None => t.id,
            },
            EntryView::Album(a) => a.id,
            EntryView::Artist(a) => a.id,
            EntryView::Playlist(p) => p.id,
        }
    }
}

/// Two fields with a separator between them, or the one that is there.
pub open spec fn either_or_both(
    a: Seq<char>,
    between: Seq<char>,
    b: Seq<char>,
) -> Seq<char> {
    if a.len() > 0 && b.len() > 0 {
        a + between + b
    } else if a.len() > 0 {
        a
    } else {
        b
    }
}

/// Two fields with a separator between them, or the one that is there.
fn pair(a: &str, between: &str, b: &str) -> (r: String)
    ensures
        r@ == either_or_both(a@, between@, b@),
{
    if a.is_empty() {
        return b.to_owned();
    }
    let mut out = a.to_owned();
    if !b.is_empty() {
        out.append(between);
        out.append(b);
    }
    out
}

impl Entry {
    /// The id a row streams by: a song's catalog id.
    pub open spec fn spec_catalog_id(self) -> Option<Seq<char>> {
        match self {
            Entry::Song(t) => text::opt_view(t.catalog_id),
            _ => None,
        }
    }

    /// The id a row streams by, which only songs have.
    pub fn catalog_id(&self) -> (r: Option<&str>)
        ensures
            match r {
                Some(s) => self.spec_catalog_id() == Some(s@),
                None => self.spec_catalog_id() is None,
            },
    {
        match self {
            Entry::Song(t) => match &t.catalog_id {
                Some(c) => Some(c.as_str()),
                None => None,
            },
            _ => None,
        }
    }

    pub open spec fn spec_id(self) -> Seq<char> {
        match self {
            Entry::Song(t) => t.spec_key(),
            Entry::Album(a) => a.id@,
            Entry::Artist(a) => a.id@,
            Entry::Playlist(p) => p.id@,
        }
    }

    /// The id of the thing, whichever collection it came from.
    pub fn id(&self) -> (r: &str)
        ensures
            r@ == self.spec_id(),
    {
        match self {
            Entry::Song(t) => t.key(),
            Entry::Album(a) => a.id.as_str(),
            Entry::Artist(a) => a.id.as_str(),
            Entry::Playlist(p) => p.id.as_str(),
        }
    }

    pub open spec fn spec_title(self) -> Seq<char> {
        match self {
            Entry::Song(t) => t.title@,
            Entry::Album(a) => a.name@,
            Entry::Artist(a) => a.name@,
            Entry::Playlist(p) => p.name@,
        }
    }

    pub fn title(&self) -> (r: &str)
        ensures
            r@ == self.spec_title(),
    {
        match self {
            Entry::Song(t) => t.title.as_str(),
            Entry::Album(a) => a.name.as_str(),
            Entry::Artist(a) => a.name.as_str(),
            Entry::Playlist(p) => p.name.as_str(),
        }
    }

    pub open spec fn spec_subtitle(self) -> Seq<char> {
        match self {
            Entry::Song(t) => either_or_both(t.artist@, " — "@, t.album@),
            Entry::Album(a) => either_or_both(a.artist@, " · "@, a.year@),
            Entry::Artist(a) => a.genres@,
            Entry::Playlist(p) => p.curator@,
        }
    }

    /// The second line. A missing field takes its separator with it.
    pub fn subtitle(&self) -> (r: String)
        ensures
            r@ == self.spec_subtitle(),
    {
        match self {
            Entry::Song(t) => pair(t.artist.as_str(), " — ", t.album.as_str()),
            Entry::Album(a) => pair(a.artist.as_str(), " · ", a.year.as_str()),
            Entry::Artist(a) => a.genres.clone(),
            Entry::Playlist(p) => p.curator.clone(),
        }
    }

    /// Whether the row leads somewhere; songs are the destination.
    pub fn opens_a_page(&self) -> (r: bool)
        ensures
            r == !(self is Song),
    {
        !matches!(self, Entry::Song(_))
    }

    /// What opening the row asks for. Which collection the id belongs to comes
    /// from the row's own flag, never from the shape of the id.
    pub open spec fn spec_page_target(self) -> Option<(PageKind, Seq<char>)> {
        match self {
            Entry::Song(_) => None,
            Entry::Album(a) => Some(
                (
                    if a.library {
                        PageKind::LibraryAlbum
                    } else {
                        PageKind::Album
                    },
                    a.id@,
                ),
            ),
            Entry::Artist(a) => Some(
                (
                    if a.library {
                        PageKind::LibraryArtist
                    } else {
                        PageKind::Artist
                    },
                    a.id@,
                ),
            ),
            Entry::Playlist(p) => Some(
                (
                    if p.library {
                        PageKind::LibraryPlaylist
                    } else {
                        PageKind::Playlist
                    },
                    p.id@,
                ),
            ),
        }
    }

    /// What opening the row asks for, if it opens anything.
    pub fn page_target(&self) -> (r: Option<(PageKind, String)>)
        ensures
            match r {
                Some((kind, id)) => self.spec_page_target() == Some((kind, id@)),
                None => self.spec_page_target() is None,
            },
    {
        match self {
            Entry::Song(_) => None,
            Entry::Album(a) => Some(
                (
                    if a.library {
                        PageKind::LibraryAlbum
                    } else {
                        PageKind::Album
                    },
                    a.id.clone(),
                ),
            ),
            Entry::Artist(a) => Some(
                (
                    if a.library {
                        PageKind::LibraryArtist
                    } else {
                        PageKind::Artist
                    },
                    a.id.clone(),
                ),
            ),
            Entry::Playlist(p) => Some(
                (
                    if p.library {
                        PageKind::LibraryPlaylist
                    } else {
                        PageKind::Playlist
                    },
                    p.id.clone(),
                ),
            ),
        }
    }
}

/// A row opens a page or streams, never both.
pub proof fn a_row_opens_or_streams(e: Entry)
    ensures
        e.spec_page_target() is Some ==> e.spec_catalog_id() is None,
        e.spec_page_target() is Some <==> !(e is Song),
{
}

/// A second line never begins or ends with a separator that joins nothing.
pub proof fn a_subtitle_has_no_dangling_separator(a: Seq<char>, between: Seq<char>, b: Seq<char>)
    ensures
        a.len() == 0 ==> either_or_both(a, between, b) == b,
        b.len() == 0 ==> either_or_both(a, between, b) == a,
{
    if a.len() == 0 && b.len() == 0 {
        assert(a =~= b);
    }
}

/// A copy of a list of rows.
pub fn copy_entries(v: &Vec<Entry>) -> (r: Vec<Entry>)
    ensures
        r@ == v@,
{
    let r = v.clone();
    assert(r@ =~= v@);
    r
}

/// The second line of a song is its artist and its album, of an album its artist
/// and its year, of an artist the genres, and of a playlist who made it.
pub proof fn the_second_line_says_whose_it_is(t: Track, a: Album, r: Artist, p: Playlist)
    ensures
        t.artist@.len() > 0 && t.album@.len() > 0 ==> Entry::Song(t).spec_subtitle() == t.artist@
            + " — "@ + t.album@,
        t.album@.len() == 0 ==> Entry::Song(t).spec_subtitle() == t.artist@,
        t.artist@.len() == 0 ==> Entry::Song(t).spec_subtitle() == t.album@,
        a.artist@.len() > 0 && a.year@.len() > 0 ==> Entry::Album(a).spec_subtitle() == a.artist@
            + " · "@ + a.year@,
        a.year@.len() == 0 ==> Entry::Album(a).spec_subtitle() == a.artist@,
        Entry::Artist(r).spec_subtitle() == r.genres@,
        Entry::Playlist(p).spec_subtitle() == p.curator@,
{
}

/// A row opens the page of the thing that it is, in the library where it is of
/// the library and in the catalogue otherwise.
pub proof fn a_row_opens_its_own_page(a: Album, r: Artist, p: Playlist)
    ensures
        Entry::Album(a).spec_page_target() == Some(
            (if a.library { PageKind::LibraryAlbum } else { PageKind::Album }, a.id@),
        ),
        Entry::Artist(r).spec_page_target() == Some(
            (if r.library { PageKind::LibraryArtist } else { PageKind::Artist }, r.id@),
        ),
        Entry::Playlist(p).spec_page_target() == Some(
            (if p.library { PageKind::LibraryPlaylist } else { PageKind::Playlist }, p.id@),
        ),
{
}

/// A row is what it is of: its title is the thing's name, and its id the
/// thing's, for a song the one of the catalogue where it has one.
pub proof fn a_row_is_called_what_it_is(t: Track, a: Album, r: Artist, p: Playlist)
    ensures
        Entry::Song(t).spec_title() == t.title@,
        Entry::Album(a).spec_title() == a.name@,
        Entry::Artist(r).spec_title() == r.name@,
        Entry::Playlist(p).spec_title() == p.name@,
        t.catalog_id matches Some(c) ==> Entry::Song(t).spec_id() == c@
            && Entry::Song(t).spec_catalog_id() == Some(c@),
        t.catalog_id is None ==> Entry::Song(t).spec_id() == t.id.0@ && Entry::Song(
            t,
        ).spec_catalog_id() is None,
        Entry::Album(a).spec_id() == a.id@,
        Entry::Artist(r).spec_id() == r.id@,
        Entry::Playlist(p).spec_id() == p.id@,
        Entry::Song(t)@.title() == t.title@,
        Entry::Song(t)@.id() == Entry::Song(t).spec_id(),
{
}

} // verus!
