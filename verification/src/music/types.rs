//! Songs, albums, artists and playlists.
use vstd::prelude::*;

use crate::text;

verus! {

/// The id a song has in the list it came from.
#[derive(Debug, PartialEq, Eq)]
pub struct TrackId(pub String);

impl Clone for TrackId {
    fn clone(&self) -> (r: Self)
        ensures
            r == *self,
    {
        TrackId(self.0.clone())
    }
}

/// A picture: an address in which `{w}` and `{h}` stand for the size and `{f}`
/// for the format.
#[derive(Debug, PartialEq, Eq)]
pub struct Artwork {
    pub template: String,
}

impl Clone for Artwork {
    fn clone(&self) -> (r: Self)
        ensures
            r == *self,
    {
        Artwork { template: self.template.clone() }
    }
}

/// `c` as it may stand in a file name: itself if it is a letter, a digit, a dot
/// or a hyphen, else an underscore.
pub open spec fn safe_char(c: char) -> char {
    if ('a' <= c <= 'z') || ('A' <= c <= 'Z') || ('0' <= c <= '9') || c == '.' || c == '-' {
        c
    } else {
        '_'
    }
}

/// `s` as it may stand in a file name.
pub open spec fn safe_name(s: Seq<char>) -> Seq<char> {
    s.map_values(|c: char| safe_char(c))
}

/// `s` as it may stand in a file name.
pub fn file_safe(s: &str) -> (r: String)
    ensures
        r@ == safe_name(s@),
{
    let v = text::chars(s);
    let mut out = String::new();
    let mut i: usize = 0;
    while i < v.len()
        invariant
            i <= v@.len(),
            out@ =~= safe_name(v@.take(i as int)),
        decreases v@.len() - i,
    {
        let c = v[i];
        let kept = ('a' <= c && c <= 'z') || ('A' <= c && c <= 'Z') || ('0' <= c && c <= '9') || c
            == '.' || c == '-';
        out.push(if kept { c } else { '_' });
        i += 1;
    }
    assert(v@.take(v@.len() as int) =~= s@);
    out
}

impl Artwork {
    pub fn new(template: &str) -> (r: Self)
        ensures
            r.template@ == template@,
    {
        Artwork { template: template.to_owned() }
    }

    /// The address of the picture at `size` by `size`.
    pub open spec fn spec_url(self, size: u32) -> Seq<char> {
        let n = text::decimal(size as nat);
        text::replaced(
            text::replaced(text::replaced(self.template@, "{w}"@, n), "{h}"@, n),
            "{f}"@,
            "jpg"@,
        )
    }

    /// The address of the picture at `size` by `size`.
    pub fn url(&self, size: u32) -> (r: String)
        ensures
            r@ == self.spec_url(size),
    {
        proof {
            reveal_strlit("{w}");
            reveal_strlit("{h}");
            reveal_strlit("{f}");
        }
        let n = text::number(size as u64);
        let sized = text::replace(
            text::replace(self.template.as_str(), "{w}", n.as_str()).as_str(),
            "{h}",
            n.as_str(),
        );
        text::replace(sized.as_str(), "{f}", "jpg")
    }

    /// What the picture is called on disk.
    pub fn cache_key(&self) -> (r: String)
        ensures
            r@ == safe_name(self.template@),
    {
        file_safe(self.template.as_str())
    }
}

#[derive(Debug, PartialEq, Eq)]
pub struct Track {
    pub id: TrackId,
    /// The id it streams by. Absent where it cannot be streamed.
    pub catalog_id: Option<String>,
    pub favorite: bool,
    pub in_library: bool,
    pub library_id: Option<String>,
    pub date_added: String,
    pub year: String,
    pub title: String,
    pub artist: String,
    pub album: String,
    pub duration_ms: u64,
    pub track_number: u32,
    pub artwork: Option<Artwork>,
}

impl Clone for Track {
    fn clone(&self) -> (r: Self)
        ensures
            r == *self,
    {
        Track {
            id: self.id.clone(),
            catalog_id: self.catalog_id.clone(),
            favorite: self.favorite,
            in_library: self.in_library,
            library_id: self.library_id.clone(),
            date_added: self.date_added.clone(),
            year: self.year.clone(),
            title: self.title.clone(),
            artist: self.artist.clone(),
            album: self.album.clone(),
            duration_ms: self.duration_ms,
            track_number: self.track_number,
            artwork: self.artwork.clone(),
        }
    }
}

impl Track {
    /// What a song is known by: its catalog id, else its own.
    pub open spec fn spec_key(self) -> Seq<char> {
        match self.catalog_id {
            Some(c) => c@,
            None => self.id.0@,
        }
    }

    /// Whether the song can be streamed.
    pub fn playable(&self) -> (r: bool)
        ensures
            r == (self.catalog_id is Some),
    {
        self.catalog_id.is_some()
    }

    /// What this song is known by.
    pub fn key(&self) -> (r: &str)
        ensures
            r@ == self.spec_key(),
    {
        match &self.catalog_id {
            Some(c) => c.as_str(),
            None => self.id.0.as_str(),
        }
    }
}

#[derive(Debug, PartialEq, Eq)]
pub struct Album {
    pub id: String,
    pub date_added: String,
    pub name: String,
    pub artist: String,
    pub artwork: Option<Artwork>,
    pub year: String,
    /// Whether it came from the library rather than the catalogue.
    pub library: bool,
    pub track_count: u32,
}

impl Clone for Album {
    fn clone(&self) -> (r: Self)
        ensures
            r == *self,
    {
        Album {
            id: self.id.clone(),
            date_added: self.date_added.clone(),
            name: self.name.clone(),
            artist: self.artist.clone(),
            artwork: self.artwork.clone(),
            year: self.year.clone(),
            library: self.library,
            track_count: self.track_count,
        }
    }
}

#[derive(Debug, PartialEq, Eq)]
pub struct Artist {
    pub id: String,
    pub name: String,
    pub artwork: Option<Artwork>,
    pub genres: String,
    pub library: bool,
}

impl Clone for Artist {
    fn clone(&self) -> (r: Self)
        ensures
            r == *self,
    {
        Artist {
            id: self.id.clone(),
            name: self.name.clone(),
            artwork: self.artwork.clone(),
            genres: self.genres.clone(),
            library: self.library,
        }
    }
}

#[derive(Debug, PartialEq, Eq)]
pub struct Playlist {
    pub id: String,
    pub date_added: String,
    pub last_modified: String,
    pub name: String,
    pub curator: String,
    pub description: String,
    pub artwork: Option<Artwork>,
    pub library: bool,
}

impl Clone for Playlist {
    fn clone(&self) -> (r: Self)
        ensures
            r == *self,
    {
        Playlist {
            id: self.id.clone(),
            date_added: self.date_added.clone(),
            last_modified: self.last_modified.clone(),
            name: self.name.clone(),
            curator: self.curator.clone(),
            description: self.description.clone(),
            artwork: self.artwork.clone(),
            library: self.library,
        }
    }
}

/// What an optional picture's address holds.
pub open spec fn picture(a: Option<Artwork>) -> Option<Seq<char>> {
    match a {
        Some(a) => Some(a.template@),
        None => None,
    }
}

/// A picture with this address, if there is one.
pub fn picture_at(template: Option<String>) -> (r: Option<Artwork>)
    ensures
        picture(r) == text::opt_view(template),
{
    match template {
        Some(s) => Some(Artwork::new(s.as_str())),
        None => None,
    }
}

/// What a song says.
pub struct SongView {
    pub id: Seq<char>,
    pub catalog_id: Option<Seq<char>>,
    pub favorite: bool,
    pub in_library: bool,
    pub library_id: Option<Seq<char>>,
    pub date_added: Seq<char>,
    pub year: Seq<char>,
    pub title: Seq<char>,
    pub artist: Seq<char>,
    pub album: Seq<char>,
    pub duration_ms: u64,
    pub track_number: u32,
    pub artwork: Option<Seq<char>>,
}

impl View for Track {
    type V = SongView;

    open spec fn view(&self) -> SongView {
        SongView {
            id: self.id.0@,
            catalog_id: text::opt_view(self.catalog_id),
            favorite: self.favorite,
            in_library: self.in_library,
            library_id: text::opt_view(self.library_id),
            date_added: self.date_added@,
            year: self.year@,
            title: self.title@,
            artist: self.artist@,
            album: self.album@,
            duration_ms: self.duration_ms,
            track_number: self.track_number,
            artwork: picture(self.artwork),
        }
    }
}

/// What an album says.
pub struct AlbumView {
    pub id: Seq<char>,
    pub date_added: Seq<char>,
    pub name: Seq<char>,
    pub artist: Seq<char>,
    pub artwork: Option<Seq<char>>,
    pub year: Seq<char>,
    pub library: bool,
    pub track_count: u32,
}

impl View for Album {
    type V = AlbumView;

    open spec fn view(&self) -> AlbumView {
        AlbumView {
            id: self.id@,
            date_added: self.date_added@,
            name: self.name@,
            artist: self.artist@,
            artwork: picture(self.artwork),
            year: self.year@,
            library: self.library,
            track_count: self.track_count,
        }
    }
}

/// What an artist says.
pub struct ArtistView {
    pub id: Seq<char>,
    pub name: Seq<char>,
    pub artwork: Option<Seq<char>>,
    pub genres: Seq<char>,
    pub library: bool,
}

impl View for Artist {
    type V = ArtistView;

    open spec fn view(&self) -> ArtistView {
        ArtistView {
            id: self.id@,
            name: self.name@,
            artwork: picture(self.artwork),
            genres: self.genres@,
            library: self.library,
        }
    }
}

/// What a playlist says.
pub struct PlaylistView {
    pub id: Seq<char>,
    pub date_added: Seq<char>,
    pub last_modified: Seq<char>,
    pub name: Seq<char>,
    pub curator: Seq<char>,
    pub description: Seq<char>,
    pub artwork: Option<Seq<char>>,
    pub library: bool,
}

impl View for Playlist {
    type V = PlaylistView;

    open spec fn view(&self) -> PlaylistView {
        PlaylistView {
            id: self.id@,
            date_added: self.date_added@,
            last_modified: self.last_modified@,
            name: self.name@,
            curator: self.curator@,
            description: self.description@,
            artwork: picture(self.artwork),
            library: self.library,
        }
    }
}

/// What things of a list say.
pub open spec fn seen<T: View>(v: Seq<T>) -> Seq<T::V> {
    v.map_values(|t: T| t@)
}

/// What a thing says, if there is one.
pub open spec fn seen_opt<T: View>(v: Option<T>) -> Option<T::V> {
    match v {
        Some(t) => Some(t@),
        None => None,
    }
}

/// What a song, an album, an artist or a playlist says is what it holds.
pub proof fn a_thing_says_what_it_holds(t: Track, a: Album, r: Artist, p: Playlist)
    ensures
        t@.id == t.id.0@ && t@.title == t.title@ && t@.artist == t.artist@ && t@.album == t.album@,
        t@.favorite == t.favorite && t@.in_library == t.in_library,
        t@.date_added == t.date_added@ && t@.year == t.year@,
        t@.duration_ms == t.duration_ms && t@.track_number == t.track_number,
        t.catalog_id matches Some(c) ==> t@.catalog_id == Some(c@),
        t.library_id matches Some(l) ==> t@.library_id == Some(l@),
        t.artwork matches Some(x) ==> t@.artwork == Some(x.template@),
        t.catalog_id is None ==> t@.catalog_id is None,
        t.library_id is None ==> t@.library_id is None,
        t.artwork is None ==> t@.artwork is None,
        a@.id == a.id@ && a@.name == a.name@ && a@.artist == a.artist@ && a@.year == a.year@,
        a@.date_added == a.date_added@ && a@.library == a.library && a@.track_count
            == a.track_count,
        r@.id == r.id@ && r@.name == r.name@ && r@.genres == r.genres@ && r@.library == r.library,
        p@.id == p.id@ && p@.name == p.name@ && p@.curator == p.curator@ && p@.description
            == p.description@,
        p@.date_added == p.date_added@ && p@.last_modified == p.last_modified@ && p@.library
            == p.library,
{
}

/// A song is known by its catalogue id where it has one, and by its own
/// otherwise.
pub proof fn a_song_is_known_by_its_catalogue_id(t: Track)
    ensures
        t.catalog_id matches Some(c) ==> t.spec_key() == c@,
        t.catalog_id is None ==> t.spec_key() == t.id.0@,
{
}

/// A name for a file keeps its length and what may stand in it, and holds
/// nothing else.
pub proof fn a_file_name_is_safe(s: Seq<char>, i: int)
    requires
        0 <= i < s.len(),
    ensures
        safe_name(s).len() == s.len(),
        'a' <= s[i] <= 'z' || 'A' <= s[i] <= 'Z' || '0' <= s[i] <= '9' || s[i] == '.' || s[i] == '-'
            ==> safe_name(s)[i] == s[i],
        s[i] == '/' || s[i] == ':' || s[i] == ' ' || s[i] == '?' ==> safe_name(s)[i] == '_',
        safe_name(s)[i] != '/',
{
}

/// A picture is asked for by its size where its address leaves it open, and by
/// its address alone where it does not.
pub proof fn a_picture_is_asked_for_by_its_size(
    art: Artwork,
    a: Seq<char>,
    b: Seq<char>,
    size: u32,
)
    requires
        forall|i: int| 0 <= i < a.len() ==> #[trigger] a[i] != '{',
        forall|i: int| 0 <= i < b.len() ==> #[trigger] b[i] != '{',
    ensures
        art.template@ == a ==> art.spec_url(size) == a,
        art.template@ == a + "{w}"@ + b ==> art.spec_url(size) == a + text::decimal(size as nat)
            + b,
        art.template@ == a + "{h}"@ + b ==> art.spec_url(size) == a + text::decimal(size as nat)
            + b,
        art.template@ == a + "{f}"@ + b ==> art.spec_url(size) == a + "jpg"@ + b,
{
    reveal_strlit("{w}");
    reveal_strlit("{h}");
    reveal_strlit("{f}");
    reveal_strlit("jpg");
    let n = text::decimal(size as nat);
    let w = "{w}"@;
    let h = "{h}"@;
    let f = "{f}"@;
    text::decimal_nonempty(size as nat);
    assert(forall|i: int| 0 <= i < n.len() ==> #[trigger] n[i] != '{');
    stays(a, w, n);
    stays(a, h, n);
    stays(a, f, "jpg"@);
    stays(b, w, n);
    stays(b, h, n);
    stays(b, f, "jpg"@);
    let sized = a + n + b;
    assert(forall|i: int| 0 <= i < sized.len() ==> #[trigger] sized[i] != '{');
    stays(sized, w, n);
    stays(sized, h, n);
    stays(sized, f, "jpg"@);
    filled_in(a, w, b, n);
    filled_in(a, h, b, n);
    filled_in(a, f, b, "jpg"@);
    others_stay(a, h, b, w, n);
    others_stay(a, f, b, w, n);
    others_stay(a, f, b, h, n);
}

proof fn stays(s: Seq<char>, p: Seq<char>, by: Seq<char>)
    requires
        forall|i: int| 0 <= i < s.len() ==> #[trigger] s[i] != '{',
        p.len() > 0,
        p[0] == '{',
    ensures
        text::replaced(s, p, by) == s,
{
    nowhere_braced(s, p);
    text::what_does_not_occur_is_not_replaced(s, p, by);
}

proof fn filled_in(a: Seq<char>, p: Seq<char>, b: Seq<char>, by: Seq<char>)
    requires
        forall|i: int| 0 <= i < a.len() ==> #[trigger] a[i] != '{',
        p.len() > 0,
        p[0] == '{',
    ensures
        text::replaced(a + p + b, p, by) == a + by + text::replaced(b, p, by),
{
    let s = a + p + b;
    assert forall|i: int| 0 <= i < a.len() implies !#[trigger] text::occurs_at(s, p, i) by {
        if text::occurs_at(s, p, i) {
            assert(s.subrange(i, i + p.len())[0] == s[i]);
            assert(s[i] == a[i]);
        }
    }
    text::an_occurrence_is_replaced(a, p, b, by);
}

proof fn others_stay(a: Seq<char>, q: Seq<char>, b: Seq<char>, p: Seq<char>, by: Seq<char>)
    requires
        forall|i: int| 0 <= i < a.len() ==> #[trigger] a[i] != '{',
        forall|i: int| 0 <= i < b.len() ==> #[trigger] b[i] != '{',
        p.len() == 3,
        q.len() == 3,
        p[0] == '{',
        q[1] != '{',
        q[2] != '{',
        p[1] != q[1],
    ensures
        text::replaced(a + q + b, p, by) == a + q + b,
{
    let s = a + q + b;
    assert forall|i: int| 0 <= i implies !#[trigger] text::occurs_at(s, p, i) by {
        if text::occurs_at(s, p, i) {
            let part = s.subrange(i, i + p.len());
            assert(part[0] == s[i] && part[1] == s[i + 1]);
            if i < a.len() {
                assert(s[i] == a[i]);
            } else if i < a.len() + 3 {
                assert(s[i] == q[i - a.len()]);
                assert(i == a.len());
                assert(s[i + 1] == q[1]);
            } else {
                assert(s[i] == b[i - a.len() - 3]);
            }
        }
    }
    text::what_does_not_occur_is_not_replaced(s, p, by);
}

proof fn nowhere_braced(s: Seq<char>, p: Seq<char>)
    requires
        forall|i: int| 0 <= i < s.len() ==> #[trigger] s[i] != '{',
        p.len() > 0,
        p[0] == '{',
    ensures
        forall|i: int| 0 <= i ==> !#[trigger] text::occurs_at(s, p, i),
{
    assert forall|i: int| 0 <= i implies !#[trigger] text::occurs_at(s, p, i) by {
        if text::occurs_at(s, p, i) {
            assert(s.subrange(i, i + p.len())[0] == s[i]);
        }
    }
}

} // verus!
