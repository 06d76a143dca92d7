//! The page that greets a listener: what was played, what is recommended, what
//! was added, what is popular.
use vstd::prelude::*;

use crate::catalog::{
    add_albums,
    add_playlists,
    add_songs,
    album_rows,
    at_most,
    playlist_rows,
    song_rows,
};
use crate::entry::Entry;
use crate::music::types::{Album, Playlist, Track};
use crate::page_cache::{rows_agree, same_rows};
use crate::provider::Provider;
use crate::streams;
use crate::text::{self, Rank};

verus! {

/// The form the page is kept in.
pub const VERSION: u32 = 2;

/// How many tiles a shelf made here holds.
pub const SHELF: usize = 16;

#[derive(Debug, PartialEq, Eq)]
pub struct Discover {
    pub version: u32,
    /// Which source wrote the page.
    pub provider: String,
    pub recently_played: Vec<Entry>,
    pub recommended_playlists: Vec<Entry>,
    pub recommended_songs: Vec<Track>,
    pub recently_added: Vec<Entry>,
    pub charts: Vec<Entry>,
}

impl Default for Discover {
    fn default() -> (r: Self)
        ensures
            r.version == 0,
            r.provider@.len() == 0,
            r.spec_is_empty(),
    {
        Discover {
            version: 0,
            provider: String::new(),
            recently_played: Vec::new(),
            recommended_playlists: Vec::new(),
            recommended_songs: Vec::new(),
            recently_added: Vec::new(),
            charts: Vec::new(),
        }
    }
}

impl Clone for Discover {
    fn clone(&self) -> (r: Self)
        ensures
            r.version == self.version,
            r.provider@ == self.provider@,
            r.recently_played@ == self.recently_played@,
            r.recommended_playlists@ == self.recommended_playlists@,
            r.recommended_songs@ == self.recommended_songs@,
            r.recently_added@ == self.recently_added@,
            r.charts@ == self.charts@,
    {
        let recommended_songs = self.recommended_songs.clone();
        assert(recommended_songs@ =~= self.recommended_songs@);
        Discover {
            version: self.version,
            provider: self.provider.clone(),
            recently_played: crate::entry::copy_entries(&self.recently_played),
            recommended_playlists: crate::entry::copy_entries(&self.recommended_playlists),
            recommended_songs,
            recently_added: crate::entry::copy_entries(&self.recently_added),
            charts: crate::entry::copy_entries(&self.charts),
        }
    }
}

/// Whether a row's title is nothing but its video id.
pub open spec fn is_placeholder(e: Entry) -> bool {
    streams::raw_id(e.spec_id(), e.spec_title())
}

/// Whether a song's title is nothing but its video id.
pub open spec fn is_placeholder_song(t: Track) -> bool {
    streams::raw_id(t.spec_key(), t.title@)
}

/// Whether a row's title is nothing but its video id.
pub fn entry_title_is_raw_id(entry: &Entry) -> (r: bool)
    ensures
        r == is_placeholder(*entry),
{
    streams::title_is_raw_id(entry.id(), entry.title())
}

/// The rows with a real title.
fn titled(rows: &Vec<Entry>) -> (r: Vec<Entry>)
    ensures
        r@ == rows@.filter(|e: Entry| !is_placeholder(e)),
{
    let ghost p = |e: Entry| !is_placeholder(e);
    let mut out: Vec<Entry> = Vec::new();
    let mut i: usize = 0;
    proof {
        assert(rows@.take(0) =~= Seq::<Entry>::empty());
        reveal(Seq::filter);
        assert(out@ =~= rows@.take(0).filter(p));
    }
    while i < rows.len()
        invariant
            i <= rows@.len(),
            p == (|e: Entry| !is_placeholder(e)),
            out@ == rows@.take(i as int).filter(p),
        decreases rows@.len() - i,
    {
        proof {
            text::filter_step(rows@, p, i as int);
        }
        if !entry_title_is_raw_id(&rows[i]) {
            out.push(rows[i].clone());
        }
        i += 1;
    }
    assert(rows@.take(i as int) =~= rows@);
    out
}

/// The songs with a real title.
fn titled_songs(songs: &Vec<Track>) -> (r: Vec<Track>)
    ensures
        r@ == songs@.filter(|t: Track| !is_placeholder_song(t)),
{
    let ghost p = |t: Track| !is_placeholder_song(t);
    let mut out: Vec<Track> = Vec::new();
    let mut i: usize = 0;
    proof {
        assert(songs@.take(0) =~= Seq::<Track>::empty());
        reveal(Seq::filter);
        assert(out@ =~= songs@.take(0).filter(p));
    }
    while i < songs.len()
        invariant
            i <= songs@.len(),
            p == (|t: Track| !is_placeholder_song(t)),
            out@ == songs@.take(i as int).filter(p),
        decreases songs@.len() - i,
    {
        proof {
            text::filter_step(songs@, p, i as int);
        }
        if !streams::track_title_is_placeholder(&songs[i]) {
            out.push(songs[i].clone());
        }
        i += 1;
    }
    assert(songs@.take(i as int) =~= songs@);
    out
}

/// Whether two lists of songs show the same songs under the same names.
pub open spec fn same_songs(a: Seq<Track>, b: Seq<Track>) -> bool {
    a.len() == b.len() && forall|i: int|
        0 <= i < a.len() ==> (#[trigger] a[i]).spec_key() == (#[trigger] b[i]).spec_key()
            && a[i].title@ == b[i].title@
}

fn songs_agree(a: &Vec<Track>, b: &Vec<Track>) -> (r: bool)
    ensures
        r == same_songs(a@, b@),
{
    if a.len() != b.len() {
        return false;
    }
    let mut i: usize = 0;
    while i < a.len()
        invariant
            i <= a@.len() == b@.len(),
            forall|j: int|
                0 <= j < i ==> (#[trigger] a@[j]).spec_key() == (#[trigger] b@[j]).spec_key()
                    && a@[j].title@ == b@[j].title@,
        decreases a@.len() - i,
    {
        if !text::same(a[i].key(), b[i].key()) || !text::same(
            a[i].title.as_str(),
            b[i].title.as_str(),
        ) {
            return false;
        }
        i += 1;
    }
    true
}

impl Discover {
    pub open spec fn spec_is_empty(self) -> bool {
        &&& self.recently_played@.len() == 0
        &&& self.recommended_playlists@.len() == 0
        &&& self.recommended_songs@.len() == 0
        &&& self.recently_added@.len() == 0
        &&& self.charts@.len() == 0
    }

    /// A page of these shelves, written for the chosen source; Apple Music
    /// where none is chosen.
    pub fn shelves(
        chosen: Option<Provider>,
        recently_played: Vec<Entry>,
        recommended_playlists: Vec<Entry>,
        recommended_songs: Vec<Track>,
        recently_added: Vec<Entry>,
        charts: Vec<Entry>,
    ) -> (r: Self)
        ensures
            r.version == VERSION,
            r.provider@ == chosen_word(chosen),
            r.recently_played == recently_played,
            r.recommended_playlists == recommended_playlists,
            r.recommended_songs == recommended_songs,
            r.recently_added == recently_added,
            r.charts == charts,
    {
        Discover {
            version: VERSION,
            provider: word_of(chosen),
            recently_played,
            recommended_playlists,
            recommended_songs,
            recently_added,
            charts,
        }
    }

    /// Drop the rows whose title is nothing but a video id.
    pub fn drop_placeholder_titles(&mut self)
        ensures
            final(self).has_only_titles_of(*old(self)),
            final(self).recently_played@ == old(self).recently_played@.filter(
                |e: Entry| !is_placeholder(e),
            ),
            final(self).recommended_playlists@ == old(self).recommended_playlists@.filter(
                |e: Entry| !is_placeholder(e),
            ),
            final(self).recommended_songs@ == old(self).recommended_songs@.filter(
                |t: Track| !is_placeholder_song(t),
            ),
            final(self).recently_added@ == old(self).recently_added@.filter(
                |e: Entry| !is_placeholder(e),
            ),
            final(self).charts@ == old(self).charts@.filter(|e: Entry| !is_placeholder(e)),
            final(self).version == old(self).version,
            final(self).provider == old(self).provider,
    {
        self.recently_played = titled(&self.recently_played);
        self.recommended_playlists = titled(&self.recommended_playlists);
        self.recommended_songs = titled_songs(&self.recommended_songs);
        self.recently_added = titled(&self.recently_added);
        self.charts = titled(&self.charts);
    }

    pub fn is_empty(&self) -> (r: bool)
        ensures
            r == self.spec_is_empty(),
    {
        self.recently_played.is_empty() && self.recommended_playlists.is_empty()
            && self.recommended_songs.is_empty() && self.recently_added.is_empty()
            && self.charts.is_empty()
    }

    pub open spec fn spec_same_tiles(self, other: Discover) -> bool {
        &&& self.provider@ == other.provider@
        &&& same_rows(self.recently_played@, other.recently_played@)
        &&& same_rows(self.recommended_playlists@, other.recommended_playlists@)
        &&& same_songs(self.recommended_songs@, other.recommended_songs@)
        &&& same_rows(self.recently_added@, other.recently_added@)
        &&& same_rows(self.charts@, other.charts@)
    }

    /// Whether two pages show the same tiles. Pictures may differ.
    pub fn same_tiles(&self, other: &Discover) -> (r: bool)
        ensures
            r == self.spec_same_tiles(*other),
    {
        text::same(self.provider.as_str(), other.provider.as_str()) && rows_agree(
            &self.recently_played,
            &other.recently_played,
        ) && rows_agree(&self.recommended_playlists, &other.recommended_playlists) && songs_agree(
            &self.recommended_songs,
            &other.recommended_songs,
        ) && rows_agree(&self.recently_added, &other.recently_added) && rows_agree(
            &self.charts,
            &other.charts,
        )
    }

    /// Whether `self` is `o` with its empty shelves filled from `homemade`.
    pub open spec fn has_filled(self, o: Discover, homemade: Discover) -> bool {
        &&& self.version == o.version
        &&& self.provider == o.provider
        &&& self.recently_played == filled(o.recently_played, homemade.recently_played)
        &&& self.recommended_playlists == filled(
            o.recommended_playlists,
            homemade.recommended_playlists,
        )
        &&& self.recommended_songs == filled(o.recommended_songs, homemade.recommended_songs)
        &&& self.recently_added == filled(o.recently_added, homemade.recently_added)
        &&& self.charts == filled(o.charts, homemade.charts)
    }

    /// Whether `self` is `o` without the rows whose title is nothing but a video
    /// id.
    pub open spec fn has_only_titles_of(self, o: Discover) -> bool {
        &&& self.recently_played@ == o.recently_played@.filter(|e: Entry| !is_placeholder(e))
        &&& self.recommended_playlists@ == o.recommended_playlists@.filter(
            |e: Entry| !is_placeholder(e),
        )
        &&& self.recommended_songs@ == o.recommended_songs@.filter(
            |t: Track| !is_placeholder_song(t),
        )
        &&& self.recently_added@ == o.recently_added@.filter(|e: Entry| !is_placeholder(e))
        &&& self.charts@ == o.charts@.filter(|e: Entry| !is_placeholder(e))
        &&& self.version == o.version
        &&& self.provider == o.provider
    }

    /// Whether `self` is how `o` is written to disk.
    pub open spec fn is_written(self, o: Discover, chosen: Option<Provider>) -> bool {
        &&& self.version == VERSION
        &&& self.provider@ == if o.provider@.len() == 0 {
            chosen_word(chosen)
        } else {
            o.provider@
        }
        &&& self.recently_played@ == o.recently_played@
        &&& self.recommended_playlists@ == o.recommended_playlists@
        &&& self.recommended_songs@ == o.recommended_songs@
        &&& self.recently_added@ == o.recently_added@
        &&& self.charts@ == o.charts@
    }

    /// Whether `self` is the page to open on where `o` was kept.
    pub open spec fn is_opened(self, o: Discover, chosen: Option<Provider>) -> bool {
        if o.version == VERSION && fits(o, chosen) {
            self.has_only_titles_of(o)
        } else {
            self.spec_is_empty() && self.version == 0 && self.provider@.len() == 0
        }
    }

    /// Fill the shelves that are empty, and only those.
    pub fn fill_gaps(&mut self, homemade: Discover)
        ensures
            final(self).has_filled(*old(self), homemade),
            final(self).version == old(self).version,
            final(self).provider == old(self).provider,
            final(self).recently_played == filled(
                old(self).recently_played,
                homemade.recently_played,
            ),
            final(self).recommended_playlists == filled(
                old(self).recommended_playlists,
                homemade.recommended_playlists,
            ),
            final(self).recommended_songs == filled(
                old(self).recommended_songs,
                homemade.recommended_songs,
            ),
            final(self).recently_added == filled(old(self).recently_added, homemade.recently_added),
            final(self).charts == filled(old(self).charts, homemade.charts),
    {
        if self.recently_played.is_empty() {
            self.recently_played = homemade.recently_played;
        }
        if self.recommended_playlists.is_empty() {
            self.recommended_playlists = homemade.recommended_playlists;
        }
        if self.recommended_songs.is_empty() {
            self.recommended_songs = homemade.recommended_songs;
        }
        if self.recently_added.is_empty() {
            self.recently_added = homemade.recently_added;
        }
        if self.charts.is_empty() {
            self.charts = homemade.charts;
        }
    }

    /// The page as it is written to disk, stamped with its form and, where it
    /// names none, with the chosen source. An empty page is not written.
    pub fn to_write(&self, chosen: Option<Provider>) -> (r: Option<Discover>)
        ensures
            r matches Some(w) ==> w.is_written(*self, chosen),
            match r {
                None => self.spec_is_empty(),
                Some(w) => {
                    &&& !self.spec_is_empty()
                    &&& w.version == VERSION
                    &&& w.provider@ == if self.provider@.len() == 0 {
                        chosen_word(chosen)
                    } else {
                        self.provider@
                    }
                    &&& w.recently_played@ == self.recently_played@
                    &&& w.recommended_playlists@ == self.recommended_playlists@
                    &&& w.recommended_songs@ == self.recommended_songs@
                    &&& w.recently_added@ == self.recently_added@
                    &&& w.charts@ == self.charts@
                },
            },
    {
        if self.is_empty() {
            return None;
        }
        let mut writing = self.clone();
        writing.version = VERSION;
        if writing.provider.as_str().is_empty() {
            writing.provider = word_of(chosen);
        }
        Some(writing)
    }

    /// The page to open on, of the one that was read: nothing of it if it was
    /// kept in another form or belongs to another source.
    pub fn accept(self, chosen: Option<Provider>) -> (r: Discover)
        ensures
            r.is_opened(self, chosen),
            if self.version == VERSION && fits(self, chosen) {
                &&& r.version == self.version
                &&& r.provider == self.provider
                &&& r.recently_played@ == self.recently_played@.filter(
                    |e: Entry| !is_placeholder(e),
                )
                &&& r.recommended_playlists@ == self.recommended_playlists@.filter(
                    |e: Entry| !is_placeholder(e),
                )
                &&& r.recommended_songs@ == self.recommended_songs@.filter(
                    |t: Track| !is_placeholder_song(t),
                )
                &&& r.recently_added@ == self.recently_added@.filter(
                    |e: Entry| !is_placeholder(e),
                )
                &&& r.charts@ == self.charts@.filter(|e: Entry| !is_placeholder(e))
            } else {
                r.spec_is_empty() && r.version == 0 && r.provider@.len() == 0
            },
    {
        if self.version == VERSION && fits_current_source(&self, chosen) {
            let mut page = self;
            page.drop_placeholder_titles();
            page
        } else {
            Discover::default()
        }
    }
}

/// A shelf, or what stands in for it while it is empty.
pub open spec fn filled<A>(shelf: Vec<A>, instead: Vec<A>) -> Vec<A> {
    if shelf@.len() == 0 {
        instead
    } else {
        shelf
    }
}

/// The word for the chosen source; Apple Music's where none is chosen.
pub open spec fn chosen_word(chosen: Option<Provider>) -> Seq<char> {
    match chosen {
        Some(p) => p.spec_str(),
        None => Provider::AppleMusic.spec_str(),
    }
}

fn word_of(chosen: Option<Provider>) -> (r: String)
    ensures
        r@ == chosen_word(chosen),
{
    match chosen {
        Some(p) => p.as_str().to_owned(),
        None => Provider::AppleMusic.as_str().to_owned(),
    }
}

/// The catalogue an id belongs to, if it is none of Apple Music's.
pub open spec fn stem_of_id(id: Seq<char>) -> Option<Provider> {
    if "sp:"@.is_prefix_of(id) {
        Some(Provider::Spotify)
    } else if "yt:"@.is_prefix_of(id) {
        Some(Provider::YoutubeMusic)
    } else if "td:"@.is_prefix_of(id) {
        Some(Provider::Tidal)
    } else {
        None
    }
}

fn stem_for(id: &str) -> (r: Option<Provider>)
    ensures
        r == stem_of_id(id@),
{
    if text::starts_with(id, "sp:") {
        Some(Provider::Spotify)
    } else if text::starts_with(id, "yt:") {
        Some(Provider::YoutubeMusic)
    } else if text::starts_with(id, "td:") {
        Some(Provider::Tidal)
    } else {
        None
    }
}

/// The ids on a page, in the order they are looked at: the rows of the four
/// shelves of tiles, then the songs.
pub open spec fn page_ids(d: Discover) -> Seq<Seq<char>> {
    let ids = |s: Seq<Entry>| s.map_values(|e: Entry| e.spec_id());
    ids(d.recently_played@) + ids(d.recommended_playlists@) + ids(d.recently_added@) + ids(
        d.charts@,
    ) + d.recommended_songs@.map_values(|t: Track| t.spec_key())
}

/// The catalogue of the first id that belongs to one.
pub open spec fn first_stem(ids: Seq<Seq<char>>) -> Option<Provider>
    decreases ids.len(),
{
    if ids.len() == 0 {
        None
    } else {
        match first_stem(ids.drop_last()) {
            Some(p) => Some(p),
            None => stem_of_id(ids.last()),
        }
    }
}

proof fn first_stem_of_sum(a: Seq<Seq<char>>, b: Seq<Seq<char>>)
    ensures
        first_stem(a + b) == match first_stem(a) {
            Some(p) => Some(p),
            None => first_stem(b),
        },
    decreases b.len(),
{
    if b.len() == 0 {
        assert(a + b =~= a);
    } else {
        first_stem_of_sum(a, b.drop_last());
        assert((a + b).drop_last() =~= a + b.drop_last());
    }
}

fn stem_of_rows(rows: &Vec<Entry>) -> (r: Option<Provider>)
    ensures
        r == first_stem(rows@.map_values(|e: Entry| e.spec_id())),
{
    let ghost ids = rows@.map_values(|e: Entry| e.spec_id());
    let mut i: usize = 0;
    while i < rows.len()
        invariant
            i <= rows@.len(),
            ids == rows@.map_values(|e: Entry| e.spec_id()),
            first_stem(ids.take(i as int)) is None,
        decreases rows@.len() - i,
    {
        proof {
            text::take_step(ids, i as int);
            assert(ids.take(i + 1).drop_last() =~= ids.take(i as int));
        }
        let here = stem_for(rows[i].id());
        if here.is_some() {
            proof {
                first_stem_of_sum(ids.take(i + 1), ids.skip(i + 1));
                assert(ids.take(i + 1) + ids.skip(i + 1) =~= ids);
            }
            return here;
        }
        i += 1;
    }
    assert(ids.take(i as int) =~= ids);
    None
}

fn stem_of_songs(songs: &Vec<Track>) -> (r: Option<Provider>)
    ensures
        r == first_stem(songs@.map_values(|t: Track| t.spec_key())),
{
    let ghost ids = songs@.map_values(|t: Track| t.spec_key());
    let mut i: usize = 0;
    while i < songs.len()
        invariant
            i <= songs@.len(),
            ids == songs@.map_values(|t: Track| t.spec_key()),
            first_stem(ids.take(i as int)) is None,
        decreases songs@.len() - i,
    {
        proof {
            text::take_step(ids, i as int);
            assert(ids.take(i + 1).drop_last() =~= ids.take(i as int));
        }
        let here = stem_for(songs[i].key());
        if here.is_some() {
            proof {
                first_stem_of_sum(ids.take(i + 1), ids.skip(i + 1));
                assert(ids.take(i + 1) + ids.skip(i + 1) =~= ids);
            }
            return here;
        }
        i += 1;
    }
    assert(ids.take(i as int) =~= ids);
    None
}

/// Which catalogue a page shows, by its ids, if it is none of Apple Music's.
pub fn infer_discover_stem(cache: &Discover) -> (r: Option<Provider>)
    ensures
        r == first_stem(page_ids(*cache)),
{
    let a = stem_of_rows(&cache.recently_played);
    let b = stem_of_rows(&cache.recommended_playlists);
    let c = stem_of_rows(&cache.recently_added);
    let d = stem_of_rows(&cache.charts);
    let e = stem_of_songs(&cache.recommended_songs);
    proof {
        let ids = |s: Seq<Entry>| s.map_values(|e: Entry| e.spec_id());
        let w = ids(cache.recently_played@);
        let x = ids(cache.recommended_playlists@);
        let y = ids(cache.recently_added@);
        let z = ids(cache.charts@);
        let s = cache.recommended_songs@.map_values(|t: Track| t.spec_key());
        first_stem_of_sum(w, x);
        first_stem_of_sum(w + x, y);
        first_stem_of_sum(w + x + y, z);
        first_stem_of_sum(w + x + y + z, s);
    }
    if a.is_some() {
        a
    } else if b.is_some() {
        b
    } else if c.is_some() {
        c
    } else if d.is_some() {
        d
    } else {
        e
    }
}

/// Whether a kept page belongs to the chosen source, by its stamp and its ids.
pub open spec fn fits(cache: Discover, chosen: Option<Provider>) -> bool {
    let current = match chosen {
        Some(p) => p,
        None => Provider::AppleMusic,
    };
    let stamped = Provider::spec_parse(cache.provider@);
    let foreign = first_stem(page_ids(cache)) is Some;
    match current {
        Provider::AppleMusic => (stamped is None || stamped == Some(Provider::AppleMusic))
            && !foreign,
        Provider::Local => false,
        other => stamped == Some(other) || (stamped is None && foreign),
    }
}

/// Whether a kept page belongs to the chosen source.
pub fn fits_current_source(cache: &Discover, chosen: Option<Provider>) -> (r: bool)
    ensures
        r == fits(*cache, chosen),
{
    let current = match chosen {
        Some(p) => p,
        None => Provider::AppleMusic,
    };
    let stamped = Provider::parse(cache.provider.as_str());
    let foreign = infer_discover_stem(cache).is_some();
    match current {
        Provider::AppleMusic => match stamped {
            None => !foreign,
            Some(p) => p == Provider::AppleMusic && !foreign,
        },
        Provider::Local => false,
        other => match stamped {
            Some(p) => p == other,
            None => foreign,
        },
    }
}

/// The source that a page from before sources had their own files belongs to,
/// if it has to be moved: by its stamp, else by its ids. An empty page stays.
pub fn rescue_stem(cache: &Discover) -> (r: Option<&'static str>)
    ensures
        ({
            let stamped = match Provider::spec_parse(cache.provider@) {
                Some(p) => p.spec_cache_stem(),
                None => None,
            };
            let inferred = match first_stem(page_ids(*cache)) {
                Some(p) => Some(p.spec_str()),
                None => None,
            };
            let want = if cache.spec_is_empty() {
                None
            } else if stamped is Some {
                stamped
            } else {
                inferred
            };
            match r {
                Some(s) => want == Some(s@),
                None => want is None,
            }
        }),
{
    if cache.is_empty() {
        return None;
    }
    let stamped = match Provider::parse(cache.provider.as_str()) {
        Some(p) => p.cache_stem(),
        None => None,
    };
    if stamped.is_some() {
        return stamped;
    }
    match infer_discover_stem(cache) {
        Some(p) => Some(p.as_str()),
        None => None,
    }
}

/// When a row was added.
pub open spec fn added_on(e: Entry) -> Seq<char> {
    match e {
        Entry::Album(a) => a.date_added@,
        Entry::Playlist(p) => p.date_added@,
        Entry::Song(t) => t.date_added@,
        Entry::Artist(_) => Seq::empty(),
    }
}

/// When a row was added.
pub fn date_of(entry: &Entry) -> (r: &str)
    ensures
        r@ == added_on(*entry),
{
    match entry {
        Entry::Album(a) => a.date_added.as_str(),
        Entry::Playlist(p) => p.date_added.as_str(),
        Entry::Song(t) => t.date_added.as_str(),
        Entry::Artist(_) => {
            proof {
                reveal_strlit("");
            }
            assert(""@ =~= Seq::<char>::empty());
            ""
        },
    }
}

/// Rows newest first with one more put in: behind every row that is not older.
pub open spec fn put_in(rows: Seq<Entry>, e: Entry) -> Seq<Entry>
    decreases rows.len(),
{
    if rows.len() > 0 && text::rank_of(added_on(rows.last()), added_on(e)) is Before {
        put_in(rows.drop_last(), e).push(rows.last())
    } else {
        rows.push(e)
    }
}

/// Rows newest first; rows of one date stay in order.
pub open spec fn newest_first(rows: Seq<Entry>) -> Seq<Entry>
    decreases rows.len(),
{
    if rows.len() == 0 {
        rows
    } else {
        put_in(newest_first(rows.drop_last()), rows.last())
    }
}

/// The rows of one date.
pub open spec fn of_date(rows: Seq<Entry>, date: Seq<char>) -> Seq<Entry> {
    rows.filter(|e: Entry| added_on(e) == date)
}

proof fn put_in_is_insert(rows: Seq<Entry>, e: Entry, k: int)
    requires
        0 <= k <= rows.len(),
        forall|j: int|
            k <= j < rows.len() ==> text::rank_of(
                added_on(#[trigger] rows[j]),
                added_on(e),
            ) is Before,
        k > 0 ==> !(text::rank_of(added_on(rows[k - 1]), added_on(e)) is Before),
    ensures
        put_in(rows, e) == rows.insert(k, e),
    decreases rows.len(),
{
    if k < rows.len() {
        put_in_is_insert(rows.drop_last(), e, k);
        assert(rows.drop_last().insert(k, e).push(rows.last()) =~= rows.insert(k, e));
    } else {
        assert(rows.push(e) =~= rows.insert(k, e));
    }
}

/// Rows newest first; rows of one date stay in order.
fn sort_by_date(rows: &Vec<Entry>) -> (r: Vec<Entry>)
    ensures
        r@ == newest_first(rows@),
{
    let mut out: Vec<Entry> = Vec::new();
    let mut i: usize = 0;
    assert(rows@.take(0) =~= out@);
    while i < rows.len()
        invariant
            i <= rows@.len(),
            out@.len() == i,
            out@ == newest_first(rows@.take(i as int)),
        decreases rows@.len() - i,
    {
        proof {
            text::take_step(rows@, i as int);
            assert(rows@.take(i + 1).drop_last() =~= rows@.take(i as int));
        }
        let mut k: usize = out.len();
        while k > 0 && matches!(
            text::rank(date_of(&out[k - 1]), date_of(&rows[i])),
            Rank::Before
        )
            invariant
                i < rows@.len(),
                k <= out@.len() == i,
                forall|j: int|
                    k <= j < out@.len() ==> text::rank_of(
                        added_on(#[trigger] out@[j]),
                        added_on(rows@[i as int]),
                    ) is Before,
            decreases k,
        {
            k -= 1;
        }
        proof {
            put_in_is_insert(out@, rows@[i as int], k as int);
        }
        out.insert(k, rows[i].clone());
        i += 1;
    }
    assert(rows@.take(i as int) =~= rows@);
    out
}

/// Sorting by date loses and invents nothing, puts the newest first, and keeps
/// the rows of one date in order.
pub proof fn newest_first_is_a_stable_sort(rows: Seq<Entry>)
    ensures
        newest_first(rows).to_multiset() == rows.to_multiset(),
        forall|i: int, j: int|
            0 <= i < j < newest_first(rows).len() ==> !(text::rank_of(
                added_on(#[trigger] newest_first(rows)[i]),
                added_on(#[trigger] newest_first(rows)[j]),
            ) is Before),
        forall|date: Seq<char>| #[trigger]
            of_date(newest_first(rows), date) == of_date(rows, date),
    decreases rows.len(),
{
    if rows.len() > 0 {
        let rest = rows.drop_last();
        let e = rows.last();
        newest_first_is_a_stable_sort(rest);
        let before = newest_first(rest);
        put_in_sorted(before, e);
        assert(rows =~= rest.push(e));
        vstd::seq_lib::to_multiset_build(rest, e);
        assert forall|date: Seq<char>| #[trigger]
            of_date(newest_first(rows), date) == of_date(rows, date) by {
            let p = |e: Entry| added_on(e) == date;
            put_in_filtered(before, e, date);
            rest.lemma_filter_push(e, p);
            before.lemma_filter_push(e, p);
            assert(of_date(before, date) == of_date(rest, date));
        }
    } else {
        assert(newest_first(rows) =~= rows);
    }
}

proof fn put_in_sorted(rows: Seq<Entry>, e: Entry)
    requires
        forall|i: int, j: int|
            0 <= i < j < rows.len() ==> !(text::rank_of(
                added_on(#[trigger] rows[i]),
                added_on(#[trigger] rows[j]),
            ) is Before),
    ensures
        put_in(rows, e).len() == rows.len() + 1,
        put_in(rows, e).to_multiset() == rows.to_multiset().insert(e),
        forall|i: int, j: int|
            0 <= i < j < put_in(rows, e).len() ==> !(text::rank_of(
                added_on(#[trigger] put_in(rows, e)[i]),
                added_on(#[trigger] put_in(rows, e)[j]),
            ) is Before),
        forall|i: int|
            0 <= i < put_in(rows, e).len() ==> #[trigger] put_in(rows, e)[i] == e || rows.contains(
                put_in(rows, e)[i],
            ),
    decreases rows.len(),
{
    let out = put_in(rows, e);
    if rows.len() > 0 && text::rank_of(added_on(rows.last()), added_on(e)) is Before {
        let rest = rows.drop_last();
        assert forall|i: int, j: int| 0 <= i < j < rest.len() implies !(text::rank_of(
            added_on(#[trigger] rest[i]),
            added_on(#[trigger] rest[j]),
        ) is Before) by {
            assert(rest[i] == rows[i] && rest[j] == rows[j]);
        }
        put_in_sorted(rest, e);
        let inner = put_in(rest, e);
        vstd::seq_lib::to_multiset_build(inner, rows.last());
        vstd::seq_lib::to_multiset_build(rest, rows.last());
        assert(rows =~= rest.push(rows.last()));
        assert(out.to_multiset() =~= rows.to_multiset().insert(e));
        assert forall|i: int| 0 <= i < out.len() implies #[trigger] out[i] == e || rows.contains(
            out[i],
        ) by {
            if i < inner.len() {
                assert(out[i] == inner[i]);
                if inner[i] != e {
                    let k = choose|k: int| 0 <= k < rest.len() && rest[k] == inner[i];
                    assert(rows[k] == out[i]);
                }
            } else {
                assert(rows[rows.len() - 1] == out[i]);
            }
        }
        assert forall|i: int, j: int| 0 <= i < j < out.len() implies !(text::rank_of(
            added_on(#[trigger] out[i]),
            added_on(#[trigger] out[j]),
        ) is Before) by {
            assert(out[i] == inner[i]);
            if j < inner.len() {
                assert(out[j] == inner[j]);
            } else {
                assert(out[j] == rows.last());
                if inner[i] == e {
                    text::rank_is_antisymmetric(added_on(rows.last()), added_on(e));
                } else {
                    let k = choose|k: int| 0 <= k < rest.len() && rest[k] == inner[i];
                    assert(rows[k] == rest[k]);
                    assert(rows[rows.len() - 1] == rows.last());
                }
            }
        }
    } else {
        vstd::seq_lib::to_multiset_build(rows, e);
        assert forall|i: int| 0 <= i < out.len() implies #[trigger] out[i] == e || rows.contains(
            out[i],
        ) by {
            if i < rows.len() {
                assert(rows[i] == out[i]);
            }
        }
        assert forall|i: int, j: int| 0 <= i < j < out.len() implies !(text::rank_of(
            added_on(#[trigger] out[i]),
            added_on(#[trigger] out[j]),
        ) is Before) by {
            assert(out[i] == rows[i]);
            if j < rows.len() {
                assert(out[j] == rows[j]);
            } else {
                // The last row is not older than `e`, and no earlier row is
                // older than the last.
                let d = added_on(rows[i]);
                let l = added_on(rows.last());
                text::rank_is_antisymmetric(d, l);
                text::rank_is_antisymmetric(l, added_on(e));
                text::rank_is_antisymmetric(d, added_on(e));
                if i < rows.len() - 1 {
                    assert(!(text::rank_of(
                        added_on(rows[i]),
                        added_on(rows[rows.len() - 1]),
                    ) is Before));
                    text::rank_is_transitive(added_on(e), l, d);
                }
            }
        }
    }
}

proof fn put_in_filtered(rows: Seq<Entry>, e: Entry, date: Seq<char>)
    ensures
        of_date(put_in(rows, e), date) == of_date(rows.push(e), date),
    decreases rows.len(),
{
    let p = |e: Entry| added_on(e) == date;
    if rows.len() > 0 && text::rank_of(added_on(rows.last()), added_on(e)) is Before {
        let rest = rows.drop_last();
        let last = rows.last();
        put_in_filtered(rest, e, date);
        text::rank_is_antisymmetric(added_on(last), added_on(e));
        put_in(rest, e).lemma_filter_push(last, p);
        rest.lemma_filter_push(e, p);
        rest.lemma_filter_push(last, p);
        assert(rows =~= rest.push(last));
        rows.lemma_filter_push(e, p);
    }
}

/// The rows of a library that carry a date, albums first.
pub open spec fn dated_rows(albums: Seq<Album>, playlists: Seq<Playlist>) -> Seq<Entry> {
    album_rows(albums.filter(|a: Album| a.date_added@.len() > 0)) + playlist_rows(
        playlists.filter(|p: Playlist| p.date_added@.len() > 0),
    )
}

/// What the library says was added lately: its dated rows, newest first; where
/// there are none, its playlists and then its albums.
pub open spec fn lately_added(albums: Seq<Album>, playlists: Seq<Playlist>) -> Seq<Entry> {
    let dated = at_most(newest_first(dated_rows(albums, playlists)), SHELF as int);
    if dated.len() > 0 {
        dated
    } else {
        at_most(playlist_rows(playlists) + album_rows(albums), SHELF as int)
    }
}

/// The songs to recommend from a library: its favourites; where it has none,
/// its first songs.
pub open spec fn liked_songs(songs: Seq<Track>) -> Seq<Track> {
    let starred = songs.filter(|t: Track| t.favorite);
    if starred.len() > 0 {
        at_most(starred, SHELF as int)
    } else {
        at_most(songs, SHELF as int)
    }
}

fn dated_albums(albums: &Vec<Album>) -> (r: Vec<Album>)
    ensures
        r@ == albums@.filter(|a: Album| a.date_added@.len() > 0),
{
    let ghost p = |a: Album| a.date_added@.len() > 0;
    let mut out: Vec<Album> = Vec::new();
    let mut i: usize = 0;
    proof {
        assert(albums@.take(0) =~= Seq::<Album>::empty());
        reveal(Seq::filter);
        assert(out@ =~= albums@.take(0).filter(p));
    }
    while i < albums.len()
        invariant
            i <= albums@.len(),
            p == (|a: Album| a.date_added@.len() > 0),
            out@ == albums@.take(i as int).filter(p),
        decreases albums@.len() - i,
    {
        proof {
            text::filter_step(albums@, p, i as int);
        }
        if !albums[i].date_added.as_str().is_empty() {
            out.push(albums[i].clone());
        }
        i += 1;
    }
    assert(albums@.take(i as int) =~= albums@);
    out
}

fn dated_playlists(playlists: &Vec<Playlist>) -> (r: Vec<Playlist>)
    ensures
        r@ == playlists@.filter(|p: Playlist| p.date_added@.len() > 0),
{
    let ghost p = |p: Playlist| p.date_added@.len() > 0;
    let mut out: Vec<Playlist> = Vec::new();
    let mut i: usize = 0;
    proof {
        assert(playlists@.take(0) =~= Seq::<Playlist>::empty());
        reveal(Seq::filter);
        assert(out@ =~= playlists@.take(0).filter(p));
    }
    while i < playlists.len()
        invariant
            i <= playlists@.len(),
            p == (|p: Playlist| p.date_added@.len() > 0),
            out@ == playlists@.take(i as int).filter(p),
        decreases playlists@.len() - i,
    {
        proof {
            text::filter_step(playlists@, p, i as int);
        }
        if !playlists[i].date_added.as_str().is_empty() {
            out.push(playlists[i].clone());
        }
        i += 1;
    }
    assert(playlists@.take(i as int) =~= playlists@);
    out
}

fn favourites(songs: &Vec<Track>) -> (r: Vec<Track>)
    ensures
        r@ == songs@.filter(|t: Track| t.favorite),
{
    let ghost p = |t: Track| t.favorite;
    let mut out: Vec<Track> = Vec::new();
    let mut i: usize = 0;
    proof {
        assert(songs@.take(0) =~= Seq::<Track>::empty());
        reveal(Seq::filter);
        assert(out@ =~= songs@.take(0).filter(p));
    }
    while i < songs.len()
        invariant
            i <= songs@.len(),
            p == (|t: Track| t.favorite),
            out@ == songs@.take(i as int).filter(p),
        decreases songs@.len() - i,
    {
        proof {
            text::filter_step(songs@, p, i as int);
        }
        if songs[i].favorite {
            out.push(songs[i].clone());
        }
        i += 1;
    }
    assert(songs@.take(i as int) =~= songs@);
    out
}

fn first_songs(songs: &Vec<Track>, n: usize) -> (r: Vec<Track>)
    ensures
        r@ == at_most(songs@, n as int),
{
    let mut out: Vec<Track> = Vec::new();
    let mut i: usize = 0;
    while i < songs.len() && i < n
        invariant
            i <= songs@.len(),
            i <= n,
            out@ =~= songs@.take(i as int),
        decreases songs@.len() - i,
    {
        out.push(songs[i].clone());
        i += 1;
    }
    assert(out@ =~= at_most(songs@, n as int));
    out
}

/// Whether a page is made of a library and of what was played here.
pub open spec fn is_homemade(
    r: Discover,
    chosen: Option<Provider>,
    songs: Seq<Track>,
    albums: Seq<Album>,
    playlists: Seq<Playlist>,
    history: Seq<Track>,
) -> bool {
    &&& r.version == VERSION
    &&& r.provider@ == chosen_word(chosen)
    &&& r.recently_played@ == song_rows(at_most(history, SHELF as int))
    &&& r.recommended_playlists@.len() == 0
    &&& r.recommended_songs@ == liked_songs(songs)
    &&& r.recently_added@ == lately_added(albums, playlists)
    &&& r.charts@.len() == 0
}

/// What can be shown without asking anybody: what was played here, what was
/// added, and songs the listener likes. It recommends no playlists and knows
/// no charts: passing the library off as either would be a lie.
pub fn homemade(
    chosen: Option<Provider>,
    songs: &Vec<Track>,
    albums: &Vec<Album>,
    playlists: &Vec<Playlist>,
    history: &Vec<Track>,
) -> (r: Discover)
    ensures
        is_homemade(r, chosen, songs@, albums@, playlists@, history@),
        r.version == VERSION,
        r.provider@ == chosen_word(chosen),
        r.recently_played@ == song_rows(at_most(history@, SHELF as int)),
        r.recommended_playlists@.len() == 0,
        r.recommended_songs@ == liked_songs(songs@),
        r.recently_added@ == lately_added(albums@, playlists@),
        r.charts@.len() == 0,
{
    let mut dated: Vec<Entry> = Vec::new();
    let some_albums = dated_albums(albums);
    let some_playlists = dated_playlists(playlists);
    add_albums(&mut dated, &some_albums, some_albums.len());
    add_playlists(&mut dated, &some_playlists, some_playlists.len());
    assert(dated@ =~= dated_rows(albums@, playlists@));
    let mut recently_added = sort_by_date(&dated);
    if recently_added.len() > SHELF {
        recently_added.truncate(SHELF);
    }
    if recently_added.is_empty() {
        recently_added = Vec::new();
        add_playlists(&mut recently_added, playlists, SHELF);
        let room: usize = SHELF - recently_added.len();
        add_albums(&mut recently_added, albums, room);
        assert(recently_added@ =~= at_most(
            playlist_rows(playlists@) + album_rows(albums@),
            SHELF as int,
        ));
    }
    let starred = favourites(songs);
    let recommended_songs = if starred.is_empty() {
        first_songs(songs, SHELF)
    } else {
        first_songs(&starred, SHELF)
    };
    let mut recently_played: Vec<Entry> = Vec::new();
    add_songs(&mut recently_played, history, SHELF);
    assert(recently_played@ =~= song_rows(at_most(history@, SHELF as int)));
    Discover::shelves(
        chosen,
        recently_played,
        Vec::new(),
        recommended_songs,
        recently_added,
        Vec::new(),
    )
}

/// Whether two pages show the same tiles depends on ids and titles alone: a
/// page always shows the tiles it shows.
pub proof fn a_page_shows_its_own_tiles(d: Discover)
    ensures
        d.spec_same_tiles(d),
{
}

/// A shelf that holds something is never replaced.
pub proof fn a_full_shelf_stays<A>(shelf: Vec<A>, instead: Vec<A>)
    requires
        shelf@.len() > 0,
    ensures
        filled(shelf, instead) == shelf,
{
}

proof fn kept_by_filter<A>(s: Seq<A>, p: spec_fn(A) -> bool, x: A)
    ensures
        s.filter(p).contains(x) <==> s.contains(x) && p(x),
    decreases s.len(),
{
    reveal(Seq::filter);
    if s.len() > 0 {
        let rest = s.drop_last();
        kept_by_filter(rest, p, x);
        let f = rest.filter(p);
        if s.contains(x) {
            let k = choose|k: int| 0 <= k < s.len() && s[k] == x;
            if k < rest.len() {
                assert(rest[k] == x);
            }
        }
        if rest.contains(x) {
            let k = choose|k: int| 0 <= k < rest.len() && rest[k] == x;
            assert(s[k] == x);
        }
        if p(s.last()) {
            let g = f.push(s.last());
            assert(s.filter(p) == g);
            if f.contains(x) {
                let k = choose|k: int| 0 <= k < f.len() && f[k] == x;
                assert(g[k] == x);
            }
            if g.contains(x) {
                let k = choose|k: int| 0 <= k < g.len() && g[k] == x;
                if k < f.len() {
                    assert(f[k] == x);
                } else {
                    assert(s[s.len() - 1] == x);
                }
            }
            if x == s.last() {
                assert(g[g.len() - 1] == x);
                assert(s[s.len() - 1] == x);
            }
        }
    }
}

/// Whether a row is a dated album or playlist of the library.
pub open spec fn is_dated_row(e: Entry, albums: Seq<Album>, playlists: Seq<Playlist>) -> bool {
    match e {
        Entry::Album(a) => albums.contains(a) && a.date_added@.len() > 0,
        Entry::Playlist(p) => playlists.contains(p) && p.date_added@.len() > 0,
        _ => false,
    }
}

proof fn dated_rows_are_those(albums: Seq<Album>, playlists: Seq<Playlist>, e: Entry)
    ensures
        dated_rows(albums, playlists).contains(e) <==> is_dated_row(e, albums, playlists),
{
    let fa = albums.filter(|a: Album| a.date_added@.len() > 0);
    let fp = playlists.filter(|p: Playlist| p.date_added@.len() > 0);
    let all = dated_rows(albums, playlists);
    if all.contains(e) {
        let k = choose|k: int| 0 <= k < all.len() && all[k] == e;
        if k < fa.len() {
            assert(fa[k] == e->Album_0);
            kept_by_filter(albums, |a: Album| a.date_added@.len() > 0, fa[k]);
        } else {
            assert(fp[k - fa.len()] == e->Playlist_0);
            kept_by_filter(playlists, |p: Playlist| p.date_added@.len() > 0, fp[k - fa.len()]);
        }
    }
    if is_dated_row(e, albums, playlists) {
        match e {
            Entry::Album(a) => {
                kept_by_filter(albums, |a: Album| a.date_added@.len() > 0, a);
                let k = choose|k: int| 0 <= k < fa.len() && fa[k] == a;
                assert(all[k] == e);
            },
            Entry::Playlist(p) => {
                kept_by_filter(playlists, |p: Playlist| p.date_added@.len() > 0, p);
                let k = choose|k: int| 0 <= k < fp.len() && fp[k] == p;
                assert(all[fa.len() + k] == e);
            },
            _ => {},
        }
    }
}

/// When an album or a playlist was added.
pub open spec fn row_date(e: Entry) -> Seq<char> {
    match e {
        Entry::Album(a) => a.date_added@,
        Entry::Playlist(p) => p.date_added@,
        _ => Seq::empty(),
    }
}

/// What was added last is shown: no dated album or playlist of the library that
/// is left off the shelf is newer than one that is on it, none is left off while
/// the shelf of sixteen has room, the shelf goes from the newest to the oldest,
/// and while anything is dated it holds nothing else.
pub proof fn the_newest_are_on_the_shelf(
    r: Discover,
    chosen: Option<Provider>,
    songs: Seq<Track>,
    albums: Seq<Album>,
    playlists: Seq<Playlist>,
    history: Seq<Track>,
    row: Entry,
)
    requires
        is_homemade(r, chosen, songs, albums, playlists, history),
        is_dated_row(row, albums, playlists),
    ensures
        ({
            let shelf = r.recently_added@;
            &&& 0 < shelf.len() <= 16
            &&& shelf.contains(row) || (shelf.len() == 16 && forall|i: int|
                0 <= i < shelf.len() ==> !(text::rank_of(
                    row_date(#[trigger] shelf[i]),
                    row_date(row),
                ) is Before))
            &&& !(text::rank_of(row_date(shelf[0]), row_date(row)) is Before)
            &&& forall|i: int, j: int|
                0 <= i < j < shelf.len() ==> !(text::rank_of(
                    row_date(#[trigger] shelf[i]),
                    row_date(#[trigger] shelf[j]),
                ) is Before)
            &&& forall|i: int|
                0 <= i < shelf.len() ==> is_dated_row(#[trigger] shelf[i], albums, playlists)
        }),
{
    broadcast use vstd::seq_lib::group_to_multiset_ensures;

    let all = dated_rows(albums, playlists);
    let done = newest_first(all);
    let shelf = r.recently_added@;
    newest_first_is_a_stable_sort(all);
    dated_rows_are_those(albums, playlists, row);
    assert(done.to_multiset().count(row) == all.to_multiset().count(row));
    assert(done.contains(row));
    let at = choose|at: int| 0 <= at < done.len() && done[at] == row;
    assert(shelf == at_most(done, 16));
    assert forall|i: int| 0 <= i < shelf.len() implies is_dated_row(
        #[trigger] shelf[i],
        albums,
        playlists,
    ) by {
        assert(done[i] == shelf[i]);
        assert(done.contains(shelf[i]));
        assert(done.to_multiset().count(shelf[i]) == all.to_multiset().count(shelf[i]));
        dated_rows_are_those(albums, playlists, shelf[i]);
    }
    assert forall|i: int, j: int| 0 <= i < j < shelf.len() implies !(text::rank_of(
        row_date(#[trigger] shelf[i]),
        row_date(#[trigger] shelf[j]),
    ) is Before) by {
        assert(done[i] == shelf[i] && done[j] == shelf[j]);
        assert(is_dated_row(shelf[i], albums, playlists));
        assert(is_dated_row(shelf[j], albums, playlists));
    }
    if at < shelf.len() {
        assert(shelf[at] == row);
        if at == 0 {
            text::rank_is_antisymmetric(row_date(row), row_date(row));
        } else {
            assert(!(text::rank_of(row_date(shelf[0]), row_date(shelf[at])) is Before));
        }
    } else {
        assert forall|i: int| 0 <= i < shelf.len() implies !(text::rank_of(
            row_date(#[trigger] shelf[i]),
            row_date(row),
        ) is Before) by {
            assert(done[i] == shelf[i]);
            assert(is_dated_row(shelf[i], albums, playlists));
            assert(!(text::rank_of(added_on(done[i]), added_on(done[at])) is Before));
        }
    }
}

/// Where nothing of the library is dated, its playlists are shown and behind
/// them its albums, in their order, sixteen at most.
pub proof fn an_undated_library_is_shown_in_its_order(
    r: Discover,
    chosen: Option<Provider>,
    songs: Seq<Track>,
    albums: Seq<Album>,
    playlists: Seq<Playlist>,
    history: Seq<Track>,
)
    requires
        is_homemade(r, chosen, songs, albums, playlists, history),
        forall|i: int| 0 <= i < albums.len() ==> (#[trigger] albums[i]).date_added@.len() == 0,
        forall|i: int|
            0 <= i < playlists.len() ==> (#[trigger] playlists[i]).date_added@.len() == 0,
    ensures
        ({
            let shelf = r.recently_added@;
            let all = playlists.len() + albums.len();
            &&& shelf.len() == if all < 16 {
                all as int
            } else {
                16
            }
            &&& forall|i: int|
                0 <= i < shelf.len() ==> #[trigger] shelf[i] == if i < playlists.len() {
                    Entry::Playlist(playlists[i])
                } else {
                    Entry::Album(albums[i - playlists.len()])
                }
        }),
{
    broadcast use vstd::seq_lib::group_to_multiset_ensures;

    let all = dated_rows(albums, playlists);
    newest_first_is_a_stable_sort(all);
    if all.len() > 0 {
        let e = all[0];
        assert(all.contains(e));
        dated_rows_are_those(albums, playlists, e);
        match e {
            Entry::Album(a) => {
                let k = choose|k: int| 0 <= k < albums.len() && albums[k] == a;
            },
            Entry::Playlist(p) => {
                let k = choose|k: int| 0 <= k < playlists.len() && playlists[k] == p;
            },
            _ => {},
        }
        assert(false);
    }
    assert(newest_first(all).to_multiset().len() == 0);
    assert(newest_first(all).len() == 0);
}

/// Favourites are recommended, and where the library has any nothing else is;
/// none is left out while the shelf of sixteen has room. A library without
/// favourites recommends its first songs.
pub proof fn favourites_are_recommended(
    r: Discover,
    chosen: Option<Provider>,
    songs: Seq<Track>,
    albums: Seq<Album>,
    playlists: Seq<Playlist>,
    history: Seq<Track>,
    song: Track,
)
    requires
        is_homemade(r, chosen, songs, albums, playlists, history),
        songs.contains(song),
    ensures
        ({
            let shelf = r.recommended_songs@;
            &&& 0 < shelf.len() <= 16
            &&& forall|i: int| 0 <= i < shelf.len() ==> songs.contains(#[trigger] shelf[i])
            &&& song.favorite ==> shelf.contains(song) || shelf.len() == 16
            &&& song.favorite ==> forall|i: int|
                0 <= i < shelf.len() ==> (#[trigger] shelf[i]).favorite
            &&& (forall|i: int| 0 <= i < songs.len() ==> !(#[trigger] songs[i]).favorite)
                ==> shelf.is_prefix_of(songs) && (shelf.len() == 16 || shelf == songs)
        }),
{
    let p = |t: Track| t.favorite;
    let starred = songs.filter(p);
    let shelf = r.recommended_songs@;
    kept_by_filter(songs, p, song);
    if starred.len() > 0 {
        kept_by_filter(songs, p, starred[0]);
        assert forall|i: int| 0 <= i < shelf.len() implies songs.contains(#[trigger] shelf[i])
            && shelf[i].favorite by {
            assert(shelf[i] == starred[i]);
            kept_by_filter(songs, p, starred[i]);
        }
        if song.favorite && shelf.len() < 16 {
            let k = choose|k: int| 0 <= k < starred.len() && starred[k] == song;
            assert(shelf[k] == song);
        }
        let k = choose|k: int| 0 <= k < songs.len() && songs[k] == starred[0];
        assert(songs[k].favorite);
    } else {
        assert forall|i: int| 0 <= i < shelf.len() implies songs.contains(#[trigger] shelf[i]) by {
            assert(shelf[i] == songs[i]);
        }
        assert(shelf =~= songs.subrange(0, shelf.len() as int));
    }
}

/// What was played here last is shown first, song by song, sixteen at most.
/// Nothing is passed off as recommended playlists or as charts.
pub proof fn what_was_played_is_shown(
    r: Discover,
    chosen: Option<Provider>,
    songs: Seq<Track>,
    albums: Seq<Album>,
    playlists: Seq<Playlist>,
    history: Seq<Track>,
)
    requires
        is_homemade(r, chosen, songs, albums, playlists, history),
    ensures
        r.recently_played@.len() == if history.len() < 16 {
            history.len() as int
        } else {
            16
        },
        forall|i: int|
            0 <= i < r.recently_played@.len() ==> #[trigger] r.recently_played@[i] == Entry::Song(
                history[i],
            ),
        r.recommended_playlists@.len() == 0,
        r.charts@.len() == 0,
{
}

/// Filling the gaps changes the empty shelves and no other.
pub proof fn only_empty_shelves_are_filled(was: Discover, now: Discover, homemade: Discover)
    requires
        now.has_filled(was, homemade),
    ensures
        was.recently_played@.len() > 0 ==> now.recently_played == was.recently_played,
        was.recently_played@.len() == 0 ==> now.recently_played == homemade.recently_played,
        was.recommended_playlists@.len() > 0 ==> now.recommended_playlists
            == was.recommended_playlists,
        was.recommended_playlists@.len() == 0 ==> now.recommended_playlists
            == homemade.recommended_playlists,
        was.recommended_songs@.len() > 0 ==> now.recommended_songs == was.recommended_songs,
        was.recommended_songs@.len() == 0 ==> now.recommended_songs == homemade.recommended_songs,
        was.recently_added@.len() > 0 ==> now.recently_added == was.recently_added,
        was.recently_added@.len() == 0 ==> now.recently_added == homemade.recently_added,
        was.charts@.len() > 0 ==> now.charts == was.charts,
        was.charts@.len() == 0 ==> now.charts == homemade.charts,
        now.version == was.version,
        now.provider == was.provider,
{
}

/// A row is dropped exactly where its title is nothing but a video id.
pub proof fn only_placeholders_are_dropped(was: Discover, now: Discover, row: Entry, song: Track)
    requires
        now.has_only_titles_of(was),
    ensures
        now.recently_played@.contains(row) <==> was.recently_played@.contains(row)
            && !is_placeholder(row),
        now.recommended_playlists@.contains(row) <==> was.recommended_playlists@.contains(row)
            && !is_placeholder(row),
        now.recently_added@.contains(row) <==> was.recently_added@.contains(row)
            && !is_placeholder(row),
        now.charts@.contains(row) <==> was.charts@.contains(row) && !is_placeholder(row),
        now.recommended_songs@.contains(song) <==> was.recommended_songs@.contains(song)
            && !is_placeholder_song(song),
{
    let p = |e: Entry| !is_placeholder(e);
    kept_by_filter(was.recently_played@, p, row);
    kept_by_filter(was.recommended_playlists@, p, row);
    kept_by_filter(was.recently_added@, p, row);
    kept_by_filter(was.charts@, p, row);
    kept_by_filter(was.recommended_songs@, |t: Track| !is_placeholder_song(t), song);
}

proof fn a_filter_of_all_keeps_all<A>(s: Seq<A>, p: spec_fn(A) -> bool)
    requires
        forall|i: int| 0 <= i < s.len() ==> p(#[trigger] s[i]),
    ensures
        s.filter(p) == s,
    decreases s.len(),
{
    reveal(Seq::filter);
    if s.len() > 0 {
        assert forall|i: int| 0 <= i < s.drop_last().len() implies p(
            #[trigger] s.drop_last()[i],
        ) by {
            assert(s.drop_last()[i] == s[i]);
        }
        a_filter_of_all_keeps_all(s.drop_last(), p);
        assert(s.drop_last().push(s.last()) =~= s);
    }
}

/// What is written is opened again: a page that was made for the chosen source
/// and holds only titles comes back with every shelf as it was. Apple Music's
/// must show nothing of another source, and files on this computer keep no page.
pub proof fn a_written_page_is_opened_again(
    page: Discover,
    written: Discover,
    opened: Discover,
    chosen: Provider,
)
    requires
        written.is_written(page, Some(chosen)),
        opened.is_opened(written, Some(chosen)),
        page.provider@.len() == 0,
        chosen != Provider::Local,
        chosen == Provider::AppleMusic ==> first_stem(page_ids(page)) is None,
        forall|i: int|
            0 <= i < page.recently_played@.len() ==> !is_placeholder(
                #[trigger] page.recently_played@[i],
            ),
        forall|i: int|
            0 <= i < page.recommended_playlists@.len() ==> !is_placeholder(
                #[trigger] page.recommended_playlists@[i],
            ),
        forall|i: int|
            0 <= i < page.recommended_songs@.len() ==> !is_placeholder_song(
                #[trigger] page.recommended_songs@[i],
            ),
        forall|i: int|
            0 <= i < page.recently_added@.len() ==> !is_placeholder(
                #[trigger] page.recently_added@[i],
            ),
        forall|i: int|
            0 <= i < page.charts@.len() ==> !is_placeholder(#[trigger] page.charts@[i]),
    ensures
        opened.recently_played@ == page.recently_played@,
        opened.recommended_playlists@ == page.recommended_playlists@,
        opened.recommended_songs@ == page.recommended_songs@,
        opened.recently_added@ == page.recently_added@,
        opened.charts@ == page.charts@,
{
    crate::provider::a_source_is_read_back(chosen);
    let p = |e: Entry| !is_placeholder(e);
    a_filter_of_all_keeps_all(page.recently_played@, p);
    a_filter_of_all_keeps_all(page.recommended_playlists@, p);
    a_filter_of_all_keeps_all(page.recommended_songs@, |t: Track| !is_placeholder_song(t));
    a_filter_of_all_keeps_all(page.recently_added@, p);
    a_filter_of_all_keeps_all(page.charts@, p);
    assert(page_ids(written) == page_ids(page));
}

/// A page that another source wrote is not opened, nor is one in another form.
pub proof fn a_foreign_page_is_not_opened(
    kept: Discover,
    opened: Discover,
    chosen: Provider,
    other: Provider,
)
    requires
        opened.is_opened(kept, Some(chosen)),
        kept.version != 2 || (kept.provider@ == other.spec_str() && other != chosen),
    ensures
        opened.recently_played@.len() == 0,
        opened.recommended_playlists@.len() == 0,
        opened.recommended_songs@.len() == 0,
        opened.recently_added@.len() == 0,
        opened.charts@.len() == 0,
{
    crate::provider::a_source_is_read_back(other);
}

/// Two pages show the same tiles exactly where each shelf has the same ids under
/// the same titles in the same order, and one source wrote both.
pub proof fn the_same_tiles_have_the_same_ids(a: Discover, b: Discover, i: int)
    requires
        a.spec_same_tiles(b),
    ensures
        a.provider@ == b.provider@,
        b.spec_same_tiles(a),
        a.recently_played@.len() == b.recently_played@.len(),
        a.charts@.len() == b.charts@.len(),
        0 <= i < a.recently_played@.len() ==> a.recently_played@[i].spec_id()
            == b.recently_played@[i].spec_id() && a.recently_played@[i].spec_title()
            == b.recently_played@[i].spec_title(),
        0 <= i < a.recommended_playlists@.len() ==> a.recommended_playlists@[i].spec_id()
            == b.recommended_playlists@[i].spec_id()
            && a.recommended_playlists@[i].spec_title()
            == b.recommended_playlists@[i].spec_title(),
        0 <= i < a.recommended_songs@.len() ==> a.recommended_songs@[i].spec_key()
            == b.recommended_songs@[i].spec_key() && a.recommended_songs@[i].title@
            == b.recommended_songs@[i].title@,
        0 <= i < a.recently_added@.len() ==> a.recently_added@[i].spec_id()
            == b.recently_added@[i].spec_id() && a.recently_added@[i].spec_title()
            == b.recently_added@[i].spec_title(),
        0 <= i < a.charts@.len() ==> a.charts@[i].spec_id() == b.charts@[i].spec_id()
            && a.charts@[i].spec_title() == b.charts@[i].spec_title(),
{
}

/// A kept page is shown for the source that it was made for, and for Apple Music
/// where it names no source and nothing in it is of another; files have no page.
pub proof fn a_page_is_shown_for_its_source(cache: Discover, p: Provider)
    ensures
        !fits(cache, Some(Provider::Local)),
        p.spec_is_catalog() && Provider::spec_parse(cache.provider@) == Some(p) ==> fits(
            cache,
            Some(p),
        ),
        p.spec_is_catalog() && Provider::spec_parse(cache.provider@) is Some
            && Provider::spec_parse(cache.provider@) != Some(p) ==> !fits(cache, Some(p)),
        Provider::spec_parse(cache.provider@) == Some(Provider::AppleMusic) && first_stem(
            page_ids(cache),
        ) is None ==> fits(cache, None) && fits(cache, Some(Provider::AppleMusic)),
        first_stem(page_ids(cache)) is Some ==> !fits(cache, None) && !fits(
            cache,
            Some(Provider::AppleMusic),
        ),
{
}

/// A page is of the source that the first id with one names, and an id names its
/// source by the letters that it begins with.
pub proof fn a_page_is_of_the_first_source_named(ids: Seq<Seq<char>>, rest: Seq<char>)
    requires
        first_stem(ids) is None,
    ensures
        first_stem(ids.push("sp:"@ + rest)) == Some(Provider::Spotify),
        first_stem(ids.push("yt:"@ + rest)) == Some(Provider::YoutubeMusic),
        first_stem(ids.push("td:"@ + rest)) == Some(Provider::Tidal),
        rest.len() > 0 && '0' <= rest[0] <= '9' ==> first_stem(ids.push(rest)) is None,
{
    reveal_strlit("sp:");
    reveal_strlit("yt:");
    reveal_strlit("td:");
    assert("sp:"@[0] == 's' && "yt:"@[0] == 'y' && "td:"@[0] == 't');
    assert(("sp:"@ + rest).take(3) =~= "sp:"@);
    assert(("yt:"@ + rest).take(3) =~= "yt:"@);
    assert(("td:"@ + rest).take(3) =~= "td:"@);
    assert(("yt:"@ + rest)[0] == 'y' && ("td:"@ + rest)[0] == 't');
    assert(forall|p: Seq<char>, s: Seq<char>| #[trigger]
        p.is_prefix_of(s) && p.len() > 0 ==> s[0] == p[0]);
    assert(ids.push("sp:"@ + rest).drop_last() =~= ids);
    assert(ids.push("yt:"@ + rest).drop_last() =~= ids);
    assert(ids.push("td:"@ + rest).drop_last() =~= ids);
    assert(ids.push(rest).drop_last() =~= ids);
}

} // verus!
