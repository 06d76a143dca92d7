//! What a list is ordered by, and which way round.
use core::cmp::Ordering;

use vstd::prelude::*;

use crate::i18n::{self, Key, Language};
use crate::ipc::Section;
use crate::music::types::{Album, Artist, Playlist, Track};
use crate::text::{self, Rank};

verus! {

/// What a list of the library is ordered by.
#[derive(Debug, Clone, Copy, PartialEq, Eq, Structural)]
pub enum SortBy {
    Title,
    Artist,
    Album,
    Year,
    /// When it was saved to the library. Songs do not carry this.
    Added,
    /// When a playlist was last edited.
    Updated,
}

impl Default for SortBy {
    fn default() -> (r: Self)
        ensures
            r == SortBy::Title,
    {
        SortBy::Title
    }
}

/// How two strings stand to each other, letter case aside.
pub open spec fn folded_rank(a: Seq<char>, b: Seq<char>) -> Rank {
    text::rank_of(text::lowercase(a), text::lowercase(b))
}

/// How two strings stand to each other, letter case aside.
fn rank_folded(a: &str, b: &str) -> (r: Rank)
    ensures
        r == folded_rank(a@, b@),
{
    text::rank(text::lower(a).as_str(), text::lower(b).as_str())
}

/// How two numbers stand to each other.
pub open spec fn number_rank(a: int, b: int) -> Rank {
    if a < b {
        Rank::Before
    } else if a > b {
        Rank::After
    } else {
        Rank::Same
    }
}

/// How two numbers stand to each other.
fn rank_numbers(a: u32, b: u32) -> (r: Rank)
    ensures
        r == number_rank(a as int, b as int),
{
    if a < b {
        Rank::Before
    } else if a > b {
        Rank::After
    } else {
        Rank::Same
    }
}

/// This, and `next` where this does not decide.
fn either(first: Rank, next: Rank) -> (r: Rank)
    ensures
        r == first.or(next),
{
    match first {
        Rank::Same => next,
        other => other,
    }
}

/// `rank` in the terms of std.
pub open spec fn ordering_of(rank: Rank) -> Ordering {
    match rank {
        Rank::Before => Ordering::Less,
        Rank::Same => Ordering::Equal,
        Rank::After => Ordering::Greater,
    }
}

/// `rank` in the terms of std.
fn to_ordering(rank: Rank) -> (r: Ordering)
    ensures
        r == ordering_of(rank),
{
    match rank {
        Rank::Before => Ordering::Less,
        Rank::Same => Ordering::Equal,
        Rank::After => Ordering::Greater,
    }
}

impl SortBy {
    /// What a section can be sorted by, first choice first.
    pub open spec fn spec_for_view(view: Section) -> Seq<SortBy> {
        match view {
            Section::Songs => seq![SortBy::Title, SortBy::Artist, SortBy::Album, SortBy::Year],
            Section::Albums => seq![SortBy::Title, SortBy::Artist, SortBy::Year, SortBy::Added],
            Section::Playlists => seq![SortBy::Title, SortBy::Added, SortBy::Updated],
            Section::Artists => seq![SortBy::Title],
        }
    }

    /// What a section can be sorted by, first choice first.
    pub fn for_view(view: Section) -> (r: Vec<SortBy>)
        ensures
            r@ == SortBy::spec_for_view(view),
    {
        let r = match view {
            Section::Songs => vec![SortBy::Title, SortBy::Artist, SortBy::Album, SortBy::Year],
            Section::Albums => vec![SortBy::Title, SortBy::Artist, SortBy::Year, SortBy::Added],
            Section::Playlists => vec![SortBy::Title, SortBy::Added, SortBy::Updated],
            Section::Artists => vec![SortBy::Title],
        };
        assert(r@ =~= SortBy::spec_for_view(view));
        r
    }

    /// This key where the section offers it, else the section's first.
    pub fn valid_for(self, view: Section) -> (r: Self)
        ensures
            r == if SortBy::spec_for_view(view).contains(self) {
                self
            } else {
                SortBy::Title
            },
    {
        let allowed = SortBy::for_view(view);
        let mut i: usize = 0;
        while i < allowed.len()
            invariant
                i <= allowed@.len(),
                allowed@ == SortBy::spec_for_view(view),
                forall|j: int| 0 <= j < i ==> allowed@[j] != self,
            decreases allowed@.len() - i,
        {
            if allowed[i] == self {
                return self;
            }
            i += 1;
        }
        allowed[0]
    }

    pub open spec fn spec_label(self, language: Language) -> Seq<char> {
        i18n::sentence(
            language,
            match self {
                SortBy::Title => Key::SortTitle,
                SortBy::Artist => Key::SortArtist,
                SortBy::Album => Key::SortAlbum,
                SortBy::Year => Key::SortYear,
                SortBy::Added => Key::SortAdded,
                SortBy::Updated => Key::SortUpdated,
            },
        )
    }

    /// What the key is called on screen.
    pub fn label(self, language: Language) -> (r: &'static str)
        ensures
            r@ == self.spec_label(language),
    {
        i18n::t(
            language,
            match self {
                SortBy::Title => Key::SortTitle,
                SortBy::Artist => Key::SortArtist,
                SortBy::Album => Key::SortAlbum,
                SortBy::Year => Key::SortYear,
                SortBy::Added => Key::SortAdded,
                SortBy::Updated => Key::SortUpdated,
            },
        )
    }

    pub open spec fn spec_word(self) -> Seq<char> {
        match self {
            SortBy::Title => "title"@,
            SortBy::Artist => "artist"@,
            SortBy::Album => "album"@,
            SortBy::Year => "year"@,
            SortBy::Added => "added"@,
            SortBy::Updated => "updated"@,
        }
    }

    /// The word that stands for the key in a file.
    pub fn id(self) -> (r: &'static str)
        ensures
            r@ == self.spec_word(),
    {
        match self {
            SortBy::Title => "title",
            SortBy::Artist => "artist",
            SortBy::Album => "album",
            SortBy::Year => "year",
            SortBy::Added => "added",
            SortBy::Updated => "updated",
        }
    }

    /// The key that a word stands for; the title for any other word.
    pub open spec fn spec_parse(s: Seq<char>) -> SortBy {
        if s == "artist"@ {
            SortBy::Artist
        } else if s == "album"@ {
            SortBy::Album
        } else if s == "year"@ {
            SortBy::Year
        } else if s == "added"@ {
            SortBy::Added
        } else if s == "updated"@ {
            SortBy::Updated
        } else {
            SortBy::Title
        }
    }

    /// The key that a word stands for; the title for any other word.
    pub fn parse(s: &str) -> (r: Self)
        ensures
            r == SortBy::spec_parse(s@),
    {
        if text::same(s, "artist") {
            SortBy::Artist
        } else if text::same(s, "album") {
            SortBy::Album
        } else if text::same(s, "year") {
            SortBy::Year
        } else if text::same(s, "added") {
            SortBy::Added
        } else if text::same(s, "updated") {
            SortBy::Updated
        } else {
            SortBy::Title
        }
    }

    pub open spec fn spec_descends(self) -> bool {
        self is Year || self is Added || self is Updated
    }

    /// Whether the list runs backwards before anybody turns it round: dates
    /// read newest first.
    pub fn descends_by_default(self) -> (r: bool)
        ensures
            r == self.spec_descends(),
    {
        matches!(self, SortBy::Year | SortBy::Added | SortBy::Updated)
    }

    /// How two songs stand to each other. Inside an album the track numbers
    /// decide; everything else that ties is decided by title.
    pub open spec fn rank_tracks(self, a: Track, b: Track) -> Rank {
        let title = folded_rank(a.title@, b.title@);
        match self {
            SortBy::Title | SortBy::Added | SortBy::Updated => title,
            SortBy::Artist => folded_rank(a.artist@, b.artist@).or(title),
            SortBy::Album => folded_rank(a.album@, b.album@).or(
                number_rank(a.track_number as int, b.track_number as int),
            ).or(title),
            SortBy::Year => text::rank_of(a.year@, b.year@).or(title),
        }
    }

    /// Order two songs.
    pub fn compare(self, a: &Track, b: &Track) -> (r: Ordering)
        ensures
            r == ordering_of(self.rank_tracks(*a, *b)),
    {
        let title = rank_folded(a.title.as_str(), b.title.as_str());
        to_ordering(
            match self {
                SortBy::Title | SortBy::Added | SortBy::Updated => title,
                SortBy::Artist => either(
                    rank_folded(a.artist.as_str(), b.artist.as_str()),
                    title,
                ),
                SortBy::Album => either(
                    either(
                        rank_folded(a.album.as_str(), b.album.as_str()),
                        rank_numbers(a.track_number, b.track_number),
                    ),
                    title,
                ),
                SortBy::Year => either(text::rank(a.year.as_str(), b.year.as_str()), title),
            },
        )
    }

    /// How two albums stand to each other.
    pub open spec fn rank_albums(self, a: Album, b: Album) -> Rank {
        let title = folded_rank(a.name@, b.name@);
        match self {
            SortBy::Artist => folded_rank(a.artist@, b.artist@).or(title),
            SortBy::Year => text::rank_of(a.year@, b.year@).or(title),
            SortBy::Added => text::rank_of(a.date_added@, b.date_added@).or(title),
            _ => title,
        }
    }

    /// Order two albums.
    pub fn compare_album(self, a: &Album, b: &Album) -> (r: Ordering)
        ensures
            r == ordering_of(self.rank_albums(*a, *b)),
    {
        let title = rank_folded(a.name.as_str(), b.name.as_str());
        to_ordering(
            match self {
                SortBy::Artist => either(
                    rank_folded(a.artist.as_str(), b.artist.as_str()),
                    title,
                ),
                SortBy::Year => either(text::rank(a.year.as_str(), b.year.as_str()), title),
                SortBy::Added => either(
                    text::rank(a.date_added.as_str(), b.date_added.as_str()),
                    title,
                ),
                _ => title,
            },
        )
    }

    /// How two playlists stand to each other.
    pub open spec fn rank_playlists(self, a: Playlist, b: Playlist) -> Rank {
        let title = folded_rank(a.name@, b.name@);
        match self {
            SortBy::Added => text::rank_of(a.date_added@, b.date_added@).or(title),
            SortBy::Updated => text::rank_of(a.last_modified@, b.last_modified@).or(title),
            _ => title,
        }
    }

    /// Order two playlists.
    pub fn compare_playlist(self, a: &Playlist, b: &Playlist) -> (r: Ordering)
        ensures
            r == ordering_of(self.rank_playlists(*a, *b)),
    {
        let title = rank_folded(a.name.as_str(), b.name.as_str());
        to_ordering(
            match self {
                SortBy::Added => either(
                    text::rank(a.date_added.as_str(), b.date_added.as_str()),
                    title,
                ),
                SortBy::Updated => either(
                    text::rank(a.last_modified.as_str(), b.last_modified.as_str()),
                    title,
                ),
                _ => title,
            },
        )
    }

    /// Order two artists, which have only a name to go by.
    pub fn compare_artist(a: &Artist, b: &Artist) -> (r: Ordering)
        ensures
            r == ordering_of(folded_rank(a.name@, b.name@)),
    {
        to_ordering(rank_folded(a.name.as_str(), b.name.as_str()))
    }
}

/// A key is read back from the word it is written as.
pub proof fn a_key_is_read_back(by: SortBy)
    ensures
        SortBy::spec_parse(by.spec_word()) == by,
{
    reveal_strlit("title");
    reveal_strlit("artist");
    reveal_strlit("album");
    reveal_strlit("year");
    reveal_strlit("added");
    reveal_strlit("updated");
    assert("artist"@[1] == 'r' && "album"@[1] == 'l' && "added"@[1] == 'd' && "year"@[0] == 'y'
        && "updated"@[0] == 'u' && "title"@[0] == 't' && "artist"@[0] == 'a' && "album"@[0] == 'a'
        && "added"@[0] == 'a');
}

/// Every section is sorted by title first, and a section's own keys stand.
pub proof fn every_section_sorts_by_title(view: Section)
    ensures
        SortBy::spec_for_view(view).len() > 0,
        SortBy::spec_for_view(view)[0] == SortBy::Title,
{
}

/// The order of songs turns round when its sides are swapped, by any key.
pub proof fn songs_order_turns_round(by: SortBy, a: Track, b: Track)
    ensures
        by.rank_tracks(b, a) == by.rank_tracks(a, b).flipped(),
{
    text::rank_is_antisymmetric(text::lowercase(a.title@), text::lowercase(b.title@));
    text::rank_is_antisymmetric(text::lowercase(a.artist@), text::lowercase(b.artist@));
    text::rank_is_antisymmetric(text::lowercase(a.album@), text::lowercase(b.album@));
    text::rank_is_antisymmetric(a.year@, b.year@);
}

/// The order of albums turns round when its sides are swapped, by any key.
pub proof fn albums_order_turns_round(by: SortBy, a: Album, b: Album)
    ensures
        by.rank_albums(b, a) == by.rank_albums(a, b).flipped(),
{
    text::rank_is_antisymmetric(text::lowercase(a.name@), text::lowercase(b.name@));
    text::rank_is_antisymmetric(text::lowercase(a.artist@), text::lowercase(b.artist@));
    text::rank_is_antisymmetric(a.date_added@, b.date_added@);
    text::rank_is_antisymmetric(a.year@, b.year@);
}

/// The order of playlists turns round when its sides are swapped, by any key.
pub proof fn playlists_order_turns_round(by: SortBy, a: Playlist, b: Playlist)
    ensures
        by.rank_playlists(b, a) == by.rank_playlists(a, b).flipped(),
{
    text::rank_is_antisymmetric(text::lowercase(a.name@), text::lowercase(b.name@));
    text::rank_is_antisymmetric(a.date_added@, b.date_added@);
    text::rank_is_antisymmetric(a.last_modified@, b.last_modified@);
}

/// By any key the order of songs carries over: `a` no later than `b` and `b` no
/// later than `c` make `a` no later than `c`.
pub proof fn songs_order_carries_over(by: SortBy, a: Track, b: Track, c: Track)
    requires
        !(by.rank_tracks(a, b) is After),
        !(by.rank_tracks(b, c) is After),
    ensures
        !(by.rank_tracks(a, c) is After),
{
    let l = |s: Seq<char>| text::lowercase(s);
    carries_over(l(a.title@), l(b.title@), l(c.title@));
    carries_over(l(a.artist@), l(b.artist@), l(c.artist@));
    carries_over(l(a.album@), l(b.album@), l(c.album@));
    carries_over(a.year@, b.year@, c.year@);
}

/// By any key the order of albums carries over.
pub proof fn albums_order_carries_over(by: SortBy, a: Album, b: Album, c: Album)
    requires
        !(by.rank_albums(a, b) is After),
        !(by.rank_albums(b, c) is After),
    ensures
        !(by.rank_albums(a, c) is After),
{
    let l = |s: Seq<char>| text::lowercase(s);
    carries_over(l(a.name@), l(b.name@), l(c.name@));
    carries_over(l(a.artist@), l(b.artist@), l(c.artist@));
    carries_over(a.year@, b.year@, c.year@);
    carries_over(a.date_added@, b.date_added@, c.date_added@);
}

/// By any key the order of playlists carries over.
pub proof fn playlists_order_carries_over(by: SortBy, a: Playlist, b: Playlist, c: Playlist)
    requires
        !(by.rank_playlists(a, b) is After),
        !(by.rank_playlists(b, c) is After),
    ensures
        !(by.rank_playlists(a, c) is After),
{
    let l = |s: Seq<char>| text::lowercase(s);
    carries_over(l(a.name@), l(b.name@), l(c.name@));
    carries_over(a.date_added@, b.date_added@, c.date_added@);
    carries_over(a.last_modified@, b.last_modified@, c.last_modified@);
}

proof fn carries_over(a: Seq<char>, b: Seq<char>, c: Seq<char>)
    ensures
        !(text::rank_of(a, b) is After) && !(text::rank_of(b, c) is After) ==> !(text::rank_of(
            a,
            c,
        ) is After) && (text::rank_of(a, b) is Before || text::rank_of(b, c) is Before
            ==> text::rank_of(a, c) is Before),
        text::rank_of(a, b) is Same <==> a == b,
        text::rank_of(b, c) is Same <==> b == c,
{
    text::rank_is_antisymmetric(a, b);
    text::rank_is_antisymmetric(b, c);
    if !(text::rank_of(a, b) is After) && !(text::rank_of(b, c) is After) {
        text::rank_is_transitive(a, b, c);
    }
}

/// Songs that tie by the chosen key are decided by title, so that two of them
/// never swap places between two listings.
pub proof fn ties_fall_back_to_title(by: SortBy, a: Track, b: Track)
    requires
        a.artist@ == b.artist@,
        a.album@ == b.album@,
        a.track_number == b.track_number,
        a.year@ == b.year@,
    ensures
        by.rank_tracks(a, b) == folded_rank(a.title@, b.title@),
{
    text::rank_is_antisymmetric(text::lowercase(a.artist@), text::lowercase(b.artist@));
    text::rank_is_antisymmetric(text::lowercase(a.album@), text::lowercase(b.album@));
    text::rank_is_antisymmetric(a.year@, b.year@);
}

/// Songs stand by what they are sorted by first, letter case aside for words:
/// an artist before another, an album before another and in it the numbers, a
/// year before another.
pub proof fn songs_stand_by_what_they_are_sorted_by(a: Track, b: Track)
    ensures
        SortBy::Title.rank_tracks(a, b) == text::rank_of(
            text::lowercase(a.title@),
            text::lowercase(b.title@),
        ),
        text::rank_of(text::lowercase(a.artist@), text::lowercase(b.artist@)) is Before
            ==> SortBy::Artist.rank_tracks(a, b) is Before,
        text::rank_of(text::lowercase(a.album@), text::lowercase(b.album@)) is Before
            ==> SortBy::Album.rank_tracks(a, b) is Before,
        text::lowercase(a.album@) == text::lowercase(b.album@) && a.track_number < b.track_number
            ==> SortBy::Album.rank_tracks(a, b) is Before,
        text::rank_of(a.year@, b.year@) is Before ==> SortBy::Year.rank_tracks(a, b) is Before,
{
    text::rank_is_antisymmetric(text::lowercase(a.album@), text::lowercase(b.album@));
}

/// Albums and playlists stand by what they are sorted by first, and by their
/// names where that ties.
pub proof fn lists_stand_by_what_they_are_sorted_by(a: Album, b: Album, p: Playlist, q: Playlist)
    ensures
        SortBy::Title.rank_albums(a, b) == text::rank_of(
            text::lowercase(a.name@),
            text::lowercase(b.name@),
        ),
        text::rank_of(text::lowercase(a.artist@), text::lowercase(b.artist@)) is Before
            ==> SortBy::Artist.rank_albums(a, b) is Before,
        text::rank_of(a.year@, b.year@) is Before ==> SortBy::Year.rank_albums(a, b) is Before,
        text::rank_of(a.date_added@, b.date_added@) is Before ==> SortBy::Added.rank_albums(
            a,
            b,
        ) is Before,
        a.date_added@ == b.date_added@ ==> SortBy::Added.rank_albums(a, b)
            == SortBy::Title.rank_albums(a, b),
        SortBy::Title.rank_playlists(p, q) == text::rank_of(
            text::lowercase(p.name@),
            text::lowercase(q.name@),
        ),
        text::rank_of(p.date_added@, q.date_added@) is Before ==> SortBy::Added.rank_playlists(
            p,
            q,
        ) is Before,
        text::rank_of(p.last_modified@, q.last_modified@) is Before
            ==> SortBy::Updated.rank_playlists(p, q) is Before,
        p.last_modified@ == q.last_modified@ ==> SortBy::Updated.rank_playlists(p, q)
            == SortBy::Title.rank_playlists(p, q),
{
    text::rank_is_antisymmetric(a.date_added@, b.date_added@);
    text::rank_is_antisymmetric(p.last_modified@, q.last_modified@);
}

/// Dates read newest first, and words from the front.
pub proof fn dates_read_newest_first(by: SortBy)
    ensures
        by is Year || by is Added || by is Updated ==> by.spec_descends(),
        by is Title || by is Artist || by is Album ==> !by.spec_descends(),
{
}

/// What stands before is less, what stands behind is greater, and what stands
/// alike is equal.
pub proof fn an_order_is_told_as_it_is(rank: Rank)
    ensures
        rank is Before <==> ordering_of(rank) == Ordering::Less,
        rank is After <==> ordering_of(rank) == Ordering::Greater,
        rank is Same <==> ordering_of(rank) == Ordering::Equal,
{
}

} // verus!
