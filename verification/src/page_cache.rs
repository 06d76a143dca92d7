//! Pages kept between visits.
use vstd::prelude::*;

use crate::entry::{copy_entries, Entry};
use crate::ipc::PageKind;
use crate::music::types::{file_safe, safe_char, safe_name, Artwork};
use crate::paths::{self, Env};
use crate::text;

verus! {

/// The form pages are kept in. A page kept in another form is not read.
pub const VERSION: u32 = 1;

#[derive(Debug)]
pub struct CachedPage {
    pub version: u32,
    pub header: Entry,
    pub entries: Vec<Entry>,
}

pub open spec fn kind_word(kind: PageKind) -> Seq<char> {
    match kind {
        PageKind::Album => "album"@,
        PageKind::Artist => "artist"@,
        PageKind::Playlist => "playlist"@,
        PageKind::LibraryAlbum => "library-album"@,
        PageKind::LibraryArtist => "library-artist"@,
        PageKind::LibraryPlaylist => "library-playlist"@,
    }
}

/// The name a page is kept under. Nothing of the id but letters, digits, dots
/// and hyphens gets into it.
pub open spec fn spec_file_name(kind: PageKind, id: Seq<char>) -> Seq<char> {
    kind_word(kind) + "-"@ + safe_name(id) + ".json"@
}

/// The name a page is kept under.
pub fn file_name(kind: PageKind, id: &str) -> (r: String)
    ensures
        r@ == spec_file_name(kind, id@),
{
    let mut out = match kind {
        PageKind::Album => "album",
        PageKind::Artist => "artist",
        PageKind::Playlist => "playlist",
        PageKind::LibraryAlbum => "library-album",
        PageKind::LibraryArtist => "library-artist",
        PageKind::LibraryPlaylist => "library-playlist",
    }.to_owned();
    out.append("-");
    out.append(file_safe(id).as_str());
    out.append(".json");
    out
}

/// Where pages are kept.
pub fn dir(env: &Env) -> (r: Option<String>)
    ensures
        text::opt_view(r) == paths::under_opt(env.spec_cache_dir(), "pages"@),
{
    paths::join_opt(paths::cache_dir(env), "pages")
}

/// Where a page is kept.
pub fn path(env: &Env, kind: PageKind, id: &str) -> (r: Option<String>)
    ensures
        text::opt_view(r) == paths::under_opt(
            paths::under_opt(env.spec_cache_dir(), "pages"@),
            spec_file_name(kind, id@),
        ),
{
    paths::join_opt(dir(env), file_name(kind, id).as_str())
}

/// The page to keep.
pub fn page(header: &Entry, entries: &Vec<Entry>) -> (r: CachedPage)
    ensures
        r.version == VERSION,
        r.header == *header,
        r.entries@ == entries@,
        is_kept_as(r, *header, entries@),
{
    CachedPage { version: VERSION, header: header.clone(), entries: copy_entries(entries) }
}

/// Whether a page is kept as `r`.
pub open spec fn is_kept_as(r: CachedPage, header: Entry, entries: Seq<Entry>) -> bool {
    r.version == VERSION && r.header == header && r.entries@ == entries
}

/// A page that was read, unless it was kept in another form.
pub open spec fn accepted(page: CachedPage) -> Option<CachedPage> {
    if page.version == VERSION {
        Some(page)
    } else {
        None
    }
}

/// A page that was read, unless it was kept in another form.
pub fn accept(page: CachedPage) -> (r: Option<CachedPage>)
    ensures
        r == if page.version == VERSION {
            Some(page)
        } else {
            None
        },
        r == accepted(page),
{
    if page.version == VERSION {
        Some(page)
    } else {
        None
    }
}

pub open spec fn spec_art_key(entry: Entry) -> Option<Seq<char>> {
    let art = match entry {
        Entry::Song(t) => t.artwork,
        Entry::Album(a) => a.artwork,
        Entry::Artist(a) => a.artwork,
        Entry::Playlist(p) => p.artwork,
    };
    match art {
        Some(a) => Some(safe_name(a.template@)),
        None => None,
    }
}

fn key_of(art: &Option<Artwork>) -> (r: Option<String>)
    ensures
        text::opt_view(r) == match *art {
            Some(a) => Some(safe_name(a.template@)),
            None => None,
        },
{
    match art {
        Some(a) => Some(a.cache_key()),
        None => None,
    }
}

/// What a row's picture is called on disk.
pub fn art_key(entry: &Entry) -> (r: Option<String>)
    ensures
        text::opt_view(r) == spec_art_key(*entry),
{
    match entry {
        Entry::Song(t) => key_of(&t.artwork),
        Entry::Album(a) => key_of(&a.artwork),
        Entry::Artist(a) => key_of(&a.artwork),
        Entry::Playlist(p) => key_of(&p.artwork),
    }
}

/// Whether two rows are the same thing under the same name.
pub open spec fn same_row(a: Entry, b: Entry) -> bool {
    a.spec_id() == b.spec_id() && a.spec_title() == b.spec_title()
}

/// Whether two lists show the same things under the same names, in order.
pub open spec fn same_rows(a: Seq<Entry>, b: Seq<Entry>) -> bool {
    a.len() == b.len() && forall|i: int|
        0 <= i < a.len() ==> same_row(#[trigger] a[i], #[trigger] b[i])
}

/// Whether two lists show the same things under the same names, in order.
pub fn rows_agree(a: &Vec<Entry>, b: &Vec<Entry>) -> (r: bool)
    ensures
        r == same_rows(a@, b@),
{
    if a.len() != b.len() {
        return false;
    }
    let mut i: usize = 0;
    while i < a.len()
        invariant
            i <= a@.len() == b@.len(),
            forall|j: int| 0 <= j < i ==> same_row(#[trigger] a@[j], #[trigger] b@[j]),
        decreases a@.len() - i,
    {
        if !text::same(a[i].id(), b[i].id()) || !text::same(a[i].title(), b[i].title()) {
            assert(!same_row(a@[i as int], b@[i as int]));
            return false;
        }
        i += 1;
    }
    true
}

/// Whether a kept page shows what a fresh one does, so that nothing has to be
/// drawn again.
pub fn same(cached: &CachedPage, header: &Entry, entries: &Vec<Entry>) -> (r: bool)
    ensures
        r == (same_row(cached.header, *header) && spec_art_key(cached.header) == spec_art_key(
            *header,
        ) && same_rows(cached.entries@, entries@)),
{
    text::same(cached.header.id(), header.id()) && text::same(cached.header.title(), header.title())
        && text::same_opt(&art_key(&cached.header), &art_key(header)) && rows_agree(
        &cached.entries,
        entries,
    )
}

/// A page kept and read back at once is the page.
pub proof fn a_kept_page_is_the_same_page(page: CachedPage, header: Entry, entries: Seq<Entry>)
    requires
        page.header == header,
        page.entries@ == entries,
    ensures
        same_row(page.header, header),
        spec_art_key(page.header) == spec_art_key(header),
        same_rows(page.entries@, entries),
{
}

/// A page's name holds no slash, so it cannot leave the directory.
pub proof fn a_page_name_stays_in_its_directory(kind: PageKind, id: Seq<char>)
    ensures
        forall|i: int|
            0 <= i < spec_file_name(kind, id).len() ==> {
                let c = #[trigger] spec_file_name(kind, id)[i];
                c == safe_char(c)
            },
        !spec_file_name(kind, id).contains('/'),
{
    reveal_strlit("album");
    reveal_strlit("artist");
    reveal_strlit("playlist");
    reveal_strlit("library-album");
    reveal_strlit("library-artist");
    reveal_strlit("library-playlist");
    reveal_strlit("-");
    reveal_strlit(".json");
    let name = spec_file_name(kind, id);
    let k = kind_word(kind);
    let s = safe_name(id);
    assert forall|i: int| 0 <= i < name.len() implies {
        let c = #[trigger] name[i];
        c == safe_char(c)
    } by {
        if i < k.len() {
            assert(name[i] == k[i]);
        } else if i == k.len() {
            assert(name[i] == '-');
        } else if i < k.len() + 1 + s.len() {
            assert(name[i] == s[i - k.len() - 1]);
            assert(s[i - k.len() - 1] == safe_char(id[i - k.len() - 1]));
        } else {
            assert(name[i] == ".json"@[i - k.len() - 1 - s.len()]);
        }
    }
    if name.contains('/') {
        let i = choose|i: int| 0 <= i < name.len() && name[i] == '/';
        assert(name[i] == safe_char(name[i]));
    }
}

/// Pages of different kinds never share a name.
pub proof fn kinds_do_not_share_names(a: PageKind, b: PageKind, x: Seq<char>, y: Seq<char>)
    requires
        spec_file_name(a, x) == spec_file_name(b, y),
    ensures
        a == b,
{
    reveal_strlit("album");
    reveal_strlit("artist");
    reveal_strlit("playlist");
    reveal_strlit("library-album");
    reveal_strlit("library-artist");
    reveal_strlit("library-playlist");
    let n = spec_file_name(a, x);
    let m = spec_file_name(b, y);
    assert(n[0] == kind_word(a)[0] && n[1] == kind_word(a)[1]);
    assert(m[0] == kind_word(b)[0] && m[1] == kind_word(b)[1]);
    if kind_word(a)[0] == 'l' {
        assert(n[8] == kind_word(a)[8] && n[9] == kind_word(a)[9]);
    }
    if kind_word(b)[0] == 'l' {
        assert(m[8] == kind_word(b)[8] && m[9] == kind_word(b)[9]);
    }
}

/// A page is the same where every row is the same thing under the same name: a
/// row that is another thing, or is called otherwise, makes it another.
pub proof fn another_row_makes_another_page(a: Seq<Entry>, b: Seq<Entry>, i: int)
    requires
        0 <= i < a.len(),
        i < b.len(),
    ensures
        a[i].spec_id() != b[i].spec_id() ==> !same_rows(a, b),
        a[i].spec_title() != b[i].spec_title() ==> !same_rows(a, b),
        a.len() != b.len() ==> !same_rows(a, b),
        same_rows(a, a),
{
    assert(same_rows(a, b) ==> same_row(a[i], b[i]));
}

/// A picture is kept under the name that its address makes, whatever the row is.
pub proof fn a_picture_is_kept_by_its_address(
    t: crate::music::types::Track,
    a: crate::music::types::Album,
    r: crate::music::types::Artist,
    p: crate::music::types::Playlist,
)
    ensures
        t.artwork matches Some(x) ==> spec_art_key(Entry::Song(t)) == Some(safe_name(x.template@)),
        a.artwork matches Some(x) ==> spec_art_key(Entry::Album(a)) == Some(safe_name(x.template@)),
        r.artwork matches Some(x) ==> spec_art_key(Entry::Artist(r)) == Some(
            safe_name(x.template@),
        ),
        p.artwork matches Some(x) ==> spec_art_key(Entry::Playlist(p)) == Some(
            safe_name(x.template@),
        ),
        t.artwork is None ==> spec_art_key(Entry::Song(t)) is None,
{
}

/// A page that was kept is accepted as it is when it is read, and one of another
/// form is not.
pub proof fn a_kept_page_is_accepted(page: CachedPage, header: Entry, entries: Seq<Entry>)
    ensures
        is_kept_as(page, header, entries) ==> (accepted(page) matches Some(p) && p.header == header
            && p.entries@ == entries),
        accepted(page) is Some ==> page.version == 1 && accepted(page) == Some(page),
        page.version != 1 ==> accepted(page) is None,
{
}

} // verus!
