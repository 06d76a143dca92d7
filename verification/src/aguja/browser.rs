//! The library pane: four sections, a filter for each, the catalogue, and the
//! page a row leads to.
use vstd::prelude::*;

use super::queue::{keep_within, scroll_to, scrolled, step, stepped, within};
use crate::entry::{copy_entries, Entry};
use crate::ipc::{CatalogFilter, Section};
use crate::sort::SortBy;
use crate::text;

verus! {

/// The section at a place of the tab strip.
pub open spec fn spec_section_at(n: int) -> Section {
    if n == 0 {
        Section::Songs
    } else if n == 1 {
        Section::Albums
    } else if n == 2 {
        Section::Artists
    } else {
        Section::Playlists
    }
}

/// The section at a place of the tab strip.
pub fn section_at(n: usize) -> (r: Section)
    ensures
        r == spec_section_at(n as int),
{
    match n {
        0 => Section::Songs,
        1 => Section::Albums,
        2 => Section::Artists,
        _ => Section::Playlists,
    }
}

/// Where a section stands on the tab strip.
pub open spec fn spec_slot(view: Section) -> int {
    match view {
        Section::Songs => 0,
        Section::Albums => 1,
        Section::Artists => 2,
        Section::Playlists => 3,
    }
}

/// Where a section stands on the tab strip.
pub fn slot(view: Section) -> (r: usize)
    ensures
        r == spec_slot(view),
{
    match view {
        Section::Songs => 0,
        Section::Albums => 1,
        Section::Artists => 2,
        Section::Playlists => 3,
    }
}

pub open spec fn spec_section_name(view: Section) -> Seq<char> {
    match view {
        Section::Songs => "SONGS"@,
        Section::Albums => "ALBUMS"@,
        Section::Artists => "ARTISTS"@,
        Section::Playlists => "PLAYLISTS"@,
    }
}

/// What a section is called on the tab strip.
pub fn section_name(view: Section) -> (r: &'static str)
    ensures
        r@ == spec_section_name(view),
{
    match view {
        Section::Songs => "SONGS",
        Section::Albums => "ALBUMS",
        Section::Artists => "ARTISTS",
        Section::Playlists => "PLAYLISTS",
    }
}

/// A section stands where it is found.
pub proof fn a_section_is_at_its_slot(view: Section)
    ensures
        0 <= spec_slot(view) < 4,
        spec_section_at(spec_slot(view)) == view,
{
}

/// What the pane shows.
#[derive(Debug, PartialEq, Eq)]
pub enum Showing {
    Library,
    /// What was found in the catalogue. Nothing is fetched until it is asked
    /// for.
    Catalog { searching: bool },
    /// An album, an artist or a playlist.
    Page { title: String, subtitle: String, loading: bool },
}

impl Showing {
    pub fn is_catalog(&self) -> (r: bool)
        ensures
            r == (self is Catalog),
    {
        matches!(self, Showing::Catalog { .. })
    }
}

/// What is typed for each list. A filter belongs to the list it was typed for;
/// the catalogue's is a question that was already asked.
#[derive(Debug)]
pub struct Filters {
    pub songs: String,
    pub albums: String,
    pub artists: String,
    pub playlists: String,
    pub catalog: String,
}

impl Filters {
    /// What is typed for a section, or for the catalogue.
    pub open spec fn get(self, slot: Option<Section>) -> String {
        match slot {
            Some(Section::Songs) => self.songs,
            Some(Section::Albums) => self.albums,
            Some(Section::Artists) => self.artists,
            Some(Section::Playlists) => self.playlists,
            None => self.catalog,
        }
    }

    /// These, with another text for a section or the catalogue.
    pub open spec fn with(self, slot: Option<Section>, t: String) -> Filters {
        match slot {
            Some(Section::Songs) => Filters { songs: t, ..self },
            Some(Section::Albums) => Filters { albums: t, ..self },
            Some(Section::Artists) => Filters { artists: t, ..self },
            Some(Section::Playlists) => Filters { playlists: t, ..self },
            None => Filters { catalog: t, ..self },
        }
    }

    pub open spec fn all_empty(self) -> bool {
        &&& self.songs@.len() == 0
        &&& self.albums@.len() == 0
        &&& self.artists@.len() == 0
        &&& self.playlists@.len() == 0
        &&& self.catalog@.len() == 0
    }

    /// Whether nothing is typed anywhere.
    pub fn none(&self) -> (r: bool)
        ensures
            r == self.all_empty(),
    {
        self.songs.as_str().is_empty() && self.albums.as_str().is_empty()
            && self.artists.as_str().is_empty() && self.playlists.as_str().is_empty()
            && self.catalog.as_str().is_empty()
    }

    fn at(&self, slot: Option<Section>) -> (r: &String)
        ensures
            *r == self.get(slot),
    {
        match slot {
            Some(Section::Songs) => &self.songs,
            Some(Section::Albums) => &self.albums,
            Some(Section::Artists) => &self.artists,
            Some(Section::Playlists) => &self.playlists,
            None => &self.catalog,
        }
    }

    fn at_mut(&mut self, slot: Option<Section>) -> (r: &mut String)
        ensures
            *r == old(self).get(slot),
            *final(self) == old(self).with(slot, *final(r)),
    {
        match slot {
            Some(Section::Songs) => &mut self.songs,
            Some(Section::Albums) => &mut self.albums,
            Some(Section::Artists) => &mut self.artists,
            Some(Section::Playlists) => &mut self.playlists,
            None => &mut self.catalog,
        }
    }
}

impl Default for Filters {
    fn default() -> (r: Self)
        ensures
            r.all_empty(),
    {
        Filters {
            songs: String::new(),
            albums: String::new(),
            artists: String::new(),
            playlists: String::new(),
            catalog: String::new(),
        }
    }
}

/// What each section is ordered by, and whether it is turned round.
#[derive(Debug, Clone, Copy, PartialEq, Eq)]
pub struct Sorts {
    pub songs: (SortBy, bool),
    pub albums: (SortBy, bool),
    pub artists: (SortBy, bool),
    pub playlists: (SortBy, bool),
}

impl Sorts {
    pub open spec fn get(self, view: Section) -> (SortBy, bool) {
        match view {
            Section::Songs => self.songs,
            Section::Albums => self.albums,
            Section::Artists => self.artists,
            Section::Playlists => self.playlists,
        }
    }

    pub open spec fn with(self, view: Section, s: (SortBy, bool)) -> Sorts {
        match view {
            Section::Songs => Sorts { songs: s, ..self },
            Section::Albums => Sorts { albums: s, ..self },
            Section::Artists => Sorts { artists: s, ..self },
            Section::Playlists => Sorts { playlists: s, ..self },
        }
    }

    fn at(&self, view: Section) -> (r: (SortBy, bool))
        ensures
            r == self.get(view),
    {
        match view {
            Section::Songs => self.songs,
            Section::Albums => self.albums,
            Section::Artists => self.artists,
            Section::Playlists => self.playlists,
        }
    }

    fn set_at(&mut self, view: Section, s: (SortBy, bool))
        ensures
            *final(self) == old(self).with(view, s),
    {
        match view {
            Section::Songs => {
                self.songs = s;
            },
            Section::Albums => {
                self.albums = s;
            },
            Section::Artists => {
                self.artists = s;
            },
            Section::Playlists => {
                self.playlists = s;
            },
        }
    }
}

/// Every section by title, none turned round.
pub open spec fn spec_default_sorts() -> Sorts {
    Sorts {
        songs: (SortBy::Title, false),
        albums: (SortBy::Title, false),
        artists: (SortBy::Title, false),
        playlists: (SortBy::Title, false),
    }
}

impl Default for Sorts {
    fn default() -> (r: Self)
        ensures
            r == spec_default_sorts(),
    {
        Sorts {
            songs: (SortBy::Title, false),
            albums: (SortBy::Title, false),
            artists: (SortBy::Title, false),
            playlists: (SortBy::Title, false),
        }
    }
}

pub struct Browser {
    pub view: Section,
    pub rows: Vec<Entry>,
    pub cursor: usize,
    pub showing: Showing,
    pub filters: Filters,
    /// Whether the filter has the keyboard.
    pub typing: bool,
    /// What the catalogue last answered. It has to outlive a visit to another
    /// tab, which overwrites `rows`.
    pub found: Vec<Entry>,
    /// Which kinds of thing a search asks for.
    pub kinds: CatalogFilter,
    /// Whether there are more results than are shown.
    pub more: bool,
    /// Whether more of them are on their way.
    pub paging: bool,
    pub sorts: Sorts,
    /// Whether the page on screen was opened from a search.
    pub from_catalog: bool,
    /// How many rows there were before the list was cut.
    pub total: usize,
    pub offset: usize,
}

impl Default for Browser {
    fn default() -> (r: Self)
        ensures
            r.is_fresh(),
            r.view == Section::Songs,
            r.kinds == CatalogFilter::All,
            r.sorts == spec_default_sorts(),
    {
        Browser {
            view: Section::Songs,
            rows: Vec::new(),
            cursor: 0,
            showing: Showing::Library,
            filters: Filters::default(),
            typing: false,
            found: Vec::new(),
            kinds: CatalogFilter::All,
            more: false,
            paging: false,
            sorts: Sorts::default(),
            from_catalog: false,
            total: 0,
            offset: 0,
        }
    }
}

/// How close to the end the cursor has to be for more to be asked for.
pub const LOOKAHEAD: usize = 8;

/// The ids that the rows of a list stream by, where they do.
pub open spec fn playable_ids(rows: Seq<Entry>) -> Seq<Seq<char>>
    decreases rows.len(),
{
    if rows.len() == 0 {
        Seq::empty()
    } else {
        let before = playable_ids(rows.drop_last());
        match rows.last().spec_catalog_id() {
            Some(id) => before.push(id),
            None => before,
        }
    }
}

/// The key after `by` among `keys`, round and round.
pub open spec fn next_key(keys: Seq<SortBy>, by: SortBy) -> SortBy {
    let at = if keys.contains(by) {
        keys.index_of(by)
    } else {
        0
    };
    keys[(at + 1) % (keys.len() as int)]
}

impl Browser {
    /// Nothing shown, nothing typed, nothing asked for.
    pub open spec fn is_fresh(self) -> bool {
        &&& self.rows@.len() == 0
        &&& self.cursor == 0
        &&& self.showing is Library
        &&& self.filters.all_empty()
        &&& !self.typing
        &&& self.found@.len() == 0
        &&& !self.more
        &&& !self.paging
        &&& !self.from_catalog
        &&& self.total == 0
        &&& self.offset == 0
    }

    /// Forget everything of the account, and keep what was chosen on screen.
    pub fn clear_account_state(&mut self)
        ensures
            final(self).is_fresh(),
            final(self).view == old(self).view,
            final(self).kinds == old(self).kinds,
            final(self).sorts == old(self).sorts,
    {
        let mut fresh = Browser::default();
        fresh.view = self.view;
        fresh.kinds = self.kinds;
        fresh.sorts = self.sorts;
        *self = fresh;
    }

    /// Which list the text on screen belongs to.
    pub open spec fn spec_filter_slot(self) -> Option<Section> {
        if self.showing is Catalog {
            None
        } else {
            Some(self.view)
        }
    }

    fn filter_slot(&self) -> (r: Option<Section>)
        ensures
            r == self.spec_filter_slot(),
    {
        if self.showing.is_catalog() {
            None
        } else {
            Some(self.view)
        }
    }

    /// What is typed for the list on screen.
    pub open spec fn spec_filter(self) -> Seq<char> {
        self.filters.get(self.spec_filter_slot())@
    }

    /// What is typed for the list on screen.
    pub fn filter(&self) -> (r: &str)
        ensures
            r@ == self.spec_filter(),
    {
        self.filters.at(self.filter_slot()).as_str()
    }

    /// This browser with another text for the list on screen.
    pub open spec fn with_filter(self, t: String) -> Browser {
        Browser { filters: self.filters.with(self.spec_filter_slot(), t), ..self }
    }

    /// What is typed for the list on screen, to be edited.
    pub fn filter_mut(&mut self) -> (r: &mut String)
        ensures
            *r == old(self).filters.get(old(self).spec_filter_slot()),
            *final(self) == old(self).with_filter(*final(r)),
    {
        let at = self.filter_slot();
        self.filters.at_mut(at)
    }

    /// What the section on screen is ordered by, and whether it is turned
    /// round.
    pub open spec fn spec_sort(self) -> (SortBy, bool) {
        self.sorts.get(self.view)
    }

    pub fn sort(&self) -> (r: (SortBy, bool))
        ensures
            r == self.spec_sort(),
    {
        self.sorts.at(self.view)
    }

    /// Step to the next kind of thing a search asks for.
    pub fn cycle_kinds(&mut self)
        ensures
            *final(self) == (Browser { kinds: old(self).kinds.spec_next(), ..*old(self) }),
    {
        self.kinds = self.kinds.next();
    }

    pub open spec fn spec_wants_more(self) -> bool {
        &&& self.more
        &&& !self.paging
        &&& self.showing is Catalog
        &&& self.cursor + LOOKAHEAD >= self.rows@.len()
    }

    /// Whether the cursor is close enough to the end for more to be asked for,
    /// and more is neither missing nor on its way.
    pub fn wants_more(&self) -> (r: bool)
        ensures
            r == self.spec_wants_more(),
    {
        self.more && !self.paging && self.showing.is_catalog() && (self.rows.len() <= LOOKAHEAD
            || self.cursor >= self.rows.len() - LOOKAHEAD)
    }

    /// The question asked of the catalogue, whatever is on screen.
    pub fn catalog_query(&self) -> (r: String)
        ensures
            r@ == text::trimmed(self.filters.catalog@),
    {
        text::trim(self.filters.catalog.as_str())
    }

    /// Whether this is `o` but for the rows and how many there were.
    pub open spec fn same_but_rows(self, o: Browser) -> bool {
        self == Browser { rows: self.rows, total: self.total, ..o }
    }

    /// Throw away what the catalogue answered, and what is on screen with it.
    pub fn forget_found(&mut self)
        ensures
            final(self).found@.len() == 0,
            final(self).rows@.len() == 0,
            final(self).total == 0,
            *final(self) == (Browser {
                found: final(self).found,
                rows: final(self).rows,
                total: 0,
                ..*old(self)
            }),
    {
        self.found = Vec::new();
        self.restore_found();
    }

    /// Keep what the catalogue answered, and show it if the catalogue is what
    /// is on screen.
    pub fn keep_found(&mut self, entries: Vec<Entry>, showing: bool)
        ensures
            if showing {
                &&& final(self).rows@ == entries@
                &&& final(self).total == entries@.len()
                &&& final(self).same_but_rows(Browser { found: entries, ..*old(self) })
            } else {
                *final(self) == (Browser { found: entries, ..*old(self) })
            },
    {
        self.found = entries;
        if showing {
            self.restore_found();
        }
    }

    /// Put a further page behind what was found, and show it if the catalogue
    /// is what is on screen.
    pub fn extend(&mut self, rows: Vec<Entry>, showing: bool)
        ensures
            final(self).found@ == old(self).found@ + rows@,
            if showing {
                &&& final(self).rows@ == final(self).found@
                &&& final(self).total == final(self).found@.len()
                &&& final(self).same_but_rows(
                    Browser { found: final(self).found, ..*old(self) },
                )
            } else {
                *final(self) == (Browser { found: final(self).found, ..*old(self) })
            },
    {
        let mut rows = rows;
        self.found.append(&mut rows);
        if showing {
            self.restore_found();
        }
    }

    /// Put what the catalogue answered back on screen.
    pub fn restore_found(&mut self)
        ensures
            final(self).rows@ == old(self).found@,
            final(self).total == old(self).found@.len(),
            final(self).same_but_rows(*old(self)),
    {
        self.rows = copy_entries(&self.found);
        self.total = self.rows.len();
    }

    /// Step to the next key the section can be ordered by. Answers false where
    /// there is only one.
    pub fn cycle_sort(&mut self) -> (r: bool)
        ensures
            r == (SortBy::spec_for_view(old(self).view).len() >= 2),
            *final(self) == if r {
                Browser {
                    sorts: old(self).sorts.with(
                        old(self).view,
                        (
                            next_key(
                                SortBy::spec_for_view(old(self).view),
                                old(self).spec_sort().0,
                            ),
                            old(self).spec_sort().1,
                        ),
                    ),
                    ..*old(self)
                }
            } else {
                *old(self)
            },
    {
        let keys = SortBy::for_view(self.view);
        if keys.len() < 2 {
            return false;
        }
        let (by, reversed) = self.sort();
        let mut at: usize = 0;
        while at < keys.len() && keys[at] != by
            invariant
                at <= keys@.len(),
                forall|j: int| 0 <= j < at ==> keys@[j] != by,
            decreases keys@.len() - at,
        {
            at += 1;
        }
        proof {
            if at < keys@.len() {
                assert(keys@.contains(by));
                keys_are_distinct(self.view);
                assert(keys@.index_of(by) == at);
            } else {
                assert(!keys@.contains(by));
            }
        }
        if at == keys.len() {
            at = 0;
        }
        let next = keys[(at + 1) % keys.len()];
        self.sorts.set_at(self.view, (next, reversed));
        true
    }

    /// Turn the section round.
    pub fn flip_sort(&mut self)
        ensures
            *final(self) == (Browser {
                sorts: old(self).sorts.with(
                    old(self).view,
                    (old(self).spec_sort().0, !old(self).spec_sort().1),
                ),
                ..*old(self)
            }),
    {
        let (by, reversed) = self.sort();
        self.sorts.set_at(self.view, (by, !reversed));
    }

    /// Show these rows, and keep the cursor among them.
    pub fn replace(&mut self, rows: Vec<Entry>, total: usize)
        ensures
            *final(self) == (Browser {
                rows,
                total,
                cursor: within(old(self).cursor as int, rows@.len() as int) as usize,
                ..*old(self)
            }),
    {
        self.rows = rows;
        self.total = total;
        self.cursor = keep_within(self.cursor, self.rows.len());
    }

    /// Look at the list from the top.
    pub fn reset(&mut self)
        ensures
            *final(self) == (Browser { cursor: 0, offset: 0, ..*old(self) }),
    {
        self.cursor = 0;
        self.offset = 0;
    }

    /// This browser with the cursor moved.
    pub open spec fn moved(self, delta: int) -> Browser {
        if self.rows@.len() == 0 {
            self
        } else {
            Browser {
                cursor: stepped(self.cursor as int, delta, self.rows@.len() as int) as usize,
                ..self
            }
        }
    }

    /// Move the cursor, among the rows.
    pub fn move_cursor(&mut self, delta: isize)
        ensures
            *final(self) == old(self).moved(delta as int),
    {
        if self.rows.is_empty() {
            return;
        }
        self.cursor = step(self.cursor, delta, self.rows.len());
    }

    /// The row the cursor is on.
    pub fn selected(&self) -> (r: Option<&Entry>)
        ensures
            match r {
                Some(e) => self.cursor < self.rows@.len() && *e == self.rows@[self.cursor as int],
                None => self.cursor >= self.rows@.len(),
            },
    {
        if self.cursor < self.rows.len() {
            Some(&self.rows[self.cursor])
        } else {
            None
        }
    }

    /// How many rows are before the cursor.
    pub open spec fn above(self) -> int {
        if self.cursor < self.rows@.len() {
            self.cursor as int
        } else {
            self.rows@.len() as int
        }
    }

    /// The ids to queue, and where the selected row lands among them. Rows that
    /// do not stream count for neither.
    pub fn queue_from_here(&self) -> (r: (Vec<String>, usize))
        ensures
            text::views(r.0@) == playable_ids(self.rows@),
            r.1 == playable_ids(self.rows@.take(self.above())).len(),
    {
        let mut ids: Vec<String> = Vec::new();
        let mut index: usize = 0;
        let mut i: usize = 0;
        proof {
            assert(self.rows@.take(0) =~= Seq::<Entry>::empty());
            assert(text::views(ids@) =~= playable_ids(self.rows@.take(0)));
        }
        while i < self.rows.len()
            invariant
                i <= self.rows@.len(),
                text::views(ids@) == playable_ids(self.rows@.take(i as int)),
                index == playable_ids(
                    self.rows@.take(
                        if i < self.above() {
                            i as int
                        } else {
                            self.above()
                        },
                    ),
                ).len(),
                index <= i,
            decreases self.rows@.len() - i,
        {
            proof {
                text::take_step(self.rows@, i as int);
                assert(self.rows@.take(i + 1).drop_last() =~= self.rows@.take(i as int));
            }
            if let Some(id) = self.rows[i].catalog_id() {
                let ghost ids0 = ids@;
                ids.push(id.to_owned());
                proof {
                    assert(text::views(ids@) =~= text::views(ids0).push(id@));
                }
                if i < self.cursor {
                    index += 1;
                }
            }
            i += 1;
        }
        assert(self.rows@.take(i as int) =~= self.rows@);
        (ids, index)
    }

    /// Scroll so that the cursor is visible in `height` rows.
    pub fn scroll(&mut self, height: usize)
        ensures
            *final(self) == (Browser {
                offset: scrolled(
                    old(self).offset as int,
                    old(self).cursor as int,
                    old(self).rows@.len() as int,
                    height as int,
                ) as usize,
                ..*old(self)
            }),
    {
        self.offset = scroll_to(self.offset, self.cursor, self.rows.len(), height);
    }
}

proof fn keys_are_distinct(view: Section)
    ensures
        SortBy::spec_for_view(view).no_duplicates(),
{
}

/// The row that is played is the selected one, however many rows before it do
/// not stream.
pub proof fn the_selected_row_is_the_one_that_plays(rows: Seq<Entry>, cursor: int)
    requires
        0 <= cursor < rows.len(),
        rows[cursor].spec_catalog_id() is Some,
    ensures
        ({
            let index = playable_ids(rows.take(cursor)).len() as int;
            &&& index < playable_ids(rows).len()
            &&& Some(playable_ids(rows)[index]) == rows[cursor].spec_catalog_id()
        }),
    decreases rows.len(),
{
    if cursor == rows.len() - 1 {
        assert(rows.take(cursor) =~= rows.drop_last());
    } else {
        the_selected_row_is_the_one_that_plays(rows.drop_last(), cursor);
        assert(rows.drop_last().take(cursor) =~= rows.take(cursor));
    }
}

/// What is typed for one list stays there: it does not show in another, and
/// typing in another does not change it.
pub proof fn each_list_has_its_own_filter(
    f: Filters,
    a: Option<Section>,
    b: Option<Section>,
    t: String,
)
    ensures
        f.with(a, t).get(a) == t,
        a != b ==> f.with(a, t).get(b) == f.get(b),
{
}

/// What one section is ordered by is not what another is.
pub proof fn each_section_has_its_own_order(
    s: Sorts,
    a: Section,
    b: Section,
    by: (SortBy, bool),
)
    ensures
        s.with(a, by).get(a) == by,
        a != b ==> s.with(a, by).get(b) == s.get(b),
{
}

/// More is asked for once the cursor is eight rows from the end or closer, in the
/// catalogue, where there is more and none is on its way.
pub proof fn more_is_asked_for_near_the_end(b: Browser)
    ensures
        b.spec_wants_more() ==> b.more && !b.paging && b.showing is Catalog,
        b.more && !b.paging && b.showing is Catalog && b.rows@.len() - b.cursor <= 8
            ==> b.spec_wants_more(),
        b.rows@.len() - b.cursor > 8 ==> !b.spec_wants_more(),
{
}

/// Going on from the last key comes to the first, and from any other to the one
/// behind it.
pub proof fn the_keys_go_round(view: Section, i: int)
    requires
        0 <= i < SortBy::spec_for_view(view).len(),
    ensures
        ({
            let keys = SortBy::spec_for_view(view);
            let n = keys.len() as int;
            &&& i + 1 < n ==> next_key(keys, keys[i]) == keys[i + 1]
            &&& i + 1 == n ==> next_key(keys, keys[i]) == keys[0]
        }),
{
    let keys = SortBy::spec_for_view(view);
    let by = keys[i];
    assert(keys.contains(by));
    let at = keys.index_of(by);
    assert(0 <= at < keys.len() && keys[at] == by);
    assert(at == i);
    let n = keys.len() as int;
    if i + 1 < n {
        vstd::arithmetic::div_mod::lemma_small_mod((i + 1) as nat, n as nat);
    } else {
        vstd::arithmetic::div_mod::lemma_mod_self_0(n);
    }
}

/// What plays of a list are the ids of its rows that stream, in their order.
pub proof fn what_plays_is_what_streams(rows: Seq<Entry>, e: Entry)
    ensures
        e.spec_catalog_id() matches Some(id) ==> playable_ids(rows.push(e)) == playable_ids(
            rows,
        ).push(id),
        e.spec_catalog_id() is None ==> playable_ids(rows.push(e)) == playable_ids(rows),
        playable_ids(Seq::empty()).len() == 0,
{
    assert(rows.push(e).drop_last() =~= rows);
}

/// The cursor moves by what is asked and stops at either end.
pub proof fn the_cursor_stops_at_the_ends(b: Browser, delta: int)
    requires
        b.cursor < b.rows@.len() <= usize::MAX,
    ensures
        0 <= b.cursor + delta < b.rows@.len() ==> b.moved(delta).cursor == b.cursor + delta,
        b.cursor + delta < 0 ==> b.moved(delta).cursor == 0,
        b.cursor + delta >= b.rows@.len() ==> b.moved(delta).cursor == b.rows@.len() - 1,
        b.moved(delta).rows == b.rows,
        b.moved(delta).offset == b.offset,
{
}

} // verus!
