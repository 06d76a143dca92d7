//! Answers of Apple Music in which songs, albums, artists and playlists are
//! mixed: what was played lately, recommendations, charts.
//!
//! A resource often comes as nothing but an id and a kind; such a stub becomes
//! a row only once the resource itself was asked for.
use vstd::prelude::*;

use crate::entry::{Entry, EntryView};
use crate::json::{self, Json};
use crate::music::attributes;
use crate::music::types::{seen, seen_opt};
use crate::text;

verus! {

/// A resource that says what it is.
#[derive(Debug)]
pub struct TypedResource<'a> {
    pub id: &'a str,
    pub kind: &'a str,
    pub attributes: Option<&'a Json>,
    pub relationships: Option<&'a Json>,
}

/// What a resource says.
pub struct Typed {
    pub id: Seq<char>,
    pub kind: Seq<char>,
    pub attributes: Option<Json>,
    pub relationships: Option<Json>,
}

impl<'a> View for TypedResource<'a> {
    type V = Typed;

    open spec fn view(&self) -> Typed {
        Typed {
            id: self.id@,
            kind: self.kind@,
            attributes: json::held(self.attributes),
            relationships: json::held(self.relationships),
        }
    }
}

/// A value, if it is there and not null.
pub open spec fn not_null(v: Option<Json>) -> Option<Json> {
    match v {
        Some(Json::Null) => None,
        other => other,
    }
}

/// A value, if it is there and not null.
pub fn unless_null<'a>(v: Option<&'a Json>) -> (r: Option<&'a Json>)
    ensures
        json::held(r) == not_null(json::held(v)),
{
    match v {
        Some(j) => if j.is_null() {
            None
        } else {
            Some(j)
        },
        None => None,
    }
}

/// A member, if it is there and not null.
pub open spec fn present(v: Json, key: Seq<char>) -> Option<Json> {
    not_null(json::in_object(v, key))
}

/// A member, if it is there and not null.
pub fn present_in<'a>(v: &'a Json, key: &str) -> (r: Option<&'a Json>)
    ensures
        json::held(r) == present(*v, key@),
{
    unless_null(v.get(key))
}

/// The resource that a value is: it has an id and a kind. Its parts go by their
/// names or, in a list, one after the other.
pub open spec fn typed_in(v: Json) -> Option<Typed> {
    match (
        json::fits(v, 0, 2, 4),
        json::text_in(json::field_in(v, 0, "id"@)),
        json::text_in(json::field_in(v, 1, "type"@)),
    ) {
        (true, Some(id), Some(kind)) => Some(
            Typed {
                id,
                kind,
                attributes: not_null(json::field_in(v, 2, "attributes"@)),
                relationships: not_null(json::field_in(v, 3, "relationships"@)),
            },
        ),
        _ => None,
    }
}

/// The resource that a value is.
pub fn typed<'a>(v: &'a Json) -> (r: Option<TypedResource<'a>>)
    ensures
        seen_opt(r) == typed_in(*v),
{
    if !json::fitting(v, 0, 2, 4) {
        return None;
    }
    match (json::text_of(json::field(v, 0, "id")), json::text_of(json::field(v, 1, "type"))) {
        (Some(id), Some(kind)) => Some(
            TypedResource {
                id,
                kind,
                attributes: unless_null(json::field(v, 2, "attributes")),
                relationships: unless_null(json::field(v, 3, "relationships")),
            },
        ),
        _ => None,
    }
}

/// The resources that a list holds, if it holds nothing else.
pub open spec fn all_typed(items: Seq<Json>) -> Option<Seq<Typed>>
    decreases items.len(),
{
    if items.len() == 0 {
        Some(Seq::empty())
    } else {
        match (all_typed(items.drop_last()), typed_in(items.last())) {
            (Some(r), Some(t)) => Some(r.push(t)),
            _ => None,
        }
    }
}

/// The resources that a value lists: none, where it is no list of resources.
pub open spec fn resources_in(v: Option<Json>) -> Seq<Typed> {
    match json::list_in(v) {
        Some(l) => match all_typed(l) {
            Some(r) => r,
            None => Seq::empty(),
        },
        None => Seq::empty(),
    }
}

proof fn not_all_typed(items: Seq<Json>, i: int)
    requires
        0 <= i < items.len(),
        typed_in(items[i]) is None,
    ensures
        all_typed(items) is None,
    decreases items.len(),
{
    if i < items.len() - 1 {
        not_all_typed(items.drop_last(), i);
    }
}

/// The resources that a value lists.
pub fn resources<'a>(v: Option<&'a Json>) -> (r: Vec<TypedResource<'a>>)
    ensures
        seen(r@) == resources_in(json::held(v)),
{
    let mut out: Vec<TypedResource<'a>> = Vec::new();
    assert(seen(out@) =~= Seq::<Typed>::empty());
    match json::list_of(v) {
        None => {},
        Some(l) => {
            let mut i: usize = 0;
            assert(l@.take(0) =~= Seq::<Json>::empty());
            while i < l.len()
                invariant
                    i <= l@.len(),
                    json::list_in(json::held(v)) == Some(l@),
                    all_typed(l@.take(i as int)) == Some(seen(out@)),
                decreases l@.len() - i,
            {
                proof {
                    text::take_step(l@, i as int);
                    assert(l@.take(i + 1).drop_last() =~= l@.take(i as int));
                }
                match typed(&l[i]) {
                    Some(t) => {
                        let ghost out0 = out@;
                        out.push(t);
                        assert(seen(out@) =~= seen(out0).push(t@));
                    },
                    None => {
                        proof {
                            not_all_typed(l@, i as int);
                        }
                        let none: Vec<TypedResource<'a>> = Vec::new();
                        assert(seen(none@) =~= Seq::<Typed>::empty());
                        return none;
                    },
                }
                i += 1;
            }
            assert(l@.take(i as int) =~= l@);
        },
    }
    out
}

/// Whether a kind is one of the library.
pub open spec fn is_library(kind: Seq<char>) -> bool {
    "library-"@.is_prefix_of(kind)
}

/// The row that a resource is. A stub, and a kind that is no row, is none.
pub open spec fn entry_in(t: Typed) -> Option<EntryView> {
    let library = is_library(t.kind);
    match t.attributes {
        None => None,
        Some(attrs) => if t.kind == "songs"@ || t.kind == "library-songs"@ {
            match attributes::song_in(t.id, attrs, library) {
                Some(s) => Some(EntryView::Song(s)),
                None => None,
            }
        } else if t.kind == "albums"@ || t.kind == "library-albums"@ {
            match attributes::album_in(t.id, attrs, library) {
                Some(a) => Some(EntryView::Album(a)),
                None => None,
            }
        } else if t.kind == "playlists"@ || t.kind == "library-playlists"@ {
            match attributes::playlist_in(t.id, attrs, library) {
                Some(p) => Some(EntryView::Playlist(p)),
                None => None,
            }
        } else if t.kind == "artists"@ || t.kind == "library-artists"@ {
            match attributes::artist_in(t.id, attrs, library) {
                Some(a) => Some(EntryView::Artist(a)),
                None => None,
            }
        } else {
            None
        },
    }
}

impl<'a> TypedResource<'a> {
    /// The row that a resource is.
    pub fn into_entry(&self) -> (r: Option<Entry>)
        ensures
            seen_opt(r) == entry_in(self@),
    {
        let library = text::starts_with(self.kind, "library-");
        match self.attributes {
            None => None,
            Some(attrs) => if text::same(self.kind, "songs") || text::same(
                self.kind,
                "library-songs",
            ) {
                match attributes::song(self.id, attrs, library) {
                    Some(s) => Some(Entry::Song(s)),
                    None => None,
                }
            } else if text::same(self.kind, "albums") || text::same(self.kind, "library-albums") {
                match attributes::album(self.id, attrs, library) {
                    Some(a) => Some(Entry::Album(a)),
                    None => None,
                }
            } else if text::same(self.kind, "playlists") || text::same(
                self.kind,
                "library-playlists",
            ) {
                match attributes::playlist(self.id, attrs, library) {
                    Some(p) => Some(Entry::Playlist(p)),
                    None => None,
                }
            } else if text::same(self.kind, "artists") || text::same(self.kind, "library-artists") {
                match attributes::artist(self.id, attrs, library) {
                    Some(a) => Some(Entry::Artist(a)),
                    None => None,
                }
            } else {
                None
            },
        }
    }
}

/// The rows that resources are, in order.
pub fn entries_from_list(list: &Vec<TypedResource<'_>>) -> (r: Vec<Entry>)
    ensures
        seen(r@) == json::chosen(seen(list@), |t: Typed| entry_in(t)),
{
    let ghost g = |t: Typed| entry_in(t);
    let ghost all = seen(list@);
    let mut out: Vec<Entry> = Vec::new();
    let mut i: usize = 0;
    proof {
        json::chosen_of_none(all, g);
        assert(seen(out@) =~= Seq::<EntryView>::empty());
    }
    while i < list.len()
        invariant
            i <= list@.len(),
            all == seen(list@),
            g == (|t: Typed| entry_in(t)),
            seen(out@) == json::chosen(all.take(i as int), g),
        decreases list@.len() - i,
    {
        proof {
            json::chosen_step(all, g, i as int);
            assert(all[i as int] == list@[i as int]@);
        }
        if let Some(e) = list[i].into_entry() {
            let ghost out0 = out@;
            out.push(e);
            assert(seen(out@) =~= seen(out0).push(e@));
        }
        i += 1;
    }
    proof {
        json::chosen_of_none(all, g);
    }
    out
}

/// The id of a stub of one of two kinds.
pub open spec fn stub_of(t: Typed, kind: Seq<char>, library_kind: Seq<char>) -> Option<Seq<char>> {
    if t.attributes is None && (t.kind == kind || t.kind == library_kind) {
        Some(t.id)
    } else {
        None
    }
}

fn stubs(list: &Vec<TypedResource<'_>>, kind: &str, library_kind: &str) -> (r: Vec<String>)
    ensures
        text::views(r@) == json::chosen(
            seen(list@),
            |t: Typed| stub_of(t, kind@, library_kind@),
        ),
{
    let ghost g = |t: Typed| stub_of(t, kind@, library_kind@);
    let ghost all = seen(list@);
    let mut out: Vec<String> = Vec::new();
    let mut i: usize = 0;
    proof {
        json::chosen_of_none(all, g);
        assert(text::views(out@) =~= Seq::<Seq<char>>::empty());
    }
    while i < list.len()
        invariant
            i <= list@.len(),
            all == seen(list@),
            g == (|t: Typed| stub_of(t, kind@, library_kind@)),
            text::views(out@) == json::chosen(all.take(i as int), g),
        decreases list@.len() - i,
    {
        let t = &list[i];
        proof {
            json::chosen_step(all, g, i as int);
            assert(all[i as int] == t@);
        }
        if t.attributes.is_none() && (text::same(t.kind, kind) || text::same(
            t.kind,
            library_kind,
        )) {
            let ghost out0 = out@;
            out.push(t.id.to_owned());
            assert(text::views(out@) =~= text::views(out0).push(t.id@));
        }
        i += 1;
    }
    proof {
        json::chosen_of_none(all, g);
    }
    out
}

/// The ids of stubs: of songs, of albums, and of playlists.
pub fn stub_ids(list: &Vec<TypedResource<'_>>) -> (r: (Vec<String>, Vec<String>, Vec<String>))
    ensures
        text::views(r.0@) == json::chosen(
            seen(list@),
            |t: Typed| stub_of(t, "songs"@, "library-songs"@),
        ),
        text::views(r.1@) == json::chosen(
            seen(list@),
            |t: Typed| stub_of(t, "albums"@, "library-albums"@),
        ),
        text::views(r.2@) == json::chosen(
            seen(list@),
            |t: Typed| stub_of(t, "playlists"@, "library-playlists"@),
        ),
{
    (
        stubs(list, "songs", "library-songs"),
        stubs(list, "albums", "library-albums"),
        stubs(list, "playlists", "library-playlists"),
    )
}

/// A stub is asked for, and is no row; what is a row is not asked for.
pub proof fn a_stub_is_no_row(t: Typed, kind: Seq<char>, library_kind: Seq<char>)
    ensures
        stub_of(t, kind, library_kind) is Some ==> entry_in(t) is None,
        entry_in(t) is Some ==> stub_of(t, kind, library_kind) is None,
{
}

/// A member of the contents of a recommendation.
pub open spec fn contents_in(t: Typed, key: Seq<char>) -> Option<Json> {
    json::under(json::under(t.relationships, "contents"@), key)
}

/// The resources of a recommendation.
pub fn contents_resources<'a>(resource: &TypedResource<'a>) -> (r: Vec<TypedResource<'a>>)
    ensures
        seen(r@) == resources_in(contents_in(resource@, "data"@)),
{
    resources(json::at(json::at(resource.relationships, "contents"), "data"))
}

/// The rows of a recommendation.
pub fn contents_of(resource: &TypedResource<'_>) -> (r: Vec<Entry>)
    ensures
        seen(r@) == json::chosen(
            resources_in(contents_in(resource@, "data"@)),
            |t: Typed| entry_in(t),
        ),
{
    entries_from_list(&contents_resources(resource))
}

/// An address of Apple Music's as a path: without the host and the version.
pub open spec fn path_in(href: Seq<char>) -> Seq<char> {
    match text::after_prefix(href, "https://api.music.apple.com/v1"@) {
        Some(p) => p,
        None => match text::after_prefix(href, "/v1"@) {
            Some(p) => p,
            None => href,
        },
    }
}

/// An address of Apple Music's as a path.
pub fn api_path(href: &str) -> (r: String)
    ensures
        r@ == path_in(href@),
{
    match text::strip_prefix(href, "https://api.music.apple.com/v1") {
        Some(p) => p,
        None => match text::strip_prefix(href, "/v1") {
            Some(p) => p,
            None => href.to_owned(),
        },
    }
}

fn path_at(v: Option<&Json>) -> (r: Option<String>)
    ensures
        text::opt_view(r) == match json::text_in(json::held(v)) {
            Some(s) => Some(path_in(s)),
            None => None,
        },
{
    match json::text_of(v) {
        Some(s) => Some(api_path(s)),
        None => None,
    }
}

/// Where the contents of a recommendation go on.
pub fn next_path(resource: &TypedResource<'_>) -> (r: Option<String>)
    ensures
        text::opt_view(r) == match json::text_in(contents_in(resource@, "next"@)) {
            Some(s) => Some(path_in(s)),
            None => None,
        },
{
    path_at(json::at(json::at(resource.relationships, "contents"), "next"))
}

/// Where the contents of a recommendation are.
pub fn contents_href(resource: &TypedResource<'_>) -> (r: Option<String>)
    ensures
        text::opt_view(r) == match json::text_in(contents_in(resource@, "href"@)) {
            Some(s) => Some(path_in(s)),
            None => None,
        },
{
    path_at(json::at(json::at(resource.relationships, "contents"), "href"))
}

/// The resources of charts.
pub open spec fn of_charts(charts: Seq<Json>) -> Seq<Typed>
    decreases charts.len(),
{
    if charts.len() == 0 {
        Seq::empty()
    } else {
        of_charts(charts.drop_last()) + resources_in(
            json::in_object(charts.last(), "data"@),
        )
    }
}

/// The charts of a kind: a list of them, or one.
pub open spec fn charts_in(results: Json, key: Seq<char>) -> Seq<Json> {
    match json::in_object(results, key) {
        None => Seq::empty(),
        Some(node) => match json::list_in(Some(node)) {
            Some(l) => l,
            None => seq![node],
        },
    }
}

/// The resources of the charts of a kind.
pub fn chart_resources<'a>(results: &'a Json, key: &str) -> (r: Vec<TypedResource<'a>>)
    ensures
        seen(r@) == of_charts(charts_in(*results, key@)),
{
    match results.get(key) {
        None => {
            let r: Vec<TypedResource<'a>> = Vec::new();
            assert(seen(r@) =~= Seq::<Typed>::empty());
            r
        },
        Some(node) => match json::list_of(Some(node)) {
            None => {
                let r = resources(node.get("data"));
                proof {
                    let one = seq![*node];
                    assert(one.drop_last() =~= Seq::<Json>::empty());
                    reveal_with_fuel(of_charts, 2);
                    assert(of_charts(one) =~= resources_in(json::in_object(*node, "data"@)));
                }
                r
            },
            Some(l) => {
                let mut out: Vec<TypedResource<'a>> = Vec::new();
                let mut i: usize = 0;
                proof {
                    assert(l@.take(0) =~= Seq::<Json>::empty());
                    assert(seen(out@) =~= Seq::<Typed>::empty());
                }
                while i < l.len()
                    invariant
                        i <= l@.len(),
                        seen(out@) == of_charts(l@.take(i as int)),
                    decreases l@.len() - i,
                {
                    proof {
                        text::take_step(l@, i as int);
                        assert(l@.take(i + 1).drop_last() =~= l@.take(i as int));
                    }
                    let mut more = resources(l[i].get("data"));
                    let ghost out0 = out@;
                    let ghost more0 = more@;
                    out.append(&mut more);
                    assert(seen(out@) =~= seen(out0) + seen(more0));
                    i += 1;
                }
                assert(l@.take(i as int) =~= l@);
                out
            },
        },
    }
}

/// Whether an id is one of the library: `i`, `l` or `p`, a dot, and something
/// behind it. A catalog playlist begins with `pl.` and is none.
pub open spec fn is_library_id(id: Seq<char>) -> bool {
    id.len() > 2 && id[1] == '.' && (id[0] == 'i' || id[0] == 'l' || id[0] == 'p')
}

/// Whether an id is one of the library.
pub fn looks_library_id(id: &str) -> (r: bool)
    ensures
        r == is_library_id(id@),
{
    let v = text::chars(id);
    v.len() > 2 && v[1] == '.' && (v[0] == 'i' || v[0] == 'l' || v[0] == 'p')
}

/// A resource is a row of the kind that it says, and is of the library where its
/// kind says so.
pub proof fn a_resource_is_a_row_of_its_kind(t: Typed, attrs: Json)
    requires
        t.attributes == Some(attrs),
    ensures
        t.kind == "songs"@ ==> entry_in(t) == match attributes::song_in(t.id, attrs, false) {
            Some(x) => Some(EntryView::Song(x)),
            None => None,
        },
        t.kind == "library-songs"@ ==> entry_in(t) == match attributes::song_in(t.id, attrs, true) {
            Some(x) => Some(EntryView::Song(x)),
            None => None,
        },
        t.kind == "albums"@ ==> entry_in(t) == match attributes::album_in(t.id, attrs, false) {
            Some(x) => Some(EntryView::Album(x)),
            None => None,
        },
        t.kind == "library-albums"@ ==> entry_in(t) == match attributes::album_in(t.id, attrs, true) {
            Some(x) => Some(EntryView::Album(x)),
            None => None,
        },
        t.kind == "playlists"@ ==> entry_in(t) == match attributes::playlist_in(t.id, attrs, false) {
            Some(x) => Some(EntryView::Playlist(x)),
            None => None,
        },
        t.kind == "library-playlists"@ ==> entry_in(t) == match attributes::playlist_in(t.id, attrs, true) {
            Some(x) => Some(EntryView::Playlist(x)),
            None => None,
        },
        t.kind == "artists"@ ==> entry_in(t) == match attributes::artist_in(t.id, attrs, false) {
            Some(x) => Some(EntryView::Artist(x)),
            None => None,
        },
        t.kind == "library-artists"@ ==> entry_in(t) == match attributes::artist_in(t.id, attrs, true) {
            Some(x) => Some(EntryView::Artist(x)),
            None => None,
        },
        t.kind == "stations"@ ==> entry_in(t) is None,
{
    reveal_strlit("songs");
    reveal_strlit("albums");
    reveal_strlit("playlists");
    reveal_strlit("artists");
    reveal_strlit("stations");
    reveal_strlit("library-");
    reveal_strlit("library-songs");
    reveal_strlit("library-albums");
    reveal_strlit("library-playlists");
    reveal_strlit("library-artists");
    assert("songs"@.len() == 5 && "albums"@.len() == 6 && "artists"@.len() == 7);
    assert("playlists"@[0] == 'p' && "library-"@[0] == 'l' && "stations"@[0] == 's');
    assert("library-songs"@[8] == 's');
    assert("library-albums"@[9] == 'l');
    assert("library-artists"@[9] == 'r');
    assert("library-playlists"@[8] == 'p');
    assert("library-"@.is_prefix_of("library-songs"@));
    assert("library-"@.is_prefix_of("library-albums"@));
    assert("library-"@.is_prefix_of("library-playlists"@));
    assert("library-"@.is_prefix_of("library-artists"@));
    assert(!"library-"@.is_prefix_of("songs"@));
    assert(!"library-"@.is_prefix_of("albums"@));
    assert(!"library-"@.is_prefix_of("artists"@));
    assert("library-albums"@[8] == 'a' && "library-artists"@[8] == 'a');
    assert("library-songs"@ != "library-albums"@) by {
        assert("library-songs"@[8] != "library-albums"@[8]);
    }
    assert("library-songs"@.len() == 13 && "library-albums"@.len() == 14);
    assert("library-artists"@.len() == 15 && "library-playlists"@.len() == 17);
    assert("playlists"@.len() == 9 && "stations"@.len() == 8);
    assert(!"library-"@.is_prefix_of("playlists"@)) by {
        assert("playlists"@.take(8)[0] == 'p');
    }
}

/// A resource goes by its id and its kind; without either it is none.
pub proof fn a_resource_has_an_id_and_a_kind(v: Json, id: Seq<char>, kind: Seq<char>, attrs: Json)
    requires
        v is Object,
    ensures
        json::says(v, "id"@, id) && json::says(v, "type"@, kind) ==> (typed_in(v) matches Some(t)
            && t.id == id && t.kind == kind),
        json::says(v, "id"@, id) && json::says(v, "type"@, kind) && json::in_object(
            v,
            "attributes"@,
        ) == Some(attrs) && !(attrs is Null) ==> typed_in(v)->0.attributes == Some(attrs),
        json::says(v, "id"@, id) && json::says(v, "type"@, kind) && (json::in_object(
            v,
            "attributes"@,
        ) is None || json::in_object(v, "attributes"@) == Some(Json::Null))
            ==> typed_in(v)->0.attributes is None,
        !(json::in_object(v, "id"@) matches Some(Json::Text(_))) ==> typed_in(v) is None,
        !(json::in_object(v, "type"@) matches Some(Json::Text(_))) ==> typed_in(v) is None,
{
}

/// A stub of a kind goes by its id, whether of the library or not; what has
/// attributes, and what is of another kind, is no stub of it.
pub proof fn a_stub_goes_by_its_id(t: Typed, kind: Seq<char>, library_kind: Seq<char>)
    ensures
        t.attributes is None && t.kind == kind ==> stub_of(t, kind, library_kind) == Some(t.id),
        t.attributes is None && t.kind == library_kind ==> stub_of(t, kind, library_kind) == Some(
            t.id,
        ),
        t.attributes is Some ==> stub_of(t, kind, library_kind) is None,
        t.kind != kind && t.kind != library_kind ==> stub_of(t, kind, library_kind) is None,
{
}

/// An address is asked for without the host and the version, in either form.
pub proof fn an_address_is_asked_for_by_its_path(path: Seq<char>)
    requires
        path.len() > 0,
        path[0] == '/',
    ensures
        path_in("https://api.music.apple.com/v1"@ + path) == path,
        path_in("/v1"@ + path) == path,
        !"/v1"@.is_prefix_of(path) ==> path_in(path) == path,
{
    reveal_strlit("https://api.music.apple.com/v1");
    reveal_strlit("/v1");
    let a = "https://api.music.apple.com/v1"@;
    let b = "/v1"@;
    assert(a.is_prefix_of(a + path));
    assert((a + path).skip(a.len() as int) =~= path);
    assert(b.is_prefix_of(b + path));
    assert((b + path).skip(b.len() as int) =~= path);
    assert(a[0] == 'h');
    assert((b + path)[0] == '/');
    assert(!a.is_prefix_of(b + path)) by {
        if a.is_prefix_of(b + path) {
            assert((b + path).take(a.len() as int)[0] == (b + path)[0]);
        }
    }
    assert(!a.is_prefix_of(path)) by {
        if a.is_prefix_of(path) {
            assert(path.take(a.len() as int)[0] == path[0]);
        }
    }
}

/// The resources of charts come in the order of the charts.
pub proof fn charts_keep_their_order(charts: Seq<Json>, one: Json)
    ensures
        of_charts(charts.push(one)) == of_charts(charts) + resources_in(
            json::in_object(one, "data"@),
        ),
        of_charts(Seq::empty()).len() == 0,
{
    assert(charts.push(one).drop_last() =~= charts);
}

/// An id of the library begins with a letter and a dot; an id of the catalogue,
/// which is a number or begins with `pl.`, is none.
pub proof fn an_id_of_the_library_is_told_apart(rest: Seq<char>)
    requires
        rest.len() > 0,
    ensures
        is_library_id("i."@ + rest),
        is_library_id("l."@ + rest),
        is_library_id("p."@ + rest),
        !is_library_id("pl."@ + rest),
        '0' <= rest[0] <= '9' ==> !is_library_id(rest),
{
    reveal_strlit("i.");
    reveal_strlit("l.");
    reveal_strlit("p.");
    reveal_strlit("pl.");
    assert(("pl."@ + rest)[1] == 'l');
}

} // verus!
