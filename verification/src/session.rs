//! What was playing when the player last closed.
//!
//! It cannot be worked out again, so it is no cache; and nobody chose it, so it
//! is no setting. It is kept with the state.
use vstd::prelude::*;

use crate::json::{self, Json, Part};
use crate::paths::{self, Env};
use crate::text;

verus! {

/// A queue and where in it playback was.
#[derive(Debug, PartialEq, Eq)]
pub struct Session {
    /// Catalog ids, in the order they were queued.
    pub songs: Vec<String>,
    /// Which of them was current.
    pub start: usize,
    /// How far into it playback was, which is known only where the player
    /// closed in order.
    pub position_ms: u64,
}

/// Where it is kept.
pub fn path(env: &Env) -> (r: Option<String>)
    ensures
        text::opt_view(r) == paths::under_opt(
            paths::base_dir(
                text::opt_view(env.state_home),
                text::opt_view(env.home),
                ".local/state"@,
            ),
            "vinilo/session.json"@,
        ),
{
    paths::join_opt(
        paths::xdg(&env.state_home, &env.home, ".local/state"),
        "vinilo/session.json",
    )
}

/// The texts that a list holds, if it holds nothing else.
pub open spec fn texts(items: Seq<Json>) -> Option<Seq<Seq<char>>>
    decreases items.len(),
{
    if items.len() == 0 {
        Some(Seq::empty())
    } else {
        match (texts(items.drop_last()), json::text_in(Some(items.last()))) {
            (Some(r), Some(s)) => Some(r.push(s)),
            _ => None,
        }
    }
}

fn read_texts(items: &Vec<Json>) -> (r: Option<Vec<String>>)
    ensures
        match r {
            Some(v) => texts(items@) == Some(text::views(v@)),
            None => texts(items@) is None,
        },
{
    let mut out: Vec<String> = Vec::new();
    let mut i: usize = 0;
    proof {
        assert(items@.take(0) =~= Seq::<Json>::empty());
        assert(text::views(out@) =~= Seq::<Seq<char>>::empty());
    }
    while i < items.len()
        invariant
            i <= items@.len(),
            texts(items@.take(i as int)) == Some(text::views(out@)),
        decreases items@.len() - i,
    {
        proof {
            text::take_step(items@, i as int);
            assert(items@.take(i + 1).drop_last() =~= items@.take(i as int));
        }
        match json::text_of(Some(&items[i])) {
            Some(s) => {
                let ghost out0 = out@;
                out.push(s.to_owned());
                assert(text::views(out@) =~= text::views(out0).push(s@));
            },
            None => {
                proof {
                    no_texts(items@, i as int);
                }
                return None;
            },
        }
        i += 1;
    }
    assert(items@.take(i as int) =~= items@);
    Some(out)
}

proof fn no_texts(items: Seq<Json>, i: int)
    requires
        0 <= i < items.len(),
        json::text_in(Some(items[i])) is None,
    ensures
        texts(items) is None,
    decreases items.len(),
{
    if i < items.len() - 1 {
        no_texts(items.drop_last(), i);
    }
}

/// A whole number, zero where it is left out; nothing else will do.
pub open spec fn count_or_zero(v: Option<Json>) -> Option<u64> {
    match v {
        None => Some(0),
        Some(j) => json::whole_in(Some(j)),
    }
}

/// What a file says was playing.
pub struct Saved {
    pub songs: Seq<Seq<char>>,
    pub start: u64,
    pub position_ms: u64,
}

/// What the parts of a file say was playing: something, where there are songs
/// and the rest is numbers or left out.
pub open spec fn saved_parts(
    songs: Option<Json>,
    start: Option<Json>,
    position: Option<Json>,
) -> Option<Saved> {
    match (json::list_in(songs), count_or_zero(start), count_or_zero(position)) {
        (Some(items), Some(s), Some(p)) => match texts(items) {
            Some(ids) => if ids.len() > 0 && s <= usize::MAX {
                Some(Saved { songs: ids, start: s, position_ms: p })
            } else {
                None
            },
            None => None,
        },
        _ => None,
    }
}

/// What a file says was playing: by name, or one value after the other.
pub open spec fn saved(value: Json) -> Option<Saved> {
    if json::fits(value, 0, 1, 3) {
        saved_parts(
            json::field_in(value, 0, "songs"@),
            json::field_in(value, 1, "start"@),
            json::field_in(value, 2, "position_ms"@),
        )
    } else {
        None
    }
}

/// Whether `r` is what was saved.
pub open spec fn restores(r: Option<Session>, s: Option<Saved>) -> bool {
    match r {
        Some(session) => s == Some(
            Saved {
                songs: text::views(session.songs@),
                start: session.start as u64,
                position_ms: session.position_ms,
            },
        ),
        None => s is None,
    }
}

fn count(v: Option<&Json>) -> (r: Option<u64>)
    ensures
        r == count_or_zero(json::held(v)),
{
    match v {
        None => Some(0),
        Some(j) => json::whole_of(Some(j)),
    }
}

fn from_parts(songs: Option<&Json>, start: Option<&Json>, position: Option<&Json>) -> (r: Option<
    Session,
>)
    ensures
        restores(r, saved_parts(json::held(songs), json::held(start), json::held(position))),
{
    match (json::list_of(songs), count(start), count(position)) {
        (Some(items), Some(s), Some(p)) => match read_texts(items) {
            Some(ids) => {
                assert(text::views(ids@).len() == ids@.len());
                if ids.len() > 0 && s <= usize::MAX as u64 {
                    Some(Session { songs: ids, start: s as usize, position_ms: p })
                } else {
                    None
                }
            },
            None => None,
        },
        _ => None,
    }
}

/// What a file says was playing. An empty queue is nothing to restore.
pub fn from_json(value: &Json) -> (r: Option<Session>)
    ensures
        restores(r, saved(*value)),
{
    if json::fitting(value, 0, 1, 3) {
        from_parts(
            json::field(value, 0, "songs"),
            json::field(value, 1, "start"),
            json::field(value, 2, "position_ms"),
        )
    } else {
        None
    }
}

impl Session {
    /// What is kept of it.
    pub open spec fn parts(self) -> Seq<(Seq<char>, Part)> {
        seq![
            ("songs"@, Part::Texts(text::views(self.songs@))),
            ("start"@, Part::Whole(self.start as u64)),
            ("position_ms"@, Part::Whole(self.position_ms)),
        ]
    }

    /// The text that it is kept as.
    pub open spec fn spec_text(self) -> Seq<char> {
        json::record_text(self.parts())
    }

    /// The text that it is kept as.
    pub fn text(&self) -> (r: String)
        ensures
            r@ == self.spec_text(),
    {
        let mut out = "{\"songs\":".to_owned();
        out.append(json::write_list(&self.songs).as_str());
        out.append(",\"start\":");
        out.append(text::number(self.start as u64).as_str());
        out.append(",\"position_ms\":");
        out.append(text::number(self.position_ms).as_str());
        out.append("}");
        proof {
            parts_in_a_row(*self);
        }
        out
    }
}

proof fn parts_in_a_row(s: Session)
    ensures
        s.spec_text() == "{\"songs\":"@ + json::part_text(s.parts()[0].1) + ",\"start\":"@
            + json::part_text(s.parts()[1].1) + ",\"position_ms\":"@ + json::part_text(
            s.parts()[2].1,
        ) + "}"@,
{
    reveal_strlit("songs");
    reveal_strlit("start");
    reveal_strlit("position_ms");
    reveal_strlit("{\"songs\":");
    reveal_strlit(",\"start\":");
    reveal_strlit(",\"position_ms\":");
    reveal_strlit("\"");
    reveal_strlit(":");
    reveal_strlit(",");
    reveal_strlit("{");
    json::a_plain_text_is_quoted_as_it_is("songs"@);
    json::a_plain_text_is_quoted_as_it_is("start"@);
    json::a_plain_text_is_quoted_as_it_is("position_ms"@);
    let f = |p: (Seq<char>, Part)| json::quoted(p.0) + ":"@ + json::part_text(p.1);
    let row = s.parts().map_values(f);
    let (a, b, c) = (row[0], row[1], row[2]);
    assert(row.drop_last().drop_last() =~= seq![a]);
    assert(row.drop_last().last() == b);
    reveal_with_fuel(text::joined, 4);
    assert(text::joined(row, ","@) == a + ","@ + b + ","@ + c);
    assert("{"@ + "\""@ + "songs"@ + "\""@ + ":"@ =~= "{\"songs\":"@);
    assert(","@ + ("\""@ + "start"@ + "\""@) + ":"@ =~= ",\"start\":"@);
    assert(","@ + ("\""@ + "position_ms"@ + "\""@) + ":"@ =~= ",\"position_ms\":"@);
    assert(s.spec_text() =~= "{\"songs\":"@ + json::part_text(s.parts()[0].1) + ",\"start\":"@
        + json::part_text(s.parts()[1].1) + ",\"position_ms\":"@ + json::part_text(s.parts()[2].1)
        + "}"@);
}

proof fn texts_are_read(items: Seq<Json>, l: Seq<Seq<char>>)
    requires
        items.len() == l.len(),
        forall|i: int|
            0 <= i < l.len() ==> json::text_in(Some(#[trigger] items[i])) == Some(l[i]),
    ensures
        texts(items) == Some(l),
    decreases items.len(),
{
    if items.len() > 0 {
        texts_are_read(items.drop_last(), l.drop_last());
        assert(l =~= l.drop_last().push(l.last()));
    } else {
        assert(l =~= Seq::empty());
    }
}

/// A session that was kept is read back: what its record says is what was
/// playing.
pub proof fn a_kept_session_is_read_back(s: Session, value: Json)
    requires
        s.songs@.len() > 0,
        json::is_record(Some(value), s.parts()),
    ensures
        restores(Some(s), saved(value)),
{
    let p = s.parts();
    assert(p[0].0 == "songs"@ && p[1].0 == "start"@ && p[2].0 == "position_ms"@);
    assert(json::is_part(json::in_object(value, p[0].0), p[0].1));
    assert(json::is_part(json::in_object(value, p[1].0), p[1].1));
    assert(json::is_part(json::in_object(value, p[2].0), p[2].1));
    let items = json::list_in(json::in_object(value, "songs"@))->0;
    texts_are_read(items, text::views(s.songs@));
}

/// What the text of a file says was playing. A file that cannot be read holds
/// nothing to restore, and what was kept is read back. The whole text is read
/// as JSON first: of a name that occurs twice the last value counts, and a
/// member of another name has to be readable too.
pub fn parse(raw: &str) -> (r: Option<Session>)
    ensures
        match json::parsed(raw@) {
            Some(value) => restores(r, saved(value)),
            None => r is None,
        },
        forall|s: Session|
            raw@ == #[trigger] s.spec_text() && s.songs@.len() > 0 ==> is_same(r, s),
{
    let value = json::parse(raw);
    proof {
        assert forall|s: Session|
            raw@ == #[trigger] s.spec_text() && s.songs@.len() > 0 implies restores(
            Some(s),
            saved(value->0),
        ) && value is Some by {
            names_are_distinct(s);
            assert(json::is_record(value, s.parts()));
            a_kept_session_is_read_back(s, value->0);
        }
    }
    match value {
        Some(value) => from_json(&value),
        None => None,
    }
}

/// Whether `r` is the session `s`.
pub open spec fn is_same(r: Option<Session>, s: Session) -> bool {
    r matches Some(back) && text::views(back.songs@) == text::views(s.songs@) && back.start
        == s.start && back.position_ms == s.position_ms
}

proof fn names_are_distinct(s: Session)
    ensures
        json::distinct_names(s.parts()),
{
    reveal_strlit("songs");
    reveal_strlit("start");
    reveal_strlit("position_ms");
    assert("songs"@[1] != "start"@[1]);
    assert("songs"@.len() != "position_ms"@.len());
    assert("start"@.len() != "position_ms"@.len());
}

/// What is restored is never an empty queue.
pub proof fn what_is_restored_has_songs(value: Json)
    ensures
        saved(value) matches Some(s) ==> s.songs.len() > 0,
{
}

/// A file says which songs were playing, in their order, which of them, and how
/// far; what it leaves out of the last two is zero.
pub proof fn a_file_says_what_was_playing(
    value: Json,
    l: Vec<Json>,
    one: String,
    other: String,
    start: u64,
    ms: u64,
)
    requires
        value is Object,
        json::in_object(value, "songs"@) == Some(Json::List(l)),
        l@ == seq![Json::Text(one), Json::Text(other)],
        start <= usize::MAX,
    ensures
        json::in_object(value, "start"@) == Some(Json::Number(json::Number::Whole(start)))
            && json::in_object(value, "position_ms"@) == Some(Json::Number(json::Number::Whole(ms)))
            ==> (saved(value) matches Some(s) && s.songs == seq![one@, other@] && s.start == start
            && s.position_ms == ms),
        json::in_object(value, "start"@) is None && json::in_object(value, "position_ms"@) is None
            ==> (saved(value) matches Some(s) && s.start == 0 && s.position_ms == 0),
        json::in_object(value, "start"@) == Some(Json::Text(one)) ==> saved(value) is None,
        json::in_object(value, "position_ms"@) == Some(Json::Text(one)) ==> saved(value) is None,
{
    reveal_with_fuel(texts, 3);
    assert(l@.drop_last() =~= seq![Json::Text(one)]);
    assert(seq![Json::Text(one)].drop_last() =~= Seq::<Json>::empty());
    assert(texts(seq![Json::Text(one)]) == Some(seq![one@])) by {
        assert(Seq::<Seq<char>>::empty().push(one@) =~= seq![one@]);
    }
    assert(seq![one@].push(other@) =~= seq![one@, other@]);
}

/// A list that holds anything but texts is nothing to restore.
pub proof fn a_queue_of_anything_else_is_nothing(value: Json, l: Vec<Json>, i: int)
    requires
        value is Object,
        json::in_object(value, "songs"@) == Some(Json::List(l)),
        0 <= i < l@.len(),
        !(l@[i] is Text),
    ensures
        saved(value) is None,
{
    no_texts(l@, i);
}

} // verus!
