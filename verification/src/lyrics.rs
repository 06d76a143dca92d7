//! The text of a song: where it is asked for, and how Apple's form of it is
//! read.
use vstd::prelude::*;

use crate::decimal::{self, double_in, kept, Double};
use crate::double::{as_double, capped, nearest};
use crate::ipc::{LyricLine, Lyrics};
use crate::json::{self, Json};
use crate::streams;
use crate::text;

verus! {

/// Who is asked for the text of a song.
#[derive(Debug, Clone, Copy, PartialEq, Eq, Structural)]
pub enum Asked {
    Spotify,
    Youtube,
    Apple,
    /// Nobody has it.
    Nobody,
}

/// Who is asked for the text of the song with this id: the catalogue that the
/// id belongs to, where it has texts; else Apple Music, if it can be asked.
pub open spec fn asked(id: Seq<char>, apple: bool) -> Asked {
    if "sp:"@.is_prefix_of(id) {
        Asked::Spotify
    } else if "yt:"@.is_prefix_of(id) {
        Asked::Youtube
    } else if streams::stream_id(id) || !apple {
        Asked::Nobody
    } else {
        Asked::Apple
    }
}

/// Who is asked for the text of the song with this id.
pub fn for_id(id: &str, apple: bool) -> (r: Asked)
    ensures
        r == asked(id@, apple),
{
    if text::starts_with(id, "sp:") {
        Asked::Spotify
    } else if text::starts_with(id, "yt:") {
        Asked::Youtube
    } else if streams::StreamHit::is_stream_id(id) || !apple {
        Asked::Nobody
    } else {
        Asked::Apple
    }
}

/// Whether a text looks like timed text.
pub open spec fn is_timed_text(s: Seq<char>) -> bool {
    text::occurs(s, "<p"@) || text::occurs(s, "<tt"@)
}

fn looks_like_ttml(s: &str) -> (r: bool)
    ensures
        r == is_timed_text(s@),
{
    text::contains(s, "<p") || text::contains(s, "<tt")
}

/// The first member that is timed text.
pub open spec fn first_timed(m: Seq<(String, Json)>) -> Option<Seq<char>>
    decreases m.len(),
{
    if m.len() == 0 {
        None
    } else {
        match json::text_in(Some(m[0].1)) {
            Some(s) if is_timed_text(s) => Some(s),
            _ => first_timed(m.skip(1)),
        }
    }
}

/// The timed text that a member of attributes is or, as an object, holds.
pub open spec fn timed_in(v: Option<Json>) -> Option<Seq<char>> {
    match v {
        Some(Json::Text(s)) => if is_timed_text(s@) {
            Some(s@)
        } else {
            None
        },
        Some(Json::Object(m)) => first_timed(m@),
        _ => None,
    }
}

/// The timed text in attributes.
pub open spec fn in_attributes(attrs: Option<Json>) -> Option<Seq<char>> {
    match timed_in(json::under(attrs, "ttml"@)) {
        Some(s) => Some(s),
        None => timed_in(json::under(attrs, "ttmlLocalizations"@)),
    }
}

fn timed_of<'a>(v: Option<&'a Json>) -> (r: Option<&'a str>)
    ensures
        match r {
            Some(s) => timed_in(json::held(v)) == Some(s@),
            None => timed_in(json::held(v)) is None,
        },
{
    match v {
        Some(Json::Text(s)) => if looks_like_ttml(s.as_str()) {
            Some(s.as_str())
        } else {
            None
        },
        Some(Json::Object(m)) => {
            let mut i: usize = 0;
            assert(m@.skip(0) =~= m@);
            while i < m.len()
                invariant
                    i <= m@.len(),
                    json::held(v) == Some(Json::Object(*m)),
                    first_timed(m@) == first_timed(m@.skip(i as int)),
                decreases m@.len() - i,
            {
                proof {
                    assert(m@.skip(i as int)[0] == m@[i as int]);
                    assert(m@.skip(i as int).skip(1) =~= m@.skip(i + 1));
                }
                if let Some(s) = json::text_of(Some(&m[i].1)) {
                    if looks_like_ttml(s) {
                        return Some(s);
                    }
                }
                i += 1;
            }
            None
        },
        _ => None,
    }
}

fn ttml_in_attrs<'a>(attrs: Option<&'a Json>) -> (r: Option<&'a str>)
    ensures
        match r {
            Some(s) => in_attributes(json::held(attrs)) == Some(s@),
            None => in_attributes(json::held(attrs)) is None,
        },
{
    match timed_of(json::at(attrs, "ttml")) {
        Some(s) => Some(s),
        None => timed_of(json::at(attrs, "ttmlLocalizations")),
    }
}

/// The timed text of an answer: in its own attributes, else in those of a
/// related resource, else in those of what it lists.
pub open spec fn blob(value: Json) -> Option<Seq<char>>
    decreases value, 1int,
{
    let own = in_attributes(json::in_object(value, "attributes"@));
    let rel = json::in_object(value, "relationships"@);
    proof {
        json::a_member_is_smaller(value, "relationships"@);
        if rel is Some {
            json::a_member_is_smaller(rel->0, "syllable-lyrics"@);
            json::a_member_is_smaller(rel->0, "lyrics"@);
        }
        json::a_member_is_smaller(value, "data"@);
        if json::in_object(value, "data"@) is Some {
            json::an_item_is_smaller(json::in_object(value, "data"@)->0, 0);
        }
        json::an_item_is_smaller(value, 0);
    }
    if own is Some {
        own
    } else {
        let syllables = match rel {
            Some(r) => match json::in_object(r, "syllable-lyrics"@) {
                Some(j) => blob(j),
                None => None,
            },
            None => None,
        };
        let plain = match rel {
            Some(r) => match json::in_object(r, "lyrics"@) {
                Some(j) => blob(j),
                None => None,
            },
            None => None,
        };
        if syllables is Some {
            syllables
        } else if plain is Some {
            plain
        } else {
            match value {
                Json::List(l) => first_blob(l@),
                _ => match json::in_object(value, "data"@) {
                    Some(Json::List(l)) => first_blob(l@),
                    _ => None,
                },
            }
        }
    }
}

/// The timed text of the first that has one.
pub open spec fn first_blob(items: Seq<Json>) -> Option<Seq<char>>
    decreases items, 0int,
{
    if items.len() == 0 {
        None
    } else {
        match blob(items[0]) {
            Some(s) => Some(s),
            None => first_blob(items.skip(1)),
        }
    }
}

fn ttml_blob<'a>(value: &'a Json) -> (r: Option<&'a str>)
    ensures
        match r {
            Some(s) => blob(*value) == Some(s@),
            None => blob(*value) is None,
        },
    decreases *value, 1int,
{
    proof {
        json::a_member_is_smaller(*value, "relationships"@);
        json::a_member_is_smaller(*value, "data"@);
        json::an_item_is_smaller(*value, 0);
    }
    if let Some(s) = ttml_in_attrs(value.get("attributes")) {
        return Some(s);
    }
    if let Some(rel) = value.get("relationships") {
        proof {
            json::a_member_is_smaller(*rel, "syllable-lyrics"@);
            json::a_member_is_smaller(*rel, "lyrics"@);
        }
        if let Some(j) = rel.get("syllable-lyrics") {
            if let Some(s) = ttml_blob(j) {
                return Some(s);
            }
        }
        if let Some(j) = rel.get("lyrics") {
            if let Some(s) = ttml_blob(j) {
                return Some(s);
            }
        }
    }
    match value {
        Json::List(l) => {
            assert(l@.skip(0) =~= l@);
            first_ttml(l, 0)
        },
        _ => match value.get("data") {
            Some(data) => {
                proof {
                    json::an_item_is_smaller(*data, 0);
                }
                match data {
                    Json::List(l) => {
                        assert(l@.skip(0) =~= l@);
                        first_ttml(l, 0)
                    },
                    _ => None,
                }
            },
            None => None,
        },
    }
}

fn first_ttml<'a>(items: &'a Vec<Json>, from: usize) -> (r: Option<&'a str>)
    requires
        from <= items@.len(),
    ensures
        match r {
            Some(s) => first_blob(items@.skip(from as int)) == Some(s@),
            None => first_blob(items@.skip(from as int)) is None,
        },
    decreases items@, items@.len() - from,
{
    if from == items.len() {
        return None;
    }
    proof {
        assert(items@.skip(from as int)[0] == items@[from as int]);
        assert(items@.skip(from as int).skip(1) =~= items@.skip(from + 1));
        assert(decreases_to!(items@ => items@[from as int]));
    }
    match ttml_blob(&items[from]) {
        Some(s) => Some(s),
        None => first_ttml(items, from + 1),
    }
}

/// `s` without its tags, from inside a tag or outside.
pub open spec fn outside_tags(s: Seq<char>) -> (Seq<char>, bool)
    decreases s.len(),
{
    if s.len() == 0 {
        (Seq::empty(), false)
    } else {
        let (out, in_tag) = outside_tags(s.drop_last());
        if s.last() == '<' {
            (out, true)
        } else if s.last() == '>' {
            (out, false)
        } else if in_tag {
            (out, in_tag)
        } else {
            (out.push(s.last()), in_tag)
        }
    }
}

/// `s` with the characters that markup has names for.
pub open spec fn unescaped(s: Seq<char>) -> Seq<char> {
    text::replaced(
        text::replaced(
            text::replaced(
                text::replaced(
                    text::replaced(text::replaced(s, "&amp;"@, "&"@), "&lt;"@, "<"@),
                    "&gt;"@,
                    ">"@,
                ),
                "&quot;"@,
                "\""@,
            ),
            "&apos;"@,
            "'"@,
        ),
        "&#39;"@,
        "'"@,
    )
}

/// What a line says: without its tags, with the characters that have names,
/// and one space between words.
pub open spec fn said(inner: Seq<char>) -> Seq<char> {
    text::joined(text::spaced_words(unescaped(outside_tags(inner).0)), " "@)
}

fn plain_text(inner: &str) -> (r: String)
    ensures
        r@ == said(inner@),
{
    let v = text::chars(inner);
    let mut out = String::new();
    let mut in_tag = false;
    let mut i: usize = 0;
    proof {
        assert(v@.take(0) =~= Seq::<char>::empty());
    }
    while i < v.len()
        invariant
            i <= v@.len(),
            v@ == inner@,
            (out@, in_tag) == outside_tags(v@.take(i as int)),
        decreases v@.len() - i,
    {
        proof {
            text::take_step(v@, i as int);
            assert(v@.take(i + 1).drop_last() =~= v@.take(i as int));
        }
        let c = v[i];
        if c == '<' {
            in_tag = true;
        } else if c == '>' {
            in_tag = false;
        } else if !in_tag {
            out.push(c);
        }
        i += 1;
    }
    assert(v@.take(i as int) =~= inner@);
    proof {
        reveal_strlit("&amp;");
        reveal_strlit("&lt;");
        reveal_strlit("&gt;");
        reveal_strlit("&quot;");
        reveal_strlit("&apos;");
        reveal_strlit("&#39;");
    }
    let a = text::replace(out.as_str(), "&amp;", "&");
    let b = text::replace(a.as_str(), "&lt;", "<");
    let c = text::replace(b.as_str(), "&gt;", ">");
    let d = text::replace(c.as_str(), "&quot;", "\"");
    let e = text::replace(d.as_str(), "&apos;", "'");
    let f = text::replace(e.as_str(), "&#39;", "'");
    text::join(&text::split_whitespace(f.as_str()), " ")
}

/// The value of an attribute in a tag: what stands between quotes behind its
/// name.
pub open spec fn attribute(tag: Seq<char>, name: Seq<char>) -> Option<Seq<char>> {
    let needle = name + "="@;
    match text::place(tag, needle, 0) {
        None => None,
        Some(i) => {
            let q = i + needle.len();
            if q < tag.len() && (tag[q] == '"' || tag[q] == '\'') {
                match text::place(tag, seq![tag[q]], q + 1) {
                    Some(e) => Some(tag.subrange(q + 1, e)),
                    None => None,
                }
            } else {
                None
            }
        },
    }
}

fn attr(tag: &str, name: &str) -> (r: Option<String>)
    ensures
        text::opt_view(r) == attribute(tag@, name@),
{
    let mut needle = name.to_owned();
    needle.append("=");
    let v = text::chars(tag);
    let n = text::chars(needle.as_str());
    match text::find(&v, &n, 0) {
        None => None,
        Some(i) => {
            assert(i + n@.len() <= v.len());
            let q = i + n.len();
            if q < v.len() && (v[q] == '"' || v[q] == '\'') {
                let quote = vec![v[q]];
                assert(quote@ =~= seq![tag@[q as int]]);
                match text::find(&v, &quote, q + 1) {
                    Some(e) => Some(text::slice(&v, q + 1, e)),
                    None => None,
                }
            } else {
                None
            }
        },
    }
}

/// `s` without the letters `s` that it ends with.
pub open spec fn without_unit(s: Seq<char>) -> Seq<char>
    decreases s.len(),
{
    if s.len() > 0 && s.last() == 's' {
        without_unit(s.drop_last())
    } else {
        s
    }
}

/// The sum of two doubles, where both are finite and it is.
pub open spec fn sum(a: Option<int>, b: Option<int>) -> Option<int> {
    match (a, b) {
        (Some(a), Some(b)) => kept(a + b),
        _ => None,
    }
}

/// A double times a whole number, where both are finite.
pub open spec fn product(a: Option<int>, n: int) -> Option<int> {
    match a {
        Some(a) => kept(a * n),
        None => None,
    }
}

/// A time in seconds, as a double: seconds, minutes and seconds, or hours,
/// minutes and seconds. It is none where it is not finite.
pub open spec fn time_in(raw: Seq<char>) -> Option<int> {
    let parts = text::split(without_unit(text::trimmed(raw)), ':');
    if parts.len() == 3 {
        sum(
            sum(product(double_in(parts[0]), 3600), product(double_in(parts[1]), 60)),
            double_in(parts[2]),
        )
    } else if parts.len() == 2 {
        sum(product(double_in(parts[0]), 60), double_in(parts[1]))
    } else if parts.len() == 1 {
        double_in(parts[0])
    } else {
        None
    }
}

/// A time in milliseconds, to the nearest; one before zero is none.
pub open spec fn ms_in(raw: Seq<char>) -> Option<u64> {
    match time_in(raw) {
        Some(t) => if t >= 0 {
            Some(capped(nearest(as_double(t * 1000), -1074)))
        } else {
            None
        },
        None => None,
    }
}

/// What a double says, if there is one.
spec fn said_by(d: Option<Double>) -> Option<int> {
    match d {
        Some(d) => Some(d@),
        None => None,
    }
}

fn add_times(a: Option<Double>, b: Option<Double>) -> (r: Option<Double>)
    ensures
        said_by(r) == sum(said_by(a), said_by(b)),
{
    match (a, b) {
        (Some(a), Some(b)) => a.plus(&b),
        _ => None,
    }
}

fn multiply(a: Option<Double>, n: u32) -> (r: Option<Double>)
    ensures
        said_by(r) == product(said_by(a), n as int),
{
    match a {
        Some(a) => a.times(n),
        None => None,
    }
}

fn number(s: &str) -> (r: Option<Double>)
    ensures
        said_by(r) == double_in(s@),
{
    decimal::read(s)
}

/// A time in milliseconds.
pub fn ttml_ms(raw: &str) -> (r: Option<u64>)
    ensures
        r == ms_in(raw@),
{
    let s = text::trim(raw);
    let v = text::chars(s.as_str());
    let mut n: usize = v.len();
    assert(v@.subrange(0, n as int) =~= s@);
    while n > 0 && v[n - 1] == 's'
        invariant
            n <= v@.len(),
            without_unit(s@) == without_unit(v@.subrange(0, n as int)),
        decreases n,
    {
        proof {
            let t = v@.subrange(0, n as int);
            assert(t.last() == v@[n - 1]);
            assert(t.drop_last() =~= v@.subrange(0, n - 1));
        }
        n -= 1;
    }
    let bare = text::slice(&v, 0, n);
    assert(without_unit(bare@) == bare@);
    let parts = text::split_on(bare.as_str(), ':');
    let ghost cut = text::split(bare@, ':');
    assert(text::views(parts@).len() == parts@.len());
    let total = if parts.len() == 3 {
        assert(cut[0] == parts@[0]@ && cut[1] == parts@[1]@ && cut[2] == parts@[2]@);
        add_times(
            add_times(
                multiply(number(parts[0].as_str()), 3600),
                multiply(number(parts[1].as_str()), 60),
            ),
            number(parts[2].as_str()),
        )
    } else if parts.len() == 2 {
        assert(cut[0] == parts@[0]@ && cut[1] == parts@[1]@);
        add_times(multiply(number(parts[0].as_str()), 60), number(parts[1].as_str()))
    } else if parts.len() == 1 {
        assert(cut[0] == parts@[0]@);
        number(parts[0].as_str())
    } else {
        None
    };
    assert(said_by(total) == time_in(raw@));
    match total {
        Some(t) => if t.is_below_zero() {
            None
        } else {
            Some(t.thousandths())
        },
        None => None,
    }
}

/// A line of a song's text: the time it is sung at, and what it says.
pub struct Line {
    pub start_ms: int,
    pub text: Seq<char>,
}

/// When a line is sung, by the attributes of its tag; zero where they do not
/// say.
pub open spec fn sung_at(attrs: Seq<char>) -> int {
    let raw = match attribute(attrs, "begin"@) {
        Some(s) => Some(s),
        None => attribute(attrs, "in"@),
    };
    match raw {
        Some(s) => match ms_in(s) {
            Some(ms) => ms as int,
            None => 0,
        },
        None => 0,
    }
}

/// The lines of timed text from `from` on: what stands in each paragraph, where
/// it says anything.
pub open spec fn lines_from(s: Seq<char>, from: int) -> Seq<Line>
    decreases s.len() - from,
{
    match text::place(s, "<p"@, from) {
        None => Seq::empty(),
        Some(open) => match text::place(s, ">"@, open + 2) {
            None => Seq::empty(),
            Some(end) => match text::place(s, "</p>"@, end + 1) {
                None => Seq::empty(),
                Some(close) => {
                    let words = said(s.subrange(end + 1, close));
                    let next = close + 4;
                    if !(from < next <= s.len()) {
                        Seq::empty()
                    } else if words.len() == 0 {
                        lines_from(s, next)
                    } else {
                        seq![Line { start_ms: sung_at(s.subrange(open + 2, end)), text: words }]
                            + lines_from(s, next)
                    }
                },
            },
        },
    }
}

/// What lines hold.
pub open spec fn line_views(v: Seq<LyricLine>) -> Seq<Line> {
    v.map_values(|l: LyricLine| Line { start_ms: l.start_ms as int, text: l.text@ })
}

/// Whether a text carries the times of its lines: any of them is sung after the
/// start.
pub open spec fn is_synced(lines: Seq<Line>) -> bool {
    exists|i: int| 0 <= i < lines.len() && (#[trigger] lines[i]).start_ms > 0
}

fn start_of(attrs: &str) -> (r: u64)
    ensures
        r == sung_at(attrs@),
{
    let raw = match attr(attrs, "begin") {
        Some(s) => Some(s),
        None => attr(attrs, "in"),
    };
    match raw {
        Some(s) => match ttml_ms(s.as_str()) {
            Some(ms) => ms,
            None => 0,
        },
        None => 0,
    }
}

fn read_lines(ttml: &str) -> (r: Vec<LyricLine>)
    ensures
        line_views(r@) == lines_from(ttml@, 0),
{
    let s = text::chars(ttml);
    let p = text::chars("<p");
    let end_mark = text::chars(">");
    let close_mark = text::chars("</p>");
    proof {
        reveal_strlit("<p");
        reveal_strlit(">");
        reveal_strlit("</p>");
    }
    let mut out: Vec<LyricLine> = Vec::new();
    let mut from: usize = 0;
    let ghost all = lines_from(s@, 0);
    assert(line_views(out@) + all =~= all);
    loop
        invariant
            from <= s@.len(),
            s@ == ttml@,
            p@ == "<p"@,
            p@.len() == 2,
            end_mark@ == ">"@,
            end_mark@.len() == 1,
            close_mark@ == "</p>"@,
            close_mark@.len() == 4,
            all == lines_from(s@, 0),
            line_views(out@) + lines_from(s@, from as int) == all,
        ensures
            line_views(out@) == all,
        decreases s@.len() - from,
    {
        let open = match text::find(&s, &p, from) {
            Some(i) => i,
            None => {
                assert(line_views(out@) + Seq::<Line>::empty() =~= line_views(out@));
                break;
            },
        };
        assert(open + 2 <= s.len());
        let end = match text::find(&s, &end_mark, open + 2) {
            Some(i) => i,
            None => {
                assert(line_views(out@) + Seq::<Line>::empty() =~= line_views(out@));
                break;
            },
        };
        assert(end + 1 <= s.len());
        let close = match text::find(&s, &close_mark, end + 1) {
            Some(i) => i,
            None => {
                assert(line_views(out@) + Seq::<Line>::empty() =~= line_views(out@));
                break;
            },
        };
        assert(close + 4 <= s.len());
        let words = plain_text(text::slice(&s, end + 1, close).as_str());
        if !words.as_str().is_empty() {
            let start_ms = start_of(text::slice(&s, open + 2, end).as_str());
            let ghost out0 = out@;
            let ghost rest = lines_from(s@, close + 4);
            let line = LyricLine { start_ms, text: words };
            let ghost view = Line { start_ms: line.start_ms as int, text: line.text@ };
            out.push(line);
            proof {
                assert(line_views(out@) =~= line_views(out0).push(view));
                assert(lines_from(s@, from as int) == seq![view] + rest);
                assert(line_views(out@) + rest =~= line_views(out0) + (seq![view] + rest));
            }
        }
        from = close + 4;
    }
    out
}

/// Whether a text is what timed text says: its lines, with their times where
/// there are any; nothing, where there are no lines.
pub open spec fn reads(r: Option<Lyrics>, ttml: Seq<char>) -> bool {
    let lines = lines_from(ttml, 0);
    match r {
        Some(l) => lines.len() > 0 && line_views(l.lines@) == lines && l.synced == is_synced(lines),
        None => lines.len() == 0,
    }
}

fn lines_from_ttml(ttml: &str) -> (r: Option<Lyrics>)
    ensures
        reads(r, ttml@),
{
    let lines = read_lines(ttml);
    assert(line_views(lines@).len() == lines@.len());
    if lines.len() == 0 {
        return None;
    }
    let ghost views = line_views(lines@);
    let mut synced = false;
    let mut i: usize = 0;
    while i < lines.len()
        invariant
            i <= lines@.len(),
            views == line_views(lines@),
            synced == exists|j: int| 0 <= j < i && (#[trigger] views[j]).start_ms > 0,
        decreases lines@.len() - i,
    {
        assert(views[i as int].start_ms == lines@[i as int].start_ms);
        if lines[i].start_ms > 0 {
            synced = true;
        }
        i += 1;
    }
    Some(Lyrics { synced, lines })
}

/// The text of a song in Apple's answer, which carries it as timed text.
pub fn from_apple_ttml(value: &Json) -> (r: Option<Lyrics>)
    ensures
        match blob(*value) {
            Some(ttml) => reads(r, ttml),
            None => r is None,
        },
{
    match ttml_blob(value) {
        Some(ttml) => lines_from_ttml(ttml),
        None => None,
    }
}

/// Every line of a song's text says something.
pub proof fn no_line_is_empty(s: Seq<char>, from: int)
    ensures
        forall|i: int|
            0 <= i < lines_from(s, from).len() ==> (#[trigger] lines_from(s, from)[i]).text.len()
                > 0 && lines_from(s, from)[i].start_ms >= 0,
    decreases s.len() - from,
{
    let all = lines_from(s, from);
    if let Some(open) = text::place(s, "<p"@, from) {
        if let Some(end) = text::place(s, ">"@, open + 2) {
            if let Some(close) = text::place(s, "</p>"@, end + 1) {
                let next = close + 4;
                if from < next <= s.len() {
                    no_line_is_empty(s, next);
                    let rest = lines_from(s, next);
                    assert forall|i: int| 0 <= i < all.len() implies (
                    #[trigger] all[i]).text.len() > 0 && all[i].start_ms >= 0 by {
                        if said(s.subrange(end + 1, close)).len() > 0 {
                            if i > 0 {
                                assert(all[i] == rest[i - 1]);
                            }
                        } else {
                            assert(all[i] == rest[i]);
                        }
                    }
                }
            }
        }
    }
}

/// Whether a paragraph stands at these places: an opening tag, the end of that
/// tag, and the closing tag, each the first from where the one before it ends.
pub open spec fn is_paragraph(s: Seq<char>, from: int, at: (int, int, int)) -> bool {
    &&& text::first_at(s, "<p"@, from, at.0)
    &&& text::first_at(s, ">"@, at.0 + 2, at.1)
    &&& text::first_at(s, "</p>"@, at.1 + 1, at.2)
}

/// Whether these are the paragraphs of timed text from `from` on, taken in turn.
pub open spec fn are_paragraphs(s: Seq<char>, from: int, all: Seq<(int, int, int)>) -> bool
    decreases all.len(),
{
    if all.len() == 0 {
        forall|at: (int, int, int)| !#[trigger] is_paragraph(s, from, at)
    } else {
        is_paragraph(s, from, all[0]) && are_paragraphs(s, all[0].2 + 4, all.skip(1))
    }
}

/// Every text has its paragraphs.
pub proof fn a_text_has_its_paragraphs(s: Seq<char>, from: int) -> (all: Seq<(int, int, int)>)
    requires
        0 <= from,
    ensures
        are_paragraphs(s, from, all),
    decreases s.len() - from,
{
    reveal_strlit("<p");
    reveal_strlit(">");
    reveal_strlit("</p>");
    if exists|at: (int, int, int)| #[trigger] is_paragraph(s, from, at) {
        let at = choose|at: (int, int, int)| #[trigger] is_paragraph(s, from, at);
        let rest = a_text_has_its_paragraphs(s, at.2 + 4);
        let all = seq![at] + rest;
        assert(all.skip(1) =~= rest);
        all
    } else {
        Seq::empty()
    }
}

/// The words of a paragraph.
pub open spec fn words_of(s: Seq<char>, at: (int, int, int)) -> Seq<char> {
    said(s.subrange(at.1 + 1, at.2))
}

/// No line of a song is lost and none is made up: there is a line for each
/// paragraph that says anything, however long it is, in the order of the
/// paragraphs, with what the paragraph says and at the time that its tag gives.
pub proof fn every_paragraph_that_says_something_is_a_line(
    s: Seq<char>,
    from: int,
    all: Seq<(int, int, int)>,
)
    requires
        0 <= from <= s.len(),
        are_paragraphs(s, from, all),
    ensures
        ({
            let saying = all.filter(|at: (int, int, int)| words_of(s, at).len() > 0);
            let lines = lines_from(s, from);
            &&& lines.len() == saying.len()
            &&& forall|i: int|
                0 <= i < lines.len() ==> (#[trigger] lines[i]).text == words_of(s, saying[i])
                    && lines[i].start_ms == sung_at(s.subrange(saying[i].0 + 2, saying[i].1))
        }),
    decreases all.len(),
{
    reveal_strlit("<p");
    reveal_strlit(">");
    reveal_strlit("</p>");
    let p = |at: (int, int, int)| words_of(s, at).len() > 0;
    let lines = lines_from(s, from);
    let saying = all.filter(p);
    if all.len() == 0 {
        reveal(Seq::filter);
        text::a_place_is_the_first(s, "<p"@, from);
        if let Some(open) = text::place(s, "<p"@, from) {
            text::a_place_is_the_first(s, ">"@, open + 2);
            if let Some(end) = text::place(s, ">"@, open + 2) {
                text::a_place_is_the_first(s, "</p>"@, end + 1);
                if let Some(close) = text::place(s, "</p>"@, end + 1) {
                    assert(is_paragraph(s, from, (open, end, close)));
                }
            }
        }
        assert(lines.len() == 0);
    } else {
        let at = all[0];
        let next = at.2 + 4;
        text::the_first_place_is_found(s, "<p"@, from, at.0);
        text::the_first_place_is_found(s, ">"@, at.0 + 2, at.1);
        text::the_first_place_is_found(s, "</p>"@, at.1 + 1, at.2);
        every_paragraph_that_says_something_is_a_line(s, next, all.skip(1));
        let rest = all.skip(1).filter(p);
        assert(all =~= seq![at] + all.skip(1));
        Seq::filter_distributes_over_add(seq![at], all.skip(1), p);
        let first = seq![at].filter(p);
        assert(first =~= if p(at) {
            seq![at]
        } else {
            Seq::empty()
        }) by {
            reveal(Seq::filter);
            assert(seq![at].drop_last() =~= Seq::<(int, int, int)>::empty());
            assert(seq![at].drop_last().filter(p) =~= Seq::<(int, int, int)>::empty());
        }
        assert(saying == first + rest);
        let later = lines_from(s, next);
        if p(at) {
            assert(lines =~= seq![
                Line { start_ms: sung_at(s.subrange(at.0 + 2, at.1)), text: words_of(s, at) },
            ] + later);
            assert forall|i: int| 0 <= i < lines.len() implies (#[trigger] lines[i]).text
                == words_of(s, saying[i]) && lines[i].start_ms == sung_at(
                s.subrange(saying[i].0 + 2, saying[i].1),
            ) by {
                if i > 0 {
                    assert(lines[i] == later[i - 1]);
                    assert(saying[i] == rest[i - 1]);
                }
            }
        } else {
            assert(lines == later);
            assert(saying =~= rest);
        }
    }
}

/// Whether a text holds no character of markup.
pub open spec fn is_bare(s: Seq<char>) -> bool {
    forall|i: int| 0 <= i < s.len() ==> #[trigger] s[i] != '<' && s[i] != '>' && s[i] != '&'
}

proof fn bare_text_has_no_tags(a: Seq<char>, s: Seq<char>)
    requires
        forall|i: int| 0 <= i < s.len() ==> #[trigger] s[i] != '<' && s[i] != '>',
    ensures
        outside_tags(a + s) == if outside_tags(a).1 {
            outside_tags(a)
        } else {
            (outside_tags(a).0 + s, false)
        },
    decreases s.len(),
{
    if s.len() == 0 {
        assert(a + s =~= a);
        assert(outside_tags(a).0 + s =~= outside_tags(a).0);
    } else {
        let t = s.drop_last();
        assert forall|i: int| 0 <= i < t.len() implies #[trigger] t[i] != '<' && t[i] != '>' by {
            assert(t[i] == s[i]);
        }
        bare_text_has_no_tags(a, t);
        assert((a + s).drop_last() =~= a + t);
        assert(s[s.len() - 1] == (a + s).last());
        assert((outside_tags(a).0 + t).push(s.last()) =~= outside_tags(a).0 + s);
    }
}

/// Tags do not show, and nothing else is lost with them: of a text with a tag in
/// it what stands before and behind the tag is kept.
pub proof fn a_tag_does_not_show(a: Seq<char>, tag: Seq<char>, b: Seq<char>)
    requires
        is_bare(a),
        is_bare(b),
        forall|i: int| 0 <= i < tag.len() ==> #[trigger] tag[i] != '<' && tag[i] != '>',
    ensures
        outside_tags(a + seq!['<'] + tag + seq!['>'] + b).0 == a + b,
        outside_tags(a).0 == a,
{
    let e = Seq::<char>::empty();
    bare_text_has_no_tags(e, a);
    assert(e + a =~= a);
    assert(outside_tags(e).0 + a =~= a);
    let open = a + seq!['<'];
    assert(open.drop_last() =~= a);
    bare_text_has_no_tags(open, tag);
    let shut = open + tag + seq!['>'];
    assert(shut.drop_last() =~= open + tag);
    assert(outside_tags(shut) == (a, false));
    bare_text_has_no_tags(shut, b);
}

proof fn a_name_stands_at_its_sign(a: Seq<char>, name: Seq<char>, b: Seq<char>, p: Seq<char>)
    requires
        is_bare(a),
        is_bare(b),
        name.len() > 0,
        forall|i: int| 0 < i < name.len() ==> #[trigger] name[i] != '&',
        p.len() > 0 && p[0] == '&',
    ensures
        forall|i: int| 0 <= i && i != a.len() ==> !#[trigger] text::occurs_at(a + name + b, p, i),
{
    let s = a + name + b;
    assert forall|i: int| 0 <= i && i != a.len() implies !#[trigger] text::occurs_at(s, p, i) by {
        if text::occurs_at(s, p, i) {
            assert(s.subrange(i, i + p.len())[0] == s[i]);
            if i < a.len() {
                assert(s[i] == a[i]);
            } else if i < a.len() + name.len() {
                assert(s[i] == name[i - a.len()]);
            } else {
                assert(s[i] == b[i - a.len() - name.len()]);
            }
        }
    }
}

/// A text in which no character goes by a name stays as it is.
pub proof fn a_text_without_names_stays(s: Seq<char>)
    requires
        forall|i: int| 0 <= i < s.len() ==> #[trigger] s[i] != '&',
    ensures
        unescaped(s) == s,
{
    reveal_strlit("&amp;");
    reveal_strlit("&lt;");
    reveal_strlit("&gt;");
    reveal_strlit("&quot;");
    reveal_strlit("&apos;");
    reveal_strlit("&#39;");
    nothing_is_named(s, "&amp;"@, "&"@);
    nothing_is_named(s, "&lt;"@, "<"@);
    nothing_is_named(s, "&gt;"@, ">"@);
    nothing_is_named(s, "&quot;"@, "\""@);
    nothing_is_named(s, "&apos;"@, "'"@);
    nothing_is_named(s, "&#39;"@, "'"@);
}

proof fn nothing_is_named(s: Seq<char>, p: Seq<char>, by: Seq<char>)
    requires
        forall|i: int| 0 <= i < s.len() ==> #[trigger] s[i] != '&',
        p.len() > 0 && p[0] == '&',
    ensures
        text::replaced(s, p, by) == s,
{
    assert forall|i: int| 0 <= i implies !#[trigger] text::occurs_at(s, p, i) by {
        if text::occurs_at(s, p, i) {
            assert(s.subrange(i, i + p.len())[0] == s[i]);
        }
    }
    text::what_does_not_occur_is_not_replaced(s, p, by);
}

proof fn one_name_is_replaced(
    a: Seq<char>,
    name: Seq<char>,
    b: Seq<char>,
    p: Seq<char>,
    by: Seq<char>,
)
    requires
        is_bare(a),
        is_bare(b),
        name.len() > 0,
        forall|i: int| 0 < i < name.len() ==> #[trigger] name[i] != '&',
        p.len() > 1 && p[0] == '&',
        p == name || (name.len() > 1 && p[1] != name[1]) || name[0] != '&' || (name.len() == 1
            && (b.len() == 0 || b[0] != p[1])),
    ensures
        text::replaced(a + name + b, p, by) == if p == name {
            a + by + b
        } else {
            a + name + b
        },
{
    let s = a + name + b;
    let n = a.len() as int;
    a_name_stands_at_its_sign(a, name, b, p);
    if p == name {
        text::an_occurrence_is_replaced(a, p, b, by);
        nothing_is_named(b, p, by);
    } else {
        if text::occurs_at(s, p, a.len() as int) {
            let t = s.subrange(n, n + p.len());
            assert(t[0] == s[a.len() as int] && s[a.len() as int] == name[0]);
            assert(t[1] == s[n + 1]);
            if name.len() > 1 {
                assert(s[n + 1] == name[1]);
            } else if b.len() > 0 {
                assert(s[n + 1] == b[0]);
            }
        }
        assert forall|i: int| 0 <= i implies !#[trigger] text::occurs_at(s, p, i) by {}
        text::what_does_not_occur_is_not_replaced(s, p, by);
    }
}

/// A character that goes by a name shows as itself, and what stands before and
/// behind it stays.
pub proof fn a_named_character_shows_as_itself(a: Seq<char>, b: Seq<char>)
    requires
        is_bare(a),
        is_bare(b),
    ensures
        unescaped(a + "&lt;"@ + b) == a + "<"@ + b,
        unescaped(a + "&gt;"@ + b) == a + ">"@ + b,
        unescaped(a + "&quot;"@ + b) == a + "\""@ + b,
        unescaped(a + "&apos;"@ + b) == a + "'"@ + b,
        unescaped(a + "&#39;"@ + b) == a + "'"@ + b,
        !("lt;"@.is_prefix_of(b) || "gt;"@.is_prefix_of(b) || "quot;"@.is_prefix_of(b)
            || "apos;"@.is_prefix_of(b) || "#39;"@.is_prefix_of(b)) ==> unescaped(
            a + "&amp;"@ + b,
        ) == a + "&"@ + b,
{
    reveal_strlit("&amp;");
    reveal_strlit("&lt;");
    reveal_strlit("&gt;");
    reveal_strlit("&quot;");
    reveal_strlit("&apos;");
    reveal_strlit("&#39;");
    reveal_strlit("&");
    reveal_strlit("<");
    reveal_strlit(">");
    reveal_strlit("\"");
    reveal_strlit("'");
    reveal_strlit("lt;");
    reveal_strlit("gt;");
    reveal_strlit("quot;");
    reveal_strlit("apos;");
    reveal_strlit("#39;");
    let (amp, lt, gt, quot, apos, num) = (
        "&amp;"@,
        "&lt;"@,
        "&gt;"@,
        "&quot;"@,
        "&apos;"@,
        "&#39;"@,
    );
    one_name_is_replaced(a, lt, b, amp, "&"@);
    one_name_is_replaced(a, lt, b, lt, "<"@);
    one_name_is_replaced(a, "<"@, b, gt, ">"@);
    one_name_is_replaced(a, "<"@, b, quot, "\""@);
    one_name_is_replaced(a, "<"@, b, apos, "'"@);
    one_name_is_replaced(a, "<"@, b, num, "'"@);
    one_name_is_replaced(a, gt, b, amp, "&"@);
    one_name_is_replaced(a, gt, b, lt, "<"@);
    one_name_is_replaced(a, gt, b, gt, ">"@);
    one_name_is_replaced(a, ">"@, b, quot, "\""@);
    one_name_is_replaced(a, ">"@, b, apos, "'"@);
    one_name_is_replaced(a, ">"@, b, num, "'"@);
    one_name_is_replaced(a, quot, b, amp, "&"@);
    one_name_is_replaced(a, quot, b, lt, "<"@);
    one_name_is_replaced(a, quot, b, gt, ">"@);
    one_name_is_replaced(a, quot, b, quot, "\""@);
    one_name_is_replaced(a, "\""@, b, apos, "'"@);
    one_name_is_replaced(a, "\""@, b, num, "'"@);
    // `&apos;` shares its second letter with `&amp;`.
    one_name_is_kept(a, apos, b, amp, "&"@);
    one_name_is_replaced(a, apos, b, lt, "<"@);
    one_name_is_replaced(a, apos, b, gt, ">"@);
    one_name_is_replaced(a, apos, b, quot, "\""@);
    one_name_is_replaced(a, apos, b, apos, "'"@);
    one_name_is_replaced(a, "'"@, b, num, "'"@);
    one_name_is_replaced(a, num, b, amp, "&"@);
    one_name_is_replaced(a, num, b, lt, "<"@);
    one_name_is_replaced(a, num, b, gt, ">"@);
    one_name_is_replaced(a, num, b, quot, "\""@);
    one_name_is_replaced(a, num, b, apos, "'"@);
    one_name_is_replaced(a, num, b, num, "'"@);
    one_name_is_replaced(a, amp, b, amp, "&"@);
    if !("lt;"@.is_prefix_of(b) || "gt;"@.is_prefix_of(b) || "quot;"@.is_prefix_of(b)
        || "apos;"@.is_prefix_of(b) || "#39;"@.is_prefix_of(b)) {
        assert(lt =~= seq!['&'] + "lt;"@);
        assert(gt =~= seq!['&'] + "gt;"@);
        assert(quot =~= seq!['&'] + "quot;"@);
        assert(apos =~= seq!['&'] + "apos;"@);
        assert(num =~= seq!['&'] + "#39;"@);
        a_sign_is_no_name(a, b, lt, "lt;"@, "<"@);
        a_sign_is_no_name(a, b, gt, "gt;"@, ">"@);
        a_sign_is_no_name(a, b, quot, "quot;"@, "\""@);
        a_sign_is_no_name(a, b, apos, "apos;"@, "'"@);
        a_sign_is_no_name(a, b, num, "#39;"@, "'"@);
    }
}

proof fn one_name_is_kept(
    a: Seq<char>,
    name: Seq<char>,
    b: Seq<char>,
    p: Seq<char>,
    by: Seq<char>,
)
    requires
        is_bare(a),
        is_bare(b),
        name.len() > 2 && p.len() > 2,
        forall|i: int| 0 < i < name.len() ==> #[trigger] name[i] != '&',
        p[0] == '&',
        p[2] != name[2],
    ensures
        text::replaced(a + name + b, p, by) == a + name + b,
{
    let s = a + name + b;
    let n = a.len() as int;
    a_name_stands_at_its_sign(a, name, b, p);
    if text::occurs_at(s, p, a.len() as int) {
        assert(s.subrange(n, n + p.len())[2] == s[n + 2]);
        assert(s[n + 2] == name[2]);
    }
    assert forall|i: int| 0 <= i implies !#[trigger] text::occurs_at(s, p, i) by {}
    text::what_does_not_occur_is_not_replaced(s, p, by);
}

proof fn a_sign_is_no_name(
    a: Seq<char>,
    b: Seq<char>,
    p: Seq<char>,
    tail: Seq<char>,
    by: Seq<char>,
)
    requires
        is_bare(a),
        is_bare(b),
        p == seq!['&'] + tail,
        !tail.is_prefix_of(b),
    ensures
        text::replaced(a + "&"@ + b, p, by) == a + "&"@ + b,
{
    reveal_strlit("&");
    let s = a + "&"@ + b;
    let n = a.len() as int;
    a_name_stands_at_its_sign(a, "&"@, b, p);
    if text::occurs_at(s, p, a.len() as int) {
        let t = s.subrange(n, n + p.len());
        assert(b.subrange(0, tail.len() as int) =~= t.skip(1));
        assert(t.skip(1) =~= tail);
    }
    assert forall|i: int| 0 <= i implies !#[trigger] text::occurs_at(s, p, i) by {}
    text::what_does_not_occur_is_not_replaced(s, p, by);
}

/// A line without markup says its words, one space between each two: one that is
/// a single word says it as it is, and a word more is said behind a space.
pub proof fn a_plain_line_says_its_words(s: Seq<char>, space: char, word: Seq<char>)
    requires
        is_bare(s),
        is_bare(word),
        text::is_space(space),
        space != '<' && space != '>' && space != '&',
        word.len() > 0,
        forall|i: int| 0 <= i < word.len() ==> !text::is_space(#[trigger] word[i]),
    ensures
        said(word) == word,
        said(s.push(space)) == said(s),
        text::spaced_words(s).len() > 0 ==> said(s.push(space) + word) == said(s) + " "@ + word,
{
    let e = Seq::<char>::empty();
    let t = s.push(space);
    let u = t + word;
    assert(is_bare(t));
    assert(is_bare(u));
    bare_text_has_no_tags(e, word);
    bare_text_has_no_tags(e, s);
    bare_text_has_no_tags(e, t);
    bare_text_has_no_tags(e, u);
    assert(e + word =~= word && e + s =~= s && e + t =~= t && e + u =~= u);
    a_text_without_names_stays(word);
    a_text_without_names_stays(s);
    a_text_without_names_stays(t);
    a_text_without_names_stays(u);
    text::a_word_is_what_stands_between_spaces(s, space, word);
    text::joining_one_more(text::spaced_words(s), " "@, word);
}

/// A line is sung when its tag says that it begins, whichever quotes the tag
/// uses and whatever stands around that.
pub proof fn a_line_is_sung_when_it_begins(
    before: Seq<char>,
    raw: Seq<char>,
    behind: Seq<char>,
    quote: char,
)
    requires
        quote == '"' || quote == '\'',
        forall|i: int| 0 <= i < raw.len() ==> #[trigger] raw[i] != quote,
        forall|i: int|
            0 <= i < before.len() ==> !#[trigger] text::occurs_at(
                before + "begin="@ + seq![quote] + raw + seq![quote] + behind,
                "begin="@,
                i,
            ),
    ensures
        sung_at(before + "begin="@ + seq![quote] + raw + seq![quote] + behind) == match ms_in(
            raw,
        ) {
            Some(ms) => ms as int,
            None => 0,
        },
{
    reveal_strlit("begin");
    reveal_strlit("=");
    reveal_strlit("begin=");
    let needle = "begin"@ + "="@;
    assert(needle =~= "begin="@);
    let tag = before + "begin="@ + seq![quote] + raw + seq![quote] + behind;
    let at = before.len() as int;
    assert(tag.subrange(at, at + needle.len()) =~= needle);
    text::the_first_place_is_found(tag, needle, 0, at);
    let q = at + needle.len();
    assert(tag[q] == quote);
    let e = q + 1 + raw.len();
    assert(tag[e] == quote);
    assert(tag.subrange(e, e + 1) =~= seq![quote]);
    assert forall|j: int| q + 1 <= j < e implies !#[trigger] text::occurs_at(
        tag,
        seq![quote],
        j,
    ) by {
        if text::occurs_at(tag, seq![quote], j) {
            assert(tag.subrange(j, j + 1)[0] == tag[j]);
            assert(tag[j] == raw[j - q - 1]);
        }
    }
    text::the_first_place_is_found(tag, seq![quote], q + 1, e);
    assert(tag.subrange(q + 1, e) =~= raw);
}

/// A text is timed exactly where one of its lines is sung after the start.
pub proof fn a_text_is_timed_where_a_line_has_a_time(l: Lyrics, ttml: Seq<char>, i: int)
    requires
        reads(Some(l), ttml),
        0 <= i < l.lines@.len(),
    ensures
        l.lines@[i].start_ms > 0 ==> l.synced,
        (forall|j: int| 0 <= j < l.lines@.len() ==> (#[trigger] l.lines@[j]).start_ms == 0)
            ==> !l.synced,
        l.lines@.len() == lines_from(ttml, 0).len(),
        l.lines@[i].text@ == lines_from(ttml, 0)[i].text,
        l.lines@[i].start_ms == lines_from(ttml, 0)[i].start_ms,
{
    let lines = lines_from(ttml, 0);
    assert(line_views(l.lines@)[i] == lines[i]);
    assert forall|j: int| 0 <= j < lines.len() implies (#[trigger] lines[j]).start_ms
        == l.lines@[j].start_ms by {
        assert(line_views(l.lines@)[j] == lines[j]);
    }
}

/// The text of a song is where the answer says: in the timed text of its own
/// attributes, before that of anything it is related to or lists.
pub proof fn the_timed_text_of_the_attributes_is_read(value: Json, attrs: Json, ttml: Json)
    requires
        json::in_object(value, "attributes"@) == Some(attrs),
        json::in_object(attrs, "ttml"@) == Some(ttml),
        ttml is Text,
        text::occurs(ttml->Text_0@, "<p"@) || text::occurs(ttml->Text_0@, "<tt"@),
    ensures
        blob(value) == Some(ttml->Text_0@),
{
}

/// The text of a song is found in the first thing that an answer lists, where
/// the answer itself says nothing.
pub proof fn the_timed_text_of_the_first_listed_is_read(value: Json, items: Vec<Json>)
    requires
        json::in_object(value, "attributes"@) is None,
        json::in_object(value, "relationships"@) is None,
        json::in_object(value, "data"@) == Some(Json::List(items)),
        items@.len() > 0,
        blob(items@[0]) is Some,
    ensures
        blob(value) == blob(items@[0]),
{
    reveal_with_fuel(blob, 2);
    reveal_with_fuel(first_blob, 2);
    assert(!(value is List));
}

proof fn digits_hold_no_sign(s: Seq<char>)
    requires
        text::only_digits(s),
    ensures
        !text::is_space(s[0]),
        !text::is_space(s.last()),
        s.last() != 's',
        forall|i: int| 0 <= i < s.len() ==> #[trigger] s[i] != ':',
{
    assert('0' <= s[0] <= '9');
    assert('0' <= s[s.len() - 1] <= '9');
}

proof fn the_unit_is_dropped(s: Seq<char>)
    requires
        s.len() > 0,
        s.last() != 's',
    ensures
        without_unit(s) == s,
        without_unit(s.push('s')) == s,
{
    assert(s.push('s').drop_last() =~= s);
    reveal_with_fuel(without_unit, 2);
}

/// The parts of a time as it is written: with a colon between each two.
pub open spec fn written_time(h: Option<nat>, m: Option<nat>, s: nat) -> Seq<char> {
    let seconds = text::decimal(s);
    let minutes = match m {
        Some(m) => text::decimal(m).push(':') + seconds,
        None => seconds,
    };
    match h {
        Some(h) => text::decimal(h).push(':') + minutes,
        None => minutes,
    }
}

/// A time of whole hours, minutes and seconds is read as its milliseconds, to
/// the last one, with the letter for seconds behind it or without.
pub proof fn a_time_is_read_in_milliseconds(h: Option<nat>, m: Option<nat>, s: nat)
    requires
        h is Some ==> m is Some,
        h matches Some(n) ==> n < 1_000_000,
        m matches Some(n) ==> n < 1_000_000,
        s < 1_000_000,
    ensures
        ({
            let total = (match h {
                Some(n) => n * 3_600_000,
                None => 0,
            }) + (match m {
                Some(n) => n * 60_000,
                None => 0,
            }) + s * 1_000;
            &&& ms_in(written_time(h, m, s)) == Some(total as u64)
            &&& ms_in(written_time(h, m, s).push('s')) == Some(total as u64)
        }),
{
    let (a, b) = (
        match h {
            Some(n) => n,
            None => 0,
        },
        match m {
            Some(n) => n,
            None => 0,
        },
    );
    let raw = written_time(h, m, s);
    let ds = text::decimal(s);
    let dm = text::decimal(b);
    let dh = text::decimal(a);
    text::digits_are_read_back(s);
    text::digits_are_read_back(b);
    text::digits_are_read_back(a);
    digits_hold_no_sign(ds);
    digits_hold_no_sign(dm);
    digits_hold_no_sign(dh);
    text::a_text_is_cut_at_its_separators(ds, ':', Seq::empty());
    text::a_text_is_cut_at_its_separators(dm, ':', ds);
    text::a_text_is_cut_at_its_separators(dh, ':', dm.push(':') + ds);
    assert(raw[0] == if h is Some {
        dh[0]
    } else if m is Some {
        dm[0]
    } else {
        ds[0]
    });
    assert(raw.last() == ds.last());
    text::a_trimmed_text_stays(raw);
    text::a_trimmed_text_stays(raw.push('s'));
    the_unit_is_dropped(raw);
    let parts = text::split(raw, ':');
    decimal::a_whole_number_is_read_as_itself(s);
    decimal::a_whole_number_is_read_as_itself(b);
    decimal::a_whole_number_is_read_as_itself(a);
    let one = decimal::one();
    let (hs, ms, all) = (a * 3600, b * 60, a * 3600 + b * 60 + s);
    assert((a * one) * 3600 == hs * one) by (nonlinear_arith)
        requires
            hs == a * 3600,
    ;
    assert((b * one) * 60 == ms * one) by (nonlinear_arith)
        requires
            ms == b * 60,
    ;
    assert(hs * one + ms * one == (hs + ms) * one) by (nonlinear_arith);
    assert((hs + ms) * one + s * one == (hs + ms + s) * one) by (nonlinear_arith);
    assert(ms * one + s * one == (ms + s) * one) by (nonlinear_arith);
    decimal::a_whole_result_is_kept(hs);
    decimal::a_whole_result_is_kept(ms);
    decimal::a_whole_result_is_kept((hs + ms) as nat);
    decimal::a_whole_result_is_kept((hs + ms + s) as nat);
    decimal::a_whole_result_is_kept((ms + s) as nat);
    let total = if h is Some {
        all
    } else if m is Some {
        (ms + s) as nat
    } else {
        s
    };
    if h is Some {
        assert(parts =~= seq![dh, dm, ds]);
    } else if m is Some {
        assert(parts =~= seq![dm, ds]);
    } else {
        assert(parts =~= seq![ds]);
    }
    assert(time_in(raw) == Some(total * one));
    assert(time_in(raw.push('s')) == Some(total * one));
    let t = (total * 1000) as nat;
    assert((total * one) * 1000 == t * one) by (nonlinear_arith)
        requires
            t == total * 1000,
    ;
    decimal::a_whole_result_is_kept(t);
    decimal::a_whole_number_is_nearest_to_itself(t);
    vstd::arithmetic::power2::lemma_pow2_pos(1074);
    assert(total * one >= 0) by (nonlinear_arith)
        requires
            total >= 0,
            one > 0,
    ;
}

/// Whoever a song comes from is asked for its text: Spotify, YouTube Music, or
/// Apple Music where somebody is signed in there; Tidal is not.
pub proof fn whoever_a_song_comes_from_is_asked(rest: Seq<char>, apple: bool)
    ensures
        asked("sp:"@ + rest, apple) is Spotify,
        asked("yt:"@ + rest, apple) is Youtube,
        asked("td:"@ + rest, apple) is Nobody,
        rest.len() > 0 && '0' <= rest[0] <= '9' ==> asked(rest, true) is Apple,
        rest.len() > 0 && '0' <= rest[0] <= '9' ==> asked(rest, false) is Nobody,
{
    streams::an_id_tells_its_catalogue(rest);
    reveal_strlit("sp:");
    reveal_strlit("yt:");
    reveal_strlit("td:");
    assert("sp:"@[0] == 's' && "yt:"@[0] == 'y' && "td:"@[0] == 't');
    assert(("sp:"@ + rest).take(3) =~= "sp:"@);
    assert(("yt:"@ + rest).take(3) =~= "yt:"@);
    assert(("yt:"@ + rest)[0] == 'y' && ("td:"@ + rest)[0] == 't');
    assert(forall|p: Seq<char>, s: Seq<char>| #[trigger]
        p.is_prefix_of(s) && p.len() > 0 ==> s[0] == p[0]);
}

} // verus!
