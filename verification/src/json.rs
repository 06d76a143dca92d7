//! What a service answers: JSON, as plain values.
use serde_json::Value;
use vstd::prelude::*;

use crate::music::types::{seen, seen_opt};
use crate::text;

verus! {

/// A number.
#[derive(Debug, Clone, Copy, PartialEq, Eq, Structural)]
pub enum Number {
    /// Zero or above.
    Whole(u64),
    /// Below zero.
    Below(i64),
    /// Any other, by the bits of the double it is.
    Other(u64),
}

/// A JSON value.
#[derive(Debug, PartialEq, Eq)]
pub enum Json {
    Null,
    Bool(bool),
    Number(Number),
    Text(String),
    List(Vec<Json>),
    Object(Vec<(String, Json)>),
}

/// `serde_json::Value`: any JSON value.
#[verifier::external_type_specification]
#[verifier::external_body]
pub struct ExValue(serde_json::Value);

/// A `serde_json::Value` as a value of this library: each of its variants
/// becomes the one of the same meaning, and the members of an object keep their
/// order. A number that is neither a `u64` nor an `i64` goes by its bits.
/// Nothing is claimed of the result.
#[verifier::external_body]
pub(crate) fn from_value(v: Value) -> (r: Json) {
    match v {
        Value::Null => Json::Null,
        Value::Bool(b) => Json::Bool(b),
        Value::Number(n) => Json::Number(match (n.as_u64(), n.as_i64()) {
            (Some(u), _) => Number::Whole(u),
            (None, Some(i)) => Number::Below(i),
            (None, None) => Number::Other(n.as_f64().unwrap_or_default().to_bits()),
        }),
        Value::String(s) => Json::Text(s),
        Value::Array(a) => Json::List(a.into_iter().map(from_value).collect()),
        Value::Object(m) => {
            Json::Object(m.into_iter().map(|(k, v)| (k, from_value(v))).collect())
        }
    }
}

/// What `serde_json::from_str` reads from a text as a `serde_json::Value`.
pub uninterp spec fn parsed(s: Seq<char>) -> Option<Json>;

/// Texts as a JSON list.
pub open spec fn list_text(l: Seq<Seq<char>>) -> Seq<char> {
    "["@ + text::joined(l.map_values(|t: Seq<char>| quoted(t)), ","@) + "]"@
}

/// Texts as a JSON list.
pub fn write_list(texts: &Vec<String>) -> (r: String)
    ensures
        r@ == list_text(text::views(texts@)),
{
    let ghost all = text::views(texts@).map_values(|t: Seq<char>| quoted(t));
    let mut parts: Vec<String> = Vec::new();
    let mut i: usize = 0;
    while i < texts.len()
        invariant
            i <= texts@.len(),
            all == text::views(texts@).map_values(|t: Seq<char>| quoted(t)),
            text::views(parts@) == all.take(i as int),
        decreases texts@.len() - i,
    {
        let ghost before = parts@;
        let part = quote(texts[i].as_str());
        parts.push(part);
        proof {
            text::take_step(all, i as int);
            assert(text::views(parts@) =~= text::views(before).push(part@));
        }
        i += 1;
    }
    assert(all.take(i as int) =~= all);
    let mut out = "[".to_owned();
    out.append(text::join(&parts, ",").as_str());
    out.append("]");
    out
}

/// A part of a record: a number, or a list of texts.
pub enum Part {
    Whole(u64),
    Texts(Seq<Seq<char>>),
}

/// A part of a record in JSON.
pub open spec fn part_text(p: Part) -> Seq<char> {
    match p {
        Part::Whole(n) => text::decimal(n as nat),
        Part::Texts(l) => list_text(l),
    }
}

/// A record in JSON: an object of its parts, each under its name.
pub open spec fn record_text(parts: Seq<(Seq<char>, Part)>) -> Seq<char> {
    "{"@ + text::joined(
        parts.map_values(|p: (Seq<char>, Part)| quoted(p.0) + ":"@ + part_text(p.1)),
        ","@,
    ) + "}"@
}

/// Whether no two parts of a record have one name.
pub open spec fn distinct_names(parts: Seq<(Seq<char>, Part)>) -> bool {
    forall|i: int, j: int|
        0 <= i < j < parts.len() ==> (#[trigger] parts[i]).0 != (#[trigger] parts[j]).0
}

/// Whether a value is what a part of a record says.
pub open spec fn is_part(v: Option<Json>, p: Part) -> bool {
    match p {
        Part::Whole(n) => whole_in(v) == Some(n),
        Part::Texts(l) => {
            &&& list_in(v) matches Some(items)
            &&& items.len() == l.len()
            &&& forall|i: int| 0 <= i < l.len() ==> text_in(Some(#[trigger] items[i])) == Some(l[i])
        },
    }
}

/// Whether a value is an object that holds what a record says.
pub open spec fn is_record(v: Option<Json>, parts: Seq<(Seq<char>, Part)>) -> bool {
    &&& v matches Some(j)
    &&& j is Object
    &&& forall|i: int|
        0 <= i < parts.len() ==> is_part(in_object(j, (#[trigger] parts[i]).0), parts[i].1)
}

/// `serde_json::from_str`, asked for a `serde_json::Value`. The contract names
/// the result, a function of the text alone; which texts are JSON, and what
/// value each stands for, is left to that crate. One thing is said of it: the
/// text of a record is read back as the record.
#[verifier::external_body]
pub(crate) fn parse(s: &str) -> (r: Option<Json>)
    ensures
        r == parsed(s@),
        forall|parts: Seq<(Seq<char>, Part)>|
            s@ == #[trigger] record_text(parts) && distinct_names(parts) ==> is_record(r, parts),
{
    match serde_json::from_str::<Value>(s) {
        Ok(v) => Some(from_value(v)),
        Err(_) => None,
    }
}

/// The JSON value that a text stands for, if it does.
pub fn read(s: &str) -> (r: Option<Json>)
    ensures
        r == parsed(s@),
{
    parse(s)
}

/// The hexadecimal digit for `d`, in small letters.
pub open spec fn hex(d: int) -> char {
    if d < 10 {
        (('0' as int) + d) as char
    } else {
        (('a' as int) + d - 10) as char
    }
}

/// A character as it stands inside a JSON string.
pub open spec fn escaped(c: char) -> Seq<char> {
    if c == '"' {
        seq!['\\', '"']
    } else if c == '\\' {
        seq!['\\', '\\']
    } else if c == '\u{8}' {
        seq!['\\', 'b']
    } else if c == '\u{9}' {
        seq!['\\', 't']
    } else if c == '\u{a}' {
        seq!['\\', 'n']
    } else if c == '\u{c}' {
        seq!['\\', 'f']
    } else if c == '\u{d}' {
        seq!['\\', 'r']
    } else if (c as u32) < 0x20 {
        seq!['\\', 'u', '0', '0', hex((c as u32) as int / 16), hex((c as u32) as int % 16)]
    } else {
        seq![c]
    }
}

/// Characters as they stand inside a JSON string.
pub open spec fn inside_quotes(s: Seq<char>) -> Seq<char>
    decreases s.len(),
{
    if s.len() == 0 {
        Seq::empty()
    } else {
        inside_quotes(s.drop_last()) + escaped(s.last())
    }
}

/// A text as a JSON string.
pub open spec fn quoted(s: Seq<char>) -> Seq<char> {
    "\""@ + inside_quotes(s) + "\""@
}

/// `serde_json::to_string`, given a string. It puts the text in quotes, with a
/// backslash before a quote and a backslash, the short form of a backspace, a
/// tab, a line feed, a form feed and a carriage return, and the four digits of
/// any other control character below the space; nothing else changes. Writing
/// a string to memory does not fail.
#[verifier::external_body]
pub(crate) fn quote(s: &str) -> (r: String)
    ensures
        r@ == quoted(s@),
{
    serde_json::to_string(s).unwrap_or_default()
}

/// A text of small letters and underscores stands in quotes as it is.
pub proof fn a_plain_text_is_quoted_as_it_is(s: Seq<char>)
    requires
        forall|i: int| 0 <= i < s.len() ==> 'a' <= #[trigger] s[i] <= 'z' || s[i] == '_',
    ensures
        quoted(s) == "\""@ + s + "\""@,
{
    plain_inside(s);
}

proof fn plain_inside(s: Seq<char>)
    requires
        forall|i: int| 0 <= i < s.len() ==> 'a' <= #[trigger] s[i] <= 'z' || s[i] == '_',
    ensures
        inside_quotes(s) == s,
    decreases s.len(),
{
    if s.len() > 0 {
        assert forall|i: int| 0 <= i < s.drop_last().len() implies 'a'
            <= #[trigger] s.drop_last()[i] <= 'z' || s.drop_last()[i] == '_' by {
            assert(s.drop_last()[i] == s[i]);
        }
        plain_inside(s.drop_last());
        plain_char(s.last());
        assert(s =~= s.drop_last() + seq![s.last()]);
    }
}

proof fn plain_char(c: char)
    requires
        'a' <= c <= 'z' || c == '_',
    ensures
        escaped(c) == seq![c],
{
}

/// What a JSON string is written with: nothing below the space.
pub proof fn a_quoted_text_is_one_line(s: Seq<char>)
    ensures
        forall|i: int| 0 <= i < quoted(s).len() ==> quoted(s)[i] >= ' ',
{
    reveal_strlit("\"");
    inside_is_one_line(s);
}

proof fn inside_is_one_line(s: Seq<char>)
    ensures
        forall|i: int| 0 <= i < inside_quotes(s).len() ==> inside_quotes(s)[i] >= ' ',
    decreases s.len(),
{
    if s.len() > 0 {
        let before = inside_quotes(s.drop_last());
        let last = escaped(s.last());
        inside_is_one_line(s.drop_last());
        escaped_is_one_line(s.last());
        assert forall|i: int| 0 <= i < inside_quotes(s).len() implies inside_quotes(s)[i]
            >= ' ' by {
            assert(inside_quotes(s) == before + last);
            if i < before.len() {
                assert(inside_quotes(s)[i] == before[i]);
            } else {
                assert(inside_quotes(s)[i] == last[i - before.len()]);
            }
        }
    }
}

proof fn escaped_is_one_line(c: char)
    ensures
        forall|i: int| 0 <= i < escaped(c).len() ==> escaped(c)[i] >= ' ',
{
    if (c as u32) < 0x20 {
        let n = (c as u32) as int;
        assert(0 <= n / 16 < 2);
        assert(0 <= n % 16 < 16);
    }
}

/// What a reference to a value holds.
pub open spec fn held(v: Option<&Json>) -> Option<Json> {
    match v {
        Some(j) => Some(*j),
        None => None,
    }
}

/// The first member of this name.
pub open spec fn member(m: Seq<(String, Json)>, key: Seq<char>) -> Option<Json>
    decreases m.len(),
{
    if m.len() == 0 {
        None
    } else if m[0].0@ == key {
        Some(m[0].1)
    } else {
        member(m.skip(1), key)
    }
}

/// The member of this name of an object; nothing else has one.
pub open spec fn in_object(v: Json, key: Seq<char>) -> Option<Json> {
    match v {
        Json::Object(m) => member(m@, key),
        _ => None,
    }
}

/// A part of a record: the member called `key`, or what stands at place `i`
/// where the parts are listed without their names.
pub open spec fn field_in(v: Json, i: int, key: Seq<char>) -> Option<Json> {
    match v {
        Json::List(l) => if 0 <= i < l@.len() {
            Some(l@[i])
        } else {
            None
        },
        _ => in_object(v, key),
    }
}

/// A part of a record.
pub fn field<'a>(v: &'a Json, i: usize, key: &str) -> (r: Option<&'a Json>)
    ensures
        held(r) == field_in(*v, i as int, key@),
{
    match v {
        Json::List(l) => if i < l.len() {
            Some(&l[i])
        } else {
            None
        },
        _ => v.get(key),
    }
}

/// Whether a value can hold the parts of a record: an object, or a list of them
/// from place `from` on that leaves out none of the first `least` and has no
/// more than `most`.
pub open spec fn fits(v: Json, from: int, least: int, most: int) -> bool {
    match v {
        Json::Object(_) => true,
        Json::List(l) => from + least <= l@.len() <= from + most,
        _ => false,
    }
}

/// Whether a value can hold the parts of a record.
pub fn fitting(v: &Json, from: usize, least: usize, most: usize) -> (r: bool)
    requires
        from + least <= usize::MAX,
        from + most <= usize::MAX,
    ensures
        r == fits(*v, from as int, least as int, most as int),
{
    match v {
        Json::Object(_) => true,
        Json::List(l) => from + least <= l.len() && l.len() <= from + most,
        _ => false,
    }
}

/// The member of this name of a value that may be absent.
pub open spec fn under(v: Option<Json>, key: Seq<char>) -> Option<Json> {
    match v {
        Some(j) => in_object(j, key),
        None => None,
    }
}

/// The first of two values that is there.
pub open spec fn either(a: Option<Json>, b: Option<Json>) -> Option<Json> {
    if a is Some {
        a
    } else {
        b
    }
}

/// The text that a value is.
pub open spec fn text_in(v: Option<Json>) -> Option<Seq<char>> {
    match v {
        Some(Json::Text(s)) => Some(s@),
        _ => None,
    }
}

/// The text that a value is, or an empty one.
pub open spec fn words(v: Option<Json>) -> Seq<char> {
    match text_in(v) {
        Some(s) => s,
        None => Seq::empty(),
    }
}

/// The whole number that a value is.
pub open spec fn whole_in(v: Option<Json>) -> Option<u64> {
    match v {
        Some(Json::Number(Number::Whole(n))) => Some(n),
        _ => None,
    }
}

/// The whole number that a value is, or zero.
pub open spec fn count_in(v: Option<Json>) -> u64 {
    match whole_in(v) {
        Some(n) => n,
        None => 0,
    }
}

/// The truth that a value is.
pub open spec fn truth_in(v: Option<Json>) -> Option<bool> {
    match v {
        Some(Json::Bool(b)) => Some(b),
        _ => None,
    }
}

/// What the list holds that a value is.
pub open spec fn list_in(v: Option<Json>) -> Option<Seq<Json>> {
    match v {
        Some(Json::List(l)) => Some(l@),
        _ => None,
    }
}

/// What the list holds that a value is, or nothing.
pub open spec fn items_in(v: Option<Json>) -> Seq<Json> {
    match list_in(v) {
        Some(l) => l,
        None => Seq::empty(),
    }
}

impl Json {
    /// The member of this name.
    pub fn get(&self, key: &str) -> (r: Option<&Json>)
        ensures
            held(r) == in_object(*self, key@),
    {
        match self {
            Json::Object(m) => {
                let mut i: usize = 0;
                assert(m@.skip(0) =~= m@);
                while i < m.len()
                    invariant
                        i <= m@.len(),
                        *self == Json::Object(*m),
                        member(m@, key@) == member(m@.skip(i as int), key@),
                    decreases m@.len() - i,
                {
                    proof {
                        assert(m@.skip(i as int)[0] == m@[i as int]);
                        assert(m@.skip(i as int).skip(1) =~= m@.skip(i + 1));
                    }
                    if text::same(m[i].0.as_str(), key) {
                        return Some(&m[i].1);
                    }
                    i += 1;
                }
                None
            },
            _ => None,
        }
    }

    pub fn is_null(&self) -> (r: bool)
        ensures
            r == (*self is Null),
    {
        matches!(self, Json::Null)
    }
}

/// The member of this name of a value that may be absent.
pub fn at<'a>(v: Option<&'a Json>, key: &str) -> (r: Option<&'a Json>)
    ensures
        held(r) == under(held(v), key@),
{
    match v {
        Some(j) => j.get(key),
        None => None,
    }
}

/// The first of two values that is there.
pub fn or<'a>(a: Option<&'a Json>, b: Option<&'a Json>) -> (r: Option<&'a Json>)
    ensures
        held(r) == either(held(a), held(b)),
{
    match a {
        Some(j) => Some(j),
        None => b,
    }
}

/// The text that a value is.
pub fn text_of<'a>(v: Option<&'a Json>) -> (r: Option<&'a str>)
    ensures
        match r {
            Some(s) => text_in(held(v)) == Some(s@),
            None => text_in(held(v)) is None,
        },
{
    match v {
        Some(Json::Text(s)) => Some(s.as_str()),
        _ => None,
    }
}

/// The text that a value is, or an empty one.
pub fn words_of(v: Option<&Json>) -> (r: String)
    ensures
        r@ == words(held(v)),
{
    match text_of(v) {
        Some(s) => s.to_owned(),
        None => String::new(),
    }
}

/// The whole number that a value is.
pub fn whole_of(v: Option<&Json>) -> (r: Option<u64>)
    ensures
        r == whole_in(held(v)),
{
    match v {
        Some(Json::Number(Number::Whole(n))) => Some(*n),
        _ => None,
    }
}

/// The whole number that a value is, or zero.
pub fn count_of(v: Option<&Json>) -> (r: u64)
    ensures
        r == count_in(held(v)),
{
    match whole_of(v) {
        Some(n) => n,
        None => 0,
    }
}

/// The truth that a value is.
pub fn truth_of(v: Option<&Json>) -> (r: Option<bool>)
    ensures
        r == truth_in(held(v)),
{
    match v {
        Some(Json::Bool(b)) => Some(*b),
        _ => None,
    }
}

/// What the list holds that a value is.
pub fn list_of<'a>(v: Option<&'a Json>) -> (r: Option<&'a Vec<Json>>)
    ensures
        match r {
            Some(l) => list_in(held(v)) == Some(l@),
            None => list_in(held(v)) is None,
        },
{
    match v {
        Some(Json::List(l)) => Some(l),
        _ => None,
    }
}

/// What `f` makes of the things it makes something of, in order.
pub open spec fn chosen<A, B>(s: Seq<A>, f: spec_fn(A) -> Option<B>) -> Seq<B>
    decreases s.len(),
{
    if s.len() == 0 {
        Seq::empty()
    } else {
        let r = chosen(s.drop_last(), f);
        match f(s.last()) {
            Some(b) => r.push(b),
            None => r,
        }
    }
}

/// What is made of one more thing.
pub proof fn chosen_step<A, B>(s: Seq<A>, f: spec_fn(A) -> Option<B>, i: int)
    requires
        0 <= i < s.len(),
    ensures
        chosen(s.take(i + 1), f) == match f(s[i]) {
            Some(b) => chosen(s.take(i), f).push(b),
            None => chosen(s.take(i), f),
        },
        chosen(s.take(0), f) == Seq::<B>::empty(),
{
    text::take_step(s, i);
    assert(s.take(i + 1).drop_last() =~= s.take(i));
    assert(s.take(i + 1).last() == s[i]);
    assert(s.take(0) =~= Seq::<A>::empty());
}

/// Nothing is made of nothing.
pub proof fn chosen_of_none<A, B>(s: Seq<A>, f: spec_fn(A) -> Option<B>)
    ensures
        chosen(s.take(0), f) == Seq::<B>::empty(),
        s.take(s.len() as int) == s,
{
    assert(s.take(0) =~= Seq::<A>::empty());
    assert(s.take(s.len() as int) =~= s);
}

/// What `f` makes of the things of a list that it makes something of, `g` saying
/// what that is.
pub(crate) fn choose_items<T: View>(
    items: &Vec<Json>,
    f: impl Fn(&Json) -> Option<T>,
    Ghost(g): Ghost<spec_fn(Json) -> Option<T::V>>,
) -> (r: Vec<T>)
    requires
        forall|j: &Json| #[trigger] call_requires(f, (j,)),
        forall|j: &Json, o: Option<T>| #[trigger]
            call_ensures(f, (j,), o) ==> seen_opt(o) == g(*j),
    ensures
        seen(r@) == chosen(items@, g),
{
    assert(items@.take(items@.len() as int) =~= items@);
    choose_first(items, items.len(), f, Ghost(g))
}

/// What `f` makes of the first `n` things of a list that it makes something of,
/// `g` saying what that is.
pub(crate) fn choose_first<T: View>(
    items: &Vec<Json>,
    n: usize,
    f: impl Fn(&Json) -> Option<T>,
    Ghost(g): Ghost<spec_fn(Json) -> Option<T::V>>,
) -> (r: Vec<T>)
    requires
        n <= items@.len(),
        forall|j: &Json| #[trigger] call_requires(f, (j,)),
        forall|j: &Json, o: Option<T>| #[trigger]
            call_ensures(f, (j,), o) ==> seen_opt(o) == g(*j),
    ensures
        seen(r@) == chosen(items@.take(n as int), g),
{
    let mut out: Vec<T> = Vec::new();
    let mut i: usize = 0;
    proof {
        chosen_of_none(items@, g);
        assert(seen(out@) =~= Seq::<T::V>::empty());
    }
    while i < n
        invariant
            i <= n <= items@.len(),
            forall|j: &Json| #[trigger] call_requires(f, (j,)),
            forall|j: &Json, o: Option<T>| #[trigger]
                call_ensures(f, (j,), o) ==> seen_opt(o) == g(*j),
            seen(out@) == chosen(items@.take(i as int), g),
        decreases n - i,
    {
        proof {
            chosen_step(items@, g, i as int);
        }
        match f(&items[i]) {
            Some(t) => {
                let ghost out0 = out@;
                out.push(t);
                assert(seen(out@) =~= seen(out0).push(t@));
            },
            None => {},
        }
        i += 1;
    }
    out
}

/// What `f` makes of things, if it makes something of each.
pub open spec fn every<A, B>(s: Seq<A>, f: spec_fn(A) -> Option<B>) -> Option<Seq<B>>
    decreases s.len(),
{
    if s.len() == 0 {
        Some(Seq::empty())
    } else {
        match (every(s.drop_last(), f), f(s.last())) {
            (Some(r), Some(b)) => Some(r.push(b)),
            _ => None,
        }
    }
}

proof fn not_every<A, B>(s: Seq<A>, f: spec_fn(A) -> Option<B>, i: int)
    requires
        0 <= i < s.len(),
        f(s[i]) is None,
    ensures
        every(s, f) is None,
    decreases s.len(),
{
    if i < s.len() - 1 {
        not_every(s.drop_last(), f, i);
    }
}

/// What `f` makes of the things of a list, if it makes something of each, `g`
/// saying what that is.
pub(crate) fn every_item<T: View>(
    items: &Vec<Json>,
    f: impl Fn(&Json) -> Option<T>,
    Ghost(g): Ghost<spec_fn(Json) -> Option<T::V>>,
) -> (r: Option<Vec<T>>)
    requires
        forall|j: &Json| #[trigger] call_requires(f, (j,)),
        forall|j: &Json, o: Option<T>| #[trigger]
            call_ensures(f, (j,), o) ==> seen_opt(o) == g(*j),
    ensures
        match r {
            Some(v) => every(items@, g) == Some(seen(v@)),
            None => every(items@, g) is None,
        },
{
    let mut out: Vec<T> = Vec::new();
    let mut i: usize = 0;
    proof {
        assert(items@.take(0) =~= Seq::<Json>::empty());
        assert(seen(out@) =~= Seq::<T::V>::empty());
    }
    while i < items.len()
        invariant
            i <= items@.len(),
            forall|j: &Json| #[trigger] call_requires(f, (j,)),
            forall|j: &Json, o: Option<T>| #[trigger]
                call_ensures(f, (j,), o) ==> seen_opt(o) == g(*j),
            every(items@.take(i as int), g) == Some(seen(out@)),
        decreases items@.len() - i,
    {
        proof {
            text::take_step(items@, i as int);
            assert(items@.take(i + 1).drop_last() =~= items@.take(i as int));
            assert(items@.take(i + 1).last() == items@[i as int]);
        }
        match f(&items[i]) {
            Some(t) => {
                let ghost out0 = out@;
                out.push(t);
                assert(seen(out@) =~= seen(out0).push(t@));
            },
            None => {
                proof {
                    not_every(items@, g, i as int);
                }
                return None;
            },
        }
        i += 1;
    }
    assert(items@.take(i as int) =~= items@);
    Some(out)
}

/// A member of an object is smaller than the object.
pub proof fn a_member_is_smaller(v: Json, key: Seq<char>)
    ensures
        in_object(v, key) matches Some(j) ==> decreases_to!(v => j),
{
    if let Json::Object(m) = v {
        if member(m@, key) is Some {
            let i = member_at(m@, key);
            assert(decreases_to!(v => m));
            assert(decreases_to!(m => m@));
            assert(decreases_to!(m@ => m@[i]));
            assert(decreases_to!(m@[i] => m@[i].1));
        }
    }
}

proof fn member_at(m: Seq<(String, Json)>, key: Seq<char>) -> (i: int)
    requires
        member(m, key) is Some,
    ensures
        0 <= i < m.len(),
        member(m, key) == Some(m[i].1),
    decreases m.len(),
{
    if m[0].0@ == key {
        0
    } else {
        let k = member_at(m.skip(1), key);
        k + 1
    }
}

/// An item of a list is smaller than the list.
pub proof fn an_item_is_smaller(v: Json, i: int)
    ensures
        v matches Json::List(l) ==> (0 <= i < l@.len() ==> decreases_to!(v => l@[i])),
        v matches Json::List(l) ==> decreases_to!(v => l@),
{
    if let Json::List(l) = v {
        assert(decreases_to!(v => l));
        assert(decreases_to!(l => l@));
        if 0 <= i < l@.len() {
            assert(decreases_to!(l@ => l@[i]));
        }
    }
}

/// Whether the member of this name is this text.
pub open spec fn says(v: Json, key: Seq<char>, t: Seq<char>) -> bool {
    in_object(v, key) matches Some(Json::Text(s)) && s@ == t
}

/// A member is the first that has its name, and there is none where no member
/// has it.
pub proof fn a_member_is_the_first_of_its_name(m: Vec<(String, Json)>, key: Seq<char>, i: int)
    requires
        0 <= i <= m@.len(),
        forall|j: int| 0 <= j < i ==> (#[trigger] m@[j]).0@ != key,
        i < m@.len() ==> m@[i].0@ == key,
    ensures
        in_object(Json::Object(m), key) == if i < m@.len() {
            Some(m@[i].1)
        } else {
            None
        },
{
    first_member(m@, key, i);
}

proof fn first_member(m: Seq<(String, Json)>, key: Seq<char>, i: int)
    requires
        0 <= i <= m.len(),
        forall|j: int| 0 <= j < i ==> (#[trigger] m[j]).0@ != key,
        i < m.len() ==> m[i].0@ == key,
    ensures
        member(m, key) == if i < m.len() {
            Some(m[i].1)
        } else {
            None
        },
    decreases m.len(),
{
    if m.len() > 0 && i > 0 {
        assert(m[0].0@ != key);
        let rest = m.skip(1);
        assert forall|j: int| 0 <= j < i - 1 implies (#[trigger] rest[j]).0@ != key by {
            assert(rest[j] == m[j + 1]);
        }
        first_member(rest, key, i - 1);
    }
}

/// A value is read as what it is, and as nothing else: a text is no number, no
/// truth and no list.
pub proof fn a_value_is_what_it_is(v: Json)
    ensures
        text_in(Some(v)) == match v {
            Json::Text(s) => Some(s@),
            _ => None,
        },
        words(Some(v)) == match v {
            Json::Text(s) => s@,
            _ => Seq::<char>::empty(),
        },
        whole_in(Some(v)) == match v {
            Json::Number(Number::Whole(n)) => Some(n),
            _ => None,
        },
        truth_in(Some(v)) == match v {
            Json::Bool(b) => Some(b),
            _ => None,
        },
        items_in(Some(v)) == match v {
            Json::List(l) => l@,
            _ => Seq::<Json>::empty(),
        },
        text_in(None) is None && whole_in(None) is None && truth_in(None) is None,
        words(None).len() == 0 && count_in(None) == 0 && items_in(None).len() == 0,
{
}

/// What is made of two lists, one behind the other, is what is made of the one
/// and behind it what is made of the other; what is made of one thing stands
/// alone, and what nothing is made of leaves no trace.
pub proof fn what_is_made_keeps_its_order<A, B>(
    a: Seq<A>,
    one: A,
    b: Seq<A>,
    f: spec_fn(A) -> Option<B>,
)
    ensures
        chosen(a + b, f) == chosen(a, f) + chosen(b, f),
        chosen(seq![one], f) == match f(one) {
            Some(r) => seq![r],
            None => Seq::empty(),
        },
        chosen(a.push(one) + b, f) == match f(one) {
            Some(r) => chosen(a, f).push(r) + chosen(b, f),
            None => chosen(a, f) + chosen(b, f),
        },
{
    chosen_of_both(a, b, f);
    chosen_of_both(a.push(one), b, f);
    assert(a.push(one).drop_last() =~= a);
    assert(seq![one].drop_last() =~= Seq::<A>::empty());
    assert(chosen(Seq::<A>::empty(), f) =~= Seq::<B>::empty());
    match f(one) {
        Some(r) => {
            assert(Seq::<B>::empty().push(r) =~= seq![r]);
        },
        None => {},
    }
}

proof fn chosen_of_both<A, B>(a: Seq<A>, b: Seq<A>, f: spec_fn(A) -> Option<B>)
    ensures
        chosen(a + b, f) == chosen(a, f) + chosen(b, f),
    decreases b.len(),
{
    if b.len() == 0 {
        assert(a + b =~= a);
        assert(chosen(a, f) + chosen(b, f) =~= chosen(a, f));
    } else {
        chosen_of_both(a, b.drop_last(), f);
        assert((a + b).drop_last() =~= a + b.drop_last());
        match f(b.last()) {
            Some(r) => {
                assert(chosen(a, f) + chosen(b.drop_last(), f).push(r) =~= (chosen(a, f) + chosen(
                    b.drop_last(),
                    f,
                )).push(r));
            },
            None => {},
        }
    }
}

/// Where something is made of one thing of a list alone, that is all that is
/// made of the list.
pub proof fn one_thing_is_made<A, B>(s: Seq<A>, f: spec_fn(A) -> Option<B>, i: int)
    requires
        0 <= i < s.len(),
        f(s[i]) is Some,
        forall|j: int| 0 <= j < s.len() && j != i ==> f(#[trigger] s[j]) is None,
    ensures
        chosen(s, f) == seq![f(s[i])->0],
{
    let a = s.take(i);
    let b = s.skip(i + 1);
    assert(s =~= a.push(s[i]) + b);
    assert forall|j: int| 0 <= j < b.len() implies f(#[trigger] b[j]) is None by {
        assert(b[j] == s[i + 1 + j]);
    }
    nothing_is_made(a, f);
    nothing_is_made(b, f);
    what_is_made_keeps_its_order(a, s[i], b, f);
    assert(chosen(s, f) =~= seq![f(s[i])->0]);
}

/// Where nothing is made of any thing of a list, nothing is made of the list.
pub proof fn nothing_is_made<A, B>(s: Seq<A>, f: spec_fn(A) -> Option<B>)
    requires
        forall|j: int| 0 <= j < s.len() ==> f(#[trigger] s[j]) is None,
    ensures
        chosen(s, f) == Seq::<B>::empty(),
    decreases s.len(),
{
    if s.len() > 0 {
        assert forall|j: int| 0 <= j < s.drop_last().len() implies f(
            #[trigger] s.drop_last()[j],
        ) is None by {
            assert(s.drop_last()[j] == s[j]);
        }
        nothing_is_made(s.drop_last(), f);
        assert(s.last() == s[s.len() - 1]);
    }
}

/// What is made of two things alone, one before the other, stands in their order.
pub proof fn two_things_are_made<A, B>(s: Seq<A>, f: spec_fn(A) -> Option<B>, i: int, k: int)
    requires
        0 <= i < k < s.len(),
        f(s[i]) is Some,
        f(s[k]) is Some,
        forall|j: int| 0 <= j < s.len() && j != i && j != k ==> f(#[trigger] s[j]) is None,
    ensures
        chosen(s, f) == seq![f(s[i])->0, f(s[k])->0],
{
    let a = s.take(i + 1);
    let b = s.skip(i + 1);
    assert(s =~= a + b);
    assert forall|j: int| 0 <= j < a.len() && j != i implies f(#[trigger] a[j]) is None by {
        assert(a[j] == s[j]);
    }
    assert forall|j: int| 0 <= j < b.len() && j != k - i - 1 implies f(#[trigger] b[j]) is None by {
        assert(b[j] == s[i + 1 + j]);
    }
    one_thing_is_made(a, f, i);
    one_thing_is_made(b, f, k - i - 1);
    what_is_made_keeps_its_order(a, s[i], b, f);
    assert(chosen(s, f) =~= seq![f(s[i])->0, f(s[k])->0]);
}

/// Texts are written one by one, and a quote or a backslash inside is marked by
/// a backslash before it.
pub proof fn a_text_is_quoted_by_its_characters(a: Seq<char>, b: Seq<char>)
    ensures
        inside_quotes(a + b) == inside_quotes(a) + inside_quotes(b),
        inside_quotes(seq!['"']) == seq!['\\', '"'],
        inside_quotes(seq!['\\']) == seq!['\\', '\\'],
    decreases b.len(),
{
    reveal_with_fuel(inside_quotes, 2);
    assert(seq!['"'].drop_last() =~= Seq::<char>::empty());
    assert(seq!['\\'].drop_last() =~= Seq::<char>::empty());
    assert(inside_quotes(seq!['"']) =~= seq!['\\', '"']);
    assert(inside_quotes(seq!['\\']) =~= seq!['\\', '\\']);
    if b.len() == 0 {
        assert(a + b =~= a);
        assert(inside_quotes(a) + inside_quotes(b) =~= inside_quotes(a));
    } else {
        a_text_is_quoted_by_its_characters(a, b.drop_last());
        assert((a + b).drop_last() =~= a + b.drop_last());
        assert(inside_quotes(a) + (inside_quotes(b.drop_last()) + escaped(b.last())) =~= (
        inside_quotes(a) + inside_quotes(b.drop_last())) + escaped(b.last()));
    }
}

/// What is made of every thing of a list is as long as the list, each part made
/// of the thing at its place; where nothing is made of one, there is nothing.
pub proof fn every_is_whole<A, B>(s: Seq<A>, f: spec_fn(A) -> Option<B>)
    ensures
        every(s, f) matches Some(r) ==> r.len() == s.len() && forall|i: int|
            0 <= i < s.len() ==> Some(#[trigger] r[i]) == f(s[i]),
        every(s, f) is Some == (forall|i: int| 0 <= i < s.len() ==> f(#[trigger] s[i]) is Some),
    decreases s.len(),
{
    if s.len() > 0 {
        let rest = s.drop_last();
        every_is_whole(rest, f);
        assert forall|i: int| 0 <= i < rest.len() implies rest[i] == s[i] by {}
        if every(s, f) is Some {
            let r = every(s, f)->0;
            assert forall|i: int| 0 <= i < s.len() implies Some(#[trigger] r[i]) == f(s[i]) by {
                if i < rest.len() {
                    assert(r[i] == every(rest, f)->0[i]);
                }
            }
            assert forall|i: int| 0 <= i < s.len() implies f(#[trigger] s[i]) is Some by {
                assert(Some(r[i]) == f(s[i]));
            }
        } else if forall|i: int| 0 <= i < s.len() ==> f(#[trigger] s[i]) is Some {
            assert forall|i: int| 0 <= i < rest.len() implies f(#[trigger] rest[i]) is Some by {
                assert(f(s[i]) is Some);
            }
            assert(f(s[s.len() - 1]) is Some);
        }
    }
}

} // verus!
