//! Strings as sequences of characters, and the small operations on them that
//! the rest of the library is written in.
use vstd::prelude::*;

verus! {

/// `String::push` adds one character at the end and changes nothing else.
pub assume_specification[ String::push ](s: &mut String, c: char)
    ensures
        final(s)@ == old(s)@.push(c),
;

/// What the strings of a list hold.
pub open spec fn views(v: Seq<String>) -> Seq<Seq<char>> {
    v.map_values(|s: String| s@)
}

/// What an optional string holds.
pub open spec fn opt_view(s: Option<String>) -> Option<Seq<char>> {
    match s {
        Some(t) => Some(t@),
        None => None,
    }
}

/// Whether `i` is the first position at which `p` holds.
pub open spec fn is_first<A>(s: Seq<A>, p: spec_fn(A) -> bool, i: int) -> bool {
    &&& 0 <= i < s.len()
    &&& p(s[i])
    &&& forall|j: int| 0 <= j < i ==> !p(#[trigger] s[j])
}

/// Whether `p` holds nowhere.
pub open spec fn nowhere<A>(s: Seq<A>, p: spec_fn(A) -> bool) -> bool {
    forall|j: int| 0 <= j < s.len() ==> !p(#[trigger] s[j])
}

/// A sequence cut after one more element.
pub proof fn take_step<A>(s: Seq<A>, i: int)
    requires
        0 <= i < s.len(),
    ensures
        s.take(i + 1) == s.take(i).push(s[i]),
{
    assert(s.take(i + 1) =~= s.take(i).push(s[i]));
}

/// What a filter keeps of one more element.
pub proof fn filter_step<A>(s: Seq<A>, p: spec_fn(A) -> bool, i: int)
    requires
        0 <= i < s.len(),
    ensures
        s.take(i + 1).filter(p) == if p(s[i]) {
            s.take(i).filter(p).push(s[i])
        } else {
            s.take(i).filter(p)
        },
{
    take_step(s, i);
    let t = s.take(i + 1);
    assert(t.drop_last() =~= s.take(i));
    assert(t.last() == s[i]);
    reveal(Seq::filter);
}

/// The characters of `s`, in order.
pub fn chars(s: &str) -> (r: Vec<char>)
    ensures
        r@ == s@,
{
    let mut out: Vec<char> = Vec::new();
    for c in it: s.chars()
        invariant
            out@ == it.seq().take(it.index()),
            it.seq() == s@,
    {
        out.push(c);
    }
    out
}

/// The string that holds `v[from..to]`.
pub fn slice(v: &Vec<char>, from: usize, to: usize) -> (r: String)
    requires
        from <= to <= v@.len(),
    ensures
        r@ == v@.subrange(from as int, to as int),
{
    let mut out = String::new();
    for i in from..to
        invariant
            from <= to <= v@.len(),
            out@ == v@.subrange(from as int, i as int),
    {
        out.push(v[i]);
    }
    out
}

/// Whether two strings hold the same characters.
pub fn same(a: &str, b: &str) -> (r: bool)
    ensures
        r == (a@ == b@),
{
    a.to_owned() == b.to_owned()
}

/// Whether two optional strings are both absent, or hold the same characters.
pub fn same_opt(a: &Option<String>, b: &Option<String>) -> (r: bool)
    ensures
        r == (opt_view(*a) == opt_view(*b)),
{
    match (a, b) {
        (Some(x), Some(y)) => same(x.as_str(), y.as_str()),
        (None, None) => true,
        _ => false,
    }
}

/// The first list position that holds `wanted`.
pub fn position(list: &Vec<String>, wanted: &str) -> (r: Option<usize>)
    ensures
        match r {
            Some(i) => is_first(list@, |s: String| s@ == wanted@, i as int),
            None => nowhere(list@, |s: String| s@ == wanted@),
        },
{
    let mut i: usize = 0;
    while i < list.len()
        invariant
            i <= list@.len(),
            forall|j: int| 0 <= j < i ==> (#[trigger] list@[j])@ != wanted@,
        decreases list@.len() - i,
    {
        if same(list[i].as_str(), wanted) {
            return Some(i);
        }
        i += 1;
    }
    None
}

/// The digit for `d`.
pub open spec fn digit(d: int) -> char {
    (('0' as int) + d) as char
}

/// `n` written in base ten, without leading zeros.
pub open spec fn decimal(n: nat) -> Seq<char>
    decreases n,
{
    if n < 10 {
        seq![digit(n as int)]
    } else {
        decimal(n / 10).push(digit((n % 10) as int))
    }
}

/// `n` written in base ten.
pub fn number(n: u64) -> (r: String)
    ensures
        r@ == decimal(n as nat),
    decreases n,
{
    let mut out = if n < 10 { String::new() } else { number(n / 10) };
    let low: u8 = (n % 10) as u8;
    out.push((48u8 + low) as char);
    out
}

/// An integer written in base ten, with a minus sign before it where it is
/// below zero.
pub open spec fn signed_decimal(n: int) -> Seq<char> {
    if n < 0 {
        seq!['-'] + decimal((-n) as nat)
    } else {
        decimal(n as nat)
    }
}

/// An integer written in base ten.
pub fn integer(n: i64) -> (r: String)
    ensures
        r@ == signed_decimal(n as int),
{
    if n >= 0 {
        return number(n as u64);
    }
    let size: u64 = (-(n as i128)) as u64;
    let mut out = String::new();
    out.push('-');
    out.append(number(size).as_str());
    assert(out@ =~= seq!['-'] + decimal((-n) as nat));
    out
}

/// Two different numbers are written differently.
pub proof fn decimal_injective(a: nat, b: nat)
    requires
        decimal(a) == decimal(b),
    ensures
        a == b,
    decreases a,
{
    let x = decimal(a);
    let y = decimal(b);
    decimal_nonempty(a);
    decimal_nonempty(b);
    assert(x.last() == digit((a % 10) as int));
    assert(y.last() == digit((b % 10) as int));
    assert(a % 10 == b % 10);
    if a < 10 || b < 10 {
        if a >= 10 {
            decimal_nonempty(a / 10);
        }
        if b >= 10 {
            decimal_nonempty(b / 10);
        }
    } else {
        assert(x.drop_last() =~= decimal(a / 10));
        assert(y.drop_last() =~= decimal(b / 10));
        decimal_injective(a / 10, b / 10);
    }
}

/// A number is written with at least one digit, and with digits only.
pub proof fn decimal_nonempty(n: nat)
    ensures
        decimal(n).len() > 0,
        forall|i: int| 0 <= i < decimal(n).len() ==> '0' <= #[trigger] decimal(n)[i] <= '9',
    decreases n,
{
    if n >= 10 {
        decimal_nonempty(n / 10);
    }
}

/// Unicode's `White_Space` property.
pub open spec fn is_space(c: char) -> bool {
    ||| '\u{9}' <= c <= '\u{d}'
    ||| c == ' '
    ||| c == '\u{85}'
    ||| c == '\u{a0}'
    ||| c == '\u{1680}'
    ||| '\u{2000}' <= c <= '\u{200a}'
    ||| c == '\u{2028}'
    ||| c == '\u{2029}'
    ||| c == '\u{202f}'
    ||| c == '\u{205f}'
    ||| c == '\u{3000}'
}

/// Whether `c` is white space.
pub fn space(c: char) -> (r: bool)
    ensures
        r == is_space(c),
{
    ('\u{9}' <= c && c <= '\u{d}') || c == ' ' || c == '\u{85}' || c == '\u{a0}' || c == '\u{1680}'
        || ('\u{2000}' <= c && c <= '\u{200a}') || c == '\u{2028}' || c == '\u{2029}' || c
        == '\u{202f}' || c == '\u{205f}' || c == '\u{3000}'
}

/// `s` without the white space it begins with.
pub open spec fn trim_start(s: Seq<char>) -> Seq<char>
    decreases s.len(),
{
    if s.len() > 0 && is_space(s[0]) {
        trim_start(s.skip(1))
    } else {
        s
    }
}

/// `s` without the white space it ends with.
pub open spec fn trim_end(s: Seq<char>) -> Seq<char>
    decreases s.len(),
{
    if s.len() > 0 && is_space(s.last()) {
        trim_end(s.drop_last())
    } else {
        s
    }
}

/// `s` without the white space at its ends.
pub open spec fn trimmed(s: Seq<char>) -> Seq<char> {
    trim_end(trim_start(s))
}

/// Where `v[from..to]` begins and ends without white space at its ends.
pub fn trim_bounds(v: &Vec<char>, from: usize, to: usize) -> (r: (usize, usize))
    requires
        from <= to <= v@.len(),
    ensures
        from <= r.0 <= r.1 <= to,
        v@.subrange(r.0 as int, r.1 as int) == trimmed(v@.subrange(from as int, to as int)),
{
    let mut a: usize = from;
    proof {
        assert(v@.subrange(from as int, to as int) =~= v@.subrange(a as int, to as int));
    }
    while a < to && space(v[a])
        invariant
            from <= a <= to <= v@.len(),
            trim_start(v@.subrange(from as int, to as int)) == trim_start(
                v@.subrange(a as int, to as int),
            ),
        decreases to - a,
    {
        proof {
            let t = v@.subrange(a as int, to as int);
            assert(t[0] == v@[a as int]);
            assert(t.skip(1) =~= v@.subrange(a + 1, to as int));
        }
        a += 1;
    }
    proof {
        let t = v@.subrange(a as int, to as int);
        if a < to {
            assert(t[0] == v@[a as int]);
        }
        assert(trim_start(t) == t);
    }
    let mut b: usize = to;
    while b > a && space(v[b - 1])
        invariant
            from <= a <= b <= to <= v@.len(),
            trim_end(v@.subrange(a as int, to as int)) == trim_end(
                v@.subrange(a as int, b as int),
            ),
        decreases b - a,
    {
        proof {
            let t = v@.subrange(a as int, b as int);
            assert(t.last() == v@[b - 1]);
            assert(t.drop_last() =~= v@.subrange(a as int, b - 1));
        }
        b -= 1;
    }
    proof {
        let t = v@.subrange(a as int, b as int);
        if b > a {
            assert(t.last() == v@[b - 1]);
        }
        assert(trim_end(t) == t);
    }
    (a, b)
}

/// `s` without the white space at its ends.
pub fn trim(s: &str) -> (r: String)
    ensures
        r@ == trimmed(s@),
{
    let v = chars(s);
    proof {
        assert(v@.subrange(0, v@.len() as int) =~= s@);
    }
    let (a, b) = trim_bounds(&v, 0, v.len());
    slice(&v, a, b)
}

/// Whether `s` holds nothing but white space.
pub fn is_blank(s: &str) -> (r: bool)
    ensures
        r == (trimmed(s@).len() == 0),
{
    trim(s).as_str().is_empty()
}

/// Whether `p` stands in `s` at `i`.
pub open spec fn occurs_at(s: Seq<char>, p: Seq<char>, i: int) -> bool {
    0 <= i && i + p.len() <= s.len() && s.subrange(i, i + p.len() as int) == p
}

/// Whether `p` stands somewhere in `s`.
pub open spec fn occurs(s: Seq<char>, p: Seq<char>) -> bool {
    exists|i: int| occurs_at(s, p, i)
}

/// Whether `i` is the first place from `from` on at which `p` stands in `s`.
pub open spec fn first_at(s: Seq<char>, p: Seq<char>, from: int, i: int) -> bool {
    &&& from <= i
    &&& occurs_at(s, p, i)
    &&& forall|j: int| from <= j < i ==> !occurs_at(s, p, j)
}

/// Whether `p` stands in `s` at `at`.
pub fn stands_at(s: &Vec<char>, p: &Vec<char>, at: usize) -> (r: bool)
    ensures
        r == occurs_at(s@, p@, at as int),
{
    if at > s.len() || p.len() > s.len() - at {
        return false;
    }
    let mut k: usize = 0;
    while k < p.len()
        invariant
            k <= p@.len(),
            at + p.len() <= s.len(),
            forall|j: int| 0 <= j < k ==> s@[at + j] == #[trigger] p@[j],
        decreases p@.len() - k,
    {
        if s[at + k] != p[k] {
            proof {
                assert(s@.subrange(at as int, at + p@.len())[k as int] != p@[k as int]);
            }
            return false;
        }
        k += 1;
    }
    proof {
        assert(s@.subrange(at as int, at + p@.len()) =~= p@);
    }
    true
}

/// The first place from `from` on at which `p` stands in `s`.
pub fn find_from(s: &Vec<char>, p: &Vec<char>, from: usize) -> (r: Option<usize>)
    ensures
        match r {
            Some(i) => first_at(s@, p@, from as int, i as int),
            None => forall|i: int| from <= i ==> !occurs_at(s@, p@, i),
        },
{
    let mut i: usize = from;
    while i <= s.len() && p.len() <= s.len() - i
        invariant
            from <= i,
            i <= s@.len() + 1 || i == from,
            forall|j: int| from <= j < i ==> !occurs_at(s@, p@, j),
        decreases s@.len() + 1 - i,
    {
        if stands_at(s, p, i) {
            return Some(i);
        }
        if i == s.len() {
            proof {
                assert forall|j: int| from <= j implies !occurs_at(s@, p@, j) by {}
            }
            return None;
        }
        i += 1;
    }
    None
}

/// The first place from `from` on at which `p` stands in `s`.
pub open spec fn place(s: Seq<char>, p: Seq<char>, from: int) -> Option<int>
    decreases s.len() + 1 - from,
{
    if from < 0 || from + p.len() > s.len() {
        None
    } else if occurs_at(s, p, from) {
        Some(from)
    } else {
        place(s, p, from + 1)
    }
}

/// The first place from `from` on at which `p` stands in `s`.
pub fn find(s: &Vec<char>, p: &Vec<char>, from: usize) -> (r: Option<usize>)
    ensures
        match r {
            Some(i) => place(s@, p@, from as int) == Some(i as int) && from <= i && i + p@.len()
                <= s@.len(),
            None => place(s@, p@, from as int) is None,
        },
{
    let mut i: usize = from;
    while i <= s.len() && p.len() <= s.len() - i
        invariant
            from <= i,
            place(s@, p@, from as int) == place(s@, p@, i as int),
        decreases s@.len() + 1 - i,
    {
        if stands_at(s, p, i) {
            return Some(i);
        }
        if i == s.len() {
            assert(place(s@, p@, i + 1) is None);
            return None;
        }
        i += 1;
    }
    None
}

/// Whether `p` stands somewhere in `s`.
pub fn contains(s: &str, p: &str) -> (r: bool)
    ensures
        r == occurs(s@, p@),
{
    find_from(&chars(s), &chars(p), 0).is_some()
}

/// Whether `s` begins with `p`.
pub fn starts_with(s: &str, p: &str) -> (r: bool)
    ensures
        r == p@.is_prefix_of(s@),
{
    let r = stands_at(&chars(s), &chars(p), 0);
    proof {
        if p@.len() <= s@.len() {
            assert(s@.subrange(0, p@.len() as int) =~= s@.take(p@.len() as int));
        }
    }
    r
}

/// Whether `s` ends with `p`.
pub fn ends_with(s: &str, p: &str) -> (r: bool)
    ensures
        r == p@.is_suffix_of(s@),
{
    let a = chars(s);
    let b = chars(p);
    if b.len() > a.len() {
        return false;
    }
    stands_at(&a, &b, a.len() - b.len())
}

/// What follows `p` in `s`, if `s` begins with it.
pub open spec fn after_prefix(s: Seq<char>, p: Seq<char>) -> Option<Seq<char>> {
    if p.is_prefix_of(s) {
        Some(s.skip(p.len() as int))
    } else {
        None
    }
}

/// What follows `p` in `s`, if `s` begins with it.
pub fn strip_prefix(s: &str, p: &str) -> (r: Option<String>)
    ensures
        opt_view(r) == after_prefix(s@, p@),
{
    if !starts_with(s, p) {
        return None;
    }
    let v = chars(s);
    let n = p.unicode_len();
    let out = slice(&v, n, v.len());
    proof {
        assert(s@.subrange(n as int, s@.len() as int) =~= s@.skip(n as int));
    }
    Some(out)
}

/// The parts of `s` between the separators `sep`: one more than there are
/// separators.
pub open spec fn split(s: Seq<char>, sep: char) -> Seq<Seq<char>>
    decreases s.len(),
{
    if s.len() == 0 {
        seq![Seq::<char>::empty()]
    } else {
        let before = split(s.drop_last(), sep);
        if s.last() == sep {
            before.push(Seq::empty())
        } else {
            before.drop_last().push(before.last().push(s.last()))
        }
    }
}

/// The parts of `s` between the separators `sep`.
pub fn split_on(s: &str, sep: char) -> (r: Vec<String>)
    ensures
        views(r@) == split(s@, sep),
{
    let v = chars(s);
    let mut out: Vec<String> = Vec::new();
    let mut cur = String::new();
    let mut i: usize = 0;
    proof {
        assert(v@.take(0) =~= Seq::<char>::empty());
        assert(views(out@).push(cur@) =~= seq![Seq::<char>::empty()]);
    }
    while i < v.len()
        invariant
            i <= v@.len(),
            v@ == s@,
            views(out@).push(cur@) == split(v@.take(i as int), sep),
        decreases v@.len() - i,
    {
        proof {
            take_step(v@, i as int);
            assert(v@.take(i + 1).drop_last() =~= v@.take(i as int));
            assert(views(out@).push(cur@).drop_last() =~= views(out@));
        }
        if v[i] == sep {
            let ghost out0 = out@;
            let ghost cur0 = cur;
            out.push(cur);
            cur = String::new();
            proof {
                assert(views(out@) =~= views(out0).push(cur0@));
                assert(views(out@).push(cur@) =~= views(out0).push(cur0@).push(Seq::empty()));
            }
        } else {
            cur.push(v[i]);
        }
        i += 1;
    }
    proof {
        assert(v@.take(v@.len() as int) =~= v@);
    }
    let ghost out0 = out@;
    let ghost cur0 = cur;
    out.push(cur);
    proof {
        assert(views(out@) =~= views(out0).push(cur0@));
    }
    out
}

/// A line without the carriage return that it ends with, if it does.
pub open spec fn without_return(line: Seq<char>) -> Seq<char> {
    if line.len() > 0 && line.last() == '\r' {
        line.drop_last()
    } else {
        line
    }
}

/// The lines of `s`: what each line feed ends, without the carriage return
/// before it, and what follows the last one if there is anything.
pub open spec fn lines(s: Seq<char>) -> Seq<Seq<char>> {
    let parts = split(s, '\n');
    let whole = parts.drop_last().map_values(|l: Seq<char>| without_return(l));
    if parts.last().len() == 0 {
        whole
    } else {
        whole.push(parts.last())
    }
}

/// A string has at least one part.
pub proof fn split_is_not_empty(s: Seq<char>, sep: char)
    ensures
        split(s, sep).len() > 0,
    decreases s.len(),
{
    if s.len() > 0 {
        split_is_not_empty(s.drop_last(), sep);
    }
}

/// The lines of `s`.
pub fn lines_of(s: &str) -> (r: Vec<String>)
    ensures
        views(r@) == lines(s@),
{
    let parts = split_on(s, '\n');
    let ghost cut = split(s@, '\n');
    proof {
        split_is_not_empty(s@, '\n');
        assert(views(parts@).len() == parts@.len());
    }
    let mut out: Vec<String> = Vec::new();
    let mut i: usize = 0;
    let ghost whole = cut.drop_last().map_values(|l: Seq<char>| without_return(l));
    while i < parts.len() - 1
        invariant
            parts@.len() > 0,
            i <= parts@.len() - 1,
            views(parts@) == cut,
            whole == cut.drop_last().map_values(|l: Seq<char>| without_return(l)),
            views(out@) =~= whole.take(i as int),
        decreases parts@.len() - i,
    {
        let v = chars(parts[i].as_str());
        let n: usize = if v.len() > 0 && v[v.len() - 1] == '\r' {
            v.len() - 1
        } else {
            v.len()
        };
        let ghost out0 = out@;
        let line = slice(&v, 0, n);
        proof {
            assert(cut[i as int] == v@);
            assert(line@ =~= without_return(v@));
            take_step(whole, i as int);
        }
        out.push(line);
        assert(views(out@) =~= views(out0).push(line@));
        i += 1;
    }
    proof {
        assert(whole.take(i as int) =~= whole);
        assert(cut.last() == parts@[i as int]@);
    }
    if !parts[i].as_str().is_empty() {
        let ghost out0 = out@;
        out.push(parts[i].clone());
        assert(views(out@) =~= views(out0).push(cut.last()));
    }
    out
}

/// The words of `s`: what stands between white space, where anything does.
pub open spec fn split_space(s: Seq<char>) -> (Seq<Seq<char>>, Seq<char>)
    decreases s.len(),
{
    if s.len() == 0 {
        (Seq::empty(), Seq::empty())
    } else {
        let (done, last) = split_space(s.drop_last());
        if !is_space(s.last()) {
            (done, last.push(s.last()))
        } else if last.len() > 0 {
            (done.push(last), Seq::empty())
        } else {
            (done, last)
        }
    }
}

/// The words of `s`, in order.
pub open spec fn spaced_words(s: Seq<char>) -> Seq<Seq<char>> {
    let (done, last) = split_space(s);
    if last.len() > 0 {
        done.push(last)
    } else {
        done
    }
}

/// The words of `s`, in order.
pub fn split_whitespace(s: &str) -> (r: Vec<String>)
    ensures
        views(r@) == spaced_words(s@),
{
    let v = chars(s);
    let mut out: Vec<String> = Vec::new();
    let mut cur = String::new();
    let mut i: usize = 0;
    proof {
        assert(v@.take(0) =~= Seq::<char>::empty());
        assert(views(out@) =~= Seq::<Seq<char>>::empty());
    }
    while i < v.len()
        invariant
            i <= v@.len(),
            v@ == s@,
            (views(out@), cur@) == split_space(v@.take(i as int)),
        decreases v@.len() - i,
    {
        proof {
            take_step(v@, i as int);
            assert(v@.take(i + 1).drop_last() =~= v@.take(i as int));
        }
        if !space(v[i]) {
            cur.push(v[i]);
        } else if !cur.as_str().is_empty() {
            let ghost out0 = out@;
            let ghost cur0 = cur@;
            out.push(cur);
            cur = String::new();
            assert(views(out@) =~= views(out0).push(cur0));
            assert(cur@ =~= Seq::<char>::empty());
        }
        i += 1;
    }
    assert(v@.take(i as int) =~= s@);
    if !cur.as_str().is_empty() {
        let ghost out0 = out@;
        let ghost cur0 = cur@;
        out.push(cur);
        assert(views(out@) =~= views(out0).push(cur0));
    }
    out
}

/// The parts, with `sep` between each two.
pub open spec fn joined(parts: Seq<Seq<char>>, sep: Seq<char>) -> Seq<char>
    decreases parts.len(),
{
    if parts.len() == 0 {
        Seq::empty()
    } else if parts.len() == 1 {
        parts[0]
    } else {
        joined(parts.drop_last(), sep) + sep + parts.last()
    }
}

/// The parts, with `sep` between each two.
pub fn join(parts: &Vec<String>, sep: &str) -> (r: String)
    ensures
        r@ == joined(views(parts@), sep@),
{
    let mut out = String::new();
    let mut i: usize = 0;
    while i < parts.len()
        invariant
            i <= parts@.len(),
            out@ == joined(views(parts@).take(i as int), sep@),
        decreases parts@.len() - i,
    {
        proof {
            let t = views(parts@).take(i + 1);
            take_step(views(parts@), i as int);
            assert(t.drop_last() =~= views(parts@).take(i as int));
            assert(t.last() == parts@[i as int]@);
        }
        if i > 0 {
            out.append(sep);
        }
        let ghost out0 = out@;
        out.append(parts[i].as_str());
        proof {
            if i == 0 {
                assert(out@ =~= parts@[0]@);
            }
        }
        i += 1;
    }
    proof {
        assert(views(parts@).take(parts@.len() as int) =~= views(parts@));
    }
    out
}

/// `c`, `n` times.
pub open spec fn repeated(c: char, n: int) -> Seq<char> {
    Seq::new(n as nat, |i: int| c)
}

/// `c`, `n` times.
pub fn repeat(c: char, n: usize) -> (r: String)
    ensures
        r@ == repeated(c, n as int),
{
    let mut out = String::new();
    let mut i: usize = 0;
    while i < n
        invariant
            i <= n,
            out@ =~= repeated(c, i as int),
        decreases n - i,
    {
        out.push(c);
        i += 1;
    }
    out
}

/// A word with no white space at its ends is what is left of it, alone or with
/// a line end behind it.
pub proof fn trim_of_word_and_line_end(w: Seq<char>)
    requires
        w.len() > 0,
        !is_space(w[0]),
        !is_space(w.last()),
    ensures
        trimmed(w) == w,
        trimmed(w + "\n"@) == w,
{
    reveal_strlit("\n");
    let s = w + "\n"@;
    assert(trim_start(w) == w);
    assert(s[0] == w[0]);
    assert(trim_start(s) == s);
    assert(s.last() == '\n');
    assert(s.drop_last() =~= w);
    assert(trim_end(s) == trim_end(w));
}

/// `s` with every `p` in it, from the left and without overlap, put in the
/// place of `by`.
pub open spec fn replaced(s: Seq<char>, p: Seq<char>, by: Seq<char>) -> Seq<char>
    decreases s.len(),
{
    if p.len() == 0 || s.len() == 0 {
        s
    } else if occurs_at(s, p, 0) {
        by + replaced(s.skip(p.len() as int), p, by)
    } else {
        seq![s[0]] + replaced(s.skip(1), p, by)
    }
}

/// `s` with every `p` in it replaced by `by`.
pub fn replace(s: &str, p: &str, by: &str) -> (r: String)
    requires
        p@.len() > 0,
    ensures
        r@ == replaced(s@, p@, by@),
{
    let v = chars(s);
    let q = chars(p);
    let mut out = String::new();
    let mut i: usize = 0;
    proof {
        assert(v@.skip(0) =~= v@);
        assert(out@ + replaced(v@.skip(0), p@, by@) =~= replaced(s@, p@, by@));
    }
    while i < v.len()
        invariant
            i <= v@.len(),
            v@ == s@,
            q@ == p@,
            p@.len() > 0,
            out@ + replaced(v@.skip(i as int), p@, by@) == replaced(s@, p@, by@),
        decreases v@.len() - i,
    {
        let ghost rest = v@.skip(i as int);
        let ghost out0 = out@;
        if stands_at(&v, &q, i) {
            proof {
                assert(rest.subrange(0, p@.len() as int) =~= v@.subrange(i as int, i + p@.len()));
                assert(rest.skip(p@.len() as int) =~= v@.skip(i + p@.len()));
            }
            out.append(by);
            i += q.len();
            proof {
                assert(out@ + replaced(v@.skip(i as int), p@, by@) =~= out0 + (by@ + replaced(
                    v@.skip(i as int),
                    p@,
                    by@,
                )));
            }
        } else {
            proof {
                if occurs_at(rest, p@, 0) {
                    assert(v@.subrange(i as int, i + p@.len()) =~= rest.subrange(
                        0,
                        p@.len() as int,
                    ));
                }
                assert(rest.skip(1) =~= v@.skip(i + 1));
                assert(rest[0] == v@[i as int]);
            }
            out.push(v[i]);
            i += 1;
            proof {
                assert(out@ + replaced(v@.skip(i as int), p@, by@) =~= out0 + (seq![rest[0]]
                    + replaced(v@.skip(i as int), p@, by@)));
            }
        }
    }
    proof {
        assert(v@.skip(i as int) =~= Seq::<char>::empty());
        assert(out@ + Seq::<char>::empty() =~= out@);
    }
    out
}

/// What `str::to_lowercase` returns.
pub uninterp spec fn lowercase(s: Seq<char>) -> Seq<char>;

/// `str::to_lowercase`, which follows Unicode's rules for letter case. The
/// contract names the result, a function of the characters alone; which
/// letters change, and into what, is left to std.
#[verifier::external_body]
pub(crate) fn lower(s: &str) -> (r: String)
    ensures
        r@ == lowercase(s@),
{
    s.to_lowercase()
}

/// What `str::to_uppercase` returns.
pub uninterp spec fn uppercase(s: Seq<char>) -> Seq<char>;

/// `str::to_uppercase`, which follows Unicode's rules for letter case. The
/// contract names the result, a function of the characters alone; which
/// letters change, and into what, is left to std.
#[verifier::external_body]
pub(crate) fn upper(s: &str) -> (r: String)
    ensures
        r@ == uppercase(s@),
{
    s.to_uppercase()
}

/// How one thing stands to another.
#[derive(Debug, Clone, Copy, PartialEq, Eq, Structural)]
pub enum Rank {
    Before,
    Same,
    After,
}

impl Rank {
    /// The other way round.
    pub open spec fn flipped(self) -> Rank {
        match self {
            Rank::Before => Rank::After,
            Rank::Same => Rank::Same,
            Rank::After => Rank::Before,
        }
    }

    /// This, and `next` where this does not decide.
    pub open spec fn or(self, next: Rank) -> Rank {
        if self is Same {
            next
        } else {
            self
        }
    }
}

/// How two strings stand to each other by the code points of their characters.
pub open spec fn rank_of(a: Seq<char>, b: Seq<char>) -> Rank
    decreases a.len(),
{
    if a.len() == 0 && b.len() == 0 {
        Rank::Same
    } else if a.len() == 0 {
        Rank::Before
    } else if b.len() == 0 {
        Rank::After
    } else if a[0] < b[0] {
        Rank::Before
    } else if b[0] < a[0] {
        Rank::After
    } else {
        rank_of(a.skip(1), b.skip(1))
    }
}

/// How two strings stand to each other by the code points of their characters.
pub fn rank(a: &str, b: &str) -> (r: Rank)
    ensures
        r == rank_of(a@, b@),
{
    let x = chars(a);
    let y = chars(b);
    let mut i: usize = 0;
    proof {
        assert(x@.skip(0) =~= a@);
        assert(y@.skip(0) =~= b@);
    }
    while i < x.len() && i < y.len()
        invariant
            i <= x@.len(),
            i <= y@.len(),
            rank_of(a@, b@) == rank_of(x@.skip(i as int), y@.skip(i as int)),
        decreases x@.len() - i,
    {
        proof {
            assert(x@.skip(i as int)[0] == x@[i as int]);
            assert(y@.skip(i as int)[0] == y@[i as int]);
            assert(x@.skip(i as int).skip(1) =~= x@.skip(i + 1));
            assert(y@.skip(i as int).skip(1) =~= y@.skip(i + 1));
        }
        if x[i] < y[i] {
            return Rank::Before;
        }
        if y[i] < x[i] {
            return Rank::After;
        }
        i += 1;
    }
    if i < y.len() {
        Rank::Before
    } else if i < x.len() {
        Rank::After
    } else {
        Rank::Same
    }
}

/// The order of strings is total: it turns round when its sides are swapped,
/// and only equal strings stand alike.
pub proof fn rank_is_antisymmetric(a: Seq<char>, b: Seq<char>)
    ensures
        rank_of(b, a) == rank_of(a, b).flipped(),
        rank_of(a, b) is Same <==> a == b,
    decreases a.len(),
{
    if a.len() > 0 && b.len() > 0 {
        rank_is_antisymmetric(a.skip(1), b.skip(1));
        if a[0] == b[0] && a.skip(1) == b.skip(1) {
            assert(a =~= seq![a[0]] + a.skip(1));
            assert(b =~= seq![b[0]] + b.skip(1));
        }
    } else if a.len() == 0 && b.len() == 0 {
        assert(a =~= b);
    }
}

/// What comes before what comes before a string comes before it too.
pub proof fn rank_is_transitive(a: Seq<char>, b: Seq<char>, c: Seq<char>)
    requires
        !(rank_of(a, b) is After),
        !(rank_of(b, c) is After),
    ensures
        !(rank_of(a, c) is After),
        rank_of(a, b) is Before || rank_of(b, c) is Before ==> rank_of(a, c) is Before,
    decreases a.len(),
{
    if a.len() > 0 && b.len() > 0 && c.len() > 0 && a[0] == b[0] && b[0] == c[0] {
        rank_is_transitive(a.skip(1), b.skip(1), c.skip(1));
    }
}

/// `c` with an ASCII capital made small.
pub open spec fn ascii_lower_char(c: char) -> char {
    if 'A' <= c <= 'Z' {
        ((c as u32) + 32) as char
    } else {
        c
    }
}

/// `s` with its ASCII capitals made small.
pub open spec fn ascii_lower(s: Seq<char>) -> Seq<char> {
    s.map_values(|c: char| ascii_lower_char(c))
}

fn lower_char(c: char) -> (r: char)
    ensures
        r == ascii_lower_char(c),
{
    if 'A' <= c && c <= 'Z' {
        ((c as u8) + 32) as char
    } else {
        c
    }
}

/// `s` with its ASCII capitals made small.
pub fn to_ascii_lower(s: &str) -> (r: String)
    ensures
        r@ == ascii_lower(s@),
{
    let v = chars(s);
    let mut out = String::new();
    let mut i: usize = 0;
    while i < v.len()
        invariant
            i <= v@.len(),
            out@ =~= ascii_lower(v@.take(i as int)),
        decreases v@.len() - i,
    {
        out.push(lower_char(v[i]));
        i += 1;
    }
    assert(v@.take(i as int) =~= s@);
    out
}

/// `s` without its last character, or nothing.
pub fn drop_last_char(s: &str) -> (r: String)
    ensures
        r@ == if s@.len() > 0 {
            s@.drop_last()
        } else {
            s@
        },
{
    let v = chars(s);
    if v.len() == 0 {
        return s.to_owned();
    }
    assert(v@.subrange(0, v@.len() - 1) =~= s@.drop_last());
    slice(&v, 0, v.len() - 1)
}

/// How many bytes a character takes in UTF-8.
pub open spec fn width(c: char) -> int {
    if (c as u32) < 0x80 {
        1
    } else if (c as u32) < 0x800 {
        2
    } else if (c as u32) < 0x1_0000 {
        3
    } else {
        4
    }
}

/// How many bytes a character takes in UTF-8.
pub fn width_in(c: char) -> (r: usize)
    ensures
        r == width(c),
        1 <= r <= 4,
{
    let n = c as u32;
    if n < 0x80 {
        1
    } else if n < 0x800 {
        2
    } else if n < 0x1_0000 {
        3
    } else {
        4
    }
}

/// The characters of `s` that take its first `n` bytes in UTF-8, if a character
/// ends there.
pub open spec fn first_bytes(s: Seq<char>, n: int) -> Option<Seq<char>>
    decreases s.len(),
{
    if n == 0 {
        Some(Seq::empty())
    } else if s.len() == 0 || width(s[0]) > n {
        None
    } else {
        match first_bytes(s.skip(1), n - width(s[0])) {
            Some(rest) => Some(seq![s[0]] + rest),
            None => None,
        }
    }
}

/// The characters of `s` that take its first `n` bytes in UTF-8, if a character
/// ends there.
pub fn head_bytes(s: &str, n: usize) -> (r: Option<String>)
    ensures
        opt_view(r) == first_bytes(s@, n as int),
{
    let v = chars(s);
    let mut left: usize = n;
    let mut i: usize = 0;
    let ghost all = first_bytes(s@, n as int);
    proof {
        assert(v@.skip(0) =~= s@);
        if all is Some {
            assert(v@.take(0) + all->0 =~= all->0);
        }
    }
    while left > 0
        invariant
            i <= v@.len(),
            left <= n,
            v@ == s@,
            all == first_bytes(s@, n as int),
            match first_bytes(v@.skip(i as int), left as int) {
                Some(rest) => all == Some(v@.take(i as int) + rest),
                None => all is None,
            },
        decreases left,
    {
        let ghost rest = v@.skip(i as int);
        if i == v.len() {
            return None;
        }
        let w = width_in(v[i]);
        assert(rest[0] == v@[i as int]);
        if w > left {
            return None;
        }
        proof {
            assert(rest.skip(1) =~= v@.skip(i + 1));
            take_step(v@, i as int);
            match first_bytes(v@.skip(i + 1), left - w) {
                Some(t) => {
                    assert(v@.take(i + 1) + t =~= v@.take(i as int) + (seq![rest[0]] + t));
                },
                None => {},
            }
        }
        left -= w;
        i += 1;
    }
    proof {
        assert(v@.take(i as int) + Seq::<char>::empty() =~= v@.subrange(0, i as int));
    }
    Some(slice(&v, 0, i))
}

/// Whether `s` holds digits, and nothing else.
pub open spec fn only_digits(s: Seq<char>) -> bool {
    s.len() > 0 && forall|i: int| 0 <= i < s.len() ==> '0' <= #[trigger] s[i] <= '9'
}

/// The number that digits write.
pub open spec fn value_of_digits(s: Seq<char>) -> int
    decreases s.len(),
{
    if s.len() == 0 {
        0
    } else {
        value_of_digits(s.drop_last()) * 10 + (s.last() as int - '0' as int)
    }
}

/// The number that `s` writes: digits, with a plus sign before them or not, and
/// not more than a 64-bit number holds.
pub open spec fn number_in(s: Seq<char>) -> Option<u64> {
    let body = if s.len() > 0 && s[0] == '+' {
        s.skip(1)
    } else {
        s
    };
    if only_digits(body) && value_of_digits(body) <= u64::MAX {
        Some(value_of_digits(body) as u64)
    } else {
        None
    }
}

proof fn more_digits_write_no_less(s: Seq<char>, n: int)
    requires
        only_digits(s),
        0 <= n <= s.len(),
    ensures
        0 <= value_of_digits(s.take(n)) <= value_of_digits(s),
    decreases s.len() - n,
{
    if n < s.len() {
        more_digits_write_no_less(s, n + 1);
        take_step(s, n);
        assert(s.take(n + 1).drop_last() =~= s.take(n));
        assert('0' <= s[n] <= '9');
        digits_write_no_less_than_zero(s.take(n));
    } else {
        assert(s.take(n) =~= s);
        digits_write_no_less_than_zero(s);
    }
}

proof fn digits_write_no_less_than_zero(s: Seq<char>)
    requires
        forall|i: int| 0 <= i < s.len() ==> '0' <= #[trigger] s[i] <= '9',
    ensures
        value_of_digits(s) >= 0,
    decreases s.len(),
{
    if s.len() > 0 {
        let rest = s.drop_last();
        assert forall|i: int| 0 <= i < rest.len() implies '0' <= #[trigger] rest[i] <= '9' by {
            assert(rest[i] == s[i]);
        }
        digits_write_no_less_than_zero(rest);
        assert('0' <= s[s.len() - 1] <= '9');
    }
}

/// The number that `s` writes.
pub fn parse_number(s: &str) -> (r: Option<u64>)
    ensures
        r == number_in(s@),
{
    let v = chars(s);
    let from: usize = if v.len() > 0 && v[0] == '+' {
        1
    } else {
        0
    };
    let ghost body = if from == 1 {
        s@.skip(1)
    } else {
        s@
    };
    if from == v.len() {
        return None;
    }
    let mut k: usize = from;
    while k < v.len()
        invariant
            from <= k <= v@.len(),
            from <= 1,
            from < v@.len(),
            v@ == s@,
            body == if from == 1 {
                s@.skip(1)
            } else {
                s@
            },
            from == 1 <==> s@[0] == '+',
            forall|j: int| 0 <= j < k - from ==> '0' <= #[trigger] body[j] <= '9',
        decreases v@.len() - k,
    {
        assert(body[k - from] == v@[k as int]);
        if v[k] < '0' || '9' < v[k] {
            return None;
        }
        k += 1;
    }
    assert(only_digits(body));
    let mut n: u64 = 0;
    let mut i: usize = from;
    assert(body.take(0) =~= Seq::<char>::empty());
    while i < v.len()
        invariant
            from <= i <= v@.len(),
            from <= 1,
            v@ == s@,
            body.len() == v@.len() - from,
            only_digits(body),
            forall|j: int| 0 <= j < body.len() ==> #[trigger] body[j] == v@[j + from],
            n == value_of_digits(body.take(i - from)),
            number_in(s@) == if value_of_digits(body) <= u64::MAX {
                Some(value_of_digits(body) as u64)
            } else {
                None
            },
        decreases v@.len() - i,
    {
        let ghost at = i - from;
        proof {
            take_step(body, at);
            assert(body.take(at + 1).drop_last() =~= body.take(at));
            assert(body[at] == v@[i as int]);
            assert('0' <= body[at] <= '9');
            more_digits_write_no_less(body, at + 1);
        }
        let d: u64 = v[i] as u64 - 48;
        if n > (u64::MAX - d) / 10 {
            proof {
                assert(n * 10 + d > u64::MAX) by (nonlinear_arith)
                    requires
                        n > (u64::MAX - d) / 10,
                        0 <= d <= 9,
                ;
            }
            return None;
        }
        n = n * 10 + d;
        i += 1;
    }
    assert(body.take(body.len() as int) =~= body);
    Some(n)
}

/// A place is the first at which a text stands, and none is found exactly where
/// it stands nowhere from there on.
pub proof fn a_place_is_the_first(s: Seq<char>, p: Seq<char>, from: int)
    requires
        0 <= from,
    ensures
        match place(s, p, from) {
            Some(i) => from <= i && i + p.len() <= s.len() && s.subrange(i, i + p.len()) == p
                && forall|j: int| from <= j < i ==> !#[trigger] occurs_at(s, p, j),
            None => forall|j: int| from <= j ==> !#[trigger] occurs_at(s, p, j),
        },
    decreases s.len() + 1 - from,
{
    if from + p.len() <= s.len() && !occurs_at(s, p, from) {
        a_place_is_the_first(s, p, from + 1);
    }
}

/// The place that is found is the one that is known to be the first.
pub proof fn the_first_place_is_found(s: Seq<char>, p: Seq<char>, from: int, at: int)
    requires
        0 <= from <= at,
        at + p.len() <= s.len(),
        s.subrange(at, at + p.len()) == p,
        forall|j: int| from <= j < at ==> !#[trigger] occurs_at(s, p, j),
    ensures
        place(s, p, from) == Some(at),
{
    a_place_is_the_first(s, p, from);
    assert(occurs_at(s, p, at));
    if let Some(i) = place(s, p, from) {
        assert(occurs_at(s, p, i));
        if at < i {
            assert(!occurs_at(s, p, at));
        }
        if i < at {
            assert(!occurs_at(s, p, i));
        }
    }
}

/// A text in which nothing is to be replaced stays as it is.
pub proof fn what_does_not_occur_is_not_replaced(s: Seq<char>, p: Seq<char>, by: Seq<char>)
    requires
        forall|i: int| 0 <= i ==> !#[trigger] occurs_at(s, p, i),
    ensures
        replaced(s, p, by) == s,
    decreases s.len(),
{
    if p.len() > 0 && s.len() > 0 {
        assert(!occurs_at(s, p, 0));
        let rest = s.skip(1);
        assert forall|i: int| 0 <= i implies !#[trigger] occurs_at(rest, p, i) by {
            if occurs_at(rest, p, i) {
                assert(s.subrange(i + 1, i + 1 + p.len()) =~= rest.subrange(i, i + p.len()));
                assert(occurs_at(s, p, i + 1));
            }
        }
        what_does_not_occur_is_not_replaced(rest, p, by);
        assert(seq![s[0]] + rest =~= s);
    }
}

/// What is replaced is the first occurrence and, in what follows it, the others.
pub proof fn an_occurrence_is_replaced(a: Seq<char>, p: Seq<char>, b: Seq<char>, by: Seq<char>)
    requires
        p.len() > 0,
        forall|i: int| 0 <= i < a.len() ==> !#[trigger] occurs_at(a + p + b, p, i),
    ensures
        replaced(a + p + b, p, by) == a + by + replaced(b, p, by),
    decreases a.len(),
{
    let s = a + p + b;
    if a.len() == 0 {
        assert(s.subrange(0, p.len() as int) =~= p);
        assert(s.skip(p.len() as int) =~= b);
        assert(a + by + replaced(b, p, by) =~= by + replaced(b, p, by));
    } else {
        assert(!occurs_at(s, p, 0));
        let rest = a.skip(1);
        let t = rest + p + b;
        assert(s.skip(1) =~= t);
        assert forall|i: int| 0 <= i < rest.len() implies !#[trigger] occurs_at(t, p, i) by {
            if occurs_at(t, p, i) {
                assert(s.subrange(i + 1, i + 1 + p.len()) =~= t.subrange(i, i + p.len()));
                assert(occurs_at(s, p, i + 1));
            }
        }
        an_occurrence_is_replaced(rest, p, b, by);
        assert(seq![s[0]] + (rest + by + replaced(b, p, by)) =~= a + by + replaced(b, p, by));
    }
}

/// Joining one part more puts it behind the separator; a single part stands by
/// itself.
pub proof fn joining_one_more(parts: Seq<Seq<char>>, sep: Seq<char>, one: Seq<char>)
    ensures
        joined(seq![one], sep) == one,
        parts.len() > 0 ==> joined(parts.push(one), sep) == joined(parts, sep) + sep + one,
{
    assert(parts.push(one).drop_last() =~= parts);
}

/// Words are told apart by white space: a text without any is one word, and
/// what follows white space begins a new one.
pub proof fn a_word_is_what_stands_between_spaces(s: Seq<char>, space: char, w: Seq<char>)
    requires
        is_space(space),
        w.len() > 0,
        forall|i: int| 0 <= i < w.len() ==> !is_space(#[trigger] w[i]),
    ensures
        spaced_words(w) == seq![w],
        spaced_words(s.push(space)) == spaced_words(s),
        spaced_words(s.push(space) + w) == spaced_words(s).push(w),
{
    a_word_grows(Seq::empty(), w);
    assert(Seq::<char>::empty() + w =~= w);
    assert(split_space(Seq::<char>::empty()).0 =~= Seq::<Seq<char>>::empty());
    assert(spaced_words(w) =~= seq![w]);
    assert(s.push(space).drop_last() =~= s);
    a_word_grows(s.push(space), w);
    assert(Seq::<char>::empty() + w =~= w);
}

proof fn a_word_grows(s: Seq<char>, w: Seq<char>)
    requires
        forall|i: int| 0 <= i < w.len() ==> !is_space(#[trigger] w[i]),
    ensures
        split_space(s + w) == (split_space(s).0, split_space(s).1 + w),
    decreases w.len(),
{
    if w.len() == 0 {
        assert(s + w =~= s);
        assert(split_space(s).1 + w =~= split_space(s).1);
    } else {
        let v = w.drop_last();
        assert forall|i: int| 0 <= i < v.len() implies !is_space(#[trigger] v[i]) by {
            assert(v[i] == w[i]);
        }
        a_word_grows(s, v);
        assert((s + w).drop_last() =~= s + v);
        assert((s + w).last() == w.last());
        assert(!is_space(w[w.len() - 1]));
        assert((split_space(s).1 + v).push(w.last()) =~= split_space(s).1 + w);
    }
}

/// Digits are read back as the number that they write.
pub proof fn digits_are_read_back(n: nat)
    ensures
        only_digits(decimal(n)),
        value_of_digits(decimal(n)) == n,
    decreases n,
{
    if n < 10 {
        assert(decimal(n).drop_last() =~= Seq::<char>::empty());
        assert(decimal(n).last() == digit(n as int));
        digit_is_read_back(n as int);
        assert(value_of_digits(decimal(n).drop_last()) == 0);
    } else {
        digits_are_read_back(n / 10);
        assert(decimal(n).drop_last() =~= decimal(n / 10));
        digit_is_read_back((n % 10) as int);
        assert forall|i: int| 0 <= i < decimal(n).len() implies '0' <= #[trigger] decimal(n)[i]
            <= '9' by {
            if i < decimal(n / 10).len() {
                assert(decimal(n)[i] == decimal(n / 10)[i]);
            }
        }
    }
}

proof fn digit_is_read_back(d: int)
    requires
        0 <= d < 10,
    ensures
        '0' <= digit(d) <= '9',
        digit(d) as int - '0' as int == d,
{
}

/// A text is cut at its separators: what stands before the first is the first
/// part, and the rest is cut in the same way.
pub proof fn a_text_is_cut_at_its_separators(a: Seq<char>, sep: char, b: Seq<char>)
    requires
        forall|i: int| 0 <= i < a.len() ==> #[trigger] a[i] != sep,
    ensures
        split(a, sep) == seq![a],
        split(a.push(sep) + b, sep) == seq![a] + split(b, sep),
    decreases b.len(),
{
    a_part_is_not_cut(a, sep);
    if b.len() == 0 {
        assert(a.push(sep) + b =~= a.push(sep));
        assert(a.push(sep).drop_last() =~= a);
        assert(split(a.push(sep), sep) =~= seq![a] + split(b, sep));
    } else {
        let c = b.drop_last();
        a_text_is_cut_at_its_separators(a, sep, c);
        let s = a.push(sep) + b;
        assert(s.drop_last() =~= a.push(sep) + c);
        assert(s.last() == b.last());
        split_is_not_empty(c, sep);
        let before = seq![a] + split(c, sep);
        if b.last() == sep {
            assert(split(s, sep) =~= seq![a] + split(b, sep));
        } else {
            assert(before.drop_last() =~= seq![a] + split(c, sep).drop_last());
            assert(split(s, sep) =~= seq![a] + split(b, sep));
        }
    }
}

proof fn a_part_is_not_cut(a: Seq<char>, sep: char)
    requires
        forall|i: int| 0 <= i < a.len() ==> #[trigger] a[i] != sep,
    ensures
        split(a, sep) == seq![a],
    decreases a.len(),
{
    if a.len() > 0 {
        let b = a.drop_last();
        assert forall|i: int| 0 <= i < b.len() implies #[trigger] b[i] != sep by {
            assert(b[i] == a[i]);
        }
        a_part_is_not_cut(b, sep);
        assert(a[a.len() - 1] != sep);
        assert(b.push(a.last()) =~= a);
        assert(split(a, sep) =~= seq![a]);
    } else {
        assert(a =~= Seq::<char>::empty());
        assert(split(a, sep) =~= seq![a]);
    }
}

/// A text without white space at its ends is trimmed already.
pub proof fn a_trimmed_text_stays(s: Seq<char>)
    requires
        s.len() == 0 || (!is_space(s[0]) && !is_space(s.last())),
    ensures
        trimmed(s) == s,
{
}

/// Characters of the plain alphabet take a byte each, so the first so many bytes
/// are the first so many of them.
pub proof fn plain_characters_take_one_byte(s: Seq<char>, n: int)
    requires
        0 <= n <= s.len(),
        forall|k: int| 0 <= k < n ==> #[trigger] s[k] <= '~',
    ensures
        first_bytes(s, n) == Some(s.take(n)),
    decreases n,
{
    if n > 0 {
        assert(s[0] <= '~');
        plain_width(s[0]);
        let rest = s.skip(1);
        assert forall|k: int| 0 <= k < n - 1 implies #[trigger] rest[k] <= '~' by {
            assert(rest[k] == s[k + 1]);
        }
        plain_characters_take_one_byte(rest, n - 1);
        assert(seq![s[0]] + rest.take(n - 1) =~= s.take(n));
    } else {
        assert(s.take(0) =~= Seq::<char>::empty());
    }
}

/// A plain character takes one byte.
pub proof fn plain_width(c: char)
    requires
        c <= '~',
    ensures
        width(c) == 1,
{
}

/// The last part of a text is what stands behind its last separator.
pub proof fn the_last_part_is_behind_the_last_separator(a: Seq<char>, sep: char, b: Seq<char>)
    requires
        forall|i: int| 0 <= i < b.len() ==> #[trigger] b[i] != sep,
    ensures
        split(a.push(sep) + b, sep) == split(a, sep).push(b),
        split(a.push(sep) + b, sep).last() == b,
    decreases b.len(),
{
    split_is_not_empty(a, sep);
    if b.len() == 0 {
        assert(a.push(sep) + b =~= a.push(sep));
        assert(a.push(sep).drop_last() =~= a);
        assert(b =~= Seq::<char>::empty());
    } else {
        let s = a.push(sep) + b;
        let rest = b.drop_last();
        assert(s.drop_last() =~= a.push(sep) + rest);
        assert forall|i: int| 0 <= i < rest.len() implies #[trigger] rest[i] != sep by {
            assert(rest[i] == b[i]);
        }
        the_last_part_is_behind_the_last_separator(a, sep, rest);
        assert(s.last() == b.last());
        assert(b.last() == b[b.len() - 1]);
        assert(rest.push(b.last()) =~= b);
        assert(split(s, sep) =~= split(a, sep).push(b));
    }
}

} // verus!
