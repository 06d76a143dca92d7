//! What the terminal says of its background, which the greys are mixed from.
use vstd::arithmetic::power::pow;
use vstd::prelude::*;

use crate::text;

verus! {

/// A colour, one byte for each of its parts.
#[derive(Debug, Clone, Copy, PartialEq, Eq, Structural)]
pub struct Rgb {
    pub red: u8,
    pub green: u8,
    pub blue: u8,
}

/// Apple Music's red, and the only colour that is not derived.
pub fn apple_red() -> (r: Rgb)
    ensures
        r == (Rgb { red: 0xFF, green: 0x4A, blue: 0x5E }),
{
    Rgb { red: 0xFF, green: 0x4A, blue: 0x5E }
}

/// The neutral dark that is taken where a terminal does not say what it uses.
pub open spec fn spec_assumed_bg() -> Rgb {
    Rgb { red: 0x14, green: 0x12, blue: 0x13 }
}

/// The neutral dark that is taken where a terminal does not say what it uses.
pub fn assumed_bg() -> (r: Rgb)
    ensures
        r == spec_assumed_bg(),
{
    Rgb { red: 0x14, green: 0x12, blue: 0x13 }
}

/// The value of a hexadecimal digit.
pub open spec fn hex_value(c: char) -> Option<int> {
    if '0' <= c <= '9' {
        Some(c as int - '0' as int)
    } else if 'a' <= c <= 'f' {
        Some(c as int - 'a' as int + 10)
    } else if 'A' <= c <= 'F' {
        Some(c as int - 'A' as int + 10)
    } else {
        None
    }
}

/// The value of a hexadecimal digit.
pub fn hex_digit(c: char) -> (r: Option<u32>)
    ensures
        match r {
            Some(d) => hex_value(c) == Some(d as int) && d < 16,
            None => hex_value(c) is None,
        },
{
    if '0' <= c && c <= '9' {
        Some(c as u32 - 48)
    } else if 'a' <= c && c <= 'f' {
        Some(c as u32 - 97 + 10)
    } else if 'A' <= c && c <= 'F' {
        Some(c as u32 - 65 + 10)
    } else {
        None
    }
}

/// The hexadecimal digits that `s` begins with.
pub open spec fn hex_head(s: Seq<char>) -> Seq<char>
    decreases s.len(),
{
    if s.len() > 0 && hex_value(s[0]) is Some {
        seq![s[0]] + hex_head(s.skip(1))
    } else {
        Seq::empty()
    }
}

/// The number that hexadecimal digits write.
pub open spec fn hex_number(s: Seq<char>) -> int
    decreases s.len(),
{
    if s.len() == 0 {
        0
    } else {
        hex_number(s.drop_last()) * 16 + hex_value(s.last()).unwrap_or(0)
    }
}

/// One part of a colour, scaled from the width that it is written in to a byte.
/// Without a digit, or with more than eight, it is none.
pub open spec fn channel_of(s: Seq<char>) -> Option<int> {
    let raw = hex_head(s);
    if 1 <= raw.len() <= 8 {
        Some(hex_number(raw) * 255 / (pow(16, raw.len()) - 1))
    } else {
        None
    }
}

/// What stands between the first `rgb:` of a reply and the next.
pub open spec fn colour_text(reply: Seq<char>) -> Option<Seq<char>> {
    match text::place(reply, "rgb:"@, 0) {
        None => None,
        Some(i) => match text::place(reply, "rgb:"@, i + 4) {
            Some(j) => Some(reply.subrange(i + 4, j)),
            None => Some(reply.subrange(i + 4, reply.len() as int)),
        },
    }
}

/// The three parts of the colour in a reply.
pub open spec fn parts_of(reply: Seq<char>) -> Option<(int, int, int)> {
    match colour_text(reply) {
        None => None,
        Some(rest) => {
            let parts = text::split(rest, '/');
            if parts.len() < 3 {
                None
            } else {
                match (channel_of(parts[0]), channel_of(parts[1]), channel_of(parts[2])) {
                    (Some(r), Some(g), Some(b)) => Some((r, g, b)),
                    _ => None,
                }
            }
        },
    }
}

proof fn widths(n: nat)
    requires
        n <= 8,
    ensures
        pow(16, n) == (if n == 0 {
            1int
        } else if n == 1 {
            0x10
        } else if n == 2 {
            0x100
        } else if n == 3 {
            0x1000
        } else if n == 4 {
            0x1_0000
        } else if n == 5 {
            0x10_0000
        } else if n == 6 {
            0x100_0000
        } else if n == 7 {
            0x1000_0000
        } else {
            0x1_0000_0000
        }),
{
    reveal(pow);
    reveal_with_fuel(pow, 9);
}

proof fn hex_head_split(s: Seq<char>, n: int)
    requires
        0 <= n <= s.len(),
        forall|i: int| 0 <= i < n ==> hex_value(#[trigger] s[i]) is Some,
        n == s.len() || hex_value(s[n]) is None,
    ensures
        hex_head(s) == s.take(n),
    decreases s.len(),
{
    if n > 0 {
        let t = s.skip(1);
        assert forall|i: int| 0 <= i < n - 1 implies hex_value(#[trigger] t[i]) is Some by {
            assert(t[i] == s[i + 1]);
        }
        hex_head_split(t, n - 1);
        assert(seq![s[0]] + t.take(n - 1) =~= s.take(n));
    } else {
        assert(s.take(0) =~= Seq::<char>::empty());
    }
}

proof fn longer_than(s: Seq<char>, n: int)
    requires
        0 <= n <= s.len(),
        forall|i: int| 0 <= i < n ==> hex_value(#[trigger] s[i]) is Some,
    ensures
        hex_head(s).len() >= n,
    decreases s.len(),
{
    if n > 0 {
        let t = s.skip(1);
        assert forall|i: int| 0 <= i < n - 1 implies hex_value(#[trigger] t[i]) is Some by {
            assert(t[i] == s[i + 1]);
        }
        longer_than(t, n - 1);
    }
}

/// One part of a colour, scaled to a byte.
fn channel(part: &str) -> (r: Option<u8>)
    ensures
        match r {
            Some(b) => channel_of(part@) == Some(b as int),
            None => channel_of(part@) is None,
        },
{
    let s = text::chars(part);
    let mut n: usize = 0;
    let mut value: u64 = 0;
    let mut full: u64 = 1;
    proof {
        widths(0);
    }
    while n < s.len()
        invariant
            n <= s@.len(),
            n <= 8,
            s@ == part@,
            forall|i: int| 0 <= i < n ==> hex_value(#[trigger] s@[i]) is Some,
            value == hex_number(s@.take(n as int)),
            full == pow(16, n as nat),
            value < full,
            1 <= full <= 0x1_0000_0000,
        ensures
            n <= s@.len(),
            n == s@.len() || hex_value(s@[n as int]) is None,
        decreases s@.len() - n,
    {
        match hex_digit(s[n]) {
            None => {
                break;
            },
            Some(d) => {
                if n == 8 {
                    proof {
                        longer_than(s@, 9);
                    }
                    return None;
                }
                proof {
                    text::take_step(s@, n as int);
                    assert(s@.take(n + 1).drop_last() =~= s@.take(n as int));
                    reveal(pow);
                    widths(n as nat);
                    widths((n + 1) as nat);
                }
                value = value * 16 + d as u64;
                full = full * 16;
                n += 1;
            },
        }
    }
    proof {
        hex_head_split(s@, n as int);
    }
    if n == 0 {
        return None;
    }
    proof {
        widths(n as nat);
        assert(value * 255 / (full - 1) <= 255) by (nonlinear_arith)
            requires
                0 <= value < full,
                full > 1,
        ;
    }
    Some((value * 255 / (full - 1)) as u8)
}

/// The background that a terminal reports: `…rgb:1a1a/1b1b/2626…`, with each
/// part scaled to the width that it is given in.
pub fn parse(reply: &str) -> (r: Option<Rgb>)
    ensures
        match r {
            Some(c) => parts_of(reply@) == Some((c.red as int, c.green as int, c.blue as int)),
            None => parts_of(reply@) is None,
        },
{
    let s = text::chars(reply);
    let mark = text::chars("rgb:");
    proof {
        reveal_strlit("rgb:");
    }
    let from = match text::find(&s, &mark, 0) {
        None => {
            return None;
        },
        Some(i) => {
            assert(i + 4 <= s.len());
            i + 4
        },
    };
    let to = match text::find(&s, &mark, from) {
        None => s.len(),
        Some(j) => j,
    };
    let rest = text::slice(&s, from, to);
    let parts = text::split_on(rest.as_str(), '/');
    assert(parts@.len() == text::views(parts@).len());
    if parts.len() < 3 {
        return None;
    }
    assert(parts@[0]@ == text::views(parts@)[0]);
    assert(parts@[1]@ == text::views(parts@)[1]);
    assert(parts@[2]@ == text::views(parts@)[2]);
    match (channel(parts[0].as_str()), channel(parts[1].as_str()), channel(parts[2].as_str())) {
        (Some(red), Some(green), Some(blue)) => Some(Rgb { red, green, blue }),
        _ => None,
    }
}

/// The background to mix the greys from: what the terminal reports, or the one
/// that is assumed.
pub fn ground(reply: Option<&str>) -> (r: Rgb)
    ensures
        match reply {
            Some(s) => match parts_of(s@) {
                Some(p) => (r.red as int, r.green as int, r.blue as int) == p,
                None => r == spec_assumed_bg(),
            },
            None => r == spec_assumed_bg(),
        },
{
    match reply {
        Some(s) => match parse(s) {
            Some(c) => c,
            None => assumed_bg(),
        },
        None => assumed_bg(),
    }
}

/// Whether a terminal's reply is all there: it ends with a bell, or with an
/// escape and a backslash.
pub open spec fn is_ended(reply: Seq<u8>) -> bool {
    ||| exists|i: int| 0 <= i < reply.len() && #[trigger] reply[i] == 7
    ||| exists|i: int|
        0 <= i < reply.len() - 1 && #[trigger] reply[i] == 27 && reply[i + 1] == 92
}

/// Whether a terminal's reply is all there.
pub fn reply_ended(reply: &Vec<u8>) -> (r: bool)
    ensures
        r == is_ended(reply@),
{
    let mut i: usize = 0;
    while i < reply.len()
        invariant
            i <= reply@.len(),
            forall|j: int| 0 <= j < i ==> #[trigger] reply@[j] != 7,
            forall|j: int|
                0 <= j < i && j < reply@.len() - 1 ==> !(#[trigger] reply@[j] == 27 && reply@[j + 1]
                    == 92),
        decreases reply@.len() - i,
    {
        if reply[i] == 7 {
            assert(reply@[i as int] == 7);
            return true;
        }
        if reply[i] == 27 && i < reply.len() - 1 && reply[i + 1] == 92 {
            assert(reply@[i as int] == 27 && reply@[i + 1] == 92);
            return true;
        }
        i += 1;
    }
    false
}

/// A part of a colour is scaled to a byte: all its digits at their highest are
/// the whole, none of them is nothing, and two digits are the byte itself.
pub proof fn a_colour_is_scaled_to_a_byte(a: char, b: char)
    requires
        hex_value(a) is Some,
        hex_value(b) is Some,
    ensures
        channel_of(seq![a, b]) == Some(hex_value(a)->0 * 16 + hex_value(b)->0),
        channel_of(seq!['f', 'f', 'f', 'f']) == Some(255int),
        channel_of(seq!['0', '0', '0', '0']) == Some(0int),
        channel_of(seq!['f']) == Some(255int),
        channel_of(Seq::empty()) is None,
{
    reveal_with_fuel(hex_head, 6);
    reveal_with_fuel(hex_number, 6);
    reveal_with_fuel(pow, 6);
    let two = seq![a, b];
    assert(two.skip(1) =~= seq![b]);
    assert(seq![b].skip(1) =~= Seq::<char>::empty());
    assert(hex_head(two) =~= two);
    assert(two.drop_last() =~= seq![a]);
    assert(seq![a].drop_last() =~= Seq::<char>::empty());
    assert(pow(16, 2) == 256);
    let n = hex_value(a)->0 * 16 + hex_value(b)->0;
    assert(hex_number(two) == n);
    assert(n * 255 / 255 == n);
    let f4 = seq!['f', 'f', 'f', 'f'];
    assert(f4.skip(1) =~= seq!['f', 'f', 'f']);
    assert(seq!['f', 'f', 'f'].skip(1) =~= seq!['f', 'f']);
    assert(seq!['f', 'f'].skip(1) =~= seq!['f']);
    assert(seq!['f'].skip(1) =~= Seq::<char>::empty());
    assert(hex_head(f4) =~= f4);
    assert(f4.drop_last() =~= seq!['f', 'f', 'f']);
    assert(seq!['f', 'f', 'f'].drop_last() =~= seq!['f', 'f']);
    assert(seq!['f', 'f'].drop_last() =~= seq!['f']);
    assert(seq!['f'].drop_last() =~= Seq::<char>::empty());
    assert(hex_number(f4) == 65535);
    assert(pow(16, 4) == 65536);
    let z4 = seq!['0', '0', '0', '0'];
    assert(z4.skip(1) =~= seq!['0', '0', '0']);
    assert(seq!['0', '0', '0'].skip(1) =~= seq!['0', '0']);
    assert(seq!['0', '0'].skip(1) =~= seq!['0']);
    assert(seq!['0'].skip(1) =~= Seq::<char>::empty());
    assert(hex_head(z4) =~= z4);
    assert(z4.drop_last() =~= seq!['0', '0', '0']);
    assert(seq!['0', '0', '0'].drop_last() =~= seq!['0', '0']);
    assert(seq!['0', '0'].drop_last() =~= seq!['0']);
    assert(seq!['0'].drop_last() =~= Seq::<char>::empty());
    assert(hex_number(z4) == 0);
    assert(hex_head(seq!['f']) =~= seq!['f']);
    assert(hex_number(seq!['f']) == 15);
    assert(pow(16, 1) == 16);
}

/// The three parts of a colour are read in their order: red, green and blue.
pub proof fn a_colour_is_read_in_its_order(
    before: Seq<char>,
    r: Seq<char>,
    g: Seq<char>,
    b: Seq<char>,
    x: int,
    y: int,
    z: int,
)
    requires
        text::place(before + "rgb:"@ + r.push('/') + g.push('/') + b, "rgb:"@, 0) == Some(
            before.len() as int,
        ),
        text::place(
            before + "rgb:"@ + r.push('/') + g.push('/') + b,
            "rgb:"@,
            before.len() as int + 4,
        ) is None,
        forall|i: int| 0 <= i < r.len() ==> #[trigger] r[i] != '/',
        forall|i: int| 0 <= i < g.len() ==> #[trigger] g[i] != '/',
        forall|i: int| 0 <= i < b.len() ==> #[trigger] b[i] != '/',
        channel_of(r) == Some(x),
        channel_of(g) == Some(y),
        channel_of(b) == Some(z),
    ensures
        parts_of(before + "rgb:"@ + r.push('/') + g.push('/') + b) == Some((x, y, z)),
{
    reveal_strlit("rgb:");
    let reply = before + "rgb:"@ + r.push('/') + g.push('/') + b;
    let rest = r.push('/') + (g.push('/') + b);
    assert(reply.subrange(before.len() as int + 4, reply.len() as int) =~= rest);
    text::a_text_is_cut_at_its_separators(r, '/', g.push('/') + b);
    text::a_text_is_cut_at_its_separators(g, '/', b);
    text::a_text_is_cut_at_its_separators(b, '/', Seq::empty());
    let parts = text::split(rest, '/');
    assert(parts =~= seq![r, g, b]);
}

/// A digit is worth the same in either case.
pub proof fn a_digit_is_worth_its_place(d: int)
    requires
        0 <= d < 6,
    ensures
        hex_value((('0' as int) + d) as char) == Some(d),
        hex_value((('a' as int) + d) as char) == Some(d + 10),
        hex_value((('A' as int) + d) as char) == Some(d + 10),
        hex_value('g') is None,
{
}

/// A reply is all there once it holds a bell, or an escape with a backslash
/// right behind it.
pub proof fn a_reply_ends_with_its_mark(a: Seq<u8>, b: Seq<u8>)
    ensures
        is_ended(a.push(7) + b),
        is_ended(a.push(27).push(92) + b),
        (forall|i: int| 0 <= i < a.len() ==> #[trigger] a[i] != 7 && a[i] != 27) ==> !is_ended(a),
{
    assert((a.push(7) + b)[a.len() as int] == 7);
    let s = a.push(27).push(92) + b;
    assert(s[a.len() as int] == 27 && s[a.len() as int + 1] == 92);
}

} // verus!
