//! Numbers written in digits, read and reckoned with as doubles are.
//!
//! A finite double is a whole multiple of the smallest one above zero, which is
//! two to the power of -1074. Here it is that multiple.
use vstd::arithmetic::power::{lemma_pow0, lemma_pow_adds, lemma_pow_positive, pow};
use vstd::arithmetic::power2::{
    lemma2_to64, lemma2_to64_rest, lemma_pow2_adds, lemma_pow2_pos, lemma_pow2_strictly_increases,
    lemma_pow2_unfold, pow2,
};
use vstd::prelude::*;

use crate::double::{
    self, as_double, capped, even_quotient, nearest, nearest_ratio, spacing, spacing_is,
    spacing_is_small,
};
use crate::natural::Natural;
use crate::text;

verus! {

/// How many of the smallest double make one.
pub open spec fn one() -> int {
    pow2(1074) as int
}

/// The first multiple of the smallest double that no finite double is.
pub open spec fn infinite() -> int {
    pow2(2098) as int
}

/// The double nearest to a result; none where that is infinite.
pub open spec fn kept(n: int) -> Option<int> {
    let size = if n < 0 {
        as_double(-n)
    } else {
        as_double(n)
    };
    if size >= infinite() {
        None
    } else if n < 0 {
        Some(-size)
    } else {
        Some(size)
    }
}

/// How many characters of `s` come before the first that is `a` or `b`.
pub open spec fn up_to(s: Seq<char>, a: char, b: char) -> int
    decreases s.len(),
{
    if s.len() == 0 {
        0
    } else {
        let n = up_to(s.drop_last(), a, b);
        if n == s.len() - 1 && s.last() != a && s.last() != b {
            n + 1
        } else {
            n
        }
    }
}

/// Whether `s` begins with a sign.
pub open spec fn has_sign(s: Seq<char>) -> bool {
    s.len() > 0 && (s[0] == '-' || s[0] == '+')
}

/// `s` behind its sign.
pub open spec fn unsigned(s: Seq<char>) -> Seq<char> {
    if has_sign(s) {
        s.skip(1)
    } else {
        s
    }
}

/// The whole number that `s` writes: digits, with a sign before them or not.
pub open spec fn integer_in(s: Seq<char>) -> Option<int> {
    if !text::only_digits(unsigned(s)) {
        None
    } else if s[0] == '-' {
        Some(-text::value_of_digits(unsigned(s)))
    } else {
        Some(text::value_of_digits(unsigned(s)))
    }
}

/// The digits of a number and the power of ten that they count: digits with a
/// point among them or without, and behind them the letter `e` and an exponent,
/// or not.
pub open spec fn digits_in(s: Seq<char>) -> Option<(Seq<char>, int)> {
    let mark = up_to(s, 'e', 'E');
    let exponent = if mark < s.len() {
        integer_in(s.skip(mark + 1))
    } else {
        Some(0)
    };
    let written = s.take(mark);
    let point = up_to(written, '.', '.');
    let behind = if point < written.len() {
        written.skip(point + 1)
    } else {
        Seq::empty()
    };
    let digits = written.take(point) + behind;
    match exponent {
        Some(e) if text::only_digits(digits) => Some((digits, e - behind.len())),
        _ => None,
    }
}

/// The double nearest to `d` times ten to the power of `e`.
pub open spec fn decimal_double(d: int, e: int) -> int {
    if e >= 0 {
        nearest_ratio(d * pow(10, e as nat) * one(), 1)
    } else {
        nearest_ratio(d * one(), pow(10, (-e) as nat))
    }
}

/// The double that `s` writes; none where it writes no finite one.
pub open spec fn double_in(s: Seq<char>) -> Option<int> {
    match digits_in(unsigned(s)) {
        None => None,
        Some((digits, e)) => {
            let size = decimal_double(text::value_of_digits(digits), e);
            if size >= infinite() {
                None
            } else if s[0] == '-' {
                Some(-size)
            } else {
                Some(size)
            }
        },
    }
}

/// The double nearest to a ratio.
fn nearest_of(a: &Natural, b: &Natural) -> (r: Natural)
    requires
        b@ > 0,
    ensures
        r@ == nearest_ratio(a@, b@),
{
    let mut t = b.copy();
    let mut g = Natural::of(1);
    let mut u = b.times_power_of_two(53);
    let ghost mut k: nat = 0;
    proof {
        lemma2_to64();
        lemma2_to64_rest();
        a.is_natural();
    }
    let mut far = a.minus(&u.times_plus(0x8000_0000, 0)).is_some();
    while far
        invariant
            b@ > 0,
            a@ >= 0,
            t@ == b@ * pow2(k),
            t@ > 0,
            g@ == pow2(k),
            u@ == t@ * 0x20_0000_0000_0000,
            far == (a@ >= u@ * 0x8000_0000),
            k > 0 ==> a@ >= (b@ * pow2((k - 1) as nat)) * 0x20_0000_0000_0000,
        decreases a@ - t@,
    {
        proof {
            lemma2_to64();
            lemma_pow2_adds(k, 31);
            lemma_pow2_unfold((k + 31) as nat);
            let (x, p) = (b@, pow2(k) as int);
            let h = pow2((k + 30) as nat) as int;
            lemma_pow2_pos((k + 30) as nat);
            assert(x * (p * 0x8000_0000) == (x * p) * 0x8000_0000) by (nonlinear_arith);
            assert(x * (2 * h) == 2 * (x * h)) by (nonlinear_arith);
            assert(x * h > 0) by (nonlinear_arith)
                requires
                    x > 0,
                    h > 0,
            ;
            k = k + 31;
        }
        t = t.times_plus(0x8000_0000, 0);
        g = g.times_plus(0x8000_0000, 0);
        u = u.times_plus(0x8000_0000, 0);
        far = a.minus(&u.times_plus(0x8000_0000, 0)).is_some();
    }
    let mut more = a.minus(&u).is_some();
    while more
        invariant
            b@ > 0,
            a@ >= 0,
            t@ == b@ * pow2(k),
            t@ > 0,
            g@ == pow2(k),
            u@ == t@ * 0x20_0000_0000_0000,
            more == (a@ >= u@),
            k > 0 ==> a@ >= (b@ * pow2((k - 1) as nat)) * 0x20_0000_0000_0000,
        decreases a@ - t@,
    {
        proof {
            lemma_pow2_unfold((k + 1) as nat);
            let (x, p) = (b@, pow2(k) as int);
            assert(x * (2 * p) == 2 * (x * p)) by (nonlinear_arith);
            k = k + 1;
        }
        t = t.doubled();
        g = g.doubled();
        u = u.doubled();
        more = a.minus(&u).is_some();
    }
    proof {
        let (x, y, p) = (a@, b@, pow2(k) as int);
        lemma_pow2_pos(k);
        vstd::arithmetic::div_mod::lemma_div_denominator(x, y, p);
        let m = 0x20_0000_0000_0000int;
        assert(x / (y * p) < m) by (nonlinear_arith)
            requires
                x < (y * p) * m,
                y * p > 0,
        ;
        if k > 0 {
            let h = pow2((k - 1) as nat) as int;
            lemma_pow2_pos((k - 1) as nat);
            vstd::arithmetic::div_mod::lemma_div_denominator(x, y, h);
            assert(y * h > 0) by (nonlinear_arith)
                requires
                    y > 0,
                    h > 0,
            ;
            assert(x / (y * h) >= m) by (nonlinear_arith)
                requires
                    x >= (y * h) * m,
                    y * h > 0,
            ;
        }
        assert(x / y >= 0) by (nonlinear_arith)
            requires
                x >= 0,
                y > 0,
        ;
        spacing_is(x / y, k);
    }
    let (q, rest) = a.divide(&t, 53);
    let twice = rest.doubled();
    let up = match t.minus(&twice) {
        None => true,
        Some(_) => twice.minus(&t).is_some() && q % 2 == 1,
    };
    let n: u64 = if up {
        q + 1
    } else {
        q
    };
    proof {
        let e = even_quotient(a@, t@);
        assert(n == e);
        assert(g@ * n == n * g@) by (nonlinear_arith);
    }
    g.times(n)
}

/// A finite double.
pub struct Double {
    below: bool,
    size: Natural,
}

impl View for Double {
    type V = int;

    closed spec fn view(&self) -> int {
        if self.below {
            -self.size@
        } else {
            self.size@
        }
    }
}

fn limit() -> (r: Natural)
    ensures
        r@ == infinite(),
{
    Natural::of(1).times_power_of_two(2098)
}

/// A result, rounded; none where it is infinite.
fn finite(below: bool, size: &Natural) -> (r: Option<Double>)
    ensures
        match r {
            Some(d) => kept(
                if below {
                    -size@
                } else {
                    size@
                },
            ) == Some(d@),
            None => kept(
                if below {
                    -size@
                } else {
                    size@
                },
            ) is None,
        },
{
    proof {
        size.is_natural();
    }
    let size = nearest_of(size, &Natural::of(1));
    proof {
        assert(as_double(0) == 0);
    }
    if size.minus(&limit()).is_some() {
        None
    } else {
        Some(Double { below, size })
    }
}

impl Double {
    /// The double times a whole number.
    pub fn times(&self, n: u32) -> (r: Option<Self>)
        ensures
            match r {
                Some(d) => kept(self@ * n) == Some(d@),
                None => kept(self@ * n) is None,
            },
    {
        let size = self.size.times_plus(n, 0);
        proof {
            let (v, m) = (self.size@, n as int);
            assert((-v) * m == -(v * m)) by (nonlinear_arith);
        }
        finite(self.below, &size)
    }

    /// The sum of both.
    pub fn plus(&self, other: &Self) -> (r: Option<Self>)
        ensures
            match r {
                Some(d) => kept(self@ + other@) == Some(d@),
                None => kept(self@ + other@) is None,
            },
    {
        if self.below == other.below {
            return finite(self.below, &self.size.plus(&other.size));
        }
        match self.size.minus(&other.size) {
            Some(size) => finite(self.below, &size),
            None => match other.size.minus(&self.size) {
                Some(size) => finite(other.below, &size),
                None => None,
            },
        }
    }

    /// Whether the double is below zero.
    pub fn is_below_zero(&self) -> (r: bool)
        ensures
            r == (self@ < 0),
    {
        proof {
            self.size.is_natural();
        }
        self.below && Natural::of(0).minus(&self.size).is_none()
    }

    /// A thousand times the double, to the nearest whole number.
    pub fn thousandths(&self) -> (r: u64)
        requires
            self@ >= 0,
        ensures
            r == capped(nearest(as_double(self@ * 1000), -1074)),
    {
        proof {
            self.size.is_natural();
        }
        let size = nearest_of(&self.size.times_plus(1000, 0), &Natural::of(1));
        let half = Natural::of(1).times_power_of_two(1074);
        let whole = half.doubled();
        let a = size.doubled().plus(&half);
        let most = whole.times_power_of_two(64);
        proof {
            size.is_natural();
            lemma_pow2_pos(1074);
            lemma2_to64();
            lemma2_to64_rest();
            assert(a@ == 2 * as_double(self@ * 1000) + pow2(1074));
        }
        if a.minus(&most).is_some() {
            proof {
                let (x, w) = (a@, whole@);
                assert(x / w >= 0x1_0000_0000_0000_0000) by (nonlinear_arith)
                    requires
                        x >= w * 0x1_0000_0000_0000_0000,
                        w > 0,
                ;
            }
            u64::MAX
        } else {
            a.divide(&whole, 64).0
        }
    }
}

/// Ten to a power is at least eight to that power.
proof fn ten_is_more_than_eight(n: nat)
    ensures
        pow(10, n) >= pow2(3 * n),
    decreases n,
{
    reveal(pow);
    lemma2_to64();
    if n > 0 {
        ten_is_more_than_eight((n - 1) as nat);
        lemma_pow2_adds((3 * (n - 1)) as nat, 3);
        lemma_pow2_pos((3 * (n - 1)) as nat);
    }
}

/// How many digits there are behind the zeros at the front.
spec fn significant(s: Seq<char>) -> int
    decreases s.len(),
{
    if s.len() == 0 {
        0
    } else {
        let n = significant(s.drop_last());
        if n > 0 || s.last() != '0' {
            n + 1
        } else {
            0
        }
    }
}

proof fn digits_write_their_size(s: Seq<char>)
    requires
        forall|i: int| 0 <= i < s.len() ==> '0' <= #[trigger] s[i] <= '9',
    ensures
        0 <= significant(s) <= s.len(),
        0 <= text::value_of_digits(s) < pow(10, significant(s) as nat),
        significant(s) > 0 ==> text::value_of_digits(s) >= pow(10, (significant(s) - 1) as nat),
    decreases s.len(),
{
    lemma_pow0(10);
    if s.len() > 0 {
        let rest = s.drop_last();
        assert forall|i: int| 0 <= i < rest.len() implies '0' <= #[trigger] rest[i] <= '9' by {
            assert(rest[i] == s[i]);
        }
        digits_write_their_size(rest);
        assert('0' <= s[s.len() - 1] <= '9');
        let n = significant(rest);
        reveal(pow);
        assert(pow(10, (n + 1) as nat) == 10 * pow(10, n as nat));
        if n > 0 {
            assert(pow(10, n as nat) == 10 * pow(10, (n - 1) as nat));
        }
    }
}

/// A number of more than four hundred digits before the point is infinite.
proof fn a_long_number_is_infinite(d: int, n: int, e: int)
    requires
        n > 0,
        d >= pow(10, (n - 1) as nat),
        n + e > 400,
    ensures
        decimal_double(d, e) >= infinite(),
{
    let (a, b) = if e >= 0 {
        (d * pow(10, e as nat) * one(), 1int)
    } else {
        (d * one(), pow(10, (-e) as nat))
    };
    let ten = pow(10, (n - 1 + e) as nat);
    lemma_pow_positive(10, (n - 1) as nat);
    ten_is_more_than_eight((n - 1 + e) as nat);
    if n - 1 + e > 400 {
        lemma_pow2_strictly_increases(1200, (3 * (n - 1 + e)) as nat);
    }
    assert(ten >= pow2(1200));
    lemma_pow2_pos(1074);
    lemma_pow2_pos(2098);
    lemma_pow2_adds(1074, 1200);
    lemma_pow2_strictly_increases(2099, 2274);
    lemma_pow2_unfold(2099);
    let y = 2 * infinite();
    assert(ten * one() >= y) by (nonlinear_arith)
        requires
            ten >= pow2(1200),
            one() == pow2(1074),
            pow2(1074) * pow2(1200) >= y,
            pow2(1074) > 0,
    ;
    if e >= 0 {
        lemma_pow_adds(10, (n - 1) as nat, e as nat);
        lemma_pow_positive(10, e as nat);
        let (p, q, o) = (pow(10, (n - 1) as nat), pow(10, e as nat), one());
        assert(d * q * o >= p * q * o) by (nonlinear_arith)
            requires
                d >= p,
                q > 0,
                o > 0,
        ;
    } else {
        lemma_pow_adds(10, (n - 1 + e) as nat, (-e) as nat);
        lemma_pow_positive(10, (-e) as nat);
        let o = one();
        assert(d * o >= (ten * b) * o) by (nonlinear_arith)
            requires
                d >= ten * b,
                o > 0,
        ;
        assert((ten * b) * o == (ten * o) * b) by (nonlinear_arith);
        assert((ten * o) * b >= y * b) by (nonlinear_arith)
            requires
                ten * o >= y,
                b > 0,
        ;
    }
    assert(a >= y * b);
    let x = a / b;
    assert(x >= y) by (nonlinear_arith)
        requires
            a >= y * b,
            b > 0,
            x == a / b,
    ;
    double::nearest_is_near(a, b);
    spacing_is_small(x);
    let (r, g) = (nearest_ratio(a, b), spacing(x));
    lemma_pow2_strictly_increases(53, 2098);
    lemma2_to64();
    assert(r + g > x) by (nonlinear_arith)
        requires
            (r + g) * b > a,
            b > 0,
            x == a / b,
    ;
}

/// A number with more than four hundred zeros behind the point is zero.
proof fn a_small_number_is_zero(d: int, n: int, e: int)
    requires
        0 <= n,
        0 <= d < pow(10, n as nat),
        n + e < -400,
    ensures
        decimal_double(d, e) == 0,
{
    let b = pow(10, (-e) as nat);
    let a = d * one();
    let ten = pow(10, (-e - n) as nat);
    let p = pow(10, n as nat);
    lemma_pow_adds(10, n as nat, (-e - n) as nat);
    ten_is_more_than_eight((-e - n) as nat);
    lemma_pow2_strictly_increases(1075, (3 * (-e - n)) as nat);
    lemma_pow2_unfold(1075);
    lemma_pow2_pos(1074);
    let o = one();
    assert(2 * (d * o) < p * ten) by (nonlinear_arith)
        requires
            0 <= d < p,
            ten >= 2 * o,
            o > 0,
    ;
    assert(a >= 0) by (nonlinear_arith)
        requires
            a == d * o,
            d >= 0,
            o > 0,
    ;
    vstd::arithmetic::div_mod::lemma_basic_div(a, b);
    vstd::arithmetic::div_mod::lemma_small_mod(a as nat, b as nat);
}

/// How many characters there are before the first that is `a` or `b`.
fn find(v: &Vec<char>, from: usize, to: usize, a: char, b: char) -> (r: usize)
    requires
        from <= to <= v@.len(),
    ensures
        r == from + up_to(v@.subrange(from as int, to as int), a, b),
        from <= r <= to,
{
    let mut r: usize = from;
    let mut i: usize = from;
    assert(v@.subrange(from as int, from as int) =~= Seq::<char>::empty());
    while i < to
        invariant
            from <= r <= i <= to <= v@.len(),
            r == from + up_to(v@.subrange(from as int, i as int), a, b),
        decreases to - i,
    {
        proof {
            let s = v@.subrange(from as int, i + 1);
            assert(s.drop_last() =~= v@.subrange(from as int, i as int));
        }
        if r == i && v[i] != a && v[i] != b {
            r += 1;
        }
        i += 1;
    }
    r
}

/// The most that an exponent is counted up to.
const FAR: u128 = 1_000_000_000_000_000_000_000_000_000_000;

/// The size of the whole number that digits write, as far as it is counted.
fn read_digits(v: &Vec<char>, from: usize) -> (r: Option<u128>)
    requires
        from <= v@.len(),
    ensures
        match r {
            Some(n) => {
                &&& text::only_digits(v@.skip(from as int))
                &&& n <= FAR
                &&& n < FAR ==> n == text::value_of_digits(v@.skip(from as int))
                &&& n == FAR ==> n <= text::value_of_digits(v@.skip(from as int))
            },
            None => !text::only_digits(v@.skip(from as int)),
        },
{
    let ghost s = v@.skip(from as int);
    if from == v.len() {
        return None;
    }
    let mut n: u128 = 0;
    let mut i: usize = from;
    assert(s.take(0) =~= Seq::<char>::empty());
    while i < v.len()
        invariant
            from <= i <= v@.len(),
            s == v@.skip(from as int),
            forall|j: int| 0 <= j < i - from ==> '0' <= #[trigger] s[j] <= '9',
            n <= FAR,
            n < FAR ==> n == text::value_of_digits(s.take(i - from)),
            n == FAR ==> n <= text::value_of_digits(s.take(i - from)),
        decreases v@.len() - i,
    {
        let c = v[i];
        assert(c == s[i - from]);
        if c < '0' || '9' < c {
            return None;
        }
        proof {
            text::take_step(s, i - from);
            assert(s.take(i - from + 1).drop_last() =~= s.take(i - from));
        }
        let next: u128 = n * 10 + (c as u128 - 48);
        n = if next < FAR {
            next
        } else {
            FAR
        };
        i += 1;
    }
    assert(s.take(i - from) =~= s);
    Some(n)
}

/// The number that the digits before and behind a point write, and how many of
/// them there are behind the zeros at the front; none where there is anything
/// but digits.
fn read_point(v: &Vec<char>, from: usize, point: usize, behind: usize, to: usize) -> (r: Option<
    (Natural, usize),
>)
    requires
        from <= point <= to <= v@.len(),
        behind == if point < to {
            point + 1
        } else {
            to as int
        },
    ensures
        ({
            let digits = v@.subrange(from as int, point as int) + v@.subrange(
                behind as int,
                to as int,
            );
            match r {
                Some((size, n)) => {
                    &&& text::only_digits(digits)
                    &&& size@ == text::value_of_digits(digits)
                    &&& n == significant(digits)
                },
                None => !text::only_digits(digits),
            }
        }),
{
    let ghost digits = v@.subrange(from as int, point as int) + v@.subrange(
        behind as int,
        to as int,
    );
    if point == from && behind == to {
        return None;
    }
    let mut size = Natural::of(0);
    let mut n: usize = 0;
    let mut i: usize = from;
    let ghost mut read: int = 0;
    assert(digits.take(0) =~= Seq::<char>::empty());
    while i < to
        invariant
            from <= point <= to <= v@.len(),
            from <= i <= to,
            behind == if point < to {
                point + 1
            } else {
                to as int
            },
            digits == v@.subrange(from as int, point as int) + v@.subrange(
                behind as int,
                to as int,
            ),
            read == if i <= point {
                i - from
            } else {
                i - from - 1
            },
            forall|j: int| 0 <= j < read ==> '0' <= #[trigger] digits[j] <= '9',
            size@ == text::value_of_digits(digits.take(read)),
            0 <= n <= read,
            n == significant(digits.take(read)),
        decreases to - i,
    {
        if i != point {
            let c = v[i];
            assert(c == digits[read]);
            if c < '0' || '9' < c {
                return None;
            }
            proof {
                text::take_step(digits, read);
                assert(digits.take(read + 1).drop_last() =~= digits.take(read));
                read = read + 1;
            }
            size = size.times_plus(10, c as u32 - 48);
            n = if n > 0 || c != '0' {
                n + 1
            } else {
                0
            };
        }
        i += 1;
    }
    assert(digits.take(read) =~= digits);
    Some((size, n))
}

/// The double nearest to a number of `n` digits with `cut` of them behind the
/// point, times ten to the power of `shift`; none where that is infinite.
fn placed(size: &Natural, n: usize, shift: i128, cut: usize, Ghost(e): Ghost<int>) -> (r: Option<
    Natural,
>)
    requires
        0 <= size@ < pow(10, n as nat),
        n > 0 ==> size@ >= pow(10, (n - 1) as nat),
        -(FAR as int) <= shift <= FAR,
        -(FAR as int) < shift < FAR ==> e == shift - cut,
        shift == FAR ==> e >= shift - cut,
        shift == -(FAR as int) ==> e <= shift - cut,
    ensures
        match r {
            Some(m) => m@ == decimal_double(size@, e) && m@ < infinite(),
            None => decimal_double(size@, e) >= infinite(),
        },
{
    let place: i128 = n as i128 + shift - cut as i128;
    if n == 0 || place < -400 {
        proof {
            if n == 0 {
                lemma_pow0(10);
                nothing_is_zero(e);
            } else {
                a_small_number_is_zero(size@, n as int, e);
            }
            lemma_pow2_pos(2098);
        }
        return Some(Natural::of(0));
    }
    if place > 400 {
        proof {
            a_long_number_is_infinite(size@, n as int, e);
        }
        return None;
    }
    let up: i128 = place - n as i128;
    assert(up == e);
    let unit = Natural::of(1);
    let double = if up >= 0 {
        nearest_of(&size.times_power_of_ten(up as u128).times_power_of_two(1074), &unit)
    } else {
        let ten = unit.times_power_of_ten((-up) as u128);
        proof {
            lemma_pow_positive(10, (-e) as nat);
        }
        nearest_of(&size.times_power_of_two(1074), &ten)
    };
    if double.minus(&limit()).is_some() {
        None
    } else {
        Some(double)
    }
}

/// The exponent that is written from `from` on, as far as it is counted.
fn read_exponent(v: &Vec<char>, from: usize) -> (r: Option<i128>)
    requires
        from <= v@.len(),
    ensures
        match (r, integer_in(v@.skip(from as int))) {
            (Some(n), Some(e)) => {
                &&& -(FAR as int) <= n <= FAR
                &&& -(FAR as int) < n < FAR ==> e == n
                &&& n == FAR ==> e >= n
                &&& n == -(FAR as int) ==> e <= n
            },
            (None, None) => true,
            _ => false,
        },
{
    let signed = from < v.len() && (v[from] == '-' || v[from] == '+');
    let back = from < v.len() && v[from] == '-';
    let ghost tail = v@.skip(from as int);
    let start: usize = if signed {
        from + 1
    } else {
        from
    };
    assert(unsigned(tail) =~= v@.skip(start as int));
    match read_digits(v, start) {
        Some(n) => if back {
            Some(-(n as i128))
        } else {
            Some(n as i128)
        },
        None => None,
    }
}

/// Where the digits of a number end, the point among them stands and what is
/// behind it begins, and the exponent behind them, as far as it is counted.
fn cut(v: &Vec<char>, from: usize) -> (r: (usize, usize, usize, Option<i128>))
    requires
        from <= v@.len(),
    ensures
        ({
            let s = v@.skip(from as int);
            let mark = up_to(s, 'e', 'E');
            let point = up_to(s.take(mark), '.', '.');
            &&& r.0 == from + point
            &&& r.1 == if point < mark {
                r.0 + 1
            } else {
                r.2 as int
            }
            &&& r.2 == from + mark
            &&& from <= r.0 <= r.2 <= v@.len()
            &&& match (
                r.3,
                if mark < s.len() {
                    integer_in(s.skip(mark + 1))
                } else {
                    Some(0)
                },
            ) {
                (Some(n), Some(e)) => {
                    &&& -(FAR as int) <= n <= FAR
                    &&& -(FAR as int) < n < FAR ==> e == n
                    &&& n == FAR ==> e >= n
                    &&& n == -(FAR as int) ==> e <= n
                },
                (None, None) => true,
                _ => false,
            }
        }),
{
    let ghost s = v@.skip(from as int);
    assert(s =~= v@.subrange(from as int, v@.len() as int));
    let mark = find(v, from, v.len(), 'e', 'E');
    assert(s.take(mark - from) =~= v@.subrange(from as int, mark as int));
    let point = find(v, from, mark, '.', '.');
    let exponent: Option<i128> = if mark < v.len() {
        assert(s.skip(mark - from + 1) =~= v@.skip(mark + 1));
        read_exponent(v, mark + 1)
    } else {
        Some(0)
    };
    let behind: usize = if point < mark {
        point + 1
    } else {
        mark
    };
    (point, behind, mark, exponent)
}

/// The double that a number without a sign writes, from `from` on.
fn read_unsigned(v: &Vec<char>, from: usize) -> (r: Option<Natural>)
    requires
        from <= v@.len(),
    ensures
        match (digits_in(v@.skip(from as int)), r) {
            (None, None) => true,
            (Some((digits, e)), None) => decimal_double(text::value_of_digits(digits), e)
                >= infinite(),
            (Some((digits, e)), Some(m)) => m@ == decimal_double(text::value_of_digits(digits), e)
                && m@ < infinite(),
            _ => false,
        },
{
    let ghost s = v@.skip(from as int);
    let (point, behind, mark, exponent) = cut(v, from);
    let ghost written = s.take(mark - from);
    let ghost fraction = if point < mark {
        written.skip(point - from + 1)
    } else {
        Seq::empty()
    };
    let ghost digits = written.take(point - from) + fraction;
    let ghost power = if mark < v@.len() {
        integer_in(s.skip(mark - from + 1))
    } else {
        Some(0)
    };
    proof {
        assert(fraction =~= v@.subrange(behind as int, mark as int));
        assert(written.take(point - from) =~= v@.subrange(from as int, point as int));
        assert(digits_in(s) == match power {
            Some(e) if text::only_digits(digits) => Some((digits, e - fraction.len())),
            _ => None,
        });
    }
    match (exponent, read_point(v, from, point, behind, mark)) {
        (Some(shift), Some((size, n))) => {
            proof {
                digits_write_their_size(digits);
            }
            placed(&size, n, shift, mark - behind, Ghost(power->0 - fraction.len()))
        },
        _ => None,
    }
}

/// The double that `s` writes; none where it writes no finite one.
pub fn read(s: &str) -> (r: Option<Double>)
    ensures
        match r {
            Some(d) => double_in(s@) == Some(d@),
            None => double_in(s@) is None,
        },
{
    let v = text::chars(s);
    let signed = v.len() > 0 && (v[0] == '-' || v[0] == '+');
    let below = v.len() > 0 && v[0] == '-';
    let from: usize = if signed {
        1
    } else {
        0
    };
    assert(unsigned(s@) =~= v@.skip(from as int));
    match read_unsigned(&v, from) {
        Some(size) => Some(Double { below, size }),
        None => None,
    }
}

/// Nothing times a power of ten is nothing.
proof fn nothing_is_zero(e: int)
    ensures
        decimal_double(0, e) == 0,
{
    if e >= 0 {
        assert(0 * pow(10, e as nat) * one() == 0) by (nonlinear_arith);
        assert(nearest_ratio(0, 1) == 0);
    } else {
        let b = pow(10, (-e) as nat);
        lemma_pow_positive(10, (-e) as nat);
        assert(0 * one() == 0);
        vstd::arithmetic::div_mod::lemma_basic_div(0, b);
        vstd::arithmetic::div_mod::lemma_small_mod(0, b as nat);
        assert(nearest_ratio(0, b) == 0);
    }
}

proof fn digits_are_not_cut(s: Seq<char>, a: char, b: char)
    requires
        forall|i: int| 0 <= i < s.len() ==> '0' <= #[trigger] s[i] <= '9',
        !('0' <= a <= '9'),
        !('0' <= b <= '9'),
    ensures
        up_to(s, a, b) == s.len(),
    decreases s.len(),
{
    if s.len() > 0 {
        let t = s.drop_last();
        assert forall|i: int| 0 <= i < t.len() implies '0' <= #[trigger] t[i] <= '9' by {
            assert(t[i] == s[i]);
        }
        digits_are_not_cut(t, a, b);
        assert('0' <= s[s.len() - 1] <= '9');
    }
}

/// A whole number of 53 binary digits that is written out is read as itself.
pub proof fn a_whole_number_is_read_as_itself(n: nat)
    requires
        n < 0x20_0000_0000_0000,
    ensures
        double_in(text::decimal(n)) == Some(n * one()),
{
    let s = text::decimal(n);
    text::digits_are_read_back(n);
    text::decimal_nonempty(n);
    assert('0' <= s[0] <= '9');
    assert(unsigned(s) == s);
    digits_are_not_cut(s, 'e', 'E');
    assert(s.take(s.len() as int) =~= s);
    digits_are_not_cut(s, '.', '.');
    assert(s + Seq::<char>::empty() =~= s);
    assert(digits_in(s) == Some((s, 0int)));
    lemma_pow0(10);
    assert(n * 1 == n);
    double::a_number_of_few_digits_is_exact(n as int, 1074);
    lemma_pow2_adds(53, 1074);
    lemma_pow2_strictly_increases(1127, 2098);
    lemma2_to64();
    lemma2_to64_rest();
    lemma_pow2_pos(1074);
    assert(n * pow2(1074) <= pow2(53) * pow2(1074)) by (nonlinear_arith)
        requires
            n <= pow2(53),
            pow2(1074) > 0,
    ;
}

/// A result of 53 binary digits is kept as it is.
pub proof fn a_whole_result_is_kept(n: nat)
    requires
        n < 0x20_0000_0000_0000,
    ensures
        kept(n * one()) == Some(n * one()),
        as_double(n * one()) == n * one(),
{
    double::a_number_of_few_digits_is_exact(n as int, 1074);
    lemma_pow2_adds(53, 1074);
    lemma_pow2_strictly_increases(1127, 2098);
    lemma2_to64();
    lemma2_to64_rest();
    lemma_pow2_pos(1074);
    assert(0 <= n * pow2(1074) <= pow2(53) * pow2(1074)) by (nonlinear_arith)
        requires
            n <= pow2(53),
            pow2(1074) > 0,
    ;
}

/// The whole number nearest to a whole number is that number.
pub proof fn a_whole_number_is_nearest_to_itself(n: nat)
    ensures
        nearest(n * one(), -1074) == n,
{
    let p = one();
    lemma_pow2_pos(1074);
    assert((2 * (n * p) + p) / (2 * p) == n) by (nonlinear_arith)
        requires
            p > 0,
            n >= 0,
    ;
}

} // verus!
