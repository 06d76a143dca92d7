//! Doubles, held as their bits, and the whole numbers nearest to them.
use vstd::arithmetic::power2::{
    lemma2_to64, lemma2_to64_rest, lemma_pow2_pos, lemma_pow2_strictly_increases,
    lemma_pow2_unfold, pow2,
};
use vstd::prelude::*;

verus! {

/// The bits of the double one.
pub const ONE: u64 = 0x3FF0_0000_0000_0000;

/// The bits of the double infinity.
pub const INFINITE: u64 = 0x7FF0_0000_0000_0000;

/// The bits of the double minus zero.
pub const MINUS_ZERO: u64 = 0x8000_0000_0000_0000;

/// The bits of the double minus infinity.
pub const MINUS_INFINITE: u64 = 0xFFF0_0000_0000_0000;

/// The bits of a double, held between zero and one. Positive doubles are
/// ordered as their bits are; what is not a number, and minus zero, stay.
pub open spec fn unit(bits: u64) -> u64 {
    if ONE < bits <= INFINITE {
        ONE
    } else if MINUS_ZERO < bits <= MINUS_INFINITE {
        0
    } else {
        bits
    }
}

/// The bits of a double, held between zero and one.
pub fn clamp_unit(bits: u64) -> (r: u64)
    ensures
        r == unit(bits),
{
    if ONE < bits && bits <= INFINITE {
        ONE
    } else if MINUS_ZERO < bits && bits <= MINUS_INFINITE {
        0
    } else {
        bits
    }
}

/// The first whole number after which not every one is a double.
pub const EXACT: u64 = 0x20_0000_0000_0000;

/// How many doubles there are from one power of two to the next.
const STEPS: u64 = 0x10_0000_0000_0000;

/// The exponent that the bits of a double hold.
pub open spec fn exponent(bits: u64) -> int {
    (bits as int / 0x10_0000_0000_0000) % 0x800
}

/// Whether the bits are those of a number below zero, or of the zero of that
/// side.
pub open spec fn below_zero(bits: u64) -> bool {
    bits >= 0x8000_0000_0000_0000
}

/// Whether the bits are those of a number.
pub open spec fn finite(bits: u64) -> bool {
    exponent(bits) != 0x7ff
}

/// The whole number that a double's magnitude is a multiple of a power of two
/// by, and the exponent of that power.
pub open spec fn parts(bits: u64) -> (int, int) {
    let fraction = bits as int % 0x10_0000_0000_0000;
    if exponent(bits) == 0 {
        (fraction, -1074)
    } else {
        (fraction + 0x10_0000_0000_0000, exponent(bits) - 1075)
    }
}

/// The whole number nearest to `m` times two to the power of `e`, and the
/// larger of two that are equally near.
pub open spec fn nearest(m: int, e: int) -> int {
    if e >= 0 {
        m * pow2(e as nat)
    } else {
        (2 * m + pow2((-e) as nat)) / (2 * pow2((-e) as nat) as int)
    }
}

/// A whole number as a 64-bit one: the largest in the place of any above it.
pub open spec fn capped(n: int) -> u64 {
    if n > u64::MAX {
        u64::MAX
    } else {
        n as u64
    }
}

/// The whole number nearest to a double that is above zero; zero for any other
/// double, and for what is no number.
pub open spec fn rounded(bits: u64) -> u64 {
    if below_zero(bits) || !finite(bits) {
        0
    } else {
        capped(nearest(parts(bits).0, parts(bits).1))
    }
}

/// Two to the power of `k`.
fn power(k: u64) -> (r: u64)
    requires
        k < 64,
    ensures
        r == pow2(k as nat),
        r > 0,
{
    let mut r: u64 = 1;
    let mut i: u64 = 0;
    proof {
        lemma2_to64();
        lemma2_to64_rest();
    }
    while i < k
        invariant
            i <= k < 64,
            r == pow2(i as nat),
            r > 0,
        decreases k - i,
    {
        proof {
            lemma_pow2_unfold((i + 1) as nat);
            lemma2_to64();
            lemma2_to64_rest();
            if i + 1 < 63 {
                lemma_pow2_strictly_increases((i + 1) as nat, 63);
            }
        }
        r = r * 2;
        i += 1;
    }
    r
}

/// The whole number nearest to a double that is above zero, and zero for any
/// other.
pub fn round(bits: u64) -> (r: u64)
    ensures
        r == rounded(bits),
{
    let exp: u64 = (bits / STEPS) % 0x800;
    let fraction: u64 = bits % STEPS;
    if bits >= 0x8000_0000_0000_0000 || exp == 0x7ff {
        return 0;
    }
    proof {
        lemma2_to64();
        lemma2_to64_rest();
    }
    if exp < 1022 {
        proof {
            let k = (-parts(bits).1) as nat;
            let m = parts(bits).0;
            lemma_pow2_strictly_increases(53, k);
            lemma_pow2_unfold(k);
            if k > 54 {
                lemma_pow2_strictly_increases(53, (k - 1) as nat);
            }
            let p = pow2(k) as int;
            assert(0 <= 2 * m + p < 2 * p);
            assert((2 * m + p) / (2 * p) == 0) by (nonlinear_arith)
                requires
                    0 <= 2 * m + p < 2 * p,
            ;
        }
        return 0;
    }
    let m: u64 = fraction + STEPS;
    if exp < 1075 {
        let k: u64 = 1075 - exp;
        let half: u64 = power(k - 1);
        proof {
            lemma_pow2_unfold(k as nat);
            if k - 1 < 52 {
                lemma_pow2_strictly_increases((k - 1) as nat, 52);
            }
            let h = half as int;
            assert(pow2(k as nat) == 2 * h);
            assert((2 * m + 2 * h) / (4 * h) == (m + h) / (2 * h)) by (nonlinear_arith)
                requires
                    h > 0,
                    m >= 0,
            ;
            assert((m + h) / (2 * h) <= m + h) by (nonlinear_arith)
                requires
                    h > 0,
                    m >= 0,
            ;
        }
        return (m + half) / (2 * half);
    }
    let e: u64 = exp - 1075;
    if e > 11 {
        proof {
            if e > 12 {
                lemma_pow2_strictly_increases(12, e as nat);
            }
            let p = pow2(e as nat) as int;
            assert(m * p >= 0x10_0000_0000_0000 * 0x1000) by (nonlinear_arith)
                requires
                    m >= 0x10_0000_0000_0000,
                    p >= 0x1000,
            ;
        }
        return u64::MAX;
    }
    let p: u64 = power(e);
    proof {
        if e < 11 {
            lemma_pow2_strictly_increases(e as nat, 11);
        }
        assert(m * p <= 0x1f_ffff_ffff_ffff * 0x800) by (nonlinear_arith)
            requires
                0 <= m <= 0x1f_ffff_ffff_ffff,
                0 <= p <= 0x800,
        ;
    }
    m * p
}

/// How far apart the doubles are at `n`: one up to [`EXACT`], and twice as far
/// at twice the number.
pub open spec fn spacing(n: int) -> int
    decreases n,
{
    if n < 0x20_0000_0000_0000 {
        1
    } else {
        2 * spacing(n / 2)
    }
}

/// The whole number nearest to `a / b`; of two that are equally near, the even
/// one.
pub open spec fn even_quotient(a: int, b: int) -> int {
    let low = a / b;
    let rest = a % b;
    if 2 * rest > b || (2 * rest == b && low % 2 == 1) {
        low + 1
    } else {
        low
    }
}

/// `a / b` to the 53 binary digits of a double: the nearest multiple of the
/// space between the doubles there, and of two that are equally near the even
/// one.
pub open spec fn nearest_ratio(a: int, b: int) -> int {
    let g = spacing(a / b);
    even_quotient(a, b * g) * g
}

/// The double nearest to a whole number.
pub open spec fn as_double(n: int) -> int {
    nearest_ratio(n, 1)
}

/// The space between the doubles at `x` is the power of two that leaves 53
/// binary digits.
pub proof fn spacing_is(x: int, k: nat)
    requires
        x >= 0,
        x / (pow2(k) as int) < 0x20_0000_0000_0000,
        k > 0 ==> x / (pow2((k - 1) as nat) as int) >= 0x20_0000_0000_0000,
    ensures
        spacing(x) == pow2(k),
    decreases k,
{
    lemma2_to64();
    if k > 0 {
        let p = pow2((k - 1) as nat) as int;
        lemma_pow2_pos((k - 1) as nat);
        lemma_pow2_unfold(k);
        assert(x >= x / p) by (nonlinear_arith)
            requires
                x >= 0,
                p > 0,
        ;
        vstd::arithmetic::div_mod::lemma_div_denominator(x, 2, p);
        if k > 1 {
            lemma_pow2_unfold((k - 1) as nat);
            lemma_pow2_pos((k - 2) as nat);
            vstd::arithmetic::div_mod::lemma_div_denominator(x, 2, pow2((k - 2) as nat) as int);
        }
        spacing_is(x / 2, (k - 1) as nat);
    } else {
        assert(x / 1 == x);
    }
}

/// The space between the doubles at `x` is small beside `x`.
pub proof fn spacing_is_small(x: int)
    requires
        x >= 0,
    ensures
        1 <= spacing(x),
        spacing(x) == 1 || 0x10_0000_0000_0000 * spacing(x) <= x,
    decreases x,
{
    if x >= 0x20_0000_0000_0000 {
        spacing_is_small(x / 2);
    }
}

/// The double nearest to `a / b` is at most one space away.
pub proof fn nearest_is_near(a: int, b: int)
    requires
        a >= 0,
        b > 0,
    ensures
        0 <= nearest_ratio(a, b),
        (nearest_ratio(a, b) - spacing(a / b)) * b <= a,
        (nearest_ratio(a, b) + spacing(a / b)) * b > a,
{
    let g = spacing(a / b);
    assert(0 <= a / b) by (nonlinear_arith)
        requires
            a >= 0,
            b > 0,
    ;
    spacing_is_small(a / b);
    let t = b * g;
    assert(t > 0) by (nonlinear_arith)
        requires
            b > 0,
            g > 0,
            t == b * g,
    ;
    vstd::arithmetic::div_mod::lemma_fundamental_div_mod(a, t);
    let low = a / t;
    assert(low >= 0) by (nonlinear_arith)
        requires
            a >= 0,
            t > 0,
            low == a / t,
    ;
    assert((low * g) * b == t * low) by (nonlinear_arith)
        requires
            t == b * g,
    ;
    assert((low * g + g) * b == (low * g) * b + t) by (nonlinear_arith)
        requires
            t == b * g,
    ;
    assert((low * g - g) * b == (low * g) * b - t) by (nonlinear_arith)
        requires
            t == b * g,
    ;
    assert((low * g + g + g) * b == (low * g) * b + t + t) by (nonlinear_arith)
        requires
            t == b * g,
    ;
    assert((low + 1) * g == low * g + g) by (nonlinear_arith);
    assert(low * g >= 0) by (nonlinear_arith)
        requires
            low >= 0,
            g >= 0,
    ;
}

/// The whole number nearest to `a / b`, the even one of two.
pub fn divide_evenly(a: u128, b: u128) -> (r: u128)
    requires
        0 < b,
        a < u128::MAX,
    ensures
        r == even_quotient(a as int, b as int),
{
    let low: u128 = a / b;
    let rest: u128 = a % b;
    if rest > b - rest || (rest == b - rest && low % 2 == 1) {
        proof {
            vstd::arithmetic::div_mod::lemma_fundamental_div_mod(a as int, b as int);
            assert(low <= b * low) by (nonlinear_arith)
                requires
                    b >= 1,
                    low >= 0,
            ;
        }
        low + 1
    } else {
        low
    }
}

/// `a / b` to the 53 binary digits of a double.
pub fn divide(a: u128, b: u128) -> (r: u128)
    requires
        0 < b <= 0x1_0000_0000_0000_0000,
        a < 0x2000_0000_0000_0000_0000_0000_0000_0000,
    ensures
        r == nearest_ratio(a as int, b as int),
{
    let mut t: u128 = b;
    let mut g: u128 = 1;
    let ghost mut k: nat = 0;
    proof {
        lemma2_to64();
    }
    while a / t >= EXACT as u128
        invariant
            0 < b <= 0x1_0000_0000_0000_0000,
            a < 0x2000_0000_0000_0000_0000_0000_0000_0000,
            b <= t,
            1 <= g <= t,
            g == pow2(k),
            t == b * g,
            k > 0 ==> a as int / (b * pow2((k - 1) as nat)) >= EXACT,
        decreases a - t,
    {
        proof {
            vstd::arithmetic::div_mod::lemma_fundamental_div_mod(a as int, t as int);
            let q = a as int / t as int;
            assert(t * q >= t * 0x20_0000_0000_0000) by (nonlinear_arith)
                requires
                    q >= 0x20_0000_0000_0000,
                    t > 0,
            ;
            assert(b * (g * 2) == (b * g) * 2) by (nonlinear_arith);
            lemma_pow2_unfold((k + 1) as nat);
            k = k + 1;
        }
        t = t * 2;
        g = g * 2;
    }
    proof {
        let (x, y) = (a as int, b as int);
        lemma_pow2_pos(k);
        vstd::arithmetic::div_mod::lemma_div_denominator(x, y, g as int);
        if k > 0 {
            lemma_pow2_pos((k - 1) as nat);
            vstd::arithmetic::div_mod::lemma_div_denominator(x, y, pow2((k - 1) as nat) as int);
        }
        assert(x / y >= 0) by (nonlinear_arith)
            requires
                x >= 0,
                y > 0,
        ;
        spacing_is(x / y, k);
        nearest_is_near(x, y);
        spacing_is_small(x / y);
    }
    let n: u128 = divide_evenly(a, t);
    proof {
        let (x, y) = (a as int, b as int);
        let r = nearest_ratio(x, y);
        assert(n * g == r);
        assert(r - g <= x) by (nonlinear_arith)
            requires
                (r - g) * y <= x,
                x >= 0,
                y >= 1,
        ;
        assert(x / y <= x) by (nonlinear_arith)
            requires
                x >= 0,
                y >= 1,
        ;
    }
    n * g
}

/// The double nearest to a whole number.
pub fn nearest_double(n: u64) -> (r: u128)
    ensures
        r == as_double(n as int),
{
    divide(n as u128, 1)
}

/// A whole number after it was made a double and read back.
pub fn through_double(n: u64) -> (r: u64)
    ensures
        r == capped(as_double(n as int)),
{
    let r: u128 = nearest_double(n);
    if r > u64::MAX as u128 {
        u64::MAX
    } else {
        r as u64
    }
}

/// A whole number that a double holds is held when it is doubled, too.
proof fn twice_an_exact_number(n: int)
    requires
        n >= 0,
        n % spacing(n) == 0,
    ensures
        (2 * n) % spacing(2 * n) == 0,
        as_double(n) == n,
{
    spacing_is_small(n);
    let g = spacing(n);
    vstd::arithmetic::div_mod::lemma_fundamental_div_mod(n, g);
    assert(g * (n / g) == (n / g) * g) by (nonlinear_arith);
    assert(n / 1 == n);
    assert(1 * g == g);
    if 2 * n >= 0x20_0000_0000_0000 {
        assert((2 * n) / 2 == n);
        assert(spacing(2 * n) == 2 * g);
        assert((2 * n) % (2 * g) == 0) by (nonlinear_arith)
            requires
                n == g * (n / g),
                g >= 1,
        {
            let q = n / g;
            assert(2 * n == (2 * g) * q) by (nonlinear_arith)
                requires
                    n == g * q,
            ;
            vstd::arithmetic::div_mod::lemma_mod_multiples_basic(q, 2 * g);
            assert(q * (2 * g) == (2 * g) * q) by (nonlinear_arith);
        }
    }
}

/// Whole numbers of 53 binary digits, and what they become by doubling, are
/// doubles: nothing is lost of them.
pub proof fn a_number_of_few_digits_is_exact(m: int, k: nat)
    requires
        0 <= m < 0x20_0000_0000_0000,
    ensures
        as_double(m * pow2(k)) == m * pow2(k),
{
    a_multiple_of_the_spacing(m, k);
    twice_an_exact_number(m * pow2(k));
}

proof fn a_multiple_of_the_spacing(m: int, k: nat)
    requires
        0 <= m < 0x20_0000_0000_0000,
    ensures
        m * pow2(k) >= 0,
        (m * pow2(k)) % spacing(m * pow2(k)) == 0,
    decreases k,
{
    lemma2_to64();
    if k == 0 {
        assert(m * pow2(0) == m);
        assert(spacing(m) == 1);
    } else {
        a_multiple_of_the_spacing(m, (k - 1) as nat);
        lemma_pow2_unfold(k);
        let p = pow2((k - 1) as nat) as int;
        assert(m * (2 * p) == 2 * (m * p)) by (nonlinear_arith);
        twice_an_exact_number(m * p);
    }
}

} // verus!
