//! Natural numbers of any size.
use vstd::arithmetic::power2::{lemma_pow2_adds, lemma_pow2_pos, lemma_pow2_unfold, pow2};
use vstd::prelude::*;

verus! {

/// What the digit at place `n` counts: there are 32 binary ones to each.
spec fn weight(n: nat) -> nat
    decreases n,
{
    if n == 0 {
        1
    } else {
        weight((n - 1) as nat) * 0x1_0000_0000
    }
}

/// The digit at place `i`; zero past the last.
spec fn digit(l: Seq<u32>, i: int) -> int {
    if 0 <= i < l.len() {
        l[i] as int
    } else {
        0
    }
}

/// What the first `n` digits count, the lowest first.
spec fn low(l: Seq<u32>, n: nat) -> int
    decreases n,
{
    if n == 0 {
        0
    } else {
        low(l, (n - 1) as nat) + digit(l, n - 1) * weight((n - 1) as nat)
    }
}

/// A natural number.
pub struct Natural {
    limbs: Vec<u32>,
}

impl View for Natural {
    type V = int;

    closed spec fn view(&self) -> int {
        low(self.limbs@, self.limbs@.len())
    }
}

proof fn places_past_the_last_count_nothing(l: Seq<u32>, n: nat)
    requires
        n >= l.len(),
    ensures
        low(l, n) == low(l, l.len()),
    decreases n,
{
    if n > l.len() {
        places_past_the_last_count_nothing(l, (n - 1) as nat);
        assert(0 * weight((n - 1) as nat) == 0);
    }
}

proof fn later_digits_do_not_matter(l: Seq<u32>, m: Seq<u32>, n: nat)
    requires
        n <= l.len(),
        n <= m.len(),
        forall|i: int| 0 <= i < n ==> l[i] == m[i],
    ensures
        low(l, n) == low(m, n),
    decreases n,
{
    if n > 0 {
        later_digits_do_not_matter(l, m, (n - 1) as nat);
    }
}

proof fn low_is_bounded(l: Seq<u32>, n: nat)
    ensures
        0 <= low(l, n) < weight(n),
    decreases n,
{
    if n > 0 {
        low_is_bounded(l, (n - 1) as nat);
        let w = weight((n - 1) as nat) as int;
        let d = digit(l, n - 1);
        assert(0 <= d * w <= 0xffff_ffff * w) by (nonlinear_arith)
            requires
                0 <= d <= 0xffff_ffff,
                0 <= w,
        ;
    }
}

/// Pushing a digit adds what it counts at its place.
proof fn a_digit_counts_at_its_place(l: Seq<u32>, d: u32)
    ensures
        low(l.push(d), (l.len() + 1) as nat) == low(l, l.len()) + d * weight(l.len()),
{
    later_digits_do_not_matter(l, l.push(d), l.len());
}

impl Natural {
    /// A natural number is never below zero.
    pub proof fn is_natural(&self)
        ensures
            self@ >= 0,
    {
        low_is_bounded(self.limbs@, self.limbs@.len());
    }

    fn at(&self, i: usize) -> (r: u32)
        ensures
            r == digit(self.limbs@, i as int),
    {
        if i < self.limbs.len() {
            self.limbs[i]
        } else {
            0
        }
    }

    /// The number `n`.
    pub fn of(n: u32) -> (r: Self)
        ensures
            r@ == n,
    {
        let limbs = vec![n];
        proof {
            reveal_with_fuel(low, 2);
            reveal_with_fuel(weight, 2);
            assert(limbs@.len() == 1);
        }
        Natural { limbs }
    }

    /// `m` times the number, and `c` more.
    pub fn times_plus(&self, m: u32, c: u32) -> (r: Self)
        ensures
            r@ == self@ * m + c,
    {
        let mut out: Vec<u32> = Vec::new();
        let mut carry: u64 = c as u64;
        let mut i: usize = 0;
        assert(0 * m == 0);
        proof {
            let w = weight(0);
            assert(carry * w == carry) by (nonlinear_arith)
                requires
                    w == 1,
            ;
        }
        while i < self.limbs.len()
            invariant
                i <= self.limbs@.len(),
                out@.len() == i,
                carry <= 0xffff_ffff,
                low(out@, i as nat) + carry * weight(i as nat) == low(self.limbs@, i as nat) * m
                    + c,
            decreases self.limbs@.len() - i,
        {
            let x: u64 = self.limbs[i] as u64;
            assert(x * m <= 0xffff_ffff * 0xffff_ffff) by (nonlinear_arith)
                requires
                    0 <= x <= 0xffff_ffff,
                    0 <= m <= 0xffff_ffff,
            ;
            let t: u64 = x * m as u64 + carry;
            let d: u32 = (t % 0x1_0000_0000) as u32;
            proof {
                a_digit_counts_at_its_place(out@, d);
                let w = weight(i as nat) as int;
                let over = t as int / 0x1_0000_0000;
                let before = low(self.limbs@, i as nat);
                assert(d + over * 0x1_0000_0000 == t);
                assert((d + over * 0x1_0000_0000) * w == d * w + over * (w * 0x1_0000_0000))
                    by (nonlinear_arith);
                assert((x * m + carry) * w == (x * w) * m + carry * w) by (nonlinear_arith);
                assert((before + x * w) * m == before * m + (x * w) * m) by (nonlinear_arith);
            }
            out.push(d);
            carry = t / 0x1_0000_0000;
            i += 1;
        }
        proof {
            a_digit_counts_at_its_place(out@, carry as u32);
        }
        if carry > 0 {
            out.push(carry as u32);
        }
        Natural { limbs: out }
    }

    /// Twice the number.
    pub fn doubled(&self) -> (r: Self)
        ensures
            r@ == 2 * self@,
    {
        self.times_plus(2, 0)
    }

    /// The sum of both.
    pub fn plus(&self, other: &Self) -> (r: Self)
        ensures
            r@ == self@ + other@,
    {
        let n: usize = if self.limbs.len() > other.limbs.len() {
            self.limbs.len()
        } else {
            other.limbs.len()
        };
        let mut out: Vec<u32> = Vec::new();
        let mut carry: u64 = 0;
        let mut i: usize = 0;
        while i < n
            invariant
                i <= n,
                out@.len() == i,
                carry <= 1,
                low(out@, i as nat) + carry * weight(i as nat) == low(self.limbs@, i as nat) + low(
                    other.limbs@,
                    i as nat,
                ),
            decreases n - i,
        {
            let x: u64 = self.at(i) as u64;
            let y: u64 = other.at(i) as u64;
            let t: u64 = x + y + carry;
            let d: u32 = (t % 0x1_0000_0000) as u32;
            proof {
                a_digit_counts_at_its_place(out@, d);
                let w = weight(i as nat) as int;
                let over = t as int / 0x1_0000_0000;
                assert(d + over * 0x1_0000_0000 == t);
                assert((d + over * 0x1_0000_0000) * w == d * w + over * (w * 0x1_0000_0000))
                    by (nonlinear_arith);
                assert((x + y + carry) * w == x * w + y * w + carry * w) by (nonlinear_arith);
            }
            out.push(d);
            carry = t / 0x1_0000_0000;
            i += 1;
        }
        proof {
            places_past_the_last_count_nothing(self.limbs@, n as nat);
            places_past_the_last_count_nothing(other.limbs@, n as nat);
            a_digit_counts_at_its_place(out@, carry as u32);
        }
        if carry > 0 {
            out.push(carry as u32);
        }
        Natural { limbs: out }
    }

    /// What is left of the number without `other`; none where `other` is more.
    pub fn minus(&self, other: &Self) -> (r: Option<Self>)
        ensures
            match r {
                Some(d) => self@ >= other@ && d@ == self@ - other@,
                None => self@ < other@,
            },
    {
        let n: usize = if self.limbs.len() > other.limbs.len() {
            self.limbs.len()
        } else {
            other.limbs.len()
        };
        let mut out: Vec<u32> = Vec::new();
        let mut owed: u64 = 0;
        let mut i: usize = 0;
        while i < n
            invariant
                i <= n,
                out@.len() == i,
                owed <= 1,
                low(out@, i as nat) + low(other.limbs@, i as nat) == low(self.limbs@, i as nat)
                    + owed * weight(i as nat),
            decreases n - i,
        {
            let x: u64 = self.at(i) as u64;
            let y: u64 = other.at(i) as u64;
            let t: u64 = 0x1_0000_0000 + x - y - owed;
            let d: u32 = (t % 0x1_0000_0000) as u32;
            let next: u64 = 1 - t / 0x1_0000_0000;
            proof {
                a_digit_counts_at_its_place(out@, d);
                let w = weight(i as nat) as int;
                assert(d + y + owed == x + next * 0x1_0000_0000);
                assert((d + y + owed) * w == d * w + y * w + owed * w) by (nonlinear_arith);
                assert((x + next * 0x1_0000_0000) * w == x * w + next * (w * 0x1_0000_0000))
                    by (nonlinear_arith);
            }
            out.push(d);
            owed = next;
            i += 1;
        }
        proof {
            places_past_the_last_count_nothing(self.limbs@, n as nat);
            places_past_the_last_count_nothing(other.limbs@, n as nat);
            low_is_bounded(out@, n as nat);
        }
        if owed == 1 {
            None
        } else {
            Some(Natural { limbs: out })
        }
    }

    /// The same number once more.
    pub fn copy(&self) -> (r: Self)
        ensures
            r@ == self@,
    {
        self.times_plus(1, 0)
    }

    /// `n` times the number.
    pub fn times(&self, n: u64) -> (r: Self)
        ensures
            r@ == self@ * n,
    {
        let high: u32 = (n / 0x1_0000_0000) as u32;
        let rest: u32 = (n % 0x1_0000_0000) as u32;
        let shifted = self.times_plus(high, 0).times_plus(0x1_0000, 0).times_plus(0x1_0000, 0);
        proof {
            let v = self@;
            assert(v * high * 0x1_0000 * 0x1_0000 + v * rest == v * n) by (nonlinear_arith)
                requires
                    n == high * 0x1_0000_0000 + rest,
            ;
        }
        shifted.plus(&self.times_plus(rest, 0))
    }

    /// The number times two to the power of `k`.
    pub fn times_power_of_two(&self, k: u64) -> (r: Self)
        ensures
            r@ == self@ * pow2(k as nat),
    {
        let mut r = self.copy();
        let mut i: u64 = 0;
        proof {
            vstd::arithmetic::power2::lemma2_to64();
        }
        while k - i >= 31
            invariant
                i <= k,
                r@ == self@ * pow2(i as nat),
            decreases k - i,
        {
            proof {
                vstd::arithmetic::power2::lemma2_to64();
                lemma_pow2_adds(i as nat, 31);
                let (v, p) = (self@, pow2(i as nat) as int);
                assert((v * p) * 0x8000_0000 == v * (p * 0x8000_0000)) by (nonlinear_arith);
            }
            r = r.times_plus(0x8000_0000, 0);
            i += 31;
        }
        while i < k
            invariant
                i <= k,
                r@ == self@ * pow2(i as nat),
            decreases k - i,
        {
            proof {
                lemma_pow2_unfold((i + 1) as nat);
                let (v, p) = (self@, pow2(i as nat) as int);
                assert(2 * (v * p) == v * (2 * p)) by (nonlinear_arith);
            }
            r = r.doubled();
            i += 1;
        }
        r
    }

    /// The number times ten to the power of `k`.
    pub fn times_power_of_ten(&self, k: u128) -> (r: Self)
        ensures
            r@ == self@ * vstd::arithmetic::power::pow(10, k as nat),
    {
        let mut r = self.copy();
        let mut i: u128 = 0;
        proof {
            vstd::arithmetic::power::lemma_pow0(10);
        }
        while i < k
            invariant
                i <= k,
                r@ == self@ * vstd::arithmetic::power::pow(10, i as nat),
            decreases k - i,
        {
            proof {
                reveal(vstd::arithmetic::power::pow);
                let (v, p) = (self@, vstd::arithmetic::power::pow(10, i as nat));
                assert(vstd::arithmetic::power::pow(10, (i + 1) as nat) == 10 * p);
                assert((v * p) * 10 == v * (10 * p)) by (nonlinear_arith);
            }
            r = r.times_plus(10, 0);
            i += 1;
        }
        r
    }

    /// How often `t` goes into the number, and what is left.
    pub fn divide(&self, t: &Self, bits: u32) -> (r: (u64, Self))
        requires
            t@ > 0,
            bits <= 64,
            self@ < t@ * pow2(bits as nat),
        ensures
            r.0 == self@ / t@,
            r.0 < pow2(bits as nat),
            r.1@ == self@ % t@,
        decreases bits,
    {
        proof {
            self.is_natural();
            vstd::arithmetic::power2::lemma2_to64();
            vstd::arithmetic::power2::lemma2_to64_rest();
        }
        let (a, b) = (Ghost(self@), Ghost(t@));
        match self.minus(t) {
            None => {
                proof {
                    vstd::arithmetic::div_mod::lemma_small_mod(a@ as nat, b@ as nat);
                    vstd::arithmetic::div_mod::lemma_basic_div(a@, b@);
                    lemma_pow2_pos(bits as nat);
                }
                (0, self.copy())
            },
            Some(_) => {
                proof {
                    if bits == 0 {
                        assert(b@ * 1 == b@);
                    }
                    lemma_pow2_unfold(bits as nat);
                    let p = pow2((bits - 1) as nat) as int;
                    assert(b@ * (2 * p) == (2 * b@) * p) by (nonlinear_arith);
                    if bits < 64 {
                        vstd::arithmetic::power2::lemma_pow2_strictly_increases(bits as nat, 64);
                    }
                }
                let (half, rest) = self.divide(&t.doubled(), bits - 1);
                proof {
                    vstd::arithmetic::div_mod::lemma_fundamental_div_mod(a@, 2 * b@);
                    assert((2 * b@) * half == b@ * (2 * half)) by (nonlinear_arith);
                    assert(b@ * (2 * half + 1) == b@ * (2 * half) + b@) by (nonlinear_arith);
                    assert((2 * half) * b@ == b@ * (2 * half)) by (nonlinear_arith);
                    assert((2 * half + 1) * b@ == b@ * (2 * half + 1)) by (nonlinear_arith);
                    vstd::arithmetic::div_mod::lemma_mod_bound(a@, 2 * b@);
                    rest.is_natural();
                }
                match rest.minus(t) {
                    None => {
                        proof {
                            vstd::arithmetic::div_mod::lemma_fundamental_div_mod_converse(
                                a@,
                                b@,
                                2 * half,
                                rest@,
                            );
                        }
                        (2 * half, rest)
                    },
                    Some(left) => {
                        proof {
                            vstd::arithmetic::div_mod::lemma_fundamental_div_mod_converse(
                                a@,
                                b@,
                                2 * half + 1,
                                left@,
                            );
                        }
                        (2 * half + 1, left)
                    },
                }
            },
        }
    }
}

} // verus!
