//! Voting power. A voter with many ballots in one week has each of them
//! scaled down, so that together they count for at most two and a half
//! ballots. Weights are exact fractions; to add them up without rounding,
//! a tally multiplies every weight by one common scale that makes all of
//! them whole numbers.

use vstd::prelude::*;

verus! {

/// The cap on one voter's accumulated power is `CAP_NUM / CAP_DEN` ballots:
/// two and a half.
pub const CAP_NUM: u64 = 5;

/// See `CAP_NUM`.
pub const CAP_DEN: u64 = 2;

/// The largest common scale that a tally works with.
pub const MAX_WEIGHT_SCALE: u64 = 1000000;

/// A positive fraction `num / den`.
#[derive(Clone, Copy, Debug, PartialEq, Eq, Structural)]
pub struct Weight {
    pub num: u64,
    pub den: u64,
}

/// Numerator of the weight of each ballot of a voter who cast `c` ballots.
pub open spec fn weight_num(c: int) -> int {
    if CAP_DEN * c <= CAP_NUM {
        1
    } else {
        CAP_NUM as int
    }
}

/// Denominator of the weight of each ballot of a voter who cast `c` ballots.
pub open spec fn weight_den(c: int) -> int {
    if CAP_DEN * c <= CAP_NUM {
        1
    } else {
        CAP_DEN * c
    }
}

/// A weight is more than 0 and at most 1, and the ballots of one voter
/// weigh at most two and a half ballots together.
pub proof fn weight_is_capped(c: int)
    requires
        c >= 0,
    ensures
        0 < weight_num(c) <= weight_den(c),
        CAP_DEN * (c * weight_num(c)) <= CAP_NUM * weight_den(c),
{
    if CAP_DEN * c > CAP_NUM {
        assert(CAP_DEN * (c * 5) == CAP_NUM * (CAP_DEN * c)) by (nonlinear_arith);
    } else {
        assert(c * 1 == c) by (nonlinear_arith);
    }
}

/// The weight of each ballot of a voter who cast `c` ballots this week: 1 up
/// to the cap, and the cap divided by `c` beyond it.
pub fn vote_weight(c: u32) -> (w: Weight)
    ensures
        w.num == weight_num(c as int),
        w.den == weight_den(c as int),
        0 < w.num <= w.den,
        c <= 2 ==> w.num == 1 && w.den == 1,
        c > 2 ==> w.num == 5 && w.den == 2 * c,
{
    let c64: u64 = c as u64;
    if CAP_DEN * c64 <= CAP_NUM {
        Weight { num: 1, den: 1 }
    } else {
        Weight { num: CAP_NUM, den: CAP_DEN * c64 }
    }
}

/// Greatest common divisor, by Euclid's rule.
pub open spec fn gcd(a: int, b: int) -> int
    decreases b,
{
    if b <= 0 {
        a
    } else {
        gcd(b, a % b)
    }
}

/// Least common multiple of two positive numbers.
pub open spec fn lcm(a: int, b: int) -> int {
    (a / gcd(a, b)) * b
}

/// `d * weight(c)`, rounded down; a whole number without rounding whenever
/// `d` is a multiple of the weight's denominator.
pub open spec fn scaled_weight(c: int, d: int) -> int {
    weight_num(c) * d / weight_den(c)
}

/// The greatest common divisor of two numbers that are not both 0 is
/// positive and divides both.
pub proof fn lemma_gcd_divides(a: int, b: int)
    requires
        a >= 0,
        b >= 0,
        a > 0 || b > 0,
    ensures
        gcd(a, b) > 0,
        a % gcd(a, b) == 0,
        b % gcd(a, b) == 0,
    decreases b,
{
    if b <= 0 {
        vstd::arithmetic::div_mod::lemma_mod_multiples_basic(1, a);
        vstd::arithmetic::div_mod::lemma_mod_multiples_basic(0, a);
    } else {
        let r = a % b;
        vstd::arithmetic::div_mod::lemma_mod_bound(a, b);
        lemma_gcd_divides(b, r);
        let g = gcd(b, r);
        vstd::arithmetic::div_mod::lemma_fundamental_div_mod(a, b);
        vstd::arithmetic::div_mod::lemma_fundamental_div_mod(b, g);
        vstd::arithmetic::div_mod::lemma_fundamental_div_mod(r, g);
        let bq = b / g;
        let rq = r / g;
        let q = a / b;
        assert(a == (bq * q + rq) * g) by (nonlinear_arith)
            requires
                a == b * q + r,
                b == g * bq,
                r == g * rq,
        ;
        vstd::arithmetic::div_mod::lemma_mod_multiples_basic(bq * q + rq, g);
    }
}

/// The least common multiple of two positive numbers is a positive multiple
/// of both.
pub proof fn lemma_lcm_multiple(a: int, b: int)
    requires
        a > 0,
        b > 0,
    ensures
        lcm(a, b) > 0,
        lcm(a, b) % a == 0,
        lcm(a, b) % b == 0,
        lcm(a, b) >= a,
        lcm(a, b) >= b,
{
    lemma_gcd_divides(a, b);
    let g = gcd(a, b);
    vstd::arithmetic::div_mod::lemma_fundamental_div_mod(a, g);
    vstd::arithmetic::div_mod::lemma_fundamental_div_mod(b, g);
    let aq = a / g;
    let bq = b / g;
    assert(aq > 0 && bq > 0) by (nonlinear_arith)
        requires
            a == g * aq,
            b == g * bq,
            a > 0,
            b > 0,
            g > 0,
    ;
    assert(aq * b == bq * a && aq * b >= b && bq * a >= a && aq * b > 0) by (nonlinear_arith)
        requires
            a == g * aq,
            b == g * bq,
            aq > 0,
            bq > 0,
            a > 0,
            b > 0,
    ;
    vstd::arithmetic::div_mod::lemma_mod_multiples_basic(aq, b);
    vstd::arithmetic::div_mod::lemma_mod_multiples_basic(bq, a);
}

/// A multiple of a multiple is a multiple.
pub proof fn lemma_multiple_transitive(x: int, y: int, z: int)
    requires
        x > 0,
        y > 0,
        z >= 0,
        y % x == 0,
        z % y == 0,
    ensures
        z % x == 0,
{
    vstd::arithmetic::div_mod::lemma_fundamental_div_mod(y, x);
    vstd::arithmetic::div_mod::lemma_fundamental_div_mod(z, y);
    let k = y / x;
    let m = z / y;
    assert(z == (m * k) * x) by (nonlinear_arith)
        requires
            y == x * k,
            z == y * m,
    ;
    vstd::arithmetic::div_mod::lemma_mod_multiples_basic(m * k, x);
}

/// With a scale that is a multiple of the weight's denominator, the scaled
/// weight is the weight times the scale, exactly, and at least 1.
pub proof fn lemma_scaled_weight_exact(c: int, d: int)
    requires
        d > 0,
        d % weight_den(c) == 0,
    ensures
        scaled_weight(c, d) * weight_den(c) == weight_num(c) * d,
        1 <= scaled_weight(c, d) <= d,
{
    let n = weight_num(c);
    let m = weight_den(c);
    vstd::arithmetic::div_mod::lemma_fundamental_div_mod(d, m);
    let k = d / m;
    assert(n * d == m * (n * k) && k >= 1) by (nonlinear_arith)
        requires
            d == m * k,
            d > 0,
            m > 0,
    ;
    vstd::arithmetic::div_mod::lemma_div_multiples_vanish(n * k, m);
    assert(n * k * m == n * d && 1 <= n * k) by (nonlinear_arith)
        requires
            d == m * k,
            k >= 1,
            n >= 1,
    ;
    assert(n * k <= d) by (nonlinear_arith)
        requires
            d == m * k,
            k >= 1,
            n <= m,
            n >= 1,
    ;
}

fn gcd_of(a: u64, b: u64) -> (g: u64)
    ensures
        g == gcd(a as int, b as int),
    decreases b,
{
    if b == 0 {
        a
    } else {
        gcd_of(b, a % b)
    }
}

/// The least common multiple of `d` and `m`, unless it is over
/// `MAX_WEIGHT_SCALE`.
pub fn lcm_within_scale(d: u64, m: u64) -> (r: Option<u64>)
    requires
        0 < d <= MAX_WEIGHT_SCALE,
        0 < m,
    ensures
        r == (if lcm(d as int, m as int) <= MAX_WEIGHT_SCALE {
            Some(lcm(d as int, m as int) as u64)
        } else {
            None
        }),
{
    proof {
        lemma_gcd_divides(d as int, m as int);
        lemma_lcm_multiple(d as int, m as int);
    }
    if m > MAX_WEIGHT_SCALE {
        return None;
    }
    let g: u64 = gcd_of(d, m);
    let q: u64 = d / g;
    assert(q <= MAX_WEIGHT_SCALE) by (nonlinear_arith)
        requires
            q == d as int / g as int,
            g > 0,
            d <= MAX_WEIGHT_SCALE,
    ;
    assert(q * m <= 1000000 * 1000000) by (nonlinear_arith)
        requires
            q <= 1000000,
            m <= 1000000,
    ;
    let l: u64 = q * m;
    if l <= MAX_WEIGHT_SCALE {
        Some(l)
    } else {
        None
    }
}

} // verus!
