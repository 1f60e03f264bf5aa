//! The range-mapping utility: maps a scalar from a source interval onto a
//! destination interval, with optional clamping, in exact rational
//! arithmetic. Used to turn a score counter into the progress ratio shown
//! by the level-up meter.

use vstd::prelude::*;

verus! {

use vstd::arithmetic::div_mod::{
    lemma_fundamental_div_mod,
    lemma_fundamental_div_mod_converse_mod,
    lemma_mod_multiples_basic,
};

/// The greatest common divisor, by Euclid's recursion.
pub open spec fn gcd(a: nat, b: nat) -> nat
    decreases b,
{
    if b == 0 {
        a
    } else {
        gcd(b, a % b)
    }
}

/// The gcd of two numbers with a positive second argument is positive and
/// divides both.
pub proof fn lemma_gcd_divides(a: nat, b: nat)
    requires
        b > 0,
    ensures
        gcd(a, b) > 0,
        a % gcd(a, b) == 0,
        b % gcd(a, b) == 0,
    decreases b,
{
    let r = a % b;
    assert(0 <= r < b) by {
        vstd::arithmetic::div_mod::lemma_mod_division_less_than_divisor(a as int, b as int);
    }
    if r == 0 {
        assert(gcd(b, 0) == b);
        assert(gcd(a, b) == b);
    } else {
        lemma_gcd_divides(b, r);
        let g = gcd(b, r);
        assert(gcd(a, b) == g);
        lemma_fundamental_div_mod(a as int, b as int);
        lemma_fundamental_div_mod(b as int, g as int);
        lemma_fundamental_div_mod(r as int, g as int);
        let qb = b as int / g as int;
        let qr = r as int / g as int;
        let q = a as int / b as int;
        assert(a as int == (g as int) * (qb * q + qr)) by (nonlinear_arith)
            requires
                a as int == (b as int) * q + r,
                b as int == (g as int) * qb,
                r as int == (g as int) * qr,
        ;
        assert(((qb * q + qr) * (g as int)) % (g as int) == 0) by {
            lemma_mod_multiples_basic(qb * q + qr, g as int);
        }
        assert(a as int == (qb * q + qr) * (g as int)) by (nonlinear_arith)
            requires
                a as int == (g as int) * (qb * q + qr),
        ;
    }
}

/// A common factor scales the gcd: `gcd(k*a, k*b) == k * gcd(a, b)`.
pub proof fn lemma_gcd_scale(k: nat, a: nat, b: nat)
    requires
        k > 0,
    ensures
        gcd(k * a, k * b) == k * gcd(a, b),
    decreases b,
{
    if b == 0 {
        assert(k * b == 0);
        assert(gcd(k * a, 0) == k * a);
        assert(gcd(a, 0) == a);
    } else {
        let r = a % b;
        assert(0 <= r < b) by {
            vstd::arithmetic::div_mod::lemma_mod_division_less_than_divisor(a as int, b as int);
        }
        let q = a as int / b as int;
        lemma_fundamental_div_mod(a as int, b as int);
        assert(k * b > 0) by (nonlinear_arith)
            requires
                k > 0,
                b > 0,
        ;
        let ka = (k * a) as int;
        let kb = (k * b) as int;
        let kr = (k * r) as int;
        assert(ka == kb * q + kr && 0 <= kr < kb) by (nonlinear_arith)
            requires
                a as int == (b as int) * q + r as int,
                0 <= r < b,
                k > 0,
                ka == k * a,
                kb == k * b,
                kr == k * r,
        ;
        assert((k * a) % (k * b) == k * r) by {
            lemma_fundamental_div_mod_converse_mod(
                (k * a) as int,
                (k * b) as int,
                q,
                (k * r) as int,
            );
        }
        assert(gcd(k * a, k * b) == gcd(k * b, k * r));
        lemma_gcd_scale(k, b, r);
        assert(gcd(a, b) == gcd(b, r));
    }
}

/// Dividing both numbers by their gcd leaves coprime numbers.
pub proof fn lemma_gcd_reduced(a: nat, b: nat)
    requires
        b > 0,
    ensures
        gcd(a / gcd(a, b), b / gcd(a, b)) == 1,
    decreases b,
{
    lemma_gcd_divides(a, b);
    let g = gcd(a, b);
    lemma_fundamental_div_mod(a as int, g as int);
    lemma_fundamental_div_mod(b as int, g as int);
    let qa = a / g;
    let qb = b / g;
    assert(a == g * qa);
    assert(b == g * qb);
    lemma_gcd_scale(g, qa, qb);
    assert(gcd(g * qa, g * qb) == g * gcd(qa, qb));
    assert(g == g * gcd(qa, qb));
    assert(gcd(qa, qb) == 1) by (nonlinear_arith)
        requires
            g > 0,
            g == g * gcd(qa, qb),
    ;
}

/// Euclid's algorithm.
fn gcd_exec(a0: u128, b0: u128) -> (g: u128)
    ensures
        g as nat == gcd(a0 as nat, b0 as nat),
{
    let mut a = a0;
    let mut b = b0;
    while b != 0
        invariant
            gcd(a as nat, b as nat) == gcd(a0 as nat, b0 as nat),
        decreases b,
    {
        let t = a % b;
        a = b;
        b = t;
    }
    assert(gcd(a as nat, 0) == a as nat);
    a
}

/// An exact rational number in lowest terms, with a positive denominator.
///
/// Equal values always have equal fields, so the derived `==` is equality
/// of values.
#[derive(Clone, Copy, Debug, PartialEq, Eq, Structural)]
pub struct Ratio {
    num: i128,
    den: i128,
}

impl Ratio {
    /// The numerator.
    pub closed spec fn spec_num(&self) -> int {
        self.num as int
    }

    /// The denominator.
    pub closed spec fn spec_den(&self) -> int {
        self.den as int
    }

    /// Lowest terms with a positive denominator: the canonical form every
    /// constructor of this type establishes.
    pub open spec fn wf(&self) -> bool {
        self.spec_den() > 0 && gcd(vstd::math::abs(self.spec_num()), self.spec_den() as nat) == 1
    }

    /// This ratio has the value of the fraction `n / d`.
    pub open spec fn represents(&self, n: int, d: int) -> bool {
        d != 0 && self.spec_num() * d == n * self.spec_den()
    }

    /// The numerator.
    pub fn num(&self) -> (n: i128)
        ensures
            n as int == self.spec_num(),
    {
        self.num
    }

    /// The denominator.
    pub fn den(&self) -> (d: i128)
        ensures
            d as int == self.spec_den(),
    {
        self.den
    }

    /// The ratio `num / den`, brought to canonical form.
    pub fn new(num: i64, den: i64) -> (r: Ratio)
        requires
            den != 0,
        ensures
            r.wf(),
            r.represents(num as int, den as int),
    {
        let n: i128 = num as i128;
        let d: i128 = den as i128;
        if d < 0 {
            let r = Ratio::reduce(-n, -d);
            proof {
                let rn = r.spec_num();
                let rd = r.spec_den();
                assert(rn * (den as int) == (num as int) * rd) by (nonlinear_arith)
                    requires
                        rn * (-(den as int)) == (-(num as int)) * rd,
                ;
            }
            r
        } else {
            Ratio::reduce(n, d)
        }
    }

    /// Divide numerator and denominator by their gcd.
    fn reduce(num: i128, den: i128) -> (r: Ratio)
        requires
            den > 0,
            num > i128::MIN,
        ensures
            r.wf(),
            r.represents(num as int, den as int),
            r.spec_den() <= den as int,
    {
        let neg = num < 0;
        let a: u128 = if neg {
            (-num) as u128
        } else {
            num as u128
        };
        let d: u128 = den as u128;
        proof {
            lemma_gcd_divides(a as nat, d as nat);
            lemma_gcd_reduced(a as nat, d as nat);
        }
        let g = gcd_exec(a, d);
        let q = a / g;
        let dd = d / g;
        proof {
            lemma_fundamental_div_mod(a as int, g as int);
            lemma_fundamental_div_mod(d as int, g as int);
            assert(dd > 0) by (nonlinear_arith)
                requires
                    d as int == (g as int) * (dd as int),
                    d > 0,
                    g > 0,
                    dd as int == d as int / g as int,
            ;
            assert(dd as int <= d as int) by (nonlinear_arith)
                requires
                    d as int == (g as int) * (dd as int),
                    g >= 1,
                    dd >= 0,
            ;
            assert((q as int) * (den as int) == (a as int) * (dd as int)) by (nonlinear_arith)
                requires
                    a as int == (g as int) * (q as int),
                    den as int == d as int,
                    d as int == (g as int) * (dd as int),
            ;
        }
        let rnum: i128 = if neg {
            -(q as i128)
        } else {
            q as i128
        };
        proof {
            if neg {
                assert((-(q as int)) * (den as int) == (num as int) * (dd as int))
                    by (nonlinear_arith)
                    requires
                        (q as int) * (den as int) == (a as int) * (dd as int),
                        num as int == -(a as int),
                ;
            }
        }
        Ratio { num: rnum, den: dd as i128 }
    }
}

/// The canonical form is unique: two well-formed ratios with the same
/// value have the same numerator and denominator, so the field-wise `==`
/// on [`Ratio`] is equality of values.
pub proof fn lemma_canonical_unique(a: Ratio, b: Ratio)
    requires
        a.wf(),
        b.wf(),
        a.spec_num() * b.spec_den() == b.spec_num() * a.spec_den(),
    ensures
        a.spec_num() == b.spec_num(),
        a.spec_den() == b.spec_den(),
{
    let an = a.spec_num();
    let ad = a.spec_den();
    let bn = b.spec_num();
    let bd = b.spec_den();
    let ma = vstd::math::abs(an);
    let mb = vstd::math::abs(bn);
    assert(ma * bd == mb * ad) by (nonlinear_arith)
        requires
            an * bd == bn * ad,
            ad > 0,
            bd > 0,
            ma == if an >= 0 {
                an
            } else {
                -an
            },
            mb == if bn >= 0 {
                bn
            } else {
                -bn
            },
    ;
    lemma_gcd_scale(bd as nat, ma, ad as nat);
    lemma_gcd_scale(ad as nat, mb, bd as nat);
    assert((bd as nat) * ma == (ad as nat) * mb);
    assert((bd as nat) * (ad as nat) == (ad as nat) * (bd as nat));
    assert(gcd((bd as nat) * ma, (bd as nat) * (ad as nat)) == (bd as nat) * gcd(ma, ad as nat));
    assert(bd == ad);
    assert(an == bn) by (nonlinear_arith)
        requires
            an * bd == bn * ad,
            ad == bd,
            ad > 0,
    ;
}

/// Largest magnitude `map_range` accepts for any of its scalar arguments;
/// the headroom keeps every intermediate product inside 128 bits.
pub const MAP_RANGE_BOUND: i64 = 0x4000_0000_0000_0000;

/// The width of the source interval, made positive.
pub open spec fn source_span(s0: int, s1: int) -> int {
    vstd::math::abs(s1 - s0) as int
}

/// The distance of `value` from the start of the source interval, measured
/// in the direction of the interval, so that `offset / span` is the
/// position of `value` within `[s0, s1)`.
pub open spec fn source_offset(value: int, s0: int, s1: int) -> int {
    if s1 >= s0 {
        value - s0
    } else {
        s0 - value
    }
}

/// `n` restricted to `[0, d]`.
pub open spec fn clamp_to_span(n: int, d: int) -> int {
    if n < 0 {
        0
    } else if n > d {
        d
    } else {
        n
    }
}

/// The exact numerator of the mapped value over the denominator
/// [`source_span`]: with `t = offset / span` (clamped to `[0, 1]` when
/// asked), the mapped value is `d0 + t * (d1 - d0)`.
pub open spec fn mapped_num(value: int, s0: int, s1: int, d0: int, d1: int, clamp: bool) -> int {
    let span = source_span(s0, s1);
    let offset = source_offset(value, s0, s1);
    let t_num = if clamp {
        clamp_to_span(offset, span)
    } else {
        offset
    };
    d0 * span + t_num * (d1 - d0)
}

/// All five scalars are small enough for `map_range`.
pub open spec fn map_range_inputs_bounded(
    value: int,
    s0: int,
    s1: int,
    d0: int,
    d1: int,
) -> bool {
    &&& -MAP_RANGE_BOUND <= value <= MAP_RANGE_BOUND
    &&& -MAP_RANGE_BOUND <= s0 <= MAP_RANGE_BOUND
    &&& -MAP_RANGE_BOUND <= s1 <= MAP_RANGE_BOUND
    &&& -MAP_RANGE_BOUND <= d0 <= MAP_RANGE_BOUND
    &&& -MAP_RANGE_BOUND <= d1 <= MAP_RANGE_BOUND
}

/// Map `value` from the source interval `[s0, s1)` onto the destination
/// interval `[d0, d1)`: the result is `d0 + t * (d1 - d0)` with
/// `t = (value - s0) / (s1 - s0)`, computed exactly. With `clamp`, `t` is
/// first restricted to `[0, 1]`, so the result never leaves the
/// destination interval; without it the line is continued beyond the
/// interval.
///
/// The source interval must have distinct endpoints: a degenerate interval
/// is a programming error at the call site, not a runtime condition.
pub fn map_range(value: i64, s0: i64, s1: i64, d0: i64, d1: i64, clamp: bool) -> (r: Ratio)
    requires
        s0 != s1,
        map_range_inputs_bounded(value as int, s0 as int, s1 as int, d0 as int, d1 as int),
    ensures
        r.wf(),
        r.spec_num() * source_span(s0 as int, s1 as int) == mapped_num(
            value as int,
            s0 as int,
            s1 as int,
            d0 as int,
            d1 as int,
            clamp,
        ) * r.spec_den(),
        r.spec_den() <= source_span(s0 as int, s1 as int),
{
    let mut offset: i128 = (value as i128) - (s0 as i128);
    let mut span: i128 = (s1 as i128) - (s0 as i128);
    if span < 0 {
        offset = -offset;
        span = -span;
    }
    let t_num: i128 = if clamp {
        if offset < 0 {
            0
        } else if offset > span {
            span
        } else {
            offset
        }
    } else {
        offset
    };
    let dspan: i128 = (d1 as i128) - (d0 as i128);
    proof {
        let b = MAP_RANGE_BOUND as int;
        assert(-(b * 2) <= t_num as int <= b * 2 && 0 < span as int <= b * 2 && -(b * 2)
            <= dspan as int <= b * 2);
        assert(-(b * b * 2) <= (d0 as int) * (span as int) <= b * b * 2) by (nonlinear_arith)
            requires
                -b <= d0 as int <= b,
                0 < span as int <= b * 2,
                b > 0,
        ;
        assert(-(b * b * 4) <= (t_num as int) * (dspan as int) <= b * b * 4) by (nonlinear_arith)
            requires
                -(b * 2) <= t_num as int <= b * 2,
                -(b * 2) <= dspan as int <= b * 2,
                b > 0,
        ;
    }
    let num: i128 = (d0 as i128) * span + t_num * dspan;
    Ratio::reduce(num, span)
}

/// Largest denominator [`Ratio::percent`] accepts.
pub const PERCENT_BOUND: i128 = 1_701_411_834_604_692_317_316_873_037_158_841_057;

impl Ratio {
    /// The value as a whole percentage, rounded toward zero: what the
    /// level-up meter's label shows for a progress ratio in `[0, 1]`.
    pub fn percent(&self) -> (p: u8)
        requires
            self.wf(),
            0 <= self.spec_num() <= self.spec_den(),
            self.spec_den() <= PERCENT_BOUND,
        ensures
            p as int == self.spec_num() * 100 / self.spec_den(),
    {
        proof {
            let n = self.spec_num();
            let d = self.spec_den();
            assert(0 <= n * 100 <= d * 100) by (nonlinear_arith)
                requires
                    0 <= n <= d,
            ;
            assert(n * 100 / d <= d * 100 / d) by {
                vstd::arithmetic::div_mod::lemma_div_is_ordered(n * 100, d * 100, d);
            }
            assert(d * 100 / d == 100) by {
                vstd::arithmetic::div_mod::lemma_div_by_multiple(100, d);
            }
            assert(n * 100 / d >= 0) by {
                vstd::arithmetic::div_mod::lemma_div_pos_is_pos(n * 100, d);
            }
        }
        let v: i128 = (self.num * 100) / self.den;
        v as u8
    }
}

/// The level-up progress shown by the status overlay: the score mapped
/// from the interval between the score of the current level and the score
/// of the next onto `[0, 1)`, clamped. The result always lies in `[0, 1]`
/// and can feed [`Ratio::percent`] directly.
pub fn level_progress(score: u32, level_score: u32, next_level_score: u32) -> (r: Ratio)
    requires
        level_score != next_level_score,
    ensures
        r.wf(),
        r.spec_num() * source_span(level_score as int, next_level_score as int) == mapped_num(
            score as int,
            level_score as int,
            next_level_score as int,
            0,
            1,
            true,
        ) * r.spec_den(),
        0 <= r.spec_num() <= r.spec_den(),
        r.spec_den() <= PERCENT_BOUND,
{
    let r = map_range(score as i64, level_score as i64, next_level_score as i64, 0, 1, true);
    proof {
        let s0 = level_score as int;
        let s1 = next_level_score as int;
        let span = source_span(s0, s1);
        let m = mapped_num(score as int, s0, s1, 0, 1, true);
        lemma_clamped_result_within_dest(score as int, s0, s1, 0, 1);
        assert(vstd::math::min(0, 1) == 0 && vstd::math::max(0, 1) == 1);
        assert(0 <= m <= span);
        let n = r.spec_num();
        let d = r.spec_den();
        assert(0 <= n <= d) by (nonlinear_arith)
            requires
                n * span == m * d,
                0 <= m <= span,
                d > 0,
                span > 0,
        ;
    }
    r
}

/// With clamping, the mapped value never leaves the destination interval:
/// for any `value` and any source interval with distinct endpoints, the
/// clamped result lies between `d0` and `d1` (as a fraction over
/// [`source_span`]).
pub proof fn lemma_clamped_result_within_dest(value: int, s0: int, s1: int, d0: int, d1: int)
    requires
        s0 != s1,
    ensures
        vstd::math::min(d0, d1) * source_span(s0, s1) <= mapped_num(value, s0, s1, d0, d1, true),
        mapped_num(value, s0, s1, d0, d1, true) <= vstd::math::max(d0, d1) * source_span(
            s0,
            s1,
        ),
{
    let span = source_span(s0, s1);
    let t_num = clamp_to_span(source_offset(value, s0, s1), span);
    assert(0 <= t_num <= span);
    if d1 >= d0 {
        assert(d0 * span <= d0 * span + t_num * (d1 - d0) <= d1 * span) by (nonlinear_arith)
            requires
                0 <= t_num <= span,
                d1 >= d0,
        ;
    } else {
        assert(d1 * span <= d0 * span + t_num * (d1 - d0) <= d0 * span) by (nonlinear_arith)
            requires
                0 <= t_num <= span,
                d1 < d0,
        ;
    }
}

} // verus!
