//! Rounding a ratio of integers to the nearest integer.

use vstd::prelude::*;

verus! {

/// The magnitude of an integer.
pub open spec fn magnitude(n: int) -> nat {
    if n < 0 {
        (-n) as nat
    } else {
        n as nat
    }
}

/// The integer nearest to `num / den`, a tie going to the one farther from
/// zero.
pub open spec fn round_half_away(num: int, den: int) -> int
    recommends
        den > 0,
{
    if num >= 0 {
        (2 * num + den) / (2 * den)
    } else {
        -((2 * (-num) + den) / (2 * den))
    }
}

/// Rounds `num / den` to the nearest integer, a tie going away from zero.
pub fn round_ratio(num: i64, den: i64) -> (nearest: i64)
    requires
        den > 0,
    ensures
        nearest == round_half_away(num as int, den as int),
{
    let size: i128 = if num < 0 { -(num as i128) } else { num as i128 };
    let rounded: i128 = (2 * size + den as i128) / (2 * (den as i128));
    proof {
        lemma_rounded_magnitude(num as int, den as int);
        assert(rounded <= size) by (nonlinear_arith)
            requires
                rounded >= 0,
                size >= 0,
                den >= 1,
                2 * (rounded * den - size) <= den,
        ;
    }
    if num < 0 {
        (-rounded) as i64
    } else {
        rounded as i64
    }
}

/// `round_half_away(num, den)` is within half a unit of `num / den`, carries
/// the sign of `num`, and on a tie is the candidate of larger magnitude.
pub proof fn lemma_round_half_away_nearest(num: int, den: int)
    requires
        den > 0,
    ensures
        2 * magnitude(round_half_away(num, den) * den - num) <= den,
        num >= 0 ==> round_half_away(num, den) >= 0,
        num <= 0 ==> round_half_away(num, den) <= 0,
        2 * magnitude(round_half_away(num, den) * den - num) == den ==> magnitude(
            round_half_away(num, den) * den,
        ) > magnitude(num),
{
    lemma_rounded_magnitude(num, den);
}

/// An integer within half a unit of `num / den` is `round_half_away(num,
/// den)`, provided that, where it is exactly half a unit away, it is the
/// candidate of larger magnitude.
pub proof fn lemma_round_half_away_unique(num: int, den: int, candidate: int)
    requires
        den > 0,
        2 * magnitude(candidate * den - num) <= den,
        2 * magnitude(candidate * den - num) == den ==> magnitude(candidate * den) > magnitude(
            num,
        ),
    ensures
        candidate == round_half_away(num, den),
{
    lemma_rounded_magnitude(num, den);
    let nearest = round_half_away(num, den);
    let q = magnitude(nearest) as int;
    let gap = candidate * den - nearest * den;
    assert((candidate - nearest) * den == gap) by (nonlinear_arith)
        requires
            gap == candidate * den - nearest * den,
    ;
    if candidate != nearest {
        // The two are a unit apart, each half a unit from the ratio; the
        // nearest lies on the far side of zero, so the candidate on the
        // near side, where its magnitude is the smaller.
        if candidate > nearest {
            assert(gap >= den) by (nonlinear_arith)
                requires
                    (candidate - nearest) * den == gap,
                    candidate - nearest >= 1,
                    den > 0,
            ;
        } else {
            assert(gap <= -den) by (nonlinear_arith)
                requires
                    (candidate - nearest) * den == gap,
                    candidate - nearest <= -1,
                    den > 0,
            ;
        }
        assert(q * den >= den) by (nonlinear_arith)
            requires
                q >= 0,
                den > 0,
                q * den > 0,
        ;
    }
}

/// A ratio between two integers rounds to an integer between them.
pub proof fn lemma_round_half_away_between(num: int, den: int, low: int, high: int)
    requires
        den > 0,
        low * den <= num <= high * den,
    ensures
        low <= round_half_away(num, den) <= high,
{
    lemma_rounded_magnitude(num, den);
    let nearest = round_half_away(num, den);
    if nearest > high {
        assert(nearest * den >= high * den + den) by (nonlinear_arith)
            requires
                nearest >= high + 1,
                den > 0,
        ;
    }
    if nearest < low {
        assert(nearest * den <= low * den - den) by (nonlinear_arith)
            requires
                nearest <= low - 1,
                den > 0,
        ;
    }
}

/// Rounding commutes with negation.
pub proof fn lemma_round_half_away_odd(num: int, den: int)
    requires
        den > 0,
    ensures
        round_half_away(-num, den) == -round_half_away(num, den),
{
    lemma_rounded_magnitude(num, den);
    lemma_rounded_magnitude(-num, den);
}

/// The magnitude `q` of `round_half_away(num, den)` and how far `q * den`
/// lies from the magnitude of `num`.
proof fn lemma_rounded_magnitude(num: int, den: int)
    requires
        den > 0,
    ensures
        ({
            let q = magnitude(round_half_away(num, den)) as int;
            let a = magnitude(num) as int;
            &&& magnitude(round_half_away(num, den) * den) == q * den
            &&& round_half_away(num, den) * den - num == if num >= 0 {
                q * den - a
            } else {
                a - q * den
            }
            &&& -den < 2 * (q * den - a) <= den
            &&& (num >= 0 ==> round_half_away(num, den) == q)
            &&& (num < 0 ==> round_half_away(num, den) == -q)
            &&& (num == 0 ==> q == 0)
        }),
{
    let a: int = magnitude(num) as int;
    let q = (2 * a + den) / (2 * den);
    let rem = (2 * a + den) % (2 * den);
    assert(2 * a + den == q * (2 * den) + rem && 0 <= rem < 2 * den && q >= 0)
        by (nonlinear_arith)
        requires
            den > 0,
            a >= 0,
            q == (2 * a + den) / (2 * den),
            rem == (2 * a + den) % (2 * den),
    ;
    assert(q * (2 * den) == 2 * (q * den)) by (nonlinear_arith);
    assert(q * den >= 0) by (nonlinear_arith)
        requires
            q >= 0,
            den > 0,
    ;
    assert((-q) * den == -(q * den)) by (nonlinear_arith);
    if num == 0 {
        assert(q == 0) by (nonlinear_arith)
            requires
                q >= 0,
                den > 0,
                2 * (q * den) <= den,
        ;
    }
}

} // verus!
