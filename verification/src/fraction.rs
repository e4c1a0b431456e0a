//! Greatest common divisors and fractions in lowest terms.

use crate::rounding::magnitude;
use vstd::prelude::*;

verus! {

/// Euclid's recursion on natural numbers.
pub open spec fn gcd_nat(a: nat, b: nat) -> nat
    decreases b,
{
    if b == 0 {
        a
    } else {
        gcd_nat(b, a % b)
    }
}

/// The greatest common divisor of two integers; zero when both are zero.
pub open spec fn greatest_common_divisor(a: int, b: int) -> nat {
    gcd_nat(magnitude(a), magnitude(b))
}

/// `n` is `k` times `d`.
pub open spec fn is_product(n: int, k: int, d: int) -> bool {
    n == k * d
}

/// `d` divides `n`.
pub open spec fn divides(d: int, n: int) -> bool {
    exists|k: int| #[trigger] is_product(n, k, d)
}

/// `num / den` in lowest terms: both divided by their greatest common divisor.
pub open spec fn lowest_terms(num: int, den: int) -> (int, int)
    recommends
        num != 0 || den != 0,
{
    let g = greatest_common_divisor(num, den) as int;
    (num / g, den / g)
}

/// The greatest common divisor of `a` and `b`.
pub fn gcd(a: i32, b: i32) -> (g: i32)
    requires
        greatest_common_divisor(a as int, b as int) <= i32::MAX,
    ensures
        g == greatest_common_divisor(a as int, b as int),
{
    let mut x: i64 = if a < 0 { -(a as i64) } else { a as i64 };
    let mut y: i64 = if b < 0 { -(b as i64) } else { b as i64 };
    while y != 0
        invariant
            0 <= x <= 0x8000_0000,
            0 <= y <= 0x8000_0000,
            gcd_nat(x as nat, y as nat) == greatest_common_divisor(a as int, b as int),
        decreases y,
    {
        let r: i64 = x % y;
        x = y;
        y = r;
    }
    x as i32
}

/// Divides both terms of `num / den` by their greatest common divisor.
pub fn reduce_fraction(num: i32, den: i32) -> (lowest: (i32, i32))
    requires
        num != 0 || den != 0,
        greatest_common_divisor(num as int, den as int) <= i32::MAX,
    ensures
        lowest.0 == lowest_terms(num as int, den as int).0,
        lowest.1 == lowest_terms(num as int, den as int).1,
{
    let g = gcd(num, den);
    proof {
        lemma_gcd_positive(num as int, den as int);
        lemma_gcd_divides(num as int, den as int);
    }
    (exact_quotient(num, g), exact_quotient(den, g))
}

/// The quotient of `n` by a positive divisor `d` of it.
fn exact_quotient(n: i32, d: i32) -> (q: i32)
    requires
        d > 0,
        divides(d as int, n as int),
    ensures
        q == n as int / d as int,
{
    let size: i64 = if n < 0 { -(n as i64) } else { n as i64 };
    let part: i64 = size / (d as i64);
    proof {
        lemma_quotient_of_multiple(n as int, d as int);
        let whole = n as int / d as int;
        assert(part == magnitude(whole) && magnitude(whole) <= size) by (nonlinear_arith)
            requires
                whole * d == n,
                d >= 1,
                size == magnitude(n as int),
                part == size as int / d as int,
        ;
        assert(n < 0 ==> whole <= 0) by (nonlinear_arith)
            requires
                whole * d == n,
                d >= 1,
        ;
        assert(n >= 0 ==> whole >= 0) by (nonlinear_arith)
            requires
                whole * d == n,
                d >= 1,
        ;
    }
    if n < 0 {
        (-part) as i32
    } else {
        part as i32
    }
}

/// `greatest_common_divisor(a, b)` divides both `a` and `b`.
pub proof fn lemma_gcd_divides(a: int, b: int)
    ensures
        divides(greatest_common_divisor(a, b) as int, a),
        divides(greatest_common_divisor(a, b) as int, b),
{
    let g = greatest_common_divisor(a, b) as int;
    lemma_gcd_nat_divides(magnitude(a), magnitude(b));
    lemma_divides_negation(g, a);
    lemma_divides_negation(g, b);
}

/// Every common divisor of `a` and `b` divides `greatest_common_divisor(a, b)`.
pub proof fn lemma_gcd_greatest(a: int, b: int, d: int)
    requires
        divides(d, a),
        divides(d, b),
    ensures
        divides(d, greatest_common_divisor(a, b) as int),
{
    lemma_divides_negation(d, a);
    lemma_divides_negation(d, b);
    lemma_gcd_nat_greatest(magnitude(a), magnitude(b), d);
}

/// The greatest common divisor is zero only when both numbers are zero.
pub proof fn lemma_gcd_positive(a: int, b: int)
    requires
        a != 0 || b != 0,
    ensures
        greatest_common_divisor(a, b) > 0,
{
    let g = greatest_common_divisor(a, b) as int;
    lemma_gcd_divides(a, b);
    if g == 0 {
        let ka = choose|k: int| #[trigger] is_product(a, k, g);
        let kb = choose|k: int| #[trigger] is_product(b, k, g);
        assert(ka * 0 == 0 && kb * 0 == 0) by (nonlinear_arith);
    }
}

/// The greatest common divisor does not depend on the order of the two
/// numbers, and is no larger than one of them that is not zero.
pub proof fn lemma_gcd_bounded(a: int, b: int)
    requires
        b != 0,
    ensures
        0 < greatest_common_divisor(a, b) <= magnitude(b),
        greatest_common_divisor(b, a) == greatest_common_divisor(a, b),
{
    let g = greatest_common_divisor(a, b) as int;
    lemma_gcd_positive(a, b);
    lemma_gcd_divides(a, b);
    lemma_divides_negation(g, b);
    let size = magnitude(b) as int;
    let k = choose|k: int| #[trigger] is_product(size, k, g);
    assert(g <= size) by (nonlinear_arith)
        requires
            size == k * g,
            size > 0,
            g > 0,
    ;
    let h = greatest_common_divisor(b, a) as int;
    lemma_gcd_positive(b, a);
    lemma_gcd_divides(b, a);
    lemma_gcd_greatest(a, b, h);
    lemma_gcd_greatest(b, a, g);
    lemma_divides_each_other(g, h);
}

/// The greatest common divisor of two 32-bit integers fits in 32 bits unless
/// both are zero or the least integer, and one of them is the least.
pub proof fn lemma_gcd_fits(a: i32, b: i32)
    ensures
        greatest_common_divisor(a as int, b as int) <= i32::MAX <==> !((a == i32::MIN && (b == 0
            || b == i32::MIN)) || (a == 0 && b == i32::MIN)),
{
    if a != 0 && a != i32::MIN {
        lemma_gcd_bounded(b as int, a as int);
    } else if b != 0 && b != i32::MIN {
        lemma_gcd_bounded(a as int, b as int);
    } else {
        reveal_with_fuel(gcd_nat, 3);
    }
}

/// The terms of `lowest_terms(num, den)`, multiplied by the greatest common
/// divisor, give `num` and `den` back; they have no common divisor but one
/// and are no larger in magnitude than `num` and `den`.
pub proof fn lemma_lowest_terms(num: int, den: int)
    requires
        num != 0 || den != 0,
    ensures
        lowest_terms(num, den).0 * greatest_common_divisor(num, den) == num,
        lowest_terms(num, den).1 * greatest_common_divisor(num, den) == den,
        greatest_common_divisor(lowest_terms(num, den).0, lowest_terms(num, den).1) == 1,
        magnitude(lowest_terms(num, den).0) <= magnitude(num),
        magnitude(lowest_terms(num, den).1) <= magnitude(den),
{
    let g = greatest_common_divisor(num, den) as int;
    let (n, d) = lowest_terms(num, den);
    lemma_gcd_positive(num, den);
    lemma_gcd_divides(num, den);
    lemma_quotient_of_multiple(num, g);
    lemma_quotient_of_multiple(den, g);
    assert(magnitude(n) <= magnitude(num)) by (nonlinear_arith)
        requires
            n * g == num,
            g >= 1,
    ;
    assert(magnitude(d) <= magnitude(den)) by (nonlinear_arith)
        requires
            d * g == den,
            g >= 1,
    ;
    if n == 0 && d == 0 {
        assert(0 * g == 0) by (nonlinear_arith);
    }
    let h = greatest_common_divisor(n, d) as int;
    lemma_gcd_positive(n, d);
    lemma_gcd_divides(n, d);
    let kn = choose|k: int| #[trigger] is_product(n, k, h);
    let kd = choose|k: int| #[trigger] is_product(d, k, h);
    assert(num == kn * (h * g)) by (nonlinear_arith)
        requires
            n == kn * h,
            n * g == num,
    ;
    assert(den == kd * (h * g)) by (nonlinear_arith)
        requires
            d == kd * h,
            d * g == den,
    ;
    assert(is_product(num, kn, h * g));
    assert(is_product(den, kd, h * g));
    lemma_gcd_greatest(num, den, h * g);
    let k = choose|k: int| #[trigger] is_product(g, k, h * g);
    assert(h == 1) by (nonlinear_arith)
        requires
            g == k * (h * g),
            g > 0,
            h > 0,
    ;
}

/// A divisor of `n` divides `-n`, and the reverse.
proof fn lemma_divides_negation(d: int, n: int)
    ensures
        divides(d, n) <==> divides(d, -n),
{
    if divides(d, n) {
        let k = choose|k: int| #[trigger] is_product(n, k, d);
        assert((-k) * d == -(k * d)) by (nonlinear_arith);
        assert(is_product(-n, -k, d));
    }
    if divides(d, -n) {
        let k = choose|k: int| #[trigger] is_product(-n, k, d);
        assert((-k) * d == -(k * d)) by (nonlinear_arith);
        assert(is_product(n, -k, d));
    }
}

/// Euclid's recursion yields a common divisor.
proof fn lemma_gcd_nat_divides(a: nat, b: nat)
    ensures
        divides(gcd_nat(a, b) as int, a as int),
        divides(gcd_nat(a, b) as int, b as int),
    decreases b,
{
    let g = gcd_nat(a, b) as int;
    if b == 0 {
        assert(is_product(a as int, 1, g)) by (nonlinear_arith)
            requires
                g == a,
        ;
        assert(is_product(0, 0, g)) by (nonlinear_arith);
    } else {
        lemma_gcd_nat_divides(b, a % b);
        let kb = choose|k: int| #[trigger] is_product(b as int, k, g);
        let kr = choose|k: int| #[trigger] is_product((a % b) as int, k, g);
        let q = (a / b) as int;
        assert(a == q * b + a % b) by (nonlinear_arith)
            requires
                b > 0,
                q == a / b,
        ;
        assert(a == (q * kb + kr) * g) by (nonlinear_arith)
            requires
                a == q * b + a % b,
                b == kb * g,
                (a % b) == kr * g,
        ;
        assert(is_product(a as int, q * kb + kr, g));
    }
}

/// Every common divisor divides what Euclid's recursion yields.
proof fn lemma_gcd_nat_greatest(a: nat, b: nat, d: int)
    requires
        divides(d, a as int),
        divides(d, b as int),
    ensures
        divides(d, gcd_nat(a, b) as int),
    decreases b,
{
    if b != 0 {
        let ka = choose|k: int| #[trigger] is_product(a as int, k, d);
        let kb = choose|k: int| #[trigger] is_product(b as int, k, d);
        let q = (a / b) as int;
        assert(a == q * b + a % b) by (nonlinear_arith)
            requires
                b > 0,
                q == a / b,
        ;
        assert((a % b) == (ka - q * kb) * d) by (nonlinear_arith)
            requires
                a == q * b + a % b,
                a == ka * d,
                b == kb * d,
        ;
        assert(is_product((a % b) as int, ka - q * kb, d));
        lemma_gcd_nat_greatest(b, a % b, d);
    }
}

/// Two positive integers that divide each other are equal.
proof fn lemma_divides_each_other(g: int, h: int)
    requires
        g > 0,
        h > 0,
        divides(g, h),
        divides(h, g),
    ensures
        g == h,
{
    let k = choose|k: int| #[trigger] is_product(h, k, g);
    let m = choose|m: int| #[trigger] is_product(g, m, h);
    assert(g == h) by (nonlinear_arith)
        requires
            h == k * g,
            g == m * h,
            g > 0,
            h > 0,
    ;
}

/// When `d` is positive and divides `n`, `n / d` times `d` is `n`.
proof fn lemma_quotient_of_multiple(n: int, d: int)
    requires
        d > 0,
        divides(d, n),
    ensures
        (n / d) * d == n,
{
    let k = choose|k: int| #[trigger] is_product(n, k, d);
    assert(n / d == k) by (nonlinear_arith)
        requires
            n == k * d,
            d > 0,
    ;
}

} // verus!
