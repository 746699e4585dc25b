//! Double-precision rounding, done on integers.
//!
//! A double keeps 53 significant bits, and every operation on doubles gives the
//! double nearest to the exact result, the even one of two that are equally near.
//! The sizes and percentages shown to the user are values of that kind.
use vstd::arithmetic::power2::{
    lemma2_to64, lemma_pow2_adds, lemma_pow2_pos, lemma_pow2_strictly_increases, lemma_pow2_unfold,
    pow2,
};
use vstd::prelude::*;

verus! {

/// `2^53`: the integers below it fit into the 53 significant bits of a double.
pub const SIGNIFICAND_END: u64 = 0x20_0000_0000_0000;

/// The integer nearest to `n / d`, the even one of two that are equally near.
pub open spec fn div_half_even(n: nat, d: nat) -> nat
    recommends
        d > 0,
{
    let quotient = n / d;
    let remainder = n % d;
    if 2 * remainder < d || (2 * remainder == d && quotient % 2 == 0) {
        quotient
    } else {
        quotient + 1
    }
}

/// How many low bits of `n` are beyond the 53 that a double keeps.
pub open spec fn excess_bits(n: nat) -> nat
    decreases n,
{
    if n < SIGNIFICAND_END {
        0
    } else {
        1 + excess_bits(n / 2)
    }
}

/// The double nearest to the integer `n`; it is an integer itself.
pub open spec fn nearest_double(n: nat) -> nat {
    div_half_even(n, pow2(excess_bits(n))) * pow2(excess_bits(n))
}

/// How often `n` has to be doubled to reach `target`.
pub open spec fn doublings(n: nat, target: nat) -> nat
    decreases (if n < target { target - n } else { 0 }),
{
    if n == 0 || n >= target {
        0
    } else {
        1 + doublings(2 * n, target)
    }
}

/// A non-negative double: `significand / 2^scale`.
#[derive(Clone, Copy, Debug, PartialEq, Eq)]
pub struct Double {
    pub significand: u64,
    pub scale: u32,
}

/// Law: the rounded quotient is at most half a unit away from the exact one, and a
/// quotient that lies exactly between two integers goes to the even one.
pub proof fn div_half_even_is_nearest(n: nat, d: nat)
    requires
        d > 0,
    ensures
        2 * (n - div_half_even(n, d) * d) <= d,
        2 * (div_half_even(n, d) * d - n) <= d,
        2 * (n - div_half_even(n, d) * d) == d ==> div_half_even(n, d) % 2 == 0,
        2 * (div_half_even(n, d) * d - n) == d ==> div_half_even(n, d) % 2 == 0,
{
    let q = n / d;
    let r = n % d;
    assert(n == q * d + r && r < d) by (nonlinear_arith)
        requires
            d > 0,
            q == n / d,
            r == n % d,
    ;
    assert((q + 1) * d == q * d + d) by (nonlinear_arith);
}

/// A quotient that is at most `k` is rounded to at most `k`.
pub proof fn div_half_even_upper(n: nat, d: nat, k: nat)
    requires
        d > 0,
        n <= k * d,
    ensures
        div_half_even(n, d) <= k,
{
    let q = n / d;
    let r = n % d;
    assert(n == q * d + r && r < d) by (nonlinear_arith)
        requires
            d > 0,
            q == n / d,
            r == n % d,
    ;
    assert(q <= k && (q == k ==> r == 0)) by (nonlinear_arith)
        requires
            n == q * d + r,
            n <= k * d,
            0 <= r < d,
    ;
}

/// A multiple of the divisor is divided exactly.
pub proof fn div_half_even_exact(k: nat, d: nat)
    requires
        d > 0,
    ensures
        div_half_even(k * d, d) == k,
{
    assert((k * d) / d == k && (k * d) % d == 0) by (nonlinear_arith)
        requires
            d > 0,
    ;
}

/// A number below `2^(53 + k)` has at most `k` bits too many.
pub proof fn excess_bits_bound(n: nat, k: nat)
    requires
        n < SIGNIFICAND_END * pow2(k),
    ensures
        excess_bits(n) <= k,
    decreases k,
{
    if n >= SIGNIFICAND_END {
        if k == 0 {
            lemma2_to64();
            assert(false);
        } else {
            lemma_pow2_unfold(k);
            excess_bits_bound(n / 2, (k - 1) as nat);
        }
    }
}

/// Law: an integer of at most 53 bits is a double already.
pub proof fn small_integers_are_doubles(n: nat)
    requires
        n < SIGNIFICAND_END,
    ensures
        nearest_double(n) == n,
{
    lemma2_to64();
    div_half_even_exact(n, 1);
}

/// Rounding a quotient keeps the order of the numerators.
pub proof fn div_half_even_monotone(a: nat, b: nat, d: nat)
    requires
        d > 0,
        a <= b,
    ensures
        div_half_even(a, d) <= div_half_even(b, d),
{
    assert(a / d <= b / d && (a / d == b / d ==> a % d <= b % d)) by (nonlinear_arith)
        requires
            d > 0,
            a <= b,
    {
        assert(a == (a / d) * d + a % d);
        assert(b == (b / d) * d + b % d);
        assert(0 <= a % d < d && 0 <= b % d < d);
    }
}

/// The number of bits too many determines the size of a number up to a factor of two.
pub proof fn excess_bits_range(n: nat)
    ensures
        n < SIGNIFICAND_END * pow2(excess_bits(n)),
        excess_bits(n) > 0 ==> 2 * n >= SIGNIFICAND_END * pow2(excess_bits(n)),
    decreases n,
{
    lemma2_to64();
    if n >= SIGNIFICAND_END {
        excess_bits_range(n / 2);
        lemma_pow2_unfold(excess_bits(n));
    }
}

/// Law: the nearest double is off by at most one part in `2^53`.
pub proof fn nearest_double_is_near(n: nat)
    ensures
        (nearest_double(n) - n) * SIGNIFICAND_END <= n,
        (n - nearest_double(n)) * SIGNIFICAND_END <= n,
{
    let unit = pow2(excess_bits(n));
    lemma_pow2_pos(excess_bits(n));
    if excess_bits(n) == 0 {
        small_integers_are_doubles(n);
    } else {
        excess_bits_range(n);
        div_half_even_is_nearest(n, unit);
    }
}

/// Law: rounding to doubles keeps the order.
pub proof fn nearest_double_monotone(a: nat, b: nat)
    requires
        a <= b,
    ensures
        nearest_double(a) <= nearest_double(b),
{
    let j = excess_bits(a);
    let k = excess_bits(b);
    let unit_a = pow2(j);
    let unit_b = pow2(k);
    lemma_pow2_pos(j);
    lemma_pow2_pos(k);
    excess_bits_range(a);
    excess_bits_range(b);
    if j == k {
        div_half_even_monotone(a, b, unit_a);
        assert(nearest_double(a) <= nearest_double(b)) by (nonlinear_arith)
            requires
                nearest_double(a) == div_half_even(a, unit_a) * unit_a,
                nearest_double(b) == div_half_even(b, unit_a) * unit_a,
                div_half_even(a, unit_a) <= div_half_even(b, unit_a),
        ;
    } else {
        assert(j < k) by {
            if k < j {
                lemma_pow2_strictly_increases(k, j);
                lemma_pow2_unfold(j);
                double_step(k, j);
            }
        }
        double_step(j, k);
        // The power of two between `a` and `b` is a double.
        let middle = SIGNIFICAND_END * unit_b / 2;
        let half: nat = SIGNIFICAND_END as nat / 2;
        assert(middle == half * unit_b) by (nonlinear_arith)
            requires
                middle == SIGNIFICAND_END * unit_b / 2,
                half == SIGNIFICAND_END as nat / 2,
                SIGNIFICAND_END == 0x20_0000_0000_0000,
        ;
        div_half_even_upper(a, unit_a, SIGNIFICAND_END as nat);
        assert(nearest_double(a) <= SIGNIFICAND_END * unit_a) by (nonlinear_arith)
            requires
                nearest_double(a) == div_half_even(a, unit_a) * unit_a,
                div_half_even(a, unit_a) <= SIGNIFICAND_END,
        ;
        assert(SIGNIFICAND_END * unit_a <= middle);
        div_half_even_exact(half, unit_b);
        div_half_even_monotone(half * unit_b, b, unit_b);
        assert(half * unit_b <= nearest_double(b)) by (nonlinear_arith)
            requires
                nearest_double(b) == div_half_even(b, unit_b) * unit_b,
                half <= div_half_even(b, unit_b),
        ;
    }
}

/// Doubling an integer doubles the nearest double.
pub proof fn nearest_double_doubles(n: nat)
    ensures
        nearest_double(2 * n) == 2 * nearest_double(n),
{
    lemma2_to64();
    if n < SIGNIFICAND_END {
        small_integers_are_doubles(n);
        if 2 * n < SIGNIFICAND_END {
            small_integers_are_doubles(2 * n);
        } else {
            assert(excess_bits(n) == 0);
            assert(excess_bits(2 * n) == 1) by {
                assert((2 * n) / 2 == n);
            }
            div_half_even_exact(n, 2);
        }
    } else {
        let k = excess_bits(n);
        assert(excess_bits(2 * n) == k + 1) by {
            assert((2 * n) / 2 == n);
        }
        lemma_pow2_unfold(k + 1);
        lemma_pow2_pos(k);
        let unit = pow2(k);
        assert((2 * n) / (2 * unit) == n / unit && (2 * n) % (2 * unit) == 2 * (n % unit))
            by (nonlinear_arith)
            requires
                unit > 0,
        {
            let q = n / unit;
            let r = n % unit;
            assert(n == q * unit + r && 0 <= r < unit);
            assert(2 * n == q * (2 * unit) + 2 * r && 0 <= 2 * r < 2 * unit);
            vstd::arithmetic::div_mod::lemma_fundamental_div_mod_converse(
                (2 * n) as int,
                (2 * unit) as int,
                q as int,
                (2 * r) as int,
            );
        }
        assert(div_half_even(2 * n, 2 * unit) == div_half_even(n, unit));
        assert(div_half_even(n, unit) * (2 * unit) == 2 * (div_half_even(n, unit) * unit))
            by (nonlinear_arith);
    }
}

/// Scaling an integer by a power of two scales the nearest double.
pub proof fn nearest_double_scales(n: nat, k: nat)
    ensures
        nearest_double(n * pow2(k)) == nearest_double(n) * pow2(k),
    decreases k,
{
    lemma2_to64();
    if k > 0 {
        let j = (k - 1) as nat;
        lemma_pow2_unfold(k);
        nearest_double_scales(n, j);
        nearest_double_doubles(n * pow2(j));
        assert(n * (2 * pow2(j)) == 2 * (n * pow2(j))) by (nonlinear_arith);
        assert(nearest_double(n) * (2 * pow2(j)) == 2 * (nearest_double(n) * pow2(j)))
            by (nonlinear_arith);
    } else {
        assert(n * 1 == n);
        assert(nearest_double(n) * 1 == nearest_double(n));
    }
}

/// A larger power of two is at least twice the smaller one.
proof fn double_step(j: nat, k: nat)
    requires
        j < k,
    ensures
        2 * pow2(j) <= pow2(k),
{
    lemma_pow2_unfold(j + 1);
    if j + 1 < k {
        lemma_pow2_strictly_increases(j + 1, k);
    }
}

/// Divides and rounds to the nearest integer, ties to even.
pub fn round_quotient(n: u128, d: u128) -> (quotient: u128)
    requires
        d > 0,
    ensures
        quotient == div_half_even(n as nat, d as nat),
{
    let q: u128 = n / d;
    let r: u128 = n % d;
    if r < d - r || (r == d - r && q % 2 == 0) {
        q
    } else {
        proof {
            assert(q < u128::MAX) by (nonlinear_arith)
                requires
                    q == n / d,
                    r == n % d,
                    d > 0,
                    r >= d - r,
                    n <= u128::MAX,
            {
                if d == 1 {
                    assert(r == 0);
                }
                assert(n == q * d + r);
            }
        }
        q + 1
    }
}

/// The double nearest to `n`.
pub fn round_to_double(n: u64) -> (rounded: u128)
    ensures
        rounded == nearest_double(n as nat),
        rounded <= 0x1_0000_0000_0000_0000,
        n >= 1 ==> rounded >= 1,
{
    let mut unit: u128 = 1;
    let mut rest: u64 = n;
    let ghost mut k: nat = 0;
    proof {
        lemma2_to64();
    }
    while rest >= SIGNIFICAND_END
        invariant
            unit == pow2(k),
            unit * rest <= n,
            k + excess_bits(rest as nat) == excess_bits(n as nat),
        decreases rest,
    {
        proof {
            lemma_pow2_unfold(k + 1);
            let half: int = rest as int / 2;
            assert(unit <= 2048 && 2 * unit * half <= n) by (nonlinear_arith)
                requires
                    unit * rest <= n,
                    rest >= SIGNIFICAND_END,
                    n <= u64::MAX,
                    half == rest as int / 2,
            ;
            k = k + 1;
        }
        unit = 2 * unit;
        rest = rest / 2;
    }
    proof {
        lemma_pow2_pos(k);
        bound_nearest(n as nat);
    }
    let units: u128 = round_quotient(n as u128, unit);
    units * unit
}

/// The double nearest to a 64-bit number is at most `2^64`, and not zero for a number
/// that is not zero.
proof fn bound_nearest(n: nat)
    requires
        n <= u64::MAX,
    ensures
        nearest_double(n) <= 0x1_0000_0000_0000_0000,
        n >= 1 ==> nearest_double(n) >= 1,
{
    lemma2_to64();
    let k = excess_bits(n);
    assert(n < SIGNIFICAND_END * pow2(11));
    excess_bits_bound(n, 11);
    lemma_pow2_pos(k);
    multiple_above(n, (pow2(11) * SIGNIFICAND_END) as nat, 11);
    if n >= 1 {
        positive_stays(n);
    }
}

/// A multiple of a large enough power of two that is not below `n` is not below the
/// double nearest to `n` either.
pub proof fn multiple_above(n: nat, bound: nat, s: nat)
    requires
        n <= bound,
        excess_bits(n) <= s,
        bound % pow2(s) == 0,
    ensures
        nearest_double(n) <= bound,
{
    let k = excess_bits(n);
    let unit = pow2(k);
    let whole = pow2(s);
    let step = pow2((s - k) as nat);
    lemma_pow2_adds(k, (s - k) as nat);
    lemma_pow2_pos(k);
    lemma_pow2_pos(s);
    let multiple = bound / whole;
    assert(bound == (multiple * step) * unit) by (nonlinear_arith)
        requires
            bound % whole == 0,
            multiple == bound / whole,
            whole == unit * step,
            whole > 0,
    ;
    div_half_even_upper(n, unit, multiple * step);
    assert(nearest_double(n) <= bound) by (nonlinear_arith)
        requires
            nearest_double(n) == div_half_even(n, unit) * unit,
            div_half_even(n, unit) <= multiple * step,
            bound == (multiple * step) * unit,
    ;
}

/// The double nearest to a positive integer is positive.
pub proof fn positive_stays(n: nat)
    requires
        n >= 1,
    ensures
        nearest_double(n) >= 1,
{
    let k = excess_bits(n);
    unit_below(n);
    lemma_pow2_pos(k);
    let unit = pow2(k);
    assert(n / unit >= 1) by (nonlinear_arith)
        requires
            n >= unit,
            unit > 0,
    ;
    assert(nearest_double(n) >= 1) by (nonlinear_arith)
        requires
            nearest_double(n) == div_half_even(n, unit) * unit,
            div_half_even(n, unit) >= 1,
            unit > 0,
    ;
}

/// The rounding unit of a positive number is not above it.
proof fn unit_below(n: nat)
    requires
        n >= 1,
    ensures
        pow2(excess_bits(n)) <= n,
    decreases n,
{
    lemma2_to64();
    if n >= SIGNIFICAND_END {
        unit_below(n / 2);
        lemma_pow2_unfold(excess_bits(n));
    }
}

/// Law: the double nearest to an integer is a whole number of units, each of them a power of
/// two. It has 53 significant bits, and is no further than half a unit away from the integer;
/// an integer that lies exactly between two doubles goes to the one with an even number of
/// units. Where the unit is one, nothing is rounded.
pub proof fn nearest_double_has_53_bits(n: nat) -> (parts: (nat, nat))
    ensures
        ({
            let (units, exponent) = parts;
            let unit = pow2(exponent);
            &&& nearest_double(n) == units * unit
            &&& units <= 0x20_0000_0000_0000
            &&& exponent > 0 ==> units >= 0x10_0000_0000_0000
            &&& exponent == 0 ==> nearest_double(n) == n
            &&& 2 * (n - nearest_double(n)) <= unit
            &&& 2 * (nearest_double(n) - n) <= unit
            &&& 2 * (n - nearest_double(n)) == unit ==> units % 2 == 0
            &&& 2 * (nearest_double(n) - n) == unit ==> units % 2 == 0
        }),
{
    let exponent = excess_bits(n);
    let unit = pow2(exponent);
    let units = div_half_even(n, unit);
    lemma_pow2_pos(exponent);
    excess_bits_range(n);
    div_half_even_is_nearest(n, unit);
    div_half_even_upper(n, unit, SIGNIFICAND_END as nat);
    if exponent == 0 {
        small_integers_are_doubles(n);
    } else {
        div_half_even_exact(0x10_0000_0000_0000, unit);
        div_half_even_monotone(0x10_0000_0000_0000 * unit, n, unit);
    }
    (units, exponent)
}

} // verus!
