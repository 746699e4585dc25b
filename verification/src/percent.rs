//! The completed share of a download, as a percentage.
use crate::decimal::{decimal, push_decimal};
use crate::double::{
    div_half_even, div_half_even_exact, div_half_even_is_nearest, div_half_even_monotone,
    div_half_even_upper, doublings, excess_bits_bound, multiple_above, nearest_double,
    nearest_double_is_near, nearest_double_monotone, nearest_double_scales, positive_stays,
    round_quotient, round_to_double, small_integers_are_doubles, Double, SIGNIFICAND_END,
};
use vstd::arithmetic::power2::{
    lemma2_to64, lemma2_to64_rest, lemma_pow2_adds, lemma_pow2_pos, lemma_pow2_strictly_increases,
    lemma_pow2_unfold, pow2,
};
use vstd::prelude::*;

verus! {

/// How far the smaller of two doubles has to be scaled up for a quotient of 53 bits.
pub open spec fn quotient_scale(x: nat, y: nat) -> nat {
    doublings(x, y * 0x10_0000_0000_0000)
}

/// The double nearest to `x / y`, for `0 < x < y`, as a significand over
/// `2^quotient_scale(x, y)`.
pub open spec fn quotient_significand(x: nat, y: nat) -> nat {
    div_half_even(x * pow2(quotient_scale(x, y)), y)
}

/// The percentage of `total` that `downloaded` is, in double precision, as a
/// significand and a scale: nothing of an empty total, never more than one hundred.
pub open spec fn percent_parts(downloaded: nat, total: nat) -> (nat, nat) {
    let x = nearest_double(downloaded);
    let y = nearest_double(total);
    if total == 0 || downloaded == 0 {
        (0, 0)
    } else if x >= y {
        (100, 0)
    } else {
        (nearest_double(100 * quotient_significand(x, y)), quotient_scale(x, y))
    }
}

/// A double with one decimal place and a percent sign.
pub open spec fn percent_chars(significand: nat, scale: nat) -> Seq<char> {
    let tenths = div_half_even(10 * significand, pow2(scale));
    decimal(tenths / 10) + "."@ + decimal(tenths % 10) + "%"@
}

/// Bounds on the parts of a quotient below one.
proof fn quotient_bounds(x: nat, y: nat)
    requires
        0 < x < y,
    ensures
        y * 0x10_0000_0000_0000 <= x * pow2(quotient_scale(x, y)) < 2 * (y * 0x10_0000_0000_0000),
        quotient_significand(x, y) <= SIGNIFICAND_END,
        quotient_significand(x, y) <= pow2(quotient_scale(x, y)),
        quotient_scale(x, y) >= 52,
{
    let target = y * 0x10_0000_0000_0000;
    let s = quotient_scale(x, y);
    doublings_reach(x, target);
    assert(x * pow2(s) <= SIGNIFICAND_END * y) by (nonlinear_arith)
        requires
            x * pow2(s) < 2 * target,
            target == y * 0x10_0000_0000_0000,
            SIGNIFICAND_END == 0x20_0000_0000_0000,
    ;
    div_half_even_upper(x * pow2(s), y, SIGNIFICAND_END as nat);
    assert(x * pow2(s) <= pow2(s) * y) by (nonlinear_arith)
        requires
            x < y,
    ;
    div_half_even_upper(x * pow2(s), y, pow2(s));
    lemma2_to64();
    lemma2_to64_rest();
    if s < 52 {
        lemma_pow2_strictly_increases(s, 52);
        assert(x * pow2(s) < y * 0x10_0000_0000_0000) by (nonlinear_arith)
            requires
                0 < x < y,
                pow2(s) < 0x10_0000_0000_0000,
        ;
        assert(false);
    }
}

/// Doubling stops as soon as the target is reached.
proof fn doublings_reach(n: nat, target: nat)
    requires
        0 < n < target,
    ensures
        target <= n * pow2(doublings(n, target)) < 2 * target,
    decreases target - n,
{
    let k = doublings(n, target);
    lemma_pow2_unfold(k);
    let before = pow2((k - 1) as nat);
    assert(n * pow2(k) == (2 * n) * before) by (nonlinear_arith)
        requires
            pow2(k) == 2 * before,
    ;
    if 2 * n < target {
        doublings_reach(2 * n, target);
    } else {
        assert(doublings(2 * n, target) == 0);
        lemma2_to64();
        assert(before == 1);
        assert((2 * n) * before == 2 * n);
    }
}

/// Law: a percentage is between nothing and one hundred.
pub proof fn percent_at_most_hundred(downloaded: nat, total: nat)
    ensures
        percent_parts(downloaded, total).0 <= 100 * pow2(percent_parts(downloaded, total).1),
{
    lemma2_to64();
    let x = nearest_double(downloaded);
    let y = nearest_double(total);
    if total != 0 && downloaded != 0 && x < y {
        positive_stays(downloaded);
        quotient_bounds(x, y);
        let s = quotient_scale(x, y);
        let m = quotient_significand(x, y);
        excess_bits_bound(100 * m, 7);
        lemma_pow2_pos(s);
        assert((100 * pow2(s)) % pow2(s) == 0) by (nonlinear_arith)
            requires
                pow2(s) > 0,
        ;
        multiple_above(100 * m, 100 * pow2(s), s);
    }
}

/// Doubling a larger number reaches the target no later.
proof fn doublings_antitone(a: nat, b: nat, target: nat)
    requires
        0 < a <= b,
    ensures
        doublings(b, target) <= doublings(a, target),
    decreases doublings(b, target),
{
    if b < target {
        doublings_antitone(2 * a, 2 * b, target);
    }
}

/// The larger one of two quotients has the larger double, after both are brought to the same
/// scale.
proof fn quotients_in_order(a: nat, b: nat, y: nat)
    requires
        0 < a <= b < y,
    ensures
        quotient_scale(b, y) <= quotient_scale(a, y),
        quotient_significand(a, y) <= quotient_significand(b, y) * pow2(
            (quotient_scale(a, y) - quotient_scale(b, y)) as nat,
        ),
{
    let target = y * 0x10_0000_0000_0000;
    let s = quotient_scale(a, y);
    let t = quotient_scale(b, y);
    doublings_antitone(a, b, target);
    quotient_bounds(a, y);
    quotient_bounds(b, y);
    lemma2_to64();
    if s == t {
        assert(a * pow2(s) <= b * pow2(s)) by (nonlinear_arith)
            requires
                a <= b,
        ;
        div_half_even_monotone(a * pow2(s), b * pow2(s), y);
        let m = quotient_significand(b, y);
        assert(m * pow2(0) == m) by (nonlinear_arith)
            requires
                pow2(0) == 1,
        ;
    } else {
        let m = quotient_significand(b, y);
        let gap = pow2((s - t) as nat);
        div_half_even_exact(0x10_0000_0000_0000, y);
        assert(0x10_0000_0000_0000 * y == y * 0x10_0000_0000_0000) by (nonlinear_arith);
        div_half_even_monotone(target, b * pow2(t), y);
        lemma_pow2_unfold((s - t) as nat);
        lemma_pow2_pos((s - t - 1) as nat);
        assert(SIGNIFICAND_END <= m * gap) by (nonlinear_arith)
            requires
                m >= 0x10_0000_0000_0000,
                gap >= 2,
                SIGNIFICAND_END == 0x20_0000_0000_0000,
        ;
    }
}

/// Law: the more is downloaded, the larger the percentage.
pub proof fn percent_grows(fewer: nat, more: nat, total: nat)
    requires
        fewer <= more,
    ensures
        percent_parts(fewer, total).0 * pow2(percent_parts(more, total).1) <= percent_parts(
            more,
            total,
        ).0 * pow2(percent_parts(fewer, total).1),
{
    lemma2_to64();
    let a = nearest_double(fewer);
    let b = nearest_double(more);
    let y = nearest_double(total);
    let small = percent_parts(fewer, total);
    let large = percent_parts(more, total);
    if total == 0 || fewer == 0 {
        assert(small.0 * pow2(large.1) == 0) by (nonlinear_arith)
            requires
                small.0 == 0,
        ;
        assert(0 <= large.0 * pow2(small.1)) by (nonlinear_arith);
    } else {
        nearest_double_monotone(fewer, more);
        positive_stays(fewer);
        percent_at_most_hundred(fewer, total);
        if b >= y {
            assert(small.0 * 1 == small.0);
        } else {
            quotients_in_order(a, b, y);
            let s = quotient_scale(a, y);
            let t = quotient_scale(b, y);
            let gap = pow2((s - t) as nat);
            let m = quotient_significand(a, y);
            let n = quotient_significand(b, y);
            assert(100 * m <= (100 * n) * gap) by (nonlinear_arith)
                requires
                    m <= n * gap,
            ;
            nearest_double_monotone(100 * m, (100 * n) * gap);
            nearest_double_scales(100 * n, (s - t) as nat);
            lemma_pow2_adds((s - t) as nat, t);
            let (p, q, unit) = (nearest_double(100 * m), nearest_double(100 * n), pow2(t));
            assert(p * unit <= q * (gap * unit)) by (nonlinear_arith)
                requires
                    p <= q * gap,
            ;
        }
    }
}

/// The double nearest to a quotient is off by at most one part in `2^53`.
proof fn quotient_is_near(x: nat, y: nat)
    requires
        0 < x < y,
    ensures
        (quotient_significand(x, y) * y) * SIGNIFICAND_END <= (x * pow2(quotient_scale(x, y))) * (
        SIGNIFICAND_END + 1),
        (quotient_significand(x, y) * y) * SIGNIFICAND_END >= (x * pow2(quotient_scale(x, y))) * (
        SIGNIFICAND_END - 1),
{
    quotient_bounds(x, y);
    div_half_even_is_nearest(x * pow2(quotient_scale(x, y)), y);
}

/// Four roundings, each off by at most one part in `e`, are off by at most one part in an
/// eighth of `e` together.
proof fn roundings_add_up(e: int, d: int, t: int, x: int, y: int, q: int, m: int, scale: int)
    requires
        e == 0x20_0000_0000_0000,
        d > 0,
        t > 0,
        x > 0,
        y > 0,
        q >= 0,
        m >= 0,
        scale > 0,
        d * (e - 1) <= x * e <= d * (e + 1),
        t * (e - 1) <= y * e <= t * (e + 1),
        (x * scale) * (e - 1) <= (q * y) * e <= (x * scale) * (e + 1),
        (100 * q) * (e - 1) <= m * e <= (100 * q) * (e + 1),
    ensures
        (m * t) * 0x4_0000_0000_0000 <= (100 * d * scale) * 0x4_0000_0000_0001,
        (m * t) * 0x4_0000_0000_0000 >= (100 * d * scale) * 0x3_ffff_ffff_ffff,
{
    let exact = d * scale;
    let my = m * y;
    let mt = m * t;
    // The quotient of the two doubles, against the exact one.
    assert(exact * ((e - 1) * (e - 1)) <= (q * y) * (e * e) <= exact * ((e + 1) * (e + 1)))
        by (nonlinear_arith)
        requires
            exact == d * scale,
            e > 1,
            scale > 0,
            d * (e - 1) <= x * e <= d * (e + 1),
            (x * scale) * (e - 1) <= (q * y) * e <= (x * scale) * (e + 1),
    {
        assert((x * e) * scale <= (d * (e + 1)) * scale);
        assert((x * e) * scale >= (d * (e - 1)) * scale);
        assert((q * y) * (e * e) == ((q * y) * e) * e);
        assert(((x * scale) * (e + 1)) * e == ((x * e) * scale) * (e + 1));
        assert(((x * scale) * (e - 1)) * e == ((x * e) * scale) * (e - 1));
        assert(((q * y) * e) * e <= ((x * scale) * (e + 1)) * e);
        assert(((q * y) * e) * e >= ((x * scale) * (e - 1)) * e);
        assert(((x * e) * scale) * (e + 1) <= ((d * (e + 1)) * scale) * (e + 1));
        assert(((x * e) * scale) * (e - 1) >= ((d * (e - 1)) * scale) * (e - 1));
        assert(((d * (e + 1)) * scale) * (e + 1) == exact * ((e + 1) * (e + 1)));
        assert(((d * (e - 1)) * scale) * (e - 1) == exact * ((e - 1) * (e - 1)));
    }
    let qy = q * y;
    assert((100 * qy) * (e - 1) <= my * e <= (100 * qy) * (e + 1)) by (nonlinear_arith)
        requires
            y > 0,
            qy == q * y,
            my == m * y,
            (100 * q) * (e - 1) <= m * e <= (100 * q) * (e + 1),
    {
        assert((m * e) * y <= ((100 * q) * (e + 1)) * y);
        assert((m * e) * y >= ((100 * q) * (e - 1)) * y);
        assert((m * e) * y == (m * y) * e);
        assert(((100 * q) * (e + 1)) * y == (100 * (q * y)) * (e + 1));
        assert(((100 * q) * (e - 1)) * y == (100 * (q * y)) * (e - 1));
    }
    assert(mt * (e - 1) <= my * e <= mt * (e + 1)) by (nonlinear_arith)
        requires
            m >= 0,
            mt == m * t,
            my == m * y,
            t * (e - 1) <= y * e <= t * (e + 1),
    {
        assert(m * (t * (e - 1)) <= m * (y * e));
        assert(m * (y * e) <= m * (t * (e + 1)));
        assert(m * (t * (e - 1)) == (m * t) * (e - 1));
        assert(m * (t * (e + 1)) == (m * t) * (e + 1));
        assert(m * (y * e) == (m * y) * e);
    }
    assert(100 * d * scale == 100 * exact) by (nonlinear_arith)
        requires
            exact == d * scale,
    ;
    assert(exact >= 0) by (nonlinear_arith)
        requires
            exact == d * scale,
            d > 0,
            scale > 0,
    ;
    assert((e - 1) * (e - 1) == 0x3ff_ffff_ffff_ffc0_0000_0000_0001) by (nonlinear_arith)
        requires
            e == 0x20_0000_0000_0000,
    ;
    assert((e + 1) * (e + 1) == 0x400_0000_0000_0040_0000_0000_0001) by (nonlinear_arith)
        requires
            e == 0x20_0000_0000_0000,
    ;
    assert(e * e == 0x400_0000_0000_0000_0000_0000_0000) by (nonlinear_arith)
        requires
            e == 0x20_0000_0000_0000,
    ;
    bounds_add_up(exact, qy, my, mt);
}

/// The bounds of four roundings, put together.
proof fn bounds_add_up(exact: int, qy: int, my: int, mt: int)
    requires
        exact >= 0,
        exact * 0x3ff_ffff_ffff_ffc0_0000_0000_0001 <= qy
            * 0x400_0000_0000_0000_0000_0000_0000 <= exact
            * 0x400_0000_0000_0040_0000_0000_0001,
        (100 * qy) * 0x1f_ffff_ffff_ffff <= my * 0x20_0000_0000_0000 <= (100 * qy)
            * 0x20_0000_0000_0001,
        mt * 0x1f_ffff_ffff_ffff <= my * 0x20_0000_0000_0000 <= mt * 0x20_0000_0000_0001,
    ensures
        mt * 0x4_0000_0000_0000 <= (100 * exact) * 0x4_0000_0000_0001,
        mt * 0x4_0000_0000_0000 >= (100 * exact) * 0x3_ffff_ffff_ffff,
{
}

/// Law: a percentage is off from the exact one by at most one part in `2^50`.
pub proof fn percent_is_accurate(downloaded: nat, total: nat)
    requires
        downloaded <= total,
    ensures
        ({
            let (significand, scale) = percent_parts(downloaded, total);
            let exact = 100 * downloaded * pow2(scale);
            let shown = significand * total;
            &&& (shown - exact) * 0x4_0000_0000_0000 <= exact
            &&& (exact - shown) * 0x4_0000_0000_0000 <= exact
        }),
{
    lemma2_to64();
    assert(100 * downloaded * pow2(0) == 100 * downloaded) by (nonlinear_arith)
        requires
            pow2(0) == 1,
    ;
    let significand = percent_parts(downloaded, total).0;
    if total == 0 || downloaded == 0 {
        assert(significand * total == 0) by (nonlinear_arith)
            requires
                significand == 0,
        ;
    } else {
        let x = nearest_double(downloaded);
        let y = nearest_double(total);
        nearest_double_is_near(downloaded);
        nearest_double_is_near(total);
        positive_stays(downloaded);
        positive_stays(total);
        nearest_double_monotone(downloaded, total);
        if x < y {
            let q = quotient_significand(x, y);
            let scale = pow2(quotient_scale(x, y));
            lemma_pow2_pos(quotient_scale(x, y));
            quotient_is_near(x, y);
            nearest_double_is_near(100 * q);
            roundings_add_up(
                SIGNIFICAND_END as int,
                downloaded as int,
                total as int,
                x as int,
                y as int,
                q as int,
                nearest_double(100 * q) as int,
                scale as int,
            );
        } else {
            assert(significand * total == 100 * total) by (nonlinear_arith)
                requires
                    significand == 100,
            ;
        }
    }
}

/// Law: a complete download is at exactly one hundred percent, shown as `100.0%`.
pub proof fn complete_is_hundred(downloaded: nat, total: nat)
    requires
        0 < total <= downloaded,
    ensures
        percent_parts(downloaded, total) == (100nat, 0nat),
        percent_chars(100, 0) =~= "100.0%"@,
{
    nearest_double_monotone(total, downloaded);
    lemma2_to64();
    div_half_even_exact(1000, 1);
    reveal_with_fuel(decimal, 3);
    reveal_strlit("100.0%");
    reveal_strlit(".");
    reveal_strlit("%");
}

/// Law: nothing downloaded, or nothing to download, is shown as `0.0%`.
pub proof fn nothing_is_zero(downloaded: nat, total: nat)
    requires
        downloaded == 0 || total == 0,
    ensures
        percent_parts(downloaded, total) == (0nat, 0nat),
        percent_chars(0, 0) =~= "0.0%"@,
{
    lemma2_to64();
    div_half_even_exact(0, 1);
    reveal_strlit("0.0%");
    reveal_strlit(".");
    reveal_strlit("%");
}

/// The percentage of `total` that `downloaded` is.
pub fn percent(downloaded: u64, total: u64) -> (share: Double)
    ensures
        (share.significand as nat, share.scale as nat) == percent_parts(
            downloaded as nat,
            total as nat,
        ),
        share.scale < 120,
        share.significand <= 0x1000_0000_0000_0000,
{
    if total == 0 || downloaded == 0 {
        return Double { significand: 0, scale: 0 };
    }
    let x: u128 = round_to_double(downloaded);
    let y: u128 = round_to_double(total);
    if x >= y {
        return Double { significand: 100, scale: 0 };
    }
    let target: u128 = y * 0x10_0000_0000_0000;
    let mut scaled: u128 = x;
    let mut scale: u32 = 0;
    proof {
        lemma2_to64();
    }
    while scaled < target
        invariant
            0 < x <= scaled,
            scaled == x * pow2(scale as nat),
            target <= 0x10_0000_0000_0000 * 0x1_0000_0000_0000_0000,
            scaled < 2 * target,
            scale + doublings(scaled as nat, target as nat) == doublings(x as nat, target as nat),
            scale < 119,
        decreases 119 - scale,
    {
        proof {
            scale_bound(x as nat, scale as nat);
            lemma_pow2_unfold((scale + 1) as nat);
            assert(x * pow2((scale + 1) as nat) == 2 * scaled) by (nonlinear_arith)
                requires
                    scaled == x * pow2(scale as nat),
                    pow2((scale + 1) as nat) == 2 * pow2(scale as nat),
            ;
        }
        scaled = 2 * scaled;
        scale = scale + 1;
    }
    proof {
        quotient_bounds(x as nat, y as nat);
        let m = quotient_significand(x as nat, y as nat);
        excess_bits_bound(100 * m, 7);
        multiple_above(100 * m, 0x1000_0000_0000_0000, 7);
    }
    let significand: u128 = round_quotient(scaled, y);
    let hundredfold: u128 = round_to_double(100 * (significand as u64));
    Double { significand: hundredfold as u64, scale }
}

/// A power of two below `2^117` has an exponent below 117.
proof fn scale_bound(x: nat, s: nat)
    requires
        0 < x,
        x * pow2(s) < 0x10_0000_0000_0000 * 0x1_0000_0000_0000_0000,
    ensures
        s < 117,
{
    if s >= 117 {
        lemma2_to64();
        lemma2_to64_rest();
        lemma_pow2_adds(64, 53);
        if s > 117 {
            lemma_pow2_strictly_increases(117, s);
        }
        assert(pow2(s) <= x * pow2(s)) by (nonlinear_arith)
            requires
                x > 0,
        ;
    }
}

/// Two to the power of `e`.
fn power_of_two(e: u32) -> (power: u128)
    requires
        e < 120,
    ensures
        power == pow2(e as nat),
{
    let mut power: u128 = 1;
    let mut i: u32 = 0;
    proof {
        lemma2_to64();
    }
    while i < e
        invariant
            i <= e < 120,
            power == pow2(i as nat),
        decreases e - i,
    {
        proof {
            lemma2_to64();
            lemma2_to64_rest();
            lemma_pow2_adds(64, 56);
            lemma_pow2_strictly_increases(i as nat, 120);
            lemma_pow2_unfold((i + 1) as nat);
        }
        power = 2 * power;
        i = i + 1;
    }
    power
}

/// A double with one decimal place and a percent sign.
fn double_text(share: Double) -> (text: String)
    requires
        share.scale < 120,
        share.significand <= 0x1000_0000_0000_0000,
    ensures
        text@ == percent_chars(share.significand as nat, share.scale as nat),
{
    let unit: u128 = power_of_two(share.scale);
    proof {
        lemma_pow2_pos(share.scale as nat);
        assert(10 * share.significand <= (10 * share.significand) * unit) by (nonlinear_arith)
            requires
                unit > 0,
        ;
        div_half_even_upper(
            (10 * share.significand) as nat,
            unit as nat,
            (10 * share.significand) as nat,
        );
    }
    let tenths: u64 = round_quotient(10 * (share.significand as u128), unit) as u64;
    let mut text: String = String::new();
    push_decimal(&mut text, tenths / 10);
    text.append(".");
    push_decimal(&mut text, tenths % 10);
    text.append("%");
    text
}

/// The percentage of `total` that `downloaded` is, as text such as `12.5%`.
pub fn percent_text(downloaded: u64, total: u64) -> (text: String)
    ensures
        text@ == percent_chars(
            percent_parts(downloaded as nat, total as nat).0,
            percent_parts(downloaded as nat, total as nat).1,
        ),
{
    double_text(percent(downloaded, total))
}

/// Law: a percentage between nothing and one hundred is rounded twice, as doubles are. First
/// the quotient of the two amounts is rounded to 53 bits, ties to even, and then a hundred
/// times that.
pub proof fn percent_is_rounded_twice(downloaded: nat, total: nat) -> (quotient: nat)
    requires
        downloaded > 0,
        nearest_double(downloaded) < nearest_double(total),
    ensures
        ({
            let (significand, scale) = percent_parts(downloaded, total);
            let x = nearest_double(downloaded) * pow2(scale);
            let y = nearest_double(total);
            &&& significand == nearest_double(100 * quotient)
            &&& 0x10_0000_0000_0000 * y <= x < 0x20_0000_0000_0000 * y
            &&& 2 * (quotient * y - x) <= y
            &&& 2 * (x - quotient * y) <= y
            &&& 2 * (quotient * y - x) == y ==> quotient % 2 == 0
            &&& 2 * (x - quotient * y) == y ==> quotient % 2 == 0
        }),
{
    let x = nearest_double(downloaded);
    let y = nearest_double(total);
    positive_stays(downloaded);
    if total == 0 {
        small_integers_are_doubles(0);
    }
    quotient_bounds(x, y);
    div_half_even_is_nearest(x * pow2(quotient_scale(x, y)), y);
    quotient_significand(x, y)
}

/// Law: a percentage is shown as the number of its tenths that is nearest to it, with one
/// decimal place and a percent sign; what lies exactly between two goes to the even one.
pub proof fn percent_is_shown_in_tenths(significand: nat, scale: nat) -> (tenths: nat)
    ensures
        percent_chars(significand, scale) == decimal(tenths / 10) + "."@ + decimal(tenths % 10)
            + "%"@,
        2 * (tenths * pow2(scale) - 10 * significand) <= pow2(scale),
        2 * (10 * significand - tenths * pow2(scale)) <= pow2(scale),
        2 * (tenths * pow2(scale) - 10 * significand) == pow2(scale) ==> tenths % 2 == 0,
        2 * (10 * significand - tenths * pow2(scale)) == pow2(scale) ==> tenths % 2 == 0,
{
    lemma_pow2_pos(scale);
    div_half_even_is_nearest(10 * significand, pow2(scale));
    div_half_even(10 * significand, pow2(scale))
}

/// Law: an amount that is not below the total in double precision is exactly one hundred
/// percent of it.
pub proof fn all_in_double_precision_is_hundred(downloaded: nat, total: nat)
    requires
        downloaded > 0,
        total > 0,
        nearest_double(downloaded) >= nearest_double(total),
    ensures
        percent_parts(downloaded, total) == (100nat, 0nat),
{
}

/// Law: the text of a percentage shows the percentage that is computed, of any two amounts of
/// up to 64 bits.
pub proof fn text_shows_the_percentage(
    downloaded: u64,
    total: u64,
    share: Double,
    text: String,
)
    requires
        call_ensures(percent, (downloaded, total), share),
        call_ensures(percent_text, (downloaded, total), text),
    ensures
        text@ == percent_chars(share.significand as nat, share.scale as nat),
        (share.significand as nat, share.scale as nat) == percent_parts(
            downloaded as nat,
            total as nat,
        ),
        share.significand <= 100 * pow2(share.scale as nat),
        downloaded >= total && total > 0 ==> share.significand == 100 && share.scale == 0,
        downloaded == 0 || total == 0 ==> share.significand == 0,
{
    percent_at_most_hundred(downloaded as nat, total as nat);
    if downloaded >= total && total > 0 {
        complete_is_hundred(downloaded as nat, total as nat);
    }
}

} // verus!
