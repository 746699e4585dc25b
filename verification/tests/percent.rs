use mtorrent_gui::double::{round_quotient, round_to_double};
use mtorrent_gui::percent::{percent, percent_text};

/// The same percentage, computed with floating-point numbers.
fn floating_percent(downloaded: u64, total: u64) -> f64 {
    if total > 0 {
        (downloaded as f64 / total as f64 * 100.0).min(100.0)
    } else {
        0.0
    }
}

fn share_as_float(downloaded: u64, total: u64) -> f64 {
    let share = percent(downloaded, total);
    share.significand as f64 / 2f64.powi(share.scale as i32)
}

fn compare(downloaded: u64, total: u64) {
    let expected = floating_percent(downloaded, total);
    assert_eq!(share_as_float(downloaded, total), expected, "{downloaded} of {total}");
    assert_eq!(percent_text(downloaded, total), format!("{expected:.1}%"));
}

#[test]
fn percent_of_given_values() {
    assert_eq!(percent_text(0, 0), "0.0%");
    assert_eq!(percent_text(5, 0), "0.0%");
    assert_eq!(percent_text(0, 5), "0.0%");
    assert_eq!(percent_text(1, 2), "50.0%");
    assert_eq!(percent_text(1, 3), "33.3%");
    assert_eq!(percent_text(2, 3), "66.7%");
    assert_eq!(percent_text(1, 8), "12.5%");
    assert_eq!(percent_text(7, 7), "100.0%");
    assert_eq!(percent_text(8, 7), "100.0%");
    assert_eq!(percent_text(9999, 10000), "100.0%");
    assert_eq!(percent_text(1, u64::MAX), "0.0%");
    assert_eq!(percent_text(u64::MAX, u64::MAX), "100.0%");
}

#[test]
fn percent_never_exceeds_one_hundred() {
    let share = percent(u64::MAX, 1);
    assert_eq!((share.significand, share.scale), (100, 0));
    assert!(share_as_float(u64::MAX - 1, u64::MAX) <= 100.0);
}

#[test]
fn percent_agrees_with_floating_point() {
    for total in 0..300u64 {
        for downloaded in 0..300u64 {
            compare(downloaded, total);
        }
    }
    let mut state = 0x1234_5678_9abc_def1u64;
    for round in 0..300_000u32 {
        state = state.wrapping_mul(6364136223846793005).wrapping_add(1442695040888963407);
        let total = state >> (round % 64);
        state = state.wrapping_mul(6364136223846793005).wrapping_add(1442695040888963407);
        let downloaded = state >> ((round / 64) % 64);
        compare(downloaded, total);
        compare(downloaded % total.max(1), total);
    }
    for exponent in 0..64u32 {
        let power = 1u64 << exponent;
        for offset in 0..20u64 {
            compare(power.saturating_sub(offset), power);
            compare(power, power.saturating_add(offset));
            compare(power.saturating_sub(offset), u64::MAX - offset);
            compare(1 + offset, power);
        }
    }
}

#[test]
fn integers_are_rounded_as_doubles_are() {
    let mut state = 0xdead_beef_cafe_f00du64;
    for round in 0..100_000u32 {
        state = state.wrapping_mul(6364136223846793005).wrapping_add(1442695040888963407);
        let n = state >> (round % 12);
        assert_eq!(round_to_double(n) as f64, n as f64);
        assert_eq!(round_to_double(n), (n as f64) as u128);
    }
    assert_eq!(round_to_double(u64::MAX), 1u128 << 64);
    assert_eq!(round_to_double((1 << 53) + 1), 1u128 << 53);
    assert_eq!(round_to_double((1 << 53) + 3), (1u128 << 53) + 4);
}

#[test]
fn quotients_are_rounded_to_even() {
    assert_eq!(round_quotient(7, 2), 4);
    assert_eq!(round_quotient(5, 2), 2);
    assert_eq!(round_quotient(8, 3), 3);
    assert_eq!(round_quotient(7, 3), 2);
    assert_eq!(round_quotient(u128::MAX, 1), u128::MAX);
    assert_eq!(round_quotient(u128::MAX, u128::MAX), 1);
}

#[test]
fn percent_grows_with_the_download() {
    for total in [1u64, 3, 1000, 12_345, (1 << 53) + 1, u64::MAX] {
        let mut last = 0.0;
        for step in 0..=1000u64 {
            let downloaded = (total as u128 * step as u128 / 1000) as u64;
            let share = share_as_float(downloaded, total);
            assert!(share >= last);
            last = share;
        }
        assert_eq!(last, 100.0);
    }
}

#[test]
fn rounding_to_doubles_keeps_the_order() {
    let start = (1u64 << 54) - 20;
    for n in start..start + 40 {
        assert!(round_to_double(n) <= round_to_double(n + 1));
    }
}

#[test]
fn percent_is_near_the_exact_one() {
    for (downloaded, total) in [(1u64, 3u64), (2, 3), (1, 1000), (12_344, 12_345), (1, 1 << 20)] {
        let share = percent(downloaded, total);
        let exact = 100 * downloaded as u128 * (1u128 << share.scale);
        let shown = share.significand as u128 * total as u128;
        let off = shown.abs_diff(exact);
        assert!(off <= exact >> 50);
    }
    let third = percent(1, 3);
    assert_eq!((third.significand, third.scale), (600_479_950_316_066_048, 54));
    assert_eq!(third.significand as f64 / (1u64 << third.scale) as f64, 1.0 / 3.0 * 100.0);
}
