use mtorrent_gui::decimal::push_decimal;
use mtorrent_gui::tasks::MtorrentApp;

/// The same amount, computed with floating-point numbers.
fn floating_size(bytes: u64) -> String {
    if bytes == 0 {
        return "0 B".to_string();
    }
    let units = ["B", "KB", "MB", "GB", "TB"];
    let k = 1024f64;
    let i = (bytes as f64).log(k) as usize;
    let i = i.min(units.len() - 1);
    let value = bytes as f64 / k.powi(i as i32);
    if value < 10.0 {
        format!("{:.1} {}", value, units[i])
    } else {
        format!("{:.0} {}", value, units[i])
    }
}

/// The same number of KiB, grouped through the standard library.
fn library_kib(bytes: u64) -> String {
    let kib = bytes / 1024;
    format!(
        "{} KiB",
        kib.to_string()
            .as_bytes()
            .rchunks(3)
            .rev()
            .map(|chunk| std::str::from_utf8(chunk).unwrap())
            .collect::<Vec<_>>()
            .join(" ")
    )
}

fn spread() -> Vec<u64> {
    let mut numbers: Vec<u64> = (0u64..5000).collect();
    for exponent in 0..64u32 {
        let power = 1u64 << exponent;
        for offset in 0..40u64 {
            numbers.push(power.saturating_add(offset));
            numbers.push(power.saturating_sub(offset));
            numbers.push(power.saturating_mul(3).saturating_add(offset));
            numbers.push(power.saturating_mul(5).saturating_sub(offset));
        }
    }
    let mut state = 0x9e37_79b9_7f4a_7c15u64;
    for round in 0..200_000u32 {
        state = state.wrapping_mul(6364136223846793005).wrapping_add(1442695040888963407);
        numbers.push(state >> (round % 64));
    }
    numbers
}

#[test]
fn sizes_in_each_unit() {
    assert_eq!(MtorrentApp::format_bytes(0), "0 B");
    assert_eq!(MtorrentApp::format_bytes(1), "1.0 B");
    assert_eq!(MtorrentApp::format_bytes(9), "9.0 B");
    assert_eq!(MtorrentApp::format_bytes(10), "10 B");
    assert_eq!(MtorrentApp::format_bytes(1023), "1023 B");
    assert_eq!(MtorrentApp::format_bytes(1024), "1.0 KB");
    assert_eq!(MtorrentApp::format_bytes(1536), "1.5 KB");
    assert_eq!(MtorrentApp::format_bytes(10 * 1024), "10 KB");
    assert_eq!(MtorrentApp::format_bytes(1024 * 1024 - 1), "1024 KB");
    assert_eq!(MtorrentApp::format_bytes(1024 * 1024), "1.0 MB");
    assert_eq!(MtorrentApp::format_bytes(5 * 1024 * 1024 * 1024), "5.0 GB");
    assert_eq!(MtorrentApp::format_bytes(1 << 40), "1.0 TB");
    assert_eq!(MtorrentApp::format_bytes(1 << 50), "1024 TB");
    assert_eq!(MtorrentApp::format_bytes(u64::MAX), "16777216 TB");
}

#[test]
fn sizes_exactly_between_two_go_to_the_even_one() {
    // 1.25 and 1.75 units, then 10.5 and 11.5 units.
    assert_eq!(MtorrentApp::format_bytes(1280), "1.2 KB");
    assert_eq!(MtorrentApp::format_bytes(1792), "1.8 KB");
    assert_eq!(MtorrentApp::format_bytes(10 * 1024 + 512), "10 KB");
    assert_eq!(MtorrentApp::format_bytes(11 * 1024 + 512), "12 KB");
}

#[test]
fn size_just_below_ten_units_rounds_up_with_a_decimal_place() {
    assert_eq!(MtorrentApp::format_bytes(10 * 1024 - 1), "10.0 KB");
}

#[test]
fn sizes_agree_with_floating_point() {
    for bytes in spread() {
        assert_eq!(MtorrentApp::format_bytes(bytes), floating_size(bytes), "{bytes}");
    }
}

#[test]
fn sizes_beyond_double_precision_agree_with_floating_point() {
    // Around halves of the largest unit, where rounding to a double decides.
    for units in [8192u64, 8193, 1_000_000, 1_000_001, 16_777_214, 16_777_215] {
        let half = (units << 40) + (1 << 39);
        for offset in 0..3000u64 {
            for bytes in [half - offset, half + offset] {
                assert_eq!(MtorrentApp::format_bytes(bytes), floating_size(bytes), "{bytes}");
            }
        }
    }
}

#[test]
fn kib_in_groups_of_three() {
    assert_eq!(MtorrentApp::format_bytes_kib(0), "0 KiB");
    assert_eq!(MtorrentApp::format_bytes_kib(1023), "0 KiB");
    assert_eq!(MtorrentApp::format_bytes_kib(1024), "1 KiB");
    assert_eq!(MtorrentApp::format_bytes_kib(999 * 1024), "999 KiB");
    assert_eq!(MtorrentApp::format_bytes_kib(1000 * 1024), "1 000 KiB");
    assert_eq!(MtorrentApp::format_bytes_kib(1_234_567 * 1024), "1 234 567 KiB");
    assert_eq!(MtorrentApp::format_bytes_kib(1_000_050 * 1024), "1 000 050 KiB");
    assert_eq!(MtorrentApp::format_bytes_kib(u64::MAX), "18 014 398 509 481 983 KiB");
}

#[test]
fn kib_agrees_with_the_standard_library() {
    for bytes in spread() {
        assert_eq!(MtorrentApp::format_bytes_kib(bytes), library_kib(bytes));
    }
}

#[test]
fn kib_without_blanks_is_the_number() {
    for bytes in spread() {
        let text = MtorrentApp::format_bytes_kib(bytes);
        let digits: String = text.chars().filter(|c| c.is_ascii_digit()).collect();
        assert_eq!(digits.parse::<u64>().unwrap(), bytes / 1024);
    }
}

#[test]
fn decimal_notation() {
    for n in [0u64, 7, 10, 99, 100, 1_000_000_007, u64::MAX] {
        let mut text = "n=".to_string();
        push_decimal(&mut text, n);
        assert_eq!(text, format!("n={n}"));
    }
}

#[test]
fn different_numbers_look_different() {
    let texts: Vec<String> = (0..2000u64).map(|n| MtorrentApp::format_bytes_kib(n * 1024)).collect();
    let mut distinct = texts.clone();
    distinct.sort();
    distinct.dedup();
    assert_eq!(distinct.len(), texts.len());
}
