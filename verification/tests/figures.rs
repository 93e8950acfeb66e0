use adele_gtk::figures::{format_bytes, format_thousands, percent, pluralize};

/// The same figures in floating point.
fn float_percent(value: u64, peak: u64) -> u64 {
    let fraction = (value as f64 / peak as f64).clamp(0.0, 1.0);
    format!("{:.0}", fraction * 100.0).parse().unwrap()
}

fn float_bytes(bytes: u64) -> String {
    let mut value = bytes as f64;
    if value < 1023.95 {
        return format!("{bytes} B");
    }
    let mut unit = "KiB";
    for next in ["KiB", "MiB", "GiB"] {
        unit = next;
        value /= 1024.0;
        if value < 1023.95 {
            break;
        }
    }
    format!("{value:.1} {unit}")
}

/// A simple generator, so the cases are the same on every run.
fn cases() -> Vec<u64> {
    let mut out = vec![
        0,
        1,
        2,
        3,
        1_023,
        1_024,
        1_025,
        1_536,
        1_048_524,
        1_048_525,
        1_048_575,
        1_048_576,
        1_073_741_823,
        1_073_741_824,
        (1 << 53) - 1,
        1 << 53,
        (1 << 53) + 1,
        u64::MAX - 1,
        u64::MAX,
    ];
    let mut x: u64 = 0x9e37_79b9_7f4a_7c15;
    for i in 0..400 {
        x ^= x << 13;
        x ^= x >> 7;
        x ^= x << 17;
        out.push(x >> (i % 60));
    }
    out
}

#[test]
fn sizes_agree_with_floating_point() {
    for bytes in cases() {
        assert_eq!(format_bytes(bytes), float_bytes(bytes), "{bytes}");
    }
}

#[test]
fn shares_agree_with_floating_point() {
    for value in cases() {
        for peak in [1, 3, 7, 200, 1_000, 10_000, 123_457, 1 << 54, u64::MAX] {
            assert_eq!(percent(value, peak), float_percent(value, peak), "{value} of {peak}");
        }
    }
    for peak in 1..=400 {
        for value in 0..=peak {
            assert_eq!(percent(value, peak), float_percent(value, peak), "{value} of {peak}");
        }
    }
}

#[test]
fn half_a_per_cent_rounds_to_even() {
    assert_eq!(percent(1, 200), 0);
    assert_eq!(percent(3, 200), 2);
    assert_eq!(percent(9, 5), 100);
}

#[test]
fn grouping_digits_only_adds_commas() {
    for n in cases() {
        assert_eq!(format_thousands(n).replace(',', ""), n.to_string());
    }
    assert_eq!(format_thousands(u64::MAX), "18,446,744,073,709,551,615");
    assert_eq!(format_thousands(1_000_001), "1,000,001");
}

#[test]
fn one_of_a_kind_is_singular() {
    assert_eq!(pluralize(0, "call"), "0 calls");
    assert_eq!(pluralize(1, "call"), "1 call");
    assert_eq!(pluralize(1_234, "call"), "1,234 calls");
}
