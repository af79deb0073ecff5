use nats_cli_monitor::format::{format_bytes, format_number};

/// Scales with `f64` and prints one decimal, as a dashboard usually does.
fn float_bytes(bytes: u64) -> String {
    const KB: u64 = 1024;
    const MB: u64 = KB * 1024;
    const GB: u64 = MB * 1024;
    const TB: u64 = GB * 1024;
    match bytes {
        b if b >= TB => format!("{:.1} TB", b as f64 / TB as f64),
        b if b >= GB => format!("{:.1} GB", b as f64 / GB as f64),
        b if b >= MB => format!("{:.1} MB", b as f64 / MB as f64),
        b if b >= KB => format!("{:.1} KB", b as f64 / KB as f64),
        b => format!("{b} B"),
    }
}

/// Groups the digits of `n` in threes from the right.
fn grouped(n: u64) -> String {
    let s = n.to_string();
    let mut out = String::new();
    let len = s.len();
    for (i, c) in s.chars().enumerate() {
        if i > 0 && (len - i) % 3 == 0 {
            out.push(',');
        }
        out.push(c);
    }
    out
}

#[test]
fn format_number_small_values() {
    assert_eq!(format_number(0), "0");
    assert_eq!(format_number(7), "7");
    assert_eq!(format_number(999), "999");
}

#[test]
fn format_number_groups_thousands() {
    assert_eq!(format_number(1000), "1,000");
    assert_eq!(format_number(1234), "1,234");
    assert_eq!(format_number(12345), "12,345");
    assert_eq!(format_number(123456), "123,456");
    assert_eq!(format_number(1234567), "1,234,567");
    assert_eq!(format_number(4107), "4,107");
    assert_eq!(format_number(u64::MAX), "18,446,744,073,709,551,615");
}

#[test]
fn format_number_round_trips() {
    let mut x: u64 = 1;
    for _ in 0..20000 {
        x = x.wrapping_mul(6364136223846793005).wrapping_add(1442695040888963407);
        for n in [x, x >> 13, x >> 29, x >> 47, x % 100000] {
            let s = format_number(n);
            assert_eq!(s, grouped(n));
            let digits: String = s.chars().filter(|c| *c != ',').collect();
            assert_eq!(digits.parse::<u64>().unwrap(), n);
        }
    }
}

#[test]
fn format_bytes_below_one_kb() {
    assert_eq!(format_bytes(0), "0 B");
    assert_eq!(format_bytes(1), "1 B");
    assert_eq!(format_bytes(512), "512 B");
    assert_eq!(format_bytes(1023), "1023 B");
}

#[test]
fn format_bytes_scales() {
    assert_eq!(format_bytes(1024), "1.0 KB");
    assert_eq!(format_bytes(1536), "1.5 KB");
    assert_eq!(format_bytes(52_633_600), "50.2 MB");
    assert_eq!(format_bytes(126_667_571), "120.8 MB");
    assert_eq!(format_bytes(25_165_824), "24.0 MB");
    assert_eq!(format_bytes(1_073_741_824), "1.0 GB");
    assert_eq!(format_bytes(1_099_511_627_776), "1.0 TB");
    assert_eq!(format_bytes(1_048_575), "1024.0 KB");
    assert_eq!(format_bytes(u64::MAX), "16777216.0 TB");
}

#[test]
fn format_bytes_whole_units() {
    for k in 1..1024u64 {
        assert_eq!(format_bytes(k * 1024), format!("{k}.0 KB"));
        assert_eq!(format_bytes(k * 1024 * 1024), format!("{k}.0 MB"));
        assert_eq!(format_bytes(k * 1024 * 1024 * 1024), format!("{k}.0 GB"));
    }
}

#[test]
fn format_bytes_ties_round_to_even() {
    // 1.25 KB and 1.75 KB lie exactly between two tenths.
    assert_eq!(format_bytes(1280), float_bytes(1280));
    assert_eq!(format_bytes(1792), float_bytes(1792));
    assert_eq!(format_bytes(1280), "1.2 KB");
    assert_eq!(format_bytes(1792), "1.8 KB");
    let mut b = 256u64;
    while b < 1 << 20 {
        assert_eq!(format_bytes(b), float_bytes(b), "bytes = {b}");
        b += 512;
    }
}

#[test]
fn format_bytes_matches_float_scaling() {
    for b in 0..200_000u64 {
        assert_eq!(format_bytes(b), float_bytes(b), "bytes = {b}");
    }
    let mut x: u64 = 88172645463325252;
    for _ in 0..100_000 {
        x ^= x << 13;
        x ^= x >> 7;
        x ^= x << 17;
        for shift in [0u32, 7, 19, 23, 31, 37, 43, 50, 55, 60] {
            let b = x >> shift;
            assert_eq!(format_bytes(b), float_bytes(b), "bytes = {b}");
        }
    }
}

#[test]
fn format_bytes_matches_float_rounding_of_large_counts() {
    // Above 2^53 the count itself is rounded when it becomes an f64.
    let tie_unit: u64 = 1 << 38;
    for k in [32769u64, 40001, 65535, 65537, 99999] {
        let t = tie_unit * (2 * k + 1);
        for d in [0u64, 1, 2, 511, 512, 513, 1023, 1024, 1025, 2047, 2048, 2049] {
            for b in [t.wrapping_add(d), t.wrapping_sub(d)] {
                assert_eq!(format_bytes(b), float_bytes(b), "bytes = {b}");
            }
        }
    }
    for e in 53..64u32 {
        let base = 1u64 << e;
        for d in 0..3000u64 {
            let b = base + d;
            assert_eq!(format_bytes(b), float_bytes(b), "bytes = {b}");
            let c = u64::MAX - d;
            assert_eq!(format_bytes(c), float_bytes(c), "bytes = {c}");
        }
    }
}
