use quantum_launcher::format::{decimal_string, dots, format_downloads, format_memory};

#[test]
fn memory_below_a_gigabyte_is_in_megabytes() {
    assert_eq!(format_memory(0), "0 MB");
    assert_eq!(format_memory(512), "512 MB");
    assert_eq!(format_memory(1023), "1023 MB");
}

#[test]
fn memory_from_a_gigabyte_has_two_decimals() {
    assert_eq!(format_memory(1024), "1.00 GB");
    assert_eq!(format_memory(1536), "1.50 GB");
    assert_eq!(format_memory(2048), "2.00 GB");
    assert_eq!(format_memory(4000), "3.91 GB");
    assert_eq!(format_memory(16384), "16.00 GB");
}

#[test]
fn memory_matches_float_formatting() {
    let mut m: usize = 1024;
    while m < 300_000 {
        let expected = format!("{:.2} GB", m as f64 / 1024.0);
        assert_eq!(format_memory(m), expected, "for {m}");
        m += 1;
    }
    for m in [
        1usize << 40,
        (1usize << 53) - 1,
        (1usize << 53) + 1,
        (1usize << 60) + 12345,
        usize::MAX,
        usize::MAX - 1024,
    ] {
        let expected = format!("{:.2} GB", m as f64 / 1024.0);
        assert_eq!(format_memory(m), expected, "for {m}");
    }
}

#[test]
fn downloads_short_forms() {
    assert_eq!(format_downloads(0), "0");
    assert_eq!(format_downloads(998), "998");
    assert_eq!(format_downloads(999), "1.0K");
    assert_eq!(format_downloads(1500), "1.5K");
    assert_eq!(format_downloads(9999), "10.0K");
    assert_eq!(format_downloads(10000), "10K");
    assert_eq!(format_downloads(123_456), "123K");
    assert_eq!(format_downloads(1_234_567), "1.2M");
    assert_eq!(format_downloads(12_345_678), "12M");
}

#[test]
fn downloads_match_float_formatting() {
    for d in 999usize..10000 {
        assert_eq!(format_downloads(d), format!("{:.1}K", d as f32 / 1000.0), "for {d}");
    }
    let mut d: usize = 1_000_000;
    while d < 10_000_000 {
        assert_eq!(format_downloads(d), format!("{:.1}M", d as f32 / 1_000_000.0), "for {d}");
        d += 37;
    }
    for d in [1_049_999usize, 1_050_000, 1_050_001, 1_250_000, 9_950_000, 9_999_999] {
        assert_eq!(format_downloads(d), format!("{:.1}M", d as f32 / 1_000_000.0), "for {d}");
    }
}

#[test]
fn loading_dots_cycle() {
    assert_eq!(dots(0), ".");
    assert_eq!(dots(1), "..");
    assert_eq!(dots(2), "...");
    assert_eq!(dots(3), ".");
    assert_eq!(dots(101), "...");
}

#[test]
fn decimal_notation() {
    assert_eq!(decimal_string(0), "0");
    assert_eq!(decimal_string(7), "7");
    assert_eq!(decimal_string(10), "10");
    assert_eq!(decimal_string(1234567890), "1234567890");
    assert_eq!(decimal_string(u128::MAX), u128::MAX.to_string());
}
