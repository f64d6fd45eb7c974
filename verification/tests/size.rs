use kadr_installer::size::fmt_size;

fn float_text(bytes: u64) -> String {
    format!("{:.1} MB", bytes as f64 / 1_000_000.0)
}

#[test]
fn kilobytes_below_one_megabyte() {
    assert_eq!(fmt_size(0), "0 KB");
    assert_eq!(fmt_size(499), "0 KB");
    assert_eq!(fmt_size(500), "1 KB");
    assert_eq!(fmt_size(1_499), "1 KB");
    assert_eq!(fmt_size(1_500), "2 KB");
    assert_eq!(fmt_size(123_456), "123 KB");
    assert_eq!(fmt_size(999_499), "999 KB");
    assert_eq!(fmt_size(999_999), "1000 KB");
}

#[test]
fn megabytes_with_one_decimal() {
    assert_eq!(fmt_size(1_000_000), "1.0 MB");
    assert_eq!(fmt_size(1_040_000), "1.0 MB");
    assert_eq!(fmt_size(1_060_000), "1.1 MB");
    assert_eq!(fmt_size(52_428_800), "52.4 MB");
    assert_eq!(fmt_size(9_960_000), "10.0 MB");
}

#[test]
fn halfway_sizes_follow_the_double() {
    // 1.05 is just above its nearest double's neighbour and rounds up;
    // 1.15 lies just below and rounds down; 1.25 is exact and goes to even.
    assert_eq!(fmt_size(1_050_000), "1.1 MB");
    assert_eq!(fmt_size(1_150_000), "1.1 MB");
    assert_eq!(fmt_size(1_250_000), "1.2 MB");
    assert_eq!(fmt_size(1_750_000), "1.8 MB");
    for k in 10u64..2_000 {
        let n = k * 100_000 + 50_000;
        assert_eq!(fmt_size(n), float_text(n), "bytes = {n}");
    }
}

#[test]
fn megabytes_match_float_formatting() {
    let mut x: u64 = 0x9E37_79B9_7F4A_7C15;
    for _ in 0..20_000 {
        x ^= x << 13;
        x ^= x >> 7;
        x ^= x << 17;
        for n in [x % 100_000_000 + 1_000_000, x % 1_000_000_000_000, x >> (x % 40), x] {
            if n >= 1_000_000 {
                assert_eq!(fmt_size(n), float_text(n), "bytes = {n}");
            }
        }
    }
}

#[test]
fn huge_sizes_match_float_formatting() {
    let cases: [u64; 10] = [
        (1u64 << 53) - 1,
        1u64 << 53,
        (1u64 << 53) + 1,
        (1u64 << 53) + 3,
        (1u64 << 60) + 12_345,
        u64::MAX,
        u64::MAX - 1024,
        u64::MAX - 2048,
        18_014_398_509_481_985,
        9_999_999_999_999_999_999,
    ];
    for n in cases {
        assert_eq!(fmt_size(n), float_text(n), "bytes = {n}");
    }
}

fn shown_tenths(text: &str) -> u64 {
    let number = text.strip_suffix(" MB").expect("a size in megabytes");
    let (whole, tenth) = number.split_once('.').expect("one decimal");
    whole.parse::<u64>().unwrap() * 10 + tenth.parse::<u64>().unwrap()
}

#[test]
fn megabytes_within_rounding_of_size() {
    let mut x: u64 = 0x0123_4567_89AB_CDEF;
    for _ in 0..20_000 {
        x ^= x << 13;
        x ^= x >> 7;
        x ^= x << 17;
        let n = (x % (1u64 << 52)).max(1_000_000);
        let t = shown_tenths(&fmt_size(n)) as i128;
        assert!((t * 100_000 - n as i128).abs() <= 52_000, "bytes = {n}");
    }
}

fn named_amount(text: &str) -> u64 {
    if let Some(kb) = text.strip_suffix(" KB") {
        kb.parse::<u64>().unwrap() * 1000
    } else {
        shown_tenths(text) * 100_000
    }
}

#[test]
fn larger_sizes_never_show_less() {
    assert_eq!(named_amount(&fmt_size(999_999)), 1_000_000);
    assert_eq!(named_amount(&fmt_size(1_000_000)), 1_000_000);
    let mut x: u64 = 0x2545_F491_4F6C_DD1D;
    for _ in 0..20_000 {
        x ^= x << 13;
        x ^= x >> 7;
        x ^= x << 17;
        let a = x % 3_000_000;
        let b = a + (x >> 40) % 200_000;
        assert!(named_amount(&fmt_size(a)) <= named_amount(&fmt_size(b)), "{a} <= {b}");
        let c = x >> (x % 50);
        let d = c.saturating_add(x % 5_000_000);
        assert!(named_amount(&fmt_size(c)) <= named_amount(&fmt_size(d)), "{c} <= {d}");
    }
}
