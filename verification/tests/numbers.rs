use anime_tui::app::fmt_time;
use anime_tui::number;
use anime_tui::order;
use anime_tui::seconds::Seconds;

fn secs(x: f64) -> Seconds {
    Seconds { bits: x.to_bits() }
}

const SAMPLES: [f64; 22] = [
    0.0,
    -0.0,
    0.5,
    0.999_999,
    1.0,
    1.000_000_1,
    1.999_999,
    2.0,
    59.9,
    3599.99,
    1e9,
    4_503_599_627_370_496.5,
    9_007_199_254_740_993.0,
    1.8e19,
    1e300,
    -0.5,
    -1.5,
    -1e300,
    f64::INFINITY,
    f64::NEG_INFINITY,
    f64::NAN,
    f64::MIN_POSITIVE,
];

#[test]
fn seconds_are_cut_like_floats() {
    for x in SAMPLES {
        assert_eq!(secs(x).whole_seconds(), x as u64, "{x}");
        assert_eq!(secs(x).signed_seconds(), x as i64, "{x}");
    }
}

#[test]
fn seconds_compare_like_floats() {
    for x in SAMPLES {
        assert_eq!(secs(x).above_one(), x > 1.0, "{x}");
        assert_eq!(secs(x).below_two(), x < 2.0, "{x}");
    }
    assert_eq!(Seconds::zero().bits, 0.0f64.to_bits());
}

#[test]
fn times_are_written_with_hours_when_there_are_some() {
    assert_eq!(fmt_time(secs(0.0)), "0:00");
    assert_eq!(fmt_time(secs(65.9)), "1:05");
    assert_eq!(fmt_time(secs(3600.0)), "1:00:00");
    assert_eq!(fmt_time(secs(3661.0)), "1:01:01");
    assert_eq!(fmt_time(secs(-5.0)), "0:00");
    assert_eq!(fmt_time(secs(f64::NAN)), "0:00");
}

#[test]
fn decimal_text_is_read_back() {
    for n in [0u64, 7, 10, 99, 100, 12345, u64::MAX] {
        let s = number::decimal(n);
        assert_eq!(s, n.to_string());
        let c: Vec<char> = s.chars().collect();
        assert_eq!(number::parse(&c, 10, u64::MAX), Some(n));
    }
    assert_eq!(number::decimal_two(7), "07");
    assert_eq!(number::decimal_two(123), "123");
}

#[test]
fn numbers_are_read_like_std_reads_them() {
    for s in ["", "+", "-", "+5", "-5", "0005", "18446744073709551616", "1a", " 1"] {
        let c: Vec<char> = s.chars().collect();
        assert_eq!(number::parse(&c, 10, u64::MAX), s.parse::<u64>().ok(), "{s:?}");
        assert_eq!(
            number::parse(&c, 16, 255).map(|n| n as u8),
            u8::from_str_radix(s, 16).ok(),
            "{s:?}"
        );
    }
}

#[test]
fn sorting_is_stable() {
    let items = vec![(2u128, 'a'), (1, 'b'), (2, 'c'), (1, 'd'), (0, 'e')];
    assert_eq!(order::in_order_of_keys(items), vec!['e', 'b', 'd', 'a', 'c']);
}
