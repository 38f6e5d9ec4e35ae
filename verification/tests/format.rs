use ip_bypass_plus_frag::format::{
    fmt_bytes, fmt_percentage, fmt_stats_field, fmt_time, fmt_uptime, span_of, Span,
};

fn bytes_by_float(n: u64) -> String {
    if n < 1024 {
        format!("{n}B")
    } else if n < 1024 * 1024 {
        format!("{:.1}K", n as f64 / 1024.0)
    } else {
        format!("{:.1}M", n as f64 / (1024.0 * 1024.0))
    }
}

#[test]
fn times_of_day_are_shown() {
    assert_eq!(fmt_time(0), "00:00:00");
    assert_eq!(fmt_time(86399), "23:59:59");
    assert_eq!(fmt_time(86400 * 3 + 3661), "01:01:01");
}

#[test]
fn uptimes_are_shown() {
    assert_eq!(fmt_uptime(0), "0s");
    assert_eq!(fmt_uptime(59), "59s");
    assert_eq!(fmt_uptime(60), "1m 0s");
    assert_eq!(fmt_uptime(3600), "1h 0m 0s");
    assert_eq!(fmt_uptime(90061), "25h 1m 1s");
}

#[test]
fn byte_counts_are_shown() {
    assert_eq!(fmt_bytes(0), "0B");
    assert_eq!(fmt_bytes(1023), "1023B");
    assert_eq!(fmt_bytes(1024), "1.0K");
    assert_eq!(fmt_bytes(1536), "1.5K");
    assert_eq!(fmt_bytes(1048575), "1024.0K");
    assert_eq!(fmt_bytes(1048576), "1.0M");
    assert_eq!(fmt_bytes(5_767_168), "5.5M");
    assert_eq!(fmt_bytes(u64::MAX), "17592186044416.0M");
}

#[test]
fn byte_counts_are_rounded_like_floats() {
    for n in 0..200_000u64 {
        assert_eq!(fmt_bytes(n), bytes_by_float(n), "{n}");
    }
    let mut n: u64 = 1;
    for step in 0..20_000u64 {
        n = n.wrapping_mul(6364136223846793005).wrapping_add(1442695040888963407);
        let m = n >> (step % 64);
        assert_eq!(fmt_bytes(m), bytes_by_float(m), "{m}");
    }
    for k in 40..64u32 {
        for d in 0..40u64 {
            let m = (1u64 << k).wrapping_add(d * 52429).wrapping_sub(7);
            assert_eq!(fmt_bytes(m), bytes_by_float(m), "{m}");
        }
    }
}

#[test]
fn halves_are_rounded_to_even() {
    // 1.25 and 1.75 times 1024, exactly between two tenths.
    assert_eq!(fmt_bytes(1280), "1.2K");
    assert_eq!(fmt_bytes(1792), "1.8K");
}

#[test]
fn stats_are_moved_right() {
    assert_eq!(fmt_stats_field("12"), "      12");
    assert_eq!(fmt_stats_field(""), "        ");
    assert_eq!(fmt_stats_field("123456789"), "123456789");
    assert_eq!(fmt_stats_field("—"), format!("{:>8}", "—"));
}

#[test]
fn spans_change_unit_at_a_second() {
    assert_eq!(span_of(999_999_999), Span::Millis(999));
    assert_eq!(span_of(1_000_000_000), Span::Seconds(1_000_000_000));
}

#[test]
fn percentages_are_shown() {
    assert_eq!(fmt_percentage(0, 0), "");
    assert_eq!(fmt_percentage(1, 3), "(33%)");
    assert_eq!(fmt_percentage(3, 3), "(100%)");
    assert_eq!(fmt_percentage(u64::MAX, u64::MAX), "(1%)");
}
