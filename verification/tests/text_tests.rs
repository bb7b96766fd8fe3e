use mini_system_monitor::layout::sample_key_of;
use mini_system_monitor::sensors::guess_gpu_vendor;
use mini_system_monitor::stats::amount_text;
use mini_system_monitor::color::{parse_color, parse_rgb_csv, rgb_to_csv};
use mini_system_monitor::text::{
    chars_of, contains_str, decimal_chars, eq_ignore_ascii_case_str, find_char, parse_i64, parse_u8, split_chars,
    trim_chars, two_digit_chars,
};

fn s(v: &[char]) -> String {
    v.iter().collect()
}

#[test]
fn trim_removes_unicode_space() {
    assert_eq!(s(&trim_chars(&chars_of("  \t a b \n\u{a0}"))), "a b");
    assert_eq!(s(&trim_chars(&chars_of("   "))), "");
}

#[test]
fn split_keeps_empty_fields() {
    let parts: Vec<String> = split_chars(&chars_of("a,,b,"), ',').iter().map(|p| s(p)).collect();
    assert_eq!(parts, vec!["a", "", "b", ""]);
    let one: Vec<String> = split_chars(&chars_of(""), ',').iter().map(|p| s(p)).collect();
    assert_eq!(one, vec![""]);
}

#[test]
fn parse_u8_as_std_does() {
    for t in ["0", "255", "256", "+7", "-1", "", "12a", "007", "+"] {
        assert_eq!(parse_u8(&chars_of(t)), t.parse::<u8>().ok(), "{t}");
    }
}

#[test]
fn parse_i64_as_std_does() {
    for t in ["0", "-9223372036854775808", "9223372036854775807", "9223372036854775808", "+12", "-", "1_0", "-0"] {
        assert_eq!(parse_i64(&chars_of(t)), t.parse::<i64>().ok(), "{t}");
    }
}

#[test]
fn decimal_and_two_digits() {
    assert_eq!(s(&decimal_chars(0)), "0");
    assert_eq!(s(&decimal_chars(18446744073709551615)), "18446744073709551615");
    assert_eq!(s(&two_digit_chars(7)), "07");
    assert_eq!(s(&two_digit_chars(123)), "123");
}

#[test]
fn find_and_contains() {
    assert_eq!(find_char(&chars_of("ab|cd|"), '|'), Some(2));
    assert_eq!(find_char(&chars_of("abcd"), '|'), None);
    assert!(contains_str(&chars_of("GpuNvidia"), "Nvid"));
    assert!(!contains_str(&chars_of("Gpu"), "GpuX"));
    assert!(contains_str(&chars_of("x"), ""));
}

#[test]
fn case_folding_wrappers_change_the_text() {
    assert_eq!(guess_gpu_vendor("RADEON PRO"), "AMD");
    assert_eq!(guess_gpu_vendor("GeForce"), "NVIDIA");
    let key = sample_key_of(&vec!["stats".to_string(), "cpu".to_string(), "ß".to_string()]);
    assert_eq!(key.iter().collect::<String>(), "STATS.CPU.SS");
    assert!(eq_ignore_ascii_case_str("LibreHardwareMonitor.EXE", "librehardwaremonitor.exe"));
    assert!(!eq_ignore_ascii_case_str("Ä", "ä"));
}

#[test]
fn strings_are_rebuilt_from_chars() {
    assert_eq!(amount_text(42, "°C ok"), "42°C ok");
    assert_eq!(rgb_to_csv([9, 10, 255]), "9, 10, 255");
}

#[test]
fn parse_color_reads_three_bytes() {
    assert_eq!(parse_color(" 10 , 20 ,30 "), [10, 20, 30]);
    assert_eq!(parse_color("10, 20, 300"), [10, 20, 0]);
    assert_eq!(parse_color("+5,x,1"), [5, 0, 1]);
    assert_eq!(parse_color("1,2"), [255, 255, 255]);
    assert_eq!(parse_color("1,2,3,4"), [255, 255, 255]);
}

#[test]
fn parse_rgb_csv_clamps_and_skips() {
    assert_eq!(parse_rgb_csv("10, x, 300, -4"), [10, 255, 0]);
    assert_eq!(parse_rgb_csv("180,80,255"), [180, 80, 255]);
    assert_eq!(parse_rgb_csv("1,2,3,4"), [255, 255, 255]);
    assert_eq!(parse_rgb_csv(""), [255, 255, 255]);
    assert_eq!(parse_rgb_csv("300, -5, 7"), [255, 0, 7]);
    assert_eq!(parse_rgb_csv("1, 2"), [255, 255, 255]);
}

#[test]
fn rgb_csv_round_trip_on_values() {
    for c in [[0u8, 0, 0], [255, 255, 255], [1, 22, 233], [180, 80, 255]] {
        let t = rgb_to_csv(c);
        assert_eq!(parse_rgb_csv(&t), c);
        assert_eq!(parse_color(&t), c);
    }
    assert_eq!(rgb_to_csv([1, 2, 3]), "1, 2, 3");
}
