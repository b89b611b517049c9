use vloom::cli::Args;
use vloom::error::LoomError;
use vloom::text::{chars_of, contains_text, decimal_len, matches_ignoring_case, parse_unsigned_range, push_decimal, push_signed, push_zero_padded, trim_bounds};

fn args_with_resolution(res: &str) -> Args {
    Args {
        target: None,
        duration: None,
        output: None,
        fps: 30,
        resolution: res.to_string(),
        list: false,
        verbose: false,
    }
}

#[test]
fn resolution_default_value() {
    assert_eq!(args_with_resolution("1280x720").resolution_tuple(), (1280, 720));
}

#[test]
fn resolution_custom_value() {
    assert_eq!(args_with_resolution("1920x1080").resolution_tuple(), (1920, 1080));
    assert_eq!(args_with_resolution("+640x+480").resolution_tuple(), (640, 480));
    assert_eq!(args_with_resolution("007x0").resolution_tuple(), (7, 0));
}

#[test]
fn resolution_without_separator_falls_back() {
    assert_eq!(args_with_resolution("1920").resolution_tuple(), (1280, 720));
    assert_eq!(args_with_resolution("").resolution_tuple(), (1280, 720));
    assert_eq!(args_with_resolution("1920X1080").resolution_tuple(), (1280, 720));
}

#[test]
fn resolution_with_three_parts_falls_back() {
    assert_eq!(args_with_resolution("1x2x3").resolution_tuple(), (1280, 720));
    assert_eq!(args_with_resolution("xx").resolution_tuple(), (1280, 720));
}

#[test]
fn resolution_bad_parts_fall_back_one_by_one() {
    assert_eq!(args_with_resolution("x").resolution_tuple(), (1280, 720));
    assert_eq!(args_with_resolution("1920x").resolution_tuple(), (1920, 720));
    assert_eq!(args_with_resolution("x1080").resolution_tuple(), (1280, 1080));
    assert_eq!(args_with_resolution("ax600").resolution_tuple(), (1280, 600));
    assert_eq!(args_with_resolution("-5x10").resolution_tuple(), (1280, 10));
    assert_eq!(args_with_resolution(" 5x6").resolution_tuple(), (1280, 6));
    assert_eq!(args_with_resolution("+x+").resolution_tuple(), (1280, 720));
}

#[test]
fn resolution_overflow_falls_back() {
    assert_eq!(args_with_resolution("4294967295x1").resolution_tuple(), (4294967295, 1));
    assert_eq!(args_with_resolution("4294967296x1").resolution_tuple(), (1280, 1));
    assert_eq!(args_with_resolution("1x99999999999999999999999").resolution_tuple(), (1, 720));
}

#[test]
fn resolution_round_trip_on_samples() {
    for (w, h) in [(0u32, 0u32), (1, 2), (1280, 720), (3840, 2160), (u32::MAX, 9), (10, 100)] {
        let text = format!("{}x{}", w, h);
        assert_eq!(args_with_resolution(&text).resolution_tuple(), (w, h));
    }
}

#[test]
fn decimal_writing() {
    let mut s = String::from("n=");
    push_decimal(&mut s, 0);
    assert_eq!(s, "n=0");
    let mut s = String::new();
    push_decimal(&mut s, u64::MAX);
    assert_eq!(s, "18446744073709551615");
    assert_eq!(decimal_len(u64::MAX), 20);
    assert_eq!(decimal_len(9), 1);
    assert_eq!(decimal_len(10), 2);
}

#[test]
fn zero_padded_writing() {
    let mut s = String::new();
    push_zero_padded(&mut s, 7, 4);
    assert_eq!(s, "0007");
    let mut s = String::new();
    push_zero_padded(&mut s, 123456, 4);
    assert_eq!(s, "123456");
    let mut s = String::new();
    push_zero_padded(&mut s, 42, 0);
    assert_eq!(s, "42");
}

#[test]
fn signed_writing() {
    let mut s = String::new();
    push_signed(&mut s, -1440);
    assert_eq!(s, "-1440");
    let mut s = String::new();
    push_signed(&mut s, i32::MIN);
    assert_eq!(s, "-2147483648");
    let mut s = String::new();
    push_signed(&mut s, 25);
    assert_eq!(s, "25");
}

#[test]
fn unsigned_parsing() {
    let c = chars_of("x+12y");
    assert_eq!(parse_unsigned_range(&c, 1, 4, u64::MAX), Some(12));
    assert_eq!(parse_unsigned_range(&c, 1, 2, u64::MAX), None);
    assert_eq!(parse_unsigned_range(&c, 0, 0, u64::MAX), None);
    let c = chars_of("256");
    assert_eq!(parse_unsigned_range(&c, 0, 3, 255), None);
    assert_eq!(parse_unsigned_range(&c, 0, 3, 256), Some(256));
    let c = chars_of("7");
    assert_eq!(parse_unsigned_range(&c, 0, 1, 0), None);
    assert_eq!(parse_unsigned_range(&c, 0, 1, 7), Some(7));
    let c = chars_of("0");
    assert_eq!(parse_unsigned_range(&c, 0, 1, 0), Some(0));
    let c = chars_of("10");
    assert_eq!(parse_unsigned_range(&c, 0, 2, 5), None);
    let c = chars_of("18446744073709551616");
    assert_eq!(parse_unsigned_range(&c, 0, 20, u64::MAX), None);
    let c = chars_of("18446744073709551615");
    assert_eq!(parse_unsigned_range(&c, 0, 20, u64::MAX), Some(u64::MAX));
}

#[test]
fn trimming_bounds() {
    let c = chars_of(" \t 42\n");
    assert_eq!(trim_bounds(&c), (3, 5));
    let c = chars_of("   ");
    let (a, b) = trim_bounds(&c);
    assert_eq!(a, b);
    let c = chars_of("\u{3000}7\u{a0}");
    assert_eq!(trim_bounds(&c), (1, 2));
}

#[test]
fn substring_search() {
    assert!(contains_text("Google Chrome - GitHub", "GitHub"));
    assert!(contains_text("abc", ""));
    assert!(contains_text("", ""));
    assert!(!contains_text("", "a"));
    assert!(!contains_text("GitHub", "github"));
    assert!(contains_text("aaab", "aab"));
}

#[test]
fn case_insensitive_match_lowercases_both_sides() {
    assert!(matches_ignoring_case("Google Chrome - GitHub", "github"));
    assert!(matches_ignoring_case("localhost:3000 - My App", "MY APP"));
    assert!(matches_ignoring_case("ÄRGER", "ärger"));
    assert!(!matches_ignoring_case("Slack", "chrome"));
}

#[test]
fn error_messages() {
    assert_eq!(
        LoomError::WindowNotFound.message(),
        "No Chrome window found. Make sure Chrome is open with at least one window."
    );
    assert_eq!(LoomError::FfmpegNotFound.message(), "ffmpeg not found. Install with: brew install ffmpeg");
    assert_eq!(LoomError::CaptureFailed("denied".to_string()).message(), "Failed to start capture: denied");
    assert_eq!(LoomError::EncodingFailed("broken pipe".to_string()).message(), "Encoding failed: broken pipe");
    assert_eq!(LoomError::Io("Failed to read input".to_string()).message(), "IO error: Failed to read input");
    assert_eq!(LoomError::Clipboard("busy".to_string()).message(), "Clipboard error: busy");
}
