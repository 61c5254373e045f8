use cfmail::extract::extract_code_from_text;
use cfmail::pattern::{build_pattern, CodeType, PatternError};
use cfmail::text::chars_of;

fn numeric_default() -> cfmail::pattern::CompiledPattern {
    build_pattern(CodeType::Numeric, None).unwrap()
}

#[test]
fn pattern_exact_length_matches_inside_text() {
    let p = build_pattern(CodeType::Numeric, Some(6)).unwrap();
    let t = chars_of("code: 123456.");
    assert_eq!(p.find_first(&t), Some((6, 12)));
}

#[test]
fn pattern_rejects_run_longer_than_requested() {
    let p = build_pattern(CodeType::Numeric, Some(6)).unwrap();
    let t = chars_of("1234567");
    assert_eq!(p.find_first(&t), None);
}

#[test]
fn pattern_range_rejects_overlong_run() {
    let p = numeric_default();
    let t = chars_of("123456789");
    assert_eq!(p.find_first(&t), None);
}

#[test]
fn pattern_range_takes_longest_at_position() {
    let p = numeric_default();
    let t = chars_of("12345678");
    assert_eq!(p.find_first(&t), Some((0, 8)));
}

#[test]
fn pattern_alphanumeric_exact() {
    let p = build_pattern(CodeType::Alphanumeric, Some(5)).unwrap();
    let t = chars_of("pin AB12C now");
    assert_eq!(p.find_first(&t), Some((4, 9)));
}

#[test]
fn pattern_any_matches_nonspace() {
    let p = build_pattern(CodeType::Any, Some(4)).unwrap();
    let t = chars_of("see it: a-b4 ok");
    // "see " starts with a three-letter word; the first four-character
    // non-whitespace run flanked by word boundaries starts at "a-b4".
    assert_eq!(p.find_first(&t), Some((8, 12)));
}

#[test]
fn pattern_zero_length_is_refused() {
    assert_eq!(
        build_pattern(CodeType::Numeric, Some(0)).unwrap_err(),
        PatternError::ZeroLength
    );
}

#[test]
fn marker_precedence_beats_unrelated_number() {
    let p = numeric_default();
    let r = extract_code_from_text("Your code is 482913. Order #2024 confirmed.", &p);
    assert_eq!(r.as_deref(), Some("482913"));
}

#[test]
fn enter_the_code_phrase_wins_first() {
    let p = numeric_default();
    let r = extract_code_from_text("Please enter the code 9081 to continue. code 7777", &p);
    assert_eq!(r.as_deref(), Some("9081"));
}

#[test]
fn isolated_line_fallback() {
    let p = numeric_default();
    let r = extract_code_from_text("   739201   ", &p);
    assert_eq!(r.as_deref(), Some("739201"));
}

#[test]
fn isolated_line_inside_larger_text() {
    let p = numeric_default();
    let r = extract_code_from_text("greetings\n\t 739201 \nregards", &p);
    assert_eq!(r.as_deref(), Some("739201"));
}

#[test]
fn marker_word_captures_alphanumeric_code() {
    let p = numeric_default();
    let r = extract_code_from_text("\u{9a8c}\u{8bc1}\u{7801}: AB12CD", &p);
    assert_eq!(r.as_deref(), Some("AB12CD"));
}

#[test]
fn marker_word_caps_capture_at_eight() {
    let p = numeric_default();
    let r = extract_code_from_text("code1234567890", &p);
    assert_eq!(r.as_deref(), Some("12345678"));
}

#[test]
fn generic_tier_used_without_markers() {
    let p = numeric_default();
    let r = extract_code_from_text("ref 55667788 attached", &p);
    assert_eq!(r.as_deref(), Some("55667788"));
}

#[test]
fn no_code_in_plain_text() {
    let p = numeric_default();
    assert_eq!(extract_code_from_text("hello there, nothing here.", &p), None);
}

#[test]
fn trailing_letter_breaks_word_boundary() {
    let p = numeric_default();
    // the digit run is glued to a letter, so the marker capture and the
    // generic pattern both refuse it
    assert_eq!(extract_code_from_text("id 12345x7", &p), None);
}
