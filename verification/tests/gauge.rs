use range_delete::gauge::{estimate, hex_digit_value, progress, GAUGE_MAX};

#[test]
fn progress_reads_four_hex_digits_behind_the_marker() {
    assert_eq!(progress("blob_v1;0xabcd1234".to_string()), 43981);
}

#[test]
fn progress_without_marker_is_zero() {
    assert_eq!(progress("no-marker-here".to_string()), 0);
}

#[test]
fn estimate_agrees_with_progress() {
    assert_eq!(estimate("blob_v1;0xabcd1234"), 43981);
    assert_eq!(estimate("no-marker-here"), 0);
}

#[test]
fn estimate_of_empty_text_is_zero() {
    assert_eq!(estimate(""), 0);
}

#[test]
fn estimate_reaches_both_ends_of_the_gauge() {
    assert_eq!(estimate("0x0000"), 0);
    assert_eq!(estimate("0xffff"), 65535);
    assert_eq!(estimate("0xffff"), GAUGE_MAX);
}

#[test]
fn estimate_weighs_each_digit_by_its_place() {
    assert_eq!(estimate("0x1000"), 4096);
    assert_eq!(estimate("0x0100"), 256);
    assert_eq!(estimate("0x0010"), 16);
    assert_eq!(estimate("0x0001"), 1);
    assert_eq!(estimate("0x1234"), 4660);
}

#[test]
fn estimate_takes_upper_case_digits() {
    assert_eq!(estimate("0xABCD"), 43981);
    assert_eq!(estimate("0xaBcD"), 43981);
}

#[test]
fn estimate_needs_four_characters_behind_the_marker() {
    assert_eq!(estimate("0x"), 0);
    assert_eq!(estimate("0xabc"), 0);
    assert_eq!(estimate("key0x"), 0);
    assert_eq!(estimate("key0x123"), 0);
}

#[test]
fn estimate_needs_four_digits_behind_the_marker() {
    assert_eq!(estimate("0xzzzz"), 0);
    assert_eq!(estimate("0x12g4"), 0);
    assert_eq!(estimate("0x123 "), 0);
    assert_eq!(estimate("0x+abc"), 0);
    assert_eq!(estimate("0x-abc"), 0);
}

#[test]
fn estimate_goes_by_the_leftmost_marker() {
    assert_eq!(estimate("0x00010x0002"), 1);
    assert_eq!(estimate("0xzz 0x1234"), 0);
    assert_eq!(estimate("00x1234"), 4660);
    assert_eq!(estimate("x00x00ff"), 255);
}

#[test]
fn estimate_ignores_what_follows_the_four_digits() {
    assert_eq!(estimate("blockmeta_v1_cl;0x00ffzzzz"), 255);
    assert_eq!(estimate("0xabcdef"), 43981);
}

#[test]
fn estimate_counts_characters_not_bytes() {
    assert_eq!(estimate("\u{e9}0x00ff"), 255);
    assert_eq!(estimate("0xab\u{e9}1"), 0);
    assert_eq!(estimate("0xab\u{e9}"), 0);
    assert_eq!(estimate("0x\u{1F600}\u{1F600}\u{1F600}\u{1F600}"), 0);
    assert_eq!(estimate("\u{fffd}\u{fffd}0x0a0b"), 2571);
}

#[test]
fn estimate_marker_is_case_sensitive() {
    assert_eq!(estimate("0X1234"), 0);
}

#[test]
fn estimate_is_bounded_and_repeatable() {
    let texts = [
        "",
        "0x",
        "0xffff",
        "0xFFFFFFFF",
        "no-marker-here",
        "blob_v1;0xabcd1234",
        "\u{fffd}0x\u{fffd}",
        "0x0x0x0x0x",
    ];
    for text in texts {
        let first = estimate(text);
        let second = estimate(text);
        assert_eq!(first, second);
        assert!(first <= 65535);
        assert_eq!(progress(text.to_string()), first);
    }
}

#[test]
fn hex_digit_value_reads_every_digit() {
    let digits = "0123456789abcdef";
    for (value, digit) in digits.chars().enumerate() {
        assert_eq!(hex_digit_value(digit), Some(value as u64));
    }
    for (value, digit) in "ABCDEF".chars().enumerate() {
        assert_eq!(hex_digit_value(digit), Some(value as u64 + 10));
    }
}

#[test]
fn hex_digit_value_refuses_other_characters() {
    for other in ['g', 'G', '/', ':', '@', '`', ' ', '+', '-', 'x', '\u{e9}', '\u{ff11}'] {
        assert_eq!(hex_digit_value(other), None);
    }
}
