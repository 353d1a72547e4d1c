use regex_bench::corpus::email_text;
use regex_bench::corpus::get_email_long;
use regex_bench::corpus::get_long_text;
use regex_bench::corpus::get_medium_text;
use regex_bench::corpus::make_mixed_content_text;
use regex_bench::corpus::make_phone_test_data;
use regex_bench::corpus::make_test_string;
use regex_bench::corpus::short_text;

fn repeated_to(motif: &str, length: usize) -> String {
    motif.chars().cycle().take(length).collect()
}

#[test]
fn build_repeated_scenario() {
    assert_eq!(make_test_string(10, "abc"), "abcabcabca");
}

#[test]
fn build_repeated_zero_length() {
    assert_eq!(make_test_string(0, "abc"), "");
    assert_eq!(make_test_string(0, ""), "");
}

#[test]
fn build_repeated_empty_motif() {
    assert_eq!(make_test_string(17, ""), "");
}

#[test]
fn build_repeated_exact_length_and_content() {
    for &(length, motif) in &[
        (1usize, "x"),
        (5, "ab"),
        (6, "ab"),
        (26, "abcdefghijklmnopqrstuvwxyz"),
        (100, "abc123XYZ"),
        (10000, "abcdefghijklmnopqrstuvwxyz"),
    ] {
        let out = make_test_string(length, motif);
        assert_eq!(out.len(), length);
        assert_eq!(out, repeated_to(motif, length));
    }
}

#[test]
fn build_repeated_whole_copies_only() {
    assert_eq!(make_test_string(6, "ab"), "ababab");
}

#[test]
fn mixed_content_prefix_and_length() {
    assert_eq!(make_mixed_content_text(0), "");
    assert_eq!(make_mixed_content_text(10), "User123 se");
    let motif =
        "User123 sent email to user456@domain.com with ID abc789! Status: ACTIVE_2024 (priority=HIGH). ";
    let out = make_mixed_content_text(250);
    assert_eq!(out.len(), 250);
    assert_eq!(out, repeated_to(motif, 250));
}

#[test]
fn derived_texts_match_repeats() {
    assert_eq!(get_medium_text(), short_text().repeat(10));
    assert_eq!(get_long_text(), short_text().repeat(100));
    assert_eq!(get_email_long(), email_text().repeat(5));
    assert_eq!(
        short_text(),
        "hello world this is a test with hello again and hello there"
    );
}

#[test]
fn phone_test_data_blocks() {
    assert_eq!(make_phone_test_data(0), "");
    let two = make_phone_test_data(2);
    let expected = format!(
        "{}{}{}{}{}{}",
        " Contact us at ",
        "555-123-4567",
        " or email support@company.com for assistance. ",
        " Contact us at ",
        "(555) 123-4567",
        " or email support@company.com for assistance. "
    );
    assert_eq!(two, expected);
}

#[test]
fn phone_test_data_cycles_formats() {
    let ten = make_phone_test_data(10);
    // After eight formats the cycle starts over.
    assert_eq!(ten.matches("555-123-4567").count(), 2 + 1);
    // "+1-555-123-4567" contains "555-123-4567", hence the extra count above.
    assert_eq!(ten.matches("(555) 123-4567").count(), 2);
    assert_eq!(ten.matches("5551234567").count(), 1);
}
