use caller_id::parser::parse_caller_id;

#[test]
fn nmbr_marker_extracts_digit_run() {
    assert_eq!(parse_caller_id("NMBR=5551234567"), Some("5551234567".to_string()));
}

#[test]
fn nmbr_marker_is_case_insensitive() {
    assert_eq!(parse_caller_id("nmbr=5551234567"), Some("5551234567".to_string()));
    assert_eq!(parse_caller_id("NmBr=5551234567"), Some("5551234567".to_string()));
}

#[test]
fn nmbr_marker_takes_maximal_leading_run_only() {
    assert_eq!(parse_caller_id("NMBR=5551234567x999"), Some("5551234567".to_string()));
}

#[test]
fn nmbr_marker_run_has_no_upper_bound() {
    assert_eq!(
        parse_caller_id("NMBR=12345678901234567890"),
        Some("12345678901234567890".to_string())
    );
}

#[test]
fn number_marker_extracts_digit_run() {
    assert_eq!(parse_caller_id("NUMBER=0123456789"), Some("0123456789".to_string()));
    assert_eq!(parse_caller_id("number=0123456789"), Some("0123456789".to_string()));
}

#[test]
fn marker_embedded_in_line_is_found() {
    assert_eq!(parse_caller_id("DATE=0101 NMBR=5551234567 END"), Some("5551234567".to_string()));
}

#[test]
fn short_marker_run_falls_through_to_fallback() {
    // After `NMBR=` only nine digits follow, so the marker branch yields
    // nothing; the fallback gathers every digit of the line.
    assert_eq!(parse_caller_id("1NMBR=555123456"), Some("1555123456".to_string()));
}

#[test]
fn first_marker_occurrence_wins() {
    // The first `NMBR=` is followed by one digit only, so the marker branch
    // yields nothing even though a later occurrence has ten; the fallback
    // then collects all eleven digits.
    assert_eq!(parse_caller_id("NMBR=1NMBR=1234567890"), Some("11234567890".to_string()));
}

#[test]
fn fallback_strips_non_digits() {
    assert_eq!(parse_caller_id("(555) 123-4567"), Some("5551234567".to_string()));
    assert_eq!(parse_caller_id("+90 555 123 45 67"), Some("905551234567".to_string()));
}

#[test]
fn fallback_accepts_ten_to_fifteen_digits() {
    assert_eq!(parse_caller_id("1234567890"), Some("1234567890".to_string()));
    assert_eq!(parse_caller_id("123456789012345"), Some("123456789012345".to_string()));
}

#[test]
fn fallback_rejects_too_few_or_too_many_digits() {
    assert_eq!(parse_caller_id("123456789"), None);
    assert_eq!(parse_caller_id("1234567890123456"), None);
}

#[test]
fn empty_and_plain_lines_do_not_parse() {
    assert_eq!(parse_caller_id(""), None);
    assert_eq!(parse_caller_id("RING"), None);
    assert_eq!(parse_caller_id("NMBR="), None);
}
