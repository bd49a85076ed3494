use covid_records::counts::{parse_count, CountError};

#[test]
fn empty_cell_is_absent_not_zero() {
    assert_eq!(parse_count(""), Ok(None));
    assert_ne!(parse_count(""), Ok(Some(0)));
}

#[test]
fn decodes_plain_values_exactly() {
    assert_eq!(parse_count("0"), Ok(Some(0)));
    assert_eq!(parse_count("48"), Ok(Some(48)));
    assert_eq!(parse_count("100"), Ok(Some(100)));
    assert_eq!(parse_count("007"), Ok(Some(7)));
}

#[test]
fn decodes_the_widest_value() {
    assert_eq!(parse_count("18446744073709551615"), Ok(Some(u64::MAX)));
}

#[test]
fn rejects_values_past_the_widest() {
    assert_eq!(parse_count("18446744073709551616"), Err(CountError));
    assert_eq!(parse_count("99999999999999999999999"), Err(CountError));
}

#[test]
fn allows_one_leading_plus() {
    assert_eq!(parse_count("+5"), Ok(Some(5)));
    assert_eq!(parse_count("+"), Err(CountError));
    assert_eq!(parse_count("++1"), Err(CountError));
}

#[test]
fn rejects_non_numeric_text() {
    assert_eq!(parse_count("abc"), Err(CountError));
    assert_eq!(parse_count("4x"), Err(CountError));
    assert_eq!(parse_count("-1"), Err(CountError));
    assert_eq!(parse_count("4.5"), Err(CountError));
}

#[test]
fn rejects_whitespace_only_cells() {
    assert_eq!(parse_count(" "), Err(CountError));
    assert_eq!(parse_count(" 1"), Err(CountError));
    assert_eq!(parse_count("1 "), Err(CountError));
}
