use tictactoe::input::{parse_field, InputError};

#[test]
fn plain_pairs() {
    assert_eq!(parse_field("1,2"), Ok((1, 2)));
    assert_eq!(parse_field("0,0"), Ok((0, 0)));
    assert_eq!(parse_field("2,1\n"), Ok((2, 1)));
}

#[test]
fn whitespace_around_fields() {
    assert_eq!(parse_field("  2 ,  0  \r\n"), Ok((2, 0)));
    assert_eq!(parse_field("\t1,\u{a0}1"), Ok((1, 1)));
}

#[test]
fn signs_and_leading_zeros() {
    assert_eq!(parse_field("+1,002"), Ok((1, 2)));
    assert_eq!(parse_field("-0,1"), Ok((0, 1)));
    assert_eq!(parse_field("-1,1"), Err(InputError::OutOfRange));
    assert_eq!(parse_field("+,1"), Err(InputError::OutOfRange));
}

#[test]
fn a_third_field_is_refused() {
    assert_eq!(parse_field("1,2,9"), Err(InputError::NotAPair));
    assert_eq!(parse_field("0,1,"), Err(InputError::NotAPair));
    assert_eq!(parse_field("1,3,0"), Err(InputError::OutOfRange));
}

#[test]
fn missing_comma() {
    assert_eq!(parse_field("1"), Err(InputError::NotAPair));
    assert_eq!(parse_field("2\n"), Err(InputError::NotAPair));
}

#[test]
fn bad_row_is_reported_before_missing_comma() {
    assert_eq!(parse_field("3"), Err(InputError::OutOfRange));
    assert_eq!(parse_field(""), Err(InputError::OutOfRange));
    assert_eq!(parse_field("abc"), Err(InputError::OutOfRange));
}

#[test]
fn out_of_range_or_malformed_fields() {
    assert_eq!(parse_field("3,1"), Err(InputError::OutOfRange));
    assert_eq!(parse_field("1,3"), Err(InputError::OutOfRange));
    assert_eq!(parse_field("1,"), Err(InputError::OutOfRange));
    assert_eq!(parse_field("1 1,1"), Err(InputError::OutOfRange));
    assert_eq!(parse_field("1,x"), Err(InputError::OutOfRange));
    assert_eq!(parse_field("99999999999,1"), Err(InputError::OutOfRange));
    assert_eq!(parse_field("10,1"), Err(InputError::OutOfRange));
}
