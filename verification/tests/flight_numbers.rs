use iata_types::FlightNumber;
use iata_types::FlightNumberParseError;

#[test]
fn parse_and_display() {
    let f = FlightNumber::from_str("123").unwrap();
    assert_eq!(f.to_u16(), 123);
    assert_eq!(f.display(), "0123");
}

#[test]
fn display_is_zero_padded() {
    assert_eq!(FlightNumber::from_u16(7).unwrap().display(), "0007");
    assert_eq!(FlightNumber::from_u16(1234).unwrap().display(), "1234");
    assert_eq!(FlightNumber::from_u16(1).unwrap().display(), "0001");
    assert_eq!(FlightNumber::from_u16(9999).unwrap().display(), "9999");
}

#[test]
fn range_boundaries() {
    assert_eq!(FlightNumber::from_str("0001").unwrap().to_u16(), 1);
    assert_eq!(
        FlightNumber::from_str("0000").unwrap_err(),
        FlightNumberParseError::InvalidNumber
    );
    assert_eq!(FlightNumber::from_str("9999").unwrap().to_u16(), 9999);
    assert_eq!(
        FlightNumber::from_str("10000").unwrap_err(),
        FlightNumberParseError::InvalidNumber
    );
    assert_eq!(FlightNumber::from_u16(1).unwrap().to_u16(), 1);
    assert_eq!(
        FlightNumber::from_u16(0).unwrap_err(),
        FlightNumberParseError::InvalidNumber
    );
    assert_eq!(FlightNumber::from_u16(9999).unwrap().to_u16(), 9999);
    assert_eq!(
        FlightNumber::from_u16(10000).unwrap_err(),
        FlightNumberParseError::InvalidNumber
    );
}

#[test]
fn text_that_is_no_number() {
    assert_eq!(
        FlightNumber::from_str("abcd").unwrap_err(),
        FlightNumberParseError::NotANumber
    );
    assert_eq!(
        FlightNumber::from_str("").unwrap_err(),
        FlightNumberParseError::NotANumber
    );
    assert_eq!(
        FlightNumber::from_str("+").unwrap_err(),
        FlightNumberParseError::NotANumber
    );
    assert_eq!(
        FlightNumber::from_str("-1").unwrap_err(),
        FlightNumberParseError::NotANumber
    );
    assert_eq!(
        FlightNumber::from_str("12a").unwrap_err(),
        FlightNumberParseError::NotANumber
    );
    assert_eq!(
        FlightNumber::from_str("1 2").unwrap_err(),
        FlightNumberParseError::NotANumber
    );
}

#[test]
fn sixteen_bit_overflow_is_not_a_number() {
    // 65535 still reads as a 16-bit number, so the range check reports it;
    // 65536 no longer does.
    assert_eq!(
        FlightNumber::from_str("65535").unwrap_err(),
        FlightNumberParseError::InvalidNumber
    );
    assert_eq!(
        FlightNumber::from_str("65536").unwrap_err(),
        FlightNumberParseError::NotANumber
    );
    assert_eq!(
        FlightNumber::from_str("99999999999999999999").unwrap_err(),
        FlightNumberParseError::NotANumber
    );
}

#[test]
fn leading_plus_sign_reads_as_a_number() {
    assert_eq!(FlightNumber::from_str("+123").unwrap().to_u16(), 123);
    assert_eq!(
        FlightNumber::from_str("++1").unwrap_err(),
        FlightNumberParseError::NotANumber
    );
}

#[test]
fn display_round_trips_through_parse() {
    for n in [1u16, 7, 99, 123, 1000, 1234, 9999] {
        let f = FlightNumber::from_u16(n).unwrap();
        let back = FlightNumber::from_str(&f.display()).unwrap();
        assert_eq!(back, f);
        assert_eq!(back.to_u16(), n);
    }
}

#[test]
fn ordering_is_numeric() {
    let a = FlightNumber::from_u16(7).unwrap();
    let b = FlightNumber::from_u16(1234).unwrap();
    assert!(a < b);
    assert!(!(b < a));
    assert_eq!(a, FlightNumber::from_u16(7).unwrap());
    let mut v = vec![b, a];
    v.sort();
    assert_eq!(v, vec![a, b]);
}

#[test]
fn error_messages() {
    assert_eq!(
        FlightNumber::from_str("abcd").unwrap_err().message(),
        "not a number"
    );
    assert_eq!(
        FlightNumber::from_str("0000").unwrap_err().message(),
        "invalid number, expect 0001 to 9999"
    );
}

#[test]
fn flight_number_parses_through_from_str_trait() {
    let f: FlightNumber = "0042".parse().unwrap();
    assert_eq!(f.to_u16(), 42);
    assert!("0".parse::<FlightNumber>().is_err());
}
