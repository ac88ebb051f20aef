use iata_types::AircraftCode;
use iata_types::AircraftCodeParseError;
use iata_types::AirlineCode;
use iata_types::AirlineCodeParseError;
use iata_types::AirportCode;
use iata_types::AirportCodeParseError;
use iata_types::CityCode;
use iata_types::CityCodeParseError;

#[test]
fn airport_parse_round_trip() {
    let c = AirportCode::from_str("JFK").unwrap();
    assert_eq!(c.as_str(), "JFK");
    assert_eq!(c.display(), "JFK");
    assert_eq!(c.as_bytes(), b"JFK");
}

#[test]
fn airport_rejects_lowercase() {
    assert_eq!(
        AirportCode::from_str("jfk").unwrap_err(),
        AirportCodeParseError::InvalidCharacter('j')
    );
}

#[test]
fn airport_rejects_digit() {
    assert_eq!(
        AirportCode::from_str("JF1").unwrap_err(),
        AirportCodeParseError::InvalidCharacter('1')
    );
}

#[test]
fn airport_length_gate_precedes_character_check() {
    assert_eq!(
        AirportCode::from_str("jfkx").unwrap_err(),
        AirportCodeParseError::InvalidLength(4)
    );
    assert_eq!(
        AirportCode::from_str("jf").unwrap_err(),
        AirportCodeParseError::InvalidLength(2)
    );
    assert_eq!(
        AirportCode::from_str("").unwrap_err(),
        AirportCodeParseError::InvalidLength(0)
    );
}

#[test]
fn airport_length_is_in_bytes() {
    // 'é' takes two bytes, so the text is 4 bytes long although 3 characters.
    assert_eq!(
        AirportCode::from_str("JFé").unwrap_err(),
        AirportCodeParseError::InvalidLength(4)
    );
    // Two characters but exactly 3 bytes: the character scan reports 'é'.
    assert_eq!(
        AirportCode::from_str("Jé").unwrap_err(),
        AirportCodeParseError::InvalidCharacter('é')
    );
}

#[test]
fn airport_reconstruction_equivalence() {
    let c = AirportCode::from_str("LAX").unwrap();
    let r = AirportCode::from_bytes_unchecked(c.as_bytes());
    assert_eq!(r, c);
    assert_eq!(r.as_str(), "LAX");
}

#[test]
fn airport_ordering_matches_bytes() {
    let a = AirportCode::from_str("AAA").unwrap();
    let b = AirportCode::from_str("AAB").unwrap();
    let c = AirportCode::from_str("ZRH").unwrap();
    assert!(a < b);
    assert!(b < c);
    assert_eq!(a < b, a.as_bytes() < b.as_bytes());
    assert_eq!(c < a, c.as_bytes() < a.as_bytes());
    let mut v = vec![c, a, b];
    v.sort();
    assert_eq!(v, vec![a, b, c]);
}

#[test]
fn airport_error_messages() {
    assert_eq!(
        AirportCode::from_str("JFKX").unwrap_err().message(),
        "invalid length: 4, expected 3"
    );
    assert_eq!(
        AirportCode::from_str("jfk").unwrap_err().message(),
        "invalid character: j, expected A-Z0-9"
    );
}

#[test]
fn city_parse_round_trip() {
    let c = CityCode::from_str("NYC").unwrap();
    assert_eq!(c.as_str(), "NYC");
    assert_eq!(c.as_bytes(), b"NYC");
    let r = CityCode::from_bytes_unchecked(c.as_bytes());
    assert_eq!(r, c);
}

#[test]
fn city_rejects_digit_and_lowercase() {
    assert_eq!(
        CityCode::from_str("NY1").unwrap_err(),
        CityCodeParseError::InvalidCharacter('1')
    );
    assert_eq!(
        CityCode::from_str("nyc").unwrap_err(),
        CityCodeParseError::InvalidCharacter('n')
    );
    assert_eq!(
        CityCode::from_str("NYCX").unwrap_err(),
        CityCodeParseError::InvalidLength(4)
    );
}

#[test]
fn city_error_messages() {
    assert_eq!(
        CityCode::from_str("N").unwrap_err().message(),
        "invalid length: 1, expected 3"
    );
    assert_eq!(
        CityCode::from_str("NY1").unwrap_err().message(),
        "invalid character: 1, expected A-Z0-9"
    );
}

#[test]
fn aircraft_accepts_digits() {
    let c = AircraftCode::from_str("73G").unwrap();
    assert_eq!(c.as_str(), "73G");
    assert_eq!(c.display(), "73G");
    let r = AircraftCode::from_bytes_unchecked(c.as_bytes());
    assert_eq!(r, c);
}

#[test]
fn aircraft_rejects_lowercase() {
    assert_eq!(
        AircraftCode::from_str("73g").unwrap_err(),
        AircraftCodeParseError::InvalidCharacter('g')
    );
}

#[test]
fn aircraft_length_gate() {
    assert_eq!(
        AircraftCode::from_str("7777").unwrap_err(),
        AircraftCodeParseError::InvalidLength(4)
    );
    assert_eq!(
        AircraftCode::from_str("73").unwrap_err(),
        AircraftCodeParseError::InvalidLength(2)
    );
}

#[test]
fn aircraft_ordering_matches_bytes() {
    let a = AircraftCode::from_str("320").unwrap();
    let b = AircraftCode::from_str("73G").unwrap();
    assert!(a < b);
    assert_eq!(a < b, a.as_bytes() < b.as_bytes());
}

#[test]
fn airline_parse_round_trip() {
    let c = AirlineCode::from_str("AA").unwrap();
    assert_eq!(c.as_str(), "AA");
    assert_eq!(c.display(), "AA");
    assert_eq!(c.as_bytes(), b"AA");
    let r = AirlineCode::from_bytes_unchecked(c.as_bytes());
    assert_eq!(r, c);
}

#[test]
fn airline_accepts_digits() {
    let c = AirlineCode::from_str("U2").unwrap();
    assert_eq!(c.as_str(), "U2");
}

#[test]
fn airline_rejects_three_characters() {
    assert_eq!(
        AirlineCode::from_str("AA1").unwrap_err(),
        AirlineCodeParseError::InvalidLength(3)
    );
}

#[test]
fn airline_rejects_lowercase() {
    assert_eq!(
        AirlineCode::from_str("a1").unwrap_err(),
        AirlineCodeParseError::InvalidCharacter('a')
    );
}

#[test]
fn airline_ordering_matches_bytes() {
    let a = AirlineCode::from_str("AA").unwrap();
    let b = AirlineCode::from_str("AB").unwrap();
    let c = AirlineCode::from_str("U2").unwrap();
    assert!(a < b);
    assert_eq!(b < c, b.as_bytes() < c.as_bytes());
    assert_eq!(c < a, c.as_bytes() < a.as_bytes());
}

#[test]
fn airline_error_messages() {
    assert_eq!(
        AirlineCode::from_str("AA1").unwrap_err().message(),
        "invalid length: 3, expected 2"
    );
    assert_eq!(
        AirlineCode::from_str("a1").unwrap_err().message(),
        "invalid character: a, expected A-Z0-9"
    );
}

#[test]
fn codes_parse_through_from_str_trait() {
    let a: AirportCode = "JFK".parse().unwrap();
    assert_eq!(a.as_str(), "JFK");
    let c: CityCode = "PAR".parse().unwrap();
    assert_eq!(c.as_str(), "PAR");
    let t: AircraftCode = "388".parse().unwrap();
    assert_eq!(t.as_str(), "388");
    let l: AirlineCode = "LH".parse().unwrap();
    assert_eq!(l.as_str(), "LH");
    assert!("lh".parse::<AirlineCode>().is_err());
}
