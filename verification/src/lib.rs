//! Strongly-typed, validated IATA aviation identifier codes.
//!
//! Each of the five value types (aircraft type code, airline designator,
//! airport code, city code, flight number) checks IATA's character-set and
//! length rules once, at construction, and then offers cheap access to the
//! underlying text, bytes or number, together with structural equality and
//! byte-lexicographic (or numeric) ordering.

pub mod ascii;
pub mod decimal;
pub mod aircraft;
pub mod airline;
pub mod airport;
pub mod city;
pub mod flight;

pub use aircraft::AircraftCode;
pub use aircraft::AircraftCodeParseError;
pub use airline::AirlineCode;
pub use airline::AirlineCodeParseError;
pub use airport::AirportCode;
pub use airport::AirportCodeParseError;
pub use city::CityCode;
pub use city::CityCodeParseError;
pub use flight::FlightNumber;
pub use flight::FlightNumberParseError;
