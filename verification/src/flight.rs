//! Flight numbers: the numeric part of a flight designator.

use vstd::prelude::*;
use vstd::string::StrSliceExecFns;
use vstd::string::StringExecFns;
use vstd::std_specs::cmp::PartialOrdSpec;
use core::cmp::Ordering;
use crate::ascii;
use crate::decimal;

verus! {

/// The numeric part of a flight designator, always in `1 ..= 9999`.
///
/// Every live value satisfies [`FlightNumber::wf`], established by the
/// constructors; zero and values above 9999 are unrepresentable.
#[derive(Debug, Clone, Copy, PartialEq, Eq, Structural, Hash, Ord)]
pub struct FlightNumber(u16);

impl View for FlightNumber {
    type V = u16;

    closed spec fn view(&self) -> u16 {
        self.0
    }
}

/// Why a piece of text or a number is not a flight number.
#[derive(Debug, Clone, Copy, PartialEq, Eq, Structural)]
pub enum FlightNumberParseError {
    /// The text does not read as an unsigned 16-bit number at all.
    NotANumber,
    /// The number read, but lies outside `1 ..= 9999`.
    InvalidNumber,
}

/// The four zero-padded decimal digit characters of a flight number.
pub open spec fn flight_display(v: u16) -> Seq<char> {
    seq![
        decimal::digit_byte(v as int / 1000 % 10) as char,
        decimal::digit_byte(v as int / 100 % 10) as char,
        decimal::digit_byte(v as int / 10 % 10) as char,
        decimal::digit_byte(v as int % 10) as char,
    ]
}

impl FlightNumber {
    /// The stored value lies in `1 ..= 9999`.
    pub open spec fn wf(self) -> bool {
        1 <= self@ <= 9999
    }

    /// The stored value.
    pub fn to_u16(&self) -> (r: u16)
        ensures
            r == self@,
    {
        self.0
    }

    /// Validates an already-in-hand number: it must lie in `1 ..= 9999`.
    pub fn from_u16(num: u16) -> (r: Result<FlightNumber, FlightNumberParseError>)
        ensures
            r is Ok <==> 1 <= num <= 9999,
            r matches Ok(f) ==> f@ == num && f.wf(),
            !(1 <= num <= 9999) ==> r == Err::<FlightNumber, _>(
                FlightNumberParseError::InvalidNumber,
            ),
    {
        if num >= 1 && num <= 9999 {
            return Ok(FlightNumber(num));
        }
        Err(FlightNumberParseError::InvalidNumber)
    }

    /// Reads `value` as an unsigned base-10 number (an optional leading `+`,
    /// then decimal digits, fitting in 16 bits), then checks the range
    /// `1 ..= 9999`. Text that does not read as a number is `NotANumber`; a
    /// number outside the range is `InvalidNumber`.
    pub fn from_str(value: &str) -> (r: Result<FlightNumber, FlightNumberParseError>)
        ensures
            r is Ok <==> (decimal::is_u16_numeral(value@) && 1 <= decimal::numeral_value(value@)
                <= 9999),
            r matches Ok(f) ==> f@ as int == decimal::numeral_value(value@) && f.wf(),
            !decimal::is_u16_numeral(value@) ==> r == Err::<FlightNumber, _>(
                FlightNumberParseError::NotANumber,
            ),
            decimal::is_u16_numeral(value@) && !(1 <= decimal::numeral_value(value@) <= 9999)
                ==> r == Err::<FlightNumber, _>(FlightNumberParseError::InvalidNumber),
    {
        let n = value.unicode_len();
        let mut i: usize = 0;
        if n > 0 && value.get_char(0) == '+' {
            i = 1;
        }
        let ghost d = decimal::numeral_digits(value@);
        let ghost start = i as int;
        proof {
            assert(d =~= value@.skip(start));
        }
        if i == n {
            return Err(FlightNumberParseError::NotANumber);
        }
        let mut acc: u32 = 0;
        while i < n
            invariant
                n == value@.len(),
                0 <= start <= i as int <= n,
                start <= 1,
                d == decimal::numeral_digits(value@),
                d == value@.skip(start),
                decimal::all_decimal(d.take(i as int - start)),
                acc as int == decimal::digits_value(d.take(i as int - start)),
                acc <= 0xFFFF,
            decreases n - i,
        {
            let c = value.get_char(i);
            let u = c as u32;
            let ghost k = i as int - start;
            proof {
                assert(d[k] == value@[i as int]);
            }
            if !(0x30 <= u && u <= 0x39) {
                return Err(FlightNumberParseError::NotANumber);
            }
            acc = acc * 10 + (u - 0x30);
            proof {
                assert(d.take(k + 1).drop_last() =~= d.take(k));
                assert(d.take(k + 1).last() == d[k]);
                assert forall|j: int| 0 <= j < k + 1 implies ascii::is_decimal(
                    #[trigger] d.take(k + 1)[j],
                ) by {
                    if j < k {
                        assert(d.take(k)[j] == d.take(k + 1)[j]);
                        assert(ascii::is_decimal(d.take(k)[j]));
                    }
                }
            }
            if acc > 0xFFFF {
                proof {
                    if decimal::is_u16_numeral(value@) {
                        decimal::lemma_digits_value_prefix(d, k + 1);
                    }
                }
                return Err(FlightNumberParseError::NotANumber);
            }
            i = i + 1;
        }
        proof {
            assert(d.take(n as int - start) =~= d);
        }
        let num = acc as u16;
        FlightNumber::from_u16(num)
    }

    /// The number rendered as exactly four decimal digits, zero-padded.
    pub fn display(&self) -> (r: String)
        requires
            self.wf(),
        ensures
            r@ == flight_display(self@),
    {
        let v = self.0;
        let mut buf: Vec<u8> = Vec::new();
        buf.push(0x30 + (v / 1000 % 10) as u8);
        buf.push(0x30 + (v / 100 % 10) as u8);
        buf.push(0x30 + (v / 10 % 10) as u8);
        buf.push(0x30 + (v % 10) as u8);
        proof {
            assert(buf@ =~= seq![
                decimal::digit_byte(v as int / 1000 % 10),
                decimal::digit_byte(v as int / 100 % 10),
                decimal::digit_byte(v as int / 10 % 10),
                decimal::digit_byte(v as int % 10),
            ]);
            assert(forall|i: int| 0 <= i < buf@.len() ==> buf@[i] < 0x80);
        }
        let s = ascii::str_from_ascii(buf.as_slice());
        proof {
            assert(s@[0] == buf@[0] as char);
            assert(s@[1] == buf@[1] as char);
            assert(s@[2] == buf@[2] as char);
            assert(s@[3] == buf@[3] as char);
            assert(s@ =~= flight_display(self@));
        }
        String::from_str(s)
    }
}

impl core::str::FromStr for FlightNumber {
    type Err = FlightNumberParseError;

    /// Delegates to the inherent [`FlightNumber::from_str`], which carries the
    /// contract.
    fn from_str(value: &str) -> Result<FlightNumber, FlightNumberParseError> {
        FlightNumber::from_str(value)
    }
}

impl PartialOrd for FlightNumber {
    fn partial_cmp(&self, other: &FlightNumber) -> (r: Option<Ordering>) {
        if self.0 < other.0 {
            Some(Ordering::Less)
        } else if self.0 == other.0 {
            Some(Ordering::Equal)
        } else {
            Some(Ordering::Greater)
        }
    }
}

impl vstd::std_specs::cmp::PartialOrdSpecImpl for FlightNumber {
    open spec fn obeys_partial_cmp_spec() -> bool {
        true
    }

    open spec fn partial_cmp_spec(&self, other: &FlightNumber) -> Option<Ordering> {
        if self@ < other@ {
            Some(Ordering::Less)
        } else if self@ == other@ {
            Some(Ordering::Equal)
        } else {
            Some(Ordering::Greater)
        }
    }
}

/// Flight numbers with the same stored value are the same flight number, so
/// rebuilding one from its own `to_u16` value yields an equal value.
pub proof fn lemma_value_determines_flight_number(a: FlightNumber, b: FlightNumber)
    requires
        a@ == b@,
    ensures
        a == b,
{
}

/// Two flight numbers compare exactly as their numeric values compare.
pub proof fn lemma_flight_order_is_numeric(a: FlightNumber, b: FlightNumber)
    ensures
        a.partial_cmp_spec(&b) == Some(Ordering::Less) <==> a@ < b@,
        a.partial_cmp_spec(&b) == Some(Ordering::Equal) <==> a == b,
        a.partial_cmp_spec(&b) == Some(Ordering::Greater) <==> a@ > b@,
{
}

/// Rendering a flight number as its zero-padded four digits and reading the
/// rendering back as a number yields the same flight number.
pub proof fn lemma_flight_display_round_trip(f: FlightNumber)
    requires
        f.wf(),
    ensures
        decimal::is_u16_numeral(flight_display(f@)),
        decimal::numeral_value(flight_display(f@)) == f@ as int,
{
    reveal_with_fuel(decimal::digits_value, 6);
    let v = f@ as int;
    let s = flight_display(f@);
    assert(s[0] != '+');
    assert(decimal::numeral_digits(s) == s);
    assert(decimal::all_decimal(s));
    let s3 = s.drop_last();
    let s2 = s3.drop_last();
    let s1 = s2.drop_last();
    let s0 = s1.drop_last();
    assert(s0.len() == 0);
    assert(s1 =~= seq![s[0]]);
    assert(s2 =~= seq![s[0], s[1]]);
    assert(s3 =~= seq![s[0], s[1], s[2]]);
    assert(decimal::digits_value(s1) == v / 1000 % 10);
    assert(decimal::digits_value(s2) == (v / 1000 % 10) * 10 + v / 100 % 10);
    assert(decimal::digits_value(s3) == ((v / 1000 % 10) * 10 + v / 100 % 10) * 10 + v / 10
        % 10);
    assert(decimal::digits_value(s) == (((v / 1000 % 10) * 10 + v / 100 % 10) * 10 + v / 10 % 10)
        * 10 + v % 10);
    assert(v / 1000 % 10 == v / 1000 && v / 1000 <= 9) by {
        assert(1 <= v <= 9999);
    }
    assert((((v / 1000) * 10 + v / 100 % 10) * 10 + v / 10 % 10) * 10 + v % 10 == v) by {
        assert(v / 100 % 10 == v / 100 - (v / 1000) * 10);
        assert(v / 10 % 10 == v / 10 - (v / 100) * 10);
        assert(v % 10 == v - (v / 10) * 10);
    }
}

impl FlightNumberParseError {
    /// The human-readable description of the failure.
    pub fn message(&self) -> (r: String)
        ensures
            match *self {
                FlightNumberParseError::NotANumber => r@ == "not a number"@,
                FlightNumberParseError::InvalidNumber => r@
                    == "invalid number, expect 0001 to 9999"@,
            },
    {
        match self {
            FlightNumberParseError::NotANumber => String::from_str("not a number"),
            FlightNumberParseError::InvalidNumber => String::from_str(
                "invalid number, expect 0001 to 9999",
            ),
        }
    }
}

} // verus!
