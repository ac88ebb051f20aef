//! 2-character IATA airline designators.

use vstd::prelude::*;
use vstd::string::StrSliceExecFns;
use vstd::string::StringExecFns;
use vstd::string::StringSliceAdditionalSpecFns;
use vstd::std_specs::cmp::PartialOrdSpec;
use core::cmp::Ordering;
use crate::ascii;
use crate::decimal;

verus! {

broadcast use vstd::array::group_array_axioms;

/// A 2-character alphanumeric designator identifying an airline, as issued
/// under IATA Resolution 762 for reservations, timetables, tickets, tariffs
/// and air waybills.
///
/// Holds exactly two uppercase ASCII letters or digits; every live value
/// satisfies [`AirlineCode::wf`], established by the constructors.
#[derive(Debug, Clone, Copy, Eq, Hash, Ord)]
pub struct AirlineCode([u8; 2]);

impl View for AirlineCode {
    type V = Seq<u8>;

    closed spec fn view(&self) -> Seq<u8> {
        self.0@
    }
}

/// Why a piece of text is not an airline designator.
#[derive(Debug, Clone, Copy, PartialEq, Eq)]
pub enum AirlineCodeParseError {
    /// The text's length in bytes, which is not 2.
    InvalidLength(usize),
    /// The first character that is not an uppercase letter or digit.
    InvalidCharacter(char),
}

impl AirlineCode {
    /// The stored bytes: two uppercase ASCII letters or digits.
    pub open spec fn wf(self) -> bool {
        forall|i: int| 0 <= i < self@.len() ==> ascii::is_code_byte(#[trigger] self@[i], true)
    }

    /// The stored bytes read as text.
    pub open spec fn text(self) -> Seq<char> {
        self@.map(|_i: int, b: u8| b as char)
    }

    /// Validates `value` as an airline designator: exactly 2 bytes long,
    /// every character an uppercase ASCII letter or a digit. The length is
    /// checked first, so a short or long input is reported as a length error
    /// even when it also holds characters outside the alphabet.
    pub fn from_str(value: &str) -> (r: Result<AirlineCode, AirlineCodeParseError>)
        ensures
            r is Ok <==> ascii::valid_code_text(value@, 2, true),
            r matches Ok(code) ==> code@ == ascii::char_bytes(value@) && code.text() == value@
                && code.wf(),
            ({
                let bl = value.spec_bytes().len() as usize;
                &&& bl != 2 ==> r == Err::<AirlineCode, _>(
                    AirlineCodeParseError::InvalidLength(bl),
                )
                &&& bl == 2 ==> match ascii::first_invalid(value@, true) {
                    Some(c) => r == Err::<AirlineCode, _>(
                        AirlineCodeParseError::InvalidCharacter(c),
                    ),
                    None => r is Ok,
                }
            }),
    {
        proof {
            ascii::lemma_first_invalid_none(value@, true);
            if ascii::valid_code_text(value@, 2, true) {
                ascii::lemma_code_text_ascii(value@, true);
                vstd::string::is_ascii_spec_bytes(value);
            }
        }
        let len = value.len();
        if len != 2 {
            return Err(AirlineCodeParseError::InvalidLength(len));
        }
        match ascii::find_invalid_char(value, true) {
            Some(c) => Err(AirlineCodeParseError::InvalidCharacter(c)),
            None => {
                proof {
                    ascii::lemma_code_text_ascii(value@, true);
                    vstd::string::is_ascii_spec_bytes(value);
                }
                let code = AirlineCode([value.get_ascii(0), value.get_ascii(1)]);
                proof {
                    assert(code@ =~= ascii::char_bytes(value@));
                    assert(code.text() =~= value@);
                }
                Ok(code)
            },
        }
    }

    /// The stored text, without allocating.
    pub fn as_str(&self) -> (r: &str)
        requires
            self.wf(),
        ensures
            r@ == self.text(),
    {
        proof {
            assert forall|i: int| 0 <= i < self@.len() implies self@[i] < 0x80 by {
                assert(ascii::is_code_byte(self@[i], true));
            }
        }
        let s = ascii::str_from_ascii(self.0.as_slice());
        proof {
            assert(s@ =~= self.text());
        }
        s
    }

    /// The raw stored bytes.
    pub fn as_bytes(&self) -> (r: &[u8])
        ensures
            r@ == self@,
    {
        self.0.as_slice()
    }

    /// Rebuilds a designator from bytes previously obtained from
    /// [`AirlineCode::as_bytes`], without re-validating: the caller owes
    /// exactly 2 bytes, each an uppercase ASCII letter or digit.
    pub fn from_bytes_unchecked(bytes: &[u8]) -> (r: AirlineCode)
        requires
            bytes@.len() == 2,
            forall|i: int| 0 <= i < bytes@.len() ==> ascii::is_code_byte(#[trigger] bytes@[i], true),
        ensures
            r@ == bytes@,
            r.wf(),
    {
        let code = AirlineCode([bytes[0], bytes[1]]);
        proof {
            assert(code@ =~= bytes@);
        }
        code
    }

    /// The designator rendered for people: exactly the stored text.
    pub fn display(&self) -> (r: String)
        requires
            self.wf(),
        ensures
            r@ == self.text(),
    {
        String::from_str(self.as_str())
    }
}

impl core::str::FromStr for AirlineCode {
    type Err = AirlineCodeParseError;

    /// Delegates to the inherent [`AirlineCode::from_str`], which carries the
    /// contract.
    fn from_str(value: &str) -> Result<AirlineCode, AirlineCodeParseError> {
        AirlineCode::from_str(value)
    }
}

impl PartialEq for AirlineCode {
    fn eq(&self, other: &AirlineCode) -> (r: bool) {
        let r = self.0[0] == other.0[0] && self.0[1] == other.0[1];
        proof {
            if r {
                assert(self@ =~= other@);
            } else {
                assert(self@ != other@);
            }
        }
        r
    }
}

impl vstd::std_specs::cmp::PartialEqSpecImpl for AirlineCode {
    open spec fn obeys_eq_spec() -> bool {
        true
    }

    open spec fn eq_spec(&self, other: &AirlineCode) -> bool {
        self@ == other@
    }
}

impl PartialOrd for AirlineCode {
    fn partial_cmp(&self, other: &AirlineCode) -> (r: Option<Ordering>) {
        proof {
            ascii::lemma_lex_lt2(self@, other@);
        }
        if self.0[0] != other.0[0] {
            if self.0[0] < other.0[0] {
                Some(Ordering::Less)
            } else {
                Some(Ordering::Greater)
            }
        } else if self.0[1] != other.0[1] {
            if self.0[1] < other.0[1] {
                Some(Ordering::Less)
            } else {
                Some(Ordering::Greater)
            }
        } else {
            proof {
                assert(self@ =~= other@);
            }
            Some(Ordering::Equal)
        }
    }
}

impl vstd::std_specs::cmp::PartialOrdSpecImpl for AirlineCode {
    open spec fn obeys_partial_cmp_spec() -> bool {
        true
    }

    open spec fn partial_cmp_spec(&self, other: &AirlineCode) -> Option<Ordering> {
        if self@ == other@ {
            Some(Ordering::Equal)
        } else if ascii::lex_lt(self@, other@) {
            Some(Ordering::Less)
        } else {
            Some(Ordering::Greater)
        }
    }
}

/// Designators with equal raw bytes are the same designator, so rebuilding
/// one from its own bytes yields a value equal to the original.
pub proof fn lemma_bytes_determine_airline_code(a: AirlineCode, b: AirlineCode)
    requires
        a@ == b@,
    ensures
        a == b,
{
    assert(a.0 =~= b.0);
}

/// Two airline designators compare exactly as their raw bytes compare
/// lexicographically: `a` is below `b` if and only if `a`'s bytes are.
pub proof fn lemma_airline_order_is_byte_order(a: AirlineCode, b: AirlineCode)
    ensures
        a.partial_cmp_spec(&b) == Some(Ordering::Less) <==> ascii::lex_lt(a@, b@),
        a.partial_cmp_spec(&b) == Some(Ordering::Equal) <==> a == b,
        a.partial_cmp_spec(&b) == Some(Ordering::Greater) <==> ascii::lex_lt(b@, a@),
{
    ascii::lemma_lex_lt2(a@, b@);
    ascii::lemma_lex_lt2(b@, a@);
    if a@ == b@ {
        lemma_bytes_determine_airline_code(a, b);
    }
    if !(a@ == b@) {
        assert(!(a@ =~= b@));
    }
}

impl AirlineCodeParseError {
    /// The human-readable description of the failure, naming the observed
    /// length or the offending character.
    pub fn message(&self) -> (r: String)
        ensures
            match *self {
                AirlineCodeParseError::InvalidLength(n) => r@ == "invalid length: "@
                    + decimal::dec_chars(n as nat) + ", expected 2"@,
                AirlineCodeParseError::InvalidCharacter(c) => r@ == "invalid character: "@
                    + seq![c] + ", expected A-Z0-9"@,
            },
    {
        match self {
            AirlineCodeParseError::InvalidLength(n) => {
                let mut s = String::from_str("invalid length: ");
                let d = decimal::decimal_string(*n as u64);
                s.append(d.as_str());
                s.append(", expected 2");
                s
            },
            AirlineCodeParseError::InvalidCharacter(c) => {
                let mut s = String::from_str("invalid character: ");
                ascii::push_char(&mut s, *c);
                s.append(", expected A-Z0-9");
                proof {
                    assert(("invalid character: "@).push(*c) =~= "invalid character: "@
                        + seq![*c]);
                }
                s
            },
        }
    }
}

} // verus!
