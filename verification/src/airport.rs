//! 3-letter IATA airport codes.

use vstd::prelude::*;
use vstd::string::StrSliceExecFns;
use vstd::string::StringExecFns;
use vstd::string::StringSliceAdditionalSpecFns;
use vstd::std_specs::cmp::PartialOrdSpec;
use core::cmp::Ordering;
use crate::ascii;
use crate::decimal;

verus! {

broadcast use vstd::array::group_array_axioms;

/// A 3-letter code identifying a specific airport.
///
/// Holds exactly three uppercase ASCII letters; every live value satisfies
/// [`AirportCode::wf`], established by the constructors.
#[derive(Debug, Clone, Copy, Eq, Hash, Ord)]
pub struct AirportCode([u8; 3]);

impl View for AirportCode {
    type V = Seq<u8>;

    closed spec fn view(&self) -> Seq<u8> {
        self.0@
    }
}

/// Why a piece of text is not an airport code.
#[derive(Debug, Clone, Copy, PartialEq, Eq)]
pub enum AirportCodeParseError {
    /// The text's length in bytes, which is not 3.
    InvalidLength(usize),
    /// The first character that is not an uppercase letter.
    InvalidCharacter(char),
}

impl AirportCode {
    /// The stored bytes: three uppercase ASCII letters.
    pub open spec fn wf(self) -> bool {
        forall|i: int| 0 <= i < self@.len() ==> ascii::is_upper_byte(#[trigger] self@[i])
    }

    /// The stored bytes read as text.
    pub open spec fn text(self) -> Seq<char> {
        self@.map(|_i: int, b: u8| b as char)
    }

    /// Validates `value` as an airport code: exactly 3 bytes long, every
    /// character an uppercase ASCII letter. The length is checked first, so a
    /// short or long input is reported as a length error even when it also
    /// holds characters outside the alphabet.
    pub fn from_str(value: &str) -> (r: Result<AirportCode, AirportCodeParseError>)
        ensures
            r is Ok <==> ascii::valid_code_text(value@, 3, false),
            r matches Ok(code) ==> code@ == ascii::char_bytes(value@) && code.text() == value@
                && code.wf(),
            ({
                let bl = value.spec_bytes().len() as usize;
                &&& bl != 3 ==> r == Err::<AirportCode, _>(
                    AirportCodeParseError::InvalidLength(bl),
                )
                &&& bl == 3 ==> match ascii::first_invalid(value@, false) {
                    Some(c) => r == Err::<AirportCode, _>(
                        AirportCodeParseError::InvalidCharacter(c),
                    ),
                    None => r is Ok,
                }
            }),
    {
        proof {
            ascii::lemma_first_invalid_none(value@, false);
            if ascii::valid_code_text(value@, 3, false) {
                ascii::lemma_code_text_ascii(value@, false);
                vstd::string::is_ascii_spec_bytes(value);
            }
        }
        let len = value.len();
        if len != 3 {
            return Err(AirportCodeParseError::InvalidLength(len));
        }
        match ascii::find_invalid_char(value, false) {
            Some(c) => Err(AirportCodeParseError::InvalidCharacter(c)),
            None => {
                proof {
                    ascii::lemma_code_text_ascii(value@, false);
                    vstd::string::is_ascii_spec_bytes(value);
                }
                let code = AirportCode([value.get_ascii(0), value.get_ascii(1), value.get_ascii(2)]);
                proof {
                    assert(code@ =~= ascii::char_bytes(value@));
                    assert(code.text() =~= value@);
                }
                Ok(code)
            },
        }
    }

    /// The stored text, without allocating.
    pub fn as_str(&self) -> (r: &str)
        requires
            self.wf(),
        ensures
            r@ == self.text(),
    {
        proof {
            assert forall|i: int| 0 <= i < self@.len() implies self@[i] < 0x80 by {
                assert(ascii::is_upper_byte(self@[i]));
            }
        }
        let s = ascii::str_from_ascii(self.0.as_slice());
        proof {
            assert(s@ =~= self.text());
        }
        s
    }

    /// The raw stored bytes.
    pub fn as_bytes(&self) -> (r: &[u8])
        ensures
            r@ == self@,
    {
        self.0.as_slice()
    }

    /// Rebuilds a code from bytes previously obtained from [`AirportCode::as_bytes`],
    /// without re-validating: the caller owes exactly 3 bytes, each an
    /// uppercase ASCII letter.
    pub fn from_bytes_unchecked(bytes: &[u8]) -> (r: AirportCode)
        requires
            bytes@.len() == 3,
            forall|i: int| 0 <= i < bytes@.len() ==> ascii::is_upper_byte(#[trigger] bytes@[i]),
        ensures
            r@ == bytes@,
            r.wf(),
    {
        let code = AirportCode([bytes[0], bytes[1], bytes[2]]);
        proof {
            assert(code@ =~= bytes@);
        }
        code
    }

    /// The code rendered for people: exactly the stored text.
    pub fn display(&self) -> (r: String)
        requires
            self.wf(),
        ensures
            r@ == self.text(),
    {
        String::from_str(self.as_str())
    }
}

impl core::str::FromStr for AirportCode {
    type Err = AirportCodeParseError;

    /// Delegates to the inherent [`AirportCode::from_str`], which carries the
    /// contract.
    fn from_str(value: &str) -> Result<AirportCode, AirportCodeParseError> {
        AirportCode::from_str(value)
    }
}

impl PartialEq for AirportCode {
    fn eq(&self, other: &AirportCode) -> (r: bool) {
        let r = self.0[0] == other.0[0] && self.0[1] == other.0[1] && self.0[2] == other.0[2];
        proof {
            if r {
                assert(self@ =~= other@);
            } else {
                assert(self@ != other@);
            }
        }
        r
    }
}

impl vstd::std_specs::cmp::PartialEqSpecImpl for AirportCode {
    open spec fn obeys_eq_spec() -> bool {
        true
    }

    open spec fn eq_spec(&self, other: &AirportCode) -> bool {
        self@ == other@
    }
}

impl PartialOrd for AirportCode {
    fn partial_cmp(&self, other: &AirportCode) -> (r: Option<Ordering>) {
        proof {
            ascii::lemma_lex_lt3(self@, other@);
        }
        if self.0[0] != other.0[0] {
            if self.0[0] < other.0[0] {
                Some(Ordering::Less)
            } else {
                Some(Ordering::Greater)
            }
        } else if self.0[1] != other.0[1] {
            if self.0[1] < other.0[1] {
                Some(Ordering::Less)
            } else {
                Some(Ordering::Greater)
            }
        } else if self.0[2] != other.0[2] {
            if self.0[2] < other.0[2] {
                Some(Ordering::Less)
            } else {
                Some(Ordering::Greater)
            }
        } else {
            proof {
                assert(self@ =~= other@);
            }
            Some(Ordering::Equal)
        }
    }
}

impl vstd::std_specs::cmp::PartialOrdSpecImpl for AirportCode {
    open spec fn obeys_partial_cmp_spec() -> bool {
        true
    }

    open spec fn partial_cmp_spec(&self, other: &AirportCode) -> Option<Ordering> {
        if self@ == other@ {
            Some(Ordering::Equal)
        } else if ascii::lex_lt(self@, other@) {
            Some(Ordering::Less)
        } else {
            Some(Ordering::Greater)
        }
    }
}

/// Codes with equal raw bytes are the same code, so rebuilding a code from
/// its own bytes yields a value equal to the original.
pub proof fn lemma_bytes_determine_airport_code(a: AirportCode, b: AirportCode)
    requires
        a@ == b@,
    ensures
        a == b,
{
    assert(a.0 =~= b.0);
}

/// Two airport codes compare exactly as their raw bytes compare
/// lexicographically: `a` is below `b` if and only if `a`'s bytes are.
pub proof fn lemma_airport_order_is_byte_order(a: AirportCode, b: AirportCode)
    ensures
        a.partial_cmp_spec(&b) == Some(Ordering::Less) <==> ascii::lex_lt(a@, b@),
        a.partial_cmp_spec(&b) == Some(Ordering::Equal) <==> a == b,
        a.partial_cmp_spec(&b) == Some(Ordering::Greater) <==> ascii::lex_lt(b@, a@),
{
    ascii::lemma_lex_lt3(a@, b@);
    ascii::lemma_lex_lt3(b@, a@);
    if a@ == b@ {
        lemma_bytes_determine_airport_code(a, b);
    }
    if !(a@ == b@) {
        assert(!(a@ =~= b@));
    }
}

impl AirportCodeParseError {
    /// The human-readable description of the failure, naming the observed
    /// length or the offending character.
    pub fn message(&self) -> (r: String)
        ensures
            match *self {
                AirportCodeParseError::InvalidLength(n) => r@ == "invalid length: "@
                    + decimal::dec_chars(n as nat) + ", expected 3"@,
                AirportCodeParseError::InvalidCharacter(c) => r@ == "invalid character: "@
                    + seq![c] + ", expected A-Z0-9"@,
            },
    {
        match self {
            AirportCodeParseError::InvalidLength(n) => {
                let mut s = String::from_str("invalid length: ");
                let d = decimal::decimal_string(*n as u64);
                s.append(d.as_str());
                s.append(", expected 3");
                s
            },
            AirportCodeParseError::InvalidCharacter(c) => {
                let mut s = String::from_str("invalid character: ");
                ascii::push_char(&mut s, *c);
                s.append(", expected A-Z0-9");
                proof {
                    assert(("invalid character: "@).push(*c) =~= "invalid character: "@
                        + seq![*c]);
                }
                s
            },
        }
    }
}

} // verus!
