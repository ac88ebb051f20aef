//! Decimal digits: rendering integers as text and reading unsigned numerals.

use vstd::prelude::*;
use vstd::string::StringExecFns;
use crate::ascii::is_decimal;
use crate::ascii::str_from_ascii;

verus! {

/// The ASCII byte of one decimal digit.
pub open spec fn digit_byte(d: int) -> u8 {
    (0x30 + d) as u8
}

/// The decimal digit bytes of `n`, most significant first, no leading zeros.
pub open spec fn dec_bytes(n: nat) -> Seq<u8>
    decreases n,
{
    if n < 10 {
        seq![digit_byte(n as int)]
    } else {
        dec_bytes(n / 10) + seq![digit_byte((n % 10) as int)]
    }
}

/// The decimal digit characters of `n`, most significant first.
pub open spec fn dec_chars(n: nat) -> Seq<char> {
    dec_bytes(n).map(|_i: int, b: u8| b as char)
}

/// Every byte of a decimal rendering is an ASCII digit.
pub proof fn lemma_dec_bytes_ascii(n: nat)
    ensures
        forall|i: int| 0 <= i < dec_bytes(n).len() ==> 0x30 <= #[trigger] dec_bytes(n)[i] <= 0x39,
    decreases n,
{
    if n >= 10 {
        lemma_dec_bytes_ascii(n / 10);
        assert forall|i: int| 0 <= i < dec_bytes(n).len() implies 0x30 <= #[trigger] dec_bytes(
            n,
        )[i] <= 0x39 by {
            if i < dec_bytes(n / 10).len() {
                assert(dec_bytes(n)[i] == dec_bytes(n / 10)[i]);
            }
        }
    }
}

/// Appends the decimal digits of `n` to `buf`.
pub(crate) fn push_dec_bytes(buf: &mut Vec<u8>, n: u64)
    ensures
        final(buf)@ == old(buf)@ + dec_bytes(n as nat),
    decreases n,
{
    if n >= 10 {
        push_dec_bytes(buf, n / 10);
        buf.push(0x30 + (n % 10) as u8);
        proof {
            assert(buf@ =~= old(buf)@ + dec_bytes(n as nat));
        }
    } else {
        buf.push(0x30 + n as u8);
        proof {
            assert(buf@ =~= old(buf)@ + dec_bytes(n as nat));
        }
    }
}

/// Renders `n` in decimal, without padding.
pub(crate) fn decimal_string(n: u64) -> (r: String)
    ensures
        r@ == dec_chars(n as nat),
{
    let mut buf: Vec<u8> = Vec::new();
    push_dec_bytes(&mut buf, n);
    proof {
        lemma_dec_bytes_ascii(n as nat);
        assert(buf@ =~= dec_bytes(n as nat));
    }
    let s = str_from_ascii(buf.as_slice());
    proof {
        assert(s@ =~= dec_chars(n as nat));
    }
    String::from_str(s)
}

/// The numeric value of a sequence of decimal digit characters.
pub open spec fn digits_value(s: Seq<char>) -> int
    decreases s.len(),
{
    if s.len() == 0 {
        0
    } else {
        digits_value(s.drop_last()) * 10 + (s.last() as int - 0x30)
    }
}

/// Every character is a decimal digit.
pub open spec fn all_decimal(s: Seq<char>) -> bool {
    forall|i: int| 0 <= i < s.len() ==> is_decimal(#[trigger] s[i])
}

/// The digit part of an unsigned numeral: what follows an optional plus sign.
pub open spec fn numeral_digits(s: Seq<char>) -> Seq<char> {
    if s.len() > 0 && s[0] == '+' {
        s.drop_first()
    } else {
        s
    }
}

/// Text that reads as an unsigned 16-bit number: an optional leading `+`,
/// then at least one decimal digit, with a value that fits in 16 bits.
pub open spec fn is_u16_numeral(s: Seq<char>) -> bool {
    let d = numeral_digits(s);
    d.len() > 0 && all_decimal(d) && digits_value(d) <= 0xFFFF
}

/// The value an unsigned numeral reads as.
pub open spec fn numeral_value(s: Seq<char>) -> int {
    digits_value(numeral_digits(s))
}

/// The value of a digit sequence is never negative.
pub proof fn lemma_digits_value_nonneg(s: Seq<char>)
    requires
        all_decimal(s),
    ensures
        digits_value(s) >= 0,
    decreases s.len(),
{
    if s.len() > 0 {
        assert forall|i: int| 0 <= i < s.drop_last().len() implies is_decimal(
            #[trigger] s.drop_last()[i],
        ) by {
            assert(s.drop_last()[i] == s[i]);
        }
        lemma_digits_value_nonneg(s.drop_last());
    }
}

/// Reading more digits never lowers the value: the value of a prefix is a
/// lower bound for the value of the whole digit sequence.
pub proof fn lemma_digits_value_prefix(s: Seq<char>, i: int)
    requires
        all_decimal(s),
        0 <= i <= s.len(),
    ensures
        digits_value(s.take(i)) <= digits_value(s),
    decreases s.len() - i,
{
    if i < s.len() {
        assert forall|j: int| 0 <= j < s.take(i).len() implies is_decimal(
            #[trigger] s.take(i)[j],
        ) by {
            assert(s.take(i)[j] == s[j]);
        }
        lemma_digits_value_nonneg(s.take(i));
        assert(s.take(i + 1).drop_last() =~= s.take(i));
        assert(s.take(i + 1).last() == s[i]);
        assert(digits_value(s.take(i + 1)) == digits_value(s.take(i)) * 10 + (s[i] as int
            - 0x30));
        lemma_digits_value_prefix(s, i + 1);
    } else {
        assert(s.take(i) =~= s);
    }
}

} // verus!
