//! Character classes and ASCII text helpers shared by the code types.

use vstd::prelude::*;

verus! {

/// An uppercase ASCII letter, the only letters an IATA code may contain.
pub open spec fn is_upper(c: char) -> bool {
    'A' <= c && c <= 'Z'
}

/// An ASCII decimal digit.
pub open spec fn is_decimal(c: char) -> bool {
    '0' <= c && c <= '9'
}

/// A character admitted by a code family's alphabet: uppercase letters
/// always, digits only where the family allows them.
pub open spec fn is_code_char(c: char, allow_digits: bool) -> bool {
    is_upper(c) || (allow_digits && is_decimal(c))
}

/// The byte of an uppercase ASCII letter.
pub open spec fn is_upper_byte(b: u8) -> bool {
    0x41 <= b && b <= 0x5A
}

/// The byte of an ASCII decimal digit.
pub open spec fn is_decimal_byte(b: u8) -> bool {
    0x30 <= b && b <= 0x39
}

/// A stored byte admitted by a code family's alphabet.
pub open spec fn is_code_byte(b: u8, allow_digits: bool) -> bool {
    is_upper_byte(b) || (allow_digits && is_decimal_byte(b))
}

/// The bytes of an all-ASCII character sequence, one byte per character.
pub open spec fn char_bytes(s: Seq<char>) -> Seq<u8> {
    s.map(|_i: int, c: char| c as u8)
}

/// Text of exactly the given length, every character inside the alphabet.
pub open spec fn valid_code_text(s: Seq<char>, len: int, allow_digits: bool) -> bool {
    s.len() == len && forall|i: int|
        0 <= i < s.len() ==> is_code_char(#[trigger] s[i], allow_digits)
}

/// The first character outside the alphabet, in reading order, if any.
pub open spec fn first_invalid(s: Seq<char>, allow_digits: bool) -> Option<char>
    decreases s.len(),
{
    if s.len() == 0 {
        None
    } else if !is_code_char(s[0], allow_digits) {
        Some(s[0])
    } else {
        first_invalid(s.drop_first(), allow_digits)
    }
}

/// No character is outside the alphabet exactly when every character is inside it.
pub proof fn lemma_first_invalid_none(s: Seq<char>, allow_digits: bool)
    ensures
        first_invalid(s, allow_digits) is None <==> (forall|i: int|
            0 <= i < s.len() ==> is_code_char(#[trigger] s[i], allow_digits)),
    decreases s.len(),
{
    if s.len() > 0 && is_code_char(s[0], allow_digits) {
        lemma_first_invalid_none(s.drop_first(), allow_digits);
        assert forall|i: int|
            0 <= i < s.len() && (forall|j: int|
                0 <= j < s.drop_first().len() ==> is_code_char(
                    #[trigger] s.drop_first()[j],
                    allow_digits,
                )) implies is_code_char(#[trigger] s[i], allow_digits) by {
            if i > 0 {
                assert(s.drop_first()[i - 1] == s[i]);
            }
        }
    }
}

/// Characters of the alphabet are ASCII.
pub proof fn lemma_code_text_ascii(s: Seq<char>, allow_digits: bool)
    requires
        forall|i: int| 0 <= i < s.len() ==> is_code_char(#[trigger] s[i], allow_digits),
    ensures
        vstd::utf8::is_ascii_chars(s),
{
}

/// Finds the first character of `s` outside the alphabet, if there is one.
pub(crate) fn find_invalid_char(s: &str, allow_digits: bool) -> (r: Option<char>)
    ensures
        r == first_invalid(s@, allow_digits),
        s@.len() <= usize::MAX,
{
    let n = s.unicode_len();
    let mut i: usize = 0;
    proof {
        assert(s@.skip(0) =~= s@);
    }
    while i < n
        invariant
            n == s@.len(),
            0 <= i <= n,
            first_invalid(s@, allow_digits) == first_invalid(s@.skip(i as int), allow_digits),
        decreases n - i,
    {
        let c = s.get_char(i);
        let u = c as u32;
        let valid = (0x41 <= u && u <= 0x5A) || (allow_digits && 0x30 <= u && u <= 0x39);
        proof {
            assert(s@.skip(i as int)[0] == s@[i as int]);
            assert(valid == is_code_char(c, allow_digits));
        }
        if !valid {
            return Some(c);
        }
        proof {
            assert(s@.skip(i as int).drop_first() =~= s@.skip(i as int + 1));
        }
        i = i + 1;
    }
    proof {
        assert(s@.skip(n as int) =~= Seq::<char>::empty());
    }
    None
}

/// Strict lexicographic order on byte sequences.
pub open spec fn lex_lt(a: Seq<u8>, b: Seq<u8>) -> bool
    decreases a.len(),
{
    if b.len() == 0 {
        false
    } else if a.len() == 0 {
        true
    } else if a[0] < b[0] {
        true
    } else if a[0] > b[0] {
        false
    } else {
        lex_lt(a.drop_first(), b.drop_first())
    }
}

/// Lexicographic order on two-byte sequences, spelled out index by index.
pub proof fn lemma_lex_lt2(a: Seq<u8>, b: Seq<u8>)
    requires
        a.len() == 2,
        b.len() == 2,
    ensures
        lex_lt(a, b) <==> (a[0] < b[0] || (a[0] == b[0] && a[1] < b[1])),
{
    reveal_with_fuel(lex_lt, 3);
    let a1 = a.drop_first();
    let b1 = b.drop_first();
    assert(a1[0] == a[1] && b1[0] == b[1]);
    assert(a1.len() == 1 && b1.len() == 1);
    assert(a1.drop_first().len() == 0 && b1.drop_first().len() == 0);
}

/// Lexicographic order on three-byte sequences, spelled out index by index.
pub proof fn lemma_lex_lt3(a: Seq<u8>, b: Seq<u8>)
    requires
        a.len() == 3,
        b.len() == 3,
    ensures
        lex_lt(a, b) <==> (a[0] < b[0] || (a[0] == b[0] && (a[1] < b[1] || (a[1] == b[1]
            && a[2] < b[2])))),
{
    let a1 = a.drop_first();
    let b1 = b.drop_first();
    assert(a1[0] == a[1] && b1[0] == b[1]);
    assert(a1[1] == a[2] && b1[1] == b[2]);
    lemma_lex_lt2(a1, b1);
}

/// Relies on `core::str::from_utf8`: a slice of ASCII bytes is valid UTF-8,
/// and the resulting string slice's characters are exactly those bytes.
#[verifier::external_body]
pub(crate) fn str_from_ascii(v: &[u8]) -> (r: &str)
    requires
        forall|i: int| 0 <= i < v@.len() ==> v@[i] < 0x80,
    ensures
        r@.len() == v@.len(),
        forall|i: int| 0 <= i < v@.len() ==> r@[i] == #[trigger] v@[i] as char,
{
    core::str::from_utf8(v).unwrap()
}

/// Relies on `String::push`: appends exactly the given character at the end.
#[verifier::external_body]
pub(crate) fn push_char(s: &mut String, c: char)
    ensures
        final(s)@ == old(s)@.push(c),
{
    s.push(c);
}

} // verus!
