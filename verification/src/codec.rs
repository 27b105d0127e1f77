//! Base62 text of 128-bit numbers, with the standard alphabet
//! `0-9`, `A-Z`, `a-z`, most significant digit first.

use vstd::prelude::*;

verus! {

/// The value of one base62 digit, or `None` for a character outside the alphabet.
pub open spec fn digit_value(c: char) -> Option<int> {
    let n = c as int;
    if 48 <= n <= 57 {
        Some(n - 48)
    } else if 65 <= n <= 90 {
        Some(n - 55)
    } else if 97 <= n <= 122 {
        Some(n - 61)
    } else {
        None
    }
}

/// The character that writes the digit `d` (for `0 <= d < 62`).
pub open spec fn digit_char(d: int) -> char {
    if d < 10 {
        (d + 48) as char
    } else if d < 36 {
        (d + 55) as char
    } else {
        (d + 61) as char
    }
}

/// The number that a string of digits writes, most significant first;
/// `None` when some character is not a digit.
pub open spec fn digits_value(s: Seq<char>) -> Option<int>
    decreases s.len(),
{
    if s.len() == 0 {
        Some(0)
    } else {
        match (digits_value(s.drop_last()), digit_value(s.last())) {
            (Some(v), Some(d)) => Some(v * 62 + d),
            _ => None,
        }
    }
}

/// What decoding a text gives: a number when the text is not empty, holds
/// only digits and writes a number that fits in 128 bits.
pub open spec fn spec_decode(s: Seq<char>) -> Option<u128> {
    if s.len() == 0 {
        None
    } else {
        match digits_value(s) {
            Some(v) => if v <= u128::MAX {
                Some(v as u128)
            } else {
                None
            },
            None => None,
        }
    }
}

/// The shortest digit string that writes `n` ("0" for zero).
pub open spec fn digits_of(n: nat) -> Seq<char>
    decreases n,
{
    if n < 62 {
        seq![digit_char(n as int)]
    } else {
        digits_of(n / 62).push(digit_char((n % 62) as int))
    }
}

/// The text that encoding `n` gives.
pub open spec fn spec_encode(n: u128) -> Seq<char> {
    digits_of(n as nat)
}

/// Each digit is written by a character that reads back as that digit.
proof fn lemma_digit_char(d: int)
    requires
        0 <= d < 62,
    ensures
        digit_value(digit_char(d)) == Some(d),
{
}


/// The digits of any number read back as that number.
pub proof fn lemma_digits_value(n: nat)
    ensures
        digits_value(digits_of(n)) == Some(n as int),
        digits_of(n).len() > 0,
    decreases n,
{
    if n < 62 {
        lemma_digit_char(n as int);
        let s = digits_of(n);
        assert(s.drop_last() =~= Seq::<char>::empty());
        assert(s.last() == digit_char(n as int));
        assert(digits_value(s.drop_last()) == Some(0int));
        assert(digits_value(s) == Some(0 * 62 + n as int));
    } else {
        lemma_digits_value(n / 62);
        lemma_digit_char((n % 62) as int);
        let s = digits_of(n);
        assert(s.drop_last() =~= digits_of(n / 62));
        assert(s.last() == digit_char((n % 62) as int));
        assert(n == (n / 62) * 62 + n % 62);
        assert(digits_value(s) == Some(((n / 62) * 62 + n % 62) as int));
    }
}

/// Decoding what encoding gave yields the number encoded, for every 128-bit number.
pub proof fn lemma_decode_encode(n: u128)
    ensures
        spec_decode(spec_encode(n)) == Some(n),
{
    lemma_digits_value(n as nat);
}


/// A text in the form that encoding writes: not empty, and without a
/// leading zero unless it is "0" itself.
pub open spec fn is_canonical(s: Seq<char>) -> bool {
    s.len() > 0 && (s.len() == 1 || s[0] != '0')
}

/// A character that reads as a digit is the character that writes it.
proof fn lemma_char_digit(c: char)
    requires
        digit_value(c) is Some,
    ensures
        digit_char(digit_value(c)->0) == c,
        0 <= digit_value(c)->0 < 62,
{
}

/// Digit strings that do not start with a zero write a number at least 1.
proof fn lemma_value_positive(s: Seq<char>)
    requires
        s.len() > 0,
        s[0] != '0',
        digits_value(s) is Some,
    ensures
        digits_value(s)->0 >= 1,
    decreases s.len(),
{
    if s.len() == 1 {
        assert(s.drop_last() =~= Seq::<char>::empty());
        assert(s.last() == s[0]);
    } else {
        let t = s.drop_last();
        assert(t[0] == s[0]);
        lemma_value_positive(t);
    }
}

/// Digit values are never negative.
proof fn lemma_value_nonnegative(s: Seq<char>)
    requires
        digits_value(s) is Some,
    ensures
        digits_value(s)->0 >= 0,
    decreases s.len(),
{
    if s.len() > 0 {
        lemma_value_nonnegative(s.drop_last());
    }
}

/// A text in canonical form that decodes to `n` is exactly the text that
/// encoding `n` writes: encoding and decoding are inverse on canonical texts.
pub proof fn lemma_encode_decode(s: Seq<char>)
    requires
        is_canonical(s),
        spec_decode(s) is Some,
    ensures
        spec_encode(spec_decode(s)->0) == s,
    decreases s.len(),
{
    let v = digits_value(s)->0;
    let t = s.drop_last();
    let c = s.last();
    lemma_char_digit(c);
    lemma_value_nonnegative(t);
    let d = digit_value(c)->0;
    let w = digits_value(t)->0;
    if s.len() == 1 {
        assert(t =~= Seq::<char>::empty());
        assert(v == d);
        assert(digits_of(v as nat) =~= seq![c]);
    } else {
        assert(t[0] == s[0]);
        lemma_value_positive(t);
        assert(v == w * 62 + d);
        assert(v / 62 == w && v % 62 == d);
        assert(spec_decode(t) == Some(w as u128));
        lemma_encode_decode(t);
        assert(digits_of(v as nat) =~= digits_of(w as nat).push(c));
        assert(t.push(c) =~= s);
    }
}

/// The digits of a positive number do not start with a zero.
proof fn lemma_leading_digit(n: nat)
    requires
        n >= 1,
    ensures
        digits_of(n)[0] != '0',
    decreases n,
{
    if n < 62 {
        lemma_digit_char(n as int);
    } else {
        lemma_leading_digit(n / 62);
        lemma_digits_value(n / 62);
    }
}

/// Encoding writes canonical text.
pub proof fn lemma_encode_canonical(n: u128)
    ensures
        is_canonical(spec_encode(n)),
{
    lemma_digits_value(n as nat);
    if n >= 1 {
        lemma_leading_digit(n as nat);
    }
}

/// 62 to the power `k`.
pub open spec fn pow62(k: nat) -> nat
    decreases k,
{
    if k == 0 {
        1
    } else {
        62 * pow62((k - 1) as nat)
    }
}

/// A number at least 62^m has more than `m` digits.
proof fn lemma_digits_len_lower(n: nat, m: nat)
    requires
        n >= pow62(m),
    ensures
        digits_of(n).len() >= m + 1,
    decreases m,
{
    lemma_digits_value(n);
    if m > 0 {
        assert(pow62(m) == 62 * pow62((m - 1) as nat));
        assert(pow62((m - 1) as nat) >= 1) by {
            lemma_pow62_positive((m - 1) as nat);
        }
        lemma_digits_len_lower(n / 62, (m - 1) as nat);
    }
}

/// Powers of 62 are positive.
proof fn lemma_pow62_positive(k: nat)
    ensures
        pow62(k) >= 1,
    decreases k,
{
    if k > 0 {
        lemma_pow62_positive((k - 1) as nat);
    }
}

/// A number below 62^m has at most `m` digits (for `m >= 1`).
proof fn lemma_digits_len_upper(n: nat, m: nat)
    requires
        m >= 1,
        n < pow62(m),
    ensures
        digits_of(n).len() <= m,
    decreases m,
{
    if n >= 62 {
        assert(pow62(m) == 62 * pow62((m - 1) as nat));
        if m == 1 {
            assert(pow62(0) == 1);
        }
        lemma_digits_len_upper(n / 62, (m - 1) as nat);
    }
}

/// The text of a 128-bit number has at most 22 digits, and at least 14 when
/// the number is at least 2^78.
pub proof fn lemma_encode_len(n: u128)
    ensures
        spec_encode(n).len() <= 22,
        n >= 0x4000_0000_0000_0000_0000u128 ==> spec_encode(n).len() >= 14,
{
    reveal_with_fuel(pow62, 23);
    assert(pow62(13) == 200028539268669788905472nat);
    assert(pow62(22) == 2707803647802660400290261537185326956544nat);
    lemma_digits_len_upper(n as nat, 22);
    if n >= 0x4000_0000_0000_0000_0000u128 {
        lemma_digits_len_lower(n as nat, 13);
    }
}

/// The error that `base62::decode` reports.
#[verifier::external_type_specification]
#[verifier::external_body]
pub struct ExDecodeError(base62::DecodeError);

/// Calls `base62::decode`, which reads the text with the standard alphabet.
/// Trusted: it succeeds exactly when the text is not empty, holds only
/// alphabet characters and writes a number below 2^128, and then gives that
/// number (leading zeros are skipped before the digits are read).
#[verifier::external_body]
pub(crate) fn base62_decode(text: &str) -> (r: Result<u128, base62::DecodeError>)
    ensures
        r is Ok <==> spec_decode(text@) is Some,
        r matches Ok(v) ==> spec_decode(text@) == Some(v),
{
    base62::decode(text)
}

/// Calls `base62::encode`. Trusted: it writes the digits of `n` in the
/// standard alphabet, most significant first, without leading zeros
/// ("0" for zero).
#[verifier::external_body]
pub(crate) fn base62_encode(n: u128) -> (r: String)
    ensures
        r@ == spec_encode(n),
{
    base62::encode(n)
}

} // verus!
