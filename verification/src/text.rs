//! Text helpers: comparing tokens, reading decimal numbers as `str::parse`
//! does, and writing integers in decimal.
use vstd::prelude::*;

verus! {

/// Whether two texts are equal, character by character.
pub fn text_eq(a: &str, b: &str) -> (r: bool)
    ensures
        r == (a@ == b@),
{
    let n = a.unicode_len();
    if n != b.unicode_len() {
        return false;
    }
    let mut i: usize = 0;
    while i < n
        invariant
            n == a@.len(),
            n == b@.len(),
            i <= n,
            forall|k: int| 0 <= k < i ==> a@[k] == b@[k],
        decreases n - i,
    {
        if a.get_char(i) != b.get_char(i) {
            return false;
        }
        i = i + 1;
    }
    assert(a@ =~= b@);
    true
}

/// Whether a character is an ASCII decimal digit.
pub open spec fn is_digit(c: char) -> bool {
    '0' <= c <= '9'
}

/// The value of the decimal digits `s[..n]`.
pub open spec fn digits_value(s: Seq<char>, n: int) -> int
    decreases n,
{
    if n <= 0 {
        0
    } else {
        digits_value(s, n - 1) * 10 + (s[n - 1] as int - '0' as int)
    }
}

/// The text after an optional leading `+`.
pub open spec fn digit_part(s: Seq<char>) -> Seq<char> {
    if s.len() > 0 && s[0] == '+' {
        s.drop_first()
    } else {
        s
    }
}

/// Whether every character is a decimal digit.
pub open spec fn all_digits(d: Seq<char>) -> bool {
    forall|i: int| 0 <= i < d.len() ==> is_digit(#[trigger] d[i])
}

/// What `str::parse` gives for an unsigned integer type whose largest value
/// is `max`: an optional `+` followed by one or more ASCII digits, whose
/// value must not exceed `max`.
pub open spec fn spec_parse_unsigned(s: Seq<char>, max: int) -> Option<int> {
    let digits = digit_part(s);
    if digits.len() == 0 {
        None
    } else if !all_digits(digits) {
        None
    } else if digits_value(digits, digits.len() as int) > max {
        None
    } else {
        Some(digits_value(digits, digits.len() as int))
    }
}

proof fn lemma_digits_value_mono(s: Seq<char>, m: int, n: int)
    requires
        0 <= m <= n <= s.len(),
        forall|i: int| 0 <= i < s.len() ==> is_digit(#[trigger] s[i]),
    ensures
        0 <= digits_value(s, m) <= digits_value(s, n),
    decreases n - m,
{
    if m < n {
        lemma_digits_value_mono(s, m, n - 1);
        assert(is_digit(s[n - 1]));
    } else {
        lemma_digits_value_nonneg(s, m);
    }
}

proof fn lemma_digits_value_nonneg(s: Seq<char>, n: int)
    requires
        0 <= n <= s.len(),
        forall|i: int| 0 <= i < s.len() ==> is_digit(#[trigger] s[i]),
    ensures
        0 <= digits_value(s, n),
    decreases n,
{
    if n > 0 {
        lemma_digits_value_nonneg(s, n - 1);
        assert(is_digit(s[n - 1]));
    }
}

/// Reads an unsigned decimal number no larger than `max`, as `str::parse`
/// does for an unsigned type of that range.
pub fn parse_unsigned(s: &str, max: u64) -> (r: Option<u64>)
    ensures
        match spec_parse_unsigned(s@, max as int) {
            None => r.is_none(),
            Some(v) => r.is_some() && r.unwrap() as int == v,
        },
{
    let n = s.unicode_len();
    let start: usize = if n > 0 && s.get_char(0) == '+' { 1 } else { 0 };
    let ghost digits = digit_part(s@);
    assert(digits =~= s@.subrange(start as int, n as int));
    if start >= n {
        return None;
    }
    let mut i: usize = start;
    while i < n
        invariant
            n == s@.len(),
            start <= i <= n,
            digits =~= s@.subrange(start as int, n as int),
            digits == digit_part(s@),
            digits.len() > 0,
            forall|k: int| 0 <= k < i - start ==> is_digit(#[trigger] digits[k]),
        decreases n - i,
    {
        let c = s.get_char(i);
        if !('0' <= c && c <= '9') {
            assert(digits[i - start] == c);
            assert(!is_digit(digits[(i - start) as int]));
            assert(!all_digits(digits));
            return None;
        }
        i = i + 1;
    }
    let mut value: u64 = 0;
    let mut j: usize = start;
    while j < n
        invariant
            n == s@.len(),
            start <= j <= n,
            digits =~= s@.subrange(start as int, n as int),
            digits == digit_part(s@),
            digits.len() > 0,
            forall|k: int| 0 <= k < digits.len() ==> is_digit(#[trigger] digits[k]),
            value == digits_value(digits, j - start),
            value <= max,
        decreases n - j,
    {
        let c = s.get_char(j);
        assert(digits[j - start] == c);
        let d: u64 = (c as u32 - '0' as u32) as u64;
        if d > max || value > (max - d) / 10 {
            proof {
                if d <= max {
                    assert(value * 10 + d > max) by (nonlinear_arith)
                        requires
                            value > (max - d) / 10,
                            d <= max,
                    ;
                }
                assert(digits_value(digits, j - start + 1) == value * 10 + d);
                lemma_digits_value_mono(digits, j - start + 1, digits.len() as int);
            }
            return None;
        }
        assert(value * 10 + d <= max) by (nonlinear_arith)
            requires
                value <= (max - d) / 10,
                d <= max,
        ;
        value = value * 10 + d;
        j = j + 1;
    }
    Some(value)
}

/// A decimal digit character.
pub open spec fn digit_char(d: int) -> char {
    (d + '0' as int) as char
}

/// The decimal digits of a natural number.
pub open spec fn spec_digits(n: nat) -> Seq<char>
    decreases n,
{
    if n < 10 {
        seq![digit_char(n as int)]
    } else {
        spec_digits(n / 10).push(digit_char((n % 10) as int))
    }
}

/// The decimal text of an integer, with a minus sign when negative.
pub open spec fn spec_decimal(n: int) -> Seq<char> {
    if n < 0 {
        seq!['-'] + spec_digits((-n) as nat)
    } else {
        spec_digits(n as nat)
    }
}

/// `i64`'s `Display` (`to_string`): its decimal text.
#[verifier::external_body]
pub(crate) fn decimal_text(n: i64) -> (r: String)
    ensures
        r@ == spec_decimal(n as int),
{
    n.to_string()
}

} // verus!
