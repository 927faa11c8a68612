//! The numbers of a status report: base-10 integers of 64 bits and
//! floating-point literals.
use crate::error::{FloatError, IntError};
use crate::text::{find, first_where, index_of, lemma_first_where_is, to_chars, to_text};
use vstd::prelude::*;
use vstd::slice::slice_subrange;

verus! {

/// Whether `c` is one of the ten ASCII digits.
pub open spec fn is_digit(c: char) -> bool {
    '0' <= c <= '9'
}

/// The number that the digit `c` stands for.
pub open spec fn digit_value(c: char) -> nat {
    (c as u32 - '0' as u32) as nat
}

/// Whether `s` holds digits only.
pub open spec fn all_digits(s: Seq<char>) -> bool {
    forall|i: int| 0 <= i < s.len() ==> is_digit(#[trigger] s[i])
}

/// The number that a sequence of digits denotes in base 10; 0 for the empty one.
pub open spec fn digits_value(s: Seq<char>) -> nat
    decreases s.len(),
{
    if s.len() == 0 {
        0
    } else {
        digits_value(s.drop_last()) * 10 + digit_value(s.last())
    }
}

/// `s` without its leading `+` or `-`, where it has one.
pub open spec fn unsigned(s: Seq<char>) -> Seq<char> {
    if s.len() > 0 && (s[0] == '+' || s[0] == '-') {
        s.skip(1)
    } else {
        s
    }
}

/// The 64-bit integer that `s` denotes: an optional sign, then one digit or
/// more, the number within the range of `i64`. Any other text is an error: the
/// empty text `Empty`; a text with a character that is no digit, or with no
/// digit at all, `InvalidDigit`; a number out of range `PosOverflow` or
/// `NegOverflow`. The kind does not depend on where in the text the fault
/// stands: a character that is no digit makes the text `InvalidDigit` however
/// long the digits before it are.
pub open spec fn decode_i64(s: Seq<char>) -> Result<i64, IntError> {
    let digits = unsigned(s);
    let magnitude = digits_value(digits) as int;
    let value = if s.len() > 0 && s[0] == '-' {
        -magnitude
    } else {
        magnitude
    };
    if s.len() == 0 {
        Err(IntError::Empty)
    } else if digits.len() == 0 || !all_digits(digits) {
        Err(IntError::InvalidDigit)
    } else if value > i64::MAX {
        Err(IntError::PosOverflow)
    } else if value < i64::MIN {
        Err(IntError::NegOverflow)
    } else {
        Ok(value as i64)
    }
}

/// Appending a digit multiplies by ten and adds the digit, so the number never
/// gets smaller.
pub proof fn lemma_digits_value_push(s: Seq<char>, c: char)
    ensures
        digits_value(s.push(c)) == digits_value(s) * 10 + digit_value(c),
        digits_value(s.push(c)) >= digits_value(s),
{
    assert(s.push(c).drop_last() =~= s);
}

/// The largest magnitude that a negative `i64` can have.
pub const MAGNITUDE_LIMIT: u128 = 0x8000_0000_0000_0000;

/// The value of the digits of `digits`, as far as it stays within
/// `MAGNITUDE_LIMIT`: `None` where a character is no digit, else the value or,
/// where it is above the limit, a number above the limit.
fn magnitude_of(digits: &[char]) -> (r: Option<u128>)
    ensures
        r is Some <==> all_digits(digits@),
        r matches Some(m) ==> (if digits_value(digits@) <= MAGNITUDE_LIMIT {
            m == digits_value(digits@)
        } else {
            m == MAGNITUDE_LIMIT + 1
        }),
{
    let mut m: u128 = 0;
    let mut i: usize = 0;
    while i < digits.len()
        invariant
            i <= digits.len(),
            all_digits(digits@.take(i as int)),
            m <= MAGNITUDE_LIMIT + 1,
            if digits_value(digits@.take(i as int)) <= MAGNITUDE_LIMIT {
                m == digits_value(digits@.take(i as int))
            } else {
                m == MAGNITUDE_LIMIT + 1
            },
        decreases digits.len() - i,
    {
        let c = digits[i];
        if c < '0' || c > '9' {
            assert(!is_digit(digits@[i as int]));
            return None;
        }
        proof {
            lemma_digits_value_push(digits@.take(i as int), c);
            assert(digits@.take(i + 1) =~= digits@.take(i as int).push(c));
        }
        let d: u128 = (c as u32 - '0' as u32) as u128;
        let next: u128 = m * 10 + d;
        m = if next > MAGNITUDE_LIMIT {
            MAGNITUDE_LIMIT + 1
        } else {
            next
        };
        i += 1;
    }
    assert(digits@.take(i as int) =~= digits@);
    Some(m)
}

/// Decodes a base-10 integer of 64 bits.
pub fn parse_i64(s: &[char]) -> (r: Result<i64, IntError>)
    ensures
        r == decode_i64(s@),
{
    if s.len() == 0 {
        return Err(IntError::Empty);
    }
    let negative = s[0] == '-';
    let digits = if s[0] == '-' || s[0] == '+' {
        slice_subrange(s, 1, s.len())
    } else {
        s
    };
    assert(digits@ =~= unsigned(s@));
    if digits.len() == 0 {
        return Err(IntError::InvalidDigit);
    }
    match magnitude_of(digits) {
        None => Err(IntError::InvalidDigit),
        Some(m) => {
            if negative {
                if m > MAGNITUDE_LIMIT {
                    Err(IntError::NegOverflow)
                } else if m == MAGNITUDE_LIMIT {
                    Ok(i64::MIN)
                } else {
                    Ok(-(m as i64))
                }
            } else if m >= MAGNITUDE_LIMIT {
                Err(IntError::PosOverflow)
            } else {
                Ok(m as i64)
            }
        },
    }
}

/// Whether `s` is `lower` written in any mix of the two cases, `upper` being
/// `lower` in capitals.
pub open spec fn same_letters(s: Seq<char>, lower: Seq<char>, upper: Seq<char>) -> bool {
    &&& s.len() == lower.len()
    &&& forall|i: int| 0 <= i < s.len() ==> (#[trigger] s[i] == lower[i] || s[i] == upper[i])
}

/// Whether `s` names an infinity or a value that is no number.
pub open spec fn is_special(s: Seq<char>) -> bool {
    ||| same_letters(s, "inf"@, "INF"@)
    ||| same_letters(s, "infinity"@, "INFINITY"@)
    ||| same_letters(s, "nan"@, "NAN"@)
}

/// Whether `s` is digits with at most one point among them, and one digit at
/// least: `12`, `12.`, `.5`, `12.5`.
pub open spec fn is_decimal(s: Seq<char>) -> bool {
    let point = index_of(s, '.');
    let whole = s.take(point);
    let fraction = if point < s.len() {
        s.skip(point + 1)
    } else {
        Seq::<char>::empty()
    };
    all_digits(whole) && all_digits(fraction) && whole.len() + fraction.len() > 0
}

/// The test "is the letter that begins an exponent".
pub open spec fn is_exponent_mark() -> spec_fn(char) -> bool {
    |c: char| c == 'e' || c == 'E'
}

/// Whether `s` is a decimal, alone or followed by an exponent: the letter `e`
/// in either case, an optional sign, and one digit or more.
pub open spec fn is_number(s: Seq<char>) -> bool {
    let mark = first_where(s, is_exponent_mark());
    let exponent = unsigned(s.skip(mark + 1));
    &&& is_decimal(s.take(mark))
    &&& mark < s.len() ==> exponent.len() > 0 && all_digits(exponent)
}

/// Whether `s` is a floating-point literal: an optional sign, then a number or
/// the name of an infinity or of a value that is no number.
pub open spec fn is_float_literal(s: Seq<char>) -> bool {
    is_special(unsigned(s)) || is_number(unsigned(s))
}

/// What is wrong with `s` as a floating-point literal, if anything is.
pub open spec fn float_error(s: Seq<char>) -> Option<FloatError> {
    if s.len() == 0 {
        Some(FloatError::Empty)
    } else if is_float_literal(s) {
        None
    } else {
        Some(FloatError::Invalid)
    }
}

fn has_digits_only(s: &[char]) -> (b: bool)
    ensures
        b == all_digits(s@),
{
    let mut i: usize = 0;
    while i < s.len()
        invariant
            i <= s.len(),
            forall|j: int| 0 <= j < i ==> is_digit(#[trigger] s@[j]),
        decreases s.len() - i,
    {
        if s[i] < '0' || s[i] > '9' {
            assert(!is_digit(s@[i as int]));
            return false;
        }
        i += 1;
    }
    true
}

fn has_same_letters(s: &[char], lower: &str, upper: &str) -> (b: bool)
    requires
        lower@.len() == upper@.len(),
    ensures
        b == same_letters(s@, lower@, upper@),
{
    let n = lower.unicode_len();
    if s.len() != n {
        return false;
    }
    let mut i: usize = 0;
    while i < n
        invariant
            i <= n,
            n == s.len(),
            n == lower@.len(),
            n == upper@.len(),
            forall|j: int| 0 <= j < i ==> (#[trigger] s@[j] == lower@[j] || s@[j] == upper@[j]),
        decreases n - i,
    {
        if s[i] != lower.get_char(i) && s[i] != upper.get_char(i) {
            return false;
        }
        i += 1;
    }
    true
}

fn names_special(s: &[char]) -> (b: bool)
    ensures
        b == is_special(s@),
{
    proof {
        reveal_strlit("inf");
        reveal_strlit("INF");
        reveal_strlit("infinity");
        reveal_strlit("INFINITY");
        reveal_strlit("nan");
        reveal_strlit("NAN");
    }
    has_same_letters(s, "inf", "INF") || has_same_letters(s, "infinity", "INFINITY")
        || has_same_letters(s, "nan", "NAN")
}

fn holds_decimal(s: &[char]) -> (b: bool)
    ensures
        b == is_decimal(s@),
{
    let n = s.len();
    let point = find(s, '.');
    let whole = slice_subrange(s, 0, point);
    let fraction = if point < n {
        slice_subrange(s, point + 1, n)
    } else {
        slice_subrange(s, n, n)
    };
    assert(whole@ =~= s@.take(point as int));
    assert(point < n ==> fraction@ =~= s@.skip(point + 1));
    assert(point == n ==> fraction@ =~= Seq::<char>::empty());
    has_digits_only(whole) && has_digits_only(fraction) && (whole.len() > 0 || fraction.len() > 0)
}

fn find_exponent_mark(s: &[char]) -> (k: usize)
    ensures
        k == first_where(s@, is_exponent_mark()),
        k <= s.len(),
{
    let mut k: usize = 0;
    while k < s.len() && s[k] != 'e' && s[k] != 'E'
        invariant
            k <= s.len(),
            forall|i: int| 0 <= i < k ==> !is_exponent_mark()(#[trigger] s@[i]),
        decreases s.len() - k,
    {
        k += 1;
    }
    proof {
        lemma_first_where_is(s@, is_exponent_mark(), k as int);
    }
    k
}

fn without_sign(s: &[char]) -> (r: &[char])
    ensures
        r@ == unsigned(s@),
{
    if s.len() > 0 && (s[0] == '+' || s[0] == '-') {
        let r = slice_subrange(s, 1, s.len());
        assert(r@ =~= s@.skip(1));
        r
    } else {
        s
    }
}

fn holds_number(s: &[char]) -> (b: bool)
    ensures
        b == is_number(s@),
{
    let n = s.len();
    let mark = find_exponent_mark(s);
    let mantissa = slice_subrange(s, 0, mark);
    assert(mantissa@ =~= s@.take(mark as int));
    if !holds_decimal(mantissa) {
        return false;
    }
    if mark == n {
        return true;
    }
    let tail = slice_subrange(s, mark + 1, n);
    assert(tail@ =~= s@.skip(mark + 1));
    let exponent = without_sign(tail);
    exponent.len() > 0 && has_digits_only(exponent)
}

/// Tests `s` against the grammar of floating-point literals.
pub fn check_float(s: &[char]) -> (r: Result<(), FloatError>)
    ensures
        r is Ok <==> float_error(s@) is None,
        r matches Err(k) ==> float_error(s@) == Some(k),
{
    if s.len() == 0 {
        return Err(FloatError::Empty);
    }
    let body = without_sign(s);
    if names_special(body) || holds_number(body) {
        Ok(())
    } else {
        Err(FloatError::Invalid)
    }
}

/// A floating-point number as it was written: a text that follows the grammar
/// of floating-point literals, kept character for character.
#[derive(Debug, PartialEq)]
pub struct FloatLiteral {
    text: String,
}

impl View for FloatLiteral {
    type V = Seq<char>;

    closed spec fn view(&self) -> Seq<char> {
        self.text@
    }
}

impl Clone for FloatLiteral {
    fn clone(&self) -> (copy: FloatLiteral)
        ensures
            copy@ == self@,
    {
        proof {
            use_type_invariant(self);
        }
        FloatLiteral { text: self.text.clone() }
    }
}

impl FloatLiteral {
    #[verifier::type_invariant]
    spec fn well_formed(self) -> bool {
        is_float_literal(self.text@)
    }

    /// Keeps `chars` where they form a floating-point literal.
    pub fn from_chars(chars: &[char]) -> (r: Result<FloatLiteral, FloatError>)
        ensures
            r is Ok <==> float_error(chars@) is None,
            r matches Ok(literal) ==> literal@ == chars@,
            r matches Err(k) ==> float_error(chars@) == Some(k),
    {
        match check_float(chars) {
            Ok(()) => Ok(FloatLiteral { text: to_text(chars) }),
            Err(k) => Err(k),
        }
    }

    /// Keeps `text` where it is a floating-point literal.
    pub fn parse(text: &str) -> (r: Result<FloatLiteral, FloatError>)
        ensures
            r is Ok <==> float_error(text@) is None,
            r matches Ok(literal) ==> literal@ == text@,
            r matches Err(k) ==> float_error(text@) == Some(k),
    {
        let chars = to_chars(text);
        FloatLiteral::from_chars(chars.as_slice())
    }

    /// The literal as it was written.
    pub fn as_str(&self) -> (text: &str)
        ensures
            text@ == self@,
            is_float_literal(text@),
    {
        proof {
            use_type_invariant(self);
        }
        self.text.as_str()
    }
}

} // verus!
