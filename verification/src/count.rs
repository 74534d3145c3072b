//! Arbitrary-precision character counts, kept in a `num_bigint::BigUint`.

use crate::error::GenError;
use num_bigint::{BigUint, ParseBigIntError};
use num_traits::{ToPrimitive, Zero};
use vstd::prelude::*;
use vstd::string::*;
use vstd::utf8::is_ascii_chars;

verus! {

/// `num_bigint::BigUint`, of which nothing is known but what the
/// functions below say of the number it stands for.
#[verifier::external_type_specification]
#[verifier::external_body]
pub struct ExBigUint(BigUint);

/// `num_bigint::ParseBigIntError`, which is only handed on.
#[verifier::external_type_specification]
#[verifier::external_body]
pub struct ExParseBigIntError(ParseBigIntError);

/// The natural number that a `BigUint` stands for.
pub uninterp spec fn biguint_value(n: BigUint) -> nat;

/// Whether `c` is one of the ten decimal digits.
pub open spec fn is_digit_char(c: char) -> bool {
    '0' <= c <= '9'
}

/// Whether `s` is a decimal numeral: one digit or more, and nothing else.
pub open spec fn is_decimal(s: Seq<char>) -> bool {
    s.len() > 0 && forall|i: int| 0 <= i < s.len() ==> is_digit_char(#[trigger] s[i])
}

/// The number that the decimal numeral `s` denotes.
pub open spec fn decimal_value(s: Seq<char>) -> nat
    decreases s.len(),
{
    if s.len() == 0 {
        0
    } else {
        (decimal_value(s.drop_last()) * 10 + (s.last() as nat - '0' as nat)) as nat
    }
}

/// The character of the digit `d`.
pub open spec fn digit_char(d: nat) -> char {
    (d + '0' as nat) as char
}

/// The decimal numeral of `n`, without leading zeros.
pub open spec fn decimal_text(n: nat) -> Seq<char>
    decreases n,
{
    if n < 10 {
        seq![digit_char(n)]
    } else {
        decimal_text(n / 10).push(digit_char(n % 10))
    }
}

/// `str::parse::<BigUint>`: a text made of decimal digits alone is read as
/// the number it denotes. Of other texts nothing is claimed.
#[verifier::external_body]
fn biguint_parse(text: &str) -> (r: Result<BigUint, ParseBigIntError>)
    ensures
        is_decimal(text@) ==> r is Ok && biguint_value(r->Ok_0) == decimal_value(text@),
{
    text.parse::<BigUint>()
}

/// `BigUint::from(usize)`: the same number.
#[verifier::external_body]
fn biguint_from_usize(n: usize) -> (r: BigUint)
    ensures
        biguint_value(r) == n,
{
    BigUint::from(n)
}

/// `BigUint::clone`: the same number.
#[verifier::external_body]
fn biguint_clone(n: &BigUint) -> (r: BigUint)
    ensures
        biguint_value(r) == biguint_value(*n),
{
    n.clone()
}

/// `Zero::is_zero` of `BigUint`: whether the number is zero.
#[verifier::external_body]
fn biguint_is_zero(n: &BigUint) -> (r: bool)
    ensures
        r == (biguint_value(*n) == 0),
{
    n.is_zero()
}

/// `==` of `BigUint`: whether the two numbers are the same.
#[verifier::external_body]
fn biguint_eq(a: &BigUint, b: &BigUint) -> (r: bool)
    ensures
        r == (biguint_value(*a) == biguint_value(*b)),
{
    a == b
}

/// `<` of `BigUint`: whether the first number is the smaller one.
#[verifier::external_body]
fn biguint_lt(a: &BigUint, b: &BigUint) -> (r: bool)
    ensures
        r == (biguint_value(*a) < biguint_value(*b)),
{
    a < b
}

/// `+` of `BigUint`: the sum.
#[verifier::external_body]
fn biguint_add(a: &BigUint, b: &BigUint) -> (r: BigUint)
    ensures
        biguint_value(r) == biguint_value(*a) + biguint_value(*b),
{
    a + b
}

/// `-` of `BigUint`: the difference. The operator panics where the second
/// number is the larger one, so that case is left out.
#[verifier::external_body]
fn biguint_sub(a: &BigUint, b: &BigUint) -> (r: BigUint)
    requires
        biguint_value(*a) >= biguint_value(*b),
    ensures
        biguint_value(r) == biguint_value(*a) - biguint_value(*b),
{
    a - b
}

/// `ToPrimitive::to_usize` of `BigUint`: the number where a `usize` can
/// hold it, `None` where it cannot.
#[verifier::external_body]
fn biguint_to_usize(n: &BigUint) -> (r: Option<usize>)
    ensures
        biguint_value(*n) <= usize::MAX ==> r == Some(biguint_value(*n) as usize),
        biguint_value(*n) > usize::MAX ==> r is None,
{
    n.to_usize()
}

/// `ToString::to_string` of `BigUint`: the decimal numeral of the number.
#[verifier::external_body]
fn biguint_to_string(n: &BigUint) -> (r: String)
    ensures
        r@ == decimal_text(biguint_value(*n)),
{
    n.to_string()
}

/// A non-negative integer of any size.
#[derive(Debug)]
pub struct Count {
    value: BigUint,
}

impl View for Count {
    type V = nat;

    closed spec fn view(&self) -> nat {
        biguint_value(self.value)
    }
}

impl Clone for Count {
    fn clone(&self) -> (r: Self)
        ensures
            r@ == self@,
    {
        Count { value: biguint_clone(&self.value) }
    }
}

/// Whether `text` is a decimal numeral.
fn all_digits(text: &str) -> (r: bool)
    ensures
        r == is_decimal(text@),
{
    if !text.is_ascii() {
        assert(!is_decimal(text@)) by {
            if is_decimal(text@) {
                assert forall|i: int| 0 <= i < text@.len() implies '\0' <= #[trigger] text@[i]
                    <= '\u{7f}' by {
                    assert(is_digit_char(text@[i]));
                }
            }
        }
        return false;
    }
    let bytes = text.as_bytes();
    proof {
        is_ascii_spec_bytes(text);
    }
    if bytes.len() == 0 {
        return false;
    }
    let mut i: usize = 0;
    while i < bytes.len()
        invariant
            i <= bytes.len(),
            bytes@.len() == text@.len(),
            is_ascii_chars(text@),
            forall|j: int| 0 <= j < bytes@.len() ==> bytes@[j] == text@[j] as u8,
            forall|j: int| 0 <= j < i ==> is_digit_char(#[trigger] text@[j]),
        decreases bytes.len() - i,
    {
        let b = bytes[i];
        assert('\0' <= text@[i as int] <= '\u{7f}');
        if b < 0x30 || b > 0x39 {
            assert(!is_digit_char(text@[i as int]));
            return false;
        }
        i += 1;
    }
    true
}

impl Count {
    /// Reads a decimal numeral. Anything but one or more decimal digits,
    /// a sign included, is refused.
    pub fn parse(text: &str) -> (r: Result<Count, GenError>)
        ensures
            r is Ok <==> is_decimal(text@),
            r matches Ok(c) ==> c@ == decimal_value(text@),
            r matches Err(e) ==> e == GenError::InvalidNumber,
    {
        if !all_digits(text) {
            return Err(GenError::InvalidNumber);
        }
        match biguint_parse(text) {
            Ok(value) => Ok(Count { value }),
            Err(_) => Err(GenError::InvalidNumber),
        }
    }

    /// The count `n`.
    pub fn from_usize(n: usize) -> (r: Count)
        ensures
            r@ == n,
    {
        Count { value: biguint_from_usize(n) }
    }

    /// Whether the count is zero.
    pub fn is_zero(&self) -> (r: bool)
        ensures
            r == (self@ == 0),
    {
        biguint_is_zero(&self.value)
    }

    /// Whether the two counts are the same number.
    pub fn equals(&self, other: &Count) -> (r: bool)
        ensures
            r == (self@ == other@),
    {
        biguint_eq(&self.value, &other.value)
    }

    /// Whether this count is smaller than `other`.
    pub fn less_than(&self, other: &Count) -> (r: bool)
        ensures
            r == (self@ < other@),
    {
        biguint_lt(&self.value, &other.value)
    }

    /// The sum of the two counts.
    pub fn plus(&self, other: &Count) -> (r: Count)
        ensures
            r@ == self@ + other@,
    {
        Count { value: biguint_add(&self.value, &other.value) }
    }

    /// The difference of the two counts, or `None` where `other` is the
    /// larger one: a count never goes below zero.
    pub fn checked_minus(&self, other: &Count) -> (r: Option<Count>)
        ensures
            self@ >= other@ ==> r is Some && r->Some_0@ == self@ - other@,
            self@ < other@ ==> r is None,
    {
        if biguint_lt(&self.value, &other.value) {
            None
        } else {
            Some(Count { value: biguint_sub(&self.value, &other.value) })
        }
    }

    /// The count as a machine integer, or `None` where it does not fit.
    pub fn to_usize(&self) -> (r: Option<usize>)
        ensures
            self@ <= usize::MAX ==> r == Some(self@ as usize),
            self@ > usize::MAX ==> r is None,
    {
        biguint_to_usize(&self.value)
    }

    /// The decimal numeral of the count.
    pub fn to_text(&self) -> (r: String)
        ensures
            r@ == decimal_text(self@),
    {
        biguint_to_string(&self.value)
    }
}

/// A text that can be read as a count.
pub trait AsBiguint {
    /// What comes of the reading.
    type Output;

    /// The count that the text denotes.
    fn as_biguint(&self) -> Self::Output;
}

impl AsBiguint for str {
    type Output = Result<Count, GenError>;

    /// Reads a decimal numeral, as `Count::parse` does.
    fn as_biguint(&self) -> (r: Result<Count, GenError>)
        ensures
            r is Ok <==> is_decimal(self@),
            r matches Ok(c) ==> c@ == decimal_value(self@),
            r matches Err(e) ==> e == GenError::InvalidNumber,
    {
        Count::parse(self)
    }
}

impl AsBiguint for String {
    type Output = Result<Count, GenError>;

    /// Reads a decimal numeral, as `Count::parse` does.
    fn as_biguint(&self) -> (r: Result<Count, GenError>)
        ensures
            r is Ok <==> is_decimal(self@),
            r matches Ok(c) ==> c@ == decimal_value(self@),
            r matches Err(e) ==> e == GenError::InvalidNumber,
    {
        Count::parse(self.as_str())
    }
}

/// The numeral of a number is a decimal numeral, and it denotes the number.
pub proof fn lemma_decimal_text(n: nat)
    ensures
        is_decimal(decimal_text(n)),
        decimal_value(decimal_text(n)) == n,
    decreases n,
{
    let text = decimal_text(n);
    if n < 10 {
        assert(text.drop_last() =~= Seq::<char>::empty());
        assert(decimal_value(text.drop_last()) == 0);
    } else {
        lemma_decimal_text(n / 10);
        assert(text.drop_last() =~= decimal_text(n / 10));
        assert forall|i: int| 0 <= i < text.len() implies is_digit_char(#[trigger] text[i]) by {
            if i < text.len() - 1 {
                assert(text[i] == decimal_text(n / 10)[i]);
            }
        }
    }
}

} // verus!
