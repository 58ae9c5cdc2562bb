//! Exact integers of any size.
//!
//! An [`Integer`] keeps its value as little-endian two's-complement bytes.
//! The arithmetic itself is done by `num_bigint`; the functions that call it
//! are the private ones at the end of this file, and their contracts are
//! taken on trust.

use num_bigint::BigInt;
use num_traits::Pow;
use num_traits::ToPrimitive;
use vstd::arithmetic::power::pow;
use vstd::prelude::*;

verus! {

/// The integer that a little-endian two's-complement byte string stands for.
/// The empty string stands for zero.
pub open spec fn signed_value(bytes: Seq<u8>) -> int
    decreases bytes.len(),
{
    if bytes.len() == 0 {
        0
    } else if bytes.len() == 1 {
        if bytes[0] < 128 {
            bytes[0] as int
        } else {
            bytes[0] as int - 256
        }
    } else {
        bytes[0] as int + 256 * signed_value(bytes.drop_first())
    }
}

/// Whether `c` is one of the ten ASCII digits.
pub open spec fn is_digit(c: char) -> bool {
    '0' <= c && c <= '9'
}

/// The digit that `c` writes, for an ASCII digit `c`.
pub open spec fn digit_value(c: char) -> int {
    c as int - '0' as int
}

/// The ASCII digit that writes `d`, for `0 <= d <= 9`.
pub open spec fn digit_char(d: int) -> char {
    (d + '0' as int) as char
}

/// The number written by a run of digits and underscores. Underscores are
/// separators and do not count.
pub open spec fn digits_value(s: Seq<char>) -> int
    decreases s.len(),
{
    if s.len() == 0 {
        0
    } else if s.last() == '_' {
        digits_value(s.drop_last())
    } else {
        10 * digits_value(s.drop_last()) + digit_value(s.last())
    }
}

/// A run of digits and underscores that starts with a digit.
pub open spec fn is_digit_run(s: Seq<char>) -> bool {
    &&& s.len() > 0
    &&& is_digit(s[0])
    &&& forall|i: int| 0 <= i < s.len() ==> is_digit(#[trigger] s[i]) || s[i] == '_'
}

/// `s` without its sign, if it starts with one.
pub open spec fn unsigned_part(s: Seq<char>) -> Seq<char> {
    if s.len() > 0 && (s[0] == '-' || s[0] == '+') {
        s.drop_first()
    } else {
        s
    }
}

/// The value of `s` read as an integer literal: an optional `-` or `+`, then
/// a digit, then digits and underscores. `None` if `s` is no such literal.
pub open spec fn integer_literal(s: Seq<char>) -> Option<int> {
    let body = unsigned_part(s);
    if !is_digit_run(body) {
        None
    } else if s[0] == '-' {
        Some(-digits_value(body))
    } else {
        Some(digits_value(body))
    }
}

/// The decimal digits of `n`, most significant first, without leading zeros.
pub open spec fn natural_text(n: nat) -> Seq<char>
    decreases n,
{
    if n < 10 {
        seq![digit_char(n as int)]
    } else {
        natural_text(n / 10).push(digit_char((n % 10) as int))
    }
}

/// The decimal form of `v`: a `-` for a negative value, then the digits.
pub open spec fn integer_text(v: int) -> Seq<char> {
    if v < 0 {
        seq!['-'] + natural_text((-v) as nat)
    } else {
        natural_text(v as nat)
    }
}

/// The quotient of `a` by `b` rounded towards zero, for `b != 0`.
pub open spec fn truncated_quotient(a: int, b: int) -> int {
    if a >= 0 && b > 0 {
        a / b
    } else if a < 0 && b > 0 {
        -((-a) / b)
    } else if a >= 0 {
        -(a / (-b))
    } else {
        (-a) / (-b)
    }
}

/// How one value stands to another.
#[derive(Clone, Copy, Debug, PartialEq, Eq, Structural)]
pub enum Order {
    Less,
    Equal,
    Greater,
}

/// How `a` stands to `b`.
pub open spec fn order_of(a: int, b: int) -> Order {
    if a < b {
        Order::Less
    } else if a == b {
        Order::Equal
    } else {
        Order::Greater
    }
}

/// An exact integer of any size.
#[derive(Debug)]
pub struct Integer {
    bytes: Vec<u8>,
}

impl View for Integer {
    type V = int;

    closed spec fn view(&self) -> int {
        signed_value(self.bytes@)
    }
}

impl Clone for Integer {
    fn clone(&self) -> (r: Self)
        ensures
            r@ == self@,
    {
        Integer { bytes: self.bytes.clone() }
    }
}

impl PartialEq for Integer {
    fn eq(&self, other: &Self) -> (r: bool) {
        match order(self, other) {
            Order::Equal => true,
            _ => false,
        }
    }
}

impl vstd::std_specs::cmp::PartialEqSpecImpl for Integer {
    open spec fn obeys_eq_spec() -> bool {
        true
    }

    open spec fn eq_spec(&self, other: &Self) -> bool {
        self@ == other@
    }
}

impl Integer {
    /// Zero.
    pub fn zero() -> (r: Integer)
        ensures
            r@ == 0,
    {
        Integer { bytes: Vec::new() }
    }

    /// The integer that `bytes` stands for in little-endian two's complement.
    pub fn from_signed_bytes_le(bytes: Vec<u8>) -> (r: Integer)
        ensures
            r@ == signed_value(bytes@),
    {
        Integer { bytes }
    }

    /// Little-endian two's-complement bytes that stand for this integer.
    pub fn to_signed_bytes_le(&self) -> (r: Vec<u8>)
        ensures
            signed_value(r@) == self@,
    {
        self.bytes.clone()
    }

    /// The integer with the value `v`.
    pub fn from_i64(v: i64) -> (r: Integer)
        ensures
            r@ == v,
    {
        small(v)
    }

    /// Reads an integer literal; `None` if `text` is not one.
    pub fn parse(text: &str) -> (r: Option<Integer>)
        ensures
            r is Some <==> integer_literal(text@) is Some,
            r matches Some(v) ==> Some(v@) == integer_literal(text@),
    {
        read(text)
    }

    /// The decimal form of this integer.
    pub fn to_text(&self) -> (r: String)
        ensures
            r@ == integer_text(self@),
    {
        write(self)
    }

    /// `self + other`, exactly.
    pub fn plus(&self, other: &Integer) -> (r: Integer)
        ensures
            r@ == self@ + other@,
    {
        sum(self, other)
    }

    /// `self - other`, exactly.
    pub fn minus(&self, other: &Integer) -> (r: Integer)
        ensures
            r@ == self@ - other@,
    {
        difference(self, other)
    }

    /// `self * other`, exactly.
    pub fn times(&self, other: &Integer) -> (r: Integer)
        ensures
            r@ == self@ * other@,
    {
        product(self, other)
    }

    /// `self / other` rounded towards zero; `None` exactly when `other` is
    /// zero.
    pub fn checked_div(&self, other: &Integer) -> (r: Option<Integer>)
        ensures
            r is None <==> other@ == 0,
            r matches Some(q) ==> q@ == truncated_quotient(self@, other@),
    {
        quotient(self, other)
    }

    /// `self` to the power `exponent`; `None` exactly when the exponent is
    /// negative or larger than a `usize` can hold.
    pub fn checked_pow(&self, exponent: &Integer) -> (r: Option<Integer>)
        ensures
            r is Some <==> 0 <= exponent@ <= usize::MAX,
            r matches Some(p) ==> p@ == pow(self@, exponent@ as nat),
    {
        match index(exponent) {
            Some(e) => Some(power(self, e)),
            None => None,
        }
    }

    /// How this integer stands to `other`.
    pub fn compare(&self, other: &Integer) -> (r: Order)
        ensures
            r == order_of(self@, other@),
    {
        order(self, other)
    }

    /// The value as an `i32`, if it fits.
    pub fn to_i32(&self) -> (r: Option<i32>)
        ensures
            r is Some <==> i32::MIN <= self@ <= i32::MAX,
            r matches Some(v) ==> v == self@,
    {
        narrow_32(self)
    }

    /// The value as an `i64`, if it fits.
    pub fn to_i64(&self) -> (r: Option<i64>)
        ensures
            r is Some <==> i64::MIN <= self@ <= i64::MAX,
            r matches Some(v) ==> v == self@,
    {
        narrow_64(self)
    }

    /// The value as an `i128`, if it fits.
    pub fn to_i128(&self) -> (r: Option<i128>)
        ensures
            r is Some <==> i128::MIN <= self@ <= i128::MAX,
            r matches Some(v) ==> v == self@,
    {
        narrow_128(self)
    }
}

// What follows calls `num_bigint`. Each function turns its arguments into
// `BigInt`s with `BigInt::from_signed_bytes_le`, which reads little-endian
// two's complement and takes the empty string for zero, and its result back
// with `BigInt::to_signed_bytes_le`, which writes it. Each contract rests on
// that, and on what its comment says of the function it calls.

/// `BigInt::from` on an `i64`: the integer with the same value.
#[verifier::external_body]
fn small(v: i64) -> (r: Integer)
    ensures
        r@ == v,
{
    Integer { bytes: BigInt::from(v).to_signed_bytes_le() }
}

/// `str::parse::<BigInt>`, which reads in radix 10: it takes one optional
/// `-` or `+`, then a digit, then digits and underscores, and gives the
/// number that the digits write, negated after a `-`. It fails on
/// anything else.
#[verifier::external_body]
fn read(text: &str) -> (r: Option<Integer>)
    ensures
        r is Some <==> integer_literal(text@) is Some,
        r matches Some(v) ==> Some(v@) == integer_literal(text@),
{
    match text.parse::<BigInt>() {
        Ok(v) => Some(Integer { bytes: v.to_signed_bytes_le() }),
        Err(_) => None,
    }
}

/// `BigInt`'s `to_string`: the digits in radix 10 without leading zeros,
/// after a `-` for a negative value.
#[verifier::external_body]
fn write(a: &Integer) -> (r: String)
    ensures
        r@ == integer_text(a@),
{
    BigInt::from_signed_bytes_le(&a.bytes).to_string()
}

/// `BigInt`'s `+`: the sum.
#[verifier::external_body]
fn sum(a: &Integer, b: &Integer) -> (r: Integer)
    ensures
        r@ == a@ + b@,
{
    let x = BigInt::from_signed_bytes_le(&a.bytes);
    let y = BigInt::from_signed_bytes_le(&b.bytes);
    Integer { bytes: (x + y).to_signed_bytes_le() }
}

/// `BigInt`'s `-`: the difference.
#[verifier::external_body]
fn difference(a: &Integer, b: &Integer) -> (r: Integer)
    ensures
        r@ == a@ - b@,
{
    let x = BigInt::from_signed_bytes_le(&a.bytes);
    let y = BigInt::from_signed_bytes_le(&b.bytes);
    Integer { bytes: (x - y).to_signed_bytes_le() }
}

/// `BigInt`'s `*`: the product.
#[verifier::external_body]
fn product(a: &Integer, b: &Integer) -> (r: Integer)
    ensures
        r@ == a@ * b@,
{
    let x = BigInt::from_signed_bytes_le(&a.bytes);
    let y = BigInt::from_signed_bytes_le(&b.bytes);
    Integer { bytes: (x * y).to_signed_bytes_le() }
}

/// `BigInt::checked_div`: nothing for a zero divisor, else the quotient
/// rounded towards zero.
#[verifier::external_body]
fn quotient(a: &Integer, b: &Integer) -> (r: Option<Integer>)
    ensures
        r is None <==> b@ == 0,
        r matches Some(q) ==> q@ == truncated_quotient(a@, b@),
{
    let x = BigInt::from_signed_bytes_le(&a.bytes);
    let y = BigInt::from_signed_bytes_le(&b.bytes);
    match x.checked_div(&y) {
        Some(q) => Some(Integer { bytes: q.to_signed_bytes_le() }),
        None => None,
    }
}

/// `Pow::pow` of a `BigInt` by a `usize`: the power, where any number to
/// the power zero is one.
#[verifier::external_body]
fn power(a: &Integer, e: usize) -> (r: Integer)
    ensures
        r@ == pow(a@, e as nat),
{
    let x = BigInt::from_signed_bytes_le(&a.bytes);
    Integer { bytes: Pow::pow(&x, e).to_signed_bytes_le() }
}

/// `BigInt`'s `to_usize`: the value, if a `usize` can hold it.
#[verifier::external_body]
fn index(a: &Integer) -> (r: Option<usize>)
    ensures
        r is Some <==> 0 <= a@ <= usize::MAX,
        r matches Some(v) ==> v == a@,
{
    BigInt::from_signed_bytes_le(&a.bytes).to_usize()
}

/// `BigInt`'s `to_i32`: the value, if an `i32` can hold it.
#[verifier::external_body]
fn narrow_32(a: &Integer) -> (r: Option<i32>)
    ensures
        r is Some <==> i32::MIN <= a@ <= i32::MAX,
        r matches Some(v) ==> v == a@,
{
    BigInt::from_signed_bytes_le(&a.bytes).to_i32()
}

/// `BigInt`'s `to_i64`: the value, if an `i64` can hold it.
#[verifier::external_body]
fn narrow_64(a: &Integer) -> (r: Option<i64>)
    ensures
        r is Some <==> i64::MIN <= a@ <= i64::MAX,
        r matches Some(v) ==> v == a@,
{
    BigInt::from_signed_bytes_le(&a.bytes).to_i64()
}

/// `BigInt`'s `to_i128`: the value, if an `i128` can hold it.
#[verifier::external_body]
fn narrow_128(a: &Integer) -> (r: Option<i128>)
    ensures
        r is Some <==> i128::MIN <= a@ <= i128::MAX,
        r matches Some(v) ==> v == a@,
{
    BigInt::from_signed_bytes_le(&a.bytes).to_i128()
}

/// `BigInt`'s `cmp`: the order of the two values.
#[verifier::external_body]
fn order(a: &Integer, b: &Integer) -> (r: Order)
    ensures
        r == order_of(a@, b@),
{
    let x = BigInt::from_signed_bytes_le(&a.bytes);
    match x.cmp(&BigInt::from_signed_bytes_le(&b.bytes)) {
        std::cmp::Ordering::Less => Order::Less,
        std::cmp::Ordering::Equal => Order::Equal,
        std::cmp::Ordering::Greater => Order::Greater,
    }
}

} // verus!
