//! The calls into `num_bigint`, `rand` and `hex`.
//!
//! Numbers cross this boundary as big-endian bytes: `BigUint::from_bytes_be`
//! reads the arguments and `BigUint::to_bytes_be` writes the result, and
//! `be_value` is the number that both mean by a sequence of bytes. The
//! contracts in this file are taken on trust from the documentation of those
//! crates; nothing here is proved.

use vstd::prelude::*;
use vstd::arithmetic::power::pow;
use num_bigint::{BigUint, RandBigInt};
use rand::distributions::Alphanumeric;
use rand::Rng;
use crate::natural::be_value;

verus! {

/// The error of `hex::decode`.
#[verifier::external_type_specification]
#[verifier::external_body]
pub struct ExFromHexError(hex::FromHexError);

/// The digits `0`-`9`, `a`-`f` and `A`-`F`.
pub open spec fn is_hex_digit(c: char) -> bool {
    ('0' <= c && c <= '9') || ('a' <= c && c <= 'f') || ('A' <= c && c <= 'F')
}

/// The number that a hexadecimal digit stands for.
pub open spec fn hex_digit_value(c: char) -> int {
    if '0' <= c && c <= '9' {
        c as int - '0' as int
    } else if 'a' <= c && c <= 'f' {
        c as int - 'a' as int + 10
    } else {
        c as int - 'A' as int + 10
    }
}

/// A text of hexadecimal digits, two for each byte.
pub open spec fn is_hex_text(s: Seq<char>) -> bool {
    s.len() % 2 == 0 && forall|i: int| 0 <= i < s.len() ==> is_hex_digit(#[trigger] s[i])
}

/// The bytes that a hexadecimal text spells, the high digit of each first.
pub open spec fn hex_bytes(s: Seq<char>) -> Seq<u8> {
    Seq::new(
        s.len() / 2,
        |i: int| (16 * hex_digit_value(s[2 * i]) + hex_digit_value(s[2 * i + 1])) as u8,
    )
}

/// `hex::decode`: a text of an even number of hexadecimal digits, capital or
/// small, gives the bytes that it spells; any other text gives an error.
#[verifier::external_body]
pub(crate) fn decode_hex(text: &str) -> (r: Result<Vec<u8>, hex::FromHexError>)
    ensures
        r is Ok == is_hex_text(text@),
        r is Ok ==> r->Ok_0@ == hex_bytes(text@),
{
    hex::decode(text)
}

/// The characters `A`-`Z`, `a`-`z` and `0`-`9`.
pub open spec fn is_alphanumeric(c: char) -> bool {
    ('A' <= c && c <= 'Z') || ('a' <= c && c <= 'z') || ('0' <= c && c <= '9')
}

/// `BigUint::modpow`: the bytes returned encode `base ^ exponent mod modulus`.
/// The call panics on a zero modulus, which the precondition excludes.
#[verifier::external_body]
pub(crate) fn modpow_bytes(base: &Vec<u8>, exponent: &Vec<u8>, modulus: &Vec<u8>) -> (r: Vec<u8>)
    requires
        be_value(modulus@) != 0,
    ensures
        be_value(r@) == pow(be_value(base@) as int, be_value(exponent@)) % (be_value(modulus@) as int),
{
    let b = BigUint::from_bytes_be(base);
    let e = BigUint::from_bytes_be(exponent);
    let m = BigUint::from_bytes_be(modulus);
    b.modpow(&e, &m).to_bytes_be()
}

/// Multiplication of two `BigUint`s: the bytes returned encode the product.
#[verifier::external_body]
pub(crate) fn mul_bytes(a: &Vec<u8>, b: &Vec<u8>) -> (r: Vec<u8>)
    ensures
        be_value(r@) == be_value(a@) * be_value(b@),
{
    (BigUint::from_bytes_be(a) * BigUint::from_bytes_be(b)).to_bytes_be()
}

/// Subtraction of two `BigUint`s: the bytes returned encode the difference.
/// The call panics when the result would be negative, which the precondition
/// excludes.
#[verifier::external_body]
pub(crate) fn sub_bytes(a: &Vec<u8>, b: &Vec<u8>) -> (r: Vec<u8>)
    requires
        be_value(a@) >= be_value(b@),
    ensures
        be_value(r@) == be_value(a@) - be_value(b@),
{
    (BigUint::from_bytes_be(a) - BigUint::from_bytes_be(b)).to_bytes_be()
}

/// `>=` on two `BigUint`s: true exactly when the first number is at least
/// the second.
#[verifier::external_body]
pub(crate) fn ge_bytes(a: &Vec<u8>, b: &Vec<u8>) -> (r: bool)
    ensures
        r == (be_value(a@) >= be_value(b@)),
{
    BigUint::from_bytes_be(a) >= BigUint::from_bytes_be(b)
}

/// `==` on two `BigUint`s: true exactly when the two numbers are equal.
#[verifier::external_body]
pub(crate) fn eq_bytes(a: &Vec<u8>, b: &Vec<u8>) -> (r: bool)
    ensures
        r == (be_value(a@) == be_value(b@)),
{
    BigUint::from_bytes_be(a) == BigUint::from_bytes_be(b)
}

/// `RandBigInt::gen_biguint_below` on the thread's generator: the bytes
/// returned encode some number below `limit`. Which one is left open. The
/// call panics on a zero limit, which the precondition excludes.
#[verifier::external_body]
pub(crate) fn random_below_bytes(limit: &Vec<u8>) -> (r: Vec<u8>)
    requires
        be_value(limit@) != 0,
    ensures
        be_value(r@) < be_value(limit@),
{
    let mut rng = rand::thread_rng();
    rng.gen_biguint_below(&BigUint::from_bytes_be(limit)).to_bytes_be()
}

/// `Rng::sample_iter` with `Alphanumeric`: a string of `size` characters,
/// each a letter or a digit of ASCII. Which ones is left open.
#[verifier::external_body]
pub(crate) fn random_alphanumeric(size: usize) -> (r: String)
    ensures
        r@.len() == size,
        forall|i: int| 0 <= i < r@.len() ==> is_alphanumeric(#[trigger] r@[i]),
{
    let rng = rand::thread_rng();
    rng.sample_iter(&Alphanumeric).take(size).map(char::from).collect()
}

} // verus!
