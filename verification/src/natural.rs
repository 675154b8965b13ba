//! Arbitrary-precision unsigned integers, held as big-endian bytes.

use vstd::prelude::*;
use crate::foreign::{eq_bytes, modpow_bytes, mul_bytes, random_below_bytes, sub_bytes, ge_bytes};
use vstd::arithmetic::power::pow;

verus! {

/// The number that a sequence of bytes encodes, most significant byte first.
pub open spec fn be_value(s: Seq<u8>) -> nat
    decreases s.len(),
{
    if s.len() == 0 {
        0
    } else {
        be_value(s.drop_last()) * 256 + s.last() as nat
    }
}

/// The shortest encoding of a number: no leading zero byte, with zero itself
/// written as the single byte `0`.
pub open spec fn canonical(s: Seq<u8>) -> bool {
    s.len() >= 1 && (s.len() > 1 ==> s[0] != 0)
}

/// Appending a byte multiplies the value by 256 and adds the byte.
pub proof fn lemma_be_value_push(s: Seq<u8>, b: u8)
    ensures
        be_value(s.push(b)) == be_value(s) * 256 + b as nat,
{
    assert(s.push(b).drop_last() =~= s);
}

/// A leading zero byte does not change the value.
pub proof fn lemma_be_value_leading_zero(s: Seq<u8>)
    requires
        s.len() > 0,
        s[0] == 0,
    ensures
        be_value(s) == be_value(s.subrange(1, s.len() as int)),
    decreases s.len(),
{
    let rest = s.subrange(1, s.len() as int);
    if s.len() == 1 {
        assert(be_value(s.drop_last()) == 0);
        assert(rest.len() == 0);
    } else {
        lemma_be_value_leading_zero(s.drop_last());
        assert(rest.drop_last() =~= s.drop_last().subrange(1, s.len() - 1));
        assert(rest.last() == s.last());
    }
}

/// A sequence whose last byte is not zero encodes a positive number.
pub proof fn lemma_be_value_positive(s: Seq<u8>)
    requires
        s.len() > 0,
        s.last() != 0,
    ensures
        be_value(s) > 0,
{
}

/// A sequence whose first byte is not zero encodes a positive number.
pub proof fn lemma_be_value_leading_nonzero(s: Seq<u8>)
    requires
        s.len() > 0,
        s[0] != 0,
    ensures
        be_value(s) > 0,
    decreases s.len(),
{
    if s.len() > 1 {
        lemma_be_value_leading_nonzero(s.drop_last());
    }
}

/// Two sequences without a leading zero byte that encode the same number
/// are the same sequence.
pub proof fn lemma_be_value_injective(a: Seq<u8>, b: Seq<u8>)
    requires
        a.len() > 0 ==> a[0] != 0,
        b.len() > 0 ==> b[0] != 0,
        be_value(a) == be_value(b),
    ensures
        a == b,
    decreases a.len(),
{
    if a.len() == 0 {
        if b.len() > 0 {
            lemma_be_value_leading_nonzero(b);
        }
    } else if b.len() == 0 {
        lemma_be_value_leading_nonzero(a);
    } else {
        lemma_be_value_injective(a.drop_last(), b.drop_last());
        assert(a =~= a.drop_last().push(a.last()));
        assert(b =~= b.drop_last().push(b.last()));
    }
    assert(a =~= b);
}

/// Every number has one shortest encoding: two canonical sequences that
/// encode the same number are the same sequence.
pub proof fn lemma_canonical_unique(a: Seq<u8>, b: Seq<u8>)
    requires
        canonical(a),
        canonical(b),
        be_value(a) == be_value(b),
    ensures
        a == b,
{
    if a[0] == 0 {
        assert(be_value(a.drop_last()) == 0);
        if b.len() > 1 {
            lemma_be_value_leading_nonzero(b);
        }
        assert(be_value(b.drop_last()) == 0);
        assert(a =~= b);
    } else if b[0] == 0 {
        assert(be_value(b.drop_last()) == 0);
        lemma_be_value_leading_nonzero(a);
    } else {
        lemma_be_value_injective(a, b);
    }
}

/// An unsigned integer of any size.
#[derive(Debug, PartialEq, Eq)]
pub struct Natural {
    bytes: Vec<u8>,
}

impl View for Natural {
    type V = nat;

    closed spec fn view(&self) -> nat {
        be_value(self.bytes@)
    }
}

impl Clone for Natural {
    fn clone(&self) -> (r: Self)
        ensures
            r@ == self@,
    {
        proof {
            use_type_invariant(self);
        }
        let bytes = self.bytes.clone();
        assert(bytes@ =~= self.bytes@);
        Natural { bytes }
    }
}

impl Natural {
    #[verifier::type_invariant]
    spec fn well_formed(self) -> bool {
        canonical(self.bytes@)
    }

    /// The number that `bytes` encode, most significant byte first. Leading
    /// zero bytes are allowed and an empty slice is zero.
    pub fn from_bytes_be(bytes: &[u8]) -> (r: Natural)
        ensures
            r@ == be_value(bytes@),
    {
        let n = bytes.len();
        let mut start: usize = 0;
        assert(bytes@.subrange(0, n as int) =~= bytes@);
        while start < n && bytes[start] == 0
            invariant
                n == bytes@.len(),
                start <= n,
                be_value(bytes@.subrange(start as int, n as int)) == be_value(bytes@),
            decreases n - start,
        {
            proof {
                let tail = bytes@.subrange(start as int, n as int);
                lemma_be_value_leading_zero(tail);
                assert(tail.subrange(1, tail.len() as int) =~= bytes@.subrange(start + 1, n as int));
            }
            start += 1;
        }
        let mut out: Vec<u8> = Vec::new();
        if start == n {
            out.push(0u8);
            assert(be_value(bytes@.subrange(start as int, n as int)) == 0);
            assert(out@ =~= seq![0u8]);
            assert(be_value(out@.drop_last()) == 0);
            return Natural { bytes: out };
        }
        let mut i: usize = start;
        while i < n
            invariant
                n == bytes@.len(),
                start <= i <= n,
                out@ == bytes@.subrange(start as int, i as int),
            decreases n - i,
        {
            out.push(bytes[i]);
            assert(out@ =~= bytes@.subrange(start as int, i + 1));
            i += 1;
        }
        assert(out@[0] == bytes@[start as int]);
        Natural { bytes: out }
    }

    /// The shortest big-endian encoding of the number.
    pub fn to_bytes_be(&self) -> (r: Vec<u8>)
        ensures
            canonical(r@),
            be_value(r@) == self@,
    {
        proof {
            use_type_invariant(self);
        }
        let r = self.bytes.clone();
        assert(r@ =~= self.bytes@);
        r
    }

    /// The number `v`.
    pub fn from_u32(v: u32) -> (r: Natural)
        ensures
            r@ == v as nat,
    {
        let b0: u8 = (v / 16777216) as u8;
        let b1: u8 = ((v / 65536) % 256) as u8;
        let b2: u8 = ((v / 256) % 256) as u8;
        let b3: u8 = (v % 256) as u8;
        let mut raw: Vec<u8> = Vec::new();
        raw.push(b0);
        raw.push(b1);
        raw.push(b2);
        raw.push(b3);
        proof {
            let e = Seq::<u8>::empty();
            lemma_be_value_push(e, b0);
            lemma_be_value_push(e.push(b0), b1);
            lemma_be_value_push(e.push(b0).push(b1), b2);
            lemma_be_value_push(e.push(b0).push(b1).push(b2), b3);
            assert(raw@ =~= e.push(b0).push(b1).push(b2).push(b3));
        }
        Natural::from_bytes_be(raw.as_slice())
    }

    /// Whether the number is zero.
    pub fn is_zero(&self) -> (r: bool)
        ensures
            r == (self@ == 0),
    {
        let zero = Natural::from_u32(0);
        eq_bytes(&self.bytes, &zero.bytes)
    }

    /// Whether the two numbers are equal.
    pub fn equals(&self, other: &Natural) -> (r: bool)
        ensures
            r == (self@ == other@),
    {
        eq_bytes(&self.bytes, &other.bytes)
    }

    /// Whether `self` is at least `other`.
    pub fn at_least(&self, other: &Natural) -> (r: bool)
        ensures
            r == (self@ >= other@),
    {
        ge_bytes(&self.bytes, &other.bytes)
    }

    /// The product of the two numbers.
    pub fn times(&self, other: &Natural) -> (r: Natural)
        ensures
            r@ == self@ * other@,
    {
        let raw = mul_bytes(&self.bytes, &other.bytes);
        Natural::from_bytes_be(raw.as_slice())
    }

    /// The difference `self - other`, for `other` no larger than `self`.
    pub fn minus(&self, other: &Natural) -> (r: Natural)
        requires
            self@ >= other@,
        ensures
            r@ == self@ - other@,
    {
        let raw = sub_bytes(&self.bytes, &other.bytes);
        Natural::from_bytes_be(raw.as_slice())
    }

    /// `self` raised to `exponent`, reduced modulo `modulus`.
    pub fn modpow(&self, exponent: &Natural, modulus: &Natural) -> (r: Natural)
        requires
            modulus@ != 0,
        ensures
            r@ == pow(self@ as int, exponent@) % (modulus@ as int),
    {
        let raw = modpow_bytes(&self.bytes, &exponent.bytes, &modulus.bytes);
        Natural::from_bytes_be(raw.as_slice())
    }

    /// A number below `limit`, drawn at random.
    pub fn random_below(limit: &Natural) -> (r: Natural)
        requires
            limit@ != 0,
        ensures
            r@ < limit@,
    {
        let raw = random_below_bytes(&limit.bytes);
        Natural::from_bytes_be(raw.as_slice())
    }
}

} // verus!
