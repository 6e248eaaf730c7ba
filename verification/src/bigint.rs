//! Integers of unbounded size, kept as their minimal two's complement encoding
//! in little-endian byte order. The arithmetic is done by the `num` crate.

use vstd::prelude::*;

verus! {

/// 256 to the power `n`.
pub open spec fn byte_base(n: nat) -> nat
    decreases n,
{
    if n == 0 {
        1
    } else {
        256 * byte_base((n - 1) as nat)
    }
}

/// The value of `bytes` read as an unsigned number, least significant byte first.
pub open spec fn unsigned_le_value(bytes: Seq<u8>) -> nat
    decreases bytes.len(),
{
    if bytes.len() == 0 {
        0
    } else {
        bytes[0] as nat + 256 * unsigned_le_value(bytes.drop_first())
    }
}

/// The value of `bytes` read as a two's complement number, least significant byte
/// first. No bytes read as zero.
pub open spec fn signed_le_value(bytes: Seq<u8>) -> int {
    if bytes.len() == 0 {
        0
    } else if bytes.last() >= 0x80 {
        unsigned_le_value(bytes) - byte_base(bytes.len())
    } else {
        unsigned_le_value(bytes) as int
    }
}

/// The shortest two's complement encoding of `v`, least significant byte first
/// (zero is one zero byte).
pub open spec fn signed_le_bytes(v: int) -> Seq<u8>
    decreases (if v < 0 { -v } else { v }),
{
    if -128 <= v < 128 {
        seq![(v % 256) as u8]
    } else {
        seq![(v % 256) as u8] + signed_le_bytes(v / 256)
    }
}

/// Two's complement bitwise and of two integers of any size.
pub open spec fn int_and(a: int, b: int) -> int
    decreases (if a < 0 { -a } else { a }) + (if b < 0 { -b } else { b }),
{
    if a == 0 || b == 0 {
        0
    } else if a == -1 {
        b
    } else if b == -1 {
        a
    } else {
        2 * int_and(a / 2, b / 2) + (a % 2) * (b % 2)
    }
}

/// Two's complement bitwise or of two integers of any size.
pub open spec fn int_or(a: int, b: int) -> int
    decreases (if a < 0 { -a } else { a }) + (if b < 0 { -b } else { b }),
{
    if a == 0 {
        b
    } else if b == 0 {
        a
    } else if a == -1 || b == -1 {
        -1
    } else {
        2 * int_or(a / 2, b / 2) + (if a % 2 == 1 || b % 2 == 1 { 1int } else { 0int })
    }
}

/// An integer of unbounded size.
#[derive(Debug)]
pub struct BigInt {
    bytes: Vec<u8>,
}

impl View for BigInt {
    type V = int;

    closed spec fn view(&self) -> int {
        signed_le_value(self.bytes@)
    }
}

impl BigInt {
    /// The encoding is always the shortest one, so that equal values have equal bytes.
    #[verifier::type_invariant]
    spec fn canonical(self) -> bool {
        self.bytes@ == signed_le_bytes(signed_le_value(self.bytes@))
    }

    /// The bytes of the value, in the shortest two's complement encoding, least
    /// significant byte first.
    pub closed spec fn spec_bytes(&self) -> Seq<u8> {
        self.bytes@
    }
}

/// `num::BigInt::from_signed_bytes_le` followed by `to_signed_bytes_le`: reads a two's
/// complement encoding (least significant byte first) and re-encodes it in the shortest
/// form. Claims that the value is kept and that the encoding is the shortest one, as
/// num-bigint's conversion code does.
#[verifier::external_body]
fn num_from_signed_bytes_le(bytes: &[u8]) -> (r: BigInt)
    ensures
        r@ == signed_le_value(bytes@),
        r.spec_bytes() == signed_le_bytes(r@),
{
    BigInt { bytes: num::BigInt::from_signed_bytes_le(bytes).to_signed_bytes_le() }
}

/// `num::BigInt::from(i128)`, re-encoded as above. Claims that the value is kept.
#[verifier::external_body]
fn num_from_i128(n: i128) -> (r: BigInt)
    ensures
        r@ == n,
        r.spec_bytes() == signed_le_bytes(r@),
{
    BigInt { bytes: num::BigInt::from(n).to_signed_bytes_le() }
}

/// `num::BigInt::from(u128)`, re-encoded as above. Claims that the value is kept.
#[verifier::external_body]
fn num_from_u128(n: u128) -> (r: BigInt)
    ensures
        r@ == n,
        r.spec_bytes() == signed_le_bytes(r@),
{
    BigInt { bytes: num::BigInt::from(n).to_signed_bytes_le() }
}

/// `i128::try_from(&num::BigInt)`: the value if it fits in an `i128`, else nothing.
#[verifier::external_body]
fn num_to_i128(b: &BigInt) -> (r: Option<i128>)
    ensures
        r matches Some(n) ==> n == b@,
        r is None ==> !(i128::MIN <= b@ <= i128::MAX),
{
    i128::try_from(&num::BigInt::from_signed_bytes_le(&b.bytes)).ok()
}

/// `usize::try_from(&num::BigInt)`: the value if it fits in a `usize`, else nothing.
#[verifier::external_body]
fn num_to_usize(b: &BigInt) -> (r: Option<usize>)
    ensures
        r matches Some(n) ==> n == b@,
        r is None ==> !(0 <= b@ <= usize::MAX),
{
    usize::try_from(&num::BigInt::from_signed_bytes_le(&b.bytes)).ok()
}

/// `num::BigInt + num::BigInt`: the exact sum.
#[verifier::external_body]
fn num_add(a: &BigInt, b: &BigInt) -> (r: BigInt)
    ensures
        r@ == a@ + b@,
        r.spec_bytes() == signed_le_bytes(r@),
{
    let a = num::BigInt::from_signed_bytes_le(&a.bytes);
    let b = num::BigInt::from_signed_bytes_le(&b.bytes);
    BigInt { bytes: (a + b).to_signed_bytes_le() }
}

/// `num::BigInt - num::BigInt`: the exact difference.
#[verifier::external_body]
fn num_sub(a: &BigInt, b: &BigInt) -> (r: BigInt)
    ensures
        r@ == a@ - b@,
        r.spec_bytes() == signed_le_bytes(r@),
{
    let a = num::BigInt::from_signed_bytes_le(&a.bytes);
    let b = num::BigInt::from_signed_bytes_le(&b.bytes);
    BigInt { bytes: (a - b).to_signed_bytes_le() }
}

/// `num::BigInt * num::BigInt`: the exact product.
#[verifier::external_body]
fn num_mul(a: &BigInt, b: &BigInt) -> (r: BigInt)
    ensures
        r@ == a@ * b@,
        r.spec_bytes() == signed_le_bytes(r@),
{
    let a = num::BigInt::from_signed_bytes_le(&a.bytes);
    let b = num::BigInt::from_signed_bytes_le(&b.bytes);
    BigInt { bytes: (a * b).to_signed_bytes_le() }
}

/// `num::BigInt & num::BigInt`: the bitwise and, in two's complement.
#[verifier::external_body]
fn num_and(a: &BigInt, b: &BigInt) -> (r: BigInt)
    ensures
        r@ == int_and(a@, b@),
        r.spec_bytes() == signed_le_bytes(r@),
{
    let a = num::BigInt::from_signed_bytes_le(&a.bytes);
    let b = num::BigInt::from_signed_bytes_le(&b.bytes);
    BigInt { bytes: (a & b).to_signed_bytes_le() }
}

/// `num::BigInt | num::BigInt`: the bitwise or, in two's complement.
#[verifier::external_body]
fn num_or(a: &BigInt, b: &BigInt) -> (r: BigInt)
    ensures
        r@ == int_or(a@, b@),
        r.spec_bytes() == signed_le_bytes(r@),
{
    let a = num::BigInt::from_signed_bytes_le(&a.bytes);
    let b = num::BigInt::from_signed_bytes_le(&b.bytes);
    BigInt { bytes: (a | b).to_signed_bytes_le() }
}

/// `num::BigInt == num::BigInt`: whether the two values are equal.
#[verifier::external_body]
fn num_eq(a: &BigInt, b: &BigInt) -> (r: bool)
    ensures
        r == (a@ == b@),
{
    num::BigInt::from_signed_bytes_le(&a.bytes) == num::BigInt::from_signed_bytes_le(&b.bytes)
}

impl Clone for BigInt {
    fn clone(&self) -> (r: BigInt)
        ensures
            r@ == self@,
    {
        proof {
            use_type_invariant(self);
        }
        let bytes = self.bytes.clone();
        assert(bytes@ =~= self.bytes@);
        BigInt { bytes }
    }
}

impl BigInt {
    /// Reads a two's complement number, least significant byte first.
    pub fn from_signed_bytes_le(bytes: &[u8]) -> (r: BigInt)
        ensures
            r@ == signed_le_value(bytes@),
    {
        num_from_signed_bytes_le(bytes)
    }

    /// The shortest two's complement encoding of the value, least significant byte first.
    pub fn to_signed_bytes_le(&self) -> (r: Vec<u8>)
        ensures
            r@ == signed_le_bytes(self@),
    {
        proof {
            use_type_invariant(self);
        }
        let r = self.bytes.clone();
        assert(r@ =~= self.bytes@);
        r
    }

    pub fn from_i128(n: i128) -> (r: BigInt)
        ensures
            r@ == n,
    {
        num_from_i128(n)
    }

    pub fn from_u128(n: u128) -> (r: BigInt)
        ensures
            r@ == n,
    {
        num_from_u128(n)
    }

    /// The value as an `i128`, if it fits.
    pub fn to_i128(&self) -> (r: Option<i128>)
        ensures
            r matches Some(n) ==> n == self@,
            r is None <==> !(i128::MIN <= self@ <= i128::MAX),
    {
        num_to_i128(self)
    }

    /// The value as a `usize`, if it fits.
    pub fn to_usize(&self) -> (r: Option<usize>)
        ensures
            r matches Some(n) ==> n == self@,
            r is None <==> !(0 <= self@ <= usize::MAX),
    {
        num_to_usize(self)
    }

    pub fn add(&self, rhs: &BigInt) -> (r: BigInt)
        ensures
            r@ == self@ + rhs@,
    {
        num_add(self, rhs)
    }

    pub fn sub(&self, rhs: &BigInt) -> (r: BigInt)
        ensures
            r@ == self@ - rhs@,
    {
        num_sub(self, rhs)
    }

    pub fn mul(&self, rhs: &BigInt) -> (r: BigInt)
        ensures
            r@ == self@ * rhs@,
    {
        num_mul(self, rhs)
    }

    pub fn bitand(&self, rhs: &BigInt) -> (r: BigInt)
        ensures
            r@ == int_and(self@, rhs@),
    {
        num_and(self, rhs)
    }

    pub fn bitor(&self, rhs: &BigInt) -> (r: BigInt)
        ensures
            r@ == int_or(self@, rhs@),
    {
        num_or(self, rhs)
    }

    pub fn equals(&self, rhs: &BigInt) -> (r: bool)
        ensures
            r == (self@ == rhs@),
    {
        num_eq(self, rhs)
    }
}

/// The value of bytes is their prefix's plus the last byte's weighted by its place.
proof fn lemma_unsigned_le_last(s: Seq<u8>)
    requires
        s.len() > 0,
    ensures
        unsigned_le_value(s) == unsigned_le_value(s.drop_last()) + byte_base((s.len() - 1) as nat)
            * s.last(),
    decreases s.len(),
{
    if s.len() == 1 {
        assert(s.drop_last() =~= Seq::<u8>::empty());
        assert(s.drop_first() =~= Seq::<u8>::empty());
        assert(unsigned_le_value(Seq::<u8>::empty()) == 0);
        assert(byte_base(0) == 1);
        assert(unsigned_le_value(s) == s[0]);
        assert(s.last() == s[0]);
    } else {
        let t = s.drop_first();
        lemma_unsigned_le_last(t);
        assert(t.drop_last() =~= s.drop_last().drop_first());
        assert(t.last() == s.last());
        let p = byte_base((t.len() - 1) as nat);
        assert(byte_base((s.len() - 1) as nat) == 256 * p);
        assert(unsigned_le_value(s) == s[0] + 256 * unsigned_le_value(t));
        assert(unsigned_le_value(s.drop_last()) == s[0] + 256 * unsigned_le_value(t.drop_last()));
        let ut = unsigned_le_value(t.drop_last());
        let tl = t.last() as int;
        assert(256 * (ut + p * tl) == 256 * ut + (256 * p) * tl) by (nonlinear_arith);
        assert(unsigned_le_value(t) == ut + p * tl);
        assert(unsigned_le_value(s) == s[0] + 256 * ut + (256 * p) * tl);
    }
}

proof fn lemma_unsigned_le_below(s: Seq<u8>)
    ensures
        unsigned_le_value(s) < byte_base(s.len()),
    decreases s.len(),
{
    if s.len() > 0 {
        lemma_unsigned_le_below(s.drop_first());
    }
}

/// The value of `n` bytes read as two's complement lies in `[-256^n / 2, 256^n / 2)`.
pub proof fn lemma_signed_le_value_bounds(s: Seq<u8>)
    requires
        s.len() > 0,
    ensures
        -(byte_base(s.len()) / 2) <= signed_le_value(s) < byte_base(s.len()) / 2,
{
    lemma_unsigned_le_last(s);
    lemma_unsigned_le_below(s.drop_last());
    let p = byte_base((s.len() - 1) as nat);
    assert(byte_base(s.len()) == 256 * p);
    let u = unsigned_le_value(s.drop_last());
    let l = s.last() as int;
    if l >= 0x80 {
        assert(p * l >= p * 128) by (nonlinear_arith)
            requires
                l >= 128,
                p >= 0,
        ;
        assert(p * l <= p * 255) by (nonlinear_arith)
            requires
                l <= 255,
                p >= 0,
        ;
    } else {
        assert(p * l <= p * 127) by (nonlinear_arith)
            requires
                l <= 127,
                p >= 0,
        ;
        assert(p * l >= 0) by (nonlinear_arith)
            requires
                l >= 0,
                p >= 0,
        ;
    }
}

} // verus!
