//! Numbers of the value model: integers of any size, kept in the smallest of three
//! representations, and floats, kept as their IEEE 754 bit pattern.

use vstd::prelude::*;

use vstd::arithmetic::power2::pow2;

use crate::bigint::{int_and, int_or, signed_le_value, BigInt};
use crate::error::Error;

verus! {

/// What a number stands for: an integer, or a float given by its bit pattern.
pub enum NumberModel {
    Int(int),
    Float(u64),
}

/// The representation of a number. An integer is always held in the smallest of
/// `I64`, `I128` and `BigInt` that it fits in.
#[derive(Debug)]
pub enum N {
    I64(i64),
    I128(i128),
    BigInt(BigInt),
    /// An IEEE 754 double, by its bit pattern.
    F64(u64),
}

/// Whether the bit pattern is that of a NaN.
pub open spec fn f64_bits_is_nan(bits: u64) -> bool {
    (bits >> 52u64) & 0x7ffu64 == 0x7ffu64 && bits & 0xf_ffff_ffff_ffffu64 != 0
}

/// IEEE 754 equality of two doubles given by their bit patterns: a NaN equals
/// nothing, the two zeros are equal, and otherwise equal values have equal bits.
pub open spec fn f64_bits_eq(a: u64, b: u64) -> bool {
    &&& !f64_bits_is_nan(a)
    &&& !f64_bits_is_nan(b)
    &&& (a == b || (a & 0x7fff_ffff_ffff_ffffu64 == 0 && b & 0x7fff_ffff_ffff_ffffu64 == 0))
}

/// The integer that the double with bit pattern `bits` is, if it is finite and
/// integral: its sign, times its significand (with the hidden bit for a normal
/// double) times two to its exponent.
pub open spec fn f64_integral(bits: u64) -> Option<int> {
    let e = ((bits >> 52u64) & 0x7ffu64) as int;
    let m = (bits & 0xf_ffff_ffff_ffffu64) as int;
    let negative = (bits >> 63u64) == 1u64;
    if e == 0x7ff {
        None
    } else if e == 0 {
        if m == 0 {
            Some(0)
        } else {
            None
        }
    } else {
        let significand = m + 0x10_0000_0000_0000;
        let magnitude = if e >= 1075 {
            Some(significand * pow2((e - 1075) as nat))
        } else if significand % (pow2((1075 - e) as nat) as int) == 0 {
            Some(significand / (pow2((1075 - e) as nat) as int))
        } else {
            None
        };
        match magnitude {
            Some(v) => Some(if negative { -v } else { v }),
            None => None,
        }
    }
}

impl N {
    pub open spec fn model(&self) -> NumberModel {
        match self {
            N::I64(n) => NumberModel::Int(*n as int),
            N::I128(n) => NumberModel::Int(*n as int),
            N::BigInt(n) => NumberModel::Int(n@),
            N::F64(bits) => NumberModel::Float(*bits),
        }
    }

    /// An integer is held in the smallest representation it fits in.
    pub open spec fn is_smallest(&self) -> bool {
        match self {
            N::I64(_) => true,
            N::I128(n) => !(i64::MIN <= *n <= i64::MAX),
            N::BigInt(n) => !(i128::MIN <= n@ <= i128::MAX),
            N::F64(_) => true,
        }
    }

    /// The representation that a pickled number gets: an integer in the smallest
    /// representation, and a float only where it is not an integer.
    pub open spec fn is_normal(&self) -> bool {
        &&& self.is_smallest()
        &&& (self matches N::F64(bits) ==> f64_integral(*bits) is None)
    }
}

impl Clone for N {
    fn clone(&self) -> (r: N)
        ensures
            r.model() == self.model(),
            r.is_smallest() == self.is_smallest(),
            r is I64 <==> self is I64,
            r is I128 <==> self is I128,
            r is BigInt <==> self is BigInt,
            r is F64 <==> self is F64,
    {
        match self {
            N::I64(n) => N::I64(*n),
            N::I128(n) => N::I128(*n),
            N::BigInt(n) => N::BigInt(n.clone()),
            N::F64(bits) => N::F64(*bits),
        }
    }
}

/// The integer held in the smallest representation: `N::from(i128)`.
fn n_from_i128(n: i128) -> (r: N)
    ensures
        r.model() == NumberModel::Int(n as int),
        r.is_smallest(),
{
    if i64::MIN as i128 <= n && n <= i64::MAX as i128 {
        N::I64(n as i64)
    } else {
        N::I128(n)
    }
}

/// The integer held in the smallest representation: `N::from(BigInt)`.
fn n_from_big_int(n: BigInt) -> (r: N)
    ensures
        r.model() == NumberModel::Int(n@),
        r.is_smallest(),
{
    match n.to_i128() {
        Some(small) => n_from_i128(small),
        None => N::BigInt(n),
    }
}

/// The integer that the double with bit pattern `bits` is, if it is finite and
/// integral.
fn f64_integral_value(bits: u64) -> (r: Option<BigInt>)
    ensures
        match f64_integral(bits) {
            Some(v) => r matches Some(b) && b@ == v,
            None => r is None,
        },
{
    let e = (bits >> 52u64) & 0x7ffu64;
    let m = bits & 0xf_ffff_ffff_ffffu64;
    let negative = (bits >> 63u64) == 1u64;
    if e == 0x7ffu64 {
        return None;
    }
    if e == 0 {
        if m == 0 {
            return Some(BigInt::from_i128(0));
        }
        return None;
    }
    assert(m < 0x10_0000_0000_0000) by (bit_vector)
        requires
            m == bits & 0xf_ffff_ffff_ffffu64,
    ;
    assert(e <= 0x7ff) by (bit_vector)
        requires
            e == (bits >> 52u64) & 0x7ffu64,
    ;
    let significand: u64 = m + 0x10_0000_0000_0000u64;
    let magnitude: BigInt;
    if e >= 1075 {
        let k: u64 = e - 1075;
        let two = BigInt::from_i128(2);
        let mut acc = BigInt::from_i128(significand as i128);
        let mut i: u64 = 0;
        proof {
            vstd::arithmetic::power2::lemma_pow2(0);
            vstd::arithmetic::power::lemma_pow0(2);
        }
        while i < k
            invariant
                i <= k,
                two@ == 2,
                acc@ == significand * pow2(i as nat),
            decreases k - i,
        {
            proof {
                vstd::arithmetic::power2::lemma_pow2_unfold((i + 1) as nat);
                vstd::arithmetic::mul::lemma_mul_is_associative(
                    significand as int,
                    pow2(i as nat) as int,
                    2,
                );
            }
            acc = acc.mul(&two);
            i += 1;
        }
        magnitude = acc;
        assert(f64_integral(bits) == Some(if negative { -(magnitude@) } else { magnitude@ }));
    } else {
        let k: u64 = 1075 - e;
        if k >= 53 {
            proof {
                vstd::arithmetic::power2::lemma2_to64();
                vstd::arithmetic::power2::lemma2_to64_rest();
                if k > 53 {
                    vstd::arithmetic::power2::lemma_pow2_strictly_increases(53, k as nat);
                }
                vstd::arithmetic::div_mod::lemma_small_mod(significand as nat, pow2(k as nat));
            }
            return None;
        }
        proof {
            vstd::bits::lemma_u64_pow2_no_overflow(k as nat);
            vstd::arithmetic::power2::lemma2_to64();
            vstd::arithmetic::power2::lemma_pow2_strictly_increases(k as nat, 53);
            vstd::bits::lemma_u64_shl_is_mul(1, k);
            vstd::bits::lemma_u64_low_bits_mask_is_mod(significand, k as nat);
            vstd::bits::lemma_u64_shr_is_div(significand, k);
        }
        let mask: u64 = (1u64 << k) - 1;
        assert(mask == vstd::bits::low_bits_mask(k as nat) as u64);
        if significand & mask != 0 {
            return None;
        }
        let q: u64 = significand >> k;
        magnitude = BigInt::from_i128(q as i128);
        assert(f64_integral(bits) == Some(if negative { -(magnitude@) } else { magnitude@ }));
    }
    if negative {
        let minus_one = BigInt::from_i128(-1);
        let r = magnitude.mul(&minus_one);
        assert(r@ == -(magnitude@)) by (nonlinear_arith)
            requires
                r@ == magnitude@ * minus_one@,
                minus_one@ == -1,
        ;
        Some(r)
    } else {
        Some(magnitude)
    }
}

/// A number of the value model.
#[derive(Debug)]
pub struct Number(N);

impl View for Number {
    type V = NumberModel;

    closed spec fn view(&self) -> NumberModel {
        self.0.model()
    }
}

impl Clone for Number {
    fn clone(&self) -> (r: Number)
        ensures
            r@ == self@,
    {
        proof {
            use_type_invariant(self);
        }
        Number(self.0.clone())
    }
}

impl Number {
    #[verifier::type_invariant]
    spec fn smallest(self) -> bool {
        self.0.is_smallest()
    }

    pub closed spec fn spec_inner(&self) -> N {
        self.0
    }

    /// Numbers are only made from a smallest representation.
    fn new(n: N) -> (r: Number)
        requires
            n.is_smallest(),
        ensures
            r@ == n.model(),
            r.spec_inner() == n,
    {
        Number(n)
    }

    /// The representation of the number; an integer is always in the smallest one.
    pub fn inner(&self) -> (r: &N)
        ensures
            *r == self.spec_inner(),
            r.model() == self@,
            r.is_smallest(),
    {
        proof {
            use_type_invariant(self);
        }
        &self.0
    }

    pub fn from_i64(n: i64) -> (r: Number)
        ensures
            r@ == NumberModel::Int(n as int),
    {
        Number::new(N::I64(n))
    }

    pub fn from_u64(n: u64) -> (r: Number)
        ensures
            r@ == NumberModel::Int(n as int),
    {
        if n <= i64::MAX as u64 {
            Number::new(N::I64(n as i64))
        } else {
            Number::new(N::I128(n as i128))
        }
    }

    pub fn from_i128(n: i128) -> (r: Number)
        ensures
            r@ == NumberModel::Int(n as int),
    {
        Number::new(n_from_i128(n))
    }

    pub fn from_u128(n: u128) -> (r: Number)
        ensures
            r@ == NumberModel::Int(n as int),
    {
        if n <= i128::MAX as u128 {
            Number::new(n_from_i128(n as i128))
        } else {
            Number::new(n_from_big_int(BigInt::from_u128(n)))
        }
    }

    pub fn from_usize(n: usize) -> (r: Number)
        ensures
            r@ == NumberModel::Int(n as int),
    {
        Number::new(n_from_i128(n as i128))
    }

    pub fn from_i32(n: i32) -> (r: Number)
        ensures
            r@ == NumberModel::Int(n as int),
    {
        Number::new(N::I64(n as i64))
    }

    pub fn from_u32(n: u32) -> (r: Number)
        ensures
            r@ == NumberModel::Int(n as int),
    {
        Number::new(N::I64(n as i64))
    }

    pub fn from_i16(n: i16) -> (r: Number)
        ensures
            r@ == NumberModel::Int(n as int),
    {
        Number::new(N::I64(n as i64))
    }

    pub fn from_u16(n: u16) -> (r: Number)
        ensures
            r@ == NumberModel::Int(n as int),
    {
        Number::new(N::I64(n as i64))
    }

    pub fn from_i8(n: i8) -> (r: Number)
        ensures
            r@ == NumberModel::Int(n as int),
    {
        Number::new(N::I64(n as i64))
    }

    pub fn from_u8(n: u8) -> (r: Number)
        ensures
            r@ == NumberModel::Int(n as int),
    {
        Number::new(N::I64(n as i64))
    }

    /// `false` is 0 and `true` is 1.
    pub fn from_bool(b: bool) -> (r: Number)
        ensures
            r@ == NumberModel::Int(if b { 1int } else { 0int }),
    {
        Number::from_u8(if b { 1u8 } else { 0u8 })
    }

    pub fn from_big_int(n: BigInt) -> (r: Number)
        ensures
            r@ == NumberModel::Int(n@),
            r.spec_inner().is_normal(),
    {
        Number::new(n_from_big_int(n))
    }

    /// A pickled float, given by its IEEE 754 bit pattern (`From<f64>`): a float that
    /// is an integer becomes that integer.
    pub fn from_f64_bits(bits: u64) -> (r: Number)
        ensures
            r@ == match f64_integral(bits) {
                Some(v) => NumberModel::Int(v),
                None => NumberModel::Float(bits),
            },
            r.spec_inner().is_normal(),
    {
        match f64_integral_value(bits) {
            Some(v) => Number::from_big_int(v),
            None => Number::new(N::F64(bits)),
        }
    }

    /// A float, given by its IEEE 754 bit pattern, kept a float even where it is an
    /// integer (`Value::float`).
    pub fn float_from_bits(bits: u64) -> (r: Number)
        ensures
            r@ == NumberModel::Float(bits),
    {
        Number::new(N::F64(bits))
    }

    /// Reads a two's complement integer, least significant byte first.
    pub fn from_signed_bytes_le(bytes: &[u8]) -> (r: Number)
        ensures
            r@ == NumberModel::Int(signed_le_value(bytes@)),
    {
        let n = BigInt::from_signed_bytes_le(bytes);
        Number::from_big_int(n)
    }

    pub fn is_i64(&self) -> (r: bool)
        ensures
            r == (self.spec_inner() is I64),
    {
        matches!(self.0, N::I64(_))
    }

    pub fn is_i128(&self) -> (r: bool)
        ensures
            r == (self.spec_inner() is I128),
    {
        matches!(self.0, N::I128(_))
    }

    pub fn is_big_int(&self) -> (r: bool)
        ensures
            r == (self.spec_inner() is BigInt),
    {
        matches!(self.0, N::BigInt(_))
    }

    pub fn is_f64(&self) -> (r: bool)
        ensures
            r == (self@ is Float),
    {
        matches!(self.0, N::F64(_))
    }

    pub fn as_i64(&self) -> (r: Option<i64>)
        ensures
            r == (match self.spec_inner() {
                N::I64(n) => Some(n),
                _ => None::<i64>,
            }),
            r is Some <==> (self@ matches NumberModel::Int(v) && i64::MIN <= v <= i64::MAX),
            r matches Some(x) ==> self@ == NumberModel::Int(x as int),
    {
        proof {
            use_type_invariant(self);
        }
        match self.0 {
            N::I64(n) => Some(n),
            _ => None,
        }
    }

    pub fn as_i128(&self) -> (r: Option<i128>)
        ensures
            r == (match self.spec_inner() {
                N::I128(n) => Some(n),
                _ => None::<i128>,
            }),
    {
        match self.0 {
            N::I128(n) => Some(n),
            _ => None,
        }
    }

    pub fn as_big_int(&self) -> (r: Option<&BigInt>)
        ensures
            r matches Some(b) ==> self.spec_inner() == N::BigInt(*b),
            r is None <==> !(self.spec_inner() is BigInt),
    {
        match &self.0 {
            N::BigInt(n) => Some(n),
            _ => None,
        }
    }

    /// The bit pattern of the float, if the number is a float.
    pub fn as_f64_bits(&self) -> (r: Option<u64>)
        ensures
            r == (match self@ {
                NumberModel::Float(bits) => Some(bits),
                _ => None::<u64>,
            }),
    {
        match self.0 {
            N::F64(bits) => Some(bits),
            _ => None,
        }
    }

    /// The bitwise or of two integers, whatever their size; fails on floats.
    pub fn or(&self, rhs: &Number) -> (r: Result<Number, Error>)
        ensures
            match (self@, rhs@) {
                (NumberModel::Int(a), NumberModel::Int(b)) => r matches Ok(n) && n@
                    == NumberModel::Int(int_or(a, b)),
                _ => r matches Err(Error::FloatBitwise),
            },
    {
        Pair::from(self, rhs).or()
    }

    /// The bitwise and of two integers, whatever their size; fails on floats.
    pub fn and(&self, rhs: &Number) -> (r: Result<Number, Error>)
        ensures
            match (self@, rhs@) {
                (NumberModel::Int(a), NumberModel::Int(b)) => r matches Ok(n) && n@
                    == NumberModel::Int(int_and(a, b)),
                _ => r matches Err(Error::FloatBitwise),
            },
    {
        Pair::from(self, rhs).and()
    }

    /// An integer is its own floor. `None` for a float, whose floor is left to the caller.
    pub fn floor(&self) -> (r: Option<Number>)
        ensures
            match self@ {
                NumberModel::Int(_) => r matches Some(n) && n@ == self@,
                NumberModel::Float(_) => r is None,
            },
    {
        match self.inner() {
            N::F64(_) => None,
            _ => Some(self.clone()),
        }
    }

    /// An integer is its own ceiling. `None` for a float, whose ceiling is left to the caller.
    pub fn ceil(&self) -> (r: Option<Number>)
        ensures
            match self@ {
                NumberModel::Int(_) => r matches Some(n) && n@ == self@,
                NumberModel::Float(_) => r is None,
            },
    {
        match self.inner() {
            N::F64(_) => None,
            _ => Some(self.clone()),
        }
    }

    /// The value as a `usize`, for an integer that fits in one.
    pub fn to_usize(&self) -> (r: Option<usize>)
        ensures
            r == (match self@ {
                NumberModel::Int(v) => if 0 <= v <= usize::MAX {
                    Some(v as usize)
                } else {
                    None::<usize>
                },
                NumberModel::Float(_) => None::<usize>,
            }),
    {
        match self.inner() {
            N::I64(n) => {
                if 0 <= *n && (*n as u64) <= (usize::MAX as u64) {
                    Some(*n as usize)
                } else {
                    None
                }
            },
            N::I128(n) => {
                if 0 <= *n && (*n as u128) <= (usize::MAX as u128) {
                    Some(*n as usize)
                } else {
                    None
                }
            },
            N::BigInt(n) => n.to_usize(),
            N::F64(_) => None,
        }
    }

    /// The exact sum of two integers, whatever their size. `None` if either operand
    /// is a float: float arithmetic is left to the caller.
    pub fn add(&self, rhs: &Number) -> (r: Option<Number>)
        ensures
            match (self@, rhs@) {
                (NumberModel::Int(a), NumberModel::Int(b)) => r matches Some(n) && n@
                    == NumberModel::Int(a + b),
                _ => r is None,
            },
    {
        Pair::from(self, rhs).add()
    }

    /// The exact difference of two integers, whatever their size. `None` if either
    /// operand is a float: float arithmetic is left to the caller.
    pub fn sub(&self, rhs: &Number) -> (r: Option<Number>)
        ensures
            match (self@, rhs@) {
                (NumberModel::Int(a), NumberModel::Int(b)) => r matches Some(n) && n@
                    == NumberModel::Int(a - b),
                _ => r is None,
            },
    {
        Pair::from(self, rhs).sub()
    }

    /// The exact product of two integers, whatever their size. `None` if either
    /// operand is a float: float arithmetic is left to the caller.
    pub fn mul(&self, rhs: &Number) -> (r: Option<Number>)
        ensures
            match (self@, rhs@) {
                (NumberModel::Int(a), NumberModel::Int(b)) => r matches Some(n) && n@
                    == NumberModel::Int(a * b),
                _ => r is None,
            },
    {
        Pair::from(self, rhs).mul()
    }
}

/// Equality of two numbers: integers by value, floats as IEEE 754 doubles, and never
/// an integer with a float.
pub open spec fn number_model_eq(a: NumberModel, b: NumberModel) -> bool {
    match (a, b) {
        (NumberModel::Int(x), NumberModel::Int(y)) => x == y,
        (NumberModel::Float(x), NumberModel::Float(y)) => f64_bits_eq(x, y),
        (NumberModel::Int(x), NumberModel::Float(y)) => f64_integral(y) == Some(x),
        (NumberModel::Float(x), NumberModel::Int(y)) => f64_integral(x) == Some(y),
    }
}

/// IEEE 754 equality on bit patterns.
fn f64_bits_equal(a: u64, b: u64) -> (r: bool)
    ensures
        r == f64_bits_eq(a, b),
{
    let a_nan = (a >> 52u64) & 0x7ffu64 == 0x7ffu64 && a & 0xf_ffff_ffff_ffffu64 != 0;
    let b_nan = (b >> 52u64) & 0x7ffu64 == 0x7ffu64 && b & 0xf_ffff_ffff_ffffu64 != 0;
    !a_nan && !b_nan && (a == b || (a & 0x7fff_ffff_ffff_ffffu64 == 0 && b
        & 0x7fff_ffff_ffff_ffffu64 == 0))
}

/// Whether the integer `n` is the double with bit pattern `bits`.
fn int_equals_float(n: &N, bits: u64) -> (r: bool)
    requires
        !(n is F64),
    ensures
        r == (f64_integral(bits) == Some(n.model()->Int_0)),
{
    match f64_integral_value(bits) {
        None => false,
        Some(v) => match n {
            N::I64(a) => BigInt::from_i128(*a as i128).equals(&v),
            N::I128(a) => BigInt::from_i128(*a).equals(&v),
            N::BigInt(a) => a.equals(&v),
            N::F64(_) => false,
        },
    }
}

impl PartialEq for Number {
    /// Since integers are always in their smallest representation, two integers are
    /// equal exactly when their representations are; an integer and a float are
    /// compared as numbers.
    fn eq(&self, other: &Number) -> (r: bool) {
        proof {
            use_type_invariant(self);
            use_type_invariant(other);
        }
        match (self.inner(), other.inner()) {
            (N::I64(a), N::I64(b)) => *a == *b,
            (N::I128(a), N::I128(b)) => *a == *b,
            (N::BigInt(a), N::BigInt(b)) => a.equals(b),
            (N::F64(a), N::F64(b)) => f64_bits_equal(*a, *b),
            (N::F64(a), n) => int_equals_float(n, *a),
            (n, N::F64(b)) => int_equals_float(n, *b),
            _ => false,
        }
    }
}

impl vstd::std_specs::cmp::PartialEqSpecImpl for Number {
    open spec fn obeys_eq_spec() -> bool {
        true
    }

    open spec fn eq_spec(&self, other: &Number) -> bool {
        number_model_eq(self@, other@)
    }
}

/// The operands of an arithmetic operation, both brought to one representation:
/// the wider of the two integer representations, or, if either is a float, the two
/// numbers as they are, to be converted to floats.
enum Pair {
    I64(i64, i64),
    I128(i128, i128),
    BigInt(BigInt, BigInt),
    F64(N, N),
}

impl Pair {
    spec fn rank(&self) -> nat {
        match self {
            Pair::I64(..) => 2,
            Pair::I128(..) => 1,
            _ => 0,
        }
    }

    /// The value of the left operand, if both are integers.
    spec fn left(&self) -> int {
        match self {
            Pair::I64(x, _) => *x as int,
            Pair::I128(x, _) => *x as int,
            Pair::BigInt(x, _) => x@,
            Pair::F64(..) => 0,
        }
    }

    /// The value of the right operand, if both are integers.
    spec fn right(&self) -> int {
        match self {
            Pair::I64(_, y) => *y as int,
            Pair::I128(_, y) => *y as int,
            Pair::BigInt(_, y) => y@,
            Pair::F64(..) => 0,
        }
    }

    /// Both operands are integers, with the given values.
    spec fn holds_ints(&self, a: int, b: int) -> bool {
        !(self is F64) && self.left() == a && self.right() == b
    }

    fn from(a: &Number, b: &Number) -> (r: Pair)
        ensures
            match (a@, b@) {
                (NumberModel::Int(x), NumberModel::Int(y)) => r.holds_ints(x, y),
                _ => r is F64,
            },
    {
        proof {
            use_type_invariant(a);
            use_type_invariant(b);
        }
        match (a.inner().clone(), b.inner().clone()) {
            (N::I64(a), N::I64(b)) => Pair::I64(a, b),
            (N::I64(a), N::I128(b)) => Pair::I128(a as i128, b),
            (N::I64(a), N::BigInt(b)) => Pair::BigInt(BigInt::from_i128(a as i128), b),
            (N::I128(a), N::I64(b)) => Pair::I128(a, b as i128),
            (N::I128(a), N::I128(b)) => Pair::I128(a, b),
            (N::I128(a), N::BigInt(b)) => Pair::BigInt(BigInt::from_i128(a), b),
            (N::BigInt(a), N::I64(b)) => Pair::BigInt(a, BigInt::from_i128(b as i128)),
            (N::BigInt(a), N::I128(b)) => Pair::BigInt(a, BigInt::from_i128(b)),
            (N::BigInt(a), N::BigInt(b)) => Pair::BigInt(a, b),
            (x, y) => Pair::F64(x, y),
        }
    }

    fn add(self) -> (r: Option<Number>)
        ensures
            self is F64 ==> r is None,
            !(self is F64) ==> (r matches Some(n) && n@ == NumberModel::Int(
                self.left() + self.right(),
            )),
        decreases self.rank(),
    {
        match self {
            Pair::I64(a, b) => match a.checked_add(b) {
                Some(n) => Some(Number::from_i64(n)),
                None => Pair::I128(a as i128, b as i128).add(),
            },
            Pair::I128(a, b) => match a.checked_add(b) {
                Some(n) => Some(Number::from_i128(n)),
                None => Pair::BigInt(BigInt::from_i128(a), BigInt::from_i128(b)).add(),
            },
            Pair::BigInt(a, b) => Some(Number::from_big_int(a.add(&b))),
            Pair::F64(..) => None,
        }
    }

    fn sub(self) -> (r: Option<Number>)
        ensures
            self is F64 ==> r is None,
            !(self is F64) ==> (r matches Some(n) && n@ == NumberModel::Int(
                self.left() - self.right(),
            )),
        decreases self.rank(),
    {
        match self {
            Pair::I64(a, b) => match a.checked_sub(b) {
                Some(n) => Some(Number::from_i64(n)),
                None => Pair::I128(a as i128, b as i128).sub(),
            },
            Pair::I128(a, b) => match a.checked_sub(b) {
                Some(n) => Some(Number::from_i128(n)),
                None => Pair::BigInt(BigInt::from_i128(a), BigInt::from_i128(b)).sub(),
            },
            Pair::BigInt(a, b) => Some(Number::from_big_int(a.sub(&b))),
            Pair::F64(..) => None,
        }
    }

    fn mul(self) -> (r: Option<Number>)
        ensures
            self is F64 ==> r is None,
            !(self is F64) ==> (r matches Some(n) && n@ == NumberModel::Int(
                self.left() * self.right(),
            )),
        decreases self.rank(),
    {
        match self {
            Pair::I64(a, b) => match a.checked_mul(b) {
                Some(n) => Some(Number::from_i64(n)),
                None => Pair::I128(a as i128, b as i128).mul(),
            },
            Pair::I128(a, b) => match a.checked_mul(b) {
                Some(n) => Some(Number::from_i128(n)),
                None => Pair::BigInt(BigInt::from_i128(a), BigInt::from_i128(b)).mul(),
            },
            Pair::BigInt(a, b) => Some(Number::from_big_int(a.mul(&b))),
            Pair::F64(..) => None,
        }
    }
}

impl Pair {
    fn or(self) -> (r: Result<Number, Error>)
        ensures
            self is F64 ==> r matches Err(Error::FloatBitwise),
            !(self is F64) ==> (r matches Ok(n) && n@ == NumberModel::Int(
                int_or(self.left(), self.right()),
            )),
    {
        match self {
            Pair::I64(a, b) => {
                proof {
                    lemma_or_i64(a, b);
                }
                Ok(Number::from_i64(a | b))
            },
            Pair::I128(a, b) => {
                proof {
                    lemma_or_i128(a, b);
                }
                Ok(Number::from_i128(a | b))
            },
            Pair::BigInt(a, b) => Ok(Number::from_big_int(a.bitor(&b))),
            Pair::F64(..) => Err(Error::FloatBitwise),
        }
    }

    fn and(self) -> (r: Result<Number, Error>)
        ensures
            self is F64 ==> r matches Err(Error::FloatBitwise),
            !(self is F64) ==> (r matches Ok(n) && n@ == NumberModel::Int(
                int_and(self.left(), self.right()),
            )),
    {
        match self {
            Pair::I64(a, b) => {
                proof {
                    lemma_and_i64(a, b);
                }
                Ok(Number::from_i64(a & b))
            },
            Pair::I128(a, b) => {
                proof {
                    lemma_and_i128(a, b);
                }
                Ok(Number::from_i128(a & b))
            },
            Pair::BigInt(a, b) => Ok(Number::from_big_int(a.bitand(&b))),
            Pair::F64(..) => Err(Error::FloatBitwise),
        }
    }
}

/// On `i64`, `|` is the two's complement bitwise or of the values.
pub(crate) proof fn lemma_or_i64(x: i64, y: i64)
    ensures
        (x | y) as int == int_or(x as int, y as int),
    decreases (if x < 0 { -x } else { x as int }) + (if y < 0 { -y } else { y as int }),
{
    if x == 0 {
        assert(0i64 | y == y) by (bit_vector);
    } else if y == 0 {
        assert(x | 0i64 == x) by (bit_vector);
    } else if x == -1 || y == -1 {
        assert(x == -1 || y == -1 ==> x | y == -1) by (bit_vector);
    } else {
        let hx = x >> 1u64;
        let hy = y >> 1u64;
        assert(2 * (x >> 1u64) + (x & 1) == x && 0 <= x & 1 <= 1) by (bit_vector);
        assert(2 * (y >> 1u64) + (y & 1) == y && 0 <= y & 1 <= 1) by (bit_vector);
        assert((x | y) == 2 * ((x >> 1u64) | (y >> 1u64)) + ((x & 1) | (y & 1))) by (bit_vector);
        assert(((x & 1) | (y & 1)) == (if x & 1 == 1 || y & 1 == 1 { 1i64 } else { 0i64 }))
            by (bit_vector);
        lemma_or_i64(hx, hy);
    }
}

/// On `i128`, `|` is the two's complement bitwise or of the values.
pub(crate) proof fn lemma_or_i128(x: i128, y: i128)
    ensures
        (x | y) as int == int_or(x as int, y as int),
    decreases (if x < 0 { -x } else { x as int }) + (if y < 0 { -y } else { y as int }),
{
    if x == 0 {
        assert(0i128 | y == y) by (bit_vector);
    } else if y == 0 {
        assert(x | 0i128 == x) by (bit_vector);
    } else if x == -1 || y == -1 {
        assert(x == -1 || y == -1 ==> x | y == -1) by (bit_vector);
    } else {
        let hx = x >> 1u64;
        let hy = y >> 1u64;
        assert(2 * (x >> 1u64) + (x & 1) == x && 0 <= x & 1 <= 1) by (bit_vector);
        assert(2 * (y >> 1u64) + (y & 1) == y && 0 <= y & 1 <= 1) by (bit_vector);
        assert((x | y) == 2 * ((x >> 1u64) | (y >> 1u64)) + ((x & 1) | (y & 1))) by (bit_vector);
        assert(((x & 1) | (y & 1)) == (if x & 1 == 1 || y & 1 == 1 { 1i128 } else { 0i128 }))
            by (bit_vector);
        lemma_or_i128(hx, hy);
    }
}

/// On `i64`, `&` is the two's complement bitwise and of the values.
pub(crate) proof fn lemma_and_i64(x: i64, y: i64)
    ensures
        (x & y) as int == int_and(x as int, y as int),
    decreases (if x < 0 { -x } else { x as int }) + (if y < 0 { -y } else { y as int }),
{
    if x == 0 || y == 0 {
        assert(x == 0 || y == 0 ==> x & y == 0) by (bit_vector);
    } else if x == -1 {
        assert(-1i64 & y == y) by (bit_vector);
    } else if y == -1 {
        assert(x & -1i64 == x) by (bit_vector);
    } else {
        let hx = x >> 1u64;
        let hy = y >> 1u64;
        assert(2 * (x >> 1u64) + (x & 1) == x && 0 <= x & 1 <= 1) by (bit_vector);
        assert(2 * (y >> 1u64) + (y & 1) == y && 0 <= y & 1 <= 1) by (bit_vector);
        assert((x & y) == 2 * ((x >> 1u64) & (y >> 1u64)) + ((x & 1) & (y & 1))) by (bit_vector);
        assert(((x & 1) & (y & 1)) == (x & 1) * (y & 1)) by (bit_vector);
        lemma_and_i64(hx, hy);
    }
}

/// On `i128`, `&` is the two's complement bitwise and of the values.
pub(crate) proof fn lemma_and_i128(x: i128, y: i128)
    ensures
        (x & y) as int == int_and(x as int, y as int),
    decreases (if x < 0 { -x } else { x as int }) + (if y < 0 { -y } else { y as int }),
{
    if x == 0 || y == 0 {
        assert(x == 0 || y == 0 ==> x & y == 0) by (bit_vector);
    } else if x == -1 {
        assert(-1i128 & y == y) by (bit_vector);
    } else if y == -1 {
        assert(x & -1i128 == x) by (bit_vector);
    } else {
        let hx = x >> 1u64;
        let hy = y >> 1u64;
        assert(2 * (x >> 1u64) + (x & 1) == x && 0 <= x & 1 <= 1) by (bit_vector);
        assert(2 * (y >> 1u64) + (y & 1) == y && 0 <= y & 1 <= 1) by (bit_vector);
        assert((x & y) == 2 * ((x >> 1u64) & (y >> 1u64)) + ((x & 1) & (y & 1))) by (bit_vector);
        assert(((x & 1) & (y & 1)) == (x & 1) * (y & 1)) by (bit_vector);
        lemma_and_i128(hx, hy);
    }
}

} // verus!
