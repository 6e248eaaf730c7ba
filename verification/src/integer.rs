//! Integers of unbounded size held as an `i64`, an `i128` or a big integer, the
//! value crate's integer type. Unlike [`crate::number::Number`] the representation is
//! not kept minimal: an operation on two `i64`s gives an `i64` while the result fits,
//! and widens only when it does not.

use vstd::prelude::*;

use crate::bigint::{int_and, int_or, signed_le_value, BigInt};

verus! {

/// An integer.
#[derive(Debug)]
pub enum Int {
    I64(i64),
    I128(i128),
    BigInt(BigInt),
}

impl View for Int {
    type V = int;

    open spec fn view(&self) -> int {
        match self {
            Int::I64(n) => *n as int,
            Int::I128(n) => *n as int,
            Int::BigInt(n) => n@,
        }
    }
}

/// The width of a representation: 0 for `i64`, 1 for `i128`, 2 for a big integer.
pub open spec fn width(i: Int) -> nat {
    match i {
        Int::I64(_) => 0,
        Int::I128(_) => 1,
        Int::BigInt(_) => 2,
    }
}

/// The width that arithmetic on operands of width `w` gives for result `v`: the same
/// width while `v` fits, wider as needed.
pub open spec fn widened(w: nat, v: int) -> nat {
    if w == 0 && i64::MIN <= v <= i64::MAX {
        0
    } else if w <= 1 && i128::MIN <= v <= i128::MAX {
        1
    } else {
        2
    }
}

/// The narrowest width that holds `v`.
pub open spec fn narrowest(v: int) -> nat {
    widened(0, v)
}

/// The wider of two widths.
pub open spec fn max_width(a: nat, b: nat) -> nat {
    if a <= b {
        b
    } else {
        a
    }
}

/// Whether `a` equals `b` as `i64`s.
pub fn eq_i64(a: i64, b: i64) -> (r: bool)
    ensures
        r == (a == b),
{
    a == b
}

/// Whether `a` equals `b` as `i128`s.
pub fn eq_i128(a: i128, b: i128) -> (r: bool)
    ensures
        r == (a == b),
{
    a == b
}

/// Whether `a` equals `b` as big integers.
pub fn eq_big_int(a: &BigInt, b: &BigInt) -> (r: bool)
    ensures
        r == (a@ == b@),
{
    a.equals(b)
}

impl Clone for Int {
    fn clone(&self) -> (r: Int)
        ensures
            r@ == self@,
            width(r) == width(*self),
    {
        match self {
            Int::I64(n) => Int::I64(*n),
            Int::I128(n) => Int::I128(*n),
            Int::BigInt(n) => Int::BigInt(n.clone()),
        }
    }
}

impl Int {
    pub fn is_i64(&self) -> (r: bool)
        ensures
            r == (width(*self) == 0),
    {
        matches!(self, Int::I64(_))
    }

    pub fn is_i128(&self) -> (r: bool)
        ensures
            r == (width(*self) == 1),
    {
        matches!(self, Int::I128(_))
    }

    pub fn is_big_int(&self) -> (r: bool)
        ensures
            r == (width(*self) == 2),
    {
        matches!(self, Int::BigInt(_))
    }

    pub fn is_zero(&self) -> (r: bool)
        ensures
            r == (self@ == 0),
    {
        match self {
            Int::I64(n) => *n == 0,
            Int::I128(n) => *n == 0,
            Int::BigInt(n) => n.equals(&BigInt::from_i128(0)),
        }
    }

    pub fn is_one(&self) -> (r: bool)
        ensures
            r == (self@ == 1),
    {
        match self {
            Int::I64(n) => *n == 1,
            Int::I128(n) => *n == 1,
            Int::BigInt(n) => n.equals(&BigInt::from_i128(1)),
        }
    }

    /// Reads a two's complement integer, least significant byte first: an `i64` for 1,
    /// 2, 4 or 8 bytes, an `i128` for 16, a big integer otherwise.
    pub fn from_signed_bytes_le(bytes: &[u8]) -> (r: Int)
        ensures
            r@ == signed_le_value(bytes@),
            width(r) == (if bytes@.len() == 1 || bytes@.len() == 2 || bytes@.len() == 4
                || bytes@.len() == 8 {
                0nat
            } else if bytes@.len() == 16 {
                1nat
            } else {
                2nat
            }),
    {
        let n = BigInt::from_signed_bytes_le(bytes);
        let len = bytes.len();
        if len == 1 || len == 2 || len == 4 || len == 8 || len == 16 {
            proof {
                crate::bigint::lemma_signed_le_value_bounds(bytes@);
                reveal_with_fuel(crate::bigint::byte_base, 17);
            }
            let v = n.to_i128();
            match v {
                Some(v) => {
                    if len == 16 {
                        Int::I128(v)
                    } else {
                        Int::I64(v as i64)
                    }
                },
                None => Int::BigInt(n),
            }
        } else {
            Int::BigInt(n)
        }
    }

    /// The integer as a `usize`, if it fits in one.
    pub fn to_usize(&self) -> (r: Option<usize>)
        ensures
            r == (if 0 <= self@ <= usize::MAX {
                Some(self@ as usize)
            } else {
                None::<usize>
            }),
    {
        match self {
            Int::I64(n) => if 0 <= *n && (*n as u64) <= (usize::MAX as u64) {
                Some(*n as usize)
            } else {
                None
            },
            Int::I128(n) => if 0 <= *n && (*n as u128) <= (usize::MAX as u128) {
                Some(*n as usize)
            } else {
                None
            },
            Int::BigInt(n) => n.to_usize(),
        }
    }

    pub fn from_u8(v: u8) -> (r: Int)
        ensures
            r@ == v,
            width(r) == 0,
    {
        Int::I64(v as i64)
    }

    pub fn from_i8(v: i8) -> (r: Int)
        ensures
            r@ == v,
            width(r) == 0,
    {
        Int::I64(v as i64)
    }

    pub fn from_u16(v: u16) -> (r: Int)
        ensures
            r@ == v,
            width(r) == 0,
    {
        Int::I64(v as i64)
    }

    pub fn from_i16(v: i16) -> (r: Int)
        ensures
            r@ == v,
            width(r) == 0,
    {
        Int::I64(v as i64)
    }

    pub fn from_u32(v: u32) -> (r: Int)
        ensures
            r@ == v,
            width(r) == 0,
    {
        Int::I64(v as i64)
    }

    pub fn from_i32(v: i32) -> (r: Int)
        ensures
            r@ == v,
            width(r) == 0,
    {
        Int::I64(v as i64)
    }

    pub fn from_i64(v: i64) -> (r: Int)
        ensures
            r@ == v,
            width(r) == 0,
    {
        Int::I64(v)
    }

    /// An `i64` where it fits, an `i128` otherwise.
    pub fn from_u64(v: u64) -> (r: Int)
        ensures
            r@ == v,
            width(r) == (if v <= i64::MAX { 0nat } else { 1nat }),
    {
        if v <= i64::MAX as u64 {
            Int::I64(v as i64)
        } else {
            Int::I128(v as i128)
        }
    }

    pub fn from_i128(v: i128) -> (r: Int)
        ensures
            r@ == v,
            width(r) == 1,
    {
        Int::I128(v)
    }

    /// An `i128` where it fits, a big integer otherwise.
    pub fn from_u128(v: u128) -> (r: Int)
        ensures
            r@ == v,
            width(r) == (if v <= i128::MAX { 1nat } else { 2nat }),
    {
        if v <= i128::MAX as u128 {
            Int::I128(v as i128)
        } else {
            Int::BigInt(BigInt::from_u128(v))
        }
    }

    /// An `i64` where it fits, an `i128` where that fits, a big integer otherwise.
    pub fn from_usize(v: usize) -> (r: Int)
        ensures
            r@ == v,
            width(r) == (if v <= i64::MAX { 0nat } else { 1nat }),
    {
        if (v as u64) <= (i64::MAX as u64) {
            Int::I64(v as i64)
        } else {
            Int::I128(v as i128)
        }
    }

    /// The integer as a big integer.
    fn to_big_int(&self) -> (r: BigInt)
        ensures
            r@ == self@,
    {
        match self {
            Int::I64(n) => BigInt::from_i128(*n as i128),
            Int::I128(n) => BigInt::from_i128(*n),
            Int::BigInt(n) => n.clone(),
        }
    }

    /// The integer as an `i128`, for one held as an `i64` or an `i128`.
    fn to_i128(&self) -> (r: i128)
        requires
            width(*self) <= 1,
        ensures
            r == self@,
    {
        match self {
            Int::I64(n) => *n as i128,
            Int::I128(n) => *n,
            Int::BigInt(_) => 0,
        }
    }

    /// The exact sum; as wide as the wider operand, or wider where the sum needs it.
    pub fn add(&self, rhs: &Int) -> (r: Int)
        ensures
            r@ == self@ + rhs@,
            width(r) == widened(max_width(width(*self), width(*rhs)), self@ + rhs@),
    {
        match (self, rhs) {
            (Int::I64(a), Int::I64(b)) => match a.checked_add(*b) {
                Some(n) => return Int::I64(n),
                None => {},
            },
            _ => {},
        }
        if !self.is_big_int() && !rhs.is_big_int() {
            match self.to_i128().checked_add(rhs.to_i128()) {
                Some(n) => return Int::I128(n),
                None => {},
            }
        }
        Int::BigInt(self.to_big_int().add(&rhs.to_big_int()))
    }

    /// The exact difference; as wide as the wider operand, or wider where it needs it.
    pub fn sub(&self, rhs: &Int) -> (r: Int)
        ensures
            r@ == self@ - rhs@,
            width(r) == widened(max_width(width(*self), width(*rhs)), self@ - rhs@),
    {
        match (self, rhs) {
            (Int::I64(a), Int::I64(b)) => match a.checked_sub(*b) {
                Some(n) => return Int::I64(n),
                None => {},
            },
            _ => {},
        }
        if !self.is_big_int() && !rhs.is_big_int() {
            match self.to_i128().checked_sub(rhs.to_i128()) {
                Some(n) => return Int::I128(n),
                None => {},
            }
        }
        Int::BigInt(self.to_big_int().sub(&rhs.to_big_int()))
    }

    /// The exact product; as wide as the wider operand, or wider where it needs it.
    pub fn mul(&self, rhs: &Int) -> (r: Int)
        ensures
            r@ == self@ * rhs@,
            width(r) == widened(max_width(width(*self), width(*rhs)), self@ * rhs@),
    {
        match (self, rhs) {
            (Int::I64(a), Int::I64(b)) => match a.checked_mul(*b) {
                Some(n) => return Int::I64(n),
                None => {},
            },
            _ => {},
        }
        if !self.is_big_int() && !rhs.is_big_int() {
            match self.to_i128().checked_mul(rhs.to_i128()) {
                Some(n) => return Int::I128(n),
                None => {},
            }
        }
        Int::BigInt(self.to_big_int().mul(&rhs.to_big_int()))
    }

    /// Two's complement bitwise and, as wide as the wider operand.
    pub fn bitand(&self, rhs: &Int) -> (r: Int)
        ensures
            r@ == int_and(self@, rhs@),
            width(r) == max_width(width(*self), width(*rhs)),
    {
        match (self, rhs) {
            (Int::I64(a), Int::I64(b)) => {
                proof {
                    crate::number::lemma_and_i64(*a, *b);
                }
                Int::I64(*a & *b)
            },
            (Int::BigInt(_), _) | (_, Int::BigInt(_)) => Int::BigInt(
                self.to_big_int().bitand(&rhs.to_big_int()),
            ),
            _ => {
                let a = self.to_i128();
                let b = rhs.to_i128();
                proof {
                    crate::number::lemma_and_i128(a, b);
                }
                Int::I128(a & b)
            },
        }
    }

    /// Two's complement bitwise or, as wide as the wider operand.
    pub fn bitor(&self, rhs: &Int) -> (r: Int)
        ensures
            r@ == int_or(self@, rhs@),
            width(r) == max_width(width(*self), width(*rhs)),
    {
        match (self, rhs) {
            (Int::I64(a), Int::I64(b)) => {
                proof {
                    crate::number::lemma_or_i64(*a, *b);
                }
                Int::I64(*a | *b)
            },
            (Int::BigInt(_), _) | (_, Int::BigInt(_)) => Int::BigInt(
                self.to_big_int().bitor(&rhs.to_big_int()),
            ),
            _ => {
                let a = self.to_i128();
                let b = rhs.to_i128();
                proof {
                    crate::number::lemma_or_i128(a, b);
                }
                Int::I128(a | b)
            },
        }
    }

    /// Whether the two integers are equal, whatever their widths.
    pub fn equals(&self, rhs: &Int) -> (r: bool)
        ensures
            r == (self@ == rhs@),
    {
        match (self, rhs) {
            (Int::I64(a), Int::I64(b)) => eq_i64(*a, *b),
            (Int::BigInt(a), Int::BigInt(b)) => eq_big_int(a, b),
            (Int::BigInt(a), _) => eq_big_int(a, &rhs.to_big_int()),
            (_, Int::BigInt(b)) => eq_big_int(&self.to_big_int(), b),
            _ => eq_i128(self.to_i128(), rhs.to_i128()),
        }
    }

    /// Whether the integer equals the bool: `true` is one, `false` zero.
    pub fn equals_bool(&self, b: bool) -> (r: bool)
        ensures
            r == (self@ == (if b { 1int } else { 0int })),
    {
        if b {
            self.is_one()
        } else {
            self.is_zero()
        }
    }

    /// The representation that hashing goes by: the narrowest one that holds the value,
    /// so that equal integers of different widths hash alike.
    pub fn hash_key(&self) -> (r: Int)
        ensures
            r@ == self@,
            width(r) == narrowest(self@),
    {
        match self {
            Int::I64(n) => Int::I64(*n),
            Int::I128(n) => {
                if i64::MIN as i128 <= *n && *n <= i64::MAX as i128 {
                    Int::I64(*n as i64)
                } else {
                    Int::I128(*n)
                }
            },
            Int::BigInt(n) => match n.to_i128() {
                Some(v) => {
                    if i64::MIN as i128 <= v && v <= i64::MAX as i128 {
                        Int::I64(v as i64)
                    } else {
                        Int::I128(v)
                    }
                },
                None => Int::BigInt(n.clone()),
            },
        }
    }
}

} // verus!
