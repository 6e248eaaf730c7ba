use aprs::bigint::BigInt;
use aprs::error::{Error, Operation};
use aprs::heap::Heap;
use aprs::number::{Number, N};
use aprs::value::Value;

/// A value of the sample that Python's `+` is checked on.
#[derive(Clone)]
enum Sample {
    Int(num::BigInt),
    Str(&'static str),
    Float(f64),
}

fn to_value(s: &Sample) -> Value {
    match s {
        Sample::Int(n) => Value::number(Number::from_big_int(BigInt::from_signed_bytes_le(&n.to_signed_bytes_le()))),
        Sample::Str(t) => Value::str(t),
        Sample::Float(f) => Value::number(Number::float_from_bits(f.to_bits())),
    }
}

fn to_big(n: &Number) -> num::BigInt {
    match n.inner() {
        N::I64(v) => num::BigInt::from(*v),
        N::I128(v) => num::BigInt::from(*v),
        N::BigInt(b) => num::BigInt::from_signed_bytes_le(&b.to_signed_bytes_le()),
        N::F64(_) => panic!("not an integer"),
    }
}

fn samples() -> Vec<Sample> {
    let int = |n: num::BigInt| Sample::Int(n);
    vec![
        int(num::BigInt::from(i128::MIN) + num::BigInt::from(i128::MIN)),
        int(i128::MIN.into()),
        int(i64::MIN.into()),
        int(i32::MIN.into()),
        int(i16::MIN.into()),
        int(i8::MIN.into()),
        int(0.into()),
        int(i8::MAX.into()),
        int(u8::MAX.into()),
        int(i16::MAX.into()),
        int(u16::MAX.into()),
        int(i32::MAX.into()),
        int(u32::MAX.into()),
        int(i64::MAX.into()),
        int(u64::MAX.into()),
        int(i128::MAX.into()),
        int(u128::MAX.into()),
        int(num::BigInt::from(u128::MAX) + num::BigInt::from(u128::MAX)),
        Sample::Str(""),
        Sample::Str("hi"),
        Sample::Str("0"),
        Sample::Str("1"),
        Sample::Str("42"),
        Sample::Float(f64::NEG_INFINITY),
        Sample::Float(f64::MIN),
        int((-32).into()),
        Sample::Float(-1.0),
        Sample::Float(0.0),
        Sample::Float(1.0),
        int(32.into()),
        Sample::Float(f64::MAX),
        Sample::Float(f64::INFINITY),
        Sample::Float(f64::NAN),
    ]
}

/// `lhs + rhs` on every pair of the sample, against what Python gives: two integers
/// add exactly to an integer, two strings concatenate, a number and a string cannot be
/// added, and where a float takes part Python's sum is a float: the library answers
/// that the sum is a float (`Ok(None)`) and leaves its bits to the caller, since float
/// arithmetic is not done in the library.
#[test]
fn foo() {
    let samples = samples();
    assert_eq!(samples.len(), 33);
    for lhs in &samples {
        for rhs in &samples {
            let mut heap = Heap::new();
            let result = to_value(lhs).add(&mut heap, &to_value(rhs));
            match (lhs, rhs) {
                (Sample::Str(a), Sample::Str(b)) => {
                    let sum = result.unwrap().unwrap();
                    assert_eq!(sum.as_str().unwrap().as_str(), format!("{a}{b}"));
                }
                (Sample::Str(_), _) | (_, Sample::Str(_)) => {
                    assert!(matches!(result, Err(Error::CantApply { op: Operation::Add, .. })));
                }
                (Sample::Int(a), Sample::Int(b)) => match result.unwrap().unwrap() {
                    Value::Number(n) => assert_eq!(to_big(&n), a + b),
                    _ => panic!("sum is not a number"),
                },
                _ => assert!(matches!(result, Ok(None))),
            }
        }
    }
}
