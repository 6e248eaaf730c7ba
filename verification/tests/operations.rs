use aprs::checksum::{
    calculate_checksum, checksum_from_digest, checksum_is_valid, checksum_matches_digest,
    eq_ignore_ascii_case,
};
use aprs::error::{Error, Kind, Operation};
use aprs::heap::Heap;
use aprs::integer::{eq_i128, eq_i64, Int};
use aprs::number::Number;
use aprs::unpickler::unpickle;
use aprs::value::{Dict, List, PySet, Tuple, Value};

fn num(n: i64) -> Value {
    Value::number(Number::from_i64(n))
}

fn int_of(v: &Value) -> i64 {
    match v {
        Value::Number(n) => n.as_i64().expect("small integer"),
        other => panic!("not a number: {other:?}"),
    }
}

#[test]
fn sha1_checksum_in_hex() {
    assert_eq!(calculate_checksum(b"abc"), "a9993e364706816aba3e25717850c26c9cd0d89d");
    assert_eq!(calculate_checksum(b""), "da39a3ee5e6b4b0d3255bfef95601890afd80709");
    assert!(checksum_is_valid("A9993E364706816ABA3E25717850C26C9CD0D89D", b"abc"));
    assert!(checksum_is_valid("a9993e364706816aba3e25717850c26c9cd0d89d", b"abc"));
    assert!(!checksum_is_valid("a9993e364706816aba3e25717850c26c9cd0d89e", b"abc"));
    assert!(!checksum_is_valid("a9993e", b"abc"));
}

#[test]
fn ascii_case_comparison() {
    assert!(eq_ignore_ascii_case("Hello", "hELLO"));
    assert!(!eq_ignore_ascii_case("Hello", "Hell"));
    assert!(!eq_ignore_ascii_case("a", "b"));
    assert!(eq_ignore_ascii_case("\u{e9}", "\u{e9}"));
    assert!(!eq_ignore_ascii_case("\u{e9}", "\u{c9}"));
}

#[test]
fn int_keeps_width_until_it_overflows() {
    let a = Int::from_i64(i64::MAX);
    let b = Int::from_i64(1);
    let sum = a.add(&b);
    assert!(sum.is_i128());
    assert!(sum.equals(&Int::from_i128(i64::MAX as i128 + 1)));
    let small = Int::from_i64(2).add(&Int::from_i64(3));
    assert!(small.is_i64());
    assert!(small.equals(&Int::from_i128(5)));
    let wide = Int::from_i128(2).add(&Int::from_i64(3));
    assert!(wide.is_i128());
    let big = Int::from_i128(i128::MAX).mul(&Int::from_i64(4));
    assert!(big.is_big_int());
    assert!(big.sub(&Int::from_i128(i128::MAX)).is_big_int());
    assert!(Int::from_i64(3).sub(&Int::from_i64(5)).equals(&Int::from_i64(-2)));
    assert!(Int::from_i64(6).bitand(&Int::from_i64(3)).equals(&Int::from_i64(2)));
    assert!(Int::from_i64(6).bitor(&Int::from_i128(3)).is_i128());
    assert!(Int::from_i64(0).is_zero());
    assert!(Int::from_u8(1).is_one());
    assert!(Int::from_i64(1).equals_bool(true));
    assert!(Int::from_i64(0).equals_bool(false));
    assert!(!Int::from_i64(2).equals_bool(true));
    assert!(eq_i64(3, 3));
    assert!(!eq_i128(3, 4));
}

#[test]
fn int_from_bytes_by_length() {
    let a = Int::from_signed_bytes_le(&[0xff]);
    assert!(a.is_i64());
    assert!(a.equals(&Int::from_i64(-1)));
    let b = Int::from_signed_bytes_le(&[0u8; 16]);
    assert!(b.is_i128());
    let c = Int::from_signed_bytes_le(&[1, 2, 3]);
    assert!(c.is_big_int());
    assert!(c.equals(&Int::from_i64(0x030201)));
    assert_eq!(Int::from_u64(u64::MAX).to_usize(), if usize::BITS == 64 { Some(usize::MAX) } else { None });
    assert!(Int::from_u64(u64::MAX).is_i128());
    assert!(Int::from_u128(u128::MAX).is_big_int());
    assert_eq!(Int::from_i64(-1).to_usize(), None);
    assert_eq!(Int::from_usize(7).to_usize(), Some(7));
}

#[test]
fn value_arithmetic() {
    let mut heap = Heap::new();
    assert_eq!(int_of(&num(2).add(&mut heap, &num(3)).unwrap().unwrap()), 5);
    assert_eq!(int_of(&num(2).sub(&num(3)).unwrap().unwrap()), -1);
    assert_eq!(int_of(&num(2).mul(&num(3)).unwrap().unwrap()), 6);
    let f = Value::number(Number::from_f64_bits(0.5f64.to_bits()));
    assert!(num(2).add(&mut heap, &f).unwrap().is_none());
    assert!(matches!(
        num(2).add(&mut heap, &Value::str("x")),
        Err(Error::CantApply { op: Operation::Add, lhs: Kind::Number, rhs: Kind::Str })
    ));
    assert_eq!(int_of(&num(7).floor().unwrap().unwrap()), 7);
    assert!(f.ceil().unwrap().is_none());
    assert!(matches!(Value::str("x").floor(), Err(Error::WrongKind { wanted: Kind::Number, got: Kind::Str })));
    assert_eq!(int_of(&num(6).and(&num(3)).unwrap()), 2);
    assert_eq!(int_of(&num(6).or(&num(3)).unwrap()), 7);
    assert!(matches!(Value::True().and(&Value::False()).unwrap(), Value::Bool(b) if !b.get()));
    assert!(matches!(Value::True().or(&Value::False()).unwrap(), Value::Bool(b) if b.get()));
    assert!(matches!(f.and(&num(1)), Err(Error::FloatBitwise)));
    assert!(matches!(Value::none().or(&num(1)), Err(Error::CantApply { op: Operation::Or, .. })));
}

#[test]
fn value_pop_and_update() {
    let mut heap = Heap::new();
    let list = List::new(&mut heap);
    list.push(&mut heap, num(1));
    list.push(&mut heap, num(2));
    let lv = Value::List(list);
    assert_eq!(int_of(&lv.pop(&mut heap, &num(0)).unwrap().unwrap()), 1);
    assert!(lv.pop(&mut heap, &num(5)).unwrap().is_none());
    assert!(matches!(lv.pop(&mut heap, &num(-1)), Err(Error::InvalidListIndex)));
    assert!(matches!(num(1).pop(&mut heap, &num(0)), Err(Error::WrongKind { wanted: Kind::List, .. })));
    let a = Dict::new(&mut heap);
    let b = Dict::new(&mut heap);
    b.insert(&mut heap, num(1), num(2)).unwrap();
    Value::Dict(a).update(&mut heap, &Value::Dict(b)).unwrap();
    assert_eq!(a.len(&heap), 1);
    assert!(matches!(Value::Dict(a).update(&mut heap, &num(1)), Err(Error::WrongKind { wanted: Kind::Dict, .. })));
}

#[test]
fn deep_equality() {
    let mut heap = Heap::new();
    let a = List::new(&mut heap);
    let b = List::new(&mut heap);
    a.push(&mut heap, num(1));
    b.push(&mut heap, num(1));
    b.push(&mut heap, num(2));
    // lists compare the items they both have
    assert_eq!(Value::List(a).deep_eq(&heap, &Value::List(b), 4), Some(true));
    let t1 = Tuple::new(&mut heap, vec![num(1), Value::str("x")]);
    let t2 = Tuple::new(&mut heap, vec![num(1), Value::str("x")]);
    let t3 = Tuple::new(&mut heap, vec![num(1)]);
    assert_eq!(Value::Tuple(t1).deep_eq(&heap, &Value::Tuple(t2), 4), Some(true));
    assert_eq!(Value::Tuple(t1).deep_eq(&heap, &Value::Tuple(t3), 4), Some(false));
    // a number equals the bool it is
    assert_eq!(num(1).deep_eq(&heap, &Value::True(), 0), Some(true));
    assert_eq!(num(2).deep_eq(&heap, &Value::True(), 0), Some(false));
    assert_eq!(Value::str("a").deep_eq(&heap, &Value::str("a"), 0), Some(true));
    // dicts with the same entries in another order
    let d1 = Dict::new(&mut heap);
    let d2 = Dict::new(&mut heap);
    d1.insert(&mut heap, Value::str("x"), num(1)).unwrap();
    d1.insert(&mut heap, num(2), Value::List(a)).unwrap();
    d2.insert(&mut heap, num(2), Value::List(a)).unwrap();
    d2.insert(&mut heap, Value::str("x"), num(1)).unwrap();
    assert_eq!(Value::Dict(d1).deep_eq(&heap, &Value::Dict(d2), 3), Some(true));
    assert_eq!(Value::Dict(d1).deep_eq(&heap, &Value::Dict(d2), 0), None);
    d2.insert(&mut heap, Value::str("x"), num(9)).unwrap();
    assert_eq!(Value::Dict(d1).deep_eq(&heap, &Value::Dict(d2), 3), Some(false));
    // sets
    let s1 = PySet::new(&mut heap);
    let s2 = PySet::new(&mut heap);
    s1.insert(&mut heap, num(1)).unwrap();
    s2.insert(&mut heap, num(1)).unwrap();
    assert_eq!(Value::PySet(s1).deep_eq(&heap, &Value::PySet(s2), 0), Some(true));
}

#[test]
fn a_list_that_holds_itself() {
    let mut heap = Heap::new();
    let a = List::new(&mut heap);
    a.push(&mut heap, Value::List(a));
    let b = List::new(&mut heap);
    b.push(&mut heap, Value::List(b));
    // the comparison never ends; with fuel it gives no answer
    assert_eq!(Value::List(a).deep_eq(&heap, &Value::List(b), 50), None);
    // one pickled with a memo reference
    let (v, heap) = unpickle(&[0x5d, 0x94, 0x68, 0, 0x61, 0x2e]).unwrap();
    let items = v.as_list().unwrap().items(&heap);
    assert_eq!(items[0].as_list().unwrap(), v.as_list().unwrap());
}

#[test]
fn more_fuel_gives_the_same_answer() {
    let mut heap = Heap::new();
    let inner = List::new(&mut heap);
    inner.push(&mut heap, num(1));
    let a = List::new(&mut heap);
    let b = List::new(&mut heap);
    a.push(&mut heap, Value::List(inner));
    b.push(&mut heap, Value::List(inner));
    assert_eq!(Value::List(a).deep_eq(&heap, &Value::List(b), 1), None);
    for fuel in 2..6 {
        assert_eq!(Value::List(a).deep_eq(&heap, &Value::List(b), fuel), Some(true));
    }
}

#[test]
fn checksum_from_a_digest() {
    assert_eq!(checksum_from_digest(&[0x00, 0x0f, 0xa0, 0xff]), "000fa0ff");
    assert!(checksum_matches_digest("000FA0FF", &[0x00, 0x0f, 0xa0, 0xff]));
    assert!(!checksum_matches_digest("000fa0fe", &[0x00, 0x0f, 0xa0, 0xff]));
}

#[test]
fn equal_ints_hash_alike() {
    let narrow = Int::from_i64(5).hash_key();
    let from_wide = Int::from_i128(5).hash_key();
    let from_difference = Int::from_i128(i128::MAX).sub(&Int::from_i128(i128::MAX - 5)).hash_key();
    assert!(narrow.is_i64() && from_wide.is_i64());
    assert!(from_wide.equals(&narrow) && from_difference.equals(&narrow));
    let wide = Int::from_i128(i64::MAX as i128 + 1).hash_key();
    assert!(wide.is_i128());
    let big_but_fits = Int::from_i128(i128::MAX).mul(&Int::from_i64(2)).sub(&Int::from_i128(i128::MAX));
    assert!(big_but_fits.is_big_int());
    let key = big_but_fits.hash_key();
    assert!(key.is_i128());
    assert!(key.equals(&Int::from_i128(i128::MAX)));
    let huge = Int::from_i128(i128::MAX).mul(&Int::from_i64(4)).hash_key();
    assert!(huge.is_big_int());
}

#[test]
fn tuple_unpack_checks_arity() {
    let mut heap = Heap::new();
    let pair = Tuple::new(&mut heap, vec![num(7), Value::str("seven")]);
    let items = pair.unpack(&heap, 2).unwrap();
    assert_eq!(items.len(), 2);
    assert_eq!(items[1].as_str().unwrap().as_str(), "seven");
    assert!(matches!(items[0].as_number().unwrap().to_usize(), Some(7)));
    assert!(matches!(pair.unpack(&heap, 3), Err(Error::WrongArity { arity: 3, given: 2 })));
    assert!(matches!(pair.unpack(&heap, 1), Err(Error::WrongArity { arity: 1, given: 2 })));
}

#[test]
fn adding_strings_and_lists_concatenates() {
    let mut heap = Heap::new();
    let hihi = Value::str("hi").add(&mut heap, &Value::str("hi")).unwrap().unwrap();
    assert_eq!(hihi.as_str().unwrap().as_str(), "hihi");
    let empty = Value::str("").add(&mut heap, &Value::str("42")).unwrap().unwrap();
    assert_eq!(empty.as_str().unwrap().as_str(), "42");
    let a = List::new(&mut heap);
    a.push(&mut heap, num(1));
    let b = List::new(&mut heap);
    b.push(&mut heap, num(2));
    b.push(&mut heap, num(3));
    let joined = Value::List(a).add(&mut heap, &Value::List(b)).unwrap().unwrap();
    let joined = joined.as_list().unwrap();
    assert_eq!(joined.items(&heap).iter().map(int_of).collect::<Vec<_>>(), vec![1, 2, 3]);
    assert_eq!(a.len(&heap), 1);
    assert_eq!(b.len(&heap), 2);
    assert!(matches!(
        Value::List(a).add(&mut heap, &Value::str("x")),
        Err(Error::CantApply { op: Operation::Add, lhs: Kind::List, rhs: Kind::Str })
    ));
    assert!(matches!(
        Value::str("1").add(&mut heap, &num(1)),
        Err(Error::CantApply { op: Operation::Add, lhs: Kind::Str, rhs: Kind::Number })
    ));
}
