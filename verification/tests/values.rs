use aprs::bigint::BigInt;
use aprs::error::{Error, Kind};
use aprs::heap::Heap;
use aprs::number::Number;
use aprs::number_cache::NumberCache;
use aprs::value::{Bool, Dict, List, PySet, Str, Tuple, Value};
use aprs::value_ops::{ListIndex, SameAs};

fn num(n: i64) -> Value {
    Value::number(Number::from_i64(n))
}

fn int_of(v: &Value) -> i64 {
    match v {
        Value::Number(n) => n.as_i64().expect("small integer"),
        other => panic!("not a number: {other:?}"),
    }
}

#[test]
fn list_pop_gives_back_what_was_pushed() {
    let mut heap = Heap::new();
    let list = List::new(&mut heap);
    list.push(&mut heap, num(1));
    list.push(&mut heap, num(2));
    assert_eq!(list.len(&heap), 2);
    assert_eq!(int_of(&list.pop(&mut heap).unwrap()), 2);
    assert_eq!(int_of(&list.pop(&mut heap).unwrap()), 1);
    assert!(list.pop(&mut heap).is_none());
    assert!(list.is_empty(&heap));
}

#[test]
fn list_get_and_remove() {
    let mut heap = Heap::new();
    let list = List::new(&mut heap);
    for n in [10, 20, 30] {
        list.push(&mut heap, num(n));
    }
    assert_eq!(int_of(&list.get(&heap, 1).unwrap()), 20);
    assert!(list.get(&heap, 3).is_none());
    assert_eq!(int_of(&list.get_at(&heap, &num(2)).unwrap().unwrap()), 30);
    assert!(matches!(list.get_at(&heap, &num(-1)), Err(Error::InvalidListIndex)));
    assert_eq!(int_of(&list.remove(&mut heap, 0).unwrap()), 10);
    assert!(matches!(list.remove_at(&mut heap, &Value::str("x")), Err(Error::InvalidListIndex)));
    assert_eq!(list.items(&heap).iter().map(int_of).collect::<Vec<_>>(), vec![20, 30]);
}

#[test]
fn list_appended_to_itself_doubles() {
    let mut heap = Heap::new();
    let list = List::new(&mut heap);
    list.push(&mut heap, num(1));
    list.push(&mut heap, num(2));
    list.append_list(&mut heap, &list).unwrap();
    assert_eq!(list.items(&heap).iter().map(int_of).collect::<Vec<_>>(), vec![1, 2, 1, 2]);
    let other = List::new(&mut heap);
    other.push(&mut heap, num(3));
    let both = list.concat(&mut heap, &other);
    assert_eq!(both.len(&heap), 5);
    assert!(matches!(list.extend(&mut heap, num(3)), Err(Error::CantExtend(Kind::Number))));
    list.extend(&mut heap, Value::List(other)).unwrap();
    assert_eq!(list.len(&heap), 5);
}

#[test]
fn dict_gives_back_the_last_value_set() {
    let mut heap = Heap::new();
    let dict = Dict::new(&mut heap);
    dict.insert(&mut heap, Value::str("k"), num(1)).unwrap();
    dict.insert(&mut heap, num(7), num(2)).unwrap();
    dict.insert(&mut heap, Value::str("k"), num(3)).unwrap();
    assert_eq!(dict.len(&heap), 2);
    assert_eq!(int_of(&dict.get(&heap, &Value::str("k")).unwrap()), 3);
    assert_eq!(int_of(&dict.get(&heap, &num(7)).unwrap()), 2);
    assert!(dict.get(&heap, &num(8)).is_none());
}

#[test]
fn dict_keys_keep_their_place_and_int_keys_come_last() {
    let mut heap = Heap::new();
    let dict = Dict::new(&mut heap);
    dict.insert(&mut heap, num(1), num(10)).unwrap();
    dict.insert(&mut heap, Value::str("a"), num(20)).unwrap();
    dict.insert(&mut heap, num(1), num(30)).unwrap();
    let items = dict.items(&heap);
    assert_eq!(items.len(), 2);
    assert!(matches!(&items[0].0, Value::Str(s) if s.as_str() == "a"));
    assert_eq!(int_of(&items[1].0), 1);
    assert_eq!(int_of(&items[1].1), 30);
}

#[test]
fn dict_refuses_unhashable_keys() {
    let mut heap = Heap::new();
    let dict = Dict::new(&mut heap);
    let list = List::new(&mut heap);
    assert!(matches!(dict.insert(&mut heap, Value::List(list), num(1)), Err(Error::Unhashable(Kind::List))));
    assert!(dict.is_empty(&heap));
    // a tuple of hashable items is hashable, one holding a list is not
    let good = Tuple::new(&mut heap, vec![num(1), Value::str("x")]);
    let bad = Tuple::new(&mut heap, vec![Value::List(list)]);
    assert!(good.is_hashable(&heap));
    assert!(!bad.is_hashable(&heap));
    dict.insert(&mut heap, Value::Tuple(good), num(2)).unwrap();
    let same = Tuple::new(&mut heap, vec![num(1), Value::str("x")]);
    assert_eq!(int_of(&dict.get(&heap, &Value::Tuple(same)).unwrap()), 2);
    assert!(matches!(dict.insert(&mut heap, Value::Tuple(bad), num(3)), Err(Error::Unhashable(Kind::Tuple))));
}

#[test]
fn dict_update() {
    let mut heap = Heap::new();
    let a = Dict::new(&mut heap);
    let b = Dict::new(&mut heap);
    a.insert(&mut heap, num(1), num(1)).unwrap();
    b.insert(&mut heap, num(1), num(2)).unwrap();
    b.insert(&mut heap, num(2), num(3)).unwrap();
    a.update(&mut heap, &b).unwrap();
    assert_eq!(a.len(&heap), 2);
    assert_eq!(int_of(&a.get(&heap, &num(1)).unwrap()), 2);
    a.update(&mut heap, &a).unwrap();
    assert_eq!(a.len(&heap), 2);
}

#[test]
fn set_insert_twice_is_insert_once() {
    let mut heap = Heap::new();
    let set = PySet::new(&mut heap);
    set.insert(&mut heap, Value::str("x")).unwrap();
    set.insert(&mut heap, Value::str("x")).unwrap();
    set.insert(&mut heap, num(5)).unwrap();
    set.insert(&mut heap, num(5)).unwrap();
    assert_eq!(set.items(&heap).len(), 2);
    // integers are kept apart and not counted by `len`
    assert_eq!(set.len(&heap), 1);
    let list = List::new(&mut heap);
    assert!(matches!(set.insert(&mut heap, Value::List(list)), Err(Error::Unhashable(Kind::List))));
    set.extend(&mut heap, vec![Value::List(list), Value::str("y")]);
    assert_eq!(set.len(&heap), 2);
}

#[test]
fn keys_equal_and_hashable() {
    let mut heap = Heap::new();
    assert!(heap.keys_equal(&num(3), &num(3)));
    assert!(!heap.keys_equal(&num(3), &Value::str("3")));
    assert!(!heap.keys_equal(&Value::True(), &num(1)));
    let nan = Value::number(Number::from_f64_bits(f64::NAN.to_bits()));
    assert!(!heap.keys_equal(&nan, &nan));
    let list = List::new(&mut heap);
    assert!(!heap.is_hashable(&Value::List(list)));
    assert!(heap.is_hashable(&Value::none()));
}

#[test]
fn value_kinds_and_conversions() {
    let v = Value::str("hi");
    assert_eq!(v.kind(), Kind::Str);
    assert_eq!(v.type_label(), "Str");
    assert!(matches!(v.as_number(), Err(Error::WrongKind { wanted: Kind::Number, got: Kind::Str })));
    assert_eq!(Value::none().type_label(), "None");
    assert_eq!(num(4).to_usize(), Some(4));
    assert_eq!(num(-4).to_usize(), None);
    assert_eq!(num(4).list_index(), Some(4));
    assert_eq!(7usize.list_index(), Some(7));
    assert!(Bool::True().get());
    assert!(!Bool::False().get());
    assert_eq!(Str::new().as_str(), "");
    assert_eq!(Str::from_text("x").as_str(), "x");
}

#[test]
fn extend_with_a_list_value() {
    let mut heap = Heap::new();
    let target = List::new(&mut heap);
    let items = List::new(&mut heap);
    items.push(&mut heap, num(1));
    Value::List(target).extend_with(&mut heap, &items).unwrap();
    assert_eq!(target.len(&heap), 1);
    assert!(matches!(num(1).extend_with(&mut heap, &items), Err(Error::CantExtend(Kind::Number))));
    assert!(target.same_as(&target));
    assert!(!target.same_as(&items));
}

#[test]
fn numbers_are_exact() {
    let a = Number::from_i64(i64::MAX);
    let b = Number::from_i64(1);
    let sum = a.add(&b).unwrap();
    assert!(sum.is_i128());
    assert_eq!(sum.as_i128(), Some(i64::MAX as i128 + 1));
    let back = sum.sub(&b).unwrap();
    assert!(back.is_i64());
    assert_eq!(back.as_i64(), Some(i64::MAX));
    let big = Number::from_i128(i128::MAX).mul(&Number::from_i64(2)).unwrap();
    assert!(big.is_big_int());
    assert_eq!(Number::from_i64(6).or(&Number::from_i64(3)).unwrap().as_i64(), Some(7));
    assert_eq!(Number::from_i64(6).and(&Number::from_i64(3)).unwrap().as_i64(), Some(2));
    assert_eq!(Number::from_i64(-6).and(&Number::from_i64(3)).unwrap().as_i64(), Some(2));
    let f = Number::from_f64_bits(1.5f64.to_bits());
    assert!(matches!(f.or(&b), Err(Error::FloatBitwise)));
    assert!(f.add(&b).is_none());
    assert_eq!(Number::from_i64(5).floor().unwrap().as_i64(), Some(5));
    assert_eq!(Number::from_i64(5).ceil().unwrap().as_i64(), Some(5));
    assert_eq!(Number::from_i64(5).to_usize(), Some(5));
    assert!(Number::from_i64(5) == Number::from_i32(5));
    assert!(!(Number::from_i64(5) == Number::from_i32(6)));
}

#[test]
fn big_int_bytes_round_trip() {
    for n in [0i128, 1, -1, 127, 128, -128, -129, 255, 256, i64::MAX as i128, i128::MIN, i128::MAX] {
        let b = BigInt::from_i128(n);
        let bytes = b.to_signed_bytes_le();
        let back = BigInt::from_signed_bytes_le(&bytes);
        assert!(back.equals(&b));
        assert_eq!(back.to_i128(), Some(n));
    }
    assert_eq!(BigInt::from_i128(128).to_signed_bytes_le(), vec![0x80, 0x00]);
    assert_eq!(BigInt::from_i128(-1).to_signed_bytes_le(), vec![0xff]);
    assert_eq!(BigInt::from_signed_bytes_le(&[0x00, 0x80]).to_i128(), Some(-32768));
}

#[test]
fn number_cache_gives_exact_numbers() {
    let mut cache = NumberCache::new();
    let a = cache.get_u8(200);
    let b = cache.get_u8(200);
    assert_eq!(int_of(&a), 200);
    assert_eq!(int_of(&b), 200);
    assert_eq!(int_of(&cache.get_i32(-70000)), -70000);
    assert_eq!(int_of(&cache.get_u32(u32::MAX)), u32::MAX as i64);
    assert_eq!(int_of(&cache.get_usize(3)), 3);
    assert_eq!(int_of(&cache.get_u16(40000)), 40000);
}

#[test]
fn error_messages() {
    assert!(matches!(Error::msg("boom".to_owned()), Error::Message(m) if m == "boom"));
    assert_eq!(aprs::error::SerdeError::msg("bad").as_str(), "bad");
    assert_eq!(Kind::PySet.name(), "Set");
}

#[test]
fn big_int_operations() {
    let big = BigInt::from_u128(u128::MAX);
    assert_eq!(big.to_i128(), None);
    assert_eq!(BigInt::from_i128(5).to_usize(), Some(5));
    assert_eq!(BigInt::from_i128(-5).to_usize(), None);
    let one = BigInt::from_i128(1);
    let sum = big.add(&one);
    assert_eq!(sum.sub(&big).to_i128(), Some(1));
    assert_eq!(big.mul(&BigInt::from_i128(0)).to_i128(), Some(0));
    assert_eq!(big.bitand(&BigInt::from_i128(0xff)).to_i128(), Some(0xff));
    assert_eq!(BigInt::from_i128(-2).bitor(&one).to_i128(), Some(-1));
    assert!(!big.equals(&sum));
    assert!(sum.sub(&one).equals(&big));
    // big numbers through the value model
    let n = Number::from_big_int(big.mul(&BigInt::from_i128(2)));
    assert!(n.is_big_int());
    let m = n.and(&Number::from_i64(6)).unwrap();
    assert_eq!(m.as_i64(), Some(6));
    let k = n.or(&Number::from_i64(1)).unwrap();
    assert!(k.is_big_int());
}

#[test]
fn dict_extend_skips_unhashable_keys() {
    let mut heap = Heap::new();
    let dict = Dict::new(&mut heap);
    let list = List::new(&mut heap);
    dict.extend(
        &mut heap,
        vec![
            (Value::str("a"), num(1)),
            (Value::List(list), num(2)),
            (num(3), num(4)),
            (Value::str("a"), num(5)),
        ],
    );
    assert_eq!(dict.len(&heap), 2);
    assert_eq!(int_of(&dict.get(&heap, &Value::str("a")).unwrap()), 5);
    assert_eq!(int_of(&dict.get(&heap, &num(3)).unwrap()), 4);
}

#[test]
fn integral_floats_are_integers() {
    let two = Number::from_f64_bits(2.0f64.to_bits());
    assert!(two.is_i64());
    assert_eq!(two.as_i64(), Some(2));
    assert!(two == Number::from_i64(2));
    let minus = Number::from_f64_bits((-3.0f64).to_bits());
    assert_eq!(minus.as_i64(), Some(-3));
    let zero = Number::from_f64_bits((-0.0f64).to_bits());
    assert_eq!(zero.as_i64(), Some(0));
    let wide = Number::from_f64_bits(2f64.powi(100).to_bits());
    assert!(wide.is_i128());
    assert_eq!(wide.as_i128(), Some(1i128 << 100));
    let huge = Number::from_f64_bits(f64::MAX.to_bits());
    assert!(huge.is_big_int());
    let half = Number::from_f64_bits(0.5f64.to_bits());
    assert!(half.is_f64());
    assert!(!(half == Number::from_i64(0)));
    assert!(Number::from_f64_bits(f64::INFINITY.to_bits()).is_f64());
    assert!(Number::from_f64_bits(f64::NAN.to_bits()).is_f64());
    assert!(Number::from_f64_bits(1e-300f64.to_bits()).is_f64());
}

#[test]
fn default_string_is_empty() {
    assert_eq!(Str::default().as_str(), "");
    assert_eq!(Str::default().as_str(), Str::new().as_str());
}

#[test]
fn equality_is_symmetric_on_samples() {
    let mut heap = Heap::new();
    let a = List::new(&mut heap);
    a.push(&mut heap, Value::number(Number::from_i64(1)));
    a.push(&mut heap, Value::str("x"));
    let b = List::new(&mut heap);
    b.push(&mut heap, Value::bool(true));
    b.push(&mut heap, Value::str("x"));
    b.push(&mut heap, Value::none());
    let (x, y) = (Value::List(a), Value::List(b));
    assert_eq!(x.deep_eq(&heap, &y, 4), Some(true));
    assert_eq!(y.deep_eq(&heap, &x, 4), Some(true));
    let s = Value::str("1");
    assert_eq!(x.deep_eq(&heap, &s, 4), s.deep_eq(&heap, &x, 4));
    let one = Value::number(Number::from_i64(1));
    let one_float = Value::number(Number::from_f64_bits(1.0f64.to_bits()));
    assert_eq!(one.deep_eq(&heap, &one_float, 1), Some(true));
    assert_eq!(one_float.deep_eq(&heap, &one, 1), Some(true));
}

#[test]
fn clones_share_storage() {
    let mut heap = Heap::new();
    let list = Value::List(List::new(&mut heap));
    let clone = list.clone();
    clone.as_list().unwrap().push(&mut heap, Value::none());
    assert_eq!(list.as_list().unwrap().len(&heap), 1);
}

#[test]
fn floats_kept_as_floats_compare_as_numbers() {
    let one = Number::float_from_bits(1.0f64.to_bits());
    assert!(one.is_f64());
    assert!(one == Number::from_i64(1));
    assert!(Number::from_i64(1) == one);
    assert!(!(one == Number::from_i64(2)));
    let big = Number::float_from_bits(2f64.powi(100).to_bits());
    assert!(big == Number::from_i128(1i128 << 100));
    assert!(!(Number::float_from_bits(f64::NAN.to_bits()) == Number::from_i64(0)));
    let mut heap = Heap::new();
    let sum = Value::number(one.clone()).add(&mut heap, &Value::number(Number::from_i64(32)));
    assert!(matches!(sum, Ok(None)));
}
