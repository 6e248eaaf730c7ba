use aprs::error::{Error, Kind};
use aprs::unpickler::{unpickle, Unpickler};
use aprs::value::{Class, Value};

fn int_of(v: &Value) -> i64 {
    match v {
        Value::Number(n) => n.as_i64().expect("small integer"),
        other => panic!("not a number: {other:?}"),
    }
}

fn text_of(v: &Value) -> String {
    match v {
        Value::Str(s) => s.as_str().to_owned(),
        other => panic!("not a string: {other:?}"),
    }
}

/// A protocol 4 pickle of `body`, in one frame.
fn framed(body: &[u8]) -> Vec<u8> {
    let mut data = vec![0x80, 0x04, 0x95];
    data.extend_from_slice(&(body.len() as u64).to_le_bytes());
    data.extend_from_slice(body);
    data
}

#[test]
fn reads_small_int() {
    let (v, _heap) = unpickle(&[0x80, 0x04, 0x4b, 0x05, 0x2e]).unwrap();
    assert_eq!(int_of(&v), 5);
}

#[test]
fn reads_negative_binint() {
    let (v, _heap) = unpickle(&[0x4a, 0xff, 0xff, 0xff, 0xff, 0x2e]).unwrap();
    assert_eq!(int_of(&v), -1);
    let (v, _heap) = unpickle(&[0x4a, 0x00, 0x00, 0x00, 0x80, 0x2e]).unwrap();
    assert_eq!(int_of(&v), i32::MIN as i64);
}

#[test]
fn reads_binint2() {
    let (v, _heap) = unpickle(&[0x4d, 0x34, 0x12, 0x2e]).unwrap();
    assert_eq!(int_of(&v), 0x1234);
}

#[test]
fn reads_long1() {
    let (v, _heap) = unpickle(&[0x8a, 0x02, 0xff, 0x00, 0x2e]).unwrap();
    assert_eq!(int_of(&v), 255);
    let (v, _heap) = unpickle(&[0x8a, 0x01, 0xff, 0x2e]).unwrap();
    assert_eq!(int_of(&v), -1);
    let (v, _heap) = unpickle(&[0x8a, 0x00, 0x2e]).unwrap();
    assert_eq!(int_of(&v), 0);
}

#[test]
fn reads_long1_beyond_i128() {
    // 2^128, in seventeen bytes.
    let mut data = vec![0x8a, 17];
    data.extend_from_slice(&[0; 16]);
    data.push(1);
    data.push(0x2e);
    let (v, _heap) = unpickle(&data).unwrap();
    match v {
        Value::Number(n) => {
            assert!(n.is_big_int());
            assert_eq!(n.as_i128(), None);
        }
        other => panic!("not a number: {other:?}"),
    }
}

#[test]
fn reads_dict_with_text_key() {
    // pickle.dumps({"a": 1}, 4)
    let data = framed(&[0x7d, 0x94, 0x8c, 0x01, b'a', 0x94, 0x4b, 0x01, 0x73, 0x2e]);
    let (v, heap) = unpickle(&data).unwrap();
    let dict = v.as_dict().unwrap();
    assert_eq!(dict.len(&heap), 1);
    let found = dict.get(&heap, &Value::str("a")).unwrap();
    assert_eq!(int_of(&found), 1);
    assert!(dict.get(&heap, &Value::str("b")).is_none());
}

#[test]
fn reads_list_with_appends() {
    // pickle.dumps([1, 2, 3], 4)
    let data = framed(&[0x5d, 0x94, 0x28, 0x4b, 1, 0x4b, 2, 0x4b, 3, 0x65, 0x2e]);
    let (v, heap) = unpickle(&data).unwrap();
    let list = v.as_list().unwrap();
    let items: Vec<i64> = list.items(&heap).iter().map(int_of).collect();
    assert_eq!(items, vec![1, 2, 3]);
}

#[test]
fn shared_list_is_one_object() {
    // l = []; pickle.dumps([l, l], 4)
    let data = framed(&[0x5d, 0x94, 0x28, 0x5d, 0x94, 0x68, 0x01, 0x65, 0x2e]);
    let (v, heap) = unpickle(&data).unwrap();
    let items = v.as_list().unwrap().items(&heap);
    assert_eq!(items.len(), 2);
    let a = items[0].as_list().unwrap();
    let b = items[1].as_list().unwrap();
    assert_eq!(a, b);
}

#[test]
fn reads_tuples_bools_and_none() {
    // (True, False, None)
    let (v, heap) = unpickle(&[0x88, 0x89, 0x4e, 0x87, 0x2e]).unwrap();
    let items = v.as_tuple().unwrap().items(&heap);
    assert!(matches!(items[0], Value::Bool(b) if b.get()));
    assert!(matches!(items[1], Value::Bool(b) if !b.get()));
    assert!(matches!(items[2], Value::PyNone(_)));
}

#[test]
fn reads_tuple_after_mark_and_empty_tuple() {
    let (v, heap) = unpickle(&[0x28, 0x4b, 7, 0x4b, 8, 0x74, 0x2e]).unwrap();
    let items = v.as_tuple().unwrap().items(&heap);
    assert_eq!(items.iter().map(int_of).collect::<Vec<_>>(), vec![7, 8]);
    let (v, heap) = unpickle(&[0x29, 0x2e]).unwrap();
    assert_eq!(v.as_tuple().unwrap().len(&heap), 0);
}

#[test]
fn reads_setitems_and_drops_odd_key() {
    // {1: 2, 3: 4} with a lone key 5 left over
    let (v, heap) = unpickle(&[0x7d, 0x28, 0x4b, 1, 0x4b, 2, 0x4b, 3, 0x4b, 4, 0x4b, 5, 0x75, 0x2e]).unwrap();
    let dict = v.as_dict().unwrap();
    assert_eq!(dict.len(&heap), 2);
    let n = |k: i32| Value::number(aprs::number::Number::from_i32(k));
    assert_eq!(int_of(&dict.get(&heap, &n(1)).unwrap()), 2);
    assert_eq!(int_of(&dict.get(&heap, &n(3)).unwrap()), 4);
    assert!(dict.get(&heap, &n(5)).is_none());
}

#[test]
fn reads_set_with_additems() {
    let (v, heap) = unpickle(&[0x8f, 0x28, 0x8c, 1, b'x', 0x8c, 1, b'x', 0x8c, 1, b'y', 0x90, 0x2e]).unwrap();
    let set = v.as_set().unwrap();
    let items: Vec<String> = set.items(&heap).iter().map(text_of).collect();
    assert_eq!(items, vec!["x".to_owned(), "y".to_owned()]);
}

#[test]
fn reads_binunicode() {
    let (v, _heap) = unpickle(&[0x58, 3, 0, 0, 0, b'a', b'b', b'c', 0x2e]).unwrap();
    assert_eq!(text_of(&v), "abc");
    let (v, _heap) = unpickle(&[0x8c, 2, 0xc3, 0xa9, 0x2e]).unwrap();
    assert_eq!(text_of(&v), "\u{e9}");
}

#[test]
fn long_binget_reads_memo() {
    // 9, memoized as 0, then read back with LONG_BINGET 0 into a 2-tuple
    let (v, heap) = unpickle(&[0x4b, 9, 0x94, 0x6a, 0, 0, 0, 0, 0x86, 0x2e]).unwrap();
    let items = v.as_tuple().unwrap().items(&heap);
    assert_eq!(items.iter().map(int_of).collect::<Vec<_>>(), vec![9, 9]);
}

#[test]
fn builds_slot_type() {
    let mut data = vec![0x8c, 8];
    data.extend_from_slice(b"NetUtils");
    data.extend_from_slice(&[0x8c, 8]);
    data.extend_from_slice(b"SlotType");
    data.extend_from_slice(&[0x93, 0x4b, 1, 0x85, 0x52, 0x2e]);
    let (v, _heap) = unpickle(&data).unwrap();
    assert_eq!(int_of(&v), 1);
}

#[test]
fn builds_network_slot() {
    let mut data = vec![0x8c, 8];
    data.extend_from_slice(b"NetUtils");
    data.extend_from_slice(&[0x8c, 11]);
    data.extend_from_slice(b"NetworkSlot");
    data.push(0x93);
    data.extend_from_slice(&[0x28, 0x8c, 2]);
    data.extend_from_slice(b"me");
    data.extend_from_slice(&[0x8c, 4]);
    data.extend_from_slice(b"Game");
    data.extend_from_slice(&[0x4b, 1, 0x5d, 0x74, 0x81, 0x2e]);
    let (v, heap) = unpickle(&data).unwrap();
    let dict = v.as_dict().unwrap();
    assert_eq!(dict.len(&heap), 5);
    assert_eq!(text_of(&dict.get(&heap, &Value::str("__class")).unwrap()), "NetworkSlot");
    assert_eq!(text_of(&dict.get(&heap, &Value::str("name")).unwrap()), "me");
    assert_eq!(text_of(&dict.get(&heap, &Value::str("game")).unwrap()), "Game");
    assert_eq!(int_of(&dict.get(&heap, &Value::str("type")).unwrap()), 1);
    assert!(matches!(dict.get(&heap, &Value::str("group_members")).unwrap(), Value::List(_)));
}

#[test]
fn builds_hint_with_defaults() {
    let mut data = vec![0x8c, 8];
    data.extend_from_slice(b"NetUtils");
    data.extend_from_slice(&[0x8c, 4]);
    data.extend_from_slice(b"Hint");
    data.extend_from_slice(&[0x93, 0x4b, 3, 0x4b, 4, 0x86, 0x52, 0x2e]);
    let (v, heap) = unpickle(&data).unwrap();
    let items = v.as_tuple().unwrap().items(&heap);
    assert_eq!(items.len(), 8);
    assert_eq!(int_of(&items[0]), 3);
    assert_eq!(int_of(&items[1]), 4);
    for item in &items[2..5] {
        assert!(matches!(item, Value::PyNone(_)));
    }
    assert_eq!(text_of(&items[5]), "");
    assert_eq!(int_of(&items[6]), 0);
    assert_eq!(int_of(&items[7]), 0);
}

#[test]
fn unknown_class_is_an_error() {
    let mut data = vec![0x8c, 3];
    data.extend_from_slice(b"os");
    data.push(b'x');
    data.extend_from_slice(&[0x8c, 6]);
    data.extend_from_slice(b"system");
    data.push(0x93);
    match unpickle(&data) {
        Err(Error::ClassNotFound { module, name }) => {
            assert_eq!(module, "osx");
            assert_eq!(name, "system");
        }
        other => panic!("unexpected: {:?}", other.err()),
    }
}

#[test]
fn wrong_arguments_to_a_class() {
    let mut data = vec![0x8c, 8];
    data.extend_from_slice(b"NetUtils");
    data.extend_from_slice(&[0x8c, 8]);
    data.extend_from_slice(b"SlotType");
    data.extend_from_slice(&[0x93, 0x4b, 1, 0x4b, 2, 0x86, 0x52, 0x2e]);
    assert!(matches!(unpickle(&data), Err(Error::WrongArity { arity: 1, given: 2 })));
    let mut data = vec![0x8c, 8];
    data.extend_from_slice(b"NetUtils");
    data.extend_from_slice(&[0x8c, 8]);
    data.extend_from_slice(b"SlotType");
    data.extend_from_slice(&[0x93, 0x4b, 1, 0x52, 0x2e]);
    assert!(matches!(
        unpickle(&data),
        Err(Error::WrongKind { wanted: Kind::Tuple, got: Kind::Number })
    ));
}

#[test]
fn errors_of_the_stream() {
    assert!(matches!(unpickle(&[]), Err(Error::StreamExhausted)));
    assert!(matches!(unpickle(&[0x4b]), Err(Error::StreamExhausted)));
    assert!(matches!(unpickle(&[0xff]), Err(Error::UnknownOp(0xff))));
    assert!(matches!(unpickle(&[0x30]), Err(Error::UnhandledOp(0x30))));
    assert!(matches!(unpickle(&[0x47]), Err(Error::StreamExhausted)));
    assert!(matches!(unpickle(&[0x80, 6]), Err(Error::UnsupportedProtocol(6))));
    assert!(matches!(unpickle(&[0x2e]), Err(Error::EmptyStack)));
    assert!(matches!(unpickle(&[0x74]), Err(Error::EmptyMetaStack)));
    assert!(matches!(unpickle(&[0x68, 0]), Err(Error::MemoNotFound)));
    assert!(matches!(unpickle(&[0x8c, 1, 0xff, 0x2e]), Err(Error::InvalidUtf8)));
}

#[test]
fn errors_of_frames() {
    // a frame that claims more bytes than there are
    assert!(matches!(unpickle(&[0x95, 5, 0, 0, 0, 0, 0, 0, 0, 0x4b]), Err(Error::StreamExhausted)));
    // a new frame inside a frame that is not finished
    let data = framed(&[0x95, 0, 0, 0, 0, 0, 0, 0, 0, 0x4e]);
    assert!(matches!(unpickle(&data), Err(Error::FrameNotFinished)));
    // an op whose argument runs past the end of the frame
    let mut data = framed(&[0x4a, 1, 2]);
    data.extend_from_slice(&[3, 4, 0x2e]);
    assert!(matches!(unpickle(&data), Err(Error::FrameExhausted)));
}

#[test]
fn errors_of_values() {
    // a list as a dict key
    assert!(matches!(unpickle(&[0x7d, 0x5d, 0x4e, 0x73, 0x2e]), Err(Error::Unhashable(Kind::List))));
    // appending to a dict
    assert!(matches!(
        unpickle(&[0x7d, 0x4e, 0x61, 0x2e]),
        Err(Error::WrongKind { wanted: Kind::List, got: Kind::Dict })
    ));
    // extending a number
    assert!(matches!(unpickle(&[0x4b, 1, 0x28, 0x65, 0x2e]), Err(Error::CantExtend(Kind::Number))));
    // a dict item to a set
    assert!(matches!(unpickle(&[0x8f, 0x28, 0x7d, 0x90, 0x2e]), Err(Error::Unhashable(Kind::Dict))));
}

#[test]
fn reader_keeps_protocol() {
    let data = [0x03u8, 0x06];
    let mut reader = Unpickler::new(&data);
    assert_eq!(reader.proto(), 0);
    reader.dispatch(0x80).unwrap();
    assert_eq!(reader.proto(), 3);
    assert!(matches!(reader.dispatch(0x80), Err(Error::UnsupportedProtocol(6))));
    assert_eq!(reader.proto(), 3);
}

#[test]
fn a_frame_continues_into_the_stream() {
    // the frame holds the op, its argument follows the frame
    let mut data = framed(&[0x4b]);
    data.extend_from_slice(&[1, 0x2e]);
    let (v, _heap) = unpickle(&data).unwrap();
    assert_eq!(int_of(&v), 1);
}

#[test]
fn memo_keys_count_up() {
    // 5 and 6 memoized as 0 and 1, then read back in the other order
    let (v, heap) = unpickle(&[0x4b, 5, 0x94, 0x4b, 6, 0x94, 0x68, 1, 0x68, 0, 0x86, 0x2e]).unwrap();
    let items = v.as_tuple().unwrap().items(&heap);
    assert_eq!(items.iter().map(int_of).collect::<Vec<_>>(), vec![6, 5]);
    let _ = Class::Hint;
}

#[test]
fn bytes_after_stop_are_not_read() {
    let data = framed(&[0x5d, 0x94, 0x28, 0x4b, 1, 0x4b, 2, 0x65, 0x2e]);
    let (v, heap) = unpickle(&data).unwrap();
    let mut longer = data.clone();
    longer.extend_from_slice(&[0xff, 0x00, 0x13]);
    let (w, heap2) = unpickle(&longer).unwrap();
    let a: Vec<i64> = v.as_list().unwrap().items(&heap).iter().map(int_of).collect();
    let b: Vec<i64> = w.as_list().unwrap().items(&heap2).iter().map(int_of).collect();
    assert_eq!(a, b);
    assert_eq!(a, vec![1, 2]);
}

#[test]
fn a_frame_holds_the_next_bytes() {
    // a frame of three bytes: BININT1 7, NONE; then TUPLE2 and STOP from the stream
    let mut data = framed(&[0x4b, 7, 0x4e]);
    data.extend_from_slice(&[0x86, 0x2e]);
    let (v, heap) = unpickle(&data).unwrap();
    let items = v.as_tuple().unwrap().items(&heap);
    assert_eq!(int_of(&items[0]), 7);
    assert!(matches!(items[1], Value::PyNone(_)));
    // an empty frame is finished at once
    let data = framed(&[]);
    let mut data = data;
    data.extend_from_slice(&[0x4b, 3, 0x2e]);
    let (v, _heap) = unpickle(&data).unwrap();
    assert_eq!(int_of(&v), 3);
}

#[test]
fn mark_then_tuple_restores_the_stack() {
    // 1, MARK, TUPLE (empty), TUPLE2 -> (1, ())
    let (v, heap) = unpickle(&[0x4b, 1, 0x28, 0x74, 0x86, 0x2e]).unwrap();
    let items = v.as_tuple().unwrap().items(&heap);
    assert_eq!(items.len(), 2);
    assert_eq!(int_of(&items[0]), 1);
    assert_eq!(items[1].as_tuple().unwrap().len(&heap), 0);
}

#[test]
fn failed_ops_leave_the_reader() {
    let data = [7u8, 3, 6];
    let mut reader = Unpickler::new(&data);
    assert!(matches!(reader.dispatch(0xff), Err(Error::UnknownOp(0xff))));
    assert!(matches!(reader.last(), Err(Error::EmptyStack)));
    reader.dispatch(0x4b).unwrap();
    // memo entry 3 is missing: its byte is read, the stack stays
    assert!(matches!(reader.dispatch(0x68), Err(Error::MemoNotFound)));
    assert_eq!(int_of(&reader.last().unwrap()), 7);
    // protocol 6 is refused: the protocol stays
    assert!(matches!(reader.dispatch(0x80), Err(Error::UnsupportedProtocol(6))));
    assert_eq!(reader.proto(), 0);
    assert_eq!(int_of(&reader.last().unwrap()), 7);
}

#[test]
fn binfloat_reads_a_big_endian_double() {
    let mut data = vec![0x80u8, 0x04, 0x47];
    data.extend_from_slice(&1.5f64.to_be_bytes());
    data.push(0x2e);
    let (v, _heap) = unpickle(&data).unwrap();
    match v {
        Value::Number(n) => {
            assert!(n.is_f64());
            assert_eq!(n.as_f64_bits(), Some(1.5f64.to_bits()));
        }
        other => panic!("not a number: {other:?}"),
    }
    // a double that is an integer is pushed as that integer
    let mut data = vec![0x47u8];
    data.extend_from_slice(&33.0f64.to_be_bytes());
    data.push(0x2e);
    let (v, _heap) = unpickle(&data).unwrap();
    assert_eq!(int_of(&v), 33);
    // too few bytes
    assert!(matches!(unpickle(&[0x47, 0, 0, 0]), Err(Error::StreamExhausted)));
}
