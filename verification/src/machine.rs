//! The pickle machine as a model: what each op does to the state of a reader, and
//! what reading a whole pickle gives. The reader in [`crate::unpickler`] is proved
//! to follow it op by op.

use vstd::prelude::*;

use crate::bigint::{signed_le_value, unsigned_le_value};
use crate::error::{ErrorModel, Kind};
use crate::heap::{
    capped_len, dict_get, dict_insert, dict_len, hashable, set_insert, DictModel, HeapModel, SetModel,
};
use crate::number::NumberModel;
use crate::op;
use crate::unframer::{load_frame_spec, read_exact_spec, UnframerModel};
use crate::value::{kind_of, Class, ValueModel};

verus! {

/// What a reader holds between two ops: the input not yet read, the protocol, the
/// handle of the list that is the stack, the handles of the stacks saved by marks,
/// the handle of the memo dict, the result once `STOP` has been read, and the heap.
pub struct UnpicklerModel {
    pub input: UnframerModel,
    pub proto: u8,
    pub stack: usize,
    pub meta: Seq<usize>,
    pub memo: usize,
    pub result: Option<ValueModel>,
    pub heap: HeapModel,
}

/// Every handle the reader holds is one of its heap's, and the heap is well formed.
pub open spec fn model_wf(m: UnpicklerModel) -> bool {
    &&& m.heap.wf()
    &&& m.stack < m.heap.lists.len()
    &&& forall|i: int| 0 <= i < m.meta.len() ==> #[trigger] m.meta[i] < m.heap.lists.len()
    &&& m.memo < m.heap.dicts.len()
    &&& m.result matches Some(v) ==> crate::heap::valid(m.heap, v)
}

/// The number of input bytes not yet read, in the stream and in the current frame.
pub open spec fn remaining(u: UnframerModel) -> nat {
    u.data.len() + match u.frame {
        Some(f) => f.len(),
        None => 0,
    }
}

/// The empty dict.
pub open spec fn empty_dict() -> DictModel {
    DictModel { entries: Seq::empty(), int_entries: Seq::empty() }
}

/// The empty set.
pub open spec fn empty_set() -> SetModel {
    SetModel { items: Seq::empty(), ints: Seq::empty() }
}

/// A number value.
pub open spec fn int_value(n: int) -> ValueModel {
    ValueModel::Number(NumberModel::Int(n))
}

/// Reads `n` bytes of input.
pub open spec fn read_bytes(m: UnpicklerModel, n: nat) -> Result<(Seq<u8>, UnpicklerModel), ErrorModel> {
    match read_exact_spec(m.input, n) {
        Ok((bytes, next)) => Ok((bytes, UnpicklerModel { input: next, ..m })),
        Err(e) => Err(e@),
    }
}

/// The items of the stack.
pub open spec fn stack_items(m: UnpicklerModel) -> Seq<ValueModel> {
    m.heap.lists[m.stack as int]
}

/// The state with the stack holding `s`.
pub open spec fn with_stack(m: UnpicklerModel, s: Seq<ValueModel>) -> UnpicklerModel {
    UnpicklerModel { heap: HeapModel { lists: m.heap.lists.update(m.stack as int, s), ..m.heap }, ..m }
}

/// Pushes `v` on the stack.
pub open spec fn push_spec(m: UnpicklerModel, v: ValueModel) -> UnpicklerModel {
    with_stack(m, stack_items(m).push(v))
}

/// Takes the top of the stack off.
pub open spec fn pop_spec(m: UnpicklerModel) -> Result<(ValueModel, UnpicklerModel), ErrorModel> {
    if stack_items(m).len() == 0 {
        Err(ErrorModel::EmptyStack)
    } else {
        Ok((stack_items(m).last(), with_stack(m, stack_items(m).drop_last())))
    }
}

/// The top of the stack.
pub open spec fn last_spec(m: UnpicklerModel) -> Result<ValueModel, ErrorModel> {
    if stack_items(m).len() == 0 {
        Err(ErrorModel::EmptyStack)
    } else {
        Ok(stack_items(m).last())
    }
}

/// Goes back to the stack saved by the last mark; gives the handle of the stack
/// that is left, which holds what was pushed since the mark.
pub open spec fn pop_mark_spec(m: UnpicklerModel) -> Result<(usize, UnpicklerModel), ErrorModel> {
    if m.meta.len() == 0 {
        Err(ErrorModel::EmptyMetaStack)
    } else {
        Ok((m.stack, UnpicklerModel { stack: m.meta.last(), meta: m.meta.drop_last(), ..m }))
    }
}

/// The state with a new empty list added to the heap (its handle is the number of
/// lists before).
pub open spec fn add_list(m: UnpicklerModel) -> UnpicklerModel {
    UnpicklerModel { heap: HeapModel { lists: m.heap.lists.push(Seq::empty()), ..m.heap }, ..m }
}

/// The state with the dict `d` added to the heap.
pub open spec fn add_dict(m: UnpicklerModel, d: DictModel) -> UnpicklerModel {
    UnpicklerModel { heap: HeapModel { dicts: m.heap.dicts.push(d), ..m.heap }, ..m }
}

/// The state with the set `s` added to the heap.
pub open spec fn add_set(m: UnpicklerModel, s: SetModel) -> UnpicklerModel {
    UnpicklerModel { heap: HeapModel { sets: m.heap.sets.push(s), ..m.heap }, ..m }
}

/// The state with the tuple `t` added to the heap.
pub open spec fn add_tuple(m: UnpicklerModel, t: Seq<ValueModel>) -> UnpicklerModel {
    UnpicklerModel { heap: HeapModel { tuples: m.heap.tuples.push(t), ..m.heap }, ..m }
}

/// `MARK`: saves the stack and starts a new empty one.
pub open spec fn load_mark_spec(m: UnpicklerModel) -> UnpicklerModel {
    UnpicklerModel {
        stack: m.heap.lists.len() as usize,
        meta: m.meta.push(m.stack),
        ..add_list(m)
    }
}

/// `STOP`: the top of the stack is the result.
pub open spec fn load_stop_spec(m: UnpicklerModel) -> Result<UnpicklerModel, ErrorModel> {
    match pop_spec(m) {
        Ok((v, m1)) => Ok(UnpicklerModel { result: Some(v), ..m1 }),
        Err(e) => Err(e),
    }
}

/// Reads `n` bytes and pushes the number that `value` makes of them.
pub open spec fn push_read_int(
    m: UnpicklerModel,
    n: nat,
    value: spec_fn(Seq<u8>) -> int,
) -> Result<UnpicklerModel, ErrorModel> {
    match read_bytes(m, n) {
        Ok((bytes, m1)) => Ok(push_spec(m1, int_value(value(bytes)))),
        Err(e) => Err(e),
    }
}

/// `BININT`: a four-byte signed number.
pub open spec fn load_binint_spec(m: UnpicklerModel) -> Result<UnpicklerModel, ErrorModel> {
    push_read_int(m, 4, |b: Seq<u8>| signed_le_value(b))
}

/// The eight bytes `b` read as a big-endian `u64`.
pub open spec fn be_u64(b: Seq<u8>) -> u64 {
    ((b[0] as u64) << 56u64) | ((b[1] as u64) << 48u64) | ((b[2] as u64) << 40u64) | ((
    b[3] as u64) << 32u64) | ((b[4] as u64) << 24u64) | ((b[5] as u64) << 16u64) | ((b[6] as u64)
        << 8u64) | (b[7] as u64)
}

/// The number a pickled double with bit pattern `bits` is: the integer it is where it
/// is one, else the float.
pub open spec fn pickled_float(bits: u64) -> NumberModel {
    match crate::number::f64_integral(bits) {
        Some(v) => NumberModel::Int(v),
        None => NumberModel::Float(bits),
    }
}

/// `BINFLOAT`: an eight-byte big-endian double.
pub open spec fn load_binfloat_spec(m: UnpicklerModel) -> Result<UnpicklerModel, ErrorModel> {
    match read_bytes(m, 8) {
        Ok((bytes, m1)) => Ok(push_spec(m1, ValueModel::Number(pickled_float(be_u64(bytes))))),
        Err(e) => Err(e),
    }
}

/// `BININT1`: a one-byte unsigned number.
pub open spec fn load_binint1_spec(m: UnpicklerModel) -> Result<UnpicklerModel, ErrorModel> {
    push_read_int(m, 1, |b: Seq<u8>| unsigned_le_value(b) as int)
}

/// `BININT2`: a two-byte unsigned number.
pub open spec fn load_binint2_spec(m: UnpicklerModel) -> Result<UnpicklerModel, ErrorModel> {
    push_read_int(m, 2, |b: Seq<u8>| unsigned_le_value(b) as int)
}

/// `LONG1`: a length byte, then that many bytes of a signed number.
pub open spec fn load_long1_spec(m: UnpicklerModel) -> Result<UnpicklerModel, ErrorModel> {
    match read_bytes(m, 1) {
        Ok((len, m1)) => push_read_int(m1, len[0] as nat, |b: Seq<u8>| signed_le_value(b)),
        Err(e) => Err(e),
    }
}

/// Reads `n` bytes of UTF-8 text and pushes the string.
pub open spec fn push_read_text(m: UnpicklerModel, n: nat) -> Result<UnpicklerModel, ErrorModel> {
    match read_bytes(m, n) {
        Ok((bytes, m1)) => if vstd::utf8::valid_utf8(bytes) {
            Ok(push_spec(m1, ValueModel::Str(vstd::utf8::decode_utf8(bytes))))
        } else {
            Err(ErrorModel::InvalidUtf8)
        },
        Err(e) => Err(e),
    }
}

/// `BINUNICODE`: a four-byte length, then that many bytes of text.
pub open spec fn load_binunicode_spec(m: UnpicklerModel) -> Result<UnpicklerModel, ErrorModel> {
    match read_bytes(m, 4) {
        Ok((len, m1)) => push_read_text(m1, unsigned_le_value(len)),
        Err(e) => Err(e),
    }
}

/// `SHORT_BINUNICODE`: a length byte, then that many bytes of text.
pub open spec fn load_short_binunicode_spec(m: UnpicklerModel) -> Result<UnpicklerModel, ErrorModel> {
    match read_bytes(m, 1) {
        Ok((len, m1)) => push_read_text(m1, len[0] as nat),
        Err(e) => Err(e),
    }
}

/// `APPEND`: pops a value and appends it to the list below it.
pub open spec fn load_append_spec(m: UnpicklerModel) -> Result<UnpicklerModel, ErrorModel> {
    match pop_spec(m) {
        Err(e) => Err(e),
        Ok((v, m1)) => match last_spec(m1) {
            Err(e) => Err(e),
            Ok(ValueModel::List(l)) => Ok(
                UnpicklerModel {
                    heap: HeapModel {
                        lists: m1.heap.lists.update(l as int, m1.heap.lists[l as int].push(v)),
                        ..m1.heap
                    },
                    ..m1
                },
            ),
            Ok(x) => Err(ErrorModel::WrongKind { wanted: Kind::List, got: kind_of(x) }),
        },
    }
}

/// `APPENDS`: appends what was pushed since the mark to the list below the mark.
pub open spec fn load_appends_spec(m: UnpicklerModel) -> Result<UnpicklerModel, ErrorModel> {
    match pop_mark_spec(m) {
        Err(e) => Err(e),
        Ok((items, m1)) => match last_spec(m1) {
            Err(e) => Err(e),
            Ok(ValueModel::List(l)) => Ok(
                UnpicklerModel {
                    heap: HeapModel {
                        lists: m1.heap.lists.update(
                            l as int,
                            m1.heap.lists[l as int] + m1.heap.lists[items as int],
                        ),
                        ..m1.heap
                    },
                    ..m1
                },
            ),
            Ok(x) => Err(ErrorModel::CantExtend(kind_of(x))),
        },
    }
}

/// `EMPTY_DICT`: pushes a new empty dict.
pub open spec fn load_empty_dict_spec(m: UnpicklerModel) -> UnpicklerModel {
    push_spec(add_dict(m, empty_dict()), ValueModel::Dict(m.heap.dicts.len() as usize))
}

/// `EMPTY_LIST`: pushes a new empty list.
pub open spec fn load_empty_list_spec(m: UnpicklerModel) -> UnpicklerModel {
    push_spec(add_list(m), ValueModel::List(m.heap.lists.len() as usize))
}

/// `EMPTY_SET`: pushes a new empty set.
pub open spec fn load_empty_set_spec(m: UnpicklerModel) -> UnpicklerModel {
    push_spec(add_set(m, empty_set()), ValueModel::PySet(m.heap.sets.len() as usize))
}

/// Pushes a new tuple holding `items`.
pub open spec fn push_tuple(m: UnpicklerModel, items: Seq<ValueModel>) -> UnpicklerModel {
    push_spec(add_tuple(m, items), ValueModel::Tuple(m.heap.tuples.len() as usize))
}

/// `EMPTY_TUPLE`: pushes a new empty tuple.
pub open spec fn load_empty_tuple_spec(m: UnpicklerModel) -> UnpicklerModel {
    push_tuple(m, Seq::empty())
}

/// `TUPLE`: replaces what was pushed since the mark by a tuple of it.
pub open spec fn load_tuple_spec(m: UnpicklerModel) -> Result<UnpicklerModel, ErrorModel> {
    match pop_mark_spec(m) {
        Err(e) => Err(e),
        Ok((items, m1)) => Ok(push_tuple(m1, m1.heap.lists[items as int])),
    }
}

/// `TUPLE1`: replaces the top of the stack by a tuple of it.
pub open spec fn load_tuple1_spec(m: UnpicklerModel) -> Result<UnpicklerModel, ErrorModel> {
    match pop_spec(m) {
        Err(e) => Err(e),
        Ok((v1, m1)) => Ok(push_tuple(m1, seq![v1])),
    }
}

/// `TUPLE2`: replaces the two top values of the stack by a tuple of them.
pub open spec fn load_tuple2_spec(m: UnpicklerModel) -> Result<UnpicklerModel, ErrorModel> {
    match pop_spec(m) {
        Err(e) => Err(e),
        Ok((v2, m1)) => match pop_spec(m1) {
            Err(e) => Err(e),
            Ok((v1, m2)) => Ok(push_tuple(m2, seq![v1, v2])),
        },
    }
}

/// `TUPLE3`: replaces the three top values of the stack by a tuple of them.
pub open spec fn load_tuple3_spec(m: UnpicklerModel) -> Result<UnpicklerModel, ErrorModel> {
    match pop_spec(m) {
        Err(e) => Err(e),
        Ok((v3, m1)) => match pop_spec(m1) {
            Err(e) => Err(e),
            Ok((v2, m2)) => match pop_spec(m2) {
                Err(e) => Err(e),
                Ok((v1, m3)) => Ok(push_tuple(m3, seq![v1, v2, v3])),
            },
        },
    }
}

/// Sets entry `k` of dict `d` of the heap to `v`.
pub open spec fn heap_dict_insert(h: HeapModel, d: usize, k: ValueModel, v: ValueModel) -> HeapModel {
    HeapModel { dicts: h.dicts.update(d as int, dict_insert(h.tuples, h.dicts[d as int], k, v)), ..h }
}

/// `SETITEM`: pops a value and a key and sets that entry of the dict below them.
pub open spec fn load_setitem_spec(m: UnpicklerModel) -> Result<UnpicklerModel, ErrorModel> {
    match pop_spec(m) {
        Err(e) => Err(e),
        Ok((v, m1)) => match pop_spec(m1) {
            Err(e) => Err(e),
            Ok((k, m2)) => match last_spec(m2) {
                Err(e) => Err(e),
                Ok(ValueModel::Dict(d)) => if hashable(m2.heap.tuples, k) {
                    Ok(UnpicklerModel { heap: heap_dict_insert(m2.heap, d, k, v), ..m2 })
                } else {
                    Err(ErrorModel::Unhashable(kind_of(k)))
                },
                Ok(x) => Err(ErrorModel::WrongKind { wanted: Kind::Dict, got: kind_of(x) }),
            },
        },
    }
}

/// Sets the entries of dict `d` from the first `n` pairs of `items` (key, then
/// value), in order; stops at the first key that cannot be hashed.
pub open spec fn insert_pairs(
    tuples: Seq<Seq<ValueModel>>,
    d: DictModel,
    items: Seq<ValueModel>,
    n: nat,
) -> Result<DictModel, ErrorModel>
    decreases n,
{
    if n == 0 {
        Ok(d)
    } else {
        match insert_pairs(tuples, d, items, (n - 1) as nat) {
            Err(e) => Err(e),
            Ok(d1) => {
                let k = items[2 * (n - 1)];
                if hashable(tuples, k) {
                    Ok(dict_insert(tuples, d1, k, items[2 * (n - 1) + 1]))
                } else {
                    Err(ErrorModel::Unhashable(kind_of(k)))
                }
            },
        }
    }
}

/// `SETITEMS`: sets entries of the dict below the mark from the key and value pairs
/// pushed since the mark (a key left without a value is dropped).
pub open spec fn load_setitems_spec(m: UnpicklerModel) -> Result<UnpicklerModel, ErrorModel> {
    match pop_mark_spec(m) {
        Err(e) => Err(e),
        Ok((items, m1)) => match last_spec(m1) {
            Err(e) => Err(e),
            Ok(ValueModel::Dict(d)) => {
                let s = m1.heap.lists[items as int];
                match insert_pairs(m1.heap.tuples, m1.heap.dicts[d as int], s, s.len() / 2) {
                    Ok(d1) => Ok(
                        UnpicklerModel {
                            heap: HeapModel { dicts: m1.heap.dicts.update(d as int, d1), ..m1.heap },
                            ..m1
                        },
                    ),
                    Err(e) => Err(e),
                }
            },
            Ok(x) => Err(ErrorModel::WrongKind { wanted: Kind::Dict, got: kind_of(x) }),
        },
    }
}

/// Adds the first `n` of `items` to set `s`, in order; stops at the first item that
/// cannot be hashed.
pub open spec fn add_items(
    tuples: Seq<Seq<ValueModel>>,
    s: SetModel,
    items: Seq<ValueModel>,
    n: nat,
) -> Result<SetModel, ErrorModel>
    decreases n,
{
    if n == 0 {
        Ok(s)
    } else {
        match add_items(tuples, s, items, (n - 1) as nat) {
            Err(e) => Err(e),
            Ok(s1) => {
                let k = items[n - 1];
                if hashable(tuples, k) {
                    Ok(set_insert(tuples, s1, k))
                } else {
                    Err(ErrorModel::Unhashable(kind_of(k)))
                }
            },
        }
    }
}

/// `ADDITEMS`: adds what was pushed since the mark to the set below the mark.
pub open spec fn load_additems_spec(m: UnpicklerModel) -> Result<UnpicklerModel, ErrorModel> {
    match pop_mark_spec(m) {
        Err(e) => Err(e),
        Ok((items, m1)) => match last_spec(m1) {
            Err(e) => Err(e),
            Ok(ValueModel::PySet(s)) => {
                let xs = m1.heap.lists[items as int];
                match add_items(m1.heap.tuples, m1.heap.sets[s as int], xs, xs.len()) {
                    Ok(s1) => Ok(
                        UnpicklerModel {
                            heap: HeapModel { sets: m1.heap.sets.update(s as int, s1), ..m1.heap },
                            ..m1
                        },
                    ),
                    Err(e) => Err(e),
                }
            },
            Ok(x) => Err(ErrorModel::WrongKind { wanted: Kind::PySet, got: kind_of(x) }),
        },
    }
}

/// The memo key for `n`, as a value.
pub open spec fn memo_key(n: int) -> ValueModel {
    int_value(n)
}

/// `BINGET` and `LONG_BINGET`: pushes the memo entry for key `key`.
pub open spec fn push_memo(m: UnpicklerModel, key: int) -> Result<UnpicklerModel, ErrorModel> {
    match dict_get(m.heap.tuples, m.heap.dicts[m.memo as int], memo_key(key)) {
        Some(v) => Ok(push_spec(m, v)),
        None => Err(ErrorModel::MemoNotFound),
    }
}

/// `BINGET`: a one-byte memo key.
pub open spec fn load_binget_spec(m: UnpicklerModel) -> Result<UnpicklerModel, ErrorModel> {
    match read_bytes(m, 1) {
        Ok((b, m1)) => push_memo(m1, b[0] as int),
        Err(e) => Err(e),
    }
}

/// `LONG_BINGET`: a four-byte memo key.
pub open spec fn load_long_binget_spec(m: UnpicklerModel) -> Result<UnpicklerModel, ErrorModel> {
    match read_bytes(m, 4) {
        Ok((b, m1)) => push_memo(m1, unsigned_le_value(b) as int),
        Err(e) => Err(e),
    }
}

/// `MEMOIZE`: stores the top of the stack in the memo, under the number of entries
/// the memo holds.
pub open spec fn load_memoize_spec(m: UnpicklerModel) -> Result<UnpicklerModel, ErrorModel> {
    let key = memo_key(capped_len(dict_len(m.heap.dicts[m.memo as int])) as int);
    match last_spec(m) {
        Err(e) => Err(e),
        Ok(v) => Ok(UnpicklerModel { heap: heap_dict_insert(m.heap, m.memo, key, v), ..m }),
    }
}

/// `PROTO`: the protocol of the pickle, which must be one this reader knows.
pub open spec fn load_proto_spec(m: UnpicklerModel) -> Result<UnpicklerModel, ErrorModel> {
    match read_bytes(m, 1) {
        Ok((b, m1)) => if b[0] > op::HIGHEST_PROTOCOL {
            Err(ErrorModel::UnsupportedProtocol(b[0]))
        } else {
            Ok(UnpicklerModel { proto: b[0], ..m1 })
        },
        Err(e) => Err(e),
    }
}

/// `FRAME`: an eight-byte frame size, then a frame of that many bytes starts.
pub open spec fn load_frame_op_spec(m: UnpicklerModel) -> Result<UnpicklerModel, ErrorModel> {
    match read_bytes(m, 8) {
        Ok((b, m1)) => match load_frame_spec(m1.input, unsigned_le_value(b) as u64) {
            Ok(next) => Ok(UnpicklerModel { input: next, ..m1 }),
            Err(e) => Err(e@),
        },
        Err(e) => Err(e),
    }
}

/// The dict a `NetworkSlot` is built as: its class name, then its four fields.
pub open spec fn network_slot_dict(tuples: Seq<Seq<ValueModel>>, items: Seq<ValueModel>) -> DictModel {
    let d1 = dict_insert(tuples, empty_dict(), ValueModel::Str("__class"@), ValueModel::Str("NetworkSlot"@));
    let d2 = dict_insert(tuples, d1, ValueModel::Str("name"@), items[0]);
    let d3 = dict_insert(tuples, d2, ValueModel::Str("game"@), items[1]);
    let d4 = dict_insert(tuples, d3, ValueModel::Str("type"@), items[2]);
    dict_insert(tuples, d4, ValueModel::Str("group_members"@), items[3])
}

/// The default of field `i` of a `Hint`: `None` for the first five, then the empty
/// string, then 0 twice (the last is the status "unspecified").
pub open spec fn hint_default(i: int) -> ValueModel {
    if i < 5 {
        ValueModel::PyNone
    } else if i == 5 {
        ValueModel::Str(Seq::empty())
    } else {
        int_value(0)
    }
}

/// The eight fields of a `Hint` built from `items`: the items given, then defaults.
pub open spec fn hint_fields(items: Seq<ValueModel>) -> Seq<ValueModel> {
    Seq::new(8, |i: int| if i < items.len() { items[i] } else { hint_default(i) })
}

/// What calling `class` with `args` gives, and the heap after.
pub open spec fn call_spec(h: HeapModel, class: Class, args: ValueModel) -> Result<
    (ValueModel, HeapModel),
    ErrorModel,
> {
    match args {
        ValueModel::Tuple(t) => {
            let items = h.tuples[t as int];
            match class {
                Class::NetworkSlot => if items.len() != 4 {
                    Err(ErrorModel::WrongArity { arity: 4, given: items.len() as usize })
                } else if !(items[0] is Str) {
                    Err(ErrorModel::WrongKind { wanted: Kind::Str, got: kind_of(items[0]) })
                } else if !(items[1] is Str) {
                    Err(ErrorModel::WrongKind { wanted: Kind::Str, got: kind_of(items[1]) })
                } else if !(items[2] is Number) {
                    Err(ErrorModel::WrongKind { wanted: Kind::Number, got: kind_of(items[2]) })
                } else {
                    Ok(
                        (
                            ValueModel::Dict(h.dicts.len() as usize),
                            HeapModel { dicts: h.dicts.push(network_slot_dict(h.tuples, items)), ..h },
                        ),
                    )
                },
                Class::SlotType => if items.len() != 1 {
                    Err(ErrorModel::WrongArity { arity: 1, given: items.len() as usize })
                } else if !(items[0] is Number) {
                    Err(ErrorModel::WrongKind { wanted: Kind::Number, got: kind_of(items[0]) })
                } else {
                    Ok((items[0], h))
                },
                Class::Hint => Ok(
                    (
                        ValueModel::Tuple(h.tuples.len() as usize),
                        HeapModel { tuples: h.tuples.push(hint_fields(items)), ..h },
                    ),
                ),
            }
        },
        _ => Err(ErrorModel::WrongKind { wanted: Kind::Tuple, got: kind_of(args) }),
    }
}

/// `REDUCE` and `NEWOBJ`: pops the arguments and the class, and pushes what the call
/// gives.
pub open spec fn load_reduce_spec(m: UnpicklerModel) -> Result<UnpicklerModel, ErrorModel> {
    match pop_spec(m) {
        Err(e) => Err(e),
        Ok((args, m1)) => match pop_spec(m1) {
            Err(e) => Err(e),
            Ok((ValueModel::Callable(c), m2)) => match call_spec(m2.heap, c, args) {
                Ok((v, h)) => Ok(push_spec(UnpicklerModel { heap: h, ..m2 }, v)),
                Err(e) => Err(e),
            },
            Ok((x, _)) => Err(ErrorModel::WrongKind { wanted: Kind::Callable, got: kind_of(x) }),
        },
    }
}

/// The classes that a pickle can name: those of Archipelago's `NetUtils` that this
/// reader builds.
pub open spec fn find_class_spec(module: Seq<char>, name: Seq<char>) -> Result<Class, ErrorModel> {
    if module == "NetUtils"@ && name == "NetworkSlot"@ {
        Ok(Class::NetworkSlot)
    } else if module == "NetUtils"@ && name == "SlotType"@ {
        Ok(Class::SlotType)
    } else if module == "NetUtils"@ && name == "Hint"@ {
        Ok(Class::Hint)
    } else {
        Err(ErrorModel::ClassNotFound { module, name })
    }
}

/// `STACK_GLOBAL`: pops a name and a module, both strings, and pushes the class.
pub open spec fn load_stack_global_spec(m: UnpicklerModel) -> Result<UnpicklerModel, ErrorModel> {
    match pop_spec(m) {
        Err(e) => Err(e),
        Ok((ValueModel::Str(name), m1)) => match pop_spec(m1) {
            Err(e) => Err(e),
            Ok((ValueModel::Str(module), m2)) => match find_class_spec(module, name) {
                Ok(c) => Ok(push_spec(m2, ValueModel::Callable(c))),
                Err(e) => Err(e),
            },
            Ok((x, _)) => Err(ErrorModel::WrongKind { wanted: Kind::Str, got: kind_of(x) }),
        },
        Ok((x, _)) => Err(ErrorModel::WrongKind { wanted: Kind::Str, got: kind_of(x) }),
    }
}

/// The op codes of the format that this reader does not handle.
pub open spec fn unhandled_op(b: u8) -> bool {
    b == op::POP || b == op::POP_MARK || b == op::DUP || b == op::FLOAT || b == op::INT || b
        == op::LONG || b == op::PERSID || b == op::BINPERSID || b == op::STRING || b
        == op::BINSTRING || b == op::SHORT_BINSTRING || b == op::UNICODE || b == op::BUILD || b
        == op::GLOBAL || b == op::DICT || b == op::GET || b == op::INST || b == op::LIST || b
        == op::OBJ || b == op::PUT || b == op::BINPUT || b == op::LONG_BINPUT
        || b == op::EXT1 || b == op::EXT2 || b == op::EXT4 || b == op::LONG4 || b == op::BINBYTES
        || b == op::SHORT_BINBYTES || b == op::BINUNICODE8 || b == op::BINBYTES8 || b
        == op::FROZENSET || b == op::NEWOBJ_EX || b == op::BYTEARRAY8 || b == op::NEXT_BUFFER || b
        == op::READONLY_BUFFER
}

/// The op codes that this reader handles.
pub open spec fn handled_op(b: u8) -> bool {
    b == op::MARK || b == op::STOP || b == op::BININT || b == op::BININT1 || b == op::BININT2
        || b == op::NONE || b == op::REDUCE || b == op::NEWOBJ || b == op::BINUNICODE || b
        == op::APPEND || b == op::EMPTY_DICT || b == op::APPENDS || b == op::BINGET || b
        == op::LONG_BINGET || b == op::EMPTY_LIST || b == op::SETITEM || b == op::TUPLE || b
        == op::EMPTY_TUPLE || b == op::SETITEMS || b == op::PROTO || b == op::TUPLE1 || b
        == op::TUPLE2 || b == op::TUPLE3 || b == op::NEWTRUE || b == op::NEWFALSE || b
        == op::LONG1 || b == op::SHORT_BINUNICODE || b == op::EMPTY_SET || b == op::ADDITEMS
        || b == op::STACK_GLOBAL || b == op::MEMOIZE || b == op::FRAME || b == op::BINFLOAT
}

/// What op `b` does to the state.
pub open spec fn step_spec(m: UnpicklerModel, b: u8) -> Result<UnpicklerModel, ErrorModel> {
    if b == op::MARK {
        Ok(load_mark_spec(m))
    } else if b == op::STOP {
        load_stop_spec(m)
    } else if b == op::BININT {
        load_binint_spec(m)
    } else if b == op::BININT1 {
        load_binint1_spec(m)
    } else if b == op::BININT2 {
        load_binint2_spec(m)
    } else if b == op::NONE {
        Ok(push_spec(m, ValueModel::PyNone))
    } else if b == op::REDUCE || b == op::NEWOBJ {
        load_reduce_spec(m)
    } else if b == op::BINUNICODE {
        load_binunicode_spec(m)
    } else if b == op::APPEND {
        load_append_spec(m)
    } else if b == op::EMPTY_DICT {
        Ok(load_empty_dict_spec(m))
    } else if b == op::APPENDS {
        load_appends_spec(m)
    } else if b == op::BINGET {
        load_binget_spec(m)
    } else if b == op::LONG_BINGET {
        load_long_binget_spec(m)
    } else if b == op::EMPTY_LIST {
        Ok(load_empty_list_spec(m))
    } else if b == op::SETITEM {
        load_setitem_spec(m)
    } else if b == op::TUPLE {
        load_tuple_spec(m)
    } else if b == op::EMPTY_TUPLE {
        Ok(load_empty_tuple_spec(m))
    } else if b == op::SETITEMS {
        load_setitems_spec(m)
    } else if b == op::PROTO {
        load_proto_spec(m)
    } else if b == op::TUPLE1 {
        load_tuple1_spec(m)
    } else if b == op::TUPLE2 {
        load_tuple2_spec(m)
    } else if b == op::TUPLE3 {
        load_tuple3_spec(m)
    } else if b == op::NEWTRUE {
        Ok(push_spec(m, ValueModel::Bool(true)))
    } else if b == op::NEWFALSE {
        Ok(push_spec(m, ValueModel::Bool(false)))
    } else if b == op::LONG1 {
        load_long1_spec(m)
    } else if b == op::SHORT_BINUNICODE {
        load_short_binunicode_spec(m)
    } else if b == op::EMPTY_SET {
        Ok(load_empty_set_spec(m))
    } else if b == op::ADDITEMS {
        load_additems_spec(m)
    } else if b == op::STACK_GLOBAL {
        load_stack_global_spec(m)
    } else if b == op::MEMOIZE {
        load_memoize_spec(m)
    } else if b == op::FRAME {
        load_frame_op_spec(m)
    } else if b == op::BINFLOAT {
        load_binfloat_spec(m)
    } else if unhandled_op(b) {
        Err(ErrorModel::UnhandledOp(b))
    } else {
        Err(ErrorModel::UnknownOp(b))
    }
}

/// A read takes exactly the bytes it gives from the input.
pub proof fn lemma_read_bytes_remaining(m: UnpicklerModel, n: nat)
    ensures
        read_bytes(m, n) is Ok ==> remaining(read_bytes(m, n)->Ok_0.1.input) + n == remaining(
            m.input,
        ) && read_bytes(m, n)->Ok_0.0.len() == n,
{
}

/// Starting a frame moves bytes from the stream into the frame, and takes none.
pub proof fn lemma_load_frame_remaining(u: UnframerModel, size: u64)
    ensures
        load_frame_spec(u, size) is Ok ==> remaining(load_frame_spec(u, size)->Ok_0) == remaining(u),
{
}

/// No op adds input.
pub proof fn lemma_step_remaining(m: UnpicklerModel, b: u8)
    ensures
        step_spec(m, b) is Ok ==> remaining(step_spec(m, b)->Ok_0.input) <= remaining(m.input),
{
    assert forall|x: UnpicklerModel, n: nat| #![trigger read_bytes(x, n)]
        read_bytes(x, n) is Ok implies remaining(read_bytes(x, n)->Ok_0.1.input) + n == remaining(
            x.input,
        ) by {
        lemma_read_bytes_remaining(x, n);
    }
    assert forall|u: UnframerModel, size: u64| #![trigger load_frame_spec(u, size)]
        load_frame_spec(u, size) is Ok implies remaining(load_frame_spec(u, size)->Ok_0)
        == remaining(u) by {
        lemma_load_frame_remaining(u, size);
    }
}

/// Reading a pickle from state `m`: read an op and do it, until `STOP` has given a
/// result; the state at that point, or the first error.
pub open spec fn run_spec(m: UnpicklerModel) -> Result<UnpicklerModel, ErrorModel>
    decreases remaining(m.input),
{
    match read_bytes(m, 1) {
        Err(e) => Err(e),
        Ok((b, m1)) => {
            proof {
                lemma_read_bytes_remaining(m, 1);
                lemma_step_remaining(m1, b[0]);
            }
            match step_spec(m1, b[0]) {
                Err(e) => Err(e),
                Ok(m2) => if m2.result is Some {
                    Ok(m2)
                } else {
                    run_spec(m2)
                },
            }
        },
    }
}

/// The state of a reader before the first op: the whole pickle to read, an empty
/// stack (list 0) and an empty memo (dict 0).
pub open spec fn initial_model(data: Seq<u8>) -> UnpicklerModel {
    UnpicklerModel {
        input: UnframerModel { data, frame: None },
        proto: 0,
        stack: 0,
        meta: Seq::empty(),
        memo: 0,
        result: None,
        heap: HeapModel {
            lists: seq![Seq::empty()],
            dicts: seq![empty_dict()],
            sets: Seq::empty(),
            tuples: Seq::empty(),
        },
    }
}

/// What reading the pickle `data` gives: the final state, whose result is the
/// value read, or the first error.
pub open spec fn unpickle_spec(data: Seq<u8>) -> Result<UnpicklerModel, ErrorModel> {
    run_spec(initial_model(data))
}

} // verus!
