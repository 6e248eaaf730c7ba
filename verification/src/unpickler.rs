//! The pickle reader: a stack machine that reads one op at a time and builds the
//! values in a heap. Each op is proved to do what [`crate::machine`] says, and
//! reading a whole pickle to give what [`crate::machine::unpickle_spec`] says.

use vstd::prelude::*;

use crate::bigint::{signed_le_value, unsigned_le_value};
use crate::classes::find_class;
use crate::error::{Error, ErrorModel, Kind};
use crate::heap::{all_valid, valid, values_model, Heap};
use crate::machine::{
    empty_dict, empty_set, initial_model, last_spec, load_additems_spec, load_append_spec,
    load_appends_spec, load_binget_spec, load_binint1_spec, load_binint2_spec, load_binint_spec,
    load_binfloat_spec, load_binunicode_spec, load_empty_dict_spec, load_empty_list_spec, load_empty_set_spec,
    load_empty_tuple_spec, load_frame_op_spec, load_long1_spec, load_long_binget_spec,
    load_mark_spec, load_memoize_spec, load_proto_spec, load_reduce_spec, load_setitem_spec,
    load_setitems_spec, load_short_binunicode_spec, load_stack_global_spec, load_stop_spec,
    load_tuple1_spec, push_read_text, push_memo, lemma_read_bytes_remaining, lemma_step_remaining, insert_pairs, add_items, load_tuple2_spec, load_tuple3_spec, load_tuple_spec, model_wf, pop_mark_spec,
    pop_spec, push_spec, read_bytes, remaining, run_spec, stack_items, step_spec, unhandled_op,
    unpickle_spec, UnpicklerModel, handled_op,
};
use crate::number::Number;
use crate::number_cache::NumberCache;
use crate::op;
use crate::unframer::{after_failed_read, read_exact_spec, Unframer, UnframerModel};
use crate::value::{Dict, List, PySet, Str, Tuple, Value, ValueModel};

verus! {

/// `std::str::from_utf8`: the text that `bytes` hold, when they are valid UTF-8;
/// the text's UTF-8 encoding is then `bytes`.
#[verifier::external_body]
fn text_from_utf8(bytes: &[u8]) -> (r: Option<&str>)
    ensures
        r is Some <==> vstd::utf8::valid_utf8(bytes@),
        r matches Some(s) ==> vstd::utf8::encode_utf8(s@) == bytes@,
{
    std::str::from_utf8(bytes).ok()
}

/// The result of an op as the model gives it: on success the state the model
/// gives; on failure its error, with the protocol, the result and the memo's handle
/// as they were `before`.
pub open spec fn op_done(
    r: Result<(), Error>,
    s: Result<UnpicklerModel, ErrorModel>,
    before: UnpicklerModel,
    after: UnpicklerModel,
) -> bool {
    match s {
        Ok(m) => r is Ok && after == m,
        Err(e) => r matches Err(x) && x@ == e && kept_on_failure(before, after),
    }
}

/// What no failing op changes: the protocol, the result, and which dict is the memo.
pub open spec fn kept_on_failure(before: UnpicklerModel, after: UnpicklerModel) -> bool {
    &&& after.proto == before.proto
    &&& after.result == before.result
    &&& after.memo == before.memo
}

/// A pickle reader.
pub struct Unpickler<'a> {
    unframer: Unframer<'a>,
    proto: u8,
    stack: List,
    meta_stack: Vec<List>,
    memo: Dict,
    number_cache: NumberCache,
    result: Option<Value>,
    heap: Heap,
}

impl<'a> View for Unpickler<'a> {
    type V = UnpicklerModel;

    closed spec fn view(&self) -> UnpicklerModel {
        UnpicklerModel {
            input: self.unframer@,
            proto: self.proto,
            stack: self.stack.0,
            meta: self.meta_stack@.map_values(|l: List| l.0),
            memo: self.memo.0,
            result: match self.result {
                Some(v) => Some(v@),
                None => None,
            },
            heap: self.heap@,
        }
    }
}

impl<'a> Unpickler<'a> {
    /// The state is one the model allows, and the number cache holds true numbers.
    pub closed spec fn wf(&self) -> bool {
        model_wf(self@) && self.number_cache.wf()
    }

    /// A reader of `data`, with an empty stack and memo.
    pub fn new(data: &'a [u8]) -> (r: Unpickler<'a>)
        ensures
            r.wf(),
            r@ == initial_model(data@),
    {
        let mut heap = Heap::new();
        let stack = List::new(&mut heap);
        let memo = Dict::new(&mut heap);
        let r = Unpickler {
            unframer: Unframer::new(data),
            proto: 0,
            stack,
            meta_stack: Vec::new(),
            memo,
            number_cache: NumberCache::new(),
            result: None,
            heap,
        };
        proof {
            assert(r@.meta =~= Seq::<usize>::empty());
            assert(r@.heap.lists =~= seq![Seq::<ValueModel>::empty()]);
            assert(r@.heap.dicts =~= seq![empty_dict()]);
            assert(r@.heap.sets =~= Seq::<crate::heap::SetModel>::empty());
            assert(r@.heap.tuples =~= Seq::<Seq<ValueModel>>::empty());
        }
        r
    }

    /// The protocol the pickle declared with `PROTO`, or 0 before it does.
    pub fn proto(&self) -> (r: u8)
        ensures
            r == self@.proto,
    {
        self.proto
    }

    fn read_exact(&mut self, len: usize) -> (r: Result<&'a [u8], Error>)
        requires
            old(self).wf(),
        ensures
            final(self).wf(),
            match read_bytes(old(self)@, len as nat) {
                Ok((b, m)) => r matches Ok(x) && x@ == b && final(self)@ == m,
                Err(e) => r matches Err(x) && x@ == e && final(self)@ == (UnpicklerModel {
                    input: after_failed_read(old(self)@.input),
                    ..old(self)@
                }),
            },
    {
        self.unframer.read_exact(len)
    }

    fn read_byte(&mut self) -> (r: Result<u8, Error>)
        requires
            old(self).wf(),
        ensures
            final(self).wf(),
            match read_bytes(old(self)@, 1) {
                Ok((b, m)) => r matches Ok(x) && x == b[0] && x == unsigned_le_value(b)
                    && final(self)@ == m,
                Err(e) => r matches Err(x) && x@ == e && final(self)@ == (UnpicklerModel {
                    input: after_failed_read(old(self)@.input),
                    ..old(self)@
                }),
            },
    {
        let r = self.unframer.read_byte();
        proof {
            if let Ok((b, _)) = read_exact_spec(old(self)@.input, 1) {
                assert(b.len() == 1);
                assert(b.drop_first().len() == 0);
                assert(unsigned_le_value(b.drop_first()) == 0);
                assert(unsigned_le_value(b) == b[0]);
            }
        }
        r
    }

    fn read_u16(&mut self) -> (r: Result<u16, Error>)
        requires
            old(self).wf(),
        ensures
            final(self).wf(),
            match read_bytes(old(self)@, 2) {
                Ok((b, m)) => r matches Ok(x) && x == unsigned_le_value(b) && final(self)@ == m,
                Err(e) => r matches Err(x) && x@ == e && final(self)@ == (UnpicklerModel {
                    input: after_failed_read(old(self)@.input),
                    ..old(self)@
                }),
            },
    {
        self.unframer.read_u16()
    }

    fn read_u32(&mut self) -> (r: Result<u32, Error>)
        requires
            old(self).wf(),
        ensures
            final(self).wf(),
            match read_bytes(old(self)@, 4) {
                Ok((b, m)) => r matches Ok(x) && x == unsigned_le_value(b) && final(self)@ == m,
                Err(e) => r matches Err(x) && x@ == e && final(self)@ == (UnpicklerModel {
                    input: after_failed_read(old(self)@.input),
                    ..old(self)@
                }),
            },
    {
        self.unframer.read_u32()
    }

    fn read_i32(&mut self) -> (r: Result<i32, Error>)
        requires
            old(self).wf(),
        ensures
            final(self).wf(),
            match read_bytes(old(self)@, 4) {
                Ok((b, m)) => r matches Ok(x) && x == signed_le_value(b) && final(self)@ == m,
                Err(e) => r matches Err(x) && x@ == e && final(self)@ == (UnpicklerModel {
                    input: after_failed_read(old(self)@.input),
                    ..old(self)@
                }),
            },
    {
        self.unframer.read_i32()
    }

    fn read_u64(&mut self) -> (r: Result<u64, Error>)
        requires
            old(self).wf(),
        ensures
            final(self).wf(),
            match read_bytes(old(self)@, 8) {
                Ok((b, m)) => r matches Ok(x) && x == unsigned_le_value(b) && final(self)@ == m,
                Err(e) => r matches Err(x) && x@ == e && final(self)@ == (UnpicklerModel {
                    input: after_failed_read(old(self)@.input),
                    ..old(self)@
                }),
            },
    {
        self.unframer.read_u64()
    }

    /// Pushes `value` on the stack.
    pub fn push(&mut self, value: Value)
        requires
            old(self).wf(),
            valid(old(self)@.heap, value@),
        ensures
            final(self).wf(),
            final(self)@ == push_spec(old(self)@, value@),
    {
        self.stack.push(&mut self.heap, value);
        proof {
            assert(final(self)@.meta == old(self)@.meta);
        }
    }

    /// Takes the top of the stack off.
    pub fn pop(&mut self) -> (r: Option<Value>)
        requires
            old(self).wf(),
        ensures
            final(self).wf(),
            match pop_spec(old(self)@) {
                Ok((v, m)) => r matches Some(x) && x@ == v && final(self)@ == m && valid(m.heap, v),
                Err(_) => r is None && final(self)@ == old(self)@,
            },
    {
        proof {
            assert(all_valid(self@.heap, stack_items(self@)));
        }
        let r = self.stack.pop(&mut self.heap);
        proof {
            if stack_items(old(self)@).len() == 0 {
                assert(final(self)@.heap == old(self)@.heap);
            } else {
                assert(valid(old(self)@.heap, stack_items(old(self)@).last()));
            }
        }
        r
    }

    /// Takes the top of the stack off; an empty stack is an error.
    fn pop_value(&mut self) -> (r: Result<Value, Error>)
        requires
            old(self).wf(),
        ensures
            final(self).wf(),
            match pop_spec(old(self)@) {
                Ok((v, m)) => r matches Ok(x) && x@ == v && final(self)@ == m && valid(m.heap, v),
                Err(e) => r matches Err(x) && x@ == e && final(self)@ == old(self)@,
            },
    {
        match self.pop() {
            Some(v) => Ok(v),
            None => Err(Error::EmptyStack),
        }
    }

    /// Takes the stack saved by the last mark off the meta stack.
    pub fn pop_meta(&mut self) -> (r: Result<List, Error>)
        requires
            old(self).wf(),
        ensures
            final(self).wf(),
            old(self)@.meta.len() == 0 ==> (r matches Err(x) && x@ == ErrorModel::EmptyMetaStack)
                && final(self)@ == old(self)@,
            old(self)@.meta.len() > 0 ==> (r matches Ok(l) && l.0 == old(self)@.meta.last())
                && final(self)@ == (UnpicklerModel { meta: old(self)@.meta.drop_last(), ..old(self)@ }),
    {
        let r = self.meta_stack.pop();
        proof {
            assert(final(self)@.meta =~= old(self)@.meta.drop_last() || old(self)@.meta.len() == 0);
        }
        match r {
            Some(l) => Ok(l),
            None => Err(Error::EmptyMetaStack),
        }
    }

    /// Goes back to the stack saved by the last mark, and gives the stack left.
    pub fn pop_mark(&mut self) -> (r: Result<List, Error>)
        requires
            old(self).wf(),
        ensures
            final(self).wf(),
            match pop_mark_spec(old(self)@) {
                Ok((l, m)) => r matches Ok(x) && x.0 == l && final(self)@ == m && l < m.heap.lists.len(),
                Err(e) => r matches Err(x) && x@ == e && final(self)@ == old(self)@,
            },
    {
        let meta = self.pop_meta()?;
        proof {
            assert(old(self)@.meta[old(self)@.meta.len() - 1] < old(self)@.heap.lists.len());
        }
        let stack = self.stack;
        self.stack = meta;
        Ok(stack)
    }

    /// The top of the stack.
    pub fn last(&self) -> (r: Result<Value, Error>)
        requires
            self.wf(),
        ensures
            match last_spec(self@) {
                Ok(v) => r matches Ok(x) && x@ == v && valid(self@.heap, v),
                Err(e) => r matches Err(x) && x@ == e,
            },
    {
        proof {
            assert(all_valid(self@.heap, stack_items(self@)));
            if stack_items(self@).len() > 0 {
                assert(valid(self@.heap, stack_items(self@).last()));
            }
        }
        match self.stack.last(&self.heap) {
            Some(v) => Ok(v),
            None => Err(Error::EmptyStack),
        }
    }
}

impl<'a> Unpickler<'a> {
    /// `MARK`: saves the stack and starts a new empty one.
    pub fn load_mark(&mut self) -> (r: Result<(), Error>)
        requires
            old(self).wf(),
        ensures
            final(self).wf(),
            op_done(r, Ok(load_mark_spec(old(self)@)), old(self)@, final(self)@),
    {
        let stack = List::new(&mut self.heap);
        let old_stack = self.stack;
        self.stack = stack;
        self.meta_stack.push(old_stack);
        proof {
            assert(final(self)@.meta =~= old(self)@.meta.push(old(self)@.stack));
        }
        Ok(())
    }

    /// `STOP`: the top of the stack is the result.
    pub fn load_stop(&mut self) -> (r: Result<(), Error>)
        requires
            old(self).wf(),
        ensures
            final(self).wf(),
            op_done(r, load_stop_spec(old(self)@), old(self)@, final(self)@),
    {
        let value = self.pop_value()?;
        self.result = Some(value);
        Ok(())
    }

    /// `BININT`: a four-byte signed number.
    pub fn load_binint(&mut self) -> (r: Result<(), Error>)
        requires
            old(self).wf(),
        ensures
            final(self).wf(),
            op_done(r, load_binint_spec(old(self)@), old(self)@, final(self)@),
    {
        let value = self.read_i32()?;
        let value = self.number_cache.get_i32(value);
        self.push(value);
        Ok(())
    }

    /// `BININT1`: a one-byte unsigned number.
    pub fn load_binint1(&mut self) -> (r: Result<(), Error>)
        requires
            old(self).wf(),
        ensures
            final(self).wf(),
            op_done(r, load_binint1_spec(old(self)@), old(self)@, final(self)@),
    {
        let value = self.read_byte()?;
        let value = self.number_cache.get_u8(value);
        self.push(value);
        Ok(())
    }

    /// `BININT2`: a two-byte unsigned number.
    pub fn load_binint2(&mut self) -> (r: Result<(), Error>)
        requires
            old(self).wf(),
        ensures
            final(self).wf(),
            op_done(r, load_binint2_spec(old(self)@), old(self)@, final(self)@),
    {
        let value = self.read_u16()?;
        let value = self.number_cache.get_u16(value);
        self.push(value);
        Ok(())
    }

    /// `NONE`: pushes `None`.
    pub fn load_none(&mut self) -> (r: Result<(), Error>)
        requires
            old(self).wf(),
        ensures
            final(self).wf(),
            op_done(r, Ok(push_spec(old(self)@, ValueModel::PyNone)), old(self)@, final(self)@),
    {
        self.push(Value::none());
        Ok(())
    }

    /// `NEWTRUE`: pushes `True`.
    pub fn load_newtrue(&mut self) -> (r: Result<(), Error>)
        requires
            old(self).wf(),
        ensures
            final(self).wf(),
            op_done(r, Ok(push_spec(old(self)@, ValueModel::Bool(true))), old(self)@, final(self)@),
    {
        self.push(Value::True());
        Ok(())
    }

    /// `NEWFALSE`: pushes `False`.
    pub fn load_newfalse(&mut self) -> (r: Result<(), Error>)
        requires
            old(self).wf(),
        ensures
            final(self).wf(),
            op_done(r, Ok(push_spec(old(self)@, ValueModel::Bool(false))), old(self)@, final(self)@),
    {
        self.push(Value::False());
        Ok(())
    }

    /// `EMPTY_DICT`: pushes a new empty dict.
    pub fn load_empty_dict(&mut self) -> (r: Result<(), Error>)
        requires
            old(self).wf(),
        ensures
            final(self).wf(),
            op_done(r, Ok(load_empty_dict_spec(old(self)@)), old(self)@, final(self)@),
    {
        let dict = Dict::new(&mut self.heap);
        self.push(Value::Dict(dict));
        Ok(())
    }

    /// `EMPTY_LIST`: pushes a new empty list.
    pub fn load_empty_list(&mut self) -> (r: Result<(), Error>)
        requires
            old(self).wf(),
        ensures
            final(self).wf(),
            op_done(r, Ok(load_empty_list_spec(old(self)@)), old(self)@, final(self)@),
    {
        let list = List::new(&mut self.heap);
        self.push(Value::List(list));
        Ok(())
    }

    /// `EMPTY_SET`: pushes a new empty set.
    pub fn load_empty_set(&mut self) -> (r: Result<(), Error>)
        requires
            old(self).wf(),
        ensures
            final(self).wf(),
            op_done(r, Ok(load_empty_set_spec(old(self)@)), old(self)@, final(self)@),
    {
        let set = PySet::new(&mut self.heap);
        self.push(Value::PySet(set));
        Ok(())
    }

    /// `EMPTY_TUPLE`: pushes a new empty tuple.
    pub fn empty_tuple(&mut self) -> (r: Result<(), Error>)
        requires
            old(self).wf(),
        ensures
            final(self).wf(),
            op_done(r, Ok(load_empty_tuple_spec(old(self)@)), old(self)@, final(self)@),
    {
        let tuple = Tuple::empty(&mut self.heap);
        self.push(Value::Tuple(tuple));
        Ok(())
    }

    /// `BINFLOAT`: an eight-byte big-endian double; one that is an integer is pushed
    /// as that integer.
    pub fn load_binfloat(&mut self) -> (r: Result<(), Error>)
        requires
            old(self).wf(),
        ensures
            final(self).wf(),
            op_done(r, load_binfloat_spec(old(self)@), old(self)@, final(self)@),
    {
        let b = self.read_exact(8)?;
        let bits: u64 = ((b[0] as u64) << 56u64) | ((b[1] as u64) << 48u64) | ((b[2] as u64)
            << 40u64) | ((b[3] as u64) << 32u64) | ((b[4] as u64) << 24u64) | ((b[5] as u64)
            << 16u64) | ((b[6] as u64) << 8u64) | (b[7] as u64);
        let n = Number::from_f64_bits(bits);
        self.push(Value::Number(n));
        Ok(())
    }

    /// `PROTO`: the protocol, which must be one this reader knows.
    pub fn load_proto(&mut self) -> (r: Result<(), Error>)
        requires
            old(self).wf(),
        ensures
            final(self).wf(),
            op_done(r, load_proto_spec(old(self)@), old(self)@, final(self)@),
            r is Err ==> final(self)@ == (UnpicklerModel { input: final(self)@.input, ..old(self)@ }),
            r is Err ==> final(self)@.input == match read_bytes(old(self)@, 1) {
                Ok((_, m)) => m.input,
                Err(_) => after_failed_read(old(self)@.input),
            },
    {
        let proto = self.read_byte()?;
        if proto > op::HIGHEST_PROTOCOL {
            return Err(Error::UnsupportedProtocol(proto));
        }
        self.proto = proto;
        Ok(())
    }

    /// `LONG1`: a length byte, then that many bytes of a signed number.
    pub fn load_long1(&mut self) -> (r: Result<(), Error>)
        requires
            old(self).wf(),
        ensures
            final(self).wf(),
            op_done(r, load_long1_spec(old(self)@), old(self)@, final(self)@),
    {
        let len = self.read_byte()?;
        let bytes = self.read_exact(len as usize)?;
        let n = Number::from_signed_bytes_le(bytes);
        self.push(Value::Number(n));
        Ok(())
    }

    /// Reads `len` bytes of UTF-8 text and pushes the string.
    fn push_text(&mut self, len: usize) -> (r: Result<(), Error>)
        requires
            old(self).wf(),
        ensures
            final(self).wf(),
            op_done(r, push_read_text(old(self)@, len as nat), old(self)@, final(self)@),
    {
        let bytes = self.read_exact(len)?;
        match text_from_utf8(bytes) {
            Some(text) => {
                proof {
                    vstd::utf8::encode_utf8_decode_utf8(text@);
                }
                self.push(Value::str(text));
                Ok(())
            },
            None => Err(Error::InvalidUtf8),
        }
    }

    /// `BINUNICODE`: a four-byte length, then that many bytes of text.
    pub fn load_binunicode(&mut self) -> (r: Result<(), Error>)
        requires
            old(self).wf(),
        ensures
            final(self).wf(),
            op_done(r, load_binunicode_spec(old(self)@), old(self)@, final(self)@),
    {
        let len = self.read_u32()?;
        self.push_text(len as usize)
    }

    /// `SHORT_BINUNICODE`: a length byte, then that many bytes of text.
    pub fn load_short_binunicode(&mut self) -> (r: Result<(), Error>)
        requires
            old(self).wf(),
        ensures
            final(self).wf(),
            op_done(r, load_short_binunicode_spec(old(self)@), old(self)@, final(self)@),
    {
        let len = self.read_byte()?;
        self.push_text(len as usize)
    }

    /// `FRAME`: an eight-byte size, then a frame of that many bytes starts.
    pub fn load_frame(&mut self) -> (r: Result<(), Error>)
        requires
            old(self).wf(),
        ensures
            final(self).wf(),
            op_done(r, load_frame_op_spec(old(self)@), old(self)@, final(self)@),
    {
        let frame_size = self.read_u64()?;
        self.unframer.load_frame(frame_size)
    }
}

impl<'a> Unpickler<'a> {
    /// `REDUCE`: pops the arguments and the class, and pushes what the call gives.
    pub fn load_reduce(&mut self) -> (r: Result<(), Error>)
        requires
            old(self).wf(),
        ensures
            final(self).wf(),
            op_done(r, load_reduce_spec(old(self)@), old(self)@, final(self)@),
    {
        let args = self.pop_value()?;
        let callable = self.pop_value()?;
        let callable = callable.as_callable()?;
        let value = callable.call(&mut self.heap, &args)?;
        self.push(value);
        Ok(())
    }

    /// `NEWOBJ`: the same as `REDUCE` for the classes this reader knows.
    pub fn load_newobj(&mut self) -> (r: Result<(), Error>)
        requires
            old(self).wf(),
        ensures
            final(self).wf(),
            op_done(r, load_reduce_spec(old(self)@), old(self)@, final(self)@),
    {
        let args = self.pop_value()?;
        let class = self.pop_value()?;
        let class = class.as_callable()?;
        let value = class.call(&mut self.heap, &args)?;
        self.push(value);
        Ok(())
    }

    /// `APPEND`: pops a value and appends it to the list below it.
    pub fn load_append(&mut self) -> (r: Result<(), Error>)
        requires
            old(self).wf(),
        ensures
            final(self).wf(),
            op_done(r, load_append_spec(old(self)@), old(self)@, final(self)@),
    {
        let value = self.pop_value()?;
        let list = self.last()?;
        let list = list.as_list()?;
        list.push(&mut self.heap, value);
        Ok(())
    }

    /// `APPENDS`: appends what was pushed since the mark to the list below it.
    pub fn load_appends(&mut self) -> (r: Result<(), Error>)
        requires
            old(self).wf(),
        ensures
            final(self).wf(),
            op_done(r, load_appends_spec(old(self)@), old(self)@, final(self)@),
    {
        let items = self.pop_mark()?;
        let list_obj = self.last()?;
        list_obj.extend_with(&mut self.heap, &items)
    }

    /// Pushes the memo entry for `key`.
    fn push_memo_entry(&mut self, key: Value) -> (r: Result<(), Error>)
        requires
            old(self).wf(),
            key@ matches ValueModel::Number(crate::number::NumberModel::Int(_)),
        ensures
            final(self).wf(),
            op_done(r, push_memo(old(self)@, crate::heap::int_of(key@)), old(self)@, final(self)@),
            r is Err ==> final(self)@ == old(self)@,
    {
        match self.memo.get(&self.heap, &key) {
            Some(value) => {
                self.push(value);
                Ok(())
            },
            None => Err(Error::MemoNotFound),
        }
    }

    /// `BINGET`: pushes the memo entry for a one-byte key.
    pub fn load_binget(&mut self) -> (r: Result<(), Error>)
        requires
            old(self).wf(),
        ensures
            final(self).wf(),
            op_done(r, load_binget_spec(old(self)@), old(self)@, final(self)@),
            r is Err ==> final(self)@ == (UnpicklerModel { input: final(self)@.input, ..old(self)@ }),
            r is Err ==> final(self)@.input == match read_bytes(old(self)@, 1) {
                Ok((_, m)) => m.input,
                Err(_) => after_failed_read(old(self)@.input),
            },
    {
        let index = self.read_byte()?;
        let index = self.number_cache.get_u8(index);
        self.push_memo_entry(index)
    }

    /// `LONG_BINGET`: pushes the memo entry for a four-byte key.
    pub fn load_long_binget(&mut self) -> (r: Result<(), Error>)
        requires
            old(self).wf(),
        ensures
            final(self).wf(),
            op_done(r, load_long_binget_spec(old(self)@), old(self)@, final(self)@),
            r is Err ==> final(self)@ == (UnpicklerModel { input: final(self)@.input, ..old(self)@ }),
            r is Err ==> final(self)@.input == match read_bytes(old(self)@, 4) {
                Ok((_, m)) => m.input,
                Err(_) => after_failed_read(old(self)@.input),
            },
    {
        let index = self.read_u32()?;
        let index = self.number_cache.get_u32(index);
        self.push_memo_entry(index)
    }

    /// `SETITEM`: pops a value and a key and sets that entry of the dict below them.
    pub fn load_setitem(&mut self) -> (r: Result<(), Error>)
        requires
            old(self).wf(),
        ensures
            final(self).wf(),
            op_done(r, load_setitem_spec(old(self)@), old(self)@, final(self)@),
    {
        let value = self.pop_value()?;
        let key = self.pop_value()?;
        let dict = self.last()?;
        let dict = dict.as_dict()?;
        dict.insert(&mut self.heap, key, value)
    }

    /// `TUPLE`: replaces what was pushed since the mark by a tuple of it.
    pub fn load_tuple(&mut self) -> (r: Result<(), Error>)
        requires
            old(self).wf(),
        ensures
            final(self).wf(),
            op_done(r, load_tuple_spec(old(self)@), old(self)@, final(self)@),
    {
        let items = self.pop_mark()?;
        let tuple = Tuple::from_list(&mut self.heap, &items);
        self.push(Value::Tuple(tuple));
        Ok(())
    }

    /// Pushes a new tuple holding `items`.
    fn push_tuple_of(&mut self, items: Vec<Value>)
        requires
            old(self).wf(),
            all_valid(old(self)@.heap, values_model(items@)),
        ensures
            final(self).wf(),
            final(self)@ == crate::machine::push_tuple(old(self)@, values_model(items@)),
    {
        let tuple = Tuple::new(&mut self.heap, items);
        self.push(Value::Tuple(tuple));
    }

    /// `TUPLE1`: replaces the top of the stack by a tuple of it.
    pub fn load_tuple1(&mut self) -> (r: Result<(), Error>)
        requires
            old(self).wf(),
        ensures
            final(self).wf(),
            op_done(r, load_tuple1_spec(old(self)@), old(self)@, final(self)@),
    {
        let v1 = self.pop_value()?;
        let items = vec![v1];
        proof {
            assert(values_model(items@) =~= seq![items@[0]@]);
        }
        self.push_tuple_of(items);
        Ok(())
    }

    /// `TUPLE2`: replaces the two top values of the stack by a tuple of them.
    pub fn load_tuple2(&mut self) -> (r: Result<(), Error>)
        requires
            old(self).wf(),
        ensures
            final(self).wf(),
            op_done(r, load_tuple2_spec(old(self)@), old(self)@, final(self)@),
    {
        let v2 = self.pop_value()?;
        let v1 = self.pop_value()?;
        let items = vec![v1, v2];
        proof {
            assert(values_model(items@) =~= seq![items@[0]@, items@[1]@]);
        }
        self.push_tuple_of(items);
        Ok(())
    }

    /// `TUPLE3`: replaces the three top values of the stack by a tuple of them.
    pub fn load_tuple3(&mut self) -> (r: Result<(), Error>)
        requires
            old(self).wf(),
        ensures
            final(self).wf(),
            op_done(r, load_tuple3_spec(old(self)@), old(self)@, final(self)@),
    {
        let v3 = self.pop_value()?;
        let v2 = self.pop_value()?;
        let v1 = self.pop_value()?;
        let items = vec![v1, v2, v3];
        proof {
            assert(values_model(items@) =~= seq![items@[0]@, items@[1]@, items@[2]@]);
        }
        self.push_tuple_of(items);
        Ok(())
    }

    /// `STACK_GLOBAL`: pops a name and a module, both strings, and pushes the class.
    pub fn load_stack_global(&mut self) -> (r: Result<(), Error>)
        requires
            old(self).wf(),
        ensures
            final(self).wf(),
            op_done(r, load_stack_global_spec(old(self)@), old(self)@, final(self)@),
    {
        let name = self.pop_value()?;
        let name = name.as_str()?.clone();
        let module = self.pop_value()?;
        let module = module.as_str()?.clone();
        let value = find_class(&module, &name)?;
        self.push(value);
        Ok(())
    }

    /// `MEMOIZE`: stores the top of the stack in the memo, under the number of
    /// entries the memo holds.
    pub fn load_memoize(&mut self) -> (r: Result<(), Error>)
        requires
            old(self).wf(),
        ensures
            final(self).wf(),
            op_done(r, load_memoize_spec(old(self)@), old(self)@, final(self)@),
    {
        let key = self.memo.len(&self.heap);
        let key = self.number_cache.get_usize(key);
        let value = self.last()?;
        self.memo.insert(&mut self.heap, key, value)
    }
}

impl<'a> Unpickler<'a> {
    /// `SETITEMS`: sets entries of the dict below the mark from the key and value
    /// pairs pushed since the mark.
    pub fn load_setitems(&mut self) -> (r: Result<(), Error>)
        requires
            old(self).wf(),
        ensures
            final(self).wf(),
            op_done(r, load_setitems_spec(old(self)@), old(self)@, final(self)@),
    {
        let items = self.pop_mark()?;
        let dict = self.last()?;
        let dict = dict.as_dict()?;
        let values = items.items(&self.heap);
        proof {
            assert(all_valid(self@.heap, self@.heap.lists[items.0 as int]));
        }
        dict.insert_pairs(&mut self.heap, &values)
    }

    /// `ADDITEMS`: adds what was pushed since the mark to the set below the mark.
    pub fn load_additems(&mut self) -> (r: Result<(), Error>)
        requires
            old(self).wf(),
        ensures
            final(self).wf(),
            op_done(r, load_additems_spec(old(self)@), old(self)@, final(self)@),
    {
        let items = self.pop_mark()?;
        let set_obj = self.last()?;
        let set_obj = set_obj.as_set()?;
        let values = items.items(&self.heap);
        proof {
            assert(all_valid(self@.heap, self@.heap.lists[items.0 as int]));
        }
        set_obj.add_items(&mut self.heap, &values)
    }
}

/// Whether `b` is an op code of the format that this reader does not handle.
pub fn is_unhandled_op(b: u8) -> (r: bool)
    ensures
        r == unhandled_op(b),
{
    b == op::POP || b == op::POP_MARK || b == op::DUP || b == op::FLOAT || b == op::INT || b
        == op::LONG || b == op::PERSID || b == op::BINPERSID || b == op::STRING || b
        == op::BINSTRING || b == op::SHORT_BINSTRING || b == op::UNICODE || b == op::BUILD || b
        == op::GLOBAL || b == op::DICT || b == op::GET || b == op::INST || b == op::LIST || b
        == op::OBJ || b == op::PUT || b == op::BINPUT || b == op::LONG_BINPUT
        || b == op::EXT1 || b == op::EXT2 || b == op::EXT4 || b == op::LONG4 || b == op::BINBYTES
        || b == op::SHORT_BINBYTES || b == op::BINUNICODE8 || b == op::BINBYTES8 || b
        == op::FROZENSET || b == op::NEWOBJ_EX || b == op::BYTEARRAY8 || b == op::NEXT_BUFFER || b
        == op::READONLY_BUFFER
}

impl<'a> Unpickler<'a> {
    /// Does op `op`.
    pub fn dispatch(&mut self, op: u8) -> (r: Result<(), Error>)
        requires
            old(self).wf(),
        ensures
            final(self).wf(),
            op_done(r, step_spec(old(self)@, op), old(self)@, final(self)@),
            !handled_op(op) ==> final(self)@ == old(self)@,
    {
        if op == op::MARK {
            self.load_mark()
        } else if op == op::STOP {
            self.load_stop()
        } else if op == op::BININT {
            self.load_binint()
        } else if op == op::BININT1 {
            self.load_binint1()
        } else if op == op::BININT2 {
            self.load_binint2()
        } else if op == op::NONE {
            self.load_none()
        } else if op == op::REDUCE {
            self.load_reduce()
        } else if op == op::NEWOBJ {
            self.load_newobj()
        } else if op == op::BINUNICODE {
            self.load_binunicode()
        } else if op == op::APPEND {
            self.load_append()
        } else if op == op::EMPTY_DICT {
            self.load_empty_dict()
        } else if op == op::APPENDS {
            self.load_appends()
        } else if op == op::BINGET {
            self.load_binget()
        } else if op == op::LONG_BINGET {
            self.load_long_binget()
        } else if op == op::EMPTY_LIST {
            self.load_empty_list()
        } else if op == op::SETITEM {
            self.load_setitem()
        } else if op == op::TUPLE {
            self.load_tuple()
        } else if op == op::EMPTY_TUPLE {
            self.empty_tuple()
        } else if op == op::SETITEMS {
            self.load_setitems()
        } else if op == op::PROTO {
            self.load_proto()
        } else if op == op::TUPLE1 {
            self.load_tuple1()
        } else if op == op::TUPLE2 {
            self.load_tuple2()
        } else if op == op::TUPLE3 {
            self.load_tuple3()
        } else if op == op::NEWTRUE {
            self.load_newtrue()
        } else if op == op::NEWFALSE {
            self.load_newfalse()
        } else if op == op::LONG1 {
            self.load_long1()
        } else if op == op::SHORT_BINUNICODE {
            self.load_short_binunicode()
        } else if op == op::EMPTY_SET {
            self.load_empty_set()
        } else if op == op::ADDITEMS {
            self.load_additems()
        } else if op == op::STACK_GLOBAL {
            self.load_stack_global()
        } else if op == op::MEMOIZE {
            self.load_memoize()
        } else if op == op::FRAME {
            self.load_frame()
        } else if op == op::BINFLOAT {
            self.load_binfloat()
        } else if is_unhandled_op(op) {
            Err(Error::UnhandledOp(op))
        } else {
            Err(Error::UnknownOp(op))
        }
    }

    /// Reads ops until `STOP`, and gives the value read with the heap it lives in.
    pub fn load(self) -> (r: Result<(Value, Heap), Error>)
        requires
            self.wf(),
        ensures
            match run_spec(self@) {
                Ok(m) => r matches Ok((v, h)) && m.result == Some(v@) && h@ == m.heap,
                Err(e) => r matches Err(x) && x@ == e,
            },
            r matches Ok((v, h)) ==> h@.wf() && valid(h@, v@),
    {
        let mut this = self;
        let ghost m0 = this@;
        loop
            invariant_except_break
                this.wf(),
                m0 == self@,
                run_spec(this@) == run_spec(m0),
            ensures
                this.wf(),
                run_spec(m0) == Ok::<UnpicklerModel, ErrorModel>(this@),
                this.result is Some,
            decreases remaining(this@.input),
        {
            let ghost before = this@;
            proof {
                lemma_read_bytes_remaining(before, 1);
            }
            let op = this.read_byte()?;
            let ghost read = this@;
            proof {
                lemma_step_remaining(read, op);
            }
            this.dispatch(op)?;
            if this.result.is_some() {
                break;
            }
        }
        let Unpickler { result, heap, .. } = this;
        match result {
            Some(value) => Ok((value, heap)),
            None => Err(Error::EmptyStack),
        }
    }
}

/// Reads the pickle `data`: the value it holds, with the heap its lists, dicts, sets
/// and tuples live in.
pub fn unpickle(data: &[u8]) -> (r: Result<(Value, Heap), Error>)
    ensures
        match unpickle_spec(data@) {
            Ok(m) => r matches Ok((v, h)) && m.result == Some(v@) && h@ == m.heap,
            Err(e) => r matches Err(x) && x@ == e,
        },
        r matches Ok((v, h)) ==> h@.wf() && valid(h@, v@),
{
    Unpickler::new(data).load()
}

} // verus!
