//! What holds of the library across operations: reading back what was written,
//! what one op undoes of another, and the round trip of the integer encoding.

use vstd::prelude::*;

use crate::bigint::{byte_base, signed_le_bytes, signed_le_value, unsigned_le_value};
use crate::heap::{
    HeapModel,
    capped_len, dict_get, dict_insert, dict_len, entry_index, hashable, int_entry_index, int_item_index,
    int_of, item_index, key_eq, rank, set_insert, small_int, DictModel, SetModel,
};
use crate::error::ErrorModel;
use crate::machine::{
    load_additems_spec, load_append_spec, load_binfloat_spec, load_appends_spec, load_binget_spec, load_binint1_spec,
    load_binint2_spec, load_binint_spec, load_binunicode_spec, load_empty_dict_spec,
    load_empty_list_spec, load_empty_set_spec, load_empty_tuple_spec, load_frame_op_spec,
    load_long1_spec, load_long_binget_spec, load_memoize_spec, load_proto_spec, load_reduce_spec,
    load_setitem_spec, load_setitems_spec, load_short_binunicode_spec, load_stack_global_spec,
    load_stop_spec, load_tuple1_spec, load_tuple2_spec, load_tuple3_spec, load_tuple_spec,
};
use crate::machine::{
    initial_model, lemma_read_bytes_remaining, lemma_step_remaining, remaining, run_spec,
    unpickle_spec, read_bytes, add_list, int_value, model_wf, load_mark_spec, pop_mark_spec, pop_spec, push_memo, push_spec, stack_items,
    step_spec, UnpicklerModel,
};
use crate::integer::{narrowest, width, Int};
use crate::number::{number_model_eq, N};
use crate::op;
use crate::unframer::{load_frame_spec, read_exact_spec, UnframerModel};
use crate::value::ValueModel;

verus! {

/// `entry_index` only looks at the keys.
proof fn lemma_entry_index_keys(
    tuples: Seq<Seq<ValueModel>>,
    a: Seq<(ValueModel, ValueModel)>,
    b: Seq<(ValueModel, ValueModel)>,
    k: ValueModel,
)
    requires
        a.len() == b.len(),
        forall|j: int| 0 <= j < a.len() ==> #[trigger] a[j].0 == b[j].0,
    ensures
        entry_index(tuples, a, k) == entry_index(tuples, b, k),
    decreases a.len(),
{
    if a.len() > 0 {
        lemma_entry_index_keys(tuples, a.drop_last(), b.drop_last(), k);
        assert(a.last().0 == b.last().0);
    }
}

/// `int_entry_index` only looks at the keys.
proof fn lemma_int_entry_index_keys(
    a: Seq<(i64, ValueModel)>,
    b: Seq<(i64, ValueModel)>,
    k: i64,
)
    requires
        a.len() == b.len(),
        forall|j: int| 0 <= j < a.len() ==> #[trigger] a[j].0 == b[j].0,
    ensures
        int_entry_index(a, k) == int_entry_index(b, k),
    decreases a.len(),
{
    if a.len() > 0 {
        lemma_int_entry_index_keys(a.drop_last(), b.drop_last(), k);
        assert(a.last().0 == b.last().0);
    }
}

proof fn lemma_entry_index_bound(
    tuples: Seq<Seq<ValueModel>>,
    es: Seq<(ValueModel, ValueModel)>,
    k: ValueModel,
)
    ensures
        -1 <= entry_index(tuples, es, k) < es.len(),
    decreases es.len(),
{
    if es.len() > 0 {
        lemma_entry_index_bound(tuples, es.drop_last(), k);
    }
}

proof fn lemma_int_entry_index_bound(es: Seq<(i64, ValueModel)>, k: i64)
    ensures
        -1 <= int_entry_index(es, k) < es.len(),
        int_entry_index(es, k) >= 0 ==> es[int_entry_index(es, k)].0 == k,
    decreases es.len(),
{
    if es.len() > 0 {
        lemma_int_entry_index_bound(es.drop_last(), k);
    }
}

/// A dict gives back the value last set for a key: after `insert(k, v)`, looking
/// `k` up gives `v`. (A key that is not the same key as itself, a NaN float, is
/// never found.)
pub proof fn law_dict_get_after_insert(
    tuples: Seq<Seq<ValueModel>>,
    d: DictModel,
    k: ValueModel,
    v: ValueModel,
)
    requires
        key_eq(tuples, k, k),
    ensures
        dict_get(tuples, dict_insert(tuples, d, k, v), k) == Some(v),
{
    if small_int(k) {
        let n = int_of(k) as i64;
        let es = d.int_entries;
        let i = int_entry_index(es, n);
        lemma_int_entry_index_bound(es, n);
        if i >= 0 {
            let es2 = es.update(i, (n, v));
            lemma_int_entry_index_keys(es, es2, n);
        } else {
            let es2 = es.push((n, v));
            assert(es2.drop_last() =~= es);
        }
    } else {
        let es = d.entries;
        let i = entry_index(tuples, es, k);
        lemma_entry_index_bound(tuples, es, k);
        if i >= 0 {
            let es2 = es.update(i, (es[i].0, v));
            lemma_entry_index_keys(tuples, es, es2, k);
        } else {
            let es2 = es.push((k, v));
            assert(es2.drop_last() =~= es);
        }
    }
}

/// Adding an item a set holds already changes nothing: adding the same item twice
/// is adding it once. (A NaN float, not the same key as itself, is added each time.)
pub proof fn law_set_insert_idempotent(tuples: Seq<Seq<ValueModel>>, s: SetModel, k: ValueModel)
    requires
        key_eq(tuples, k, k),
    ensures
        set_insert(tuples, set_insert(tuples, s, k), k) == set_insert(tuples, s, k),
{
    if small_int(k) {
        let n = int_of(k) as i64;
        if int_item_index(s.ints, n) < 0 {
            assert(s.ints.push(n).drop_last() =~= s.ints);
        }
    } else {
        if item_index(tuples, s.items, k) < 0 {
            assert(s.items.push(k).drop_last() =~= s.items);
        }
    }
}

/// Taking off the stack what was just pushed gives it back, and the state before.
pub proof fn law_pop_after_push(m: UnpicklerModel, v: ValueModel)
    requires
        m.stack < m.heap.lists.len(),
    ensures
        pop_spec(push_spec(m, v)) == Ok::<(ValueModel, UnpicklerModel), crate::error::ErrorModel>(
            (v, m),
        ),
{
    let m1 = push_spec(m, v);
    assert(stack_items(m1) == stack_items(m).push(v));
    assert(stack_items(m).push(v).drop_last() =~= stack_items(m));
    assert(m1.heap.lists.update(m.stack as int, stack_items(m)) =~= m.heap.lists);
}

/// Going back to the mark just made gives back the stack and the saved stacks as
/// they were; the stack the mark started, still empty, is left over.
pub proof fn law_pop_mark_after_mark(m: UnpicklerModel)
    requires
        m.heap.lists.len() <= usize::MAX,
    ensures
        pop_mark_spec(load_mark_spec(m)) == Ok::<(usize, UnpicklerModel), crate::error::ErrorModel>(
            (m.heap.lists.len() as usize, add_list(m)),
        ),
{
    assert(m.meta.push(m.stack).drop_last() =~= m.meta);
}

/// What `MEMOIZE` stores can be read back: a `BINGET` or `LONG_BINGET` of the key
/// it was stored under pushes the value that was on top of the stack.
pub proof fn law_get_after_memoize(m: UnpicklerModel)
    requires
        model_wf(m),
        step_spec(m, op::MEMOIZE) is Ok,
    ensures
        ({
            let m1 = step_spec(m, op::MEMOIZE)->Ok_0;
            let key = capped_len(dict_len(m.heap.dicts[m.memo as int])) as int;
            push_memo(m1, key) == Ok::<UnpicklerModel, crate::error::ErrorModel>(
                push_spec(m1, stack_items(m).last()),
            )
        }),
{
    let key = capped_len(dict_len(m.heap.dicts[m.memo as int])) as int;
    law_dict_get_after_insert(
        m.heap.tuples,
        m.heap.dicts[m.memo as int],
        int_value(key),
        stack_items(m).last(),
    );
}

/// `signed_le_value` of one byte followed by more bytes.
proof fn lemma_signed_cons(b0: u8, rest: Seq<u8>)
    requires
        rest.len() > 0,
    ensures
        signed_le_value(seq![b0] + rest) == b0 + 256 * signed_le_value(rest),
{
    let s = seq![b0] + rest;
    assert(s.drop_first() =~= rest);
    assert(s.last() == rest.last());
    assert(unsigned_le_value(s) == b0 + 256 * unsigned_le_value(rest));
    assert(byte_base(s.len()) == 256 * byte_base(rest.len()));
}

proof fn lemma_signed_le_bytes_nonempty(v: int)
    ensures
        signed_le_bytes(v).len() > 0,
    decreases (if v < 0 { -v } else { v }),
{
}

/// Reading the shortest two's complement encoding of an integer gives the integer
/// back: what `to_signed_bytes_le` writes, `from_signed_bytes_le` reads.
pub proof fn law_signed_bytes_round_trip(v: int)
    ensures
        signed_le_value(signed_le_bytes(v)) == v,
    decreases (if v < 0 { -v } else { v }),
{
    let b0 = (v % 256) as u8;
    if -128 <= v < 128 {
        let b = signed_le_bytes(v);
        assert(b =~= seq![b0]);
        assert(b.drop_first() =~= Seq::<u8>::empty());
        assert(unsigned_le_value(Seq::<u8>::empty()) == 0);
        assert(unsigned_le_value(b) == b0);
        assert(byte_base(1) == 256) by {
            reveal_with_fuel(byte_base, 2);
        }
    } else {
        let q = v / 256;
        law_signed_bytes_round_trip(q);
        lemma_signed_le_bytes_nonempty(q);
        lemma_signed_cons(b0, signed_le_bytes(q));
        assert(signed_le_bytes(v) == seq![b0] + signed_le_bytes(q));
    }
}

/// The input with `extra` bytes after the end of the stream.
pub open spec fn with_trailing(u: UnframerModel, extra: Seq<u8>) -> UnframerModel {
    UnframerModel { data: u.data + extra, ..u }
}

/// The state with `extra` bytes after the end of its input.
pub open spec fn state_with_trailing(m: UnpicklerModel, extra: Seq<u8>) -> UnpicklerModel {
    UnpicklerModel { input: with_trailing(m.input, extra), ..m }
}

/// After a frame of `size` bytes starts, reading `size` bytes gives the frame, which
/// is the next `size` bytes of the stream, and leaves the rest of the stream. (An empty
/// frame is finished as soon as it starts, and the read goes to the stream.)
pub proof fn law_frame_then_read(u: UnframerModel, size: u64)
    requires
        size > 0,
        load_frame_spec(u, size) is Ok,
    ensures
        read_exact_spec(load_frame_spec(u, size)->Ok_0, size as nat) == Ok::<
            (Seq<u8>, UnframerModel),
            crate::error::Error,
        >(
            (
                u.data.take(size as int),
                UnframerModel { data: u.data.skip(size as int), frame: Some(Seq::empty()) },
            ),
        ),
{
    let f = u.data.take(size as int);
    assert(f.take(size as int) =~= f);
    assert(f.skip(size as int) =~= Seq::<u8>::empty());
}

proof fn lemma_read_trailing(u: UnframerModel, n: nat, extra: Seq<u8>)
    requires
        read_exact_spec(u, n) is Ok,
    ensures
        read_exact_spec(with_trailing(u, extra), n) == Ok::<(Seq<u8>, UnframerModel), crate::error::Error>(
            (
                read_exact_spec(u, n)->Ok_0.0,
                with_trailing(read_exact_spec(u, n)->Ok_0.1, extra),
            ),
        ),
{
    if crate::unframer::frame_finished(u) {
        assert((u.data + extra).take(n as int) =~= u.data.take(n as int));
        assert((u.data + extra).skip(n as int) =~= u.data.skip(n as int) + extra);
    }
}

proof fn lemma_load_frame_trailing(u: UnframerModel, size: u64, extra: Seq<u8>)
    requires
        load_frame_spec(u, size) is Ok,
    ensures
        load_frame_spec(with_trailing(u, extra), size) == Ok::<UnframerModel, crate::error::Error>(
            with_trailing(load_frame_spec(u, size)->Ok_0, extra),
        ),
{
    lemma_read_trailing(u, size as nat, extra);
}

/// An op that succeeds does the same whatever bytes follow the end of the input.
pub proof fn law_step_ignores_trailing(m: UnpicklerModel, b: u8, extra: Seq<u8>)
    requires
        step_spec(m, b) is Ok,
    ensures
        step_spec(state_with_trailing(m, extra), b) == Ok::<UnpicklerModel, crate::error::ErrorModel>(
            state_with_trailing(step_spec(m, b)->Ok_0, extra),
        ),
{
    assert forall|x: UnpicklerModel, n: nat| #![trigger read_bytes(x, n)]
        read_bytes(x, n) is Ok implies read_bytes(state_with_trailing(x, extra), n) == Ok::<
            (Seq<u8>, UnpicklerModel),
            crate::error::ErrorModel,
        >((read_bytes(x, n)->Ok_0.0, state_with_trailing(read_bytes(x, n)->Ok_0.1, extra))) by {
        lemma_read_trailing(x.input, n, extra);
    }
    assert forall|u: UnframerModel, size: u64| #![trigger load_frame_spec(u, size)]
        load_frame_spec(u, size) is Ok implies load_frame_spec(with_trailing(u, extra), size)
        == Ok::<UnframerModel, crate::error::Error>(with_trailing(load_frame_spec(u, size)->Ok_0, extra)) by {
        lemma_load_frame_trailing(u, size, extra);
    }
}

/// A run that reaches `STOP` does the same whatever bytes follow the end of the input.
pub proof fn law_run_ignores_trailing(m: UnpicklerModel, extra: Seq<u8>)
    requires
        run_spec(m) is Ok,
    ensures
        run_spec(state_with_trailing(m, extra)) == Ok::<UnpicklerModel, crate::error::ErrorModel>(
            state_with_trailing(run_spec(m)->Ok_0, extra),
        ),
    decreases remaining(m.input),
{
    lemma_read_trailing(m.input, 1, extra);
    let b = read_bytes(m, 1)->Ok_0.0;
    let m1 = read_bytes(m, 1)->Ok_0.1;
    law_step_ignores_trailing(m1, b[0], extra);
    let m2 = step_spec(m1, b[0])->Ok_0;
    if m2.result is None {
        lemma_read_bytes_remaining(m, 1);
        lemma_step_remaining(m1, b[0]);
        law_run_ignores_trailing(m2, extra);
    }
}

/// Reading a pickle stops at its `STOP`: bytes after it are never read, and the value
/// and heap read are the same with them as without.
pub proof fn law_unpickle_ignores_trailing(data: Seq<u8>, extra: Seq<u8>)
    requires
        unpickle_spec(data) is Ok,
    ensures
        unpickle_spec(data + extra) is Ok,
        unpickle_spec(data + extra)->Ok_0.result == unpickle_spec(data)->Ok_0.result,
        unpickle_spec(data + extra)->Ok_0.heap == unpickle_spec(data)->Ok_0.heap,
{
    assert(initial_model(data + extra) == state_with_trailing(initial_model(data), extra));
    law_run_ignores_trailing(initial_model(data), extra);
}

/// Whether `v` is, or holds in its nested tuples, a float that is NaN.
pub open spec fn holds_nan(tuples: Seq<Seq<ValueModel>>, v: ValueModel) -> bool
    decreases rank(v),
{
    match v {
        ValueModel::Number(crate::number::NumberModel::Float(bits)) => crate::number::f64_bits_is_nan(bits),
        ValueModel::Tuple(t) => t < tuples.len() && exists|k: int|
            0 <= k < tuples[t as int].len() && rank(#[trigger] tuples[t as int][k]) < rank(v)
                && holds_nan(tuples, tuples[t as int][k]),
        _ => false,
    }
}

/// Every key is the same key as itself, but for a NaN float or a tuple holding one.
pub proof fn law_key_eq_reflexive(tuples: Seq<Seq<ValueModel>>, k: ValueModel)
    requires
        hashable(tuples, k),
        !holds_nan(tuples, k),
    ensures
        key_eq(tuples, k, k),
    decreases rank(k),
{
    if let ValueModel::Tuple(t) = k {
        assert forall|j: int| 0 <= j < tuples[t as int].len() implies rank(
            #[trigger] tuples[t as int][j],
        ) < rank(k) && key_eq(tuples, tuples[t as int][j], tuples[t as int][j]) by {
            assert(hashable(tuples, tuples[t as int][j]));
            assert(!holds_nan(tuples, tuples[t as int][j]));
            law_key_eq_reflexive(tuples, tuples[t as int][j]);
        }
    }
}

/// Equal integers hash alike: the keys that `Int::hash_key` gives for two integers of
/// equal value, whatever their widths, have the same width and value.
pub proof fn law_equal_ints_hash_alike(a: Int, b: Int, key_a: Int, key_b: Int)
    requires
        a@ == b@,
        key_a@ == a@,
        width(key_a) == narrowest(a@),
        key_b@ == b@,
        width(key_b) == narrowest(b@),
    ensures
        key_a@ == key_b@,
        width(key_a) == width(key_b),
{
}

/// `dispatch` runs each op's handler: for every op the reader handles, what the model
/// gives for the op is what the handler's own contract gives (`REDUCE` and `NEWOBJ`
/// alike, `EMPTY_TUPLE` by `empty_tuple`).
pub proof fn law_dispatch_runs_handler(m: UnpicklerModel)
    ensures
        step_spec(m, op::MARK) == Ok::<UnpicklerModel, ErrorModel>(load_mark_spec(m)),
        step_spec(m, op::STOP) == load_stop_spec(m),
        step_spec(m, op::BININT) == load_binint_spec(m),
        step_spec(m, op::BININT1) == load_binint1_spec(m),
        step_spec(m, op::BININT2) == load_binint2_spec(m),
        step_spec(m, op::NONE) == Ok::<UnpicklerModel, ErrorModel>(push_spec(m, ValueModel::PyNone)),
        step_spec(m, op::REDUCE) == load_reduce_spec(m),
        step_spec(m, op::NEWOBJ) == load_reduce_spec(m),
        step_spec(m, op::BINUNICODE) == load_binunicode_spec(m),
        step_spec(m, op::APPEND) == load_append_spec(m),
        step_spec(m, op::EMPTY_DICT) == Ok::<UnpicklerModel, ErrorModel>(load_empty_dict_spec(m)),
        step_spec(m, op::APPENDS) == load_appends_spec(m),
        step_spec(m, op::BINGET) == load_binget_spec(m),
        step_spec(m, op::LONG_BINGET) == load_long_binget_spec(m),
        step_spec(m, op::EMPTY_LIST) == Ok::<UnpicklerModel, ErrorModel>(load_empty_list_spec(m)),
        step_spec(m, op::SETITEM) == load_setitem_spec(m),
        step_spec(m, op::TUPLE) == load_tuple_spec(m),
        step_spec(m, op::EMPTY_TUPLE) == Ok::<UnpicklerModel, ErrorModel>(load_empty_tuple_spec(m)),
        step_spec(m, op::SETITEMS) == load_setitems_spec(m),
        step_spec(m, op::PROTO) == load_proto_spec(m),
        step_spec(m, op::TUPLE1) == load_tuple1_spec(m),
        step_spec(m, op::TUPLE2) == load_tuple2_spec(m),
        step_spec(m, op::TUPLE3) == load_tuple3_spec(m),
        step_spec(m, op::NEWTRUE) == Ok::<UnpicklerModel, ErrorModel>(push_spec(m, ValueModel::Bool(true))),
        step_spec(m, op::NEWFALSE) == Ok::<UnpicklerModel, ErrorModel>(push_spec(m, ValueModel::Bool(false))),
        step_spec(m, op::LONG1) == load_long1_spec(m),
        step_spec(m, op::SHORT_BINUNICODE) == load_short_binunicode_spec(m),
        step_spec(m, op::EMPTY_SET) == Ok::<UnpicklerModel, ErrorModel>(load_empty_set_spec(m)),
        step_spec(m, op::ADDITEMS) == load_additems_spec(m),
        step_spec(m, op::STACK_GLOBAL) == load_stack_global_spec(m),
        step_spec(m, op::MEMOIZE) == load_memoize_spec(m),
        step_spec(m, op::FRAME) == load_frame_op_spec(m),
        step_spec(m, op::BINFLOAT) == load_binfloat_spec(m),
{
}

/// A pickled number's representation is fixed by its value: two normal
/// representations (as `Number::from_f64_bits` and the integer constructors give) of
/// numbers that are equal are of the same kind (`i64`, `i128`, big integer or float),
/// so a pickled integral float is held as an integer (`2.0` is the integer 2).
pub proof fn law_representation_fixed_by_value(x: N, y: N)
    requires
        x.is_normal(),
        y.is_normal(),
        number_model_eq(x.model(), y.model()),
    ensures
        x is I64 <==> y is I64,
        x is I128 <==> y is I128,
        x is BigInt <==> y is BigInt,
        x is F64 <==> y is F64,
{
}

/// Clones of a list, dict or set share its storage: a clone (whose view is the
/// original's, by `Value::clone`) names the same container of the heap, so what is
/// pushed onto the list through one is seen through the other.
pub proof fn law_clones_share_storage(h: HeapModel, original: ValueModel, clone: ValueModel, x: ValueModel)
    requires
        clone == original,
        original is List ==> (original->List_0) < h.lists.len(),
    ensures
        original is List ==> clone is List && clone->List_0 == original->List_0
            && h.lists.update(clone->List_0 as int, h.lists[clone->List_0 as int].push(x))[original->List_0 as int]
            == h.lists[original->List_0 as int].push(x),
        original is Dict ==> clone is Dict && clone->Dict_0 == original->Dict_0,
        original is PySet ==> clone is PySet && clone->PySet_0 == original->PySet_0,
{
}

} // verus!
