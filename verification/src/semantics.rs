//! What the operations on values and the reader's ops are for, stated over what
//! they give: a memo entry read back by its little-endian key, dicts that compare
//! equal agreeing on every key, an updated dict holding the other's entries, an
//! extended set holding its items, and a `Hint` keeping the fields it was given.

use vstd::prelude::*;

use crate::bigint::unsigned_le_value;
use crate::equality::{entries_eq, int_items, value_eq};
use crate::heap::{
    capped_len, dict_get, dict_insert, dict_insert_all, dict_items, dict_len, entry_index,
    hashable, int_entry_index, int_item_index, int_of, item_index, key_eq, set_insert,
    set_insert_all, small_int, DictModel, HeapModel, SetModel,
};
use crate::machine::{
    call_spec, model_wf, push_spec, read_bytes, stack_items, step_spec, UnpicklerModel,
};
use crate::op;
use crate::value::{Class, ValueModel};

verus! {

/// Whether set `s` holds `k`: an integer that fits in an `i64` among its integers,
/// anything else among its other items.
pub open spec fn set_holds(tuples: Seq<Seq<ValueModel>>, s: SetModel, k: ValueModel) -> bool {
    if small_int(k) {
        int_item_index(s.ints, int_of(k) as i64) >= 0
    } else {
        item_index(tuples, s.items, k) >= 0
    }
}

/// `int_item_index` finds an item equal to the one looked for.
proof fn lemma_int_item_index_found(ints: Seq<i64>, k: i64)
    ensures
        -1 <= int_item_index(ints, k) < ints.len(),
        int_item_index(ints, k) >= 0 ==> ints[int_item_index(ints, k)] == k,
    decreases ints.len(),
{
    if ints.len() > 0 {
        lemma_int_item_index_found(ints.drop_last(), k);
    }
}

/// Inserting into a set keeps what it held, and it then holds the item inserted (an
/// item that is not the same key as itself, a NaN, is never found).
proof fn lemma_set_insert_holds(tuples: Seq<Seq<ValueModel>>, s: SetModel, k: ValueModel, j: ValueModel)
    requires
        set_holds(tuples, s, j) || (j == k && key_eq(tuples, k, k)),
    ensures
        set_holds(tuples, set_insert(tuples, s, k), j),
{
    let s2 = set_insert(tuples, s, k);
    if small_int(k) {
        let n = int_of(k) as i64;
        if int_item_index(s.ints, n) < 0 {
            assert(s2.ints.drop_last() =~= s.ints);
            lemma_int_item_index_found(s.ints, int_of(j) as i64);
        }
    } else {
        if item_index(tuples, s.items, k) < 0 {
            assert(s2.items.drop_last() =~= s.items);
        }
    }
}

/// Extending a set puts every item in it: after inserting the items `ks` in order,
/// the set holds each of them that can be hashed (but a NaN, which is never the same
/// key as itself), integers and other items alike, and still holds what it held.
pub proof fn law_set_extend_holds_items(tuples: Seq<Seq<ValueModel>>, s: SetModel, ks: Seq<ValueModel>)
    ensures
        forall|i: int|
            0 <= i < ks.len() && hashable(tuples, ks[i]) && key_eq(tuples, ks[i], ks[i])
                ==> set_holds(tuples, #[trigger] set_insert_all(tuples, s, ks), ks[i]),
        forall|k: ValueModel|
            set_holds(tuples, s, k) ==> #[trigger] set_holds(tuples, set_insert_all(tuples, s, ks), k),
    decreases ks.len(),
{
    if ks.len() > 0 {
        let prev = ks.drop_last();
        law_set_extend_holds_items(tuples, s, prev);
        let last = ks.last();
        assert forall|i: int|
            0 <= i < ks.len() && hashable(tuples, ks[i]) && key_eq(tuples, ks[i], ks[i])
                implies set_holds(tuples, #[trigger] set_insert_all(tuples, s, ks), ks[i]) by {
            if i < ks.len() - 1 {
                assert(prev[i] == ks[i]);
                assert(set_holds(tuples, set_insert_all(tuples, s, prev), prev[i]));
            }
            if hashable(tuples, last) {
                lemma_set_insert_holds(tuples, set_insert_all(tuples, s, prev), last, ks[i]);
            }
        }
        assert forall|k: ValueModel|
            set_holds(tuples, s, k) implies #[trigger] set_holds(tuples, set_insert_all(tuples, s, ks), k) by {
            assert(set_holds(tuples, set_insert_all(tuples, s, prev), k));
            if hashable(tuples, last) {
                lemma_set_insert_holds(tuples, set_insert_all(tuples, s, prev), last, k);
            }
        }
    }
}

/// A `Hint` keeps the fields it is given: calling the class with a tuple of `n`
/// arguments gives a new tuple of eight fields whose first `min(n, 8)` are the
/// arguments, in order; only the fields not given take their defaults (`None` for
/// the first five, then the empty string, then 0 twice).
pub proof fn law_hint_keeps_arguments(h: HeapModel, t: usize)
    requires
        t < h.tuples.len(),
        h.tuples.len() <= usize::MAX,
    ensures
        call_spec(h, Class::Hint, ValueModel::Tuple(t)) matches Ok((ValueModel::Tuple(u), h2)) && ({
            let args = h.tuples[t as int];
            &&& u == h.tuples.len()
            &&& h2.tuples.len() == h.tuples.len() + 1
            &&& h2.tuples[u as int].len() == 8
            &&& forall|i: int| 0 <= i < args.len() && i < 8 ==> h2.tuples[u as int][i] == args[i]
            &&& forall|i: int| args.len() <= i < 5 ==> h2.tuples[u as int][i] == ValueModel::PyNone
            &&& args.len() <= 5 ==> h2.tuples[u as int][5] == ValueModel::Str(Seq::empty())
            &&& forall|i: int|
                args.len() <= i < 8 && i >= 6 ==> h2.tuples[u as int][i] == ValueModel::Number(
                    crate::number::NumberModel::Int(0),
                )
            &&& forall|i: int| 0 <= i < h.tuples.len() ==> h2.tuples[i] == h.tuples[i]
        }),
{
}

/// Four bytes read least significant first.
proof fn lemma_four_bytes_le(b: Seq<u8>)
    requires
        b.len() == 4,
    ensures
        unsigned_le_value(b) == b[0] + 256 * b[1] + 65536 * b[2] + 16777216 * b[3],
{
    reveal_with_fuel(unsigned_le_value, 5);
    assert(b.drop_first().drop_first().drop_first().drop_first().len() == 0);
    assert(b.drop_first()[0] == b[1]);
    assert(b.drop_first().drop_first()[0] == b[2]);
    assert(b.drop_first().drop_first().drop_first()[0] == b[3]);
}

/// `LONG_BINGET` reads its key least significant byte first: after `MEMOIZE` stores
/// the top of the stack under key `n` (the number of entries the memo held), a
/// `LONG_BINGET` whose four bytes spell `n` that way pushes that value.
pub proof fn law_long_binget_reads_little_endian(m: UnpicklerModel, b: Seq<u8>, m2: UnpicklerModel)
    requires
        model_wf(m),
        step_spec(m, op::MEMOIZE) is Ok,
        read_bytes(step_spec(m, op::MEMOIZE)->Ok_0, 4) == Ok::<(Seq<u8>, UnpicklerModel), crate::error::ErrorModel>((b, m2)),
        b[0] + 256 * b[1] + 65536 * b[2] + 16777216 * b[3] == capped_len(
            dict_len(m.heap.dicts[m.memo as int]),
        ),
    ensures
        step_spec(step_spec(m, op::MEMOIZE)->Ok_0, op::LONG_BINGET) == Ok::<UnpicklerModel, crate::error::ErrorModel>(
            push_spec(m2, stack_items(m).last()),
        ),
{
    let m1 = step_spec(m, op::MEMOIZE)->Ok_0;
    crate::machine::lemma_read_bytes_remaining(m1, 4);
    lemma_four_bytes_le(b);
    crate::laws::law_get_after_memoize(m);
}

/// `BINGET` reads its one-byte key: after `MEMOIZE` stores the top of the stack under
/// key `n` (the number of entries the memo held), a `BINGET` whose byte is `n` pushes
/// that value.
pub proof fn law_binget_reads_its_byte(m: UnpicklerModel, b: Seq<u8>, m2: UnpicklerModel)
    requires
        model_wf(m),
        step_spec(m, op::MEMOIZE) is Ok,
        read_bytes(step_spec(m, op::MEMOIZE)->Ok_0, 1) == Ok::<(Seq<u8>, UnpicklerModel), crate::error::ErrorModel>((b, m2)),
        b[0] == capped_len(dict_len(m.heap.dicts[m.memo as int])),
    ensures
        step_spec(step_spec(m, op::MEMOIZE)->Ok_0, op::BINGET) == Ok::<UnpicklerModel, crate::error::ErrorModel>(
            push_spec(m2, stack_items(m).last()),
        ),
{
    let m1 = step_spec(m, op::MEMOIZE)->Ok_0;
    crate::machine::lemma_read_bytes_remaining(m1, 1);
    crate::laws::law_get_after_memoize(m);
}

/// `entries_eq` answering `Some(true)` means every entry compared has an equal value
/// under its key in the other dict.
proof fn lemma_entries_eq_agree(
    h: HeapModel,
    es: Seq<(ValueModel, ValueModel)>,
    d: DictModel,
    n: nat,
    fuel: nat,
)
    requires
        n <= es.len(),
        entries_eq(h, es, d, n, fuel) == Some(true),
    ensures
        forall|i: int|
            0 <= i < n ==> (#[trigger] dict_get(h.tuples, d, es[i].0) matches Some(w) && value_eq(
                h,
                es[i].1,
                w,
                fuel,
            ) == Some(true)),
    decreases n,
{
    if n > 0 {
        lemma_entries_eq_agree(h, es, d, (n - 1) as nat, fuel);
    }
}

/// Dicts that compare equal agree on every key: if two distinct dicts compare
/// `Some(true)`, every key of the first, integer keys included, is in the second, and
/// the two values under it compare `Some(true)`.
pub proof fn law_equal_dicts_agree(h: HeapModel, x: usize, y: usize, fuel: nat)
    requires
        x != y,
        value_eq(h, ValueModel::Dict(x), ValueModel::Dict(y), fuel) == Some(true),
    ensures
        fuel > 0,
        forall|i: int|
            0 <= i < dict_items(h.dicts[x as int]).len() ==> (#[trigger] dict_get(
                h.tuples,
                h.dicts[y as int],
                dict_items(h.dicts[x as int])[i].0,
            ) matches Some(w) && value_eq(
                h,
                dict_items(h.dicts[x as int])[i].1,
                w,
                (fuel - 1) as nat,
            ) == Some(true)),
{
    let dx = h.dicts[x as int];
    let dy = h.dicts[y as int];
    let f = (fuel - 1) as nat;
    lemma_entries_eq_agree(h, dx.entries, dy, dx.entries.len(), f);
    lemma_entries_eq_agree(h, int_items(dx), dy, dx.int_entries.len(), f);
    assert forall|i: int| 0 <= i < dict_items(dx).len() implies (#[trigger] dict_get(
        h.tuples,
        dy,
        dict_items(dx)[i].0,
    ) matches Some(w) && value_eq(h, dict_items(dx)[i].1, w, f) == Some(true)) by {
        if i < dx.entries.len() {
            assert(dict_items(dx)[i] == dx.entries[i]);
        } else {
            let j = i - dx.entries.len();
            assert(dict_items(dx)[i] == int_items(dx)[j]);
            assert(dict_get(h.tuples, dy, int_items(dx)[j].0) matches Some(w) && value_eq(h, int_items(dx)[j].1, w, f) == Some(true));
        }
    }
}

/// `entry_index` finds an entry whose key is the same key as the one looked for.
proof fn lemma_entry_index_found(
    tuples: Seq<Seq<ValueModel>>,
    es: Seq<(ValueModel, ValueModel)>,
    k: ValueModel,
)
    ensures
        -1 <= entry_index(tuples, es, k) < es.len(),
        entry_index(tuples, es, k) >= 0 ==> key_eq(tuples, k, es[entry_index(tuples, es, k)].0),
    decreases es.len(),
{
    if es.len() > 0 {
        lemma_entry_index_found(tuples, es.drop_last(), k);
    }
}

/// `int_entry_index` finds an entry with the key looked for.
proof fn lemma_int_entry_index_found(es: Seq<(i64, ValueModel)>, k: i64)
    ensures
        -1 <= int_entry_index(es, k) < es.len(),
        int_entry_index(es, k) >= 0 ==> es[int_entry_index(es, k)].0 == k,
    decreases es.len(),
{
    if es.len() > 0 {
        lemma_int_entry_index_found(es.drop_last(), k);
    }
}

/// `entry_index` only looks at the keys.
proof fn lemma_entry_index_same_keys(
    tuples: Seq<Seq<ValueModel>>,
    a: Seq<(ValueModel, ValueModel)>,
    b: Seq<(ValueModel, ValueModel)>,
    k: ValueModel,
)
    requires
        a.len() == b.len(),
        forall|j: int| 0 <= j < a.len() ==> #[trigger] a[j].0 == b[j].0,
    ensures
        entry_index(tuples, a, k) == entry_index(tuples, b, k),
    decreases a.len(),
{
    if a.len() > 0 {
        lemma_entry_index_same_keys(tuples, a.drop_last(), b.drop_last(), k);
        assert(a.last().0 == b.last().0);
    }
}

/// `int_entry_index` only looks at the keys.
proof fn lemma_int_entry_index_same_keys(a: Seq<(i64, ValueModel)>, b: Seq<(i64, ValueModel)>, k: i64)
    requires
        a.len() == b.len(),
        forall|j: int| 0 <= j < a.len() ==> #[trigger] a[j].0 == b[j].0,
    ensures
        int_entry_index(a, k) == int_entry_index(b, k),
    decreases a.len(),
{
    if a.len() > 0 {
        lemma_int_entry_index_same_keys(a.drop_last(), b.drop_last(), k);
        assert(a.last().0 == b.last().0);
    }
}

/// Inserting into a dict keeps every key it held.
proof fn lemma_dict_insert_keeps_keys(
    tuples: Seq<Seq<ValueModel>>,
    d: DictModel,
    k: ValueModel,
    v: ValueModel,
    j: ValueModel,
)
    requires
        dict_get(tuples, d, j) is Some,
    ensures
        dict_get(tuples, dict_insert(tuples, d, k, v), j) is Some,
{
    let d2 = dict_insert(tuples, d, k, v);
    lemma_int_entry_index_found(d.int_entries, int_of(j) as i64);
    lemma_entry_index_found(tuples, d.entries, j);
    if small_int(k) {
        let n = int_of(k) as i64;
        let i = int_entry_index(d.int_entries, n);
        lemma_int_entry_index_found(d.int_entries, n);
        if i >= 0 {
            lemma_int_entry_index_same_keys(d.int_entries, d2.int_entries, int_of(j) as i64);
        } else {
            assert(d2.int_entries.drop_last() =~= d.int_entries);
        }
        lemma_int_entry_index_found(d2.int_entries, int_of(j) as i64);
    } else {
        let i = entry_index(tuples, d.entries, k);
        lemma_entry_index_found(tuples, d.entries, k);
        if i >= 0 {
            lemma_entry_index_same_keys(tuples, d.entries, d2.entries, j);
        } else {
            assert(d2.entries.drop_last() =~= d.entries);
        }
        lemma_entry_index_found(tuples, d2.entries, j);
    }
}

/// Updating a dict with the entries `es` leaves it holding every key of `es` (but a
/// NaN, which is never the same key as itself), whatever kind of key, and every key it
/// held.
pub proof fn law_update_holds_keys(
    tuples: Seq<Seq<ValueModel>>,
    d: DictModel,
    es: Seq<(ValueModel, ValueModel)>,
)
    ensures
        forall|i: int|
            0 <= i < es.len() && key_eq(tuples, es[i].0, es[i].0) ==> #[trigger] dict_get(
                tuples,
                dict_insert_all(tuples, d, es),
                es[i].0,
            ) is Some,
        forall|k: ValueModel|
            dict_get(tuples, d, k) is Some ==> #[trigger] dict_get(
                tuples,
                dict_insert_all(tuples, d, es),
                k,
            ) is Some,
    decreases es.len(),
{
    if es.len() > 0 {
        let prev = es.drop_last();
        law_update_holds_keys(tuples, d, prev);
        let before = dict_insert_all(tuples, d, prev);
        assert forall|i: int|
            0 <= i < es.len() && key_eq(tuples, es[i].0, es[i].0) implies #[trigger] dict_get(
                tuples,
                dict_insert_all(tuples, d, es),
                es[i].0,
            ) is Some by {
            if i < es.len() - 1 {
                assert(prev[i] == es[i]);
                assert(dict_get(tuples, before, prev[i].0) is Some);
                lemma_dict_insert_keeps_keys(tuples, before, es.last().0, es.last().1, es[i].0);
            } else {
                crate::laws::law_dict_get_after_insert(tuples, before, es.last().0, es.last().1);
            }
        }
        assert forall|k: ValueModel|
            dict_get(tuples, d, k) is Some implies #[trigger] dict_get(
                tuples,
                dict_insert_all(tuples, d, es),
                k,
            ) is Some by {
            assert(dict_get(tuples, before, k) is Some);
            lemma_dict_insert_keeps_keys(tuples, before, es.last().0, es.last().1, k);
        }
    }
}

/// The empty dict.
pub open spec fn no_entries() -> DictModel {
    DictModel { entries: Seq::empty(), int_entries: Seq::empty() }
}

/// Whether no two of the entries `es` have keys that are the same key.
pub open spec fn distinct_keys(tuples: Seq<Seq<ValueModel>>, es: Seq<(ValueModel, ValueModel)>) -> bool {
    forall|i: int, j: int|
        0 <= i < es.len() && 0 <= j < es.len() && i != j ==> !key_eq(
            tuples,
            #[trigger] es[i].0,
            #[trigger] es[j].0,
        )
}

/// Inserting the entries `es`, whose keys are all different keys, into an empty dict:
/// a key that is none of them is not found, and each of them gives its value.
proof fn lemma_copy_into_empty(tuples: Seq<Seq<ValueModel>>, es: Seq<(ValueModel, ValueModel)>)
    requires
        distinct_keys(tuples, es),
    ensures
        forall|k: ValueModel|
            (forall|m: int| 0 <= m < es.len() ==> !key_eq(tuples, k, #[trigger] es[m].0))
                ==> #[trigger] dict_get(tuples, dict_insert_all(tuples, no_entries(), es), k) is None,
        forall|i: int|
            0 <= i < es.len() && key_eq(tuples, es[i].0, es[i].0) ==> #[trigger] dict_get(
                tuples,
                dict_insert_all(tuples, no_entries(), es),
                es[i].0,
            ) == Some(es[i].1),
    decreases es.len(),
{
    if es.len() > 0 {
        let prev = es.drop_last();
        assert(distinct_keys(tuples, prev)) by {
            assert forall|i: int, j: int|
                0 <= i < prev.len() && 0 <= j < prev.len() && i != j implies !key_eq(
                    tuples,
                    #[trigger] prev[i].0,
                    #[trigger] prev[j].0,
                ) by {
                assert(prev[i] == es[i] && prev[j] == es[j]);
            }
        }
        lemma_copy_into_empty(tuples, prev);
        let d = dict_insert_all(tuples, no_entries(), prev);
        let n = prev.len() as int;
        let (kn, vn) = es.last();
        assert(es[n] == es.last());
        // the last key is none of the earlier ones, so it goes at the end
        assert forall|m: int| 0 <= m < prev.len() implies !key_eq(tuples, kn, #[trigger] prev[m].0) by {
            assert(prev[m] == es[m]);
        }
        assert(dict_get(tuples, d, kn) is None);
        let d2 = dict_insert(tuples, d, kn, vn);
        assert(d2 == dict_insert_all(tuples, no_entries(), es));
        if small_int(kn) {
            assert(d2.int_entries.drop_last() =~= d.int_entries);
            assert(d2.entries == d.entries);
        } else {
            assert(d2.entries.drop_last() =~= d.entries);
            assert(d2.int_entries == d.int_entries);
        }
        assert forall|k: ValueModel|
            (forall|m: int| 0 <= m < es.len() ==> !key_eq(tuples, k, #[trigger] es[m].0))
                implies #[trigger] dict_get(tuples, d2, k) is None by {
            assert forall|m: int| 0 <= m < prev.len() implies !key_eq(tuples, k, #[trigger] prev[m].0) by {
                assert(prev[m] == es[m]);
                assert(!key_eq(tuples, k, es[m].0));
            }
            assert(dict_get(tuples, d, k) is None);
            assert(!key_eq(tuples, k, es[n].0));
        }
        assert forall|i: int|
            0 <= i < es.len() && key_eq(tuples, es[i].0, es[i].0) implies #[trigger] dict_get(
                tuples,
                d2,
                es[i].0,
            ) == Some(es[i].1) by {
            if i < n {
                assert(prev[i] == es[i]);
                assert(dict_get(tuples, d, prev[i].0) == Some(prev[i].1));
                lemma_int_entry_index_found(d.int_entries, int_of(es[i].0) as i64);
                lemma_entry_index_found(tuples, d.entries, es[i].0);
            } else {
                crate::laws::law_dict_get_after_insert(tuples, d, kn, vn);
            }
        }
    }
}

/// Updating an empty dict with another's entries copies them: where the entries'
/// keys are all different keys, looking any of them up gives its value (but a NaN
/// key, which is never the same key as itself).
pub proof fn law_update_into_empty_copies(tuples: Seq<Seq<ValueModel>>, es: Seq<(ValueModel, ValueModel)>)
    requires
        distinct_keys(tuples, es),
    ensures
        forall|i: int|
            0 <= i < es.len() && key_eq(tuples, es[i].0, es[i].0) ==> #[trigger] dict_get(
                tuples,
                dict_insert_all(tuples, no_entries(), es),
                es[i].0,
            ) == Some(es[i].1),
{
    lemma_copy_into_empty(tuples, es);
}

/// Four bytes read as a two's complement number, least significant byte first.
proof fn lemma_four_bytes_signed(b: Seq<u8>)
    requires
        b.len() == 4,
    ensures
        crate::bigint::signed_le_value(b) == b[0] + 256 * b[1] + 65536 * b[2] + 16777216 * b[3]
            - (if b[3] >= 0x80 { 0x1_0000_0000int } else { 0int }),
{
    lemma_four_bytes_le(b);
    reveal_with_fuel(crate::bigint::byte_base, 5);
}

/// The integer ops read their bytes least significant first: `BININT` a signed
/// four-byte number, `BININT1` an unsigned byte, `BININT2` an unsigned two-byte
/// number, each pushed as an integer.
pub proof fn law_int_ops_read_little_endian(m: UnpicklerModel)
    ensures
        read_bytes(m, 4) matches Ok((b, m1)) ==> step_spec(m, op::BININT) == Ok::<
            UnpicklerModel,
            crate::error::ErrorModel,
        >(
            push_spec(
                m1,
                ValueModel::Number(
                    crate::number::NumberModel::Int(
                        b[0] + 256 * b[1] + 65536 * b[2] + 16777216 * b[3] - (if b[3] >= 0x80 {
                            0x1_0000_0000int
                        } else {
                            0int
                        }),
                    ),
                ),
            ),
        ),
        read_bytes(m, 1) matches Ok((b, m1)) ==> step_spec(m, op::BININT1) == Ok::<
            UnpicklerModel,
            crate::error::ErrorModel,
        >(push_spec(m1, ValueModel::Number(crate::number::NumberModel::Int(b[0] as int)))),
        read_bytes(m, 2) matches Ok((b, m1)) ==> step_spec(m, op::BININT2) == Ok::<
            UnpicklerModel,
            crate::error::ErrorModel,
        >(
            push_spec(
                m1,
                ValueModel::Number(crate::number::NumberModel::Int(b[0] + 256 * b[1])),
            ),
        ),
{
    crate::machine::lemma_read_bytes_remaining(m, 4);
    crate::machine::lemma_read_bytes_remaining(m, 2);
    crate::machine::lemma_read_bytes_remaining(m, 1);
    if let Ok((b, _)) = read_bytes(m, 4) {
        lemma_four_bytes_signed(b);
    }
    if let Ok((b, _)) = read_bytes(m, 2) {
        reveal_with_fuel(unsigned_le_value, 3);
        assert(b.drop_first()[0] == b[1]);
        assert(b.drop_first().drop_first().len() == 0);
    }
    if let Ok((b, _)) = read_bytes(m, 1) {
        reveal_with_fuel(unsigned_le_value, 2);
        assert(b.drop_first().len() == 0);
    }
}

/// The text ops read a length, least significant byte first (`BINUNICODE` four
/// bytes, `SHORT_BINUNICODE` one), then that many bytes of UTF-8, and push the text.
pub proof fn law_text_ops_read_length_then_text(m: UnpicklerModel)
    ensures
        read_bytes(m, 4) matches Ok((l, m1)) ==> (read_bytes(
            m1,
            (l[0] + 256 * l[1] + 65536 * l[2] + 16777216 * l[3]) as nat,
        ) matches Ok((t, m2)) ==> (vstd::utf8::valid_utf8(t) ==> step_spec(m, op::BINUNICODE)
            == Ok::<UnpicklerModel, crate::error::ErrorModel>(
            push_spec(m2, ValueModel::Str(vstd::utf8::decode_utf8(t))),
        ))),
        read_bytes(m, 1) matches Ok((l, m1)) ==> (read_bytes(m1, l[0] as nat) matches Ok((t, m2))
            ==> (vstd::utf8::valid_utf8(t) ==> step_spec(m, op::SHORT_BINUNICODE) == Ok::<
            UnpicklerModel,
            crate::error::ErrorModel,
        >(push_spec(m2, ValueModel::Str(vstd::utf8::decode_utf8(t)))))),
{
    crate::machine::lemma_read_bytes_remaining(m, 4);
    crate::machine::lemma_read_bytes_remaining(m, 1);
    if let Ok((l, _)) = read_bytes(m, 4) {
        lemma_four_bytes_le(l);
    }
}

/// A `NetworkSlot` holds its arguments under their names: called with `(name, game,
/// type, group_members)` it gives a new dict in which `"name"`, `"game"`, `"type"`
/// and `"group_members"` give the four arguments, in that order, and `"__class"`
/// gives `"NetworkSlot"`.
pub proof fn law_network_slot_fields(h: HeapModel, t: usize)
    requires
        t < h.tuples.len(),
        h.dicts.len() <= usize::MAX,
        call_spec(h, Class::NetworkSlot, ValueModel::Tuple(t)) is Ok,
    ensures
        call_spec(h, Class::NetworkSlot, ValueModel::Tuple(t)) matches Ok((ValueModel::Dict(d), h2))
            && ({
            let args = h.tuples[t as int];
            let slot = h2.dicts[d as int];
            &&& d == h.dicts.len()
            &&& h2.dicts.len() == h.dicts.len() + 1
            &&& dict_get(h2.tuples, slot, ValueModel::Str("__class"@)) == Some(
                ValueModel::Str("NetworkSlot"@),
            )
            &&& dict_get(h2.tuples, slot, ValueModel::Str("name"@)) == Some(args[0])
            &&& dict_get(h2.tuples, slot, ValueModel::Str("game"@)) == Some(args[1])
            &&& dict_get(h2.tuples, slot, ValueModel::Str("type"@)) == Some(args[2])
            &&& dict_get(h2.tuples, slot, ValueModel::Str("group_members"@)) == Some(args[3])
        }),
{
    let args = h.tuples[t as int];
    let es = seq![
        (ValueModel::Str("__class"@), ValueModel::Str("NetworkSlot"@)),
        (ValueModel::Str("name"@), args[0]),
        (ValueModel::Str("game"@), args[1]),
        (ValueModel::Str("type"@), args[2]),
        (ValueModel::Str("group_members"@), args[3]),
    ];
    reveal_strlit("__class");
    reveal_strlit("name");
    reveal_strlit("game");
    reveal_strlit("type");
    reveal_strlit("group_members");
    reveal_with_fuel(dict_insert_all, 6);
    assert("name"@ != "game"@) by {
        assert("name"@[0] != "game"@[0]);
    }
    assert("name"@ != "type"@) by {
        assert("name"@[0] != "type"@[0]);
    }
    assert("game"@ != "type"@) by {
        assert("game"@[0] != "type"@[0]);
    }
    assert(es.drop_last().drop_last().drop_last().drop_last().drop_last().len() == 0);
    assert(es.drop_last().drop_last().drop_last().drop_last() =~= seq![es[0]]);
    assert(es.drop_last().drop_last().drop_last() =~= seq![es[0], es[1]]);
    assert(es.drop_last().drop_last() =~= seq![es[0], es[1], es[2]]);
    assert(es.drop_last() =~= seq![es[0], es[1], es[2], es[3]]);
    assert(crate::machine::network_slot_dict(h.tuples, args) == dict_insert_all(
        h.tuples,
        no_entries(),
        es,
    ));
    assert(distinct_keys(h.tuples, es)) by {
        assert forall|i: int, j: int|
            0 <= i < es.len() && 0 <= j < es.len() && i != j implies !key_eq(
                h.tuples,
                #[trigger] es[i].0,
                #[trigger] es[j].0,
            ) by {
            assert(es[0].0 == ValueModel::Str("__class"@));
            assert(es[1].0 == ValueModel::Str("name"@));
            assert(es[2].0 == ValueModel::Str("game"@));
            assert(es[3].0 == ValueModel::Str("type"@));
            assert(es[4].0 == ValueModel::Str("group_members"@));
            assert("__class"@.len() == 7 && "name"@.len() == 4 && "game"@.len() == 4);
            assert("type"@.len() == 4 && "group_members"@.len() == 13);
        }
    }
    lemma_copy_into_empty(h.tuples, es);
    assert(key_eq(h.tuples, es[0].0, es[0].0));
    assert(key_eq(h.tuples, es[1].0, es[1].0));
    assert(key_eq(h.tuples, es[2].0, es[2].0));
    assert(key_eq(h.tuples, es[3].0, es[3].0));
    assert(key_eq(h.tuples, es[4].0, es[4].0));
}

/// The first `n` key and value pairs of `items`: items `2i` and `2i + 1`.
pub open spec fn pairs_of(items: Seq<ValueModel>, n: nat) -> Seq<(ValueModel, ValueModel)> {
    Seq::new(n, |i: int| (items[2 * i], items[2 * i + 1]))
}

/// Setting the pairs one by one is inserting them in order.
proof fn lemma_insert_pairs_in_order(
    tuples: Seq<Seq<ValueModel>>,
    d: DictModel,
    items: Seq<ValueModel>,
    n: nat,
)
    requires
        crate::machine::insert_pairs(tuples, d, items, n) is Ok,
    ensures
        crate::machine::insert_pairs(tuples, d, items, n) == Ok::<DictModel, crate::error::ErrorModel>(
            dict_insert_all(tuples, d, pairs_of(items, n)),
        ),
    decreases n,
{
    if n > 0 {
        lemma_insert_pairs_in_order(tuples, d, items, (n - 1) as nat);
        assert(pairs_of(items, n).drop_last() =~= pairs_of(items, (n - 1) as nat));
    }
}

/// `SETITEMS` sets each key to the value after it: once the pairs pushed since the
/// mark are set in a dict, it holds every key among them (but a NaN); set in an
/// empty dict, with keys that are all different keys, each key gives the value that
/// followed it.
pub proof fn law_setitems_sets_pairs(
    tuples: Seq<Seq<ValueModel>>,
    d: DictModel,
    items: Seq<ValueModel>,
    n: nat,
)
    requires
        crate::machine::insert_pairs(tuples, d, items, n) is Ok,
    ensures
        forall|i: int|
            0 <= i < n && key_eq(tuples, items[2 * i], items[2 * i]) ==> dict_get(
                tuples,
                crate::machine::insert_pairs(tuples, d, items, n)->Ok_0,
                #[trigger] items[2 * i],
            ) is Some,
        d == no_entries() && distinct_keys(tuples, pairs_of(items, n)) ==> forall|i: int|
            0 <= i < n && key_eq(tuples, items[2 * i], items[2 * i]) ==> dict_get(
                tuples,
                crate::machine::insert_pairs(tuples, d, items, n)->Ok_0,
                #[trigger] items[2 * i],
            ) == Some(items[2 * i + 1]),
{
    lemma_insert_pairs_in_order(tuples, d, items, n);
    let ps = pairs_of(items, n);
    law_update_holds_keys(tuples, d, ps);
    assert forall|i: int|
        0 <= i < n && key_eq(tuples, items[2 * i], items[2 * i]) implies dict_get(
            tuples,
            crate::machine::insert_pairs(tuples, d, items, n)->Ok_0,
            #[trigger] items[2 * i],
        ) is Some by {
        assert(ps[i].0 == items[2 * i]);
        assert(dict_get(tuples, dict_insert_all(tuples, d, ps), ps[i].0) is Some);
    }
    if d == no_entries() && distinct_keys(tuples, ps) {
        law_update_into_empty_copies(tuples, ps);
        assert forall|i: int|
            0 <= i < n && key_eq(tuples, items[2 * i], items[2 * i]) implies dict_get(
                tuples,
                crate::machine::insert_pairs(tuples, d, items, n)->Ok_0,
                #[trigger] items[2 * i],
            ) == Some(items[2 * i + 1]) by {
            assert(ps[i] == (items[2 * i], items[2 * i + 1]));
            assert(dict_get(tuples, dict_insert_all(tuples, no_entries(), ps), ps[i].0) == Some(ps[i].1));
        }
    }
}

/// Adding the items one by one is inserting them in order.
proof fn lemma_add_items_in_order(
    tuples: Seq<Seq<ValueModel>>,
    s: SetModel,
    items: Seq<ValueModel>,
    n: nat,
)
    requires
        n <= items.len(),
        crate::machine::add_items(tuples, s, items, n) is Ok,
    ensures
        crate::machine::add_items(tuples, s, items, n) == Ok::<SetModel, crate::error::ErrorModel>(
            set_insert_all(tuples, s, items.take(n as int)),
        ),
    decreases n,
{
    if n > 0 {
        lemma_add_items_in_order(tuples, s, items, (n - 1) as nat);
        assert(items.take(n as int).drop_last() =~= items.take(n - 1));
    }
}

/// `ADDITEMS` adds every item pushed since the mark: the set then holds each of them
/// (but a NaN), integers and other items alike.
pub proof fn law_additems_holds_items(
    tuples: Seq<Seq<ValueModel>>,
    s: SetModel,
    items: Seq<ValueModel>,
)
    requires
        crate::machine::add_items(tuples, s, items, items.len()) is Ok,
    ensures
        forall|i: int|
            0 <= i < items.len() && key_eq(tuples, items[i], items[i]) ==> set_holds(
                tuples,
                crate::machine::add_items(tuples, s, items, items.len())->Ok_0,
                #[trigger] items[i],
            ),
{
    lemma_add_items_in_order(tuples, s, items, items.len());
    assert(items.take(items.len() as int) =~= items);
    law_set_extend_holds_items(tuples, s, items);
    lemma_add_items_hashable(tuples, s, items, items.len());
    assert forall|i: int|
        0 <= i < items.len() && key_eq(tuples, items[i], items[i]) implies set_holds(
            tuples,
            crate::machine::add_items(tuples, s, items, items.len())->Ok_0,
            #[trigger] items[i],
        ) by {
        assert(hashable(tuples, items[i]));
        assert(set_holds(tuples, set_insert_all(tuples, s, items), items[i]));
    }
}

/// Items added without an error are all hashable.
proof fn lemma_add_items_hashable(
    tuples: Seq<Seq<ValueModel>>,
    s: SetModel,
    items: Seq<ValueModel>,
    n: nat,
)
    requires
        n <= items.len(),
        crate::machine::add_items(tuples, s, items, n) is Ok,
    ensures
        forall|i: int| 0 <= i < n ==> #[trigger] hashable(tuples, items[i]),
    decreases n,
{
    if n > 0 {
        lemma_add_items_hashable(tuples, s, items, (n - 1) as nat);
    }
}

/// Whether no key of dict `d` is the same key as two different keys among `es`.
pub open spec fn no_shared_keys(
    tuples: Seq<Seq<ValueModel>>,
    d: DictModel,
    es: Seq<(ValueModel, ValueModel)>,
) -> bool {
    forall|x: int, i: int, j: int|
        0 <= x < d.entries.len() && 0 <= i < es.len() && 0 <= j < es.len() && i != j ==> !(key_eq(
            tuples,
            #[trigger] es[i].0,
            #[trigger] d.entries[x].0,
        ) && key_eq(tuples, #[trigger] es[j].0, d.entries[x].0))
}

/// Whether `k` is the key of one of the entries `es`.
pub open spec fn key_among(es: Seq<(ValueModel, ValueModel)>, k: ValueModel) -> bool {
    exists|m: int| 0 <= m < es.len() && #[trigger] es[m].0 == k
}

/// Updating dict `d` with entries `es` whose keys are all different keys: the keys
/// the dict held stay first, the others are keys of `es`, and each key of `es` gives
/// its value.
proof fn lemma_update_copies(tuples: Seq<Seq<ValueModel>>, d: DictModel, es: Seq<(ValueModel, ValueModel)>)
    requires
        distinct_keys(tuples, es),
        no_shared_keys(tuples, d, es),
    ensures
        dict_insert_all(tuples, d, es).entries.len() >= d.entries.len(),
        forall|x: int|
            0 <= x < d.entries.len() ==> #[trigger] dict_insert_all(tuples, d, es).entries[x].0
                == d.entries[x].0,
        forall|x: int|
            d.entries.len() <= x < dict_insert_all(tuples, d, es).entries.len() ==> key_among(
                es,
                #[trigger] dict_insert_all(tuples, d, es).entries[x].0,
            ),
        forall|i: int|
            0 <= i < es.len() && key_eq(tuples, es[i].0, es[i].0) ==> #[trigger] dict_get(
                tuples,
                dict_insert_all(tuples, d, es),
                es[i].0,
            ) == Some(es[i].1),
    decreases es.len(),
{
    if es.len() > 0 {
        let prev = es.drop_last();
        let n = prev.len() as int;
        assert(distinct_keys(tuples, prev)) by {
            assert forall|i: int, j: int|
                0 <= i < prev.len() && 0 <= j < prev.len() && i != j implies !key_eq(
                    tuples,
                    #[trigger] prev[i].0,
                    #[trigger] prev[j].0,
                ) by {
                assert(prev[i] == es[i] && prev[j] == es[j]);
            }
        }
        assert(no_shared_keys(tuples, d, prev)) by {
            assert forall|x: int, i: int, j: int|
                0 <= x < d.entries.len() && 0 <= i < prev.len() && 0 <= j < prev.len() && i != j
                    implies !(key_eq(tuples, #[trigger] prev[i].0, #[trigger] d.entries[x].0) && key_eq(
                    tuples,
                    #[trigger] prev[j].0,
                    d.entries[x].0,
                )) by {
                assert(prev[i] == es[i] && prev[j] == es[j]);
            }
        }
        lemma_update_copies(tuples, d, prev);
        let dp = dict_insert_all(tuples, d, prev);
        let (kn, vn) = es.last();
        assert(es[n] == es.last());
        let d2 = dict_insert(tuples, dp, kn, vn);
        assert(d2 == dict_insert_all(tuples, d, es));
        lemma_entry_index_found(tuples, dp.entries, kn);
        if small_int(kn) {
            assert(d2.entries == dp.entries);
        } else if entry_index(tuples, dp.entries, kn) >= 0 {
            assert(d2.entries.len() == dp.entries.len());
            assert(forall|x: int| 0 <= x < dp.entries.len() ==> #[trigger] d2.entries[x].0 == dp.entries[x].0);
        } else {
            assert(d2.entries == dp.entries.push((kn, vn)));
        }
        // entries' keys
        assert forall|x: int|
            d.entries.len() <= x < d2.entries.len() implies key_among(es, #[trigger] d2.entries[x].0) by {
            if x < dp.entries.len() {
                assert(key_among(prev, dp.entries[x].0));
                let m = choose|m: int| 0 <= m < prev.len() && #[trigger] prev[m].0 == dp.entries[x].0;
                assert(es[m] == prev[m]);
                lemma_entry_index_found(tuples, dp.entries, kn);
                assert(d2.entries[x].0 == dp.entries[x].0);
            } else {
                assert(d2.entries[x].0 == kn);
                assert(es[n].0 == kn);
                assert(key_among(es, es[n].0));
            }
        }
        assert forall|x: int| 0 <= x < d.entries.len() implies #[trigger] d2.entries[x].0 == d.entries[x].0 by {
            lemma_entry_index_found(tuples, dp.entries, kn);
            assert(dp.entries[x].0 == d.entries[x].0);
        }
        // values
        assert forall|i: int|
            0 <= i < es.len() && key_eq(tuples, es[i].0, es[i].0) implies #[trigger] dict_get(
                tuples,
                d2,
                es[i].0,
            ) == Some(es[i].1) by {
            if i < n {
                let ki = es[i].0;
                assert(prev[i] == es[i]);
                assert(dict_get(tuples, dp, ki) == Some(es[i].1));
                assert(!key_eq(tuples, ki, kn) && !key_eq(tuples, kn, ki));
                if small_int(kn) {
                    let nk = int_of(kn) as i64;
                    let p = int_entry_index(dp.int_entries, nk);
                    lemma_int_entry_index_found(dp.int_entries, nk);
                    if small_int(ki) {
                        let q = int_entry_index(dp.int_entries, int_of(ki) as i64);
                        lemma_int_entry_index_found(dp.int_entries, int_of(ki) as i64);
                        if p >= 0 {
                            lemma_int_entry_index_same_keys(dp.int_entries, d2.int_entries, int_of(ki) as i64);
                            assert(q != p);
                        } else {
                            assert(d2.int_entries.drop_last() =~= dp.int_entries);
                        }
                    }
                } else {
                    let p = entry_index(tuples, dp.entries, kn);
                    lemma_entry_index_found(tuples, dp.entries, kn);
                    if !small_int(ki) {
                        let q = entry_index(tuples, dp.entries, ki);
                        lemma_entry_index_found(tuples, dp.entries, ki);
                        if p >= 0 {
                            lemma_entry_index_same_keys(tuples, dp.entries, d2.entries, ki);
                            if q == p {
                                let e = dp.entries[p].0;
                                if p < d.entries.len() {
                                    assert(e == d.entries[p].0);
                                    assert(key_eq(tuples, es[i].0, d.entries[p].0));
                                    assert(key_eq(tuples, es[n].0, d.entries[p].0));
                                } else {
                                    assert(key_among(prev, e));
                                    let m = choose|m: int| 0 <= m < prev.len() && #[trigger] prev[m].0 == e;
                                    assert(es[m] == prev[m]);
                                    assert(key_eq(tuples, es[n].0, es[m].0));
                                }
                            }
                        } else {
                            assert(d2.entries.drop_last() =~= dp.entries);
                        }
                    }
                }
            } else {
                crate::laws::law_dict_get_after_insert(tuples, dp, kn, vn);
            }
        }
    }
}

/// Updating a dict copies the other's entries: after updating dict `d` with entries
/// whose keys are all different keys, each of those keys (but a NaN) gives its value
/// from the entries, whatever kind of key it is. (Where a key `d` held is the same
/// key as two of them, which only keys holding floats can be, this is left out.)
pub proof fn law_update_copies_entries(
    tuples: Seq<Seq<ValueModel>>,
    d: DictModel,
    es: Seq<(ValueModel, ValueModel)>,
)
    requires
        distinct_keys(tuples, es),
        no_shared_keys(tuples, d, es),
    ensures
        forall|i: int|
            0 <= i < es.len() && key_eq(tuples, es[i].0, es[i].0) ==> #[trigger] dict_get(
                tuples,
                dict_insert_all(tuples, d, es),
                es[i].0,
            ) == Some(es[i].1),
{
    lemma_update_copies(tuples, d, es);
}

/// Comparing items in order: `Some(true)` when each pair compares `Some(true)`, and
/// `Some(false)` only at a pair that compares `Some(false)` after pairs that all
/// compare `Some(true)`.
proof fn lemma_items_eq_meaning(
    h: HeapModel,
    xs: Seq<ValueModel>,
    ys: Seq<ValueModel>,
    n: nat,
    fuel: nat,
)
    ensures
        crate::equality::items_eq(h, xs, ys, n, fuel) == Some(true) ==> forall|i: int|
            0 <= i < n ==> #[trigger] value_eq(h, xs[i], ys[i], fuel) == Some(true),
        crate::equality::items_eq(h, xs, ys, n, fuel) == Some(false) ==> exists|i: int|
            0 <= i < n && #[trigger] value_eq(h, xs[i], ys[i], fuel) == Some(false),
        (forall|i: int| 0 <= i < n ==> #[trigger] value_eq(h, xs[i], ys[i], fuel) == Some(true))
            ==> crate::equality::items_eq(h, xs, ys, n, fuel) == Some(true),
    decreases n,
{
    if n > 0 {
        lemma_items_eq_meaning(h, xs, ys, (n - 1) as nat, fuel);
        let k = n - 1;
        if crate::equality::items_eq(h, xs, ys, (n - 1) as nat, fuel) == Some(false) {
            let i = choose|i: int| 0 <= i < n - 1 && #[trigger] value_eq(h, xs[i], ys[i], fuel) == Some(false);
            assert(0 <= i < n && value_eq(h, xs[i], ys[i], fuel) == Some(false));
        }
        if crate::equality::items_eq(h, xs, ys, n, fuel) == Some(false)
            && crate::equality::items_eq(h, xs, ys, (n - 1) as nat, fuel) == Some(true) {
            assert(value_eq(h, xs[k], ys[k], fuel) == Some(false));
        }
    }
}

/// Lists compare item by item over the items both have, tuples item by item when
/// they have as many: with fuel left, two lists compare `Some(true)` exactly when
/// each pair of items at the same place (up to the shorter length) does; two tuples
/// exactly when they have as many items and each pair does; and `Some(false)` comes
/// only from a pair of items that compare `Some(false)`, or from tuples of different
/// lengths.
pub proof fn law_sequences_compare_item_by_item(h: HeapModel, x: usize, y: usize, fuel: nat)
    requires
        fuel > 0,
    ensures
        ({
            let xs = h.lists[x as int];
            let ys = h.lists[y as int];
            let n = if xs.len() <= ys.len() { xs.len() } else { ys.len() };
            &&& value_eq(h, ValueModel::List(x), ValueModel::List(y), fuel) == Some(true) <==> forall|i: int|
                0 <= i < n ==> #[trigger] value_eq(h, xs[i], ys[i], (fuel - 1) as nat) == Some(true)
            &&& value_eq(h, ValueModel::List(x), ValueModel::List(y), fuel) == Some(false) ==> exists|i: int|
                0 <= i < n && #[trigger] value_eq(h, xs[i], ys[i], (fuel - 1) as nat) == Some(false)
        }),
        ({
            let xs = h.tuples[x as int];
            let ys = h.tuples[y as int];
            &&& value_eq(h, ValueModel::Tuple(x), ValueModel::Tuple(y), fuel) == Some(true) <==> (xs.len()
                == ys.len() && forall|i: int|
                0 <= i < xs.len() ==> #[trigger] value_eq(h, xs[i], ys[i], (fuel - 1) as nat) == Some(true))
            &&& value_eq(h, ValueModel::Tuple(x), ValueModel::Tuple(y), fuel) == Some(false) ==> (xs.len()
                != ys.len() || exists|i: int|
                0 <= i < xs.len() && #[trigger] value_eq(h, xs[i], ys[i], (fuel - 1) as nat) == Some(false))
        }),
{
    let xs = h.lists[x as int];
    let ys = h.lists[y as int];
    let n: nat = if xs.len() <= ys.len() { xs.len() } else { ys.len() };
    lemma_items_eq_meaning(h, xs, ys, n, (fuel - 1) as nat);
    let ts = h.tuples[x as int];
    let us = h.tuples[y as int];
    lemma_items_eq_meaning(h, ts, us, ts.len(), (fuel - 1) as nat);
}

/// Two distinct sets compare equal exactly when they hold as many items of each
/// part and the second holds every item of the first.
pub proof fn law_sets_compare_by_items(h: HeapModel, x: usize, y: usize, fuel: nat)
    requires
        x != y,
        h.set_wf(h.sets[x as int]),
    ensures
        value_eq(h, ValueModel::PySet(x), ValueModel::PySet(y), fuel) == Some(true) <==> (
        h.sets[x as int].items.len() == h.sets[y as int].items.len() && h.sets[x as int].ints.len()
            == h.sets[y as int].ints.len() && crate::heap::set_items(h.sets[x as int]).len()
            == crate::heap::set_items(h.sets[y as int]).len() && forall|i: int|
            0 <= i < crate::heap::set_items(h.sets[x as int]).len() ==> set_holds(
                h.tuples,
                h.sets[y as int],
                #[trigger] crate::heap::set_items(h.sets[x as int])[i],
            )),
{
    let sx = h.sets[x as int];
    let sy = h.sets[y as int];
    let all = crate::heap::set_items(sx);
    assert forall|i: int| 0 <= i < sx.items.len() implies all[i] == sx.items[i] && !small_int(
        #[trigger] sx.items[i],
    ) by {}
    assert forall|i: int| 0 <= i < sx.ints.len() implies #[trigger] all[sx.items.len() + i]
        == ValueModel::Number(crate::number::NumberModel::Int(sx.ints[i] as int)) by {}
    if value_eq(h, ValueModel::PySet(x), ValueModel::PySet(y), fuel) == Some(true) {
        assert forall|i: int| 0 <= i < all.len() implies set_holds(h.tuples, sy, #[trigger] all[i]) by {
            if i < sx.items.len() {
                assert(item_index(h.tuples, sy.items, sx.items[i]) >= 0);
            } else {
                let j = i - sx.items.len();
                assert(int_item_index(sy.ints, sx.ints[j]) >= 0);
            }
        }
    }
    if sx.items.len() == sy.items.len() && sx.ints.len() == sy.ints.len() && forall|i: int|
        0 <= i < all.len() ==> set_holds(h.tuples, sy, #[trigger] all[i]) {
        assert forall|i: int| 0 <= i < sx.items.len() implies item_index(
            h.tuples,
            sy.items,
            #[trigger] sx.items[i],
        ) >= 0 by {
            assert(set_holds(h.tuples, sy, all[i]));
        }
        assert forall|i: int| 0 <= i < sx.ints.len() implies int_item_index(sy.ints, #[trigger] sx.ints[i]) >= 0 by {
            assert(set_holds(h.tuples, sy, all[sx.items.len() + i]));
        }
    }
}

/// A name is looked up by its first entry: `name_index` gives the first entry with
/// that name, or -1 where no entry has it (so a player's slot, or a game's data, is
/// that of the first entry with the name asked for).
pub proof fn law_lookup_by_first_name<T>(entries: Seq<(String, T)>, name: Seq<char>)
    ensures
        -1 <= crate::multidata::name_index(entries, name) < entries.len(),
        crate::multidata::name_index(entries, name) >= 0 ==> entries[crate::multidata::name_index(
            entries,
            name,
        )].0@ == name,
        forall|j: int|
            0 <= j < entries.len() && (crate::multidata::name_index(entries, name) == -1 || j
                < crate::multidata::name_index(entries, name)) ==> (#[trigger] entries[j]).0@ != name,
    decreases entries.len(),
{
    if entries.len() > 0 {
        law_lookup_by_first_name(entries.drop_last(), name);
        assert forall|j: int|
            0 <= j < entries.len() && (crate::multidata::name_index(entries, name) == -1 || j
                < crate::multidata::name_index(entries, name)) implies (#[trigger] entries[j]).0@ != name by {
            if j < entries.len() - 1 {
                assert(entries.drop_last()[j] == entries[j]);
            }
        }
    }
}

/// The class that `STACK_GLOBAL` gives for a module and a name.
pub open spec fn net_utils_class(name: Seq<char>) -> Option<Class> {
    if name == "NetworkSlot"@ {
        Some(Class::NetworkSlot)
    } else if name == "SlotType"@ {
        Some(Class::SlotType)
    } else if name == "Hint"@ {
        Some(Class::Hint)
    } else {
        None
    }
}

/// `STACK_GLOBAL` takes the module from below the name: with the strings
/// `"NetUtils"` and then a class name on top of the stack, it replaces the two by that
/// class; with the two the other way round, no class is found.
pub proof fn law_stack_global_module_then_name(m: UnpicklerModel, name: Seq<char>)
    requires
        m.stack < m.heap.lists.len(),
        stack_items(m).len() >= 2,
        net_utils_class(name) is Some,
    ensures
        ({
            let s = stack_items(m);
            s[s.len() - 2] == ValueModel::Str("NetUtils"@) && s.last() == ValueModel::Str(name)
                ==> (step_spec(m, op::STACK_GLOBAL) matches Ok(r) && stack_items(r) == s.take(
                s.len() - 2,
            ).push(ValueModel::Callable(net_utils_class(name)->Some_0)) && r.heap.dicts
                == m.heap.dicts && r.heap.tuples == m.heap.tuples && r.heap.sets == m.heap.sets)
        }),
        ({
            let s = stack_items(m);
            s[s.len() - 2] == ValueModel::Str(name) && s.last() == ValueModel::Str("NetUtils"@)
                ==> step_spec(m, op::STACK_GLOBAL) is Err
        }),
{
    reveal_strlit("NetUtils");
    reveal_strlit("NetworkSlot");
    reveal_strlit("SlotType");
    reveal_strlit("Hint");
    let s = stack_items(m);
    assert(s.drop_last().drop_last() =~= s.take(s.len() - 2));
    assert("NetUtils"@ != "Hint"@) by {
        assert("NetUtils"@.len() != "Hint"@.len());
    }
    assert("NetUtils"@ != "NetworkSlot"@) by {
        assert("NetUtils"@.len() != "NetworkSlot"@.len());
    }
    assert("NetUtils"@ != "SlotType"@) by {
        assert("NetUtils"@[0] != "SlotType"@[0]);
    }
}

/// Extending a dict with entries (those whose key cannot be hashed are skipped)
/// leaves it holding every key of the entries that can be (but a NaN), whatever kind
/// of key, and every key it held.
pub proof fn law_extend_holds_keys(
    tuples: Seq<Seq<ValueModel>>,
    d: DictModel,
    es: Seq<(ValueModel, ValueModel)>,
)
    ensures
        forall|i: int|
            0 <= i < es.len() && hashable(tuples, es[i].0) && key_eq(tuples, es[i].0, es[i].0)
                ==> #[trigger] dict_get(
                tuples,
                crate::value_ops::dict_insert_hashable(tuples, d, es),
                es[i].0,
            ) is Some,
        forall|k: ValueModel|
            dict_get(tuples, d, k) is Some ==> #[trigger] dict_get(
                tuples,
                crate::value_ops::dict_insert_hashable(tuples, d, es),
                k,
            ) is Some,
    decreases es.len(),
{
    if es.len() > 0 {
        let prev = es.drop_last();
        law_extend_holds_keys(tuples, d, prev);
        let before = crate::value_ops::dict_insert_hashable(tuples, d, prev);
        let last = es.last();
        assert forall|i: int|
            0 <= i < es.len() && hashable(tuples, es[i].0) && key_eq(tuples, es[i].0, es[i].0)
                implies #[trigger] dict_get(
                tuples,
                crate::value_ops::dict_insert_hashable(tuples, d, es),
                es[i].0,
            ) is Some by {
            if i < es.len() - 1 {
                assert(prev[i] == es[i]);
                assert(dict_get(tuples, before, prev[i].0) is Some);
                if hashable(tuples, last.0) {
                    lemma_dict_insert_keeps_keys(tuples, before, last.0, last.1, es[i].0);
                }
            } else {
                crate::laws::law_dict_get_after_insert(tuples, before, last.0, last.1);
            }
        }
        assert forall|k: ValueModel|
            dict_get(tuples, d, k) is Some implies #[trigger] dict_get(
                tuples,
                crate::value_ops::dict_insert_hashable(tuples, d, es),
                k,
            ) is Some by {
            assert(dict_get(tuples, before, k) is Some);
            if hashable(tuples, last.0) {
                lemma_dict_insert_keeps_keys(tuples, before, last.0, last.1, k);
            }
        }
    }
}

} // verus!
