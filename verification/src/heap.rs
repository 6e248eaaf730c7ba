//! The heap that the shared objects of a pickle live in: mutable lists, dicts and
//! sets, and immutable tuples. A value holds a handle (an index) to each of them,
//! so that one object can be reached from several places, as in Python.

use vstd::prelude::*;

use crate::error::{Error, Kind};
use crate::number::{number_model_eq, Number, NumberModel, N};
use crate::value::{kind_of, Dict, List, PySet, Tuple, Value, ValueModel};

verus! {

/// The contents of a dict: the entries whose key is an integer that fits in an
/// `i64`, kept apart from the others, each part in insertion order.
pub struct DictData {
    entries: Vec<(Value, Value)>,
    int_entries: Vec<(i64, Value)>,
}

/// The contents of a set: the items that are integers fitting in an `i64`, kept
/// apart from the others, each part in insertion order.
pub struct SetData {
    items: Vec<Value>,
    ints: Vec<i64>,
}

/// All the shared objects of one pickle.
pub struct Heap {
    lists: Vec<Vec<Value>>,
    dicts: Vec<DictData>,
    sets: Vec<SetData>,
    tuples: Vec<Vec<Value>>,
}

pub struct DictModel {
    pub entries: Seq<(ValueModel, ValueModel)>,
    pub int_entries: Seq<(i64, ValueModel)>,
}

pub struct SetModel {
    pub items: Seq<ValueModel>,
    pub ints: Seq<i64>,
}

pub struct HeapModel {
    pub lists: Seq<Seq<ValueModel>>,
    pub dicts: Seq<DictModel>,
    pub sets: Seq<SetModel>,
    pub tuples: Seq<Seq<ValueModel>>,
}

pub open spec fn values_model(s: Seq<Value>) -> Seq<ValueModel> {
    s.map_values(|v: Value| v@)
}

impl View for DictData {
    type V = DictModel;

    closed spec fn view(&self) -> DictModel {
        DictModel {
            entries: self.entries@.map_values(|e: (Value, Value)| (e.0@, e.1@)),
            int_entries: self.int_entries@.map_values(|e: (i64, Value)| (e.0, e.1@)),
        }
    }
}

impl View for SetData {
    type V = SetModel;

    closed spec fn view(&self) -> SetModel {
        SetModel { items: values_model(self.items@), ints: self.ints@ }
    }
}

impl View for Heap {
    type V = HeapModel;

    closed spec fn view(&self) -> HeapModel {
        HeapModel {
            lists: self.lists@.map_values(|l: Vec<Value>| values_model(l@)),
            dicts: self.dicts@.map_values(|d: DictData| d@),
            sets: self.sets@.map_values(|s: SetData| s@),
            tuples: self.tuples@.map_values(|t: Vec<Value>| values_model(t@)),
        }
    }
}

/// Tuples can only hold tuples made before them; this orders them.
pub open spec fn rank(v: ValueModel) -> nat {
    match v {
        ValueModel::Tuple(t) => t as nat + 1,
        _ => 0,
    }
}

/// The integers that dicts and sets keep apart.
pub open spec fn small_int(v: ValueModel) -> bool {
    v matches ValueModel::Number(NumberModel::Int(n)) && i64::MIN <= n <= i64::MAX
}

/// The handle of `v`, if any, is one of the heap's.
pub open spec fn valid(h: HeapModel, v: ValueModel) -> bool {
    match v {
        ValueModel::Dict(i) => i < h.dicts.len(),
        ValueModel::List(i) => i < h.lists.len(),
        ValueModel::PySet(i) => i < h.sets.len(),
        ValueModel::Tuple(i) => i < h.tuples.len(),
        _ => true,
    }
}

pub open spec fn all_valid(h: HeapModel, s: Seq<ValueModel>) -> bool {
    forall|i: int| 0 <= i < s.len() ==> #[trigger] valid(h, s[i])
}

/// Whether `v` can be a dict key or a set item: strings, numbers, bools, `None`,
/// and tuples of those.
pub open spec fn hashable(tuples: Seq<Seq<ValueModel>>, v: ValueModel) -> bool
    decreases rank(v),
{
    match v {
        ValueModel::Str(_) => true,
        ValueModel::Number(_) => true,
        ValueModel::Bool(_) => true,
        ValueModel::PyNone => true,
        ValueModel::Tuple(t) => t < tuples.len() && forall|k: int|
            0 <= k < tuples[t as int].len() ==> rank(#[trigger] tuples[t as int][k]) < rank(v)
                && hashable(tuples, tuples[t as int][k]),
        _ => false,
    }
}

/// When two keys are the same key: strings with equal text, numbers that are equal,
/// bools that are equal, `None` and `None`, and tuples of the same length whose items
/// are the same keys.
pub open spec fn key_eq(tuples: Seq<Seq<ValueModel>>, a: ValueModel, b: ValueModel) -> bool
    decreases rank(a),
{
    match (a, b) {
        (ValueModel::Str(x), ValueModel::Str(y)) => x == y,
        (ValueModel::Number(x), ValueModel::Number(y)) => number_model_eq(x, y),
        (ValueModel::Bool(x), ValueModel::Bool(y)) => x == y,
        (ValueModel::PyNone, ValueModel::PyNone) => true,
        (ValueModel::Tuple(s), ValueModel::Tuple(t)) => s < tuples.len() && t < tuples.len()
            && tuples[s as int].len() == tuples[t as int].len() && forall|k: int|
            0 <= k < tuples[s as int].len() ==> rank(#[trigger] tuples[s as int][k]) < rank(a)
                && key_eq(tuples, tuples[s as int][k], tuples[t as int][k]),
        _ => false,
    }
}

impl HeapModel {
    pub open spec fn lists_wf(self) -> bool {
        forall|l: int| 0 <= l < self.lists.len() ==> all_valid(self, #[trigger] self.lists[l])
    }

    pub open spec fn tuples_wf(self) -> bool {
        forall|t: int|
            0 <= t < self.tuples.len() ==> {
                &&& all_valid(self, #[trigger] self.tuples[t])
                &&& forall|k: int|
                    0 <= k < self.tuples[t].len() ==> rank(#[trigger] self.tuples[t][k]) <= t
            }
    }

    pub open spec fn dict_wf(self, d: DictModel) -> bool {
        &&& forall|i: int|
            0 <= i < d.entries.len() ==> {
                &&& valid(self, #[trigger] d.entries[i].0)
                &&& valid(self, d.entries[i].1)
                &&& hashable(self.tuples, d.entries[i].0)
                &&& !small_int(d.entries[i].0)
            }
        &&& forall|i: int| 0 <= i < d.int_entries.len() ==> valid(self, #[trigger] d.int_entries[i].1)
    }

    pub open spec fn dicts_wf(self) -> bool {
        forall|d: int| 0 <= d < self.dicts.len() ==> self.dict_wf(#[trigger] self.dicts[d])
    }

    pub open spec fn set_wf(self, s: SetModel) -> bool {
        forall|i: int|
            0 <= i < s.items.len() ==> {
                &&& valid(self, #[trigger] s.items[i])
                &&& hashable(self.tuples, s.items[i])
                &&& !small_int(s.items[i])
            }
    }

    pub open spec fn sets_wf(self) -> bool {
        forall|s: int| 0 <= s < self.sets.len() ==> self.set_wf(#[trigger] self.sets[s])
    }

    /// Every handle in the heap is one of its own, tuples only hold older tuples,
    /// and dict keys and set items are hashable and kept in the right part.
    pub open spec fn wf(self) -> bool {
        &&& self.lists_wf()
        &&& self.tuples_wf()
        &&& self.dicts_wf()
        &&& self.sets_wf()
    }
}

/// The integer of a number, or 0.
pub open spec fn int_of(v: ValueModel) -> int {
    match v {
        ValueModel::Number(NumberModel::Int(n)) => n,
        _ => 0,
    }
}

/// The position of the first entry whose key is the same key as `k`, or -1.
pub open spec fn entry_index(
    tuples: Seq<Seq<ValueModel>>,
    es: Seq<(ValueModel, ValueModel)>,
    k: ValueModel,
) -> int
    decreases es.len(),
{
    if es.len() == 0 {
        -1
    } else {
        let i = entry_index(tuples, es.drop_last(), k);
        if i >= 0 {
            i
        } else if key_eq(tuples, k, es.last().0) {
            es.len() - 1
        } else {
            -1
        }
    }
}

/// The position of the first entry with integer key `k`, or -1.
pub open spec fn int_entry_index(es: Seq<(i64, ValueModel)>, k: i64) -> int
    decreases es.len(),
{
    if es.len() == 0 {
        -1
    } else {
        let i = int_entry_index(es.drop_last(), k);
        if i >= 0 {
            i
        } else if es.last().0 == k {
            es.len() - 1
        } else {
            -1
        }
    }
}

/// What a dict holds after `insert(k, v)`: if it has the key already, the key stays
/// where it is and its value becomes `v`; otherwise the entry goes at the end.
pub open spec fn dict_insert(
    tuples: Seq<Seq<ValueModel>>,
    d: DictModel,
    k: ValueModel,
    v: ValueModel,
) -> DictModel {
    if small_int(k) {
        let n = int_of(k) as i64;
        let i = int_entry_index(d.int_entries, n);
        if i >= 0 {
            DictModel { int_entries: d.int_entries.update(i, (n, v)), ..d }
        } else {
            DictModel { int_entries: d.int_entries.push((n, v)), ..d }
        }
    } else {
        let i = entry_index(tuples, d.entries, k);
        if i >= 0 {
            DictModel { entries: d.entries.update(i, (d.entries[i].0, v)), ..d }
        } else {
            DictModel { entries: d.entries.push((k, v)), ..d }
        }
    }
}

/// The value a dict holds for key `k`, if any.
pub open spec fn dict_get(tuples: Seq<Seq<ValueModel>>, d: DictModel, k: ValueModel) -> Option<
    ValueModel,
> {
    if small_int(k) {
        let i = int_entry_index(d.int_entries, int_of(k) as i64);
        if i >= 0 {
            Some(d.int_entries[i].1)
        } else {
            None
        }
    } else {
        let i = entry_index(tuples, d.entries, k);
        if i >= 0 {
            Some(d.entries[i].1)
        } else {
            None
        }
    }
}

/// The number of entries of a dict.
pub open spec fn dict_len(d: DictModel) -> nat {
    d.entries.len() + d.int_entries.len()
}

/// A count as a `usize`, capped at `usize::MAX`.
pub open spec fn capped_len(n: nat) -> usize {
    if n <= usize::MAX {
        n as usize
    } else {
        usize::MAX
    }
}

/// The entries of a dict in the order it gives them: the entries with other keys
/// first, then those with integer keys.
pub open spec fn dict_items(d: DictModel) -> Seq<(ValueModel, ValueModel)> {
    d.entries + d.int_entries.map_values(
        |e: (i64, ValueModel)| (ValueModel::Number(NumberModel::Int(e.0 as int)), e.1),
    )
}

/// What a dict holds after inserting the entries `es` in order.
pub open spec fn dict_insert_all(
    tuples: Seq<Seq<ValueModel>>,
    d: DictModel,
    es: Seq<(ValueModel, ValueModel)>,
) -> DictModel
    decreases es.len(),
{
    if es.len() == 0 {
        d
    } else {
        dict_insert(tuples, dict_insert_all(tuples, d, es.drop_last()), es.last().0, es.last().1)
    }
}

proof fn lemma_entry_index_prefix(
    tuples: Seq<Seq<ValueModel>>,
    es: Seq<(ValueModel, ValueModel)>,
    k: ValueModel,
    m: int,
)
    requires
        0 <= m <= es.len(),
        entry_index(tuples, es.take(m), k) >= 0,
    ensures
        entry_index(tuples, es, k) == entry_index(tuples, es.take(m), k),
    decreases es.len(),
{
    if m == es.len() {
        assert(es.take(m) =~= es);
    } else {
        assert(es.drop_last().take(m) =~= es.take(m));
        lemma_entry_index_prefix(tuples, es.drop_last(), k, m);
    }
}

proof fn lemma_int_entry_index_prefix(es: Seq<(i64, ValueModel)>, k: i64, m: int)
    requires
        0 <= m <= es.len(),
        int_entry_index(es.take(m), k) >= 0,
    ensures
        int_entry_index(es, k) == int_entry_index(es.take(m), k),
    decreases es.len(),
{
    if m == es.len() {
        assert(es.take(m) =~= es);
    } else {
        assert(es.drop_last().take(m) =~= es.take(m));
        lemma_int_entry_index_prefix(es.drop_last(), k, m);
    }
}

proof fn lemma_entry_index_range(
    tuples: Seq<Seq<ValueModel>>,
    es: Seq<(ValueModel, ValueModel)>,
    k: ValueModel,
)
    ensures
        -1 <= entry_index(tuples, es, k) < es.len(),
        entry_index(tuples, es, k) >= 0 ==> key_eq(
            tuples,
            k,
            es[entry_index(tuples, es, k)].0,
        ),
    decreases es.len(),
{
    if es.len() > 0 {
        lemma_entry_index_range(tuples, es.drop_last(), k);
    }
}

proof fn lemma_int_entry_index_range(es: Seq<(i64, ValueModel)>, k: i64)
    ensures
        -1 <= int_entry_index(es, k) < es.len(),
        int_entry_index(es, k) >= 0 ==> es[int_entry_index(es, k)].0 == k,
    decreases es.len(),
{
    if es.len() > 0 {
        lemma_int_entry_index_range(es.drop_last(), k);
    }
}

/// The position of the first item that is the same key as `k`, or -1.
pub open spec fn item_index(tuples: Seq<Seq<ValueModel>>, items: Seq<ValueModel>, k: ValueModel) -> int
    decreases items.len(),
{
    if items.len() == 0 {
        -1
    } else {
        let i = item_index(tuples, items.drop_last(), k);
        if i >= 0 {
            i
        } else if key_eq(tuples, k, items.last()) {
            items.len() - 1
        } else {
            -1
        }
    }
}

/// The position of the first integer item equal to `k`, or -1.
pub open spec fn int_item_index(ints: Seq<i64>, k: i64) -> int
    decreases ints.len(),
{
    if ints.len() == 0 {
        -1
    } else {
        let i = int_item_index(ints.drop_last(), k);
        if i >= 0 {
            i
        } else if ints.last() == k {
            ints.len() - 1
        } else {
            -1
        }
    }
}

/// What a set holds after `insert(k)`: unchanged if it has the item already,
/// otherwise the item goes at the end.
pub open spec fn set_insert(tuples: Seq<Seq<ValueModel>>, s: SetModel, k: ValueModel) -> SetModel {
    if small_int(k) {
        let n = int_of(k) as i64;
        if int_item_index(s.ints, n) >= 0 {
            s
        } else {
            SetModel { ints: s.ints.push(n), ..s }
        }
    } else {
        if item_index(tuples, s.items, k) >= 0 {
            s
        } else {
            SetModel { items: s.items.push(k), ..s }
        }
    }
}

/// What a set holds after inserting the items `ks` in order, skipping those that
/// are not hashable.
pub open spec fn set_insert_all(tuples: Seq<Seq<ValueModel>>, s: SetModel, ks: Seq<ValueModel>) -> SetModel
    decreases ks.len(),
{
    if ks.len() == 0 {
        s
    } else {
        let prev = set_insert_all(tuples, s, ks.drop_last());
        if hashable(tuples, ks.last()) {
            set_insert(tuples, prev, ks.last())
        } else {
            prev
        }
    }
}

/// The items of a set in the order it gives them: the other items first, then the
/// integers.
pub open spec fn set_items(s: SetModel) -> Seq<ValueModel> {
    s.items + s.ints.map_values(|n: i64| ValueModel::Number(NumberModel::Int(n as int)))
}

proof fn lemma_item_index_prefix(
    tuples: Seq<Seq<ValueModel>>,
    items: Seq<ValueModel>,
    k: ValueModel,
    m: int,
)
    requires
        0 <= m <= items.len(),
        item_index(tuples, items.take(m), k) >= 0,
    ensures
        item_index(tuples, items, k) == item_index(tuples, items.take(m), k),
    decreases items.len(),
{
    if m == items.len() {
        assert(items.take(m) =~= items);
    } else {
        assert(items.drop_last().take(m) =~= items.take(m));
        lemma_item_index_prefix(tuples, items.drop_last(), k, m);
    }
}

proof fn lemma_int_item_index_prefix(ints: Seq<i64>, k: i64, m: int)
    requires
        0 <= m <= ints.len(),
        int_item_index(ints.take(m), k) >= 0,
    ensures
        int_item_index(ints, k) == int_item_index(ints.take(m), k),
    decreases ints.len(),
{
    if m == ints.len() {
        assert(ints.take(m) =~= ints);
    } else {
        assert(ints.drop_last().take(m) =~= ints.take(m));
        lemma_int_item_index_prefix(ints.drop_last(), k, m);
    }
}

/// The two heaps have objects of each sort in the same number, and the same tuples.
pub open spec fn same_shape(h0: HeapModel, h1: HeapModel) -> bool {
    &&& h0.lists.len() == h1.lists.len()
    &&& h0.dicts.len() == h1.dicts.len()
    &&& h0.sets.len() == h1.sets.len()
    &&& h0.tuples == h1.tuples
}

/// The second heap has at least as many objects of each sort, and starts with the
/// same tuples.
pub open spec fn grows(h0: HeapModel, h1: HeapModel) -> bool {
    &&& h0.lists.len() <= h1.lists.len()
    &&& h0.dicts.len() <= h1.dicts.len()
    &&& h0.sets.len() <= h1.sets.len()
    &&& h0.tuples.len() <= h1.tuples.len()
    &&& h0.tuples == h1.tuples.take(h0.tuples.len() as int)
}

proof fn lemma_hashable_grows(h0: HeapModel, h1: HeapModel, v: ValueModel)
    requires
        h0.tuples_wf(),
        grows(h0, h1),
        valid(h0, v),
    ensures
        hashable(h0.tuples, v) == hashable(h1.tuples, v),
    decreases rank(v),
{
    if let ValueModel::Tuple(t) = v {
        assert(h1.tuples[t as int] == h0.tuples[t as int]);
        assert forall|k: int| 0 <= k < h0.tuples[t as int].len() implies hashable(
            h0.tuples,
            #[trigger] h0.tuples[t as int][k],
        ) == hashable(h1.tuples, h0.tuples[t as int][k]) by {
            assert(rank(h0.tuples[t as int][k]) <= t);
            assert(valid(h0, h0.tuples[t as int][k]));
            lemma_hashable_grows(h0, h1, h0.tuples[t as int][k]);
        }
    }
}

proof fn lemma_key_eq_grows(h0: HeapModel, h1: HeapModel, a: ValueModel, b: ValueModel)
    requires
        h0.tuples_wf(),
        grows(h0, h1),
        valid(h0, a),
        valid(h0, b),
    ensures
        key_eq(h0.tuples, a, b) == key_eq(h1.tuples, a, b),
    decreases rank(a),
{
    if let (ValueModel::Tuple(s), ValueModel::Tuple(t)) = (a, b) {
        assert(h1.tuples[s as int] == h0.tuples[s as int]);
        assert(h1.tuples[t as int] == h0.tuples[t as int]);
        if h0.tuples[s as int].len() == h0.tuples[t as int].len() {
            assert forall|k: int| 0 <= k < h0.tuples[s as int].len() implies key_eq(
                h0.tuples,
                #[trigger] h0.tuples[s as int][k],
                h0.tuples[t as int][k],
            ) == key_eq(h1.tuples, h0.tuples[s as int][k], h0.tuples[t as int][k]) by {
                assert(rank(h0.tuples[s as int][k]) <= s);
                assert(valid(h0, h0.tuples[s as int][k]));
                assert(valid(h0, h0.tuples[t as int][k]));
                lemma_key_eq_grows(h0, h1, h0.tuples[s as int][k], h0.tuples[t as int][k]);
            }
        }
    }
}

/// What stays well formed when the heap grows.
proof fn lemma_grows(h0: HeapModel, h1: HeapModel)
    requires
        h0.wf(),
        grows(h0, h1),
    ensures
        forall|v: ValueModel| valid(h0, v) ==> #[trigger] valid(h1, v),
        forall|v: ValueModel| #[trigger]
            valid(h0, v) ==> hashable(h0.tuples, v) == hashable(h1.tuples, v),
        forall|s: Seq<ValueModel>| all_valid(h0, s) ==> #[trigger] all_valid(h1, s),
        forall|d: DictModel| h0.dict_wf(d) ==> #[trigger] h1.dict_wf(d),
        forall|s: SetModel| h0.set_wf(s) ==> #[trigger] h1.set_wf(s),
{
    assert forall|v: ValueModel| #[trigger] valid(h0, v) implies hashable(h0.tuples, v) == hashable(
        h1.tuples,
        v,
    ) by {
        lemma_hashable_grows(h0, h1, v);
    }
    assert forall|s: Seq<ValueModel>| all_valid(h0, s) implies #[trigger] all_valid(h1, s) by {
        assert forall|i: int| 0 <= i < s.len() implies #[trigger] valid(h1, s[i]) by {
            assert(valid(h0, s[i]));
        }
    }
    assert forall|d: DictModel| h0.dict_wf(d) implies #[trigger] h1.dict_wf(d) by {
        assert forall|i: int| 0 <= i < d.entries.len() implies {
            &&& valid(h1, #[trigger] d.entries[i].0)
            &&& valid(h1, d.entries[i].1)
            &&& hashable(h1.tuples, d.entries[i].0)
            &&& !small_int(d.entries[i].0)
        } by {
            assert(valid(h0, d.entries[i].0));
            assert(valid(h0, d.entries[i].1));
            lemma_hashable_grows(h0, h1, d.entries[i].0);
        }
        assert forall|i: int| 0 <= i < d.int_entries.len() implies valid(
            h1,
            #[trigger] d.int_entries[i].1,
        ) by {
            assert(valid(h0, d.int_entries[i].1));
        }
    }
    assert forall|s: SetModel| h0.set_wf(s) implies #[trigger] h1.set_wf(s) by {
        assert forall|i: int| 0 <= i < s.items.len() implies {
            &&& valid(h1, #[trigger] s.items[i])
            &&& hashable(h1.tuples, s.items[i])
            &&& !small_int(s.items[i])
        } by {
            assert(valid(h0, s.items[i]));
            lemma_hashable_grows(h0, h1, s.items[i]);
        }
    }
}

/// Replacing the contents of one list keeps the heap well formed.
proof fn lemma_update_list(h0: HeapModel, h1: HeapModel, l: int, s: Seq<ValueModel>)
    requires
        h0.wf(),
        0 <= l < h0.lists.len(),
        all_valid(h0, s),
        h1 == (HeapModel { lists: h0.lists.update(l, s), ..h0 }),
    ensures
        h1.wf(),
{
    assert(grows(h0, h1)) by {
        assert(h0.tuples == h1.tuples.take(h0.tuples.len() as int));
    }
    lemma_grows(h0, h1);
    assert forall|i: int| 0 <= i < h1.lists.len() implies all_valid(h1, #[trigger] h1.lists[i]) by {
        if i != l {
            assert(all_valid(h0, h0.lists[i]));
        }
    }
    assert forall|t: int| 0 <= t < h1.tuples.len() implies all_valid(h1, #[trigger] h1.tuples[t]) by {
        assert(all_valid(h0, h0.tuples[t]));
    }
    assert forall|d: int| 0 <= d < h1.dicts.len() implies h1.dict_wf(#[trigger] h1.dicts[d]) by {
        assert(h0.dict_wf(h0.dicts[d]));
    }
    assert forall|i: int| 0 <= i < h1.sets.len() implies h1.set_wf(#[trigger] h1.sets[i]) by {
        assert(h0.set_wf(h0.sets[i]));
    }
}

/// Replacing the contents of one dict keeps the heap well formed.
proof fn lemma_update_dict(h0: HeapModel, h1: HeapModel, d: int, m: DictModel)
    requires
        h0.wf(),
        0 <= d < h0.dicts.len(),
        h0.dict_wf(m),
        h1 == (HeapModel { dicts: h0.dicts.update(d, m), ..h0 }),
    ensures
        h1.wf(),
{
    assert(grows(h0, h1)) by {
        assert(h0.tuples == h1.tuples.take(h0.tuples.len() as int));
    }
    lemma_grows(h0, h1);
    assert forall|i: int| 0 <= i < h1.lists.len() implies all_valid(h1, #[trigger] h1.lists[i]) by {
        assert(all_valid(h0, h0.lists[i]));
    }
    assert forall|t: int| 0 <= t < h1.tuples.len() implies all_valid(h1, #[trigger] h1.tuples[t]) by {
        assert(all_valid(h0, h0.tuples[t]));
    }
    assert forall|i: int| 0 <= i < h1.dicts.len() implies h1.dict_wf(#[trigger] h1.dicts[i]) by {
        if i != d {
            assert(h0.dict_wf(h0.dicts[i]));
        }
    }
    assert forall|i: int| 0 <= i < h1.sets.len() implies h1.set_wf(#[trigger] h1.sets[i]) by {
        assert(h0.set_wf(h0.sets[i]));
    }
}

/// Replacing the contents of one set keeps the heap well formed.
proof fn lemma_update_set(h0: HeapModel, h1: HeapModel, s: int, m: SetModel)
    requires
        h0.wf(),
        0 <= s < h0.sets.len(),
        h0.set_wf(m),
        h1 == (HeapModel { sets: h0.sets.update(s, m), ..h0 }),
    ensures
        h1.wf(),
{
    assert(grows(h0, h1)) by {
        assert(h0.tuples == h1.tuples.take(h0.tuples.len() as int));
    }
    lemma_grows(h0, h1);
    assert forall|i: int| 0 <= i < h1.lists.len() implies all_valid(h1, #[trigger] h1.lists[i]) by {
        assert(all_valid(h0, h0.lists[i]));
    }
    assert forall|t: int| 0 <= t < h1.tuples.len() implies all_valid(h1, #[trigger] h1.tuples[t]) by {
        assert(all_valid(h0, h0.tuples[t]));
    }
    assert forall|i: int| 0 <= i < h1.dicts.len() implies h1.dict_wf(#[trigger] h1.dicts[i]) by {
        assert(h0.dict_wf(h0.dicts[i]));
    }
    assert forall|i: int| 0 <= i < h1.sets.len() implies h1.set_wf(#[trigger] h1.sets[i]) by {
        if i != s {
            assert(h0.set_wf(h0.sets[i]));
        }
    }
}

/// Adding an object of any sort keeps the heap well formed, if the new object is.
proof fn lemma_add_object(h0: HeapModel, h1: HeapModel)
    requires
        h0.wf(),
        grows(h0, h1),
        h1.lists.take(h0.lists.len() as int) == h0.lists,
        h1.dicts.take(h0.dicts.len() as int) == h0.dicts,
        h1.sets.take(h0.sets.len() as int) == h0.sets,
        forall|l: int| h0.lists.len() <= l < h1.lists.len() ==> all_valid(h1, #[trigger] h1.lists[l]),
        forall|d: int| h0.dicts.len() <= d < h1.dicts.len() ==> h1.dict_wf(#[trigger] h1.dicts[d]),
        forall|s: int| h0.sets.len() <= s < h1.sets.len() ==> h1.set_wf(#[trigger] h1.sets[s]),
        forall|t: int|
            h0.tuples.len() <= t < h1.tuples.len() ==> {
                &&& all_valid(h1, #[trigger] h1.tuples[t])
                &&& forall|k: int| 0 <= k < h1.tuples[t].len() ==> rank(#[trigger] h1.tuples[t][k]) <= t
            },
    ensures
        h1.wf(),
{
    lemma_grows(h0, h1);
    assert forall|i: int| 0 <= i < h1.lists.len() implies all_valid(h1, #[trigger] h1.lists[i]) by {
        if i < h0.lists.len() {
            assert(h1.lists[i] == h0.lists[i]);
            assert(all_valid(h0, h0.lists[i]));
        }
    }
    assert forall|t: int| 0 <= t < h1.tuples.len() implies {
        &&& all_valid(h1, #[trigger] h1.tuples[t])
        &&& forall|k: int| 0 <= k < h1.tuples[t].len() ==> rank(#[trigger] h1.tuples[t][k]) <= t
    } by {
        if t < h0.tuples.len() {
            assert(h1.tuples[t] == h0.tuples[t]);
            assert(all_valid(h0, h0.tuples[t]));
        }
    }
    assert forall|i: int| 0 <= i < h1.dicts.len() implies h1.dict_wf(#[trigger] h1.dicts[i]) by {
        if i < h0.dicts.len() {
            assert(h1.dicts[i] == h0.dicts[i]);
            assert(h0.dict_wf(h0.dicts[i]));
        }
    }
    assert forall|i: int| 0 <= i < h1.sets.len() implies h1.set_wf(#[trigger] h1.sets[i]) by {
        if i < h0.sets.len() {
            assert(h1.sets[i] == h0.sets[i]);
            assert(h0.set_wf(h0.sets[i]));
        }
    }
}

impl Heap {
    /// An empty heap.
    pub fn new() -> (r: Heap)
        ensures
            r@.wf(),
            r@.lists.len() == 0,
            r@.dicts.len() == 0,
            r@.sets.len() == 0,
            r@.tuples.len() == 0,
    {
        let r = Heap { lists: Vec::new(), dicts: Vec::new(), sets: Vec::new(), tuples: Vec::new() };
        assert(r@.lists =~= Seq::empty());
        assert(r@.dicts =~= Seq::empty());
        assert(r@.sets =~= Seq::empty());
        assert(r@.tuples =~= Seq::empty());
        r
    }
}

impl Heap {
    /// Whether `v` can be a dict key or a set item.
    pub fn is_hashable(&self, v: &Value) -> (r: bool)
        requires
            self@.wf(),
            valid(self@, v@),
        ensures
            r == hashable(self@.tuples, v@),
        decreases rank(v@),
    {
        match v {
            Value::Tuple(t) => {
                let items = &self.tuples[t.0];
                proof {
                    assert(values_model(items@) == self@.tuples[t.0 as int]);
                }
                let mut k: usize = 0;
                while k < items.len()
                    invariant
                        self@.wf(),
                        t.0 < self@.tuples.len(),
                        values_model(items@) == self@.tuples[t.0 as int],
                        v@ == ValueModel::Tuple(t.0),
                        0 <= k <= items.len(),
                        forall|j: int|
                            0 <= j < k ==> rank(#[trigger] self@.tuples[t.0 as int][j]) < rank(v@)
                                && hashable(self@.tuples, self@.tuples[t.0 as int][j]),
                    decreases items.len() - k,
                {
                    proof {
                        assert(self@.tuples[t.0 as int][k as int] == items@[k as int]@);
                        assert(all_valid(self@, self@.tuples[t.0 as int]));
                        assert(valid(self@, self@.tuples[t.0 as int][k as int]));
                        assert(rank(self@.tuples[t.0 as int][k as int]) <= t.0);
                    }
                    if !self.is_hashable(&items[k]) {
                        return false;
                    }
                    k += 1;
                }
                true
            },
            Value::Str(_) | Value::Number(_) | Value::Bool(_) | Value::PyNone(_) => true,
            _ => false,
        }
    }

    /// Whether `a` and `b` are the same key.
    pub fn keys_equal(&self, a: &Value, b: &Value) -> (r: bool)
        requires
            self@.wf(),
            valid(self@, a@),
            valid(self@, b@),
        ensures
            r == key_eq(self@.tuples, a@, b@),
        decreases rank(a@),
    {
        match (a, b) {
            (Value::Str(x), Value::Str(y)) => x.equals(y),
            (Value::Number(x), Value::Number(y)) => *x == *y,
            (Value::Bool(x), Value::Bool(y)) => x.get() == y.get(),
            (Value::PyNone(_), Value::PyNone(_)) => true,
            (Value::Tuple(s), Value::Tuple(t)) => {
                let xs = &self.tuples[s.0];
                let ys = &self.tuples[t.0];
                proof {
                    assert(values_model(xs@) == self@.tuples[s.0 as int]);
                    assert(values_model(ys@) == self@.tuples[t.0 as int]);
                }
                if xs.len() != ys.len() {
                    return false;
                }
                let mut k: usize = 0;
                while k < xs.len()
                    invariant
                        self@.wf(),
                        s.0 < self@.tuples.len(),
                        t.0 < self@.tuples.len(),
                        values_model(xs@) == self@.tuples[s.0 as int],
                        values_model(ys@) == self@.tuples[t.0 as int],
                        xs.len() == ys.len(),
                        a@ == ValueModel::Tuple(s.0),
                        b@ == ValueModel::Tuple(t.0),
                        0 <= k <= xs.len(),
                        forall|j: int|
                            0 <= j < k ==> rank(#[trigger] self@.tuples[s.0 as int][j]) < rank(a@)
                                && key_eq(
                                self@.tuples,
                                self@.tuples[s.0 as int][j],
                                self@.tuples[t.0 as int][j],
                            ),
                    decreases xs.len() - k,
                {
                    proof {
                        assert(self@.tuples[s.0 as int][k as int] == xs@[k as int]@);
                        assert(self@.tuples[t.0 as int][k as int] == ys@[k as int]@);
                        assert(all_valid(self@, self@.tuples[s.0 as int]));
                        assert(all_valid(self@, self@.tuples[t.0 as int]));
                        assert(valid(self@, self@.tuples[s.0 as int][k as int]));
                        assert(valid(self@, self@.tuples[t.0 as int][k as int]));
                        assert(rank(self@.tuples[s.0 as int][k as int]) <= s.0);
                    }
                    if !self.keys_equal(&xs[k], &ys[k]) {
                        return false;
                    }
                    k += 1;
                }
                true
            },
            _ => false,
        }
    }
}

impl List {
    /// A new empty list.
    pub fn new(heap: &mut Heap) -> (r: List)
        requires
            old(heap)@.wf(),
        ensures
            final(heap)@.wf(),
            r.0 == old(heap)@.lists.len(),
            final(heap)@.lists == old(heap)@.lists.push(Seq::empty()),
            final(heap)@.dicts == old(heap)@.dicts,
            final(heap)@.sets == old(heap)@.sets,
            final(heap)@.tuples == old(heap)@.tuples,
    {
        let r = List(heap.lists.len());
        heap.lists.push(Vec::new());
        proof {
            let h0 = old(heap)@;
            let h1 = final(heap)@;
            assert(values_model(Seq::<Value>::empty()) =~= Seq::empty());
            assert(h1.lists =~= h0.lists.push(Seq::empty()));
            assert(h1.dicts =~= h0.dicts);
            assert(h1.sets =~= h0.sets);
            assert(h1.tuples =~= h0.tuples);
            assert(h1.lists.take(h0.lists.len() as int) =~= h0.lists);
            assert(h0.tuples =~= h1.tuples.take(h0.tuples.len() as int));
            assert(h1.dicts.take(h0.dicts.len() as int) =~= h0.dicts);
            assert(h1.sets.take(h0.sets.len() as int) =~= h0.sets);
            lemma_add_object(h0, h1);
        }
        r
    }

    /// The number of items.
    pub fn len(&self, heap: &Heap) -> (r: usize)
        requires
            heap@.wf(),
            self.0 < heap@.lists.len(),
        ensures
            r == heap@.lists[self.0 as int].len(),
    {
        heap.lists[self.0].len()
    }

    pub fn is_empty(&self, heap: &Heap) -> (r: bool)
        requires
            heap@.wf(),
            self.0 < heap@.lists.len(),
        ensures
            r == (heap@.lists[self.0 as int].len() == 0),
    {
        heap.lists[self.0].len() == 0
    }

    /// A copy of the last item, if any.
    pub fn last(&self, heap: &Heap) -> (r: Option<Value>)
        requires
            heap@.wf(),
            self.0 < heap@.lists.len(),
        ensures
            heap@.lists[self.0 as int].len() == 0 ==> r is None,
            heap@.lists[self.0 as int].len() > 0 ==> (r matches Some(v) && v@
                == heap@.lists[self.0 as int].last()),
    {
        let items = &heap.lists[self.0];
        if items.len() == 0 {
            None
        } else {
            Some(items[items.len() - 1].clone())
        }
    }

    /// Appends `value`.
    pub fn push(&self, heap: &mut Heap, value: Value)
        requires
            old(heap)@.wf(),
            self.0 < old(heap)@.lists.len(),
            valid(old(heap)@, value@),
        ensures
            final(heap)@.wf(),
            final(heap)@.lists == old(heap)@.lists.update(
                self.0 as int,
                old(heap)@.lists[self.0 as int].push(value@),
            ),
            final(heap)@.dicts == old(heap)@.dicts,
            final(heap)@.sets == old(heap)@.sets,
            final(heap)@.tuples == old(heap)@.tuples,
    {
        heap.lists[self.0].push(value);
        proof {
            let h0 = old(heap)@;
            let h1 = final(heap)@;
            assert(values_model(heap.lists@[self.0 as int]@) =~= h0.lists[self.0 as int].push(
                value@,
            ));
            assert(h1.lists =~= h0.lists.update(self.0 as int, h0.lists[self.0 as int].push(value@)));
            assert(h1.dicts =~= h0.dicts);
            assert(h1.sets =~= h0.sets);
            assert(h1.tuples =~= h0.tuples);
            assert(all_valid(h0, h0.lists[self.0 as int]));
            lemma_update_list(h0, h1, self.0 as int, h0.lists[self.0 as int].push(value@));
        }
    }
}

impl List {
    /// Takes the last item off, if any.
    pub fn pop(&self, heap: &mut Heap) -> (r: Option<Value>)
        requires
            old(heap)@.wf(),
            self.0 < old(heap)@.lists.len(),
        ensures
            final(heap)@.wf(),
            final(heap)@.dicts == old(heap)@.dicts,
            final(heap)@.sets == old(heap)@.sets,
            final(heap)@.tuples == old(heap)@.tuples,
            old(heap)@.lists[self.0 as int].len() == 0 ==> r is None && final(heap)@.lists == old(heap)@.lists,
            old(heap)@.lists[self.0 as int].len() > 0 ==> (r matches Some(v) && v@ == old(heap)@.lists[self.0 as int].last()) && final(heap)@.lists == old(heap)@.lists.update(
                self.0 as int,
                old(heap)@.lists[self.0 as int].drop_last(),
            ),
    {
        let r = heap.lists[self.0].pop();
        proof {
            let h0 = old(heap)@;
            let h1 = final(heap)@;
            let l = self.0 as int;
            assert(h1.dicts =~= h0.dicts);
            assert(h1.sets =~= h0.sets);
            assert(h1.tuples =~= h0.tuples);
            if h0.lists[l].len() == 0 {
                assert(h1.lists =~= h0.lists);
            } else {
                assert(values_model(heap.lists@[l]@) =~= h0.lists[l].drop_last());
                assert(h1.lists =~= h0.lists.update(l, h0.lists[l].drop_last()));
                assert(all_valid(h0, h0.lists[l]));
                lemma_update_list(h0, h1, l, h0.lists[l].drop_last());
            }
        }
        r
    }

    /// A copy of the item at `index`, if there is one.
    pub fn get(&self, heap: &Heap, index: usize) -> (r: Option<Value>)
        requires
            heap@.wf(),
            self.0 < heap@.lists.len(),
        ensures
            index < heap@.lists[self.0 as int].len() ==> (r matches Some(v) && v@
                == heap@.lists[self.0 as int][index as int]),
            index >= heap@.lists[self.0 as int].len() ==> r is None,
    {
        let items = &heap.lists[self.0];
        if index < items.len() {
            Some(items[index].clone())
        } else {
            None
        }
    }

    /// A copy of the item at `index`, which must be an integer that fits in a `usize`.
    pub fn get_at(&self, heap: &Heap, index: &Value) -> (r: Result<Option<Value>, Error>)
        requires
            heap@.wf(),
            self.0 < heap@.lists.len(),
        ensures
            match index.to_usize_spec() {
                None => r matches Err(Error::InvalidListIndex),
                Some(i) => r matches Ok(o) && (i < heap@.lists[self.0 as int].len() ==> (
                o matches Some(v) && v@ == heap@.lists[self.0 as int][i as int])) && (i
                    >= heap@.lists[self.0 as int].len() ==> o is None),
            },
    {
        match index.to_usize() {
            Some(i) => Ok(self.get(heap, i)),
            None => Err(Error::InvalidListIndex),
        }
    }

    /// Takes out the item at `index`, if there is one; the items after it move down.
    pub fn remove(&self, heap: &mut Heap, index: usize) -> (r: Option<Value>)
        requires
            old(heap)@.wf(),
            self.0 < old(heap)@.lists.len(),
        ensures
            final(heap)@.wf(),
            final(heap)@.dicts == old(heap)@.dicts,
            final(heap)@.sets == old(heap)@.sets,
            final(heap)@.tuples == old(heap)@.tuples,
            index >= old(heap)@.lists[self.0 as int].len() ==> r is None && final(heap)@.lists
                == old(heap)@.lists,
            index < old(heap)@.lists[self.0 as int].len() ==> (r matches Some(v) && v@ == old(heap)@.lists[self.0 as int][index as int]) && final(heap)@.lists == old(heap)@.lists.update(self.0 as int, old(heap)@.lists[self.0 as int].remove(index as int)),
    {
        if index >= heap.lists[self.0].len() {
            return None;
        }
        let v = heap.lists[self.0].remove(index);
        proof {
            let h0 = old(heap)@;
            let h1 = final(heap)@;
            let l = self.0 as int;
            assert(h1.dicts =~= h0.dicts);
            assert(h1.sets =~= h0.sets);
            assert(h1.tuples =~= h0.tuples);
            assert(values_model(heap.lists@[l]@) =~= h0.lists[l].remove(index as int));
            assert(h1.lists =~= h0.lists.update(l, h0.lists[l].remove(index as int)));
            assert(all_valid(h0, h0.lists[l]));
            assert(all_valid(h0, h0.lists[l].remove(index as int)));
            lemma_update_list(h0, h1, l, h0.lists[l].remove(index as int));
        }
        Some(v)
    }

    /// Takes out the item at `index`, which must be an integer that fits in a `usize`.
    pub fn remove_at(&self, heap: &mut Heap, index: &Value) -> (r: Result<Option<Value>, Error>)
        requires
            old(heap)@.wf(),
            self.0 < old(heap)@.lists.len(),
        ensures
            final(heap)@.wf(),
            final(heap)@.dicts == old(heap)@.dicts,
            final(heap)@.sets == old(heap)@.sets,
            final(heap)@.tuples == old(heap)@.tuples,
            match index.to_usize_spec() {
                None => r matches Err(Error::InvalidListIndex) && final(heap)@ == old(heap)@,
                Some(i) => r matches Ok(o) && (i >= old(heap)@.lists[self.0 as int].len() ==> o is None
                    && final(heap)@.lists == old(heap)@.lists) && (i < old(heap)@.lists[self.0 as int].len() ==> (o matches Some(v) && v@ == old(heap)@.lists[self.0 as int][i as int]) && final(heap)@.lists == old(heap)@.lists.update(
                    self.0 as int,
                    old(heap)@.lists[self.0 as int].remove(i as int),
                )),
            },
    {
        match index.to_usize() {
            Some(i) => Ok(self.remove(heap, i)),
            None => Err(Error::InvalidListIndex),
        }
    }

    /// Appends the items that `other` holds when the call starts; a list appended to
    /// itself is doubled.
    pub fn append_list(&self, heap: &mut Heap, other: &List) -> (r: Result<(), Error>)
        requires
            old(heap)@.wf(),
            self.0 < old(heap)@.lists.len(),
            other.0 < old(heap)@.lists.len(),
        ensures
            r is Ok,
            final(heap)@.wf(),
            final(heap)@.lists == old(heap)@.lists.update(
                self.0 as int,
                old(heap)@.lists[self.0 as int] + old(heap)@.lists[other.0 as int],
            ),
            final(heap)@.dicts == old(heap)@.dicts,
            final(heap)@.sets == old(heap)@.sets,
            final(heap)@.tuples == old(heap)@.tuples,
    {
        let max_len = heap.lists[other.0].len();
        let ghost h0 = heap@;
        let mut i: usize = 0;
        while i < max_len
            invariant
                heap@.wf(),
                self.0 < h0.lists.len(),
                other.0 < h0.lists.len(),
                max_len == h0.lists[other.0 as int].len(),
                0 <= i <= max_len,
                heap@.lists == h0.lists.update(
                    self.0 as int,
                    h0.lists[self.0 as int] + h0.lists[other.0 as int].take(i as int),
                ),
                heap@.dicts == h0.dicts,
                heap@.sets == h0.sets,
                heap@.tuples == h0.tuples,
            decreases max_len - i,
        {
            proof {
                if other.0 == self.0 {
                    assert(heap@.lists[other.0 as int][i as int] == h0.lists[other.0 as int][i as int]);
                } else {
                    assert(heap@.lists[other.0 as int] == h0.lists[other.0 as int]);
                }
                assert(all_valid(heap@, heap@.lists[other.0 as int]));
            }
            let v = self.get_item(heap, other, i);
            self.push(heap, v);
            proof {
                assert(h0.lists[other.0 as int].take(i + 1) =~= h0.lists[other.0 as int].take(
                    i as int,
                ).push(h0.lists[other.0 as int][i as int]));
                assert(heap@.lists =~= h0.lists.update(
                    self.0 as int,
                    h0.lists[self.0 as int] + h0.lists[other.0 as int].take(i + 1),
                ));
            }
            i += 1;
        }
        proof {
            assert(h0.lists[other.0 as int].take(max_len as int) =~= h0.lists[other.0 as int]);
        }
        Ok(())
    }

    /// A copy of the item at `index` of `other`, for `append_list`.
    fn get_item(&self, heap: &Heap, other: &List, index: usize) -> (r: Value)
        requires
            heap@.wf(),
            other.0 < heap@.lists.len(),
            index < heap@.lists[other.0 as int].len(),
        ensures
            r@ == heap@.lists[other.0 as int][index as int],
            valid(heap@, r@),
    {
        proof {
            assert(all_valid(heap@, heap@.lists[other.0 as int]));
        }
        heap.lists[other.0][index].clone()
    }

    /// Appends the items of `values`, which must be a list.
    pub fn extend(&self, heap: &mut Heap, values: Value) -> (r: Result<(), Error>)
        requires
            old(heap)@.wf(),
            self.0 < old(heap)@.lists.len(),
            valid(old(heap)@, values@),
        ensures
            final(heap)@.wf(),
            final(heap)@.dicts == old(heap)@.dicts,
            final(heap)@.sets == old(heap)@.sets,
            final(heap)@.tuples == old(heap)@.tuples,
            match values@ {
                ValueModel::List(o) => r is Ok && final(heap)@.lists == old(heap)@.lists.update(
                    self.0 as int,
                    old(heap)@.lists[self.0 as int] + old(heap)@.lists[o as int],
                ),
                _ => r matches Err(Error::CantExtend(k)) && k == kind_of(values@) && final(heap)@
                    == old(heap)@,
            },
    {
        match values {
            Value::List(other) => self.append_list(heap, &other),
            _ => Err(Error::CantExtend(values.kind())),
        }
    }

    /// A new list holding the items of this list followed by those of `other`.
    pub fn concat(&self, heap: &mut Heap, other: &List) -> (r: List)
        requires
            old(heap)@.wf(),
            self.0 < old(heap)@.lists.len(),
            other.0 < old(heap)@.lists.len(),
        ensures
            final(heap)@.wf(),
            r.0 == old(heap)@.lists.len(),
            final(heap)@.lists == old(heap)@.lists.push(
                old(heap)@.lists[self.0 as int] + old(heap)@.lists[other.0 as int],
            ),
            final(heap)@.dicts == old(heap)@.dicts,
            final(heap)@.sets == old(heap)@.sets,
            final(heap)@.tuples == old(heap)@.tuples,
    {
        let ghost h0 = heap@;
        let r = List::new(heap);
        let _ = r.append_list(heap, self);
        let _ = r.append_list(heap, other);
        proof {
            assert(Seq::<ValueModel>::empty() + h0.lists[self.0 as int] =~= h0.lists[self.0 as int]);
            assert(heap@.lists =~= h0.lists.push(
                h0.lists[self.0 as int] + h0.lists[other.0 as int],
            ));
        }
        r
    }

    /// Copies of all the items, in order.
    pub fn items(&self, heap: &Heap) -> (r: Vec<Value>)
        requires
            heap@.wf(),
            self.0 < heap@.lists.len(),
        ensures
            values_model(r@) == heap@.lists[self.0 as int],
    {
        let items = &heap.lists[self.0];
        let mut r: Vec<Value> = Vec::new();
        let mut i: usize = 0;
        while i < items.len()
            invariant
                0 <= i <= items.len(),
                r@.len() == i,
                forall|j: int| 0 <= j < i ==> #[trigger] r@[j]@ == items@[j]@,
            decreases items.len() - i,
        {
            let v = items[i].clone();
            r.push(v);
            i += 1;
        }
        proof {
            assert(values_model(r@) =~= values_model(items@));
        }
        r
    }
}

impl DictData {
    /// The position of the first entry with the same key as `k`, or -1 as `None`.
    fn find(&self, heap: &Heap, k: &Value) -> (r: Option<usize>)
        requires
            heap@.wf(),
            valid(heap@, k@),
            heap@.dict_wf(self@),
        ensures
            r matches Some(i) ==> i == entry_index(heap@.tuples, self@.entries, k@) && i
                < self.entries@.len(),
            r is None ==> entry_index(heap@.tuples, self@.entries, k@) == -1,
    {
        let mut j: usize = 0;
        while j < self.entries.len()
            invariant
                heap@.wf(),
                valid(heap@, k@),
                heap@.dict_wf(self@),
                0 <= j <= self.entries.len(),
                entry_index(heap@.tuples, self@.entries.take(j as int), k@) == -1,
            decreases self.entries.len() - j,
        {
            proof {
                assert(self@.entries[j as int].0 == self.entries@[j as int].0@);
                assert(valid(heap@, self@.entries[j as int].0));
                assert(self@.entries.take(j + 1).drop_last() =~= self@.entries.take(j as int));
            }
            if heap.keys_equal(k, &self.entries[j].0) {
                proof {
                    lemma_entry_index_prefix(heap@.tuples, self@.entries, k@, j + 1);
                }
                return Some(j);
            }
            j += 1;
        }
        proof {
            assert(self@.entries.take(j as int) =~= self@.entries);
        }
        None
    }

    /// The position of the first entry with integer key `k`, or -1 as `None`.
    fn find_int(&self, k: i64) -> (r: Option<usize>)
        ensures
            r matches Some(i) ==> i == int_entry_index(self@.int_entries, k) && i
                < self.int_entries@.len(),
            r is None ==> int_entry_index(self@.int_entries, k) == -1,
    {
        let mut j: usize = 0;
        while j < self.int_entries.len()
            invariant
                0 <= j <= self.int_entries.len(),
                int_entry_index(self@.int_entries.take(j as int), k) == -1,
            decreases self.int_entries.len() - j,
        {
            proof {
                assert(self@.int_entries[j as int].0 == self.int_entries@[j as int].0);
                assert(self@.int_entries.take(j + 1).drop_last() =~= self@.int_entries.take(
                    j as int,
                ));
            }
            if self.int_entries[j].0 == k {
                proof {
                    lemma_int_entry_index_prefix(self@.int_entries, k, j + 1);
                }
                return Some(j);
            }
            j += 1;
        }
        proof {
            assert(self@.int_entries.take(j as int) =~= self@.int_entries);
        }
        None
    }
}

impl Dict {
    /// A new empty dict.
    pub fn new(heap: &mut Heap) -> (r: Dict)
        requires
            old(heap)@.wf(),
        ensures
            final(heap)@.wf(),
            r.0 == old(heap)@.dicts.len(),
            final(heap)@.dicts == old(heap)@.dicts.push(
                DictModel { entries: Seq::empty(), int_entries: Seq::empty() },
            ),
            final(heap)@.lists == old(heap)@.lists,
            final(heap)@.sets == old(heap)@.sets,
            final(heap)@.tuples == old(heap)@.tuples,
    {
        let r = Dict(heap.dicts.len());
        heap.dicts.push(DictData { entries: Vec::new(), int_entries: Vec::new() });
        proof {
            let h0 = old(heap)@;
            let h1 = final(heap)@;
            let empty = DictModel { entries: Seq::empty(), int_entries: Seq::empty() };
            assert(heap.dicts@.last()@.entries =~= empty.entries);
            assert(heap.dicts@.last()@.int_entries =~= empty.int_entries);
            assert(h1.dicts =~= h0.dicts.push(empty));
            assert(h1.lists =~= h0.lists);
            assert(h1.sets =~= h0.sets);
            assert(h1.tuples =~= h0.tuples);
            assert(h1.lists.take(h0.lists.len() as int) =~= h0.lists);
            assert(h0.tuples =~= h1.tuples.take(h0.tuples.len() as int));
            assert(h1.dicts.take(h0.dicts.len() as int) =~= h0.dicts);
            assert(h1.sets.take(h0.sets.len() as int) =~= h0.sets);
            lemma_add_object(h0, h1);
        }
        r
    }

    /// The number of entries (a count past `usize::MAX` could not be held in memory;
    /// it is capped there).
    pub fn len(&self, heap: &Heap) -> (r: usize)
        requires
            heap@.wf(),
            self.0 < heap@.dicts.len(),
        ensures
            r == capped_len(dict_len(heap@.dicts[self.0 as int])),
    {
        let d = &heap.dicts[self.0];
        d.entries.len().saturating_add(d.int_entries.len())
    }

    pub fn is_empty(&self, heap: &Heap) -> (r: bool)
        requires
            heap@.wf(),
            self.0 < heap@.dicts.len(),
        ensures
            r == (dict_len(heap@.dicts[self.0 as int]) == 0),
    {
        let d = &heap.dicts[self.0];
        d.entries.len() == 0 && d.int_entries.len() == 0
    }

    /// A copy of the value for `key`, if the dict has the key.
    pub fn get(&self, heap: &Heap, key: &Value) -> (r: Option<Value>)
        requires
            heap@.wf(),
            self.0 < heap@.dicts.len(),
            valid(heap@, key@),
        ensures
            r matches Some(v) ==> Some(v@) == dict_get(heap@.tuples, heap@.dicts[self.0 as int], key@),
            r is None ==> dict_get(heap@.tuples, heap@.dicts[self.0 as int], key@) is None,
            r matches Some(v) ==> valid(heap@, v@),
    {
        let d = &heap.dicts[self.0];
        proof {
            assert(heap@.dict_wf(heap@.dicts[self.0 as int]));
            assert(heap@.dicts[self.0 as int] == d@);
        }
        let small = match key {
            Value::Number(n) => n.as_i64(),
            _ => None,
        };
        match small {
            Some(n) => match d.find_int(n) {
                Some(i) => {
                    proof {
                        assert(d@.int_entries[i as int].1 == d.int_entries@[i as int].1@);
                        assert(valid(heap@, d@.int_entries[i as int].1));
                    }
                    Some(d.int_entries[i].1.clone())
                },
                None => None,
            },
            None => match d.find(heap, key) {
                Some(i) => {
                    proof {
                        assert(d@.entries[i as int].1 == d.entries@[i as int].1@);
                        assert(valid(heap@, d@.entries[i as int].0));
                        assert(valid(heap@, d@.entries[i as int].1));
                    }
                    Some(d.entries[i].1.clone())
                },
                None => None,
            },
        }
    }

    /// Sets the value for `key`, which must be hashable; a key the dict has already
    /// keeps its place.
    pub fn insert(&self, heap: &mut Heap, key: Value, value: Value) -> (r: Result<(), Error>)
        requires
            old(heap)@.wf(),
            self.0 < old(heap)@.dicts.len(),
            valid(old(heap)@, key@),
            valid(old(heap)@, value@),
        ensures
            final(heap)@.wf(),
            final(heap)@.lists == old(heap)@.lists,
            final(heap)@.sets == old(heap)@.sets,
            final(heap)@.tuples == old(heap)@.tuples,
            hashable(old(heap)@.tuples, key@) ==> r is Ok && final(heap)@.dicts == old(heap)@.dicts.update(
                self.0 as int,
                dict_insert(old(heap)@.tuples, old(heap)@.dicts[self.0 as int], key@, value@),
            ),
            !hashable(old(heap)@.tuples, key@) ==> (r matches Err(Error::Unhashable(k)) && k
                == kind_of(key@)) && final(heap)@ == old(heap)@,
    {
        if !heap.is_hashable(&key) {
            return Err(Error::Unhashable(key.kind()));
        }
        let ghost h0 = heap@;
        let ghost d0 = heap@.dicts[self.0 as int];
        let ghost kv = key@;
        let ghost vv = value@;
        proof {
            assert(h0.dict_wf(d0));
        }
        let small = match &key {
            Value::Number(n) => n.as_i64(),
            _ => None,
        };
        match small {
            Some(n) => {
                let found = heap.dicts[self.0].find_int(n);
                match found {
                    Some(i) => {
                        heap.dicts[self.0].int_entries.set(i, (n, value));
                    },
                    None => {
                        heap.dicts[self.0].int_entries.push((n, value));
                    },
                }
            },
            None => {
                let found = heap.dicts[self.0].find(heap, &key);
                match found {
                    Some(i) => {
                        let old_key = heap.dicts[self.0].entries[i].0.clone();
                        heap.dicts[self.0].entries.set(i, (old_key, value));
                    },
                    None => {
                        heap.dicts[self.0].entries.push((key, value));
                    },
                }
            },
        }
        proof {
            let h1 = heap@;
            let d1 = dict_insert(h0.tuples, d0, kv, vv);
            assert(h1.dicts[self.0 as int].entries =~= d1.entries);
            assert(h1.dicts[self.0 as int].int_entries =~= d1.int_entries);
            assert(h1.dicts =~= h0.dicts.update(self.0 as int, d1));
            assert(h1.lists =~= h0.lists);
            assert(h1.sets =~= h0.sets);
            assert(h1.tuples =~= h0.tuples);
            assert(h0.dict_wf(d1));
            lemma_update_dict(h0, h1, self.0 as int, d1);
        }
        Ok(())
    }
}

impl Dict {
    /// Inserts every entry of `other`, in the order `other` gives them. Updating a
    /// dict with itself changes nothing.
    pub fn update(&self, heap: &mut Heap, other: &Dict) -> (r: Result<(), Error>)
        requires
            old(heap)@.wf(),
            self.0 < old(heap)@.dicts.len(),
            other.0 < old(heap)@.dicts.len(),
        ensures
            r is Ok,
            final(heap)@.wf(),
            final(heap)@.lists == old(heap)@.lists,
            final(heap)@.sets == old(heap)@.sets,
            final(heap)@.tuples == old(heap)@.tuples,
            self.0 == other.0 ==> final(heap)@ == old(heap)@,
            self.0 != other.0 ==> final(heap)@.dicts == old(heap)@.dicts.update(
                self.0 as int,
                dict_insert_all(
                    old(heap)@.tuples,
                    old(heap)@.dicts[self.0 as int],
                    dict_items(old(heap)@.dicts[other.0 as int]),
                ),
            ),
    {
        if self.0 == other.0 {
            return Ok(());
        }
        let ghost h0 = heap@;
        let ghost d0 = h0.dicts[self.0 as int];
        let ghost o0 = h0.dicts[other.0 as int];
        let ghost items = dict_items(o0);
        let n = heap.dicts[other.0].entries.len();
        let m = heap.dicts[other.0].int_entries.len();
        proof {
            assert(h0.dict_wf(o0));
            assert(items.len() == n + m);
        }
        let mut i: usize = 0;
        while i < n
            invariant
                heap@.wf(),
                self.0 < h0.dicts.len(),
                other.0 < h0.dicts.len(),
                self.0 != other.0,
                h0.dict_wf(o0),
                o0 == h0.dicts[other.0 as int],
                d0 == h0.dicts[self.0 as int],
                items == dict_items(o0),
                n == o0.entries.len(),
                0 <= i <= n,
                heap@.dicts == h0.dicts.update(
                    self.0 as int,
                    dict_insert_all(h0.tuples, d0, items.take(i as int)),
                ),
                heap@.lists == h0.lists,
                heap@.sets == h0.sets,
                heap@.tuples == h0.tuples,
            decreases n - i,
        {
            proof {
                assert(heap@.dicts.len() == h0.dicts.len());
                assert(heap@.dicts[other.0 as int] == o0);
                assert(heap@.dicts[other.0 as int] == heap.dicts@[other.0 as int]@);
                assert(heap.dicts@[other.0 as int]@ == o0);
                assert(o0.entries[i as int].0 == heap.dicts@[other.0 as int].entries@[i as int].0@);
                assert(o0.entries[i as int].1 == heap.dicts@[other.0 as int].entries@[i as int].1@);
            }
            let k = heap.dicts[other.0].entries[i].0.clone();
            let v = heap.dicts[other.0].entries[i].1.clone();
            proof {
                assert(valid(heap@, k@));
                assert(valid(heap@, v@));
                assert(hashable(heap@.tuples, k@));
                assert(items[i as int] == o0.entries[i as int]);
                assert(items.take(i + 1).drop_last() =~= items.take(i as int));
            }
            let _ = self.insert(heap, k, v);
            proof {
                assert(heap@.dicts =~= h0.dicts.update(
                    self.0 as int,
                    dict_insert_all(h0.tuples, d0, items.take(i + 1)),
                ));
            }
            i += 1;
        }
        let mut j: usize = 0;
        while j < m
            invariant
                heap@.wf(),
                self.0 < h0.dicts.len(),
                other.0 < h0.dicts.len(),
                self.0 != other.0,
                o0 == h0.dicts[other.0 as int],
                d0 == h0.dicts[self.0 as int],
                items == dict_items(o0),
                n == o0.entries.len(),
                m == o0.int_entries.len(),
                0 <= j <= m,
                heap@.dicts == h0.dicts.update(
                    self.0 as int,
                    dict_insert_all(h0.tuples, d0, items.take(n + j)),
                ),
                heap@.lists == h0.lists,
                heap@.sets == h0.sets,
                heap@.tuples == h0.tuples,
            decreases m - j,
        {
            proof {
                assert(heap@.dicts.len() == h0.dicts.len());
                assert(heap@.dicts[other.0 as int] == o0);
                assert(heap@.dicts[other.0 as int] == heap.dicts@[other.0 as int]@);
                assert(heap.dicts@[other.0 as int]@ == o0);
                assert(o0.int_entries[j as int].0 == heap.dicts@[other.0 as int].int_entries@[j as int].0);
                assert(o0.int_entries[j as int].1 == heap.dicts@[other.0 as int].int_entries@[j as int].1@);
                assert(h0.dict_wf(o0));
            }
            let k = Value::Number(Number::from_i64(heap.dicts[other.0].int_entries[j].0));
            let v = heap.dicts[other.0].int_entries[j].1.clone();
            proof {
                assert(valid(heap@, v@));
                assert(items[n + j] == (k@, v@));
                assert(items.take(n + j + 1).drop_last() =~= items.take(n + j));
            }
            let _ = self.insert(heap, k, v);
            proof {
                assert(heap@.dicts =~= h0.dicts.update(
                    self.0 as int,
                    dict_insert_all(h0.tuples, d0, items.take(n + j + 1)),
                ));
            }
            j += 1;
        }
        proof {
            assert(items.take(n + m) =~= items);
        }
        Ok(())
    }

    /// Copies of the entries, in the order the dict gives them: the entries with
    /// other keys first, then those with integer keys.
    pub fn items(&self, heap: &Heap) -> (r: Vec<(Value, Value)>)
        requires
            heap@.wf(),
            self.0 < heap@.dicts.len(),
        ensures
            r@.map_values(|e: (Value, Value)| (e.0@, e.1@)) == dict_items(
                heap@.dicts[self.0 as int],
            ),
    {
        let d = &heap.dicts[self.0];
        let ghost items = dict_items(heap@.dicts[self.0 as int]);
        proof {
            assert(heap@.dicts[self.0 as int] == d@);
        }
        let mut r: Vec<(Value, Value)> = Vec::new();
        let mut i: usize = 0;
        while i < d.entries.len()
            invariant
                items == dict_items(d@),
                0 <= i <= d.entries.len(),
                r@.len() == i,
                forall|j: int| 0 <= j < i ==> (#[trigger] r@[j]).0@ == items[j].0 && r@[j].1@ == items[j].1,
            decreases d.entries.len() - i,
        {
            let k = d.entries[i].0.clone();
            let v = d.entries[i].1.clone();
            r.push((k, v));
            i += 1;
        }
        let mut j: usize = 0;
        while j < d.int_entries.len()
            invariant
                items == dict_items(d@),
                0 <= j <= d.int_entries.len(),
                r@.len() == d.entries.len() + j,
                forall|x: int| 0 <= x < r@.len() ==> (#[trigger] r@[x]).0@ == items[x].0 && r@[x].1@ == items[x].1,
            decreases d.int_entries.len() - j,
        {
            let k = Value::Number(Number::from_i64(d.int_entries[j].0));
            let v = d.int_entries[j].1.clone();
            r.push((k, v));
            j += 1;
        }
        proof {
            assert(r@.map_values(|e: (Value, Value)| (e.0@, e.1@)) =~= items);
        }
        r
    }
}

impl SetData {
    /// Whether the set has an item that is the same key as `k`.
    fn contains(&self, heap: &Heap, k: &Value) -> (r: bool)
        requires
            heap@.wf(),
            valid(heap@, k@),
            heap@.set_wf(self@),
        ensures
            r == (item_index(heap@.tuples, self@.items, k@) >= 0),
    {
        let mut j: usize = 0;
        while j < self.items.len()
            invariant
                heap@.wf(),
                valid(heap@, k@),
                heap@.set_wf(self@),
                0 <= j <= self.items.len(),
                item_index(heap@.tuples, self@.items.take(j as int), k@) == -1,
            decreases self.items.len() - j,
        {
            proof {
                assert(self@.items[j as int] == self.items@[j as int]@);
                assert(valid(heap@, self@.items[j as int]));
                assert(self@.items.take(j + 1).drop_last() =~= self@.items.take(j as int));
            }
            if heap.keys_equal(k, &self.items[j]) {
                proof {
                    lemma_item_index_prefix(heap@.tuples, self@.items, k@, j + 1);
                }
                return true;
            }
            j += 1;
        }
        proof {
            assert(self@.items.take(j as int) =~= self@.items);
        }
        false
    }

    /// Whether the set has the integer `k`.
    fn contains_int(&self, k: i64) -> (r: bool)
        ensures
            r == (int_item_index(self@.ints, k) >= 0),
    {
        let mut j: usize = 0;
        while j < self.ints.len()
            invariant
                0 <= j <= self.ints.len(),
                int_item_index(self@.ints.take(j as int), k) == -1,
            decreases self.ints.len() - j,
        {
            proof {
                assert(self@.ints.take(j + 1).drop_last() =~= self@.ints.take(j as int));
            }
            if self.ints[j] == k {
                proof {
                    lemma_int_item_index_prefix(self@.ints, k, j + 1);
                }
                return true;
            }
            j += 1;
        }
        proof {
            assert(self@.ints.take(j as int) =~= self@.ints);
        }
        false
    }
}

impl PySet {
    /// A new empty set.
    pub fn new(heap: &mut Heap) -> (r: PySet)
        requires
            old(heap)@.wf(),
        ensures
            final(heap)@.wf(),
            r.0 == old(heap)@.sets.len(),
            final(heap)@.sets == old(heap)@.sets.push(
                SetModel { items: Seq::empty(), ints: Seq::empty() },
            ),
            final(heap)@.lists == old(heap)@.lists,
            final(heap)@.dicts == old(heap)@.dicts,
            final(heap)@.tuples == old(heap)@.tuples,
    {
        let r = PySet(heap.sets.len());
        heap.sets.push(SetData { items: Vec::new(), ints: Vec::new() });
        proof {
            let h0 = old(heap)@;
            let h1 = final(heap)@;
            let empty = SetModel { items: Seq::empty(), ints: Seq::empty() };
            assert(heap.sets@.last()@.items =~= empty.items);
            assert(heap.sets@.last()@.ints =~= empty.ints);
            assert(h1.sets =~= h0.sets.push(empty));
            assert(h1.lists =~= h0.lists);
            assert(h1.dicts =~= h0.dicts);
            assert(h1.tuples =~= h0.tuples);
            assert(h1.lists.take(h0.lists.len() as int) =~= h0.lists);
            assert(h0.tuples =~= h1.tuples.take(h0.tuples.len() as int));
            assert(h1.dicts.take(h0.dicts.len() as int) =~= h0.dicts);
            assert(h1.sets.take(h0.sets.len() as int) =~= h0.sets);
            lemma_add_object(h0, h1);
        }
        r
    }

    /// The number of items that are not integers fitting in an `i64`: the integers,
    /// kept apart, are not counted.
    pub fn len(&self, heap: &Heap) -> (r: usize)
        requires
            heap@.wf(),
            self.0 < heap@.sets.len(),
        ensures
            r == heap@.sets[self.0 as int].items.len(),
    {
        heap.sets[self.0].items.len()
    }

    /// Adds `item`, which must be hashable; an item the set has already stays as it is.
    pub fn insert(&self, heap: &mut Heap, item: Value) -> (r: Result<(), Error>)
        requires
            old(heap)@.wf(),
            self.0 < old(heap)@.sets.len(),
            valid(old(heap)@, item@),
        ensures
            final(heap)@.wf(),
            final(heap)@.lists == old(heap)@.lists,
            final(heap)@.dicts == old(heap)@.dicts,
            final(heap)@.tuples == old(heap)@.tuples,
            hashable(old(heap)@.tuples, item@) ==> r is Ok && final(heap)@.sets == old(heap)@.sets.update(
                self.0 as int,
                set_insert(old(heap)@.tuples, old(heap)@.sets[self.0 as int], item@),
            ),
            !hashable(old(heap)@.tuples, item@) ==> (r matches Err(Error::Unhashable(k)) && k
                == kind_of(item@)) && final(heap)@ == old(heap)@,
    {
        if !heap.is_hashable(&item) {
            return Err(Error::Unhashable(item.kind()));
        }
        let ghost h0 = heap@;
        let ghost s0 = heap@.sets[self.0 as int];
        let ghost kv = item@;
        proof {
            assert(h0.set_wf(s0));
            assert(heap.sets@[self.0 as int]@ == s0);
        }
        let small = match &item {
            Value::Number(n) => n.as_i64(),
            _ => None,
        };
        match small {
            Some(n) => {
                if !heap.sets[self.0].contains_int(n) {
                    heap.sets[self.0].ints.push(n);
                }
            },
            None => {
                if !heap.sets[self.0].contains(heap, &item) {
                    heap.sets[self.0].items.push(item);
                }
            },
        }
        proof {
            let h1 = heap@;
            let s1 = set_insert(h0.tuples, s0, kv);
            assert(h1.sets[self.0 as int].items =~= s1.items);
            assert(h1.sets[self.0 as int].ints =~= s1.ints);
            assert(h1.sets =~= h0.sets.update(self.0 as int, s1));
            assert(h1.lists =~= h0.lists);
            assert(h1.dicts =~= h0.dicts);
            assert(h1.tuples =~= h0.tuples);
            assert(h0.set_wf(s1));
            lemma_update_set(h0, h1, self.0 as int, s1);
        }
        Ok(())
    }

    /// Adds each of `items` in turn, skipping those that are not hashable.
    pub fn extend(&self, heap: &mut Heap, items: Vec<Value>)
        requires
            old(heap)@.wf(),
            self.0 < old(heap)@.sets.len(),
            all_valid(old(heap)@, values_model(items@)),
        ensures
            final(heap)@.wf(),
            final(heap)@.lists == old(heap)@.lists,
            final(heap)@.dicts == old(heap)@.dicts,
            final(heap)@.tuples == old(heap)@.tuples,
            final(heap)@.sets == old(heap)@.sets.update(
                self.0 as int,
                set_insert_all(old(heap)@.tuples, old(heap)@.sets[self.0 as int], values_model(items@)),
            ),
    {
        let ghost h0 = heap@;
        let ghost s0 = h0.sets[self.0 as int];
        let ghost ks = values_model(items@);
        let mut i: usize = 0;
        while i < items.len()
            invariant
                heap@.wf(),
                self.0 < h0.sets.len(),
                s0 == h0.sets[self.0 as int],
                ks == values_model(items@),
                all_valid(h0, ks),
                0 <= i <= items.len(),
                heap@.sets == h0.sets.update(
                    self.0 as int,
                    set_insert_all(h0.tuples, s0, ks.take(i as int)),
                ),
                heap@.lists == h0.lists,
                heap@.dicts == h0.dicts,
                heap@.tuples == h0.tuples,
            decreases items.len() - i,
        {
            proof {
                assert(ks[i as int] == items@[i as int]@);
                assert(valid(h0, ks[i as int]));
                assert(ks.take(i + 1).drop_last() =~= ks.take(i as int));
            }
            let _ = self.insert(heap, items[i].clone());
            proof {
                assert(heap@.sets =~= h0.sets.update(
                    self.0 as int,
                    set_insert_all(h0.tuples, s0, ks.take(i + 1)),
                ));
            }
            i += 1;
        }
        proof {
            assert(ks.take(i as int) =~= ks);
        }
    }

    /// Copies of the items, in the order the set gives them: the other items first,
    /// then the integers.
    pub fn items(&self, heap: &Heap) -> (r: Vec<Value>)
        requires
            heap@.wf(),
            self.0 < heap@.sets.len(),
        ensures
            values_model(r@) == set_items(heap@.sets[self.0 as int]),
    {
        let s = &heap.sets[self.0];
        let ghost items = set_items(heap@.sets[self.0 as int]);
        proof {
            assert(heap@.sets[self.0 as int] == s@);
        }
        let mut r: Vec<Value> = Vec::new();
        let mut i: usize = 0;
        while i < s.items.len()
            invariant
                items == set_items(s@),
                0 <= i <= s.items.len(),
                r@.len() == i,
                forall|j: int| 0 <= j < i ==> (#[trigger] r@[j])@ == items[j],
            decreases s.items.len() - i,
        {
            r.push(s.items[i].clone());
            i += 1;
        }
        let mut j: usize = 0;
        while j < s.ints.len()
            invariant
                items == set_items(s@),
                0 <= j <= s.ints.len(),
                r@.len() == s.items.len() + j,
                forall|x: int| 0 <= x < r@.len() ==> (#[trigger] r@[x])@ == items[x],
            decreases s.ints.len() - j,
        {
            r.push(Value::Number(Number::from_i64(s.ints[j])));
            j += 1;
        }
        proof {
            assert(values_model(r@) =~= items);
        }
        r
    }
}

impl Tuple {
    /// A new tuple holding `items`.
    pub fn new(heap: &mut Heap, items: Vec<Value>) -> (r: Tuple)
        requires
            old(heap)@.wf(),
            all_valid(old(heap)@, values_model(items@)),
        ensures
            final(heap)@.wf(),
            r.0 == old(heap)@.tuples.len(),
            final(heap)@.tuples == old(heap)@.tuples.push(values_model(items@)),
            final(heap)@.lists == old(heap)@.lists,
            final(heap)@.dicts == old(heap)@.dicts,
            final(heap)@.sets == old(heap)@.sets,
    {
        let ghost im = values_model(items@);
        let r = Tuple(heap.tuples.len());
        heap.tuples.push(items);
        proof {
            let h0 = old(heap)@;
            let h1 = final(heap)@;
            assert(h1.tuples =~= h0.tuples.push(im));
            assert(h1.lists =~= h0.lists);
            assert(h1.dicts =~= h0.dicts);
            assert(h1.sets =~= h0.sets);
            assert(h1.lists.take(h0.lists.len() as int) =~= h0.lists);
            assert(h0.tuples =~= h1.tuples.take(h0.tuples.len() as int));
            assert(h1.dicts.take(h0.dicts.len() as int) =~= h0.dicts);
            assert(h1.sets.take(h0.sets.len() as int) =~= h0.sets);
            assert(grows(h0, h1));
            lemma_grows(h0, h1);
            assert forall|k: int| 0 <= k < im.len() implies rank(#[trigger] im[k]) <= h0.tuples.len() by {
                assert(valid(h0, im[k]));
            }
            assert(all_valid(h1, im));
            lemma_add_object(h0, h1);
        }
        r
    }

    /// A new empty tuple.
    pub fn empty(heap: &mut Heap) -> (r: Tuple)
        requires
            old(heap)@.wf(),
        ensures
            final(heap)@.wf(),
            r.0 == old(heap)@.tuples.len(),
            final(heap)@.tuples == old(heap)@.tuples.push(Seq::empty()),
            final(heap)@.lists == old(heap)@.lists,
            final(heap)@.dicts == old(heap)@.dicts,
            final(heap)@.sets == old(heap)@.sets,
    {
        let r = Tuple::new(heap, Vec::new());
        proof {
            assert(values_model(Seq::<Value>::empty()) =~= Seq::empty());
        }
        r
    }

    /// A new tuple holding the items that `list` holds now.
    pub fn from_list(heap: &mut Heap, list: &List) -> (r: Tuple)
        requires
            old(heap)@.wf(),
            list.0 < old(heap)@.lists.len(),
        ensures
            final(heap)@.wf(),
            r.0 == old(heap)@.tuples.len(),
            final(heap)@.tuples == old(heap)@.tuples.push(old(heap)@.lists[list.0 as int]),
            final(heap)@.lists == old(heap)@.lists,
            final(heap)@.dicts == old(heap)@.dicts,
            final(heap)@.sets == old(heap)@.sets,
    {
        let items = list.items(heap);
        proof {
            assert(all_valid(heap@, heap@.lists[list.0 as int]));
        }
        Tuple::new(heap, items)
    }

    pub fn len(&self, heap: &Heap) -> (r: usize)
        requires
            heap@.wf(),
            self.0 < heap@.tuples.len(),
        ensures
            r == heap@.tuples[self.0 as int].len(),
    {
        heap.tuples[self.0].len()
    }

    pub fn is_empty(&self, heap: &Heap) -> (r: bool)
        requires
            heap@.wf(),
            self.0 < heap@.tuples.len(),
        ensures
            r == (heap@.tuples[self.0 as int].len() == 0),
    {
        heap.tuples[self.0].len() == 0
    }

    /// A copy of the item at `index`, if there is one.
    pub fn get(&self, heap: &Heap, index: usize) -> (r: Option<Value>)
        requires
            heap@.wf(),
            self.0 < heap@.tuples.len(),
        ensures
            index < heap@.tuples[self.0 as int].len() ==> (r matches Some(v) && v@
                == heap@.tuples[self.0 as int][index as int]),
            index >= heap@.tuples[self.0 as int].len() ==> r is None,
            r matches Some(v) ==> valid(heap@, v@),
    {
        let items = &heap.tuples[self.0];
        if index < items.len() {
            proof {
                assert(all_valid(heap@, heap@.tuples[self.0 as int]));
                assert(valid(heap@, heap@.tuples[self.0 as int][index as int]));
            }
            Some(items[index].clone())
        } else {
            None
        }
    }

    /// Copies of all the items, in order.
    pub fn items(&self, heap: &Heap) -> (r: Vec<Value>)
        requires
            heap@.wf(),
            self.0 < heap@.tuples.len(),
        ensures
            values_model(r@) == heap@.tuples[self.0 as int],
    {
        let items = &heap.tuples[self.0];
        let mut r: Vec<Value> = Vec::new();
        let mut i: usize = 0;
        while i < items.len()
            invariant
                0 <= i <= items.len(),
                r@.len() == i,
                forall|j: int| 0 <= j < i ==> #[trigger] r@[j]@ == items@[j]@,
            decreases items.len() - i,
        {
            r.push(items[i].clone());
            i += 1;
        }
        proof {
            assert(values_model(r@) =~= values_model(items@));
        }
        r
    }

    /// The items of a tuple that must hold exactly `arity` of them: copies of them in
    /// order, or `WrongArity` for a tuple of another length.
    pub fn unpack(&self, heap: &Heap, arity: usize) -> (r: Result<Vec<Value>, Error>)
        requires
            heap@.wf(),
            self.0 < heap@.tuples.len(),
        ensures
            heap@.tuples[self.0 as int].len() == arity ==> (r matches Ok(items) && values_model(
                items@,
            ) == heap@.tuples[self.0 as int]),
            heap@.tuples[self.0 as int].len() != arity ==> r == Err::<Vec<Value>, Error>(
                Error::WrongArity { arity, given: heap@.tuples[self.0 as int].len() as usize },
            ),
    {
        let given = self.len(heap);
        if given != arity {
            return Err(Error::WrongArity { arity, given });
        }
        Ok(self.items(heap))
    }

    /// Whether every item can be a dict key or a set item.
    pub fn is_hashable(&self, heap: &Heap) -> (r: bool)
        requires
            heap@.wf(),
            self.0 < heap@.tuples.len(),
        ensures
            r == hashable(heap@.tuples, ValueModel::Tuple(self.0)),
    {
        heap.is_hashable(&Value::Tuple(*self))
    }
}

/// Two sets hold the same items: as many of each part, and each item of the first
/// is one of the second.
pub open spec fn set_eq(tuples: Seq<Seq<ValueModel>>, a: SetModel, b: SetModel) -> bool {
    &&& a.items.len() == b.items.len()
    &&& forall|i: int|
        0 <= i < a.items.len() ==> item_index(tuples, b.items, #[trigger] a.items[i]) >= 0
    &&& a.ints.len() == b.ints.len()
    &&& forall|i: int| 0 <= i < a.ints.len() ==> int_item_index(b.ints, #[trigger] a.ints[i]) >= 0
}

impl PySet {
    /// Whether the two sets are the same set, or hold the same items.
    pub fn equals(&self, heap: &Heap, other: &PySet) -> (r: bool)
        requires
            heap@.wf(),
            self.0 < heap@.sets.len(),
            other.0 < heap@.sets.len(),
        ensures
            r == (self.0 == other.0 || set_eq(
                heap@.tuples,
                heap@.sets[self.0 as int],
                heap@.sets[other.0 as int],
            )),
    {
        if self.0 == other.0 {
            return true;
        }
        let a = &heap.sets[self.0];
        let b = &heap.sets[other.0];
        proof {
            assert(heap@.sets[self.0 as int] == a@);
            assert(heap@.sets[other.0 as int] == b@);
            assert(heap@.set_wf(a@));
            assert(heap@.set_wf(b@));
        }
        if a.items.len() != b.items.len() {
            return false;
        }
        let mut i: usize = 0;
        while i < a.items.len()
            invariant
                heap@.wf(),
                heap@.set_wf(a@),
                heap@.set_wf(b@),
                self.0 != other.0,
                self.0 < heap@.sets.len(),
                other.0 < heap@.sets.len(),
                heap@.sets[self.0 as int] == a@,
                heap@.sets[other.0 as int] == b@,
                a.items@.len() == b.items@.len(),
                0 <= i <= a.items@.len(),
                forall|j: int|
                    0 <= j < i ==> item_index(heap@.tuples, b@.items, #[trigger] a@.items[j]) >= 0,
            decreases a.items.len() - i,
        {
            proof {
                assert(a@.items[i as int] == a.items@[i as int]@);
                assert(valid(heap@, a@.items[i as int]));
            }
            if !b.contains(heap, &a.items[i]) {
                return false;
            }
            i += 1;
        }
        if a.ints.len() != b.ints.len() {
            return false;
        }
        let mut i: usize = 0;
        while i < a.ints.len()
            invariant
                self.0 != other.0,
                self.0 < heap@.sets.len(),
                other.0 < heap@.sets.len(),
                heap@.sets[self.0 as int] == a@,
                heap@.sets[other.0 as int] == b@,
                a.ints@.len() == b.ints@.len(),
                0 <= i <= a.ints@.len(),
                a@.items.len() == b@.items.len(),
                forall|j: int|
                    0 <= j < a@.items.len() ==> item_index(heap@.tuples, b@.items, #[trigger] a@.items[j])
                        >= 0,
                forall|j: int| 0 <= j < i ==> int_item_index(b@.ints, #[trigger] a@.ints[j]) >= 0,
            decreases a.ints.len() - i,
        {
            if !b.contains_int(a.ints[i]) {
                return false;
            }
            i += 1;
        }
        true
    }
}

impl Dict {
    /// The number of entries whose key is not an integer fitting in an `i64`, and the
    /// number of those whose key is.
    pub fn part_lens(&self, heap: &Heap) -> (r: (usize, usize))
        requires
            self.0 < heap@.dicts.len(),
        ensures
            r.0 == heap@.dicts[self.0 as int].entries.len(),
            r.1 == heap@.dicts[self.0 as int].int_entries.len(),
    {
        let d = &heap.dicts[self.0];
        (d.entries.len(), d.int_entries.len())
    }
}

impl Value {
    /// A new empty dict, as a value.
    pub fn empty_dict(heap: &mut Heap) -> (r: Value)
        requires
            old(heap)@.wf(),
        ensures
            final(heap)@.wf(),
            r@ == ValueModel::Dict(old(heap)@.dicts.len() as usize),
            final(heap)@.dicts == old(heap)@.dicts.push(
                DictModel { entries: Seq::empty(), int_entries: Seq::empty() },
            ),
            final(heap)@.lists == old(heap)@.lists,
            final(heap)@.sets == old(heap)@.sets,
            final(heap)@.tuples == old(heap)@.tuples,
    {
        Value::Dict(Dict::new(heap))
    }

    /// A new empty list, as a value.
    pub fn empty_list(heap: &mut Heap) -> (r: Value)
        requires
            old(heap)@.wf(),
        ensures
            final(heap)@.wf(),
            r@ == ValueModel::List(old(heap)@.lists.len() as usize),
            final(heap)@.lists == old(heap)@.lists.push(Seq::empty()),
            final(heap)@.dicts == old(heap)@.dicts,
            final(heap)@.sets == old(heap)@.sets,
            final(heap)@.tuples == old(heap)@.tuples,
    {
        Value::List(List::new(heap))
    }
}

} // verus!
