//! Equality of values, looking into the heap: lists, tuples and dicts are equal when
//! their items are, in turn. Since a list may hold itself, the comparison is given
//! fuel: how deeply nested containers it may look into; out of fuel, it gives no
//! answer.

use vstd::prelude::*;

use crate::heap::{dict_get, dict_items, set_eq, valid, values_model, DictModel, Heap, HeapModel};
use crate::number::{number_model_eq, Number, NumberModel};
use crate::value::{Value, ValueModel};

verus! {

/// A bool as the number it equals.
pub open spec fn bool_number(b: bool) -> NumberModel {
    NumberModel::Int(if b { 1 } else { 0 })
}

/// The entries of a dict whose keys are integers fitting in an `i64`, as values.
pub open spec fn int_items(d: DictModel) -> Seq<(ValueModel, ValueModel)> {
    d.int_entries.map_values(
        |e: (i64, ValueModel)| (ValueModel::Number(NumberModel::Int(e.0 as int)), e.1),
    )
}

/// Whether the first `n` items of `xs` and `ys` are pairwise equal, compared in
/// order: the first comparison that is not `Some(true)` is the answer.
pub open spec fn items_eq(
    h: HeapModel,
    xs: Seq<ValueModel>,
    ys: Seq<ValueModel>,
    n: nat,
    fuel: nat,
) -> Option<bool>
    decreases fuel, n + 1,
{
    if n == 0 {
        Some(true)
    } else {
        match items_eq(h, xs, ys, (n - 1) as nat, fuel) {
            Some(true) => value_eq(h, xs[n - 1], ys[n - 1], fuel),
            r => r,
        }
    }
}

/// Whether each of the first `n` entries of `es` has an equal value under its key
/// in dict `d`, compared in order.
pub open spec fn entries_eq(
    h: HeapModel,
    es: Seq<(ValueModel, ValueModel)>,
    d: DictModel,
    n: nat,
    fuel: nat,
) -> Option<bool>
    decreases fuel, n + 1,
{
    if n == 0 {
        Some(true)
    } else {
        match entries_eq(h, es, d, (n - 1) as nat, fuel) {
            Some(true) => match dict_get(h.tuples, d, es[n - 1].0) {
                Some(v) => value_eq(h, es[n - 1].1, v, fuel),
                None => Some(false),
            },
            r => r,
        }
    }
}

/// Whether `a` equals `b`. Dicts are equal when they are the same dict, or hold as
/// many entries and each entry of the first has an equal value under its key in the
/// second; lists when the items they both have are equal (the longer one's extra
/// items are not looked at); tuples when they have as many items and those are
/// equal; sets when they are the same set or hold the same items; a number equals a
/// bool that is that number. `None` when comparing needs more than `fuel` levels of
/// nested lists, tuples or dicts.
pub open spec fn value_eq(h: HeapModel, a: ValueModel, b: ValueModel, fuel: nat) -> Option<bool>
    decreases fuel, 0nat,
{
    match (a, b) {
        (ValueModel::Dict(x), ValueModel::Dict(y)) => if x == y {
            Some(true)
        } else if fuel == 0 {
            None
        } else {
            let dx = h.dicts[x as int];
            let dy = h.dicts[y as int];
            if dx.entries.len() != dy.entries.len() {
                Some(false)
            } else {
                match entries_eq(h, dx.entries, dy, dx.entries.len(), (fuel - 1) as nat) {
                    Some(true) => if dx.int_entries.len() != dy.int_entries.len() {
                        Some(false)
                    } else {
                        entries_eq(h, int_items(dx), dy, dx.int_entries.len(), (fuel - 1) as nat)
                    },
                    r => r,
                }
            }
        },
        (ValueModel::List(x), ValueModel::List(y)) => if fuel == 0 {
            None
        } else {
            let xs = h.lists[x as int];
            let ys = h.lists[y as int];
            items_eq(h, xs, ys, if xs.len() <= ys.len() { xs.len() } else { ys.len() }, (fuel - 1) as nat)
        },
        (ValueModel::Tuple(x), ValueModel::Tuple(y)) => if fuel == 0 {
            None
        } else {
            let xs = h.tuples[x as int];
            let ys = h.tuples[y as int];
            if xs.len() != ys.len() {
                Some(false)
            } else {
                items_eq(h, xs, ys, xs.len(), (fuel - 1) as nat)
            }
        },
        (ValueModel::Str(x), ValueModel::Str(y)) => Some(x == y),
        (ValueModel::Number(x), ValueModel::Number(y)) => Some(number_model_eq(x, y)),
        (ValueModel::Bool(x), ValueModel::Bool(y)) => Some(x == y),
        (ValueModel::Number(x), ValueModel::Bool(y)) => Some(number_model_eq(x, bool_number(y))),
        (ValueModel::Bool(x), ValueModel::Number(y)) => Some(number_model_eq(y, bool_number(x))),
        (ValueModel::Callable(x), ValueModel::Callable(y)) => Some(x == y),
        (ValueModel::PyNone, ValueModel::PyNone) => Some(true),
        (ValueModel::PySet(x), ValueModel::PySet(y)) => Some(
            x == y || set_eq(h.tuples, h.sets[x as int], h.sets[y as int]),
        ),
        _ => Some(false),
    }
}

/// Once a comparison is not `Some(true)`, comparing more items gives the same.
proof fn lemma_items_eq_stop(
    h: HeapModel,
    xs: Seq<ValueModel>,
    ys: Seq<ValueModel>,
    j: nat,
    n: nat,
    fuel: nat,
)
    requires
        j <= n,
        items_eq(h, xs, ys, j, fuel) != Some(true),
    ensures
        items_eq(h, xs, ys, n, fuel) == items_eq(h, xs, ys, j, fuel),
    decreases n - j,
{
    if j < n {
        lemma_items_eq_stop(h, xs, ys, j, (n - 1) as nat, fuel);
    }
}

/// Once a comparison is not `Some(true)`, comparing more entries gives the same.
proof fn lemma_entries_eq_stop(
    h: HeapModel,
    es: Seq<(ValueModel, ValueModel)>,
    d: DictModel,
    j: nat,
    n: nat,
    fuel: nat,
)
    requires
        j <= n,
        entries_eq(h, es, d, j, fuel) != Some(true),
    ensures
        entries_eq(h, es, d, n, fuel) == entries_eq(h, es, d, j, fuel),
    decreases n - j,
{
    if j < n {
        lemma_entries_eq_stop(h, es, d, j, (n - 1) as nat, fuel);
    }
}

impl Value {
    /// Whether this value equals `other`, as [`value_eq`] says, looking into at most
    /// `fuel` levels of nested containers.
    pub fn deep_eq(&self, heap: &Heap, other: &Value, fuel: usize) -> (r: Option<bool>)
        requires
            heap@.wf(),
            valid(heap@, self@),
            valid(heap@, other@),
        ensures
            r == value_eq(heap@, self@, other@, fuel as nat),
        decreases fuel, 0nat,
    {
        match (self, other) {
            (Value::Dict(x), Value::Dict(y)) => {
                if x.0 == y.0 {
                    return Some(true);
                }
                if fuel == 0 {
                    return None;
                }
                let ghost h = heap@;
                let ghost dx = h.dicts[x.0 as int];
                let ghost dy = h.dicts[y.0 as int];
                let ghost f = (fuel - 1) as nat;
                let (xe, xi) = x.part_lens(heap);
                let (ye, yi) = y.part_lens(heap);
                if xe != ye {
                    return Some(false);
                }
                let items = x.items(heap);
                proof {
                    assert(h.dict_wf(dx));
                    assert(dict_items(dx) =~= dx.entries + int_items(dx));
                    assert(items@.map_values(|e: (Value, Value)| (e.0@, e.1@)).len() == items@.len());
                    assert(items@.len() == dx.entries.len() + dx.int_entries.len());
                }
                let total = items.len();
                let mut i: usize = 0;
                while i < xe
                    invariant
                        h == heap@,
                        self@ == ValueModel::Dict(x.0),
                        other@ == ValueModel::Dict(y.0),
                        x.0 != y.0,
                        xe == dy.entries.len(),
                        total == items@.len(),
                        heap@.wf(),
                        x.0 < h.dicts.len(),
                        y.0 < h.dicts.len(),
                        dx == h.dicts[x.0 as int],
                        dy == h.dicts[y.0 as int],
                        h.dict_wf(dx),
                        f == fuel - 1,
                        fuel > 0,
                        xe == dx.entries.len(),
                        items@.map_values(|e: (Value, Value)| (e.0@, e.1@)) == dx.entries + int_items(dx),
                        items@.len() == dx.entries.len() + dx.int_entries.len(),
                        0 <= i <= xe,
                        entries_eq(h, dx.entries, dy, i as nat, f) == Some(true),
                    decreases xe - i,
                {
                    proof {
                        let e = items@.map_values(|e: (Value, Value)| (e.0@, e.1@));
                        assert(e[i as int] == (items@[i as int].0@, items@[i as int].1@));
                        assert(e[i as int] == dx.entries[i as int]);
                        assert(valid(h, dx.entries[i as int].0));
                    }
                    let k = &items[i].0;
                    let v = &items[i].1;
                    match y.get(heap, k) {
                        None => {
                            proof {
                                lemma_entries_eq_stop(h, dx.entries, dy, (i + 1) as nat, xe as nat, f);
                            }
                            return Some(false);
                        },
                        Some(v2) => {
                            let r = v.deep_eq(heap, &v2, fuel - 1);
                            match r {
                                Some(true) => {},
                                _ => {
                                    proof {
                                        lemma_entries_eq_stop(
                                            h,
                                            dx.entries,
                                            dy,
                                            (i + 1) as nat,
                                            xe as nat,
                                            f,
                                        );
                                    }
                                    return r;
                                },
                            }
                        },
                    }
                    i += 1;
                }
                if xi != yi {
                    return Some(false);
                }
                let mut j: usize = 0;
                while j < xi
                    invariant
                        h == heap@,
                        self@ == ValueModel::Dict(x.0),
                        other@ == ValueModel::Dict(y.0),
                        x.0 != y.0,
                        xe == dy.entries.len(),
                        xi == dy.int_entries.len(),
                        total == items@.len(),
                        heap@.wf(),
                        x.0 < h.dicts.len(),
                        y.0 < h.dicts.len(),
                        dx == h.dicts[x.0 as int],
                        dy == h.dicts[y.0 as int],
                        h.dict_wf(dx),
                        f == fuel - 1,
                        fuel > 0,
                        xe == dx.entries.len(),
                        xi == dx.int_entries.len(),
                        entries_eq(h, dx.entries, dy, xe as nat, f) == Some(true),
                        items@.map_values(|e: (Value, Value)| (e.0@, e.1@)) == dx.entries + int_items(dx),
                        items@.len() == dx.entries.len() + dx.int_entries.len(),
                        0 <= j <= xi,
                        entries_eq(h, int_items(dx), dy, j as nat, f) == Some(true),
                    decreases xi - j,
                {
                    proof {
                        let e = items@.map_values(|e: (Value, Value)| (e.0@, e.1@));
                        assert(e[xe + j] == (items@[xe + j].0@, items@[xe + j].1@));
                        assert(e[xe + j] == int_items(dx)[j as int]);
                        assert(valid(h, dx.int_entries[j as int].1));
                    }
                    let k = &items[xe + j].0;
                    let v = &items[xe + j].1;
                    match y.get(heap, k) {
                        None => {
                            proof {
                                lemma_entries_eq_stop(h, int_items(dx), dy, (j + 1) as nat, xi as nat, f);
                            }
                            return Some(false);
                        },
                        Some(v2) => {
                            let r = v.deep_eq(heap, &v2, fuel - 1);
                            match r {
                                Some(true) => {},
                                _ => {
                                    proof {
                                        lemma_entries_eq_stop(
                                            h,
                                            int_items(dx),
                                            dy,
                                            (j + 1) as nat,
                                            xi as nat,
                                            f,
                                        );
                                    }
                                    return r;
                                },
                            }
                        },
                    }
                    j += 1;
                }
                Some(true)
            },
            (Value::List(x), Value::List(y)) => {
                if fuel == 0 {
                    return None;
                }
                let xs = x.items(heap);
                let ys = y.items(heap);
                let n = if xs.len() <= ys.len() {
                    xs.len()
                } else {
                    ys.len()
                };
                proof {
                    assert(crate::heap::all_valid(heap@, heap@.lists[x.0 as int]));
                    assert(crate::heap::all_valid(heap@, heap@.lists[y.0 as int]));
                }
                Self::all_items_eq(heap, &xs, &ys, n, fuel - 1)
            },
            (Value::Tuple(x), Value::Tuple(y)) => {
                if fuel == 0 {
                    return None;
                }
                let xs = x.items(heap);
                let ys = y.items(heap);
                if xs.len() != ys.len() {
                    return Some(false);
                }
                proof {
                    assert(crate::heap::all_valid(heap@, heap@.tuples[x.0 as int]));
                    assert(crate::heap::all_valid(heap@, heap@.tuples[y.0 as int]));
                }
                Self::all_items_eq(heap, &xs, &ys, xs.len(), fuel - 1)
            },
            (Value::Str(x), Value::Str(y)) => Some(x.equals(y)),
            (Value::Number(x), Value::Number(y)) => Some(*x == *y),
            (Value::Bool(x), Value::Bool(y)) => Some(x.get() == y.get()),
            (Value::Number(x), Value::Bool(y)) => Some(*x == Number::from_bool(y.get())),
            (Value::Bool(x), Value::Number(y)) => Some(*y == Number::from_bool(x.get())),
            (Value::Callable(x), Value::Callable(y)) => Some(x.class == y.class),
            (Value::PyNone(_), Value::PyNone(_)) => Some(true),
            (Value::PySet(x), Value::PySet(y)) => Some(x.equals(heap, y)),
            _ => Some(false),
        }
    }

    /// Whether the first `n` items of `xs` and `ys` are pairwise equal.
    fn all_items_eq(heap: &Heap, xs: &Vec<Value>, ys: &Vec<Value>, n: usize, fuel: usize) -> (r:
        Option<bool>)
        requires
            heap@.wf(),
            n <= xs@.len(),
            n <= ys@.len(),
            crate::heap::all_valid(heap@, values_model(xs@)),
            crate::heap::all_valid(heap@, values_model(ys@)),
        ensures
            r == items_eq(heap@, values_model(xs@), values_model(ys@), n as nat, fuel as nat),
        decreases fuel, 1nat,
    {
        let ghost sx = values_model(xs@);
        let ghost sy = values_model(ys@);
        let mut i: usize = 0;
        while i < n
            invariant
                heap@.wf(),
                n <= xs@.len(),
                n <= ys@.len(),
                sx == values_model(xs@),
                sy == values_model(ys@),
                crate::heap::all_valid(heap@, sx),
                crate::heap::all_valid(heap@, sy),
                0 <= i <= n,
                items_eq(heap@, sx, sy, i as nat, fuel as nat) == Some(true),
            decreases n - i,
        {
            proof {
                assert(valid(heap@, sx[i as int]));
                assert(valid(heap@, sy[i as int]));
            }
            let r = xs[i].deep_eq(heap, &ys[i], fuel);
            match r {
                Some(true) => {},
                _ => {
                    proof {
                        lemma_items_eq_stop(heap@, sx, sy, (i + 1) as nat, n as nat, fuel as nat);
                    }
                    return r;
                },
            }
            i += 1;
        }
        Some(true)
    }
}

/// More fuel does not change an answer given with less.
proof fn lemma_items_eq_more_fuel(
    h: HeapModel,
    xs: Seq<ValueModel>,
    ys: Seq<ValueModel>,
    n: nat,
    f1: nat,
    f2: nat,
)
    requires
        f1 <= f2,
        items_eq(h, xs, ys, n, f1) is Some,
    ensures
        items_eq(h, xs, ys, n, f2) == items_eq(h, xs, ys, n, f1),
    decreases f1, n + 1,
{
    if n > 0 {
        lemma_items_eq_more_fuel(h, xs, ys, (n - 1) as nat, f1, f2);
        if items_eq(h, xs, ys, (n - 1) as nat, f1) == Some(true) {
            law_value_eq_more_fuel(h, xs[n - 1], ys[n - 1], f1, f2);
        }
    }
}

/// More fuel does not change an answer given with less.
proof fn lemma_entries_eq_more_fuel(
    h: HeapModel,
    es: Seq<(ValueModel, ValueModel)>,
    d: DictModel,
    n: nat,
    f1: nat,
    f2: nat,
)
    requires
        f1 <= f2,
        entries_eq(h, es, d, n, f1) is Some,
    ensures
        entries_eq(h, es, d, n, f2) == entries_eq(h, es, d, n, f1),
    decreases f1, n + 1,
{
    if n > 0 {
        lemma_entries_eq_more_fuel(h, es, d, (n - 1) as nat, f1, f2);
        if entries_eq(h, es, d, (n - 1) as nat, f1) == Some(true) {
            if let Some(v) = dict_get(h.tuples, d, es[n - 1].0) {
                law_value_eq_more_fuel(h, es[n - 1].1, v, f1, f2);
            }
        }
    }
}

/// Equality answers the same with any fuel at least that which gave an answer: the
/// fuel only decides whether an answer comes, not which.
pub proof fn law_value_eq_more_fuel(h: HeapModel, a: ValueModel, b: ValueModel, f1: nat, f2: nat)
    requires
        f1 <= f2,
        value_eq(h, a, b, f1) is Some,
    ensures
        value_eq(h, a, b, f2) == value_eq(h, a, b, f1),
    decreases f1, 0nat,
{
    match (a, b) {
        (ValueModel::Dict(x), ValueModel::Dict(y)) => {
            if x != y && f1 > 0 {
                let dx = h.dicts[x as int];
                let dy = h.dicts[y as int];
                if dx.entries.len() == dy.entries.len() {
                    lemma_entries_eq_more_fuel(
                        h,
                        dx.entries,
                        dy,
                        dx.entries.len(),
                        (f1 - 1) as nat,
                        (f2 - 1) as nat,
                    );
                    if entries_eq(h, dx.entries, dy, dx.entries.len(), (f1 - 1) as nat) == Some(true)
                        && dx.int_entries.len() == dy.int_entries.len() {
                        lemma_entries_eq_more_fuel(
                            h,
                            int_items(dx),
                            dy,
                            dx.int_entries.len(),
                            (f1 - 1) as nat,
                            (f2 - 1) as nat,
                        );
                    }
                }
            }
        },
        (ValueModel::List(x), ValueModel::List(y)) => {
            let xs = h.lists[x as int];
            let ys = h.lists[y as int];
            lemma_items_eq_more_fuel(
                h,
                xs,
                ys,
                if xs.len() <= ys.len() { xs.len() } else { ys.len() },
                (f1 - 1) as nat,
                (f2 - 1) as nat,
            );
        },
        (ValueModel::Tuple(x), ValueModel::Tuple(y)) => {
            let xs = h.tuples[x as int];
            let ys = h.tuples[y as int];
            if xs.len() == ys.len() {
                lemma_items_eq_more_fuel(h, xs, ys, xs.len(), (f1 - 1) as nat, (f2 - 1) as nat);
            }
        },
        _ => {},
    }
}

/// Whether the first `n` of `xs` hold no dict or set, looking `fuel` levels into
/// their lists and tuples.
pub open spec fn items_free(h: HeapModel, xs: Seq<ValueModel>, n: nat, fuel: nat) -> bool
    decreases fuel, n + 1,
{
    if n == 0 {
        true
    } else {
        items_free(h, xs, (n - 1) as nat, fuel) && no_dicts_or_sets(h, xs[n - 1], fuel)
    }
}

/// Whether `v` holds no dict or set, looking `fuel` levels into its lists and tuples.
pub open spec fn no_dicts_or_sets(h: HeapModel, v: ValueModel, fuel: nat) -> bool
    decreases fuel, 0nat,
{
    match v {
        ValueModel::Dict(_) => false,
        ValueModel::PySet(_) => false,
        ValueModel::List(i) => fuel == 0 || items_free(
            h,
            h.lists[i as int],
            h.lists[i as int].len(),
            (fuel - 1) as nat,
        ),
        ValueModel::Tuple(i) => fuel == 0 || items_free(
            h,
            h.tuples[i as int],
            h.tuples[i as int].len(),
            (fuel - 1) as nat,
        ),
        _ => true,
    }
}

/// What holds of some items holds of fewer.
proof fn lemma_items_free_prefix(h: HeapModel, xs: Seq<ValueModel>, n: nat, m: nat, fuel: nat)
    requires
        n <= m,
        items_free(h, xs, m, fuel),
    ensures
        items_free(h, xs, n, fuel),
    decreases m - n,
{
    if n < m {
        lemma_items_free_prefix(h, xs, n, (m - 1) as nat, fuel);
    }
}

/// Comparing items pairwise gives the same either way round.
proof fn lemma_items_eq_symmetric(
    h: HeapModel,
    xs: Seq<ValueModel>,
    ys: Seq<ValueModel>,
    n: nat,
    fuel: nat,
)
    requires
        items_free(h, xs, n, fuel),
        items_free(h, ys, n, fuel),
    ensures
        items_eq(h, xs, ys, n, fuel) == items_eq(h, ys, xs, n, fuel),
    decreases fuel, n + 1,
{
    if n > 0 {
        lemma_items_eq_symmetric(h, xs, ys, (n - 1) as nat, fuel);
        law_value_eq_symmetric(h, xs[n - 1], ys[n - 1], fuel);
    }
}

/// Equality is symmetric: comparing `a` with `b` answers as comparing `b` with `a`,
/// for values whose nested lists and tuples hold no dict or set.
pub proof fn law_value_eq_symmetric(h: HeapModel, a: ValueModel, b: ValueModel, fuel: nat)
    requires
        no_dicts_or_sets(h, a, fuel),
        no_dicts_or_sets(h, b, fuel),
    ensures
        value_eq(h, a, b, fuel) == value_eq(h, b, a, fuel),
    decreases fuel, 0nat,
{
    match (a, b) {
        (ValueModel::List(x), ValueModel::List(y)) => {
            if fuel > 0 {
                let xs = h.lists[x as int];
                let ys = h.lists[y as int];
                let n: nat = if xs.len() <= ys.len() { xs.len() } else { ys.len() };
                lemma_items_free_prefix(h, xs, n, xs.len(), (fuel - 1) as nat);
                lemma_items_free_prefix(h, ys, n, ys.len(), (fuel - 1) as nat);
                lemma_items_eq_symmetric(h, xs, ys, n, (fuel - 1) as nat);
            }
        },
        (ValueModel::Tuple(x), ValueModel::Tuple(y)) => {
            if fuel > 0 && h.tuples[x as int].len() == h.tuples[y as int].len() {
                lemma_items_eq_symmetric(
                    h,
                    h.tuples[x as int],
                    h.tuples[y as int],
                    h.tuples[x as int].len(),
                    (fuel - 1) as nat,
                );
            }
        },
        _ => {},
    }
}

} // verus!
