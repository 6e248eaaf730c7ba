//! The operations on values that reach into the heap.

use vstd::prelude::*;

use crate::bigint::{int_and, int_or};
use crate::error::{Error, ErrorModel, Kind, Operation};
use crate::heap::{
    all_valid, dict_insert_all, dict_items, valid, values_model, DictModel, Heap, HeapModel, SetModel,
};
use crate::number::NumberModel;
use crate::machine::{add_items, insert_pairs};
use crate::value::{kind_of, Dict, List, PySet, Value, ValueModel};

verus! {

impl Value {
    /// Appends the items of `items` to this value, which must be a list.
    pub fn extend_with(&self, heap: &mut Heap, items: &List) -> (r: Result<(), Error>)
        requires
            old(heap)@.wf(),
            valid(old(heap)@, self@),
            items.0 < old(heap)@.lists.len(),
        ensures
            final(heap)@.wf(),
            match self@ {
                ValueModel::List(l) => r is Ok && final(heap)@ == (crate::heap::HeapModel {
                    lists: old(heap)@.lists.update(
                        l as int,
                        old(heap)@.lists[l as int] + old(heap)@.lists[items.0 as int],
                    ),
                    ..old(heap)@
                }),
                _ => r matches Err(Error::CantExtend(k)) && k == kind_of(self@) && final(heap)@
                    == old(heap)@,
            },
    {
        match self {
            Value::List(list) => list.append_list(heap, items),
            _ => Err(Error::CantExtend(self.kind())),
        }
    }
}

/// Once a key cannot be hashed, setting more entries gives the same error.
proof fn lemma_insert_pairs_err(
    tuples: Seq<Seq<ValueModel>>,
    d: DictModel,
    items: Seq<ValueModel>,
    j: nat,
    n: nat,
)
    requires
        j <= n,
        insert_pairs(tuples, d, items, j) is Err,
    ensures
        insert_pairs(tuples, d, items, n) == insert_pairs(tuples, d, items, j),
    decreases n - j,
{
    if j < n {
        lemma_insert_pairs_err(tuples, d, items, j, (n - 1) as nat);
    }
}

/// Once an item cannot be hashed, adding more items gives the same error.
proof fn lemma_add_items_err(
    tuples: Seq<Seq<ValueModel>>,
    s: SetModel,
    items: Seq<ValueModel>,
    j: nat,
    n: nat,
)
    requires
        j <= n,
        add_items(tuples, s, items, j) is Err,
    ensures
        add_items(tuples, s, items, n) == add_items(tuples, s, items, j),
    decreases n - j,
{
    if j < n {
        lemma_add_items_err(tuples, s, items, j, (n - 1) as nat);
    }
}

impl Dict {
    /// Sets entries from the pairs of `values` (key, then value), in order; a key left
    /// without a value is dropped. Stops at the first key that cannot be hashed.
    pub fn insert_pairs(&self, heap: &mut Heap, values: &Vec<Value>) -> (r: Result<(), Error>)
        requires
            old(heap)@.wf(),
            self.0 < old(heap)@.dicts.len(),
            all_valid(old(heap)@, values_model(values@)),
        ensures
            final(heap)@.wf(),
            final(heap)@.lists == old(heap)@.lists,
            final(heap)@.sets == old(heap)@.sets,
            final(heap)@.tuples == old(heap)@.tuples,
            final(heap)@.dicts.len() == old(heap)@.dicts.len(),
            match insert_pairs(
                old(heap)@.tuples,
                old(heap)@.dicts[self.0 as int],
                values_model(values@),
                values@.len() / 2,
            ) {
                Ok(d) => r is Ok && final(heap)@.dicts == old(heap)@.dicts.update(self.0 as int, d),
                Err(e) => r matches Err(x) && x@ == e,
            },
    {
        let ghost h0 = heap@;
        let ghost sv = values_model(values@);
        let ghost d0 = h0.dicts[self.0 as int];
        let len = values.len();
        let n = len / 2;
        proof {
            assert(h0.dicts.update(self.0 as int, d0) =~= h0.dicts);
        }
        let mut i: usize = 0;
        while i < n
            invariant
                heap@.wf(),
                h0 == old(heap)@,
                0 <= i <= n,
                len == values@.len(),
                n == values@.len() / 2,
                sv == values_model(values@),
                all_valid(h0, sv),
                self.0 < h0.dicts.len(),
                d0 == h0.dicts[self.0 as int],
                heap@.lists == h0.lists,
                heap@.sets == h0.sets,
                heap@.tuples == h0.tuples,
                heap@.dicts == h0.dicts.update(self.0 as int, heap@.dicts[self.0 as int]),
                insert_pairs(h0.tuples, d0, sv, i as nat) == Ok::<DictModel, ErrorModel>(
                    heap@.dicts[self.0 as int],
                ),
            decreases n - i,
        {
            proof {
                assert(2 * i + 1 < values@.len()) by (nonlinear_arith)
                    requires
                        i < n,
                        n == values@.len() / 2,
                ;
                assert(valid(h0, sv[2 * i as int]));
                assert(valid(h0, sv[2 * i + 1]));
            }
            let key = values[2 * i].clone();
            let value = values[2 * i + 1].clone();
            match self.insert(heap, key, value) {
                Ok(()) => {},
                Err(e) => {
                    proof {
                        lemma_insert_pairs_err(h0.tuples, d0, sv, (i + 1) as nat, sv.len() / 2);
                    }
                    return Err(e);
                },
            }
            proof {
                assert(heap@.dicts =~= h0.dicts.update(self.0 as int, heap@.dicts[self.0 as int]));
            }
            i += 1;
        }
        Ok(())
    }
}

impl PySet {
    /// Adds each of `values`, in order; stops at the first that cannot be hashed.
    pub fn add_items(&self, heap: &mut Heap, values: &Vec<Value>) -> (r: Result<(), Error>)
        requires
            old(heap)@.wf(),
            self.0 < old(heap)@.sets.len(),
            all_valid(old(heap)@, values_model(values@)),
        ensures
            final(heap)@.wf(),
            final(heap)@.lists == old(heap)@.lists,
            final(heap)@.dicts == old(heap)@.dicts,
            final(heap)@.tuples == old(heap)@.tuples,
            final(heap)@.sets.len() == old(heap)@.sets.len(),
            match add_items(
                old(heap)@.tuples,
                old(heap)@.sets[self.0 as int],
                values_model(values@),
                values@.len(),
            ) {
                Ok(s) => r is Ok && final(heap)@.sets == old(heap)@.sets.update(self.0 as int, s),
                Err(e) => r matches Err(x) && x@ == e,
            },
    {
        let ghost h0 = heap@;
        let ghost sv = values_model(values@);
        let ghost s0 = h0.sets[self.0 as int];
        proof {
            assert(h0.sets.update(self.0 as int, s0) =~= h0.sets);
        }
        let mut i: usize = 0;
        while i < values.len()
            invariant
                heap@.wf(),
                h0 == old(heap)@,
                0 <= i <= values@.len(),
                sv == values_model(values@),
                all_valid(h0, sv),
                self.0 < h0.sets.len(),
                s0 == h0.sets[self.0 as int],
                heap@.lists == h0.lists,
                heap@.dicts == h0.dicts,
                heap@.tuples == h0.tuples,
                heap@.sets == h0.sets.update(self.0 as int, heap@.sets[self.0 as int]),
                add_items(h0.tuples, s0, sv, i as nat) == Ok::<SetModel, ErrorModel>(
                    heap@.sets[self.0 as int],
                ),
            decreases values.len() - i,
        {
            proof {
                assert(valid(h0, sv[i as int]));
            }
            let item = values[i].clone();
            match self.insert(heap, item) {
                Ok(()) => {},
                Err(e) => {
                    proof {
                        lemma_add_items_err(h0.tuples, s0, sv, (i + 1) as nat, sv.len());
                    }
                    return Err(e);
                },
            }
            proof {
                assert(heap@.sets =~= h0.sets.update(self.0 as int, heap@.sets[self.0 as int]));
            }
            i += 1;
        }
        Ok(())
    }
}

/// What can index a list: a `usize`, or a value that is an integer fitting in one.
pub trait ListIndex {
    /// The index, if this is one.
    spec fn index_spec(&self) -> Option<usize>;

    fn list_index(&self) -> (r: Option<usize>)
        ensures
            r == self.index_spec(),
    ;
}

impl ListIndex for usize {
    open spec fn index_spec(&self) -> Option<usize> {
        Some(*self)
    }

    fn list_index(&self) -> (r: Option<usize>) {
        Some(*self)
    }
}

impl ListIndex for Value {
    open spec fn index_spec(&self) -> Option<usize> {
        self.to_usize_spec()
    }

    fn list_index(&self) -> (r: Option<usize>) {
        self.to_usize()
    }
}

/// Whether two handles are the same object.
pub trait SameAs {
    spec fn same_spec(&self, other: &Self) -> bool;

    fn same_as(&self, other: &Self) -> (r: bool)
        ensures
            r == self.same_spec(other),
    ;
}

impl SameAs for List {
    open spec fn same_spec(&self, other: &Self) -> bool {
        self.0 == other.0
    }

    fn same_as(&self, other: &Self) -> (r: bool) {
        self.0 == other.0
    }
}

impl SameAs for Dict {
    open spec fn same_spec(&self, other: &Self) -> bool {
        self.0 == other.0
    }

    fn same_as(&self, other: &Self) -> (r: bool) {
        self.0 == other.0
    }
}

impl SameAs for PySet {
    open spec fn same_spec(&self, other: &Self) -> bool {
        self.0 == other.0
    }

    fn same_as(&self, other: &Self) -> (r: bool) {
        self.0 == other.0
    }
}

impl SameAs for crate::value::Tuple {
    open spec fn same_spec(&self, other: &Self) -> bool {
        self.0 == other.0
    }

    fn same_as(&self, other: &Self) -> (r: bool) {
        self.0 == other.0
    }
}

/// What an arithmetic operation on two values gives: for two integers, the integer
/// `int_result` gives; `None` when either is a float (float arithmetic is left to the
/// caller); an error for anything but numbers.
pub open spec fn arith_spec(
    op: Operation,
    a: ValueModel,
    b: ValueModel,
    int_result: spec_fn(int, int) -> int,
) -> Result<Option<ValueModel>, ErrorModel> {
    match (a, b) {
        (ValueModel::Number(NumberModel::Int(x)), ValueModel::Number(NumberModel::Int(y))) => Ok(
            Some(ValueModel::Number(NumberModel::Int(int_result(x, y)))),
        ),
        (ValueModel::Number(_), ValueModel::Number(_)) => Ok(None),
        _ => Err(ErrorModel::CantApply { op, lhs: kind_of(a), rhs: kind_of(b) }),
    }
}

/// The result of a value operation as its model gives it.
pub open spec fn value_result(r: Result<Option<Value>, Error>, s: Result<Option<ValueModel>, ErrorModel>) -> bool {
    match s {
        Ok(Some(v)) => r matches Ok(Some(x)) && x@ == v,
        Ok(None) => r matches Ok(None),
        Err(e) => r matches Err(x) && x@ == e,
    }
}

/// What adding two values gives, and the heap after: integers add exactly; a float
/// is left to the caller (`None`); two strings give their concatenation; two lists
/// give a new list of the items of the first followed by those of the second; other
/// pairs cannot be added.
pub open spec fn add_spec(h: HeapModel, a: ValueModel, b: ValueModel) -> (
    Result<Option<ValueModel>, ErrorModel>,
    HeapModel,
) {
    match (a, b) {
        (ValueModel::Str(x), ValueModel::Str(y)) => (Ok(Some(ValueModel::Str(x + y))), h),
        (ValueModel::List(i), ValueModel::List(j)) => (
            Ok(Some(ValueModel::List(h.lists.len() as usize))),
            HeapModel { lists: h.lists.push(h.lists[i as int] + h.lists[j as int]), ..h },
        ),
        _ => (arith_spec(Operation::Add, a, b, |x: int, y: int| x + y), h),
    }
}

impl Value {
    /// The sum of two values: of two numbers, two strings or two lists.
    pub fn add(&self, heap: &mut Heap, rhs: &Value) -> (r: Result<Option<Value>, Error>)
        requires
            old(heap)@.wf(),
            valid(old(heap)@, self@),
            valid(old(heap)@, rhs@),
        ensures
            final(heap)@.wf(),
            value_result(r, add_spec(old(heap)@, self@, rhs@).0),
            final(heap)@ == add_spec(old(heap)@, self@, rhs@).1,
            r matches Ok(Some(v)) ==> valid(final(heap)@, v@),
    {
        match (self, rhs) {
            (Value::Number(a), Value::Number(b)) => match a.add(b) {
                Some(n) => Ok(Some(Value::Number(n))),
                None => Ok(None),
            },
            (Value::Str(a), Value::Str(b)) => Ok(Some(Value::Str(a.concat(b)))),
            (Value::List(a), Value::List(b)) => {
                let ghost h0 = heap@;
                let l = a.concat(heap, b);
                proof {
                    assert(heap@ == (HeapModel {
                        lists: h0.lists.push(h0.lists[a.0 as int] + h0.lists[b.0 as int]),
                        ..h0
                    }));
                }
                Ok(Some(Value::List(l)))
            },
            _ => Err(Error::CantApply { op: Operation::Add, lhs: self.kind(), rhs: rhs.kind() }),
        }
    }

    /// The difference of two numbers.
    pub fn sub(&self, rhs: &Value) -> (r: Result<Option<Value>, Error>)
        ensures
            value_result(r, arith_spec(Operation::Sub, self@, rhs@, |x: int, y: int| x - y)),
    {
        match (self, rhs) {
            (Value::Number(a), Value::Number(b)) => match a.sub(b) {
                Some(n) => Ok(Some(Value::Number(n))),
                None => Ok(None),
            },
            _ => Err(Error::CantApply { op: Operation::Sub, lhs: self.kind(), rhs: rhs.kind() }),
        }
    }

    /// The product of two numbers.
    pub fn mul(&self, rhs: &Value) -> (r: Result<Option<Value>, Error>)
        ensures
            value_result(r, arith_spec(Operation::Mul, self@, rhs@, |x: int, y: int| x * y)),
    {
        match (self, rhs) {
            (Value::Number(a), Value::Number(b)) => match a.mul(b) {
                Some(n) => Ok(Some(Value::Number(n))),
                None => Ok(None),
            },
            _ => Err(Error::CantApply { op: Operation::Mul, lhs: self.kind(), rhs: rhs.kind() }),
        }
    }

    /// The floor of a number: an integer is its own; `None` for a float, whose floor
    /// is left to the caller.
    pub fn floor(&self) -> (r: Result<Option<Value>, Error>)
        ensures
            value_result(
                r,
                match self@ {
                    ValueModel::Number(NumberModel::Int(_)) => Ok(Some(self@)),
                    ValueModel::Number(_) => Ok(None),
                    _ => Err(ErrorModel::WrongKind { wanted: Kind::Number, got: kind_of(self@) }),
                },
            ),
    {
        let n = self.as_number()?;
        match n.floor() {
            Some(f) => Ok(Some(Value::Number(f))),
            None => Ok(None),
        }
    }

    /// The ceiling of a number: an integer is its own; `None` for a float, whose
    /// ceiling is left to the caller.
    pub fn ceil(&self) -> (r: Result<Option<Value>, Error>)
        ensures
            value_result(
                r,
                match self@ {
                    ValueModel::Number(NumberModel::Int(_)) => Ok(Some(self@)),
                    ValueModel::Number(_) => Ok(None),
                    _ => Err(ErrorModel::WrongKind { wanted: Kind::Number, got: kind_of(self@) }),
                },
            ),
    {
        let n = self.as_number()?;
        match n.ceil() {
            Some(c) => Ok(Some(Value::Number(c))),
            None => Ok(None),
        }
    }

    /// Bitwise and of two integers, or logical and of two bools.
    pub fn and(&self, rhs: &Value) -> (r: Result<Value, Error>)
        ensures
            match (self@, rhs@) {
                (ValueModel::Number(NumberModel::Int(x)), ValueModel::Number(NumberModel::Int(y))) => r matches Ok(v) && v@ == ValueModel::Number(NumberModel::Int(int_and(x, y))),
                (ValueModel::Number(_), ValueModel::Number(_)) => r matches Err(Error::FloatBitwise),
                (ValueModel::Bool(x), ValueModel::Bool(y)) => r matches Ok(v) && v@ == ValueModel::Bool(x && y),
                _ => r matches Err(x) && x@ == ErrorModel::CantApply { op: Operation::And, lhs: kind_of(self@), rhs: kind_of(rhs@) },
            },
    {
        match (self, rhs) {
            (Value::Number(a), Value::Number(b)) => {
                let n = a.and(b)?;
                Ok(Value::Number(n))
            },
            (Value::Bool(a), Value::Bool(b)) => Ok(Value::bool(a.get() && b.get())),
            _ => Err(Error::CantApply { op: Operation::And, lhs: self.kind(), rhs: rhs.kind() }),
        }
    }

    /// Bitwise or of two integers, or logical or of two bools.
    pub fn or(&self, rhs: &Value) -> (r: Result<Value, Error>)
        ensures
            match (self@, rhs@) {
                (ValueModel::Number(NumberModel::Int(x)), ValueModel::Number(NumberModel::Int(y))) => r matches Ok(v) && v@ == ValueModel::Number(NumberModel::Int(int_or(x, y))),
                (ValueModel::Number(_), ValueModel::Number(_)) => r matches Err(Error::FloatBitwise),
                (ValueModel::Bool(x), ValueModel::Bool(y)) => r matches Ok(v) && v@ == ValueModel::Bool(x || y),
                _ => r matches Err(x) && x@ == ErrorModel::CantApply { op: Operation::Or, lhs: kind_of(self@), rhs: kind_of(rhs@) },
            },
    {
        match (self, rhs) {
            (Value::Number(a), Value::Number(b)) => {
                let n = a.or(b)?;
                Ok(Value::Number(n))
            },
            (Value::Bool(a), Value::Bool(b)) => Ok(Value::bool(a.get() || b.get())),
            _ => Err(Error::CantApply { op: Operation::Or, lhs: self.kind(), rhs: rhs.kind() }),
        }
    }

    /// Takes out the item at `index` of this value, which must be a list.
    pub fn pop(&self, heap: &mut Heap, index: &Value) -> (r: Result<Option<Value>, Error>)
        requires
            old(heap)@.wf(),
            valid(old(heap)@, self@),
        ensures
            final(heap)@.wf(),
            match self@ {
                ValueModel::List(l) => match index.to_usize_spec() {
                    None => r matches Err(Error::InvalidListIndex) && final(heap)@ == old(heap)@,
                    Some(i) => if i < old(heap)@.lists[l as int].len() {
                        (r matches Ok(Some(v)) && v@ == old(heap)@.lists[l as int][i as int])
                            && final(heap)@ == (HeapModel {
                            lists: old(heap)@.lists.update(l as int, old(heap)@.lists[l as int].remove(i as int)),
                            ..old(heap)@
                        })
                    } else {
                        r matches Ok(None) && final(heap)@ == old(heap)@
                    },
                },
                _ => (r matches Err(x) && x@ == ErrorModel::WrongKind { wanted: Kind::List, got: kind_of(self@) })
                    && final(heap)@ == old(heap)@,
            },
    {
        let list = self.as_list()?;
        list.remove_at(heap, index)
    }

    /// Inserts every entry of `dict` into this value; both must be dicts.
    pub fn update(&self, heap: &mut Heap, dict: &Value) -> (r: Result<(), Error>)
        requires
            old(heap)@.wf(),
            valid(old(heap)@, self@),
            valid(old(heap)@, dict@),
        ensures
            final(heap)@.wf(),
            match (self@, dict@) {
                (ValueModel::Dict(a), ValueModel::Dict(b)) => r is Ok && (a == b ==> final(heap)@ == old(heap)@) && (a != b ==> final(heap)@ == (HeapModel {
                    dicts: old(heap)@.dicts.update(a as int, dict_insert_all(old(heap)@.tuples, old(heap)@.dicts[a as int], dict_items(old(heap)@.dicts[b as int]))),
                    ..old(heap)@
                })),
                (ValueModel::Dict(_), _) => (r matches Err(x) && x@ == ErrorModel::WrongKind { wanted: Kind::Dict, got: kind_of(dict@) }) && final(heap)@ == old(heap)@,
                _ => (r matches Err(x) && x@ == ErrorModel::WrongKind { wanted: Kind::Dict, got: kind_of(self@) }) && final(heap)@ == old(heap)@,
            },
    {
        let this = self.as_dict()?;
        let other = dict.as_dict()?;
        this.update(heap, &other)
    }
}

/// What a dict holds after inserting the entries `es` in order, skipping those whose
/// key cannot be hashed.
pub open spec fn dict_insert_hashable(
    tuples: Seq<Seq<ValueModel>>,
    d: DictModel,
    es: Seq<(ValueModel, ValueModel)>,
) -> DictModel
    decreases es.len(),
{
    if es.len() == 0 {
        d
    } else {
        let prev = dict_insert_hashable(tuples, d, es.drop_last());
        if crate::heap::hashable(tuples, es.last().0) {
            crate::heap::dict_insert(tuples, prev, es.last().0, es.last().1)
        } else {
            prev
        }
    }
}

impl Dict {
    /// Inserts each of `entries` in turn, skipping those whose key cannot be hashed.
    pub fn extend(&self, heap: &mut Heap, entries: Vec<(Value, Value)>)
        requires
            old(heap)@.wf(),
            self.0 < old(heap)@.dicts.len(),
            forall|i: int|
                0 <= i < entries@.len() ==> valid(old(heap)@, #[trigger] entries@[i].0@) && valid(
                    old(heap)@,
                    entries@[i].1@,
                ),
        ensures
            final(heap)@.wf(),
            final(heap)@ == (HeapModel {
                dicts: old(heap)@.dicts.update(
                    self.0 as int,
                    dict_insert_hashable(
                        old(heap)@.tuples,
                        old(heap)@.dicts[self.0 as int],
                        entries@.map_values(|e: (Value, Value)| (e.0@, e.1@)),
                    ),
                ),
                ..old(heap)@
            }),
    {
        let ghost h0 = heap@;
        let ghost es = entries@.map_values(|e: (Value, Value)| (e.0@, e.1@));
        let ghost d0 = h0.dicts[self.0 as int];
        proof {
            assert(h0.dicts.update(self.0 as int, d0) =~= h0.dicts);
            assert(es.take(0) =~= Seq::<(ValueModel, ValueModel)>::empty());
        }
        let mut i: usize = 0;
        while i < entries.len()
            invariant
                heap@.wf(),
                h0 == old(heap)@,
                self.0 < h0.dicts.len(),
                d0 == h0.dicts[self.0 as int],
                es == entries@.map_values(|e: (Value, Value)| (e.0@, e.1@)),
                forall|j: int|
                    0 <= j < entries@.len() ==> valid(h0, #[trigger] entries@[j].0@) && valid(
                        h0,
                        entries@[j].1@,
                    ),
                0 <= i <= entries@.len(),
                heap@ == (HeapModel {
                    dicts: h0.dicts.update(
                        self.0 as int,
                        dict_insert_hashable(h0.tuples, d0, es.take(i as int)),
                    ),
                    ..h0
                }),
            decreases entries.len() - i,
        {
            let key = entries[i].0.clone();
            let value = entries[i].1.clone();
            proof {
                assert(valid(h0, entries@[i as int].0@));
                assert(es.take(i + 1).drop_last() =~= es.take(i as int));
                assert(es.take(i + 1).last() == es[i as int]);
            }
            let _ = self.insert(heap, key, value);
            proof {
                assert(heap@.dicts =~= h0.dicts.update(
                    self.0 as int,
                    dict_insert_hashable(h0.tuples, d0, es.take(i + 1)),
                ));
            }
            i += 1;
        }
        proof {
            assert(es.take(entries@.len() as int) =~= es);
        }
    }
}

} // verus!
