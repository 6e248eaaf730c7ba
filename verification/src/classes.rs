//! The Python classes a pickle can name and that this reader builds: Archipelago's
//! `NetUtils.NetworkSlot`, `NetUtils.SlotType` and `NetUtils.Hint`.

use vstd::prelude::*;

use crate::error::{Error, Kind};
use crate::heap::{all_valid, grows, valid, values_model, Heap};
use crate::machine::{call_spec, find_class_spec, hint_default, hint_fields, network_slot_dict};
use crate::value::{Callable, Class, Dict, Str, Tuple, Value, ValueModel};

verus! {

/// The class that `module.name` names, as a callable value.
pub fn find_class(module: &Str, name: &Str) -> (r: Result<Value, Error>)
    ensures
        match find_class_spec(module@, name@) {
            Ok(c) => r matches Ok(v) && v@ == ValueModel::Callable(c),
            Err(e) => r matches Err(x) && x@ == e,
        },
{
    let net_utils = Str::from_text("NetUtils");
    if module.equals(&net_utils) {
        if name.equals(&Str::from_text("NetworkSlot")) {
            return Ok(Value::callable(Class::NetworkSlot));
        }
        if name.equals(&Str::from_text("SlotType")) {
            return Ok(Value::callable(Class::SlotType));
        }
        if name.equals(&Str::from_text("Hint")) {
            return Ok(Value::callable(Class::Hint));
        }
    }
    Err(
        Error::ClassNotFound {
            module: module.as_str().to_owned(),
            name: name.as_str().to_owned(),
        },
    )
}

/// The default of field `i` of a `Hint`.
fn hint_default_value(i: usize) -> (r: Value)
    ensures
        r@ == hint_default(i as int),
{
    if i < 5 {
        Value::none()
    } else if i == 5 {
        Value::Str(Str::new())
    } else {
        Value::number(crate::number::Number::from_i32(0))
    }
}

impl Callable {
    /// Calls the class with `args`, which must be a tuple of what the class takes.
    pub fn call(&self, heap: &mut Heap, args: &Value) -> (r: Result<Value, Error>)
        requires
            old(heap)@.wf(),
            valid(old(heap)@, args@),
        ensures
            final(heap)@.wf(),
            grows(old(heap)@, final(heap)@),
            forall|i: int|
                0 <= i < old(heap)@.dicts.len() ==> #[trigger] final(heap)@.dicts[i] == old(heap)@.dicts[i],
            match call_spec(old(heap)@, self.class, args@) {
                Ok((v, h)) => r matches Ok(x) && x@ == v && final(heap)@ == h && valid(h, v),
                Err(e) => r matches Err(x) && x@ == e,
            },
    {
        proof {
            assert(heap@.tuples =~= heap@.tuples.take(heap@.tuples.len() as int));
        }
        let t = args.as_tuple()?;
        let items = t.items(heap);
        let n = items.len();
        let ghost h0 = heap@;
        let ghost im = values_model(items@);
        proof {
            assert(all_valid(h0, h0.tuples[t.0 as int]));
            assert(im == h0.tuples[t.0 as int]);
        }
        match self.class {
            Class::NetworkSlot => {
                if n != 4 {
                    return Err(Error::WrongArity { arity: 4, given: n });
                }
                if !matches!(items[0], Value::Str(_)) {
                    return Err(Error::WrongKind { wanted: Kind::Str, got: items[0].kind() });
                }
                if !matches!(items[1], Value::Str(_)) {
                    return Err(Error::WrongKind { wanted: Kind::Str, got: items[1].kind() });
                }
                if !matches!(items[2], Value::Number(_)) {
                    return Err(Error::WrongKind { wanted: Kind::Number, got: items[2].kind() });
                }
                proof {
                    assert(valid(h0, im[0]));
                    assert(valid(h0, im[1]));
                    assert(valid(h0, im[2]));
                    assert(valid(h0, im[3]));
                }
                let dict = Dict::new(heap);
                dict.insert(heap, Value::str("__class"), Value::str("NetworkSlot"))?;
                dict.insert(heap, Value::str("name"), items[0].clone())?;
                dict.insert(heap, Value::str("game"), items[1].clone())?;
                dict.insert(heap, Value::str("type"), items[2].clone())?;
                dict.insert(heap, Value::str("group_members"), items[3].clone())?;
                proof {
                    assert(heap@.dicts =~= h0.dicts.push(network_slot_dict(h0.tuples, im)));
                }
                Ok(Value::Dict(dict))
            },
            Class::SlotType => {
                if n != 1 {
                    return Err(Error::WrongArity { arity: 1, given: n });
                }
                if !matches!(items[0], Value::Number(_)) {
                    return Err(Error::WrongKind { wanted: Kind::Number, got: items[0].kind() });
                }
                proof {
                    assert(valid(h0, im[0]));
                }
                Ok(items[0].clone())
            },
            Class::Hint => {
                let mut fields: Vec<Value> = Vec::new();
                let mut i: usize = 0;
                while i < 8
                    invariant
                        0 <= i <= 8,
                        n == im.len(),
                        im == values_model(items@),
                        all_valid(h0, im),
                        fields@.len() == i,
                        forall|j: int|
                            0 <= j < i ==> #[trigger] fields@[j]@ == hint_fields(im)[j],
                        forall|j: int| 0 <= j < i ==> valid(h0, #[trigger] fields@[j]@),
                    decreases 8 - i,
                {
                    if i < n {
                        proof {
                            assert(valid(h0, im[i as int]));
                        }
                        fields.push(items[i].clone());
                    } else {
                        fields.push(hint_default_value(i));
                    }
                    i += 1;
                }
                proof {
                    assert(values_model(fields@) =~= hint_fields(im));
                    assert(all_valid(h0, values_model(fields@)));
                }
                let tuple = Tuple::new(heap, fields);
                proof {
                    assert(h0.tuples =~= heap@.tuples.take(h0.tuples.len() as int));
                }
                Ok(Value::Tuple(tuple))
            },
        }
    }
}

} // verus!
