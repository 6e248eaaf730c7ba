//! A cache of the small integers a pickle reads, so that each is built once.

use vstd::prelude::*;

use std::collections::HashMap;

use crate::number::{Number, NumberModel};
use crate::value::{Value, ValueModel};

verus! {

broadcast use vstd::std_specs::hash::group_hash_axioms;

/// Numbers by their value, for the integers that fit in an `i16`.
pub struct NumberCache {
    values: HashMap<i16, Number>,
}

impl NumberCache {
    /// Each cached number has the value it is cached under.
    pub closed spec fn wf(self) -> bool {
        forall|k: i16| #[trigger]
            self.values@.contains_key(k) ==> self.values@[k]@ == NumberModel::Int(k as int)
    }

    pub fn new() -> (r: NumberCache)
        ensures
            r.wf(),
    {
        NumberCache { values: HashMap::new() }
    }

    pub fn get_i16(&mut self, value: i16) -> (r: Value)
        requires
            old(self).wf(),
        ensures
            final(self).wf(),
            r@ == ValueModel::Number(NumberModel::Int(value as int)),
    {
        match self.values.get(&value) {
            Some(n) => Value::Number(n.clone()),
            None => {
                let n = Number::from_i16(value);
                self.values.insert(value, n.clone());
                Value::Number(n)
            },
        }
    }

    pub fn get_u8(&mut self, value: u8) -> (r: Value)
        requires
            old(self).wf(),
        ensures
            final(self).wf(),
            r@ == ValueModel::Number(NumberModel::Int(value as int)),
    {
        self.get_i16(value as i16)
    }

    pub fn get_u16(&mut self, value: u16) -> (r: Value)
        requires
            old(self).wf(),
        ensures
            final(self).wf(),
            r@ == ValueModel::Number(NumberModel::Int(value as int)),
    {
        if value <= i16::MAX as u16 {
            return self.get_i16(value as i16);
        }
        Value::Number(Number::from_u16(value))
    }

    pub fn get_i32(&mut self, value: i32) -> (r: Value)
        requires
            old(self).wf(),
        ensures
            final(self).wf(),
            r@ == ValueModel::Number(NumberModel::Int(value as int)),
    {
        if i16::MIN as i32 <= value && value <= i16::MAX as i32 {
            return self.get_i16(value as i16);
        }
        Value::Number(Number::from_i32(value))
    }

    pub fn get_u32(&mut self, value: u32) -> (r: Value)
        requires
            old(self).wf(),
        ensures
            final(self).wf(),
            r@ == ValueModel::Number(NumberModel::Int(value as int)),
    {
        if value <= u16::MAX as u32 {
            return self.get_u16(value as u16);
        }
        Value::Number(Number::from_u32(value))
    }

    pub fn get_usize(&mut self, value: usize) -> (r: Value)
        requires
            old(self).wf(),
        ensures
            final(self).wf(),
            r@ == ValueModel::Number(NumberModel::Int(value as int)),
    {
        if value <= i32::MAX as usize {
            return self.get_i32(value as i32);
        }
        Value::Number(Number::from_usize(value))
    }
}

} // verus!
