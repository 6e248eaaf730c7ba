//! The values that a pickle is read into. Lists, dicts, sets and tuples live in a
//! [`Heap`](crate::heap::Heap) and a value holds a handle to them, so that several
//! values can share one mutable list, as Python objects do. Strings, numbers, bools
//! and `None` are held by value.

use vstd::prelude::*;
use vstd::string::StringExecFns;

use crate::error::{Error, Kind};
use crate::number::{Number, NumberModel};

verus! {

/// A string.
#[derive(Debug)]
pub struct Str {
    text: String,
}

impl View for Str {
    type V = Seq<char>;

    closed spec fn view(&self) -> Seq<char> {
        self.text@
    }
}

impl Default for Str {
    /// The empty string, as `Str::new` gives it.
    fn default() -> (r: Str)
        ensures
            r@ == Seq::<char>::empty(),
    {
        Str::new()
    }
}

impl Str {
    /// The empty string.
    pub fn new() -> (r: Str)
        ensures
            r@ == Seq::<char>::empty(),
    {
        Str { text: String::new() }
    }

    /// The string holding `text` (`From<String>`).
    pub fn from_string(text: String) -> (r: Str)
        ensures
            r@ == text@,
    {
        Str { text }
    }

    /// The string holding a copy of `text` (`From<&str>`).
    pub fn from_text(text: &str) -> (r: Str)
        ensures
            r@ == text@,
    {
        Str { text: text.to_owned() }
    }

    pub fn as_str(&self) -> (r: &str)
        ensures
            r@ == self@,
    {
        self.text.as_str()
    }

    /// The text of this string followed by that of `other`.
    pub fn concat(&self, other: &Str) -> (r: Str)
        ensures
            r@ == self@ + other@,
    {
        let mut text = self.text.clone();
        text.append(other.text.as_str());
        Str { text }
    }

    /// Whether the two strings hold the same text.
    pub fn equals(&self, other: &Str) -> (r: bool)
        ensures
            r == (self@ == other@),
    {
        self.text == other.text
    }
}

impl Clone for Str {
    fn clone(&self) -> (r: Str)
        ensures
            r@ == self@,
    {
        Str { text: self.text.clone() }
    }
}

/// A bool.
#[derive(PartialEq, Eq, Structural, Clone, Copy, Debug)]
pub struct Bool(bool);

impl View for Bool {
    type V = bool;

    closed spec fn view(&self) -> bool {
        self.0
    }
}

impl Bool {
    pub fn new_false() -> (r: Bool)
        ensures
            r@ == false,
    {
        Bool(false)
    }

    pub fn new_true() -> (r: Bool)
        ensures
            r@ == true,
    {
        Bool(true)
    }

    #[allow(non_snake_case)]
    pub fn False() -> (r: Bool)
        ensures
            r@ == false,
    {
        Self::new_false()
    }

    #[allow(non_snake_case)]
    pub fn True() -> (r: Bool)
        ensures
            r@ == true,
    {
        Self::new_true()
    }

    /// `From<bool>`.
    pub fn from_bool(b: bool) -> (r: Bool)
        ensures
            r@ == b,
    {
        Bool(b)
    }

    /// The bool held.
    pub fn get(&self) -> (r: bool)
        ensures
            r == self@,
    {
        self.0
    }
}

/// Python's `None`.
#[derive(PartialEq, Eq, Structural, Clone, Copy, Debug)]
pub struct PyNone;

impl PyNone {
    pub fn new() -> (r: PyNone) {
        PyNone
    }
}

/// The Python classes that a pickle may refer to and that this reader knows how
/// to build.
#[derive(PartialEq, Eq, Structural, Clone, Copy, Debug)]
pub enum Class {
    /// `NetUtils.NetworkSlot(name, game, type, group_members)`
    NetworkSlot,
    /// `NetUtils.SlotType(n)`
    SlotType,
    /// `NetUtils.Hint(...)`, with up to eight fields.
    Hint,
}

/// A callable value: a class that a pickle builds objects with.
#[derive(PartialEq, Eq, Structural, Clone, Copy, Debug)]
pub struct Callable {
    pub class: Class,
}

impl Callable {
    pub fn new(class: Class) -> (r: Callable)
        ensures
            r.class == class,
    {
        Callable { class }
    }
}

/// A handle to a mutable list in a heap.
#[derive(PartialEq, Eq, Structural, Clone, Copy, Debug)]
pub struct List(pub usize);

/// A handle to a mutable dict in a heap.
#[derive(PartialEq, Eq, Structural, Clone, Copy, Debug)]
pub struct Dict(pub usize);

/// A handle to a mutable set in a heap.
#[derive(PartialEq, Eq, Structural, Clone, Copy, Debug)]
pub struct PySet(pub usize);

/// A handle to an immutable tuple in a heap.
#[derive(PartialEq, Eq, Structural, Clone, Copy, Debug)]
pub struct Tuple(pub usize);

/// A value.
#[derive(Debug)]
pub enum Value {
    Dict(Dict),
    List(List),
    Str(Str),
    Number(Number),
    Bool(Bool),
    Tuple(Tuple),
    Callable(Callable),
    PyNone(PyNone),
    PySet(PySet),
}

/// What a value stands for: the handle for shared objects, the contents otherwise.
pub enum ValueModel {
    Dict(usize),
    List(usize),
    Str(Seq<char>),
    Number(NumberModel),
    Bool(bool),
    Tuple(usize),
    Callable(Class),
    PyNone,
    PySet(usize),
}

impl View for Value {
    type V = ValueModel;

    open spec fn view(&self) -> ValueModel {
        match self {
            Value::Dict(d) => ValueModel::Dict(d.0),
            Value::List(l) => ValueModel::List(l.0),
            Value::Str(s) => ValueModel::Str(s@),
            Value::Number(n) => ValueModel::Number(n@),
            Value::Bool(b) => ValueModel::Bool(b@),
            Value::Tuple(t) => ValueModel::Tuple(t.0),
            Value::Callable(c) => ValueModel::Callable(c.class),
            Value::PyNone(_) => ValueModel::PyNone,
            Value::PySet(s) => ValueModel::PySet(s.0),
        }
    }
}

impl Clone for Value {
    fn clone(&self) -> (r: Value)
        ensures
            r@ == self@,
    {
        match self {
            Value::Dict(d) => Value::Dict(*d),
            Value::List(l) => Value::List(*l),
            Value::Str(s) => Value::Str(s.clone()),
            Value::Number(n) => Value::Number(n.clone()),
            Value::Bool(b) => Value::Bool(*b),
            Value::Tuple(t) => Value::Tuple(*t),
            Value::Callable(c) => Value::Callable(*c),
            Value::PyNone(n) => Value::PyNone(*n),
            Value::PySet(s) => Value::PySet(*s),
        }
    }
}

/// The kind of a value.
pub open spec fn kind_of(v: ValueModel) -> Kind {
    match v {
        ValueModel::Dict(_) => Kind::Dict,
        ValueModel::List(_) => Kind::List,
        ValueModel::Str(_) => Kind::Str,
        ValueModel::Number(_) => Kind::Number,
        ValueModel::Bool(_) => Kind::Bool,
        ValueModel::Tuple(_) => Kind::Tuple,
        ValueModel::Callable(_) => Kind::Callable,
        ValueModel::PyNone => Kind::PyNone,
        ValueModel::PySet(_) => Kind::PySet,
    }
}

/// The name of a kind, as errors and messages give it.
pub open spec fn kind_name(k: Kind) -> Seq<char> {
    match k {
        Kind::Dict => "Dict"@,
        Kind::List => "List"@,
        Kind::Str => "Str"@,
        Kind::Number => "Number"@,
        Kind::Bool => "Bool"@,
        Kind::Tuple => "Tuple"@,
        Kind::Callable => "Callable"@,
        Kind::PyNone => "None"@,
        Kind::PySet => "Set"@,
    }
}

impl Kind {
    pub fn name(&self) -> (r: &'static str)
        ensures
            r@ == kind_name(*self),
    {
        match self {
            Kind::Dict => "Dict",
            Kind::List => "List",
            Kind::Str => "Str",
            Kind::Number => "Number",
            Kind::Bool => "Bool",
            Kind::Tuple => "Tuple",
            Kind::Callable => "Callable",
            Kind::PyNone => "None",
            Kind::PySet => "Set",
        }
    }
}

impl Value {
    pub fn kind(&self) -> (r: Kind)
        ensures
            r == kind_of(self@),
    {
        match self {
            Value::Dict(_) => Kind::Dict,
            Value::List(_) => Kind::List,
            Value::Str(_) => Kind::Str,
            Value::Number(_) => Kind::Number,
            Value::Bool(_) => Kind::Bool,
            Value::Tuple(_) => Kind::Tuple,
            Value::Callable(_) => Kind::Callable,
            Value::PyNone(_) => Kind::PyNone,
            Value::PySet(_) => Kind::PySet,
        }
    }

    pub fn type_label(&self) -> (r: &'static str)
        ensures
            r@ == kind_name(kind_of(self@)),
    {
        self.kind().name()
    }

    pub fn bool(v: bool) -> (r: Value)
        ensures
            r@ == ValueModel::Bool(v),
    {
        Value::Bool(Bool::from_bool(v))
    }

    #[allow(non_snake_case)]
    pub fn False() -> (r: Value)
        ensures
            r@ == ValueModel::Bool(false),
    {
        Value::Bool(Bool::False())
    }

    #[allow(non_snake_case)]
    pub fn True() -> (r: Value)
        ensures
            r@ == ValueModel::Bool(true),
    {
        Value::Bool(Bool::True())
    }

    /// A string value (`Value::str`).
    pub fn str(s: &str) -> (r: Value)
        ensures
            r@ == ValueModel::Str(s@),
    {
        Value::Str(Str::from_text(s))
    }

    pub fn number(n: Number) -> (r: Value)
        ensures
            r@ == ValueModel::Number(n@),
    {
        Value::Number(n)
    }

    pub fn callable(class: Class) -> (r: Value)
        ensures
            r@ == ValueModel::Callable(class),
    {
        Value::Callable(Callable::new(class))
    }

    pub fn none() -> (r: Value)
        ensures
            r@ == ValueModel::PyNone,
    {
        Value::PyNone(PyNone::new())
    }

    pub fn as_dict(&self) -> (r: Result<Dict, Error>)
        ensures
            match self@ {
                ValueModel::Dict(d) => r matches Ok(x) && x.0 == d,
                _ => r matches Err(Error::WrongKind { wanted: Kind::Dict, got }) && got == kind_of(
                    self@,
                ),
            },
    {
        match self {
            Value::Dict(d) => Ok(*d),
            _ => Err(Error::WrongKind { wanted: Kind::Dict, got: self.kind() }),
        }
    }

    pub fn as_list(&self) -> (r: Result<List, Error>)
        ensures
            match self@ {
                ValueModel::List(l) => r matches Ok(x) && x.0 == l,
                _ => r matches Err(Error::WrongKind { wanted: Kind::List, got }) && got == kind_of(
                    self@,
                ),
            },
    {
        match self {
            Value::List(l) => Ok(*l),
            _ => Err(Error::WrongKind { wanted: Kind::List, got: self.kind() }),
        }
    }

    pub fn as_str(&self) -> (r: Result<&Str, Error>)
        ensures
            match self@ {
                ValueModel::Str(s) => r matches Ok(x) && x@ == s,
                _ => r matches Err(Error::WrongKind { wanted: Kind::Str, got }) && got == kind_of(
                    self@,
                ),
            },
    {
        match self {
            Value::Str(s) => Ok(s),
            _ => Err(Error::WrongKind { wanted: Kind::Str, got: self.kind() }),
        }
    }

    pub fn as_number(&self) -> (r: Result<&Number, Error>)
        ensures
            match self@ {
                ValueModel::Number(n) => r matches Ok(x) && x@ == n,
                _ => r matches Err(Error::WrongKind { wanted: Kind::Number, got }) && got
                    == kind_of(self@),
            },
    {
        match self {
            Value::Number(n) => Ok(n),
            _ => Err(Error::WrongKind { wanted: Kind::Number, got: self.kind() }),
        }
    }

    pub fn as_tuple(&self) -> (r: Result<Tuple, Error>)
        ensures
            match self@ {
                ValueModel::Tuple(t) => r matches Ok(x) && x.0 == t,
                _ => r matches Err(Error::WrongKind { wanted: Kind::Tuple, got }) && got
                    == kind_of(self@),
            },
    {
        match self {
            Value::Tuple(t) => Ok(*t),
            _ => Err(Error::WrongKind { wanted: Kind::Tuple, got: self.kind() }),
        }
    }

    pub fn as_callable(&self) -> (r: Result<Callable, Error>)
        ensures
            match self@ {
                ValueModel::Callable(c) => r matches Ok(x) && x.class == c,
                _ => r matches Err(Error::WrongKind { wanted: Kind::Callable, got }) && got
                    == kind_of(self@),
            },
    {
        match self {
            Value::Callable(c) => Ok(*c),
            _ => Err(Error::WrongKind { wanted: Kind::Callable, got: self.kind() }),
        }
    }

    pub fn as_set(&self) -> (r: Result<PySet, Error>)
        ensures
            match self@ {
                ValueModel::PySet(s) => r matches Ok(x) && x.0 == s,
                _ => r matches Err(Error::WrongKind { wanted: Kind::PySet, got }) && got
                    == kind_of(self@),
            },
    {
        match self {
            Value::PySet(s) => Ok(*s),
            _ => Err(Error::WrongKind { wanted: Kind::PySet, got: self.kind() }),
        }
    }

    /// The value as a `usize`, for an integer that fits in one.
    pub open spec fn to_usize_spec(&self) -> Option<usize> {
        match self@ {
            ValueModel::Number(NumberModel::Int(v)) => if 0 <= v <= usize::MAX {
                Some(v as usize)
            } else {
                None::<usize>
            },
            _ => None::<usize>,
        }
    }

    /// The value as a `usize`, for an integer that fits in one.
    pub fn to_usize(&self) -> (r: Option<usize>)
        ensures
            r == self.to_usize_spec(),
    {
        match self {
            Value::Number(n) => n.to_usize(),
            _ => None,
        }
    }
}

} // verus!
