//! Tagged runtime values.
//!
//! Heap-resident data (property maps, arrays, scope records) is referred to
//! by its index in the [`crate::heap::Heap`] arena. A number is held as the
//! bit pattern of its IEEE-754 double; arithmetic on it happens outside the
//! verified core.
use vstd::prelude::*;

verus! {

/// Identifies a compiled function body; `0` is the top-level program.
pub type FuncId = usize;

/// A function value: which body runs, its own property map, the scope
/// record template captured at creation, and the `this` it is bound to.
#[derive(Debug, PartialEq)]
pub struct FunctionValue {
    pub id: FuncId,
    pub obj: usize,
    pub callobj: usize,
    pub this: Value,
}

/// A host function: its dispatch index, property map and bound `this`.
#[derive(Debug, PartialEq)]
pub struct BuiltinValue {
    pub id: usize,
    pub obj: usize,
    pub this: Value,
}

#[derive(Debug, PartialEq)]
pub enum ValueBase {
    Empty,
    Null,
    Undefined,
    Bool(bool),
    /// The bit pattern of an IEEE-754 double.
    Number(u64),
    String(String),
    Function(Box<FunctionValue>),
    BuiltinFunction(Box<BuiltinValue>),
    /// Index of a property map in the heap.
    Object(usize),
    /// Index of an array in the heap.
    Array(usize),
    Arguments,
}

/// A value together with its property-descriptor flags.
#[derive(Debug, PartialEq)]
pub struct Value {
    pub val: ValueBase,
    pub writable: bool,
    pub enumerable: bool,
    pub configurable: bool,
}

#[derive(Debug, PartialEq)]
pub enum RuntimeError {
    Unknown,
    Type(String),
    Reference(String),
    Unimplemented,
}

/// A number's bit pattern is zero or negative zero.
pub open spec fn is_zero_bits(b: u64) -> bool {
    b & 0x7fff_ffff_ffff_ffffu64 == 0
}

/// A number's bit pattern is a NaN: all exponent bits set, mantissa nonzero.
pub open spec fn is_nan_bits(b: u64) -> bool {
    b & 0x7ff0_0000_0000_0000u64 == 0x7ff0_0000_0000_0000u64
        && b & 0x000f_ffff_ffff_ffffu64 != 0
}

/// Truthiness of a value as conditionals see it.
pub open spec fn truthy(v: ValueBase) -> bool {
    match v {
        ValueBase::Bool(b) => b,
        ValueBase::Number(n) => !is_zero_bits(n) && !is_nan_bits(n),
        ValueBase::String(s) => s@.len() > 0,
        ValueBase::Array(_) => true,
        ValueBase::Object(_) => true,
        _ => false,
    }
}

impl Value {
    /// A value with all three attribute flags set.
    pub fn new(val: ValueBase) -> (r: Value)
        ensures
            r.val == val,
            r.writable && r.enumerable && r.configurable,
    {
        Value { val, writable: true, enumerable: true, configurable: true }
    }

    pub fn empty() -> (r: Value)
        ensures
            r == Value::plain(ValueBase::Empty),
    {
        Value::new(ValueBase::Empty)
    }

    pub fn null() -> (r: Value)
        ensures
            r == Value::plain(ValueBase::Null),
    {
        Value::new(ValueBase::Null)
    }

    pub fn undefined() -> (r: Value)
        ensures
            r == Value::plain(ValueBase::Undefined),
    {
        Value::new(ValueBase::Undefined)
    }

    pub fn bool(b: bool) -> (r: Value)
        ensures
            r == Value::plain(ValueBase::Bool(b)),
    {
        Value::new(ValueBase::Bool(b))
    }

    /// A number value from the bit pattern of a double.
    pub fn number(bits: u64) -> (r: Value)
        ensures
            r == Value::plain(ValueBase::Number(bits)),
    {
        Value::new(ValueBase::Number(bits))
    }

    pub fn string(s: String) -> (r: Value)
        ensures
            r == Value::plain(ValueBase::String(s)),
    {
        Value::new(ValueBase::String(s))
    }

    pub fn object(obj: usize) -> (r: Value)
        ensures
            r == Value::plain(ValueBase::Object(obj)),
    {
        Value::new(ValueBase::Object(obj))
    }

    pub fn array(ary: usize) -> (r: Value)
        ensures
            r == Value::plain(ValueBase::Array(ary)),
    {
        Value::new(ValueBase::Array(ary))
    }

    pub fn arguments() -> (r: Value)
        ensures
            r == Value::plain(ValueBase::Arguments),
    {
        Value::new(ValueBase::Arguments)
    }

    /// A function value running body `id` with property map `obj` and
    /// scope record template `callobj`.
    pub fn function(id: FuncId, obj: usize, callobj: usize) -> (r: Value)
        ensures
            r == Value::plain(
                ValueBase::Function(
                    Box::new(
                        FunctionValue { id, obj, callobj, this: Value::plain(ValueBase::Undefined) },
                    ),
                ),
            ),
    {
        Value::new(ValueBase::Function(Box::new(FunctionValue { id, obj, callobj, this: Value::undefined() })))
    }

    /// Replaces the number this value holds, if it holds one.
    pub fn set_number_if_possible(&mut self, bits: u64)
        ensures
            old(self).val is Number ==> *final(self) == (Value { val: ValueBase::Number(bits), ..*old(self) }),
            !(old(self).val is Number) ==> *final(self) == *old(self),
    {
        if let ValueBase::Number(_) = self.val {
            self.val = ValueBase::Number(bits);
        }
    }

    /// The value `v` with default attribute flags.
    pub open spec fn plain(v: ValueBase) -> Value {
        Value { val: v, writable: true, enumerable: true, configurable: true }
    }

    /// An exact copy of this value.
    pub fn duplicate(&self) -> (r: Value)
        ensures
            r == *self,
        decreases self,
    {
        Value {
            val: self.val.duplicate(),
            writable: self.writable,
            enumerable: self.enumerable,
            configurable: self.configurable,
        }
    }

    /// Whether this value counts as true in a conditional.
    pub fn to_boolean(&self) -> (r: bool)
        ensures
            r == truthy(self.val),
    {
        self.val.to_boolean()
    }
}

impl ValueBase {
    /// An exact copy of this value.
    pub fn duplicate(&self) -> (r: ValueBase)
        ensures
            r == *self,
        decreases self,
    {
        match self {
            ValueBase::Empty => ValueBase::Empty,
            ValueBase::Null => ValueBase::Null,
            ValueBase::Undefined => ValueBase::Undefined,
            ValueBase::Bool(b) => ValueBase::Bool(*b),
            ValueBase::Number(n) => ValueBase::Number(*n),
            ValueBase::String(s) => ValueBase::String(s.clone()),
            ValueBase::Function(f) => ValueBase::Function(
                Box::new(
                    FunctionValue {
                        id: f.id,
                        obj: f.obj,
                        callobj: f.callobj,
                        this: f.this.duplicate(),
                    },
                ),
            ),
            ValueBase::BuiltinFunction(f) => ValueBase::BuiltinFunction(
                Box::new(BuiltinValue { id: f.id, obj: f.obj, this: f.this.duplicate() }),
            ),
            ValueBase::Object(o) => ValueBase::Object(*o),
            ValueBase::Array(a) => ValueBase::Array(*a),
            ValueBase::Arguments => ValueBase::Arguments,
        }
    }

    /// Whether this value counts as true in a conditional.
    pub fn to_boolean(&self) -> (r: bool)
        ensures
            r == truthy(*self),
    {
        match self {
            ValueBase::Bool(b) => *b,
            ValueBase::Number(n) => {
                let n = *n;
                !(n & 0x7fff_ffff_ffff_ffffu64 == 0) && !(n & 0x7ff0_0000_0000_0000u64
                    == 0x7ff0_0000_0000_0000u64 && n & 0x000f_ffff_ffff_ffffu64 != 0)
            },
            ValueBase::String(s) => s.as_str().unicode_len() > 0,
            ValueBase::Array(_) => true,
            ValueBase::Object(_) => true,
            _ => false,
        }
    }
}

} // verus!
