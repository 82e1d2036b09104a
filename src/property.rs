//! Property reads: the prototype walk and the per-kind access protocol.
use vstd::prelude::*;
use vstd::string::{StrSliceExecFns, StringExecFns};
use crate::heap::{Heap, PropertyMap};
use crate::number::{
    bits_of_u32, decimal, decimal_string, int_bits, parse_decimal, parse_index, small_int_of_bits,
    u32_of_bits,
};
use crate::scope::argument;
use crate::value::{BuiltinValue, FunctionValue, Value, ValueBase};

verus! {

/// The property map that a prototype link designates, if any.
pub open spec fn proto_record(h: Heap, v: ValueBase) -> Option<PropertyMap> {
    match v {
        ValueBase::Object(o) => if o < h.maps@.len() {
            Some(h.maps@[o as int])
        } else {
            None
        },
        ValueBase::Function(f) => if f.obj < h.maps@.len() {
            Some(h.maps@[f.obj as int])
        } else {
            None
        },
        ValueBase::BuiltinFunction(b) => if b.obj < h.maps@.len() {
            Some(h.maps@[b.obj as int])
        } else {
            None
        },
        ValueBase::Array(a) => if a < h.arrays@.len() {
            Some(h.arrays@[a as int].obj)
        } else {
            None
        },
        _ => None,
    }
}

/// Looks `key` up in `m`, then along `__proto__` links, following at most
/// `fuel` links. `None` means the walk ran out of links to follow.
pub open spec fn chain_find(h: Heap, m: PropertyMap, key: Seq<char>, fuel: nat) -> Option<Value>
    decreases fuel,
{
    match m.lookup(key) {
        Some(v) => Some(v),
        None => match m.lookup("__proto__"@) {
            Some(p) => match proto_record(h, p.val) {
                Some(m2) => if fuel == 0 {
                    None
                } else {
                    chain_find(h, m2, key, (fuel - 1) as nat)
                },
                None => Some(Value::plain(ValueBase::Undefined)),
            },
            None => Some(Value::plain(ValueBase::Undefined)),
        },
    }
}

/// The number of records in the heap (capped at the largest `usize`): a
/// prototype chain longer than this visits some record twice.
pub open spec fn record_count(h: Heap) -> nat {
    if h.maps@.len() + h.arrays@.len() <= usize::MAX {
        h.maps@.len() + h.arrays@.len()
    } else {
        usize::MAX as nat
    }
}

/// What a prototype-chain lookup yields: the found value, or `undefined`
/// where the chain ends (or loops back on itself) without the key.
pub open spec fn find_val(h: Heap, m: PropertyMap, key: Seq<char>) -> Value {
    match chain_find(h, m, key, record_count(h)) {
        Some(v) => v,
        None => Value::plain(ValueBase::Undefined),
    }
}

/// A walk that ends within some number of links ends the same way, with
/// the same result, when it is allowed more: each step follows one
/// `__proto__` link, so the bound only cuts off walks that have not ended.
pub proof fn lemma_chain_find_more_fuel(h: Heap, m: PropertyMap, key: Seq<char>, f: nat, g: nat)
    requires
        f <= g,
        chain_find(h, m, key, f) is Some,
    ensures
        chain_find(h, m, key, g) == chain_find(h, m, key, f),
    decreases f,
{
    if m.lookup(key) is None {
        if let Some(p) = m.lookup("__proto__"@) {
            if let Some(m2) = proto_record(h, p.val) {
                lemma_chain_find_more_fuel(h, m2, key, (f - 1) as nat, (g - 1) as nat);
            }
        }
    }
}

fn proto_key() -> (r: String)
    ensures
        r@ == "__proto__"@,
{
    String::from_str("__proto__")
}

fn walk(h: &Heap, m: &PropertyMap, key: &String, fuel: usize) -> (r: Value)
    requires
        h.wf(),
        m.wf(),
    ensures
        r == (match chain_find(*h, *m, key@, fuel as nat) {
            Some(v) => v,
            None => Value::plain(ValueBase::Undefined),
        }),
    decreases fuel,
{
    if let Some(v) = m.get(key) {
        return v;
    }
    let p = match m.get(&proto_key()) {
        Some(p) => p,
        None => return Value::undefined(),
    };
    let next: &PropertyMap = match &p.val {
        ValueBase::Object(o) => if *o < h.maps.len() {
            proof {
                assert(h.maps@[*o as int].wf());
            }
            &h.maps[*o]
        } else {
            return Value::undefined();
        },
        ValueBase::Function(f) => if f.obj < h.maps.len() {
            proof {
                assert(h.maps@[f.obj as int].wf());
            }
            &h.maps[f.obj]
        } else {
            return Value::undefined();
        },
        ValueBase::BuiltinFunction(b) => if b.obj < h.maps.len() {
            proof {
                assert(h.maps@[b.obj as int].wf());
            }
            &h.maps[b.obj]
        } else {
            return Value::undefined();
        },
        ValueBase::Array(a) => if *a < h.arrays.len() {
            proof {
                assert(h.arrays@[*a as int].wf());
            }
            &h.arrays[*a].obj
        } else {
            return Value::undefined();
        },
        _ => return Value::undefined(),
    };
    if fuel == 0 {
        return Value::undefined();
    }
    walk(h, next, key, fuel - 1)
}

/// Looks `key` up in `m` and then along its prototype chain.
pub fn obj_find_val(h: &Heap, m: &PropertyMap, key: &String) -> (r: Value)
    requires
        h.wf(),
        m.wf(),
    ensures
        r == find_val(*h, *m, key@),
{
    let fuel = match h.maps.len().checked_add(h.arrays.len()) {
        Some(n) => n,
        None => usize::MAX,
    };
    walk(h, m, key, fuel)
}

} // verus!

verus! {

pub open spec fn undef() -> Value {
    Value::plain(ValueBase::Undefined)
}

/// A function or host function read as a property comes back bound to the
/// object it was read from; any other value comes back as stored.
pub open spec fn bind_this(v: Value, parent: Value) -> Value {
    match v.val {
        ValueBase::Function(f) => Value {
            val: ValueBase::Function(
                Box::new(FunctionValue { id: f.id, obj: f.obj, callobj: f.callobj, this: parent }),
            ),
            ..v
        },
        ValueBase::BuiltinFunction(b) => Value {
            val: ValueBase::BuiltinFunction(Box::new(BuiltinValue { id: b.id, obj: b.obj, this: parent })),
            ..v
        },
        _ => v,
    }
}

/// The text by which a key names a property: its string form. A string is
/// itself; an integer in [0, 2^32) is its decimal text; booleans,
/// `undefined`, `null` and plain objects have fixed texts. Other numbers
/// and arrays, whose text needs floating-point formatting or element
/// conversion, are turned into string keys by the host before the
/// instruction runs (see `VM::replace_top`).
pub open spec fn key_text(k: ValueBase) -> Option<Seq<char>> {
    match k {
        ValueBase::String(s) => Some(s@),
        ValueBase::Number(b) => match small_int_of_bits(b) {
            Some(n) => Some(decimal(n)),
            None => None,
        },
        ValueBase::Bool(b) => Some(if b { "true"@ } else { "false"@ }),
        ValueBase::Undefined => Some("undefined"@),
        ValueBase::Null => Some("null"@),
        ValueBase::Object(_) => Some("[object Object]"@),
        _ => None,
    }
}

/// Element `n` of an array: `undefined` past the length and in holes.
pub open spec fn element(a: crate::heap::ArrayValue, n: nat) -> Value {
    if n >= a.length || a.elems@[n as int].val is Empty {
        undef()
    } else {
        a.elems@[n as int]
    }
}

/// The number of UTF-16 code units that encode `s`.
pub open spec fn utf16_len(s: Seq<char>) -> nat
    decreases s.len(),
{
    if s.len() == 0 {
        0
    } else {
        utf16_len(s.drop_last()) + if s.last() as u32 >= 0x10000 {
            2nat
        } else {
            1nat
        }
    }
}

/// A count as a number value, where it is below 2^32.
pub open spec fn count_value(n: nat) -> Value {
    if n < 0x1_0000_0000 {
        Value::plain(ValueBase::Number(int_bits(n) as u64))
    } else {
        undef()
    }
}

/// Whether `r` is what reading property `k` of `parent` yields, with
/// `scope` the record that `arguments` refers to.
pub open spec fn is_property_value(h: Heap, parent: Value, k: ValueBase, scope: int, r: Value) -> bool {
    match parent.val {
        ValueBase::String(s) => match k {
            ValueBase::Number(b) => match small_int_of_bits(b) {
                Some(n) => if n < s@.len() {
                    r.val matches ValueBase::String(t) && t@ == seq![s@[n as int]] && r == Value::plain(r.val)
                } else {
                    r == undef()
                },
                None => r == undef(),
            },
            ValueBase::String(m) => if m@ == "length"@ {
                r == count_value(utf16_len(s@))
            } else {
                r == undef()
            },
            _ => r == undef(),
        },
        ValueBase::Object(o) => match (proto_record(h, parent.val), key_text(k)) {
            (Some(m), Some(t)) => r == bind_this(find_val(h, m, t), parent),
            _ => r == undef(),
        },
        ValueBase::Function(_) | ValueBase::BuiltinFunction(_) => match (
            proto_record(h, parent.val),
            key_text(k),
        ) {
            (Some(m), Some(t)) => r == bind_this(find_val(h, m, t), parent),
            _ => r == undef(),
        },
        ValueBase::Array(a) => if a < h.arrays@.len() {
            let ary = h.arrays@[a as int];
            match k {
                ValueBase::Number(b) => match small_int_of_bits(b) {
                    Some(n) => r == element(ary, n),
                    None => r == undef(),
                },
                ValueBase::String(m) => if m@ == "length"@ {
                    r == count_value(ary.length as nat)
                } else {
                    match parse_decimal(m@) {
                        Some(v) => if v < 0x1_0000_0000 {
                            r == element(ary, v)
                        } else {
                            r == bind_this(find_val(h, ary.obj, m@), parent)
                        },
                        None => r == bind_this(find_val(h, ary.obj, m@), parent),
                    }
                },
                _ => match key_text(k) {
                    Some(t) => r == bind_this(find_val(h, ary.obj, t), parent),
                    None => r == undef(),
                },
            }
        } else {
            r == undef()
        },
        ValueBase::Arguments => match k {
            ValueBase::Number(b) => match small_int_of_bits(b) {
                Some(n) => match argument(h, scope, n as int) {
                    Some(v) => r == v,
                    None => r == undef(),
                },
                None => r == undef(),
            },
            ValueBase::String(m) => if m@ == "length"@ {
                r == count_value(h.scopes@[scope].argc as nat)
            } else {
                r == undef()
            },
            _ => r == undef(),
        },
        _ => r == undef(),
    }
}

fn length_key() -> (r: String)
    ensures
        r@ == "length"@,
{
    String::from_str("length")
}

fn count_to_value(n: usize) -> (r: Value)
    ensures
        r == count_value(n as nat),
{
    if n <= 0xffff_ffff {
        Value::number(bits_of_u32(n as u32))
    } else {
        Value::undefined()
    }
}

fn bind_this_exec(v: Value, parent: &Value) -> (r: Value)
    ensures
        r == bind_this(v, *parent),
{
    match v.val {
        ValueBase::Function(f) => Value {
            val: ValueBase::Function(
                Box::new(
                    FunctionValue {
                        id: f.id,
                        obj: f.obj,
                        callobj: f.callobj,
                        this: parent.duplicate(),
                    },
                ),
            ),
            ..v
        },
        ValueBase::BuiltinFunction(b) => Value {
            val: ValueBase::BuiltinFunction(
                Box::new(BuiltinValue { id: b.id, obj: b.obj, this: parent.duplicate() }),
            ),
            ..v
        },
        _ => v,
    }
}

fn key_text_exec(k: &ValueBase) -> (r: Option<String>)
    ensures
        r matches Some(t) ==> key_text(*k) == Some(t@),
        r is None ==> key_text(*k) is None,
{
    match k {
        ValueBase::String(s) => Some(s.clone()),
        ValueBase::Number(b) => match u32_of_bits(*b) {
            Some(n) => Some(decimal_string(n)),
            None => None,
        },
        ValueBase::Bool(b) => Some(String::from_str(if *b { "true" } else { "false" })),
        ValueBase::Undefined => Some(String::from_str("undefined")),
        ValueBase::Null => Some(String::from_str("null")),
        ValueBase::Object(_) => Some(String::from_str("[object Object]")),
        _ => None,
    }
}

fn element_exec(a: &crate::heap::ArrayValue, n: usize) -> (r: Value)
    requires
        a.wf(),
    ensures
        r == element(*a, n as nat),
{
    if n >= a.length {
        return Value::undefined();
    }
    match a.elems[n].val {
        ValueBase::Empty => Value::undefined(),
        _ => a.elems[n].duplicate(),
    }
}

proof fn lemma_utf16_prefix_le(s: Seq<char>, i: int)
    requires
        0 <= i <= s.len(),
    ensures
        utf16_len(s.subrange(0, i)) <= utf16_len(s),
    decreases s.len(),
{
    if i < s.len() {
        assert(s.drop_last().subrange(0, i) == s.subrange(0, i));
        lemma_utf16_prefix_le(s.drop_last(), i);
    } else {
        assert(s.subrange(0, i) == s);
    }
}

/// The UTF-16 length of `s`, where it is below 2^32.
fn utf16_count(s: &str) -> (r: Option<u32>)
    ensures
        r matches Some(n) ==> n == utf16_len(s@),
        r is None ==> utf16_len(s@) >= 0x1_0000_0000,
{
    let len = s.unicode_len();
    let mut i: usize = 0;
    let mut count: u64 = 0;
    while i < len
        invariant
            len == s@.len(),
            i <= len,
            count == utf16_len(s@.subrange(0, i as int)),
            count <= 0xffff_ffff,
        decreases len - i,
    {
        let c = s.get_char(i);
        proof {
            assert(s@.subrange(0, i + 1).drop_last() == s@.subrange(0, i as int));
        }
        if c as u32 >= 0x10000 {
            count = count + 2;
        } else {
            count = count + 1;
        }
        if count > 0xffff_ffff {
            proof {
                lemma_utf16_prefix_le(s@, i + 1);
            }
            return None;
        }
        i = i + 1;
    }
    assert(s@.subrange(0, len as int) == s@);
    Some(count as u32)
}

impl Value {
    /// Reads property `property` of this value (see `is_property_value`);
    /// `scope` is the record that `arguments` refers to.
    pub fn get_property(&self, h: &Heap, property: &ValueBase, scope: usize) -> (r: Value)
        requires
            h.wf(),
            scope < h.scopes@.len(),
        ensures
            is_property_value(*h, *self, *property, scope as int, r),
    {
        match &self.val {
            ValueBase::String(s) => match property {
                ValueBase::Number(b) => match u32_of_bits(*b) {
                    Some(n) => {
                        let len = s.as_str().unicode_len();
                        if (n as usize) < len {
                            let c = s.as_str().substring_char(n as usize, n as usize + 1);
                            assert(c@ =~= seq![s@[n as int]]);
                            Value::string(String::from_str(c))
                        } else {
                            Value::undefined()
                        }
                    },
                    None => Value::undefined(),
                },
                ValueBase::String(m) => {
                    if *m == length_key() {
                        match utf16_count(s.as_str()) {
                            Some(n) => Value::number(bits_of_u32(n)),
                            None => Value::undefined(),
                        }
                    } else {
                        Value::undefined()
                    }
                },
                _ => Value::undefined(),
            },
            ValueBase::Object(o) => self.property_of_map(h, *o, property),
            ValueBase::Function(f) => self.property_of_map(h, f.obj, property),
            ValueBase::BuiltinFunction(b) => self.property_of_map(h, b.obj, property),
            ValueBase::Array(a) => {
                if *a >= h.arrays.len() {
                    return Value::undefined();
                }
                let ary = &h.arrays[*a];
                proof {
                    assert(h.arrays@[*a as int].wf());
                }
                match property {
                    ValueBase::Number(b) => match u32_of_bits(*b) {
                        Some(n) => element_exec(ary, n as usize),
                        None => Value::undefined(),
                    },
                    ValueBase::String(m) => {
                        if *m == length_key() {
                            count_to_value(ary.length)
                        } else {
                            match parse_index(m.as_str()) {
                                Some(v) => element_exec(ary, v as usize),
                                None => bind_this_exec(obj_find_val(h, &ary.obj, m), self),
                            }
                        }
                    },
                    _ => match key_text_exec(property) {
                        Some(t) => bind_this_exec(obj_find_val(h, &ary.obj, &t), self),
                        None => Value::undefined(),
                    },
                }
            },
            ValueBase::Arguments => match property {
                ValueBase::Number(b) => match u32_of_bits(*b) {
                    Some(n) => match h.get_arguments_nth_value(scope, n as usize) {
                        Ok(v) => v,
                        Err(_) => Value::undefined(),
                    },
                    None => Value::undefined(),
                },
                ValueBase::String(m) => {
                    if *m == length_key() {
                        count_to_value(h.get_arguments_length(scope))
                    } else {
                        Value::undefined()
                    }
                },
                _ => Value::undefined(),
            },
            _ => Value::undefined(),
        }
    }

    /// Reads `property` from map `m` and its prototype chain, binding a
    /// function found there to this value.
    fn property_of_map(&self, h: &Heap, m: usize, property: &ValueBase) -> (r: Value)
        requires
            h.wf(),
        ensures
            m < h.maps@.len() && key_text(*property) is Some ==> r == bind_this(
                find_val(*h, h.maps@[m as int], key_text(*property)->0),
                *self,
            ),
            !(m < h.maps@.len() && key_text(*property) is Some) ==> r == undef(),
    {
        if m >= h.maps.len() {
            return Value::undefined();
        }
        proof {
            assert(h.maps@[m as int].wf());
        }
        match key_text_exec(property) {
            Some(t) => bind_this_exec(obj_find_val(h, &h.maps[m], &t), self),
            None => Value::undefined(),
        }
    }
}

} // verus!

verus! {

/// `elems` extended with `Empty` up to length `n`, if it is shorter.
pub open spec fn padded(elems: Seq<Value>, n: nat) -> Seq<Value> {
    if elems.len() >= n {
        elems
    } else {
        elems + Seq::new((n - elems.len()) as nat, |i: int| Value::plain(ValueBase::Empty))
    }
}

/// `elems` cut or extended with `Empty` to exactly `n` elements.
pub open spec fn resized(elems: Seq<Value>, n: nat) -> Seq<Value> {
    if n <= elems.len() {
        elems.subrange(0, n as int)
    } else {
        padded(elems, n)
    }
}

pub open spec fn max(a: nat, b: nat) -> nat {
    if a >= b {
        a
    } else {
        b
    }
}

fn pad_to(elems: &mut Vec<Value>, n: usize)
    ensures
        final(elems)@ == padded(old(elems)@, n as nat),
{
    let ghost start = elems@;
    while elems.len() < n
        invariant
            start.len() <= n ==> elems@ == padded(start, elems@.len() as nat) && elems@.len() <= n,
            start.len() > n ==> elems@ == start,
        decreases n - elems@.len(),
    {
        elems.push(Value::empty());
        proof {
            assert(elems@ =~= padded(start, elems@.len() as nat));
        }
    }
    proof {
        if start.len() <= n {
            assert(elems@.len() == n);
        }
    }
}

impl crate::heap::ArrayValue {
    /// Writes element `n`, growing the array (with holes) to reach it.
    pub fn set_by_idx(&mut self, n: usize, val: Value)
        requires
            old(self).wf(),
            n < u32::MAX,
        ensures
            final(self).wf(),
            final(self).obj == old(self).obj,
            final(self).length == max(old(self).length as nat, (n + 1) as nat),
            final(self).elems@ == padded(old(self).elems@, (n + 1) as nat).update(n as int, val),
    {
        if n >= self.length {
            self.length = n + 1;
            pad_to(&mut self.elems, n + 1);
        } else {
            proof {
                assert(padded(old(self).elems@, (n + 1) as nat) == old(self).elems@);
            }
        }
        self.elems.set(n, val);
    }

    /// Sets the length to `n`: elements from `n` on are dropped, and a longer
    /// array is filled with holes.
    pub fn set_length(&mut self, n: usize)
        requires
            old(self).wf(),
            n < u32::MAX,
        ensures
            final(self).wf(),
            final(self).obj == old(self).obj,
            final(self).length == n,
            final(self).elems@ == resized(old(self).elems@, n as nat),
    {
        if n < self.elems.len() {
            self.elems.truncate(n);
        } else {
            pad_to(&mut self.elems, n);
        }
        self.length = n;
    }
}

/// An array index: an integer in [0, 2^32 - 1).
pub open spec fn array_index(k: ValueBase) -> Option<nat> {
    match k {
        ValueBase::Number(b) => match small_int_of_bits(b) {
            Some(n) => if n < 0xffff_ffff {
                Some(n)
            } else {
                None
            },
            None => None,
        },
        ValueBase::String(s) => if s@ == "length"@ {
            None
        } else {
            match parse_decimal(s@) {
                Some(n) => if n < 0xffff_ffff {
                    Some(n)
                } else {
                    None
                },
                None => None,
            }
        },
        _ => None,
    }
}

/// The map that a write to a property of `parent` goes to, if it is one of
/// a plain object or a function.
pub open spec fn written_map(parent: ValueBase) -> Option<usize> {
    match parent {
        ValueBase::Object(o) => Some(o),
        ValueBase::Function(f) => Some(f.obj),
        _ => None,
    }
}

fn array_index_exec(k: &ValueBase) -> (r: Option<u32>)
    ensures
        r matches Some(n) ==> array_index(*k) == Some(n as nat),
        r is None ==> array_index(*k) is None,
{
    match k {
        ValueBase::Number(b) => match u32_of_bits(*b) {
            Some(n) => if n < 0xffff_ffff {
                Some(n)
            } else {
                None
            },
            None => None,
        },
        ValueBase::String(s) => {
            if *s == length_key() {
                None
            } else {
                match parse_index(s.as_str()) {
                    Some(n) => if n < 0xffff_ffff {
                        Some(n)
                    } else {
                        None
                    },
                    None => None,
                }
            }
        },
        _ => None,
    }
}

impl Heap {
    /// Writes `val` to property `property` of `parent`; `scope` is the
    /// record that `arguments` refers to.
    pub fn set_property(&mut self, parent: &Value, property: &ValueBase, val: Value, scope: usize)
        requires
            old(self).wf(),
            scope < old(self).scopes@.len(),
        ensures
            final(self).wf(),
            property_written(*old(self), *final(self), *parent, *property, val, scope),
    {
        match &parent.val {
            ValueBase::Object(_) | ValueBase::Function(_) => {
                let m = match &parent.val {
                    ValueBase::Object(o) => *o,
                    ValueBase::Function(f) => f.obj,
                    _ => 0,
                };
                if m >= self.maps.len() {
                    return;
                }
                match key_text_exec(property) {
                    Some(t) => self.map_insert(m, t, val),
                    None => {},
                }
            },
            ValueBase::Array(a) => {
                let a = *a;
                if a >= self.arrays.len() {
                    return;
                }
                proof {
                    assert(old(self).arrays@[a as int].wf());
                }
                let ghost pre = *self;
                match array_index_exec(property) {
                    Some(n) => {
                        self.arrays[a].set_by_idx(n as usize, val);
                    },
                    None => {
                        let is_length = match property {
                            ValueBase::String(s) => *s == length_key(),
                            _ => false,
                        };
                        if is_length {
                            match &val.val {
                                ValueBase::Number(b) => match u32_of_bits(*b) {
                                    Some(n) => if n < 0xffff_ffff {
                                        self.arrays[a].set_length(n as usize)
                                    },
                                    None => {},
                                },
                                _ => {},
                            }
                        } else {
                            match key_text_exec(property) {
                                Some(t) => self.arrays[a].obj.insert(t, val),
                                None => {},
                            }
                        }
                    },
                }
                proof {
                    assert(self.maps@ == pre.maps@ && self.scopes@ == pre.scopes@);
                    assert forall|s: int| 0 <= s < self.scopes@.len() implies #[trigger] self.scopes@[s].vals < self.maps@.len() by {
                        assert(pre.scopes@[s].vals < pre.maps@.len());
                    }
                    assert forall|i: int| 0 <= i < self.arrays@.len() implies #[trigger] self.arrays@[i].wf() by {
                        if i != a {
                            assert(self.arrays@[i] == pre.arrays@[i]);
                        }
                    }
                    assert(self.arrays@ =~= pre.arrays@.update(a as int, self.arrays@[a as int]));
                    assert(self.wf());
                }
            },
            ValueBase::Arguments => match property {
                ValueBase::Number(b) => match u32_of_bits(*b) {
                    Some(n) => self.set_arguments_nth_value(scope, n as usize, val),
                    None => {},
                },
                _ => {},
            },
            _ => {},
        }
    }
}

} // verus!

verus! {

/// The effect of `Heap::set_property`.
pub open spec fn property_written(h0: Heap, h1: Heap, parent: Value, property: ValueBase, val: Value, scope: usize) -> bool {
    &&& (h1.arrays@.len() == h0.arrays@.len())
    &&& (h1.scopes@.len() == h0.scopes@.len())
    &&& (written_map(parent.val) matches Some(m) ==> {
                if m < h0.maps@.len() && key_text(property) is Some {
                    let t = key_text(property)->0;
                    &&& h1.maps@ == h0.maps@.update(m as int, h1.maps@[m as int])
                    &&& h1.maps@[m as int].lookup(t) == Some(val)
                    &&& forall|k: Seq<char>| k != t ==> h1.maps@[m as int].lookup(k) == h0.maps@[m as int].lookup(k)
                    &&& h1.arrays@ == h0.arrays@
                    &&& h1.scopes@ == h0.scopes@
                } else {
                    h1 == h0
                }
            })
    &&& (parent.val matches ValueBase::Array(a) ==> {
                if a < h0.arrays@.len() {
                    let old_a = h0.arrays@[a as int];
                    let new_a = h1.arrays@[a as int];
                    &&& h1.maps@ == h0.maps@
                    &&& h1.scopes@ == h0.scopes@
                    &&& h1.arrays@ == h0.arrays@.update(a as int, new_a)
                    &&& (array_index(property) matches Some(n) ==> {
                        &&& new_a.length == max(old_a.length as nat, n + 1)
                        &&& new_a.elems@ == padded(old_a.elems@, n + 1).update(n as int, val)
                        &&& new_a.obj == old_a.obj
                    })
                    &&& (property matches ValueBase::String(s) && s@ == "length"@ ==> {
                        match val.val {
                            ValueBase::Number(b) => match small_int_of_bits(b) {
                                Some(n) => if n < 0xffff_ffff {
                                    new_a.length == n && new_a.elems@ == resized(old_a.elems@, n)
                                        && new_a.obj == old_a.obj
                                } else {
                                    new_a == old_a
                                },
                                None => new_a == old_a,
                            },
                            _ => new_a == old_a,
                        }
                    })
                    &&& (array_index(property) is None && !(property matches ValueBase::String(s) && s@ == "length"@) ==> {
                        &&& new_a.length == old_a.length
                        &&& new_a.elems@ == old_a.elems@
                        &&& (key_text(property) matches Some(t) ==> {
                            &&& new_a.obj.lookup(t) == Some(val)
                            &&& forall|k: Seq<char>| k != t ==> new_a.obj.lookup(k) == old_a.obj.lookup(k)
                        })
                        &&& (key_text(property) is None ==> new_a == old_a)
                    })
                } else {
                    h1 == h0
                }
            })
    &&& (parent.val is Arguments ==> {
                match property {
                    ValueBase::Number(b) => match small_int_of_bits(b) {
                        Some(n) => {
                            let np = h0.scopes@[scope as int].params@.len();
                            let nr = h0.scopes@[scope as int].arg_rest_vals@.len();
                            &&& (n < np ==> crate::scope::binding(h1, scope as int, h0.scopes@[scope as int].params@[n as int].0@) == Some(val))
                            &&& (n < np + nr ==> argument(h1, scope as int, n as int) == Some(val))
                            &&& h1.scopes@.len() == h0.scopes@.len()
                        },
                        None => h1 == h0,
                    },
                    _ => h1 == h0,
                }
            })
    &&& (!(parent.val is Array || parent.val is Arguments || written_map(parent.val) is Some) ==> h1 == h0)
}

} // verus!
