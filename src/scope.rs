//! Scope records: name lookup along the parent chain, the two assignment
//! modes, and positional access through `arguments`.
use vstd::prelude::*;
use vstd::string::StringExecFns;
use crate::heap::{CallObject, Heap, PropertyMap};
use crate::value::{RuntimeError, Value, ValueBase};

verus! {

/// The value bound to `name` as seen from scope `s`: the nearest record on
/// the parent chain whose bindings hold the name decides.
pub open spec fn binding(h: Heap, s: int, name: Seq<char>) -> Option<Value>
    decreases s,
{
    if 0 <= s < h.scopes@.len() {
        match h.maps@[h.scopes@[s].vals as int].lookup(name) {
            Some(v) => Some(v),
            None => match h.scopes@[s].parent {
                Some(p) => if p < s {
                    binding(h, p as int, name)
                } else {
                    None
                },
                None => None,
            },
        }
    } else {
        None
    }
}

/// The map that an assign-if-exists of `name` from scope `s` writes to: that
/// of the nearest record defining the name, or else that of the root record.
pub open spec fn assign_target(h: Heap, s: int, name: Seq<char>) -> int
    decreases s,
{
    if 0 <= s < h.scopes@.len() {
        if h.maps@[h.scopes@[s].vals as int].has(name) {
            h.scopes@[s].vals as int
        } else {
            match h.scopes@[s].parent {
                Some(p) => if p < s {
                    assign_target(h, p as int, name)
                } else {
                    h.scopes@[s].vals as int
                },
                None => h.scopes@[s].vals as int,
            }
        }
    } else {
        0
    }
}

/// `arguments[n]` in scope `s`: a formal's binding below the number of
/// formals, then the excess arguments, then `undefined`.
pub open spec fn argument(h: Heap, s: int, n: int) -> Option<Value> {
    let c = h.scopes@[s];
    if n < c.params@.len() {
        binding(h, s, c.params@[n].0@)
    } else if n - c.params@.len() < c.arg_rest_vals@.len() {
        Some(c.arg_rest_vals@[n - c.params@.len()])
    } else {
        Some(Value::plain(ValueBase::Undefined))
    }
}

/// The message of a reference error for `name`.
pub open spec fn reference_message(name: Seq<char>) -> Seq<char> {
    "reference error: '"@ + name + "' is not defined"@
}

pub fn reference_error(name: &String) -> (r: RuntimeError)
    ensures
        r matches RuntimeError::Reference(m) && m@ == reference_message(name@),
{
    let m = String::from_str("reference error: '").concat(name.as_str()).concat("' is not defined");
    RuntimeError::Reference(m)
}

impl CallObject {
    /// A record with fresh bindings `vals`, no formals and the given `this`.
    pub fn new(vals: usize, this: Value) -> (r: CallObject)
        ensures
            r.vals == vals,
            r.params@.len() == 0,
            r.arg_rest_vals@.len() == 0,
            r.argc == 0,
            r.this == this,
            r.parent is None,
    {
        CallObject { vals, params: Vec::new(), arg_rest_vals: Vec::new(), argc: 0, this, parent: None }
    }

    /// Allocates the global record, whose `this` is its own bindings object.
    pub fn new_global(heap: &mut Heap) -> (r: usize)
        requires
            old(heap).wf(),
        ensures
            final(heap).wf(),
            r < final(heap).scopes@.len(),
            final(heap).arrays@ == old(heap).arrays@,
            final(heap).maps@.len() == old(heap).maps@.len() + 1,
            final(heap).maps@.drop_last() == old(heap).maps@,
            final(heap).scopes@.len() == old(heap).scopes@.len() + 1,
            final(heap).scopes@[r as int].parent is None,
            final(heap).scopes@[r as int].this == Value::plain(
                ValueBase::Object(final(heap).scopes@[r as int].vals),
            ),
            forall|k: Seq<char>|
                final(heap).maps@[final(heap).scopes@[r as int].vals as int].lookup(k) is None,
    {
        let vals = heap.alloc_map(PropertyMap::new());
        let co = CallObject::new(vals, Value::object(vals));
        heap.alloc_scope(co)
    }
}

impl Heap {
    /// Looks `name` up from scope `s` along the parent chain.
    pub fn get_value(&self, s: usize, name: &String) -> (r: Result<Value, RuntimeError>)
        requires
            self.wf(),
            s < self.scopes@.len(),
        ensures
            r matches Ok(v) ==> binding(*self, s as int, name@) == Some(v),
            r is Err ==> binding(*self, s as int, name@) is None,
            r matches Err(e) ==> (e matches RuntimeError::Reference(m) && m@ == reference_message(
                name@,
            )),
        decreases s,
    {
        let m = self.scopes[s].vals;
        assert(self.maps@[m as int].wf());
        match self.maps[m].get(name) {
            Some(v) => Ok(v),
            None => match self.scopes[s].parent {
                Some(p) => self.get_value(p, name),
                None => Err(reference_error(name)),
            },
        }
    }

    /// Binds `name` in scope `s` itself (a declaration).
    pub fn set_value(&mut self, s: usize, name: String, val: Value)
        requires
            old(self).wf(),
            s < old(self).scopes@.len(),
        ensures
            final(self).wf(),
            final(self).scopes@ == old(self).scopes@,
            final(self).arrays@ == old(self).arrays@,
            binding(*final(self), s as int, name@) == Some(val),
            final(self).maps@[old(self).scopes@[s as int].vals as int].lookup(name@) == Some(val),
            final(self).maps@ == old(self).maps@.update(
                old(self).scopes@[s as int].vals as int,
                final(self).maps@[old(self).scopes@[s as int].vals as int],
            ),
            forall|k: Seq<char>|
                k != name@ ==> final(self).maps@[old(self).scopes@[s as int].vals as int].lookup(k)
                    == old(self).maps@[old(self).scopes@[s as int].vals as int].lookup(k),
    {
        let m = self.scopes[s].vals;
        self.map_insert(m, name, val);
    }

    /// Assigns `name` where it is already bound, walking parents; where no
    /// record binds it, the root record of the chain receives it.
    pub fn set_value_if_exist(&mut self, s: usize, name: String, val: Value)
        requires
            old(self).wf(),
            s < old(self).scopes@.len(),
        ensures
            final(self).wf(),
            final(self).scopes@ == old(self).scopes@,
            final(self).arrays@ == old(self).arrays@,
            final(self).maps@.len() == old(self).maps@.len(),
            ({
                let t = assign_target(*old(self), s as int, name@);
                &&& final(self).maps@ == old(self).maps@.update(t, final(self).maps@[t])
                &&& final(self).maps@[t].lookup(name@) == Some(val)
                &&& forall|k: Seq<char>|
                    k != name@ ==> final(self).maps@[t].lookup(k) == old(self).maps@[t].lookup(k)
            }),
        decreases s,
    {
        let m = self.scopes[s].vals;
        match self.maps[m].find(&name) {
            Some(_) => self.map_insert(m, name, val),
            None => match self.scopes[s].parent {
                Some(p) => self.set_value_if_exist(p, name, val),
                None => self.map_insert(m, name, val),
            },
        }
    }

    /// `arguments[n]` as read in scope `s`.
    pub fn get_arguments_nth_value(&self, s: usize, n: usize) -> (r: Result<Value, RuntimeError>)
        requires
            self.wf(),
            s < self.scopes@.len(),
        ensures
            r matches Ok(v) ==> argument(*self, s as int, n as int) == Some(v),
            r is Err ==> argument(*self, s as int, n as int) is None,
    {
        let c = &self.scopes[s];
        if n < c.params.len() {
            return self.get_value(s, &c.params[n].0);
        }
        let k = n - c.params.len();
        if k >= c.arg_rest_vals.len() {
            return Ok(Value::undefined());
        }
        Ok(c.arg_rest_vals[k].duplicate())
    }

    /// Writes `arguments[n]` in scope `s`: a formal's binding below the number
    /// of formals, an excess argument above it; beyond those, nothing.
    pub fn set_arguments_nth_value(&mut self, s: usize, n: usize, val: Value)
        requires
            old(self).wf(),
            s < old(self).scopes@.len(),
        ensures
            final(self).wf(),
            final(self).scopes@.len() == old(self).scopes@.len(),
            final(self).arrays@ == old(self).arrays@,
            forall|t: int|
                0 <= t < final(self).scopes@.len() ==> {
                    &&& #[trigger] final(self).scopes@[t].params == old(self).scopes@[t].params
                    &&& final(self).scopes@[t].vals == old(self).scopes@[t].vals
                    &&& final(self).scopes@[t].parent == old(self).scopes@[t].parent
                },
            argument(*old(self), s as int, n as int) is Some ==> argument(
                *final(self),
                s as int,
                n as int,
            ) == Some(val) || n >= old(self).scopes@[s as int].params@.len()
                + old(self).scopes@[s as int].arg_rest_vals@.len(),
            n < old(self).scopes@[s as int].params@.len() ==> binding(
                *final(self),
                s as int,
                old(self).scopes@[s as int].params@[n as int].0@,
            ) == Some(val),
            n < old(self).scopes@[s as int].params@.len() + old(
                self,
            ).scopes@[s as int].arg_rest_vals@.len() ==> argument(*final(self), s as int, n as int)
                == Some(val),
            ({
                let c = old(self).scopes@[s as int];
                let np = c.params@.len();
                let nr = c.arg_rest_vals@.len();
                &&& (n < np ==> {
                    &&& final(self).scopes@ == old(self).scopes@
                    &&& final(self).maps@ == old(self).maps@.update(c.vals as int, final(self).maps@[c.vals as int])
                    &&& final(self).maps@[c.vals as int].lookup(c.params@[n as int].0@) == Some(val)
                    &&& forall|k: Seq<char>| k != c.params@[n as int].0@ ==> #[trigger] final(self).maps@[c.vals as int].lookup(k)
                        == old(self).maps@[c.vals as int].lookup(k)
                })
                &&& (np <= n < np + nr ==> {
                    &&& final(self).maps@ == old(self).maps@
                    &&& final(self).scopes@ == old(self).scopes@.update(s as int, final(self).scopes@[s as int])
                    &&& final(self).scopes@[s as int] == (CallObject { arg_rest_vals: final(self).scopes@[s as int].arg_rest_vals, ..c })
                    &&& final(self).scopes@[s as int].arg_rest_vals@ == c.arg_rest_vals@.update(n - np, val)
                })
                &&& (n >= np + nr ==> *final(self) == *old(self))
            }),
    {
        let np = self.scopes[s].params.len();
        if n < np {
            let name = self.scopes[s].params[n].0.clone();
            self.set_value(s, name, val);
            return;
        }
        let k = n - np;
        if k >= self.scopes[s].arg_rest_vals.len() {
            return;
        }
        let ghost pre = *self;
        self.scopes[s].arg_rest_vals.set(k, val);
        proof {
            assert(self.scopes@ =~= pre.scopes@.update(s as int, self.scopes@[s as int]));
            assert forall|t: int| 0 <= t < self.scopes@.len() implies {
                &&& #[trigger] self.scopes@[t].vals < self.maps@.len()
                &&& self.scopes@[t].parent matches Some(p) ==> p < t
            } by {
                assert(pre.scopes@[t].vals < pre.maps@.len());
            }
        }
    }

    /// The number of arguments the call passed, as `arguments.length`.
    pub fn get_arguments_length(&self, s: usize) -> (r: usize)
        requires
            s < self.scopes@.len(),
        ensures
            r == self.scopes@[s as int].argc,
    {
        self.scopes[s].argc
    }

    /// The name of the `n`-th formal of scope `s`, if there is one.
    pub fn get_parameter_nth_name(&self, s: usize, n: usize) -> (r: Option<String>)
        requires
            s < self.scopes@.len(),
        ensures
            n < self.scopes@[s as int].params@.len() ==> (r matches Some(x) && x@
                == self.scopes@[s as int].params@[n as int].0@),
            n >= self.scopes@[s as int].params@.len() ==> r is None,
    {
        if n < self.scopes[s].params.len() {
            return Some(self.scopes[s].params[n].0.clone());
        }
        None
    }
}

/// For an index below the number of formals, `arguments[i]` and the `i`-th
/// formal parameter are the same binding: in every state, and so after any
/// assignment to either of them.
pub proof fn lemma_arguments_alias_formals(h: Heap, s: int, i: int)
    requires
        h.wf(),
        0 <= s < h.scopes@.len(),
        0 <= i < h.scopes@[s].params@.len(),
    ensures
        argument(h, s, i) == binding(h, s, h.scopes@[s].params@[i].0@),
{
}

} // verus!

verus! {

/// The map an assign-if-exists writes to is a map of the heap.
pub proof fn lemma_assign_target_in_range(h: Heap, s: int, name: Seq<char>)
    requires
        h.wf(),
        0 <= s < h.scopes@.len(),
    ensures
        0 <= assign_target(h, s, name) < h.maps@.len(),
    decreases s,
{
    let c = h.scopes@[s];
    assert(c.vals < h.maps@.len());
    if !h.maps@[c.vals as int].has(name) {
        if let Some(p) = c.parent {
            if p < s {
                lemma_assign_target_in_range(h, p as int, name);
            }
        }
    }
}

/// After an assign-if-exists of `name` from scope `s` (as
/// `Heap::set_value_if_exist` ensures it), `name` reads back as the value
/// written.
pub proof fn lemma_assign_reads_back(h0: Heap, h1: Heap, s: int, name: Seq<char>, v: Value)
    requires
        h0.wf(),
        0 <= s < h0.scopes@.len(),
        h1.scopes@ == h0.scopes@,
        h1.maps@ == h0.maps@.update(assign_target(h0, s, name), h1.maps@[assign_target(h0, s, name)]),
        h1.maps@[assign_target(h0, s, name)].lookup(name) == Some(v),
    ensures
        binding(h1, s, name) == Some(v),
    decreases s,
{
    let t = assign_target(h0, s, name);
    let c = h0.scopes@[s];
    assert(c.vals < h0.maps@.len());
    lemma_assign_target_in_range(h0, s, name);
    if h0.maps@[c.vals as int].has(name) {
    } else {
        match c.parent {
            Some(p) => {
                if c.vals as int != t {
                    assert(h1.maps@[c.vals as int] == h0.maps@[c.vals as int]);
                    assert(h0.maps@[c.vals as int].lookup(name) is None);
                    lemma_assign_reads_back(h0, h1, p as int, name, v);
                }
            },
            None => {},
        }
    }
}

/// A name's binding depends only on what the maps hold under that name.
pub proof fn lemma_binding_frame(h0: Heap, h1: Heap, s: int, name: Seq<char>)
    requires
        h0.wf(),
        h1.scopes@ == h0.scopes@,
        h1.maps@.len() == h0.maps@.len(),
        forall|m: int| 0 <= m < h0.maps@.len() ==> #[trigger] h1.maps@[m].lookup(name) == h0.maps@[m].lookup(name),
    ensures
        binding(h1, s, name) == binding(h0, s, name),
    decreases s,
{
    if 0 <= s < h0.scopes@.len() {
        let c = h0.scopes@[s];
        assert(c.vals < h0.maps@.len());
        assert(h1.maps@[c.vals as int].lookup(name) == h0.maps@[c.vals as int].lookup(name));
        if let Some(p) = c.parent {
            if p < s {
                lemma_binding_frame(h0, h1, p as int, name);
            }
        }
    }
}

} // verus!
