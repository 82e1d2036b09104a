//! The heap arena: property maps, arrays and scope records, each referred
//! to by its index. Records are never moved, so an index stays valid.
use vstd::prelude::*;
use vstd::string::StringExecFns;
use crate::value::{FuncId, RuntimeError, Value, ValueBase};

verus! {

/// A mapping from string keys to values, with each key present at most once.
#[derive(Debug)]
pub struct PropertyMap {
    pub entries: Vec<(String, Value)>,
}

impl PropertyMap {
    pub open spec fn wf(&self) -> bool {
        forall|i: int, j: int|
            0 <= i < j < self.entries@.len() ==> self.entries@[i].0@ != self.entries@[j].0@
    }

    pub open spec fn has(&self, k: Seq<char>) -> bool {
        exists|i: int| 0 <= i < self.entries@.len() && self.entries@[i].0@ == k
    }

    /// The value stored under `k`, if any.
    pub open spec fn lookup(&self, k: Seq<char>) -> Option<Value> {
        if self.has(k) {
            Some(
                self.entries@[choose|i: int|
                    0 <= i < self.entries@.len() && self.entries@[i].0@ == k].1,
            )
        } else {
            None
        }
    }

    pub fn new() -> (r: PropertyMap)
        ensures
            r.wf(),
            r.entries@.len() == 0,
            forall|k: Seq<char>| r.lookup(k) == None::<Value>,
    {
        PropertyMap { entries: Vec::new() }
    }

    pub proof fn lemma_lookup_at(&self, i: int)
        requires
            self.wf(),
            0 <= i < self.entries@.len(),
        ensures
            self.lookup(self.entries@[i].0@) == Some(self.entries@[i].1),
    {
        let k = self.entries@[i].0@;
        assert(self.has(k));
        let j = choose|j: int| 0 <= j < self.entries@.len() && self.entries@[j].0@ == k;
        assert(i == j);
    }

    /// The position of `k` among the entries, if it is present.
    pub fn find(&self, k: &String) -> (r: Option<usize>)
        ensures
            r is None <==> !self.has(k@),
            r matches Some(i) ==> i < self.entries@.len() && self.entries@[i as int].0@ == k@,
    {
        let mut i: usize = 0;
        while i < self.entries.len()
            invariant
                i <= self.entries@.len(),
                forall|j: int| 0 <= j < i ==> self.entries@[j].0@ != k@,
            decreases self.entries@.len() - i,
        {
            if self.entries[i].0 == *k {
                return Some(i);
            }
            i = i + 1;
        }
        None
    }

    /// A copy of the value stored under `k`, if any.
    pub fn get(&self, k: &String) -> (r: Option<Value>)
        requires
            self.wf(),
        ensures
            r == self.lookup(k@),
    {
        match self.find(k) {
            Some(i) => {
                proof {
                    self.lemma_lookup_at(i as int);
                }
                Some(self.entries[i].1.duplicate())
            },
            None => None,
        }
    }

    /// Stores `v` under `k`, replacing what was there.
    pub fn insert(&mut self, k: String, v: Value)
        requires
            old(self).wf(),
        ensures
            final(self).wf(),
            final(self).lookup(k@) == Some(v),
            forall|k2: Seq<char>| k2 != k@ ==> final(self).lookup(k2) == old(self).lookup(k2),
    {
        let ghost kv = k@;
        let found = self.find(&k);
        let ghost pos: int = match found {
            Some(i) => i as int,
            None => old(self).entries@.len() as int,
        };
        match found {
            Some(i) => {
                self.entries.set(i, (k, v));
            },
            None => {
                self.entries.push((k, v));
            },
        }
        let ghost n = self.entries@.len();
        assert forall|k2: Seq<char>| k2 != kv implies self.lookup(k2) == old(self).lookup(k2) by {
            if old(self).has(k2) {
                let j = choose|j: int|
                    0 <= j < old(self).entries@.len() && old(self).entries@[j].0@ == k2;
                old(self).lemma_lookup_at(j);
                assert(self.entries@[j] == old(self).entries@[j]);
                self.lemma_lookup_at(j);
            } else {
                assert(!self.has(k2)) by {
                    if self.has(k2) {
                        let j = choose|j: int|
                            0 <= j < self.entries@.len() && self.entries@[j].0@ == k2;
                        assert(old(self).entries@[j].0@ == k2);
                    }
                }
            }
        }
        proof {
            assert(self.entries@[pos].0@ == kv && self.entries@[pos].1 == v);
            self.lemma_lookup_at(pos);
        }
    }
}

/// A dense array: `elems` may be longer than `length`; slots never written
/// hold `Empty`. Named properties and the prototype link live in `obj`.
#[derive(Debug)]
pub struct ArrayValue {
    pub elems: Vec<Value>,
    pub length: usize,
    pub obj: PropertyMap,
}

impl ArrayValue {
    /// Exactly the live elements are stored, and the length is a valid
    /// array length.
    pub open spec fn wf(&self) -> bool {
        &&& self.obj.wf()
        &&& self.length == self.elems@.len()
        &&& self.length <= u32::MAX
    }

    /// An array of `arr` whose prototype is the array at index `proto`.
    pub fn new(arr: Vec<Value>, proto: usize) -> (r: ArrayValue)
        requires
            arr@.len() <= u32::MAX,
        ensures
            r.wf(),
            r.elems@ == arr@,
            r.length == arr@.len(),
            r.obj.lookup("__proto__"@) == Some(Value::plain(ValueBase::Array(proto))),
            forall|k: Seq<char>| k != "__proto__"@ ==> r.obj.lookup(k) is None,
    {
        let len = arr.len();
        let mut obj = PropertyMap::new();
        obj.insert(String::from_str("__proto__"), Value::array(proto));
        ArrayValue { elems: arr, length: len, obj }
    }

    /// Appends `val`, extending the length by one.
    pub fn push(&mut self, val: Value)
        requires
            old(self).wf(),
            old(self).length < u32::MAX,
        ensures
            final(self).wf(),
            final(self).elems@ == old(self).elems@.push(val),
            final(self).length == old(self).length + 1,
            final(self).obj == old(self).obj,
    {
        self.elems.push(val);
        self.length = self.length + 1;
    }
}

/// A scope record: its bindings (a map in the heap), its formal parameters
/// as (name, is-rest), the positional arguments beyond the formals, the
/// number of arguments the call passed, the `this` value, and the
/// enclosing record.
#[derive(Debug)]
pub struct CallObject {
    pub vals: usize,
    pub params: Vec<(String, bool)>,
    pub arg_rest_vals: Vec<Value>,
    pub argc: usize,
    pub this: Value,
    pub parent: Option<usize>,
}

#[derive(Debug)]
pub struct Heap {
    pub maps: Vec<PropertyMap>,
    pub arrays: Vec<ArrayValue>,
    pub scopes: Vec<CallObject>,
}

impl Heap {
    /// Every map keeps its keys unique; every scope record's bindings are a
    /// map of this heap and its parent was allocated before it.
    pub open spec fn wf(&self) -> bool {
        &&& forall|m: int| 0 <= m < self.maps@.len() ==> #[trigger] self.maps@[m].wf()
        &&& forall|a: int| 0 <= a < self.arrays@.len() ==> #[trigger] self.arrays@[a].wf()
        &&& forall|s: int|
            0 <= s < self.scopes@.len() ==> {
                &&& #[trigger] self.scopes@[s].vals < self.maps@.len()
                &&& self.scopes@[s].parent matches Some(p) ==> p < s
            }
    }

    pub fn new() -> (r: Heap)
        ensures
            r.wf(),
            r.maps@.len() == 0 && r.arrays@.len() == 0 && r.scopes@.len() == 0,
    {
        Heap { maps: Vec::new(), arrays: Vec::new(), scopes: Vec::new() }
    }

    /// Allocates a property map and returns its index.
    pub fn alloc_map(&mut self, m: PropertyMap) -> (r: usize)
        requires
            old(self).wf(),
            m.wf(),
        ensures
            final(self).wf(),
            r == old(self).maps@.len(),
            final(self).maps@ == old(self).maps@.push(m),
            final(self).arrays@ == old(self).arrays@,
            final(self).scopes@ == old(self).scopes@,
    {
        let r = self.maps.len();
        self.maps.push(m);
        assert forall|s: int| 0 <= s < self.scopes@.len() implies #[trigger] self.scopes@[s].vals
            < self.maps@.len() by {
            assert(old(self).scopes@[s].vals < old(self).maps@.len());
        }
        r
    }

    /// Allocates an array and returns its index.
    pub fn alloc_array(&mut self, a: ArrayValue) -> (r: usize)
        requires
            old(self).wf(),
            a.wf(),
        ensures
            final(self).wf(),
            r == old(self).arrays@.len(),
            final(self).arrays@ == old(self).arrays@.push(a),
            final(self).maps@ == old(self).maps@,
            final(self).scopes@ == old(self).scopes@,
    {
        let r = self.arrays.len();
        self.arrays.push(a);
        r
    }

    /// Allocates a scope record and returns its index.
    pub fn alloc_scope(&mut self, c: CallObject) -> (r: usize)
        requires
            old(self).wf(),
            c.vals < old(self).maps@.len(),
            c.parent matches Some(p) ==> p < old(self).scopes@.len(),
        ensures
            final(self).wf(),
            r == old(self).scopes@.len(),
            final(self).scopes@ == old(self).scopes@.push(c),
            final(self).maps@ == old(self).maps@,
            final(self).arrays@ == old(self).arrays@,
    {
        let r = self.scopes.len();
        self.scopes.push(c);
        assert forall|s: int| 0 <= s < self.scopes@.len() implies {
            &&& #[trigger] self.scopes@[s].vals < self.maps@.len()
            &&& self.scopes@[s].parent matches Some(p) ==> p < s
        } by {
            if s < r {
                assert(self.scopes@[s] == old(self).scopes@[s]);
            }
        }
        r
    }

    /// `Array.prototype.push`: appends `vals` to array `a` and returns the
    /// new length; `None`, changing nothing, where `a` is not an array of
    /// this heap or the length would pass the largest array length.
    pub fn array_push(&mut self, a: usize, vals: &Vec<Value>) -> (r: Option<usize>)
        requires
            old(self).wf(),
        ensures
            final(self).wf(),
            final(self).maps@ == old(self).maps@,
            final(self).scopes@ == old(self).scopes@,
            final(self).arrays@.len() == old(self).arrays@.len(),
            r is None <==> a >= old(self).arrays@.len() || old(self).arrays@[a as int].length + vals@.len() >= u32::MAX,
            r is None ==> *final(self) == *old(self),
            r matches Some(n) ==> {
                let o = old(self).arrays@[a as int];
                let f = final(self).arrays@[a as int];
                &&& n == o.length + vals@.len()
                &&& f.length == n
                &&& f.elems@ == o.elems@ + vals@
                &&& f.obj == o.obj
                &&& final(self).arrays@ == old(self).arrays@.update(a as int, f)
            },
    {
        if a >= self.arrays.len() {
            return None;
        }
        proof {
            assert(self.arrays@[a as int].wf());
        }
        if self.arrays[a].length >= u32::MAX as usize || vals.len() >= u32::MAX as usize - self.arrays[a].length {
            return None;
        }
        let ghost start = self.arrays@[a as int];
        let mut i: usize = 0;
        while i < vals.len()
            invariant
                self.wf(),
                a < self.arrays@.len(),
                self.arrays@.len() == old(self).arrays@.len(),
                self.maps@ == old(self).maps@,
                self.scopes@ == old(self).scopes@,
                start == old(self).arrays@[a as int],
                start.length + vals@.len() < u32::MAX,
                i <= vals@.len(),
                self.arrays@[a as int].length == start.length + i,
                self.arrays@[a as int].elems@ == start.elems@ + vals@.subrange(0, i as int),
                self.arrays@[a as int].obj == start.obj,
                forall|j: int| 0 <= j < self.arrays@.len() && j != a ==> self.arrays@[j] == old(self).arrays@[j],
            decreases vals@.len() - i,
        {
            let ghost pre = *self;
            assert(self.arrays@[a as int].wf());
            self.arrays[a].push(vals[i].duplicate());
            i = i + 1;
            proof {
                assert(self.arrays@[a as int].elems@ =~= start.elems@ + vals@.subrange(0, i as int));
                assert forall|j: int| 0 <= j < self.arrays@.len() implies #[trigger] self.arrays@[j].wf() by {
                    if j != a {
                        assert(self.arrays@[j] == pre.arrays@[j]);
                    }
                }
                assert forall|t: int| 0 <= t < self.scopes@.len() implies #[trigger] self.scopes@[t].vals < self.maps@.len() by {
                    assert(pre.scopes@[t].vals < pre.maps@.len());
                }
            }
        }
        proof {
            assert(vals@.subrange(0, vals@.len() as int) =~= vals@);
            assert(self.arrays@ =~= old(self).arrays@.update(a as int, self.arrays@[a as int]));
        }
        Some(self.arrays[a].length)
    }

    /// `Array.prototype.pop`: removes the last element of array `a` and
    /// returns it (`undefined` for a hole); `None`, changing nothing, where
    /// `a` is not an array of this heap or is empty.
    pub fn array_pop(&mut self, a: usize) -> (r: Option<Value>)
        requires
            old(self).wf(),
        ensures
            final(self).wf(),
            final(self).maps@ == old(self).maps@,
            final(self).scopes@ == old(self).scopes@,
            final(self).arrays@.len() == old(self).arrays@.len(),
            r is None <==> a >= old(self).arrays@.len() || old(self).arrays@[a as int].length == 0,
            r is None ==> *final(self) == *old(self),
            r matches Some(v) ==> {
                let o = old(self).arrays@[a as int];
                let f = final(self).arrays@[a as int];
                let last = o.elems@[o.length - 1];
                &&& v == (if last.val is Empty { Value::plain(ValueBase::Undefined) } else { last })
                &&& f.length == o.length - 1
                &&& f.elems@ == o.elems@.subrange(0, o.length - 1)
                &&& f.obj == o.obj
                &&& final(self).arrays@ == old(self).arrays@.update(a as int, f)
            },
    {
        if a >= self.arrays.len() {
            return None;
        }
        proof {
            assert(self.arrays@[a as int].wf());
        }
        let n = self.arrays[a].length;
        if n == 0 {
            return None;
        }
        let ghost pre = *self;
        let last = self.arrays[a].elems[n - 1].duplicate();
        self.arrays[a].elems.truncate(n - 1);
        self.arrays[a].length = n - 1;
        proof {
            assert forall|j: int| 0 <= j < self.arrays@.len() implies #[trigger] self.arrays@[j].wf() by {
                if j != a {
                    assert(self.arrays@[j] == pre.arrays@[j]);
                }
            }
            assert forall|t: int| 0 <= t < self.scopes@.len() implies #[trigger] self.scopes@[t].vals < self.maps@.len() by {
                assert(pre.scopes@[t].vals < pre.maps@.len());
            }
            assert(self.arrays@ =~= old(self).arrays@.update(a as int, self.arrays@[a as int]));
        }
        match last.val {
            ValueBase::Empty => Some(Value::undefined()),
            _ => Some(last),
        }
    }

    /// Stores `v` under `k` in map `m`.
    pub fn map_insert(&mut self, m: usize, k: String, v: Value)
        requires
            old(self).wf(),
            m < old(self).maps@.len(),
        ensures
            final(self).wf(),
            final(self).maps@ == old(self).maps@.update(m as int, final(self).maps@[m as int]),
            final(self).maps@[m as int].lookup(k@) == Some(v),
            forall|k2: Seq<char>|
                k2 != k@ ==> final(self).maps@[m as int].lookup(k2) == old(
                    self,
                ).maps@[m as int].lookup(k2),
            final(self).arrays@ == old(self).arrays@,
            final(self).scopes@ == old(self).scopes@,
    {
        proof {
            assert(old(self).maps@[m as int].wf());
        }
        self.maps[m].insert(k, v);
        assert forall|i: int| 0 <= i < self.maps@.len() implies #[trigger] self.maps@[i].wf() by {
            if i != m {
                assert(self.maps@[i] == old(self).maps@[i]);
            }
        }
    }
}

} // verus!
