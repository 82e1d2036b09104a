//! Mark-and-sweep collection over the heap arena. Marking finds every
//! record reachable from the roots; sweeping empties the others in place,
//! so that indices held anywhere stay valid.
use vstd::prelude::*;
use crate::heap::{ArrayValue, CallObject, Heap, PropertyMap};
use crate::value::{Value, ValueBase};

verus! {

/// Which records are reachable.
pub struct Marks {
    pub maps: Vec<bool>,
    pub arrays: Vec<bool>,
    pub scopes: Vec<bool>,
}

/// A record on the mark worklist.
pub enum Ref {
    Props(usize),
    Elems(usize),
    Record(usize),
}

pub open spec fn marked_map(m: Marks, i: usize) -> bool {
    i < m.maps@.len() ==> m.maps@[i as int]
}

pub open spec fn marked_array(m: Marks, i: usize) -> bool {
    i < m.arrays@.len() ==> m.arrays@[i as int]
}

pub open spec fn marked_scope(m: Marks, i: usize) -> bool {
    i < m.scopes@.len() ==> m.scopes@[i as int]
}

/// Every record that `v` refers to is marked.
pub open spec fn value_marked(v: Value, m: Marks) -> bool
    decreases v,
{
    match v.val {
        ValueBase::Object(o) => marked_map(m, o),
        ValueBase::Array(a) => marked_array(m, a),
        ValueBase::Function(f) => marked_map(m, f.obj) && marked_scope(m, f.callobj) && value_marked(f.this, m),
        ValueBase::BuiltinFunction(b) => marked_map(m, b.obj) && value_marked(b.this, m),
        _ => true,
    }
}

pub open spec fn values_marked(vs: Seq<Value>, m: Marks) -> bool {
    forall|i: int| 0 <= i < vs.len() ==> value_marked(#[trigger] vs[i], m)
}

pub open spec fn map_refs_marked(p: PropertyMap, m: Marks) -> bool {
    forall|i: int| 0 <= i < p.entries@.len() ==> value_marked(#[trigger] p.entries@[i].1, m)
}

pub open spec fn array_refs_marked(a: ArrayValue, m: Marks) -> bool {
    values_marked(a.elems@, m) && map_refs_marked(a.obj, m)
}

pub open spec fn scope_refs_marked(c: CallObject, m: Marks) -> bool {
    &&& marked_map(m, c.vals)
    &&& (c.parent matches Some(p) ==> marked_scope(m, p))
    &&& value_marked(c.this, m)
    &&& values_marked(c.arg_rest_vals@, m)
}

pub open spec fn sized(h: Heap, m: Marks) -> bool {
    &&& m.maps@.len() == h.maps@.len()
    &&& m.arrays@.len() == h.arrays@.len()
    &&& m.scopes@.len() == h.scopes@.len()
}

/// The marks are closed: whatever a marked record refers to is marked.
pub open spec fn closed(h: Heap, m: Marks) -> bool {
    &&& sized(h, m)
    &&& forall|i: int| 0 <= i < h.maps@.len() && #[trigger] m.maps@[i] ==> map_refs_marked(h.maps@[i], m)
    &&& forall|i: int| 0 <= i < h.arrays@.len() && #[trigger] m.arrays@[i] ==> array_refs_marked(h.arrays@[i], m)
    &&& forall|i: int| 0 <= i < h.scopes@.len() && #[trigger] m.scopes@[i] ==> scope_refs_marked(h.scopes@[i], m)
}

/// The marks of `a` are all marks of `b`.
pub open spec fn grows(a: Marks, b: Marks) -> bool {
    &&& a.maps@.len() == b.maps@.len() && a.arrays@.len() == b.arrays@.len() && a.scopes@.len() == b.scopes@.len()
    &&& forall|i: int| 0 <= i < a.maps@.len() && #[trigger] a.maps@[i] ==> b.maps@[i]
    &&& forall|i: int| 0 <= i < a.arrays@.len() && #[trigger] a.arrays@[i] ==> b.arrays@[i]
    &&& forall|i: int| 0 <= i < a.scopes@.len() && #[trigger] a.scopes@[i] ==> b.scopes@[i]
}

pub proof fn lemma_value_marked_grows(v: Value, a: Marks, b: Marks)
    requires
        value_marked(v, a),
        grows(a, b),
    ensures
        value_marked(v, b),
    decreases v,
{
    match v.val {
        ValueBase::Function(f) => lemma_value_marked_grows(f.this, a, b),
        ValueBase::BuiltinFunction(f) => lemma_value_marked_grows(f.this, a, b),
        _ => {},
    }
}

pub open spec fn count_false(s: Seq<bool>) -> nat
    decreases s.len(),
{
    if s.len() == 0 {
        0
    } else {
        count_false(s.drop_last()) + if s.last() { 0nat } else { 1nat }
    }
}

proof fn lemma_count_false_set(s: Seq<bool>, i: int)
    requires
        0 <= i < s.len(),
        !s[i],
    ensures
        count_false(s.update(i, true)) + 1 == count_false(s),
    decreases s.len(),
{
    if i < s.len() - 1 {
        assert(s.update(i, true).drop_last() == s.drop_last().update(i, true));
        lemma_count_false_set(s.drop_last(), i);
    } else {
        assert(s.update(i, true).drop_last() == s.drop_last());
    }
}

/// Record `r` is marked in `c`.
pub open spec fn ref_in(c: Marks, r: Ref) -> bool {
    match r {
        Ref::Props(i) => marked_map(c, i),
        Ref::Elems(i) => marked_array(c, i),
        Ref::Record(i) => marked_scope(c, i),
    }
}

/// Every record marked in `m` is marked in `c`.
pub open spec fn below(m: Marks, c: Marks) -> bool {
    &&& forall|i: int| 0 <= i < m.maps@.len() && #[trigger] m.maps@[i] ==> marked_map(c, i as usize)
    &&& forall|i: int| 0 <= i < m.arrays@.len() && #[trigger] m.arrays@[i] ==> marked_array(c, i as usize)
    &&& forall|i: int| 0 <= i < m.scopes@.len() && #[trigger] m.scopes@[i] ==> marked_scope(c, i as usize)
}

/// `m` marks nothing outside any set of marks that `ok` admits.
pub open spec fn least(m: Marks, ok: spec_fn(Marks) -> bool) -> bool {
    forall|c: Marks| #[trigger] ok(c) ==> below(m, c)
}

/// Every record on the worklist is marked.
pub open spec fn works_marked(m: Marks, w: Seq<Ref>) -> bool {
    forall|k: int| 0 <= k < w.len() ==> ref_in(m, #[trigger] w[k])
}

proof fn lemma_works_grow(m0: Marks, m1: Marks, w: Seq<Ref>)
    requires
        works_marked(m0, w),
        grows(m0, m1),
    ensures
        works_marked(m1, w),
{
    assert forall|k: int| 0 <= k < w.len() implies ref_in(m1, #[trigger] w[k]) by {
        assert(ref_in(m0, w[k]));
    }
}

/// The marks still unset, over all three kinds of record.
pub open spec fn unmarked(m: Marks) -> nat {
    count_false(m.maps@) + count_false(m.arrays@) + count_false(m.scopes@)
}

/// Records that are marked but whose references may not be yet are on the
/// worklist.
pub open spec fn pending_ok(h: Heap, m: Marks, work: Seq<Ref>) -> bool {
    &&& forall|i: int| 0 <= i < h.maps@.len() && #[trigger] m.maps@[i] && !work.contains(Ref::Props(i as usize)) ==> map_refs_marked(h.maps@[i], m)
    &&& forall|i: int| 0 <= i < h.arrays@.len() && #[trigger] m.arrays@[i] && !work.contains(Ref::Elems(i as usize)) ==> array_refs_marked(h.arrays@[i], m)
    &&& forall|i: int| 0 <= i < h.scopes@.len() && #[trigger] m.scopes@[i] && !work.contains(Ref::Record(i as usize)) ==> scope_refs_marked(h.scopes@[i], m)
}

} // verus!

verus! {

pub proof fn lemma_refs_grow(h: Heap, a: Marks, b: Marks)
    requires
        grows(a, b),
    ensures
        forall|i: int| 0 <= i < h.maps@.len() && map_refs_marked(h.maps@[i], a) ==> #[trigger] map_refs_marked(h.maps@[i], b),
        forall|i: int| 0 <= i < h.arrays@.len() && array_refs_marked(h.arrays@[i], a) ==> #[trigger] array_refs_marked(h.arrays@[i], b),
        forall|i: int| 0 <= i < h.scopes@.len() && scope_refs_marked(h.scopes@[i], a) ==> #[trigger] scope_refs_marked(h.scopes@[i], b),
{
    assert forall|i: int| 0 <= i < h.maps@.len() && map_refs_marked(h.maps@[i], a) implies #[trigger] map_refs_marked(h.maps@[i], b) by {
        assert forall|j: int| 0 <= j < h.maps@[i].entries@.len() implies value_marked(#[trigger] h.maps@[i].entries@[j].1, b) by {
            lemma_value_marked_grows(h.maps@[i].entries@[j].1, a, b);
        }
    }
    assert forall|i: int| 0 <= i < h.arrays@.len() && array_refs_marked(h.arrays@[i], a) implies #[trigger] array_refs_marked(h.arrays@[i], b) by {
        assert forall|j: int| 0 <= j < h.arrays@[i].elems@.len() implies value_marked(#[trigger] h.arrays@[i].elems@[j], b) by {
            lemma_value_marked_grows(h.arrays@[i].elems@[j], a, b);
        }
        assert forall|j: int| 0 <= j < h.arrays@[i].obj.entries@.len() implies value_marked(#[trigger] h.arrays@[i].obj.entries@[j].1, b) by {
            lemma_value_marked_grows(h.arrays@[i].obj.entries@[j].1, a, b);
        }
    }
    assert forall|i: int| 0 <= i < h.scopes@.len() && scope_refs_marked(h.scopes@[i], a) implies #[trigger] scope_refs_marked(h.scopes@[i], b) by {
        lemma_value_marked_grows(h.scopes@[i].this, a, b);
        assert forall|j: int| 0 <= j < h.scopes@[i].arg_rest_vals@.len() implies value_marked(#[trigger] h.scopes@[i].arg_rest_vals@[j], b) by {
            lemma_value_marked_grows(h.scopes@[i].arg_rest_vals@[j], a, b);
        }
    }
}

/// What marking steps keep: the marks only grow, records pending on the
/// worklist stay accounted for, and the count of unset marks (doubled) plus
/// the worklist length does not increase.
pub open spec fn mark_step(h: Heap, m0: Marks, w0: Seq<Ref>, m1: Marks, w1: Seq<Ref>) -> bool {
    &&& grows(m0, m1)
    &&& (pending_ok(h, m0, w0) ==> pending_ok(h, m1, w1))
    &&& 2 * unmarked(m1) + w1.len() <= 2 * unmarked(m0) + w0.len()
    &&& forall|k: int| 0 <= k < w0.len() ==> w1.contains(#[trigger] w0[k])
    &&& forall|i: int| 0 <= i < m1.maps@.len() && #[trigger] m1.maps@[i] && !m0.maps@[i] ==> w1.contains(Ref::Props(i as usize))
    &&& forall|i: int| 0 <= i < m1.arrays@.len() && #[trigger] m1.arrays@[i] && !m0.arrays@[i] ==> w1.contains(Ref::Elems(i as usize))
    &&& forall|i: int| 0 <= i < m1.scopes@.len() && #[trigger] m1.scopes@[i] && !m0.scopes@[i] ==> w1.contains(Ref::Record(i as usize))
}

proof fn lemma_mark_step_trans(h: Heap, m0: Marks, w0: Seq<Ref>, m1: Marks, w1: Seq<Ref>, m2: Marks, w2: Seq<Ref>)
    requires
        mark_step(h, m0, w0, m1, w1),
        mark_step(h, m1, w1, m2, w2),
    ensures
        mark_step(h, m0, w0, m2, w2),
{
    assert forall|k: int| 0 <= k < w0.len() implies w2.contains(#[trigger] w0[k]) by {
        assert(w1.contains(w0[k]));
        let j = choose|j: int| 0 <= j < w1.len() && w1[j] == w0[k];
        assert(w2.contains(w1[j]));
    }
    assert forall|i: int| 0 <= i < m2.maps@.len() && #[trigger] m2.maps@[i] && !m0.maps@[i] implies w2.contains(Ref::Props(i as usize)) by {
        if m1.maps@[i] {
            let j = choose|j: int| 0 <= j < w1.len() && w1[j] == Ref::Props(i as usize);
            assert(w2.contains(w1[j]));
        }
    }
    assert forall|i: int| 0 <= i < m2.arrays@.len() && #[trigger] m2.arrays@[i] && !m0.arrays@[i] implies w2.contains(Ref::Elems(i as usize)) by {
        if m1.arrays@[i] {
            let j = choose|j: int| 0 <= j < w1.len() && w1[j] == Ref::Elems(i as usize);
            assert(w2.contains(w1[j]));
        }
    }
    assert forall|i: int| 0 <= i < m2.scopes@.len() && #[trigger] m2.scopes@[i] && !m0.scopes@[i] implies w2.contains(Ref::Record(i as usize)) by {
        if m1.scopes@[i] {
            let j = choose|j: int| 0 <= j < w1.len() && w1[j] == Ref::Record(i as usize);
            assert(w2.contains(w1[j]));
        }
    }
}

impl Marks {
    pub fn new(h: &Heap) -> (r: Marks)
        ensures
            sized(*h, r),
            forall|i: int| 0 <= i < r.maps@.len() ==> !r.maps@[i],
            forall|i: int| 0 <= i < r.arrays@.len() ==> !r.arrays@[i],
            forall|i: int| 0 <= i < r.scopes@.len() ==> !r.scopes@[i],
    {
        Marks {
            maps: falses(h.maps.len()),
            arrays: falses(h.arrays.len()),
            scopes: falses(h.scopes.len()),
        }
    }

    /// Marks record `r`, putting it on the worklist if it was not marked.
    pub fn mark_ref(&mut self, h: &Heap, work: &mut Vec<Ref>, r: Ref, ok: Ghost<spec_fn(Marks) -> bool>)
        requires
            sized(*h, *old(self)),
            least(*old(self), ok@),
            works_marked(*old(self), old(work)@),
            forall|c: Marks| #[trigger] ok@(c) ==> ref_in(c, r),
        ensures
            sized(*h, *final(self)),
            least(*final(self), ok@),
            works_marked(*final(self), final(work)@),
            mark_step(*h, *old(self), old(work)@, *final(self), final(work)@),
            r matches Ref::Props(i) ==> marked_map(*final(self), i),
            r matches Ref::Elems(i) ==> marked_array(*final(self), i),
            r matches Ref::Record(i) ==> marked_scope(*final(self), i),
    {
        let ghost m0 = *self;
        let ghost w0 = work@;
        match r {
            Ref::Props(i) => {
                if i < self.maps.len() && !self.maps[i] {
                    proof { lemma_count_false_set(self.maps@, i as int); }
                    self.maps.set(i, true);
                    work.push(Ref::Props(i));
                }
            },
            Ref::Elems(i) => {
                if i < self.arrays.len() && !self.arrays[i] {
                    proof { lemma_count_false_set(self.arrays@, i as int); }
                    self.arrays.set(i, true);
                    work.push(Ref::Elems(i));
                }
            },
            Ref::Record(i) => {
                if i < self.scopes.len() && !self.scopes[i] {
                    proof { lemma_count_false_set(self.scopes@, i as int); }
                    self.scopes.set(i, true);
                    work.push(Ref::Record(i));
                }
            },
        }
        proof {
            assert(grows(m0, *self));
            lemma_refs_grow(*h, m0, *self);
            assert forall|c: Marks| #[trigger] ok@(c) implies below(*self, c) by {
                assert(below(m0, c));
                assert(ref_in(c, r));
            }
            assert forall|k: int| 0 <= k < work@.len() implies ref_in(*self, #[trigger] work@[k]) by {
                if k < w0.len() {
                    assert(work@[k] == w0[k]);
                    assert(ref_in(m0, w0[k]));
                }
            }
            assert forall|k: int| 0 <= k < w0.len() implies work@.contains(#[trigger] w0[k]) by {
                assert(work@[k] == w0[k]);
            }
            assert forall|j: int| 0 <= j < self.maps@.len() && #[trigger] self.maps@[j] && !m0.maps@[j] implies work@.contains(Ref::Props(j as usize)) by {
                assert(work@[work@.len() - 1] == Ref::Props(j as usize));
            }
            assert forall|j: int| 0 <= j < self.arrays@.len() && #[trigger] self.arrays@[j] && !m0.arrays@[j] implies work@.contains(Ref::Elems(j as usize)) by {
                assert(work@[work@.len() - 1] == Ref::Elems(j as usize));
            }
            assert forall|j: int| 0 <= j < self.scopes@.len() && #[trigger] self.scopes@[j] && !m0.scopes@[j] implies work@.contains(Ref::Record(j as usize)) by {
                assert(work@[work@.len() - 1] == Ref::Record(j as usize));
            }
            if pending_ok(*h, m0, w0) {
                assert forall|i: int| 0 <= i < h.maps@.len() && #[trigger] self.maps@[i] && !work@.contains(Ref::Props(i as usize)) implies map_refs_marked(h.maps@[i], *self) by {
                    if !m0.maps@[i] {
                        assert(work@[work@.len() - 1] == Ref::Props(i as usize));
                    } else if w0.contains(Ref::Props(i as usize)) {
                        let k = choose|k: int| 0 <= k < w0.len() && w0[k] == Ref::Props(i as usize);
                        assert(work@.contains(w0[k]));
                    }
                }
                assert forall|i: int| 0 <= i < h.arrays@.len() && #[trigger] self.arrays@[i] && !work@.contains(Ref::Elems(i as usize)) implies array_refs_marked(h.arrays@[i], *self) by {
                    if !m0.arrays@[i] {
                        assert(work@[work@.len() - 1] == Ref::Elems(i as usize));
                    } else if w0.contains(Ref::Elems(i as usize)) {
                        let k = choose|k: int| 0 <= k < w0.len() && w0[k] == Ref::Elems(i as usize);
                        assert(work@.contains(w0[k]));
                    }
                }
                assert forall|i: int| 0 <= i < h.scopes@.len() && #[trigger] self.scopes@[i] && !work@.contains(Ref::Record(i as usize)) implies scope_refs_marked(h.scopes@[i], *self) by {
                    if !m0.scopes@[i] {
                        assert(work@[work@.len() - 1] == Ref::Record(i as usize));
                    } else if w0.contains(Ref::Record(i as usize)) {
                        let k = choose|k: int| 0 <= k < w0.len() && w0[k] == Ref::Record(i as usize);
                        assert(work@.contains(w0[k]));
                    }
                }
            }
        }
    }
}

fn falses(n: usize) -> (r: Vec<bool>)
    ensures
        r@.len() == n,
        forall|i: int| 0 <= i < n ==> !r@[i],
{
    let mut v: Vec<bool> = Vec::new();
    while v.len() < n
        invariant
            v@.len() <= n,
            forall|i: int| 0 <= i < v@.len() ==> !v@[i],
        decreases n - v@.len(),
    {
        v.push(false);
    }
    v
}

} // verus!

verus! {

impl Marks {
    /// Marks every record that `v` refers to.
    pub fn mark_value(&mut self, h: &Heap, work: &mut Vec<Ref>, v: &Value, ok: Ghost<spec_fn(Marks) -> bool>)
        requires
            sized(*h, *old(self)),
            least(*old(self), ok@),
            works_marked(*old(self), old(work)@),
            forall|c: Marks| #[trigger] ok@(c) ==> value_marked(*v, c),
        ensures
            sized(*h, *final(self)),
            least(*final(self), ok@),
            works_marked(*final(self), final(work)@),
            mark_step(*h, *old(self), old(work)@, *final(self), final(work)@),
            value_marked(*v, *final(self)),
        decreases v,
    {
        let ghost m0 = *self;
        let ghost w0 = work@;
        match &v.val {
            ValueBase::Object(o) => self.mark_ref(h, work, Ref::Props(*o), ok),
            ValueBase::Array(a) => self.mark_ref(h, work, Ref::Elems(*a), ok),
            ValueBase::Function(f) => {
                self.mark_ref(h, work, Ref::Props(f.obj), ok);
                let ghost m1 = *self;
                let ghost w1 = work@;
                self.mark_ref(h, work, Ref::Record(f.callobj), ok);
                let ghost m2 = *self;
                let ghost w2 = work@;
                self.mark_value(h, work, &f.this, ok);
                proof {
                    lemma_mark_step_trans(*h, m0, w0, m1, w1, m2, w2);
                    lemma_mark_step_trans(*h, m0, w0, m2, w2, *self, work@);
                }
            },
            ValueBase::BuiltinFunction(b) => {
                self.mark_ref(h, work, Ref::Props(b.obj), ok);
                let ghost m1 = *self;
                let ghost w1 = work@;
                self.mark_value(h, work, &b.this, ok);
                proof {
                    lemma_mark_step_trans(*h, m0, w0, m1, w1, *self, work@);
                }
            },
            _ => {
                proof {
                    assert forall|k: int| 0 <= k < w0.len() implies work@.contains(#[trigger] w0[k]) by {
                        assert(work@[k] == w0[k]);
                    }
                }
            },
        }
    }

    /// Marks every record that the values of `vs` refer to.
    pub fn mark_values(&mut self, h: &Heap, work: &mut Vec<Ref>, vs: &Vec<Value>, ok: Ghost<spec_fn(Marks) -> bool>)
        requires
            sized(*h, *old(self)),
            least(*old(self), ok@),
            works_marked(*old(self), old(work)@),
            forall|c: Marks| #[trigger] ok@(c) ==> values_marked(vs@, c),
        ensures
            sized(*h, *final(self)),
            least(*final(self), ok@),
            works_marked(*final(self), final(work)@),
            mark_step(*h, *old(self), old(work)@, *final(self), final(work)@),
            values_marked(vs@, *final(self)),
    {
        let ghost m0 = *self;
        let ghost w0 = work@;
        proof {
            assert forall|k: int| 0 <= k < w0.len() implies work@.contains(#[trigger] w0[k]) by {
                assert(work@[k] == w0[k]);
            }
        }
        let mut i: usize = 0;
        while i < vs.len()
            invariant
                sized(*h, *self),
                least(*self, ok@),
                works_marked(*self, work@),
                forall|c: Marks| #[trigger] ok@(c) ==> values_marked(vs@, c),
                i <= vs@.len(),
                mark_step(*h, m0, w0, *self, work@),
                forall|j: int| 0 <= j < i ==> value_marked(#[trigger] vs@[j], *self),
            decreases vs@.len() - i,
        {
            let ghost m1 = *self;
            let ghost w1 = work@;
            proof {
                assert forall|c: Marks| #[trigger] ok@(c) implies value_marked(vs@[i as int], c) by {
                    assert(values_marked(vs@, c));
                }
            }
            self.mark_value(h, work, &vs[i], ok);
            proof {
                lemma_mark_step_trans(*h, m0, w0, m1, w1, *self, work@);
                assert forall|j: int| 0 <= j < i + 1 implies value_marked(#[trigger] vs@[j], *self) by {
                    if j < i {
                        lemma_value_marked_grows(vs@[j], m1, *self);
                    }
                }
            }
            i = i + 1;
        }
    }

    /// Marks every record that the values of map `p` refer to.
    pub fn mark_map_values(&mut self, h: &Heap, work: &mut Vec<Ref>, p: &PropertyMap, ok: Ghost<spec_fn(Marks) -> bool>)
        requires
            sized(*h, *old(self)),
            least(*old(self), ok@),
            works_marked(*old(self), old(work)@),
            forall|c: Marks| #[trigger] ok@(c) ==> map_refs_marked(*p, c),
        ensures
            sized(*h, *final(self)),
            least(*final(self), ok@),
            works_marked(*final(self), final(work)@),
            mark_step(*h, *old(self), old(work)@, *final(self), final(work)@),
            map_refs_marked(*p, *final(self)),
    {
        let ghost m0 = *self;
        let ghost w0 = work@;
        proof {
            assert forall|k: int| 0 <= k < w0.len() implies work@.contains(#[trigger] w0[k]) by {
                assert(work@[k] == w0[k]);
            }
        }
        let mut i: usize = 0;
        while i < p.entries.len()
            invariant
                sized(*h, *self),
                least(*self, ok@),
                works_marked(*self, work@),
                forall|c: Marks| #[trigger] ok@(c) ==> map_refs_marked(*p, c),
                i <= p.entries@.len(),
                mark_step(*h, m0, w0, *self, work@),
                forall|j: int| 0 <= j < i ==> value_marked(#[trigger] p.entries@[j].1, *self),
            decreases p.entries@.len() - i,
        {
            let ghost m1 = *self;
            let ghost w1 = work@;
            proof {
                assert forall|c: Marks| #[trigger] ok@(c) implies value_marked(p.entries@[i as int].1, c) by {
                    assert(map_refs_marked(*p, c));
                }
            }
            self.mark_value(h, work, &p.entries[i].1, ok);
            proof {
                lemma_mark_step_trans(*h, m0, w0, m1, w1, *self, work@);
                assert forall|j: int| 0 <= j < i + 1 implies value_marked(#[trigger] p.entries@[j].1, *self) by {
                    if j < i {
                        lemma_value_marked_grows(p.entries@[j].1, m1, *self);
                    }
                }
            }
            i = i + 1;
        }
    }
}

} // verus!

verus! {

/// The references of record `r` are marked.
pub open spec fn scanned(h: Heap, r: Ref, m: Marks) -> bool {
    match r {
        Ref::Props(i) => i < h.maps@.len() ==> map_refs_marked(h.maps@[i as int], m),
        Ref::Elems(i) => i < h.arrays@.len() ==> array_refs_marked(h.arrays@[i as int], m),
        Ref::Record(i) => i < h.scopes@.len() ==> scope_refs_marked(h.scopes@[i as int], m),
    }
}

impl Marks {
    /// Marks the references of the record `r`.
    fn scan_record(&mut self, h: &Heap, work: &mut Vec<Ref>, r: &Ref, ok: Ghost<spec_fn(Marks) -> bool>)
        requires
            sized(*h, *old(self)),
            least(*old(self), ok@),
            works_marked(*old(self), old(work)@),
            ref_in(*old(self), *r),
            forall|c: Marks| #[trigger] ok@(c) ==> closed(*h, c),
        ensures
            sized(*h, *final(self)),
            least(*final(self), ok@),
            works_marked(*final(self), final(work)@),
            mark_step(*h, *old(self), old(work)@, *final(self), final(work)@),
            scanned(*h, *r, *final(self)),
    {
        let ghost m0 = *self;
        let ghost w0 = work@;
        proof {
            assert forall|k: int| 0 <= k < w0.len() implies work@.contains(#[trigger] w0[k]) by {
                assert(work@[k] == w0[k]);
            }
        }
        match r {
            Ref::Props(i) => {
                if *i < h.maps.len() {
                    proof {
                        assert forall|c: Marks| #[trigger] ok@(c) implies map_refs_marked(h.maps@[*i as int], c) by {
                            assert(below(*old(self), c));
                            assert(closed(*h, c));
                            assert(c.maps@[*i as int]);
                        }
                    }
                    self.mark_map_values(h, work, &h.maps[*i], ok);
                }
            },
            Ref::Elems(i) => {
                if *i < h.arrays.len() {
                    proof {
                        assert forall|c: Marks| #[trigger] ok@(c) implies array_refs_marked(h.arrays@[*i as int], c) by {
                            assert(below(*old(self), c));
                            assert(closed(*h, c));
                            assert(c.arrays@[*i as int]);
                        }
                    }
                    self.mark_values(h, work, &h.arrays[*i].elems, ok);
                    let ghost m1 = *self;
                    let ghost w1 = work@;
                    self.mark_map_values(h, work, &h.arrays[*i].obj, ok);
                    proof {
                        lemma_mark_step_trans(*h, m0, w0, m1, w1, *self, work@);
                        assert forall|j: int| 0 <= j < h.arrays@[*i as int].elems@.len() implies value_marked(#[trigger] h.arrays@[*i as int].elems@[j], *self) by {
                            lemma_value_marked_grows(h.arrays@[*i as int].elems@[j], m1, *self);
                        }
                    }
                }
            },
            Ref::Record(i) => {
                if *i < h.scopes.len() {
                    let c = &h.scopes[*i];
                    proof {
                        assert forall|cc: Marks| #[trigger] ok@(cc) implies scope_refs_marked(h.scopes@[*i as int], cc) by {
                            assert(below(*old(self), cc));
                            assert(closed(*h, cc));
                            assert(cc.scopes@[*i as int]);
                        }
                    }
                    self.mark_ref(h, work, Ref::Props(c.vals), ok);
                    let ghost m1 = *self;
                    let ghost w1 = work@;
                    if let Some(p) = c.parent {
                        self.mark_ref(h, work, Ref::Record(p), ok);
                    } else {
                        proof {
                            assert forall|k: int| 0 <= k < w1.len() implies work@.contains(#[trigger] w1[k]) by {
                                assert(work@[k] == w1[k]);
                            }
                        }
                    }
                    let ghost m2 = *self;
                    let ghost w2 = work@;
                    self.mark_value(h, work, &c.this, ok);
                    let ghost m3 = *self;
                    let ghost w3 = work@;
                    self.mark_values(h, work, &c.arg_rest_vals, ok);
                    proof {
                        lemma_mark_step_trans(*h, m0, w0, m1, w1, m2, w2);
                        lemma_mark_step_trans(*h, m0, w0, m2, w2, m3, w3);
                        lemma_mark_step_trans(*h, m0, w0, m3, w3, *self, work@);
                        lemma_value_marked_grows(c.this, m3, *self);
                    }
                }
            },
        }
    }

    /// Marks everything reachable from the records on `work`, emptying it.
    pub fn drain(&mut self, h: &Heap, work: &mut Vec<Ref>, ok: Ghost<spec_fn(Marks) -> bool>)
        requires
            sized(*h, *old(self)),
            pending_ok(*h, *old(self), old(work)@),
            least(*old(self), ok@),
            works_marked(*old(self), old(work)@),
            forall|c: Marks| #[trigger] ok@(c) ==> closed(*h, c),
        ensures
            sized(*h, *final(self)),
            least(*final(self), ok@),
            grows(*old(self), *final(self)),
            closed(*h, *final(self)),
    {
        let ghost m0 = *self;
        let _ = (h.maps.len(), h.arrays.len(), h.scopes.len());
        while work.len() > 0
            invariant
                h.maps@.len() <= usize::MAX && h.arrays@.len() <= usize::MAX && h.scopes@.len() <= usize::MAX,
                sized(*h, *self),
                grows(m0, *self),
                pending_ok(*h, *self, work@),
                least(*self, ok@),
                works_marked(*self, work@),
                forall|c: Marks| #[trigger] ok@(c) ==> closed(*h, c),
            decreases 2 * unmarked(*self) + work@.len(),
        {
            let ghost m1 = *self;
            let ghost w1 = work@;
            let r = work.pop().unwrap();
            let ghost w1p = work@;
            proof {
                assert(ref_in(m1, w1[w1.len() - 1]));
                assert forall|k: int| 0 <= k < work@.len() implies ref_in(*self, #[trigger] work@[k]) by {
                    assert(work@[k] == w1[k]);
                }
            }
            self.scan_record(h, work, &r, ok);
            proof {
                assert(w1 == w1p.push(r));
                let m2 = *self;
                let w2 = work@;
                lemma_refs_grow(*h, m1, m2);
                assert(grows(m0, m2));
                assert forall|i: int| 0 <= i < h.maps@.len() && #[trigger] m2.maps@[i] && !w2.contains(Ref::Props(i as usize)) implies map_refs_marked(h.maps@[i], m2) by {
                    if r == Ref::Props(i as usize) {
                        assert(scanned(*h, r, m2));
                    } else if !m1.maps@[i] {
                    } else if w1p.contains(Ref::Props(i as usize)) {
                        let k = choose|k: int| 0 <= k < w1p.len() && w1p[k] == Ref::Props(i as usize);
                        assert(w2.contains(w1p[k]));
                    } else {
                        assert(!w1.contains(Ref::Props(i as usize)));
                    }
                }
                assert forall|i: int| 0 <= i < h.arrays@.len() && #[trigger] m2.arrays@[i] && !w2.contains(Ref::Elems(i as usize)) implies array_refs_marked(h.arrays@[i], m2) by {
                    if r == Ref::Elems(i as usize) {
                        assert(scanned(*h, r, m2));
                    } else if !m1.arrays@[i] {
                    } else if w1p.contains(Ref::Elems(i as usize)) {
                        let k = choose|k: int| 0 <= k < w1p.len() && w1p[k] == Ref::Elems(i as usize);
                        assert(w2.contains(w1p[k]));
                    } else {
                        assert(!w1.contains(Ref::Elems(i as usize)));
                    }
                }
                assert forall|i: int| 0 <= i < h.scopes@.len() && #[trigger] m2.scopes@[i] && !w2.contains(Ref::Record(i as usize)) implies scope_refs_marked(h.scopes@[i], m2) by {
                    if r == Ref::Record(i as usize) {
                        assert(scanned(*h, r, m2));
                    } else if !m1.scopes@[i] {
                    } else if w1p.contains(Ref::Record(i as usize)) {
                        let k = choose|k: int| 0 <= k < w1p.len() && w1p[k] == Ref::Record(i as usize);
                        assert(w2.contains(w1p[k]));
                    } else {
                        assert(!w1.contains(Ref::Record(i as usize)));
                    }
                }
            }
        }
    }
}

} // verus!

verus! {

/// `after` is `before` with every unmarked record emptied and every marked
/// one untouched.
pub open spec fn swept(before: Heap, m: Marks, after: Heap) -> bool {
    &&& after.maps@.len() == before.maps@.len()
    &&& after.arrays@.len() == before.arrays@.len()
    &&& after.scopes@.len() == before.scopes@.len()
    &&& forall|i: int| 0 <= i < before.maps@.len() ==> if m.maps@[i] {
        after.maps@[i] == before.maps@[i]
    } else {
        after.maps@[i].entries@.len() == 0
    }
    &&& forall|i: int| 0 <= i < before.arrays@.len() ==> if m.arrays@[i] {
        after.arrays@[i] == before.arrays@[i]
    } else {
        after.arrays@[i].elems@.len() == 0 && after.arrays@[i].length == 0 && after.arrays@[i].obj.entries@.len() == 0
    }
    &&& forall|i: int| 0 <= i < before.scopes@.len() ==> if m.scopes@[i] {
        after.scopes@[i] == before.scopes@[i]
    } else {
        after.scopes@[i].params@.len() == 0 && after.scopes@[i].arg_rest_vals@.len() == 0
            && after.scopes@[i].parent is None && after.scopes@[i].vals == before.scopes@[i].vals
    }
}

/// Empties every record that `m` leaves unmarked.
pub fn sweep(h: &mut Heap, m: &Marks)
    requires
        old(h).wf(),
        sized(*old(h), *m),
    ensures
        final(h).wf(),
        swept(*old(h), *m, *final(h)),
{
    let mut i: usize = 0;
    while i < h.maps.len()
        invariant
            h.wf(),
            sized(*old(h), *m),
            h.maps@.len() == old(h).maps@.len(),
            h.arrays@ == old(h).arrays@,
            h.scopes@ == old(h).scopes@,
            i <= h.maps@.len(),
            forall|j: int| 0 <= j < i && !m.maps@[j] ==> (#[trigger] h.maps@[j]).entries@.len() == 0,
            forall|j: int| 0 <= j < h.maps@.len() && (j >= i || m.maps@[j]) ==> #[trigger] h.maps@[j] == old(h).maps@[j],
        decreases h.maps@.len() - i,
    {
        if !m.maps[i] {
            let ghost pre = *h;
            h.maps.set(i, PropertyMap::new());
            proof {
                assert forall|j: int| 0 <= j < h.maps@.len() implies #[trigger] h.maps@[j].wf() by {
                    if j != i {
                        assert(h.maps@[j] == pre.maps@[j]);
                    }
                }
                assert forall|s: int| 0 <= s < h.scopes@.len() implies #[trigger] h.scopes@[s].vals < h.maps@.len() by {
                    assert(pre.scopes@[s].vals < pre.maps@.len());
                }
                assert forall|j: int| 0 <= j < h.maps@.len() && (j >= i + 1 || m.maps@[j]) implies #[trigger] h.maps@[j] == old(h).maps@[j] by {
                    assert(h.maps@[j] == pre.maps@[j]);
                }
                assert forall|j: int| 0 <= j < i + 1 && !m.maps@[j] implies (#[trigger] h.maps@[j]).entries@.len() == 0 by {
                    if j != i {
                        assert(h.maps@[j] == pre.maps@[j]);
                    }
                }
            }
        }
        i = i + 1;
    }
    let mut i: usize = 0;
    while i < h.arrays.len()
        invariant
            h.wf(),
            sized(*old(h), *m),
            h.arrays@.len() == old(h).arrays@.len(),
            h.maps@.len() == old(h).maps@.len(),
            h.scopes@ == old(h).scopes@,
            forall|j: int| 0 <= j < h.maps@.len() && !m.maps@[j] ==> (#[trigger] h.maps@[j]).entries@.len() == 0,
            forall|j: int| 0 <= j < h.maps@.len() && m.maps@[j] ==> #[trigger] h.maps@[j] == old(h).maps@[j],
            i <= h.arrays@.len(),
            forall|j: int| 0 <= j < i && !m.arrays@[j] ==> (#[trigger] h.arrays@[j]).elems@.len() == 0 && h.arrays@[j].length == 0 && h.arrays@[j].obj.entries@.len() == 0,
            forall|j: int| 0 <= j < h.arrays@.len() && (j >= i || m.arrays@[j]) ==> #[trigger] h.arrays@[j] == old(h).arrays@[j],
        decreases h.arrays@.len() - i,
    {
        if !m.arrays[i] {
            let ghost pre = *h;
            h.arrays.set(i, ArrayValue { elems: Vec::new(), length: 0, obj: PropertyMap::new() });
            proof {
                assert forall|j: int| 0 <= j < h.arrays@.len() implies #[trigger] h.arrays@[j].wf() by {
                    if j != i {
                        assert(h.arrays@[j] == pre.arrays@[j]);
                    }
                }
                assert forall|s: int| 0 <= s < h.scopes@.len() implies #[trigger] h.scopes@[s].vals < h.maps@.len() by {
                    assert(pre.scopes@[s].vals < pre.maps@.len());
                }
                assert forall|j: int| 0 <= j < h.arrays@.len() && (j >= i + 1 || m.arrays@[j]) implies #[trigger] h.arrays@[j] == old(h).arrays@[j] by {
                    assert(h.arrays@[j] == pre.arrays@[j]);
                }
                assert forall|j: int| 0 <= j < i + 1 && !m.arrays@[j] implies (#[trigger] h.arrays@[j]).elems@.len() == 0 && h.arrays@[j].length == 0 && h.arrays@[j].obj.entries@.len() == 0 by {
                    if j != i {
                        assert(h.arrays@[j] == pre.arrays@[j]);
                    }
                }
            }
        }
        i = i + 1;
    }
    let mut i: usize = 0;
    while i < h.scopes.len()
        invariant
            h.wf(),
            sized(*old(h), *m),
            h.scopes@.len() == old(h).scopes@.len(),
            h.maps@.len() == old(h).maps@.len(),
            h.arrays@.len() == old(h).arrays@.len(),
            forall|j: int| 0 <= j < h.maps@.len() && !m.maps@[j] ==> (#[trigger] h.maps@[j]).entries@.len() == 0,
            forall|j: int| 0 <= j < h.maps@.len() && m.maps@[j] ==> #[trigger] h.maps@[j] == old(h).maps@[j],
            forall|j: int| 0 <= j < h.arrays@.len() && !m.arrays@[j] ==> (#[trigger] h.arrays@[j]).elems@.len() == 0 && h.arrays@[j].length == 0 && h.arrays@[j].obj.entries@.len() == 0,
            forall|j: int| 0 <= j < h.arrays@.len() && m.arrays@[j] ==> #[trigger] h.arrays@[j] == old(h).arrays@[j],
            i <= h.scopes@.len(),
            forall|j: int| 0 <= j < i && !m.scopes@[j] ==> (#[trigger] h.scopes@[j]).params@.len() == 0 && h.scopes@[j].arg_rest_vals@.len() == 0
                && h.scopes@[j].parent is None && h.scopes@[j].vals == old(h).scopes@[j].vals,
            forall|j: int| 0 <= j < h.scopes@.len() && (j >= i || m.scopes@[j]) ==> #[trigger] h.scopes@[j] == old(h).scopes@[j],
        decreases h.scopes@.len() - i,
    {
        if !m.scopes[i] {
            let ghost pre = *h;
            let vals = h.scopes[i].vals;
            h.scopes.set(i, CallObject { vals, params: Vec::new(), arg_rest_vals: Vec::new(), argc: 0, this: Value::undefined(), parent: None });
            proof {
                assert forall|s: int| 0 <= s < h.scopes@.len() implies {
                    &&& #[trigger] h.scopes@[s].vals < h.maps@.len()
                    &&& h.scopes@[s].parent matches Some(p) ==> p < s
                } by {
                    assert(pre.scopes@[s].vals < pre.maps@.len());
                }
                assert forall|j: int| 0 <= j < h.scopes@.len() && (j >= i + 1 || m.scopes@[j]) implies #[trigger] h.scopes@[j] == old(h).scopes@[j] by {
                    assert(h.scopes@[j] == pre.scopes@[j]);
                }
                assert forall|j: int| 0 <= j < i + 1 && !m.scopes@[j] implies (#[trigger] h.scopes@[j]).params@.len() == 0 && h.scopes@[j].arg_rest_vals@.len() == 0
                    && h.scopes@[j].parent is None && h.scopes@[j].vals == old(h).scopes@[j].vals by {
                    if j != i {
                        assert(h.scopes@[j] == pre.scopes@[j]);
                    }
                }
            }
        }
        i = i + 1;
    }
}

/// Collects garbage: marks what the operand stack, the scope stack and the
/// constants reach, and empties every other record. Returns the marks.
/// The marks `c` are closed and contain the roots: what the operand stack
/// and the constants refer to, and the scope records on the scope stack.
pub open spec fn rooted(h: Heap, stack: Seq<Value>, scope_stack: Seq<usize>, consts: Seq<Value>, c: Marks) -> bool {
    &&& closed(h, c)
    &&& values_marked(stack, c)
    &&& values_marked(consts, c)
    &&& forall|i: int| 0 <= i < scope_stack.len() ==> marked_scope(c, #[trigger] scope_stack[i])
}

pub fn collect(h: &mut Heap, stack: &Vec<Value>, scope_stack: &Vec<usize>, consts: &Vec<Value>) -> (m: Marks)
    requires
        old(h).wf(),
    ensures
        final(h).wf(),
        rooted(*old(h), stack@, scope_stack@, consts@, m),
        forall|c: Marks| rooted(*old(h), stack@, scope_stack@, consts@, c) ==> below(m, c),
        swept(*old(h), m, *final(h)),
{
    let ghost ok = |c: Marks| rooted(*h, stack@, scope_stack@, consts@, c);
    let mut m = Marks::new(h);
    let mut work: Vec<Ref> = Vec::new();
    let ghost m0 = m;
    let ghost w0 = work@;
    proof {
        assert forall|c: Marks| #[trigger] ok(c) implies below(m0, c) by {}
    }
    m.mark_values(h, &mut work, stack, Ghost(ok));
    let ghost m1 = m;
    let ghost w1 = work@;
    m.mark_values(h, &mut work, consts, Ghost(ok));
    let ghost m2 = m;
    let ghost w2 = work@;
    proof {
        lemma_mark_step_trans(*h, m0, w0, m1, w1, m2, w2);
        assert forall|j: int| 0 <= j < stack@.len() implies value_marked(#[trigger] stack@[j], m) by {
            lemma_value_marked_grows(stack@[j], m1, m);
        }
    }
    let mut i: usize = 0;
    while i < scope_stack.len()
        invariant
            h.wf(),
            sized(*h, m),
            i <= scope_stack@.len(),
            mark_step(*h, m0, w0, m, work@),
            values_marked(stack@, m),
            values_marked(consts@, m),
            forall|j: int| 0 <= j < i ==> marked_scope(m, #[trigger] scope_stack@[j]),
            least(m, ok),
            works_marked(m, work@),
            ok == (|c: Marks| rooted(*h, stack@, scope_stack@, consts@, c)),
        decreases scope_stack@.len() - i,
    {
        let ghost ma = m;
        let ghost wa = work@;
        proof {
            assert forall|c: Marks| #[trigger] ok(c) implies ref_in(c, Ref::Record(scope_stack@[i as int])) by {
                assert(rooted(*h, stack@, scope_stack@, consts@, c));
            }
        }
        m.mark_ref(h, &mut work, Ref::Record(scope_stack[i]), Ghost(ok));
        proof {
            lemma_mark_step_trans(*h, m0, w0, ma, wa, m, work@);
            assert forall|j: int| 0 <= j < stack@.len() implies value_marked(#[trigger] stack@[j], m) by {
                lemma_value_marked_grows(stack@[j], ma, m);
            }
            assert forall|j: int| 0 <= j < consts@.len() implies value_marked(#[trigger] consts@[j], m) by {
                lemma_value_marked_grows(consts@[j], ma, m);
            }
        }
        i = i + 1;
    }
    proof {
        assert(pending_ok(*h, m0, w0));
    }
    let ghost mb = m;
    m.drain(h, &mut work, Ghost(ok));
    proof {
        assert forall|j: int| 0 <= j < stack@.len() implies value_marked(#[trigger] stack@[j], m) by {
            lemma_value_marked_grows(stack@[j], mb, m);
        }
        assert forall|j: int| 0 <= j < consts@.len() implies value_marked(#[trigger] consts@[j], m) by {
            lemma_value_marked_grows(consts@[j], mb, m);
        }
        assert forall|c: Marks| rooted(*h, stack@, scope_stack@, consts@, c) implies below(m, c) by {
            assert(ok(c));
        }
    }
    sweep(h, &m);
    m
}

} // verus!

verus! {

/// Collecting garbage does not change the value of any name as seen from a
/// marked scope record: the whole parent chain and its bindings are marked,
/// and marked records are left as they were. Cycles among records need no
/// special care.
pub proof fn lemma_collect_keeps_bindings(before: Heap, m: Marks, after: Heap, s: int, name: Seq<char>)
    requires
        before.wf(),
        closed(before, m),
        swept(before, m, after),
        0 <= s < before.scopes@.len(),
        m.scopes@[s],
    ensures
        crate::scope::binding(after, s, name) == crate::scope::binding(before, s, name),
    decreases s,
{
    let c = before.scopes@[s];
    assert(after.scopes@[s] == c);
    assert(scope_refs_marked(c, m));
    assert(c.vals < before.maps@.len());
    assert(m.maps@[c.vals as int]);
    assert(after.maps@[c.vals as int] == before.maps@[c.vals as int]);
    if let Some(p) = c.parent {
        if p < s {
            assert(m.scopes@[p as int]);
            lemma_collect_keeps_bindings(before, m, after, p as int, name);
        }
    }
}

} // verus!

verus! {

proof fn lemma_lookup_is_entry(p: PropertyMap, k: Seq<char>)
    requires
        p.wf(),
        p.lookup(k) is Some,
    ensures
        exists|i: int| 0 <= i < p.entries@.len() && p.entries@[i].1 == p.lookup(k)->0,
{
    assert(p.has(k));
    let i = choose|i: int| 0 <= i < p.entries@.len() && p.entries@[i].0@ == k;
    p.lemma_lookup_at(i);
}

/// Collecting garbage does not change a prototype-chain lookup that starts
/// in a map whose references are all marked.
pub proof fn lemma_collect_keeps_lookups(before: Heap, m: Marks, after: Heap, p: PropertyMap, key: Seq<char>, fuel: nat)
    requires
        before.wf(),
        p.wf(),
        closed(before, m),
        swept(before, m, after),
        map_refs_marked(p, m),
    ensures
        crate::property::chain_find(after, p, key, fuel) == crate::property::chain_find(before, p, key, fuel),
    decreases fuel,
{
    if p.lookup(key) is None {
        if let Some(pv) = p.lookup("__proto__"@) {
            lemma_lookup_is_entry(p, "__proto__"@);
            let i = choose|i: int| 0 <= i < p.entries@.len() && p.entries@[i].1 == pv;
            assert(value_marked(p.entries@[i].1, m));
            assert(crate::property::proto_record(after, pv.val) == crate::property::proto_record(before, pv.val));
            if let Some(p2) = crate::property::proto_record(before, pv.val) {
                match pv.val {
                    ValueBase::Object(o) => {
                        assert(m.maps@[o as int]);
                        assert(before.maps@[o as int].wf());
                    },
                    ValueBase::Function(f) => {
                        assert(m.maps@[f.obj as int]);
                        assert(before.maps@[f.obj as int].wf());
                    },
                    ValueBase::BuiltinFunction(b) => {
                        assert(m.maps@[b.obj as int]);
                        assert(before.maps@[b.obj as int].wf());
                    },
                    ValueBase::Array(a) => {
                        assert(m.arrays@[a as int]);
                        assert(before.arrays@[a as int].wf());
                    },
                    _ => {},
                }
                assert(map_refs_marked(p2, m));
                if fuel > 0 {
                    lemma_collect_keeps_lookups(before, m, after, p2, key, (fuel - 1) as nat);
                }
            }
        }
    }
}

/// Collecting garbage does not change a property lookup that starts in a
/// marked map.
pub proof fn lemma_collect_keeps_find_val(before: Heap, m: Marks, after: Heap, i: int, key: Seq<char>)
    requires
        before.wf(),
        closed(before, m),
        swept(before, m, after),
        0 <= i < before.maps@.len(),
        m.maps@[i],
    ensures
        crate::property::find_val(after, after.maps@[i], key) == crate::property::find_val(before, before.maps@[i], key),
{
    assert(after.maps@[i] == before.maps@[i]);
    assert(before.maps@[i].wf());
    lemma_collect_keeps_lookups(before, m, after, before.maps@[i], key, crate::property::record_count(before));
}

} // verus!
