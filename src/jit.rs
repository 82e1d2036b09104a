//! The tracing JIT's decisions: invocation counting per hot site, the
//! candidacy gates, and the permanent record of sites that failed to
//! compile, and the marshalling of values to and from compiled code. Hot
//! regions are lowered to a typed form by `crate::lower`.
use vstd::prelude::*;
use crate::bytecode;
use crate::bytecode::{inst_size, inst_size_spec, le_u32, read_u32, DECL_VAR, GET_NAME, SET_NAME};
use crate::heap::PropertyMap;
use crate::value::{FuncId, Value, ValueBase};

verus! {

/// Entries of a function before compilation is attempted.
pub const FUNC_THRESHOLD: usize = 5;

/// Entries of a loop header before compilation is attempted.
pub const LOOP_THRESHOLD: usize = 7;

/// Functions with more parameters than this are never compiled.
pub const MAX_FUNCTION_PARAMS: usize = 3;

/// The value representations that compiled code handles.
#[derive(Debug, Clone, Copy, PartialEq, Eq, Hash)]
pub enum ValueType {
    Number,
    String,
    Bool,
}

#[derive(Debug)]
pub struct JITInfo {
    pub cannot_jit: bool,
}

/// A hot site: a function (at position 0) or a loop header in it.
#[derive(Debug, PartialEq, Eq, Hash)]
pub struct UniquePosition {
    pub func_id: FuncId,
    pub pos: usize,
}

impl UniquePosition {
    pub fn new(func_id: FuncId, pos: usize) -> (r: UniquePosition)
        ensures
            r.func_id == func_id,
            r.pos == pos,
    {
        UniquePosition { func_id, pos }
    }
}

/// What the interpreter does at a site entry.
#[derive(Debug, Clone, Copy, PartialEq, Eq)]
pub enum JitDecision {
    /// Interpret the region.
    Interpret,
    /// Try to compile the region, then report the outcome.
    Compile,
    /// Run the native code compiled earlier.
    RunNative,
}

/// What is known of one site.
#[derive(Debug)]
pub struct SiteInfo {
    pub pos: UniquePosition,
    pub count: usize,
    pub jit_info: JITInfo,
    pub native: bool,
}

#[derive(Debug)]
pub struct TracingJit {
    pub sites: Vec<SiteInfo>,
    pub function_return_types: Vec<(FuncId, ValueType)>,
}

pub open spec fn at(s: SiteInfo, f: FuncId, p: usize) -> bool {
    s.pos.func_id == f && s.pos.pos == p
}

impl TracingJit {
    /// Each site is recorded once; a site is never both dead and native.
    pub open spec fn wf(&self) -> bool {
        &&& forall|i: int, j: int|
            0 <= i < j < self.sites@.len() ==> !(self.sites@[i].pos.func_id
                == self.sites@[j].pos.func_id && self.sites@[i].pos.pos == self.sites@[j].pos.pos)
        &&& forall|i: int|
            0 <= i < self.sites@.len() ==> !(#[trigger] self.sites@[i].jit_info.cannot_jit
                && self.sites@[i].native)
    }

    pub open spec fn known(&self, f: FuncId, p: usize) -> bool {
        exists|i: int| 0 <= i < self.sites@.len() && at(self.sites@[i], f, p)
    }

    pub open spec fn site(&self, f: FuncId, p: usize) -> SiteInfo {
        self.sites@[choose|i: int| 0 <= i < self.sites@.len() && at(self.sites@[i], f, p)]
    }

    /// How often the site was entered while below its threshold.
    pub open spec fn count(&self, f: FuncId, p: usize) -> nat {
        if self.known(f, p) {
            self.site(f, p).count as nat
        } else {
            0
        }
    }

    /// The site failed to compile: it is never compiled again.
    pub open spec fn dead(&self, f: FuncId, p: usize) -> bool {
        self.known(f, p) && self.site(f, p).jit_info.cannot_jit
    }

    /// The site has native code.
    pub open spec fn native(&self, f: FuncId, p: usize) -> bool {
        self.known(f, p) && self.site(f, p).native
    }

    pub open spec fn same_site_state(&self, other: TracingJit, f: FuncId, p: usize) -> bool {
        &&& self.count(f, p) == other.count(f, p)
        &&& self.dead(f, p) == other.dead(f, p)
        &&& self.native(f, p) == other.native(f, p)
    }

    pub fn new() -> (r: TracingJit)
        ensures
            r.wf(),
            r.function_return_types@.len() == 0,
            forall|f: FuncId, p: usize|
                r.count(f, p) == 0 && !r.dead(f, p) && !r.native(f, p),
    {
        TracingJit { sites: Vec::new(), function_return_types: Vec::new() }
    }

    proof fn lemma_site_at(&self, i: int)
        requires
            self.wf(),
            0 <= i < self.sites@.len(),
        ensures
            self.known(self.sites@[i].pos.func_id, self.sites@[i].pos.pos),
            self.site(self.sites@[i].pos.func_id, self.sites@[i].pos.pos) == self.sites@[i],
    {
        let f = self.sites@[i].pos.func_id;
        let p = self.sites@[i].pos.pos;
        assert(at(self.sites@[i], f, p));
        let j = choose|j: int| 0 <= j < self.sites@.len() && at(self.sites@[j], f, p);
        assert(i == j);
    }

    /// The index of the site's record, creating an unseen record if needed.
    fn entry(&mut self, f: FuncId, p: usize) -> (r: usize)
        requires
            old(self).wf(),
        ensures
            final(self).wf(),
            r < final(self).sites@.len(),
            at(final(self).sites@[r as int], f, p),
            final(self).function_return_types == old(self).function_return_types,
            forall|g: FuncId, q: usize| #[trigger] final(self).same_site_state(*old(self), g, q),
            forall|i: int|
                0 <= i < final(self).sites@.len() && i != r ==> final(self).sites@[i]
                    == old(self).sites@[i],
            final(self).sites@.len() >= old(self).sites@.len(),
    {
        let mut i: usize = 0;
        while i < self.sites.len()
            invariant
                *self == *old(self),
                self.wf(),
                i <= self.sites@.len(),
                forall|j: int| 0 <= j < i ==> !at(self.sites@[j], f, p),
            decreases self.sites@.len() - i,
        {
            if self.sites[i].pos.func_id == f && self.sites[i].pos.pos == p {
                return i;
            }
            i = i + 1;
        }
        let ghost pre = *self;
        self.sites.push(
            SiteInfo {
                pos: UniquePosition::new(f, p),
                count: 0,
                jit_info: JITInfo { cannot_jit: false },
                native: false,
            },
        );
        proof {
            assert forall|g: FuncId, q: usize| #[trigger] self.same_site_state(pre, g, q) by {
                if pre.known(g, q) {
                    let j = choose|j: int| 0 <= j < pre.sites@.len() && at(pre.sites@[j], g, q);
                    pre.lemma_site_at(j);
                    assert(self.sites@[j] == pre.sites@[j]);
                    self.lemma_site_at(j);
                } else if g == f && q == p {
                    self.lemma_site_at(i as int);
                } else {
                    assert(!self.known(g, q)) by {
                        if self.known(g, q) {
                            let j = choose|j: int|
                                0 <= j < self.sites@.len() && at(self.sites@[j], g, q);
                            assert(j < pre.sites@.len());
                            assert(at(pre.sites@[j], g, q));
                        }
                    }
                }
            }
        }
        i
    }
}

} // verus!

verus! {

/// The effect of an entry to site `(f, p)` (see `TracingJit::enter_site`):
/// other sites keep their state; a dead site is interpreted and left as it
/// is, count included; otherwise below `threshold` the entry is counted and
/// interpreted, and at it a native site runs its code and an untried one
/// is compiled if `eligible`, or else marked dead.
pub open spec fn entered_site(
    a: TracingJit,
    b: TracingJit,
    f: FuncId,
    p: usize,
    threshold: nat,
    eligible: bool,
    r: JitDecision,
) -> bool {
    &&& keeps_dead(a, b)
    &&& b.function_return_types == a.function_return_types
    &&& forall|g: FuncId, q: usize| !(g == f && q == p) ==> #[trigger] b.same_site_state(a, g, q)
    &&& (a.dead(f, p) ==> r is Interpret && b.same_site_state(a, f, p))
    &&& (!a.dead(f, p) && a.count(f, p) < threshold ==> {
        &&& r is Interpret
        &&& b.count(f, p) == a.count(f, p) + 1
        &&& !b.dead(f, p)
        &&& b.native(f, p) == a.native(f, p)
    })
    &&& (a.count(f, p) >= threshold ==> {
        &&& b.count(f, p) == a.count(f, p)
        &&& b.native(f, p) == a.native(f, p)
        &&& (!a.dead(f, p) && a.native(f, p) ==> r is RunNative && !b.dead(f, p))
        &&& (!a.dead(f, p) && !a.native(f, p) && !eligible ==> r is Interpret && b.dead(f, p))
        &&& (!a.dead(f, p) && !a.native(f, p) && eligible ==> r is Compile && !b.dead(f, p))
    })
}

/// Nothing that was dead has come back.
pub open spec fn keeps_dead(a: TracingJit, b: TracingJit) -> bool {
    forall|f: FuncId, p: usize| #[trigger] a.dead(f, p) ==> b.dead(f, p)
}

impl TracingJit {
    proof fn lemma_update_site(&self, other: TracingJit, i: int)
        requires
            self.wf(),
            0 <= i < self.sites@.len(),
            other.sites@.len() == self.sites@.len(),
            forall|j: int| 0 <= j < self.sites@.len() && j != i ==> other.sites@[j] == self.sites@[j],
            other.sites@[i].pos == self.sites@[i].pos,
            !(other.sites@[i].jit_info.cannot_jit && other.sites@[i].native),
        ensures
            other.wf(),
            other.site(self.sites@[i].pos.func_id, self.sites@[i].pos.pos) == other.sites@[i],
            other.known(self.sites@[i].pos.func_id, self.sites@[i].pos.pos),
            forall|g: FuncId, q: usize|
                !(g == self.sites@[i].pos.func_id && q == self.sites@[i].pos.pos)
                    ==> #[trigger] other.same_site_state(*self, g, q),
    {
        assert(other.wf()) by {
            assert forall|a: int, b: int| 0 <= a < b < other.sites@.len() implies !(
            other.sites@[a].pos.func_id == other.sites@[b].pos.func_id && other.sites@[a].pos.pos
                == other.sites@[b].pos.pos) by {
                assert(other.sites@[a].pos == self.sites@[a].pos);
                assert(other.sites@[b].pos == self.sites@[b].pos);
            }
            assert forall|a: int| 0 <= a < other.sites@.len() implies !(
            #[trigger] other.sites@[a].jit_info.cannot_jit && other.sites@[a].native) by {
                if a != i {
                    assert(other.sites@[a] == self.sites@[a]);
                }
            }
        }
        other.lemma_site_at(i);
        assert forall|g: FuncId, q: usize|
            !(g == self.sites@[i].pos.func_id && q == self.sites@[i].pos.pos)
                implies #[trigger] other.same_site_state(*self, g, q) by {
            if self.known(g, q) {
                let j = choose|j: int| 0 <= j < self.sites@.len() && at(self.sites@[j], g, q);
                self.lemma_site_at(j);
                other.lemma_site_at(j);
            } else {
                assert(!other.known(g, q)) by {
                    if other.known(g, q) {
                        let j = choose|j: int| 0 <= j < other.sites@.len() && at(other.sites@[j], g, q);
                        assert(j != i);
                        assert(at(self.sites@[j], g, q));
                    }
                }
            }
        }
    }

    /// Decides what an entry to site `(f, p)` does. A dead site is
    /// interpreted and left unchanged. Otherwise, below `threshold` entries
    /// it is counted and interpreted; at the threshold a native site runs
    /// its code, and an untried one is compiled if `eligible`, or else
    /// marked dead.
    pub fn enter_site(&mut self, f: FuncId, p: usize, threshold: usize, eligible: bool) -> (r: JitDecision)
        requires
            old(self).wf(),
        ensures
            final(self).wf(),
            entered_site(*old(self), *final(self), f, p, threshold as nat, eligible, r),
    {
        let i = self.entry(f, p);
        let ghost mid = *self;
        proof {
            mid.lemma_site_at(i as int);
        }
        let count = self.sites[i].count;
        let r = if self.sites[i].jit_info.cannot_jit {
            JitDecision::Interpret
        } else if count < threshold {
            self.sites[i].count = count + 1;
            JitDecision::Interpret
        } else if self.sites[i].native {
            JitDecision::RunNative
        } else if !eligible {
            self.sites[i].jit_info.cannot_jit = true;
            JitDecision::Interpret
        } else {
            JitDecision::Compile
        };
        proof {
            mid.lemma_update_site(*self, i as int);
            self.lemma_frame(mid, *old(self), f, p);
            assert(mid.same_site_state(*old(self), f, p));
            assert(self.site(f, p) == self.sites@[i as int]);
            assert(mid.site(f, p) == mid.sites@[i as int]);
        }
        r
    }

    proof fn lemma_frame(&self, mid: TracingJit, start: TracingJit, f: FuncId, p: usize)
        requires
            self.wf(),
            forall|g: FuncId, q: usize| #[trigger] mid.same_site_state(start, g, q),
            forall|g: FuncId, q: usize|
                !(g == f && q == p) ==> #[trigger] self.same_site_state(mid, g, q),
            mid.dead(f, p) ==> self.dead(f, p),
        ensures
            keeps_dead(start, *self),
            forall|g: FuncId, q: usize|
                !(g == f && q == p) ==> #[trigger] self.same_site_state(start, g, q),
    {
        assert forall|g: FuncId, q: usize| #[trigger] start.dead(g, q) implies self.dead(g, q) by {
            assert(mid.same_site_state(start, g, q));
            if !(g == f && q == p) {
                assert(self.same_site_state(mid, g, q));
            }
        }
        assert forall|g: FuncId, q: usize|
            !(g == f && q == p) implies #[trigger] self.same_site_state(start, g, q) by {
            assert(mid.same_site_state(start, g, q));
            assert(self.same_site_state(mid, g, q));
        }
    }

    /// Records the outcome of compiling site `(f, p)`: native code on
    /// success; on failure the site is dead. A dead site stays dead.
    pub fn compile_finished(&mut self, f: FuncId, p: usize, success: bool)
        requires
            old(self).wf(),
        ensures
            final(self).wf(),
            keeps_dead(*old(self), *final(self)),
            final(self).function_return_types == old(self).function_return_types,
            forall|g: FuncId, q: usize|
                !(g == f && q == p) ==> #[trigger] final(self).same_site_state(*old(self), g, q),
            final(self).count(f, p) == old(self).count(f, p),
            old(self).dead(f, p) ==> final(self).dead(f, p) && !final(self).native(f, p),
            !old(self).dead(f, p) && success ==> final(self).native(f, p) && !final(self).dead(f, p),
            !old(self).dead(f, p) && !success ==> final(self).dead(f, p) && !final(self).native(f, p),
    {
        let i = self.entry(f, p);
        let ghost mid = *self;
        proof {
            mid.lemma_site_at(i as int);
        }
        if !self.sites[i].jit_info.cannot_jit {
            if success {
                self.sites[i].native = true;
            } else {
                self.sites[i].jit_info.cannot_jit = true;
                self.sites[i].native = false;
            }
        }
        proof {
            mid.lemma_update_site(*self, i as int);
            self.lemma_frame(mid, *old(self), f, p);
            assert(mid.same_site_state(*old(self), f, p));
            assert(self.site(f, p) == self.sites@[i as int]);
            assert(mid.site(f, p) == mid.sites@[i as int]);
        }
    }

    /// The decision at a function entry (position 0). Functions with more
    /// than three arguments are never compiled.
    pub fn can_jit(&mut self, id: FuncId, argc: usize) -> (r: JitDecision)
        requires
            old(self).wf(),
        ensures
            final(self).wf(),
            entered_site(*old(self), *final(self), id, 0, FUNC_THRESHOLD as nat, argc <= MAX_FUNCTION_PARAMS, r),
    {
        self.enter_site(id, 0, FUNC_THRESHOLD, argc <= MAX_FUNCTION_PARAMS)
    }

    /// The decision at the loop header at `bgn`; `locals_ok` says that every
    /// local the loop reads or writes holds a number or a boolean.
    pub fn can_loop_jit(&mut self, id: FuncId, bgn: usize, locals_ok: bool) -> (r: JitDecision)
        requires
            old(self).wf(),
        ensures
            final(self).wf(),
            entered_site(*old(self), *final(self), id, bgn, LOOP_THRESHOLD as nat, locals_ok, r),
    {
        self.enter_site(id, bgn, LOOP_THRESHOLD, locals_ok)
    }
}

/// Once a site is dead it stays dead through any run of the JIT's
/// operations, and no later entry to it attempts compilation.
pub proof fn lemma_dead_stays_dead(trace: Seq<TracingJit>, f: FuncId, p: usize, i: int, j: int)
    requires
        forall|k: int| 0 <= k < trace.len() - 1 ==> #[trigger] keeps_dead(trace[k], trace[k + 1]),
        0 <= i <= j < trace.len(),
        trace[i].dead(f, p),
    ensures
        trace[j].dead(f, p),
    decreases j - i,
{
    if i < j {
        assert(keeps_dead(trace[i], trace[i + 1]));
        lemma_dead_stays_dead(trace, f, p, i + 1, j);
    }
}

} // verus!

verus! {

/// The representation compiled code uses for a value, if it has one.
pub open spec fn value_type(v: Value) -> Option<ValueType> {
    match v.val {
        ValueBase::Bool(_) => Some(ValueType::Bool),
        ValueBase::Number(_) => Some(ValueType::Number),
        ValueBase::String(_) => Some(ValueType::String),
        _ => None,
    }
}

pub fn get_value_type(val: &Value) -> (r: Option<ValueType>)
    ensures
        r == value_type(*val),
{
    match val.val {
        ValueBase::Bool(_) => Some(ValueType::Bool),
        ValueBase::Number(_) => Some(ValueType::Number),
        ValueBase::String(_) => Some(ValueType::String),
        _ => None,
    }
}

fn copy_type(t: &ValueType) -> (r: ValueType)
    ensures
        r == *t,
{
    match t {
        ValueType::Number => ValueType::Number,
        ValueType::String => ValueType::String,
        ValueType::Bool => ValueType::Bool,
    }
}

impl TracingJit {
    /// The return type last observed for function `id`.
    pub open spec fn return_type(&self, id: FuncId) -> Option<ValueType> {
        if exists|i: int| 0 <= i < self.function_return_types@.len() && self.function_return_types@[i].0 == id {
            Some(self.function_return_types@[choose|i: int| 0 <= i < self.function_return_types@.len() && self.function_return_types@[i].0 == id].1)
        } else {
            None
        }
    }

    pub open spec fn types_wf(&self) -> bool {
        forall|i: int, j: int|
            0 <= i < j < self.function_return_types@.len() ==> self.function_return_types@[i].0
                != self.function_return_types@[j].0
    }

    /// The return type to compile function `id` with: the one last
    /// observed, or a number before any was.
    pub fn function_return_type(&self, id: FuncId) -> (r: ValueType)
        requires
            self.types_wf(),
        ensures
            r == (match self.return_type(id) {
                Some(t) => t,
                None => ValueType::Number,
            }),
    {
        let mut i: usize = 0;
        while i < self.function_return_types.len()
            invariant
                self.types_wf(),
                i <= self.function_return_types@.len(),
                forall|j: int| 0 <= j < i ==> self.function_return_types@[j].0 != id,
            decreases self.function_return_types@.len() - i,
        {
            if self.function_return_types[i].0 == id {
                proof {
                    let c = choose|j: int| 0 <= j < self.function_return_types@.len() && self.function_return_types@[j].0 == id;
                    assert(c == i as int);
                }
                return copy_type(&self.function_return_types[i].1);
            }
            i = i + 1;
        }
        ValueType::Number
    }

    /// Remembers the type of a value that function `func_id` returned, when
    /// compiled code can represent it.
    pub fn record_function_return_type(&mut self, func_id: FuncId, val: &Value)
        requires
            old(self).types_wf(),
        ensures
            final(self).types_wf(),
            final(self).sites == old(self).sites,
            value_type(*val) matches Some(t) ==> final(self).return_type(func_id) == Some(t),
            value_type(*val) is None ==> final(self).return_type(func_id) == old(self).return_type(func_id),
            forall|g: FuncId| g != func_id ==> final(self).return_type(g) == old(self).return_type(g),
    {
        let ty = match get_value_type(val) {
            Some(t) => t,
            None => return,
        };
        let mut i: usize = 0;
        let mut found = false;
        while i < self.function_return_types.len() && !found
            invariant
                *self == *old(self),
                self.types_wf(),
                i <= self.function_return_types@.len(),
                found ==> i < self.function_return_types@.len() && self.function_return_types@[i as int].0 == func_id,
                forall|j: int| 0 <= j < i ==> self.function_return_types@[j].0 != func_id,
            decreases self.function_return_types@.len() - i + if found {
                0int
            } else {
                1int
            },
        {
            if self.function_return_types[i].0 == func_id {
                found = true;
            } else {
                i = i + 1;
            }
        }
        let ghost pre = *self;
        let ghost t = ty;
        if found {
            self.function_return_types.set(i, (func_id, ty));
        } else {
            self.function_return_types.push((func_id, ty));
        }
        proof {
            let n = self.function_return_types@.len();
            assert(self.types_wf());
            assert(self.function_return_types@[i as int] == (func_id, t));
            let c = choose|j: int| 0 <= j < n && self.function_return_types@[j].0 == func_id;
            assert(c == i as int);
            assert forall|g: FuncId| g != func_id implies self.return_type(g) == pre.return_type(g) by {
                if exists|j: int| 0 <= j < pre.function_return_types@.len() && pre.function_return_types@[j].0 == g {
                    let a = choose|j: int| 0 <= j < pre.function_return_types@.len() && pre.function_return_types@[j].0 == g;
                    assert(self.function_return_types@[a] == pre.function_return_types@[a]);
                    let b = choose|j: int| 0 <= j < n && self.function_return_types@[j].0 == g;
                    assert(a == b);
                } else {
                    if exists|j: int| 0 <= j < n && self.function_return_types@[j].0 == g {
                        let b = choose|j: int| 0 <= j < n && self.function_return_types@[j].0 == g;
                        assert(pre.function_return_types@[b].0 == g);
                    }
                }
            }
        }
    }
}

/// The name ids that the instructions in `[pc, end)` declare, assign or
/// read, in order; `None` where the region does not decode.
pub open spec fn scan_names(code: Seq<u8>, pc: nat, end: nat) -> Option<Seq<nat>>
    decreases end + 5 - pc,
{
    if pc >= end {
        Some(Seq::empty())
    } else if pc >= code.len() {
        None
    } else {
        match inst_size_spec(code[pc as int]) {
            None => None,
            Some(n) => {
                let op = code[pc as int];
                if op == DECL_VAR || op == SET_NAME || op == GET_NAME {
                    if pc + 5 > code.len() {
                        None
                    } else {
                        match scan_names(code, pc + 5, end) {
                            Some(rest) => Some(
                                seq![le_u32(code[pc + 1int], code[pc + 2int], code[pc + 3int], code[pc + 4int]) as nat]
                                    + rest,
                            ),
                            None => None,
                        }
                    }
                } else {
                    scan_names(code, pc + n, end)
                }
            },
        }
    }
}

/// The type of the local binding of name id `id`, if it has one.
pub open spec fn local_type(locals: PropertyMap, names: Seq<String>, id: nat) -> Option<ValueType> {
    if id < names.len() {
        match locals.lookup(names[id as int]@) {
            Some(v) => value_type(v),
            None => None,
        }
    } else {
        None
    }
}

/// Some name id of `ids` is bound locally to a value that compiled code
/// cannot represent.
pub open spec fn has_untyped_local(locals: PropertyMap, names: Seq<String>, ids: Seq<nat>) -> bool {
    exists|k: int| 0 <= k < ids.len() && #[trigger] untyped_local(locals, names, ids[k])
}

/// Name id `id` is bound locally to a value that is neither a number nor a
/// boolean, which compiled loop code does not take.
pub open spec fn untyped_local(locals: PropertyMap, names: Seq<String>, id: nat) -> bool {
    &&& id < names.len()
    &&& locals.lookup(names[id as int]@) is Some
    &&& !scalar_type(value_type(locals.lookup(names[id as int]@)->0))
}

/// A number or a boolean.
pub open spec fn scalar_type(t: Option<ValueType>) -> bool {
    t == Some(ValueType::Number) || t == Some(ValueType::Bool)
}

proof fn lemma_scan_step(code: Seq<u8>, pc: nat, end: nat, n: nat)
    requires
        pc < end,
        pc < code.len(),
        inst_size_spec(code[pc as int]) == Some(n),
        !(code[pc as int] == DECL_VAR || code[pc as int] == SET_NAME || code[pc as int] == GET_NAME),
    ensures
        scan_names(code, pc, end) == scan_names(code, pc + n, end),
{
}

/// The locals that the loop in `[bgn, end)` uses: each name id that the
/// region declares, assigns or reads and that `locals` binds, once, with the
/// type of its value. Fails where the region does not decode or such a
/// local holds anything but a number or a boolean.
pub fn collect_local_variables(code: &Vec<u8>, names: &Vec<String>, locals: &PropertyMap, bgn: usize, end: usize) -> (r: Result<Vec<(usize, ValueType)>, ()>)
    requires
        locals.wf(),
    ensures
        r is Err <==> (scan_names(code@, bgn as nat, end as nat) is None || has_untyped_local(*locals, names@, scan_names(code@, bgn as nat, end as nat)->0)),
        r matches Ok(v) ==> {
            let ids = scan_names(code@, bgn as nat, end as nat)->0;
            &&& forall|k: int| 0 <= k < v@.len() ==> ids.contains(v@[k].0 as nat) && local_type(*locals, names@, v@[k].0 as nat) == Some(v@[k].1)
            &&& forall|k: int| 0 <= k < ids.len() && local_type(*locals, names@, ids[k]) is Some ==> exists|m: int| 0 <= m < v@.len() && v@[m].0 == ids[k]
            &&& forall|a: int, b: int| 0 <= a < b < v@.len() ==> v@[a].0 != v@[b].0
        },
{
    let mut out: Vec<(usize, ValueType)> = Vec::new();
    let mut pc = bgn;
    let ghost seen: Seq<nat> = Seq::empty();
    while pc < end
        invariant
            locals.wf(),
            scan_names(code@, bgn as nat, end as nat) is Some <==> scan_names(code@, pc as nat, end as nat) is Some,
            scan_names(code@, pc as nat, end as nat) matches Some(rest) ==> scan_names(code@, bgn as nat, end as nat) == Some(seen + rest),
            !has_untyped_local(*locals, names@, seen),
            forall|k: int| 0 <= k < out@.len() ==> seen.contains(out@[k].0 as nat) && local_type(*locals, names@, out@[k].0 as nat) == Some(out@[k].1),
            forall|k: int| 0 <= k < seen.len() && local_type(*locals, names@, seen[k]) is Some ==> exists|m: int| 0 <= m < out@.len() && out@[m].0 == seen[k],
            forall|a: int, b: int| 0 <= a < b < out@.len() ==> out@[a].0 != out@[b].0,
        decreases end + 5 - pc,
    {
        if pc >= code.len() {
            return Err(());
        }
        let op = code[pc];
        let n = match inst_size(op) {
            Some(n) => n,
            None => return Err(()),
        };
        if op == DECL_VAR || op == SET_NAME || op == GET_NAME {
            if code.len() < 5 || pc > code.len() - 5 {
                return Err(());
            }
            let id = read_u32(code, pc + 1) as usize;
            let ghost idn = id as nat;
            let ghost old_out = out@;
            proof {
                let rest = scan_names(code@, (pc + 5) as nat, end as nat);
                if rest is Some {
                    assert(seen + seq![idn] + rest->0 == seen + (seq![idn] + rest->0));
                }
            }
            if id < names.len() {
                match locals.get(&names[id]) {
                    Some(v) => {
                        match get_value_type(&v) {
                            Some(ty) if !matches!(ty, ValueType::String) => {
                                let mut present = false;
                                let mut k: usize = 0;
                                while k < out.len()
                                    invariant
                                        k <= out@.len(),
                                        present ==> exists|m: int| 0 <= m < out@.len() && out@[m].0 == id,
                                        !present ==> forall|m: int| 0 <= m < k ==> out@[m].0 != id,
                                    decreases out@.len() - k,
                                {
                                    if out[k].0 == id {
                                        present = true;
                                    }
                                    k = k + 1;
                                }
                                if !present {
                                    out.push((id, ty));
                                    assert(out@[out@.len() - 1].0 == id);
                                }
                            },
                            _ => {
                                proof {
                                    let ids = seen.push(idn);
                                    let rest = scan_names(code@, (pc + 5) as nat, end as nat);
                                    if rest is None {
                                        assert(scan_names(code@, pc as nat, end as nat) is None);
                                    }
                                    if let Some(rs) = rest {
                                        assert(scan_names(code@, pc as nat, end as nat) == Some(seq![idn] + rs));
                                        assert(seen.push(idn) =~= seen + seq![idn]);
                                        assert(ids + rs =~= seen + (seq![idn] + rs));
                                        let all = ids + rs;
                                        assert(all[seen.len() as int] == idn);
                                        assert(untyped_local(*locals, names@, all[seen.len() as int]));
                                        assert(has_untyped_local(*locals, names@, all));
                                    }
                                }
                                return Err(());
                            },
                        }
                    },
                    None => {},
                }
            }
            proof {
                let old_seen = seen;
                seen = seen.push(idn);
                assert forall|k: int| 0 <= k < out@.len() implies seen.contains(out@[k].0 as nat) by {
                    if out@[k].0 as nat == idn {
                        assert(seen[old_seen.len() as int] == idn);
                    } else {
                        let w = choose|w: int| 0 <= w < old_seen.len() && old_seen[w] == out@[k].0 as nat;
                        assert(seen[w] == old_seen[w]);
                    }
                }
                assert(!has_untyped_local(*locals, names@, seen)) by {
                    if has_untyped_local(*locals, names@, seen) {
                        let k = choose|k: int| 0 <= k < seen.len() && #[trigger] untyped_local(*locals, names@, seen[k]);
                        if k < old_seen.len() {
                            assert(old_seen[k] == seen[k]);
                        }
                    }
                }
                assert(old_out.len() <= out@.len());
                assert(forall|m: int| 0 <= m < old_out.len() ==> out@[m] == old_out[m]);
                assert forall|k: int| 0 <= k < seen.len() && local_type(*locals, names@, seen[k]) is Some implies exists|m: int| 0 <= m < out@.len() && out@[m].0 == seen[k] by {
                    if k < old_seen.len() {
                        assert(old_seen[k] == seen[k]);
                        let m = choose|m: int| 0 <= m < old_out.len() && old_out[m].0 == old_seen[k];
                        assert(out@[m] == old_out[m]);
                    } else {
                        assert(seen[k] == idn);
                    }
                }
            }
            pc = pc + 5;
        } else {
            proof {
                lemma_scan_step(code@, pc as nat, end as nat, n as nat);
            }
            if n > end - pc {
                pc = end;
            } else {
                pc = pc + n;
            }
        }
    }
    proof {
        assert(seen + Seq::<nat>::empty() == seen);
    }
    Ok(out)
}

} // verus!

verus! {

impl TracingJit {
    /// How often site `(f, p)` was counted.
    pub fn count_of(&self, f: FuncId, p: usize) -> (r: usize)
        requires
            self.wf(),
        ensures
            r == self.count(f, p),
    {
        let mut i: usize = 0;
        while i < self.sites.len()
            invariant
                self.wf(),
                i <= self.sites@.len(),
                forall|j: int| 0 <= j < i ==> !at(self.sites@[j], f, p),
            decreases self.sites@.len() - i,
        {
            if self.sites[i].pos.func_id == f && self.sites[i].pos.pos == p {
                proof {
                    self.lemma_site_at(i as int);
                }
                return self.sites[i].count;
            }
            i = i + 1;
        }
        0
    }

    /// Whether site `(f, p)` has native code.
    pub fn native_of(&self, f: FuncId, p: usize) -> (r: bool)
        requires
            self.wf(),
        ensures
            r == self.native(f, p),
    {
        let mut i: usize = 0;
        while i < self.sites.len()
            invariant
                self.wf(),
                i <= self.sites@.len(),
                forall|j: int| 0 <= j < i ==> !at(self.sites@[j], f, p),
            decreases self.sites@.len() - i,
        {
            if self.sites[i].pos.func_id == f && self.sites[i].pos.pos == p {
                proof {
                    self.lemma_site_at(i as int);
                }
                return self.sites[i].native;
            }
            i = i + 1;
        }
        false
    }

    pub fn func_is_called_enough_times(&self, id: FuncId, pc: usize) -> (r: bool)
        requires
            self.wf(),
        ensures
            r == (self.count(id, pc) >= FUNC_THRESHOLD),
    {
        self.count_of(id, pc) >= FUNC_THRESHOLD
    }

    pub fn loop_is_called_enough_times(&self, id: FuncId, pc: usize) -> (r: bool)
        requires
            self.wf(),
        ensures
            r == (self.count(id, pc) >= LOOP_THRESHOLD),
    {
        self.count_of(id, pc) >= LOOP_THRESHOLD
    }
}

} // verus!

verus! {

/// The arguments of a call as the doubles compiled code takes, when they
/// are all numbers.
pub fn native_args(args: &Vec<Value>) -> (r: Option<Vec<u64>>)
    ensures
        r matches Some(v) ==> v@.len() == args@.len() && forall|i: int| 0 <= i < args@.len() ==> args@[i].val == ValueBase::Number(#[trigger] v@[i]),
        r is None <==> exists|i: int| 0 <= i < args@.len() && !((#[trigger] args@[i]).val is Number),
{
    let mut out: Vec<u64> = Vec::new();
    let mut i: usize = 0;
    while i < args.len()
        invariant
            i <= args@.len(),
            out@.len() == i,
            forall|j: int| 0 <= j < i ==> args@[j].val == ValueBase::Number(#[trigger] out@[j]),
        decreases args@.len() - i,
    {
        match args[i].val {
            ValueBase::Number(b) => out.push(b),
            _ => return None,
        }
        i = i + 1;
    }
    assert(forall|j: int| 0 <= j < args@.len() ==> (#[trigger] args@[j]).val is Number) by {
        assert forall|j: int| 0 <= j < args@.len() implies (#[trigger] args@[j]).val is Number by {
            assert(args@[j].val == ValueBase::Number(out@[j]));
        }
    }
    Some(out)
}

/// The value that a compiled function's scalar result stands for, given
/// the return type it was compiled with: a double's bits or a boolean.
pub open spec fn boxed(ty: ValueType, raw: u64) -> Option<Value> {
    match ty {
        ValueType::Number => Some(Value::plain(ValueBase::Number(raw))),
        ValueType::Bool => Some(Value::plain(ValueBase::Bool(raw != 0))),
        ValueType::String => None,
    }
}

pub fn box_native_result(ty: ValueType, raw: u64) -> (r: Option<Value>)
    ensures
        r == boxed(ty, raw),
{
    match ty {
        ValueType::Number => Some(Value::number(raw)),
        ValueType::Bool => Some(Value::bool(raw != 0)),
        ValueType::String => None,
    }
}

/// The scalar that compiled loop code holds for a local: a double's bits,
/// or 0 and 1 for a boolean.
pub open spec fn unboxed(v: ValueBase) -> Option<u64> {
    match v {
        ValueBase::Number(b) => Some(b),
        ValueBase::Bool(b) => Some(if b { 1u64 } else { 0u64 }),
        _ => None,
    }
}

/// Reads the locals of a compiled loop from scope `s`, in order, as the
/// scalars the native code works on. Fails where a local is unbound or its
/// value is not of the type the loop was compiled for.
pub fn read_loop_locals(h: &crate::heap::Heap, s: usize, names: &Vec<String>, locals: &Vec<(usize, ValueType)>) -> (r: Option<Vec<u64>>)
    requires
        h.wf(),
        s < h.scopes@.len(),
    ensures
        r matches Some(v) ==> v@.len() == locals@.len() && forall|i: int| 0 <= i < locals@.len() ==> {
            &&& (#[trigger] locals@[i]).0 < names@.len()
            &&& crate::scope::binding(*h, s as int, names@[locals@[i].0 as int]@) matches Some(b)
            &&& value_type(b) == Some(locals@[i].1)
            &&& unboxed(b.val) == Some(v@[i])
        },
        r is None ==> exists|i: int| 0 <= i < locals@.len() && ((#[trigger] locals@[i]).0 >= names@.len()
            || crate::scope::binding(*h, s as int, names@[locals@[i].0 as int]@) is None
            || value_type(crate::scope::binding(*h, s as int, names@[locals@[i].0 as int]@)->0) != Some(locals@[i].1)
            || unboxed(crate::scope::binding(*h, s as int, names@[locals@[i].0 as int]@)->0.val) is None),
{
    let mut out: Vec<u64> = Vec::new();
    let mut i: usize = 0;
    while i < locals.len()
        invariant
            h.wf(),
            s < h.scopes@.len(),
            i <= locals@.len(),
            out@.len() == i,
            forall|j: int| 0 <= j < i ==> {
                &&& (#[trigger] locals@[j]).0 < names@.len()
                &&& crate::scope::binding(*h, s as int, names@[locals@[j].0 as int]@) matches Some(b)
                &&& value_type(b) == Some(locals@[j].1)
                &&& unboxed(b.val) == Some(out@[j])
            },
        decreases locals@.len() - i,
    {
        let id = locals[i].0;
        if id >= names.len() {
            return None;
        }
        let v = match h.get_value(s, &names[id]) {
            Ok(v) => v,
            Err(_) => return None,
        };
        match (&v.val, &locals[i].1) {
            (ValueBase::Number(b), ValueType::Number) => out.push(*b),
            (ValueBase::Bool(b), ValueType::Bool) => out.push(if *b { 1u64 } else { 0u64 }),
            _ => return None,
        }
        i = i + 1;
    }
    Some(out)
}

/// Writes one scalar that a compiled loop left back to `name`, as a value
/// of type `ty`, where the scope chain from `s` binds it.
pub fn write_back_local(h: &mut crate::heap::Heap, s: usize, name: &String, ty: ValueType, raw: u64)
    requires
        old(h).wf(),
        s < old(h).scopes@.len(),
    ensures
        final(h).wf(),
        final(h).scopes@ == old(h).scopes@,
        final(h).arrays@ == old(h).arrays@,
        final(h).maps@.len() == old(h).maps@.len(),
        boxed(ty, raw) is None ==> *final(h) == *old(h),
        boxed(ty, raw) matches Some(v) ==> {
            let t = crate::scope::assign_target(*old(h), s as int, name@);
            &&& final(h).maps@[t].lookup(name@) == Some(v)
            &&& final(h).maps@ == old(h).maps@.update(t, final(h).maps@[t])
            &&& forall|k: Seq<char>| k != name@ ==> #[trigger] final(h).maps@[t].lookup(k) == old(h).maps@[t].lookup(k)
        },
{
    match box_native_result(ty, raw) {
        Some(v) => h.set_value_if_exist(s, name.clone(), v),
        None => {},
    }
}

/// The locals name pairwise different variables.
pub open spec fn distinct_names(names: Seq<String>, locals: Seq<(usize, ValueType)>, n: int) -> bool {
    forall|a: int, b: int|
        0 <= a < b < n && locals[a].0 < names.len() && locals[b].0 < names.len() ==> names[locals[a].0 as int]@
            != names[locals[b].0 as int]@
}

/// Writes the scalars that a compiled loop left back into the scope chain
/// from `s`, each as the type it was compiled with: where the locals name
/// different variables, each then reads as the value written.
pub fn write_back_loop_locals(h: &mut crate::heap::Heap, s: usize, names: &Vec<String>, locals: &Vec<(usize, ValueType)>, values: &Vec<u64>)
    requires
        old(h).wf(),
        s < old(h).scopes@.len(),
    ensures
        final(h).wf(),
        final(h).scopes@ == old(h).scopes@,
        final(h).arrays@ == old(h).arrays@,
        final(h).maps@.len() == old(h).maps@.len(),
        distinct_names(names@, locals@, if locals@.len() < values@.len() { locals@.len() as int } else { values@.len() as int })
            ==> forall|i: int| 0 <= i < locals@.len() && i < values@.len() && (#[trigger] locals@[i]).0 < names@.len()
                && boxed(locals@[i].1, values@[i]) is Some ==> crate::scope::binding(*final(h), s as int,
                names@[locals@[i].0 as int]@) == boxed(locals@[i].1, values@[i]),
{
    let ghost n = if locals@.len() < values@.len() { locals@.len() as int } else { values@.len() as int };
    let mut i: usize = 0;
    while i < locals.len() && i < values.len()
        invariant
            h.wf(),
            s < h.scopes@.len(),
            h.scopes@ == old(h).scopes@,
            h.arrays@ == old(h).arrays@,
            h.maps@.len() == old(h).maps@.len(),
            i <= n,
            n == if locals@.len() < values@.len() { locals@.len() as int } else { values@.len() as int },
            distinct_names(names@, locals@, n) ==> forall|j: int| 0 <= j < i && (#[trigger] locals@[j]).0 < names@.len()
                && boxed(locals@[j].1, values@[j]) is Some ==> crate::scope::binding(*h, s as int,
                names@[locals@[j].0 as int]@) == boxed(locals@[j].1, values@[j]),
        decreases locals@.len() - i,
    {
        let id = locals[i].0;
        if id < names.len() {
            let ghost pre = *h;
            let ghost key = names@[id as int]@;
            write_back_local(h, s, &names[id], locals[i].1, values[i]);
            proof {
                if boxed(locals@[i as int].1, values@[i as int]) is Some {
                    crate::scope::lemma_assign_reads_back(pre, *h, s as int, key, boxed(locals@[i as int].1, values@[i as int])->0);
                }
                if distinct_names(names@, locals@, n) {
                    assert forall|j: int| 0 <= j < i + 1 && (#[trigger] locals@[j]).0 < names@.len()
                        && boxed(locals@[j].1, values@[j]) is Some implies crate::scope::binding(*h, s as int,
                        names@[locals@[j].0 as int]@) == boxed(locals@[j].1, values@[j]) by {
                        if j < i {
                            let kj = names@[locals@[j].0 as int]@;
                            assert(kj != key);
                            assert forall|m: int| 0 <= m < pre.maps@.len() implies #[trigger] h.maps@[m].lookup(kj) == pre.maps@[m].lookup(kj) by {
                                if boxed(locals@[i as int].1, values@[i as int]) is Some {
                                    crate::scope::lemma_assign_target_in_range(pre, s as int, key);
                                    let t = crate::scope::assign_target(pre, s as int, key);
                                    if m != t {
                                        assert(h.maps@[m] == pre.maps@[m]);
                                    }
                                }
                            }
                            crate::scope::lemma_binding_frame(pre, *h, s as int, kj);
                        }
                    }
                }
            }
        }
        i = i + 1;
    }
}

} // verus!

verus! {

/// The opcodes that compiled code handles; a region holding any other
/// (object and array creation, construction, member writes, `this`,
/// `arguments`) cannot be compiled. `return` is handled in function regions
/// only.
pub open spec fn jit_supports(op: u8, is_func: bool) -> bool {
    ||| op == bytecode::END || op == bytecode::CREATE_CONTEXT || op == bytecode::LOOP_START
    ||| op == bytecode::JMP_IF_FALSE || op == bytecode::JMP || op == bytecode::COND_OP
    ||| op == bytecode::LAND || op == bytecode::LOR
    ||| (bytecode::ADD <= op && op <= bytecode::ZFSHR) || op == bytecode::NEG
    ||| op == bytecode::GET_NAME || op == bytecode::SET_NAME || op == bytecode::DECL_VAR
    ||| op == bytecode::CALL || op == bytecode::GET_MEMBER || op == bytecode::PUSH_CONST
    ||| op == bytecode::PUSH_INT8 || op == bytecode::PUSH_INT32 || op == bytecode::PUSH_TRUE
    ||| op == bytecode::PUSH_FALSE || op == bytecode::POP || op == bytecode::DOUBLE
    ||| (op == bytecode::RETURN && is_func)
}

pub fn jit_supports_exec(op: u8, is_func: bool) -> (r: bool)
    ensures
        r == jit_supports(op, is_func),
{
    op == bytecode::END || op == bytecode::CREATE_CONTEXT || op == bytecode::LOOP_START
        || op == bytecode::JMP_IF_FALSE || op == bytecode::JMP || op == bytecode::COND_OP
        || op == bytecode::LAND || op == bytecode::LOR
        || (bytecode::ADD <= op && op <= bytecode::ZFSHR) || op == bytecode::NEG
        || op == bytecode::GET_NAME || op == bytecode::SET_NAME || op == bytecode::DECL_VAR
        || op == bytecode::CALL || op == bytecode::GET_MEMBER || op == bytecode::PUSH_CONST
        || op == bytecode::PUSH_INT8 || op == bytecode::PUSH_INT32 || op == bytecode::PUSH_TRUE
        || op == bytecode::PUSH_FALSE || op == bytecode::POP || op == bytecode::DOUBLE
        || (op == bytecode::RETURN && is_func)
}

/// The destinations of the jumps in the region `[pc, end)`, in order, as
/// the code generator labels them. The walk stops at `end` (the
/// instruction), and in a function region at a nested function's prologue.
/// `None` where the region does not decode, holds an opcode that compiled
/// code does not handle, or jumps out of the positions.
pub open spec fn region_labels(code: Seq<u8>, pc: nat, end: nat, is_func: bool) -> Option<Seq<nat>>
    decreases end + 5 - pc,
{
    if pc >= end {
        Some(Seq::empty())
    } else if pc >= code.len() {
        None
    } else {
        let op = code[pc as int];
        match bytecode::inst_size_spec(op) {
            None => None,
            Some(n) => {
                if !jit_supports(op, is_func) {
                None
            } else if op == bytecode::END || (op == bytecode::CREATE_CONTEXT && is_func) {
                Some(Seq::empty())
            } else if op == bytecode::JMP || op == bytecode::JMP_IF_FALSE {
                if pc + 5 > code.len() {
                    None
                } else {
                    let dst = pc + 5 + crate::vm::signed32(bytecode::le_u32(code[pc + 1int], code[pc + 2int], code[pc + 3int], code[pc + 4int]));
                    if dst < 0 || dst > usize::MAX {
                        None
                    } else {
                        match region_labels(code, pc + 5, end, is_func) {
                            Some(rest) => Some(seq![dst as nat] + rest),
                            None => None,
                        }
                    }
                }
            } else {
                region_labels(code, pc + n, end, is_func)
            }
            },
        }
    }
}

pub open spec fn as_nats(s: Seq<usize>) -> Seq<nat> {
    s.map_values(|x: usize| x as nat)
}

proof fn lemma_labels_step(code: Seq<u8>, pc: nat, end: nat, is_func: bool, n: nat)
    requires
        pc < end,
        pc < code.len(),
        bytecode::inst_size_spec(code[pc as int]) == Some(n),
        jit_supports(code[pc as int], is_func),
        !(code[pc as int] == bytecode::END || (code[pc as int] == bytecode::CREATE_CONTEXT && is_func)),
        !(code[pc as int] == bytecode::JMP || code[pc as int] == bytecode::JMP_IF_FALSE),
    ensures
        region_labels(code, pc, end, is_func) == region_labels(code, pc + n, end, is_func),
        pc + n >= end ==> region_labels(code, pc + n, end, is_func) == Some(Seq::<nat>::empty()),
{
}

/// Finds the labels of the region `[bgn, end)` (see `region_labels`).
pub fn jump_labels(code: &Vec<u8>, bgn: usize, end: usize, is_func: bool) -> (r: Option<Vec<usize>>)
    ensures
        r matches Some(v) ==> region_labels(code@, bgn as nat, end as nat, is_func) == Some(as_nats(v@)),
        r is None ==> region_labels(code@, bgn as nat, end as nat, is_func) is None,
{
    let mut out: Vec<usize> = Vec::new();
    let mut pc = bgn;
    while pc < end
        invariant
            region_labels(code@, bgn as nat, end as nat, is_func) is Some <==> region_labels(code@, pc as nat, end as nat, is_func) is Some,
            region_labels(code@, pc as nat, end as nat, is_func) matches Some(rest) ==> region_labels(code@, bgn as nat, end as nat, is_func) == Some(as_nats(out@) + rest),
        decreases end + 5 - pc,
    {
        if pc >= code.len() {
            return None;
        }
        let op = code[pc];
        let n = match bytecode::inst_size(op) {
            Some(n) => n,
            None => return None,
        };
        if !jit_supports_exec(op, is_func) {
            return None;
        }
        if op == bytecode::END || (op == bytecode::CREATE_CONTEXT && is_func) {
            proof {
                assert(as_nats(out@) + Seq::<nat>::empty() =~= as_nats(out@));
            }
            return Some(out);
        }
        if op == bytecode::JMP || op == bytecode::JMP_IF_FALSE {
            if code.len() < 5 || pc > code.len() - 5 {
                return None;
            }
            let rel = bytecode::read_i32(code, pc + 1);
            let dst = match bytecode::jump_target(pc + 5, rel) {
                Some(d) => d,
                None => return None,
            };
            let ghost before = as_nats(out@);
            out.push(dst);
            proof {
                assert(as_nats(out@) =~= before.push(dst as nat));
                let rest = region_labels(code@, (pc + 5) as nat, end as nat, is_func);
                if rest is None {
                    assert(region_labels(code@, pc as nat, end as nat, is_func) is None);
                }
                if let Some(rs) = rest {
                    assert(region_labels(code@, pc as nat, end as nat, is_func) == Some(seq![dst as nat] + rs));
                    assert(before + (seq![dst as nat] + rs) =~= before.push(dst as nat) + rs);
                }
            }
            pc = pc + 5;
        } else {
            proof {
                lemma_labels_step(code@, pc as nat, end as nat, is_func, n as nat);
            }
            if n > end - pc {
                pc = end;
            } else {
                pc = pc + n;
            }
        }
    }
    proof {
        assert(as_nats(out@) + Seq::<nat>::empty() =~= as_nats(out@));
    }
    Some(out)
}

/// Whether a compiled loop over `[bgn, end)` may hand control back at `pc`:
/// at the loop's end, or at a jump destination outside the loop.
pub open spec fn is_loop_exit(labels: Seq<nat>, bgn: nat, end: nat, pc: nat) -> bool {
    pc == end || (labels.contains(pc) && !(bgn <= pc < end))
}

pub fn loop_exit_ok(labels: &Vec<usize>, bgn: usize, end: usize, pc: usize) -> (r: bool)
    ensures
        r == is_loop_exit(as_nats(labels@), bgn as nat, end as nat, pc as nat),
{
    if pc == end {
        return true;
    }
    if bgn <= pc && pc < end {
        return false;
    }
    let mut i: usize = 0;
    while i < labels.len()
        invariant
            i <= labels@.len(),
            pc != end,
            !(bgn <= pc && pc < end),
            forall|j: int| 0 <= j < i ==> labels@[j] != pc,
        decreases labels@.len() - i,
    {
        if labels[i] == pc {
            proof {
                let ls = as_nats(labels@);
                assert(ls.len() == labels@.len());
                assert(ls[i as int] == pc as nat);
                assert(ls.contains(pc as nat));
            }
            return true;
        }
        i = i + 1;
    }
    proof {
        let ls = as_nats(labels@);
        if ls.contains(pc as nat) {
            let j = choose|j: int| 0 <= j < ls.len() && #[trigger] ls[j] == pc as nat;
            assert(labels@[j] == pc);
        }
    }
    false
}

} // verus!
