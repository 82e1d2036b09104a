//! The global environment: host function ids, the objects that hold them,
//! and the creation of function values.
use vstd::prelude::*;
use vstd::string::StringExecFns;
use crate::heap::{ArrayValue, CallObject, Heap, PropertyMap};
use crate::value::{BuiltinValue, FuncId, FunctionValue, Value, ValueBase};

verus! {

pub const CONSOLE_LOG: usize = 0;
pub const PROCESS_STDOUT_WRITE: usize = 1;
pub const ARRAY_NEW: usize = 2;
pub const ARRAY_PUSH: usize = 3;
pub const ARRAY_POP: usize = 4;
pub const ARRAY_MAP: usize = 5;
pub const MATH_FLOOR: usize = 6;
pub const MATH_RANDOM: usize = 7;
pub const MATH_POW: usize = 8;
pub const MATH_ABS: usize = 9;
pub const MATH_ACOS: usize = 10;
pub const MATH_ACOSH: usize = 11;
pub const MATH_ASIN: usize = 12;
pub const MATH_ASINH: usize = 13;
pub const MATH_ATAN: usize = 14;
pub const MATH_ATANH: usize = 15;
pub const MATH_ATAN2: usize = 16;
pub const MATH_CBRT: usize = 17;
pub const MATH_CEIL: usize = 18;
pub const MATH_CLZ32: usize = 19;
pub const MATH_COS: usize = 20;
pub const MATH_COSH: usize = 21;
pub const MATH_EXP: usize = 22;
pub const MATH_EXPM1: usize = 23;
pub const MATH_FROUND: usize = 24;
pub const MATH_HYPOT: usize = 25;
pub const MATH_LOG: usize = 26;
pub const MATH_LOG1P: usize = 27;
pub const MATH_LOG10: usize = 28;
pub const MATH_LOG2: usize = 29;
pub const MATH_MAX: usize = 30;
pub const MATH_MIN: usize = 31;
pub const MATH_ROUND: usize = 32;
pub const MATH_SIGN: usize = 33;
pub const MATH_SIN: usize = 34;
pub const MATH_SINH: usize = 35;
pub const MATH_SQRT: usize = 36;
pub const MATH_TAN: usize = 37;
pub const MATH_TANH: usize = 38;
pub const MATH_TRUNC: usize = 39;
pub const FUNCTION_PROTOTYPE_APPLY: usize = 40;
pub const FUNCTION_PROTOTYPE_CALL: usize = 41;
pub const REQUIRE: usize = 42;

/// The bit pattern of the double nearest to pi.
pub const PI_BITS: u64 = 0x4009_21fb_5444_2d18;

/// Where the shared records of the global environment live.
#[derive(Debug, Clone, Copy)]
pub struct Globals {
    pub scope: usize,
    pub array_prototype: usize,
    pub function_prototype: usize,
}

impl Globals {
    pub open spec fn valid(&self, h: Heap) -> bool {
        &&& self.scope < h.scopes@.len()
        &&& self.array_prototype < h.arrays@.len()
        &&& self.function_prototype < h.maps@.len()
    }
}

/// A host function value of host function `id` with its own property map.
pub fn builtin_function(heap: &mut Heap, id: usize, function_prototype: usize) -> (r: Value)
    requires
        old(heap).wf(),
    ensures
        final(heap).wf(),
        final(heap).scopes@ == old(heap).scopes@,
        final(heap).arrays@ == old(heap).arrays@,
        final(heap).maps@.len() == old(heap).maps@.len() + 2,
        final(heap).maps@.subrange(0, old(heap).maps@.len() as int) == old(heap).maps@,
        r.val matches ValueBase::BuiltinFunction(b) && b.id == id && b.obj == old(heap).maps@.len() + 1
            && b.this == Value::plain(ValueBase::Undefined),
        final(heap).maps@[old(heap).maps@.len() + 1int].lookup("__proto__"@) == Some(Value::plain(ValueBase::Object(function_prototype))),
        function_prototype < old(heap).maps@.len() ==> final(heap).maps@[function_prototype as int]
            == old(heap).maps@[function_prototype as int],
{
    let ghost start = heap.maps@;
    let proto = heap.alloc_map(PropertyMap::new());
    let mut obj = PropertyMap::new();
    obj.insert(String::from_str("prototype"), Value::object(proto));
    obj.insert(String::from_str("__proto__"), Value::object(function_prototype));
    proof {
        reveal_strlit("prototype");
        reveal_strlit("__proto__");
        assert("prototype"@ != "__proto__"@) by {
            assert("prototype"@[1] != "__proto__"@[1]);
        }
    }
    let o = heap.alloc_map(obj);
    proof {
        assert(heap.maps@.subrange(0, start.len() as int) =~= start);
    }
    Value::new(ValueBase::BuiltinFunction(Box::new(BuiltinValue { id, obj: o, this: Value::undefined() })))
}

/// A function value running body `id` in a copy of scope record
/// `template`, with a property map whose `prototype` object refers back to
/// the function through `constructor`, and whose prototype link is the
/// shared function prototype `function_prototype` (which `install` fills
/// with `apply` and `call`), left as it was.
pub fn new_value_function(heap: &mut Heap, id: FuncId, template: usize, function_prototype: usize) -> (r: Value)
    requires
        old(heap).wf(),
        old(heap).maps@.len() + 2 <= usize::MAX,
    ensures
        final(heap).wf(),
        final(heap).scopes@ == old(heap).scopes@,
        final(heap).arrays@ == old(heap).arrays@,
        final(heap).maps@.len() == old(heap).maps@.len() + 2,
        final(heap).maps@.subrange(0, old(heap).maps@.len() as int) == old(heap).maps@,
        r.val matches ValueBase::Function(f) && f.id == id && f.callobj == template
            && f.obj == old(heap).maps@.len() + 1 && f.this == Value::plain(ValueBase::Undefined),
        final(heap).maps@[old(heap).maps@.len() + 1int].lookup("prototype"@) == Some(Value::plain(ValueBase::Object(old(heap).maps@.len() as usize))),
        final(heap).maps@[old(heap).maps@.len() as int].lookup("constructor"@) == Some(r),
        final(heap).maps@[old(heap).maps@.len() + 1int].lookup("__proto__"@) == Some(Value::plain(ValueBase::Object(function_prototype))),
        function_prototype < old(heap).maps@.len() ==> final(heap).maps@[function_prototype as int]
            == old(heap).maps@[function_prototype as int],
{
    let ghost start = heap.maps@;
    let p = heap.maps.len();
    let o = p + 1;
    let f = Value::new(ValueBase::Function(Box::new(FunctionValue { id, obj: o, callobj: template, this: Value::undefined() })));
    let mut proto = PropertyMap::new();
    proto.insert(String::from_str("constructor"), f.duplicate());
    let p2 = heap.alloc_map(proto);
    let mut obj = PropertyMap::new();
    obj.insert(String::from_str("prototype"), Value::object(p2));
    obj.insert(String::from_str("__proto__"), Value::object(function_prototype));
    proof {
        reveal_strlit("prototype");
        reveal_strlit("__proto__");
        assert("prototype"@ != "__proto__"@) by {
            assert("prototype"@[1] != "__proto__"@[1]);
        }
    }
    heap.alloc_map(obj);
    proof {
        assert(heap.maps@.subrange(0, start.len() as int) =~= start);
    }
    f
}

} // verus!

verus! {

/// Stores host function `id` under `name` in map `m`.
fn add_builtin(heap: &mut Heap, m: usize, name: &str, id: usize, function_prototype: usize)
    requires
        old(heap).wf(),
        m < old(heap).maps@.len(),
    ensures
        final(heap).wf(),
        final(heap).scopes@ == old(heap).scopes@,
        final(heap).arrays@ == old(heap).arrays@,
        final(heap).maps@.len() == old(heap).maps@.len() + 2,
        final(heap).maps@[m as int].lookup(name@) matches Some(v) && v.val matches ValueBase::BuiltinFunction(b) && b.id == id,
        forall|k: Seq<char>| k != name@ ==> final(heap).maps@[m as int].lookup(k) == old(heap).maps@[m as int].lookup(k),
{
    let f = builtin_function(heap, id, function_prototype);
    heap.map_insert(m, String::from_str(name), f);
}

/// Stores `v` under `name` in map `m`.
fn add_value(heap: &mut Heap, m: usize, name: &str, v: Value)
    requires
        old(heap).wf(),
        m < old(heap).maps@.len(),
    ensures
        final(heap).wf(),
        final(heap).scopes@ == old(heap).scopes@,
        final(heap).arrays@ == old(heap).arrays@,
        final(heap).maps@.len() == old(heap).maps@.len(),
        final(heap).maps@[m as int].lookup(name@) == Some(v),
{
    heap.map_insert(m, String::from_str(name), v);
}

/// Allocates an empty object and returns its map.
fn new_object(heap: &mut Heap) -> (r: usize)
    requires
        old(heap).wf(),
    ensures
        final(heap).wf(),
        final(heap).scopes@ == old(heap).scopes@,
        final(heap).arrays@ == old(heap).arrays@,
        r == old(heap).maps@.len(),
        final(heap).maps@.len() == r + 1,
{
    heap.alloc_map(PropertyMap::new())
}

/// The value is host function `id`.
pub open spec fn is_builtin(v: Option<Value>, id: usize) -> bool {
    v matches Some(x) && (x.val matches ValueBase::BuiltinFunction(b) && b.id == id)
}

/// The object map that the value refers to, if it is an object.
pub open spec fn object_of(v: Option<Value>) -> Option<usize> {
    match v {
        Some(x) => match x.val {
            ValueBase::Object(o) => Some(o),
            _ => None,
        },
        None => None,
    }
}

/// Allocates a host function value, keeping what the heap held.
fn host_fn(heap: &mut Heap, id: usize, fp: usize) -> (r: Value)
    requires
        old(heap).wf(),
    ensures
        final(heap).wf(),
        final(heap).scopes@ == old(heap).scopes@,
        final(heap).arrays@ == old(heap).arrays@,
        final(heap).maps@.len() >= old(heap).maps@.len(),
        final(heap).maps@.subrange(0, old(heap).maps@.len() as int) == old(heap).maps@,
        r.val matches ValueBase::BuiltinFunction(b) && b.id == id && b.obj >= old(heap).maps@.len(),
{
    let ghost h0 = *heap;
    let r = builtin_function(heap, id, fp);
    proof {
        assert(heap.maps@.subrange(0, h0.maps@.len() as int) =~= h0.maps@);
    }
    r
}

/// The members of `Math`, with their host functions allocated in `heap`.
fn math_members(heap: &mut Heap, fp: usize) -> (mm: PropertyMap)
    requires
        old(heap).wf(),
    ensures
        final(heap).wf(),
        final(heap).scopes@ == old(heap).scopes@,
        final(heap).arrays@ == old(heap).arrays@,
        final(heap).maps@.len() >= old(heap).maps@.len(),
        final(heap).maps@.subrange(0, old(heap).maps@.len() as int) == old(heap).maps@,
        mm.wf(),
        mm.lookup("PI"@) == Some(Value::plain(ValueBase::Number(PI_BITS))),
        is_builtin(mm.lookup("floor"@), MATH_FLOOR),
        is_builtin(mm.lookup("random"@), MATH_RANDOM),
        is_builtin(mm.lookup("pow"@), MATH_POW),
{
    let mut mm = PropertyMap::new();
    let ghost h0 = *heap;
    let v = host_fn(heap, MATH_ABS, fp);
    mm.insert(String::from_str("abs"), v);
    let v = host_fn(heap, MATH_ACOS, fp);
    mm.insert(String::from_str("acos"), v);
    let v = host_fn(heap, MATH_ACOSH, fp);
    mm.insert(String::from_str("acosh"), v);
    let v = host_fn(heap, MATH_ASIN, fp);
    mm.insert(String::from_str("asin"), v);
    let v = host_fn(heap, MATH_ASINH, fp);
    mm.insert(String::from_str("asinh"), v);
    let v = host_fn(heap, MATH_ATAN, fp);
    mm.insert(String::from_str("atan"), v);
    let v = host_fn(heap, MATH_ATANH, fp);
    mm.insert(String::from_str("atanh"), v);
    let v = host_fn(heap, MATH_ATAN2, fp);
    mm.insert(String::from_str("atan2"), v);
    let v = host_fn(heap, MATH_CBRT, fp);
    mm.insert(String::from_str("cbrt"), v);
    let v = host_fn(heap, MATH_CEIL, fp);
    mm.insert(String::from_str("ceil"), v);
    let v = host_fn(heap, MATH_CLZ32, fp);
    mm.insert(String::from_str("clz32"), v);
    let v = host_fn(heap, MATH_COS, fp);
    mm.insert(String::from_str("cos"), v);
    let v = host_fn(heap, MATH_COSH, fp);
    mm.insert(String::from_str("cosh"), v);
    let v = host_fn(heap, MATH_EXP, fp);
    mm.insert(String::from_str("exp"), v);
    let v = host_fn(heap, MATH_EXPM1, fp);
    mm.insert(String::from_str("expm1"), v);
    let v = host_fn(heap, MATH_FROUND, fp);
    mm.insert(String::from_str("fround"), v);
    let v = host_fn(heap, MATH_HYPOT, fp);
    mm.insert(String::from_str("hypot"), v);
    let v = host_fn(heap, MATH_LOG, fp);
    mm.insert(String::from_str("log"), v);
    let v = host_fn(heap, MATH_LOG1P, fp);
    mm.insert(String::from_str("log1p"), v);
    let v = host_fn(heap, MATH_LOG10, fp);
    mm.insert(String::from_str("log10"), v);
    let v = host_fn(heap, MATH_LOG2, fp);
    mm.insert(String::from_str("log2"), v);
    let v = host_fn(heap, MATH_MAX, fp);
    mm.insert(String::from_str("max"), v);
    let v = host_fn(heap, MATH_MIN, fp);
    mm.insert(String::from_str("min"), v);
    let v = host_fn(heap, MATH_ROUND, fp);
    mm.insert(String::from_str("round"), v);
    let v = host_fn(heap, MATH_SIGN, fp);
    mm.insert(String::from_str("sign"), v);
    let v = host_fn(heap, MATH_SIN, fp);
    mm.insert(String::from_str("sin"), v);
    let v = host_fn(heap, MATH_SINH, fp);
    mm.insert(String::from_str("sinh"), v);
    let v = host_fn(heap, MATH_SQRT, fp);
    mm.insert(String::from_str("sqrt"), v);
    let v = host_fn(heap, MATH_TAN, fp);
    mm.insert(String::from_str("tan"), v);
    let v = host_fn(heap, MATH_TANH, fp);
    mm.insert(String::from_str("tanh"), v);
    let v = host_fn(heap, MATH_TRUNC, fp);
    mm.insert(String::from_str("trunc"), v);
    let v = host_fn(heap, MATH_FLOOR, fp);
    mm.insert(String::from_str("floor"), v);
    let v = host_fn(heap, MATH_RANDOM, fp);
    mm.insert(String::from_str("random"), v);
    let v = host_fn(heap, MATH_POW, fp);
    mm.insert(String::from_str("pow"), v);
    mm.insert(String::from_str("PI"), Value::number(PI_BITS));
    proof {
        reveal_strlit("PI");
        reveal_strlit("floor");
        reveal_strlit("random");
        reveal_strlit("pow");
        assert("floor"@[0] != "random"@[0] && "floor"@[0] != "pow"@[0] && "random"@[0] != "pow"@[0]);
        assert("PI"@[0] != "floor"@[0] && "PI"@[0] != "random"@[0] && "PI"@[0] != "pow"@[0]);
        assert(heap.maps@.subrange(0, h0.maps@.len() as int) =~= h0.maps@);
    }
    mm
}

/// Allocates the shared function prototype, holding `apply` and `call`.
fn function_prototype(heap: &mut Heap) -> (fp: usize)
    requires
        old(heap).wf(),
        old(heap).maps@.len() + 4 <= usize::MAX,
    ensures
        final(heap).wf(),
        final(heap).scopes@ == old(heap).scopes@,
        final(heap).arrays@ == old(heap).arrays@,
        final(heap).maps@.len() >= old(heap).maps@.len(),
        final(heap).maps@.subrange(0, old(heap).maps@.len() as int) == old(heap).maps@,
        fp < final(heap).maps@.len(),
        is_builtin(final(heap).maps@[fp as int].lookup("apply"@), FUNCTION_PROTOTYPE_APPLY),
        is_builtin(final(heap).maps@[fp as int].lookup("call"@), FUNCTION_PROTOTYPE_CALL),
{
    let ghost h0 = *heap;
    // The prototype takes the index after its two functions.
    let fp = heap.maps.len() + 4;
    let apply = builtin_function(heap, FUNCTION_PROTOTYPE_APPLY, fp);
    let call = builtin_function(heap, FUNCTION_PROTOTYPE_CALL, fp);
    let mut fpm = PropertyMap::new();
    fpm.insert(String::from_str("apply"), apply);
    fpm.insert(String::from_str("call"), call);
    proof {
        reveal_strlit("apply");
        reveal_strlit("call");
        assert("apply"@[0] != "call"@[0]);
    }
    let fp2 = heap.alloc_map(fpm);
    proof {
        assert(fp2 == fp);
        assert(heap.maps@.subrange(0, h0.maps@.len() as int) =~= h0.maps@);
    }
    fp
}

/// Allocates the shared array prototype (holding `push`, `pop`, `map` and
/// `constructor`, and no prototype link) and the `Array` constructor.
fn array_prototype(heap: &mut Heap, fp: usize) -> (r: (usize, Value))
    requires
        old(heap).wf(),
    ensures
        final(heap).wf(),
        final(heap).scopes@ == old(heap).scopes@,
        final(heap).maps@.len() >= old(heap).maps@.len(),
        final(heap).maps@.subrange(0, old(heap).maps@.len() as int) == old(heap).maps@,
        final(heap).arrays@.len() == old(heap).arrays@.len() + 1,
        final(heap).arrays@.subrange(0, old(heap).arrays@.len() as int) == old(heap).arrays@,
        r.0 == old(heap).arrays@.len(),
        final(heap).arrays@[r.0 as int].obj.lookup("__proto__"@) is None,
        is_builtin(final(heap).arrays@[r.0 as int].obj.lookup("push"@), ARRAY_PUSH),
        r.1.val matches ValueBase::BuiltinFunction(b) && b.id == ARRAY_NEW,
{
    let ghost h0 = *heap;
    let push = host_fn(heap, ARRAY_PUSH, fp);
    let pop = host_fn(heap, ARRAY_POP, fp);
    let map = host_fn(heap, ARRAY_MAP, fp);
    let mut aobj = PropertyMap::new();
    aobj.insert(String::from_str("push"), push);
    aobj.insert(String::from_str("pop"), pop);
    aobj.insert(String::from_str("map"), map);
    let array_ctor = host_fn(heap, ARRAY_NEW, fp);
    let ctor_copy = array_ctor.duplicate();
    aobj.insert(String::from_str("constructor"), ctor_copy);
    proof {
        reveal_strlit("push");
        reveal_strlit("pop");
        reveal_strlit("map");
        reveal_strlit("__proto__");
        reveal_strlit("constructor");
        assert("push"@[1] != "pop"@[1] && "push"@[0] != "map"@[0] && "push"@[0] != "constructor"@[0]);
        assert("__proto__"@[0] != "push"@[0] && "__proto__"@[0] != "pop"@[0] && "__proto__"@[0] != "map"@[0]
            && "__proto__"@[0] != "constructor"@[0]);
    }
    let ap = heap.alloc_array(ArrayValue { elems: Vec::new(), length: 0, obj: aobj });
    let ctor_obj = match &array_ctor.val {
        ValueBase::BuiltinFunction(b) => b.obj,
        _ => 0,
    };
    let ghost h1 = *heap;
    if ctor_obj < heap.maps.len() {
        heap.map_insert(ctor_obj, String::from_str("prototype"), Value::array(ap));
    }
    proof {
        assert(heap.arrays@.subrange(0, h0.arrays@.len() as int) =~= h0.arrays@);
        assert(heap.maps@.subrange(0, h0.maps@.len() as int) =~= h0.maps@);
    }
    (ap, array_ctor)
}

/// Builds the global environment in `heap`: the shared prototypes of
/// functions (holding `apply` and `call`) and arrays (holding `push`, `pop`
/// and `map`, with no prototype of its own), and the global record binding
/// `require`, `module` (with `exports`), `exports`, `console` (with `log`),
/// `process` (with `stdout.write`), `Array` and `Math` (with `PI`, `floor`,
/// `random`, `pow` and the other functions).
pub fn install(heap: &mut Heap) -> (r: Globals)
    requires
        old(heap).wf(),
        old(heap).maps@.len() + 4 <= usize::MAX,
    ensures
        final(heap).wf(),
        r.valid(*final(heap)),
        final(heap).scopes@[r.scope as int].parent is None,
        is_builtin(final(heap).maps@[r.function_prototype as int].lookup("apply"@), FUNCTION_PROTOTYPE_APPLY),
        is_builtin(final(heap).maps@[r.function_prototype as int].lookup("call"@), FUNCTION_PROTOTYPE_CALL),
        final(heap).arrays@[r.array_prototype as int].obj.lookup("__proto__"@) is None,
        is_builtin(final(heap).arrays@[r.array_prototype as int].obj.lookup("push"@), ARRAY_PUSH),
        ({
            let h = *final(heap);
            let g = r.scope as int;
            let b = |n: Seq<char>| crate::scope::binding(h, g, n);
            &&& is_builtin(b("require"@), REQUIRE)
            &&& is_builtin(b("Array"@), ARRAY_NEW)
            &&& object_of(b("exports"@)) is Some
            &&& object_of(b("module"@)) matches Some(mo) && mo < h.maps@.len()
                && h.maps@[mo as int].lookup("exports"@) == b("exports"@)
            &&& object_of(b("console"@)) matches Some(c) && c < h.maps@.len()
                && is_builtin(h.maps@[c as int].lookup("log"@), CONSOLE_LOG)
            &&& object_of(b("process"@)) matches Some(p) && p < h.maps@.len()
                && (object_of(h.maps@[p as int].lookup("stdout"@)) matches Some(so) && so < h.maps@.len()
                && is_builtin(h.maps@[so as int].lookup("write"@), PROCESS_STDOUT_WRITE))
            &&& object_of(b("Math"@)) matches Some(m) && m < h.maps@.len() && {
                let mm = h.maps@[m as int];
                &&& mm.lookup("PI"@) == Some(Value::plain(ValueBase::Number(PI_BITS)))
                &&& is_builtin(mm.lookup("floor"@), MATH_FLOOR)
                &&& is_builtin(mm.lookup("random"@), MATH_RANDOM)
                &&& is_builtin(mm.lookup("pow"@), MATH_POW)
            }
        }),
{
    let fp = function_prototype(heap);
    let ghost h_fp = *heap;
    let (ap, array_ctor) = array_prototype(heap, fp);
    let ghost h_ap = *heap;
    assert(h_ap.maps@[fp as int] == h_fp.maps@[fp as int]);
    let g = crate::heap::CallObject::new_global(heap);
    let ghost h_g = *heap;
    assert(h_g.maps@[fp as int] == h_ap.maps@[fp as int]);
    let req = host_fn(heap, REQUIRE, fp);
    let ghost h_r = *heap;
    assert(h_r.maps@[fp as int] == h_g.maps@[fp as int]);
    let log = host_fn(heap, CONSOLE_LOG, fp);
    let ghost h_l = *heap;
    assert(h_l.maps@[fp as int] == h_r.maps@[fp as int]);
    let write = host_fn(heap, PROCESS_STDOUT_WRITE, fp);
    let ghost h_w = *heap;
    assert(h_w.maps@[fp as int] == h_l.maps@[fp as int]);
    let mm = math_members(heap, fp);
    let ghost h_m = *heap;
    assert(h_m.maps@[fp as int] == h_w.maps@[fp as int]);
    let exports = heap.alloc_map(PropertyMap::new());
    let mut modm = PropertyMap::new();
    modm.insert(String::from_str("exports"), Value::object(exports));
    let module = heap.alloc_map(modm);
    let mut cm = PropertyMap::new();
    cm.insert(String::from_str("log"), log);
    let console = heap.alloc_map(cm);
    let mut wm = PropertyMap::new();
    wm.insert(String::from_str("write"), write);
    let stdout = heap.alloc_map(wm);
    let mut pm = PropertyMap::new();
    pm.insert(String::from_str("stdout"), Value::object(stdout));
    let process = heap.alloc_map(pm);
    let math = heap.alloc_map(mm);
    let ghost hm = *heap;
    proof {
        assert(hm.maps@[fp as int] == h_fp.maps@[fp as int]);
        assert(hm.arrays@[ap as int].obj.lookup("__proto__"@) is None);
    }
    let ghost ctor = array_ctor;
    let ghost reqv = req;
    let ghost vm0 = heap.scopes@[g as int].vals as int;
    heap.set_value(g, String::from_str("require"), req);
    let ghost h1 = *heap;
    heap.set_value(g, String::from_str("module"), Value::object(module));
    let ghost h2 = *heap;
    heap.set_value(g, String::from_str("exports"), Value::object(exports));
    let ghost h3 = *heap;
    heap.set_value(g, String::from_str("console"), Value::object(console));
    let ghost h4 = *heap;
    heap.set_value(g, String::from_str("process"), Value::object(process));
    let ghost h5 = *heap;
    heap.set_value(g, String::from_str("Array"), array_ctor);
    let ghost h6 = *heap;
    heap.set_value(g, String::from_str("Math"), Value::object(math));
    proof {
        reveal_strlit("require");
        reveal_strlit("module");
        reveal_strlit("exports");
        reveal_strlit("console");
        reveal_strlit("process");
        reveal_strlit("Array");
        reveal_strlit("Math");
        let names = seq!["require"@, "module"@, "exports"@, "console"@, "process"@, "Array"@, "Math"@];
        assert(forall|a: int, b: int| 0 <= a < b < 7 ==> names[a][0] != names[b][0]);
        assert(forall|a: int, b: int| 0 <= a < b < 7 ==> names[a] != names[b]);
        let m = heap.maps@[vm0];
        assert(m.lookup("Math"@) == Some(Value::plain(ValueBase::Object(math))));
        assert(m.lookup("Array"@) == h6.maps@[vm0].lookup("Array"@));
        assert(m.lookup("process"@) == h5.maps@[vm0].lookup("process"@));
        assert(h5.maps@[vm0].lookup("console"@) == h4.maps@[vm0].lookup("console"@));
        assert(m.lookup("console"@) == h4.maps@[vm0].lookup("console"@));
        assert(h4.maps@[vm0].lookup("exports"@) == h3.maps@[vm0].lookup("exports"@));
        assert(m.lookup("exports"@) == h3.maps@[vm0].lookup("exports"@));
        assert(h3.maps@[vm0].lookup("module"@) == h2.maps@[vm0].lookup("module"@));
        assert(m.lookup("module"@) == h2.maps@[vm0].lookup("module"@));
        assert(h2.maps@[vm0].lookup("require"@) == h1.maps@[vm0].lookup("require"@));
        assert(m.lookup("require"@) == h1.maps@[vm0].lookup("require"@));
    }
    proof {
        let vals = hm.scopes@[g as int].vals as int;
        assert(vals < module);
        assert(heap.maps@[module as int] == hm.maps@[module as int]);
        assert(heap.maps@[console as int] == hm.maps@[console as int]);
        assert(heap.maps@[stdout as int] == hm.maps@[stdout as int]);
        assert(heap.maps@[process as int] == hm.maps@[process as int]);
        assert(heap.maps@[math as int] == hm.maps@[math as int]);
        assert(heap.maps@[fp as int] == h_fp.maps@[fp as int]);
        assert(heap.arrays@[ap as int] == hm.arrays@[ap as int]);
    }
    Globals { scope: g, array_prototype: ap, function_prototype: fp }
}

} // verus!

verus! {

/// Allocates the scope record template of a function with formals `params`.
pub fn new_template(heap: &mut Heap, params: Vec<(String, bool)>) -> (r: usize)
    requires
        old(heap).wf(),
    ensures
        final(heap).wf(),
        r == old(heap).scopes@.len(),
        final(heap).scopes@.len() == r + 1,
        final(heap).scopes@[r as int].params == params,
        final(heap).scopes@[r as int].parent is None,
        final(heap).scopes@[r as int].arg_rest_vals@.len() == 0,
        final(heap).arrays@ == old(heap).arrays@,
{
    let vals = heap.alloc_map(PropertyMap::new());
    heap.alloc_scope(CallObject { vals, params, arg_rest_vals: Vec::new(), argc: 0, this: Value::undefined(), parent: None })
}

} // verus!
