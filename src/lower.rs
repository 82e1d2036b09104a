//! Lowering of a hot bytecode region to the typed intermediate form that a
//! native code generator consumes: numbers become doubles, booleans 1-bit
//! integers, strings constant-table text. Arithmetic maps to floating-point
//! operations, bitwise operators and shifts to 32-bit integer operations,
//! comparisons to 1-bit results, and a conditional jump to a guarded
//! branch. Emitting the form as machine code is the host's part.
use vstd::prelude::*;
use crate::bytecode;
use crate::bytecode::{jump_target, le_u32, read_i32, read_i8, read_u32};
use crate::globals::{CONSOLE_LOG, MATH_FLOOR, MATH_POW, MATH_RANDOM, PROCESS_STDOUT_WRITE};
use crate::heap::Heap;
use crate::jit::{as_nats, is_loop_exit, jump_labels, region_labels, TracingJit, ValueType, MAX_FUNCTION_PARAMS};
use crate::number::signed_int_bits;
use crate::value::{FuncId, Value, ValueBase};
use crate::vm::{signed32, ConstantTable};

verus! {

/// An argument of a host call: a value computed by the code, or the text
/// of a string constant.
#[derive(Debug)]
pub enum IrArg {
    Value(ValueType),
    Text(usize),
}

/// An operation of the lowered form. Operations work on a stack of typed
/// values, in the order of the bytecode they come from.
#[derive(Debug)]
pub enum IrOp {
    /// A double, by its bit pattern.
    ConstF64(u64),
    /// A 1-bit integer.
    ConstBool(bool),
    /// Loads a local, by its name id.
    Load(usize),
    /// Stores the top value into a local, by its name id.
    Store(usize),
    FAdd,
    FSub,
    FMul,
    FDiv,
    FRem,
    FNeg,
    /// A bitwise operator or shift (by its opcode) on the operands cast to
    /// 32-bit integers, widened back to a double.
    Int32(u8),
    /// A comparison (by its opcode) of two doubles, giving a 1-bit integer.
    FCmp(u8),
    /// Branches to `target` when the top value is false: a double compared
    /// with 0.0 (ordered, not equal), a 1-bit integer compared with zero.
    BranchIfFalse { target: usize, guard: ValueType },
    Jump(usize),
    /// Calls compiled function `func` on `argc` doubles.
    CallNative { func: FuncId, argc: usize, ret: ValueType },
    /// Calls host intrinsic `builtin`.
    CallBuiltin { builtin: usize, args: Vec<IrArg> },
    Pop,
    Dup,
    Return(ValueType),
}

/// A lowered operation and the bytecode position it comes from.
#[derive(Debug)]
pub struct IrInst {
    pub pc: usize,
    pub op: IrOp,
}

/// A lowered region: its operations, the positions jumps go to (each
/// starts a block), and for a loop the positions at which the compiled code
/// hands control back (each an exit block returning that position).
#[derive(Debug)]
pub struct Lowered {
    pub insts: Vec<IrInst>,
    pub labels: Vec<usize>,
    pub exits: Vec<usize>,
}

/// What the lowering knows of a value on the bytecode's operand stack.
#[derive(Debug, Clone, Copy)]
pub enum Slot {
    Val(ValueType),
    Text(usize),
    Nothing,
    Native(FuncId),
    Builtin(usize),
    Obj(usize),
}

/// The four-byte operand of the instruction at `pc`.
pub open spec fn operand_at(code: Seq<u8>, pc: int) -> int {
    le_u32(code[pc + 1], code[pc + 2], code[pc + 3], code[pc + 4])
}

/// Operation `op` is what the instruction at `pc` lowers to.
pub open spec fn lowers_to(code: Seq<u8>, consts: Seq<Value>, pc: int, op: IrOp) -> bool {
    let c = code[pc];
    let long = pc + 5 <= code.len();
    let k = operand_at(code, pc);
    0 <= pc < code.len() && match op {
        IrOp::FAdd => c == bytecode::ADD,
        IrOp::FSub => c == bytecode::SUB,
        IrOp::FMul => c == bytecode::MUL,
        IrOp::FDiv => c == bytecode::DIV,
        IrOp::FRem => c == bytecode::REM,
        IrOp::FNeg => c == bytecode::NEG,
        IrOp::Int32(o) => o == c && bytecode::AND <= c && c <= bytecode::ZFSHR,
        IrOp::FCmp(o) => o == c && bytecode::LT <= c && c <= bytecode::SNE,
        IrOp::ConstF64(b) => (c == bytecode::PUSH_INT8 && pc + 2 <= code.len() && b as nat == signed_int_bits(
            if code[pc + 1] < 128 { code[pc + 1] as int } else { code[pc + 1] - 256 },
        )) || (c == bytecode::PUSH_INT32 && long && b as nat == signed_int_bits(signed32(k)))
            || (c == bytecode::PUSH_CONST && long && k < consts.len() && consts[k].val == ValueBase::Number(b)),
        IrOp::ConstBool(b) => (c == bytecode::PUSH_TRUE && b) || (c == bytecode::PUSH_FALSE && !b)
            || (c == bytecode::PUSH_CONST && long && k < consts.len() && consts[k].val == ValueBase::Bool(b)),
        IrOp::Load(id) => c == bytecode::GET_NAME && long && id == k,
        IrOp::Store(id) => (c == bytecode::SET_NAME || c == bytecode::DECL_VAR) && long && id == k,
        IrOp::BranchIfFalse { target, guard } => c == bytecode::JMP_IF_FALSE && long && target == pc + 5 + signed32(k)
            && !(guard is String),
        IrOp::Jump(target) => c == bytecode::JMP && long && target == pc + 5 + signed32(k),
        IrOp::CallNative { argc, .. } => c == bytecode::CALL && long && argc == k,
        IrOp::CallBuiltin { args, .. } => c == bytecode::CALL && long && args@.len() == k,
        IrOp::Pop => c == bytecode::POP,
        IrOp::Dup => c == bytecode::DOUBLE,
        IrOp::Return(_) => c == bytecode::RETURN,
    }
}

/// A compiled call goes to the function being compiled or to one that
/// already has native code.
pub open spec fn call_ok(jit: TracingJit, self_id: FuncId, op: IrOp) -> bool {
    op matches IrOp::CallNative { func, .. } ==> func == self_id || jit.native(func, 0)
}

/// The positions at which a compiled loop over `[bgn, end)` hands control
/// back are exactly `exits`.
pub open spec fn exits_exact(labels: Seq<usize>, bgn: nat, end: nat, exits: Seq<usize>) -> bool {
    forall|pc: usize| exits.contains(pc) <==> is_loop_exit(as_nats(labels), bgn, end, pc as nat)
}

/// The signature of a compiled function of `argc` arguments: that many
/// doubles in, and the return type last observed (a double before any).
pub fn func_signature(argc: usize, ret: Option<ValueType>) -> (r: Result<(usize, ValueType), ()>)
    ensures
        argc > MAX_FUNCTION_PARAMS ==> r is Err,
        argc <= MAX_FUNCTION_PARAMS ==> r == Ok::<(usize, ValueType), ()>((argc, match ret {
            Some(t) => t,
            None => ValueType::Number,
        })),
{
    if argc > MAX_FUNCTION_PARAMS {
        return Err(());
    }
    match ret {
        Some(t) => Ok((argc, t)),
        None => Ok((argc, ValueType::Number)),
    }
}

fn local_type_of(locals: &Vec<(usize, ValueType)>, id: usize) -> (r: Option<ValueType>)
    ensures
        r matches Some(t) ==> exists|i: int| 0 <= i < locals@.len() && locals@[i] == (id, t),
{
    let mut i: usize = 0;
    while i < locals.len()
        invariant
            i <= locals@.len(),
        decreases locals@.len() - i,
    {
        if locals[i].0 == id {
            let t = locals[i].1;
            assert(locals@[i as int] == (id, t));
            return Some(t);
        }
        i = i + 1;
    }
    None
}

fn pop_slot(stack: &mut Vec<Slot>) -> (r: Result<Slot, ()>)
    ensures
        r matches Ok(s) ==> old(stack)@.len() > 0 && s == old(stack)@.last() && final(stack)@ == old(stack)@.drop_last(),
        r is Err ==> final(stack)@ == old(stack)@,
{
    match stack.pop() {
        Some(s) => Ok(s),
        None => Err(()),
    }
}

/// Every function slot of `s` may be called from compiled code.
pub open spec fn natives_ok(jit: TracingJit, self_id: FuncId, s: Seq<Slot>) -> bool {
    forall|j: int| 0 <= j < s.len() ==> (#[trigger] s[j] matches Slot::Native(f) ==> f == self_id || jit.native(f, 0))
}

/// The lowered operations so far are all correct.
pub open spec fn insts_ok(code: Seq<u8>, consts: Seq<Value>, jit: TracingJit, self_id: FuncId, insts: Seq<IrInst>) -> bool {
    forall|k: int| 0 <= k < insts.len() ==> lowers_to(code, consts, insts[k].pc as int, insts[k].op)
        && call_ok(jit, self_id, #[trigger] insts[k].op)
}

fn pop_number(stack: &mut Vec<Slot>) -> (r: Result<(), ()>)
    ensures
        r is Ok ==> old(stack)@.len() > 0 && final(stack)@ == old(stack)@.drop_last(),
        r is Err ==> final(stack)@.len() <= old(stack)@.len() && final(stack)@ == old(stack)@.subrange(0, final(stack)@.len() as int),
{
    let ghost o = stack@;
    let r = match stack.pop() {
        Some(Slot::Val(ValueType::Number)) => Ok(()),
        _ => Err(()),
    };
    proof {
        assert(stack@ =~= o.subrange(0, stack@.len() as int));
    }
    r
}

/// Lowers the region `[bgn, end)` of `code` (see `lowers_to`). `locals`
/// gives the recorded type of each local by name id; other names are
/// resolved in scope `scope` at compile time and must denote the function
/// being compiled (`self_id`), a function with native code, a host
/// intrinsic or an object. A function region returns values of type `ret`.
/// Fails where the region does not decode or holds an instruction compiled
/// code does not handle, where a call goes to a function without native
/// code, where a member is read from anything but an object or reads
/// anything but an object or intrinsic, or where the types do not fit.
pub fn gen_body(
    code: &Vec<u8>,
    consts: &ConstantTable,
    heap: &Heap,
    scope: usize,
    jit: &TracingJit,
    locals: &Vec<(usize, ValueType)>,
    self_id: FuncId,
    ret: ValueType,
    bgn: usize,
    end: usize,
    is_func: bool,
) -> (r: Result<Lowered, ()>)
    requires
        heap.wf(),
        scope < heap.scopes@.len(),
        jit.wf(),
        jit.types_wf(),
    ensures
        region_labels(code@, bgn as nat, end as nat, is_func) is None ==> r is Err,
        r matches Ok(l) ==> {
            &&& region_labels(code@, bgn as nat, end as nat, is_func) == Some(as_nats(l.labels@))
            &&& forall|k: int| 0 <= k < l.insts@.len() ==> lowers_to(code@, consts.value@, l.insts@[k].pc as int, l.insts@[k].op)
                && call_ok(*jit, self_id, #[trigger] l.insts@[k].op)
            &&& !is_func ==> exits_exact(l.labels@, bgn as nat, end as nat, l.exits@)
            &&& is_func ==> l.exits@.len() == 0
        },
{
    let labels = match jump_labels(code, bgn, end, is_func) {
        Some(l) => l,
        None => return Err(()),
    };
    let mut insts: Vec<IrInst> = Vec::new();
    let mut stack: Vec<Slot> = Vec::new();
    let mut pc = bgn;
    while pc < end
        invariant
            heap.wf(),
            scope < heap.scopes@.len(),
            jit.wf(),
            jit.types_wf(),
            insts_ok(code@, consts.value@, *jit, self_id, insts@),
            natives_ok(*jit, self_id, stack@),
        decreases end + 5 - pc,
    {
        if pc >= code.len() {
            return Err(());
        }
        let op = code[pc];
        let n = match bytecode::inst_size(op) {
            Some(n) => n,
            None => return Err(()),
        };
        if op == bytecode::END || (op == bytecode::CREATE_CONTEXT && is_func) {
            break;
        }
        if n == 5 && code.len() - pc < 5 {
            return Err(());
        }
        if n == 2 && code.len() - pc < 2 {
            return Err(());
        }
        let ghost before = insts@;
        if bytecode::ADD <= op && op <= bytecode::SNE {
            pop_number(&mut stack)?;
            pop_number(&mut stack)?;
            let (iop, res) = if op == bytecode::ADD {
                (IrOp::FAdd, ValueType::Number)
            } else if op == bytecode::SUB {
                (IrOp::FSub, ValueType::Number)
            } else if op == bytecode::MUL {
                (IrOp::FMul, ValueType::Number)
            } else if op == bytecode::DIV {
                (IrOp::FDiv, ValueType::Number)
            } else if op == bytecode::REM {
                (IrOp::FRem, ValueType::Number)
            } else if bytecode::LT <= op && op <= bytecode::SNE {
                (IrOp::FCmp(op), ValueType::Bool)
            } else {
                return Err(());
            };
            insts.push(IrInst { pc, op: iop });
            stack.push(Slot::Val(res));
        } else if bytecode::AND <= op && op <= bytecode::ZFSHR {
            pop_number(&mut stack)?;
            pop_number(&mut stack)?;
            insts.push(IrInst { pc, op: IrOp::Int32(op) });
            stack.push(Slot::Val(ValueType::Number));
        } else if op == bytecode::NEG {
            pop_number(&mut stack)?;
            insts.push(IrInst { pc, op: IrOp::FNeg });
            stack.push(Slot::Val(ValueType::Number));
        } else if op == bytecode::PUSH_INT8 {
            let v = read_i8(code, pc + 1);
            insts.push(IrInst { pc, op: IrOp::ConstF64(crate::number::bits_of_i32(v as i32)) });
            stack.push(Slot::Val(ValueType::Number));
        } else if op == bytecode::PUSH_INT32 {
            let v = read_i32(code, pc + 1);
            insts.push(IrInst { pc, op: IrOp::ConstF64(crate::number::bits_of_i32(v)) });
            stack.push(Slot::Val(ValueType::Number));
        } else if op == bytecode::PUSH_TRUE || op == bytecode::PUSH_FALSE {
            insts.push(IrInst { pc, op: IrOp::ConstBool(op == bytecode::PUSH_TRUE) });
            stack.push(Slot::Val(ValueType::Bool));
        } else if op == bytecode::PUSH_CONST {
            let k = read_u32(code, pc + 1) as usize;
            if k >= consts.value.len() {
                return Err(());
            }
            match &consts.value[k].val {
                ValueBase::Number(b) => {
                    insts.push(IrInst { pc, op: IrOp::ConstF64(*b) });
                    stack.push(Slot::Val(ValueType::Number));
                },
                ValueBase::Bool(b) => {
                    insts.push(IrInst { pc, op: IrOp::ConstBool(*b) });
                    stack.push(Slot::Val(ValueType::Bool));
                },
                ValueBase::String(_) => stack.push(Slot::Text(k)),
                _ => return Err(()),
            }
        } else if op == bytecode::GET_NAME {
            let id = read_u32(code, pc + 1) as usize;
            match local_type_of(locals, id) {
                Some(t) => {
                    insts.push(IrInst { pc, op: IrOp::Load(id) });
                    stack.push(Slot::Val(t));
                },
                None => {
                    if id >= consts.string.len() {
                        return Err(());
                    }
                    let v = match heap.get_value(scope, &consts.string[id]) {
                        Ok(v) => v,
                        Err(_) => return Err(()),
                    };
                    match v.val {
                        ValueBase::Function(f) => {
                            if f.id == self_id || jit.native_of(f.id, 0) {
                                stack.push(Slot::Native(f.id));
                            } else {
                                return Err(());
                            }
                        },
                        ValueBase::BuiltinFunction(b) => stack.push(Slot::Builtin(b.id)),
                        ValueBase::Object(o) => stack.push(Slot::Obj(o)),
                        _ => return Err(()),
                    }
                },
            }
        } else if op == bytecode::SET_NAME || op == bytecode::DECL_VAR {
            let id = read_u32(code, pc + 1) as usize;
            let t = match local_type_of(locals, id) {
                Some(t) => t,
                None => return Err(()),
            };
            match pop_slot(&mut stack)? {
                Slot::Val(u) => {
                    if !same_type(u, t) {
                        return Err(());
                    }
                },
                _ => return Err(()),
            }
            insts.push(IrInst { pc, op: IrOp::Store(id) });
        } else if op == bytecode::GET_MEMBER {
            let key = pop_slot(&mut stack)?;
            let parent = pop_slot(&mut stack)?;
            let (m, k) = match (parent, key) {
                (Slot::Obj(m), Slot::Text(k)) => (m, k),
                _ => return Err(()),
            };
            if m >= heap.maps.len() || k >= consts.value.len() {
                return Err(());
            }
            let name = match &consts.value[k].val {
                ValueBase::String(s) => s,
                _ => return Err(()),
            };
            proof {
                assert(heap.maps@[m as int].wf());
            }
            let found = crate::property::obj_find_val(heap, &heap.maps[m], name);
            match found.val {
                ValueBase::BuiltinFunction(b) => stack.push(Slot::Builtin(b.id)),
                ValueBase::Object(o) => stack.push(Slot::Obj(o)),
                _ => return Err(()),
            }
        } else if op == bytecode::CALL {
            let argc = read_u32(code, pc + 1) as usize;
            let callee = pop_slot(&mut stack)?;
            match callee {
                Slot::Native(f) => {
                    let mut i: usize = 0;
                    while i < argc
                        invariant
                            i <= argc,
                            natives_ok(*jit, self_id, stack@),
                        decreases argc - i,
                    {
                        let ghost o = stack@;
                        pop_number(&mut stack)?;
                        proof {
                            assert forall|j: int| 0 <= j < stack@.len() implies (#[trigger] stack@[j] matches Slot::Native(g) ==> g == self_id || jit.native(g, 0)) by {
                                assert(stack@[j] == o[j]);
                            }
                        }
                        i = i + 1;
                    }
                    let rt = if f == self_id { ret } else { jit.function_return_type(f) };
                    insts.push(IrInst { pc, op: IrOp::CallNative { func: f, argc, ret: rt } });
                    stack.push(Slot::Val(rt));
                },
                Slot::Builtin(b) => {
                    let mut args: Vec<IrArg> = Vec::new();
                    let mut i: usize = 0;
                    while i < argc
                        invariant
                            i <= argc,
                            args@.len() == i,
                            natives_ok(*jit, self_id, stack@),
                        decreases argc - i,
                    {
                        let ghost o = stack@;
                        let sl = pop_slot(&mut stack)?;
                        proof {
                            assert forall|j: int| 0 <= j < stack@.len() implies (#[trigger] stack@[j] matches Slot::Native(g) ==> g == self_id || jit.native(g, 0)) by {
                                assert(stack@[j] == o[j]);
                            }
                        }
                        match sl {
                            Slot::Val(t) => args.push(IrArg::Value(t)),
                            Slot::Text(k) => args.push(IrArg::Text(k)),
                            _ => return Err(()),
                        }
                        i = i + 1;
                    }
                    let res = if b == CONSOLE_LOG || b == PROCESS_STDOUT_WRITE {
                        Slot::Nothing
                    } else if b == MATH_FLOOR || b == MATH_RANDOM || b == MATH_POW {
                        Slot::Val(ValueType::Number)
                    } else {
                        return Err(());
                    };
                    insts.push(IrInst { pc, op: IrOp::CallBuiltin { builtin: b, args } });
                    stack.push(res);
                },
                _ => return Err(()),
            }
        } else if op == bytecode::JMP_IF_FALSE {
            let guard = match pop_slot(&mut stack)? {
                Slot::Val(ValueType::Number) => ValueType::Number,
                Slot::Val(ValueType::Bool) => ValueType::Bool,
                _ => return Err(()),
            };
            let rel = read_i32(code, pc + 1);
            let target = match jump_target(pc + 5, rel) {
                Some(t) => t,
                None => return Err(()),
            };
            insts.push(IrInst { pc, op: IrOp::BranchIfFalse { target, guard } });
        } else if op == bytecode::JMP {
            let rel = read_i32(code, pc + 1);
            let target = match jump_target(pc + 5, rel) {
                Some(t) => t,
                None => return Err(()),
            };
            insts.push(IrInst { pc, op: IrOp::Jump(target) });
        } else if op == bytecode::POP {
            match pop_slot(&mut stack)? {
                Slot::Val(_) => insts.push(IrInst { pc, op: IrOp::Pop }),
                _ => {},
            }
        } else if op == bytecode::DOUBLE {
            match pop_slot(&mut stack)? {
                Slot::Val(t) => {
                    stack.push(Slot::Val(t));
                    stack.push(Slot::Val(t));
                    insts.push(IrInst { pc, op: IrOp::Dup });
                },
                _ => return Err(()),
            }
        } else if op == bytecode::RETURN && is_func {
            match pop_slot(&mut stack)? {
                Slot::Val(t) => {
                    if !same_type(t, ret) {
                        return Err(());
                    }
                    insts.push(IrInst { pc, op: IrOp::Return(t) });
                },
                _ => return Err(()),
            }
        } else if op == bytecode::LOOP_START || op == bytecode::CREATE_CONTEXT {
        } else {
            return Err(());
        }
        if n > end - pc {
            pc = end;
        } else {
            pc = pc + n;
        }
    }
    let exits = if is_func {
        Vec::new()
    } else {
        loop_exits(&labels, bgn, end)
    };
    Ok(Lowered { insts, labels, exits })
}

fn same_type(a: ValueType, b: ValueType) -> (r: bool)
    ensures
        r == (a == b),
{
    match (a, b) {
        (ValueType::Number, ValueType::Number) => true,
        (ValueType::Bool, ValueType::Bool) => true,
        (ValueType::String, ValueType::String) => true,
        _ => false,
    }
}

/// The positions at which a compiled loop over `[bgn, end)` hands control
/// back: `end`, and each jump destination outside the loop.
pub fn loop_exits(labels: &Vec<usize>, bgn: usize, end: usize) -> (r: Vec<usize>)
    ensures
        exits_exact(labels@, bgn as nat, end as nat, r@),
{
    let mut out: Vec<usize> = Vec::new();
    out.push(end);
    proof {
        assert(is_loop_exit(as_nats(labels@), bgn as nat, end as nat, end as nat));
        assert forall|pc: usize| out@.contains(pc) implies is_loop_exit(as_nats(labels@), bgn as nat, end as nat, pc as nat) by {
            let j = choose|j: int| 0 <= j < out@.len() && out@[j] == pc;
            assert(j == 0);
        }
    }
    let mut i: usize = 0;
    while i < labels.len()
        invariant
            i <= labels@.len(),
            out@.len() >= 1 && out@[0] == end,
            forall|pc: usize| out@.contains(pc) ==> is_loop_exit(as_nats(labels@), bgn as nat, end as nat, pc as nat),
            forall|j: int| 0 <= j < i && !(bgn <= labels@[j] && labels@[j] < end) ==> out@.contains(#[trigger] labels@[j]),
        decreases labels@.len() - i,
    {
        let l = labels[i];
        if !(bgn <= l && l < end) && l != end {
            let ghost o = out@;
            proof {
                assert(as_nats(labels@)[i as int] == l as nat);
                assert(as_nats(labels@).contains(l as nat));
            }
            out.push(l);
            proof {
                assert(out@[out@.len() - 1] == l);
                assert forall|pc: usize| out@.contains(pc) implies is_loop_exit(as_nats(labels@), bgn as nat, end as nat, pc as nat) by {
                    if pc != l {
                        let j = choose|j: int| 0 <= j < out@.len() && out@[j] == pc;
                        assert(o[j] == pc);
                        assert(o.contains(pc));
                    }
                }
                assert forall|j: int| 0 <= j < i + 1 && !(bgn <= labels@[j] && labels@[j] < end) implies out@.contains(#[trigger] labels@[j]) by {
                    if labels@[j] == end {
                        assert(out@[0] == end);
                    } else if j < i {
                        let q = choose|q: int| 0 <= q < o.len() && o[q] == labels@[j];
                        assert(out@[q] == o[q]);
                    }
                }
                assert(out@[0] == o[0]);
            }
        }
        i = i + 1;
    }
    proof {
        assert forall|pc: usize| is_loop_exit(as_nats(labels@), bgn as nat, end as nat, pc as nat) implies out@.contains(pc) by {
            if pc == end {
                assert(out@[0] == end);
            } else {
                let ls = as_nats(labels@);
                let j = choose|j: int| 0 <= j < ls.len() && ls[j] == pc as nat;
                assert(labels@[j] == pc);
            }
        }
    }
    out
}

} // verus!
