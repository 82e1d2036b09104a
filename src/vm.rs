//! The bytecode interpreter: operand stack, scope stack and call frames.
//!
//! `VM::step` runs one instruction. Work that needs floating point or the
//! host (arithmetic on numbers, builtin functions, native code) is handed
//! back as an [`Action`]; the host performs it and continues.
use vstd::prelude::*;
use vstd::string::StringExecFns;
use crate::bytecode;
use crate::bytecode::{jump_target, le_u32, read_i32, read_i8, read_u32};
use crate::heap::{ArrayValue, CallObject, Heap, PropertyMap};
use crate::jit::{
    collect_local_variables, entered_site, has_untyped_local, jump_labels, region_labels, scan_names, JitDecision, TracingJit,
    FUNC_THRESHOLD, LOOP_THRESHOLD, MAX_FUNCTION_PARAMS,
};
use crate::number::{bits_of_i32, signed_int_bits};
use crate::property::is_property_value;
use crate::scope::{assign_target, binding};
use crate::value::{truthy, BuiltinValue, FuncId, FunctionValue, RuntimeError, Value, ValueBase};

verus! {

/// The literals and interned names of a program.
#[derive(Debug)]
pub struct ConstantTable {
    pub value: Vec<Value>,
    pub string: Vec<String>,
}

impl ConstantTable {
    pub fn new() -> (r: ConstantTable)
        ensures
            r.value@.len() == 0,
            r.string@.len() == 0,
    {
        ConstantTable { value: Vec::new(), string: Vec::new() }
    }
}

/// A call in progress: the operand-stack height to return to, where the
/// caller resumes, which body the caller runs, and for a construction the
/// object being constructed.
#[derive(Debug, Clone, Copy)]
pub struct Frame {
    pub sp: usize,
    pub return_pc: usize,
    pub func_id: FuncId,
    pub callee: FuncId,
    pub constructed: Option<usize>,
}

#[derive(Debug)]
pub struct VMState {
    pub stack: Vec<Value>,
    pub scope: Vec<usize>,
    pub pc: usize,
    pub history: Vec<Frame>,
}

/// What the host does after a step.
#[derive(Debug)]
pub enum Action {
    /// Run the next instruction.
    Continue,
    /// The program has ended.
    Finished,
    /// Apply the arithmetic, comparison or bitwise opcode to the two
    /// operands on top of the stack (one for `posi`), pushing the result;
    /// the operands are of kinds the operator takes (see `accepts`).
    Arithmetic(u8),
    /// Run host function `builtin` with `this` and `args` (the first
    /// argument first), and push its result.
    CallBuiltin { builtin: usize, this: Value, args: Vec<Value> },
    /// Try to compile function `id` for `argc` numeric arguments and report
    /// the outcome to the JIT; the call itself is being interpreted.
    CompileFunction { id: FuncId, argc: usize },
    /// Run the native code of function `id` on `args` and push its result.
    NativeCall { id: FuncId, args: Vec<Value> },
    /// Try to compile the loop `[bgn, end)` of function `id` and report the
    /// outcome to the JIT; interpretation goes on meanwhile.
    CompileLoop { id: FuncId, bgn: usize, end: usize },
    /// Run the native code of the loop at `bgn`, then resume where it says.
    NativeLoop { id: FuncId, bgn: usize },
}

pub struct VM {
    pub jit: TracingJit,
    pub state: VMState,
    pub const_table: ConstantTable,
    pub cur_func_id: FuncId,
    pub heap: Heap,
    /// Function bodies by id; body 0 is the top-level program.
    pub code: Vec<Vec<u8>>,
    /// The shared prototype of all arrays.
    pub array_prototype: usize,
}

impl VM {
    pub open spec fn wf(&self) -> bool {
        &&& self.heap.wf()
        &&& self.jit.wf()
        &&& self.jit.types_wf()
        &&& self.state.scope@.len() >= 1
        &&& self.state.scope@.len() >= self.state.history@.len()
        &&& forall|i: int|
            0 <= i < self.state.scope@.len() ==> #[trigger] self.state.scope@[i]
                < self.heap.scopes@.len()
        &&& self.cur_func_id < self.code@.len()
        &&& self.array_prototype < self.heap.arrays@.len()
        &&& forall|i: int|
            0 <= i < self.state.history@.len() ==> #[trigger] self.state.history@[i].func_id
                < self.code@.len()
    }

    /// The scope record that the running code sees.
    pub open spec fn cur_scope(&self) -> int {
        self.state.scope@.last() as int
    }

    /// The running body.
    pub open spec fn body(&self) -> Seq<u8> {
        self.code@[self.cur_func_id as int]@
    }

    /// Everything but the operand stack and the position is as before.
    pub open spec fn same_but_stack(&self, other: VM) -> bool {
        &&& self.heap == other.heap
        &&& self.jit == other.jit
        &&& self.state.scope == other.state.scope
        &&& self.state.history == other.state.history
        &&& self.cur_func_id == other.cur_func_id
        &&& self.code == other.code
        &&& self.const_table == other.const_table
        &&& self.array_prototype == other.array_prototype
    }

    /// A VM over `code` whose global record is `global` of `heap`.
    pub fn new(heap: Heap, global: usize, array_prototype: usize, code: Vec<Vec<u8>>, const_table: ConstantTable) -> (r: VM)
        requires
            heap.wf(),
            global < heap.scopes@.len(),
            array_prototype < heap.arrays@.len(),
            code@.len() >= 1,
        ensures
            r.wf(),
            r.heap == heap,
            r.code == code,
            r.const_table == const_table,
            r.state.stack@.len() == 0,
            r.state.scope@ == seq![global],
            r.state.pc == 0,
            r.state.history@.len() == 1,
            r.state.history@[0].sp == 0 && r.state.history@[0].return_pc == 0,
            r.cur_func_id == 0,
    {
        let mut scope: Vec<usize> = Vec::new();
        scope.push(global);
        let mut history: Vec<Frame> = Vec::new();
        history.push(Frame { sp: 0, return_pc: 0, func_id: 0, callee: 0, constructed: None });
        let r = VM {
            jit: TracingJit::new(),
            state: VMState { stack: Vec::new(), scope, pc: 0, history },
            const_table,
            cur_func_id: 0,
            heap,
            code,
            array_prototype,
        };
        r
    }

    fn top_scope(&self) -> (r: usize)
        requires
            self.wf(),
        ensures
            r == self.cur_scope(),
            r < self.heap.scopes@.len(),
    {
        let n = self.state.scope.len();
        proof {
            assert(self.state.scope@[n - 1] < self.heap.scopes@.len());
        }
        self.state.scope[n - 1]
    }

    fn pop_value(&mut self) -> (r: Result<Value, RuntimeError>)
        requires
            old(self).wf(),
        ensures
            final(self).wf(),
            final(self).same_but_stack(*old(self)),
            final(self).state.pc == old(self).state.pc,
            old(self).state.stack@.len() > 0 ==> r == Ok::<Value, RuntimeError>(old(self).state.stack@.last())
                && final(self).state.stack@ == old(self).state.stack@.drop_last(),
            old(self).state.stack@.len() == 0 ==> r == Err::<Value, RuntimeError>(RuntimeError::Unknown)
                && final(self).state.stack@ == old(self).state.stack@,
    {
        match self.state.stack.pop() {
            Some(v) => Ok(v),
            None => Err(RuntimeError::Unknown),
        }
    }

    /// The four-byte operand after the opcode at the current position.
    fn operand32(&self) -> (r: Result<u32, RuntimeError>)
        requires
            self.wf(),
        ensures
            self.state.pc + 5 <= self.body().len() ==> (r matches Ok(v) && v as int == le_u32(
                self.body()[self.state.pc + 1],
                self.body()[self.state.pc + 2],
                self.body()[self.state.pc + 3],
                self.body()[self.state.pc + 4],
            )),
            self.state.pc + 5 > self.body().len() ==> r is Err,
            self.body().len() <= usize::MAX,
    {
        let code = &self.code[self.cur_func_id];
        let _ = code.len();
        if self.state.pc >= code.len() || code.len() - self.state.pc < 5 {
            return Err(RuntimeError::Unknown);
        }
        Ok(read_u32(code, self.state.pc + 1))
    }
}

} // verus!

verus! {

/// The signed value of a four-byte little-endian operand.
pub open spec fn signed32(u: int) -> int {
    if u < 0x8000_0000 {
        u
    } else {
        u - 0x1_0000_0000
    }
}

impl VM {
    /// The four-byte operand of the current instruction, as stored.
    pub open spec fn operand(&self) -> int {
        le_u32(
            self.body()[self.state.pc + 1],
            self.body()[self.state.pc + 2],
            self.body()[self.state.pc + 3],
            self.body()[self.state.pc + 4],
        )
    }

    /// Pushes `v` and moves past an instruction of `size` bytes.
    pub open spec fn pushed(&self, old: VM, v: Value, size: int) -> bool {
        &&& self.same_but_stack(old)
        &&& self.state.stack@ == old.state.stack@.push(v)
        &&& self.state.pc == old.state.pc + size
    }

    /// Moves past an instruction of `size` bytes, changing nothing else.
    pub open spec fn skipped(&self, old: VM, size: int) -> bool {
        &&& self.same_but_stack(old)
        &&& self.state.stack@ == old.state.stack@
        &&& self.state.pc == old.state.pc + size
    }

    fn advance(&mut self, size: usize) -> (r: Result<(), RuntimeError>)
        requires
            old(self).wf(),
        ensures
            final(self).wf(),
            final(self).same_but_stack(*old(self)),
            final(self).state.stack@ == old(self).state.stack@,
            r is Ok <==> old(self).state.pc + size <= usize::MAX,
            r is Ok ==> final(self).state.pc == old(self).state.pc + size,
    {
        if self.state.pc > usize::MAX - size {
            return Err(RuntimeError::Unknown);
        }
        self.state.pc = self.state.pc + size;
        Ok(())
    }

    pub fn create_context(&mut self) -> (r: Result<(), RuntimeError>)
        requires
            old(self).wf(),
            old(self).state.pc < usize::MAX,
        ensures
            final(self).wf(),
            create_context_post(*old(self), *final(self), r),
    {
        self.advance(1)
    }

    pub fn push_int8(&mut self) -> (r: Result<(), RuntimeError>)
        requires
            old(self).wf(),
        ensures
            final(self).wf(),
            push_int8_post(*old(self), *final(self), r),
    {
        let code = &self.code[self.cur_func_id];
        if self.state.pc >= code.len() || code.len() - self.state.pc < 2 {
            return Err(RuntimeError::Unknown);
        }
        let n = read_i8(code, self.state.pc + 1);
        self.state.stack.push(Value::number(bits_of_i32(n as i32)));
        self.state.pc = self.state.pc + 2;
        Ok(())
    }

    pub fn push_int32(&mut self) -> (r: Result<(), RuntimeError>)
        requires
            old(self).wf(),
        ensures
            final(self).wf(),
            push_int32_post(*old(self), *final(self), r),
    {
        let code = &self.code[self.cur_func_id];
        if self.state.pc >= code.len() || code.len() - self.state.pc < 5 {
            return Err(RuntimeError::Unknown);
        }
        let n = read_i32(code, self.state.pc + 1);
        self.state.stack.push(Value::number(bits_of_i32(n)));
        self.state.pc = self.state.pc + 5;
        Ok(())
    }

    /// Pushes `v` for a one-byte instruction.
    fn push_simple(&mut self, v: Value) -> (r: Result<(), RuntimeError>)
        requires
            old(self).wf(),
            old(self).state.pc < usize::MAX,
        ensures
            final(self).wf(),
            r is Ok && final(self).pushed(*old(self), v, 1),
    {
        self.state.stack.push(v);
        self.state.pc = self.state.pc + 1;
        Ok(())
    }

    pub fn push_false(&mut self) -> (r: Result<(), RuntimeError>)
        requires
            old(self).wf(),
            old(self).state.pc < usize::MAX,
        ensures
            final(self).wf(),
            push_false_post(*old(self), *final(self), r),
    {
        self.push_simple(Value::bool(false))
    }

    pub fn push_true(&mut self) -> (r: Result<(), RuntimeError>)
        requires
            old(self).wf(),
            old(self).state.pc < usize::MAX,
        ensures
            final(self).wf(),
            push_true_post(*old(self), *final(self), r),
    {
        self.push_simple(Value::bool(true))
    }

    pub fn push_undefined(&mut self) -> (r: Result<(), RuntimeError>)
        requires
            old(self).wf(),
            old(self).state.pc < usize::MAX,
        ensures
            final(self).wf(),
            push_undefined_post(*old(self), *final(self), r),
    {
        self.push_simple(Value::undefined())
    }

    pub fn push_arguments(&mut self) -> (r: Result<(), RuntimeError>)
        requires
            old(self).wf(),
            old(self).state.pc < usize::MAX,
        ensures
            final(self).wf(),
            push_arguments_post(*old(self), *final(self), r),
    {
        self.push_simple(Value::arguments())
    }

    /// Pushes the `this` of the current scope record.
    pub fn push_this(&mut self) -> (r: Result<(), RuntimeError>)
        requires
            old(self).wf(),
            old(self).state.pc < usize::MAX,
        ensures
            final(self).wf(),
            push_this_post(*old(self), *final(self), r),
    {
        let s = self.top_scope();
        let this = self.heap.scopes[s].this.duplicate();
        self.push_simple(this)
    }

    /// Pushes constant `k` of the constant table.
    pub fn push_const(&mut self) -> (r: Result<(), RuntimeError>)
        requires
            old(self).wf(),
        ensures
            final(self).wf(),
            push_const_post(*old(self), *final(self), r),
    {
        let k = self.operand32()? as usize;
        if k >= self.const_table.value.len() {
            return Err(RuntimeError::Unknown);
        }
        let v = self.const_table.value[k].duplicate();
        self.state.stack.push(v);
        self.state.pc = self.state.pc + 5;
        Ok(())
    }

    /// Discards the top of the stack, if there is one.
    pub fn pop(&mut self) -> (r: Result<(), RuntimeError>)
        requires
            old(self).wf(),
            old(self).state.pc < usize::MAX,
        ensures
            final(self).wf(),
            pop_post(*old(self), *final(self), r),
    {
        self.state.stack.pop();
        self.state.pc = self.state.pc + 1;
        Ok(())
    }

    /// Pushes a copy of the top of the stack.
    pub fn double(&mut self) -> (r: Result<(), RuntimeError>)
        requires
            old(self).wf(),
            old(self).state.pc < usize::MAX,
        ensures
            final(self).wf(),
            double_post(*old(self), *final(self), r),
    {
        let n = self.state.stack.len();
        if n == 0 {
            return Err(RuntimeError::Unknown);
        }
        let v = self.state.stack[n - 1].duplicate();
        self.push_simple(v)
    }

    /// Replaces the top of the stack by its logical negation.
    pub fn lnot(&mut self) -> (r: Result<(), RuntimeError>)
        requires
            old(self).wf(),
            old(self).state.pc < usize::MAX,
        ensures
            final(self).wf(),
            lnot_post(*old(self), *final(self), r),
    {
        let n = self.state.stack.len();
        if n == 0 {
            return Err(RuntimeError::Unknown);
        }
        let top = self.state.stack.pop().unwrap();
        let b = top.to_boolean();
        self.state.stack.push(Value { val: ValueBase::Bool(!b), ..top });
        self.state.pc = self.state.pc + 1;
        Ok(())
    }

    /// Negates the number on top of the stack (flipping its sign bit).
    pub fn neg(&mut self) -> (r: Result<(), RuntimeError>)
        requires
            old(self).wf(),
            old(self).state.pc < usize::MAX,
        ensures
            final(self).wf(),
            neg_post(*old(self), *final(self), r),
    {
        let n = self.state.stack.len();
        if n == 0 {
            return Err(RuntimeError::Unknown);
        }
        match self.state.stack[n - 1].val {
            ValueBase::Number(b) => {
                let top = self.state.stack.pop().unwrap();
                self.state.stack.push(Value { val: ValueBase::Number(b ^ 0x8000_0000_0000_0000u64), ..top });
                self.state.pc = self.state.pc + 1;
                Ok(())
            },
            _ => Err(RuntimeError::Unimplemented),
        }
    }

    /// Jumps by the signed operand, measured from the end of the operand.
    pub fn jmp(&mut self) -> (r: Result<(), RuntimeError>)
        requires
            old(self).wf(),
        ensures
            final(self).wf(),
            jmp_post(*old(self), *final(self), r),
    {
        let _ = self.operand32()?;
        let code = &self.code[self.cur_func_id];
        let rel = read_i32(code, self.state.pc + 1);
        match jump_target(self.state.pc + 5, rel) {
            Some(t) => {
                self.state.pc = t;
                Ok(())
            },
            None => Err(RuntimeError::Unknown),
        }
    }

    /// Pops a condition; jumps by the operand if it is `false`, else moves on.
    pub fn jmp_if_false(&mut self) -> (r: Result<(), RuntimeError>)
        requires
            old(self).wf(),
        ensures
            final(self).wf(),
            jmp_if_false_post(*old(self), *final(self), r),
    {
        let _ = self.operand32()?;
        let n = self.state.stack.len();
        if n == 0 {
            return Err(RuntimeError::Unknown);
        }
        let code = &self.code[self.cur_func_id];
        let rel = read_i32(code, self.state.pc + 1);
        let jump = match self.state.stack[n - 1].val {
            ValueBase::Bool(b) => !b,
            _ => false,
        };
        if jump {
            match jump_target(self.state.pc + 5, rel) {
                Some(t) => {
                    self.state.stack.pop();
                    self.state.pc = t;
                    Ok(())
                },
                None => Err(RuntimeError::Unknown),
            }
        } else {
            self.state.stack.pop();
            self.state.pc = self.state.pc + 5;
            Ok(())
        }
    }
}

} // verus!

verus! {

/// A function or host function stored under a name takes the `this` of
/// the scope it is stored from; other values are stored as they are.
pub open spec fn rebound(v: Value, this: Value) -> Value {
    match v.val {
        ValueBase::Function(f) => Value {
            val: ValueBase::Function(
                Box::new(FunctionValue { id: f.id, obj: f.obj, callobj: f.callobj, this: this }),
            ),
            ..v
        },
        ValueBase::BuiltinFunction(b) => Value {
            val: ValueBase::BuiltinFunction(Box::new(BuiltinValue { id: b.id, obj: b.obj, this: this })),
            ..v
        },
        _ => v,
    }
}

fn rebind(v: Value, this: &Value) -> (r: Value)
    ensures
        r == rebound(v, *this),
{
    match v.val {
        ValueBase::Function(f) => Value {
            val: ValueBase::Function(
                Box::new(FunctionValue { id: f.id, obj: f.obj, callobj: f.callobj, this: this.duplicate() }),
            ),
            ..v
        },
        ValueBase::BuiltinFunction(b) => Value {
            val: ValueBase::BuiltinFunction(
                Box::new(BuiltinValue { id: b.id, obj: b.obj, this: this.duplicate() }),
            ),
            ..v
        },
        _ => v,
    }
}

pub fn copy_values(v: &Vec<Value>) -> (r: Vec<Value>)
    ensures
        r@ == v@,
{
    let mut r: Vec<Value> = Vec::new();
    let mut i: usize = 0;
    while i < v.len()
        invariant
            i <= v@.len(),
            r@ == v@.subrange(0, i as int),
        decreases v@.len() - i,
    {
        r.push(v[i].duplicate());
        i = i + 1;
        assert(r@ =~= v@.subrange(0, i as int));
    }
    assert(v@.subrange(0, v@.len() as int) =~= v@);
    r
}

pub fn copy_params(v: &Vec<(String, bool)>) -> (r: Vec<(String, bool)>)
    ensures
        r@ == v@,
{
    let mut r: Vec<(String, bool)> = Vec::new();
    let mut i: usize = 0;
    while i < v.len()
        invariant
            i <= v@.len(),
            r@ == v@.subrange(0, i as int),
        decreases v@.len() - i,
    {
        r.push((v[i].0.clone(), v[i].1));
        i = i + 1;
        assert(r@ =~= v@.subrange(0, i as int));
    }
    assert(v@.subrange(0, v@.len() as int) =~= v@);
    r
}

impl VM {
    /// The interned name that the current instruction's operand designates.
    pub open spec fn operand_name(&self) -> Seq<char> {
        self.const_table.string@[self.operand()]@
    }

    pub open spec fn has_name_operand(&self) -> bool {
        &&& self.state.pc + 5 <= self.body().len()
        &&& self.operand() < self.const_table.string@.len()
    }

    fn name_operand(&self) -> (r: Result<String, RuntimeError>)
        requires
            self.wf(),
        ensures
            r is Ok <==> self.has_name_operand(),
            r matches Ok(n) ==> n@ == self.operand_name(),
            self.body().len() <= usize::MAX,
    {
        let k = self.operand32()? as usize;
        if k >= self.const_table.string.len() {
            return Err(RuntimeError::Unknown);
        }
        Ok(self.const_table.string[k].clone())
    }

    /// Pushes the value bound to the operand's name along the scope chain.
    pub fn get_name(&mut self) -> (r: Result<(), RuntimeError>)
        requires
            old(self).wf(),
        ensures
            final(self).wf(),
            get_name_post(*old(self), *final(self), r),
    {
        let name = self.name_operand()?;
        let s = self.top_scope();
        let v = self.heap.get_value(s, &name)?;
        self.state.stack.push(v);
        self.state.pc = self.state.pc + 5;
        Ok(())
    }

    /// Pops a value and binds the operand's name to it in the current record.
    pub fn decl_var(&mut self) -> (r: Result<(), RuntimeError>)
        requires
            old(self).wf(),
        ensures
            final(self).wf(),
            decl_var_post(*old(self), *final(self), r),
    {
        let name = self.name_operand()?;
        if self.state.stack.len() == 0 {
            return Err(RuntimeError::Unknown);
        }
        let s = self.top_scope();
        let v = self.state.stack.pop().unwrap();
        let v = rebind(v, &self.heap.scopes[s].this);
        self.heap.set_value(s, name, v);
        self.state.pc = self.state.pc + 5;
        proof {
            assert forall|i: int| 0 <= i < self.state.scope@.len() implies #[trigger] self.state.scope@[i] < self.heap.scopes@.len() by {
                assert(old(self).state.scope@[i] < old(self).heap.scopes@.len());
            }
        }
        Ok(())
    }

    /// Pops a value and assigns it to the operand's name where the scope
    /// chain binds it (or at the root record where nothing does).
    pub fn set_name(&mut self) -> (r: Result<(), RuntimeError>)
        requires
            old(self).wf(),
        ensures
            final(self).wf(),
            set_name_post(*old(self), *final(self), r),
    {
        let name = self.name_operand()?;
        if self.state.stack.len() == 0 {
            return Err(RuntimeError::Unknown);
        }
        let s = self.top_scope();
        let v = self.state.stack.pop().unwrap();
        let v = rebind(v, &self.heap.scopes[s].this);
        self.heap.set_value_if_exist(s, name, v);
        self.state.pc = self.state.pc + 5;
        proof {
            assert forall|i: int| 0 <= i < self.state.scope@.len() implies #[trigger] self.state.scope@[i] < self.heap.scopes@.len() by {
                assert(old(self).state.scope@[i] < old(self).heap.scopes@.len());
            }
        }
        Ok(())
    }
}

} // verus!

verus! {

impl VM {
    proof fn lemma_scopes_grow(&self, old_vm: VM)
        requires
            old_vm.wf(),
            self.heap.wf(),
            self.jit == old_vm.jit,
            self.state.scope == old_vm.state.scope,
            self.state.history == old_vm.state.history,
            self.cur_func_id == old_vm.cur_func_id,
            self.code == old_vm.code,
            self.array_prototype == old_vm.array_prototype,
            self.heap.scopes@.len() >= old_vm.heap.scopes@.len(),
            self.heap.arrays@.len() >= old_vm.heap.arrays@.len(),
        ensures
            self.wf(),
    {
        assert forall|i: int| 0 <= i < self.state.scope@.len() implies #[trigger] self.state.scope@[i] < self.heap.scopes@.len() by {
            assert(old_vm.state.scope@[i] < old_vm.heap.scopes@.len());
        }
        assert forall|i: int| 0 <= i < self.state.history@.len() implies #[trigger] self.state.history@[i].func_id < self.code@.len() by {
            assert(old_vm.state.history@[i].func_id < old_vm.code@.len());
        }
    }

    /// Gives the function on top of the stack its own scope record template
    /// whose parent is the current record, so that it sees the variables
    /// of the scope it was created in.
    pub fn set_cur_callobj(&mut self) -> (r: Result<(), RuntimeError>)
        requires
            old(self).wf(),
            old(self).state.pc < usize::MAX,
        ensures
            final(self).wf(),
            set_cur_callobj_post(*old(self), *final(self), r),
    {
        let n = self.state.stack.len();
        let is_fn = n > 0 && match &self.state.stack[n - 1].val {
            ValueBase::Function(f) => f.callobj < self.heap.scopes.len(),
            _ => false,
        };
        if is_fn {
            let s = self.top_scope();
            let top = self.state.stack.pop().unwrap();
            let f = match top.val {
                ValueBase::Function(f) => f,
                _ => { proof { assert(false); } return Err(RuntimeError::Unknown); },
            };
            let t = &self.heap.scopes[f.callobj];
            let c = CallObject {
                vals: t.vals,
                params: copy_params(&t.params),
                arg_rest_vals: copy_values(&t.arg_rest_vals),
                argc: t.argc,
                this: t.this.duplicate(),
                parent: Some(s),
            };
            proof {
                assert(self.heap.scopes@[f.callobj as int].vals < self.heap.maps@.len());
            }
            let ghost pre = *self;
            let idx = self.heap.alloc_scope(c);
            let FunctionValue { id, obj, callobj: _, this } = *f;
            self.state.stack.push(Value { val: ValueBase::Function(Box::new(FunctionValue { id, obj, callobj: idx, this })), ..top });
            proof {
                self.lemma_scopes_grow(pre);
                assert(self.heap.scopes@.drop_last() =~= old(self).heap.scopes@);
            }
        }
        self.state.pc = self.state.pc + 1;
        Ok(())
    }

    /// Pops a key and an object, and pushes the object's property.
    pub fn get_member(&mut self) -> (r: Result<(), RuntimeError>)
        requires
            old(self).wf(),
            old(self).state.pc < usize::MAX,
        ensures
            final(self).wf(),
            get_member_post(*old(self), *final(self), r),
    {
        if self.state.stack.len() < 2 {
            return Err(RuntimeError::Unknown);
        }
        let s = self.top_scope();
        let member = self.state.stack.pop().unwrap();
        let parent = self.state.stack.pop().unwrap();
        let v = parent.get_property(&self.heap, &member.val, s);
        self.state.stack.push(v);
        self.state.pc = self.state.pc + 1;
        proof {
            let n = old(self).state.stack@.len();
            assert(self.state.stack@.subrange(0, n - 2) =~= old(self).state.stack@.subrange(0, n - 2));
        }
        Ok(())
    }

    /// Pops a key, an object and a value, and writes the value to the
    /// object's property (see `Heap::set_property`).
    pub fn set_member(&mut self) -> (r: Result<(), RuntimeError>)
        requires
            old(self).wf(),
            old(self).state.pc < usize::MAX,
        ensures
            final(self).wf(),
            set_member_post(*old(self), *final(self), r),
    {
        if self.state.stack.len() < 3 {
            return Err(RuntimeError::Unknown);
        }
        let s = self.top_scope();
        let member = self.state.stack.pop().unwrap();
        let parent = self.state.stack.pop().unwrap();
        let val = self.state.stack.pop().unwrap();
        let ghost pre = *self;
        self.heap.set_property(&parent, &member.val, val, s);
        self.state.pc = self.state.pc + 1;
        proof {
            let n = old(self).state.stack@.len();
            assert(self.state.stack@ =~= old(self).state.stack@.subrange(0, n - 3));
            self.lemma_scopes_grow(pre);
        }
        Ok(())
    }
}

} // verus!

verus! {

/// What an object literal built from the top `i` name/value pairs of `s`
/// holds under `k`: pairs are taken from the top, name first, and a later
/// pair with the same name wins.
pub open spec fn literal_lookup(s: Seq<Value>, i: nat, k: Seq<char>) -> Option<Value>
    decreases i,
{
    if i == 0 {
        None
    } else {
        let j = (i - 1) as nat;
        let nm = s[s.len() - 1 - 2 * j];
        if nm.val is String && nm.val->String_0@ == k {
            Some(s[s.len() - 2 - 2 * j])
        } else {
            literal_lookup(s, j, k)
        }
    }
}

/// The names of the top `n` pairs of `s` are all strings.
pub open spec fn literal_names_ok(s: Seq<Value>, n: nat) -> bool {
    forall|j: int| 0 <= j < n ==> (#[trigger] s[s.len() - 1 - 2 * j]).val is String
}

impl VM {
    /// Pops `n` name/value pairs and pushes a new object holding them.
    pub fn create_object(&mut self) -> (r: Result<(), RuntimeError>)
        requires
            old(self).wf(),
        ensures
            final(self).wf(),
            create_object_post(*old(self), *final(self), r),
    {
        let n = self.operand32()? as usize;
        let ghost s = self.state.stack@;
        if n > self.state.stack.len() / 2 {
            return Err(RuntimeError::Unknown);
        }
        let mut map = PropertyMap::new();
        let mut i: usize = 0;
        while i < n
            invariant
                self.wf(),
                *self == (VM { state: VMState { stack: self.state.stack, ..old(self).state }, ..*old(self) }),
                i <= n,
                2 * n <= s.len(),
                s == old(self).state.stack@,
                n == old(self).operand(),
                self.state.stack@ == s.subrange(0, s.len() - 2 * i),
                map.wf(),
                forall|k: Seq<char>| #[trigger] map.lookup(k) == literal_lookup(s, i as nat, k),
                forall|j: int| 0 <= j < i ==> (#[trigger] s[s.len() - 1 - 2 * j]).val is String,
            decreases n - i,
        {
            let nm = self.state.stack.pop().unwrap();
            let v = self.state.stack.pop().unwrap();
            proof {
                assert(nm == s[s.len() - 1 - 2 * i]);
                assert(v == s[s.len() - 2 - 2 * i]);
            }
            match nm.val {
                ValueBase::String(name) => {
                    let ghost key = name@;
                    map.insert(name, v);
                    proof {
                        assert forall|k: Seq<char>| #[trigger] map.lookup(k) == literal_lookup(s, (i + 1) as nat, k) by {
                            if k != key {
                                assert(literal_lookup(s, (i + 1) as nat, k) == literal_lookup(s, i as nat, k));
                            }
                        }
                    }
                },
                _ => return Err(RuntimeError::Unknown),
            }
            i = i + 1;
            proof {
                assert(self.state.stack@ =~= s.subrange(0, s.len() - 2 * i));
            }
        }
        let ghost pre = *self;
        let m = self.heap.alloc_map(map);
        self.state.stack.push(Value::object(m));
        self.state.pc = self.state.pc + 5;
        proof {
            self.lemma_scopes_grow(pre);
            assert(self.heap.maps@.drop_last() =~= old(self).heap.maps@);
        }
        Ok(())
    }

    /// Pops `n` values and pushes a new array of them, the top one first.
    pub fn create_array(&mut self) -> (r: Result<(), RuntimeError>)
        requires
            old(self).wf(),
        ensures
            final(self).wf(),
            create_array_post(*old(self), *final(self), r),
    {
        let n = self.operand32()? as usize;
        if n > self.state.stack.len() {
            return Err(RuntimeError::Unknown);
        }
        let ghost s = self.state.stack@;
        let mut arr: Vec<Value> = Vec::new();
        let mut i: usize = 0;
        while i < n
            invariant
                self.wf(),
                *self == (VM { state: VMState { stack: self.state.stack, ..old(self).state }, ..*old(self) }),
                i <= n <= s.len(),
                s == old(self).state.stack@,
                n == old(self).operand(),
                self.state.stack@ == s.subrange(0, s.len() - i),
                arr@.len() == i,
                forall|j: int| 0 <= j < i ==> #[trigger] arr@[j] == s[s.len() - 1 - j],
            decreases n - i,
        {
            let v = self.state.stack.pop().unwrap();
            arr.push(v);
            i = i + 1;
            proof {
                assert(self.state.stack@ =~= s.subrange(0, s.len() - i));
            }
        }
        let ghost pre = *self;
        let ary = ArrayValue::new(arr, self.array_prototype);
        let a = self.heap.alloc_array(ary);
        self.state.stack.push(Value::array(a));
        self.state.pc = self.state.pc + 5;
        proof {
            self.lemma_scopes_grow(pre);
            assert(self.heap.arrays@.drop_last() =~= old(self).heap.arrays@);
        }
        Ok(())
    }
}

} // verus!

verus! {

/// The position of the first rest formal from `i` on, or the number of
/// formals if there is none.
pub open spec fn first_rest(params: Seq<(String, bool)>, i: nat) -> nat
    decreases params.len() - i,
{
    if i >= params.len() {
        params.len()
    } else if params[i as int].1 {
        i
    } else {
        first_rest(params, i + 1)
    }
}

/// The value bound to `k` once the first `i` formals are bound to the
/// first `i` arguments in order (a later formal of the same name wins).
pub open spec fn bound_upto(params: Seq<(String, bool)>, args: Seq<Value>, i: nat, k: Seq<char>) -> Option<Value>
    decreases i,
{
    if i == 0 {
        None
    } else if params[i - 1].0@ == k {
        Some(args[i - 1])
    } else {
        bound_upto(params, args, (i - 1) as nat, k)
    }
}

/// The bindings of a call's new scope record: the formals before the first
/// rest formal are bound to the arguments in order, as far as there are
/// arguments; the rest formal, if any, to `rest_array`.
pub open spec fn call_binding(params: Seq<(String, bool)>, args: Seq<Value>, rest_array: Value, k: Seq<char>) -> Option<Value> {
    let r = first_rest(params, 0);
    if r < params.len() && params[r as int].0@ == k {
        Some(rest_array)
    } else {
        bound_upto(params, args, if args.len() < r { args.len() } else { r }, k)
    }
}

/// The arguments from position `r` on (none if there are fewer).
pub open spec fn args_from(args: Seq<Value>, r: nat) -> Seq<Value> {
    if args.len() > r {
        args.subrange(r as int, args.len() as int)
    } else {
        Seq::empty()
    }
}

proof fn lemma_first_rest(params: Seq<(String, bool)>, i: nat, r: nat)
    requires
        i <= r <= params.len(),
        forall|j: int| i <= j < r ==> !(#[trigger] params[j]).1,
        r == params.len() || params[r as int].1,
    ensures
        first_rest(params, i) == r,
    decreases r - i,
{
    if i < r {
        lemma_first_rest(params, i + 1, r);
    }
}

impl Heap {
    /// Allocates the scope record of a call: a copy of `template` with
    /// fresh bindings, `this`, the count of arguments passed, and the
    /// arguments bound to the formals (see `call_binding`). A rest formal
    /// receives a new array of the arguments from its position on; without
    /// one, arguments beyond the formals are kept for `arguments`.
    pub fn enter_scope(&mut self, template: usize, args: &Vec<Value>, this: Value, array_prototype: usize) -> (r: usize)
        requires
            old(self).wf(),
            template < old(self).scopes@.len(),
            args@.len() <= u32::MAX,
        ensures
            final(self).wf(),
            r == old(self).scopes@.len(),
            final(self).scopes@.len() == r + 1,
            final(self).scopes@.drop_last() == old(self).scopes@,
            final(self).maps@.len() == old(self).maps@.len() + 1,
            final(self).maps@.drop_last() == old(self).maps@,
            final(self).arrays@.len() >= old(self).arrays@.len(),
            ({
                let t = old(self).scopes@[template as int];
                let c = final(self).scopes@[r as int];
                let ri = first_rest(t.params@, 0);
                let a = old(self).arrays@.len();
                &&& c.params@ == t.params@
                &&& c.parent == t.parent
                &&& c.this == this
                &&& c.argc == args@.len()
                &&& c.vals == old(self).maps@.len()
                &&& forall|k: Seq<char>| #[trigger] final(self).maps@[c.vals as int].lookup(k)
                    == call_binding(t.params@, args@, Value::plain(ValueBase::Array(a as usize)), k)
                &&& (ri < t.params@.len() ==> {
                    &&& final(self).arrays@.len() == a + 1
                    &&& final(self).arrays@.drop_last() == old(self).arrays@
                    &&& final(self).arrays@[a as int].elems@ == args_from(args@, ri)
                    &&& final(self).arrays@[a as int].length == args_from(args@, ri).len()
                    &&& final(self).arrays@[a as int].obj.lookup("__proto__"@) == Some(Value::plain(ValueBase::Array(array_prototype)))
                    &&& c.arg_rest_vals@ == t.arg_rest_vals@
                })
                &&& (ri == t.params@.len() ==> {
                    &&& final(self).arrays@ == old(self).arrays@
                    &&& c.arg_rest_vals@ == t.arg_rest_vals@ + args_from(args@, t.params@.len())
                })
            }),
    {
        let vals = self.alloc_map(PropertyMap::new());
        let params = copy_params(&self.scopes[template].params);
        let rest0 = copy_values(&self.scopes[template].arg_rest_vals);
        let parent = self.scopes[template].parent;
        proof {
            assert(old(self).scopes@[template as int].vals < old(self).maps@.len());
        }
        let idx = self.alloc_scope(CallObject { vals, params, arg_rest_vals: rest0, argc: args.len(), this, parent });
        let ghost t = old(self).scopes@[template as int];
        let ghost base = *self;
        assert(base.scopes@.drop_last() =~= old(self).scopes@);
        assert(base.maps@.drop_last() =~= old(self).maps@);
        let np = self.scopes[idx].params.len();
        let mut ri: usize = 0;
        while ri < np && !self.scopes[idx].params[ri].1
            invariant
                *self == base,
                np == t.params@.len(),
                self.scopes@[idx as int].params@ == t.params@,
                idx < self.scopes@.len(),
                ri <= np,
                forall|j: int| 0 <= j < ri ==> !(#[trigger] t.params@[j]).1,
            decreases np - ri,
        {
            ri = ri + 1;
        }
        proof {
            lemma_first_rest(t.params@, 0, ri as nat);
        }
        let nb = if args.len() < ri { args.len() } else { ri };
        let m = vals;
        let mut i: usize = 0;
        while i < nb
            invariant
                self.wf(),
                idx == old(self).scopes@.len(),
                m == old(self).maps@.len(),
                self.scopes@ == base.scopes@,
                self.scopes@.len() == idx + 1,
                base.scopes@.drop_last() == old(self).scopes@,
                self.scopes@[idx as int].params@ == t.params@,
                self.scopes@[idx as int].vals == m,
                np == t.params@.len(),
                nb <= ri <= np,
                nb <= args@.len(),
                self.maps@.len() == m + 1,
                self.maps@.drop_last() == old(self).maps@,
                self.arrays@ == old(self).arrays@,
                i <= nb,
                forall|k: Seq<char>| #[trigger] self.maps@[m as int].lookup(k) == bound_upto(t.params@, args@, i as nat, k),
            decreases nb - i,
        {
            let ghost pre = *self;
            let name = self.scopes[idx].params[i].0.clone();
            let ghost key = name@;
            self.set_value(idx, name, args[i].duplicate());
            proof {
                assert(self.maps@.drop_last() =~= old(self).maps@);
                assert forall|k: Seq<char>| #[trigger] self.maps@[m as int].lookup(k) == bound_upto(t.params@, args@, (i + 1) as nat, k) by {
                    if k != key {
                        assert(pre.maps@[m as int].lookup(k) == bound_upto(t.params@, args@, i as nat, k));
                    }
                }
            }
            i = i + 1;
        }
        if ri < np {
            let mut rest: Vec<Value> = Vec::new();
            let mut k: usize = ri;
            while k < args.len()
                invariant
                    ri <= k <= args@.len() || (k == ri && args@.len() < ri),
                    ri <= k,
                    k >= args@.len() ==> true,
                    rest@ == if k > ri { args@.subrange(ri as int, k as int) } else { Seq::<Value>::empty() },
                decreases args@.len() - k,
            {
                rest.push(args[k].duplicate());
                k = k + 1;
                proof {
                    assert(rest@ =~= args@.subrange(ri as int, k as int));
                }
            }
            proof {
                if args@.len() > ri {
                    assert(k == args@.len());
                } else {
                    assert(rest@ =~= args_from(args@, ri as nat));
                }
            }
            let ghost pre = *self;
            let ary = ArrayValue::new(rest, array_prototype);
            let a = self.alloc_array(ary);
            let name = self.scopes[idx].params[ri].0.clone();
            let ghost key = name@;
            let ghost pre2 = *self;
            self.set_value(idx, name, Value::array(a));
            proof {
                assert(self.maps@.drop_last() =~= old(self).maps@);
                assert(self.arrays@.drop_last() =~= old(self).arrays@);
                assert forall|kk: Seq<char>| #[trigger] self.maps@[m as int].lookup(kk)
                    == call_binding(t.params@, args@, Value::plain(ValueBase::Array(a)), kk) by {
                    if kk != key {
                        assert(pre2.maps@[m as int].lookup(kk) == bound_upto(t.params@, args@, nb as nat, kk));
                    }
                }
            }
        } else {
            let ghost pre = *self;
            let ghost start = self.scopes@[idx as int].arg_rest_vals@;
            let mut k: usize = np;
            while k < args.len()
                invariant
                    self.wf(),
                    idx < self.scopes@.len(),
                    self.scopes@.len() == pre.scopes@.len(),
                    pre.scopes@.drop_last() == old(self).scopes@,
                    self.maps@ == pre.maps@,
                    self.arrays@ == pre.arrays@,
                    np <= k,
                    k <= args@.len() || k == np,
                    forall|j: int| 0 <= j < self.scopes@.len() && j != idx ==> self.scopes@[j] == pre.scopes@[j],
                    self.scopes@[idx as int].params == pre.scopes@[idx as int].params,
                    self.scopes@[idx as int].vals == pre.scopes@[idx as int].vals,
                    self.scopes@[idx as int].parent == pre.scopes@[idx as int].parent,
                    self.scopes@[idx as int].this == pre.scopes@[idx as int].this,
                    self.scopes@[idx as int].argc == pre.scopes@[idx as int].argc,
                    self.scopes@[idx as int].arg_rest_vals@ == start + if k > np { args@.subrange(np as int, k as int) } else { Seq::<Value>::empty() },
                decreases args@.len() - k,
            {
                let v = args[k].duplicate();
                self.scopes[idx].arg_rest_vals.push(v);
                k = k + 1;
                proof {
                    assert(self.scopes@[idx as int].arg_rest_vals@ =~= start + args@.subrange(np as int, k as int));
                }
            }
            proof {
                assert(self.scopes@.drop_last() =~= old(self).scopes@);
                if args@.len() <= np {
                    assert(start + Seq::<Value>::empty() =~= start);
                }
                assert forall|kk: Seq<char>| #[trigger] self.maps@[m as int].lookup(kk)
                    == call_binding(t.params@, args@, Value::plain(ValueBase::Array(old(self).arrays@.len() as usize)), kk) by {
                    assert(pre.maps@[m as int].lookup(kk) == bound_upto(t.params@, args@, nb as nat, kk));
                }
            }
        }
        idx
    }
}

} // verus!

verus! {

/// A user function `f` has been entered from `pre` (whose heap was `hb`
/// and whose operand stack, once the callee and arguments were popped, was
/// `sp`): a frame recording where the caller resumes, a new scope record
/// made from `f`'s template with `this`, the count of arguments and their
/// bindings (see `Heap::enter_scope`), and `f`'s body from its start.
pub open spec fn entered_function(
    pre: VM,
    scopes0: Seq<CallObject>,
    maps0: Seq<PropertyMap>,
    arrays0: Seq<crate::heap::ArrayValue>,
    sp: Seq<Value>,
    post: VM,
    f: FunctionValue,
    args: Seq<Value>,
    this: Value,
    constructed: Option<usize>,
) -> bool {
    let t = scopes0[f.callobj as int];
    let n = scopes0.len();
    let c = post.heap.scopes@[n as int];
    let ri = first_rest(t.params@, 0);
    let a = arrays0.len();
    &&& post.state.stack@ == sp
    &&& post.state.history@ == pre.state.history@.push(Frame {
        sp: sp.len() as usize,
        return_pc: (pre.state.pc + 5) as usize,
        func_id: pre.cur_func_id,
        callee: f.id,
        constructed,
    })
    &&& post.state.scope@ == pre.state.scope@.push(n as usize)
    &&& post.state.pc == 0
    &&& post.cur_func_id == f.id
    &&& post.code == pre.code
    &&& post.const_table == pre.const_table
    &&& post.array_prototype == pre.array_prototype
    &&& post.heap.scopes@.len() == n + 1
    &&& post.heap.scopes@.drop_last() == scopes0
    &&& post.heap.maps@.len() == maps0.len() + 1
    &&& post.heap.maps@.drop_last() == maps0
    &&& c.params@ == t.params@
    &&& c.parent == t.parent
    &&& c.this == this
    &&& c.argc == args.len()
    &&& c.vals == maps0.len()
    &&& forall|k: Seq<char>| #[trigger] post.heap.maps@[c.vals as int].lookup(k)
        == call_binding(t.params@, args, Value::plain(ValueBase::Array(a as usize)), k)
    &&& (ri < t.params@.len() ==> {
        &&& post.heap.arrays@.len() == a + 1
        &&& post.heap.arrays@.drop_last() == arrays0
        &&& post.heap.arrays@[a as int].elems@ == args_from(args, ri)
        &&& c.arg_rest_vals@ == t.arg_rest_vals@
    })
    &&& (ri == t.params@.len() ==> {
        &&& post.heap.arrays@ == arrays0
        &&& c.arg_rest_vals@ == t.arg_rest_vals@ + args_from(args, t.params@.len())
    })
}

/// A call has entered its callee: one frame more, recording the stack
/// height left once the callee and its `argc` arguments are popped.
pub open spec fn entered(pre: VM, argc: nat, post: VM) -> bool {
    &&& pre.state.stack@.len() >= argc + 1
    &&& post.state.history@.len() == pre.state.history@.len() + 1
    &&& post.state.history@.drop_last() == pre.state.history@
    &&& post.state.history@.last().sp == pre.state.stack@.len() - (argc + 1)
    &&& post.state.stack@ == pre.state.stack@.subrange(0, pre.state.stack@.len() - (argc + 1))
    &&& post.state.pc == 0
}

/// A return has left its frame: the stack is cut back to the frame's
/// height, plus the returned value.
pub open spec fn returned(pre: VM, post: VM) -> bool {
    &&& pre.state.history@.len() >= 1
    &&& post.state.history@ == pre.state.history@.drop_last()
    &&& post.state.stack@.len() == pre.state.history@.last().sp + 1
    &&& post.state.stack@.subrange(0, pre.state.history@.last().sp as int) == pre.state.stack@.subrange(0, pre.state.history@.last().sp as int)
    &&& post.state.pc == pre.state.history@.last().return_pc
}

/// After a call with `argc` arguments and the matching return, the operand
/// stack is as high as before the call, less the callee and its arguments,
/// plus the returned value: whatever the callee did in between, provided it
/// left the frames as it found them.
pub proof fn lemma_call_return_height(before: VM, argc: nat, in_callee: VM, at_return: VM, after: VM)
    requires
        entered(before, argc, in_callee),
        at_return.state.history@ == in_callee.state.history@,
        returned(at_return, after),
    ensures
        after.state.stack@.len() == before.state.stack@.len() - (argc + 1) + 1,
        after.state.history@ == before.state.history@,
{
}

/// The arguments of a call, the first (the top of the stack below the
/// callee) first.
pub open spec fn popped_args(s: Seq<Value>, argc: nat) -> Seq<Value> {
    Seq::new(argc, |i: int| s[s.len() - 2 - i])
}

/// The operand stack below the callee and its arguments.
pub open spec fn below_call(s: Seq<Value>, argc: nat) -> Seq<Value> {
    s.subrange(0, s.len() - (argc + 1))
}

pub open spec fn all_numbers_spec(args: Seq<Value>) -> bool {
    forall|i: int| 0 <= i < args.len() ==> (#[trigger] args[i]).val is Number
}

/// What an entry to a site decides (see `entered_site`).
pub open spec fn entry_decision(j: TracingJit, f: FuncId, p: usize, threshold: nat, eligible: bool) -> JitDecision {
    if j.count(f, p) < threshold || j.dead(f, p) {
        JitDecision::Interpret
    } else if j.native(f, p) {
        JitDecision::RunNative
    } else if eligible {
        JitDecision::Compile
    } else {
        JitDecision::Interpret
    }
}

/// The call was handed to the host: the callee and its arguments are
/// popped, the position is past the instruction, and the frames, scopes,
/// heap and running body are as before.
pub open spec fn left_to_host(pre: VM, post: VM, argc: nat) -> bool {
    &&& post.state.stack@ == below_call(pre.state.stack@, argc)
    &&& post.state.pc == pre.state.pc + 5
    &&& post.state.history == pre.state.history
    &&& post.state.scope == pre.state.scope
    &&& post.heap == pre.heap
    &&& post.cur_func_id == pre.cur_func_id
    &&& post.code == pre.code
    &&& post.const_table == pre.const_table
    &&& post.array_prototype == pre.array_prototype
}

/// Entering a function after popping the callee and `argc` arguments is a
/// call entry in the sense of `entered`.
pub proof fn lemma_entered_function_is_entry(
    pre: VM,
    scopes0: Seq<CallObject>,
    maps0: Seq<PropertyMap>,
    arrays0: Seq<crate::heap::ArrayValue>,
    argc: nat,
    post: VM,
    f: FunctionValue,
    args: Seq<Value>,
    this: Value,
    constructed: Option<usize>,
)
    requires
        pre.state.stack@.len() >= argc + 1,
        pre.state.stack@.len() <= usize::MAX,
        entered_function(pre, scopes0, maps0, arrays0, below_call(pre.state.stack@, argc), post, f, args, this, constructed),
    ensures
        entered(pre, argc, post),
{
    assert(below_call(pre.state.stack@, argc).len() == pre.state.stack@.len() - (argc + 1));
    assert(post.state.history@.drop_last() =~= pre.state.history@);
}

/// A call handed to the host (a builtin or native code) leaves the operand
/// stack as high as before the call, less the callee and its `argc`
/// arguments, plus the one result the host pushes.
pub proof fn lemma_host_call_height(before: VM, argc: nat, handed: VM, result: Value, after: VM)
    requires
        before.state.stack@.len() >= argc + 1,
        left_to_host(before, handed, argc),
        after.state.stack@ == handed.state.stack@.push(result),
    ensures
        after.state.stack@.len() == before.state.stack@.len() - (argc + 1) + 1,
        after.state.stack@.last() == result,
{
}

pub open spec fn is_callable_object(v: ValueBase) -> bool {
    v is Object || v is Array || v is Function || v is BuiltinFunction
}

fn all_numbers(args: &Vec<Value>) -> (r: bool)
    ensures
        r == forall|i: int| 0 <= i < args@.len() ==> (#[trigger] args@[i]).val is Number,
{
    let mut i: usize = 0;
    while i < args.len()
        invariant
            i <= args@.len(),
            forall|j: int| 0 <= j < i ==> (#[trigger] args@[j]).val is Number,
        decreases args@.len() - i,
    {
        match args[i].val {
            ValueBase::Number(_) => {},
            _ => return false,
        }
        i = i + 1;
    }
    true
}

fn type_error(what: &str) -> (r: RuntimeError)
    ensures
        r matches RuntimeError::Type(m) && m@ == what@,
{
    RuntimeError::Type(String::from_str(what))
}

impl VM {
    /// Pops the callee and `argc` arguments (the top one first).
    fn pop_call(&mut self, argc: usize) -> (r: (Value, Vec<Value>))
        requires
            old(self).wf(),
            old(self).state.stack@.len() >= argc + 1,
        ensures
            final(self).wf(),
            final(self).same_but_stack(*old(self)),
            final(self).state.pc == old(self).state.pc,
            final(self).state.stack@ == old(self).state.stack@.subrange(0, old(self).state.stack@.len() - (argc + 1)),
            r.0 == old(self).state.stack@.last(),
            r.1@ == popped_args(old(self).state.stack@, argc as nat),
    {
        let ghost s = self.state.stack@;
        let callee = self.state.stack.pop().unwrap();
        let mut args: Vec<Value> = Vec::new();
        let mut i: usize = 0;
        while i < argc
            invariant
                self.wf(),
                *self == (VM { state: VMState { stack: self.state.stack, ..old(self).state }, ..*old(self) }),
                s == old(self).state.stack@,
                s.len() >= argc + 1,
                i <= argc,
                self.state.stack@ == s.subrange(0, s.len() - 1 - i),
                args@.len() == i,
                forall|j: int| 0 <= j < i ==> #[trigger] args@[j] == s[s.len() - 2 - j],
            decreases argc - i,
        {
            let v = self.state.stack.pop().unwrap();
            args.push(v);
            i = i + 1;
            proof {
                assert(self.state.stack@ =~= s.subrange(0, s.len() - 1 - i));
            }
        }
        assert(args@ =~= popped_args(s, argc as nat));
        (callee, args)
    }

    /// Enters a user function: a new scope record bound to the arguments,
    /// a new frame, and the callee's body from its start.
    fn enter_function(&mut self, f: &FunctionValue, args: &Vec<Value>, this: Value, constructed: Option<usize>)
        requires
            old(self).wf(),
            f.id < old(self).code@.len(),
            f.callobj < old(self).heap.scopes@.len(),
            args@.len() <= u32::MAX,
            old(self).state.pc + 5 <= usize::MAX,
        ensures
            final(self).wf(),
            final(self).jit == old(self).jit,
            entered_function(
                *old(self),
                old(self).heap.scopes@,
                old(self).heap.maps@,
                old(self).heap.arrays@,
                old(self).state.stack@,
                *final(self),
                *f,
                args@,
                this,
                constructed,
            ),
    {
        let ghost pre = *self;
        let idx = self.heap.enter_scope(f.callobj, args, this, self.array_prototype);
        self.state.scope.push(idx);
        let sp = self.state.stack.len();
        self.state.history.push(Frame { sp, return_pc: self.state.pc + 5, func_id: self.cur_func_id, callee: f.id, constructed });
        self.state.pc = 0;
        self.cur_func_id = f.id;
        proof {
            assert(self.state.history@.drop_last() =~= pre.state.history@);
            assert forall|i: int| 0 <= i < self.state.scope@.len() implies #[trigger] self.state.scope@[i] < self.heap.scopes@.len() by {
                if i < pre.state.scope@.len() {
                    assert(pre.state.scope@[i] < pre.heap.scopes@.len());
                }
            }
            assert forall|i: int| 0 <= i < self.state.history@.len() implies #[trigger] self.state.history@[i].func_id < self.code@.len() by {
                if i < pre.state.history@.len() {
                    assert(pre.state.history@[i].func_id < pre.code@.len());
                }
            }
        }
    }

    /// Calls the value under the `argc` arguments on the stack: a host
    /// function is handed to the host; a user function is entered, or run
    /// natively where the JIT has compiled it for all-number arguments.
    pub fn call(&mut self) -> (r: Result<Action, RuntimeError>)
        requires
            old(self).wf(),
        ensures
            final(self).wf(),
            call_post(*old(self), *final(self), r),
    {
        let argc = self.operand32()? as usize;
        if self.state.stack.len() <= argc {
            return Err(RuntimeError::Unknown);
        }
        let ghost pre = *self;
        let (callee, args) = self.pop_call(argc);
        match callee.val {
            ValueBase::BuiltinFunction(b) => {
                self.state.pc = self.state.pc + 5;
                Ok(Action::CallBuiltin { builtin: b.id, this: b.this, args })
            },
            ValueBase::Function(f) => {
                if f.id >= self.code.len() || f.callobj >= self.heap.scopes.len() {
                    return Err(RuntimeError::Unknown);
                }
                let decision = if all_numbers(&args) {
                    self.jit.can_jit(f.id, argc)
                } else {
                    JitDecision::Interpret
                };
                proof {
                    if all_numbers_spec(args@) {
                        assert(decision == entry_decision(pre.jit, f.id, 0, FUNC_THRESHOLD as nat, argc <= MAX_FUNCTION_PARAMS));
                    }
                }
                match decision {
                    JitDecision::RunNative => {
                        self.state.pc = self.state.pc + 5;
                        Ok(Action::NativeCall { id: f.id, args })
                    },
                    JitDecision::Compile => {
                        let id = f.id;
                        let this = f.this.duplicate();
                        self.enter_function(&f, &args, this, None);
                        proof {
                            lemma_entered_function_is_entry(pre, pre.heap.scopes@, pre.heap.maps@, pre.heap.arrays@,
                                argc as nat, *self, *f, args@, f.this, None);
                        }
                        Ok(Action::CompileFunction { id, argc })
                    },
                    JitDecision::Interpret => {
                        let this = f.this.duplicate();
                        self.enter_function(&f, &args, this, None);
                        proof {
                            lemma_entered_function_is_entry(pre, pre.heap.scopes@, pre.heap.maps@, pre.heap.arrays@,
                                argc as nat, *self, *f, args@, f.this, None);
                        }
                        Ok(Action::Continue)
                    },
                }
            },
            _ => Err(type_error("type error: callee is not a function but called")),
        }
    }

    /// Like `call`, with a new object as `this` whose only property is its
    /// prototype link, the callee's `prototype` (or `undefined`).
    pub fn construct(&mut self) -> (r: Result<Action, RuntimeError>)
        requires
            old(self).wf(),
        ensures
            final(self).wf(),
            construct_post(*old(self), *final(self), r),
    {
        let argc = self.operand32()? as usize;
        if self.state.stack.len() <= argc {
            return Err(RuntimeError::Unknown);
        }
        let (callee, args) = self.pop_call(argc);
        let obj = match &callee.val {
            ValueBase::BuiltinFunction(b) => b.obj,
            ValueBase::Function(f) => f.obj,
            _ => return Err(type_error("type error: callee is not a constructor")),
        };
        if obj >= self.heap.maps.len() {
            return Err(RuntimeError::Unknown);
        }
        proof {
            assert(self.heap.maps@[obj as int].wf());
        }
        let proto = match self.heap.maps[obj].get(&String::from_str("prototype")) {
            Some(p) => p,
            None => Value::undefined(),
        };
        let mut map = PropertyMap::new();
        map.insert(String::from_str("__proto__"), proto);
        let ghost pre = *self;
        let new_this = self.heap.alloc_map(map);
        proof {
            self.lemma_scopes_grow(pre);
        }
        let ghost mid = *self;
        match callee.val {
            ValueBase::BuiltinFunction(b) => {
                self.state.pc = self.state.pc + 5;
                proof {
                    assert(self.heap.maps@.subrange(0, new_this as int) =~= old(self).heap.maps@);
                }
                Ok(Action::CallBuiltin { builtin: b.id, this: Value::object(new_this), args })
            },
            ValueBase::Function(f) => {
                if f.id >= self.code.len() || f.callobj >= self.heap.scopes.len() {
                    proof {
                        assert(self.heap.maps@.subrange(0, new_this as int) =~= old(self).heap.maps@);
                    }
                    return Err(RuntimeError::Unknown);
                }
                self.enter_function(&f, &args, Value::object(new_this), Some(new_this));
                proof {
                    assert(mid.heap.maps@ =~= self.heap.maps@.subrange(0, new_this + 1));
                    assert(self.heap.maps@.subrange(0, new_this as int) =~= old(self).heap.maps@);
                    assert(self.heap.maps@[new_this as int] == mid.heap.maps@[new_this as int]);
                    lemma_entered_function_is_entry(*old(self), old(self).heap.scopes@, mid.heap.maps@,
                        old(self).heap.arrays@, argc as nat, *self, *f, args@,
                        Value::plain(ValueBase::Object(new_this)), Some(new_this));
                }
                Ok(Action::Continue)
            },
            _ => Err(RuntimeError::Unknown),
        }
    }

    /// Leaves the current frame: drops what the callee left on the stack
    /// below its result, resumes the caller, and for a construction whose
    /// result is not an object, yields the constructed object instead.
    /// Leaving the outermost frame ends the program.
    pub fn return_(&mut self) -> (r: Result<Action, RuntimeError>)
        requires
            old(self).wf(),
        ensures
            final(self).wf(),
            return_post(*old(self), *final(self), r),
    {
        let nh = self.state.history.len();
        if nh == 0 {
            return Err(RuntimeError::Unknown);
        }
        let sp = self.state.history[nh - 1].sp;
        if self.state.stack.len() <= sp {
            return Err(RuntimeError::Unknown);
        }
        if nh >= 2 && self.state.scope.len() < 2 {
            return Err(RuntimeError::Unknown);
        }
        let ghost s = self.state.stack@;
        let frame = self.state.history.pop().unwrap();
        let mut top = self.state.stack.pop().unwrap();
        self.state.stack.truncate(sp);
        if let Some(o) = frame.constructed {
            let keep = match top.val {
                ValueBase::Object(_) | ValueBase::Array(_) | ValueBase::Function(_) | ValueBase::BuiltinFunction(_) => true,
                _ => false,
            };
            if !keep {
                top = Value::object(o);
            }
        }
        self.state.pc = frame.return_pc;
        if nh == 1 {
            self.state.stack.push(top);
            proof {
                assert(self.state.stack@.subrange(0, sp as int) =~= s.subrange(0, sp as int));
            }
            return Ok(Action::Finished);
        }
        proof {
            assert(old(self).state.history@[nh - 2].func_id < old(self).code@.len());
        }
        self.state.scope.pop();
        self.cur_func_id = frame.func_id;
        if frame.constructed.is_none() {
            self.jit.record_function_return_type(frame.callee, &top);
        }
        self.state.stack.push(top);
        proof {
            assert(self.state.stack@.subrange(0, sp as int) =~= s.subrange(0, sp as int));
            assert forall|i: int| 0 <= i < self.state.scope@.len() implies #[trigger] self.state.scope@[i] < self.heap.scopes@.len() by {
                assert(old(self).state.scope@[i] < old(self).heap.scopes@.len());
            }
            assert forall|i: int| 0 <= i < self.state.history@.len() implies #[trigger] self.state.history@[i].func_id < self.code@.len() by {
                assert(old(self).state.history@[i].func_id < old(self).code@.len());
            }
        }
        Ok(Action::Continue)
    }
}

} // verus!

verus! {

/// The outcome of a step without the action: whether it failed, and how.
pub open spec fn unit_of(r: Result<Action, RuntimeError>) -> Result<(), RuntimeError> {
    match r {
        Ok(_) => Ok(()),
        Err(e) => Err(e),
    }
}

/// Opcodes whose handler completes the instruction itself.
pub open spec fn handled_in_place(op: u8) -> bool {
    op < bytecode::NUM_OPCODES && op != bytecode::END && !is_arithmetic(op) && op != bytecode::CALL
        && op != bytecode::CONSTRUCT && op != bytecode::RETURN && op != bytecode::LOOP_START
}

/// Whether a binary operator takes operands of these kinds: `add` takes
/// any pair; `mul` numbers, or a string and a number; comparisons and
/// equality two numbers or two strings; the other operators two numbers.
pub open spec fn accepts(op: u8, l: ValueBase, r: ValueBase) -> bool {
    if op == bytecode::ADD {
        true
    } else if op == bytecode::MUL {
        (l is Number && r is Number) || (l is String && r is Number)
    } else if bytecode::LT <= op && op <= bytecode::SNE {
        (l is Number && r is Number) || (l is String && r is String)
    } else {
        l is Number && r is Number
    }
}

pub fn binary_accepts(op: u8, l: &ValueBase, r: &ValueBase) -> (b: bool)
    ensures
        b == accepts(op, *l, *r),
{
    let num_num = matches!(l, ValueBase::Number(_)) && matches!(r, ValueBase::Number(_));
    if op == bytecode::ADD {
        true
    } else if op == bytecode::MUL {
        num_num || (matches!(l, ValueBase::String(_)) && matches!(r, ValueBase::Number(_)))
    } else if bytecode::LT <= op && op <= bytecode::SNE {
        num_num || (matches!(l, ValueBase::String(_)) && matches!(r, ValueBase::String(_)))
    } else {
        num_num
    }
}

/// Which rule `add` applies to its operands.
#[derive(Debug, Clone, Copy, PartialEq, Eq)]
pub enum AddRule {
    /// Two numbers: their sum.
    Numbers,
    /// A boolean and a number: the number plus 0 or 1.
    BoolAndNumber,
    /// An `undefined` operand: NaN.
    NotANumber,
    /// Anything else: the concatenation of the string forms.
    Concatenate,
}

pub open spec fn add_rule_spec(l: ValueBase, r: ValueBase) -> AddRule {
    if l is Number && r is Number {
        AddRule::Numbers
    } else if (l is Bool && r is Number) || (l is Number && r is Bool) {
        AddRule::BoolAndNumber
    } else if l is Undefined || r is Undefined {
        AddRule::NotANumber
    } else {
        AddRule::Concatenate
    }
}

pub fn add_rule(l: &ValueBase, r: &ValueBase) -> (k: AddRule)
    ensures
        k == add_rule_spec(*l, *r),
{
    let ln = matches!(l, ValueBase::Number(_));
    let rn = matches!(r, ValueBase::Number(_));
    if ln && rn {
        AddRule::Numbers
    } else if (matches!(l, ValueBase::Bool(_)) && rn) || (ln && matches!(r, ValueBase::Bool(_))) {
        AddRule::BoolAndNumber
    } else if matches!(l, ValueBase::Undefined) || matches!(r, ValueBase::Undefined) {
        AddRule::NotANumber
    } else {
        AddRule::Concatenate
    }
}

/// The result of an equality operator on two strings: `eq` and `seq` give
/// whether they are equal, `ne` and `sne` whether they differ.
pub fn string_equality(op: u8, l: &String, r: &String) -> (v: Option<Value>)
    ensures
        (op == bytecode::EQ || op == bytecode::SEQ) ==> v == Some(Value::plain(ValueBase::Bool(l@ == r@))),
        (op == bytecode::NE || op == bytecode::SNE) ==> v == Some(Value::plain(ValueBase::Bool(l@ != r@))),
        !(op == bytecode::EQ || op == bytecode::SEQ || op == bytecode::NE || op == bytecode::SNE) ==> v is None,
{
    if op == bytecode::EQ || op == bytecode::SEQ {
        Some(Value::bool(*l == *r))
    } else if op == bytecode::NE || op == bytecode::SNE {
        Some(Value::bool(!(*l == *r)))
    } else {
        None
    }
}

/// Opcodes whose work on numbers the host performs.
pub open spec fn is_arithmetic(op: u8) -> bool {
    op == bytecode::POSI || (bytecode::ADD <= op <= bytecode::ZFSHR)
}

impl VM {
    /// Whether the loop `[pc, end)` of the running body may be compiled:
    /// its instructions decode and are all handled by compiled code, and
    /// every local it uses holds a number or a boolean.
    pub open spec fn loop_eligible(&self, end: nat) -> bool {
        let locals = self.heap.maps@[self.heap.scopes@[self.cur_scope()].vals as int];
        let ids = scan_names(self.body(), self.state.pc as nat, end);
        &&& ids is Some
        &&& !has_untyped_local(locals, self.const_table.string@, ids->0)
        &&& region_labels(self.body(), self.state.pc as nat, end, false) is Some
    }

    /// At a loop header: counts the entry, and once the loop is hot asks for
    /// it to be compiled (when it is eligible, see `loop_eligible`) or runs
    /// its native code; a loop that is not eligible is marked dead.
    pub fn loop_start(&mut self) -> (r: Result<Action, RuntimeError>)
        requires
            old(self).wf(),
        ensures
            final(self).wf(),
            loop_start_post(*old(self), *final(self), r),
    {
        let end = self.operand32()? as usize;
        let bgn = self.state.pc;
        let id = self.cur_func_id;
        let enough = self.jit.loop_is_called_enough_times(id, bgn);
        let locals_ok = if enough {
            let s = self.top_scope();
            let m = self.heap.scopes[s].vals;
            proof {
                assert(self.heap.maps@[m as int].wf());
            }
            let ok = collect_local_variables(&self.code[id], &self.const_table.string, &self.heap.maps[m], bgn, end).is_ok();
            ok && jump_labels(&self.code[id], bgn, end, false).is_some()
        } else {
            false
        };
        let ghost pre = *self;
        let decision = self.jit.can_loop_jit(id, bgn, locals_ok);
        proof {
            let el = pre.loop_eligible(end as nat);
            assert(enough ==> locals_ok == el);
            assert(decision == entry_decision(pre.jit, id, bgn, LOOP_THRESHOLD as nat, locals_ok));
            assert(entry_decision(pre.jit, id, bgn, LOOP_THRESHOLD as nat, locals_ok) == entry_decision(pre.jit, id, bgn, LOOP_THRESHOLD as nat, el));
            assert(entered_site(pre.jit, self.jit, id, bgn, LOOP_THRESHOLD as nat, el, decision));
        }
        self.state.pc = self.state.pc + 5;
        match decision {
            JitDecision::Interpret => Ok(Action::Continue),
            JitDecision::Compile => Ok(Action::CompileLoop { id, bgn, end }),
            JitDecision::RunNative => Ok(Action::NativeLoop { id, bgn }),
        }
    }

    /// Replaces the two operands of a binary operator by its result, as
    /// computed by the host, and moves on.
    pub fn apply_binary(&mut self, result: Value) -> (r: Result<(), RuntimeError>)
        requires
            old(self).wf(),
        ensures
            final(self).wf(),
            r is Ok <==> old(self).state.stack@.len() >= 2 && old(self).state.pc < usize::MAX,
            r is Ok ==> final(self).same_but_stack(*old(self)) && final(self).state.pc == old(self).state.pc + 1
                && final(self).state.stack@ == old(self).state.stack@.subrange(0, old(self).state.stack@.len() - 2).push(result),
            r is Err ==> *final(self) == *old(self),
    {
        let n = self.state.stack.len();
        if n < 2 || self.state.pc == usize::MAX {
            return Err(RuntimeError::Unknown);
        }
        let ghost s = self.state.stack@;
        self.state.stack.pop();
        self.state.stack.pop();
        self.state.stack.push(result);
        self.state.pc = self.state.pc + 1;
        proof {
            assert(self.state.stack@ =~= s.subrange(0, s.len() - 2).push(result));
        }
        Ok(())
    }

    /// Replaces the operand of a unary operator by its result, as computed
    /// by the host, and moves on.
    pub fn apply_unary(&mut self, result: Value) -> (r: Result<(), RuntimeError>)
        requires
            old(self).wf(),
        ensures
            final(self).wf(),
            r is Ok <==> old(self).state.stack@.len() >= 1 && old(self).state.pc < usize::MAX,
            r is Ok ==> final(self).same_but_stack(*old(self)) && final(self).state.pc == old(self).state.pc + 1
                && final(self).state.stack@ == old(self).state.stack@.drop_last().push(result),
            r is Err ==> *final(self) == *old(self),
    {
        let n = self.state.stack.len();
        if n < 1 || self.state.pc == usize::MAX {
            return Err(RuntimeError::Unknown);
        }
        self.state.stack.pop();
        self.state.stack.push(result);
        self.state.pc = self.state.pc + 1;
        Ok(())
    }

    /// Replaces the top of the operand stack (the host turns a key that
    /// needs floating-point formatting into its string this way).
    pub fn replace_top(&mut self, v: Value)
        requires
            old(self).wf(),
        ensures
            final(self).wf(),
            final(self).same_but_stack(*old(self)),
            final(self).state.pc == old(self).state.pc,
            old(self).state.stack@.len() > 0 ==> final(self).state.stack@ == old(self).state.stack@.drop_last().push(v),
            old(self).state.stack@.len() == 0 ==> final(self).state.stack@ == old(self).state.stack@,
    {
        if self.state.stack.len() > 0 {
            self.state.stack.pop();
            self.state.stack.push(v);
        }
    }

    /// Pushes the result of a host function or of native code.
    pub fn push_result(&mut self, v: Value)
        requires
            old(self).wf(),
        ensures
            final(self).wf(),
            final(self).same_but_stack(*old(self)),
            final(self).state.pc == old(self).state.pc,
            final(self).state.stack@ == old(self).state.stack@.push(v),
    {
        self.state.stack.push(v);
    }

    /// Resumes interpretation at `pc` of the running body (after a native
    /// loop has run).
    pub fn resume_at(&mut self, pc: usize)
        requires
            old(self).wf(),
        ensures
            final(self).wf(),
            final(self).same_but_stack(*old(self)),
            final(self).state.stack == old(self).state.stack,
            final(self).state.pc == pc,
    {
        self.state.pc = pc;
    }

    /// The opcode at the current position.
    pub fn current_opcode(&self) -> (r: Option<u8>)
        requires
            self.wf(),
        ensures
            self.state.pc < self.body().len() ==> r == Some(self.body()[self.state.pc as int]),
            self.state.pc >= self.body().len() ==> r is None,
    {
        let code = &self.code[self.cur_func_id];
        if self.state.pc < code.len() {
            Some(code[self.state.pc])
        } else {
            None
        }
    }

    fn done(r: Result<(), RuntimeError>) -> (a: Result<Action, RuntimeError>)
        ensures
            r is Ok ==> a == Ok::<Action, RuntimeError>(Action::Continue),
            r matches Err(e) ==> a == Err::<Action, RuntimeError>(e),
            unit_of(a) == r,
    {
        match r {
            Ok(x) => {
                assert(x == ());
                Ok(Action::Continue)
            },
            Err(e) => Err(e),
        }
    }

    /// Runs the instruction at the current position.
    pub fn step(&mut self) -> (r: Result<Action, RuntimeError>)
        requires
            old(self).wf(),
        ensures
            final(self).wf(),
            old(self).state.pc >= old(self).body().len() ==> r is Err && *final(self) == *old(self),
            old(self).state.pc < old(self).body().len() ==> {
                let op = old(self).body()[old(self).state.pc as int];
                let o = *old(self);
                let n = *final(self);
                let u = unit_of(r);
                &&& (op >= bytecode::NUM_OPCODES ==> r is Err && n == o)
                &&& (op == bytecode::END ==> r == Ok::<Action, RuntimeError>(Action::Finished) && n == o)
                &&& (op == bytecode::POSI ==> n == o && (o.state.stack@.len() >= 1 ==> r == Ok::<Action, RuntimeError>(Action::Arithmetic(op)))
                    && (o.state.stack@.len() == 0 ==> r == Err::<Action, RuntimeError>(RuntimeError::Unknown)))
                &&& (is_arithmetic(op) && op != bytecode::POSI ==> n == o && ({
                    let s = o.state.stack@;
                    &&& (s.len() < 2 ==> r == Err::<Action, RuntimeError>(RuntimeError::Unknown))
                    &&& (s.len() >= 2 && accepts(op, s[s.len() - 2].val, s[s.len() - 1].val) ==> r == Ok::<Action, RuntimeError>(Action::Arithmetic(op)))
                    &&& (s.len() >= 2 && !accepts(op, s[s.len() - 2].val, s[s.len() - 1].val) ==> r == Err::<Action, RuntimeError>(RuntimeError::Unimplemented))
                }))
                &&& (handled_in_place(op) ==> (r matches Ok(a) ==> a is Continue))
                &&& (op == bytecode::CREATE_CONTEXT || op == bytecode::LAND || op == bytecode::LOR
                    || op == bytecode::COND_OP ==> create_context_post(o, n, u))
                &&& (op == bytecode::CONSTRUCT ==> construct_post(o, n, r))
                &&& (op == bytecode::CREATE_OBJECT ==> create_object_post(o, n, u))
                &&& (op == bytecode::CREATE_ARRAY ==> create_array_post(o, n, u))
                &&& (op == bytecode::PUSH_INT8 ==> push_int8_post(o, n, u))
                &&& (op == bytecode::PUSH_INT32 ==> push_int32_post(o, n, u))
                &&& (op == bytecode::PUSH_FALSE ==> push_false_post(o, n, u))
                &&& (op == bytecode::PUSH_TRUE ==> push_true_post(o, n, u))
                &&& (op == bytecode::PUSH_CONST ==> push_const_post(o, n, u))
                &&& (op == bytecode::PUSH_THIS ==> push_this_post(o, n, u))
                &&& (op == bytecode::PUSH_ARGUMENTS ==> push_arguments_post(o, n, u))
                &&& (op == bytecode::PUSH_UNDEFINED ==> push_undefined_post(o, n, u))
                &&& (op == bytecode::LNOT ==> lnot_post(o, n, u))
                &&& (op == bytecode::NEG ==> neg_post(o, n, u))
                &&& (op == bytecode::GET_MEMBER ==> get_member_post(o, n, u))
                &&& (op == bytecode::SET_MEMBER ==> set_member_post(o, n, u))
                &&& (op == bytecode::JMP_IF_FALSE ==> jmp_if_false_post(o, n, u))
                &&& (op == bytecode::JMP ==> jmp_post(o, n, u))
                &&& (op == bytecode::CALL ==> call_post(o, n, r))
                &&& (op == bytecode::RETURN ==> return_post(o, n, r))
                &&& (op == bytecode::DOUBLE ==> double_post(o, n, u))
                &&& (op == bytecode::POP ==> pop_post(o, n, u))
                &&& (op == bytecode::SET_CUR_CALLOBJ ==> set_cur_callobj_post(o, n, u))
                &&& (op == bytecode::GET_NAME ==> get_name_post(o, n, u))
                &&& (op == bytecode::SET_NAME ==> set_name_post(o, n, u))
                &&& (op == bytecode::DECL_VAR ==> decl_var_post(o, n, u))
                &&& (op == bytecode::LOOP_START ==> loop_start_post(o, n, r))
            },
    {
        let op = match self.current_opcode() {
            Some(op) => op,
            None => return Err(RuntimeError::Unknown),
        };
        let code_len = self.code[self.cur_func_id].len();
        if op == bytecode::END {
            return Ok(Action::Finished);
        }
        if op == bytecode::POSI {
            if self.state.stack.len() == 0 {
                return Err(RuntimeError::Unknown);
            }
            return Ok(Action::Arithmetic(op));
        }
        if bytecode::ADD <= op && op <= bytecode::ZFSHR {
            let n = self.state.stack.len();
            if n < 2 {
                return Err(RuntimeError::Unknown);
            }
            if !binary_accepts(op, &self.state.stack[n - 2].val, &self.state.stack[n - 1].val) {
                return Err(RuntimeError::Unimplemented);
            }
            return Ok(Action::Arithmetic(op));
        }
        if op >= bytecode::NUM_OPCODES {
            return Err(RuntimeError::Unknown);
        }
        if op == bytecode::CREATE_CONTEXT || op == bytecode::LAND || op == bytecode::LOR || op == bytecode::COND_OP {
            return VM::done(self.create_context());
        }
        if op == bytecode::CONSTRUCT {
            return self.construct();
        }
        if op == bytecode::CREATE_OBJECT {
            return VM::done(self.create_object());
        }
        if op == bytecode::CREATE_ARRAY {
            return VM::done(self.create_array());
        }
        if op == bytecode::PUSH_INT8 {
            return VM::done(self.push_int8());
        }
        if op == bytecode::PUSH_INT32 {
            return VM::done(self.push_int32());
        }
        if op == bytecode::PUSH_FALSE {
            return VM::done(self.push_false());
        }
        if op == bytecode::PUSH_TRUE {
            return VM::done(self.push_true());
        }
        if op == bytecode::PUSH_CONST {
            return VM::done(self.push_const());
        }
        if op == bytecode::PUSH_THIS {
            return VM::done(self.push_this());
        }
        if op == bytecode::PUSH_ARGUMENTS {
            return VM::done(self.push_arguments());
        }
        if op == bytecode::PUSH_UNDEFINED {
            return VM::done(self.push_undefined());
        }
        if op == bytecode::LNOT {
            return VM::done(self.lnot());
        }
        if op == bytecode::NEG {
            return VM::done(self.neg());
        }
        if op == bytecode::GET_MEMBER {
            return VM::done(self.get_member());
        }
        if op == bytecode::SET_MEMBER {
            return VM::done(self.set_member());
        }
        if op == bytecode::JMP_IF_FALSE {
            return VM::done(self.jmp_if_false());
        }
        if op == bytecode::JMP {
            return VM::done(self.jmp());
        }
        if op == bytecode::CALL {
            return self.call();
        }
        if op == bytecode::RETURN {
            return self.return_();
        }
        if op == bytecode::DOUBLE {
            return VM::done(self.double());
        }
        if op == bytecode::POP {
            return VM::done(self.pop());
        }
        if op == bytecode::SET_CUR_CALLOBJ {
            return VM::done(self.set_cur_callobj());
        }
        if op == bytecode::GET_NAME {
            return VM::done(self.get_name());
        }
        if op == bytecode::SET_NAME {
            return VM::done(self.set_name());
        }
        if op == bytecode::DECL_VAR {
            return VM::done(self.decl_var());
        }
        self.loop_start()
    }
}

} // verus!

verus! {

impl VM {
    /// Empties every heap record that the operand stack, the scope stack and
    /// the constants no longer reach: every record left out by some set of
    /// records that holds the roots and all they refer to. What a name means
    /// in any scope on the scope stack is unchanged.
    pub fn collect_garbage(&mut self)
        requires
            old(self).wf(),
        ensures
            final(self).wf(),
            final(self).state == old(self).state,
            final(self).heap.maps@.len() == old(self).heap.maps@.len(),
            final(self).heap.arrays@.len() == old(self).heap.arrays@.len(),
            final(self).heap.scopes@.len() == old(self).heap.scopes@.len(),
            forall|c: crate::gc::Marks, i: int|
                crate::gc::rooted(old(self).heap, old(self).state.stack@, old(self).state.scope@,
                    old(self).const_table.value@, c) && 0 <= i < old(self).heap.maps@.len()
                    && !(#[trigger] crate::gc::marked_map(c, i as usize)) ==> (final(self).heap.maps@[i]).entries@.len() == 0,
            forall|c: crate::gc::Marks, i: int|
                crate::gc::rooted(old(self).heap, old(self).state.stack@, old(self).state.scope@,
                    old(self).const_table.value@, c) && 0 <= i < old(self).heap.arrays@.len()
                    && !(#[trigger] crate::gc::marked_array(c, i as usize)) ==> (final(self).heap.arrays@[i]).length == 0,
            forall|c: crate::gc::Marks, i: int|
                crate::gc::rooted(old(self).heap, old(self).state.stack@, old(self).state.scope@,
                    old(self).const_table.value@, c) && 0 <= i < old(self).heap.scopes@.len()
                    && !(#[trigger] crate::gc::marked_scope(c, i as usize)) ==> (final(self).heap.scopes@[i]).params@.len() == 0,
            forall|i: int, name: Seq<char>| 0 <= i < old(self).state.scope@.len() ==> #[trigger] binding(
                final(self).heap,
                old(self).state.scope@[i] as int,
                name,
            ) == binding(old(self).heap, old(self).state.scope@[i] as int, name),
    {
        let ghost pre = *self;
        let m = crate::gc::collect(&mut self.heap, &self.state.stack, &self.state.scope, &self.const_table.value);
        proof {
            assert forall|i: int, name: Seq<char>| 0 <= i < pre.state.scope@.len() implies #[trigger] binding(
                self.heap,
                pre.state.scope@[i] as int,
                name,
            ) == binding(pre.heap, pre.state.scope@[i] as int, name) by {
                let s = pre.state.scope@[i];
                assert(s < pre.heap.scopes@.len());
                assert(crate::gc::marked_scope(m, s));
                crate::gc::lemma_collect_keeps_bindings(pre.heap, m, self.heap, s as int, name);
            }
            assert forall|c: crate::gc::Marks, i: int|
                crate::gc::rooted(pre.heap, pre.state.stack@, pre.state.scope@, pre.const_table.value@, c)
                    && 0 <= i < pre.heap.maps@.len() && !(#[trigger] crate::gc::marked_map(c, i as usize))
                    implies (self.heap.maps@[i]).entries@.len() == 0 by {
                assert(crate::gc::below(m, c));
            }
            assert forall|c: crate::gc::Marks, i: int|
                crate::gc::rooted(pre.heap, pre.state.stack@, pre.state.scope@, pre.const_table.value@, c)
                    && 0 <= i < pre.heap.arrays@.len() && !(#[trigger] crate::gc::marked_array(c, i as usize))
                    implies (self.heap.arrays@[i]).length == 0 by {
                assert(crate::gc::below(m, c));
            }
            assert forall|c: crate::gc::Marks, i: int|
                crate::gc::rooted(pre.heap, pre.state.stack@, pre.state.scope@, pre.const_table.value@, c)
                    && 0 <= i < pre.heap.scopes@.len() && !(#[trigger] crate::gc::marked_scope(c, i as usize))
                    implies (self.heap.scopes@[i]).params@.len() == 0 by {
                assert(crate::gc::below(m, c));
            }
            assert forall|i: int| 0 <= i < self.state.scope@.len() implies #[trigger] self.state.scope@[i] < self.heap.scopes@.len() by {
                assert(pre.state.scope@[i] < pre.heap.scopes@.len());
            }
        }
    }
}

} // verus!

verus! {

/// The effect of `VM::create_context`.
pub open spec fn create_context_post(v0: VM, v1: VM, r: Result<(), RuntimeError>) -> bool {
    &&& (r is Ok && v1.skipped(v0, 1))
}

/// The effect of `VM::push_int8`.
pub open spec fn push_int8_post(v0: VM, v1: VM, r: Result<(), RuntimeError>) -> bool {
    &&& (r is Ok <==> v0.state.pc + 2 <= v0.body().len())
    &&& (r is Ok ==> v1.pushed(
                v0,
                Value::plain(ValueBase::Number(signed_int_bits(
                    if v0.body()[v0.state.pc + 1] < 128 {
                        v0.body()[v0.state.pc + 1] as int
                    } else {
                        v0.body()[v0.state.pc + 1] - 256
                    },
                ) as u64)),
                2,
            ))
    &&& (r is Err ==> v1 == v0)
}

/// The effect of `VM::push_int32`.
pub open spec fn push_int32_post(v0: VM, v1: VM, r: Result<(), RuntimeError>) -> bool {
    &&& (r is Ok <==> v0.state.pc + 5 <= v0.body().len())
    &&& (r is Ok ==> v1.pushed(
                v0,
                Value::plain(ValueBase::Number(signed_int_bits(signed32(v0.operand())) as u64)),
                5,
            ))
    &&& (r is Err ==> v1 == v0)
}

/// The effect of `VM::push_false`.
pub open spec fn push_false_post(v0: VM, v1: VM, r: Result<(), RuntimeError>) -> bool {
    &&& (r is Ok && v1.pushed(v0, Value::plain(ValueBase::Bool(false)), 1))
}

/// The effect of `VM::push_true`.
pub open spec fn push_true_post(v0: VM, v1: VM, r: Result<(), RuntimeError>) -> bool {
    &&& (r is Ok && v1.pushed(v0, Value::plain(ValueBase::Bool(true)), 1))
}

/// The effect of `VM::push_undefined`.
pub open spec fn push_undefined_post(v0: VM, v1: VM, r: Result<(), RuntimeError>) -> bool {
    &&& (r is Ok && v1.pushed(v0, Value::plain(ValueBase::Undefined), 1))
}

/// The effect of `VM::push_arguments`.
pub open spec fn push_arguments_post(v0: VM, v1: VM, r: Result<(), RuntimeError>) -> bool {
    &&& (r is Ok && v1.pushed(v0, Value::plain(ValueBase::Arguments), 1))
}

/// The effect of `VM::push_this`.
pub open spec fn push_this_post(v0: VM, v1: VM, r: Result<(), RuntimeError>) -> bool {
    &&& (r is Ok && v1.pushed(
                v0,
                v0.heap.scopes@[v0.cur_scope()].this,
                1,
            ))
}

/// The effect of `VM::push_const`.
pub open spec fn push_const_post(v0: VM, v1: VM, r: Result<(), RuntimeError>) -> bool {
    &&& (r is Ok <==> v0.state.pc + 5 <= v0.body().len() && v0.operand()
                < v0.const_table.value@.len())
    &&& (r is Ok ==> v1.pushed(
                v0,
                v0.const_table.value@[v0.operand()],
                5,
            ))
    &&& (r is Err ==> v1 == v0)
}

/// The effect of `VM::pop`.
pub open spec fn pop_post(v0: VM, v1: VM, r: Result<(), RuntimeError>) -> bool {
    &&& (r is Ok)
    &&& (v1.same_but_stack(v0))
    &&& (v1.state.pc == v0.state.pc + 1)
    &&& (v0.state.stack@.len() > 0 ==> v1.state.stack@ == v0.state.stack@.drop_last())
    &&& (v0.state.stack@.len() == 0 ==> v1.state.stack@.len() == 0)
}

/// The effect of `VM::double`.
pub open spec fn double_post(v0: VM, v1: VM, r: Result<(), RuntimeError>) -> bool {
    &&& (r is Ok <==> v0.state.stack@.len() > 0)
    &&& (r is Ok ==> v1.pushed(v0, v0.state.stack@.last(), 1))
    &&& (r is Err ==> v1 == v0)
}

/// The effect of `VM::lnot`.
pub open spec fn lnot_post(v0: VM, v1: VM, r: Result<(), RuntimeError>) -> bool {
    &&& (r is Ok <==> v0.state.stack@.len() > 0)
    &&& (r is Ok ==> {
                let top = v0.state.stack@.last();
                &&& v1.same_but_stack(v0)
                &&& v1.state.pc == v0.state.pc + 1
                &&& v1.state.stack@ == v0.state.stack@.drop_last().push(
                    Value { val: ValueBase::Bool(!truthy(top.val)), ..top },
                )
            })
    &&& (r is Err ==> v1 == v0)
}

/// The effect of `VM::neg`.
pub open spec fn neg_post(v0: VM, v1: VM, r: Result<(), RuntimeError>) -> bool {
    &&& (r is Ok <==> v0.state.stack@.len() > 0 && v0.state.stack@.last().val is Number)
    &&& (r is Ok ==> {
                let top = v0.state.stack@.last();
                &&& v1.same_but_stack(v0)
                &&& v1.state.pc == v0.state.pc + 1
                &&& v1.state.stack@ == v0.state.stack@.drop_last().push(
                    Value { val: ValueBase::Number(top.val->Number_0 ^ 0x8000_0000_0000_0000u64), ..top },
                )
            })
    &&& (v0.state.stack@.len() > 0 && !(v0.state.stack@.last().val is Number) ==> r == Err::<(), RuntimeError>(RuntimeError::Unimplemented))
    &&& (r is Err ==> v1 == v0)
}

/// The effect of `VM::jmp`.
pub open spec fn jmp_post(v0: VM, v1: VM, r: Result<(), RuntimeError>) -> bool {
    &&& (r is Ok <==> v0.state.pc + 5 <= v0.body().len()
                && 0 <= v0.state.pc + 5 + signed32(v0.operand()) <= usize::MAX)
    &&& (r is Ok ==> v1.skipped(v0, 5 + signed32(v0.operand())))
    &&& (r is Err ==> v1 == v0)
}

/// The effect of `VM::jmp_if_false`.
pub open spec fn jmp_if_false_post(v0: VM, v1: VM, r: Result<(), RuntimeError>) -> bool {
    &&& (r is Ok <==> v0.state.pc + 5 <= v0.body().len() && v0.state.stack@.len() > 0
                && (v0.state.stack@.last().val == ValueBase::Bool(false) ==> 0 <= v0.state.pc + 5 + signed32(v0.operand()) <= usize::MAX))
    &&& (r is Ok ==> {
                &&& v1.same_but_stack(v0)
                &&& v1.state.stack@ == v0.state.stack@.drop_last()
                &&& v1.state.pc == v0.state.pc + 5 + if v0.state.stack@.last().val == ValueBase::Bool(false) {
                    signed32(v0.operand())
                } else {
                    0
                }
            })
    &&& (r is Err ==> v1 == v0)
}

/// The effect of `VM::get_name`.
pub open spec fn get_name_post(v0: VM, v1: VM, r: Result<(), RuntimeError>) -> bool {
    &&& (r is Ok <==> v0.has_name_operand() && binding(v0.heap, v0.cur_scope(), v0.operand_name()) is Some)
    &&& (r is Ok ==> v1.pushed(v0, binding(v0.heap, v0.cur_scope(), v0.operand_name())->0, 5))
    &&& (v0.has_name_operand() && binding(v0.heap, v0.cur_scope(), v0.operand_name()) is None
                ==> (r matches Err(e) && e is Reference))
    &&& (r is Err ==> v1 == v0)
}

/// The effect of `VM::decl_var`.
pub open spec fn decl_var_post(v0: VM, v1: VM, r: Result<(), RuntimeError>) -> bool {
    &&& (r is Ok <==> v0.has_name_operand() && v0.state.stack@.len() > 0)
    &&& (r is Ok ==> {
                let v = rebound(v0.state.stack@.last(), v0.heap.scopes@[v0.cur_scope()].this);
                &&& binding(v1.heap, v0.cur_scope(), v0.operand_name()) == Some(v)
                &&& v1.state.stack@ == v0.state.stack@.drop_last()
                &&& v1.state.pc == v0.state.pc + 5
                &&& v1.heap.scopes@ == v0.heap.scopes@
                &&& v1.heap.arrays@ == v0.heap.arrays@
            })
    &&& (r is Err ==> v1 == v0)
}

/// The effect of `VM::set_name`.
pub open spec fn set_name_post(v0: VM, v1: VM, r: Result<(), RuntimeError>) -> bool {
    &&& (r is Ok <==> v0.has_name_operand() && v0.state.stack@.len() > 0)
    &&& (r is Ok ==> {
                let v = rebound(v0.state.stack@.last(), v0.heap.scopes@[v0.cur_scope()].this);
                let t = assign_target(v0.heap, v0.cur_scope(), v0.operand_name());
                &&& v1.heap.maps@[t].lookup(v0.operand_name()) == Some(v)
                &&& v1.heap.maps@ == v0.heap.maps@.update(t, v1.heap.maps@[t])
                &&& forall|k: Seq<char>| k != v0.operand_name() ==> v1.heap.maps@[t].lookup(k) == v0.heap.maps@[t].lookup(k)
                &&& v1.state.stack@ == v0.state.stack@.drop_last()
                &&& v1.state.pc == v0.state.pc + 5
                &&& v1.heap.scopes@ == v0.heap.scopes@
            })
    &&& (r is Err ==> v1 == v0)
}

/// The effect of `VM::set_cur_callobj`.
pub open spec fn set_cur_callobj_post(v0: VM, v1: VM, r: Result<(), RuntimeError>) -> bool {
    &&& (r is Ok)
    &&& (v1.state.pc == v0.state.pc + 1)
    &&& (v1.heap.maps@ == v0.heap.maps@)
    &&& (v1.heap.arrays@ == v0.heap.arrays@)
    &&& (({
                let n = v0.state.stack@.len();
                if n > 0 && v0.state.stack@[n - 1].val is Function
                    && v0.state.stack@[n - 1].val->Function_0.callobj < v0.heap.scopes@.len() {
                    let top = v0.state.stack@[n - 1];
                    let f = top.val->Function_0;
                    let t = v0.heap.scopes@[f.callobj as int];
                    let c = v1.heap.scopes@.last();
                    &&& v1.heap.scopes@.len() == v0.heap.scopes@.len() + 1
                    &&& v1.heap.scopes@.drop_last() == v0.heap.scopes@
                    &&& c.parent == Some(v0.cur_scope() as usize)
                    &&& c.params@ == t.params@ && c.vals == t.vals && c.this == t.this && c.arg_rest_vals@ == t.arg_rest_vals@
                    &&& v1.state.stack@ == v0.state.stack@.drop_last().push(Value {
                        val: ValueBase::Function(Box::new(FunctionValue { callobj: v0.heap.scopes@.len() as usize, ..*f })),
                        ..top
                    })
                } else {
                    v1.heap == v0.heap && v1.state.stack@ == v0.state.stack@
                }
            }))
}

/// The effect of `VM::get_member`.
pub open spec fn get_member_post(v0: VM, v1: VM, r: Result<(), RuntimeError>) -> bool {
    &&& (r is Ok <==> v0.state.stack@.len() >= 2)
    &&& (r is Ok ==> {
                let n = v0.state.stack@.len();
                &&& v1.same_but_stack(v0)
                &&& v1.state.pc == v0.state.pc + 1
                &&& v1.state.stack@.len() == n - 1
                &&& v1.state.stack@.subrange(0, n - 2) == v0.state.stack@.subrange(0, n - 2)
                &&& is_property_value(v0.heap, v0.state.stack@[n - 2], v0.state.stack@[n - 1].val,
                    v0.cur_scope(), v1.state.stack@[n - 2])
            })
    &&& (r is Err ==> v1 == v0)
}

/// The effect of `VM::set_member`.
pub open spec fn set_member_post(v0: VM, v1: VM, r: Result<(), RuntimeError>) -> bool {
    &&& (r is Ok <==> v0.state.stack@.len() >= 3)
    &&& (r is Ok ==> {
                let n = v0.state.stack@.len();
                &&& v1.state.pc == v0.state.pc + 1
                &&& v1.state.stack@ == v0.state.stack@.subrange(0, n - 3)
                &&& v1.state.scope == v0.state.scope
                &&& v1.state.history == v0.state.history
                &&& v1.heap.scopes@.len() == v0.heap.scopes@.len()
                &&& v1.cur_func_id == v0.cur_func_id
                &&& v1.jit == v0.jit
                &&& crate::property::property_written(v0.heap, v1.heap, v0.state.stack@[n - 2],
                    v0.state.stack@[n - 1].val, v0.state.stack@[n - 3], v0.cur_scope() as usize)
            })
    &&& (r is Err ==> v1 == v0)
}

/// The effect of `VM::create_object`.
pub open spec fn create_object_post(v0: VM, v1: VM, r: Result<(), RuntimeError>) -> bool {
    &&& (r is Ok <==> v0.state.pc + 5 <= v0.body().len()
                && 2 * v0.operand() <= v0.state.stack@.len()
                && literal_names_ok(v0.state.stack@, v0.operand() as nat))
    &&& (r is Ok ==> {
                let s = v0.state.stack@;
                let n = v0.operand();
                let m = v0.heap.maps@.len();
                &&& v1.state.pc == v0.state.pc + 5
                &&& v1.state.stack@ == s.subrange(0, s.len() - 2 * n).push(Value::plain(ValueBase::Object(m as usize)))
                &&& v1.heap.maps@.len() == m + 1
                &&& v1.heap.maps@.drop_last() == v0.heap.maps@
                &&& forall|k: Seq<char>| #[trigger] v1.heap.maps@[m as int].lookup(k) == literal_lookup(s, n as nat, k)
                &&& v1.heap.scopes@ == v0.heap.scopes@
                &&& v1.heap.arrays@ == v0.heap.arrays@
                &&& v1.state.scope == v0.state.scope
                &&& v1.state.history == v0.state.history
            })
}

/// The effect of `VM::create_array`.
pub open spec fn create_array_post(v0: VM, v1: VM, r: Result<(), RuntimeError>) -> bool {
    &&& (r is Ok <==> v0.state.pc + 5 <= v0.body().len()
                && v0.operand() <= v0.state.stack@.len())
    &&& (r is Ok ==> {
                let s = v0.state.stack@;
                let n = v0.operand();
                let a = v0.heap.arrays@.len();
                let ary = v1.heap.arrays@[a as int];
                &&& v1.state.pc == v0.state.pc + 5
                &&& v1.state.stack@ == s.subrange(0, s.len() - n).push(Value::plain(ValueBase::Array(a as usize)))
                &&& v1.heap.arrays@.len() == a + 1
                &&& v1.heap.arrays@.drop_last() == v0.heap.arrays@
                &&& ary.length == n
                &&& ary.elems@.len() == n
                &&& forall|i: int| 0 <= i < n ==> #[trigger] ary.elems@[i] == s[s.len() - 1 - i]
                &&& ary.obj.lookup("__proto__"@) == Some(Value::plain(ValueBase::Array(v0.array_prototype)))
                &&& v1.heap.maps@ == v0.heap.maps@
                &&& v1.heap.scopes@ == v0.heap.scopes@
                &&& v1.state.scope == v0.state.scope
                &&& v1.state.history == v0.state.history
            })
    &&& (r is Err ==> v1 == v0)
}

/// The effect of `VM::call`.
pub open spec fn call_post(v0: VM, v1: VM, r: Result<Action, RuntimeError>) -> bool {
    &&& (({
                let s = v0.state.stack@;
                let argc = v0.operand() as nat;
                let args = popped_args(s, argc);
                let callee = s.last().val;
                let f = callee->Function_0;
                let b = callee->BuiltinFunction_0;
                let d = if all_numbers_spec(args) {
                    entry_decision(v0.jit, f.id, 0, FUNC_THRESHOLD as nat, argc <= MAX_FUNCTION_PARAMS)
                } else {
                    JitDecision::Interpret
                };
                v0.state.pc + 5 <= v0.body().len() && s.len() >= argc + 1 ==> {
                    &&& (callee is BuiltinFunction ==> (r matches Ok(Action::CallBuiltin { builtin, this, args: a })
                        && builtin == b.id && this == b.this && a@ == args)
                        && left_to_host(v0, v1, argc) && v1.jit == v0.jit)
                    &&& (callee is Function && f.id < v0.code@.len() && f.callobj < v0.heap.scopes@.len() ==> {
                        &&& (all_numbers_spec(args) ==> entered_site(v0.jit, v1.jit, f.id, 0,
                            FUNC_THRESHOLD as nat, argc <= MAX_FUNCTION_PARAMS, d))
                        &&& (!all_numbers_spec(args) ==> v1.jit == v0.jit)
                        &&& (d is RunNative ==> (r matches Ok(Action::NativeCall { id, args: a }) && id == f.id && a@ == args)
                            && left_to_host(v0, v1, argc))
                        &&& (!(d is RunNative) ==> entered_function(v0, v0.heap.scopes@, v0.heap.maps@,
                            v0.heap.arrays@, below_call(s, argc), v1, *f, args, f.this, None)
                            && entered(v0, argc, v1))
                        &&& (d is Compile ==> r == Ok::<Action, RuntimeError>(Action::CompileFunction { id: f.id, argc: argc as usize }))
                        &&& (d is Interpret ==> r == Ok::<Action, RuntimeError>(Action::Continue))
                    })
                    &&& (!(callee is Function || callee is BuiltinFunction) ==> (r matches Err(RuntimeError::Type(m))
                        && m@ == "type error: callee is not a function but called"@))
                }
            }))
}

/// The effect of `VM::construct`.
pub open spec fn construct_post(v0: VM, v1: VM, r: Result<Action, RuntimeError>) -> bool {
    &&& (({
                let s = v0.state.stack@;
                let argc = v0.operand() as nat;
                let args = popped_args(s, argc);
                let callee = s.last().val;
                let f = callee->Function_0;
                let b = callee->BuiltinFunction_0;
                let obj = if callee is Function { f.obj } else { b.obj };
                let proto = match v0.heap.maps@[obj as int].lookup("prototype"@) {
                    Some(p) => p,
                    None => Value::plain(ValueBase::Undefined),
                };
                let t = v0.heap.maps@.len();
                v0.state.pc + 5 <= v0.body().len() && s.len() >= argc + 1
                    && (callee is Function || callee is BuiltinFunction) && obj < v0.heap.maps@.len() ==> {
                    &&& v1.heap.maps@.len() > t
                    &&& v1.heap.maps@.subrange(0, t as int) == v0.heap.maps@
                    &&& v1.heap.maps@[t as int].lookup("__proto__"@) == Some(proto)
                    &&& forall|k: Seq<char>| k != "__proto__"@ ==> #[trigger] v1.heap.maps@[t as int].lookup(k) is None
                    &&& v1.jit == v0.jit
                    &&& (callee is BuiltinFunction ==> (r matches Ok(Action::CallBuiltin { builtin, this, args: a })
                        && builtin == b.id && this == Value::plain(ValueBase::Object(t as usize)) && a@ == args)
                        && v1.state.stack@ == below_call(s, argc) && v1.state.pc == v0.state.pc + 5
                        && v1.state.history == v0.state.history && v1.state.scope == v0.state.scope
                        && v1.cur_func_id == v0.cur_func_id
                        && v1.heap.maps@.len() == t + 1 && v1.heap.scopes@ == v0.heap.scopes@
                        && v1.heap.arrays@ == v0.heap.arrays@)
                    &&& (callee is Function && f.id < v0.code@.len() && f.callobj < v0.heap.scopes@.len() ==>
                        r == Ok::<Action, RuntimeError>(Action::Continue)
                        && entered_function(v0, v0.heap.scopes@, v1.heap.maps@.subrange(0, t + 1int),
                            v0.heap.arrays@, below_call(s, argc), v1, *f, args,
                            Value::plain(ValueBase::Object(t as usize)), Some(t as usize))
                        && entered(v0, argc, v1))
                }
            }))
    &&& (({
                let s = v0.state.stack@;
                let callee = s.last().val;
                v0.state.pc + 5 <= v0.body().len() && s.len() >= v0.operand() + 1
                    && !(callee is Function || callee is BuiltinFunction) ==> (r matches Err(RuntimeError::Type(m))
                    && m@ == "type error: callee is not a constructor"@)
            }))
}

/// The effect of `VM::return_`.
pub open spec fn return_post(v0: VM, v1: VM, r: Result<Action, RuntimeError>) -> bool {
    &&& (r is Ok <==> v0.state.history@.len() >= 1 && v0.state.stack@.len() >= v0.state.history@.last().sp + 1
                && (v0.state.history@.len() >= 2 ==> v0.state.scope@.len() >= 2))
    &&& (r is Ok ==> returned(v0, v1))
    &&& (r is Ok ==> {
                let fr = v0.state.history@.last();
                let top = v0.state.stack@.last();
                &&& (fr.constructed is Some && !is_callable_object(top.val) ==> v1.state.stack@.last() == Value::plain(ValueBase::Object(fr.constructed->0)))
                &&& (!(fr.constructed is Some && !is_callable_object(top.val)) ==> v1.state.stack@.last() == top)
                &&& (v0.state.history@.len() == 1 <==> r == Ok::<Action, RuntimeError>(Action::Finished))
                &&& (v0.state.history@.len() >= 2 ==> v1.cur_func_id == fr.func_id
                    && v1.state.scope@ == v0.state.scope@.drop_last())
                &&& v1.heap == v0.heap
                &&& v1.jit.sites == v0.jit.sites
                &&& (v0.state.history@.len() >= 2 && fr.constructed is None ==> {
                    &&& (crate::jit::value_type(top) matches Some(t) ==> v1.jit.return_type(fr.callee) == Some(t))
                    &&& (crate::jit::value_type(top) is None ==> v1.jit.return_type(fr.callee) == v0.jit.return_type(fr.callee))
                })
                &&& (!(v0.state.history@.len() >= 2 && fr.constructed is None) ==> v1.jit == v0.jit)
            })
    &&& (r is Err ==> v1 == v0)
}

/// The effect of `VM::loop_start`.
pub open spec fn loop_start_post(v0: VM, v1: VM, r: Result<Action, RuntimeError>) -> bool {
    &&& (r is Ok <==> v0.state.pc + 5 <= v0.body().len())
    &&& (r is Ok ==> {
                let f = v0.cur_func_id;
                let p = v0.state.pc;
                let end = v0.operand() as nat;
                let eligible = v0.loop_eligible(end);
                let d = entry_decision(v0.jit, f, p, LOOP_THRESHOLD as nat, eligible);
                &&& v1.state == (VMState { pc: (p + 5) as usize, ..v0.state })
                &&& v1.heap == v0.heap
                &&& v1.cur_func_id == f
                &&& v1.code == v0.code
                &&& v1.const_table == v0.const_table
                &&& v1.array_prototype == v0.array_prototype
                &&& entered_site(v0.jit, v1.jit, f, p, LOOP_THRESHOLD as nat, eligible, d)
                &&& (d is Interpret ==> r == Ok::<Action, RuntimeError>(Action::Continue))
                &&& (d is Compile ==> r == Ok::<Action, RuntimeError>(Action::CompileLoop { id: f, bgn: p, end: end as usize }))
                &&& (d is RunNative ==> r == Ok::<Action, RuntimeError>(Action::NativeLoop { id: f, bgn: p }))
            })
    &&& (r is Err ==> v1 == v0)
}

} // verus!

verus! {

impl VM {
    /// Lowers the loop `[bgn, end)` of the running body for compilation,
    /// with its locals (name id and type) read from the current scope
    /// record. Fails where the loop may not be compiled.
    pub fn lower_loop(&self, bgn: usize, end: usize) -> (r: Result<(crate::lower::Lowered, Vec<(usize, crate::jit::ValueType)>), ()>)
        requires
            self.wf(),
        ensures
            r matches Ok((l, locals)) ==> {
                &&& region_labels(self.body(), bgn as nat, end as nat, false) == Some(crate::jit::as_nats(l.labels@))
                &&& crate::lower::insts_ok(self.body(), self.const_table.value@, self.jit, self.cur_func_id, l.insts@)
                &&& crate::lower::exits_exact(l.labels@, bgn as nat, end as nat, l.exits@)
            },
            region_labels(self.body(), bgn as nat, end as nat, false) is None ==> r is Err,
    {
        let s = self.top_scope();
        let m = self.heap.scopes[s].vals;
        proof {
            assert(self.heap.maps@[m as int].wf());
        }
        let code = &self.code[self.cur_func_id];
        let locals = match collect_local_variables(code, &self.const_table.string, &self.heap.maps[m], bgn, end) {
            Ok(l) => l,
            Err(_) => {
                let _ = jump_labels(code, bgn, end, false);
                return Err(());
            },
        };
        let l = crate::lower::gen_body(
            code,
            &self.const_table,
            &self.heap,
            s,
            &self.jit,
            &locals,
            self.cur_func_id,
            crate::jit::ValueType::Number,
            bgn,
            end,
            false,
        )?;
        Ok((l, locals))
    }

    /// Lowers the body of function `id`, called with `argc` numbers whose
    /// formals are `params` (by name), for compilation.
    pub fn lower_function(&self, id: FuncId, params: &Vec<(String, bool)>, argc: usize) -> (r: Result<crate::lower::Lowered, ()>)
        requires
            self.wf(),
            id < self.code@.len(),
        ensures
            argc > MAX_FUNCTION_PARAMS ==> r is Err,
            r matches Ok(l) ==> {
                let body = self.code@[id as int]@;
                &&& region_labels(body, 1, body.len(), true) == Some(crate::jit::as_nats(l.labels@))
                &&& crate::lower::insts_ok(body, self.const_table.value@, self.jit, id, l.insts@)
            },
    {
        let (n, ret) = crate::lower::func_signature(argc, Some(self.jit.function_return_type(id)))?;
        let mut locals: Vec<(usize, crate::jit::ValueType)> = Vec::new();
        let mut i: usize = 0;
        while i < n && i < params.len()
            invariant
                i <= n,
            decreases n - i,
        {
            let mut k: usize = 0;
            while k < self.const_table.string.len()
                invariant
                    k <= self.const_table.string@.len(),
                    i < params@.len(),
                decreases self.const_table.string@.len() - k,
            {
                if self.const_table.string[k] == params[i].0 {
                    locals.push((k, crate::jit::ValueType::Number));
                    break;
                }
                k = k + 1;
            }
            i = i + 1;
        }
        let code = &self.code[id];
        let s = self.top_scope();
        crate::lower::gen_body(code, &self.const_table, &self.heap, s, &self.jit, &locals, id, ret, 1, code.len(), true)
    }
}

} // verus!
