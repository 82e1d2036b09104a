use rapidus::bytecode;
use rapidus::globals::{install, new_template, new_value_function, Globals, ARRAY_PUSH, CONSOLE_LOG};
use rapidus::heap::Heap;
use rapidus::jit::{FUNC_THRESHOLD, LOOP_THRESHOLD};
use rapidus::value::{Value, ValueBase};
use rapidus::vm::{Action, ConstantTable, VM};

fn num(v: &Value) -> f64 {
    match v.val {
        ValueBase::Number(b) => f64::from_bits(b),
        ValueBase::Bool(b) => {
            if b {
                1.0
            } else {
                0.0
            }
        }
        _ => f64::NAN,
    }
}

fn show(v: &Value) -> String {
    match &v.val {
        ValueBase::Number(b) => format!("{}", f64::from_bits(*b)),
        ValueBase::Bool(b) => format!("{}", b),
        ValueBase::String(s) => s.clone(),
        ValueBase::Undefined => "undefined".to_string(),
        _ => "?".to_string(),
    }
}

struct Run {
    out: Vec<String>,
    compile_requests: usize,
    lowered: usize,
}

/// Drives the VM to the end, doing the host's part: number arithmetic,
/// `console.log`, `Array.prototype.push`, and compilation requests (which
/// always fail here, as no native backend is linked).
fn run(vm: &mut VM) -> Run {
    let mut r = Run { out: vec![], compile_requests: 0, lowered: 0 };
    for _ in 0..10_000_000 {
        let op = vm.current_opcode();
        let action = vm.step().expect("runtime error");
        if op == Some(bytecode::CREATE_OBJECT) || op == Some(bytecode::CREATE_ARRAY) {
            vm.collect_garbage();
        }
        match action {
            Action::Continue => {}
            Action::Finished => return r,
            Action::Arithmetic(op) => {
                let n = vm.state.stack.len();
                let l = num(&vm.state.stack[n - 2]);
                let rr = num(&vm.state.stack[n - 1]);
                let res = match op {
                    bytecode::ADD => Value::number((l + rr).to_bits()),
                    bytecode::SUB => Value::number((l - rr).to_bits()),
                    bytecode::MUL => Value::number((l * rr).to_bits()),
                    bytecode::DIV => Value::number((l / rr).to_bits()),
                    bytecode::LT => Value::bool(l < rr),
                    bytecode::GT => Value::bool(l > rr),
                    bytecode::LE => Value::bool(l <= rr),
                    bytecode::GE => Value::bool(l >= rr),
                    _ => panic!("unexpected opcode {}", op),
                };
                vm.apply_binary(res).unwrap();
            }
            Action::CallBuiltin { builtin, this, args } => {
                if builtin == CONSOLE_LOG {
                    let parts: Vec<String> = args.iter().map(show).collect();
                    r.out.push(parts.join(" "));
                } else if builtin == ARRAY_PUSH {
                    if let ValueBase::Array(a) = this.val {
                        vm.heap.array_push(a, &args).unwrap();
                    }
                } else {
                    panic!("unexpected builtin {}", builtin);
                }
                vm.push_result(Value::undefined());
            }
            Action::CompileFunction { id, argc } => {
                r.compile_requests += 1;
                let s = *vm.state.scope.last().unwrap();
                let params: Vec<(String, bool)> =
                    vm.heap.scopes[s].params.iter().map(|(n, b)| (n.clone(), *b)).collect();
                if vm.lower_function(id, &params, argc).is_ok() {
                    r.lowered += 1;
                }
                vm.jit.compile_finished(id, 0, false);
            }
            Action::CompileLoop { id, bgn, end } => {
                r.compile_requests += 1;
                if vm.lower_loop(bgn, end).is_ok() {
                    r.lowered += 1;
                }
                vm.jit.compile_finished(id, bgn, false);
            }
            Action::NativeCall { .. } | Action::NativeLoop { .. } => panic!("no native code exists"),
        }
    }
    panic!("did not finish");
}

fn op8(code: &mut Vec<u8>, op: u8, v: i8) {
    code.push(op);
    code.push(v as u8);
}

fn op32(code: &mut Vec<u8>, op: u8, v: i32) {
    code.push(op);
    code.extend_from_slice(&v.to_le_bytes());
}

struct Program {
    heap: Heap,
    consts: ConstantTable,
    globals: Globals,
}

impl Program {
    fn new() -> Program {
        let mut heap = Heap::new();
        let globals = install(&mut heap);
        Program { heap, consts: ConstantTable::new(), globals }
    }

    fn name(&mut self, s: &str) -> i32 {
        if let Some(i) = self.consts.string.iter().position(|n| n == s) {
            return i as i32;
        }
        self.consts.string.push(s.to_string());
        (self.consts.string.len() - 1) as i32
    }

    fn string_const(&mut self, s: &str) -> i32 {
        self.consts.value.push(Value::string(s.to_string()));
        (self.consts.value.len() - 1) as i32
    }

    fn function_const(&mut self, id: usize, params: &[&str]) -> i32 {
        let ps = params.iter().map(|p| (p.to_string(), false)).collect();
        let t = new_template(&mut self.heap, ps);
        let f = new_value_function(&mut self.heap, id, t, self.globals.function_prototype);
        self.consts.value.push(f);
        (self.consts.value.len() - 1) as i32
    }

    /// Emits `console.log(<n values on the stack>)` and discards its result.
    fn log(&mut self, code: &mut Vec<u8>, n: i32) {
        let console = self.name("console");
        let log = self.string_const("log");
        op32(code, bytecode::GET_NAME, console);
        op32(code, bytecode::PUSH_CONST, log);
        code.push(bytecode::GET_MEMBER);
        op32(code, bytecode::CALL, n);
        code.push(bytecode::POP);
    }

    fn vm(self, code: Vec<Vec<u8>>) -> VM {
        VM::new(self.heap, self.globals.scope, self.globals.array_prototype, code, self.consts)
    }
}

#[test]
fn scenario_fibonacci() {
    let mut p = Program::new();
    let f = p.function_const(1, &["n"]);
    let n = p.name("n");
    let fname = p.name("f");
    // function f(n){ if(n<2) return 1; return f(n-1)+f(n-2); }
    let mut body = vec![bytecode::CREATE_CONTEXT];
    op32(&mut body, bytecode::GET_NAME, n);
    op8(&mut body, bytecode::PUSH_INT8, 2);
    body.push(bytecode::LT);
    op32(&mut body, bytecode::JMP_IF_FALSE, 3);
    op8(&mut body, bytecode::PUSH_INT8, 1);
    body.push(bytecode::RETURN);
    for k in [1i8, 2] {
        op32(&mut body, bytecode::GET_NAME, n);
        op8(&mut body, bytecode::PUSH_INT8, k);
        body.push(bytecode::SUB);
        op32(&mut body, bytecode::GET_NAME, fname);
        op32(&mut body, bytecode::CALL, 1);
    }
    body.push(bytecode::ADD);
    body.push(bytecode::RETURN);
    // console.log(f(10));
    let mut top = vec![bytecode::CREATE_CONTEXT];
    op32(&mut top, bytecode::PUSH_CONST, f);
    top.push(bytecode::SET_CUR_CALLOBJ);
    op32(&mut top, bytecode::DECL_VAR, fname);
    op8(&mut top, bytecode::PUSH_INT8, 10);
    op32(&mut top, bytecode::GET_NAME, fname);
    op32(&mut top, bytecode::CALL, 1);
    p.log(&mut top, 1);
    top.push(bytecode::END);
    let mut vm = p.vm(vec![top, body]);
    let r = run(&mut vm);
    assert_eq!(r.out, vec!["89".to_string()]);
    // the recursive numeric function lowers completely
    assert_eq!(r.lowered, 1);
    // The function became hot, compilation was tried once and failed, and
    // was never tried again.
    assert_eq!(r.compile_requests, 1);
    assert!(vm.jit.count_of(1, 0) >= FUNC_THRESHOLD);
    assert_eq!(vm.state.stack.len(), 0);
}

#[test]
fn scenario_array_push() {
    let mut p = Program::new();
    let a = p.name("a");
    let push = p.string_const("push");
    let length = p.string_const("length");
    // var a=[1,2,3]; a.push(4); console.log(a.length, a[3]);
    let mut top = vec![bytecode::CREATE_CONTEXT];
    for v in [3i8, 2, 1] {
        op8(&mut top, bytecode::PUSH_INT8, v);
    }
    op32(&mut top, bytecode::CREATE_ARRAY, 3);
    op32(&mut top, bytecode::DECL_VAR, a);
    op8(&mut top, bytecode::PUSH_INT8, 4);
    op32(&mut top, bytecode::GET_NAME, a);
    op32(&mut top, bytecode::PUSH_CONST, push);
    top.push(bytecode::GET_MEMBER);
    op32(&mut top, bytecode::CALL, 1);
    top.push(bytecode::POP);
    op32(&mut top, bytecode::GET_NAME, a);
    op8(&mut top, bytecode::PUSH_INT8, 3);
    top.push(bytecode::GET_MEMBER);
    op32(&mut top, bytecode::GET_NAME, a);
    op32(&mut top, bytecode::PUSH_CONST, length);
    top.push(bytecode::GET_MEMBER);
    p.log(&mut top, 2);
    top.push(bytecode::END);
    let mut vm = p.vm(vec![top]);
    let r = run(&mut vm);
    assert_eq!(r.out, vec!["4 4".to_string()]);
    assert_eq!(vm.state.stack.len(), 0);
}

#[test]
fn scenario_closure() {
    let mut p = Program::new();
    let mk = p.function_const(1, &["x"]);
    let inner = p.function_const(2, &["y"]);
    let x = p.name("x");
    let y = p.name("y");
    let mkname = p.name("mk");
    // function mk(x){ return function(y){ return x+y; }; }
    let mut mk_body = vec![bytecode::CREATE_CONTEXT];
    op32(&mut mk_body, bytecode::PUSH_CONST, inner);
    mk_body.push(bytecode::SET_CUR_CALLOBJ);
    mk_body.push(bytecode::RETURN);
    let mut inner_body = vec![bytecode::CREATE_CONTEXT];
    op32(&mut inner_body, bytecode::GET_NAME, x);
    op32(&mut inner_body, bytecode::GET_NAME, y);
    inner_body.push(bytecode::ADD);
    inner_body.push(bytecode::RETURN);
    // console.log(mk(10)(5));
    let mut top = vec![bytecode::CREATE_CONTEXT];
    op32(&mut top, bytecode::PUSH_CONST, mk);
    top.push(bytecode::SET_CUR_CALLOBJ);
    op32(&mut top, bytecode::DECL_VAR, mkname);
    op8(&mut top, bytecode::PUSH_INT8, 5);
    op8(&mut top, bytecode::PUSH_INT8, 10);
    op32(&mut top, bytecode::GET_NAME, mkname);
    op32(&mut top, bytecode::CALL, 1);
    op32(&mut top, bytecode::CALL, 1);
    p.log(&mut top, 1);
    top.push(bytecode::END);
    let mut vm = p.vm(vec![top, mk_body, inner_body]);
    let r = run(&mut vm);
    assert_eq!(r.out, vec!["15".to_string()]);
}

#[test]
fn scenario_loop_sum() {
    let mut p = Program::new();
    let s = p.name("s");
    let i = p.name("i");
    // var s=0; for(var i=0;i<1000;i++) s += i; console.log(s);
    let mut top = vec![bytecode::CREATE_CONTEXT];
    op8(&mut top, bytecode::PUSH_INT8, 0);
    op32(&mut top, bytecode::DECL_VAR, s);
    op8(&mut top, bytecode::PUSH_INT8, 0);
    op32(&mut top, bytecode::DECL_VAR, i);
    let head = top.len();
    let mut body = vec![];
    op32(&mut body, bytecode::GET_NAME, i);
    op32(&mut body, bytecode::PUSH_INT32, 1000);
    body.push(bytecode::LT);
    let cond_end = body.len();
    let mut rest = vec![];
    op32(&mut rest, bytecode::GET_NAME, s);
    op32(&mut rest, bytecode::GET_NAME, i);
    rest.push(bytecode::ADD);
    op32(&mut rest, bytecode::SET_NAME, s);
    op32(&mut rest, bytecode::GET_NAME, i);
    op8(&mut rest, bytecode::PUSH_INT8, 1);
    rest.push(bytecode::ADD);
    op32(&mut rest, bytecode::SET_NAME, i);
    // loop_start(5) + cond + jmp_if_false(5) + rest + jmp(5)
    let loop_len = 5 + cond_end + 5 + rest.len() + 5;
    let loop_end = head + loop_len;
    op32(&mut top, bytecode::LOOP_START, loop_end as i32);
    top.extend_from_slice(&body);
    op32(&mut top, bytecode::JMP_IF_FALSE, (rest.len() + 5) as i32);
    top.extend_from_slice(&rest);
    let back = head as i32 - (top.len() as i32 + 5);
    op32(&mut top, bytecode::JMP, back);
    assert_eq!(top.len(), loop_end);
    op32(&mut top, bytecode::GET_NAME, s);
    p.log(&mut top, 1);
    top.push(bytecode::END);
    let mut vm = p.vm(vec![top]);
    let r = run(&mut vm);
    assert_eq!(r.out, vec!["499500".to_string()]);
    assert_eq!(r.lowered, 1);
    assert_eq!(r.compile_requests, 1);
    assert!(vm.jit.count_of(0, head) >= LOOP_THRESHOLD);
    assert_eq!(vm.state.stack.len(), 0);
}

#[test]
fn scenario_arguments_length() {
    let mut p = Program::new();
    let g = p.function_const(1, &[]);
    let gname = p.name("g");
    let length = p.string_const("length");
    // function g(){ return arguments.length; }
    let mut body = vec![bytecode::CREATE_CONTEXT, bytecode::PUSH_ARGUMENTS];
    op32(&mut body, bytecode::PUSH_CONST, length);
    body.push(bytecode::GET_MEMBER);
    body.push(bytecode::RETURN);
    // console.log(g(1,2,3,4));
    let mut top = vec![bytecode::CREATE_CONTEXT];
    op32(&mut top, bytecode::PUSH_CONST, g);
    top.push(bytecode::SET_CUR_CALLOBJ);
    op32(&mut top, bytecode::DECL_VAR, gname);
    for v in [4i8, 3, 2, 1] {
        op8(&mut top, bytecode::PUSH_INT8, v);
    }
    op32(&mut top, bytecode::GET_NAME, gname);
    op32(&mut top, bytecode::CALL, 4);
    p.log(&mut top, 1);
    top.push(bytecode::END);
    let mut vm = p.vm(vec![top, body]);
    let r = run(&mut vm);
    assert_eq!(r.out, vec!["4".to_string()]);
}

#[test]
fn scenario_construct() {
    let mut p = Program::new();
    let c = p.function_const(1, &[]);
    let cname = p.name("C");
    let oname = p.name("o");
    let x = p.string_const("x");
    // function C(){ this.x=42; }
    let mut body = vec![bytecode::CREATE_CONTEXT];
    op8(&mut body, bytecode::PUSH_INT8, 42);
    body.push(bytecode::PUSH_THIS);
    op32(&mut body, bytecode::PUSH_CONST, x);
    body.push(bytecode::SET_MEMBER);
    body.push(bytecode::PUSH_UNDEFINED);
    body.push(bytecode::RETURN);
    // var o=new C(); console.log(o.x);
    let mut top = vec![bytecode::CREATE_CONTEXT];
    op32(&mut top, bytecode::PUSH_CONST, c);
    top.push(bytecode::SET_CUR_CALLOBJ);
    op32(&mut top, bytecode::DECL_VAR, cname);
    op32(&mut top, bytecode::GET_NAME, cname);
    op32(&mut top, bytecode::CONSTRUCT, 0);
    op32(&mut top, bytecode::DECL_VAR, oname);
    op32(&mut top, bytecode::GET_NAME, oname);
    op32(&mut top, bytecode::PUSH_CONST, x);
    top.push(bytecode::GET_MEMBER);
    p.log(&mut top, 1);
    top.push(bytecode::END);
    let mut vm = p.vm(vec![top, body]);
    let r = run(&mut vm);
    assert_eq!(r.out, vec!["42".to_string()]);
}

#[test]
fn call_return_leaves_one_value_per_call() {
    let mut p = Program::new();
    let f = p.function_const(1, &["a", "b", "c"]);
    let fname = p.name("f");
    // The callee leaves an extra operand below its result; return drops it.
    let mut body = vec![bytecode::CREATE_CONTEXT];
    op8(&mut body, bytecode::PUSH_INT8, 9);
    op8(&mut body, bytecode::PUSH_INT8, 8);
    body.push(bytecode::RETURN);
    let mut top = vec![bytecode::CREATE_CONTEXT];
    op32(&mut top, bytecode::PUSH_CONST, f);
    top.push(bytecode::SET_CUR_CALLOBJ);
    op32(&mut top, bytecode::DECL_VAR, fname);
    op8(&mut top, bytecode::PUSH_INT8, 7);
    for v in [3i8, 2, 1] {
        op8(&mut top, bytecode::PUSH_INT8, v);
    }
    op32(&mut top, bytecode::GET_NAME, fname);
    let call_at = top.len();
    op32(&mut top, bytecode::CALL, 3);
    top.push(bytecode::END);
    let mut vm = p.vm(vec![top, body]);
    while vm.state.pc != call_at || vm.cur_func_id != 0 {
        assert!(matches!(vm.step().unwrap(), Action::Continue));
    }
    let before = vm.state.stack.len();
    assert_eq!(before, 5);
    assert!(matches!(vm.step().unwrap(), Action::Continue));
    assert_eq!(vm.state.history.len(), 2);
    assert_eq!(vm.state.history[1].sp, before - 4);
    while vm.cur_func_id != 0 {
        assert!(matches!(vm.step().unwrap(), Action::Continue));
    }
    assert_eq!(vm.state.stack.len(), before - (3 + 1) + 1);
    assert_eq!(vm.state.stack[before - 4], Value::number(8.0f64.to_bits()));
    assert_eq!(vm.state.stack[0], Value::number(7.0f64.to_bits()));
    assert!(matches!(vm.step().unwrap(), Action::Finished));
}

#[test]
fn unknown_names_are_reference_errors() {
    let mut p = Program::new();
    let missing = p.name("missing");
    let mut top = vec![bytecode::CREATE_CONTEXT];
    op32(&mut top, bytecode::GET_NAME, missing);
    top.push(bytecode::END);
    let mut vm = p.vm(vec![top]);
    assert!(matches!(vm.step().unwrap(), Action::Continue));
    match vm.step() {
        Err(rapidus::value::RuntimeError::Reference(m)) => {
            assert_eq!(m, "reference error: 'missing' is not defined")
        }
        _ => panic!("expected a reference error"),
    }
}

#[test]
fn calling_a_number_is_a_type_error() {
    let p = Program::new();
    let mut top = vec![bytecode::CREATE_CONTEXT];
    op8(&mut top, bytecode::PUSH_INT8, 1);
    op32(&mut top, bytecode::CALL, 0);
    top.push(bytecode::END);
    let mut vm = p.vm(vec![top]);
    assert!(matches!(vm.step().unwrap(), Action::Continue));
    assert!(matches!(vm.step().unwrap(), Action::Continue));
    assert!(matches!(vm.step(), Err(rapidus::value::RuntimeError::Type(_))));
}

#[test]
fn arithmetic_is_handed_to_the_host_and_negation_is_not() {
    let p = Program::new();
    let mut top = vec![bytecode::CREATE_CONTEXT];
    op8(&mut top, bytecode::PUSH_INT8, 5);
    top.push(bytecode::NEG);
    top.push(bytecode::LNOT);
    op8(&mut top, bytecode::PUSH_INT8, 2);
    top.push(bytecode::MUL);
    top.push(bytecode::END);
    let mut vm = p.vm(vec![top]);
    for _ in 0..2 {
        assert!(matches!(vm.step().unwrap(), Action::Continue));
    }
    assert!(matches!(vm.step().unwrap(), Action::Continue));
    assert_eq!(vm.state.stack[0], Value::number((-5.0f64).to_bits()));
    assert!(matches!(vm.step().unwrap(), Action::Continue));
    assert_eq!(vm.state.stack[0], Value::bool(false));
    assert!(matches!(vm.step().unwrap(), Action::Continue));
    // a boolean times a number is not an operation of the language here
    assert!(matches!(vm.step(), Err(rapidus::value::RuntimeError::Unimplemented)));
    assert_eq!(vm.state.stack.len(), 2);
}

#[test]
fn numbers_multiply_on_the_host() {
    let p = Program::new();
    let mut top = vec![bytecode::CREATE_CONTEXT];
    op8(&mut top, bytecode::PUSH_INT8, 6);
    op8(&mut top, bytecode::PUSH_INT8, 7);
    top.push(bytecode::MUL);
    top.push(bytecode::END);
    let mut vm = p.vm(vec![top]);
    for _ in 0..3 {
        assert!(matches!(vm.step().unwrap(), Action::Continue));
    }
    assert!(matches!(vm.step().unwrap(), Action::Arithmetic(bytecode::MUL)));
}

#[test]
fn arguments_length_counts_what_was_passed() {
    let mut p = Program::new();
    let f = p.function_const(1, &["a", "b", "c"]);
    let fname = p.name("f");
    let length = p.string_const("length");
    // function f(a,b,c){ return arguments.length; } console.log(f(1));
    let mut body = vec![bytecode::CREATE_CONTEXT, bytecode::PUSH_ARGUMENTS];
    op32(&mut body, bytecode::PUSH_CONST, length);
    body.push(bytecode::GET_MEMBER);
    body.push(bytecode::RETURN);
    let mut top = vec![bytecode::CREATE_CONTEXT];
    op32(&mut top, bytecode::PUSH_CONST, f);
    top.push(bytecode::SET_CUR_CALLOBJ);
    op32(&mut top, bytecode::DECL_VAR, fname);
    op8(&mut top, bytecode::PUSH_INT8, 1);
    op32(&mut top, bytecode::GET_NAME, fname);
    op32(&mut top, bytecode::CALL, 1);
    p.log(&mut top, 1);
    top.push(bytecode::END);
    let mut vm = p.vm(vec![top, body]);
    let r = run(&mut vm);
    assert_eq!(r.out, vec!["1".to_string()]);
}

#[test]
fn rest_formal_receives_an_array() {
    let mut p = Program::new();
    let ps = vec![("a".to_string(), false), ("rest".to_string(), true)];
    let t = new_template(&mut p.heap, ps);
    let fv = new_value_function(&mut p.heap, 1, t, p.globals.function_prototype);
    p.consts.value.push(fv);
    let f = (p.consts.value.len() - 1) as i32;
    let fname = p.name("f");
    let rest = p.name("rest");
    let length = p.string_const("length");
    // function f(a, ...rest){ return rest.length; } console.log(f(1,2,3), f(1));
    let mut body = vec![bytecode::CREATE_CONTEXT];
    op32(&mut body, bytecode::GET_NAME, rest);
    op32(&mut body, bytecode::PUSH_CONST, length);
    body.push(bytecode::GET_MEMBER);
    body.push(bytecode::RETURN);
    let mut top = vec![bytecode::CREATE_CONTEXT];
    op32(&mut top, bytecode::PUSH_CONST, f);
    top.push(bytecode::SET_CUR_CALLOBJ);
    op32(&mut top, bytecode::DECL_VAR, fname);
    op8(&mut top, bytecode::PUSH_INT8, 1);
    op32(&mut top, bytecode::GET_NAME, fname);
    op32(&mut top, bytecode::CALL, 1);
    for v in [3i8, 2, 1] {
        op8(&mut top, bytecode::PUSH_INT8, v);
    }
    op32(&mut top, bytecode::GET_NAME, fname);
    op32(&mut top, bytecode::CALL, 3);
    p.log(&mut top, 2);
    top.push(bytecode::END);
    let mut vm = p.vm(vec![top, body]);
    let r = run(&mut vm);
    assert_eq!(r.out, vec!["2 0".to_string()]);
}

use rapidus::jit::{box_native_result, loop_exit_ok, native_args, read_loop_locals, write_back_loop_locals, ValueType};
use rapidus::lower::{IrOp, Lowered};
use std::collections::HashMap;

/// Runs lowered code on doubles and booleans (as doubles); a loop returns
/// the position to resume at, a function its result.
fn exec_lowered(
    fns: &HashMap<usize, (Lowered, Vec<usize>)>,
    l: &Lowered,
    env: &mut HashMap<usize, f64>,
    end: Option<usize>,
    calls: &mut usize,
) -> Result<f64, usize> {
    let mut st: Vec<f64> = vec![];
    let mut i = 0;
    loop {
        if i >= l.insts.len() {
            return match end {
                Some(e) => Err(e),
                None => Ok(0.0),
            };
        }
        let mut goto = None;
        match &l.insts[i].op {
            IrOp::ConstF64(b) => st.push(f64::from_bits(*b)),
            IrOp::ConstBool(b) => st.push(if *b { 1.0 } else { 0.0 }),
            IrOp::Load(n) => st.push(env[n]),
            IrOp::Store(n) => {
                let v = st.pop().unwrap();
                env.insert(*n, v);
            }
            IrOp::FAdd | IrOp::FSub | IrOp::FMul | IrOp::FDiv | IrOp::FCmp(_) => {
                let r = st.pop().unwrap();
                let a = st.pop().unwrap();
                st.push(match &l.insts[i].op {
                    IrOp::FAdd => a + r,
                    IrOp::FSub => a - r,
                    IrOp::FMul => a * r,
                    IrOp::FDiv => a / r,
                    IrOp::FCmp(op) if *op == bytecode::LT => (a < r) as u8 as f64,
                    IrOp::FCmp(op) if *op == bytecode::GT => (a > r) as u8 as f64,
                    _ => panic!("unexpected operation"),
                });
            }
            IrOp::BranchIfFalse { target, .. } => {
                let c = st.pop().unwrap();
                if !(c != 0.0 && !c.is_nan()) {
                    goto = Some(*target);
                }
            }
            IrOp::Jump(t) => goto = Some(*t),
            IrOp::CallNative { func, argc, .. } => {
                let mut args = vec![];
                for _ in 0..*argc {
                    args.push(st.pop().unwrap());
                }
                let (fl, formals) = &fns[func];
                let mut fenv: HashMap<usize, f64> = formals.iter().cloned().zip(args).collect();
                *calls += 1;
                st.push(exec_lowered(fns, fl, &mut fenv, None, calls).unwrap());
            }
            IrOp::Return(_) => return Ok(st.pop().unwrap()),
            IrOp::Pop => {
                st.pop();
            }
            IrOp::Dup => {
                let v = *st.last().unwrap();
                st.push(v);
            }
            other => panic!("not exercised here: {:?}", other),
        }
        i = match goto {
            Some(t) => {
                if end.is_some() && l.exits.contains(&t) {
                    return Err(t);
                }
                l.insts.iter().position(|x| x.pc >= t).unwrap_or(l.insts.len())
            }
            None => i + 1,
        };
    }
}

/// Like `run`, but compilation succeeds and compiled regions run through
/// their lowered form.
fn run_compiled(vm: &mut VM) -> (Vec<String>, usize) {
    let mut out = vec![];
    let mut native = 0usize;
    let mut fns: HashMap<usize, (Lowered, Vec<usize>)> = HashMap::new();
    let mut loops: HashMap<(usize, usize), (Lowered, Vec<(usize, ValueType)>, usize)> = HashMap::new();
    for _ in 0..10_000_000 {
        match vm.step().expect("runtime error") {
            Action::Continue => {}
            Action::Finished => return (out, native),
            Action::Arithmetic(op) => {
                let n = vm.state.stack.len();
                let l = num(&vm.state.stack[n - 2]);
                let r = num(&vm.state.stack[n - 1]);
                let res = match op {
                    bytecode::ADD => Value::number((l + r).to_bits()),
                    bytecode::SUB => Value::number((l - r).to_bits()),
                    bytecode::LT => Value::bool(l < r),
                    _ => panic!("unexpected opcode"),
                };
                vm.apply_binary(res).unwrap();
            }
            Action::CallBuiltin { builtin, args, .. } => {
                assert_eq!(builtin, CONSOLE_LOG);
                out.push(args.iter().map(show).collect::<Vec<_>>().join(" "));
                vm.push_result(Value::undefined());
            }
            Action::CompileFunction { id, argc } => {
                let s = *vm.state.scope.last().unwrap();
                let params: Vec<(String, bool)> =
                    vm.heap.scopes[s].params.iter().map(|(n, b)| (n.clone(), *b)).collect();
                let l = vm.lower_function(id, &params, argc).unwrap();
                let formals = params
                    .iter()
                    .map(|(n, _)| vm.const_table.string.iter().position(|c| c == n).unwrap())
                    .collect();
                fns.insert(id, (l, formals));
                vm.jit.compile_finished(id, 0, true);
            }
            Action::CompileLoop { id, bgn, end } => {
                let (l, locals) = vm.lower_loop(bgn, end).unwrap();
                loops.insert((id, bgn), (l, locals, end));
                vm.jit.compile_finished(id, bgn, true);
            }
            Action::NativeCall { id, args } => {
                native += 1;
                let bits = native_args(&args).unwrap();
                let (fl, formals) = &fns[&id];
                let mut env: HashMap<usize, f64> =
                    formals.iter().cloned().zip(bits.iter().map(|b| f64::from_bits(*b))).collect();
                let mut calls = 0;
                let r = exec_lowered(&fns, fl, &mut env, None, &mut calls).unwrap();
                vm.push_result(box_native_result(ValueType::Number, r.to_bits()).unwrap());
            }
            Action::NativeLoop { id, bgn } => {
                native += 1;
                let (l, locals, end) = &loops[&(id, bgn)];
                let s = *vm.state.scope.last().unwrap();
                let vals = read_loop_locals(&vm.heap, s, &vm.const_table.string, locals).unwrap();
                let mut env: HashMap<usize, f64> =
                    locals.iter().map(|(n, _)| *n).zip(vals.iter().map(|b| f64::from_bits(*b))).collect();
                let mut calls = 0;
                let exit = exec_lowered(&fns, l, &mut env, Some(*end), &mut calls).unwrap_err();
                let back: Vec<u64> = locals.iter().map(|(n, _)| env[n].to_bits()).collect();
                write_back_loop_locals(&mut vm.heap, s, &vm.const_table.string, locals, &back);
                assert!(loop_exit_ok(&l.labels, bgn, *end, exit));
                vm.resume_at(exit);
            }
        }
    }
    panic!("did not finish");
}

fn fib_program() -> (Program, Vec<Vec<u8>>) {
    let mut p = Program::new();
    let f = p.function_const(1, &["n"]);
    let n = p.name("n");
    let fname = p.name("f");
    let mut body = vec![bytecode::CREATE_CONTEXT];
    op32(&mut body, bytecode::GET_NAME, n);
    op8(&mut body, bytecode::PUSH_INT8, 2);
    body.push(bytecode::LT);
    op32(&mut body, bytecode::JMP_IF_FALSE, 3);
    op8(&mut body, bytecode::PUSH_INT8, 1);
    body.push(bytecode::RETURN);
    for k in [1i8, 2] {
        op32(&mut body, bytecode::GET_NAME, n);
        op8(&mut body, bytecode::PUSH_INT8, k);
        body.push(bytecode::SUB);
        op32(&mut body, bytecode::GET_NAME, fname);
        op32(&mut body, bytecode::CALL, 1);
    }
    body.push(bytecode::ADD);
    body.push(bytecode::RETURN);
    let mut top = vec![bytecode::CREATE_CONTEXT];
    op32(&mut top, bytecode::PUSH_CONST, f);
    top.push(bytecode::SET_CUR_CALLOBJ);
    op32(&mut top, bytecode::DECL_VAR, fname);
    op8(&mut top, bytecode::PUSH_INT8, 15);
    op32(&mut top, bytecode::GET_NAME, fname);
    op32(&mut top, bytecode::CALL, 1);
    p.log(&mut top, 1);
    top.push(bytecode::END);
    (p, vec![top, body])
}

#[test]
fn compiled_function_matches_interpreter() {
    let (p, code) = fib_program();
    let mut vm = p.vm(code.clone());
    let interpreted = run(&mut vm).out;
    let (p2, code2) = fib_program();
    let mut vm2 = p2.vm(code2);
    let (compiled, native) = run_compiled(&mut vm2);
    assert_eq!(interpreted, vec!["987".to_string()]);
    assert_eq!(compiled, interpreted);
    assert!(native > 0);
}

#[test]
fn compiled_loop_matches_interpreter() {
    let build = || {
        let mut p = Program::new();
        let s = p.name("s");
        let i = p.name("i");
        let mut top = vec![bytecode::CREATE_CONTEXT];
        op8(&mut top, bytecode::PUSH_INT8, 0);
        op32(&mut top, bytecode::DECL_VAR, s);
        op8(&mut top, bytecode::PUSH_INT8, 0);
        op32(&mut top, bytecode::DECL_VAR, i);
        let head = top.len();
        let mut body = vec![];
        op32(&mut body, bytecode::GET_NAME, i);
        op32(&mut body, bytecode::PUSH_INT32, 1000);
        body.push(bytecode::LT);
        let mut rest = vec![];
        op32(&mut rest, bytecode::GET_NAME, s);
        op32(&mut rest, bytecode::GET_NAME, i);
        rest.push(bytecode::ADD);
        op32(&mut rest, bytecode::SET_NAME, s);
        op32(&mut rest, bytecode::GET_NAME, i);
        op8(&mut rest, bytecode::PUSH_INT8, 1);
        rest.push(bytecode::ADD);
        op32(&mut rest, bytecode::SET_NAME, i);
        let loop_end = head + 5 + body.len() + 5 + rest.len() + 5;
        op32(&mut top, bytecode::LOOP_START, loop_end as i32);
        top.extend_from_slice(&body);
        op32(&mut top, bytecode::JMP_IF_FALSE, (rest.len() + 5) as i32);
        top.extend_from_slice(&rest);
        let back = head as i32 - (top.len() as i32 + 5);
        op32(&mut top, bytecode::JMP, back);
        op32(&mut top, bytecode::GET_NAME, s);
        p.log(&mut top, 1);
        top.push(bytecode::END);
        (p, top)
    };
    let (p, top) = build();
    let mut vm = p.vm(vec![top]);
    let interpreted = run(&mut vm).out;
    let (p2, top2) = build();
    let mut vm2 = p2.vm(vec![top2]);
    let (compiled, native) = run_compiled(&mut vm2);
    assert_eq!(compiled, interpreted);
    assert_eq!(compiled, vec!["499500".to_string()]);
    assert_eq!(native, 1);
}
