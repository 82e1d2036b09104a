use rapidus::vm::{add_rule, AddRule};
use rapidus::bytecode::{inst_size, jump_target, read_i32, read_i8, read_u32, DECL_VAR, GET_NAME, PUSH_INT8, ADD, CALL, NUM_OPCODES};
use rapidus::fv_finder::FreeVariableFinder;
use rapidus::heap::{ArrayValue, CallObject, Heap, PropertyMap};
use rapidus::intrinsics::MathRandom;
use rapidus::jit::{
    box_native_result, collect_local_variables, native_args, read_loop_locals, write_back_local,
    write_back_loop_locals, JitDecision, TracingJit, ValueType, FUNC_THRESHOLD, LOOP_THRESHOLD,
};
use rapidus::number::{bits_of_i32, bits_of_u32, decimal_string, index_text_of_number, number_of_index_text, parse_index, u32_of_bits};
use rapidus::property::obj_find_val;
use rapidus::scope::reference_error;
use rapidus::value::{RuntimeError, Value, ValueBase};

fn n(x: f64) -> Value {
    Value::number(x.to_bits())
}

fn key(s: &str) -> String {
    s.to_string()
}

#[test]
fn integer_bit_patterns_match_doubles() {
    assert_eq!(bits_of_u32(0), 0);
    assert_eq!(bits_of_u32(1), 0x3FF0_0000_0000_0000);
    assert_eq!(bits_of_u32(5), 0x4014_0000_0000_0000);
    for v in [2u32, 3, 7, 10, 255, 1000, 499500, 65536, 0x7fff_ffff, 0xffff_ffff] {
        assert_eq!(bits_of_u32(v), (v as f64).to_bits());
    }
    assert_eq!(bits_of_i32(-1), 0xBFF0_0000_0000_0000);
    for v in [i32::MIN, -1000, -2, 0, 42, i32::MAX] {
        assert_eq!(bits_of_i32(v), (v as f64).to_bits());
    }
}

#[test]
fn small_integers_read_back_from_bits() {
    for v in [0u32, 1, 2, 3, 89, 4096, 0x8000_0000, 0xffff_ffff] {
        assert_eq!(u32_of_bits((v as f64).to_bits()), Some(v));
    }
    assert_eq!(u32_of_bits(1.5f64.to_bits()), None);
    assert_eq!(u32_of_bits((-1.0f64).to_bits()), None);
    assert_eq!(u32_of_bits(4294967296.0f64.to_bits()), None);
    assert_eq!(u32_of_bits(f64::NAN.to_bits()), None);
    assert_eq!(u32_of_bits((-0.0f64).to_bits()), None);
}

#[test]
fn decimal_text() {
    assert_eq!(decimal_string(0), "0");
    assert_eq!(decimal_string(7), "7");
    assert_eq!(decimal_string(499500), "499500");
    assert_eq!(decimal_string(u32::MAX), "4294967295");
    assert_eq!(parse_index("0"), Some(0));
    assert_eq!(parse_index("123"), Some(123));
    assert_eq!(parse_index("4294967295"), Some(u32::MAX));
    assert_eq!(parse_index("4294967296"), None);
    assert_eq!(parse_index("01"), None);
    assert_eq!(parse_index(""), None);
    assert_eq!(parse_index("1a"), None);
    assert_eq!(parse_index("length"), None);
}

#[test]
fn number_text_round_trip() {
    for x in [0u32, 1, 9, 10, 99, 12345, 0x7fff_ffff] {
        let text = index_text_of_number((x as f64).to_bits()).unwrap();
        assert_eq!(text, format!("{}", x as f64));
        assert_eq!(number_of_index_text(&text), Some((x as f64).to_bits()));
    }
    assert_eq!(index_text_of_number(0.5f64.to_bits()), None);
    assert_eq!(number_of_index_text("1.5"), None);
}

#[test]
fn operand_decoding() {
    let code = vec![PUSH_INT8, 0xff, 0x78, 0x56, 0x34, 0x12, 0xfe, 0xff, 0xff, 0xff];
    assert_eq!(read_i8(&code, 1), -1);
    assert_eq!(read_u32(&code, 2), 0x1234_5678);
    assert_eq!(read_i32(&code, 6), -2);
    assert_eq!(inst_size(PUSH_INT8), Some(2));
    assert_eq!(inst_size(CALL), Some(5));
    assert_eq!(inst_size(ADD), Some(1));
    assert_eq!(inst_size(NUM_OPCODES), None);
    assert_eq!(jump_target(10, -4), Some(6));
    assert_eq!(jump_target(10, 5), Some(15));
    assert_eq!(jump_target(3, -4), None);
}

#[test]
fn property_map_insert_and_get() {
    let mut m = PropertyMap::new();
    m.insert(key("a"), n(1.0));
    m.insert(key("b"), n(2.0));
    m.insert(key("a"), n(3.0));
    assert_eq!(m.entries.len(), 2);
    assert_eq!(m.get(&key("a")), Some(n(3.0)));
    assert_eq!(m.get(&key("b")), Some(n(2.0)));
    assert_eq!(m.get(&key("c")), None);
}

fn scope_pair(h: &mut Heap) -> (usize, usize) {
    let g = CallObject::new_global(h);
    let vals = h.alloc_map(PropertyMap::new());
    let mut c = CallObject::new(vals, Value::undefined());
    c.parent = Some(g);
    c.params = vec![(key("p"), false), (key("q"), false)];
    c.arg_rest_vals = vec![n(30.0)];
    c.argc = 3;
    let s = h.alloc_scope(c);
    (g, s)
}

#[test]
fn scope_lookup_and_assignment() {
    let mut h = Heap::new();
    let (g, s) = scope_pair(&mut h);
    h.set_value(g, key("x"), n(1.0));
    assert_eq!(h.get_value(s, &key("x")), Ok(n(1.0)));
    // assign-if-exists writes where the name is bound
    h.set_value_if_exist(s, key("x"), n(2.0));
    assert_eq!(h.get_value(g, &key("x")), Ok(n(2.0)));
    // an unbound name goes to the root record
    h.set_value_if_exist(s, key("y"), n(5.0));
    assert_eq!(h.get_value(g, &key("y")), Ok(n(5.0)));
    // a declaration shadows locally
    h.set_value(s, key("x"), n(9.0));
    assert_eq!(h.get_value(s, &key("x")), Ok(n(9.0)));
    assert_eq!(h.get_value(g, &key("x")), Ok(n(2.0)));
    match h.get_value(s, &key("nope")) {
        Err(RuntimeError::Reference(m)) => assert_eq!(m, "reference error: 'nope' is not defined"),
        other => panic!("{:?}", other),
    }
    assert!(matches!(reference_error(&key("z")), RuntimeError::Reference(_)));
}

#[test]
fn arguments_alias_formals() {
    let mut h = Heap::new();
    let (_, s) = scope_pair(&mut h);
    h.set_value(s, key("p"), n(10.0));
    h.set_value(s, key("q"), n(20.0));
    assert_eq!(h.get_arguments_length(s), 3);
    assert_eq!(h.get_arguments_nth_value(s, 0), Ok(n(10.0)));
    assert_eq!(h.get_arguments_nth_value(s, 2), Ok(n(30.0)));
    assert_eq!(h.get_arguments_nth_value(s, 3), Ok(Value::undefined()));
    // writing arguments[1] changes q, writing q changes arguments[1]
    h.set_arguments_nth_value(s, 1, n(21.0));
    assert_eq!(h.get_value(s, &key("q")), Ok(n(21.0)));
    h.set_value(s, key("q"), n(22.0));
    assert_eq!(h.get_arguments_nth_value(s, 1), Ok(n(22.0)));
    h.set_arguments_nth_value(s, 2, n(31.0));
    assert_eq!(h.get_arguments_nth_value(s, 2), Ok(n(31.0)));
    assert_eq!(h.get_parameter_nth_name(s, 0), Some(key("p")));
    assert_eq!(h.get_parameter_nth_name(s, 2), None);
}

#[test]
fn prototype_chain_lookup_terminates_on_cycles() {
    let mut h = Heap::new();
    let a = h.alloc_map(PropertyMap::new());
    let b = h.alloc_map(PropertyMap::new());
    h.map_insert(a, key("__proto__"), Value::object(b));
    h.map_insert(b, key("k"), n(7.0));
    assert_eq!(obj_find_val(&h, &h.maps[a], &key("k")), n(7.0));
    assert_eq!(obj_find_val(&h, &h.maps[a], &key("missing")), Value::undefined());
    // a cycle introduced by a program still ends the walk
    h.map_insert(b, key("__proto__"), Value::object(a));
    assert_eq!(obj_find_val(&h, &h.maps[a], &key("missing")), Value::undefined());
    assert_eq!(obj_find_val(&h, &h.maps[b], &key("k")), n(7.0));
}

#[test]
fn property_reads_by_kind() {
    let mut h = Heap::new();
    let g = CallObject::new_global(&mut h);
    let proto = h.alloc_array(ArrayValue::new(vec![], 0));
    let arr = h.alloc_array(ArrayValue::new(vec![n(1.0), Value::empty(), n(3.0)], proto));
    let a = Value::array(arr);
    assert_eq!(a.get_property(&h, &n(0.0).val, g), n(1.0));
    assert_eq!(a.get_property(&h, &n(1.0).val, g), Value::undefined());
    assert_eq!(a.get_property(&h, &ValueBase::String(key("2")), g), n(3.0));
    assert_eq!(a.get_property(&h, &n(5.0).val, g), Value::undefined());
    assert_eq!(a.get_property(&h, &ValueBase::String(key("length")), g), n(3.0));
    let s = Value::string(key("h\u{1F600}i"));
    assert_eq!(s.get_property(&h, &ValueBase::String(key("length")), g), n(4.0));
    assert_eq!(s.get_property(&h, &n(2.0).val, g), Value::string(key("i")));
    assert_eq!(s.get_property(&h, &n(3.0).val, g), Value::undefined());
    assert_eq!(Value::null().get_property(&h, &n(0.0).val, g), Value::undefined());
}

#[test]
fn property_writes_grow_arrays() {
    let mut h = Heap::new();
    let g = CallObject::new_global(&mut h);
    let arr = h.alloc_array(ArrayValue::new(vec![n(1.0)], 0));
    let a = Value::array(arr);
    h.set_property(&a, &n(3.0).val, n(4.0), g);
    assert_eq!(h.arrays[arr].length, 4);
    assert_eq!(h.arrays[arr].elems.len(), 4);
    assert_eq!(h.arrays[arr].elems[1], Value::empty());
    assert_eq!(a.get_property(&h, &n(3.0).val, g), n(4.0));
    h.set_property(&a, &ValueBase::String(key("length")), n(2.0), g);
    assert_eq!(h.arrays[arr].length, 2);
    assert_eq!(a.get_property(&h, &n(3.0).val, g), Value::undefined());
    h.set_property(&a, &ValueBase::String(key("name")), n(8.0), g);
    assert_eq!(a.get_property(&h, &ValueBase::String(key("name")), g), n(8.0));
    let o = Value::object(h.alloc_map(PropertyMap::new()));
    h.set_property(&o, &ValueBase::String(key("x")), n(42.0), g);
    assert_eq!(o.get_property(&h, &ValueBase::String(key("x")), g), n(42.0));
}

#[test]
fn function_sites_follow_the_threshold_and_dead_state() {
    let mut j = TracingJit::new();
    for _ in 0..FUNC_THRESHOLD {
        assert_eq!(j.can_jit(3, 1), JitDecision::Interpret);
    }
    assert!(j.func_is_called_enough_times(3, 0));
    assert_eq!(j.can_jit(3, 1), JitDecision::Compile);
    j.compile_finished(3, 0, false);
    for _ in 0..10 {
        assert_eq!(j.can_jit(3, 1), JitDecision::Interpret);
    }
    // too many arguments: marked dead at once
    for _ in 0..FUNC_THRESHOLD {
        j.can_jit(4, 4);
    }
    assert_eq!(j.can_jit(4, 4), JitDecision::Interpret);
    assert_eq!(j.can_jit(4, 1), JitDecision::Interpret);
    // success: native code is reused
    for _ in 0..FUNC_THRESHOLD {
        j.can_jit(5, 2);
    }
    assert_eq!(j.can_jit(5, 2), JitDecision::Compile);
    j.compile_finished(5, 0, true);
    assert_eq!(j.can_jit(5, 2), JitDecision::RunNative);
}

#[test]
fn loop_sites_need_seven_entries() {
    let mut j = TracingJit::new();
    for _ in 0..LOOP_THRESHOLD {
        assert_eq!(j.can_loop_jit(0, 12, true), JitDecision::Interpret);
    }
    assert!(j.loop_is_called_enough_times(0, 12));
    assert_eq!(j.can_loop_jit(0, 12, false), JitDecision::Interpret);
    assert_eq!(j.can_loop_jit(0, 12, true), JitDecision::Interpret);
    assert_eq!(j.count_of(0, 12), LOOP_THRESHOLD);
}

#[test]
fn return_types_are_recorded() {
    let mut j = TracingJit::new();
    assert_eq!(j.function_return_type(2), ValueType::Number);
    j.record_function_return_type(2, &Value::bool(true));
    assert_eq!(j.function_return_type(2), ValueType::Bool);
    j.record_function_return_type(2, &Value::undefined());
    assert_eq!(j.function_return_type(2), ValueType::Bool);
    j.record_function_return_type(2, &n(1.0));
    assert_eq!(j.function_return_type(2), ValueType::Number);
}

#[test]
fn loop_locals_are_collected() {
    let names = vec![key("i"), key("s"), key("o")];
    let mut locals = PropertyMap::new();
    locals.insert(key("i"), n(0.0));
    locals.insert(key("s"), Value::bool(true));
    let mut code = vec![];
    for (op, id) in [(GET_NAME, 0u32), (DECL_VAR, 1), (GET_NAME, 0)] {
        code.push(op);
        code.extend_from_slice(&id.to_le_bytes());
    }
    code.push(ADD);
    let r = collect_local_variables(&code, &names, &locals, 0, code.len()).unwrap();
    assert_eq!(r, vec![(0, ValueType::Number), (1, ValueType::Bool)]);
    // a string-valued local cannot be compiled
    let mut with_string = PropertyMap::new();
    with_string.insert(key("i"), Value::string(key("text")));
    assert!(collect_local_variables(&code, &names, &with_string, 0, code.len()).is_err());
    // an object-valued local cannot be compiled
    locals.insert(key("o"), Value::object(0));
    code.push(GET_NAME);
    code.extend_from_slice(&2u32.to_le_bytes());
    assert!(collect_local_variables(&code, &names, &locals, 0, code.len()).is_err());
    // an undecodable region fails too
    assert!(collect_local_variables(&vec![NUM_OPCODES], &names, &locals, 0, 1).is_err());
}

#[test]
fn xorshift_steps() {
    let mut r = MathRandom::with_seed(1);
    assert_eq!(r.next(), 270369);
    assert_eq!(r.seed, 270369);
    let mut r2 = MathRandom::with_seed(0xf6d5_8219_6d58_8cac);
    let mut s: u64 = 0xf6d5_8219_6d58_8cac;
    s ^= s << 13;
    s ^= s >> 17;
    s ^= s << 5;
    assert_eq!(r2.next(), s);
    let _ = MathRandom::new();
}

#[test]
fn free_variable_finder_starts_with_console() {
    let f = FreeVariableFinder::new();
    assert_eq!(f.varmap, vec![vec![key("console")]]);
    assert!(f.cur_fv.is_empty());
}

#[test]
fn truthiness() {
    assert!(!n(0.0).to_boolean());
    assert!(!n(-0.0).to_boolean());
    assert!(!n(f64::NAN).to_boolean());
    assert!(n(2.5).to_boolean());
    assert!(!Value::string(key("")).to_boolean());
    assert!(Value::string(key("a")).to_boolean());
    assert!(!Value::undefined().to_boolean());
    assert!(Value::object(0).to_boolean());
}

#[test]
fn native_marshalling() {
    assert_eq!(native_args(&vec![n(1.0), n(2.5)]), Some(vec![1.0f64.to_bits(), 2.5f64.to_bits()]));
    assert_eq!(native_args(&vec![n(1.0), Value::bool(true)]), None);
    assert_eq!(box_native_result(ValueType::Number, 3.0f64.to_bits()), Some(n(3.0)));
    assert_eq!(box_native_result(ValueType::Bool, 1), Some(Value::bool(true)));
    assert_eq!(box_native_result(ValueType::String, 1), None);

    let mut h = Heap::new();
    let g = CallObject::new_global(&mut h);
    h.set_value(g, key("i"), n(4.0));
    h.set_value(g, key("b"), Value::bool(true));
    let names = vec![key("i"), key("b"), key("o")];
    let locals = vec![(0, ValueType::Number), (1, ValueType::Bool)];
    assert_eq!(read_loop_locals(&h, g, &names, &locals), Some(vec![4.0f64.to_bits(), 1]));
    write_back_loop_locals(&mut h, g, &names, &locals, &vec![10.0f64.to_bits(), 0]);
    assert_eq!(h.get_value(g, &key("i")), Ok(n(10.0)));
    assert_eq!(h.get_value(g, &key("b")), Ok(Value::bool(false)));
    write_back_local(&mut h, g, &key("i"), ValueType::Number, 11.0f64.to_bits());
    assert_eq!(h.get_value(g, &key("i")), Ok(n(11.0)));
    h.set_value(g, key("o"), Value::object(0));
    assert_eq!(read_loop_locals(&h, g, &names, &vec![(2, ValueType::Number)]), None);
    // a boolean where the loop was compiled for a number does not enter native code
    assert_eq!(read_loop_locals(&h, g, &names, &vec![(1, ValueType::Number)]), None);
}

#[test]
fn value_helpers() {
    let mut v = n(1.0);
    v.set_number_if_possible(2.0f64.to_bits());
    assert_eq!(v, n(2.0));
    let mut b = Value::bool(true);
    b.set_number_if_possible(2.0f64.to_bits());
    assert_eq!(b, Value::bool(true));
    assert!(matches!(Value::function(1, 2, 3).val, ValueBase::Function(_)));
}

#[test]
fn loop_region_labels_and_exits() {
    let mut code = vec![rapidus::bytecode::LOOP_START, 0, 0, 0, 0];
    code.push(GET_NAME);
    code.extend_from_slice(&0u32.to_le_bytes());
    code.push(rapidus::bytecode::JMP_IF_FALSE);
    code.extend_from_slice(&20i32.to_le_bytes());
    code.push(rapidus::bytecode::JMP);
    code.extend_from_slice(&(-20i32).to_le_bytes());
    let end = code.len();
    let labels = rapidus::jit::jump_labels(&code, 0, end, false).unwrap();
    assert_eq!(labels, vec![15 + 20, 20 - 20]);
    assert!(rapidus::jit::loop_exit_ok(&labels, 0, end, end));
    assert!(rapidus::jit::loop_exit_ok(&labels, 0, end, 35));
    assert!(!rapidus::jit::loop_exit_ok(&labels, 0, end, 0));
    assert!(!rapidus::jit::loop_exit_ok(&labels, 0, end, 99));
    // an instruction compiled code does not handle
    let bad = vec![rapidus::bytecode::SET_CUR_CALLOBJ];
    assert_eq!(rapidus::jit::jump_labels(&bad, 0, 1, false), None);
    // object creation, member writes and `this` are not compiled either
    for op in [rapidus::bytecode::CREATE_OBJECT, rapidus::bytecode::SET_MEMBER, rapidus::bytecode::PUSH_THIS,
               rapidus::bytecode::PUSH_ARGUMENTS, rapidus::bytecode::CONSTRUCT, rapidus::bytecode::CREATE_ARRAY] {
        let mut code = vec![op];
        code.extend_from_slice(&[0, 0, 0, 0]);
        assert_eq!(rapidus::jit::jump_labels(&code, 0, 1, false), None);
    }
    // a return is handled in functions only
    let ret = vec![rapidus::bytecode::RETURN];
    assert_eq!(rapidus::jit::jump_labels(&ret, 0, 1, false), None);
    assert_eq!(rapidus::jit::jump_labels(&ret, 0, 1, true), Some(vec![]));
}

#[test]
fn collection_empties_only_unreachable_records() {
    let mut h = Heap::new();
    let g = CallObject::new_global(&mut h);
    let live = h.alloc_map(PropertyMap::new());
    let dead = h.alloc_map(PropertyMap::new());
    let cyc_a = h.alloc_map(PropertyMap::new());
    let cyc_b = h.alloc_map(PropertyMap::new());
    h.map_insert(live, key("k"), n(1.0));
    h.map_insert(dead, key("k"), n(2.0));
    // an unreachable cycle, and a reachable one
    h.map_insert(cyc_a, key("__proto__"), Value::object(cyc_b));
    h.map_insert(cyc_b, key("__proto__"), Value::object(cyc_a));
    h.map_insert(live, key("loop"), Value::object(live));
    h.set_value(g, key("o"), Value::object(live));
    let arr = h.alloc_array(ArrayValue::new(vec![n(5.0)], 0));
    let stack = vec![Value::array(arr)];
    let m = rapidus::gc::collect(&mut h, &stack, &vec![g], &vec![]);
    assert!(m.maps[live] && !m.maps[dead] && !m.maps[cyc_a] && !m.maps[cyc_b]);
    assert_eq!(h.maps[live].get(&key("k")), Some(n(1.0)));
    assert_eq!(h.maps[dead].entries.len(), 0);
    assert_eq!(h.maps[cyc_a].entries.len(), 0);
    assert_eq!(h.get_value(g, &key("o")), Ok(Value::object(live)));
    assert_eq!(h.arrays[arr].length, 1);
    assert_eq!(h.maps.len(), 5);
}

#[test]
fn array_push_and_pop() {
    let mut h = Heap::new();
    let a = h.alloc_array(ArrayValue::new(vec![n(1.0)], 0));
    assert_eq!(h.array_push(a, &vec![n(2.0), n(3.0)]), Some(3));
    assert_eq!(h.arrays[a].length, 3);
    assert_eq!(h.array_pop(a), Some(n(3.0)));
    assert_eq!(h.arrays[a].length, 2);
    assert_eq!(h.array_pop(a), Some(n(2.0)));
    assert_eq!(h.array_pop(a), Some(n(1.0)));
    assert_eq!(h.array_pop(a), None);
    assert_eq!(h.array_push(7, &vec![n(1.0)]), None);
}

#[test]
fn other_keys_use_their_string_form() {
    let mut h = Heap::new();
    let g = CallObject::new_global(&mut h);
    let o = Value::object(h.alloc_map(PropertyMap::new()));
    h.set_property(&o, &ValueBase::Bool(true), n(1.0), g);
    h.set_property(&o, &ValueBase::Undefined, n(2.0), g);
    assert_eq!(o.get_property(&h, &ValueBase::String(key("true")), g), n(1.0));
    assert_eq!(o.get_property(&h, &ValueBase::String(key("undefined")), g), n(2.0));
    assert_eq!(o.get_property(&h, &ValueBase::Bool(true), g), n(1.0));
    let mut f = n(5.0);
    f.writable = false;
    h.set_property(&o, &ValueBase::String(key("ro")), f, g);
    assert!(!o.get_property(&h, &ValueBase::String(key("ro")), g).writable);
}

#[test]
fn operand_kinds_and_string_equality() {
    let num = ValueBase::Number(1.0f64.to_bits());
    let st = ValueBase::String(key("a"));
    assert!(rapidus::vm::binary_accepts(ADD, &st, &ValueBase::Undefined));
    assert!(rapidus::vm::binary_accepts(rapidus::bytecode::MUL, &st, &num));
    assert!(!rapidus::vm::binary_accepts(rapidus::bytecode::SUB, &st, &num));
    assert!(rapidus::vm::binary_accepts(rapidus::bytecode::LT, &st, &st));
    assert!(!rapidus::vm::binary_accepts(rapidus::bytecode::EQ, &st, &num));
    assert_eq!(rapidus::vm::string_equality(rapidus::bytecode::EQ, &key("x"), &key("x")), Some(Value::bool(true)));
    assert_eq!(rapidus::vm::string_equality(rapidus::bytecode::SNE, &key("x"), &key("y")), Some(Value::bool(true)));
    assert_eq!(rapidus::vm::string_equality(rapidus::bytecode::LT, &key("x"), &key("y")), None);
}

#[test]
fn shrinking_an_array_drops_its_tail() {
    let mut h = Heap::new();
    let g = CallObject::new_global(&mut h);
    let arr = h.alloc_array(ArrayValue::new(vec![n(1.0), n(2.0), n(3.0)], 0));
    let a = Value::array(arr);
    h.set_property(&a, &ValueBase::String(key("length")), n(1.0), g);
    assert_eq!(h.array_push(arr, &vec![n(9.0)]), Some(2));
    assert_eq!(a.get_property(&h, &n(1.0).val, g), n(9.0));
    assert_eq!(a.get_property(&h, &n(2.0).val, g), Value::undefined());
    h.set_property(&a, &ValueBase::String(key("length")), n(4.0), g);
    assert_eq!(a.get_property(&h, &n(3.0).val, g), Value::undefined());
    assert_eq!(h.arrays[arr].elems.len(), 4);
}

#[test]
fn dead_sites_are_not_counted() {
    let mut j = TracingJit::new();
    j.can_jit(8, 1);
    j.compile_finished(8, 0, false);
    let before = j.count_of(8, 0);
    for _ in 0..10 {
        assert_eq!(j.can_jit(8, 1), JitDecision::Interpret);
    }
    assert_eq!(j.count_of(8, 0), before);
}

#[test]
fn function_signatures() {
    assert_eq!(rapidus::lower::func_signature(4, None), Err(()));
    assert_eq!(rapidus::lower::func_signature(2, None), Ok((2, ValueType::Number)));
    assert_eq!(rapidus::lower::func_signature(3, Some(ValueType::Bool)), Ok((3, ValueType::Bool)));
}

#[test]
fn loop_regions_lower_to_typed_operations() {
    let mut h = Heap::new();
    let g = CallObject::new_global(&mut h);
    let j = TracingJit::new();
    let mut consts = rapidus::vm::ConstantTable::new();
    consts.string.push(key("i"));
    let locals = vec![(0usize, ValueType::Number)];
    // loop_start; i < 10 ? (i = i + 1; jmp back) : exit
    let mut code = vec![rapidus::bytecode::LOOP_START, 0, 0, 0, 0];
    code.push(GET_NAME);
    code.extend_from_slice(&0u32.to_le_bytes());
    code.push(PUSH_INT8);
    code.push(10);
    code.push(rapidus::bytecode::LT);
    code.push(rapidus::bytecode::JMP_IF_FALSE);
    code.extend_from_slice(&18i32.to_le_bytes());
    code.push(GET_NAME);
    code.extend_from_slice(&0u32.to_le_bytes());
    code.push(PUSH_INT8);
    code.push(1);
    code.push(ADD);
    code.push(rapidus::bytecode::SET_NAME);
    code.extend_from_slice(&0u32.to_le_bytes());
    code.push(rapidus::bytecode::JMP);
    let back = -(code.len() as i32 + 4);
    code.extend_from_slice(&back.to_le_bytes());
    let end = code.len();
    let l = rapidus::lower::gen_body(&code, &consts, &h, g, &j, &locals, 0, ValueType::Number, 0, end, false).unwrap();
    let ops: Vec<String> = l.insts.iter().map(|i| format!("{:?}", i.op)).collect();
    assert_eq!(ops[0], "Load(0)");
    assert_eq!(ops[1], format!("ConstF64({})", 10.0f64.to_bits()));
    assert_eq!(ops[2], format!("FCmp({})", rapidus::bytecode::LT));
    assert_eq!(ops[3], format!("BranchIfFalse {{ target: {}, guard: Bool }}", end));
    assert_eq!(ops[6], "FAdd");
    assert_eq!(ops[7], "Store(0)");
    assert_eq!(ops[8], "Jump(0)");
    assert_eq!(l.exits, vec![end]);
    // a string local cannot take part in arithmetic
    let bad = vec![(0usize, ValueType::String)];
    assert!(rapidus::lower::gen_body(&code, &consts, &h, g, &j, &bad, 0, ValueType::Number, 0, end, false).is_err());
    // a call to a function without native code does not lower
    consts.string.push(key("f"));
    let mut call = vec![rapidus::bytecode::LOOP_START, 0, 0, 0, 0];
    call.push(GET_NAME);
    call.extend_from_slice(&1u32.to_le_bytes());
    call.push(CALL);
    call.extend_from_slice(&0u32.to_le_bytes());
    let mut h2 = Heap::new();
    let g2 = CallObject::new_global(&mut h2);
    h2.set_value(g2, key("f"), Value::function(3, 0, 0));
    let e = call.len();
    assert!(rapidus::lower::gen_body(&call, &consts, &h2, g2, &j, &locals, 0, ValueType::Number, 0, e, false).is_err());
}

#[test]
fn add_chooses_its_coercion_rule() {
    let num = ValueBase::Number(1.0f64.to_bits());
    assert_eq!(add_rule(&num, &num), AddRule::Numbers);
    assert_eq!(add_rule(&ValueBase::Bool(true), &num), AddRule::BoolAndNumber);
    assert_eq!(add_rule(&num, &ValueBase::Undefined), AddRule::NotANumber);
    assert_eq!(add_rule(&ValueBase::String(key("a")), &num), AddRule::Concatenate);
    assert_eq!(add_rule(&ValueBase::Bool(true), &ValueBase::Bool(false)), AddRule::Concatenate);
}
