use cranelift::codegen::data_value::DataValue;
use cranelift::codegen::ir::{ExtFuncData, ExternalName, Function, UserExternalName, UserFuncName};
use cranelift::codegen::isa::CallConv;
use cranelift::prelude::{
    types, AbiParam, EntityRef, FunctionBuilder, FunctionBuilderContext, Ieee32, Ieee64, InstBuilder,
    Signature, Type, Variable,
};
use cranelift_interpreter::environment::FunctionStore;
use cranelift_interpreter::interpreter::{Interpreter, InterpreterState};
use rowtrace::codegen::ir::{FuncRef, IrType, Value};
use rowtrace::codegen::ir::Block;
use rowtrace::codegen::utils::{
    call_fn, create_entry_block, current_block, false_byte, float_one, float_pi, float_zero,
    instruction_count, normalize_float, number_of_blocks, param_count, true_byte, try_call_fn,
    try_value_def, value_count, value_def, value_type, F32_ONE, F32_PI, F64_ONE, F64_PI,
};

fn signature(params: &[Type], results: &[Type]) -> Signature {
    let mut sig = Signature::new(CallConv::SystemV);
    for ty in params {
        sig.params.push(AbiParam::new(*ty));
    }
    for ty in results {
        sig.returns.push(AbiParam::new(*ty));
    }
    sig
}

fn run(func: &Function, args: &[DataValue]) -> Vec<DataValue> {
    let mut store = FunctionStore::default();
    store.add("f".to_string(), func);
    let state = InterpreterState::default().with_function_store(store);
    Interpreter::new(state).call_by_name("f", args).unwrap().unwrap_return()
}

fn normalizer(float_ty: Type, int_ty: Type) -> Function {
    let mut func = Function::with_name_signature(UserFuncName::testcase("f"), signature(&[float_ty], &[int_ty]));
    let mut ctx = FunctionBuilderContext::new();
    {
        let mut builder = FunctionBuilder::new(&mut func, &mut ctx);
        create_entry_block(&mut builder);
        let normalized = normalize_float(Value(0), &mut builder);
        assert_eq!(normalized, Value(4));
        builder.ins().return_(&[cranelift::prelude::Value::from_u32(normalized.0)]);
        builder.seal_all_blocks();
        builder.finalize();
    }
    func
}

fn normalize32(func: &Function, x: f32) -> i32 {
    match run(func, &[DataValue::F32(Ieee32::with_bits(x.to_bits()))])[0] {
        DataValue::I32(n) => n,
        ref other => panic!("not an i32: {other:?}"),
    }
}

fn normalize64(func: &Function, x: f64) -> i64 {
    match run(func, &[DataValue::F64(Ieee64::with_bits(x.to_bits()))])[0] {
        DataValue::I64(n) => n,
        ref other => panic!("not an i64: {other:?}"),
    }
}

fn samples32() -> Vec<f32> {
    vec![
        f32::NEG_INFINITY,
        f32::MIN,
        -1.0e10,
        -2.5,
        -1.0,
        -f32::MIN_POSITIVE,
        -f32::from_bits(1),
        -0.0,
        0.0,
        f32::from_bits(1),
        f32::MIN_POSITIVE,
        0.5,
        1.0,
        1.5,
        3.0e8,
        f32::MAX,
        f32::INFINITY,
        f32::NAN,
        -f32::NAN,
        f32::from_bits(0x7f80_0001),
        f32::from_bits(0xffff_ffff),
    ]
}

#[test]
fn normalize_f32_emits_four_instructions() {
    let text = normalizer(types::F32, types::I32).display().to_string();
    assert!(text.contains("bitcast.i32 v0"), "{text}");
    assert!(text.contains("sshr_imm v1, 31"), "{text}");
    assert!(text.contains("ushr_imm v2, 1"), "{text}");
    assert!(text.contains("bxor v1, v3"), "{text}");
}

#[test]
fn normalize_f64_shifts_by_sixty_three() {
    let text = normalizer(types::F64, types::I64).display().to_string();
    assert!(text.contains("bitcast.i64 v0"), "{text}");
    assert!(text.contains("sshr_imm v1, 63"), "{text}");
}

#[test]
fn normalize_f32_orders_as_total_order() {
    let func = normalizer(types::F32, types::I32);
    let samples = samples32();
    for a in &samples {
        for b in &samples {
            let (na, nb) = (normalize32(&func, *a), normalize32(&func, *b));
            assert_eq!(na.cmp(&nb), a.total_cmp(b), "{a} against {b}");
        }
    }
}

#[test]
fn normalize_f32_keeps_the_order_of_numbers() {
    let func = normalizer(types::F32, types::I32);
    let samples = samples32();
    for a in &samples {
        for b in &samples {
            if a.is_finite() && b.is_finite() && a < b {
                assert!(normalize32(&func, *a) < normalize32(&func, *b), "{a} < {b}");
            }
        }
    }
}

#[test]
fn normalize_f32_exact_values() {
    let func = normalizer(types::F32, types::I32);
    assert_eq!(normalize32(&func, 0.0), 0);
    assert_eq!(normalize32(&func, -0.0), -1);
    assert_eq!(normalize32(&func, 1.0), 0x3f80_0000);
    assert_eq!(normalize32(&func, -1.0), -1 - 0x3f80_0000);
    assert_eq!(normalize32(&func, f32::INFINITY), 0x7f80_0000);
    assert_eq!(normalize32(&func, f32::NEG_INFINITY), -1 - 0x7f80_0000);
    assert_eq!(normalize32(&func, f32::from_bits(0xffff_ffff)), i32::MIN);
    assert_eq!(normalize32(&func, f32::from_bits(0x7fff_ffff)), i32::MAX);
}

#[test]
fn normalize_puts_negative_zero_before_zero() {
    let f32s = normalizer(types::F32, types::I32);
    assert!(normalize32(&f32s, -0.0) < normalize32(&f32s, 0.0));
    let f64s = normalizer(types::F64, types::I64);
    assert!(normalize64(&f64s, -0.0) < normalize64(&f64s, 0.0));
}

#[test]
fn normalize_puts_nans_at_the_ends() {
    let func = normalizer(types::F32, types::I32);
    let positive = normalize32(&func, f32::from_bits(0x7fc0_0000));
    let negative = normalize32(&func, f32::from_bits(0xffc0_0000));
    for x in samples32() {
        if !x.is_nan() {
            assert!(normalize32(&func, x) < positive);
            assert!(negative < normalize32(&func, x));
        }
    }
    // among NaNs of one sign the bits decide
    assert!(normalize32(&func, f32::from_bits(0x7f80_0001)) < normalize32(&func, f32::from_bits(0x7f80_0002)));
    assert!(normalize32(&func, f32::from_bits(0xff80_0002)) < normalize32(&func, f32::from_bits(0xff80_0001)));
}

#[test]
fn normalize_f64_orders_as_total_order() {
    let func = normalizer(types::F64, types::I64);
    let samples = [
        f64::NEG_INFINITY,
        f64::MIN,
        -1.0,
        -f64::from_bits(1),
        -0.0,
        0.0,
        f64::from_bits(1),
        f64::MIN_POSITIVE,
        1.0,
        2.0,
        f64::MAX,
        f64::INFINITY,
        f64::NAN,
        -f64::NAN,
    ];
    for a in samples {
        for b in samples {
            assert_eq!(normalize64(&func, a).cmp(&normalize64(&func, b)), a.total_cmp(&b), "{a} against {b}");
        }
    }
    assert_eq!(normalize64(&func, -0.0), -1);
    assert_eq!(normalize64(&func, 1.0), 0x3ff0_0000_0000_0000);
}

#[test]
fn float_constants_have_the_bits_of_the_floats() {
    assert_eq!(F32_ONE, 1.0f32.to_bits());
    assert_eq!(F64_ONE, 1.0f64.to_bits());
    assert_eq!(F32_PI, std::f32::consts::PI.to_bits());
    assert_eq!(F64_PI, std::f64::consts::PI.to_bits());
}

/// Builds a function without parameters that hands back one value made by
/// `make`.
fn constant(result: Type, make: fn(&mut FunctionBuilder<'_>) -> Value) -> Function {
    let mut func = Function::with_name_signature(UserFuncName::testcase("f"), signature(&[], &[result]));
    let mut ctx = FunctionBuilderContext::new();
    {
        let mut builder = FunctionBuilder::new(&mut func, &mut ctx);
        create_entry_block(&mut builder);
        let v = make(&mut builder);
        assert_eq!(v, Value(0));
        builder.ins().return_(&[cranelift::prelude::Value::from_u32(v.0)]);
        builder.seal_all_blocks();
        builder.finalize();
    }
    func
}

#[test]
fn true_byte_is_one() {
    let func = constant(types::I8, |b| true_byte(b));
    assert_eq!(run(&func, &[])[0], DataValue::I8(1));
    assert!(func.display().to_string().contains("iconst.i8 1"));
}

#[test]
fn false_byte_is_zero() {
    let func = constant(types::I8, |b| false_byte(b));
    assert_eq!(run(&func, &[])[0], DataValue::I8(0));
}

#[test]
fn float_zero_one_pi_in_single_precision() {
    let zero = constant(types::F32, |b| float_zero(b, IrType::F32));
    assert_eq!(run(&zero, &[])[0], DataValue::F32(Ieee32::with_bits(0.0f32.to_bits())));
    let one = constant(types::F32, |b| float_one(b, IrType::F32));
    assert_eq!(run(&one, &[])[0], DataValue::F32(Ieee32::with_bits(1.0f32.to_bits())));
    let pi = constant(types::F32, |b| float_pi(b, IrType::F32));
    assert_eq!(run(&pi, &[])[0], DataValue::F32(Ieee32::with_bits(std::f32::consts::PI.to_bits())));
}

#[test]
fn float_zero_one_pi_in_double_precision() {
    let zero = constant(types::F64, |b| float_zero(b, IrType::F64));
    assert_eq!(run(&zero, &[])[0], DataValue::F64(Ieee64::with_bits(0.0f64.to_bits())));
    let one = constant(types::F64, |b| float_one(b, IrType::F64));
    assert_eq!(run(&one, &[])[0], DataValue::F64(Ieee64::with_bits(1.0f64.to_bits())));
    let pi = constant(types::F64, |b| float_pi(b, IrType::F64));
    assert_eq!(run(&pi, &[])[0], DataValue::F64(Ieee64::with_bits(std::f64::consts::PI.to_bits())));
}

#[test]
fn entry_block_takes_the_parameters_of_the_function() {
    let mut func = Function::with_name_signature(
        UserFuncName::testcase("f"),
        signature(&[types::I64, types::F32, types::I8], &[]),
    );
    let mut ctx = FunctionBuilderContext::new();
    let mut builder = FunctionBuilder::new(&mut func, &mut ctx);
    assert!(builder.current_block().is_none());
    let entry = create_entry_block(&mut builder);
    assert_eq!(builder.current_block().map(|b| b.as_u32()), Some(entry.0));
    let params = builder.block_params(cranelift::prelude::Block::from_u32(entry.0)).to_vec();
    assert_eq!(params.len(), 3);
    assert_eq!(value_type(&builder, Value(0)), IrType::I64);
    assert_eq!(value_type(&builder, Value(1)), IrType::F32);
    assert_eq!(value_type(&builder, Value(2)), IrType::I8);
    // a parameter is defined by no instruction
    assert_eq!(try_value_def(&builder, Value(0)), None);
    let one = true_byte(&mut builder);
    assert_eq!(one, Value(3));
    assert_eq!(value_type(&builder, one), IrType::I8);
    let inst = value_def(&builder, one);
    assert_eq!(try_value_def(&builder, one), Some(inst));
    assert_eq!(builder.func.dfg.inst_results(cranelift::codegen::ir::Inst::from_u32(inst.0))[0].as_u32(), 3);
    builder.ins().return_(&[]);
    builder.seal_all_blocks();
    builder.finalize();
}

#[test]
fn value_type_of_a_type_outside_the_model() {
    let mut func =
        Function::with_name_signature(UserFuncName::testcase("f"), signature(&[types::I128, types::I16], &[]));
    let mut ctx = FunctionBuilderContext::new();
    let mut builder = FunctionBuilder::new(&mut func, &mut ctx);
    create_entry_block(&mut builder);
    assert_eq!(value_type(&builder, Value(0)), IrType::Other);
    assert_eq!(value_type(&builder, Value(1)), IrType::I16);
    builder.ins().return_(&[]);
    builder.seal_all_blocks();
    builder.finalize();
}

#[test]
fn call_fn_hands_back_the_first_result() {
    let mut func =
        Function::with_name_signature(UserFuncName::testcase("f"), signature(&[types::I32], &[types::I64]));
    let mut ctx = FunctionBuilderContext::new();
    let mut builder = FunctionBuilder::new(&mut func, &mut ctx);
    create_entry_block(&mut builder);
    let sig = builder.import_signature(signature(&[types::I32, types::I32], &[types::I64, types::I8]));
    let name = builder.func.declare_imported_user_function(UserExternalName::new(0, 7));
    let callee = builder.import_function(ExtFuncData {
        name: ExternalName::user(name),
        signature: sig,
        colocated: false,
    });
    let result = call_fn(&mut builder, FuncRef(callee.as_u32()), &[Value(0), Value(0)]);
    assert_eq!(result, Value(1));
    assert_eq!(value_type(&builder, Value(1)), IrType::I64);
    assert_eq!(value_type(&builder, Value(2)), IrType::I8);
    assert_eq!(builder.func.dfg.num_values(), 3);
    let text = builder.func.display().to_string();
    assert!(text.contains("call fn0(v0, v0)"), "{text}");
    builder.ins().return_(&[cranelift::prelude::Value::from_u32(result.0)]);
    builder.seal_all_blocks();
    builder.finalize();
}

#[test]
fn builder_answers_where_it_stands_and_what_it_holds() {
    let mut func = Function::with_name_signature(
        UserFuncName::testcase("f"),
        signature(&[types::I64, types::F64, types::I128], &[]),
    );
    let mut ctx = FunctionBuilderContext::new();
    let mut builder = FunctionBuilder::new(&mut func, &mut ctx);
    assert_eq!(current_block(&builder), None);
    assert_eq!(value_count(&builder), 0);
    assert_eq!(param_count(&builder), 3);
    let entry = create_entry_block(&mut builder);
    assert_eq!(value_type(&builder, Value(0)), IrType::I64);
    assert_eq!(value_type(&builder, Value(1)), IrType::F64);
    assert_eq!(value_type(&builder, Value(2)), IrType::Other);
    assert_eq!(current_block(&builder), Some(entry));
    assert_eq!(entry, Block(0));
    assert_eq!(value_count(&builder), 3);
    true_byte(&mut builder);
    assert_eq!(value_count(&builder), 4);
    builder.ins().return_(&[]);
    builder.seal_all_blocks();
    builder.finalize();
}

#[test]
fn try_call_fn_calls_what_call_fn_calls() {
    let mut func =
        Function::with_name_signature(UserFuncName::testcase("f"), signature(&[types::I32], &[types::I64]));
    let mut ctx = FunctionBuilderContext::new();
    let mut builder = FunctionBuilder::new(&mut func, &mut ctx);
    create_entry_block(&mut builder);
    let sig = builder.import_signature(signature(&[types::I32], &[types::I64]));
    let name = builder.func.declare_imported_user_function(UserExternalName::new(0, 1));
    let callee = builder.import_function(ExtFuncData {
        name: ExternalName::user(name),
        signature: sig,
        colocated: false,
    });
    let result = try_call_fn(&mut builder, FuncRef(callee.as_u32()), &[Value(0)]);
    assert_eq!(result, Some(Value(1)));
    assert_eq!(value_count(&builder), 2);
    builder.ins().return_(&[cranelift::prelude::Value::from_u32(1)]);
    builder.seal_all_blocks();
    builder.finalize();
}

#[test]
fn try_call_fn_refuses_what_cannot_be_called() {
    let mut func = Function::with_name_signature(UserFuncName::testcase("f"), signature(&[types::I32], &[]));
    let mut ctx = FunctionBuilderContext::new();
    let mut builder = FunctionBuilder::new(&mut func, &mut ctx);
    create_entry_block(&mut builder);
    // no function is declared
    assert_eq!(try_call_fn(&mut builder, FuncRef(0), &[Value(0)]), None);
    // a callee that hands nothing back
    let sig = builder.import_signature(signature(&[types::I32], &[]));
    let name = builder.func.declare_imported_user_function(UserExternalName::new(0, 1));
    let silent = builder.import_function(ExtFuncData {
        name: ExternalName::user(name),
        signature: sig,
        colocated: false,
    });
    assert_eq!(try_call_fn(&mut builder, FuncRef(silent.as_u32()), &[Value(0)]), None);
    // an argument that is no value
    let sig = builder.import_signature(signature(&[types::I32], &[types::I8]));
    let name = builder.func.declare_imported_user_function(UserExternalName::new(0, 2));
    let callee = builder.import_function(ExtFuncData {
        name: ExternalName::user(name),
        signature: sig,
        colocated: false,
    });
    assert_eq!(try_call_fn(&mut builder, FuncRef(callee.as_u32()), &[Value(1)]), None);
    assert_eq!(try_call_fn(&mut builder, FuncRef(callee.as_u32() + 1), &[Value(0)]), None);
    // nothing was emitted
    assert_eq!(value_count(&builder), 1);
    assert!(!builder.func.display().to_string().contains("call"));
    builder.ins().return_(&[]);
    builder.seal_all_blocks();
    builder.finalize();
}

#[test]
fn try_call_fn_refuses_the_number_that_names_no_function() {
    let mut func = Function::with_name_signature(UserFuncName::testcase("f"), signature(&[types::I32], &[]));
    let mut ctx = FunctionBuilderContext::new();
    let mut builder = FunctionBuilder::new(&mut func, &mut ctx);
    create_entry_block(&mut builder);
    assert_eq!(try_call_fn(&mut builder, FuncRef(u32::MAX), &[Value(0)]), None);
    assert_eq!(try_call_fn(&mut builder, FuncRef(u32::MAX - 1), &[]), None);
    assert_eq!(value_count(&builder), 1);
    builder.ins().return_(&[]);
    builder.seal_all_blocks();
    builder.finalize();
}

#[test]
fn the_library_emits_on_after_cranelift_sealed_the_block() {
    let mut func = Function::with_name_signature(UserFuncName::testcase("f"), signature(&[], &[types::I32]));
    let mut ctx = FunctionBuilderContext::new();
    let mut builder = FunctionBuilder::new(&mut func, &mut ctx);
    let entry = create_entry_block(&mut builder);
    let one = true_byte(&mut builder);
    // a variable that is read before anything was written to it
    let var = Variable::new(0);
    builder.declare_var(var, types::I32);
    let read = builder.use_var(var);
    let (values, insts) = (value_count(&builder), instruction_count(&builder));
    builder.seal_block(cranelift::prelude::Block::from_u32(entry.0));
    // Cranelift made a zero for the variable; what was there stays
    assert!(value_count(&builder) > values);
    assert!(instruction_count(&builder) > insts);
    assert_eq!(value_type(&builder, one), IrType::I8);
    // the builder still takes instructions at the same block
    let next = value_count(&builder) as u32;
    let zero = false_byte(&mut builder);
    assert_eq!(zero, Value(next));
    assert_eq!(current_block(&builder), Some(entry));
    builder.ins().return_(&[read]);
    builder.finalize();
    let mut store = FunctionStore::default();
    store.add("f".to_string(), &func);
    let state = InterpreterState::default().with_function_store(store);
    let out = Interpreter::new(state).call_by_name("f", &[]).unwrap().unwrap_return();
    assert_eq!(out[0], DataValue::I32(0));
}

#[test]
fn counts_follow_what_is_emitted() {
    let mut func =
        Function::with_name_signature(UserFuncName::testcase("f"), signature(&[types::F32], &[types::I32]));
    let mut ctx = FunctionBuilderContext::new();
    let mut builder = FunctionBuilder::new(&mut func, &mut ctx);
    assert_eq!(number_of_blocks(&builder), 0);
    assert_eq!(instruction_count(&builder), 0);
    let entry = create_entry_block(&mut builder);
    assert_eq!(entry, Block(0));
    assert_eq!(number_of_blocks(&builder), 1);
    assert_eq!((instruction_count(&builder), value_count(&builder)), (0, 1));
    let normalized = normalize_float(Value(0), &mut builder);
    assert_eq!((instruction_count(&builder), value_count(&builder)), (4, 5));
    true_byte(&mut builder);
    float_pi(&mut builder, IrType::F64);
    assert_eq!((instruction_count(&builder), value_count(&builder)), (6, 7));
    // the instruction that made a value is the one with its number
    assert_eq!(value_def(&builder, normalized).0, 3);
    builder.ins().return_(&[cranelift::prelude::Value::from_u32(normalized.0)]);
    assert_eq!(instruction_count(&builder), 7);
    builder.seal_all_blocks();
    builder.finalize();
}

#[test]
fn try_call_fn_refuses_a_callee_whose_signature_does_not_exist() {
    let mut func = Function::with_name_signature(UserFuncName::testcase("f"), signature(&[types::I32], &[]));
    let mut ctx = FunctionBuilderContext::new();
    let mut builder = FunctionBuilder::new(&mut func, &mut ctx);
    create_entry_block(&mut builder);
    let name = builder.func.declare_imported_user_function(UserExternalName::new(0, 1));
    let callee = builder.import_function(ExtFuncData {
        name: ExternalName::user(name),
        signature: cranelift::codegen::ir::SigRef::from_u32(5),
        colocated: false,
    });
    assert_eq!(try_call_fn(&mut builder, FuncRef(callee.as_u32()), &[Value(0)]), None);
    assert_eq!((instruction_count(&builder), value_count(&builder)), (0, 1));
    builder.ins().return_(&[]);
    builder.seal_all_blocks();
    builder.finalize();
}
