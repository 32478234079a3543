//! The Cranelift function builder as this crate sees it.
//!
//! A `FunctionBuilder` is opaque to the verifier. What the proofs know of it
//! is what it holds: the instructions of the function in the order in which
//! they were made, the type of every value of the function, the block it
//! stands at, and a few facts on blocks, callees and instructions. Every function below that carries
//! `#[verifier::external_body]`, and every `assume_specification`, states
//! what one Cranelift function does to these; none of that is proved here.
use vstd::prelude::*;
use cranelift::prelude::FunctionBuilder;
use cranelift::prelude::InstBuilder;
use cranelift::prelude::IntCC;
use cranelift::prelude::MemFlags;
use cranelift::prelude::Type;
use cranelift::prelude::types;
use crate::codegen::ir::defined_types;
use crate::codegen::ir::Block;
use crate::codegen::ir::FuncRef;
use crate::codegen::ir::Inst;
use crate::codegen::ir::InstRef;
use crate::codegen::ir::IrType;
use crate::codegen::ir::MemFlag;
use crate::codegen::ir::Value;

verus! {

#[verifier::external_type_specification]
#[verifier::external_body]
pub struct ExFunctionBuilder<'a>(FunctionBuilder<'a>);

#[verifier::external_type_specification]
#[verifier::external_body]
pub struct ExMemFlags(MemFlags);

#[verifier::external_type_specification]
#[verifier::external_body]
pub struct ExType(Type);

/// Where a builder stands: at no block yet, or at a block. A block is
/// filled once it ends in a terminator and takes no more instructions.
pub enum Position {
    Unset,
    At { block: Block, filled: bool },
}

/// Cranelift keeps the number of an instruction or of a block in 24 bits of
/// a value's entry, and the highest of those numbers for "none": the
/// numbers that can be kept are those below this one.
pub const MAX_PACKED_INDEX: usize = 0xff_ffff;

/// Cranelift keeps the place of a value among the results of its
/// instruction, or among the parameters of its block, in 16 bits: an
/// instruction or a block has at most this many of them.
pub const MAX_RESULTS: usize = 0x1_0000;

/// The instructions of the function that the model knows, in the order in
/// which they were made. An instruction appended through the builder is the
/// last one made; Cranelift makes some of its own when a block is sealed.
pub uninterp spec fn emitted(builder: FunctionBuilder<'_>) -> Seq<Inst>;

/// The type of every value of the function, by value index.
pub uninterp spec fn value_types(builder: FunctionBuilder<'_>) -> Seq<IrType>;

/// Where the builder stands.
pub uninterp spec fn position(builder: FunctionBuilder<'_>) -> Position;

/// The block was created and nothing was done with it: it has no
/// instruction, no parameter and no predecessor, and is not sealed.
pub uninterp spec fn pristine(builder: FunctionBuilder<'_>, block: Block) -> bool;

/// Number of instructions of the function, those that the model does not
/// know too. It is the number that the next instruction made gets.
pub uninterp spec fn inst_count(builder: FunctionBuilder<'_>) -> nat;

/// Number of blocks of the function. It is the number that the next block
/// made gets.
pub uninterp spec fn block_count(builder: FunctionBuilder<'_>) -> nat;

/// For every function declared to the function under construction, by
/// function index: the types of the results of its signature, or nothing
/// where the signature it names does not exist.
pub uninterp spec fn callee_results(builder: FunctionBuilder<'_>) -> Seq<Option<Seq<IrType>>>;

/// The types of the parameters of the function under construction.
pub uninterp spec fn param_types(builder: FunctionBuilder<'_>) -> Seq<IrType>;

/// The values that the instruction defined, in order.
pub uninterp spec fn inst_results(builder: FunctionBuilder<'_>, inst: InstRef) -> Seq<Value>;

/// The instruction that defined the value; nothing for a block parameter.
pub uninterp spec fn defining_inst(builder: FunctionBuilder<'_>, v: Value) -> Option<InstRef>;

/// The flags that a `MemFlags` holds.
pub uninterp spec fn flag_set(flags: MemFlags) -> Set<MemFlag>;

/// The type that a Cranelift `Type` stands for in the model.
pub uninterp spec fn modelled(ty: Type) -> IrType;

/// The builder takes `n` more instructions that define one value each: it
/// stands at a block that is not filled, the new values can be numbered,
/// and the numbers of the new instructions can be kept in their values'
/// entries.
pub open spec fn can_append(builder: FunctionBuilder<'_>, n: nat) -> bool {
    &&& position(builder) matches Position::At { filled: false, .. }
    &&& value_types(builder).len() + n < u32::MAX
    &&& inst_count(builder) + n < MAX_PACKED_INDEX
}

/// `v` is a value of the function under construction. The number
/// `u32::MAX` is kept back and names no value.
pub open spec fn defined(builder: FunctionBuilder<'_>, v: Value) -> bool {
    &&& (v.0 as int) < value_types(builder).len()
    &&& v.0 < u32::MAX
}

/// The type of `v` in the function under construction.
pub open spec fn type_of(builder: FunctionBuilder<'_>, v: Value) -> IrType {
    value_types(builder)[v.0 as int]
}

/// The index that the next new value gets.
pub open spec fn next_value(builder: FunctionBuilder<'_>) -> nat {
    value_types(builder).len()
}

/// `post` is `pre` after `code` was appended: the instructions are there in
/// order, each value they define has its type, the builder stands where it
/// stood, and the function has the parameters and the declared callees it
/// had.
pub open spec fn extends(pre: FunctionBuilder<'_>, post: FunctionBuilder<'_>, code: Seq<Inst>) -> bool {
    &&& emitted(post) == emitted(pre) + code
    &&& value_types(post) == value_types(pre) + defined_types(code)
    &&& inst_count(post) == inst_count(pre) + code.len()
    &&& position(post) == position(pre)
    &&& same_signatures(pre, post)
}

/// The function has the same parameters, the same declared callees and
/// the same number of blocks in both states.
pub open spec fn same_signatures(pre: FunctionBuilder<'_>, post: FunctionBuilder<'_>) -> bool {
    &&& param_types(post) == param_types(pre)
    &&& callee_results(post) == callee_results(pre)
    &&& block_count(post) == block_count(pre)
}

/// `post` is `pre` after the one instruction `inst` was appended: it is the
/// last of the instructions, the values it defines are new, numbered in
/// order after all others and of the types it gives them, the builder
/// stands where it stood, and the function has the parameters and the
/// declared callees it had.
pub open spec fn appends(pre: FunctionBuilder<'_>, post: FunctionBuilder<'_>, inst: Inst) -> bool {
    &&& emitted(post) == emitted(pre).push(inst)
    &&& value_types(post) == value_types(pre) + inst.result_types()
    &&& inst_count(post) == inst_count(pre) + 1
    &&& position(post) == position(pre)
    &&& same_signatures(pre, post)
}

/// `func` is declared to the function under construction, with a signature
/// that exists. The number `u32::MAX` is kept back and names no function.
pub open spec fn declared(builder: FunctionBuilder<'_>, func: FuncRef) -> bool {
    &&& (func.0 as int) < callee_results(builder).len()
    &&& func.0 < u32::MAX
    &&& callee_results(builder)[func.0 as int] is Some
}

/// The types of the results of `func`.
pub open spec fn results_of(builder: FunctionBuilder<'_>, func: FuncRef) -> Seq<IrType> {
    callee_results(builder)[func.0 as int]->0
}

/// The builder takes a call of `func`: the callee is declared, the builder
/// stands at a block that is not filled, the values that the call yields
/// can be numbered and are no more than an instruction can have, and the
/// number of the call can be kept in their entries.
pub open spec fn can_call(builder: FunctionBuilder<'_>, func: FuncRef) -> bool {
    &&& declared(builder, func)
    &&& position(builder) matches Position::At { filled: false, .. }
    &&& results_of(builder, func).len() <= MAX_RESULTS
    &&& value_types(builder).len() + results_of(builder, func).len() < u32::MAX
    &&& inst_count(builder) + 1 < MAX_PACKED_INDEX
}

/// The `n` values numbered from `first` on.
pub open spec fn values_from(first: nat, n: nat) -> Seq<Value> {
    Seq::new(n, |i: int| Value((first + i) as u32))
}

/// `MemFlags::new`: no flag is set.
pub assume_specification[ MemFlags::new ]() -> (flags: MemFlags)
    ensures
        flag_set(flags) == Set::<MemFlag>::empty(),
;

/// `MemFlags::trusted`: exactly `notrap` and `aligned` are set.
pub assume_specification[ MemFlags::trusted ]() -> (flags: MemFlags)
    ensures
        flag_set(flags) == Set::<MemFlag>::empty().insert(MemFlag::Notrap).insert(MemFlag::Aligned),
;

/// `MemFlags::set_readonly`: sets `readonly` and leaves every other flag.
pub assume_specification[ MemFlags::set_readonly ](flags: &mut MemFlags)
    ensures
        flag_set(*final(flags)) == flag_set(*old(flags)).insert(MemFlag::Readonly),
;

/// The Cranelift constant for a modelled scalar type.
#[verifier::external_body]
pub(crate) fn clif_type(ty: IrType) -> (t: Type)
    requires
        ty != IrType::Other,
    ensures
        modelled(t) == ty,
{
    match ty {
        IrType::I8 => types::I8,
        IrType::I16 => types::I16,
        IrType::I32 => types::I32,
        IrType::I64 => types::I64,
        IrType::F32 => types::F32,
        IrType::F64 => types::F64,
        IrType::Other => types::INVALID,
    }
}

/// Tells Cranelift's scalar type constants apart; any other type is `Other`.
#[verifier::external_body]
pub(crate) fn model_type(t: Type) -> (ty: IrType)
    ensures
        ty == modelled(t),
{
    match t {
        types::I8 => IrType::I8,
        types::I16 => IrType::I16,
        types::I32 => IrType::I32,
        types::I64 => IrType::I64,
        types::F32 => IrType::F32,
        types::F64 => IrType::F64,
        _ => IrType::Other,
    }
}

/// `DataFlowGraph::value_type`: the type recorded for an existing value. It
/// indexes the value table, so the value must exist.
#[verifier::external_body]
pub(crate) fn raw_value_type(builder: &FunctionBuilder<'_>, v: Value) -> (ty: Type)
    requires
        defined(*builder, v),
    ensures
        modelled(ty) == type_of(*builder, v),
{
    builder.func.dfg.value_type(cranelift::prelude::Value::from_u32(v.0))
}

/// `InstBuilder::load` on `FunctionBuilder::ins`: appends one `load` of type
/// `ty`; its result is a new value of that type, numbered after all others.
#[verifier::external_body]
pub(crate) fn emit_load(
    builder: &mut FunctionBuilder<'_>,
    ty: Type,
    flags: MemFlags,
    base: Value,
    offset: i32,
) -> (v: Value)
    requires
        can_append(*old(builder), 1),
        defined(*old(builder), base),
    ensures
        v.0 == value_types(*old(builder)).len(),
        appends(
            *old(builder),
            *final(builder),
            Inst::Load { result: v, ty: modelled(ty), flags: flag_set(flags), base, offset },
        ),
{
    let base = cranelift::prelude::Value::from_u32(base.0);
    Value(builder.ins().load(ty, flags, base, offset).as_u32())
}

/// `InstBuilder::store` on `FunctionBuilder::ins`: appends one `store` of
/// `value`, resolved at that value's type; it defines no value.
#[verifier::external_body]
pub(crate) fn emit_store(
    builder: &mut FunctionBuilder<'_>,
    flags: MemFlags,
    value: Value,
    base: Value,
    offset: i32,
)
    requires
        can_append(*old(builder), 0),
        defined(*old(builder), value),
        defined(*old(builder), base),
    ensures
        appends(
            *old(builder),
            *final(builder),
            Inst::Store { ty: type_of(*old(builder), value), flags: flag_set(flags), value, base, offset },
        ),
{
    let value = cranelift::prelude::Value::from_u32(value.0);
    let base = cranelift::prelude::Value::from_u32(base.0);
    builder.ins().store(flags, value, base, offset);
}

/// `InstBuilder::icmp_imm` with `IntCC::Equal`: appends one comparison of
/// `arg` with the immediate, resolved at the type of `arg`; the result is a
/// new `I8` value.
#[verifier::external_body]
pub(crate) fn emit_is_equal_imm(builder: &mut FunctionBuilder<'_>, arg: Value, imm: i64) -> (v: Value)
    requires
        can_append(*old(builder), 1),
        defined(*old(builder), arg),
    ensures
        v.0 == value_types(*old(builder)).len(),
        appends(
            *old(builder),
            *final(builder),
            Inst::IsEqualImm { result: v, ty: type_of(*old(builder), arg), arg, imm },
        ),
{
    let arg = cranelift::prelude::Value::from_u32(arg.0);
    Value(builder.ins().icmp_imm(IntCC::Equal, arg, imm).as_u32())
}

/// `InstBuilder::band_imm`: appends one bitwise and of `arg` with the
/// immediate; the result is a new value of the type of `arg`.
#[verifier::external_body]
pub(crate) fn emit_band_imm(builder: &mut FunctionBuilder<'_>, arg: Value, imm: i64) -> (v: Value)
    requires
        can_append(*old(builder), 1),
        defined(*old(builder), arg),
    ensures
        v.0 == value_types(*old(builder)).len(),
        appends(
            *old(builder),
            *final(builder),
            Inst::BandImm { result: v, ty: type_of(*old(builder), arg), arg, imm },
        ),
{
    let arg = cranelift::prelude::Value::from_u32(arg.0);
    Value(builder.ins().band_imm(arg, imm).as_u32())
}

/// `InstBuilder::bor_imm`: appends one bitwise or of `arg` with the
/// immediate; the result is a new value of the type of `arg`.
#[verifier::external_body]
pub(crate) fn emit_bor_imm(builder: &mut FunctionBuilder<'_>, arg: Value, imm: i64) -> (v: Value)
    requires
        can_append(*old(builder), 1),
        defined(*old(builder), arg),
    ensures
        v.0 == value_types(*old(builder)).len(),
        appends(
            *old(builder),
            *final(builder),
            Inst::BorImm { result: v, ty: type_of(*old(builder), arg), arg, imm },
        ),
{
    let arg = cranelift::prelude::Value::from_u32(arg.0);
    Value(builder.ins().bor_imm(arg, imm).as_u32())
}

/// `InstBuilder::select`: appends one `select`; the result is a new value of
/// the type of `if_true`.
#[verifier::external_body]
pub(crate) fn emit_select(
    builder: &mut FunctionBuilder<'_>,
    cond: Value,
    if_true: Value,
    if_false: Value,
) -> (v: Value)
    requires
        can_append(*old(builder), 1),
        defined(*old(builder), cond),
        defined(*old(builder), if_true),
        defined(*old(builder), if_false),
    ensures
        v.0 == value_types(*old(builder)).len(),
        appends(
            *old(builder),
            *final(builder),
            Inst::Select { result: v, ty: type_of(*old(builder), if_true), cond, if_true, if_false },
        ),
{
    let cond = cranelift::prelude::Value::from_u32(cond.0);
    let if_true = cranelift::prelude::Value::from_u32(if_true.0);
    let if_false = cranelift::prelude::Value::from_u32(if_false.0);
    Value(builder.ins().select(cond, if_true, if_false).as_u32())
}

/// `InstBuilder::ireduce`: appends one `ireduce` to `ty`; the result is a new
/// value of type `ty`.
#[verifier::external_body]
pub(crate) fn emit_ireduce(builder: &mut FunctionBuilder<'_>, ty: Type, arg: Value) -> (v: Value)
    requires
        can_append(*old(builder), 1),
        defined(*old(builder), arg),
    ensures
        v.0 == value_types(*old(builder)).len(),
        appends(
            *old(builder),
            *final(builder),
            Inst::Ireduce { result: v, ty: modelled(ty), arg },
        ),
{
    let arg = cranelift::prelude::Value::from_u32(arg.0);
    Value(builder.ins().ireduce(ty, arg).as_u32())
}

/// `InstBuilder::uextend`: appends one `uextend` to `ty`; the result is a new
/// value of type `ty`.
#[verifier::external_body]
pub(crate) fn emit_uextend(builder: &mut FunctionBuilder<'_>, ty: Type, arg: Value) -> (v: Value)
    requires
        can_append(*old(builder), 1),
        defined(*old(builder), arg),
    ensures
        v.0 == value_types(*old(builder)).len(),
        appends(
            *old(builder),
            *final(builder),
            Inst::Uextend { result: v, ty: modelled(ty), arg },
        ),
{
    let arg = cranelift::prelude::Value::from_u32(arg.0);
    Value(builder.ins().uextend(ty, arg).as_u32())
}

/// `InstBuilder::bitcast`: appends one `bitcast` to `ty`; the result is a new
/// value of type `ty`.
#[verifier::external_body]
pub(crate) fn emit_bitcast(
    builder: &mut FunctionBuilder<'_>,
    ty: Type,
    flags: MemFlags,
    arg: Value,
) -> (v: Value)
    requires
        can_append(*old(builder), 1),
        defined(*old(builder), arg),
    ensures
        v.0 == value_types(*old(builder)).len(),
        appends(
            *old(builder),
            *final(builder),
            Inst::Bitcast { result: v, ty: modelled(ty), flags: flag_set(flags), arg },
        ),
{
    let arg = cranelift::prelude::Value::from_u32(arg.0);
    Value(builder.ins().bitcast(ty, flags, arg).as_u32())
}

/// `InstBuilder::sshr_imm`: appends one arithmetic shift right of `arg` by
/// the immediate; the result is a new value of the type of `arg`.
#[verifier::external_body]
pub(crate) fn emit_sshr_imm(builder: &mut FunctionBuilder<'_>, arg: Value, imm: i64) -> (v: Value)
    requires
        can_append(*old(builder), 1),
        defined(*old(builder), arg),
    ensures
        v.0 == value_types(*old(builder)).len(),
        appends(
            *old(builder),
            *final(builder),
            Inst::SshrImm { result: v, ty: type_of(*old(builder), arg), arg, imm },
        ),
{
    let arg = cranelift::prelude::Value::from_u32(arg.0);
    Value(builder.ins().sshr_imm(arg, imm).as_u32())
}

/// `InstBuilder::ushr_imm`: appends one logical shift right of `arg` by the
/// immediate; the result is a new value of the type of `arg`.
#[verifier::external_body]
pub(crate) fn emit_ushr_imm(builder: &mut FunctionBuilder<'_>, arg: Value, imm: i64) -> (v: Value)
    requires
        can_append(*old(builder), 1),
        defined(*old(builder), arg),
    ensures
        v.0 == value_types(*old(builder)).len(),
        appends(
            *old(builder),
            *final(builder),
            Inst::UshrImm { result: v, ty: type_of(*old(builder), arg), arg, imm },
        ),
{
    let arg = cranelift::prelude::Value::from_u32(arg.0);
    Value(builder.ins().ushr_imm(arg, imm).as_u32())
}

/// `InstBuilder::bxor`: appends one bitwise exclusive or; the result is a new
/// value of the type of `lhs`.
#[verifier::external_body]
pub(crate) fn emit_bxor(builder: &mut FunctionBuilder<'_>, lhs: Value, rhs: Value) -> (v: Value)
    requires
        can_append(*old(builder), 1),
        defined(*old(builder), lhs),
        defined(*old(builder), rhs),
    ensures
        v.0 == value_types(*old(builder)).len(),
        appends(
            *old(builder),
            *final(builder),
            Inst::Bxor { result: v, ty: type_of(*old(builder), lhs), lhs, rhs },
        ),
{
    let lhs = cranelift::prelude::Value::from_u32(lhs.0);
    let rhs = cranelift::prelude::Value::from_u32(rhs.0);
    Value(builder.ins().bxor(lhs, rhs).as_u32())
}

/// `InstBuilder::iconst`: appends one integer constant of type `ty`; the
/// result is a new value of that type.
#[verifier::external_body]
pub(crate) fn emit_iconst(builder: &mut FunctionBuilder<'_>, ty: Type, imm: i64) -> (v: Value)
    requires
        can_append(*old(builder), 1),
    ensures
        v.0 == value_types(*old(builder)).len(),
        appends(
            *old(builder),
            *final(builder),
            Inst::Iconst { result: v, ty: modelled(ty), imm },
        ),
{
    Value(builder.ins().iconst(ty, imm).as_u32())
}

/// `InstBuilder::f32const` on `Ieee32::with_bits`: appends one constant with
/// the given bits; the result is a new `F32` value.
#[verifier::external_body]
pub(crate) fn emit_f32const(builder: &mut FunctionBuilder<'_>, bits32: u32) -> (v: Value)
    requires
        can_append(*old(builder), 1),
    ensures
        v.0 == value_types(*old(builder)).len(),
        appends(
            *old(builder),
            *final(builder),
            Inst::F32const { result: v, bits32 },
        ),
{
    let imm = cranelift::prelude::Ieee32::with_bits(bits32);
    Value(builder.ins().f32const(imm).as_u32())
}

/// `InstBuilder::f64const` on `Ieee64::with_bits`: appends one constant with
/// the given bits; the result is a new `F64` value.
#[verifier::external_body]
pub(crate) fn emit_f64const(builder: &mut FunctionBuilder<'_>, bits64: u64) -> (v: Value)
    requires
        can_append(*old(builder), 1),
    ensures
        v.0 == value_types(*old(builder)).len(),
        appends(
            *old(builder),
            *final(builder),
            Inst::F64const { result: v, bits64 },
        ),
{
    let imm = cranelift::prelude::Ieee64::with_bits(bits64);
    Value(builder.ins().f64const(imm).as_u32())
}

/// `InstBuilder::call`: appends one direct call of a declared function. Its
/// results are new values, one for each result of the callee's signature,
/// numbered in order after all others. There are no more arguments than a
/// function can have parameters.
#[verifier::external_body]
pub(crate) fn emit_call(builder: &mut FunctionBuilder<'_>, func: FuncRef, args: &[Value]) -> (call: InstRef)
    requires
        can_call(*old(builder), func),
        args@.len() <= MAX_RESULTS,
        forall|i: int| 0 <= i < args@.len() ==> defined(*old(builder), #[trigger] args@[i]),
    ensures
        appends(
            *old(builder),
            *final(builder),
            Inst::Call {
                func,
                args: args@,
                first_result: Value(value_types(*old(builder)).len() as u32),
                result_tys: callee_results(*old(builder))[func.0 as int]->0,
            },
        ),
        inst_results(*final(builder), call) == values_from(
            value_types(*old(builder)).len(),
            results_of(*old(builder), func).len(),
        ),
{
    let func = cranelift::codegen::ir::FuncRef::from_u32(func.0);
    let args: Vec<_> = args.iter().map(|v| cranelift::prelude::Value::from_u32(v.0)).collect();
    InstRef(builder.ins().call(func, &args).as_u32())
}

/// `DataFlowGraph::first_result`: the first value that the instruction
/// defined. It panics on an instruction without results.
#[verifier::external_body]
pub(crate) fn raw_first_result(builder: &FunctionBuilder<'_>, inst: InstRef) -> (v: Value)
    requires
        inst_results(*builder, inst).len() > 0,
    ensures
        v == inst_results(*builder, inst)[0],
{
    let inst = cranelift::codegen::ir::Inst::from_u32(inst.0);
    Value(builder.func.dfg.first_result(inst).as_u32())
}

/// `DataFlowGraph::value_def` and `ValueDef::inst`: the instruction that
/// defined an existing value, or nothing where the value is a block
/// parameter.
#[verifier::external_body]
pub(crate) fn raw_value_def(builder: &FunctionBuilder<'_>, v: Value) -> (inst: Option<InstRef>)
    requires
        defined(*builder, v),
    ensures
        inst == defining_inst(*builder, v),
{
    let def = builder.func.dfg.value_def(cranelift::prelude::Value::from_u32(v.0));
    def.inst().map(|inst| InstRef(inst.as_u32()))
}

/// `DataFlowGraph::num_values`: the number of values of the function.
#[verifier::external_body]
pub(crate) fn raw_num_values(builder: &FunctionBuilder<'_>) -> (n: usize)
    ensures
        n == value_types(*builder).len(),
{
    builder.func.dfg.num_values()
}

/// The signature of a declared function, read from `DataFlowGraph::ext_funcs`
/// and `DataFlowGraph::signatures`: the number of its results, or nothing
/// where no function of that index is declared or the signature that the
/// function names does not exist. `FuncRef::from_u32` does not take the
/// number `u32::MAX`.
#[verifier::external_body]
pub(crate) fn raw_callee_result_count(builder: &FunctionBuilder<'_>, func: FuncRef) -> (count: Option<usize>)
    requires
        func.0 < u32::MAX,
    ensures
        count is Some <==> declared(*builder, func),
        count matches Some(n) ==> n == callee_results(*builder)[func.0 as int]->0.len(),
{
    let dfg = &builder.func.dfg;
    let callee = dfg.ext_funcs.get(cranelift::codegen::ir::FuncRef::from_u32(func.0))?;
    let signature = dfg.signatures.get(callee.signature)?;
    Some(signature.returns.len())
}

/// `DataFlowGraph::num_insts`: the number of instructions of the function.
#[verifier::external_body]
pub(crate) fn raw_num_insts(builder: &FunctionBuilder<'_>) -> (n: usize)
    ensures
        n == inst_count(*builder),
{
    builder.func.dfg.num_insts()
}

/// `DataFlowGraph::num_blocks`: the number of blocks of the function.
#[verifier::external_body]
pub(crate) fn raw_num_blocks(builder: &FunctionBuilder<'_>) -> (n: usize)
    ensures
        n == block_count(*builder),
{
    builder.func.dfg.num_blocks()
}

/// The signature of the function under construction: the number of its
/// parameters.
#[verifier::external_body]
pub(crate) fn raw_param_count(builder: &FunctionBuilder<'_>) -> (count: usize)
    ensures
        count == param_types(*builder).len(),
{
    builder.func.signature.params.len()
}

/// `FunctionBuilder::current_block`: the block that the builder stands at.
#[verifier::external_body]
pub(crate) fn raw_current_block(builder: &FunctionBuilder<'_>) -> (block: Option<Block>)
    ensures
        block == match position(*builder) {
            Position::Unset => None::<Block>,
            Position::At { block, .. } => Some(block),
        },
{
    builder.current_block().map(|block| Block(block.as_u32()))
}

/// `FunctionBuilder::create_block`: a new block, with which nothing was done
/// yet, numbered after all others. The builder stays where it stands.
#[verifier::external_body]
pub(crate) fn raw_create_block(builder: &mut FunctionBuilder<'_>) -> (block: Block)
    requires
        block_count(*old(builder)) < u32::MAX,
    ensures
        block.0 == block_count(*old(builder)),
        block_count(*final(builder)) == block_count(*old(builder)) + 1,
        pristine(*final(builder), block),
        value_types(*final(builder)) == value_types(*old(builder)),
        inst_count(*final(builder)) == inst_count(*old(builder)),
        param_types(*final(builder)) == param_types(*old(builder)),
        callee_results(*final(builder)) == callee_results(*old(builder)),
        emitted(*final(builder)) == emitted(*old(builder)),
        position(*final(builder)) == position(*old(builder)),
{
    Block(builder.create_block().as_u32())
}

/// `FunctionBuilder::switch_to_block`, for a builder that stands at no block
/// and a block with which nothing was done: the builder then stands at that
/// block.
#[verifier::external_body]
pub(crate) fn raw_switch_to_block(builder: &mut FunctionBuilder<'_>, block: Block)
    requires
        position(*old(builder)) is Unset,
        pristine(*old(builder), block),
    ensures
        pristine(*final(builder), block),
        value_types(*final(builder)) == value_types(*old(builder)),
        inst_count(*final(builder)) == inst_count(*old(builder)),
        block_count(*final(builder)) == block_count(*old(builder)),
        param_types(*final(builder)) == param_types(*old(builder)),
        callee_results(*final(builder)) == callee_results(*old(builder)),
        emitted(*final(builder)) == emitted(*old(builder)),
        position(*final(builder)) == (Position::At { block, filled: false }),
{
    builder.switch_to_block(cranelift::prelude::Block::from_u32(block.0));
}

/// `FunctionBuilder::append_block_params_for_function_params`, for a block
/// with which nothing was done: the block gets one parameter for each
/// parameter of the function's signature, each a new value of that
/// parameter's type, numbered in order after all others. Each value's entry
/// keeps the block's number and the parameter's place.
#[verifier::external_body]
pub(crate) fn raw_append_function_params(builder: &mut FunctionBuilder<'_>, block: Block)
    requires
        pristine(*old(builder), block),
        block.0 < MAX_PACKED_INDEX,
        param_types(*old(builder)).len() <= MAX_RESULTS,
        value_types(*old(builder)).len() + param_types(*old(builder)).len() < u32::MAX,
    ensures
        value_types(*final(builder)) == value_types(*old(builder)) + param_types(*old(builder)),
        inst_count(*final(builder)) == inst_count(*old(builder)),
        block_count(*final(builder)) == block_count(*old(builder)),
        param_types(*final(builder)) == param_types(*old(builder)),
        callee_results(*final(builder)) == callee_results(*old(builder)),
        emitted(*final(builder)) == emitted(*old(builder)),
        position(*final(builder)) == position(*old(builder)),
{
    builder.append_block_params_for_function_params(cranelift::prelude::Block::from_u32(block.0));
}

} // verus!
