//! Routines that emit the code for a row's null bits and for float keys.
use vstd::prelude::*;
use cranelift::prelude::FunctionBuilder;
use cranelift::prelude::MemFlags;
use cranelift::prelude::Type;
use crate::codegen::builder::appends;
use crate::codegen::builder::block_count;
use crate::codegen::builder::callee_results;
use crate::codegen::builder::can_append;
use crate::codegen::builder::can_call;
use crate::codegen::builder::inst_count;
use crate::codegen::builder::raw_num_blocks;
use crate::codegen::builder::raw_num_insts;
use crate::codegen::builder::MAX_PACKED_INDEX;
use crate::codegen::builder::MAX_RESULTS;
use crate::codegen::builder::clif_type;
use crate::codegen::builder::declared;
use crate::codegen::builder::defined;
use crate::codegen::builder::defining_inst;
use crate::codegen::builder::emit_band_imm;
use crate::codegen::builder::emit_bitcast;
use crate::codegen::builder::emit_bor_imm;
use crate::codegen::builder::emit_bxor;
use crate::codegen::builder::emit_call;
use crate::codegen::builder::emit_f32const;
use crate::codegen::builder::emit_f64const;
use crate::codegen::builder::emit_iconst;
use crate::codegen::builder::emit_ireduce;
use crate::codegen::builder::emit_is_equal_imm;
use crate::codegen::builder::emit_load;
use crate::codegen::builder::emit_select;
use crate::codegen::builder::emit_sshr_imm;
use crate::codegen::builder::emit_store;
use crate::codegen::builder::emit_uextend;
use crate::codegen::builder::emit_ushr_imm;
use crate::codegen::builder::emitted;
use crate::codegen::builder::extends;
use crate::codegen::builder::flag_set;
use crate::codegen::builder::model_type;
use crate::codegen::builder::modelled;
use crate::codegen::builder::next_value;
use crate::codegen::builder::param_types;
use crate::codegen::builder::Position;
use crate::codegen::builder::position;
use crate::codegen::builder::raw_append_function_params;
use crate::codegen::builder::raw_callee_result_count;
use crate::codegen::builder::raw_create_block;
use crate::codegen::builder::raw_current_block;
use crate::codegen::builder::raw_first_result;
use crate::codegen::builder::raw_num_values;
use crate::codegen::builder::raw_param_count;
use crate::codegen::builder::raw_switch_to_block;
use crate::codegen::builder::raw_value_def;
use crate::codegen::builder::raw_value_type;
use crate::codegen::builder::results_of;
use crate::codegen::builder::same_signatures;
use crate::codegen::builder::type_of;
use crate::codegen::builder::value_types;
use crate::codegen::ir::Block;
use crate::codegen::ir::defined_types;
use crate::codegen::ir::FuncRef;
use crate::codegen::ir::Inst;
use crate::codegen::ir::InstRef;
use crate::codegen::ir::IrType;
use crate::codegen::ir::MemFlag;
use crate::codegen::ir::Value;
use crate::codegen::layout::ColumnLayout;
use crate::codegen::layout::NativeLayout;
use crate::codegen::layout::occupants_of;

verus! {

/// The value with index `n`.
pub open spec fn value_at(n: nat) -> Value {
    Value(n as u32)
}

/// The flags of an access to an address that the layout vouches for:
/// `notrap` and `aligned`, and `readonly` where asked for.
pub open spec fn trusted_flags(readonly: bool) -> Set<MemFlag> {
    let trusted = Set::<MemFlag>::empty().insert(MemFlag::Notrap).insert(MemFlag::Aligned);
    if readonly {
        trusted.insert(MemFlag::Readonly)
    } else {
        trusted
    }
}

/// The immediate with only bit `bit_idx` set.
pub open spec fn bit_mask(bit_idx: u8) -> i64 {
    (1u64 << (bit_idx as u64)) as i64
}

/// The immediate with every bit but `bit_idx` set.
pub open spec fn bit_mask_inverted(bit_idx: u8) -> i64 {
    (!(1u64 << (bit_idx as u64))) as i64
}

/// The shift that moves the sign bit of a float of type `ty` to every bit.
pub open spec fn sign_shift(ty: IrType) -> i64 {
    if ty is F32 {
        31
    } else {
        63
    }
}

/// The code that turns the float `float` of type `ty` into an integer of the
/// same width whose signed order is the float's total order: flip every bit
/// but the sign of a negative number. The first new value is `next`; the
/// result is the last one.
pub open spec fn normalize_code(float: Value, ty: IrType, next: nat) -> Seq<Inst> {
    let int_ty = ty.as_int();
    seq![
        Inst::Bitcast { result: value_at(next), ty: int_ty, flags: Set::<MemFlag>::empty(), arg: float },
        Inst::SshrImm { result: value_at(next + 1), ty: int_ty, arg: value_at(next), imm: sign_shift(ty) },
        Inst::UshrImm { result: value_at(next + 2), ty: int_ty, arg: value_at(next + 1), imm: 1 },
        Inst::Bxor { result: value_at(next + 3), ty: int_ty, lhs: value_at(next), rhs: value_at(next + 2) },
    ]
}

/// The code that tests whether `column` of the row at `row_ptr` is null.
///
/// A string column: load the handle and compare it with zero. Any other
/// column: load the word that holds its null bit; where the column has the
/// word to itself the word is the flag, else all other bits are masked out.
/// The first new value is `next`.
pub open spec fn non_null_code(
    columns: Seq<ColumnLayout>,
    column: int,
    row_ptr: Value,
    ptr_ty: IrType,
    readonly: bool,
    next: nat,
) -> Seq<Inst> {
    let flags = trusted_flags(readonly);
    let col = columns[column];
    if col.ty.spec_is_string() {
        seq![
            Inst::Load { result: value_at(next), ty: ptr_ty, flags, base: row_ptr, offset: col.offset as i32 },
            Inst::IsEqualImm { result: value_at(next + 1), ty: ptr_ty, arg: value_at(next), imm: 0 },
        ]
    } else {
        let bit = col.null_bit->0;
        let ty = bit.bitset_ty.spec_native_type();
        let load = Inst::Load {
            result: value_at(next),
            ty,
            flags,
            base: row_ptr,
            offset: bit.bitset_offset as i32,
        };
        if occupants_of(columns, bit.bitset_offset) == 1 {
            seq![load]
        } else {
            seq![
                load,
                Inst::BandImm { result: value_at(next + 1), ty, arg: value_at(next), imm: bit_mask(bit.bit_idx) },
            ]
        }
    }
}

/// Number of instructions of [`non_null_code`], each of which defines a
/// value: one where the column has its word to itself, and else two.
pub open spec fn non_null_size(columns: Seq<ColumnLayout>, column: int) -> nat {
    let col = columns[column];
    if !col.ty.spec_is_string() && occupants_of(columns, col.null_bit->0.bitset_offset) == 1 {
        1
    } else {
        2
    }
}

/// Number of values that [`set_null_code`] defines; it has one instruction
/// more, the store. Where the column has its word to itself that is none
/// for a flag as wide as the word and else one; for a shared word four.
pub open spec fn set_null_values(columns: Seq<ColumnLayout>, column: int, null_ty: IrType) -> nat {
    let place = columns[column].null_bit->0;
    if occupants_of(columns, place.bitset_offset) == 1 {
        if place.bitset_ty.spec_native_type().bytes() == null_ty.bytes() {
            0
        } else {
            1
        }
    } else {
        4
    }
}

/// The value that holds the flag computed by [`non_null_code`].
pub open spec fn non_null_flag(columns: Seq<ColumnLayout>, column: int, next: nat) -> Value {
    let col = columns[column];
    if !col.ty.spec_is_string() && occupants_of(columns, col.null_bit->0.bitset_offset) == 1 {
        value_at(next)
    } else {
        value_at(next + 1)
    }
}

/// The code that writes the flag `is_null`, a value of type `null_ty`, as the
/// null bit of `column` in the row at `dest`.
///
/// Where the column has the word to itself, the flag is brought to the
/// word's width and stored. Else the word is loaded, the bit is set in one
/// copy and cleared in another, the flag selects between them, and the
/// choice is stored. The first new value is `next`.
pub open spec fn set_null_code(
    columns: Seq<ColumnLayout>,
    column: int,
    is_null: Value,
    null_ty: IrType,
    dest: Value,
    flags: Set<MemFlag>,
    next: nat,
) -> Seq<Inst> {
    let bit = columns[column].null_bit->0;
    let ty = bit.bitset_ty.spec_native_type();
    let offset = bit.bitset_offset as i32;
    if occupants_of(columns, bit.bitset_offset) == 1 {
        if ty.bytes() < null_ty.bytes() {
            seq![
                Inst::Ireduce { result: value_at(next), ty, arg: is_null },
                Inst::Store { ty, flags, value: value_at(next), base: dest, offset },
            ]
        } else if ty.bytes() == null_ty.bytes() {
            seq![Inst::Store { ty: null_ty, flags, value: is_null, base: dest, offset }]
        } else {
            seq![
                Inst::Uextend { result: value_at(next), ty, arg: is_null },
                Inst::Store { ty, flags, value: value_at(next), base: dest, offset },
            ]
        }
    } else {
        seq![
            Inst::Load { result: value_at(next), ty, flags, base: dest, offset },
            Inst::BorImm { result: value_at(next + 1), ty, arg: value_at(next), imm: bit_mask(bit.bit_idx) },
            Inst::BandImm {
                result: value_at(next + 2),
                ty,
                arg: value_at(next),
                imm: bit_mask_inverted(bit.bit_idx),
            },
            Inst::Select {
                result: value_at(next + 3),
                ty,
                cond: is_null,
                if_true: value_at(next + 1),
                if_false: value_at(next + 2),
            },
            Inst::Store { ty, flags, value: value_at(next + 3), base: dest, offset },
        ]
    }
}

/// Appending one instruction to a builder that extends `pre` by `code`
/// extends `pre` by `code` and that instruction.
proof fn lemma_extends_push(
    pre: FunctionBuilder<'_>,
    mid: FunctionBuilder<'_>,
    post: FunctionBuilder<'_>,
    code: Seq<Inst>,
    inst: Inst,
)
    requires
        extends(pre, mid, code),
        appends(mid, post, inst),
    ensures
        extends(pre, post, code.push(inst)),
{
    assert(code.push(inst).drop_last() =~= code);
    assert(emitted(post) =~= emitted(pre) + code.push(inst));
    assert(value_types(post) =~= value_types(pre) + defined_types(code.push(inst)));
}

/// A builder extends itself by no code.
proof fn lemma_extends_nothing(pre: FunctionBuilder<'_>)
    ensures
        extends(pre, pre, Seq::<Inst>::empty()),
{
    assert(emitted(pre) =~= emitted(pre) + Seq::<Inst>::empty());
    assert(value_types(pre) =~= value_types(pre) + defined_types(Seq::<Inst>::empty()));
}

/// The bits of the float 1.0 in single precision.
pub const F32_ONE: u32 = 0x3f80_0000;

/// The bits of the float 1.0 in double precision.
pub const F64_ONE: u64 = 0x3ff0_0000_0000_0000;

/// The bits of the single-precision float nearest to pi.
pub const F32_PI: u32 = 0x4049_0fdb;

/// The bits of the double-precision float nearest to pi.
pub const F64_PI: u64 = 0x4009_21fb_5444_2d18;

/// The one instruction that makes the float constant with the given bits,
/// in single precision for `F32` and in double precision else.
pub open spec fn float_const_code(ty: IrType, bits32: u32, bits64: u64, next: nat) -> Seq<Inst> {
    if ty is F32 {
        seq![Inst::F32const { result: value_at(next), bits32 }]
    } else {
        seq![Inst::F64const { result: value_at(next), bits64 }]
    }
}

/// Creates the entry block of a function, adds the function's parameters
/// to it as block parameters, and puts the builder at it. This is done once,
/// on a builder that stands at no block yet. The parameters are new values,
/// numbered in order after all others.
///
/// Cranelift keeps the block's number and each parameter's place in the
/// parameter's entry: the block's number must be below
/// [`MAX_PACKED_INDEX`], and there are at most [`MAX_RESULTS`] parameters.
pub fn create_entry_block(builder: &mut FunctionBuilder<'_>) -> (entry: Block)
    requires
        position(*old(builder)) is Unset,
        block_count(*old(builder)) < MAX_PACKED_INDEX,
        param_types(*old(builder)).len() <= MAX_RESULTS,
        value_types(*old(builder)).len() + param_types(*old(builder)).len() < u32::MAX,
    ensures
        position(*final(builder)) == (Position::At { block: entry, filled: false }),
        entry.0 == block_count(*old(builder)),
        block_count(*final(builder)) == block_count(*old(builder)) + 1,
        emitted(*final(builder)) == emitted(*old(builder)),
        inst_count(*final(builder)) == inst_count(*old(builder)),
        value_types(*final(builder)) == value_types(*old(builder)) + param_types(*old(builder)),
        param_types(*final(builder)) == param_types(*old(builder)),
        callee_results(*final(builder)) == callee_results(*old(builder)),
{
    let entry = raw_create_block(builder);
    raw_switch_to_block(builder, entry);
    raw_append_function_params(builder, entry);
    entry
}

fn byte_const(builder: &mut FunctionBuilder<'_>, imm: i64) -> (v: Value)
    requires
        can_append(*old(builder), 1),
    ensures
        extends(
            *old(builder),
            *final(builder),
            seq![Inst::Iconst { result: value_at(next_value(*old(builder))), ty: IrType::I8, imm }],
        ),
        v == value_at(next_value(*old(builder))),
        inst_count(*final(builder)) == inst_count(*old(builder)) + 1,
        next_value(*final(builder)) == next_value(*old(builder)) + 1,
{
    let ghost pre = *builder;
    let v = emit_iconst(builder, clif_type(IrType::I8), imm);
    proof {
        lemma_extends_nothing(pre);
        let c1 = Seq::<Inst>::empty().push(Inst::Iconst { result: v, ty: IrType::I8, imm });
        lemma_extends_push(pre, pre, *builder, Seq::<Inst>::empty(), c1.last());
        assert(c1 =~= seq![Inst::Iconst { result: value_at(next_value(pre)), ty: IrType::I8, imm }]);
    }
    v
}

/// Emits an `I8` constant that holds `true`, the number one.
pub fn true_byte(builder: &mut FunctionBuilder<'_>) -> (v: Value)
    requires
        can_append(*old(builder), 1),
    ensures
        extends(
            *old(builder),
            *final(builder),
            seq![Inst::Iconst { result: value_at(next_value(*old(builder))), ty: IrType::I8, imm: 1 }],
        ),
        v == value_at(next_value(*old(builder))),
        inst_count(*final(builder)) == inst_count(*old(builder)) + 1,
        next_value(*final(builder)) == next_value(*old(builder)) + 1,
{
    byte_const(builder, 1)
}

/// Emits an `I8` constant that holds `false`, the number zero.
pub fn false_byte(builder: &mut FunctionBuilder<'_>) -> (v: Value)
    requires
        can_append(*old(builder), 1),
    ensures
        extends(
            *old(builder),
            *final(builder),
            seq![Inst::Iconst { result: value_at(next_value(*old(builder))), ty: IrType::I8, imm: 0 }],
        ),
        v == value_at(next_value(*old(builder))),
        inst_count(*final(builder)) == inst_count(*old(builder)) + 1,
        next_value(*final(builder)) == next_value(*old(builder)) + 1,
{
    byte_const(builder, 0)
}

/// Emits a call of `func` with the given arguments and hands back the first
/// value that the call yields. The callee must yield a value, and the
/// builder must take the call: see [`can_call`].
pub fn call_fn(builder: &mut FunctionBuilder<'_>, func: FuncRef, args: &[Value]) -> (v: Value)
    requires
        can_call(*old(builder), func),
        results_of(*old(builder), func).len() > 0,
        args@.len() <= MAX_RESULTS,
        forall|i: int| 0 <= i < args@.len() ==> defined(*old(builder), #[trigger] args@[i]),
    ensures
        next_value(*final(builder)) == next_value(*old(builder)) + results_of(*old(builder), func).len(),
        extends(
            *old(builder),
            *final(builder),
            seq![
                Inst::Call {
                    func,
                    args: args@,
                    first_result: value_at(next_value(*old(builder))),
                    result_tys: results_of(*old(builder), func),
                },
            ],
        ),
        v == value_at(next_value(*old(builder))),
        inst_count(*final(builder)) == inst_count(*old(builder)) + 1,
{
    let ghost pre = *builder;
    let call = emit_call(builder, func, args);
    proof {
        lemma_extends_nothing(pre);
        let inst = Inst::Call {
            func,
            args: args@,
            first_result: value_at(next_value(pre)),
            result_tys: results_of(pre, func),
        };
        lemma_extends_push(pre, pre, *builder, Seq::<Inst>::empty(), inst);
        assert(Seq::<Inst>::empty().push(inst) =~= seq![inst]);
    }
    raw_first_result(builder, call)
}

/// Emits a call of `func` with the given arguments and hands back the first
/// value that the call yields; or emits nothing and hands back nothing,
/// where `func` is not declared with a signature that exists, yields no
/// value or more than an instruction can have, is given an argument that is
/// no value of the function, or where the call or its values cannot be
/// numbered.
pub fn try_call_fn(builder: &mut FunctionBuilder<'_>, func: FuncRef, args: &[Value]) -> (v: Option<Value>)
    requires
        position(*old(builder)) matches Position::At { filled: false, .. },
    ensures
        v is Some <==> call_fn_accepts(*old(builder), func, args@),
        v is Some ==> {
            &&& extends(
                *old(builder),
                *final(builder),
                seq![
                    Inst::Call {
                        func,
                        args: args@,
                        first_result: value_at(next_value(*old(builder))),
                        result_tys: results_of(*old(builder), func),
                    },
                ],
            )
            &&& v == Some(value_at(next_value(*old(builder))))
            &&& inst_count(*final(builder)) == inst_count(*old(builder)) + 1
            &&& next_value(*final(builder)) == next_value(*old(builder)) + results_of(
                *old(builder),
                func,
            ).len()
        },
        v is None ==> {
            &&& emitted(*final(builder)) == emitted(*old(builder))
            &&& value_types(*final(builder)) == value_types(*old(builder))
            &&& inst_count(*final(builder)) == inst_count(*old(builder))
            &&& position(*final(builder)) == position(*old(builder))
            &&& same_signatures(*old(builder), *final(builder))
        },
{
    if func.0 == 0xffff_ffff {
        return None;
    }
    let insts = raw_num_insts(builder);
    if insts >= MAX_PACKED_INDEX - 1 || args.len() > MAX_RESULTS {
        return None;
    }
    let results = match raw_callee_result_count(builder, func) {
        Some(count) => count,
        None => {
            return None;
        },
    };
    let values = raw_num_values(builder);
    if results == 0 || results > MAX_RESULTS || values >= 0xffff_ffff || results >= 0xffff_ffff - values {
        return None;
    }
    let mut i: usize = 0;
    while i < args.len()
        invariant
            i <= args@.len(),
            values == value_types(*builder).len(),
            values < 0xffff_ffff,
            forall|j: int| 0 <= j < i ==> defined(*builder, #[trigger] args@[j]),
        decreases args@.len() - i,
    {
        if args[i].0 as usize >= values {
            return None;
        }
        i += 1;
    }
    Some(call_fn(builder, func, args))
}

/// The call can be emitted and yields a value: the builder takes a call of
/// the callee, the callee yields a value, there are no more arguments than
/// a function can have parameters, and every argument is a value of the
/// function.
pub open spec fn call_fn_accepts(builder: FunctionBuilder<'_>, func: FuncRef, args: Seq<Value>) -> bool {
    &&& can_call(builder, func)
    &&& results_of(builder, func).len() > 0
    &&& args.len() <= MAX_RESULTS
    &&& forall|i: int| 0 <= i < args.len() ==> defined(builder, #[trigger] args[i])
}

/// The block that the builder stands at, if it stands at one.
pub fn current_block(builder: &FunctionBuilder<'_>) -> (block: Option<Block>)
    ensures
        block == match position(*builder) {
            Position::Unset => None::<Block>,
            Position::At { block, .. } => Some(block),
        },
{
    raw_current_block(builder)
}

/// Number of parameters of the function under construction.
pub fn param_count(builder: &FunctionBuilder<'_>) -> (n: usize)
    ensures
        n == param_types(*builder).len(),
{
    raw_param_count(builder)
}

/// Number of instructions of the function under construction.
pub fn instruction_count(builder: &FunctionBuilder<'_>) -> (n: usize)
    ensures
        n == inst_count(*builder),
{
    raw_num_insts(builder)
}

/// Number of blocks of the function under construction.
pub fn number_of_blocks(builder: &FunctionBuilder<'_>) -> (n: usize)
    ensures
        n == block_count(*builder),
{
    raw_num_blocks(builder)
}

/// Number of values of the function under construction.
pub fn value_count(builder: &FunctionBuilder<'_>) -> (n: usize)
    ensures
        n == value_types(*builder).len(),
{
    raw_num_values(builder)
}

/// The instruction that defined `value`, which must be the result of one.
pub fn value_def(builder: &FunctionBuilder<'_>, value: Value) -> (inst: InstRef)
    requires
        defined(*builder, value),
        defining_inst(*builder, value) is Some,
    ensures
        Some(inst) == defining_inst(*builder, value),
{
    match raw_value_def(builder, value) {
        Some(inst) => inst,
        None => InstRef(0),
    }
}

/// The instruction that defined `value`, or nothing where `value` is a
/// block parameter.
pub fn try_value_def(builder: &FunctionBuilder<'_>, value: Value) -> (inst: Option<InstRef>)
    requires
        defined(*builder, value),
    ensures
        inst == defining_inst(*builder, value),
{
    raw_value_def(builder, value)
}

/// The type of the model that a Cranelift type stands for.
pub fn type_model(ty: Type) -> (model: IrType)
    ensures
        model == modelled(ty),
{
    model_type(ty)
}

/// The type of `value`.
pub fn value_type(builder: &FunctionBuilder<'_>, value: Value) -> (ty: IrType)
    requires
        defined(*builder, value),
    ensures
        ty == type_of(*builder, value),
{
    model_type(raw_value_type(builder, value))
}

fn float_const(builder: &mut FunctionBuilder<'_>, ty: IrType, bits32: u32, bits64: u64) -> (v: Value)
    requires
        ty.is_float(),
        can_append(*old(builder), 1),
    ensures
        extends(
            *old(builder),
            *final(builder),
            float_const_code(ty, bits32, bits64, next_value(*old(builder))),
        ),
        v == value_at(next_value(*old(builder))),
        inst_count(*final(builder)) == inst_count(*old(builder)) + 1,
        next_value(*final(builder)) == next_value(*old(builder)) + 1,
{
    let ghost pre = *builder;
    proof {
        lemma_extends_nothing(pre);
    }
    let v = match ty {
        IrType::F32 => emit_f32const(builder, bits32),
        _ => emit_f64const(builder, bits64),
    };
    proof {
        let code = float_const_code(ty, bits32, bits64, next_value(pre));
        lemma_extends_push(pre, pre, *builder, Seq::<Inst>::empty(), code[0]);
        assert(Seq::<Inst>::empty().push(code[0]) =~= code);
    }
    v
}

/// Emits the float constant zero of type `ty`, which is `F32` or `F64`.
pub fn float_zero(builder: &mut FunctionBuilder<'_>, ty: IrType) -> (v: Value)
    requires
        ty.is_float(),
        can_append(*old(builder), 1),
    ensures
        extends(*old(builder), *final(builder), float_const_code(ty, 0, 0, next_value(*old(builder)))),
        v == value_at(next_value(*old(builder))),
        inst_count(*final(builder)) == inst_count(*old(builder)) + 1,
        next_value(*final(builder)) == next_value(*old(builder)) + 1,
{
    float_const(builder, ty, 0, 0)
}

/// Emits the float constant one of type `ty`, which is `F32` or `F64`.
pub fn float_one(builder: &mut FunctionBuilder<'_>, ty: IrType) -> (v: Value)
    requires
        ty.is_float(),
        can_append(*old(builder), 1),
    ensures
        extends(
            *old(builder),
            *final(builder),
            float_const_code(ty, F32_ONE, F64_ONE, next_value(*old(builder))),
        ),
        v == value_at(next_value(*old(builder))),
        inst_count(*final(builder)) == inst_count(*old(builder)) + 1,
        next_value(*final(builder)) == next_value(*old(builder)) + 1,
{
    float_const(builder, ty, F32_ONE, F64_ONE)
}

/// Emits the float constant pi of type `ty`, which is `F32` or `F64`.
pub fn float_pi(builder: &mut FunctionBuilder<'_>, ty: IrType) -> (v: Value)
    requires
        ty.is_float(),
        can_append(*old(builder), 1),
    ensures
        extends(
            *old(builder),
            *final(builder),
            float_const_code(ty, F32_PI, F64_PI, next_value(*old(builder))),
        ),
        v == value_at(next_value(*old(builder))),
        inst_count(*final(builder)) == inst_count(*old(builder)) + 1,
        next_value(*final(builder)) == next_value(*old(builder)) + 1,
{
    float_const(builder, ty, F32_PI, F64_PI)
}

/// Emits the code that turns a float into an integer of the same width
/// whose signed order is the float's total order, and returns the integer.
pub fn normalize_float(float: Value, builder: &mut FunctionBuilder<'_>) -> (normalized: Value)
    requires
        can_append(*old(builder), 4),
        defined(*old(builder), float),
        type_of(*old(builder), float).is_float(),
    ensures
        extends(
            *old(builder),
            *final(builder),
            normalize_code(float, type_of(*old(builder), float), next_value(*old(builder))),
        ),
        normalized == value_at(next_value(*old(builder)) + 3),
        inst_count(*final(builder)) == inst_count(*old(builder)) + 4,
        next_value(*final(builder)) == next_value(*old(builder)) + 4,
{
    let ghost pre = *builder;
    let ghost next = next_value(pre);
    let ty = model_type(raw_value_type(builder, float));
    let (int_ty, first_shift): (IrType, i64) = if ty == IrType::F32 {
        (IrType::I32, 31)
    } else {
        (IrType::I64, 63)
    };
    proof {
        lemma_extends_nothing(pre);
    }
    let ghost b0 = *builder;
    let bits = emit_bitcast(builder, clif_type(int_ty), MemFlags::new(), float);
    let ghost b1 = *builder;
    let ghost c1 = Seq::<Inst>::empty().push(
        Inst::Bitcast { result: bits, ty: int_ty, flags: Set::<MemFlag>::empty(), arg: float },
    );
    proof {
        lemma_extends_push(pre, b0, b1, Seq::<Inst>::empty(), c1.last());
    }
    let shifted = emit_sshr_imm(builder, bits, first_shift);
    let ghost b2 = *builder;
    let ghost c2 = c1.push(Inst::SshrImm { result: shifted, ty: int_ty, arg: bits, imm: first_shift });
    proof {
        lemma_extends_push(pre, b1, b2, c1, c2.last());
    }
    let shifted = emit_ushr_imm(builder, shifted, 1);
    let ghost b3 = *builder;
    let ghost c3 = c2.push(
        Inst::UshrImm { result: shifted, ty: int_ty, arg: value_at(next + 1), imm: 1 },
    );
    proof {
        lemma_extends_push(pre, b2, b3, c2, c3.last());
    }
    let normalized = emit_bxor(builder, bits, shifted);
    proof {
        let c4 = c3.push(Inst::Bxor { result: normalized, ty: int_ty, lhs: bits, rhs: shifted });
        lemma_extends_push(pre, b3, *builder, c3, c4.last());
        assert(c4 =~= normalize_code(float, type_of(pre, float), next));
    }
    normalized
}

/// Emits the test whether `column` of the row at `row_ptr` is null, and
/// returns the flag: zero where the value is present, non-zero where it is
/// null.
///
/// A string's handle is loaded at the type of `row_ptr`, whatever that type
/// is. What the emitted code computes is proved for a `row_ptr` of an
/// integer type of the model (`I8` to `I64`); of a handle loaded at any
/// other type the laws say nothing.
pub fn column_non_null(
    column: usize,
    row_ptr: Value,
    layout: &NativeLayout,
    builder: &mut FunctionBuilder<'_>,
    readonly: bool,
) -> (flag: Value)
    requires
        column < layout@.len(),
        layout@[column as int].nullable,
        can_append(*old(builder), 2),
        defined(*old(builder), row_ptr),
    ensures
        extends(
            *old(builder),
            *final(builder),
            non_null_code(
                layout@,
                column as int,
                row_ptr,
                type_of(*old(builder), row_ptr),
                readonly,
                next_value(*old(builder)),
            ),
        ),
        flag == non_null_flag(layout@, column as int, next_value(*old(builder))),
        inst_count(*final(builder)) == inst_count(*old(builder)) + non_null_size(layout@, column as int),
        next_value(*final(builder)) == next_value(*old(builder)) + non_null_size(layout@, column as int),
{
    let ghost pre = *builder;
    let ghost next = next_value(pre);
    let ghost code = non_null_code(layout@, column as int, row_ptr, type_of(pre, row_ptr), readonly, next);
    proof {
        lemma_extends_nothing(pre);
    }

    // The flags of the load
    let mut flags = MemFlags::trusted();
    if readonly {
        flags.set_readonly();
    }
    assert(flag_set(flags) =~= trusted_flags(readonly));

    if layout.column_type_of(column).is_string() {
        let ptr_ty = raw_value_type(builder, row_ptr);
        let offset = layout.offset_of(column) as i32;

        let string = emit_load(builder, ptr_ty, flags, row_ptr, offset);
        let ghost b1 = *builder;
        let ghost c1 = Seq::<Inst>::empty().push(
            Inst::Load { result: string, ty: type_of(pre, row_ptr), flags: flag_set(flags), base: row_ptr, offset },
        );
        proof {
            lemma_extends_push(pre, pre, b1, Seq::<Inst>::empty(), c1.last());
        }
        let flag = emit_is_equal_imm(builder, string, 0);
        proof {
            let c2 = c1.push(
                Inst::IsEqualImm { result: flag, ty: type_of(pre, row_ptr), arg: string, imm: 0 },
            );
            lemma_extends_push(pre, b1, *builder, c1, c2.last());
            assert(c2 =~= code);
        }
        flag
    } else {
        let (bitset_ty, bitset_offset, bit_idx) = layout.nullability_of(column);
        let ir_ty = bitset_ty.native_type();
        let offset = bitset_offset as i32;

        // Load the word that holds the column's null bit
        let bitset = emit_load(builder, clif_type(ir_ty), flags, row_ptr, offset);
        let ghost b1 = *builder;
        let ghost c1 = Seq::<Inst>::empty().push(
            Inst::Load { result: bitset, ty: ir_ty, flags: flag_set(flags), base: row_ptr, offset },
        );
        proof {
            lemma_extends_push(pre, pre, b1, Seq::<Inst>::empty(), c1.last());
        }

        // Zero means that the value is there, non-zero that it is null
        if layout.bitset_occupants(column) == 1 {
            // The column has the word to itself: the word is the flag
            proof {
                assert(c1 =~= code);
            }
            bitset
        } else {
            // Mask out all bits but the column's own
            assert(bit_idx < 64);
            let mask: u64 = 1u64 << (bit_idx as u64);
            let imm = mask as i64;
            let flag = emit_band_imm(builder, bitset, imm);
            proof {
                let c2 = c1.push(Inst::BandImm { result: flag, ty: ir_ty, arg: bitset, imm });
                lemma_extends_push(pre, b1, *builder, c1, c2.last());
                assert(c2 =~= code);
            }
            flag
        }
    }
}

/// Emits the code that writes the flag `is_null` as the null bit of `column`
/// in the row at `dest`. The column is one that keeps a null bit: nullable
/// and no string.
pub fn set_column_null(
    is_null: Value,
    column: usize,
    dest: Value,
    dest_flags: MemFlags,
    layout: &NativeLayout,
    builder: &mut FunctionBuilder<'_>,
)
    requires
        column < layout@.len(),
        layout@[column as int].null_bit is Some,
        can_append(*old(builder), 4),
        defined(*old(builder), is_null),
        defined(*old(builder), dest),
        type_of(*old(builder), is_null).is_int(),
    ensures
        extends(
            *old(builder),
            *final(builder),
            set_null_code(
                layout@,
                column as int,
                is_null,
                type_of(*old(builder), is_null),
                dest,
                flag_set(dest_flags),
                next_value(*old(builder)),
            ),
        ),
        inst_count(*final(builder)) == inst_count(*old(builder)) + set_null_values(
            layout@,
            column as int,
            type_of(*old(builder), is_null),
        ) + 1,
        next_value(*final(builder)) == next_value(*old(builder)) + set_null_values(
            layout@,
            column as int,
            type_of(*old(builder), is_null),
        ),
{
    let ghost pre = *builder;
    let ghost next = next_value(pre);
    let ghost flags = flag_set(dest_flags);
    let ghost null_ty = type_of(pre, is_null);
    let ghost code = set_null_code(layout@, column as int, is_null, null_ty, dest, flags, next);
    proof {
        lemma_extends_nothing(pre);
    }

    let (bitset_ty, bitset_offset, bit_idx) = layout.nullability_of(column);
    let ty = bitset_ty.native_type();
    let offset = bitset_offset as i32;

    if layout.bitset_occupants(column) == 1 {
        let null_ty = model_type(raw_value_type(builder, is_null));
        let word_bytes = ty.width_in_bytes();
        let null_bytes = null_ty.width_in_bytes();
        if word_bytes == null_bytes {
            emit_store(builder, dest_flags, is_null, dest, offset);
            proof {
                let c1 = Seq::<Inst>::empty().push(
                    Inst::Store { ty: null_ty, flags, value: is_null, base: dest, offset },
                );
                lemma_extends_push(pre, pre, *builder, Seq::<Inst>::empty(), c1.last());
                assert(c1 =~= code);
            }
        } else {
            let bitset = if word_bytes < null_bytes {
                emit_ireduce(builder, clif_type(ty), is_null)
            } else {
                emit_uextend(builder, clif_type(ty), is_null)
            };
            let ghost b1 = *builder;
            let ghost c1 = Seq::<Inst>::empty().push(
                if word_bytes < null_bytes {
                    Inst::Ireduce { result: bitset, ty, arg: is_null }
                } else {
                    Inst::Uextend { result: bitset, ty, arg: is_null }
                },
            );
            proof {
                lemma_extends_push(pre, pre, b1, Seq::<Inst>::empty(), c1.last());
            }
            emit_store(builder, dest_flags, bitset, dest, offset);
            proof {
                let c2 = c1.push(Inst::Store { ty, flags, value: bitset, base: dest, offset });
                lemma_extends_push(pre, b1, *builder, c1, c2.last());
                assert(c2 =~= code);
            }
        }
    } else {
        // Load the word as it is now
        let current = emit_load(builder, clif_type(ty), dest_flags, dest, offset);
        let ghost b1 = *builder;
        let ghost c1 = Seq::<Inst>::empty().push(
            Inst::Load { result: current, ty, flags, base: dest, offset },
        );
        proof {
            lemma_extends_push(pre, pre, b1, Seq::<Inst>::empty(), c1.last());
        }

        assert(bit_idx < 64);
        let mask: u64 = 1u64 << (bit_idx as u64);
        #[verifier::truncate]
        let set_imm = mask as i64;
        #[verifier::truncate]
        let clear_imm = (!mask) as i64;

        let with_null = emit_bor_imm(builder, current, set_imm);
        let ghost b2 = *builder;
        let ghost c2 = c1.push(Inst::BorImm { result: with_null, ty, arg: current, imm: set_imm });
        proof {
            lemma_extends_push(pre, b1, b2, c1, c2.last());
        }
        let with_non_null = emit_band_imm(builder, current, clear_imm);
        let ghost b3 = *builder;
        let ghost c3 = c2.push(
            Inst::BandImm { result: with_non_null, ty, arg: current, imm: clear_imm },
        );
        proof {
            lemma_extends_push(pre, b2, b3, c2, c3.last());
        }
        let bitset = emit_select(builder, is_null, with_null, with_non_null);
        let ghost b4 = *builder;
        let ghost c4 = c3.push(
            Inst::Select { result: bitset, ty, cond: is_null, if_true: with_null, if_false: with_non_null },
        );
        proof {
            lemma_extends_push(pre, b3, b4, c3, c4.last());
        }

        // Store the new word back into the row
        emit_store(builder, dest_flags, bitset, dest, offset);
        proof {
            let c5 = c4.push(Inst::Store { ty, flags, value: bitset, base: dest, offset });
            lemma_extends_push(pre, b4, *builder, c4, c5.last());
            assert(c5 =~= code);
        }
    }
}

} // verus!
