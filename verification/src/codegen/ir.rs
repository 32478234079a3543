//! The plain-data model of the instructions this crate emits.
use vstd::prelude::*;

verus! {

/// An SSA value of the function under construction, named by its index.
#[derive(Clone, Copy, Debug, PartialEq, Eq, Structural)]
pub struct Value(pub u32);

/// A basic block of the function under construction, named by its index.
#[derive(Clone, Copy, Debug, PartialEq, Eq, Structural)]
pub struct Block(pub u32);

/// A function that the function under construction can call, named by its
/// index among the functions declared to it.
#[derive(Clone, Copy, Debug, PartialEq, Eq, Structural)]
pub struct FuncRef(pub u32);

/// An instruction of the function under construction, named by its index.
#[derive(Clone, Copy, Debug, PartialEq, Eq, Structural)]
pub struct InstRef(pub u32);

/// The scalar types the model knows. Every other type (vectors, references,
/// 128-bit integers, the invalid type) is `Other`.
#[derive(Clone, Copy, Debug, PartialEq, Eq, Structural)]
pub enum IrType {
    I8,
    I16,
    I32,
    I64,
    F32,
    F64,
    Other,
}

impl IrType {
    /// Width of a value of this type in bits; zero for `Other`.
    pub open spec fn bits(self) -> nat {
        match self {
            IrType::I8 => 8,
            IrType::I16 => 16,
            IrType::I32 | IrType::F32 => 32,
            IrType::I64 | IrType::F64 => 64,
            IrType::Other => 0,
        }
    }

    /// Number of bytes a value of this type takes in memory; zero for `Other`.
    pub open spec fn bytes(self) -> nat {
        self.bits() / 8
    }

    /// Number of bytes a value of this type takes in memory; zero for `Other`.
    pub fn width_in_bytes(self) -> (n: u32)
        ensures
            n == self.bytes(),
    {
        match self {
            IrType::I8 => 1,
            IrType::I16 => 2,
            IrType::I32 | IrType::F32 => 4,
            IrType::I64 | IrType::F64 => 8,
            IrType::Other => 0,
        }
    }

    pub open spec fn is_int(self) -> bool {
        self is I8 || self is I16 || self is I32 || self is I64
    }

    pub open spec fn is_float(self) -> bool {
        self is F32 || self is F64
    }

    /// The integer type as wide as this type.
    pub open spec fn as_int(self) -> IrType {
        match self {
            IrType::F32 => IrType::I32,
            IrType::F64 => IrType::I64,
            other => other,
        }
    }
}

/// One flag of a memory access.
#[derive(Clone, Copy, Debug, PartialEq, Eq, Structural)]
pub enum MemFlag {
    Notrap,
    Aligned,
    Readonly,
    LittleEndian,
    BigEndian,
    Heap,
    Table,
    Vmctx,
}

/// One emitted instruction. Each variant records the value it defines (if
/// any), the type the instruction is resolved at, and its operands.
pub enum Inst {
    Iconst { result: Value, ty: IrType, imm: i64 },
    F32const { result: Value, bits32: u32 },
    F64const { result: Value, bits64: u64 },
    Load { result: Value, ty: IrType, flags: Set<MemFlag>, base: Value, offset: i32 },
    Store { ty: IrType, flags: Set<MemFlag>, value: Value, base: Value, offset: i32 },
    /// Integer comparison for equality against an immediate; the result is an `I8`.
    IsEqualImm { result: Value, ty: IrType, arg: Value, imm: i64 },
    BandImm { result: Value, ty: IrType, arg: Value, imm: i64 },
    BorImm { result: Value, ty: IrType, arg: Value, imm: i64 },
    Select { result: Value, ty: IrType, cond: Value, if_true: Value, if_false: Value },
    Ireduce { result: Value, ty: IrType, arg: Value },
    Uextend { result: Value, ty: IrType, arg: Value },
    Bitcast { result: Value, ty: IrType, flags: Set<MemFlag>, arg: Value },
    SshrImm { result: Value, ty: IrType, arg: Value, imm: i64 },
    UshrImm { result: Value, ty: IrType, arg: Value, imm: i64 },
    Bxor { result: Value, ty: IrType, lhs: Value, rhs: Value },
    /// A direct call. Its results are new values, numbered in order from
    /// `first_result`, of the types that the callee hands back.
    Call { func: FuncRef, args: Seq<Value>, first_result: Value, result_tys: Seq<IrType> },
}

impl Inst {
    /// The types of the values that the instruction defines, in order.
    pub open spec fn result_types(self) -> Seq<IrType> {
        match self {
            Inst::Iconst { ty, .. } => seq![ty],
            Inst::F32const { .. } => seq![IrType::F32],
            Inst::F64const { .. } => seq![IrType::F64],
            Inst::Load { ty, .. } => seq![ty],
            Inst::Store { .. } => Seq::empty(),
            Inst::IsEqualImm { .. } => seq![IrType::I8],
            Inst::BandImm { ty, .. } => seq![ty],
            Inst::BorImm { ty, .. } => seq![ty],
            Inst::Select { ty, .. } => seq![ty],
            Inst::Ireduce { ty, .. } => seq![ty],
            Inst::Uextend { ty, .. } => seq![ty],
            Inst::Bitcast { ty, .. } => seq![ty],
            Inst::SshrImm { ty, .. } => seq![ty],
            Inst::UshrImm { ty, .. } => seq![ty],
            Inst::Bxor { ty, .. } => seq![ty],
            Inst::Call { result_tys, .. } => result_tys,
        }
    }
}

/// The types of the values that `code` defines, in order.
pub open spec fn defined_types(code: Seq<Inst>) -> Seq<IrType>
    decreases code.len(),
{
    if code.len() == 0 {
        Seq::empty()
    } else {
        defined_types(code.drop_last()) + code.last().result_types()
    }
}

} // verus!
