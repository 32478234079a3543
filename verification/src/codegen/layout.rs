//! The native layout of a row: where each column lies, and where the bit
//! that marks it null is kept.
use vstd::prelude::*;
use crate::codegen::ir::IrType;

verus! {

/// The type of a column's value.
#[derive(Clone, Copy, Debug, PartialEq, Eq, Structural)]
pub enum ColumnType {
    Bool,
    U8,
    I8,
    U16,
    I16,
    U32,
    I32,
    U64,
    I64,
    F32,
    F64,
    String,
}

impl ColumnType {
    pub open spec fn spec_is_string(self) -> bool {
        self is String
    }

    #[verifier::when_used_as_spec(spec_is_string)]
    pub fn is_string(self) -> (b: bool)
        ensures
            b == self.spec_is_string(),
    {
        match self {
            ColumnType::String => true,
            _ => false,
        }
    }
}

/// The width of a word that holds null bits.
#[derive(Clone, Copy, Debug, PartialEq, Eq, Structural)]
pub enum BitSetType {
    U8,
    U16,
    U32,
    U64,
}

impl BitSetType {
    /// The integer type that a word of this width is loaded and stored as.
    pub open spec fn spec_native_type(self) -> IrType {
        match self {
            BitSetType::U8 => IrType::I8,
            BitSetType::U16 => IrType::I16,
            BitSetType::U32 => IrType::I32,
            BitSetType::U64 => IrType::I64,
        }
    }

    #[verifier::when_used_as_spec(spec_native_type)]
    pub fn native_type(self) -> (ty: IrType)
        ensures
            ty == self.spec_native_type(),
    {
        match self {
            BitSetType::U8 => IrType::I8,
            BitSetType::U16 => IrType::I16,
            BitSetType::U32 => IrType::I32,
            BitSetType::U64 => IrType::I64,
        }
    }

    /// Number of bits in a word of this width.
    pub open spec fn spec_bits(self) -> u8 {
        match self {
            BitSetType::U8 => 8,
            BitSetType::U16 => 16,
            BitSetType::U32 => 32,
            BitSetType::U64 => 64,
        }
    }

    #[verifier::when_used_as_spec(spec_bits)]
    pub fn bits(self) -> (n: u8)
        ensures
            n == self.spec_bits(),
    {
        match self {
            BitSetType::U8 => 8,
            BitSetType::U16 => 16,
            BitSetType::U32 => 32,
            BitSetType::U64 => 64,
        }
    }
}

/// The place of one column's null bit: the word's width, the word's byte
/// offset in the row, and the bit's index in the word.
#[derive(Clone, Copy, Debug, PartialEq, Eq, Structural)]
pub struct NullBit {
    pub bitset_ty: BitSetType,
    pub bitset_offset: u32,
    pub bit_idx: u8,
}

/// One column of a row.
#[derive(Clone, Copy, Debug, PartialEq, Eq, Structural)]
pub struct ColumnLayout {
    pub ty: ColumnType,
    /// Byte offset of the column's value in the row.
    pub offset: u32,
    pub nullable: bool,
    /// Where the null bit is kept. A string column has none: a zero handle
    /// in the value's place marks it null.
    pub null_bit: Option<NullBit>,
}

/// Number of columns among `columns` whose null bit lies in the word at
/// `bitset_offset`.
pub open spec fn occupants_of(columns: Seq<ColumnLayout>, bitset_offset: u32) -> nat
    decreases columns.len(),
{
    if columns.len() == 0 {
        0
    } else {
        let rest = occupants_of(columns.drop_last(), bitset_offset);
        if shares_word(columns.last(), bitset_offset) {
            rest + 1
        } else {
            rest
        }
    }
}

/// The column keeps its null bit in the word at `bitset_offset`.
pub open spec fn shares_word(column: ColumnLayout, bitset_offset: u32) -> bool {
    column.null_bit matches Some(bit) && bit.bitset_offset == bitset_offset
}

/// A column is consistent in itself: it has a null bit exactly when it is
/// nullable and no string, the bit lies inside its word, and both offsets can
/// be written as a signed 32-bit displacement.
pub open spec fn column_wf(column: ColumnLayout) -> bool {
    &&& column.null_bit is Some <==> (column.nullable && !column.ty.spec_is_string())
    &&& column.offset <= i32::MAX
    &&& column.null_bit matches Some(bit) ==> {
        &&& bit.bit_idx < bit.bitset_ty.spec_bits()
        &&& bit.bitset_offset <= i32::MAX
    }
}

/// Two columns agree on a word they share and never on a bit.
pub open spec fn columns_compatible(a: ColumnLayout, b: ColumnLayout) -> bool {
    match (a.null_bit, b.null_bit) {
        (Some(x), Some(y)) => x.bitset_offset == y.bitset_offset ==> (x.bitset_ty == y.bitset_ty
            && x.bit_idx != y.bit_idx),
        _ => true,
    }
}

/// The columns form a layout: each is consistent, and any two distinct ones
/// are compatible.
pub open spec fn layout_wf(columns: Seq<ColumnLayout>) -> bool {
    &&& forall|i: int| 0 <= i < columns.len() ==> column_wf(#[trigger] columns[i])
    &&& forall|i: int, j: int|
        0 <= i < columns.len() && 0 <= j < columns.len() && i != j ==> columns_compatible(
            #[trigger] columns[i],
            #[trigger] columns[j],
        )
}

/// The layout of a row.
pub struct NativeLayout {
    columns: Vec<ColumnLayout>,
}

impl View for NativeLayout {
    type V = Seq<ColumnLayout>;

    closed spec fn view(&self) -> Seq<ColumnLayout> {
        self.columns@
    }
}

fn check_column(column: &ColumnLayout) -> (ok: bool)
    ensures
        ok == column_wf(*column),
{
    let has_bit = column.nullable && !column.ty.is_string();
    if column.offset > 0x7fff_ffff {
        return false;
    }
    match column.null_bit {
        Some(bit) => has_bit && bit.bit_idx < bit.bitset_ty.bits() && bit.bitset_offset <= 0x7fff_ffff,
        None => !has_bit,
    }
}

fn check_compatible(a: &ColumnLayout, b: &ColumnLayout) -> (ok: bool)
    ensures
        ok == columns_compatible(*a, *b),
{
    match (a.null_bit, b.null_bit) {
        (Some(x), Some(y)) => {
            if x.bitset_offset == y.bitset_offset {
                x.bitset_ty == y.bitset_ty && x.bit_idx != y.bit_idx
            } else {
                true
            }
        },
        _ => true,
    }
}

impl NativeLayout {
    /// The columns of a layout form one: see [`layout_wf`].
    #[verifier::type_invariant]
    closed spec fn inv(&self) -> bool {
        layout_wf(self.columns@)
    }

    /// Builds a layout from its columns, or nothing when they do not form one.
    pub fn new(columns: Vec<ColumnLayout>) -> (layout: Option<NativeLayout>)
        ensures
            layout is Some <==> layout_wf(columns@),
            layout matches Some(l) ==> l@ == columns@,
    {
        let n = columns.len();
        let mut i: usize = 0;
        while i < n
            invariant
                n == columns.len(),
                i <= n,
                forall|a: int| 0 <= a < i ==> column_wf(#[trigger] columns[a]),
                forall|a: int, b: int|
                    0 <= a < i && 0 <= b < n && a != b ==> columns_compatible(
                        #[trigger] columns[a],
                        #[trigger] columns[b],
                    ),
            decreases n - i,
        {
            if !check_column(&columns[i]) {
                return None;
            }
            let mut j: usize = 0;
            while j < n
                invariant
                    n == columns.len(),
                    i < n,
                    j <= n,
                    forall|b: int|
                        0 <= b < j && b != i ==> columns_compatible(
                            columns[i as int],
                            #[trigger] columns[b],
                        ),
                decreases n - j,
            {
                if j != i && !check_compatible(&columns[i], &columns[j]) {
                    return None;
                }
                j += 1;
            }
            i += 1;
        }
        Some(NativeLayout { columns })
    }

    /// Number of columns. The columns of a layout always form one.
    pub fn len(&self) -> (n: usize)
        ensures
            n == self@.len(),
            layout_wf(self@),
    {
        proof {
            use_type_invariant(self);
        }
        self.columns.len()
    }

    /// The description of one column, which is consistent in itself.
    pub fn column(&self, column: usize) -> (found: ColumnLayout)
        requires
            column < self@.len(),
        ensures
            found == self@[column as int],
            column_wf(found),
    {
        proof {
            use_type_invariant(self);
        }
        self.columns[column]
    }

    /// Whether the column can be null.
    pub fn is_nullable(&self, column: usize) -> (b: bool)
        requires
            column < self@.len(),
        ensures
            b == self@[column as int].nullable,
            column_wf(self@[column as int]),
    {
        self.column(column).nullable
    }

    /// The type of the column's value.
    pub fn column_type_of(&self, column: usize) -> (ty: ColumnType)
        requires
            column < self@.len(),
        ensures
            ty == self@[column as int].ty,
            column_wf(self@[column as int]),
    {
        self.column(column).ty
    }

    /// Byte offset of the column's value in the row.
    pub fn offset_of(&self, column: usize) -> (offset: u32)
        requires
            column < self@.len(),
        ensures
            offset == self@[column as int].offset,
            offset <= i32::MAX,
    {
        self.column(column).offset
    }

    /// Where the column's null bit is kept: the word's width, the word's
    /// offset, and the bit's index. The column must have a null bit.
    pub fn nullability_of(&self, column: usize) -> (place: (BitSetType, u32, u8))
        requires
            column < self@.len(),
            self@[column as int].null_bit is Some,
        ensures
            place.0 == self@[column as int].null_bit->0.bitset_ty,
            place.1 == self@[column as int].null_bit->0.bitset_offset,
            place.2 == self@[column as int].null_bit->0.bit_idx,
            place.1 <= i32::MAX,
            place.2 < place.0.spec_bits(),
    {
        match self.column(column).null_bit {
            Some(bit) => (bit.bitset_ty, bit.bitset_offset, bit.bit_idx),
            None => (BitSetType::U8, 0, 0),
        }
    }

    /// Number of columns that keep their null bit in the same word as
    /// `column` does, itself included. The column must have a null bit.
    pub fn bitset_occupants(&self, column: usize) -> (n: usize)
        requires
            column < self@.len(),
            self@[column as int].null_bit is Some,
        ensures
            n == occupants_of(self@, self@[column as int].null_bit->0.bitset_offset),
            n >= 1,
    {
        let offset = match self.columns[column].null_bit {
            Some(bit) => bit.bitset_offset,
            None => 0,
        };
        let mut count: usize = 0;
        let mut i: usize = 0;
        while i < self.columns.len()
            invariant
                i <= self.columns.len(),
                column < self.columns.len(),
                shares_word(self.columns[column as int], offset),
                count == occupants_of(self.columns@.take(i as int), offset),
                count <= i,
                i > column ==> count >= 1,
            decreases self.columns.len() - i,
        {
            proof {
                assert(self.columns@.take(i + 1).drop_last() =~= self.columns@.take(i as int));
            }
            match self.columns[i].null_bit {
                Some(bit) => {
                    if bit.bitset_offset == offset {
                        count += 1;
                    }
                },
                None => {},
            }
            i += 1;
        }
        proof {
            assert(self.columns@.take(i as int) =~= self.columns@);
        }
        count
    }
}

} // verus!
