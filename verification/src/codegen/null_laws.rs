//! What the code for null bits does to a row: the flag written is the flag
//! read back, and writing one column's bit leaves its neighbours' bits alone.
use vstd::prelude::*;
use crate::codegen::ir::Inst;
use crate::codegen::ir::IrType;
use crate::codegen::ir::MemFlag;
use crate::codegen::ir::Value;
use crate::codegen::layout::columns_compatible;
use crate::codegen::layout::layout_wf;
use crate::codegen::layout::shares_word;
use crate::codegen::layout::occupants_of;
use crate::codegen::layout::ColumnLayout;
use crate::codegen::semantics::all_ones;
use crate::codegen::semantics::lemma_load_fits;
use crate::codegen::semantics::lemma_load_store;
use crate::codegen::semantics::lemma_run_empty;
use crate::codegen::semantics::lemma_run_push;
use crate::codegen::semantics::lemma_store_elsewhere;
use crate::codegen::semantics::load;
use crate::codegen::semantics::store;
use crate::codegen::semantics::truncate;
use crate::codegen::semantics::Machine;
use crate::codegen::utils::non_null_code;
use crate::codegen::utils::non_null_flag;
use crate::codegen::utils::set_null_code;
use crate::codegen::utils::value_at;

verus! {

/// The number with only bit `bit_idx` set.
pub open spec fn bit(bit_idx: u8) -> u64 {
    1u64 << (bit_idx as u64)
}

/// The word that [`set_null_code`] stores for `column`, where the flag has
/// the value `flag` and the word found in the row is `current`.
pub open spec fn word_after_set(
    columns: Seq<ColumnLayout>,
    column: int,
    null_ty: IrType,
    flag: u64,
    current: u64,
) -> u64 {
    let place = columns[column].null_bit->0;
    let ty = place.bitset_ty.spec_native_type();
    if occupants_of(columns, place.bitset_offset) == 1 {
        if ty.bytes() < null_ty.bytes() {
            truncate(flag, ty)
        } else {
            flag
        }
    } else if flag != 0 {
        current | bit(place.bit_idx)
    } else {
        current & truncate(!bit(place.bit_idx), ty)
    }
}

/// The flag that [`non_null_code`] computes for a column with a null bit,
/// where the word found in the row is `word`.
pub open spec fn flag_of_word(columns: Seq<ColumnLayout>, column: int, word: u64) -> u64 {
    let place = columns[column].null_bit->0;
    if occupants_of(columns, place.bitset_offset) == 1 {
        word
    } else {
        word & bit(place.bit_idx)
    }
}

/// The values below `next` are the same in both states.
pub open spec fn same_below(a: Machine, b: Machine, next: nat) -> bool {
    forall|v: Value| (v.0 as nat) < next ==> a.regs[v] == #[trigger] b.regs[v]
}

proof fn lemma_bit_facts(b: u64, j: u64, all: u64, cur: u64)
    by (bit_vector)
    requires
        b < 64,
        j < 64,
        j != b,
        (1u64 << b) & all == 1u64 << b,
        cur & all == cur,
    ensures
        (((1u64 << b) as i64) as u64) & all == 1u64 << b,
        (((!(1u64 << b)) as i64) as u64) & all == (!(1u64 << b)) & all,
        (cur | (1u64 << b)) & (1u64 << b) != 0,
        (cur & ((!(1u64 << b)) & all)) & (1u64 << b) == 0,
        (cur | (1u64 << b)) & (1u64 << j) == cur & (1u64 << j),
        (cur & ((!(1u64 << b)) & all)) & (1u64 << j) == cur & (1u64 << j),
        (cur | (1u64 << b)) & all == cur | (1u64 << b),
        (cur & ((!(1u64 << b)) & all)) & all == cur & ((!(1u64 << b)) & all),
{
}

/// A flag of zero or one fits every type.
proof fn lemma_small_flag(flag: u64, ty: IrType)
    requires
        flag <= 1,
    ensures
        truncate(flag, ty) == flag,
{
    assert(flag <= 1 ==> flag & 0xff == flag && flag & 0xffff == flag && flag & 0xffff_ffff == flag && flag
        & 0xffff_ffff_ffff_ffff == flag) by (bit_vector);
}

/// A bit of a word lies inside the word.
proof fn lemma_bit_inside(bit_idx: u8, ty: IrType)
    requires
        ty.is_int(),
        bit_idx < ty.bits(),
    ensures
        bit(bit_idx) & all_ones(ty) == bit(bit_idx),
{
    let b = bit_idx as u64;
    assert((b < 8 ==> (1u64 << b) & 0xff == 1u64 << b) && (b < 16 ==> (1u64 << b) & 0xffff == 1u64 << b) && (b
        < 32 ==> (1u64 << b) & 0xffff_ffff == 1u64 << b) && (b < 64 ==> (1u64 << b) & 0xffff_ffff_ffff_ffff
        == 1u64 << b)) by (bit_vector);
}

proof fn lemma_run_1(m: Machine, a: Inst)
    ensures
        m.run(seq![a]) == m.step(a),
{
    lemma_run_empty(m);
    lemma_run_push(m, Seq::empty(), a);
    assert(seq![a] =~= Seq::<Inst>::empty().push(a));
}

proof fn lemma_run_2(m: Machine, a: Inst, b: Inst)
    ensures
        m.run(seq![a, b]) == m.step(a).step(b),
{
    lemma_run_1(m, a);
    lemma_run_push(m, seq![a], b);
    assert(seq![a, b] =~= seq![a].push(b));
}

proof fn lemma_run_5(m: Machine, a: Inst, b: Inst, c: Inst, d: Inst, e: Inst)
    ensures
        m.run(seq![a, b, c, d, e]) == m.step(a).step(b).step(c).step(d).step(e),
{
    lemma_run_2(m, a, b);
    lemma_run_push(m, seq![a, b], c);
    assert(seq![a, b, c] =~= seq![a, b].push(c));
    lemma_run_push(m, seq![a, b, c], d);
    assert(seq![a, b, c, d] =~= seq![a, b, c].push(d));
    lemma_run_push(m, seq![a, b, c, d], e);
    assert(seq![a, b, c, d, e] =~= seq![a, b, c, d].push(e));
}

/// What the code of `set_column_null` does: it writes, at the place of the
/// column's word, the word given by [`word_after_set`], and nothing else;
/// the values computed before are untouched.
pub proof fn lemma_set_null_effect(
    columns: Seq<ColumnLayout>,
    column: int,
    m: Machine,
    is_null: Value,
    null_ty: IrType,
    dest: Value,
    flags: Set<MemFlag>,
    next: nat,
)
    requires
        layout_wf(columns),
        0 <= column < columns.len(),
        columns[column].null_bit is Some,
        null_ty.is_int(),
        (is_null.0 as nat) < next,
        (dest.0 as nat) < next,
        next + 4 < u32::MAX,
    ensures
        ({
            let place = columns[column].null_bit->0;
            let ty = place.bitset_ty.spec_native_type();
            let addr = m.regs[dest] + place.bitset_offset;
            let after = m.run(set_null_code(columns, column, is_null, null_ty, dest, flags, next));
            &&& after.mem == store(
                m.mem,
                addr,
                ty,
                word_after_set(columns, column, null_ty, m.regs[is_null], load(m.mem, addr, ty)),
            )
            &&& same_below(m, after, next)
        }),
{
    let place = columns[column].null_bit->0;
    let ty = place.bitset_ty.spec_native_type();
    let offset = place.bitset_offset as i32;
    let code = set_null_code(columns, column, is_null, null_ty, dest, flags, next);
    assert(column_has_place(columns, column));
    if occupants_of(columns, place.bitset_offset) == 1 {
        if ty.bytes() == null_ty.bytes() {
            lemma_run_1(m, code[0]);
        } else {
            lemma_run_2(m, code[0], code[1]);
        }
    } else {
        let cur = load(m.mem, m.regs[dest] + place.bitset_offset, ty);
        lemma_load_fits(m.mem, m.regs[dest] + place.bitset_offset, ty);
        lemma_bit_inside(place.bit_idx, ty);
        let other: u64 = if place.bit_idx == 0 {
            1
        } else {
            0
        };
        lemma_bit_facts(place.bit_idx as u64, other, all_ones(ty), cur);
        lemma_run_5(m, code[0], code[1], code[2], code[3], code[4]);
        let m1 = m.step(code[0]);
        let m2 = m1.step(code[1]);
        let m3 = m2.step(code[2]);
        let m4 = m3.step(code[3]);
        assert(m1.regs[value_at(next)] == cur);
        assert(m2.regs[value_at(next + 1)] == cur | bit(place.bit_idx));
        assert(m3.regs[value_at(next + 2)] == cur & truncate(!bit(place.bit_idx), ty));
        assert(m3.regs[is_null] == m.regs[is_null]);
        assert(m4.regs[dest] == m.regs[dest]);
    }
}

/// The column has a well-formed place for its null bit.
pub open spec fn column_has_place(columns: Seq<ColumnLayout>, column: int) -> bool {
    &&& columns[column].null_bit is Some
    &&& columns[column].null_bit->0.bit_idx < columns[column].null_bit->0.bitset_ty.spec_bits()
    &&& columns[column].null_bit->0.bitset_offset <= i32::MAX
}

/// What the code of `column_non_null` does for a column with a null bit: the
/// flag is the word found in the row, cut down to the column's bit where the
/// word is shared. Memory and the values computed before are untouched.
pub proof fn lemma_non_null_effect(
    columns: Seq<ColumnLayout>,
    column: int,
    m: Machine,
    row_ptr: Value,
    ptr_ty: IrType,
    readonly: bool,
    next: nat,
)
    requires
        layout_wf(columns),
        0 <= column < columns.len(),
        columns[column].null_bit is Some,
        (row_ptr.0 as nat) < next,
        next + 2 < u32::MAX,
    ensures
        ({
            let place = columns[column].null_bit->0;
            let ty = place.bitset_ty.spec_native_type();
            let addr = m.regs[row_ptr] + place.bitset_offset;
            let after = m.run(non_null_code(columns, column, row_ptr, ptr_ty, readonly, next));
            &&& after.regs[non_null_flag(columns, column, next)] == flag_of_word(
                columns,
                column,
                load(m.mem, addr, ty),
            )
            &&& after.mem == m.mem
            &&& same_below(m, after, next)
        }),
{
    let place = columns[column].null_bit->0;
    let ty = place.bitset_ty.spec_native_type();
    let code = non_null_code(columns, column, row_ptr, ptr_ty, readonly, next);
    assert(column_has_place(columns, column));
    if occupants_of(columns, place.bitset_offset) == 1 {
        lemma_run_1(m, code[0]);
    } else {
        let cur = load(m.mem, m.regs[row_ptr] + place.bitset_offset, ty);
        lemma_load_fits(m.mem, m.regs[row_ptr] + place.bitset_offset, ty);
        lemma_bit_inside(place.bit_idx, ty);
        let other: u64 = if place.bit_idx == 0 {
            1
        } else {
            0
        };
        lemma_bit_facts(place.bit_idx as u64, other, all_ones(ty), cur);
        lemma_run_2(m, code[0], code[1]);
    }
}

/// What the code of `column_non_null` does for a string column whose handle
/// is read as an integer of the model: the flag is one where the handle
/// found in the row is zero, and zero where it is not.
pub proof fn lemma_string_non_null_effect(
    columns: Seq<ColumnLayout>,
    column: int,
    m: Machine,
    row_ptr: Value,
    ptr_ty: IrType,
    readonly: bool,
    next: nat,
)
    requires
        layout_wf(columns),
        0 <= column < columns.len(),
        columns[column].ty.spec_is_string(),
        ptr_ty.is_int(),
        (row_ptr.0 as nat) < next,
        next + 2 < u32::MAX,
    ensures
        ({
            let addr = m.regs[row_ptr] + columns[column].offset;
            let after = m.run(non_null_code(columns, column, row_ptr, ptr_ty, readonly, next));
            &&& after.regs[non_null_flag(columns, column, next)] == (if load(m.mem, addr, ptr_ty) == 0 {
                1u64
            } else {
                0u64
            })
            &&& after.mem == m.mem
            &&& same_below(m, after, next)
        }),
{
    let code = non_null_code(columns, column, row_ptr, ptr_ty, readonly, next);
    lemma_run_2(m, code[0], code[1]);
    assert(truncate(0i64 as u64, ptr_ty) == 0) by {
        let all = all_ones(ptr_ty);
        assert(0u64 & all == 0) by (bit_vector);
    }
}

/// The flag that is written is the flag that is read back: after the code
/// of `set_column_null` ran with a flag of zero or one, the code of
/// `column_non_null` for the same column of the same row computes zero where
/// the flag was zero, and a number other than zero where it was one.
pub proof fn lemma_null_round_trip(
    columns: Seq<ColumnLayout>,
    column: int,
    m: Machine,
    is_null: Value,
    null_ty: IrType,
    dest: Value,
    flags: Set<MemFlag>,
    next: nat,
    row_ptr: Value,
    ptr_ty: IrType,
    readonly: bool,
    later: nat,
)
    requires
        layout_wf(columns),
        0 <= column < columns.len(),
        columns[column].null_bit is Some,
        null_ty.is_int(),
        m.regs[is_null] <= 1,
        (is_null.0 as nat) < next,
        (dest.0 as nat) < next,
        (row_ptr.0 as nat) < next,
        m.regs[row_ptr] == m.regs[dest],
        next + 4 < u32::MAX,
        next <= later,
        later + 2 < u32::MAX,
    ensures
        ({
            let written = m.run(set_null_code(columns, column, is_null, null_ty, dest, flags, next));
            let read = written.run(non_null_code(columns, column, row_ptr, ptr_ty, readonly, later));
            (read.regs[non_null_flag(columns, column, later)] != 0) == (m.regs[is_null] != 0)
        }),
{
    let place = columns[column].null_bit->0;
    let ty = place.bitset_ty.spec_native_type();
    let addr = m.regs[dest] + place.bitset_offset;
    let cur = load(m.mem, addr, ty);
    let flag = m.regs[is_null];
    let word = word_after_set(columns, column, null_ty, flag, cur);
    let written = m.run(set_null_code(columns, column, is_null, null_ty, dest, flags, next));
    lemma_set_null_effect(columns, column, m, is_null, null_ty, dest, flags, next);
    lemma_non_null_effect(columns, column, written, row_ptr, ptr_ty, readonly, later);
    assert(written.regs[row_ptr] == m.regs[row_ptr]);
    assert(column_has_place(columns, column));
    lemma_load_fits(m.mem, addr, ty);
    lemma_bit_inside(place.bit_idx, ty);
    let other: u64 = if place.bit_idx == 0 {
        1
    } else {
        0
    };
    lemma_bit_facts(place.bit_idx as u64, other, all_ones(ty), cur);
    lemma_small_flag(flag, ty);
    lemma_load_store(m.mem, addr, ty, word);
}

/// Writing one column's null bit leaves every other bit of a shared word as
/// it was, sets the column's own bit exactly where the flag is not zero, and
/// changes no byte outside the word.
pub proof fn lemma_shared_word_isolation(
    columns: Seq<ColumnLayout>,
    column: int,
    m: Machine,
    is_null: Value,
    null_ty: IrType,
    dest: Value,
    flags: Set<MemFlag>,
    next: nat,
)
    requires
        layout_wf(columns),
        0 <= column < columns.len(),
        columns[column].null_bit is Some,
        occupants_of(columns, columns[column].null_bit->0.bitset_offset) != 1,
        null_ty.is_int(),
        (is_null.0 as nat) < next,
        (dest.0 as nat) < next,
        next + 4 < u32::MAX,
    ensures
        ({
            let place = columns[column].null_bit->0;
            let ty = place.bitset_ty.spec_native_type();
            let addr = m.regs[dest] + place.bitset_offset;
            let after = m.run(set_null_code(columns, column, is_null, null_ty, dest, flags, next));
            &&& forall|j: u8|
                j < 64 && j != place.bit_idx ==> #[trigger] (load(after.mem, addr, ty) & bit(j)) == load(
                    m.mem,
                    addr,
                    ty,
                ) & bit(j)
            &&& (load(after.mem, addr, ty) & bit(place.bit_idx) != 0) == (m.regs[is_null] != 0)
            &&& forall|a: int| a < addr || a >= addr + ty.bytes() ==> #[trigger] after.mem[a] == m.mem[a]
        }),
{
    let place = columns[column].null_bit->0;
    let ty = place.bitset_ty.spec_native_type();
    let addr = m.regs[dest] + place.bitset_offset;
    let cur = load(m.mem, addr, ty);
    let flag = m.regs[is_null];
    let word = word_after_set(columns, column, null_ty, flag, cur);
    let after = m.run(set_null_code(columns, column, is_null, null_ty, dest, flags, next));
    lemma_set_null_effect(columns, column, m, is_null, null_ty, dest, flags, next);
    assert(column_has_place(columns, column));
    lemma_load_fits(m.mem, addr, ty);
    lemma_bit_inside(place.bit_idx, ty);
    lemma_load_store(m.mem, addr, ty, word);
    let other: u64 = if place.bit_idx == 0 {
        1
    } else {
        0
    };
    lemma_bit_facts(place.bit_idx as u64, other, all_ones(ty), cur);
    assert forall|j: u8| j < 64 && j != place.bit_idx implies #[trigger] (load(after.mem, addr, ty) & bit(
        j,
    )) == cur & bit(j) by {
        lemma_bit_facts(place.bit_idx as u64, j as u64, all_ones(ty), cur);
    }
    assert forall|a: int| a < addr || a >= addr + ty.bytes() implies #[trigger] after.mem[a] == m.mem[a] by {
        lemma_store_elsewhere(m.mem, addr, ty, word, a);
    }
}

/// Writing one column's null bit changes no other column's flag: for a
/// column that keeps its bit in the same word, the code of `column_non_null`
/// computes after the write what it computed before it.
pub proof fn lemma_sibling_flag_kept(
    columns: Seq<ColumnLayout>,
    column: int,
    sibling: int,
    m: Machine,
    is_null: Value,
    null_ty: IrType,
    dest: Value,
    flags: Set<MemFlag>,
    next: nat,
    row_ptr: Value,
    ptr_ty: IrType,
    readonly: bool,
    later: nat,
)
    requires
        layout_wf(columns),
        0 <= column < columns.len(),
        0 <= sibling < columns.len(),
        column != sibling,
        columns[column].null_bit is Some,
        columns[sibling].null_bit is Some,
        columns[sibling].null_bit->0.bitset_offset == columns[column].null_bit->0.bitset_offset,
        null_ty.is_int(),
        (is_null.0 as nat) < next,
        (dest.0 as nat) < next,
        (row_ptr.0 as nat) < next,
        m.regs[row_ptr] == m.regs[dest],
        next + 4 < u32::MAX,
        next <= later,
        later + 2 < u32::MAX,
    ensures
        ({
            let written = m.run(set_null_code(columns, column, is_null, null_ty, dest, flags, next));
            let before = m.run(non_null_code(columns, sibling, row_ptr, ptr_ty, readonly, later));
            let after = written.run(non_null_code(columns, sibling, row_ptr, ptr_ty, readonly, later));
            after.regs[non_null_flag(columns, sibling, later)] == before.regs[non_null_flag(
                columns,
                sibling,
                later,
            )]
        }),
{
    let place = columns[column].null_bit->0;
    let other = columns[sibling].null_bit->0;
    let written = m.run(set_null_code(columns, column, is_null, null_ty, dest, flags, next));
    assert(columns_compatible(columns[column], columns[sibling]));
    lemma_two_occupants(columns, column, sibling);
    lemma_shared_word_isolation(columns, column, m, is_null, null_ty, dest, flags, next);
    lemma_set_null_effect(columns, column, m, is_null, null_ty, dest, flags, next);
    lemma_non_null_effect(columns, sibling, m, row_ptr, ptr_ty, readonly, later);
    lemma_non_null_effect(columns, sibling, written, row_ptr, ptr_ty, readonly, later);
    assert(written.regs[row_ptr] == m.regs[row_ptr]);
    let ty = place.bitset_ty.spec_native_type();
    let addr = m.regs[dest] + place.bitset_offset;
    assert(load(written.mem, addr, ty) & bit(other.bit_idx) == load(m.mem, addr, ty) & bit(other.bit_idx));
}

/// A word that two different columns keep their bits in has more than one
/// occupant.
proof fn lemma_two_occupants(columns: Seq<ColumnLayout>, a: int, b: int)
    requires
        0 <= a < columns.len(),
        0 <= b < columns.len(),
        a != b,
        columns[a].null_bit is Some,
        columns[b].null_bit is Some,
        columns[a].null_bit->0.bitset_offset == columns[b].null_bit->0.bitset_offset,
    ensures
        occupants_of(columns, columns[a].null_bit->0.bitset_offset) >= 2,
    decreases columns.len(),
{
    let offset = columns[a].null_bit->0.bitset_offset;
    let last = columns.len() - 1;
    let rest = columns.drop_last();
    if a == last {
        lemma_one_occupant(rest, b, offset);
    } else if b == last {
        lemma_one_occupant(rest, a, offset);
    } else {
        lemma_two_occupants(rest, a, b);
    }
}

/// A word that a column keeps its bit in has an occupant.
proof fn lemma_one_occupant(columns: Seq<ColumnLayout>, a: int, offset: u32)
    requires
        0 <= a < columns.len(),
        shares_word(columns[a], offset),
    ensures
        occupants_of(columns, offset) >= 1,
    decreases columns.len(),
{
    if a < columns.len() - 1 {
        lemma_one_occupant(columns.drop_last(), a, offset);
    }
}

} // verus!
