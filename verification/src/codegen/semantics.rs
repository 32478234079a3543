//! What the emitted instructions compute.
//!
//! A machine state holds the SSA values computed so far, each as the
//! unsigned number its bits spell, and the bytes of memory. Every access to
//! memory is little-endian, as on the targets the rows are laid out for; the
//! flags of an access say nothing of its result and are not read here.
use vstd::prelude::*;
use crate::codegen::ir::Inst;
use crate::codegen::ir::IrType;
use crate::codegen::ir::Value;

verus! {

/// The state that straight-line code runs on.
pub struct Machine {
    /// The number held by each value computed so far.
    pub regs: Map<Value, u64>,
    /// The byte at each address.
    pub mem: Map<int, u8>,
}

/// The number whose bits are all set, as wide as a value of type `ty`.
pub open spec fn all_ones(ty: IrType) -> u64 {
    match ty {
        IrType::I8 => 0xff,
        IrType::I16 => 0xffff,
        IrType::I32 | IrType::F32 => 0xffff_ffff,
        IrType::I64 | IrType::F64 | IrType::Other => 0xffff_ffff_ffff_ffff,
    }
}

/// The low bits of `x` that a value of type `ty` keeps.
pub open spec fn truncate(x: u64, ty: IrType) -> u64 {
    x & all_ones(ty)
}

/// The number with only the sign bit of type `ty` set.
pub open spec fn sign_bit(ty: IrType) -> u64 {
    match ty {
        IrType::I8 => 0x80,
        IrType::I16 => 0x8000,
        IrType::I32 | IrType::F32 => 0x8000_0000,
        IrType::I64 | IrType::F64 | IrType::Other => 0x8000_0000_0000_0000,
    }
}

/// The shift amount that an immediate stands for on a value of `ty`: shifts
/// count modulo the width.
pub open spec fn shift_amount(imm: i64, ty: IrType) -> u64 {
    match ty {
        IrType::I8 => (imm as u64) & 7,
        IrType::I16 => (imm as u64) & 15,
        IrType::I32 | IrType::F32 => (imm as u64) & 31,
        IrType::I64 | IrType::F64 | IrType::Other => (imm as u64) & 63,
    }
}

/// Logical shift right of a value of type `ty`.
pub open spec fn shift_right_logical(x: u64, ty: IrType, imm: i64) -> u64 {
    x >> shift_amount(imm, ty)
}

/// Arithmetic shift right of a value of type `ty`: the vacated high bits
/// take the sign bit.
pub open spec fn shift_right_arithmetic(x: u64, ty: IrType, imm: i64) -> u64 {
    let amount = shift_amount(imm, ty);
    let all = all_ones(ty);
    if x & sign_bit(ty) != 0 {
        (x >> amount) | (all & !(all >> amount))
    } else {
        x >> amount
    }
}

/// The number that eight bytes spell, lowest first.
pub open spec fn join_bytes(b0: u8, b1: u8, b2: u8, b3: u8, b4: u8, b5: u8, b6: u8, b7: u8) -> u64 {
    (b0 as u64) | ((b1 as u64) << 8) | ((b2 as u64) << 16) | ((b3 as u64) << 24) | ((b4 as u64) << 32)
        | ((b5 as u64) << 40) | ((b6 as u64) << 48) | ((b7 as u64) << 56)
}

/// Byte `i` of `x`, counting from the lowest.
pub open spec fn byte_of(x: u64, i: int) -> u8 {
    if i == 0 {
        (x & 0xff) as u8
    } else if i == 1 {
        ((x >> 8) & 0xff) as u8
    } else if i == 2 {
        ((x >> 16) & 0xff) as u8
    } else if i == 3 {
        ((x >> 24) & 0xff) as u8
    } else if i == 4 {
        ((x >> 32) & 0xff) as u8
    } else if i == 5 {
        ((x >> 40) & 0xff) as u8
    } else if i == 6 {
        ((x >> 48) & 0xff) as u8
    } else {
        ((x >> 56) & 0xff) as u8
    }
}

/// Byte `i` of a word of `n` bytes at `addr`; zero past the word's end.
pub open spec fn byte_at(mem: Map<int, u8>, addr: int, i: int, n: nat) -> u8 {
    if i < n {
        mem[addr + i]
    } else {
        0
    }
}

/// The value of type `ty` that memory holds at `addr`.
pub open spec fn load(mem: Map<int, u8>, addr: int, ty: IrType) -> u64 {
    let n = ty.bytes();
    join_bytes(
        byte_at(mem, addr, 0, n),
        byte_at(mem, addr, 1, n),
        byte_at(mem, addr, 2, n),
        byte_at(mem, addr, 3, n),
        byte_at(mem, addr, 4, n),
        byte_at(mem, addr, 5, n),
        byte_at(mem, addr, 6, n),
        byte_at(mem, addr, 7, n),
    )
}

/// Memory after the value `x` of type `ty` was written at `addr`.
pub open spec fn store(mem: Map<int, u8>, addr: int, ty: IrType, x: u64) -> Map<int, u8> {
    Map::new(
        |a: int| true,
        |a: int|
            if addr <= a < addr + ty.bytes() {
                byte_of(x, a - addr)
            } else {
                mem[a]
            },
    )
}

impl Machine {
    /// The state after `v` was computed as `x`.
    pub open spec fn define(self, v: Value, x: u64) -> Machine {
        Machine { regs: self.regs.insert(v, x), mem: self.mem }
    }

    /// The address `offset` bytes past the pointer held by `base`.
    pub open spec fn address(self, base: Value, offset: i32) -> int {
        self.regs[base] + offset
    }

    /// The state after one instruction.
    pub open spec fn step(self, inst: Inst) -> Machine {
        match inst {
            Inst::Iconst { result, ty, imm } => self.define(result, truncate(imm as u64, ty)),
            Inst::F32const { result, bits32 } => self.define(result, bits32 as u64),
            Inst::F64const { result, bits64 } => self.define(result, bits64),
            Inst::Load { result, ty, base, offset, .. } => self.define(
                result,
                load(self.mem, self.address(base, offset), ty),
            ),
            Inst::Store { ty, value, base, offset, .. } => Machine {
                regs: self.regs,
                mem: store(self.mem, self.address(base, offset), ty, self.regs[value]),
            },
            Inst::IsEqualImm { result, ty, arg, imm } => self.define(
                result,
                if self.regs[arg] == truncate(imm as u64, ty) {
                    1
                } else {
                    0
                },
            ),
            Inst::BandImm { result, ty, arg, imm } => self.define(
                result,
                self.regs[arg] & truncate(imm as u64, ty),
            ),
            Inst::BorImm { result, ty, arg, imm } => self.define(
                result,
                self.regs[arg] | truncate(imm as u64, ty),
            ),
            Inst::Select { result, cond, if_true, if_false, .. } => self.define(
                result,
                if self.regs[cond] != 0 {
                    self.regs[if_true]
                } else {
                    self.regs[if_false]
                },
            ),
            Inst::Ireduce { result, ty, arg } => self.define(result, truncate(self.regs[arg], ty)),
            Inst::Uextend { result, arg, .. } => self.define(result, self.regs[arg]),
            Inst::Bitcast { result, arg, .. } => self.define(result, self.regs[arg]),
            Inst::SshrImm { result, ty, arg, imm } => self.define(
                result,
                shift_right_arithmetic(self.regs[arg], ty, imm),
            ),
            Inst::UshrImm { result, ty, arg, imm } => self.define(
                result,
                shift_right_logical(self.regs[arg], ty, imm),
            ),
            Inst::Bxor { result, lhs, rhs, .. } => self.define(result, self.regs[lhs] ^ self.regs[rhs]),
            // What a callee does is not known here: the state after a call
            // is some state, of which nothing can be proved.
            Inst::Call { .. } => arbitrary(),
        }
    }

    /// The state after `code` ran from first to last.
    pub open spec fn run(self, code: Seq<Inst>) -> Machine
        decreases code.len(),
    {
        if code.len() == 0 {
            self
        } else {
            self.run(code.drop_last()).step(code.last())
        }
    }
}

/// Running one more instruction is one more step.
pub proof fn lemma_run_push(m: Machine, code: Seq<Inst>, inst: Inst)
    ensures
        m.run(code.push(inst)) == m.run(code).step(inst),
{
    assert(code.push(inst).drop_last() =~= code);
}

/// Running one piece of code after another is running the two as one.
pub proof fn lemma_run_concat(m: Machine, first: Seq<Inst>, second: Seq<Inst>)
    ensures
        m.run(first + second) == m.run(first).run(second),
    decreases second.len(),
{
    if second.len() == 0 {
        assert(first + second =~= first);
    } else {
        lemma_run_concat(m, first, second.drop_last());
        assert((first + second).drop_last() =~= first + second.drop_last());
    }
}

/// Running no code changes nothing.
pub proof fn lemma_run_empty(m: Machine)
    ensures
        m.run(Seq::<Inst>::empty()) == m,
{
}

/// A value read back where it was written is the value, cut to its type.
pub proof fn lemma_load_store(mem: Map<int, u8>, addr: int, ty: IrType, x: u64)
    requires
        ty != IrType::Other,
    ensures
        load(store(mem, addr, ty, x), addr, ty) == truncate(x, ty),
{
    let after = store(mem, addr, ty, x);
    let n = ty.bytes();
    assert forall|i: int| 0 <= i < n implies #[trigger] byte_at(after, addr, i, n) == byte_of(x, i) by {
        assert(after[addr + i] == byte_of(x, addr + i - addr));
    }
    let b0 = byte_of(x, 0);
    let b1 = byte_of(x, 1);
    let b2 = byte_of(x, 2);
    let b3 = byte_of(x, 3);
    let b4 = byte_of(x, 4);
    let b5 = byte_of(x, 5);
    let b6 = byte_of(x, 6);
    let b7 = byte_of(x, 7);
    if n == 1 {
        assert(byte_at(after, addr, 0, n) == b0);
        assert(join_bytes(((x & 0xff) as u8), 0, 0, 0, 0, 0, 0, 0) == x & 0xff) by (bit_vector);
    } else if n == 2 {
        assert(byte_at(after, addr, 0, n) == b0);
        assert(byte_at(after, addr, 1, n) == b1);
        assert(join_bytes(((x & 0xff) as u8), (((x >> 8) & 0xff) as u8), 0, 0, 0, 0, 0, 0) == x
            & 0xffff) by (bit_vector);
    } else if n == 4 {
        assert(byte_at(after, addr, 0, n) == b0);
        assert(byte_at(after, addr, 1, n) == b1);
        assert(byte_at(after, addr, 2, n) == b2);
        assert(byte_at(after, addr, 3, n) == b3);
        assert(join_bytes(
            ((x & 0xff) as u8),
            (((x >> 8) & 0xff) as u8),
            (((x >> 16) & 0xff) as u8),
            (((x >> 24) & 0xff) as u8),
            0,
            0,
            0,
            0,
        ) == x & 0xffff_ffff) by (bit_vector);
    } else {
        assert(n == 8);
        assert(byte_at(after, addr, 0, n) == b0);
        assert(byte_at(after, addr, 1, n) == b1);
        assert(byte_at(after, addr, 2, n) == b2);
        assert(byte_at(after, addr, 3, n) == b3);
        assert(byte_at(after, addr, 4, n) == b4);
        assert(byte_at(after, addr, 5, n) == b5);
        assert(byte_at(after, addr, 6, n) == b6);
        assert(byte_at(after, addr, 7, n) == b7);
        assert(join_bytes(
            ((x & 0xff) as u8),
            (((x >> 8) & 0xff) as u8),
            (((x >> 16) & 0xff) as u8),
            (((x >> 24) & 0xff) as u8),
            (((x >> 32) & 0xff) as u8),
            (((x >> 40) & 0xff) as u8),
            (((x >> 48) & 0xff) as u8),
            (((x >> 56) & 0xff) as u8),
        ) == x & 0xffff_ffff_ffff_ffff) by (bit_vector);
    }
}

/// A value read from memory fits its type.
pub proof fn lemma_load_fits(mem: Map<int, u8>, addr: int, ty: IrType)
    requires
        ty != IrType::Other,
    ensures
        truncate(load(mem, addr, ty), ty) == load(mem, addr, ty),
{
    let n = ty.bytes();
    let b0 = byte_at(mem, addr, 0, n);
    let b1 = byte_at(mem, addr, 1, n);
    let b2 = byte_at(mem, addr, 2, n);
    let b3 = byte_at(mem, addr, 3, n);
    if n == 1 {
        assert(join_bytes(b0, 0, 0, 0, 0, 0, 0, 0) & 0xff == join_bytes(b0, 0, 0, 0, 0, 0, 0, 0))
            by (bit_vector);
    } else if n == 2 {
        assert(join_bytes(b0, b1, 0, 0, 0, 0, 0, 0) & 0xffff == join_bytes(b0, b1, 0, 0, 0, 0, 0, 0))
            by (bit_vector);
    } else if n == 4 {
        assert(join_bytes(b0, b1, b2, b3, 0, 0, 0, 0) & 0xffff_ffff == join_bytes(
            b0,
            b1,
            b2,
            b3,
            0,
            0,
            0,
            0,
        )) by (bit_vector);
    } else {
        let x = load(mem, addr, ty);
        assert(x & 0xffff_ffff_ffff_ffff == x) by (bit_vector);
    }
}

/// A write leaves every byte outside the written word as it was.
pub proof fn lemma_store_elsewhere(mem: Map<int, u8>, addr: int, ty: IrType, x: u64, a: int)
    requires
        a < addr || a >= addr + ty.bytes(),
    ensures
        store(mem, addr, ty, x)[a] == mem[a],
{
}

} // verus!
