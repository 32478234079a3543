//! The order that normalised floats take.
//!
//! A float is known here by its bits: a sign, an exponent field and a
//! fraction field. The code of `normalize_float` turns the bits into an
//! integer of the same width; read as a signed number, that integer is the
//! float's place in the IEEE 754 total order.
use vstd::prelude::*;
use vstd::arithmetic::power2::lemma_pow2_pos;
use vstd::arithmetic::power2::lemma_pow2_strictly_increases;
use vstd::arithmetic::power2::lemma_pow2_unfold;
use vstd::arithmetic::power2::pow2;
use crate::codegen::ir::Inst;
use crate::codegen::ir::IrType;
use crate::codegen::ir::Value;
use crate::codegen::semantics::all_ones;
use crate::codegen::semantics::lemma_run_push;
use crate::codegen::semantics::sign_bit;
use crate::codegen::semantics::Machine;
use crate::codegen::utils::normalize_code;
use crate::codegen::utils::value_at;

verus! {

/// The bits fit a value of type `ty`.
pub open spec fn fits(x: u64, ty: IrType) -> bool {
    x <= all_ones(ty)
}

/// The sign bit of the float is set.
pub open spec fn is_negative(x: u64, ty: IrType) -> bool {
    x >= sign_bit(ty)
}

/// The bits of the float without its sign: exponent and fraction.
pub open spec fn magnitude(x: u64, ty: IrType) -> int {
    if is_negative(x, ty) {
        x - sign_bit(ty)
    } else {
        x as int
    }
}

/// The number of values that the fraction field can take.
pub open spec fn fraction_range(ty: IrType) -> int {
    if ty is F32 {
        0x80_0000
    } else {
        0x10_0000_0000_0000
    }
}

/// The exponent field whose floats are infinities and NaNs.
pub open spec fn top_exponent(ty: IrType) -> int {
    if ty is F32 {
        0xff
    } else {
        0x7ff
    }
}

/// The exponent field of the float.
pub open spec fn exponent(x: u64, ty: IrType) -> int {
    magnitude(x, ty) / fraction_range(ty)
}

/// The fraction field of the float.
pub open spec fn fraction(x: u64, ty: IrType) -> int {
    magnitude(x, ty) % fraction_range(ty)
}

/// The float is a number: neither an infinity nor a NaN.
pub open spec fn is_finite(x: u64, ty: IrType) -> bool {
    exponent(x, ty) < top_exponent(ty)
}

/// The float is a NaN.
pub open spec fn is_nan(x: u64, ty: IrType) -> bool {
    exponent(x, ty) == top_exponent(ty) && fraction(x, ty) != 0
}

/// The size of a number with exponent field `e` and fraction field `f`, in
/// units of the smallest subnormal: `f` where `e` is zero, and else the
/// significand `range + f` times `2^(e - 1)`.
pub open spec fn scaled(e: int, f: int, range: int) -> int {
    if e <= 0 {
        f
    } else {
        (range + f) * pow2((e - 1) as nat)
    }
}

/// The number that a finite float stands for, in units of the smallest
/// subnormal of its type.
pub open spec fn scaled_value(x: u64, ty: IrType) -> int {
    let size = scaled(exponent(x, ty), fraction(x, ty), fraction_range(ty));
    if is_negative(x, ty) {
        -size
    } else {
        size
    }
}

/// The float's place in the total order: a float with its sign bit clear
/// stands at its magnitude, one with its sign bit set at minus one minus its
/// magnitude.
pub open spec fn total_order_key(x: u64, ty: IrType) -> int {
    if is_negative(x, ty) {
        -1 - magnitude(x, ty)
    } else {
        magnitude(x, ty)
    }
}

/// The bits of an integer of the width of `ty`, read as a signed number.
pub open spec fn signed(x: u64, ty: IrType) -> int {
    if x >= sign_bit(ty) {
        x - 2 * sign_bit(ty)
    } else {
        x as int
    }
}

proof fn lemma_normalize_bits_32(x: u64)
    by (bit_vector)
    requires
        x <= 0xffff_ffff,
    ensures
        ({
            let amount = (31i64 as u64) & 31;
            let filled = if x & 0x8000_0000 != 0 {
                (x >> amount) | (0xffff_ffffu64 & !(0xffff_ffffu64 >> amount))
            } else {
                x >> amount
            };
            let flipped = x ^ (filled >> ((1i64 as u64) & 31));
            &&& x < 0x8000_0000 ==> flipped == x
            &&& x >= 0x8000_0000 ==> flipped == 0x1_7fff_ffff - x
        }),
{
}

proof fn lemma_normalize_bits_64(x: u64)
    by (bit_vector)
    ensures
        ({
            let amount = (63i64 as u64) & 63;
            let filled = if x & 0x8000_0000_0000_0000 != 0 {
                (x >> amount) | (0xffff_ffff_ffff_ffffu64 & !(0xffff_ffff_ffff_ffffu64 >> amount))
            } else {
                x >> amount
            };
            let flipped = x ^ (filled >> ((1i64 as u64) & 63));
            &&& x < 0x8000_0000_0000_0000 ==> flipped == x
            &&& x >= 0x8000_0000_0000_0000 ==> flipped == 0x7fff_ffff_ffff_ffff - (x - 0x8000_0000_0000_0000)
                + 0x8000_0000_0000_0000
        }),
{
}

/// What the code of `normalize_float` does: the integer it computes, read
/// as a signed number, is the float's place in the total order. The float
/// and the values computed before are untouched.
pub proof fn lemma_normalize_effect(m: Machine, float: Value, ty: IrType, next: nat)
    requires
        ty.is_float(),
        fits(m.regs[float], ty),
        (float.0 as nat) < next,
        next + 4 < u32::MAX,
    ensures
        ({
            let after = m.run(normalize_code(float, ty, next));
            &&& signed(after.regs[value_at(next + 3)], ty) == total_order_key(m.regs[float], ty)
            &&& fits(after.regs[value_at(next + 3)], ty)
            &&& after.mem == m.mem
            &&& forall|v: Value| (v.0 as nat) < next ==> after.regs[v] == #[trigger] m.regs[v]
        }),
{
    let code = normalize_code(float, ty, next);
    let c0 = Seq::<Inst>::empty();
    let c1 = c0.push(code[0]);
    let c2 = c1.push(code[1]);
    let c3 = c2.push(code[2]);
    assert(code =~= c3.push(code[3]));
    lemma_run_push(m, c0, code[0]);
    lemma_run_push(m, c1, code[1]);
    lemma_run_push(m, c2, code[2]);
    lemma_run_push(m, c3, code[3]);
    let x = m.regs[float];
    if ty is F32 {
        lemma_normalize_bits_32(x);
    } else {
        lemma_normalize_bits_64(x);
    }
    let m1 = m.step(code[0]);
    let m2 = m1.step(code[1]);
    let m3 = m2.step(code[2]);
    assert(m.run(c0) == m);
    assert(m1.regs[value_at(next)] == x);
    assert(m3.regs[value_at(next)] == x);
}

proof fn lemma_scaled_same_exponent(range: int, f1: int, f2: int, q: int)
    by (nonlinear_arith)
    requires
        f1 <= f2,
        q > 0,
    ensures
        (range + f1) * q <= (range + f2) * q,
{
}

proof fn lemma_scaled_next_exponent(range: int, f1: int, q1: int, f2: int, q2: int)
    by (nonlinear_arith)
    requires
        0 <= f1 < range,
        0 <= f2,
        0 < q1,
        2 * q1 <= q2,
    ensures
        (range + f1) * q1 <= (range + f2) * q2,
{
    assert((range + f1) * q1 <= (2 * range) * q1);
    assert((2 * range) * q1 == range * (2 * q1));
    assert(range * (2 * q1) <= range * q2);
    assert(range * q2 <= (range + f2) * q2);
}

proof fn lemma_scaled_above_subnormal(range: int, f1: int, f2: int, q2: int)
    by (nonlinear_arith)
    requires
        0 <= f1 < range,
        0 <= f2,
        1 <= q2,
    ensures
        f1 <= (range + f2) * q2,
{
    assert(range * 1 <= (range + f2) * q2);
}

/// A larger magnitude never stands for a smaller size.
proof fn lemma_scaled_monotone(e1: int, f1: int, e2: int, f2: int, range: int)
    requires
        0 <= e1,
        0 <= f1 < range,
        0 <= e2,
        0 <= f2 < range,
        e1 < e2 || (e1 == e2 && f1 <= f2),
    ensures
        scaled(e1, f1, range) <= scaled(e2, f2, range),
        0 <= scaled(e1, f1, range),
{
    if e1 > 0 {
        lemma_pow2_pos((e1 - 1) as nat);
        lemma_scaled_above_subnormal(range, 0, f1, pow2((e1 - 1) as nat) as int);
    }
    if e1 == e2 {
        if e1 > 0 {
            lemma_scaled_same_exponent(range, f1, f2, pow2((e1 - 1) as nat) as int);
        }
    } else if e1 == 0 {
        lemma_pow2_pos((e2 - 1) as nat);
        lemma_scaled_above_subnormal(range, f1, f2, pow2((e2 - 1) as nat) as int);
    } else {
        lemma_pow2_unfold(e1 as nat);
        if e1 < e2 - 1 {
            lemma_pow2_strictly_increases(e1 as nat, (e2 - 1) as nat);
        }
        lemma_scaled_next_exponent(
            range,
            f1,
            pow2((e1 - 1) as nat) as int,
            f2,
            pow2((e2 - 1) as nat) as int,
        );
    }
}

/// Of two floats, the one that stands for the smaller number is the first
/// in the total order: for any two floats `a` and `b` that are numbers,
/// where `a` is less than `b`, the key of `a` is less than the key of `b`.
pub proof fn lemma_float_order(a: u64, b: u64, ty: IrType)
    requires
        ty.is_float(),
        fits(a, ty),
        fits(b, ty),
        is_finite(a, ty),
        is_finite(b, ty),
        scaled_value(a, ty) < scaled_value(b, ty),
    ensures
        total_order_key(a, ty) < total_order_key(b, ty),
{
    let range = fraction_range(ty);
    let ma = magnitude(a, ty);
    let mb = magnitude(b, ty);
    let (ea, fa) = (exponent(a, ty), fraction(a, ty));
    let (eb, fb) = (exponent(b, ty), fraction(b, ty));
    assert(ma == ea * range + fa && 0 <= fa < range && 0 <= ea);
    assert(mb == eb * range + fb && 0 <= fb < range && 0 <= eb);
    lemma_scaled_monotone(ea, fa, ea, fa, range);
    lemma_scaled_monotone(eb, fb, eb, fb, range);
    if is_negative(a, ty) == is_negative(b, ty) {
        if is_negative(a, ty) {
            // both below zero: the larger magnitude is the smaller number
            if ma <= mb {
                assert(ea < eb || (ea == eb && fa <= fb));
                lemma_scaled_monotone(ea, fa, eb, fb, range);
            }
        } else {
            if mb <= ma {
                assert(eb < ea || (eb == ea && fb <= fa));
                lemma_scaled_monotone(eb, fb, ea, fa, range);
            }
        }
    }
}

/// The emitted code keeps the order of numbers: where the float `a` is a
/// smaller number than the float `b`, the integer computed for `a` is
/// smaller, as a signed number, than the one computed for `b`.
pub proof fn lemma_normalized_order(
    with_a: Machine,
    a: Value,
    next_a: nat,
    with_b: Machine,
    b: Value,
    next_b: nat,
    ty: IrType,
)
    requires
        ty.is_float(),
        fits(with_a.regs[a], ty),
        fits(with_b.regs[b], ty),
        (a.0 as nat) < next_a,
        (b.0 as nat) < next_b,
        next_a + 4 < u32::MAX,
        next_b + 4 < u32::MAX,
        is_finite(with_a.regs[a], ty),
        is_finite(with_b.regs[b], ty),
        scaled_value(with_a.regs[a], ty) < scaled_value(with_b.regs[b], ty),
    ensures
        signed(with_a.run(normalize_code(a, ty, next_a)).regs[value_at(next_a + 3)], ty) < signed(
            with_b.run(normalize_code(b, ty, next_b)).regs[value_at(next_b + 3)],
            ty,
        ),
{
    lemma_normalize_effect(with_a, a, ty, next_a);
    lemma_normalize_effect(with_b, b, ty, next_b);
    lemma_float_order(with_a.regs[a], with_b.regs[b], ty);
}

/// No two floats share a place in the total order: floats with different
/// bits have different keys.
pub proof fn lemma_keys_differ(a: u64, b: u64, ty: IrType)
    requires
        ty.is_float(),
        fits(a, ty),
        fits(b, ty),
        a != b,
    ensures
        total_order_key(a, ty) != total_order_key(b, ty),
{
}

/// Negative zero comes before positive zero.
pub proof fn lemma_signed_zero_order(ty: IrType)
    requires
        ty.is_float(),
    ensures
        total_order_key(sign_bit(ty), ty) < total_order_key(0, ty),
        scaled_value(sign_bit(ty), ty) == scaled_value(0, ty),
{
}

/// Floats of one sign are ordered as their bits are: with the sign bit
/// clear in the order of their bits, with the sign bit set in the reverse
/// order. This holds of NaNs as of any other floats.
pub proof fn lemma_same_sign_order(a: u64, b: u64, ty: IrType)
    requires
        ty.is_float(),
        fits(a, ty),
        fits(b, ty),
        is_negative(a, ty) == is_negative(b, ty),
        a < b,
    ensures
        !is_negative(a, ty) ==> total_order_key(a, ty) < total_order_key(b, ty),
        is_negative(a, ty) ==> total_order_key(b, ty) < total_order_key(a, ty),
{
}

/// Every NaN stands at one end of the order: one with its sign bit clear
/// after every float that is no NaN, one with its sign bit set before every
/// such float.
pub proof fn lemma_nan_order(nan: u64, x: u64, ty: IrType)
    requires
        ty.is_float(),
        fits(nan, ty),
        fits(x, ty),
        is_nan(nan, ty),
        !is_nan(x, ty),
    ensures
        !is_negative(nan, ty) ==> total_order_key(x, ty) < total_order_key(nan, ty),
        is_negative(nan, ty) ==> total_order_key(nan, ty) < total_order_key(x, ty),
{
    let range = fraction_range(ty);
    let mn = magnitude(nan, ty);
    let mx = magnitude(x, ty);
    assert(mn == exponent(nan, ty) * range + fraction(nan, ty));
    assert(mx == exponent(x, ty) * range + fraction(x, ty) && 0 <= fraction(x, ty) < range);
    assert(mx < sign_bit(ty));
    assert(exponent(x, ty) <= top_exponent(ty));
}

} // verus!
