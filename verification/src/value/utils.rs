//! Shared machinery of the operator algebra: the error surface, taking
//! integer values apart, packing and truncating them into kinds, and the
//! arithmetic on two operands of one kind.
use vstd::prelude::*;
use vstd::arithmetic::div_mod::lemma_mod_bound;
use vstd::arithmetic::div_mod::lemma_small_mod;
use vstd::arithmetic::power::pow;
use vstd::pervasive::unreached;
use num::BigInt;
use crate::token::OprType;
use crate::typeobj::Type;
use crate::typeobj::type_view;
use crate::value::Value;
use crate::value::ValueV;
use crate::value::algebra::OprErrorV;
use crate::value::algebra::spec_int_arith;
use crate::value::big::big_add;
use crate::value::big::big_div;
use crate::value::big::big_eq;
use crate::value::big::big_from_i128;
use crate::value::big::big_from_u128;
use crate::value::big::big_int_value;
use crate::value::big::big_lt;
use crate::value::big::big_mod_floor;
use crate::value::big::big_mul;
use crate::value::big::big_rem;
use crate::value::big::big_sub;
use crate::value::big::big_to_u128;
use crate::value::kinds::NumKind;
use crate::value::kinds::in_kind_range;
use crate::value::kinds::is_big_kind;
use crate::value::kinds::is_fixed_kind;
use crate::value::kinds::is_signed_kind;
use crate::value::kinds::kind_mod;
use crate::value::kinds::lemma_wrap_kind;
use crate::value::kinds::sm_val;
use crate::value::kinds::trunc_div;
use crate::value::kinds::trunc_rem;
use crate::value::kinds::wrap_kind;

verus! {

/// The failure surface of the operator algebra.
#[derive(Debug)]
pub enum OprError {
    NoImplForOpr,
    TypecastError(Type),
    ZeroDivision,
    Overflow,
}

/// The image of an operator error.
pub open spec fn opr_error_view(e: OprError) -> OprErrorV {
    match e {
        OprError::NoImplForOpr => OprErrorV::NoImplForOprV,
        OprError::TypecastError(t) => OprErrorV::TypecastErrorV { t: type_view(t) },
        OprError::ZeroDivision => OprErrorV::ZeroDivisionV,
        OprError::Overflow => OprErrorV::OverflowV,
    }
}

impl View for OprError {
    type V = OprErrorV;

    open spec fn view(&self) -> OprErrorV {
        opr_error_view(*self)
    }
}

/// The image of an operator result.
pub open spec fn opr_result_view(r: Result<Value, OprError>) -> Result<ValueV, OprErrorV> {
    match r {
        Ok(v) => Ok(v@),
        Err(e) => Err(e@),
    }
}

/// The kind and sign-and-magnitude value of a fixed-kind integer value.
pub fn fixed_int_parts(x: &Value) -> (r: Option<(NumKind, bool, u128)>)
    ensures
        match x@ {
            ValueV::IntV { kind, v } => {
                if is_fixed_kind(kind) {
                    r matches Some((k, neg, mag)) && k == kind && sm_val(neg, mag as int) == v
                } else {
                    r is None
                }
            },
            _ => r is None,
        },
{
    match x {
        Value::I8(v) => {
            let w = *v as i128;
            Some((NumKind::I8, w < 0, if w < 0 { (-w) as u128 } else { w as u128 }))
        },
        Value::I16(v) => {
            let w = *v as i128;
            Some((NumKind::I16, w < 0, if w < 0 { (-w) as u128 } else { w as u128 }))
        },
        Value::I32(v) => {
            let w = *v as i128;
            Some((NumKind::I32, w < 0, if w < 0 { (-w) as u128 } else { w as u128 }))
        },
        Value::I64(v) => {
            let w = *v as i128;
            Some((NumKind::I64, w < 0, if w < 0 { (-w) as u128 } else { w as u128 }))
        },
        Value::Isize(v) => {
            let w = *v as i128;
            Some((NumKind::Isize, w < 0, if w < 0 { (-w) as u128 } else { w as u128 }))
        },
        Value::I128(v) => {
            let w = *v;
            if w == i128::MIN {
                Some((NumKind::I128, true, (i128::MAX as u128) + 1))
            } else if w < 0 {
                Some((NumKind::I128, true, (-w) as u128))
            } else {
                Some((NumKind::I128, false, w as u128))
            }
        },
        Value::U8(v) => Some((NumKind::U8, false, *v as u128)),
        Value::U16(v) => Some((NumKind::U16, false, *v as u128)),
        Value::U32(v) => Some((NumKind::U32, false, *v as u128)),
        Value::U64(v) => Some((NumKind::U64, false, *v as u128)),
        Value::Usize(v) => Some((NumKind::Usize, false, *v as u128)),
        Value::U128(v) => Some((NumKind::U128, false, *v)),
        _ => None,
    }
}

/// Packs an in-range value into its fixed kind.
pub fn make_fixed(k: NumKind, neg: bool, mag: u128) -> (r: Value)
    requires
        is_fixed_kind(k),
        in_kind_range(k, sm_val(neg, mag as int)),
    ensures
        r@ == (ValueV::IntV { kind: k, v: sm_val(neg, mag as int) }),
{
    match k {
        NumKind::I8 => Value::I8(
            if neg {
                (-(mag as i128)) as i8
            } else {
                mag as i8
            },
        ),
        NumKind::I16 => Value::I16(
            if neg {
                (-(mag as i128)) as i16
            } else {
                mag as i16
            },
        ),
        NumKind::I32 => Value::I32(
            if neg {
                (-(mag as i128)) as i32
            } else {
                mag as i32
            },
        ),
        NumKind::I64 => Value::I64(
            if neg {
                (-(mag as i128)) as i64
            } else {
                mag as i64
            },
        ),
        NumKind::Isize => Value::Isize(
            if neg {
                (-(mag as i128)) as isize
            } else {
                mag as isize
            },
        ),
        NumKind::I128 => Value::I128(
            if neg {
                if mag > i128::MAX as u128 {
                    i128::MIN
                } else {
                    -(mag as i128)
                }
            } else {
                mag as i128
            },
        ),
        NumKind::U8 => Value::U8(mag as u8),
        NumKind::U16 => Value::U16(mag as u16),
        NumKind::U32 => Value::U32(mag as u32),
        NumKind::U64 => Value::U64(mag as u64),
        NumKind::Usize => Value::Usize(mag as usize),
        NumKind::U128 => Value::U128(mag),
        NumKind::Ibig | NumKind::Ubig => unreached(),
    }
}

/// A `BigInt` standing for a sign-and-magnitude value.
pub fn big_of_sm(neg: bool, mag: u128) -> (r: BigInt)
    ensures
        big_int_value(r) == sm_val(neg, mag as int),
{
    let b = big_from_u128(mag);
    if neg {
        let zero = big_from_i128(0);
        big_sub(&zero, &b)
    } else {
        b
    }
}

/// `2^width` of a fixed kind, as a `BigInt`.
fn big_kind_mod(k: NumKind) -> (m: BigInt)
    requires
        is_fixed_kind(k),
    ensures
        big_int_value(m) == kind_mod(k),
{
    match k {
        NumKind::I8 | NumKind::U8 => big_from_u128(0x100),
        NumKind::I16 | NumKind::U16 => big_from_u128(0x1_0000),
        NumKind::I32 | NumKind::U32 => big_from_u128(0x1_0000_0000),
        NumKind::I64 | NumKind::U64 => big_from_u128(0x1_0000_0000_0000_0000),
        NumKind::Isize | NumKind::Usize => big_from_u128((usize::MAX as u128) + 1),
        NumKind::I128 | NumKind::U128 => {
            let h = big_from_u128(0x1_0000_0000_0000_0000);
            let m = big_mul(&h, &h);
            proof {
                assert(0x1_0000_0000_0000_0000int * 0x1_0000_0000_0000_0000int == u128::MAX as int
                    + 1) by (nonlinear_arith);
            }
            m
        },
        NumKind::Ibig | NumKind::Ubig => unreached(),
    }
}

/// Half of `2^width` of a signed fixed kind.
fn kind_half_u128(k: NumKind) -> (h: u128)
    requires
        is_fixed_kind(k),
        is_signed_kind(k),
    ensures
        h as int == kind_mod(k) / 2,
{
    match k {
        NumKind::I8 => 0x80,
        NumKind::I16 => 0x8000,
        NumKind::I32 => 0x8000_0000,
        NumKind::I64 => 0x8000_0000_0000_0000,
        NumKind::Isize => (isize::MAX as u128) + 1,
        NumKind::I128 => 0x8000_0000_0000_0000_0000_0000_0000_0000,
        _ => unreached(),
    }
}

/// Truncates the integer a `BigInt` stands for into a fixed kind,
/// two's-complement style.
pub fn wrap_fixed_from_big(b: &BigInt, k: NumKind) -> (r: Value)
    requires
        is_fixed_kind(k),
    ensures
        r@ == (ValueV::IntV { kind: k, v: wrap_kind(k, big_int_value(*b)) }),
{
    let m = big_kind_mod(k);
    proof {
        lemma_mod_bound(big_int_value(*b), kind_mod(k));
    }
    let r0b = big_mod_floor(b, &m);
    let r0 = match big_to_u128(&r0b) {
        Some(x) => x,
        None => unreached(),
    };
    if k.signed() {
        let half = kind_half_u128(k);
        if r0 >= half {
            let mag = (u128::MAX - r0) + 1;
            let is_128 = match k {
                NumKind::I128 => true,
                _ => false,
            };
            if is_128 {
                make_fixed(k, true, mag)
            } else {
                let m_small = match big_to_u128(&m) {
                    Some(x) => x,
                    None => unreached(),
                };
                make_fixed(k, true, m_small - r0)
            }
        } else {
            make_fixed(k, false, r0)
        }
    } else {
        make_fixed(k, false, r0)
    }
}

/// Truncates a sign-and-magnitude value into a fixed kind.
pub fn wrap_fixed_sm(k: NumKind, neg: bool, mag: u128) -> (r: Value)
    requires
        is_fixed_kind(k),
    ensures
        r@ == (ValueV::IntV { kind: k, v: wrap_kind(k, sm_val(neg, mag as int)) }),
{
    let b = big_of_sm(neg, mag);
    wrap_fixed_from_big(&b, k)
}

/// Truncation does not care about full turns of the wheel: values equal
/// modulo the kind's width truncate alike.
pub proof fn lemma_wrap_congruent(k: NumKind, u: int, v: int)
    requires
        is_fixed_kind(k),
        u % kind_mod(k) == v % kind_mod(k),
    ensures
        wrap_kind(k, u) == wrap_kind(k, v),
{
}

/// Truncation of a value within one width of range, on either side.
pub proof fn lemma_wrap_span(k: NumKind, v: int)
    requires
        is_fixed_kind(k),
    ensures
        in_kind_range(k, v) ==> wrap_kind(k, v) == v,
        in_kind_range(k, v - kind_mod(k)) ==> wrap_kind(k, v) == v - kind_mod(k),
        in_kind_range(k, v + kind_mod(k)) ==> wrap_kind(k, v) == v + kind_mod(k),
{
    let m = kind_mod(k);
    lemma_wrap_kind(k, v);
    lemma_wrap_kind(k, (v - m));
    lemma_wrap_kind(k, (v + m));
    vstd::arithmetic::div_mod::lemma_mod_add_multiples_vanish(v - m, m);
    vstd::arithmetic::div_mod::lemma_mod_add_multiples_vanish(v, m);
}

/// A product of truncated factors truncates to the product's truncation.
pub proof fn lemma_wrap_mul(k: NumKind, a: int, b: int)
    requires
        is_fixed_kind(k),
    ensures
        wrap_kind(k, wrap_kind(k, a) * b) == wrap_kind(k, a * b),
        wrap_kind(k, a * wrap_kind(k, b)) == wrap_kind(k, a * b),
{
    let m = kind_mod(k);
    let wa = wrap_kind(k, a);
    let wb = wrap_kind(k, b);
    lemma_mod_bound(a, m);
    lemma_mod_bound(b, m);
    let pa = if is_signed_kind(k) && a % m >= m / 2 {
        a / m + 1
    } else {
        a / m
    };
    assert(wa == a - pa * m) by {
        vstd::arithmetic::div_mod::lemma_fundamental_div_mod(a, m);
        assert((a / m + 1) * m == a / m * m + m) by (nonlinear_arith);
    }
    let pb = if is_signed_kind(k) && b % m >= m / 2 {
        b / m + 1
    } else {
        b / m
    };
    assert(wb == b - pb * m) by {
        vstd::arithmetic::div_mod::lemma_fundamental_div_mod(b, m);
        assert((b / m + 1) * m == b / m * m + m) by (nonlinear_arith);
    }
    assert(wa * b == a * b + (-pa * b) * m) by (nonlinear_arith)
        requires
            wa == a - pa * m,
    ;
    assert(a * wb == a * b + (-a * pb) * m) by (nonlinear_arith)
        requires
            wb == b - pb * m,
    ;
    vstd::arithmetic::div_mod::lemma_mod_multiples_vanish(-pa * b, a * b, m);
    vstd::arithmetic::div_mod::lemma_mod_multiples_vanish(-(a * pb), a * b, m);
    lemma_wrap_congruent(k, wa * b, a * b);
    lemma_wrap_congruent(k, a * wb, a * b);
}

/// The sum of two operands of one kind, truncated into that kind.
fn add_same_kind(x: &Value, y: &Value) -> (r: Value)
    requires
        x@ matches ValueV::IntV { kind: k1, v: xv },
        y@ matches ValueV::IntV { kind: k2, v: yv },
        x@->IntV_kind == y@->IntV_kind,
    ensures
        r@ == (ValueV::IntV {
            kind: x@->IntV_kind,
            v: wrap_kind(x@->IntV_kind, x@->IntV_v + y@->IntV_v),
        }),
{
    proof {
        if !is_big_kind(x@->IntV_kind) {
            lemma_wrap_span(x@->IntV_kind, x@->IntV_v + y@->IntV_v);
        }
    }
    match (x, y) {
        (Value::I8(a), Value::I8(b)) => Value::I8(a.wrapping_add(*b)),
        (Value::I16(a), Value::I16(b)) => Value::I16(a.wrapping_add(*b)),
        (Value::I32(a), Value::I32(b)) => Value::I32(a.wrapping_add(*b)),
        (Value::I64(a), Value::I64(b)) => Value::I64(a.wrapping_add(*b)),
        (Value::I128(a), Value::I128(b)) => Value::I128(a.wrapping_add(*b)),
        (Value::Isize(a), Value::Isize(b)) => Value::Isize(a.wrapping_add(*b)),
        (Value::U8(a), Value::U8(b)) => Value::U8(a.wrapping_add(*b)),
        (Value::U16(a), Value::U16(b)) => Value::U16(a.wrapping_add(*b)),
        (Value::U32(a), Value::U32(b)) => Value::U32(a.wrapping_add(*b)),
        (Value::U64(a), Value::U64(b)) => Value::U64(a.wrapping_add(*b)),
        (Value::U128(a), Value::U128(b)) => Value::U128(a.wrapping_add(*b)),
        (Value::Usize(a), Value::Usize(b)) => Value::Usize(a.wrapping_add(*b)),
        (Value::Ibig(a), Value::Ibig(b)) => Value::Ibig(big_add(a, b)),
        (Value::Ubig(a), Value::Ubig(b)) => Value::Ubig(big_add(a, b)),
        _ => unreached(),
    }
}

/// The difference of two operands of one kind, truncated into that kind;
/// the caller rules out an `Ubig` underflow.
fn sub_same_kind(x: &Value, y: &Value) -> (r: Value)
    requires
        x@ matches ValueV::IntV { kind: k1, v: xv },
        y@ matches ValueV::IntV { kind: k2, v: yv },
        x@->IntV_kind == y@->IntV_kind,
        x@->IntV_kind is Ubig ==> x@->IntV_v - y@->IntV_v >= 0,
    ensures
        r@ == (ValueV::IntV {
            kind: x@->IntV_kind,
            v: wrap_kind(x@->IntV_kind, x@->IntV_v - y@->IntV_v),
        }),
{
    proof {
        if !is_big_kind(x@->IntV_kind) {
            lemma_wrap_span(x@->IntV_kind, x@->IntV_v - y@->IntV_v);
        }
    }
    match (x, y) {
        (Value::I8(a), Value::I8(b)) => Value::I8(a.wrapping_sub(*b)),
        (Value::I16(a), Value::I16(b)) => Value::I16(a.wrapping_sub(*b)),
        (Value::I32(a), Value::I32(b)) => Value::I32(a.wrapping_sub(*b)),
        (Value::I64(a), Value::I64(b)) => Value::I64(a.wrapping_sub(*b)),
        (Value::I128(a), Value::I128(b)) => Value::I128(a.wrapping_sub(*b)),
        (Value::Isize(a), Value::Isize(b)) => Value::Isize(a.wrapping_sub(*b)),
        (Value::U8(a), Value::U8(b)) => Value::U8(a.wrapping_sub(*b)),
        (Value::U16(a), Value::U16(b)) => Value::U16(a.wrapping_sub(*b)),
        (Value::U32(a), Value::U32(b)) => Value::U32(a.wrapping_sub(*b)),
        (Value::U64(a), Value::U64(b)) => Value::U64(a.wrapping_sub(*b)),
        (Value::U128(a), Value::U128(b)) => Value::U128(a.wrapping_sub(*b)),
        (Value::Usize(a), Value::Usize(b)) => Value::Usize(a.wrapping_sub(*b)),
        (Value::Ibig(a), Value::Ibig(b)) => Value::Ibig(big_sub(a, b)),
        (Value::Ubig(a), Value::Ubig(b)) => Value::Ubig(big_sub(a, b)),
        _ => unreached(),
    }
}

/// The product of two operands of one kind, truncated into that kind.
pub fn mul_same_kind(x: &Value, y: &Value) -> (r: Value)
    requires
        x@ matches ValueV::IntV { kind: k1, v: xv },
        y@ matches ValueV::IntV { kind: k2, v: yv },
        x@->IntV_kind == y@->IntV_kind,
    ensures
        r@ == (ValueV::IntV {
            kind: x@->IntV_kind,
            v: wrap_kind(x@->IntV_kind, x@->IntV_v * y@->IntV_v),
        }),
{
    match (x, y) {
        (Value::I8(a), Value::I8(b)) => Value::I8(a.wrapping_mul(*b)),
        (Value::I16(a), Value::I16(b)) => Value::I16(a.wrapping_mul(*b)),
        (Value::I32(a), Value::I32(b)) => Value::I32(a.wrapping_mul(*b)),
        (Value::I64(a), Value::I64(b)) => Value::I64(a.wrapping_mul(*b)),
        (Value::I128(a), Value::I128(b)) => Value::I128(a.wrapping_mul(*b)),
        (Value::Isize(a), Value::Isize(b)) => Value::Isize(a.wrapping_mul(*b)),
        (Value::U8(a), Value::U8(b)) => Value::U8(a.wrapping_mul(*b)),
        (Value::U16(a), Value::U16(b)) => Value::U16(a.wrapping_mul(*b)),
        (Value::U32(a), Value::U32(b)) => Value::U32(a.wrapping_mul(*b)),
        (Value::U64(a), Value::U64(b)) => Value::U64(a.wrapping_mul(*b)),
        (Value::U128(a), Value::U128(b)) => Value::U128(a.wrapping_mul(*b)),
        (Value::Usize(a), Value::Usize(b)) => Value::Usize(a.wrapping_mul(*b)),
        (Value::Ibig(a), Value::Ibig(b)) => Value::Ibig(big_mul(a, b)),
        (Value::Ubig(a), Value::Ubig(b)) => {
            let r = big_mul(a, b);
            proof {
                assert(big_int_value(r) == big_int_value(*a) * big_int_value(*b));
            }
            Value::Ubig(r)
        },
        _ => unreached(),
    }
}

/// The quotient of two operands of one kind, truncated toward zero and
/// then into the kind; the caller rules out a zero divisor.
fn div_same_kind(x: &Value, y: &Value) -> (r: Value)
    requires
        x@ matches ValueV::IntV { kind: k1, v: xv },
        y@ matches ValueV::IntV { kind: k2, v: yv },
        x@->IntV_kind == y@->IntV_kind,
        y@->IntV_v != 0,
    ensures
        r@ == (ValueV::IntV {
            kind: x@->IntV_kind,
            v: wrap_kind(x@->IntV_kind, trunc_div(x@->IntV_v, y@->IntV_v)),
        }),
{
    proof {
        let k = x@->IntV_kind;
        if !is_big_kind(k) {
            lemma_wrap_span(k, trunc_div(x@->IntV_v, y@->IntV_v));
            lemma_small_mod((kind_mod(k) / 2) as nat, kind_mod(k) as nat);
        }
    }
    match (x, y) {
        (Value::I8(a), Value::I8(b)) => Value::I8(
            match a.checked_div(*b) {
                Some(q) => q,
                None => i8::MIN,
            },
        ),
        (Value::I16(a), Value::I16(b)) => Value::I16(
            match a.checked_div(*b) {
                Some(q) => q,
                None => i16::MIN,
            },
        ),
        (Value::I32(a), Value::I32(b)) => Value::I32(
            match a.checked_div(*b) {
                Some(q) => q,
                None => i32::MIN,
            },
        ),
        (Value::I64(a), Value::I64(b)) => Value::I64(
            match a.checked_div(*b) {
                Some(q) => q,
                None => i64::MIN,
            },
        ),
        (Value::I128(a), Value::I128(b)) => Value::I128(
            match a.checked_div(*b) {
                Some(q) => q,
                None => i128::MIN,
            },
        ),
        (Value::Isize(a), Value::Isize(b)) => Value::Isize(
            match a.checked_div(*b) {
                Some(q) => q,
                None => isize::MIN,
            },
        ),
        (Value::U8(a), Value::U8(b)) => Value::U8(a / b),
        (Value::U16(a), Value::U16(b)) => Value::U16(a / b),
        (Value::U32(a), Value::U32(b)) => Value::U32(a / b),
        (Value::U64(a), Value::U64(b)) => Value::U64(a / b),
        (Value::U128(a), Value::U128(b)) => Value::U128(a / b),
        (Value::Usize(a), Value::Usize(b)) => Value::Usize(a / b),
        (Value::Ibig(a), Value::Ibig(b)) => Value::Ibig(big_div(a, b)),
        (Value::Ubig(a), Value::Ubig(b)) => Value::Ubig(big_div(a, b)),
        _ => unreached(),
    }
}

/// The remainder of two operands of one kind, with the dividend's sign;
/// the caller rules out a zero divisor.
fn rem_same_kind(x: &Value, y: &Value) -> (r: Value)
    requires
        x@ matches ValueV::IntV { kind: k1, v: xv },
        y@ matches ValueV::IntV { kind: k2, v: yv },
        x@->IntV_kind == y@->IntV_kind,
        y@->IntV_v != 0,
    ensures
        r@ == (ValueV::IntV {
            kind: x@->IntV_kind,
            v: wrap_kind(x@->IntV_kind, trunc_rem(x@->IntV_v, y@->IntV_v)),
        }),
{
    proof {
        let k = x@->IntV_kind;
        if !is_big_kind(k) {
            lemma_wrap_span(k, trunc_rem(x@->IntV_v, y@->IntV_v));
        }
        if y@->IntV_v == -1 && x@->IntV_v < 0 {
            lemma_mod_bound(x@->IntV_v * -1, 1);
        }
    }
    match (x, y) {
        (Value::I8(a), Value::I8(b)) => Value::I8(
            match a.checked_rem(*b) {
                Some(q) => q,
                None => 0,
            },
        ),
        (Value::I16(a), Value::I16(b)) => Value::I16(
            match a.checked_rem(*b) {
                Some(q) => q,
                None => 0,
            },
        ),
        (Value::I32(a), Value::I32(b)) => Value::I32(
            match a.checked_rem(*b) {
                Some(q) => q,
                None => 0,
            },
        ),
        (Value::I64(a), Value::I64(b)) => Value::I64(
            match a.checked_rem(*b) {
                Some(q) => q,
                None => 0,
            },
        ),
        (Value::I128(a), Value::I128(b)) => Value::I128(
            match a.checked_rem(*b) {
                Some(q) => q,
                None => 0,
            },
        ),
        (Value::Isize(a), Value::Isize(b)) => Value::Isize(
            match a.checked_rem(*b) {
                Some(q) => q,
                None => 0,
            },
        ),
        (Value::U8(a), Value::U8(b)) => Value::U8(a % b),
        (Value::U16(a), Value::U16(b)) => Value::U16(a % b),
        (Value::U32(a), Value::U32(b)) => Value::U32(a % b),
        (Value::U64(a), Value::U64(b)) => Value::U64(a % b),
        (Value::U128(a), Value::U128(b)) => Value::U128(a % b),
        (Value::Usize(a), Value::Usize(b)) => Value::Usize(a % b),
        (Value::Ibig(a), Value::Ibig(b)) => Value::Ibig(big_rem(a, b)),
        (Value::Ubig(a), Value::Ubig(b)) => Value::Ubig(big_rem(a, b)),
        _ => unreached(),
    }
}

/// One, packed into the given kind.
fn one_of_kind(k: NumKind) -> (r: Value)
    ensures
        r@ == (ValueV::IntV { kind: k, v: 1 }),
{
    match k {
        NumKind::Ibig => Value::Ibig(big_from_i128(1)),
        NumKind::Ubig => Value::Ubig(big_from_i128(1)),
        _ => {
            proof {
                lemma_wrap_kind(k, 1);
            }
            make_fixed(k, false, 1)
        },
    }
}

/// `x` raised to the exponent, by repeated multiplication within the kind.
fn pow_same_kind(x: &Value, e: u64) -> (r: Value)
    requires
        x@ matches ValueV::IntV { kind: k, v: xv },
    ensures
        r@ == (ValueV::IntV {
            kind: x@->IntV_kind,
            v: wrap_kind(x@->IntV_kind, pow(x@->IntV_v, e as nat)),
        }),
{
    let ghost k = x@->IntV_kind;
    let ghost xv = x@->IntV_v;
    let mut acc = one_of_kind(match x {
        Value::Ibig(_) => NumKind::Ibig,
        Value::Ubig(_) => NumKind::Ubig,
        _ => match fixed_int_parts(x) {
            Some((kk, _, _)) => kk,
            None => unreached(),
        },
    });
    proof {
        vstd::arithmetic::power::lemma_pow0(xv);
        assert(wrap_kind(k, pow(xv, 0)) == wrap_kind(k, 1));
        if !is_big_kind(k) {
            lemma_wrap_kind(k, 1);
        }
    }
    let mut i: u64 = 0;
    while i < e
        invariant
            0 <= i <= e,
            x@ matches ValueV::IntV { kind: kx, v: vx } && kx == k && vx == xv,
            acc@ == (ValueV::IntV { kind: k, v: wrap_kind(k, pow(xv, i as nat)) }),
        decreases e - i,
    {
        let next = mul_same_kind(&acc, x);
        proof {
            let p = pow(xv, i as nat);
            vstd::arithmetic::power::lemma_pow_adds(xv, i as nat, 1nat);
            vstd::arithmetic::power::lemma_pow1(xv);
            assert(pow(xv, (i + 1) as nat) == xv * pow(xv, i as nat)) by (nonlinear_arith)
                requires
                    pow(xv, (i + 1) as nat) == pow(xv, i as nat) * pow(xv, 1nat),
                    pow(xv, 1nat) == xv,
            ;
            if is_big_kind(k) {
                assert(wrap_kind(k, wrap_kind(k, p) * xv) == wrap_kind(k, p * xv));
            } else {
                lemma_wrap_mul(k, p, xv);
            }
            assert(p * xv == xv * p) by (nonlinear_arith);
        }
        acc = next;
        i += 1;
    }
    acc
}

/// Arithmetic on two operands already of one kind.
pub fn int_arith_same_kind(op: &OprType, x: &Value, y: &Value) -> (r: Result<Value, OprError>)
    requires
        x@ matches ValueV::IntV { kind: k1, v: xv },
        y@ matches ValueV::IntV { kind: k2, v: yv },
        x@->IntV_kind == y@->IntV_kind,
        crate::value::val_v_wf(x@),
        crate::value::val_v_wf(y@),
    ensures
        opr_result_view(r) == spec_int_arith(*op, x@->IntV_kind, x@->IntV_v, y@->IntV_v),
        r matches Ok(v) ==> crate::value::val_v_wf(v@),
{
    proof {
        lemma_int_arith_wf(*op, x@->IntV_kind, x@->IntV_v, y@->IntV_v);
    }
    match op {
        OprType::Plus => Ok(add_same_kind(x, y)),
        OprType::Minus => {
            match (x, y) {
                (Value::Ubig(a), Value::Ubig(b)) => {
                    if big_lt(a, b) {
                        Err(OprError::Overflow)
                    } else {
                        Ok(sub_same_kind(x, y))
                    }
                },
                _ => Ok(sub_same_kind(x, y)),
            }
        },
        OprType::AstMult | OprType::DotMult | OprType::CrossMult => Ok(mul_same_kind(x, y)),
        OprType::Div | OprType::FractDiv => {
            if int_is_zero(y) {
                Err(OprError::ZeroDivision)
            } else {
                Ok(div_same_kind(x, y))
            }
        },
        OprType::Modulo => {
            if int_is_zero(y) {
                Err(OprError::ZeroDivision)
            } else {
                Ok(rem_same_kind(x, y))
            }
        },
        OprType::Pow => match exp_of(y) {
            Ok(e) => Ok(pow_same_kind(x, e)),
            Err(e) => Err(e),
        },
        _ => Err(OprError::NoImplForOpr),
    }
}

/// Whether an integer value is zero.
fn int_is_zero(y: &Value) -> (r: bool)
    requires
        y@ is IntV,
    ensures
        r == (y@->IntV_v == 0),
{
    match y {
        Value::Ibig(b) | Value::Ubig(b) => {
            let zero = big_from_i128(0);
            big_eq(b, &zero)
        },
        _ => match fixed_int_parts(y) {
            Some((_, _, mag)) => mag == 0,
            None => unreached(),
        },
    }
}

/// An exponent as a 64-bit count: negative exponents have no
/// implementation and larger ones overflow.
fn exp_of(y: &Value) -> (r: Result<u64, OprError>)
    requires
        y@ is IntV,
    ensures
        match r {
            Ok(e) => 0 <= y@->IntV_v <= u64::MAX && e == y@->IntV_v,
            Err(e) => {
                &&& (e is NoImplForOpr <==> y@->IntV_v < 0)
                &&& (e is Overflow <==> y@->IntV_v > u64::MAX)
                &&& (e is NoImplForOpr || e is Overflow)
            },
        },
{
    match y {
        Value::Ibig(b) | Value::Ubig(b) => {
            let zero = big_from_i128(0);
            if big_lt(b, &zero) {
                Err(OprError::NoImplForOpr)
            } else {
                match big_to_u128(b) {
                    Some(u) => {
                        if u > u64::MAX as u128 {
                            Err(OprError::Overflow)
                        } else {
                            Ok(u as u64)
                        }
                    },
                    None => Err(OprError::Overflow),
                }
            }
        },
        _ => match fixed_int_parts(y) {
            Some((_, neg, mag)) => {
                if neg && mag > 0 {
                    Err(OprError::NoImplForOpr)
                } else if mag > u64::MAX as u128 {
                    Err(OprError::Overflow)
                } else {
                    Ok(mag as u64)
                }
            },
            None => unreached(),
        },
    }
}

/// A nonnegative base keeps its powers nonnegative.
pub proof fn lemma_pow_nonneg(b: int, e: nat)
    requires
        b >= 0,
    ensures
        pow(b, e) >= 0,
    decreases e,
{
    reveal(vstd::arithmetic::power::pow);
    if e > 0 {
        lemma_pow_nonneg(b, (e - 1) as nat);
        assert(b * pow(b, (e - 1) as nat) >= 0) by (nonlinear_arith)
            requires
                b >= 0,
                pow(b, (e - 1) as nat) >= 0,
        ;
    }
}

/// Arithmetic within a kind yields well-formed values.
pub proof fn lemma_int_arith_wf(op: OprType, k: NumKind, x: int, y: int)
    requires
        in_kind_range(k, x),
        in_kind_range(k, y),
    ensures
        spec_int_arith(op, k, x, y) matches Ok(v) ==> crate::value::val_v_wf(v),
{
    if is_fixed_kind(k) {
        lemma_wrap_kind(k, x + y);
        lemma_wrap_kind(k, x - y);
        lemma_wrap_kind(k, x * y);
        if y != 0 {
            lemma_wrap_kind(k, trunc_div(x, y));
            lemma_wrap_kind(k, trunc_rem(x, y));
        }
        if 0 <= y <= u64::MAX {
            lemma_wrap_kind(k, pow(x, y as nat));
        }
    } else if k is Ubig {
        assert(x * y >= 0) by (nonlinear_arith)
            requires
                x >= 0,
                y >= 0,
        ;
        if y > 0 {
            vstd::arithmetic::div_mod::lemma_div_pos_is_pos(x, y);
            lemma_mod_bound(x, y);
        }
        if 0 <= y <= u64::MAX {
            lemma_pow_nonneg(x, y as nat);
        }
    }
}

/// Whether a value is an integer of any kind.
pub fn int_value_check(x: &Value) -> (r: bool)
    ensures
        r == (x@ is IntV),
{
    match x {
        Value::I8(..) | Value::I16(..) | Value::I32(..) | Value::I64(..) | Value::I128(..)
            | Value::Isize(..) | Value::Ibig(..) | Value::U8(..) | Value::U16(..)
            | Value::U32(..) | Value::U64(..) | Value::U128(..) | Value::Usize(..)
            | Value::Ubig(..) => true,
        _ => false,
    }
}

/// Whether a value is numeric (integer or floating point).
pub fn is_numeric_exec(y: &Value) -> (r: bool)
    ensures
        r == crate::value::algebra::is_numeric_v(y@),
{
    match y {
        Value::I8(..) | Value::I16(..) | Value::I32(..) | Value::I64(..) | Value::I128(..)
            | Value::Isize(..) | Value::Ibig(..) | Value::U8(..) | Value::U16(..)
            | Value::U32(..) | Value::U64(..) | Value::U128(..) | Value::Usize(..)
            | Value::Ubig(..) | Value::F16 { .. } | Value::F32 { .. } | Value::F64 { .. } => true,
        _ => false,
    }
}

/// The numeric binary template: the right-hand side is cast to the
/// left-hand side's kind, then the operation is applied within that kind.
pub fn num_binop(op: &OprType, x: &Value, y: &Value) -> (r: Result<Value, OprError>)
    requires
        crate::value::val_v_wf(x@),
        crate::value::val_v_wf(y@),
    ensures
        opr_result_view(r) == crate::value::algebra::spec_num_binop(*op, x@, y@),
        r matches Ok(v) ==> crate::value::val_v_wf(v@),
{
    if !int_value_check(x) {
        return Err(OprError::NoImplForOpr);
    }
    if !is_numeric_exec(y) {
        return Err(OprError::NoImplForOpr);
    }
    let kt = x.get_type_obj();
    proof {
        crate::value::algebra::lemma_kind_name_roundtrip(x@->IntV_kind);
    }
    match crate::value::typecast::typecast_to(y, &kt) {
        Ok(cast) => int_arith_same_kind(op, x, &cast),
        Err(e) => Err(e),
    }
}

} // verus!
