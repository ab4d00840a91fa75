//! Casting values between types.
use vstd::prelude::*;
use vstd::pervasive::unreached;
use crate::typeobj::Type;
use crate::value::Value;
use crate::value::ValueV;
use crate::value::val_v_wf;
use crate::value::algebra::kind_of_name;
use crate::value::algebra::spec_typecast;
use crate::value::algebra::spec_typecast_to;
use crate::value::algebra::type_name_of;
use crate::value::big::big_dup;
use crate::value::big::big_from_i128;
use crate::value::big::big_int_value;
use crate::value::big::big_lt;
use crate::value::big::big_parse;
use crate::value::kinds::NumKind;
use crate::value::kinds::in_kind_range;
use crate::value::kinds::is_fixed_kind;
use crate::value::kinds::lemma_wrap_kind;
use crate::value::kinds::sm_val;
use crate::value::numstr::ParsedInt;
use crate::value::numstr::parse_dec_str;
use crate::value::numstr::parse_int_str;
use crate::value::utils::OprError;
use crate::value::utils::big_of_sm;
use crate::value::utils::fixed_int_parts;
use crate::value::utils::make_fixed;
use crate::value::utils::opr_result_view;
use crate::value::utils::wrap_fixed_from_big;
use crate::value::utils::wrap_fixed_sm;

verus! {

/// The name a type descriptor goes by.
pub fn type_name_string(t: &Type) -> (n: &String)
    ensures
        n@ == type_name_of(t@),
{
    match t {
        Type::Instance { name, .. } => name,
        Type::Definition { name } => name,
    }
}

/// The numeric kind a type name denotes, if any.
pub fn kind_of_name_exec(n: &String) -> (r: Option<NumKind>)
    ensures
        r == kind_of_name(n@),
{
    if *n == "i8".to_owned() {
        Some(NumKind::I8)
    } else if *n == "i16".to_owned() {
        Some(NumKind::I16)
    } else if *n == "i32".to_owned() {
        Some(NumKind::I32)
    } else if *n == "i64".to_owned() {
        Some(NumKind::I64)
    } else if *n == "i128".to_owned() {
        Some(NumKind::I128)
    } else if *n == "isize".to_owned() {
        Some(NumKind::Isize)
    } else if *n == "ibig".to_owned() {
        Some(NumKind::Ibig)
    } else if *n == "u8".to_owned() {
        Some(NumKind::U8)
    } else if *n == "u16".to_owned() {
        Some(NumKind::U16)
    } else if *n == "u32".to_owned() {
        Some(NumKind::U32)
    } else if *n == "u64".to_owned() {
        Some(NumKind::U64)
    } else if *n == "u128".to_owned() {
        Some(NumKind::U128)
    } else if *n == "usize".to_owned() {
        Some(NumKind::Usize)
    } else if *n == "ubig".to_owned() {
        Some(NumKind::Ubig)
    } else {
        None
    }
}

/// Whether a sign-and-magnitude value is representable in the kind.
pub fn fits_kind(k: NumKind, neg: bool, mag: u128) -> (r: bool)
    ensures
        r == in_kind_range(k, sm_val(neg, mag as int)),
{
    let nonneg: bool = !neg || mag == 0;
    match k {
        NumKind::I8 => {
            if neg {
                mag <= 0x80
            } else {
                mag <= 0x7f
            }
        },
        NumKind::I16 => {
            if neg {
                mag <= 0x8000
            } else {
                mag <= 0x7fff
            }
        },
        NumKind::I32 => {
            if neg {
                mag <= 0x8000_0000
            } else {
                mag <= 0x7fff_ffff
            }
        },
        NumKind::I64 => {
            if neg {
                mag <= 0x8000_0000_0000_0000
            } else {
                mag <= 0x7fff_ffff_ffff_ffff
            }
        },
        NumKind::I128 => {
            if neg {
                mag <= (i128::MAX as u128) + 1
            } else {
                mag <= i128::MAX as u128
            }
        },
        NumKind::Isize => {
            if neg {
                mag <= (isize::MAX as u128) + 1
            } else {
                mag <= isize::MAX as u128
            }
        },
        NumKind::U8 => nonneg && mag <= 0xff,
        NumKind::U16 => nonneg && mag <= 0xffff,
        NumKind::U32 => nonneg && mag <= 0xffff_ffff,
        NumKind::U64 => nonneg && mag <= 0xffff_ffff_ffff_ffff,
        NumKind::U128 => nonneg,
        NumKind::Usize => nonneg && mag <= usize::MAX as u128,
        NumKind::Ibig => true,
        NumKind::Ubig => nonneg,
    }
}

/// An integer of the given kind standing for an in-range value.
pub fn make_int_value(k: NumKind, neg: bool, mag: u128) -> (r: Value)
    requires
        in_kind_range(k, sm_val(neg, mag as int)),
    ensures
        r@ == (ValueV::IntV { kind: k, v: sm_val(neg, mag as int) }),
{
    match k {
        NumKind::Ibig => Value::Ibig(big_of_sm(neg, mag)),
        NumKind::Ubig => Value::Ubig(big_of_sm(neg, mag)),
        _ => make_fixed(k, neg, mag),
    }
}

/// Casts a string's digits into a numeric kind.
fn cast_str_to_kind(s: &String, t: &Type, k: NumKind) -> (r: Result<Value, OprError>)
    requires
        kind_of_name(type_name_of(t@)) == Some(k),
    ensures
        opr_result_view(r) == spec_typecast_to(ValueV::StrV { s: s@ }, t@),
        r matches Ok(v) ==> val_v_wf(v@),
{
    match parse_dec_str(s.as_str()) {
        ParsedInt::Malformed => Err(OprError::TypecastError(t.duplicate())),
        ParsedInt::Within { neg, mag } => {
            if fits_kind(k, neg, mag) {
                Ok(make_int_value(k, neg, mag))
            } else {
                Err(OprError::TypecastError(t.duplicate()))
            }
        },
        ParsedInt::TooBig { neg } => {
            let wanted: bool = match k {
                NumKind::Ibig => true,
                NumKind::Ubig => !neg,
                _ => false,
            };
            if wanted {
                match big_parse(s.as_str()) {
                    Some(b) => {
                        if neg {
                            Ok(Value::Ibig(b))
                        } else {
                            match k {
                                NumKind::Ibig => Ok(Value::Ibig(b)),
                                NumKind::Ubig => Ok(Value::Ubig(b)),
                                _ => unreached(),
                            }
                        }
                    },
                    None => unreached(),
                }
            } else {
                Err(OprError::TypecastError(t.duplicate()))
            }
        },
    }
}

/// Casts a value to the numeric kind `k`, which `t` names.
fn cast_to_kind(x: &Value, t: &Type, k: NumKind) -> (r: Result<Value, OprError>)
    requires
        val_v_wf(x@),
        kind_of_name(type_name_of(t@)) == Some(k),
    ensures
        opr_result_view(r) == spec_typecast_to(x@, t@),
        r matches Ok(v) ==> val_v_wf(v@),
{
    match x {
        Value::Ibig(b) | Value::Ubig(b) => {
            match k {
                NumKind::Ibig => Ok(Value::Ibig(big_dup(b))),
                NumKind::Ubig => {
                    let zero = big_from_i128(0);
                    if big_lt(b, &zero) {
                        Err(OprError::TypecastError(t.duplicate()))
                    } else {
                        Ok(Value::Ubig(big_dup(b)))
                    }
                },
                _ => Ok(wrap_fixed_from_big(b, k)),
            }
        },
        Value::Bool(bv) => {
            let mag: u128 = if *bv {
                1
            } else {
                0
            };
            proof {
                if is_fixed_kind(k) {
                    lemma_wrap_kind(k, sm_val(false, mag as int));
                }
            }
            Ok(make_int_value(k, false, mag))
        },
        Value::Str(s) => cast_str_to_kind(s, t, k),
        _ => match fixed_int_parts(x) {
            Some((_, neg, mag)) => {
                match k {
                    NumKind::Ibig => Ok(Value::Ibig(big_of_sm(neg, mag))),
                    NumKind::Ubig => {
                        if neg && mag > 0 {
                            Err(OprError::TypecastError(t.duplicate()))
                        } else {
                            Ok(Value::Ubig(big_of_sm(neg, mag)))
                        }
                    },
                    _ => Ok(wrap_fixed_sm(k, neg, mag)),
                }
            },
            None => Err(OprError::TypecastError(t.duplicate())),
        },
    }
}

/// Casts a value to the type `t`.
pub fn typecast_to(x: &Value, t: &Type) -> (r: Result<Value, OprError>)
    requires
        val_v_wf(x@),
    ensures
        opr_result_view(r) == spec_typecast_to(x@, t@),
        r matches Ok(v) ==> val_v_wf(v@),
{
    let name = type_name_string(t);
    match kind_of_name_exec(name) {
        Some(k) => cast_to_kind(x, t, k),
        None => {
            if *name == "str".to_owned() {
                match x.to_display_string() {
                    Some(s) => Ok(Value::Str(s)),
                    None => Err(OprError::TypecastError(t.duplicate())),
                }
            } else if *name == "bool".to_owned() {
                match x {
                    Value::Str(s) => Ok(Value::Bool(*s == "true".to_owned())),
                    _ => Err(OprError::TypecastError(t.duplicate())),
                }
            } else {
                Err(OprError::TypecastError(t.duplicate()))
            }
        },
    }
}

/// Casting demands a first-class type on the right-hand side.
pub fn typecast(x: &Value, to: &Value) -> (r: Result<Value, OprError>)
    requires
        val_v_wf(x@),
    ensures
        opr_result_view(r) == spec_typecast(x@, to@),
        r matches Ok(v) ==> val_v_wf(v@),
{
    match to {
        Value::Type(t) => typecast_to(x, t),
        _ => Err(OprError::NoImplForOpr),
    }
}

} // verus!
