//! Multiplication, including string repetition.
use vstd::prelude::*;
use vstd::string::StringExecFns;
use crate::token::OprType;
use crate::typeobj::Type;
use crate::value::Value;
use crate::value::ValueV;
use crate::value::val_v_wf;
use crate::value::algebra::repeat_seq;
use crate::value::algebra::spec_mul;
use crate::value::algebra::spec_str_repeat;
use crate::value::big::big_from_i128;
use crate::value::big::big_lt;
use crate::value::big::big_to_u128;
use crate::value::utils::OprError;
use crate::value::utils::fixed_int_parts;
use crate::value::utils::num_binop;
use crate::value::utils::opr_result_view;

verus! {

/// Repeats `s` the given number of times.
fn repeat_string(s: &String, count: usize) -> (r: String)
    requires
        count * s@.len() <= usize::MAX,
    ensures
        r@ == repeat_seq(s@, count as nat),
{
    let mut out = String::new();
    let mut i: usize = 0;
    while i < count
        invariant
            0 <= i <= count,
            count * s@.len() <= usize::MAX,
            out@ == repeat_seq(s@, i as nat),
            out@.len() == i * s@.len(),
        decreases count - i,
    {
        proof {
            assert((i + 1) * s@.len() == i * s@.len() + s@.len()) by (nonlinear_arith);
            assert((i + 1) * s@.len() <= count * s@.len()) by (nonlinear_arith)
                requires
                    i + 1 <= count,
                    s@.len() >= 0,
            ;
        }
        out.append(s.as_str());
        i += 1;
    }
    out
}

/// A string repeated by an integer count. A negative count is a cast error
/// towards `str`; a count or result beyond the address space is the host's
/// capacity panic, reported as `Overflow`.
fn mul_str(x: &String, y: &Value) -> (r: Result<Value, OprError>)
    requires
        val_v_wf(y@),
    ensures
        opr_result_view(r) == spec_str_repeat(x@, y@),
        r matches Ok(v) ==> val_v_wf(v@),
{
    let count: u128 = match y {
        Value::Ibig(b) | Value::Ubig(b) => {
            let zero = big_from_i128(0);
            if big_lt(b, &zero) {
                return Err(OprError::TypecastError(Type::from_str("str")));
            }
            match big_to_u128(b) {
                Some(u) => u,
                None => {
                    proof {
                        assert(y@->IntV_v > u128::MAX);
                    }
                    return Err(OprError::Overflow);
                },
            }
        },
        _ => match fixed_int_parts(y) {
            Some((_, neg, mag)) => {
                if neg && mag > 0 {
                    return Err(OprError::TypecastError(Type::from_str("str")));
                }
                mag
            },
            None => {
                return Err(OprError::NoImplForOpr);
            },
        },
    };
    if count > usize::MAX as u128 {
        return Err(OprError::Overflow);
    }
    let n = count as usize;
    match n.checked_mul(x.as_str().unicode_len()) {
        Some(_total) => Ok(Value::Str(repeat_string(x, n))),
        None => Err(OprError::Overflow),
    }
}

/// `x * y`: a string on either side repeats by the other operand;
/// otherwise the right-hand side is cast to `x`'s kind and the product
/// wraps into that kind.
pub fn mul(x: &Value, y: Value) -> (r: Result<Value, OprError>)
    requires
        val_v_wf(x@),
        val_v_wf(y@),
    ensures
        opr_result_view(r) == spec_mul(x@, y@),
        r matches Ok(v) ==> val_v_wf(v@),
{
    if let Value::Str(s) = x {
        return mul_str(s, &y);
    }
    if let Value::Str(s) = &y {
        return mul_str(s, x);
    }
    num_binop(&OprType::AstMult, x, &y)
}

} // verus!
