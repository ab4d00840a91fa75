//! Subtraction.
use vstd::prelude::*;
use crate::token::OprType;
use crate::value::Value;
use crate::value::val_v_wf;
use crate::value::algebra::spec_num_binop;
use crate::value::utils::OprError;
use crate::value::utils::num_binop;
use crate::value::utils::opr_result_view;

verus! {

/// `x - y`: the right-hand side is cast to `x`'s kind and the difference
/// wraps into that kind; an `ubig` difference below zero overflows.
pub fn sub(x: &Value, y: Value) -> (r: Result<Value, OprError>)
    requires
        val_v_wf(x@),
        val_v_wf(y@),
    ensures
        opr_result_view(r) == spec_num_binop(OprType::Minus, x@, y@),
        r matches Ok(v) ==> val_v_wf(v@),
{
    num_binop(&OprType::Minus, x, &y)
}

} // verus!
