//! Exponentiation.
use vstd::prelude::*;
use crate::token::OprType;
use crate::value::Value;
use crate::value::val_v_wf;
use crate::value::algebra::spec_num_binop;
use crate::value::utils::OprError;
use crate::value::utils::num_binop;
use crate::value::utils::opr_result_view;

verus! {

/// `x ^ y`: the exponent is cast to `x`'s kind; a negative exponent has no
/// implementation and one beyond 64 bits overflows.
pub fn pow(x: &Value, y: Value) -> (r: Result<Value, OprError>)
    requires
        val_v_wf(x@),
        val_v_wf(y@),
    ensures
        opr_result_view(r) == spec_num_binop(OprType::Pow, x@, y@),
        r matches Ok(v) ==> val_v_wf(v@),
{
    num_binop(&OprType::Pow, x, &y)
}

} // verus!
