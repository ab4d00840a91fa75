//! Concatenation: the decimal texts of two integers glued into the widened
//! kind, or plain text concatenation around strings.
use vstd::prelude::*;
use vstd::string::StringExecFns;
use crate::value::Value;
use crate::value::ValueV;
use crate::value::val_v_wf;
use crate::value::algebra::concat_kind;
use crate::value::algebra::concat_rank;
use crate::value::algebra::concat_val;
use crate::value::algebra::kind_of_rank;
use crate::value::algebra::spec_concat;
use crate::value::kinds::NumKind;
use crate::value::kinds::sm_val;
use crate::value::numstr::checked_pow10;
use crate::value::numstr::dec_len_u128;
use crate::value::numstr::int_to_dec;
use crate::value::numstr::lemma_pow10_mono;
use crate::value::numstr::ndigits;
use crate::value::numstr::pow10;
use crate::value::utils::OprError;
use crate::value::utils::fixed_int_parts;
use crate::value::utils::opr_result_view;
use crate::value::typecast::fits_kind;
use crate::value::typecast::make_int_value;

verus! {

/// The widening rank of a fixed kind.
fn rank_of(k: NumKind) -> (r: u32)
    ensures
        r as int == concat_rank(k),
{
    match k {
        NumKind::I8 | NumKind::U8 => 1,
        NumKind::I16 | NumKind::U16 => 2,
        NumKind::I32 | NumKind::U32 => 3,
        NumKind::Isize | NumKind::Usize => 4,
        NumKind::I64 | NumKind::U64 => 5,
        NumKind::I128 | NumKind::U128 => 6,
        NumKind::Ibig | NumKind::Ubig => 0,
    }
}

/// The fixed kind of a signedness and rank.
fn kind_of_rank_exec(signed: bool, rank: u32) -> (r: NumKind)
    ensures
        r == kind_of_rank(signed, rank as int),
{
    if signed {
        if rank == 1 {
            NumKind::I8
        } else if rank == 2 {
            NumKind::I16
        } else if rank == 3 {
            NumKind::I32
        } else if rank == 4 {
            NumKind::Isize
        } else if rank == 5 {
            NumKind::I64
        } else {
            NumKind::I128
        }
    } else {
        if rank == 1 {
            NumKind::U8
        } else if rank == 2 {
            NumKind::U16
        } else if rank == 3 {
            NumKind::U32
        } else if rank == 4 {
            NumKind::Usize
        } else if rank == 5 {
            NumKind::U64
        } else {
            NumKind::U128
        }
    }
}

/// Concatenates two fixed-kind integers by their decimal texts.
fn concat_ints(
    k1: NumKind,
    n1: bool,
    m1: u128,
    k2: NumKind,
    n2: bool,
    m2: u128,
) -> (r: Result<Value, OprError>)
    requires
        !crate::value::kinds::is_big_kind(k1),
        !crate::value::kinds::is_big_kind(k2),
    ensures
        opr_result_view(r) == spec_concat(
            ValueV::IntV { kind: k1, v: sm_val(n1, m1 as int) },
            ValueV::IntV { kind: k2, v: sm_val(n2, m2 as int) },
        ),
        r matches Ok(v) ==> val_v_wf(v@),
{
    let r1 = rank_of(k1);
    let r2 = rank_of(k2);
    let kc = kind_of_rank_exec(
        k1.signed() || k2.signed(),
        if r1 >= r2 {
            r1
        } else {
            r2
        },
    );
    let neg1: bool = n1 && m1 > 0;
    let ghost x = sm_val(n1, m1 as int);
    let ghost y = sm_val(n2, m2 as int);
    proof {
        assert(concat_kind(k1, k2) == Some(kc));
    }
    if n2 && m2 > 0 {
        return Err(OprError::NoImplForOpr);
    }
    // y equals m2; the combined magnitude is m1 * 10^digits(m2) + m2
    let ghost p = pow10(ndigits(m2 as nat));
    proof {
        lemma_pow10_mono(0, ndigits(m2 as nat));
        assert(y == m2 as int);
        if neg1 {
            assert(x < 0 && -x == m1 as int);
            assert(concat_val(x, y) == -((m1 as int) * p + m2 as int));
        } else {
            assert(x == m1 as int);
            assert(concat_val(x, y) == (m1 as int) * p + m2 as int);
        }
        assert(concat_val(x, y) == sm_val(neg1, m1 as int * p + m2 as int));
    }
    let mc: u128 = if m1 == 0 {
        proof {
            assert(m1 as int * p == 0) by (nonlinear_arith)
                requires
                    m1 as int == 0,
            ;
        }
        m2
    } else {
        let d = dec_len_u128(m2);
        let p_e = match checked_pow10(d) {
            Some(p_e) => p_e,
            None => {
                proof {
                    assert(m1 as int * p + m2 as int >= p) by (nonlinear_arith)
                        requires
                            m1 >= 1,
                            p >= 1,
                            m2 >= 0,
                    ;
                    lemma_out_of_every_kind(kc, concat_val(x, y));
                }
                return Err(OprError::NoImplForOpr);
            },
        };
        let mp = match m1.checked_mul(p_e) {
            Some(mp) => mp,
            None => {
                proof {
                    assert(m1 as int * p + m2 as int >= m1 as int * p) by (nonlinear_arith)
                        requires
                            m2 >= 0,
                    ;
                    lemma_out_of_every_kind(kc, concat_val(x, y));
                }
                return Err(OprError::NoImplForOpr);
            },
        };
        match mp.checked_add(m2) {
            Some(mc) => {
                proof {
                    assert(mp as int == m1 as int * p);
                    assert(mc as int == m1 as int * p + m2 as int);
                }
                mc
            },
            None => {
                proof {
                    lemma_out_of_every_kind(kc, concat_val(x, y));
                }
                return Err(OprError::NoImplForOpr);
            },
        }
    };
    proof {
        assert(concat_val(x, y) == sm_val(neg1, mc as int));
    }
    if fits_kind(kc, neg1, mc) {
        Ok(make_int_value(kc, neg1, mc))
    } else {
        Err(OprError::NoImplForOpr)
    }
}

/// A value beyond 128 bits of magnitude lies outside every fixed kind.
proof fn lemma_out_of_every_kind(k: NumKind, v: int)
    requires
        !crate::value::kinds::is_big_kind(k),
        v > u128::MAX || v < -(u128::MAX as int),
    ensures
        !crate::value::kinds::in_kind_range(k, v),
{
}

/// `x ~ y`: two fixed integers concatenate their decimal texts into the
/// widened kind; strings concatenate with the display text of fixed
/// integers, booleans and strings.
pub fn concat(x: &Value, y: &Value) -> (r: Result<Value, OprError>)
    requires
        val_v_wf(x@),
        val_v_wf(y@),
    ensures
        opr_result_view(r) == spec_concat(x@, y@),
        r matches Ok(v) ==> val_v_wf(v@),
{
    match (x, y) {
        (Value::Str(s1), Value::Str(s2)) => {
            let mut out = s1.clone();
            out.append(s2.as_str());
            Ok(Value::Str(out))
        },
        (Value::Str(s1), Value::Bool(b)) => {
            let mut out = s1.clone();
            out.append(
                if *b {
                    "true"
                } else {
                    "false"
                },
            );
            Ok(Value::Str(out))
        },
        (Value::Bool(b), Value::Str(s2)) => {
            let mut out = if *b {
                "true".to_owned()
            } else {
                "false".to_owned()
            };
            out.append(s2.as_str());
            Ok(Value::Str(out))
        },
        (Value::Str(s1), _) => {
            match fixed_int_parts(y) {
                Some((_, n2, m2)) => {
                    let mut out = s1.clone();
                    let dec = int_to_dec(n2, m2);
                    out.append(dec.as_str());
                    Ok(Value::Str(out))
                },
                None => Err(OprError::NoImplForOpr),
            }
        },
        (_, Value::Str(s2)) => {
            match fixed_int_parts(x) {
                Some((_, n1, m1)) => {
                    let mut out = int_to_dec(n1, m1);
                    out.append(s2.as_str());
                    Ok(Value::Str(out))
                },
                None => Err(OprError::NoImplForOpr),
            }
        },
        _ => {
            let p1 = fixed_int_parts(x);
            let p2 = fixed_int_parts(y);
            match (p1, p2) {
                (Some((k1, n1, m1)), Some((k2, n2, m2))) => concat_ints(k1, n1, m1, k2, n2, m2),
                _ => Err(OprError::NoImplForOpr),
            }
        },
    }
}

} // verus!
