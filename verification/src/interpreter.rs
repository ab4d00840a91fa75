//! The tree-walking evaluator: expressions become values, a scope stack of
//! values threads through, and the `Return` sentinel short-circuits blocks.
//!
//! `spec_eval` is the mathematical semantics of one evaluation step over
//! node and value images; `eval` ensures its result and the scope stack it
//! leaves behind equal that semantics, and that the stack keeps its depth
//! and holds only well-formed values.
use vstd::prelude::*;
use vstd::pervasive::unreached;
use crate::element::Argument;
use crate::element::ArgumentV;
use crate::element::ConditionV;
use crate::element::Element;
use crate::element::ElementV;
use crate::element::args_view;
use crate::element::args_checkable;
use crate::element::conds_checkable;
use crate::element::conds_view;
use crate::element::elem_checkable;
use crate::element::elems_checkable;
use crate::element::elems_view;
use crate::element::kwargs_checkable;
use crate::element::kwargs_view;
use crate::element::dup_arguments;
use crate::element::dup_elements;
use crate::element::lemma_args_view;
use crate::element::lemma_conds_view;
use crate::element::lemma_elems_view;
use crate::element::lemma_kwargs_view;
use crate::errors::ZyxtError;
use crate::errors::ZyxtErrorV;
use crate::errors::err_2_3_at;
use crate::errors::err_3_0_at;
use crate::errors::err_4_1_0_at;
use crate::errors::err_4_1_1_at;
use crate::errors::err_internal;
use crate::errors::error_0_0;
use crate::errors::error_2_3;
use crate::errors::error_4_1_0;
use crate::errors::error_4_1_1;
use crate::position::PosV;
use crate::position::Position;
use crate::token::OprType;
use crate::token::opr_symbol;
use crate::typeobj::Type;
use crate::value::Value;
use crate::value::ValueV;
use crate::value::spec_from_type_content;
use crate::value::val_v_wf;
use crate::value::value_view;
use crate::value::values_view;
use crate::value::lemma_values_view;
use crate::value::algebra::spec_bin_opr;
use crate::value::algebra::spec_call;
use crate::value::algebra::spec_un_opr;
use crate::value::algebra::unwrap_returns;
use crate::varstack::Varstack;
use crate::varstack::frame_find;
use crate::varstack::frame_remove;
use crate::varstack::frame_set;
use crate::varstack::stack_add;
use crate::varstack::stack_contains;
use crate::varstack::stack_declare;
use crate::varstack::stack_delete;
use crate::varstack::stack_find;
use crate::varstack::stack_pop;
use crate::varstack::stack_set;

verus! {

/// The image of one frame of the value scope (and of any name-to-value
/// binding list).
pub open spec fn vframe_view(f: Seq<(Seq<char>, Value)>) -> Seq<(Seq<char>, ValueV)> {
    f.map_values(|e: (Seq<char>, Value)| (e.0, value_view(e.1)))
}

/// The image of the value scope.
pub open spec fn vstack_view(s: Seq<Seq<(Seq<char>, Value)>>) -> Seq<Seq<(Seq<char>, ValueV)>> {
    s.map_values(|f: Seq<(Seq<char>, Value)>| vframe_view(f))
}

/// The image of a keyword-to-value binding list built by a call.
pub open spec fn bindings_view(s: Seq<(String, Value)>) -> Seq<(Seq<char>, ValueV)> {
    s.map_values(|e: (String, Value)| (e.0@, value_view(e.1)))
}

pub proof fn lemma_vstack_view_add(s: Seq<Seq<(Seq<char>, Value)>>)
    ensures
        vstack_view(stack_add(s)) == stack_add(vstack_view(s)),
{
    assert(vstack_view(stack_add(s)) =~~= stack_add(vstack_view(s)));
}

pub proof fn lemma_vstack_view_pop(s: Seq<Seq<(Seq<char>, Value)>>)
    requires
        s.len() > 0,
    ensures
        vstack_view(stack_pop(s)) == stack_pop(vstack_view(s)),
{
    assert(vstack_view(stack_pop(s)) =~~= stack_pop(vstack_view(s)));
}

pub proof fn lemma_vstack_view_declare(s: Seq<Seq<(Seq<char>, Value)>>, n: Seq<char>, v: Value)
    requires
        s.len() > 0,
    ensures
        vstack_view(stack_declare(s, n, v)) == stack_declare(vstack_view(s), n, value_view(v)),
{
    assert(vstack_view(stack_declare(s, n, v)) =~~= stack_declare(
        vstack_view(s),
        n,
        value_view(v),
    ));
}

pub proof fn lemma_vframe_find(f: Seq<(Seq<char>, Value)>, n: Seq<char>)
    ensures
        frame_find(vframe_view(f), n) == match frame_find(f, n) {
            Some(v) => Some(value_view(v)),
            None => None,
        },
    decreases f.len(),
{
    if f.len() > 0 {
        lemma_vframe_find(f.skip(1), n);
        assert(vframe_view(f).skip(1) =~= vframe_view(f.skip(1)));
    }
}

pub proof fn lemma_vstack_find(s: Seq<Seq<(Seq<char>, Value)>>, n: Seq<char>)
    ensures
        stack_find(vstack_view(s), n) == match stack_find(s, n) {
            Some(v) => Some(value_view(v)),
            None => None,
        },
    decreases s.len(),
{
    if s.len() > 0 {
        lemma_vframe_find(s.last(), n);
        lemma_vstack_find(s.drop_last(), n);
        assert(vstack_view(s).last() == vframe_view(s.last()));
        assert(vstack_view(s).drop_last() =~= vstack_view(s.drop_last()));
    }
}

pub proof fn lemma_vframe_view_set(f: Seq<(Seq<char>, Value)>, n: Seq<char>, v: Value)
    ensures
        vframe_view(frame_set(f, n, v)) == frame_set(vframe_view(f), n, value_view(v)),
    decreases f.len(),
{
    if f.len() > 0 {
        if f[0].0 == n {
            assert(vframe_view(frame_set(f, n, v)) =~= frame_set(
                vframe_view(f),
                n,
                value_view(v),
            ));
        } else {
            lemma_vframe_view_set(f.skip(1), n, v);
            assert(vframe_view(f).skip(1) =~= vframe_view(f.skip(1)));
            assert(vframe_view(seq![f[0]].add(frame_set(f.skip(1), n, v))) =~= seq![
                vframe_view(f)[0],
            ].add(vframe_view(frame_set(f.skip(1), n, v))));
            assert(frame_set(vframe_view(f), n, value_view(v)) =~= seq![vframe_view(f)[0]].add(
                frame_set(vframe_view(f).skip(1), n, value_view(v)),
            ));
        }
    }
}

pub proof fn lemma_vstack_view_set(s: Seq<Seq<(Seq<char>, Value)>>, n: Seq<char>, v: Value)
    ensures
        vstack_view(stack_set(s, n, v)) == stack_set(vstack_view(s), n, value_view(v)),
    decreases s.len(),
{
    if s.len() > 0 {
        lemma_vframe_find(s.last(), n);
        assert(vstack_view(s).last() == vframe_view(s.last()));
        if frame_find(s.last(), n) is Some {
            lemma_vframe_view_set(s.last(), n, v);
            assert(vstack_view(stack_set(s, n, v)) =~~= stack_set(
                vstack_view(s),
                n,
                value_view(v),
            ));
        } else {
            lemma_vstack_view_set(s.drop_last(), n, v);
            assert(vstack_view(s).drop_last() =~= vstack_view(s.drop_last()));
            assert(vstack_view(stack_set(s, n, v)) =~~= stack_set(
                vstack_view(s),
                n,
                value_view(v),
            ));
        }
    }
}

pub proof fn lemma_vframe_view_remove(f: Seq<(Seq<char>, Value)>, n: Seq<char>)
    ensures
        vframe_view(frame_remove(f, n)) == frame_remove(vframe_view(f), n),
    decreases f.len(),
{
    if f.len() > 0 {
        if f[0].0 == n {
            assert(vframe_view(frame_remove(f, n)) =~= frame_remove(vframe_view(f), n));
        } else {
            lemma_vframe_view_remove(f.skip(1), n);
            assert(vframe_view(f).skip(1) =~= vframe_view(f.skip(1)));
            assert(vframe_view(seq![f[0]].add(frame_remove(f.skip(1), n))) =~= seq![
                vframe_view(f)[0],
            ].add(vframe_view(frame_remove(f.skip(1), n))));
            assert(frame_remove(vframe_view(f), n) =~= seq![vframe_view(f)[0]].add(
                frame_remove(vframe_view(f).skip(1), n),
            ));
        }
    }
}

pub proof fn lemma_vstack_view_delete(s: Seq<Seq<(Seq<char>, Value)>>, n: Seq<char>)
    ensures
        vstack_view(stack_delete(s, n)) == stack_delete(vstack_view(s), n),
    decreases s.len(),
{
    if s.len() > 0 {
        lemma_vframe_find(s.last(), n);
        assert(vstack_view(s).last() == vframe_view(s.last()));
        if frame_find(s.last(), n) is Some {
            lemma_vframe_view_remove(s.last(), n);
            assert(vstack_view(stack_delete(s, n)) =~~= stack_delete(vstack_view(s), n));
        } else {
            lemma_vstack_view_delete(s.drop_last(), n);
            assert(vstack_view(s).drop_last() =~= vstack_view(s.drop_last()));
            assert(vstack_view(stack_delete(s, n)) =~~= stack_delete(vstack_view(s), n));
        }
    }
}

/// Every value bound on the stack is well formed.
pub open spec fn vstack_wf(s: Seq<Seq<(Seq<char>, Value)>>) -> bool {
    forall|i: int, j: int|
        0 <= i < s.len() && 0 <= j < s[i].len() ==> val_v_wf(value_view(#[trigger] s[i][j].1))
}


/// One step of evaluation, over images: the value a node yields and the
/// scope stack it leaves behind, or the error that stops the program.
pub open spec fn spec_eval(e: ElementV, vs: Seq<Seq<(Seq<char>, ValueV)>>, fuel: nat) -> Result<
    (ValueV, Seq<Seq<(Seq<char>, ValueV)>>),
    ZyxtErrorV,
>
    decreases fuel, e, 2int, 0int,
{
    match e {
        ElementV::LiteralV { type_, content, .. } => match spec_from_type_content(type_, content) {
            Some(v) => Ok((v, vs)),
            None => Err(err_internal(content)),
        },
        ElementV::VariableV { position, name, .. } => match stack_find(vs, name) {
            Some(v) => Ok((v, vs)),
            None => Err(err_3_0_at(name, position)),
        },
        ElementV::BlockV { .. } => spec_eval_block(e, vs, fuel),
        ElementV::DeclareV { .. } => spec_eval_declare(e, vs, fuel),
        ElementV::AssignV { .. } => spec_eval_assign(e, vs, fuel),
        ElementV::DeleteV { names, position, .. } => {
            match spec_delete_names(names, 0, vs, position) {
                Ok(vs2) => Ok((ValueV::NullV, vs2)),
                Err(er) => Err(er),
            }
        },
        ElementV::IfV { .. } => spec_eval_if_node(e, vs, fuel),
        ElementV::UnaryOprV { .. } => spec_eval_unary(e, vs, fuel),
        ElementV::BinaryOprV { .. } => spec_eval_binary(e, vs, fuel),
        ElementV::ReturnV { .. } => spec_eval_return(e, vs, fuel),
        ElementV::ProcedureV { is_fn, args, return_type, content, .. } => Ok(
            (ValueV::ProcV { is_fn, args, return_type, content }, vs),
        ),
        ElementV::CallV { .. } => spec_eval_call(e, vs, fuel),
        _ => Ok((ValueV::NullV, vs)),
    }
}

/// A block runs its statements inside one fresh frame; its value is the
/// last statement's, and a `Return` sentinel short-circuits.
pub open spec fn spec_eval_block(e: ElementV, vs: Seq<Seq<(Seq<char>, ValueV)>>, fuel: nat) -> Result<
    (ValueV, Seq<Seq<(Seq<char>, ValueV)>>),
    ZyxtErrorV,
>
    decreases fuel, e, 1int, 0int,
{
    match e {
        ElementV::BlockV { content, .. } => {
            match spec_eval_stmts(content, 0, stack_add(vs), fuel) {
                Ok((v, vs2)) => Ok((v, stack_pop(vs2))),
                Err(er) => Err(er),
            }
        },
        _ => Err(err_internal(Seq::<char>::empty())),
    }
}

/// A declaration evaluates its content and binds it in the innermost
/// frame; its value is the bound one.
pub open spec fn spec_eval_declare(
    e: ElementV,
    vs: Seq<Seq<(Seq<char>, ValueV)>>,
    fuel: nat,
) -> Result<(ValueV, Seq<Seq<(Seq<char>, ValueV)>>), ZyxtErrorV>
    decreases fuel, e, 1int, 0int,
{
    match e {
        ElementV::DeclareV { variable, content, .. } => match *variable {
            ElementV::VariableV { name, .. } => match spec_eval(*content, vs, fuel) {
                Ok((v, vs1)) => Ok((v, stack_declare(vs1, name, v))),
                Err(er) => Err(er),
            },
            _ => Err(err_internal(Seq::<char>::empty())),
        },
        _ => Err(err_internal(Seq::<char>::empty())),
    }
}

/// An assignment evaluates its content and updates the innermost binding
/// of the name; an unbound name is error 3.0 at the node's position.
pub open spec fn spec_eval_assign(
    e: ElementV,
    vs: Seq<Seq<(Seq<char>, ValueV)>>,
    fuel: nat,
) -> Result<(ValueV, Seq<Seq<(Seq<char>, ValueV)>>), ZyxtErrorV>
    decreases fuel, e, 1int, 0int,
{
    match e {
        ElementV::AssignV { position, variable, content } => match *variable {
            ElementV::VariableV { name, .. } => match spec_eval(*content, vs, fuel) {
                Ok((v, vs1)) => {
                    if stack_contains(vs1, name) {
                        Ok((v, stack_set(vs1, name, v)))
                    } else {
                        Err(err_3_0_at(name, position))
                    }
                },
                Err(er) => Err(er),
            },
            _ => Err(err_internal(Seq::<char>::empty())),
        },
        _ => Err(err_internal(Seq::<char>::empty())),
    }
}

/// Deleting removes each listed name from the innermost frame that binds
/// it; an unbound name is error 3.0.
pub open spec fn spec_delete_names(
    names: Seq<Seq<char>>,
    i: int,
    vs: Seq<Seq<(Seq<char>, ValueV)>>,
    position: PosV,
) -> Result<Seq<Seq<(Seq<char>, ValueV)>>, ZyxtErrorV>
    decreases names.len() - i,
{
    if i < 0 || i >= names.len() {
        Ok(vs)
    } else if stack_contains(vs, names[i]) {
        spec_delete_names(names, i + 1, stack_delete(vs, names[i]), position)
    } else {
        Err(err_3_0_at(names[i], position))
    }
}

/// An `If` takes the first arm whose condition is the trailing `else` or
/// evaluates to true, and runs its body in a fresh frame; with no arm
/// taken its value is null.
pub open spec fn spec_eval_if_node(
    e: ElementV,
    vs: Seq<Seq<(Seq<char>, ValueV)>>,
    fuel: nat,
) -> Result<(ValueV, Seq<Seq<(Seq<char>, ValueV)>>), ZyxtErrorV>
    decreases fuel, e, 1int, 0int,
{
    match e {
        ElementV::IfV { conditions, .. } => spec_eval_arms(conditions, 0, vs, fuel),
        _ => Err(err_internal(Seq::<char>::empty())),
    }
}

/// The arms of an `If`, tried left to right.
pub open spec fn spec_eval_arms(
    conditions: Seq<ConditionV>,
    i: int,
    vs: Seq<Seq<(Seq<char>, ValueV)>>,
    fuel: nat,
) -> Result<(ValueV, Seq<Seq<(Seq<char>, ValueV)>>), ZyxtErrorV>
    decreases fuel, conditions, 0int, conditions.len() - i,
{
    if i < 0 || i >= conditions.len() {
        Ok((ValueV::NullV, vs))
    } else if (*conditions[i].condition) is NullElementV {
        match spec_eval_stmts(conditions[i].if_true, 0, stack_add(vs), fuel) {
            Ok((v, vs2)) => Ok((v, stack_pop(vs2))),
            Err(er) => Err(er),
        }
    } else {
        match spec_eval(*conditions[i].condition, vs, fuel) {
            Ok((cv, vs1)) => {
                if cv == (ValueV::BoolV { b: true }) {
                    match spec_eval_stmts(conditions[i].if_true, 0, stack_add(vs1), fuel) {
                        Ok((v, vs2)) => Ok((v, stack_pop(vs2))),
                        Err(er) => Err(er),
                    }
                } else {
                    spec_eval_arms(conditions, i + 1, vs1, fuel)
                }
            },
            Err(er) => Err(er),
        }
    }
}

/// A unary operator applies the algebra to its operand; an algebra error
/// is error 4.1.1 at the node's position, carrying the operand.
pub open spec fn spec_eval_unary(
    e: ElementV,
    vs: Seq<Seq<(Seq<char>, ValueV)>>,
    fuel: nat,
) -> Result<(ValueV, Seq<Seq<(Seq<char>, ValueV)>>), ZyxtErrorV>
    decreases fuel, e, 1int, 0int,
{
    match e {
        ElementV::UnaryOprV { position, type_, operand } => {
            match spec_eval(*operand, vs, fuel) {
                Ok((v, vs1)) => match spec_un_opr(type_, v) {
                    Ok(res) => Ok((res, vs1)),
                    Err(_) => Err(err_4_1_1_at(opr_symbol(type_), v, position)),
                },
                Err(er) => Err(er),
            }
        },
        _ => Err(err_internal(Seq::<char>::empty())),
    }
}

/// A binary operator evaluates both operands left to right and applies the
/// algebra; an algebra error is error 4.1.0 at the node's position,
/// carrying both operands.
pub open spec fn spec_eval_binary(
    e: ElementV,
    vs: Seq<Seq<(Seq<char>, ValueV)>>,
    fuel: nat,
) -> Result<(ValueV, Seq<Seq<(Seq<char>, ValueV)>>), ZyxtErrorV>
    decreases fuel, e, 1int, 0int,
{
    match e {
        ElementV::BinaryOprV { position, type_, operand1, operand2 } => {
            match spec_eval(*operand1, vs, fuel) {
                Ok((a, vs1)) => match spec_eval(*operand2, vs1, fuel) {
                    Ok((b, vs2)) => match spec_bin_opr(type_, a, b) {
                        Ok(v) => Ok((v, vs2)),
                        Err(_) => Err(err_4_1_0_at(opr_symbol(type_), a, b, position)),
                    },
                    Err(er) => Err(er),
                },
                Err(er) => Err(er),
            }
        },
        _ => Err(err_internal(Seq::<char>::empty())),
    }
}

/// A `return` wraps its value in the `Return` sentinel.
pub open spec fn spec_eval_return(
    e: ElementV,
    vs: Seq<Seq<(Seq<char>, ValueV)>>,
    fuel: nat,
) -> Result<(ValueV, Seq<Seq<(Seq<char>, ValueV)>>), ZyxtErrorV>
    decreases fuel, e, 1int, 0int,
{
    match e {
        ElementV::ReturnV { value, .. } => match spec_eval(*value, vs, fuel) {
            Ok((v, vs1)) => Ok((ValueV::ReturnV { inner: Box::new(v) }, vs1)),
            Err(er) => Err(er),
        },
        _ => Err(err_internal(Seq::<char>::empty())),
    }
}

/// A statement list from index `i` on: the last statement's value, a
/// `Return` sentinel short-circuiting, null for an empty list.
pub open spec fn spec_eval_stmts(
    s: Seq<ElementV>,
    i: int,
    vs: Seq<Seq<(Seq<char>, ValueV)>>,
    fuel: nat,
) -> Result<(ValueV, Seq<Seq<(Seq<char>, ValueV)>>), ZyxtErrorV>
    decreases fuel, s, 3int, s.len() - i,
{
    if i < 0 || i >= s.len() {
        Ok((ValueV::NullV, vs))
    } else {
        match spec_eval(s[i], vs, fuel) {
            Ok((v, vs1)) => {
                if v is ReturnV {
                    Ok((v, vs1))
                } else if i == s.len() - 1 {
                    Ok((v, vs1))
                } else {
                    spec_eval_stmts(s, i + 1, vs1, fuel)
                }
            },
            Err(er) => Err(er),
        }
    }
}

/// The positional arguments of a call from index `i` on, evaluated left to
/// right.
pub open spec fn spec_eval_list(
    s: Seq<ElementV>,
    i: int,
    vs: Seq<Seq<(Seq<char>, ValueV)>>,
    fuel: nat,
) -> Result<(Seq<ValueV>, Seq<Seq<(Seq<char>, ValueV)>>), ZyxtErrorV>
    decreases fuel, s, 3int, s.len() - i,
{
    if i < 0 || i >= s.len() {
        Ok((Seq::<ValueV>::empty(), vs))
    } else {
        match spec_eval(s[i], vs, fuel) {
            Ok((v, vs1)) => match spec_eval_list(s, i + 1, vs1, fuel) {
                Ok((rest, vs2)) => Ok((seq![v].add(rest), vs2)),
                Err(er) => Err(er),
            },
            Err(er) => Err(er),
        }
    }
}

/// The keyword arguments of a call from index `i` on, evaluated left to
/// right.
pub open spec fn spec_eval_kwlist(
    s: Seq<(Seq<char>, ElementV)>,
    i: int,
    vs: Seq<Seq<(Seq<char>, ValueV)>>,
    fuel: nat,
) -> Result<(Seq<(Seq<char>, ValueV)>, Seq<Seq<(Seq<char>, ValueV)>>), ZyxtErrorV>
    decreases fuel, s, 3int, s.len() - i,
{
    if i < 0 || i >= s.len() {
        Ok((Seq::<(Seq<char>, ValueV)>::empty(), vs))
    } else {
        match spec_eval(s[i].1, vs, fuel) {
            Ok((v, vs1)) => match spec_eval_kwlist(s, i + 1, vs1, fuel) {
                Ok((rest, vs2)) => Ok((seq![(s[i].0, v)].add(rest), vs2)),
                Err(er) => Err(er),
            },
            Err(er) => Err(er),
        }
    }
}

/// Binds a procedure's parameters from index `i` on: positional first,
/// then keyword, then the parameter's default (evaluated on a decremented
/// budget); a parameter with none of the three is error 2.3. `e` carries
/// the measure.
pub open spec fn spec_bind(
    e: ElementV,
    params: Seq<ArgumentV>,
    avs: Seq<ValueV>,
    kvs: Seq<(Seq<char>, ValueV)>,
    i: int,
    vs: Seq<Seq<(Seq<char>, ValueV)>>,
    fuel: nat,
    position: PosV,
) -> Result<(Seq<(Seq<char>, ValueV)>, Seq<Seq<(Seq<char>, ValueV)>>), ZyxtErrorV>
    decreases fuel, e, 0int, params.len() - i,
{
    if i < 0 || i >= params.len() {
        Ok((Seq::<(Seq<char>, ValueV)>::empty(), vs))
    } else {
        match spec_pick(e, params, avs, kvs, i, vs, fuel, position) {
            Ok((v, vs1)) => match spec_bind(e, params, avs, kvs, i + 1, vs1, fuel, position) {
                Ok((rest, vs2)) => Ok((seq![(params[i].name, v)].add(rest), vs2)),
                Err(er) => Err(er),
            },
            Err(er) => Err(er),
        }
    }
}

/// Picks the value for one parameter: positional, then keyword, then the
/// default (on a decremented budget); none of the three is error 2.3.
#[verifier::opaque]
pub open spec fn spec_pick(
    e: ElementV,
    params: Seq<ArgumentV>,
    avs: Seq<ValueV>,
    kvs: Seq<(Seq<char>, ValueV)>,
    i: int,
    vs: Seq<Seq<(Seq<char>, ValueV)>>,
    fuel: nat,
    position: PosV,
) -> Result<(ValueV, Seq<Seq<(Seq<char>, ValueV)>>), ZyxtErrorV>
    decreases fuel, e, 0int, 0int,
{
    if i < avs.len() {
        Ok((avs[i], vs))
    } else if 0 <= i < params.len() {
        match frame_find(kvs, params[i].name) {
            Some(v) => Ok((v, vs)),
            None => match params[i].default {
                Some(d) => {
                    if fuel == 0 {
                        Err(err_internal(Seq::<char>::empty()))
                    } else {
                        spec_eval(*d, vs, (fuel - 1) as nat)
                    }
                },
                None => Err(err_2_3_at("proc"@, i, position)),
            },
        }
    } else {
        Err(err_internal(Seq::<char>::empty()))
    }
}

/// One step of parameter binding, unfolded.
pub proof fn lemma_bind_step(
    e: ElementV,
    params: Seq<ArgumentV>,
    avs: Seq<ValueV>,
    kvs: Seq<(Seq<char>, ValueV)>,
    i: int,
    vs: Seq<Seq<(Seq<char>, ValueV)>>,
    fuel: nat,
    position: PosV,
)
    requires
        0 <= i < params.len(),
    ensures
        spec_bind(e, params, avs, kvs, i, vs, fuel, position) == (match spec_pick(
            e,
            params,
            avs,
            kvs,
            i,
            vs,
            fuel,
            position,
        ) {
            Ok(p) => match spec_bind(e, params, avs, kvs, i + 1, p.1, fuel, position) {
                Ok(q) => Ok::<
                    (Seq<(Seq<char>, ValueV)>, Seq<Seq<(Seq<char>, ValueV)>>),
                    ZyxtErrorV,
                >((seq![(params[i].name, p.0)].add(q.0), q.1)),
                Err(er) => Err(er),
            },
            Err(er) => Err(er),
        }),
{
    reveal_with_fuel(spec_bind, 1);
    reveal_with_fuel(spec_pick, 1);
}

/// Binding past the last parameter yields no bindings and leaves the
/// scope alone.
pub proof fn lemma_bind_base(
    e: ElementV,
    params: Seq<ArgumentV>,
    avs: Seq<ValueV>,
    kvs: Seq<(Seq<char>, ValueV)>,
    i: int,
    vs: Seq<Seq<(Seq<char>, ValueV)>>,
    fuel: nat,
    position: PosV,
)
    requires
        i >= params.len(),
    ensures
        spec_bind(e, params, avs, kvs, i, vs, fuel, position) == Ok::<
            (Seq<(Seq<char>, ValueV)>, Seq<Seq<(Seq<char>, ValueV)>>),
            ZyxtErrorV,
        >((Seq::<(Seq<char>, ValueV)>::empty(), vs)),
{
    reveal_with_fuel(spec_bind, 1);
}

/// A parameter with a positional argument picks it, leaving the scope
/// alone.
pub proof fn lemma_pick_positional(
    e: ElementV,
    params: Seq<ArgumentV>,
    avs: Seq<ValueV>,
    kvs: Seq<(Seq<char>, ValueV)>,
    i: int,
    vs: Seq<Seq<(Seq<char>, ValueV)>>,
    fuel: nat,
    position: PosV,
)
    requires
        0 <= i < avs.len(),
    ensures
        spec_pick(e, params, avs, kvs, i, vs, fuel, position) == Ok::<
            (ValueV, Seq<Seq<(Seq<char>, ValueV)>>),
            ZyxtErrorV,
        >((avs[i], vs)),
{
    reveal_with_fuel(spec_pick, 1);
}

/// A parameter named among the keywords picks that binding.
pub proof fn lemma_pick_keyword(
    e: ElementV,
    params: Seq<ArgumentV>,
    avs: Seq<ValueV>,
    kvs: Seq<(Seq<char>, ValueV)>,
    i: int,
    vs: Seq<Seq<(Seq<char>, ValueV)>>,
    fuel: nat,
    position: PosV,
)
    requires
        avs.len() <= i < params.len(),
        frame_find(kvs, params[i].name) is Some,
    ensures
        spec_pick(e, params, avs, kvs, i, vs, fuel, position) == Ok::<
            (ValueV, Seq<Seq<(Seq<char>, ValueV)>>),
            ZyxtErrorV,
        >((frame_find(kvs, params[i].name)->0, vs)),
{
    reveal_with_fuel(spec_pick, 1);
}

/// Otherwise, a parameter with a default evaluates it on a decremented
/// budget.
pub proof fn lemma_pick_default(
    e: ElementV,
    params: Seq<ArgumentV>,
    avs: Seq<ValueV>,
    kvs: Seq<(Seq<char>, ValueV)>,
    i: int,
    vs: Seq<Seq<(Seq<char>, ValueV)>>,
    fuel: nat,
    position: PosV,
)
    requires
        avs.len() <= i < params.len(),
        frame_find(kvs, params[i].name) is None,
        params[i].default is Some,
        fuel >= 1,
    ensures
        spec_pick(e, params, avs, kvs, i, vs, fuel, position) == spec_eval(
            *(params[i].default->0),
            vs,
            (fuel - 1) as nat,
        ),
{
    reveal_with_fuel(spec_pick, 1);
}

/// A parameter with no positional, keyword or default is error 2.3.
pub proof fn lemma_pick_missing(
    e: ElementV,
    params: Seq<ArgumentV>,
    avs: Seq<ValueV>,
    kvs: Seq<(Seq<char>, ValueV)>,
    i: int,
    vs: Seq<Seq<(Seq<char>, ValueV)>>,
    fuel: nat,
    position: PosV,
)
    requires
        avs.len() <= i < params.len(),
        frame_find(kvs, params[i].name) is None,
        params[i].default is None,
    ensures
        spec_pick(e, params, avs, kvs, i, vs, fuel, position) == Err::<
            (ValueV, Seq<Seq<(Seq<char>, ValueV)>>),
            ZyxtErrorV,
        >(err_2_3_at("proc"@, i, position)),
{
    reveal_with_fuel(spec_pick, 1);
}


/// Applies a procedure: parameters bind, a fresh frame holds the bindings,
/// and the body runs on a decremented budget; a trailing `Return` sentinel
/// unwraps as the call's value. `e` carries the measure.
pub open spec fn spec_apply(
    e: ElementV,
    params: Seq<ArgumentV>,
    content: Seq<ElementV>,
    avs: Seq<ValueV>,
    kvs: Seq<(Seq<char>, ValueV)>,
    vs: Seq<Seq<(Seq<char>, ValueV)>>,
    fuel: nat,
    position: PosV,
) -> Result<(ValueV, Seq<Seq<(Seq<char>, ValueV)>>), ZyxtErrorV>
    decreases fuel, e, 1int, 0int,
{
    if fuel == 0 {
        Err(err_internal(Seq::<char>::empty()))
    } else {
        match spec_bind(e, params, avs, kvs, 0, vs, fuel, position) {
            Ok((binds, vs4)) => {
                match spec_eval_stmts(
                    content,
                    0,
                    spec_declare_bindings(stack_add(vs4), binds, 0),
                    (fuel - 1) as nat,
                ) {
                    Ok((out, vs5)) => Ok(
                        (
                            match out {
                                ValueV::ReturnV { inner } => *inner,
                                other => other,
                            },
                            stack_pop(vs5),
                        ),
                    ),
                    Err(er) => Err(er),
                }
            },
            Err(er) => Err(er),
        }
    }
}

/// The scope with a call's bindings declared, oldest first.
pub open spec fn spec_declare_bindings(
    vs: Seq<Seq<(Seq<char>, ValueV)>>,
    binds: Seq<(Seq<char>, ValueV)>,
    i: int,
) -> Seq<Seq<(Seq<char>, ValueV)>>
    decreases binds.len() - i,
{
    if i < 0 || i >= binds.len() {
        vs
    } else {
        spec_declare_bindings(stack_declare(vs, binds[i].0, binds[i].1), binds, i + 1)
    }
}

/// A call: the callee and the arguments evaluate left to right. A
/// procedure binds its parameters in a fresh frame and runs its body on a
/// decremented budget, unwrapping a trailing `Return` sentinel; a spent
/// budget is an internal error. A primitive multiplies by its one numeric
/// argument; an algebra error is error 4.1.0. Types and class instances
/// cannot be called here.
pub open spec fn spec_eval_call(
    e: ElementV,
    vs: Seq<Seq<(Seq<char>, ValueV)>>,
    fuel: nat,
) -> Result<(ValueV, Seq<Seq<(Seq<char>, ValueV)>>), ZyxtErrorV>
    decreases fuel, e, 1int, 1int,
{
    match e {
        ElementV::CallV { position, called, args, kwargs } => {
            match spec_eval(*called, vs, fuel) {
                Ok((f, vs1)) => match spec_eval_list(args, 0, vs1, fuel) {
                    Ok((avs, vs2)) => match spec_eval_kwlist(kwargs, 0, vs2, fuel) {
                        Ok((kvs, vs3)) => {
                            let fs = unwrap_returns(f);
                            match fs {
                                ValueV::ProcV { args: params, content, .. } => {
                                    if fuel == 0 {
                                        Err(
                                            ZyxtErrorV {
                                                position: Some(position),
                                                code: crate::errors::ErrorCodeV::InternalV {
                                                    details: "the evaluation budget is spent"@,
                                                },
                                            },
                                        )
                                    } else if avs.len() > params.len() {
                                        Err(err_2_3_at("proc"@, params.len() as int, position))
                                    } else {
                                        spec_apply(
                                            e,
                                            params,
                                            content,
                                            avs,
                                            kvs,
                                            vs3,
                                            fuel,
                                            position,
                                        )
                                    }
                                },
                                ValueV::TypeValV { .. } | ValueV::ClassInstanceV { .. } => Err(
                                    ZyxtErrorV {
                                        position: Some(position),
                                        code: crate::errors::ErrorCodeV::InternalV {
                                            details: "a type or class instance cannot be called here"@,
                                        },
                                    },
                                ),
                                _ => match spec_call(fs, avs) {
                                    Ok(v) => Ok((v, vs3)),
                                    Err(_) => Err(
                                        err_4_1_0_at(
                                            opr_symbol(OprType::AstMult),
                                            fs,
                                            if avs.len() >= 1 {
                                                avs[0]
                                            } else {
                                                ValueV::NullV
                                            },
                                            position,
                                        ),
                                    ),
                                },
                            }
                        },
                        Err(er) => Err(er),
                    },
                    Err(er) => Err(er),
                },
                Err(er) => Err(er),
            }
        },
        _ => Err(err_internal(Seq::<char>::empty())),
    }
}


pub proof fn lemma_vstack_wf_add(s: Seq<Seq<(Seq<char>, Value)>>)
    requires
        vstack_wf(s),
    ensures
        vstack_wf(stack_add(s)),
{
    assert forall|i: int, j: int|
        0 <= i < stack_add(s).len() && 0 <= j < stack_add(s)[i].len() implies val_v_wf(
        value_view(#[trigger] stack_add(s)[i][j].1),
    ) by {
        if i < s.len() {
            assert(stack_add(s)[i] == s[i]);
        }
    }
}

pub proof fn lemma_vstack_wf_pop(s: Seq<Seq<(Seq<char>, Value)>>)
    requires
        vstack_wf(s),
        s.len() > 0,
    ensures
        vstack_wf(stack_pop(s)),
{
    assert forall|i: int, j: int|
        0 <= i < stack_pop(s).len() && 0 <= j < stack_pop(s)[i].len() implies val_v_wf(
        value_view(#[trigger] stack_pop(s)[i][j].1),
    ) by {
        assert(stack_pop(s)[i] == s[i]);
    }
}

pub proof fn lemma_vstack_wf_declare(s: Seq<Seq<(Seq<char>, Value)>>, n: Seq<char>, v: Value)
    requires
        vstack_wf(s),
        s.len() > 0,
        val_v_wf(value_view(v)),
    ensures
        vstack_wf(stack_declare(s, n, v)),
{
    let s2 = stack_declare(s, n, v);
    assert forall|i: int, j: int|
        0 <= i < s2.len() && 0 <= j < s2[i].len() implies val_v_wf(
        value_view(#[trigger] s2[i][j].1),
    ) by {
        if i < s.len() - 1 {
            assert(s2[i] == s[i]);
        } else {
            assert(s2[i] == seq![(n, v)].add(s.last()));
            if j > 0 {
                assert(s2[i][j] == s.last()[j - 1]);
                assert(s.last() == s[s.len() - 1]);
            }
        }
    }
}

pub proof fn lemma_vframe_wf_set(f: Seq<(Seq<char>, Value)>, n: Seq<char>, v: Value)
    requires
        forall|j: int| 0 <= j < f.len() ==> val_v_wf(value_view(#[trigger] f[j].1)),
        val_v_wf(value_view(v)),
    ensures
        forall|j: int|
            0 <= j < frame_set(f, n, v).len() ==> val_v_wf(
                value_view(#[trigger] frame_set(f, n, v)[j].1),
            ),
        frame_set(f, n, v).len() == f.len(),
    decreases f.len(),
{
    if f.len() > 0 && f[0].0 != n {
        assert(forall|j: int|
            0 <= j < f.skip(1).len() ==> val_v_wf(value_view(#[trigger] f.skip(1)[j].1)));
        lemma_vframe_wf_set(f.skip(1), n, v);
        let r = seq![f[0]].add(frame_set(f.skip(1), n, v));
        assert(forall|j: int| 1 <= j < r.len() ==> r[j] == frame_set(f.skip(1), n, v)[j - 1]);
    }
}

pub proof fn lemma_vstack_wf_set(s: Seq<Seq<(Seq<char>, Value)>>, n: Seq<char>, v: Value)
    requires
        vstack_wf(s),
        val_v_wf(value_view(v)),
    ensures
        vstack_wf(stack_set(s, n, v)),
        stack_set(s, n, v).len() == s.len(),
    decreases s.len(),
{
    if s.len() > 0 {
        let s2 = stack_set(s, n, v);
        if frame_find(s.last(), n) is Some {
            assert(forall|j: int|
                0 <= j < s.last().len() ==> val_v_wf(value_view(#[trigger] s.last()[j].1)));
            lemma_vframe_wf_set(s.last(), n, v);
            assert forall|i: int, j: int|
                0 <= i < s2.len() && 0 <= j < s2[i].len() implies val_v_wf(
                value_view(#[trigger] s2[i][j].1),
            ) by {
                if i < s.len() - 1 {
                    assert(s2[i] == s[i]);
                } else {
                    assert(s2[i] == frame_set(s.last(), n, v));
                }
            }
        } else {
            assert(vstack_wf(s.drop_last()));
            lemma_vstack_wf_set(s.drop_last(), n, v);
            assert forall|i: int, j: int|
                0 <= i < s2.len() && 0 <= j < s2[i].len() implies val_v_wf(
                value_view(#[trigger] s2[i][j].1),
            ) by {
                if i < s.len() - 1 {
                    assert(s2[i] == stack_set(s.drop_last(), n, v)[i]);
                } else {
                    assert(s2[i] == s[s.len() - 1]);
                }
            }
        }
    }
}

pub proof fn lemma_vframe_wf_remove(f: Seq<(Seq<char>, Value)>, n: Seq<char>)
    requires
        forall|j: int| 0 <= j < f.len() ==> val_v_wf(value_view(#[trigger] f[j].1)),
    ensures
        forall|j: int|
            0 <= j < frame_remove(f, n).len() ==> val_v_wf(
                value_view(#[trigger] frame_remove(f, n)[j].1),
            ),
    decreases f.len(),
{
    if f.len() > 0 {
        if f[0].0 == n {
            assert(forall|j: int| 0 <= j < f.skip(1).len() ==> f.skip(1)[j] == f[j + 1]);
        } else {
            assert(forall|j: int|
                0 <= j < f.skip(1).len() ==> val_v_wf(value_view(#[trigger] f.skip(1)[j].1)));
            lemma_vframe_wf_remove(f.skip(1), n);
            let r = seq![f[0]].add(frame_remove(f.skip(1), n));
            assert(forall|j: int| 1 <= j < r.len() ==> r[j] == frame_remove(f.skip(1), n)[j - 1]);
        }
    }
}

pub proof fn lemma_vstack_wf_delete(s: Seq<Seq<(Seq<char>, Value)>>, n: Seq<char>)
    requires
        vstack_wf(s),
    ensures
        vstack_wf(stack_delete(s, n)),
        stack_delete(s, n).len() == s.len(),
    decreases s.len(),
{
    if s.len() > 0 {
        let s2 = stack_delete(s, n);
        if frame_find(s.last(), n) is Some {
            assert(forall|j: int|
                0 <= j < s.last().len() ==> val_v_wf(value_view(#[trigger] s.last()[j].1)));
            lemma_vframe_wf_remove(s.last(), n);
            assert forall|i: int, j: int|
                0 <= i < s2.len() && 0 <= j < s2[i].len() implies val_v_wf(
                value_view(#[trigger] s2[i][j].1),
            ) by {
                if i < s.len() - 1 {
                    assert(s2[i] == s[i]);
                } else {
                    assert(s2[i] == frame_remove(s.last(), n));
                }
            }
        } else {
            assert(vstack_wf(s.drop_last()));
            lemma_vstack_wf_delete(s.drop_last(), n);
            assert forall|i: int, j: int|
                0 <= i < s2.len() && 0 <= j < s2[i].len() implies val_v_wf(
                value_view(#[trigger] s2[i][j].1),
            ) by {
                if i < s.len() - 1 {
                    assert(s2[i] == stack_delete(s.drop_last(), n)[i]);
                } else {
                    assert(s2[i] == s[s.len() - 1]);
                }
            }
        }
    }
}

/// A bound value found on a well-formed stack is well formed.
pub proof fn lemma_vstack_find_wf(s: Seq<Seq<(Seq<char>, Value)>>, n: Seq<char>)
    requires
        vstack_wf(s),
    ensures
        stack_find(s, n) matches Some(v) ==> val_v_wf(value_view(v)),
    decreases s.len(),
{
    if s.len() > 0 {
        assert(s.last() =~= s[s.len() - 1].skip(0));
        lemma_vframe_find_wf(s.last(), n, s.len() - 1, s);
        assert(vstack_wf(s.drop_last()));
        lemma_vstack_find_wf(s.drop_last(), n);
    }
}

proof fn lemma_vframe_find_wf(
    f: Seq<(Seq<char>, Value)>,
    n: Seq<char>,
    i: int,
    s: Seq<Seq<(Seq<char>, Value)>>,
)
    requires
        vstack_wf(s),
        0 <= i < s.len(),
        exists|j: int| 0 <= j <= s[i].len() && f == s[i].skip(j),
    ensures
        frame_find(f, n) matches Some(v) ==> val_v_wf(value_view(v)),
    decreases f.len(),
{
    if f.len() > 0 {
        let j = choose|j: int| 0 <= j <= s[i].len() && f == s[i].skip(j);
        assert(f[0] == s[i][j]);
        if f[0].0 != n {
            assert(f.skip(1) =~= s[i].skip(j + 1));
            lemma_vframe_find_wf(f.skip(1), n, i, s);
        }
    }
}

/// A well-formed value stays well formed under `Return` unwrapping.
pub proof fn lemma_unwrap_wf(v: ValueV)
    requires
        val_v_wf(v),
    ensures
        val_v_wf(unwrap_returns(v)),
    decreases v,
{
    match v {
        ValueV::ReturnV { inner } => {
            lemma_unwrap_wf(*inner);
        },
        _ => {},
    }
}

/// Every element of a checkable list is checkable.
pub proof fn lemma_elems_checkable_index(s: Seq<ElementV>, i: int)
    requires
        elems_checkable(s),
        0 <= i < s.len(),
    ensures
        elem_checkable(s[i]),
    decreases i,
{
    if i > 0 {
        lemma_elems_checkable_index(s.skip(1), i - 1);
    }
}

/// Every arm of a checkable arm list is checkable.
pub proof fn lemma_conds_checkable_index(s: Seq<ConditionV>, i: int)
    requires
        conds_checkable(s),
        0 <= i < s.len(),
    ensures
        elem_checkable(*s[i].condition),
        elems_checkable(s[i].if_true),
    decreases i,
{
    if i > 0 {
        lemma_conds_checkable_index(s.skip(1), i - 1);
    }
}

/// A keyword argument in a checkable list is checkable.
pub proof fn lemma_kwargs_checkable_index(s: Seq<(Seq<char>, ElementV)>, i: int)
    requires
        kwargs_checkable(s),
        0 <= i < s.len(),
    ensures
        elem_checkable(s[i].1),
    decreases i,
{
    if i > 0 {
        lemma_kwargs_checkable_index(s.skip(1), i - 1);
    }
}

/// A parameter's default in a checkable list is checkable.
pub proof fn lemma_args_checkable_index(s: Seq<ArgumentV>, i: int)
    requires
        args_checkable(s),
        0 <= i < s.len(),
    ensures
        s[i].default matches Some(d) ==> elem_checkable(*d),
    decreases i,
{
    if i > 0 {
        lemma_args_checkable_index(s.skip(1), i - 1);
    }
}

/// Strips any `Return` wrappers off a value.
fn strip_returns(v: Value) -> (r: Value)
    requires
        val_v_wf(v@),
    ensures
        r@ == unwrap_returns(v@),
        val_v_wf(r@),
        !(r@ is ReturnV),
    decreases v,
{
    match v {
        Value::Return(inner) => strip_returns(*inner),
        other => other,
    }
}



/// One step of positional-argument evaluation, unfolded.
pub proof fn lemma_list_step(
    s: Seq<ElementV>,
    i: int,
    vs: Seq<Seq<(Seq<char>, ValueV)>>,
    fuel: nat,
)
    requires
        0 <= i < s.len(),
    ensures
        spec_eval_list(s, i, vs, fuel) == (match spec_eval(s[i], vs, fuel) {
            Ok(p) => match spec_eval_list(s, i + 1, p.1, fuel) {
                Ok(q) => Ok::<
                    (Seq<ValueV>, Seq<Seq<(Seq<char>, ValueV)>>),
                    ZyxtErrorV,
                >((seq![p.0].add(q.0), q.1)),
                Err(er) => Err(er),
            },
            Err(er) => Err(er),
        }),
{
}

/// One step of keyword-argument evaluation, unfolded.
pub proof fn lemma_kwlist_step(
    s: Seq<(Seq<char>, ElementV)>,
    i: int,
    vs: Seq<Seq<(Seq<char>, ValueV)>>,
    fuel: nat,
)
    requires
        0 <= i < s.len(),
    ensures
        spec_eval_kwlist(s, i, vs, fuel) == (match spec_eval(s[i].1, vs, fuel) {
            Ok(p) => match spec_eval_kwlist(s, i + 1, p.1, fuel) {
                Ok(q) => Ok::<
                    (Seq<(Seq<char>, ValueV)>, Seq<Seq<(Seq<char>, ValueV)>>),
                    ZyxtErrorV,
                >((seq![(s[i].0, p.0)].add(q.0), q.1)),
                Err(er) => Err(er),
            },
            Err(er) => Err(er),
        }),
{
}

/// One step of statement evaluation, unfolded.
pub proof fn lemma_stmts_step(
    s: Seq<ElementV>,
    i: int,
    vs: Seq<Seq<(Seq<char>, ValueV)>>,
    fuel: nat,
)
    requires
        0 <= i < s.len(),
    ensures
        spec_eval_stmts(s, i, vs, fuel) == (match spec_eval(s[i], vs, fuel) {
            Ok(p) => {
                if p.0 is ReturnV {
                    Ok::<(ValueV, Seq<Seq<(Seq<char>, ValueV)>>), ZyxtErrorV>(p)
                } else if i == s.len() - 1 {
                    Ok(p)
                } else {
                    spec_eval_stmts(s, i + 1, p.1, fuel)
                }
            },
            Err(er) => Err(er),
        }),
{
}

/// Prepending grows on the left: pushing an element then appending a tail
/// is appending the element-plus-tail.
pub proof fn lemma_add_assoc_push<T>(pre: Seq<T>, v: T, rest: Seq<T>)
    ensures
        pre.push(v).add(rest) == pre.add(seq![v].add(rest)),
{
    assert(pre.push(v).add(rest) =~= pre.add(seq![v].add(rest)));
}

/// The value bound to a keyword, if any (the first binding wins).
fn find_kw(kwvals: &Vec<(String, Value)>, name: &String) -> (r: Option<Value>)
    requires
        forall|k: int| 0 <= k < kwvals@.len() ==> val_v_wf(#[trigger] kwvals@[k].1@),
    ensures
        match frame_find(bindings_view(kwvals@), name@) {
            Some(v) => r matches Some(val) && val@ == v,
            None => r is None,
        },
        r matches Some(val) ==> val_v_wf(val@),
{
    let ghost kv = bindings_view(kwvals@);
    let mut i: usize = 0;
    while i < kwvals.len()
        invariant
            0 <= i <= kwvals@.len(),
            kv == bindings_view(kwvals@),
            kv.len() == kwvals@.len(),
            forall|k: int| 0 <= k < kwvals@.len() ==> val_v_wf(#[trigger] kwvals@[k].1@),
            forall|k: int| 0 <= k < i ==> kv[k].0 != name@,
        decreases kwvals@.len() - i,
    {
        if kwvals[i].0 == *name {
            proof {
                crate::varstack::lemma_frame_find_skip(kv, name@, i as int);
                assert(kv.skip(i as int)[0] == kv[i as int]);
                assert(val_v_wf(kwvals@[i as int].1@));
            }
            return Some(kwvals[i].1.duplicate());
        }
        i += 1;
    }
    proof {
        crate::varstack::lemma_frame_find_skip(kv, name@, kv.len() as int);
        assert(kv.skip(kv.len() as int) =~= Seq::<(Seq<char>, ValueV)>::empty());
    }
    None
}

/// Evaluates one node: the result and the scope stack it leaves behind
/// equal `spec_eval`; the stack keeps its depth and holds only well-formed
/// values.
#[verifier::rlimit(100)]
pub fn eval(e: &Element, valstack: &mut Varstack<Value>, fuel: u64) -> (r: Result<
    Value,
    ZyxtError,
>)
    requires
        elem_checkable(e@),
        old(valstack)@.len() > 0,
        vstack_wf(old(valstack)@),
    ensures
        final(valstack)@.len() == old(valstack)@.len(),
        vstack_wf(final(valstack)@),
        r matches Ok(v) ==> val_v_wf(v@),
        match spec_eval(e@, vstack_view(old(valstack)@), fuel as nat) {
            Ok(p) => r matches Ok(val) && val@ == p.0 && vstack_view(final(valstack)@) == p.1,
            Err(ev) => r matches Err(er) && er@ == ev,
        },
    decreases fuel, *e, 2int, 0int,
{
    let ghost s0 = *e;
    let ghost vs0 = vstack_view(old(valstack)@);
    match e {
        Element::Comment { .. } => Ok(Value::Null),
        Element::NullElement => Ok(Value::Null),
        Element::Token(..) => Ok(Value::Null),
        Element::Literal { type_, content, .. } => Value::from_type_content(
            type_.duplicate(),
            content.clone(),
        ),
        Element::Variable { position, name, .. } => {
            proof {
                lemma_vstack_find(valstack@, name@);
                lemma_vstack_find_wf(valstack@, name@);
            }
            match valstack.get_val(name, position) {
                Ok(v) => Ok(v.duplicate()),
                Err(er) => Err(er),
            }
        },
        Element::Block { content, .. } => {
            proof {
                assert(spec_eval(s0@, vs0, fuel as nat) == spec_eval_block(s0@, vs0, fuel as nat));
                assert(decreases_to!(s0 => content));
            }
            eval_block(content, valstack, fuel, Ghost(s0))
        },
        Element::Declare { variable, content, .. } => {
            proof {
                assert(spec_eval(s0@, vs0, fuel as nat) == spec_eval_declare(
                    s0@,
                    vs0,
                    fuel as nat,
                ));
            }
            eval_declare(variable, content, valstack, fuel, Ghost(s0))
        },
        Element::Assign { position, variable, content } => {
            proof {
                assert(spec_eval(s0@, vs0, fuel as nat) == spec_eval_assign(
                    s0@,
                    vs0,
                    fuel as nat,
                ));
            }
            eval_assign(position, variable, content, valstack, fuel, Ghost(s0))
        },
        Element::Delete { position, names } => eval_delete(position, names, valstack, Ghost(s0)),
        Element::If { conditions, .. } => {
            proof {
                assert(spec_eval(s0@, vs0, fuel as nat) == spec_eval_if_node(
                    s0@,
                    vs0,
                    fuel as nat,
                ));
            }
            eval_if(conditions, valstack, fuel, Ghost(s0))
        },
        Element::UnaryOpr { position, type_, operand } => {
            proof {
                assert(spec_eval(s0@, vs0, fuel as nat) == spec_eval_unary(
                    s0@,
                    vs0,
                    fuel as nat,
                ));
            }
            eval_unary(position, type_, operand, valstack, fuel, Ghost(s0))
        },
        Element::BinaryOpr { position, type_, operand1, operand2 } => {
            proof {
                assert(spec_eval(s0@, vs0, fuel as nat) == spec_eval_binary(
                    s0@,
                    vs0,
                    fuel as nat,
                ));
            }
            eval_binary(position, type_, operand1, operand2, valstack, fuel, Ghost(s0))
        },
        Element::Return { value, .. } => {
            proof {
                assert(spec_eval(s0@, vs0, fuel as nat) == spec_eval_return(
                    s0@,
                    vs0,
                    fuel as nat,
                ));
                assert(decreases_to!(s0 => *value));
            }
            let v = match eval(value, valstack, fuel) {
                Ok(v) => v,
                Err(er) => {
                    return Err(er);
                },
            };
            Ok(Value::Return(Box::new(v)))
        },
        Element::Procedure { is_fn, args, return_type, content, .. } => {
            Ok(
                Value::Proc {
                    is_fn: *is_fn,
                    args: dup_arguments(args),
                    return_type: return_type.duplicate(),
                    content: dup_elements(content),
                },
            )
        },
        Element::Call { position, called, args, kwargs } => {
            proof {
                assert(spec_eval(s0@, vs0, fuel as nat) == spec_eval_call(s0@, vs0, fuel as nat));
            }
            eval_call(position, called, args, kwargs, valstack, fuel, Ghost(s0))
        },
    }
}

/// Evaluates a statement list in the current frame; a `Return` value
/// short-circuits and propagates.
#[verifier::rlimit(100)]
fn eval_stmts(content: &Vec<Element>, valstack: &mut Varstack<Value>, fuel: u64) -> (r: Result<
    Value,
    ZyxtError,
>)
    requires
        elems_checkable(elems_view(content@)),
        old(valstack)@.len() > 0,
        vstack_wf(old(valstack)@),
    ensures
        final(valstack)@.len() == old(valstack)@.len(),
        vstack_wf(final(valstack)@),
        r matches Ok(v) ==> val_v_wf(v@),
        match spec_eval_stmts(elems_view(content@), 0, vstack_view(old(valstack)@), fuel as nat) {
            Ok(p) => r matches Ok(val) && val@ == p.0 && vstack_view(final(valstack)@) == p.1,
            Err(ev) => r matches Err(er) && er@ == ev,
        },
    decreases fuel, content@, 3int, 0int,
{
    let ghost sv = elems_view(content@);
    let ghost vs0 = vstack_view(old(valstack)@);
    proof {
        lemma_elems_view(content@);
    }
    let mut last = Value::Null;
    let mut i: usize = 0;
    while i < content.len()
        invariant
            0 <= i <= content@.len(),
            sv == elems_view(content@),
            sv.len() == content@.len(),
            vs0 == vstack_view(old(valstack)@),
            elems_checkable(sv),
            old(valstack)@.len() > 0,
            valstack@.len() == old(valstack)@.len(),
            vstack_wf(valstack@),
            val_v_wf(last@),
            if i < sv.len() {
                spec_eval_stmts(sv, 0, vs0, fuel as nat) == spec_eval_stmts(
                    sv,
                    i as int,
                    vstack_view(valstack@),
                    fuel as nat,
                )
            } else {
                spec_eval_stmts(sv, 0, vs0, fuel as nat) == Ok::<
                    (ValueV, Seq<Seq<(Seq<char>, ValueV)>>),
                    ZyxtErrorV,
                >((last@, vstack_view(valstack@)))
            },
        decreases content@.len() - i,
    {
        proof {
            lemma_elems_view(content@);
            lemma_elems_checkable_index(sv, i as int);
            lemma_stmts_step(sv, i as int, vstack_view(valstack@), fuel as nat);
            assert(decreases_to!(content@ => content@[i as int]));
        }
        let v = match eval(&content[i], valstack, fuel) {
            Ok(v) => v,
            Err(er) => {
                return Err(er);
            },
        };
        let is_return = match &v {
            Value::Return(..) => true,
            _ => false,
        };
        if is_return {
            return Ok(v);
        }
        last = v;
        i += 1;
    }
    Ok(last)
}

/// A block runs its statements inside one fresh frame.
fn eval_block(
    content: &Vec<Element>,
    valstack: &mut Varstack<Value>,
    fuel: u64,
    Ghost(e0): Ghost<Element>,
) -> (r: Result<Value, ZyxtError>)
    requires
        e0 matches Element::Block { content: c2, .. } && c2 == *content,
        elem_checkable(e0@),
        old(valstack)@.len() > 0,
        vstack_wf(old(valstack)@),
    ensures
        final(valstack)@.len() == old(valstack)@.len(),
        vstack_wf(final(valstack)@),
        r matches Ok(v) ==> val_v_wf(v@),
        match spec_eval_block(e0@, vstack_view(old(valstack)@), fuel as nat) {
            Ok(p) => r matches Ok(val) && val@ == p.0 && vstack_view(final(valstack)@) == p.1,
            Err(ev) => r matches Err(er) && er@ == ev,
        },
    decreases fuel, e0, 1int, 0int,
{
    let ghost vs0 = vstack_view(old(valstack)@);
    valstack.add_set();
    proof {
        lemma_vstack_wf_add(old(valstack)@);
        lemma_vstack_view_add(old(valstack)@);
        assert(decreases_to!(e0 => *content));
    }
    match eval_stmts(content, valstack, fuel) {
        Ok(v) => {
            let ghost pre = valstack@;
            proof {
                lemma_vstack_wf_pop(pre);
            }
            valstack.pop_set();
            proof {
                lemma_vstack_view_pop(pre);
            }
            Ok(v)
        },
        Err(er) => {
            let ghost pre = valstack@;
            proof {
                lemma_vstack_wf_pop(pre);
            }
            valstack.pop_set();
            Err(er)
        },
    }
}

/// A declaration evaluates its content and binds it in the innermost
/// frame.
fn eval_declare(
    variable: &Box<Element>,
    content: &Box<Element>,
    valstack: &mut Varstack<Value>,
    fuel: u64,
    Ghost(e0): Ghost<Element>,
) -> (r: Result<Value, ZyxtError>)
    requires
        e0 matches Element::Declare { variable: v2, content: c2, .. } && v2 == *variable && c2
            == *content,
        elem_checkable(e0@),
        old(valstack)@.len() > 0,
        vstack_wf(old(valstack)@),
    ensures
        final(valstack)@.len() == old(valstack)@.len(),
        vstack_wf(final(valstack)@),
        r matches Ok(v) ==> val_v_wf(v@),
        match spec_eval_declare(e0@, vstack_view(old(valstack)@), fuel as nat) {
            Ok(p) => r matches Ok(val) && val@ == p.0 && vstack_view(final(valstack)@) == p.1,
            Err(ev) => r matches Err(er) && er@ == ev,
        },
    decreases fuel, e0, 1int, 0int,
{
    proof {
        assert(decreases_to!(e0 => **content));
    }
    let v = match eval(&**content, valstack, fuel) {
        Ok(v) => v,
        Err(er) => {
            return Err(er);
        },
    };
    let name = variable.get_name();
    let d = v.duplicate();
    proof {
        lemma_vstack_wf_declare(valstack@, name@, d);
        lemma_vstack_view_declare(valstack@, name@, d);
    }
    valstack.declare_val(&name, d);
    Ok(v)
}

/// An assignment evaluates its content and updates the innermost binding.
fn eval_assign(
    position: &Position,
    variable: &Box<Element>,
    content: &Box<Element>,
    valstack: &mut Varstack<Value>,
    fuel: u64,
    Ghost(e0): Ghost<Element>,
) -> (r: Result<Value, ZyxtError>)
    requires
        e0 matches Element::Assign { position: p2, variable: v2, content: c2 } && p2 == position
            && v2 == *variable && c2 == *content,
        elem_checkable(e0@),
        old(valstack)@.len() > 0,
        vstack_wf(old(valstack)@),
    ensures
        final(valstack)@.len() == old(valstack)@.len(),
        vstack_wf(final(valstack)@),
        r matches Ok(v) ==> val_v_wf(v@),
        match spec_eval_assign(e0@, vstack_view(old(valstack)@), fuel as nat) {
            Ok(p) => r matches Ok(val) && val@ == p.0 && vstack_view(final(valstack)@) == p.1,
            Err(ev) => r matches Err(er) && er@ == ev,
        },
    decreases fuel, e0, 1int, 0int,
{
    proof {
        assert(decreases_to!(e0 => **content));
    }
    let v = match eval(&**content, valstack, fuel) {
        Ok(v) => v,
        Err(er) => {
            return Err(er);
        },
    };
    let name = variable.get_name();
    let d = v.duplicate();
    proof {
        lemma_vstack_wf_set(valstack@, name@, d);
        lemma_vstack_view_set(valstack@, name@, d);
        lemma_vstack_find(valstack@, name@);
    }
    match valstack.set_val(&name, d, position) {
        Ok(()) => Ok(v),
        Err(er) => Err(er),
    }
}

/// Deleting removes each listed name from the innermost frame that binds
/// it.
fn eval_delete(
    position: &Position,
    names: &Vec<String>,
    valstack: &mut Varstack<Value>,
    Ghost(e0): Ghost<Element>,
) -> (r: Result<Value, ZyxtError>)
    requires
        e0 matches Element::Delete { position: p2, names: n2 } && p2 == position && n2 == *names,
        old(valstack)@.len() > 0,
        vstack_wf(old(valstack)@),
    ensures
        final(valstack)@.len() == old(valstack)@.len(),
        vstack_wf(final(valstack)@),
        r matches Ok(v) ==> val_v_wf(v@),
        match spec_delete_names(
            names@.map_values(|n: String| n@),
            0,
            vstack_view(old(valstack)@),
            position@,
        ) {
            Ok(vs2) => r matches Ok(val) && val@ is NullV && vstack_view(final(valstack)@) == vs2,
            Err(ev) => r matches Err(er) && er@ == ev,
        },
{
    let ghost nv = names@.map_values(|n: String| n@);
    let ghost vs0 = vstack_view(old(valstack)@);
    let mut i: usize = 0;
    while i < names.len()
        invariant
            0 <= i <= names@.len(),
            nv == names@.map_values(|n: String| n@),
            nv.len() == names@.len(),
            vs0 == vstack_view(old(valstack)@),
            old(valstack)@.len() > 0,
            valstack@.len() == old(valstack)@.len(),
            vstack_wf(valstack@),
            spec_delete_names(nv, 0, vs0, position@) == spec_delete_names(
                nv,
                i as int,
                vstack_view(valstack@),
                position@,
            ),
        decreases names@.len() - i,
    {
        proof {
            lemma_vstack_wf_delete(valstack@, names@[i as int]@);
            lemma_vstack_view_delete(valstack@, names@[i as int]@);
            lemma_vstack_find(valstack@, names@[i as int]@);
        }
        match valstack.delete_val(&names[i], position) {
            Ok(()) => {},
            Err(er) => {
                return Err(er);
            },
        }
        i += 1;
    }
    Ok(Value::Null)
}

/// An `If` takes the first arm whose condition is the trailing `else` or
/// evaluates to true, and runs its body in a fresh frame.
#[verifier::rlimit(100)]
fn eval_if(
    conditions: &Vec<crate::element::Condition>,
    valstack: &mut Varstack<Value>,
    fuel: u64,
    Ghost(e0): Ghost<Element>,
) -> (r: Result<Value, ZyxtError>)
    requires
        e0 matches Element::If { conditions: c2, .. } && c2 == *conditions,
        elem_checkable(e0@),
        old(valstack)@.len() > 0,
        vstack_wf(old(valstack)@),
    ensures
        final(valstack)@.len() == old(valstack)@.len(),
        vstack_wf(final(valstack)@),
        r matches Ok(v) ==> val_v_wf(v@),
        match spec_eval_if_node(e0@, vstack_view(old(valstack)@), fuel as nat) {
            Ok(p) => r matches Ok(val) && val@ == p.0 && vstack_view(final(valstack)@) == p.1,
            Err(ev) => r matches Err(er) && er@ == ev,
        },
    decreases fuel, e0, 1int, 0int,
{
    let ghost cv = conds_view(conditions@);
    let ghost vs0 = vstack_view(old(valstack)@);
    proof {
        lemma_conds_view(conditions@);
    }
    let mut i: usize = 0;
    while i < conditions.len()
        invariant
            0 <= i <= conditions@.len(),
            e0 matches Element::If { conditions: c2, .. } && c2 == *conditions,
            elem_checkable(e0@),
            cv == conds_view(conditions@),
            cv.len() == conditions@.len(),
            vs0 == vstack_view(old(valstack)@),
            old(valstack)@.len() > 0,
            valstack@.len() == old(valstack)@.len(),
            vstack_wf(valstack@),
            spec_eval_arms(cv, 0, vs0, fuel as nat) == spec_eval_arms(
                cv,
                i as int,
                vstack_view(valstack@),
                fuel as nat,
            ),
        decreases conditions@.len() - i,
    {
        proof {
            lemma_conds_view(conditions@);
            lemma_conds_checkable_index(cv, i as int);
            assert(cv[i as int] == crate::element::cond_view(conditions@[i as int]));
            assert(decreases_to!(e0 => conditions@[i as int].condition));
            assert(decreases_to!(e0 => conditions@[i as int].if_true));
        }
        let arm = &conditions[i];
        let taken: bool = match &arm.condition {
            Element::NullElement => true,
            c => {
                let cv_val = match eval(c, valstack, fuel) {
                    Ok(v) => v,
                    Err(er) => {
                        return Err(er);
                    },
                };
                match cv_val {
                    Value::Bool(b) => b,
                    _ => false,
                }
            },
        };
        if taken {
            let ghost pre_add = valstack@;
            valstack.add_set();
            proof {
                lemma_vstack_wf_add(pre_add);
                lemma_vstack_view_add(pre_add);
            }
            match eval_stmts(&arm.if_true, valstack, fuel) {
                Ok(v) => {
                    let ghost pre = valstack@;
                    proof {
                        lemma_vstack_wf_pop(pre);
                    }
                    valstack.pop_set();
                    proof {
                        lemma_vstack_view_pop(pre);
                    }
                    return Ok(v);
                },
                Err(er) => {
                    let ghost pre = valstack@;
                    proof {
                        lemma_vstack_wf_pop(pre);
                    }
                    valstack.pop_set();
                    return Err(er);
                },
            }
        }
        i += 1;
    }
    Ok(Value::Null)
}

/// A unary operator applies the algebra; a failure is error 4.1.1.
fn eval_unary(
    position: &Position,
    type_: &OprType,
    operand: &Box<Element>,
    valstack: &mut Varstack<Value>,
    fuel: u64,
    Ghost(e0): Ghost<Element>,
) -> (r: Result<Value, ZyxtError>)
    requires
        e0 matches Element::UnaryOpr { position: p2, type_: t2, operand: o2 } && p2 == position
            && t2 == type_ && o2 == *operand,
        elem_checkable(e0@),
        old(valstack)@.len() > 0,
        vstack_wf(old(valstack)@),
    ensures
        final(valstack)@.len() == old(valstack)@.len(),
        vstack_wf(final(valstack)@),
        r matches Ok(v) ==> val_v_wf(v@),
        match spec_eval_unary(e0@, vstack_view(old(valstack)@), fuel as nat) {
            Ok(p) => r matches Ok(val) && val@ == p.0 && vstack_view(final(valstack)@) == p.1,
            Err(ev) => r matches Err(er) && er@ == ev,
        },
    decreases fuel, e0, 1int, 0int,
{
    proof {
        assert(decreases_to!(e0 => **operand));
    }
    let v = match eval(&**operand, valstack, fuel) {
        Ok(v) => v,
        Err(er) => {
            return Err(er);
        },
    };
    match v.un_opr(type_) {
        Ok(res) => Ok(res),
        Err(_) => Err(error_4_1_1(type_.symbol().to_owned(), v).at(position)),
    }
}

/// A binary operator evaluates both operands and applies the algebra; a
/// failure is error 4.1.0.
fn eval_binary(
    position: &Position,
    type_: &OprType,
    operand1: &Box<Element>,
    operand2: &Box<Element>,
    valstack: &mut Varstack<Value>,
    fuel: u64,
    Ghost(e0): Ghost<Element>,
) -> (r: Result<Value, ZyxtError>)
    requires
        e0 matches Element::BinaryOpr { position: p2, type_: t2, operand1: a2, operand2: b2 } && p2
            == position && t2 == type_ && a2 == *operand1 && b2 == *operand2,
        elem_checkable(e0@),
        old(valstack)@.len() > 0,
        vstack_wf(old(valstack)@),
    ensures
        final(valstack)@.len() == old(valstack)@.len(),
        vstack_wf(final(valstack)@),
        r matches Ok(v) ==> val_v_wf(v@),
        match spec_eval_binary(e0@, vstack_view(old(valstack)@), fuel as nat) {
            Ok(p) => r matches Ok(val) && val@ == p.0 && vstack_view(final(valstack)@) == p.1,
            Err(ev) => r matches Err(er) && er@ == ev,
        },
    decreases fuel, e0, 1int, 0int,
{
    proof {
        assert(decreases_to!(e0 => **operand1));
        assert(decreases_to!(e0 => **operand2));
    }
    let a = match eval(&**operand1, valstack, fuel) {
        Ok(v) => v,
        Err(er) => {
            return Err(er);
        },
    };
    let b = match eval(&**operand2, valstack, fuel) {
        Ok(v) => v,
        Err(er) => {
            return Err(er);
        },
    };
    let bd = b.duplicate();
    match a.bin_opr(type_, b) {
        Ok(res) => Ok(res),
        Err(_) => Err(error_4_1_0(type_.symbol().to_owned(), a, bd).at(position)),
    }
}



/// Picks the value for one parameter: positional, then keyword, then the
/// parameter's default on a decremented budget.
#[verifier::rlimit(100)]
fn pick_param(
    params: &Vec<Argument>,
    argvals: &Vec<Value>,
    kwvals: &Vec<(String, Value)>,
    i: usize,
    position: &Position,
    valstack: &mut Varstack<Value>,
    fuel: u64,
    Ghost(e0): Ghost<Element>,
) -> (r: Result<Value, ZyxtError>)
    requires
        i < params@.len(),
        fuel >= 1,
        args_checkable(args_view(params@)),
        forall|k: int| 0 <= k < argvals@.len() ==> val_v_wf(#[trigger] argvals@[k]@),
        forall|k: int| 0 <= k < kwvals@.len() ==> val_v_wf(#[trigger] kwvals@[k].1@),
        old(valstack)@.len() > 0,
        vstack_wf(old(valstack)@),
    ensures
        final(valstack)@.len() == old(valstack)@.len(),
        vstack_wf(final(valstack)@),
        match spec_pick(
            e0@,
            args_view(params@),
            values_view(argvals@),
            bindings_view(kwvals@),
            i as int,
            vstack_view(old(valstack)@),
            fuel as nat,
            position@,
        ) {
            Ok(p) => r matches Ok(v) && v@ == p.0 && vstack_view(final(valstack)@) == p.1
                && val_v_wf(v@),
            Err(ev) => r matches Err(er) && er@ == ev,
        },
    decreases fuel, e0, 0int, 0int,
{
    let ghost pv = args_view(params@);
    let ghost avs = values_view(argvals@);
    let ghost kvs = bindings_view(kwvals@);
    let ghost vs_i = vstack_view(old(valstack)@);
    proof {
        lemma_args_view(params@);
        lemma_values_view(argvals@);
        assert(pv[i as int] == crate::element::arg_view(params@[i as int]));
    }
    if i < argvals.len() {
        proof {
            lemma_pick_positional(e0@, pv, avs, kvs, i as int, vs_i, fuel as nat, position@);
        }
        Ok(argvals[i].duplicate())
    } else {
        match find_kw(kwvals, &params[i].name) {
            Some(v) => {
                proof {
                    lemma_pick_keyword(e0@, pv, avs, kvs, i as int, vs_i, fuel as nat, position@);
                }
                Ok(v)
            },
            None => match &params[i].default {
                Some(d) => {
                    proof {
                        lemma_args_checkable_index(pv, i as int);
                        assert(pv[i as int].default matches Some(dd) && *dd == d@);
                        lemma_pick_default(
                            e0@,
                            pv,
                            avs,
                            kvs,
                            i as int,
                            vs_i,
                            fuel as nat,
                            position@,
                        );
                    }
                    eval(d, valstack, (fuel - 1) as u64)
                },
                None => {
                    proof {
                        lemma_pick_missing(
                            e0@,
                            pv,
                            avs,
                            kvs,
                            i as int,
                            vs_i,
                            fuel as nat,
                            position@,
                        );
                    }
                    Err(error_2_3("proc".to_owned(), i).at(position))
                },
            },
        }
    }
}

/// Binds a procedure's parameters from index `i` on.
#[verifier::rlimit(100)]
fn bind_params(
    params: &Vec<Argument>,
    argvals: &Vec<Value>,
    kwvals: &Vec<(String, Value)>,
    i: usize,
    position: &Position,
    valstack: &mut Varstack<Value>,
    fuel: u64,
    Ghost(e0): Ghost<Element>,
) -> (r: Result<Vec<(String, Value)>, ZyxtError>)
    requires
        i <= params@.len(),
        fuel >= 1,
        args_checkable(args_view(params@)),
        forall|k: int| 0 <= k < argvals@.len() ==> val_v_wf(#[trigger] argvals@[k]@),
        forall|k: int| 0 <= k < kwvals@.len() ==> val_v_wf(#[trigger] kwvals@[k].1@),
        old(valstack)@.len() > 0,
        vstack_wf(old(valstack)@),
    ensures
        final(valstack)@.len() == old(valstack)@.len(),
        vstack_wf(final(valstack)@),
        match spec_bind(
            e0@,
            args_view(params@),
            values_view(argvals@),
            bindings_view(kwvals@),
            i as int,
            vstack_view(old(valstack)@),
            fuel as nat,
            position@,
        ) {
            Ok(p) => r matches Ok(b) && bindings_view(b@) == p.0 && vstack_view(final(valstack)@)
                == p.1 && (forall|k: int| 0 <= k < b@.len() ==> val_v_wf(#[trigger] b@[k].1@)),
            Err(ev) => r matches Err(er) && er@ == ev,
        },
    decreases fuel, e0, 0int, params@.len() - i,
{
    let ghost pv = args_view(params@);
    let ghost avs = values_view(argvals@);
    let ghost kvs = bindings_view(kwvals@);
    let ghost vs_i = vstack_view(old(valstack)@);
    if i >= params.len() {
        proof {
            lemma_args_view(params@);
            lemma_bind_base(e0@, pv, avs, kvs, i as int, vs_i, fuel as nat, position@);
        }
        let out: Vec<(String, Value)> = Vec::new();
        proof {
            assert(bindings_view(out@) =~= Seq::<(Seq<char>, ValueV)>::empty());
        }
        return Ok(out);
    }
    proof {
        lemma_args_view(params@);
        lemma_bind_step(e0@, pv, avs, kvs, i as int, vs_i, fuel as nat, position@);
    }
    let v = match pick_param(params, argvals, kwvals, i, position, valstack, fuel, Ghost(e0)) {
        Ok(v) => v,
        Err(er) => {
            return Err(er);
        },
    };
    let rest = match bind_params(params, argvals, kwvals, i + 1, position, valstack, fuel, Ghost(e0)) {
        Ok(b) => b,
        Err(er) => {
            return Err(er);
        },
    };
    let ghost rest_view = bindings_view(rest@);
    let mut out = rest;
    out.insert(0, (params[i].name.clone(), v));
    proof {
        assert(bindings_view(out@) =~= seq![(pv[i as int].name, out@[0].1@)].add(rest_view));
    }
    Ok(out)
}

/// Applies a procedure value: parameters bind (positional, keyword, then
/// default), a fresh frame holds the bindings, and the body runs on a
/// decremented budget; a trailing `Return` sentinel unwraps.
#[verifier::rlimit(100)]
fn apply_proc(
    params: &Vec<Argument>,
    content: &Vec<Element>,
    argvals: &Vec<Value>,
    kwvals: &Vec<(String, Value)>,
    position: &Position,
    valstack: &mut Varstack<Value>,
    fuel: u64,
    Ghost(e0): Ghost<Element>,
) -> (r: Result<Value, ZyxtError>)
    requires
        fuel >= 1,
        args_checkable(args_view(params@)),
        elems_checkable(elems_view(content@)),
        argvals@.len() <= params@.len(),
        forall|k: int| 0 <= k < argvals@.len() ==> val_v_wf(#[trigger] argvals@[k]@),
        forall|k: int| 0 <= k < kwvals@.len() ==> val_v_wf(#[trigger] kwvals@[k].1@),
        old(valstack)@.len() > 0,
        vstack_wf(old(valstack)@),
    ensures
        final(valstack)@.len() == old(valstack)@.len(),
        vstack_wf(final(valstack)@),
        r matches Ok(v) ==> val_v_wf(v@),
        match spec_apply(
            e0@,
            args_view(params@),
            elems_view(content@),
            values_view(argvals@),
            bindings_view(kwvals@),
            vstack_view(old(valstack)@),
            fuel as nat,
            position@,
        ) {
            Ok(p) => r matches Ok(val) && val@ == p.0 && vstack_view(final(valstack)@) == p.1,
            Err(ev) => r matches Err(er) && er@ == ev,
        },
    decreases fuel, e0, 1int, 0int,
{
    let ghost pv = args_view(params@);
    let ghost avs = values_view(argvals@);
    let ghost kvs = bindings_view(kwvals@);
    let ghost vs3 = vstack_view(old(valstack)@);
    proof {
        lemma_args_view(params@);
        lemma_values_view(argvals@);
    }
    let bindings = match bind_params(params, argvals, kwvals, 0, position, valstack, fuel, Ghost(e0)) {
        Ok(b) => b,
        Err(er) => {
            return Err(er);
        },
    };
    let ghost bound_spec = spec_bind(e0@, pv, avs, kvs, 0, vs3, fuel as nat, position@);
    // a fresh frame holds the bindings
    let ghost vs4 = vstack_view(valstack@);
    let ghost pre_add = valstack@;
    valstack.add_set();
    proof {
        lemma_vstack_wf_add(pre_add);
        lemma_vstack_view_add(pre_add);
    }
    let ghost bv = bindings_view(bindings@);
    let mut bi: usize = 0;
    while bi < bindings.len()
        invariant
            0 <= bi <= bindings@.len(),
            bv == bindings_view(bindings@),
            bv.len() == bindings@.len(),
            fuel >= 1,
            old(valstack)@.len() > 0,
            valstack@.len() == old(valstack)@.len() + 1,
            vstack_wf(valstack@),
            elems_checkable(elems_view(content@)),
            forall|k: int| 0 <= k < bindings@.len() ==> val_v_wf(#[trigger] bindings@[k].1@),
            spec_declare_bindings(vstack_view(valstack@), bv, bi as int) == spec_declare_bindings(
                stack_add(vs4),
                bv,
                0,
            ),
        decreases bindings@.len() - bi,
    {
        let bval = bindings[bi].1.duplicate();
        proof {
            lemma_vstack_wf_declare(valstack@, bindings@[bi as int].0@, bval);
            lemma_vstack_view_declare(valstack@, bindings@[bi as int].0@, bval);
        }
        valstack.declare_val(&bindings[bi].0, bval);
        bi += 1;
    }
    proof {
        assert(spec_declare_bindings(vstack_view(valstack@), bv, bv.len() as int) == vstack_view(
            valstack@,
        ));
    }
    let out = match eval_stmts(content, valstack, (fuel - 1) as u64) {
        Ok(v) => v,
        Err(er) => {
            let ghost pre = valstack@;
            proof {
                lemma_vstack_wf_pop(pre);
            }
            valstack.pop_set();
            return Err(er);
        },
    };
    let ghost pre = valstack@;
    proof {
        lemma_vstack_wf_pop(pre);
    }
    valstack.pop_set();
    proof {
        lemma_vstack_view_pop(pre);
    }
    // a Return sentinel unwraps as the call's result
    match out {
        Value::Return(v) => Ok(*v),
        other => Ok(other),
    }
}


/// Evaluates a call's positional arguments from index `i` on.
#[verifier::rlimit(100)]
fn eval_args(
    args: &Vec<Element>,
    i: usize,
    valstack: &mut Varstack<Value>,
    fuel: u64,
    Ghost(e0): Ghost<Element>,
) -> (r: Result<Vec<Value>, ZyxtError>)
    requires
        i <= args@.len(),
        e0 matches Element::Call { args: a2, .. } && a2 == *args,
        elem_checkable(e0@),
        old(valstack)@.len() > 0,
        vstack_wf(old(valstack)@),
    ensures
        final(valstack)@.len() == old(valstack)@.len(),
        vstack_wf(final(valstack)@),
        match spec_eval_list(
            elems_view(args@),
            i as int,
            vstack_view(old(valstack)@),
            fuel as nat,
        ) {
            Ok(p) => r matches Ok(vals) && values_view(vals@) == p.0 && vstack_view(
                final(valstack)@,
            ) == p.1 && (forall|k: int| 0 <= k < vals@.len() ==> val_v_wf(#[trigger] vals@[k]@)),
            Err(ev) => r matches Err(er) && er@ == ev,
        },
    decreases fuel, e0, 0int, args@.len() - i,
{
    let ghost av_seq = elems_view(args@);
    proof {
        lemma_elems_view(args@);
    }
    if i >= args.len() {
        let out: Vec<Value> = Vec::new();
        proof {
            lemma_values_view(out@);
            assert(values_view(out@) =~= Seq::<ValueV>::empty());
        }
        return Ok(out);
    }
    proof {
        assert(elems_checkable(av_seq));
        lemma_elems_checkable_index(av_seq, i as int);
        lemma_list_step(av_seq, i as int, vstack_view(valstack@), fuel as nat);
        assert(decreases_to!(e0 => args@[i as int]));
    }
    let v = match eval(&args[i], valstack, fuel) {
        Ok(v) => v,
        Err(er) => {
            return Err(er);
        },
    };
    let rest = match eval_args(args, i + 1, valstack, fuel, Ghost(e0)) {
        Ok(vs) => vs,
        Err(er) => {
            return Err(er);
        },
    };
    let ghost rest_view = values_view(rest@);
    proof {
        lemma_values_view(rest@);
    }
    let mut out = rest;
    out.insert(0, v);
    proof {
        lemma_values_view(out@);
        assert(values_view(out@) =~= seq![out@[0]@].add(rest_view));
    }
    Ok(out)
}

/// Evaluates a call's keyword arguments from index `i` on.
#[verifier::rlimit(100)]
fn eval_kwargs(
    kwargs: &Vec<(String, Element)>,
    i: usize,
    valstack: &mut Varstack<Value>,
    fuel: u64,
    Ghost(e0): Ghost<Element>,
) -> (r: Result<Vec<(String, Value)>, ZyxtError>)
    requires
        i <= kwargs@.len(),
        e0 matches Element::Call { kwargs: k2, .. } && k2 == *kwargs,
        elem_checkable(e0@),
        old(valstack)@.len() > 0,
        vstack_wf(old(valstack)@),
    ensures
        final(valstack)@.len() == old(valstack)@.len(),
        vstack_wf(final(valstack)@),
        match spec_eval_kwlist(
            kwargs_view(kwargs@),
            i as int,
            vstack_view(old(valstack)@),
            fuel as nat,
        ) {
            Ok(p) => r matches Ok(vals) && bindings_view(vals@) == p.0 && vstack_view(
                final(valstack)@,
            ) == p.1 && (forall|k: int| 0 <= k < vals@.len() ==> val_v_wf(#[trigger] vals@[k].1@)),
            Err(ev) => r matches Err(er) && er@ == ev,
        },
    decreases fuel, e0, 0int, kwargs@.len() - i,
{
    let ghost kw_seq = kwargs_view(kwargs@);
    proof {
        lemma_kwargs_view(kwargs@);
    }
    if i >= kwargs.len() {
        let out: Vec<(String, Value)> = Vec::new();
        proof {
            assert(bindings_view(out@) =~= Seq::<(Seq<char>, ValueV)>::empty());
        }
        return Ok(out);
    }
    proof {
        assert(kwargs_checkable(kw_seq));
        lemma_kwargs_checkable_index(kw_seq, i as int);
        lemma_kwlist_step(kw_seq, i as int, vstack_view(valstack@), fuel as nat);
        assert(kw_seq[i as int] == (kwargs@[i as int].0@, crate::element::elem_view(
            kwargs@[i as int].1,
        )));
        assert(decreases_to!(e0 => kwargs@[i as int].1));
    }
    let v = match eval(&kwargs[i].1, valstack, fuel) {
        Ok(v) => v,
        Err(er) => {
            return Err(er);
        },
    };
    let rest = match eval_kwargs(kwargs, i + 1, valstack, fuel, Ghost(e0)) {
        Ok(vs) => vs,
        Err(er) => {
            return Err(er);
        },
    };
    let ghost rest_view = bindings_view(rest@);
    let mut out = rest;
    out.insert(0, (kwargs[i].0.clone(), v));
    proof {
        assert(bindings_view(out@) =~= seq![(out@[0].0@, out@[0].1@)].add(rest_view));
    }
    Ok(out)
}

/// Calls a value: the callee and arguments evaluate left to right; a
/// procedure binds its parameters in a fresh frame and runs its body on a
/// decremented budget; a primitive multiplies by its one numeric argument.
#[verifier::rlimit(100)]
fn eval_call(
    position: &Position,
    called: &Box<Element>,
    args: &Vec<Element>,
    kwargs: &Vec<(String, Element)>,
    valstack: &mut Varstack<Value>,
    fuel: u64,
    Ghost(e0): Ghost<Element>,
) -> (r: Result<Value, ZyxtError>)
    requires
        e0 matches Element::Call { position: p2, called: c2, args: a2, kwargs: k2 } && p2
            == position && c2 == called && a2 == *args && k2 == *kwargs,
        elem_checkable(e0@),
        old(valstack)@.len() > 0,
        vstack_wf(old(valstack)@),
    ensures
        final(valstack)@.len() == old(valstack)@.len(),
        vstack_wf(final(valstack)@),
        r matches Ok(v) ==> val_v_wf(v@),
        match spec_eval_call(e0@, vstack_view(old(valstack)@), fuel as nat) {
            Ok(p) => r matches Ok(val) && val@ == p.0 && vstack_view(final(valstack)@) == p.1,
            Err(ev) => r matches Err(er) && er@ == ev,
        },
    decreases fuel, e0, 1int, 1int,
{
    proof {
        assert(decreases_to!(e0 => **called));
    }
    let f = match eval(&**called, valstack, fuel) {
        Ok(v) => v,
        Err(er) => {
            return Err(er);
        },
    };
    // positional and keyword arguments, left to right
    let argvals = match eval_args(args, 0, valstack, fuel, Ghost(e0)) {
        Ok(v) => v,
        Err(er) => {
            return Err(er);
        },
    };
    let kwvals = match eval_kwargs(kwargs, 0, valstack, fuel, Ghost(e0)) {
        Ok(v) => v,
        Err(er) => {
            return Err(er);
        },
    };
    let ghost avs = values_view(argvals@);
    let ghost kvs = bindings_view(kwvals@);
    let stripped = strip_returns(f);
    proof {
        lemma_unwrap_wf(stripped@);
        lemma_values_view(argvals@);
    }
    match stripped {
        Value::Proc { args: params, content, .. } => {
            if fuel == 0 {
                return Err(error_0_0("the evaluation budget is spent".to_owned()).at(position));
            }
            if argvals.len() > params.len() {
                proof {
                    lemma_args_view(params@);
                }
                return Err(error_2_3("proc".to_owned(), params.len()).at(position));
            }
            proof {
                lemma_args_view(params@);
            }
            apply_proc(&params, &content, &argvals, &kwvals, position, valstack, fuel, Ghost(e0))
        },
        Value::Type(..) | Value::ClassInstance { .. } => Err(
            error_0_0("a type or class instance cannot be called here".to_owned()).at(position),
        ),
        prim => {
            let first = if argvals.len() >= 1 {
                argvals[0].duplicate()
            } else {
                Value::Null
            };
            let pd = prim.duplicate();
            match prim.call(argvals) {
                Ok(v) => Ok(v),
                Err(_) => Err(
                    error_4_1_0(OprType::AstMult.symbol().to_owned(), pd, first).at(position),
                ),
            }
        },
    }
}

/// Runs a program: its statements evaluate in a fresh scope, and a
/// trailing `Return` sentinel unwraps into the program's final value.
pub fn interpret(program: &Vec<Element>, fuel: u64) -> (r: Result<Value, ZyxtError>)
    requires
        elems_checkable(elems_view(program@)),
    ensures
        r matches Ok(v) ==> val_v_wf(v@),
        match spec_eval_stmts(
            elems_view(program@),
            0,
            seq![Seq::<(Seq<char>, ValueV)>::empty()],
            fuel as nat,
        ) {
            Ok(p) => r matches Ok(val) && val@ == (match p.0 {
                ValueV::ReturnV { inner } => *inner,
                other => other,
            }),
            Err(ev) => r matches Err(er) && er@ == ev,
        },
{
    let mut valstack: Varstack<Value> = Varstack::new();
    proof {
        assert(vstack_wf(valstack@));
        assert(vstack_view(valstack@) =~~= seq![Seq::<(Seq<char>, ValueV)>::empty()]);
    }
    let out = match eval_stmts(program, &mut valstack, fuel) {
        Ok(v) => v,
        Err(er) => {
            return Err(er);
        },
    };
    match out {
        Value::Return(v) => Ok(*v),
        other => Ok(other),
    }
}

} // verus!
