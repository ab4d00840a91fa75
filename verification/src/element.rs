//! The abstract syntax tree and the static typing pass over it.
use vstd::prelude::*;
use vstd::pervasive::unreached;
use crate::position::Position;
use crate::position::PosV;
use crate::token::Flag;
use crate::token::OprType;
use crate::token::Token;
use crate::token::TokenV;
use crate::typeobj::Type;
use crate::typeobj::TypeV;
use crate::typeobj::type_view;
use crate::typeobj::types_view;
use crate::typeobj::type_render;
use crate::typeobj::prim_type;
use crate::typeobj::null_type;
use crate::position::synthetic_pos;
use crate::errors::ZyxtError;
use crate::errors::ZyxtErrorV;
use crate::errors::err_internal;
use crate::errors::err_3_0_at;
use crate::errors::err_4_0_0_at;
use crate::errors::err_4_0_1_at;
use crate::varstack::Varstack;
use crate::value::Value;
use crate::varstack::frame_find;
use crate::varstack::stack_add;
use crate::varstack::stack_declare;
use crate::varstack::stack_find;
use crate::varstack::stack_pop;

verus! {

/// One arm of an `If`: a condition and the statements it guards. A
/// condition that is `NullElement` stands for the trailing `else`.
#[derive(Debug)]
pub struct Condition {
    pub condition: Element,
    pub if_true: Vec<Element>,
}

/// A formal parameter of a procedure: a name, its type, and an optional
/// default expression.
#[derive(Debug)]
pub struct Argument {
    pub name: String,
    pub type_: Type,
    pub default: Option<Element>,
}

/// An AST node. Every variant carries the source position it came from;
/// synthesised nodes borrow the position of their parent.
#[derive(Debug)]
pub enum Element {
    Comment { position: Position, content: String },
    Call {
        position: Position,
        called: Box<Element>,
        args: Vec<Element>,
        kwargs: Vec<(String, Element)>,
    },
    UnaryOpr { position: Position, type_: OprType, operand: Box<Element> },
    BinaryOpr {
        position: Position,
        type_: OprType,
        operand1: Box<Element>,
        operand2: Box<Element>,
    },
    Declare {
        position: Position,
        variable: Box<Element>,
        content: Box<Element>,
        flags: Vec<Flag>,
        type_: Type,
    },
    Assign { position: Position, variable: Box<Element>, content: Box<Element> },
    Literal { position: Position, type_: Type, content: String },
    Variable { position: Position, name: String, parent: Box<Element> },
    If { position: Position, conditions: Vec<Condition> },
    Block { position: Position, content: Vec<Element> },
    Delete { position: Position, names: Vec<String> },
    Return { position: Position, value: Box<Element> },
    Procedure {
        position: Position,
        is_fn: bool,
        args: Vec<Argument>,
        return_type: Type,
        content: Vec<Element>,
    },
    NullElement,
    Token(Token),
}

/// Mathematical image of a `Condition`.
pub struct ConditionV {
    pub condition: Box<ElementV>,
    pub if_true: Seq<ElementV>,
}

/// Mathematical image of an `Argument`.
pub struct ArgumentV {
    pub name: Seq<char>,
    pub type_: TypeV,
    pub default: Option<Box<ElementV>>,
}

/// Mathematical image of an `Element`.
pub enum ElementV {
    CommentV { position: PosV, content: Seq<char> },
    CallV {
        position: PosV,
        called: Box<ElementV>,
        args: Seq<ElementV>,
        kwargs: Seq<(Seq<char>, ElementV)>,
    },
    UnaryOprV { position: PosV, type_: OprType, operand: Box<ElementV> },
    BinaryOprV {
        position: PosV,
        type_: OprType,
        operand1: Box<ElementV>,
        operand2: Box<ElementV>,
    },
    DeclareV {
        position: PosV,
        variable: Box<ElementV>,
        content: Box<ElementV>,
        flags: Seq<Flag>,
        type_: TypeV,
    },
    AssignV { position: PosV, variable: Box<ElementV>, content: Box<ElementV> },
    LiteralV { position: PosV, type_: TypeV, content: Seq<char> },
    VariableV { position: PosV, name: Seq<char>, parent: Box<ElementV> },
    IfV { position: PosV, conditions: Seq<ConditionV> },
    BlockV { position: PosV, content: Seq<ElementV> },
    DeleteV { position: PosV, names: Seq<Seq<char>> },
    ReturnV { position: PosV, value: Box<ElementV> },
    ProcedureV {
        position: PosV,
        is_fn: bool,
        args: Seq<ArgumentV>,
        return_type: TypeV,
        content: Seq<ElementV>,
    },
    NullElementV,
    TokenV_ { token: TokenV },
}

/// The image of an AST node.
pub open spec fn elem_view(e: Element) -> ElementV
    decreases e,
{
    match e {
        Element::Comment { position, content } => ElementV::CommentV {
            position: position@,
            content: content@,
        },
        Element::Call { position, called, args, kwargs } => ElementV::CallV {
            position: position@,
            called: Box::new(elem_view(*called)),
            args: elems_view(args@),
            kwargs: kwargs_view(kwargs@),
        },
        Element::UnaryOpr { position, type_, operand } => ElementV::UnaryOprV {
            position: position@,
            type_: type_,
            operand: Box::new(elem_view(*operand)),
        },
        Element::BinaryOpr { position, type_, operand1, operand2 } => ElementV::BinaryOprV {
            position: position@,
            type_: type_,
            operand1: Box::new(elem_view(*operand1)),
            operand2: Box::new(elem_view(*operand2)),
        },
        Element::Declare { position, variable, content, flags, type_ } => ElementV::DeclareV {
            position: position@,
            variable: Box::new(elem_view(*variable)),
            content: Box::new(elem_view(*content)),
            flags: flags@,
            type_: type_view(type_),
        },
        Element::Assign { position, variable, content } => ElementV::AssignV {
            position: position@,
            variable: Box::new(elem_view(*variable)),
            content: Box::new(elem_view(*content)),
        },
        Element::Literal { position, type_, content } => ElementV::LiteralV {
            position: position@,
            type_: type_view(type_),
            content: content@,
        },
        Element::Variable { position, name, parent } => ElementV::VariableV {
            position: position@,
            name: name@,
            parent: Box::new(elem_view(*parent)),
        },
        Element::If { position, conditions } => ElementV::IfV {
            position: position@,
            conditions: conds_view(conditions@),
        },
        Element::Block { position, content } => ElementV::BlockV {
            position: position@,
            content: elems_view(content@),
        },
        Element::Delete { position, names } => ElementV::DeleteV {
            position: position@,
            names: names@.map_values(|n: String| n@),
        },
        Element::Return { position, value } => ElementV::ReturnV {
            position: position@,
            value: Box::new(elem_view(*value)),
        },
        Element::Procedure { position, is_fn, args, return_type, content } => {
            ElementV::ProcedureV {
                position: position@,
                is_fn: is_fn,
                args: args_view(args@),
                return_type: type_view(return_type),
                content: elems_view(content@),
            }
        },
        Element::NullElement => ElementV::NullElementV,
        Element::Token(t) => ElementV::TokenV_ { token: t@ },
    }
}

/// The image of a sequence of AST nodes.
pub open spec fn elems_view(s: Seq<Element>) -> Seq<ElementV>
    decreases s,
{
    if s.len() == 0 {
        Seq::<ElementV>::empty()
    } else {
        elems_view(s.drop_last()).push(elem_view(s.last()))
    }
}

/// The image of a sequence of `If` arms.
pub open spec fn conds_view(s: Seq<Condition>) -> Seq<ConditionV>
    decreases s,
{
    if s.len() == 0 {
        Seq::<ConditionV>::empty()
    } else {
        conds_view(s.drop_last()).push(cond_view(s.last()))
    }
}

/// The image of one `If` arm.
pub open spec fn cond_view(c: Condition) -> ConditionV
    decreases c,
{
    ConditionV {
        condition: Box::new(elem_view(c.condition)),
        if_true: elems_view(c.if_true@),
    }
}

/// The image of a parameter list.
pub open spec fn args_view(s: Seq<Argument>) -> Seq<ArgumentV>
    decreases s,
{
    if s.len() == 0 {
        Seq::<ArgumentV>::empty()
    } else {
        args_view(s.drop_last()).push(arg_view(s.last()))
    }
}

/// The image of one parameter.
pub open spec fn arg_view(a: Argument) -> ArgumentV
    decreases a,
{
    ArgumentV {
        name: a.name@,
        type_: type_view(a.type_),
        default: match a.default {
            Some(d) => Some(Box::new(elem_view(d))),
            None => None,
        },
    }
}

/// The image of a keyword-argument list.
pub open spec fn kwargs_view(s: Seq<(String, Element)>) -> Seq<(Seq<char>, ElementV)>
    decreases s,
{
    if s.len() == 0 {
        Seq::<(Seq<char>, ElementV)>::empty()
    } else {
        kwargs_view(s.drop_last()).push((s.last().0@, elem_view(s.last().1)))
    }
}

impl View for Element {
    type V = ElementV;

    open spec fn view(&self) -> ElementV {
        elem_view(*self)
    }
}

impl View for Condition {
    type V = ConditionV;

    open spec fn view(&self) -> ConditionV {
        cond_view(*self)
    }
}

impl View for Argument {
    type V = ArgumentV;

    open spec fn view(&self) -> ArgumentV {
        arg_view(*self)
    }
}

pub proof fn lemma_elems_view(s: Seq<Element>)
    ensures
        elems_view(s).len() == s.len(),
        forall|j: int| 0 <= j < s.len() ==> elems_view(s)[j] == elem_view(s[j]),
    decreases s.len(),
{
    if s.len() > 0 {
        lemma_elems_view(s.drop_last());
    }
}

pub proof fn lemma_conds_view(s: Seq<Condition>)
    ensures
        conds_view(s).len() == s.len(),
        forall|j: int| 0 <= j < s.len() ==> conds_view(s)[j] == cond_view(s[j]),
    decreases s.len(),
{
    if s.len() > 0 {
        lemma_conds_view(s.drop_last());
    }
}

pub proof fn lemma_args_view(s: Seq<Argument>)
    ensures
        args_view(s).len() == s.len(),
        forall|j: int| 0 <= j < s.len() ==> args_view(s)[j] == arg_view(s[j]),
    decreases s.len(),
{
    if s.len() > 0 {
        lemma_args_view(s.drop_last());
    }
}

pub proof fn lemma_kwargs_view(s: Seq<(String, Element)>)
    ensures
        kwargs_view(s).len() == s.len(),
        forall|j: int| 0 <= j < s.len() ==> kwargs_view(s)[j] == (s[j].0@, elem_view(s[j].1)),
    decreases s.len(),
{
    if s.len() > 0 {
        lemma_kwargs_view(s.drop_last());
    }
}

/// The position a node's image carries; the null element has none and is
/// excluded where it matters.
pub open spec fn pos_of(e: ElementV) -> PosV {
    match e {
        ElementV::CommentV { position, .. } => position,
        ElementV::CallV { position, .. } => position,
        ElementV::UnaryOprV { position, .. } => position,
        ElementV::BinaryOprV { position, .. } => position,
        ElementV::DeclareV { position, .. } => position,
        ElementV::AssignV { position, .. } => position,
        ElementV::LiteralV { position, .. } => position,
        ElementV::VariableV { position, .. } => position,
        ElementV::IfV { position, .. } => position,
        ElementV::BlockV { position, .. } => position,
        ElementV::DeleteV { position, .. } => position,
        ElementV::ReturnV { position, .. } => position,
        ElementV::ProcedureV { position, .. } => position,
        ElementV::NullElementV => PosV { filename: Seq::<char>::empty(), line: 0, column: 0 },
        ElementV::TokenV_ { token } => token.position,
    }
}

impl Element {
    /// The source position of this node.
    pub fn get_pos(&self) -> (r: &Position)
        requires
            !(self@ is NullElementV),
        ensures
            r@ == pos_of(self@),
    {
        match self {
            Element::Token(Token { position, .. }) => position,
            Element::Variable { position, .. } => position,
            Element::Literal { position, .. } => position,
            Element::Comment { position, .. } => position,
            Element::Call { position, .. } => position,
            Element::UnaryOpr { position, .. } => position,
            Element::BinaryOpr { position, .. } => position,
            Element::Declare { position, .. } => position,
            Element::Assign { position, .. } => position,
            Element::If { position, .. } => position,
            Element::Block { position, .. } => position,
            Element::Delete { position, .. } => position,
            Element::Return { position, .. } => position,
            Element::Procedure { position, .. } => position,
            Element::NullElement => unreached(),
        }
    }

    /// The name of a `Variable` node.
    pub fn get_name(&self) -> (r: String)
        requires
            self@ is VariableV,
        ensures
            r@ == var_name_of(self@),
    {
        match self {
            Element::Variable { name, .. } => name.clone(),
            _ => unreached(),
        }
    }

    /// A copy standing for the same node.
    pub fn duplicate(&self) -> (r: Element)
        ensures
            r@ == self@,
        decreases *self, 1int,
    {
        match self {
            Element::Comment { position, content } => Element::Comment {
                position: position.duplicate(),
                content: content.clone(),
            },
            Element::Call { position, called, args, kwargs } => Element::Call {
                position: position.duplicate(),
                called: Box::new(called.duplicate()),
                args: dup_elements(args),
                kwargs: dup_kwargs(kwargs),
            },
            Element::UnaryOpr { position, type_, operand } => Element::UnaryOpr {
                position: position.duplicate(),
                type_: *type_,
                operand: Box::new(operand.duplicate()),
            },
            Element::BinaryOpr { position, type_, operand1, operand2 } => Element::BinaryOpr {
                position: position.duplicate(),
                type_: *type_,
                operand1: Box::new(operand1.duplicate()),
                operand2: Box::new(operand2.duplicate()),
            },
            Element::Declare { position, variable, content, flags, type_ } => Element::Declare {
                position: position.duplicate(),
                variable: Box::new(variable.duplicate()),
                content: Box::new(content.duplicate()),
                flags: flags.clone(),
                type_: type_.duplicate(),
            },
            Element::Assign { position, variable, content } => Element::Assign {
                position: position.duplicate(),
                variable: Box::new(variable.duplicate()),
                content: Box::new(content.duplicate()),
            },
            Element::Literal { position, type_, content } => Element::Literal {
                position: position.duplicate(),
                type_: type_.duplicate(),
                content: content.clone(),
            },
            Element::Variable { position, name, parent } => Element::Variable {
                position: position.duplicate(),
                name: name.clone(),
                parent: Box::new(parent.duplicate()),
            },
            Element::If { position, conditions } => Element::If {
                position: position.duplicate(),
                conditions: dup_conditions(conditions),
            },
            Element::Block { position, content } => Element::Block {
                position: position.duplicate(),
                content: dup_elements(content),
            },
            Element::Delete { position, names } => {
                let r = Element::Delete { position: position.duplicate(), names: dup_names(names) };
                proof {
                    assert(r@ matches ElementV::DeleteV { names: n, .. } && n
                        =~= self@->DeleteV_names);
                }
                r
            },
            Element::Return { position, value } => Element::Return {
                position: position.duplicate(),
                value: Box::new(value.duplicate()),
            },
            Element::Procedure { position, is_fn, args, return_type, content } => {
                Element::Procedure {
                    position: position.duplicate(),
                    is_fn: *is_fn,
                    args: dup_arguments(args),
                    return_type: return_type.duplicate(),
                    content: dup_elements(content),
                }
            },
            Element::NullElement => Element::NullElement,
            Element::Token(t) => Element::Token(t.duplicate()),
        }
    }
}

/// The name carried by the image of a `Variable` node.
pub open spec fn var_name_of(e: ElementV) -> Seq<char> {
    match e {
        ElementV::VariableV { name, .. } => name,
        _ => Seq::<char>::empty(),
    }
}

/// A copy of a node list standing for the same nodes.
pub fn dup_elements(v: &Vec<Element>) -> (r: Vec<Element>)
    ensures
        elems_view(r@) == elems_view(v@),
    decreases *v, 0int,
{
    let mut r: Vec<Element> = Vec::new();
    let mut i: usize = 0;
    while i < v.len()
        invariant
            0 <= i <= v@.len(),
            r@.len() == i,
            elems_view(r@) == elems_view(v@.take(i as int)),
        decreases v@.len() - i,
    {
        proof {
            assert(decreases_to!(*v => v@[i as int]));
        }
        let d = v[i].duplicate();
        proof {
            let prev = r@;
            assert(v@.take(i + 1).drop_last() =~= v@.take(i as int));
            assert(v@.take(i + 1).last() == v@[i as int]);
            assert(prev.push(d).drop_last() =~= prev);
        }
        r.push(d);
        i += 1;
    }
    proof {
        assert(v@.take(v@.len() as int) =~= v@);
    }
    r
}

/// A copy of the arms of an `If`.
pub fn dup_conditions(v: &Vec<Condition>) -> (r: Vec<Condition>)
    ensures
        conds_view(r@) == conds_view(v@),
    decreases *v, 0int,
{
    let mut r: Vec<Condition> = Vec::new();
    let mut i: usize = 0;
    while i < v.len()
        invariant
            0 <= i <= v@.len(),
            r@.len() == i,
            conds_view(r@) == conds_view(v@.take(i as int)),
        decreases v@.len() - i,
    {
        proof {
            assert(decreases_to!(*v => v@[i as int].condition));
            assert(decreases_to!(*v => v@[i as int].if_true));
        }
        let c = Condition {
            condition: v[i].condition.duplicate(),
            if_true: dup_elements(&v[i].if_true),
        };
        proof {
            let prev = r@;
            assert(cond_view(c) == cond_view(v@[i as int]));
            assert(v@.take(i + 1).drop_last() =~= v@.take(i as int));
            assert(v@.take(i + 1).last() == v@[i as int]);
            assert(prev.push(c).drop_last() =~= prev);
        }
        r.push(c);
        i += 1;
    }
    proof {
        assert(v@.take(v@.len() as int) =~= v@);
    }
    r
}

/// A copy of a parameter list.
pub fn dup_arguments(v: &Vec<Argument>) -> (r: Vec<Argument>)
    ensures
        args_view(r@) == args_view(v@),
    decreases *v, 0int,
{
    let mut r: Vec<Argument> = Vec::new();
    let mut i: usize = 0;
    while i < v.len()
        invariant
            0 <= i <= v@.len(),
            r@.len() == i,
            args_view(r@) == args_view(v@.take(i as int)),
        decreases v@.len() - i,
    {
        let default = match &v[i].default {
            Some(d) => {
                proof {
                    assert(decreases_to!(*v => v@[i as int].default->Some_0));
                }
                Some(d.duplicate())
            },
            None => None,
        };
        let a = Argument { name: v[i].name.clone(), type_: v[i].type_.duplicate(), default };
        proof {
            let prev = r@;
            assert(arg_view(a) == arg_view(v@[i as int]));
            assert(v@.take(i + 1).drop_last() =~= v@.take(i as int));
            assert(v@.take(i + 1).last() == v@[i as int]);
            assert(prev.push(a).drop_last() =~= prev);
        }
        r.push(a);
        i += 1;
    }
    proof {
        assert(v@.take(v@.len() as int) =~= v@);
    }
    r
}

/// A copy of a keyword-argument list.
pub fn dup_kwargs(v: &Vec<(String, Element)>) -> (r: Vec<(String, Element)>)
    ensures
        kwargs_view(r@) == kwargs_view(v@),
    decreases *v, 0int,
{
    let mut r: Vec<(String, Element)> = Vec::new();
    let mut i: usize = 0;
    while i < v.len()
        invariant
            0 <= i <= v@.len(),
            r@.len() == i,
            kwargs_view(r@) == kwargs_view(v@.take(i as int)),
        decreases v@.len() - i,
    {
        proof {
            assert(decreases_to!(*v => v@[i as int].1));
        }
        let p = (v[i].0.clone(), v[i].1.duplicate());
        proof {
            let prev = r@;
            assert(v@.take(i + 1).drop_last() =~= v@.take(i as int));
            assert(v@.take(i + 1).last() == v@[i as int]);
            assert(prev.push(p).drop_last() =~= prev);
        }
        r.push(p);
        i += 1;
    }
    proof {
        assert(v@.take(v@.len() as int) =~= v@);
    }
    r
}

/// A copy of a name list.
pub fn dup_names(v: &Vec<String>) -> (r: Vec<String>)
    ensures
        r@.map_values(|n: String| n@) == v@.map_values(|n: String| n@),
{
    let mut r: Vec<String> = Vec::new();
    let mut i: usize = 0;
    while i < v.len()
        invariant
            0 <= i <= v@.len(),
            r@.len() == i,
            forall|j: int| 0 <= j < i ==> r@[j]@ == v@[j]@,
        decreases v@.len() - i,
    {
        r.push(v[i].clone());
        i += 1;
    }
    proof {
        assert(r@.map_values(|n: String| n@) =~= v@.map_values(|n: String| n@));
    }
    r
}


/// The synthetic literal the typing pass writes for a type: a `type`-typed
/// literal whose text is the type's display form.
pub open spec fn type_as_elem(t: TypeV) -> ElementV {
    ElementV::LiteralV {
        position: synthetic_pos(),
        type_: prim_type("type"@),
        content: type_render(t),
    }
}

impl Type {
    /// This type as a synthetic literal node.
    pub fn as_element(&self) -> (r: Element)
        ensures
            r@ == type_as_elem(self@),
    {
        Element::Literal {
            position: crate::position::Position::synthetic(),
            type_: Type::from_str("type"),
            content: self.rendered(),
        }
    }
}

/// The image of one binding of the typing scope.
pub open spec fn tframe_view(f: Seq<(Seq<char>, Type)>) -> Seq<(Seq<char>, TypeV)> {
    f.map_values(|e: (Seq<char>, Type)| (e.0, type_view(e.1)))
}

/// The image of the typing scope: type descriptors become their images.
pub open spec fn tstack_view(s: Seq<Seq<(Seq<char>, Type)>>) -> Seq<Seq<(Seq<char>, TypeV)>> {
    s.map_values(|f: Seq<(Seq<char>, Type)>| tframe_view(f))
}

pub proof fn lemma_tstack_view_add(s: Seq<Seq<(Seq<char>, Type)>>)
    ensures
        tstack_view(stack_add(s)) == stack_add(tstack_view(s)),
{
    assert(tstack_view(stack_add(s)) =~~= stack_add(tstack_view(s)));
}

pub proof fn lemma_tstack_view_pop(s: Seq<Seq<(Seq<char>, Type)>>)
    requires
        s.len() > 0,
    ensures
        tstack_view(stack_pop(s)) == stack_pop(tstack_view(s)),
{
    assert(tstack_view(stack_pop(s)) =~~= stack_pop(tstack_view(s)));
}

pub proof fn lemma_tstack_view_declare(s: Seq<Seq<(Seq<char>, Type)>>, n: Seq<char>, v: Type)
    requires
        s.len() > 0,
    ensures
        tstack_view(stack_declare(s, n, v)) == stack_declare(tstack_view(s), n, type_view(v)),
{
    assert(tstack_view(stack_declare(s, n, v)) =~~= stack_declare(
        tstack_view(s),
        n,
        type_view(v),
    ));
}

pub proof fn lemma_tframe_find(f: Seq<(Seq<char>, Type)>, n: Seq<char>)
    ensures
        frame_find(tframe_view(f), n) == match frame_find(f, n) {
            Some(t) => Some(type_view(t)),
            None => None,
        },
    decreases f.len(),
{
    if f.len() > 0 {
        lemma_tframe_find(f.skip(1), n);
        assert(tframe_view(f).skip(1) =~= tframe_view(f.skip(1)));
    }
}

pub proof fn lemma_tstack_find(s: Seq<Seq<(Seq<char>, Type)>>, n: Seq<char>)
    ensures
        stack_find(tstack_view(s), n) == match stack_find(s, n) {
            Some(t) => Some(type_view(t)),
            None => None,
        },
    decreases s.len(),
{
    if s.len() > 0 {
        lemma_tframe_find(s.last(), n);
        lemma_tstack_find(s.drop_last(), n);
        assert(tstack_view(s).last() == tframe_view(s.last()));
        assert(tstack_view(s).drop_last() =~= tstack_view(s.drop_last()));
    }
}

/// What the typing pass demands of a tree: declaration targets are
/// variables, and every `If` has at least one arm.
pub open spec fn elem_checkable(e: ElementV) -> bool
    decreases e,
{
    match e {
        ElementV::DeclareV { variable, content, .. } => (*variable) is VariableV
            && elem_checkable(*content),
        ElementV::AssignV { variable, content, .. } => (*variable) is VariableV
            && elem_checkable(*content),
        ElementV::IfV { conditions, .. } => conditions.len() > 0 && conds_checkable(conditions),
        ElementV::BlockV { content, .. } => elems_checkable(content),
        ElementV::CallV { called, args, kwargs, .. } => elem_checkable(*called)
            && elems_checkable(args) && kwargs_checkable(kwargs) && kwargs_unique(kwargs),
        ElementV::BinaryOprV { operand1, operand2, .. } => elem_checkable(*operand1)
            && elem_checkable(*operand2),
        ElementV::UnaryOprV { operand, .. } => elem_checkable(*operand),
        ElementV::ReturnV { value, .. } => elem_checkable(*value),
        ElementV::ProcedureV { args, content, .. } => args_checkable(args) && elems_checkable(
            content,
        ),
        _ => true,
    }
}

/// Every arm of an `If` has a checkable condition and body.
pub open spec fn conds_checkable(s: Seq<ConditionV>) -> bool
    decreases s,
{
    if s.len() == 0 {
        true
    } else {
        elem_checkable(*s[0].condition) && elems_checkable(s[0].if_true) && conds_checkable(
            s.skip(1),
        )
    }
}

/// Every parameter default, where present, is checkable.
pub open spec fn args_checkable(s: Seq<ArgumentV>) -> bool
    decreases s,
{
    if s.len() == 0 {
        true
    } else {
        (match s[0].default {
            Some(d) => elem_checkable(*d),
            None => true,
        }) && args_checkable(s.skip(1))
    }
}

/// Every keyword argument is checkable.
pub open spec fn kwargs_checkable(s: Seq<(Seq<char>, ElementV)>) -> bool
    decreases s,
{
    if s.len() == 0 {
        true
    } else {
        elem_checkable(s[0].1) && kwargs_checkable(s.skip(1))
    }
}

/// Keyword arguments name distinct parameters, as a map would enforce.
pub open spec fn kwargs_unique(s: Seq<(Seq<char>, ElementV)>) -> bool {
    forall|i: int, j: int| 0 <= i < j < s.len() ==> (#[trigger] s[i].0) != (#[trigger] s[j].0)
}

pub open spec fn elems_checkable(s: Seq<ElementV>) -> bool
    decreases s,
{
    if s.len() == 0 {
        true
    } else {
        elem_checkable(s[0]) && elems_checkable(s.skip(1))
    }
}

/// The type a binary operator yields on two operand types: `TypeCast`
/// yields its right-hand type; otherwise the algebra is probed with the
/// default values of the two types. An operator the algebra has no
/// implementation for is error 4.0.0; a probe that only divides zero by
/// zero keeps the left-hand type.
pub open spec fn spec_bin_op_rt(op: OprType, t1: TypeV, t2: TypeV, pos: PosV) -> Result<
    TypeV,
    ZyxtErrorV,
> {
    if op is TypeCast {
        Ok(t2)
    } else {
        match (crate::value::spec_default(t1), crate::value::spec_default(t2)) {
            (Some(d1), Some(d2)) => match crate::value::algebra::spec_bin_opr(op, d1, d2) {
                Ok(v) => Ok(crate::value::spec_type_of(v)),
                Err(crate::value::algebra::OprErrorV::ZeroDivisionV) => Ok(t1),
                Err(_) => Err(
                    err_4_0_0_at(
                        crate::token::opr_symbol(op),
                        type_render(t1),
                        type_render(t2),
                        pos,
                    ),
                ),
            },
            (None, _) => Err(err_internal(type_render(t1))),
            (_, None) => Err(err_internal(type_render(t2))),
        }
    }
}

/// The type a unary operator yields on an operand type, by the same probe;
/// error 4.0.1 where the algebra has no implementation.
pub open spec fn spec_un_op_rt(op: OprType, t: TypeV, pos: PosV) -> Result<TypeV, ZyxtErrorV> {
    match crate::value::spec_default(t) {
        Some(d) => match crate::value::algebra::spec_un_opr(op, d) {
            Ok(v) => Ok(crate::value::spec_type_of(v)),
            Err(_) => Err(err_4_0_1_at(crate::token::opr_symbol(op), type_render(t), pos)),
        },
        None => Err(err_internal(type_render(t))),
    }
}

/// The typing scope with a procedure's parameters declared.
pub open spec fn declare_args_ts(
    ts: Seq<Seq<(Seq<char>, TypeV)>>,
    args: Seq<ArgumentV>,
    i: int,
) -> Seq<Seq<(Seq<char>, TypeV)>>
    decreases args.len() - i,
{
    if i < 0 || i >= args.len() {
        ts
    } else {
        declare_args_ts(stack_declare(ts, args[i].name, args[i].type_), args, i + 1)
    }
}

/// The typing pass over one node: what it rewrites the node to, the type
/// it computes for it, and the typing scope it leaves behind.
pub open spec fn spec_check(e: ElementV, ts: Seq<Seq<(Seq<char>, TypeV)>>) -> Result<
    (ElementV, TypeV, Seq<Seq<(Seq<char>, TypeV)>>),
    ZyxtErrorV,
>
    decreases e, 2int,
{
    match e {
        ElementV::LiteralV { type_, .. } => Ok((e, type_, ts)),
        ElementV::VariableV { position, name, .. } => match stack_find(ts, name) {
            Some(t) => Ok((e, t, ts)),
            None => Err(err_3_0_at(name, position)),
        },
        ElementV::BlockV { .. } => spec_check_block(e, ts),
        ElementV::CallV { .. } => spec_check_call(e, ts),
        ElementV::DeclareV { .. } => spec_check_declare(e, ts),
        ElementV::IfV { .. } => spec_check_if(e, ts),
        ElementV::BinaryOprV { .. } => spec_check_binary(e, ts),
        ElementV::UnaryOprV { .. } => spec_check_unary(e, ts),
        ElementV::ProcedureV { .. } => spec_check_procedure(e, ts),
        _ => Ok((e, null_type(), ts)),
    }
}

/// The typing pass over a block: its statements are checked inside one
/// fresh frame and the block's type is the last statement's.
pub open spec fn spec_check_block(e: ElementV, ts: Seq<Seq<(Seq<char>, TypeV)>>) -> Result<
    (ElementV, TypeV, Seq<Seq<(Seq<char>, TypeV)>>),
    ZyxtErrorV,
>
    decreases e, 1int,
{
    match e {
        ElementV::BlockV { position, content } => {
            match spec_check_seq(content, stack_add(ts)) {
                Ok((outs, t, ts2)) => Ok(
                    (ElementV::BlockV { position, content: outs }, t, stack_pop(ts2)),
                ),
                Err(er) => Err(er),
            }
        },
        _ => Err(err_internal(Seq::<char>::empty())),
    }
}

/// The typing pass over a call: the arguments are checked; a call of a
/// written procedure yields that procedure's return type, anything else
/// the null type.
pub open spec fn spec_check_call(e: ElementV, ts: Seq<Seq<(Seq<char>, TypeV)>>) -> Result<
    (ElementV, TypeV, Seq<Seq<(Seq<char>, TypeV)>>),
    ZyxtErrorV,
>
    decreases e, 1int,
{
    match e {
        ElementV::CallV { position, called, args, kwargs } => {
            match spec_check_seq(args, ts) {
                Ok((outs, _t, ts2)) => {
                    let rt = match *called {
                        ElementV::ProcedureV { return_type, .. } => return_type,
                        _ => null_type(),
                    };
                    Ok((ElementV::CallV { position, called, args: outs, kwargs }, rt, ts2))
                },
                Err(er) => Err(er),
            }
        },
        _ => Err(err_internal(Seq::<char>::empty())),
    }
}

/// The typing pass over a declaration: the content is checked and the name
/// recorded; a written type that differs from the content's computed type
/// wraps the content in a synthetic cast.
pub open spec fn spec_check_declare(e: ElementV, ts: Seq<Seq<(Seq<char>, TypeV)>>) -> Result<
    (ElementV, TypeV, Seq<Seq<(Seq<char>, TypeV)>>),
    ZyxtErrorV,
>
    decreases e, 1int,
{
    match e {
        ElementV::DeclareV { position, variable, content, flags, type_ } => {
            match *variable {
                ElementV::VariableV { name, .. } => match spec_check(*content, ts) {
                    Ok((c1, ct, ts1)) => {
                        if type_ == null_type() {
                            Ok(
                                (
                                    ElementV::DeclareV {
                                        position,
                                        variable,
                                        content: Box::new(c1),
                                        flags,
                                        type_: ct,
                                    },
                                    ct,
                                    stack_declare(ts1, name, ct),
                                ),
                            )
                        } else {
                            let ts2 = stack_declare(ts1, name, type_);
                            if ct != type_ {
                                Ok(
                                    (
                                        ElementV::DeclareV {
                                            position,
                                            variable,
                                            content: Box::new(
                                                ElementV::BinaryOprV {
                                                    position,
                                                    type_: OprType::TypeCast,
                                                    operand1: Box::new(c1),
                                                    operand2: Box::new(type_as_elem(type_)),
                                                },
                                            ),
                                            flags,
                                            type_,
                                        },
                                        ct,
                                        ts2,
                                    ),
                                )
                            } else {
                                Ok(
                                    (
                                        ElementV::DeclareV {
                                            position,
                                            variable,
                                            content: Box::new(c1),
                                            flags,
                                            type_,
                                        },
                                        ct,
                                        ts2,
                                    ),
                                )
                            }
                        }
                    },
                    Err(er) => Err(er),
                },
                _ => Err(err_internal(Seq::<char>::empty())),
            }
        },
        _ => Err(err_internal(Seq::<char>::empty())),
    }
}

/// The typing pass over an `If`: only the first arm's body is examined,
/// inside a fresh frame.
pub open spec fn spec_check_if(e: ElementV, ts: Seq<Seq<(Seq<char>, TypeV)>>) -> Result<
    (ElementV, TypeV, Seq<Seq<(Seq<char>, TypeV)>>),
    ZyxtErrorV,
>
    decreases e, 1int,
{
    match e {
        ElementV::IfV { position, conditions } => {
            if conditions.len() == 0 {
                Err(err_internal(Seq::<char>::empty()))
            } else {
                match spec_check_seq(conditions[0].if_true, stack_add(ts)) {
                    Ok((outs, t, ts2)) => Ok(
                        (
                            ElementV::IfV {
                                position,
                                conditions: conditions.update(
                                    0,
                                    ConditionV {
                                        condition: conditions[0].condition,
                                        if_true: outs,
                                    },
                                ),
                            },
                            t,
                            stack_pop(ts2),
                        ),
                    ),
                    Err(er) => Err(er),
                }
            }
        },
        _ => Err(err_internal(Seq::<char>::empty())),
    }
}

/// The typing pass over a binary operator node.
pub open spec fn spec_check_binary(e: ElementV, ts: Seq<Seq<(Seq<char>, TypeV)>>) -> Result<
    (ElementV, TypeV, Seq<Seq<(Seq<char>, TypeV)>>),
    ZyxtErrorV,
>
    decreases e, 1int,
{
    match e {
        ElementV::BinaryOprV { position, type_, operand1, operand2 } => {
            match spec_check(*operand1, ts) {
                Ok((o1, t1, ts1)) => match spec_check(*operand2, ts1) {
                    Ok((o2, t2, ts2)) => match spec_bin_op_rt(type_, t1, t2, position) {
                        Ok(rt) => Ok(
                            (
                                ElementV::BinaryOprV {
                                    position,
                                    type_,
                                    operand1: Box::new(o1),
                                    operand2: Box::new(o2),
                                },
                                rt,
                                ts2,
                            ),
                        ),
                        Err(er) => Err(er),
                    },
                    Err(er) => Err(er),
                },
                Err(er) => Err(er),
            }
        },
        _ => Err(err_internal(Seq::<char>::empty())),
    }
}

/// The typing pass over a unary operator node.
pub open spec fn spec_check_unary(e: ElementV, ts: Seq<Seq<(Seq<char>, TypeV)>>) -> Result<
    (ElementV, TypeV, Seq<Seq<(Seq<char>, TypeV)>>),
    ZyxtErrorV,
>
    decreases e, 1int,
{
    match e {
        ElementV::UnaryOprV { position, type_, operand } => {
            match spec_check(*operand, ts) {
                Ok((o, t, ts1)) => match spec_un_op_rt(type_, t, position) {
                    Ok(rt) => Ok(
                        (ElementV::UnaryOprV { position, type_, operand: Box::new(o) }, rt, ts1),
                    ),
                    Err(er) => Err(er),
                },
                Err(er) => Err(er),
            }
        },
        _ => Err(err_internal(Seq::<char>::empty())),
    }
}

/// The typing pass over a procedure: a fresh frame holds the parameters,
/// the body is checked within it, and an unwritten return type is inferred
/// from the body's last statement.
pub open spec fn spec_check_procedure(e: ElementV, ts: Seq<Seq<(Seq<char>, TypeV)>>) -> Result<
    (ElementV, TypeV, Seq<Seq<(Seq<char>, TypeV)>>),
    ZyxtErrorV,
>
    decreases e, 1int,
{
    match e {
        ElementV::ProcedureV { position, is_fn, args, return_type, content } => {
            match spec_check_seq(content, declare_args_ts(stack_add(ts), args, 0)) {
                Ok((outs, t, ts2)) => {
                    let rt = if return_type == null_type() {
                        t
                    } else {
                        return_type
                    };
                    Ok(
                        (
                            ElementV::ProcedureV {
                                position,
                                is_fn,
                                args,
                                return_type: rt,
                                content: outs,
                            },
                            TypeV::InstanceV {
                                name: if is_fn {
                                    "fn"@
                                } else {
                                    "proc"@
                                },
                                type_args: seq![null_type(), rt],
                            },
                            stack_pop(ts2),
                        ),
                    )
                },
                Err(er) => Err(er),
            }
        },
        _ => Err(err_internal(Seq::<char>::empty())),
    }
}

/// The typing pass over a node list, threading the scope left to right;
/// the list's type is its last node's (or null when empty).
pub open spec fn spec_check_seq(s: Seq<ElementV>, ts: Seq<Seq<(Seq<char>, TypeV)>>) -> Result<
    (Seq<ElementV>, TypeV, Seq<Seq<(Seq<char>, TypeV)>>),
    ZyxtErrorV,
>
    decreases s, 3int,
{
    if s.len() == 0 {
        Ok((Seq::<ElementV>::empty(), null_type(), ts))
    } else {
        match spec_check(s[0], ts) {
            Ok((o, t, ts1)) => match spec_check_seq(s.skip(1), ts1) {
                Ok((outs, tl, ts2)) => Ok(
                    (
                        seq![o].add(outs),
                        if s.len() == 1 {
                            t
                        } else {
                            tl
                        },
                        ts2,
                    ),
                ),
                Err(er) => Err(er),
            },
            Err(er) => Err(er),
        }
    }
}

/// The typing pass leaves the scope as deep as it found it.
pub proof fn lemma_spec_check_len(e: ElementV, ts: Seq<Seq<(Seq<char>, TypeV)>>)
    requires
        ts.len() > 0,
    ensures
        spec_check(e, ts) matches Ok((o, t, ts2)) ==> ts2.len() == ts.len(),
    decreases e, 1int,
{
    match e {
        ElementV::BlockV { content, .. } => {
            lemma_spec_check_seq_len(content, stack_add(ts));
        },
        ElementV::CallV { args, .. } => {
            lemma_spec_check_seq_len(args, ts);
        },
        ElementV::DeclareV { variable, content, .. } => {
            if (*variable) is VariableV {
                lemma_spec_check_len(*content, ts);
            }
        },
        ElementV::IfV { conditions, .. } => {
            if conditions.len() > 0 {
                lemma_spec_check_seq_len(conditions[0].if_true, stack_add(ts));
            }
        },
        ElementV::BinaryOprV { operand1, operand2, .. } => {
            lemma_spec_check_len(*operand1, ts);
            match spec_check(*operand1, ts) {
                Ok((_, _, ts1)) => {
                    lemma_spec_check_len(*operand2, ts1);
                },
                _ => {},
            }
        },
        ElementV::UnaryOprV { operand, .. } => {
            lemma_spec_check_len(*operand, ts);
        },
        ElementV::ProcedureV { args, content, .. } => {
            lemma_declare_args_ts_len(stack_add(ts), args, 0);
            lemma_spec_check_seq_len(content, declare_args_ts(stack_add(ts), args, 0));
        },
        _ => {},
    }
}

pub proof fn lemma_spec_check_seq_len(s: Seq<ElementV>, ts: Seq<Seq<(Seq<char>, TypeV)>>)
    requires
        ts.len() > 0,
    ensures
        spec_check_seq(s, ts) matches Ok((o, t, ts2)) ==> ts2.len() == ts.len(),
    decreases s, 0int,
{
    if s.len() > 0 {
        lemma_spec_check_len(s[0], ts);
        match spec_check(s[0], ts) {
            Ok((_, _, ts1)) => {
                lemma_spec_check_seq_len(s.skip(1), ts1);
            },
            _ => {},
        }
    }
}

pub proof fn lemma_declare_args_ts_len(
    ts: Seq<Seq<(Seq<char>, TypeV)>>,
    args: Seq<ArgumentV>,
    i: int,
)
    requires
        ts.len() > 0,
    ensures
        declare_args_ts(ts, args, i).len() == ts.len(),
    decreases args.len() - i,
{
    if 0 <= i < args.len() {
        lemma_declare_args_ts_len(stack_declare(ts, args[i].name, args[i].type_), args, i + 1);
    }
}

/// The image of a suffix is the suffix of the image.
pub proof fn lemma_elems_view_skip(s: Seq<Element>)
    requires
        s.len() > 0,
    ensures
        elems_view(s.skip(1)) == elems_view(s).skip(1),
{
    lemma_elems_view(s);
    lemma_elems_view(s.skip(1));
    assert(forall|j: int| 0 <= j < s.len() - 1 ==> (#[trigger] s.skip(1)[j]) == s[j + 1]);
    assert(elems_view(s.skip(1)) =~= elems_view(s).skip(1));
}

impl Element {
    /// The type a binary operator yields on two operand types, found by
    /// probing the value algebra with their default values; `TypeCast`
    /// yields its right-hand type without probing.
    #[verifier::rlimit(100)]
    pub fn bin_op_return_type(
        type_: &OprType,
        type1: Type,
        type2: Type,
        position: &Position,
    ) -> (r: Result<Type, ZyxtError>)
        ensures
            match spec_bin_op_rt(*type_, type1@, type2@, position@) {
                Ok(t) => r matches Ok(rt) && rt@ == t,
                Err(ev) => r matches Err(e) && e@ == ev,
            },
    {
        if let OprType::TypeCast = type_ {
            return Ok(type2);
        }
        let d1 = match Value::default(type1.duplicate()) {
            Ok(v) => v,
            Err(e) => {
                return Err(e);
            },
        };
        let d2 = match Value::default(type2.duplicate()) {
            Ok(v) => v,
            Err(e) => {
                return Err(e);
            },
        };
        match d1.bin_opr(type_, d2) {
            Ok(v) => Ok(v.get_type_obj()),
            Err(crate::value::utils::OprError::ZeroDivision) => Ok(type1),
            Err(_) => Err(
                crate::errors::error_4_0_0(
                    type_.symbol().to_owned(),
                    type1.rendered(),
                    type2.rendered(),
                ).at(position),
            ),
        }
    }

    /// The type a unary operator yields on an operand type, by the same
    /// probe.
    #[verifier::rlimit(100)]
    pub fn un_op_return_type(type_: &OprType, opnd_type: Type, position: &Position) -> (r: Result<
        Type,
        ZyxtError,
    >)
        ensures
            match spec_un_op_rt(*type_, opnd_type@, position@) {
                Ok(t) => r matches Ok(rt) && rt@ == t,
                Err(ev) => r matches Err(e) && e@ == ev,
            },
    {
        let d = match Value::default(opnd_type.duplicate()) {
            Ok(v) => v,
            Err(e) => {
                return Err(e);
            },
        };
        match d.un_opr(type_) {
            Ok(v) => Ok(v.get_type_obj()),
            Err(_) => Err(
                crate::errors::error_4_0_1(
                    type_.symbol().to_owned(),
                    opnd_type.rendered(),
                ).at(position),
            ),
        }
    }

    /// Type-checks a statement list inside one fresh frame when `add_set`
    /// holds, or in the current frame otherwise; yields the rewritten list
    /// and the last statement's type.
    pub fn get_block_type(
        content: Vec<Element>,
        typelist: &mut Varstack<Type>,
        add_set: bool,
    ) -> (r: Result<(Vec<Element>, Type), ZyxtError>)
        requires
            elems_checkable(elems_view(content@)),
            old(typelist)@.len() > 0,
        ensures
            ({
                let ts0 = if add_set {
                    stack_add(tstack_view(old(typelist)@))
                } else {
                    tstack_view(old(typelist)@)
                };
                match spec_check_seq(elems_view(content@), ts0) {
                    Ok((outs, t, ts2)) => r matches Ok(p) && elems_view(p.0@) == outs && p.1@ == t
                        && tstack_view(final(typelist)@) == (if add_set {
                        stack_pop(ts2)
                    } else {
                        ts2
                    }) && final(typelist)@.len() == old(typelist)@.len(),
                    Err(ev) => r matches Err(e) && e@ == ev,
                }
            }),
        decreases content@, 1int,
    {
        proof {
        }
        let ghost ts_entry = typelist@;
        if add_set {
            typelist.add_set();
            proof {
                lemma_tstack_view_add(ts_entry);
            }
        }
        let ghost ts0 = typelist@;
        match check_seq(content, typelist) {
            Ok((outs, t)) => {
                proof {
                    lemma_spec_check_seq_len(elems_view(content@), tstack_view(ts0));
                }
                if add_set {
                    let ghost pre_pop = typelist@;
                    typelist.pop_set();
                    proof {
                        lemma_tstack_view_pop(pre_pop);
                    }
                }
                Ok((outs, t))
            },
            Err(e) => Err(e),
        }
    }

    /// Walks the node, computes its type, rewrites `Declare` nodes to carry
    /// inferred types and inserted casts, and records declared names in the
    /// typing scope.
    #[verifier::rlimit(100)]
    pub fn get_type(self, typelist: &mut Varstack<Type>) -> (r: Result<(Element, Type), ZyxtError>)
        requires
            elem_checkable(self@),
            old(typelist)@.len() > 0,
        ensures
            match spec_check(self@, tstack_view(old(typelist)@)) {
                Ok((o, t, ts2)) => r matches Ok(p) && p.0@ == o && p.1@ == t && tstack_view(
                    final(typelist)@,
                ) == ts2 && final(typelist)@.len() == old(typelist)@.len(),
                Err(ev) => r matches Err(e) && e@ == ev,
            },
        decreases self, 1int,
    {
        proof {
        }
        let ghost s0 = self;
        let ghost ts_entry = typelist@;
        match self {
            Element::Literal { position, type_, content } => {
                let t = type_.duplicate();
                let out = Element::Literal { position, type_, content };
                proof {
                    assert(out@ == s0@);
                    assert(spec_check(s0@, tstack_view(ts_entry)) == Ok::<
                        (ElementV, TypeV, Seq<Seq<(Seq<char>, TypeV)>>),
                        ZyxtErrorV,
                    >((s0@, t@, tstack_view(ts_entry))));
                }
                Ok((out, t))
            },
            Element::Variable { position, name, parent } => {
                proof {
                    lemma_tstack_find(ts_entry, name@);
                }
                match typelist.get_val(&name, &position) {
                    Ok(p) => {
                        let t = p.duplicate();
                        let out = Element::Variable { position, name, parent };
                        proof {
                            assert(out@ == s0@);
                            assert(spec_check(s0@, tstack_view(ts_entry)) == Ok::<
                                (ElementV, TypeV, Seq<Seq<(Seq<char>, TypeV)>>),
                                ZyxtErrorV,
                            >((s0@, t@, tstack_view(ts_entry))));
                        }
                        Ok((out, t))
                    },
                    Err(e) => {
                        proof {
                            assert(e@ == err_3_0_at(var_name_of(s0@), pos_of(s0@)));
                        }
                        Err(e)
                    },
                }
            },
            Element::Block { position, content } => {
                proof {
                    assert(decreases_to!(s0 => content));
                }
                match Element::get_block_type(content, typelist, true) {
                    Ok((outs, t)) => {
                        let out = Element::Block { position, content: outs };
                        proof {
                            let spec_r = spec_check_block(s0@, tstack_view(ts_entry));
                            assert(spec_r matches Ok(res4) && res4.0 == out@ && res4.1 == t@
                                && res4.2 == tstack_view(typelist@));
                        }
                        Ok((out, t))
                    },
                    Err(e) => Err(e),
                }
            },
            Element::Call { position, called, args, kwargs } => {
                proof {
                    assert(decreases_to!(s0 => args));
                }
                match Element::get_block_type(args, typelist, false) {
                    Ok((outs, _t)) => {
                        let rt = match &*called {
                            Element::Procedure { return_type, .. } => {
                                let d = return_type.duplicate();
                                proof {
                                    reveal_with_fuel(elem_view, 2);
                                    assert(elem_view(*called) matches ElementV::ProcedureV {
                                        return_type: rtv,
                                        ..
                                    } && rtv == d@);
                                }
                                d
                            },
                            _ => {
                                proof {
                                    reveal_with_fuel(elem_view, 2);
                                    assert(!(elem_view(*called) is ProcedureV));
                                }
                                Type::null()
                            },
                        };
                        let out = Element::Call { position, called, args: outs, kwargs };
                        proof {
                            let spec_r = spec_check_call(s0@, tstack_view(ts_entry));
                            assert(spec_r matches Ok(res5) && res5.0 == out@ && res5.1 == rt@
                                && res5.2 == tstack_view(typelist@));
                        }
                        Ok((out, rt))
                    },
                    Err(e) => Err(e),
                }
            },
            Element::Declare { position, variable, content, flags, type_ } => {
                proof {
                    assert(spec_check(s0@, tstack_view(ts_entry)) == spec_check_declare(
                        s0@,
                        tstack_view(ts_entry),
                    ));
                }
                check_declare(position, variable, content, flags, type_, typelist, Ghost(s0))
            },
            Element::If { position, conditions } => {
                proof {
                    assert(spec_check(s0@, tstack_view(ts_entry)) == spec_check_if(
                        s0@,
                        tstack_view(ts_entry),
                    ));
                }
                check_if(position, conditions, typelist, Ghost(s0))
            },
            Element::BinaryOpr { position, type_, operand1, operand2 } => {
                proof {
                    assert(spec_check(s0@, tstack_view(ts_entry)) == spec_check_binary(
                        s0@,
                        tstack_view(ts_entry),
                    ));
                }
                check_binary(position, type_, operand1, operand2, typelist, Ghost(s0))
            },
            Element::UnaryOpr { position, type_, operand } => {
                proof {
                    assert(spec_check(s0@, tstack_view(ts_entry)) == spec_check_unary(
                        s0@,
                        tstack_view(ts_entry),
                    ));
                }
                check_unary(position, type_, operand, typelist, Ghost(s0))
            },
            Element::Procedure { position, is_fn, args, return_type, content } => {
                proof {
                    assert(spec_check(s0@, tstack_view(ts_entry)) == spec_check_procedure(
                        s0@,
                        tstack_view(ts_entry),
                    ));
                }
                check_procedure(position, is_fn, args, return_type, content, typelist, Ghost(s0))
            },
            other => {
                proof {
                    assert(spec_check(s0@, tstack_view(ts_entry)) == Ok::<
                        (ElementV, TypeV, Seq<Seq<(Seq<char>, TypeV)>>),
                        ZyxtErrorV,
                    >((s0@, null_type(), tstack_view(ts_entry))));
                }
                Ok((other, Type::null()))
            },
        }
    }
}

/// Type-checks an `If`: only the first arm's body is examined, inside a
/// fresh frame.
#[verifier::rlimit(100)]
fn check_if(
    position: Position,
    conditions: Vec<Condition>,
    typelist: &mut Varstack<Type>,
    Ghost(e0): Ghost<Element>,
) -> (r: Result<(Element, Type), ZyxtError>)
    requires
        e0 matches Element::If { position: p2, conditions: c2 } && p2 == position && c2
            == conditions,
        elem_checkable(e0@),
        old(typelist)@.len() > 0,
    ensures
        match spec_check_if(e0@, tstack_view(old(typelist)@)) {
            Ok((o, t, ts2)) => r matches Ok(p) && p.0@ == o && p.1@ == t && tstack_view(
                final(typelist)@,
            ) == ts2 && final(typelist)@.len() == old(typelist)@.len(),
            Err(ev) => r matches Err(e) && e@ == ev,
        },
    decreases e0, 0int,
{
    proof {
    }
    let mut conditions = conditions;
    let ghost conds0 = conditions@;
    let c0 = conditions.remove(0);
    proof {
        lemma_conds_view(conds0);
        assert(decreases_to!(e0 => conds0[0].if_true));
        assert(cond_view(conds0[0]).if_true == elems_view(conds0[0].if_true@));
        assert(e0@ matches ElementV::IfV { conditions: cv0, .. } && cv0 == conds_view(conds0));
        assert(conds_checkable(conds_view(conds0)));
        assert(conds_view(conds0)[0] == cond_view(conds0[0]));
        assert(elems_checkable(cond_view(conds0[0]).if_true));
    }
    match Element::get_block_type(c0.if_true, typelist, true) {
        Ok((outs, t)) => {
            conditions.insert(0, Condition { condition: c0.condition, if_true: outs });
            proof {
                lemma_conds_view(conditions@);
                lemma_conds_view(conds0);
                assert(conds_view(conditions@) =~= conds_view(conds0).update(
                    0,
                    ConditionV {
                        condition: conds_view(conds0)[0].condition,
                        if_true: elems_view(outs@),
                    },
                ));
            }
            Ok((Element::If { position, conditions }, t))
        },
        Err(e) => Err(e),
    }
}

/// Type-checks a binary operator node: both operands are checked, then the
/// operator's result type is probed.
#[verifier::rlimit(100)]
fn check_binary(
    position: Position,
    type_: OprType,
    operand1: Box<Element>,
    operand2: Box<Element>,
    typelist: &mut Varstack<Type>,
    Ghost(e0): Ghost<Element>,
) -> (r: Result<(Element, Type), ZyxtError>)
    requires
        e0 matches Element::BinaryOpr {
            position: p2,
            type_: t2,
            operand1: a2,
            operand2: b2,
        } && p2 == position && t2 == type_ && a2 == operand1 && b2 == operand2,
        elem_checkable(e0@),
        old(typelist)@.len() > 0,
    ensures
        match spec_check_binary(e0@, tstack_view(old(typelist)@)) {
            Ok((o, t, ts2)) => r matches Ok(p) && p.0@ == o && p.1@ == t && tstack_view(
                final(typelist)@,
            ) == ts2 && final(typelist)@.len() == old(typelist)@.len(),
            Err(ev) => r matches Err(e) && e@ == ev,
        },
    decreases e0, 0int,
{
    proof {
        assert(decreases_to!(e0 => *operand1));
        assert(decreases_to!(e0 => *operand2));
    }
    let (o1, t1) = match (*operand1).get_type(typelist) {
        Ok(p) => p,
        Err(e) => {
            return Err(e);
        },
    };
    let (o2, t2) = match (*operand2).get_type(typelist) {
        Ok(p) => p,
        Err(e) => {
            return Err(e);
        },
    };
    match Element::bin_op_return_type(&type_, t1, t2, &position) {
        Ok(rt) => Ok(
            (
                Element::BinaryOpr {
                    position,
                    type_,
                    operand1: Box::new(o1),
                    operand2: Box::new(o2),
                },
                rt,
            ),
        ),
        Err(e) => Err(e),
    }
}

/// Type-checks a unary operator node.
#[verifier::rlimit(100)]
fn check_unary(
    position: Position,
    type_: OprType,
    operand: Box<Element>,
    typelist: &mut Varstack<Type>,
    Ghost(e0): Ghost<Element>,
) -> (r: Result<(Element, Type), ZyxtError>)
    requires
        e0 matches Element::UnaryOpr { position: p2, type_: t2, operand: a2 } && p2 == position
            && t2 == type_ && a2 == operand,
        elem_checkable(e0@),
        old(typelist)@.len() > 0,
    ensures
        match spec_check_unary(e0@, tstack_view(old(typelist)@)) {
            Ok((o, t, ts2)) => r matches Ok(p) && p.0@ == o && p.1@ == t && tstack_view(
                final(typelist)@,
            ) == ts2 && final(typelist)@.len() == old(typelist)@.len(),
            Err(ev) => r matches Err(e) && e@ == ev,
        },
    decreases e0, 0int,
{
    proof {
        assert(decreases_to!(e0 => *operand));
    }
    let (o, t) = match (*operand).get_type(typelist) {
        Ok(p) => p,
        Err(e) => {
            return Err(e);
        },
    };
    match Element::un_op_return_type(&type_, t, &position) {
        Ok(rt) => Ok((Element::UnaryOpr { position, type_, operand: Box::new(o) }, rt)),
        Err(e) => Err(e),
    }
}

/// Type-checks a declaration: the content is checked, the declared name is
/// recorded, and a differing written type wraps the content in a cast.
#[verifier::rlimit(100)]
fn check_declare(
    position: Position,
    variable: Box<Element>,
    content: Box<Element>,
    flags: Vec<Flag>,
    type_: Type,
    typelist: &mut Varstack<Type>,
    Ghost(e0): Ghost<Element>,
) -> (r: Result<(Element, Type), ZyxtError>)
    requires
        e0 matches Element::Declare {
            position: p2,
            variable: v2,
            content: c2,
            flags: f2,
            type_: t2,
        } && p2 == position && v2 == variable && c2 == content && f2 == flags && t2 == type_,
        elem_checkable(e0@),
        old(typelist)@.len() > 0,
    ensures
        match spec_check_declare(e0@, tstack_view(old(typelist)@)) {
            Ok((o, t, ts2)) => r matches Ok(p) && p.0@ == o && p.1@ == t && tstack_view(
                final(typelist)@,
            ) == ts2 && final(typelist)@.len() == old(typelist)@.len(),
            Err(ev) => r matches Err(e) && e@ == ev,
        },
    decreases e0, 0int,
{
    proof {
        assert(decreases_to!(e0 => *content));
    }
    let (c1, ct) = match (*content).get_type(typelist) {
        Ok(p) => p,
        Err(e) => {
            return Err(e);
        },
    };
    let name = variable.get_name();
    let nullt = Type::null();
    if type_.eq_type(&nullt) {
        let d = ct.duplicate();
        proof {
            lemma_tstack_view_declare(typelist@, name@, d);
        }
        typelist.declare_val(&name, d);
        let t2 = ct.duplicate();
        let out = Element::Declare { position, variable, content: Box::new(c1), flags, type_: t2 };
        Ok((out, ct))
    } else {
        let differs = !ct.eq_type(&type_);
        let d = type_.duplicate();
        proof {
            lemma_tstack_view_declare(typelist@, name@, d);
        }
        typelist.declare_val(&name, d);
        if differs {
            let cast_elem = type_.as_element();
            let new_content = Element::BinaryOpr {
                position: position.duplicate(),
                type_: OprType::TypeCast,
                operand1: Box::new(c1),
                operand2: Box::new(cast_elem),
            };
            let out = Element::Declare {
                position,
                variable,
                content: Box::new(new_content),
                flags,
                type_,
            };
            proof {
                reveal_with_fuel(elem_view, 3);
                let spec_r = spec_check_declare(e0@, tstack_view(old(typelist)@));
                assert(spec_r matches Ok(res3) && res3.0 == out@);
            }
            Ok((out, ct))
        } else {
            let out = Element::Declare { position, variable, content: Box::new(c1), flags, type_ };
            Ok((out, ct))
        }
    }
}

/// Type-checks a procedure: a fresh frame holds the parameters, the body
/// is checked within it, and an unwritten return type is inferred from the
/// body's last statement.
#[verifier::rlimit(100)]
fn check_procedure(
    position: Position,
    is_fn: bool,
    args: Vec<Argument>,
    return_type: Type,
    content: Vec<Element>,
    typelist: &mut Varstack<Type>,
    Ghost(e0): Ghost<Element>,
) -> (r: Result<(Element, Type), ZyxtError>)
    requires
        e0 matches Element::Procedure {
            position: p2,
            is_fn: i2,
            args: a2,
            return_type: r2,
            content: c2,
        } && p2 == position && i2 == is_fn && a2 == args && r2 == return_type && c2 == content,
        elem_checkable(e0@),
        old(typelist)@.len() > 0,
    ensures
        match spec_check_procedure(e0@, tstack_view(old(typelist)@)) {
            Ok((o, t, ts2)) => r matches Ok(p) && p.0@ == o && p.1@ == t && tstack_view(
                final(typelist)@,
            ) == ts2 && final(typelist)@.len() == old(typelist)@.len(),
            Err(ev) => r matches Err(e) && e@ == ev,
        },
    decreases e0, 0int,
{
    let ghost ts_entry = typelist@;
    proof {
    }
    typelist.add_set();
    proof {
        lemma_tstack_view_add(ts_entry);
        lemma_args_view(args@);
    }
    let ghost ts_base = tstack_view(typelist@);
    let mut i: usize = 0;
    while i < args.len()
        invariant
            0 <= i <= args@.len(),
            typelist@.len() == ts_entry.len() + 1,
            ts_base == stack_add(tstack_view(ts_entry)),
            declare_args_ts(tstack_view(typelist@), args_view(args@), i as int) == declare_args_ts(
                ts_base,
                args_view(args@),
                0,
            ),
        decreases args@.len() - i,
    {
        let d = args[i].type_.duplicate();
        proof {
            lemma_args_view(args@);
            lemma_tstack_view_declare(typelist@, args@[i as int].name@, d);
        }
        typelist.declare_val(&args[i].name, d);
        i += 1;
    }
    let ghost ts_args = tstack_view(typelist@);
    proof {
        assert(declare_args_ts(ts_args, args_view(args@), args_view(args@).len() as int)
            == ts_args);
        lemma_declare_args_ts_len(ts_base, args_view(args@), 0);
        assert(decreases_to!(e0 => content));
    }
    match Element::get_block_type(content, typelist, false) {
        Ok((outs, t)) => {
            let ghost pre_pop = typelist@;
            typelist.pop_set();
            proof {
                lemma_tstack_view_pop(pre_pop);
            }
            let nullt = Type::null();
            let rt = if return_type.eq_type(&nullt) {
                t
            } else {
                return_type
            };
            let mut targs: Vec<Type> = Vec::new();
            targs.push(Type::null());
            targs.push(rt.duplicate());
            let rtype = Type::Instance {
                name: if is_fn {
                    "fn".to_owned()
                } else {
                    "proc".to_owned()
                },
                type_args: targs,
            };
            proof {
                crate::typeobj::lemma_types_view(rtype->Instance_type_args@);
            }
            let out = Element::Procedure { position, is_fn, args, return_type: rt, content: outs };
            proof {
                assert(rtype@ matches TypeV::InstanceV { type_args: ta, .. } && ta =~= seq![
                    null_type(),
                    type_view(rt),
                ]);
            }
            Ok((out, rtype))
        },
        Err(e) => Err(e),
    }
}

/// Type-checks a statement list left to right in the current frame.
#[verifier::rlimit(100)]
fn check_seq(content: Vec<Element>, typelist: &mut Varstack<Type>) -> (r: Result<
    (Vec<Element>, Type),
    ZyxtError,
>)
    requires
        elems_checkable(elems_view(content@)),
        old(typelist)@.len() > 0,
    ensures
        match spec_check_seq(elems_view(content@), tstack_view(old(typelist)@)) {
            Ok((outs, t, ts2)) => r matches Ok(p) && elems_view(p.0@) == outs && p.1@ == t
                && tstack_view(final(typelist)@) == ts2 && final(typelist)@.len() == old(
                typelist,
            )@.len(),
            Err(ev) => r matches Err(e) && e@ == ev,
        },
    decreases content@, 0int,
{
    proof {
    }
    let ghost ts_entry = typelist@;
    let mut content = content;
    if content.len() == 0 {
        proof {
            assert(elems_view(content@) =~= Seq::<ElementV>::empty());
            assert(elems_view(Seq::<Element>::empty()) =~= Seq::<ElementV>::empty());
        }
        return Ok((Vec::new(), Type::null()));
    }
    let ghost sq = content@;
    let e = content.remove(0);
    proof {
        lemma_elems_view(sq);
        lemma_elems_view_skip(sq);
        assert(e@ == elems_view(sq)[0]);
        assert(elems_view(content@) == elems_view(sq).skip(1));
        assert(decreases_to!(sq => sq[0]));
    }
    let was_last = content.len() == 0;
    let (o, t) = match e.get_type(typelist) {
        Ok(p) => p,
        Err(er) => {
            return Err(er);
        },
    };
    let (rest, t_rest) = match check_seq(content, typelist) {
        Ok(p) => p,
        Err(er) => {
            return Err(er);
        },
    };
    let ghost rest_sq = rest@;
    let mut outs = rest;
    outs.insert(0, o);
    proof {
        lemma_elems_view(outs@);
        lemma_elems_view(rest_sq);
        assert(forall|j: int| 0 <= j < rest_sq.len() ==> outs@[j + 1] == #[trigger] rest_sq[j]);
        assert(elems_view(outs@) =~= seq![o@].add(elems_view(rest_sq)));
    }
    let rt = if was_last {
        t
    } else {
        t_rest
    };
    Ok((outs, rt))
}

/// Cast-insertion law: when the typing pass accepts a declaration with a
/// written type, the rewritten declaration keeps that type; and where the
/// content's computed type differs from it, the content is wrapped in a
/// synthetic `TypeCast` towards the written type's literal, at the
/// declaration's own position.
pub proof fn lemma_cast_insertion(e: ElementV, ts: Seq<Seq<(Seq<char>, TypeV)>>)
    requires
        e matches ElementV::DeclareV { variable, type_, .. } && (*variable) is VariableV && type_
            != null_type(),
        spec_check(e, ts) is Ok,
    ensures
        spec_check(e, ts) matches Ok(res) && res.0 matches ElementV::DeclareV {
            type_: t2,
            content: c2,
            ..
        } && t2 == e->DeclareV_type_ && (spec_check(*e->DeclareV_content, ts) matches Ok(cres)
            ==> if cres.1 != e->DeclareV_type_ {
            *c2 == (ElementV::BinaryOprV {
                position: pos_of(e),
                type_: OprType::TypeCast,
                operand1: Box::new(cres.0),
                operand2: Box::new(type_as_elem(e->DeclareV_type_)),
            })
        } else {
            *c2 == cres.0
        }),
{
}


/// A node list is checkable exactly when each node is.
pub proof fn lemma_elems_checkable_equiv(s: Seq<ElementV>)
    ensures
        elems_checkable(s) <==> (forall|i: int|
            0 <= i < s.len() ==> elem_checkable(#[trigger] s[i])),
    decreases s.len(),
{
    if s.len() > 0 {
        lemma_elems_checkable_equiv(s.skip(1));
        if elems_checkable(s) {
            assert forall|i: int| 0 <= i < s.len() implies elem_checkable(#[trigger] s[i]) by {
                if i > 0 {
                    assert(s.skip(1)[i - 1] == s[i]);
                }
            }
        }
        if forall|i: int| 0 <= i < s.len() ==> elem_checkable(#[trigger] s[i]) {
            assert forall|i: int|
                0 <= i < s.skip(1).len() implies elem_checkable(#[trigger] s.skip(1)[i]) by {
                assert(s.skip(1)[i] == s[i + 1]);
            }
            assert(elems_checkable(s.skip(1)));
        }
    }
}

/// An arm list is checkable exactly when each arm is.
pub proof fn lemma_conds_checkable_equiv(s: Seq<ConditionV>)
    ensures
        conds_checkable(s) <==> (forall|i: int|
            0 <= i < s.len() ==> elem_checkable(*(#[trigger] s[i]).condition) && elems_checkable(
                s[i].if_true,
            )),
    decreases s.len(),
{
    if s.len() > 0 {
        lemma_conds_checkable_equiv(s.skip(1));
        if conds_checkable(s) {
            assert forall|i: int|
                0 <= i < s.len() implies elem_checkable(*(#[trigger] s[i]).condition)
                && elems_checkable(s[i].if_true) by {
                if i > 0 {
                    assert(s.skip(1)[i - 1] == s[i]);
                }
            }
        }
        if forall|i: int|
            0 <= i < s.len() ==> elem_checkable(*(#[trigger] s[i]).condition) && elems_checkable(
                s[i].if_true,
            ) {
            assert forall|i: int|
                0 <= i < s.skip(1).len() implies elem_checkable(
                *(#[trigger] s.skip(1)[i]).condition,
            ) && elems_checkable(s.skip(1)[i].if_true) by {
                assert(s.skip(1)[i] == s[i + 1]);
            }
            assert(conds_checkable(s.skip(1)));
        }
    }
}

/// A parameter list is checkable exactly when each default is.
pub proof fn lemma_args_checkable_equiv(s: Seq<ArgumentV>)
    ensures
        args_checkable(s) <==> (forall|i: int|
            0 <= i < s.len() ==> ((#[trigger] s[i]).default matches Some(d) ==> elem_checkable(
                *d,
            ))),
    decreases s.len(),
{
    if s.len() > 0 {
        lemma_args_checkable_equiv(s.skip(1));
        if args_checkable(s) {
            assert forall|i: int|
                0 <= i < s.len() implies ((#[trigger] s[i]).default matches Some(d)
                ==> elem_checkable(*d)) by {
                if i > 0 {
                    assert(s.skip(1)[i - 1] == s[i]);
                }
            }
        }
        if forall|i: int|
            0 <= i < s.len() ==> ((#[trigger] s[i]).default matches Some(d) ==> elem_checkable(
                *d,
            )) {
            assert forall|i: int|
                0 <= i < s.skip(1).len() implies ((#[trigger] s.skip(1)[i]).default matches Some(
                d,
            ) ==> elem_checkable(*d)) by {
                assert(s.skip(1)[i] == s[i + 1]);
            }
            assert(args_checkable(s.skip(1)));
        }
    }
}

/// A keyword list is checkable exactly when each value is.
pub proof fn lemma_kwargs_checkable_equiv(s: Seq<(Seq<char>, ElementV)>)
    ensures
        kwargs_checkable(s) <==> (forall|i: int|
            0 <= i < s.len() ==> elem_checkable((#[trigger] s[i]).1)),
    decreases s.len(),
{
    if s.len() > 0 {
        lemma_kwargs_checkable_equiv(s.skip(1));
        if kwargs_checkable(s) {
            assert forall|i: int|
                0 <= i < s.len() implies elem_checkable((#[trigger] s[i]).1) by {
                if i > 0 {
                    assert(s.skip(1)[i - 1] == s[i]);
                }
            }
        }
        if forall|i: int| 0 <= i < s.len() ==> elem_checkable((#[trigger] s[i]).1) {
            assert forall|i: int|
                0 <= i < s.skip(1).len() implies elem_checkable((#[trigger] s.skip(1)[i]).1) by {
                assert(s.skip(1)[i] == s[i + 1]);
            }
            assert(kwargs_checkable(s.skip(1)));
        }
    }
}


/// Whether a node is a variable reference.
fn is_variable(e: &Element) -> (r: bool)
    ensures
        r == (e@ is VariableV),
{
    match e {
        Element::Variable { .. } => true,
        Element::Comment { .. } => false,
        Element::Call { .. } => false,
        Element::UnaryOpr { .. } => false,
        Element::BinaryOpr { .. } => false,
        Element::Declare { .. } => false,
        Element::Assign { .. } => false,
        Element::Literal { .. } => false,
        Element::If { .. } => false,
        Element::Block { .. } => false,
        Element::Delete { .. } => false,
        Element::Return { .. } => false,
        Element::Procedure { .. } => false,
        Element::NullElement => false,
        Element::Token(..) => false,
    }
}

/// Decides whether a node meets the shape the typing pass and the
/// evaluator demand: declaration and assignment targets are variables,
/// every `If` has an arm, and keyword arguments carry distinct names. A
/// front end handing over parsed input establishes the precondition of
/// `get_type`, `get_block_type`, `eval` and `interpret` with this check.
pub fn check_shape(e: &Element) -> (r: bool)
    ensures
        r == elem_checkable(e@),
    decreases *e, 1int,
{
    let ghost s0 = *e;
    match e {
        Element::Declare { variable, content, .. } => {
            proof {
                assert(decreases_to!(s0 => **content));
            }
            is_variable(variable) && check_shape(content)
        },
        Element::Assign { variable, content, .. } => {
            proof {
                assert(decreases_to!(s0 => **content));
            }
            is_variable(variable) && check_shape(content)
        },
        Element::If { conditions, .. } => {
            proof {
                assert(decreases_to!(s0 => *conditions));
            }
            conditions.len() > 0 && check_conds(conditions)
        },
        Element::Block { content, .. } => {
            proof {
                assert(decreases_to!(s0 => *content));
            }
            check_shapes(content)
        },
        Element::Call { called, args, kwargs, .. } => {
            proof {
                assert(decreases_to!(s0 => **called));
                assert(decreases_to!(s0 => *args));
                assert(decreases_to!(s0 => *kwargs));
            }
            check_shape(called) && check_shapes(args) && check_kwargs(kwargs)
                && check_kwargs_unique(kwargs)
        },
        Element::BinaryOpr { operand1, operand2, .. } => {
            proof {
                assert(decreases_to!(s0 => **operand1));
                assert(decreases_to!(s0 => **operand2));
            }
            check_shape(operand1) && check_shape(operand2)
        },
        Element::UnaryOpr { operand, .. } => {
            proof {
                assert(decreases_to!(s0 => **operand));
            }
            check_shape(operand)
        },
        Element::Return { value, .. } => {
            proof {
                assert(decreases_to!(s0 => **value));
            }
            check_shape(value)
        },
        Element::Procedure { args, content, .. } => {
            proof {
                assert(decreases_to!(s0 => *args));
                assert(decreases_to!(s0 => *content));
            }
            check_args(args) && check_shapes(content)
        },
        _ => true,
    }
}

/// Decides `elems_checkable` for a node list.
pub fn check_shapes(v: &Vec<Element>) -> (r: bool)
    ensures
        r == elems_checkable(elems_view(v@)),
    decreases *v, 0int,
{
    proof {
        lemma_elems_view(v@);
        lemma_elems_checkable_equiv(elems_view(v@));
    }
    let mut i: usize = 0;
    while i < v.len()
        invariant
            0 <= i <= v@.len(),
            forall|j: int| 0 <= j < i ==> elem_checkable(#[trigger] elems_view(v@)[j]),
        decreases v@.len() - i,
    {
        proof {
            lemma_elems_view(v@);
            assert(decreases_to!(*v => v@[i as int]));
        }
        if !check_shape(&v[i]) {
            proof {
                lemma_elems_checkable_equiv(elems_view(v@));
                assert(!elem_checkable(elems_view(v@)[i as int]));
                assert(!elems_checkable(elems_view(v@))) by {
                    if elems_checkable(elems_view(v@)) {
                        assert(elem_checkable(elems_view(v@)[i as int]));
                    }
                }
            }
            return false;
        }
        i += 1;
    }
    proof {
        lemma_elems_view(v@);
        lemma_elems_checkable_equiv(elems_view(v@));
    }
    true
}

/// Decides `conds_checkable` for the arms of an `If`.
fn check_conds(v: &Vec<Condition>) -> (r: bool)
    ensures
        r == conds_checkable(conds_view(v@)),
    decreases *v, 0int,
{
    proof {
        lemma_conds_view(v@);
        lemma_conds_checkable_equiv(conds_view(v@));
    }
    let mut i: usize = 0;
    while i < v.len()
        invariant
            0 <= i <= v@.len(),
            forall|j: int|
                0 <= j < i ==> elem_checkable(*(#[trigger] conds_view(v@)[j]).condition)
                    && elems_checkable(conds_view(v@)[j].if_true),
        decreases v@.len() - i,
    {
        proof {
            lemma_conds_view(v@);
            assert(decreases_to!(*v => v@[i as int].condition));
            assert(decreases_to!(*v => v@[i as int].if_true));
            assert(conds_view(v@)[i as int] == cond_view(v@[i as int]));
        }
        if !check_shape(&v[i].condition) {
            proof {
                lemma_conds_checkable_equiv(conds_view(v@));
                assert(!elem_checkable(*conds_view(v@)[i as int].condition));
                assert(!conds_checkable(conds_view(v@))) by {
                    if conds_checkable(conds_view(v@)) {
                        assert(elem_checkable(*(conds_view(v@)[i as int]).condition));
                    }
                }
            }
            return false;
        }
        if !check_shapes(&v[i].if_true) {
            proof {
                lemma_conds_checkable_equiv(conds_view(v@));
                assert(!elems_checkable(conds_view(v@)[i as int].if_true));
                assert(!conds_checkable(conds_view(v@))) by {
                    if conds_checkable(conds_view(v@)) {
                        assert(elems_checkable((conds_view(v@)[i as int]).if_true));
                    }
                }
            }
            return false;
        }
        i += 1;
    }
    proof {
        lemma_conds_view(v@);
        lemma_conds_checkable_equiv(conds_view(v@));
    }
    true
}

/// Decides `args_checkable` for a parameter list.
fn check_args(v: &Vec<Argument>) -> (r: bool)
    ensures
        r == args_checkable(args_view(v@)),
    decreases *v, 0int,
{
    proof {
        lemma_args_view(v@);
        lemma_args_checkable_equiv(args_view(v@));
    }
    let mut i: usize = 0;
    while i < v.len()
        invariant
            0 <= i <= v@.len(),
            forall|j: int|
                0 <= j < i ==> ((#[trigger] args_view(v@)[j]).default matches Some(d)
                    ==> elem_checkable(*d)),
        decreases v@.len() - i,
    {
        proof {
            lemma_args_view(v@);
            assert(args_view(v@)[i as int] == arg_view(v@[i as int]));
        }
        match &v[i].default {
            Some(d) => {
                proof {
                    assert(decreases_to!(*v => v@[i as int].default->Some_0));
                }
                if !check_shape(d) {
                    proof {
                        lemma_args_checkable_equiv(args_view(v@));
                        assert(args_view(v@)[i as int].default matches Some(dd) && !elem_checkable(
                            *dd,
                        ));
                        assert(!args_checkable(args_view(v@))) by {
                            if args_checkable(args_view(v@)) {
                                assert(args_view(v@)[i as int].default matches Some(dd)
                                    ==> elem_checkable(*dd));
                            }
                        }
                    }
                    return false;
                }
            },
            None => {},
        }
        i += 1;
    }
    proof {
        lemma_args_view(v@);
        lemma_args_checkable_equiv(args_view(v@));
    }
    true
}

/// Decides `kwargs_checkable` for a keyword-argument list.
fn check_kwargs(v: &Vec<(String, Element)>) -> (r: bool)
    ensures
        r == kwargs_checkable(kwargs_view(v@)),
    decreases *v, 0int,
{
    proof {
        lemma_kwargs_view(v@);
        lemma_kwargs_checkable_equiv(kwargs_view(v@));
    }
    let mut i: usize = 0;
    while i < v.len()
        invariant
            0 <= i <= v@.len(),
            forall|j: int| 0 <= j < i ==> elem_checkable((#[trigger] kwargs_view(v@)[j]).1),
        decreases v@.len() - i,
    {
        proof {
            lemma_kwargs_view(v@);
            assert(decreases_to!(*v => v@[i as int].1));
        }
        if !check_shape(&v[i].1) {
            proof {
                lemma_kwargs_checkable_equiv(kwargs_view(v@));
                assert(!elem_checkable(kwargs_view(v@)[i as int].1));
                assert(!kwargs_checkable(kwargs_view(v@))) by {
                    if kwargs_checkable(kwargs_view(v@)) {
                        assert(elem_checkable((kwargs_view(v@)[i as int]).1));
                    }
                }
            }
            return false;
        }
        i += 1;
    }
    proof {
        lemma_kwargs_view(v@);
        lemma_kwargs_checkable_equiv(kwargs_view(v@));
    }
    true
}

/// Decides `kwargs_unique` for a keyword-argument list.
fn check_kwargs_unique(v: &Vec<(String, Element)>) -> (r: bool)
    ensures
        r == kwargs_unique(kwargs_view(v@)),
{
    proof {
        lemma_kwargs_view(v@);
    }
    let mut i: usize = 0;
    while i < v.len()
        invariant
            0 <= i <= v@.len(),
            forall|a: int, b: int|
                0 <= a < b < v@.len() && b < i ==> (#[trigger] kwargs_view(v@)[a].0)
                    != (#[trigger] kwargs_view(v@)[b].0),
        decreases v@.len() - i,
    {
        let mut j: usize = 0;
        while j < i
            invariant
                0 <= j <= i < v@.len(),
                forall|a: int, b: int|
                    0 <= a < b < v@.len() && b < i ==> (#[trigger] kwargs_view(v@)[a].0)
                        != (#[trigger] kwargs_view(v@)[b].0),
                forall|a: int|
                    0 <= a < j ==> (#[trigger] kwargs_view(v@)[a].0) != kwargs_view(v@)[i as int].0,
            decreases i - j,
        {
            proof {
                lemma_kwargs_view(v@);
            }
            if v[j].0 == v[i].0 {
                proof {
                    assert(kwargs_view(v@)[j as int].0 == kwargs_view(v@)[i as int].0);
                    assert(!kwargs_unique(kwargs_view(v@)));
                }
                return false;
            }
            j += 1;
        }
        proof {
            lemma_kwargs_view(v@);
            assert forall|a: int, b: int|
                0 <= a < b < v@.len() && b < i + 1 implies (#[trigger] kwargs_view(v@)[a].0)
                != (#[trigger] kwargs_view(v@)[b].0) by {
                if b == i as int {
                    assert(kwargs_view(v@)[a].0 != kwargs_view(v@)[i as int].0);
                }
            }
        }
        i += 1;
    }
    true
}

} // verus!
