//! Runtime values and the operator algebra over them.
use vstd::prelude::*;
use num::BigInt;
use crate::element::Argument;
use crate::element::ArgumentV;
use crate::element::Element;
use crate::element::ElementV;
use crate::element::args_view;
use crate::element::elems_view;
use crate::element::dup_arguments;
use crate::element::dup_elements;
use crate::typeobj::Type;
use crate::typeobj::TypeV;
use crate::typeobj::type_view;
use crate::typeobj::null_type;
use crate::typeobj::prim_type;
use crate::value::big::big_dup;
use crate::value::big::big_int_value;
use crate::value::kinds::FloatKind;
use crate::value::kinds::NumKind;
use crate::value::kinds::float_kind_name;
use crate::value::kinds::in_kind_range;
use crate::value::kinds::kind_name;
use vstd::pervasive::unreached;
use vstd::string::StringExecFns;
use crate::errors::ZyxtError;
use crate::position::Position;
use crate::position::synthetic_pos;
use crate::token::OprType;
use crate::value::algebra::arg_names_join;
use crate::value::algebra::spec_bin_opr;
use crate::value::algebra::spec_call;
use crate::value::algebra::spec_display;
use crate::value::algebra::spec_un_opr;
use crate::value::algebra::unwrap_returns;
use crate::value::big::big_to_string;
use crate::value::utils::OprError;
use crate::value::utils::opr_result_view;

pub mod kinds;
pub mod big;
pub mod numstr;
pub mod algebra;
pub mod utils;
pub mod typecast;
pub mod add;
pub mod sub;
pub mod mul;
pub mod div;
pub mod modulo;
pub mod pow;
pub mod concat;

verus! {

/// A runtime value: one of the numeric tower, text, truth, a first-class
/// type, a procedure, a class instance, null, or the `Return` sentinel
/// that carries a value out of a block. Floating-point values are carried
/// as raw IEEE 754 bit patterns and take no part in the verified
/// arithmetic.
#[derive(Debug)]
pub enum Value {
    I8(i8),
    I16(i16),
    I32(i32),
    I64(i64),
    I128(i128),
    Isize(isize),
    Ibig(BigInt),
    U8(u8),
    U16(u16),
    U32(u32),
    U64(u64),
    U128(u128),
    Usize(usize),
    Ubig(BigInt),
    F16 { bits: u16 },
    F32 { bits: u32 },
    F64 { bits: u64 },
    Str(String),
    Bool(bool),
    Type(Type),
    Proc { is_fn: bool, args: Vec<Argument>, return_type: Type, content: Vec<Element> },
    ClassInstance { type_: Type, attrs: Vec<(String, Value)> },
    Null,
    Return(Box<Value>),
}

/// Mathematical image of a `Value`. Every integer kind collapses to the
/// integer it stands for, tagged by its kind.
pub enum ValueV {
    IntV { kind: NumKind, v: int },
    FloatV { kind: FloatKind, bits: int },
    StrV { s: Seq<char> },
    BoolV { b: bool },
    TypeValV { t: TypeV },
    ProcV { is_fn: bool, args: Seq<ArgumentV>, return_type: TypeV, content: Seq<ElementV> },
    ClassInstanceV { type_: TypeV, attrs: Seq<(Seq<char>, ValueV)> },
    NullV,
    ReturnV { inner: Box<ValueV> },
}

/// The image of a value.
pub open spec fn value_view(v: Value) -> ValueV
    decreases v,
{
    match v {
        Value::I8(x) => ValueV::IntV { kind: NumKind::I8, v: x as int },
        Value::I16(x) => ValueV::IntV { kind: NumKind::I16, v: x as int },
        Value::I32(x) => ValueV::IntV { kind: NumKind::I32, v: x as int },
        Value::I64(x) => ValueV::IntV { kind: NumKind::I64, v: x as int },
        Value::I128(x) => ValueV::IntV { kind: NumKind::I128, v: x as int },
        Value::Isize(x) => ValueV::IntV { kind: NumKind::Isize, v: x as int },
        Value::Ibig(b) => ValueV::IntV { kind: NumKind::Ibig, v: big_int_value(b) },
        Value::U8(x) => ValueV::IntV { kind: NumKind::U8, v: x as int },
        Value::U16(x) => ValueV::IntV { kind: NumKind::U16, v: x as int },
        Value::U32(x) => ValueV::IntV { kind: NumKind::U32, v: x as int },
        Value::U64(x) => ValueV::IntV { kind: NumKind::U64, v: x as int },
        Value::U128(x) => ValueV::IntV { kind: NumKind::U128, v: x as int },
        Value::Usize(x) => ValueV::IntV { kind: NumKind::Usize, v: x as int },
        Value::Ubig(b) => ValueV::IntV { kind: NumKind::Ubig, v: big_int_value(b) },
        Value::F16 { bits } => ValueV::FloatV { kind: FloatKind::F16, bits: bits as int },
        Value::F32 { bits } => ValueV::FloatV { kind: FloatKind::F32, bits: bits as int },
        Value::F64 { bits } => ValueV::FloatV { kind: FloatKind::F64, bits: bits as int },
        Value::Str(s) => ValueV::StrV { s: s@ },
        Value::Bool(b) => ValueV::BoolV { b },
        Value::Type(t) => ValueV::TypeValV { t: type_view(t) },
        Value::Proc { is_fn, args, return_type, content } => ValueV::ProcV {
            is_fn,
            args: args_view(args@),
            return_type: type_view(return_type),
            content: elems_view(content@),
        },
        Value::ClassInstance { type_, attrs } => ValueV::ClassInstanceV {
            type_: type_view(type_),
            attrs: attrs_view(attrs@),
        },
        Value::Null => ValueV::NullV,
        Value::Return(b) => ValueV::ReturnV { inner: Box::new(value_view(*b)) },
    }
}

/// The image of a class instance's attributes.
pub open spec fn attrs_view(s: Seq<(String, Value)>) -> Seq<(Seq<char>, ValueV)>
    decreases s,
{
    if s.len() == 0 {
        Seq::<(Seq<char>, ValueV)>::empty()
    } else {
        attrs_view(s.drop_last()).push((s.last().0@, value_view(s.last().1)))
    }
}

pub proof fn lemma_attrs_view(s: Seq<(String, Value)>)
    ensures
        attrs_view(s).len() == s.len(),
        forall|j: int| 0 <= j < s.len() ==> attrs_view(s)[j] == (s[j].0@, value_view(s[j].1)),
    decreases s.len(),
{
    if s.len() > 0 {
        lemma_attrs_view(s.drop_last());
    }
}

impl View for Value {
    type V = ValueV;

    open spec fn view(&self) -> ValueV {
        value_view(*self)
    }
}

/// Well-formedness of a value's image: every integer lies in the range of
/// its kind. The exec representation guarantees this for the fixed kinds;
/// for `Ubig` it says the magnitude is not negative.
pub open spec fn val_v_wf(v: ValueV) -> bool
    decreases v,
{
    match v {
        ValueV::IntV { kind, v: x } => in_kind_range(kind, x),
        ValueV::ReturnV { inner } => val_v_wf(*inner),
        ValueV::ClassInstanceV { attrs, .. } => attrs_v_wf(attrs) && attrs_unique(attrs),
        ValueV::ProcV { args, content, .. } => crate::element::args_checkable(args)
            && crate::element::elems_checkable(content),
        _ => true,
    }
}

pub open spec fn attrs_v_wf(s: Seq<(Seq<char>, ValueV)>) -> bool
    decreases s,
{
    if s.len() == 0 {
        true
    } else {
        attrs_v_wf(s.drop_last()) && val_v_wf(s.last().1)
    }
}

/// A class instance's attributes carry distinct names, as a map would
/// enforce.
pub open spec fn attrs_unique(s: Seq<(Seq<char>, ValueV)>) -> bool {
    forall|i: int, j: int| 0 <= i < j < s.len() ==> (#[trigger] s[i].0) != (#[trigger] s[j].0)
}

/// The type descriptor a value's image belongs to.
pub open spec fn spec_type_of(v: ValueV) -> TypeV
    decreases v,
{
    match v {
        ValueV::IntV { kind, .. } => prim_type(kind_name(kind)),
        ValueV::FloatV { kind, .. } => prim_type(float_kind_name(kind)),
        ValueV::StrV { .. } => prim_type("str"@),
        ValueV::BoolV { .. } => prim_type("bool"@),
        ValueV::TypeValV { .. } => prim_type("type"@),
        ValueV::ProcV { is_fn, return_type, .. } => TypeV::InstanceV {
            name: if is_fn {
                "fn"@
            } else {
                "proc"@
            },
            type_args: seq![null_type(), return_type],
        },
        ValueV::ClassInstanceV { type_, .. } => type_,
        ValueV::NullV => null_type(),
        ValueV::ReturnV { inner } => spec_type_of(*inner),
    }
}

impl Value {
    /// The type descriptor this value belongs to.
    pub fn get_type_obj(&self) -> (r: Type)
        ensures
            r@ == spec_type_of(self@),
        decreases *self,
    {
        match self {
            Value::I8(..) => Type::from_str("i8"),
            Value::I16(..) => Type::from_str("i16"),
            Value::I32(..) => Type::from_str("i32"),
            Value::I64(..) => Type::from_str("i64"),
            Value::I128(..) => Type::from_str("i128"),
            Value::Isize(..) => Type::from_str("isize"),
            Value::Ibig(..) => Type::from_str("ibig"),
            Value::U8(..) => Type::from_str("u8"),
            Value::U16(..) => Type::from_str("u16"),
            Value::U32(..) => Type::from_str("u32"),
            Value::U64(..) => Type::from_str("u64"),
            Value::U128(..) => Type::from_str("u128"),
            Value::Usize(..) => Type::from_str("usize"),
            Value::Ubig(..) => Type::from_str("ubig"),
            Value::F16 { .. } => Type::from_str("f16"),
            Value::F32 { .. } => Type::from_str("f32"),
            Value::F64 { .. } => Type::from_str("f64"),
            Value::Str(..) => Type::from_str("str"),
            Value::Bool(..) => Type::from_str("bool"),
            Value::Type(..) => Type::from_str("type"),
            Value::Proc { is_fn, return_type, .. } => {
                let mut type_args: Vec<Type> = Vec::new();
                type_args.push(Type::null());
                type_args.push(return_type.duplicate());
                let r = Type::Instance {
                    name: if *is_fn {
                        "fn".to_owned()
                    } else {
                        "proc".to_owned()
                    },
                    type_args,
                };
                proof {
                    crate::typeobj::lemma_types_view(r->Instance_type_args@);
                    assert(r@->InstanceV_type_args =~= seq![
                        null_type(),
                        spec_type_of(self@)->InstanceV_type_args[1],
                    ]);
                }
                r
            },
            Value::ClassInstance { type_, .. } => type_.duplicate(),
            Value::Null => Type::null(),
            Value::Return(v) => v.get_type_obj(),
        }
    }

    /// The type of this value, as a first-class `Type` value.
    pub fn get_type(&self) -> (r: Value)
        ensures
            r@ == (ValueV::TypeValV { t: spec_type_of(self@) }),
    {
        Value::Type(self.get_type_obj())
    }

    /// A copy standing for the same value.
    pub fn duplicate(&self) -> (r: Value)
        ensures
            r@ == self@,
        decreases *self,
    {
        match self {
            Value::I8(x) => Value::I8(*x),
            Value::I16(x) => Value::I16(*x),
            Value::I32(x) => Value::I32(*x),
            Value::I64(x) => Value::I64(*x),
            Value::I128(x) => Value::I128(*x),
            Value::Isize(x) => Value::Isize(*x),
            Value::Ibig(b) => Value::Ibig(big_dup(b)),
            Value::U8(x) => Value::U8(*x),
            Value::U16(x) => Value::U16(*x),
            Value::U32(x) => Value::U32(*x),
            Value::U64(x) => Value::U64(*x),
            Value::U128(x) => Value::U128(*x),
            Value::Usize(x) => Value::Usize(*x),
            Value::Ubig(b) => Value::Ubig(big_dup(b)),
            Value::F16 { bits } => Value::F16 { bits: *bits },
            Value::F32 { bits } => Value::F32 { bits: *bits },
            Value::F64 { bits } => Value::F64 { bits: *bits },
            Value::Str(s) => Value::Str(s.clone()),
            Value::Bool(b) => Value::Bool(*b),
            Value::Type(t) => Value::Type(t.duplicate()),
            Value::Proc { is_fn, args, return_type, content } => Value::Proc {
                is_fn: *is_fn,
                args: dup_arguments(args),
                return_type: return_type.duplicate(),
                content: dup_elements(content),
            },
            Value::ClassInstance { type_, attrs } => Value::ClassInstance {
                type_: type_.duplicate(),
                attrs: dup_attrs(self, attrs),
            },
            Value::Null => Value::Null,
            Value::Return(v) => Value::Return(Box::new(v.duplicate())),
        }
    }
}

/// A copy of a class instance's attributes; `parent` carries the
/// termination measure.
fn dup_attrs(parent: &Value, v: &Vec<(String, Value)>) -> (r: Vec<(String, Value)>)
    requires
        parent matches Value::ClassInstance { attrs, .. } && attrs == v,
    ensures
        attrs_view(r@) == attrs_view(v@),
    decreases *parent, 0int,
{
    let mut r: Vec<(String, Value)> = Vec::new();
    let mut i: usize = 0;
    while i < v.len()
        invariant
            0 <= i <= v@.len(),
            r@.len() == i,
            parent matches Value::ClassInstance { attrs, .. } && attrs == v,
            forall|j: int| 0 <= j < i ==> r@[j].0@ == v@[j].0@ && value_view(r@[j].1)
                == value_view(v@[j].1),
        decreases v@.len() - i,
    {
        proof {
            assert(decreases_to!(*parent => v@[i as int].1));
        }
        r.push((v[i].0.clone(), v[i].1.duplicate()));
        i += 1;
    }
    proof {
        lemma_attrs_view(r@);
        lemma_attrs_view(v@);
        assert(attrs_view(r@) =~= attrs_view(v@));
    }
    r
}


/// The image of a sequence of values.
pub open spec fn values_view(s: Seq<Value>) -> Seq<ValueV>
    decreases s,
{
    if s.len() == 0 {
        Seq::<ValueV>::empty()
    } else {
        values_view(s.drop_last()).push(value_view(s.last()))
    }
}

pub proof fn lemma_values_view(s: Seq<Value>)
    ensures
        values_view(s).len() == s.len(),
        forall|j: int| 0 <= j < s.len() ==> values_view(s)[j] == value_view(s[j]),
    decreases s.len(),
{
    if s.len() > 0 {
        lemma_values_view(s.drop_last());
    }
}

/// The default value of a primitive type: the zero or empty value of its
/// kind, `Null` for `#null`, and the null type for `type`. Other types
/// have no default here.
pub open spec fn spec_default(t: TypeV) -> Option<ValueV> {
    match t {
        TypeV::InstanceV { name, .. } => match crate::value::algebra::kind_of_name(name) {
            Some(k) => Some(ValueV::IntV { kind: k, v: 0 }),
            None => {
                if name == "str"@ {
                    Some(ValueV::StrV { s: Seq::<char>::empty() })
                } else if name == "bool"@ {
                    Some(ValueV::BoolV { b: false })
                } else if name == "#null"@ {
                    Some(ValueV::NullV)
                } else if name == "type"@ {
                    Some(ValueV::TypeValV { t: null_type() })
                } else if name == "f16"@ {
                    Some(ValueV::FloatV { kind: FloatKind::F16, bits: 0 })
                } else if name == "f32"@ {
                    Some(ValueV::FloatV { kind: FloatKind::F32, bits: 0 })
                } else if name == "f64"@ {
                    Some(ValueV::FloatV { kind: FloatKind::F64, bits: 0 })
                } else {
                    None
                }
            },
        },
        TypeV::DefinitionV { .. } => None,
    }
}

/// The value a literal of type `t` with text `s` stands for. Numeric
/// literals must parse and fit; a `type` literal names a bare type.
/// Floating-point literals are outside this core.
pub open spec fn spec_from_type_content(t: TypeV, s: Seq<char>) -> Option<ValueV> {
    match t {
        TypeV::InstanceV { name, .. } => match crate::value::algebra::kind_of_name(name) {
            Some(k) => match crate::value::numstr::parse_int_str(s) {
                Some(v) => {
                    if in_kind_range(k, v) {
                        Some(ValueV::IntV { kind: k, v })
                    } else {
                        None
                    }
                },
                None => None,
            },
            None => {
                if name == "str"@ {
                    Some(ValueV::StrV { s })
                } else if name == "bool"@ {
                    Some(ValueV::BoolV { b: s == "true"@ })
                } else if name == "type"@ {
                    Some(ValueV::TypeValV { t: prim_type(s) })
                } else {
                    None
                }
            },
        },
        TypeV::DefinitionV { .. } => None,
    }
}

/// The synthetic AST node a value projects back to: a literal carrying its
/// display text, a `Procedure` node for procedures. Floating-point values
/// and class instances have no projection here.
pub open spec fn spec_as_element(v: ValueV) -> Option<ElementV>
    decreases v,
{
    match v {
        ValueV::IntV { v: x, .. } => Some(
            ElementV::LiteralV {
                position: synthetic_pos(),
                type_: spec_type_of(v),
                content: crate::value::numstr::dec_str_int(x),
            },
        ),
        ValueV::FloatV { .. } => None,
        ValueV::StrV { s } => Some(
            ElementV::LiteralV { position: synthetic_pos(), type_: spec_type_of(v), content: s },
        ),
        ValueV::BoolV { b } => Some(
            ElementV::LiteralV {
                position: synthetic_pos(),
                type_: spec_type_of(v),
                content: if b {
                    "true"@
                } else {
                    "false"@
                },
            },
        ),
        ValueV::TypeValV { t } => Some(
            ElementV::LiteralV {
                position: synthetic_pos(),
                type_: spec_type_of(v),
                content: crate::typeobj::type_render(t),
            },
        ),
        ValueV::ProcV { is_fn, args, return_type, content } => Some(
            ElementV::ProcedureV {
                position: synthetic_pos(),
                is_fn,
                args,
                return_type,
                content,
            },
        ),
        ValueV::ClassInstanceV { .. } => None,
        ValueV::NullV => Some(ElementV::NullElementV),
        ValueV::ReturnV { inner } => match spec_as_element(*inner) {
            Some(e) => Some(
                ElementV::ReturnV { position: synthetic_pos(), value: Box::new(e) },
            ),
            None => None,
        },
    }
}

/// The parameter names of `args[i..]`, joined by commas.
fn arg_names_list(args: &Vec<Argument>, i: usize) -> (r: String)
    requires
        i < args@.len(),
    ensures
        r@ == arg_names_join(args_view(args@), i as int),
    decreases args@.len() - i,
{
    proof {
        crate::element::lemma_args_view(args@);
    }
    let first = args[i].name.clone();
    if i == args.len() - 1 {
        first
    } else {
        let mut s = first;
        s.append(",");
        let rest = arg_names_list(args, i + 1);
        s.append(rest.as_str());
        proof {
            crate::element::lemma_args_view(args@);
            assert(s@ =~= arg_names_join(args_view(args@), i as int));
        }
        s
    }
}

impl Value {
    /// The display text of this value, if it has one; floating-point
    /// values do not, in this core.
    pub fn to_display_string(&self) -> (r: Option<String>)
        ensures
            match r {
                Some(s) => spec_display(self@) == Some(s@),
                None => spec_display(self@) is None,
            },
        decreases *self,
    {
        match self {
            Value::Ibig(b) | Value::Ubig(b) => Some(big_to_string(b)),
            Value::F16 { .. } | Value::F32 { .. } | Value::F64 { .. } => None,
            Value::Str(s) => Some(s.clone()),
            Value::Bool(b) => Some(
                if *b {
                    "true".to_owned()
                } else {
                    "false".to_owned()
                },
            ),
            Value::Type(t) => {
                let mut s = "<".to_owned();
                s.append(t.rendered().as_str());
                s.append(">");
                proof {
                    assert(s@ =~= spec_display(self@)->Some_0);
                }
                Some(s)
            },
            Value::ClassInstance { type_, .. } => {
                let mut s = "<".to_owned();
                s.append(type_.rendered().as_str());
                s.append(">");
                proof {
                    assert(s@ =~= spec_display(self@)->Some_0);
                }
                Some(s)
            },
            Value::Proc { is_fn, args, return_type, .. } => {
                let mut s = if *is_fn {
                    "fn".to_owned()
                } else {
                    "proc".to_owned()
                };
                s.append("|");
                if args.len() > 0 {
                    let names = arg_names_list(args, 0);
                    s.append(names.as_str());
                }
                s.append("|: ");
                s.append(return_type.rendered().as_str());
                proof {
                    assert(s@ =~= spec_display(self@)->Some_0);
                }
                Some(s)
            },
            Value::Null => Some("null".to_owned()),
            Value::Return(v) => v.to_display_string(),
            _ => match crate::value::utils::fixed_int_parts(self) {
                Some((_, neg, mag)) => Some(crate::value::numstr::int_to_dec(neg, mag)),
                None => unreached(),
            },
        }
    }

    /// Applies a binary operator: a `Return` wrapper on the left unwraps
    /// first, then the operator's own table decides.
    pub fn bin_opr(&self, type_: &OprType, other: Value) -> (r: Result<Value, OprError>)
        requires
            val_v_wf(self@),
            val_v_wf(other@),
        ensures
            opr_result_view(r) == spec_bin_opr(*type_, self@, other@),
            r matches Ok(v) ==> val_v_wf(v@),
        decreases *self,
    {
        if let Value::Return(v) = self {
            return v.bin_opr(type_, other);
        }
        match type_ {
            OprType::Plus => crate::value::add::add(self, other),
            OprType::Minus => crate::value::sub::sub(self, other),
            OprType::AstMult | OprType::DotMult | OprType::CrossMult => crate::value::mul::mul(
                self,
                other,
            ),
            OprType::Div | OprType::FractDiv => crate::value::div::div(self, other),
            OprType::Modulo => crate::value::modulo::modulo(self, other),
            OprType::Pow => crate::value::pow::pow(self, other),
            OprType::Concat => crate::value::concat::concat(self, &other),
            OprType::TypeCast => crate::value::typecast::typecast(self, &other),
            OprType::MinusSign | OprType::PlusSign => Err(OprError::NoImplForOpr),
        }
    }

    /// Applies a unary operator: a `Return` wrapper unwraps first;
    /// `MinusSign` negates the signed fixed kinds and `PlusSign` is the
    /// identity on them.
    pub fn un_opr(&self, type_: &OprType) -> (r: Result<Value, OprError>)
        requires
            val_v_wf(self@),
        ensures
            opr_result_view(r) == spec_un_opr(*type_, self@),
            r matches Ok(v) ==> val_v_wf(v@),
        decreases *self,
    {
        if let Value::Return(v) = self {
            return v.un_opr(type_);
        }
        match type_ {
            OprType::MinusSign => {
                proof {
                    let k = self@->IntV_kind;
                    if self@ is IntV && !crate::value::kinds::is_big_kind(k) {
                        crate::value::utils::lemma_wrap_span(k, -self@->IntV_v);
                        crate::value::kinds::lemma_wrap_kind(k, -self@->IntV_v);
                    }
                }
                match self {
                    Value::I8(v) => Ok(Value::I8((0i8).wrapping_sub(*v))),
                    Value::I16(v) => Ok(Value::I16((0i16).wrapping_sub(*v))),
                    Value::I32(v) => Ok(Value::I32((0i32).wrapping_sub(*v))),
                    Value::I64(v) => Ok(Value::I64((0i64).wrapping_sub(*v))),
                    Value::I128(v) => Ok(Value::I128((0i128).wrapping_sub(*v))),
                    Value::Isize(v) => Ok(Value::Isize((0isize).wrapping_sub(*v))),
                    Value::Ibig(b) => {
                        let zero = crate::value::big::big_from_i128(0);
                        Ok(Value::Ibig(crate::value::big::big_sub(&zero, b)))
                    },
                    _ => Err(OprError::NoImplForOpr),
                }
            },
            OprType::PlusSign => match self {
                Value::I8(..) | Value::I16(..) | Value::I32(..) | Value::I64(..)
                    | Value::I128(..) | Value::Isize(..) | Value::Ibig(..) => Ok(self.duplicate()),
                _ => Err(OprError::NoImplForOpr),
            },
            _ => Err(OprError::NoImplForOpr),
        }
    }

    /// Calls a primitive value: one numeric argument multiplies, as
    /// juxtaposition. Procedures are the evaluator's business, and calling
    /// a type or class instance is not part of this core.
    pub fn call(&self, args: Vec<Value>) -> (r: Result<Value, OprError>)
        requires
            val_v_wf(self@),
            forall|j: int| 0 <= j < args@.len() ==> val_v_wf(#[trigger] args@[j]@),
            !(unwrap_returns(self@) is ProcV),
            !(unwrap_returns(self@) is TypeValV),
            !(unwrap_returns(self@) is ClassInstanceV),
        ensures
            opr_result_view(r) == spec_call(self@, values_view(args@)),
            r matches Ok(v) ==> val_v_wf(v@),
        decreases *self,
    {
        proof {
            lemma_values_view(args@);
        }
        if let Value::Return(v) = self {
            return v.call(args);
        }
        if args.len() != 1 {
            return Err(OprError::NoImplForOpr);
        }
        if crate::value::utils::is_numeric_exec(self) {
            let mut args = args;
            let a0 = args.remove(0);
            self.bin_opr(&OprType::AstMult, a0)
        } else {
            Err(OprError::NoImplForOpr)
        }
    }

    /// The default value of a primitive type; a type with no default is an
    /// internal error.
    pub fn default(type_: Type) -> (r: Result<Self, ZyxtError>)
        ensures
            match spec_default(type_@) {
                Some(v) => r matches Ok(val) && val@ == v && val_v_wf(val@),
                None => r matches Err(e) && e@ == crate::errors::err_internal(
                    crate::typeobj::type_render(type_@),
                ),
            },
    {
        let name = match &type_ {
            Type::Instance { name, .. } => name,
            Type::Definition { .. } => {
                return Err(crate::errors::error_0_0(type_.rendered()));
            },
        };
        match crate::value::typecast::kind_of_name_exec(name) {
            Some(k) => {
                proof {
                    assert(in_kind_range(k, 0));
                }
                Ok(crate::value::typecast::make_int_value(k, false, 0))
            },
            None => {
                if *name == "str".to_owned() {
                    Ok(Value::Str(String::new()))
                } else if *name == "bool".to_owned() {
                    Ok(Value::Bool(false))
                } else if *name == "#null".to_owned() {
                    Ok(Value::Null)
                } else if *name == "type".to_owned() {
                    Ok(Value::Type(Type::null()))
                } else if *name == "f16".to_owned() {
                    Ok(Value::F16 { bits: 0 })
                } else if *name == "f32".to_owned() {
                    Ok(Value::F32 { bits: 0 })
                } else if *name == "f64".to_owned() {
                    Ok(Value::F64 { bits: 0 })
                } else {
                    Err(crate::errors::error_0_0(type_.rendered()))
                }
            },
        }
    }

    /// The value a literal of type `type_` with text `content` stands for;
    /// a literal that does not parse is an internal error, since the
    /// parser validates literals.
    pub fn from_type_content(type_: Type, content: String) -> (r: Result<Value, ZyxtError>)
        ensures
            match spec_from_type_content(type_@, content@) {
                Some(v) => r matches Ok(val) && val@ == v && val_v_wf(val@),
                None => r matches Err(e) && e@ == crate::errors::err_internal(content@),
            },
    {
        let name = match &type_ {
            Type::Instance { name, .. } => name,
            Type::Definition { .. } => {
                return Err(crate::errors::error_0_0(content));
            },
        };
        match crate::value::typecast::kind_of_name_exec(name) {
            Some(k) => match crate::value::numstr::parse_dec_str(content.as_str()) {
                crate::value::numstr::ParsedInt::Within { neg, mag } => {
                    if crate::value::typecast::fits_kind(k, neg, mag) {
                        Ok(crate::value::typecast::make_int_value(k, neg, mag))
                    } else {
                        Err(crate::errors::error_0_0(content))
                    }
                },
                crate::value::numstr::ParsedInt::TooBig { neg } => {
                    let wanted: bool = match k {
                        NumKind::Ibig => true,
                        NumKind::Ubig => !neg,
                        _ => false,
                    };
                    if wanted {
                        match crate::value::big::big_parse(content.as_str()) {
                            Some(b) => {
                                if neg {
                                    Ok(Value::Ibig(b))
                                } else {
                                    match k {
                                        NumKind::Ibig => Ok(Value::Ibig(b)),
                                        NumKind::Ubig => Ok(Value::Ubig(b)),
                                        _ => unreached(),
                                    }
                                }
                            },
                            None => unreached(),
                        }
                    } else {
                        Err(crate::errors::error_0_0(content))
                    }
                },
                crate::value::numstr::ParsedInt::Malformed => Err(
                    crate::errors::error_0_0(content),
                ),
            },
            None => {
                if *name == "str".to_owned() {
                    Ok(Value::Str(content))
                } else if *name == "bool".to_owned() {
                    Ok(Value::Bool(content == "true".to_owned()))
                } else if *name == "type".to_owned() {
                    Ok(Value::Type(Type::Instance { name: content, type_args: Vec::new() }))
                } else {
                    Err(crate::errors::error_0_0(content))
                }
            },
        }
    }

    /// The synthetic AST node this value projects back to, used when the
    /// typing pass writes a type into the tree. Floating-point values and
    /// class instances have none.
    pub fn as_element(&self) -> (r: Option<Element>)
        ensures
            match r {
                Some(e) => spec_as_element(self@) == Some(e@),
                None => spec_as_element(self@) is None,
            },
        decreases *self,
    {
        match self {
            Value::F16 { .. } | Value::F32 { .. } | Value::F64 { .. } => None,
            Value::ClassInstance { .. } => None,
            Value::Proc { is_fn, args, return_type, content } => Some(
                Element::Procedure {
                    position: Position::synthetic(),
                    is_fn: *is_fn,
                    args: dup_arguments(args),
                    return_type: return_type.duplicate(),
                    content: dup_elements(content),
                },
            ),
            Value::Null => Some(Element::NullElement),
            Value::Return(v) => match v.as_element() {
                Some(e) => Some(
                    Element::Return { position: Position::synthetic(), value: Box::new(e) },
                ),
                None => None,
            },
            Value::Type(t) => Some(
                Element::Literal {
                    position: Position::synthetic(),
                    type_: self.get_type_obj(),
                    content: t.rendered(),
                },
            ),
            _ => match self.to_display_string() {
                Some(text) => Some(
                    Element::Literal {
                        position: Position::synthetic(),
                        type_: self.get_type_obj(),
                        content: text,
                    },
                ),
                None => unreached(),
            },
        }
    }
}

/// A `Return` wrapper on the left of a binary operator is transparent:
/// the operator applies to the wrapped value.
pub proof fn lemma_return_transparent(op: OprType, a: ValueV, b: ValueV)
    ensures
        spec_bin_opr(op, ValueV::ReturnV { inner: Box::new(a) }, b) == spec_bin_opr(op, a, b),
{
}

} // verus!
