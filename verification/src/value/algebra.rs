//! The mathematical semantics of the operator algebra: what each operator
//! returns, over value images.
use vstd::prelude::*;
use vstd::arithmetic::power::pow;
use crate::element::ArgumentV;
use crate::token::OprType;
use crate::typeobj::TypeV;
use crate::typeobj::prim_type;
use crate::typeobj::type_render;
use crate::value::ValueV;
use crate::value::kinds::NumKind;
use crate::value::kinds::in_kind_range;
use crate::value::kinds::is_big_kind;
use crate::value::kinds::is_signed_kind;
use crate::value::kinds::kind_name;
use crate::value::kinds::trunc_div;
use crate::value::kinds::trunc_rem;
use crate::value::kinds::wrap_kind;
use crate::value::numstr::dec_str_int;
use crate::value::numstr::ndigits;
use crate::value::numstr::parse_int_str;
use crate::value::numstr::pow10;

verus! {

/// The failure surface of the operator algebra, over images.
pub enum OprErrorV {
    NoImplForOprV,
    TypecastErrorV { t: TypeV },
    ZeroDivisionV,
    OverflowV,
}

/// The numeric kind a type name denotes, if any.
pub open spec fn kind_of_name(n: Seq<char>) -> Option<NumKind> {
    if n == "i8"@ {
        Some(NumKind::I8)
    } else if n == "i16"@ {
        Some(NumKind::I16)
    } else if n == "i32"@ {
        Some(NumKind::I32)
    } else if n == "i64"@ {
        Some(NumKind::I64)
    } else if n == "i128"@ {
        Some(NumKind::I128)
    } else if n == "isize"@ {
        Some(NumKind::Isize)
    } else if n == "ibig"@ {
        Some(NumKind::Ibig)
    } else if n == "u8"@ {
        Some(NumKind::U8)
    } else if n == "u16"@ {
        Some(NumKind::U16)
    } else if n == "u32"@ {
        Some(NumKind::U32)
    } else if n == "u64"@ {
        Some(NumKind::U64)
    } else if n == "u128"@ {
        Some(NumKind::U128)
    } else if n == "usize"@ {
        Some(NumKind::Usize)
    } else if n == "ubig"@ {
        Some(NumKind::Ubig)
    } else {
        None
    }
}

/// The name a type descriptor goes by.
pub open spec fn type_name_of(t: TypeV) -> Seq<char> {
    match t {
        TypeV::InstanceV { name, .. } => name,
        TypeV::DefinitionV { name } => name,
    }
}

pub open spec fn is_numeric_v(v: ValueV) -> bool {
    v is IntV || v is FloatV
}

/// The parameter names of a procedure, joined by commas.
pub open spec fn arg_names_join(args: Seq<ArgumentV>, i: int) -> Seq<char>
    decreases args.len() - i,
{
    if i < 0 || i >= args.len() {
        Seq::<char>::empty()
    } else if i == args.len() - 1 {
        args[i].name
    } else {
        args[i].name.add(","@).add(arg_names_join(args, i + 1))
    }
}

/// The display form of a value: decimal for the integer kinds, verbatim
/// text, `true`/`false`, `null`, `<T>` for types and class instances, and
/// `fn|a,b|: T` for procedures. Floating-point values have no display form
/// in this core.
pub open spec fn spec_display(v: ValueV) -> Option<Seq<char>>
    decreases v,
{
    match v {
        ValueV::IntV { v: x, .. } => Some(dec_str_int(x)),
        ValueV::FloatV { .. } => None,
        ValueV::StrV { s } => Some(s),
        ValueV::BoolV { b } => Some(
            if b {
                "true"@
            } else {
                "false"@
            },
        ),
        ValueV::TypeValV { t } => Some("<"@.add(type_render(t)).add(">"@)),
        ValueV::ProcV { is_fn, args, return_type, .. } => Some(
            (if is_fn {
                "fn"@
            } else {
                "proc"@
            }).add("|"@).add(arg_names_join(args, 0)).add("|: "@).add(type_render(return_type)),
        ),
        ValueV::ClassInstanceV { type_, .. } => Some("<"@.add(type_render(type_)).add(">"@)),
        ValueV::NullV => Some("null"@),
        ValueV::ReturnV { inner } => spec_display(*inner),
    }
}

/// Casting a value to the type `t`: numeric kinds truncate two's-complement
/// style, any value with a display form casts to `str`, strings parse to
/// numeric kinds and compare against `true` for `bool`, and booleans cast
/// to 1 or 0. Everything else is a `TypecastError`.
pub open spec fn spec_typecast_to(x: ValueV, t: TypeV) -> Result<ValueV, OprErrorV> {
    let name = type_name_of(t);
    match kind_of_name(name) {
        Some(k) => match x {
            ValueV::IntV { v, .. } => {
                if k is Ubig && v < 0 {
                    Err(OprErrorV::TypecastErrorV { t })
                } else {
                    Ok(ValueV::IntV { kind: k, v: wrap_kind(k, v) })
                }
            },
            ValueV::BoolV { b } => Ok(
                ValueV::IntV {
                    kind: k,
                    v: if b {
                        1
                    } else {
                        0
                    },
                },
            ),
            ValueV::StrV { s } => match parse_int_str(s) {
                Some(v) => {
                    if in_kind_range(k, v) {
                        Ok(ValueV::IntV { kind: k, v })
                    } else {
                        Err(OprErrorV::TypecastErrorV { t })
                    }
                },
                None => Err(OprErrorV::TypecastErrorV { t }),
            },
            _ => Err(OprErrorV::TypecastErrorV { t }),
        },
        None => {
            if name == "str"@ {
                match spec_display(x) {
                    Some(s) => Ok(ValueV::StrV { s }),
                    None => Err(OprErrorV::TypecastErrorV { t }),
                }
            } else if name == "bool"@ {
                match x {
                    ValueV::StrV { s } => Ok(ValueV::BoolV { b: s == "true"@ }),
                    _ => Err(OprErrorV::TypecastErrorV { t }),
                }
            } else {
                Err(OprErrorV::TypecastErrorV { t })
            }
        },
    }
}

/// `TypeCast` demands a first-class type on its right-hand side.
pub open spec fn spec_typecast(x: ValueV, to: ValueV) -> Result<ValueV, OprErrorV> {
    match to {
        ValueV::TypeValV { t } => spec_typecast_to(x, t),
        _ => Err(OprErrorV::NoImplForOprV),
    }
}

/// Arithmetic on two operands already of one kind: fixed kinds wrap
/// two's-complement style, division and remainder truncate toward zero and
/// reject a zero divisor, and `Pow` rejects a negative exponent and gives
/// up past 64 bits of exponent.
pub open spec fn spec_int_arith(op: OprType, k: NumKind, x: int, y: int) -> Result<
    ValueV,
    OprErrorV,
> {
    match op {
        OprType::Plus => Ok(ValueV::IntV { kind: k, v: wrap_kind(k, x + y) }),
        OprType::Minus => {
            if k is Ubig && x - y < 0 {
                Err(OprErrorV::OverflowV)
            } else {
                Ok(ValueV::IntV { kind: k, v: wrap_kind(k, x - y) })
            }
        },
        OprType::AstMult | OprType::DotMult | OprType::CrossMult => Ok(
            ValueV::IntV { kind: k, v: wrap_kind(k, x * y) },
        ),
        OprType::Div | OprType::FractDiv => {
            if y == 0 {
                Err(OprErrorV::ZeroDivisionV)
            } else {
                Ok(ValueV::IntV { kind: k, v: wrap_kind(k, trunc_div(x, y)) })
            }
        },
        OprType::Modulo => {
            if y == 0 {
                Err(OprErrorV::ZeroDivisionV)
            } else {
                Ok(ValueV::IntV { kind: k, v: wrap_kind(k, trunc_rem(x, y)) })
            }
        },
        OprType::Pow => {
            if y < 0 {
                Err(OprErrorV::NoImplForOprV)
            } else if y > u64::MAX {
                Err(OprErrorV::OverflowV)
            } else {
                Ok(ValueV::IntV { kind: k, v: wrap_kind(k, pow(x, y as nat)) })
            }
        },
        _ => Err(OprErrorV::NoImplForOprV),
    }
}

/// The numeric binary template: the right-hand side is cast to the
/// left-hand side's kind, then the operation is applied within that kind.
/// A non-numeric right-hand side has no implementation; floating-point
/// operands are outside this core.
pub open spec fn spec_num_binop(op: OprType, a: ValueV, b: ValueV) -> Result<ValueV, OprErrorV> {
    match a {
        ValueV::IntV { kind: k, v: x } => {
            if !is_numeric_v(b) {
                Err(OprErrorV::NoImplForOprV)
            } else {
                match spec_typecast_to(b, prim_type(kind_name(k))) {
                    Ok(ValueV::IntV { v: y, .. }) => spec_int_arith(op, k, x, y),
                    Ok(_) => Err(OprErrorV::NoImplForOprV),
                    Err(e) => Err(e),
                }
            }
        },
        _ => Err(OprErrorV::NoImplForOprV),
    }
}

/// `s` repeated `n` times.
pub open spec fn repeat_seq(s: Seq<char>, n: nat) -> Seq<char>
    decreases n,
{
    if n == 0 {
        Seq::<char>::empty()
    } else {
        repeat_seq(s, (n - 1) as nat).add(s)
    }
}

/// A string multiplied by an integer count repeats it. A negative count is
/// a cast error towards `str`; a result beyond the address space is the
/// host's capacity panic, reported as `Overflow`.
pub open spec fn spec_str_repeat(s: Seq<char>, count: ValueV) -> Result<ValueV, OprErrorV> {
    match count {
        ValueV::IntV { kind: k, v: y } => {
            if y < 0 {
                Err(OprErrorV::TypecastErrorV { t: prim_type("str"@) })
            } else if y * s.len() > usize::MAX || y > usize::MAX {
                Err(OprErrorV::OverflowV)
            } else {
                Ok(ValueV::StrV { s: repeat_seq(s, y as nat) })
            }
        },
        _ => Err(OprErrorV::NoImplForOprV),
    }
}

/// Multiplication: if either operand is a string the other is a repeat
/// count, otherwise the numeric template applies.
pub open spec fn spec_mul(a: ValueV, b: ValueV) -> Result<ValueV, OprErrorV> {
    match a {
        ValueV::StrV { s } => spec_str_repeat(s, b),
        _ => match b {
            ValueV::StrV { s } => spec_str_repeat(s, a),
            _ => spec_num_binop(OprType::AstMult, a, b),
        },
    }
}

/// The widening rank of each fixed kind: wider kinds rank higher, with the
/// pointer-width kinds between the 32- and 64-bit ones.
pub open spec fn concat_rank(k: NumKind) -> int {
    match k {
        NumKind::I8 | NumKind::U8 => 1int,
        NumKind::I16 | NumKind::U16 => 2int,
        NumKind::I32 | NumKind::U32 => 3int,
        NumKind::Isize | NumKind::Usize => 4int,
        NumKind::I64 | NumKind::U64 => 5int,
        NumKind::I128 | NumKind::U128 => 6int,
        NumKind::Ibig | NumKind::Ubig => 0int,
    }
}

/// The fixed kind with the given signedness and rank.
pub open spec fn kind_of_rank(signed: bool, rank: int) -> NumKind {
    if signed {
        if rank == 1 {
            NumKind::I8
        } else if rank == 2 {
            NumKind::I16
        } else if rank == 3 {
            NumKind::I32
        } else if rank == 4 {
            NumKind::Isize
        } else if rank == 5 {
            NumKind::I64
        } else {
            NumKind::I128
        }
    } else {
        if rank == 1 {
            NumKind::U8
        } else if rank == 2 {
            NumKind::U16
        } else if rank == 3 {
            NumKind::U32
        } else if rank == 4 {
            NumKind::Usize
        } else if rank == 5 {
            NumKind::U64
        } else {
            NumKind::U128
        }
    }
}

/// The kind a concatenation of two fixed kinds lands in: the wider of the
/// two by rank, signed if either side is.
pub open spec fn concat_kind(k1: NumKind, k2: NumKind) -> Option<NumKind> {
    if is_big_kind(k1) || is_big_kind(k2) {
        None
    } else {
        let r1 = concat_rank(k1);
        let r2 = concat_rank(k2);
        Some(
            kind_of_rank(
                is_signed_kind(k1) || is_signed_kind(k2),
                if r1 >= r2 {
                    r1
                } else {
                    r2
                },
            ),
        )
    }
}

/// The value whose decimal text is the decimal text of `x` followed by
/// that of `y`; meaningful for `y >= 0`.
pub open spec fn concat_val(x: int, y: int) -> int {
    if x < 0 {
        -((-x) * pow10(ndigits(y as nat)) + y)
    } else {
        x * pow10(ndigits(y as nat)) + y
    }
}

/// Concatenation: two fixed integers concatenate their decimal texts and
/// land in the widened kind when the result is representable there; a
/// string concatenates with the display form of integers and booleans.
pub open spec fn spec_concat(a: ValueV, b: ValueV) -> Result<ValueV, OprErrorV> {
    match (a, b) {
        (ValueV::IntV { kind: k1, v: x }, ValueV::IntV { kind: k2, v: y }) => {
            match concat_kind(k1, k2) {
                Some(kc) => {
                    if y < 0 {
                        Err(OprErrorV::NoImplForOprV)
                    } else if in_kind_range(kc, concat_val(x, y)) {
                        Ok(ValueV::IntV { kind: kc, v: concat_val(x, y) })
                    } else {
                        Err(OprErrorV::NoImplForOprV)
                    }
                },
                None => Err(OprErrorV::NoImplForOprV),
            }
        },
        (ValueV::IntV { kind: k1, v: x }, ValueV::StrV { s }) => {
            if is_big_kind(k1) {
                Err(OprErrorV::NoImplForOprV)
            } else {
                Ok(ValueV::StrV { s: dec_str_int(x).add(s) })
            }
        },
        (ValueV::StrV { s }, ValueV::IntV { kind: k2, v: y }) => {
            if is_big_kind(k2) {
                Err(OprErrorV::NoImplForOprV)
            } else {
                Ok(ValueV::StrV { s: s.add(dec_str_int(y)) })
            }
        },
        (ValueV::StrV { s: s1 }, ValueV::StrV { s: s2 }) => Ok(ValueV::StrV { s: s1.add(s2) }),
        (ValueV::StrV { s: s1 }, ValueV::BoolV { b }) => Ok(
            ValueV::StrV {
                s: s1.add(
                    if b {
                        "true"@
                    } else {
                        "false"@
                    },
                ),
            },
        ),
        (ValueV::BoolV { b }, ValueV::StrV { s: s2 }) => Ok(
            ValueV::StrV {
                s: (if b {
                    "true"@
                } else {
                    "false"@
                }).add(s2),
            },
        ),
        _ => Err(OprErrorV::NoImplForOprV),
    }
}

/// A `Return` wrapper on the left unwraps before any binary operator
/// applies; then each operator tag picks its table.
pub open spec fn spec_bin_opr(op: OprType, a: ValueV, b: ValueV) -> Result<ValueV, OprErrorV>
    decreases a,
{
    match a {
        ValueV::ReturnV { inner } => spec_bin_opr(op, *inner, b),
        _ => match op {
            OprType::Plus | OprType::Minus | OprType::Div | OprType::FractDiv | OprType::Modulo
                | OprType::Pow => spec_num_binop(op, a, b),
            OprType::AstMult | OprType::DotMult | OprType::CrossMult => spec_mul(a, b),
            OprType::Concat => spec_concat(a, b),
            OprType::TypeCast => spec_typecast(a, b),
            OprType::MinusSign | OprType::PlusSign => Err(OprErrorV::NoImplForOprV),
        },
    }
}

/// A `Return` wrapper unwraps; `MinusSign` negates the signed fixed kinds
/// and `PlusSign` is the identity on them.
pub open spec fn spec_un_opr(op: OprType, a: ValueV) -> Result<ValueV, OprErrorV>
    decreases a,
{
    match a {
        ValueV::ReturnV { inner } => spec_un_opr(op, *inner),
        _ => match op {
            OprType::MinusSign => match a {
                ValueV::IntV { kind: k, v: x } => {
                    if is_signed_kind(k) {
                        Ok(ValueV::IntV { kind: k, v: wrap_kind(k, -x) })
                    } else {
                        Err(OprErrorV::NoImplForOprV)
                    }
                },
                _ => Err(OprErrorV::NoImplForOprV),
            },
            OprType::PlusSign => match a {
                ValueV::IntV { kind: k, .. } => {
                    if is_signed_kind(k) {
                        Ok(a)
                    } else {
                        Err(OprErrorV::NoImplForOprV)
                    }
                },
                _ => Err(OprErrorV::NoImplForOprV),
            },
            _ => Err(OprErrorV::NoImplForOprV),
        },
    }
}

/// The value under any `Return` wrappers.
pub open spec fn unwrap_returns(a: ValueV) -> ValueV
    decreases a,
{
    match a {
        ValueV::ReturnV { inner } => unwrap_returns(*inner),
        _ => a,
    }
}

/// Calling a non-procedure value: one numeric argument multiplies, as
/// juxtaposition; anything else has no implementation.
pub open spec fn spec_call(a: ValueV, args: Seq<ValueV>) -> Result<ValueV, OprErrorV>
    decreases a,
{
    match a {
        ValueV::ReturnV { inner } => spec_call(*inner, args),
        _ => {
            if args.len() != 1 {
                Err(OprErrorV::NoImplForOprV)
            } else {
                match a {
                    ValueV::IntV { .. } | ValueV::FloatV { .. } => spec_bin_opr(
                        OprType::AstMult,
                        a,
                        args[0],
                    ),
                    _ => Err(OprErrorV::NoImplForOprV),
                }
            }
        },
    }
}

/// Each kind's name denotes that kind.
pub proof fn lemma_kind_name_roundtrip(k: NumKind)
    ensures
        kind_of_name(kind_name(k)) == Some(k),
{
    reveal_strlit("i8");
    reveal_strlit("i16");
    reveal_strlit("i32");
    reveal_strlit("i64");
    reveal_strlit("i128");
    reveal_strlit("isize");
    reveal_strlit("ibig");
    reveal_strlit("u8");
    reveal_strlit("u16");
    reveal_strlit("u32");
    reveal_strlit("u64");
    reveal_strlit("u128");
    reveal_strlit("usize");
    reveal_strlit("ubig");
    assert("i8"@ =~= seq!['i', '8']);
    assert("i16"@ =~= seq!['i', '1', '6']);
    assert("i32"@ =~= seq!['i', '3', '2']);
    assert("i64"@ =~= seq!['i', '6', '4']);
    assert("i128"@ =~= seq!['i', '1', '2', '8']);
    assert("isize"@ =~= seq!['i', 's', 'i', 'z', 'e']);
    assert("ibig"@ =~= seq!['i', 'b', 'i', 'g']);
    assert("u8"@ =~= seq!['u', '8']);
    assert("u16"@ =~= seq!['u', '1', '6']);
    assert("u32"@ =~= seq!['u', '3', '2']);
    assert("u64"@ =~= seq!['u', '6', '4']);
    assert("u128"@ =~= seq!['u', '1', '2', '8']);
    assert("usize"@ =~= seq!['u', 's', 'i', 'z', 'e']);
    assert("ubig"@ =~= seq!['u', 'b', 'i', 'g']);
    match k {
        NumKind::I8 => assert(kind_of_name("i8"@) == Some(NumKind::I8)),
        NumKind::I16 => assert(kind_of_name("i16"@) == Some(NumKind::I16)),
        NumKind::I32 => assert(kind_of_name("i32"@) == Some(NumKind::I32)),
        NumKind::I64 => assert(kind_of_name("i64"@) == Some(NumKind::I64)),
        NumKind::I128 => assert(kind_of_name("i128"@) == Some(NumKind::I128)),
        NumKind::Isize => assert(kind_of_name("isize"@) == Some(NumKind::Isize)),
        NumKind::Ibig => assert(kind_of_name("ibig"@) == Some(NumKind::Ibig)),
        NumKind::U8 => assert(kind_of_name("u8"@) == Some(NumKind::U8)),
        NumKind::U16 => assert(kind_of_name("u16"@) == Some(NumKind::U16)),
        NumKind::U32 => assert(kind_of_name("u32"@) == Some(NumKind::U32)),
        NumKind::U64 => assert(kind_of_name("u64"@) == Some(NumKind::U64)),
        NumKind::U128 => assert(kind_of_name("u128"@) == Some(NumKind::U128)),
        NumKind::Usize => assert(kind_of_name("usize"@) == Some(NumKind::Usize)),
        NumKind::Ubig => assert(kind_of_name("ubig"@) == Some(NumKind::Ubig)),
    }
}

/// Concatenation law: a string on the right always yields a string, for
/// every boolean, string or fixed-kind integer on the left. (The big
/// integer kinds and floating point take no part in concatenation here.)
pub proof fn lemma_concat_str_is_str(x: ValueV, y: ValueV)
    requires
        y is StrV,
        x is StrV || x is BoolV || (x matches ValueV::IntV { kind, .. } && !is_big_kind(kind)),
    ensures
        spec_concat(x, y) matches Ok(v) && v is StrV,
{
}

/// Concatenation law: two fixed-kind integers that concatenate land in
/// the widened kind of the pair.
pub proof fn lemma_concat_widens(x: ValueV, y: ValueV)
    requires
        x matches ValueV::IntV { kind: k1, .. } && !is_big_kind(k1),
        y matches ValueV::IntV { kind: k2, .. } && !is_big_kind(k2),
    ensures
        spec_concat(x, y) matches Ok(v) ==> v matches ValueV::IntV { kind: kc, .. } && Some(kc)
            == concat_kind(x->IntV_kind, y->IntV_kind),
{
}

/// Typecast round trip: a value representable in both kinds comes back
/// unchanged after casting away and back.
pub proof fn lemma_typecast_round_trip(k0: NumKind, k1: NumKind, v: int)
    requires
        in_kind_range(k0, v),
        in_kind_range(k1, v),
    ensures
        spec_typecast_to(ValueV::IntV { kind: k0, v }, crate::typeobj::prim_type(kind_name(k1)))
            == Ok::<ValueV, OprErrorV>(ValueV::IntV { kind: k1, v }),
        spec_typecast_to(ValueV::IntV { kind: k1, v }, crate::typeobj::prim_type(kind_name(k0)))
            == Ok::<ValueV, OprErrorV>(ValueV::IntV { kind: k0, v }),
{
    lemma_kind_name_roundtrip(k0);
    lemma_kind_name_roundtrip(k1);
    if !is_big_kind(k0) {
        crate::value::kinds::lemma_wrap_kind(k0, v);
    }
    if !is_big_kind(k1) {
        crate::value::kinds::lemma_wrap_kind(k1, v);
    }
}

/// Default law: the default value of a bare primitive type belongs to
/// exactly that type.
pub proof fn lemma_default_type(t: TypeV)
    requires
        t matches TypeV::InstanceV { type_args, .. } && type_args.len() == 0,
        crate::value::spec_default(t) is Some,
    ensures
        crate::value::spec_default(t) matches Some(v) && crate::value::spec_type_of(v) == t,
{
    let name = type_name_of(t);
    assert(t->InstanceV_type_args =~= Seq::<TypeV>::empty());
    assert(t == crate::typeobj::prim_type(name));
    match kind_of_name(name) {
        Some(k) => {
            lemma_kind_name_roundtrip(k);
            assert(kind_name(k) == name);
        },
        None => {},
    }
}

} // verus!
