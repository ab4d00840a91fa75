use zyxt::element::{check_shapes, Argument, Condition, Element};
use zyxt::errors::ErrorCode;
use zyxt::interpreter::{eval, interpret};
use zyxt::position::Position;
use zyxt::token::OprType;
use zyxt::typeobj::Type;
use zyxt::value::utils::OprError;
use zyxt::value::Value;
use zyxt::varstack::Varstack;

fn pos() -> Position {
    Position { filename: "test".to_owned(), line: 1, column: 1 }
}

fn lit(ty: &str, text: &str) -> Element {
    Element::Literal { position: pos(), type_: Type::from_str(ty), content: text.to_owned() }
}

fn var(name: &str) -> Element {
    Element::Variable {
        position: pos(),
        name: name.to_owned(),
        parent: Box::new(Element::NullElement),
    }
}

fn declare(name: &str, ty: Option<&str>, content: Element) -> Element {
    Element::Declare {
        position: pos(),
        variable: Box::new(var(name)),
        content: Box::new(content),
        flags: Vec::new(),
        type_: match ty {
            Some(t) => Type::from_str(t),
            None => Type::null(),
        },
    }
}

fn binop(op: OprType, a: Element, b: Element) -> Element {
    Element::BinaryOpr { position: pos(), type_: op, operand1: Box::new(a), operand2: Box::new(b) }
}

fn check_program(prog: Vec<Element>) -> Result<Vec<Element>, zyxt::errors::ZyxtError> {
    let mut tl: Varstack<Type> = Varstack::new();
    let (out, _t) = Element::get_block_type(prog, &mut tl, false)?;
    Ok(out)
}

#[test]
fn integer_add_keeps_left_kind() {
    // i32 a := 1; i64 b := 2; a + b follows the algebra: the right-hand
    // side is cast to the left-hand side's kind.
    let prog = vec![
        declare("a", Some("i32"), lit("i32", "1")),
        declare("b", Some("i64"), lit("i64", "2")),
        binop(OprType::Plus, var("a"), var("b")),
    ];
    let prog = check_program(prog).unwrap();
    let v = interpret(&prog, 100).unwrap();
    assert!(matches!(v, Value::I32(3)));
}

#[test]
fn implicit_declare_cast_inserted() {
    // f64 x := 3 rewrites the content into a TypeCast towards f64.
    let prog = vec![declare("x", Some("f64"), lit("i32", "3"))];
    let out = check_program(prog).unwrap();
    match &out[0] {
        Element::Declare { content, type_, .. } => {
            assert!(type_.eq_type(&Type::from_str("f64")));
            match &**content {
                Element::BinaryOpr { type_: op, operand2, .. } => {
                    assert!(matches!(op, OprType::TypeCast));
                    match &**operand2 {
                        Element::Literal { type_, content, .. } => {
                            assert!(type_.eq_type(&Type::from_str("type")));
                            assert_eq!(content, "f64");
                        },
                        other => panic!("expected a type literal, got {:?}", other),
                    }
                },
                other => panic!("expected an inserted cast, got {:?}", other),
            }
        },
        other => panic!("expected a declaration, got {:?}", other),
    }
}

#[test]
fn string_repeat() {
    let r = Value::Str("ab".to_owned()).bin_opr(&OprType::AstMult, Value::I32(3)).unwrap();
    match r {
        Value::Str(s) => assert_eq!(s, "ababab"),
        other => panic!("expected text, got {:?}", other),
    }
}

#[test]
fn string_repeat_negative_is_cast_error() {
    let r = Value::Str("ab".to_owned()).bin_opr(&OprType::AstMult, Value::I32(-1));
    match r {
        Err(OprError::TypecastError(t)) => assert_eq!(t.rendered(), "str"),
        other => panic!("expected a cast error, got {:?}", other),
    }
}

#[test]
fn undefined_variable_is_error_3_0() {
    let prog = vec![binop(OprType::Plus, var("y"), lit("i32", "1"))];
    let mut vs: Varstack<Value> = Varstack::new();
    let err = eval(&prog[0], &mut vs, 10).unwrap_err();
    assert_eq!(err.code_str(), "3.0");
    match err.code {
        ErrorCode::UndefinedVariable { name } => assert_eq!(name, "y"),
        other => panic!("expected an undefined variable, got {:?}", other),
    }
}

#[test]
fn procedure_return() {
    // proc |i32 a|: i32 { return a + 1; } invoked with 4 gives I32(5)
    let body = vec![Element::Return {
        position: pos(),
        value: Box::new(binop(OprType::Plus, var("a"), lit("i32", "1"))),
    }];
    let proc_elem = Element::Procedure {
        position: pos(),
        is_fn: false,
        args: vec![Argument { name: "a".to_owned(), type_: Type::from_str("i32"), default: None }],
        return_type: Type::from_str("i32"),
        content: body,
    };
    let call = Element::Call {
        position: pos(),
        called: Box::new(proc_elem),
        args: vec![lit("i32", "4")],
        kwargs: Vec::new(),
    };
    let v = interpret(&vec![call], 10).unwrap();
    assert!(matches!(v, Value::I32(5)));
}

#[test]
fn concat_widening() {
    // I8(12) ~ U16(34) lands in i16 as 1234
    let r = Value::I8(12).bin_opr(&OprType::Concat, Value::U16(34)).unwrap();
    assert!(matches!(r, Value::I16(1234)));
}

#[test]
fn concat_with_string() {
    let r = Value::I32(-7).bin_opr(&OprType::Concat, Value::Str("x".to_owned())).unwrap();
    match r {
        Value::Str(s) => assert_eq!(s, "-7x"),
        other => panic!("expected text, got {:?}", other),
    }
}

#[test]
fn concat_overflow_has_no_impl() {
    let r = Value::I8(127).bin_opr(&OprType::Concat, Value::I8(127));
    assert!(matches!(r, Err(OprError::NoImplForOpr)));
}

#[test]
fn typecast_round_trip() {
    // (v :: i64) :: i8 == v for a representable v
    let to_i64 = Value::Type(Type::from_str("i64"));
    let to_i8 = Value::Type(Type::from_str("i8"));
    let v = Value::I8(-42);
    let wide = v.bin_opr(&OprType::TypeCast, to_i64).unwrap();
    assert!(matches!(wide, Value::I64(-42)));
    let back = wide.bin_opr(&OprType::TypeCast, to_i8).unwrap();
    assert!(matches!(back, Value::I8(-42)));
}

#[test]
fn typecast_truncates() {
    let to_u8 = Value::Type(Type::from_str("u8"));
    let r = Value::I32(300).bin_opr(&OprType::TypeCast, to_u8).unwrap();
    assert!(matches!(r, Value::U8(44)));
}

#[test]
fn typecast_string_parse() {
    let to_i32 = Value::Type(Type::from_str("i32"));
    let r = Value::Str("-17".to_owned()).bin_opr(&OprType::TypeCast, to_i32).unwrap();
    assert!(matches!(r, Value::I32(-17)));
    let to_u8 = Value::Type(Type::from_str("u8"));
    let bad = Value::Str("999".to_owned()).bin_opr(&OprType::TypeCast, to_u8);
    assert!(matches!(bad, Err(OprError::TypecastError(_))));
}

#[test]
fn default_keeps_its_type() {
    for name in ["i8", "i32", "u128", "usize", "ibig", "str", "bool", "#null", "type", "f64"] {
        let v = Value::default(Type::from_str(name)).unwrap();
        assert!(v.get_type_obj().eq_type(&Type::from_str(name)), "default of {}", name);
    }
}

#[test]
fn return_is_transparent_on_the_left() {
    let wrapped = Value::Return(Box::new(Value::I32(4)));
    let r = wrapped.bin_opr(&OprType::Plus, Value::I32(2)).unwrap();
    assert!(matches!(r, Value::I32(6)));
}

#[test]
fn scope_shadowing_and_popping() {
    let mut vs: Varstack<Value> = Varstack::new();
    vs.declare_val(&"n".to_owned(), Value::I32(1));
    vs.add_set();
    vs.declare_val(&"n".to_owned(), Value::I32(2));
    match vs.get_val(&"n".to_owned(), &pos()) {
        Ok(Value::I32(2)) => {},
        other => panic!("expected the inner binding, got {:?}", other),
    }
    vs.pop_set();
    match vs.get_val(&"n".to_owned(), &pos()) {
        Ok(Value::I32(1)) => {},
        other => panic!("expected the outer binding, got {:?}", other),
    }
}

#[test]
fn division_by_zero() {
    let r = Value::I32(5).bin_opr(&OprType::Div, Value::I32(0));
    assert!(matches!(r, Err(OprError::ZeroDivision)));
}

#[test]
fn big_integers_interoperate() {
    let big = Value::from_type_content(
        Type::from_str("ibig"),
        "170141183460469231731687303715884105728".to_owned(),
    )
    .unwrap();
    let to_ibig = Value::Type(Type::from_str("ibig"));
    let one = Value::I32(1).bin_opr(&OprType::TypeCast, to_ibig).unwrap();
    let sum = big.bin_opr(&OprType::Plus, one).unwrap();
    match sum.to_display_string() {
        Some(s) => assert_eq!(s, "170141183460469231731687303715884105729"),
        None => panic!("a big integer displays in decimal"),
    }
}

#[test]
fn pow_within_kind() {
    let r = Value::I32(2).bin_opr(&OprType::Pow, Value::I32(10)).unwrap();
    assert!(matches!(r, Value::I32(1024)));
}

#[test]
fn if_takes_the_first_true_arm() {
    let if_elem = Element::If {
        position: pos(),
        conditions: vec![
            Condition { condition: lit("bool", "false"), if_true: vec![lit("i32", "1")] },
            Condition { condition: Element::NullElement, if_true: vec![lit("i32", "2")] },
        ],
    };
    let v = interpret(&vec![if_elem], 10).unwrap();
    assert!(matches!(v, Value::I32(2)));
}

#[test]
fn binary_operator_probe_reports_4_0_0() {
    let err = Element::bin_op_return_type(
        &OprType::Plus,
        Type::from_str("bool"),
        Type::from_str("bool"),
        &pos(),
    )
    .unwrap_err();
    assert_eq!(err.code_str(), "4.0.0");
}

#[test]
fn minus_sign_negates_big_integers() {
    let big = Value::from_type_content(Type::from_str("ibig"), "12".to_owned()).unwrap();
    let r = big.un_opr(&OprType::MinusSign).unwrap();
    assert_eq!(r.to_display_string().unwrap(), "-12");
    let same = r.un_opr(&OprType::PlusSign).unwrap();
    assert_eq!(same.to_display_string().unwrap(), "-12");
}

#[test]
fn call_binds_keywords_and_defaults() {
    // proc |i32 a, i32 b := kw, i32 c := 7|: i32 { a + b + c } called with
    // (1, b: 30) gives 38
    let body = vec![binop(
        OprType::Plus,
        binop(OprType::Plus, var("a"), var("b")),
        var("c"),
    )];
    let proc_elem = Element::Procedure {
        position: pos(),
        is_fn: false,
        args: vec![
            Argument { name: "a".to_owned(), type_: Type::from_str("i32"), default: None },
            Argument { name: "b".to_owned(), type_: Type::from_str("i32"), default: None },
            Argument {
                name: "c".to_owned(),
                type_: Type::from_str("i32"),
                default: Some(lit("i32", "7")),
            },
        ],
        return_type: Type::from_str("i32"),
        content: body,
    };
    let call = Element::Call {
        position: pos(),
        called: Box::new(proc_elem),
        args: vec![lit("i32", "1")],
        kwargs: vec![("b".to_owned(), lit("i32", "30"))],
    };
    let v = interpret(&vec![call], 10).unwrap();
    assert!(matches!(v, Value::I32(38)));
}

#[test]
fn call_missing_argument_is_error_2_3() {
    let proc_elem = Element::Procedure {
        position: pos(),
        is_fn: false,
        args: vec![Argument { name: "a".to_owned(), type_: Type::from_str("i32"), default: None }],
        return_type: Type::from_str("i32"),
        content: vec![var("a")],
    };
    let call = Element::Call {
        position: pos(),
        called: Box::new(proc_elem),
        args: Vec::new(),
        kwargs: Vec::new(),
    };
    let err = interpret(&vec![call], 10).unwrap_err();
    assert_eq!(err.code_str(), "2.3");
}

#[test]
fn shape_checker_decides_the_preconditions() {
    let good = vec![declare("a", Some("i32"), lit("i32", "1"))];
    assert!(check_shapes(&good));
    // a declaration whose target is not a variable is malformed
    let bad = vec![Element::Declare {
        position: pos(),
        variable: Box::new(Element::NullElement),
        content: Box::new(lit("i32", "1")),
        flags: Vec::new(),
        type_: Type::null(),
    }];
    assert!(!check_shapes(&bad));
    // duplicate keyword arguments are malformed
    let dup = vec![Element::Call {
        position: pos(),
        called: Box::new(lit("i32", "2")),
        args: Vec::new(),
        kwargs: vec![
            ("k".to_owned(), lit("i32", "1")),
            ("k".to_owned(), lit("i32", "2")),
        ],
    }];
    assert!(!check_shapes(&dup));
}

#[test]
fn assignment_updates_the_innermost_binding() {
    let prog = vec![
        declare("n", Some("i32"), lit("i32", "1")),
        Element::Assign {
            position: pos(),
            variable: Box::new(var("n")),
            content: Box::new(lit("i32", "5")),
        },
        var("n"),
    ];
    let v = interpret(&prog, 10).unwrap();
    assert!(matches!(v, Value::I32(5)));
}

#[test]
fn display_forms() {
    assert_eq!(Value::I64(-5).to_display_string().unwrap(), "-5");
    assert_eq!(Value::Bool(true).to_display_string().unwrap(), "true");
    assert_eq!(Value::Null.to_display_string().unwrap(), "null");
    assert_eq!(
        Value::Type(Type::from_str("i32")).to_display_string().unwrap(),
        "<i32>"
    );
}
