use leo_compiler::ast::{Circuit, Function, Identifier};
use leo_compiler::constraints::program::{new_scope, ConstrainedProgram};
use leo_compiler::constraints::sink::{ConstraintSink, Gadget};
use leo_compiler::constraints::value::{
    BooleanValue, ConstrainedCircuitMember, ConstrainedValue, Element, FieldValue,
};
use leo_compiler::errors::ExpressionError;
use leo_compiler::field::{
    field_add, field_div, field_equal, field_from_text, field_less, field_mul, field_reduce,
    field_sub, natural_from_text, natural_text, Modulus,
};
use leo_compiler::integer::{Integer, Signed};
use leo_compiler::literal::{GroupCoordinate, GroupLiteral, GroupTuple, Literal};
use leo_compiler::span::Span;
use leo_compiler::state::State;
use leo_compiler::text::{decimal_text, digit_of, digit_text, parse_numeral, strip_suffix};
use leo_compiler::types::{duplicate_types, IntegerKind, Type};
use std::rc::Rc;

fn span() -> Span {
    Span::new(4, 5, 6)
}

fn u8_value(value: u128) -> ConstrainedValue {
    ConstrainedValue::Integer(Integer::Constant(IntegerKind::U8, Signed::new(false, value)))
}

fn seven() -> Modulus {
    Modulus::from_decimal("7").unwrap()
}

#[test]
fn decimal_numerals() {
    assert_eq!(decimal_text(0), "0");
    assert_eq!(decimal_text(9), "9");
    assert_eq!(decimal_text(10), "10");
    assert_eq!(decimal_text(1234567890), "1234567890");
    assert_eq!(decimal_text(u128::MAX), "340282366920938463463374607431768211455");
    assert_eq!(digit_text(200), "9");
    for d in 0..10u8 {
        assert_eq!(digit_text(d), d.to_string());
        assert_eq!(digit_of(digit_text(d).chars().next().unwrap()), Some(d));
    }
    assert_eq!(digit_of('a'), None);
    assert_eq!(digit_of('/'), None);
    assert_eq!(digit_of(':'), None);
}

#[test]
fn numerals_are_read() {
    assert_eq!(parse_numeral("0", 0), Some(0));
    assert_eq!(parse_numeral("0042", 0), Some(42));
    assert_eq!(parse_numeral("x42", 1), Some(42));
    assert_eq!(parse_numeral("42", 2), None);
    assert_eq!(parse_numeral("42", 3), None);
    assert_eq!(parse_numeral("42", usize::MAX), None);
    assert_eq!(parse_numeral("", 0), None);
    assert_eq!(parse_numeral("4 2", 0), None);
    assert_eq!(parse_numeral("42u8", 0), None);
    assert_eq!(parse_numeral("+42", 0), None);
    assert_eq!(parse_numeral("340282366920938463463374607431768211455", 0), Some(u128::MAX));
    assert_eq!(parse_numeral("340282366920938463463374607431768211456", 0), None);
    assert_eq!(parse_numeral("99999999999999999999999999999999999999999", 0), None);
}

#[test]
fn big_numerals_round_trip() {
    let text = "123456789012345678901234567890123456789012345678901234567890";
    let number = natural_from_text(text, 0).unwrap();
    assert_eq!(natural_text(&number), text);
    assert_eq!(natural_text(&natural_from_text("000", 0).unwrap()), "0");
    assert_eq!(natural_text(&natural_from_text("x0012", 1).unwrap()), "12");
    assert_eq!(natural_text(&vec![]), "0");
    assert_eq!(natural_text(&vec![0, 0, 1, 0]), "256");
    assert_eq!(natural_from_text("12a", 0), None);
    assert_eq!(natural_from_text("", 0), None);
    assert_eq!(natural_from_text("12", 0), Some(vec![12]));
    assert_eq!(natural_from_text("12", 2), None);
    assert_eq!(natural_from_text("12", 9), None);
}

#[test]
fn field_operations_modulo_seven() {
    let m = seven();
    let n = |x: u8| vec![x];
    assert_eq!(field_reduce(&n(23), &m), n(2));
    assert_eq!(field_add(&n(5), &n(4), &m), n(2));
    assert_eq!(field_add(&n(200), &n(200), &m), n(1));
    assert_eq!(field_sub(&n(2), &n(5), &m), n(4));
    assert_eq!(field_sub(&n(5), &n(2), &m), n(3));
    assert_eq!(field_sub(&n(0), &n(0), &m), n(0));
    assert_eq!(field_sub(&n(9), &n(23), &m), n(0));
    assert_eq!(field_mul(&n(5), &n(4), &m), n(6));
    assert_eq!(field_div(&n(6), &n(4), &m), Some(n(5)));
    assert_eq!(field_div(&n(6), &n(11), &m), Some(n(5)));
    assert_eq!(field_div(&n(6), &n(0), &m), None);
    assert_eq!(field_div(&n(6), &n(14), &m), None);
    assert!(field_equal(&n(3), &n(10), &m));
    assert!(!field_equal(&n(3), &n(4), &m));
    assert!(field_less(&n(8), &n(2), &m));
    assert!(!field_less(&n(2), &n(8), &m));
    assert!(!field_less(&n(2), &n(9), &m));
    assert_eq!(field_from_text("23", &m), Some(n(2)));
    assert_eq!(field_from_text("-23", &m), Some(n(5)));
    assert_eq!(field_from_text("-0", &m), Some(n(0)));
    assert_eq!(field_from_text("--1", &m), None);
    assert_eq!(field_from_text("", &m), None);
}

#[test]
fn division_needs_an_inverse() {
    // modulo a number that is no prime, not every residue has an inverse
    let m = Modulus::from_decimal("6").unwrap();
    assert_eq!(field_div(&vec![1], &vec![5], &m), Some(vec![5]));
    assert_eq!(field_div(&vec![1], &vec![2], &m), None);
    assert_eq!(field_div(&vec![1], &vec![3], &m), None);
}

#[test]
fn signed_numbers() {
    let n = Signed::new;
    assert_eq!(n(false, 5).checked_add(n(true, 7), IntegerKind::I8), Some(n(true, 2)));
    assert_eq!(n(true, 5).checked_add(n(false, 5), IntegerKind::I8), Some(n(false, 0)));
    assert_eq!(n(true, 0).checked_add(n(false, 0), IntegerKind::U8), Some(n(false, 0)));
    assert_eq!(n(false, 5).checked_add(n(true, 7), IntegerKind::U8), None);
    assert_eq!(n(false, 5).checked_sub(n(false, 7), IntegerKind::I16), Some(n(true, 2)));
    assert_eq!(n(true, 3).checked_mul(n(true, 4), IntegerKind::I16), Some(n(false, 12)));
    assert_eq!(n(true, 3).checked_mul(n(false, 0), IntegerKind::I16), Some(n(false, 0)));
    assert_eq!(
        n(false, u128::MAX).checked_mul(n(false, 2), IntegerKind::U128),
        None
    );
    assert_eq!(n(true, 7).checked_div(n(false, 2), IntegerKind::I16), Some(n(true, 3)));
    assert_eq!(n(false, 1).checked_div(n(true, 2), IntegerKind::I16), Some(n(false, 0)));
    assert_eq!(n(false, 3).checked_pow(n(false, 4), IntegerKind::U8), Some(n(false, 81)));
    assert_eq!(n(false, 3).checked_pow(n(false, 6), IntegerKind::U8), None);
    assert_eq!(n(false, 2).checked_pow(n(false, 127), IntegerKind::U128), Some(n(false, 1 << 127)));
    assert_eq!(n(false, 2).checked_pow(n(false, 128), IntegerKind::U128), None);
    assert_eq!(n(false, 2).checked_pow(n(false, u128::MAX), IntegerKind::U128), None);
    assert_eq!(n(true, 0).checked_pow(n(true, 0), IntegerKind::U8), Some(n(false, 1)));
    assert!(n(true, 1).less(n(false, 0)));
    assert!(!n(true, 0).less(n(false, 0)));
    assert!(n(true, 0).equal(n(false, 0)));
    assert!(n(true, 5).less(n(true, 4)));
    assert_eq!(n(true, 5).fmt(), "-5");
    assert_eq!(n(true, 0).fmt(), "0");
    assert_eq!(n(false, 128).fit(IntegerKind::I8), None);
    assert_eq!(n(true, 128).fit(IntegerKind::I8), Some(n(true, 128)));
    assert_eq!(Signed::from_text(IntegerKind::I8, "-128"), Some(n(true, 128)));
    assert_eq!(Signed::from_text(IntegerKind::I8, "128"), None);
    assert_eq!(Signed::from_text(IntegerKind::U8, "-0"), Some(n(false, 0)));
    assert_eq!(Signed::from_text(IntegerKind::U8, "-1"), None);
    assert_eq!(Signed::from_text(IntegerKind::U64, "18446744073709551615"), Some(n(false, u64::MAX as u128)));
    assert_eq!(Signed::from_text(IntegerKind::U64, "18446744073709551616"), None);
}

#[test]
fn integer_kinds() {
    let kinds = [
        (IntegerKind::U8, "u8", 0u128, u8::MAX as u128),
        (IntegerKind::U16, "u16", 0, u16::MAX as u128),
        (IntegerKind::U32, "u32", 0, u32::MAX as u128),
        (IntegerKind::U64, "u64", 0, u64::MAX as u128),
        (IntegerKind::U128, "u128", 0, u128::MAX),
        (IntegerKind::I8, "i8", 1 << 7, i8::MAX as u128),
        (IntegerKind::I16, "i16", 1 << 15, i16::MAX as u128),
        (IntegerKind::I32, "i32", 1 << 31, i32::MAX as u128),
        (IntegerKind::I64, "i64", 1 << 63, i64::MAX as u128),
        (IntegerKind::I128, "i128", 1 << 127, i128::MAX as u128),
    ];
    for (kind, keyword, least, greatest) in kinds {
        assert_eq!(kind.keyword(), keyword);
        assert_eq!(kind.negative_limit(), least);
        assert_eq!(kind.positive_limit(), greatest);
    }
}

#[test]
fn values_as_diagnostics_show_them() {
    let f = Rc::new(Function {
        function_name: Identifier::new("f", span()),
        inputs: vec![],
        returns: vec![],
        statements: vec![],
        span: span(),
    });
    let c = Rc::new(Circuit { circuit_name: Identifier::new("C", span()), members: vec![] });
    let cases = vec![
        (u8_value(7), "7u8"),
        (
            ConstrainedValue::Integer(Integer::Constant(IntegerKind::I64, Signed::new(true, 7))),
            "-7i64",
        ),
        (ConstrainedValue::Integer(Integer::Allocated(IntegerKind::I64, 12)), "w12i64"),
        (ConstrainedValue::Field(FieldValue::Constant(vec![1, 0])), "256field"),
        (ConstrainedValue::Field(FieldValue::Allocated(3)), "w3field"),
        (ConstrainedValue::Group(Element::Constant("(0, 1)group".to_string())), "(0, 1)group"),
        (ConstrainedValue::Group(Element::Allocated(3)), "w3group"),
        (ConstrainedValue::Scalar(Element::Constant("5".to_string())), "5"),
        (ConstrainedValue::Scalar(Element::Allocated(0)), "w0scalar"),
        (ConstrainedValue::Boolean(BooleanValue::Constant(true)), "true"),
        (ConstrainedValue::Boolean(BooleanValue::Constant(false)), "false"),
        (ConstrainedValue::Boolean(BooleanValue::Allocated(9)), "w9bool"),
        (ConstrainedValue::Address("aleo1".to_string()), "aleo1"),
        (ConstrainedValue::String("text".to_string()), "text"),
        (ConstrainedValue::Array(vec![]), "[]"),
        (ConstrainedValue::Array(vec![u8_value(1)]), "[1u8]"),
        (ConstrainedValue::Array(vec![u8_value(1), u8_value(2), u8_value(3)]), "[1u8, 2u8, 3u8]"),
        (ConstrainedValue::Tuple(vec![u8_value(1), u8_value(2)]), "(1u8, 2u8)"),
        (
            ConstrainedValue::CircuitExpression(
                Identifier::new("C", span()),
                vec![
                    ConstrainedCircuitMember(Identifier::new("x", span()), u8_value(1)),
                    ConstrainedCircuitMember(
                        Identifier::new("y", span()),
                        ConstrainedValue::Array(vec![u8_value(2)]),
                    ),
                ],
            ),
            "C {x: 1u8, y: [2u8]}",
        ),
        (ConstrainedValue::CircuitDefinition(c), "circuit {C}"),
        (ConstrainedValue::Function(None, f.clone()), "function {f}"),
        (
            ConstrainedValue::Static(Box::new(ConstrainedValue::Function(None, f))),
            "static function {f}",
        ),
        (ConstrainedValue::Unresolved("12".to_string()), "unresolved 12"),
        (ConstrainedValue::Return(vec![u8_value(1), u8_value(2)]), "Program output: [1u8, 2u8]"),
    ];
    for (value, shown) in cases {
        assert_eq!(value.to_string(), shown);
        assert_eq!(value.duplicate(), value);
    }
}

#[test]
fn extraction() {
    let f = Rc::new(Function {
        function_name: Identifier::new("f", span()),
        inputs: vec![],
        returns: vec![],
        statements: vec![],
        span: span(),
    });
    let c = Rc::new(Circuit { circuit_name: Identifier::new("C", span()), members: vec![] });
    assert_eq!(ConstrainedValue::CircuitDefinition(c.clone()).extract_circuit(span()), Ok(c));
    assert_eq!(
        u8_value(1).extract_circuit(span()),
        Err(ExpressionError::NotACircuit("1u8".to_string(), span()))
    );
    assert_eq!(
        ConstrainedValue::Function(None, f.clone()).extract_function("file", span()),
        Ok(("file".to_string(), f.clone()))
    );
    assert_eq!(
        ConstrainedValue::Function(Some(Identifier::new("C", span())), f.clone())
            .extract_function("file", span()),
        Ok(("file_C".to_string(), f))
    );
    assert_eq!(
        u8_value(1).extract_function("file", span()),
        Err(ExpressionError::NotAFunction("1u8".to_string(), span()))
    );
}

#[test]
fn values_are_held_against_types() {
    let m = seven();
    let u8_type = Type::Integer(IntegerKind::U8);
    let hold = |value: &ConstrainedValue, type_: Type| value.resolve_type(&vec![type_], span(), &m);
    assert_eq!(hold(&u8_value(1), u8_type.duplicate()), Ok(u8_value(1)));
    assert_eq!(
        hold(&u8_value(1), Type::Integer(IntegerKind::U16)),
        Err(ExpressionError::TypeMismatch(
            Type::Integer(IntegerKind::U16),
            "1u8".to_string(),
            span()
        ))
    );
    assert!(hold(&ConstrainedValue::Boolean(BooleanValue::Constant(true)), Type::Boolean).is_ok());
    assert!(hold(&ConstrainedValue::Boolean(BooleanValue::Constant(true)), Type::Field).is_err());
    assert!(hold(&ConstrainedValue::Address("a".to_string()), Type::Address).is_ok());
    assert!(hold(&ConstrainedValue::String("a".to_string()), Type::Address).is_err());
    assert!(hold(&ConstrainedValue::Tuple(vec![]), Type::Tuple(vec![])).is_ok());
    let instance = ConstrainedValue::CircuitExpression(Identifier::new("C", span()), vec![]);
    assert!(hold(&instance, Type::Circuit("C".to_string())).is_ok());
    assert!(hold(&instance, Type::Circuit("D".to_string())).is_err());
    assert!(hold(&instance, Type::SelfType).is_ok());
    assert!(hold(&ConstrainedValue::Return(vec![]), u8_type.duplicate()).is_ok());
    assert_eq!(
        hold(&ConstrainedValue::Unresolved("9".to_string()), Type::Field),
        Ok(ConstrainedValue::Field(FieldValue::Constant(vec![2])))
    );
    assert_eq!(
        hold(
            &ConstrainedValue::Array(vec![u8_value(1)]),
            Type::Array(Box::new(u8_type.duplicate()), vec![])
        ),
        Ok(ConstrainedValue::Array(vec![u8_value(1)]))
    );
    assert_eq!(
        hold(&ConstrainedValue::Array(vec![u8_value(1)]), u8_type.duplicate()),
        Err(ExpressionError::TypeMismatch(u8_type.duplicate(), "[1u8]".to_string(), span()))
    );
    // more than one expected type, or none, constrains nothing
    assert_eq!(
        u8_value(1).resolve_type(&vec![Type::Field, Type::Field], span(), &m),
        Ok(u8_value(1))
    );
    assert_eq!(u8_value(1).resolve_type(&vec![], span(), &m), Ok(u8_value(1)));
    assert_eq!(duplicate_types(&vec![Type::Field, u8_type]).len(), 2);
}

#[test]
fn operands_are_reconciled() {
    let m = seven();
    let untyped = |text: &str| ConstrainedValue::Unresolved(text.to_string());
    assert_eq!(
        untyped("3").resolve_types(&u8_value(1), &vec![], span(), &m),
        Ok((u8_value(3), u8_value(1)))
    );
    assert_eq!(
        u8_value(1).resolve_types(&untyped("3"), &vec![], span(), &m),
        Ok((u8_value(1), u8_value(3)))
    );
    assert_eq!(
        untyped("1").resolve_types(&untyped("3"), &vec![], span(), &m),
        Ok((untyped("1"), untyped("3")))
    );
    assert_eq!(
        untyped("1").resolve_types(&untyped("3"), &vec![Type::Integer(IntegerKind::U8)], span(), &m),
        Ok((u8_value(1), u8_value(3)))
    );
    assert_eq!(
        untyped("300").resolve_types(&u8_value(1), &vec![], span(), &m),
        Err(ExpressionError::BadLiteral("300".to_string(), span()))
    );
    assert_eq!(
        untyped("3").resolve_types(
            &ConstrainedValue::Boolean(BooleanValue::Constant(true)),
            &vec![],
            span(),
            &m
        ),
        Err(ExpressionError::BadLiteral("3".to_string(), span()))
    );
}

#[test]
fn the_sink_only_grows() {
    let mut cs = ConstraintSink::new();
    assert_eq!(cs.len(), 0);
    assert_eq!(cs.allocate_input("a"), 0);
    assert_eq!(cs.allocate_witness("b"), 1);
    let previous = cs.ns("inner");
    assert_eq!(previous, "");
    assert_eq!(cs.enforce("sum", Gadget::Add, vec![u8_value(1), u8_value(2)]), 2);
    let deeper = cs.ns("deeper");
    assert_eq!(deeper, "inner/");
    assert_eq!(cs.allocate_witness("c"), 3);
    cs.leave(deeper);
    cs.leave(previous);
    assert_eq!(cs.allocate_witness("d"), 4);
    let names: Vec<&str> = cs.constraints.iter().map(|c| c.namespace.as_str()).collect();
    assert_eq!(names, vec!["a", "b", "inner/sum", "inner/deeper/c", "d"]);
    assert_eq!(cs.constraints[2].operands, vec![u8_value(1), u8_value(2)]);
    assert_eq!(cs.constraints[0].gadget, Gadget::Input);
    assert_eq!(cs.constraints[1].gadget, Gadget::Witness);
}

#[test]
fn scopes_compose() {
    assert_eq!(new_scope("file", "main"), "file_main");
    assert_eq!(new_scope("", ""), "_");
    assert_eq!(new_scope(&new_scope("a", "b"), "c"), "a_b_c");
    let program = ConstrainedProgram::new(seven());
    assert_eq!(program.identifiers.len(), 0);
    assert_eq!(program.modulus.bytes(), &vec![7u8]);
}

#[test]
fn literals_are_shown_as_written() {
    let cases = vec![
        (Literal::Address("aleo1".to_string(), span()), "aleo1"),
        (Literal::Boolean(true, span()), "true"),
        (Literal::Boolean(false, span()), "false"),
        (Literal::Field("42".to_string(), span()), "42"),
        (Literal::I8("42".to_string(), span()), "42"),
        (Literal::I16("-42".to_string(), span()), "-42"),
        (Literal::I32("42".to_string(), span()), "42"),
        (Literal::I64("42".to_string(), span()), "42"),
        (Literal::I128("42".to_string(), span()), "42"),
        (Literal::Scalar("1".to_string(), span()), "1"),
        (Literal::String("foobar".to_string(), span()), "foobar"),
        (Literal::U8("42".to_string(), span()), "42"),
        (Literal::U16("42".to_string(), span()), "42"),
        (Literal::U32("42".to_string(), span()), "42"),
        (Literal::U64("42".to_string(), span()), "42"),
        (Literal::U128("42".to_string(), span()), "42"),
        (Literal::Group(Box::new(GroupLiteral::Single("42".to_string(), span()))), "42"),
        (
            Literal::Group(Box::new(GroupLiteral::Tuple(GroupTuple {
                x: GroupCoordinate::Number("12".to_string(), span()),
                y: GroupCoordinate::SignHigh,
                span: span(),
            }))),
            "(12, +)group",
        ),
        (
            Literal::Group(Box::new(GroupLiteral::Tuple(GroupTuple {
                x: GroupCoordinate::SignLow,
                y: GroupCoordinate::Inferred,
                span: span(),
            }))),
            "(-, _)group",
        ),
    ];
    for (literal, shown) in cases {
        assert_eq!(literal.fmt(), shown);
        assert_eq!(literal.span(), span());
    }
}

#[test]
fn literals_move() {
    let elsewhere = Span::new(9, 8, 7);
    let mut literal = Literal::U8("42".to_string(), span());
    literal.set_span(elsewhere);
    assert_eq!(literal, Literal::U8("42".to_string(), elsewhere));
    assert_eq!(literal.span(), elsewhere);
    let mut literal = Literal::Boolean(true, span());
    literal.set_span(elsewhere);
    assert_eq!(literal, Literal::Boolean(true, elsewhere));
    let mut literal = Literal::Group(Box::new(GroupLiteral::Single("1".to_string(), span())));
    literal.set_span(elsewhere);
    assert_eq!(literal.span(), elsewhere);
    assert_eq!(literal.fmt(), "1");
    // the coordinates of a pair stay where they are
    let mut literal = Literal::Group(Box::new(GroupLiteral::Tuple(GroupTuple {
        x: GroupCoordinate::Number("12".to_string(), span()),
        y: GroupCoordinate::Number("13".to_string(), span()),
        span: span(),
    })));
    literal.set_span(elsewhere);
    assert_eq!(
        literal,
        Literal::Group(Box::new(GroupLiteral::Tuple(GroupTuple {
            x: GroupCoordinate::Number("12".to_string(), span()),
            y: GroupCoordinate::Number("13".to_string(), span()),
            span: elsewhere,
        })))
    );
}

#[test]
fn state_keeps_its_span() {
    assert_eq!(State::new(span()).span, span());
    assert_eq!(span(), Span { line: 4, start: 5, end: 6 });
}

#[test]
fn errors_say_where_they_arose() {
    let errors = vec![
        ExpressionError::UndefinedIdentifier("x".to_string(), span()),
        ExpressionError::IncompatibleTypes("+".to_string(), "a".to_string(), "b".to_string(), span()),
        ExpressionError::IndexOutOfBounds(1, 2, span()),
        ExpressionError::InvalidLength(1, 2, span()),
        ExpressionError::UnexpectedArray(Type::Field, span()),
        ExpressionError::CannotEnforce("+".to_string(), "c".to_string(), span()),
        ExpressionError::RecursionLimit(span()),
        ExpressionError::TypeMismatch(Type::Field, "v".to_string(), span()),
    ];
    for error in errors {
        assert_eq!(error.span(), span());
    }
}

#[test]
fn types_as_diagnostics_show_them() {
    let cases = vec![
        (Type::Boolean, "bool"),
        (Type::Address, "address"),
        (Type::Field, "field"),
        (Type::Group, "group"),
        (Type::Scalar, "scalar"),
        (Type::Integer(IntegerKind::I128), "i128"),
        (Type::Array(Box::new(Type::Field), vec![]), "[field; ()]"),
        (Type::Array(Box::new(Type::Field), vec![3]), "[field; (3)]"),
        (Type::Array(Box::new(Type::Integer(IntegerKind::U8)), vec![3, 40]), "[u8; (3, 40)]"),
        (Type::Tuple(vec![]), "()"),
        (
            Type::Tuple(vec![Type::Boolean, Type::Tuple(vec![Type::Field]), Type::SelfType]),
            "(bool, (field), Self)",
        ),
        (Type::Circuit("C".to_string()), "C"),
        (Type::SelfType, "Self"),
    ];
    for (type_, shown) in cases {
        assert_eq!(type_.to_string(), shown);
        assert_eq!(type_.duplicate(), type_);
    }
}

#[test]
fn diagnostics() {
    let t = |text: &str| text.to_string();
    let cases = vec![
        (
            ExpressionError::UndefinedIdentifier(t("x"), span()),
            "4:5-6: cannot find value `x` in this scope",
        ),
        (
            ExpressionError::UndefinedArray(t("a"), span()),
            "4:5-6: array `a` must be declared before it is used in an expression",
        ),
        (
            ExpressionError::UndefinedCircuit(t("C"), span()),
            "4:5-6: circuit `C` must be declared before it is used in an expression",
        ),
        (
            ExpressionError::UndefinedMemberAccess(t("C"), t("m"), span()),
            "4:5-6: circuit `C` has no member `m`",
        ),
        (
            ExpressionError::ExpectedCircuitMember(t("m"), span()),
            "4:5-6: expected circuit member `m`, not found",
        ),
        (
            ExpressionError::IncompatibleTypes(t("+"), t("1u8"), t("1u16"), span()),
            "4:5-6: no implementation for `1u8 + 1u16`",
        ),
        (
            ExpressionError::InvalidSpread(t("1u8"), span()),
            "4:5-6: spread should contain an array, found `1u8`",
        ),
        (
            ExpressionError::InvalidIndex(t("true"), span()),
            "4:5-6: index must resolve to an integer constant, found `true`",
        ),
        (
            ExpressionError::IndexOutOfBounds(5, 3, span()),
            "4:5-6: index `5` is out of the bounds of an array of length 3",
        ),
        (
            ExpressionError::IndexOverflow(t("9u128"), span()),
            "4:5-6: index `9u128` does not fit the index type of the machine",
        ),
        (
            ExpressionError::InvalidLength(3, 2, span()),
            "4:5-6: expected length `3`, found length 2",
        ),
        (
            ExpressionError::UnexpectedArray(Type::Integer(IntegerKind::U8), span()),
            "4:5-6: expected type `u8`, found array",
        ),
        (
            ExpressionError::ConditionalBoolean(t("1u8"), span()),
            "4:5-6: a condition must resolve to a boolean, found `1u8`",
        ),
        (
            ExpressionError::InvalidStaticAccess(t("function {f}"), span()),
            "4:5-6: static member `function {f}` must be accessed using `::` syntax",
        ),
        (
            ExpressionError::InvalidMemberAccess(t("g"), span()),
            "4:5-6: non-static member `g` must be accessed using `.` syntax",
        ),
        (
            ExpressionError::FunctionNoReturn(t("f"), span()),
            "4:5-6: inline function call to `f` did not return",
        ),
        (
            ExpressionError::CannotEnforce(t("/"), t("enforce 1u8 / 0u8 4:5"), span()),
            "4:5-6: the gadget operation `/` cannot be enforced in `enforce 1u8 / 0u8 4:5`",
        ),
        (
            ExpressionError::BadLiteral(t("300"), span()),
            "4:5-6: `300` is no literal of the expected type",
        ),
        (ExpressionError::RecursionLimit(span()), "4:5-6: calls nest too deep"),
        (
            ExpressionError::TypeMismatch(Type::Field, t("1u8"), span()),
            "4:5-6: expected type `field`, found `1u8`",
        ),
        (
            ExpressionError::NotACircuit(t("1u8"), span()),
            "4:5-6: expected circuit definition, found `1u8`",
        ),
        (
            ExpressionError::NotAFunction(t("1u8"), span()),
            "4:5-6: expected function, found `1u8`",
        ),
    ];
    for (error, shown) in cases {
        assert_eq!(error.to_string(), shown);
        assert_eq!(error.span(), span());
    }
}

#[test]
fn suffixes_are_taken_from_the_end() {
    assert_eq!(strip_suffix("42u8", "u8"), "42");
    assert_eq!(strip_suffix("42u8", "u16"), "42u8");
    assert_eq!(strip_suffix("u8", "u8"), "");
    assert_eq!(strip_suffix("8", "u8"), "8");
    assert_eq!(strip_suffix("", "u8"), "");
    assert_eq!(strip_suffix("42", ""), "42");
    assert_eq!(strip_suffix("u842", "u8"), "u842");
    assert_eq!(strip_suffix("42u8u8", "u8"), "42u8");
    assert_eq!(strip_suffix("grüße", "ße"), "grü");
}
