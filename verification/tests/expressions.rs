use leo_compiler::ast::{
    BinaryOperation, Circuit, CircuitFieldDefinition, CircuitMember, Expression, Function,
    FunctionInput, Identifier, RangeOrExpression, SpreadOrExpression, Statement,
};
use leo_compiler::constraints::expression::{
    constant_of, element_at, nothing, single, slice_of, static_member, to_index, unwrap_return,
};
use leo_compiler::constraints::program::{ConstrainedProgram, RECURSION_LIMIT};
use leo_compiler::constraints::sink::{ConstraintSink, Gadget};
use leo_compiler::constraints::value::{
    BooleanValue, ConstrainedCircuitMember, ConstrainedValue, Element, FieldValue,
};
use leo_compiler::errors::ExpressionError;
use leo_compiler::field::Modulus;
use leo_compiler::integer::{Integer, Signed};
use leo_compiler::literal::{GroupLiteral, Literal};
use leo_compiler::span::Span;
use leo_compiler::types::{IntegerKind, Type};
use std::rc::Rc;

const FIELD: &str =
    "8444461749428370424248824938781546531375899335154063827935233455917409239041";

fn span() -> Span {
    Span::new(1, 2, 3)
}

fn program() -> ConstrainedProgram {
    ConstrainedProgram::new(Modulus::from_decimal(FIELD).unwrap())
}

fn id(name: &str) -> Identifier {
    Identifier::new(name, span())
}

fn name(name: &str) -> Expression {
    Expression::Identifier(id(name))
}

fn u8_(text: &str) -> Expression {
    Expression::Literal(Literal::U8(text.to_string(), span()))
}

fn u16_(text: &str) -> Expression {
    Expression::Literal(Literal::U16(text.to_string(), span()))
}

fn u32_(text: &str) -> Expression {
    Expression::Literal(Literal::U32(text.to_string(), span()))
}

fn i32_(text: &str) -> Expression {
    Expression::Literal(Literal::I32(text.to_string(), span()))
}

fn i8_(text: &str) -> Expression {
    Expression::Literal(Literal::I8(text.to_string(), span()))
}

fn field(text: &str) -> Expression {
    Expression::Literal(Literal::Field(text.to_string(), span()))
}

fn group(text: &str) -> Expression {
    Expression::Literal(Literal::Group(Box::new(GroupLiteral::Single(text.to_string(), span()))))
}

fn boolean(value: bool) -> Expression {
    Expression::Literal(Literal::Boolean(value, span()))
}

fn implicit(text: &str) -> Expression {
    Expression::Implicit(text.to_string(), span())
}

fn binary(operation: BinaryOperation, left: Expression, right: Expression) -> Expression {
    Expression::Binary(operation, Box::new(left), Box::new(right), span())
}

fn array(elements: Vec<Expression>) -> Expression {
    Expression::Array(elements.into_iter().map(SpreadOrExpression::Expression).collect(), span())
}

fn at(array: Expression, index: Expression) -> Expression {
    Expression::ArrayAccess(
        Box::new(array),
        Box::new(RangeOrExpression::Expression(index)),
        span(),
    )
}

fn range(array: Expression, from: Option<Expression>, to: Option<Expression>) -> Expression {
    Expression::ArrayAccess(Box::new(array), Box::new(RangeOrExpression::Range(from, to)), span())
}

fn call(function: Expression, arguments: Vec<Expression>) -> Expression {
    Expression::FunctionCall(Box::new(function), arguments, span())
}

fn integer(kind: IntegerKind, negative: bool, magnitude: u128) -> ConstrainedValue {
    ConstrainedValue::Integer(Integer::Constant(kind, Signed::new(negative, magnitude)))
}

fn u8_value(value: u128) -> ConstrainedValue {
    integer(IntegerKind::U8, false, value)
}

fn wire_u8(wire: usize) -> ConstrainedValue {
    ConstrainedValue::Integer(Integer::Allocated(IntegerKind::U8, wire))
}

fn enforce(
    program: &mut ConstrainedProgram,
    cs: &mut ConstraintSink,
    expected: Vec<Type>,
    expression: &Expression,
) -> Result<ConstrainedValue, ExpressionError> {
    program.enforce_expression(cs, "file", "file_main", RECURSION_LIMIT, &expected, expression)
}

fn eval(expression: &Expression) -> Result<ConstrainedValue, ExpressionError> {
    enforce(&mut program(), &mut ConstraintSink::new(), vec![], expression)
}

fn eval_as(expected: Type, expression: &Expression) -> Result<ConstrainedValue, ExpressionError> {
    enforce(&mut program(), &mut ConstraintSink::new(), vec![expected], expression)
}

fn function(name: &str, inputs: Vec<(&str, Type)>, outputs: Vec<Type>, body: Vec<Statement>) -> Rc<Function> {
    Rc::new(Function {
        function_name: id(name),
        inputs: inputs
            .into_iter()
            .map(|(n, t)| FunctionInput { identifier: id(n), type_: t })
            .collect(),
        returns: outputs,
        statements: body,
        span: span(),
    })
}

fn returning(expressions: Vec<Expression>) -> Statement {
    Statement::Return(expressions, span())
}

// --- whole expressions -------------------------------------------------------------

#[test]
fn add_constants() {
    let sum = binary(BinaryOperation::Add, u8_("1"), u8_("2"));
    assert_eq!(eval(&sum), Ok(u8_value(3)));
}

#[test]
fn implicit_promotion() {
    let sum = binary(BinaryOperation::Add, implicit("3"), field("4"));
    let value = eval_as(Type::Field, &sum).unwrap();
    assert_eq!(value, ConstrainedValue::Field(FieldValue::Constant(vec![7])));
    assert_eq!(value.to_string(), "7field");
}

#[test]
fn implicit_promotion_by_the_peer() {
    let sum = binary(BinaryOperation::Add, implicit("3"), field("4"));
    assert_eq!(eval(&sum).unwrap().to_string(), "7field");
    let sum = binary(BinaryOperation::Add, u8_("4"), implicit("3"));
    assert_eq!(eval(&sum), Ok(u8_value(7)));
}

#[test]
fn ternary_select() {
    let select = Expression::IfElse(
        Box::new(boolean(true)),
        Box::new(i32_("5")),
        Box::new(i32_("7")),
        span(),
    );
    assert_eq!(eval(&select), Ok(integer(IntegerKind::I32, false, 5)));
    let select = Expression::IfElse(
        Box::new(boolean(false)),
        Box::new(i32_("5")),
        Box::new(i32_("7")),
        span(),
    );
    assert_eq!(eval(&select), Ok(integer(IntegerKind::I32, false, 7)));
}

#[test]
fn ternary_evaluates_both_branches() {
    // The branch that is not chosen fails, and so does the conditional.
    let select = Expression::IfElse(
        Box::new(boolean(true)),
        Box::new(i32_("5")),
        Box::new(binary(BinaryOperation::Div, i32_("1"), i32_("0"))),
        span(),
    );
    assert!(matches!(eval(&select), Err(ExpressionError::CannotEnforce(_, _, _))));
}

#[test]
fn ternary_on_a_wire_records_a_selection() {
    let mut program = program();
    let mut cs = ConstraintSink::new();
    let wire = cs.allocate_witness("c");
    program.store(
        "file_main_c".to_string(),
        ConstrainedValue::Boolean(BooleanValue::Allocated(wire)),
    );
    let select = Expression::IfElse(
        Box::new(name("c")),
        Box::new(i32_("5")),
        Box::new(i32_("7")),
        span(),
    );
    let value = enforce(&mut program, &mut cs, vec![], &select).unwrap();
    assert_eq!(value, ConstrainedValue::Integer(Integer::Allocated(IntegerKind::I32, 1)));
    assert_eq!(cs.len(), 2);
    assert_eq!(cs.constraints[1].gadget, Gadget::Select);
    assert_eq!(cs.constraints[1].namespace, "select 5i32 or 7i32 1:2");
    assert_eq!(
        cs.constraints[1].operands,
        vec![
            ConstrainedValue::Boolean(BooleanValue::Allocated(0)),
            integer(IntegerKind::I32, false, 5),
            integer(IntegerKind::I32, false, 7),
        ]
    );
}

#[test]
fn ternary_between_kinds_is_incompatible() {
    let select = Expression::IfElse(
        Box::new(boolean(true)),
        Box::new(i32_("5")),
        Box::new(u8_("7")),
        span(),
    );
    assert_eq!(
        eval(&select),
        Err(ExpressionError::IncompatibleTypes(
            "?".to_string(),
            "5i32".to_string(),
            "7u8".to_string(),
            span()
        ))
    );
}

#[test]
fn spread() {
    let mut program = program();
    let mut cs = ConstraintSink::new();
    program.store(
        "file_main_a".to_string(),
        ConstrainedValue::Array(vec![u8_value(1), u8_value(2)]),
    );
    let literal = Expression::Array(
        vec![
            SpreadOrExpression::Expression(u8_("0")),
            SpreadOrExpression::Spread(name("a")),
            SpreadOrExpression::Expression(u8_("3")),
        ],
        span(),
    );
    let value = enforce(&mut program, &mut cs, vec![], &literal).unwrap();
    assert_eq!(
        value,
        ConstrainedValue::Array(vec![u8_value(0), u8_value(1), u8_value(2), u8_value(3)])
    );
    match value {
        ConstrainedValue::Array(values) => assert_eq!(values.len(), 4),
        _ => panic!("no array"),
    }
}

#[test]
fn out_of_range_slice() {
    let literal = array(vec![u8_("1"), u8_("1"), u8_("1")]);
    let slice = range(literal, Some(implicit("5")), None);
    assert_eq!(eval(&slice), Err(ExpressionError::IndexOutOfBounds(5, 3, span())));
}

fn circuit_with_static_function() -> ConstrainedProgram {
    let mut program = program();
    let f = function("f", vec![], vec![Type::Integer(IntegerKind::U8)], vec![returning(vec![u8_("1")])]);
    let g = function("g", vec![], vec![Type::Integer(IntegerKind::U8)], vec![returning(vec![name("x")])]);
    let circuit = Circuit {
        circuit_name: id("C"),
        members: vec![
            CircuitMember::CircuitField(id("x"), Type::Integer(IntegerKind::U8)),
            CircuitMember::CircuitFunction(true, f),
            CircuitMember::CircuitFunction(false, g),
        ],
    };
    program.store("file_C".to_string(), ConstrainedValue::CircuitDefinition(Rc::new(circuit)));
    program
}

fn instance_of_c() -> Expression {
    Expression::Circuit(
        id("C"),
        vec![CircuitFieldDefinition { identifier: id("x"), expression: u8_("9") }],
        span(),
    )
}

#[test]
fn static_access_misuse() {
    let mut program = circuit_with_static_function();
    let mut cs = ConstraintSink::new();
    let through_instance = call(
        Expression::CircuitMemberAccess(Box::new(instance_of_c()), id("f"), span()),
        vec![],
    );
    assert!(matches!(
        enforce(&mut program, &mut cs, vec![], &through_instance),
        Err(ExpressionError::InvalidStaticAccess(_, _))
    ));
    let through_type = call(
        Expression::CircuitStaticFunctionAccess(Box::new(name("C")), id("f"), span()),
        vec![],
    );
    assert_eq!(enforce(&mut program, &mut cs, vec![], &through_type), Ok(u8_value(1)));
}

#[test]
fn mixed_width_add() {
    let sum = binary(BinaryOperation::Add, u8_("1"), u16_("1"));
    assert_eq!(
        eval(&sum),
        Err(ExpressionError::IncompatibleTypes(
            "+".to_string(),
            "1u8".to_string(),
            "1u16".to_string(),
            span()
        ))
    );
}

#[test]
fn group_pow() {
    let power = binary(BinaryOperation::Pow, group("1"), u8_("2"));
    assert!(matches!(eval(&power), Err(ExpressionError::IncompatibleTypes(_, _, _, _))));
    let power = binary(BinaryOperation::Pow, group("1"), group("2"));
    assert!(matches!(eval(&power), Err(ExpressionError::IncompatibleTypes(_, _, _, _))));
    let power = binary(BinaryOperation::Pow, field("1"), field("2"));
    assert!(matches!(eval(&power), Err(ExpressionError::IncompatibleTypes(_, _, _, _))));
}

// --- what holds of every evaluation, on chosen values --------------------------------

#[test]
fn resolved_value_resolves_to_itself() {
    let modulus = Modulus::from_decimal(FIELD).unwrap();
    let expected = vec![Type::Integer(IntegerKind::U8)];
    let once = ConstrainedValue::Unresolved("5".to_string())
        .resolve_type(&expected, span(), &modulus)
        .unwrap();
    assert_eq!(once, u8_value(5));
    assert_eq!(once.resolve_type(&expected, span(), &modulus), Ok(u8_value(5)));
    let expected = vec![Type::Array(Box::new(Type::Field), vec![2])];
    let both = ConstrainedValue::Array(vec![
        ConstrainedValue::Unresolved("5".to_string()),
        ConstrainedValue::Field(FieldValue::Constant(vec![1, 0])),
    ]);
    let once = both.resolve_type(&expected, span(), &modulus).unwrap();
    assert_eq!(once.to_string(), "[5field, 256field]");
    assert_eq!(once.resolve_type(&expected, span(), &modulus).unwrap(), once);
}

#[test]
fn enforced_value_is_of_the_expected_type() {
    let modulus = Modulus::from_decimal(FIELD).unwrap();
    let expected = vec![Type::Integer(IntegerKind::U16)];
    let value = program()
        .enforce_expression_value(
            &mut ConstraintSink::new(),
            "file",
            "file_main",
            RECURSION_LIMIT,
            &expected,
            &binary(BinaryOperation::Mul, implicit("300"), implicit("2")),
            span(),
        )
        .unwrap();
    assert_eq!(value, integer(IntegerKind::U16, false, 600));
    assert_eq!(value.resolve_type(&expected, span(), &modulus).unwrap(), value);
}

#[test]
fn typed_literal_against_another_type_is_a_mismatch() {
    // A literal that says its own type is not held against the context by itself.
    assert_eq!(eval_as(Type::Field, &u8_("1")), Ok(u8_value(1)));
    let held = program().enforce_expression_value(
        &mut ConstraintSink::new(),
        "file",
        "file_main",
        RECURSION_LIMIT,
        &vec![Type::Field],
        &u8_("1"),
        span(),
    );
    assert_eq!(held, Err(ExpressionError::TypeMismatch(Type::Field, "1u8".to_string(), span())));
}

#[test]
fn implicit_equals_typed_literal() {
    for text in ["0", "200", "255", "256", "300", "-1", "x", ""] {
        assert_eq!(eval_as(Type::Integer(IntegerKind::U8), &implicit(text)), eval(&u8_(text)));
        assert_eq!(eval_as(Type::Integer(IntegerKind::I8), &implicit(text)), eval(&i8_(text)));
    }
    assert_eq!(eval_as(Type::Integer(IntegerKind::U8), &implicit("200")), Ok(u8_value(200)));
    assert_eq!(
        eval_as(Type::Integer(IntegerKind::U8), &implicit("256")),
        Err(ExpressionError::BadLiteral("256".to_string(), span()))
    );
}

#[test]
fn addition_commutes() {
    let program = program();
    let pairs = vec![
        (u8_value(3), u8_value(4)),
        (u8_value(200), u8_value(100)),
        (integer(IntegerKind::I8, true, 100), integer(IntegerKind::I8, false, 27)),
        (
            ConstrainedValue::Field(FieldValue::Constant(vec![9])),
            ConstrainedValue::Field(FieldValue::Constant(vec![1, 2, 3])),
        ),
        (wire_u8(0), u8_value(4)),
        (
            ConstrainedValue::Group(Element::Constant("1".to_string())),
            ConstrainedValue::Group(Element::Constant("2".to_string())),
        ),
    ];
    for (a, b) in pairs {
        let mut first = ConstraintSink::new();
        let mut second = ConstraintSink::new();
        let forth = program.enforce_add_expression(&mut first, &a, &b, span());
        let back = program.enforce_add_expression(&mut second, &b, &a, span());
        match (forth, back) {
            (Ok(x), Ok(y)) => assert_eq!(x, y),
            (Err(_), Err(_)) => {}
            _ => panic!("one order fails and the other does not"),
        }
        assert_eq!(first.len(), second.len());
    }
}

#[test]
fn evaluation_is_deterministic() {
    let expression = binary(
        BinaryOperation::Add,
        binary(BinaryOperation::Mul, name("w"), u8_("3")),
        Expression::IfElse(
            Box::new(binary(BinaryOperation::Eq, name("w"), u8_("1"))),
            Box::new(u8_("5")),
            Box::new(name("w")),
            span(),
        ),
    );
    let mut runs = Vec::new();
    for _ in 0..2 {
        let mut program = program();
        let mut cs = ConstraintSink::new();
        let wire = cs.allocate_input("w");
        program.store("w".to_string(), wire_u8(wire));
        let value = enforce(&mut program, &mut cs, vec![], &expression);
        runs.push((value, cs, program));
    }
    assert_eq!(runs[0], runs[1]);
    assert_eq!(runs[0].1.len(), 5);
    assert_eq!(runs[0].0, Ok(wire_u8(4)));
}

#[test]
fn scope_shadowing() {
    let mut program = program();
    program.store("x".to_string(), u8_value(1));
    assert_eq!(
        program.evaluate_identifier("file", "file_main", &vec![], &id("x")),
        Ok(u8_value(1))
    );
    program.store("file_x".to_string(), u8_value(2));
    assert_eq!(
        program.evaluate_identifier("file", "file_main", &vec![], &id("x")),
        Ok(u8_value(2))
    );
    program.store("file_main_x".to_string(), u8_value(3));
    assert_eq!(
        program.evaluate_identifier("file", "file_main", &vec![], &id("x")),
        Ok(u8_value(3))
    );
    assert_eq!(
        program.evaluate_identifier("file", "file_other", &vec![], &id("x")),
        Ok(u8_value(2))
    );
    assert_eq!(
        program.evaluate_identifier("other", "other_main", &vec![], &id("x")),
        Ok(u8_value(1))
    );
    assert_eq!(
        program.evaluate_identifier("file", "file_main", &vec![], &id("y")),
        Err(ExpressionError::UndefinedIdentifier("y".to_string(), span()))
    );
}

#[test]
fn last_store_wins() {
    let mut program = program();
    assert_eq!(program.get("k"), None);
    program.store("k".to_string(), u8_value(1));
    program.store("other".to_string(), u8_value(7));
    program.store("k".to_string(), u8_value(2));
    assert_eq!(program.get("k"), Some(&u8_value(2)));
    assert_eq!(program.get("other"), Some(&u8_value(7)));
}

#[test]
fn array_access_gives_the_element() {
    let elements = vec![u8_("10"), u8_("11"), u8_("12")];
    for (i, expected) in [10u128, 11, 12].iter().enumerate() {
        let literal = array(vec![u8_("10"), u8_("11"), u8_("12")]);
        let access = at(literal, u32_(&i.to_string()));
        assert_eq!(eval(&access), Ok(u8_value(*expected)));
    }
    assert_eq!(elements.len(), 3);
    let outside = at(array(vec![u8_("10")]), implicit("1"));
    assert_eq!(eval(&outside), Err(ExpressionError::IndexOutOfBounds(1, 1, span())));
}

// --- arithmetic --------------------------------------------------------------------

#[test]
fn integer_arithmetic() {
    let cases = vec![
        (BinaryOperation::Sub, i8_("-100"), i8_("28"), Some(integer(IntegerKind::I8, true, 128))),
        (BinaryOperation::Sub, i8_("-100"), i8_("29"), None),
        (BinaryOperation::Sub, u8_("3"), u8_("4"), None),
        (BinaryOperation::Add, u8_("255"), u8_("1"), None),
        (BinaryOperation::Add, i8_("127"), i8_("-127"), Some(integer(IntegerKind::I8, false, 0))),
        (BinaryOperation::Mul, i8_("-8"), i8_("16"), Some(integer(IntegerKind::I8, true, 128))),
        (BinaryOperation::Mul, i8_("8"), i8_("16"), None),
        (BinaryOperation::Div, i8_("-7"), i8_("2"), Some(integer(IntegerKind::I8, true, 3))),
        (BinaryOperation::Div, i8_("7"), i8_("-2"), Some(integer(IntegerKind::I8, true, 3))),
        (BinaryOperation::Div, i8_("-128"), i8_("-1"), None),
        (BinaryOperation::Div, u8_("7"), u8_("0"), None),
        (BinaryOperation::Pow, u8_("2"), u8_("7"), Some(u8_value(128))),
        (BinaryOperation::Pow, u8_("2"), u8_("8"), None),
        (BinaryOperation::Pow, i8_("-2"), i8_("7"), Some(integer(IntegerKind::I8, true, 128))),
        (BinaryOperation::Pow, i8_("-2"), i8_("6"), Some(integer(IntegerKind::I8, false, 64))),
        (BinaryOperation::Pow, i8_("2"), i8_("-1"), None),
        (BinaryOperation::Pow, u8_("0"), u8_("0"), Some(u8_value(1))),
        (BinaryOperation::Pow, u8_("1"), u8_("255"), Some(u8_value(1))),
        (BinaryOperation::Pow, i8_("-1"), i8_("127"), Some(integer(IntegerKind::I8, true, 1))),
    ];
    for (operation, left, right, expected) in cases {
        let result = eval(&binary(operation, left, right));
        match expected {
            Some(value) => assert_eq!(result, Ok(value)),
            None => assert!(matches!(result, Err(ExpressionError::CannotEnforce(_, _, _)))),
        }
    }
}

#[test]
fn wide_integers() {
    let max = "340282366920938463463374607431768211455";
    let literal = Expression::Literal(Literal::U128(max.to_string(), span()));
    assert_eq!(eval(&literal), Ok(integer(IntegerKind::U128, false, u128::MAX)));
    assert_eq!(eval(&literal).unwrap().to_string(), format!("{}u128", max));
    let over = Expression::Literal(Literal::U128(
        "340282366920938463463374607431768211456".to_string(),
        span(),
    ));
    assert!(matches!(eval(&over), Err(ExpressionError::BadLiteral(_, _))));
    let least = Expression::Literal(Literal::I128(
        "-170141183460469231731687303715884105728".to_string(),
        span(),
    ));
    assert_eq!(eval(&least), Ok(integer(IntegerKind::I128, true, 1 << 127)));
    let one = Expression::Literal(Literal::U128("1".to_string(), span()));
    let sum = binary(
        BinaryOperation::Add,
        Expression::Literal(Literal::U128(max.to_string(), span())),
        one,
    );
    assert!(matches!(eval(&sum), Err(ExpressionError::CannotEnforce(_, _, _))));
}

#[test]
fn cannot_enforce_names_the_operation() {
    let sum = binary(BinaryOperation::Add, u8_("255"), u8_("1"));
    assert_eq!(
        eval(&sum),
        Err(ExpressionError::CannotEnforce(
            "+".to_string(),
            "enforce 255u8 + 1u8 1:2".to_string(),
            span()
        ))
    );
}

#[test]
fn field_arithmetic() {
    let text = |e: &Expression| eval(e).unwrap().to_string();
    assert_eq!(text(&binary(BinaryOperation::Add, field("3"), field("4"))), "7field");
    assert_eq!(text(&binary(BinaryOperation::Mul, field("3"), field("4"))), "12field");
    assert_eq!(text(&binary(BinaryOperation::Sub, field("4"), field("3"))), "1field");
    assert_eq!(
        text(&binary(BinaryOperation::Sub, field("3"), field("4"))),
        "8444461749428370424248824938781546531375899335154063827935233455917409239040field"
    );
    assert_eq!(text(&binary(BinaryOperation::Div, field("12"), field("4"))), "3field");
    // (1 / 2) * 2 is 1
    let half = binary(BinaryOperation::Div, field("1"), field("2"));
    assert_eq!(
        text(&half),
        "4222230874714185212124412469390773265687949667577031913967616727958704619521field"
    );
    assert_eq!(text(&binary(BinaryOperation::Mul, half, field("2"))), "1field");
    // the modulus is zero in the field
    assert_eq!(text(&binary(BinaryOperation::Add, field(FIELD), field("5"))), "5field");
    assert_eq!(text(&field(FIELD)), "0field");
    assert_eq!(
        text(&field("-1")),
        "8444461749428370424248824938781546531375899335154063827935233455917409239040field"
    );
    assert!(matches!(
        eval(&binary(BinaryOperation::Div, field("1"), field("0"))),
        Err(ExpressionError::CannotEnforce(_, _, _))
    ));
    assert!(matches!(eval(&field("12a")), Err(ExpressionError::BadLiteral(_, _))));
    assert!(matches!(eval(&field("")), Err(ExpressionError::BadLiteral(_, _))));
    assert!(matches!(eval(&field("-")), Err(ExpressionError::BadLiteral(_, _))));
}

#[test]
fn small_field() {
    // In the field of seven elements: 3 / 5 is 2, since 2 * 5 is 10, which is 3.
    let program = ConstrainedProgram::new(Modulus::from_decimal("7").unwrap());
    let mut cs = ConstraintSink::new();
    let three = ConstrainedValue::Field(FieldValue::Constant(vec![3]));
    let five = ConstrainedValue::Field(FieldValue::Constant(vec![5]));
    let quotient = program.enforce_div_expression(&mut cs, &three, &five, span()).unwrap();
    assert_eq!(quotient.to_string(), "2field");
    let product = program.enforce_mul_expression(&mut cs, &three, &five, span()).unwrap();
    assert_eq!(product.to_string(), "1field");
    let difference = program.enforce_sub_expression(&mut cs, &three, &five, span()).unwrap();
    assert_eq!(difference.to_string(), "5field");
    let ten = ConstrainedValue::Field(FieldValue::Constant(vec![10]));
    assert_eq!(
        program.evaluate_eq_expression(&mut cs, &three, &ten, span()),
        Ok(ConstrainedValue::Boolean(BooleanValue::Constant(true)))
    );
    assert_eq!(
        program.evaluate_lt_expression(&ten, &five, span()),
        Ok(ConstrainedValue::Boolean(BooleanValue::Constant(true)))
    );
    assert_eq!(cs.len(), 0);
}

#[test]
fn modulus_must_be_at_least_two() {
    assert!(Modulus::from_decimal("0").is_none());
    assert!(Modulus::from_decimal("1").is_none());
    assert!(Modulus::from_decimal("2").is_some());
    assert!(Modulus::from_decimal("").is_none());
    assert!(Modulus::from_decimal("1x").is_none());
    assert!(Modulus::new(vec![]).is_none());
    assert!(Modulus::new(vec![0, 1]).is_none());
    assert!(Modulus::new(vec![1, 0]).is_some());
    assert_eq!(Modulus::from_decimal("256").unwrap().bytes(), &vec![1u8, 0]);
    assert_eq!(
        Modulus::from_decimal("65537").unwrap().duplicate(),
        Modulus::new(vec![1, 0, 1]).unwrap()
    );
}

#[test]
fn wires_are_left_to_gadgets() {
    let mut program = program();
    let mut cs = ConstraintSink::new();
    let wire = cs.allocate_input("a");
    assert_eq!(wire, 0);
    program.store("file_main_a".to_string(), wire_u8(wire));
    let sum = binary(BinaryOperation::Add, name("a"), u8_("2"));
    assert_eq!(enforce(&mut program, &mut cs, vec![], &sum), Ok(wire_u8(1)));
    assert_eq!(cs.constraints[0].gadget, Gadget::Input);
    assert_eq!(cs.constraints[0].namespace, "a");
    assert_eq!(cs.constraints[1].gadget, Gadget::Add);
    assert_eq!(cs.constraints[1].namespace, "enforce w0u8 + 2u8 1:2");
    assert_eq!(cs.constraints[1].operands, vec![wire_u8(0), u8_value(2)]);
    // an untyped number takes the kind of the wire
    let product = binary(BinaryOperation::Mul, implicit("3"), name("a"));
    assert_eq!(enforce(&mut program, &mut cs, vec![], &product), Ok(wire_u8(2)));
    assert_eq!(cs.constraints[2].operands, vec![u8_value(3), wire_u8(0)]);
    // widths must still agree
    let mixed = binary(BinaryOperation::Add, name("a"), u16_("2"));
    assert!(matches!(
        enforce(&mut program, &mut cs, vec![], &mixed),
        Err(ExpressionError::IncompatibleTypes(_, _, _, _))
    ));
    assert_eq!(cs.len(), 3);
}

#[test]
fn group_arithmetic_is_left_to_gadgets() {
    let mut cs = ConstraintSink::new();
    let mut program = program();
    let sum = binary(BinaryOperation::Add, group("1"), group("2"));
    assert_eq!(
        enforce(&mut program, &mut cs, vec![], &sum),
        Ok(ConstrainedValue::Group(Element::Allocated(0)))
    );
    let difference = binary(BinaryOperation::Sub, group("1"), implicit("2"));
    assert_eq!(
        enforce(&mut program, &mut cs, vec![], &difference),
        Ok(ConstrainedValue::Group(Element::Allocated(1)))
    );
    assert_eq!(cs.constraints[1].gadget, Gadget::Sub);
    assert_eq!(
        cs.constraints[1].operands[1],
        ConstrainedValue::Group(Element::Constant("2".to_string()))
    );
    let product = binary(BinaryOperation::Mul, group("1"), group("2"));
    assert!(matches!(
        enforce(&mut program, &mut cs, vec![], &product),
        Err(ExpressionError::IncompatibleTypes(_, _, _, _))
    ));
    let equal = binary(BinaryOperation::Eq, group("1"), group("1"));
    assert_eq!(
        enforce(&mut program, &mut cs, vec![], &equal),
        Ok(ConstrainedValue::Boolean(BooleanValue::Allocated(2)))
    );
    assert_eq!(cs.constraints[2].namespace, "evaluate 1 == 1 1:2");
}

// --- booleans and comparisons --------------------------------------------------------

#[test]
fn boolean_operations() {
    let truth = |value: bool| Ok(ConstrainedValue::Boolean(BooleanValue::Constant(value)));
    assert_eq!(eval(&Expression::Not(Box::new(boolean(true)), span())), truth(false));
    assert_eq!(eval(&binary(BinaryOperation::Or, boolean(true), boolean(false))), truth(true));
    assert_eq!(eval(&binary(BinaryOperation::Or, boolean(false), boolean(false))), truth(false));
    assert_eq!(eval(&binary(BinaryOperation::And, boolean(true), boolean(false))), truth(false));
    assert_eq!(eval(&binary(BinaryOperation::And, boolean(true), boolean(true))), truth(true));
    assert_eq!(
        eval(&Expression::Not(Box::new(u8_("1")), span())),
        Err(ExpressionError::IncompatibleTypes(
            "!".to_string(),
            "1u8".to_string(),
            String::new(),
            span()
        ))
    );
    assert!(matches!(
        eval(&binary(BinaryOperation::And, boolean(true), u8_("1"))),
        Err(ExpressionError::IncompatibleTypes(_, _, _, _))
    ));
}

#[test]
fn boolean_operations_do_not_short_circuit() {
    let failing = binary(BinaryOperation::Eq, binary(BinaryOperation::Div, u8_("1"), u8_("0")), u8_("1"));
    assert!(matches!(
        eval(&binary(BinaryOperation::Or, boolean(true), failing)),
        Err(ExpressionError::CannotEnforce(_, _, _))
    ));
}

#[test]
fn boolean_wires() {
    let mut program = program();
    let mut cs = ConstraintSink::new();
    let wire = cs.allocate_witness("b");
    program.store("b".to_string(), ConstrainedValue::Boolean(BooleanValue::Allocated(wire)));
    let negated = Expression::Not(Box::new(name("b")), span());
    assert_eq!(
        enforce(&mut program, &mut cs, vec![], &negated),
        Ok(ConstrainedValue::Boolean(BooleanValue::Allocated(1)))
    );
    assert_eq!(cs.constraints[1].gadget, Gadget::Not);
    assert_eq!(cs.constraints[1].namespace, "enforce !w0bool 1:2");
    let both = binary(BinaryOperation::And, name("b"), boolean(true));
    assert_eq!(
        enforce(&mut program, &mut cs, vec![], &both),
        Ok(ConstrainedValue::Boolean(BooleanValue::Allocated(2)))
    );
    assert_eq!(cs.constraints[2].gadget, Gadget::And);
    assert_eq!(cs.constraints[2].namespace, "enforce w0bool && true 1:2");
}

#[test]
fn comparisons() {
    let truth = |value: bool| Ok(ConstrainedValue::Boolean(BooleanValue::Constant(value)));
    assert_eq!(eval(&binary(BinaryOperation::Eq, u8_("3"), u8_("3"))), truth(true));
    assert_eq!(eval(&binary(BinaryOperation::Eq, u8_("3"), implicit("4"))), truth(false));
    assert_eq!(eval(&binary(BinaryOperation::Eq, boolean(true), boolean(true))), truth(true));
    assert_eq!(eval(&binary(BinaryOperation::Eq, field("3"), field("3"))), truth(true));
    assert_eq!(eval(&binary(BinaryOperation::Lt, i8_("-3"), i8_("2"))), truth(true));
    assert_eq!(eval(&binary(BinaryOperation::Lt, i8_("2"), i8_("2"))), truth(false));
    assert_eq!(eval(&binary(BinaryOperation::Le, i8_("2"), i8_("2"))), truth(true));
    assert_eq!(eval(&binary(BinaryOperation::Gt, i8_("-3"), i8_("-4"))), truth(true));
    assert_eq!(eval(&binary(BinaryOperation::Ge, i8_("-5"), i8_("-4"))), truth(false));
    assert_eq!(eval(&binary(BinaryOperation::Ge, field("5"), field("4"))), truth(true));
    assert_eq!(eval(&binary(BinaryOperation::Lt, field("5"), implicit("40"))), truth(true));
    assert!(matches!(
        eval(&binary(BinaryOperation::Eq, u8_("3"), u16_("3"))),
        Err(ExpressionError::IncompatibleTypes(_, _, _, _))
    ));
    assert!(matches!(
        eval(&binary(BinaryOperation::Lt, boolean(true), boolean(false))),
        Err(ExpressionError::IncompatibleTypes(_, _, _, _))
    ));
    assert!(matches!(
        eval(&binary(BinaryOperation::Lt, group("1"), group("2"))),
        Err(ExpressionError::IncompatibleTypes(_, _, _, _))
    ));
    // the operands of a comparison are evaluated under no expectation
    assert_eq!(
        eval_as(Type::Boolean, &binary(BinaryOperation::Eq, u8_("3"), u8_("3"))),
        truth(true)
    );
}

#[test]
fn order_is_not_enforced_on_wires() {
    let program = program();
    assert_eq!(
        program.evaluate_ge_expression(&wire_u8(0), &u8_value(1), span()),
        Err(ExpressionError::CannotEnforce(
            ">=".to_string(),
            "evaluate w0u8 >= 1u8 1:2".to_string(),
            span()
        ))
    );
    assert!(matches!(
        program.evaluate_lt_expression(
            &ConstrainedValue::Field(FieldValue::Allocated(3)),
            &ConstrainedValue::Field(FieldValue::Constant(vec![1])),
            span()
        ),
        Err(ExpressionError::CannotEnforce(_, _, _))
    ));
    let mut cs = ConstraintSink::new();
    assert_eq!(
        program.evaluate_eq_expression(&mut cs, &wire_u8(0), &u8_value(1), span()),
        Ok(ConstrainedValue::Boolean(BooleanValue::Allocated(0)))
    );
    assert_eq!(cs.constraints[0].gadget, Gadget::Eq);
}

// --- arrays ------------------------------------------------------------------------

#[test]
fn array_literals_against_a_type() {
    let u8_type = Type::Integer(IntegerKind::U8);
    let literal = array(vec![implicit("1"), implicit("2")]);
    assert_eq!(
        eval_as(Type::Array(Box::new(u8_type.duplicate()), vec![2]), &literal),
        Ok(ConstrainedValue::Array(vec![u8_value(1), u8_value(2)]))
    );
    assert_eq!(
        eval_as(Type::Array(Box::new(u8_type.duplicate()), vec![3]), &literal),
        Err(ExpressionError::InvalidLength(3, 2, span()))
    );
    assert_eq!(
        eval_as(u8_type.duplicate(), &literal),
        Err(ExpressionError::UnexpectedArray(u8_type.duplicate(), span()))
    );
    let nested = array(vec![
        array(vec![implicit("1"), implicit("2")]),
        array(vec![implicit("3"), implicit("4")]),
    ]);
    assert_eq!(
        eval_as(Type::Array(Box::new(u8_type.duplicate()), vec![2, 2]), &nested)
            .unwrap()
            .to_string(),
        "[[1u8, 2u8], [3u8, 4u8]]"
    );
    let ragged = array(vec![array(vec![implicit("1")]), array(vec![implicit("3"), implicit("4")])]);
    assert_eq!(
        eval_as(Type::Array(Box::new(u8_type.duplicate()), vec![2, 2]), &ragged),
        Err(ExpressionError::InvalidLength(2, 1, span()))
    );
    assert_eq!(eval(&array(vec![])), Ok(ConstrainedValue::Array(vec![])));
}

#[test]
fn inner_dimension_strips_the_leading_dimension() {
    let element = Type::Field;
    assert_eq!(element.inner_dimension(&vec![3]), Type::Field);
    assert_eq!(element.inner_dimension(&vec![]), Type::Field);
    assert_eq!(
        element.inner_dimension(&vec![3, 4, 5]),
        Type::Array(Box::new(Type::Field), vec![4, 5])
    );
}

#[test]
fn slices() {
    let literal = || array(vec![u8_("10"), u8_("11"), u8_("12"), u8_("13")]);
    let values = |v: &[u128]| Ok(ConstrainedValue::Array(v.iter().map(|x| u8_value(*x)).collect()));
    assert_eq!(eval(&range(literal(), None, None)), values(&[10, 11, 12, 13]));
    assert_eq!(eval(&range(literal(), Some(implicit("1")), None)), values(&[11, 12, 13]));
    assert_eq!(eval(&range(literal(), None, Some(implicit("2")))), values(&[10, 11]));
    assert_eq!(eval(&range(literal(), Some(u32_("1")), Some(u32_("3")))), values(&[11, 12]));
    assert_eq!(eval(&range(literal(), Some(u32_("2")), Some(u32_("2")))), values(&[]));
    assert_eq!(eval(&range(literal(), Some(u32_("4")), None)), values(&[]));
    assert_eq!(
        eval(&range(literal(), None, Some(u32_("5")))),
        Err(ExpressionError::IndexOutOfBounds(5, 4, span()))
    );
    assert_eq!(
        eval(&range(literal(), Some(u32_("3")), Some(u32_("2")))),
        Err(ExpressionError::IndexOutOfBounds(3, 4, span()))
    );
}

#[test]
fn indices() {
    let literal = || array(vec![u8_("10"), u8_("11")]);
    // an index is an unsigned integer of 32 bits
    assert!(matches!(
        eval(&at(literal(), u8_("1"))),
        Err(ExpressionError::TypeMismatch(_, _, _))
    ));
    assert!(matches!(
        eval(&at(literal(), implicit("-1"))),
        Err(ExpressionError::BadLiteral(_, _))
    ));
    assert!(matches!(
        eval(&at(literal(), implicit("4294967296"))),
        Err(ExpressionError::BadLiteral(_, _))
    ));
    assert_eq!(
        eval(&at(u8_("1"), implicit("0"))),
        Err(ExpressionError::UndefinedArray("1u8".to_string(), span()))
    );
    let mut program = program();
    program.store(
        "i".to_string(),
        ConstrainedValue::Integer(Integer::Allocated(IntegerKind::U32, 0)),
    );
    assert_eq!(
        enforce(&mut program, &mut ConstraintSink::new(), vec![], &at(literal(), name("i"))),
        Err(ExpressionError::InvalidIndex("w0u32".to_string(), span()))
    );
}

#[test]
fn spread_errors() {
    let mut program = program();
    let mut cs = ConstraintSink::new();
    program.store("file_main_n".to_string(), u8_value(1));
    let of_number = Expression::Array(vec![SpreadOrExpression::Spread(name("n"))], span());
    assert_eq!(
        enforce(&mut program, &mut cs, vec![], &of_number),
        Err(ExpressionError::InvalidSpread("1u8".to_string(), span()))
    );
    let of_missing = Expression::Array(vec![SpreadOrExpression::Spread(name("m"))], span());
    assert_eq!(
        enforce(&mut program, &mut cs, vec![], &of_missing),
        Err(ExpressionError::UndefinedArray("m".to_string(), span()))
    );
    let of_literal = Expression::Array(vec![SpreadOrExpression::Spread(u8_("1"))], span());
    assert_eq!(
        enforce(&mut program, &mut cs, vec![], &of_literal),
        Err(ExpressionError::InvalidSpread("expression".to_string(), span()))
    );
    // a spread looks in the function's scope only
    program.store("file_a".to_string(), ConstrainedValue::Array(vec![]));
    let of_file = Expression::Array(vec![SpreadOrExpression::Spread(name("a"))], span());
    assert!(matches!(
        enforce(&mut program, &mut cs, vec![], &of_file),
        Err(ExpressionError::UndefinedArray(_, _))
    ));
}

// --- circuits ----------------------------------------------------------------------

#[test]
fn circuit_instances_keep_the_declared_order() {
    let mut program = circuit_with_static_function();
    let mut cs = ConstraintSink::new();
    let value = enforce(&mut program, &mut cs, vec![], &instance_of_c()).unwrap();
    match &value {
        ConstrainedValue::CircuitExpression(name, members) => {
            assert_eq!(name.name, "C");
            assert_eq!(members.len(), 3);
            assert_eq!(members[0], ConstrainedCircuitMember(id("x"), u8_value(9)));
            assert_eq!(members[1].0.name, "f");
            assert!(matches!(&members[1].1, ConstrainedValue::Static(inner)
                if matches!(**inner, ConstrainedValue::Function(Some(_), _))));
            assert_eq!(members[2].0.name, "g");
            assert!(matches!(&members[2].1, ConstrainedValue::Function(Some(owner), _)
                if owner.name == "C"));
        }
        _ => panic!("no instance"),
    }
    assert_eq!(
        value.to_string(),
        "C {x: 9u8, f: static function {f}, g: function {g}}"
    );
}

#[test]
fn circuit_fields_are_read_as_declared() {
    let mut program = circuit_with_static_function();
    let mut cs = ConstraintSink::new();
    let untyped = Expression::Circuit(
        id("C"),
        vec![
            CircuitFieldDefinition { identifier: id("y"), expression: u8_("1") },
            CircuitFieldDefinition { identifier: id("x"), expression: implicit("7") },
            CircuitFieldDefinition { identifier: id("x"), expression: implicit("8") },
        ],
        span(),
    );
    let value = enforce(&mut program, &mut cs, vec![], &untyped).unwrap();
    let read = Expression::CircuitMemberAccess(Box::new(untyped), id("x"), span());
    assert_eq!(enforce(&mut program, &mut cs, vec![], &read), Ok(u8_value(7)));
    assert!(value.to_string().starts_with("C {x: 7u8"));
}

#[test]
fn circuit_errors() {
    let mut program = circuit_with_static_function();
    let mut cs = ConstraintSink::new();
    let missing_field = Expression::Circuit(id("C"), vec![], span());
    assert_eq!(
        enforce(&mut program, &mut cs, vec![], &missing_field),
        Err(ExpressionError::ExpectedCircuitMember("x".to_string(), span()))
    );
    let unknown = Expression::Circuit(id("D"), vec![], span());
    assert_eq!(
        enforce(&mut program, &mut cs, vec![], &unknown),
        Err(ExpressionError::UndefinedCircuit("D".to_string(), span()))
    );
    program.store("file_N".to_string(), u8_value(1));
    let no_circuit = Expression::Circuit(id("N"), vec![], span());
    assert_eq!(
        enforce(&mut program, &mut cs, vec![], &no_circuit),
        Err(ExpressionError::NotACircuit("1u8".to_string(), span()))
    );
    let no_member = Expression::CircuitMemberAccess(Box::new(instance_of_c()), id("z"), span());
    assert_eq!(
        enforce(&mut program, &mut cs, vec![], &no_member),
        Err(ExpressionError::UndefinedMemberAccess("C".to_string(), "z".to_string(), span()))
    );
    let no_instance = Expression::CircuitMemberAccess(Box::new(u8_("1")), id("z"), span());
    assert_eq!(
        enforce(&mut program, &mut cs, vec![], &no_instance),
        Err(ExpressionError::UndefinedCircuit("1u8".to_string(), span()))
    );
    let not_static =
        Expression::CircuitStaticFunctionAccess(Box::new(name("C")), id("g"), span());
    assert_eq!(
        enforce(&mut program, &mut cs, vec![], &not_static),
        Err(ExpressionError::InvalidMemberAccess("g".to_string(), span()))
    );
    let no_function =
        Expression::CircuitStaticFunctionAccess(Box::new(name("C")), id("x"), span());
    assert_eq!(
        enforce(&mut program, &mut cs, vec![], &no_function),
        Err(ExpressionError::UndefinedMemberAccess("C".to_string(), "x".to_string(), span()))
    );
    let no_definition =
        Expression::CircuitStaticFunctionAccess(Box::new(u8_("1")), id("f"), span());
    assert_eq!(
        enforce(&mut program, &mut cs, vec![], &no_definition),
        Err(ExpressionError::UndefinedCircuit("1u8".to_string(), span()))
    );
}

#[test]
fn self_names_the_circuit_of_the_file_scope() {
    let mut program = program();
    let circuit = Circuit { circuit_name: id("C"), members: vec![] };
    program.store("file_C".to_string(), ConstrainedValue::CircuitDefinition(Rc::new(circuit)));
    let own = Expression::Circuit(id("Self"), vec![], span());
    let value = program.enforce_expression(
        &mut ConstraintSink::new(),
        "file_C",
        "file_C_f",
        RECURSION_LIMIT,
        &vec![],
        &own,
    );
    assert_eq!(value.unwrap().to_string(), "C {}");
    assert!(id("Self").is_self());
    assert!(!id("self").is_self());
}

#[test]
fn member_function_sees_the_fields_of_its_instance() {
    let mut program = circuit_with_static_function();
    let mut cs = ConstraintSink::new();
    let method = Expression::CircuitMemberAccess(Box::new(instance_of_c()), id("g"), span());
    let before = program.identifiers.len();
    let value = enforce(&mut program, &mut cs, vec![], &method).unwrap();
    assert!(matches!(value, ConstrainedValue::Function(Some(_), _)));
    assert_eq!(program.identifiers.len(), before + 1);
    assert_eq!(program.get("file_C_g_x"), Some(&u8_value(9)));
    // and the call reads it
    let called = call(
        Expression::CircuitMemberAccess(Box::new(instance_of_c()), id("g"), span()),
        vec![],
    );
    assert_eq!(enforce(&mut program, &mut cs, vec![], &called), Ok(u8_value(9)));
}

// --- functions ---------------------------------------------------------------------

fn with_function(f: Rc<Function>) -> ConstrainedProgram {
    let mut program = program();
    let key = format!("file_{}", f.get_name());
    program.store(key, ConstrainedValue::Function(None, f));
    program
}

#[test]
fn function_call_binds_arguments_and_returns() {
    let u8_type = || Type::Integer(IntegerKind::U8);
    let add = function(
        "add",
        vec![("a", u8_type()), ("b", u8_type())],
        vec![u8_type()],
        vec![
            Statement::Definition(
                vec![id("c")],
                vec![u8_type()],
                binary(BinaryOperation::Add, name("a"), name("b")),
                span(),
            ),
            returning(vec![name("c")]),
            returning(vec![u8_("0")]),
        ],
    );
    let mut program = with_function(add);
    let mut cs = ConstraintSink::new();
    let called = call(name("add"), vec![implicit("1"), u8_("2")]);
    assert_eq!(enforce(&mut program, &mut cs, vec![], &called), Ok(u8_value(3)));
    assert_eq!(program.get("file_add_a"), Some(&u8_value(1)));
    assert_eq!(program.get("file_add_b"), Some(&u8_value(2)));
    assert_eq!(program.get("file_add_c"), Some(&u8_value(3)));
    assert_eq!(cs.prefix, "");
    assert_eq!(cs.len(), 0);
}

#[test]
fn function_call_has_its_own_namespace() {
    let u8_type = || Type::Integer(IntegerKind::U8);
    let double = function(
        "double",
        vec![("a", u8_type())],
        vec![u8_type()],
        vec![returning(vec![binary(BinaryOperation::Add, name("a"), name("a"))])],
    );
    let mut program = with_function(double);
    let mut cs = ConstraintSink::new();
    let wire = cs.allocate_input("w");
    program.store("file_main_w".to_string(), wire_u8(wire));
    let called = call(name("double"), vec![call(name("double"), vec![name("w")])]);
    assert_eq!(enforce(&mut program, &mut cs, vec![], &called), Ok(wire_u8(2)));
    assert_eq!(
        cs.constraints[1].namespace,
        "function call double 1:2/function call double 1:2/enforce w0u8 + w0u8 1:2"
    );
    assert_eq!(
        cs.constraints[2].namespace,
        "function call double 1:2/enforce w1u8 + w1u8 1:2"
    );
    assert_eq!(cs.prefix, "");
}

#[test]
fn function_call_returns() {
    let u8_type = || Type::Integer(IntegerKind::U8);
    let nothing = function("nothing", vec![], vec![], vec![]);
    assert_eq!(
        enforce(
            &mut with_function(nothing),
            &mut ConstraintSink::new(),
            vec![],
            &call(name("nothing"), vec![])
        ),
        Ok(ConstrainedValue::Return(vec![]))
    );
    let two = function(
        "two",
        vec![],
        vec![u8_type(), Type::Boolean],
        vec![returning(vec![implicit("1"), boolean(true)])],
    );
    assert_eq!(
        enforce(
            &mut with_function(two),
            &mut ConstraintSink::new(),
            vec![],
            &call(name("two"), vec![])
        ),
        Ok(ConstrainedValue::Return(vec![
            u8_value(1),
            ConstrainedValue::Boolean(BooleanValue::Constant(true))
        ]))
    );
    let silent = function("silent", vec![], vec![u8_type()], vec![]);
    assert_eq!(
        enforce(
            &mut with_function(silent),
            &mut ConstraintSink::new(),
            vec![],
            &call(name("silent"), vec![])
        ),
        Err(ExpressionError::FunctionNoReturn("silent".to_string(), span()))
    );
    let short = function("short", vec![], vec![u8_type()], vec![returning(vec![])]);
    assert_eq!(
        enforce(
            &mut with_function(short),
            &mut ConstraintSink::new(),
            vec![],
            &call(name("short"), vec![])
        ),
        Err(ExpressionError::InvalidLength(1, 0, span()))
    );
    let one = function("one", vec![("a", u8_type())], vec![], vec![]);
    assert_eq!(
        enforce(
            &mut with_function(one),
            &mut ConstraintSink::new(),
            vec![],
            &call(name("one"), vec![])
        ),
        Err(ExpressionError::InvalidLength(1, 0, span()))
    );
    assert_eq!(
        eval(&call(u8_("1"), vec![])),
        Err(ExpressionError::NotAFunction("1u8".to_string(), span()))
    );
}

#[test]
fn recursion_is_capped() {
    let u8_type = || Type::Integer(IntegerKind::U8);
    let forever =
        function("forever", vec![], vec![u8_type()], vec![returning(vec![call(name("forever"), vec![])])]);
    let mut program = with_function(forever);
    let mut cs = ConstraintSink::new();
    let called = call(name("forever"), vec![]);
    assert_eq!(
        program.enforce_expression(&mut cs, "file", "file_main", 8, &vec![], &called),
        Err(ExpressionError::RecursionLimit(span()))
    );
    assert_eq!(cs.prefix, "");
    assert_eq!(
        program.enforce_expression(&mut cs, "file", "file_main", 0, &vec![], &called),
        Err(ExpressionError::RecursionLimit(span()))
    );
    assert_eq!(
        program.enforce_expression(&mut cs, "file", "file_main", 0, &vec![], &u8_("1")),
        Ok(u8_value(1))
    );
    assert_eq!(RECURSION_LIMIT, 256);
}

#[test]
fn conditional_needs_a_boolean() {
    let select =
        Expression::IfElse(Box::new(u8_("1")), Box::new(u8_("5")), Box::new(u8_("7")), span());
    assert_eq!(
        eval(&select),
        Err(ExpressionError::ConditionalBoolean("1u8".to_string(), span()))
    );
    let select =
        Expression::IfElse(Box::new(implicit("1")), Box::new(u8_("5")), Box::new(u8_("7")), span());
    assert_eq!(eval(&select), Err(ExpressionError::BadLiteral("1".to_string(), span())));
}

#[test]
fn literals_of_every_form() {
    assert_eq!(
        eval(&Expression::Literal(Literal::Address("aleo1qnr4".to_string(), span()))),
        Ok(ConstrainedValue::Address("aleo1qnr4".to_string()))
    );
    assert_eq!(
        eval(&Expression::Literal(Literal::String("foobar".to_string(), span()))),
        Ok(ConstrainedValue::String("foobar".to_string()))
    );
    assert_eq!(
        eval(&Expression::Literal(Literal::Scalar("12".to_string(), span()))),
        Ok(ConstrainedValue::Scalar(Element::Constant("12".to_string())))
    );
    assert!(matches!(
        eval(&Expression::Literal(Literal::Scalar("-12".to_string(), span()))),
        Err(ExpressionError::BadLiteral(_, _))
    ));
    assert_eq!(
        eval(&group("7")),
        Ok(ConstrainedValue::Group(Element::Constant("7".to_string())))
    );
    assert_eq!(eval(&implicit("12")), Ok(ConstrainedValue::Unresolved("12".to_string())));
    assert_eq!(eval_as(Type::Group, &implicit("-12")).unwrap().to_string(), "-12");
    assert!(matches!(
        eval_as(Type::Boolean, &implicit("1")),
        Err(ExpressionError::BadLiteral(_, _))
    ));
    assert!(matches!(
        eval_as(Type::Address, &implicit("1")),
        Err(ExpressionError::BadLiteral(_, _))
    ));
    assert!(matches!(
        eval_as(Type::SelfType, &implicit("1")),
        Err(ExpressionError::TypeMismatch(_, _, _))
    ));
    assert_eq!(
        enforce(&mut program(), &mut ConstraintSink::new(), vec![Type::Field, Type::Field], &implicit("1")),
        Ok(ConstrainedValue::Unresolved("1".to_string()))
    );
    assert!(matches!(
        eval(&binary(BinaryOperation::Add, implicit("1"), implicit("2"))),
        Err(ExpressionError::BadLiteral(_, _))
    ));
}

// --- statements --------------------------------------------------------------------

fn u8_type() -> Type {
    Type::Integer(IntegerKind::U8)
}

fn define(names: &[&str], declared: Vec<Type>, expression: Expression) -> Statement {
    Statement::Definition(names.iter().map(|n| id(n)).collect(), declared, expression, span())
}

fn assign(target: &str, expression: Expression) -> Statement {
    Statement::Assign(id(target), expression, span())
}

fn run(body: Vec<Statement>, outputs: Vec<Type>) -> Result<ConstrainedValue, ExpressionError> {
    let mut program = with_function(function("f", vec![], outputs, body));
    enforce(&mut program, &mut ConstraintSink::new(), vec![], &call(name("f"), vec![]))
}

#[test]
fn several_names_take_what_a_call_returns() {
    let pair = function(
        "pair",
        vec![],
        vec![u8_type(), Type::Boolean],
        vec![returning(vec![u8_("7"), boolean(true)])],
    );
    let mut program = with_function(function(
        "f",
        vec![],
        vec![Type::Boolean, u8_type()],
        vec![
            define(&["a", "b"], vec![], call(name("pair"), vec![])),
            returning(vec![name("b"), name("a")]),
        ],
    ));
    program.store("file_pair".to_string(), ConstrainedValue::Function(None, pair));
    let mut cs = ConstraintSink::new();
    assert_eq!(
        enforce(&mut program, &mut cs, vec![], &call(name("f"), vec![])),
        Ok(ConstrainedValue::Return(vec![
            ConstrainedValue::Boolean(BooleanValue::Constant(true)),
            u8_value(7)
        ]))
    );
    assert_eq!(program.get("file_f_a"), Some(&u8_value(7)));
}

#[test]
fn names_and_returned_values_must_agree() {
    let pair = || {
        function(
            "pair",
            vec![],
            vec![u8_type(), Type::Boolean],
            vec![returning(vec![u8_("7"), boolean(true)])],
        )
    };
    let with_pair = |body: Vec<Statement>| {
        let mut program = with_function(function("f", vec![], vec![], body));
        program.store("file_pair".to_string(), ConstrainedValue::Function(None, pair()));
        let result =
            enforce(&mut program, &mut ConstraintSink::new(), vec![], &call(name("f"), vec![]));
        (result, program)
    };
    let (result, _) = with_pair(vec![define(&["a", "b", "c"], vec![], call(name("pair"), vec![]))]);
    assert_eq!(result, Err(ExpressionError::InvalidLength(3, 2, span())));
    let (result, _) = with_pair(vec![define(&["a", "b"], vec![], u8_("1"))]);
    assert_eq!(result, Err(ExpressionError::InvalidLength(2, 1, span())));
    let (result, _) =
        with_pair(vec![define(&["a", "b"], vec![u8_type()], call(name("pair"), vec![]))]);
    assert_eq!(result, Err(ExpressionError::InvalidLength(2, 1, span())));
    // a value that is not of its declared type stops the definition before any name is stored
    let (result, program) = with_pair(vec![define(
        &["a", "b"],
        vec![u8_type(), u8_type()],
        call(name("pair"), vec![]),
    )]);
    assert_eq!(
        result,
        Err(ExpressionError::TypeMismatch(u8_type(), "true".to_string(), span()))
    );
    assert_eq!(program.get("file_f_a"), None);
    let (result, program) = with_pair(vec![define(
        &["a", "b"],
        vec![u8_type(), Type::Boolean],
        call(name("pair"), vec![]),
    )]);
    assert_eq!(result, Ok(ConstrainedValue::Return(vec![])));
    assert_eq!(program.get("file_f_b"), Some(&ConstrainedValue::Boolean(BooleanValue::Constant(true))));
}

#[test]
fn assignment() {
    let body = vec![
        define(&["x"], vec![u8_type()], implicit("1")),
        assign("x", binary(BinaryOperation::Add, name("x"), implicit("2"))),
        assign("x", implicit("9")),
        returning(vec![name("x")]),
    ];
    assert_eq!(run(body, vec![u8_type()]), Ok(u8_value(9)));
    let body = vec![assign("y", u8_("1"))];
    assert_eq!(
        run(body, vec![]),
        Err(ExpressionError::UndefinedIdentifier("y".to_string(), span()))
    );
}

#[test]
fn conditional_on_constants() {
    let body = |condition: bool| {
        vec![
            define(&["x"], vec![], u8_("0")),
            Statement::Conditional(
                boolean(condition),
                vec![assign("x", u8_("1"))],
                vec![assign("x", u8_("2"))],
                span(),
            ),
            returning(vec![name("x")]),
        ]
    };
    assert_eq!(run(body(true), vec![u8_type()]), Ok(u8_value(1)));
    assert_eq!(run(body(false), vec![u8_type()]), Ok(u8_value(2)));
    // a return takes effect in the branch that is taken only
    let body = |condition: bool| {
        vec![
            Statement::Conditional(
                boolean(condition),
                vec![returning(vec![u8_("1")])],
                vec![],
                span(),
            ),
            returning(vec![u8_("2")]),
        ]
    };
    assert_eq!(run(body(true), vec![u8_type()]), Ok(u8_value(1)));
    assert_eq!(run(body(false), vec![u8_type()]), Ok(u8_value(2)));
    // but the branch that is not taken is evaluated all the same
    let body = vec![Statement::Conditional(
        boolean(false),
        vec![define(&["x"], vec![], binary(BinaryOperation::Div, u8_("1"), u8_("0")))],
        vec![],
        span(),
    )];
    assert!(matches!(run(body, vec![]), Err(ExpressionError::CannotEnforce(_, _, _))));
    let body = vec![Statement::Conditional(u8_("1"), vec![], vec![], span())];
    assert_eq!(
        run(body, vec![]),
        Err(ExpressionError::ConditionalBoolean("1u8".to_string(), span()))
    );
}

#[test]
fn conditional_on_a_wire_selects() {
    let body = vec![
        define(&["x"], vec![], u8_("0")),
        Statement::Conditional(
            name("c"),
            vec![assign("x", u8_("1"))],
            vec![assign("x", u8_("2"))],
            span(),
        ),
        returning(vec![name("x")]),
    ];
    let mut program = with_function(function("f", vec![], vec![u8_type()], body));
    let mut cs = ConstraintSink::new();
    let wire = cs.allocate_input("c");
    program.store("c".to_string(), ConstrainedValue::Boolean(BooleanValue::Allocated(wire)));
    let result = enforce(&mut program, &mut cs, vec![], &call(name("f"), vec![]));
    // wire 0 is c; 1 is true && c; 2 selects 1u8 or 0u8; 3 is !c; 4 is true && !c;
    // 5 selects 2u8 or the earlier selection
    assert_eq!(result, Ok(wire_u8(5)));
    let gadgets: Vec<Gadget> = cs.constraints.iter().map(|c| c.gadget).collect();
    assert_eq!(
        gadgets,
        vec![Gadget::Input, Gadget::And, Gadget::Select, Gadget::Not, Gadget::And, Gadget::Select]
    );
    assert_eq!(
        cs.constraints[2].operands,
        vec![ConstrainedValue::Boolean(BooleanValue::Allocated(1)), u8_value(1), u8_value(0)]
    );
    assert_eq!(
        cs.constraints[5].operands,
        vec![ConstrainedValue::Boolean(BooleanValue::Allocated(4)), u8_value(2), wire_u8(2)]
    );
    assert_eq!(cs.constraints[5].namespace, "function call f 1:2/select 2u8 or w2u8 1:2");
    assert_eq!(cs.prefix, "");
}

#[test]
fn return_under_a_wire_cannot_be_enforced() {
    let body = vec![
        Statement::Conditional(name("c"), vec![returning(vec![u8_("1")])], vec![], span()),
        returning(vec![u8_("2")]),
    ];
    let mut program = with_function(function("f", vec![], vec![u8_type()], body));
    let mut cs = ConstraintSink::new();
    let wire = cs.allocate_input("c");
    program.store("c".to_string(), ConstrainedValue::Boolean(BooleanValue::Allocated(wire)));
    assert_eq!(
        enforce(&mut program, &mut cs, vec![], &call(name("f"), vec![])),
        Err(ExpressionError::CannotEnforce("return".to_string(), "w1bool".to_string(), span()))
    );
}

#[test]
fn iteration_is_unrolled() {
    let body = vec![
        define(&["sum"], vec![Type::Integer(IntegerKind::U32)], implicit("0")),
        Statement::Iteration(
            id("i"),
            implicit("2"),
            implicit("5"),
            vec![assign("sum", binary(BinaryOperation::Add, name("sum"), name("i")))],
            span(),
        ),
        returning(vec![name("sum")]),
    ];
    assert_eq!(
        run(body, vec![Type::Integer(IntegerKind::U32)]),
        Ok(integer(IntegerKind::U32, false, 9))
    );
    // no round where the bounds leave none
    let body = vec![
        Statement::Iteration(
            id("i"),
            implicit("5"),
            implicit("2"),
            vec![returning(vec![u8_("1")])],
            span(),
        ),
        returning(vec![u8_("2")]),
    ];
    assert_eq!(run(body, vec![u8_type()]), Ok(u8_value(2)));
    // a return ends the rounds
    let body = vec![Statement::Iteration(
        id("i"),
        implicit("3"),
        implicit("4000000000"),
        vec![returning(vec![name("i")])],
        span(),
    )];
    assert_eq!(
        run(body, vec![Type::Integer(IntegerKind::U32)]),
        Ok(integer(IntegerKind::U32, false, 3))
    );
    // each round has its own index
    let mut program = with_function(function(
        "f",
        vec![],
        vec![],
        vec![Statement::Iteration(id("i"), implicit("0"), implicit("3"), vec![], span())],
    ));
    let before = program.identifiers.len();
    assert_eq!(
        enforce(&mut program, &mut ConstraintSink::new(), vec![], &call(name("f"), vec![])),
        Ok(ConstrainedValue::Return(vec![]))
    );
    assert_eq!(program.identifiers.len(), before + 3);
    assert_eq!(program.get("file_f_i"), Some(&integer(IntegerKind::U32, false, 2)));
    // the bounds are constants
    let mut program = with_function(function(
        "f",
        vec![],
        vec![],
        vec![Statement::Iteration(id("i"), name("n"), implicit("3"), vec![], span())],
    ));
    program.store(
        "n".to_string(),
        ConstrainedValue::Integer(Integer::Allocated(IntegerKind::U32, 0)),
    );
    assert!(matches!(
        enforce(&mut program, &mut ConstraintSink::new(), vec![], &call(name("f"), vec![])),
        Err(ExpressionError::InvalidIndex(_, _))
    ));
}

// --- the parts of the evaluator, one by one -----------------------------------------

#[test]
fn indices_must_fit_the_machine() {
    assert_eq!(to_index(&integer(IntegerKind::U32, false, 7), span()), Ok(7));
    assert_eq!(to_index(&integer(IntegerKind::I32, true, 0), span()), Ok(0));
    assert_eq!(
        to_index(&integer(IntegerKind::I32, true, 1), span()),
        Err(ExpressionError::IndexOverflow("-1i32".to_string(), span()))
    );
    assert_eq!(
        to_index(&integer(IntegerKind::U128, false, u128::MAX), span()),
        Err(ExpressionError::IndexOverflow(
            "340282366920938463463374607431768211455u128".to_string(),
            span()
        ))
    );
    assert_eq!(
        to_index(&integer(IntegerKind::U128, false, usize::MAX as u128), span()),
        Ok(usize::MAX)
    );
    assert_eq!(
        to_index(&wire_u8(1), span()),
        Err(ExpressionError::InvalidIndex("w1u8".to_string(), span()))
    );
    assert_eq!(
        to_index(&ConstrainedValue::Boolean(BooleanValue::Constant(true)), span()),
        Err(ExpressionError::InvalidIndex("true".to_string(), span()))
    );
}

#[test]
fn elements_and_slices() {
    let values = vec![u8_value(1), u8_value(2), u8_value(3)];
    assert_eq!(element_at(&values, 2, span()), Ok(u8_value(3)));
    assert_eq!(
        element_at(&values, 3, span()),
        Err(ExpressionError::IndexOutOfBounds(3, 3, span()))
    );
    assert_eq!(
        slice_of(&values, 1, 3, span()),
        Ok(ConstrainedValue::Array(vec![u8_value(2), u8_value(3)]))
    );
    assert_eq!(slice_of(&values, 3, 3, span()), Ok(ConstrainedValue::Array(vec![])));
    assert_eq!(
        slice_of(&values, 0, 4, span()),
        Err(ExpressionError::IndexOutOfBounds(4, 3, span()))
    );
    assert_eq!(
        slice_of(&values, 2, 1, span()),
        Err(ExpressionError::IndexOutOfBounds(2, 3, span()))
    );
}

#[test]
fn what_a_call_hands_back() {
    assert_eq!(
        unwrap_return(ConstrainedValue::Return(vec![u8_value(1)]), "f", span()),
        Ok(u8_value(1))
    );
    assert_eq!(
        unwrap_return(ConstrainedValue::Return(vec![]), "f", span()),
        Ok(ConstrainedValue::Return(vec![]))
    );
    assert_eq!(
        unwrap_return(ConstrainedValue::Return(vec![u8_value(1), u8_value(2)]), "f", span()),
        Ok(ConstrainedValue::Return(vec![u8_value(1), u8_value(2)]))
    );
    assert_eq!(
        unwrap_return(u8_value(1), "f", span()),
        Err(ExpressionError::FunctionNoReturn("f".to_string(), span()))
    );
}

#[test]
fn static_members_of_a_definition() {
    let f = function("f", vec![], vec![], vec![]);
    let g = function("g", vec![], vec![], vec![]);
    let circuit = Circuit {
        circuit_name: id("C"),
        members: vec![
            CircuitMember::CircuitField(id("f"), Type::Field),
            CircuitMember::CircuitFunction(false, g),
            CircuitMember::CircuitFunction(true, f.clone()),
        ],
    };
    assert_eq!(
        static_member(&circuit, &id("f"), span()),
        Ok(ConstrainedValue::Function(Some(id("C")), f))
    );
    assert_eq!(
        static_member(&circuit, &id("g"), span()),
        Err(ExpressionError::InvalidMemberAccess("g".to_string(), span()))
    );
    assert_eq!(
        static_member(&circuit, &id("h"), span()),
        Err(ExpressionError::UndefinedMemberAccess("C".to_string(), "h".to_string(), span()))
    );
}

#[test]
fn constants_of_literals() {
    let modulus = Modulus::from_decimal("7").unwrap();
    assert_eq!(
        constant_of(&Literal::Field("9".to_string(), span()), &modulus),
        Ok(ConstrainedValue::Field(FieldValue::Constant(vec![2])))
    );
    assert_eq!(
        constant_of(&Literal::I64("-9".to_string(), span()), &modulus),
        Ok(integer(IntegerKind::I64, true, 9))
    );
    assert_eq!(
        constant_of(&Literal::U64("-9".to_string(), span()), &modulus),
        Err(ExpressionError::BadLiteral("-9".to_string(), span()))
    );
    assert_eq!(single(Type::Field), vec![Type::Field]);
    assert_eq!(nothing(), Vec::<Type>::new());
    assert_eq!(
        ConstrainedProgram::enforce_number_implicit(&single(Type::Field), "10", span(), &modulus),
        Ok(ConstrainedValue::Field(FieldValue::Constant(vec![3])))
    );
    assert_eq!(
        ConstrainedProgram::enforce_number_implicit(&nothing(), "10", span(), &modulus),
        Ok(ConstrainedValue::Unresolved("10".to_string()))
    );
}

#[test]
fn evaluation_takes_nothing_away() {
    let mut program = program();
    let mut cs = ConstraintSink::new();
    let wire = cs.allocate_input("w");
    program.store("w".to_string(), wire_u8(wire));
    let outer = cs.ns("outer");
    let records = cs.constraints.len();
    let names = program.identifiers.len();
    let expression = binary(
        BinaryOperation::Eq,
        binary(BinaryOperation::Add, name("w"), implicit("1")),
        implicit("2"),
    );
    let result = enforce(&mut program, &mut cs, vec![], &expression);
    assert_eq!(result, Ok(ConstrainedValue::Boolean(BooleanValue::Allocated(2))));
    assert_eq!(cs.prefix, "outer/");
    assert_eq!(cs.constraints.len(), records + 2);
    assert_eq!(cs.constraints[0].namespace, "w");
    assert_eq!(cs.constraints[1].namespace, "outer/enforce w0u8 + 1u8 1:2");
    assert_eq!(cs.constraints[2].namespace, "outer/evaluate w1u8 == 2u8 1:2");
    for record in &cs.constraints {
        for operand in &record.operands {
            assert!(!matches!(operand, ConstrainedValue::Unresolved(_)));
        }
    }
    assert_eq!(program.identifiers.len(), names);
    cs.leave(outer);
    assert_eq!(cs.prefix, "");
}

#[test]
fn the_keyword_of_the_type_may_stand_behind_a_number() {
    assert_eq!(eval(&u8_("42u8")), Ok(u8_value(42)));
    assert_eq!(eval(&i8_("-42i8")), Ok(integer(IntegerKind::I8, true, 42)));
    assert_eq!(eval(&field("42field")).unwrap().to_string(), "42field");
    assert_eq!(
        eval(&Expression::Literal(Literal::Scalar("1scalar".to_string(), span()))),
        Ok(ConstrainedValue::Scalar(Element::Constant("1scalar".to_string())))
    );
    assert!(matches!(eval(&u8_("42u16")), Err(ExpressionError::BadLiteral(_, _))));
    assert!(matches!(eval(&u8_("u8")), Err(ExpressionError::BadLiteral(_, _))));
    assert!(matches!(eval(&u8_("42u8u8")), Err(ExpressionError::BadLiteral(_, _))));
    assert!(matches!(eval(&field("42group")), Err(ExpressionError::BadLiteral(_, _))));
    assert!(matches!(eval(&field("field")), Err(ExpressionError::BadLiteral(_, _))));
    assert_eq!(eval_as(Type::Group, &implicit("7group")).unwrap().to_string(), "7group");
}
