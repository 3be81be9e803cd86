//! The resolved syntax tree that the constraint synthesis walks.

use crate::literal::{Literal, LiteralView};
use crate::span::Span;
use crate::types::{Type, types_view, TypeView};
use std::rc::Rc;
use vstd::prelude::*;

verus! {

/// A name, and where it stood. Two identifiers are the same where their names are.
#[derive(Debug, PartialEq, Eq)]
pub struct Identifier {
    pub name: String,
    pub span: Span,
}

pub struct IdentifierView {
    pub name: Seq<char>,
    pub span: Span,
}

impl View for Identifier {
    type V = IdentifierView;

    open spec fn view(&self) -> IdentifierView {
        IdentifierView { name: self.name@, span: self.span }
    }
}

impl Identifier {
    pub fn new(name: &str, span: Span) -> (identifier: Identifier)
        ensures
            identifier@ == (IdentifierView { name: name@, span }),
    {
        Identifier { name: name.to_owned(), span }
    }

    /// A copy of the identifier.
    pub fn duplicate(&self) -> (copy: Identifier)
        ensures
            copy@ == self@,
    {
        Identifier { name: self.name.clone(), span: self.span }
    }

    /// Whether this is the name by which a circuit refers to itself.
    pub fn is_self(&self) -> (result: bool)
        ensures
            result == (self@.name == "Self"@),
    {
        let reserved = "Self".to_owned();
        self.name == reserved
    }
}

/// The operations on two operands.
#[derive(Clone, Copy, Debug, PartialEq, Eq, Structural)]
pub enum BinaryOperation {
    Add,
    Sub,
    Mul,
    Div,
    Pow,
    Or,
    And,
    Eq,
    Ge,
    Gt,
    Le,
    Lt,
}

/// An expression.
#[derive(Debug, PartialEq, Eq)]
pub enum Expression {
    Identifier(Identifier),
    /// A literal that says its own type.
    Literal(Literal),
    /// A bare number, whose type the context settles.
    Implicit(String, Span),
    Binary(BinaryOperation, Box<Expression>, Box<Expression>, Span),
    Not(Box<Expression>, Span),
    IfElse(Box<Expression>, Box<Expression>, Box<Expression>, Span),
    Array(Vec<SpreadOrExpression>, Span),
    ArrayAccess(Box<Expression>, Box<RangeOrExpression>, Span),
    Circuit(Identifier, Vec<CircuitFieldDefinition>, Span),
    CircuitMemberAccess(Box<Expression>, Identifier, Span),
    CircuitStaticFunctionAccess(Box<Expression>, Identifier, Span),
    FunctionCall(Box<Expression>, Vec<Expression>, Span),
}

/// An element of an array literal: an expression, or the elements of an array spliced in.
#[derive(Debug, PartialEq, Eq)]
pub enum SpreadOrExpression {
    Spread(Expression),
    Expression(Expression),
}

/// What stands between the brackets of an array access: one index, or a range.
#[derive(Debug, PartialEq, Eq)]
pub enum RangeOrExpression {
    Range(Option<Expression>, Option<Expression>),
    Expression(Expression),
}

/// A field given a value where a circuit is instantiated.
#[derive(Debug, PartialEq, Eq)]
pub struct CircuitFieldDefinition {
    pub identifier: Identifier,
    pub expression: Expression,
}

pub enum ExpressionView {
    Identifier(IdentifierView),
    Literal(LiteralView),
    Implicit(Seq<char>, Span),
    Binary(BinaryOperation, Box<ExpressionView>, Box<ExpressionView>, Span),
    Not(Box<ExpressionView>, Span),
    IfElse(Box<ExpressionView>, Box<ExpressionView>, Box<ExpressionView>, Span),
    Array(Seq<SpreadOrExpressionView>, Span),
    ArrayAccess(Box<ExpressionView>, Box<RangeOrExpressionView>, Span),
    Circuit(IdentifierView, Seq<CircuitFieldDefinitionView>, Span),
    CircuitMemberAccess(Box<ExpressionView>, IdentifierView, Span),
    CircuitStaticFunctionAccess(Box<ExpressionView>, IdentifierView, Span),
    FunctionCall(Box<ExpressionView>, Seq<ExpressionView>, Span),
}

pub enum SpreadOrExpressionView {
    Spread(ExpressionView),
    Expression(ExpressionView),
}

pub enum RangeOrExpressionView {
    Range(Option<ExpressionView>, Option<ExpressionView>),
    Expression(ExpressionView),
}

pub struct CircuitFieldDefinitionView {
    pub identifier: IdentifierView,
    pub expression: ExpressionView,
}

/// The views of a sequence of expressions.
pub open spec fn expressions_view(expressions: Seq<Expression>) -> Seq<ExpressionView>
    decreases expressions,
{
    Seq::new(
        expressions.len(),
        |i: int|
            if 0 <= i < expressions.len() {
                expressions[i].model()
            } else {
                arbitrary()
            },
    )
}

/// The views of the elements of an array literal.
pub open spec fn elements_view(elements: Seq<SpreadOrExpression>) -> Seq<SpreadOrExpressionView>
    decreases elements,
{
    Seq::new(
        elements.len(),
        |i: int|
            if 0 <= i < elements.len() {
                elements[i].model()
            } else {
                arbitrary()
            },
    )
}

/// The views of the fields given where a circuit is instantiated.
pub open spec fn definitions_view(definitions: Seq<CircuitFieldDefinition>) -> Seq<
    CircuitFieldDefinitionView,
>
    decreases definitions,
{
    Seq::new(
        definitions.len(),
        |i: int|
            if 0 <= i < definitions.len() {
                definitions[i].model()
            } else {
                arbitrary()
            },
    )
}

impl Expression {
    pub open spec fn model(&self) -> ExpressionView
        decreases self,
    {
        match self {
            Expression::Identifier(identifier) => ExpressionView::Identifier(identifier@),
            Expression::Literal(literal) => ExpressionView::Literal(literal@),
            Expression::Implicit(number, span) => ExpressionView::Implicit(number@, *span),
            Expression::Binary(operation, left, right, span) => ExpressionView::Binary(
                *operation,
                Box::new(left.model()),
                Box::new(right.model()),
                *span,
            ),
            Expression::Not(inner, span) => ExpressionView::Not(Box::new(inner.model()), *span),
            Expression::IfElse(first, second, third, span) => ExpressionView::IfElse(
                Box::new(first.model()),
                Box::new(second.model()),
                Box::new(third.model()),
                *span,
            ),
            Expression::Array(elements, span) => ExpressionView::Array(
                elements_view(elements@),
                *span,
            ),
            Expression::ArrayAccess(array, index, span) => ExpressionView::ArrayAccess(
                Box::new(array.model()),
                Box::new(index.model()),
                *span,
            ),
            Expression::Circuit(name, members, span) => ExpressionView::Circuit(
                name@,
                definitions_view(members@),
                *span,
            ),
            Expression::CircuitMemberAccess(circuit, member, span) => {
                ExpressionView::CircuitMemberAccess(Box::new(circuit.model()), member@, *span)
            },
            Expression::CircuitStaticFunctionAccess(circuit, member, span) => {
                ExpressionView::CircuitStaticFunctionAccess(
                    Box::new(circuit.model()),
                    member@,
                    *span,
                )
            },
            Expression::FunctionCall(function, arguments, span) => ExpressionView::FunctionCall(
                Box::new(function.model()),
                expressions_view(arguments@),
                *span,
            ),
        }
    }
}

impl SpreadOrExpression {
    pub open spec fn model(&self) -> SpreadOrExpressionView
        decreases self,
    {
        match self {
            SpreadOrExpression::Spread(expression) => SpreadOrExpressionView::Spread(
                expression.model(),
            ),
            SpreadOrExpression::Expression(expression) => SpreadOrExpressionView::Expression(
                expression.model(),
            ),
        }
    }
}

impl RangeOrExpression {
    pub open spec fn model(&self) -> RangeOrExpressionView
        decreases self,
    {
        match self {
            RangeOrExpression::Range(from, to) => RangeOrExpressionView::Range(
                match from {
                    Some(expression) => Some(expression.model()),
                    None => None,
                },
                match to {
                    Some(expression) => Some(expression.model()),
                    None => None,
                },
            ),
            RangeOrExpression::Expression(expression) => RangeOrExpressionView::Expression(
                expression.model(),
            ),
        }
    }
}

impl CircuitFieldDefinition {
    pub open spec fn model(&self) -> CircuitFieldDefinitionView
        decreases self,
    {
        CircuitFieldDefinitionView {
            identifier: self.identifier@,
            expression: self.expression.model(),
        }
    }
}

impl View for Expression {
    type V = ExpressionView;

    open spec fn view(&self) -> ExpressionView {
        self.model()
    }
}

impl View for SpreadOrExpression {
    type V = SpreadOrExpressionView;

    open spec fn view(&self) -> SpreadOrExpressionView {
        self.model()
    }
}

impl View for RangeOrExpression {
    type V = RangeOrExpressionView;

    open spec fn view(&self) -> RangeOrExpressionView {
        self.model()
    }
}

impl View for CircuitFieldDefinition {
    type V = CircuitFieldDefinitionView;

    open spec fn view(&self) -> CircuitFieldDefinitionView {
        self.model()
    }
}

/// A statement of a function body.
#[derive(Debug, PartialEq, Eq)]
pub enum Statement {
    /// Ends the function with the values of the expressions.
    Return(Vec<Expression>, Span),
    /// Gives names of the function's scope the value of the expression: one name takes
    /// the value itself, several names take the values that a call returns, one each.
    /// The declared types are as many as the names, or none.
    Definition(Vec<Identifier>, Vec<Type>, Expression, Span),
    /// Gives a name of the function's scope, which has a value, a new value.
    Assign(Identifier, Expression, Span),
    /// Runs the first statements where the condition holds and the second where it
    /// does not.
    Conditional(Expression, Vec<Statement>, Vec<Statement>, Span),
    /// Runs the statements once for every index from the first bound up to the second.
    Iteration(Identifier, Expression, Expression, Vec<Statement>, Span),
}

pub enum StatementView {
    Return(Seq<ExpressionView>, Span),
    Definition(Seq<IdentifierView>, Seq<TypeView>, ExpressionView, Span),
    Assign(IdentifierView, ExpressionView, Span),
    Conditional(ExpressionView, Seq<StatementView>, Seq<StatementView>, Span),
    Iteration(IdentifierView, ExpressionView, ExpressionView, Seq<StatementView>, Span),
}

/// The views of a sequence of identifiers.
pub open spec fn identifiers_view(identifiers: Seq<Identifier>) -> Seq<IdentifierView> {
    Seq::new(identifiers.len(), |i: int| identifiers[i]@)
}

/// The views of a sequence of statements.
pub open spec fn statements_view(statements: Seq<Statement>) -> Seq<StatementView>
    decreases statements,
{
    Seq::new(
        statements.len(),
        |i: int|
            if 0 <= i < statements.len() {
                statements[i].model()
            } else {
                arbitrary()
            },
    )
}

impl Statement {
    pub open spec fn model(&self) -> StatementView
        decreases self,
    {
        match self {
            Statement::Return(expressions, span) => StatementView::Return(
                expressions_view(expressions@),
                *span,
            ),
            Statement::Definition(names, declared, expression, span) => StatementView::Definition(
                identifiers_view(names@),
                types_view(declared@),
                expression@,
                *span,
            ),
            Statement::Assign(name, expression, span) => StatementView::Assign(
                name@,
                expression@,
                *span,
            ),
            Statement::Conditional(condition, first, second, span) => StatementView::Conditional(
                condition@,
                statements_view(first@),
                statements_view(second@),
                *span,
            ),
            Statement::Iteration(index, from, to, statements, span) => StatementView::Iteration(
                index@,
                from@,
                to@,
                statements_view(statements@),
                *span,
            ),
        }
    }
}

impl View for Statement {
    type V = StatementView;

    open spec fn view(&self) -> StatementView {
        self.model()
    }
}

/// A parameter of a function.
#[derive(Debug, PartialEq, Eq)]
pub struct FunctionInput {
    pub identifier: Identifier,
    pub type_: Type,
}

pub struct FunctionInputView {
    pub identifier: IdentifierView,
    pub type_: TypeView,
}

impl View for FunctionInput {
    type V = FunctionInputView;

    open spec fn view(&self) -> FunctionInputView {
        FunctionInputView { identifier: self.identifier@, type_: self.type_@ }
    }
}

/// A function definition.
#[derive(Debug, PartialEq, Eq)]
pub struct Function {
    pub function_name: Identifier,
    pub inputs: Vec<FunctionInput>,
    pub returns: Vec<Type>,
    pub statements: Vec<Statement>,
    pub span: Span,
}

pub struct FunctionView {
    pub function_name: IdentifierView,
    pub inputs: Seq<FunctionInputView>,
    pub returns: Seq<TypeView>,
    pub statements: Seq<StatementView>,
    pub span: Span,
}

impl View for Function {
    type V = FunctionView;

    open spec fn view(&self) -> FunctionView {
        FunctionView {
            function_name: self.function_name@,
            inputs: Seq::new(self.inputs@.len(), |i: int| self.inputs@[i]@),
            returns: types_view(self.returns@),
            statements: statements_view(self.statements@),
            span: self.span,
        }
    }
}

impl Function {
    pub fn get_name(&self) -> (name: &str)
        ensures
            name@ == self@.function_name.name,
    {
        self.function_name.name.as_str()
    }
}

/// A member of a circuit definition: a field with its type, or a function, which is
/// static where the flag is set.
#[derive(Debug, PartialEq, Eq)]
pub enum CircuitMember {
    CircuitField(Identifier, Type),
    CircuitFunction(bool, Rc<Function>),
}

pub enum CircuitMemberView {
    CircuitField(IdentifierView, TypeView),
    CircuitFunction(bool, FunctionView),
}

impl View for CircuitMember {
    type V = CircuitMemberView;

    open spec fn view(&self) -> CircuitMemberView {
        match self {
            CircuitMember::CircuitField(name, type_) => CircuitMemberView::CircuitField(
                name@,
                type_@,
            ),
            CircuitMember::CircuitFunction(is_static, function) => {
                CircuitMemberView::CircuitFunction(*is_static, (**function)@)
            },
        }
    }
}

/// A circuit definition: a record type with fields and functions.
#[derive(Debug, PartialEq, Eq)]
pub struct Circuit {
    pub circuit_name: Identifier,
    pub members: Vec<CircuitMember>,
}

pub struct CircuitView {
    pub circuit_name: IdentifierView,
    pub members: Seq<CircuitMemberView>,
}

impl View for Circuit {
    type V = CircuitView;

    open spec fn view(&self) -> CircuitView {
        CircuitView {
            circuit_name: self.circuit_name@,
            members: Seq::new(self.members@.len(), |i: int| self.members@[i]@),
        }
    }
}

} // verus!
