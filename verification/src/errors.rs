//! What can go wrong while an expression is enforced.

use crate::span::Span;
use crate::text::{decimal, decimal_text};
use crate::types::{Type, TypeView};
use vstd::prelude::*;
use vstd::string::*;

verus! {

/// An error of the expression evaluator. Every one says where in the source it arose.
#[derive(Debug, PartialEq, Eq)]
pub enum ExpressionError {
    /// No value is stored under the name in any scope.
    UndefinedIdentifier(String, Span),
    /// An array was asked for and the value shown is none.
    UndefinedArray(String, Span),
    /// A circuit was asked for and the value shown is none.
    UndefinedCircuit(String, Span),
    /// The circuit has no member of that name.
    UndefinedMemberAccess(String, String, Span),
    /// A circuit is instantiated without a value for the field.
    ExpectedCircuitMember(String, Span),
    /// The operation is not defined on the two operands shown.
    IncompatibleTypes(String, String, String, Span),
    /// What is spread is no identifier of an array.
    InvalidSpread(String, Span),
    /// An index that is no integer constant.
    InvalidIndex(String, Span),
    /// A bound that lies outside the array, with the array's length.
    IndexOutOfBounds(usize, usize, Span),
    /// An index that does not fit the machine's index type.
    IndexOverflow(String, Span),
    /// An array whose length is not the declared one: the declared, then the actual.
    InvalidLength(usize, usize, Span),
    /// An array literal where the type shown is expected.
    UnexpectedArray(Type, Span),
    /// The condition of a conditional is no boolean.
    ConditionalBoolean(String, Span),
    /// A static member reached through an instance.
    InvalidStaticAccess(String, Span),
    /// A member that is not static reached through the type.
    InvalidMemberAccess(String, Span),
    /// A call that came back without a return value.
    FunctionNoReturn(String, Span),
    /// A gadget could not be enforced: the operation, then the cause.
    CannotEnforce(String, String, Span),
    /// The text is no literal of the type that the context asks for.
    BadLiteral(String, Span),
    /// Calls nest deeper than the program allows.
    RecursionLimit(Span),
    /// The value shown is not of the expected type.
    TypeMismatch(Type, String, Span),
    /// A circuit definition was asked for and the value shown is none.
    NotACircuit(String, Span),
    /// A function was asked for and the value shown is none.
    NotAFunction(String, Span),
}

pub enum ExpressionErrorView {
    UndefinedIdentifier(Seq<char>, Span),
    UndefinedArray(Seq<char>, Span),
    UndefinedCircuit(Seq<char>, Span),
    UndefinedMemberAccess(Seq<char>, Seq<char>, Span),
    ExpectedCircuitMember(Seq<char>, Span),
    IncompatibleTypes(Seq<char>, Seq<char>, Seq<char>, Span),
    InvalidSpread(Seq<char>, Span),
    InvalidIndex(Seq<char>, Span),
    IndexOutOfBounds(usize, usize, Span),
    IndexOverflow(Seq<char>, Span),
    InvalidLength(usize, usize, Span),
    UnexpectedArray(TypeView, Span),
    ConditionalBoolean(Seq<char>, Span),
    InvalidStaticAccess(Seq<char>, Span),
    InvalidMemberAccess(Seq<char>, Span),
    FunctionNoReturn(Seq<char>, Span),
    CannotEnforce(Seq<char>, Seq<char>, Span),
    BadLiteral(Seq<char>, Span),
    RecursionLimit(Span),
    TypeMismatch(TypeView, Seq<char>, Span),
    NotACircuit(Seq<char>, Span),
    NotAFunction(Seq<char>, Span),
}

impl View for ExpressionError {
    type V = ExpressionErrorView;

    open spec fn view(&self) -> ExpressionErrorView {
        match self {
            ExpressionError::UndefinedIdentifier(a, s) => ExpressionErrorView::UndefinedIdentifier(
                a@,
                *s,
            ),
            ExpressionError::UndefinedArray(a, s) => ExpressionErrorView::UndefinedArray(a@, *s),
            ExpressionError::UndefinedCircuit(a, s) => ExpressionErrorView::UndefinedCircuit(
                a@,
                *s,
            ),
            ExpressionError::UndefinedMemberAccess(a, b, s) => {
                ExpressionErrorView::UndefinedMemberAccess(a@, b@, *s)
            },
            ExpressionError::ExpectedCircuitMember(a, s) => {
                ExpressionErrorView::ExpectedCircuitMember(a@, *s)
            },
            ExpressionError::IncompatibleTypes(a, b, c, s) => {
                ExpressionErrorView::IncompatibleTypes(a@, b@, c@, *s)
            },
            ExpressionError::InvalidSpread(a, s) => ExpressionErrorView::InvalidSpread(a@, *s),
            ExpressionError::InvalidIndex(a, s) => ExpressionErrorView::InvalidIndex(a@, *s),
            ExpressionError::IndexOutOfBounds(a, b, s) => ExpressionErrorView::IndexOutOfBounds(
                *a,
                *b,
                *s,
            ),
            ExpressionError::IndexOverflow(a, s) => ExpressionErrorView::IndexOverflow(a@, *s),
            ExpressionError::InvalidLength(a, b, s) => ExpressionErrorView::InvalidLength(
                *a,
                *b,
                *s,
            ),
            ExpressionError::UnexpectedArray(a, s) => ExpressionErrorView::UnexpectedArray(a@, *s),
            ExpressionError::ConditionalBoolean(a, s) => ExpressionErrorView::ConditionalBoolean(
                a@,
                *s,
            ),
            ExpressionError::InvalidStaticAccess(a, s) => ExpressionErrorView::InvalidStaticAccess(
                a@,
                *s,
            ),
            ExpressionError::InvalidMemberAccess(a, s) => ExpressionErrorView::InvalidMemberAccess(
                a@,
                *s,
            ),
            ExpressionError::FunctionNoReturn(a, s) => ExpressionErrorView::FunctionNoReturn(
                a@,
                *s,
            ),
            ExpressionError::CannotEnforce(a, b, s) => ExpressionErrorView::CannotEnforce(
                a@,
                b@,
                *s,
            ),
            ExpressionError::BadLiteral(a, s) => ExpressionErrorView::BadLiteral(a@, *s),
            ExpressionError::RecursionLimit(s) => ExpressionErrorView::RecursionLimit(*s),
            ExpressionError::TypeMismatch(a, b, s) => ExpressionErrorView::TypeMismatch(
                a@,
                b@,
                *s,
            ),
            ExpressionError::NotACircuit(a, s) => ExpressionErrorView::NotACircuit(a@, *s),
            ExpressionError::NotAFunction(a, s) => ExpressionErrorView::NotAFunction(a@, *s),
        }
    }
}

impl ExpressionErrorView {
    /// Where in the source the error arose.
    pub open spec fn span(self) -> Span {
        match self {
            ExpressionErrorView::UndefinedIdentifier(_, s) => s,
            ExpressionErrorView::UndefinedArray(_, s) => s,
            ExpressionErrorView::UndefinedCircuit(_, s) => s,
            ExpressionErrorView::UndefinedMemberAccess(_, _, s) => s,
            ExpressionErrorView::ExpectedCircuitMember(_, s) => s,
            ExpressionErrorView::IncompatibleTypes(_, _, _, s) => s,
            ExpressionErrorView::InvalidSpread(_, s) => s,
            ExpressionErrorView::InvalidIndex(_, s) => s,
            ExpressionErrorView::IndexOutOfBounds(_, _, s) => s,
            ExpressionErrorView::IndexOverflow(_, s) => s,
            ExpressionErrorView::InvalidLength(_, _, s) => s,
            ExpressionErrorView::UnexpectedArray(_, s) => s,
            ExpressionErrorView::ConditionalBoolean(_, s) => s,
            ExpressionErrorView::InvalidStaticAccess(_, s) => s,
            ExpressionErrorView::InvalidMemberAccess(_, s) => s,
            ExpressionErrorView::FunctionNoReturn(_, s) => s,
            ExpressionErrorView::CannotEnforce(_, _, s) => s,
            ExpressionErrorView::BadLiteral(_, s) => s,
            ExpressionErrorView::RecursionLimit(s) => s,
            ExpressionErrorView::TypeMismatch(_, _, s) => s,
            ExpressionErrorView::NotACircuit(_, s) => s,
            ExpressionErrorView::NotAFunction(_, s) => s,
        }
    }
}

impl ExpressionError {
    /// Where in the source the error arose.
    pub fn span(&self) -> (span: Span)
        ensures
            span == self@.span(),
    {
        match self {
            ExpressionError::UndefinedIdentifier(_, s) => *s,
            ExpressionError::UndefinedArray(_, s) => *s,
            ExpressionError::UndefinedCircuit(_, s) => *s,
            ExpressionError::UndefinedMemberAccess(_, _, s) => *s,
            ExpressionError::ExpectedCircuitMember(_, s) => *s,
            ExpressionError::IncompatibleTypes(_, _, _, s) => *s,
            ExpressionError::InvalidSpread(_, s) => *s,
            ExpressionError::InvalidIndex(_, s) => *s,
            ExpressionError::IndexOutOfBounds(_, _, s) => *s,
            ExpressionError::IndexOverflow(_, s) => *s,
            ExpressionError::InvalidLength(_, _, s) => *s,
            ExpressionError::UnexpectedArray(_, s) => *s,
            ExpressionError::ConditionalBoolean(_, s) => *s,
            ExpressionError::InvalidStaticAccess(_, s) => *s,
            ExpressionError::InvalidMemberAccess(_, s) => *s,
            ExpressionError::FunctionNoReturn(_, s) => *s,
            ExpressionError::CannotEnforce(_, _, s) => *s,
            ExpressionError::BadLiteral(_, s) => *s,
            ExpressionError::RecursionLimit(s) => *s,
            ExpressionError::TypeMismatch(_, _, s) => *s,
            ExpressionError::NotACircuit(_, s) => *s,
            ExpressionError::NotAFunction(_, s) => *s,
        }
    }
}

/// How a diagnostic shows a place in the source: the line, then the columns.
pub open spec fn place(span: Span) -> Seq<char> {
    decimal(span.line as nat) + ":"@ + decimal(span.start as nat) + "-"@ + decimal(
        span.end as nat,
    )
}

/// Writes a place in the source.
pub fn place_text(span: Span) -> (text: String)
    ensures
        text@ == place(span),
{
    let mut text = decimal_text(span.line as u128);
    text.append(":");
    text.append(decimal_text(span.start as u128).as_str());
    text.append("-");
    text.append(decimal_text(span.end as u128).as_str());
    text
}

/// A sentence with one thing named in it.
pub open spec fn sentence(before: Seq<char>, named: Seq<char>, after: Seq<char>) -> Seq<char> {
    before + "`"@ + named + "`"@ + after
}

/// Writes a sentence with one thing named in it.
pub fn sentence_text(before: &str, named: &str, after: &str) -> (text: String)
    ensures
        text@ == sentence(before@, named@, after@),
{
    let mut text = String::from_str(before);
    text.append("`");
    text.append(named);
    text.append("`");
    text.append(after);
    text
}

impl ExpressionErrorView {
    /// What the error says, without the place.
    pub open spec fn message(self) -> Seq<char> {
        match self {
            ExpressionErrorView::UndefinedIdentifier(a, _) => sentence(
                "cannot find value "@,
                a,
                " in this scope"@,
            ),
            ExpressionErrorView::UndefinedArray(a, _) => sentence(
                "array "@,
                a,
                " must be declared before it is used in an expression"@,
            ),
            ExpressionErrorView::UndefinedCircuit(a, _) => sentence(
                "circuit "@,
                a,
                " must be declared before it is used in an expression"@,
            ),
            ExpressionErrorView::UndefinedMemberAccess(a, b, _) => sentence("circuit "@, a, " has no member "@)
                + sentence(""@, b, ""@),
            ExpressionErrorView::ExpectedCircuitMember(a, _) => sentence(
                "expected circuit member "@,
                a,
                ", not found"@,
            ),
            ExpressionErrorView::IncompatibleTypes(a, b, c, _) => sentence(
                "no implementation for "@,
                b + " "@ + a + " "@ + c,
                ""@,
            ),
            ExpressionErrorView::InvalidSpread(a, _) => sentence(
                "spread should contain an array, found "@,
                a,
                ""@,
            ),
            ExpressionErrorView::InvalidIndex(a, _) => sentence(
                "index must resolve to an integer constant, found "@,
                a,
                ""@,
            ),
            ExpressionErrorView::IndexOutOfBounds(a, b, _) => sentence(
                "index "@,
                decimal(a as nat),
                " is out of the bounds of an array of length "@,
            ) + decimal(b as nat),
            ExpressionErrorView::IndexOverflow(a, _) => sentence(
                "index "@,
                a,
                " does not fit the index type of the machine"@,
            ),
            ExpressionErrorView::InvalidLength(a, b, _) => sentence(
                "expected length "@,
                decimal(a as nat),
                ", found length "@,
            ) + decimal(b as nat),
            ExpressionErrorView::UnexpectedArray(a, _) => sentence(
                "expected type "@,
                a.text(),
                ", found array"@,
            ),
            ExpressionErrorView::ConditionalBoolean(a, _) => sentence(
                "a condition must resolve to a boolean, found "@,
                a,
                ""@,
            ),
            ExpressionErrorView::InvalidStaticAccess(a, _) => sentence(
                "static member "@,
                a,
                " must be accessed using `::` syntax"@,
            ),
            ExpressionErrorView::InvalidMemberAccess(a, _) => sentence(
                "non-static member "@,
                a,
                " must be accessed using `.` syntax"@,
            ),
            ExpressionErrorView::FunctionNoReturn(a, _) => sentence(
                "inline function call to "@,
                a,
                " did not return"@,
            ),
            ExpressionErrorView::CannotEnforce(a, b, _) => sentence(
                "the gadget operation "@,
                a,
                " cannot be enforced in "@,
            ) + sentence(""@, b, ""@),
            ExpressionErrorView::BadLiteral(a, _) => sentence(
                ""@,
                a,
                " is no literal of the expected type"@,
            ),
            ExpressionErrorView::RecursionLimit(_) => "calls nest too deep"@,
            ExpressionErrorView::TypeMismatch(a, b, _) => sentence(
                "expected type "@,
                a.text(),
                ", found "@,
            ) + sentence(""@, b, ""@),
            ExpressionErrorView::NotACircuit(a, _) => sentence(
                "expected circuit definition, found "@,
                a,
                ""@,
            ),
            ExpressionErrorView::NotAFunction(a, _) => sentence(
                "expected function, found "@,
                a,
                ""@,
            ),
        }
    }

    /// The diagnostic: the place, a colon, and what the error says.
    pub open spec fn text(self) -> Seq<char> {
        place(self.span()) + ": "@ + self.message()
    }
}

impl ExpressionError {
    /// What the error says, without the place.
    pub fn message(&self) -> (text: String)
        ensures
            text@ == self@.message(),
    {
        match self {
            ExpressionError::UndefinedIdentifier(a, _) => sentence_text(
                "cannot find value ",
                a.as_str(),
                " in this scope",
            ),
            ExpressionError::UndefinedArray(a, _) => sentence_text(
                "array ",
                a.as_str(),
                " must be declared before it is used in an expression",
            ),
            ExpressionError::UndefinedCircuit(a, _) => sentence_text(
                "circuit ",
                a.as_str(),
                " must be declared before it is used in an expression",
            ),
            ExpressionError::UndefinedMemberAccess(a, b, _) => {
                let mut text = sentence_text("circuit ", a.as_str(), " has no member ");
                text.append(sentence_text("", b.as_str(), "").as_str());
                text
            },
            ExpressionError::ExpectedCircuitMember(a, _) => sentence_text(
                "expected circuit member ",
                a.as_str(),
                ", not found",
            ),
            ExpressionError::IncompatibleTypes(a, b, c, _) => {
                let mut operation = b.clone();
                operation.append(" ");
                operation.append(a.as_str());
                operation.append(" ");
                operation.append(c.as_str());
                sentence_text("no implementation for ", operation.as_str(), "")
            },
            ExpressionError::InvalidSpread(a, _) => sentence_text(
                "spread should contain an array, found ",
                a.as_str(),
                "",
            ),
            ExpressionError::InvalidIndex(a, _) => sentence_text(
                "index must resolve to an integer constant, found ",
                a.as_str(),
                "",
            ),
            ExpressionError::IndexOutOfBounds(a, b, _) => {
                let mut text = sentence_text(
                    "index ",
                    decimal_text(*a as u128).as_str(),
                    " is out of the bounds of an array of length ",
                );
                text.append(decimal_text(*b as u128).as_str());
                text
            },
            ExpressionError::IndexOverflow(a, _) => sentence_text(
                "index ",
                a.as_str(),
                " does not fit the index type of the machine",
            ),
            ExpressionError::InvalidLength(a, b, _) => {
                let mut text = sentence_text(
                    "expected length ",
                    decimal_text(*a as u128).as_str(),
                    ", found length ",
                );
                text.append(decimal_text(*b as u128).as_str());
                text
            },
            ExpressionError::UnexpectedArray(a, _) => sentence_text(
                "expected type ",
                a.to_string().as_str(),
                ", found array",
            ),
            ExpressionError::ConditionalBoolean(a, _) => sentence_text(
                "a condition must resolve to a boolean, found ",
                a.as_str(),
                "",
            ),
            ExpressionError::InvalidStaticAccess(a, _) => sentence_text(
                "static member ",
                a.as_str(),
                " must be accessed using `::` syntax",
            ),
            ExpressionError::InvalidMemberAccess(a, _) => sentence_text(
                "non-static member ",
                a.as_str(),
                " must be accessed using `.` syntax",
            ),
            ExpressionError::FunctionNoReturn(a, _) => sentence_text(
                "inline function call to ",
                a.as_str(),
                " did not return",
            ),
            ExpressionError::CannotEnforce(a, b, _) => {
                let mut text = sentence_text(
                    "the gadget operation ",
                    a.as_str(),
                    " cannot be enforced in ",
                );
                text.append(sentence_text("", b.as_str(), "").as_str());
                text
            },
            ExpressionError::BadLiteral(a, _) => sentence_text(
                "",
                a.as_str(),
                " is no literal of the expected type",
            ),
            ExpressionError::RecursionLimit(_) => String::from_str("calls nest too deep"),
            ExpressionError::TypeMismatch(a, b, _) => {
                let mut text = sentence_text("expected type ", a.to_string().as_str(), ", found ");
                text.append(sentence_text("", b.as_str(), "").as_str());
                text
            },
            ExpressionError::NotACircuit(a, _) => sentence_text(
                "expected circuit definition, found ",
                a.as_str(),
                "",
            ),
            ExpressionError::NotAFunction(a, _) => sentence_text(
                "expected function, found ",
                a.as_str(),
                "",
            ),
        }
    }

    /// The diagnostic: the place, a colon, and what the error says.
    pub fn to_string(&self) -> (text: String)
        ensures
            text@ == self@.text(),
    {
        let mut text = place_text(self.span());
        text.append(": ");
        text.append(self.message().as_str());
        text
    }
}

} // verus!
