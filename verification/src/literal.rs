//! Literals as the parser hands them over: the text as written, and where it stood.

use crate::span::Span;
use crate::types::IntegerKind;
use vstd::prelude::*;
use vstd::string::*;

verus! {

/// One coordinate of a group literal written as a pair.
#[derive(Debug, PartialEq, Eq)]
pub enum GroupCoordinate {
    Number(String, Span),
    SignHigh,
    SignLow,
    Inferred,
}

pub enum GroupCoordinateView {
    Number(Seq<char>, Span),
    SignHigh,
    SignLow,
    Inferred,
}

impl View for GroupCoordinate {
    type V = GroupCoordinateView;

    open spec fn view(&self) -> GroupCoordinateView {
        match self {
            GroupCoordinate::Number(number, span) => GroupCoordinateView::Number(number@, *span),
            GroupCoordinate::SignHigh => GroupCoordinateView::SignHigh,
            GroupCoordinate::SignLow => GroupCoordinateView::SignLow,
            GroupCoordinate::Inferred => GroupCoordinateView::Inferred,
        }
    }
}

impl GroupCoordinateView {
    /// The coordinate as written: the number, or the mark that stands for it.
    pub open spec fn text(self) -> Seq<char> {
        match self {
            GroupCoordinateView::Number(number, _) => number,
            GroupCoordinateView::SignHigh => "+"@,
            GroupCoordinateView::SignLow => "-"@,
            GroupCoordinateView::Inferred => "_"@,
        }
    }
}

impl GroupCoordinate {
    pub fn fmt(&self) -> (text: String)
        ensures
            text@ == self@.text(),
    {
        match self {
            GroupCoordinate::Number(number, _) => number.clone(),
            GroupCoordinate::SignHigh => String::from_str("+"),
            GroupCoordinate::SignLow => String::from_str("-"),
            GroupCoordinate::Inferred => String::from_str("_"),
        }
    }
}

/// A group literal written as a pair of coordinates.
#[derive(Debug, PartialEq, Eq)]
pub struct GroupTuple {
    pub x: GroupCoordinate,
    pub y: GroupCoordinate,
    pub span: Span,
}

pub struct GroupTupleView {
    pub x: GroupCoordinateView,
    pub y: GroupCoordinateView,
    pub span: Span,
}

impl View for GroupTuple {
    type V = GroupTupleView;

    open spec fn view(&self) -> GroupTupleView {
        GroupTupleView { x: self.x@, y: self.y@, span: self.span }
    }
}

impl GroupTupleView {
    /// The pair as written: both coordinates in brackets, then the keyword.
    pub open spec fn text(self) -> Seq<char> {
        "("@ + self.x.text() + ", "@ + self.y.text() + ")group"@
    }
}

impl GroupTuple {
    pub fn fmt(&self) -> (text: String)
        ensures
            text@ == self@.text(),
    {
        let mut text = String::from_str("(");
        text.append(self.x.fmt().as_str());
        text.append(", ");
        text.append(self.y.fmt().as_str());
        text.append(")group");
        text
    }
}

/// A group literal: a single number, or a pair of coordinates.
#[derive(Debug, PartialEq, Eq)]
pub enum GroupLiteral {
    Single(String, Span),
    Tuple(GroupTuple),
}

pub enum GroupLiteralView {
    Single(Seq<char>, Span),
    Tuple(GroupTupleView),
}

impl View for GroupLiteral {
    type V = GroupLiteralView;

    open spec fn view(&self) -> GroupLiteralView {
        match self {
            GroupLiteral::Single(number, span) => GroupLiteralView::Single(number@, *span),
            GroupLiteral::Tuple(tuple) => GroupLiteralView::Tuple(tuple@),
        }
    }
}

impl GroupLiteralView {
    pub open spec fn text(self) -> Seq<char> {
        match self {
            GroupLiteralView::Single(number, _) => number,
            GroupLiteralView::Tuple(tuple) => tuple.text(),
        }
    }

    pub open spec fn span(self) -> Span {
        match self {
            GroupLiteralView::Single(_, span) => span,
            GroupLiteralView::Tuple(tuple) => tuple.span,
        }
    }

    /// The same literal at another place.
    pub open spec fn with_span(self, span: Span) -> GroupLiteralView {
        match self {
            GroupLiteralView::Single(number, _) => GroupLiteralView::Single(number, span),
            GroupLiteralView::Tuple(tuple) => GroupLiteralView::Tuple(
                GroupTupleView { span, ..tuple },
            ),
        }
    }
}

impl GroupLiteral {
    pub fn fmt(&self) -> (text: String)
        ensures
            text@ == self@.text(),
    {
        match self {
            GroupLiteral::Single(number, _) => number.clone(),
            GroupLiteral::Tuple(tuple) => tuple.fmt(),
        }
    }

    pub fn span(&self) -> (span: Span)
        ensures
            span == self@.span(),
    {
        match self {
            GroupLiteral::Single(_, span) => *span,
            GroupLiteral::Tuple(tuple) => tuple.span,
        }
    }

    pub fn set_span(&mut self, new_span: Span)
        ensures
            final(self)@ == old(self)@.with_span(new_span),
    {
        match self {
            GroupLiteral::Single(_, span) => {
                *span = new_span;
            },
            GroupLiteral::Tuple(tuple) => {
                tuple.span = new_span;
            },
        }
    }
}

/// A literal.
#[derive(Debug, PartialEq, Eq)]
pub enum Literal {
    /// An address literal.
    Address(String, Span),
    /// A boolean literal, either `true` or `false`.
    Boolean(bool, Span),
    /// A field literal: a signed number.
    Field(String, Span),
    /// A group literal, either a single number or a pair of coordinates.
    Group(Box<GroupLiteral>),
    /// An 8-bit signed integer literal.
    I8(String, Span),
    /// A 16-bit signed integer literal.
    I16(String, Span),
    /// A 32-bit signed integer literal.
    I32(String, Span),
    /// A 64-bit signed integer literal.
    I64(String, Span),
    /// A 128-bit signed integer literal.
    I128(String, Span),
    /// A scalar literal: an unsigned number.
    Scalar(String, Span),
    /// A string literal.
    String(String, Span),
    /// An 8-bit unsigned integer literal.
    U8(String, Span),
    /// A 16-bit unsigned integer literal.
    U16(String, Span),
    /// A 32-bit unsigned integer literal.
    U32(String, Span),
    /// A 64-bit unsigned integer literal.
    U64(String, Span),
    /// A 128-bit unsigned integer literal.
    U128(String, Span),
}

/// What a `Literal` stands for; the ten integer forms differ in their kind only.
pub enum LiteralView {
    Address(Seq<char>, Span),
    Boolean(bool, Span),
    Field(Seq<char>, Span),
    Group(GroupLiteralView),
    Integer(IntegerKind, Seq<char>, Span),
    Scalar(Seq<char>, Span),
    String(Seq<char>, Span),
}

impl View for Literal {
    type V = LiteralView;

    open spec fn view(&self) -> LiteralView {
        match self {
            Literal::Address(address, span) => LiteralView::Address(address@, *span),
            Literal::Boolean(boolean, span) => LiteralView::Boolean(*boolean, *span),
            Literal::Field(field, span) => LiteralView::Field(field@, *span),
            Literal::Group(group) => LiteralView::Group(group@),
            Literal::I8(integer, span) => LiteralView::Integer(IntegerKind::I8, integer@, *span),
            Literal::I16(integer, span) => LiteralView::Integer(IntegerKind::I16, integer@, *span),
            Literal::I32(integer, span) => LiteralView::Integer(IntegerKind::I32, integer@, *span),
            Literal::I64(integer, span) => LiteralView::Integer(IntegerKind::I64, integer@, *span),
            Literal::I128(integer, span) => LiteralView::Integer(
                IntegerKind::I128,
                integer@,
                *span,
            ),
            Literal::Scalar(scalar, span) => LiteralView::Scalar(scalar@, *span),
            Literal::String(string, span) => LiteralView::String(string@, *span),
            Literal::U8(integer, span) => LiteralView::Integer(IntegerKind::U8, integer@, *span),
            Literal::U16(integer, span) => LiteralView::Integer(IntegerKind::U16, integer@, *span),
            Literal::U32(integer, span) => LiteralView::Integer(IntegerKind::U32, integer@, *span),
            Literal::U64(integer, span) => LiteralView::Integer(IntegerKind::U64, integer@, *span),
            Literal::U128(integer, span) => LiteralView::Integer(
                IntegerKind::U128,
                integer@,
                *span,
            ),
        }
    }
}

impl LiteralView {
    /// The literal as written.
    pub open spec fn text(self) -> Seq<char> {
        match self {
            LiteralView::Address(address, _) => address,
            LiteralView::Boolean(boolean, _) => if boolean {
                "true"@
            } else {
                "false"@
            },
            LiteralView::Field(field, _) => field,
            LiteralView::Group(group) => group.text(),
            LiteralView::Integer(_, integer, _) => integer,
            LiteralView::Scalar(scalar, _) => scalar,
            LiteralView::String(string, _) => string,
        }
    }

    /// Where the literal stood.
    pub open spec fn span(self) -> Span {
        match self {
            LiteralView::Address(_, span) => span,
            LiteralView::Boolean(_, span) => span,
            LiteralView::Field(_, span) => span,
            LiteralView::Group(group) => group.span(),
            LiteralView::Integer(_, _, span) => span,
            LiteralView::Scalar(_, span) => span,
            LiteralView::String(_, span) => span,
        }
    }

    /// The same literal at another place.
    pub open spec fn with_span(self, span: Span) -> LiteralView {
        match self {
            LiteralView::Address(address, _) => LiteralView::Address(address, span),
            LiteralView::Boolean(boolean, _) => LiteralView::Boolean(boolean, span),
            LiteralView::Field(field, _) => LiteralView::Field(field, span),
            LiteralView::Group(group) => LiteralView::Group(group.with_span(span)),
            LiteralView::Integer(kind, integer, _) => LiteralView::Integer(kind, integer, span),
            LiteralView::Scalar(scalar, _) => LiteralView::Scalar(scalar, span),
            LiteralView::String(string, _) => LiteralView::String(string, span),
        }
    }
}

impl Literal {
    /// The literal as written.
    pub fn fmt(&self) -> (text: String)
        ensures
            text@ == self@.text(),
    {
        match self {
            Literal::Address(address, _) => address.clone(),
            Literal::Boolean(boolean, _) => if *boolean {
                String::from_str("true")
            } else {
                String::from_str("false")
            },
            Literal::Field(field, _) => field.clone(),
            Literal::Group(group) => group.fmt(),
            Literal::I8(integer, _) => integer.clone(),
            Literal::I16(integer, _) => integer.clone(),
            Literal::I32(integer, _) => integer.clone(),
            Literal::I64(integer, _) => integer.clone(),
            Literal::I128(integer, _) => integer.clone(),
            Literal::Scalar(scalar, _) => scalar.clone(),
            Literal::String(string, _) => string.clone(),
            Literal::U8(integer, _) => integer.clone(),
            Literal::U16(integer, _) => integer.clone(),
            Literal::U32(integer, _) => integer.clone(),
            Literal::U64(integer, _) => integer.clone(),
            Literal::U128(integer, _) => integer.clone(),
        }
    }

    /// Where the literal stood.
    pub fn span(&self) -> (span: Span)
        ensures
            span == self@.span(),
    {
        match self {
            Literal::Address(_, span)
            | Literal::Boolean(_, span)
            | Literal::Field(_, span)
            | Literal::I8(_, span)
            | Literal::I16(_, span)
            | Literal::I32(_, span)
            | Literal::I64(_, span)
            | Literal::I128(_, span)
            | Literal::Scalar(_, span)
            | Literal::String(_, span)
            | Literal::U8(_, span)
            | Literal::U16(_, span)
            | Literal::U32(_, span)
            | Literal::U64(_, span)
            | Literal::U128(_, span) => *span,
            Literal::Group(group) => group.span(),
        }
    }

    /// Moves the literal to another place; what it says stays.
    pub fn set_span(&mut self, new_span: Span)
        ensures
            final(self)@ == old(self)@.with_span(new_span),
    {
        match self {
            Literal::Address(_, span) => {
                *span = new_span;
            },
            Literal::Boolean(_, span) => {
                *span = new_span;
            },
            Literal::Field(_, span) => {
                *span = new_span;
            },
            Literal::I8(_, span) => {
                *span = new_span;
            },
            Literal::I16(_, span) => {
                *span = new_span;
            },
            Literal::I32(_, span) => {
                *span = new_span;
            },
            Literal::I64(_, span) => {
                *span = new_span;
            },
            Literal::I128(_, span) => {
                *span = new_span;
            },
            Literal::Scalar(_, span) => {
                *span = new_span;
            },
            Literal::String(_, span) => {
                *span = new_span;
            },
            Literal::U8(_, span) => {
                *span = new_span;
            },
            Literal::U16(_, span) => {
                *span = new_span;
            },
            Literal::U32(_, span) => {
                *span = new_span;
            },
            Literal::U64(_, span) => {
                *span = new_span;
            },
            Literal::U128(_, span) => {
                *span = new_span;
            },
            Literal::Group(group) => {
                group.set_span(new_span);
            },
        }
    }
}

/// Moving a literal changes its place and nothing that it says.
pub proof fn lemma_with_span(literal: LiteralView, span: Span)
    ensures
        literal.with_span(span).span() == span,
        literal.with_span(span).text() == literal.text(),
        literal.with_span(literal.span()) == literal,
{
}

} // verus!
