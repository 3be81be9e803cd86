//! What the evaluator computes, as mathematics: the value that each operation and each
//! expression has, and the records that it leaves in the sink.

use crate::ast::BinaryOperation;
use crate::constraints::resolve::from_other;
use crate::constraints::sink::{ConstraintSinkView, ConstraintView, Gadget};
use crate::constraints::value::{BooleanValue, ConstrainedValueView, ElementView, FieldView};
use crate::errors::ExpressionErrorView;
use crate::field::{field_difference, field_product, field_quotient, field_sum};
use crate::integer::{IntegerView, truncated_quotient, within};
use crate::span::Span;
use crate::text::decimal;
use crate::types::IntegerKind;
use vstd::arithmetic::power::pow;
use vstd::prelude::*;

verus! {

/// What enforcing something on values gives: a value or an error, and the sink after it.
pub struct Enforced {
    pub result: Result<ConstrainedValueView, ExpressionErrorView>,
    pub sink: ConstraintSinkView,
}

/// How an operation is written.
pub open spec fn symbol(operation: BinaryOperation) -> Seq<char> {
    match operation {
        BinaryOperation::Add => "+"@,
        BinaryOperation::Sub => "-"@,
        BinaryOperation::Mul => "*"@,
        BinaryOperation::Div => "/"@,
        BinaryOperation::Pow => "**"@,
        BinaryOperation::Or => "||"@,
        BinaryOperation::And => "&&"@,
        BinaryOperation::Eq => "=="@,
        BinaryOperation::Ge => ">="@,
        BinaryOperation::Gt => ">"@,
        BinaryOperation::Le => "<="@,
        BinaryOperation::Lt => "<"@,
    }
}

/// The gadget that enforces an operation on wires.
pub open spec fn gadget_of(operation: BinaryOperation) -> Gadget {
    match operation {
        BinaryOperation::Add => Gadget::Add,
        BinaryOperation::Sub => Gadget::Sub,
        BinaryOperation::Mul => Gadget::Mul,
        BinaryOperation::Div => Gadget::Div,
        BinaryOperation::Pow => Gadget::Pow,
        BinaryOperation::Or => Gadget::Or,
        BinaryOperation::And => Gadget::And,
        _ => Gadget::Eq,
    }
}

/// A place in the source as a namespace shows it: the line, a colon, the column.
pub open spec fn position(span: Span) -> Seq<char> {
    decimal(span.line as nat) + ":"@ + decimal(span.start as nat)
}

/// The name under which an operation on two operands is recorded.
pub open spec fn operation_name(
    verb: Seq<char>,
    left: Seq<char>,
    symbol: Seq<char>,
    right: Seq<char>,
    span: Span,
) -> Seq<char> {
    verb + " "@ + left + " "@ + symbol + " "@ + right + " "@ + position(span)
}

/// The name under which an operation on one operand is recorded.
pub open spec fn unary_name(verb: Seq<char>, symbol: Seq<char>, operand: Seq<char>, span: Span) -> Seq<
    char,
> {
    verb + " "@ + symbol + operand + " "@ + position(span)
}

/// Two operands of which an untyped number has taken the kind of its peer.
pub open spec fn promote(
    left: ConstrainedValueView,
    right: ConstrainedValueView,
    span: Span,
    modulus: nat,
) -> Result<(ConstrainedValueView, ConstrainedValueView), ExpressionErrorView> {
    match (left, right) {
        (ConstrainedValueView::Unresolved(text), _) => match from_other(
            text,
            right,
            span,
            modulus,
        ) {
            Ok(first) => Ok((first, right)),
            Err(error) => Err(error),
        },
        (_, ConstrainedValueView::Unresolved(text)) => match from_other(
            text,
            left,
            span,
            modulus,
        ) {
            Ok(second) => Ok((left, second)),
            Err(error) => Err(error),
        },
        _ => Ok((left, right)),
    }
}

/// The result of an arithmetic operation on two integer constants of a kind, where the
/// kind holds it.
pub open spec fn integer_operation(
    operation: BinaryOperation,
    kind: IntegerKind,
    a: int,
    b: int,
) -> Option<int> {
    match operation {
        BinaryOperation::Add => within(kind, a + b),
        BinaryOperation::Sub => within(kind, a - b),
        BinaryOperation::Mul => within(kind, a * b),
        BinaryOperation::Div => match truncated_quotient(a, b) {
            Some(quotient) => within(kind, quotient),
            None => None,
        },
        BinaryOperation::Pow => if b >= 0 {
            within(kind, pow(a, b as nat))
        } else {
            None
        },
        _ => None,
    }
}

/// The result of an arithmetic operation on two field constants, where it has one.
pub open spec fn field_operation(operation: BinaryOperation, a: nat, b: nat, modulus: nat) -> Option<
    nat,
> {
    match operation {
        BinaryOperation::Add => Some(field_sum(a, b, modulus)),
        BinaryOperation::Sub => Some(field_difference(a, b, modulus)),
        BinaryOperation::Mul => Some(field_product(a, b, modulus)),
        BinaryOperation::Div => field_quotient(a, b, modulus),
        _ => None,
    }
}

/// Whether an operation is one of the five of arithmetic.
pub open spec fn is_arithmetic(operation: BinaryOperation) -> bool {
    operation == BinaryOperation::Add || operation == BinaryOperation::Sub || operation
        == BinaryOperation::Mul || operation == BinaryOperation::Div || operation
        == BinaryOperation::Pow
}

/// Whether an operation is one of the four comparisons of order.
pub open spec fn is_order(operation: BinaryOperation) -> bool {
    operation == BinaryOperation::Ge || operation == BinaryOperation::Gt || operation
        == BinaryOperation::Le || operation == BinaryOperation::Lt
}

/// What a comparison of order says of two numbers.
pub open spec fn ordered(operation: BinaryOperation, a: int, b: int) -> bool {
    match operation {
        BinaryOperation::Ge => a >= b,
        BinaryOperation::Gt => a > b,
        BinaryOperation::Le => a <= b,
        _ => a < b,
    }
}

/// The sink after a gadget on two operands was recorded, and the wire it made.
pub open spec fn recorded(
    sink: ConstraintSinkView,
    name: Seq<char>,
    gadget: Gadget,
    operands: Seq<ConstrainedValueView>,
) -> (ConstraintSinkView, usize) {
    (sink.enforce(name, gadget, operands), sink.constraints.len() as usize)
}

/// An arithmetic operation on two values. An untyped operand first takes the kind of
/// its peer. Two integers of one kind, two field elements (but for the power) and two
/// group elements (for sum and difference) are taken. Constants of integers and of the
/// field are folded, and a result that does not exist cannot be enforced; anything on a
/// wire, and anything on group elements, is left to a gadget, whose wire is the result.
pub open spec fn arithmetic(
    operation: BinaryOperation,
    left: ConstrainedValueView,
    right: ConstrainedValueView,
    span: Span,
    modulus: nat,
    sink: ConstraintSinkView,
) -> Enforced {
    match promote(left, right, span, modulus) {
        Err(error) => Enforced { result: Err(error), sink },
        Ok((first, second)) => {
            let name = operation_name(
                "enforce"@,
                first.text(),
                symbol(operation),
                second.text(),
                span,
            );
            let made = recorded(sink, name, gadget_of(operation), seq![first, second]);
            let incompatible = Enforced {
                result: Err(
                    ExpressionErrorView::IncompatibleTypes(
                        symbol(operation),
                        first.text(),
                        second.text(),
                        span,
                    ),
                ),
                sink,
            };
            let impossible = Enforced {
                result: Err(ExpressionErrorView::CannotEnforce(symbol(operation), name, span)),
                sink,
            };
            match (first, second) {
                (ConstrainedValueView::Integer(a), ConstrainedValueView::Integer(b)) => {
                    if a.kind() != b.kind() {
                        incompatible
                    } else {
                        match (a, b) {
                            (IntegerView::Constant(kind, x), IntegerView::Constant(_, y)) => {
                                match integer_operation(operation, kind, x, y) {
                                    Some(value) => Enforced {
                                        result: Ok(
                                            ConstrainedValueView::Integer(
                                                IntegerView::Constant(kind, value),
                                            ),
                                        ),
                                        sink,
                                    },
                                    None => impossible,
                                }
                            },
                            _ => Enforced {
                                result: Ok(
                                    ConstrainedValueView::Integer(
                                        IntegerView::Allocated(a.kind(), made.1),
                                    ),
                                ),
                                sink: made.0,
                            },
                        }
                    }
                },
                (ConstrainedValueView::Field(a), ConstrainedValueView::Field(b)) => {
                    if operation == BinaryOperation::Pow {
                        incompatible
                    } else {
                        match (a, b) {
                            (FieldView::Constant(x), FieldView::Constant(y)) => {
                                match field_operation(operation, x, y, modulus) {
                                    Some(value) => Enforced {
                                        result: Ok(
                                            ConstrainedValueView::Field(FieldView::Constant(value)),
                                        ),
                                        sink,
                                    },
                                    None => impossible,
                                }
                            },
                            _ => Enforced {
                                result: Ok(
                                    ConstrainedValueView::Field(FieldView::Allocated(made.1)),
                                ),
                                sink: made.0,
                            },
                        }
                    }
                },
                (ConstrainedValueView::Group(_), ConstrainedValueView::Group(_)) => {
                    if operation == BinaryOperation::Add || operation == BinaryOperation::Sub {
                        Enforced {
                            result: Ok(ConstrainedValueView::Group(ElementView::Allocated(made.1))),
                            sink: made.0,
                        }
                    } else {
                        incompatible
                    }
                },
                _ => incompatible,
            }
        },
    }
}

/// Negation. A boolean constant is negated, a boolean wire is left to a gadget, and
/// nothing else can be negated.
pub open spec fn negation(value: ConstrainedValueView, span: Span, sink: ConstraintSinkView) -> Enforced {
    match value {
        ConstrainedValueView::Boolean(BooleanValue::Constant(boolean)) => Enforced {
            result: Ok(ConstrainedValueView::Boolean(BooleanValue::Constant(!boolean))),
            sink,
        },
        ConstrainedValueView::Boolean(BooleanValue::Allocated(_)) => {
            let made = recorded(
                sink,
                unary_name("enforce"@, "!"@, value.text(), span),
                Gadget::Not,
                seq![value],
            );
            Enforced {
                result: Ok(ConstrainedValueView::Boolean(BooleanValue::Allocated(made.1))),
                sink: made.0,
            }
        },
        _ => Enforced {
            result: Err(
                ExpressionErrorView::IncompatibleTypes("!"@, value.text(), Seq::empty(), span),
            ),
            sink,
        },
    }
}

/// Conjunction and disjunction. Two boolean constants are folded; with a wire among
/// the two booleans a gadget is recorded; nothing else is taken.
pub open spec fn logical(
    operation: BinaryOperation,
    left: ConstrainedValueView,
    right: ConstrainedValueView,
    span: Span,
    sink: ConstraintSinkView,
) -> Enforced {
    match (left, right) {
        (
            ConstrainedValueView::Boolean(BooleanValue::Constant(a)),
            ConstrainedValueView::Boolean(BooleanValue::Constant(b)),
        ) => Enforced {
            result: Ok(
                ConstrainedValueView::Boolean(
                    BooleanValue::Constant(
                        if operation == BinaryOperation::Or {
                            a || b
                        } else {
                            a && b
                        },
                    ),
                ),
            ),
            sink,
        },
        (ConstrainedValueView::Boolean(_), ConstrainedValueView::Boolean(_)) => {
            let made = recorded(
                sink,
                operation_name("enforce"@, left.text(), symbol(operation), right.text(), span),
                gadget_of(operation),
                seq![left, right],
            );
            Enforced {
                result: Ok(ConstrainedValueView::Boolean(BooleanValue::Allocated(made.1))),
                sink: made.0,
            }
        },
        _ => Enforced {
            result: Err(
                ExpressionErrorView::IncompatibleTypes(
                    symbol(operation),
                    left.text(),
                    right.text(),
                    span,
                ),
            ),
            sink,
        },
    }
}

/// Equality. An untyped operand first takes the kind of its peer. Two booleans, two
/// integers of one kind, two field elements and two group elements are compared:
/// constants of the first three by their values, anything on a wire and any two group
/// elements by a gadget, whose wire is the result.
pub open spec fn equality(
    left: ConstrainedValueView,
    right: ConstrainedValueView,
    span: Span,
    modulus: nat,
    sink: ConstraintSinkView,
) -> Enforced {
    match promote(left, right, span, modulus) {
        Err(error) => Enforced { result: Err(error), sink },
        Ok((first, second)) => {
            let made = recorded(
                sink,
                operation_name("evaluate"@, first.text(), "=="@, second.text(), span),
                Gadget::Eq,
                seq![first, second],
            );
            let wired = Enforced {
                result: Ok(ConstrainedValueView::Boolean(BooleanValue::Allocated(made.1))),
                sink: made.0,
            };
            let incompatible = Enforced {
                result: Err(
                    ExpressionErrorView::IncompatibleTypes(
                        "=="@,
                        first.text(),
                        second.text(),
                        span,
                    ),
                ),
                sink,
            };
            match (first, second) {
                (
                    ConstrainedValueView::Boolean(BooleanValue::Constant(a)),
                    ConstrainedValueView::Boolean(BooleanValue::Constant(b)),
                ) => Enforced {
                    result: Ok(ConstrainedValueView::Boolean(BooleanValue::Constant(a == b))),
                    sink,
                },
                (ConstrainedValueView::Boolean(_), ConstrainedValueView::Boolean(_)) => wired,
                (ConstrainedValueView::Integer(a), ConstrainedValueView::Integer(b)) => {
                    if a.kind() != b.kind() {
                        incompatible
                    } else {
                        match (a, b) {
                            (IntegerView::Constant(_, x), IntegerView::Constant(_, y)) => Enforced {
                                result: Ok(
                                    ConstrainedValueView::Boolean(BooleanValue::Constant(x == y)),
                                ),
                                sink,
                            },
                            _ => wired,
                        }
                    }
                },
                (
                    ConstrainedValueView::Field(FieldView::Constant(x)),
                    ConstrainedValueView::Field(FieldView::Constant(y)),
                ) => Enforced {
                    result: Ok(
                        ConstrainedValueView::Boolean(
                            BooleanValue::Constant(x % modulus == y % modulus),
                        ),
                    ),
                    sink,
                },
                (ConstrainedValueView::Field(_), ConstrainedValueView::Field(_)) => wired,
                (ConstrainedValueView::Group(_), ConstrainedValueView::Group(_)) => wired,
                _ => incompatible,
            }
        },
    }
}

/// A comparison of order. An untyped operand first takes the kind of its peer. Two
/// integer constants of one kind are compared by their values, two field constants by
/// their residues. On a wire no comparison of order can be enforced. Nothing else is
/// taken.
pub open spec fn relational(
    operation: BinaryOperation,
    left: ConstrainedValueView,
    right: ConstrainedValueView,
    span: Span,
    modulus: nat,
) -> Result<ConstrainedValueView, ExpressionErrorView> {
    match promote(left, right, span, modulus) {
        Err(error) => Err(error),
        Ok((first, second)) => {
            let incompatible = Err(
                ExpressionErrorView::IncompatibleTypes(
                    symbol(operation),
                    first.text(),
                    second.text(),
                    span,
                ),
            );
            let impossible = Err(
                ExpressionErrorView::CannotEnforce(
                    symbol(operation),
                    operation_name(
                        "evaluate"@,
                        first.text(),
                        symbol(operation),
                        second.text(),
                        span,
                    ),
                    span,
                ),
            );
            match (first, second) {
                (ConstrainedValueView::Integer(a), ConstrainedValueView::Integer(b)) => {
                    if a.kind() != b.kind() {
                        incompatible
                    } else {
                        match (a, b) {
                            (IntegerView::Constant(_, x), IntegerView::Constant(_, y)) => Ok(
                                ConstrainedValueView::Boolean(
                                    BooleanValue::Constant(ordered(operation, x, y)),
                                ),
                            ),
                            _ => impossible,
                        }
                    }
                },
                (
                    ConstrainedValueView::Field(FieldView::Constant(x)),
                    ConstrainedValueView::Field(FieldView::Constant(y)),
                ) => Ok(
                    ConstrainedValueView::Boolean(
                        BooleanValue::Constant(
                            ordered(operation, (x % modulus) as int, (y % modulus) as int),
                        ),
                    ),
                ),
                (ConstrainedValueView::Field(_), ConstrainedValueView::Field(_)) => impossible,
                _ => incompatible,
            }
        },
    }
}

/// Whether a selection can choose between two values: two booleans, two integers of
/// one kind, two field elements or two group elements.
pub open spec fn selectable(second: ConstrainedValueView, third: ConstrainedValueView) -> bool {
    match (second, third) {
        (ConstrainedValueView::Boolean(_), ConstrainedValueView::Boolean(_)) => true,
        (ConstrainedValueView::Integer(a), ConstrainedValueView::Integer(b)) => a.kind()
            == b.kind(),
        (ConstrainedValueView::Field(_), ConstrainedValueView::Field(_)) => true,
        (ConstrainedValueView::Group(_), ConstrainedValueView::Group(_)) => true,
        _ => false,
    }
}

/// A wire that carries what `value` carries.
pub open spec fn wire_like(value: ConstrainedValueView, wire: usize) -> ConstrainedValueView {
    match value {
        ConstrainedValueView::Integer(integer) => ConstrainedValueView::Integer(
            IntegerView::Allocated(integer.kind(), wire),
        ),
        ConstrainedValueView::Field(_) => ConstrainedValueView::Field(FieldView::Allocated(wire)),
        ConstrainedValueView::Group(_) => ConstrainedValueView::Group(
            ElementView::Allocated(wire),
        ),
        _ => ConstrainedValueView::Boolean(BooleanValue::Allocated(wire)),
    }
}

/// The name under which a selection is recorded.
pub open spec fn selection_name(second: Seq<char>, third: Seq<char>, span: Span) -> Seq<char> {
    "select "@ + second + " or "@ + third + " "@ + position(span)
}

/// The selection between two values by a condition. Values between which no selection
/// can choose are incompatible. A constant condition chooses by itself; a condition on
/// a wire leaves the choice to a gadget, whose wire is the result.
pub open spec fn selection(
    condition: BooleanValue,
    second: ConstrainedValueView,
    third: ConstrainedValueView,
    span: Span,
    sink: ConstraintSinkView,
) -> Enforced {
    if !selectable(second, third) {
        Enforced {
            result: Err(
                ExpressionErrorView::IncompatibleTypes("?"@, second.text(), third.text(), span),
            ),
            sink,
        }
    } else {
        match condition {
            BooleanValue::Constant(true) => Enforced { result: Ok(second), sink },
            BooleanValue::Constant(false) => Enforced { result: Ok(third), sink },
            BooleanValue::Allocated(_) => {
                let made = recorded(
                    sink,
                    selection_name(second.text(), third.text(), span),
                    Gadget::Select,
                    seq![ConstrainedValueView::Boolean(condition), second, third],
                );
                Enforced { result: Ok(wire_like(second, made.1)), sink: made.0 }
            },
        }
    }
}

/// Whether two values are of one kind for arithmetic: two integers of one kind, two
/// field elements or two group elements.
pub open spec fn same_kind(left: ConstrainedValueView, right: ConstrainedValueView) -> bool {
    match (left, right) {
        (ConstrainedValueView::Integer(a), ConstrainedValueView::Integer(b)) => a.kind()
            == b.kind(),
        (ConstrainedValueView::Field(_), ConstrainedValueView::Field(_)) => true,
        (ConstrainedValueView::Group(_), ConstrainedValueView::Group(_)) => true,
        _ => false,
    }
}

/// Addition commutes: on two values of one kind, the sum in either order succeeds or
/// fails alike, and where it succeeds the two sums are the same value. The records
/// that the two orders leave in the sink may differ.
pub proof fn lemma_add_commutes(
    left: ConstrainedValueView,
    right: ConstrainedValueView,
    span: Span,
    modulus: nat,
    sink: ConstraintSinkView,
)
    requires
        same_kind(left, right),
    ensures
        arithmetic(BinaryOperation::Add, left, right, span, modulus, sink).result is Ok
            <==> arithmetic(BinaryOperation::Add, right, left, span, modulus, sink).result is Ok,
        arithmetic(BinaryOperation::Add, left, right, span, modulus, sink).result is Ok
            ==> arithmetic(BinaryOperation::Add, left, right, span, modulus, sink).result
            == arithmetic(BinaryOperation::Add, right, left, span, modulus, sink).result,
{
}

/// No operation on values takes a record out of the sink or changes one, and none
/// records more than one gadget.
pub proof fn lemma_operations_extend_sink(
    operation: BinaryOperation,
    condition: BooleanValue,
    first: ConstrainedValueView,
    second: ConstrainedValueView,
    span: Span,
    modulus: nat,
    sink: ConstraintSinkView,
)
    ensures
        sink.extended_by(arithmetic(operation, first, second, span, modulus, sink).sink),
        sink.extended_by(equality(first, second, span, modulus, sink).sink),
        sink.extended_by(logical(operation, first, second, span, sink).sink),
        sink.extended_by(negation(first, span, sink).sink),
        sink.extended_by(selection(condition, first, second, span, sink).sink),
        arithmetic(operation, first, second, span, modulus, sink).sink.constraints.len()
            <= sink.constraints.len() + 1,
        equality(first, second, span, modulus, sink).sink.constraints.len()
            <= sink.constraints.len() + 1,
        logical(operation, first, second, span, sink).sink.constraints.len()
            <= sink.constraints.len() + 1,
        negation(first, span, sink).sink.constraints.len() <= sink.constraints.len() + 1,
        selection(condition, first, second, span, sink).sink.constraints.len()
            <= sink.constraints.len() + 1,
{
    assert(sink.constraints.subrange(0, sink.constraints.len() as int) =~= sink.constraints);
    assert forall|name: Seq<char>, gadget: Gadget, operands: Seq<ConstrainedValueView>|
        sink.extended_by(#[trigger] sink.enforce(name, gadget, operands)) by {
        assert(sink.enforce(name, gadget, operands).constraints.subrange(
            0,
            sink.constraints.len() as int,
        ) =~= sink.constraints);
    }
}

/// Whether every operand of a record has a type: none is an untyped number.
pub open spec fn typed(record: ConstraintView) -> bool {
    forall|k: int|
        0 <= k < record.operands.len() ==> !(#[trigger] record.operands[k] is Unresolved)
}

/// No untyped number reaches a gadget: in the record that an operation on values leaves
/// in the sink, if it leaves one, each operand has a type.
pub proof fn lemma_no_unresolved_operand(
    operation: BinaryOperation,
    condition: BooleanValue,
    left: ConstrainedValueView,
    right: ConstrainedValueView,
    span: Span,
    modulus: nat,
    sink: ConstraintSinkView,
)
    ensures
        ({
            let after = arithmetic(operation, left, right, span, modulus, sink).sink;
            after.constraints.len() > sink.constraints.len() ==> typed(after.constraints.last())
        }),
        ({
            let after = equality(left, right, span, modulus, sink).sink;
            after.constraints.len() > sink.constraints.len() ==> typed(after.constraints.last())
        }),
        ({
            let after = logical(operation, left, right, span, sink).sink;
            after.constraints.len() > sink.constraints.len() ==> typed(after.constraints.last())
        }),
        ({
            let after = negation(left, span, sink).sink;
            after.constraints.len() > sink.constraints.len() ==> typed(after.constraints.last())
        }),
        ({
            let after = selection(condition, left, right, span, sink).sink;
            after.constraints.len() > sink.constraints.len() ==> typed(after.constraints.last())
        }),
{
}

} // verus!
