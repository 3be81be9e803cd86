//! Operations on values: constants are folded, and what touches a wire is recorded in
//! the sink as a gadget.

use crate::ast::BinaryOperation;
use crate::bignum::bytes_value;
use crate::constraints::program::ConstrainedProgram;
use crate::constraints::resolve::outcome;
use crate::constraints::semantics::{
    arithmetic, Enforced, equality, field_operation, gadget_of, integer_operation, logical,
    negation, operation_name, ordered, position, promote, relational, selectable, selection,
    symbol, wire_like,
};
use crate::constraints::sink::{ConstraintSink, Gadget};
use crate::constraints::value::{
    BooleanValue, ConstrainedValue, ConstrainedValueView, Element, FieldValue, values_view,
};
use crate::errors::{ExpressionError, ExpressionErrorView};
use crate::field::{field_add, field_div, field_equal, field_less, field_mul, field_sub, Modulus};
use crate::integer::{Integer, Signed};
use crate::span::Span;
use crate::text::decimal_text;
use crate::types::IntegerKind;
use vstd::prelude::*;
use vstd::string::*;

verus! {

/// How an operation is written.
pub fn symbol_of(operation: BinaryOperation) -> (text: &'static str)
    ensures
        text@ == symbol(operation),
{
    match operation {
        BinaryOperation::Add => "+",
        BinaryOperation::Sub => "-",
        BinaryOperation::Mul => "*",
        BinaryOperation::Div => "/",
        BinaryOperation::Pow => "**",
        BinaryOperation::Or => "||",
        BinaryOperation::And => "&&",
        BinaryOperation::Eq => "==",
        BinaryOperation::Ge => ">=",
        BinaryOperation::Gt => ">",
        BinaryOperation::Le => "<=",
        BinaryOperation::Lt => "<",
    }
}

/// The gadget that enforces an operation on wires.
pub fn gadget_for(operation: BinaryOperation) -> (gadget: Gadget)
    ensures
        gadget == gadget_of(operation),
{
    match operation {
        BinaryOperation::Add => Gadget::Add,
        BinaryOperation::Sub => Gadget::Sub,
        BinaryOperation::Mul => Gadget::Mul,
        BinaryOperation::Div => Gadget::Div,
        BinaryOperation::Pow => Gadget::Pow,
        BinaryOperation::Or => Gadget::Or,
        BinaryOperation::And => Gadget::And,
        _ => Gadget::Eq,
    }
}

/// Writes a place in the source as a namespace shows it.
pub fn position_text(span: Span) -> (text: String)
    ensures
        text@ == position(span),
{
    let mut text = decimal_text(span.line as u128);
    text.append(":");
    text.append(decimal_text(span.start as u128).as_str());
    text
}

/// Writes the name under which an operation on two operands is recorded.
pub fn operation_name_text(verb: &str, left: &str, symbol: &str, right: &str, span: Span) -> (text:
    String)
    ensures
        text@ == operation_name(verb@, left@, symbol@, right@, span),
{
    let mut text = String::from_str(verb);
    text.append(" ");
    text.append(left);
    text.append(" ");
    text.append(symbol);
    text.append(" ");
    text.append(right);
    text.append(" ");
    text.append(position_text(span).as_str());
    text
}

/// A list of two values.
pub fn pair(first: ConstrainedValue, second: ConstrainedValue) -> (operands: Vec<
    ConstrainedValue,
>)
    ensures
        values_view(operands@) == seq![first@, second@],
{
    let mut operands: Vec<ConstrainedValue> = Vec::new();
    operands.push(first);
    operands.push(second);
    assert(values_view(operands@) =~= seq![first@, second@]);
    operands
}

/// Lets an untyped operand take the kind of its peer.
pub fn promote_operands(
    left: &ConstrainedValue,
    right: &ConstrainedValue,
    span: Span,
    modulus: &Modulus,
) -> (result: Result<(ConstrainedValue, ConstrainedValue), ExpressionError>)
    ensures
        match result {
            Ok((first, second)) => Ok::<
                (ConstrainedValueView, ConstrainedValueView),
                ExpressionErrorView,
            >((first@, second@)),
            Err(error) => Err(error@),
        } == promote(left@, right@, span, modulus@),
{
    match (left, right) {
        (ConstrainedValue::Unresolved(text), _) => {
            match ConstrainedValue::from_other(text.as_str(), right, span, modulus) {
                Ok(first) => Ok((first, right.duplicate())),
                Err(error) => Err(error),
            }
        },
        (_, ConstrainedValue::Unresolved(text)) => {
            match ConstrainedValue::from_other(text.as_str(), left, span, modulus) {
                Ok(second) => Ok((left.duplicate(), second)),
                Err(error) => Err(error),
            }
        },
        _ => Ok((left.duplicate(), right.duplicate())),
    }
}

/// Folds an arithmetic operation on two integer constants of a kind.
pub fn fold_integers(operation: BinaryOperation, kind: IntegerKind, a: Signed, b: Signed) -> (result:
    Option<Signed>)
    ensures
        result is Some <==> integer_operation(operation, kind, a@, b@) is Some,
        result matches Some(n) ==> Some(n@) == integer_operation(operation, kind, a@, b@),
{
    match operation {
        BinaryOperation::Add => a.checked_add(b, kind),
        BinaryOperation::Sub => a.checked_sub(b, kind),
        BinaryOperation::Mul => a.checked_mul(b, kind),
        BinaryOperation::Div => a.checked_div(b, kind),
        BinaryOperation::Pow => a.checked_pow(b, kind),
        _ => None,
    }
}

/// Folds an arithmetic operation on two field constants.
pub fn fold_fields(operation: BinaryOperation, a: &Vec<u8>, b: &Vec<u8>, modulus: &Modulus) -> (result:
    Option<Vec<u8>>)
    ensures
        result is Some <==> field_operation(
            operation,
            bytes_value(a@),
            bytes_value(b@),
            modulus@,
        ) is Some,
        result matches Some(n) ==> Some(bytes_value(n@)) == field_operation(
            operation,
            bytes_value(a@),
            bytes_value(b@),
            modulus@,
        ),
{
    match operation {
        BinaryOperation::Add => Some(field_add(a, b, modulus)),
        BinaryOperation::Sub => Some(field_sub(a, b, modulus)),
        BinaryOperation::Mul => Some(field_mul(a, b, modulus)),
        BinaryOperation::Div => field_div(a, b, modulus),
        _ => None,
    }
}

/// What a comparison of order says of two integer constants.
pub fn order_integers(operation: BinaryOperation, a: Signed, b: Signed) -> (result: bool)
    ensures
        result == ordered(operation, a@, b@),
{
    match operation {
        BinaryOperation::Ge => !a.less(b),
        BinaryOperation::Gt => b.less(a),
        BinaryOperation::Le => !b.less(a),
        _ => a.less(b),
    }
}

/// What a comparison of order says of the residues of two field constants.
pub fn order_fields(operation: BinaryOperation, a: &Vec<u8>, b: &Vec<u8>, modulus: &Modulus) -> (result:
    bool)
    ensures
        result == ordered(
            operation,
            (bytes_value(a@) % modulus@) as int,
            (bytes_value(b@) % modulus@) as int,
        ),
{
    match operation {
        BinaryOperation::Ge => !field_less(a, b, modulus),
        BinaryOperation::Gt => field_less(b, a, modulus),
        BinaryOperation::Le => !field_less(b, a, modulus),
        _ => field_less(a, b, modulus),
    }
}

/// A wire that carries what `value` carries.
pub fn wire_of(value: &ConstrainedValue, wire: usize) -> (result: ConstrainedValue)
    ensures
        result@ == wire_like(value@, wire),
{
    match value {
        ConstrainedValue::Integer(integer) => ConstrainedValue::Integer(
            Integer::Allocated(integer.kind(), wire),
        ),
        ConstrainedValue::Field(_) => ConstrainedValue::Field(FieldValue::Allocated(wire)),
        ConstrainedValue::Group(_) => ConstrainedValue::Group(Element::Allocated(wire)),
        _ => ConstrainedValue::Boolean(BooleanValue::Allocated(wire)),
    }
}

impl ConstrainedProgram {
    /// Enforces an arithmetic operation on two values.
    #[verifier::rlimit(40)]
    pub fn enforce_arithmetic(
        &self,
        cs: &mut ConstraintSink,
        operation: BinaryOperation,
        left: &ConstrainedValue,
        right: &ConstrainedValue,
        span: Span,
    ) -> (result: Result<ConstrainedValue, ExpressionError>)
        ensures
            (Enforced { result: outcome(result), sink: final(cs)@ }) == arithmetic(
                operation,
                left@,
                right@,
                span,
                self@.modulus,
                old(cs)@,
            ),
    {
        let (first, second) = match promote_operands(left, right, span, &self.modulus) {
            Ok(operands) => operands,
            Err(error) => {
                return Err(error);
            },
        };
        let shown_first = first.to_string();
        let shown_second = second.to_string();
        let name = operation_name_text(
            "enforce",
            shown_first.as_str(),
            symbol_of(operation),
            shown_second.as_str(),
            span,
        );
        match (&first, &second) {
            (ConstrainedValue::Integer(a), ConstrainedValue::Integer(b)) => {
                if a.kind() != b.kind() {
                    Err(
                        ExpressionError::IncompatibleTypes(
                            String::from_str(symbol_of(operation)),
                            shown_first,
                            shown_second,
                            span,
                        ),
                    )
                } else {
                    match (a, b) {
                        (Integer::Constant(kind, x), Integer::Constant(_, y)) => {
                            match fold_integers(operation, *kind, *x, *y) {
                                Some(value) => Ok(
                                    ConstrainedValue::Integer(Integer::Constant(*kind, value)),
                                ),
                                None => Err(
                                    ExpressionError::CannotEnforce(
                                        String::from_str(symbol_of(operation)),
                                        name,
                                        span,
                                    ),
                                ),
                            }
                        },
                        _ => {
                            let kind = a.kind();
                            let wire = cs.enforce(
                                name.as_str(),
                                gadget_for(operation),
                                pair(first, second),
                            );
                            Ok(ConstrainedValue::Integer(Integer::Allocated(kind, wire)))
                        },
                    }
                }
            },
            (ConstrainedValue::Field(a), ConstrainedValue::Field(b)) => {
                if operation == BinaryOperation::Pow {
                    Err(
                        ExpressionError::IncompatibleTypes(
                            String::from_str(symbol_of(operation)),
                            shown_first,
                            shown_second,
                            span,
                        ),
                    )
                } else {
                    match (a, b) {
                        (FieldValue::Constant(x), FieldValue::Constant(y)) => {
                            match fold_fields(operation, x, y, &self.modulus) {
                                Some(value) => Ok(
                                    ConstrainedValue::Field(FieldValue::Constant(value)),
                                ),
                                None => Err(
                                    ExpressionError::CannotEnforce(
                                        String::from_str(symbol_of(operation)),
                                        name,
                                        span,
                                    ),
                                ),
                            }
                        },
                        _ => {
                            let wire = cs.enforce(
                                name.as_str(),
                                gadget_for(operation),
                                pair(first, second),
                            );
                            Ok(ConstrainedValue::Field(FieldValue::Allocated(wire)))
                        },
                    }
                }
            },
            (ConstrainedValue::Group(_), ConstrainedValue::Group(_)) => {
                if operation == BinaryOperation::Add || operation == BinaryOperation::Sub {
                    let wire = cs.enforce(
                        name.as_str(),
                        gadget_for(operation),
                        pair(first, second),
                    );
                    Ok(ConstrainedValue::Group(Element::Allocated(wire)))
                } else {
                    Err(
                        ExpressionError::IncompatibleTypes(
                            String::from_str(symbol_of(operation)),
                            shown_first,
                            shown_second,
                            span,
                        ),
                    )
                }
            },
            _ => Err(
                ExpressionError::IncompatibleTypes(
                    String::from_str(symbol_of(operation)),
                    shown_first,
                    shown_second,
                    span,
                ),
            ),
        }
    }

    /// Enforces the sum of two values.
    pub fn enforce_add_expression(
        &self,
        cs: &mut ConstraintSink,
        left: &ConstrainedValue,
        right: &ConstrainedValue,
        span: Span,
    ) -> (result: Result<ConstrainedValue, ExpressionError>)
        ensures
            (Enforced { result: outcome(result), sink: final(cs)@ }) == arithmetic(
                BinaryOperation::Add,
                left@,
                right@,
                span,
                self@.modulus,
                old(cs)@,
            ),
    {
        self.enforce_arithmetic(cs, BinaryOperation::Add, left, right, span)
    }

    /// Enforces the difference of two values.
    pub fn enforce_sub_expression(
        &self,
        cs: &mut ConstraintSink,
        left: &ConstrainedValue,
        right: &ConstrainedValue,
        span: Span,
    ) -> (result: Result<ConstrainedValue, ExpressionError>)
        ensures
            (Enforced { result: outcome(result), sink: final(cs)@ }) == arithmetic(
                BinaryOperation::Sub,
                left@,
                right@,
                span,
                self@.modulus,
                old(cs)@,
            ),
    {
        self.enforce_arithmetic(cs, BinaryOperation::Sub, left, right, span)
    }

    /// Enforces the product of two values.
    pub fn enforce_mul_expression(
        &self,
        cs: &mut ConstraintSink,
        left: &ConstrainedValue,
        right: &ConstrainedValue,
        span: Span,
    ) -> (result: Result<ConstrainedValue, ExpressionError>)
        ensures
            (Enforced { result: outcome(result), sink: final(cs)@ }) == arithmetic(
                BinaryOperation::Mul,
                left@,
                right@,
                span,
                self@.modulus,
                old(cs)@,
            ),
    {
        self.enforce_arithmetic(cs, BinaryOperation::Mul, left, right, span)
    }

    /// Enforces the quotient of two values.
    pub fn enforce_div_expression(
        &self,
        cs: &mut ConstraintSink,
        left: &ConstrainedValue,
        right: &ConstrainedValue,
        span: Span,
    ) -> (result: Result<ConstrainedValue, ExpressionError>)
        ensures
            (Enforced { result: outcome(result), sink: final(cs)@ }) == arithmetic(
                BinaryOperation::Div,
                left@,
                right@,
                span,
                self@.modulus,
                old(cs)@,
            ),
    {
        self.enforce_arithmetic(cs, BinaryOperation::Div, left, right, span)
    }

    /// Enforces the power of one value by another.
    pub fn enforce_pow_expression(
        &self,
        cs: &mut ConstraintSink,
        left: &ConstrainedValue,
        right: &ConstrainedValue,
        span: Span,
    ) -> (result: Result<ConstrainedValue, ExpressionError>)
        ensures
            (Enforced { result: outcome(result), sink: final(cs)@ }) == arithmetic(
                BinaryOperation::Pow,
                left@,
                right@,
                span,
                self@.modulus,
                old(cs)@,
            ),
    {
        self.enforce_arithmetic(cs, BinaryOperation::Pow, left, right, span)
    }

    /// Evaluates whether two values are equal.
    #[verifier::rlimit(40)]
    pub fn evaluate_eq_expression(
        &self,
        cs: &mut ConstraintSink,
        left: &ConstrainedValue,
        right: &ConstrainedValue,
        span: Span,
    ) -> (result: Result<ConstrainedValue, ExpressionError>)
        ensures
            (Enforced { result: outcome(result), sink: final(cs)@ }) == equality(
                left@,
                right@,
                span,
                self@.modulus,
                old(cs)@,
            ),
    {
        let (first, second) = match promote_operands(left, right, span, &self.modulus) {
            Ok(operands) => operands,
            Err(error) => {
                return Err(error);
            },
        };
        let shown_first = first.to_string();
        let shown_second = second.to_string();
        let folded: Option<bool> = match (&first, &second) {
            (
                ConstrainedValue::Boolean(BooleanValue::Constant(a)),
                ConstrainedValue::Boolean(BooleanValue::Constant(b)),
            ) => Some(*a == *b),
            (ConstrainedValue::Boolean(_), ConstrainedValue::Boolean(_)) => None,
            (ConstrainedValue::Integer(a), ConstrainedValue::Integer(b)) => {
                if a.kind() != b.kind() {
                    return Err(
                        ExpressionError::IncompatibleTypes(
                            String::from_str("=="),
                            shown_first,
                            shown_second,
                            span,
                        ),
                    );
                }
                match (a, b) {
                    (Integer::Constant(_, x), Integer::Constant(_, y)) => Some(x.equal(*y)),
                    _ => None,
                }
            },
            (
                ConstrainedValue::Field(FieldValue::Constant(x)),
                ConstrainedValue::Field(FieldValue::Constant(y)),
            ) => Some(field_equal(x, y, &self.modulus)),
            (ConstrainedValue::Field(_), ConstrainedValue::Field(_)) => None,
            (ConstrainedValue::Group(_), ConstrainedValue::Group(_)) => None,
            _ => {
                return Err(
                    ExpressionError::IncompatibleTypes(
                        String::from_str("=="),
                        shown_first,
                        shown_second,
                        span,
                    ),
                );
            },
        };
        match folded {
            Some(equal) => Ok(ConstrainedValue::Boolean(BooleanValue::Constant(equal))),
            None => {
                let name = operation_name_text(
                    "evaluate",
                    shown_first.as_str(),
                    "==",
                    shown_second.as_str(),
                    span,
                );
                let wire = cs.enforce(name.as_str(), Gadget::Eq, pair(first, second));
                Ok(ConstrainedValue::Boolean(BooleanValue::Allocated(wire)))
            },
        }
    }

    /// Evaluates a comparison of order between two values.
    #[verifier::rlimit(40)]
    pub fn evaluate_order(
        &self,
        operation: BinaryOperation,
        left: &ConstrainedValue,
        right: &ConstrainedValue,
        span: Span,
    ) -> (result: Result<ConstrainedValue, ExpressionError>)
        ensures
            outcome(result) == relational(operation, left@, right@, span, self@.modulus),
    {
        let (first, second) = match promote_operands(left, right, span, &self.modulus) {
            Ok(operands) => operands,
            Err(error) => {
                return Err(error);
            },
        };
        let shown_first = first.to_string();
        let shown_second = second.to_string();
        let folded: Option<bool> = match (&first, &second) {
            (ConstrainedValue::Integer(a), ConstrainedValue::Integer(b)) => {
                if a.kind() != b.kind() {
                    return Err(
                        ExpressionError::IncompatibleTypes(
                            String::from_str(symbol_of(operation)),
                            shown_first,
                            shown_second,
                            span,
                        ),
                    );
                }
                match (a, b) {
                    (Integer::Constant(_, x), Integer::Constant(_, y)) => Some(
                        order_integers(operation, *x, *y),
                    ),
                    _ => None,
                }
            },
            (
                ConstrainedValue::Field(FieldValue::Constant(x)),
                ConstrainedValue::Field(FieldValue::Constant(y)),
            ) => Some(order_fields(operation, x, y, &self.modulus)),
            (ConstrainedValue::Field(_), ConstrainedValue::Field(_)) => None,
            _ => {
                return Err(
                    ExpressionError::IncompatibleTypes(
                        String::from_str(symbol_of(operation)),
                        shown_first,
                        shown_second,
                        span,
                    ),
                );
            },
        };
        match folded {
            Some(holds) => Ok(ConstrainedValue::Boolean(BooleanValue::Constant(holds))),
            None => {
                let name = operation_name_text(
                    "evaluate",
                    shown_first.as_str(),
                    symbol_of(operation),
                    shown_second.as_str(),
                    span,
                );
                Err(
                    ExpressionError::CannotEnforce(
                        String::from_str(symbol_of(operation)),
                        name,
                        span,
                    ),
                )
            },
        }
    }

    /// Evaluates whether the first value is at least the second.
    pub fn evaluate_ge_expression(
        &self,
        left: &ConstrainedValue,
        right: &ConstrainedValue,
        span: Span,
    ) -> (result: Result<ConstrainedValue, ExpressionError>)
        ensures
            outcome(result) == relational(
                BinaryOperation::Ge,
                left@,
                right@,
                span,
                self@.modulus,
            ),
    {
        self.evaluate_order(BinaryOperation::Ge, left, right, span)
    }

    /// Evaluates whether the first value is above the second.
    pub fn evaluate_gt_expression(
        &self,
        left: &ConstrainedValue,
        right: &ConstrainedValue,
        span: Span,
    ) -> (result: Result<ConstrainedValue, ExpressionError>)
        ensures
            outcome(result) == relational(
                BinaryOperation::Gt,
                left@,
                right@,
                span,
                self@.modulus,
            ),
    {
        self.evaluate_order(BinaryOperation::Gt, left, right, span)
    }

    /// Evaluates whether the first value is at most the second.
    pub fn evaluate_le_expression(
        &self,
        left: &ConstrainedValue,
        right: &ConstrainedValue,
        span: Span,
    ) -> (result: Result<ConstrainedValue, ExpressionError>)
        ensures
            outcome(result) == relational(
                BinaryOperation::Le,
                left@,
                right@,
                span,
                self@.modulus,
            ),
    {
        self.evaluate_order(BinaryOperation::Le, left, right, span)
    }

    /// Evaluates whether the first value is below the second.
    pub fn evaluate_lt_expression(
        &self,
        left: &ConstrainedValue,
        right: &ConstrainedValue,
        span: Span,
    ) -> (result: Result<ConstrainedValue, ExpressionError>)
        ensures
            outcome(result) == relational(
                BinaryOperation::Lt,
                left@,
                right@,
                span,
                self@.modulus,
            ),
    {
        self.evaluate_order(BinaryOperation::Lt, left, right, span)
    }
}

/// Negates a boolean.
pub fn evaluate_not(cs: &mut ConstraintSink, value: &ConstrainedValue, span: Span) -> (result:
    Result<ConstrainedValue, ExpressionError>)
    ensures
        (Enforced { result: outcome(result), sink: final(cs)@ }) == negation(
            value@,
            span,
            old(cs)@,
        ),
{
    match value {
        ConstrainedValue::Boolean(BooleanValue::Constant(boolean)) => Ok(
            ConstrainedValue::Boolean(BooleanValue::Constant(!*boolean)),
        ),
        ConstrainedValue::Boolean(BooleanValue::Allocated(_)) => {
            let mut name = String::from_str("enforce");
            name.append(" ");
            name.append("!");
            name.append(value.to_string().as_str());
            name.append(" ");
            name.append(position_text(span).as_str());
            let mut operands: Vec<ConstrainedValue> = Vec::new();
            operands.push(value.duplicate());
            assert(values_view(operands@) =~= seq![value@]);
            let wire = cs.enforce(name.as_str(), Gadget::Not, operands);
            Ok(ConstrainedValue::Boolean(BooleanValue::Allocated(wire)))
        },
        _ => Err(
            ExpressionError::IncompatibleTypes(
                String::from_str("!"),
                value.to_string(),
                String::new(),
                span,
            ),
        ),
    }
}

/// Enforces the conjunction or the disjunction of two booleans.
pub fn enforce_logical(
    cs: &mut ConstraintSink,
    operation: BinaryOperation,
    left: &ConstrainedValue,
    right: &ConstrainedValue,
    span: Span,
) -> (result: Result<ConstrainedValue, ExpressionError>)
    ensures
        (Enforced { result: outcome(result), sink: final(cs)@ }) == logical(
            operation,
            left@,
            right@,
            span,
            old(cs)@,
        ),
{
    match (left, right) {
        (
            ConstrainedValue::Boolean(BooleanValue::Constant(a)),
            ConstrainedValue::Boolean(BooleanValue::Constant(b)),
        ) => {
            let folded: bool = if operation == BinaryOperation::Or {
                *a || *b
            } else {
                *a && *b
            };
            Ok(ConstrainedValue::Boolean(BooleanValue::Constant(folded)))
        },
        (ConstrainedValue::Boolean(_), ConstrainedValue::Boolean(_)) => {
            let name = operation_name_text(
                "enforce",
                left.to_string().as_str(),
                symbol_of(operation),
                right.to_string().as_str(),
                span,
            );
            let wire = cs.enforce(
                name.as_str(),
                gadget_for(operation),
                pair(left.duplicate(), right.duplicate()),
            );
            Ok(ConstrainedValue::Boolean(BooleanValue::Allocated(wire)))
        },
        _ => Err(
            ExpressionError::IncompatibleTypes(
                String::from_str(symbol_of(operation)),
                left.to_string(),
                right.to_string(),
                span,
            ),
        ),
    }
}

/// Enforces the disjunction of two booleans.
pub fn enforce_or(
    cs: &mut ConstraintSink,
    left: &ConstrainedValue,
    right: &ConstrainedValue,
    span: Span,
) -> (result: Result<ConstrainedValue, ExpressionError>)
    ensures
        (Enforced { result: outcome(result), sink: final(cs)@ }) == logical(
            BinaryOperation::Or,
            left@,
            right@,
            span,
            old(cs)@,
        ),
{
    enforce_logical(cs, BinaryOperation::Or, left, right, span)
}

/// Enforces the conjunction of two booleans.
pub fn enforce_and(
    cs: &mut ConstraintSink,
    left: &ConstrainedValue,
    right: &ConstrainedValue,
    span: Span,
) -> (result: Result<ConstrainedValue, ExpressionError>)
    ensures
        (Enforced { result: outcome(result), sink: final(cs)@ }) == logical(
            BinaryOperation::And,
            left@,
            right@,
            span,
            old(cs)@,
        ),
{
    enforce_logical(cs, BinaryOperation::And, left, right, span)
}

/// Whether a selection can choose between two values.
pub fn can_select(second: &ConstrainedValue, third: &ConstrainedValue) -> (result: bool)
    ensures
        result == selectable(second@, third@),
{
    match (second, third) {
        (ConstrainedValue::Boolean(_), ConstrainedValue::Boolean(_)) => true,
        (ConstrainedValue::Integer(a), ConstrainedValue::Integer(b)) => a.kind() == b.kind(),
        (ConstrainedValue::Field(_), ConstrainedValue::Field(_)) => true,
        (ConstrainedValue::Group(_), ConstrainedValue::Group(_)) => true,
        _ => false,
    }
}

/// Selects between two values by a condition.
pub fn conditionally_select(
    cs: &mut ConstraintSink,
    condition: BooleanValue,
    second: ConstrainedValue,
    third: ConstrainedValue,
    span: Span,
) -> (result: Result<ConstrainedValue, ExpressionError>)
    ensures
        (Enforced { result: outcome(result), sink: final(cs)@ }) == selection(
            condition,
            second@,
            third@,
            span,
            old(cs)@,
        ),
{
    if !can_select(&second, &third) {
        return Err(
            ExpressionError::IncompatibleTypes(
                String::from_str("?"),
                second.to_string(),
                third.to_string(),
                span,
            ),
        );
    }
    match condition {
        BooleanValue::Constant(true) => Ok(second),
        BooleanValue::Constant(false) => Ok(third),
        BooleanValue::Allocated(_) => {
            let mut name = String::from_str("select ");
            name.append(second.to_string().as_str());
            name.append(" or ");
            name.append(third.to_string().as_str());
            name.append(" ");
            name.append(position_text(span).as_str());
            let ghost chosen = second@;
            let ghost other = third@;
            let placeholder = wire_of(&second, 0);
            let mut operands: Vec<ConstrainedValue> = Vec::new();
            operands.push(ConstrainedValue::Boolean(condition));
            operands.push(second);
            operands.push(third);
            assert(values_view(operands@) =~= seq![
                ConstrainedValueView::Boolean(condition),
                chosen,
                other,
            ]);
            let wire = cs.enforce(name.as_str(), Gadget::Select, operands);
            let result = wire_of(&placeholder, wire);
            Ok(result)
        },
    }
}

} // verus!
