//! What every expression evaluates to, and what its evaluation leaves in the program's
//! table and in the sink. The evaluator itself is proved to compute exactly this.

use crate::ast::{
    BinaryOperation, CircuitFieldDefinitionView, CircuitMemberView, CircuitView, ExpressionView,
    FunctionInputView, FunctionView, IdentifierView, RangeOrExpressionView, SpreadOrExpressionView,
    StatementView,
};
use crate::constraints::program::{ConstrainedProgramView, scope};
use crate::constraints::resolve::{
    extract_circuit, extract_function, from_type, lemma_resolve_type_idempotent, resolve_type,
    resolve_types,
};
use crate::constraints::semantics::{
    arithmetic, Enforced, equality, is_arithmetic, logical, negation, position, promote,
    relational, selection,
};
use crate::constraints::sink::ConstraintSinkView;
use crate::constraints::value::{
    BooleanValue, ConstrainedCircuitMemberView, ConstrainedValueView, ElementView,
};
use crate::errors::ExpressionErrorView;
use crate::integer::IntegerView;
use crate::literal::LiteralView;
use crate::span::Span;
use crate::types::{inner_dimension, IntegerKind, TypeView};
use vstd::prelude::*;

verus! {

/// All that an evaluation reads and changes: the program's table and the sink.
pub struct Machine {
    pub program: ConstrainedProgramView,
    pub sink: ConstraintSinkView,
}

/// What an evaluation gives: a result, and the machine as the evaluation left it. On an
/// error the machine is the one in which the error arose.
pub struct Evaluated<T> {
    pub result: Result<T, ExpressionErrorView>,
    pub machine: Machine,
}

/// An evaluation that gave a value.
pub open spec fn done<T>(value: T, machine: Machine) -> Evaluated<T> {
    Evaluated { result: Ok(value), machine }
}

/// An evaluation that failed.
pub open spec fn failed<T>(error: ExpressionErrorView, machine: Machine) -> Evaluated<T> {
    Evaluated { result: Err(error), machine }
}

/// An operation on values, seen as an evaluation in a machine.
pub open spec fn enforced(outcome: Enforced, machine: Machine) -> Evaluated<ConstrainedValueView> {
    Evaluated {
        result: outcome.result,
        machine: Machine { program: machine.program, sink: outcome.sink },
    }
}

/// The value of an identifier: what the three scopes hold under its name, held against
/// what the context expects.
pub open spec fn evaluate_identifier(
    program: ConstrainedProgramView,
    file_scope: Seq<char>,
    function_scope: Seq<char>,
    expected: Seq<TypeView>,
    identifier: IdentifierView,
) -> Result<ConstrainedValueView, ExpressionErrorView> {
    match program.resolve(file_scope, function_scope, identifier.name) {
        None => Err(ExpressionErrorView::UndefinedIdentifier(identifier.name, identifier.span)),
        Some(value) => resolve_type(value, expected, identifier.span, program.modulus),
    }
}

/// The constant that a literal is.
pub open spec fn literal_constant(literal: LiteralView, modulus: nat) -> Result<
    ConstrainedValueView,
    ExpressionErrorView,
> {
    match literal {
        LiteralView::Address(address, _) => Ok(ConstrainedValueView::Address(address)),
        LiteralView::Boolean(boolean, _) => Ok(
            ConstrainedValueView::Boolean(BooleanValue::Constant(boolean)),
        ),
        LiteralView::Field(field, span) => from_type(field, TypeView::Field, span, modulus),
        LiteralView::Group(group) => Ok(
            ConstrainedValueView::Group(ElementView::Constant(group.text())),
        ),
        LiteralView::Integer(kind, integer, span) => from_type(
            integer,
            TypeView::Integer(kind),
            span,
            modulus,
        ),
        LiteralView::Scalar(scalar, span) => from_type(scalar, TypeView::Scalar, span, modulus),
        LiteralView::String(string, _) => Ok(ConstrainedValueView::String(string)),
    }
}

/// The value of a bare number: read as the one expected type where exactly one is
/// expected, and left untyped otherwise.
pub open spec fn number_implicit(
    expected: Seq<TypeView>,
    text: Seq<char>,
    span: Span,
    modulus: nat,
) -> Result<ConstrainedValueView, ExpressionErrorView> {
    if expected.len() == 1 {
        from_type(text, expected[0], span, modulus)
    } else {
        Ok(ConstrainedValueView::Unresolved(text))
    }
}

/// What the operands of an operation are evaluated under: nothing for a comparison,
/// what the operation itself is evaluated under for any other.
pub open spec fn operand_context(operation: BinaryOperation, expected: Seq<TypeView>) -> Seq<
    TypeView,
> {
    if is_arithmetic(operation) || operation == BinaryOperation::Or || operation
        == BinaryOperation::And {
        expected
    } else {
        Seq::empty()
    }
}

/// An operation applied to the values of its operands.
pub open spec fn apply(
    operation: BinaryOperation,
    left: ConstrainedValueView,
    right: ConstrainedValueView,
    span: Span,
    modulus: nat,
    sink: ConstraintSinkView,
) -> Enforced {
    if is_arithmetic(operation) {
        arithmetic(operation, left, right, span, modulus, sink)
    } else if operation == BinaryOperation::Or || operation == BinaryOperation::And {
        logical(operation, left, right, span, sink)
    } else if operation == BinaryOperation::Eq {
        equality(left, right, span, modulus, sink)
    } else {
        Enforced { result: relational(operation, left, right, span, modulus), sink }
    }
}

/// The index that a value is: an integer constant that the machine's index type holds.
pub open spec fn index_of(value: ConstrainedValueView, span: Span) -> Result<
    usize,
    ExpressionErrorView,
> {
    match value {
        ConstrainedValueView::Integer(IntegerView::Constant(_, number)) => {
            if 0 <= number <= usize::MAX {
                Ok(number as usize)
            } else {
                Err(ExpressionErrorView::IndexOverflow(value.text(), span))
            }
        },
        _ => Err(ExpressionErrorView::InvalidIndex(value.text(), span)),
    }
}

/// The element of an array at an index.
pub open spec fn array_element(values: Seq<ConstrainedValueView>, index: usize, span: Span) -> Result<
    ConstrainedValueView,
    ExpressionErrorView,
> {
    if index < values.len() {
        Ok(values[index as int])
    } else {
        Err(ExpressionErrorView::IndexOutOfBounds(index, values.len() as usize, span))
    }
}

/// The elements of an array from one index up to another.
pub open spec fn array_slice(
    values: Seq<ConstrainedValueView>,
    from: usize,
    to: usize,
    span: Span,
) -> Result<ConstrainedValueView, ExpressionErrorView> {
    if to > values.len() {
        Err(ExpressionErrorView::IndexOutOfBounds(to, values.len() as usize, span))
    } else if from > to {
        Err(ExpressionErrorView::IndexOutOfBounds(from, values.len() as usize, span))
    } else {
        Ok(ConstrainedValueView::Array(values.subrange(from as int, to as int)))
    }
}

/// The position of the first field given, from `from` on, that has the name.
pub open spec fn find_definition(
    given: Seq<CircuitFieldDefinitionView>,
    name: Seq<char>,
    from: nat,
) -> Option<nat>
    decreases given.len() - from,
{
    if from >= given.len() {
        None
    } else if given[from as int].identifier.name == name {
        Some(from)
    } else {
        find_definition(given, name, from + 1)
    }
}

/// The position of the first member of an instance, from `from` on, that has the name.
pub open spec fn find_member(
    members: Seq<ConstrainedCircuitMemberView>,
    name: Seq<char>,
    from: nat,
) -> Option<nat>
    decreases members.len() - from,
{
    if from >= members.len() {
        None
    } else if members[from as int].0.name == name {
        Some(from)
    } else {
        find_member(members, name, from + 1)
    }
}

/// The position of the first function of a definition, from `from` on, that has the name.
pub open spec fn find_function(members: Seq<CircuitMemberView>, name: Seq<char>, from: nat) -> Option<
    nat,
>
    decreases members.len() - from,
{
    if from >= members.len() {
        None
    } else if (members[from as int] matches CircuitMemberView::CircuitFunction(_, function)
        && function.function_name.name == name) {
        Some(from)
    } else {
        find_function(members, name, from + 1)
    }
}

/// The program after the fields among the first `count` members of an instance were
/// stored where a member function of the instance finds them: under their names, in the
/// scope of the function, in the scope of the circuit, in the scope of the file.
pub open spec fn store_fields(
    program: ConstrainedProgramView,
    function_scope: Seq<char>,
    members: Seq<ConstrainedCircuitMemberView>,
    count: nat,
) -> ConstrainedProgramView
    decreases count,
{
    if count == 0 || count > members.len() {
        program
    } else {
        let before = store_fields(program, function_scope, members, (count - 1) as nat);
        let member = members[count - 1];
        if member.1 is Function || member.1 is Static {
            before
        } else {
            before.store(scope(function_scope, member.0.name), member.1)
        }
    }
}

/// What reading a member of an instance gives, and the program after it. A function is
/// handed out after the instance's fields were stored for it; a static member cannot be
/// read; a field is handed out as it is.
pub open spec fn member_access(
    program: ConstrainedProgramView,
    file_scope: Seq<char>,
    name: IdentifierView,
    members: Seq<ConstrainedCircuitMemberView>,
    member: IdentifierView,
    span: Span,
) -> (Result<ConstrainedValueView, ExpressionErrorView>, ConstrainedProgramView) {
    match find_member(members, member.name, 0) {
        None => (
            Err(ExpressionErrorView::UndefinedMemberAccess(name.name, member.name, span)),
            program,
        ),
        Some(position) => {
            let found = members[position as int];
            match found.1 {
                ConstrainedValueView::Function(_, _) => (
                    Ok(found.1),
                    store_fields(
                        program,
                        scope(scope(file_scope, name.name), found.0.name),
                        members,
                        members.len(),
                    ),
                ),
                ConstrainedValueView::Static(inner) => (
                    Err(ExpressionErrorView::InvalidStaticAccess(inner.text(), span)),
                    program,
                ),
                _ => (Ok(found.1), program),
            }
        },
    }
}

/// What reaching a member through the type gives: the static function of that name.
pub open spec fn static_access(circuit: CircuitView, member: IdentifierView, span: Span) -> Result<
    ConstrainedValueView,
    ExpressionErrorView,
> {
    match find_function(circuit.members, member.name, 0) {
        None => Err(
            ExpressionErrorView::UndefinedMemberAccess(
                circuit.circuit_name.name,
                member.name,
                span,
            ),
        ),
        Some(position) => match circuit.members[position as int] {
            CircuitMemberView::CircuitFunction(is_static, function) => if is_static {
                Ok(ConstrainedValueView::Function(Some(circuit.circuit_name), function))
            } else {
                Err(ExpressionErrorView::InvalidMemberAccess(function.function_name.name, span))
            },
            _ => arbitrary(),
        },
    }
}

/// The name under which the constraints of a call are recorded.
pub open spec fn call_name(function: Seq<char>, span: Span) -> Seq<char> {
    "function call "@ + function + " "@ + position(span)
}

/// What a call hands to its caller: the one value of a return of one, and the whole
/// return otherwise.
pub open spec fn returned(value: ConstrainedValueView, function: Seq<char>, span: Span) -> Result<
    ConstrainedValueView,
    ExpressionErrorView,
> {
    match value {
        ConstrainedValueView::Return(values) => if values.len() == 1 {
            Ok(values[0])
        } else {
            Ok(value)
        },
        _ => Err(ExpressionErrorView::FunctionNoReturn(function, span)),
    }
}

/// What the context expects of the elements of an array literal, and the length that it
/// declares for the literal, if any.
pub open spec fn element_context(expected: Seq<TypeView>, span: Span) -> Result<
    (Seq<TypeView>, Option<usize>),
    ExpressionErrorView,
> {
    if expected.len() == 0 {
        Ok((Seq::empty(), None))
    } else {
        match expected[0] {
            TypeView::Array(element, dimensions) => Ok(
                (
                    seq![inner_dimension(*element, dimensions)],
                    if dimensions.len() > 0 {
                        Some(dimensions[0])
                    } else {
                        None
                    },
                ),
            ),
            _ => Err(ExpressionErrorView::UnexpectedArray(expected[0], span)),
        }
    }
}

/// The value of an expression.
#[verifier::opaque]
pub open spec fn enforce_expression(
    machine: Machine,
    file_scope: Seq<char>,
    function_scope: Seq<char>,
    depth: nat,
    expected: Seq<TypeView>,
    expression: ExpressionView,
) -> Evaluated<ConstrainedValueView>
    decreases depth, 0nat, expression, 1nat,
{
    match expression {
        ExpressionView::Identifier(identifier) => Evaluated {
            result: evaluate_identifier(
                machine.program,
                file_scope,
                function_scope,
                expected,
                identifier,
            ),
            machine,
        },
        ExpressionView::Literal(literal) => Evaluated {
            result: literal_constant(literal, machine.program.modulus),
            machine,
        },
        ExpressionView::Implicit(text, span) => Evaluated {
            result: number_implicit(expected, text, span, machine.program.modulus),
            machine,
        },
        ExpressionView::Binary(operation, _, _, span) => {
            let operands = enforce_binary_expression(
                machine,
                file_scope,
                function_scope,
                depth,
                operand_context(operation, expected),
                expression,
            );
            match operands.result {
                Err(error) => failed(error, operands.machine),
                Ok((left, right)) => enforced(
                    apply(
                        operation,
                        left,
                        right,
                        span,
                        operands.machine.program.modulus,
                        operands.machine.sink,
                    ),
                    operands.machine,
                ),
            }
        },
        ExpressionView::Not(inner, span) => {
            let operand = enforce_expression(
                machine,
                file_scope,
                function_scope,
                depth,
                expected,
                *inner,
            );
            match operand.result {
                Err(error) => failed(error, operand.machine),
                Ok(value) => enforced(
                    negation(value, span, operand.machine.sink),
                    operand.machine,
                ),
            }
        },
        ExpressionView::IfElse(_, _, _, _) => enforce_conditional_expression(
            machine,
            file_scope,
            function_scope,
            depth,
            expected,
            expression,
        ),
        ExpressionView::Array(_, _) => enforce_array_expression(
            machine,
            file_scope,
            function_scope,
            depth,
            expected,
            expression,
        ),
        ExpressionView::ArrayAccess(_, _, _) => enforce_array_access_expression(
            machine,
            file_scope,
            function_scope,
            depth,
            expression,
        ),
        ExpressionView::Circuit(_, _, _) => enforce_circuit_expression(
            machine,
            file_scope,
            function_scope,
            depth,
            expression,
        ),
        ExpressionView::CircuitMemberAccess(_, _, _) => enforce_circuit_access_expression(
            machine,
            file_scope,
            function_scope,
            depth,
            expression,
        ),
        ExpressionView::CircuitStaticFunctionAccess(_, _, _) => {
            enforce_circuit_static_access_expression(
                machine,
                file_scope,
                function_scope,
                depth,
                expected,
                expression,
            )
        },
        ExpressionView::FunctionCall(_, _, _) => enforce_function_call_expression(
            machine,
            file_scope,
            function_scope,
            depth,
            expected,
            expression,
        ),
    }
}

/// The value of an expression, held against what the context expects.
#[verifier::opaque]
pub open spec fn enforce_expression_value(
    machine: Machine,
    file_scope: Seq<char>,
    function_scope: Seq<char>,
    depth: nat,
    expected: Seq<TypeView>,
    expression: ExpressionView,
    span: Span,
) -> Evaluated<ConstrainedValueView>
    decreases depth, 0nat, expression, 2nat,
{
    let branch = enforce_expression(
        machine,
        file_scope,
        function_scope,
        depth,
        expected,
        expression,
    );
    match branch.result {
        Err(error) => branch,
        Ok(value) => Evaluated {
            result: resolve_type(value, expected, span, branch.machine.program.modulus),
            machine: branch.machine,
        },
    }
}

/// The values of the two operands of an operation: the left one first, then the right
/// one, each held against what is expected, then the two reconciled with each other.
#[verifier::opaque]
pub open spec fn enforce_binary_expression(
    machine: Machine,
    file_scope: Seq<char>,
    function_scope: Seq<char>,
    depth: nat,
    expected: Seq<TypeView>,
    expression: ExpressionView,
) -> Evaluated<(ConstrainedValueView, ConstrainedValueView)>
    decreases depth, 0nat, expression, 0nat,
{
    match expression {
        ExpressionView::Binary(_, left, right, span) => {
            let first = enforce_expression_value(
                machine,
                file_scope,
                function_scope,
                depth,
                expected,
                *left,
                span,
            );
            match first.result {
                Err(error) => Evaluated { result: Err(error), machine: first.machine },
                Ok(resolved_left) => {
                    let second = enforce_expression_value(
                        first.machine,
                        file_scope,
                        function_scope,
                        depth,
                        expected,
                        *right,
                        span,
                    );
                    match second.result {
                        Err(error) => Evaluated { result: Err(error), machine: second.machine },
                        Ok(resolved_right) => Evaluated {
                            result: resolve_types(
                                resolved_left,
                                resolved_right,
                                expected,
                                span,
                                second.machine.program.modulus,
                            ),
                            machine: second.machine,
                        },
                    }
                },
            }
        },
        _ => arbitrary(),
    }
}

/// The value of a conditional. The condition is evaluated as a boolean, then both
/// branches are evaluated, whatever the condition is, and the selection is made.
#[verifier::opaque]
pub open spec fn enforce_conditional_expression(
    machine: Machine,
    file_scope: Seq<char>,
    function_scope: Seq<char>,
    depth: nat,
    expected: Seq<TypeView>,
    expression: ExpressionView,
) -> Evaluated<ConstrainedValueView>
    decreases depth, 0nat, expression, 0nat,
{
    match expression {
        ExpressionView::IfElse(first, second, third, span) => {
            let condition = enforce_expression(
                machine,
                file_scope,
                function_scope,
                depth,
                seq![TypeView::Boolean],
                *first,
            );
            match condition.result {
                Err(error) => failed(error, condition.machine),
                Ok(ConstrainedValueView::Boolean(boolean)) => {
                    let chosen = enforce_expression_value(
                        condition.machine,
                        file_scope,
                        function_scope,
                        depth,
                        expected,
                        *second,
                        span,
                    );
                    match chosen.result {
                        Err(error) => failed(error, chosen.machine),
                        Ok(resolved_second) => {
                            let other = enforce_expression_value(
                                chosen.machine,
                                file_scope,
                                function_scope,
                                depth,
                                expected,
                                *third,
                                span,
                            );
                            match other.result {
                                Err(error) => failed(error, other.machine),
                                Ok(resolved_third) => enforced(
                                    selection(
                                        boolean,
                                        resolved_second,
                                        resolved_third,
                                        span,
                                        other.machine.sink,
                                    ),
                                    other.machine,
                                ),
                            }
                        },
                    }
                },
                Ok(value) => failed(
                    ExpressionErrorView::ConditionalBoolean(value.text(), span),
                    condition.machine,
                ),
            }
        },
        _ => arbitrary(),
    }
}

/// The values of the first `count` elements of an array literal, in order. A spread
/// names an array of the function's scope, whose elements are spliced in; any other
/// element is evaluated under what is expected of the elements.
#[verifier::opaque]
pub open spec fn array_elements(
    machine: Machine,
    file_scope: Seq<char>,
    function_scope: Seq<char>,
    depth: nat,
    expected: Seq<TypeView>,
    elements: Seq<SpreadOrExpressionView>,
    span: Span,
    count: nat,
) -> Evaluated<Seq<ConstrainedValueView>>
    decreases depth, 0nat, elements, count,
{
    if count == 0 || count > elements.len() {
        done(Seq::empty(), machine)
    } else {
        let before = array_elements(
            machine,
            file_scope,
            function_scope,
            depth,
            expected,
            elements,
            span,
            (count - 1) as nat,
        );
        match before.result {
            Err(error) => before,
            Ok(values) => match elements[count - 1] {
                SpreadOrExpressionView::Spread(ExpressionView::Identifier(identifier)) => {
                    match before.machine.program.get(scope(function_scope, identifier.name)) {
                        Some(ConstrainedValueView::Array(spliced)) => done(
                            values + spliced,
                            before.machine,
                        ),
                        Some(value) => failed(
                            ExpressionErrorView::InvalidSpread(value.text(), span),
                            before.machine,
                        ),
                        None => failed(
                            ExpressionErrorView::UndefinedArray(identifier.name, span),
                            before.machine,
                        ),
                    }
                },
                SpreadOrExpressionView::Spread(_) => failed(
                    ExpressionErrorView::InvalidSpread("expression"@, span),
                    before.machine,
                ),
                SpreadOrExpressionView::Expression(element) => {
                    let value = enforce_expression(
                        before.machine,
                        file_scope,
                        function_scope,
                        depth,
                        expected,
                        element,
                    );
                    match value.result {
                        Err(error) => failed(error, value.machine),
                        Ok(yielded) => done(values.push(yielded), value.machine),
                    }
                },
            },
        }
    }
}

/// The value of an array literal: the values of its elements, whose number is held
/// against the length that the context declares.
#[verifier::opaque]
pub open spec fn enforce_array_expression(
    machine: Machine,
    file_scope: Seq<char>,
    function_scope: Seq<char>,
    depth: nat,
    expected: Seq<TypeView>,
    expression: ExpressionView,
) -> Evaluated<ConstrainedValueView>
    decreases depth, 0nat, expression, 0nat,
{
    match expression {
        ExpressionView::Array(elements, span) => match element_context(expected, span) {
            Err(error) => failed(error, machine),
            Ok((inner, declared)) => {
                let values = array_elements(
                    machine,
                    file_scope,
                    function_scope,
                    depth,
                    inner,
                    elements,
                    span,
                    elements.len(),
                );
                match values.result {
                    Err(error) => failed(error, values.machine),
                    Ok(result) => match declared {
                        Some(length) => if length != result.len() {
                            failed(
                                ExpressionErrorView::InvalidLength(
                                    length,
                                    result.len() as usize,
                                    span,
                                ),
                                values.machine,
                            )
                        } else {
                            done(ConstrainedValueView::Array(result), values.machine)
                        },
                        None => done(ConstrainedValueView::Array(result), values.machine),
                    },
                }
            },
        },
        _ => arbitrary(),
    }
}

/// The index that an expression evaluates to, read as an unsigned integer of 32 bits.
#[verifier::opaque]
pub open spec fn enforce_index(
    machine: Machine,
    file_scope: Seq<char>,
    function_scope: Seq<char>,
    depth: nat,
    index: ExpressionView,
    span: Span,
) -> Evaluated<usize>
    decreases depth, 0nat, index, 3nat,
{
    let value = enforce_expression_value(
        machine,
        file_scope,
        function_scope,
        depth,
        seq![TypeView::Integer(IntegerKind::U32)],
        index,
        span,
    );
    match value.result {
        Err(error) => failed(error, value.machine),
        Ok(number) => Evaluated { result: index_of(number, span), machine: value.machine },
    }
}

/// The value of an array access: the element at an index, or the elements of a range,
/// whose lower bound is zero and whose upper bound is the array's length where the
/// range does not say.
#[verifier::opaque]
pub open spec fn enforce_array_access_expression(
    machine: Machine,
    file_scope: Seq<char>,
    function_scope: Seq<char>,
    depth: nat,
    expression: ExpressionView,
) -> Evaluated<ConstrainedValueView>
    decreases depth, 0nat, expression, 0nat,
{
    match expression {
        ExpressionView::ArrayAccess(array, index, span) => {
            let base = enforce_expression_value(
                machine,
                file_scope,
                function_scope,
                depth,
                Seq::empty(),
                *array,
                span,
            );
            match base.result {
                Err(error) => failed(error, base.machine),
                Ok(ConstrainedValueView::Array(values)) => match *index {
                    RangeOrExpressionView::Range(from, to) => {
                        let lower = match from {
                            Some(from_index) => enforce_index(
                                base.machine,
                                file_scope,
                                function_scope,
                                depth,
                                from_index,
                                span,
                            ),
                            None => done(0usize, base.machine),
                        };
                        match lower.result {
                            Err(error) => failed(error, lower.machine),
                            Ok(from_resolved) => {
                                let upper = match to {
                                    Some(to_index) => enforce_index(
                                        lower.machine,
                                        file_scope,
                                        function_scope,
                                        depth,
                                        to_index,
                                        span,
                                    ),
                                    None => done(values.len() as usize, lower.machine),
                                };
                                match upper.result {
                                    Err(error) => failed(error, upper.machine),
                                    Ok(to_resolved) => Evaluated {
                                        result: array_slice(
                                            values,
                                            from_resolved,
                                            to_resolved,
                                            span,
                                        ),
                                        machine: upper.machine,
                                    },
                                }
                            },
                        }
                    },
                    RangeOrExpressionView::Expression(position) => {
                        let resolved = enforce_index(
                            base.machine,
                            file_scope,
                            function_scope,
                            depth,
                            position,
                            span,
                        );
                        match resolved.result {
                            Err(error) => failed(error, resolved.machine),
                            Ok(index_resolved) => Evaluated {
                                result: array_element(values, index_resolved, span),
                                machine: resolved.machine,
                            },
                        }
                    },
                },
                Ok(value) => failed(
                    ExpressionErrorView::UndefinedArray(value.text(), span),
                    base.machine,
                ),
            }
        },
        _ => arbitrary(),
    }
}

/// The first `count` members of an instance of a circuit, in the order of their
/// declaration. A field takes the value of the expression given for it, evaluated as
/// the declared type; a function is carried with the circuit's name, and marked where
/// it is static.
#[verifier::opaque]
pub open spec fn circuit_members(
    machine: Machine,
    file_scope: Seq<char>,
    function_scope: Seq<char>,
    depth: nat,
    circuit: CircuitView,
    given: Seq<CircuitFieldDefinitionView>,
    span: Span,
    count: nat,
) -> Evaluated<Seq<ConstrainedCircuitMemberView>>
    decreases depth, 0nat, given, count,
{
    if count == 0 || count > circuit.members.len() {
        done(Seq::empty(), machine)
    } else {
        let before = circuit_members(
            machine,
            file_scope,
            function_scope,
            depth,
            circuit,
            given,
            span,
            (count - 1) as nat,
        );
        match before.result {
            Err(error) => before,
            Ok(members) => match circuit.members[count - 1] {
                CircuitMemberView::CircuitField(identifier, type_) => {
                    match find_definition(given, identifier.name, 0) {
                        None => failed(
                            ExpressionErrorView::ExpectedCircuitMember(identifier.name, span),
                            before.machine,
                        ),
                        Some(position) => if position < given.len() {
                            let value = enforce_expression(
                                before.machine,
                                file_scope,
                                function_scope,
                                depth,
                                seq![type_],
                                given[position as int].expression,
                            );
                            match value.result {
                                Err(error) => failed(error, value.machine),
                                Ok(field) => done(
                                    members.push(ConstrainedCircuitMemberView(identifier, field)),
                                    value.machine,
                                ),
                            }
                        } else {
                            arbitrary()
                        },
                    }
                },
                CircuitMemberView::CircuitFunction(is_static, function) => {
                    let value = ConstrainedValueView::Function(
                        Some(circuit.circuit_name),
                        function,
                    );
                    done(
                        members.push(
                            ConstrainedCircuitMemberView(
                                function.function_name,
                                if is_static {
                                    ConstrainedValueView::Static(Box::new(value))
                                } else {
                                    value
                                },
                            ),
                        ),
                        before.machine,
                    )
                },
            },
        }
    }
}

/// The value of a circuit instantiation: an instance of the circuit that is stored
/// under the name in the file's scope, or under the file's scope itself where the name
/// is the circuit's name for itself.
#[verifier::opaque]
pub open spec fn enforce_circuit_expression(
    machine: Machine,
    file_scope: Seq<char>,
    function_scope: Seq<char>,
    depth: nat,
    expression: ExpressionView,
) -> Evaluated<ConstrainedValueView>
    decreases depth, 0nat, expression, 0nat,
{
    match expression {
        ExpressionView::Circuit(identifier, given, span) => {
            let key = if identifier.name == "Self"@ {
                file_scope
            } else {
                scope(file_scope, identifier.name)
            };
            match machine.program.get(key) {
                None => failed(
                    ExpressionErrorView::UndefinedCircuit(identifier.name, span),
                    machine,
                ),
                Some(value) => match extract_circuit(value, span) {
                    Err(error) => failed(error, machine),
                    Ok(circuit) => {
                        let members = circuit_members(
                            machine,
                            file_scope,
                            function_scope,
                            depth,
                            circuit,
                            given,
                            span,
                            circuit.members.len(),
                        );
                        match members.result {
                            Err(error) => failed(error, members.machine),
                            Ok(resolved) => done(
                                ConstrainedValueView::CircuitExpression(
                                    circuit.circuit_name,
                                    resolved,
                                ),
                                members.machine,
                            ),
                        }
                    },
                },
            }
        },
        _ => arbitrary(),
    }
}

/// The value of a member read through an instance.
#[verifier::opaque]
pub open spec fn enforce_circuit_access_expression(
    machine: Machine,
    file_scope: Seq<char>,
    function_scope: Seq<char>,
    depth: nat,
    expression: ExpressionView,
) -> Evaluated<ConstrainedValueView>
    decreases depth, 0nat, expression, 0nat,
{
    match expression {
        ExpressionView::CircuitMemberAccess(circuit, member, span) => {
            let base = enforce_expression_value(
                machine,
                file_scope,
                function_scope,
                depth,
                Seq::empty(),
                *circuit,
                span,
            );
            match base.result {
                Err(error) => failed(error, base.machine),
                Ok(ConstrainedValueView::CircuitExpression(name, members)) => {
                    let read = member_access(
                        base.machine.program,
                        file_scope,
                        name,
                        members,
                        member,
                        span,
                    );
                    Evaluated {
                        result: read.0,
                        machine: Machine { program: read.1, sink: base.machine.sink },
                    }
                },
                Ok(value) => failed(
                    ExpressionErrorView::UndefinedCircuit(value.text(), span),
                    base.machine,
                ),
            }
        },
        _ => arbitrary(),
    }
}

/// The value of a member reached through the type.
#[verifier::opaque]
pub open spec fn enforce_circuit_static_access_expression(
    machine: Machine,
    file_scope: Seq<char>,
    function_scope: Seq<char>,
    depth: nat,
    expected: Seq<TypeView>,
    expression: ExpressionView,
) -> Evaluated<ConstrainedValueView>
    decreases depth, 0nat, expression, 0nat,
{
    match expression {
        ExpressionView::CircuitStaticFunctionAccess(circuit, member, span) => {
            let base = enforce_expression(
                machine,
                file_scope,
                function_scope,
                depth,
                expected,
                *circuit,
            );
            match base.result {
                Err(error) => failed(error, base.machine),
                Ok(ConstrainedValueView::CircuitDefinition(definition)) => Evaluated {
                    result: static_access(definition, member, span),
                    machine: base.machine,
                },
                Ok(value) => failed(
                    ExpressionErrorView::UndefinedCircuit(value.text(), span),
                    base.machine,
                ),
            }
        },
        _ => arbitrary(),
    }
}

/// The value of a call. The callee is evaluated to a function; the call runs inside a
/// namespace of its own; and what it returns is handed to the caller.
#[verifier::opaque]
pub open spec fn enforce_function_call_expression(
    machine: Machine,
    file_scope: Seq<char>,
    function_scope: Seq<char>,
    depth: nat,
    expected: Seq<TypeView>,
    expression: ExpressionView,
) -> Evaluated<ConstrainedValueView>
    decreases depth, 0nat, expression, 0nat,
{
    match expression {
        ExpressionView::FunctionCall(function, arguments, span) => {
            let callee = enforce_expression(
                machine,
                file_scope,
                function_scope,
                depth,
                expected,
                *function,
            );
            match callee.result {
                Err(error) => failed(error, callee.machine),
                Ok(value) => match extract_function(value, file_scope, span) {
                    Err(error) => failed(error, callee.machine),
                    Ok((outer_scope, function_call)) => {
                        let name = function_call.function_name.name;
                        let inside = Machine {
                            program: callee.machine.program,
                            sink: callee.machine.sink.enter(call_name(name, span)),
                        };
                        let call = enforce_function(
                            inside,
                            outer_scope,
                            function_scope,
                            depth,
                            function_call,
                            arguments,
                            span,
                        );
                        let outside = Machine {
                            program: call.machine.program,
                            sink: call.machine.sink.leave(callee.machine.sink.prefix),
                        };
                        match call.result {
                            Err(error) => failed(error, outside),
                            Ok(yielded) => Evaluated {
                                result: returned(yielded, name, span),
                                machine: outside,
                            },
                        }
                    },
                },
            }
        },
        _ => arbitrary(),
    }
}

/// The machine after the first `count` arguments of a call were bound: each evaluated,
/// in the caller's scope, as the type of its parameter, and stored under the
/// parameter's name in the scope of the function.
#[verifier::opaque]
pub open spec fn bind_arguments(
    machine: Machine,
    file_scope: Seq<char>,
    caller_scope: Seq<char>,
    depth: nat,
    function_scope: Seq<char>,
    inputs: Seq<FunctionInputView>,
    arguments: Seq<ExpressionView>,
    count: nat,
) -> Evaluated<()>
    decreases depth, 0nat, arguments, count,
{
    if count == 0 || count > arguments.len() || count > inputs.len() {
        done((), machine)
    } else {
        let before = bind_arguments(
            machine,
            file_scope,
            caller_scope,
            depth,
            function_scope,
            inputs,
            arguments,
            (count - 1) as nat,
        );
        match before.result {
            Err(error) => before,
            Ok(_) => {
                let value = enforce_expression(
                    before.machine,
                    file_scope,
                    caller_scope,
                    depth,
                    seq![inputs[count - 1].type_],
                    arguments[count - 1],
                );
                match value.result {
                    Err(error) => failed(error, value.machine),
                    Ok(argument) => done(
                        (),
                        Machine {
                            program: value.machine.program.store(
                                scope(function_scope, inputs[count - 1].identifier.name),
                                argument,
                            ),
                            sink: value.machine.sink,
                        },
                    ),
                }
            },
        }
    }
}

/// The values of the first `count` expressions of a return statement, each evaluated
/// as the type that the function declares for it.
#[verifier::opaque]
pub open spec fn return_values(
    machine: Machine,
    file_scope: Seq<char>,
    function_scope: Seq<char>,
    depth: nat,
    outputs: Seq<TypeView>,
    expressions: Seq<ExpressionView>,
    span: Span,
    count: nat,
) -> Evaluated<Seq<ConstrainedValueView>>
    decreases depth, 0nat, expressions, count,
{
    if count == 0 || count > expressions.len() || count > outputs.len() {
        done(Seq::empty(), machine)
    } else {
        let before = return_values(
            machine,
            file_scope,
            function_scope,
            depth,
            outputs,
            expressions,
            span,
            (count - 1) as nat,
        );
        match before.result {
            Err(error) => before,
            Ok(values) => {
                let value = enforce_expression_value(
                    before.machine,
                    file_scope,
                    function_scope,
                    depth,
                    seq![outputs[count - 1]],
                    expressions[count - 1],
                    span,
                );
                match value.result {
                    Err(error) => failed(error, value.machine),
                    Ok(yielded) => done(values.push(yielded), value.machine),
                }
            },
        }
    }
}

/// The first `count` of the values that a call returned, each held against the type
/// declared for it, if any; the first failure ends it.
pub open spec fn resolve_each(
    values: Seq<ConstrainedValueView>,
    declared: Seq<TypeView>,
    span: Span,
    modulus: nat,
    count: nat,
) -> Result<Seq<ConstrainedValueView>, ExpressionErrorView>
    decreases count,
{
    if count == 0 || count > values.len() {
        Ok(Seq::empty())
    } else {
        match resolve_each(values, declared, span, modulus, (count - 1) as nat) {
            Err(error) => Err(error),
            Ok(resolved) => {
                let value = if count <= declared.len() {
                    resolve_type(values[count - 1], seq![declared[count - 1]], span, modulus)
                } else {
                    Ok(values[count - 1])
                };
                match value {
                    Err(error) => Err(error),
                    Ok(yielded) => Ok(resolved.push(yielded)),
                }
            },
        }
    }
}

/// The program after the first `count` names of the function's scope took the first
/// `count` values, one each and in order.
pub open spec fn store_each(
    program: ConstrainedProgramView,
    function_scope: Seq<char>,
    names: Seq<IdentifierView>,
    values: Seq<ConstrainedValueView>,
    count: nat,
) -> ConstrainedProgramView
    decreases count,
{
    if count == 0 || count > names.len() || count > values.len() {
        program
    } else {
        store_each(program, function_scope, names, values, (count - 1) as nat).store(
            scope(function_scope, names[count - 1].name),
            values[count - 1],
        )
    }
}

/// The condition under which the statements of a branch take effect: the condition
/// under which the conditional itself does, and the condition of the branch. Two
/// constants are folded; with a wire among them a gadget is recorded.
pub open spec fn conjunction(
    indicator: BooleanValue,
    condition: BooleanValue,
    span: Span,
    sink: ConstraintSinkView,
) -> (BooleanValue, ConstraintSinkView) {
    let both = logical(
        BinaryOperation::And,
        ConstrainedValueView::Boolean(indicator),
        ConstrainedValueView::Boolean(condition),
        span,
        sink,
    );
    match both.result {
        Ok(ConstrainedValueView::Boolean(result)) => (result, both.sink),
        _ => arbitrary(),
    }
}

/// The condition of the second branch of a conditional: that the condition of the
/// first does not hold.
pub open spec fn complement(condition: BooleanValue, span: Span, sink: ConstraintSinkView) -> (
    BooleanValue,
    ConstraintSinkView,
) {
    let negated = negation(ConstrainedValueView::Boolean(condition), span, sink);
    match negated.result {
        Ok(ConstrainedValueView::Boolean(result)) => (result, negated.sink),
        _ => arbitrary(),
    }
}

/// The value that a name has after an assignment that takes effect under a condition.
/// Under a constant condition it is the new value or the old one. Under a condition on
/// a wire it is the selection between the two, which is left to a gadget.
pub open spec fn assigned(
    indicator: BooleanValue,
    new: ConstrainedValueView,
    old: ConstrainedValueView,
    span: Span,
    sink: ConstraintSinkView,
) -> Enforced {
    match indicator {
        BooleanValue::Constant(true) => Enforced { result: Ok(new), sink },
        BooleanValue::Constant(false) => Enforced { result: Ok(old), sink },
        BooleanValue::Allocated(_) => selection(indicator, new, old, span, sink),
    }
}

/// What the first `count` statements of a list come to, under the condition
/// `indicator`: the return value of the first return statement among them that takes
/// effect, or nothing yet.
///
/// Every statement is evaluated, whatever the condition is. A definition stores its
/// values. An assignment stores what `assigned` gives. A return statement ends the
/// list where the condition is the constant true, is passed over where it is the
/// constant false, and cannot be enforced where the condition is on a wire. A
/// conditional runs both its branches, the first under the conjunction of the
/// condition with its own, the second under the conjunction of the condition with
/// the complement of its own. An iteration runs its statements once for each index.
#[verifier::opaque]
pub open spec fn enforce_statements(
    machine: Machine,
    file_scope: Seq<char>,
    function_scope: Seq<char>,
    depth: nat,
    outputs: Seq<TypeView>,
    indicator: BooleanValue,
    statements: Seq<StatementView>,
    count: nat,
) -> Evaluated<Option<ConstrainedValueView>>
    decreases depth, 1nat, statements, count,
{
    if count == 0 || count > statements.len() {
        done(None, machine)
    } else {
        let before = enforce_statements(
            machine,
            file_scope,
            function_scope,
            depth,
            outputs,
            indicator,
            statements,
            (count - 1) as nat,
        );
        match before.result {
            Err(error) => before,
            Ok(Some(value)) => before,
            Ok(None) => enforce_statement(
                before.machine,
                file_scope,
                function_scope,
                depth,
                outputs,
                indicator,
                statements[count - 1],
            ),
        }
    }
}

/// What one statement comes to, under the condition `indicator`.
#[verifier::opaque]
pub open spec fn enforce_statement(
    machine: Machine,
    file_scope: Seq<char>,
    function_scope: Seq<char>,
    depth: nat,
    outputs: Seq<TypeView>,
    indicator: BooleanValue,
    statement: StatementView,
) -> Evaluated<Option<ConstrainedValueView>>
    decreases depth, 1nat, statement, (usize::MAX + 2) as nat,
{
    match statement {
        StatementView::Return(expressions, span) => {
            if expressions.len() != outputs.len() {
                failed(
                    ExpressionErrorView::InvalidLength(
                        #[verifier::truncate] (outputs.len() as usize),
                        #[verifier::truncate] (expressions.len() as usize),
                        span,
                    ),
                    machine,
                )
            } else {
                let values = return_values(
                    machine,
                    file_scope,
                    function_scope,
                    depth,
                    outputs,
                    expressions,
                    span,
                    expressions.len(),
                );
                match values.result {
                    Err(error) => failed(error, values.machine),
                    Ok(result) => match indicator {
                        BooleanValue::Constant(true) => done(
                            Some(ConstrainedValueView::Return(result)),
                            values.machine,
                        ),
                        BooleanValue::Constant(false) => done(None, values.machine),
                        BooleanValue::Allocated(_) => failed(
                            ExpressionErrorView::CannotEnforce(
                                "return"@,
                                ConstrainedValueView::Boolean(indicator).text(),
                                span,
                            ),
                            values.machine,
                        ),
                    },
                }
            }
        },
        StatementView::Definition(names, declared, expression, span) => {
            if declared.len() != 0 && declared.len() != names.len() {
                failed(
                    ExpressionErrorView::InvalidLength(
                        #[verifier::truncate] (names.len() as usize),
                        #[verifier::truncate] (declared.len() as usize),
                        span,
                    ),
                    machine,
                )
            } else if names.len() == 1 {
                let value = enforce_expression_value(
                    machine,
                    file_scope,
                    function_scope,
                    depth,
                    declared,
                    expression,
                    span,
                );
                match value.result {
                    Err(error) => failed(error, value.machine),
                    Ok(yielded) => done(
                        None,
                        Machine {
                            program: value.machine.program.store(
                                scope(function_scope, names[0].name),
                                yielded,
                            ),
                            sink: value.machine.sink,
                        },
                    ),
                }
            } else {
                let value = enforce_expression(
                    machine,
                    file_scope,
                    function_scope,
                    depth,
                    declared,
                    expression,
                );
                match value.result {
                    Err(error) => failed(error, value.machine),
                    Ok(ConstrainedValueView::Return(values)) => {
                        if values.len() != names.len() {
                            failed(
                                ExpressionErrorView::InvalidLength(
                                    #[verifier::truncate] (names.len() as usize),
                                    #[verifier::truncate] (values.len() as usize),
                                    span,
                                ),
                                value.machine,
                            )
                        } else {
                            match resolve_each(
                                values,
                                declared,
                                span,
                                value.machine.program.modulus,
                                values.len(),
                            ) {
                                Err(error) => failed(error, value.machine),
                                Ok(resolved) => done(
                                    None,
                                    Machine {
                                        program: store_each(
                                            value.machine.program,
                                            function_scope,
                                            names,
                                            resolved,
                                            names.len(),
                                        ),
                                        sink: value.machine.sink,
                                    },
                                ),
                            }
                        }
                    },
                    Ok(_) => failed(
                        ExpressionErrorView::InvalidLength(
                            #[verifier::truncate] (names.len() as usize),
                            1,
                            span,
                        ),
                        value.machine,
                    ),
                }
            }
        },
        StatementView::Assign(name, expression, span) => {
            let value = enforce_expression_value(
                machine,
                file_scope,
                function_scope,
                depth,
                Seq::empty(),
                expression,
                span,
            );
            match value.result {
                Err(error) => failed(error, value.machine),
                Ok(yielded) => match value.machine.program.get(scope(function_scope, name.name)) {
                    None => failed(
                        ExpressionErrorView::UndefinedIdentifier(name.name, span),
                        value.machine,
                    ),
                    Some(old) => match promote(
                        yielded,
                        old,
                        span,
                        value.machine.program.modulus,
                    ) {
                        Err(error) => failed(error, value.machine),
                        Ok((new, previous)) => {
                            let chosen = assigned(
                                indicator,
                                new,
                                previous,
                                span,
                                value.machine.sink,
                            );
                            let after = Machine {
                                program: value.machine.program,
                                sink: chosen.sink,
                            };
                            match chosen.result {
                                Err(error) => failed(error, after),
                                Ok(result) => done(
                                    None,
                                    Machine {
                                        program: value.machine.program.store(
                                            scope(function_scope, name.name),
                                            result,
                                        ),
                                        sink: chosen.sink,
                                    },
                                ),
                            }
                        },
                    },
                },
            }
        },
        StatementView::Conditional(condition, first, second, span) => {
            let resolved = enforce_expression(
                machine,
                file_scope,
                function_scope,
                depth,
                seq![TypeView::Boolean],
                condition,
            );
            match resolved.result {
                Err(error) => failed(error, resolved.machine),
                Ok(ConstrainedValueView::Boolean(holds)) => {
                    let taken = conjunction(indicator, holds, span, resolved.machine.sink);
                    let then = enforce_statements(
                        Machine { program: resolved.machine.program, sink: taken.1 },
                        file_scope,
                        function_scope,
                        depth,
                        outputs,
                        taken.0,
                        first,
                        first.len(),
                    );
                    match then.result {
                        Ok(None) => {
                            let fails = complement(holds, span, then.machine.sink);
                            let other = conjunction(indicator, fails.0, span, fails.1);
                            enforce_statements(
                                Machine { program: then.machine.program, sink: other.1 },
                                file_scope,
                                function_scope,
                                depth,
                                outputs,
                                other.0,
                                second,
                                second.len(),
                            )
                        },
                        _ => then,
                    }
                },
                Ok(value) => failed(
                    ExpressionErrorView::ConditionalBoolean(value.text(), span),
                    resolved.machine,
                ),
            }
        },
        StatementView::Iteration(_, from, to, _, span) => {
            let lower = enforce_index(machine, file_scope, function_scope, depth, from, span);
            match lower.result {
                Err(error) => failed(error, lower.machine),
                Ok(from_resolved) => {
                    let upper = enforce_index(
                        lower.machine,
                        file_scope,
                        function_scope,
                        depth,
                        to,
                        span,
                    );
                    match upper.result {
                        Err(error) => failed(error, upper.machine),
                        Ok(to_resolved) => iterate(
                            upper.machine,
                            file_scope,
                            function_scope,
                            depth,
                            outputs,
                            indicator,
                            statement,
                            from_resolved,
                            to_resolved,
                        ),
                    }
                },
            }
        },
    }
}

/// What the rounds of an iteration for the indices from `from` up to `to` come to.
/// Each round stores its index, an unsigned integer of 32 bits, under the name of the
/// iteration in the function's scope, and runs the statements of the iteration.
#[verifier::opaque]
pub open spec fn iterate(
    machine: Machine,
    file_scope: Seq<char>,
    function_scope: Seq<char>,
    depth: nat,
    outputs: Seq<TypeView>,
    indicator: BooleanValue,
    statement: StatementView,
    from: usize,
    to: usize,
) -> Evaluated<Option<ConstrainedValueView>>
    decreases depth, 1nat, statement, (if to > from {
            1 + to - from
        } else {
            1
        }) as nat,
{
    match statement {
        StatementView::Iteration(index, _, _, statements, _) => {
            if to <= from {
                done(None, machine)
            } else {
                let before = iterate(
                    machine,
                    file_scope,
                    function_scope,
                    depth,
                    outputs,
                    indicator,
                    statement,
                    from,
                    (to - 1) as usize,
                );
                match before.result {
                    Ok(None) => enforce_statements(
                        Machine {
                            program: before.machine.program.store(
                                scope(function_scope, index.name),
                                ConstrainedValueView::Integer(
                                    IntegerView::Constant(IntegerKind::U32, to - 1),
                                ),
                            ),
                            sink: before.machine.sink,
                        },
                        file_scope,
                        function_scope,
                        depth,
                        outputs,
                        indicator,
                        statements,
                        statements.len(),
                    ),
                    _ => before,
                }
            }
        },
        _ => arbitrary(),
    }
}

/// What a call of a function returns. Calls may nest `depth` deep and no deeper. The
/// arguments, as many as the function has parameters, are bound; the body runs in the
/// scope of the function, inside `outer_scope`; and a body that ends without a return
/// returns nothing where the function declares no return type, and fails otherwise.
#[verifier::opaque]
pub open spec fn enforce_function(
    machine: Machine,
    outer_scope: Seq<char>,
    caller_scope: Seq<char>,
    depth: nat,
    function: FunctionView,
    arguments: Seq<ExpressionView>,
    span: Span,
) -> Evaluated<ConstrainedValueView>
    decreases depth, 0nat, arguments, arguments.len() + 1,
{
    if depth == 0 {
        failed(ExpressionErrorView::RecursionLimit(span), machine)
    } else if function.inputs.len() != arguments.len() {
        failed(
            ExpressionErrorView::InvalidLength(
                function.inputs.len() as usize,
                arguments.len() as usize,
                span,
            ),
            machine,
        )
    } else {
        let function_name = scope(outer_scope, function.function_name.name);
        let bound = bind_arguments(
            machine,
            outer_scope,
            caller_scope,
            depth,
            function_name,
            function.inputs,
            arguments,
            arguments.len(),
        );
        match bound.result {
            Err(error) => failed(error, bound.machine),
            Ok(_) => {
                let body = enforce_statements(
                    bound.machine,
                    outer_scope,
                    function_name,
                    (depth - 1) as nat,
                    function.returns,
                    BooleanValue::Constant(true),
                    function.statements,
                    function.statements.len(),
                );
                match body.result {
                    Err(error) => failed(error, body.machine),
                    Ok(Some(value)) => done(value, body.machine),
                    Ok(None) => if function.returns.len() == 0 {
                        done(ConstrainedValueView::Return(Seq::empty()), body.machine)
                    } else {
                        failed(
                            ExpressionErrorView::FunctionNoReturn(
                                function.function_name.name,
                                function.span,
                            ),
                            body.machine,
                        )
                    },
                }
            },
        }
    }
}

/// Once an element of an array literal fails, the failure is that of every longer run.
pub proof fn lemma_array_elements_fail(
    machine: Machine,
    file_scope: Seq<char>,
    function_scope: Seq<char>,
    depth: nat,
    expected: Seq<TypeView>,
    elements: Seq<SpreadOrExpressionView>,
    span: Span,
    count: nat,
    longer: nat,
)
    requires
        count <= longer <= elements.len(),
        array_elements(
            machine,
            file_scope,
            function_scope,
            depth,
            expected,
            elements,
            span,
            count,
        ).result is Err,
    ensures
        array_elements(machine, file_scope, function_scope, depth, expected, elements, span, longer)
            == array_elements(
            machine,
            file_scope,
            function_scope,
            depth,
            expected,
            elements,
            span,
            count,
        ),
    decreases longer - count,
{
    reveal(array_elements);
    if count < longer {
        lemma_array_elements_fail(
            machine,
            file_scope,
            function_scope,
            depth,
            expected,
            elements,
            span,
            count,
            (longer - 1) as nat,
        );
    }
}

/// Once a member of an instance fails, the failure is that of every longer run.
pub proof fn lemma_circuit_members_fail(
    machine: Machine,
    file_scope: Seq<char>,
    function_scope: Seq<char>,
    depth: nat,
    circuit: CircuitView,
    given: Seq<CircuitFieldDefinitionView>,
    span: Span,
    count: nat,
    longer: nat,
)
    requires
        count <= longer <= circuit.members.len(),
        circuit_members(
            machine,
            file_scope,
            function_scope,
            depth,
            circuit,
            given,
            span,
            count,
        ).result is Err,
    ensures
        circuit_members(machine, file_scope, function_scope, depth, circuit, given, span, longer)
            == circuit_members(
            machine,
            file_scope,
            function_scope,
            depth,
            circuit,
            given,
            span,
            count,
        ),
    decreases longer - count,
{
    reveal(circuit_members);
    if count < longer {
        lemma_circuit_members_fail(
            machine,
            file_scope,
            function_scope,
            depth,
            circuit,
            given,
            span,
            count,
            (longer - 1) as nat,
        );
    }
}

/// Once an argument fails, the failure is that of every longer run.
pub proof fn lemma_bind_arguments_fail(
    machine: Machine,
    file_scope: Seq<char>,
    caller_scope: Seq<char>,
    depth: nat,
    function_scope: Seq<char>,
    inputs: Seq<FunctionInputView>,
    arguments: Seq<ExpressionView>,
    count: nat,
    longer: nat,
)
    requires
        count <= longer <= arguments.len(),
        longer <= inputs.len(),
        bind_arguments(
            machine,
            file_scope,
            caller_scope,
            depth,
            function_scope,
            inputs,
            arguments,
            count,
        ).result is Err,
    ensures
        bind_arguments(
            machine,
            file_scope,
            caller_scope,
            depth,
            function_scope,
            inputs,
            arguments,
            longer,
        ) == bind_arguments(
            machine,
            file_scope,
            caller_scope,
            depth,
            function_scope,
            inputs,
            arguments,
            count,
        ),
    decreases longer - count,
{
    reveal(bind_arguments);
    if count < longer {
        lemma_bind_arguments_fail(
            machine,
            file_scope,
            caller_scope,
            depth,
            function_scope,
            inputs,
            arguments,
            count,
            (longer - 1) as nat,
        );
    }
}

/// Once an expression of a return statement fails, the failure is that of every
/// longer run.
pub proof fn lemma_return_values_fail(
    machine: Machine,
    file_scope: Seq<char>,
    function_scope: Seq<char>,
    depth: nat,
    outputs: Seq<TypeView>,
    expressions: Seq<ExpressionView>,
    span: Span,
    count: nat,
    longer: nat,
)
    requires
        count <= longer <= expressions.len(),
        longer <= outputs.len(),
        return_values(
            machine,
            file_scope,
            function_scope,
            depth,
            outputs,
            expressions,
            span,
            count,
        ).result is Err,
    ensures
        return_values(
            machine,
            file_scope,
            function_scope,
            depth,
            outputs,
            expressions,
            span,
            longer,
        ) == return_values(
            machine,
            file_scope,
            function_scope,
            depth,
            outputs,
            expressions,
            span,
            count,
        ),
    decreases longer - count,
{
    reveal(return_values);
    if count < longer {
        lemma_return_values_fail(
            machine,
            file_scope,
            function_scope,
            depth,
            outputs,
            expressions,
            span,
            count,
            (longer - 1) as nat,
        );
    }
}

/// Once a statement has failed or returned, no later statement changes that.
pub proof fn lemma_enforce_statements_end(
    machine: Machine,
    file_scope: Seq<char>,
    function_scope: Seq<char>,
    depth: nat,
    outputs: Seq<TypeView>,
    indicator: BooleanValue,
    statements: Seq<StatementView>,
    count: nat,
    longer: nat,
)
    requires
        count <= longer <= statements.len(),
        enforce_statements(
            machine,
            file_scope,
            function_scope,
            depth,
            outputs,
            indicator,
            statements,
            count,
        ).result != Ok::<Option<ConstrainedValueView>, ExpressionErrorView>(None),
    ensures
        enforce_statements(
            machine,
            file_scope,
            function_scope,
            depth,
            outputs,
            indicator,
            statements,
            longer,
        ) == enforce_statements(
            machine,
            file_scope,
            function_scope,
            depth,
            outputs,
            indicator,
            statements,
            count,
        ),
    decreases longer - count,
{
    reveal(enforce_statements);
    if count < longer {
        lemma_enforce_statements_end(
            machine,
            file_scope,
            function_scope,
            depth,
            outputs,
            indicator,
            statements,
            count,
            (longer - 1) as nat,
        );
    }
}

/// Once a round of an iteration has failed or returned, no later round changes that.
pub proof fn lemma_iterate_end(
    machine: Machine,
    file_scope: Seq<char>,
    function_scope: Seq<char>,
    depth: nat,
    outputs: Seq<TypeView>,
    indicator: BooleanValue,
    statement: StatementView,
    from: usize,
    to: usize,
    later: usize,
)
    requires
        statement is Iteration,
        from <= to <= later,
        iterate(
            machine,
            file_scope,
            function_scope,
            depth,
            outputs,
            indicator,
            statement,
            from,
            to,
        ).result != Ok::<Option<ConstrainedValueView>, ExpressionErrorView>(None),
    ensures
        iterate(
            machine,
            file_scope,
            function_scope,
            depth,
            outputs,
            indicator,
            statement,
            from,
            later,
        ) == iterate(
            machine,
            file_scope,
            function_scope,
            depth,
            outputs,
            indicator,
            statement,
            from,
            to,
        ),
    decreases later - to,
{
    reveal(iterate);
    if to < later {
        lemma_iterate_end(
            machine,
            file_scope,
            function_scope,
            depth,
            outputs,
            indicator,
            statement,
            from,
            to,
            (later - 1) as usize,
        );
    }
}

/// A value that came out of an evaluation against the context is of what the context
/// expects: held against it once more, it comes out unchanged.
pub proof fn lemma_enforced_value_is_resolved(
    machine: Machine,
    file_scope: Seq<char>,
    function_scope: Seq<char>,
    depth: nat,
    expected: Seq<TypeView>,
    expression: ExpressionView,
    span: Span,
)
    requires
        enforce_expression_value(
            machine,
            file_scope,
            function_scope,
            depth,
            expected,
            expression,
            span,
        ).result is Ok,
    ensures
        ({
            let evaluated = enforce_expression_value(
                machine,
                file_scope,
                function_scope,
                depth,
                expected,
                expression,
                span,
            );
            resolve_type(
                evaluated.result->Ok_0,
                expected,
                span,
                evaluated.machine.program.modulus,
            ) == evaluated.result
        }),
{
    reveal(enforce_expression_value);
    reveal(enforce_expression);
    let branch = enforce_expression(
        machine,
        file_scope,
        function_scope,
        depth,
        expected,
        expression,
    );
    lemma_resolve_type_idempotent(
        branch.result->Ok_0,
        expected,
        span,
        branch.machine.program.modulus,
    );
}

/// The value of an identifier is of what the context expects: held against it once
/// more, it comes out unchanged.
pub proof fn lemma_identifier_is_resolved(
    program: ConstrainedProgramView,
    file_scope: Seq<char>,
    function_scope: Seq<char>,
    expected: Seq<TypeView>,
    identifier: IdentifierView,
)
    requires
        evaluate_identifier(program, file_scope, function_scope, expected, identifier) is Ok,
    ensures
        resolve_type(
            evaluate_identifier(program, file_scope, function_scope, expected, identifier)->Ok_0,
            expected,
            identifier.span,
            program.modulus,
        ) == evaluate_identifier(program, file_scope, function_scope, expected, identifier),
{
    lemma_resolve_type_idempotent(
        program.resolve(file_scope, function_scope, identifier.name)->0,
        expected,
        identifier.span,
        program.modulus,
    );
}

/// A bare number evaluated where an integer kind is expected is the integer literal of
/// that kind with the same digits: both are the same value, or the same error.
pub proof fn lemma_implicit_is_typed_literal(
    machine: Machine,
    file_scope: Seq<char>,
    function_scope: Seq<char>,
    depth: nat,
    expected: Seq<TypeView>,
    kind: IntegerKind,
    text: Seq<char>,
    span: Span,
)
    ensures
        enforce_expression(
            machine,
            file_scope,
            function_scope,
            depth,
            seq![TypeView::Integer(kind)],
            ExpressionView::Implicit(text, span),
        ) == enforce_expression(
            machine,
            file_scope,
            function_scope,
            depth,
            expected,
            ExpressionView::Literal(LiteralView::Integer(kind, text, span)),
        ),
{
    reveal(enforce_expression);
}

/// An array accessed at an index that lies inside it gives the element at that index.
pub proof fn lemma_array_access_gives_element(
    machine: Machine,
    file_scope: Seq<char>,
    function_scope: Seq<char>,
    depth: nat,
    array: ExpressionView,
    index: ExpressionView,
    span: Span,
)
    requires
        enforce_expression_value(
            machine,
            file_scope,
            function_scope,
            depth,
            Seq::empty(),
            array,
            span,
        ).result matches Ok(ConstrainedValueView::Array(values)) && (enforce_index(
            enforce_expression_value(
                machine,
                file_scope,
                function_scope,
                depth,
                Seq::empty(),
                array,
                span,
            ).machine,
            file_scope,
            function_scope,
            depth,
            index,
            span,
        ).result matches Ok(position) && position < values.len()),
    ensures
        ({
            let base = enforce_expression_value(
                machine,
                file_scope,
                function_scope,
                depth,
                Seq::empty(),
                array,
                span,
            );
            let position = enforce_index(
                base.machine,
                file_scope,
                function_scope,
                depth,
                index,
                span,
            );
            enforce_array_access_expression(
                machine,
                file_scope,
                function_scope,
                depth,
                ExpressionView::ArrayAccess(
                    Box::new(array),
                    Box::new(RangeOrExpressionView::Expression(index)),
                    span,
                ),
            ) == done(
                base.result->Ok_0->Array_0[position.result->Ok_0 as int],
                position.machine,
            )
        }),
{
    reveal(enforce_array_access_expression);
    reveal(enforce_expression_value);
    reveal(enforce_index);
}

/// A static member cannot be read through an instance, and the attempt stores nothing.
pub proof fn lemma_static_member_is_not_read(
    program: ConstrainedProgramView,
    file_scope: Seq<char>,
    name: IdentifierView,
    members: Seq<ConstrainedCircuitMemberView>,
    member: IdentifierView,
    span: Span,
)
    requires
        find_member(members, member.name, 0) matches Some(position) && members[position as int].1
            is Static,
    ensures
        member_access(program, file_scope, name, members, member, span).0 matches Err(
            ExpressionErrorView::InvalidStaticAccess(_, _),
        ),
        member_access(program, file_scope, name, members, member, span).1 == program,
{
}

/// Once a returned value fails against its type, the failure is that of every longer
/// run.
pub proof fn lemma_resolve_each_fail(
    values: Seq<ConstrainedValueView>,
    declared: Seq<TypeView>,
    span: Span,
    modulus: nat,
    count: nat,
    longer: nat,
)
    requires
        count <= longer <= values.len(),
        resolve_each(values, declared, span, modulus, count) is Err,
    ensures
        resolve_each(values, declared, span, modulus, longer) == resolve_each(
            values,
            declared,
            span,
            modulus,
            count,
        ),
    decreases longer - count,
{
    if count < longer {
        lemma_resolve_each_fail(values, declared, span, modulus, count, (longer - 1) as nat);
    }
}

/// A run of returned values that all pass is as long as the run.
pub proof fn lemma_resolve_each_length(
    values: Seq<ConstrainedValueView>,
    declared: Seq<TypeView>,
    span: Span,
    modulus: nat,
    count: nat,
)
    requires
        count <= values.len(),
    ensures
        resolve_each(values, declared, span, modulus, count) matches Ok(resolved)
            ==> resolved.len() == count,
    decreases count,
{
    if count > 0 {
        lemma_resolve_each_length(values, declared, span, modulus, (count - 1) as nat);
    }
}

/// Evaluation is deterministic. What an expression evaluates to, what its evaluation
/// leaves in the table and every record that it leaves in the sink depend on the
/// machine, the scopes, the depth, the context and the expression, and on nothing else:
/// two evaluations that start alike end alike.
pub proof fn lemma_evaluation_is_deterministic(
    first: Machine,
    second: Machine,
    file_scope: Seq<char>,
    function_scope: Seq<char>,
    depth: nat,
    expected: Seq<TypeView>,
    expression: ExpressionView,
)
    requires
        first.program == second.program,
        first.sink == second.sink,
    ensures
        enforce_expression(first, file_scope, function_scope, depth, expected, expression)
            == enforce_expression(
            second,
            file_scope,
            function_scope,
            depth,
            expected,
            expression,
        ),
{
}

/// A field that is found is found among the fields given.
pub proof fn lemma_find_definition_bound(
    given: Seq<CircuitFieldDefinitionView>,
    name: Seq<char>,
    from: nat,
)
    ensures
        find_definition(given, name, from) matches Some(position) ==> from <= position
            < given.len(),
    decreases given.len() - from,
{
    if from < given.len() && given[from as int].identifier.name != name {
        lemma_find_definition_bound(given, name, from + 1);
    }
}

/// The name under which a member of a circuit is declared.
pub open spec fn declared_name(member: CircuitMemberView) -> IdentifierView {
    match member {
        CircuitMemberView::CircuitField(identifier, _) => identifier,
        CircuitMemberView::CircuitFunction(_, function) => function.function_name,
    }
}

/// An instance has the members of its circuit, in the order of their declaration and
/// under the names of their declaration. Its functions are those of the circuit, each
/// carried with the circuit's name, and the static ones are marked as static.
pub proof fn lemma_instance_keeps_declared_order(
    machine: Machine,
    file_scope: Seq<char>,
    function_scope: Seq<char>,
    depth: nat,
    circuit: CircuitView,
    given: Seq<CircuitFieldDefinitionView>,
    span: Span,
    count: nat,
)
    requires
        count <= circuit.members.len(),
        circuit_members(
            machine,
            file_scope,
            function_scope,
            depth,
            circuit,
            given,
            span,
            count,
        ).result is Ok,
    ensures
        ({
            let members = circuit_members(
                machine,
                file_scope,
                function_scope,
                depth,
                circuit,
                given,
                span,
                count,
            ).result->Ok_0;
            &&& members.len() == count
            &&& forall|i: int|
                0 <= i < count ==> (#[trigger] members[i]).0 == declared_name(circuit.members[i])
            &&& forall|i: int|
                0 <= i < count ==> (circuit.members[i] matches CircuitMemberView::CircuitFunction(
                    is_static,
                    function,
                ) ==> (#[trigger] members[i]).1 == (if is_static {
                    ConstrainedValueView::Static(
                        Box::new(
                            ConstrainedValueView::Function(Some(circuit.circuit_name), function),
                        ),
                    )
                } else {
                    ConstrainedValueView::Function(Some(circuit.circuit_name), function)
                }))
        }),
    decreases count,
{
    reveal(circuit_members);
    reveal(enforce_expression);
    if count > 0 {
        lemma_instance_keeps_declared_order(
            machine,
            file_scope,
            function_scope,
            depth,
            circuit,
            given,
            span,
            (count - 1) as nat,
        );
        let before = circuit_members(
            machine,
            file_scope,
            function_scope,
            depth,
            circuit,
            given,
            span,
            (count - 1) as nat,
        ).result->Ok_0;
        let members = circuit_members(
            machine,
            file_scope,
            function_scope,
            depth,
            circuit,
            given,
            span,
            count,
        ).result->Ok_0;
        match circuit.members[count - 1] {
            CircuitMemberView::CircuitField(identifier, _) => {
                lemma_find_definition_bound(given, identifier.name, 0);
            },
            _ => {},
        }
        assert(members.len() == count);
        assert forall|i: int| 0 <= i < count - 1 implies members[i] == before[i] by {}
    }
}

} // verus!
