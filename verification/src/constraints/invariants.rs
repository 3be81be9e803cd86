//! What no evaluation undoes: records stay in the sink, names stay in the table, and
//! the field and the current namespace are the same after an evaluation as before it.

use crate::ast::{
    BinaryOperation, CircuitFieldDefinitionView, CircuitMemberView, CircuitView, ExpressionView,
    FunctionInputView, FunctionView, IdentifierView, RangeOrExpressionView, SpreadOrExpressionView,
    StatementView,
};
use crate::constraints::evaluation::{
    apply, array_elements, assigned, bind_arguments, call_name, circuit_members, complement,
    conjunction, element_context, enforce_array_access_expression, enforce_array_expression,
    enforce_binary_expression, enforce_circuit_access_expression, enforce_circuit_expression,
    enforce_circuit_static_access_expression, enforce_conditional_expression, enforce_expression,
    enforce_expression_value, enforce_function, enforce_function_call_expression, enforce_index,
    enforce_statement, enforce_statements, find_definition, iterate, lemma_find_definition_bound,
    Machine, member_access, operand_context, resolve_each, return_values, store_each, store_fields,
};
use crate::constraints::program::scope;
use crate::constraints::resolve::{extract_circuit, extract_function};
use crate::constraints::semantics::{
    lemma_no_unresolved_operand, lemma_operations_extend_sink, negation, promote, selection, typed,
};
use crate::constraints::value::{BooleanValue, ConstrainedCircuitMemberView, ConstrainedValueView};
use crate::integer::IntegerView;
use crate::span::Span;
use crate::types::{IntegerKind, TypeView};
use vstd::prelude::*;

verus! {

/// Whether `after` holds all that `before` holds, and what it holds more is sound: every
/// record of the sink and every entry of the table is kept, each in its place; the
/// namespace and the field are the same; and no record that was added has an untyped
/// number among its operands.
pub open spec fn grows(before: Machine, after: Machine) -> bool {
    &&& before.sink.extended_by(after.sink)
    &&& after.sink.prefix == before.sink.prefix
    &&& after.program.modulus == before.program.modulus
    &&& before.program.identifiers.len() <= after.program.identifiers.len()
    &&& after.program.identifiers.subrange(0, before.program.identifiers.len() as int)
        == before.program.identifiers
    &&& forall|i: int|
        before.sink.constraints.len() <= i < after.sink.constraints.len() ==> typed(
            #[trigger] after.sink.constraints[i],
        )
}

/// A machine holds all that it holds.
pub proof fn lemma_grows_reflexive(machine: Machine)
    ensures
        grows(machine, machine),
{
    assert(machine.sink.constraints.subrange(0, machine.sink.constraints.len() as int)
        =~= machine.sink.constraints);
    assert(machine.program.identifiers.subrange(0, machine.program.identifiers.len() as int)
        =~= machine.program.identifiers);
}

/// What a later machine holds of an earlier one, a still later one holds too.
pub proof fn lemma_grows_transitive(first: Machine, second: Machine, third: Machine)
    requires
        grows(first, second),
        grows(second, third),
    ensures
        grows(first, third),
{
    assert(third.sink.constraints.subrange(0, first.sink.constraints.len() as int)
        =~= first.sink.constraints) by {
        assert forall|i: int| 0 <= i < first.sink.constraints.len() implies third.sink.constraints[i]
            == first.sink.constraints[i] by {
            assert(second.sink.constraints.subrange(
                0,
                first.sink.constraints.len() as int,
            )[i] == first.sink.constraints[i]);
            assert(third.sink.constraints.subrange(
                0,
                second.sink.constraints.len() as int,
            )[i] == second.sink.constraints[i]);
        }
    }
    assert forall|i: int|
        first.sink.constraints.len() <= i < third.sink.constraints.len() implies typed(
        #[trigger] third.sink.constraints[i],
    ) by {
        if i < second.sink.constraints.len() {
            assert(third.sink.constraints.subrange(
                0,
                second.sink.constraints.len() as int,
            )[i] == second.sink.constraints[i]);
        }
    }
    assert(third.program.identifiers.subrange(0, first.program.identifiers.len() as int)
        =~= first.program.identifiers) by {
        assert forall|i: int|
            0 <= i < first.program.identifiers.len() implies third.program.identifiers[i]
            == first.program.identifiers[i] by {
            assert(second.program.identifiers.subrange(
                0,
                first.program.identifiers.len() as int,
            )[i] == first.program.identifiers[i]);
            assert(third.program.identifiers.subrange(
                0,
                second.program.identifiers.len() as int,
            )[i] == second.program.identifiers[i]);
        }
    }
}

/// Storing a value takes nothing away.
pub proof fn lemma_store_grows(machine: Machine, name: Seq<char>, value: ConstrainedValueView)
    ensures
        grows(machine, Machine { program: machine.program.store(name, value), sink: machine.sink }),
{
    lemma_grows_reflexive(machine);
    assert(machine.program.store(name, value).identifiers.subrange(
        0,
        machine.program.identifiers.len() as int,
    ) =~= machine.program.identifiers);
}

/// An operation on values takes nothing away.
pub proof fn lemma_apply_grows(
    operation: BinaryOperation,
    left: ConstrainedValueView,
    right: ConstrainedValueView,
    span: Span,
    machine: Machine,
)
    ensures
        grows(
            machine,
            Machine {
                program: machine.program,
                sink: apply(
                    operation,
                    left,
                    right,
                    span,
                    machine.program.modulus,
                    machine.sink,
                ).sink,
            },
        ),
        grows(
            machine,
            Machine { program: machine.program, sink: negation(left, span, machine.sink).sink },
        ),
{
    lemma_grows_reflexive(machine);
    lemma_operations_extend_sink(
        operation,
        BooleanValue::Constant(true),
        left,
        right,
        span,
        machine.program.modulus,
        machine.sink,
    );
    lemma_no_unresolved_operand(
        operation,
        BooleanValue::Constant(true),
        left,
        right,
        span,
        machine.program.modulus,
        machine.sink,
    );
}

/// A selection takes nothing away.
pub proof fn lemma_selection_grows(
    condition: BooleanValue,
    second: ConstrainedValueView,
    third: ConstrainedValueView,
    span: Span,
    machine: Machine,
)
    ensures
        grows(
            machine,
            Machine {
                program: machine.program,
                sink: selection(condition, second, third, span, machine.sink).sink,
            },
        ),
{
    lemma_grows_reflexive(machine);
    lemma_operations_extend_sink(
        BinaryOperation::Add,
        condition,
        second,
        third,
        span,
        machine.program.modulus,
        machine.sink,
    );
    lemma_no_unresolved_operand(
        BinaryOperation::Add,
        condition,
        second,
        third,
        span,
        machine.program.modulus,
        machine.sink,
    );
}

/// Storing the fields of an instance takes nothing away.
pub proof fn lemma_store_fields_grows(
    machine: Machine,
    function_scope: Seq<char>,
    members: Seq<ConstrainedCircuitMemberView>,
    count: nat,
)
    ensures
        grows(
            machine,
            Machine {
                program: store_fields(machine.program, function_scope, members, count),
                sink: machine.sink,
            },
        ),
    decreases count,
{
    lemma_grows_reflexive(machine);
    if count == 0 || count > members.len() {
    } else {
        lemma_store_fields_grows(machine, function_scope, members, (count - 1) as nat);
        let before = Machine {
            program: store_fields(machine.program, function_scope, members, (count - 1) as nat),
            sink: machine.sink,
        };
        let member = members[count - 1];
        lemma_store_grows(before, scope(function_scope, member.0.name), member.1);
        lemma_grows_reflexive(before);
        lemma_grows_transitive(
            machine,
            before,
            Machine {
                program: store_fields(machine.program, function_scope, members, count),
                sink: machine.sink,
            },
        );
    }
}

/// The evaluation of an expression takes nothing away.
pub proof fn lemma_enforce_expression_grows(
    machine: Machine,
    file_scope: Seq<char>,
    function_scope: Seq<char>,
    depth: nat,
    expected: Seq<TypeView>,
    expression: ExpressionView,
)
    ensures
        grows(
            machine,
            enforce_expression(
                machine,
                file_scope,
                function_scope,
                depth,
                expected,
                expression,
            ).machine,
        ),
    decreases depth, 0nat, expression, 1nat,
{
    reveal(enforce_expression);
    lemma_grows_reflexive(machine);
    match expression {
        ExpressionView::Binary(operation, _, _, span) => {
            reveal(enforce_binary_expression);
            let context = operand_context(operation, expected);
            let operands = enforce_binary_expression(
                machine,
                file_scope,
                function_scope,
                depth,
                context,
                expression,
            );
            lemma_enforce_binary_expression_grows(
                machine,
                file_scope,
                function_scope,
                depth,
                context,
                expression,
            );
            match operands.result {
                Ok((left, right)) => {
                    lemma_apply_grows(operation, left, right, span, operands.machine);
                    lemma_grows_transitive(
                        machine,
                        operands.machine,
                        enforce_expression(
                            machine,
                            file_scope,
                            function_scope,
                            depth,
                            expected,
                            expression,
                        ).machine,
                    );
                },
                Err(_) => {},
            }
        },
        ExpressionView::Not(inner, span) => {
            let operand = enforce_expression(
                machine,
                file_scope,
                function_scope,
                depth,
                expected,
                *inner,
            );
            lemma_enforce_expression_grows(
                machine,
                file_scope,
                function_scope,
                depth,
                expected,
                *inner,
            );
            match operand.result {
                Ok(value) => {
                    lemma_apply_grows(BinaryOperation::Add, value, value, span, operand.machine);
                    lemma_grows_transitive(
                        machine,
                        operand.machine,
                        enforce_expression(
                            machine,
                            file_scope,
                            function_scope,
                            depth,
                            expected,
                            expression,
                        ).machine,
                    );
                },
                Err(_) => {},
            }
        },
        ExpressionView::IfElse(_, _, _, _) => {
            reveal(enforce_conditional_expression);
            lemma_enforce_conditional_expression_grows(
                machine,
                file_scope,
                function_scope,
                depth,
                expected,
                expression,
            );
        },
        ExpressionView::Array(_, _) => {
            reveal(enforce_array_expression);
            lemma_enforce_array_expression_grows(
                machine,
                file_scope,
                function_scope,
                depth,
                expected,
                expression,
            );
        },
        ExpressionView::ArrayAccess(_, _, _) => {
            reveal(enforce_array_access_expression);
            lemma_enforce_array_access_expression_grows(
                machine,
                file_scope,
                function_scope,
                depth,
                expression,
            );
        },
        ExpressionView::Circuit(_, _, _) => {
            reveal(enforce_circuit_expression);
            lemma_enforce_circuit_expression_grows(
                machine,
                file_scope,
                function_scope,
                depth,
                expression,
            );
        },
        ExpressionView::CircuitMemberAccess(_, _, _) => {
            reveal(enforce_circuit_access_expression);
            lemma_enforce_circuit_access_expression_grows(
                machine,
                file_scope,
                function_scope,
                depth,
                expression,
            );
        },
        ExpressionView::CircuitStaticFunctionAccess(_, _, _) => {
            reveal(enforce_circuit_static_access_expression);
            lemma_enforce_circuit_static_access_expression_grows(
                machine,
                file_scope,
                function_scope,
                depth,
                expected,
                expression,
            );
        },
        ExpressionView::FunctionCall(_, _, _) => {
            reveal(enforce_function_call_expression);
            lemma_enforce_function_call_expression_grows(
                machine,
                file_scope,
                function_scope,
                depth,
                expected,
                expression,
            );
        },
        _ => {},
    }
}

/// The evaluation of an expression against the context takes nothing away.
pub proof fn lemma_enforce_expression_value_grows(
    machine: Machine,
    file_scope: Seq<char>,
    function_scope: Seq<char>,
    depth: nat,
    expected: Seq<TypeView>,
    expression: ExpressionView,
    span: Span,
)
    ensures
        grows(
            machine,
            enforce_expression_value(
                machine,
                file_scope,
                function_scope,
                depth,
                expected,
                expression,
                span,
            ).machine,
        ),
    decreases depth, 0nat, expression, 2nat,
{
    reveal(enforce_expression_value);
    reveal(enforce_expression);
    lemma_enforce_expression_grows(
        machine,
        file_scope,
        function_scope,
        depth,
        expected,
        expression,
    );
}

/// The evaluation of two operands takes nothing away.
pub proof fn lemma_enforce_binary_expression_grows(
    machine: Machine,
    file_scope: Seq<char>,
    function_scope: Seq<char>,
    depth: nat,
    expected: Seq<TypeView>,
    expression: ExpressionView,
)
    requires
        expression is Binary,
    ensures
        grows(
            machine,
            enforce_binary_expression(
                machine,
                file_scope,
                function_scope,
                depth,
                expected,
                expression,
            ).machine,
        ),
    decreases depth, 0nat, expression, 0nat,
{
    reveal(enforce_binary_expression);
    reveal(enforce_expression_value);
    match expression {
        ExpressionView::Binary(_, left, right, span) => {
            let first = enforce_expression_value(
                machine,
                file_scope,
                function_scope,
                depth,
                expected,
                *left,
                span,
            );
            lemma_enforce_expression_value_grows(
                machine,
                file_scope,
                function_scope,
                depth,
                expected,
                *left,
                span,
            );
            let second = enforce_expression_value(
                first.machine,
                file_scope,
                function_scope,
                depth,
                expected,
                *right,
                span,
            );
            lemma_enforce_expression_value_grows(
                first.machine,
                file_scope,
                function_scope,
                depth,
                expected,
                *right,
                span,
            );
            lemma_grows_transitive(machine, first.machine, second.machine);
        },
        _ => {},
    }
}

/// The evaluation of a conditional takes nothing away.
pub proof fn lemma_enforce_conditional_expression_grows(
    machine: Machine,
    file_scope: Seq<char>,
    function_scope: Seq<char>,
    depth: nat,
    expected: Seq<TypeView>,
    expression: ExpressionView,
)
    requires
        expression is IfElse,
    ensures
        grows(
            machine,
            enforce_conditional_expression(
                machine,
                file_scope,
                function_scope,
                depth,
                expected,
                expression,
            ).machine,
        ),
    decreases depth, 0nat, expression, 0nat,
{
    reveal(enforce_conditional_expression);
    reveal(enforce_expression_value);
    reveal(enforce_expression);
    match expression {
        ExpressionView::IfElse(first, second, third, span) => {
            let condition = enforce_expression(
                machine,
                file_scope,
                function_scope,
                depth,
                seq![TypeView::Boolean],
                *first,
            );
            lemma_enforce_expression_grows(
                machine,
                file_scope,
                function_scope,
                depth,
                seq![TypeView::Boolean],
                *first,
            );
            let chosen = enforce_expression_value(
                condition.machine,
                file_scope,
                function_scope,
                depth,
                expected,
                *second,
                span,
            );
            lemma_enforce_expression_value_grows(
                condition.machine,
                file_scope,
                function_scope,
                depth,
                expected,
                *second,
                span,
            );
            lemma_grows_transitive(machine, condition.machine, chosen.machine);
            let other = enforce_expression_value(
                chosen.machine,
                file_scope,
                function_scope,
                depth,
                expected,
                *third,
                span,
            );
            lemma_enforce_expression_value_grows(
                chosen.machine,
                file_scope,
                function_scope,
                depth,
                expected,
                *third,
                span,
            );
            lemma_grows_transitive(machine, chosen.machine, other.machine);
            match (condition.result, chosen.result, other.result) {
                (
                    Ok(ConstrainedValueView::Boolean(boolean)),
                    Ok(resolved_second),
                    Ok(resolved_third),
                ) => {
                    lemma_selection_grows(
                        boolean,
                        resolved_second,
                        resolved_third,
                        span,
                        other.machine,
                    );
                    lemma_grows_transitive(
                        machine,
                        other.machine,
                        enforce_conditional_expression(
                            machine,
                            file_scope,
                            function_scope,
                            depth,
                            expected,
                            expression,
                        ).machine,
                    );
                },
                _ => {},
            }
        },
        _ => {},
    }
}

/// The evaluation of the elements of an array literal takes nothing away.
pub proof fn lemma_array_elements_grows(
    machine: Machine,
    file_scope: Seq<char>,
    function_scope: Seq<char>,
    depth: nat,
    expected: Seq<TypeView>,
    elements: Seq<SpreadOrExpressionView>,
    span: Span,
    count: nat,
)
    ensures
        grows(
            machine,
            array_elements(
                machine,
                file_scope,
                function_scope,
                depth,
                expected,
                elements,
                span,
                count,
            ).machine,
        ),
    decreases depth, 0nat, elements, count,
{
    reveal(array_elements);
    reveal(enforce_expression);
    lemma_grows_reflexive(machine);
    if count == 0 || count > elements.len() {
    } else {
        let before = array_elements(
            machine,
            file_scope,
            function_scope,
            depth,
            expected,
            elements,
            span,
            (count - 1) as nat,
        );
        lemma_array_elements_grows(
            machine,
            file_scope,
            function_scope,
            depth,
            expected,
            elements,
            span,
            (count - 1) as nat,
        );
        match elements[count - 1] {
            SpreadOrExpressionView::Expression(element) => {
                lemma_enforce_expression_grows(
                    before.machine,
                    file_scope,
                    function_scope,
                    depth,
                    expected,
                    element,
                );
                lemma_grows_transitive(
                    machine,
                    before.machine,
                    enforce_expression(
                        before.machine,
                        file_scope,
                        function_scope,
                        depth,
                        expected,
                        element,
                    ).machine,
                );
            },
            _ => {},
        }
    }
}

/// The evaluation of an array literal takes nothing away.
pub proof fn lemma_enforce_array_expression_grows(
    machine: Machine,
    file_scope: Seq<char>,
    function_scope: Seq<char>,
    depth: nat,
    expected: Seq<TypeView>,
    expression: ExpressionView,
)
    requires
        expression is Array,
    ensures
        grows(
            machine,
            enforce_array_expression(
                machine,
                file_scope,
                function_scope,
                depth,
                expected,
                expression,
            ).machine,
        ),
    decreases depth, 0nat, expression, 0nat,
{
    reveal(enforce_array_expression);
    reveal(array_elements);
    lemma_grows_reflexive(machine);
    match expression {
        ExpressionView::Array(elements, span) => {
            match element_context(expected, span) {
                Ok((inner, _)) => {
                    lemma_array_elements_grows(
                        machine,
                        file_scope,
                        function_scope,
                        depth,
                        inner,
                        elements,
                        span,
                        elements.len(),
                    );
                },
                Err(_) => {},
            }
        },
        _ => {},
    }
}

/// The evaluation of an index takes nothing away.
pub proof fn lemma_enforce_index_grows(
    machine: Machine,
    file_scope: Seq<char>,
    function_scope: Seq<char>,
    depth: nat,
    index: ExpressionView,
    span: Span,
)
    ensures
        grows(
            machine,
            enforce_index(machine, file_scope, function_scope, depth, index, span).machine,
        ),
    decreases depth, 0nat, index, 3nat,
{
    reveal(enforce_index);
    reveal(enforce_expression_value);
    lemma_enforce_expression_value_grows(
        machine,
        file_scope,
        function_scope,
        depth,
        seq![TypeView::Integer(IntegerKind::U32)],
        index,
        span,
    );
}

/// The evaluation of an array access takes nothing away.
pub proof fn lemma_enforce_array_access_expression_grows(
    machine: Machine,
    file_scope: Seq<char>,
    function_scope: Seq<char>,
    depth: nat,
    expression: ExpressionView,
)
    requires
        expression is ArrayAccess,
    ensures
        grows(
            machine,
            enforce_array_access_expression(
                machine,
                file_scope,
                function_scope,
                depth,
                expression,
            ).machine,
        ),
    decreases depth, 0nat, expression, 0nat,
{
    reveal(enforce_array_access_expression);
    reveal(enforce_expression_value);
    reveal(enforce_index);
    match expression {
        ExpressionView::ArrayAccess(array, index, span) => {
            let base = enforce_expression_value(
                machine,
                file_scope,
                function_scope,
                depth,
                Seq::empty(),
                *array,
                span,
            );
            lemma_enforce_expression_value_grows(
                machine,
                file_scope,
                function_scope,
                depth,
                Seq::empty(),
                *array,
                span,
            );
            lemma_grows_reflexive(base.machine);
            match *index {
                RangeOrExpressionView::Range(from, to) => {
                    let lower = match from {
                        Some(from_index) => {
                            lemma_enforce_index_grows(
                                base.machine,
                                file_scope,
                                function_scope,
                                depth,
                                from_index,
                                span,
                            );
                            enforce_index(
                                base.machine,
                                file_scope,
                                function_scope,
                                depth,
                                from_index,
                                span,
                            ).machine
                        },
                        None => base.machine,
                    };
                    lemma_grows_transitive(machine, base.machine, lower);
                    lemma_grows_reflexive(lower);
                    let upper = match to {
                        Some(to_index) => {
                            lemma_enforce_index_grows(
                                lower,
                                file_scope,
                                function_scope,
                                depth,
                                to_index,
                                span,
                            );
                            enforce_index(
                                lower,
                                file_scope,
                                function_scope,
                                depth,
                                to_index,
                                span,
                            ).machine
                        },
                        None => lower,
                    };
                    lemma_grows_transitive(machine, lower, upper);
                },
                RangeOrExpressionView::Expression(position) => {
                    lemma_enforce_index_grows(
                        base.machine,
                        file_scope,
                        function_scope,
                        depth,
                        position,
                        span,
                    );
                    lemma_grows_transitive(
                        machine,
                        base.machine,
                        enforce_index(
                            base.machine,
                            file_scope,
                            function_scope,
                            depth,
                            position,
                            span,
                        ).machine,
                    );
                },
            }
        },
        _ => {},
    }
}

/// The evaluation of the members of an instance takes nothing away.
pub proof fn lemma_circuit_members_grows(
    machine: Machine,
    file_scope: Seq<char>,
    function_scope: Seq<char>,
    depth: nat,
    circuit: CircuitView,
    given: Seq<CircuitFieldDefinitionView>,
    span: Span,
    count: nat,
)
    ensures
        grows(
            machine,
            circuit_members(
                machine,
                file_scope,
                function_scope,
                depth,
                circuit,
                given,
                span,
                count,
            ).machine,
        ),
    decreases depth, 0nat, given, count,
{
    reveal(circuit_members);
    reveal(enforce_expression);
    lemma_grows_reflexive(machine);
    if count == 0 || count > circuit.members.len() {
    } else {
        let before = circuit_members(
            machine,
            file_scope,
            function_scope,
            depth,
            circuit,
            given,
            span,
            (count - 1) as nat,
        );
        lemma_circuit_members_grows(
            machine,
            file_scope,
            function_scope,
            depth,
            circuit,
            given,
            span,
            (count - 1) as nat,
        );
        match circuit.members[count - 1] {
            CircuitMemberView::CircuitField(identifier, type_) => {
                lemma_find_definition_bound(given, identifier.name, 0);
                match find_definition(given, identifier.name, 0) {
                    Some(position) => {
                        lemma_enforce_expression_grows(
                            before.machine,
                            file_scope,
                            function_scope,
                            depth,
                            seq![type_],
                            given[position as int].expression,
                        );
                        lemma_grows_transitive(
                            machine,
                            before.machine,
                            enforce_expression(
                                before.machine,
                                file_scope,
                                function_scope,
                                depth,
                                seq![type_],
                                given[position as int].expression,
                            ).machine,
                        );
                    },
                    None => {},
                }
            },
            _ => {},
        }
    }
}

/// The evaluation of a circuit instantiation takes nothing away.
pub proof fn lemma_enforce_circuit_expression_grows(
    machine: Machine,
    file_scope: Seq<char>,
    function_scope: Seq<char>,
    depth: nat,
    expression: ExpressionView,
)
    requires
        expression is Circuit,
    ensures
        grows(
            machine,
            enforce_circuit_expression(
                machine,
                file_scope,
                function_scope,
                depth,
                expression,
            ).machine,
        ),
    decreases depth, 0nat, expression, 0nat,
{
    reveal(enforce_circuit_expression);
    reveal(circuit_members);
    lemma_grows_reflexive(machine);
    match expression {
        ExpressionView::Circuit(identifier, given, span) => {
            let key = if identifier.name == "Self"@ {
                file_scope
            } else {
                scope(file_scope, identifier.name)
            };
            match machine.program.get(key) {
                Some(value) => match extract_circuit(value, span) {
                    Ok(circuit) => {
                        lemma_circuit_members_grows(
                            machine,
                            file_scope,
                            function_scope,
                            depth,
                            circuit,
                            given,
                            span,
                            circuit.members.len(),
                        );
                    },
                    Err(_) => {},
                },
                None => {},
            }
        },
        _ => {},
    }
}

/// Reading a member of an instance takes nothing away.
pub proof fn lemma_enforce_circuit_access_expression_grows(
    machine: Machine,
    file_scope: Seq<char>,
    function_scope: Seq<char>,
    depth: nat,
    expression: ExpressionView,
)
    requires
        expression is CircuitMemberAccess,
    ensures
        grows(
            machine,
            enforce_circuit_access_expression(
                machine,
                file_scope,
                function_scope,
                depth,
                expression,
            ).machine,
        ),
    decreases depth, 0nat, expression, 0nat,
{
    reveal(enforce_circuit_access_expression);
    reveal(enforce_expression_value);
    match expression {
        ExpressionView::CircuitMemberAccess(circuit, member, span) => {
            let base = enforce_expression_value(
                machine,
                file_scope,
                function_scope,
                depth,
                Seq::empty(),
                *circuit,
                span,
            );
            lemma_enforce_expression_value_grows(
                machine,
                file_scope,
                function_scope,
                depth,
                Seq::empty(),
                *circuit,
                span,
            );
            lemma_grows_reflexive(base.machine);
            match base.result {
                Ok(ConstrainedValueView::CircuitExpression(name, members)) => {
                    let read = member_access(
                        base.machine.program,
                        file_scope,
                        name,
                        members,
                        member,
                        span,
                    );
                    let after = Machine { program: read.1, sink: base.machine.sink };
                    assert(grows(base.machine, after)) by {
                        assert forall|member_scope: Seq<char>|
                            grows(
                                base.machine,
                                Machine {
                                    program: #[trigger] store_fields(
                                        base.machine.program,
                                        member_scope,
                                        members,
                                        members.len(),
                                    ),
                                    sink: base.machine.sink,
                                },
                            ) by {
                            lemma_store_fields_grows(
                                base.machine,
                                member_scope,
                                members,
                                members.len(),
                            );
                        }
                    }
                    lemma_grows_transitive(machine, base.machine, after);
                },
                _ => {},
            }
        },
        _ => {},
    }
}

/// Reaching a member through the type takes nothing away.
pub proof fn lemma_enforce_circuit_static_access_expression_grows(
    machine: Machine,
    file_scope: Seq<char>,
    function_scope: Seq<char>,
    depth: nat,
    expected: Seq<TypeView>,
    expression: ExpressionView,
)
    requires
        expression is CircuitStaticFunctionAccess,
    ensures
        grows(
            machine,
            enforce_circuit_static_access_expression(
                machine,
                file_scope,
                function_scope,
                depth,
                expected,
                expression,
            ).machine,
        ),
    decreases depth, 0nat, expression, 0nat,
{
    reveal(enforce_circuit_static_access_expression);
    reveal(enforce_expression);
    match expression {
        ExpressionView::CircuitStaticFunctionAccess(circuit, _, _) => {
            lemma_enforce_expression_grows(
                machine,
                file_scope,
                function_scope,
                depth,
                expected,
                *circuit,
            );
        },
        _ => {},
    }
}

/// A call takes nothing away, and leaves the namespace that it was made in.
pub proof fn lemma_enforce_function_call_expression_grows(
    machine: Machine,
    file_scope: Seq<char>,
    function_scope: Seq<char>,
    depth: nat,
    expected: Seq<TypeView>,
    expression: ExpressionView,
)
    requires
        expression is FunctionCall,
    ensures
        grows(
            machine,
            enforce_function_call_expression(
                machine,
                file_scope,
                function_scope,
                depth,
                expected,
                expression,
            ).machine,
        ),
    decreases depth, 0nat, expression, 0nat,
{
    reveal(enforce_function_call_expression);
    reveal(enforce_expression);
    reveal(enforce_function);
    match expression {
        ExpressionView::FunctionCall(function, arguments, span) => {
            let callee = enforce_expression(
                machine,
                file_scope,
                function_scope,
                depth,
                expected,
                *function,
            );
            lemma_enforce_expression_grows(
                machine,
                file_scope,
                function_scope,
                depth,
                expected,
                *function,
            );
            match callee.result {
                Ok(value) => match extract_function(value, file_scope, span) {
                    Ok((outer_scope, function_call)) => {
                        let inside = Machine {
                            program: callee.machine.program,
                            sink: callee.machine.sink.enter(
                                call_name(function_call.function_name.name, span),
                            ),
                        };
                        let call = enforce_function(
                            inside,
                            outer_scope,
                            function_scope,
                            depth,
                            function_call,
                            arguments,
                            span,
                        );
                        lemma_enforce_function_grows(
                            inside,
                            outer_scope,
                            function_scope,
                            depth,
                            function_call,
                            arguments,
                            span,
                        );
                        let outside = Machine {
                            program: call.machine.program,
                            sink: call.machine.sink.leave(callee.machine.sink.prefix),
                        };
                        assert(grows(callee.machine, outside));
                        lemma_grows_transitive(machine, callee.machine, outside);
                    },
                    Err(_) => {},
                },
                Err(_) => {},
            }
        },
        _ => {},
    }
}

/// Binding the arguments of a call takes nothing away.
pub proof fn lemma_bind_arguments_grows(
    machine: Machine,
    file_scope: Seq<char>,
    caller_scope: Seq<char>,
    depth: nat,
    function_scope: Seq<char>,
    inputs: Seq<FunctionInputView>,
    arguments: Seq<ExpressionView>,
    count: nat,
)
    ensures
        grows(
            machine,
            bind_arguments(
                machine,
                file_scope,
                caller_scope,
                depth,
                function_scope,
                inputs,
                arguments,
                count,
            ).machine,
        ),
    decreases depth, 0nat, arguments, count,
{
    reveal(bind_arguments);
    reveal(enforce_expression);
    lemma_grows_reflexive(machine);
    if count == 0 || count > arguments.len() || count > inputs.len() {
    } else {
        let before = bind_arguments(
            machine,
            file_scope,
            caller_scope,
            depth,
            function_scope,
            inputs,
            arguments,
            (count - 1) as nat,
        );
        lemma_bind_arguments_grows(
            machine,
            file_scope,
            caller_scope,
            depth,
            function_scope,
            inputs,
            arguments,
            (count - 1) as nat,
        );
        let value = enforce_expression(
            before.machine,
            file_scope,
            caller_scope,
            depth,
            seq![inputs[count - 1].type_],
            arguments[count - 1],
        );
        lemma_enforce_expression_grows(
            before.machine,
            file_scope,
            caller_scope,
            depth,
            seq![inputs[count - 1].type_],
            arguments[count - 1],
        );
        lemma_grows_transitive(machine, before.machine, value.machine);
        match value.result {
            Ok(argument) => {
                lemma_store_grows(
                    value.machine,
                    scope(function_scope, inputs[count - 1].identifier.name),
                    argument,
                );
                lemma_grows_transitive(
                    machine,
                    value.machine,
                    Machine {
                        program: value.machine.program.store(
                            scope(function_scope, inputs[count - 1].identifier.name),
                            argument,
                        ),
                        sink: value.machine.sink,
                    },
                );
            },
            Err(_) => {},
        }
    }
}

/// The evaluation of the expressions of a return statement takes nothing away.
pub proof fn lemma_return_values_grows(
    machine: Machine,
    file_scope: Seq<char>,
    function_scope: Seq<char>,
    depth: nat,
    outputs: Seq<TypeView>,
    expressions: Seq<ExpressionView>,
    span: Span,
    count: nat,
)
    ensures
        grows(
            machine,
            return_values(
                machine,
                file_scope,
                function_scope,
                depth,
                outputs,
                expressions,
                span,
                count,
            ).machine,
        ),
    decreases depth, 0nat, expressions, count,
{
    reveal(return_values);
    reveal(enforce_expression_value);
    lemma_grows_reflexive(machine);
    if count == 0 || count > expressions.len() || count > outputs.len() {
    } else {
        let before = return_values(
            machine,
            file_scope,
            function_scope,
            depth,
            outputs,
            expressions,
            span,
            (count - 1) as nat,
        );
        lemma_return_values_grows(
            machine,
            file_scope,
            function_scope,
            depth,
            outputs,
            expressions,
            span,
            (count - 1) as nat,
        );
        lemma_enforce_expression_value_grows(
            before.machine,
            file_scope,
            function_scope,
            depth,
            seq![outputs[count - 1]],
            expressions[count - 1],
            span,
        );
        lemma_grows_transitive(
            machine,
            before.machine,
            enforce_expression_value(
                before.machine,
                file_scope,
                function_scope,
                depth,
                seq![outputs[count - 1]],
                expressions[count - 1],
                span,
            ).machine,
        );
    }
}

/// Storing the values that a call returned takes nothing away.
pub proof fn lemma_store_each_grows(
    machine: Machine,
    function_scope: Seq<char>,
    names: Seq<IdentifierView>,
    values: Seq<ConstrainedValueView>,
    count: nat,
)
    ensures
        grows(
            machine,
            Machine {
                program: store_each(machine.program, function_scope, names, values, count),
                sink: machine.sink,
            },
        ),
    decreases count,
{
    lemma_grows_reflexive(machine);
    if count == 0 || count > names.len() || count > values.len() {
    } else {
        lemma_store_each_grows(machine, function_scope, names, values, (count - 1) as nat);
        let before = Machine {
            program: store_each(machine.program, function_scope, names, values, (count - 1) as nat),
            sink: machine.sink,
        };
        lemma_store_grows(
            before,
            scope(function_scope, names[count - 1].name),
            values[count - 1],
        );
        lemma_grows_transitive(
            machine,
            before,
            Machine {
                program: store_each(machine.program, function_scope, names, values, count),
                sink: machine.sink,
            },
        );
    }
}

/// The conditions of the branches of a conditional take nothing away.
pub proof fn lemma_conditions_grow(
    indicator: BooleanValue,
    condition: BooleanValue,
    span: Span,
    machine: Machine,
)
    ensures
        grows(
            machine,
            Machine {
                program: machine.program,
                sink: conjunction(indicator, condition, span, machine.sink).1,
            },
        ),
        grows(
            machine,
            Machine { program: machine.program, sink: complement(condition, span, machine.sink).1 },
        ),
{
    lemma_grows_reflexive(machine);
    lemma_operations_extend_sink(
        BinaryOperation::And,
        indicator,
        ConstrainedValueView::Boolean(indicator),
        ConstrainedValueView::Boolean(condition),
        span,
        machine.program.modulus,
        machine.sink,
    );
    lemma_operations_extend_sink(
        BinaryOperation::And,
        indicator,
        ConstrainedValueView::Boolean(condition),
        ConstrainedValueView::Boolean(condition),
        span,
        machine.program.modulus,
        machine.sink,
    );
    lemma_no_unresolved_operand(
        BinaryOperation::And,
        indicator,
        ConstrainedValueView::Boolean(indicator),
        ConstrainedValueView::Boolean(condition),
        span,
        machine.program.modulus,
        machine.sink,
    );
    lemma_no_unresolved_operand(
        BinaryOperation::And,
        indicator,
        ConstrainedValueView::Boolean(condition),
        ConstrainedValueView::Boolean(condition),
        span,
        machine.program.modulus,
        machine.sink,
    );
}

/// The statements of a list take nothing away.
pub proof fn lemma_enforce_statements_grows(
    machine: Machine,
    file_scope: Seq<char>,
    function_scope: Seq<char>,
    depth: nat,
    outputs: Seq<TypeView>,
    indicator: BooleanValue,
    statements: Seq<StatementView>,
    count: nat,
)
    ensures
        grows(
            machine,
            enforce_statements(
                machine,
                file_scope,
                function_scope,
                depth,
                outputs,
                indicator,
                statements,
                count,
            ).machine,
        ),
    decreases depth, 1nat, statements, count,
{
    reveal(enforce_statements);
    reveal(enforce_statement);
    lemma_grows_reflexive(machine);
    if count == 0 || count > statements.len() {
    } else {
        let before = enforce_statements(
            machine,
            file_scope,
            function_scope,
            depth,
            outputs,
            indicator,
            statements,
            (count - 1) as nat,
        );
        lemma_enforce_statements_grows(
            machine,
            file_scope,
            function_scope,
            depth,
            outputs,
            indicator,
            statements,
            (count - 1) as nat,
        );
        lemma_enforce_statement_grows(
            before.machine,
            file_scope,
            function_scope,
            depth,
            outputs,
            indicator,
            statements[count - 1],
        );
        lemma_grows_transitive(
            machine,
            before.machine,
            enforce_statement(
                before.machine,
                file_scope,
                function_scope,
                depth,
                outputs,
                indicator,
                statements[count - 1],
            ).machine,
        );
    }
}

/// A statement takes nothing away.
pub proof fn lemma_enforce_statement_grows(
    machine: Machine,
    file_scope: Seq<char>,
    function_scope: Seq<char>,
    depth: nat,
    outputs: Seq<TypeView>,
    indicator: BooleanValue,
    statement: StatementView,
)
    ensures
        grows(
            machine,
            enforce_statement(
                machine,
                file_scope,
                function_scope,
                depth,
                outputs,
                indicator,
                statement,
            ).machine,
        ),
    decreases depth, 1nat, statement, (usize::MAX + 2) as nat,
{
    reveal(enforce_statement);
    lemma_grows_reflexive(machine);
    match statement {
        StatementView::Return(expressions, span) => {
            reveal(return_values);
            lemma_return_values_grows(
                machine,
                file_scope,
                function_scope,
                depth,
                outputs,
                expressions,
                span,
                expressions.len(),
            );
        },
        StatementView::Definition(names, declared, expression, span) => {
            reveal(enforce_expression_value);
            reveal(enforce_expression);
            if names.len() == 1 {
                let value = enforce_expression_value(
                    machine,
                    file_scope,
                    function_scope,
                    depth,
                    declared,
                    expression,
                    span,
                );
                lemma_enforce_expression_value_grows(
                    machine,
                    file_scope,
                    function_scope,
                    depth,
                    declared,
                    expression,
                    span,
                );
                match value.result {
                    Ok(yielded) => {
                        lemma_store_grows(
                            value.machine,
                            scope(function_scope, names[0].name),
                            yielded,
                        );
                        lemma_grows_transitive(
                            machine,
                            value.machine,
                            Machine {
                                program: value.machine.program.store(
                                    scope(function_scope, names[0].name),
                                    yielded,
                                ),
                                sink: value.machine.sink,
                            },
                        );
                    },
                    Err(_) => {},
                }
            } else {
                let value = enforce_expression(
                    machine,
                    file_scope,
                    function_scope,
                    depth,
                    declared,
                    expression,
                );
                lemma_enforce_expression_grows(
                    machine,
                    file_scope,
                    function_scope,
                    depth,
                    declared,
                    expression,
                );
                match value.result {
                    Ok(ConstrainedValueView::Return(values)) => {
                        match resolve_each(
                            values,
                            declared,
                            span,
                            value.machine.program.modulus,
                            values.len(),
                        ) {
                            Ok(resolved) => {
                                lemma_store_each_grows(
                                    value.machine,
                                    function_scope,
                                    names,
                                    resolved,
                                    names.len(),
                                );
                                lemma_grows_transitive(
                                    machine,
                                    value.machine,
                                    Machine {
                                        program: store_each(
                                            value.machine.program,
                                            function_scope,
                                            names,
                                            resolved,
                                            names.len(),
                                        ),
                                        sink: value.machine.sink,
                                    },
                                );
                            },
                            Err(_) => {},
                        }
                    },
                    _ => {},
                }
            }
        },
        StatementView::Assign(name, expression, span) => {
            reveal(enforce_expression_value);
            let value = enforce_expression_value(
                machine,
                file_scope,
                function_scope,
                depth,
                Seq::empty(),
                expression,
                span,
            );
            lemma_enforce_expression_value_grows(
                machine,
                file_scope,
                function_scope,
                depth,
                Seq::empty(),
                expression,
                span,
            );
            lemma_grows_reflexive(value.machine);
            match value.result {
                Ok(yielded) => match value.machine.program.get(scope(function_scope, name.name)) {
                    Some(old) => match promote(yielded, old, span, value.machine.program.modulus) {
                        Ok((new, previous)) => {
                            let chosen = assigned(
                                indicator,
                                new,
                                previous,
                                span,
                                value.machine.sink,
                            );
                            let after = Machine {
                                program: value.machine.program,
                                sink: chosen.sink,
                            };
                            lemma_selection_grows(indicator, new, previous, span, value.machine);
                            lemma_grows_transitive(machine, value.machine, after);
                            match chosen.result {
                                Ok(result) => {
                                    lemma_store_grows(
                                        after,
                                        scope(function_scope, name.name),
                                        result,
                                    );
                                    lemma_grows_transitive(
                                        machine,
                                        after,
                                        Machine {
                                            program: value.machine.program.store(
                                                scope(function_scope, name.name),
                                                result,
                                            ),
                                            sink: chosen.sink,
                                        },
                                    );
                                },
                                Err(_) => {},
                            }
                        },
                        Err(_) => {},
                    },
                    None => {},
                },
                Err(_) => {},
            }
        },
        StatementView::Conditional(condition, first, second, span) => {
            reveal(enforce_expression);
            reveal(enforce_statements);
            let resolved = enforce_expression(
                machine,
                file_scope,
                function_scope,
                depth,
                seq![TypeView::Boolean],
                condition,
            );
            lemma_enforce_expression_grows(
                machine,
                file_scope,
                function_scope,
                depth,
                seq![TypeView::Boolean],
                condition,
            );
            match resolved.result {
                Ok(ConstrainedValueView::Boolean(holds)) => {
                    let taken = conjunction(indicator, holds, span, resolved.machine.sink);
                    let inside = Machine { program: resolved.machine.program, sink: taken.1 };
                    lemma_conditions_grow(indicator, holds, span, resolved.machine);
                    lemma_grows_transitive(machine, resolved.machine, inside);
                    let then = enforce_statements(
                        inside,
                        file_scope,
                        function_scope,
                        depth,
                        outputs,
                        taken.0,
                        first,
                        first.len(),
                    );
                    lemma_enforce_statements_grows(
                        inside,
                        file_scope,
                        function_scope,
                        depth,
                        outputs,
                        taken.0,
                        first,
                        first.len(),
                    );
                    lemma_grows_transitive(machine, inside, then.machine);
                    let fails = complement(holds, span, then.machine.sink);
                    let between = Machine { program: then.machine.program, sink: fails.1 };
                    lemma_conditions_grow(indicator, holds, span, then.machine);
                    lemma_grows_transitive(machine, then.machine, between);
                    let other = conjunction(indicator, fails.0, span, fails.1);
                    let outside = Machine { program: then.machine.program, sink: other.1 };
                    lemma_conditions_grow(indicator, fails.0, span, between);
                    lemma_grows_transitive(machine, between, outside);
                    lemma_enforce_statements_grows(
                        outside,
                        file_scope,
                        function_scope,
                        depth,
                        outputs,
                        other.0,
                        second,
                        second.len(),
                    );
                    lemma_grows_transitive(
                        machine,
                        outside,
                        enforce_statements(
                            outside,
                            file_scope,
                            function_scope,
                            depth,
                            outputs,
                            other.0,
                            second,
                            second.len(),
                        ).machine,
                    );
                },
                _ => {},
            }
        },
        StatementView::Iteration(_, from, to, _, span) => {
            reveal(enforce_index);
            reveal(iterate);
            let lower = enforce_index(machine, file_scope, function_scope, depth, from, span);
            lemma_enforce_index_grows(machine, file_scope, function_scope, depth, from, span);
            let upper = enforce_index(
                lower.machine,
                file_scope,
                function_scope,
                depth,
                to,
                span,
            );
            lemma_enforce_index_grows(
                lower.machine,
                file_scope,
                function_scope,
                depth,
                to,
                span,
            );
            lemma_grows_transitive(machine, lower.machine, upper.machine);
            match (lower.result, upper.result) {
                (Ok(from_resolved), Ok(to_resolved)) => {
                    lemma_iterate_grows(
                        upper.machine,
                        file_scope,
                        function_scope,
                        depth,
                        outputs,
                        indicator,
                        statement,
                        from_resolved,
                        to_resolved,
                    );
                    lemma_grows_transitive(
                        machine,
                        upper.machine,
                        iterate(
                            upper.machine,
                            file_scope,
                            function_scope,
                            depth,
                            outputs,
                            indicator,
                            statement,
                            from_resolved,
                            to_resolved,
                        ).machine,
                    );
                },
                _ => {},
            }
        },
    }
}

/// The rounds of an iteration take nothing away.
pub proof fn lemma_iterate_grows(
    machine: Machine,
    file_scope: Seq<char>,
    function_scope: Seq<char>,
    depth: nat,
    outputs: Seq<TypeView>,
    indicator: BooleanValue,
    statement: StatementView,
    from: usize,
    to: usize,
)
    requires
        statement is Iteration,
    ensures
        grows(
            machine,
            iterate(
                machine,
                file_scope,
                function_scope,
                depth,
                outputs,
                indicator,
                statement,
                from,
                to,
            ).machine,
        ),
    decreases depth, 1nat, statement, (if to > from {
            1 + to - from
        } else {
            1
        }) as nat,
{
    reveal(iterate);
    reveal(enforce_statements);
    lemma_grows_reflexive(machine);
    match statement {
        StatementView::Iteration(index, _, _, statements, _) => {
            if to > from {
                let before = iterate(
                    machine,
                    file_scope,
                    function_scope,
                    depth,
                    outputs,
                    indicator,
                    statement,
                    from,
                    (to - 1) as usize,
                );
                lemma_iterate_grows(
                    machine,
                    file_scope,
                    function_scope,
                    depth,
                    outputs,
                    indicator,
                    statement,
                    from,
                    (to - 1) as usize,
                );
                let value = ConstrainedValueView::Integer(
                    IntegerView::Constant(IntegerKind::U32, to - 1),
                );
                let bound = Machine {
                    program: before.machine.program.store(
                        scope(function_scope, index.name),
                        value,
                    ),
                    sink: before.machine.sink,
                };
                lemma_store_grows(before.machine, scope(function_scope, index.name), value);
                lemma_grows_transitive(machine, before.machine, bound);
                lemma_enforce_statements_grows(
                    bound,
                    file_scope,
                    function_scope,
                    depth,
                    outputs,
                    indicator,
                    statements,
                    statements.len(),
                );
                lemma_grows_transitive(
                    machine,
                    bound,
                    enforce_statements(
                        bound,
                        file_scope,
                        function_scope,
                        depth,
                        outputs,
                        indicator,
                        statements,
                        statements.len(),
                    ).machine,
                );
            }
        },
        _ => {},
    }
}

/// A call of a function takes nothing away.
pub proof fn lemma_enforce_function_grows(
    machine: Machine,
    outer_scope: Seq<char>,
    caller_scope: Seq<char>,
    depth: nat,
    function: FunctionView,
    arguments: Seq<ExpressionView>,
    span: Span,
)
    ensures
        grows(
            machine,
            enforce_function(
                machine,
                outer_scope,
                caller_scope,
                depth,
                function,
                arguments,
                span,
            ).machine,
        ),
    decreases depth, 0nat, arguments, arguments.len() + 1,
{
    reveal(enforce_function);
    reveal(bind_arguments);
    reveal(enforce_statements);
    lemma_grows_reflexive(machine);
    if depth == 0 || function.inputs.len() != arguments.len() {
    } else {
        let function_name = scope(outer_scope, function.function_name.name);
        let bound = bind_arguments(
            machine,
            outer_scope,
            caller_scope,
            depth,
            function_name,
            function.inputs,
            arguments,
            arguments.len(),
        );
        lemma_bind_arguments_grows(
            machine,
            outer_scope,
            caller_scope,
            depth,
            function_name,
            function.inputs,
            arguments,
            arguments.len(),
        );
        lemma_enforce_statements_grows(
            bound.machine,
            outer_scope,
            function_name,
            (depth - 1) as nat,
            function.returns,
            BooleanValue::Constant(true),
            function.statements,
            function.statements.len(),
        );
        lemma_grows_transitive(
            machine,
            bound.machine,
            enforce_statements(
                bound.machine,
                outer_scope,
                function_name,
                (depth - 1) as nat,
                function.returns,
                BooleanValue::Constant(true),
                function.statements,
                function.statements.len(),
            ).machine,
        );
    }
}

} // verus!
