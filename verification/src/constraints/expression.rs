//! The evaluator: every form of expression and of statement is enforced here, and each
//! function is proved to compute what the semantics says of it.

use crate::ast::{
    BinaryOperation, Circuit, CircuitFieldDefinition, CircuitMember, CircuitView, definitions_view,
    elements_view, Expression, expressions_view, Function, Identifier, identifiers_view,
    RangeOrExpression, RangeOrExpressionView, SpreadOrExpression, Statement, statements_view,
};
use crate::constraints::evaluation::{
    array_element, array_elements, array_slice, assigned, bind_arguments, circuit_members,
    complement, conjunction, element_context, enforce_array_access_expression,
    enforce_array_expression, enforce_binary_expression, enforce_circuit_access_expression,
    enforce_circuit_expression, enforce_circuit_static_access_expression,
    enforce_conditional_expression, enforce_expression, enforce_expression_value, enforce_function,
    enforce_function_call_expression, enforce_index, enforce_statement, enforce_statements,
    evaluate_identifier, Evaluated, find_definition, find_function, find_member, index_of, iterate,
    lemma_array_elements_fail, lemma_bind_arguments_fail, lemma_circuit_members_fail,
    lemma_enforce_statements_end, lemma_iterate_end, lemma_resolve_each_fail,
    lemma_resolve_each_length, lemma_return_values_fail, literal_constant, Machine, member_access,
    number_implicit, resolve_each, return_values, returned, static_access, store_each,
    store_fields,
};
use crate::constraints::invariants::{
    grows, lemma_enforce_expression_grows, lemma_enforce_function_grows,
};
use crate::constraints::operation::{
    conditionally_select, enforce_and, enforce_or, evaluate_not, position_text, promote_operands,
};
use crate::constraints::program::{ConstrainedProgram, ConstrainedProgramView, new_scope, scope};
use crate::constraints::resolve::{extract_circuit, outcome};
use crate::constraints::semantics::Enforced;
use crate::constraints::sink::{ConstraintSink, ConstraintSinkView};
use crate::constraints::value::{
    BooleanValue, ConstrainedCircuitMember, ConstrainedCircuitMemberView, ConstrainedValue,
    ConstrainedValueView, duplicate_values, Element, members_view, share, values_view,
};
use crate::errors::{ExpressionError, ExpressionErrorView};
use crate::field::Modulus;
use crate::integer::{Integer, Signed};
use crate::literal::Literal;
use crate::span::Span;
use crate::types::{duplicate_types, IntegerKind, Type, types_view, TypeView};
use std::rc::Rc;
use vstd::pervasive::unreached;
use vstd::prelude::*;
use vstd::string::*;

verus! {

/// The program and the sink together, as the evaluator sees them.
pub open spec fn machine(program: ConstrainedProgramView, sink: ConstraintSinkView) -> Machine {
    Machine { program, sink }
}

/// A list of the one type.
pub fn single(type_: Type) -> (types: Vec<Type>)
    ensures
        types_view(types@) == seq![type_@],
{
    let mut types: Vec<Type> = Vec::new();
    types.push(type_);
    assert(types_view(types@) =~= seq![type_@]);
    types
}

/// A list of no type.
pub fn nothing() -> (types: Vec<Type>)
    ensures
        types_view(types@) == Seq::<TypeView>::empty(),
{
    let types: Vec<Type> = Vec::new();
    assert(types_view(types@) =~= Seq::<TypeView>::empty());
    types
}

/// The constant that a literal is.
pub fn constant_of(literal: &Literal, modulus: &Modulus) -> (result: Result<
    ConstrainedValue,
    ExpressionError,
>)
    ensures
        outcome(result) == literal_constant(literal@, modulus@),
{
    match literal {
        Literal::Address(address, _) => Ok(ConstrainedValue::Address(address.clone())),
        Literal::Boolean(boolean, _) => Ok(
            ConstrainedValue::Boolean(BooleanValue::Constant(*boolean)),
        ),
        Literal::Field(field, span) => ConstrainedValue::from_type(
            field.as_str(),
            &Type::Field,
            *span,
            modulus,
        ),
        Literal::Group(group) => Ok(ConstrainedValue::Group(Element::Constant(group.fmt()))),
        Literal::I8(integer, span) => ConstrainedValue::from_type(
            integer.as_str(),
            &Type::Integer(IntegerKind::I8),
            *span,
            modulus,
        ),
        Literal::I16(integer, span) => ConstrainedValue::from_type(
            integer.as_str(),
            &Type::Integer(IntegerKind::I16),
            *span,
            modulus,
        ),
        Literal::I32(integer, span) => ConstrainedValue::from_type(
            integer.as_str(),
            &Type::Integer(IntegerKind::I32),
            *span,
            modulus,
        ),
        Literal::I64(integer, span) => ConstrainedValue::from_type(
            integer.as_str(),
            &Type::Integer(IntegerKind::I64),
            *span,
            modulus,
        ),
        Literal::I128(integer, span) => ConstrainedValue::from_type(
            integer.as_str(),
            &Type::Integer(IntegerKind::I128),
            *span,
            modulus,
        ),
        Literal::Scalar(scalar, span) => ConstrainedValue::from_type(
            scalar.as_str(),
            &Type::Scalar,
            *span,
            modulus,
        ),
        Literal::String(string, _) => Ok(ConstrainedValue::String(string.clone())),
        Literal::U8(integer, span) => ConstrainedValue::from_type(
            integer.as_str(),
            &Type::Integer(IntegerKind::U8),
            *span,
            modulus,
        ),
        Literal::U16(integer, span) => ConstrainedValue::from_type(
            integer.as_str(),
            &Type::Integer(IntegerKind::U16),
            *span,
            modulus,
        ),
        Literal::U32(integer, span) => ConstrainedValue::from_type(
            integer.as_str(),
            &Type::Integer(IntegerKind::U32),
            *span,
            modulus,
        ),
        Literal::U64(integer, span) => ConstrainedValue::from_type(
            integer.as_str(),
            &Type::Integer(IntegerKind::U64),
            *span,
            modulus,
        ),
        Literal::U128(integer, span) => ConstrainedValue::from_type(
            integer.as_str(),
            &Type::Integer(IntegerKind::U128),
            *span,
            modulus,
        ),
    }
}

/// The index that a value is.
pub fn to_index(value: &ConstrainedValue, span: Span) -> (result: Result<usize, ExpressionError>)
    ensures
        match result {
            Ok(index) => Ok::<usize, ExpressionErrorView>(index),
            Err(error) => Err(error@),
        } == index_of(value@, span),
{
    match value {
        ConstrainedValue::Integer(Integer::Constant(_, number)) => {
            if (!number.negative || number.magnitude == 0) && number.magnitude <= usize::MAX as u128 {
                Ok(number.magnitude as usize)
            } else {
                Err(ExpressionError::IndexOverflow(value.to_string(), span))
            }
        },
        _ => Err(ExpressionError::InvalidIndex(value.to_string(), span)),
    }
}

/// The element of an array at an index.
pub fn element_at(values: &Vec<ConstrainedValue>, index: usize, span: Span) -> (result: Result<
    ConstrainedValue,
    ExpressionError,
>)
    ensures
        outcome(result) == array_element(values_view(values@), index, span),
{
    if index < values.len() {
        Ok(values[index].duplicate())
    } else {
        Err(ExpressionError::IndexOutOfBounds(index, values.len(), span))
    }
}

/// The elements of an array from one index up to another.
pub fn slice_of(values: &Vec<ConstrainedValue>, from: usize, to: usize, span: Span) -> (result:
    Result<ConstrainedValue, ExpressionError>)
    ensures
        outcome(result) == array_slice(values_view(values@), from, to, span),
{
    if to > values.len() {
        return Err(ExpressionError::IndexOutOfBounds(to, values.len(), span));
    }
    if from > to {
        return Err(ExpressionError::IndexOutOfBounds(from, values.len(), span));
    }
    let mut slice: Vec<ConstrainedValue> = Vec::new();
    let mut i: usize = from;
    while i < to
        invariant
            from <= i <= to <= values.len(),
            slice.len() == i - from,
            forall|j: int| 0 <= j < i - from ==> slice[j]@ == values[from + j]@,
        decreases to - i,
    {
        slice.push(values[i].duplicate());
        i += 1;
    }
    assert(values_view(slice@) =~= values_view(values@).subrange(from as int, to as int));
    Ok(ConstrainedValue::Array(slice))
}

/// The position of the first field given that has the name.
pub fn position_of_definition(given: &Vec<CircuitFieldDefinition>, name: &String) -> (result:
    Option<usize>)
    ensures
        match result {
            Some(position) => Some(position as nat),
            None => None,
        } == find_definition(definitions_view(given@), name@, 0),
        result matches Some(position) ==> position < given.len(),
{
    let mut i: usize = 0;
    while i < given.len()
        invariant
            0 <= i <= given.len(),
            find_definition(definitions_view(given@), name@, 0) == find_definition(
                definitions_view(given@),
                name@,
                i as nat,
            ),
        decreases given.len() - i,
    {
        assert(definitions_view(given@)[i as int] == given[i as int]@);
        if given[i].identifier.name == *name {
            return Some(i);
        }
        i += 1;
    }
    None
}

/// The position of the first member of an instance that has the name.
pub fn position_of_member(members: &Vec<ConstrainedCircuitMember>, name: &String) -> (result:
    Option<usize>)
    ensures
        match result {
            Some(position) => Some(position as nat),
            None => None,
        } == find_member(members_view(members@), name@, 0),
        result matches Some(position) ==> position < members.len(),
{
    let mut i: usize = 0;
    while i < members.len()
        invariant
            0 <= i <= members.len(),
            find_member(members_view(members@), name@, 0) == find_member(
                members_view(members@),
                name@,
                i as nat,
            ),
        decreases members.len() - i,
    {
        assert(members_view(members@)[i as int] == members[i as int]@);
        if members[i].0.name == *name {
            return Some(i);
        }
        i += 1;
    }
    None
}

/// What reaching a member through the type gives: the static function of that name.
pub fn static_member(circuit: &Circuit, member: &Identifier, span: Span) -> (result: Result<
    ConstrainedValue,
    ExpressionError,
>)
    ensures
        outcome(result) == static_access(circuit@, member@, span),
{
    let mut i: usize = 0;
    while i < circuit.members.len()
        invariant
            0 <= i <= circuit.members.len(),
            find_function(circuit@.members, member@.name, 0) == find_function(
                circuit@.members,
                member@.name,
                i as nat,
            ),
        decreases circuit.members.len() - i,
    {
        assert(circuit@.members[i as int] == circuit.members[i as int]@);
        match &circuit.members[i] {
            CircuitMember::CircuitFunction(is_static, function) => {
                if function.function_name.name == member.name {
                    if *is_static {
                        return Ok(
                            ConstrainedValue::Function(
                                Some(circuit.circuit_name.duplicate()),
                                share(function),
                            ),
                        );
                    } else {
                        return Err(
                            ExpressionError::InvalidMemberAccess(
                                function.function_name.name.clone(),
                                span,
                            ),
                        );
                    }
                }
            },
            _ => {},
        }
        i += 1;
    }
    Err(
        ExpressionError::UndefinedMemberAccess(
            circuit.circuit_name.name.clone(),
            member.name.clone(),
            span,
        ),
    )
}

/// What a call hands to its caller.
pub fn unwrap_return(value: ConstrainedValue, function: &str, span: Span) -> (result: Result<
    ConstrainedValue,
    ExpressionError,
>)
    ensures
        outcome(result) == returned(value@, function@, span),
{
    match value {
        ConstrainedValue::Return(values) => {
            if values.len() == 1 {
                assert(values_view(values@)[0] == values[0]@);
                Ok(values[0].duplicate())
            } else {
                assert(values_view(values@).len() == values.len());
                Ok(ConstrainedValue::Return(values))
            }
        },
        _ => Err(ExpressionError::FunctionNoReturn(String::from_str(function), span)),
    }
}

/// What a run of statements stands for.
pub open spec fn ended(result: Result<Option<ConstrainedValue>, ExpressionError>) -> Result<
    Option<ConstrainedValueView>,
    ExpressionErrorView,
> {
    match result {
        Ok(Some(value)) => Ok(Some(value@)),
        Ok(None) => Ok(None),
        Err(error) => Err(error@),
    }
}

/// The condition of a branch: the conjunction of the condition around it and its own.
pub fn indicator_and(
    cs: &mut ConstraintSink,
    indicator: BooleanValue,
    condition: BooleanValue,
    span: Span,
) -> (result: BooleanValue)
    ensures
        (result, final(cs)@) == conjunction(indicator, condition, span, old(cs)@),
{
    match enforce_and(
        cs,
        &ConstrainedValue::Boolean(indicator),
        &ConstrainedValue::Boolean(condition),
        span,
    ) {
        Ok(ConstrainedValue::Boolean(result)) => result,
        _ => unreached(),
    }
}

/// The condition of a second branch: the complement of the condition of the first.
pub fn indicator_not(cs: &mut ConstraintSink, condition: BooleanValue, span: Span) -> (result:
    BooleanValue)
    ensures
        (result, final(cs)@) == complement(condition, span, old(cs)@),
{
    match evaluate_not(cs, &ConstrainedValue::Boolean(condition), span) {
        Ok(ConstrainedValue::Boolean(result)) => result,
        _ => unreached(),
    }
}

/// The value that a name has after an assignment under a condition.
pub fn assign_under(
    cs: &mut ConstraintSink,
    indicator: BooleanValue,
    value: ConstrainedValue,
    previous: ConstrainedValue,
    span: Span,
) -> (result: Result<ConstrainedValue, ExpressionError>)
    ensures
        (Enforced { result: outcome(result), sink: final(cs)@ }) == assigned(
            indicator,
            value@,
            previous@,
            span,
            old(cs)@,
        ),
{
    match indicator {
        BooleanValue::Constant(true) => Ok(value),
        BooleanValue::Constant(false) => Ok(previous),
        BooleanValue::Allocated(_) => conditionally_select(cs, indicator, value, previous, span),
    }
}

impl ConstrainedProgram {
    /// Evaluates an identifier: the value that the scopes hold under its name, held
    /// against what the context expects.
    pub fn evaluate_identifier(
        &self,
        file_scope: &str,
        function_scope: &str,
        expected_types: &Vec<Type>,
        unresolved_identifier: &Identifier,
    ) -> (result: Result<ConstrainedValue, ExpressionError>)
        ensures
            outcome(result) == evaluate_identifier(
                self@,
                file_scope@,
                function_scope@,
                types_view(expected_types@),
                unresolved_identifier@,
            ),
    {
        // the function's scope first
        let variable_name = new_scope(function_scope, unresolved_identifier.name.as_str());
        let identifier_name = new_scope(file_scope, unresolved_identifier.name.as_str());
        let value = match self.get(variable_name.as_str()) {
            Some(value) => value,
            None => match self.get(identifier_name.as_str()) {
                // then the file's scope
                Some(value) => value,
                None => match self.get(unresolved_identifier.name.as_str()) {
                    // then the bare name
                    Some(value) => value,
                    None => {
                        return Err(
                            ExpressionError::UndefinedIdentifier(
                                unresolved_identifier.name.clone(),
                                unresolved_identifier.span,
                            ),
                        );
                    },
                },
            },
        };
        value.resolve_type(expected_types, unresolved_identifier.span, &self.modulus)
    }

    /// The value of a bare number under what the context expects.
    pub fn enforce_number_implicit(
        expected_types: &Vec<Type>,
        value: &str,
        span: Span,
        modulus: &Modulus,
    ) -> (result: Result<ConstrainedValue, ExpressionError>)
        ensures
            outcome(result) == number_implicit(types_view(expected_types@), value@, span, modulus@),
    {
        if expected_types.len() == 1 {
            return ConstrainedValue::from_type(value, &expected_types[0], span, modulus);
        }
        Ok(ConstrainedValue::Unresolved(String::from_str(value)))
    }

    /// Reads a member of an instance.
    pub fn access_member(
        &mut self,
        file_scope: &str,
        circuit_name: &Identifier,
        members: &Vec<ConstrainedCircuitMember>,
        circuit_member: &Identifier,
        span: Span,
    ) -> (result: Result<ConstrainedValue, ExpressionError>)
        ensures
            (outcome(result), final(self)@) == member_access(
                old(self)@,
                file_scope@,
                circuit_name@,
                members_view(members@),
                circuit_member@,
                span,
            ),
    {
        let position = match position_of_member(members, &circuit_member.name) {
            Some(position) => position,
            None => {
                return Err(
                    ExpressionError::UndefinedMemberAccess(
                        circuit_name.name.clone(),
                        circuit_member.name.clone(),
                        span,
                    ),
                );
            },
        };
        let ghost views = members_view(members@);
        assert(views[position as int] == members[position as int]@);
        match &members[position].1 {
            ConstrainedValue::Function(_, _) => {
                // the function finds the fields of its instance in its own scope
                let circuit_scope = new_scope(file_scope, circuit_name.name.as_str());
                let function_scope = new_scope(
                    circuit_scope.as_str(),
                    members[position].0.name.as_str(),
                );
                let mut i: usize = 0;
                while i < members.len()
                    invariant
                        0 <= i <= members.len(),
                        views == members_view(members@),
                        self@ == store_fields(old(self)@, function_scope@, views, i as nat),
                    decreases members.len() - i,
                {
                    assert(views[i as int] == members[i as int]@);
                    match &members[i].1 {
                        ConstrainedValue::Function(_, _) => {},
                        ConstrainedValue::Static(_) => {},
                        value => {
                            let field = new_scope(
                                function_scope.as_str(),
                                members[i].0.name.as_str(),
                            );
                            self.store(field, value.duplicate());
                        },
                    }
                    i += 1;
                }
                Ok(members[position].1.duplicate())
            },
            ConstrainedValue::Static(value) => Err(
                ExpressionError::InvalidStaticAccess(value.to_string(), span),
            ),
            value => Ok(value.duplicate()),
        }
    }

    /// Enforces an expression and holds its value against what the context expects.
    pub fn enforce_expression_value(
        &mut self,
        cs: &mut ConstraintSink,
        file_scope: &str,
        function_scope: &str,
        depth: usize,
        expected_types: &Vec<Type>,
        expression: &Expression,
        span: Span,
    ) -> (result: Result<ConstrainedValue, ExpressionError>)
        ensures
            (Evaluated { result: outcome(result), machine: machine(final(self)@, final(cs)@) })
                == enforce_expression_value(
                machine(old(self)@, old(cs)@),
                file_scope@,
                function_scope@,
                depth as nat,
                types_view(expected_types@),
                expression@,
                span,
            ),
        decreases depth, 0nat, expression, 2nat,
    {
        proof {
            reveal(enforce_expression_value);
            reveal(enforce_expression);
        }
        let branch = match self.enforce_expression(
            cs,
            file_scope,
            function_scope,
            depth,
            expected_types,
            expression,
        ) {
            Ok(branch) => branch,
            Err(error) => {
                return Err(error);
            },
        };
        branch.resolve_type(expected_types, span, &self.modulus)
    }

    /// Enforces both operands of an operation and reconciles their types.
    pub(crate) fn enforce_binary_expression(
        &mut self,
        cs: &mut ConstraintSink,
        file_scope: &str,
        function_scope: &str,
        depth: usize,
        expected_types: &Vec<Type>,
        expression: &Expression,
    ) -> (result: Result<(ConstrainedValue, ConstrainedValue), ExpressionError>)
        requires
            expression is Binary,
        ensures
            (Evaluated {
                result: match result {
                    Ok((first, second)) => Ok::<
                        (ConstrainedValueView, ConstrainedValueView),
                        ExpressionErrorView,
                    >((first@, second@)),
                    Err(error) => Err(error@),
                },
                machine: machine(final(self)@, final(cs)@),
            }) == enforce_binary_expression(
                machine(old(self)@, old(cs)@),
                file_scope@,
                function_scope@,
                depth as nat,
                types_view(expected_types@),
                expression@,
            ),
        decreases depth, 0nat, expression, 0nat,
    {
        proof {
            reveal(enforce_binary_expression);
            reveal(enforce_expression_value);
        }
        match expression {
            Expression::Binary(_, left, right, span) => {
                let resolved_left = match self.enforce_expression_value(
                    cs,
                    file_scope,
                    function_scope,
                    depth,
                    expected_types,
                    left,
                    *span,
                ) {
                    Ok(value) => value,
                    Err(error) => {
                        return Err(error);
                    },
                };
                let resolved_right = match self.enforce_expression_value(
                    cs,
                    file_scope,
                    function_scope,
                    depth,
                    expected_types,
                    right,
                    *span,
                ) {
                    Ok(value) => value,
                    Err(error) => {
                        return Err(error);
                    },
                };
                resolved_left.resolve_types(&resolved_right, expected_types, *span, &self.modulus)
            },
            _ => unreached(),
        }
    }

    /// Enforces a conditional expression: the condition, both branches, and the
    /// selection between them.
    pub(crate) fn enforce_conditional_expression(
        &mut self,
        cs: &mut ConstraintSink,
        file_scope: &str,
        function_scope: &str,
        depth: usize,
        expected_types: &Vec<Type>,
        expression: &Expression,
    ) -> (result: Result<ConstrainedValue, ExpressionError>)
        requires
            expression is IfElse,
        ensures
            (Evaluated { result: outcome(result), machine: machine(final(self)@, final(cs)@) })
                == enforce_conditional_expression(
                machine(old(self)@, old(cs)@),
                file_scope@,
                function_scope@,
                depth as nat,
                types_view(expected_types@),
                expression@,
            ),
        decreases depth, 0nat, expression, 0nat,
    {
        proof {
            reveal(enforce_conditional_expression);
            reveal(enforce_expression);
            reveal(enforce_expression_value);
        }
        match expression {
            Expression::IfElse(first, second, third, span) => {
                let boolean = single(Type::Boolean);
                let resolved_first = match self.enforce_expression(
                    cs,
                    file_scope,
                    function_scope,
                    depth,
                    &boolean,
                    first,
                ) {
                    Ok(ConstrainedValue::Boolean(resolved)) => resolved,
                    Ok(value) => {
                        return Err(ExpressionError::ConditionalBoolean(value.to_string(), *span));
                    },
                    Err(error) => {
                        return Err(error);
                    },
                };
                let resolved_second = match self.enforce_expression_value(
                    cs,
                    file_scope,
                    function_scope,
                    depth,
                    expected_types,
                    second,
                    *span,
                ) {
                    Ok(value) => value,
                    Err(error) => {
                        return Err(error);
                    },
                };
                let resolved_third = match self.enforce_expression_value(
                    cs,
                    file_scope,
                    function_scope,
                    depth,
                    expected_types,
                    third,
                    *span,
                ) {
                    Ok(value) => value,
                    Err(error) => {
                        return Err(error);
                    },
                };
                conditionally_select(cs, resolved_first, resolved_second, resolved_third, *span)
            },
            _ => unreached(),
        }
    }

    /// Enforces an array literal.
    #[verifier::rlimit(40)]
    pub(crate) fn enforce_array_expression(
        &mut self,
        cs: &mut ConstraintSink,
        file_scope: &str,
        function_scope: &str,
        depth: usize,
        expected_types: &Vec<Type>,
        expression: &Expression,
    ) -> (result: Result<ConstrainedValue, ExpressionError>)
        requires
            expression is Array,
        ensures
            (Evaluated { result: outcome(result), machine: machine(final(self)@, final(cs)@) })
                == enforce_array_expression(
                machine(old(self)@, old(cs)@),
                file_scope@,
                function_scope@,
                depth as nat,
                types_view(expected_types@),
                expression@,
            ),
        decreases depth, 0nat, expression, 0nat,
    {
        proof {
            reveal(enforce_array_expression);
            reveal(array_elements);
            reveal(enforce_expression);
        }
        match expression {
            Expression::Array(array, span) => {
                // what the context says of the elements and of the length
                let mut inner: Vec<Type> = nothing();
                let mut declared: Option<usize> = None;
                if expected_types.len() > 0 {
                    match &expected_types[0] {
                        Type::Array(element, dimensions) => {
                            inner = single(element.inner_dimension(dimensions));
                            if dimensions.len() > 0 {
                                declared = Some(dimensions[0]);
                            }
                        },
                        other => {
                            return Err(ExpressionError::UnexpectedArray(other.duplicate(), *span));
                        },
                    }
                }
                assert(element_context(types_view(expected_types@), *span) == Ok::<
                    (Seq<TypeView>, Option<usize>),
                    ExpressionErrorView,
                >((types_view(inner@), declared)));
                let ghost start = machine(old(self)@, old(cs)@);
                let ghost elements = elements_view(array@);
                let mut result: Vec<ConstrainedValue> = Vec::new();
                let mut i: usize = 0;
                assert(values_view(result@) =~= Seq::empty());
                while i < array.len()
                    invariant
                        start == machine(old(self)@, old(cs)@),
                        element_context(types_view(expected_types@), *span) == Ok::<
                            (Seq<TypeView>, Option<usize>),
                            ExpressionErrorView,
                        >((types_view(inner@), declared)),
                        0 <= i <= array.len(),
                        expression matches Expression::Array(a, s) && a == array && s == span,
                        elements == elements_view(array@),
                        array_elements(
                            start,
                            file_scope@,
                            function_scope@,
                            depth as nat,
                            types_view(inner@),
                            elements,
                            *span,
                            i as nat,
                        ) == (Evaluated {
                            result: Ok::<Seq<ConstrainedValueView>, ExpressionErrorView>(
                                values_view(result@),
                            ),
                            machine: machine(self@, cs@),
                        }),
                    decreases array.len() - i,
                {
                    proof {
                        reveal(array_elements);
                        reveal(enforce_expression);
                        reveal(enforce_array_expression);
                    }
                    let ghost before = values_view(result@);
                    let ghost here = machine(self@, cs@);
                    assert(elements[i as int] == array[i as int]@);
                    let step: Result<(), ExpressionError> = match &array[i] {
                        SpreadOrExpression::Spread(spread) => match spread {
                            Expression::Identifier(identifier) => {
                                let array_name = new_scope(
                                    function_scope,
                                    identifier.name.as_str(),
                                );
                                match self.get(array_name.as_str()) {
                                    Some(value) => match value {
                                        ConstrainedValue::Array(spliced) => {
                                            let mut copy = duplicate_values(spliced);
                                            let ghost added = values_view(copy@);
                                            result.append(&mut copy);
                                            assert(values_view(result@) =~= before + added);
                                            Ok(())
                                        },
                                        value => Err(
                                            ExpressionError::InvalidSpread(
                                                value.to_string(),
                                                *span,
                                            ),
                                        ),
                                    },
                                    None => Err(
                                        ExpressionError::UndefinedArray(
                                            identifier.name.clone(),
                                            *span,
                                        ),
                                    ),
                                }
                            },
                            _ => Err(
                                ExpressionError::InvalidSpread(
                                    String::from_str("expression"),
                                    *span,
                                ),
                            ),
                        },
                        SpreadOrExpression::Expression(element) => {
                            match self.enforce_expression(
                                cs,
                                file_scope,
                                function_scope,
                                depth,
                                &inner,
                                element,
                            ) {
                                Ok(value) => {
                                    result.push(value);
                                    assert(values_view(result@) =~= before.push(value@));
                                    Ok(())
                                },
                                Err(error) => Err(error),
                            }
                        },
                    };
                    match step {
                        Ok(_) => {},
                        Err(error) => {
                            proof {
                                assert(array_elements(
                                    start,
                                    file_scope@,
                                    function_scope@,
                                    depth as nat,
                                    types_view(inner@),
                                    elements,
                                    *span,
                                    (i + 1) as nat,
                                ) == (Evaluated {
                                    result: Err::<Seq<ConstrainedValueView>, ExpressionErrorView>(
                                        error@,
                                    ),
                                    machine: machine(self@, cs@),
                                }));
                                lemma_array_elements_fail(
                                    start,
                                    file_scope@,
                                    function_scope@,
                                    depth as nat,
                                    types_view(inner@),
                                    elements,
                                    *span,
                                    (i + 1) as nat,
                                    array.len() as nat,
                                );
                            }
                            return Err(error);
                        },
                    }
                    i += 1;
                }
                // the length that the context declares
                match declared {
                    Some(length) => {
                        if length != result.len() {
                            return Err(
                                ExpressionError::InvalidLength(length, result.len(), *span),
                            );
                        }
                    },
                    None => {},
                }
                Ok(ConstrainedValue::Array(result))
            },
            _ => unreached(),
        }
    }

    /// Enforces an index: an unsigned integer of 32 bits that the machine can index by.
    pub fn enforce_index(
        &mut self,
        cs: &mut ConstraintSink,
        file_scope: &str,
        function_scope: &str,
        depth: usize,
        index: &Expression,
        span: Span,
    ) -> (result: Result<usize, ExpressionError>)
        ensures
            (Evaluated {
                result: match result {
                    Ok(position) => Ok::<usize, ExpressionErrorView>(position),
                    Err(error) => Err(error@),
                },
                machine: machine(final(self)@, final(cs)@),
            }) == enforce_index(
                machine(old(self)@, old(cs)@),
                file_scope@,
                function_scope@,
                depth as nat,
                index@,
                span,
            ),
        decreases depth, 0nat, index, 3nat,
    {
        proof {
            reveal(enforce_index);
            reveal(enforce_expression_value);
        }
        let expected_types = single(Type::Integer(IntegerKind::U32));
        match self.enforce_expression_value(
            cs,
            file_scope,
            function_scope,
            depth,
            &expected_types,
            index,
            span,
        ) {
            Ok(value) => to_index(&value, span),
            Err(error) => Err(error),
        }
    }

    /// Enforces an access to an array: one element, or the elements of a range.
    #[verifier::rlimit(40)]
    pub(crate) fn enforce_array_access_expression(
        &mut self,
        cs: &mut ConstraintSink,
        file_scope: &str,
        function_scope: &str,
        depth: usize,
        expression: &Expression,
    ) -> (result: Result<ConstrainedValue, ExpressionError>)
        requires
            expression is ArrayAccess,
        ensures
            (Evaluated { result: outcome(result), machine: machine(final(self)@, final(cs)@) })
                == enforce_array_access_expression(
                machine(old(self)@, old(cs)@),
                file_scope@,
                function_scope@,
                depth as nat,
                expression@,
            ),
        decreases depth, 0nat, expression, 0nat,
    {
        proof {
            reveal(enforce_array_access_expression);
            reveal(enforce_expression_value);
            reveal(enforce_index);
        }
        match expression {
            Expression::ArrayAccess(array, index, span) => {
                let unconstrained = nothing();
                let values = match self.enforce_expression_value(
                    cs,
                    file_scope,
                    function_scope,
                    depth,
                    &unconstrained,
                    array,
                    *span,
                ) {
                    Ok(ConstrainedValue::Array(values)) => values,
                    Ok(value) => {
                        return Err(ExpressionError::UndefinedArray(value.to_string(), *span));
                    },
                    Err(error) => {
                        return Err(error);
                    },
                };
                match &**index {
                    RangeOrExpression::Range(from, to) => {
                        assert(index@ == RangeOrExpressionView::Range(
                            match from {
                                Some(from_index) => Some(from_index@),
                                None => None,
                            },
                            match to {
                                Some(to_index) => Some(to_index@),
                                None => None,
                            },
                        ));
                        let from_resolved: usize = match from {
                            Some(from_index) => match self.enforce_index(
                                cs,
                                file_scope,
                                function_scope,
                                depth,
                                from_index,
                                *span,
                            ) {
                                Ok(position) => position,
                                Err(error) => {
                                    return Err(error);
                                },
                            },
                            None => 0usize,  // a range without a lower bound starts at the first element
                        };
                        let to_resolved: usize = match to {
                            Some(to_index) => match self.enforce_index(
                                cs,
                                file_scope,
                                function_scope,
                                depth,
                                to_index,
                                *span,
                            ) {
                                Ok(position) => position,
                                Err(error) => {
                                    return Err(error);
                                },
                            },
                            None => values.len(),  // a range without an upper bound ends with the array
                        };
                        slice_of(&values, from_resolved, to_resolved, *span)
                    },
                    RangeOrExpression::Expression(position) => {
                        assert(index@ == RangeOrExpressionView::Expression(position@));
                        let index_resolved = match self.enforce_index(
                            cs,
                            file_scope,
                            function_scope,
                            depth,
                            position,
                            *span,
                        ) {
                            Ok(position) => position,
                            Err(error) => {
                                return Err(error);
                            },
                        };
                        element_at(&values, index_resolved, *span)
                    },
                }
            },
            _ => unreached(),
        }
    }

    /// Enforces the instantiation of a circuit.
    #[verifier::rlimit(40)]
    pub(crate) fn enforce_circuit_expression(
        &mut self,
        cs: &mut ConstraintSink,
        file_scope: &str,
        function_scope: &str,
        depth: usize,
        expression: &Expression,
    ) -> (result: Result<ConstrainedValue, ExpressionError>)
        requires
            expression is Circuit,
        ensures
            (Evaluated { result: outcome(result), machine: machine(final(self)@, final(cs)@) })
                == enforce_circuit_expression(
                machine(old(self)@, old(cs)@),
                file_scope@,
                function_scope@,
                depth as nat,
                expression@,
            ),
        decreases depth, 0nat, expression, 0nat,
    {
        proof {
            reveal(enforce_circuit_expression);
            reveal(circuit_members);
            reveal(enforce_expression);
        }
        match expression {
            Expression::Circuit(identifier, members, span) => {
                let program_identifier = if identifier.is_self() {
                    String::from_str(file_scope)
                } else {
                    new_scope(file_scope, identifier.name.as_str())
                };
                let circuit: Rc<Circuit> = match self.get(program_identifier.as_str()) {
                    Some(value) => match value.extract_circuit(*span) {
                        Ok(circuit) => circuit,
                        Err(error) => {
                            return Err(error);
                        },
                    },
                    None => {
                        return Err(
                            ExpressionError::UndefinedCircuit(identifier.name.clone(), *span),
                        );
                    },
                };
                let ghost start = machine(old(self)@, old(cs)@);
                let ghost given = definitions_view(members@);
                let ghost definition = (*circuit)@;
                let mut resolved_members: Vec<ConstrainedCircuitMember> = Vec::new();
                let mut i: usize = 0;
                assert(members_view(resolved_members@) =~= Seq::empty());
                while i < circuit.members.len()
                    invariant
                        start == machine(old(self)@, old(cs)@),
                        0 <= i <= circuit.members.len(),
                        expression matches Expression::Circuit(a, b, c) && a == identifier && b
                            == members && c == span,
                        program_identifier@ == (if identifier@.name == "Self"@ {
                            file_scope@
                        } else {
                            scope(file_scope@, identifier@.name)
                        }),
                        old(self)@.get(program_identifier@) matches Some(v) && extract_circuit(
                            v,
                            *span,
                        ) == Ok::<CircuitView, ExpressionErrorView>(definition),
                        given == definitions_view(members@),
                        definition == (*circuit)@,
                        circuit_members(
                            start,
                            file_scope@,
                            function_scope@,
                            depth as nat,
                            definition,
                            given,
                            *span,
                            i as nat,
                        ) == (Evaluated {
                            result: Ok::<Seq<ConstrainedCircuitMemberView>, ExpressionErrorView>(
                                members_view(resolved_members@),
                            ),
                            machine: machine(self@, cs@),
                        }),
                    decreases circuit.members.len() - i,
                {
                    proof {
                        reveal(circuit_members);
                        reveal(enforce_expression);
                        reveal(enforce_circuit_expression);
                    }
                    let ghost before = members_view(resolved_members@);
                    assert(definition.members[i as int] == circuit.members[i as int]@);
                    let step: Result<ConstrainedCircuitMember, ExpressionError> =
                        match &circuit.members[i] {
                        CircuitMember::CircuitField(name, type_) => {
                            match position_of_definition(members, &name.name) {
                                Some(position) => {
                                    assert(given[position as int] == members[position as int]@);
                                    // the field takes its value as the declared type
                                    let expected = single(type_.duplicate());
                                    match self.enforce_expression(
                                        cs,
                                        file_scope,
                                        function_scope,
                                        depth,
                                        &expected,
                                        &members[position].expression,
                                    ) {
                                        Ok(field_value) => Ok(
                                            ConstrainedCircuitMember(
                                                name.duplicate(),
                                                field_value,
                                            ),
                                        ),
                                        Err(error) => Err(error),
                                    }
                                },
                                None => Err(
                                    ExpressionError::ExpectedCircuitMember(
                                        name.name.clone(),
                                        *span,
                                    ),
                                ),
                            }
                        },
                        CircuitMember::CircuitFunction(is_static, function) => {
                            let constrained_function_value = ConstrainedValue::Function(
                                Some(circuit.circuit_name.duplicate()),
                                share(function),
                            );
                            if *is_static {
                                Ok(
                                    ConstrainedCircuitMember(
                                        function.function_name.duplicate(),
                                        ConstrainedValue::Static(
                                            Box::new(constrained_function_value),
                                        ),
                                    ),
                                )
                            } else {
                                Ok(
                                    ConstrainedCircuitMember(
                                        function.function_name.duplicate(),
                                        constrained_function_value,
                                    ),
                                )
                            }
                        },
                    };
                    match step {
                        Ok(member) => {
                            resolved_members.push(member);
                            assert(members_view(resolved_members@) =~= before.push(member@));
                        },
                        Err(error) => {
                            proof {
                                assert(circuit_members(
                                    start,
                                    file_scope@,
                                    function_scope@,
                                    depth as nat,
                                    definition,
                                    given,
                                    *span,
                                    (i + 1) as nat,
                                ) == (Evaluated {
                                    result: Err::<
                                        Seq<ConstrainedCircuitMemberView>,
                                        ExpressionErrorView,
                                    >(error@),
                                    machine: machine(self@, cs@),
                                }));
                                lemma_circuit_members_fail(
                                    start,
                                    file_scope@,
                                    function_scope@,
                                    depth as nat,
                                    definition,
                                    given,
                                    *span,
                                    (i + 1) as nat,
                                    circuit.members.len() as nat,
                                );
                            }
                            return Err(error);
                        },
                    }
                    i += 1;
                }
                Ok(
                    ConstrainedValue::CircuitExpression(
                        circuit.circuit_name.duplicate(),
                        resolved_members,
                    ),
                )
            },
            _ => unreached(),
        }
    }

    /// Enforces the access to a member through an instance.
    pub(crate) fn enforce_circuit_access_expression(
        &mut self,
        cs: &mut ConstraintSink,
        file_scope: &str,
        function_scope: &str,
        depth: usize,
        expression: &Expression,
    ) -> (result: Result<ConstrainedValue, ExpressionError>)
        requires
            expression is CircuitMemberAccess,
        ensures
            (Evaluated { result: outcome(result), machine: machine(final(self)@, final(cs)@) })
                == enforce_circuit_access_expression(
                machine(old(self)@, old(cs)@),
                file_scope@,
                function_scope@,
                depth as nat,
                expression@,
            ),
        decreases depth, 0nat, expression, 0nat,
    {
        proof {
            reveal(enforce_circuit_access_expression);
            reveal(enforce_expression_value);
        }
        match expression {
            Expression::CircuitMemberAccess(circuit_identifier, circuit_member, span) => {
                let unconstrained = nothing();
                let (circuit_name, members) = match self.enforce_expression_value(
                    cs,
                    file_scope,
                    function_scope,
                    depth,
                    &unconstrained,
                    circuit_identifier,
                    *span,
                ) {
                    Ok(ConstrainedValue::CircuitExpression(name, members)) => (name, members),
                    Ok(value) => {
                        return Err(ExpressionError::UndefinedCircuit(value.to_string(), *span));
                    },
                    Err(error) => {
                        return Err(error);
                    },
                };
                self.access_member(
                    file_scope,
                    &circuit_name,
                    &members,
                    circuit_member,
                    *span,
                )
            },
            _ => unreached(),
        }
    }

    /// Enforces the access to a static function through the type.
    pub(crate) fn enforce_circuit_static_access_expression(
        &mut self,
        cs: &mut ConstraintSink,
        file_scope: &str,
        function_scope: &str,
        depth: usize,
        expected_types: &Vec<Type>,
        expression: &Expression,
    ) -> (result: Result<ConstrainedValue, ExpressionError>)
        requires
            expression is CircuitStaticFunctionAccess,
        ensures
            (Evaluated { result: outcome(result), machine: machine(final(self)@, final(cs)@) })
                == enforce_circuit_static_access_expression(
                machine(old(self)@, old(cs)@),
                file_scope@,
                function_scope@,
                depth as nat,
                types_view(expected_types@),
                expression@,
            ),
        decreases depth, 0nat, expression, 0nat,
    {
        proof {
            reveal(enforce_circuit_static_access_expression);
            reveal(enforce_expression);
        }
        match expression {
            Expression::CircuitStaticFunctionAccess(circuit_identifier, circuit_member, span) => {
                // the definition that the type names
                let circuit = match self.enforce_expression(
                    cs,
                    file_scope,
                    function_scope,
                    depth,
                    expected_types,
                    circuit_identifier,
                ) {
                    Ok(ConstrainedValue::CircuitDefinition(circuit_definition)) => {
                        circuit_definition
                    },
                    Ok(value) => {
                        return Err(ExpressionError::UndefinedCircuit(value.to_string(), *span));
                    },
                    Err(error) => {
                        return Err(error);
                    },
                };
                // its static function of that name
                static_member(&circuit, circuit_member, *span)
            },
            _ => unreached(),
        }
    }

    /// Enforces a call of a function.
    #[verifier::rlimit(40)]
    pub(crate) fn enforce_function_call_expression(
        &mut self,
        cs: &mut ConstraintSink,
        file_scope: &str,
        function_scope: &str,
        depth: usize,
        expected_types: &Vec<Type>,
        expression: &Expression,
    ) -> (result: Result<ConstrainedValue, ExpressionError>)
        requires
            expression is FunctionCall,
        ensures
            (Evaluated { result: outcome(result), machine: machine(final(self)@, final(cs)@) })
                == enforce_function_call_expression(
                machine(old(self)@, old(cs)@),
                file_scope@,
                function_scope@,
                depth as nat,
                types_view(expected_types@),
                expression@,
            ),
        decreases depth, 0nat, expression, 0nat,
    {
        proof {
            reveal(enforce_function_call_expression);
            reveal(enforce_expression);
            reveal(enforce_function);
        }
        match expression {
            Expression::FunctionCall(function, arguments, span) => {
                let function_value = match self.enforce_expression(
                    cs,
                    file_scope,
                    function_scope,
                    depth,
                    expected_types,
                    function,
                ) {
                    Ok(value) => value,
                    Err(error) => {
                        return Err(error);
                    },
                };
                let (outer_scope, function_call) = match function_value.extract_function(
                    file_scope,
                    *span,
                ) {
                    Ok(extracted) => extracted,
                    Err(error) => {
                        return Err(error);
                    },
                };
                let mut name_unique = String::from_str("function call ");
                name_unique.append(function_call.get_name());
                name_unique.append(" ");
                name_unique.append(position_text(*span).as_str());
                let previous = cs.ns(name_unique.as_str());
                let call = self.enforce_function(
                    cs,
                    outer_scope.as_str(),
                    function_scope,
                    depth,
                    &function_call,
                    arguments,
                    *span,
                );
                cs.leave(previous);
                match call {
                    Ok(value) => unwrap_return(value, function_call.get_name(), *span),
                    Err(error) => Err(error),
                }
            },
            _ => unreached(),
        }
    }

    /// Enforces the expressions of a return statement, each as the type that the
    /// function declares for it.
    pub(crate) fn enforce_return(
        &mut self,
        cs: &mut ConstraintSink,
        file_scope: &str,
        function_scope: &str,
        depth: usize,
        outputs: &Vec<Type>,
        expressions: &Vec<Expression>,
        span: Span,
    ) -> (result: Result<Vec<ConstrainedValue>, ExpressionError>)
        requires
            outputs.len() == expressions.len(),
        ensures
            (Evaluated {
                result: match result {
                    Ok(values) => Ok::<Seq<ConstrainedValueView>, ExpressionErrorView>(
                        values_view(values@),
                    ),
                    Err(error) => Err(error@),
                },
                machine: machine(final(self)@, final(cs)@),
            }) == return_values(
                machine(old(self)@, old(cs)@),
                file_scope@,
                function_scope@,
                depth as nat,
                types_view(outputs@),
                expressions_view(expressions@),
                span,
                expressions.len() as nat,
            ),
        decreases depth, 0nat, expressions, expressions.len(),
    {
        proof {
            reveal(return_values);
            reveal(enforce_expression_value);
        }
        let ghost start = machine(old(self)@, old(cs)@);
        let ghost views = expressions_view(expressions@);
        let mut values: Vec<ConstrainedValue> = Vec::new();
        let mut i: usize = 0;
        assert(values_view(values@) =~= Seq::empty());
        while i < expressions.len()
            invariant
                start == machine(old(self)@, old(cs)@),
                0 <= i <= expressions.len(),
                outputs.len() == expressions.len(),
                views == expressions_view(expressions@),
                return_values(
                    start,
                    file_scope@,
                    function_scope@,
                    depth as nat,
                    types_view(outputs@),
                    views,
                    span,
                    i as nat,
                ) == (Evaluated {
                    result: Ok::<Seq<ConstrainedValueView>, ExpressionErrorView>(
                        values_view(values@),
                    ),
                    machine: machine(self@, cs@),
                }),
            decreases expressions.len() - i,
        {
                    proof {
                        reveal(return_values);
                        reveal(enforce_expression_value);
                    }
            let ghost before = values_view(values@);
            assert(views[i as int] == expressions[i as int]@);
            let expected = single(outputs[i].duplicate());
            match self.enforce_expression_value(
                cs,
                file_scope,
                function_scope,
                depth,
                &expected,
                &expressions[i],
                span,
            ) {
                Ok(value) => {
                    values.push(value);
                    assert(values_view(values@) =~= before.push(value@));
                },
                Err(error) => {
                    proof {
                        assert(return_values(
                            start,
                            file_scope@,
                            function_scope@,
                            depth as nat,
                            types_view(outputs@),
                            views,
                            span,
                            (i + 1) as nat,
                        ) == (Evaluated {
                            result: Err::<Seq<ConstrainedValueView>, ExpressionErrorView>(error@),
                            machine: machine(self@, cs@),
                        }));
                        lemma_return_values_fail(
                            start,
                            file_scope@,
                            function_scope@,
                            depth as nat,
                            types_view(outputs@),
                            views,
                            span,
                            (i + 1) as nat,
                            expressions.len() as nat,
                        );
                    }
                    return Err(error);
                },
            }
            i += 1;
        }
        Ok(values)
    }

    /// Gives the names of the function's scope the values that a call returned, one
    /// each, after each value was held against the type declared for its name.
    pub(crate) fn destructure(
        &mut self,
        function_scope: &str,
        names: &Vec<Identifier>,
        declared: &Vec<Type>,
        values: &Vec<ConstrainedValue>,
        span: Span,
    ) -> (result: Result<(), ExpressionError>)
        requires
            names.len() == values.len(),
        ensures
            match result {
                Ok(_) => resolve_each(
                    values_view(values@),
                    types_view(declared@),
                    span,
                    old(self)@.modulus,
                    values.len() as nat,
                ) matches Ok(resolved) && final(self)@ == store_each(
                    old(self)@,
                    function_scope@,
                    identifiers_view(names@),
                    resolved,
                    names.len() as nat,
                ),
                Err(error) => resolve_each(
                    values_view(values@),
                    types_view(declared@),
                    span,
                    old(self)@.modulus,
                    values.len() as nat,
                ) == Err::<Seq<ConstrainedValueView>, ExpressionErrorView>(error@)
                    && final(self)@ == old(self)@,
            },
    {
        let ghost views = values_view(values@);
        let ghost types = types_view(declared@);
        let ghost modulus = self@.modulus;
        let mut resolved: Vec<ConstrainedValue> = Vec::new();
        let mut i: usize = 0;
        assert(values_view(resolved@) =~= Seq::empty());
        while i < values.len()
            invariant
                0 <= i <= values.len(),
                names.len() == values.len(),
                views == values_view(values@),
                types == types_view(declared@),
                modulus == self@.modulus,
                self@ == old(self)@,
                resolve_each(views, types, span, modulus, i as nat) == Ok::<
                    Seq<ConstrainedValueView>,
                    ExpressionErrorView,
                >(values_view(resolved@)),
            decreases values.len() - i,
        {
            let ghost before = values_view(resolved@);
            assert(views[i as int] == values[i as int]@);
            let value = if i < declared.len() {
                assert(types[i as int] == declared[i as int]@);
                let expected = single(declared[i].duplicate());
                values[i].resolve_type(&expected, span, &self.modulus)
            } else {
                Ok(values[i].duplicate())
            };
            match value {
                Ok(yielded) => {
                    resolved.push(yielded);
                    assert(values_view(resolved@) =~= before.push(yielded@));
                },
                Err(error) => {
                    proof {
                        assert(resolve_each(views, types, span, modulus, (i + 1) as nat) == Err::<
                            Seq<ConstrainedValueView>,
                            ExpressionErrorView,
                        >(error@));
                        lemma_resolve_each_fail(
                            views,
                            types,
                            span,
                            modulus,
                            (i + 1) as nat,
                            values.len() as nat,
                        );
                    }
                    return Err(error);
                },
            }
            i += 1;
        }
        proof {
            lemma_resolve_each_length(views, types, span, modulus, values.len() as nat);
        }
        let ghost chosen = values_view(resolved@);
        let ghost targets = identifiers_view(names@);
        let mut k: usize = 0;
        while k < names.len()
            invariant
                0 <= k <= names.len(),
                names.len() == resolved.len(),
                chosen == values_view(resolved@),
                targets == identifiers_view(names@),
                self@ == store_each(old(self)@, function_scope@, targets, chosen, k as nat),
            decreases names.len() - k,
        {
            assert(chosen[k as int] == resolved[k as int]@);
            assert(targets[k as int] == names[k as int]@);
            self.store(new_scope(function_scope, names[k].name.as_str()), resolved[k].duplicate());
            k += 1;
        }
        Ok(())
    }

    /// Enforces the statements of a list, up to the first return statement that takes
    /// effect.
    pub fn enforce_statements(
        &mut self,
        cs: &mut ConstraintSink,
        file_scope: &str,
        function_scope: &str,
        depth: usize,
        outputs: &Vec<Type>,
        indicator: BooleanValue,
        statements: &Vec<Statement>,
    ) -> (result: Result<Option<ConstrainedValue>, ExpressionError>)
        ensures
            (Evaluated { result: ended(result), machine: machine(final(self)@, final(cs)@) })
                == enforce_statements(
                machine(old(self)@, old(cs)@),
                file_scope@,
                function_scope@,
                depth as nat,
                types_view(outputs@),
                indicator,
                statements_view(statements@),
                statements.len() as nat,
            ),
        decreases depth, 1nat, statements, 1nat,
    {
        proof {
            reveal(enforce_statements);
            reveal(enforce_statement);
        }
        let ghost start = machine(old(self)@, old(cs)@);
        let ghost views = statements_view(statements@);
        let mut i: usize = 0;
        while i < statements.len()
            invariant
                0 <= i <= statements.len(),
                start == machine(old(self)@, old(cs)@),
                views == statements_view(statements@),
                enforce_statements(
                    start,
                    file_scope@,
                    function_scope@,
                    depth as nat,
                    types_view(outputs@),
                    indicator,
                    views,
                    i as nat,
                ) == (Evaluated {
                    result: Ok::<Option<ConstrainedValueView>, ExpressionErrorView>(None),
                    machine: machine(self@, cs@),
                }),
            decreases statements.len() - i,
        {
            proof {
                reveal(enforce_statements);
                reveal(enforce_statement);
            }
            assert(views[i as int] == statements[i as int]@);
            assert(decreases_to!(statements => statements[i as int]));
            match self.enforce_statement(
                cs,
                file_scope,
                function_scope,
                depth,
                outputs,
                indicator,
                &statements[i],
            ) {
                Ok(None) => {},
                other => {
                    proof {
                        lemma_enforce_statements_end(
                            start,
                            file_scope@,
                            function_scope@,
                            depth as nat,
                            types_view(outputs@),
                            indicator,
                            views,
                            (i + 1) as nat,
                            statements.len() as nat,
                        );
                    }
                    return other;
                },
            }
            i += 1;
        }
        Ok(None)
    }

    /// Enforces a return statement.
    pub(crate) fn enforce_return_statement(
        &mut self,
        cs: &mut ConstraintSink,
        file_scope: &str,
        function_scope: &str,
        depth: usize,
        outputs: &Vec<Type>,
        indicator: BooleanValue,
        statement: &Statement,
    ) -> (result: Result<Option<ConstrainedValue>, ExpressionError>)
        requires
            statement is Return,
        ensures
            (Evaluated { result: ended(result), machine: machine(final(self)@, final(cs)@) })
                == enforce_statement(
                machine(old(self)@, old(cs)@),
                file_scope@,
                function_scope@,
                depth as nat,
                types_view(outputs@),
                indicator,
                statement@,
            ),
        decreases depth, 1nat, statement, 0nat,
    {
        proof {
            reveal(enforce_statement);
            reveal(return_values);
        }
        match statement {
            Statement::Return(expressions, span) => {
                if expressions.len() != outputs.len() {
                    return Err(
                        ExpressionError::InvalidLength(outputs.len(), expressions.len(), *span),
                    );
                }
                let values = match self.enforce_return(
                    cs,
                    file_scope,
                    function_scope,
                    depth,
                    outputs,
                    expressions,
                    *span,
                ) {
                    Ok(values) => values,
                    Err(error) => {
                        return Err(error);
                    },
                };
                match indicator {
                    BooleanValue::Constant(true) => Ok(Some(ConstrainedValue::Return(values))),
                    BooleanValue::Constant(false) => Ok(None),
                    BooleanValue::Allocated(_) => Err(
                        ExpressionError::CannotEnforce(
                            String::from_str("return"),
                            ConstrainedValue::Boolean(indicator).to_string(),
                            *span,
                        ),
                    ),
                }
            },
            _ => unreached(),
        }
    }

    /// Enforces a definition.
    #[verifier::rlimit(40)]
    pub(crate) fn enforce_definition_statement(
        &mut self,
        cs: &mut ConstraintSink,
        file_scope: &str,
        function_scope: &str,
        depth: usize,
        outputs: &Vec<Type>,
        indicator: BooleanValue,
        statement: &Statement,
    ) -> (result: Result<Option<ConstrainedValue>, ExpressionError>)
        requires
            statement is Definition,
        ensures
            (Evaluated { result: ended(result), machine: machine(final(self)@, final(cs)@) })
                == enforce_statement(
                machine(old(self)@, old(cs)@),
                file_scope@,
                function_scope@,
                depth as nat,
                types_view(outputs@),
                indicator,
                statement@,
            ),
        decreases depth, 1nat, statement, 0nat,
    {
        proof {
            reveal(enforce_statement);
            reveal(enforce_expression_value);
            reveal(enforce_expression);
        }
        match statement {
            Statement::Definition(names, declared, expression, span) => {
                if declared.len() != 0 && declared.len() != names.len() {
                    return Err(ExpressionError::InvalidLength(names.len(), declared.len(), *span));
                }
                if names.len() == 1 {
                    match self.enforce_expression_value(
                        cs,
                        file_scope,
                        function_scope,
                        depth,
                        declared,
                        expression,
                        *span,
                    ) {
                        Ok(value) => {
                            assert(identifiers_view(names@)[0] == names[0]@);
                            self.store(new_scope(function_scope, names[0].name.as_str()), value);
                            Ok(None)
                        },
                        Err(error) => Err(error),
                    }
                } else {
                    match self.enforce_expression(
                        cs,
                        file_scope,
                        function_scope,
                        depth,
                        declared,
                        expression,
                    ) {
                        Ok(ConstrainedValue::Return(values)) => {
                            assert(values_view(values@).len() == values.len());
                            if values.len() != names.len() {
                                return Err(
                                    ExpressionError::InvalidLength(
                                        names.len(),
                                        values.len(),
                                        *span,
                                    ),
                                );
                            }
                            match self.destructure(function_scope, names, declared, &values, *span) {
                                Ok(_) => Ok(None),
                                Err(error) => Err(error),
                            }
                        },
                        Ok(_) => Err(ExpressionError::InvalidLength(names.len(), 1, *span)),
                        Err(error) => Err(error),
                    }
                }
            },
            _ => unreached(),
        }
    }

    /// Enforces an assignment.
    #[verifier::rlimit(40)]
    pub(crate) fn enforce_assign_statement(
        &mut self,
        cs: &mut ConstraintSink,
        file_scope: &str,
        function_scope: &str,
        depth: usize,
        outputs: &Vec<Type>,
        indicator: BooleanValue,
        statement: &Statement,
    ) -> (result: Result<Option<ConstrainedValue>, ExpressionError>)
        requires
            statement is Assign,
        ensures
            (Evaluated { result: ended(result), machine: machine(final(self)@, final(cs)@) })
                == enforce_statement(
                machine(old(self)@, old(cs)@),
                file_scope@,
                function_scope@,
                depth as nat,
                types_view(outputs@),
                indicator,
                statement@,
            ),
        decreases depth, 1nat, statement, 0nat,
    {
        proof {
            reveal(enforce_statement);
            reveal(enforce_expression_value);
        }
        match statement {
            Statement::Assign(name, expression, span) => {
                let unconstrained = nothing();
                let value = match self.enforce_expression_value(
                    cs,
                    file_scope,
                    function_scope,
                    depth,
                    &unconstrained,
                    expression,
                    *span,
                ) {
                    Ok(value) => value,
                    Err(error) => {
                        return Err(error);
                    },
                };
                let variable_name = new_scope(function_scope, name.name.as_str());
                let (value, previous) = match self.get(variable_name.as_str()) {
                    None => {
                        return Err(
                            ExpressionError::UndefinedIdentifier(name.name.clone(), *span),
                        );
                    },
                    Some(previous) => match promote_operands(
                        &value,
                        previous,
                        *span,
                        &self.modulus,
                    ) {
                        Ok(operands) => operands,
                        Err(error) => {
                            return Err(error);
                        },
                    },
                };
                match assign_under(cs, indicator, value, previous, *span) {
                    Ok(chosen) => {
                        self.store(variable_name, chosen);
                        Ok(None)
                    },
                    Err(error) => Err(error),
                }
            },
            _ => unreached(),
        }
    }

    /// Enforces a conditional: both branches, each under its condition.
    #[verifier::rlimit(40)]
    pub(crate) fn enforce_conditional_statement(
        &mut self,
        cs: &mut ConstraintSink,
        file_scope: &str,
        function_scope: &str,
        depth: usize,
        outputs: &Vec<Type>,
        indicator: BooleanValue,
        statement: &Statement,
    ) -> (result: Result<Option<ConstrainedValue>, ExpressionError>)
        requires
            statement is Conditional,
        ensures
            (Evaluated { result: ended(result), machine: machine(final(self)@, final(cs)@) })
                == enforce_statement(
                machine(old(self)@, old(cs)@),
                file_scope@,
                function_scope@,
                depth as nat,
                types_view(outputs@),
                indicator,
                statement@,
            ),
        decreases depth, 1nat, statement, 0nat,
    {
        proof {
            reveal(enforce_statement);
            reveal(enforce_expression);
            reveal(enforce_statements);
        }
        match statement {
            Statement::Conditional(condition, first, second, span) => {
                let boolean = single(Type::Boolean);
                let holds = match self.enforce_expression(
                    cs,
                    file_scope,
                    function_scope,
                    depth,
                    &boolean,
                    condition,
                ) {
                    Ok(ConstrainedValue::Boolean(resolved)) => resolved,
                    Ok(value) => {
                        return Err(ExpressionError::ConditionalBoolean(value.to_string(), *span));
                    },
                    Err(error) => {
                        return Err(error);
                    },
                };
                let taken = indicator_and(cs, indicator, holds, *span);
                match self.enforce_statements(
                    cs,
                    file_scope,
                    function_scope,
                    depth,
                    outputs,
                    taken,
                    first,
                ) {
                    Ok(None) => {},
                    other => {
                        return other;
                    },
                }
                let fails = indicator_not(cs, holds, *span);
                let other = indicator_and(cs, indicator, fails, *span);
                self.enforce_statements(
                    cs,
                    file_scope,
                    function_scope,
                    depth,
                    outputs,
                    other,
                    second,
                )
            },
            _ => unreached(),
        }
    }

    /// Enforces an iteration: one round for each index, in order.
    #[verifier::rlimit(40)]
    pub(crate) fn enforce_iteration_statement(
        &mut self,
        cs: &mut ConstraintSink,
        file_scope: &str,
        function_scope: &str,
        depth: usize,
        outputs: &Vec<Type>,
        indicator: BooleanValue,
        statement: &Statement,
    ) -> (result: Result<Option<ConstrainedValue>, ExpressionError>)
        requires
            statement is Iteration,
        ensures
            (Evaluated { result: ended(result), machine: machine(final(self)@, final(cs)@) })
                == enforce_statement(
                machine(old(self)@, old(cs)@),
                file_scope@,
                function_scope@,
                depth as nat,
                types_view(outputs@),
                indicator,
                statement@,
            ),
        decreases depth, 1nat, statement, 0nat,
    {
        proof {
            reveal(enforce_statement);
            reveal(enforce_index);
            reveal(iterate);
        }
        match statement {
            Statement::Iteration(index, from, to, body, span) => {
                let from_resolved = match self.enforce_index(
                    cs,
                    file_scope,
                    function_scope,
                    depth,
                    from,
                    *span,
                ) {
                    Ok(position) => position,
                    Err(error) => {
                        return Err(error);
                    },
                };
                let to_resolved = match self.enforce_index(
                    cs,
                    file_scope,
                    function_scope,
                    depth,
                    to,
                    *span,
                ) {
                    Ok(position) => position,
                    Err(error) => {
                        return Err(error);
                    },
                };
                if to_resolved <= from_resolved {
                    return Ok(None);
                }
                let ghost start = machine(self@, cs@);
                let ghost whole = enforce_statement(
                    machine(old(self)@, old(cs)@),
                    file_scope@,
                    function_scope@,
                    depth as nat,
                    types_view(outputs@),
                    indicator,
                    statement@,
                );
                assert(whole == iterate(
                    start,
                    file_scope@,
                    function_scope@,
                    depth as nat,
                    types_view(outputs@),
                    indicator,
                    statement@,
                    from_resolved,
                    to_resolved,
                ));
                let mut k: usize = from_resolved;
                while k < to_resolved
                    invariant
                        from_resolved <= k <= to_resolved,
                        whole == enforce_statement(
                            machine(old(self)@, old(cs)@),
                            file_scope@,
                            function_scope@,
                            depth as nat,
                            types_view(outputs@),
                            indicator,
                            statement@,
                        ),
                        whole == iterate(
                            start,
                            file_scope@,
                            function_scope@,
                            depth as nat,
                            types_view(outputs@),
                            indicator,
                            statement@,
                            from_resolved,
                            to_resolved,
                        ),
                        statement matches Statement::Iteration(a, b, c, d, e) && a == index && d
                            == body,
                        iterate(
                            start,
                            file_scope@,
                            function_scope@,
                            depth as nat,
                            types_view(outputs@),
                            indicator,
                            statement@,
                            from_resolved,
                            k,
                        ) == (Evaluated {
                            result: Ok::<Option<ConstrainedValueView>, ExpressionErrorView>(None),
                            machine: machine(self@, cs@),
                        }),
                    decreases to_resolved - k,
                {
                    proof {
                        reveal(iterate);
                        reveal(enforce_statements);
                    }
                    self.store(
                        new_scope(function_scope, index.name.as_str()),
                        ConstrainedValue::Integer(
                            Integer::Constant(IntegerKind::U32, Signed::new(false, k as u128)),
                        ),
                    );
                    match self.enforce_statements(
                        cs,
                        file_scope,
                        function_scope,
                        depth,
                        outputs,
                        indicator,
                        body,
                    ) {
                        Ok(None) => {},
                        other => {
                            proof {
                                lemma_iterate_end(
                                    start,
                                    file_scope@,
                                    function_scope@,
                                    depth as nat,
                                    types_view(outputs@),
                                    indicator,
                                    statement@,
                                    from_resolved,
                                    (k + 1) as usize,
                                    to_resolved,
                                );
                            }
                            return other;
                        },
                    }
                    k += 1;
                }
                Ok(None)
            },
            _ => unreached(),
        }
    }

    /// Enforces one statement under the condition `indicator`.
    pub fn enforce_statement(
        &mut self,
        cs: &mut ConstraintSink,
        file_scope: &str,
        function_scope: &str,
        depth: usize,
        outputs: &Vec<Type>,
        indicator: BooleanValue,
        statement: &Statement,
    ) -> (result: Result<Option<ConstrainedValue>, ExpressionError>)
        ensures
            (Evaluated { result: ended(result), machine: machine(final(self)@, final(cs)@) })
                == enforce_statement(
                machine(old(self)@, old(cs)@),
                file_scope@,
                function_scope@,
                depth as nat,
                types_view(outputs@),
                indicator,
                statement@,
            ),
        decreases depth, 1nat, statement, 1nat,
    {
        match statement {
            Statement::Return(_, _) => self.enforce_return_statement(
                cs,
                file_scope,
                function_scope,
                depth,
                outputs,
                indicator,
                statement,
            ),
            Statement::Definition(_, _, _, _) => self.enforce_definition_statement(
                cs,
                file_scope,
                function_scope,
                depth,
                outputs,
                indicator,
                statement,
            ),
            Statement::Assign(_, _, _) => self.enforce_assign_statement(
                cs,
                file_scope,
                function_scope,
                depth,
                outputs,
                indicator,
                statement,
            ),
            Statement::Conditional(_, _, _, _) => self.enforce_conditional_statement(
                cs,
                file_scope,
                function_scope,
                depth,
                outputs,
                indicator,
                statement,
            ),
            Statement::Iteration(_, _, _, _, _) => self.enforce_iteration_statement(
                cs,
                file_scope,
                function_scope,
                depth,
                outputs,
                indicator,
                statement,
            ),
        }
    }

    /// Enforces a call of a function on arguments: binds the arguments, runs the body,
    /// and hands back what the body returns.
    #[verifier::rlimit(40)]
    pub fn enforce_function(
        &mut self,
        cs: &mut ConstraintSink,
        outer_scope: &str,
        caller_scope: &str,
        depth: usize,
        function: &Function,
        arguments: &Vec<Expression>,
        span: Span,
    ) -> (result: Result<ConstrainedValue, ExpressionError>)
        ensures
            (Evaluated { result: outcome(result), machine: machine(final(self)@, final(cs)@) })
                == enforce_function(
                machine(old(self)@, old(cs)@),
                outer_scope@,
                caller_scope@,
                depth as nat,
                function@,
                expressions_view(arguments@),
                span,
            ),
            grows(machine(old(self)@, old(cs)@), machine(final(self)@, final(cs)@)),
        decreases depth, 0nat, arguments, arguments.len() + 1,
    {
        proof {
            lemma_enforce_function_grows(
                machine(old(self)@, old(cs)@),
                outer_scope@,
                caller_scope@,
                depth as nat,
                function@,
                expressions_view(arguments@),
                span,
            );
            reveal(enforce_function);
            reveal(bind_arguments);
            reveal(enforce_expression);
            reveal(enforce_statements);
        }
        if depth == 0 {
            return Err(ExpressionError::RecursionLimit(span));
        }
        if function.inputs.len() != arguments.len() {
            return Err(
                ExpressionError::InvalidLength(function.inputs.len(), arguments.len(), span),
            );
        }
        let function_name = new_scope(outer_scope, function.get_name());
        let ghost start = machine(old(self)@, old(cs)@);
        let ghost views = expressions_view(arguments@);
        let ghost inputs = function@.inputs;
        let mut i: usize = 0;
        while i < arguments.len()
            invariant
                start == machine(old(self)@, old(cs)@),
                depth > 0,
                function_name@ == scope(outer_scope@, function@.function_name.name),
                function@.inputs.len() == views.len(),
                0 <= i <= arguments.len(),
                function.inputs.len() == arguments.len(),
                views == expressions_view(arguments@),
                inputs == function@.inputs,
                bind_arguments(
                    start,
                    outer_scope@,
                    caller_scope@,
                    depth as nat,
                    function_name@,
                    inputs,
                    views,
                    i as nat,
                ) == (Evaluated {
                    result: Ok::<(), ExpressionErrorView>(()),
                    machine: machine(self@, cs@),
                }),
            decreases arguments.len() - i,
        {
                    proof {
                        reveal(bind_arguments);
                        reveal(enforce_expression);
                        reveal(enforce_function);
                    }
            assert(views[i as int] == arguments[i as int]@);
            assert(inputs[i as int] == function.inputs[i as int]@);
            let expected = single(function.inputs[i].type_.duplicate());
            match self.enforce_expression(
                cs,
                outer_scope,
                caller_scope,
                depth,
                &expected,
                &arguments[i],
            ) {
                Ok(value) => {
                    self.store(
                        new_scope(
                            function_name.as_str(),
                            function.inputs[i].identifier.name.as_str(),
                        ),
                        value,
                    );
                },
                Err(error) => {
                    proof {
                        assert(bind_arguments(
                            start,
                            outer_scope@,
                            caller_scope@,
                            depth as nat,
                            function_name@,
                            inputs,
                            views,
                            (i + 1) as nat,
                        ) == (Evaluated {
                            result: Err::<(), ExpressionErrorView>(error@),
                            machine: machine(self@, cs@),
                        }));
                        lemma_bind_arguments_fail(
                            start,
                            outer_scope@,
                            caller_scope@,
                            depth as nat,
                            function_name@,
                            inputs,
                            views,
                            (i + 1) as nat,
                            arguments.len() as nat,
                        );
                        lemma_enforce_function_grows(
                            start,
                            outer_scope@,
                            caller_scope@,
                            depth as nat,
                            function@,
                            views,
                            span,
                        );
                    }
                    return Err(error);
                },
            }
            i += 1;
        }
        match self.enforce_statements(
            cs,
            outer_scope,
            function_name.as_str(),
            depth - 1,
            &function.returns,
            BooleanValue::Constant(true),
            &function.statements,
        ) {
            Ok(Some(value)) => Ok(value),
            Ok(None) => {
                if function.returns.len() == 0 {
                    let values: Vec<ConstrainedValue> = Vec::new();
                    assert(values_view(values@) =~= Seq::empty());
                    Ok(ConstrainedValue::Return(values))
                } else {
                    Err(
                        ExpressionError::FunctionNoReturn(
                            String::from_str(function.get_name()),
                            function.span,
                        ),
                    )
                }
            },
            Err(error) => Err(error),
        }
    }

    /// Enforces an expression: evaluates it to a value and records in the sink every
    /// gadget that the evaluation calls for.
    #[verifier::rlimit(40)]
    pub fn enforce_expression(
        &mut self,
        cs: &mut ConstraintSink,
        file_scope: &str,
        function_scope: &str,
        depth: usize,
        expected_types: &Vec<Type>,
        expression: &Expression,
    ) -> (result: Result<ConstrainedValue, ExpressionError>)
        ensures
            (Evaluated { result: outcome(result), machine: machine(final(self)@, final(cs)@) })
                == enforce_expression(
                machine(old(self)@, old(cs)@),
                file_scope@,
                function_scope@,
                depth as nat,
                types_view(expected_types@),
                expression@,
            ),
            grows(machine(old(self)@, old(cs)@), machine(final(self)@, final(cs)@)),
        decreases depth, 0nat, expression, 1nat,
    {
        proof {
            lemma_enforce_expression_grows(
                machine(old(self)@, old(cs)@),
                file_scope@,
                function_scope@,
                depth as nat,
                types_view(expected_types@),
                expression@,
            );
            reveal(enforce_expression);
            reveal(enforce_binary_expression);
            reveal(enforce_conditional_expression);
            reveal(enforce_array_expression);
            reveal(enforce_array_access_expression);
            reveal(enforce_circuit_expression);
            reveal(enforce_circuit_access_expression);
            reveal(enforce_circuit_static_access_expression);
            reveal(enforce_function_call_expression);
        }
        match expression {
            // names
            Expression::Identifier(unresolved_variable) => self.evaluate_identifier(
                file_scope,
                function_scope,
                expected_types,
                unresolved_variable,
            ),
            // literals
            Expression::Literal(literal) => constant_of(literal, &self.modulus),
            Expression::Implicit(value, span) => ConstrainedProgram::enforce_number_implicit(
                expected_types,
                value.as_str(),
                *span,
                &self.modulus,
            ),
            // operations on two operands
            Expression::Binary(operation, _, _, span) => {
                let context = match operation {
                    BinaryOperation::Add
                    | BinaryOperation::Sub
                    | BinaryOperation::Mul
                    | BinaryOperation::Div
                    | BinaryOperation::Pow
                    | BinaryOperation::Or
                    | BinaryOperation::And => duplicate_types(expected_types),
                    _ => nothing(),
                };
                let (resolved_left, resolved_right) = match self.enforce_binary_expression(
                    cs,
                    file_scope,
                    function_scope,
                    depth,
                    &context,
                    expression,
                ) {
                    Ok(operands) => operands,
                    Err(error) => {
                        return Err(error);
                    },
                };
                match operation {
                    BinaryOperation::Add => self.enforce_add_expression(
                        cs,
                        &resolved_left,
                        &resolved_right,
                        *span,
                    ),
                    BinaryOperation::Sub => self.enforce_sub_expression(
                        cs,
                        &resolved_left,
                        &resolved_right,
                        *span,
                    ),
                    BinaryOperation::Mul => self.enforce_mul_expression(
                        cs,
                        &resolved_left,
                        &resolved_right,
                        *span,
                    ),
                    BinaryOperation::Div => self.enforce_div_expression(
                        cs,
                        &resolved_left,
                        &resolved_right,
                        *span,
                    ),
                    BinaryOperation::Pow => self.enforce_pow_expression(
                        cs,
                        &resolved_left,
                        &resolved_right,
                        *span,
                    ),
                    // on booleans
                    BinaryOperation::Or => enforce_or(cs, &resolved_left, &resolved_right, *span),
                    BinaryOperation::And => enforce_and(cs, &resolved_left, &resolved_right, *span),
                    BinaryOperation::Eq => self.evaluate_eq_expression(
                        cs,
                        &resolved_left,
                        &resolved_right,
                        *span,
                    ),
                    BinaryOperation::Ge => self.evaluate_ge_expression(
                        &resolved_left,
                        &resolved_right,
                        *span,
                    ),
                    BinaryOperation::Gt => self.evaluate_gt_expression(
                        &resolved_left,
                        &resolved_right,
                        *span,
                    ),
                    BinaryOperation::Le => self.evaluate_le_expression(
                        &resolved_left,
                        &resolved_right,
                        *span,
                    ),
                    BinaryOperation::Lt => self.evaluate_lt_expression(
                        &resolved_left,
                        &resolved_right,
                        *span,
                    ),
                }
            },
            Expression::Not(inner, span) => {
                match self.enforce_expression(
                    cs,
                    file_scope,
                    function_scope,
                    depth,
                    expected_types,
                    inner,
                ) {
                    Ok(value) => evaluate_not(cs, &value, *span),
                    Err(error) => Err(error),
                }
            },
            // conditional expressions
            Expression::IfElse(_, _, _, _) => self.enforce_conditional_expression(
                cs,
                file_scope,
                function_scope,
                depth,
                expected_types,
                expression,
            ),
            // arrays
            Expression::Array(_, _) => self.enforce_array_expression(
                cs,
                file_scope,
                function_scope,
                depth,
                expected_types,
                expression,
            ),
            Expression::ArrayAccess(_, _, _) => self.enforce_array_access_expression(
                cs,
                file_scope,
                function_scope,
                depth,
                expression,
            ),
            // circuits
            Expression::Circuit(_, _, _) => self.enforce_circuit_expression(
                cs,
                file_scope,
                function_scope,
                depth,
                expression,
            ),
            Expression::CircuitMemberAccess(_, _, _) => self.enforce_circuit_access_expression(
                cs,
                file_scope,
                function_scope,
                depth,
                expression,
            ),
            Expression::CircuitStaticFunctionAccess(_, _, _) => {
                self.enforce_circuit_static_access_expression(
                    cs,
                    file_scope,
                    function_scope,
                    depth,
                    expected_types,
                    expression,
                )
            },
            // calls
            Expression::FunctionCall(_, _, _) => self.enforce_function_call_expression(
                cs,
                file_scope,
                function_scope,
                depth,
                expected_types,
                expression,
            ),
        }
    }
}

} // verus!
