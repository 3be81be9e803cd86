//! Reconciling values with the types that the context expects: untyped numbers are read
//! as the expected type, and every other value is held against it.

use crate::ast::{Circuit, CircuitView, Function, FunctionView};
use crate::constraints::program::{new_scope, scope};
use crate::constraints::value::{
    ConstrainedValue, ConstrainedValueView, Element, ElementView, FieldValue, FieldView, share,
    values_view,
};
use crate::errors::{ExpressionError, ExpressionErrorView};
use crate::field::{field_from_text, field_literal, Modulus, natural_from_text};
use crate::integer::{Integer, integer_literal, IntegerView, literal_value};
use crate::span::Span;
use crate::text::{is_numeral, strip_suffix, without_suffix};
use crate::types::{inner_dimension, Type, types_view, TypeView};
use std::rc::Rc;
use vstd::prelude::*;
use vstd::string::*;

verus! {

/// What a result stands for.
pub open spec fn outcome(result: Result<ConstrainedValue, ExpressionError>) -> Result<
    ConstrainedValueView,
    ExpressionErrorView,
> {
    match result {
        Ok(value) => Ok(value@),
        Err(error) => Err(error@),
    }
}

/// The value that a number is when read as a type: an integer of the kind that holds
/// it, a field element, or a group or scalar constant kept as written. The keyword of
/// the type may stand behind the number. Read as any other primitive type it is a bad
/// literal, and no other type takes a number.
pub open spec fn from_type(text: Seq<char>, type_: TypeView, span: Span, modulus: nat) -> Result<
    ConstrainedValueView,
    ExpressionErrorView,
> {
    match type_ {
        TypeView::Integer(kind) => match integer_literal(kind, text) {
            Some(value) => Ok(ConstrainedValueView::Integer(IntegerView::Constant(kind, value))),
            None => Err(ExpressionErrorView::BadLiteral(text, span)),
        },
        TypeView::Field => match field_literal(text, modulus) {
            Some(value) => Ok(ConstrainedValueView::Field(FieldView::Constant(value))),
            None => Err(ExpressionErrorView::BadLiteral(text, span)),
        },
        TypeView::Group => if literal_value(without_suffix(text, "group"@)) is Some {
            Ok(ConstrainedValueView::Group(ElementView::Constant(text)))
        } else {
            Err(ExpressionErrorView::BadLiteral(text, span))
        },
        TypeView::Scalar => if is_numeral(without_suffix(text, "scalar"@)) {
            Ok(ConstrainedValueView::Scalar(ElementView::Constant(text)))
        } else {
            Err(ExpressionErrorView::BadLiteral(text, span))
        },
        TypeView::Boolean => Err(ExpressionErrorView::BadLiteral(text, span)),
        TypeView::Address => Err(ExpressionErrorView::BadLiteral(text, span)),
        _ => Err(
            ExpressionErrorView::TypeMismatch(
                type_,
                ConstrainedValueView::Unresolved(text).text(),
                span,
            ),
        ),
    }
}

/// The value that an untyped number is when read as the kind of its peer. Only
/// integers, field elements, group elements and scalars lend their kind.
pub open spec fn from_other(
    text: Seq<char>,
    other: ConstrainedValueView,
    span: Span,
    modulus: nat,
) -> Result<ConstrainedValueView, ExpressionErrorView> {
    match other {
        ConstrainedValueView::Integer(integer) => from_type(
            text,
            TypeView::Integer(integer.kind()),
            span,
            modulus,
        ),
        ConstrainedValueView::Field(_) => from_type(text, TypeView::Field, span, modulus),
        ConstrainedValueView::Group(_) => from_type(text, TypeView::Group, span, modulus),
        ConstrainedValueView::Scalar(_) => from_type(text, TypeView::Scalar, span, modulus),
        _ => Err(ExpressionErrorView::BadLiteral(text, span)),
    }
}

/// Whether a value is of a type, as far as its outermost form shows.
pub open spec fn kind_matches(value: ConstrainedValueView, type_: TypeView) -> bool {
    match (value, type_) {
        (ConstrainedValueView::Boolean(_), TypeView::Boolean) => true,
        (ConstrainedValueView::Integer(integer), TypeView::Integer(kind)) => integer.kind()
            == kind,
        (ConstrainedValueView::Field(_), TypeView::Field) => true,
        (ConstrainedValueView::Group(_), TypeView::Group) => true,
        (ConstrainedValueView::Scalar(_), TypeView::Scalar) => true,
        (ConstrainedValueView::Address(_), TypeView::Address) => true,
        (ConstrainedValueView::Tuple(_), TypeView::Tuple(_)) => true,
        (ConstrainedValueView::CircuitExpression(name, _), TypeView::Circuit(circuit)) => name.name
            == circuit,
        (ConstrainedValueView::CircuitExpression(_, _), TypeView::SelfType) => true,
        _ => false,
    }
}

/// Whether a value carries no type: definitions, functions, static members and what a
/// function returns are never held against the context.
pub open spec fn untyped(value: ConstrainedValueView) -> bool {
    value is CircuitDefinition || value is Function || value is Static || value is Return
}

/// A value held against one type. An untyped number is read as the type. The elements
/// of an array are held, in order, against the element type of an array type, and the
/// array's length against the type's outermost dimension. Any other value stays as it
/// is where it is of the type, and is a mismatch where it is not.
pub open spec fn resolve_against(
    value: ConstrainedValueView,
    type_: TypeView,
    span: Span,
    modulus: nat,
) -> Result<ConstrainedValueView, ExpressionErrorView>
    decreases value, 0nat,
{
    match value {
        ConstrainedValueView::Unresolved(text) => from_type(text, type_, span, modulus),
        ConstrainedValueView::Array(values) => match type_ {
            TypeView::Array(element, dimensions) => {
                match resolve_elements(
                    values,
                    inner_dimension(*element, dimensions),
                    span,
                    modulus,
                    values.len(),
                ) {
                    Err(error) => Err(error),
                    Ok(resolved) => if dimensions.len() > 0 && dimensions[0] != values.len() {
                        Err(
                            ExpressionErrorView::InvalidLength(
                                dimensions[0],
                                values.len() as usize,
                                span,
                            ),
                        )
                    } else {
                        Ok(ConstrainedValueView::Array(resolved))
                    },
                }
            },
            _ => Err(ExpressionErrorView::TypeMismatch(type_, value.text(), span)),
        },
        _ => if untyped(value) || kind_matches(value, type_) {
            Ok(value)
        } else {
            Err(ExpressionErrorView::TypeMismatch(type_, value.text(), span))
        },
    }
}

/// The first `count` values held against one type, in order; the first failure ends it.
pub open spec fn resolve_elements(
    values: Seq<ConstrainedValueView>,
    type_: TypeView,
    span: Span,
    modulus: nat,
    count: nat,
) -> Result<Seq<ConstrainedValueView>, ExpressionErrorView>
    decreases values, count,
{
    if count == 0 || count > values.len() {
        Ok(Seq::empty())
    } else {
        match resolve_elements(values, type_, span, modulus, (count - 1) as nat) {
            Err(error) => Err(error),
            Ok(resolved) => match resolve_against(values[count - 1], type_, span, modulus) {
                Err(error) => Err(error),
                Ok(value) => Ok(resolved.push(value)),
            },
        }
    }
}

/// A value held against what the context expects: against the one type where exactly
/// one is expected, and against nothing otherwise.
pub open spec fn resolve_type(
    value: ConstrainedValueView,
    expected: Seq<TypeView>,
    span: Span,
    modulus: nat,
) -> Result<ConstrainedValueView, ExpressionErrorView> {
    if expected.len() == 1 {
        resolve_against(value, expected[0], span, modulus)
    } else {
        Ok(value)
    }
}

/// Two operands reconciled. Where the context expects anything, each is held against
/// it. Where it expects nothing, an untyped number takes the kind of a typed peer, and
/// two untyped numbers stay untyped.
pub open spec fn resolve_types(
    left: ConstrainedValueView,
    right: ConstrainedValueView,
    expected: Seq<TypeView>,
    span: Span,
    modulus: nat,
) -> Result<(ConstrainedValueView, ConstrainedValueView), ExpressionErrorView> {
    if expected.len() > 0 {
        match resolve_type(left, expected, span, modulus) {
            Err(error) => Err(error),
            Ok(first) => match resolve_type(right, expected, span, modulus) {
                Err(error) => Err(error),
                Ok(second) => Ok((first, second)),
            },
        }
    } else {
        match (left, right) {
            (ConstrainedValueView::Unresolved(_), ConstrainedValueView::Unresolved(_)) => Ok(
                (left, right),
            ),
            (ConstrainedValueView::Unresolved(text), _) => match from_other(
                text,
                right,
                span,
                modulus,
            ) {
                Err(error) => Err(error),
                Ok(first) => Ok((first, right)),
            },
            (_, ConstrainedValueView::Unresolved(text)) => match from_other(
                text,
                left,
                span,
                modulus,
            ) {
                Err(error) => Err(error),
                Ok(second) => Ok((left, second)),
            },
            _ => Ok((left, right)),
        }
    }
}

/// The circuit definition that a value is.
pub open spec fn extract_circuit(value: ConstrainedValueView, span: Span) -> Result<
    CircuitView,
    ExpressionErrorView,
> {
    match value {
        ConstrainedValueView::CircuitDefinition(circuit) => Ok(circuit),
        _ => Err(ExpressionErrorView::NotACircuit(value.text(), span)),
    }
}

/// The function that a value is, with the scope that its body runs in: the scope of
/// the circuit that defines it, inside the scope given, or the scope given.
pub open spec fn extract_function(
    value: ConstrainedValueView,
    outer: Seq<char>,
    span: Span,
) -> Result<(Seq<char>, FunctionView), ExpressionErrorView> {
    match value {
        ConstrainedValueView::Function(Some(circuit), function) => Ok(
            (scope(outer, circuit.name), function),
        ),
        ConstrainedValueView::Function(None, function) => Ok((outer, function)),
        _ => Err(ExpressionErrorView::NotAFunction(value.text(), span)),
    }
}

/// Whether the text is a numeral, with or without a minus sign before it.
fn is_signed_numeral(text: &str) -> (result: bool)
    ensures
        result == literal_value(text@) is Some,
{
    let len: usize = text.unicode_len();
    if len > 0 && text.get_char(0) == '-' {
        natural_from_text(text, 1).is_some()
    } else {
        assert(text@.skip(0) =~= text@);
        natural_from_text(text, 0).is_some()
    }
}

impl ConstrainedValue {
    /// Reads an untyped number as a type.
    pub fn from_type(text: &str, type_: &Type, span: Span, modulus: &Modulus) -> (result: Result<
        ConstrainedValue,
        ExpressionError,
    >)
        ensures
            outcome(result) == from_type(text@, type_@, span, modulus@),
    {
        match type_ {
            Type::Integer(kind) => match Integer::new_constant(*kind, text) {
                Some(integer) => Ok(ConstrainedValue::Integer(integer)),
                None => Err(ExpressionError::BadLiteral(String::from_str(text), span)),
            },
            Type::Field => match field_from_text(text, modulus) {
                Some(bytes) => Ok(ConstrainedValue::Field(FieldValue::Constant(bytes))),
                None => Err(ExpressionError::BadLiteral(String::from_str(text), span)),
            },
            Type::Group => if is_signed_numeral(strip_suffix(text, "group")) {
                Ok(ConstrainedValue::Group(Element::Constant(String::from_str(text))))
            } else {
                Err(ExpressionError::BadLiteral(String::from_str(text), span))
            },
            Type::Scalar => {
                let digits = strip_suffix(text, "scalar");
                assert(digits@.skip(0) =~= digits@);
                if natural_from_text(digits, 0).is_some() {
                    Ok(ConstrainedValue::Scalar(Element::Constant(String::from_str(text))))
                } else {
                    Err(ExpressionError::BadLiteral(String::from_str(text), span))
                }
            },
            Type::Boolean => Err(ExpressionError::BadLiteral(String::from_str(text), span)),
            Type::Address => Err(ExpressionError::BadLiteral(String::from_str(text), span)),
            _ => {
                let shown = ConstrainedValue::Unresolved(String::from_str(text)).to_string();
                Err(ExpressionError::TypeMismatch(type_.duplicate(), shown, span))
            },
        }
    }

    /// Reads an untyped number as the kind of its peer.
    pub fn from_other(text: &str, other: &ConstrainedValue, span: Span, modulus: &Modulus) -> (result:
        Result<ConstrainedValue, ExpressionError>)
        ensures
            outcome(result) == from_other(text@, other@, span, modulus@),
    {
        match other {
            ConstrainedValue::Integer(integer) => ConstrainedValue::from_type(
                text,
                &Type::Integer(integer.kind()),
                span,
                modulus,
            ),
            ConstrainedValue::Field(_) => ConstrainedValue::from_type(
                text,
                &Type::Field,
                span,
                modulus,
            ),
            ConstrainedValue::Group(_) => ConstrainedValue::from_type(
                text,
                &Type::Group,
                span,
                modulus,
            ),
            ConstrainedValue::Scalar(_) => ConstrainedValue::from_type(
                text,
                &Type::Scalar,
                span,
                modulus,
            ),
            _ => Err(ExpressionError::BadLiteral(String::from_str(text), span)),
        }
    }

    /// Whether the value is of the type, as far as its outermost form shows.
    pub fn kind_matches(&self, type_: &Type) -> (result: bool)
        ensures
            result == kind_matches(self@, type_@),
    {
        match (self, type_) {
            (ConstrainedValue::Boolean(_), Type::Boolean) => true,
            (ConstrainedValue::Integer(integer), Type::Integer(kind)) => integer.kind() == *kind,
            (ConstrainedValue::Field(_), Type::Field) => true,
            (ConstrainedValue::Group(_), Type::Group) => true,
            (ConstrainedValue::Scalar(_), Type::Scalar) => true,
            (ConstrainedValue::Address(_), Type::Address) => true,
            (ConstrainedValue::Tuple(_), Type::Tuple(_)) => true,
            (ConstrainedValue::CircuitExpression(name, _), Type::Circuit(circuit)) => name.name
                == *circuit,
            (ConstrainedValue::CircuitExpression(_, _), Type::SelfType) => true,
            _ => false,
        }
    }

    /// Holds the value against one type.
    pub fn resolve_against(&self, type_: &Type, span: Span, modulus: &Modulus) -> (result: Result<
        ConstrainedValue,
        ExpressionError,
    >)
        ensures
            outcome(result) == resolve_against(self@, type_@, span, modulus@),
        decreases self,
    {
        match self {
            ConstrainedValue::Unresolved(text) => ConstrainedValue::from_type(
                text.as_str(),
                type_,
                span,
                modulus,
            ),
            ConstrainedValue::Array(values) => match type_ {
                Type::Array(element, dimensions) => {
                    let inner = element.inner_dimension(dimensions);
                    let ghost views = values_view(values@);
                    let mut resolved: Vec<ConstrainedValue> = Vec::new();
                    let mut i: usize = 0;
                    assert(values_view(resolved@) =~= Seq::empty());
                    while i < values.len()
                        invariant
                            0 <= i <= values.len(),
                            self matches ConstrainedValue::Array(x) && x == values,
                            type_ matches Type::Array(e, d) && e == element && d == dimensions,
                            inner@ == inner_dimension(element@, dimensions@),
                            views == values_view(values@),
                            resolve_elements(views, inner@, span, modulus@, i as nat) == Ok::<
                                Seq<ConstrainedValueView>,
                                ExpressionErrorView,
                            >(values_view(resolved@)),
                        decreases values.len() - i,
                    {
                        let ghost before = values_view(resolved@);
                        assert(views[i as int] == values[i as int]@);
                        match values[i].resolve_against(&inner, span, modulus) {
                            Err(error) => {
                                proof {
                                    assert(resolve_elements(
                                        views,
                                        inner@,
                                        span,
                                        modulus@,
                                        (i + 1) as nat,
                                    ) == Err::<Seq<ConstrainedValueView>, ExpressionErrorView>(
                                        error@,
                                    ));
                                    lemma_resolve_elements_fails(
                                        views,
                                        inner@,
                                        span,
                                        modulus@,
                                        (i + 1) as nat,
                                        values.len() as nat,
                                    );
                                }
                                return Err(error);
                            },
                            Ok(value) => {
                                resolved.push(value);
                                assert(values_view(resolved@) =~= before.push(value@));
                            },
                        }
                        i += 1;
                    }
                    if dimensions.len() > 0 && dimensions[0] != values.len() {
                        Err(ExpressionError::InvalidLength(dimensions[0], values.len(), span))
                    } else {
                        Ok(ConstrainedValue::Array(resolved))
                    }
                },
                _ => Err(ExpressionError::TypeMismatch(type_.duplicate(), self.to_string(), span)),
            },
            ConstrainedValue::CircuitDefinition(_)
            | ConstrainedValue::Function(_, _)
            | ConstrainedValue::Static(_)
            | ConstrainedValue::Return(_) => Ok(self.duplicate()),
            _ => if self.kind_matches(type_) {
                Ok(self.duplicate())
            } else {
                Err(ExpressionError::TypeMismatch(type_.duplicate(), self.to_string(), span))
            },
        }
    }

    /// Holds the value against what the context expects.
    pub fn resolve_type(&self, expected: &Vec<Type>, span: Span, modulus: &Modulus) -> (result:
        Result<ConstrainedValue, ExpressionError>)
        ensures
            outcome(result) == resolve_type(self@, types_view(expected@), span, modulus@),
    {
        if expected.len() == 1 {
            self.resolve_against(&expected[0], span, modulus)
        } else {
            Ok(self.duplicate())
        }
    }

    /// Reconciles two operands with what the context expects and with each other.
    pub fn resolve_types(
        &self,
        other: &ConstrainedValue,
        expected: &Vec<Type>,
        span: Span,
        modulus: &Modulus,
    ) -> (result: Result<(ConstrainedValue, ConstrainedValue), ExpressionError>)
        ensures
            match result {
                Ok((first, second)) => Ok::<
                    (ConstrainedValueView, ConstrainedValueView),
                    ExpressionErrorView,
                >((first@, second@)),
                Err(error) => Err(error@),
            } == resolve_types(self@, other@, types_view(expected@), span, modulus@),
    {
        if expected.len() > 0 {
            let first = match self.resolve_type(expected, span, modulus) {
                Ok(first) => first,
                Err(error) => {
                    return Err(error);
                },
            };
            let second = match other.resolve_type(expected, span, modulus) {
                Ok(second) => second,
                Err(error) => {
                    return Err(error);
                },
            };
            Ok((first, second))
        } else {
            match (self, other) {
                (ConstrainedValue::Unresolved(_), ConstrainedValue::Unresolved(_)) => Ok(
                    (self.duplicate(), other.duplicate()),
                ),
                (ConstrainedValue::Unresolved(text), _) => {
                    match ConstrainedValue::from_other(text.as_str(), other, span, modulus) {
                        Ok(first) => Ok((first, other.duplicate())),
                        Err(error) => Err(error),
                    }
                },
                (_, ConstrainedValue::Unresolved(text)) => {
                    match ConstrainedValue::from_other(text.as_str(), self, span, modulus) {
                        Ok(second) => Ok((self.duplicate(), second)),
                        Err(error) => Err(error),
                    }
                },
                _ => Ok((self.duplicate(), other.duplicate())),
            }
        }
    }

    /// The circuit definition that the value is.
    pub fn extract_circuit(&self, span: Span) -> (result: Result<Rc<Circuit>, ExpressionError>)
        ensures
            match result {
                Ok(circuit) => Ok::<CircuitView, ExpressionErrorView>((*circuit)@),
                Err(error) => Err(error@),
            } == extract_circuit(self@, span),
    {
        match self {
            ConstrainedValue::CircuitDefinition(circuit) => Ok(share(circuit)),
            _ => Err(ExpressionError::NotACircuit(self.to_string(), span)),
        }
    }

    /// The function that the value is, with the scope that its body runs in.
    pub fn extract_function(&self, scope: &str, span: Span) -> (result: Result<
        (String, Rc<Function>),
        ExpressionError,
    >)
        ensures
            match result {
                Ok((outer, function)) => Ok::<(Seq<char>, FunctionView), ExpressionErrorView>(
                    (outer@, (*function)@),
                ),
                Err(error) => Err(error@),
            } == extract_function(self@, scope@, span),
    {
        match self {
            ConstrainedValue::Function(Some(circuit), function) => Ok(
                (new_scope(scope, circuit.name.as_str()), share(function)),
            ),
            ConstrainedValue::Function(None, function) => Ok(
                (String::from_str(scope), share(function)),
            ),
            _ => Err(ExpressionError::NotAFunction(self.to_string(), span)),
        }
    }
}

/// Once an element fails, the failure is that of every longer run.
pub proof fn lemma_resolve_elements_fails(
    values: Seq<ConstrainedValueView>,
    type_: TypeView,
    span: Span,
    modulus: nat,
    count: nat,
    longer: nat,
)
    requires
        count <= longer <= values.len(),
        resolve_elements(values, type_, span, modulus, count) is Err,
    ensures
        resolve_elements(values, type_, span, modulus, longer) == resolve_elements(
            values,
            type_,
            span,
            modulus,
            count,
        ),
    decreases longer - count,
{
    if count < longer {
        lemma_resolve_elements_fails(values, type_, span, modulus, count, (longer - 1) as nat);
    }
}

/// What a run of elements resolves to, element by element.
pub proof fn lemma_resolve_elements_each(
    values: Seq<ConstrainedValueView>,
    type_: TypeView,
    span: Span,
    modulus: nat,
    count: nat,
)
    requires
        count <= values.len(),
        resolve_elements(values, type_, span, modulus, count) is Ok,
    ensures
        resolve_elements(values, type_, span, modulus, count)->Ok_0.len() == count,
        forall|j: int|
            0 <= j < count ==> resolve_against(#[trigger] values[j], type_, span, modulus) == Ok::<
                ConstrainedValueView,
                ExpressionErrorView,
            >(resolve_elements(values, type_, span, modulus, count)->Ok_0[j]),
    decreases count,
{
    if count > 0 {
        lemma_resolve_elements_each(values, type_, span, modulus, (count - 1) as nat);
    }
}

/// Elements that each resolve to themselves resolve, as a run, to themselves.
pub proof fn lemma_resolve_elements_fixed(
    values: Seq<ConstrainedValueView>,
    type_: TypeView,
    span: Span,
    modulus: nat,
    count: nat,
)
    requires
        count <= values.len(),
        forall|j: int|
            0 <= j < count ==> resolve_against(#[trigger] values[j], type_, span, modulus) == Ok::<
                ConstrainedValueView,
                ExpressionErrorView,
            >(values[j]),
    ensures
        resolve_elements(values, type_, span, modulus, count) == Ok::<
            Seq<ConstrainedValueView>,
            ExpressionErrorView,
        >(values.subrange(0, count as int)),
    decreases count,
{
    if count > 0 {
        lemma_resolve_elements_fixed(values, type_, span, modulus, (count - 1) as nat);
        assert(values.subrange(0, count - 1).push(values[count - 1]) =~= values.subrange(
            0,
            count as int,
        ));
    } else {
        assert(values.subrange(0, 0) =~= Seq::empty());
    }
}

/// A value that was held against a type stays as it is when held against it again.
pub proof fn lemma_resolve_against_idempotent(
    value: ConstrainedValueView,
    type_: TypeView,
    span: Span,
    modulus: nat,
)
    requires
        resolve_against(value, type_, span, modulus) is Ok,
    ensures
        resolve_against(resolve_against(value, type_, span, modulus)->Ok_0, type_, span, modulus)
            == resolve_against(value, type_, span, modulus),
    decreases value,
{
    match value {
        ConstrainedValueView::Array(values) => {
            match type_ {
                TypeView::Array(element, dimensions) => {
                    let inner = inner_dimension(*element, dimensions);
                    let resolved = resolve_elements(
                        values,
                        inner,
                        span,
                        modulus,
                        values.len(),
                    )->Ok_0;
                    lemma_resolve_elements_each(values, inner, span, modulus, values.len());
                    assert forall|j: int| 0 <= j < resolved.len() implies resolve_against(
                        #[trigger] resolved[j],
                        inner,
                        span,
                        modulus,
                    ) == Ok::<ConstrainedValueView, ExpressionErrorView>(resolved[j]) by {
                        assert(resolve_against(values[j], inner, span, modulus) is Ok);
                        lemma_resolve_against_idempotent(values[j], inner, span, modulus);
                    }
                    lemma_resolve_elements_fixed(resolved, inner, span, modulus, resolved.len());
                    assert(resolved.subrange(0, resolved.len() as int) =~= resolved);
                },
                _ => {},
            }
        },
        _ => {},
    }
}

/// Holding a value against the context is idempotent: what came out of it once comes
/// out of it unchanged.
pub proof fn lemma_resolve_type_idempotent(
    value: ConstrainedValueView,
    expected: Seq<TypeView>,
    span: Span,
    modulus: nat,
)
    requires
        resolve_type(value, expected, span, modulus) is Ok,
    ensures
        resolve_type(resolve_type(value, expected, span, modulus)->Ok_0, expected, span, modulus)
            == resolve_type(value, expected, span, modulus),
{
    if expected.len() == 1 {
        lemma_resolve_against_idempotent(value, expected[0], span, modulus);
    }
}

/// An untyped number read as a type is of that type.
pub proof fn lemma_from_type_is_of_type(text: Seq<char>, type_: TypeView, span: Span, modulus: nat)
    requires
        from_type(text, type_, span, modulus) is Ok,
    ensures
        kind_matches(from_type(text, type_, span, modulus)->Ok_0, type_),
        !(from_type(text, type_, span, modulus)->Ok_0 is Unresolved),
{
}

/// Reconciling two operands never changes an operand that has a type: only an untyped
/// number is changed, and it takes the kind of its typed peer.
pub proof fn lemma_promotion_is_one_way(
    left: ConstrainedValueView,
    right: ConstrainedValueView,
    span: Span,
    modulus: nat,
)
    requires
        resolve_types(left, right, Seq::empty(), span, modulus) is Ok,
    ensures
        ({
            let both = resolve_types(left, right, Seq::empty(), span, modulus)->Ok_0;
            &&& !(left is Unresolved) ==> both.0 == left
            &&& !(right is Unresolved) ==> both.1 == right
            &&& (left is Unresolved) != (right is Unresolved) ==> {
                &&& !(both.0 is Unresolved)
                &&& !(both.1 is Unresolved)
                &&& (both.0 is Integer <==> both.1 is Integer)
                &&& (both.0 is Field <==> both.1 is Field)
                &&& (both.0 is Group <==> both.1 is Group)
                &&& (both.0 is Scalar <==> both.1 is Scalar)
                &&& (both.0 is Integer && both.1 is Integer ==> both.0->Integer_0.kind()
                    == both.1->Integer_0.kind())
            }
        }),
{
    assert(Seq::<TypeView>::empty().len() == 0);
    match (left, right) {
        (ConstrainedValueView::Unresolved(_), ConstrainedValueView::Unresolved(_)) => {},
        (ConstrainedValueView::Unresolved(text), _) => {
            assert(from_other(text, right, span, modulus) is Ok);
        },
        (_, ConstrainedValueView::Unresolved(text)) => {
            assert(from_other(text, left, span, modulus) is Ok);
        },
        _ => {},
    }
}

/// An array that was held against an array type is uniform: it is as long as its
/// elements were many, each element is of the element type, and the array is as long
/// as the type's outermost dimension says, where it has one.
pub proof fn lemma_resolved_array_is_uniform(
    values: Seq<ConstrainedValueView>,
    element: TypeView,
    dimensions: Seq<usize>,
    span: Span,
    modulus: nat,
)
    requires
        resolve_against(
            ConstrainedValueView::Array(values),
            TypeView::Array(Box::new(element), dimensions),
            span,
            modulus,
        ) is Ok,
    ensures
        ({
            let resolved = resolve_against(
                ConstrainedValueView::Array(values),
                TypeView::Array(Box::new(element), dimensions),
                span,
                modulus,
            )->Ok_0;
            &&& resolved is Array
            &&& resolved->Array_0.len() == values.len()
            &&& dimensions.len() > 0 ==> resolved->Array_0.len() == dimensions[0]
            &&& forall|j: int|
                0 <= j < values.len() ==> resolve_against(
                    #[trigger] resolved->Array_0[j],
                    inner_dimension(element, dimensions),
                    span,
                    modulus,
                ) == Ok::<ConstrainedValueView, ExpressionErrorView>(resolved->Array_0[j])
        }),
{
    let inner = inner_dimension(element, dimensions);
    let resolved = resolve_elements(values, inner, span, modulus, values.len())->Ok_0;
    lemma_resolve_elements_each(values, inner, span, modulus, values.len());
    assert forall|j: int| 0 <= j < values.len() implies resolve_against(
        #[trigger] resolved[j],
        inner,
        span,
        modulus,
    ) == Ok::<ConstrainedValueView, ExpressionErrorView>(resolved[j]) by {
        lemma_resolve_against_idempotent(values[j], inner, span, modulus);
    }
}

} // verus!
