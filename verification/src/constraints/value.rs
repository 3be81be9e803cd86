//! The values that expressions evaluate to.

use crate::ast::{Circuit, CircuitView, Function, FunctionView, Identifier, IdentifierView};
use crate::bignum::bytes_value;
use crate::field::{copy_bytes, natural_text};
use crate::integer::{Integer, IntegerView};
use crate::text::{decimal, decimal_text};
use std::rc::Rc;
use vstd::prelude::*;
use vstd::string::*;

verus! {

/// `Rc::clone`: another handle on the same value.
#[verifier::external_body]
pub(crate) fn share<T>(value: &Rc<T>) -> (shared: Rc<T>)
    ensures
        shared == *value,
{
    Rc::clone(value)
}

/// A boolean: a constant, or a wire of the constraint system.
#[derive(Clone, Copy, Debug, PartialEq, Eq, Structural)]
pub enum BooleanValue {
    Constant(bool),
    Allocated(usize),
}

/// A field element: a constant, held as big-endian bytes, or a wire.
#[derive(Debug, PartialEq, Eq)]
pub enum FieldValue {
    Constant(Vec<u8>),
    Allocated(usize),
}

pub enum FieldView {
    Constant(nat),
    Allocated(usize),
}

impl View for FieldValue {
    type V = FieldView;

    open spec fn view(&self) -> FieldView {
        match self {
            FieldValue::Constant(bytes) => FieldView::Constant(bytes_value(bytes@)),
            FieldValue::Allocated(wire) => FieldView::Allocated(*wire),
        }
    }
}

/// An element of the group or of the scalar field: a constant, kept as written, or a wire.
#[derive(Debug, PartialEq, Eq)]
pub enum Element {
    Constant(String),
    Allocated(usize),
}

pub enum ElementView {
    Constant(Seq<char>),
    Allocated(usize),
}

impl View for Element {
    type V = ElementView;

    open spec fn view(&self) -> ElementView {
        match self {
            Element::Constant(text) => ElementView::Constant(text@),
            Element::Allocated(wire) => ElementView::Allocated(*wire),
        }
    }
}

/// How a wire is written: its number, then what it carries.
pub open spec fn wire_text(wire: usize, keyword: Seq<char>) -> Seq<char> {
    "w"@ + decimal(wire as nat) + keyword
}

/// Writes a wire.
pub fn wire_to_string(wire: usize, keyword: &str) -> (text: String)
    ensures
        text@ == wire_text(wire, keyword@),
{
    let mut text = String::from_str("w");
    text.append(decimal_text(wire as u128).as_str());
    text.append(keyword);
    text
}

/// A member of a circuit instance: its name and its value.
#[derive(Debug, PartialEq, Eq)]
pub struct ConstrainedCircuitMember(pub Identifier, pub ConstrainedValue);

/// A value under constraint.
#[derive(Debug, PartialEq, Eq)]
pub enum ConstrainedValue {
    Integer(Integer),
    Field(FieldValue),
    Group(Element),
    Scalar(Element),
    Boolean(BooleanValue),
    Address(String),
    String(String),
    Array(Vec<ConstrainedValue>),
    Tuple(Vec<ConstrainedValue>),
    /// An instance of the circuit named, with its members in the order of their declaration.
    CircuitExpression(Identifier, Vec<ConstrainedCircuitMember>),
    CircuitDefinition(Rc<Circuit>),
    /// A function, with the circuit that defines it where one does.
    Function(Option<Identifier>, Rc<Function>),
    /// A member that is reached through the type and never read through an instance.
    Static(Box<ConstrainedValue>),
    /// A number whose type the context has not settled yet.
    Unresolved(String),
    /// What a function returns.
    Return(Vec<ConstrainedValue>),
}

pub struct ConstrainedCircuitMemberView(pub IdentifierView, pub ConstrainedValueView);

pub enum ConstrainedValueView {
    Integer(IntegerView),
    Field(FieldView),
    Group(ElementView),
    Scalar(ElementView),
    Boolean(BooleanValue),
    Address(Seq<char>),
    String(Seq<char>),
    Array(Seq<ConstrainedValueView>),
    Tuple(Seq<ConstrainedValueView>),
    CircuitExpression(IdentifierView, Seq<ConstrainedCircuitMemberView>),
    CircuitDefinition(CircuitView),
    Function(Option<IdentifierView>, FunctionView),
    Static(Box<ConstrainedValueView>),
    Unresolved(Seq<char>),
    Return(Seq<ConstrainedValueView>),
}

/// The views of a sequence of values.
pub open spec fn values_view(values: Seq<ConstrainedValue>) -> Seq<ConstrainedValueView>
    decreases values,
{
    Seq::new(
        values.len(),
        |i: int|
            if 0 <= i < values.len() {
                values[i].model()
            } else {
                arbitrary()
            },
    )
}

/// The views of the members of a circuit instance.
pub open spec fn members_view(members: Seq<ConstrainedCircuitMember>) -> Seq<
    ConstrainedCircuitMemberView,
>
    decreases members,
{
    Seq::new(
        members.len(),
        |i: int|
            if 0 <= i < members.len() {
                members[i].model()
            } else {
                arbitrary()
            },
    )
}

impl ConstrainedCircuitMember {
    pub open spec fn model(&self) -> ConstrainedCircuitMemberView
        decreases self,
    {
        ConstrainedCircuitMemberView(self.0@, self.1.model())
    }
}

impl View for ConstrainedCircuitMember {
    type V = ConstrainedCircuitMemberView;

    open spec fn view(&self) -> ConstrainedCircuitMemberView {
        self.model()
    }
}

impl ConstrainedValue {
    pub open spec fn model(&self) -> ConstrainedValueView
        decreases self,
    {
        match self {
            ConstrainedValue::Integer(integer) => ConstrainedValueView::Integer(integer@),
            ConstrainedValue::Field(field) => ConstrainedValueView::Field(field@),
            ConstrainedValue::Group(group) => ConstrainedValueView::Group(group@),
            ConstrainedValue::Scalar(scalar) => ConstrainedValueView::Scalar(scalar@),
            ConstrainedValue::Boolean(boolean) => ConstrainedValueView::Boolean(*boolean),
            ConstrainedValue::Address(address) => ConstrainedValueView::Address(address@),
            ConstrainedValue::String(string) => ConstrainedValueView::String(string@),
            ConstrainedValue::Array(values) => ConstrainedValueView::Array(values_view(values@)),
            ConstrainedValue::Tuple(values) => ConstrainedValueView::Tuple(values_view(values@)),
            ConstrainedValue::CircuitExpression(name, members) => {
                ConstrainedValueView::CircuitExpression(name@, members_view(members@))
            },
            ConstrainedValue::CircuitDefinition(circuit) => ConstrainedValueView::CircuitDefinition(
                (**circuit)@,
            ),
            ConstrainedValue::Function(circuit, function) => ConstrainedValueView::Function(
                match circuit {
                    Some(name) => Some(name@),
                    None => None,
                },
                (**function)@,
            ),
            ConstrainedValue::Static(inner) => ConstrainedValueView::Static(
                Box::new(inner.model()),
            ),
            ConstrainedValue::Unresolved(number) => ConstrainedValueView::Unresolved(number@),
            ConstrainedValue::Return(values) => ConstrainedValueView::Return(values_view(values@)),
        }
    }
}

impl View for ConstrainedValue {
    type V = ConstrainedValueView;

    open spec fn view(&self) -> ConstrainedValueView {
        self.model()
    }
}

/// The first `count` values as written, with a comma and a blank between neighbours.
pub open spec fn joined_values(values: Seq<ConstrainedValueView>, count: nat) -> Seq<char>
    decreases values, count,
{
    if count == 0 || count > values.len() {
        Seq::empty()
    } else if count == 1 {
        values[0].text()
    } else {
        joined_values(values, (count - 1) as nat) + ", "@ + values[count - 1].text()
    }
}

/// The first `count` members as written: each a name, a colon and a value.
pub open spec fn joined_members(members: Seq<ConstrainedCircuitMemberView>, count: nat) -> Seq<
    char,
>
    decreases members, count,
{
    if count == 0 || count > members.len() {
        Seq::empty()
    } else if count == 1 {
        members[0].0.name + ": "@ + members[0].1.text()
    } else {
        joined_members(members, (count - 1) as nat) + ", "@ + members[count - 1].0.name + ": "@
            + members[count - 1].1.text()
    }
}

impl ConstrainedValueView {
    /// The value as a diagnostic shows it.
    pub open spec fn text(self) -> Seq<char>
        decreases self, 0nat,
    {
        match self {
            ConstrainedValueView::Integer(integer) => integer.text(),
            ConstrainedValueView::Field(FieldView::Constant(number)) => decimal(number)
                + "field"@,
            ConstrainedValueView::Field(FieldView::Allocated(wire)) => wire_text(wire, "field"@),
            ConstrainedValueView::Group(ElementView::Constant(text)) => text,
            ConstrainedValueView::Group(ElementView::Allocated(wire)) => wire_text(
                wire,
                "group"@,
            ),
            ConstrainedValueView::Scalar(ElementView::Constant(text)) => text,
            ConstrainedValueView::Scalar(ElementView::Allocated(wire)) => wire_text(
                wire,
                "scalar"@,
            ),
            ConstrainedValueView::Boolean(BooleanValue::Constant(boolean)) => if boolean {
                "true"@
            } else {
                "false"@
            },
            ConstrainedValueView::Boolean(BooleanValue::Allocated(wire)) => wire_text(
                wire,
                "bool"@,
            ),
            ConstrainedValueView::Address(address) => address,
            ConstrainedValueView::String(string) => string,
            ConstrainedValueView::Array(values) => "["@ + joined_values(values, values.len())
                + "]"@,
            ConstrainedValueView::Tuple(values) => "("@ + joined_values(values, values.len())
                + ")"@,
            ConstrainedValueView::CircuitExpression(name, members) => name.name + " {"@
                + joined_members(members, members.len()) + "}"@,
            ConstrainedValueView::CircuitDefinition(circuit) => "circuit {"@
                + circuit.circuit_name.name + "}"@,
            ConstrainedValueView::Function(_, function) => "function {"@
                + function.function_name.name + "}"@,
            ConstrainedValueView::Static(inner) => "static "@ + inner.text(),
            ConstrainedValueView::Unresolved(number) => "unresolved "@ + number,
            ConstrainedValueView::Return(values) => "Program output: ["@ + joined_values(
                values,
                values.len(),
            ) + "]"@,
        }
    }
}

/// Writes the values of a list, with a comma and a blank between neighbours.
fn join_values(values: &Vec<ConstrainedValue>) -> (text: String)
    ensures
        text@ == joined_values(values_view(values@), values.len() as nat),
    decreases values,
{
    let mut text = String::new();
    let mut i: usize = 0;
    let ghost views = values_view(values@);
    while i < values.len()
        invariant
            0 <= i <= values.len(),
            views == values_view(values@),
            text@ == joined_values(views, i as nat),
        decreases values.len() - i,
    {
        let ghost before = text@;
        if i > 0 {
            text.append(", ");
        }
        let item = values[i].to_string();
        text.append(item.as_str());
        proof {
            assert(views[i as int] == values[i as int]@);
            if i > 0 {
                assert(text@ =~= before + ", "@ + views[i as int].text());
            } else {
                assert(before =~= Seq::<char>::empty());
                assert(text@ =~= views[0].text());
            }
        }
        i += 1;
    }
    text
}

/// Writes the members of a circuit instance.
fn join_members(members: &Vec<ConstrainedCircuitMember>) -> (text: String)
    ensures
        text@ == joined_members(members_view(members@), members.len() as nat),
    decreases members,
{
    let mut text = String::new();
    let mut i: usize = 0;
    let ghost views = members_view(members@);
    while i < members.len()
        invariant
            0 <= i <= members.len(),
            views == members_view(members@),
            text@ == joined_members(views, i as nat),
        decreases members.len() - i,
    {
        let ghost before = text@;
        if i > 0 {
            text.append(", ");
        }
        text.append(members[i].0.name.as_str());
        text.append(": ");
        let item = members[i].1.to_string();
        text.append(item.as_str());
        proof {
            assert(views[i as int] == members[i as int]@);
            if i > 0 {
                assert(text@ =~= before + ", "@ + views[i as int].0.name + ": "@
                    + views[i as int].1.text());
            } else {
                assert(before =~= Seq::<char>::empty());
                assert(text@ =~= views[0].0.name + ": "@ + views[0].1.text());
            }
        }
        i += 1;
    }
    text
}

/// A copy of a list of values.
pub fn duplicate_values(values: &Vec<ConstrainedValue>) -> (copy: Vec<ConstrainedValue>)
    ensures
        values_view(copy@) == values_view(values@),
    decreases values,
{
    let mut copy: Vec<ConstrainedValue> = Vec::new();
    let mut i: usize = 0;
    while i < values.len()
        invariant
            0 <= i <= values.len(),
            copy.len() == i,
            forall|j: int| 0 <= j < i ==> copy[j]@ == values[j]@,
        decreases values.len() - i,
    {
        copy.push(values[i].duplicate());
        i += 1;
    }
    assert(values_view(copy@) =~= values_view(values@));
    copy
}

/// A copy of the members of a circuit instance.
pub fn duplicate_members(members: &Vec<ConstrainedCircuitMember>) -> (copy: Vec<
    ConstrainedCircuitMember,
>)
    ensures
        members_view(copy@) == members_view(members@),
    decreases members,
{
    let mut copy: Vec<ConstrainedCircuitMember> = Vec::new();
    let mut i: usize = 0;
    while i < members.len()
        invariant
            0 <= i <= members.len(),
            copy.len() == i,
            forall|j: int| 0 <= j < i ==> copy[j]@ == members[j]@,
        decreases members.len() - i,
    {
        let member = ConstrainedCircuitMember(
            members[i].0.duplicate(),
            members[i].1.duplicate(),
        );
        copy.push(member);
        i += 1;
    }
    assert(members_view(copy@) =~= members_view(members@));
    copy
}

impl FieldValue {
    /// A copy of the field element.
    pub fn duplicate(&self) -> (copy: FieldValue)
        ensures
            copy@ == self@,
    {
        match self {
            FieldValue::Constant(bytes) => FieldValue::Constant(copy_bytes(bytes)),
            FieldValue::Allocated(wire) => FieldValue::Allocated(*wire),
        }
    }
}

impl Element {
    /// A copy of the element.
    pub fn duplicate(&self) -> (copy: Element)
        ensures
            copy@ == self@,
    {
        match self {
            Element::Constant(text) => Element::Constant(text.clone()),
            Element::Allocated(wire) => Element::Allocated(*wire),
        }
    }
}

impl ConstrainedValue {
    /// The value as a diagnostic shows it.
    pub fn to_string(&self) -> (text: String)
        ensures
            text@ == self@.text(),
        decreases self,
    {
        match self {
            ConstrainedValue::Integer(integer) => integer.fmt(),
            ConstrainedValue::Field(FieldValue::Constant(bytes)) => {
                let mut text = natural_text(bytes);
                text.append("field");
                text
            },
            ConstrainedValue::Field(FieldValue::Allocated(wire)) => wire_to_string(*wire, "field"),
            ConstrainedValue::Group(Element::Constant(text)) => text.clone(),
            ConstrainedValue::Group(Element::Allocated(wire)) => wire_to_string(*wire, "group"),
            ConstrainedValue::Scalar(Element::Constant(text)) => text.clone(),
            ConstrainedValue::Scalar(Element::Allocated(wire)) => wire_to_string(*wire, "scalar"),
            ConstrainedValue::Boolean(BooleanValue::Constant(boolean)) => if *boolean {
                String::from_str("true")
            } else {
                String::from_str("false")
            },
            ConstrainedValue::Boolean(BooleanValue::Allocated(wire)) => wire_to_string(
                *wire,
                "bool",
            ),
            ConstrainedValue::Address(address) => address.clone(),
            ConstrainedValue::String(string) => string.clone(),
            ConstrainedValue::Array(values) => {
                let mut text = String::from_str("[");
                text.append(join_values(values).as_str());
                text.append("]");
                text
            },
            ConstrainedValue::Tuple(values) => {
                let mut text = String::from_str("(");
                text.append(join_values(values).as_str());
                text.append(")");
                text
            },
            ConstrainedValue::CircuitExpression(name, members) => {
                let mut text = name.name.clone();
                text.append(" {");
                text.append(join_members(members).as_str());
                text.append("}");
                text
            },
            ConstrainedValue::CircuitDefinition(circuit) => {
                let mut text = String::from_str("circuit {");
                text.append(circuit.circuit_name.name.as_str());
                text.append("}");
                text
            },
            ConstrainedValue::Function(_, function) => {
                let mut text = String::from_str("function {");
                text.append(function.get_name());
                text.append("}");
                text
            },
            ConstrainedValue::Static(inner) => {
                let mut text = String::from_str("static ");
                text.append(inner.to_string().as_str());
                text
            },
            ConstrainedValue::Unresolved(number) => {
                let mut text = String::from_str("unresolved ");
                text.append(number.as_str());
                text
            },
            ConstrainedValue::Return(values) => {
                let mut text = String::from_str("Program output: [");
                text.append(join_values(values).as_str());
                text.append("]");
                text
            },
        }
    }

    /// A copy of the value.
    pub fn duplicate(&self) -> (copy: ConstrainedValue)
        ensures
            copy@ == self@,
        decreases self,
    {
        match self {
            ConstrainedValue::Integer(integer) => ConstrainedValue::Integer(*integer),
            ConstrainedValue::Field(field) => ConstrainedValue::Field(field.duplicate()),
            ConstrainedValue::Group(group) => ConstrainedValue::Group(group.duplicate()),
            ConstrainedValue::Scalar(scalar) => ConstrainedValue::Scalar(scalar.duplicate()),
            ConstrainedValue::Boolean(boolean) => ConstrainedValue::Boolean(*boolean),
            ConstrainedValue::Address(address) => ConstrainedValue::Address(address.clone()),
            ConstrainedValue::String(string) => ConstrainedValue::String(string.clone()),
            ConstrainedValue::Array(values) => ConstrainedValue::Array(duplicate_values(values)),
            ConstrainedValue::Tuple(values) => ConstrainedValue::Tuple(duplicate_values(values)),
            ConstrainedValue::CircuitExpression(name, members) => {
                ConstrainedValue::CircuitExpression(name.duplicate(), duplicate_members(members))
            },
            ConstrainedValue::CircuitDefinition(circuit) => ConstrainedValue::CircuitDefinition(
                share(circuit),
            ),
            ConstrainedValue::Function(circuit, function) => ConstrainedValue::Function(
                match circuit {
                    Some(name) => Some(name.duplicate()),
                    None => None,
                },
                share(function),
            ),
            ConstrainedValue::Static(inner) => ConstrainedValue::Static(
                Box::new(inner.duplicate()),
            ),
            ConstrainedValue::Unresolved(number) => ConstrainedValue::Unresolved(number.clone()),
            ConstrainedValue::Return(values) => ConstrainedValue::Return(duplicate_values(values)),
        }
    }
}

} // verus!
