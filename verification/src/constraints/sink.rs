//! The constraint sink: the record, in order, of every wire allocated and every gadget
//! enforced. A wire is known by the position of the record that made it.

use crate::constraints::value::{ConstrainedValue, ConstrainedValueView, values_view};
use vstd::prelude::*;
use vstd::string::*;

verus! {

/// What a record of the sink asks of the constraint system.
#[derive(Clone, Copy, Debug, PartialEq, Eq, Structural)]
pub enum Gadget {
    /// A wire for a public input.
    Input,
    /// A wire for a private witness.
    Witness,
    Add,
    Sub,
    Mul,
    Div,
    Pow,
    Not,
    And,
    Or,
    /// A boolean wire that says whether the two operands are equal.
    Eq,
    /// A wire that carries the second operand where the first is true, else the third.
    Select,
}

/// One record of the sink: a gadget under a name, on its operands. Its result is the
/// wire numbered by the record's position in the sink.
#[derive(Debug, PartialEq, Eq)]
pub struct Constraint {
    pub namespace: String,
    pub gadget: Gadget,
    pub operands: Vec<ConstrainedValue>,
}

pub struct ConstraintView {
    pub namespace: Seq<char>,
    pub gadget: Gadget,
    pub operands: Seq<ConstrainedValueView>,
}

impl View for Constraint {
    type V = ConstraintView;

    open spec fn view(&self) -> ConstraintView {
        ConstraintView {
            namespace: self.namespace@,
            gadget: self.gadget,
            operands: values_view(self.operands@),
        }
    }
}

/// The sink. Records are only ever appended.
#[derive(Debug, PartialEq, Eq)]
pub struct ConstraintSink {
    /// What stands before the name of every record made now.
    pub prefix: String,
    pub constraints: Vec<Constraint>,
}

pub struct ConstraintSinkView {
    pub prefix: Seq<char>,
    pub constraints: Seq<ConstraintView>,
}

impl View for ConstraintSink {
    type V = ConstraintSinkView;

    open spec fn view(&self) -> ConstraintSinkView {
        ConstraintSinkView {
            prefix: self.prefix@,
            constraints: Seq::new(self.constraints@.len(), |i: int| self.constraints@[i]@),
        }
    }
}

impl ConstraintSinkView {
    /// The wire that the next record makes.
    pub open spec fn next_wire(self) -> nat {
        self.constraints.len()
    }

    /// The sink with one more record, named under the current prefix.
    pub open spec fn enforce(
        self,
        name: Seq<char>,
        gadget: Gadget,
        operands: Seq<ConstrainedValueView>,
    ) -> ConstraintSinkView {
        ConstraintSinkView {
            prefix: self.prefix,
            constraints: self.constraints.push(
                ConstraintView { namespace: self.prefix + name, gadget, operands },
            ),
        }
    }

    /// The sink inside the namespace `name`.
    pub open spec fn enter(self, name: Seq<char>) -> ConstraintSinkView {
        ConstraintSinkView { prefix: self.prefix + name + "/"@, constraints: self.constraints }
    }

    /// The sink back under the prefix `previous`.
    pub open spec fn leave(self, previous: Seq<char>) -> ConstraintSinkView {
        ConstraintSinkView { prefix: previous, constraints: self.constraints }
    }

    /// Whether `later` holds every record of this sink, in place, and maybe more.
    pub open spec fn extended_by(self, later: ConstraintSinkView) -> bool {
        self.constraints.len() <= later.constraints.len() && later.constraints.subrange(
            0,
            self.constraints.len() as int,
        ) == self.constraints
    }
}

impl ConstraintSink {
    /// An empty sink.
    pub fn new() -> (sink: ConstraintSink)
        ensures
            sink@.prefix == Seq::<char>::empty(),
            sink@.constraints == Seq::<ConstraintView>::empty(),
    {
        let sink = ConstraintSink { prefix: String::new(), constraints: Vec::new() };
        assert(sink@.constraints =~= Seq::<ConstraintView>::empty());
        sink
    }

    /// How many records the sink holds.
    pub fn len(&self) -> (count: usize)
        ensures
            count == self@.constraints.len(),
    {
        self.constraints.len()
    }

    /// Appends a record for `gadget` on `operands`, named `name` under the current
    /// prefix, and returns the wire that it makes.
    pub fn enforce(&mut self, name: &str, gadget: Gadget, operands: Vec<ConstrainedValue>) -> (wire:
        usize)
        ensures
            wire == old(self)@.next_wire(),
            final(self)@ == old(self)@.enforce(name@, gadget, values_view(operands@)),
    {
        let wire: usize = self.constraints.len();
        let mut namespace = self.prefix.clone();
        namespace.append(name);
        self.constraints.push(Constraint { namespace, gadget, operands });
        assert(self@.constraints =~= old(self)@.enforce(
            name@,
            gadget,
            values_view(operands@),
        ).constraints);
        wire
    }

    /// Allocates a wire for a public input.
    pub fn allocate_input(&mut self, name: &str) -> (wire: usize)
        ensures
            wire == old(self)@.next_wire(),
            final(self)@ == old(self)@.enforce(name@, Gadget::Input, Seq::empty()),
    {
        let operands: Vec<ConstrainedValue> = Vec::new();
        assert(values_view(operands@) =~= Seq::empty());
        self.enforce(name, Gadget::Input, operands)
    }

    /// Allocates a wire for a private witness.
    pub fn allocate_witness(&mut self, name: &str) -> (wire: usize)
        ensures
            wire == old(self)@.next_wire(),
            final(self)@ == old(self)@.enforce(name@, Gadget::Witness, Seq::empty()),
    {
        let operands: Vec<ConstrainedValue> = Vec::new();
        assert(values_view(operands@) =~= Seq::empty());
        self.enforce(name, Gadget::Witness, operands)
    }

    /// Enters the namespace `name` and returns the prefix that was current.
    pub fn ns(&mut self, name: &str) -> (previous: String)
        ensures
            previous@ == old(self)@.prefix,
            final(self)@ == old(self)@.enter(name@),
    {
        let previous = self.prefix.clone();
        self.prefix.append(name);
        self.prefix.append("/");
        assert(self@.constraints =~= old(self)@.constraints);
        previous
    }

    /// Goes back to the prefix `previous`.
    pub fn leave(&mut self, previous: String)
        ensures
            final(self)@ == old(self)@.leave(previous@),
    {
        self.prefix = previous;
        assert(self@.constraints =~= old(self)@.constraints);
    }
}

/// No operation of the sink takes a record away or changes one.
pub proof fn lemma_sink_grows(
    sink: ConstraintSinkView,
    name: Seq<char>,
    gadget: Gadget,
    operands: Seq<ConstrainedValueView>,
    previous: Seq<char>,
)
    ensures
        sink.extended_by(sink.enforce(name, gadget, operands)),
        sink.extended_by(sink.enter(name)),
        sink.extended_by(sink.leave(previous)),
        sink.enforce(name, gadget, operands).constraints.len() == sink.constraints.len() + 1,
{
    assert(sink.enforce(name, gadget, operands).constraints.subrange(
        0,
        sink.constraints.len() as int,
    ) =~= sink.constraints);
    assert(sink.constraints.subrange(0, sink.constraints.len() as int) =~= sink.constraints);
}

} // verus!
