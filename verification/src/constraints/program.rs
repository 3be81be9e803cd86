//! The program under synthesis: the field it is over and the table of named values.

use crate::constraints::value::{ConstrainedValue, ConstrainedValueView};
use crate::field::Modulus;
use vstd::prelude::*;
use vstd::string::*;

verus! {

/// How deep calls should be let to nest.
pub const RECURSION_LIMIT: usize = 256;

/// The name `inner` inside the scope `outer`.
pub open spec fn scope(outer: Seq<char>, inner: Seq<char>) -> Seq<char> {
    outer + "_"@ + inner
}

/// Composes the name `inner_scope` inside the scope `outer_scope`.
pub fn new_scope(outer_scope: &str, inner_scope: &str) -> (name: String)
    ensures
        name@ == scope(outer_scope@, inner_scope@),
{
    let mut name = String::from_str(outer_scope);
    name.append("_");
    name.append(inner_scope);
    name
}

/// The value that the table holds under `key`: that of the last entry made for it.
pub open spec fn lookup(
    entries: Seq<(Seq<char>, ConstrainedValueView)>,
    key: Seq<char>,
) -> Option<ConstrainedValueView>
    decreases entries.len(),
{
    if entries.len() == 0 {
        None
    } else if entries.last().0 == key {
        Some(entries.last().1)
    } else {
        lookup(entries.drop_last(), key)
    }
}

/// The program under synthesis.
#[derive(Debug, PartialEq, Eq)]
pub struct ConstrainedProgram {
    /// The modulus of the field that the constraint system is over.
    pub modulus: Modulus,
    /// The named values, in the order in which they were stored.
    pub identifiers: Vec<(String, ConstrainedValue)>,
}

pub struct ConstrainedProgramView {
    pub modulus: nat,
    pub identifiers: Seq<(Seq<char>, ConstrainedValueView)>,
}

impl View for ConstrainedProgram {
    type V = ConstrainedProgramView;

    open spec fn view(&self) -> ConstrainedProgramView {
        ConstrainedProgramView {
            modulus: self.modulus@,
            identifiers: Seq::new(
                self.identifiers@.len(),
                |i: int| (self.identifiers@[i].0@, self.identifiers@[i].1@),
            ),
        }
    }
}

impl ConstrainedProgramView {
    /// The value stored under `name`, if any.
    pub open spec fn get(self, name: Seq<char>) -> Option<ConstrainedValueView> {
        lookup(self.identifiers, name)
    }

    /// The program with `value` stored under `name`.
    pub open spec fn store(self, name: Seq<char>, value: ConstrainedValueView) -> Self {
        ConstrainedProgramView { identifiers: self.identifiers.push((name, value)), ..self }
    }

    /// The value that an identifier stands for: the one under its name in the function's
    /// scope, else the one in the file's scope, else the one under the bare name.
    pub open spec fn resolve(
        self,
        file_scope: Seq<char>,
        function_scope: Seq<char>,
        name: Seq<char>,
    ) -> Option<ConstrainedValueView> {
        if self.get(scope(function_scope, name)) is Some {
            self.get(scope(function_scope, name))
        } else if self.get(scope(file_scope, name)) is Some {
            self.get(scope(file_scope, name))
        } else {
            self.get(name)
        }
    }
}

impl ConstrainedProgram {
    /// A program over the field of the given modulus, with nothing stored.
    pub fn new(modulus: Modulus) -> (program: ConstrainedProgram)
        ensures
            program@ == (ConstrainedProgramView { modulus: modulus@, identifiers: Seq::empty() }),
    {
        let program = ConstrainedProgram { modulus, identifiers: Vec::new() };
        assert(program@.identifiers =~= Seq::empty());
        program
    }

    /// Stores `value` under `name`. An earlier value under that name is hidden.
    pub fn store(&mut self, name: String, value: ConstrainedValue)
        ensures
            final(self)@ == old(self)@.store(name@, value@),
    {
        self.identifiers.push((name, value));
        assert(self@.identifiers =~= old(self)@.store(name@, value@).identifiers);
    }

    /// The value stored under `name`, if any.
    pub fn get(&self, name: &str) -> (value: Option<&ConstrainedValue>)
        ensures
            value is Some <==> self@.get(name@) is Some,
            value matches Some(v) ==> Some(v@) == self@.get(name@),
    {
        let key = String::from_str(name);
        let mut i: usize = self.identifiers.len();
        let ghost entries = self@.identifiers;
        assert(entries.subrange(0, i as int) =~= entries);
        while i > 0
            invariant
                0 <= i <= self.identifiers.len(),
                entries == self@.identifiers,
                key@ == name@,
                lookup(entries, name@) == lookup(entries.subrange(0, i as int), name@),
            decreases i,
        {
            i -= 1;
            let ghost part = entries.subrange(0, i + 1);
            assert(part.last() == entries[i as int]);
            assert(part.drop_last() =~= entries.subrange(0, i as int));
            if self.identifiers[i].0 == key {
                return Some(&self.identifiers[i].1);
            }
        }
        None
    }
}

/// What was stored last under a name is what the table holds under it, and storing
/// under one name leaves every other name as it was.
pub proof fn lemma_store_then_get(
    program: ConstrainedProgramView,
    name: Seq<char>,
    value: ConstrainedValueView,
    other: Seq<char>,
)
    ensures
        program.store(name, value).get(name) == Some(value),
        other != name ==> program.store(name, value).get(other) == program.get(other),
{
    let stored = program.store(name, value).identifiers;
    assert(stored.last() == (name, value));
    assert(stored.drop_last() =~= program.identifiers);
}

/// A name of the function's scope hides the same name of the file's scope, which hides
/// the bare name.
pub proof fn lemma_scope_shadowing(
    program: ConstrainedProgramView,
    file_scope: Seq<char>,
    function_scope: Seq<char>,
    name: Seq<char>,
)
    ensures
        program.get(scope(function_scope, name)) matches Some(v) ==> program.resolve(
            file_scope,
            function_scope,
            name,
        ) == Some(v),
        program.get(scope(function_scope, name)) is None ==> (program.get(
            scope(file_scope, name),
        ) matches Some(v) ==> program.resolve(file_scope, function_scope, name) == Some(v)),
        program.get(scope(function_scope, name)) is None && program.get(scope(file_scope, name))
            is None ==> program.resolve(file_scope, function_scope, name) == program.get(name),
{
}

} // verus!
