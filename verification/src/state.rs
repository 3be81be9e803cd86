//! The `state` production of the input grammar.

use crate::span::Span;
use vstd::prelude::*;

verus! {

/// The keyword `state` in an input file, with the place where it stood.
#[derive(Clone, Copy, Debug, PartialEq, Eq, Structural)]
pub struct State {
    pub span: Span,
}

impl State {
    pub fn new(span: Span) -> (state: State)
        ensures
            state.span == span,
    {
        State { span }
    }
}

} // verus!
