//! Source positions.

use vstd::prelude::*;

verus! {

/// A position in a source file: the line, and the first and last column of the node.
#[derive(Clone, Copy, Debug, PartialEq, Eq, Structural)]
pub struct Span {
    pub line: usize,
    pub start: usize,
    pub end: usize,
}

impl Span {
    pub fn new(line: usize, start: usize, end: usize) -> (span: Span)
        ensures
            span == (Span { line, start, end }),
    {
        Span { line, start, end }
    }
}

} // verus!
