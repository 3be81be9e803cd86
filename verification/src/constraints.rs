//! Values under constraint, the sink that records the constraints, and the evaluator
//! that produces both from expressions.

pub mod evaluation;
pub mod expression;
pub mod invariants;
pub mod operation;
pub mod program;
pub mod resolve;
pub mod semantics;
pub mod sink;
pub mod value;
