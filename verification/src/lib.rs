//! Constraint synthesis for Leo programs.
//!
//! A resolved Leo program is walked expression by expression. Each expression evaluates
//! to a constrained value: a constant, which is folded here, or a wire of the constraint
//! system. Whatever touches a wire is not computed but recorded: the evaluator appends
//! to a constraint sink, in order, one record for each gadget that the proving backend
//! has to enforce, with the namespace it stands in and the values it works on. A wire is
//! known by the position of the record that made it, so the sink is the whole transcript
//! of a synthesis, and two syntheses of one program leave the same transcript.
//!
//! - [`ast`], [`literal`], [`types`] and [`span`] hold the resolved syntax tree, and
//!   [`text`] reads and writes decimal numerals.
//! - [`integer`] and [`field`] fold constants: integers of the ten kinds with checked
//!   arithmetic, and residues modulo the modulus of the field, on numbers of any size
//!   ([`bignum`]).
//! - [`constraints`] holds the values, the table of named values, the sink, the rules
//!   that reconcile values with expected types, and the evaluator of expressions,
//!   statements and calls. What the evaluator computes is written down as mathematics
//!   in `constraints::semantics` and `constraints::evaluation`, and every function of
//!   the evaluator is proved to compute exactly that; `constraints::invariants` proves
//!   what no evaluation undoes.
//! - [`errors`] holds the errors and how diagnostics show them.
//! - [`verification_key`] names and locates the verification key file of a package, and
//!   [`state`] is the `state` production of the input grammar.

pub mod ast;
pub mod bignum;
pub mod constraints;
pub mod errors;
pub mod field;
pub mod integer;
pub mod literal;
pub mod span;
pub mod state;
pub mod text;
pub mod types;
pub mod verification_key;
