//! A small toolkit for evaluating propositional-logic formulas over every
//! truth assignment and assembling the results into a truth table.
//!
//! The crate has three parts: the elementary connectives on booleans, the
//! assignment enumerator (all `2^n` truth-value vectors for `n` atomic
//! propositions, in descending big-endian binary order), and the table
//! builder, which evaluates a list of named formulas against every
//! assignment and produces a header row plus one result row per assignment.

pub mod assignments;
pub mod connectives;
pub mod table;
