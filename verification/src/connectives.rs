//! The six elementary logical connectives on booleans.
//!
//! Each function's contract states its full two-valued truth table, so a
//! caller (and the table builder) can reason about compound propositions
//! built from them.

use vstd::prelude::*;

verus! {

/// The negation connective.
pub fn not(a: bool) -> (r: bool)
    ensures
        r == !a,
{
    !a
}

/// The conjunction connective.
pub fn and(a: bool, b: bool) -> (r: bool)
    ensures
        r == (a && b),
{
    a && b
}

/// The disjunction connective.
pub fn or(a: bool, b: bool) -> (r: bool)
    ensures
        r == (a || b),
{
    a || b
}

/// The exclusive-disjunction connective.
pub fn xor(a: bool, b: bool) -> (r: bool)
    ensures
        r == (a != b),
{
    a ^ b
}

/// The implication connective: `imply(a, b) == not(a) or b`.
pub fn imply(a: bool, b: bool) -> (r: bool)
    ensures
        r == (!a || b),
{
    !a || b
}

/// The biconditional connective: true exactly when both arguments agree.
pub fn iff(a: bool, b: bool) -> (r: bool)
    ensures
        r == (a == b),
{
    imply(a, b) && imply(b, a)
}

} // verus!
