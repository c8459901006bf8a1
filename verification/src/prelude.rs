//! Short names for building formulas.

use crate::form::Formula;
use vstd::prelude::*;

verus! {

/// The variable `c`.
pub fn var(c: char) -> (r: Box<Formula>)
    ensures
        *r == Formula::Var(c),
{
    Box::new(Formula::Var(c))
}

/// The negation of `p`.
pub fn not(p: Box<Formula>) -> (r: Box<Formula>)
    ensures
        *r == Formula::Not(p),
{
    Box::new(Formula::Not(p))
}

/// The conjunction of `p` and `q`.
pub fn and(p: Box<Formula>, q: Box<Formula>) -> (r: Box<Formula>)
    ensures
        *r == Formula::And(p, q),
{
    Box::new(Formula::And(p, q))
}

/// The disjunction of `p` and `q`.
pub fn or(p: Box<Formula>, q: Box<Formula>) -> (r: Box<Formula>)
    ensures
        *r == Formula::Or(p, q),
{
    Box::new(Formula::Or(p, q))
}

/// The implication from `p` to `q`.
pub fn implies(p: Box<Formula>, q: Box<Formula>) -> (r: Box<Formula>)
    ensures
        *r == Formula::Implies(p, q),
{
    Box::new(Formula::Implies(p, q))
}

/// The equivalence of `p` and `q`.
pub fn iff(p: Box<Formula>, q: Box<Formula>) -> (r: Box<Formula>)
    ensures
        *r == Formula::Iff(p, q),
{
    Box::new(Formula::Iff(p, q))
}

} // verus!
