//! Term matchers: predicates over terms that a query planner can inspect.
//!
//! A matcher answers "does this term match?" and may additionally expose a
//! single constant term when it matches exactly one value, which lets the
//! planner treat the corresponding slot of a triple pattern as bound.

use vstd::prelude::*;

use crate::term::{Term, TermV};

verus! {

/// A predicate over terms. Besides deciding a term, a matcher may declare
/// that it admits exactly one constant term, so that a pattern slot using
/// it can be treated as bound to that constant.
pub trait TermMatcher: Sized {
    /// The predicate this matcher decides, as a mathematical function of
    /// the term's content.
    spec fn spec_matches(&self, t: TermV) -> bool;

    /// Does `t` match?
    fn matches(&self, t: &Term) -> (r: bool)
        ensures
            r == self.spec_matches(t@),
    ;

    /// The single constant term this matcher admits, if it admits exactly
    /// one. `None` promises nothing: the matcher may still be arbitrary.
    fn constant(&self) -> (r: Option<&Term>)
        ensures
            match r {
                Some(c) => forall|t: TermV| self.spec_matches(t) <==> t == c@,
                None => true,
            },
    ;
}

/// A term used as its own matcher: it matches exactly the terms equal to
/// itself, and is therefore a bound slot for the planner.
impl TermMatcher for Term {
    open spec fn spec_matches(&self, t: TermV) -> bool {
        t == self@
    }

    fn matches(&self, t: &Term) -> (r: bool) {
        t.eq_term(self)
    }

    fn constant(&self) -> (r: Option<&Term>) {
        Some(self)
    }
}

/// The matcher that accepts every term: an unconstrained pattern slot.
pub struct AnyTerm;

impl TermMatcher for AnyTerm {
    open spec fn spec_matches(&self, t: TermV) -> bool {
        true
    }

    fn matches(&self, t: &Term) -> (r: bool) {
        true
    }

    fn constant(&self) -> (r: Option<&Term>) {
        None
    }
}

/// The negation of another matcher: it matches exactly the terms the
/// inner matcher rejects. It never exposes a constant.
pub struct Negated<M: TermMatcher>(pub M);

impl<M: TermMatcher> TermMatcher for Negated<M> {
    open spec fn spec_matches(&self, t: TermV) -> bool {
        !self.0.spec_matches(t)
    }

    fn matches(&self, t: &Term) -> (r: bool) {
        !self.0.matches(t)
    }

    fn constant(&self) -> (r: Option<&Term>) {
        None
    }
}

} // verus!
