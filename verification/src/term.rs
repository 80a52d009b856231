//! The term and triple model.
//!
//! A term is an immutable RDF value: an IRI, a literal, a blank node or a
//! variable. Two terms are equal iff their semantic content (kind plus
//! lexical value) is equal, independent of how the strings are stored.

use vstd::prelude::*;

verus! {

/// The mathematical value of a term: its kind and its textual content,
/// as sequences of characters.
pub enum TermV {
    Iri(Seq<char>),
    BlankNode(Seq<char>),
    Literal { value: Seq<char>, datatype: Seq<char>, language: Option<Seq<char>> },
    Variable(Seq<char>),
}

/// An RDF term. Equality is structural on the content, never on the
/// storage strategy of the strings.
#[derive(Debug, PartialEq, Eq)]
pub enum Term {
    Iri(String),
    BlankNode(String),
    Literal { value: String, datatype: String, language: Option<String> },
    Variable(String),
}

impl View for Term {
    type V = TermV;

    open spec fn view(&self) -> TermV {
        match self {
            Term::Iri(s) => TermV::Iri(s@),
            Term::BlankNode(s) => TermV::BlankNode(s@),
            Term::Literal { value, datatype, language } => TermV::Literal {
                value: value@,
                datatype: datatype@,
                language: match language {
                    Some(l) => Some(l@),
                    None => None,
                },
            },
            Term::Variable(s) => TermV::Variable(s@),
        }
    }
}

impl DeepView for Term {
    type V = TermV;

    open spec fn deep_view(&self) -> TermV {
        self.view()
    }
}

impl Term {
    /// Content equality: do the two terms have the same kind and the same
    /// textual content?
    pub fn eq_term(&self, other: &Term) -> (r: bool)
        ensures
            r == (self@ == other@),
    {
        match (self, other) {
            (Term::Iri(a), Term::Iri(b)) => *a == *b,
            (Term::BlankNode(a), Term::BlankNode(b)) => *a == *b,
            (
                Term::Literal { value: v1, datatype: d1, language: l1 },
                Term::Literal { value: v2, datatype: d2, language: l2 },
            ) => *v1 == *v2 && *d1 == *d2 && (match (l1, l2) {
                (Some(a), Some(b)) => *a == *b,
                (None, None) => true,
                _ => false,
            }),
            (Term::Variable(a), Term::Variable(b)) => *a == *b,
            _ => false,
        }
    }

    /// An owned copy with the same content.
    pub fn clone_term(&self) -> (r: Term)
        ensures
            r@ == self@,
    {
        match self {
            Term::Iri(s) => Term::Iri(s.clone()),
            Term::BlankNode(s) => Term::BlankNode(s.clone()),
            Term::Literal { value, datatype, language } => Term::Literal {
                value: value.clone(),
                datatype: datatype.clone(),
                language: match language {
                    Some(l) => Some(l.clone()),
                    None => None,
                },
            },
            Term::Variable(s) => Term::Variable(s.clone()),
        }
    }
}

/// The mathematical value of a triple: an ordered (subject, predicate,
/// object) tuple of term values.
pub struct TripleV {
    pub s: TermV,
    pub p: TermV,
    pub o: TermV,
}

/// An ordered (subject, predicate, object) tuple of terms. A triple has no
/// identity beyond its content; a graph may store the same content more
/// than once unless it asserts set semantics.
#[derive(Debug, PartialEq, Eq)]
pub struct Triple {
    pub s: Term,
    pub p: Term,
    pub o: Term,
}

impl View for Triple {
    type V = TripleV;

    open spec fn view(&self) -> TripleV {
        TripleV { s: self.s@, p: self.p@, o: self.o@ }
    }
}

impl DeepView for Triple {
    type V = TripleV;

    open spec fn deep_view(&self) -> TripleV {
        self.view()
    }
}

impl Triple {
    /// Content equality of the three positions.
    pub fn eq_triple(&self, other: &Triple) -> (r: bool)
        ensures
            r == (self@ == other@),
    {
        self.s.eq_term(&other.s) && self.p.eq_term(&other.p) && self.o.eq_term(&other.o)
    }

    /// An owned copy with the same content.
    pub fn clone_triple(&self) -> (r: Triple)
        ensures
            r@ == self@,
    {
        Triple { s: self.s.clone_term(), p: self.p.clone_term(), o: self.o.clone_term() }
    }
}

} // verus!
