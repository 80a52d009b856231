//! The graph capabilities: read-side lookup and pattern dispatch, write-side
//! mutation, and the set-semantics marker.
//!
//! Full iteration is the single source of truth: every derived accessor is
//! specified as a filter over the triples `iter` yields, and the default
//! implementations are proved against exactly those specifications, so a
//! backend that overrides an accessor must produce the same triples.

use vstd::prelude::*;

use crate::matcher::{AnyTerm, Negated, TermMatcher};
use crate::seq_facts::{lemma_filter_equiv, lemma_filter_split, lemma_filter_to_multiset_count};
use crate::term::{Term, TermV, Triple, TripleV};

verus! {

use vstd::multiset::Multiset;

broadcast use {Seq::lemma_filter_push, Seq::lemma_filter_len, Seq::lemma_filter_pred};

/// The triple value with the given subject, predicate and object.
pub open spec fn triple_value(s: TermV, p: TermV, o: TermV) -> TripleV {
    TripleV { s: s, p: p, o: o }
}

/// The triples of `g` whose subject is `s`.
pub open spec fn sel_s(g: Seq<TripleV>, s: TermV) -> Seq<TripleV> {
    g.filter(|t: TripleV| t.s == s)
}

/// The triples of `g` whose predicate is `p`.
pub open spec fn sel_p(g: Seq<TripleV>, p: TermV) -> Seq<TripleV> {
    g.filter(|t: TripleV| t.p == p)
}

/// The triples of `g` whose object is `o`.
pub open spec fn sel_o(g: Seq<TripleV>, o: TermV) -> Seq<TripleV> {
    g.filter(|t: TripleV| t.o == o)
}

/// The triples of `g` with subject `s` and predicate `p`.
pub open spec fn sel_sp(g: Seq<TripleV>, s: TermV, p: TermV) -> Seq<TripleV> {
    g.filter(|t: TripleV| t.s == s && t.p == p)
}

/// The triples of `g` with subject `s` and object `o`.
pub open spec fn sel_so(g: Seq<TripleV>, s: TermV, o: TermV) -> Seq<TripleV> {
    g.filter(|t: TripleV| t.s == s && t.o == o)
}

/// The triples of `g` with predicate `p` and object `o`.
pub open spec fn sel_po(g: Seq<TripleV>, p: TermV, o: TermV) -> Seq<TripleV> {
    g.filter(|t: TripleV| t.p == p && t.o == o)
}

/// The occurrences of the triple `(s, p, o)` in `g`.
pub open spec fn sel_spo(g: Seq<TripleV>, s: TermV, p: TermV, o: TermV) -> Seq<TripleV> {
    g.filter(|t: TripleV| t.s == s && t.p == p && t.o == o)
}

/// The triples of `all` whose subject matches `m`, in order.
fn filter_by_s<M: TermMatcher>(all: Vec<Triple>, m: &M) -> (r: Vec<Triple>)
    ensures
        r.deep_view() == all.deep_view().filter(|t: TripleV| m.spec_matches(t.s)),
{
    let mut out: Vec<Triple> = Vec::new();
    let mut i: usize = 0;
    while i < all.len()
        invariant
            i <= all.len(),
            out.deep_view() == all.deep_view().take(i as int).filter(
                |t: TripleV| m.spec_matches(t.s),
            ),
        decreases all.len() - i,
    {
        proof {
            assert(all.deep_view().take(i + 1) =~= all.deep_view().take(i as int).push(
                all.deep_view()[i as int],
            ));
        }
        let t = &all[i];
        if m.matches(&t.s) {
            out.push(t.clone_triple());
            proof {
                assert(out.deep_view() =~= all.deep_view().take(i + 1).filter(
                    |t: TripleV| m.spec_matches(t.s),
                ));
            }
        }
        i += 1;
    }
    proof {
        assert(all.deep_view().take(all.deep_view().len() as int) =~= all.deep_view());
    }
    out
}

/// The triples of `all` whose predicate matches `m`, in order.
fn filter_by_p<M: TermMatcher>(all: Vec<Triple>, m: &M) -> (r: Vec<Triple>)
    ensures
        r.deep_view() == all.deep_view().filter(|t: TripleV| m.spec_matches(t.p)),
{
    let mut out: Vec<Triple> = Vec::new();
    let mut i: usize = 0;
    while i < all.len()
        invariant
            i <= all.len(),
            out.deep_view() == all.deep_view().take(i as int).filter(
                |t: TripleV| m.spec_matches(t.p),
            ),
        decreases all.len() - i,
    {
        proof {
            assert(all.deep_view().take(i + 1) =~= all.deep_view().take(i as int).push(
                all.deep_view()[i as int],
            ));
        }
        let t = &all[i];
        if m.matches(&t.p) {
            out.push(t.clone_triple());
            proof {
                assert(out.deep_view() =~= all.deep_view().take(i + 1).filter(
                    |t: TripleV| m.spec_matches(t.p),
                ));
            }
        }
        i += 1;
    }
    proof {
        assert(all.deep_view().take(all.deep_view().len() as int) =~= all.deep_view());
    }
    out
}

/// The triples of `all` whose object matches `m`, in order.
fn filter_by_o<M: TermMatcher>(all: Vec<Triple>, m: &M) -> (r: Vec<Triple>)
    ensures
        r.deep_view() == all.deep_view().filter(|t: TripleV| m.spec_matches(t.o)),
{
    let mut out: Vec<Triple> = Vec::new();
    let mut i: usize = 0;
    while i < all.len()
        invariant
            i <= all.len(),
            out.deep_view() == all.deep_view().take(i as int).filter(
                |t: TripleV| m.spec_matches(t.o),
            ),
        decreases all.len() - i,
    {
        proof {
            assert(all.deep_view().take(i + 1) =~= all.deep_view().take(i as int).push(
                all.deep_view()[i as int],
            ));
        }
        let t = &all[i];
        if m.matches(&t.o) {
            out.push(t.clone_triple());
            proof {
                assert(out.deep_view() =~= all.deep_view().take(i + 1).filter(
                    |t: TripleV| m.spec_matches(t.o),
                ));
            }
        }
        i += 1;
    }
    proof {
        assert(all.deep_view().take(all.deep_view().len() as int) =~= all.deep_view());
    }
    out
}

/// Is `h` a sound advisory estimate for a query that returns `n` triples:
/// a lower bound that does not overshoot, and an upper bound (when one is
/// known) that the actual count never exceeds?
pub open spec fn hint_sound(h: (usize, Option<usize>), n: nat) -> bool {
    h.0 <= n && (h.1 matches Some(u) ==> n <= u)
}

/// A collection of triples supporting read-only queries.
///
/// The one required primitive is `iter`; every other accessor has a default
/// implementation derived from it, which a backend may shadow with a
/// specialized one. The contracts hold for the defaults and the overrides
/// alike: each accessor returns the corresponding filtered subset of the
/// full iteration, duplicates kept with the same multiplicity.
pub trait Graph: Sized {
    /// The triples this graph currently holds, in the order `iter` yields
    /// them. The order is an artifact of the backend; callers should rely
    /// on the multiset of triples only.
    spec fn view(&self) -> Seq<TripleV>;

    /// Every triple currently in the graph.
    fn iter(&self) -> (r: Vec<Triple>)
        ensures
            r.deep_view() == self.view(),
    ;

    /// The triples whose subject equals `s`.
    fn iter_for_s(&self, s: &Term) -> (r: Vec<Triple>)
        ensures
            r.deep_view() == sel_s(self.view(), s@),
    {
        let r = filter_by_s(self.iter(), s);
        proof {
            lemma_filter_equiv(
                self.view(),
                |t: TripleV| s.spec_matches(t.s),
                |t: TripleV| t.s == s@,
            );
        }
        r
    }

    /// The triples whose predicate equals `p`.
    fn iter_for_p(&self, p: &Term) -> (r: Vec<Triple>)
        ensures
            r.deep_view() == sel_p(self.view(), p@),
    {
        let r = filter_by_p(self.iter(), p);
        proof {
            lemma_filter_equiv(
                self.view(),
                |t: TripleV| p.spec_matches(t.p),
                |t: TripleV| t.p == p@,
            );
        }
        r
    }

    /// The triples whose object equals `o`.
    fn iter_for_o(&self, o: &Term) -> (r: Vec<Triple>)
        ensures
            r.deep_view() == sel_o(self.view(), o@),
    {
        let r = filter_by_o(self.iter(), o);
        proof {
            lemma_filter_equiv(
                self.view(),
                |t: TripleV| o.spec_matches(t.o),
                |t: TripleV| t.o == o@,
            );
        }
        r
    }

    /// The triples with subject `s` and predicate `p`, derived by refining
    /// the subject lookup so that a backend overriding `iter_for_s` speeds
    /// this up as well.
    fn iter_for_sp(&self, s: &Term, p: &Term) -> (r: Vec<Triple>)
        ensures
            r.deep_view() == sel_sp(self.view(), s@, p@),
    {
        let r = filter_by_p(self.iter_for_s(s), p);
        proof {
            lemma_filter_split(
                self.view(),
                |t: TripleV| t.s == s@,
                |t: TripleV| p.spec_matches(t.p),
                |t: TripleV| t.s == s@ && t.p == p@,
            );
        }
        r
    }

    /// The triples with subject `s` and object `o`.
    fn iter_for_so(&self, s: &Term, o: &Term) -> (r: Vec<Triple>)
        ensures
            r.deep_view() == sel_so(self.view(), s@, o@),
    {
        let r = filter_by_o(self.iter_for_s(s), o);
        proof {
            lemma_filter_split(
                self.view(),
                |t: TripleV| t.s == s@,
                |t: TripleV| o.spec_matches(t.o),
                |t: TripleV| t.s == s@ && t.o == o@,
            );
        }
        r
    }

    /// The triples with predicate `p` and object `o`.
    fn iter_for_po(&self, p: &Term, o: &Term) -> (r: Vec<Triple>)
        ensures
            r.deep_view() == sel_po(self.view(), p@, o@),
    {
        let r = filter_by_o(self.iter_for_p(p), o);
        proof {
            lemma_filter_split(
                self.view(),
                |t: TripleV| t.p == p@,
                |t: TripleV| o.spec_matches(t.o),
                |t: TripleV| t.p == p@ && t.o == o@,
            );
        }
        r
    }

    /// The occurrences of the triple `(s, p, o)`.
    fn iter_for_spo(&self, s: &Term, p: &Term, o: &Term) -> (r: Vec<Triple>)
        ensures
            r.deep_view() == sel_spo(self.view(), s@, p@, o@),
    {
        let r = filter_by_o(self.iter_for_sp(s, p), o);
        proof {
            lemma_filter_split(
                self.view(),
                |t: TripleV| t.s == s@ && t.p == p@,
                |t: TripleV| o.spec_matches(t.o),
                |t: TripleV| t.s == s@ && t.p == p@ && t.o == o@,
            );
        }
        r
    }

    /// All triples matching the three matchers: the same multiset of
    /// triples a naive full scan keeps, answered through the most specific
    /// accessor the bound slots allow. A slot counts as bound when its
    /// matcher exposes a constant; the matchers of the remaining slots are
    /// applied as a residual filter over that accessor's output.
    fn iter_matching<MS: TermMatcher, MP: TermMatcher, MO: TermMatcher>(
        &self,
        ms: &MS,
        mp: &MP,
        mo: &MO,
    ) -> (r: Vec<Triple>)
        ensures
            r.deep_view() == self.view().filter(
                |t: TripleV| ms.spec_matches(t.s) && mp.spec_matches(t.p) && mo.spec_matches(t.o),
            ),
    {
        match (ms.constant(), mp.constant(), mo.constant()) {
            (None, None, None) => {
                let r = filter_by_o(filter_by_p(filter_by_s(self.iter(), ms), mp), mo);
                proof {
                    lemma_filter_split(
                        self.view(),
                        |t: TripleV| ms.spec_matches(t.s),
                        |t: TripleV| mp.spec_matches(t.p),
                        |t: TripleV| ms.spec_matches(t.s) && mp.spec_matches(t.p),
                    );
                    lemma_filter_split(
                        self.view(),
                        |t: TripleV| ms.spec_matches(t.s) && mp.spec_matches(t.p),
                        |t: TripleV| mo.spec_matches(t.o),
                        |t: TripleV| ms.spec_matches(t.s) && mp.spec_matches(t.p)
                            && mo.spec_matches(t.o),
                    );
                }
                r
            },
            (Some(s), None, None) => {
                let r = filter_by_o(filter_by_p(self.iter_for_s(s), mp), mo);
                proof {
                    lemma_filter_split(
                        self.view(),
                        |t: TripleV| t.s == s@,
                        |t: TripleV| mp.spec_matches(t.p),
                        |t: TripleV| t.s == s@ && mp.spec_matches(t.p),
                    );
                    lemma_filter_split(
                        self.view(),
                        |t: TripleV| t.s == s@ && mp.spec_matches(t.p),
                        |t: TripleV| mo.spec_matches(t.o),
                        |t: TripleV| t.s == s@ && mp.spec_matches(t.p) && mo.spec_matches(t.o),
                    );
                    lemma_filter_equiv(
                        self.view(),
                        |t: TripleV| t.s == s@ && mp.spec_matches(t.p) && mo.spec_matches(t.o),
                        |t: TripleV| ms.spec_matches(t.s) && mp.spec_matches(t.p)
                            && mo.spec_matches(t.o),
                    );
                }
                r
            },
            (None, Some(p), None) => {
                let r = filter_by_o(filter_by_s(self.iter_for_p(p), ms), mo);
                proof {
                    lemma_filter_split(
                        self.view(),
                        |t: TripleV| t.p == p@,
                        |t: TripleV| ms.spec_matches(t.s),
                        |t: TripleV| t.p == p@ && ms.spec_matches(t.s),
                    );
                    lemma_filter_split(
                        self.view(),
                        |t: TripleV| t.p == p@ && ms.spec_matches(t.s),
                        |t: TripleV| mo.spec_matches(t.o),
                        |t: TripleV| t.p == p@ && ms.spec_matches(t.s) && mo.spec_matches(t.o),
                    );
                    lemma_filter_equiv(
                        self.view(),
                        |t: TripleV| t.p == p@ && ms.spec_matches(t.s) && mo.spec_matches(t.o),
                        |t: TripleV| ms.spec_matches(t.s) && mp.spec_matches(t.p)
                            && mo.spec_matches(t.o),
                    );
                }
                r
            },
            (None, None, Some(o)) => {
                // The residual filter here must apply the subject matcher to
                // the subject and the predicate matcher to the predicate.
                let r = filter_by_p(filter_by_s(self.iter_for_o(o), ms), mp);
                proof {
                    lemma_filter_split(
                        self.view(),
                        |t: TripleV| t.o == o@,
                        |t: TripleV| ms.spec_matches(t.s),
                        |t: TripleV| t.o == o@ && ms.spec_matches(t.s),
                    );
                    lemma_filter_split(
                        self.view(),
                        |t: TripleV| t.o == o@ && ms.spec_matches(t.s),
                        |t: TripleV| mp.spec_matches(t.p),
                        |t: TripleV| t.o == o@ && ms.spec_matches(t.s) && mp.spec_matches(t.p),
                    );
                    lemma_filter_equiv(
                        self.view(),
                        |t: TripleV| t.o == o@ && ms.spec_matches(t.s) && mp.spec_matches(t.p),
                        |t: TripleV| ms.spec_matches(t.s) && mp.spec_matches(t.p)
                            && mo.spec_matches(t.o),
                    );
                }
                r
            },
            (Some(s), Some(p), None) => {
                let r = filter_by_o(self.iter_for_sp(s, p), mo);
                proof {
                    lemma_filter_split(
                        self.view(),
                        |t: TripleV| t.s == s@ && t.p == p@,
                        |t: TripleV| mo.spec_matches(t.o),
                        |t: TripleV| t.s == s@ && t.p == p@ && mo.spec_matches(t.o),
                    );
                    lemma_filter_equiv(
                        self.view(),
                        |t: TripleV| t.s == s@ && t.p == p@ && mo.spec_matches(t.o),
                        |t: TripleV| ms.spec_matches(t.s) && mp.spec_matches(t.p)
                            && mo.spec_matches(t.o),
                    );
                }
                r
            },
            (Some(s), None, Some(o)) => {
                let r = filter_by_p(self.iter_for_so(s, o), mp);
                proof {
                    lemma_filter_split(
                        self.view(),
                        |t: TripleV| t.s == s@ && t.o == o@,
                        |t: TripleV| mp.spec_matches(t.p),
                        |t: TripleV| t.s == s@ && t.o == o@ && mp.spec_matches(t.p),
                    );
                    lemma_filter_equiv(
                        self.view(),
                        |t: TripleV| t.s == s@ && t.o == o@ && mp.spec_matches(t.p),
                        |t: TripleV| ms.spec_matches(t.s) && mp.spec_matches(t.p)
                            && mo.spec_matches(t.o),
                    );
                }
                r
            },
            (None, Some(p), Some(o)) => {
                let r = filter_by_s(self.iter_for_po(p, o), ms);
                proof {
                    lemma_filter_split(
                        self.view(),
                        |t: TripleV| t.p == p@ && t.o == o@,
                        |t: TripleV| ms.spec_matches(t.s),
                        |t: TripleV| t.p == p@ && t.o == o@ && ms.spec_matches(t.s),
                    );
                    lemma_filter_equiv(
                        self.view(),
                        |t: TripleV| t.p == p@ && t.o == o@ && ms.spec_matches(t.s),
                        |t: TripleV| ms.spec_matches(t.s) && mp.spec_matches(t.p)
                            && mo.spec_matches(t.o),
                    );
                }
                r
            },
            (Some(s), Some(p), Some(o)) => {
                let r = self.iter_for_spo(s, p, o);
                proof {
                    lemma_filter_equiv(
                        self.view(),
                        |t: TripleV| t.s == s@ && t.p == p@ && t.o == o@,
                        |t: TripleV| ms.spec_matches(t.s) && mp.spec_matches(t.p)
                            && mo.spec_matches(t.o),
                    );
                }
                r
            },
        }
    }

    /// Does the graph hold at least one occurrence of `(s, p, o)`? A
    /// backend with an index can override this with a lookup that stops
    /// at the first hit.
    fn contains(&self, s: &Term, p: &Term, o: &Term) -> (r: bool)
        ensures
            r == (sel_spo(self.view(), s@, p@, o@).len() > 0),
    {
        let found = self.iter_for_spo(s, p, o);
        found.len() > 0
    }

    /// An advisory estimate of how many triples the graph holds. Hints
    /// never affect correctness; they only let a caller pre-size buffers.
    fn hint(&self) -> (r: (usize, Option<usize>))
        ensures
            hint_sound(r, self.view().len()),
    {
        (0, None)
    }

    /// An advisory estimate for the subject lookup `iter_for_s`.
    fn hint_for_s(&self, s: &Term) -> (r: (usize, Option<usize>))
        ensures
            hint_sound(r, sel_s(self.view(), s@).len()),
        default_ensures
            exists|h: (usize, Option<usize>)|
                {
                    &&& #[trigger] call_ensures(Self::hint, (self,), h)
                    &&& r == (0usize, h.1)
                },
    {
        let h = self.hint();
        proof {
            self.view().lemma_filter_len(|t: TripleV| t.s == s@);
        }
        (0, h.1)
    }

    /// An advisory estimate for the predicate lookup `iter_for_p`.
    fn hint_for_p(&self, p: &Term) -> (r: (usize, Option<usize>))
        ensures
            hint_sound(r, sel_p(self.view(), p@).len()),
        default_ensures
            exists|h: (usize, Option<usize>)|
                {
                    &&& #[trigger] call_ensures(Self::hint, (self,), h)
                    &&& r == (0usize, h.1)
                },
    {
        let h = self.hint();
        proof {
            self.view().lemma_filter_len(|t: TripleV| t.p == p@);
        }
        (0, h.1)
    }

    /// An advisory estimate for the object lookup `iter_for_o`.
    fn hint_for_o(&self, o: &Term) -> (r: (usize, Option<usize>))
        ensures
            hint_sound(r, sel_o(self.view(), o@).len()),
        default_ensures
            exists|h: (usize, Option<usize>)|
                {
                    &&& #[trigger] call_ensures(Self::hint, (self,), h)
                    &&& r == (0usize, h.1)
                },
    {
        let h = self.hint();
        proof {
            self.view().lemma_filter_len(|t: TripleV| t.o == o@);
        }
        (0, h.1)
    }

    /// An advisory estimate for `iter_for_sp`: binding one more slot reuses
    /// the subject hint's upper bound, which stays valid because refining a
    /// query never enlarges its result.
    fn hint_for_sp(&self, s: &Term, p: &Term) -> (r: (usize, Option<usize>))
        ensures
            hint_sound(r, sel_sp(self.view(), s@, p@).len()),
        default_ensures
            exists|h: (usize, Option<usize>)|
                {
                    &&& #[trigger] call_ensures(Self::hint_for_s, (self, s), h)
                    &&& r == (0usize, h.1)
                },
    {
        let h = self.hint_for_s(s);
        proof {
            lemma_filter_split(
                self.view(),
                |t: TripleV| t.s == s@,
                |t: TripleV| t.p == p@,
                |t: TripleV| t.s == s@ && t.p == p@,
            );
            sel_s(self.view(), s@).lemma_filter_len(|t: TripleV| t.p == p@);
        }
        (0, h.1)
    }

    /// An advisory estimate for `iter_for_so`, reusing the subject hint.
    fn hint_for_so(&self, s: &Term, o: &Term) -> (r: (usize, Option<usize>))
        ensures
            hint_sound(r, sel_so(self.view(), s@, o@).len()),
        default_ensures
            exists|h: (usize, Option<usize>)|
                {
                    &&& #[trigger] call_ensures(Self::hint_for_s, (self, s), h)
                    &&& r == (0usize, h.1)
                },
    {
        let h = self.hint_for_s(s);
        proof {
            lemma_filter_split(
                self.view(),
                |t: TripleV| t.s == s@,
                |t: TripleV| t.o == o@,
                |t: TripleV| t.s == s@ && t.o == o@,
            );
            sel_s(self.view(), s@).lemma_filter_len(|t: TripleV| t.o == o@);
        }
        (0, h.1)
    }

    /// An advisory estimate for `iter_for_po`, reusing the predicate hint.
    fn hint_for_po(&self, p: &Term, o: &Term) -> (r: (usize, Option<usize>))
        ensures
            hint_sound(r, sel_po(self.view(), p@, o@).len()),
        default_ensures
            exists|h: (usize, Option<usize>)|
                {
                    &&& #[trigger] call_ensures(Self::hint_for_p, (self, p), h)
                    &&& r == (0usize, h.1)
                },
    {
        let h = self.hint_for_p(p);
        proof {
            lemma_filter_split(
                self.view(),
                |t: TripleV| t.p == p@,
                |t: TripleV| t.o == o@,
                |t: TripleV| t.p == p@ && t.o == o@,
            );
            sel_p(self.view(), p@).lemma_filter_len(|t: TripleV| t.o == o@);
        }
        (0, h.1)
    }
}

/// A graph additionally supporting insertion and removal of triples.
///
/// The required primitives are `insert` and `remove`; bulk removal and
/// `retain` have default implementations derived from them and from the
/// read side.
pub trait MutableGraph: Graph {
    /// Insert one occurrence of the triple `(s, p, o)`.
    ///
    /// Returns whether the graph's apparent size grew. Unless the backend
    /// asserts set semantics that is always the case; a `false` answer
    /// leaves the graph unchanged, and can only mean that the triple was
    /// already present.
    fn insert(&mut self, s: &Term, p: &Term, o: &Term) -> (r: bool)
        ensures
            r ==> final(self).view().to_multiset() == old(self).view().to_multiset().insert(
                triple_value(s@, p@, o@),
            ),
            !r ==> final(self).view() == old(self).view() && old(self).view().contains(
                triple_value(s@, p@, o@),
            ),
    ;

    /// Remove one occurrence of the triple `(s, p, o)`.
    ///
    /// Returns whether something was actually removed, that is, whether the
    /// triple was present at all.
    fn remove(&mut self, s: &Term, p: &Term, o: &Term) -> (r: bool)
        ensures
            r == old(self).view().contains(triple_value(s@, p@, o@)),
            r ==> final(self).view().to_multiset() == old(self).view().to_multiset().remove(
                triple_value(s@, p@, o@),
            ),
            !r ==> final(self).view() == old(self).view(),
    ;

    /// Remove every triple matching the three matchers; the count removed
    /// is returned and accounts for duplicates.
    ///
    /// The default first materializes the matching triples, then removes
    /// them one by one, so that no iteration is in progress while the
    /// graph is mutated; a backend with safe in-place deletion may
    /// override it.
    fn remove_matching<MS: TermMatcher, MP: TermMatcher, MO: TermMatcher>(
        &mut self,
        ms: &MS,
        mp: &MP,
        mo: &MO,
    ) -> (n: usize)
        ensures
            n == old(self).view().filter(
                |t: TripleV| ms.spec_matches(t.s) && mp.spec_matches(t.p) && mo.spec_matches(t.o),
            ).len(),
            final(self).view().len() + n == old(self).view().len(),
            forall|t: TripleV|
                #[trigger] final(self).view().to_multiset().count(t) == if ms.spec_matches(t.s)
                    && mp.spec_matches(t.p) && mo.spec_matches(t.o) {
                    0nat
                } else {
                    old(self).view().to_multiset().count(t)
                },
    {
        let ghost m3 = |t: TripleV|
            ms.spec_matches(t.s) && mp.spec_matches(t.p) && mo.spec_matches(t.o);
        let matched = self.iter_matching(ms, mp, mo);
        let n = matched.len();
        let ghost mdv = matched.deep_view();
        let ghost oldm = old(self).view().to_multiset();
        let mut i: usize = 0;
        proof {
            broadcast use vstd::multiset::group_multiset_axioms;

            vstd::seq_lib::to_multiset_len(mdv.take(0));
            assert(mdv.take(0).to_multiset() =~= Multiset::<TripleV>::empty());
            assert(self.view().to_multiset().add(mdv.take(0).to_multiset()) =~= oldm);
        }
        while i < n
            invariant
                i <= n,
                n == mdv.len(),
                mdv == matched.deep_view(),
                mdv == old(self).view().filter(m3),
                oldm == old(self).view().to_multiset(),
                self.view().to_multiset().add(mdv.take(i as int).to_multiset()) == oldm,
                self.view().len() + i == old(self).view().len(),
            decreases n - i,
        {
            let ghost curm = self.view().to_multiset();
            let ghost tv = mdv[i as int];
            proof {
                broadcast use vstd::multiset::group_multiset_axioms;
                broadcast use vstd::seq_lib::group_to_multiset_ensures;

                // The triple about to be removed is still in the graph:
                // its matching occurrences not yet removed outnumber the
                // removed prefix.
                old(self).view().lemma_filter_pred(m3, i as int);
                lemma_filter_to_multiset_count(old(self).view(), m3, tv);
                assert(mdv =~= mdv.take(i as int) + mdv.skip(i as int));
                vstd::seq_lib::lemma_multiset_commutative(mdv.take(i as int), mdv.skip(i as int));
                assert(mdv.skip(i as int)[0] == tv);
                assert(mdv.skip(i as int).contains(tv));
                vstd::seq_lib::to_multiset_contains(mdv.skip(i as int), tv);
                assert(mdv.skip(i as int).to_multiset().count(tv) > 0);
                assert(curm.count(tv) > 0);
                vstd::seq_lib::to_multiset_contains(self.view(), tv);
                assert(self.view().contains(tv));
            }
            let t = &matched[i];
            self.remove(&t.s, &t.p, &t.o);
            proof {
                broadcast use vstd::multiset::group_multiset_axioms;
                broadcast use vstd::seq_lib::group_to_multiset_ensures;

                assert(mdv.take(i + 1) =~= mdv.take(i as int).push(tv));
                assert(self.view().to_multiset() == curm.remove(tv));
                assert(mdv.take(i + 1).to_multiset() =~= mdv.take(i as int).to_multiset().insert(
                    tv,
                ));
                assert(self.view().to_multiset().add(mdv.take(i + 1).to_multiset()) =~= oldm);
                vstd::seq_lib::to_multiset_len(self.view());
                vstd::seq_lib::to_multiset_len(old(self).view());
                assert(self.view().to_multiset().len() + 1 == curm.len());
            }
            i += 1;
        }
        proof {
            broadcast use vstd::multiset::group_multiset_axioms;

            assert(mdv.take(n as int) =~= mdv);
            assert forall|t: TripleV|
                #[trigger] self.view().to_multiset().count(t) == if m3(t) {
                    0nat
                } else {
                    oldm.count(t)
                } by {
                lemma_filter_to_multiset_count(old(self).view(), m3, t);
            }
        }
        n
    }

    /// Keep only the triples matching all three matchers, removing every
    /// triple that fails any of them. The graph is mutated in place, one
    /// sweep of negated matchers per slot.
    fn retain<MS: TermMatcher, MP: TermMatcher, MO: TermMatcher>(&mut self, ms: MS, mp: MP, mo: MO)
        ensures
            forall|t: TripleV|
                #[trigger] final(self).view().to_multiset().count(t) == if ms.spec_matches(t.s)
                    && mp.spec_matches(t.p) && mo.spec_matches(t.o) {
                    old(self).view().to_multiset().count(t)
                } else {
                    0nat
                },
    {
        self.remove_matching(&Negated(ms), &AnyTerm, &AnyTerm);
        self.remove_matching(&AnyTerm, &Negated(mp), &AnyTerm);
        self.remove_matching(&AnyTerm, &AnyTerm, &Negated(mo));
    }
}

/// A graph guaranteed to hold no duplicate triples.
///
/// The capability adds no operation: it is a promise about the backend,
/// which must show that full iteration never yields the same triple twice.
/// Under it, the booleans returned by `insert` and `remove` mean exactly
/// "graph membership changed".
pub trait SetGraph: Graph {
    /// Makes the promise available to callers: every triple currently in
    /// the graph occurs at most once. The backend supplies the evidence;
    /// the call itself computes nothing.
    fn set_semantics(&self)
        ensures
            forall|t: TripleV| #[trigger] self.view().to_multiset().count(t) <= 1,
    ;
}

} // verus!
