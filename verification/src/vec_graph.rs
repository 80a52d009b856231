//! Two small in-memory backends: one that keeps duplicate triples, and one
//! that enforces set semantics. Both answer every derived query through the
//! default implementations of the graph capabilities.

use vstd::prelude::*;

use crate::graph::{triple_value, Graph, MutableGraph, SetGraph};
use crate::term::{Term, TermV, Triple, TripleV};

verus! {

/// A growable in-memory graph holding its triples in insertion order.
/// It keeps duplicates: inserting the same content twice stores two
/// occurrences, and `remove` takes away one occurrence at a time.
///
/// Every read, `iter` included, hands back an owned snapshot of the state
/// at call time: mutating the graph afterwards never changes triples that
/// an earlier call returned.
pub struct VecGraph {
    triples: Vec<Triple>,
}

impl VecGraph {
    /// The empty graph.
    pub fn new() -> (r: VecGraph)
        ensures
            r.view() == Seq::<TripleV>::empty(),
    {
        let v: Vec<Triple> = Vec::new();
        let r = VecGraph { triples: v };
        proof {
            assert(r.view() =~= Seq::<TripleV>::empty());
        }
        r
    }
}

impl Graph for VecGraph {
    closed spec fn view(&self) -> Seq<TripleV> {
        self.triples.deep_view()
    }

    fn iter(&self) -> (r: Vec<Triple>) {
        let mut out: Vec<Triple> = Vec::new();
        let mut i: usize = 0;
        while i < self.triples.len()
            invariant
                i <= self.triples.len(),
                out.deep_view() == self.triples.deep_view().take(i as int),
            decreases self.triples.len() - i,
        {
            proof {
                assert(self.triples.deep_view().take(i + 1) =~= self.triples.deep_view().take(
                    i as int,
                ).push(self.triples.deep_view()[i as int]));
            }
            let t = &self.triples[i];
            out.push(t.clone_triple());
            proof {
                assert(out.deep_view() =~= self.triples.deep_view().take(i + 1));
            }
            i += 1;
        }
        proof {
            assert(self.triples.deep_view().take(self.triples.deep_view().len() as int)
                =~= self.triples.deep_view());
        }
        out
    }
}

impl MutableGraph for VecGraph {
    fn insert(&mut self, s: &Term, p: &Term, o: &Term) -> (r: bool) {
        let t = Triple { s: s.clone_term(), p: p.clone_term(), o: o.clone_term() };
        self.triples.push(t);
        proof {
            broadcast use vstd::seq_lib::group_to_multiset_ensures;
            broadcast use vstd::multiset::group_multiset_axioms;

            let tv = triple_value(s@, p@, o@);
            assert(self.triples.deep_view() =~= old(self).triples.deep_view().push(tv));
            assert(self.view().to_multiset() =~= old(self).view().to_multiset().insert(tv));
        }
        true
    }

    fn remove(&mut self, s: &Term, p: &Term, o: &Term) -> (r: bool) {
        let ghost tv = triple_value(s@, p@, o@);
        let mut j: usize = 0;
        while j < self.triples.len()
            invariant
                j <= self.triples.len(),
                tv == triple_value(s@, p@, o@),
                self.triples@ == old(self).triples@,
                forall|k: int| 0 <= k < j ==> self.triples.deep_view()[k] != tv,
            decreases self.triples.len() - j,
        {
            let c = &self.triples[j];
            proof {
                assert(self.triples.deep_view()[j as int] == c@);
            }
            if c.s.eq_term(s) && c.p.eq_term(p) && c.o.eq_term(o) {
                proof {
                    assert(c@ == tv);
                    assert(self.triples.deep_view()[j as int] == tv);
                    assert(old(self).view().contains(tv));
                }
                self.triples.remove(j);
                proof {
                    broadcast use vstd::seq_lib::group_to_multiset_ensures;
                    broadcast use vstd::multiset::group_multiset_axioms;

                    assert(self.triples.deep_view() =~= old(self).triples.deep_view().remove(
                        j as int,
                    ));
                    vstd::seq_lib::to_multiset_remove(old(self).triples.deep_view(), j as int);
                    assert(self.view().to_multiset() =~= old(self).view().to_multiset().remove(
                        tv,
                    ));
                }
                return true;
            }
            proof {
                assert(c@ != tv);
            }
            j += 1;
        }
        proof {
            assert(self.triples.deep_view() == old(self).view());
            assert(!old(self).view().contains(tv));
        }
        false
    }
}

/// An in-memory graph enforcing set semantics: `insert` refuses a triple
/// that is already present, so iteration never yields the same triple
/// twice and the booleans of `insert` and `remove` mean exactly "graph
/// membership changed".
pub struct SetVecGraph {
    triples: Vec<Triple>,
}

impl SetVecGraph {
    #[verifier::type_invariant]
    spec fn wf(&self) -> bool {
        self.triples.deep_view().no_duplicates()
    }

    /// The empty graph.
    pub fn new() -> (r: SetVecGraph)
        ensures
            r.view() == Seq::<TripleV>::empty(),
    {
        let v: Vec<Triple> = Vec::new();
        let r = SetVecGraph { triples: v };
        proof {
            assert(r.view() =~= Seq::<TripleV>::empty());
        }
        r
    }
}

impl Graph for SetVecGraph {
    closed spec fn view(&self) -> Seq<TripleV> {
        self.triples.deep_view()
    }

    fn iter(&self) -> (r: Vec<Triple>) {
        let mut out: Vec<Triple> = Vec::new();
        let mut i: usize = 0;
        while i < self.triples.len()
            invariant
                i <= self.triples.len(),
                out.deep_view() == self.triples.deep_view().take(i as int),
            decreases self.triples.len() - i,
        {
            proof {
                assert(self.triples.deep_view().take(i + 1) =~= self.triples.deep_view().take(
                    i as int,
                ).push(self.triples.deep_view()[i as int]));
            }
            let t = &self.triples[i];
            out.push(t.clone_triple());
            proof {
                assert(out.deep_view() =~= self.triples.deep_view().take(i + 1));
            }
            i += 1;
        }
        proof {
            assert(self.triples.deep_view().take(self.triples.deep_view().len() as int)
                =~= self.triples.deep_view());
        }
        out
    }
}

impl MutableGraph for SetVecGraph {
    fn insert(&mut self, s: &Term, p: &Term, o: &Term) -> (r: bool) {
        let ghost tv = triple_value(s@, p@, o@);
        let mut j: usize = 0;
        while j < self.triples.len()
            invariant
                j <= self.triples.len(),
                tv == triple_value(s@, p@, o@),
                self.triples@ == old(self).triples@,
                forall|k: int| 0 <= k < j ==> self.triples.deep_view()[k] != tv,
            decreases self.triples.len() - j,
        {
            let c = &self.triples[j];
            if c.s.eq_term(s) && c.p.eq_term(p) && c.o.eq_term(o) {
                proof {
                    assert(c@ == tv);
                    assert(self.triples.deep_view()[j as int] == tv);
                    assert(old(self).view().contains(tv));
                }
                return false;
            }
            proof {
                assert(c@ != tv);
            }
            j += 1;
        }
        let t = Triple { s: s.clone_term(), p: p.clone_term(), o: o.clone_term() };
        proof {
            use_type_invariant(&*self);
            assert(self.triples.deep_view() == old(self).triples.deep_view());
        }
        let mut v: Vec<Triple> = Vec::new();
        proof {
            assert(v.deep_view() =~= Seq::<TripleV>::empty());
            assert(v.deep_view().no_duplicates());
        }
        core::mem::swap(&mut v, &mut self.triples);
        v.push(t);
        proof {
            assert(v.deep_view() =~= old(self).triples.deep_view().push(tv));
            assert forall|a: int, b: int|
                0 <= a < v.deep_view().len() && 0 <= b < v.deep_view().len() && a
                    != b implies v.deep_view()[a] != v.deep_view()[b] by {}
            assert(v.deep_view().no_duplicates());
        }
        core::mem::swap(&mut v, &mut self.triples);
        proof {
            broadcast use vstd::seq_lib::group_to_multiset_ensures;
            broadcast use vstd::multiset::group_multiset_axioms;

            assert(self.triples.deep_view() =~= old(self).triples.deep_view().push(tv));
            assert(self.view().to_multiset() =~= old(self).view().to_multiset().insert(tv));
        }
        true
    }

    fn remove(&mut self, s: &Term, p: &Term, o: &Term) -> (r: bool) {
        let ghost tv = triple_value(s@, p@, o@);
        let mut j: usize = 0;
        while j < self.triples.len()
            invariant
                j <= self.triples.len(),
                tv == triple_value(s@, p@, o@),
                self.triples@ == old(self).triples@,
                forall|k: int| 0 <= k < j ==> self.triples.deep_view()[k] != tv,
            decreases self.triples.len() - j,
        {
            let c = &self.triples[j];
            if c.s.eq_term(s) && c.p.eq_term(p) && c.o.eq_term(o) {
                proof {
                    use_type_invariant(&*self);
                    assert(c@ == tv);
                    assert(self.triples.deep_view()[j as int] == tv);
                    assert(old(self).view().contains(tv));
                }
                let mut v: Vec<Triple> = Vec::new();
                proof {
                    assert(v.deep_view() =~= Seq::<TripleV>::empty());
                    assert(v.deep_view().no_duplicates());
                }
                core::mem::swap(&mut v, &mut self.triples);
                v.remove(j);
                proof {
                    let dv = old(self).triples.deep_view();
                    assert(v.deep_view() =~= dv.remove(j as int));
                    dv.remove_ensures(j as int);
                    assert forall|a: int, b: int|
                        0 <= a < v.deep_view().len() && 0 <= b < v.deep_view().len() && a
                            != b implies v.deep_view()[a] != v.deep_view()[b] by {}
                    assert(v.deep_view().no_duplicates());
                }
                core::mem::swap(&mut v, &mut self.triples);
                proof {
                    broadcast use vstd::seq_lib::group_to_multiset_ensures;
                    broadcast use vstd::multiset::group_multiset_axioms;

                    assert(self.triples.deep_view() =~= old(self).triples.deep_view().remove(
                        j as int,
                    ));
                    vstd::seq_lib::to_multiset_remove(old(self).triples.deep_view(), j as int);
                    assert(self.view().to_multiset() =~= old(self).view().to_multiset().remove(
                        tv,
                    ));
                }
                return true;
            }
            proof {
                assert(c@ != tv);
            }
            j += 1;
        }
        proof {
            assert(self.triples.deep_view() == old(self).view());
            assert(!old(self).view().contains(tv));
        }
        false
    }
}

impl SetGraph for SetVecGraph {
    fn set_semantics(&self) {
        proof {
            use_type_invariant(&*self);
            self.triples.deep_view().lemma_multiset_has_no_duplicates();
            assert forall|t: TripleV| #[trigger] self.view().to_multiset().count(t) <= 1 by {
                vstd::seq_lib::to_multiset_contains(self.triples.deep_view(), t);
            }
        }
    }
}

} // verus!
