//! The laws that tie the capabilities together, stated over the views the
//! contracts speak of and proved once and for all. Each holds for every
//! backend, because it is derived from the trait contracts alone.

use vstd::prelude::*;

use crate::graph::{sel_o, sel_p, sel_po, sel_s, sel_so, sel_sp, sel_spo, triple_value};
use crate::seq_facts::{lemma_constant_seq_count, lemma_filter_split, lemma_filter_to_multiset_count};
use crate::term::{TermV, TripleV};

verus! {

/// `contains` agrees with counting: the triples selected by binding all
/// three slots are exactly the occurrences of that one triple, so their
/// number is its multiplicity in the full iteration.
pub proof fn lemma_occurrence_count(g: Seq<TripleV>, s: TermV, p: TermV, o: TermV)
    ensures
        sel_spo(g, s, p, o).len() == g.to_multiset().count(triple_value(s, p, o)),
{
    broadcast use vstd::seq_lib::group_to_multiset_ensures;

    let tv = triple_value(s, p, o);
    let pred = |t: TripleV| t.s == s && t.p == p && t.o == o;
    let f = g.filter(pred);
    lemma_filter_to_multiset_count(g, pred, tv);
    assert forall|i: int| 0 <= i < f.len() implies f[i] == tv by {
        g.lemma_filter_pred(pred, i);
    }
    lemma_constant_seq_count(f, tv);
}

/// Inserting a triple that is absent succeeds, and afterwards the graph
/// contains it: the mutation half of the round trip.
pub proof fn lemma_insert_fresh_then_contains(
    g0: Seq<TripleV>,
    g1: Seq<TripleV>,
    s: TermV,
    p: TermV,
    o: TermV,
    r: bool,
)
    requires
        !g0.contains(triple_value(s, p, o)),
        r ==> g1.to_multiset() == g0.to_multiset().insert(triple_value(s, p, o)),
        !r ==> g1 == g0 && g0.contains(triple_value(s, p, o)),
    ensures
        r,
        sel_spo(g1, s, p, o).len() > 0,
        g1.to_multiset().count(triple_value(s, p, o)) == g0.to_multiset().count(
            triple_value(s, p, o),
        ) + 1,
{
    broadcast use vstd::seq_lib::group_to_multiset_ensures;
    broadcast use vstd::multiset::group_multiset_axioms;

    let tv = triple_value(s, p, o);
    vstd::seq_lib::to_multiset_contains(g0, tv);
    vstd::seq_lib::to_multiset_contains(g1, tv);
    lemma_occurrence_count(g1, s, p, o);
}

/// Removing a present triple succeeds and lowers its occurrence count by
/// exactly one: the removal half of the round trip.
pub proof fn lemma_remove_present_decrements(
    g0: Seq<TripleV>,
    g1: Seq<TripleV>,
    s: TermV,
    p: TermV,
    o: TermV,
    r: bool,
)
    requires
        g0.contains(triple_value(s, p, o)),
        r == g0.contains(triple_value(s, p, o)),
        r ==> g1.to_multiset() == g0.to_multiset().remove(triple_value(s, p, o)),
    ensures
        r,
        g1.to_multiset().count(triple_value(s, p, o)) + 1 == g0.to_multiset().count(
            triple_value(s, p, o),
        ),
{
    broadcast use vstd::seq_lib::group_to_multiset_ensures;
    broadcast use vstd::multiset::group_multiset_axioms;

    let tv = triple_value(s, p, o);
    vstd::seq_lib::to_multiset_contains(g0, tv);
}

/// For a backend with set semantics, inserting the same triple twice
/// leaves exactly one occurrence, and the second insert reports that the
/// graph did not grow.
pub proof fn lemma_set_insert_idempotent(
    g0: Seq<TripleV>,
    g1: Seq<TripleV>,
    g2: Seq<TripleV>,
    s: TermV,
    p: TermV,
    o: TermV,
    r1: bool,
    r2: bool,
)
    requires
        !g0.contains(triple_value(s, p, o)),
        r1 ==> g1.to_multiset() == g0.to_multiset().insert(triple_value(s, p, o)),
        !r1 ==> g1 == g0 && g0.contains(triple_value(s, p, o)),
        r2 ==> g2.to_multiset() == g1.to_multiset().insert(triple_value(s, p, o)),
        !r2 ==> g2 == g1 && g1.contains(triple_value(s, p, o)),
        forall|t: TripleV| #[trigger] g2.to_multiset().count(t) <= 1,
    ensures
        r1,
        !r2,
        g2.to_multiset().count(triple_value(s, p, o)) == 1,
{
    broadcast use vstd::seq_lib::group_to_multiset_ensures;
    broadcast use vstd::multiset::group_multiset_axioms;

    let tv = triple_value(s, p, o);
    vstd::seq_lib::to_multiset_contains(g0, tv);
    vstd::seq_lib::to_multiset_contains(g1, tv);
    assert(g1.to_multiset().count(tv) == 1);
    if r2 {
        assert(g2.to_multiset().count(tv) == 2);
    }
}

/// Binding more slots never enlarges a query's result, so an upper bound
/// that is sound for the broader query stays sound for the refined one:
/// the derived hints, which reuse the broader bound unchanged, can only
/// tighten with each additional bound slot, never loosen.
pub proof fn lemma_hint_refinement_monotone(g: Seq<TripleV>, s: TermV, p: TermV, o: TermV)
    ensures
        sel_s(g, s).len() <= g.len(),
        sel_p(g, p).len() <= g.len(),
        sel_o(g, o).len() <= g.len(),
        sel_sp(g, s, p).len() <= sel_s(g, s).len(),
        sel_so(g, s, o).len() <= sel_s(g, s).len(),
        sel_po(g, p, o).len() <= sel_p(g, p).len(),
        sel_spo(g, s, p, o).len() <= sel_sp(g, s, p).len(),
{
    broadcast use Seq::lemma_filter_len;

    lemma_filter_split(g, |t: TripleV| t.s == s, |t: TripleV| t.p == p, |t: TripleV| t.s == s && t.p == p);
    lemma_filter_split(g, |t: TripleV| t.s == s, |t: TripleV| t.o == o, |t: TripleV| t.s == s && t.o == o);
    lemma_filter_split(g, |t: TripleV| t.p == p, |t: TripleV| t.o == o, |t: TripleV| t.p == p && t.o == o);
    lemma_filter_split(
        g,
        |t: TripleV| t.s == s && t.p == p,
        |t: TripleV| t.o == o,
        |t: TripleV| t.s == s && t.p == p && t.o == o,
    );
}

} // verus!
