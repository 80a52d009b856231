//! General facts about filtering sequences, used to relate the derived
//! graph accessors to the full iteration they are defined over.

use vstd::prelude::*;

verus! {

use vstd::multiset::Multiset;

/// Filtering twice is filtering once by the conjunction: when `keep` holds
/// exactly where both `p1` and `p2` hold, the two-stage filter and the
/// one-stage filter agree.
pub proof fn lemma_filter_split<A>(
    s: Seq<A>,
    p1: spec_fn(A) -> bool,
    p2: spec_fn(A) -> bool,
    keep: spec_fn(A) -> bool,
)
    requires
        forall|x: A| #[trigger] keep(x) == (p1(x) && p2(x)),
    ensures
        s.filter(p1).filter(p2) == s.filter(keep),
    decreases s.len(),
{
    reveal(Seq::filter);
    if s.len() == 0 {
        assert(s.filter(p1).filter(p2) =~= s.filter(keep));
    } else {
        let rest = s.drop_last();
        let e = s.last();
        lemma_filter_split(rest, p1, p2, keep);
        rest.filter(p1).lemma_filter_push(e, p2);
        assert(s.filter(p1) == if p1(e) {
            rest.filter(p1).push(e)
        } else {
            rest.filter(p1)
        });
        assert(s.filter(keep) == if keep(e) {
            rest.filter(keep).push(e)
        } else {
            rest.filter(keep)
        });
    }
}

/// Pointwise equivalent predicates filter a sequence to the same result.
pub proof fn lemma_filter_equiv<A>(s: Seq<A>, p1: spec_fn(A) -> bool, p2: spec_fn(A) -> bool)
    requires
        forall|x: A| #[trigger] p1(x) == #[trigger] p2(x),
    ensures
        s.filter(p1) == s.filter(p2),
    decreases s.len(),
{
    reveal(Seq::filter);
    if s.len() != 0 {
        lemma_filter_equiv(s.drop_last(), p1, p2);
    }
}

/// How often a value occurs in a filtered sequence: as often as in the
/// whole sequence if the predicate keeps it, never otherwise.
pub proof fn lemma_filter_to_multiset_count<A>(s: Seq<A>, p: spec_fn(A) -> bool, x: A)
    ensures
        s.filter(p).to_multiset().count(x) == if p(x) {
            s.to_multiset().count(x)
        } else {
            0
        },
    decreases s.len(),
{
    broadcast use vstd::seq_lib::group_to_multiset_ensures;
    broadcast use vstd::multiset::group_multiset_axioms;

    reveal(Seq::filter);
    if s.len() == 0 {
        assert(s.to_multiset() =~= Multiset::<A>::empty());
        assert(s.filter(p) == s);
    } else {
        let rest = s.drop_last();
        let e = s.last();
        lemma_filter_to_multiset_count(rest, p, x);
        assert(rest.push(e) =~= s);
        assert(s.to_multiset() =~= rest.to_multiset().insert(e));
        if p(e) {
            assert(s.filter(p) == rest.filter(p).push(e));
            assert(s.filter(p).to_multiset() =~= rest.filter(p).to_multiset().insert(e));
        } else {
            assert(s.filter(p) == rest.filter(p));
        }
    }
}

/// A sequence whose elements all equal `x` holds exactly `len` many `x`.
pub proof fn lemma_constant_seq_count<A>(s: Seq<A>, x: A)
    requires
        forall|i: int| 0 <= i < s.len() ==> s[i] == x,
    ensures
        s.to_multiset().count(x) == s.len(),
    decreases s.len(),
{
    broadcast use vstd::seq_lib::group_to_multiset_ensures;
    broadcast use vstd::multiset::group_multiset_axioms;

    if s.len() == 0 {
        assert(s.to_multiset() =~= Multiset::<A>::empty());
    } else {
        let rest = s.drop_last();
        lemma_constant_seq_count(rest, x);
        assert(rest.push(s.last()) =~= s);
        assert(s.to_multiset() =~= rest.to_multiset().insert(x));
    }
}

} // verus!
