use sophia::graph::{Graph, MutableGraph, SetGraph};
use sophia::matcher::{AnyTerm, Negated};
use sophia::term::{Term, Triple};
use sophia::vec_graph::{SetVecGraph, VecGraph};

fn iri(s: &str) -> Term {
    Term::Iri(s.to_string())
}

fn lit(s: &str) -> Term {
    Term::Literal { value: s.to_string(), datatype: "http://www.w3.org/2001/XMLSchema#string".to_string(), language: None }
}

fn triple(s: &Term, p: &Term, o: &Term) -> Triple {
    Triple { s: s.clone_term(), p: p.clone_term(), o: o.clone_term() }
}

fn count_of(v: &Vec<Triple>, t: &Triple) -> usize {
    v.iter().filter(|x| *x == t).count()
}

fn rdf_type() -> Term {
    iri("http://www.w3.org/1999/02/22-rdf-syntax-ns#type")
}

fn rdfs_label() -> Term {
    iri("http://www.w3.org/2000/01/rdf-schema#label")
}

/// The three-triple graph of the worked example: two typed subjects and
/// one label.
fn example_graph() -> VecGraph {
    let mut g = VecGraph::new();
    let a = iri("http://example.org/a");
    let b = iri("http://example.org/b");
    let c = iri("http://example.org/C");
    assert!(g.insert(&a, &rdf_type(), &c));
    assert!(g.insert(&b, &rdf_type(), &c));
    assert!(g.insert(&a, &rdfs_label(), &lit("A")));
    g
}

#[test]
fn term_equality_is_content_based() {
    assert_eq!(iri("http://example.org/a"), iri("http://example.org/a"));
    assert_ne!(iri("http://example.org/a"), iri("http://example.org/b"));
    assert_ne!(iri("http://example.org/a"), Term::BlankNode("http://example.org/a".to_string()));
    assert!(iri("http://example.org/a").eq_term(&iri("http://example.org/a")));
    assert!(!lit("A").eq_term(&lit("B")));
    let tagged = Term::Literal {
        value: "chat".to_string(),
        datatype: "http://www.w3.org/1999/02/22-rdf-syntax-ns#langString".to_string(),
        language: Some("fr".to_string()),
    };
    assert_ne!(tagged, lit("chat"));
    assert_eq!(tagged, tagged.clone_term());
}

#[test]
fn iter_yields_all_insertions() {
    let g = example_graph();
    let all = g.iter();
    assert_eq!(all.len(), 3);
    let a = iri("http://example.org/a");
    let c = iri("http://example.org/C");
    assert_eq!(count_of(&all, &triple(&a, &rdf_type(), &c)), 1);
}

#[test]
fn subset_property_single_bound() {
    let g = example_graph();
    let a = iri("http://example.org/a");
    let b = iri("http://example.org/b");
    let c = iri("http://example.org/C");

    let for_a = g.iter_for_s(&a);
    let by_hand: Vec<Triple> = g.iter().into_iter().filter(|t| t.s == a).collect();
    assert_eq!(for_a, by_hand);
    assert_eq!(for_a.len(), 2);

    assert_eq!(g.iter_for_p(&rdf_type()).len(), 2);
    assert_eq!(g.iter_for_o(&c).len(), 2);
    assert_eq!(g.iter_for_o(&b).len(), 0);
}

#[test]
fn subset_property_multi_bound() {
    let g = example_graph();
    let a = iri("http://example.org/a");
    let c = iri("http://example.org/C");

    assert_eq!(g.iter_for_sp(&a, &rdf_type()).len(), 1);
    assert_eq!(g.iter_for_so(&a, &c).len(), 1);
    assert_eq!(g.iter_for_po(&rdf_type(), &c).len(), 2);
    assert_eq!(g.iter_for_spo(&a, &rdf_type(), &c).len(), 1);
    assert_eq!(g.iter_for_spo(&a, &rdf_type(), &a).len(), 0);
}

#[test]
fn contains_consistency() {
    let g = example_graph();
    let a = iri("http://example.org/a");
    let b = iri("http://example.org/b");
    let c = iri("http://example.org/C");
    assert!(g.contains(&a, &rdf_type(), &c));
    assert!(g.contains(&a, &rdfs_label(), &lit("A")));
    assert!(!g.contains(&b, &rdfs_label(), &lit("A")));
    let t = triple(&a, &rdf_type(), &c);
    assert_eq!(g.contains(&a, &rdf_type(), &c), count_of(&g.iter(), &t) > 0);
}

#[test]
fn dispatch_matches_naive_scan_on_every_shape() {
    let g = example_graph();
    let a = iri("http://example.org/a");
    let c = iri("http://example.org/C");
    let p = rdf_type();

    let naive = |ms: &dyn Fn(&Term) -> bool, mp: &dyn Fn(&Term) -> bool, mo: &dyn Fn(&Term) -> bool| -> Vec<Triple> {
        g.iter().into_iter().filter(|t| ms(&t.s) && mp(&t.p) && mo(&t.o)).collect()
    };

    // Shapes: every combination of bound (a constant term) and free slots.
    let r = g.iter_matching(&AnyTerm, &AnyTerm, &AnyTerm);
    assert_eq!(r, naive(&|_| true, &|_| true, &|_| true));
    assert_eq!(r.len(), 3);

    let r = g.iter_matching(&a, &AnyTerm, &AnyTerm);
    assert_eq!(r, naive(&|s| *s == a, &|_| true, &|_| true));

    let r = g.iter_matching(&AnyTerm, &p, &AnyTerm);
    assert_eq!(r, naive(&|_| true, &|q| *q == p, &|_| true));

    let r = g.iter_matching(&AnyTerm, &AnyTerm, &c);
    assert_eq!(r, naive(&|_| true, &|_| true, &|o| *o == c));

    let r = g.iter_matching(&a, &p, &AnyTerm);
    assert_eq!(r, naive(&|s| *s == a, &|q| *q == p, &|_| true));

    let r = g.iter_matching(&a, &AnyTerm, &c);
    assert_eq!(r, naive(&|s| *s == a, &|_| true, &|o| *o == c));

    let r = g.iter_matching(&AnyTerm, &p, &c);
    assert_eq!(r, naive(&|_| true, &|q| *q == p, &|o| *o == c));

    let r = g.iter_matching(&a, &p, &c);
    assert_eq!(r, naive(&|s| *s == a, &|q| *q == p, &|o| *o == c));
}

#[test]
fn po_bound_shape_filters_subject_with_subject_matcher() {
    // Regression coverage for the shape with predicate and object bound:
    // the residual filter must test the subject with the subject matcher.
    let g = example_graph();
    let a = iri("http://example.org/a");
    let b = iri("http://example.org/b");
    let c = iri("http://example.org/C");
    let p = rdf_type();

    // Subject must NOT be a; predicate and object are bound constants.
    let r = g.iter_matching(&Negated(a.clone_term()), &p, &c);
    assert_eq!(r.len(), 1);
    assert_eq!(r[0], triple(&b, &p, &c));

    // Subject must not be b: keeps the (a, type, C) triple only.
    let r = g.iter_matching(&Negated(b.clone_term()), &p, &c);
    assert_eq!(r.len(), 1);
    assert_eq!(r[0], triple(&a, &p, &c));
}

#[test]
fn insert_remove_round_trip_with_duplicates() {
    let mut g = VecGraph::new();
    let a = iri("http://example.org/a");
    let c = iri("http://example.org/C");
    let p = rdf_type();
    let t = triple(&a, &p, &c);

    assert!(!g.contains(&a, &p, &c));
    assert!(g.insert(&a, &p, &c));
    assert!(g.contains(&a, &p, &c));
    assert!(g.insert(&a, &p, &c));
    assert_eq!(count_of(&g.iter(), &t), 2);

    assert!(g.remove(&a, &p, &c));
    assert_eq!(count_of(&g.iter(), &t), 1);
    assert!(g.contains(&a, &p, &c));
    assert!(g.remove(&a, &p, &c));
    assert!(!g.contains(&a, &p, &c));
    assert!(!g.remove(&a, &p, &c));
}

#[test]
fn remove_matching_counts_and_shrinks() {
    let mut g = example_graph();
    let before = g.iter().len();
    let removed = g.remove_matching(&AnyTerm, &rdf_type(), &AnyTerm);
    let after = g.iter().len();
    assert_eq!(removed, 2);
    assert_eq!(removed, before - after);
    let a = iri("http://example.org/a");
    assert_eq!(g.iter(), vec![triple(&a, &rdfs_label(), &lit("A"))]);
}

#[test]
fn retain_keeps_exactly_the_matching_triples() {
    let mut g = example_graph();
    let a = iri("http://example.org/a");
    g.retain(a.clone_term(), AnyTerm, AnyTerm);
    let all = g.iter();
    assert_eq!(all.len(), 2);
    assert!(all.iter().all(|t| t.s == a));

    let mut g = example_graph();
    g.retain(AnyTerm, rdf_type(), AnyTerm);
    assert_eq!(g.iter().len(), 2);
    assert!(g.iter().iter().all(|t| t.p == rdf_type()));

    // Retaining with all-accepting matchers changes nothing.
    let mut g = example_graph();
    g.retain(AnyTerm, AnyTerm, AnyTerm);
    assert_eq!(g.iter().len(), 3);
}

#[test]
fn scenario_po_lookup_then_remove_matching() {
    // g = {(a, type, C), (b, type, C), (a, label, "A")}
    let mut g = example_graph();
    let a = iri("http://example.org/a");
    let b = iri("http://example.org/b");
    let c = iri("http://example.org/C");

    let typed = g.iter_for_po(&rdf_type(), &c);
    assert_eq!(typed.len(), 2);
    assert_eq!(count_of(&typed, &triple(&a, &rdf_type(), &c)), 1);
    assert_eq!(count_of(&typed, &triple(&b, &rdf_type(), &c)), 1);

    let removed = g.remove_matching(&AnyTerm, &rdf_type(), &AnyTerm);
    assert_eq!(removed, 2);
    assert_eq!(g.iter(), vec![triple(&a, &rdfs_label(), &lit("A"))]);
}

#[test]
fn set_graph_insert_is_idempotent() {
    let mut g = SetVecGraph::new();
    let a = iri("http://example.org/a");
    let c = iri("http://example.org/C");
    let p = rdf_type();
    let t = triple(&a, &p, &c);

    assert!(g.insert(&a, &p, &c));
    assert!(!g.insert(&a, &p, &c));
    assert_eq!(count_of(&g.iter(), &t), 1);
    g.set_semantics();

    assert!(g.remove(&a, &p, &c));
    assert!(!g.remove(&a, &p, &c));
    assert_eq!(g.iter().len(), 0);
}

#[test]
fn set_graph_answers_derived_queries() {
    let mut g = SetVecGraph::new();
    let a = iri("http://example.org/a");
    let b = iri("http://example.org/b");
    let c = iri("http://example.org/C");
    assert!(g.insert(&a, &rdf_type(), &c));
    assert!(g.insert(&b, &rdf_type(), &c));
    assert_eq!(g.iter_for_po(&rdf_type(), &c).len(), 2);
    assert!(g.contains(&a, &rdf_type(), &c));
    assert_eq!(g.remove_matching(&AnyTerm, &AnyTerm, &c), 2);
    assert_eq!(g.iter().len(), 0);
}

#[test]
fn hints_stay_sound_and_never_loosen() {
    let g = example_graph();
    let a = iri("http://example.org/a");
    let c = iri("http://example.org/C");
    let p = rdf_type();

    // The derived defaults give the trivially sound estimate: zero lower
    // bound, and the broader query's upper bound (here unknown).
    let checks = vec![
        (g.hint(), g.iter().len()),
        (g.hint_for_s(&a), g.iter_for_s(&a).len()),
        (g.hint_for_p(&p), g.iter_for_p(&p).len()),
        (g.hint_for_o(&c), g.iter_for_o(&c).len()),
        (g.hint_for_sp(&a, &p), g.iter_for_sp(&a, &p).len()),
        (g.hint_for_so(&a, &c), g.iter_for_so(&a, &c).len()),
        (g.hint_for_po(&p, &c), g.iter_for_po(&p, &c).len()),
    ];
    for (hint, actual) in checks {
        assert!(hint.0 <= actual);
        if let Some(upper) = hint.1 {
            assert!(actual <= upper);
        }
    }
    // Refining by one more slot reuses the broader upper bound unchanged.
    assert_eq!(g.hint_for_sp(&a, &p).1, g.hint_for_s(&a).1);
    assert_eq!(g.hint_for_po(&p, &c).1, g.hint_for_p(&p).1);
}

#[test]
fn iteration_is_a_snapshot() {
    let mut g = example_graph();
    let a = iri("http://example.org/a");
    let before = g.iter();
    // Mutate after reading: the earlier snapshot must be unaffected.
    assert_eq!(g.remove_matching(&AnyTerm, &AnyTerm, &AnyTerm), 3);
    assert_eq!(before.len(), 3);
    assert_eq!(g.iter().len(), 0);
    // Mutate, then read: the new snapshot reflects the new state.
    assert!(g.insert(&a, &rdfs_label(), &lit("A")));
    assert_eq!(g.iter(), vec![triple(&a, &rdfs_label(), &lit("A"))]);
}

#[test]
fn empty_graph_edge_cases() {
    let mut g = VecGraph::new();
    let a = iri("http://example.org/a");
    assert_eq!(g.iter().len(), 0);
    assert!(!g.contains(&a, &a, &a));
    assert!(!g.remove(&a, &a, &a));
    assert_eq!(g.remove_matching(&AnyTerm, &AnyTerm, &AnyTerm), 0);
    assert_eq!(g.iter_matching(&AnyTerm, &AnyTerm, &AnyTerm).len(), 0);
    assert_eq!(g.hint().0, 0);
}
