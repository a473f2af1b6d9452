use vstd::prelude::*;

use crate::names::{distinct_names, insert_name, names};

verus! {

/// A label matcher of a vector selector, `name` compared against `value`.
#[derive(Clone, Debug)]
pub struct LabelMatcher {
    pub name: String,
    pub value: String,
}

/// A parsed query expression, reduced to what metric extraction reads.
#[derive(Debug)]
pub enum Expr {
    /// A chain of binary operators over its operands, e.g. `a + b`.
    BinaryOp { operands: Vec<Expr> },
    /// A time series selector.
    VectorSelector { matchers: Vec<LabelMatcher> },
    /// A function call or an aggregation.
    FunctionCall { name: String, args: Vec<Expr> },
    /// Unary negation.
    Negation(Box<Expr>),
    /// Any other node: a number or a string literal.
    Other,
}

/// Whether `e` selects the metric named `m`, at any depth.
pub open spec fn mentions(e: Expr, m: Seq<char>) -> bool
    decreases e,
{
    match e {
        Expr::BinaryOp { operands } => mentions_any(operands@, m),
        Expr::VectorSelector { matchers } => exists|i: int|
            0 <= i < matchers.len() && (#[trigger] matchers@[i]).name@ == "__name__"@
                && matchers@[i].value@ == m,
        Expr::FunctionCall { name, args } => mentions_any(args@, m),
        Expr::Negation(inner) => mentions(*inner, m),
        Expr::Other => false,
    }
}

/// Whether one of `es` selects the metric named `m`.
pub open spec fn mentions_any(es: Seq<Expr>, m: Seq<char>) -> bool
    decreases es,
{
    if es.len() == 0 {
        false
    } else {
        mentions_any(es.drop_last(), m) || mentions(es.last(), m)
    }
}

/// The set of metric names that `e` refers to.
pub open spec fn metrics_of(e: Expr) -> Set<Seq<char>> {
    Set::new(|m: Seq<char>| mentions(e, m))
}

/// The metrics selected by at least one of the first `n` expressions of `es`.
pub open spec fn metrics_of_first(es: Seq<Expr>, n: int) -> Set<Seq<char>> {
    Set::new(|m: Seq<char>| exists|k: int| 0 <= k < n && #[trigger] mentions(es[k], m))
}

/// `mentions_any` is the union over the list.
proof fn lemma_mentions_any(es: Seq<Expr>, m: Seq<char>)
    ensures
        mentions_any(es, m) == metrics_of_first(es, es.len() as int).contains(m),
    decreases es.len(),
{
    if es.len() > 0 {
        lemma_mentions_any(es.drop_last(), m);
        let n = es.len() - 1;
        if mentions(es.last(), m) {
            assert(mentions(es[n], m));
            assert(metrics_of_first(es, es.len() as int).contains(m));
        }
        if metrics_of_first(es.drop_last(), n).contains(m) {
            let k = choose|k: int| 0 <= k < n && #[trigger] mentions(es.drop_last()[k], m);
            assert(mentions(es[k], m));
        }
        if metrics_of_first(es, es.len() as int).contains(m) {
            let k = choose|k: int| 0 <= k < es.len() && #[trigger] mentions(es[k], m);
            if k < n {
                assert(mentions(es.drop_last()[k], m));
            }
        }
    }
}

/// Adds to `metrics` every metric name that `ast` refers to.
pub fn get_used_metrics_from_node(ast: &Expr, metrics: &mut Vec<String>)
    requires
        distinct_names(old(metrics)@),
    ensures
        distinct_names(final(metrics)@),
        names(final(metrics)@) == names(old(metrics)@).union(metrics_of(*ast)),
    decreases ast,
{
    match ast {
        Expr::BinaryOp { operands } => {
            get_used_metrics_from_all(operands, metrics);
            assert forall|m: Seq<char>| #[trigger] mentions(*ast, m) == metrics_of_first(operands@, operands@.len() as int).contains(m) by {
                lemma_mentions_any(operands@, m);
            }
            assert(metrics_of(*ast) =~= metrics_of_first(operands@, operands@.len() as int));
        },
        Expr::VectorSelector { matchers } => {
            let label: String = "__name__".to_owned();
            let mut i: usize = 0;
            while i < matchers.len()
                invariant
                    0 <= i <= matchers.len(),
                    label@ == "__name__"@,
                    distinct_names(metrics@),
                    names(metrics@) == names(old(metrics)@).union(Set::new(|m: Seq<char>|
                        exists|k: int| 0 <= k < i && (#[trigger] matchers@[k]).name@ == "__name__"@
                            && matchers@[k].value@ == m)),
                decreases matchers.len() - i,
            {
                let ghost before = names(metrics@);
                if matchers[i].name == label {
                    insert_name(metrics, matchers[i].value.clone());
                }
                i = i + 1;
                assert(names(metrics@) =~= names(old(metrics)@).union(Set::new(|m: Seq<char>|
                    exists|k: int| 0 <= k < i && (#[trigger] matchers@[k]).name@ == "__name__"@
                        && matchers@[k].value@ == m))) by {
                    assert forall|m: Seq<char>| (exists|k: int| 0 <= k < i && (#[trigger] matchers@[k]).name@ == "__name__"@
                        && matchers@[k].value@ == m) implies names(metrics@).contains(m) by {
                        let k = choose|k: int| 0 <= k < i && (#[trigger] matchers@[k]).name@ == "__name__"@
                            && matchers@[k].value@ == m;
                        if k < i - 1 {
                            assert(before.contains(m));
                        }
                    }
                }
            }
            assert(metrics_of(*ast) =~= Set::new(|m: Seq<char>|
                exists|k: int| 0 <= k < matchers.len() && (#[trigger] matchers@[k]).name@ == "__name__"@
                    && matchers@[k].value@ == m));
        },
        Expr::FunctionCall { name: _, args } => {
            get_used_metrics_from_all(args, metrics);
            assert forall|m: Seq<char>| #[trigger] mentions(*ast, m) == metrics_of_first(args@, args@.len() as int).contains(m) by {
                lemma_mentions_any(args@, m);
            }
            assert(metrics_of(*ast) =~= metrics_of_first(args@, args@.len() as int));
        },
        Expr::Negation(inner) => {
            get_used_metrics_from_node(inner, metrics);
            assert(metrics_of(*ast) =~= metrics_of(**inner));
        },
        Expr::Other => {
            assert(metrics_of(*ast) =~= Set::empty());
            assert(names(metrics@) =~= names(old(metrics)@).union(metrics_of(*ast)));
        },
    }
}

/// Adds to `metrics` every metric name that one of `es` refers to, in order.
fn get_used_metrics_from_all(es: &Vec<Expr>, metrics: &mut Vec<String>)
    requires
        distinct_names(old(metrics)@),
    ensures
        distinct_names(final(metrics)@),
        names(final(metrics)@) == names(old(metrics)@).union(metrics_of_first(es@, es@.len() as int)),
    decreases es,
{
    let mut i: usize = 0;
    while i < es.len()
        invariant
            0 <= i <= es.len(),
            distinct_names(metrics@),
            names(metrics@) == names(old(metrics)@).union(metrics_of_first(es@, i as int)),
        decreases es.len() - i,
    {
        let ghost before = names(metrics@);
        proof {
            vstd::std_specs::vec::axiom_vec_index_decreases(*es, i as int);
        }
        get_used_metrics_from_node(&es[i], metrics);
        i = i + 1;
        assert(names(metrics@) =~= names(old(metrics)@).union(metrics_of_first(es@, i as int))) by {
            assert forall|m: Seq<char>| metrics_of_first(es@, i as int).contains(m) implies names(metrics@).contains(m) by {
                let k = choose|k: int| 0 <= k < i && #[trigger] mentions(es@[k], m);
                if k < i - 1 {
                    assert(metrics_of_first(es@, i - 1).contains(m));
                } else {
                    assert(metrics_of(es@[k]).contains(m));
                }
            }
            assert forall|m: Seq<char>| names(metrics@).contains(m) implies names(old(metrics)@).union(metrics_of_first(es@, i as int)).contains(m) by {
                if before.contains(m) {
                    if !names(old(metrics)@).contains(m) {
                        let k = choose|k: int| 0 <= k < i - 1 && #[trigger] mentions(es@[k], m);
                        assert(0 <= k < i && mentions(es@[k], m));
                    }
                } else {
                    assert(metrics_of(es@[i - 1]).contains(m));
                    assert(mentions(es@[i - 1], m));
                }
            }
        }
    }
}

/// Whether `e` holds a vector selector at any depth.
pub open spec fn has_selector(e: Expr) -> bool
    decreases e,
{
    match e {
        Expr::BinaryOp { operands } => has_selector_any(operands@),
        Expr::VectorSelector { .. } => true,
        Expr::FunctionCall { name, args } => has_selector_any(args@),
        Expr::Negation(inner) => has_selector(*inner),
        Expr::Other => false,
    }
}

/// Whether one of `es` holds a vector selector.
pub open spec fn has_selector_any(es: Seq<Expr>) -> bool
    decreases es,
{
    if es.len() == 0 {
        false
    } else {
        has_selector_any(es.drop_last()) || has_selector(es.last())
    }
}

/// An expression without vector selectors refers to no metric.
pub proof fn lemma_no_selector_no_metrics(e: Expr)
    requires
        !has_selector(e),
    ensures
        metrics_of(e) == Set::<Seq<char>>::empty(),
{
    assert forall|m: Seq<char>| !mentions(e, m) by {
        lemma_no_selector_mentions(e, m);
    }
    assert(metrics_of(e) =~= Set::<Seq<char>>::empty());
}

proof fn lemma_no_selector_mentions(e: Expr, m: Seq<char>)
    requires
        !has_selector(e),
    ensures
        !mentions(e, m),
    decreases e,
{
    match e {
        Expr::BinaryOp { operands } => lemma_no_selector_mentions_any(operands@, m),
        Expr::FunctionCall { name, args } => lemma_no_selector_mentions_any(args@, m),
        Expr::Negation(inner) => lemma_no_selector_mentions(*inner, m),
        _ => {},
    }
}

proof fn lemma_no_selector_mentions_any(es: Seq<Expr>, m: Seq<char>)
    requires
        !has_selector_any(es),
    ensures
        !mentions_any(es, m),
    decreases es,
{
    if es.len() > 0 {
        lemma_no_selector_mentions_any(es.drop_last(), m);
        lemma_no_selector_mentions(es.last(), m);
    }
}

} // verus!
