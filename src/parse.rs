use vstd::prelude::*;

use crate::expr::{Expr, LabelMatcher};

verus! {

#[verifier::external_type_specification]
#[verifier::external_body]
pub struct ExNode(promql::Node);

#[verifier::external_type_specification]
#[verifier::external_body]
pub struct ExLabelMatch(promql::LabelMatch);

/// The tree that promql's parser gives for `text` under its default options,
/// or `None` where it rejects the text.
pub uninterp spec fn parsed_query(text: Seq<char>) -> Option<Expr>;

/// Relies on promql::parse with default `ParserOptions`: a deterministic parser,
/// so its outcome depends on the text alone.
#[verifier::external_body]
pub(crate) fn parse_query(text: &String) -> (r: Option<Expr>)
    ensures
        r == parsed_query(text@),
{
    match promql::parse(text.as_bytes(), &promql::ParserOptions::default()) {
        Ok(node) => Some(expr_from_node(node)),
        Err(_) => None,
    }
}

/// Carries a promql syntax tree over into `Expr`, node for node; numbers and
/// string literals become `Expr::Other`.
#[verifier::external_body]
fn expr_from_node(node: promql::Node) -> Expr {
    match node {
        promql::Node::Operator { args, .. } => Expr::BinaryOp {
            operands: args.into_iter().map(expr_from_node).collect(),
        },
        promql::Node::Vector(v) => Expr::VectorSelector {
            matchers: v.labels.into_iter().map(matcher_from_label).collect(),
        },
        promql::Node::Function { name, args, .. } => Expr::FunctionCall {
            name,
            args: args.into_iter().map(expr_from_node).collect(),
        },
        promql::Node::Negation(inner) => Expr::Negation(Box::new(expr_from_node(*inner))),
        _ => Expr::Other,
    }
}

/// Carries a promql label matcher over; promql holds the value as raw bytes,
/// read here as UTF-8 (`String::from_utf8_lossy`).
#[verifier::external_body]
fn matcher_from_label(label: promql::LabelMatch) -> LabelMatcher {
    LabelMatcher { name: label.name, value: String::from_utf8_lossy(&label.value).into_owned() }
}

} // verus!
