//! Evaluator: walks a tree and reduces it to a typed value, or to no value
//! at all when the tree is not well typed.
//!
//! `Add` and `Multiply` need both children to evaluate to integers; `Or`
//! needs booleans and short-circuits, so a true left child decides the
//! result before the right child is even looked at.  A type mismatch is
//! the intended, non-fatal error channel: the result is simply absent, and
//! absence propagates upward.  An integer result that would not fit the
//! numeric domain is absent as well, never a crash.

use vstd::prelude::*;

use crate::parser::{ASTNode, ResultEval};

verus! {

/// What [`eval`] returns on `node`: the typed value of the tree, or `None`
/// for a type mismatch (or an integer result beyond the numeric domain).
pub open spec fn spec_eval(node: ASTNode) -> Option<ResultEval>
    decreases node,
{
    match node {
        ASTNode::Number(v) => Some(ResultEval::Int(v)),
        ASTNode::Bool(b) => Some(ResultEval::Bool(b)),
        ASTNode::Add(l, r) => match (spec_eval(*l), spec_eval(*r)) {
            (Some(ResultEval::Int(x)), Some(ResultEval::Int(y))) => {
                if x + y <= u8::MAX {
                    Some(ResultEval::Int((x + y) as u8))
                } else {
                    None
                }
            },
            _ => None,
        },
        ASTNode::Multiply(l, r) => match (spec_eval(*l), spec_eval(*r)) {
            (Some(ResultEval::Int(x)), Some(ResultEval::Int(y))) => {
                if x * y <= u8::MAX {
                    Some(ResultEval::Int((x * y) as u8))
                } else {
                    None
                }
            },
            _ => None,
        },
        ASTNode::Or(l, r) => match spec_eval(*l) {
            Some(ResultEval::Bool(true)) => Some(ResultEval::Bool(true)),
            Some(ResultEval::Bool(false)) => match spec_eval(*r) {
                Some(ResultEval::Bool(b)) => Some(ResultEval::Bool(b)),
                _ => None,
            },
            _ => None,
        },
    }
}

/// Evaluates `node` exactly as [`spec_eval`] says.  `Add` and `Multiply`
/// succeed only when both children evaluate to integers, and the result is
/// ordinary integer arithmetic; evaluation is absent as soon as either
/// child's is absent or not an integer.  `Or` short-circuits: a true left
/// child returns `Bool(true)` with the right child never evaluated; a false
/// left child returns the boolean classification of the right child; a left
/// child that is absent or an integer makes the whole result absent.
pub fn eval(node: &ASTNode) -> (r: Option<ResultEval>)
    ensures
        r == spec_eval(*node),
    decreases *node,
{
    match node {
        ASTNode::Number(value) => Some(ResultEval::Int(*value)),
        ASTNode::Bool(value) => Some(ResultEval::Bool(*value)),
        ASTNode::Add(left, right) => {
            let l1 = eval(left);
            let r1 = eval(right);
            match (l1, r1) {
                (Some(ResultEval::Int(x)), Some(ResultEval::Int(y))) => match x.checked_add(y) {
                    Some(sum) => Some(ResultEval::Int(sum)),
                    None => None,
                },
                _ => None,
            }
        },
        ASTNode::Multiply(left, right) => {
            let l1 = eval(left);
            let r1 = eval(right);
            match (l1, r1) {
                (Some(ResultEval::Int(x)), Some(ResultEval::Int(y))) => match x.checked_mul(y) {
                    Some(product) => Some(ResultEval::Int(product)),
                    None => None,
                },
                _ => None,
            }
        },
        ASTNode::Or(left, right) => {
            let l1 = eval(left);
            match l1 {
                Some(ResultEval::Bool(true)) => Some(ResultEval::Bool(true)),
                Some(ResultEval::Bool(false)) => {
                    let r1 = eval(right);
                    match r1 {
                        Some(ResultEval::Bool(b)) => Some(ResultEval::Bool(b)),
                        _ => None,
                    }
                },
                _ => None,
            }
        },
    }
}

} // verus!
